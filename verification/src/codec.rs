//! Fixed-layout binary codec for the event record shared with the producer.
//!
//! The wire format is an ABI contract: little-endian `u32` fields in a fixed
//! order, either three fields (12 bytes) or, for the legacy producer, two
//! fields (8 bytes).  The layout in use is selected by configuration, never
//! inferred from the payload beyond the minimum-length check.

use vstd::bytes::{
    lemma_auto_spec_u32_to_from_le_bytes, spec_u32_from_le_bytes, spec_u32_to_le_bytes,
    u32_from_le_bytes, u32_to_le_bytes,
};
use vstd::prelude::*;

verus! {

/// Sentinel on a stack-id field: no stack was captured for that domain.
pub const STACK_ABSENT: u32 = u32::MAX;

/// One event record, as the producer lays it out.
///
/// A stack-id field equal to [`STACK_ABSENT`] means that no stack was
/// captured for that domain.
///
/// The lower-case name is the producer's: the record is its ABI.
#[allow(non_camel_case_types)]
#[derive(Clone, Copy, Debug, PartialEq, Eq, Structural)]
pub struct event {
    pub pid: u32,
    pub kernel_stackid: u32,
    pub user_stackid: u32,
}

/// The record layout the producer was built with, chosen by configuration.
#[derive(Clone, Copy, Debug, PartialEq, Eq, Structural)]
pub enum Layout {
    /// `pid, kernel_stackid, user_stackid`: 12 bytes.
    ThreeField,
    /// Legacy `pid, kernel_stackid`: 8 bytes.
    TwoField,
}

/// Why a record failed to decode.
#[derive(Clone, Copy, Debug, PartialEq, Eq, Structural)]
pub enum DecodeError {
    /// The buffer is shorter than the configured record size.
    TruncatedRecord,
}

impl Layout {
    /// Size in bytes of one record under this layout.
    pub open spec fn spec_size(self) -> nat {
        match self {
            Layout::ThreeField => 12,
            Layout::TwoField => 8,
        }
    }

    /// Size in bytes of one record under this layout.
    pub fn size(&self) -> (n: usize)
        ensures
            n == self.spec_size(),
    {
        match self {
            Layout::ThreeField => 12,
            Layout::TwoField => 8,
        }
    }
}

/// The event a byte buffer decodes to, or the error it fails with.
///
/// A buffer shorter than the configured record size is a `TruncatedRecord`;
/// extra trailing bytes are ignored.  The legacy layout carries no user
/// stack id, so decoding it always yields [`STACK_ABSENT`] there.
pub open spec fn spec_decode(b: Seq<u8>, layout: Layout) -> Result<event, DecodeError> {
    if b.len() < layout.spec_size() {
        Err(DecodeError::TruncatedRecord)
    } else {
        match layout {
            Layout::ThreeField => Ok(
                event {
                    pid: spec_u32_from_le_bytes(b.subrange(0, 4)),
                    kernel_stackid: spec_u32_from_le_bytes(b.subrange(4, 8)),
                    user_stackid: spec_u32_from_le_bytes(b.subrange(8, 12)),
                },
            ),
            Layout::TwoField => Ok(
                event {
                    pid: spec_u32_from_le_bytes(b.subrange(0, 4)),
                    kernel_stackid: spec_u32_from_le_bytes(b.subrange(4, 8)),
                    user_stackid: STACK_ABSENT,
                },
            ),
        }
    }
}

/// The byte encoding of an event under a layout: each field as four
/// little-endian bytes, in field order.  The legacy layout drops the user
/// stack id.
pub open spec fn spec_encode(e: event, layout: Layout) -> Seq<u8> {
    match layout {
        Layout::ThreeField => spec_u32_to_le_bytes(e.pid) + spec_u32_to_le_bytes(e.kernel_stackid)
            + spec_u32_to_le_bytes(e.user_stackid),
        Layout::TwoField => spec_u32_to_le_bytes(e.pid) + spec_u32_to_le_bytes(e.kernel_stackid),
    }
}

/// Decode one record from the front of `buf` under the configured layout.
///
/// Pure and allocation-free.  Fails with `TruncatedRecord` exactly when the
/// buffer is shorter than the layout's record size, and then produces no
/// partial event.
pub fn decode(buf: &[u8], layout: Layout) -> (r: Result<event, DecodeError>)
    ensures
        r == spec_decode(buf@, layout),
        buf@.len() < layout.spec_size() <==> r == Err::<event, DecodeError>(
            DecodeError::TruncatedRecord,
        ),
{
    let n = buf.len();
    if n < layout.size() {
        return Err(DecodeError::TruncatedRecord);
    }
    let pid = u32_from_le_bytes(vstd::slice::slice_subrange(buf, 0, 4));
    let kernel_stackid = u32_from_le_bytes(vstd::slice::slice_subrange(buf, 4, 8));
    let user_stackid = match layout {
        Layout::ThreeField => u32_from_le_bytes(vstd::slice::slice_subrange(buf, 8, 12)),
        Layout::TwoField => STACK_ABSENT,
    };
    Ok(event { pid, kernel_stackid, user_stackid })
}

/// Encode an event into the exact byte layout the producer uses.
pub fn encode(e: &event, layout: Layout) -> (r: Vec<u8>)
    ensures
        r@ == spec_encode(*e, layout),
        r@.len() == layout.spec_size(),
{
    proof {
        lemma_auto_spec_u32_to_from_le_bytes();
    }
    let mut out = u32_to_le_bytes(e.pid);
    let mut mid = u32_to_le_bytes(e.kernel_stackid);
    out.append(&mut mid);
    if let Layout::ThreeField = layout {
        let mut last = u32_to_le_bytes(e.user_stackid);
        out.append(&mut last);
    }
    out
}

/// Round trip: a record encoded under a layout decodes back to the same
/// event under that layout.  The legacy layout does not carry a user stack
/// id, so there the statement asks that the event had none captured.
pub proof fn lemma_decode_encode(e: event, layout: Layout)
    requires
        layout == Layout::TwoField ==> e.user_stackid == STACK_ABSENT,
    ensures
        spec_decode(spec_encode(e, layout), layout) == Ok::<event, DecodeError>(e),
{
    lemma_auto_spec_u32_to_from_le_bytes();
    let b = spec_encode(e, layout);
    let p = spec_u32_to_le_bytes(e.pid);
    let k = spec_u32_to_le_bytes(e.kernel_stackid);
    match layout {
        Layout::ThreeField => {
            let u = spec_u32_to_le_bytes(e.user_stackid);
            assert(b.subrange(0, 4) =~= p);
            assert(b.subrange(4, 8) =~= k);
            assert(b.subrange(8, 12) =~= u);
        },
        Layout::TwoField => {
            assert(b.subrange(0, 4) =~= p);
            assert(b.subrange(4, 8) =~= k);
        },
    }
}

} // verus!
