//! Process-name side channel: pid to 16-byte null-padded name.
//!
//! The table is populated out of band by the kernel-side instrumentation;
//! the pipeline only reads it.  A missing entry is an expected, transient
//! condition (the probe fired before the name was recorded), never an
//! error: the consumer renders an empty name for it.

use std::collections::HashMap;
use vstd::prelude::*;

verus! {

broadcast use vstd::std_specs::hash::group_hash_axioms;

/// Length in bytes of a stored process name, including null padding.
pub const COMM_LEN: usize = 16;

/// One 16-byte null-padded process name, as the producer stores it.
#[derive(Debug)]
pub struct CommRecord {
    bytes: Vec<u8>,
}

/// `b` with its trailing NUL padding removed.
pub open spec fn spec_trimmed(b: Seq<u8>) -> Seq<u8>
    decreases b.len(),
{
    if b.len() == 0 {
        b
    } else if b.last() == 0 {
        spec_trimmed(b.drop_last())
    } else {
        b
    }
}

impl CommRecord {
    /// The raw 16 bytes, padding included.
    pub closed spec fn view(&self) -> Seq<u8> {
        self.bytes@
    }

    /// A record is well formed when it holds exactly [`COMM_LEN`] bytes.
    pub open spec fn wf(&self) -> bool {
        self@.len() == COMM_LEN
    }

    /// Take a record from a raw buffer; only exactly 16 bytes are accepted.
    pub fn new(bytes: &[u8]) -> (r: Option<CommRecord>)
        ensures
            match r {
                Some(rec) => bytes@.len() == COMM_LEN && rec@ == bytes@ && rec.wf(),
                None => bytes@.len() != COMM_LEN,
            },
    {
        if bytes.len() == COMM_LEN {
            Some(CommRecord { bytes: vstd::slice::slice_to_vec(bytes) })
        } else {
            None
        }
    }

    /// The name bytes with the trailing NUL padding removed.
    pub fn name_bytes(&self) -> (r: Vec<u8>)
        ensures
            r@ == spec_trimmed(self@),
    {
        let mut end = self.bytes.len();
        proof {
            assert(self@.take(self.bytes@.len() as int) =~= self@);
        }
        while end > 0 && self.bytes[end - 1] == 0
            invariant
                end <= self.bytes.len(),
                spec_trimmed(self@) == spec_trimmed(self@.take(end as int)),
            decreases end,
        {
            proof {
                assert(self@.take(end as int).drop_last() =~= self@.take(end - 1));
            }
            end = end - 1;
        }
        let mut out: Vec<u8> = Vec::new();
        let mut i: usize = 0;
        proof {
            if end > 0 {
                assert(spec_trimmed(self@.take(end as int)) == self@.take(end as int));
            } else {
                assert(spec_trimmed(self@.take(0)) =~= self@.take(0));
            }
        }
        while i < end
            invariant
                i <= end,
                end <= self.bytes.len(),
                out@ =~= self@.take(end as int).take(i as int),
            decreases end - i,
        {
            out.push(self.bytes[i]);
            i = i + 1;
        }
        proof {
            assert(out@ =~= self@.take(end as int));
        }
        out
    }
}

/// Read-only view of the producer's pid-to-name table.
///
/// Reads never block and never fail: an absent pid simply returns nothing.
/// The producer overwrites entries in place (last write wins), so the table
/// holds at most one record per pid at any instant.
#[derive(Debug)]
pub struct CommTable {
    inner: HashMap<u32, CommRecord>,
}

impl CommTable {
    /// The table as a map from pid to the raw 16 name bytes.
    pub closed spec fn view(&self) -> Map<u32, Seq<u8>> {
        Map::new(|pid: u32| self.inner@.contains_key(pid), |pid: u32| self.inner@[pid]@)
    }

    /// Every stored record holds exactly [`COMM_LEN`] bytes.
    pub closed spec fn wf(&self) -> bool {
        forall|pid: u32| #[trigger]
            self.inner@.contains_key(pid) ==> self.inner@[pid]@.len() == COMM_LEN
    }

    /// An empty table.
    pub fn new() -> (r: CommTable)
        ensures
            r.wf(),
            r@ == Map::<u32, Seq<u8>>::empty(),
    {
        let r = CommTable { inner: HashMap::new() };
        proof {
            assert(r@ =~= Map::<u32, Seq<u8>>::empty());
        }
        r
    }

    /// Record a name for a pid, replacing any earlier record (last write
    /// wins, as the producer does).
    pub fn insert(&mut self, pid: u32, rec: CommRecord)
        requires
            old(self).wf(),
            rec.wf(),
        ensures
            final(self).wf(),
            final(self)@ == old(self)@.insert(pid, rec@),
    {
        self.inner.insert(pid, rec);
        proof {
            assert(self@ =~= old(self)@.insert(pid, rec@));
        }
    }

    /// Look a pid up; an absent entry is a normal outcome, not an error.
    pub fn lookup(&self, pid: u32) -> (r: Option<CommRecord>)
        requires
            self.wf(),
        ensures
            match r {
                Some(rec) => self@.contains_key(pid) && rec@ == self@[pid] && rec.wf(),
                None => !self@.contains_key(pid),
            },
    {
        match self.inner.get(&pid) {
            Some(rec) => Some(CommRecord { bytes: vstd::slice::slice_to_vec(rec.bytes.as_slice()) }),
            None => None,
        }
    }
}

} // verus!
