//! Text rendering and the ordered event sink.
//!
//! One line per event, and, with stack capture on, one line per resolved
//! frame, prefixed by its capture domain.  The sink is append-only: lines
//! go out in exactly the order they were emitted, which is what gives one
//! CPU's stream its ordering guarantee.

use crate::comm::{spec_trimmed, CommRecord};
use crate::resolver::{Domain, Frame, FrameV};
use vstd::prelude::*;

verus! {

/// The digit character for `d`: decimal for the first ten values,
/// lowercase letters beyond.
pub open spec fn spec_digit(d: nat) -> char
    recommends
        d < 16,
{
    if d < 10 {
        ((48 + d) as u8) as char
    } else {
        ((87 + d) as u8) as char
    }
}

/// `n` in decimal, most significant digit first, no leading zeros.
pub open spec fn spec_dec(n: nat) -> Seq<char>
    decreases n,
{
    if n < 10 {
        seq![spec_digit(n)]
    } else {
        spec_dec(n / 10).push(spec_digit(n % 10))
    }
}

/// `n` in lowercase hexadecimal, most significant digit first, no
/// leading zeros and no prefix.
pub open spec fn spec_hex(n: nat) -> Seq<char>
    decreases n,
{
    if n < 16 {
        seq![spec_digit(n)]
    } else {
        spec_hex(n / 16).push(spec_digit(n % 16))
    }
}

/// A UTF-8 continuation byte.
pub open spec fn spec_is_cont(b: u8) -> bool {
    0x80 <= b && b <= 0xBF
}

/// The bytes acceptable in second position after the lead byte `b0` of a
/// well-formed sequence.  The narrowed ranges for `E0`, `ED`, `F0` and
/// `F4` fold the overlong-encoding and surrogate exclusions into the
/// second byte, as std's decoder has them.
pub open spec fn spec_valid_second(b0: u8, b1: u8) -> bool {
    if b0 == 0xE0 {
        0xA0 <= b1 && b1 <= 0xBF
    } else if b0 == 0xED {
        0x80 <= b1 && b1 <= 0x9F
    } else if b0 == 0xF0 {
        0x90 <= b1 && b1 <= 0xBF
    } else if b0 == 0xF4 {
        0x80 <= b1 && b1 <= 0x8F
    } else {
        spec_is_cont(b1)
    }
}

/// Whether `b` opens with one complete well-formed UTF-8 sequence.
pub open spec fn spec_step_ok(b: Seq<u8>) -> bool
    recommends
        b.len() > 0,
{
    let b0 = b[0];
    if b0 < 0x80 {
        true
    } else if b0 < 0xC2 {
        false
    } else if b0 < 0xE0 {
        2 <= b.len() && spec_is_cont(b[1])
    } else if b0 < 0xF0 {
        3 <= b.len() && spec_valid_second(b0, b[1]) && spec_is_cont(b[2])
    } else if b0 < 0xF5 {
        4 <= b.len() && spec_valid_second(b0, b[1]) && spec_is_cont(b[2]) && spec_is_cont(b[3])
    } else {
        false
    }
}

/// How many bytes the first decoded unit of `b` consumes: the whole
/// well-formed sequence, or the maximal prefix of one that cannot be
/// completed (the "maximal subpart" that lossy decoding replaces as a
/// unit), never zero.
pub open spec fn spec_step_len(b: Seq<u8>) -> nat
    recommends
        b.len() > 0,
{
    let b0 = b[0];
    if b0 < 0xC2 {
        1
    } else if b0 < 0xE0 {
        if 2 <= b.len() && spec_is_cont(b[1]) {
            2
        } else {
            1
        }
    } else if b0 < 0xF0 {
        if 2 <= b.len() && spec_valid_second(b0, b[1]) {
            if 3 <= b.len() && spec_is_cont(b[2]) {
                3
            } else {
                2
            }
        } else {
            1
        }
    } else if b0 < 0xF5 {
        if 2 <= b.len() && spec_valid_second(b0, b[1]) {
            if 3 <= b.len() && spec_is_cont(b[2]) {
                if 4 <= b.len() && spec_is_cont(b[3]) {
                    4
                } else {
                    3
                }
            } else {
                2
            }
        } else {
            1
        }
    } else {
        1
    }
}

/// The scalar value of the well-formed sequence `b` opens with.
pub open spec fn spec_step_scalar(b: Seq<u8>) -> u32
    recommends
        b.len() > 0,
        spec_step_ok(b),
{
    let b0 = b[0];
    if b0 < 0x80 {
        b0 as u32
    } else if b0 < 0xE0 {
        ((b0 - 0xC0) * 0x40 + (b[1] - 0x80)) as u32
    } else if b0 < 0xF0 {
        ((b0 - 0xE0) * 0x1000 + (b[1] - 0x80) * 0x40 + (b[2] - 0x80)) as u32
    } else {
        ((b0 - 0xF0) * 0x40000 + (b[1] - 0x80) * 0x1000 + (b[2] - 0x80) * 0x40 + (b[3]
            - 0x80)) as u32
    }
}

/// The character the first unit of `b` decodes to: its scalar value for
/// a well-formed sequence, the replacement character otherwise.
pub open spec fn spec_step_char(b: Seq<u8>) -> char
    recommends
        b.len() > 0,
{
    if spec_step_ok(b) {
        spec_step_scalar(b) as char
    } else {
        '\u{fffd}'
    }
}

/// The lossy UTF-8 decode of `b`, as std's `String::from_utf8_lossy`
/// gives it: each well-formed sequence becomes its character, and each
/// maximal subpart of an ill-formed one becomes one replacement
/// character.
pub open spec fn spec_utf8_lossy(b: Seq<u8>) -> Seq<char>
    decreases b.len(),
{
    if b.len() == 0 {
        Seq::empty()
    } else {
        seq![spec_step_char(b)] + spec_utf8_lossy(b.skip(spec_step_len(b) as int))
    }
}

/// How a stored 16-byte name renders: trailing NUL padding dropped, the
/// remaining bytes decoded as lossy UTF-8.
pub open spec fn spec_comm_name(b: Seq<u8>) -> Seq<char> {
    spec_utf8_lossy(spec_trimmed(b))
}

/// How a looked-up name renders: an absent entry renders as the empty
/// name, never as an error.
pub open spec fn spec_comm_display(c: Option<Seq<u8>>) -> Seq<char> {
    match c {
        Some(b) => spec_comm_name(b),
        None => Seq::empty(),
    }
}

/// The placeholder for a frame the symbol table does not cover.
pub open spec fn spec_unknown_symbol() -> Seq<char> {
    "[unknown symbol name]"@
}

/// The one line every event produces:
/// `cpu<cpu>: pid(<pid>)(<comm>) hit!`.
pub open spec fn spec_event_line(cpu: u32, pid: u32, comm: Option<Seq<u8>>) -> Seq<char> {
    "cpu"@ + spec_dec(cpu as nat) + ": pid("@ + spec_dec(pid as nat) + ")("@ + spec_comm_display(
        comm,
    ) + ") hit!"@
}

/// The prefix a frame line carries for its capture domain.
pub open spec fn spec_domain_prefix(domain: Domain) -> Seq<char> {
    match domain {
        Domain::Kernel => "kernel: "@,
        Domain::User => "user: "@,
    }
}

/// One line per resolved frame:
/// `<domain>: 0x<ip in hex> <symbol or placeholder>`.
pub open spec fn spec_frame_line(domain: Domain, f: FrameV) -> Seq<char> {
    spec_domain_prefix(domain) + "0x"@ + spec_hex(f.ip as nat) + " "@ + (match f.symbol_name {
        Some(s) => s,
        None => spec_unknown_symbol(),
    })
}

/// Relies on std's `String::push`: appends exactly the one character.
#[verifier::external_body]
fn push_char(s: &mut String, c: char)
    ensures
        final (s)@ == old(s)@.push(c),
{
    s.push(c);
}

/// Relies on std's `char::from_u32`: for a Unicode scalar value it
/// returns the character with exactly that value.
#[verifier::external_body]
fn char_from_scalar(v: u32) -> (c: char)
    requires
        v < 0xD800 || (0xE000 <= v && v <= 0x10FFFF),
    ensures
        c == (v as char),
        c as u32 == v,
{
    match char::from_u32(v) {
        Some(c) => c,
        None => '\u{0}',
    }
}

/// Append the digit character for `d`.
fn push_digit(s: &mut String, d: u64)
    requires
        d < 16,
    ensures
        final (s)@ == old(s)@.push(spec_digit(d as nat)),
{
    let c: char = if d < 10 {
        (48 + d as u8) as char
    } else {
        (87 + d as u8) as char
    };
    push_char(s, c);
}

/// Append `n` in decimal.
fn push_dec(s: &mut String, n: u64)
    ensures
        final (s)@ == old(s)@ + spec_dec(n as nat),
    decreases n,
{
    if n >= 10 {
        push_dec(s, n / 10);
    }
    push_digit(s, n % 10);
    proof {
        if n < 10 {
            assert(old(s)@ + spec_dec(n as nat) =~= old(s)@.push(spec_digit(n as nat)));
        } else {
            assert(old(s)@ + spec_dec(n as nat) =~= (old(s)@ + spec_dec((n / 10) as nat)).push(
                spec_digit((n % 10) as nat),
            ));
        }
    }
}

/// Append `n` in lowercase hexadecimal, without a prefix.
fn push_hex(s: &mut String, n: u64)
    ensures
        final (s)@ == old(s)@ + spec_hex(n as nat),
    decreases n,
{
    if n >= 16 {
        push_hex(s, n / 16);
    }
    push_digit(s, n % 16);
    proof {
        if n < 16 {
            assert(old(s)@ + spec_hex(n as nat) =~= old(s)@.push(spec_digit(n as nat)));
        } else {
            assert(old(s)@ + spec_hex(n as nat) =~= (old(s)@ + spec_hex((n / 16) as nat)).push(
                spec_digit((n % 16) as nat),
            ));
        }
    }
}

/// Whether `b` is a UTF-8 continuation byte.
fn is_cont_byte(b: u8) -> (r: bool)
    ensures
        r == spec_is_cont(b),
{
    0x80 <= b && b <= 0xBF
}

/// Whether `b1` may stand second after the lead byte `b0`.
fn valid_second_byte(b0: u8, b1: u8) -> (r: bool)
    ensures
        r == spec_valid_second(b0, b1),
{
    if b0 == 0xE0 {
        0xA0 <= b1 && b1 <= 0xBF
    } else if b0 == 0xED {
        0x80 <= b1 && b1 <= 0x9F
    } else if b0 == 0xF0 {
        0x90 <= b1 && b1 <= 0xBF
    } else if b0 == 0xF4 {
        0x80 <= b1 && b1 <= 0x8F
    } else {
        0x80 <= b1 && b1 <= 0xBF
    }
}

/// Append the lossy UTF-8 decode of `bytes`.
fn push_utf8_lossy(s: &mut String, bytes: &Vec<u8>)
    ensures
        final (s)@ == old(s)@ + spec_utf8_lossy(bytes@),
{
    let n = bytes.len();
    let mut i: usize = 0;
    proof {
        assert(bytes@.skip(0) =~= bytes@);
    }
    while i < n
        invariant
            n == bytes@.len(),
            i <= n,
            old(s)@ + spec_utf8_lossy(bytes@) == s@ + spec_utf8_lossy(bytes@.skip(i as int)),
        decreases n - i,
    {
        let ghost rest = bytes@.skip(i as int);
        proof {
            assert(rest.len() == n - i);
            assert forall|j: int| 0 <= j < rest.len() implies rest[j] == bytes@[i + j] by {}
        }
        let b0 = bytes[i];
        let c: char;
        let k: usize;
        if b0 < 0x80 {
            c = b0 as char;
            k = 1;
        } else if b0 < 0xC2 {
            c = '\u{fffd}';
            k = 1;
        } else if b0 < 0xE0 {
            if i + 1 < n && is_cont_byte(bytes[i + 1]) {
                proof {
                    assert(rest[1] == bytes@[i + 1]);
                }
                let v = ((b0 - 0xC0) as u32) * 0x40 + ((bytes[i + 1] - 0x80) as u32);
                c = char_from_scalar(v);
                k = 2;
            } else {
                c = '\u{fffd}';
                k = 1;
            }
        } else if b0 < 0xF0 {
            if i + 1 < n && valid_second_byte(b0, bytes[i + 1]) {
                if i + 2 < n && is_cont_byte(bytes[i + 2]) {
                    proof {
                        assert(rest[1] == bytes@[i + 1]);
                        assert(rest[2] == bytes@[i + 2]);
                    }
                    let v = ((b0 - 0xE0) as u32) * 0x1000 + ((bytes[i + 1] - 0x80) as u32) * 0x40
                        + ((bytes[i + 2] - 0x80) as u32);
                    c = char_from_scalar(v);
                    k = 3;
                } else {
                    c = '\u{fffd}';
                    k = 2;
                }
            } else {
                c = '\u{fffd}';
                k = 1;
            }
        } else if b0 < 0xF5 {
            if i + 1 < n && valid_second_byte(b0, bytes[i + 1]) {
                if i + 2 < n && is_cont_byte(bytes[i + 2]) {
                    if i + 3 < n && is_cont_byte(bytes[i + 3]) {
                        proof {
                            assert(rest[1] == bytes@[i + 1]);
                            assert(rest[2] == bytes@[i + 2]);
                            assert(rest[3] == bytes@[i + 3]);
                        }
                        let v = ((b0 - 0xF0) as u32) * 0x40000 + ((bytes[i + 1]
                            - 0x80) as u32) * 0x1000 + ((bytes[i + 2] - 0x80) as u32) * 0x40 + ((
                        bytes[i + 3] - 0x80) as u32);
                        c = char_from_scalar(v);
                        k = 4;
                    } else {
                        c = '\u{fffd}';
                        k = 3;
                    }
                } else {
                    c = '\u{fffd}';
                    k = 2;
                }
            } else {
                c = '\u{fffd}';
                k = 1;
            }
        } else {
            c = '\u{fffd}';
            k = 1;
        }
        proof {
            assert(k == spec_step_len(rest));
            assert(c == spec_step_char(rest));
        }
        push_char(s, c);
        proof {
            assert(rest.skip(k as int) =~= bytes@.skip(i + k));
            assert(spec_utf8_lossy(rest) == seq![c] + spec_utf8_lossy(bytes@.skip(i + k)));
            assert(s@ + spec_utf8_lossy(bytes@.skip(i + k)) =~= old(s)@ + spec_utf8_lossy(
                bytes@,
            ));
        }
        i = i + k;
    }
    proof {
        assert(bytes@.skip(n as int) =~= Seq::<u8>::empty());
    }
}

/// Append the rendering of a stored name record.
fn push_comm(s: &mut String, rec: &CommRecord)
    ensures
        final (s)@ == old(s)@ + spec_comm_name(rec@),
{
    let bytes = rec.name_bytes();
    push_utf8_lossy(s, &bytes);
}

/// Render the per-event line.  An absent name record renders as an empty
/// name: degraded information is visible, never fatal.
pub fn render_event_line(cpu: u32, pid: u32, comm: &Option<CommRecord>) -> (r: String)
    ensures
        r@ == spec_event_line(
            cpu,
            pid,
            match comm {
                Some(rec) => Some(rec@),
                None => None,
            },
        ),
{
    let mut s = String::new();
    s.append("cpu");
    push_dec(&mut s, cpu as u64);
    s.append(": pid(");
    push_dec(&mut s, pid as u64);
    s.append(")(");
    match comm {
        Some(rec) => push_comm(&mut s, rec),
        None => (),
    }
    s.append(") hit!");
    proof {
        assert(s@ =~= spec_event_line(
            cpu,
            pid,
            match comm {
                Some(rec) => Some(rec@),
                None => None,
            },
        ));
    }
    s
}

/// Render one frame line, prefixed with its capture domain.
pub fn render_frame_line(domain: Domain, frame: &Frame) -> (r: String)
    ensures
        r@ == spec_frame_line(domain, frame@),
{
    let mut s = String::new();
    match domain {
        Domain::Kernel => s.append("kernel: "),
        Domain::User => s.append("user: "),
    }
    s.append("0x");
    push_hex(&mut s, frame.ip);
    s.append(" ");
    match &frame.symbol_name {
        Some(name) => s.append(name.as_str()),
        None => s.append("[unknown symbol name]"),
    }
    proof {
        assert(s@ =~= spec_frame_line(domain, frame@));
    }
    s
}

/// Append-only, line-oriented sink for one consumer's output.
///
/// Emission order is preserved exactly; nothing is ever reordered or
/// dropped from the emission history, which the contracts track in
/// full.  The caller takes lines out with [`EventSink::drain`], so only
/// the not-yet-drained tail is held in memory.  Each consumer owns its
/// sink, so there is no cross-CPU ordering to speak of.
pub struct EventSink {
    drained: Ghost<Seq<Seq<char>>>,
    pending: Vec<String>,
}

impl EventSink {
    /// Everything ever emitted, oldest first: the drained prefix
    /// followed by the still-pending tail.
    pub closed spec fn view(&self) -> Seq<Seq<char>> {
        self.drained@ + self.pending@.map_values(|l: String| l@)
    }

    /// The prefix of the emission history that `drain` has handed out.
    pub closed spec fn spec_drained(&self) -> Seq<Seq<char>> {
        self.drained@
    }

    /// The emitted lines not yet handed out by `drain`.
    pub open spec fn spec_pending(&self) -> Seq<Seq<char>> {
        self@.skip(self.spec_drained().len() as int)
    }

    /// A sink with nothing emitted yet.
    pub fn new() -> (r: EventSink)
        ensures
            r@ == Seq::<Seq<char>>::empty(),
            r.spec_drained() == Seq::<Seq<char>>::empty(),
    {
        let r = EventSink { drained: Ghost(Seq::empty()), pending: Vec::new() };
        proof {
            assert(r@ =~= Seq::<Seq<char>>::empty());
        }
        r
    }

    /// Emit one line after everything emitted before it.
    pub fn emit(&mut self, line: String)
        ensures
            final (self)@ == old(self)@.push(line@),
            final (self).spec_drained() == old(self).spec_drained(),
    {
        self.pending.push(line);
        proof {
            assert(self@ =~= old(self)@.push(line@));
        }
    }

    /// Take the lines emitted since the last drain, in emission order,
    /// leaving the sink holding nothing.  The emission history is
    /// unchanged: draining only moves where its drained prefix ends.
    pub fn drain(&mut self) -> (r: Vec<String>)
        ensures
            final (self)@ == old(self)@,
            final (self).spec_pending() == Seq::<Seq<char>>::empty(),
            r@.map_values(|l: String| l@) == old(self).spec_pending(),
    {
        proof {
            assert(old(self).spec_pending() =~= self.pending@.map_values(|l: String| l@));
        }
        let ghost prev = self.drained@;
        let mut taken: Vec<String> = Vec::new();
        core::mem::swap(&mut taken, &mut self.pending);
        self.drained = Ghost(prev + taken@.map_values(|l: String| l@));
        proof {
            assert(self@ =~= old(self)@);
            assert(self.spec_pending() =~= Seq::<Seq<char>>::empty());
        }
        taken
    }

    /// Read access to the not-yet-drained lines, in emission order.
    pub fn pending(&self) -> (r: &Vec<String>)
        ensures
            r@.map_values(|l: String| l@) == self.spec_pending(),
    {
        proof {
            assert(self.spec_pending() =~= self.pending@.map_values(|l: String| l@));
        }
        &self.pending
    }
}

} // verus!
