//! Stack resolution: stack id to raw frames, raw frames to symbolic frames.
//!
//! A stack id is an opaque handle the kernel-side capture facility hands
//! out; the external stack-trace store maps it to a raw list of instruction
//! pointers.  The resolver maps each instruction pointer to the symbol
//! whose address is the greatest one not above it, the convention of the
//! kernel symbol table.  A frame whose address no symbol covers degrades to
//! an unresolved frame, never a failed trace.

use crate::codec::STACK_ABSENT;
use std::collections::HashMap;
use vstd::prelude::*;

verus! {

broadcast use vstd::std_specs::hash::group_hash_axioms;

/// Which execution domain a stack was captured from.
#[derive(Clone, Copy, Debug, PartialEq, Eq, Structural)]
pub enum Domain {
    Kernel,
    User,
}

/// One resolved frame: an instruction pointer, and the symbol covering it,
/// if the table knows one.
#[derive(Debug)]
pub struct Frame {
    pub ip: u64,
    pub symbol_name: Option<String>,
}

/// Mathematical image of a [`Frame`].
pub ghost struct FrameV {
    pub ip: u64,
    pub symbol_name: Option<Seq<char>>,
}

impl View for Frame {
    type V = FrameV;

    open spec fn view(&self) -> FrameV {
        FrameV {
            ip: self.ip,
            symbol_name: match self.symbol_name {
                Some(ref s) => Some(s@),
                None => None,
            },
        }
    }
}

/// An ordered list of resolved frames, labeled with its capture domain.
#[derive(Debug)]
pub struct StackTrace {
    pub domain: Domain,
    pub frames: Vec<Frame>,
}

impl View for StackTrace {
    type V = Seq<FrameV>;

    open spec fn view(&self) -> Seq<FrameV> {
        self.frames@.map_values(|f: Frame| f@)
    }
}

/// The symbol table entries are strictly ordered by address.
pub open spec fn spec_sorted(t: Seq<(u64, Seq<char>)>) -> bool {
    forall|i: int, j: int| 0 <= i < j < t.len() ==> t[i].0 < t[j].0
}

/// The symbol covering `ip`: the name of the entry with the greatest
/// address not above `ip`, if any entry's address is that low.
pub open spec fn spec_symbol_for(t: Seq<(u64, Seq<char>)>, ip: u64) -> Option<Seq<char>>
    decreases t.len(),
{
    if t.len() == 0 {
        None
    } else if t.last().0 <= ip {
        Some(t.last().1)
    } else {
        spec_symbol_for(t.drop_last(), ip)
    }
}

/// Pre-sorted address-to-name table, consulted read-only by the resolver.
///
/// The loader feeds it symbols in ascending address order; lookup is a
/// binary search, never a scan or a sort.
#[derive(Debug)]
pub struct SymbolTable {
    entries: Vec<(u64, String)>,
}

impl SymbolTable {
    /// The table as an address-ordered sequence of (address, name) pairs.
    pub closed spec fn view(&self) -> Seq<(u64, Seq<char>)> {
        self.entries@.map_values(|e: (u64, String)| (e.0, e.1@))
    }

    /// The addresses are strictly increasing.
    pub open spec fn wf(&self) -> bool {
        spec_sorted(self@)
    }

    /// An empty table.
    pub fn new() -> (r: SymbolTable)
        ensures
            r.wf(),
            r@ == Seq::<(u64, Seq<char>)>::empty(),
    {
        let r = SymbolTable { entries: Vec::new() };
        proof {
            assert(r@ =~= Seq::<(u64, Seq<char>)>::empty());
        }
        r
    }

    /// How many symbols the table holds.
    pub fn len(&self) -> (n: usize)
        ensures
            n == self@.len(),
    {
        self.entries.len()
    }

    /// Append a symbol; accepted only while the addresses stay strictly
    /// increasing, so the table remains sorted by construction.
    pub fn insert_symbol(&mut self, addr: u64, name: String) -> (ok: bool)
        requires
            old(self).wf(),
        ensures
            final(self).wf(),
            ok <==> (old(self)@.len() == 0 || old(self)@.last().0 < addr),
            ok ==> final(self)@ == old(self)@.push((addr, name@)),
            !ok ==> final(self)@ == old(self)@,
    {
        if self.entries.len() == 0 || self.entries[self.entries.len() - 1].0 < addr {
            self.entries.push((addr, name));
            proof {
                let t0 = old(self)@;
                assert(self@ =~= t0.push((addr, name@)));
                assert forall|i: int, j: int| 0 <= i < j < self@.len() implies self@[i].0
                    < self@[j].0 by {
                    if j < t0.len() {
                        assert(t0[i].0 < t0[j].0);
                    } else if i < t0.len() - 1 {
                        assert(t0[i].0 < t0[t0.len() - 1].0);
                    }
                }
            }
            true
        } else {
            false
        }
    }

    /// Binary search for the symbol covering `ip`.
    pub fn lookup(&self, ip: u64) -> (r: Option<String>)
        requires
            self.wf(),
        ensures
            match r {
                Some(s) => spec_symbol_for(self@, ip) == Some(s@),
                None => spec_symbol_for(self@, ip) == None::<Seq<char>>,
            },
    {
        let ghost t = self@;
        let mut lo: usize = 0;
        let mut hi: usize = self.entries.len();
        while lo < hi
            invariant
                lo <= hi <= t.len(),
                t.len() == self.entries@.len(),
                t == self@,
                self.wf(),
                forall|j: int| 0 <= j < lo ==> t[j].0 <= ip,
                forall|j: int| hi <= j < t.len() ==> t[j].0 > ip,
            decreases hi - lo,
        {
            let mid = lo + (hi - lo) / 2;
            if self.entries[mid].0 <= ip {
                proof {
                    assert forall|j: int| 0 <= j < mid + 1 implies t[j].0 <= ip by {
                        if j < mid {
                            assert(t[j].0 < t[mid as int].0);
                        }
                    }
                }
                lo = mid + 1;
            } else {
                proof {
                    assert forall|j: int| mid <= j < t.len() implies t[j].0 > ip by {
                        if j > mid {
                            assert(t[mid as int].0 < t[j].0);
                        }
                    }
                }
                hi = mid;
            }
        }
        if lo == 0 {
            proof {
                lemma_symbol_for_none(t, ip);
            }
            None
        } else {
            proof {
                lemma_symbol_for_found(t, ip, lo - 1);
            }
            Some(self.entries[lo - 1].1.clone())
        }
    }
}

/// If every entry's address is above `ip`, no symbol covers `ip`.
proof fn lemma_symbol_for_none(t: Seq<(u64, Seq<char>)>, ip: u64)
    requires
        forall|j: int| 0 <= j < t.len() ==> t[j].0 > ip,
    ensures
        spec_symbol_for(t, ip) == None::<Seq<char>>,
    decreases t.len(),
{
    if t.len() > 0 {
        lemma_symbol_for_none(t.drop_last(), ip);
    }
}

/// If `t[i]` is the last entry whose address is not above `ip`, it is the
/// covering symbol.
proof fn lemma_symbol_for_found(t: Seq<(u64, Seq<char>)>, ip: u64, i: int)
    requires
        spec_sorted(t),
        0 <= i < t.len(),
        t[i].0 <= ip,
        forall|j: int| i < j < t.len() ==> t[j].0 > ip,
    ensures
        spec_symbol_for(t, ip) == Some(t[i].1),
    decreases t.len(),
{
    if i == t.len() - 1 {
    } else {
        lemma_symbol_for_found(t.drop_last(), ip, i);
    }
}

/// External keyed store of captured stacks: stack id to raw instruction
/// pointers.  Populated out of band by the kernel-side capture facility;
/// the pipeline only reads it.
#[derive(Debug)]
pub struct StackStore {
    inner: HashMap<u32, Vec<u64>>,
}

impl StackStore {
    /// The store as a map from stack id to its raw frame addresses.
    pub closed spec fn view(&self) -> Map<u32, Seq<u64>> {
        Map::new(|id: u32| self.inner@.contains_key(id), |id: u32| self.inner@[id]@)
    }

    /// An empty store.
    pub fn new() -> (r: StackStore)
        ensures
            r@ == Map::<u32, Seq<u64>>::empty(),
    {
        let r = StackStore { inner: HashMap::new() };
        proof {
            assert(r@ =~= Map::<u32, Seq<u64>>::empty());
        }
        r
    }

    /// Record a captured stack under an id (last write wins, as the
    /// producer does).
    pub fn insert(&mut self, id: u32, frames: Vec<u64>)
        ensures
            final(self)@ == old(self)@.insert(id, frames@),
    {
        self.inner.insert(id, frames);
        proof {
            assert(self@ =~= old(self)@.insert(id, frames@));
        }
    }

    /// Fetch the raw frames stored under an id, if any.
    pub fn get(&self, id: u32) -> (r: Option<Vec<u64>>)
        ensures
            match r {
                Some(frames) => self@.contains_key(id) && frames@ == self@[id],
                None => !self@.contains_key(id),
            },
    {
        match self.inner.get(&id) {
            Some(frames) => Some(vstd::slice::slice_to_vec(frames.as_slice())),
            None => None,
        }
    }
}

/// The trace a stack id resolves to, if any.
///
/// The sentinel id resolves to nothing whatever the store holds — the store
/// is never consulted for it.  An id the store does not know resolves to
/// nothing either; that is a degraded outcome, not an error.  Otherwise
/// every stored frame appears, in stored order, annotated with the symbol
/// covering its address.
pub open spec fn spec_resolve(
    store: Map<u32, Seq<u64>>,
    syms: Seq<(u64, Seq<char>)>,
    id: u32,
) -> Option<Seq<FrameV>> {
    if id == STACK_ABSENT {
        None
    } else if !store.contains_key(id) {
        None
    } else {
        Some(store[id].map_values(|ip: u64| FrameV { ip, symbol_name: spec_symbol_for(syms, ip) }))
    }
}

/// Resolve a stack id into a symbolic trace labeled with its domain.
///
/// Kernel and user stacks resolve against the same symbol table; the
/// domain only labels the trace for output.  The sentinel short-circuits
/// before the store is consulted.
pub fn resolve(store: &StackStore, syms: &SymbolTable, id: u32, domain: Domain) -> (r: Option<
    StackTrace,
>)
    requires
        syms.wf(),
    ensures
        match r {
            Some(st) => st.domain == domain && spec_resolve(store@, syms@, id) == Some(st@),
            None => spec_resolve(store@, syms@, id) == None::<Seq<FrameV>>,
        },
{
    if id == STACK_ABSENT {
        return None;
    }
    let raw = match store.get(id) {
        Some(raw) => raw,
        None => { return None; },
    };
    let mut frames: Vec<Frame> = Vec::new();
    let mut i: usize = 0;
    while i < raw.len()
        invariant
            syms.wf(),
            i <= raw@.len(),
            frames@.len() == i,
            forall|j: int| #![all_triggers] 0 <= j < i ==> frames@[j]@ == (FrameV {
                ip: raw@[j],
                symbol_name: spec_symbol_for(syms@, raw@[j]),
            }),
        decreases raw@.len() - i,
    {
        let ip = raw[i];
        let symbol_name = syms.lookup(ip);
        frames.push(Frame { ip, symbol_name });
        i = i + 1;
    }
    let st = StackTrace { domain, frames };
    proof {
        assert(st@ =~= raw@.map_values(
            |ip: u64| FrameV { ip, symbol_name: spec_symbol_for(syms@, ip) },
        ));
    }
    Some(st)
}

/// The sentinel id is never resolved: whatever the store holds — even an
/// entry filed under the sentinel itself — resolution yields nothing, so
/// the store is observably never consulted for it.
pub proof fn lemma_sentinel_never_resolved(store: Map<u32, Seq<u64>>, syms: Seq<(u64, Seq<char>)>)
    ensures
        spec_resolve(store, syms, STACK_ABSENT) == None::<Seq<FrameV>>,
{
}

/// Resolution is idempotent: it mutates nothing, so any two results of
/// resolving the same id against the same store and table are the same
/// frame sequence.
pub proof fn lemma_resolve_idempotent(
    store: Map<u32, Seq<u64>>,
    syms: Seq<(u64, Seq<char>)>,
    id: u32,
    r1: Option<Seq<FrameV>>,
    r2: Option<Seq<FrameV>>,
)
    requires
        r1 == spec_resolve(store, syms, id),
        r2 == spec_resolve(store, syms, id),
    ensures
        r1 == r2,
{
}

} // verus!
