//! Ownership records for Arrow buffers that borrow R vectors' data.
//!
//! A buffer's capacity or the bytes before its data cannot identify an R
//! allocation, so only buffers registered while borrowing a real (non-ALTREP)
//! R vector may recover that vector. Each independent Arrow owner of such an
//! allocation counts once; the registration goes when its last owner does.
//! Owners released off R's main thread queue their R object for release.
use crate::sexp::{Sexp, SEXPTYPE};
use std::collections::HashMap;
use vstd::prelude::*;

verus! {

broadcast use vstd::std_specs::hash::group_hash_axioms;

/// An Arrow byte buffer (opaque here).
#[verifier::external_type_specification]
#[verifier::external_body]
pub struct ExBuffer(arrow_buffer::Buffer);

/// `Buffer::ptr_offset`: how far this view starts into its allocation, in
/// bytes. It depends on how the buffer was sliced, which is not modelled
/// here, so nothing is stated of it.
#[verifier::external_body]
fn buffer_ptr_offset(buffer: &arrow_buffer::Buffer) -> (r: usize) {
    buffer.ptr_offset()
}

/// `Buffer::as_ptr` as an address: where this view's bytes start. An
/// address depends on the allocator, so nothing is stated of it.
#[verifier::external_body]
fn buffer_address(buffer: &arrow_buffer::Buffer) -> (r: usize) {
    buffer.as_ptr().addr()
}

/// One registered R allocation: the R vector, its type and length, and how
/// many independent Arrow owners borrow it.
pub struct RBufferEntry {
    pub source: Sexp,
    pub sexptype: SEXPTYPE,
    pub len: usize,
    pub owners: usize,
}

/// The entry `e` with one more owner.
pub open spec fn with_one_more_owner(e: RBufferEntry) -> RBufferEntry {
    RBufferEntry { source: e.source, sexptype: e.sexptype, len: e.len, owners: (e.owners + 1) as usize }
}

/// The entry `e` with one owner less.
pub open spec fn with_one_owner_less(e: RBufferEntry) -> RBufferEntry {
    RBufferEntry { source: e.source, sexptype: e.sexptype, len: e.len, owners: (e.owners - 1) as usize }
}

/// The registrations after one more owner of the allocation at `key`
/// registers: a known allocation gains an owner (its record is otherwise
/// kept), a new one is recorded with one owner.
pub open spec fn registered_after(
    m: Map<usize, RBufferEntry>,
    key: usize,
    source: Sexp,
    sexptype: SEXPTYPE,
    len: usize,
) -> Map<usize, RBufferEntry> {
    if m.contains_key(key) {
        m.insert(key, with_one_more_owner(m[key]))
    } else {
        m.insert(key, RBufferEntry { source, sexptype, len, owners: 1 })
    }
}

/// The registrations after one owner of the allocation at `key` goes: the
/// record goes with its last owner.
pub open spec fn unregistered_after(m: Map<usize, RBufferEntry>, key: usize) -> Map<
    usize,
    RBufferEntry,
> {
    if m[key].owners <= 1 {
        m.remove(key)
    } else {
        m.insert(key, with_one_owner_less(m[key]))
    }
}

/// The R vector a buffer view recovers: only a complete view (starting at
/// its allocation, non-empty) of a registered allocation of the same type
/// and length.
pub open spec fn recovered(
    m: Map<usize, RBufferEntry>,
    key: usize,
    ptr_offset: usize,
    sexptype: SEXPTYPE,
    len: usize,
) -> Option<Sexp> {
    if len == 0 || ptr_offset != 0 {
        None
    } else if m.contains_key(key) && m[key].sexptype == sexptype && m[key].len == len {
        Some(m[key].source)
    } else {
        None
    }
}

/// The registry of R allocations borrowed by Arrow buffers, with the R
/// objects queued for release on R's main thread.
pub struct RBuffers {
    entries: HashMap<usize, RBufferEntry>,
    pending_release: Vec<Sexp>,
}

impl RBuffers {
    #[verifier::type_invariant]
    closed spec fn inv(self) -> bool {
        forall|k: usize| #[trigger] self.entries@.contains_key(k) ==> self.entries@[k].owners >= 1
    }

    /// The registered allocations, by address.
    pub closed spec fn registered(&self) -> Map<usize, RBufferEntry> {
        self.entries@
    }

    /// The R objects waiting for release on R's main thread.
    pub closed spec fn pending(&self) -> Seq<Sexp> {
        self.pending_release@
    }

    /// An empty registry.
    pub fn new() -> (r: RBuffers)
        ensures
            r.registered() == Map::<usize, RBufferEntry>::empty(),
            r.pending() == Seq::<Sexp>::empty(),
    {
        RBuffers { entries: HashMap::new(), pending_release: Vec::new() }
    }

    /// How many owners the allocation at `key` has (`0` when it is not
    /// registered).
    pub fn owner_count(&self, key: usize) -> (r: usize)
        ensures
            self.registered().contains_key(key) ==> r == self.registered()[key].owners,
            !self.registered().contains_key(key) ==> r == 0,
            r > 0 <==> self.registered().contains_key(key),
    {
        proof {
            use_type_invariant(self);
        }
        match self.entries.get(&key) {
            Some(e) => e.owners,
            None => 0,
        }
    }

    /// Record one more owner of the allocation at `key` (a new allocation is
    /// recorded with `source`, `sexptype` and `len`; a known one keeps its
    /// record and gains an owner).
    pub fn register(&mut self, key: usize, source: Sexp, sexptype: SEXPTYPE, len: usize)
        requires
            old(self).registered().contains_key(key) ==> old(self).registered()[key].owners
                < usize::MAX,
        ensures
            final(self).registered() == registered_after(
                old(self).registered(),
                key,
                source,
                sexptype,
                len,
            ),
            final(self).pending() == old(self).pending(),
    {
        proof {
            use_type_invariant(&*self);
        }
        let mut entries: HashMap<usize, RBufferEntry> = HashMap::new();
        std::mem::swap(&mut entries, &mut self.entries);
        let ghost before = entries@;
        match entries.remove(&key) {
            Some(e) => {
                let RBufferEntry { source: s, sexptype: t, len: n, owners } = e;
                entries.insert(key, RBufferEntry { source: s, sexptype: t, len: n, owners: owners + 1 });
                proof {
                    assert(entries@ =~= before.insert(key, with_one_more_owner(before[key])));
                }
            },
            None => {
                entries.insert(key, RBufferEntry { source, sexptype, len, owners: 1 });
                proof {
                    assert(entries@ =~= before.insert(
                        key,
                        RBufferEntry { source, sexptype, len, owners: 1 },
                    ));
                }
            },
        }
        self.entries = entries;
    }

    /// One owner of the allocation at `key` goes; the record goes with the
    /// last one.
    pub fn unregister(&mut self, key: usize)
        requires
            old(self).registered().contains_key(key),
        ensures
            final(self).registered() == unregistered_after(old(self).registered(), key),
            final(self).pending() == old(self).pending(),
    {
        proof {
            use_type_invariant(&*self);
        }
        let mut entries: HashMap<usize, RBufferEntry> = HashMap::new();
        std::mem::swap(&mut entries, &mut self.entries);
        let ghost before = entries@;
        match entries.remove(&key) {
            Some(e) => {
                if e.owners > 1 {
                    let RBufferEntry { source: s, sexptype: t, len: n, owners } = e;
                    entries.insert(
                        key,
                        RBufferEntry { source: s, sexptype: t, len: n, owners: owners - 1 },
                    );
                    proof {
                        assert(entries@ =~= before.insert(key, with_one_owner_less(before[key])));
                    }
                } else {
                    proof {
                        assert(entries@ =~= before.remove(key));
                    }
                }
            },
            None => {},
        }
        self.entries = entries;
    }

    /// The R vector registered at `key`, for a view `ptr_offset` bytes into
    /// its allocation holding `len` elements of type `sexptype`.
    pub fn lookup_key(&self, key: usize, ptr_offset: usize, sexptype: SEXPTYPE, len: usize) -> (r:
        Option<&Sexp>)
        ensures
            r matches Some(s) ==> recovered(self.registered(), key, ptr_offset, sexptype, len)
                == Some(*s),
            r is None ==> recovered(self.registered(), key, ptr_offset, sexptype, len) is None,
    {
        if len == 0 || ptr_offset != 0 {
            return None;
        }
        match self.entries.get(&key) {
            Some(e) => {
                if e.sexptype == sexptype && e.len == len {
                    Some(&e.source)
                } else {
                    None
                }
            },
            None => None,
        }
    }

    /// The R vector whose data `buffer` borrows, when `buffer` is a complete
    /// view of a registered allocation of `len` elements of type `sexptype`.
    pub fn lookup(&self, buffer: &arrow_buffer::Buffer, sexptype: SEXPTYPE, len: usize) -> (r:
        Option<&Sexp>)
        ensures
            len == 0 ==> r is None,
            r matches Some(s) ==> exists|key: usize|
                recovered(self.registered(), key, 0, sexptype, len) == Some(*s),
    {
        let off = buffer_ptr_offset(buffer);
        let key = buffer_address(buffer);
        let r = self.lookup_key(key, off, sexptype, len);
        proof {
            if r is Some {
                assert(recovered(self.registered(), key, 0, sexptype, len) == Some(*r->0));
            }
        }
        r
    }

    /// Register an R vector whose data at `address` an Arrow buffer
    /// borrows, unless it is ALTREP (whose storage may be another object's):
    /// the registration key, if any.
    pub fn register_source(&mut self, source: Sexp, is_altrep: bool, address: usize, sexptype: SEXPTYPE) -> (r:
        Option<usize>)
        requires
            old(self).registered().contains_key(address) ==> old(self).registered()[address].owners
                < usize::MAX,
        ensures
            is_altrep ==> r is None && final(self).registered() == old(self).registered(),
            !is_altrep ==> r == Some(address) && final(self).registered() == registered_after(
                old(self).registered(),
                address,
                source,
                sexptype,
                source.slen() as usize,
            ),
            final(self).pending() == old(self).pending(),
    {
        if is_altrep {
            return None;
        }
        proof {
            source.lemma_type_consistent();
        }
        let len = source.xlength();
        self.register(address, source, sexptype, len);
        Some(address)
    }

    /// What the going of one owner does: its registration, if any, loses an
    /// owner; on R's main thread its R object is handed back for release
    /// now, elsewhere it is queued.
    pub fn release_owner(&mut self, key: Option<usize>, source: Sexp, on_main_thread: bool) -> (r:
        Option<Sexp>)
        requires
            key matches Some(k) ==> old(self).registered().contains_key(k),
        ensures
            final(self).registered() == match key {
                Some(k) => unregistered_after(old(self).registered(), k),
                None => old(self).registered(),
            },
            on_main_thread ==> r == Some(source) && final(self).pending() == old(self).pending(),
            !on_main_thread ==> r is None && final(self).pending() == old(self).pending().push(
                source,
            ),
    {
        match key {
            Some(k) => self.unregister(k),
            None => {},
        }
        if on_main_thread {
            Some(source)
        } else {
            proof {
                use_type_invariant(&*self);
            }
            let mut pending: Vec<Sexp> = Vec::new();
            std::mem::swap(&mut pending, &mut self.pending_release);
            pending.push(source);
            self.pending_release = pending;
            None
        }
    }

    /// Take the queued R objects (to release them on R's main thread).
    pub fn take_pending(&mut self) -> (r: Vec<Sexp>)
        ensures
            r@ == old(self).pending(),
            final(self).pending() == Seq::<Sexp>::empty(),
            final(self).registered() == old(self).registered(),
    {
        proof {
            use_type_invariant(&*self);
        }
        let mut pending: Vec<Sexp> = Vec::new();
        std::mem::swap(&mut pending, &mut self.pending_release);
        pending
    }
}

impl Default for RBuffers {
    fn default() -> (r: RBuffers)
        ensures
            r.registered() == Map::<usize, RBufferEntry>::empty(),
            r.pending() == Seq::<Sexp>::empty(),
    {
        RBuffers::new()
    }
}

/// Registering an owner and then letting it go leaves the registrations as
/// they were.
pub proof fn lemma_register_then_unregister(
    m: Map<usize, RBufferEntry>,
    key: usize,
    source: Sexp,
    sexptype: SEXPTYPE,
    len: usize,
)
    requires
        forall|k: usize| #[trigger] m.contains_key(k) ==> m[k].owners >= 1,
        m.contains_key(key) ==> m[key].owners < usize::MAX,
    ensures
        unregistered_after(registered_after(m, key, source, sexptype, len), key) == m,
{
    let a = registered_after(m, key, source, sexptype, len);
    if m.contains_key(key) {
        assert(unregistered_after(a, key) =~= m);
    } else {
        assert(unregistered_after(a, key) =~= m);
    }
}

/// A registered allocation is recovered, from a complete view of it, for as
/// long as it has owners: registering it twice and letting one owner go
/// still recovers it; letting the second go does not.
pub proof fn lemma_recovered_while_owned(
    m: Map<usize, RBufferEntry>,
    key: usize,
    source: Sexp,
    sexptype: SEXPTYPE,
    len: usize,
)
    requires
        !m.contains_key(key),
        len > 0,
    ensures
        ({
            let twice = registered_after(
                registered_after(m, key, source, sexptype, len),
                key,
                source,
                sexptype,
                len,
            );
            let once = unregistered_after(twice, key);
            &&& recovered(twice, key, 0, sexptype, len) == Some(source)
            &&& recovered(once, key, 0, sexptype, len) == Some(source)
            &&& recovered(unregistered_after(once, key), key, 0, sexptype, len) is None
        }),
{
}

} // verus!
