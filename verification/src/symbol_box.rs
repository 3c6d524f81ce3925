use core::marker::PhantomData;
use std::sync::Arc;
use std::sync::RwLock;
use vstd::prelude::*;

verus! {

// The verifier has no knowledge of std's reader-writer lock; declare it so
// lock-guarded cells can stand in fields and signatures. Its contents stay
// opaque: the same cell may be reached through many owners, so nothing here
// promises what a read returns.
#[verifier::external_type_specification]
#[verifier::external_body]
#[verifier::reject_recursive_types(T)]
pub struct ExRwLock<T: ?Sized>(RwLock<T>);

/// A weak, non-owning reference to a lock-guarded cell. Wraps
/// `std::sync::Weak`, which cannot be declared to the verifier directly (its
/// allocator parameter is an unstable part of std), so the whole cell is held
/// opaquely behind this struct.
#[verifier::external_body]
#[verifier::reject_recursive_types(T)]
pub struct WeakCell<T> {
    cell: std::sync::Weak<RwLock<T>>,
}

/// Relies on std::sync::RwLock::new: a fresh, unlocked lock holding `value`.
#[verifier::external_body]
fn lock_new<T>(value: T) -> RwLock<T> {
    RwLock::new(value)
}

/// Relies on std::sync::RwLock::read: waits for shared access and clones the
/// guarded value. The value may have been written through another owner of
/// the cell at any time, so nothing is promised of the result.
#[verifier::external_body]
fn lock_read_clone<T: Clone>(lock: &Arc<RwLock<T>>) -> T {
    lock.read().unwrap().clone()
}

/// Relies on std::sync::RwLock::write: waits for exclusive access and
/// replaces the guarded value.
#[verifier::external_body]
fn lock_write<T>(lock: &Arc<RwLock<T>>, value: T) {
    *lock.write().unwrap() = value;
}

/// Relies on std::sync::Arc::clone: the result is the same shared allocation,
/// so it carries the same cell.
#[verifier::external_body]
fn arc_clone<T>(arc: &Arc<T>) -> (r: Arc<T>)
    ensures
        r == *arc,
{
    Arc::clone(arc)
}

/// Relies on std::sync::Arc::downgrade: a weak reference to the same cell,
/// which does not keep the cell alive.
#[verifier::external_body]
fn downgrade<T>(arc: &Arc<RwLock<T>>) -> WeakCell<T> {
    WeakCell { cell: Arc::downgrade(arc) }
}

/// Relies on std::sync::Weak::upgrade: `Some` while the referenced cell is
/// still owned somewhere, `None` once every owner has been dropped. Drops
/// happen outside the verifier's view, so nothing more is promised of the
/// outcome.
#[verifier::external_body]
fn upgrade<T>(weak: &WeakCell<T>) -> Option<Arc<RwLock<T>>> {
    weak.cell.upgrade()
}

/// Relies on std::sync::Weak::clone: another weak reference to the same cell.
#[verifier::external_body]
fn weak_clone<T>(weak: &WeakCell<T>) -> (r: WeakCell<T>)
    ensures
        r == *weak,
{
    WeakCell { cell: weak.cell.clone() }
}

/// Guarded access to a value reached through a [`SymbolBox`] or a
/// [`SymbolRef`]: holding it keeps the cell alive for the duration of the
/// borrow it was created under.
#[verifier::reject_recursive_types(T)]
pub struct Guard<'a, T>(Arc<RwLock<T>>, PhantomData<&'a T>);

impl<'a, T> Guard<'a, T> {
    /// Read the guarded value. The cell is shared, so the verifier knows
    /// nothing of what comes back; callers take the value as it is.
    pub fn get(&self) -> T where T: Clone {
        lock_read_clone(&self.0)
    }

    /// Replace the guarded value.
    pub fn set(&self, value: T) {
        lock_write(&self.0, value);
    }
}

/// The handler stored in every [`SymbolRef`], also reachable through
/// [`SymbolBox::references`]. It carries what tooling needs to act on the
/// reference site (rename, go to references, and the like).
pub trait SymbolRefHandler {
    /// The name of the symbol as written at the reference site
    fn name(&self) -> String;
}

impl SymbolRefHandler for () {
    fn name(&self) -> String {
        "<???>".to_owned()
    }
}

/// Smart pointer for a symbol's data: the one exclusive owner of the value,
/// keeping weak back-references to every [`SymbolRef`] handed out, so the
/// symbol can discover who references it.
#[verifier::reject_recursive_types(T)]
#[verifier::reject_recursive_types(H)]
pub struct SymbolBox<T, H> {
    object: Arc<RwLock<T>>,
    references: Vec<WeakCell<H>>,
}

/// `kept` is `from` with some entries removed: every element of `kept` is an
/// element of `from`, in the same order, as witnessed by a strictly
/// increasing sequence of indices into `from`.
pub open spec fn kept_in_order<H>(
    kept: Seq<WeakCell<H>>,
    from: Seq<WeakCell<H>>,
    picks: Seq<int>,
) -> bool {
    &&& picks.len() == kept.len()
    &&& forall|k: int|
        0 <= k < picks.len() ==> 0 <= #[trigger] picks[k] < from.len() && kept[k]
            == from[picks[k]]
    &&& forall|k1: int, k2: int|
        0 <= k1 < k2 < picks.len() ==> #[trigger] picks[k1] < #[trigger] picks[k2]
}

impl<T, H> SymbolBox<T, H> {
    /// The back-references the box currently stores, live or stale. Stale
    /// ones are pruned lazily by [`SymbolBox::references`], not eagerly on
    /// drop.
    pub closed spec fn refs(self) -> Seq<WeakCell<H>> {
        self.references@
    }

    /// How many back-references the box stores, live or stale.
    pub open spec fn ref_count(self) -> nat {
        self.refs().len()
    }

    /// The cell owning the symbol's data, for stating that an operation
    /// leaves the owned object untouched.
    pub closed spec fn object_cell(self) -> Arc<RwLock<T>> {
        self.object
    }

    /// Create a new box owning `object`, with no references yet.
    pub fn new(object: T) -> (r: Self)
        ensures
            r.ref_count() == 0,
    {
        SymbolBox { object: Arc::new(lock_new(object)), references: Vec::new() }
    }

    /// Access the contents of this box.
    pub fn object(&self) -> Guard<'_, T> {
        Guard(arc_clone(&self.object), PhantomData)
    }

    /// Prune every back-reference whose [`SymbolRef`] has been dropped, then
    /// hand out guarded access to the handlers of the survivors: the live
    /// answer to "who references this symbol". Which references count as
    /// live depends on drops outside the verifier's view; what is certain is
    /// that nothing is added, that what stays is a selection of the old
    /// back-references in their old order, and that afterwards the box
    /// stores exactly one back-reference per returned handler.
    pub fn references(&mut self) -> (live: Vec<Guard<'_, H>>)
        ensures
            final(self).ref_count() == live@.len(),
            final(self).ref_count() <= old(self).ref_count(),
            final(self).object_cell() == old(self).object_cell(),
            exists|picks: Seq<int>| kept_in_order(final(self).refs(), old(self).refs(), picks),
    {
        let mut live: Vec<Guard<'_, H>> = Vec::new();
        let mut kept: Vec<WeakCell<H>> = Vec::new();
        let ghost mut picked: Seq<int> = Seq::empty();
        let mut i: usize = 0;
        while i < self.references.len()
            invariant
                i <= self.references@.len(),
                live@.len() == kept@.len(),
                kept@.len() <= i,
                *self == *old(self),
                picked.len() == kept@.len(),
                forall|k: int|
                    0 <= k < picked.len() ==> 0 <= #[trigger] picked[k] < i && kept@[k]
                        == old(self).references@[picked[k]],
                forall|k1: int, k2: int|
                    0 <= k1 < k2 < picked.len() ==> #[trigger] picked[k1] < #[trigger] picked[k2],
            decreases self.references@.len() - i,
        {
            match upgrade(&self.references[i]) {
                Some(cell) => {
                    live.push(Guard(cell, PhantomData));
                    kept.push(weak_clone(&self.references[i]));
                    proof {
                        picked = picked.push(i as int);
                    }
                },
                None => {},
            }
            i += 1;
        }
        self.references = kept;
        proof {
            assert(kept_in_order(final(self).refs(), old(self).refs(), picked));
        }
        live
    }

    /// Create a new [`SymbolRef`] referencing this box: the stored
    /// back-references are exactly the old ones with one appended.
    pub fn new_ref(&mut self, handler: H) -> (r: SymbolRef<T, H>)
        ensures
            final(self).ref_count() == old(self).ref_count() + 1,
            final(self).object_cell() == old(self).object_cell(),
            r.is_bound(),
            exists|w: WeakCell<H>| final(self).refs() == old(self).refs().push(w),
    {
        SymbolRef::new(self, handler)
    }
}

/// A revocable reference to the data owned by some [`SymbolBox`]: it holds
/// the target weakly, so it never extends the symbol's lifetime, and it
/// degrades to "unavailable" instead of dangling once the box is dropped. It
/// exclusively owns its handler, which the box can look up while the
/// reference is alive.
#[verifier::reject_recursive_types(T)]
#[verifier::reject_recursive_types(H)]
pub struct SymbolRef<T, H> {
    object: Option<WeakCell<T>>,
    handler: Arc<RwLock<H>>,
}

impl<T, H> SymbolRef<T, H> {
    /// Whether this reference was ever attached to a box. An unbound
    /// reference has no target at all; a bound one may still find its target
    /// gone once the box is dropped.
    pub closed spec fn is_bound(self) -> bool {
        self.object is Some
    }

    /// Create a new reference to `symbol_box`, storing a weak back-reference
    /// to `handler` inside the box: the stored back-references are exactly
    /// the old ones with one appended.
    pub fn new(symbol_box: &mut SymbolBox<T, H>, handler: H) -> (r: Self)
        ensures
            final(symbol_box).ref_count() == old(symbol_box).ref_count() + 1,
            final(symbol_box).object_cell() == old(symbol_box).object_cell(),
            r.is_bound(),
            exists|w: WeakCell<H>| final(symbol_box).refs() == old(symbol_box).refs().push(w),
    {
        let handler_cell = Arc::new(lock_new(handler));
        let back_reference = downgrade(&handler_cell);
        let ghost appended = back_reference;
        symbol_box.references.push(back_reference);
        proof {
            assert(final(symbol_box).refs() == old(symbol_box).refs().push(appended));
        }
        SymbolRef { object: Some(downgrade(&symbol_box.object)), handler: handler_cell }
    }

    /// Create an unbound reference: [`SymbolRef::object`] returns `None`
    /// until it is attached to a box. This supports forward references,
    /// where the target symbol is declared after the reference is written.
    pub fn unbound(handler: H) -> (r: Self)
        ensures
            !r.is_bound(),
    {
        SymbolRef { object: None, handler: Arc::new(lock_new(handler)) }
    }

    /// Attach this reference to `symbol_box`, storing a weak back-reference
    /// to the handler inside the box: the forward reference becomes a live
    /// one. This is how a resolution pass wires up references written before
    /// their symbol was declared.
    pub fn bind(&mut self, symbol_box: &mut SymbolBox<T, H>)
        ensures
            final(symbol_box).ref_count() == old(symbol_box).ref_count() + 1,
            final(symbol_box).object_cell() == old(symbol_box).object_cell(),
            final(self).is_bound(),
            exists|w: WeakCell<H>| final(symbol_box).refs() == old(symbol_box).refs().push(w),
    {
        let back_reference = downgrade(&self.handler);
        let ghost appended = back_reference;
        symbol_box.references.push(back_reference);
        proof {
            assert(final(symbol_box).refs() == old(symbol_box).refs().push(appended));
        }
        self.object = Some(downgrade(&symbol_box.object));
    }

    /// Access the contents of the referenced [`SymbolBox`]: `None` for an
    /// unbound reference, and for a bound one whose box has been dropped;
    /// otherwise a guarded view of the symbol's data.
    pub fn object(&self) -> (r: Option<Guard<'_, T>>)
        ensures
            !self.is_bound() ==> r is None,
    {
        match &self.object {
            None => None,
            Some(weak) => match upgrade(weak) {
                Some(cell) => Some(Guard(cell, PhantomData)),
                None => None,
            },
        }
    }

    /// The handler associated with this reference. It lives exactly as long
    /// as the reference itself, whatever became of the box.
    pub fn handler(&self) -> Guard<'_, H> {
        Guard(arc_clone(&self.handler), PhantomData)
    }
}

} // verus!
