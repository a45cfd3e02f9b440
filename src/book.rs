//! A portfolio of instruments held in an arena with stable handles.
use vstd::prelude::*;
use slotmap::SlotMap;
use crate::item::Item;
use crate::value::Currency;

verus! {

/// The handle of an instrument in a portfolio.
pub type ItemKey = slotmap::DefaultKey;

/// slotmap's `DefaultKey`, carried as an opaque handle.
#[verifier::external_type_specification]
#[verifier::external_body]
pub struct ExDefaultKey(slotmap::DefaultKey);

/// The storage of a portfolio: slotmap's `SlotMap`, whose declaration Verus
/// does not take, behind a field that only the wrappers below touch.
#[verifier::external_body]
pub struct Arena {
    slots: SlotMap<ItemKey, Item>,
}

/// The instruments that an arena holds, by handle.
pub uninterp spec fn arena_entries(m: Arena) -> Map<ItemKey, Item>;

/// The most instruments that an arena takes: its slots are counted in a `u32`,
/// one of them reserved.
pub const ARENA_CAPACITY: u64 = 0xFFFF_FFFE;

/// Relies on slotmap's `SlotMap::new`: an arena with no entries.
#[verifier::external_body]
fn arena_new() -> (r: Arena)
    ensures
        arena_entries(r).len() == 0 && arena_entries(r).dom().finite(),
{
    Arena { slots: SlotMap::new() }
}

/// Relies on slotmap's `SlotMap::insert`: stores the item under a key that no
/// entry holds, and panics only when the slots are exhausted.
#[verifier::external_body]
fn arena_insert(m: &mut Arena, item: Item) -> (k: ItemKey)
    requires
        arena_entries(*old(m)).dom().finite(),
        arena_entries(*old(m)).len() < ARENA_CAPACITY,
    ensures
        !arena_entries(*old(m)).contains_key(k),
        arena_entries(*final(m)) == arena_entries(*old(m)).insert(k, item),
{
    m.slots.insert(item)
}

/// Relies on slotmap's `SlotMap::get`: the entry under a key, if any.
#[verifier::external_body]
fn arena_get(m: &Arena, k: ItemKey) -> (r: Option<&Item>)
    ensures
        arena_entries(*m).contains_key(k) <==> r is Some,
        r matches Some(item) ==> *item == arena_entries(*m)[k],
{
    m.slots.get(k)
}

/// Relies on slotmap's `SlotMap::get_mut`: a mutable borrow of the entry under
/// a key that the arena holds.
#[verifier::external_body]
fn arena_get_mut(m: &mut Arena, k: ItemKey) -> (r: &mut Item)
    requires
        arena_entries(*old(m)).contains_key(k),
    ensures
        *r == arena_entries(*old(m))[k],
        arena_entries(*final(m)) == arena_entries(*old(m)).insert(k, *final(r)),
{
    m.slots.get_mut(k).unwrap()
}

/// Relies on slotmap's `SlotMap::keys`: every key of the arena once, in the
/// arena's own order.
#[verifier::external_body]
fn arena_keys(m: &Arena) -> (r: Vec<ItemKey>)
    ensures
        r@.no_duplicates(),
        forall|k: ItemKey| r@.contains(k) <==> arena_entries(*m).contains_key(k),
{
    m.slots.keys().collect()
}

/// A portfolio: instruments under stable handles, with parent and child links.
pub struct Book {
    entries: Arena,
}

impl Book {
    /// The instruments of the portfolio by handle.
    pub closed spec fn entries_of(&self) -> Map<ItemKey, Item> {
        arena_entries(self.entries)
    }

    /// Every instrument keeps its deltas in order, and the portfolio is finite.
    pub open spec fn wf(&self) -> bool {
        &&& self.entries_of().dom().finite()
        &&& forall|k: ItemKey| #[trigger] self.entries_of().contains_key(k) ==> self.entries_of()[k].wf()
    }

    /// An empty portfolio.
    pub fn new() -> (r: Book)
        ensures
            r.wf(),
            r.entries_of().len() == 0,
            r.entries_of().dom().finite(),
    {
        Book { entries: arena_new() }
    }

    /// Adds an instrument and returns its new handle.
    pub fn add(&mut self, item: Item) -> (k: ItemKey)
        requires
            old(self).wf(),
            item.wf(),
            old(self).entries_of().len() < ARENA_CAPACITY,
        ensures
            final(self).wf(),
            !old(self).entries_of().contains_key(k),
            final(self).entries_of() == old(self).entries_of().insert(k, item),
    {
        arena_insert(&mut self.entries, item)
    }

    /// Adds an instrument as a child of `parent`: it is stored under a new
    /// handle, which is appended to the parent's children.
    pub fn add_child(&mut self, new: Item, parent: ItemKey) -> (k: ItemKey)
        requires
            old(self).wf(),
            new.wf(),
            old(self).entries_of().contains_key(parent),
            old(self).entries_of().len() < ARENA_CAPACITY,
        ensures
            final(self).wf(),
            !old(self).entries_of().contains_key(k),
            final(self).entries_of().dom() == old(self).entries_of().dom().insert(k),
            final(self).entries_of()[k] == new,
            final(self).entries_of()[parent].children_of() == old(self).entries_of()[parent].children_of().push(k),
            final(self).entries_of()[parent].deltas_of() == old(self).entries_of()[parent].deltas_of(),
            final(self).entries_of()[parent].book_value_of() == old(self).entries_of()[parent].book_value_of(),
            final(self).entries_of()[parent].interest_of() == old(self).entries_of()[parent].interest_of(),
            final(self).entries_of()[parent].inception_of() == old(self).entries_of()[parent].inception_of(),
            forall|j: ItemKey| j != parent && j != k && #[trigger] old(self).entries_of().contains_key(j)
                ==> final(self).entries_of()[j] == old(self).entries_of()[j],
    {
        let k = arena_insert(&mut self.entries, new);
        assert(k != parent);
        let p = arena_get_mut(&mut self.entries, parent);
        p.add_child(k);
        k
    }

    /// The entry under a handle.
    pub fn get(&self, k: ItemKey) -> (r: Option<&Item>)
        ensures
            self.entries_of().contains_key(k) <==> r is Some,
            r matches Some(item) ==> *item == self.entries_of()[k],
    {
        arena_get(&self.entries, k)
    }

    /// Every handle of the portfolio, each once. Every entry counts in the
    /// portfolio's total, children included.
    pub fn keys(&self) -> (r: Vec<ItemKey>)
        ensures
            r@.no_duplicates(),
            forall|k: ItemKey| r@.contains(k) <==> self.entries_of().contains_key(k),
    {
        arena_keys(&self.entries)
    }

    /// The currency of the first entry in the arena's order; the null
    /// currency for an empty portfolio.
    pub fn currency(&self) -> (r: Currency)
        ensures
            self.entries_of().dom().len() == 0 && self.entries_of().dom().finite() ==> r == Currency::null_spec(),
            (exists|k: ItemKey| self.entries_of().contains_key(k)) ==> exists|k: ItemKey|
                #[trigger] self.entries_of().contains_key(k) && r == self.entries_of()[k].book_value_of().currency,
    {
        let keys = arena_keys(&self.entries);
        if keys.len() == 0 {
            proof {
                if exists|k: ItemKey| self.entries_of().contains_key(k) {
                    let k = choose|k: ItemKey| self.entries_of().contains_key(k);
                    assert(keys@.contains(k));
                }
            }
            return Currency::null();
        }
        let k = keys[0];
        assert(keys@.contains(k));
        match arena_get(&self.entries, k) {
            Some(item) => item.currency(),
            None => Currency::null(),
        }
    }
}

impl Default for Book {
    /// An empty portfolio.
    fn default() -> (r: Book)
        ensures
            r.wf(),
            r.entries_of().len() == 0,
            r.entries_of().dom().finite(),
    {
        Book::new()
    }
}

} // verus!
