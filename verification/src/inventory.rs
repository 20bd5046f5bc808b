//! Bounded, ordered item storage with capacity-aware insert and stable removal.

use vstd::prelude::*;
use vstd::seq_lib::*;

use crate::item::{Item, ItemModel, ProcessedState};
use crate::persistent_id::PersistentId;

verus! {

/// Which items a removal or transfer selects.
#[derive(Clone, Copy, Debug)]
pub enum ItemFilter {
    /// Every item qualifies.
    Any,
    /// Only processed items owned by the given customer.
    ProcessedFor(PersistentId),
}

impl ItemFilter {
    /// Whether one item satisfies the filter.
    pub open spec fn accepts(self, m: ItemModel) -> bool {
        match self {
            ItemFilter::Any => true,
            ItemFilter::ProcessedFor(id) => m.owner == Some(id) && m.state
                == ProcessedState::Processed,
        }
    }
}

/// Executable mirror of [`ItemFilter::accepts`].
pub fn filter_accepts(filter: &ItemFilter, item: &Item) -> (r: bool)
    ensures
        r == filter.accepts(item@),
{
    match filter {
        ItemFilter::Any => true,
        ItemFilter::ProcessedFor(id) => match item.owner() {
            Some(owner) => owner == *id && item.state() == ProcessedState::Processed,
            None => false,
        },
    }
}

/// The items that a stable removal with this filter and limit takes out of
/// `s`, in their original order.
pub open spec fn removed_of(s: Seq<Item>, filter: ItemFilter, limit: int) -> Seq<Item>
    decreases s.len(),
{
    if s.len() == 0 || limit <= 0 {
        Seq::empty()
    } else if filter.accepts(s.first()@) {
        seq![s.first()] + removed_of(s.drop_first(), filter, limit - 1)
    } else {
        removed_of(s.drop_first(), filter, limit)
    }
}

/// The items that the same removal leaves behind, in their original order.
pub open spec fn kept_of(s: Seq<Item>, filter: ItemFilter, limit: int) -> Seq<Item>
    decreases s.len(),
{
    if s.len() == 0 {
        Seq::empty()
    } else if limit <= 0 {
        s
    } else if filter.accepts(s.first()@) {
        kept_of(s.drop_first(), filter, limit - 1)
    } else {
        seq![s.first()] + kept_of(s.drop_first(), filter, limit)
    }
}

/// Every item of `s` with its state moved to `Processed`.
pub open spec fn processed_seq(s: Seq<Item>) -> Seq<Item> {
    s.map_values(|item: Item| item.spec_processed())
}

/// All items of `s` are processed.
pub open spec fn all_processed(s: Seq<Item>) -> bool {
    forall|i: int| 0 <= i < s.len() ==> s[i]@.state == ProcessedState::Processed
}

/// Conservation law: a removal creates and destroys nothing — what is removed
/// and what is kept together account for every item of the source.
pub proof fn lemma_split_conserves(s: Seq<Item>, filter: ItemFilter, limit: int)
    ensures
        removed_of(s, filter, limit).len() + kept_of(s, filter, limit).len() == s.len(),
    decreases s.len(),
{
    if s.len() == 0 {
    } else if limit <= 0 {
    } else if filter.accepts(s.first()@) {
        lemma_split_conserves(s.drop_first(), filter, limit - 1);
    } else {
        lemma_split_conserves(s.drop_first(), filter, limit);
    }
}

/// A removal takes at most `limit` items, and no more than the source holds.
pub proof fn lemma_removed_of_len(s: Seq<Item>, filter: ItemFilter, limit: int)
    ensures
        removed_of(s, filter, limit).len() <= s.len(),
        limit >= 0 ==> removed_of(s, filter, limit).len() <= limit,
    decreases s.len(),
{
    if s.len() == 0 || limit <= 0 {
    } else if filter.accepts(s.first()@) {
        lemma_removed_of_len(s.drop_first(), filter, limit - 1);
    } else {
        lemma_removed_of_len(s.drop_first(), filter, limit);
    }
}

/// Order-preservation law for stable removal: with no effective limit, the
/// removed items are exactly the matching ones and the kept items exactly the
/// rest, each subsequence in its original order.
pub proof fn lemma_split_unbounded(s: Seq<Item>, filter: ItemFilter, limit: int)
    requires
        limit >= s.len(),
    ensures
        removed_of(s, filter, limit) == s.filter(|item: Item| filter.accepts(item@)),
        kept_of(s, filter, limit) == s.filter(|item: Item| !filter.accepts(item@)),
    decreases s.len(),
{
    reveal(Seq::filter);
    let hit = |item: Item| filter.accepts(item@);
    let miss = |item: Item| !filter.accepts(item@);
    if s.len() == 0 {
    } else {
        let head = seq![s.first()];
        let tail = s.drop_first();
        lemma_split_unbounded(tail, filter, limit - 1);
        if limit - 1 >= tail.len() {
            lemma_split_unbounded(tail, filter, limit);
        }
        assert(s =~= head + tail);
        Seq::<Item>::filter_distributes_over_add(head, tail, hit);
        Seq::<Item>::filter_distributes_over_add(head, tail, miss);
        assert(head.drop_last() =~= Seq::<Item>::empty());
        assert(Seq::<Item>::empty().filter(hit) =~= Seq::<Item>::empty());
        assert(Seq::<Item>::empty().filter(miss) =~= Seq::<Item>::empty());
        if filter.accepts(s.first()@) {
            assert(head.filter(hit) =~= head);
            assert(head.filter(miss) =~= Seq::<Item>::empty());
        } else {
            assert(head.filter(hit) =~= Seq::<Item>::empty());
            assert(head.filter(miss) =~= head);
        }
        assert(removed_of(s, filter, limit) =~= s.filter(hit));
        assert(kept_of(s, filter, limit) =~= s.filter(miss));
    }
}

/// When every item matches and the limit does not bind, a removal empties the
/// source: everything moves, in order.
pub proof fn lemma_split_all_match(s: Seq<Item>, filter: ItemFilter, limit: int)
    requires
        limit >= s.len(),
        forall|i: int| 0 <= i < s.len() ==> filter.accepts((#[trigger] s[i])@),
    ensures
        removed_of(s, filter, limit) == s,
        kept_of(s, filter, limit) == Seq::<Item>::empty(),
    decreases s.len(),
{
    if s.len() == 0 {
        assert(removed_of(s, filter, limit) =~= s);
    } else {
        lemma_split_all_match(s.drop_first(), filter, limit - 1);
        assert(removed_of(s, filter, limit) =~= s);
    }
}

/// When no item matches, a removal moves nothing and disturbs nothing.
pub proof fn lemma_split_none_match(s: Seq<Item>, filter: ItemFilter, limit: int)
    requires
        forall|i: int| 0 <= i < s.len() ==> !filter.accepts((#[trigger] s[i])@),
    ensures
        removed_of(s, filter, limit) == Seq::<Item>::empty(),
        kept_of(s, filter, limit) == s,
    decreases s.len(),
{
    if s.len() == 0 {
        assert(kept_of(s, filter, limit) =~= s);
    } else if limit <= 0 {
    } else {
        lemma_split_none_match(s.drop_first(), filter, limit);
        assert(kept_of(s, filter, limit) =~= s);
    }
}

/// With filter [`ItemFilter::Any`], a removal takes exactly the first items:
/// the longest prefix the limit allows, leaving the corresponding suffix.
pub proof fn lemma_split_any_prefix(s: Seq<Item>, limit: int)
    requires
        limit >= 0,
    ensures
        removed_of(s, ItemFilter::Any, limit) == s.take(vstd::math::min(limit, s.len() as int)),
        kept_of(s, ItemFilter::Any, limit) == s.skip(vstd::math::min(limit, s.len() as int)),
    decreases s.len(),
{
    let n = vstd::math::min(limit, s.len() as int);
    if s.len() == 0 || limit == 0 {
        assert(removed_of(s, ItemFilter::Any, limit) =~= s.take(n));
        assert(kept_of(s, ItemFilter::Any, limit) =~= s.skip(n));
    } else {
        lemma_split_any_prefix(s.drop_first(), limit - 1);
        assert(removed_of(s, ItemFilter::Any, limit) =~= s.take(n));
        assert(kept_of(s, ItemFilter::Any, limit) =~= s.skip(n));
    }
}

/// Idempotence law: processing all items twice yields the same contents as
/// processing them once.
pub proof fn lemma_process_all_idempotent(s: Seq<Item>)
    ensures
        processed_seq(processed_seq(s)) == processed_seq(s),
{
    assert forall|i: int| 0 <= i < s.len() implies #[trigger] processed_seq(processed_seq(s))[i]
        == processed_seq(s)[i] by {
        Item::lemma_processed_idempotent(s[i]);
    }
    assert(processed_seq(processed_seq(s)) =~= processed_seq(s));
}

/// What processing does, item by item: length, names and owners are kept, and
/// every state becomes `Processed`.
pub proof fn lemma_processed_seq_model(s: Seq<Item>)
    ensures
        processed_seq(s).len() == s.len(),
        forall|i: int| 0 <= i < s.len() ==> (#[trigger] processed_seq(s)[i])@ == s[i]@.processed(),
        all_processed(processed_seq(s)),
{
    assert forall|i: int| 0 <= i < s.len() implies (#[trigger] processed_seq(s)[i])@
        == s[i]@.processed() by {
        Item::lemma_processed_model(s[i]);
    }
}

/// Bounded, ordered storage of items for one holder.
///
/// The number of items held never exceeds `max_item_count`; every mutation
/// clamps rather than overflows. Insertion order is kept, and removal is
/// stable, so transfers built on this type are deterministic.
#[derive(Debug)]
pub struct Inventory {
    max_item_count: usize,
    items: Vec<Item>,
}

impl View for Inventory {
    type V = Seq<Item>;

    closed spec fn view(&self) -> Seq<Item> {
        self.items@
    }
}

impl Inventory {
    /// The capacity this inventory was created with.
    pub closed spec fn spec_max(&self) -> usize {
        self.max_item_count
    }

    /// Free slots: `max_item_count - items.len()`.
    pub open spec fn spec_available_space(&self) -> int {
        self.spec_max() - self@.len()
    }

    /// How many of `candidates` an insert with this limit accepts:
    /// `min(candidates.len(), available_space(), limit)`.
    pub open spec fn spec_accept_count(&self, candidates: Seq<Item>, limit: int) -> int {
        let cap = if limit <= self.spec_available_space() {
            limit
        } else {
            self.spec_available_space()
        };
        let n = if candidates.len() <= cap {
            candidates.len() as int
        } else {
            cap
        };
        if n >= 0 {
            n
        } else {
            0
        }
    }

    #[verifier::type_invariant]
    spec fn capacity_invariant(self) -> bool {
        self.items@.len() <= self.max_item_count
    }

    /// An empty inventory with the given capacity.
    pub fn new(max_item_count: usize) -> (inventory: Inventory)
        ensures
            inventory@ == Seq::<Item>::empty(),
            inventory.spec_max() == max_item_count,
    {
        Inventory { max_item_count, items: Vec::new() }
    }

    /// An inventory already holding `items`, which must fit the capacity.
    pub fn with_items(max_item_count: usize, items: Vec<Item>) -> (inventory: Inventory)
        requires
            items@.len() <= max_item_count,
        ensures
            inventory@ == items@,
            inventory.spec_max() == max_item_count,
    {
        Inventory { max_item_count, items }
    }

    /// Capacity law: the item count never exceeds the capacity. This is the
    /// inventory's type invariant, enforced at every construction and
    /// mutation; calling this function hands the fact to the caller.
    pub fn items_within_capacity(&self)
        ensures
            self@.len() <= self.spec_max(),
    {
        proof {
            use_type_invariant(&*self);
        }
    }

    pub fn len(&self) -> (n: usize)
        ensures
            n == self@.len(),
            n <= self.spec_max(),
    {
        proof {
            use_type_invariant(&*self);
        }
        self.items.len()
    }

    pub fn max_item_count(&self) -> (n: usize)
        ensures
            n == self.spec_max(),
    {
        self.max_item_count
    }

    /// Read-only access to the item at `index`, for queries and rendering.
    pub fn item_at(&self, index: usize) -> (item: &Item)
        requires
            index < self@.len(),
        ensures
            *item == self@[index as int],
    {
        &self.items[index]
    }

    /// Whether at least one more item fits.
    pub fn has_available_space(&self) -> (r: bool)
        ensures
            r == (self@.len() < self.spec_max()),
    {
        self.items.len() < self.max_item_count
    }

    /// Free slots; never underflows, by the capacity invariant.
    pub fn available_space(&self) -> (n: usize)
        ensures
            n == self.spec_available_space(),
    {
        proof {
            use_type_invariant(&*self);
        }
        self.max_item_count - self.items.len()
    }

    /// Append accepted candidates in order; give the rest back.
    ///
    /// Accepts `min(candidates.len(), available_space(), limit)` items, in the
    /// order given; the non-accepted tail is returned untouched so the caller
    /// decides its fate (for instance, leaving it in a source inventory).
    pub fn insert_up_to(&mut self, candidates: Vec<Item>, limit: usize) -> (rejected: Vec<Item>)
        ensures
            ({
                let n = old(self).spec_accept_count(candidates@, limit as int);
                &&& final(self)@ == old(self)@ + candidates@.take(n)
                &&& rejected@ == candidates@.skip(n)
                &&& final(self).spec_max() == old(self).spec_max()
            }),
    {
        proof {
            use_type_invariant(&*self);
        }
        let space = self.max_item_count - self.items.len();
        let cap = if limit < space {
            limit
        } else {
            space
        };
        let mut candidates = candidates;
        let n = if candidates.len() < cap {
            candidates.len()
        } else {
            cap
        };
        let ghost orig_candidates = candidates@;
        let mut items: Vec<Item> = Vec::new();
        std::mem::swap(&mut items, &mut self.items);
        let ghost orig_items = items@;
        assert(n == old(self).spec_accept_count(orig_candidates, limit as int));
        let mut i: usize = 0;
        while i < n
            invariant
                i <= n,
                n <= orig_candidates.len(),
                items@ == orig_items + orig_candidates.take(i as int),
                candidates@ == orig_candidates.skip(i as int),
            decreases n - i,
        {
            let item = candidates.remove(0);
            proof {
                assert(orig_candidates.skip(i as int).remove(0) =~= orig_candidates.skip(
                    i + 1 as int,
                ));
                assert((orig_items + orig_candidates.take(i as int)).push(
                    orig_candidates.skip(i as int).first(),
                ) =~= orig_items + orig_candidates.take(i + 1 as int));
            }
            items.push(item);
            i += 1;
        }
        self.items = items;
        candidates
    }

    /// Remove, in order, up to `limit` items satisfying `filter`; the
    /// remaining items keep their relative order (stable removal).
    pub fn remove_matching(&mut self, filter: &ItemFilter, limit: usize) -> (removed: Vec<Item>)
        ensures
            removed@ == removed_of(old(self)@, *filter, limit as int),
            final(self)@ == kept_of(old(self)@, *filter, limit as int),
            final(self).spec_max() == old(self).spec_max(),
    {
        proof {
            use_type_invariant(&*self);
        }
        let mut items: Vec<Item> = Vec::new();
        std::mem::swap(&mut items, &mut self.items);
        let ghost orig = items@;
        let mut kept: Vec<Item> = Vec::new();
        let mut removed: Vec<Item> = Vec::new();
        let mut budget = limit;
        while items.len() > 0
            invariant
                budget <= limit,
                removed_of(orig, *filter, limit as int) == removed@ + removed_of(
                    items@,
                    *filter,
                    budget as int,
                ),
                kept_of(orig, *filter, limit as int) == kept@ + kept_of(
                    items@,
                    *filter,
                    budget as int,
                ),
                kept@.len() + removed@.len() + items@.len() == orig.len(),
                self.max_item_count == old(self).spec_max(),
                orig.len() <= old(self).spec_max(),
            decreases items@.len(),
        {
            let ghost before = items@;
            let item = items.remove(0);
            proof {
                assert(before.remove(0) =~= before.drop_first());
            }
            if budget > 0 && filter_accepts(filter, &item) {
                proof {
                    assert(removed@ + (seq![item] + removed_of(
                        before.drop_first(),
                        *filter,
                        budget - 1,
                    )) =~= removed@.push(item) + removed_of(
                        before.drop_first(),
                        *filter,
                        budget - 1,
                    ));
                }
                removed.push(item);
                budget = budget - 1;
            } else {
                proof {
                    if budget > 0 {
                        assert(kept@ + (seq![item] + kept_of(before.drop_first(), *filter,
                        budget as int)) =~= kept@.push(item) + kept_of(
                            before.drop_first(),
                            *filter,
                            budget as int,
                        ));
                    } else {
                        assert(before =~= seq![item] + before.drop_first());
                        assert(kept@ + (seq![item] + before.drop_first()) =~= kept@.push(item)
                            + before.drop_first());
                    }
                }
                kept.push(item);
            }
        }
        proof {
            assert(removed@ + removed_of(items@, *filter, budget as int) =~= removed@);
            assert(kept@ + kept_of(items@, *filter, budget as int) =~= kept@);
        }
        self.items = kept;
        removed
    }

    /// Transition every contained item to `Processed`. Idempotent:
    /// already-processed items are unaffected.
    pub fn process_all(&mut self)
        ensures
            final(self)@ == processed_seq(old(self)@),
            final(self).spec_max() == old(self).spec_max(),
    {
        proof {
            use_type_invariant(&*self);
        }
        let mut items: Vec<Item> = Vec::new();
        std::mem::swap(&mut items, &mut self.items);
        let ghost orig = items@;
        let mut done: Vec<Item> = Vec::new();
        while items.len() > 0
            invariant
                done@ + processed_seq(items@) == processed_seq(orig),
                done@.len() + items@.len() == orig.len(),
                self.max_item_count == old(self).spec_max(),
                orig.len() <= old(self).spec_max(),
            decreases items@.len(),
        {
            let ghost before = items@;
            let mut item = items.remove(0);
            proof {
                assert(before.remove(0) =~= before.drop_first());
            }
            item.process();
            proof {
                assert(processed_seq(before) =~= seq![before.first().spec_processed()]
                    + processed_seq(before.drop_first()));
                assert(done@ + (seq![before.first().spec_processed()] + processed_seq(
                    before.drop_first(),
                )) =~= done@.push(before.first().spec_processed()) + processed_seq(
                    before.drop_first(),
                ));
            }
            done.push(item);
        }
        proof {
            assert(processed_seq(items@) =~= Seq::<Item>::empty());
            assert(done@ + processed_seq(items@) =~= done@);
        }
        self.items = done;
    }

    /// Whether every item held is processed.
    pub fn is_all_processed(&self) -> (r: bool)
        ensures
            r == all_processed(self@),
    {
        let mut i: usize = 0;
        while i < self.items.len()
            invariant
                i <= self@.len(),
                forall|j: int| 0 <= j < i ==> (#[trigger] self@[j])@.state
                    == ProcessedState::Processed,
            decreases self@.len() - i,
        {
            if !(self.items[i].state() == ProcessedState::Processed) {
                return false;
            }
            i += 1;
        }
        true
    }

    /// Whether some held item is still unprocessed (drop-off readiness).
    pub fn contains_unprocessed(&self) -> (r: bool)
        ensures
            r == exists|j: int|
                0 <= j < self@.len() && (#[trigger] self@[j])@.state == ProcessedState::Unprocessed,
    {
        let mut i: usize = 0;
        while i < self.items.len()
            invariant
                i <= self@.len(),
                forall|j: int| 0 <= j < i ==> (#[trigger] self@[j])@.state
                    != ProcessedState::Unprocessed,
            decreases self@.len() - i,
        {
            if self.items[i].state() == ProcessedState::Unprocessed {
                return true;
            }
            i += 1;
        }
        false
    }
}

} // verus!
