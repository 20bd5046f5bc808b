//! Items and their one-way processing lifecycle.

use vstd::prelude::*;

use crate::persistent_id::PersistentId;

verus! {

/// Processing lifecycle of one item. The only transition is
/// `Unprocessed -> Processed`; nothing ever leaves `Processed`.
#[derive(Clone, Copy, Debug, PartialEq, Eq, Structural)]
pub enum ProcessedState {
    Unprocessed,
    Processed,
}

/// Mathematical model of an [`Item`]: its name, its owner and its state.
pub ghost struct ItemModel {
    pub name: Seq<char>,
    pub owner: Option<PersistentId>,
    pub state: ProcessedState,
}

impl ItemModel {
    /// The same item after processing.
    pub open spec fn processed(self) -> ItemModel {
        ItemModel { state: ProcessedState::Processed, ..self }
    }
}

/// A named, optionally owned, stateful unit of inventory content.
///
/// Name and owner are fixed at construction; the state only moves forward,
/// because [`Item::process`] is the sole mutator.
#[derive(Debug)]
pub struct Item {
    name: String,
    owner: Option<PersistentId>,
    state: ProcessedState,
}

impl View for Item {
    type V = ItemModel;

    closed spec fn view(&self) -> ItemModel {
        ItemModel { name: self.name@, owner: self.owner, state: self.state }
    }
}

impl Item {
    /// The same item after processing, as a value; [`Item::process`] realises it.
    pub closed spec fn spec_processed(self) -> Item {
        Item { state: ProcessedState::Processed, ..self }
    }

    /// Processing only moves the state to `Processed`; name and owner stay.
    pub proof fn lemma_processed_model(item: Item)
        ensures
            item.spec_processed()@ == item@.processed(),
    {
    }

    /// Processing twice is processing once.
    pub proof fn lemma_processed_idempotent(item: Item)
        ensures
            item.spec_processed().spec_processed() == item.spec_processed(),
    {
    }

    /// An already processed item is unaffected by processing.
    pub proof fn lemma_processed_noop(item: Item)
        requires
            item@.state == ProcessedState::Processed,
        ensures
            item.spec_processed() == item,
    {
    }

    /// A new item starts out `Unprocessed`.
    pub fn new(name: String, owner: Option<PersistentId>) -> (item: Item)
        ensures
            item@ == (ItemModel { name: name@, owner, state: ProcessedState::Unprocessed }),
    {
        Item { name, owner, state: ProcessedState::Unprocessed }
    }

    pub fn name(&self) -> (name: &String)
        ensures
            name@ == self@.name,
    {
        &self.name
    }

    pub fn owner(&self) -> (owner: Option<PersistentId>)
        ensures
            owner == self@.owner,
    {
        self.owner
    }

    pub fn state(&self) -> (state: ProcessedState)
        ensures
            state == self@.state,
    {
        self.state
    }

    /// Move the item forward to `Processed`; name and owner are untouched.
    pub fn process(&mut self)
        ensures
            *final(self) == old(self).spec_processed(),
    {
        self.state = ProcessedState::Processed;
    }
}

} // verus!
