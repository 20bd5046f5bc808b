//! Bounded-inventory item exchange for a laundry game.
//!
//! A small set of holders (player, customer, washing machine) each own a
//! bounded, ordered inventory of items. Items move between inventories under
//! capacity limits, ownership tracking and processing-state rules, gated by
//! externally supplied proximity signals and a work timer. This crate is the
//! engine-independent core: collaborators feed it proximity booleans and tick
//! deltas and render the outcomes it reports.

pub mod exchange;
pub mod inventory;
pub mod item;
pub mod persistent_id;
