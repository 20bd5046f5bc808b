use wash_cycle_core::inventory::{filter_accepts, Inventory, ItemFilter};
use wash_cycle_core::item::{Item, ProcessedState};
use wash_cycle_core::persistent_id::PersistentId;

fn named(name: &str) -> Item {
    Item::new(name.to_string(), None)
}

fn names_of(inventory: &Inventory) -> Vec<String> {
    let mut names = Vec::new();
    let mut i = 0;
    while i < inventory.len() {
        names.push(inventory.item_at(i).name().clone());
        i += 1;
    }
    names
}

#[test]
fn new_inventory_is_empty() {
    let inventory = Inventory::new(5);
    assert_eq!(inventory.len(), 0);
    assert_eq!(inventory.max_item_count(), 5);
    assert_eq!(inventory.available_space(), 5);
    assert!(inventory.has_available_space());
}

#[test]
fn available_space_counts_free_slots() {
    let mut inventory = Inventory::new(3);
    let rejected = inventory.insert_up_to(vec![named("a"), named("b")], usize::MAX);
    assert!(rejected.is_empty());
    assert_eq!(inventory.len(), 2);
    assert_eq!(inventory.available_space(), 1);
    assert!(inventory.has_available_space());
    let rejected = inventory.insert_up_to(vec![named("c")], usize::MAX);
    assert!(rejected.is_empty());
    assert_eq!(inventory.available_space(), 0);
    assert!(!inventory.has_available_space());
}

#[test]
fn insert_up_to_keeps_candidate_order() {
    let mut inventory = Inventory::new(10);
    let rejected = inventory.insert_up_to(vec![named("a"), named("b"), named("c")], usize::MAX);
    assert!(rejected.is_empty());
    assert_eq!(names_of(&inventory), vec!["a", "b", "c"]);
}

#[test]
fn insert_up_to_clamps_at_capacity() {
    let mut inventory = Inventory::new(2);
    let rejected = inventory.insert_up_to(vec![named("a"), named("b"), named("c")], usize::MAX);
    assert_eq!(names_of(&inventory), vec!["a", "b"]);
    assert_eq!(rejected.len(), 1);
    assert_eq!(rejected[0].name().as_str(), "c");
}

#[test]
fn insert_up_to_respects_limit() {
    let mut inventory = Inventory::new(10);
    let rejected = inventory.insert_up_to(vec![named("a"), named("b"), named("c")], 1);
    assert_eq!(names_of(&inventory), vec!["a"]);
    assert_eq!(rejected.len(), 2);
    assert_eq!(rejected[0].name().as_str(), "b");
    assert_eq!(rejected[1].name().as_str(), "c");
}

#[test]
fn full_inventory_rejects_all_candidates() {
    // Scenario: capacity 5, already holding 5; three candidates all bounce.
    let mut inventory = Inventory::new(5);
    let rejected = inventory.insert_up_to(
        vec![named("a"), named("b"), named("c"), named("d"), named("e")],
        usize::MAX,
    );
    assert!(rejected.is_empty());
    let rejected = inventory.insert_up_to(vec![named("x"), named("y"), named("z")], usize::MAX);
    assert_eq!(rejected.len(), 3);
    assert_eq!(rejected[0].name().as_str(), "x");
    assert_eq!(rejected[1].name().as_str(), "y");
    assert_eq!(rejected[2].name().as_str(), "z");
    assert_eq!(names_of(&inventory), vec!["a", "b", "c", "d", "e"]);
}

#[test]
fn remove_matching_any_takes_prefix_in_order() {
    let mut inventory = Inventory::new(5);
    inventory.insert_up_to(vec![named("a"), named("b"), named("c")], usize::MAX);
    let removed = inventory.remove_matching(&ItemFilter::Any, 2);
    assert_eq!(removed.len(), 2);
    assert_eq!(removed[0].name().as_str(), "a");
    assert_eq!(removed[1].name().as_str(), "b");
    assert_eq!(names_of(&inventory), vec!["c"]);
}

#[test]
fn remove_matching_is_stable_for_remaining_items() {
    let x = PersistentId::from_u128(1);
    let y = PersistentId::from_u128(2);
    let processed_for = |id: PersistentId, name: &str| {
        let mut item = Item::new(name.to_string(), Some(id));
        item.process();
        item
    };
    let items = vec![
        processed_for(x, "a"),
        processed_for(y, "b"),
        processed_for(x, "c"),
        Item::new("d".to_string(), Some(x)),
        processed_for(x, "e"),
    ];
    let mut inventory = Inventory::with_items(10, items);
    let removed = inventory.remove_matching(&ItemFilter::ProcessedFor(x), usize::MAX);
    // Removed: the processed items owned by x, in their original order.
    let removed_names: Vec<&str> = removed.iter().map(|i| i.name().as_str()).collect();
    assert_eq!(removed_names, vec!["a", "c", "e"]);
    // Kept: everything else, original order untouched.
    assert_eq!(names_of(&inventory), vec!["b", "d"]);
}

#[test]
fn remove_matching_respects_limit() {
    let mut inventory = Inventory::new(5);
    inventory.insert_up_to(vec![named("a"), named("b"), named("c")], usize::MAX);
    let removed = inventory.remove_matching(&ItemFilter::Any, 0);
    assert!(removed.is_empty());
    assert_eq!(names_of(&inventory), vec!["a", "b", "c"]);
}

#[test]
fn filter_accepts_checks_owner_and_state() {
    let x = PersistentId::from_u128(1);
    let y = PersistentId::from_u128(2);
    let unprocessed = Item::new("a".to_string(), Some(x));
    let mut processed = Item::new("b".to_string(), Some(x));
    processed.process();
    let mut foreign = Item::new("c".to_string(), Some(y));
    foreign.process();
    let unowned = Item::new("d".to_string(), None);
    let filter = ItemFilter::ProcessedFor(x);
    assert!(!filter_accepts(&filter, &unprocessed));
    assert!(filter_accepts(&filter, &processed));
    assert!(!filter_accepts(&filter, &foreign));
    assert!(!filter_accepts(&filter, &unowned));
    assert!(filter_accepts(&ItemFilter::Any, &unprocessed));
}

#[test]
fn process_all_processes_every_item() {
    let owner = PersistentId::from_u128(3);
    let mut inventory = Inventory::with_items(
        5,
        vec![
            Item::new("a".to_string(), Some(owner)),
            Item::new("b".to_string(), None),
        ],
    );
    inventory.process_all();
    assert!(inventory.is_all_processed());
    assert!(!inventory.contains_unprocessed());
    // Names and owners survive processing.
    assert_eq!(inventory.item_at(0).name().as_str(), "a");
    assert_eq!(inventory.item_at(0).owner(), Some(owner));
    assert_eq!(inventory.item_at(1).name().as_str(), "b");
    assert_eq!(inventory.item_at(1).owner(), None);
    assert_eq!(inventory.item_at(0).state(), ProcessedState::Processed);
    assert_eq!(inventory.item_at(1).state(), ProcessedState::Processed);
}

#[test]
fn process_all_twice_is_process_all_once() {
    let mut once = Inventory::with_items(5, vec![named("a"), named("b")]);
    let mut twice = Inventory::with_items(5, vec![named("a"), named("b")]);
    once.process_all();
    twice.process_all();
    twice.process_all();
    assert_eq!(once.len(), twice.len());
    let mut i = 0;
    while i < once.len() {
        assert_eq!(once.item_at(i).name(), twice.item_at(i).name());
        assert_eq!(once.item_at(i).owner(), twice.item_at(i).owner());
        assert_eq!(once.item_at(i).state(), twice.item_at(i).state());
        i += 1;
    }
}

#[test]
fn item_starts_unprocessed_and_moves_forward() {
    let owner = PersistentId::from_u128(4);
    let mut item = Item::new("suit".to_string(), Some(owner));
    assert_eq!(item.state(), ProcessedState::Unprocessed);
    assert_eq!(item.name().as_str(), "suit");
    assert_eq!(item.owner(), Some(owner));
    item.process();
    assert_eq!(item.state(), ProcessedState::Processed);
    assert_eq!(item.name().as_str(), "suit");
    assert_eq!(item.owner(), Some(owner));
    item.process();
    assert_eq!(item.state(), ProcessedState::Processed);
}

#[test]
fn persistent_id_equality_is_by_value() {
    let a = PersistentId::from_u128(42);
    let b = PersistentId::from_u128(42);
    let c = PersistentId::from_u128(43);
    assert_eq!(a, b);
    assert_ne!(a, c);
    // Freshly minted identifiers compare by value too.
    let fresh = PersistentId::new();
    assert_eq!(fresh, fresh);
}
