//! Proximity-gated item exchange between holders, and the machine work cycle.
//!
//! Collaborators (physics sensors, the frame clock, navigation) supply the
//! proximity booleans and tick deltas; this module decides every transfer and
//! every phase transition, one holder pair at a time within a tick.

use vstd::prelude::*;

use crate::inventory::{
    all_processed, kept_of, processed_seq, removed_of, Inventory, ItemFilter,
    lemma_removed_of_len, lemma_split_any_prefix, lemma_split_conserves,
};
use crate::item::{Item, ItemModel, ProcessedState};
use crate::persistent_id::PersistentId;

verus! {

/// The player holder: one bounded inventory.
pub struct Player {
    pub inventory: Inventory,
}

impl Player {
    /// A player starting with an empty inventory of the given capacity.
    pub fn new(max_item_count: usize) -> (player: Player)
        ensures
            player.inventory@ == Seq::<Item>::empty(),
            player.inventory.spec_max() == max_item_count,
    {
        Player { inventory: Inventory::new(max_item_count) }
    }
}

/// Where a customer stands in the service protocol.
#[derive(Clone, Copy, Debug, PartialEq, Eq, Structural)]
pub enum CustomerPhase {
    /// Walking in with items to drop off.
    Arriving,
    /// Items handed over; waiting for them to come back processed.
    WaitingForStuffBack,
    /// Served completely; heading to the exit.
    Leaving,
}

/// A customer holder: stable identity, one bounded inventory, and the number
/// of items that must come back before the customer departs.
pub struct CustomerNpc {
    pub persistent_id: PersistentId,
    pub inventory: Inventory,
    pub expected_number_items_to_leave: usize,
    pub phase: CustomerPhase,
}

impl CustomerNpc {
    /// Factory applied at spawn time: a fresh customer carrying one
    /// unprocessed item per name, each owned by `persistent_id`. The customer
    /// departs once that many items have come back processed.
    pub fn new(persistent_id: PersistentId, item_names: Vec<String>, max_item_count: usize) -> (c:
        CustomerNpc)
        requires
            item_names@.len() <= max_item_count,
        ensures
            c.persistent_id == persistent_id,
            c.phase == CustomerPhase::Arriving,
            c.expected_number_items_to_leave == item_names@.len(),
            c.inventory.spec_max() == max_item_count,
            c.inventory@.len() == item_names@.len(),
            forall|i: int|
                0 <= i < item_names@.len() ==> (#[trigger] c.inventory@[i])@ == (ItemModel {
                    name: item_names@[i]@,
                    owner: Some(persistent_id),
                    state: ProcessedState::Unprocessed,
                }),
    {
        let ghost orig_names = item_names@;
        let mut item_names = item_names;
        let mut items: Vec<Item> = Vec::new();
        while item_names.len() > 0
            invariant
                items@.len() + item_names@.len() == orig_names.len(),
                item_names@ == orig_names.skip(items@.len() as int),
                forall|i: int|
                    0 <= i < items@.len() ==> (#[trigger] items@[i])@ == (ItemModel {
                        name: orig_names[i]@,
                        owner: Some(persistent_id),
                        state: ProcessedState::Unprocessed,
                    }),
            decreases item_names@.len(),
        {
            let ghost k = items@.len() as int;
            let name = item_names.remove(0);
            proof {
                assert(orig_names.skip(k).remove(0) =~= orig_names.skip(k + 1));
                assert(name == orig_names[k]);
            }
            items.push(Item::new(name, Some(persistent_id)));
        }
        let expected = items.len();
        CustomerNpc {
            persistent_id,
            inventory: Inventory::with_items(max_item_count, items),
            expected_number_items_to_leave: expected,
            phase: CustomerPhase::Arriving,
        }
    }
}

/// A machine's in-progress timed processing of its held items.
#[derive(Clone, Copy, Debug, PartialEq, Eq, Structural)]
pub struct WorkSession {
    /// Time left until the load is processed, in milliseconds.
    pub remaining_ms: u64,
}

/// What a washing machine is doing.
#[derive(Clone, Copy, Debug, PartialEq, Eq, Structural)]
pub enum MachinePhase {
    /// Ready to accept a load.
    Idle,
    /// Mid-cycle: a work session is counting down.
    Working(WorkSession),
    /// Finished; the processed contents wait to be picked up.
    Done,
}

/// A washing-machine holder: one bounded inventory, a configured cycle
/// duration, and the phase of its work cycle.
pub struct WashingMachine {
    pub inventory: Inventory,
    /// Cycle length for each new work session, in milliseconds.
    pub default_work_duration_ms: u64,
    pub phase: MachinePhase,
}

impl WashingMachine {
    /// An idle, empty machine with the given capacity and cycle duration.
    pub fn new(max_item_count: usize, default_work_duration_ms: u64) -> (machine: WashingMachine)
        ensures
            machine.inventory@ == Seq::<Item>::empty(),
            machine.inventory.spec_max() == max_item_count,
            machine.default_work_duration_ms == default_work_duration_ms,
            machine.phase == MachinePhase::Idle,
    {
        WashingMachine {
            inventory: Inventory::new(max_item_count),
            default_work_duration_ms,
            phase: MachinePhase::Idle,
        }
    }
}

/// Outcome of one player-machine interaction attempt, surfaced to the
/// presentation collaborator.
#[derive(Clone, Copy, Debug, PartialEq, Eq, Structural)]
pub enum MachineInteractOutcome {
    /// Proximity did not hold; nothing changed.
    InvalidRangeToObject,
    /// Items were loaded and a work session started.
    StartWork { accepted: usize },
    /// Finished items were handed back and the done marker cleared.
    PickedUp { returned: usize },
    /// The machine is mid-cycle; the interaction does nothing.
    Busy,
}

/// Move up to `limit` items satisfying `filter` from `source` into
/// `destination`, clamped by the destination's free space.
///
/// Consumes the source in insertion order and appends to the destination in
/// that same order; the capacity clamp happens at source selection, so every
/// removed item is accepted and no item is created or destroyed.
pub fn transfer_up_to(
    source: &mut Inventory,
    destination: &mut Inventory,
    filter: &ItemFilter,
    limit: usize,
) -> (moved: usize)
    ensures
        ({
            let cap = if (limit as int) <= old(destination).spec_available_space() {
                limit as int
            } else {
                old(destination).spec_available_space()
            };
            &&& final(source)@ == kept_of(old(source)@, *filter, cap)
            &&& final(destination)@ == old(destination)@ + removed_of(old(source)@, *filter, cap)
            &&& moved == removed_of(old(source)@, *filter, cap).len()
            &&& final(source).spec_max() == old(source).spec_max()
            &&& final(destination).spec_max() == old(destination).spec_max()
            &&& old(source)@.len() + old(destination)@.len() == final(source)@.len()
                + final(destination)@.len()
        }),
{
    let space = destination.available_space();
    let cap = if limit < space {
        limit
    } else {
        space
    };
    let removed = source.remove_matching(filter, cap);
    proof {
        lemma_removed_of_len(old(source)@, *filter, cap as int);
        lemma_split_conserves(old(source)@, *filter, cap as int);
    }
    let moved = removed.len();
    let ghost removed_seq = removed@;
    let rejected = destination.insert_up_to(removed, moved);
    proof {
        assert(removed_seq.take(moved as int) =~= removed_seq);
    }
    moved
}

/// Customer-to-player drop-off.
///
/// While the customer stands on its drop-off sensor and the player on the
/// paired pickup sensor, the customer's items transfer to the player —
/// earliest-inserted first, clamped by the player's free space — and the
/// customer then waits for its stuff back. Out of proximity nothing changes.
pub fn detect_pickup(
    player: &mut Player,
    customer: &mut CustomerNpc,
    customer_on_dropoff_sensor: bool,
    player_on_pickup_sensor: bool,
)
    ensures
        ({
            if customer_on_dropoff_sensor && player_on_pickup_sensor {
                let n = vstd::math::min(
                    old(customer).inventory@.len() as int,
                    old(player).inventory.spec_available_space(),
                );
                &&& final(player).inventory@ == old(player).inventory@ + old(customer).inventory@.take(n)
                &&& final(customer).inventory@ == old(customer).inventory@.skip(n)
                &&& final(customer).phase == CustomerPhase::WaitingForStuffBack
                &&& final(player).inventory.spec_max() == old(player).inventory.spec_max()
                &&& final(customer).inventory.spec_max() == old(customer).inventory.spec_max()
                &&& final(customer).persistent_id == old(customer).persistent_id
                &&& final(customer).expected_number_items_to_leave == old(customer).expected_number_items_to_leave
            } else {
                &&& *final(player) == *old(player)
                &&& *final(customer) == *old(customer)
            }
        }),
{
    if customer_on_dropoff_sensor && player_on_pickup_sensor {
        player.inventory.items_within_capacity();
        let filter = ItemFilter::Any;
        transfer_up_to(&mut customer.inventory, &mut player.inventory, &filter, usize::MAX);
        customer.phase = CustomerPhase::WaitingForStuffBack;
        proof {
            let cap = if (usize::MAX as int) <= old(player).inventory.spec_available_space() {
                usize::MAX as int
            } else {
                old(player).inventory.spec_available_space()
            };
            lemma_split_any_prefix(old(customer).inventory@, cap);
        }
    }
}

/// Player-to-customer return.
///
/// While a waiting customer stands on its drop-off sensor and the player on
/// the pickup sensor, the player hands back the processed items owned by that
/// customer — in player-insertion order, clamped by the customer's free space;
/// non-matching items stay with the player, their order untouched. If the
/// customer then holds exactly the expected number of items and all of them
/// are processed, it departs: the result says whether to route it to the exit.
pub fn detect_player_return_to_customer_pickup(
    player: &mut Player,
    customer: &mut CustomerNpc,
    customer_on_dropoff_sensor: bool,
    player_on_pickup_sensor: bool,
) -> (departing: bool)
    ensures
        ({
            let go = customer_on_dropoff_sensor && player_on_pickup_sensor && old(customer).phase
                == CustomerPhase::WaitingForStuffBack;
            if go {
                let f = ItemFilter::ProcessedFor(old(customer).persistent_id);
                let cap = old(customer).inventory.spec_available_space();
                let returned = removed_of(old(player).inventory@, f, cap);
                let inventory_after = old(customer).inventory@ + returned;
                let leaves = inventory_after.len() == old(customer).expected_number_items_to_leave && all_processed(inventory_after);
                &&& final(player).inventory@ == kept_of(old(player).inventory@, f, cap)
                &&& final(customer).inventory@ == inventory_after
                &&& final(customer).phase == (if leaves {
                    CustomerPhase::Leaving
                } else {
                    CustomerPhase::WaitingForStuffBack
                })
                &&& departing == leaves
                &&& final(player).inventory.spec_max() == old(player).inventory.spec_max()
                &&& final(customer).inventory.spec_max() == old(customer).inventory.spec_max()
                &&& final(customer).persistent_id == old(customer).persistent_id
                &&& final(customer).expected_number_items_to_leave == old(customer).expected_number_items_to_leave
            } else {
                &&& *final(player) == *old(player)
                &&& *final(customer) == *old(customer)
                &&& !departing
            }
        }),
{
    if customer_on_dropoff_sensor && player_on_pickup_sensor && customer.phase
        == CustomerPhase::WaitingForStuffBack {
        let filter = ItemFilter::ProcessedFor(customer.persistent_id);
        transfer_up_to(&mut player.inventory, &mut customer.inventory, &filter, usize::MAX);
        let back = customer.inventory.len();
        if back == customer.expected_number_items_to_leave
            && customer.inventory.is_all_processed() {
            customer.phase = CustomerPhase::Leaving;
            true
        } else {
            false
        }
    } else {
        false
    }
}

/// The "ready to drop off" signal for one customer: it still has something to
/// hand over.
pub open spec fn ready_to_drop_off(customer: CustomerNpc) -> bool {
    customer.inventory@.len() > 0 && exists|j: int|
        0 <= j < customer.inventory@.len() && (#[trigger] customer.inventory@[j])@.state
            == ProcessedState::Unprocessed
}

/// Executable mirror of [`ready_to_drop_off`], for one customer.
pub fn customer_ready_to_drop_off(customer: &CustomerNpc) -> (r: bool)
    ensures
        r == ready_to_drop_off(*customer),
{
    customer.inventory.len() > 0 && customer.inventory.contains_unprocessed()
}

/// The drop-off light: on exactly when some customer standing on the drop-off
/// sensor still has an unprocessed item to hand over.
pub fn detect_customer_dropoff(customers: &Vec<CustomerNpc>, on_dropoff_sensor: &Vec<bool>) -> (r:
    bool)
    requires
        customers@.len() == on_dropoff_sensor@.len(),
    ensures
        r == exists|i: int|
            0 <= i < customers@.len() && on_dropoff_sensor@[i] && ready_to_drop_off(
                #[trigger] customers@[i],
            ),
{
    let mut i: usize = 0;
    while i < customers.len()
        invariant
            i <= customers@.len(),
            customers@.len() == on_dropoff_sensor@.len(),
            forall|j: int|
                0 <= j < i ==> !(on_dropoff_sensor@[j] && ready_to_drop_off(
                    #[trigger] customers@[j],
                )),
        decreases customers@.len() - i,
    {
        if on_dropoff_sensor[i] {
            let customer = &customers[i];
            if customer.inventory.len() > 0 && customer.inventory.contains_unprocessed() {
                return true;
            }
        }
        i += 1;
    }
    false
}

/// When a customer reaches its current navigation target: a leaving customer
/// despawns; any other customer stays and idles.
pub fn on_customer_arrival(customer: &CustomerNpc) -> (despawn: bool)
    ensures
        despawn == (customer.phase == CustomerPhase::Leaving),
{
    customer.phase == CustomerPhase::Leaving
}

/// Begin a work session of the machine's configured default duration.
pub fn start_work(machine: &mut WashingMachine)
    ensures
        final(machine).phase == (MachinePhase::Working(
            WorkSession { remaining_ms: old(machine).default_work_duration_ms },
        )),
        final(machine).inventory == old(machine).inventory,
        final(machine).default_work_duration_ms == old(machine).default_work_duration_ms,
{
    machine.phase = MachinePhase::Working(
        WorkSession { remaining_ms: machine.default_work_duration_ms },
    );
}

/// One player-machine interaction attempt.
///
/// A mid-cycle machine ignores the attempt. Out of proximity, nothing is
/// transferred and the invalid-range notification is reported. In proximity,
/// an idle machine takes a load from the player — clamped by its free space —
/// and starts a work session; a finished machine hands its contents back —
/// clamped by the player's free space — and clears its done marker.
pub fn interact_with_machine(
    player: &mut Player,
    machine: &mut WashingMachine,
    player_in_range: bool,
) -> (outcome: MachineInteractOutcome)
    ensures
        final(machine).default_work_duration_ms == old(machine).default_work_duration_ms,
        final(player).inventory.spec_max() == old(player).inventory.spec_max(),
        final(machine).inventory.spec_max() == old(machine).inventory.spec_max(),
        ({
            match old(machine).phase {
                MachinePhase::Working(_) => {
                    &&& *final(player) == *old(player)
                    &&& *final(machine) == *old(machine)
                    &&& outcome == MachineInteractOutcome::Busy
                },
                MachinePhase::Idle => {
                    if player_in_range {
                        let n = vstd::math::min(
                            old(player).inventory@.len() as int,
                            old(machine).inventory.spec_available_space(),
                        );
                        &&& final(machine).inventory@ == old(machine).inventory@ + old(player).inventory@.take(n)
                        &&& final(player).inventory@ == old(player).inventory@.skip(n)
                        &&& final(machine).phase == (MachinePhase::Working(
                            WorkSession { remaining_ms: old(machine).default_work_duration_ms },
                        ))
                        &&& outcome == (MachineInteractOutcome::StartWork { accepted: n as usize })
                    } else {
                        &&& *final(player) == *old(player)
                        &&& *final(machine) == *old(machine)
                        &&& outcome == MachineInteractOutcome::InvalidRangeToObject
                    }
                },
                MachinePhase::Done => {
                    if player_in_range {
                        let n = vstd::math::min(
                            old(machine).inventory@.len() as int,
                            old(player).inventory.spec_available_space(),
                        );
                        &&& final(player).inventory@ == old(player).inventory@ + old(machine).inventory@.take(n)
                        &&& final(machine).inventory@ == old(machine).inventory@.skip(n)
                        &&& final(machine).phase == MachinePhase::Idle
                        &&& outcome == (MachineInteractOutcome::PickedUp { returned: n as usize })
                    } else {
                        &&& *final(player) == *old(player)
                        &&& *final(machine) == *old(machine)
                        &&& outcome == MachineInteractOutcome::InvalidRangeToObject
                    }
                },
            }
        }),
{
    match machine.phase {
        MachinePhase::Working(_) => MachineInteractOutcome::Busy,
        MachinePhase::Idle => {
            if player_in_range {
                machine.inventory.items_within_capacity();
                let filter = ItemFilter::Any;
                let accepted = transfer_up_to(
                    &mut player.inventory,
                    &mut machine.inventory,
                    &filter,
                    usize::MAX,
                );
                start_work(machine);
                proof {
                    let cap = if (usize::MAX as int) <= old(machine).inventory.spec_available_space() {
                        usize::MAX as int
                    } else {
                        old(machine).inventory.spec_available_space()
                    };
                    lemma_split_any_prefix(old(player).inventory@, cap);
                }
                MachineInteractOutcome::StartWork { accepted }
            } else {
                MachineInteractOutcome::InvalidRangeToObject
            }
        },
        MachinePhase::Done => {
            if player_in_range {
                player.inventory.items_within_capacity();
                let filter = ItemFilter::Any;
                let returned = transfer_up_to(
                    &mut machine.inventory,
                    &mut player.inventory,
                    &filter,
                    usize::MAX,
                );
                machine.phase = MachinePhase::Idle;
                proof {
                    let cap = if (usize::MAX as int) <= old(player).inventory.spec_available_space() {
                        usize::MAX as int
                    } else {
                        old(player).inventory.spec_available_space()
                    };
                    lemma_split_any_prefix(old(machine).inventory@, cap);
                }
                MachineInteractOutcome::PickedUp { returned }
            } else {
                MachineInteractOutcome::InvalidRangeToObject
            }
        },
    }
}

/// Advance a machine's work session by `delta_ms` of elapsed time.
///
/// When the session runs out, every held item becomes `Processed`, the
/// session is removed, and the done marker takes its place; the result says
/// whether that completion happened on this tick. A machine that is not
/// working is untouched.
pub fn do_work(machine: &mut WashingMachine, delta_ms: u64) -> (finished: bool)
    ensures
        final(machine).default_work_duration_ms == old(machine).default_work_duration_ms,
        final(machine).inventory.spec_max() == old(machine).inventory.spec_max(),
        ({
            match old(machine).phase {
                MachinePhase::Working(session) => {
                    if session.remaining_ms <= delta_ms {
                        &&& final(machine).inventory@ == processed_seq(old(machine).inventory@)
                        &&& final(machine).phase == MachinePhase::Done
                        &&& finished
                    } else {
                        &&& final(machine).inventory == old(machine).inventory
                        &&& final(machine).phase == (MachinePhase::Working(
                            WorkSession {
                                remaining_ms: (session.remaining_ms - delta_ms) as u64,
                            },
                        ))
                        &&& !finished
                    }
                },
                _ => {
                    &&& *final(machine) == *old(machine)
                    &&& !finished
                },
            }
        }),
{
    match machine.phase {
        MachinePhase::Working(session) => {
            if session.remaining_ms <= delta_ms {
                machine.inventory.process_all();
                machine.phase = MachinePhase::Done;
                true
            } else {
                machine.phase = MachinePhase::Working(
                    WorkSession { remaining_ms: session.remaining_ms - delta_ms },
                );
                false
            }
        },
        _ => false,
    }
}

} // verus!
