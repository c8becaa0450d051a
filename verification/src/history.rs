//! Histories of ledger operations, and the invariants that hold after every one of them.

use vstd::prelude::*;
use crate::invariants::{
    aggregates_agree, keys_match, lemma_adjust_keeps_aggregates, lemma_insert_keeps_aggregates,
    lemma_move_keeps_aggregates, lemma_scrap_keeps_aggregates, records,
};
use crate::inventory::{
    lemma_bucket_insert_valid, lemma_bucket_remove_valid, lemma_bucket_single_valid,
};
use crate::model::{
    adjust_step, insert_step, key_of, move_step, scrap_step, Error, LedgerState,
};
use crate::placement::{
    lemma_adjust_keeps_locations, lemma_insert_keeps_locations, lemma_move_keeps_locations,
    lemma_scrap_keeps_locations, locations_agree, serial_available, unique_serials,
};
use crate::table::{has_key, index_of, lemma_delete, lemma_index_in_range, lemma_put, lookup};
use crate::types::{
    AccountId, AdjustDetailsView, AdjustItemView, Employee, ItemView, ScrapDetailsView,
    ScrapItemView, SerialNumber,
};

verus! {

/// An operation on the stock of the ledger.
pub enum Operation {
    Insert { who: AccountId, item: ItemView },
    Scrap { who: AccountId, sku: Seq<u8>, serial: SerialNumber, details: ScrapDetailsView },
    Move { who: AccountId, item: ItemView, moved_by: Employee, details: AdjustDetailsView },
    Adjust { who: AccountId, issuer: Employee, item: ItemView, details: AdjustDetailsView },
}

/// What an operation makes of a state, or why it is refused.
pub open spec fn step_of(s: LedgerState, op: Operation) -> Result<LedgerState, Error> {
    match op {
        Operation::Insert { who, item } => insert_step(s, who, item),
        Operation::Scrap { who, sku, serial, details } => scrap_step(s, who, sku, serial, details),
        Operation::Move { who, item, moved_by, details } => move_step(
            s,
            who,
            item,
            moved_by,
            details,
        ),
        Operation::Adjust { who, issuer, item, details } => adjust_step(
            s,
            who,
            issuer,
            item,
            details,
        ),
    }
}

/// The state after an operation; a refused operation leaves the state as it was.
pub open spec fn apply(s: LedgerState, op: Operation) -> LedgerState {
    match step_of(s, op) {
        Ok(next) => next,
        Err(_) => s,
    }
}

/// The operations under which the invariants are kept. An insertion brings an item under a
/// new key, with a serial number that no active item has, and does not take the aggregate of
/// its SKU past the largest quantity. A move or an adjustment works on a record as it is
/// stored; an adjustment names the stored quantity as the original one and does not take the
/// aggregate past the largest quantity. A scrap is always admissible.
pub open spec fn admissible(s: LedgerState, op: Operation) -> bool {
    match op {
        Operation::Insert { who, item } => {
            &&& !has_key(s.items, key_of(who, item))
            &&& serial_available(s, who, item)
            &&& s.total(item.sku) + item.qty <= u32::MAX
        },
        Operation::Scrap { .. } => true,
        Operation::Move { who, item, .. } => lookup(s.items, key_of(who, item)) == Some(item),
        Operation::Adjust { who, item, details, .. } => {
            &&& lookup(s.items, key_of(who, item)) == Some(item)
            &&& details matches AdjustDetailsView::Quantity { original_qty, new_qty, .. } ==> {
                &&& original_qty == item.qty
                &&& s.total(item.sku) + new_qty - original_qty <= u32::MAX
            }
        },
    }
}

/// The state after a history of operations, applied in order.
pub open spec fn run(s: LedgerState, ops: Seq<Operation>) -> LedgerState
    decreases ops.len(),
{
    if ops.len() == 0 {
        s
    } else {
        run(apply(s, ops[0]), ops.drop_first())
    }
}

/// Whether each operation of a history is admissible in the state that it meets.
pub open spec fn all_admissible(s: LedgerState, ops: Seq<Operation>) -> bool
    decreases ops.len(),
{
    if ops.len() == 0 {
        true
    } else {
        admissible(s, ops[0]) && all_admissible(apply(s, ops[0]), ops.drop_first())
    }
}

/// The invariants of the ledger together: the structure is valid, every record is stored under
/// its own key, the aggregates agree with the stock, the index agrees with the locations, and
/// serial numbers are unique.
pub open spec fn sound(s: LedgerState) -> bool {
    &&& s.valid()
    &&& keys_match(s)
    &&& aggregates_agree(s)
    &&& locations_agree(s)
    &&& unique_serials(s)
}

/// A new ledger is sound.
pub proof fn lemma_empty_sound()
    ensures
        sound(LedgerState::empty()),
{
    let s = LedgerState::empty();
    assert(records(s.items) =~= Seq::<ItemView>::empty());
}

/// Every operation keeps the state valid.
pub proof fn lemma_apply_keeps_valid(s: LedgerState, op: Operation)
    requires
        s.valid(),
    ensures
        apply(s, op).valid(),
{
    if step_of(s, op) is Ok {
        let after = apply(s, op);
        match op {
            Operation::Insert { who, item } => {
                lemma_put(s.items, key_of(who, item), item);
                lemma_put(s.totals, item.sku, lookup(after.totals, item.sku).unwrap());
                lemma_bucket_single_valid(item.serial_number, item);
                if let Some(bucket) = s.bucket(item.location) {
                    lemma_bucket_insert_valid(bucket, item.serial_number, item);
                }
            },
            Operation::Scrap { who, sku, serial, details } => {
                let key = (who, sku, serial);
                let stored = lookup(s.items, key).unwrap();
                let total = lookup(s.totals, sku).unwrap();
                lemma_delete(s.items, key);
                lemma_delete(s.totals, sku);
                lemma_put(s.totals, sku, (total - stored.qty) as u32);
                lemma_put(s.scrapped, key, ScrapItemView { item: stored, details });
                lemma_bucket_remove_valid(s.bucket(stored.location).unwrap(), serial);
            },
            Operation::Move { who, item, moved_by, details } => {
                let from = details->original_location;
                let to = details->new_location;
                let moved = ItemView { moved_by, location: to, ..item };
                let key = key_of(who, moved);
                let origin = s.bucket(from).unwrap();
                lemma_put(s.items, key, moved);
                lemma_put(
                    s.adjustments,
                    key,
                    AdjustItemView { issuer: moved_by, item: moved, adjust_details: details },
                );
                lemma_bucket_remove_valid(origin, item.serial_number);
                lemma_bucket_single_valid(item.serial_number, moved);
                let vacated = s.locale.update(
                    from.slot(),
                    Some(origin.remove(item.serial_number)),
                );
                if let Some(target) = vacated[to.slot()] {
                    lemma_bucket_insert_valid(target, item.serial_number, moved);
                }
            },
            Operation::Adjust { who, issuer, item, details } => {
                let adjusted = ItemView { qty: details->new_qty, ..item };
                let key = key_of(who, item);
                lemma_put(s.items, key, adjusted);
                lemma_put(s.totals, item.sku, lookup(after.totals, item.sku).unwrap());
                lemma_put(
                    s.adjustments,
                    key,
                    AdjustItemView { issuer, item: adjusted, adjust_details: details },
                );
                lemma_bucket_insert_valid(
                    s.bucket(item.location).unwrap(),
                    item.serial_number,
                    adjusted,
                );
            },
        }
    }
}

/// Where the record of an item is stored under its key and serial numbers are unique, no item
/// under another key has its serial number.
pub proof fn lemma_stored_serial_available(s: LedgerState, who: AccountId, item: ItemView)
    requires
        s.valid(),
        keys_match(s),
        unique_serials(s),
        lookup(s.items, key_of(who, item)) == Some(item),
    ensures
        serial_available(s, who, item),
{
    let key = key_of(who, item);
    lemma_index_in_range(s.items, key);
    let at = index_of(s.items, key);
    assert forall|i: int|
        0 <= i < s.items.len() && (#[trigger] s.items[i]).0 != key implies s.items[i].1.serial_number
            != item.serial_number by {
        assert(i != at);
        assert(s.items[i].1.serial_number != s.items[at].1.serial_number);
    }
}

/// An admissible operation keeps a sound state sound.
pub proof fn lemma_apply_keeps_sound(s: LedgerState, op: Operation)
    requires
        sound(s),
        admissible(s, op),
    ensures
        sound(apply(s, op)),
{
    lemma_apply_keeps_valid(s, op);
    if step_of(s, op) is Ok {
        match op {
            Operation::Insert { who, item } => {
                lemma_insert_keeps_aggregates(s, who, item);
                lemma_insert_keeps_locations(s, who, item);
            },
            Operation::Scrap { who, sku, serial, details } => {
                lemma_scrap_keeps_aggregates(s, who, sku, serial, details);
                lemma_scrap_keeps_locations(s, who, sku, serial, details);
            },
            Operation::Move { who, item, moved_by, details } => {
                lemma_stored_serial_available(s, who, item);
                lemma_move_keeps_aggregates(s, who, item, moved_by, details);
                lemma_move_keeps_locations(s, who, item, moved_by, details);
            },
            Operation::Adjust { who, issuer, item, details } => {
                lemma_stored_serial_available(s, who, item);
                lemma_adjust_keeps_aggregates(s, who, issuer, item, details);
                lemma_adjust_keeps_locations(s, who, issuer, item, details);
            },
        }
    }
}

/// The invariants after any history: a history of admissible operations leaves a sound state
/// sound. In particular the aggregate of every SKU is the sum of the quantities of the active
/// items with that SKU, and every active item appears in the index of its own location and of
/// no other.
pub proof fn lemma_history_sound(s: LedgerState, ops: Seq<Operation>)
    requires
        sound(s),
        all_admissible(s, ops),
    ensures
        sound(run(s, ops)),
    decreases ops.len(),
{
    if ops.len() > 0 {
        lemma_apply_keeps_sound(s, ops[0]);
        lemma_history_sound(apply(s, ops[0]), ops.drop_first());
    }
}

} // verus!
