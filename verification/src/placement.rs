//! The invariant that ties the active items to the location index, and the operations that
//! keep it.

use vstd::prelude::*;
use crate::invariants::{
    keys_match, lemma_keys_match_delete, lemma_keys_match_put, lemma_stored_matches_key,
};
use crate::model::{
    adjust_step, insert_step, key_of, move_step, scrap_step, slot_insert, BucketView, LedgerState,
};
use crate::table::{
    index_of, lemma_delete_each, lemma_index_in_range, lemma_put, lemma_put_each, lookup,
    place_before_delete,
};
use crate::types::{
    lemma_slot_injective, AccountId, AdjustDetailsView, Employee, ItemView, Location,
    ScrapDetailsView, SerialNumber,
};

verus! {

/// What the index of a location holds under a serial number, if anything.
pub open spec fn entry(s: LedgerState, location: Location, serial: SerialNumber) -> Option<
    ItemView,
> {
    match s.bucket(location) {
        Some(bucket) => if bucket.contains_key(serial) {
            Some(bucket[serial])
        } else {
            None
        },
        None => None,
    }
}

/// Whether an item appears in the index of a location: the index holds this very record under
/// the item's serial number.
pub open spec fn appears(s: LedgerState, item: ItemView, location: Location) -> bool {
    entry(s, location, item.serial_number) == Some(item)
}

/// Every record in the index of a location shows that location, and the serial number under
/// which it is indexed.
pub open spec fn entries_placed(s: LedgerState) -> bool {
    forall|location: Location, serial: SerialNumber|
        (#[trigger] entry(s, location, serial)) matches Some(item) ==> item.location == location
            && item.serial_number == serial
}

/// Every active item appears in the index of its location.
pub open spec fn all_indexed(s: LedgerState) -> bool {
    forall|i: int|
        0 <= i < s.items.len() ==> appears(s, (#[trigger] s.items[i]).1, s.items[i].1.location)
}

/// The location invariant: every active item appears in the index of its location, and the
/// records of an index all show the location of that index.
pub open spec fn locations_agree(s: LedgerState) -> bool {
    entries_placed(s) && all_indexed(s)
}

/// No two active items share a serial number.
pub open spec fn unique_serials(s: LedgerState) -> bool {
    forall|i: int, j: int|
        0 <= i < s.items.len() && 0 <= j < s.items.len() && i != j ==> (
        #[trigger] s.items[i]).1.serial_number != (#[trigger] s.items[j]).1.serial_number
}

/// No active item under another key has the serial number of `item`.
pub open spec fn serial_available(s: LedgerState, who: AccountId, item: ItemView) -> bool {
    forall|i: int|
        0 <= i < s.items.len() && (#[trigger] s.items[i]).0 != key_of(who, item)
            ==> s.items[i].1.serial_number != item.serial_number
}

/// The location invariant, as it reads for one item: an active item appears in the index of
/// a location if and only if that location is its own.
pub proof fn lemma_location_invariant(s: LedgerState, i: int, location: Location)
    requires
        locations_agree(s),
        0 <= i < s.items.len(),
    ensures
        appears(s, s.items[i].1, location) <==> location == s.items[i].1.location,
{
    let item = s.items[i].1;
    if appears(s, item, location) {
        assert(entry(s, location, item.serial_number) matches Some(found) && found.location
            == location);
    }
}

/// What an index holds after the index of one location is replaced.
pub proof fn lemma_entry_update(
    s: LedgerState,
    changed: Location,
    bucket: BucketView,
    location: Location,
    serial: SerialNumber,
)
    requires
        s.locale.len() == 7,
    ensures
        entry(
            LedgerState { locale: s.locale.update(changed.slot(), Some(bucket)), ..s },
            location,
            serial,
        ) == (if location == changed {
            if bucket.contains_key(serial) {
                Some(bucket[serial])
            } else {
                None
            }
        } else {
            entry(s, location, serial)
        }),
{
    lemma_slot_injective(location, changed);
}

/// The location invariant under insertion: it is kept, together with the uniqueness of serial
/// numbers, where no active item under another key has the serial number of the new item.
pub proof fn lemma_insert_keeps_locations(s: LedgerState, who: AccountId, item: ItemView)
    requires
        s.valid(),
        keys_match(s),
        locations_agree(s),
        unique_serials(s),
        serial_available(s, who, item),
        insert_step(s, who, item) is Ok,
    ensures
        keys_match(insert_step(s, who, item).unwrap()),
        locations_agree(insert_step(s, who, item).unwrap()),
        unique_serials(insert_step(s, who, item).unwrap()),
{
    let after = insert_step(s, who, item).unwrap();
    let key = key_of(who, item);
    let bucket = slot_insert(s.bucket(item.location), item.serial_number, item).unwrap();
    lemma_keys_match_put(s, who, item);
    assert forall|location: Location, serial: SerialNumber| #[trigger]
        entry(after, location, serial) == (if location == item.location && serial
            == item.serial_number {
            Some(item)
        } else {
            entry(s, location, serial)
        }) by {
        lemma_entry_update(s, item.location, bucket, location, serial);
    }
    assert forall|i: int| 0 <= i < after.items.len() implies appears(
        after,
        (#[trigger] after.items[i]).1,
        after.items[i].1.location,
    ) by {
        lemma_put_each(s.items, key, item, i);
        if after.items[i] != (key, item) {
            assert(appears(s, s.items[i].1, s.items[i].1.location));
        }
    }
    assert forall|i: int, j: int|
        0 <= i < after.items.len() && 0 <= j < after.items.len() && i != j implies (
    #[trigger] after.items[i]).1.serial_number != (#[trigger] after.items[j]).1.serial_number by {
        lemma_put(s.items, key, item);
        lemma_put_each(s.items, key, item, i);
        lemma_put_each(s.items, key, item, j);
    }
}

/// The location invariant under scrapping: it is kept, together with the uniqueness of serial
/// numbers.
pub proof fn lemma_scrap_keeps_locations(
    s: LedgerState,
    who: AccountId,
    sku: Seq<u8>,
    serial: SerialNumber,
    details: ScrapDetailsView,
)
    requires
        s.valid(),
        keys_match(s),
        locations_agree(s),
        unique_serials(s),
        scrap_step(s, who, sku, serial, details) is Ok,
    ensures
        keys_match(scrap_step(s, who, sku, serial, details).unwrap()),
        locations_agree(scrap_step(s, who, sku, serial, details).unwrap()),
        unique_serials(scrap_step(s, who, sku, serial, details).unwrap()),
{
    let after = scrap_step(s, who, sku, serial, details).unwrap();
    let key = (who, sku, serial);
    let stored = lookup(s.items, key).unwrap();
    let bucket = s.bucket(stored.location).unwrap().remove(serial);
    lemma_index_in_range(s.items, key);
    let at = index_of(s.items, key);
    lemma_stored_matches_key(s, key);
    lemma_keys_match_delete(s, key);
    assert forall|location: Location, number: SerialNumber| #[trigger]
        entry(after, location, number) == (if location == stored.location && number == serial {
            None
        } else {
            entry(s, location, number)
        }) by {
        lemma_entry_update(s, stored.location, bucket, location, number);
    }
    assert forall|i: int| 0 <= i < after.items.len() implies appears(
        after,
        (#[trigger] after.items[i]).1,
        after.items[i].1.location,
    ) by {
        lemma_delete_each(s.items, key, i);
        let j = place_before_delete(s.items, key, i);
        assert(appears(s, s.items[j].1, s.items[j].1.location));
        assert(j != at);
        assert(s.items[j].1.serial_number != s.items[at].1.serial_number);
    }
    assert forall|i: int, j: int|
        0 <= i < after.items.len() && 0 <= j < after.items.len() && i != j implies (
    #[trigger] after.items[i]).1.serial_number != (#[trigger] after.items[j]).1.serial_number by {
        lemma_delete_each(s.items, key, i);
        lemma_delete_each(s.items, key, j);
        let pi = place_before_delete(s.items, key, i);
        let pj = place_before_delete(s.items, key, j);
        assert(s.items[pi].1.serial_number != s.items[pj].1.serial_number);
    }
}

/// The location invariant under moves: it is kept, together with the uniqueness of serial
/// numbers, where no active item under another key has the serial number of the moved item.
pub proof fn lemma_move_keeps_locations(
    s: LedgerState,
    who: AccountId,
    item: ItemView,
    moved_by: Employee,
    details: AdjustDetailsView,
)
    requires
        s.valid(),
        keys_match(s),
        locations_agree(s),
        unique_serials(s),
        serial_available(s, who, item),
        move_step(s, who, item, moved_by, details) is Ok,
    ensures
        keys_match(move_step(s, who, item, moved_by, details).unwrap()),
        locations_agree(move_step(s, who, item, moved_by, details).unwrap()),
        unique_serials(move_step(s, who, item, moved_by, details).unwrap()),
{
    let after = move_step(s, who, item, moved_by, details).unwrap();
    let from = details->original_location;
    let to = details->new_location;
    let moved = ItemView { moved_by, location: to, ..item };
    let key = key_of(who, moved);
    let origin = s.bucket(from).unwrap().remove(item.serial_number);
    let vacated = LedgerState { locale: s.locale.update(from.slot(), Some(origin)), ..s };
    let target = slot_insert(vacated.bucket(to), item.serial_number, moved).unwrap();
    lemma_keys_match_put(s, who, moved);
    assert forall|location: Location, serial: SerialNumber| #[trigger]
        entry(after, location, serial) == (if serial != item.serial_number {
            entry(s, location, serial)
        } else if location == to {
            Some(moved)
        } else if location == from {
            None
        } else {
            entry(s, location, serial)
        }) by {
        lemma_entry_update(s, from, origin, location, serial);
        lemma_entry_update(vacated, to, target, location, serial);
        lemma_entry_update(s, from, origin, to, serial);
    }
    assert forall|i: int| 0 <= i < after.items.len() implies appears(
        after,
        (#[trigger] after.items[i]).1,
        after.items[i].1.location,
    ) by {
        lemma_put_each(s.items, key, moved, i);
        if after.items[i] != (key, moved) {
            assert(appears(s, s.items[i].1, s.items[i].1.location));
        }
    }
    assert forall|i: int, j: int|
        0 <= i < after.items.len() && 0 <= j < after.items.len() && i != j implies (
    #[trigger] after.items[i]).1.serial_number != (#[trigger] after.items[j]).1.serial_number by {
        lemma_put(s.items, key, moved);
        lemma_put_each(s.items, key, moved, i);
        lemma_put_each(s.items, key, moved, j);
    }
}

/// The location invariant under adjustment: it is kept, together with the uniqueness of
/// serial numbers, where no active item under another key has the serial number of the
/// adjusted item.
pub proof fn lemma_adjust_keeps_locations(
    s: LedgerState,
    who: AccountId,
    issuer: Employee,
    item: ItemView,
    details: AdjustDetailsView,
)
    requires
        s.valid(),
        keys_match(s),
        locations_agree(s),
        unique_serials(s),
        serial_available(s, who, item),
        adjust_step(s, who, issuer, item, details) is Ok,
    ensures
        keys_match(adjust_step(s, who, issuer, item, details).unwrap()),
        locations_agree(adjust_step(s, who, issuer, item, details).unwrap()),
        unique_serials(adjust_step(s, who, issuer, item, details).unwrap()),
{
    let after = adjust_step(s, who, issuer, item, details).unwrap();
    let adjusted = ItemView { qty: details->new_qty, ..item };
    let key = key_of(who, item);
    let bucket = s.bucket(item.location).unwrap().insert(item.serial_number, adjusted);
    lemma_keys_match_put(s, who, adjusted);
    assert forall|location: Location, serial: SerialNumber| #[trigger]
        entry(after, location, serial) == (if location == item.location && serial
            == item.serial_number {
            Some(adjusted)
        } else {
            entry(s, location, serial)
        }) by {
        lemma_entry_update(s, item.location, bucket, location, serial);
    }
    assert forall|i: int| 0 <= i < after.items.len() implies appears(
        after,
        (#[trigger] after.items[i]).1,
        after.items[i].1.location,
    ) by {
        lemma_put_each(s.items, key, adjusted, i);
        if after.items[i] != (key, adjusted) {
            assert(appears(s, s.items[i].1, s.items[i].1.location));
        }
    }
    assert forall|i: int, j: int|
        0 <= i < after.items.len() && 0 <= j < after.items.len() && i != j implies (
    #[trigger] after.items[i]).1.serial_number != (#[trigger] after.items[j]).1.serial_number by {
        lemma_put(s.items, key, adjusted);
        lemma_put_each(s.items, key, adjusted, i);
        lemma_put_each(s.items, key, adjusted, j);
    }
}

} // verus!
