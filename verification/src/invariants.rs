//! The invariants that tie the ledger's tables together, and the operations that keep them.

use vstd::prelude::*;
use crate::consumption::coverage;
use crate::laws::{lemma_coverage_push, lemma_coverage_update, share};
use crate::model::{
    adjust_step, insert_step, key_of, move_step, scrap_step, ItemKeyView, LedgerState,
};
use crate::table::{
    delete, has_key, index_of, lemma_delete, lemma_index_in_range, lemma_put, lookup, put,
};
use crate::types::{
    AccountId, AdjustDetailsView, Employee, ItemView, ScrapDetailsView, SerialNumber,
};

verus! {

/// The records of a table of items, without their keys.
pub open spec fn records(rows: Seq<(ItemKeyView, ItemView)>) -> Seq<ItemView> {
    rows.map_values(|row: (ItemKeyView, ItemView)| row.1)
}

/// The sum of the quantities of the active items with a SKU.
pub open spec fn stock_of(s: LedgerState, sku: Seq<u8>) -> nat {
    coverage(records(s.items), sku)
}

/// The aggregate invariant: for every SKU, the aggregate is the sum of the quantities of the
/// active items with that SKU.
pub open spec fn aggregates_agree(s: LedgerState) -> bool {
    forall|sku: Seq<u8>| #[trigger] s.total(sku) == stock_of(s, sku)
}

/// Every active item is stored under the key that its own SKU and serial number make.
pub open spec fn keys_match(s: LedgerState) -> bool {
    forall|i: int|
        0 <= i < s.items.len() ==> (#[trigger] s.items[i]).0 == key_of(
            s.items[i].0.0,
            s.items[i].1,
        )
}

/// Taking an item out of a list lowers the total by the item's share.
pub proof fn lemma_coverage_remove(items: Seq<ItemView>, i: int, sku: Seq<u8>)
    requires
        0 <= i < items.len(),
    ensures
        coverage(items.remove(i), sku) + share(items[i], sku) == coverage(items, sku),
    decreases items.len(),
{
    let after = items.remove(i);
    if i == items.len() - 1 {
        assert(after =~= items.drop_last());
    } else {
        assert(after.drop_last() =~= items.drop_last().remove(i));
        assert(after.last() == items.last());
        lemma_coverage_remove(items.drop_last(), i, sku);
    }
}

/// What storing a record under a key does to the stock of a SKU: the record's share comes in,
/// and the share of the record that was under the key goes out.
pub proof fn lemma_stock_put(
    rows: Seq<(ItemKeyView, ItemView)>,
    key: ItemKeyView,
    item: ItemView,
    sku: Seq<u8>,
)
    ensures
        coverage(records(put(rows, key, item)), sku) + (match lookup(rows, key) {
            Some(stored) => share(stored, sku),
            None => 0,
        }) == coverage(records(rows), sku) + share(item, sku),
{
    if has_key(rows, key) {
        let at = index_of(rows, key);
        lemma_index_in_range(rows, key);
        assert(records(put(rows, key, item)) =~= records(rows).update(at, item));
        lemma_coverage_update(records(rows), at, item, sku);
    } else {
        assert(records(put(rows, key, item)) =~= records(rows).push(item));
        lemma_coverage_push(records(rows), item, sku);
    }
}

/// What deleting a key does to the stock of a SKU: the share of the record that was under the
/// key goes out.
pub proof fn lemma_stock_delete(rows: Seq<(ItemKeyView, ItemView)>, key: ItemKeyView, sku: Seq<u8>)
    ensures
        coverage(records(delete(rows, key)), sku) + (match lookup(rows, key) {
            Some(stored) => share(stored, sku),
            None => 0,
        }) == coverage(records(rows), sku),
{
    if has_key(rows, key) {
        let at = index_of(rows, key);
        lemma_index_in_range(rows, key);
        assert(records(delete(rows, key)) =~= records(rows).remove(at));
        lemma_coverage_remove(records(rows), at, sku);
    }
}

/// Storing a record under the key that it makes keeps every record under its own key.
pub proof fn lemma_keys_match_put(s: LedgerState, who: AccountId, item: ItemView)
    requires
        keys_match(s),
    ensures
        keys_match(LedgerState { items: put(s.items, key_of(who, item), item), ..s }),
{
    let key = key_of(who, item);
    let after = put(s.items, key, item);
    assert forall|i: int| 0 <= i < after.len() implies (#[trigger] after[i]).0 == key_of(
        after[i].0.0,
        after[i].1,
    ) by {
        if has_key(s.items, key) {
            lemma_index_in_range(s.items, key);
            if i != index_of(s.items, key) {
                assert(after[i] == s.items[i]);
            }
        } else if i < s.items.len() {
            assert(after[i] == s.items[i]);
        }
    }
}

/// Deleting a key keeps every record under its own key.
pub proof fn lemma_keys_match_delete(s: LedgerState, key: ItemKeyView)
    requires
        keys_match(s),
    ensures
        keys_match(LedgerState { items: delete(s.items, key), ..s }),
{
    let after = delete(s.items, key);
    if has_key(s.items, key) {
        lemma_index_in_range(s.items, key);
        let at = index_of(s.items, key);
        assert forall|i: int| 0 <= i < after.len() implies (#[trigger] after[i]).0 == key_of(
            after[i].0.0,
            after[i].1,
        ) by {
            if i < at {
                assert(after[i] == s.items[i]);
            } else {
                assert(after[i] == s.items[i + 1]);
            }
        }
    }
}

/// The record stored under a key carries the key's SKU and serial number.
pub proof fn lemma_stored_matches_key(s: LedgerState, key: ItemKeyView)
    requires
        keys_match(s),
        has_key(s.items, key),
    ensures
        lookup(s.items, key).unwrap().sku == key.1,
        lookup(s.items, key).unwrap().serial_number == key.2,
{
    lemma_index_in_range(s.items, key);
    let at = index_of(s.items, key);
    assert(s.items[at].0 == key_of(s.items[at].0.0, s.items[at].1));
}

/// The aggregate invariant under insertion: it is kept where the item's key is new and the
/// aggregate of its SKU does not pass the largest quantity.
pub proof fn lemma_insert_keeps_aggregates(s: LedgerState, who: AccountId, item: ItemView)
    requires
        s.valid(),
        keys_match(s),
        aggregates_agree(s),
        insert_step(s, who, item) is Ok,
        !has_key(s.items, key_of(who, item)),
        s.total(item.sku) + item.qty <= u32::MAX,
    ensures
        aggregates_agree(insert_step(s, who, item).unwrap()),
        keys_match(insert_step(s, who, item).unwrap()),
{
    let after = insert_step(s, who, item).unwrap();
    let total = s.total(item.sku);
    lemma_keys_match_put(s, who, item);
    assert forall|sku: Seq<u8>| #[trigger] after.total(sku) == stock_of(after, sku) by {
        assert(s.total(sku) == stock_of(s, sku));
        lemma_stock_put(s.items, key_of(who, item), item, sku);
        lemma_put(s.totals, item.sku, (total + item.qty) as u32);
    }
}

/// The aggregate invariant under scrapping: it is always kept.
pub proof fn lemma_scrap_keeps_aggregates(
    s: LedgerState,
    who: AccountId,
    sku: Seq<u8>,
    serial: SerialNumber,
    details: ScrapDetailsView,
)
    requires
        s.valid(),
        keys_match(s),
        aggregates_agree(s),
        scrap_step(s, who, sku, serial, details) is Ok,
    ensures
        aggregates_agree(scrap_step(s, who, sku, serial, details).unwrap()),
        keys_match(scrap_step(s, who, sku, serial, details).unwrap()),
{
    let after = scrap_step(s, who, sku, serial, details).unwrap();
    let key = (who, sku, serial);
    let stored = lookup(s.items, key).unwrap();
    let total = lookup(s.totals, sku).unwrap();
    lemma_stored_matches_key(s, key);
    lemma_keys_match_delete(s, key);
    assert forall|other: Seq<u8>| #[trigger] after.total(other) == stock_of(after, other) by {
        assert(s.total(other) == stock_of(s, other));
        lemma_stock_delete(s.items, key, other);
        lemma_delete(s.totals, sku);
        lemma_put(s.totals, sku, (total - stored.qty) as u32);
    }
}

/// The aggregate invariant under adjustment: it is kept where the item is stored with the
/// quantity that the adjustment names as the original one and an increase does not take the
/// aggregate past the largest quantity.
pub proof fn lemma_adjust_keeps_aggregates(
    s: LedgerState,
    who: AccountId,
    issuer: Employee,
    item: ItemView,
    details: AdjustDetailsView,
)
    requires
        s.valid(),
        keys_match(s),
        aggregates_agree(s),
        adjust_step(s, who, issuer, item, details) is Ok,
        lookup(s.items, key_of(who, item)) is Some,
        details matches AdjustDetailsView::Quantity { original_qty, new_qty, .. } && lookup(
            s.items,
            key_of(who, item),
        ).unwrap().qty == original_qty && s.total(item.sku) + new_qty - original_qty <= u32::MAX,
    ensures
        aggregates_agree(adjust_step(s, who, issuer, item, details).unwrap()),
        keys_match(adjust_step(s, who, issuer, item, details).unwrap()),
{
    let after = adjust_step(s, who, issuer, item, details).unwrap();
    let key = key_of(who, item);
    let adjusted = ItemView { qty: details->new_qty, ..item };
    lemma_stored_matches_key(s, key);
    lemma_keys_match_put(s, who, adjusted);
    assert forall|sku: Seq<u8>| #[trigger] after.total(sku) == stock_of(after, sku) by {
        assert(s.total(sku) == stock_of(s, sku));
        lemma_stock_put(s.items, key, adjusted, sku);
        lemma_put(s.totals, item.sku, lookup(after.totals, item.sku).unwrap());
    }
}

/// The aggregate invariant under moves: it is kept where the item is stored with the quantity
/// that the moved record shows.
pub proof fn lemma_move_keeps_aggregates(
    s: LedgerState,
    who: AccountId,
    item: ItemView,
    moved_by: Employee,
    details: AdjustDetailsView,
)
    requires
        s.valid(),
        keys_match(s),
        aggregates_agree(s),
        move_step(s, who, item, moved_by, details) is Ok,
        lookup(s.items, key_of(who, item)) is Some,
        lookup(s.items, key_of(who, item)).unwrap().qty == item.qty,
    ensures
        aggregates_agree(move_step(s, who, item, moved_by, details).unwrap()),
        keys_match(move_step(s, who, item, moved_by, details).unwrap()),
{
    let after = move_step(s, who, item, moved_by, details).unwrap();
    let key = key_of(who, item);
    let moved = ItemView { moved_by, location: details->new_location, ..item };
    lemma_stored_matches_key(s, key);
    lemma_keys_match_put(s, who, moved);
    assert forall|sku: Seq<u8>| #[trigger] after.total(sku) == stock_of(after, sku) by {
        assert(s.total(sku) == stock_of(s, sku));
        lemma_stock_put(s.items, key, moved, sku);
    }
}

} // verus!
