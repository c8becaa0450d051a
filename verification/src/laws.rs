//! What holds of the ledger and of the assembly engine whatever the operations are applied to.

use vstd::prelude::*;
use crate::assembly::{create_work_order_step, AssemblyState, DispatchError, WorkOrderView};
use crate::consumption::{
    assemble_step, consume_component, consume_components, consume_from, coverage, draw_effect,
    draw_size, line_of, reduced, Progress,
};
use crate::model::{adjust_step, Error, LedgerState};
use crate::staging::{fifo_order, insert_point, stock_before, taken};
use crate::table::{has_key, lemma_put, lookup};
use crate::types::{
    AccountId, AdjustDetailsView, Employee, ItemView, Location, Qty, RecipeComponentView,
    SerialNumber,
};

verus! {

/// What an item adds to the total of a SKU: its quantity where the SKU is its own.
pub open spec fn share(item: ItemView, sku: Seq<u8>) -> nat {
    if item.sku == sku {
        item.qty as nat
    } else {
        0
    }
}

/// The total of a list with one more item is the total of the list plus the item's share.
pub proof fn lemma_coverage_push(items: Seq<ItemView>, item: ItemView, sku: Seq<u8>)
    ensures
        coverage(items.push(item), sku) == coverage(items, sku) + share(item, sku),
{
    assert(items.push(item).drop_last() =~= items);
}

/// Replacing an item changes the total by the difference of the shares.
pub proof fn lemma_coverage_update(items: Seq<ItemView>, i: int, item: ItemView, sku: Seq<u8>)
    requires
        0 <= i < items.len(),
    ensures
        coverage(items.update(i, item), sku) + share(items[i], sku) == coverage(items, sku) + share(
            item,
            sku,
        ),
    decreases items.len(),
{
    let after = items.update(i, item);
    if i == items.len() - 1 {
        assert(after.drop_last() =~= items.drop_last());
    } else {
        assert(after.drop_last() =~= items.drop_last().update(i, item));
        lemma_coverage_update(items.drop_last(), i, item, sku);
    }
}

/// The total of the items from `j` on is the share of the item at `j` plus the total of those
/// after it.
pub proof fn lemma_coverage_peel(items: Seq<ItemView>, j: int, sku: Seq<u8>)
    requires
        0 <= j < items.len(),
    ensures
        coverage(items.skip(j), sku) == share(items[j], sku) + coverage(items.skip(j + 1), sku),
    decreases items.len() - j,
{
    let tail = items.skip(j);
    if j == items.len() - 1 {
        assert(tail.drop_last() =~= Seq::<ItemView>::empty());
        assert(items.skip(j + 1) =~= Seq::<ItemView>::empty());
    } else {
        assert(tail.drop_last() =~= items.drop_last().skip(j));
        assert(items.skip(j + 1).drop_last() =~= items.drop_last().skip(j + 1));
        assert(items.skip(j + 1).last() == items.last());
        lemma_coverage_peel(items.drop_last(), j, sku);
    }
}

/// Conservation in the consumption of one SKU: where the staged items from `j` on cover what
/// remains to be consumed and the consumption succeeds, the lines it adds to the bill of
/// materials are all of that SKU and their quantities sum to exactly what remained, and the
/// staged items lose exactly as much of that SKU and nothing of any other.
pub proof fn lemma_consume_conserves(
    ledger: LedgerState,
    staged: Seq<ItemView>,
    bom: Seq<ItemView>,
    who: AccountId,
    sku: Seq<u8>,
    remaining: nat,
    j: int,
    other: Seq<u8>,
)
    requires
        0 <= j <= staged.len(),
        coverage(staged.skip(j), sku) >= remaining,
        consume_from(ledger, staged, bom, who, sku, remaining, j) is Ok,
    ensures
        ({
            let done = consume_from(ledger, staged, bom, who, sku, remaining, j).unwrap();
            &&& done.staged.len() == staged.len()
            &&& coverage(done.bom, other) == coverage(bom, other) + (if other == sku {
                remaining
            } else {
                0
            })
            &&& coverage(done.staged, other) + (if other == sku {
                remaining
            } else {
                0
            }) == coverage(staged, other)
        }),
    decreases staged.len() - j,
{
    if j >= staged.len() {
        assert(staged.skip(j) =~= Seq::<ItemView>::empty());
    } else {
        lemma_coverage_peel(staged, j, sku);
        let item = staged[j];
        if item.sku == sku && item.qty != 0 && remaining != 0 {
            let take = draw_size(item.qty, remaining);
            let next = draw_effect(ledger, bom.len(), who, item, take).unwrap();
            let staged_next = staged.update(j, reduced(item, take));
            let bom_next = bom.push(line_of(item, take));
            assert(staged_next.skip(j + 1) =~= staged.skip(j + 1));
            lemma_coverage_update(staged, j, reduced(item, take), other);
            lemma_coverage_push(bom, line_of(item, take), other);
            lemma_consume_conserves(
                next,
                staged_next,
                bom_next,
                who,
                sku,
                (remaining - take) as nat,
                j + 1,
                other,
            );
        } else {
            lemma_consume_conserves(ledger, staged, bom, who, sku, remaining, j + 1, other);
        }
    }
}

/// What the components of a recipe from the one at `k` on require of a SKU.
pub open spec fn demand(components: Seq<RecipeComponentView>, k: int, sku: Seq<u8>) -> nat
    decreases components.len() - k,
{
    if k < 0 || k >= components.len() {
        0
    } else if components[k].sku == sku {
        components[k].qty as nat + demand(components, k + 1, sku)
    } else {
        demand(components, k + 1, sku)
    }
}

/// Conservation in the consumption of a recipe: where it succeeds, the lines it adds to the
/// bill of materials for a SKU sum to exactly what the recipe's components require of that
/// SKU, and the staged items lose exactly as much of it.
pub proof fn lemma_components_conserve(
    p: Progress,
    who: AccountId,
    components: Seq<RecipeComponentView>,
    k: int,
    sku: Seq<u8>,
)
    requires
        0 <= k <= components.len(),
        consume_components(p, who, components, k) is Ok,
    ensures
        ({
            let done = consume_components(p, who, components, k).unwrap();
            &&& coverage(done.bom, sku) == coverage(p.bom, sku) + demand(components, k, sku)
            &&& coverage(done.staged, sku) + demand(components, k, sku) == coverage(p.staged, sku)
        }),
    decreases components.len() - k,
{
    if k < components.len() {
        let component = components[k];
        let next = consume_component(p, who, component).unwrap();
        assert(p.staged.skip(0) =~= p.staged);
        lemma_consume_conserves(
            p.ledger,
            p.staged,
            p.bom,
            who,
            component.sku,
            component.qty as nat,
            0,
            sku,
        );
        lemma_components_conserve(next, who, components, k + 1, sku);
    }
}

/// Conservation of the bill of materials: for a completed assembly and any SKU, the
/// quantities of the lines recorded with the product for that SKU sum to exactly what the
/// recipe requires of it.
pub proof fn lemma_bom_conservation(
    inv: LedgerState,
    engine: AssemblyState,
    who: AccountId,
    number: u32,
    serial: SerialNumber,
    staging_location: Location,
    sku: Seq<u8>,
)
    requires
        engine.valid(),
        assemble_step(inv, engine, who, number, serial, staging_location) is Ok,
    ensures
        ({
            let order = lookup(engine.work_orders, number).unwrap();
            let settled = assemble_step(inv, engine, who, number, serial, staging_location);
            let after = settled.unwrap().1;
            let record = lookup(after.assembled, (who, order.recipe.sku, serial));
            &&& record is Some
            &&& coverage(record.unwrap().1, sku) == demand(order.recipe.required_components, 0, sku)
        }),
{
    let order = lookup(engine.work_orders, number).unwrap();
    let bucket = inv.bucket(staging_location).unwrap();
    let start = Progress {
        ledger: inv,
        staged: crate::bounded::ascending_items(bucket),
        bom: Seq::empty(),
    };
    lemma_components_conserve(start, who, order.recipe.required_components, 0, sku);
    let done = consume_components(start, who, order.recipe.required_components, 0).unwrap();
    crate::table::lemma_put(
        engine.assembled,
        (who, order.recipe.sku, serial),
        (crate::consumption::product_of(order, serial), done.bom),
    );
}

/// Whether a list is ordered by age, oldest first.
pub open spec fn by_age(items: Seq<ItemView>) -> bool {
    forall|i: int, j: int|
        0 <= i < j < items.len() ==> (#[trigger] items[i]).created_at <= (
        #[trigger] items[j]).created_at
}

/// In a list ordered by age, the insertion point of an age divides the items that are not
/// younger from those that are.
pub proof fn lemma_insert_point(ordered: Seq<ItemView>, created_at: u32)
    requires
        by_age(ordered),
    ensures
        0 <= insert_point(ordered, created_at) <= ordered.len(),
        forall|i: int|
            0 <= i < insert_point(ordered, created_at) ==> (#[trigger] ordered[i]).created_at
                <= created_at,
        forall|i: int|
            insert_point(ordered, created_at) <= i < ordered.len() ==> (
            #[trigger] ordered[i]).created_at > created_at,
    decreases ordered.len(),
{
    if ordered.len() > 0 && ordered.last().created_at > created_at {
        let shorter = ordered.drop_last();
        assert forall|i: int, j: int| 0 <= i < j < shorter.len() implies (
        #[trigger] shorter[i]).created_at <= (#[trigger] shorter[j]).created_at by {
            assert(shorter[i] == ordered[i]);
            assert(shorter[j] == ordered[j]);
        }
        lemma_insert_point(shorter, created_at);
        assert forall|i: int| 0 <= i < insert_point(ordered, created_at) implies (
        #[trigger] ordered[i]).created_at <= created_at by {
            assert(ordered[i] == shorter[i]);
        }
        assert forall|i: int| insert_point(ordered, created_at) <= i < ordered.len() implies (
        #[trigger] ordered[i]).created_at > created_at by {
            if i < shorter.len() {
                assert(ordered[i] == shorter[i]);
            }
        }
    } else if ordered.len() > 0 {
        assert forall|i: int| 0 <= i < ordered.len() implies (#[trigger] ordered[i]).created_at
            <= created_at by {
            if i < ordered.len() - 1 {
                assert(ordered[i].created_at <= ordered[ordered.len() - 1].created_at);
            }
        }
    }
}

/// First in, first out: the order in which stock is offered to a requirement holds the same
/// items as the stock itself and is ordered by age, oldest first.
pub proof fn lemma_fifo_order(items: Seq<ItemView>)
    ensures
        fifo_order(items).len() == items.len(),
        fifo_order(items).to_multiset() == items.to_multiset(),
        by_age(fifo_order(items)),
    decreases items.len(),
{
    if items.len() > 0 {
        let earlier = items.drop_last();
        let last = items.last();
        lemma_fifo_order(earlier);
        let ordered = fifo_order(earlier);
        lemma_insert_point(ordered, last.created_at);
        let at = insert_point(ordered, last.created_at);
        let result = ordered.insert(at, last);
        assert(items =~= earlier.push(last));
        vstd::seq_lib::to_multiset_build(earlier, last);
        vstd::seq_lib::to_multiset_insert(ordered, at, last);
        assert forall|i: int, j: int| 0 <= i < j < result.len() implies (
        #[trigger] result[i]).created_at <= (#[trigger] result[j]).created_at by {
            if i < at {
                assert(result[i] == ordered[i]);
            } else if i > at {
                assert(result[i] == ordered[i - 1]);
            }
            if j < at {
                assert(result[j] == ordered[j]);
            } else if j > at {
                assert(result[j] == ordered[j - 1]);
            }
        }
    } else {
        assert(fifo_order(items) =~= items);
    }
}

/// The stock before a position does not shrink as the position grows.
pub proof fn lemma_stock_before_grows(ordered: Seq<ItemView>, i: int, j: int)
    requires
        i <= j,
    ensures
        stock_before(ordered, i) <= stock_before(ordered, j),
    decreases j - i,
{
    if i < j {
        lemma_stock_before_grows(ordered, i, j - 1);
    }
}

/// Oldest first: among the stock offered to a requirement, when an item is taken, every item
/// that is older and holds stock is taken as well.
pub proof fn lemma_oldest_first(items: Seq<ItemView>, required: nat, older: int, younger: int)
    requires
        0 <= older < items.len(),
        0 <= younger < items.len(),
        fifo_order(items)[older].created_at < fifo_order(items)[younger].created_at,
        fifo_order(items)[older].qty != 0,
        taken(fifo_order(items), required, younger),
    ensures
        older < younger,
        taken(fifo_order(items), required, older),
{
    lemma_fifo_order(items);
    let ordered = fifo_order(items);
    if younger < older {
        assert(ordered[younger].created_at <= ordered[older].created_at);
    }
    lemma_stock_before_grows(ordered, older, younger);
}

/// Until the requirement is met: every item that is taken was needed, because the items
/// before it fell short of the requirement; and once the items before a position cover the
/// requirement, no item from there on is taken.
pub proof fn lemma_taken_until_met(ordered: Seq<ItemView>, required: nat, j: int, later: int)
    requires
        0 <= j <= later < ordered.len(),
    ensures
        taken(ordered, required, later) ==> stock_before(ordered, j) < required,
        stock_before(ordered, j) >= required ==> !taken(ordered, required, later),
{
    lemma_stock_before_grows(ordered, j, later);
}

/// No negative stock: a decrease of an item's quantity that the aggregate of its SKU does not
/// cover is refused as insufficient inventory.
pub proof fn lemma_adjust_refuses_overdraw(
    s: LedgerState,
    who: AccountId,
    issuer: Employee,
    item: ItemView,
    original_qty: Qty,
    new_qty: Qty,
    reason: Seq<u8>,
)
    requires
        new_qty < original_qty,
        s.total(item.sku) < original_qty - new_qty,
        has_key(s.totals, item.sku),
    ensures
        (adjust_step(
            s,
            who,
            issuer,
            item,
            AdjustDetailsView::Quantity { original_qty, new_qty, reason },
        ) == Err::<LedgerState, Error>(Error::InsufficientInventory)),
{
}

/// Work order numbers are used once: after a work order is registered, another with the same
/// number is refused, and the registered one is still the first.
pub proof fn lemma_work_order_unique(s: AssemblyState, first: WorkOrderView, second: WorkOrderView)
    requires
        s.valid(),
        create_work_order_step(s, first) is Ok,
        second.work_order_number == first.work_order_number,
    ensures
        (create_work_order_step(create_work_order_step(s, first).unwrap(), second) == Err::<
            AssemblyState,
            DispatchError,
        >(DispatchError::Assembly(crate::assembly::Error::WorkOrderAlreadyExists))),
        lookup(create_work_order_step(s, first).unwrap().work_orders, first.work_order_number)
            == Some(first),
{
    lemma_put(s.work_orders, first.work_order_number, first);
}

} // verus!
