//! First-in-first-out selection of stock for a work order, and the staging of what was selected.

use vstd::prelude::*;
use crate::assembly::{AssemblyState, DispatchError, Error, WorkOrderNumber};
use crate::table::lookup;
use crate::bounded::item_views;
use crate::model::{move_step, ItemKeyView, LedgerState};
use crate::reasons::staging_reason;
use crate::types::{
    AccountId, AdjustDetailsView, Item, ItemView, Location, RecipeComponentView, MAX_COMPONENTS,
};

verus! {

/// The items stored for `who` under `sku`, in the order of the rows.
pub open spec fn owned(rows: Seq<(ItemKeyView, ItemView)>, who: AccountId, sku: Seq<u8>) -> Seq<
    ItemView,
>
    decreases rows.len(),
{
    if rows.len() == 0 {
        Seq::empty()
    } else {
        let earlier = owned(rows.drop_last(), who, sku);
        let last = rows.last();
        if last.0.0 == who && last.0.1 == sku {
            earlier.push(last.1)
        } else {
            earlier
        }
    }
}

/// Where an item created at `created_at` goes in a list ordered by age: behind every item that
/// is not younger.
pub open spec fn insert_point(ordered: Seq<ItemView>, created_at: u32) -> int
    decreases ordered.len(),
{
    if ordered.len() == 0 {
        0
    } else if ordered.last().created_at <= created_at {
        ordered.len() as int
    } else {
        insert_point(ordered.drop_last(), created_at)
    }
}

/// The items by age, oldest first; items of the same age keep the order they came in.
pub open spec fn fifo_order(items: Seq<ItemView>) -> Seq<ItemView>
    decreases items.len(),
{
    if items.len() == 0 {
        Seq::empty()
    } else {
        let ordered = fifo_order(items.drop_last());
        ordered.insert(insert_point(ordered, items.last().created_at), items.last())
    }
}

/// The total quantity of the first `n` items.
pub open spec fn stock_before(ordered: Seq<ItemView>, n: int) -> nat
    decreases n,
{
    if n <= 0 {
        0
    } else {
        stock_before(ordered, n - 1) + ordered[n - 1].qty as nat
    }
}

/// Whether the item at `j` is taken for a requirement of `required`: it holds stock, and the
/// items before it do not cover the requirement.
pub open spec fn taken(ordered: Seq<ItemView>, required: nat, j: int) -> bool {
    ordered[j].qty != 0 && stock_before(ordered, j) < required
}

/// What is left of a requirement of `required` after the first `n` items.
pub open spec fn outstanding(ordered: Seq<ItemView>, required: nat, n: int) -> nat {
    if stock_before(ordered, n) >= required {
        0
    } else {
        (required - stock_before(ordered, n)) as nat
    }
}

/// The adjustment that records a move into staging.
pub open spec fn staging_details(from: Location) -> AdjustDetailsView {
    AdjustDetailsView::Location {
        original_location: from,
        new_location: Location::Staging,
        reason: staging_reason(),
    }
}

/// Staging, from the item at `j` on, the items of `ordered` that are taken for `required`.
/// Each is moved to staging under its last mover's name and then recorded as a line; `lines`
/// counts the lines so far. A move that the ledger refuses ends the staging with that refusal,
/// and so does a line beyond the hundredth.
pub open spec fn stage_from(
    inv: LedgerState,
    who: AccountId,
    ordered: Seq<ItemView>,
    required: nat,
    j: int,
    lines: nat,
) -> Result<(LedgerState, nat), DispatchError>
    decreases ordered.len() - j,
{
    if j < 0 || j >= ordered.len() {
        Ok((inv, lines))
    } else if taken(ordered, required, j) {
        match move_step(
            inv,
            who,
            ordered[j],
            ordered[j].moved_by,
            staging_details(ordered[j].location),
        ) {
            Err(e) => Err(DispatchError::Inventory(e)),
            Ok(next) => {
                if lines >= MAX_COMPONENTS {
                    Err(DispatchError::Assembly(Error::BomConstructIssue))
                } else {
                    stage_from(next, who, ordered, required, j + 1, lines + 1)
                }
            },
        }
    } else {
        stage_from(inv, who, ordered, required, j + 1, lines)
    }
}

/// Staging one component of a recipe for `who`. It is refused where the aggregate of the SKU
/// is below the quantity required. Otherwise the items of `who` with that SKU are taken oldest
/// first until the requirement is covered.
pub open spec fn stage_component(
    inv: LedgerState,
    who: AccountId,
    component: RecipeComponentView,
    lines: nat,
) -> Result<(LedgerState, nat), DispatchError> {
    if inv.total(component.sku) < component.qty {
        Err(DispatchError::Assembly(Error::InsufficientInventory))
    } else {
        stage_from(
            inv,
            who,
            fifo_order(owned(inv.items, who, component.sku)),
            component.qty as nat,
            0,
            lines,
        )
    }
}

/// Staging the components of a recipe from the one at `k` on, in the recipe's order.
pub open spec fn stage_components(
    inv: LedgerState,
    who: AccountId,
    components: Seq<RecipeComponentView>,
    k: int,
    lines: nat,
) -> Result<(LedgerState, nat), DispatchError>
    decreases components.len() - k,
{
    if k < 0 || k >= components.len() {
        Ok((inv, lines))
    } else {
        match stage_component(inv, who, components[k], lines) {
            Err(e) => Err(e),
            Ok((next, count)) => stage_components(next, who, components, k + 1, count),
        }
    }
}

/// The position of an item in a list ordered by age, found from the young end.
fn find_insert_point(ordered: &Vec<Item>, created_at: u32) -> (at: usize)
    ensures
        at == insert_point(item_views(ordered@), created_at),
        at <= ordered.len(),
{
    let mut j: usize = ordered.len();
    let ghost views = item_views(ordered@);
    assert(views.take(j as int) =~= views);
    while j > 0 && ordered[j - 1].created_at > created_at
        invariant
            j <= ordered.len(),
            views == item_views(ordered@),
            insert_point(views, created_at) == insert_point(views.take(j as int), created_at),
        decreases j,
    {
        assert(views.take(j as int).drop_last() =~= views.take(j - 1));
        j -= 1;
    }
    assert(views.take(j as int).len() == j);
    j
}

/// Orders items by age, oldest first; items of the same age keep the order they came in.
pub fn sort_by_age(items: &Vec<Item>) -> (ordered: Vec<Item>)
    ensures
        item_views(ordered@) == fifo_order(item_views(items@)),
{
    let mut ordered: Vec<Item> = Vec::new();
    let mut i: usize = 0;
    let ghost views = item_views(items@);
    assert(item_views(ordered@) =~= fifo_order(views.take(0)));
    while i < items.len()
        invariant
            i <= items.len(),
            views == item_views(items@),
            item_views(ordered@) == fifo_order(views.take(i as int)),
        decreases items.len() - i,
    {
        let item = items[i].clone();
        let at = find_insert_point(&ordered, item.created_at);
        let ghost before = item_views(ordered@);
        ordered.insert(at, item);
        proof {
            assert(views.take(i + 1).drop_last() =~= views.take(i as int));
            assert(views.take(i + 1).last() == views[i as int]);
            assert(item_views(ordered@) =~= before.insert(at as int, views[i as int]));
        }
        i += 1;
    }
    assert(views.take(items.len() as int) =~= views);
    ordered
}

/// Once the items before `j` cover the requirement, nothing more is staged.
pub proof fn lemma_stage_done(
    inv: LedgerState,
    who: AccountId,
    ordered: Seq<ItemView>,
    required: nat,
    j: int,
    lines: nat,
)
    requires
        0 <= j <= ordered.len(),
        stock_before(ordered, j) >= required,
    ensures
        (stage_from(inv, who, ordered, required, j, lines) == Ok::<
            (LedgerState, nat),
            DispatchError,
        >((inv, lines))),
    decreases ordered.len() - j,
{
    if j < ordered.len() {
        lemma_stage_done(inv, who, ordered, required, j + 1, lines);
    }
}

/// What a staging pass's result, the ledger after it and the number of lines say when they
/// follow `step`.
pub open spec fn staged_as(
    res: Result<(), DispatchError>,
    after: LedgerState,
    lines: nat,
    step: Result<(LedgerState, nat), DispatchError>,
) -> bool {
    match res {
        Ok(_) => step == Ok::<(LedgerState, nat), DispatchError>((after, lines)),
        Err(e) => step == Err::<(LedgerState, nat), DispatchError>(e),
    }
}

/// Preparing the staging area for the work order with the given number, for `who`. An unknown
/// number is refused. Otherwise the components of the order's recipe are staged in the
/// recipe's order, and the preparation is announced.
pub open spec fn staging_step(
    inv: LedgerState,
    engine: AssemblyState,
    who: AccountId,
    number: WorkOrderNumber,
) -> Result<(LedgerState, AssemblyState), DispatchError> {
    match lookup(engine.work_orders, number) {
        None => Err(DispatchError::Assembly(Error::WorkOrderNotFound)),
        Some(order) => match stage_components(inv, who, order.recipe.required_components, 0, 0) {
            Err(e) => Err(e),
            Ok((next, _)) => Ok(
                (
                    next,
                    engine.announce(
                        crate::assembly::EventView::PrepStaging {
                            assembler: who,
                            work_order: order,
                        },
                    ),
                ),
            ),
        },
    }
}

} // verus!
