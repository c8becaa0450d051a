//! Consumption of staged components against a recipe, and the assembly it is part of.

use vstd::prelude::*;
use crate::assembly::{
    AssemblyState, DispatchError, Error, EventView, WorkOrderNumber, WorkOrderView,
};
use crate::bounded::ascending_items;
use crate::model::{adjust_step, insert_step, move_step, LedgerState};
use crate::reasons::{consumption_reason, return_reason};
use crate::table::{lookup, put};
use crate::types::{
    default_item, AccountId, AdjustDetailsView, ItemView, Location, Qty, RecipeComponentView,
    SerialNumber, MAX_COMPONENTS,
};

verus! {

/// The total quantity of the items of `staged` with the given SKU.
pub open spec fn coverage(staged: Seq<ItemView>, sku: Seq<u8>) -> nat
    decreases staged.len(),
{
    if staged.len() == 0 {
        0
    } else if staged.last().sku == sku {
        coverage(staged.drop_last(), sku) + staged.last().qty as nat
    } else {
        coverage(staged.drop_last(), sku)
    }
}

/// The smaller of an item's quantity and what is left of a requirement.
pub open spec fn draw_size(qty: Qty, remaining: nat) -> Qty {
    if qty <= remaining {
        qty
    } else {
        remaining as u32
    }
}

/// The adjustment that records the reduction of a staged item by an assembly.
pub open spec fn consumption_details(original_qty: Qty, new_qty: Qty) -> AdjustDetailsView {
    AdjustDetailsView::Quantity { original_qty, new_qty, reason: consumption_reason() }
}

/// The adjustment that records the return of a staged item to the warehouse.
pub open spec fn return_details(from: Location) -> AdjustDetailsView {
    AdjustDetailsView::Location {
        original_location: from,
        new_location: Location::Warehouse,
        reason: return_reason(),
    }
}

/// The staged item after `take` units were drawn from it.
pub open spec fn reduced(item: ItemView, take: Qty) -> ItemView {
    ItemView { qty: (item.qty - take) as u32, ..item }
}

/// The line of a bill of materials that records `take` units drawn from an item.
pub open spec fn line_of(item: ItemView, take: Qty) -> ItemView {
    ItemView { qty: take, ..item }
}

/// What drawing `take` units from a staged item does to the ledger, when the bill of materials
/// has `lines` lines already: the item's quantity is adjusted under its last mover's name, and
/// the item is moved to the warehouse. A line beyond the hundredth is refused before anything
/// else, and a refusal of the ledger ends the draw.
pub open spec fn draw_effect(
    ledger: LedgerState,
    lines: nat,
    who: AccountId,
    item: ItemView,
    take: Qty,
) -> Result<LedgerState, DispatchError> {
    let left = reduced(item, take);
    if lines >= MAX_COMPONENTS {
        Err(DispatchError::Assembly(Error::BomConstructIssue))
    } else {
        match adjust_step(
            ledger,
            who,
            item.moved_by,
            left,
            consumption_details(item.qty, left.qty),
        ) {
            Err(e) => Err(DispatchError::Inventory(e)),
            Ok(adjusted) => match move_step(
                adjusted,
                who,
                left,
                left.moved_by,
                return_details(left.location),
            ) {
                Err(e) => Err(DispatchError::Inventory(e)),
                Ok(returned) => Ok(returned),
            },
        }
    }
}

/// How far an assembly has come: the ledger, the staged items with what is left of each, and
/// the lines recorded so far.
pub struct Progress {
    pub ledger: LedgerState,
    pub staged: Seq<ItemView>,
    pub bom: Seq<ItemView>,
}

/// Consuming `remaining` units of a SKU from the staged items at `j` and after, in their
/// order. From each item of that SKU that holds stock, as long as something remains to be
/// consumed, the smaller of its quantity and the remainder is drawn and recorded as a line.
pub open spec fn consume_from(
    ledger: LedgerState,
    staged: Seq<ItemView>,
    bom: Seq<ItemView>,
    who: AccountId,
    sku: Seq<u8>,
    remaining: nat,
    j: int,
) -> Result<Progress, DispatchError>
    decreases staged.len() - j,
{
    if j < 0 || j >= staged.len() {
        Ok(Progress { ledger, staged, bom })
    } else if staged[j].sku == sku && staged[j].qty != 0 && remaining != 0 {
        let take = draw_size(staged[j].qty, remaining);
        match draw_effect(ledger, bom.len(), who, staged[j], take) {
            Err(e) => Err(e),
            Ok(next) => consume_from(
                next,
                staged.update(j, reduced(staged[j], take)),
                bom.push(line_of(staged[j], take)),
                who,
                sku,
                (remaining - take) as nat,
                j + 1,
            ),
        }
    } else {
        consume_from(ledger, staged, bom, who, sku, remaining, j + 1)
    }
}

/// Consuming one component of a recipe. It is refused, before anything is drawn, where the
/// staged items of its SKU hold less than the component requires.
pub open spec fn consume_component(
    p: Progress,
    who: AccountId,
    component: RecipeComponentView,
) -> Result<Progress, DispatchError> {
    if coverage(p.staged, component.sku) < component.qty {
        Err(DispatchError::Assembly(Error::InsufficientInventory))
    } else {
        consume_from(p.ledger, p.staged, p.bom, who, component.sku, component.qty as nat, 0)
    }
}

/// Consuming the components of a recipe from the one at `k` on, in the recipe's order.
pub open spec fn consume_components(
    p: Progress,
    who: AccountId,
    components: Seq<RecipeComponentView>,
    k: int,
) -> Result<Progress, DispatchError>
    decreases components.len() - k,
{
    if k < 0 || k >= components.len() {
        Ok(p)
    } else {
        match consume_component(p, who, components[k]) {
            Err(e) => Err(e),
            Ok(next) => consume_components(next, who, components, k + 1),
        }
    }
}

/// The product that an assembly for a work order yields.
pub open spec fn product_of(order: WorkOrderView, serial: SerialNumber) -> ItemView {
    ItemView {
        sku: order.recipe.sku,
        serial_number: serial,
        qty: order.recipe.output_quantity,
        ..default_item()
    }
}

/// The ledger after an attempt to shelve a finished product: with the product inserted, or
/// unchanged where the ledger refuses the insertion.
pub open spec fn shelved(ledger: LedgerState, who: AccountId, product: ItemView) -> LedgerState {
    match insert_step(ledger, who, product) {
        Ok(next) => next,
        Err(_) => ledger,
    }
}

/// Assembling the product of the work order with the given number, for `who`, from the items
/// indexed under `staging_location`. An unknown number is refused, and so is a location
/// without an index. Otherwise the components of the order's recipe are consumed from the
/// items of that index by increasing serial number; the product is recorded with its bill of
/// materials; and the product is inserted into the ledger where the ledger takes it.
pub open spec fn assemble_step(
    inv: LedgerState,
    engine: AssemblyState,
    who: AccountId,
    number: WorkOrderNumber,
    serial: SerialNumber,
    staging_location: Location,
) -> Result<(LedgerState, AssemblyState), DispatchError> {
    match (lookup(engine.work_orders, number), inv.bucket(staging_location)) {
        (None, _) => Err(DispatchError::Assembly(Error::WorkOrderNotFound)),
        (Some(_), None) => Err(DispatchError::Assembly(Error::StagingAreaNotFound)),
        (Some(order), Some(bucket)) => match consume_components(
            Progress { ledger: inv, staged: ascending_items(bucket), bom: Seq::empty() },
            who,
            order.recipe.required_components,
            0,
        ) {
            Err(e) => Err(e),
            Ok(done) => Ok(
                (
                    shelved(done.ledger, who, product_of(order, serial)),
                    AssemblyState {
                        assembled: put(
                            engine.assembled,
                            (who, order.recipe.sku, serial),
                            (product_of(order, serial), done.bom),
                        ),
                        ..engine
                    },
                ),
            ),
        },
    }
}

/// Assembling at a caller's request: the assembly, then its announcement, which shows the
/// work order as the caller gave it.
pub open spec fn assemble_request(
    inv: LedgerState,
    engine: AssemblyState,
    who: AccountId,
    work_order: WorkOrderView,
    serial: SerialNumber,
    staging_location: Location,
) -> Result<(LedgerState, AssemblyState), DispatchError> {
    match assemble_step(inv, engine, who, work_order.work_order_number, serial, staging_location) {
        Err(e) => Err(e),
        Ok((ledger, next)) => Ok(
            (ledger, next.announce(EventView::ProductAssembled { assembler: who, work_order })),
        ),
    }
}

/// What is missing of a requirement after the items of `staged` with the given SKU are counted.
pub open spec fn shortfall(staged: Seq<ItemView>, sku: Seq<u8>, required: nat) -> nat {
    if coverage(staged, sku) >= required {
        0
    } else {
        (required - coverage(staged, sku)) as nat
    }
}

/// What a consumption pass's result and the progress after it say when they follow `step`.
pub open spec fn consumed_as(
    res: Result<(), DispatchError>,
    ledger: LedgerState,
    staged: Seq<ItemView>,
    bom: Seq<ItemView>,
    step: Result<Progress, DispatchError>,
) -> bool {
    match res {
        Ok(_) => step == Ok::<Progress, DispatchError>(Progress { ledger, staged, bom }),
        Err(e) => step == Err::<Progress, DispatchError>(e),
    }
}

} // verus!
