//! Work orders and the assembly of products from staged components.

use vstd::prelude::*;
use crate::bounded::{
    bom_lines, item_views, lines_clone, lines_new, lines_to_vec, lines_try_push, BomLines,
};
use crate::consumption::{
    assemble_request, assemble_step, consume_components, consume_from, consumed_as, coverage,
    line_of, product_of, reduced, shortfall, Progress,
};
use crate::inventory::ItemKey;
use crate::model::{ItemKeyView, LedgerState};
use crate::reasons::{audit_reason, lemma_reasons_fit};
use crate::staging::{
    lemma_stage_done, outstanding, sort_by_age, stage_components, stage_from, staged_as,
    staging_step,
};
use crate::table::{has_key, lemma_put, lookup, put, shows, Stored, Table};
use crate::types::{
    bytes_eq, component_views, default_recipe, AccountId, AdjustDetails, Item, ItemView,
    Location, Recipe, RecipeComponent, RecipeView, SerialNumber, Sku,
};

verus! {

pub type WorkOrderNumber = u32;

/// Why an assembly operation was refused.
#[derive(Clone, Copy, Debug, PartialEq, Eq, Structural)]
pub enum Error {
    /// Not enough components for assembly.
    InsufficientComponents,
    /// The assembly could not be carried out.
    AssemblyFailed,
    /// The stock on hand does not cover what the recipe takes.
    InsufficientInventory,
    /// A reason is longer than an audit record holds.
    DescriptionTooLong,
    /// No work order has this number.
    WorkOrderNotFound,
    /// The staging location has no index.
    StagingAreaNotFound,
    /// The bill of materials cannot take another line.
    BomConstructIssue,
    /// A work order with this number exists already.
    WorkOrderAlreadyExists,
}

/// A refusal of an operation that spans assembly and inventory, with its origin.
#[derive(Clone, Copy, Debug, PartialEq, Eq, Structural)]
pub enum DispatchError {
    /// The inventory ledger refused.
    Inventory(crate::model::Error),
    /// The assembly engine refused.
    Assembly(Error),
}

/// What a `WorkOrder` holds.
pub struct WorkOrderView {
    pub work_order_number: WorkOrderNumber,
    pub recipe: RecipeView,
}

/// An order to build the product of a recipe.
#[derive(Debug, PartialEq, Eq)]
pub struct WorkOrder {
    pub work_order_number: WorkOrderNumber,
    pub recipe: Recipe,
}

impl View for WorkOrder {
    type V = WorkOrderView;

    open spec fn view(&self) -> WorkOrderView {
        WorkOrderView { work_order_number: self.work_order_number, recipe: self.recipe@ }
    }
}

impl Clone for WorkOrder {
    fn clone(&self) -> (copy: Self)
        ensures
            copy@ == self@,
    {
        WorkOrder { work_order_number: self.work_order_number, recipe: self.recipe.clone() }
    }
}

impl Default for WorkOrder {
    fn default() -> (order: Self)
        ensures
            order@ == (WorkOrderView { work_order_number: 0, recipe: default_recipe() }),
    {
        WorkOrder { work_order_number: 0, recipe: Recipe::default() }
    }
}

impl Stored for WorkOrder {
    fn duplicate(&self) -> (copy: Self) {
        self.clone()
    }
}

/// A bill of materials: the items consumed for one build, each with the quantity taken from it.
/// Its view is the sequence of its lines.
#[derive(Debug, PartialEq, Eq)]
pub struct Bom {
    pub materials: BomLines,
}

impl View for Bom {
    type V = Seq<ItemView>;

    open spec fn view(&self) -> Seq<ItemView> {
        bom_lines(self.materials)
    }
}

impl Bom {
    /// A bill of materials without lines.
    pub fn new() -> (bom: Self)
        ensures
            bom@.len() == 0,
    {
        Bom { materials: lines_new() }
    }

    /// The lines, in the order in which they were recorded.
    pub fn lines(&self) -> (lines: Vec<Item>)
        ensures
            item_views(lines@) == self@,
    {
        lines_to_vec(&self.materials)
    }
}

impl Clone for Bom {
    fn clone(&self) -> (copy: Self)
        ensures
            copy@ == self@,
    {
        Bom { materials: lines_clone(&self.materials) }
    }
}

/// A finished product with the bill of materials that went into it.
#[derive(Debug, PartialEq, Eq)]
pub struct AssembledProduct {
    pub item: Item,
    pub bom: Bom,
}

impl View for AssembledProduct {
    type V = (ItemView, Seq<ItemView>);

    open spec fn view(&self) -> (ItemView, Seq<ItemView>) {
        (self.item@, self.bom@)
    }
}

impl Stored for AssembledProduct {
    fn duplicate(&self) -> (copy: Self) {
        AssembledProduct { item: self.item.clone(), bom: self.bom.clone() }
    }
}

/// What an announcement of the assembly engine holds.
pub enum EventView {
    PrepStaging { assembler: AccountId, work_order: WorkOrderView },
    ProductAssembled { assembler: AccountId, work_order: WorkOrderView },
    AddWorkOrder { who: AccountId, work_order: WorkOrderView },
}

/// An announcement of the assembly engine, for whoever publishes it.
#[derive(Debug, PartialEq, Eq)]
pub enum Event {
    PrepStaging { assembler: AccountId, work_order: WorkOrder },
    ProductAssembled { assembler: AccountId, work_order: WorkOrder },
    AddWorkOrder { who: AccountId, work_order: WorkOrder },
}

impl View for Event {
    type V = EventView;

    open spec fn view(&self) -> EventView {
        match *self {
            Event::PrepStaging { assembler, work_order } => EventView::PrepStaging {
                assembler,
                work_order: work_order@,
            },
            Event::ProductAssembled { assembler, work_order } => EventView::ProductAssembled {
                assembler,
                work_order: work_order@,
            },
            Event::AddWorkOrder { who, work_order } => EventView::AddWorkOrder {
                who,
                work_order: work_order@,
            },
        }
    }
}

impl Clone for Event {
    fn clone(&self) -> (copy: Self)
        ensures
            copy@ == self@,
    {
        match self {
            Event::PrepStaging { assembler, work_order } => Event::PrepStaging {
                assembler: *assembler,
                work_order: work_order.clone(),
            },
            Event::ProductAssembled { assembler, work_order } => Event::ProductAssembled {
                assembler: *assembler,
                work_order: work_order.clone(),
            },
            Event::AddWorkOrder { who, work_order } => Event::AddWorkOrder {
                who: *who,
                work_order: work_order.clone(),
            },
        }
    }
}

/// The announcements of a list, each by its view.
pub open spec fn event_views(events: Seq<Event>) -> Seq<EventView> {
    events.map_values(|e: Event| e@)
}

/// Everything the assembly engine holds.
pub struct AssemblyState {
    /// The work orders, by number.
    pub work_orders: Seq<(WorkOrderNumber, WorkOrderView)>,
    /// The finished products, each with its bill of materials, by the key of the product.
    pub assembled: Seq<(ItemKeyView, (ItemView, Seq<ItemView>))>,
    /// The announcements made so far, oldest first.
    pub events: Seq<EventView>,
}

impl AssemblyState {
    /// The state of a new engine: nothing stored.
    pub open spec fn empty() -> AssemblyState {
        AssemblyState { work_orders: Seq::empty(), assembled: Seq::empty(), events: Seq::empty() }
    }

    /// The structural invariant: keys are unique in each table.
    pub open spec fn valid(self) -> bool {
        &&& crate::table::distinct_keys(self.work_orders)
        &&& crate::table::distinct_keys(self.assembled)
    }

    /// The state with one more announcement.
    pub open spec fn announce(self, event: EventView) -> AssemblyState {
        AssemblyState { events: self.events.push(event), ..self }
    }
}

/// What an operation's result and the states around it say when they follow `step`: on success
/// the new state is the one that `step` gives, and on refusal the error is the one that `step`
/// gives and the state is unchanged.
pub open spec fn settles(
    res: Result<(), DispatchError>,
    before: AssemblyState,
    after: AssemblyState,
    step: Result<AssemblyState, DispatchError>,
) -> bool {
    match res {
        Ok(_) => step == Ok::<AssemblyState, DispatchError>(after),
        Err(e) => step == Err::<AssemblyState, DispatchError>(e) && after == before,
    }
}

/// Registering a work order. A number that is already registered is refused.
pub open spec fn create_work_order_step(s: AssemblyState, work_order: WorkOrderView) -> Result<
    AssemblyState,
    DispatchError,
> {
    if has_key(s.work_orders, work_order.work_order_number) {
        Err(DispatchError::Assembly(Error::WorkOrderAlreadyExists))
    } else {
        Ok(
            AssemblyState {
                work_orders: put(s.work_orders, work_order.work_order_number, work_order),
                ..s
            },
        )
    }
}

/// Registering a work order at a caller's request: the registration, then its announcement.
pub open spec fn create_work_order_request(
    s: AssemblyState,
    who: AccountId,
    work_order: WorkOrderView,
) -> Result<AssemblyState, DispatchError> {
    match create_work_order_step(s, work_order) {
        Ok(next) => Ok(next.announce(EventView::AddWorkOrder { who, work_order })),
        Err(e) => Err(e),
    }
}

/// The assembly engine.
pub struct Pallet {
    work_orders: Table<WorkOrderNumber, WorkOrder>,
    assembled_products: Table<ItemKey, AssembledProduct>,
    events: Vec<Event>,
}

impl View for Pallet {
    type V = AssemblyState;

    closed spec fn view(&self) -> AssemblyState {
        AssemblyState {
            work_orders: self.work_orders.rows(),
            assembled: self.assembled_products.rows(),
            events: event_views(self.events@),
        }
    }
}

impl Pallet {
    /// The engine's invariant: its state is valid.
    pub open spec fn wf(&self) -> bool {
        self@.valid()
    }

    /// An engine that holds nothing.
    pub fn new() -> (engine: Self)
        ensures
            engine.wf(),
            engine@ == AssemblyState::empty(),
    {
        let engine = Pallet {
            work_orders: Table::new(),
            assembled_products: Table::new(),
            events: Vec::new(),
        };
        assert(engine@.work_orders =~= AssemblyState::empty().work_orders);
        assert(engine@.assembled =~= AssemblyState::empty().assembled);
        assert(engine@.events =~= AssemblyState::empty().events);
        engine
    }

    /// Adds an announcement to those made so far.
    fn deposit_event(&mut self, event: Event)
        requires
            old(self).wf(),
        ensures
            final(self).wf(),
            final(self)@ == old(self)@.announce(event@),
    {
        self.events.push(event);
        assert(self@.events =~= old(self)@.events.push(event@));
    }

    /// Registers a work order. Where its number is already registered, the order is refused
    /// and the registered one stays as it is.
    pub fn do_create_work_order(&mut self, work_order: WorkOrder) -> (res: Result<
        (),
        DispatchError,
    >)
        requires
            old(self).wf(),
        ensures
            final(self).wf(),
            settles(
                res,
                old(self)@,
                final(self)@,
                create_work_order_step(old(self)@, work_order@),
            ),
    {
        if self.work_orders.contains_key(&work_order.work_order_number) {
            return Err(DispatchError::Assembly(Error::WorkOrderAlreadyExists));
        }
        proof {
            lemma_put(self@.work_orders, work_order.work_order_number, work_order@);
        }
        self.work_orders.insert(work_order.work_order_number, work_order);
        Ok(())
    }

    /// Registers a work order at the request of `who`, and announces it.
    pub fn create_work_order(&mut self, who: AccountId, work_order: WorkOrder) -> (res: Result<
        (),
        DispatchError,
    >)
        requires
            old(self).wf(),
        ensures
            final(self).wf(),
            settles(
                res,
                old(self)@,
                final(self)@,
                create_work_order_request(old(self)@, who, work_order@),
            ),
    {
        match self.do_create_work_order(work_order.clone()) {
            Ok(()) => {
                self.deposit_event(Event::AddWorkOrder { who, work_order });
                Ok(())
            },
            Err(e) => Err(e),
        }
    }
}

/// What an operation's result and the states of ledger and engine around it say when they
/// follow `step`: on success the new states are those that `step` gives, and on refusal the
/// error is the one that `step` gives and both states are unchanged.
pub open spec fn settles_both(
    res: Result<(), DispatchError>,
    ledger_before: LedgerState,
    ledger_after: LedgerState,
    before: AssemblyState,
    after: AssemblyState,
    step: Result<(LedgerState, AssemblyState), DispatchError>,
) -> bool {
    match res {
        Ok(_) => step == Ok::<(LedgerState, AssemblyState), DispatchError>((ledger_after, after)),
        Err(e) => step == Err::<(LedgerState, AssemblyState), DispatchError>(e) && ledger_after
            == ledger_before && after == before,
    }
}

/// Stages the items of `ordered` that a requirement of `required` takes, on a draft of the
/// ledger, and records each as a line of `bom`.
fn stage_items(
    draft: &mut crate::inventory::Pallet,
    bom: &mut Bom,
    who: AccountId,
    ordered: &Vec<Item>,
    required: u32,
) -> (res: Result<(), DispatchError>)
    requires
        old(draft).wf(),
    ensures
        final(draft).wf(),
        staged_as(
            res,
            final(draft)@,
            final(bom)@.len(),
            stage_from(old(draft)@, who, item_views(ordered@), required as nat, 0, old(bom)@.len()),
        ),
{
    let ghost views = item_views(ordered@);
    let ghost goal = stage_from(draft@, who, views, required as nat, 0, bom@.len());
    let mut remaining: u32 = required;
    let mut j: usize = 0;
    while j < ordered.len()
        invariant
            j <= ordered.len(),
            views == item_views(ordered@),
            draft.wf(),
            remaining == outstanding(views, required as nat, j as int),
            goal == stage_from(old(draft)@, who, views, required as nat, 0, old(bom)@.len()),
            goal == stage_from(draft@, who, views, required as nat, j as int, bom@.len()),
        decreases ordered.len() - j,
    {
        let item = &ordered[j];
        assert(views[j as int] == item@);
        if item.qty != 0 {
            if remaining == 0 {
                proof {
                    lemma_stage_done(draft@, who, views, required as nat, j as int, bom@.len());
                }
                return Ok(());
            }
            remaining = if item.qty > remaining {
                0
            } else {
                remaining - item.qty
            };
            proof {
                lemma_reasons_fit();
            }
            let reason = match audit_reason("Prepare Staging Area") {
                Ok(reason) => reason,
                Err(e) => {
                    return Err(DispatchError::Assembly(e));
                },
            };
            let details = AdjustDetails::Location {
                original_location: item.location,
                new_location: Location::Staging,
                reason,
            };
            match draft.do_inventory_move(who, item.clone(), item.moved_by, details) {
                Ok(()) => {},
                Err(e) => {
                    return Err(DispatchError::Inventory(e));
                },
            }
            if !lines_try_push(&mut bom.materials, item.clone()) {
                return Err(DispatchError::Assembly(Error::BomConstructIssue));
            }
        }
        j += 1;
    }
    Ok(())
}

/// Stages the components of a recipe, in the recipe's order, on a draft of the ledger.
fn stage_recipe(
    draft: &mut crate::inventory::Pallet,
    bom: &mut Bom,
    who: AccountId,
    components: &Vec<RecipeComponent>,
) -> (res: Result<(), DispatchError>)
    requires
        old(draft).wf(),
    ensures
        final(draft).wf(),
        staged_as(
            res,
            final(draft)@,
            final(bom)@.len(),
            stage_components(
                old(draft)@,
                who,
                component_views(components@),
                0,
                old(bom)@.len(),
            ),
        ),
{
    let ghost parts = component_views(components@);
    let ghost goal = stage_components(draft@, who, parts, 0, bom@.len());
    let mut k: usize = 0;
    while k < components.len()
        invariant
            k <= components.len(),
            parts == component_views(components@),
            draft.wf(),
            goal == stage_components(old(draft)@, who, parts, 0, old(bom)@.len()),
            goal == stage_components(draft@, who, parts, k as int, bom@.len()),
        decreases components.len() - k,
    {
        let component = &components[k];
        assert(parts[k as int] == component@);
        let available = match draft.global_inventory(&component.sku) {
            Some(qty) => qty,
            None => 0,
        };
        if available < component.qty {
            return Err(DispatchError::Assembly(Error::InsufficientInventory));
        }
        let candidates = draft.items_of(who, &component.sku);
        let ordered = sort_by_age(&candidates);
        match stage_items(draft, bom, who, &ordered, component.qty) {
            Ok(()) => {},
            Err(e) => {
                return Err(e);
            },
        }
        k += 1;
    }
    Ok(())
}

impl Pallet {
    /// Prepares the staging area for a work order: for each component of its recipe, the
    /// oldest stock of `who` is moved to staging until the requirement is covered. The order is
    /// looked up by its number. Where anything is refused, the ledger stays as it was.
    pub fn do_prepare_staging_area(
        &mut self,
        inventory: &mut crate::inventory::Pallet,
        who: AccountId,
        work_order: WorkOrder,
    ) -> (res: Result<(), DispatchError>)
        requires
            old(self).wf(),
            old(inventory).wf(),
        ensures
            final(self).wf(),
            final(inventory).wf(),
            settles_both(
                res,
                old(inventory)@,
                final(inventory)@,
                old(self)@,
                final(self)@,
                staging_step(old(inventory)@, old(self)@, who, work_order.work_order_number),
            ),
    {
        let order = match self.work_orders.get(&work_order.work_order_number) {
            Some(stored) => stored.clone(),
            None => {
                return Err(DispatchError::Assembly(Error::WorkOrderNotFound));
            },
        };
        let mut draft = inventory.clone();
        let mut bom = Bom::new();
        match stage_recipe(&mut draft, &mut bom, who, &order.recipe.required_components) {
            Ok(()) => {},
            Err(e) => {
                return Err(e);
            },
        }
        *inventory = draft;
        self.deposit_event(Event::PrepStaging { assembler: who, work_order: order });
        Ok(())
    }

    /// Prepares the staging area for a work order at the request of `who`.
    pub fn prepare_staging_area(
        &mut self,
        inventory: &mut crate::inventory::Pallet,
        who: AccountId,
        work_order: WorkOrder,
    ) -> (res: Result<(), DispatchError>)
        requires
            old(self).wf(),
            old(inventory).wf(),
        ensures
            final(self).wf(),
            final(inventory).wf(),
            settles_both(
                res,
                old(inventory)@,
                final(inventory)@,
                old(self)@,
                final(self)@,
                staging_step(old(inventory)@, old(self)@, who, work_order.work_order_number),
            ),
    {
        self.do_prepare_staging_area(inventory, who, work_order)
    }
}

/// Whether the staged items with the given SKU hold at least `required` units together.
fn covers(staged: &Vec<Item>, sku: &Sku, required: u32) -> (enough: bool)
    ensures
        enough == (coverage(item_views(staged@), sku@) >= required),
{
    let ghost views = item_views(staged@);
    let mut missing: u32 = required;
    let mut i: usize = 0;
    while i < staged.len()
        invariant
            i <= staged.len(),
            views == item_views(staged@),
            missing == shortfall(views.take(i as int), sku@, required as nat),
        decreases staged.len() - i,
    {
        proof {
            assert(views.take(i + 1).drop_last() =~= views.take(i as int));
            assert(views.take(i + 1).last() == staged@[i as int]@);
        }
        if bytes_eq(&staged[i].sku, sku) {
            missing = if staged[i].qty >= missing {
                0
            } else {
                missing - staged[i].qty
            };
        }
        i += 1;
    }
    assert(views.take(staged.len() as int) =~= views);
    missing == 0
}

/// Consumes `required` units of a SKU from the staged items, on a draft of the ledger, and
/// records each draw as a line of `bom`.
fn consume_items(
    draft: &mut crate::inventory::Pallet,
    bom: &mut Bom,
    staged: &mut Vec<Item>,
    who: AccountId,
    sku: &Sku,
    required: u32,
) -> (res: Result<(), DispatchError>)
    requires
        old(draft).wf(),
    ensures
        final(draft).wf(),
        consumed_as(
            res,
            final(draft)@,
            item_views(final(staged)@),
            final(bom)@,
            consume_from(
                old(draft)@,
                item_views(old(staged)@),
                old(bom)@,
                who,
                sku@,
                required as nat,
                0,
            ),
        ),
{
    let ghost goal = consume_from(
        draft@,
        item_views(staged@),
        bom@,
        who,
        sku@,
        required as nat,
        0,
    );
    let mut remaining: u32 = required;
    let mut j: usize = 0;
    while j < staged.len()
        invariant
            j <= staged.len(),
            draft.wf(),
            goal == consume_from(
                old(draft)@,
                item_views(old(staged)@),
                old(bom)@,
                who,
                sku@,
                required as nat,
                0,
            ),
            goal == consume_from(
                draft@,
                item_views(staged@),
                bom@,
                who,
                sku@,
                remaining as nat,
                j as int,
            ),
        decreases staged.len() - j,
    {
        let ghost views = item_views(staged@);
        assert(views[j as int] == staged@[j as int]@);
        if bytes_eq(&staged[j].sku, sku) && staged[j].qty != 0 && remaining != 0 {
            let item = staged[j].clone();
            let take = if item.qty <= remaining {
                item.qty
            } else {
                remaining
            };
            let mut line = item.clone();
            line.qty = take;
            let mut left = item.clone();
            left.qty = item.qty - take;
            assert(line@ == line_of(item@, take));
            assert(left@ == reduced(item@, take));
            if !lines_try_push(&mut bom.materials, line) {
                return Err(DispatchError::Assembly(Error::BomConstructIssue));
            }
            proof {
                lemma_reasons_fit();
            }
            let consumed = match audit_reason("Assemble Product") {
                Ok(reason) => reason,
                Err(e) => {
                    return Err(DispatchError::Assembly(e));
                },
            };
            let adjustment = AdjustDetails::Quantity {
                original_qty: item.qty,
                new_qty: left.qty,
                reason: consumed,
            };
            match draft.do_inventory_adjust(who, item.moved_by, left.clone(), adjustment) {
                Ok(()) => {},
                Err(e) => {
                    return Err(DispatchError::Inventory(e));
                },
            }
            let returned = match audit_reason("Assembled Product complete, move to warehouse") {
                Ok(reason) => reason,
                Err(e) => {
                    return Err(DispatchError::Assembly(e));
                },
            };
            let relocation = AdjustDetails::Location {
                original_location: left.location,
                new_location: Location::Warehouse,
                reason: returned,
            };
            match draft.do_inventory_move(who, left.clone(), left.moved_by, relocation) {
                Ok(()) => {},
                Err(e) => {
                    return Err(DispatchError::Inventory(e));
                },
            }
            staged.set(j, left);
            assert(item_views(staged@) =~= views.update(j as int, reduced(item@, take)));
            remaining = remaining - take;
        }
        j += 1;
    }
    Ok(())
}

/// Consumes the components of a recipe, in the recipe's order, on a draft of the ledger.
fn consume_recipe(
    draft: &mut crate::inventory::Pallet,
    bom: &mut Bom,
    staged: &mut Vec<Item>,
    who: AccountId,
    components: &Vec<RecipeComponent>,
) -> (res: Result<(), DispatchError>)
    requires
        old(draft).wf(),
    ensures
        final(draft).wf(),
        consumed_as(
            res,
            final(draft)@,
            item_views(final(staged)@),
            final(bom)@,
            consume_components(
                (Progress {
                    ledger: old(draft)@,
                    staged: item_views(old(staged)@),
                    bom: old(bom)@,
                }),
                who,
                component_views(components@),
                0,
            ),
        ),
{
    let ghost parts = component_views(components@);
    let ghost goal = consume_components(
        Progress { ledger: draft@, staged: item_views(staged@), bom: bom@ },
        who,
        parts,
        0,
    );
    let mut k: usize = 0;
    while k < components.len()
        invariant
            k <= components.len(),
            parts == component_views(components@),
            draft.wf(),
            goal == consume_components(
                (Progress {
                    ledger: old(draft)@,
                    staged: item_views(old(staged)@),
                    bom: old(bom)@,
                }),
                who,
                parts,
                0,
            ),
            goal == consume_components(
                (Progress { ledger: draft@, staged: item_views(staged@), bom: bom@ }),
                who,
                parts,
                k as int,
            ),
        decreases components.len() - k,
    {
        let component = &components[k];
        assert(parts[k as int] == component@);
        if !covers(staged, &component.sku, component.qty) {
            return Err(DispatchError::Assembly(Error::InsufficientInventory));
        }
        match consume_items(draft, bom, staged, who, &component.sku, component.qty) {
            Ok(()) => {},
            Err(e) => {
                return Err(e);
            },
        }
        k += 1;
    }
    Ok(())
}

impl Pallet {
    /// Assembles the product of a work order from the items indexed under `staging_location`:
    /// the components of the recipe are consumed from those items by increasing serial number,
    /// each item drawn from has its quantity adjusted and goes back to the warehouse, and the
    /// product is recorded with its bill of materials. The product is then inserted into the
    /// ledger; the assembly stands even where the ledger refuses that insertion. The order is
    /// looked up by its number. Where anything else is refused, ledger and engine stay as they
    /// were.
    pub fn do_assemble_product(
        &mut self,
        inventory: &mut crate::inventory::Pallet,
        who: AccountId,
        work_order: WorkOrder,
        serial_number: SerialNumber,
        staging_location: Location,
    ) -> (res: Result<(), DispatchError>)
        requires
            old(self).wf(),
            old(inventory).wf(),
        ensures
            final(self).wf(),
            final(inventory).wf(),
            settles_both(
                res,
                old(inventory)@,
                final(inventory)@,
                old(self)@,
                final(self)@,
                assemble_step(
                    old(inventory)@,
                    old(self)@,
                    who,
                    work_order.work_order_number,
                    serial_number,
                    staging_location,
                ),
            ),
    {
        let order = match self.work_orders.get(&work_order.work_order_number) {
            Some(stored) => stored.clone(),
            None => {
                return Err(DispatchError::Assembly(Error::WorkOrderNotFound));
            },
        };
        let mut staged = match inventory.inventory_locale(staging_location) {
            Some(items) => items,
            None => {
                return Err(DispatchError::Assembly(Error::StagingAreaNotFound));
            },
        };
        let mut product = Item::default();
        product.sku = order.recipe.sku.clone();
        product.serial_number = serial_number;
        product.qty = order.recipe.output_quantity;
        assert(product@ == product_of(order@, serial_number));
        let mut draft = inventory.clone();
        let mut bom = Bom::new();
        assert(bom@ =~= Seq::<ItemView>::empty());
        let components = &order.recipe.required_components;
        match consume_recipe(&mut draft, &mut bom, &mut staged, who, components) {
            Ok(()) => {},
            Err(e) => {
                return Err(e);
            },
        }
        match draft.do_inventory_insertion(who, product.clone()) {
            Ok(()) => {},
            Err(_) => {},
        }
        let key = ItemKey { owner: who, sku: order.recipe.sku.clone(), serial_number };
        let record = AssembledProduct { item: product, bom };
        proof {
            lemma_put(self@.assembled, key@, record@);
        }
        *inventory = draft;
        self.assembled_products.insert(key, record);
        Ok(())
    }

    /// Assembles the product of a work order at the request of `who`, and announces it.
    pub fn assemble_product(
        &mut self,
        inventory: &mut crate::inventory::Pallet,
        who: AccountId,
        work_order: WorkOrder,
        serial_number: SerialNumber,
        staging_location: Location,
    ) -> (res: Result<(), DispatchError>)
        requires
            old(self).wf(),
            old(inventory).wf(),
        ensures
            final(self).wf(),
            final(inventory).wf(),
            settles_both(
                res,
                old(inventory)@,
                final(inventory)@,
                old(self)@,
                final(self)@,
                assemble_request(
                    old(inventory)@,
                    old(self)@,
                    who,
                    work_order@,
                    serial_number,
                    staging_location,
                ),
            ),
    {
        match self.do_assemble_product(
            inventory,
            who,
            work_order.clone(),
            serial_number,
            staging_location,
        ) {
            Ok(()) => {
                self.deposit_event(Event::ProductAssembled { assembler: who, work_order });
                Ok(())
            },
            Err(e) => Err(e),
        }
    }
}

impl Pallet {
    /// The work order registered under a number.
    pub fn work_orders(&self, number: WorkOrderNumber) -> (found: Option<WorkOrder>)
        requires
            self.wf(),
        ensures
            shows(found, lookup(self@.work_orders, number)),
    {
        match self.work_orders.get(&number) {
            Some(order) => Some(order.clone()),
            None => None,
        }
    }

    /// The product that `who` assembled with the given SKU and serial number, with its bill of
    /// materials.
    pub fn assembled_products(
        &self,
        who: AccountId,
        sku: &Sku,
        serial_number: SerialNumber,
    ) -> (found: Option<AssembledProduct>)
        requires
            self.wf(),
        ensures
            shows(found, lookup(self@.assembled, (who, sku@, serial_number))),
    {
        let key = ItemKey { owner: who, sku: sku.clone(), serial_number };
        match self.assembled_products.get(&key) {
            Some(record) => Some(record.duplicate()),
            None => None,
        }
    }

    /// The announcements made so far, oldest first.
    pub fn events(&self) -> (events: Vec<Event>)
        ensures
            event_views(events@) == self@.events,
    {
        let mut events: Vec<Event> = Vec::new();
        let mut k: usize = 0;
        while k < self.events.len()
            invariant
                k <= self.events.len(),
                events.len() == k,
                forall|j: int| 0 <= j < k ==> (#[trigger] events@[j])@ == self.events@[j]@,
            decreases self.events.len() - k,
        {
            events.push(self.events[k].clone());
            k += 1;
        }
        assert(event_views(events@) =~= self@.events);
        events
    }
}

} // verus!
