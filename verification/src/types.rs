//! Plain data carried by the ledger: classification enums, stock records and their views.

use vstd::prelude::*;

verus! {

pub type CycleCount = u32;

pub type ShelfLife = u32;

pub type LotNumber = u32;

pub type SerialNumber = u32;

pub type ExpirationDate = u32;

pub type ProductionDate = u32;

pub type WeightLbs = u32;

pub type PurchaseDate = u32;

/// Quantity of stock, in whole units.
pub type Qty = u32;

/// Stock-keeping unit identifier: a byte string of at most `MAX_SKU_LEN` bytes.
pub type Sku = Vec<u8>;

/// Free-text justification of a change: at most `MAX_REASON_LEN` bytes.
pub type Reason = Vec<u8>;

/// Identity of the party on whose behalf stock is held. It is taken as already authenticated.
pub type AccountId = u64;

/// Longest SKU, in bytes, that the ledger stores.
pub const MAX_SKU_LEN: usize = 16;

/// Longest reason, in bytes, that an audit record holds.
pub const MAX_REASON_LEN: usize = 128;

/// Largest number of components in a recipe, and of lines in a bill of materials.
pub const MAX_COMPONENTS: usize = 100;

/// Largest number of items indexed under one location.
pub const MAX_ITEMS_PER_LOCATION: usize = 1000;

/// Number of distinct locations.
pub const LOCATION_COUNT: usize = 7;

/// ABC classification of an item by value.
#[derive(Clone, Copy, Debug, PartialEq, Eq, Structural)]
pub enum AbcCode {
    A,
    B,
    C,
}

impl Default for AbcCode {
    fn default() -> (code: Self)
        ensures
            code == AbcCode::A,
    {
        AbcCode::A
    }
}

/// Handling or production equipment.
#[derive(Clone, Copy, Debug, PartialEq, Eq, Structural)]
pub enum Equipment {
    Forklift,
    Crane,
    Conveyor,
    Truck,
    PalletJack,
    HandTruck,
    Cart,
    Crimper,
    Cutter,
    Palletizer,
    Mixer,
}

impl Default for Equipment {
    fn default() -> (equipment: Self)
        ensures
            equipment == Equipment::Forklift,
    {
        Equipment::Forklift
    }
}

/// Accounting class of a stock item.
#[derive(Clone, Copy, Debug, PartialEq, Eq, Structural)]
pub enum InventoryType {
    RawMaterial,
    Component,
    WIP,
    FinishedGood,
    MRO,
    PackagingMaterials,
    SafetyAnticipationStock,
    Decoupling,
    Cycle,
    Service,
    Transit,
    Theoretical,
    Excess,
}

impl Default for InventoryType {
    fn default() -> (kind: Self)
        ensures
            kind == InventoryType::RawMaterial,
    {
        InventoryType::RawMaterial
    }
}

/// Staff member who handles stock.
#[derive(Clone, Copy, Debug, PartialEq, Eq, Structural)]
pub enum Employee {
    Bob,
    Charlie,
    Dave,
    Auto,
}

impl Default for Employee {
    fn default() -> (employee: Self)
        ensures
            employee == Employee::Bob,
    {
        Employee::Bob
    }
}

/// Place where an item is kept.
#[derive(Clone, Copy, Debug, PartialEq, Eq, Structural)]
pub enum Location {
    Warehouse,
    Production,
    Shipping,
    Receiving,
    Scrap,
    Staging,
    Packaging,
}

impl Default for Location {
    fn default() -> (location: Self)
        ensures
            location == Location::Warehouse,
    {
        Location::Warehouse
    }
}

impl Location {
    /// Position of the location's bucket in the location index.
    pub open spec fn slot(self) -> int {
        match self {
            Location::Warehouse => 0,
            Location::Production => 1,
            Location::Shipping => 2,
            Location::Receiving => 3,
            Location::Scrap => 4,
            Location::Staging => 5,
            Location::Packaging => 6,
        }
    }

    /// Position of the location's bucket in the location index.
    pub fn slot_index(self) -> (index: usize)
        ensures
            index == self.slot(),
            index < LOCATION_COUNT,
    {
        match self {
            Location::Warehouse => 0,
            Location::Production => 1,
            Location::Shipping => 2,
            Location::Receiving => 3,
            Location::Scrap => 4,
            Location::Staging => 5,
            Location::Packaging => 6,
        }
    }
}

/// Distinct locations have distinct slots, and every slot is within the index.
pub proof fn lemma_slot_injective(a: Location, b: Location)
    ensures
        0 <= a.slot() < LOCATION_COUNT,
        a.slot() == b.slot() ==> a == b,
{
}

/// Commercial class of a product.
#[derive(Clone, Copy, Debug, PartialEq, Eq, Structural)]
pub enum ProductType {
    CapitalGoods,
    RawMaterials,
    ComponentParts,
    MajorEquipment,
    AccessoryEquipment,
    OperatingSupplies,
}

impl Default for ProductType {
    fn default() -> (kind: Self)
        ensures
            kind == ProductType::CapitalGoods,
    {
        ProductType::CapitalGoods
    }
}

/// A production lot.
#[derive(Clone, Copy, Debug, PartialEq, Eq, Structural)]
pub struct Lot {
    pub lot_number: LotNumber,
}

/// Compares two byte strings.
pub fn bytes_eq(a: &Vec<u8>, b: &Vec<u8>) -> (same: bool)
    ensures
        same == (a@ == b@),
{
    if a.len() != b.len() {
        return false;
    }
    let mut i: usize = 0;
    while i < a.len()
        invariant
            a.len() == b.len(),
            i <= a.len(),
            a@.take(i as int) == b@.take(i as int),
        decreases a.len() - i,
    {
        if a[i] != b[i] {
            return false;
        }
        assert(a@.take(i + 1) == a@.take(i as int).push(a@[i as int]));
        assert(b@.take(i + 1) == b@.take(i as int).push(b@[i as int]));
        i += 1;
    }
    assert(a@.take(a.len() as int) == a@);
    assert(b@.take(b.len() as int) == b@);
    true
}

/// A raw material known to the catalog. Its view is the SKU's bytes.
#[derive(Debug, PartialEq, Eq)]
pub struct Material {
    pub sku: Sku,
}

impl View for Material {
    type V = Seq<u8>;

    open spec fn view(&self) -> Seq<u8> {
        self.sku@
    }
}

impl Clone for Material {
    fn clone(&self) -> (copy: Self)
        ensures
            copy@ == self@,
    {
        Material { sku: self.sku.clone() }
    }
}

impl Default for Material {
    fn default() -> (material: Self)
        ensures
            material@ == Seq::<u8>::empty(),
    {
        Material { sku: Vec::new() }
    }
}

/// What an `Item` holds, with byte strings as sequences.
pub struct ItemView {
    pub moved_by: Employee,
    pub sku: Seq<u8>,
    pub lot_number: LotNumber,
    pub serial_number: SerialNumber,
    pub material: Seq<u8>,
    pub abc_code: AbcCode,
    pub inventory_type: InventoryType,
    pub product_type: ProductType,
    pub qty: Qty,
    pub weight: WeightLbs,
    pub shelf_life: ShelfLife,
    pub cycle_count: CycleCount,
    pub created_at: u32,
    pub location: Location,
}

/// A serialized stock record.
#[derive(Debug, PartialEq, Eq)]
pub struct Item {
    pub moved_by: Employee,
    pub sku: Sku,
    pub lot_number: LotNumber,
    pub serial_number: SerialNumber,
    pub material: Material,
    pub abc_code: AbcCode,
    pub inventory_type: InventoryType,
    pub product_type: ProductType,
    pub qty: Qty,
    pub weight: WeightLbs,
    pub shelf_life: ShelfLife,
    pub cycle_count: CycleCount,
    pub created_at: u32,
    pub location: Location,
}

impl View for Item {
    type V = ItemView;

    open spec fn view(&self) -> ItemView {
        ItemView {
            moved_by: self.moved_by,
            sku: self.sku@,
            lot_number: self.lot_number,
            serial_number: self.serial_number,
            material: self.material@,
            abc_code: self.abc_code,
            inventory_type: self.inventory_type,
            product_type: self.product_type,
            qty: self.qty,
            weight: self.weight,
            shelf_life: self.shelf_life,
            cycle_count: self.cycle_count,
            created_at: self.created_at,
            location: self.location,
        }
    }
}

impl Clone for Item {
    fn clone(&self) -> (copy: Self)
        ensures
            copy@ == self@,
    {
        Item {
            moved_by: self.moved_by,
            sku: self.sku.clone(),
            lot_number: self.lot_number,
            serial_number: self.serial_number,
            material: self.material.clone(),
            abc_code: self.abc_code,
            inventory_type: self.inventory_type,
            product_type: self.product_type,
            qty: self.qty,
            weight: self.weight,
            shelf_life: self.shelf_life,
            cycle_count: self.cycle_count,
            created_at: self.created_at,
            location: self.location,
        }
    }
}

/// The record that every field's default makes up.
pub open spec fn default_item() -> ItemView {
    ItemView {
        moved_by: Employee::Bob,
        sku: Seq::empty(),
        lot_number: 0,
        serial_number: 0,
        material: Seq::empty(),
        abc_code: AbcCode::A,
        inventory_type: InventoryType::RawMaterial,
        product_type: ProductType::CapitalGoods,
        qty: 0,
        weight: 0,
        shelf_life: 0,
        cycle_count: 0,
        created_at: 0,
        location: Location::Warehouse,
    }
}

impl Default for Item {
    fn default() -> (item: Self)
        ensures
            item@ == default_item(),
    {
        Item {
            moved_by: Employee::Bob,
            sku: Vec::new(),
            lot_number: 0,
            serial_number: 0,
            material: Material { sku: Vec::new() },
            abc_code: AbcCode::A,
            inventory_type: InventoryType::RawMaterial,
            product_type: ProductType::CapitalGoods,
            qty: 0,
            weight: 0,
            shelf_life: 0,
            cycle_count: 0,
            created_at: 0,
            location: Location::Warehouse,
        }
    }
}

/// What a `ScrapDetails` holds, with the reason as a sequence.
pub struct ScrapDetailsView {
    pub issuer: Employee,
    pub reason: Seq<u8>,
    pub equipment: Equipment,
}

/// Who scrapped an item, why, and with what equipment.
#[derive(Debug, PartialEq, Eq)]
pub struct ScrapDetails {
    pub issuer: Employee,
    pub reason: Reason,
    pub equipment: Equipment,
}

impl View for ScrapDetails {
    type V = ScrapDetailsView;

    open spec fn view(&self) -> ScrapDetailsView {
        ScrapDetailsView { issuer: self.issuer, reason: self.reason@, equipment: self.equipment }
    }
}

impl Clone for ScrapDetails {
    fn clone(&self) -> (copy: Self)
        ensures
            copy@ == self@,
    {
        ScrapDetails { issuer: self.issuer, reason: self.reason.clone(), equipment: self.equipment }
    }
}

/// What a `ScrapItem` holds.
pub struct ScrapItemView {
    pub item: ItemView,
    pub details: ScrapDetailsView,
}

/// An item taken out of active stock, with the circumstances.
#[derive(Debug, PartialEq, Eq)]
pub struct ScrapItem {
    pub item: Item,
    pub details: ScrapDetails,
}

impl View for ScrapItem {
    type V = ScrapItemView;

    open spec fn view(&self) -> ScrapItemView {
        ScrapItemView { item: self.item@, details: self.details@ }
    }
}

impl Clone for ScrapItem {
    fn clone(&self) -> (copy: Self)
        ensures
            copy@ == self@,
    {
        ScrapItem { item: self.item.clone(), details: self.details.clone() }
    }
}

/// What an `AdjustDetails` holds, with the reason as a sequence.
pub enum AdjustDetailsView {
    Quantity { original_qty: Qty, new_qty: Qty, reason: Seq<u8> },
    Location { original_location: Location, new_location: Location, reason: Seq<u8> },
}

/// The change that an adjustment makes: a new quantity, or a new location.
#[derive(Debug, PartialEq, Eq)]
pub enum AdjustDetails {
    Quantity { original_qty: Qty, new_qty: Qty, reason: Reason },
    Location { original_location: Location, new_location: Location, reason: Reason },
}

impl View for AdjustDetails {
    type V = AdjustDetailsView;

    open spec fn view(&self) -> AdjustDetailsView {
        match *self {
            AdjustDetails::Quantity {
                original_qty,
                new_qty,
                reason,
            } => AdjustDetailsView::Quantity { original_qty, new_qty, reason: reason@ },
            AdjustDetails::Location {
                original_location,
                new_location,
                reason,
            } => AdjustDetailsView::Location { original_location, new_location, reason: reason@ },
        }
    }
}

impl Clone for AdjustDetails {
    fn clone(&self) -> (copy: Self)
        ensures
            copy@ == self@,
    {
        match self {
            AdjustDetails::Quantity { original_qty, new_qty, reason } => AdjustDetails::Quantity {
                original_qty: *original_qty,
                new_qty: *new_qty,
                reason: reason.clone(),
            },
            AdjustDetails::Location {
                original_location,
                new_location,
                reason,
            } => AdjustDetails::Location {
                original_location: *original_location,
                new_location: *new_location,
                reason: reason.clone(),
            },
        }
    }
}

/// What an `AdjustItem` holds.
pub struct AdjustItemView {
    pub issuer: Employee,
    pub item: ItemView,
    pub adjust_details: AdjustDetailsView,
}

/// Audit record of the latest adjustment to an item.
#[derive(Debug, PartialEq, Eq)]
pub struct AdjustItem {
    pub issuer: Employee,
    pub item: Item,
    pub adjust_details: AdjustDetails,
}

impl View for AdjustItem {
    type V = AdjustItemView;

    open spec fn view(&self) -> AdjustItemView {
        AdjustItemView {
            issuer: self.issuer,
            item: self.item@,
            adjust_details: self.adjust_details@,
        }
    }
}

impl Clone for AdjustItem {
    fn clone(&self) -> (copy: Self)
        ensures
            copy@ == self@,
    {
        AdjustItem {
            issuer: self.issuer,
            item: self.item.clone(),
            adjust_details: self.adjust_details.clone(),
        }
    }
}

/// What a `RecipeComponent` holds, with the SKU as a sequence.
pub struct RecipeComponentView {
    pub sku: Seq<u8>,
    pub qty: u32,
}

/// One input of a recipe: a SKU and how much of it one build takes.
#[derive(Debug, PartialEq, Eq)]
pub struct RecipeComponent {
    pub sku: Sku,
    pub qty: u32,
}

impl View for RecipeComponent {
    type V = RecipeComponentView;

    open spec fn view(&self) -> RecipeComponentView {
        RecipeComponentView { sku: self.sku@, qty: self.qty }
    }
}

impl Clone for RecipeComponent {
    fn clone(&self) -> (copy: Self)
        ensures
            copy@ == self@,
    {
        RecipeComponent { sku: self.sku.clone(), qty: self.qty }
    }
}

/// The components of a recipe, each by its view.
pub open spec fn component_views(components: Seq<RecipeComponent>) -> Seq<RecipeComponentView> {
    components.map_values(|c: RecipeComponent| c@)
}

/// Copies a list of components.
pub fn clone_components(components: &Vec<RecipeComponent>) -> (copy: Vec<RecipeComponent>)
    ensures
        component_views(copy@) == component_views(components@),
{
    let mut copy: Vec<RecipeComponent> = Vec::new();
    let mut i: usize = 0;
    while i < components.len()
        invariant
            i <= components.len(),
            copy.len() == i,
            forall|j: int| 0 <= j < i ==> copy@[j]@ == components@[j]@,
        decreases components.len() - i,
    {
        copy.push(components[i].clone());
        i += 1;
    }
    assert(component_views(copy@) =~= component_views(components@));
    copy
}

/// What a `Recipe` holds.
pub struct RecipeView {
    pub inserted_by: Employee,
    pub sku: Seq<u8>,
    pub recipe_id: u32,
    pub required_components: Seq<RecipeComponentView>,
    pub required_equipment: Equipment,
    pub output_quantity: u32,
}

/// The inputs, equipment and yield of building one product.
#[derive(Debug, PartialEq, Eq)]
pub struct Recipe {
    pub inserted_by: Employee,
    pub sku: Sku,
    pub recipe_id: u32,
    pub required_components: Vec<RecipeComponent>,
    pub required_equipment: Equipment,
    pub output_quantity: u32,
}

impl View for Recipe {
    type V = RecipeView;

    open spec fn view(&self) -> RecipeView {
        RecipeView {
            inserted_by: self.inserted_by,
            sku: self.sku@,
            recipe_id: self.recipe_id,
            required_components: component_views(self.required_components@),
            required_equipment: self.required_equipment,
            output_quantity: self.output_quantity,
        }
    }
}

impl Clone for Recipe {
    fn clone(&self) -> (copy: Self)
        ensures
            copy@ == self@,
    {
        Recipe {
            inserted_by: self.inserted_by,
            sku: self.sku.clone(),
            recipe_id: self.recipe_id,
            required_components: clone_components(&self.required_components),
            required_equipment: self.required_equipment,
            output_quantity: self.output_quantity,
        }
    }
}

/// The recipe that every field's default makes up.
pub open spec fn default_recipe() -> RecipeView {
    RecipeView {
        inserted_by: Employee::Bob,
        sku: Seq::empty(),
        recipe_id: 0,
        required_components: Seq::empty(),
        required_equipment: Equipment::Forklift,
        output_quantity: 0,
    }
}

impl Default for Recipe {
    fn default() -> (recipe: Self)
        ensures
            recipe@ == default_recipe(),
    {
        let recipe = Recipe {
            inserted_by: Employee::Bob,
            sku: Vec::new(),
            recipe_id: 0,
            required_components: Vec::new(),
            required_equipment: Equipment::Forklift,
            output_quantity: 0,
        };
        assert(recipe@.required_components =~= Seq::empty());
        recipe
    }
}

} // verus!
