//! The ledger as a mathematical state, and each operation as a function from state to state.

use vstd::prelude::*;
use crate::table::{delete, distinct_keys, has_key, lookup, put};
use crate::types::{
    AccountId, AdjustDetailsView, AdjustItemView, Employee, ItemView, Location, Qty, RecipeView,
    ScrapDetailsView, ScrapItemView, SerialNumber, LOCATION_COUNT, MAX_ITEMS_PER_LOCATION,
    MAX_SKU_LEN,
};

verus! {

/// Why a ledger operation was refused.
#[derive(Clone, Copy, Debug, PartialEq, Eq, Structural)]
pub enum Error {
    /// No value was stored where one was expected.
    NoneValue,
    /// A stored number would have passed its largest value.
    StorageOverflow,
    /// The SKU is longer than the ledger stores.
    InvalidSkuLength,
    /// No such item, or no aggregate for its SKU.
    InventoryNotFound,
    /// The aggregate holds less than the operation takes.
    InsufficientInventory,
    /// The adjustment is of the wrong kind for the operation.
    InvalidAdjustDetails,
    /// The location already indexes as many items as it can.
    InventoryFull,
    /// The location has no index.
    LocationNotFound,
    /// A material with this SKU is already in the catalog.
    MaterialAlreadyExists,
    /// No material with this SKU is in the catalog.
    MaterialNotFound,
}

/// The identity of an item: owner, SKU and serial number.
pub type ItemKeyView = (AccountId, Seq<u8>, SerialNumber);

/// What an announcement of the ledger holds.
pub enum EventView {
    AddNewItem { sender: AccountId, item: ItemView },
    ItemScrapped {
        sender: AccountId,
        sku: Seq<u8>,
        serial_number: SerialNumber,
        scrap_details: ScrapDetailsView,
    },
    MoveItem {
        sender: AccountId,
        item: ItemView,
        moved_by: Employee,
        adjust_details: AdjustDetailsView,
    },
    AdjustItem {
        sender: AccountId,
        item: ItemView,
        issuer: Employee,
        adjust_details: AdjustDetailsView,
    },
    AddRecipe { sender: AccountId, recipe: RecipeView },
    AddMaterial { sender: AccountId, material: Seq<u8> },
    DeleteMaterial { sender: AccountId, sku: Seq<u8> },
    UpdateMaterial { sender: AccountId, original_material: Seq<u8>, new_material: Seq<u8> },
}

/// One location's index: the items kept there, by serial number.
pub type BucketView = Map<SerialNumber, ItemView>;

/// Everything the ledger holds.
pub struct LedgerState {
    /// The active items, in the order in which their keys were first stored.
    pub items: Seq<(ItemKeyView, ItemView)>,
    /// For each SKU with an aggregate, the total quantity on hand.
    pub totals: Seq<(Seq<u8>, Qty)>,
    /// For each location, by its slot, the index of the items kept there, if it has one.
    pub locale: Seq<Option<BucketView>>,
    /// The latest adjustment of each item that was ever adjusted or moved.
    pub adjustments: Seq<(ItemKeyView, AdjustItemView)>,
    /// The items that were scrapped.
    pub scrapped: Seq<(ItemKeyView, ScrapItemView)>,
    /// The recipes, by the SKU they produce.
    pub recipes: Seq<(Seq<u8>, RecipeView)>,
    /// The materials, by SKU.
    pub materials: Seq<(Seq<u8>, Seq<u8>)>,
    /// The announcements made so far, oldest first.
    pub events: Seq<EventView>,
}

/// Whether a bucket is within its bound.
pub open spec fn bucket_valid(bucket: BucketView) -> bool {
    bucket.dom().finite() && bucket.len() <= MAX_ITEMS_PER_LOCATION
}

/// Whether a bucket can take an item under `serial`.
pub open spec fn bucket_fits(bucket: BucketView, serial: SerialNumber) -> bool {
    bucket.len() < MAX_ITEMS_PER_LOCATION || bucket.contains_key(serial)
}

/// Whether a location's index, present or not, can take an item under `serial`.
pub open spec fn slot_fits(slot: Option<BucketView>, serial: SerialNumber) -> bool {
    match slot {
        Some(bucket) => bucket_fits(bucket, serial),
        None => true,
    }
}

/// A location's index after an item is stored under `serial`; a missing index is created.
pub open spec fn slot_insert(
    slot: Option<BucketView>,
    serial: SerialNumber,
    item: ItemView,
) -> Option<BucketView> {
    match slot {
        Some(bucket) => Some(bucket.insert(serial, item)),
        None => Some(Map::<SerialNumber, ItemView>::empty().insert(serial, item)),
    }
}

/// The key under which an item of `who` is stored.
pub open spec fn key_of(who: AccountId, item: ItemView) -> ItemKeyView {
    (who, item.sku, item.serial_number)
}

/// The sum of two quantities, held at the largest quantity.
pub open spec fn saturating_sum(a: Qty, b: Qty) -> Qty {
    if a + b > u32::MAX {
        u32::MAX
    } else {
        (a + b) as u32
    }
}

impl LedgerState {
    /// The state of a new ledger: nothing stored, no location indexed.
    pub open spec fn empty() -> LedgerState {
        LedgerState {
            items: Seq::empty(),
            totals: Seq::empty(),
            locale: Seq::new(LOCATION_COUNT as nat, |i: int| None::<BucketView>),
            adjustments: Seq::empty(),
            scrapped: Seq::empty(),
            recipes: Seq::empty(),
            materials: Seq::empty(),
            events: Seq::empty(),
        }
    }

    /// The structural invariant: keys are unique in each table, every location has a slot, and
    /// every index is within its bound.
    pub open spec fn valid(self) -> bool {
        &&& distinct_keys(self.items)
        &&& distinct_keys(self.totals)
        &&& distinct_keys(self.adjustments)
        &&& distinct_keys(self.scrapped)
        &&& distinct_keys(self.recipes)
        &&& distinct_keys(self.materials)
        &&& self.locale.len() == LOCATION_COUNT
        &&& forall|i: int|
            0 <= i < LOCATION_COUNT ==> (#[trigger] self.locale[i] matches Some(bucket) ==> bucket_valid(bucket))
    }

    /// The index of a location, if it has one.
    pub open spec fn bucket(self, location: Location) -> Option<BucketView> {
        self.locale[location.slot()]
    }

    /// The aggregate of a SKU, which is zero where none is stored.
    pub open spec fn total(self, sku: Seq<u8>) -> nat {
        match lookup(self.totals, sku) {
            Some(qty) => qty as nat,
            None => 0,
        }
    }

    /// The state with one more announcement.
    pub open spec fn announce(self, event: EventView) -> LedgerState {
        LedgerState { events: self.events.push(event), ..self }
    }
}

/// What an operation's result and the states around it say when they follow `step`: on success
/// the new state is the one that `step` gives, and on refusal the error is the one that `step`
/// gives and the state is unchanged.
pub open spec fn follows(
    res: Result<(), Error>,
    before: LedgerState,
    after: LedgerState,
    step: Result<LedgerState, Error>,
) -> bool {
    match res {
        Ok(_) => step == Ok::<LedgerState, Error>(after),
        Err(e) => step == Err::<LedgerState, Error>(e) && after == before,
    }
}

/// Inserting `item` for `who`. A SKU of more than 16 bytes is refused, and so is an item that
/// its location's index cannot take. Otherwise the item is stored under its key, its quantity
/// is added to the aggregate of its SKU, it is indexed under its location, and the addition is
/// announced.
pub open spec fn insert_step(s: LedgerState, who: AccountId, item: ItemView) -> Result<
    LedgerState,
    Error,
> {
    if item.sku.len() > MAX_SKU_LEN {
        Err(Error::InvalidSkuLength)
    } else if !slot_fits(s.bucket(item.location), item.serial_number) {
        Err(Error::InventoryFull)
    } else {
        let total = match lookup(s.totals, item.sku) {
            Some(qty) => saturating_sum(qty, item.qty),
            None => item.qty,
        };
        Ok(
            LedgerState {
                items: put(s.items, key_of(who, item), item),
                totals: put(s.totals, item.sku, total),
                locale: s.locale.update(
                    item.location.slot(),
                    slot_insert(s.bucket(item.location), item.serial_number, item),
                ),
                events: s.events.push(EventView::AddNewItem { sender: who, item }),
                ..s
            },
        )
    }
}

/// Scrapping the item of `who` with the given SKU and serial number. It is refused where no
/// such item is active, where the SKU has no aggregate or a smaller one than the item's
/// quantity, and where the item's location has no index. Otherwise the item leaves the active
/// items and its location's index, is recorded as scrapped with `details`, and its quantity
/// leaves the aggregate, which disappears when nothing is left of it.
pub open spec fn scrap_step(
    s: LedgerState,
    who: AccountId,
    sku: Seq<u8>,
    serial: SerialNumber,
    details: ScrapDetailsView,
) -> Result<LedgerState, Error> {
    let key = (who, sku, serial);
    match (lookup(s.items, key), lookup(s.totals, sku)) {
        (None, _) => Err(Error::InventoryNotFound),
        (Some(_), None) => Err(Error::InventoryNotFound),
        (Some(item), Some(qty)) => {
            if qty < item.qty {
                Err(Error::InsufficientInventory)
            } else {
                match s.bucket(item.location) {
                    None => Err(Error::LocationNotFound),
                    Some(bucket) => Ok(
                        LedgerState {
                            items: delete(s.items, key),
                            scrapped: put(s.scrapped, key, ScrapItemView { item, details }),
                            totals: if qty == item.qty {
                                delete(s.totals, sku)
                            } else {
                                put(s.totals, sku, (qty - item.qty) as u32)
                            },
                            locale: s.locale.update(
                                item.location.slot(),
                                Some(bucket.remove(serial)),
                            ),
                            ..s
                        },
                    ),
                }
            }
        },
    }
}

/// Moving `item` of `who` as a location adjustment says. Another kind of adjustment is refused,
/// and so are a move from a location without an index and a move to a location whose index
/// cannot take the item. Otherwise the item leaves the index of the original location and
/// enters that of the new one, it is stored under its key with its new location and mover, the
/// adjustment is recorded, and the move is announced.
pub open spec fn move_step(
    s: LedgerState,
    who: AccountId,
    item: ItemView,
    moved_by: Employee,
    details: AdjustDetailsView,
) -> Result<LedgerState, Error> {
    match details {
        AdjustDetailsView::Location { original_location, new_location, reason } => {
            match s.bucket(original_location) {
                None => Err(Error::LocationNotFound),
                Some(origin) => {
                    let vacated = s.locale.update(
                        original_location.slot(),
                        Some(origin.remove(item.serial_number)),
                    );
                    let target = vacated[new_location.slot()];
                    if !slot_fits(target, item.serial_number) {
                        Err(Error::InventoryFull)
                    } else {
                        let moved = ItemView { moved_by, location: new_location, ..item };
                        Ok(
                            LedgerState {
                                locale: vacated.update(
                                    new_location.slot(),
                                    slot_insert(target, item.serial_number, moved),
                                ),
                                items: put(s.items, key_of(who, moved), moved),
                                adjustments: put(
                                    s.adjustments,
                                    key_of(who, moved),
                                    AdjustItemView {
                                        issuer: moved_by,
                                        item: moved,
                                        adjust_details: details,
                                    },
                                ),
                                events: s.events.push(
                                    EventView::MoveItem {
                                        sender: who,
                                        item: moved,
                                        moved_by,
                                        adjust_details: details,
                                    },
                                ),
                                ..s
                            },
                        )
                    }
                },
            }
        },
        _ => Err(Error::InvalidAdjustDetails),
    }
}

/// The aggregate after a quantity changes from `original_qty` to `new_qty`: an increase is added
/// and held at the largest quantity; a decrease is taken off, where the aggregate covers it.
pub open spec fn adjusted_total(total: Qty, original_qty: Qty, new_qty: Qty) -> Option<Qty> {
    if new_qty > original_qty {
        Some(saturating_sum(total, (new_qty - original_qty) as u32))
    } else if total >= original_qty - new_qty {
        Some((total - (original_qty - new_qty)) as u32)
    } else {
        None
    }
}

/// Adjusting the quantity of `item` of `who` as a quantity adjustment says. Another kind of
/// adjustment is refused, and so are an item whose SKU has no aggregate, a decrease that the
/// aggregate does not cover, and an item whose location has no index or one that cannot take
/// it. Otherwise the item is stored under its key with the new quantity, the aggregate changes
/// by the difference, the index of the item's location holds the new record, the adjustment is
/// recorded, and it is announced in the name of whoever last moved the item.
pub open spec fn adjust_step(
    s: LedgerState,
    who: AccountId,
    issuer: Employee,
    item: ItemView,
    details: AdjustDetailsView,
) -> Result<LedgerState, Error> {
    match details {
        AdjustDetailsView::Quantity { original_qty, new_qty, reason } => {
            let adjusted = ItemView { qty: new_qty, ..item };
            match lookup(s.totals, item.sku) {
                None => Err(Error::InventoryNotFound),
                Some(total) => match adjusted_total(total, original_qty, new_qty) {
                    None => Err(Error::InsufficientInventory),
                    Some(new_total) => match s.bucket(item.location) {
                        None => Err(Error::LocationNotFound),
                        Some(bucket) => {
                            if !bucket_fits(bucket, item.serial_number) {
                                Err(Error::InventoryFull)
                            } else {
                                Ok(
                                    LedgerState {
                                        items: put(s.items, key_of(who, item), adjusted),
                                        totals: put(s.totals, item.sku, new_total),
                                        locale: s.locale.update(
                                            item.location.slot(),
                                            Some(bucket.insert(item.serial_number, adjusted)),
                                        ),
                                        adjustments: put(
                                            s.adjustments,
                                            key_of(who, item),
                                            AdjustItemView {
                                                issuer,
                                                item: adjusted,
                                                adjust_details: details,
                                            },
                                        ),
                                        events: s.events.push(
                                            EventView::AdjustItem {
                                                sender: who,
                                                item: adjusted,
                                                issuer: item.moved_by,
                                                adjust_details: details,
                                            },
                                        ),
                                        ..s
                                    },
                                )
                            }
                        },
                    },
                },
            }
        },
        _ => Err(Error::InvalidAdjustDetails),
    }
}

/// Storing a recipe under the SKU it produces, in place of an earlier one. A SKU of more than
/// 16 bytes is refused.
pub open spec fn insert_recipe_step(s: LedgerState, recipe: RecipeView) -> Result<
    LedgerState,
    Error,
> {
    if recipe.sku.len() > MAX_SKU_LEN {
        Err(Error::InvalidSkuLength)
    } else {
        Ok(LedgerState { recipes: put(s.recipes, recipe.sku, recipe), ..s })
    }
}

/// Adding a material to the catalog. A SKU that the catalog already has is refused.
pub open spec fn insert_material_step(s: LedgerState, material: Seq<u8>) -> Result<
    LedgerState,
    Error,
> {
    if has_key(s.materials, material) {
        Err(Error::MaterialAlreadyExists)
    } else {
        Ok(LedgerState { materials: put(s.materials, material, material), ..s })
    }
}

/// Taking a material out of the catalog. A SKU that the catalog lacks is refused.
pub open spec fn delete_material_step(s: LedgerState, sku: Seq<u8>) -> Result<LedgerState, Error> {
    if !has_key(s.materials, sku) {
        Err(Error::MaterialNotFound)
    } else {
        Ok(LedgerState { materials: delete(s.materials, sku), ..s })
    }
}

/// Replacing a material of the catalog. A SKU that the catalog lacks is refused.
pub open spec fn update_material_step(s: LedgerState, material: Seq<u8>) -> Result<
    LedgerState,
    Error,
> {
    if !has_key(s.materials, material) {
        Err(Error::MaterialNotFound)
    } else {
        Ok(LedgerState { materials: put(s.materials, material, material), ..s })
    }
}

/// A step followed, where it succeeds, by an announcement.
pub open spec fn then_announce(step: Result<LedgerState, Error>, event: EventView) -> Result<
    LedgerState,
    Error,
> {
    match step {
        Ok(s) => Ok(s.announce(event)),
        Err(e) => Err(e),
    }
}

/// Scrapping an item at a caller's request: the scrap itself, then its announcement.
pub open spec fn scrap_request(
    s: LedgerState,
    who: AccountId,
    sku: Seq<u8>,
    serial: SerialNumber,
    details: ScrapDetailsView,
) -> Result<LedgerState, Error> {
    then_announce(
        scrap_step(s, who, sku, serial, details),
        EventView::ItemScrapped { sender: who, sku, serial_number: serial, scrap_details: details },
    )
}

/// Moving, at a caller's request, the item stored under a key: the move of the stored record,
/// then a second announcement that shows the record as it was before the move. A key under
/// which nothing is stored is refused.
pub open spec fn move_request(
    s: LedgerState,
    who: AccountId,
    sku: Seq<u8>,
    serial: SerialNumber,
    moved_by: Employee,
    details: AdjustDetailsView,
) -> Result<LedgerState, Error> {
    match lookup(s.items, (who, sku, serial)) {
        None => Err(Error::InventoryNotFound),
        Some(item) => then_announce(
            move_step(s, who, item, moved_by, details),
            EventView::MoveItem { sender: who, item, moved_by, adjust_details: details },
        ),
    }
}

/// Adjusting, at a caller's request, the item stored under a key. A key under which nothing is
/// stored is refused.
pub open spec fn adjust_request(
    s: LedgerState,
    who: AccountId,
    issuer: Employee,
    sku: Seq<u8>,
    serial: SerialNumber,
    details: AdjustDetailsView,
) -> Result<LedgerState, Error> {
    match lookup(s.items, (who, sku, serial)) {
        None => Err(Error::InventoryNotFound),
        Some(item) => adjust_step(s, who, issuer, item, details),
    }
}

/// Replacing a material at a caller's request: the replacement, then an announcement that shows
/// the material as it was and as it is.
pub open spec fn update_material_request(
    s: LedgerState,
    who: AccountId,
    material: Seq<u8>,
) -> Result<LedgerState, Error> {
    match lookup(s.materials, material) {
        None => Err(Error::MaterialNotFound),
        Some(original) => then_announce(
            update_material_step(s, material),
            EventView::UpdateMaterial {
                sender: who,
                original_material: original,
                new_material: material,
            },
        ),
    }
}

} // verus!
