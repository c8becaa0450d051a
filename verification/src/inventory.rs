//! The inventory ledger: its stored state and the operations that insert, scrap, move and
//! adjust stock and maintain the catalog.

use vstd::prelude::*;
use crate::bounded::{
    ascending_items, bucket_clone, bucket_contains, bucket_entries, bucket_is_full, bucket_items,
    bucket_new, bucket_remove, bucket_try_insert, encoded_len, item_views, sku_max_encoded_len,
    Bucket,
};
use crate::model::{
    adjust_request, adjust_step, bucket_fits, bucket_valid, delete_material_step, follows,
    insert_material_step, insert_recipe_step, insert_step, move_request, move_step,
    scrap_request, scrap_step, slot_fits, slot_insert, then_announce, update_material_request,
    update_material_step, BucketView, EventView, ItemKeyView, LedgerState,
};
use crate::staging::owned;
use crate::table::{lemma_delete, lemma_put, lookup, shows, Keyed, Stored, Table};
use crate::types::{
    bytes_eq, AccountId, AdjustDetails, AdjustItem, Employee, Item, ItemView, Location, Material,
    Qty, Recipe, ScrapDetails, ScrapItem, ScrapItemView, SerialNumber, Sku,
};

pub use crate::model::Error;

verus! {

impl Stored for Vec<u8> {
    fn duplicate(&self) -> (copy: Self) {
        self.clone()
    }
}

impl Stored for u32 {
    fn duplicate(&self) -> (copy: Self) {
        *self
    }
}

impl Stored for Item {
    fn duplicate(&self) -> (copy: Self) {
        self.clone()
    }
}

impl Stored for AdjustItem {
    fn duplicate(&self) -> (copy: Self) {
        self.clone()
    }
}

impl Stored for ScrapItem {
    fn duplicate(&self) -> (copy: Self) {
        self.clone()
    }
}

impl Stored for Recipe {
    fn duplicate(&self) -> (copy: Self) {
        self.clone()
    }
}

impl Stored for Material {
    fn duplicate(&self) -> (copy: Self) {
        self.clone()
    }
}

impl Keyed for Vec<u8> {
    fn matches(&self, other: &Self) -> (same: bool) {
        bytes_eq(self, other)
    }
}

impl Keyed for u32 {
    fn matches(&self, other: &Self) -> (same: bool) {
        *self == *other
    }
}

/// The identity of an item: owner, SKU and serial number.
#[derive(Debug, PartialEq, Eq)]
pub struct ItemKey {
    pub owner: AccountId,
    pub sku: Sku,
    pub serial_number: SerialNumber,
}

impl View for ItemKey {
    type V = ItemKeyView;

    open spec fn view(&self) -> ItemKeyView {
        (self.owner, self.sku@, self.serial_number)
    }
}

impl Clone for ItemKey {
    fn clone(&self) -> (copy: Self)
        ensures
            copy@ == self@,
    {
        ItemKey { owner: self.owner, sku: self.sku.clone(), serial_number: self.serial_number }
    }
}

impl Stored for ItemKey {
    fn duplicate(&self) -> (copy: Self) {
        self.clone()
    }
}

impl Keyed for ItemKey {
    fn matches(&self, other: &Self) -> (same: bool) {
        self.owner == other.owner && self.serial_number == other.serial_number && bytes_eq(
            &self.sku,
            &other.sku,
        )
    }
}

/// An announcement of a change to the ledger, for whoever publishes it.
#[derive(Debug, PartialEq, Eq)]
pub enum Event {
    AddNewItem { sender: AccountId, item: Item },
    ItemScrapped {
        sender: AccountId,
        sku: Sku,
        serial_number: SerialNumber,
        scrap_details: ScrapDetails,
    },
    MoveItem { sender: AccountId, item: Item, moved_by: Employee, adjust_details: AdjustDetails },
    AdjustItem { sender: AccountId, item: Item, issuer: Employee, adjust_details: AdjustDetails },
    AddRecipe { sender: AccountId, recipe: Recipe },
    AddMaterial { sender: AccountId, material: Material },
    DeleteMaterial { sender: AccountId, sku: Sku },
    UpdateMaterial { sender: AccountId, original_material: Material, new_material: Material },
}

impl View for Event {
    type V = EventView;

    open spec fn view(&self) -> EventView {
        match *self {
            Event::AddNewItem { sender, item } => EventView::AddNewItem { sender, item: item@ },
            Event::ItemScrapped {
                sender,
                sku,
                serial_number,
                scrap_details,
            } => EventView::ItemScrapped {
                sender,
                sku: sku@,
                serial_number,
                scrap_details: scrap_details@,
            },
            Event::MoveItem { sender, item, moved_by, adjust_details } => EventView::MoveItem {
                sender,
                item: item@,
                moved_by,
                adjust_details: adjust_details@,
            },
            Event::AdjustItem { sender, item, issuer, adjust_details } => EventView::AdjustItem {
                sender,
                item: item@,
                issuer,
                adjust_details: adjust_details@,
            },
            Event::AddRecipe { sender, recipe } => EventView::AddRecipe { sender, recipe: recipe@ },
            Event::AddMaterial { sender, material } => EventView::AddMaterial {
                sender,
                material: material@,
            },
            Event::DeleteMaterial { sender, sku } => EventView::DeleteMaterial {
                sender,
                sku: sku@,
            },
            Event::UpdateMaterial {
                sender,
                original_material,
                new_material,
            } => EventView::UpdateMaterial {
                sender,
                original_material: original_material@,
                new_material: new_material@,
            },
        }
    }
}

impl Clone for Event {
    fn clone(&self) -> (copy: Self)
        ensures
            copy@ == self@,
    {
        match self {
            Event::AddNewItem { sender, item } => Event::AddNewItem {
                sender: *sender,
                item: item.clone(),
            },
            Event::ItemScrapped {
                sender,
                sku,
                serial_number,
                scrap_details,
            } => Event::ItemScrapped {
                sender: *sender,
                sku: sku.clone(),
                serial_number: *serial_number,
                scrap_details: scrap_details.clone(),
            },
            Event::MoveItem { sender, item, moved_by, adjust_details } => Event::MoveItem {
                sender: *sender,
                item: item.clone(),
                moved_by: *moved_by,
                adjust_details: adjust_details.clone(),
            },
            Event::AdjustItem { sender, item, issuer, adjust_details } => Event::AdjustItem {
                sender: *sender,
                item: item.clone(),
                issuer: *issuer,
                adjust_details: adjust_details.clone(),
            },
            Event::AddRecipe { sender, recipe } => Event::AddRecipe {
                sender: *sender,
                recipe: recipe.clone(),
            },
            Event::AddMaterial { sender, material } => Event::AddMaterial {
                sender: *sender,
                material: material.clone(),
            },
            Event::DeleteMaterial { sender, sku } => Event::DeleteMaterial {
                sender: *sender,
                sku: sku.clone(),
            },
            Event::UpdateMaterial {
                sender,
                original_material,
                new_material,
            } => Event::UpdateMaterial {
                sender: *sender,
                original_material: original_material.clone(),
                new_material: new_material.clone(),
            },
        }
    }
}

/// The announcements of a list, each by its view.
pub open spec fn event_views(events: Seq<Event>) -> Seq<EventView> {
    events.map_values(|e: Event| e@)
}

/// What a slot of the location index holds.
pub open spec fn slot_view(slot: Option<Bucket>) -> Option<BucketView> {
    match slot {
        Some(bucket) => Some(bucket_entries(bucket)),
        None => None,
    }
}

/// The inventory ledger.
pub struct Pallet {
    inventory: Table<ItemKey, Item>,
    global_inventory: Table<Sku, Qty>,
    inventory_locale: Vec<Option<Bucket>>,
    adjust_inventory: Table<ItemKey, AdjustItem>,
    scrap_inventory: Table<ItemKey, ScrapItem>,
    recipes: Table<Sku, Recipe>,
    materials: Table<Sku, Material>,
    events: Vec<Event>,
}

impl View for Pallet {
    type V = LedgerState;

    closed spec fn view(&self) -> LedgerState {
        LedgerState {
            items: self.inventory.rows(),
            totals: self.global_inventory.rows(),
            locale: self.inventory_locale@.map_values(|slot: Option<Bucket>| slot_view(slot)),
            adjustments: self.adjust_inventory.rows(),
            scrapped: self.scrap_inventory.rows(),
            recipes: self.recipes.rows(),
            materials: self.materials.rows(),
            events: event_views(self.events@),
        }
    }
}

impl Pallet {
    /// The ledger's invariant: its state is valid.
    pub open spec fn wf(&self) -> bool {
        self@.valid()
    }

    /// A ledger that holds nothing.
    pub fn new() -> (ledger: Self)
        ensures
            ledger.wf(),
            ledger@ == LedgerState::empty(),
    {
        let mut locale: Vec<Option<Bucket>> = Vec::new();
        let mut i: usize = 0;
        while i < 7
            invariant
                i <= 7,
                locale.len() == i,
                forall|j: int| 0 <= j < i ==> locale@[j] is None,
            decreases 7 - i,
        {
            locale.push(None);
            i += 1;
        }
        let ledger = Pallet {
            inventory: Table::new(),
            global_inventory: Table::new(),
            inventory_locale: locale,
            adjust_inventory: Table::new(),
            scrap_inventory: Table::new(),
            recipes: Table::new(),
            materials: Table::new(),
            events: Vec::new(),
        };
        assert(ledger@.locale =~= LedgerState::empty().locale);
        assert(ledger@.items =~= LedgerState::empty().items);
        assert(ledger@.totals =~= LedgerState::empty().totals);
        assert(ledger@.adjustments =~= LedgerState::empty().adjustments);
        assert(ledger@.scrapped =~= LedgerState::empty().scrapped);
        assert(ledger@.recipes =~= LedgerState::empty().recipes);
        assert(ledger@.materials =~= LedgerState::empty().materials);
        assert(ledger@.events =~= LedgerState::empty().events);
        ledger
    }
}

/// An index that takes one more entry stays within its bound.
pub proof fn lemma_bucket_insert_valid(bucket: BucketView, serial: SerialNumber, item: ItemView)
    requires
        bucket_valid(bucket),
        bucket_fits(bucket, serial),
    ensures
        bucket_valid(bucket.insert(serial, item)),
{
    assert(bucket.insert(serial, item).dom() =~= bucket.dom().insert(serial));
}

/// An index that loses an entry stays within its bound.
pub proof fn lemma_bucket_remove_valid(bucket: BucketView, serial: SerialNumber)
    requires
        bucket_valid(bucket),
    ensures
        bucket_valid(bucket.remove(serial)),
        bucket.remove(serial).len() <= bucket.len(),
        bucket.contains_key(serial) ==> bucket.remove(serial).len() == bucket.len() - 1,
{
    assert(bucket.remove(serial).dom() =~= bucket.dom().remove(serial));
}

/// An index of one entry is within its bound.
pub proof fn lemma_bucket_single_valid(serial: SerialNumber, item: ItemView)
    ensures
        bucket_valid(Map::<SerialNumber, ItemView>::empty().insert(serial, item)),
        (Map::<SerialNumber, ItemView>::empty().len() == 0),
{
    let empty = Map::<SerialNumber, ItemView>::empty();
    assert(empty.dom() =~= Set::<SerialNumber>::empty());
    assert(empty.insert(serial, item).dom() =~= Set::<SerialNumber>::empty().insert(serial));
}

impl Pallet {
    /// Whether the index of the location at `slot`, if there is one, can take an item under
    /// `serial`.
    fn slot_can_take(&self, slot: usize, serial: SerialNumber) -> (fits: bool)
        requires
            self.wf(),
            slot < 7,
        ensures
            fits == slot_fits(self@.locale[slot as int], serial),
    {
        match &self.inventory_locale[slot] {
            Some(bucket) => !bucket_is_full(bucket) || bucket_contains(bucket, serial),
            None => true,
        }
    }

    /// Indexes `item` under `serial` at `slot`, creating the index where there is none.
    fn slot_store(&mut self, slot: usize, serial: SerialNumber, item: Item)
        requires
            old(self).wf(),
            slot < 7,
            slot_fits(old(self)@.locale[slot as int], serial),
        ensures
            final(self).wf(),
            final(self)@ == (LedgerState {
                locale: old(self)@.locale.update(
                    slot as int,
                    slot_insert(old(self)@.locale[slot as int], serial, item@),
                ),
                ..old(self)@
            }),
    {
        proof {
            lemma_bucket_single_valid(serial, item@);
            if let Some(bucket) = self@.locale[slot as int] {
                lemma_bucket_insert_valid(bucket, serial, item@);
            }
        }
        match &mut self.inventory_locale[slot] {
            Some(bucket) => {
                let stored = bucket_try_insert(bucket, serial, item);
                assert(stored);
            },
            None => {
                let mut bucket = bucket_new();
                let stored = bucket_try_insert(&mut bucket, serial, item);
                assert(stored);
                self.inventory_locale.set(slot, Some(bucket));
            },
        }
        assert(self@.locale =~= old(self)@.locale.update(
            slot as int,
            slot_insert(old(self)@.locale[slot as int], serial, item@),
        ));
    }

    /// Whether a SKU is longer than the ledger stores, as its encoding shows.
    fn sku_too_long(sku: &Sku) -> (too_long: bool)
        ensures
            too_long == (sku@.len() > 16),
    {
        if sku.len() > 0xffff_ffff {
            return true;
        }
        encoded_len(sku) > sku_max_encoded_len()
    }

    /// Inserts a new item into the inventory of `who`.
    pub fn do_inventory_insertion(&mut self, who: AccountId, item: Item) -> (res: Result<(), Error>)
        requires
            old(self).wf(),
        ensures
            final(self).wf(),
            follows(res, old(self)@, final(self)@, insert_step(old(self)@, who, item@)),
    {
        if Self::sku_too_long(&item.sku) {
            return Err(Error::InvalidSkuLength);
        }
        let slot = item.location.slot_index();
        if !self.slot_can_take(slot, item.serial_number) {
            return Err(Error::InventoryFull);
        }
        let key = ItemKey { owner: who, sku: item.sku.clone(), serial_number: item.serial_number };
        let total = match self.global_inventory.get(&item.sku) {
            Some(qty) => qty.saturating_add(item.qty),
            None => item.qty,
        };
        proof {
            lemma_put(self@.items, key@, item@);
            lemma_put(self@.totals, item.sku@, total);
        }
        self.inventory.insert(key, item.clone());
        self.global_inventory.insert(item.sku.clone(), total);
        self.slot_store(slot, item.serial_number, item.clone());
        self.events.push(Event::AddNewItem { sender: who, item });
        assert(self@.events =~= old(self)@.events.push(
            EventView::AddNewItem { sender: who, item: item@ },
        ));
        Ok(())
    }
}

impl Pallet {
    /// Whether the location at `slot` has an index.
    fn slot_exists(&self, slot: usize) -> (present: bool)
        requires
            self.wf(),
            slot < 7,
        ensures
            present == (self@.locale[slot as int] is Some),
    {
        self.inventory_locale[slot].is_some()
    }

    /// Takes the entry under `serial`, if there is one, out of the index at `slot`.
    fn slot_vacate(&mut self, slot: usize, serial: SerialNumber)
        requires
            old(self).wf(),
            slot < 7,
            old(self)@.locale[slot as int] is Some,
        ensures
            final(self).wf(),
            final(self)@ == (LedgerState {
                locale: old(self)@.locale.update(
                    slot as int,
                    Some(old(self)@.locale[slot as int].unwrap().remove(serial)),
                ),
                ..old(self)@
            }),
    {
        proof {
            lemma_bucket_remove_valid(self@.locale[slot as int].unwrap(), serial);
        }
        match &mut self.inventory_locale[slot] {
            Some(bucket) => {
                bucket_remove(bucket, serial);
            },
            None => {},
        }
        assert(self@.locale =~= old(self)@.locale.update(
            slot as int,
            Some(old(self)@.locale[slot as int].unwrap().remove(serial)),
        ));
    }

    /// Scraps an item: it leaves the active inventory and is recorded as scrapped.
    pub fn do_inventory_scrap(
        &mut self,
        who: AccountId,
        sku: Sku,
        serial_number: SerialNumber,
        scrap_details: ScrapDetails,
    ) -> (res: Result<(), Error>)
        requires
            old(self).wf(),
        ensures
            final(self).wf(),
            follows(
                res,
                old(self)@,
                final(self)@,
                scrap_step(old(self)@, who, sku@, serial_number, scrap_details@),
            ),
    {
        let key = ItemKey { owner: who, sku: sku.clone(), serial_number };
        let item = match self.inventory.get(&key) {
            Some(stored) => stored.clone(),
            None => {
                return Err(Error::InventoryNotFound);
            },
        };
        let total = match self.global_inventory.get(&sku) {
            Some(qty) => *qty,
            None => {
                return Err(Error::InventoryNotFound);
            },
        };
        if total < item.qty {
            return Err(Error::InsufficientInventory);
        }
        let slot = item.location.slot_index();
        if !self.slot_exists(slot) {
            return Err(Error::LocationNotFound);
        }
        proof {
            lemma_delete(self@.items, key@);
            lemma_delete(self@.totals, sku@);
            lemma_put(self@.totals, sku@, (total - item.qty) as u32);
            lemma_put(self@.scrapped, key@, ScrapItemView { item: item@, details: scrap_details@ });
        }
        self.inventory.remove(&key);
        self.scrap_inventory.insert(key, ScrapItem { item: item.clone(), details: scrap_details });
        if total == item.qty {
            self.global_inventory.remove(&sku);
        } else {
            self.global_inventory.insert(sku, total - item.qty);
        }
        self.slot_vacate(slot, serial_number);
        Ok(())
    }

    /// Moves an item from one location to another.
    pub fn do_inventory_move(
        &mut self,
        who: AccountId,
        item: Item,
        moved_by: Employee,
        adjust_details: AdjustDetails,
    ) -> (res: Result<(), Error>)
        requires
            old(self).wf(),
        ensures
            final(self).wf(),
            follows(
                res,
                old(self)@,
                final(self)@,
                move_step(old(self)@, who, item@, moved_by, adjust_details@),
            ),
    {
        let (original_location, new_location) = match &adjust_details {
            AdjustDetails::Location { original_location, new_location, reason } => (
                *original_location,
                *new_location,
            ),
            _ => {
                return Err(Error::InvalidAdjustDetails);
            },
        };
        let from = original_location.slot_index();
        let to = new_location.slot_index();
        if !self.slot_exists(from) {
            return Err(Error::LocationNotFound);
        }
        let serial = item.serial_number;
        proof {
            lemma_bucket_remove_valid(self@.locale[from as int].unwrap(), serial);
        }
        if !self.slot_can_take(to, serial) {
            return Err(Error::InventoryFull);
        }
        let mut moved = item;
        moved.moved_by = moved_by;
        moved.location = new_location;
        let key = ItemKey { owner: who, sku: moved.sku.clone(), serial_number: serial };
        let audit = AdjustItem {
            issuer: moved_by,
            item: moved.clone(),
            adjust_details: adjust_details.clone(),
        };
        proof {
            lemma_put(self@.items, key@, moved@);
            lemma_put(self@.adjustments, key@, audit@);
        }
        self.slot_vacate(from, serial);
        self.slot_store(to, serial, moved.clone());
        self.inventory.insert(key.clone(), moved.clone());
        self.adjust_inventory.insert(key, audit);
        self.events.push(Event::MoveItem { sender: who, item: moved, moved_by, adjust_details });
        assert(self@.events =~= old(self)@.events.push(
            EventView::MoveItem {
                sender: who,
                item: moved@,
                moved_by,
                adjust_details: adjust_details@,
            },
        ));
        Ok(())
    }

    /// Adjusts the quantity of an item.
    pub fn do_inventory_adjust(
        &mut self,
        who: AccountId,
        issuer: Employee,
        item: Item,
        adjust_details: AdjustDetails,
    ) -> (res: Result<(), Error>)
        requires
            old(self).wf(),
        ensures
            final(self).wf(),
            follows(
                res,
                old(self)@,
                final(self)@,
                adjust_step(old(self)@, who, issuer, item@, adjust_details@),
            ),
    {
        let (original_qty, new_qty) = match &adjust_details {
            AdjustDetails::Quantity { original_qty, new_qty, reason } => (*original_qty, *new_qty),
            _ => {
                return Err(Error::InvalidAdjustDetails);
            },
        };
        let total = match self.global_inventory.get(&item.sku) {
            Some(qty) => *qty,
            None => {
                return Err(Error::InventoryNotFound);
            },
        };
        let new_total = if new_qty > original_qty {
            total.saturating_add(new_qty - original_qty)
        } else if total >= original_qty - new_qty {
            total - (original_qty - new_qty)
        } else {
            return Err(Error::InsufficientInventory);
        };
        let slot = item.location.slot_index();
        if !self.slot_exists(slot) {
            return Err(Error::LocationNotFound);
        }
        let serial = item.serial_number;
        if !self.slot_can_take(slot, serial) {
            return Err(Error::InventoryFull);
        }
        let last_mover = item.moved_by;
        let mut adjusted = item;
        adjusted.qty = new_qty;
        let key = ItemKey { owner: who, sku: adjusted.sku.clone(), serial_number: serial };
        let audit = AdjustItem {
            issuer,
            item: adjusted.clone(),
            adjust_details: adjust_details.clone(),
        };
        proof {
            lemma_put(self@.items, key@, adjusted@);
            lemma_put(self@.totals, adjusted.sku@, new_total);
            lemma_put(self@.adjustments, key@, audit@);
        }
        self.inventory.insert(key.clone(), adjusted.clone());
        self.global_inventory.insert(adjusted.sku.clone(), new_total);
        self.slot_store(slot, serial, adjusted.clone());
        self.adjust_inventory.insert(key, audit);
        self.events.push(
            Event::AdjustItem { sender: who, item: adjusted, issuer: last_mover, adjust_details },
        );
        assert(self@.events =~= old(self)@.events.push(
            EventView::AdjustItem {
                sender: who,
                item: adjusted@,
                issuer: last_mover,
                adjust_details: adjust_details@,
            },
        ));
        Ok(())
    }
}

impl Pallet {
    /// Adds an announcement to those made so far.
    fn deposit_event(&mut self, event: Event)
        requires
            old(self).wf(),
        ensures
            final(self).wf(),
            final(self)@ == old(self)@.announce(event@),
    {
        self.events.push(event);
        assert(self@.events =~= old(self)@.events.push(event@));
    }

    /// Stores a recipe under the SKU it produces.
    pub fn do_insert_recipe(&mut self, recipe: Recipe) -> (res: Result<(), Error>)
        requires
            old(self).wf(),
        ensures
            final(self).wf(),
            follows(res, old(self)@, final(self)@, insert_recipe_step(old(self)@, recipe@)),
    {
        if Self::sku_too_long(&recipe.sku) {
            return Err(Error::InvalidSkuLength);
        }
        proof {
            lemma_put(self@.recipes, recipe.sku@, recipe@);
        }
        self.recipes.insert(recipe.sku.clone(), recipe);
        Ok(())
    }

    /// Adds a material to the catalog.
    pub fn do_insert_material(&mut self, material: Material) -> (res: Result<(), Error>)
        requires
            old(self).wf(),
        ensures
            final(self).wf(),
            follows(res, old(self)@, final(self)@, insert_material_step(old(self)@, material@)),
    {
        if self.materials.contains_key(&material.sku) {
            return Err(Error::MaterialAlreadyExists);
        }
        proof {
            lemma_put(self@.materials, material@, material@);
        }
        self.materials.insert(material.sku.clone(), material);
        Ok(())
    }

    /// Takes a material out of the catalog.
    pub fn do_delete_material(&mut self, sku: Sku) -> (res: Result<(), Error>)
        requires
            old(self).wf(),
        ensures
            final(self).wf(),
            follows(res, old(self)@, final(self)@, delete_material_step(old(self)@, sku@)),
    {
        if !self.materials.contains_key(&sku) {
            return Err(Error::MaterialNotFound);
        }
        proof {
            lemma_delete(self@.materials, sku@);
        }
        self.materials.remove(&sku);
        Ok(())
    }

    /// Replaces a material of the catalog.
    pub fn do_update_material(&mut self, material: Material) -> (res: Result<(), Error>)
        requires
            old(self).wf(),
        ensures
            final(self).wf(),
            follows(res, old(self)@, final(self)@, update_material_step(old(self)@, material@)),
    {
        if !self.materials.contains_key(&material.sku) {
            return Err(Error::MaterialNotFound);
        }
        proof {
            lemma_put(self@.materials, material@, material@);
        }
        self.materials.insert(material.sku.clone(), material);
        Ok(())
    }

    /// Inserts an item at the request of `who`.
    pub fn inventory_insertion(&mut self, who: AccountId, item: Item) -> (res: Result<(), Error>)
        requires
            old(self).wf(),
        ensures
            final(self).wf(),
            follows(res, old(self)@, final(self)@, insert_step(old(self)@, who, item@)),
    {
        self.do_inventory_insertion(who, item)
    }

    /// Scraps an item at the request of `who`, and announces it.
    pub fn inventory_scrap(
        &mut self,
        who: AccountId,
        sku: Sku,
        serial_number: SerialNumber,
        scrap_details: ScrapDetails,
    ) -> (res: Result<(), Error>)
        requires
            old(self).wf(),
        ensures
            final(self).wf(),
            follows(
                res,
                old(self)@,
                final(self)@,
                scrap_request(old(self)@, who, sku@, serial_number, scrap_details@),
            ),
    {
        match self.do_inventory_scrap(who, sku.clone(), serial_number, scrap_details.clone()) {
            Ok(()) => {
                self.deposit_event(
                    Event::ItemScrapped { sender: who, sku, serial_number, scrap_details },
                );
                Ok(())
            },
            Err(e) => Err(e),
        }
    }

    /// Moves the item stored under a key at the request of `who`, and announces it.
    pub fn inventory_move(
        &mut self,
        who: AccountId,
        sku: Sku,
        serial_number: SerialNumber,
        moved_by: Employee,
        adjust_details: AdjustDetails,
    ) -> (res: Result<(), Error>)
        requires
            old(self).wf(),
        ensures
            final(self).wf(),
            follows(
                res,
                old(self)@,
                final(self)@,
                move_request(old(self)@, who, sku@, serial_number, moved_by, adjust_details@),
            ),
    {
        let key = ItemKey { owner: who, sku, serial_number };
        let item = match self.inventory.get(&key) {
            Some(stored) => stored.clone(),
            None => {
                return Err(Error::InventoryNotFound);
            },
        };
        match self.do_inventory_move(who, item.clone(), moved_by, adjust_details.clone()) {
            Ok(()) => {
                self.deposit_event(Event::MoveItem { sender: who, item, moved_by, adjust_details });
                Ok(())
            },
            Err(e) => Err(e),
        }
    }

    /// Adjusts the quantity of the item stored under a key at the request of `who`.
    pub fn inventory_adjust(
        &mut self,
        who: AccountId,
        issuer: Employee,
        sku: Sku,
        serial_number: SerialNumber,
        adjust_details: AdjustDetails,
    ) -> (res: Result<(), Error>)
        requires
            old(self).wf(),
        ensures
            final(self).wf(),
            follows(
                res,
                old(self)@,
                final(self)@,
                adjust_request(old(self)@, who, issuer, sku@, serial_number, adjust_details@),
            ),
    {
        let key = ItemKey { owner: who, sku, serial_number };
        let item = match self.inventory.get(&key) {
            Some(stored) => stored.clone(),
            None => {
                return Err(Error::InventoryNotFound);
            },
        };
        self.do_inventory_adjust(who, issuer, item, adjust_details)
    }

    /// Stores a recipe at the request of `who`, and announces it.
    pub fn insert_recipe(&mut self, who: AccountId, recipe: Recipe) -> (res: Result<(), Error>)
        requires
            old(self).wf(),
        ensures
            final(self).wf(),
            follows(
                res,
                old(self)@,
                final(self)@,
                then_announce(
                    insert_recipe_step(old(self)@, recipe@),
                    EventView::AddRecipe { sender: who, recipe: recipe@ },
                ),
            ),
    {
        match self.do_insert_recipe(recipe.clone()) {
            Ok(()) => {
                self.deposit_event(Event::AddRecipe { sender: who, recipe });
                Ok(())
            },
            Err(e) => Err(e),
        }
    }

    /// Adds a material at the request of `who`, and announces it.
    pub fn insert_material(&mut self, who: AccountId, material: Material) -> (res: Result<
        (),
        Error,
    >)
        requires
            old(self).wf(),
        ensures
            final(self).wf(),
            follows(
                res,
                old(self)@,
                final(self)@,
                then_announce(
                    insert_material_step(old(self)@, material@),
                    EventView::AddMaterial { sender: who, material: material@ },
                ),
            ),
    {
        match self.do_insert_material(material.clone()) {
            Ok(()) => {
                self.deposit_event(Event::AddMaterial { sender: who, material });
                Ok(())
            },
            Err(e) => Err(e),
        }
    }

    /// Takes a material out of the catalog at the request of `who`, and announces it.
    pub fn delete_material(&mut self, who: AccountId, sku: Sku) -> (res: Result<(), Error>)
        requires
            old(self).wf(),
        ensures
            final(self).wf(),
            follows(
                res,
                old(self)@,
                final(self)@,
                then_announce(
                    delete_material_step(old(self)@, sku@),
                    EventView::DeleteMaterial { sender: who, sku: sku@ },
                ),
            ),
    {
        match self.do_delete_material(sku.clone()) {
            Ok(()) => {
                self.deposit_event(Event::DeleteMaterial { sender: who, sku });
                Ok(())
            },
            Err(e) => Err(e),
        }
    }

    /// Replaces a material at the request of `who`, and announces it.
    pub fn update_material(&mut self, who: AccountId, material: Material) -> (res: Result<
        (),
        Error,
    >)
        requires
            old(self).wf(),
        ensures
            final(self).wf(),
            follows(
                res,
                old(self)@,
                final(self)@,
                update_material_request(old(self)@, who, material@),
            ),
    {
        let original_material = match self.materials.get(&material.sku) {
            Some(stored) => stored.clone(),
            None => {
                return Err(Error::MaterialNotFound);
            },
        };
        match self.do_update_material(material.clone()) {
            Ok(()) => {
                self.deposit_event(
                    Event::UpdateMaterial {
                        sender: who,
                        original_material,
                        new_material: material,
                    },
                );
                Ok(())
            },
            Err(e) => Err(e),
        }
    }
}

impl Clone for Pallet {
    fn clone(&self) -> (copy: Self)
        ensures
            copy@ == self@,
    {
        let mut locale: Vec<Option<Bucket>> = Vec::new();
        let mut i: usize = 0;
        while i < self.inventory_locale.len()
            invariant
                i <= self.inventory_locale.len(),
                locale.len() == i,
                forall|j: int|
                    0 <= j < i ==> slot_view(#[trigger] locale@[j]) == slot_view(
                        self.inventory_locale@[j],
                    ),
            decreases self.inventory_locale.len() - i,
        {
            let slot = match &self.inventory_locale[i] {
                Some(bucket) => Some(bucket_clone(bucket)),
                None => None,
            };
            locale.push(slot);
            i += 1;
        }
        let mut events: Vec<Event> = Vec::new();
        let mut k: usize = 0;
        while k < self.events.len()
            invariant
                k <= self.events.len(),
                events.len() == k,
                forall|j: int| 0 <= j < k ==> (#[trigger] events@[j])@ == self.events@[j]@,
            decreases self.events.len() - k,
        {
            events.push(self.events[k].clone());
            k += 1;
        }
        let copy = Pallet {
            inventory: self.inventory.clone(),
            global_inventory: self.global_inventory.clone(),
            inventory_locale: locale,
            adjust_inventory: self.adjust_inventory.clone(),
            scrap_inventory: self.scrap_inventory.clone(),
            recipes: self.recipes.clone(),
            materials: self.materials.clone(),
            events,
        };
        assert(copy@.locale =~= self@.locale);
        assert(copy@.events =~= self@.events);
        copy
    }
}

impl Pallet {
    /// The active item of `who` with the given SKU and serial number.
    pub fn inventory(
        &self,
        who: AccountId,
        sku: &Sku,
        serial_number: SerialNumber,
    ) -> (found: Option<Item>)
        requires
            self.wf(),
        ensures
            shows(found, lookup(self@.items, (who, sku@, serial_number))),
    {
        let key = ItemKey { owner: who, sku: sku.clone(), serial_number };
        match self.inventory.get(&key) {
            Some(item) => Some(item.clone()),
            None => None,
        }
    }

    /// The aggregate quantity stored for a SKU.
    pub fn global_inventory(&self, sku: &Sku) -> (found: Option<Qty>)
        requires
            self.wf(),
        ensures
            found == lookup(self@.totals, sku@),
    {
        match self.global_inventory.get(sku) {
            Some(qty) => Some(*qty),
            None => None,
        }
    }

    /// The items indexed under a location, by increasing serial number; nothing where the
    /// location has no index.
    pub fn inventory_locale(&self, location: Location) -> (found: Option<Vec<Item>>)
        requires
            self.wf(),
        ensures
            found is Some == self@.bucket(location) is Some,
            found matches Some(items) ==> item_views(items@) == ascending_items(
                self@.bucket(location).unwrap(),
            ),
    {
        match &self.inventory_locale[location.slot_index()] {
            Some(bucket) => Some(bucket_items(bucket)),
            None => None,
        }
    }

    /// The record of the scrapped item of `who` with the given SKU and serial number.
    pub fn scrap_inventory(
        &self,
        who: AccountId,
        sku: &Sku,
        serial_number: SerialNumber,
    ) -> (found: Option<ScrapItem>)
        requires
            self.wf(),
        ensures
            shows(found, lookup(self@.scrapped, (who, sku@, serial_number))),
    {
        let key = ItemKey { owner: who, sku: sku.clone(), serial_number };
        match self.scrap_inventory.get(&key) {
            Some(record) => Some(record.clone()),
            None => None,
        }
    }

    /// The latest adjustment of the item of `who` with the given SKU and serial number.
    pub fn adjust_inventory(
        &self,
        who: AccountId,
        sku: &Sku,
        serial_number: SerialNumber,
    ) -> (found: Option<AdjustItem>)
        requires
            self.wf(),
        ensures
            shows(found, lookup(self@.adjustments, (who, sku@, serial_number))),
    {
        let key = ItemKey { owner: who, sku: sku.clone(), serial_number };
        match self.adjust_inventory.get(&key) {
            Some(record) => Some(record.clone()),
            None => None,
        }
    }

    /// The recipe that produces a SKU.
    pub fn recipes(&self, sku: &Sku) -> (found: Option<Recipe>)
        requires
            self.wf(),
        ensures
            shows(found, lookup(self@.recipes, sku@)),
    {
        match self.recipes.get(sku) {
            Some(recipe) => Some(recipe.clone()),
            None => None,
        }
    }

    /// The material with a SKU.
    pub fn materials(&self, sku: &Sku) -> (found: Option<Material>)
        requires
            self.wf(),
        ensures
            shows(found, lookup(self@.materials, sku@)),
    {
        match self.materials.get(sku) {
            Some(material) => Some(material.clone()),
            None => None,
        }
    }

    /// The announcements made so far, oldest first.
    pub fn events(&self) -> (events: Vec<Event>)
        ensures
            event_views(events@) == self@.events,
    {
        let mut events: Vec<Event> = Vec::new();
        let mut k: usize = 0;
        while k < self.events.len()
            invariant
                k <= self.events.len(),
                events.len() == k,
                forall|j: int| 0 <= j < k ==> (#[trigger] events@[j])@ == self.events@[j]@,
            decreases self.events.len() - k,
        {
            events.push(self.events[k].clone());
            k += 1;
        }
        assert(event_views(events@) =~= self@.events);
        events
    }

    /// The items stored for `who` under a SKU, in the order in which their keys were first
    /// stored.
    pub fn items_of(&self, who: AccountId, sku: &Sku) -> (items: Vec<Item>)
        requires
            self.wf(),
        ensures
            item_views(items@) == owned(self@.items, who, sku@),
    {
        let mut items: Vec<Item> = Vec::new();
        let mut i: usize = 0;
        let ghost rows = self@.items;
        assert(item_views(items@) =~= owned(rows.take(0), who, sku@));
        while i < self.inventory.len()
            invariant
                i <= rows.len(),
                rows == self@.items,
                rows == self.inventory.rows(),
                item_views(items@) == owned(rows.take(i as int), who, sku@),
            decreases rows.len() - i,
        {
            let key = self.inventory.key_at(i);
            let ghost before = item_views(items@);
            proof {
                assert(rows.take(i + 1).drop_last() =~= rows.take(i as int));
                assert(rows.take(i + 1).last() == rows[i as int]);
            }
            if key.owner == who && bytes_eq(&key.sku, sku) {
                let item = self.inventory.value_at(i).clone();
                items.push(item);
                assert(item_views(items@) =~= before.push(rows[i as int].1));
            }
            i += 1;
        }
        assert(rows.take(rows.len() as int) =~= rows);
        items
    }
}

} // verus!
