use inventory_ledger::assembly::{Error, WorkOrder};
use inventory_ledger::reasons::audit_reason;
use inventory_ledger::staging::sort_by_age;
use inventory_ledger::types::{
    bytes_eq, clone_components, AbcCode, Employee, Equipment, InventoryType, Item, Location, Lot,
    Material, ProductType, Recipe, RecipeComponent,
};

fn aged(serial: u32, created_at: u32) -> Item {
    let mut item = Item::default();
    item.serial_number = serial;
    item.created_at = created_at;
    item
}

fn order_of(items: &[Item]) -> Vec<u32> {
    items.iter().map(|item| item.serial_number).collect()
}

#[test]
fn defaults_are_the_first_variants() {
    assert_eq!(AbcCode::default(), AbcCode::A);
    assert_eq!(Equipment::default(), Equipment::Forklift);
    assert_eq!(InventoryType::default(), InventoryType::RawMaterial);
    assert_eq!(Employee::default(), Employee::Bob);
    assert_eq!(Location::default(), Location::Warehouse);
    assert_eq!(ProductType::default(), ProductType::CapitalGoods);
}

#[test]
fn default_item_is_empty_and_in_the_warehouse() {
    let item = Item::default();
    assert_eq!(item.sku, Vec::<u8>::new());
    assert_eq!(item.material, Material::default());
    assert_eq!(item.qty, 0);
    assert_eq!(item.serial_number, 0);
    assert_eq!(item.created_at, 0);
    assert_eq!(item.location, Location::Warehouse);
    assert_eq!(item.moved_by, Employee::Bob);
}

#[test]
fn default_work_order_has_empty_recipe() {
    let order = WorkOrder::default();
    assert_eq!(order.work_order_number, 0);
    assert_eq!(order.recipe, Recipe::default());
    assert_eq!(order.recipe.required_components, vec![]);
    assert_eq!(order.recipe.output_quantity, 0);
}

#[test]
fn location_slots_are_distinct() {
    let places = [
        Location::Warehouse,
        Location::Production,
        Location::Shipping,
        Location::Receiving,
        Location::Scrap,
        Location::Staging,
        Location::Packaging,
    ];
    for (expected, place) in places.iter().enumerate() {
        assert_eq!(place.slot_index(), expected);
    }
}

#[test]
fn lots_compare_by_number() {
    assert_eq!(Lot { lot_number: 4 }, Lot { lot_number: 4 });
    assert_ne!(Lot { lot_number: 4 }, Lot { lot_number: 5 });
}

#[test]
fn byte_strings_compare_by_content() {
    assert!(bytes_eq(&b"abc".to_vec(), &b"abc".to_vec()));
    assert!(!bytes_eq(&b"abc".to_vec(), &b"abd".to_vec()));
    assert!(!bytes_eq(&b"abc".to_vec(), &b"ab".to_vec()));
    assert!(bytes_eq(&vec![], &vec![]));
}

#[test]
fn components_are_copied_in_order() {
    let components = vec![
        RecipeComponent { sku: b"A".to_vec(), qty: 6 },
        RecipeComponent { sku: b"B".to_vec(), qty: 1 },
    ];
    assert_eq!(clone_components(&components), components);
}

#[test]
fn records_copy_equal() {
    let mut item = Item::default();
    item.sku = b"A".to_vec();
    item.material = Material { sku: b"M".to_vec() };
    item.qty = 4;
    item.location = Location::Packaging;
    assert_eq!(item.clone(), item);
}

#[test]
fn sort_orders_by_age() {
    let items = vec![aged(1, 30), aged(2, 10), aged(3, 40), aged(4, 20)];
    assert_eq!(order_of(&sort_by_age(&items)), vec![2, 4, 1, 3]);
}

#[test]
fn sort_keeps_order_of_equal_ages() {
    let items = vec![aged(1, 5), aged(2, 1), aged(3, 5), aged(4, 1), aged(5, 5)];
    assert_eq!(order_of(&sort_by_age(&items)), vec![2, 4, 1, 3, 5]);
}

#[test]
fn sort_of_nothing_is_nothing() {
    assert_eq!(sort_by_age(&vec![]), vec![]);
}

#[test]
fn reason_of_128_bytes_is_accepted() {
    let text = "r".repeat(128);
    assert_eq!(audit_reason(&text), Ok(text.as_bytes().to_vec()));
}

#[test]
fn reason_of_129_bytes_is_rejected() {
    let text = "r".repeat(129);
    assert_eq!(audit_reason(&text), Err(Error::DescriptionTooLong));
}

#[test]
fn reason_holds_the_bytes_of_the_text() {
    assert_eq!(audit_reason("Assemble Product"), Ok(b"Assemble Product".to_vec()));
    assert_eq!(audit_reason(""), Ok(vec![]));
}
