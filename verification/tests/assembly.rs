use inventory_ledger::assembly::{
    AssembledProduct, Bom, DispatchError, Error, Event, Pallet, WorkOrder,
};
use inventory_ledger::inventory;
use inventory_ledger::types::{
    AdjustDetails, AdjustItem, Employee, Equipment, Item, Location, Recipe, RecipeComponent,
};

fn sku(text: &str) -> Vec<u8> {
    text.as_bytes().to_vec()
}

fn stock(name: &str, serial: u32, qty: u32, created_at: u32) -> Item {
    let mut item = Item::default();
    item.sku = sku(name);
    item.serial_number = serial;
    item.qty = qty;
    item.created_at = created_at;
    item
}

fn placed(mut item: Item, location: Location) -> Item {
    item.location = location;
    item
}

fn order(number: u32, output: &str, components: &[(&str, u32)]) -> WorkOrder {
    WorkOrder {
        work_order_number: number,
        recipe: Recipe {
            inserted_by: Employee::Bob,
            sku: sku(output),
            recipe_id: 1,
            required_components: components
                .iter()
                .map(|(name, qty)| RecipeComponent { sku: sku(name), qty: *qty })
                .collect(),
            required_equipment: Equipment::Crimper,
            output_quantity: 1,
        },
    }
}

fn refused(error: Error) -> Result<(), DispatchError> {
    Err(DispatchError::Assembly(error))
}

fn serials(items: Option<Vec<Item>>) -> Vec<u32> {
    items.unwrap_or_default().iter().map(|item| item.serial_number).collect()
}

fn line_quantities(bom: &Bom) -> Vec<(u32, u32)> {
    bom.lines().iter().map(|line| (line.serial_number, line.qty)).collect()
}

/// Owner 7 holds 5 of A created at 1 and 3 of A created at 2; work order 1 takes 6 of A.
fn two_items_and_an_order() -> (inventory::Pallet, Pallet, WorkOrder) {
    let mut ledger = inventory::Pallet::new();
    let mut engine = Pallet::new();
    assert_eq!(ledger.do_inventory_insertion(7, stock("A", 1, 5, 1)), Ok(()));
    assert_eq!(ledger.do_inventory_insertion(7, stock("A", 2, 3, 2)), Ok(()));
    let work_order = order(1, "P", &[("A", 6)]);
    assert_eq!(engine.do_create_work_order(work_order.clone()), Ok(()));
    (ledger, engine, work_order)
}

#[test]
fn work_order_is_registered() {
    let mut engine = Pallet::new();
    assert_eq!(engine.work_orders(1), None);
    assert_eq!(engine.do_create_work_order(order(1, "P", &[("A", 6)])), Ok(()));
    assert_eq!(engine.work_orders(1), Some(order(1, "P", &[("A", 6)])));
    assert_eq!(engine.work_orders(2), None);
}

#[test]
fn work_order_number_is_used_once() {
    let mut engine = Pallet::new();
    assert_eq!(engine.do_create_work_order(order(1, "P", &[("A", 6)])), Ok(()));
    assert_eq!(
        engine.do_create_work_order(order(1, "Q", &[("B", 2)])),
        refused(Error::WorkOrderAlreadyExists)
    );
    assert_eq!(engine.work_orders(1), Some(order(1, "P", &[("A", 6)])));
    assert_eq!(engine.do_create_work_order(order(2, "Q", &[("B", 2)])), Ok(()));
}

#[test]
fn work_order_request_announces_order() {
    let mut engine = Pallet::new();
    let work_order = order(1, "P", &[("A", 6)]);
    assert_eq!(engine.create_work_order(7, work_order.clone()), Ok(()));
    assert_eq!(engine.events(), vec![Event::AddWorkOrder { who: 7, work_order: work_order.clone() }]);
    assert_eq!(engine.create_work_order(8, work_order), refused(Error::WorkOrderAlreadyExists));
    assert_eq!(engine.events().len(), 1);
}

#[test]
fn staging_moves_both_items_of_the_scenario() {
    let (mut ledger, mut engine, work_order) = two_items_and_an_order();
    assert_eq!(engine.do_prepare_staging_area(&mut ledger, 7, work_order.clone()), Ok(()));
    assert_eq!(
        ledger.inventory_locale(Location::Staging),
        Some(vec![
            placed(stock("A", 1, 5, 1), Location::Staging),
            placed(stock("A", 2, 3, 2), Location::Staging),
        ])
    );
    assert_eq!(ledger.inventory_locale(Location::Warehouse), Some(vec![]));
    assert_eq!(ledger.global_inventory(&sku("A")), Some(8));
    assert_eq!(engine.events(), vec![Event::PrepStaging { assembler: 7, work_order }]);
}

#[test]
fn staging_records_reason_in_audit() {
    let (mut ledger, mut engine, work_order) = two_items_and_an_order();
    assert_eq!(engine.do_prepare_staging_area(&mut ledger, 7, work_order), Ok(()));
    assert_eq!(
        ledger.adjust_inventory(7, &sku("A"), 1),
        Some(AdjustItem {
            issuer: Employee::Bob,
            item: placed(stock("A", 1, 5, 1), Location::Staging),
            adjust_details: AdjustDetails::Location {
                original_location: Location::Warehouse,
                new_location: Location::Staging,
                reason: b"Prepare Staging Area".to_vec(),
            },
        })
    );
}

#[test]
fn staging_takes_oldest_first_until_requirement_is_met() {
    let mut ledger = inventory::Pallet::new();
    let mut engine = Pallet::new();
    assert_eq!(ledger.do_inventory_insertion(7, stock("A", 1, 4, 30)), Ok(()));
    assert_eq!(ledger.do_inventory_insertion(7, stock("A", 2, 4, 10)), Ok(()));
    assert_eq!(ledger.do_inventory_insertion(7, stock("A", 3, 4, 40)), Ok(()));
    assert_eq!(ledger.do_inventory_insertion(7, stock("A", 4, 4, 20)), Ok(()));
    let work_order = order(1, "P", &[("A", 6)]);
    assert_eq!(engine.do_create_work_order(work_order.clone()), Ok(()));
    assert_eq!(engine.do_prepare_staging_area(&mut ledger, 7, work_order), Ok(()));
    assert_eq!(serials(ledger.inventory_locale(Location::Staging)), vec![2, 4]);
    assert_eq!(serials(ledger.inventory_locale(Location::Warehouse)), vec![1, 3]);
}

#[test]
fn staging_stops_when_requirement_is_met_exactly() {
    let mut ledger = inventory::Pallet::new();
    let mut engine = Pallet::new();
    assert_eq!(ledger.do_inventory_insertion(7, stock("A", 1, 6, 1)), Ok(()));
    assert_eq!(ledger.do_inventory_insertion(7, stock("A", 2, 6, 2)), Ok(()));
    let work_order = order(1, "P", &[("A", 6)]);
    assert_eq!(engine.do_create_work_order(work_order.clone()), Ok(()));
    assert_eq!(engine.do_prepare_staging_area(&mut ledger, 7, work_order), Ok(()));
    assert_eq!(serials(ledger.inventory_locale(Location::Staging)), vec![1]);
    assert_eq!(serials(ledger.inventory_locale(Location::Warehouse)), vec![2]);
}

#[test]
fn staging_skips_items_without_stock() {
    let mut ledger = inventory::Pallet::new();
    let mut engine = Pallet::new();
    assert_eq!(ledger.do_inventory_insertion(7, stock("A", 1, 0, 1)), Ok(()));
    assert_eq!(ledger.do_inventory_insertion(7, stock("A", 2, 6, 2)), Ok(()));
    let work_order = order(1, "P", &[("A", 6)]);
    assert_eq!(engine.do_create_work_order(work_order.clone()), Ok(()));
    assert_eq!(engine.do_prepare_staging_area(&mut ledger, 7, work_order), Ok(()));
    assert_eq!(serials(ledger.inventory_locale(Location::Staging)), vec![2]);
    assert_eq!(serials(ledger.inventory_locale(Location::Warehouse)), vec![1]);
}

#[test]
fn staging_takes_items_of_the_owner_only() {
    let mut ledger = inventory::Pallet::new();
    let mut engine = Pallet::new();
    assert_eq!(ledger.do_inventory_insertion(8, stock("A", 1, 6, 1)), Ok(()));
    assert_eq!(ledger.do_inventory_insertion(7, stock("A", 2, 6, 2)), Ok(()));
    let work_order = order(1, "P", &[("A", 6)]);
    assert_eq!(engine.do_create_work_order(work_order.clone()), Ok(()));
    assert_eq!(engine.do_prepare_staging_area(&mut ledger, 7, work_order), Ok(()));
    assert_eq!(serials(ledger.inventory_locale(Location::Staging)), vec![2]);
}

#[test]
fn staging_keeps_order_of_equal_ages() {
    let mut ledger = inventory::Pallet::new();
    let mut engine = Pallet::new();
    assert_eq!(ledger.do_inventory_insertion(7, stock("A", 9, 2, 5)), Ok(()));
    assert_eq!(ledger.do_inventory_insertion(7, stock("A", 3, 2, 5)), Ok(()));
    assert_eq!(ledger.do_inventory_insertion(7, stock("A", 6, 2, 5)), Ok(()));
    let work_order = order(1, "P", &[("A", 3)]);
    assert_eq!(engine.do_create_work_order(work_order.clone()), Ok(()));
    assert_eq!(engine.do_prepare_staging_area(&mut ledger, 7, work_order), Ok(()));
    assert_eq!(serials(ledger.inventory_locale(Location::Staging)), vec![3, 9]);
    assert_eq!(serials(ledger.inventory_locale(Location::Warehouse)), vec![6]);
}

#[test]
fn staging_handles_each_component_in_turn() {
    let mut ledger = inventory::Pallet::new();
    let mut engine = Pallet::new();
    assert_eq!(ledger.do_inventory_insertion(7, stock("A", 1, 2, 1)), Ok(()));
    assert_eq!(ledger.do_inventory_insertion(7, stock("B", 2, 2, 1)), Ok(()));
    assert_eq!(ledger.do_inventory_insertion(7, stock("C", 3, 2, 1)), Ok(()));
    let work_order = order(1, "P", &[("B", 1), ("A", 2)]);
    assert_eq!(engine.do_create_work_order(work_order.clone()), Ok(()));
    assert_eq!(engine.do_prepare_staging_area(&mut ledger, 7, work_order), Ok(()));
    assert_eq!(serials(ledger.inventory_locale(Location::Staging)), vec![1, 2]);
    assert_eq!(serials(ledger.inventory_locale(Location::Warehouse)), vec![3]);
    let moves: Vec<u32> = ledger
        .events()
        .iter()
        .filter_map(|event| match event {
            inventory::Event::MoveItem { item, .. } => Some(item.serial_number),
            _ => None,
        })
        .collect();
    assert_eq!(moves, vec![2, 1]);
}

#[test]
fn staging_of_unknown_work_order_fails() {
    let (mut ledger, mut engine, _) = two_items_and_an_order();
    assert_eq!(
        engine.do_prepare_staging_area(&mut ledger, 7, order(2, "P", &[("A", 6)])),
        refused(Error::WorkOrderNotFound)
    );
    assert_eq!(ledger.inventory_locale(Location::Staging), None);
    assert_eq!(engine.events(), vec![]);
}

#[test]
fn staging_follows_the_registered_recipe() {
    let (mut ledger, mut engine, _) = two_items_and_an_order();
    assert_eq!(engine.do_prepare_staging_area(&mut ledger, 7, order(1, "Q", &[("A", 1)])), Ok(()));
    assert_eq!(serials(ledger.inventory_locale(Location::Staging)), vec![1, 2]);
}

#[test]
fn staging_with_insufficient_aggregate_changes_nothing() {
    let mut ledger = inventory::Pallet::new();
    let mut engine = Pallet::new();
    assert_eq!(ledger.do_inventory_insertion(7, stock("A", 1, 5, 1)), Ok(()));
    assert_eq!(ledger.do_inventory_insertion(7, stock("B", 2, 1, 1)), Ok(()));
    let work_order = order(1, "P", &[("A", 5), ("B", 2)]);
    assert_eq!(engine.do_create_work_order(work_order.clone()), Ok(()));
    let events_before = ledger.events();
    assert_eq!(
        engine.do_prepare_staging_area(&mut ledger, 7, work_order),
        refused(Error::InsufficientInventory)
    );
    assert_eq!(ledger.inventory_locale(Location::Staging), None);
    assert_eq!(serials(ledger.inventory_locale(Location::Warehouse)), vec![1, 2]);
    assert_eq!(ledger.inventory(7, &sku("A"), 1), Some(stock("A", 1, 5, 1)));
    assert_eq!(ledger.adjust_inventory(7, &sku("A"), 1), None);
    assert_eq!(ledger.events(), events_before);
    assert_eq!(engine.events(), vec![]);
}

#[test]
fn staging_without_aggregate_fails() {
    let mut ledger = inventory::Pallet::new();
    let mut engine = Pallet::new();
    let work_order = order(1, "P", &[("A", 1)]);
    assert_eq!(engine.do_create_work_order(work_order.clone()), Ok(()));
    assert_eq!(
        engine.do_prepare_staging_area(&mut ledger, 7, work_order),
        refused(Error::InsufficientInventory)
    );
}

#[test]
fn staging_of_more_than_a_hundred_items_changes_nothing() {
    let mut ledger = inventory::Pallet::new();
    let mut engine = Pallet::new();
    for serial in 0..101u32 {
        assert_eq!(ledger.do_inventory_insertion(7, stock("A", serial, 1, serial)), Ok(()));
    }
    let work_order = order(1, "P", &[("A", 101)]);
    assert_eq!(engine.do_create_work_order(work_order.clone()), Ok(()));
    assert_eq!(
        engine.do_prepare_staging_area(&mut ledger, 7, work_order),
        refused(Error::BomConstructIssue)
    );
    assert_eq!(ledger.inventory_locale(Location::Staging), None);
    assert_eq!(ledger.inventory_locale(Location::Warehouse).map(|items| items.len()), Some(101));
    assert_eq!(ledger.events().len(), 101);
}

#[test]
fn staging_of_a_hundred_items_succeeds() {
    let mut ledger = inventory::Pallet::new();
    let mut engine = Pallet::new();
    for serial in 0..101u32 {
        assert_eq!(ledger.do_inventory_insertion(7, stock("A", serial, 1, serial)), Ok(()));
    }
    let work_order = order(1, "P", &[("A", 100)]);
    assert_eq!(engine.do_create_work_order(work_order.clone()), Ok(()));
    assert_eq!(engine.do_prepare_staging_area(&mut ledger, 7, work_order), Ok(()));
    assert_eq!(ledger.inventory_locale(Location::Staging).map(|items| items.len()), Some(100));
    assert_eq!(serials(ledger.inventory_locale(Location::Warehouse)), vec![100]);
}

#[test]
fn staging_propagates_refusal_of_a_move() {
    let mut ledger = inventory::Pallet::new();
    let mut engine = Pallet::new();
    for serial in 0..1000u32 {
        assert_eq!(
            ledger.do_inventory_insertion(8, placed(stock("B", serial, 1, 1), Location::Staging)),
            Ok(())
        );
    }
    assert_eq!(ledger.do_inventory_insertion(7, stock("A", 5000, 6, 1)), Ok(()));
    let work_order = order(1, "P", &[("A", 6)]);
    assert_eq!(engine.do_create_work_order(work_order.clone()), Ok(()));
    assert_eq!(
        engine.do_prepare_staging_area(&mut ledger, 7, work_order),
        Err(DispatchError::Inventory(inventory::Error::InventoryFull))
    );
    assert_eq!(serials(ledger.inventory_locale(Location::Warehouse)), vec![5000]);
    assert_eq!(ledger.inventory(7, &sku("A"), 5000), Some(stock("A", 5000, 6, 1)));
}

#[test]
fn staging_request_does_the_same() {
    let (mut ledger, mut engine, work_order) = two_items_and_an_order();
    assert_eq!(engine.prepare_staging_area(&mut ledger, 7, work_order.clone()), Ok(()));
    assert_eq!(serials(ledger.inventory_locale(Location::Staging)), vec![1, 2]);
    assert_eq!(engine.events(), vec![Event::PrepStaging { assembler: 7, work_order }]);
}

#[test]
fn assembly_consumes_the_scenario() {
    let (mut ledger, mut engine, work_order) = two_items_and_an_order();
    assert_eq!(engine.do_prepare_staging_area(&mut ledger, 7, work_order.clone()), Ok(()));
    assert_eq!(
        engine.do_assemble_product(&mut ledger, 7, work_order, 100, Location::Staging),
        Ok(())
    );
    let first = ledger.inventory(7, &sku("A"), 1).unwrap();
    let second = ledger.inventory(7, &sku("A"), 2).unwrap();
    assert_eq!(first, placed(stock("A", 1, 0, 1), Location::Warehouse));
    assert_eq!(second, placed(stock("A", 2, 2, 2), Location::Warehouse));
    assert_eq!(ledger.inventory_locale(Location::Staging), Some(vec![]));
    assert_eq!(ledger.global_inventory(&sku("A")), Some(2));
    let record = engine.assembled_products(7, &sku("P"), 100).unwrap();
    assert_eq!(line_quantities(&record.bom), vec![(1, 5), (2, 1)]);
    let total: u32 = record.bom.lines().iter().map(|line| line.qty).sum();
    assert_eq!(total, 6);
}

#[test]
fn assembly_records_lines_as_snapshots_of_staged_items() {
    let (mut ledger, mut engine, work_order) = two_items_and_an_order();
    assert_eq!(engine.do_prepare_staging_area(&mut ledger, 7, work_order.clone()), Ok(()));
    assert_eq!(
        engine.do_assemble_product(&mut ledger, 7, work_order, 100, Location::Staging),
        Ok(())
    );
    let record = engine.assembled_products(7, &sku("P"), 100).unwrap();
    assert_eq!(
        record.bom.lines(),
        vec![
            placed(stock("A", 1, 5, 1), Location::Staging),
            placed(stock("A", 2, 1, 2), Location::Staging),
        ]
    );
}

#[test]
fn assembly_shelves_the_product() {
    let (mut ledger, mut engine, work_order) = two_items_and_an_order();
    assert_eq!(engine.do_prepare_staging_area(&mut ledger, 7, work_order.clone()), Ok(()));
    assert_eq!(
        engine.do_assemble_product(&mut ledger, 7, work_order, 100, Location::Staging),
        Ok(())
    );
    let mut product = Item::default();
    product.sku = sku("P");
    product.serial_number = 100;
    product.qty = 1;
    assert_eq!(ledger.inventory(7, &sku("P"), 100), Some(product.clone()));
    assert_eq!(ledger.global_inventory(&sku("P")), Some(1));
    assert_eq!(serials(ledger.inventory_locale(Location::Warehouse)), vec![1, 2, 100]);
    assert_eq!(engine.assembled_products(7, &sku("P"), 100).map(|record| record.item), Some(product));
    assert_eq!(engine.assembled_products(7, &sku("P"), 101), None);
}

#[test]
fn assembly_records_reasons_in_audit_and_events() {
    let (mut ledger, mut engine, work_order) = two_items_and_an_order();
    assert_eq!(engine.do_prepare_staging_area(&mut ledger, 7, work_order.clone()), Ok(()));
    assert_eq!(
        engine.do_assemble_product(&mut ledger, 7, work_order, 100, Location::Staging),
        Ok(())
    );
    assert_eq!(
        ledger.adjust_inventory(7, &sku("A"), 2),
        Some(AdjustItem {
            issuer: Employee::Bob,
            item: placed(stock("A", 2, 2, 2), Location::Warehouse),
            adjust_details: AdjustDetails::Location {
                original_location: Location::Staging,
                new_location: Location::Warehouse,
                reason: b"Assembled Product complete, move to warehouse".to_vec(),
            },
        })
    );
    let adjustments: Vec<AdjustDetails> = ledger
        .events()
        .iter()
        .filter_map(|event| match event {
            inventory::Event::AdjustItem { adjust_details, .. } => Some(adjust_details.clone()),
            _ => None,
        })
        .collect();
    assert_eq!(
        adjustments,
        vec![
            AdjustDetails::Quantity {
                original_qty: 5,
                new_qty: 0,
                reason: b"Assemble Product".to_vec(),
            },
            AdjustDetails::Quantity {
                original_qty: 3,
                new_qty: 2,
                reason: b"Assemble Product".to_vec(),
            },
        ]
    );
}

#[test]
fn assembly_takes_full_requirement_from_one_item() {
    let mut ledger = inventory::Pallet::new();
    let mut engine = Pallet::new();
    assert_eq!(ledger.do_inventory_insertion(7, placed(stock("A", 1, 10, 1), Location::Staging)), Ok(()));
    let work_order = order(1, "P", &[("A", 6)]);
    assert_eq!(engine.do_create_work_order(work_order.clone()), Ok(()));
    assert_eq!(
        engine.do_assemble_product(&mut ledger, 7, work_order, 100, Location::Staging),
        Ok(())
    );
    assert_eq!(
        ledger.inventory(7, &sku("A"), 1),
        Some(placed(stock("A", 1, 4, 1), Location::Warehouse))
    );
    let record = engine.assembled_products(7, &sku("P"), 100).unwrap();
    assert_eq!(line_quantities(&record.bom), vec![(1, 6)]);
}

#[test]
fn assembly_takes_only_the_remainder_from_a_large_item() {
    let mut ledger = inventory::Pallet::new();
    let mut engine = Pallet::new();
    assert_eq!(ledger.do_inventory_insertion(7, placed(stock("A", 1, 2, 1), Location::Staging)), Ok(()));
    assert_eq!(ledger.do_inventory_insertion(7, placed(stock("A", 2, 10, 2), Location::Staging)), Ok(()));
    let work_order = order(1, "P", &[("A", 6)]);
    assert_eq!(engine.do_create_work_order(work_order.clone()), Ok(()));
    assert_eq!(
        engine.do_assemble_product(&mut ledger, 7, work_order, 100, Location::Staging),
        Ok(())
    );
    let record = engine.assembled_products(7, &sku("P"), 100).unwrap();
    assert_eq!(line_quantities(&record.bom), vec![(1, 2), (2, 4)]);
    assert_eq!(ledger.inventory(7, &sku("A"), 2).map(|item| item.qty), Some(6));
    assert_eq!(ledger.global_inventory(&sku("A")), Some(6));
}

#[test]
fn assembly_conserves_each_component() {
    let mut ledger = inventory::Pallet::new();
    let mut engine = Pallet::new();
    assert_eq!(ledger.do_inventory_insertion(7, placed(stock("A", 1, 4, 1), Location::Staging)), Ok(()));
    assert_eq!(ledger.do_inventory_insertion(7, placed(stock("B", 2, 7, 1), Location::Staging)), Ok(()));
    assert_eq!(ledger.do_inventory_insertion(7, placed(stock("A", 3, 4, 1), Location::Staging)), Ok(()));
    assert_eq!(ledger.do_inventory_insertion(7, placed(stock("C", 4, 9, 1), Location::Staging)), Ok(()));
    let work_order = order(1, "P", &[("A", 5), ("B", 7), ("A", 2)]);
    assert_eq!(engine.do_create_work_order(work_order.clone()), Ok(()));
    assert_eq!(
        engine.do_assemble_product(&mut ledger, 7, work_order, 100, Location::Staging),
        Ok(())
    );
    let record = engine.assembled_products(7, &sku("P"), 100).unwrap();
    assert_eq!(line_quantities(&record.bom), vec![(1, 4), (3, 1), (2, 7), (3, 2)]);
    let of = |name: &str| -> u32 {
        record.bom.lines().iter().filter(|line| line.sku == sku(name)).map(|line| line.qty).sum()
    };
    assert_eq!(of("A"), 7);
    assert_eq!(of("B"), 7);
    assert_eq!(of("C"), 0);
    assert_eq!(ledger.global_inventory(&sku("A")), Some(1));
    assert_eq!(ledger.global_inventory(&sku("B")), Some(0));
    assert_eq!(ledger.global_inventory(&sku("C")), Some(9));
    assert_eq!(ledger.inventory(7, &sku("A"), 3).map(|item| item.qty), Some(1));
    assert_eq!(serials(ledger.inventory_locale(Location::Staging)), vec![4]);
}

#[test]
fn assembly_of_unknown_work_order_fails() {
    let (mut ledger, mut engine, work_order) = two_items_and_an_order();
    assert_eq!(engine.do_prepare_staging_area(&mut ledger, 7, work_order), Ok(()));
    assert_eq!(
        engine.do_assemble_product(
            &mut ledger,
            7,
            order(9, "P", &[("A", 6)]),
            100,
            Location::Staging
        ),
        refused(Error::WorkOrderNotFound)
    );
    assert_eq!(engine.assembled_products(7, &sku("P"), 100), None);
}

#[test]
fn assembly_without_staging_index_fails() {
    let (mut ledger, mut engine, work_order) = two_items_and_an_order();
    assert_eq!(
        engine.do_assemble_product(&mut ledger, 7, work_order, 100, Location::Staging),
        refused(Error::StagingAreaNotFound)
    );
    assert_eq!(engine.assembled_products(7, &sku("P"), 100), None);
    assert_eq!(ledger.inventory(7, &sku("P"), 100), None);
}

#[test]
fn assembly_with_insufficient_staged_stock_changes_nothing() {
    let mut ledger = inventory::Pallet::new();
    let mut engine = Pallet::new();
    assert_eq!(ledger.do_inventory_insertion(7, placed(stock("A", 1, 5, 1), Location::Staging)), Ok(()));
    assert_eq!(ledger.do_inventory_insertion(7, placed(stock("B", 2, 1, 1), Location::Staging)), Ok(()));
    assert_eq!(ledger.do_inventory_insertion(7, stock("B", 3, 9, 1)), Ok(()));
    let work_order = order(1, "P", &[("A", 5), ("B", 2)]);
    assert_eq!(engine.do_create_work_order(work_order.clone()), Ok(()));
    let events_before = ledger.events();
    assert_eq!(
        engine.do_assemble_product(&mut ledger, 7, work_order, 100, Location::Staging),
        refused(Error::InsufficientInventory)
    );
    assert_eq!(
        ledger.inventory(7, &sku("A"), 1),
        Some(placed(stock("A", 1, 5, 1), Location::Staging))
    );
    assert_eq!(serials(ledger.inventory_locale(Location::Staging)), vec![1, 2]);
    assert_eq!(ledger.global_inventory(&sku("A")), Some(5));
    assert_eq!(ledger.adjust_inventory(7, &sku("A"), 1), None);
    assert_eq!(ledger.events(), events_before);
    assert_eq!(engine.assembled_products(7, &sku("P"), 100), None);
}

#[test]
fn assembly_of_more_than_a_hundred_lines_changes_nothing() {
    let mut ledger = inventory::Pallet::new();
    let mut engine = Pallet::new();
    for serial in 0..101u32 {
        assert_eq!(
            ledger.do_inventory_insertion(7, placed(stock("A", serial, 1, 1), Location::Staging)),
            Ok(())
        );
    }
    let work_order = order(1, "P", &[("A", 101)]);
    assert_eq!(engine.do_create_work_order(work_order.clone()), Ok(()));
    assert_eq!(
        engine.do_assemble_product(&mut ledger, 7, work_order, 500, Location::Staging),
        refused(Error::BomConstructIssue)
    );
    assert_eq!(ledger.inventory_locale(Location::Staging).map(|items| items.len()), Some(101));
    assert_eq!(ledger.global_inventory(&sku("A")), Some(101));
    assert_eq!(ledger.inventory_locale(Location::Warehouse), None);
    assert_eq!(engine.assembled_products(7, &sku("P"), 500), None);
}

#[test]
fn assembly_propagates_refusal_of_the_ledger() {
    let mut ledger = inventory::Pallet::new();
    let mut engine = Pallet::new();
    assert_eq!(ledger.do_inventory_insertion(7, placed(stock("A", 1, 5, 1), Location::Staging)), Ok(()));
    assert_eq!(ledger.do_inventory_scrap(7, sku("A"), 1, inventory_ledger::types::ScrapDetails {
        issuer: Employee::Bob,
        reason: b"lost".to_vec(),
        equipment: Equipment::Cart,
    }), Ok(()));
    assert_eq!(ledger.do_inventory_insertion(8, placed(stock("B", 9, 1, 1), Location::Staging)), Ok(()));
    assert_eq!(
        ledger.do_inventory_move(
            8,
            placed(stock("A", 1, 5, 1), Location::Staging),
            Employee::Bob,
            AdjustDetails::Location {
                original_location: Location::Staging,
                new_location: Location::Staging,
                reason: vec![],
            }
        ),
        Ok(())
    );
    assert_eq!(ledger.global_inventory(&sku("A")), None);
    let work_order = order(1, "P", &[("A", 5)]);
    assert_eq!(engine.do_create_work_order(work_order.clone()), Ok(()));
    assert_eq!(
        engine.do_assemble_product(&mut ledger, 8, work_order, 100, Location::Staging),
        Err(DispatchError::Inventory(inventory::Error::InventoryNotFound))
    );
    assert_eq!(serials(ledger.inventory_locale(Location::Staging)), vec![1, 9]);
    assert_eq!(engine.assembled_products(8, &sku("P"), 100), None);
}

#[test]
fn assembly_stands_when_the_product_cannot_be_shelved() {
    let mut ledger = inventory::Pallet::new();
    let mut engine = Pallet::new();
    assert_eq!(ledger.do_inventory_insertion(7, placed(stock("A", 1, 5, 1), Location::Staging)), Ok(()));
    let work_order = order(1, "ABCDEFGHIJKLMNOPQ", &[("A", 5)]);
    assert_eq!(engine.do_create_work_order(work_order.clone()), Ok(()));
    assert_eq!(
        engine.do_assemble_product(&mut ledger, 7, work_order, 100, Location::Staging),
        Ok(())
    );
    assert_eq!(ledger.inventory(7, &sku("ABCDEFGHIJKLMNOPQ"), 100), None);
    assert_eq!(ledger.global_inventory(&sku("ABCDEFGHIJKLMNOPQ")), None);
    assert_eq!(ledger.inventory(7, &sku("A"), 1).map(|item| item.qty), Some(0));
    let record = engine.assembled_products(7, &sku("ABCDEFGHIJKLMNOPQ"), 100).unwrap();
    assert_eq!(line_quantities(&record.bom), vec![(1, 5)]);
}

#[test]
fn assembly_without_components_yields_empty_bom() {
    let mut ledger = inventory::Pallet::new();
    let mut engine = Pallet::new();
    assert_eq!(ledger.do_inventory_insertion(7, placed(stock("A", 1, 5, 1), Location::Staging)), Ok(()));
    let work_order = order(1, "P", &[]);
    assert_eq!(engine.do_create_work_order(work_order.clone()), Ok(()));
    assert_eq!(
        engine.do_assemble_product(&mut ledger, 7, work_order, 100, Location::Staging),
        Ok(())
    );
    let mut product = Item::default();
    product.sku = sku("P");
    product.serial_number = 100;
    product.qty = 1;
    assert_eq!(
        engine.assembled_products(7, &sku("P"), 100),
        Some(AssembledProduct { item: product, bom: Bom::new() })
    );
}

#[test]
fn assembly_request_announces_the_given_order() {
    let (mut ledger, mut engine, work_order) = two_items_and_an_order();
    assert_eq!(engine.prepare_staging_area(&mut ledger, 7, work_order.clone()), Ok(()));
    let given = order(1, "Z", &[]);
    assert_eq!(engine.assemble_product(&mut ledger, 7, given.clone(), 100, Location::Staging), Ok(()));
    assert_eq!(
        engine.events(),
        vec![
            Event::PrepStaging { assembler: 7, work_order },
            Event::ProductAssembled { assembler: 7, work_order: given },
        ]
    );
    assert!(engine.assembled_products(7, &sku("P"), 100).is_some());
}

#[test]
fn refused_assembly_request_announces_nothing() {
    let (mut ledger, mut engine, work_order) = two_items_and_an_order();
    assert_eq!(
        engine.assemble_product(&mut ledger, 7, work_order, 100, Location::Staging),
        refused(Error::StagingAreaNotFound)
    );
    assert_eq!(engine.events(), vec![]);
}

#[test]
fn bill_of_materials_starts_empty_and_copies() {
    let bom = Bom::new();
    assert_eq!(bom.lines(), vec![]);
    assert_eq!(bom.clone(), bom);
}

#[test]
fn copy_of_bill_of_materials_holds_the_same_lines() {
    let (mut ledger, mut engine, work_order) = two_items_and_an_order();
    assert_eq!(engine.do_prepare_staging_area(&mut ledger, 7, work_order.clone()), Ok(()));
    assert_eq!(
        engine.do_assemble_product(&mut ledger, 7, work_order, 100, Location::Staging),
        Ok(())
    );
    let record = engine.assembled_products(7, &sku("P"), 100).unwrap();
    let copy = record.bom.clone();
    assert_eq!(copy.lines().len(), 2);
    assert_eq!(copy.lines(), record.bom.lines());
}
