use inventory_ledger::inventory::{Error, Event, Pallet};
use inventory_ledger::types::{Employee, Equipment, Material, Recipe, RecipeComponent};

fn sku(text: &str) -> Vec<u8> {
    text.as_bytes().to_vec()
}

fn material(name: &str) -> Material {
    Material { sku: sku(name) }
}

fn recipe(name: &str, output_quantity: u32) -> Recipe {
    Recipe {
        inserted_by: Employee::Charlie,
        sku: sku(name),
        recipe_id: 3,
        required_components: vec![
            RecipeComponent { sku: sku("A"), qty: 6 },
            RecipeComponent { sku: sku("B"), qty: 1 },
        ],
        required_equipment: Equipment::Mixer,
        output_quantity,
    }
}

#[test]
fn recipe_is_stored_under_its_sku() {
    let mut ledger = Pallet::new();
    assert_eq!(ledger.recipes(&sku("P")), None);
    assert_eq!(ledger.do_insert_recipe(recipe("P", 1)), Ok(()));
    assert_eq!(ledger.recipes(&sku("P")), Some(recipe("P", 1)));
    assert_eq!(ledger.recipes(&sku("Q")), None);
}

#[test]
fn recipe_is_replaced_in_place() {
    let mut ledger = Pallet::new();
    assert_eq!(ledger.do_insert_recipe(recipe("P", 1)), Ok(()));
    assert_eq!(ledger.do_insert_recipe(recipe("P", 4)), Ok(()));
    assert_eq!(ledger.recipes(&sku("P")), Some(recipe("P", 4)));
}

#[test]
fn recipe_with_long_sku_is_rejected() {
    let mut ledger = Pallet::new();
    assert_eq!(
        ledger.do_insert_recipe(recipe("ABCDEFGHIJKLMNOPQ", 1)),
        Err(Error::InvalidSkuLength)
    );
    assert_eq!(ledger.recipes(&sku("ABCDEFGHIJKLMNOPQ")), None);
    assert_eq!(ledger.do_insert_recipe(recipe("ABCDEFGHIJKLMNOP", 1)), Ok(()));
}

#[test]
fn recipe_request_announces_recipe() {
    let mut ledger = Pallet::new();
    assert_eq!(ledger.insert_recipe(7, recipe("P", 1)), Ok(()));
    assert_eq!(ledger.events(), vec![Event::AddRecipe { sender: 7, recipe: recipe("P", 1) }]);
    assert_eq!(ledger.insert_recipe(7, recipe("ABCDEFGHIJKLMNOPQ", 1)), Err(Error::InvalidSkuLength));
    assert_eq!(ledger.events().len(), 1);
}

#[test]
fn material_is_created_once() {
    let mut ledger = Pallet::new();
    assert_eq!(ledger.do_insert_material(material("M")), Ok(()));
    assert_eq!(ledger.materials(&sku("M")), Some(material("M")));
    assert_eq!(ledger.do_insert_material(material("M")), Err(Error::MaterialAlreadyExists));
    assert_eq!(ledger.materials(&sku("M")), Some(material("M")));
}

#[test]
fn material_is_deleted() {
    let mut ledger = Pallet::new();
    assert_eq!(ledger.do_insert_material(material("M")), Ok(()));
    assert_eq!(ledger.do_insert_material(material("N")), Ok(()));
    assert_eq!(ledger.do_delete_material(sku("M")), Ok(()));
    assert_eq!(ledger.materials(&sku("M")), None);
    assert_eq!(ledger.materials(&sku("N")), Some(material("N")));
    assert_eq!(ledger.do_insert_material(material("M")), Ok(()));
}

#[test]
fn deleting_unknown_material_fails() {
    let mut ledger = Pallet::new();
    assert_eq!(ledger.do_delete_material(sku("M")), Err(Error::MaterialNotFound));
    assert_eq!(ledger.do_insert_material(material("N")), Ok(()));
    assert_eq!(ledger.do_delete_material(sku("M")), Err(Error::MaterialNotFound));
    assert_eq!(ledger.materials(&sku("N")), Some(material("N")));
}

#[test]
fn updating_unknown_material_fails() {
    let mut ledger = Pallet::new();
    assert_eq!(ledger.do_update_material(material("M")), Err(Error::MaterialNotFound));
    assert_eq!(ledger.materials(&sku("M")), None);
}

#[test]
fn updating_known_material_succeeds() {
    let mut ledger = Pallet::new();
    assert_eq!(ledger.do_insert_material(material("M")), Ok(()));
    assert_eq!(ledger.do_update_material(material("M")), Ok(()));
    assert_eq!(ledger.materials(&sku("M")), Some(material("M")));
}

#[test]
fn material_requests_announce_changes() {
    let mut ledger = Pallet::new();
    assert_eq!(ledger.insert_material(7, material("M")), Ok(()));
    assert_eq!(ledger.update_material(8, material("M")), Ok(()));
    assert_eq!(ledger.delete_material(9, sku("M")), Ok(()));
    assert_eq!(
        ledger.events(),
        vec![
            Event::AddMaterial { sender: 7, material: material("M") },
            Event::UpdateMaterial {
                sender: 8,
                original_material: material("M"),
                new_material: material("M"),
            },
            Event::DeleteMaterial { sender: 9, sku: sku("M") },
        ]
    );
}

#[test]
fn refused_material_requests_announce_nothing() {
    let mut ledger = Pallet::new();
    assert_eq!(ledger.update_material(8, material("M")), Err(Error::MaterialNotFound));
    assert_eq!(ledger.delete_material(9, sku("M")), Err(Error::MaterialNotFound));
    assert_eq!(ledger.insert_material(7, material("M")), Ok(()));
    assert_eq!(ledger.insert_material(7, material("M")), Err(Error::MaterialAlreadyExists));
    assert_eq!(ledger.events().len(), 1);
}
