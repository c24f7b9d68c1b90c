use rust_trail::inventory::{catalog_cost, catalog_weight, Inventory, Item, ItemType};

const ALL_KINDS: [ItemType; 8] = [
    ItemType::Food,
    ItemType::Clothing,
    ItemType::Ammunition,
    ItemType::OxenPair,
    ItemType::SpareWheel,
    ItemType::SpareAxle,
    ItemType::SpareTongue,
    ItemType::MedicalSupply,
];

#[test]
fn add_then_remove_leaves_empty_for_every_kind() {
    for kind in ALL_KINDS {
        for q in [0u32, 1, 7, 250, u32::MAX] {
            let mut inv = Inventory::new(20000);
            inv.add_item(kind, q);
            assert!(inv.remove_item(kind, q));
            assert_eq!(inv.get_all_items().len(), 0);
            assert_eq!(inv.get_quantity(kind), 0);
            assert_eq!(inv.total_weight(), 0);
        }
    }
}

#[test]
fn add_accumulates_in_one_record() {
    let mut inv = Inventory::new(20000);
    inv.add_item(ItemType::Food, 100);
    inv.add_item(ItemType::Clothing, 3);
    inv.add_item(ItemType::Food, 50);
    assert_eq!(inv.get_quantity(ItemType::Food), 150);
    assert_eq!(inv.get_quantity(ItemType::Clothing), 3);
    let items = inv.get_all_items();
    assert_eq!(items.len(), 2);
    assert_eq!(items[0].item_type, ItemType::Food);
    assert_eq!(items[0].quantity, 150);
    assert_eq!(items[0].weight_per_unit, 10);
    assert_eq!(items[0].cost_per_unit, 2);
    assert_eq!(items[1].item_type, ItemType::Clothing);
}

#[test]
fn remove_more_than_held_fails_without_change() {
    let mut inv = Inventory::new(20000);
    inv.add_item(ItemType::SpareWheel, 2);
    assert!(!inv.remove_item(ItemType::SpareWheel, 3));
    assert_eq!(inv.get_quantity(ItemType::SpareWheel), 2);
    assert!(!inv.remove_item(ItemType::SpareAxle, 1));
    assert_eq!(inv.get_all_items().len(), 1);
}

#[test]
fn remove_partial_keeps_record() {
    let mut inv = Inventory::new(20000);
    inv.add_item(ItemType::Ammunition, 40);
    assert!(inv.remove_item(ItemType::Ammunition, 15));
    assert_eq!(inv.get_quantity(ItemType::Ammunition), 25);
    assert_eq!(inv.get_all_items().len(), 1);
}

#[test]
fn remove_zero_of_unstocked_kind_is_a_no_op_success() {
    let mut inv = Inventory::new(20000);
    assert!(inv.remove_item(ItemType::OxenPair, 0));
    assert_eq!(inv.get_all_items().len(), 0);
}

#[test]
fn remove_to_zero_drops_record() {
    let mut inv = Inventory::new(20000);
    inv.add_item(ItemType::Food, 5);
    inv.add_item(ItemType::Clothing, 1);
    assert!(inv.remove_item(ItemType::Food, 5));
    let items = inv.get_all_items();
    assert_eq!(items.len(), 1);
    assert_eq!(items[0].item_type, ItemType::Clothing);
}

#[test]
fn quantity_of_unstocked_is_zero() {
    let inv = Inventory::new(100);
    for kind in ALL_KINDS {
        assert_eq!(inv.get_quantity(kind), 0);
    }
}

#[test]
fn total_weight_is_sum_of_quantity_times_unit_weight() {
    let mut inv = Inventory::new(20000);
    inv.add_item(ItemType::Food, 200);
    inv.add_item(ItemType::Ammunition, 20);
    inv.add_item(ItemType::OxenPair, 2);
    inv.add_item(ItemType::MedicalSupply, 3);
    // 200 * 10 + 20 * 1 + 2 * 5000 + 3 * 5 tenths of a pound
    assert_eq!(inv.total_weight(), 12035);
}

#[test]
fn total_weight_of_every_kind_at_full_quantity() {
    let mut inv = Inventory::new(0);
    for kind in ALL_KINDS {
        inv.add_item(kind, u32::MAX);
    }
    let per_unit: u64 = 10 + 20 + 1 + 5000 + 150 + 100 + 80 + 5;
    assert_eq!(inv.total_weight(), per_unit * u32::MAX as u64);
}

#[test]
fn capacity_info_reports_percent() {
    let mut inv = Inventory::new(20000);
    inv.add_item(ItemType::Food, 200);
    assert_eq!(inv.capacity_info(), (2000, 20000, 10));
    inv.add_item(ItemType::OxenPair, 3);
    assert_eq!(inv.capacity_info(), (17000, 20000, 85));
    let mut small = Inventory::new(3);
    small.add_item(ItemType::Ammunition, 1);
    assert_eq!(small.capacity_info(), (1, 3, 33));
}

#[test]
fn capacity_info_with_zero_capacity() {
    let mut inv = Inventory::new(0);
    assert_eq!(inv.capacity_info(), (0, 0, 0));
    inv.add_item(ItemType::Food, 1);
    assert_eq!(inv.capacity_info(), (10, 0, 0));
}

#[test]
fn can_add_at_and_over_capacity() {
    let mut inv = Inventory::new(20000);
    inv.add_item(ItemType::Food, 1000);
    assert!(inv.can_add(ItemType::Food, 1000));
    assert!(!inv.can_add(ItemType::Food, 1001));
    assert!(inv.can_add(ItemType::OxenPair, 2));
    assert!(!inv.can_add(ItemType::OxenPair, 3));
    assert!(inv.can_add(ItemType::Clothing, 0));
    assert_eq!(inv.get_quantity(ItemType::Food), 1000);
    assert_eq!(inv.get_all_items().len(), 1);
    assert_eq!(inv.total_weight(), 10000);
}

#[test]
fn add_does_not_check_capacity() {
    let mut inv = Inventory::new(10);
    inv.add_item(ItemType::OxenPair, 1);
    assert_eq!(inv.get_quantity(ItemType::OxenPair), 1);
    assert_eq!(inv.total_weight(), 5000);
    assert!(!inv.can_add(ItemType::Ammunition, 0));
}

#[test]
fn use_food_rounds_up_to_whole_pounds() {
    let mut inv = Inventory::new(20000);
    inv.add_item(ItemType::Food, 10);
    assert!(inv.use_food(15));
    assert_eq!(inv.get_quantity(ItemType::Food), 8);
    assert!(inv.use_food(30));
    assert_eq!(inv.get_quantity(ItemType::Food), 5);
    assert!(!inv.use_food(51));
    assert_eq!(inv.get_quantity(ItemType::Food), 5);
    assert!(inv.use_food(0));
    assert_eq!(inv.get_quantity(ItemType::Food), 5);
    assert!(inv.use_food(41));
    assert_eq!(inv.get_quantity(ItemType::Food), 0);
    assert_eq!(inv.get_all_items().len(), 0);
}

#[test]
fn use_food_largest_amount() {
    let mut inv = Inventory::new(20000);
    inv.add_item(ItemType::Food, 429496730);
    assert!(inv.use_food(u32::MAX));
    assert_eq!(inv.get_quantity(ItemType::Food), 0);
}

#[test]
fn use_ammunition_and_medical_supply() {
    let mut inv = Inventory::new(20000);
    inv.add_item(ItemType::Ammunition, 10);
    inv.add_item(ItemType::MedicalSupply, 1);
    assert!(inv.use_ammunition(4));
    assert_eq!(inv.get_quantity(ItemType::Ammunition), 6);
    assert!(!inv.use_ammunition(7));
    assert_eq!(inv.get_quantity(ItemType::Ammunition), 6);
    assert!(inv.use_medical_supply());
    assert!(!inv.use_medical_supply());
    assert_eq!(inv.get_quantity(ItemType::MedicalSupply), 0);
}

#[test]
fn item_totals() {
    let it = Item::new(ItemType::SpareWheel, 3, 150, 10);
    assert_eq!(it.total_weight(), 450);
    assert_eq!(it.total_cost(), 30);
    let big = Item::new(ItemType::OxenPair, u32::MAX, 5000, u32::MAX);
    assert_eq!(big.total_cost(), u32::MAX as u64 * u32::MAX as u64);
}

#[test]
fn catalog_values() {
    let weights: Vec<u32> = ALL_KINDS.iter().map(|k| catalog_weight(*k)).collect();
    assert_eq!(weights, vec![10, 20, 1, 5000, 150, 100, 80, 5]);
    let costs: Vec<u32> = ALL_KINDS.iter().map(|k| catalog_cost(*k)).collect();
    assert_eq!(costs, vec![2, 10, 2, 40, 10, 8, 6, 15]);
}
