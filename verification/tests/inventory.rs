use replication::item::{Error, Inventory, Item, SlotIndex};

#[test]
fn character_inventory_has_weapon_slot_and_grid() {
    let inv = Inventory::character();
    assert_eq!(inv.rows(), 6);
    assert_eq!(inv.columns(), 2);
    assert_eq!(inv.slot(&SlotIndex::Reserved(Item::Weapon)), Ok(None));
    for row in 0..6 {
        for col in 0..2 {
            assert_eq!(inv.slot(&SlotIndex::Loose(row, col)), Ok(None));
        }
    }
}

#[test]
fn slot_rejects_index_outside_universe() {
    let inv = Inventory::character();
    assert_eq!(inv.slot(&SlotIndex::Loose(6, 0)), Err(Error::InvalidSlotIndex));
    assert_eq!(inv.slot(&SlotIndex::Loose(0, 2)), Err(Error::InvalidSlotIndex));
    let loose_only = Inventory::new_loose(2, 2);
    assert_eq!(
        loose_only.slot(&SlotIndex::Reserved(Item::Weapon)),
        Err(Error::InvalidSlotIndex)
    );
}

#[test]
fn weapon_takes_reserved_slot_first() {
    // an empty Reserved(Weapon) slot always wins over the loose grid
    let mut inv = Inventory::character();
    assert_eq!(inv.insert(7, &Item::Weapon), Ok(SlotIndex::Reserved(Item::Weapon)));
    assert_eq!(inv.slot(&SlotIndex::Reserved(Item::Weapon)), Ok(Some(7)));
    // a second weapon falls through to the loose grid
    assert_eq!(inv.insert(8, &Item::Weapon), Ok(SlotIndex::Loose(0, 0)));
}

#[test]
fn misc_fills_loose_grid_in_row_major_order() {
    let mut inv = Inventory::character();
    assert_eq!(inv.insert(1, &Item::Misc), Ok(SlotIndex::Loose(0, 0)));
    assert_eq!(inv.insert(2, &Item::Misc), Ok(SlotIndex::Loose(0, 1)));
    assert_eq!(inv.insert(3, &Item::Misc), Ok(SlotIndex::Loose(1, 0)));
    assert_eq!(inv.slot(&SlotIndex::Reserved(Item::Weapon)), Ok(None));
}

#[test]
fn insert_skips_occupied_slots() {
    let mut inv = Inventory::new_loose(2, 2);
    assert_eq!(inv.insert_loose(1), Ok(SlotIndex::Loose(0, 0)));
    assert_eq!(inv.clear(&SlotIndex::Loose(0, 0)), Ok(Some(1)));
    assert_eq!(inv.insert_loose(2), Ok(SlotIndex::Loose(0, 0)));
    assert_eq!(inv.insert_loose(3), Ok(SlotIndex::Loose(0, 1)));
}

#[test]
fn full_loose_inventory_rejects_next_insert() {
    // C x R successful inserts, no clears: the next insert fails
    let mut inv = Inventory::new_loose(2, 2);
    for id in 0..4u32 {
        assert!(inv.insert(id, &Item::Misc).is_ok());
    }
    assert_eq!(inv.insert(99, &Item::Misc), Err(Error::InventoryFull));
    assert_eq!(inv.insert_loose(99), Err(Error::InventoryFull));
}

#[test]
fn clear_returns_previous_occupant() {
    let mut inv = Inventory::new_loose(1, 2);
    assert_eq!(inv.insert_loose(42), Ok(SlotIndex::Loose(0, 0)));
    assert_eq!(inv.clear(&SlotIndex::Loose(0, 0)), Ok(Some(42)));
    // clearing an already-empty slot succeeds and reports emptiness
    assert_eq!(inv.clear(&SlotIndex::Loose(0, 0)), Ok(None));
    // only an index outside the universe fails
    assert_eq!(inv.clear(&SlotIndex::Loose(1, 0)), Err(Error::InvalidSlotIndex));
}

#[test]
fn every_slot_stays_queryable_after_operations() {
    // inserts and clears never make a slot of the universe go missing
    let mut inv = Inventory::character();
    let _ = inv.insert(1, &Item::Misc);
    let _ = inv.insert(2, &Item::Weapon);
    let _ = inv.clear(&SlotIndex::Loose(0, 0));
    let _ = inv.insert(3, &Item::Misc);
    let _ = inv.clear(&SlotIndex::Reserved(Item::Weapon));
    assert!(inv.slot(&SlotIndex::Reserved(Item::Weapon)).is_ok());
    for row in 0..6 {
        for col in 0..2 {
            assert!(inv.slot(&SlotIndex::Loose(row, col)).is_ok());
        }
    }
}

#[test]
fn occupant_ids_lists_reserved_then_loose() {
    let mut inv = Inventory::character();
    let _ = inv.insert(10, &Item::Misc);
    let _ = inv.insert(20, &Item::Weapon);
    let _ = inv.insert(30, &Item::Misc);
    assert_eq!(inv.occupant_ids(), vec![20, 10, 30]);
}

#[test]
fn loose_and_reserved_enumerations() {
    let mut inv = Inventory::character();
    let _ = inv.insert(5, &Item::Misc);
    let loose = inv.loose();
    assert_eq!(loose.len(), 12);
    assert_eq!(loose[0], (SlotIndex::Loose(0, 0), Some(5)));
    assert_eq!(loose[1], (SlotIndex::Loose(0, 1), None));
    assert_eq!(loose[11], (SlotIndex::Loose(5, 1), None));
    let reserved = inv.reserved();
    assert_eq!(reserved, vec![(SlotIndex::Reserved(Item::Weapon), None)]);
}

#[test]
fn slot_index_kind_predicates() {
    assert!(SlotIndex::Reserved(Item::Weapon).is_reserved());
    assert!(!SlotIndex::Reserved(Item::Weapon).is_loose());
    assert!(SlotIndex::Loose(0, 0).is_loose());
    assert!(!SlotIndex::Loose(0, 0).is_reserved());
    assert_eq!(<SlotIndex as Default>::default(), SlotIndex::Loose(0, 0));
    assert_eq!(<Item as Default>::default(), Item::Misc);
}

#[test]
fn duplicate_preserves_contents() {
    let mut inv = Inventory::character();
    let _ = inv.insert(77, &Item::Misc);
    let copy = inv.duplicate();
    assert_eq!(copy.slot(&SlotIndex::Loose(0, 0)), Ok(Some(77)));
    assert_eq!(copy, inv);
}

#[test]
fn default_inventory_is_empty_and_well_formed() {
    let mut inv = <Inventory as Default>::default();
    assert!(inv.is_wf());
    assert_eq!(inv.rows(), 0);
    assert_eq!(inv.columns(), 0);
    assert_eq!(inv.insert(1, &Item::Misc), Err(Error::InventoryFull));
    assert!(Inventory::character().is_wf());
}

#[test]
fn plain_items_never_take_a_reserved_slot() {
    // even in an inventory that holds a reserved slot for the plain kind,
    // a plain item is ineligible for it and goes to the loose grid
    let mut inv = Inventory::from_parts(vec![(Item::Misc, None)], 1, 1, vec![None]);
    assert_eq!(inv.insert(5, &Item::Misc), Ok(SlotIndex::Loose(0, 0)));
    assert_eq!(inv.slot(&SlotIndex::Reserved(Item::Misc)), Ok(None));
    // with the grid full it is rejected rather than put in the reserved slot
    assert_eq!(inv.insert(6, &Item::Misc), Err(Error::InventoryFull));
}
