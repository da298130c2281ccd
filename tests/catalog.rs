use picnic::anomalies::{transmutation_options, transmute};
use picnic::grid::{GameGrid, GameState, ItemType, Tile, TileKind};
use picnic::inventory::{CarryCapacity, Inventory, LastMoveDirection};
use picnic::item::{GroundItems, Item};
use picnic::message_log::MessageLog;

#[test]
fn test_all_item_variants_covered() {
    let variants = ItemType::all_variants();

    for variant in &variants {
        let item: Item = (*variant).into();
        assert!(!item.name.is_empty(), "Item name should not be empty for {:?}", variant);
    }

    assert_eq!(
        variants.len(),
        7,
        "Expected 7 ItemType variants. If you added a new variant, update this test and all_variants()"
    );

    let mut seen = std::collections::HashSet::new();
    for variant in &variants {
        assert!(seen.insert(variant), "Duplicate variant {:?} in all_variants()", variant);
    }
}

#[test]
fn catalog_table_matches() {
    let expect = [
        (ItemType::FullyEmpty, "Fully Empty", 100, Some(200), false),
        (ItemType::Scrap, "Scrap", 10, Some(5), true),
        (ItemType::GlassJar, "Glass Jar", 5, Some(2), false),
        (ItemType::Battery, "Battery", 3, Some(3), false),
        (ItemType::Bolt, "Bolt", 1, None, false),
        (ItemType::MetalDetector, "Metal Detector", 50, None, true),
        (ItemType::RustSlag, "Rust Slag", 5, Some(0), true),
    ];
    for (t, name, weight, value, metal) in expect {
        let item = Item::of_type(t);
        assert_eq!(item.name, name);
        assert_eq!(item.weight, weight);
        assert_eq!(item.value, value);
        assert_eq!(item.is_metal, metal);
    }
}

#[test]
fn total_weight_is_sum_and_empty_is_zero() {
    let mut inv = Inventory::new();
    assert_eq!(inv.total_weight(), 0);
    for w in [10u32, 5, 3] {
        inv.add_item(Item::new("x".to_string(), w, None, false));
    }
    assert_eq!(inv.total_weight(), 18);
    inv.add_item(Item::new("big".to_string(), u32::MAX, None, false));
    inv.add_item(Item::new("big".to_string(), u32::MAX, None, false));
    assert_eq!(inv.total_weight(), 18 + 2 * (u32::MAX as u128));
}

#[test]
fn inventory_remove_and_counts() {
    let mut inv = Inventory::new();
    inv.add_item(Item::of_type(ItemType::Bolt));
    inv.add_item(Item::of_type(ItemType::Scrap));
    inv.add_item(Item::of_type(ItemType::Bolt));
    assert_eq!(inv.count(), 3);
    assert_eq!(inv.count_named(&"Bolt".to_string()), 2);
    assert!(!inv.has_metal_detector());
    assert!(inv.remove_item(5).is_none());
    let removed = inv.remove_item(1).unwrap();
    assert_eq!(removed.name, "Scrap");
    assert_eq!(inv.count(), 2);
    inv.add_item(Item::of_type(ItemType::MetalDetector));
    assert!(inv.has_metal_detector());
    assert!(!inv.is_empty());
}

#[test]
fn ground_items_add_remove() {
    let mut g = GroundItems::new();
    assert!(g.is_empty());
    g.add_item(Item::of_type(ItemType::Battery));
    g.add_item(Item::of_type(ItemType::GlassJar));
    assert_eq!(g.count(), 2);
    assert!(g.remove_item(2).is_none());
    assert_eq!(g.remove_item(0).unwrap().name, "Battery");
    assert_eq!(g.items[0].name, "Glass Jar");
}

#[test]
fn transmutation_options_for_scrap_value() {
    // value 5: Scrap, Glass Jar, Battery and Rust Slag; never the valueless Bolt or detector
    let options = transmutation_options(5);
    assert_eq!(
        options,
        vec![ItemType::Scrap, ItemType::GlassJar, ItemType::Battery, ItemType::RustSlag]
    );
    assert_eq!(transmutation_options(0), vec![ItemType::RustSlag]);
    assert_eq!(transmutation_options(200).len(), 5);
    assert_eq!(transmute(5, true, 0), ItemType::FullyEmpty);
    assert_eq!(transmute(5, false, 2), ItemType::Battery);
}

#[test]
fn grid_tiles_and_bounds() {
    let mut grid = GameGrid::new_empty(4, 3);
    assert_eq!(grid.width, 4);
    assert_eq!(grid.height, 3);
    assert_eq!(grid.get_tile(3, 2).unwrap().kind, TileKind::Floor);
    assert_eq!(grid.get_tile(3, 2).unwrap().move_cost, 1);
    assert!(grid.get_tile(4, 0).is_none());
    assert!(grid.set_tile(1, 1, Tile::new(TileKind::Wall)));
    assert!(!grid.set_tile(1, 3, Tile::new(TileKind::Wall)));
    let wall = grid.get_tile(1, 1).unwrap();
    assert_eq!(wall.kind, TileKind::Wall);
    assert_eq!(wall.move_cost, i32::MAX);
}

#[test]
fn small_defaults() {
    let cap = CarryCapacity::default();
    assert_eq!((cap.normal, cap.in_gravity), (250, 125));
    assert_eq!(cap.effective(true), 125);
    assert_eq!(cap.effective(false), 250);
    assert_eq!(LastMoveDirection::default(), LastMoveDirection::North);
    assert_eq!(LastMoveDirection::North.offset(), (0, -1));
    assert_eq!(LastMoveDirection::South.offset(), (0, 1));
    assert_eq!(LastMoveDirection::East.offset(), (1, 0));
    assert_eq!(LastMoveDirection::West.offset(), (-1, 0));
    assert_eq!(GameState::default(), GameState::Editing);
    assert_eq!(GameState::Editing.toggled(), GameState::Running);
}

#[test]
fn message_log_keeps_five_newest() {
    let mut log = MessageLog::new();
    assert!(log.is_empty());
    for i in 0..7 {
        log.add_message(format!("m{}", i));
    }
    assert_eq!(log.len(), 5);
    let msgs = log.get_messages();
    assert_eq!(msgs, vec!["m2", "m3", "m4", "m5", "m6"]);
    log.clear();
    assert_eq!(log.len(), 0);
}
