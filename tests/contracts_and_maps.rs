use picnic::contract::{Contract, ContractSystem, ItemRequirement};
use picnic::editor::{EditorMode, EditorState};
use picnic::grid::{EntityType, GameGrid, ItemType, Position, Tile, TileKind};
use picnic::inventory::{CarryCapacity, Inventory};
use picnic::item::Item;
use picnic::map_data::{MapData, MapError, PlacedEntity, PlacedGroundItems, SerializableEntityType, SerializableTileKind};
use picnic::session::Session;
use picnic::zone::{Zone, ZoneEntity};

fn pos(x: i32, y: i32) -> Position {
    Position { x, y }
}

#[test]
fn fully_empty_contract_completes_once_carried() {
    let mut contracts = ContractSystem::default();
    let mut inv = Inventory::new();
    let status = contracts.validate_contracts(&inv);
    assert_eq!(status.len(), 1);
    assert!(!status[0].completed);
    assert_eq!(status[0].description, "Bring back one Fully Empty from the Zone");
    inv.add_item(Item::of_type(ItemType::FullyEmpty));
    let status = contracts.validate_contracts(&inv);
    assert!(status[0].completed);
    assert!(contracts.active_contracts[0].completed);
}

#[test]
fn every_requirement_must_be_met_and_reset_clears() {
    let mut contracts = ContractSystem {
        active_contracts: vec![Contract {
            id: "c2".to_string(),
            description: "two scrap and a jar".to_string(),
            requirements: vec![
                ItemRequirement { item_name: "Scrap".to_string(), quantity: 2 },
                ItemRequirement { item_name: "Glass Jar".to_string(), quantity: 1 },
            ],
            completed: false,
        }],
    };
    let mut inv = Inventory::new();
    inv.add_item(Item::of_type(ItemType::Scrap));
    inv.add_item(Item::of_type(ItemType::GlassJar));
    assert!(!contracts.validate_contracts(&inv)[0].completed);
    inv.add_item(Item::of_type(ItemType::Scrap));
    assert!(contracts.validate_contracts(&inv)[0].completed);
    contracts.reset();
    assert!(!contracts.active_contracts[0].completed);
    assert_eq!(contracts.active_contracts[0].requirements.len(), 2);
}

#[test]
fn exit_report_and_restart() {
    let mut zone = Zone::new(GameGrid::new_empty(5, 5));
    zone.entities.push(ZoneEntity { entity_type: EntityType::PlayerStart, pos: pos(1, 1) });
    let mut s = Session::start(zone, CarryCapacity::default(), ContractSystem::default()).unwrap();
    s.player.inventory.add_item(Item::of_type(ItemType::FullyEmpty));
    let report = s.exit_report();
    assert!(report[0].completed);
    s.turn.0 = 9;
    s.prepare_restart_system();
    assert!(!s.contracts.active_contracts[0].completed);
    assert_eq!(s.turn.0, 0);
    assert!(s.log.is_empty());
}

fn sample_zone() -> Zone {
    let mut zone = Zone::new(GameGrid::new_empty(6, 4));
    zone.grid.set_tile(2, 1, Tile::new(TileKind::Wall));
    zone.grid.set_tile(5, 3, Tile::new(TileKind::Wall));
    assert!(zone.place_entity(EntityType::PlayerStart, pos(0, 0)));
    assert!(zone.place_entity(EntityType::GravitationalAnomaly, pos(3, 2)));
    assert!(!zone.place_entity(EntityType::Exit, pos(3, 2)));
    assert!(!zone.place_entity(EntityType::Exit, pos(6, 0)));
    assert!(zone.place_entity(EntityType::Exit, pos(5, 0)));
    zone.add_ground_item(pos(1, 3), Item::of_type(ItemType::Scrap));
    zone.add_ground_item(pos(4, 0), Item::of_type(ItemType::Bolt));
    zone.add_ground_item(pos(1, 3), Item::of_type(ItemType::Battery));
    zone
}

fn names(zone: &Zone, p: Position) -> Vec<String> {
    match zone.find_pile(p) {
        Some(i) => zone.ground[i].items.items.iter().map(|it| it.name.clone()).collect(),
        None => Vec::new(),
    }
}

#[test]
fn save_then_load_reproduces_the_zone() {
    let zone = sample_zone();
    let map = zone.to_map_data();
    assert_eq!((map.width, map.height), (6, 4));
    assert_eq!(map.terrain[1][2], SerializableTileKind::Wall);
    assert_eq!(map.entities.len(), 3);
    assert_eq!(map.items.len(), 2);
    let loaded = map.to_zone().unwrap();
    for y in 0..4 {
        for x in 0..6 {
            assert_eq!(loaded.grid.get_tile(x, y).unwrap().kind, zone.grid.get_tile(x, y).unwrap().kind);
        }
    }
    assert_eq!(loaded.entities, zone.entities);
    for y in 0..4 {
        for x in 0..6 {
            assert_eq!(names(&loaded, pos(x, y)), names(&zone, pos(x, y)));
        }
    }
    assert_eq!(names(&loaded, pos(1, 3)), vec!["Scrap", "Battery"]);
}

#[test]
fn load_merges_records_and_fills_missing_terrain() {
    let map = MapData {
        width: 3,
        height: 2,
        terrain: vec![vec![SerializableTileKind::Wall]],
        entities: vec![PlacedEntity { entity_type: SerializableEntityType::LampPost, x: 2, y: 1 }],
        items: vec![
            PlacedGroundItems { x: 1, y: 1, items: vec![Item::of_type(ItemType::Scrap)] },
            PlacedGroundItems { x: 0, y: 1, items: vec![] },
            PlacedGroundItems { x: 1, y: 1, items: vec![Item::of_type(ItemType::Bolt)] },
        ],
    };
    let zone = map.to_zone().unwrap();
    assert_eq!(zone.grid.get_tile(0, 0).unwrap().kind, TileKind::Wall);
    assert_eq!(zone.grid.get_tile(1, 0).unwrap().kind, TileKind::Floor);
    assert_eq!(zone.grid.get_tile(2, 1).unwrap().kind, TileKind::Floor);
    assert_eq!(zone.entities, vec![ZoneEntity { entity_type: EntityType::LampPost, pos: pos(2, 1) }]);
    assert_eq!(zone.ground.len(), 1);
    assert_eq!(names(&zone, pos(1, 1)), vec!["Scrap", "Bolt"]);
    let grid = map.to_game_grid();
    assert_eq!(grid.get_tile(0, 0).unwrap().move_cost, i32::MAX);
}

#[test]
fn load_errors() {
    let empty = |w: usize, h: usize| MapData { width: w, height: h, terrain: vec![], entities: vec![], items: vec![] };
    assert_eq!(empty(i32::MAX as usize + 1, 1).to_zone().err(), Some(MapError::TooLarge));
    let mut m = empty(2, 2);
    m.entities.push(PlacedEntity { entity_type: SerializableEntityType::Exit, x: 2, y: 0 });
    assert_eq!(m.to_zone().err(), Some(MapError::EntityOutOfBounds));
    let mut m = empty(2, 2);
    m.items.push(PlacedGroundItems { x: 0, y: 5, items: vec![Item::of_type(ItemType::Bolt)] });
    assert_eq!(m.to_zone().err(), Some(MapError::ItemsOutOfBounds));
}

#[test]
fn tag_conversions_round_trip() {
    for k in [TileKind::Floor, TileKind::Wall] {
        assert_eq!(TileKind::from(SerializableTileKind::from(k)), k);
    }
    let all = [
        EntityType::GravitationalAnomaly,
        EntityType::PhilosopherStone,
        EntityType::RustAnomaly,
        EntityType::PlayerStart,
        EntityType::Exit,
        EntityType::LampPost,
    ];
    for t in all {
        assert_eq!(EntityType::from(SerializableEntityType::from(t)), t);
    }
    assert_eq!(SerializableEntityType::from(EntityType::Exit), SerializableEntityType::Exit);
}

#[test]
fn editor_clicks() {
    let mut zone = sample_zone();
    let mut editor = EditorState::default();
    assert_eq!(editor.mode, EditorMode::Terrain);
    editor.select(2);
    assert_eq!(editor.selected_terrain, TileKind::Wall);
    assert!(zone.editor_place(&editor, 0, 3));
    assert_eq!(zone.grid.get_tile(0, 3).unwrap().kind, TileKind::Wall);
    assert!(!zone.editor_place(&editor, 9, 9));
    assert!(zone.editor_clear(EditorMode::Terrain, 0, 3));
    assert_eq!(zone.grid.get_tile(0, 3).unwrap().kind, TileKind::Floor);

    editor.mode = editor.mode.next();
    assert_eq!(editor.mode, EditorMode::Entity);
    editor.select(3);
    assert_eq!(editor.selected_entity, EntityType::RustAnomaly);
    assert!(zone.editor_place(&editor, 1, 1));
    assert!(!zone.editor_place(&editor, 1, 1));
    assert!(zone.editor_clear(EditorMode::Entity, 1, 1));
    assert!(!zone.editor_clear(EditorMode::Entity, 1, 1));

    editor.mode = editor.mode.next();
    editor.select(4);
    assert_eq!(editor.selected_item, ItemType::Battery);
    editor.select(9);
    assert_eq!(editor.selected_item, ItemType::Battery);
    assert!(zone.editor_place(&editor, 4, 0));
    assert_eq!(names(&zone, pos(4, 0)), vec!["Bolt", "Battery"]);
    assert!(zone.editor_clear(EditorMode::Item, 4, 0));
    assert!(names(&zone, pos(4, 0)).is_empty());
    assert_eq!(names(&zone, pos(1, 3)), vec!["Scrap", "Battery"]);
    assert_eq!(editor.mode.next(), EditorMode::Terrain);
}
