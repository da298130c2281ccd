use picnic::actions::{move_selection, BoltStop};
use picnic::contract::ContractSystem;
use picnic::grid::{EntityType, GameGrid, ItemType, Position, Tile, TileKind};
use picnic::inventory::{CarryCapacity, LastMoveDirection};
use picnic::item::Item;
use picnic::session::{MoveResult, Session, SetupError};
use picnic::turn::{resolve_transition, GravitationalAnomalyTimer, TurnPhase};
use picnic::zone::{Zone, ZoneEntity};
use rand::SeedableRng;
use rand_pcg::Pcg32;

fn pos(x: i32, y: i32) -> Position {
    Position { x, y }
}

fn zone_with(entities: &[(EntityType, i32, i32)]) -> Zone {
    let mut zone = Zone::new(GameGrid::new_empty(25, 25));
    for &(t, x, y) in entities {
        zone.entities.push(ZoneEntity { entity_type: t, pos: pos(x, y) });
    }
    zone
}

fn session_at(x: i32, y: i32, entities: &[(EntityType, i32, i32)]) -> Session {
    let mut all = vec![(EntityType::PlayerStart, x, y)];
    all.extend_from_slice(entities);
    let mut s = Session::start(zone_with(&all), CarryCapacity::default(), ContractSystem::default()).unwrap();
    assert_eq!(s.phase, TurnPhase::EnteringZone);
    s.close_enter_zone();
    assert_eq!(s.phase, TurnPhase::PlayerTurn);
    s
}

fn item(name: &str, weight: u32) -> Item {
    Item::new(name.to_string(), weight, None, false)
}

#[test]
fn start_without_player_start_fails() {
    let zone = zone_with(&[(EntityType::Exit, 1, 1)]);
    let r = Session::start(zone, CarryCapacity::default(), ContractSystem::default());
    assert_eq!(r.err(), Some(SetupError::NoPlayerStart));
}

#[test]
fn light_load_moves() {
    let mut s = session_at(5, 5, &[]);
    for w in [10, 5, 3] {
        s.player.inventory.add_item(item("thing", w));
    }
    assert_eq!(s.apply_move(LastMoveDirection::East), MoveResult::Moved);
    assert_eq!(s.player.pos, pos(6, 5));
    assert_eq!(s.last_direction, LastMoveDirection::East);
    assert_eq!(s.phase, TurnPhase::WorldUpdate);
}

#[test]
fn captured_and_heavy_is_blocked() {
    let mut s = session_at(5, 5, &[]);
    s.player.capture = Some(GravitationalAnomalyTimer(3));
    s.player.inventory.add_item(item("crate", 100));
    s.player.inventory.add_item(item("crate", 30));
    assert_eq!(s.apply_move(LastMoveDirection::North), MoveResult::Overweight);
    assert_eq!(s.player.pos, pos(5, 5));
    assert_eq!(s.phase, TurnPhase::PlayerTurn);
    // the same weight is fine once free
    s.player.capture = None;
    assert_eq!(s.apply_move(LastMoveDirection::North), MoveResult::Moved);
}

#[test]
fn overweight_blocks_every_direction() {
    let dirs = [LastMoveDirection::North, LastMoveDirection::South, LastMoveDirection::East, LastMoveDirection::West];
    for d in dirs {
        let mut s = session_at(5, 5, &[]);
        s.player.inventory.add_item(item("anvil", 251));
        assert_eq!(s.apply_move(d), MoveResult::Overweight);
        assert_eq!(s.player.pos, pos(5, 5));
    }
    for d in dirs {
        let mut s = session_at(5, 5, &[]);
        s.player.inventory.add_item(item("anvil", 250));
        assert_eq!(s.apply_move(d), MoveResult::Moved);
    }
}

#[test]
fn moves_refused_at_edge_wall_and_out_of_turn() {
    let mut s = session_at(0, 0, &[]);
    assert_eq!(s.apply_move(LastMoveDirection::West), MoveResult::OutOfBounds);
    assert_eq!(s.apply_move(LastMoveDirection::North), MoveResult::OutOfBounds);
    s.zone.grid.set_tile(1, 0, Tile::new(TileKind::Wall));
    assert_eq!(s.apply_move(LastMoveDirection::East), MoveResult::Wall);
    assert_eq!(s.player.pos, pos(0, 0));
    assert_eq!(s.apply_move(LastMoveDirection::South), MoveResult::Moved);
    assert_eq!(s.apply_move(LastMoveDirection::South), MoveResult::NotPlayerTurn);
    assert_eq!(s.player.pos, pos(0, 1));
}

#[test]
fn pull_lands_on_anomaly_with_timer_five() {
    let mut s = session_at(6, 5, &[(EntityType::GravitationalAnomaly, 5, 5)]);
    let mut events = Vec::new();
    s.gravitational_pull_system(&mut events);
    assert_eq!(s.player.pos, pos(5, 5));
    assert_eq!(s.player.capture, Some(GravitationalAnomalyTimer(5)));
    assert_eq!(events.len(), 2);
}

#[test]
fn full_tick_after_pull_counts_down_once() {
    let mut s = session_at(5, 6, &[(EntityType::GravitationalAnomaly, 5, 5)]);
    s.phase = TurnPhase::WorldUpdate;
    let mut rng = Pcg32::seed_from_u64(1);
    s.run_world_update(&mut rng);
    assert_eq!(s.player.pos, pos(5, 5));
    assert_eq!(s.player.capture, Some(GravitationalAnomalyTimer(4)));
    assert_eq!(s.phase, TurnPhase::PlayerTurn);
    assert_eq!(s.turn.0, 1);
}

#[test]
fn captured_player_is_not_pulled() {
    let mut s = session_at(6, 5, &[(EntityType::GravitationalAnomaly, 5, 5)]);
    s.player.capture = Some(GravitationalAnomalyTimer(3));
    let mut events = Vec::new();
    s.gravitational_pull_system(&mut events);
    assert_eq!(s.player.pos, pos(6, 5));
    assert_eq!(s.player.capture, Some(GravitationalAnomalyTimer(3)));
    assert!(events.is_empty());
}

#[test]
fn diagonal_or_distant_anomaly_does_not_pull() {
    let mut s = session_at(6, 6, &[(EntityType::GravitationalAnomaly, 5, 5), (EntityType::GravitationalAnomaly, 8, 6)]);
    let mut events = Vec::new();
    s.gravitational_pull_system(&mut events);
    assert_eq!(s.player.pos, pos(6, 6));
    assert!(s.player.capture.is_none());
}

#[test]
fn first_placed_anomaly_pulls() {
    let mut s = session_at(5, 5, &[(EntityType::GravitationalAnomaly, 5, 6), (EntityType::GravitationalAnomaly, 4, 5)]);
    let mut events = Vec::new();
    s.gravitational_pull_system(&mut events);
    assert_eq!(s.player.pos, pos(5, 6));
}

#[test]
fn timer_counts_down_in_range_and_is_removed_outside() {
    let mut s = session_at(5, 5, &[(EntityType::GravitationalAnomaly, 5, 5)]);
    s.player.capture = Some(GravitationalAnomalyTimer(3));
    let mut events = Vec::new();
    s.gravitational_timer_system(&mut events);
    assert_eq!(s.player.capture, Some(GravitationalAnomalyTimer(2)));
    s.player.pos = pos(5, 6);
    s.gravitational_timer_system(&mut events);
    assert_eq!(s.player.capture, Some(GravitationalAnomalyTimer(1)));
    s.player.pos = pos(5, 7);
    s.gravitational_timer_system(&mut events);
    assert_eq!(s.player.capture, None);
    assert_eq!(events.len(), 3);
}

#[test]
fn timer_reaching_zero_kills() {
    let mut s = session_at(5, 6, &[(EntityType::GravitationalAnomaly, 5, 5)]);
    s.player.capture = Some(GravitationalAnomalyTimer(1));
    s.phase = TurnPhase::WorldUpdate;
    let mut rng = Pcg32::seed_from_u64(3);
    let events = s.run_world_update(&mut rng);
    assert_eq!(s.player.capture, Some(GravitationalAnomalyTimer(0)));
    assert_eq!(s.phase, TurnPhase::PlayerDead);
    assert_eq!(events.last().unwrap(), "You are crushed to death!");
}

#[test]
fn escaping_on_last_turn_survives() {
    let mut s = session_at(5, 7, &[(EntityType::GravitationalAnomaly, 5, 5)]);
    s.player.capture = Some(GravitationalAnomalyTimer(1));
    s.phase = TurnPhase::WorldUpdate;
    let mut rng = Pcg32::seed_from_u64(3);
    s.run_world_update(&mut rng);
    assert_eq!(s.player.capture, None);
    assert_eq!(s.phase, TurnPhase::PlayerTurn);
}

#[test]
fn death_request_beats_player_turn() {
    assert_eq!(resolve_transition(&vec![TurnPhase::PlayerDead, TurnPhase::PlayerTurn]), TurnPhase::PlayerDead);
    assert_eq!(resolve_transition(&vec![TurnPhase::PlayerTurn]), TurnPhase::PlayerTurn);
    assert_eq!(resolve_transition(&vec![]), TurnPhase::PlayerTurn);
    assert_eq!(
        resolve_transition(&vec![TurnPhase::ExitingZone, TurnPhase::PlayerTurn]),
        TurnPhase::ExitingZone
    );
}

#[test]
fn update_outside_its_phase_does_nothing() {
    let mut s = session_at(6, 5, &[(EntityType::GravitationalAnomaly, 5, 5)]);
    let mut rng = Pcg32::seed_from_u64(9);
    let events = s.run_world_update(&mut rng);
    assert!(events.is_empty());
    assert_eq!(s.player.pos, pos(6, 5));
    assert_eq!(s.turn.0, 0);
}

#[test]
fn stone_on_scrap_never_gains_value() {
    for seed in 0..200u64 {
        let mut s = session_at(3, 3, &[(EntityType::PhilosopherStone, 3, 3)]);
        s.zone.add_ground_item(pos(3, 3), Item::of_type(ItemType::Scrap));
        let mut rng = Pcg32::seed_from_u64(seed);
        let mut events = Vec::new();
        s.philosopher_stone_system(&mut rng, &mut events);
        let pile = &s.zone.ground[0].items.items;
        assert_eq!(pile.len(), 1);
        let out = &pile[0];
        let allowed = ["Scrap", "Glass Jar", "Battery", "Rust Slag", "Fully Empty"];
        assert!(allowed.contains(&out.name.as_str()), "{}", out.name);
        assert!(out.name == "Fully Empty" || out.value.unwrap() <= 5);
        assert_eq!(events.len(), 1);
    }
}

#[test]
fn stone_exact_choice_and_rare_branch() {
    let mut s = session_at(3, 3, &[(EntityType::PhilosopherStone, 3, 3)]);
    s.zone.add_ground_item(pos(3, 3), Item::of_type(ItemType::Bolt));
    s.zone.add_ground_item(pos(3, 3), Item::of_type(ItemType::Scrap));
    let mut events = Vec::new();
    s.transmute_ground_item(1, false, 1, 0, &mut events);
    let names: Vec<&str> = s.zone.ground[0].items.items.iter().map(|i| i.name.as_str()).collect();
    assert_eq!(names, vec!["Bolt", "Glass Jar"]);
    assert_eq!(events[0], "The Scrap shimmers with impossible light and becomes Glass Jar.");
    s.transmute_ground_item(1, true, 0, 0, &mut events);
    let names: Vec<&str> = s.zone.ground[0].items.items.iter().map(|i| i.name.as_str()).collect();
    assert_eq!(names, vec!["Bolt", "Fully Empty"]);
}

#[test]
fn stone_leaves_tools_alone() {
    let mut s = session_at(3, 3, &[(EntityType::PhilosopherStone, 3, 3)]);
    s.zone.add_ground_item(pos(3, 3), Item::of_type(ItemType::Bolt));
    s.zone.add_ground_item(pos(3, 3), Item::of_type(ItemType::MetalDetector));
    let mut rng = Pcg32::seed_from_u64(5);
    let mut events = Vec::new();
    s.philosopher_stone_system(&mut rng, &mut events);
    let names: Vec<&str> = s.zone.ground[0].items.items.iter().map(|i| i.name.as_str()).collect();
    assert_eq!(names, vec!["Bolt", "Metal Detector"]);
    assert_eq!(events.len(), 1);
}

#[test]
fn rust_replaces_exactly_one_metal_item() {
    for seed in 0..100u64 {
        let mut s = session_at(2, 2, &[(EntityType::RustAnomaly, 2, 2)]);
        s.zone.add_ground_item(pos(2, 2), Item::of_type(ItemType::Scrap));
        s.zone.add_ground_item(pos(2, 2), Item::of_type(ItemType::Battery));
        s.player.inventory.add_item(Item::of_type(ItemType::MetalDetector));
        s.player.inventory.add_item(Item::of_type(ItemType::Bolt));
        let mut rng = Pcg32::seed_from_u64(seed);
        let mut events = Vec::new();
        s.rust_anomaly_system(&mut rng, &mut events);
        let ground: Vec<&str> = s.zone.ground[0].items.items.iter().map(|i| i.name.as_str()).collect();
        let pack: Vec<&str> = s.player.inventory.items.iter().map(|i| i.name.as_str()).collect();
        let slag = ground.iter().chain(pack.iter()).filter(|n| **n == "Rust Slag").count();
        assert_eq!(slag, 1);
        assert!(
            (ground == vec!["Battery", "Rust Slag"] && pack == vec!["Metal Detector", "Bolt"])
                || (ground == vec!["Scrap", "Battery"] && pack == vec!["Bolt", "Rust Slag"])
        );
        assert_eq!(events.len(), 1);
    }
}

#[test]
fn rust_without_metal_or_off_anomaly_is_quiet() {
    let mut s = session_at(2, 2, &[(EntityType::RustAnomaly, 2, 2)]);
    s.player.inventory.add_item(Item::of_type(ItemType::Battery));
    let mut rng = Pcg32::seed_from_u64(1);
    let mut events = Vec::new();
    s.rust_anomaly_system(&mut rng, &mut events);
    assert_eq!(s.player.inventory.items[0].name, "Battery");
    let mut t = session_at(2, 3, &[(EntityType::RustAnomaly, 2, 2)]);
    t.player.inventory.add_item(Item::of_type(ItemType::Scrap));
    t.rust_anomaly_system(&mut rng, &mut events);
    assert_eq!(t.player.inventory.items[0].name, "Scrap");
    assert!(events.is_empty());
}

#[test]
fn inspect_pickup_and_drop() {
    let mut s = session_at(4, 4, &[]);
    assert!(!s.open_inspect());
    s.zone.add_ground_item(pos(4, 4), Item::of_type(ItemType::Scrap));
    s.zone.add_ground_item(pos(4, 4), Item::of_type(ItemType::Battery));
    assert!(s.open_inspect());
    assert_eq!(s.phase, TurnPhase::InspectingItems);
    assert!(s.pickup(7).is_none());
    let got = s.pickup(0).unwrap();
    assert_eq!(got.name, "Scrap");
    assert_eq!(s.phase, TurnPhase::InspectingItems);
    assert_eq!(s.pickup(0).unwrap().name, "Battery");
    assert_eq!(s.phase, TurnPhase::PlayerTurn);
    assert!(s.zone.ground.is_empty());
    assert_eq!(s.player.inventory.count(), 2);

    assert!(!s.drop_item(0));
    s.open_inventory();
    assert_eq!(s.phase, TurnPhase::ViewingInventory);
    assert!(!s.drop_item(2));
    assert!(s.drop_item(1));
    assert_eq!(s.player.inventory.items[0].name, "Scrap");
    assert_eq!(s.zone.ground[0].pos, pos(4, 4));
    assert_eq!(s.zone.ground[0].items.items[0].name, "Battery");
    s.close_inventory();
    assert_eq!(s.phase, TurnPhase::WorldUpdate);
}

#[test]
fn closing_inspection_is_free() {
    let mut s = session_at(4, 4, &[]);
    s.zone.add_ground_item(pos(4, 4), Item::of_type(ItemType::Scrap));
    assert!(s.open_inspect());
    s.close_inspect();
    assert_eq!(s.phase, TurnPhase::PlayerTurn);
}

#[test]
fn exit_detection() {
    let mut s = session_at(4, 4, &[(EntityType::Exit, 4, 5)]);
    assert!(!s.detect_exit_system());
    assert_eq!(s.apply_move(LastMoveDirection::South), MoveResult::Moved);
    s.phase = TurnPhase::PlayerTurn;
    assert!(s.detect_exit_system());
    assert_eq!(s.phase, TurnPhase::ExitingZone);
}

#[test]
fn bolt_flies_and_lands() {
    let mut s = session_at(2, 2, &[(EntityType::RustAnomaly, 2, 5)]);
    assert!(!s.begin_bolt_throw());
    s.player.inventory.add_item(Item::of_type(ItemType::Bolt));
    s.player.inventory.add_item(Item::of_type(ItemType::Bolt));
    assert!(s.begin_bolt_throw());
    assert_eq!(s.phase, TurnPhase::ThrowingBolt);
    let landing = s.throw_bolt(LastMoveDirection::South).unwrap();
    assert_eq!(landing, (pos(2, 5), BoltStop::Anomaly(EntityType::RustAnomaly)));
    assert_eq!(s.phase, TurnPhase::WorldUpdate);
    assert_eq!(s.player.inventory.count_named(&"Bolt".to_string()), 1);
    assert_eq!(s.zone.ground[0].pos, pos(2, 5));

    s.phase = TurnPhase::ThrowingBolt;
    assert_eq!(s.throw_bolt(LastMoveDirection::East).unwrap(), (pos(7, 2), BoltStop::Range));
    assert!(s.throw_bolt(LastMoveDirection::East).is_none());

    let mut t = session_at(1, 1, &[]);
    t.zone.grid.set_tile(1, 3, Tile::new(TileKind::Wall));
    for _ in 0..2 {
        t.player.inventory.add_item(Item::of_type(ItemType::Bolt));
    }
    t.phase = TurnPhase::ThrowingBolt;
    assert_eq!(t.throw_bolt(LastMoveDirection::South).unwrap(), (pos(1, 2), BoltStop::Wall));
    t.phase = TurnPhase::ThrowingBolt;
    assert_eq!(t.throw_bolt(LastMoveDirection::West).unwrap(), (pos(0, 1), BoltStop::OutOfSight));
    t.phase = TurnPhase::ThrowingBolt;
    t.cancel_bolt_throw();
    assert_eq!(t.phase, TurnPhase::PlayerTurn);
}

#[test]
fn metal_detector_range() {
    let mut s = session_at(5, 5, &[]);
    s.zone.add_ground_item(pos(6, 6), Item::of_type(ItemType::Scrap));
    assert!(!s.metal_detected());
    s.player.inventory.add_item(Item::of_type(ItemType::MetalDetector));
    assert!(s.metal_detected());
    s.player.pos = pos(3, 6);
    assert!(!s.metal_detected());
}

#[test]
fn selection_stays_in_list() {
    assert_eq!(move_selection(0, 3, true), 1);
    assert_eq!(move_selection(2, 3, true), 2);
    assert_eq!(move_selection(0, 3, false), 0);
    assert_eq!(move_selection(2, 3, false), 1);
    assert_eq!(move_selection(4, 0, true), 4);
}

#[test]
fn timer_messages_are_exact() {
    let mut s = session_at(6, 5, &[(EntityType::GravitationalAnomaly, 5, 5)]);
    s.player.capture = Some(GravitationalAnomalyTimer(1));
    let mut events = Vec::new();
    s.gravitational_timer_system(&mut events);
    assert_eq!(events, vec!["Crushing pressure! 0 turns left!"]);
    s.player.capture = Some(GravitationalAnomalyTimer(124));
    s.gravitational_timer_system(&mut events);
    assert_eq!(events[1], "Crushing pressure! 123 turns left!");
    s.player.pos = pos(8, 5);
    s.gravitational_timer_system(&mut events);
    assert_eq!(events[2], "You break free from the anomaly!");
    s.gravitational_timer_system(&mut events);
    assert_eq!(events.len(), 3);
}

#[test]
fn pull_and_death_messages() {
    let mut s = session_at(6, 5, &[(EntityType::GravitationalAnomaly, 5, 5)]);
    let mut events = Vec::new();
    assert!(!s.death_check_system(&mut events));
    assert!(events.is_empty());
    s.gravitational_pull_system(&mut events);
    assert_eq!(events, vec!["Gravitational anomaly pulls you in!", "Immense pressure... 5 turns to escape!"]);
    s.player.capture = Some(GravitationalAnomalyTimer(0));
    assert!(s.death_check_system(&mut events));
    assert_eq!(events[2], "You are crushed to death!");
}

#[test]
fn tick_messages_in_order() {
    let mut s = session_at(6, 5, &[(EntityType::GravitationalAnomaly, 5, 5)]);
    s.phase = TurnPhase::WorldUpdate;
    let mut rng = Pcg32::seed_from_u64(11);
    let events = s.run_world_update(&mut rng);
    assert_eq!(
        events,
        vec![
            "Gravitational anomaly pulls you in!",
            "Immense pressure... 5 turns to escape!",
            "Crushing pressure! 4 turns left!",
        ]
    );
    assert_eq!(s.log.get_messages().last().unwrap(), "Crushing pressure! 4 turns left!");
}

#[test]
fn stone_and_rust_messages() {
    let idle = [
        "The anomaly pulses with strange energy, but the items remain unchanged.",
        "Reality shifts around you, but nothing happens.",
        "Strange forces swirl, then dissipate.",
        "You sense the anomaly trying to reshape what lies before you, but it cannot.",
    ];
    let mut s = session_at(3, 3, &[(EntityType::PhilosopherStone, 3, 3), (EntityType::RustAnomaly, 4, 3)]);
    let mut rng = Pcg32::seed_from_u64(2);
    let mut events = Vec::new();
    s.philosopher_stone_system(&mut rng, &mut events);
    assert!(events.is_empty());
    s.zone.add_ground_item(pos(3, 3), Item::of_type(ItemType::Bolt));
    s.philosopher_stone_system(&mut rng, &mut events);
    assert_eq!(events.len(), 1);
    assert!(idle.contains(&events[0].as_str()));
    s.transmute_ground_item(0, true, 0, 0, &mut Vec::new());

    let mut t = session_at(4, 3, &[(EntityType::RustAnomaly, 4, 3)]);
    let mut ev = Vec::new();
    t.rust_anomaly_system(&mut rng, &mut ev);
    assert!(ev.is_empty());
    t.zone.add_ground_item(pos(4, 3), Item::of_type(ItemType::Scrap));
    t.corrode(picnic::anomalies::MetalSource::Ground(0), 0, &mut ev);
    assert_eq!(
        ev[0],
        "The Scrap on the ground begins to rust rapidly before your very eyes. In an instant, it melts into a rusty glob."
    );
    t.player.inventory.add_item(Item::of_type(ItemType::MetalDetector));
    t.corrode(picnic::anomalies::MetalSource::Inventory(0), 7, &mut ev);
    assert_eq!(ev[1], "Something heavy settles differently at your side.");
    assert_eq!(t.player.inventory.items[0].name, "Rust Slag");
}

#[test]
fn transform_message_names_both_items() {
    let mut s = session_at(3, 3, &[(EntityType::PhilosopherStone, 3, 3)]);
    s.zone.add_ground_item(pos(3, 3), Item::of_type(ItemType::Battery));
    let mut events = Vec::new();
    s.transmute_ground_item(0, false, 0, 1, &mut events);
    assert_eq!(events[0], "Reality fractures. The Battery transforms into Glass Jar.");
    s.transmute_ground_item(0, true, 0, 1, &mut events);
    assert_eq!(events[1], "The fabric of reality tears. A Fully Empty materializes where Glass Jar once was.");
}
