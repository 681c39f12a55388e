use swg::app::{App, SelectionChange, SelectionCursor, SelectionMode};
use swg::coords::{cartesian_to_hex, hex_to_cartesian};
use swg::model::{CoreError, Planet, Sector, System, World};
use swg::starfield::generate_starfield;

fn sector(name: &str, columns: u8, rows: u8) -> Sector {
    Sector {
        attributes: None,
        columns,
        rows,
        created: None,
        creator: None,
        name: name.to_string(),
        updated: None,
    }
}

fn system(name: &str, parent: &str, x: u8, y: u8) -> System {
    System {
        attributes: None,
        created: None,
        creator: None,
        is_hidden: false,
        name: name.to_string(),
        parent: parent.to_string(),
        parent_entity: "sector".to_string(),
        updated: None,
        x,
        y,
    }
}

fn planet(name: &str, parent: &str) -> Planet {
    Planet {
        attributes: None,
        created: None,
        creator: None,
        is_hidden: false,
        name: name.to_string(),
        parent: parent.to_string(),
        parent_entity: "system".to_string(),
        updated: None,
    }
}

fn simple_world(name: &str, columns: u8, rows: u8) -> World {
    World::new(
        vec![("sec-1".to_string(), sector(name, columns, rows))],
        vec![],
        vec![],
        vec![],
    )
}

#[test]
fn coordinate_round_trip_over_whole_grid() {
    let columns: u8 = 5;
    let rows: u8 = 4;
    for x in 1..=columns {
        for y in 1..=rows {
            let c = hex_to_cartesian(rows, (x, y));
            assert_eq!(cartesian_to_hex(rows, c), (x, y));
        }
    }
}

#[test]
fn coordinate_transform_exact_values() {
    // Odd column: staggered half a row up. 1 plot unit = 1000 milli-units.
    assert_eq!(hex_to_cartesian(3, (1, 1)), (500, 2750));
    // Even column: no stagger.
    assert_eq!(hex_to_cartesian(3, (2, 3)), (1500, 250));
    assert_eq!(cartesian_to_hex(3, (500, 2750)), (1, 1));
    assert_eq!(cartesian_to_hex(3, (1500, 250)), (2, 3));
}

#[test]
fn cursor_clamps_at_low_edge() {
    let world = simple_world("Clamp", 3, 3);
    let mut app = App::new(world).unwrap();
    assert_eq!(app.cursor(), (1, 1));
    for _ in 0..5 {
        app.move_selection(SelectionChange::LEFT);
        app.move_selection(SelectionChange::UP);
        assert_eq!(app.cursor(), (1, 1));
    }
}

#[test]
fn cursor_clamps_at_high_edge() {
    let world = simple_world("Clamp", 3, 2);
    let mut app = App::new(world).unwrap();
    // Walk to the far corner.
    for _ in 0..4 {
        app.move_selection(SelectionChange::RIGHT);
        app.move_selection(SelectionChange::DOWN);
    }
    assert_eq!(app.cursor(), (3, 2));
    for _ in 0..5 {
        app.move_selection(SelectionChange::RIGHT);
        app.move_selection(SelectionChange::DOWN);
        assert_eq!(app.cursor(), (3, 2));
    }
}

#[test]
fn mode_cycle_returns_to_map_after_three() {
    let world = simple_world("Cycle", 2, 2);
    let mut app = App::new(world).unwrap();
    assert_eq!(app.selection_mode(), SelectionMode::MAP);
    app.toggle_selection_mode();
    assert_eq!(app.selection_mode(), SelectionMode::SYSTEM);
    app.toggle_selection_mode();
    assert_eq!(app.selection_mode(), SelectionMode::OBJECTS);
    app.toggle_selection_mode();
    assert_eq!(app.selection_mode(), SelectionMode::MAP);
}

#[test]
fn movement_ignored_outside_map_mode() {
    let world = simple_world("Frozen", 3, 3);
    let mut app = App::new(world).unwrap();
    app.toggle_selection_mode();
    app.move_selection(SelectionChange::RIGHT);
    app.move_selection(SelectionChange::DOWN);
    assert_eq!(app.cursor(), (1, 1));
    app.toggle_selection_mode();
    app.move_selection(SelectionChange::RIGHT);
    assert_eq!(app.cursor(), (1, 1));
    app.toggle_selection_mode();
    app.move_selection(SelectionChange::RIGHT);
    assert_eq!(app.cursor(), (2, 1));
}

#[test]
fn starfield_deterministic_for_same_name() {
    let a = App::new(simple_world("Twin", 4, 3)).unwrap();
    let b = App::new(simple_world("Twin", 4, 3)).unwrap();
    // ceil(3 * 4 * 1.6) = ceil(19.2) = 20
    assert_eq!(a.starfield().len(), 20);
    assert_eq!(a.starfield(), b.starfield());
}

#[test]
fn starfield_differs_for_different_name() {
    let a = App::new(simple_world("Alpha", 4, 3)).unwrap();
    let b = App::new(simple_world("Omega", 4, 3)).unwrap();
    assert_eq!(a.starfield().len(), b.starfield().len());
    assert_ne!(a.starfield(), b.starfield());
}

#[test]
fn starfield_points_stay_within_bounds() {
    let rows: u8 = 3;
    let columns: u8 = 4;
    let app = App::new(simple_world("Bounds", columns, rows)).unwrap();
    for &(px, py) in app.starfield() {
        assert!(px >= -1000 && px <= (rows as i32 + 1) * 1000);
        assert!(py >= -1000 && py <= (columns as i32 + 1) * 1000);
    }
}

#[test]
fn starfield_generator_is_a_function_of_the_seed() {
    let first = generate_starfield("Nebula", 16, 4000, 5000);
    let again = generate_starfield("Nebula", 16, 4000, 5000);
    let other = generate_starfield("Quasar", 16, 4000, 5000);
    assert_eq!(first.len(), 16);
    assert_eq!(first, again);
    assert_ne!(first, other);
}

#[test]
fn black_hole_wins_shared_cell() {
    let world = World::new(
        vec![("sec-1".to_string(), sector("Collision", 3, 3))],
        vec![("sys-1".to_string(), system("Sol", "sec-1", 2, 2))],
        vec![("bh-1".to_string(), system("Gargantua", "sec-1", 2, 2))],
        vec![],
    );
    let app = App::new(world).unwrap();
    let occupant = app.occupant_at(2, 2).unwrap().unwrap();
    assert_eq!(occupant.name, "Gargantua");
}

#[test]
fn later_system_wins_shared_cell() {
    let world = World::new(
        vec![("sec-1".to_string(), sector("Rewrite", 3, 3))],
        vec![
            ("sys-1".to_string(), system("First", "sec-1", 3, 1)),
            ("sys-2".to_string(), system("Second", "sec-1", 3, 1)),
        ],
        vec![],
        vec![],
    );
    let app = App::new(world).unwrap();
    let occupant = app.occupant_at(3, 1).unwrap().unwrap();
    assert_eq!(occupant.name, "Second");
}

#[test]
fn hexagon_outline_has_seven_points_closed_and_bounded() {
    let world = simple_world("Hex", 3, 3);
    let app = App::new(world).unwrap();
    let outline = app.selection(SelectionCursor::HEX);
    assert_eq!(outline.len(), 7);
    assert_eq!(outline[0], outline[6]);
    let center = app.selection(SelectionCursor::BLOCK);
    assert_eq!(center.len(), 1);
    let (cx, cy) = center[0];
    let radius = (std::f64::consts::PI / 6.0).cos();
    for &(px, py) in &outline {
        let dx = (px - cx) as f64 / 1000.0;
        let dy = (py - cy) as f64 / 1000.0;
        assert!((dx * dx + dy * dy).sqrt() <= radius + 1e-9);
    }
}

#[test]
fn block_selection_is_the_cursor_center() {
    let world = simple_world("Block", 3, 3);
    let mut app = App::new(world).unwrap();
    app.move_selection(SelectionChange::RIGHT);
    let rows = app.sector().rows;
    let center = app.selection(SelectionCursor::BLOCK);
    assert_eq!(center, vec![hex_to_cartesian(rows, (2, 1))]);
}

#[test]
fn end_to_end_alpha_sector() {
    let world = World::new(
        vec![("sec-1".to_string(), sector("Alpha", 3, 3))],
        vec![("sys-1".to_string(), system("Sol", "sec-1", 2, 2))],
        vec![],
        vec![planet("Terra", "sys-1")].into_iter().map(|p| ("pl-1".to_string(), p)).collect(),
    );
    let mut app = App::new(world).unwrap();

    app.move_selection(SelectionChange::RIGHT);
    app.move_selection(SelectionChange::DOWN);
    assert_eq!(app.cursor(), (2, 2));

    let sol = app.selected_system().expect("a system at the cursor");
    assert_eq!(sol.name, "Sol");

    let children = app.world().child_planets(sol).expect("Sol is in the store");
    assert_eq!(children.len(), 1);
    assert_eq!(children[0].name, "Terra");

    app.move_selection(SelectionChange::LEFT);
    app.move_selection(SelectionChange::UP);
    assert_eq!(app.cursor(), (1, 1));
    assert!(app.selected_system().is_none());
}

#[test]
fn missing_sector_aborts_construction() {
    let world = World::new(vec![], vec![], vec![], vec![]);
    match App::new(world) {
        Err(CoreError::MissingSector) => {},
        _ => panic!("expected MissingSector"),
    }
}

#[test]
fn occupant_query_out_of_bounds() {
    let app = App::new(simple_world("Edge", 3, 3)).unwrap();
    assert_eq!(app.occupant_at(0, 1), Err(CoreError::OutOfBounds));
    assert_eq!(app.occupant_at(1, 4), Err(CoreError::OutOfBounds));
    assert!(app.occupant_at(3, 3).is_ok());
}

#[test]
fn unknown_id_for_absent_system() {
    let world = World::new(
        vec![("sec-1".to_string(), sector("Ids", 3, 3))],
        vec![("sys-1".to_string(), system("Sol", "sec-1", 1, 1))],
        vec![],
        vec![],
    );
    assert!(world.parent_system("sys-1").is_ok());
    match world.parent_system("sys-9") {
        Err(CoreError::UnknownId) => {},
        _ => panic!("expected UnknownId"),
    }
    assert!(world.parent_planet("pl-9").is_none());
}

#[test]
fn child_planets_filters_by_parent_and_tag() {
    let mut not_a_child = planet("Rogue", "sys-1");
    not_a_child.parent_entity = "sector".to_string();
    let world = World::new(
        vec![("sec-1".to_string(), sector("Family", 3, 3))],
        vec![
            ("sys-1".to_string(), system("Sol", "sec-1", 1, 1)),
            ("sys-2".to_string(), system("Vega", "sec-1", 2, 2)),
        ],
        vec![],
        vec![
            ("pl-1".to_string(), planet("Terra", "sys-1")),
            ("pl-2".to_string(), planet("Mars", "sys-1")),
            ("pl-3".to_string(), planet("Lyra", "sys-2")),
            ("pl-4".to_string(), not_a_child),
        ],
    );
    let sol = system("Sol", "sec-1", 1, 1);
    let children = world.child_planets(&sol).expect("Sol is stored");
    let names: Vec<&str> = children.iter().map(|p| p.name.as_str()).collect();
    assert_eq!(names, vec!["Terra", "Mars"]);

    let stranger = system("Nemesis", "sec-1", 3, 3);
    assert!(world.child_planets(&stranger).is_none());
}

#[test]
fn system_value_equality_includes_attributes() {
    let plain = system("Sol", "sec-1", 1, 1);
    let mut tagged = system("Sol", "sec-1", 1, 1);
    tagged.attributes = Some(serde_json::Value::String("tagged".to_string()));
    assert!(plain.equals(&system("Sol", "sec-1", 1, 1)));
    assert!(!plain.equals(&tagged));
    assert!(tagged.equals(&tagged.duplicate()));
}

#[test]
fn world_snapshots_report_all_entities() {
    let world = World::new(
        vec![("sec-1".to_string(), sector("Census", 4, 4))],
        vec![
            ("sys-1".to_string(), system("Sol", "sec-1", 1, 1)),
            ("sys-2".to_string(), system("Vega", "sec-1", 2, 3)),
        ],
        vec![("bh-1".to_string(), system("Gargantua", "sec-1", 4, 4))],
        vec![("pl-1".to_string(), planet("Terra", "sys-1"))],
    );
    assert_eq!(world.sector().unwrap().name, "Census");
    assert_eq!(world.systems().len(), 2);
    assert_eq!(world.black_holes().len(), 1);
    assert_eq!(world.planets().len(), 1);

    let app = App::new(world).unwrap();
    let sys_coords = app.system_coords();
    let rows = app.sector().rows;
    assert_eq!(sys_coords.len(), 2);
    assert_eq!(sys_coords[0], hex_to_cartesian(rows, (1, 1)));
    assert_eq!(sys_coords[1], hex_to_cartesian(rows, (2, 3)));
    let bh_coords = app.black_hole_coords();
    assert_eq!(bh_coords, vec![hex_to_cartesian(rows, (4, 4))]);
}

#[test]
fn selected_system_sees_hidden_occupants() {
    let mut ghost_system = system("Phantom", "sec-1", 1, 1);
    ghost_system.is_hidden = true;
    let world = World::new(
        vec![("sec-1".to_string(), sector("Veil", 2, 2))],
        vec![("sys-1".to_string(), ghost_system)],
        vec![],
        vec![],
    );
    let app = App::new(world).unwrap();
    let found = app.selected_system().expect("occupant at (1,1)");
    assert!(found.is_hidden);
    assert_eq!(found.name, "Phantom");
}
