use witch_of_erebus::entity::Entity;
use witch_of_erebus::entity::EntityType;
use witch_of_erebus::entity::Vector2;
use witch_of_erebus::module::Module;
use witch_of_erebus::module::UserModule;
use witch_of_erebus::scalar::SCALAR_ONE;
use witch_of_erebus::scalar::SCALAR_ZERO;
use witch_of_erebus::state::Change;
use witch_of_erebus::state::Color;
use witch_of_erebus::state::GlobalState;
use witch_of_erebus::state::WoeError;

fn ship_module() -> Module {
    Module::User(UserModule {
        name: String::from("ships"),
        entities: vec![EntityType { label: String::from("Ship"), texture: 11 }],
    })
}

fn empty_world() -> GlobalState {
    let modules = vec![ship_module()];
    GlobalState::new(&modules, 800, 600).unwrap()
}

fn ship_entity(x: u32, y: u32) -> Entity {
    Entity {
        entity_type: String::from("Ship"),
        translation: Vector2 { x, y },
        rotation: SCALAR_ZERO,
        scale: SCALAR_ONE,
    }
}

#[test]
fn new_world_is_empty_and_black() {
    let gs = empty_world();
    assert_eq!(gs.clear_color, Color { r: 0, g: 0, b: 0, a: 255 });
    assert_eq!(gs.loaded_entities.len(), 0);
    assert_eq!(gs.entities_by_name.len(), 1);
    assert_eq!(gs.entities_by_name[0].label, "Ship");
    assert_eq!(gs.window_width, 800);
    assert_eq!(gs.window_height, 600);
}

#[test]
fn duplicate_labels_abort_startup() {
    let modules = vec![ship_module(), ship_module()];
    match GlobalState::new(&modules, 800, 600) {
        Err(WoeError::DuplicateLabel(l)) => assert_eq!(l, "Ship"),
        _ => panic!("duplicate labels must be a startup error"),
    }
}

#[test]
fn ids_stay_unique_across_adds_and_removes() {
    let mut gs = empty_world();
    let changes = vec![
        Change::AddEntity(ship_entity(1, 1)),
        Change::AddEntity(ship_entity(2, 2)),
        Change::RmEntity(0),
        Change::AddEntity(ship_entity(3, 3)),
    ];
    let errs = gs.resolve_changes(&changes);
    assert!(errs.is_empty());
    let ids: Vec<usize> = gs.loaded_entities.iter().map(|p| p.0).collect();
    assert_eq!(ids, vec![1, 2]);
    for i in 0..ids.len() {
        for j in (i + 1)..ids.len() {
            assert_ne!(ids[i], ids[j]);
        }
    }
}

#[test]
fn removing_absent_id_is_noop() {
    let mut gs = empty_world();
    let errs = gs.resolve_changes(&vec![Change::AddEntity(ship_entity(5, 5))]);
    assert!(errs.is_empty());
    let before = gs.loaded_entities.clone();
    let errs = gs.resolve_changes(&vec![Change::RmEntity(42)]);
    assert!(errs.is_empty());
    assert_eq!(gs.loaded_entities, before);
}

#[test]
fn clear_color_twice_equals_once() {
    let mut gs_once = empty_world();
    let mut gs_twice = empty_world();
    gs_once.resolve_changes(&vec![Change::ClearColor(10, 20, 30, 40)]);
    gs_twice.resolve_changes(&vec![
        Change::ClearColor(10, 20, 30, 40),
        Change::ClearColor(10, 20, 30, 40),
    ]);
    assert_eq!(gs_once.clear_color, gs_twice.clear_color);
    assert_eq!(gs_once.loaded_entities, gs_twice.loaded_entities);
}

#[test]
fn request_by_known_label_inserts_one_entity() {
    let mut gs = empty_world();
    let errs = gs.resolve_changes(&vec![Change::RequestEntityByLabel(
        String::from("Ship"),
        Vector2 { x: 7, y: 9 },
        SCALAR_ZERO,
        SCALAR_ONE,
    )]);
    assert!(errs.is_empty());
    assert_eq!(gs.loaded_entities.len(), 1);
    let (id, e) = &gs.loaded_entities[0];
    assert_eq!(*id, 0);
    assert_eq!(e.entity_type, "Ship");
    assert_eq!(e.translation, Vector2 { x: 7, y: 9 });
    assert_eq!(e.rotation, SCALAR_ZERO);
    assert_eq!(e.scale, SCALAR_ONE);
}

#[test]
fn request_by_unknown_label_is_rejected_and_state_unchanged() {
    let mut gs = empty_world();
    let errs = gs.resolve_changes(&vec![Change::RequestEntityByLabel(
        String::from("Ghost"),
        Vector2 { x: 7, y: 9 },
        SCALAR_ZERO,
        SCALAR_ONE,
    )]);
    assert_eq!(errs.len(), 1);
    match &errs[0] {
        WoeError::UnknownLabel(l) => assert_eq!(l, "Ghost"),
        _ => panic!("expected an unknown-label error"),
    }
    assert_eq!(gs.loaded_entities.len(), 0);
}

#[test]
fn add_entity_with_unknown_label_is_rejected() {
    let mut gs = empty_world();
    let mut stranger = ship_entity(1, 1);
    stranger.entity_type = String::from("Ghost");
    let errs = gs.resolve_changes(&vec![Change::AddEntity(stranger)]);
    assert_eq!(errs.len(), 1);
    assert!(matches!(&errs[0], WoeError::UnknownLabel(l) if l == "Ghost"));
    assert_eq!(gs.loaded_entities.len(), 0);
}

#[test]
fn add_then_remove_fresh_id_is_net_noop() {
    let mut gs = empty_world();
    gs.resolve_changes(&vec![Change::AddEntity(ship_entity(5, 5))]);
    let before = gs.loaded_entities.clone();
    // The entity added next gets id 1 (one past the current maximum 0).
    let errs = gs.resolve_changes(&vec![
        Change::AddEntity(ship_entity(6, 6)),
        Change::RmEntity(1),
    ]);
    assert!(errs.is_empty());
    assert_eq!(gs.loaded_entities, before);
}

#[test]
fn request_by_id_is_always_unsupported() {
    let mut gs = empty_world();
    let before = gs.loaded_entities.clone();
    let errs = gs.resolve_changes(&vec![Change::RequestEntityByID(
        0,
        Vector2 { x: 1, y: 2 },
        SCALAR_ZERO,
        SCALAR_ONE,
    )]);
    assert_eq!(errs.len(), 1);
    assert!(matches!(errs[0], WoeError::UnsupportedOperation));
    assert_eq!(gs.loaded_entities, before);
}

#[test]
fn exhausted_id_space_is_reported_and_skipped() {
    let mut gs = empty_world();
    gs.loaded_entities.push((usize::MAX, ship_entity(1, 1)));
    let errs = gs.resolve_changes(&vec![Change::AddEntity(ship_entity(2, 2))]);
    assert_eq!(errs.len(), 1);
    assert!(matches!(errs[0], WoeError::IdSpaceExhausted));
    assert_eq!(gs.loaded_entities.len(), 1);
}

#[test]
fn later_change_wins_on_same_id() {
    let mut gs = empty_world();
    gs.resolve_changes(&vec![Change::AddEntity(ship_entity(1, 1))]);
    let errs = gs.resolve_changes(&vec![
        Change::RmEntity(0),
        Change::AddEntity(ship_entity(9, 9)),
    ]);
    assert!(errs.is_empty());
    assert_eq!(gs.loaded_entities.len(), 1);
    // The live set was empty after the removal, so the new entity got id 0.
    assert_eq!(gs.loaded_entities[0].0, 0);
    assert_eq!(gs.loaded_entities[0].1.translation, Vector2 { x: 9, y: 9 });
}

#[test]
fn ship_scenario_across_three_ticks() {
    let modules = vec![ship_module()];
    let mut gs = GlobalState::new(&modules, 800, 600).unwrap();

    // Tick 1: the module requests a ship at (400, 300), unrotated, unit scale.
    let tick1 = vec![vec![Change::RequestEntityByLabel(
        String::from("Ship"),
        Vector2 { x: (400.0f32).to_bits(), y: (300.0f32).to_bits() },
        (0.0f32).to_bits(),
        (1.0f32).to_bits(),
    )]];
    let errs = gs.init(&modules, &tick1);
    assert!(errs.is_empty());
    assert_eq!(gs.loaded_entities.len(), 1);
    let (id, e) = &gs.loaded_entities[0];
    assert_eq!(*id, 0);
    assert_eq!(e.entity_type, "Ship");
    assert_eq!(e.translation.x, (400.0f32).to_bits());
    assert_eq!(e.translation.y, (300.0f32).to_bits());
    assert_eq!(e.rotation, (0.0f32).to_bits());
    assert_eq!(e.scale, (1.0f32).to_bits());

    // Tick 2: the module emits nothing; the world is unchanged.
    let before = gs.loaded_entities.clone();
    let errs = gs.update(&modules, &vec![vec![]]);
    assert!(errs.is_empty());
    assert_eq!(gs.loaded_entities, before);

    // Tick 3: the module removes the ship; the entity map is empty.
    let errs = gs.update(&modules, &vec![vec![Change::RmEntity(0)]]);
    assert!(errs.is_empty());
    assert_eq!(gs.loaded_entities.len(), 0);
}

#[test]
fn snapshot_freezes_the_tick() {
    let mut gs = empty_world();
    gs.resolve_changes(&vec![Change::AddEntity(ship_entity(3, 4))]);
    let snap = gs.snapshot();
    assert_eq!(snap.clear_color, (0, 0, 0, 255));
    assert_eq!(snap.entities, gs.loaded_entities);
    assert_eq!(snap.window_width, 800);
    assert_eq!(snap.window_height, 600);
    // Later mutation does not reach the snapshot.
    gs.resolve_changes(&vec![Change::RmEntity(0)]);
    assert_eq!(snap.entities.len(), 1);
    assert_eq!(gs.loaded_entities.len(), 0);
}
