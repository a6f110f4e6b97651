use witch_of_erebus::entity::CreateEntityDescriptor;
use witch_of_erebus::entity::Entity;
use witch_of_erebus::entity::EntityType;
use witch_of_erebus::entity::Vector2;
use witch_of_erebus::module::CoreBehavior;
use witch_of_erebus::module::Module;
use witch_of_erebus::module::RequestEntityByIDDescriptor;
use witch_of_erebus::module::UserModule;
use witch_of_erebus::scalar::scalar_of_uint;
use witch_of_erebus::scalar::SCALAR_ONE;
use witch_of_erebus::scalar::SCALAR_ZERO;
use witch_of_erebus::state::Change;
use witch_of_erebus::state::GlobalState;
use witch_of_erebus::state::State;
use witch_of_erebus::state::WoeError;
use witch_of_erebus::woe_core::player_ships;

#[test]
fn scalar_constants_are_the_float_bit_patterns() {
    assert_eq!(SCALAR_ZERO, (0.0f32).to_bits());
    assert_eq!(SCALAR_ONE, (1.0f32).to_bits());
}

#[test]
fn scalar_of_uint_matches_float_conversion() {
    for n in [0usize, 1, 2, 3, 255, 300, 400, 700, 1024, 123_456, 0xFF_FFFF] {
        assert_eq!(scalar_of_uint(n), (n as f32).to_bits(), "encoding of {}", n);
    }
}

#[test]
fn scalar_of_uint_clamps_past_the_exact_range() {
    assert_eq!(scalar_of_uint(0x100_0000), (0xFF_FFFFusize as f32).to_bits());
    assert_eq!(scalar_of_uint(usize::MAX), (0xFF_FFFFusize as f32).to_bits());
}

#[test]
fn player_ships_module_declares_both_ships() {
    let m = player_ships::module(3, 4);
    match &m {
        Module::Core(cm) => {
            assert_eq!(cm.name, "[Core] Player Ships");
            assert_eq!(cm.behavior, CoreBehavior::PlayerShips);
            assert_eq!(cm.entities.len(), 2);
            assert_eq!(cm.entities[0].label, "[Core] Boarding Ship");
            assert_eq!(cm.entities[0].texture, 3);
            assert_eq!(cm.entities[1].label, "[Core] Starship");
            assert_eq!(cm.entities[1].texture, 4);
        }
        Module::User(_) => panic!("player ships is a core module"),
    }
    assert_eq!(m.entity_types().len(), 2);
}

#[test]
fn player_ships_spawns_a_boarding_ship_at_the_window_center() {
    let modules = vec![player_ships::module(3, 4)];
    let mut gs = GlobalState::new(&modules, 1400, 800).unwrap();
    let errs = gs.init(&modules, &vec![vec![]]);
    assert!(errs.is_empty());
    assert_eq!(gs.loaded_entities.len(), 1);
    let (id, e) = &gs.loaded_entities[0];
    assert_eq!(*id, 0);
    assert_eq!(e.entity_type, "[Core] Boarding Ship");
    assert_eq!(e.translation.x, (700.0f32).to_bits());
    assert_eq!(e.translation.y, (400.0f32).to_bits());
    assert_eq!(e.rotation, (0.0f32).to_bits());
    assert_eq!(e.scale, (1.0f32).to_bits());
}

#[test]
fn player_ships_proposes_nothing_after_the_first_tick() {
    let modules = vec![player_ships::module(3, 4)];
    let mut gs = GlobalState::new(&modules, 1400, 800).unwrap();
    gs.init(&modules, &vec![vec![]]);
    let before = gs.loaded_entities.clone();
    let errs = gs.update(&modules, &vec![vec![]]);
    assert!(errs.is_empty());
    assert_eq!(gs.loaded_entities, before);
}

#[test]
fn core_module_answers_id_addressed_requests_from_its_list() {
    let m = player_ships::module(3, 4);
    let e = m
        .request_entity_by_id(&RequestEntityByIDDescriptor {
            id: 1,
            translation: Vector2 { x: 10, y: 20 },
            rotation: SCALAR_ZERO,
            scale: SCALAR_ONE,
        })
        .unwrap();
    assert_eq!(e.entity_type, "[Core] Starship");
    assert_eq!(e.translation, Vector2 { x: 10, y: 20 });
}

#[test]
fn core_module_rejects_an_id_past_its_list() {
    let m = player_ships::module(3, 4);
    let r = m.request_entity_by_id(&RequestEntityByIDDescriptor {
        id: 2,
        translation: Vector2 { x: 0, y: 0 },
        rotation: SCALAR_ZERO,
        scale: SCALAR_ONE,
    });
    assert!(matches!(r, Err(WoeError::UnknownId(2))));
}

#[test]
fn user_module_rejects_id_addressed_requests_as_unsupported() {
    let m = Module::User(UserModule {
        name: String::from("mod"),
        entities: vec![EntityType { label: String::from("Ship"), texture: 9 }],
    });
    let r = m.request_entity_by_id(&RequestEntityByIDDescriptor {
        id: 0,
        translation: Vector2 { x: 0, y: 0 },
        rotation: SCALAR_ZERO,
        scale: SCALAR_ONE,
    });
    assert!(matches!(r, Err(WoeError::UnsupportedOperation)));
}

#[test]
fn create_entity_binds_the_archetype_label_and_transform() {
    let archetype = EntityType { label: String::from("Ship"), texture: 5 };
    let e = archetype.create_entity(&CreateEntityDescriptor {
        translation: Vector2 { x: 1, y: 2 },
        rotation: SCALAR_ZERO,
        scale: SCALAR_ONE,
    });
    assert_eq!(e.entity_type, "Ship");
    assert_eq!(e.translation, Vector2 { x: 1, y: 2 });
    assert_eq!(e.rotation, SCALAR_ZERO);
    assert_eq!(e.scale, SCALAR_ONE);
}

#[test]
fn entities_compare_by_transform_and_archetype_label() {
    let a = Entity {
        entity_type: String::from("Ship"),
        translation: Vector2 { x: 1, y: 2 },
        rotation: SCALAR_ZERO,
        scale: SCALAR_ONE,
    };
    let b = a.clone();
    assert_eq!(a, b);
    let mut c = a.clone();
    c.scale = SCALAR_ZERO;
    assert_ne!(a, c);
    let mut d = a.clone();
    d.entity_type = String::from("Skiff");
    assert_ne!(a, d);
}

#[test]
fn state_new_keeps_its_arguments() {
    let s = State::new((1, 2, 3, 4), vec![], 640, 480);
    assert_eq!(s.clear_color, (1, 2, 3, 4));
    assert!(s.entities.is_empty());
    assert_eq!(s.window_width, 640);
    assert_eq!(s.window_height, 480);
}

#[test]
fn module_init_defers_user_modules_to_the_host() {
    let m = Module::User(UserModule { name: String::from("mod"), entities: vec![] });
    let s = State::new((0, 0, 0, 255), vec![], 100, 100);
    assert!(m.init(&s).is_none());
    assert!(m.update(&s).is_none());
    let core = player_ships::module(3, 4);
    let init = core.init(&s).unwrap();
    assert_eq!(init.len(), 1);
    assert!(matches!(&init[0], Change::AddEntity(_)));
    let upd = core.update(&s).unwrap();
    assert!(upd.is_empty());
}
