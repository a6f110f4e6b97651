//! Defines the starship and boarding ship.
//!
//! The module's two archetypes are built from texture handles that the
//! host loads for it; its behavior spawns a boarding ship at the window
//! center on the first tick and proposes nothing afterwards.

use vstd::prelude::*;
use vstd::string::StringExecFns;

use crate::entity::Entity;
use crate::entity::EntityType;
use crate::entity::TextureHandle;
use crate::entity::Vector2;
use crate::module::CoreBehavior;
use crate::module::CoreModule;
use crate::module::Module;
use crate::scalar::scalar_of_uint;
use crate::scalar::spec_scalar_of_uint;
use crate::scalar::SCALAR_ONE;
use crate::scalar::SCALAR_ZERO;
use crate::state::Change;
use crate::state::State;
use crate::state::StateView;

verus! {

/// The changes the player-ships module emits on the first tick: one
/// boarding ship (its first archetype) at the window center, unrotated and
/// at unit scale. A module built with no archetypes emits nothing.
pub open spec fn spec_init_changes(m: CoreModule, snap: StateView) -> Seq<Change> {
    if m.entities@.len() == 0 {
        Seq::empty()
    } else {
        seq![
            Change::AddEntity(
                Entity {
                    entity_type: m.entities@[0].label,
                    translation: Vector2 {
                        x: spec_scalar_of_uint((snap.window_width / 2) as nat),
                        y: spec_scalar_of_uint((snap.window_height / 2) as nat),
                    },
                    rotation: SCALAR_ZERO,
                    scale: SCALAR_ONE,
                },
            ),
        ]
    }
}

/// Builds the player-ships module around the two texture handles the host
/// loaded for it: a boarding ship and a starship.
pub fn module(boarding_ship_texture: TextureHandle, starship_texture: TextureHandle) -> (m: Module)
    ensures
        m matches Module::Core(cm) && {
            &&& cm.name@ == "[Core] Player Ships"@
            &&& cm.behavior == CoreBehavior::PlayerShips
            &&& cm.entities@.len() == 2
            &&& cm.entities@[0].label@ == "[Core] Boarding Ship"@
            &&& cm.entities@[0].texture == boarding_ship_texture
            &&& cm.entities@[1].label@ == "[Core] Starship"@
            &&& cm.entities@[1].texture == starship_texture
        },
{
    let boarding_ship = EntityType {
        label: String::from_str("[Core] Boarding Ship"),
        texture: boarding_ship_texture,
    };
    let starship = EntityType {
        label: String::from_str("[Core] Starship"),
        texture: starship_texture,
    };
    let mut entities: Vec<EntityType> = Vec::new();
    entities.push(boarding_ship);
    entities.push(starship);
    Module::Core(
        CoreModule {
            name: String::from_str("[Core] Player Ships"),
            entities,
            behavior: CoreBehavior::PlayerShips,
        },
    )
}

/// First-tick behavior: spawn a boarding ship at the window center.
pub fn init(state: &State, module: &CoreModule) -> (cs: Vec<Change>)
    ensures
        cs@ == spec_init_changes(*module, state@),
{
    if module.entities.len() == 0 {
        let cs: Vec<Change> = Vec::new();
        return cs;
    }
    let entity = Entity {
        entity_type: module.entities[0].label.clone(),
        translation: Vector2 {
            x: scalar_of_uint(state.window_width / 2),
            y: scalar_of_uint(state.window_height / 2),
        },
        rotation: SCALAR_ZERO,
        scale: SCALAR_ONE,
    };
    let mut cs: Vec<Change> = Vec::new();
    cs.push(Change::AddEntity(entity));
    proof {
        assert(cs@ =~= spec_init_changes(*module, state@));
    }
    cs
}

/// Later-tick behavior: the player-ships module proposes nothing.
pub fn update(_state: &State, _module: &CoreModule) -> (cs: Vec<Change>)
    ensures
        cs@ == Seq::<Change>::empty(),
{
    let cs: Vec<Change> = Vec::new();
    cs
}

} // verus!
