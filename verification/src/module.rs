//! The module abstraction: a unit of behavior that exposes an archetype
//! list and, each tick, proposes an ordered sequence of `Change`s.
//!
//! A module is one of two variants. A `CoreModule` is built in: its
//! behavior is one of a closed set of in-process behaviors
//! (`CoreBehavior`), dispatched and verified here. A `UserModule` is
//! dynamically loaded: its entry points live in a shared library that the
//! host process resolves at startup, outside this crate. The engine sees
//! only the user module's name and archetype list; the host calls the
//! foreign entry points itself and hands each tick's returned changes to
//! `GlobalState::init`/`GlobalState::update`, copied into engine-owned
//! `Change` values before the foreign call frame is abandoned.

use vstd::prelude::*;

use crate::entity::CreateEntityDescriptor;
use crate::entity::Entity;
use crate::entity::EntityType;
use crate::entity::Vector2;
use crate::state::Change;
use crate::state::State;
use crate::state::StateView;
use crate::state::WoeError;

verus! {

/// The closed set of built-in behaviors a `CoreModule` can carry.
#[derive(Clone, Copy, PartialEq, Eq, Structural, Debug)]
pub enum CoreBehavior {
    /// Defines the player ships and spawns one at the window center on the
    /// first tick (see `crate::woe_core::player_ships`).
    PlayerShips,
}

/// A module that is part of the core game: a name, the archetypes it
/// defines, and its built-in behavior.
pub struct CoreModule {
    pub name: String,
    pub entities: Vec<EntityType>,
    pub behavior: CoreBehavior,
}

/// A module installed by a user, aka a mod: a name and the archetypes it
/// defines. Its `init`/`update` entry points live in a shared library that
/// the host resolves and calls outside this crate.
pub struct UserModule {
    pub name: String,
    pub entities: Vec<EntityType>,
}

/// A unit of behavior, polymorphic over the two module variants.
pub enum Module {
    Core(CoreModule),
    User(UserModule),
}

/// A request for an entity addressed by archetype position rather than
/// label, with the transform to create it with.
pub struct RequestEntityByIDDescriptor {
    pub id: usize,
    pub translation: Vector2,
    pub rotation: u32,
    pub scale: u32,
}

/// The archetype list a module exposes.
pub open spec fn archetypes_of(m: Module) -> Seq<EntityType> {
    match m {
        Module::Core(cm) => cm.entities@,
        Module::User(um) => um.entities@,
    }
}

/// The changes a built-in module emits on the first tick.
pub open spec fn core_init_changes(m: CoreModule, snap: StateView) -> Seq<Change> {
    match m.behavior {
        CoreBehavior::PlayerShips => crate::woe_core::player_ships::spec_init_changes(m, snap),
    }
}

/// The changes a built-in module emits on every later tick.
pub open spec fn core_update_changes(m: CoreModule, snap: StateView) -> Seq<Change> {
    match m.behavior {
        CoreBehavior::PlayerShips => Seq::empty(),
    }
}

/// The entity a module hands back for an id-addressed request.
pub open spec fn spec_request_entity_by_id(m: Module, d: RequestEntityByIDDescriptor) -> Result<
    Entity,
    WoeError,
> {
    match m {
        Module::Core(cm) => if d.id < cm.entities@.len() {
            Ok(
                Entity {
                    entity_type: cm.entities@[d.id as int].label,
                    translation: d.translation,
                    rotation: d.rotation,
                    scale: d.scale,
                },
            )
        } else {
            Err(WoeError::UnknownId(d.id))
        },
        Module::User(_) => Err(WoeError::UnsupportedOperation),
    }
}

impl Module {
    /// Returns an entity of the archetype at the given position in this
    /// module's archetype list, centered at the translation in the
    /// descriptor. A position past the list is an unknown-id error; a user
    /// module does not support id-addressed queries at all and says so.
    pub fn request_entity_by_id(&self, descriptor: &RequestEntityByIDDescriptor) -> (r: Result<
        Entity,
        WoeError,
    >)
        ensures
            r == spec_request_entity_by_id(*self, *descriptor),
    {
        match self {
            Module::Core(module) => module.request_entity_by_id(descriptor),
            Module::User(module) => module.request_entity_by_id(descriptor),
        }
    }

    /// The archetype list this module exposes, declared once at load time.
    pub fn entity_types(&self) -> (r: &Vec<EntityType>)
        ensures
            r@ == archetypes_of(*self),
    {
        match self {
            Module::Core(module) => module.entity_types(),
            Module::User(module) => module.entity_types(),
        }
    }

    /// The changes this module proposes on the first tick: computed here
    /// for a built-in module, `None` for a user module (the host calls the
    /// foreign entry point and passes the result into the tick).
    pub fn init(&self, state: &State) -> (r: Option<Vec<Change>>)
        ensures
            (r is None) <==> (*self matches Module::User(_)),
            r matches Some(cs) ==> (*self matches Module::Core(cm) && cs@ == core_init_changes(
                cm,
                state@,
            )),
    {
        match self {
            Module::Core(module) => Some(module.init(state)),
            Module::User(_) => None,
        }
    }

    /// The changes this module proposes on a later tick: computed here for
    /// a built-in module, `None` for a user module (the host calls the
    /// foreign entry point and passes the result into the tick).
    pub fn update(&self, state: &State) -> (r: Option<Vec<Change>>)
        ensures
            (r is None) <==> (*self matches Module::User(_)),
            r matches Some(cs) ==> (*self matches Module::Core(cm) && cs@ == core_update_changes(
                cm,
                state@,
            )),
    {
        match self {
            Module::Core(module) => Some(module.update(state)),
            Module::User(_) => None,
        }
    }
}

impl CoreModule {
    fn request_entity_by_id(&self, descriptor: &RequestEntityByIDDescriptor) -> (r: Result<
        Entity,
        WoeError,
    >)
        ensures
            r == spec_request_entity_by_id(Module::Core(*self), *descriptor),
    {
        if descriptor.id < self.entities.len() {
            Ok(
                self.entities[descriptor.id].create_entity(
                    &CreateEntityDescriptor {
                        translation: descriptor.translation,
                        rotation: descriptor.rotation,
                        scale: descriptor.scale,
                    },
                ),
            )
        } else {
            Err(WoeError::UnknownId(descriptor.id))
        }
    }

    fn entity_types(&self) -> (r: &Vec<EntityType>)
        ensures
            r@ == self.entities@,
    {
        &self.entities
    }

    fn init(&self, state: &State) -> (cs: Vec<Change>)
        ensures
            cs@ == core_init_changes(*self, state@),
    {
        match self.behavior {
            CoreBehavior::PlayerShips => crate::woe_core::player_ships::init(state, self),
        }
    }

    fn update(&self, state: &State) -> (cs: Vec<Change>)
        ensures
            cs@ == core_update_changes(*self, state@),
    {
        match self.behavior {
            CoreBehavior::PlayerShips => crate::woe_core::player_ships::update(state, self),
        }
    }
}

impl UserModule {
    fn request_entity_by_id(&self, _descriptor: &RequestEntityByIDDescriptor) -> (r: Result<
        Entity,
        WoeError,
    >)
        ensures
            r == Err::<Entity, WoeError>(WoeError::UnsupportedOperation),
    {
        Err(WoeError::UnsupportedOperation)
    }

    fn entity_types(&self) -> (r: &Vec<EntityType>)
        ensures
            r@ == self.entities@,
    {
        &self.entities
    }
}

} // verus!
