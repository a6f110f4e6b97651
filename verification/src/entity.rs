//! The entity data model: archetypes (`EntityType`), live instances
//! (`Entity`), and the plain-value forms of the data they carry.

use vstd::prelude::*;

verus! {

/// Opaque handle to a visual resource owned by the render collaborator.
/// The engine never looks inside a handle; it only stores it with an
/// archetype and hands it back when the renderer asks.
pub type TextureHandle = u64;

/// A two-dimensional vector. Each coordinate carries an IEEE 754
/// single-precision value by its bit pattern: the engine never does
/// arithmetic on coordinates, it only stores and copies them, so they
/// travel as plain 32-bit values (see `crate::scalar`).
#[derive(Clone, Copy, PartialEq, Eq, Structural, Debug)]
pub struct Vector2 {
    pub x: u32,
    pub y: u32,
}

/// The parsed form of one entity-definition file: an archetype's label,
/// the path of its visual asset, the names of its behaviors, and its named
/// states with property overrides. The engine consumes only the label and
/// the asset; behavior and state wiring belong to other collaborators.
pub struct EntityTypeJSON {
    pub name: String,
    pub asset: String,
    pub actions: Vec<String>,
    pub states: Vec<EntityStateJSON>,
}

/// One named state inside an entity-definition file: a state name and the
/// property overrides it applies, as label/value pairs.
pub struct EntityStateJSON {
    pub name: String,
    pub overrides: Vec<(String, String)>,
}

/// An archetype: the immutable descriptor of a kind of entity.
///
/// The label is the archetype's identity: the registry keeps labels unique
/// across all modules, and entity instances name their archetype by it.
pub struct EntityType {
    pub label: String,
    pub texture: TextureHandle,
}

/// The transform an entity is created with: translation, rotation and
/// scale, as scalar bit patterns (see `crate::scalar`).
pub struct CreateEntityDescriptor {
    pub translation: Vector2,
    pub rotation: u32,
    pub scale: u32,
}

/// A live instance of an archetype: the archetype's label plus a transform.
///
/// `entity_type` names the archetype; the world-state invariant keeps it
/// resolvable in the registry for as long as the instance lives.
#[derive(Debug)]
pub struct Entity {
    pub entity_type: String,
    pub translation: Vector2,
    pub rotation: u32,
    pub scale: u32,
}

impl EntityType {
    /// Builds a new instance of this archetype with the given transform.
    pub fn create_entity(&self, descriptor: &CreateEntityDescriptor) -> (e: Entity)
        ensures
            e == (Entity {
                entity_type: self.label,
                translation: descriptor.translation,
                rotation: descriptor.rotation,
                scale: descriptor.scale,
            }),
    {
        Entity {
            entity_type: self.label.clone(),
            translation: descriptor.translation,
            rotation: descriptor.rotation,
            scale: descriptor.scale,
        }
    }
}

impl Clone for EntityType {
    fn clone(&self) -> (r: Self)
        ensures
            r == *self,
    {
        EntityType { label: self.label.clone(), texture: self.texture }
    }
}

impl Clone for Entity {
    fn clone(&self) -> (r: Self)
        ensures
            r == *self,
    {
        Entity {
            entity_type: self.entity_type.clone(),
            translation: self.translation,
            rotation: self.rotation,
            scale: self.scale,
        }
    }
}

impl PartialEq for Entity {
    /// Two instances are equal when their transforms are equal and they
    /// name the same archetype.
    fn eq(&self, other: &Self) -> (r: bool) {
        self.translation == other.translation && self.rotation == other.rotation
            && self.scale == other.scale && self.entity_type == other.entity_type
    }
}

impl vstd::std_specs::cmp::PartialEqSpecImpl for Entity {
    open spec fn obeys_eq_spec() -> bool {
        true
    }

    open spec fn eq_spec(&self, other: &Self) -> bool {
        self.translation == other.translation && self.rotation == other.rotation
            && self.scale == other.scale && self.entity_type@ == other.entity_type@
    }
}

} // verus!
