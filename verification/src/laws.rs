//! The engine's laws: properties of the reconciliation model (`step`,
//! `step_err`, `run`) that hold for every world and every change
//! sequence, each stated and proved here once and for all.

use vstd::prelude::*;

use crate::entity::Entity;
use crate::entity::Vector2;
use crate::state::alloc_id;
use crate::state::has_label;
use crate::state::lemma_max_id_props;
use crate::state::lemma_remove_id_absent;
use crate::state::lemma_remove_id_found;
use crate::state::lemma_step_preserves_wf;
use crate::state::max_id;
use crate::state::run;
use crate::state::step;
use crate::state::step_err;
use crate::state::wf_world;
use crate::state::Change;
use crate::state::WoeError;
use crate::state::WorldView;

verus! {

/// Folding any change sequence into a well-formed world (the empty
/// starting world included) leaves it well-formed: in particular, no two
/// live entities share an id at any point, since every intermediate
/// world is itself `run` of a prefix.
pub proof fn lemma_run_preserves_wf(w: WorldView, cs: Seq<Change>)
    requires
        wf_world(w),
    ensures
        wf_world(run(w, cs)),
    decreases cs.len(),
{
    if cs.len() > 0 {
        lemma_step_preserves_wf(w, cs.first());
        lemma_run_preserves_wf(step(w, cs.first()), cs.drop_first());
    }
}

/// Removing an id that no live entity carries is a no-op: the world
/// after the removal equals the world before, and no error is reported.
pub proof fn lemma_remove_absent_is_noop(w: WorldView, id: usize)
    requires
        forall|i: int| 0 <= i < w.entities.len() ==> (#[trigger] w.entities[i]).0 != id,
    ensures
        step(w, Change::RmEntity(id)) == w,
        step_err(w, Change::RmEntity(id)) == Ok::<(), WoeError>(()),
{
    lemma_remove_id_absent(w.entities, id);
    assert(step(w, Change::RmEntity(id)) =~= w);
}

/// Overwriting the background color twice with the same color equals
/// overwriting it once: the change is idempotent.
pub proof fn lemma_clear_color_idempotent(w: WorldView, r: u8, g: u8, b: u8, a: u8)
    ensures
        step(step(w, Change::ClearColor(r, g, b, a)), Change::ClearColor(r, g, b, a)) == step(
            w,
            Change::ClearColor(r, g, b, a),
        ),
{
    assert(step(step(w, Change::ClearColor(r, g, b, a)), Change::ClearColor(r, g, b, a)) =~= step(
        w,
        Change::ClearColor(r, g, b, a),
    ));
}

/// A label-addressed request with a registered label (and a free id)
/// inserts exactly one new entity: everything already live is kept, and
/// the one new entry carries a fresh id, the requested label and exactly
/// the requested transform. With an unregistered label the request is
/// rejected with an unknown-label error and the world is unchanged.
pub proof fn lemma_request_by_label(
    w: WorldView,
    label: String,
    translation: Vector2,
    rotation: u32,
    scale: u32,
)
    ensures
        has_label(w.registry, label@) && max_id(w.entities) < usize::MAX as int ==> step(
            w,
            Change::RequestEntityByLabel(label, translation, rotation, scale),
        ) == (WorldView {
            entities: w.entities.push(
                (
                    alloc_id(w.entities) as usize,
                    Entity { entity_type: label, translation, rotation, scale },
                ),
            ),
            ..w
        }) && step_err(w, Change::RequestEntityByLabel(label, translation, rotation, scale))
            == Ok::<(), WoeError>(()),
        !has_label(w.registry, label@) ==> step(
            w,
            Change::RequestEntityByLabel(label, translation, rotation, scale),
        ) == w && step_err(w, Change::RequestEntityByLabel(label, translation, rotation, scale))
            == Err::<(), WoeError>(WoeError::UnknownLabel(label)),
{
}

/// Adding an entity and then removing the id it was given, in one
/// sequence, leaves the world exactly as it was: an in-order fold of
/// `AddEntity` then `RmEntity` of the fresh id is a net no-op.
pub proof fn lemma_add_then_remove_is_noop(w: WorldView, e: Entity)
    requires
        has_label(w.registry, e.entity_type@),
        max_id(w.entities) < usize::MAX as int,
    ensures
        run(
            w,
            seq![
                Change::AddEntity(e),
                Change::RmEntity((max_id(w.entities) + 1) as usize),
            ],
        ) == w,
{
    let id = (max_id(w.entities) + 1) as usize;
    let cs = seq![Change::AddEntity(e), Change::RmEntity(id)];
    lemma_max_id_props(w.entities);
    assert(cs.first() == Change::AddEntity(e));
    let w1 = step(w, cs.first());
    assert(w1.entities == w.entities.push((id, e)));
    assert(cs.drop_first() =~= seq![Change::RmEntity(id)]);
    let rest = cs.drop_first();
    assert(rest.first() == Change::RmEntity(id));
    assert(rest.drop_first() =~= Seq::<Change>::empty());
    assert(run(w, cs) == step(w1, Change::RmEntity(id))) by {
        reveal_with_fuel(run, 3);
    }
    assert(forall|k: int| 0 <= k < w.entities.len() ==> (#[trigger] w1.entities[k]).0 != id);
    assert(w1.entities[w.entities.len() as int].0 == id);
    lemma_remove_id_found(w1.entities, id, w.entities.len() as int);
    assert(w1.entities.remove(w.entities.len() as int) =~= w.entities);
    assert(step(w1, Change::RmEntity(id)) =~= w);
}

/// An id-addressed entity request is always rejected with the
/// unsupported-operation error — distinct from "not found" — and leaves
/// the world unchanged; it is never a silent no-op.
pub proof fn lemma_request_by_id_unsupported(
    w: WorldView,
    id: usize,
    translation: Vector2,
    rotation: u32,
    scale: u32,
)
    ensures
        step(w, Change::RequestEntityByID(id, translation, rotation, scale)) == w,
        step_err(w, Change::RequestEntityByID(id, translation, rotation, scale)) == Err::<
            (),
            WoeError,
        >(WoeError::UnsupportedOperation),
{
}

} // verus!
