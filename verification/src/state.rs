//! The authoritative world state, the mutation requests (`Change`) that
//! modules emit, and the reconciliation engine that folds them in.
//!
//! The engine's behavior is stated against a mathematical model: `step`
//! gives the world after one change, `step_err` the outcome reported for
//! it, and `run` folds a whole sequence in emission order. Every exec
//! function here is proved to agree with that model.

use vstd::prelude::*;

use crate::entity::Entity;
use crate::entity::EntityType;
use crate::entity::Vector2;
use crate::module::archetypes_of;
use crate::module::core_init_changes;
use crate::module::core_update_changes;
use crate::module::Module;

verus! {

/// An RGBA color.
#[derive(Clone, Copy, PartialEq, Eq, Structural, Debug)]
pub struct Color {
    pub r: u8,
    pub g: u8,
    pub b: u8,
    pub a: u8,
}

/// The errors the engine reports.
///
/// Duplicate labels are load-time fatal; unknown labels and an exhausted
/// id space are tick-local (the offending change is skipped); an
/// id-addressed entity request is rejected as unsupported, distinct from
/// "not found", so a caller can tell wrong API from bad data.
#[derive(Debug)]
pub enum WoeError {
    /// The operation is reserved for a future addressing scheme and is
    /// rejected explicitly rather than silently ignored.
    UnsupportedOperation,
    /// No registered archetype carries this label.
    UnknownLabel(String),
    /// An id-addressed module query named a position with no archetype
    /// behind it.
    UnknownId(usize),
    /// Two archetypes carry the same label; label uniqueness is a hard
    /// precondition for label-based instantiation.
    DuplicateLabel(String),
    /// Every id up to the largest machine integer is taken.
    IdSpaceExhausted,
}

/// One requested mutation of the world state, emitted by a module and
/// applied by the reconciliation engine in emission order.
#[derive(Debug)]
pub enum Change {
    /// Overwrite the background color.
    ClearColor(u8, u8, u8, u8),
    /// # UNSUPPORTED
    /// Instruction to request an entity given its ID, translation,
    /// rotation and scale; reserved, always rejected.
    RequestEntityByID(usize, Vector2, u32, u32),
    /// Instruction to request an entity given its label, translation,
    /// rotation and scale.
    RequestEntityByLabel(String, Vector2, u32, u32),
    /// Instruction to add an entity directly.
    AddEntity(Entity),
    /// Instruction to remove an entity given its ID.
    RmEntity(usize),
}

impl Clone for Change {
    fn clone(&self) -> (r: Self)
        ensures
            r == *self,
    {
        match self {
            Change::ClearColor(cr, cg, cb, ca) => Change::ClearColor(*cr, *cg, *cb, *ca),
            Change::RequestEntityByID(id, t, rot, sc) => Change::RequestEntityByID(
                *id,
                *t,
                *rot,
                *sc,
            ),
            Change::RequestEntityByLabel(label, t, rot, sc) => Change::RequestEntityByLabel(
                label.clone(),
                *t,
                *rot,
                *sc,
            ),
            Change::AddEntity(e) => Change::AddEntity(e.clone()),
            Change::RmEntity(id) => Change::RmEntity(*id),
        }
    }
}

/// The abstract value of a `GlobalState`: the background color, the live
/// entities as an id-keyed sequence in insertion order, the archetype
/// registry, and the viewport.
#[verifier::ext_equal]
pub ghost struct WorldView {
    pub clear_color: Color,
    pub entities: Seq<(usize, Entity)>,
    pub registry: Seq<EntityType>,
    pub window_width: usize,
    pub window_height: usize,
}

/// The abstract value of a `State` snapshot.
#[verifier::ext_equal]
pub ghost struct StateView {
    pub clear_color: (u8, u8, u8, u8),
    pub entities: Seq<(usize, Entity)>,
    pub window_width: usize,
    pub window_height: usize,
}

/// No two live entities share an id.
pub open spec fn ids_unique(s: Seq<(usize, Entity)>) -> bool {
    forall|i: int, j: int| 0 <= i < j < s.len() ==> (#[trigger] s[i]).0 != (#[trigger] s[j]).0
}

/// Some registered archetype carries this label.
pub open spec fn has_label(reg: Seq<EntityType>, label: Seq<char>) -> bool {
    exists|i: int| 0 <= i < reg.len() && (#[trigger] reg[i]).label@ == label
}

/// No two registered archetypes share a label.
pub open spec fn labels_unique(reg: Seq<EntityType>) -> bool {
    forall|i: int, j: int|
        0 <= i < j < reg.len() ==> (#[trigger] reg[i]).label@ != (#[trigger] reg[j]).label@
}

/// The largest live id, or -1 when no entity lives.
pub open spec fn max_id(s: Seq<(usize, Entity)>) -> int
    decreases s.len(),
{
    if s.len() == 0 {
        -1
    } else {
        let rest = max_id(s.drop_last());
        if s.last().0 as int >= rest {
            s.last().0 as int
        } else {
            rest
        }
    }
}

/// The id the engine gives the next inserted entity: one past the current
/// maximum, or zero when no entity lives.
pub open spec fn alloc_id(s: Seq<(usize, Entity)>) -> int {
    max_id(s) + 1
}

/// `s` with the first entry carrying `id` removed, and unchanged when no
/// entry carries it.
pub open spec fn remove_id(s: Seq<(usize, Entity)>, id: usize) -> Seq<(usize, Entity)>
    decreases s.len(),
{
    if s.len() == 0 {
        s
    } else if s.first().0 == id {
        s.drop_first()
    } else {
        seq![s.first()] + remove_id(s.drop_first(), id)
    }
}

/// The world-state invariant: live ids are unique, registered labels are
/// unique, and every live entity's archetype label resolves in the
/// registry.
pub open spec fn wf_world(w: WorldView) -> bool {
    &&& ids_unique(w.entities)
    &&& labels_unique(w.registry)
    &&& forall|i: int|
        0 <= i < w.entities.len() ==> has_label(w.registry, (#[trigger] w.entities[i]).1.entity_type@)
}

/// The world after one change is applied.
pub open spec fn step(w: WorldView, c: Change) -> WorldView {
    match c {
        Change::ClearColor(r, g, b, a) => WorldView { clear_color: Color { r, g, b, a }, ..w },
        Change::RequestEntityByID(_, _, _, _) => w,
        Change::RequestEntityByLabel(label, translation, rotation, scale) => if has_label(
            w.registry,
            label@,
        ) && max_id(w.entities) < usize::MAX as int {
            WorldView {
                entities: w.entities.push(
                    (
                        alloc_id(w.entities) as usize,
                        Entity { entity_type: label, translation, rotation, scale },
                    ),
                ),
                ..w
            }
        } else {
            w
        },
        Change::AddEntity(e) => if has_label(w.registry, e.entity_type@) && max_id(w.entities)
            < usize::MAX as int {
            WorldView { entities: w.entities.push((alloc_id(w.entities) as usize, e)), ..w }
        } else {
            w
        },
        Change::RmEntity(id) => WorldView { entities: remove_id(w.entities, id), ..w },
    }
}

/// The outcome the engine reports for one change: `Ok` exactly when the
/// change took effect, and the error that names why it was skipped
/// otherwise. Removing an absent id is a no-op, not an error.
pub open spec fn step_err(w: WorldView, c: Change) -> Result<(), WoeError> {
    match c {
        Change::ClearColor(_, _, _, _) => Ok(()),
        Change::RequestEntityByID(_, _, _, _) => Err(WoeError::UnsupportedOperation),
        Change::RequestEntityByLabel(label, _, _, _) => if !has_label(w.registry, label@) {
            Err(WoeError::UnknownLabel(label))
        } else if max_id(w.entities) == usize::MAX as int {
            Err(WoeError::IdSpaceExhausted)
        } else {
            Ok(())
        },
        Change::AddEntity(e) => if !has_label(w.registry, e.entity_type@) {
            Err(WoeError::UnknownLabel(e.entity_type))
        } else if max_id(w.entities) == usize::MAX as int {
            Err(WoeError::IdSpaceExhausted)
        } else {
            Ok(())
        },
        Change::RmEntity(_) => Ok(()),
    }
}

/// The world after a whole change sequence is folded in, in order.
pub open spec fn run(w: WorldView, cs: Seq<Change>) -> WorldView
    decreases cs.len(),
{
    if cs.len() == 0 {
        w
    } else {
        run(step(w, cs.first()), cs.drop_first())
    }
}

/// The errors reported while folding a change sequence, in order.
pub open spec fn run_errs(w: WorldView, cs: Seq<Change>) -> Seq<WoeError>
    decreases cs.len(),
{
    if cs.len() == 0 {
        Seq::empty()
    } else {
        let rest = run_errs(step(w, cs.first()), cs.drop_first());
        match step_err(w, cs.first()) {
            Ok(_) => rest,
            Err(e) => seq![e] + rest,
        }
    }
}

/// Every live id is at most the maximum, and the maximum is a live id
/// when any entity lives.
pub proof fn lemma_max_id_props(s: Seq<(usize, Entity)>)
    ensures
        forall|i: int| 0 <= i < s.len() ==> (#[trigger] s[i]).0 as int <= max_id(s),
        s.len() > 0 ==> exists|i: int|
            0 <= i < s.len() && (#[trigger] s[i]).0 as int == max_id(s),
    decreases s.len(),
{
    if s.len() > 0 {
        lemma_max_id_props(s.drop_last());
        assert(forall|i: int| 0 <= i < s.len() - 1 ==> (#[trigger] s[i]) == s.drop_last()[i]);
        let rest = max_id(s.drop_last());
        if s.last().0 as int >= rest {
            assert(s[s.len() - 1].0 as int == max_id(s));
        } else {
            assert(s.drop_last().len() > 0);
            let w = choose|i: int|
                0 <= i < s.drop_last().len() && (#[trigger] s.drop_last()[i]).0 as int == rest;
            assert(s[w].0 as int == max_id(s));
        }
        assert forall|i: int| 0 <= i < s.len() implies (#[trigger] s[i]).0 as int <= max_id(s) by {
            if i < s.len() - 1 {
                assert(s.drop_last()[i].0 as int <= rest);
            }
        }
    }
}

/// Removing an id that no entry carries leaves the sequence unchanged.
pub proof fn lemma_remove_id_absent(s: Seq<(usize, Entity)>, id: usize)
    requires
        forall|k: int| 0 <= k < s.len() ==> (#[trigger] s[k]).0 != id,
    ensures
        remove_id(s, id) == s,
    decreases s.len(),
{
    if s.len() > 0 {
        assert(s[0].0 != id);
        assert(forall|k: int|
            0 <= k < s.drop_first().len() ==> (#[trigger] s.drop_first()[k]).0 != id);
        lemma_remove_id_absent(s.drop_first(), id);
        assert(seq![s.first()] + s.drop_first() =~= s);
    }
}

/// When position `i` carries the first occurrence of `id`, removing `id`
/// removes exactly that position.
pub proof fn lemma_remove_id_found(s: Seq<(usize, Entity)>, id: usize, i: int)
    requires
        0 <= i < s.len(),
        s[i].0 == id,
        forall|k: int| 0 <= k < i ==> (#[trigger] s[k]).0 != id,
    ensures
        remove_id(s, id) == s.remove(i),
    decreases s.len(),
{
    if i == 0 {
        assert(s.drop_first() =~= s.remove(0));
    } else {
        assert(s[0].0 != id);
        assert(s.drop_first()[i - 1].0 == id);
        assert(forall|k: int|
            0 <= k < i - 1 ==> (#[trigger] s.drop_first()[k]).0 != id) by {
            assert(forall|k: int|
                0 <= k < i - 1 ==> s.drop_first()[k] == (#[trigger] s[k + 1]));
        }
        lemma_remove_id_found(s.drop_first(), id, i - 1);
        assert(seq![s.first()] + s.drop_first().remove(i - 1) =~= s.remove(i));
    }
}

/// One step keeps the world-state invariant: fresh ids stay unique, and
/// every inserted entity's archetype label is checked against the
/// registry before insertion.
pub proof fn lemma_step_preserves_wf(w: WorldView, c: Change)
    requires
        wf_world(w),
    ensures
        wf_world(step(w, c)),
{
    match c {
        Change::ClearColor(_, _, _, _) => {},
        Change::RequestEntityByID(_, _, _, _) => {},
        Change::RequestEntityByLabel(label, translation, rotation, scale) => {
            if has_label(w.registry, label@) && max_id(w.entities) < usize::MAX as int {
                lemma_max_id_props(w.entities);
                let e = Entity { entity_type: label, translation, rotation, scale };
                let s2 = w.entities.push((alloc_id(w.entities) as usize, e));
                assert(ids_unique(s2));
            }
        },
        Change::AddEntity(e) => {
            if has_label(w.registry, e.entity_type@) && max_id(w.entities) < usize::MAX as int {
                lemma_max_id_props(w.entities);
                let s2 = w.entities.push((alloc_id(w.entities) as usize, e));
                assert(ids_unique(s2));
            }
        },
        Change::RmEntity(id) => {
            lemma_remove_id_cases(w.entities, id);
            let s2 = remove_id(w.entities, id);
            if s2 != w.entities {
                let k = choose|k: int|
                    0 <= k < w.entities.len() && (#[trigger] w.entities[k]).0 == id && remove_id(
                        w.entities,
                        id,
                    ) == w.entities.remove(k);
                assert(forall|i: int|
                    0 <= i < s2.len() ==> #[trigger] s2[i] == (if i < k {
                        w.entities[i]
                    } else {
                        w.entities[i + 1]
                    }));
                assert(ids_unique(s2));
            }
        },
    }
}

/// Removing an id either finds its first occurrence and removes that
/// position, or finds nothing and changes nothing.
pub proof fn lemma_remove_id_cases(s: Seq<(usize, Entity)>, id: usize)
    ensures
        remove_id(s, id) == s || exists|k: int|
            0 <= k < s.len() && (#[trigger] s[k]).0 == id && remove_id(s, id) == s.remove(k),
{
    if exists|k: int| 0 <= k < s.len() && (#[trigger] s[k]).0 == id {
        let k0 = choose|k: int| 0 <= k < s.len() && (#[trigger] s[k]).0 == id;
        let kf = first_index_with_id(s, id, k0);
        lemma_remove_id_found(s, id, kf);
    } else {
        assert(forall|k: int| 0 <= k < s.len() ==> (#[trigger] s[k]).0 != id);
        lemma_remove_id_absent(s, id);
    }
}

/// The earliest position at or before `hint` that carries `id`.
proof fn first_index_with_id(s: Seq<(usize, Entity)>, id: usize, hint: int) -> (k: int)
    requires
        0 <= hint < s.len(),
        s[hint].0 == id,
    ensures
        0 <= k < s.len(),
        s[k].0 == id,
        forall|j: int| 0 <= j < k ==> (#[trigger] s[j]).0 != id,
    decreases hint,
{
    if exists|j: int| 0 <= j < hint && (#[trigger] s[j]).0 == id {
        let j0 = choose|j: int| 0 <= j < hint && (#[trigger] s[j]).0 == id;
        first_index_with_id(s, id, j0)
    } else {
        assert(forall|j: int| 0 <= j < hint ==> (#[trigger] s[j]).0 != id);
        hint
    }
}

/// Interface for modules to interact with the game state: the read-only
/// snapshot handed to every module for the length of one tick. It owns
/// copies of the tick's data, so no module can observe the world
/// mid-mutation.
pub struct State {
    pub clear_color: (u8, u8, u8, u8),
    pub entities: Vec<(usize, Entity)>,
    pub window_width: usize,
    pub window_height: usize,
}

impl View for State {
    type V = StateView;

    open spec fn view(&self) -> StateView {
        StateView {
            clear_color: self.clear_color,
            entities: self.entities@,
            window_width: self.window_width,
            window_height: self.window_height,
        }
    }
}

impl State {
    pub fn new(
        clear_color: (u8, u8, u8, u8),
        entities: Vec<(usize, Entity)>,
        window_width: usize,
        window_height: usize,
    ) -> (s: Self)
        ensures
            s == (State { clear_color, entities, window_width, window_height }),
    {
        Self { clear_color, entities, window_width, window_height }
    }
}

/// The snapshot a world produces: its color, entities and viewport,
/// frozen.
pub open spec fn snapshot_view(w: WorldView) -> StateView {
    StateView {
        clear_color: (w.clear_color.r, w.clear_color.g, w.clear_color.b, w.clear_color.a),
        entities: w.entities,
        window_width: w.window_width,
        window_height: w.window_height,
    }
}

/// The abstract values of the per-module change lists a tick was handed
/// for its user modules.
pub open spec fn user_seqs(us: Seq<Vec<Change>>) -> Seq<Seq<Change>> {
    us.map_values(|v: Vec<Change>| v@)
}

/// The changes one module contributes to a tick: computed for a built-in
/// module, handed in by the host for a user module.
pub open spec fn module_changes(m: Module, snap: StateView, user: Seq<Change>, first: bool) -> Seq<
    Change,
> {
    match m {
        Module::Core(cm) => if first {
            core_init_changes(cm, snap)
        } else {
            core_update_changes(cm, snap)
        },
        Module::User(_) => user,
    }
}

/// The tick's full change list: every module's contribution, concatenated
/// in module registration order.
pub open spec fn collected_changes(
    ms: Seq<Module>,
    snap: StateView,
    us: Seq<Seq<Change>>,
    first: bool,
) -> Seq<Change>
    recommends
        ms.len() == us.len(),
    decreases ms.len(),
{
    if ms.len() == 0 {
        Seq::empty()
    } else {
        collected_changes(ms.drop_last(), snap, us.drop_last(), first) + module_changes(
            ms.last(),
            snap,
            us.last(),
            first,
        )
    }
}

/// Every archetype every module exposes, in module order.
pub open spec fn all_archetypes(ms: Seq<Module>) -> Seq<EntityType>
    decreases ms.len(),
{
    if ms.len() == 0 {
        Seq::empty()
    } else {
        all_archetypes(ms.drop_last()) + archetypes_of(ms.last())
    }
}

/// The authoritative world state: background color, the live entities
/// keyed by id, the archetype registry keyed by label, and the viewport.
/// The reconciliation engine is its single mutator; modules only ever see
/// a `State` snapshot of it.
pub struct GlobalState {
    pub clear_color: Color,
    pub loaded_entities: Vec<(usize, Entity)>,
    pub entities_by_name: Vec<EntityType>,
    pub window_width: usize,
    pub window_height: usize,
}

impl View for GlobalState {
    type V = WorldView;

    open spec fn view(&self) -> WorldView {
        WorldView {
            clear_color: self.clear_color,
            entities: self.loaded_entities@,
            registry: self.entities_by_name@,
            window_width: self.window_width,
            window_height: self.window_height,
        }
    }
}

/// The position of the archetype carrying `label`, if any.
fn lookup_label(registry: &Vec<EntityType>, label: &String) -> (r: Option<usize>)
    ensures
        r matches Some(i) ==> i < registry@.len() && registry@[i as int].label@ == label@,
        r is None ==> !has_label(registry@, label@),
{
    let mut i: usize = 0;
    while i < registry.len()
        invariant
            i <= registry@.len(),
            forall|k: int| 0 <= k < i ==> (#[trigger] registry@[k]).label@ != label@,
        decreases registry@.len() - i,
    {
        if registry[i].label == *label {
            return Some(i);
        }
        i = i + 1;
    }
    None
}

/// The position of the first live entry carrying `id`, if any.
fn find_id_index(entities: &Vec<(usize, Entity)>, id: usize) -> (r: Option<usize>)
    ensures
        r matches Some(i) ==> i < entities@.len() && entities@[i as int].0 == id && (forall|k: int|
            0 <= k < i ==> (#[trigger] entities@[k]).0 != id),
        r is None ==> forall|k: int|
            0 <= k < entities@.len() ==> (#[trigger] entities@[k]).0 != id,
{
    let mut i: usize = 0;
    while i < entities.len()
        invariant
            i <= entities@.len(),
            forall|k: int| 0 <= k < i ==> (#[trigger] entities@[k]).0 != id,
        decreases entities@.len() - i,
    {
        if entities[i].0 == id {
            return Some(i);
        }
        i = i + 1;
    }
    None
}

/// The id the next inserted entity gets, or `None` when the id space is
/// exhausted.
fn next_free_id(entities: &Vec<(usize, Entity)>) -> (r: Option<usize>)
    ensures
        r == (if max_id(entities@) == usize::MAX as int {
            Option::<usize>::None
        } else {
            Option::<usize>::Some((max_id(entities@) + 1) as usize)
        }),
{
    if entities.len() == 0 {
        return Some(0);
    }
    let mut m: usize = entities[0].0;
    let mut i: usize = 1;
    proof {
        assert(entities@.subrange(0, 1).drop_last() =~= Seq::<(usize, Entity)>::empty());
        assert(entities@.subrange(0, 1).last() == entities@[0]);
        assert(max_id(Seq::<(usize, Entity)>::empty()) == -1);
    }
    while i < entities.len()
        invariant
            1 <= i <= entities@.len(),
            m as int == max_id(entities@.subrange(0, i as int)),
        decreases entities@.len() - i,
    {
        let id: usize = entities[i].0;
        if id > m {
            m = id;
        }
        proof {
            assert(entities@.subrange(0, i as int + 1).drop_last() =~= entities@.subrange(
                0,
                i as int,
            ));
            assert(entities@.subrange(0, i as int + 1).last() == entities@[i as int]);
        }
        i = i + 1;
    }
    proof {
        assert(entities@.subrange(0, entities@.len() as int) =~= entities@);
    }
    if m == usize::MAX {
        None
    } else {
        Some(m + 1)
    }
}

/// A copy of an entity list, for building a snapshot.
fn clone_entities(v: &Vec<(usize, Entity)>) -> (r: Vec<(usize, Entity)>)
    ensures
        r@ == v@,
{
    let mut r: Vec<(usize, Entity)> = Vec::new();
    let mut i: usize = 0;
    while i < v.len()
        invariant
            i <= v@.len(),
            r@ == v@.subrange(0, i as int),
        decreases v@.len() - i,
    {
        let id: usize = v[i].0;
        let e: Entity = v[i].1.clone();
        r.push((id, e));
        proof {
            assert((id, e) == v@[i as int]);
            assert(v@.subrange(0, i as int + 1) =~= v@.subrange(0, i as int).push(v@[i as int]));
        }
        i = i + 1;
    }
    proof {
        assert(v@.subrange(0, v@.len() as int) =~= v@);
    }
    r
}

/// A copy of a change list, for taking a user module's proposals into
/// engine-owned storage.
fn clone_changes(v: &Vec<Change>) -> (r: Vec<Change>)
    ensures
        r@ == v@,
{
    let mut r: Vec<Change> = Vec::new();
    let mut i: usize = 0;
    while i < v.len()
        invariant
            i <= v@.len(),
            r@ == v@.subrange(0, i as int),
        decreases v@.len() - i,
    {
        let c: Change = v[i].clone();
        r.push(c);
        proof {
            assert(v@.subrange(0, i as int + 1) =~= v@.subrange(0, i as int).push(v@[i as int]));
        }
        i = i + 1;
    }
    proof {
        assert(v@.subrange(0, v@.len() as int) =~= v@);
    }
    r
}

/// The changes every module proposes this tick, concatenated in module
/// order: built-in modules are invoked here, and each user module's slot
/// of `user_changes` is copied in its place.
fn collect_changes(
    modules: &Vec<Module>,
    state: &State,
    user_changes: &Vec<Vec<Change>>,
    first: bool,
) -> (all: Vec<Change>)
    requires
        user_changes@.len() == modules@.len(),
    ensures
        all@ == collected_changes(modules@, state@, user_seqs(user_changes@), first),
{
    let mut all: Vec<Change> = Vec::new();
    let mut i: usize = 0;
    while i < modules.len()
        invariant
            user_changes@.len() == modules@.len(),
            i <= modules@.len(),
            all@ == collected_changes(
                modules@.subrange(0, i as int),
                state@,
                user_seqs(user_changes@).subrange(0, i as int),
                first,
            ),
        decreases modules@.len() - i,
    {
        let r = if first {
            modules[i].init(state)
        } else {
            modules[i].update(state)
        };
        match r {
            Some(mut cs) => {
                all.append(&mut cs);
            },
            None => {
                let mut cs = clone_changes(&user_changes[i]);
                all.append(&mut cs);
            },
        }
        proof {
            let ms = modules@;
            let us = user_seqs(user_changes@);
            assert(ms.subrange(0, i as int + 1).drop_last() =~= ms.subrange(0, i as int));
            assert(us.subrange(0, i as int + 1).drop_last() =~= us.subrange(0, i as int));
            assert(ms.subrange(0, i as int + 1).last() == ms[i as int]);
            assert(us.subrange(0, i as int + 1).last() == us[i as int]);
            assert(us[i as int] == user_changes@[i as int]@);
        }
        i = i + 1;
    }
    proof {
        let ms = modules@;
        let us = user_seqs(user_changes@);
        assert(ms.subrange(0, ms.len() as int) =~= ms);
        assert(us.subrange(0, ms.len() as int) =~= us);
    }
    all
}

impl GlobalState {
    /// The world-state invariant, as a predicate on the whole value.
    pub open spec fn wf(self) -> bool {
        wf_world(self@)
    }

    /// Builds the starting world: black background, no entities, and the
    /// archetype registry collected from every module's archetype list in
    /// module order. Fails with a duplicate-label error, and builds
    /// nothing, when two archetypes (of any modules) share a label.
    pub fn new(modules: &Vec<Module>, window_width: usize, window_height: usize) -> (r: Result<
        GlobalState,
        WoeError,
    >)
        ensures
            (r is Ok) <==> labels_unique(all_archetypes(modules@)),
            r matches Ok(gs) ==> gs@ == (WorldView {
                clear_color: Color { r: 0, g: 0, b: 0, a: 255 },
                entities: Seq::empty(),
                registry: all_archetypes(modules@),
                window_width,
                window_height,
            }) && gs.wf(),
            r matches Err(e) ==> (e matches WoeError::DuplicateLabel(l) && exists|i: int, j: int|
                0 <= i < j < all_archetypes(modules@).len() && (#[trigger] all_archetypes(
                    modules@,
                )[i]).label@ == (#[trigger] all_archetypes(modules@)[j]).label@ && all_archetypes(
                    modules@,
                )[j].label@ == l@),
    {
        let mut flat: Vec<EntityType> = Vec::new();
        let mut mi: usize = 0;
        while mi < modules.len()
            invariant
                mi <= modules@.len(),
                flat@ == all_archetypes(modules@.subrange(0, mi as int)),
            decreases modules@.len() - mi,
        {
            let ets = modules[mi].entity_types();
            let mut j: usize = 0;
            while j < ets.len()
                invariant
                    j <= ets@.len(),
                    ets@ == archetypes_of(modules@[mi as int]),
                    mi < modules@.len(),
                    flat@ == all_archetypes(modules@.subrange(0, mi as int)) + ets@.subrange(
                        0,
                        j as int,
                    ),
                decreases ets@.len() - j,
            {
                flat.push(ets[j].clone());
                proof {
                    assert(ets@.subrange(0, j as int + 1) =~= ets@.subrange(0, j as int).push(
                        ets@[j as int],
                    ));
                }
                j = j + 1;
            }
            proof {
                assert(modules@.subrange(0, mi as int + 1).drop_last() =~= modules@.subrange(
                    0,
                    mi as int,
                ));
                assert(modules@.subrange(0, mi as int + 1).last() == modules@[mi as int]);
                assert(ets@.subrange(0, ets@.len() as int) =~= ets@);
            }
            mi = mi + 1;
        }
        proof {
            assert(modules@.subrange(0, modules@.len() as int) =~= modules@);
        }
        let mut registry: Vec<EntityType> = Vec::new();
        let mut i: usize = 0;
        while i < flat.len()
            invariant
                i <= flat@.len(),
                flat@ == all_archetypes(modules@),
                registry@ == flat@.subrange(0, i as int),
                labels_unique(registry@),
            decreases flat@.len() - i,
        {
            match lookup_label(&registry, &flat[i].label) {
                Some(k) => {
                    proof {
                        assert(registry@[k as int].label@ == flat@[i as int].label@);
                        assert(flat@[k as int].label@ == flat@[i as int].label@);
                        assert(!labels_unique(all_archetypes(modules@)));
                    }
                    return Err(WoeError::DuplicateLabel(flat[i].label.clone()));
                },
                None => {
                    proof {
                        assert(!has_label(registry@, flat@[i as int].label@));
                    }
                    let ghost pre = registry@;
                    registry.push(flat[i].clone());
                    proof {
                        assert(flat@.subrange(0, i as int + 1) =~= flat@.subrange(0, i as int).push(
                            flat@[i as int],
                        ));
                        assert forall|a: int, b: int|
                            0 <= a < b < registry@.len() implies (#[trigger] registry@[a]).label@
                            != (#[trigger] registry@[b]).label@ by {
                            if b < pre.len() {
                                assert(pre[a].label@ != pre[b].label@);
                            } else {
                                assert(registry@[b] == flat@[i as int]);
                                assert(registry@[a] == pre[a]);
                                if pre[a].label@ == flat@[i as int].label@ {
                                    assert(has_label(pre, flat@[i as int].label@));
                                }
                            }
                        }
                    }
                },
            }
            i = i + 1;
        }
        proof {
            assert(flat@.subrange(0, flat@.len() as int) =~= flat@);
            assert(labels_unique(all_archetypes(modules@)));
        }
        Ok(
            GlobalState {
                clear_color: Color { r: 0, g: 0, b: 0, a: 255 },
                loaded_entities: Vec::new(),
                entities_by_name: registry,
                window_width,
                window_height,
            },
        )
    }

    /// A frozen snapshot of this world, for handing to modules.
    pub fn snapshot(&self) -> (s: State)
        ensures
            s@ == snapshot_view(self@),
    {
        State::new(
            (self.clear_color.r, self.clear_color.g, self.clear_color.b, self.clear_color.a),
            clone_entities(&self.loaded_entities),
            self.window_width,
            self.window_height,
        )
    }

    /// Runs the first tick: snapshots the world, collects every module's
    /// `init` proposals (user modules' proposals arrive in `user_changes`,
    /// one slot per module, already copied out of foreign memory), and
    /// folds them in, in module order then emission order. Returns the
    /// tick-local errors, in order; the offending changes were skipped.
    pub fn init(&mut self, modules: &Vec<Module>, user_changes: &Vec<Vec<Change>>) -> (errs: Vec<
        WoeError,
    >)
        requires
            user_changes@.len() == modules@.len(),
        ensures
            final(self)@ == run(
                old(self)@,
                collected_changes(
                    modules@,
                    snapshot_view(old(self)@),
                    user_seqs(user_changes@),
                    true,
                ),
            ),
            errs@ == run_errs(
                old(self)@,
                collected_changes(
                    modules@,
                    snapshot_view(old(self)@),
                    user_seqs(user_changes@),
                    true,
                ),
            ),
            old(self).wf() ==> final(self).wf(),
    {
        let state = self.snapshot();
        let all_changes = collect_changes(modules, &state, user_changes, true);
        self.resolve_changes(&all_changes)
    }

    /// Runs one later tick, exactly as `init` but collecting every
    /// module's `update` proposals.
    pub fn update(&mut self, modules: &Vec<Module>, user_changes: &Vec<Vec<Change>>) -> (errs: Vec<
        WoeError,
    >)
        requires
            user_changes@.len() == modules@.len(),
        ensures
            final(self)@ == run(
                old(self)@,
                collected_changes(
                    modules@,
                    snapshot_view(old(self)@),
                    user_seqs(user_changes@),
                    false,
                ),
            ),
            errs@ == run_errs(
                old(self)@,
                collected_changes(
                    modules@,
                    snapshot_view(old(self)@),
                    user_seqs(user_changes@),
                    false,
                ),
            ),
            old(self).wf() ==> final(self).wf(),
    {
        let state = self.snapshot();
        let all_changes = collect_changes(modules, &state, user_changes, false);
        self.resolve_changes(&all_changes)
    }

    /// Applies one change: the world becomes `step` of it, and the
    /// returned outcome is exactly `step_err` of it. A rejected change
    /// leaves the world unchanged.
    pub fn apply_change(&mut self, change: &Change) -> (r: Result<(), WoeError>)
        ensures
            final(self)@ == step(old(self)@, *change),
            r == step_err(old(self)@, *change),
    {
        match change {
            Change::ClearColor(cr, cg, cb, ca) => {
                self.clear_color = Color { r: *cr, g: *cg, b: *cb, a: *ca };
                Ok(())
            },
            Change::RequestEntityByID(_, _, _, _) => Err(WoeError::UnsupportedOperation),
            Change::RequestEntityByLabel(label, translation, rotation, scale) => {
                match lookup_label(&self.entities_by_name, label) {
                    None => Err(WoeError::UnknownLabel(label.clone())),
                    Some(k) => {
                        proof {
                            assert(has_label(self.entities_by_name@, label@));
                        }
                        match next_free_id(&self.loaded_entities) {
                            None => Err(WoeError::IdSpaceExhausted),
                            Some(id) => {
                                proof {
                                    lemma_max_id_props(self.loaded_entities@);
                                    if self.loaded_entities@.len() == 0 {
                                        assert(max_id(self.loaded_entities@) == -1);
                                    }
                                    assert(max_id(self.loaded_entities@) < usize::MAX as int);
                                }
                                self.loaded_entities.push(
                                    (
                                        id,
                                        Entity {
                                            entity_type: label.clone(),
                                            translation: *translation,
                                            rotation: *rotation,
                                            scale: *scale,
                                        },
                                    ),
                                );
                                Ok(())
                            },
                        }
                    },
                }
            },
            Change::AddEntity(entity) => {
                match lookup_label(&self.entities_by_name, &entity.entity_type) {
                    None => Err(WoeError::UnknownLabel(entity.entity_type.clone())),
                    Some(k) => {
                        proof {
                            assert(has_label(self.entities_by_name@, entity.entity_type@));
                        }
                        match next_free_id(&self.loaded_entities) {
                            None => Err(WoeError::IdSpaceExhausted),
                            Some(id) => {
                                proof {
                                    lemma_max_id_props(self.loaded_entities@);
                                    if self.loaded_entities@.len() == 0 {
                                        assert(max_id(self.loaded_entities@) == -1);
                                    }
                                    assert(max_id(self.loaded_entities@) < usize::MAX as int);
                                }
                                self.loaded_entities.push((id, entity.clone()));
                                Ok(())
                            },
                        }
                    },
                }
            },
            Change::RmEntity(rm_id) => {
                let id: usize = *rm_id;
                match find_id_index(&self.loaded_entities, id) {
                    Some(i) => {
                        proof {
                            lemma_remove_id_found(self.loaded_entities@, id, i as int);
                        }
                        self.loaded_entities.remove(i);
                    },
                    None => {
                        proof {
                            lemma_remove_id_absent(self.loaded_entities@, id);
                        }
                    },
                }
                Ok(())
            },
        }
    }

    /// Folds a whole change sequence into the world, in order: the world
    /// becomes `run` of it, and the returned errors are exactly
    /// `run_errs` of it (the tick-local errors of the skipped changes, in
    /// order). A well-formed world stays well-formed, whatever the
    /// changes.
    pub fn resolve_changes(&mut self, changes: &Vec<Change>) -> (errs: Vec<WoeError>)
        ensures
            final(self)@ == run(old(self)@, changes@),
            errs@ == run_errs(old(self)@, changes@),
            old(self).wf() ==> final(self).wf(),
    {
        let mut errs: Vec<WoeError> = Vec::new();
        let mut i: usize = 0;
        proof {
            assert(changes@.skip(0) =~= changes@);
            assert(Seq::<WoeError>::empty() + run_errs(self@, changes@) =~= run_errs(
                self@,
                changes@,
            ));
        }
        while i < changes.len()
            invariant
                i <= changes@.len(),
                run(old(self)@, changes@) == run(self@, changes@.skip(i as int)),
                run_errs(old(self)@, changes@) == errs@ + run_errs(self@, changes@.skip(i as int)),
                old(self).wf() ==> self.wf(),
            decreases changes@.len() - i,
        {
            let ghost pre = self@;
            let ghost pre_errs = errs@;
            let r = self.apply_change(&changes[i]);
            match r {
                Ok(_) => {},
                Err(e) => errs.push(e),
            }
            proof {
                let cs = changes@.skip(i as int);
                assert(cs.first() == changes@[i as int]);
                assert(cs.drop_first() =~= changes@.skip(i as int + 1));
                if wf_world(pre) {
                    lemma_step_preserves_wf(pre, changes@[i as int]);
                }
                match step_err(pre, changes@[i as int]) {
                    Ok(_) => {},
                    Err(e) => {
                        assert(errs@ =~= pre_errs + seq![e]);
                        assert(pre_errs + (seq![e] + run_errs(self@, changes@.skip(i as int + 1)))
                            =~= (pre_errs + seq![e]) + run_errs(self@, changes@.skip(i as int + 1)));
                    },
                }
            }
            i = i + 1;
        }
        proof {
            assert(changes@.skip(changes@.len() as int) =~= Seq::<Change>::empty());
            assert(errs@ + Seq::<WoeError>::empty() =~= errs@);
        }
        errs
    }
}

} // verus!
