//! Properties of the entity-component store that span several operations.

use vstd::prelude::*;

use crate::ecs::world::{World, WorldView};
use crate::ecs::{swap_removed, Entity};

verus! {

/// A component added to an entity is read back: after an entity is given a
/// component of a registered kind, looking that kind up for the entity
/// yields the component, and every other entity and kind reads as before.
pub proof fn lemma_get_after_add<V>(w: WorldView<V>, e: Entity, name: Seq<char>, c: V)
    requires
        w.wf(),
        w.component_ids.contains_key(name),
    ensures
        w.component_attached(e, w.component_ids[name], c).component_of(e, name) == Some(c),
        forall|e2: Entity, n2: Seq<char>|
            (e2 != e || n2 != name) ==> #[trigger] w.component_attached(
                e,
                w.component_ids[name],
                c,
            ).component_of(e2, n2) == w.component_of(e2, n2),
{
    let k = w.component_ids[name];
    let w2 = w.component_attached(e, k, c);
    assert forall|e2: Entity, n2: Seq<char>|
        (e2 != e || n2 != name) implies #[trigger] w2.component_of(e2, n2) == w.component_of(
        e2,
        n2,
    ) by {
        if w.component_ids.contains_key(n2) && n2 != name {
            assert(w.component_ids[n2] != k);
        }
    }
}

/// A removed component is gone: after an entity's component of a kind is
/// taken away, looking that kind up for the entity finds nothing, and every
/// other entity and kind reads as before.
pub proof fn lemma_get_after_remove<V>(w: WorldView<V>, e: Entity, name: Seq<char>)
    requires
        w.wf(),
        w.component_ids.contains_key(name),
    ensures
        w.component_detached(e, w.component_ids[name]).component_of(e, name) is None,
        forall|e2: Entity, n2: Seq<char>|
            (e2 != e || n2 != name) ==> #[trigger] w.component_detached(
                e,
                w.component_ids[name],
            ).component_of(e2, n2) == w.component_of(e2, n2),
{
    let k = w.component_ids[name];
    let w2 = w.component_detached(e, k);
    assert forall|e2: Entity, n2: Seq<char>|
        (e2 != e || n2 != name) implies #[trigger] w2.component_of(e2, n2) == w.component_of(
        e2,
        n2,
    ) by {
        if w.component_ids.contains_key(n2) && n2 != name {
            assert(w.component_ids[n2] != k);
        }
    }
}

/// A deleted entity is gone: after a listed entity is deleted it is no
/// longer listed and has no component of any kind, while every other entity
/// stays listed, once, with all its components.
pub proof fn lemma_deleted_entity_is_gone<V>(w: WorldView<V>, e: Entity)
    requires
        w.wf(),
        w.entities.contains(e),
    ensures
        !w.entity_deleted(e).entities.contains(e),
        w.entity_deleted(e).entities.no_duplicates(),
        forall|n: Seq<char>| #[trigger] w.entity_deleted(e).component_of(e, n) is None,
        forall|e2: Entity|
            e2 != e ==> (#[trigger] w.entity_deleted(e).entities.contains(e2)
                <==> w.entities.contains(e2)),
        forall|e2: Entity, n: Seq<char>|
            e2 != e ==> #[trigger] w.entity_deleted(e).component_of(e2, n) == w.component_of(
                e2,
                n,
            ),
{
    let s = w.entities;
    s.index_of_first_ensures(e);
    let i = s.index_of_first(e)->0;
    let t = swap_removed(s, i);
    let last = s.len() - 1;
    assert forall|j: int| 0 <= j < t.len() implies #[trigger] t[j] == (if j == i {
        s[last]
    } else {
        s[j]
    }) by {}
    assert(t.no_duplicates()) by {
        assert forall|j1: int, j2: int|
            0 <= j1 < t.len() && 0 <= j2 < t.len() && j1 != j2 implies t[j1] != t[j2] by {
            let o1 = if j1 == i { last } else { j1 };
            let o2 = if j2 == i { last } else { j2 };
            assert(t[j1] == s[o1]);
            assert(t[j2] == s[o2]);
        }
    }
    assert forall|x: Entity| #[trigger] t.contains(x) <==> (s.contains(x) && x != e) by {
        if t.contains(x) {
            let j = choose|j: int| 0 <= j < t.len() && t[j] == x;
            let o = if j == i { last } else { j };
            assert(s[o] == x);
        }
        if s.contains(x) && x != e {
            let o = choose|o: int| 0 <= o < s.len() && s[o] == x;
            let j = if o == last { i } else { o };
            assert(t[j] == x);
        }
    }
}

/// Each live entity is listed once: in a well-formed world no two positions
/// of the entity list hold the same id.
pub proof fn lemma_live_ids_listed_once<V>(w: WorldView<V>, i: int, j: int)
    requires
        w.wf(),
        0 <= i < w.entities.len(),
        0 <= j < w.entities.len(),
        w.entities[i] == w.entities[j],
    ensures
        i == j,
{
}

/// Distinct registered kinds have distinct component ids.
pub proof fn lemma_kinds_have_distinct_ids<V>(w: WorldView<V>, n1: Seq<char>, n2: Seq<char>)
    requires
        w.wf(),
        w.component_ids.contains_key(n1),
        w.component_ids.contains_key(n2),
        n1 != n2,
    ensures
        w.component_ids[n1] != w.component_ids[n2],
{
}

/// Each entity of a world is yielded once by `iter_entities`: no two
/// positions of a well-formed world's entity list hold the same id.
pub proof fn lemma_world_lists_each_entity_once<V>(w: &World<V>, i: int, j: int)
    requires
        w.wf(),
        0 <= i < w@.entities.len(),
        0 <= j < w@.entities.len(),
        w@.entities[i] == w@.entities[j],
    ensures
        i == j,
{
    w.lemma_view_wf();
}

/// Deleting a listed entity from a well-formed world takes it out of the
/// list and out of every lookup, and keeps every other entity listed, once,
/// with all its components.
pub proof fn lemma_world_delete_keeps_others<V>(w: &World<V>, e: Entity)
    requires
        w.wf(),
        w@.entities.contains(e),
    ensures
        !w@.entity_deleted(e).entities.contains(e),
        w@.entity_deleted(e).entities.no_duplicates(),
        forall|n: Seq<char>| #[trigger] w@.entity_deleted(e).component_of(e, n) is None,
        forall|e2: Entity|
            e2 != e ==> (#[trigger] w@.entity_deleted(e).entities.contains(e2)
                <==> w@.entities.contains(e2)),
        forall|e2: Entity, n: Seq<char>|
            e2 != e ==> #[trigger] w@.entity_deleted(e).component_of(e2, n) == w@.component_of(
                e2,
                n,
            ),
{
    w.lemma_view_wf();
    lemma_deleted_entity_is_gone(w@, e);
}

} // verus!
