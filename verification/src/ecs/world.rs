use std::collections::hash_map::Entry;
use std::collections::HashMap;
use vstd::hash_map::StringHashMap;
use vstd::std_specs::hash::spec_keys_iter;
use vstd::std_specs::iter::IteratorSpec;
use vstd::prelude::*;
use vstd::string::*;

use crate::ecs::archetype::{lemma_added_new, lemma_removed, lemma_replaced, Archetype, ArchetypeView};
use crate::ecs::{find_position, swap_removed, Entity};
use crate::text::{decimal, decimal_string};

verus! {

broadcast use vstd::std_specs::hash::group_hash_axioms;

/// The game world: its entities, the next entity id to hand out, one
/// archetype per component id, and the ids of the registered component kinds,
/// keyed by the kind's name.
pub struct World<V> {
    entities: Vec<Entity>,
    next_entity: Entity,
    archetypes: HashMap<usize, Archetype<V>>,
    component_ids: StringHashMap<usize>,
}

/// The abstract state of a [`World`]: the entity list, the next id, the ids
/// of the registered kinds, and for each kind id that has an archetype the
/// map from entities to their component of that kind.
pub struct WorldView<V> {
    pub entities: Seq<Entity>,
    pub next_entity: Entity,
    pub component_ids: Map<Seq<char>, usize>,
    pub components: Map<usize, Map<Entity, V>>,
}

/// For each stored archetype, the map from its entities to their values in
/// the column of the archetype's own id.
pub open spec fn stores_of<V>(m: Map<usize, ArchetypeView<V>>) -> Map<usize, Map<Entity, V>> {
    Map::new(|k: usize| m.contains_key(k), |k: usize| m[k].values(k))
}

/// Each archetype with the row of `e` dropped from the column of the
/// archetype's own id.
pub open spec fn rows_dropped<V>(m: Map<usize, ArchetypeView<V>>, e: Entity) -> Map<
    usize,
    ArchetypeView<V>,
> {
    Map::new(|k: usize| m.contains_key(k), |k: usize| m[k].row_dropped(k, e))
}

/// The views of the stored archetypes.
pub open spec fn archetype_views<V>(m: Map<usize, Archetype<V>>) -> Map<usize, ArchetypeView<V>> {
    m.map_values(|a: Archetype<V>| a@)
}

/// Replacing one archetype of the stored map and then taking views is the
/// same as taking views and then replacing that archetype's view.
proof fn lemma_archetype_replaced<V>(m: Map<usize, Archetype<V>>, k: usize)
    ensures
        forall|a: Archetype<V>|
            #[trigger] archetype_views(m.insert(k, a)) == archetype_views(m).insert(k, a@),
        !m.contains_key(k) ==> m.remove(k) == m,
        m.contains_key(k) ==> archetype_views(m).insert(k, m[k]@) == archetype_views(m),
{
    assert(m.contains_key(k) ==> archetype_views(m).insert(k, m[k]@) =~= archetype_views(m));
    assert forall|a: Archetype<V>| #[trigger]
        archetype_views(m.insert(k, a)) == archetype_views(m).insert(k, a@) by {
        assert(archetype_views(m.insert(k, a)) =~= archetype_views(m).insert(k, a@));
    }
    assert(!m.contains_key(k) ==> m.remove(k) =~= m);
}

/// Swap-removing an element from a sequence without duplicates leaves a
/// sequence without duplicates that lacks the element and keeps every other.
proof fn lemma_swap_removed_distinct(s: Seq<Entity>, i: int)
    requires
        s.no_duplicates(),
        0 <= i < s.len(),
    ensures
        swap_removed(s, i).no_duplicates(),
        forall|x: Entity| #[trigger] swap_removed(s, i).contains(x) <==> (s.contains(x) && x != s[i]),
{
    let t = swap_removed(s, i);
    let last = s.len() - 1;
    assert forall|j: int| 0 <= j < t.len() implies #[trigger] t[j] == (if j == i {
        s[last]
    } else {
        s[j]
    }) by {}
    assert forall|j1: int, j2: int|
        0 <= j1 < t.len() && 0 <= j2 < t.len() && j1 != j2 implies t[j1] != t[j2] by {
        let o1 = if j1 == i { last } else { j1 };
        let o2 = if j2 == i { last } else { j2 };
        assert(t[j1] == s[o1]);
        assert(t[j2] == s[o2]);
    }
    assert forall|x: Entity| #[trigger] t.contains(x) <==> (s.contains(x) && x != s[i]) by {
        if t.contains(x) {
            let j = choose|j: int| 0 <= j < t.len() && t[j] == x;
            let o = if j == i { last } else { j };
            assert(s[o] == x);
        }
        if s.contains(x) && x != s[i] {
            let o = choose|o: int| 0 <= o < s.len() && s[o] == x;
            let j = if o == last { i } else { o };
            assert(t[j] == x);
        }
    }
}

/// Message of a failed deletion.
pub open spec fn entity_missing_text(e: Entity) -> Seq<char> {
    "Entity with ID "@ + decimal(e as nat) + " does not exist"@
}

/// Message of a request that names an unregistered component kind.
pub open spec fn unregistered_text(name: Seq<char>) -> Seq<char> {
    "Component type not registered: "@ + name
}

/// Message of a lookup that finds no component.
pub open spec fn component_missing_text(e: Entity, name: Seq<char>) -> Seq<char> {
    "Component not found for entity ID "@ + decimal(e as nat) + ": "@ + name
}

impl<V> WorldView<V> {
    /// Every entity is listed once and lies below the next id to hand out;
    /// the registered kinds are finitely many and have distinct ids, each
    /// below their number.
    pub open spec fn wf(self) -> bool {
        &&& self.entities.no_duplicates()
        &&& forall|i: int| 0 <= i < self.entities.len() ==> self.entities[i] < self.next_entity
        &&& self.component_ids.dom().finite()
        &&& forall|n: Seq<char>| #[trigger]
            self.component_ids.contains_key(n) ==> self.component_ids[n]
                < self.component_ids.len()
        &&& forall|n1: Seq<char>, n2: Seq<char>|
            #[trigger] self.component_ids.contains_key(n1) && #[trigger] self.component_ids.contains_key(n2)
                && self.component_ids[n1] == self.component_ids[n2] ==> n1 == n2
    }

    /// The components of kind id `k`, none where the kind has no archetype.
    pub open spec fn store(self, k: usize) -> Map<Entity, V> {
        if self.components.contains_key(k) {
            self.components[k]
        } else {
            Map::empty()
        }
    }

    /// `e` taken out of the entity list (its first occurrence swap-removed)
    /// and out of every kind's components.
    pub open spec fn entity_deleted(self, e: Entity) -> Self {
        WorldView {
            entities: swap_removed(self.entities, self.entities.index_of_first(e)->0),
            components: self.components.map_values(|m: Map<Entity, V>| m.remove(e)),
            ..self
        }
    }

    /// `e` given the component `c` of kind id `k`, replacing any it had.
    pub open spec fn component_attached(self, e: Entity, k: usize, c: V) -> Self {
        WorldView { components: self.components.insert(k, self.store(k).insert(e, c)), ..self }
    }

    /// `e`'s component of kind id `k` taken away.
    pub open spec fn component_detached(self, e: Entity, k: usize) -> Self {
        WorldView { components: self.components.insert(k, self.store(k).remove(e)), ..self }
    }

    /// The component of kind `name` that `e` has, if any.
    pub open spec fn component_of(self, e: Entity, name: Seq<char>) -> Option<V> {
        if self.component_ids.contains_key(name) && self.store(
            self.component_ids[name],
        ).contains_key(e) {
            Some(self.store(self.component_ids[name])[e])
        } else {
            None
        }
    }
}

impl<V> View for World<V> {
    type V = WorldView<V>;

    closed spec fn view(&self) -> WorldView<V> {
        WorldView {
            entities: self.entities@,
            next_entity: self.next_entity,
            component_ids: self.component_ids@,
            components: stores_of(archetype_views(self.archetypes@)),
        }
    }
}

impl<V> Default for World<V> {
    fn default() -> (r: Self)
        ensures
            r.wf(),
            r@.entities == Seq::<Entity>::empty(),
            r@.next_entity == 0,
            r@.component_ids == Map::<Seq<char>, usize>::empty(),
            r@.components == Map::<usize, Map<Entity, V>>::empty(),
    {
        Self::new()
    }
}

fn entity_missing_message(e: Entity) -> (s: String)
    ensures
        s@ == entity_missing_text(e),
{
    let mut s = String::from_str("Entity with ID ");
    let digits = decimal_string(e);
    s.append(digits.as_str());
    s.append(" does not exist");
    s
}

fn unregistered_message(name: &str) -> (s: String)
    ensures
        s@ == unregistered_text(name@),
{
    let mut s = String::from_str("Component type not registered: ");
    s.append(name);
    s
}

fn component_missing_message(e: Entity, name: &str) -> (s: String)
    ensures
        s@ == component_missing_text(e, name@),
{
    let mut s = String::from_str("Component not found for entity ID ");
    let digits = decimal_string(e);
    s.append(digits.as_str());
    s.append(": ");
    s.append(name);
    s
}

impl<V> World<V> {
    /// The world's abstract state is well formed, and every archetype is
    /// synced on its own id.
    pub closed spec fn wf(&self) -> bool {
        &&& self@.wf()
        &&& forall|k: usize| #[trigger]
            self.archetypes@.contains_key(k) ==> self.archetypes@[k]@.synced(k)
    }

    /// A well-formed world has a well-formed abstract state: each entity is
    /// listed once and lies below the next id, and distinct kinds have
    /// distinct ids. This is what lets the laws of `ecs::laws` be applied to
    /// a world.
    pub proof fn lemma_view_wf(&self)
        requires
            self.wf(),
        ensures
            self@.wf(),
    {
    }

    pub fn new() -> (r: Self)
        ensures
            r.wf(),
            r@.entities == Seq::<Entity>::empty(),
            r@.next_entity == 0,
            r@.component_ids == Map::<Seq<char>, usize>::empty(),
            r@.components == Map::<usize, Map<Entity, V>>::empty(),
    {
        let r = World {
            entities: Vec::new(),
            next_entity: 0,
            archetypes: HashMap::new(),
            component_ids: StringHashMap::new(),
        };
        assert(r@.components =~= Map::<usize, Map<Entity, V>>::empty());
        r
    }

    /// Creates a new entity in the world and returns its entity ID.
    pub fn create_entity(&mut self) -> (r: Entity)
        requires
            old(self).wf(),
            old(self)@.next_entity < u64::MAX,
        ensures
            final(self).wf(),
            r == old(self)@.next_entity,
            !old(self)@.entities.contains(r),
            final(self)@ == (WorldView {
                entities: old(self)@.entities.push(r),
                next_entity: (r + 1) as u64,
                ..old(self)@
            }),
    {
        let entity = self.next_entity;
        self.next_entity = self.next_entity + 1;
        self.entities.push(entity);
        proof {
            let o = old(self)@.entities;
            let n = self@.entities;
            assert forall|i: int, j: int| 0 <= i < n.len() && 0 <= j < n.len() && i != j implies n[i]
                != n[j] by {
                if i < o.len() && j < o.len() {
                    assert(o[i] == n[i] && o[j] == n[j]);
                }
            }
        }
        entity
    }

    /// Registers a component kind by name and returns its component ID: the
    /// kind's own ID where it is registered already, otherwise the number of
    /// kinds registered before.
    pub fn register_component(&mut self, name: String) -> (r: usize)
        requires
            old(self).wf(),
        ensures
            final(self).wf(),
            old(self)@.component_ids.contains_key(name@) ==> {
                &&& r == old(self)@.component_ids[name@]
                &&& final(self)@ == old(self)@
            },
            !old(self)@.component_ids.contains_key(name@) ==> {
                &&& r == old(self)@.component_ids.len()
                &&& final(self)@ == (WorldView {
                    component_ids: old(self)@.component_ids.insert(name@, r),
                    ..old(self)@
                })
            },
    {
        broadcast use vstd::hash_map::group_hash_map_axioms;

        if let Some(id) = self.component_ids.get(name.as_str()) {
            return *id;
        }
        let component_id = self.component_ids.len();
        self.component_ids.insert(name, component_id);
        proof {
            let o = old(self)@.component_ids;
            let n = self@.component_ids;
            assert(n.dom() == o.dom().insert(name@));
            assert(n.len() == o.len() + 1);
        }
        component_id
    }

    /// Gives an entity a component of the kind registered as `name`,
    /// replacing the entity's component of that kind if it has one. The
    /// kind's archetype is created when it does not exist yet.
    pub fn add_component(&mut self, entity: Entity, name: &str, component: V) -> (r: Result<
        (),
        String,
    >)
        requires
            old(self).wf(),
        ensures
            final(self).wf(),
            old(self)@.component_ids.contains_key(name@) ==> {
                &&& r is Ok
                &&& final(self)@ == old(self)@.component_attached(
                    entity,
                    old(self)@.component_ids[name@],
                    component,
                )
            },
            !old(self)@.component_ids.contains_key(name@) ==> {
                &&& r matches Err(m) && m@ == unregistered_text(name@)
                &&& final(self)@ == old(self)@
            },
    {
        match self.component_ids.get(name) {
            Some(id) => {
                let component_id = *id;
                let ghost old_archetypes = self.archetypes@;
                proof {
                    lemma_archetype_replaced(old_archetypes, component_id);
                }
                match self.archetypes.entry(component_id) {
                    Entry::Occupied(mut slot) => {
                        let archetype = slot.get_mut();
                        let ghost a = archetype@;
                        proof {
                            assert(old_archetypes.contains_key(component_id));
                            assert(a.synced(component_id));
                            a.entities.index_of_first_ensures(entity);
                            if a.entities.contains(entity) {
                                lemma_replaced(a, component_id, entity, component);
                            }
                        }
                        match archetype.get_component_mut(component_id, entity) {
                            Some(value) => {
                                *value = component;
                            },
                            None => {
                                proof {
                                    lemma_added_new(a, component_id, entity, component);
                                }
                                archetype.add_entity(entity);
                                archetype.add_component(component_id, component);
                            },
                        }
                    },
                    Entry::Vacant(slot) => {
                        let mut archetype = Archetype::new();
                        proof {
                            let e = archetype@;
                            assert(e.entities.no_duplicates());
                        }
                        archetype.add_entity(entity);
                        archetype.add_component(component_id, component);
                        proof {
                            let b = archetype@;
                            assert(b.entities =~= seq![entity]);
                            assert(b.data[component_id] =~= seq![component]);
                            assert(b.values(component_id) =~= Map::<Entity, V>::empty().insert(
                                entity,
                                component,
                            )) by {
                                b.entities.index_of_first_ensures(entity);
                                assert forall|x: Entity| #[trigger] b.component(component_id, x)
                                    == (if x == entity {
                                    Some(component)
                                } else {
                                    None
                                }) by {
                                    b.entities.index_of_first_ensures(x);
                                    if x == entity {
                                        assert(b.entities[0] == x);
                                        assert(b.entities.index_of_first(x) == Some(0int));
                                    } else {
                                        assert(!b.entities.contains(x));
                                    }
                                }
                            }
                        }
                        slot.insert(archetype);
                    },
                }
                proof {
                    assert(self@.components =~= old(self)@.component_attached(
                        entity,
                        component_id,
                        component,
                    ).components);
                }
                Ok(())
            },
            None => Err(unregistered_message(name)),
        }
    }

    /// Takes away an entity's component of the kind registered as `name`:
    /// the entity leaves that kind's archetype together with its value, and
    /// every other entity keeps its own. Fails where the kind has no
    /// archetype.
    pub fn remove_component(&mut self, entity: Entity, name: &str) -> (r: Result<(), String>)
        requires
            old(self).wf(),
        ensures
            final(self).wf(),
            ({
                let ids = old(self)@.component_ids;
                if ids.contains_key(name@) && old(self)@.components.contains_key(ids[name@]) {
                    &&& r is Ok
                    &&& final(self)@ == old(self)@.component_detached(entity, ids[name@])
                } else {
                    &&& r matches Err(m) && m@ == unregistered_text(name@)
                    &&& final(self)@ == old(self)@
                }
            }),
    {
        if let Some(id) = self.component_ids.get(name) {
            let component_id = *id;
            let ghost old_archetypes = self.archetypes@;
            proof {
                lemma_archetype_replaced(old_archetypes, component_id);
            }
            match self.archetypes.entry(component_id) {
                Entry::Occupied(mut slot) => {
                    let archetype = slot.get_mut();
                    proof {
                        assert(old_archetypes.contains_key(component_id));
                        lemma_removed(archetype@, component_id, entity);
                        archetype@.entities.index_of_first_ensures(entity);
                    }
                    archetype.remove_component(component_id, entity);
                    archetype.remove_entity(entity);
                    proof {
                        assert(self@.components =~= old(self)@.component_detached(
                            entity,
                            component_id,
                        ).components);
                    }
                    return Ok(());
                },
                Entry::Vacant(_) => {},
            }
        }
        Err(unregistered_message(name))
    }

    /// The component of the kind registered as `name` that an entity has.
    pub fn get_component(&self, entity: Entity, name: &str) -> (r: Result<&V, String>)
        requires
            self.wf(),
        ensures
            match self@.component_of(entity, name@) {
                Some(c) => r matches Ok(x) && *x == c,
                None => r matches Err(m) && m@ == component_missing_text(entity, name@),
            },
    {
        if let Some(id) = self.component_ids.get(name) {
            let component_id = *id;
            if let Some(archetype) = self.archetypes.get(&component_id) {
                proof {
                    assert(self.archetypes@.contains_key(component_id));
                    archetype@.entities.index_of_first_ensures(entity);
                }
                if let Some(component) = archetype.get_component(component_id, entity) {
                    return Ok(component);
                }
            }
        }
        Err(component_missing_message(entity, name))
    }

    /// A mutable reference to the component of the kind registered as `name`
    /// that an entity has; what is written through it becomes the entity's
    /// component of that kind.
    pub fn get_component_mut(&mut self, entity: Entity, name: &str) -> (r: Result<&mut V, String>)
        requires
            old(self).wf(),
        ensures
            final(self).wf(),
            match old(self)@.component_of(entity, name@) {
                Some(c) => r matches Ok(x) && {
                    &&& *x == c
                    &&& final(self)@ == old(self)@.component_attached(
                        entity,
                        old(self)@.component_ids[name@],
                        *final(x),
                    )
                },
                None => r matches Err(m) && {
                    &&& m@ == component_missing_text(entity, name@)
                    &&& final(self)@ == old(self)@
                },
            },
    {
        if let Some(id) = self.component_ids.get(name) {
            let component_id = *id;
            let ghost old_archetypes = self.archetypes@;
            proof {
                lemma_archetype_replaced(old_archetypes, component_id);
            }
            match self.archetypes.entry(component_id) {
                Entry::Occupied(slot) => {
                    let archetype = slot.into_mut();
                    let ghost a = archetype@;
                    proof {
                        assert(old_archetypes.contains_key(component_id));
                        a.entities.index_of_first_ensures(entity);
                        assert(archetype_views(old_archetypes)[component_id] == a);
                        assert(old(self)@.components.contains_key(component_id));
                        assert(old(self)@.store(component_id) == a.values(component_id));
                        assert forall|arch: Archetype<V>| #[trigger] stores_of(
                            archetype_views(old_archetypes.insert(component_id, arch)),
                        ) == old(self)@.components.insert(component_id, arch@.values(component_id)) by {
                            assert(stores_of(archetype_views(old_archetypes.insert(component_id, arch)))
                                =~= old(self)@.components.insert(component_id, arch@.values(component_id)));
                        }
                        assert forall|c: V| #![trigger a.component_set(component_id, entity, c)]
                            a.component_set(component_id, entity, c).synced(component_id)
                            && (a.entities.contains(entity) ==> a.component_set(component_id, entity, c).values(component_id)
                            == a.values(component_id).insert(entity, c)) by {
                            if a.entities.contains(entity) {
                                lemma_replaced(a, component_id, entity, c);
                            }
                        }
                    }
                    if let Some(component) = archetype.get_component_mut(component_id, entity) {
                        proof {
                            assert(a.entities.contains(entity));
                            assert(old(self)@.component_of(entity, name@) == Some(*component));
                        }
                        return Ok(component);
                    }
                },
                Entry::Vacant(_) => {},
            }
        }
        Err(component_missing_message(entity, name))
    }

    /// The ids of all archetypes, each once.
    fn archetype_keys(&self) -> (r: Vec<usize>)
        ensures
            r@.to_set() == self.archetypes@.dom(),
            r@.no_duplicates(),
    {
        let ghost all = spec_keys_iter(&self.archetypes).remaining().unref();
        let mut keys: Vec<usize> = Vec::new();
        for k in it: self.archetypes.keys()
            invariant
                it.seq().unref() == all,
                keys@ == it.seq().take(it.index()).unref(),
        {
            keys.push(*k);
            proof {
                assert(keys@ =~= it.seq().take(it.index() + 1).unref());
            }
        }
        proof {
            assert(keys@ =~= all);
        }
        keys
    }

    /// Removes an entity from every archetype.
    fn remove_from_archetypes(&mut self, entity: Entity)
        requires
            old(self).wf(),
        ensures
            final(self).entities == old(self).entities,
            final(self).next_entity == old(self).next_entity,
            final(self).component_ids == old(self).component_ids,
            archetype_views(final(self).archetypes@) == rows_dropped(
                archetype_views(old(self).archetypes@),
                entity,
            ),
    {
        let keys = self.archetype_keys();
        let ghost before = archetype_views(self.archetypes@);
        let mut i: usize = 0;
        while i < keys.len()
            invariant
                self.entities == old(self).entities,
                self.next_entity == old(self).next_entity,
                self.component_ids == old(self).component_ids,
                before == archetype_views(old(self).archetypes@),
                forall|k: usize| #[trigger] before.contains_key(k) ==> before[k].synced(k),
                keys@.to_set() == before.dom(),
                keys@.no_duplicates(),
                i <= keys.len(),
                archetype_views(self.archetypes@).dom() == before.dom(),
                forall|j: int|
                    0 <= j < i ==> #[trigger] archetype_views(self.archetypes@)[keys@[j]]
                        == before[keys@[j]].row_dropped(keys@[j], entity),
                forall|k: usize|
                    #[trigger] before.contains_key(k) && !keys@.subrange(0, i as int).contains(k)
                        ==> archetype_views(self.archetypes@)[k] == before[k],
            decreases keys.len() - i,
        {
            let k = keys[i];
            let ghost current = self.archetypes@;
            proof {
                lemma_archetype_replaced(current, k);
                assert(keys@.contains(k));
                assert(before.contains_key(k));
                assert(!keys@.subrange(0, i as int).contains(k)) by {
                    if keys@.subrange(0, i as int).contains(k) {
                        let j = choose|j: int| 0 <= j < i && keys@.subrange(0, i as int)[j] == k;
                        assert(keys@[j] == keys@[i as int]);
                    }
                }
            }
            match self.archetypes.entry(k) {
                Entry::Occupied(mut slot) => {
                    let archetype = slot.get_mut();
                    proof {
                        assert(archetype@ == before[k]);
                        archetype@.entities.index_of_first_ensures(entity);
                    }
                    archetype.remove_component(k, entity);
                    archetype.remove_entity(entity);
                },
                Entry::Vacant(_) => {},
            }
            proof {
                assert(!keys@.subrange(0, i as int).contains(k)) by {
                    if keys@.subrange(0, i as int).contains(k) {
                        let j = choose|j: int| 0 <= j < i && keys@.subrange(0, i as int)[j] == k;
                        assert(keys@[j] == keys@[i as int]);
                    }
                }
                assert forall|k2: usize|
                    #[trigger] before.contains_key(k2) && !keys@.subrange(0, i + 1).contains(k2)
                        implies archetype_views(self.archetypes@)[k2] == before[k2] by {
                    assert(keys@.subrange(0, i + 1)[i as int] == k);
                    assert(k2 != k);
                    if keys@.subrange(0, i as int).contains(k2) {
                        let j = choose|j: int|
                            0 <= j < i && keys@.subrange(0, i as int)[j] == k2;
                        assert(keys@.subrange(0, i + 1)[j] == k2);
                    }
                }
                assert forall|j: int| 0 <= j < i + 1 implies #[trigger] archetype_views(
                    self.archetypes@,
                )[keys@[j]] == before[keys@[j]].row_dropped(keys@[j], entity) by {
                    if j < i {
                        assert(keys@[j] != k);
                    }
                }
            }
            i = i + 1;
        }
        proof {
            assert(archetype_views(self.archetypes@) =~= rows_dropped(before, entity)) by {
                assert forall|k: usize| #[trigger] before.contains_key(k) implies archetype_views(
                    self.archetypes@,
                )[k] == before[k].row_dropped(k, entity) by {
                    assert(keys@.to_set().contains(k));
                    let j = choose|j: int| 0 <= j < keys@.len() && keys@[j] == k;
                }
            }
        }
    }

    /// Deletes an entity from the world: the first occurrence of its id is
    /// swap-removed from the entity list, and the entity leaves every
    /// archetype together with its values, so that every other entity keeps
    /// its components.
    pub fn delete_entity(&mut self, entity: Entity) -> (r: Result<(), String>)
        requires
            old(self).wf(),
        ensures
            final(self).wf(),
            old(self)@.entities.contains(entity) ==> {
                &&& r is Ok
                &&& final(self)@ == old(self)@.entity_deleted(entity)
            },
            !old(self)@.entities.contains(entity) ==> {
                &&& r matches Err(m) && m@ == entity_missing_text(entity)
                &&& final(self)@ == old(self)@
            },
    {
        if let Some(index) = find_position(&self.entities, entity) {
            proof {
                lemma_swap_removed_distinct(self.entities@, index as int);
            }
            self.entities.swap_remove(index);
            self.remove_from_archetypes(entity);
            proof {
                old(self)@.entities.index_of_first_ensures(entity);
                let before = archetype_views(old(self).archetypes@);
                let after = archetype_views(self.archetypes@);
                assert forall|k: usize| #[trigger] after.contains_key(k) implies after[k].synced(k)
                    && after[k].values(k) == before[k].values(k).remove(entity) by {
                    assert(before.contains_key(k));
                    assert(old(self).archetypes@.contains_key(k));
                    lemma_removed(before[k], k, entity);
                }
                assert forall|k: usize| #[trigger] self.archetypes@.contains_key(k) implies self.archetypes@[k]@.synced(k) by {
                    assert(after.contains_key(k));
                }
                assert(self@.components =~= old(self)@.components.map_values(
                    |m: Map<Entity, V>| m.remove(entity),
                ));
                assert forall|i: int| 0 <= i < self@.entities.len() implies self@.entities[i]
                    < self@.next_entity by {
                    if i == index {
                        assert(self@.entities[i] == old(self)@.entities.last());
                    } else {
                        assert(self@.entities[i] == old(self)@.entities[i]);
                    }
                }
            }
            Ok(())
        } else {
            proof {
                old(self)@.entities.index_of_first_ensures(entity);
            }
            Err(entity_missing_message(entity))
        }
    }

    /// The id that the next created entity receives.
    pub fn next_entity(&self) -> (r: Entity)
        ensures
            r == self@.next_entity,
    {
        self.next_entity
    }

    /// The entities of the world, in order.
    pub fn iter_entities(&self) -> (r: &[Entity])
        ensures
            r@ == self@.entities,
    {
        self.entities.as_slice()
    }
}

} // verus!
