use std::collections::hash_map::Entry;
use std::collections::HashMap;
use vstd::prelude::*;

use crate::ecs::{find_position, swap_removed, Entity};

verus! {

broadcast use vstd::std_specs::hash::group_hash_axioms;

/// Entities that share a set of component kinds, with one column of
/// component values per component id.
///
/// An entity's value in a column is the one at the entity's first position
/// in the entity list. The entity list and the columns are changed by
/// separate calls: to take an entity out together with its value, remove
/// the value (`remove_component`) and then the entity (`remove_entity`).
pub struct Archetype<V> {
    entities: Vec<Entity>,
    component_data: HashMap<usize, Vec<V>>,
}

/// The abstract state of an [`Archetype`].
pub struct ArchetypeView<V> {
    pub entities: Seq<Entity>,
    pub data: Map<usize, Seq<V>>,
}

impl<V> ArchetypeView<V> {
    /// The column of `id`, empty where there is none.
    pub open spec fn column(self, id: usize) -> Seq<V> {
        if self.data.contains_key(id) {
            self.data[id]
        } else {
            Seq::empty()
        }
    }

    /// The slot of `e` in the column of `id`: the first position of `e`
    /// in the entity list, where the column exists and `e` occurs.
    pub open spec fn slot(self, id: usize, e: Entity) -> Option<int> {
        if self.data.contains_key(id) {
            self.entities.index_of_first(e)
        } else {
            None
        }
    }

    /// The slot of `e` for `id`, where there is one, lies inside the column.
    pub open spec fn slot_in_range(self, id: usize, e: Entity) -> bool {
        self.slot(id, e) matches Some(i) ==> i < self.data[id].len()
    }

    /// The value stored for `e` in the column of `id`.
    pub open spec fn component(self, id: usize, e: Entity) -> Option<V> {
        match self.slot(id, e) {
            Some(i) => Some(self.data[id][i]),
            None => None,
        }
    }

    /// The value at the slot of `e` in the column of `id` replaced by `c`.
    pub open spec fn component_set(self, id: usize, e: Entity, c: V) -> Self {
        match self.slot(id, e) {
            Some(i) => ArchetypeView {
                entities: self.entities,
                data: self.data.insert(id, self.data[id].update(i, c)),
            },
            None => self,
        }
    }

    /// `e` appended to the entity list.
    pub open spec fn entity_added(self, e: Entity) -> Self {
        ArchetypeView { entities: self.entities.push(e), data: self.data }
    }

    /// The first occurrence of `e` swap-removed from the entity list; the
    /// columns stay as they are.
    pub open spec fn entity_removed(self, e: Entity) -> Self {
        match self.entities.index_of_first(e) {
            Some(i) => ArchetypeView { entities: swap_removed(self.entities, i), data: self.data },
            None => self,
        }
    }

    /// `e`'s value swap-removed from the column of `id`, and then `e`
    /// swap-removed from the entity list: the entity leaves together with
    /// its value, at the same position.
    pub open spec fn row_dropped(self, id: usize, e: Entity) -> Self {
        self.component_removed(id, e).entity_removed(e)
    }

    /// The archetype holds a column for `id`, lists each entity once, and
    /// has exactly one value in that column per listed entity.
    pub open spec fn synced(self, id: usize) -> bool {
        &&& self.data.contains_key(id)
        &&& self.entities.no_duplicates()
        &&& self.entities.len() == self.data[id].len()
    }

    /// The value of each listed entity in the column of `id`.
    pub open spec fn values(self, id: usize) -> Map<Entity, V> {
        Map::new(|e: Entity| self.component(id, e) is Some, |e: Entity| self.component(id, e)->0)
    }

    /// `c` appended to the column of `id`, the column created if needed.
    pub open spec fn component_added(self, id: usize, c: V) -> Self {
        ArchetypeView { entities: self.entities, data: self.data.insert(id, self.column(id).push(c)) }
    }

    /// The value at the slot of `e` swap-removed from the column of `id`.
    pub open spec fn component_removed(self, id: usize, e: Entity) -> Self {
        match self.slot(id, e) {
            Some(i) => ArchetypeView {
                entities: self.entities,
                data: self.data.insert(id, swap_removed(self.data[id], i)),
            },
            None => self,
        }
    }
}

/// In a sequence without duplicates, the first position of an element is
/// its only position.
pub proof fn lemma_index_unique(s: Seq<Entity>, i: int)
    requires
        s.no_duplicates(),
        0 <= i < s.len(),
    ensures
        s.index_of_first(s[i]) == Some(i),
{
    s.index_of_first_ensures(s[i]);
}

/// Appending an entity that is not listed, with its value, to a synced
/// archetype keeps it synced and maps the entity to the value.
pub proof fn lemma_added_new<V>(a: ArchetypeView<V>, id: usize, e: Entity, c: V)
    requires
        a.synced(id),
        !a.entities.contains(e),
    ensures
        a.entity_added(e).component_added(id, c).synced(id),
        a.entity_added(e).component_added(id, c).values(id) == a.values(id).insert(e, c),
{
    let b = a.entity_added(e).component_added(id, c);
    assert(b.entities.no_duplicates()) by {
        assert forall|i: int, j: int|
            0 <= i < b.entities.len() && 0 <= j < b.entities.len() && i != j implies b.entities[i]
            != b.entities[j] by {
            if i == a.entities.len() as int {
                assert(a.entities[j] == b.entities[j]);
            } else if j == a.entities.len() as int {
                assert(a.entities[i] == b.entities[i]);
            }
        }
    }
    assert(b.values(id) =~= a.values(id).insert(e, c)) by {
        assert forall|x: Entity| #[trigger] b.component(id, x) == (if x == e {
            Some(c)
        } else {
            a.component(id, x)
        }) by {
            b.entities.index_of_first_ensures(x);
            a.entities.index_of_first_ensures(x);
            if x == e {
                lemma_index_unique(b.entities, a.entities.len() as int);
            } else if a.entities.contains(x) {
                let j = choose|j: int| 0 <= j < a.entities.len() && a.entities[j] == x;
                lemma_index_unique(a.entities, j);
                lemma_index_unique(b.entities, j);
            } else {
                assert(!b.entities.contains(x)) by {
                    if b.entities.contains(x) {
                        let j = choose|j: int| 0 <= j < b.entities.len() && b.entities[j] == x;
                        assert(a.entities[j] == x);
                    }
                }
            }
        }
    }
}

/// Replacing the value of a listed entity in a synced archetype keeps it
/// synced and maps the entity to the new value; the other entities keep
/// theirs.
pub proof fn lemma_replaced<V>(a: ArchetypeView<V>, id: usize, e: Entity, c: V)
    requires
        a.synced(id),
        a.entities.contains(e),
    ensures
        a.component_set(id, e, c).synced(id),
        a.component_set(id, e, c).values(id) == a.values(id).insert(e, c),
{
    a.entities.index_of_first_ensures(e);
    let i = a.entities.index_of_first(e)->0;
    let b = a.component_set(id, e, c);
    assert(b.values(id) =~= a.values(id).insert(e, c)) by {
        assert forall|x: Entity| #[trigger] b.component(id, x) == (if x == e {
            Some(c)
        } else {
            a.component(id, x)
        }) by {
            a.entities.index_of_first_ensures(x);
            if x != e && a.entities.contains(x) {
                let j = a.entities.index_of_first(x)->0;
                assert(j != i);
            }
        }
    }
}

/// Dropping an entity's row from a synced archetype keeps it synced, and the
/// entity no longer has a value; the other entities keep theirs.
pub proof fn lemma_removed<V>(a: ArchetypeView<V>, id: usize, e: Entity)
    requires
        a.synced(id),
    ensures
        a.row_dropped(id, e).synced(id),
        a.row_dropped(id, e).values(id) == a.values(id).remove(e),
{
    a.entities.index_of_first_ensures(e);
    let b = a.row_dropped(id, e);
    match a.entities.index_of_first(e) {
        None => {
            assert(b.values(id) =~= a.values(id).remove(e)) by {
                assert(a.component(id, e) is None);
            }
        },
        Some(i) => {
            let s = a.entities;
            let last = s.len() - 1;
            assert(a.slot(id, e) == Some(i));
            assert(a.component_removed(id, e).entities == s);
            assert(b.data[id] == swap_removed(a.data[id], i));
            assert forall|j: int| 0 <= j < b.entities.len() implies #[trigger] b.entities[j] == (
            if j == i {
                s[last]
            } else {
                s[j]
            }) && b.data[id][j] == (if j == i {
                a.data[id][last]
            } else {
                a.data[id][j]
            }) by {}
            assert(b.entities.no_duplicates()) by {
                assert forall|j1: int, j2: int|
                    0 <= j1 < b.entities.len() && 0 <= j2 < b.entities.len() && j1 != j2 implies b.entities[j1]
                    != b.entities[j2] by {
                    let o1 = if j1 == i { last } else { j1 };
                    let o2 = if j2 == i { last } else { j2 };
                    assert(b.entities[j1] == s[o1]);
                    assert(b.entities[j2] == s[o2]);
                }
            }
            assert(b.values(id) =~= a.values(id).remove(e)) by {
                assert forall|x: Entity| #[trigger] b.component(id, x) == (if x == e {
                    None
                } else {
                    a.component(id, x)
                }) by {
                    b.entities.index_of_first_ensures(x);
                    s.index_of_first_ensures(x);
                    if b.entities.contains(x) {
                        let j = choose|j: int| 0 <= j < b.entities.len() && b.entities[j] == x;
                        lemma_index_unique(b.entities, j);
                        let o = if j == i { last } else { j };
                        assert(s[o] == x);
                        lemma_index_unique(s, o);
                        assert(o != i);
                    } else if s.contains(x) && x != e {
                        let o = choose|o: int| 0 <= o < s.len() && s[o] == x;
                        lemma_index_unique(s, o);
                        assert(o != i);
                        let j = if o == last { i } else { o };
                        assert(b.entities[j] == x);
                    }
                }
            }
        },
    }
}

/// A value written at an entity's slot is what a later lookup of that entity
/// finds, and every other entity keeps its value (where the column has a
/// value for each listed entity).
pub proof fn lemma_write_then_read<V>(a: ArchetypeView<V>, id: usize, e: Entity, c: V)
    requires
        a.component(id, e) is Some,
        a.entities.len() <= a.data[id].len(),
    ensures
        a.component_set(id, e, c).component(id, e) == Some(c),
        forall|x: Entity| x != e ==> #[trigger] a.component_set(id, e, c).component(id, x) == a.component(id, x),
{
    a.entities.index_of_first_ensures(e);
    assert forall|x: Entity| x != e implies #[trigger] a.component_set(id, e, c).component(id, x)
        == a.component(id, x) by {
        a.entities.index_of_first_ensures(x);
        if a.entities.contains(x) {
            let j = a.entities.index_of_first(x)->0;
            assert(j != a.entities.index_of_first(e)->0);
        }
    }
}

/// The views of the stored columns.
pub open spec fn column_views<V>(m: Map<usize, Vec<V>>) -> Map<usize, Seq<V>> {
    m.map_values(|v: Vec<V>| v@)
}

/// Replacing one column of the stored map and then taking views is the same
/// as taking views and then replacing that column's view.
proof fn lemma_column_replaced<V>(m: Map<usize, Vec<V>>, id: usize)
    ensures
        forall|c: Vec<V>|
            #[trigger] column_views(m.insert(id, c)) == column_views(m).insert(id, c@),
{
    assert forall|c: Vec<V>| #[trigger]
        column_views(m.insert(id, c)) == column_views(m).insert(id, c@) by {
        assert(column_views(m.insert(id, c)) =~= column_views(m).insert(id, c@));
    }
}

impl<V> View for Archetype<V> {
    type V = ArchetypeView<V>;

    closed spec fn view(&self) -> ArchetypeView<V> {
        ArchetypeView {
            entities: self.entities@,
            data: column_views(self.component_data@),
        }
    }
}

impl<V> Archetype<V> {
    /// Creates a new empty archetype.
    pub fn new() -> (r: Self)
        ensures
            r@.entities == Seq::<Entity>::empty(),
            r@.data == Map::<usize, Seq<V>>::empty(),
    {
        let r = Archetype { entities: Vec::new(), component_data: HashMap::new() };
        assert(r@.data =~= Map::<usize, Seq<V>>::empty());
        r
    }

    /// Adds an entity to the archetype.
    pub fn add_entity(&mut self, entity: Entity)
        ensures
            final(self)@ == old(self)@.entity_added(entity),
    {
        self.entities.push(entity);
    }

    /// Removes the first occurrence of an entity from the entity list, moving
    /// the last entity into its place. The columns are left as they are:
    /// the entity's values are removed with `remove_component`.
    pub fn remove_entity(&mut self, entity: Entity)
        ensures
            final(self)@ == old(self)@.entity_removed(entity),
    {
        if let Some(index) = find_position(&self.entities, entity) {
            self.entities.swap_remove(index);
        }
    }

    /// Appends a component value to the column of `component_id`, creating
    /// the column if it does not exist yet.
    pub fn add_component(&mut self, component_id: usize, component: V)
        ensures
            final(self)@ == old(self)@.component_added(component_id, component),
    {
        let column = self.component_data.entry(component_id).or_insert(Vec::new());
        column.push(component);
        proof {
            assert(self@.data =~= old(self)@.component_added(component_id, component).data);
        }
    }

    /// Removes the value at the entity's slot from the column of
    /// `component_id`, moving the column's last value into its place.
    pub fn remove_component(&mut self, component_id: usize, entity: Entity)
        requires
            old(self)@.slot_in_range(component_id, entity),
        ensures
            final(self)@ == old(self)@.component_removed(component_id, entity),
    {
        if let Some(index) = find_position(&self.entities, entity) {
            match self.component_data.entry(component_id) {
                Entry::Occupied(mut slot) => {
                    let column = slot.get_mut();
                    column.swap_remove(index);
                },
                Entry::Vacant(_) => {},
            }
        }
        proof {
            assert(self@.data =~= old(self)@.component_removed(component_id, entity).data);
        }
    }

    /// The value stored for the entity in the column of `component_id`.
    pub fn get_component(&self, component_id: usize, entity: Entity) -> (r: Option<&V>)
        requires
            self@.slot_in_range(component_id, entity),
        ensures
            r matches Some(c) ==> self@.component(component_id, entity) == Some(*c),
            r is None ==> self@.component(component_id, entity) is None,
    {
        if let Some(column) = self.component_data.get(&component_id) {
            if let Some(index) = find_position(&self.entities, entity) {
                return Some(&column[index]);
            }
        }
        None
    }

    /// A mutable reference to the value stored for the entity in the column
    /// of `component_id`.
    pub fn get_component_mut(&mut self, component_id: usize, entity: Entity) -> (r: Option<&mut V>)
        requires
            old(self)@.slot_in_range(component_id, entity),
        ensures
            r matches Some(c) ==> {
                &&& old(self)@.component(component_id, entity) == Some(*c)
                &&& final(self)@ == old(self)@.component_set(component_id, entity, *final(c))
            },
            r is None ==> {
                &&& old(self)@.component(component_id, entity) is None
                &&& final(self)@ == old(self)@
            },
    {
        proof {
            lemma_column_replaced(old(self).component_data@, component_id);
            assert(!old(self).component_data@.contains_key(component_id) ==> old(
                self,
            ).component_data@.remove(component_id) =~= old(self).component_data@);
        }
        if let Some(index) = find_position(&self.entities, entity) {
            match self.component_data.entry(component_id) {
                Entry::Occupied(slot) => {
                    let column = slot.into_mut();
                    return Some(&mut column[index]);
                },
                Entry::Vacant(_) => {},
            }
        }
        None
    }

    /// The entities of the archetype, in order.
    pub fn iter_entities(&self) -> (r: &[Entity])
        ensures
            r@ == self@.entities,
    {
        self.entities.as_slice()
    }
}

} // verus!
