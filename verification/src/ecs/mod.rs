//! Entity-component storage: archetypes and the world that owns them.

use vstd::prelude::*;

pub mod archetype;
pub mod world;
pub mod laws;

verus! {

/// Identifier of an entity.
pub type Entity = u64;

/// The sequence `s` with element `i` replaced by the last one and the last
/// slot dropped: what `Vec::swap_remove(i)` leaves behind.
pub open spec fn swap_removed<T>(s: Seq<T>, i: int) -> Seq<T> {
    s.update(i, s.last()).drop_last()
}

/// Index of the first occurrence of `e` in `v`, if there is one.
pub fn find_position(v: &Vec<Entity>, e: Entity) -> (r: Option<usize>)
    ensures
        r matches Some(i) ==> i < v.len() && v@[i as int] == e && v@.index_of_first(e) == Some(
            i as int,
        ),
        r is None ==> v@.index_of_first(e) is None,
{
    let mut i: usize = 0;
    while i < v.len()
        invariant
            i <= v.len(),
            forall|j: int| 0 <= j < i ==> v@[j] != e,
        decreases v.len() - i,
    {
        if v[i] == e {
            proof {
                v@.index_of_first_ensures(e);
            }
            return Some(i);
        }
        i = i + 1;
    }
    proof {
        v@.index_of_first_ensures(e);
    }
    None
}

} // verus!
