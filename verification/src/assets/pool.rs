use vstd::hash_map::StringHashMap;
use vstd::prelude::*;

verus! {

/// A pool of assets addressed by name.
///
/// The assets are held in a list of named entries, and a string-keyed map
/// gives each name's position in the list; the map alone cannot hand a
/// removed asset back, the list can.
pub struct AssetPool<A> {
    assets: Vec<(String, A)>,
    index: StringHashMap<usize>,
}

impl<A> View for AssetPool<A> {
    type V = Map<Seq<char>, A>;

    closed spec fn view(&self) -> Map<Seq<char>, A> {
        Map::new(
            |n: Seq<char>| self.index@.contains_key(n),
            |n: Seq<char>| self.assets@[self.index@[n] as int].1,
        )
    }
}

impl<A> AssetPool<A> {
    /// The name `n` of the map points at an entry of that name.
    pub closed spec fn name_points(&self, n: Seq<char>) -> bool {
        self.index@[n] < self.assets@.len() && self.assets@[self.index@[n] as int].0@ == n
    }

    /// The name of entry `i` points at that entry.
    pub closed spec fn entry_indexed(&self, i: int) -> bool {
        self.index@.contains_key(self.assets@[i].0@) && self.index@[self.assets@[i].0@] == i
    }

    /// Every name of the map points at the entry of that name, and every
    /// entry's name points at that entry.
    pub closed spec fn wf(&self) -> bool {
        &&& forall|n: Seq<char>| self.index@.contains_key(n) ==> #[trigger] self.name_points(n)
        &&& forall|i: int| 0 <= i < self.assets@.len() ==> #[trigger] self.entry_indexed(i)
    }

    pub fn new() -> (r: AssetPool<A>)
        ensures
            r.wf(),
            r@ == Map::<Seq<char>, A>::empty(),
    {
        let r = AssetPool { assets: Vec::new(), index: StringHashMap::new() };
        assert(r@ =~= Map::<Seq<char>, A>::empty());
        r
    }

    /// Stores an asset under a name, replacing the asset held there.
    pub fn add_asset(&mut self, name: String, asset: A)
        requires
            old(self).wf(),
        ensures
            final(self).wf(),
            final(self)@ == old(self)@.insert(name@, asset),
    {
        let ghost key = name@;
        let ghost o = old(self).assets@;
        match self.index.get(name.as_str()) {
            Some(i) => {
                let i = *i;
                proof {
                    assert(old(self).name_points(key));
                }
                self.assets.set(i, (name, asset));
                proof {
                    assert forall|n: Seq<char>| self.index@.contains_key(n) implies #[trigger] self.name_points(n) by {
                        assert(old(self).name_points(n));
                        let j = self.index@[n] as int;
                        if j != i {
                            assert(self.assets@[j] == o[j]);
                        }
                    }
                    assert forall|j: int| 0 <= j < self.assets@.len() implies #[trigger] self.entry_indexed(j) by {
                        if j != i {
                            assert(old(self).entry_indexed(j));
                            assert(self.assets@[j] == o[j]);
                        }
                    }
                    assert forall|n: Seq<char>| #[trigger]
                        self@.contains_key(n) && n != key implies self@[n] == old(self)@[n] by {
                        assert(old(self).name_points(n));
                        assert(self.index@[n] != i);
                    }
                }
            },
            None => {
                let position = self.assets.len();
                let key_copy = name.clone();
                self.index.insert(key_copy, position);
                self.assets.push((name, asset));
                proof {
                    assert forall|n: Seq<char>| self.index@.contains_key(n) implies #[trigger] self.name_points(n) by {
                        if n != key {
                            assert(old(self).name_points(n));
                            assert(self.assets@[old(self).index@[n] as int] == o[old(self).index@[n] as int]);
                        }
                    }
                    assert forall|j: int| 0 <= j < self.assets@.len() implies #[trigger] self.entry_indexed(j) by {
                        if j < position {
                            assert(old(self).entry_indexed(j));
                            assert(self.assets@[j] == o[j]);
                            assert(o[j].0@ != key);
                        }
                    }
                    assert forall|n: Seq<char>| #[trigger]
                        self@.contains_key(n) && n != key implies self@[n] == old(self)@[n] by {
                        assert(old(self).name_points(n));
                        assert(self.assets@[old(self).index@[n] as int] == o[old(self).index@[n] as int]);
                    }
                }
            },
        }
        proof {
            assert(self@ =~= old(self)@.insert(key, asset));
        }
    }

    /// Takes the asset held under a name out of the pool.
    pub fn remove_asset(&mut self, name: &str) -> (r: Option<A>)
        requires
            old(self).wf(),
        ensures
            final(self).wf(),
            final(self)@ == old(self)@.remove(name@),
            r matches Some(a) ==> old(self)@.contains_key(name@) && old(self)@[name@] == a,
            r is None ==> !old(self)@.contains_key(name@),
    {
        match self.index.get(name) {
            Some(i) => {
                let i = *i;
                let ghost o = old(self).assets@;
                let ghost last = o.len() - 1;
                proof {
                    assert(old(self).name_points(name@));
                    assert(old(self).entry_indexed(last));
                }
                let entry = self.assets.swap_remove(i);
                if i < self.assets.len() {
                    let moved = self.assets[i].0.clone();
                    self.index.insert(moved, i);
                }
                self.index.remove(name);
                proof {
                    let e = self.assets@;
                    assert(entry == o[i as int]);
                    assert forall|j: int| 0 <= j < e.len() implies #[trigger] e[j] == (if j == i {
                        o[last]
                    } else {
                        o[j]
                    }) by {}
                    assert forall|j: int| 0 <= j < e.len() implies #[trigger] self.entry_indexed(j) by {
                        let oj = if j == i { last } else { j };
                        assert(e[j] == o[oj]);
                        assert(old(self).entry_indexed(oj));
                        assert(o[oj].0@ != name@);
                    }
                    assert forall|n: Seq<char>| self.index@.contains_key(n) implies #[trigger] self.name_points(n)
                        && e[self.index@[n] as int] == o[old(self).index@[n] as int] by {
                        assert(n != name@);
                        assert(old(self).index@.contains_key(n));
                        assert(old(self).name_points(n));
                        let oj = old(self).index@[n] as int;
                        assert(oj != i);
                        if i < e.len() && n == o[last].0@ {
                            assert(self.index@[n] == i);
                            assert(e[i as int] == o[last]);
                        } else {
                            assert(self.index@[n] == old(self).index@[n]);
                            if oj == last {
                                assert(i == last);
                            }
                            assert(e[oj] == o[oj]);
                        }
                    }
                    assert forall|n: Seq<char>| #[trigger]
                        self@.contains_key(n) implies self@[n] == old(self)@[n] by {
                        assert(self.name_points(n));
                    }
                    assert(self@ =~= old(self)@.remove(name@));
                }
                Some(entry.1)
            },
            None => {
                proof {
                    assert(old(self)@.remove(name@) =~= old(self)@);
                }
                None
            },
        }
    }

    /// The asset held under a name.
    pub fn get_asset(&self, name: &str) -> (r: Option<&A>)
        requires
            self.wf(),
        ensures
            r matches Some(a) ==> self@.contains_key(name@) && self@[name@] == *a,
            r is None ==> !self@.contains_key(name@),
    {
        match self.index.get(name) {
            Some(i) => {
                proof {
                    assert(self.name_points(name@));
                }
                Some(&self.assets[*i].1)
            },
            None => None,
        }
    }
}

/// An asset stored under a name is what a lookup of that name then finds,
/// and what taking that name out then returns; after it is taken out, the
/// name finds nothing.
pub proof fn lemma_add_then_get_then_remove<A>(pool: Map<Seq<char>, A>, name: Seq<char>, a: A)
    ensures
        pool.insert(name, a).contains_key(name),
        pool.insert(name, a)[name] == a,
        !pool.insert(name, a).remove(name).contains_key(name),
        pool.insert(name, a).remove(name) == pool.remove(name),
{
    assert(pool.insert(name, a).remove(name) =~= pool.remove(name));
}

} // verus!
