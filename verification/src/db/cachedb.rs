use vstd::prelude::*;
use crate::db::plain::Plain;
use crate::text::starts_with;
use crate::text::text_starts_with;

verus! {

/// One object of the cache under its identifier.
pub struct CacheEntry<V: Plain> {
    pub id: String,
    pub content: V,
}

/// What is left of a cache when the objects whose identifier begins with `prefix` are gone.
pub open spec fn without_prefix<M>(objects: Map<Seq<char>, M>, prefix: Seq<char>) -> Map<
    Seq<char>,
    M,
> {
    Map::new(
        |id: Seq<char>| objects.contains_key(id) && !starts_with(id, prefix),
        |id: Seq<char>| objects[id],
    )
}

/// The counter after one step up; at the largest value it stays.
pub open spec fn stepped_up(count: int) -> int {
    if count < i32::MAX {
        count + 1
    } else {
        count
    }
}

/// The counter after one step down; at the smallest value it stays.
pub open spec fn stepped_down(count: int) -> int {
    if count > i32::MIN {
        count - 1
    } else {
        count
    }
}

/// The key-value cache, held in memory. Identifiers follow the form `TYPE_OF_OBJECT:OBJECT_ID`.
pub struct CacheDB<V: Plain> {
    entries: Vec<CacheEntry<V>>,
}

impl<V: Plain> CacheDB<V> {
    /// Some entry has the identifier.
    pub closed spec fn holds(&self, id: Seq<char>) -> bool {
        exists|i: int| 0 <= i < self.entries@.len() && (#[trigger] self.entries@[i]).id@ == id
    }

    /// The index of an entry with the identifier.
    pub closed spec fn slot(&self, id: Seq<char>) -> int {
        choose|i: int| 0 <= i < self.entries@.len() && (#[trigger] self.entries@[i]).id@ == id
    }

    /// The objects of the cache by their identifiers.
    pub closed spec fn view(&self) -> Map<Seq<char>, V::Model> {
        Map::new(
            |id: Seq<char>| self.holds(id),
            |id: Seq<char>| self.entries@[self.slot(id)].content.model(),
        )
    }

    /// No identifier stands twice.
    pub closed spec fn wf(&self) -> bool {
        forall|i: int, j: int|
            0 <= i < self.entries@.len() && 0 <= j < self.entries@.len() && self.entries@[i].id@
                == self.entries@[j].id@ ==> i == j
    }

    /// An empty cache.
    pub fn new() -> (cache: CacheDB<V>)
        ensures
            cache.wf(),
            cache@ == Map::<Seq<char>, V::Model>::empty(),
    {
        let cache = CacheDB { entries: Vec::new() };
        assert(cache@ =~= Map::<Seq<char>, V::Model>::empty());
        cache
    }

    fn locate(&self, id: &String) -> (at: Option<usize>)
        requires
            self.wf(),
        ensures
            match at {
                Some(i) => i < self.entries@.len() && self.entries@[i as int].id@ == id@
                    && self.holds(id@) && self.slot(id@) == i,
                None => !self.holds(id@),
            },
    {
        let mut i: usize = 0;
        while i < self.entries.len()
            invariant
                self.wf(),
                i <= self.entries@.len(),
                forall|k: int| 0 <= k < i ==> (#[trigger] self.entries@[k]).id@ != id@,
            decreases self.entries@.len() - i,
        {
            if self.entries[i].id == *id {
                proof {
                    assert(self.entries@[i as int].id@ == id@);
                    let at = self.slot(id@);
                    assert(self.entries@[at].id@ == id@);
                }
                return Some(i);
            }
            i += 1;
        }
        None
    }

    /// The object under the identifier.
    pub fn get(&self, id: &String) -> (found: Option<V>)
        requires
            self.wf(),
        ensures
            found.model() == (if self@.contains_key(id@) {
                Some(self@[id@])
            } else {
                None
            }),
    {
        match self.locate(id) {
            Some(i) => Some(self.entries[i].content.replica()),
            None => None,
        }
    }

    /// Puts the object under the identifier, in place of what was there.
    pub fn set(&mut self, id: String, content: V)
        requires
            old(self).wf(),
        ensures
            final(self).wf(),
            final(self)@ == old(self)@.insert(id@, content.model()),
    {
        let ghost before = *self;
        let ghost id_text = id@;
        let ghost model = content.model();
        match self.locate(&id) {
            Some(i) => {
                self.entries.set(i, CacheEntry { id, content });
                proof {
                    assert forall|k: Seq<char>| self.holds(k) == before.holds(k) by {
                        if before.holds(k) {
                            let s = before.slot(k);
                            assert(self.entries@[s].id@ == k);
                        }
                        if self.holds(k) {
                            let s = self.slot(k);
                            assert(before.entries@[s].id@ == k);
                        }
                    }
                    assert forall|k: Seq<char>| self.holds(k) && k != id_text implies self.slot(k)
                        == before.slot(k) by {
                        let s = self.slot(k);
                        let t = before.slot(k);
                        assert(before.entries@[s].id@ == k);
                        assert(before.entries@[t].id@ == k);
                    }
                    assert(self.entries@[i as int].id@ == id_text);
                    assert(self.holds(id_text));
                    assert(self.slot(id_text) == i);
                    assert(self@ =~= before@.insert(id_text, model));
                }
            },
            None => {
                self.entries.push(CacheEntry { id, content });
                proof {
                    let last = before.entries@.len() as int;
                    assert(self.entries@[last].id@ == id_text);
                    assert forall|k: Seq<char>| self.holds(k) == (before.holds(k) || k
                        == id_text) by {
                        if before.holds(k) {
                            let s = before.slot(k);
                            assert(self.entries@[s].id@ == k);
                        }
                        if self.holds(k) {
                            let s = self.slot(k);
                            if s < last {
                                assert(before.entries@[s].id@ == k);
                            }
                        }
                    }
                    assert forall|k: Seq<char>| before.holds(k) implies self.slot(k)
                        == before.slot(k) by {
                        let s = self.slot(k);
                        let t = before.slot(k);
                        assert(self.entries@[t].id@ == k);
                    }
                    assert(self.slot(id_text) == last);
                    assert(self@ =~= before@.insert(id_text, model));
                }
            },
        }
    }

    /// Puts the object under the identifier, as `set` does.
    pub fn update(&mut self, id: String, content: V)
        requires
            old(self).wf(),
        ensures
            final(self).wf(),
            final(self)@ == old(self)@.insert(id@, content.model()),
    {
        self.set(id, content)
    }

    /// Takes out the object under the identifier.
    pub fn remove(&mut self, id: &String)
        requires
            old(self).wf(),
        ensures
            final(self).wf(),
            final(self)@ == old(self)@.remove(id@),
    {
        let ghost before = *self;
        match self.locate(id) {
            Some(i) => {
                self.entries.remove(i);
                proof {
                    assert forall|a: int| 0 <= a < self.entries@.len() implies (
                    #[trigger] self.entries@[a]) == before.entries@[if a < i {
                        a
                    } else {
                        a + 1
                    }] by {}
                    assert forall|k: Seq<char>| self.holds(k) == (before.holds(k) && k != id@) by {
                        if before.holds(k) && k != id@ {
                            let s = before.slot(k);
                            let a = if s < i { s } else { s - 1 };
                            assert(self.entries@[a].id@ == k);
                        }
                        if self.holds(k) {
                            let a = self.slot(k);
                            let s = if a < i { a } else { a + 1 };
                            assert(before.entries@[s].id@ == k);
                        }
                    }
                    assert forall|k: Seq<char>| self.holds(k) implies self.entries@[self.slot(
                        k,
                    )].content.model() == before.entries@[before.slot(k)].content.model() by {
                        let a = self.slot(k);
                        let s = if a < i { a } else { a + 1 };
                        assert(before.entries@[s].id@ == k);
                        assert(before.entries@[before.slot(k)].id@ == k);
                    }
                    assert(self@ =~= before@.remove(id@));
                }
            },
            None => {
                assert(self@ =~= before@.remove(id@));
            },
        }
    }

    /// Takes out the objects whose identifier begins with `prefix`.
    pub fn remove_starting_with(&mut self, prefix: &String)
        requires
            old(self).wf(),
        ensures
            final(self).wf(),
            final(self)@ == without_prefix(old(self)@, prefix@),
    {
        let ghost before = *self;
        let mut i: usize = 0;
        while i < self.entries.len()
            invariant
                self.wf(),
                before.wf(),
                i <= self.entries@.len(),
                forall|k: int| 0 <= k < i ==> !starts_with((#[trigger] self.entries@[k]).id@, prefix@),
                forall|id: Seq<char>|
                    self.holds(id) == (before.holds(id) && (!starts_with(id, prefix@) || exists|k: int|
                        i <= k < self.entries@.len() && (#[trigger] self.entries@[k]).id@ == id)),
                forall|id: Seq<char>|
                    self.holds(id) ==> self.entries@[self.slot(id)].content.model()
                        == before.entries@[before.slot(id)].content.model(),
            decreases self.entries@.len() - i,
        {
            if text_starts_with(self.entries[i].id.as_str(), prefix.as_str()) {
                let ghost held = *self;
                self.entries.remove(i);
                proof {
                    assert forall|a: int| 0 <= a < self.entries@.len() implies (
                    #[trigger] self.entries@[a]) == held.entries@[if a < i {
                        a
                    } else {
                        a + 1
                    }] by {}
                    let gone = held.entries@[i as int].id@;
                    assert forall|id: Seq<char>| self.holds(id) == (held.holds(id) && id
                        != gone) by {
                        if held.holds(id) && id != gone {
                            let s = held.slot(id);
                            let a = if s < i { s } else { s - 1 };
                            assert(self.entries@[a].id@ == id);
                        }
                        if self.holds(id) {
                            let a = self.slot(id);
                            let s = if a < i { a } else { a + 1 };
                            assert(held.entries@[s].id@ == id);
                        }
                    }
                    assert forall|id: Seq<char>| self.holds(id) implies self.entries@[self.slot(
                        id,
                    )].content.model() == before.entries@[before.slot(id)].content.model() by {
                        let a = self.slot(id);
                        let s = if a < i { a } else { a + 1 };
                        assert(self.entries@[a].id@ == id);
                        assert(held.entries@[s].id@ == id);
                        assert(held.holds(id));
                        assert(held.entries@[held.slot(id)].id@ == id);
                        assert(held.slot(id) == s);
                        assert(before.holds(id));
                    }
                    assert forall|id: Seq<char>|
                        self.holds(id) == (before.holds(id) && (!starts_with(id, prefix@)
                            || exists|k: int|
                            i <= k < self.entries@.len() && (#[trigger] self.entries@[k]).id@
                                == id)) by {
                        if self.holds(id) && starts_with(id, prefix@) {
                            let a = self.slot(id);
                            assert(self.entries@[a].id@ == id);
                            assert(a >= i);
                        }
                        if before.holds(id) && exists|k: int|
                            i <= k < self.entries@.len() && (#[trigger] self.entries@[k]).id@
                                == id {
                            let k = choose|k: int|
                                i <= k < self.entries@.len() && (#[trigger] self.entries@[k]).id@
                                    == id;
                            assert(self.entries@[k].id@ == id);
                        }
                        if before.holds(id) && !starts_with(id, prefix@) {
                            assert(held.holds(id));
                        }
                    }
                }
            } else {
                proof {
                    assert forall|id: Seq<char>|
                        self.holds(id) == (before.holds(id) && (!starts_with(id, prefix@)
                            || exists|k: int|
                            i + 1 <= k < self.entries@.len() && (#[trigger] self.entries@[k]).id@
                                == id)) by {
                        if self.holds(id) && starts_with(id, prefix@) {
                            let k = choose|k: int|
                                i <= k < self.entries@.len() && (#[trigger] self.entries@[k]).id@
                                    == id;
                            assert(k != i);
                        }
                    }
                }
                i += 1;
            }
        }
        assert(self@ =~= without_prefix(before@, prefix@));
    }
}

impl CacheDB<i32> {
    /// Counts the object under the identifier one up; a missing one counts as zero before.
    pub fn incr(&mut self, id: String)
        requires
            old(self).wf(),
        ensures
            final(self).wf(),
            final(self)@ == old(self)@.insert(
                id@,
                stepped_up(
                    if old(self)@.contains_key(id@) {
                        old(self)@[id@]
                    } else {
                        0
                    },
                ),
            ),
    {
        let count: i32 = match self.get(&id) {
            Some(count) => count,
            None => 0,
        };
        let next: i32 = if count < i32::MAX { count + 1 } else { count };
        self.set(id, next);
    }

    /// Counts the object under the identifier one down; a missing one counts as zero before.
    pub fn decr(&mut self, id: String)
        requires
            old(self).wf(),
        ensures
            final(self).wf(),
            final(self)@ == old(self)@.insert(
                id@,
                stepped_down(
                    if old(self)@.contains_key(id@) {
                        old(self)@[id@]
                    } else {
                        0
                    },
                ),
            ),
    {
        let count: i32 = match self.get(&id) {
            Some(count) => count,
            None => 0,
        };
        let next: i32 = if count > i32::MIN { count - 1 } else { count };
        self.set(id, next);
    }
}

} // verus!
