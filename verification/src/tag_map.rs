//! A map from tag names to values, in which every tag occurs once.

use vstd::prelude::*;

verus! {

/// A map keyed by tag name. The entries keep the order in which their tags
/// were first inserted; inserting a tag again replaces its value.
#[derive(Debug)]
pub struct TagMap<T> {
    tags: Vec<String>,
    values: Vec<T>,
}

/// The tags of a list of strings, as mathematical values.
pub open spec fn views_of(tags: Seq<String>) -> Seq<Seq<char>> {
    Seq::new(tags.len(), |i: int| tags[i]@)
}

impl<T> TagMap<T> {
    /// The tags, in insertion order.
    pub closed spec fn tags(self) -> Seq<Seq<char>> {
        views_of(self.tags@)
    }

    /// The values, each at the index of its tag.
    pub closed spec fn values(self) -> Seq<T> {
        self.values@
    }

    /// Well-formedness: one value per tag, and no tag twice.
    pub open spec fn wf(self) -> bool {
        &&& self.tags().len() == self.values().len()
        &&& self.tags().no_duplicates()
    }

    /// The map as a mathematical map.
    pub open spec fn view(self) -> Map<Seq<char>, T> {
        Map::new(|tag: Seq<char>| self.tags().contains(tag), |tag: Seq<char>| self.values()[self.tags().index_of(tag)])
    }

    /// The empty map.
    pub fn new() -> (map: Self)
        ensures
            map.wf(),
            map.tags() == Seq::<Seq<char>>::empty(),
            map.values() == Seq::<T>::empty(),
            map@ == Map::<Seq<char>, T>::empty(),
    {
        let map = TagMap { tags: Vec::new(), values: Vec::new() };
        assert(map.tags() =~= Seq::<Seq<char>>::empty());
        assert(map@ =~= Map::<Seq<char>, T>::empty());
        map
    }

    /// The number of tags.
    pub fn len(&self) -> (n: usize)
        requires
            self.wf(),
        ensures
            n == self.tags().len(),
            n == self.values().len(),
            n == self@.dom().len(),
            self@.dom().finite(),
    {
        proof {
            self.tags().unique_seq_to_set();
            assert(self@.dom() =~= self.tags().to_set());
        }
        self.tags.len()
    }

    /// Whether the map has no tag.
    pub fn is_empty(&self) -> (empty: bool)
        requires
            self.wf(),
        ensures
            empty == (self.tags().len() == 0),
            empty == (self@ == Map::<Seq<char>, T>::empty()),
    {
        proof {
            if self.tags().len() == 0 {
                assert(self@ =~= Map::<Seq<char>, T>::empty());
            } else {
                assert(self.tags().contains(self.tags()[0]));
                assert(self@.dom().contains(self.tags()[0]));
            }
        }
        self.tags.len() == 0
    }

    /// The index of a tag, if the map has it.
    pub fn position(&self, tag: &String) -> (at: Option<usize>)
        requires
            self.wf(),
        ensures
            match at {
                Some(i) => i < self.tags().len() && self.tags()[i as int] == tag@,
                None => !self.tags().contains(tag@),
            },
    {
        let mut i: usize = 0;
        while i < self.tags.len()
            invariant
                i <= self.tags.len(),
                forall|j: int| 0 <= j < i ==> self.tags()[j] != tag@,
            decreases self.tags.len() - i,
        {
            if self.tags[i] == *tag {
                return Some(i);
            }
            i += 1;
        }
        None
    }

    /// The value of a tag, if the map has it.
    pub fn get(&self, tag: &String) -> (value: Option<&T>)
        requires
            self.wf(),
        ensures
            match value {
                Some(v) => self@.contains_key(tag@) && *v == self@[tag@],
                None => !self@.contains_key(tag@),
            },
    {
        match self.position(tag) {
            Some(i) => {
                proof {
                    self.tags().index_of_first_ensures(tag@);
                    assert(self.tags().contains(tag@));
                    assert(self.tags().index_of(tag@) == i);
                }
                Some(&self.values[i])
            },
            None => None,
        }
    }

    /// The tag at an index.
    pub fn tag_at(&self, i: usize) -> (tag: &String)
        requires
            self.wf(),
            i < self.tags().len(),
        ensures
            tag@ == self.tags()[i as int],
    {
        &self.tags[i]
    }

    /// The value at an index.
    pub fn value_at(&self, i: usize) -> (value: &T)
        requires
            self.wf(),
            i < self.values().len(),
        ensures
            *value == self.values()[i as int],
    {
        &self.values[i]
    }

    /// Sets the value of a tag: replaces the value where the map has the tag,
    /// and adds the tag at the end where it has not.
    pub fn insert(&mut self, tag: String, value: T)
        requires
            old(self).wf(),
        ensures
            final(self).wf(),
            final(self)@ == old(self)@.insert(tag@, value),
            old(self).tags().contains(tag@) ==> final(self).tags() == old(self).tags()
                && final(self).values() == old(self).values().update(old(self).tags().index_of(tag@), value),
            !old(self).tags().contains(tag@) ==> final(self).tags() == old(self).tags().push(tag@)
                && final(self).values() == old(self).values().push(value),
    {
        let ghost before = *self;
        match self.position(&tag) {
            Some(i) => {
                self.values.set(i, value);
                proof {
                    assert(before.tags().contains(tag@));
                    assert(before.tags().index_of(tag@) == i);
                    assert(self.tags() == before.tags());
                    assert forall|t: Seq<char>| self.tags().contains(t) implies #[trigger] self@[t]
                        == before@.insert(tag@, value)[t] by {
                        let j = self.tags().index_of(t);
                        assert(self.tags()[j] == t);
                    }
                    assert(self@ =~= before@.insert(tag@, value));
                }
            },
            None => {
                self.tags.push(tag);
                self.values.push(value);
                proof {
                    assert(self.tags() =~= before.tags().push(tag@));
                    assert forall|t: Seq<char>| self.tags().contains(t) <==> (t == tag@
                        || before.tags().contains(t)) by {
                        if before.tags().contains(t) {
                            let j = before.tags().index_of(t);
                            assert(self.tags()[j] == t);
                        }
                        if t == tag@ {
                            assert(self.tags()[before.tags().len() as int] == t);
                        }
                    }
                    assert forall|t: Seq<char>| self.tags().contains(t) implies #[trigger] self@[t]
                        == before@.insert(tag@, value)[t] by {
                        let j = self.tags().index_of(t);
                        assert(self.tags()[j] == t);
                        if t != tag@ {
                            let k = before.tags().index_of(t);
                            assert(before.tags()[k] == t);
                            assert(self.tags()[k] == t);
                        }
                    }
                    assert(self@ =~= before@.insert(tag@, value));
                }
            },
        }
    }
}

} // verus!
