//! Association maps and sets keyed by shader paths.
//!
//! Paths are held as character vectors so that contracts can speak of them as
//! `Seq<char>`. The maps are small association lists in which the earliest
//! entry for a key is the one that counts; their views are the mathematical
//! `Map` and `Set` they denote.

use vstd::prelude::*;

verus! {

use crate::text::chars_eq;

/// The map denoted by an association list; an earlier entry for a key
/// shadows every later one.
pub open spec fn map_of<V>(s: Seq<(Vec<char>, V)>) -> Map<Seq<char>, V>
    decreases s.len(),
{
    if s.len() == 0 {
        Map::empty()
    } else {
        map_of(s.drop_first()).insert(s[0].0@, s[0].1)
    }
}

/// The set denoted by a list of paths.
pub open spec fn set_of(s: Seq<Vec<char>>) -> Set<Seq<char>>
    decreases s.len(),
{
    if s.len() == 0 {
        Set::empty()
    } else {
        set_of(s.drop_first()).insert(s[0]@)
    }
}

pub proof fn lemma_map_of_dom<V>(s: Seq<(Vec<char>, V)>)
    ensures
        map_of(s).dom().finite(),
        map_of(s).dom().len() <= s.len(),
        forall|k: Seq<char>|
            map_of(s).contains_key(k) <==> exists|i: int| 0 <= i < s.len() && s[i].0@ == k,
    decreases s.len(),
{
    if s.len() > 0 {
        lemma_map_of_dom(s.drop_first());
        assert forall|k: Seq<char>| map_of(s).contains_key(k) implies exists|i: int|
            0 <= i < s.len() && s[i].0@ == k by {
            if k == s[0].0@ {
                assert(s[0].0@ == k);
            } else {
                let i = choose|i: int| 0 <= i < s.drop_first().len() && s.drop_first()[i].0@ == k;
                assert(s[i + 1].0@ == k);
            }
        }
        assert forall|k: Seq<char>|
            (exists|i: int| 0 <= i < s.len() && s[i].0@ == k) implies map_of(s).contains_key(
            k,
        ) by {
            let i = choose|i: int| 0 <= i < s.len() && s[i].0@ == k;
            if i > 0 {
                assert(s.drop_first()[i - 1].0@ == k);
            }
        }
    }
}

/// The first entry for a key is the one the map holds.
pub proof fn lemma_map_of_first<V>(s: Seq<(Vec<char>, V)>, i: int)
    requires
        0 <= i < s.len(),
        forall|j: int| 0 <= j < i ==> s[j].0@ != s[i].0@,
    ensures
        map_of(s).contains_key(s[i].0@),
        map_of(s)[s[i].0@] == s[i].1,
    decreases s.len(),
{
    lemma_map_of_dom(s);
    if i > 0 {
        assert(s.drop_first()[i - 1] == s[i]);
        assert forall|j: int| 0 <= j < i - 1 implies #[trigger] s.drop_first()[j].0@
            != s.drop_first()[i - 1].0@ by {
            assert(s.drop_first()[j] == s[j + 1]);
        }
        lemma_map_of_first(s.drop_first(), i - 1);
        assert(s[0].0@ != s[i].0@);
    }
}

/// Appending an entry for an absent key denotes an insertion.
pub proof fn lemma_map_of_push<V>(s: Seq<(Vec<char>, V)>, k: Vec<char>, v: V)
    requires
        !map_of(s).contains_key(k@),
    ensures
        map_of(s.push((k, v))) == map_of(s).insert(k@, v),
    decreases s.len(),
{
    lemma_map_of_dom(s);
    if s.len() == 0 {
        let t = s.push((k, v));
        assert(t.drop_first() =~= Seq::<(Vec<char>, V)>::empty());
        assert(map_of(t.drop_first()) == Map::<Seq<char>, V>::empty());
        assert(t[0] == (k, v));
        assert(map_of(t) == map_of(t.drop_first()).insert(t[0].0@, t[0].1));
        assert(map_of(t) =~= map_of(s).insert(k@, v));
    } else {
        let t = s.push((k, v));
        assert(t.drop_first() =~= s.drop_first().push((k, v)));
        lemma_map_of_dom(s.drop_first());
        assert(!map_of(s.drop_first()).contains_key(k@)) by {
            if map_of(s.drop_first()).contains_key(k@) {
                let i = choose|i: int|
                    0 <= i < s.drop_first().len() && s.drop_first()[i].0@ == k@;
                assert(s[i + 1].0@ == k@);
            }
        }
        lemma_map_of_push(s.drop_first(), k, v);
        assert(s[0].0@ != k@);
        assert(map_of(t) =~= map_of(s).insert(k@, v));
    }
}

pub proof fn lemma_set_of_facts(s: Seq<Vec<char>>)
    ensures
        set_of(s).finite(),
        forall|k: Seq<char>|
            set_of(s).contains(k) <==> exists|i: int| 0 <= i < s.len() && s[i]@ == k,
    decreases s.len(),
{
    if s.len() > 0 {
        lemma_set_of_facts(s.drop_first());
        assert forall|k: Seq<char>| set_of(s).contains(k) implies exists|i: int|
            0 <= i < s.len() && s[i]@ == k by {
            if k == s[0]@ {
                assert(s[0]@ == k);
            } else {
                let i = choose|i: int| 0 <= i < s.drop_first().len() && s.drop_first()[i]@ == k;
                assert(s[i + 1]@ == k);
            }
        }
        assert forall|k: Seq<char>| (exists|i: int| 0 <= i < s.len() && s[i]@ == k) implies set_of(
            s,
        ).contains(k) by {
            let i = choose|i: int| 0 <= i < s.len() && s[i]@ == k;
            if i > 0 {
                assert(s.drop_first()[i - 1]@ == k);
            }
        }
    }
}

/// A map from shader paths to values, with at most one live entry per path.
pub struct PathMap<V> {
    entries: Vec<(Vec<char>, V)>,
}

impl<V> View for PathMap<V> {
    type V = Map<Seq<char>, V>;

    closed spec fn view(&self) -> Map<Seq<char>, V> {
        map_of(self.entries@)
    }
}

impl<V> PathMap<V> {
    pub fn new() -> (r: Self)
        ensures
            r@ == Map::<Seq<char>, V>::empty(),
    {
        PathMap { entries: Vec::new() }
    }

    /// The value stored at a path, if any.
    pub fn get(&self, k: &Vec<char>) -> (r: Option<&V>)
        ensures
            match r {
                Some(v) => self@.contains_key(k@) && *v == self@[k@],
                None => !self@.contains_key(k@),
            },
    {
        proof {
            lemma_map_of_dom(self.entries@);
        }
        let n = self.entries.len();
        for i in 0..n
            invariant
                n == self.entries.len(),
                forall|j: int| 0 <= j < i ==> self.entries@[j].0@ != k@,
                self@ == map_of(self.entries@),
                forall|p: Seq<char>|
                    self@.contains_key(p) <==> exists|j: int|
                        0 <= j < self.entries@.len() && self.entries@[j].0@ == p,
        {
            if chars_eq(&self.entries[i].0, k) {
                proof {
                    lemma_map_of_first(self.entries@, i as int);
                }
                return Some(&self.entries[i].1);
            }
        }
        None
    }

    /// Whether a path has an entry.
    pub fn contains(&self, k: &Vec<char>) -> (r: bool)
        ensures
            r == self@.contains_key(k@),
    {
        self.get(k).is_some()
    }

    /// Adds an entry for a path not yet present.
    pub fn insert(&mut self, k: Vec<char>, v: V)
        requires
            !old(self)@.contains_key(k@),
        ensures
            final(self)@ == old(self)@.insert(k@, v),
    {
        proof {
            lemma_map_of_push(self.entries@, k, v);
        }
        self.entries.push((k, v));
    }

    /// The view of every path map has a finite domain.
    pub proof fn lemma_dom_finite(&self)
        ensures
            self@.dom().finite(),
    {
        lemma_map_of_dom(self.entries@);
    }

    /// Drops every entry.
    pub fn clear(&mut self)
        ensures
            final(self)@ == Map::<Seq<char>, V>::empty(),
    {
        self.entries.clear();
    }
}

/// A set of shader paths.
pub struct PathSet {
    items: Vec<Vec<char>>,
}

impl View for PathSet {
    type V = Set<Seq<char>>;

    closed spec fn view(&self) -> Set<Seq<char>> {
        set_of(self.items@)
    }
}

impl PathSet {
    pub fn new() -> (r: Self)
        ensures
            r@ == Set::<Seq<char>>::empty(),
    {
        PathSet { items: Vec::new() }
    }

    /// Whether a path is in the set.
    pub fn contains(&self, k: &Vec<char>) -> (r: bool)
        ensures
            r == self@.contains(k@),
    {
        proof {
            lemma_set_of_facts(self.items@);
        }
        let n = self.items.len();
        for i in 0..n
            invariant
                n == self.items.len(),
                forall|j: int| 0 <= j < i ==> self.items@[j]@ != k@,
                self@ == set_of(self.items@),
                forall|p: Seq<char>|
                    self@.contains(p) <==> exists|j: int|
                        0 <= j < self.items@.len() && self.items@[j]@ == p,
        {
            if chars_eq(&self.items[i], k) {
                return true;
            }
        }
        false
    }

    /// Adds a path to the set.
    pub fn insert(&mut self, k: Vec<char>)
        ensures
            final(self)@ == old(self)@.insert(k@),
    {
        if self.contains(&k) {
            proof {
                assert(self@ =~= old(self)@.insert(k@));
            }
            return ;
        }
        let ghost s0 = self.items@;
        self.items.push(k);
        proof {
            lemma_set_of_facts(s0);
            lemma_set_of_facts(self.items@);
            assert forall|p: Seq<char>| self@.contains(p) implies old(self)@.insert(k@).contains(
                p,
            ) by {
                let i = choose|i: int| 0 <= i < self.items@.len() && self.items@[i]@ == p;
                if i < s0.len() {
                    assert(s0[i]@ == p);
                }
            }
            assert forall|p: Seq<char>| old(self)@.insert(k@).contains(p) implies self@.contains(
                p,
            ) by {
                if p == k@ {
                    assert(self.items@[s0.len() as int]@ == p);
                } else {
                    let i = choose|i: int| 0 <= i < s0.len() && s0[i]@ == p;
                    assert(self.items@[i]@ == p);
                }
            }
            assert(self@ =~= old(self)@.insert(k@));
        }
    }

}

} // verus!
