//! A map from names to values that keeps its entries in name order, as a
//! `BTreeMap<String, V>` does: each name occurs once and iteration runs
//! from the least name to the greatest in `text_less` order.

use vstd::prelude::*;

use crate::text::{compare_text, lemma_text_less_irreflexive, lemma_text_less_transitive, text_less,
    Order};

verus! {

/// Strictly increasing in `text_less` order (so no name occurs twice).
pub open spec fn increasing(ks: Seq<Seq<char>>) -> bool {
    forall|i: int, j: int| 0 <= i < j < ks.len() ==> text_less(#[trigger] ks[i], #[trigger] ks[j])
}

/// The names of a list of entries, in order.
pub open spec fn names_of<V>(s: Seq<(String, V)>) -> Seq<Seq<char>> {
    s.map_values(|e: (String, V)| e.0@)
}

/// The map that a list of entries with distinct names denotes.
pub open spec fn map_of<V>(s: Seq<(String, V)>) -> Map<Seq<char>, V> {
    Map::new(
        |k: Seq<char>| names_of(s).contains(k),
        |k: Seq<char>| s[names_of(s).index_of(k)].1,
    )
}

/// In an increasing list, an index is determined by its name.
proof fn lemma_unique_index(ks: Seq<Seq<char>>, i: int, j: int)
    requires
        increasing(ks),
        0 <= i < ks.len(),
        0 <= j < ks.len(),
        ks[i] == ks[j],
    ensures
        i == j,
{
    if i < j {
        lemma_text_less_irreflexive(ks[i]);
    } else if j < i {
        lemma_text_less_irreflexive(ks[i]);
    }
}

/// The entry at index `i` is what the map holds under its name.
pub proof fn lemma_map_of_at<V>(s: Seq<(String, V)>, i: int)
    requires
        increasing(names_of(s)),
        0 <= i < s.len(),
    ensures
        map_of(s).contains_key(s[i].0@),
        map_of(s)[s[i].0@] == s[i].1,
{
    let ks = names_of(s);
    assert(ks[i] == s[i].0@);
    assert(ks.contains(s[i].0@));
    let j = ks.index_of(s[i].0@);
    lemma_unique_index(ks, i, j);
}

/// Inserting an entry under a new name at position `p` adds it to the map.
proof fn lemma_map_of_insert<V>(s: Seq<(String, V)>, p: int, e: (String, V))
    requires
        0 <= p <= s.len(),
        increasing(names_of(s)),
        increasing(names_of(s.insert(p, e))),
        !names_of(s).contains(e.0@),
    ensures
        map_of(s.insert(p, e)) =~= map_of(s).insert(e.0@, e.1),
{
    let t = s.insert(p, e);
    let ks = names_of(s);
    let kt = names_of(t);
    assert(kt =~= ks.insert(p, e.0@));
    assert forall|k: Seq<char>| #[trigger] map_of(t).contains_key(k) <==> map_of(s).insert(
        e.0@,
        e.1,
    ).contains_key(k) by {
        if kt.contains(k) {
            let j = choose|j: int| 0 <= j < kt.len() && kt[j] == k;
            if j < p {
                assert(ks[j] == k);
            } else if j > p {
                assert(ks[j - 1] == k);
            }
        }
        if ks.contains(k) {
            let j = choose|j: int| 0 <= j < ks.len() && ks[j] == k;
            if j < p {
                assert(kt[j] == k);
            } else {
                assert(kt[j + 1] == k);
            }
        }
        if k == e.0@ {
            assert(kt[p] == k);
        }
    }
    assert forall|k: Seq<char>| #[trigger] map_of(t).contains_key(k) implies map_of(t)[k]
        == map_of(s).insert(e.0@, e.1)[k] by {
        let j = choose|j: int| 0 <= j < kt.len() && kt[j] == k;
        lemma_map_of_at(t, j);
        if j < p {
            assert(t[j] == s[j]);
            lemma_map_of_at(s, j);
        } else if j > p {
            assert(t[j] == s[j - 1]);
            lemma_map_of_at(s, j - 1);
        }
    }
}

/// Replacing the entry at `p` by one under the same name updates the map.
proof fn lemma_map_of_update<V>(s: Seq<(String, V)>, p: int, e: (String, V))
    requires
        0 <= p < s.len(),
        increasing(names_of(s)),
        s[p].0@ == e.0@,
    ensures
        increasing(names_of(s.update(p, e))),
        map_of(s.update(p, e)) =~= map_of(s).insert(e.0@, e.1),
{
    let t = s.update(p, e);
    let ks = names_of(s);
    let kt = names_of(t);
    assert forall|i: int| 0 <= i < kt.len() implies kt[i] == ks[i] by {
        if i == p {
            assert(t[i] == e);
        } else {
            assert(t[i] == s[i]);
        }
    }
    assert(kt =~= ks);
    lemma_map_of_at(s, p);
    assert forall|k: Seq<char>| #[trigger] map_of(t).contains_key(k) <==> map_of(s).insert(
        e.0@,
        e.1,
    ).contains_key(k) by {
        assert(kt.contains(k) == ks.contains(k));
    }
    assert forall|k: Seq<char>| #[trigger] map_of(t).contains_key(k) implies map_of(t)[k]
        == map_of(s).insert(e.0@, e.1)[k] by {
        assert(kt.contains(k));
        let j = choose|j: int| 0 <= j < kt.len() && kt[j] == k;
        lemma_map_of_at(t, j);
        if j != p {
            assert(t[j] == s[j]);
            lemma_map_of_at(s, j);
            if k == e.0@ {
                assert(ks[j] == ks[p]);
                lemma_unique_index(ks, j, p);
            }
        } else {
            assert(t[j] == e);
        }
    }
}

/// Removing the entry at `p` removes its name from the map.
proof fn lemma_map_of_remove<V>(s: Seq<(String, V)>, p: int)
    requires
        0 <= p < s.len(),
        increasing(names_of(s)),
    ensures
        increasing(names_of(s.remove(p))),
        map_of(s.remove(p)) =~= map_of(s).remove(s[p].0@),
{
    let t = s.remove(p);
    let ks = names_of(s);
    let kt = names_of(t);
    assert(kt =~= ks.remove(p));
    assert forall|i: int, j: int| 0 <= i < j < kt.len() implies text_less(
        #[trigger] kt[i],
        #[trigger] kt[j],
    ) by {
        let i2 = if i < p { i } else { i + 1 };
        let j2 = if j < p { j } else { j + 1 };
        assert(kt[i] == ks[i2]);
        assert(kt[j] == ks[j2]);
    }
    assert forall|k: Seq<char>| #[trigger] map_of(t).contains_key(k) <==> map_of(s).remove(
        s[p].0@,
    ).contains_key(k) by {
        if kt.contains(k) {
            let j = choose|j: int| 0 <= j < kt.len() && kt[j] == k;
            let j2 = if j < p { j } else { j + 1 };
            assert(ks[j2] == k);
            assert(ks[p] == s[p].0@);
            if k == s[p].0@ {
                lemma_unique_index(ks, j2, p);
            }
        }
        if ks.contains(k) && k != s[p].0@ {
            let j = choose|j: int| 0 <= j < ks.len() && ks[j] == k;
            assert(j != p);
            if j < p {
                assert(kt[j] == k);
            } else {
                assert(kt[j - 1] == k);
            }
        }
    }
    assert forall|k: Seq<char>| #[trigger] map_of(t).contains_key(k) implies map_of(t)[k]
        == map_of(s).remove(s[p].0@)[k] by {
        let j = choose|j: int| 0 <= j < kt.len() && kt[j] == k;
        lemma_map_of_at(t, j);
        let j2 = if j < p { j } else { j + 1 };
        assert(t[j] == s[j2]);
        lemma_map_of_at(s, j2);
    }
}

/// A name-ordered map from names to values.
pub struct NameMap<V> {
    entries: Vec<(String, V)>,
}

impl<V> View for NameMap<V> {
    type V = Map<Seq<char>, V>;

    closed spec fn view(&self) -> Map<Seq<char>, V> {
        map_of(self.entries@)
    }
}

impl<V> NameMap<V> {
    /// The names held, in increasing order.
    pub closed spec fn name_list(self) -> Seq<Seq<char>> {
        names_of(self.entries@)
    }

    #[verifier::type_invariant]
    closed spec fn names_increase(self) -> bool {
        increasing(names_of(self.entries@))
    }

    /// An empty map.
    pub fn new() -> (m: Self)
        ensures
            m@ == Map::<Seq<char>, V>::empty(),
            m.name_list() == Seq::<Seq<char>>::empty(),
    {
        let m = NameMap { entries: Vec::new() };
        assert(names_of(m.entries@) =~= Seq::<Seq<char>>::empty());
        assert(m@ =~= Map::<Seq<char>, V>::empty());
        m
    }

    /// The number of names held; also exposes how the name list and the map
    /// agree.
    pub fn len(&self) -> (n: usize)
        ensures
            n == self.name_list().len(),
            increasing(self.name_list()),
            forall|k: Seq<char>| self@.contains_key(k) <==> self.name_list().contains(k),
    {
        proof {
            use_type_invariant(self);
        }
        self.entries.len()
    }

    /// The `i`-th entry in name order.
    pub fn entry_at(&self, i: usize) -> (r: (&String, &V))
        requires
            i < self.name_list().len(),
        ensures
            r.0@ == self.name_list()[i as int],
            self@.contains_key(r.0@),
            self@[r.0@] == *r.1,
    {
        proof {
            use_type_invariant(self);
            lemma_map_of_at(self.entries@, i as int);
        }
        let e = &self.entries[i];
        (&e.0, &e.1)
    }

    /// Finds where `name` stands or would stand.
    fn locate(&self, name: &str) -> (r: (usize, bool))
        ensures
            r.0 <= self.entries@.len(),
            forall|i: int| 0 <= i < r.0 ==> text_less(#[trigger] names_of(self.entries@)[i], name@),
            r.1 ==> r.0 < self.entries@.len() && names_of(self.entries@)[r.0 as int] == name@,
            !r.1 ==> (r.0 < self.entries@.len() ==> text_less(
                name@,
                names_of(self.entries@)[r.0 as int],
            )),
            r.1 == names_of(self.entries@).contains(name@),
    {
        proof {
            use_type_invariant(self);
        }
        let ghost ks = names_of(self.entries@);
        let mut i: usize = 0;
        while i < self.entries.len()
            invariant
                ks == names_of(self.entries@),
                increasing(ks),
                i <= self.entries@.len(),
                forall|j: int| 0 <= j < i ==> text_less(#[trigger] ks[j], name@),
            decreases self.entries@.len() - i,
        {
            let o = compare_text(self.entries[i].0.as_str(), name);
            assert(ks[i as int] == self.entries@[i as int].0@);
            match o {
                Order::Less => {
                    i = i + 1;
                },
                Order::Equal => {
                    return (i, true);
                },
                Order::Greater => {
                    proof {
                        assert forall|j: int| 0 <= j < ks.len() implies ks[j] != name@ by {
                            if j < i {
                                lemma_text_less_irreflexive(name@);
                            } else {
                                if j > i {
                                    lemma_text_less_transitive(name@, ks[i as int], ks[j]);
                                }
                                lemma_text_less_irreflexive(name@);
                            }
                        }
                    }
                    return (i, false);
                },
            }
        }
        proof {
            assert forall|j: int| 0 <= j < ks.len() implies ks[j] != name@ by {
                lemma_text_less_irreflexive(name@);
            }
        }
        (i, false)
    }

    /// Whether `name` is held.
    pub fn contains(&self, name: &str) -> (r: bool)
        ensures
            r == self@.contains_key(name@),
    {
        self.locate(name).1
    }

    /// The value held under `name`.
    pub fn get(&self, name: &str) -> (r: Option<&V>)
        ensures
            match r {
                Some(v) => self@.contains_key(name@) && *v == self@[name@],
                None => !self@.contains_key(name@),
            },
    {
        proof {
            use_type_invariant(self);
        }
        let (p, found) = self.locate(name);
        if found {
            proof {
                lemma_map_of_at(self.entries@, p as int);
            }
            Some(&self.entries[p].1)
        } else {
            None
        }
    }

    /// Puts `value` under `name`, giving back the value held there before.
    pub fn insert(&mut self, name: String, value: V) -> (r: Option<V>)
        ensures
            final(self)@ == old(self)@.insert(name@, value),
            r == (if old(self)@.contains_key(name@) {
                Some(old(self)@[name@])
            } else {
                None::<V>
            }),
    {
        proof {
            use_type_invariant(&*self);
        }
        let (p, found) = self.locate(name.as_str());
        let ghost s = self.entries@;
        let ghost ks = names_of(s);
        if found {
            proof {
                lemma_map_of_at(s, p as int);
                lemma_map_of_update(s, p as int, (name, value));
            }
            let mut entries = Vec::new();
            std::mem::swap(&mut entries, &mut self.entries);
            let old_entry = entries.remove(p);
            entries.insert(p, (name, value));
            assert(entries@ =~= s.update(p as int, (name, value)));
            self.entries = entries;
            Some(old_entry.1)
        } else {
            let ghost e = (name, value);
            let ghost t = s.insert(p as int, e);
            proof {
                let kt = names_of(t);
                assert(kt =~= ks.insert(p as int, name@));
                assert forall|i: int, j: int| 0 <= i < j < kt.len() implies text_less(
                    #[trigger] kt[i],
                    #[trigger] kt[j],
                ) by {
                    if j < p {
                        assert(kt[i] == ks[i] && kt[j] == ks[j]);
                    } else if j == p {
                        assert(kt[i] == ks[i]);
                    } else if i < p {
                        assert(kt[i] == ks[i] && kt[j] == ks[j - 1]);
                        lemma_text_less_transitive(ks[i], name@, ks[p as int]);
                        if j - 1 > p {
                            lemma_text_less_transitive(ks[i], ks[p as int], ks[j - 1]);
                        }
                    } else if i == p {
                        assert(kt[j] == ks[j - 1]);
                        if j - 1 > p {
                            lemma_text_less_transitive(name@, ks[p as int], ks[j - 1]);
                        }
                    } else {
                        assert(kt[i] == ks[i - 1] && kt[j] == ks[j - 1]);
                    }
                }
                lemma_map_of_insert(s, p as int, e);
            }
            let mut entries = Vec::new();
            std::mem::swap(&mut entries, &mut self.entries);
            entries.insert(p, (name, value));
            self.entries = entries;
            None
        }
    }

    /// The entries, in increasing name order.
    pub fn into_entries(self) -> (r: Vec<(String, V)>)
        ensures
            names_of(r@) == self.name_list(),
            increasing(names_of(r@)),
            map_of(r@) == self@,
    {
        proof {
            use_type_invariant(&self);
        }
        self.entries
    }

    /// Takes the value under `name` out of the map.
    pub fn remove(&mut self, name: &str) -> (r: Option<V>)
        ensures
            final(self)@ == old(self)@.remove(name@),
            r == (if old(self)@.contains_key(name@) {
                Some(old(self)@[name@])
            } else {
                None::<V>
            }),
    {
        proof {
            use_type_invariant(&*self);
        }
        let (p, found) = self.locate(name);
        let ghost s = self.entries@;
        if found {
            proof {
                lemma_map_of_at(s, p as int);
                lemma_map_of_remove(s, p as int);
            }
            let mut entries = Vec::new();
            std::mem::swap(&mut entries, &mut self.entries);
            let e = entries.remove(p);
            self.entries = entries;
            Some(e.1)
        } else {
            assert(self@.remove(name@) =~= self@);
            None
        }
    }
}

} // verus!
