//! The attribute store that every entity of the graph embeds.

use crate::attributes::laws::{
    lemma_insert_all_contains, lemma_insert_all_finite, lemma_insert_all_last_wins,
    lemma_insert_all_push, lemma_insert_all_untouched,
};
use crate::text::{pair_texts, AttributeText};
use vstd::prelude::*;
use vstd::set_lib::lemma_subset_equality;
use vstd::std_specs::cmp::PartialEqSpecImpl;

pub mod laws;
pub mod plain_map;

verus! {

/// The name of an attribute, as stored.
pub type AttributeName = String;

/// The value of an attribute, as stored.
pub type AttributeValue = String;

/// The map that results from writing `pairs` into `m` one after the other, first pair first.
pub open spec fn insert_all(m: Map<Seq<char>, Seq<char>>, pairs: Seq<(Seq<char>, Seq<char>)>) -> Map<
    Seq<char>,
    Seq<char>,
>
    decreases pairs.len(),
{
    if pairs.len() == 0 {
        m
    } else {
        insert_all(m, pairs.drop_last()).insert(pairs.last().0, pairs.last().1)
    }
}

/// Whether no name occurs twice among the pairs.
pub open spec fn no_name_twice(pairs: Seq<(Seq<char>, Seq<char>)>) -> bool {
    forall|i: int, j: int|
        0 <= i < j < pairs.len() ==> (#[trigger] pairs[i]).0 != (#[trigger] pairs[j]).0
}

/// A batch without a repeated name yields as many attributes as it has pairs.
proof fn lemma_distinct_len(pairs: Seq<(Seq<char>, Seq<char>)>)
    requires
        no_name_twice(pairs),
    ensures
        insert_all(Map::empty(), pairs).dom().finite(),
        insert_all(Map::empty(), pairs).len() == pairs.len(),
    decreases pairs.len(),
{
    lemma_insert_all_finite(Map::empty(), pairs);
    if pairs.len() > 0 {
        let init = pairs.drop_last();
        assert forall|i: int, j: int| 0 <= i < j < init.len() implies (#[trigger] init[i]).0 != (
        #[trigger] init[j]).0 by {
            assert(init[i] == pairs[i]);
            assert(init[j] == pairs[j]);
        }
        lemma_distinct_len(init);
        lemma_insert_all_finite(Map::empty(), init);
        assert forall|i: int| 0 <= i < init.len() implies (#[trigger] init[i]).0
            != pairs.last().0 by {
            assert(init[i] == pairs[i]);
            assert(pairs.last() == pairs[pairs.len() - 1]);
        }
        lemma_insert_all_untouched(Map::empty(), init, pairs.last().0);
    }
}

/// A set of string attributes: each name occurs once and carries one value.
#[derive(Debug)]
pub struct Attributes {
    entries: Vec<(String, String)>,
}

/// The (name, value) texts of stored entries, in storage order.
spec fn entry_texts(entries: Seq<(String, String)>) -> Seq<(Seq<char>, Seq<char>)> {
    Seq::new(entries.len(), |i: int| (entries[i].0@, entries[i].1@))
}

/// The entries hold no name twice.
spec fn names_distinct_in(entries: Seq<(String, String)>) -> bool {
    forall|i: int, j: int|
        0 <= i < j < entries.len() ==> (#[trigger] entries[i]).0@ != (#[trigger] entries[j]).0@
}

/// Where no name is stored twice, the map holds exactly the stored entries.
proof fn lemma_entries_map(entries: Seq<(String, String)>)
    requires
        names_distinct_in(entries),
    ensures
        insert_all(Map::empty(), entry_texts(entries)).dom().finite(),
        insert_all(Map::empty(), entry_texts(entries)).len() == entries.len(),
        forall|i: int|
            0 <= i < entries.len() ==> {
                &&& insert_all(Map::empty(), entry_texts(entries)).contains_key(
                    (#[trigger] entries[i]).0@,
                )
                &&& insert_all(Map::empty(), entry_texts(entries))[entries[i].0@] == entries[i].1@
            },
        forall|name: Seq<char>| #[trigger]
            insert_all(Map::empty(), entry_texts(entries)).contains_key(name) ==> exists|i: int|
                0 <= i < entries.len() && (#[trigger] entries[i]).0@ == name,
{
    let pairs = entry_texts(entries);
    assert forall|i: int, j: int| 0 <= i < j < pairs.len() implies (#[trigger] pairs[i]).0 != (
    #[trigger] pairs[j]).0 by {
        assert(entries[i].0@ != entries[j].0@);
    }
    lemma_distinct_len(pairs);
    assert forall|i: int| 0 <= i < entries.len() implies {
        &&& insert_all(Map::empty(), pairs).contains_key((#[trigger] entries[i]).0@)
        &&& insert_all(Map::empty(), pairs)[entries[i].0@] == entries[i].1@
    } by {
        assert forall|j: int| i < j < pairs.len() implies (#[trigger] pairs[j]).0 != pairs[i].0 by {
            assert(entries[i].0@ != entries[j].0@);
        }
        lemma_insert_all_last_wins(Map::empty(), pairs, i);
    }
    assert forall|name: Seq<char>| #[trigger]
        insert_all(Map::empty(), pairs).contains_key(name) implies exists|i: int|
        0 <= i < entries.len() && (#[trigger] entries[i]).0@ == name by {
        lemma_insert_all_contains(Map::empty(), pairs, name);
        let i = choose|i: int| 0 <= i < pairs.len() && (#[trigger] pairs[i]).0 == name;
        assert(entries[i].0@ == name);
    }
}

impl View for Attributes {
    type V = Map<Seq<char>, Seq<char>>;

    closed spec fn view(&self) -> Self::V {
        insert_all(Map::empty(), entry_texts(self.entries@))
    }
}

impl Attributes {
    #[verifier::type_invariant]
    spec fn names_distinct(&self) -> bool {
        names_distinct_in(self.entries@)
    }

    /// An empty attribute store.
    pub fn new() -> (attrs: Self)
        ensures
            attrs@ == Map::<Seq<char>, Seq<char>>::empty(),
    {
        Attributes { entries: Vec::new() }
    }

    /// The index at which `name` is stored, if it is stored.
    fn position(&self, name: &String) -> (found: Option<usize>)
        ensures
            match found {
                Some(i) => i < self.entries.len() && self.entries[i as int].0@ == name@,
                None => forall|i: int|
                    0 <= i < self.entries.len() ==> (#[trigger] self.entries[i]).0@ != name@,
            },
    {
        let mut i: usize = 0;
        while i < self.entries.len()
            invariant
                i <= self.entries.len(),
                forall|j: int| 0 <= j < i ==> (#[trigger] self.entries[j]).0@ != name@,
            decreases self.entries.len() - i,
        {
            if self.entries[i].0 == *name {
                return Some(i);
            }
            i += 1;
        }
        None
    }

    /// The value stored under `name`, or `None` where the name carries no value.
    pub fn get<T: AttributeText>(&self, name: T) -> (value: Option<&AttributeValue>)
        ensures
            match value {
                Some(v) => self@.contains_key(name.text()) && v@ == self@[name.text()],
                None => !self@.contains_key(name.text()),
            },
    {
        let key = name.into_text();
        proof {
            use_type_invariant(self);
            lemma_entries_map(self.entries@);
        }
        match self.position(&key) {
            Some(i) => Some(&self.entries[i].1),
            None => None,
        }
    }

    /// Stores `value` under `name`, in place of whatever value the name carried.
    pub fn set<K: AttributeText, V: AttributeText>(&mut self, name: K, value: V)
        ensures
            final(self)@ == old(self)@.insert(name.text(), value.text()),
            old(self)@.contains_key(name.text()) ==> final(self)@.len() == old(self)@.len(),
            !old(self)@.contains_key(name.text()) ==> final(self)@.len() == old(self)@.len() + 1,
    {
        let key = name.into_text();
        let val = value.into_text();
        self.put(key, val);
    }

    /// Stores an owned pair.
    fn put(&mut self, key: String, val: String)
        ensures
            final(self)@ == old(self)@.insert(key@, val@),
            old(self)@.contains_key(key@) ==> final(self)@.len() == old(self)@.len(),
            !old(self)@.contains_key(key@) ==> final(self)@.len() == old(self)@.len() + 1,
    {
        proof {
            use_type_invariant(&*self);
            lemma_entries_map(self.entries@);
        }
        let ghost before = self.entries@;
        match self.position(&key) {
            Some(i) => {
                let ghost name = key@;
                let ghost text = val@;
                let mut entries: Vec<(String, String)> = Vec::new();
                core::mem::swap(&mut self.entries, &mut entries);
                entries.set(i, (key, val));
                self.entries = entries;
                proof {
                    let after = self.entries@;
                    assert(names_distinct_in(after)) by {
                        assert forall|a: int, b: int| 0 <= a < b < after.len() implies (
                        #[trigger] after[a]).0@ != (#[trigger] after[b]).0@ by {
                            assert(before[a].0@ != before[b].0@);
                        }
                    }
                    lemma_entries_map(after);
                    let m0 = insert_all(Map::empty(), entry_texts(before));
                    let m1 = insert_all(Map::empty(), entry_texts(after));
                    assert forall|k: Seq<char>| #[trigger] m1.dom().contains(k) implies m0.dom().contains(k)
                        && m1[k] == m0.insert(name, text)[k] by {
                        assert(m1.contains_key(k));
                        let j = choose|j: int|
                            0 <= j < after.len() && (#[trigger] after[j]).0@ == k;
                        assert(before[j].0@ == k);
                        if j != i {
                            assert(before[j] == after[j]);
                        }
                    }
                    assert forall|k: Seq<char>| #[trigger] m0.dom().contains(k) implies m1.dom().contains(k) by {
                        assert(m0.contains_key(k));
                        let j = choose|j: int|
                            0 <= j < before.len() && (#[trigger] before[j]).0@ == k;
                        assert(after[j].0@ == k);
                    }
                    assert(m0.contains_key(before[i as int].0@));
                    assert(m1 =~= m0.insert(name, text));
                }
            },
            None => {
                let ghost name = key@;
                let ghost text = val@;
                let mut entries: Vec<(String, String)> = Vec::new();
                core::mem::swap(&mut self.entries, &mut entries);
                entries.push((key, val));
                self.entries = entries;
                proof {
                    let after = self.entries@;
                    assert(names_distinct_in(after)) by {
                        assert forall|a: int, b: int| 0 <= a < b < after.len() implies (
                        #[trigger] after[a]).0@ != (#[trigger] after[b]).0@ by {
                            if b < before.len() {
                                assert(before[a].0@ != before[b].0@);
                            } else {
                                assert(before[a].0@ != name);
                            }
                        }
                    }
                    lemma_entries_map(after);
                    assert(entry_texts(after) =~= entry_texts(before).push((name, text)));
                    lemma_insert_all_push(Map::empty(), entry_texts(before), name, text);
                }
            },
        }
    }

    /// Stores every pair of `values`, first pair first: a later pair overwrites an earlier
    /// one of the same name, and every pair overwrites what was stored before.
    pub fn extend<K: AttributeText, V: AttributeText>(&mut self, values: &[(K, V)])
        ensures
            final(self)@ == insert_all(old(self)@, pair_texts(values@)),
    {
        let ghost start = self@;
        let ghost pairs = pair_texts(values@);
        let mut i: usize = 0;
        while i < values.len()
            invariant
                i <= values.len(),
                pairs == pair_texts(values@),
                self@ == insert_all(start, pairs.take(i as int)),
            decreases values.len() - i,
        {
            let key = values[i].0.to_text();
            let val = values[i].1.to_text();
            self.put(key, val);
            proof {
                assert(pairs.take(i + 1) =~= pairs.take(i as int).push(pairs[i as int]));
                lemma_insert_all_push(start, pairs.take(i as int), key@, val@);
            }
            i += 1;
        }
        proof {
            assert(pairs.take(values.len() as int) =~= pairs);
        }
    }

    /// Whether no attribute is stored.
    pub fn is_empty(&self) -> (empty: bool)
        ensures
            empty == (self@ == Map::<Seq<char>, Seq<char>>::empty()),
    {
        proof {
            use_type_invariant(self);
            lemma_entries_map(self.entries@);
            if self.entries.len() > 0 {
                assert(self@.contains_key(self.entries[0].0@));
            } else {
                assert(entry_texts(self.entries@) =~= Seq::empty());
            }
        }
        self.entries.is_empty()
    }

    /// The number of attributes stored.
    pub fn len(&self) -> (count: usize)
        ensures
            self@.dom().finite(),
            count == self@.len(),
    {
        proof {
            use_type_invariant(self);
            lemma_entries_map(self.entries@);
        }
        self.entries.len()
    }
}

impl Default for Attributes {
    /// An empty attribute store.
    fn default() -> (attrs: Self)
        ensures
            attrs@ == Map::<Seq<char>, Seq<char>>::empty(),
    {
        Attributes::new()
    }
}

impl Clone for Attributes {
    /// A store of its own that holds the same attributes.
    fn clone(&self) -> (copy: Self)
        ensures
            copy@ == self@,
    {
        proof {
            use_type_invariant(self);
        }
        let mut entries: Vec<(String, String)> = Vec::new();
        let mut i: usize = 0;
        while i < self.entries.len()
            invariant
                i <= self.entries.len(),
                entries@ == self.entries@.take(i as int),
            decreases self.entries.len() - i,
        {
            let name = self.entries[i].0.clone();
            let value = self.entries[i].1.clone();
            entries.push((name, value));
            proof {
                assert(entries@ =~= self.entries@.take(i + 1));
            }
            i += 1;
        }
        proof {
            assert(entries@ =~= self.entries@);
        }
        Attributes { entries }
    }
}

impl PartialEqSpecImpl for Attributes {
    open spec fn obeys_eq_spec() -> bool {
        true
    }

    /// Two stores are equal when they hold the same attributes, in whatever order these
    /// were written.
    open spec fn eq_spec(&self, other: &Attributes) -> bool {
        self@ == other@
    }
}

impl PartialEq for Attributes {
    fn eq(&self, other: &Attributes) -> (equal: bool) {
        proof {
            use_type_invariant(self);
            use_type_invariant(other);
            lemma_entries_map(self.entries@);
            lemma_entries_map(other.entries@);
        }
        if self.entries.len() != other.entries.len() {
            return false;
        }
        let mut i: usize = 0;
        while i < self.entries.len()
            invariant
                i <= self.entries.len(),
                self.entries.len() == other.entries.len(),
                names_distinct_in(self.entries@),
                names_distinct_in(other.entries@),
                forall|j: int|
                    0 <= j < i ==> {
                        &&& other@.contains_key((#[trigger] self.entries[j]).0@)
                        &&& other@[self.entries[j].0@] == self.entries[j].1@
                    },
            decreases self.entries.len() - i,
        {
            proof {
                lemma_entries_map(self.entries@);
                lemma_entries_map(other.entries@);
            }
            match other.position(&self.entries[i].0) {
                None => {
                    proof {
                        assert(self@.contains_key(self.entries[i as int].0@));
                    }
                    return false;
                },
                Some(j) => {
                    if !(other.entries[j].1 == self.entries[i].1) {
                        proof {
                            let name = self.entries[i as int].0@;
                            assert(other.entries[j as int].0@ == name);
                            assert(self@[name] != other@[name]);
                        }
                        return false;
                    }
                    proof {
                        assert(other.entries[j as int].0@ == self.entries[i as int].0@);
                    }
                },
            }
            i += 1;
        }
        proof {
            lemma_entries_map(self.entries@);
            lemma_entries_map(other.entries@);
            assert forall|name: Seq<char>| self@.dom().contains(name) implies other@.dom().contains(
                name,
            ) && self@[name] == other@[name] by {
                assert(self@.contains_key(name));
                let j = choose|j: int|
                    0 <= j < self.entries.len() && (#[trigger] self.entries[j]).0@ == name;
                assert(other@.contains_key(self.entries[j].0@));
            }
            assert(self@.dom().subset_of(other@.dom()));
            lemma_subset_equality(self@.dom(), other@.dom());
            assert(self@ =~= other@);
        }
        true
    }
}

/// An entity that carries attributes in one attribute store of its own.
///
/// Reading and merging attributes through the entity is reading and merging them in that
/// store: `get_attr` reads as [`Attributes::get`] does, and `with_attrs` merges as
/// [`Attributes::extend`] does and hands the entity back.
pub trait AttributesContainer: Sized {
    /// The content of the entity's attribute store, where the implementation names it.
    ///
    /// The contracts of the two methods bind an implementation that names its store. One
    /// that leaves this at `None` promises nothing.
    open spec fn attributes(&self) -> Option<Map<Seq<char>, Seq<char>>> {
        None
    }

    /// The value that the entity carries under `name`, if any.
    fn get_attr<T: AttributeText>(&self, name: T) -> (value: Option<&str>)
        ensures
            match self.attributes() {
                Some(held) => match value {
                    Some(v) => held.contains_key(name.text()) && v@ == held[name.text()],
                    None => !held.contains_key(name.text()),
                },
                None => true,
            },
    ;

    /// The entity with every pair of `attrs` merged into its attributes, first pair first.
    fn with_attrs<K: AttributeText, V: AttributeText>(self, attrs: &[(K, V)]) -> (entity: Self)
        ensures
            match self.attributes() {
                Some(held) => entity.attributes() == Some(insert_all(held, pair_texts(attrs@))),
                None => true,
            },
    ;
}

} // verus!
