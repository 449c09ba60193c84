//! Comparing an attribute store with a plain `HashMap` from names to values.
//!
//! vstd models a `HashMap` for key types that are known to obey its key model, and
//! `String` is not among them. What the comparison needs of such a map is therefore
//! stated here, of the two calls it makes, and believed without proof.

use crate::attributes::laws::lemma_insert_all_finite;
use crate::attributes::{insert_all, lemma_entries_map, names_distinct_in, Attributes};
use std::collections::HashMap;
use vstd::prelude::*;
use vstd::set_lib::lemma_subset_equality;
use vstd::std_specs::cmp::PartialEqSpecImpl;

verus! {

/// The entries of a plain `HashMap` from names to values, as texts: each entry once, listed
/// in an order that is left open.
pub uninterp spec fn hash_map_pairs(m: &HashMap<String, String>) -> Seq<(Seq<char>, Seq<char>)>;

/// What a plain `HashMap` from names to values holds, as texts.
pub open spec fn hash_map_texts(m: &HashMap<String, String>) -> Map<Seq<char>, Seq<char>> {
    insert_all(Map::empty(), hash_map_pairs(m))
}

/// The number of entries of the map, by `HashMap::len`.
///
/// Not proved: that the call returns the number of names under which the map holds a
/// value.
#[verifier::external_body]
fn hash_map_len(m: &HashMap<String, String>) -> (count: usize)
    ensures
        count == insert_all(Map::empty(), hash_map_pairs(m)).len(),
{
    m.len()
}

/// The value that the map holds under `name`, by `HashMap::get`.
///
/// Not proved: that the call returns the value that the map holds under the name of the
/// same text, and `None` exactly where it holds none.
#[verifier::external_body]
fn hash_map_get<'a>(m: &'a HashMap<String, String>, name: &String) -> (value: Option<&'a String>)
    ensures
        match value {
            Some(v) => insert_all(Map::empty(), hash_map_pairs(m)).contains_key(name@) && v@
                == insert_all(Map::empty(), hash_map_pairs(m))[name@],
            None => !insert_all(Map::empty(), hash_map_pairs(m)).contains_key(name@),
        },
{
    m.get(name)
}

impl PartialEqSpecImpl<HashMap<String, String>> for Attributes {
    open spec fn obeys_eq_spec() -> bool {
        true
    }

    /// A store equals a plain map when both hold the same attributes.
    open spec fn eq_spec(&self, other: &HashMap<String, String>) -> bool {
        self@ == hash_map_texts(other)
    }
}

impl PartialEq<HashMap<String, String>> for Attributes {
    fn eq(&self, other: &HashMap<String, String>) -> (equal: bool) {
        proof {
            use_type_invariant(self);
            lemma_entries_map(self.entries@);
        }
        if self.entries.len() != hash_map_len(other) {
            return false;
        }
        let mut i: usize = 0;
        while i < self.entries.len()
            invariant
                i <= self.entries.len(),
                names_distinct_in(self.entries@),
                forall|j: int|
                    0 <= j < i ==> {
                        &&& hash_map_texts(other).contains_key((#[trigger] self.entries[j]).0@)
                        &&& hash_map_texts(other)[self.entries[j].0@] == self.entries[j].1@
                    },
            decreases self.entries.len() - i,
        {
            proof {
                lemma_entries_map(self.entries@);
            }
            match hash_map_get(other, &self.entries[i].0) {
                None => {
                    proof {
                        assert(self@.contains_key(self.entries[i as int].0@));
                    }
                    return false;
                },
                Some(value) => {
                    if !(*value == self.entries[i].1) {
                        proof {
                            let name = self.entries[i as int].0@;
                            assert(self@[name] != hash_map_texts(other)[name]);
                        }
                        return false;
                    }
                },
            }
            i += 1;
        }
        proof {
            lemma_entries_map(self.entries@);
            let that = hash_map_texts(other);
            lemma_insert_all_finite(Map::empty(), hash_map_pairs(other));
            assert forall|name: Seq<char>| self@.dom().contains(name) implies that.dom().contains(
                name,
            ) && self@[name] == that[name] by {
                assert(self@.contains_key(name));
                let j = choose|j: int|
                    0 <= j < self.entries.len() && (#[trigger] self.entries[j]).0@ == name;
                assert(that.contains_key(self.entries[j].0@));
            }
            assert(self@.dom().subset_of(that.dom()));
            lemma_subset_equality(self@.dom(), that.dom());
            assert(self@ =~= that);
        }
        true
    }
}

} // verus!
