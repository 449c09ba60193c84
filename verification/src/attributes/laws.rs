//! What holds of attributes that are written one after the other.

use crate::attributes::{insert_all, no_name_twice};
use vstd::prelude::*;

verus! {

/// A name is present after a batch of writes exactly if it was present before or the batch
/// writes it.
pub proof fn lemma_insert_all_contains(
    m: Map<Seq<char>, Seq<char>>,
    pairs: Seq<(Seq<char>, Seq<char>)>,
    name: Seq<char>,
)
    ensures
        insert_all(m, pairs).contains_key(name) <==> (m.contains_key(name) || exists|i: int|
            0 <= i < pairs.len() && (#[trigger] pairs[i]).0 == name),
    decreases pairs.len(),
{
    if pairs.len() > 0 {
        let init = pairs.drop_last();
        lemma_insert_all_contains(m, init, name);
        if exists|i: int| 0 <= i < init.len() && (#[trigger] init[i]).0 == name {
            let i = choose|i: int| 0 <= i < init.len() && (#[trigger] init[i]).0 == name;
            assert(pairs[i].0 == name);
        }
        if exists|i: int| 0 <= i < pairs.len() && (#[trigger] pairs[i]).0 == name {
            let i = choose|i: int| 0 <= i < pairs.len() && (#[trigger] pairs[i]).0 == name;
            if i < init.len() {
                assert(init[i].0 == name);
            } else {
                assert(pairs.last().0 == name);
            }
        }
    }
}

/// A batch of writes leaves every name that it does not write as it was.
pub proof fn lemma_insert_all_untouched(
    m: Map<Seq<char>, Seq<char>>,
    pairs: Seq<(Seq<char>, Seq<char>)>,
    name: Seq<char>,
)
    requires
        forall|i: int| 0 <= i < pairs.len() ==> (#[trigger] pairs[i]).0 != name,
    ensures
        insert_all(m, pairs).contains_key(name) == m.contains_key(name),
        insert_all(m, pairs)[name] == m[name],
    decreases pairs.len(),
{
    if pairs.len() > 0 {
        let init = pairs.drop_last();
        assert forall|i: int| 0 <= i < init.len() implies (#[trigger] init[i]).0 != name by {
            assert(init[i] == pairs[i]);
        }
        lemma_insert_all_untouched(m, init, name);
        assert(pairs.last() == pairs[pairs.len() - 1]);
    }
}

/// Within a batch of writes the last pair that writes a name decides its value, whatever the
/// map held before.
pub proof fn lemma_insert_all_last_wins(
    m: Map<Seq<char>, Seq<char>>,
    pairs: Seq<(Seq<char>, Seq<char>)>,
    i: int,
)
    requires
        0 <= i < pairs.len(),
        forall|j: int| i < j < pairs.len() ==> (#[trigger] pairs[j]).0 != pairs[i].0,
    ensures
        insert_all(m, pairs).contains_key(pairs[i].0),
        insert_all(m, pairs)[pairs[i].0] == pairs[i].1,
    decreases pairs.len(),
{
    let init = pairs.drop_last();
    if i < pairs.len() - 1 {
        assert(init[i] == pairs[i]);
        assert forall|j: int| i < j < init.len() implies (#[trigger] init[j]).0 != init[i].0 by {
            assert(init[j] == pairs[j]);
        }
        lemma_insert_all_last_wins(m, init, i);
        assert(pairs.last() == pairs[pairs.len() - 1]);
    }
}

/// A batch of writes into a finite map gives a finite map.
pub proof fn lemma_insert_all_finite(
    m: Map<Seq<char>, Seq<char>>,
    pairs: Seq<(Seq<char>, Seq<char>)>,
)
    requires
        m.dom().finite(),
    ensures
        insert_all(m, pairs).dom().finite(),
    decreases pairs.len(),
{
    if pairs.len() > 0 {
        lemma_insert_all_finite(m, pairs.drop_last());
    }
}

/// Writing one more pair after a batch is the batch with that pair at its end.
pub proof fn lemma_insert_all_push(
    m: Map<Seq<char>, Seq<char>>,
    pairs: Seq<(Seq<char>, Seq<char>)>,
    name: Seq<char>,
    value: Seq<char>,
)
    ensures
        insert_all(m, pairs.push((name, value))) == insert_all(m, pairs).insert(name, value),
{
    assert(pairs.push((name, value)).drop_last() =~= pairs);
}

/// Two batches written one after the other are one batch: the first followed by the
/// second.
pub proof fn lemma_insert_all_concat(
    m: Map<Seq<char>, Seq<char>>,
    first: Seq<(Seq<char>, Seq<char>)>,
    second: Seq<(Seq<char>, Seq<char>)>,
)
    ensures
        insert_all(m, first + second) == insert_all(insert_all(m, first), second),
    decreases second.len(),
{
    if second.len() == 0 {
        assert(first + second =~= first);
    } else {
        lemma_insert_all_concat(m, first, second.drop_last());
        assert((first + second).drop_last() =~= first + second.drop_last());
    }
}

/// A name that was never written carries no value.
pub proof fn lemma_unwritten_name_absent(pairs: Seq<(Seq<char>, Seq<char>)>, name: Seq<char>)
    requires
        forall|i: int| 0 <= i < pairs.len() ==> (#[trigger] pairs[i]).0 != name,
    ensures
        !insert_all(Map::empty(), pairs).contains_key(name),
{
    lemma_insert_all_untouched(Map::empty(), pairs, name);
}

/// After a value is written under a name, the name carries that value; the number of
/// attributes grows by one where the name is new and stays where it is not; every other
/// name is as it was.
pub proof fn lemma_write_then_read(
    m: Map<Seq<char>, Seq<char>>,
    name: Seq<char>,
    value: Seq<char>,
)
    requires
        m.dom().finite(),
    ensures
        m.insert(name, value).contains_key(name),
        m.insert(name, value)[name] == value,
        m.insert(name, value).len() == m.len() + (if m.contains_key(name) {
            0nat
        } else {
            1nat
        }),
        forall|other: Seq<char>|
            other != name ==> {
                &&& m.insert(name, value).contains_key(other) == m.contains_key(other)
                &&& m.insert(name, value)[other] == m[other]
            },
{
}

/// Writes under different names can be made in either order.
pub proof fn lemma_write_order(
    m: Map<Seq<char>, Seq<char>>,
    name: Seq<char>,
    value: Seq<char>,
    other_name: Seq<char>,
    other_value: Seq<char>,
)
    requires
        name != other_name,
    ensures
        m.insert(name, value).insert(other_name, other_value) == m.insert(
            other_name,
            other_value,
        ).insert(name, value),
{
    assert(m.insert(name, value).insert(other_name, other_value) =~= m.insert(
        other_name,
        other_value,
    ).insert(name, value));
}

/// The order of writing does not show: two batches that hold the same pairs, each name
/// once, give the same attributes.
pub proof fn lemma_same_pairs_same_map(
    first: Seq<(Seq<char>, Seq<char>)>,
    second: Seq<(Seq<char>, Seq<char>)>,
)
    requires
        no_name_twice(first),
        no_name_twice(second),
        forall|i: int| 0 <= i < first.len() ==> second.contains(#[trigger] first[i]),
        forall|j: int| 0 <= j < second.len() ==> first.contains(#[trigger] second[j]),
    ensures
        insert_all(Map::empty(), first) == insert_all(Map::empty(), second),
{
    let a = insert_all(Map::empty(), first);
    let b = insert_all(Map::empty(), second);
    assert forall|name: Seq<char>| #[trigger] a.dom().contains(name) implies b.dom().contains(name)
        && a[name] == b[name] by {
        lemma_insert_all_contains(Map::empty(), first, name);
        let i = choose|i: int| 0 <= i < first.len() && (#[trigger] first[i]).0 == name;
        assert(second.contains(first[i]));
        let j = choose|j: int| 0 <= j < second.len() && second[j] == first[i];
        lemma_insert_all_last_wins(Map::empty(), first, i);
        lemma_insert_all_last_wins(Map::empty(), second, j);
    }
    assert forall|name: Seq<char>| #[trigger] b.dom().contains(name) implies a.dom().contains(
        name,
    ) by {
        lemma_insert_all_contains(Map::empty(), second, name);
        let j = choose|j: int| 0 <= j < second.len() && (#[trigger] second[j]).0 == name;
        assert(first.contains(second[j]));
        let i = choose|i: int| 0 <= i < first.len() && first[i] == second[j];
        lemma_insert_all_last_wins(Map::empty(), first, i);
    }
    assert(a =~= b);
}

} // verus!
