//! Lists of named values, looked up by the first name that matches.

use vstd::prelude::*;

verus! {

/// The value of the first pair of `pairs` whose name is `key`.
pub open spec fn lookup<V>(pairs: Seq<(Seq<char>, V)>, key: Seq<char>) -> Option<V>
    decreases pairs.len(),
{
    if pairs.len() == 0 {
        None
    } else if pairs[0].0 == key {
        Some(pairs[0].1)
    } else {
        lookup(pairs.drop_first(), key)
    }
}

/// Whether no name occurs twice in `pairs`.
pub open spec fn distinct_names<V>(pairs: Seq<(Seq<char>, V)>) -> bool {
    forall|i: int, j: int|
        0 <= i < j < pairs.len() ==> (#[trigger] pairs[i]).0 != (#[trigger] pairs[j]).0
}

/// The mapping that a list of pairs stands for.
pub open spec fn as_map<V>(pairs: Seq<(Seq<char>, V)>) -> Map<Seq<char>, V> {
    Map::new(
        |key: Seq<char>| lookup(pairs, key) is Some,
        |key: Seq<char>| lookup(pairs, key).unwrap(),
    )
}

/// No pair before position `i` is named `key`, so the lookup starts over at `i`.
pub proof fn lemma_lookup_skip<V>(pairs: Seq<(Seq<char>, V)>, key: Seq<char>, i: int)
    requires
        0 <= i <= pairs.len(),
        forall|j: int| 0 <= j < i ==> (#[trigger] pairs[j]).0 != key,
    ensures
        lookup(pairs, key) == lookup(pairs.skip(i), key),
        i == pairs.len() ==> lookup(pairs, key) is None,
        i < pairs.len() && pairs[i].0 == key ==> lookup(pairs, key) == Some(pairs[i].1),
    decreases i,
{
    if i == 0 {
        assert(pairs.skip(0) =~= pairs);
    } else {
        lemma_lookup_skip(pairs.drop_first(), key, i - 1);
        assert(pairs.drop_first().skip(i - 1) =~= pairs.skip(i));
    }
}

/// A lookup that finds a value finds it at a position before which the name does
/// not occur.
pub proof fn lemma_lookup_found<V>(pairs: Seq<(Seq<char>, V)>, key: Seq<char>) -> (i: int)
    requires
        lookup(pairs, key) is Some,
    ensures
        0 <= i < pairs.len(),
        pairs[i].0 == key,
        lookup(pairs, key) == Some(pairs[i].1),
        forall|j: int| 0 <= j < i ==> (#[trigger] pairs[j]).0 != key,
    decreases pairs.len(),
{
    if pairs[0].0 == key {
        0
    } else {
        let rest = pairs.drop_first();
        let k = lemma_lookup_found(rest, key);
        assert forall|j: int| 0 <= j < k + 1 implies (#[trigger] pairs[j]).0 != key by {
            if j > 0 {
                assert(rest[j - 1].0 != key);
            }
        }
        k + 1
    }
}

/// A lookup finds nothing exactly where the name does not occur.
pub proof fn lemma_lookup_none<V>(pairs: Seq<(Seq<char>, V)>, key: Seq<char>)
    ensures
        lookup(pairs, key) is None <==> forall|j: int|
            0 <= j < pairs.len() ==> (#[trigger] pairs[j]).0 != key,
{
    if lookup(pairs, key) is Some {
        let i = lemma_lookup_found(pairs, key);
    } else {
        if exists|j: int| 0 <= j < pairs.len() && (#[trigger] pairs[j]).0 == key {
            let j = choose|j: int| 0 <= j < pairs.len() && (#[trigger] pairs[j]).0 == key;
            lemma_lookup_hit(pairs, key, j);
        }
    }
}

/// Where the name occurs, the lookup finds a value.
pub proof fn lemma_lookup_hit<V>(pairs: Seq<(Seq<char>, V)>, key: Seq<char>, j: int)
    requires
        0 <= j < pairs.len(),
        pairs[j].0 == key,
    ensures
        lookup(pairs, key) is Some,
    decreases j,
{
    if pairs[0].0 != key {
        lemma_lookup_hit(pairs.drop_first(), key, j - 1);
    }
}

/// A pair added at the end is found only where the name did not occur before.
pub proof fn lemma_lookup_push<V>(pairs: Seq<(Seq<char>, V)>, name: Seq<char>, value: V, key: Seq<char>)
    ensures
        lookup(pairs.push((name, value)), key) == match lookup(pairs, key) {
            Some(v) => Some(v),
            None => if name == key {
                Some(value)
            } else {
                None
            },
        },
    decreases pairs.len(),
{
    let more = pairs.push((name, value));
    if pairs.len() == 0 {
        assert(more.drop_first() =~= pairs);
    } else if pairs[0].0 == key {
    } else {
        lemma_lookup_push(pairs.drop_first(), name, value, key);
        assert(more.drop_first() =~= pairs.drop_first().push((name, value)));
    }
}

/// Replacing the value at the position where a name is found changes what is
/// found under that name and nothing else.
pub proof fn lemma_lookup_update<V>(pairs: Seq<(Seq<char>, V)>, i: int, value: V, key: Seq<char>)
    requires
        0 <= i < pairs.len(),
        forall|j: int| 0 <= j < i ==> (#[trigger] pairs[j]).0 != pairs[i].0,
    ensures
        lookup(pairs.update(i, (pairs[i].0, value)), key) == if key == pairs[i].0 {
            Some(value)
        } else {
            lookup(pairs, key)
        },
    decreases i,
{
    let after = pairs.update(i, (pairs[i].0, value));
    if i == 0 {
        assert(after.drop_first() =~= pairs.drop_first());
    } else {
        let rest = pairs.drop_first();
        assert forall|j: int| 0 <= j < i - 1 implies (#[trigger] rest[j]).0 != rest[i - 1].0 by {
            assert(pairs[j + 1].0 != pairs[i].0);
        }
        lemma_lookup_update(rest, i - 1, value, key);
        assert(after.drop_first() =~= rest.update(i - 1, (rest[i - 1].0, value)));
        assert(pairs[0].0 != pairs[i].0);
    }
}

/// Where names are distinct, the mapping has as many entries as the list.
pub proof fn lemma_as_map_len<V>(pairs: Seq<(Seq<char>, V)>)
    requires
        distinct_names(pairs),
    ensures
        as_map(pairs).dom().finite(),
        as_map(pairs).dom().len() == pairs.len(),
    decreases pairs.len(),
{
    if pairs.len() == 0 {
        assert(as_map(pairs).dom() =~= Set::<Seq<char>>::empty());
    } else {
        let rest = pairs.drop_last();
        let last = pairs.last();
        assert(distinct_names(rest)) by {
            assert forall|a: int, b: int| 0 <= a < b < rest.len() implies (#[trigger] rest[a]).0 != (
            #[trigger] rest[b]).0 by {
                assert(pairs[a].0 != pairs[b].0);
            }
        }
        lemma_as_map_len(rest);
        assert(pairs =~= rest.push((last.0, last.1)));
        assert(lookup(rest, last.0) is None) by {
            lemma_lookup_none(rest, last.0);
            assert forall|j: int| 0 <= j < rest.len() implies (#[trigger] rest[j]).0 != last.0 by {
                assert(pairs[j].0 != pairs[pairs.len() - 1].0);
            }
        }
        assert(as_map(pairs).dom() =~= as_map(rest).dom().insert(last.0)) by {
            assert forall|k: Seq<char>|
                (lookup(pairs, k) is Some) == (lookup(rest, k) is Some || k == last.0) by {
                lemma_lookup_push(rest, last.0, last.1, k);
            }
        }
    }
}

/// The pairs of a list without those whose name has occurred before: the first
/// pair of each name, in order.
pub open spec fn first_of_each<V>(pairs: Seq<(Seq<char>, V)>) -> Seq<(Seq<char>, V)>
    decreases pairs.len(),
{
    if pairs.len() == 0 {
        pairs
    } else {
        let before = first_of_each(pairs.drop_last());
        if lookup(before, pairs.last().0) is Some {
            before
        } else {
            before.push(pairs.last())
        }
    }
}

/// Leaving out the later pairs of a name changes no lookup, and leaves the names
/// distinct.
pub proof fn lemma_first_of_each<V>(pairs: Seq<(Seq<char>, V)>)
    ensures
        forall|key: Seq<char>| #[trigger]
            lookup(first_of_each(pairs), key) == lookup(pairs, key),
        as_map(first_of_each(pairs)) == as_map(pairs),
        distinct_names(first_of_each(pairs)),
        first_of_each(pairs).len() <= pairs.len(),
    decreases pairs.len(),
{
    if pairs.len() == 0 {
    } else {
        let rest = pairs.drop_last();
        let last = pairs.last();
        let before = first_of_each(rest);
        lemma_first_of_each(rest);
        assert(pairs =~= rest.push((last.0, last.1)));
        assert forall|key: Seq<char>| #[trigger]
            lookup(first_of_each(pairs), key) == lookup(pairs, key) by {
            lemma_lookup_push(rest, last.0, last.1, key);
            lemma_lookup_push(before, last.0, last.1, key);
            assert(lookup(before, key) == lookup(rest, key));
            assert(lookup(before, last.0) == lookup(rest, last.0));
        }
        if lookup(before, last.0) is None {
            lemma_lookup_none(before, last.0);
            let after = before.push(last);
            assert forall|a: int, b: int| 0 <= a < b < after.len() implies (#[trigger] after[a]).0
                != (#[trigger] after[b]).0 by {
                if b < before.len() {
                    assert(before[a].0 != before[b].0);
                } else {
                    assert(before[a].0 != last.0);
                }
            }
        }
    }
    assert(as_map(first_of_each(pairs)) =~= as_map(pairs));
}

/// Where the names are distinct, nothing is left out.
pub proof fn lemma_first_of_each_distinct<V>(pairs: Seq<(Seq<char>, V)>)
    requires
        distinct_names(pairs),
    ensures
        first_of_each(pairs) == pairs,
    decreases pairs.len(),
{
    if pairs.len() > 0 {
        let rest = pairs.drop_last();
        let last = pairs.last();
        assert(distinct_names(rest)) by {
            assert forall|a: int, b: int| 0 <= a < b < rest.len() implies (#[trigger] rest[a]).0 != (
            #[trigger] rest[b]).0 by {
                assert(pairs[a].0 != pairs[b].0);
            }
        }
        lemma_first_of_each_distinct(rest);
        lemma_lookup_none(rest, last.0);
        assert forall|j: int| 0 <= j < rest.len() implies (#[trigger] rest[j]).0 != last.0 by {
            assert(pairs[j].0 != pairs[pairs.len() - 1].0);
        }
        assert(first_of_each(pairs) =~= pairs);
    }
}

} // verus!
