//! Ordered key/value sequences with text keys: the mathematical model shared by the
//! query options of a list request and by the documents handed to the store.

use vstd::prelude::*;

verus! {

/// Whether some entry of `s` has the key `key`.
pub open spec fn has_key<V>(s: Seq<(Seq<char>, V)>, key: Seq<char>) -> bool {
    exists|i: int| 0 <= i < s.len() && (#[trigger] s[i]).0 == key
}

/// The position of an entry with the key `key`, where there is one.
pub open spec fn index_of<V>(s: Seq<(Seq<char>, V)>, key: Seq<char>) -> int
    recommends
        has_key(s, key),
{
    choose|i: int| 0 <= i < s.len() && (#[trigger] s[i]).0 == key
}

/// The value stored under `key`, where there is one.
pub open spec fn value_of<V>(s: Seq<(Seq<char>, V)>, key: Seq<char>) -> V
    recommends
        has_key(s, key),
{
    s[index_of(s, key)].1
}

/// No key occurs twice.
pub open spec fn distinct_keys<V>(s: Seq<(Seq<char>, V)>) -> bool {
    forall|i: int, j: int| 0 <= i < j < s.len() ==> (#[trigger] s[i]).0 != (#[trigger] s[j]).0
}

/// `s` after storing `value` under `key`: an entry that already has the key keeps its
/// place and takes the new value; otherwise the pair is appended.
pub open spec fn put<V>(s: Seq<(Seq<char>, V)>, key: Seq<char>, value: V) -> Seq<(Seq<char>, V)> {
    if has_key(s, key) {
        s.update(index_of(s, key), (key, value))
    } else {
        s.push((key, value))
    }
}

/// With distinct keys, the entry at `i` is the only one with its key.
pub proof fn lemma_index_of_unique<V>(s: Seq<(Seq<char>, V)>, i: int)
    requires
        distinct_keys(s),
        0 <= i < s.len(),
    ensures
        has_key(s, s[i].0),
        index_of(s, s[i].0) == i,
        value_of(s, s[i].0) == s[i].1,
{
    let key = s[i].0;
    let j = index_of(s, key);
    assert(0 <= j < s.len() && s[j].0 == key);
    if j < i {
        assert(s[j].0 != s[i].0);
    } else if i < j {
        assert(s[i].0 != s[j].0);
    }
}

/// Storing a value keeps the keys distinct, makes the key present with that value, and
/// leaves every other key as it was.
pub proof fn lemma_put<V>(s: Seq<(Seq<char>, V)>, key: Seq<char>, value: V)
    requires
        distinct_keys(s),
    ensures
        distinct_keys(put(s, key, value)),
        has_key(put(s, key, value), key),
        value_of(put(s, key, value), key) == value,
        put(s, key, value).len() == s.len() + if has_key(s, key) { 0int } else { 1int },
        forall|other: Seq<char>|
            other != key ==> has_key(put(s, key, value), other) == has_key(s, other),
        forall|other: Seq<char>|
            other != key && has_key(s, other) ==> value_of(put(s, key, value), other)
                == value_of(s, other),
{
    let t = put(s, key, value);
    let at = if has_key(s, key) { index_of(s, key) } else { s.len() as int };
    assert(0 <= at < t.len() && t[at] == (key, value));
    assert forall|i: int, j: int| 0 <= i < j < t.len() implies (#[trigger] t[i]).0
        != (#[trigger] t[j]).0 by {
        if has_key(s, key) {
            assert(s[at].0 == key);
            assert(s[i].0 != s[j].0);
        } else if j == at {
            assert(s[i].0 != key);
        } else {
            assert(s[i].0 != s[j].0);
        }
    }
    lemma_index_of_unique(t, at);
    assert forall|other: Seq<char>| other != key implies has_key(t, other) == has_key(s, other)
        && (has_key(s, other) ==> value_of(t, other) == value_of(s, other)) by {
        if has_key(s, other) {
            let i = index_of(s, other);
            assert(s[i].0 == other);
            assert(t[i] == s[i]);
            lemma_index_of_unique(t, i);
        }
        if has_key(t, other) {
            let i = index_of(t, other);
            assert(t[i].0 == other);
            assert(s[i] == t[i]);
        }
    }
}

} // verus!
