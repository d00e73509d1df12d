//! The mathematical model shared by every sub-cache: a bounded LRU list is a
//! sequence of key/value entries, most recently used first.

use vstd::prelude::*;

verus! {

/// One cached pair as the specifications see it: the key and the view of its value.
pub type Entry = (u64, Seq<char>);

/// True when some entry of `s` carries the key `k`.
pub open spec fn has_key(s: Seq<Entry>, k: u64) -> bool {
    exists|i: int| 0 <= i < s.len() && s[i].0 == k
}

/// The position of the entry carrying `k`; meaningful only when `has_key(s, k)`.
pub open spec fn index_of_key(s: Seq<Entry>, k: u64) -> int {
    choose|i: int| 0 <= i < s.len() && s[i].0 == k
}

/// The value stored under `k`; meaningful only when `has_key(s, k)`.
pub open spec fn value_of(s: Seq<Entry>, k: u64) -> Seq<char> {
    s[index_of_key(s, k)].1
}

/// No two entries of `s` carry the same key.
pub open spec fn distinct_keys(s: Seq<Entry>) -> bool {
    forall|i: int, j: int| 0 <= i < j < s.len() ==> s[i].0 != s[j].0
}

/// No key occurs both in `a` and in `b`.
pub open spec fn disjoint_keys(a: Seq<Entry>, b: Seq<Entry>) -> bool {
    forall|k: u64| has_key(a, k) ==> !has_key(b, k)
}

/// `s` with the entry carrying `k` moved to the front, its value unchanged.
pub open spec fn promote(s: Seq<Entry>, k: u64) -> Seq<Entry> {
    s.remove(index_of_key(s, k)).insert(0, s[index_of_key(s, k)])
}

/// `s` with the entry carrying `k` moved to the front and its value replaced by `v`.
pub open spec fn update_front(s: Seq<Entry>, k: u64, v: Seq<char>) -> Seq<Entry> {
    s.remove(index_of_key(s, k)).insert(0, (k, v))
}

/// The chosen index of a present key is a real position that carries the key.
pub proof fn lemma_index_of_key(s: Seq<Entry>, k: u64)
    requires
        has_key(s, k),
    ensures
        0 <= index_of_key(s, k) < s.len(),
        s[index_of_key(s, k)].0 == k,
{
}

/// With distinct keys, the entry carrying `k` sits at exactly one position.
pub proof fn lemma_key_unique(s: Seq<Entry>, k: u64, i: int)
    requires
        distinct_keys(s),
        0 <= i < s.len(),
        s[i].0 == k,
    ensures
        has_key(s, k),
        index_of_key(s, k) == i,
        value_of(s, k) == s[i].1,
{
    assert(has_key(s, k));
    let j = index_of_key(s, k);
    lemma_index_of_key(s, k);
    if i < j {
        assert(s[i].0 != s[j].0);
    } else if j < i {
        assert(s[j].0 != s[i].0);
    }
}

/// What inserting a fresh entry at the front does to keys and values.
pub proof fn lemma_insert_front(s: Seq<Entry>, e: Entry)
    requires
        distinct_keys(s),
        !has_key(s, e.0),
    ensures
        distinct_keys(s.insert(0, e)),
        forall|k: u64| #[trigger] has_key(s.insert(0, e), k) <==> (k == e.0 || has_key(s, k)),
        value_of(s.insert(0, e), e.0) == e.1,
        forall|k: u64|
            has_key(s, k) ==> #[trigger] value_of(s.insert(0, e), k) == value_of(s, k),
{
    let t = s.insert(0, e);
    assert(t.len() == s.len() + 1);
    assert(t[0] == e);
    assert forall|j: int| 1 <= j < t.len() implies t[j] == s[j - 1] by {}
    assert forall|i: int, j: int| 0 <= i < j < t.len() implies t[i].0 != t[j].0 by {
        if i == 0 {
            assert(t[j] == s[j - 1]);
            if t[j].0 == e.0 {
                assert(has_key(s, e.0));
            }
        } else {
            assert(t[i] == s[i - 1]);
            assert(t[j] == s[j - 1]);
        }
    }
    assert forall|k: u64| #[trigger] has_key(t, k) implies (k == e.0 || has_key(s, k)) by {
        let i = choose|i: int| 0 <= i < t.len() && t[i].0 == k;
        if i > 0 {
            assert(t[i] == s[i - 1]);
            assert(has_key(s, k));
        }
    }
    assert forall|k: u64| k == e.0 || has_key(s, k) implies #[trigger] has_key(t, k) by {
        if k == e.0 {
            assert(t[0].0 == k);
        } else {
            let i = index_of_key(s, k);
            lemma_index_of_key(s, k);
            assert(t[i + 1] == s[i]);
        }
    }
    lemma_key_unique(t, e.0, 0);
    assert forall|k: u64|
        has_key(s, k) implies #[trigger] value_of(t, k) == value_of(s, k) by {
        let i = index_of_key(s, k);
        lemma_index_of_key(s, k);
        assert(t[i + 1] == s[i]);
        lemma_key_unique(t, k, i + 1);
    }
}

/// What removing the entry at position `i` does to keys and values.
pub proof fn lemma_remove_at(s: Seq<Entry>, i: int)
    requires
        distinct_keys(s),
        0 <= i < s.len(),
    ensures
        distinct_keys(s.remove(i)),
        forall|k: u64|
            #[trigger] has_key(s.remove(i), k) <==> (has_key(s, k) && k != s[i].0),
        forall|k: u64|
            has_key(s, k) && k != s[i].0 ==> #[trigger] value_of(s.remove(i), k) == value_of(
                s,
                k,
            ),
{
    let t = s.remove(i);
    assert(t.len() == s.len() - 1);
    assert forall|j: int| 0 <= j < t.len() implies t[j] == (if j < i {
        s[j]
    } else {
        s[j + 1]
    }) by {}
    assert forall|a: int, b: int| 0 <= a < b < t.len() implies t[a].0 != t[b].0 by {}
    assert forall|k: u64| #[trigger] has_key(t, k) implies (has_key(s, k) && k != s[i].0) by {
        let j = choose|j: int| 0 <= j < t.len() && t[j].0 == k;
        if j < i {
            assert(s[j].0 == k);
            lemma_key_unique(s, k, j);
        } else {
            assert(s[j + 1].0 == k);
            lemma_key_unique(s, k, j + 1);
        }
    }
    assert forall|k: u64| has_key(s, k) && k != s[i].0 implies #[trigger] has_key(t, k) by {
        let j = index_of_key(s, k);
        lemma_index_of_key(s, k);
        if j < i {
            assert(t[j] == s[j]);
        } else {
            assert(j > i);
            assert(t[j - 1] == s[j]);
        }
    }
    assert forall|k: u64|
        has_key(s, k) && k != s[i].0 implies #[trigger] value_of(t, k) == value_of(s, k) by {
        let j = index_of_key(s, k);
        lemma_index_of_key(s, k);
        if j < i {
            assert(t[j] == s[j]);
            lemma_key_unique(t, k, j);
        } else {
            assert(j > i);
            assert(t[j - 1] == s[j]);
            lemma_key_unique(t, k, j - 1);
        }
    }
}

/// What dropping the least recently used entry does to keys and values.
pub proof fn lemma_drop_last(s: Seq<Entry>)
    requires
        distinct_keys(s),
        s.len() > 0,
    ensures
        distinct_keys(s.drop_last()),
        forall|k: u64|
            #[trigger] has_key(s.drop_last(), k) <==> (has_key(s, k) && k != s.last().0),
        forall|k: u64|
            has_key(s, k) && k != s.last().0 ==> #[trigger] value_of(s.drop_last(), k)
                == value_of(s, k),
{
    assert(s.drop_last() =~= s.remove(s.len() - 1));
    lemma_remove_at(s, s.len() - 1);
}

/// Moving the entry carrying `k` to the front keeps keys, values and length.
pub proof fn lemma_promote(s: Seq<Entry>, k: u64)
    requires
        distinct_keys(s),
        has_key(s, k),
    ensures
        promote(s, k).len() == s.len(),
        distinct_keys(promote(s, k)),
        forall|j: u64| #[trigger] has_key(promote(s, k), j) <==> has_key(s, j),
        forall|j: u64|
            has_key(s, j) ==> #[trigger] value_of(promote(s, k), j) == value_of(s, j),
        promote(s, k)[0] == (k, value_of(s, k)),
{
    let i = index_of_key(s, k);
    lemma_index_of_key(s, k);
    lemma_remove_at(s, i);
    assert(!has_key(s.remove(i), k));
    lemma_insert_front(s.remove(i), s[i]);
    let t = promote(s, k);
    assert forall|j: u64| #[trigger] has_key(t, j) implies has_key(s, j) by {}
    assert forall|j: u64| has_key(s, j) implies #[trigger] has_key(t, j) by {}
    assert forall|j: u64|
        has_key(s, j) implies #[trigger] value_of(t, j) == value_of(s, j) by {
        if j == k {
            assert(value_of(t, k) == s[i].1);
        } else {
            assert(value_of(t, j) == value_of(s.remove(i), j));
        }
    }
    assert(t[0] == s[i]);
    assert(s[i] == (k, value_of(s, k)));
}

/// Promoting the entry that already sits at the front changes nothing.
pub proof fn lemma_promote_front(s: Seq<Entry>, k: u64)
    requires
        distinct_keys(s),
        s.len() > 0,
        s[0].0 == k,
    ensures
        promote(s, k) == s,
{
    lemma_key_unique(s, k, 0);
    assert(promote(s, k) =~= s);
}

/// Moving `k` to the front with a new value: `k` now maps to `v`, the rest is kept.
pub proof fn lemma_update_front(s: Seq<Entry>, k: u64, v: Seq<char>)
    requires
        distinct_keys(s),
        has_key(s, k),
    ensures
        update_front(s, k, v).len() == s.len(),
        distinct_keys(update_front(s, k, v)),
        forall|j: u64| #[trigger] has_key(update_front(s, k, v), j) <==> has_key(s, j),
        value_of(update_front(s, k, v), k) == v,
        forall|j: u64|
            has_key(s, j) && j != k ==> #[trigger] value_of(update_front(s, k, v), j)
                == value_of(s, j),
{
    let i = index_of_key(s, k);
    lemma_index_of_key(s, k);
    lemma_remove_at(s, i);
    assert(!has_key(s.remove(i), k));
    lemma_insert_front(s.remove(i), (k, v));
    let t = update_front(s, k, v);
    assert forall|j: u64| #[trigger] has_key(t, j) implies has_key(s, j) by {}
    assert forall|j: u64| has_key(s, j) implies #[trigger] has_key(t, j) by {}
    assert forall|j: u64|
        has_key(s, j) && j != k implies #[trigger] value_of(t, j) == value_of(s, j) by {
        assert(value_of(t, j) == value_of(s.remove(i), j));
    }
}

/// Truncating to the `n` most recent entries loses no distinctness and adds no key.
pub proof fn lemma_take(s: Seq<Entry>, n: int)
    requires
        distinct_keys(s),
        0 <= n <= s.len(),
    ensures
        distinct_keys(s.take(n)),
        forall|k: u64| #[trigger] has_key(s.take(n), k) ==> has_key(s, k),
        forall|k: u64|
            has_key(s.take(n), k) ==> #[trigger] value_of(s.take(n), k) == value_of(s, k),
{
    let t = s.take(n);
    assert forall|j: int| 0 <= j < t.len() implies t[j] == s[j] by {}
    assert forall|k: u64| #[trigger] has_key(t, k) implies has_key(s, k) by {
        let j = choose|j: int| 0 <= j < t.len() && t[j].0 == k;
        assert(s[j].0 == k);
    }
    assert forall|k: u64|
        has_key(t, k) implies #[trigger] value_of(t, k) == value_of(s, k) by {
        let j = choose|j: int| 0 <= j < t.len() && t[j].0 == k;
        lemma_key_unique(t, k, j);
        lemma_key_unique(s, k, j);
    }
}

/// Concatenating two key-distinct, key-disjoint sequences keeps every key
/// exactly once.
pub proof fn lemma_concat_distinct(a: Seq<Entry>, b: Seq<Entry>)
    requires
        distinct_keys(a),
        distinct_keys(b),
        disjoint_keys(a, b),
    ensures
        distinct_keys(a + b),
        forall|k: u64| #[trigger] has_key(a + b, k) <==> (has_key(a, k) || has_key(b, k)),
{
    let t = a + b;
    assert forall|j: int| 0 <= j < t.len() implies t[j] == (if j < a.len() {
        a[j]
    } else {
        b[j - a.len()]
    }) by {}
    assert forall|i: int, j: int| 0 <= i < j < t.len() implies t[i].0 != t[j].0 by {
        if i < a.len() && j >= a.len() {
            if t[i].0 == t[j].0 {
                assert(has_key(a, t[i].0));
                assert(has_key(b, t[j].0));
            }
        }
    }
    assert forall|k: u64| #[trigger] has_key(t, k) implies (has_key(a, k) || has_key(b, k)) by {
        let j = choose|j: int| 0 <= j < t.len() && t[j].0 == k;
        if j < a.len() {
            assert(a[j].0 == k);
        } else {
            assert(b[j - a.len()].0 == k);
        }
    }
    assert forall|k: u64| has_key(a, k) || has_key(b, k) implies #[trigger] has_key(t, k) by {
        if has_key(a, k) {
            let j = index_of_key(a, k);
            lemma_index_of_key(a, k);
            assert(t[j].0 == k);
        } else {
            let j = index_of_key(b, k);
            lemma_index_of_key(b, k);
            assert(t[j + a.len()].0 == k);
        }
    }
}

} // verus!
