//! Sequences of entries keyed by a task id, as the pid file and the
//! process registry hold them: the first entry with a key is the one a
//! lookup finds, and removing a key drops every entry that carries it.

use vstd::prelude::*;

verus! {

/// The value of the first entry of `s` whose key is `k`.
pub open spec fn lookup<V>(s: Seq<(Seq<char>, V)>, k: Seq<char>) -> Option<V>
    decreases s.len(),
{
    if s.len() == 0 {
        None
    } else if s[0].0 == k {
        Some(s[0].1)
    } else {
        lookup(s.drop_first(), k)
    }
}

/// `s` without the entries whose key is `k`, the others in their order.
pub open spec fn without_key<V>(s: Seq<(Seq<char>, V)>, k: Seq<char>) -> Seq<(Seq<char>, V)>
    decreases s.len(),
{
    if s.len() == 0 {
        s
    } else if s[0].0 == k {
        without_key(s.drop_first(), k)
    } else {
        seq![s[0]] + without_key(s.drop_first(), k)
    }
}

/// Some entry of `s` carries the key `k`.
pub open spec fn has_key<V>(s: Seq<(Seq<char>, V)>, k: Seq<char>) -> bool {
    exists|i: int| 0 <= i < s.len() && (#[trigger] s[i]).0 == k
}

/// No two entries of `s` share a key.
pub open spec fn keys_unique<V>(s: Seq<(Seq<char>, V)>) -> bool {
    forall|i: int, j: int| 0 <= i < j < s.len() ==> (#[trigger] s[i]).0 != (#[trigger] s[j]).0
}

/// A lookup finds a value exactly when some entry carries the key.
pub proof fn lemma_lookup_some_iff_has_key<V>(s: Seq<(Seq<char>, V)>, k: Seq<char>)
    ensures
        lookup(s, k) is Some <==> has_key(s, k),
    decreases s.len(),
{
    if s.len() > 0 {
        lemma_lookup_some_iff_has_key(s.drop_first(), k);
        if has_key(s, k) && s[0].0 != k {
            let i = choose|i: int| 0 <= i < s.len() && (#[trigger] s[i]).0 == k;
            assert(s.drop_first()[i - 1] == s[i]);
        }
        if has_key(s.drop_first(), k) {
            let i = choose|i: int| 0 <= i < s.drop_first().len() && (#[trigger] s.drop_first()[i]).0 == k;
            assert(s[i + 1] == s.drop_first()[i]);
        }
    }
}

/// In a sequence whose keys are unique, the lookup of the key of entry `i`
/// finds that entry's value.
pub proof fn lemma_lookup_unique<V>(s: Seq<(Seq<char>, V)>, i: int)
    requires
        keys_unique(s),
        0 <= i < s.len(),
    ensures
        lookup(s, s[i].0) == Some(s[i].1),
    decreases s.len(),
{
    if i > 0 {
        assert(s[0].0 != s[i].0);
        let t = s.drop_first();
        assert forall|a: int, b: int| 0 <= a < b < t.len() implies (#[trigger] t[a]).0 != (
        #[trigger] t[b]).0 by {
            assert(t[a] == s[a + 1] && t[b] == s[b + 1]);
        }
        assert(t[i - 1] == s[i]);
        lemma_lookup_unique(t, i - 1);
    }
}

/// Every entry left after removing `k` carries another key, and every
/// entry that carried another key is left.
pub proof fn lemma_without_key_members<V>(s: Seq<(Seq<char>, V)>, k: Seq<char>)
    ensures
        forall|i: int|
            0 <= i < without_key(s, k).len() ==> (#[trigger] without_key(s, k)[i]).0 != k
                && s.contains(without_key(s, k)[i]),
        without_key(s, k).len() <= s.len(),
    decreases s.len(),
{
    if s.len() > 0 {
        let t = s.drop_first();
        lemma_without_key_members(t, k);
        let w = without_key(s, k);
        assert forall|i: int| 0 <= i < w.len() implies (#[trigger] w[i]).0 != k && s.contains(
            w[i],
        ) by {
            if s[0].0 == k {
                let j = choose|j: int| 0 <= j < t.len() && t[j] == w[i];
                assert(s[j + 1] == t[j]);
            } else if i == 0 {
                assert(s[0] == w[0]);
            } else {
                assert(w[i] == without_key(t, k)[i - 1]);
                let j = choose|j: int| 0 <= j < t.len() && t[j] == w[i];
                assert(s[j + 1] == t[j]);
            }
        }
    }
}

/// A sequence with unique keys keeps them unique once a key is removed.
pub proof fn lemma_without_key_unique<V>(s: Seq<(Seq<char>, V)>, k: Seq<char>)
    requires
        keys_unique(s),
    ensures
        keys_unique(without_key(s, k)),
    decreases s.len(),
{
    if s.len() > 0 {
        let t = s.drop_first();
        assert forall|a: int, b: int| 0 <= a < b < t.len() implies (#[trigger] t[a]).0 != (
        #[trigger] t[b]).0 by {
            assert(t[a] == s[a + 1] && t[b] == s[b + 1]);
        }
        lemma_without_key_unique(t, k);
        lemma_without_key_members(t, k);
        if s[0].0 != k {
            let w = without_key(s, k);
            let wt = without_key(t, k);
            assert forall|a: int, b: int| 0 <= a < b < w.len() implies (#[trigger] w[a]).0 != (
            #[trigger] w[b]).0 by {
                if a == 0 {
                    assert(w[b] == wt[b - 1]);
                    assert(t.contains(wt[b - 1]));
                    let j = choose|j: int| 0 <= j < t.len() && t[j] == wt[b - 1];
                    assert(s[j + 1] == t[j]);
                } else {
                    assert(w[a] == wt[a - 1] && w[b] == wt[b - 1]);
                }
            }
        }
    }
}

/// Once a key has been removed, no entry carries it: a lookup finds nothing.
pub proof fn law_removed_key_is_gone<V>(s: Seq<(Seq<char>, V)>, k: Seq<char>)
    ensures
        lookup(without_key(s, k), k) is None,
    decreases s.len(),
{
    if s.len() > 0 {
        law_removed_key_is_gone(s.drop_first(), k);
        if s[0].0 != k {
            assert((seq![s[0]] + without_key(s.drop_first(), k)).drop_first() =~= without_key(
                s.drop_first(),
                k,
            ));
        }
    }
}

/// Removing one key leaves the lookup of every other key unchanged.
pub proof fn law_removal_keeps_other_keys<V>(s: Seq<(Seq<char>, V)>, k: Seq<char>, other: Seq<char>)
    requires
        other != k,
    ensures
        lookup(without_key(s, k), other) == lookup(s, other),
    decreases s.len(),
{
    if s.len() > 0 {
        law_removal_keeps_other_keys(s.drop_first(), k, other);
        if s[0].0 != k {
            assert((seq![s[0]] + without_key(s.drop_first(), k)).drop_first() =~= without_key(
                s.drop_first(),
                k,
            ));
        }
    }
}

/// Removing a key a second time changes nothing.
pub proof fn law_removal_is_idempotent<V>(s: Seq<(Seq<char>, V)>, k: Seq<char>)
    ensures
        without_key(without_key(s, k), k) == without_key(s, k),
    decreases s.len(),
{
    if s.len() > 0 {
        law_removal_is_idempotent(s.drop_first(), k);
        if s[0].0 != k {
            let w = seq![s[0]] + without_key(s.drop_first(), k);
            assert(w[0] == s[0]);
            assert(w.drop_first() =~= without_key(s.drop_first(), k));
        }
    }
}

/// Removing a key that no entry carries changes nothing.
pub proof fn lemma_without_absent_key<V>(s: Seq<(Seq<char>, V)>, k: Seq<char>)
    requires
        !has_key(s, k),
    ensures
        without_key(s, k) == s,
    decreases s.len(),
{
    if s.len() > 0 {
        assert(s[0] == s[0]);
        assert(!has_key(s.drop_first(), k)) by {
            if has_key(s.drop_first(), k) {
                let i = choose|i: int|
                    0 <= i < s.drop_first().len() && (#[trigger] s.drop_first()[i]).0 == k;
                assert(s[i + 1] == s.drop_first()[i]);
            }
        }
        lemma_without_absent_key(s.drop_first(), k);
        assert(seq![s[0]] + s.drop_first() =~= s);
    }
}

/// In a sequence with unique keys, removing the key of entry `i` removes
/// just that entry.
pub proof fn lemma_without_unique_key<V>(s: Seq<(Seq<char>, V)>, i: int)
    requires
        keys_unique(s),
        0 <= i < s.len(),
    ensures
        without_key(s, s[i].0) == s.remove(i),
    decreases s.len(),
{
    let k = s[i].0;
    let t = s.drop_first();
    assert forall|a: int, b: int| 0 <= a < b < t.len() implies (#[trigger] t[a]).0 != (
    #[trigger] t[b]).0 by {
        assert(t[a] == s[a + 1] && t[b] == s[b + 1]);
    }
    if i == 0 {
        assert(!has_key(t, k)) by {
            if has_key(t, k) {
                let j = choose|j: int| 0 <= j < t.len() && (#[trigger] t[j]).0 == k;
                assert(s[j + 1] == t[j]);
            }
        }
        lemma_without_absent_key(t, k);
        assert(t =~= s.remove(0));
    } else {
        assert(s[0].0 != k);
        assert(t[i - 1] == s[i]);
        lemma_without_unique_key(t, i - 1);
        assert(seq![s[0]] + t.remove(i - 1) =~= s.remove(i));
    }
}

/// Appending an entry: its key now finds it when no earlier entry carried
/// that key, and every other key finds what it found before.
pub proof fn lemma_lookup_push<V>(s: Seq<(Seq<char>, V)>, e: (Seq<char>, V), k: Seq<char>)
    ensures
        e.0 != k ==> lookup(s.push(e), k) == lookup(s, k),
        e.0 == k && !has_key(s, k) ==> lookup(s.push(e), k) == Some(e.1),
    decreases s.len(),
{
    if s.len() > 0 {
        assert(s.push(e).drop_first() =~= s.drop_first().push(e));
        assert(s.push(e)[0] == s[0]);
        if !has_key(s, k) {
            assert(!has_key(s.drop_first(), k)) by {
                if has_key(s.drop_first(), k) {
                    let i = choose|i: int|
                        0 <= i < s.drop_first().len() && (#[trigger] s.drop_first()[i]).0 == k;
                    assert(s[i + 1] == s.drop_first()[i]);
                }
            }
            assert(s[0].0 != k) by {
                if s[0].0 == k {
                    assert(has_key(s, k));
                }
            }
        }
        lemma_lookup_push(s.drop_first(), e, k);
    } else {
        assert(s.push(e)[0] == e);
        assert(s.push(e).drop_first() =~= s);
    }
}

} // verus!
