//! Sorting and deduplication, done by `itertools`, with what the rest of the
//! library needs to know of their results.
use itertools::Itertools;

use vstd::prelude::*;

verus! {

/// `a` comes strictly before `b` in the lexicographic order of their
/// characters, which is the order of `String`s (UTF-8 keeps the order of code
/// points).
pub open spec fn chars_lt(a: Seq<char>, b: Seq<char>) -> bool
    decreases a.len(),
{
    if a.len() == 0 {
        b.len() > 0
    } else if b.len() == 0 {
        false
    } else if a[0] != b[0] {
        (a[0] as int) < (b[0] as int)
    } else {
        chars_lt(a.drop_first(), b.drop_first())
    }
}

/// `a` comes before `b` or equals it.
pub open spec fn chars_le(a: Seq<char>, b: Seq<char>) -> bool {
    a == b || chars_lt(a, b)
}

/// The character sequences of a sequence of strings.
pub open spec fn string_views(s: Seq<String>) -> Seq<Seq<char>> {
    s.map_values(|x: String| x@)
}

/// Every element comes before or equals every later one.
pub open spec fn sorted_chars(s: Seq<Seq<char>>) -> bool {
    forall|i: int, j: int| 0 <= i < j < s.len() ==> chars_le(#[trigger] s[i], #[trigger] s[j])
}

/// Every element comes strictly before every later one.
pub open spec fn strictly_sorted_chars(s: Seq<Seq<char>>) -> bool {
    forall|i: int, j: int| 0 <= i < j < s.len() ==> chars_lt(#[trigger] s[i], #[trigger] s[j])
}

/// The sequence with each run of equal neighbours shortened to one element.
pub open spec fn dedup_spec(s: Seq<Seq<char>>) -> Seq<Seq<char>>
    decreases s.len(),
{
    if s.len() <= 1 {
        s
    } else if s.last() == s[s.len() - 2] {
        dedup_spec(s.drop_last())
    } else {
        dedup_spec(s.drop_last()).push(s.last())
    }
}

/// No sequence comes strictly before itself.
pub proof fn lemma_chars_lt_irreflexive(a: Seq<char>)
    ensures
        !chars_lt(a, a),
    decreases a.len(),
{
    if a.len() > 0 {
        lemma_chars_lt_irreflexive(a.drop_first());
    }
}

/// The strict order is transitive.
pub proof fn lemma_chars_lt_transitive(a: Seq<char>, b: Seq<char>, c: Seq<char>)
    requires
        chars_lt(a, b),
        chars_lt(b, c),
    ensures
        chars_lt(a, c),
    decreases a.len(),
{
    if a.len() > 0 && b.len() > 0 && c.len() > 0 {
        if a[0] == b[0] && b[0] == c[0] {
            lemma_chars_lt_transitive(a.drop_first(), b.drop_first(), c.drop_first());
        }
    }
}

/// Of two different sequences, one comes strictly before the other.
pub proof fn lemma_chars_lt_total(a: Seq<char>, b: Seq<char>)
    requires
        a != b,
    ensures
        chars_lt(a, b) || chars_lt(b, a),
    decreases a.len(),
{
    if a.len() == 0 && b.len() == 0 {
        assert(a =~= b);
    } else if a.len() == 0 || b.len() == 0 {
    } else if a[0] != b[0] {
        assert((a[0] as int) != (b[0] as int));
    } else {
        if a.drop_first() =~= b.drop_first() {
            assert(a =~= seq![a[0]] + a.drop_first());
            assert(b =~= seq![b[0]] + b.drop_first());
            assert(false);
        }
        lemma_chars_lt_total(a.drop_first(), b.drop_first());
    }
}

/// The order is antisymmetric.
pub proof fn lemma_chars_le_antisymmetric(a: Seq<char>, b: Seq<char>)
    requires
        chars_le(a, b),
        chars_le(b, a),
    ensures
        a == b,
{
    if a != b {
        lemma_chars_lt_transitive(a, b, a);
        lemma_chars_lt_irreflexive(a);
    }
}

/// Shortening the runs of equal neighbours keeps exactly the elements there
/// were, and keeps the last element last.
pub proof fn lemma_dedup_contents(s: Seq<Seq<char>>)
    ensures
        forall|x: Seq<char>| dedup_spec(s).contains(x) <==> s.contains(x),
        s.len() > 0 ==> dedup_spec(s).len() > 0 && dedup_spec(s).last() == s.last(),
        s.len() == 0 ==> dedup_spec(s).len() == 0,
    decreases s.len(),
{
    if s.len() > 1 {
        let init = s.drop_last();
        lemma_dedup_contents(init);
        assert forall|x: Seq<char>| dedup_spec(s).contains(x) <==> s.contains(x) by {
            if s.contains(x) {
                let i = choose|i: int| 0 <= i < s.len() && s[i] == x;
                if i < s.len() - 1 || s.last() == s[s.len() - 2] {
                    if i < s.len() - 1 {
                        assert(init[i] == x);
                    } else {
                        assert(init[init.len() - 1] == x);
                    }
                    assert(init.contains(x));
                    assert(dedup_spec(init).contains(x));
                    if s.last() != s[s.len() - 2] {
                        let d = dedup_spec(init);
                        let k = choose|k: int| 0 <= k < d.len() && d[k] == x;
                        assert(d.push(s.last())[k] == x);
                    }
                } else {
                    assert(dedup_spec(s).last() == x);
                }
            }
            if dedup_spec(s).contains(x) {
                if s.last() != s[s.len() - 2] && x == s.last() {
                    assert(s[s.len() - 1] == x);
                } else {
                    let d = dedup_spec(init);
                    if s.last() != s[s.len() - 2] {
                        let k = choose|k: int| 0 <= k < dedup_spec(s).len() && dedup_spec(s)[k] == x;
                        assert(d.contains(x)) by {
                            assert(d[k] == x);
                        }
                    }
                    assert(init.contains(x));
                    let i = choose|i: int| 0 <= i < init.len() && init[i] == x;
                    assert(s[i] == x);
                }
            }
        }
    }
}

/// Shortening the runs of a sorted sequence leaves a strictly sorted one.
pub proof fn lemma_dedup_sorted(s: Seq<Seq<char>>)
    requires
        sorted_chars(s),
    ensures
        strictly_sorted_chars(dedup_spec(s)),
    decreases s.len(),
{
    if s.len() > 1 {
        let init = s.drop_last();
        assert(sorted_chars(init)) by {
            assert forall|i: int, j: int| 0 <= i < j < init.len() implies chars_le(
                #[trigger] init[i],
                #[trigger] init[j],
            ) by {
                assert(init[i] == s[i] && init[j] == s[j]);
            }
        }
        lemma_dedup_sorted(init);
        if s.last() != s[s.len() - 2] {
            let d = dedup_spec(init);
            lemma_dedup_contents(init);
            let last = s.last();
            assert(chars_lt(s[s.len() - 2], last)) by {
                assert(chars_le(s[s.len() - 2], s[s.len() - 1]));
            }
            assert forall|i: int, j: int|
                0 <= i < j < d.push(last).len() implies chars_lt(
                #[trigger] d.push(last)[i],
                #[trigger] d.push(last)[j],
            ) by {
                if j == d.len() {
                    let x = d[i];
                    assert(d.contains(x));
                    assert(init.contains(x));
                    let k = choose|k: int| 0 <= k < init.len() && init[k] == x;
                    assert(init[k] == s[k]);
                    if k < init.len() - 1 {
                        assert(chars_le(s[k], s[s.len() - 2]));
                        if x != s[s.len() - 2] {
                            lemma_chars_lt_transitive(x, s[s.len() - 2], last);
                        }
                    } else {
                        assert(x == s[s.len() - 2]);
                    }
                } else {
                    assert(d.push(last)[i] == d[i] && d.push(last)[j] == d[j]);
                }
            }
        }
    }
}

/// Sorts strings with `Itertools::sorted` (a stable `slice::sort` by `Ord`):
/// the result holds the same strings, each as often as before, in the order
/// of `String`, which is the lexicographic order of their characters.
#[verifier::external_body]
pub(crate) fn sort_strings(items: Vec<String>) -> (r: Vec<String>)
    ensures
        string_views(r@).to_multiset() == string_views(items@).to_multiset(),
        sorted_chars(string_views(r@)),
{
    items.into_iter().sorted().collect()
}

/// Removes each string that equals the one before it, with
/// `Itertools::dedup`.
#[verifier::external_body]
pub(crate) fn dedup_strings(items: Vec<String>) -> (r: Vec<String>)
    ensures
        string_views(r@) == dedup_spec(string_views(items@)),
{
    items.into_iter().dedup().collect()
}

/// Sorts `(key, item)` pairs by key with `Itertools::sorted_by_key` (a stable
/// `slice::sort_by_key`), keeping pairs with equal keys in the order they came
/// in: the result holds the same pairs, each as often as before, keys ascend,
/// and of two pairs with the same key the one that came first comes first.
#[verifier::external_body]
pub(crate) fn stable_sort_by_key(items: Vec<(i32, usize)>) -> (r: Vec<(i32, usize)>)
    ensures
        r@.to_multiset() == items@.to_multiset(),
        forall|i: int, j: int| 0 <= i < j < r@.len() ==> (#[trigger] r@[i]).0 <= (#[trigger] r@[j]).0,
        forall|i: int, j: int|
            0 <= i < j < r@.len() && (#[trigger] r@[i]).0 == (#[trigger] r@[j]).0 ==> exists|
                a: int,
                b: int,
            | 0 <= a < b < items@.len() && items@[a] == r@[i] && items@[b] == r@[j],
{
    items.into_iter().sorted_by_key(|item| item.0).collect()
}

} // verus!
