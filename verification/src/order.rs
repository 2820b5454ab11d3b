use vstd::prelude::*;
use itertools::Itertools;

verus! {

/// Strings compare as sequences of characters, character by character by
/// code point; a proper prefix comes first. This is the order of `String`,
/// whose bytes are UTF-8, which keeps the order of code points.
pub open spec fn str_lt(a: Seq<char>, b: Seq<char>) -> bool
    decreases a.len(),
{
    if a.len() == 0 {
        b.len() > 0
    } else if b.len() == 0 {
        false
    } else if a[0] == b[0] {
        str_lt(a.drop_first(), b.drop_first())
    } else {
        (a[0] as int) < (b[0] as int)
    }
}

/// Each string comes before the ones after it.
pub open spec fn strictly_sorted(s: Seq<Seq<char>>) -> bool {
    forall|i: int, j: int| 0 <= i < j < s.len() ==> str_lt(#[trigger] s[i], #[trigger] s[j])
}

/// No string comes before one that stands ahead of it.
pub open spec fn sorted(s: Seq<Seq<char>>) -> bool {
    forall|i: int, j: int| 0 <= i < j < s.len() ==> !str_lt(#[trigger] s[j], #[trigger] s[i])
}

/// `q` is the one strictly sorted sequence that holds the strings of `names`.
pub open spec fn is_canonical(q: Seq<Seq<char>>, names: Set<Seq<char>>) -> bool {
    strictly_sorted(q) && q.to_set() == names
}

/// The views of a sequence of strings.
pub open spec fn strs(v: Seq<String>) -> Seq<Seq<char>> {
    v.map_values(|s: String| s@)
}

pub proof fn lemma_str_lt_irreflexive(a: Seq<char>)
    ensures
        !str_lt(a, a),
    decreases a.len(),
{
    if a.len() > 0 {
        lemma_str_lt_irreflexive(a.drop_first());
    }
}

pub proof fn lemma_str_lt_asymmetric(a: Seq<char>, b: Seq<char>)
    ensures
        str_lt(a, b) ==> !str_lt(b, a),
    decreases a.len(),
{
    if a.len() > 0 && b.len() > 0 && a[0] == b[0] {
        lemma_str_lt_asymmetric(a.drop_first(), b.drop_first());
    }
}

pub proof fn lemma_str_lt_transitive(a: Seq<char>, b: Seq<char>, c: Seq<char>)
    ensures
        str_lt(a, b) && str_lt(b, c) ==> str_lt(a, c),
    decreases a.len(),
{
    if a.len() > 0 && b.len() > 0 && c.len() > 0 {
        lemma_str_lt_transitive(a.drop_first(), b.drop_first(), c.drop_first());
    }
}

pub proof fn lemma_str_lt_total(a: Seq<char>, b: Seq<char>)
    ensures
        a != b ==> str_lt(a, b) || str_lt(b, a),
    decreases a.len(),
{
    if a.len() == 0 {
        if b.len() == 0 {
            assert(a =~= b);
        }
    } else if b.len() > 0 {
        if a[0] == b[0] {
            lemma_str_lt_total(a.drop_first(), b.drop_first());
            if a.drop_first() == b.drop_first() {
                assert(a =~= seq![a[0]] + a.drop_first());
                assert(b =~= seq![b[0]] + b.drop_first());
            }
        } else {
            assert((a[0] as int) != (b[0] as int));
        }
    }
}

/// Two strictly sorted sequences with the same strings are the same.
pub proof fn lemma_canonical_unique(p: Seq<Seq<char>>, q: Seq<Seq<char>>)
    requires
        strictly_sorted(p),
        strictly_sorted(q),
        p.to_set() == q.to_set(),
    ensures
        p == q,
    decreases p.len(),
{
    if p.len() == 0 {
        if q.len() > 0 {
            assert(q.to_set().contains(q[0]));
        }
        assert(p =~= q);
    } else {
        assert(p.to_set().contains(p[0]));
        assert(q.to_set().contains(p[0]));
        let k = choose|k: int| 0 <= k < q.len() && q[k] == p[0];
        assert(q.to_set().contains(q[0]));
        let m = choose|m: int| 0 <= m < p.len() && p[m] == q[0];
        if k > 0 {
            assert(str_lt(q[0], q[k]));
            if m == 0 {
                lemma_str_lt_irreflexive(p[0]);
            } else {
                assert(str_lt(p[0], p[m]));
                lemma_str_lt_asymmetric(p[0], p[m]);
            }
        }
        assert(k == 0);
        let p1 = p.drop_first();
        let q1 = q.drop_first();
        assert forall|x: Seq<char>| p1.to_set().contains(x) implies q1.to_set().contains(x) by {
            let i = choose|i: int| 0 <= i < p1.len() && p1[i] == x;
            assert(p.to_set().contains(p[i + 1]));
            let j = choose|j: int| 0 <= j < q.len() && q[j] == x;
            if j == 0 {
                assert(str_lt(p[0], p[i + 1]));
                lemma_str_lt_irreflexive(p[0]);
            }
            assert(q1[j - 1] == x);
        }
        assert forall|x: Seq<char>| q1.to_set().contains(x) implies p1.to_set().contains(x) by {
            let j = choose|j: int| 0 <= j < q1.len() && q1[j] == x;
            assert(q.to_set().contains(q[j + 1]));
            let i = choose|i: int| 0 <= i < p.len() && p[i] == x;
            if i == 0 {
                assert(str_lt(q[0], q[j + 1]));
                lemma_str_lt_irreflexive(q[0]);
            }
            assert(p1[i - 1] == x);
        }
        assert(p1.to_set() =~= q1.to_set());
        lemma_canonical_unique(p1, q1);
        assert(p =~= seq![p[0]] + p1);
        assert(q =~= seq![q[0]] + q1);
    }
}

/// Removing duplicates keeps no duplicates where the strings seen so far
/// have none.
pub proof fn lemma_remove_duplicates_no_dups<A>(s: Seq<A>, seen: Seq<A>)
    requires
        seen.no_duplicates(),
    ensures
        s.remove_duplicates(seen).no_duplicates(),
    decreases s.len(),
{
    if s.len() == 0 {
    } else if seen.contains(s[0]) {
        lemma_remove_duplicates_no_dups(s.skip(1), seen);
    } else {
        let seen2 = seen + seq![s[0]];
        assert forall|i: int, j: int| 0 <= i < seen2.len() && 0 <= j < seen2.len() && i != j
            implies seen2[i] != seen2[j] by {
            if i == seen.len() as int {
                assert(seen.contains(seen2[j]) ==> seen2[j] != s[0]);
            } else if j == seen.len() as int {
                assert(seen[i] == seen2[i]);
            }
        }
        lemma_remove_duplicates_no_dups(s.skip(1), seen2);
    }
}

/// A sorted sequence without duplicates is strictly sorted.
pub proof fn lemma_sorted_no_dups_strict(s: Seq<Seq<char>>)
    requires
        sorted(s),
        s.no_duplicates(),
    ensures
        strictly_sorted(s),
{
    assert forall|i: int, j: int| 0 <= i < j < s.len() implies str_lt(#[trigger] s[i], #[trigger] s[j]) by {
        lemma_str_lt_total(s[i], s[j]);
    }
}

/// Calls `Itertools::unique` of the itertools crate, which hands out the
/// strings of `v` that were not handed out before, keeping the first of
/// equal ones in its place. The contract claims, unproved, that the result
/// is `v` with every later occurrence of a string left out.
#[verifier::external_body]
fn unique_strings(v: Vec<String>) -> (r: Vec<String>)
    ensures
        strs(r@) == strs(v@).remove_duplicates(Seq::empty()),
{
    v.into_iter().unique().collect()
}

/// Calls `Itertools::sorted` of the itertools crate, which sorts the
/// strings of `v` with the order of `String`. The contract claims, unproved,
/// that the result holds the same strings as `v`, as often, and that none
/// comes before one ahead of it by `str_lt`, the code-point order of
/// characters that the byte order of UTF-8 strings follows.
#[verifier::external_body]
fn sorted_strings(v: Vec<String>) -> (r: Vec<String>)
    ensures
        strs(r@).to_multiset() == strs(v@).to_multiset(),
        sorted(strs(r@)),
{
    v.into_iter().sorted().collect()
}

/// The strings of `v`, each once, in ascending order.
pub fn sorted_unique(v: Vec<String>) -> (r: Vec<String>)
    ensures
        is_canonical(strs(r@), strs(v@).to_set()),
{
    let ghost input = strs(v@);
    let u = unique_strings(v);
    let ghost us = strs(u@);
    proof {
        lemma_remove_duplicates_no_dups(input, Seq::empty());
        input.lemma_remove_duplicates_properties(Seq::empty());
        assert(input + Seq::empty() =~= input);
        us.lemma_multiset_has_no_duplicates();
    }
    let r = sorted_strings(u);
    let ghost rs = strs(r@);
    proof {
        broadcast use vstd::seq_lib::group_to_multiset_ensures;
        rs.lemma_multiset_has_no_duplicates_conv();
        lemma_sorted_no_dups_strict(rs);
        assert forall|x: Seq<char>| rs.to_set().contains(x) <==> input.to_set().contains(x) by {
            assert(rs.contains(x) <==> rs.to_multiset().count(x) > 0);
            assert(us.contains(x) <==> us.to_multiset().count(x) > 0);
        }
        assert(rs.to_set() =~= input.to_set());
    }
    r
}

} // verus!
