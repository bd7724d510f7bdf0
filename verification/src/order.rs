//! Lexicographic order on strings (by code point, as the standard library
//! orders them) and a sort for the discovered chapter names.

use vstd::prelude::*;
use vstd::string::*;
use vstd::multiset::Multiset;

verus! {

/// Lexicographic order on character sequences, by code point.
pub open spec fn lex_leq(a: Seq<char>, b: Seq<char>) -> bool
    decreases a.len(),
{
    if a.len() == 0 {
        true
    } else if b.len() == 0 {
        false
    } else if (a[0] as u32) < (b[0] as u32) {
        true
    } else if (a[0] as u32) > (b[0] as u32) {
        false
    } else {
        lex_leq(a.drop_first(), b.drop_first())
    }
}

/// The order is total: of any two sequences one is below the other.
pub proof fn lemma_lex_total(a: Seq<char>, b: Seq<char>)
    ensures
        lex_leq(a, b) || lex_leq(b, a),
    decreases a.len(),
{
    if a.len() > 0 && b.len() > 0 && (a[0] as u32) == (b[0] as u32) {
        lemma_lex_total(a.drop_first(), b.drop_first());
    }
}

/// The order is reflexive.
pub proof fn lemma_lex_refl(a: Seq<char>)
    ensures
        lex_leq(a, a),
    decreases a.len(),
{
    if a.len() > 0 {
        lemma_lex_refl(a.drop_first());
    }
}

/// The order is transitive.
pub proof fn lemma_lex_trans(a: Seq<char>, b: Seq<char>, c: Seq<char>)
    requires
        lex_leq(a, b),
        lex_leq(b, c),
    ensures
        lex_leq(a, c),
    decreases a.len(),
{
    if a.len() > 0 && b.len() > 0 && c.len() > 0 && (a[0] as u32) == (b[0] as u32) && (b[0] as u32)
        == (c[0] as u32) {
        lemma_lex_trans(a.drop_first(), b.drop_first(), c.drop_first());
    }
}

/// Sequences that agree on a prefix compare as their remainders do.
proof fn lemma_lex_skip(a: Seq<char>, b: Seq<char>, i: int)
    requires
        0 <= i <= a.len(),
        i <= b.len(),
        forall|k: int| 0 <= k < i ==> a[k] == b[k],
    ensures
        lex_leq(a, b) == lex_leq(a.skip(i), b.skip(i)),
    decreases i,
{
    if i > 0 {
        assert(a[0] == b[0]);
        assert(a.len() > 0 && b.len() > 0);
        assert(forall|k: int| 0 <= k < i - 1 ==> a.drop_first()[k] == b.drop_first()[k]);
        lemma_lex_skip(a.drop_first(), b.drop_first(), i - 1);
        assert(a.drop_first().skip(i - 1) =~= a.skip(i));
        assert(b.drop_first().skip(i - 1) =~= b.skip(i));
    } else {
        assert(a.skip(0) =~= a);
        assert(b.skip(0) =~= b);
    }
}

/// Compares two strings in lexicographic order.
pub fn str_lex_leq(a: &str, b: &str) -> (r: bool)
    ensures
        r == lex_leq(a@, b@),
{
    let n = a.unicode_len();
    let m = b.unicode_len();
    let mut i: usize = 0;
    loop
        invariant
            0 <= i <= n,
            i <= m,
            n == a@.len() <= usize::MAX,
            m == b@.len() <= usize::MAX,
            forall|k: int| 0 <= k < i ==> a@[k] == b@[k],
        decreases n - i,
    {
        proof {
            lemma_lex_skip(a@, b@, i as int);
        }
        if i >= n {
            assert(a@.skip(i as int).len() == 0);
            return true;
        }
        if i >= m {
            assert(b@.skip(i as int).len() == 0);
            assert(a@.skip(i as int).len() > 0);
            return false;
        }
        let ca = a.get_char(i);
        let cb = b.get_char(i);
        proof {
            assert(a@.skip(i as int)[0] == a@[i as int]);
            assert(b@.skip(i as int)[0] == b@[i as int]);
        }
        if (ca as u32) < (cb as u32) {
            return true;
        }
        if (ca as u32) > (cb as u32) {
            return false;
        }
        assert(ca == cb) by {
            assert(ca as u32 == cb as u32);
        }
        i += 1;
    }
}

/// A sequence of names in non-decreasing lexicographic order.
pub open spec fn sorted_lex(s: Seq<Seq<char>>) -> bool {
    forall|i: int, j: int| 0 <= i < j < s.len() ==> lex_leq(s[i], s[j])
}

/// Sorts names lexicographically; the result holds exactly the given names.
pub fn sort_names(names: Vec<String>) -> (r: Vec<String>)
    ensures
        sorted_lex(r.deep_view()),
        r.deep_view().to_multiset() == names.deep_view().to_multiset(),
{
    broadcast use vstd::seq_lib::group_to_multiset_ensures;
    broadcast use vstd::multiset::group_multiset_axioms;

    let ghost orig = names.deep_view();
    let mut rest = names;
    let mut out: Vec<String> = Vec::new();
    proof {
        assert(out.deep_view().to_multiset().add(rest.deep_view().to_multiset())
            =~= orig.to_multiset());
    }
    while rest.len() > 0
        invariant
            rest.deep_view().len() == rest.len(),
            out.deep_view().len() == out.len(),
            sorted_lex(out.deep_view()),
            out.deep_view().to_multiset().add(rest.deep_view().to_multiset())
                == orig.to_multiset(),
            forall|i: int, j: int|
                0 <= i < out.deep_view().len() && 0 <= j < rest.deep_view().len() ==> lex_leq(
                    out.deep_view()[i],
                    rest.deep_view()[j],
                ),
        decreases rest.len(),
    {
        // Find the least remaining name.
        proof {
            lemma_lex_refl(rest.deep_view()[0]);
        }
        let mut m: usize = 0;
        let mut k: usize = 1;
        while k < rest.len()
            invariant
                0 <= m < k <= rest.len(),
                rest.deep_view().len() == rest.len(),
                forall|j: int| 0 <= j < k ==> lex_leq(rest.deep_view()[m as int], rest.deep_view()[j]),
            decreases rest.len() - k,
        {
            if !str_lex_leq(rest[m].as_str(), rest[k].as_str()) {
                proof {
                    lemma_lex_total(rest.deep_view()[m as int], rest.deep_view()[k as int]);
                    assert forall|j: int| 0 <= j < k + 1 implies lex_leq(
                        rest.deep_view()[k as int],
                        rest.deep_view()[j],
                    ) by {
                        if j == k {
                            lemma_lex_refl(rest.deep_view()[k as int]);
                        } else {
                            lemma_lex_trans(
                                rest.deep_view()[k as int],
                                rest.deep_view()[m as int],
                                rest.deep_view()[j],
                            );
                        }
                    }
                }
                m = k;
            }
            k += 1;
        }
        let ghost pre_rest = rest.deep_view();
        let ghost pre_out = out.deep_view();
        let ghost x = pre_rest[m as int];
        let least = rest.remove(m);
        out.push(least);
        proof {
            assert(rest.deep_view() =~= pre_rest.remove(m as int));
            assert(out.deep_view() =~= pre_out.push(x));
            vstd::seq_lib::to_multiset_remove(pre_rest, m as int);
            vstd::seq_lib::to_multiset_build(pre_out, x);
            vstd::seq_lib::to_multiset_contains(pre_rest, x);
            assert(pre_rest.contains(x)) by {
                assert(pre_rest[m as int] == x);
            }
            assert(pre_rest.to_multiset().count(x) > 0);
            assert(out.deep_view().to_multiset().add(rest.deep_view().to_multiset())
                =~= pre_out.to_multiset().add(pre_rest.to_multiset()));
            assert forall|i: int, j: int|
                0 <= i < out.deep_view().len() && 0 <= j < rest.deep_view().len() implies lex_leq(
                out.deep_view()[i],
                rest.deep_view()[j],
            ) by {
                let rj: int = if j < m { j } else { j + 1 };
                assert(rest.deep_view()[j] == pre_rest[rj]);
                if i < pre_out.len() {
                    assert(lex_leq(pre_out[i], pre_rest[rj]));
                } else {
                    assert(out.deep_view()[i] == x);
                    assert(lex_leq(x, pre_rest[rj]));
                }
            }
            assert forall|i: int, j: int|
                0 <= i < j < out.deep_view().len() implies lex_leq(
                out.deep_view()[i],
                out.deep_view()[j],
            ) by {
                if j < pre_out.len() {
                    assert(lex_leq(pre_out[i], pre_out[j]));
                } else {
                    assert(out.deep_view()[j] == x);
                    assert(lex_leq(pre_out[i], pre_rest[m as int]));
                }
            }
        }
    }
    proof {
        assert(rest.deep_view().to_multiset() =~= Multiset::<Seq<char>>::empty());
        assert(out.deep_view().to_multiset().add(Multiset::empty())
            =~= out.deep_view().to_multiset());
    }
    out
}

} // verus!
