//! Character-level text primitives: substring occurrence, prefix tests,
//! and joining a list of strings with a separator. Everything is specified
//! over `Seq<char>` views.

use vstd::prelude::*;
use vstd::string::*;

verus! {

/// The pattern `pat` occurs in `s` at character position `i`.
pub open spec fn occurs_at(s: Seq<char>, pat: Seq<char>, i: int) -> bool {
    0 <= i && i + pat.len() <= s.len() && s.subrange(i, i + pat.len() as int) == pat
}

/// The pattern `pat` occurs somewhere in `s`.
pub open spec fn contains_seq(s: Seq<char>, pat: Seq<char>) -> bool {
    exists|i: int| occurs_at(s, pat, i)
}

/// `p` is a prefix of `s`.
pub open spec fn starts_with_seq(s: Seq<char>, p: Seq<char>) -> bool {
    p.len() <= s.len() && s.subrange(0, p.len() as int) == p
}

fn match_at(s: &str, pat: &str, i: usize) -> (b: bool)
    requires
        i + pat@.len() <= s@.len(),
        s@.len() <= usize::MAX,
    ensures
        b == occurs_at(s@, pat@, i as int),
{
    let m = pat.unicode_len();
    let mut j: usize = 0;
    while j < m
        invariant
            j <= m,
            m == pat@.len(),
            i + m <= s@.len() <= usize::MAX,
            forall|k: int| 0 <= k < j ==> s@[i + k] == pat@[k],
        decreases m - j,
    {
        if s.get_char(i + j) != pat.get_char(j) {
            assert(!occurs_at(s@, pat@, i as int)) by {
                if s@.subrange(i as int, i + m) == pat@ {
                    assert(s@.subrange(i as int, i + m)[j as int] == s@[i + j]);
                }
            }
            return false;
        }
        j += 1;
    }
    assert(s@.subrange(i as int, i + m) =~= pat@);
    true
}

/// Whether `s` contains `pat` as a contiguous run of characters.
pub fn contains_substring(s: &str, pat: &str) -> (b: bool)
    ensures
        b == contains_seq(s@, pat@),
{
    let n = s.unicode_len();
    let m = pat.unicode_len();
    if m > n {
        assert(forall|i: int| !occurs_at(s@, pat@, i));
        return false;
    }
    let mut i: usize = 0;
    loop
        invariant
            0 <= i <= n - m + 1,
            n == s@.len() <= usize::MAX,
            m == pat@.len() <= n,
            forall|k: int| 0 <= k < i ==> !occurs_at(s@, pat@, k),
        decreases n - m - i + 1,
    {
        if i > n - m {
            assert(forall|k: int| !occurs_at(s@, pat@, k));
            return false;
        }
        if match_at(s, pat, i) {
            return true;
        }
        proof {
            // An empty pattern occurs everywhere, so here the pattern is
            // non-empty and the increment stays within bounds.
            if pat@.len() == 0 {
                assert(s@.subrange(i as int, i as int) =~= pat@);
                assert(occurs_at(s@, pat@, i as int));
            }
        }
        i += 1;
    }
}

/// Whether `p` is a prefix of `s`.
pub fn starts_with_str(s: &str, p: &str) -> (b: bool)
    ensures
        b == starts_with_seq(s@, p@),
{
    let n = s.unicode_len();
    let m = p.unicode_len();
    if m > n {
        return false;
    }
    let b = match_at(s, p, 0);
    assert(occurs_at(s@, p@, 0) == starts_with_seq(s@, p@));
    b
}

/// Whether two strings hold the same characters.
pub fn str_eq(a: &str, b: &str) -> (r: bool)
    ensures
        r == (a@ == b@),
{
    let n = a.unicode_len();
    let m = b.unicode_len();
    if n != m {
        return false;
    }
    let r = match_at(a, b, 0);
    proof {
        if r {
            assert(a@.subrange(0, m as int) =~= a@);
        } else {
            if a@ == b@ {
                assert(a@.subrange(0, m as int) =~= b@);
            }
        }
    }
    r
}

/// The parts joined with `sep` between consecutive parts.
pub open spec fn join_with(parts: Seq<Seq<char>>, sep: Seq<char>) -> Seq<char>
    decreases parts.len(),
{
    if parts.len() == 0 {
        Seq::empty()
    } else if parts.len() == 1 {
        parts[0]
    } else {
        join_with(parts.drop_last(), sep) + sep + parts.last()
    }
}

pub proof fn lemma_join_push(parts: Seq<Seq<char>>, sep: Seq<char>, x: Seq<char>)
    ensures
        join_with(parts.push(x), sep) == if parts.len() == 0 {
            x
        } else {
            join_with(parts, sep) + sep + x
        },
{
    assert(parts.push(x).drop_last() =~= parts);
    assert(parts.push(x).last() == x);
    if parts.len() == 0 {
        assert(join_with(parts.push(x), sep) == parts.push(x)[0]);
    }
}

/// Joins the strings in `parts` with the separator `sep`.
pub fn join_strings(parts: &Vec<String>, sep: &str) -> (r: String)
    ensures
        r@ == join_with(parts.deep_view(), sep@),
{
    let mut r = String::new();
    let mut k: usize = 0;
    while k < parts.len()
        invariant
            k <= parts.len(),
            parts.deep_view().len() == parts.len(),
            r@ == join_with(parts.deep_view().take(k as int), sep@),
        decreases parts.len() - k,
    {
        if k > 0 {
            r.append(sep);
        }
        r.append(parts[k].as_str());
        proof {
            let dv = parts.deep_view();
            assert(dv.take(k + 1).drop_last() =~= dv.take(k as int));
            assert(dv.take(k + 1).last() == dv[k as int]);
            lemma_join_push(dv.take(k as int), sep@, dv[k as int]);
            assert(dv.take(k + 1) == dv.take(k as int).push(dv[k as int])) by {
                assert(dv.take(k + 1) =~= dv.take(k as int).push(dv[k as int]));
            }
        }
        k += 1;
    }
    assert(parts.deep_view().take(parts.len() as int) =~= parts.deep_view());
    r
}


/// The lines each followed by a newline, concatenated.
pub open spec fn terminated(lines: Seq<Seq<char>>) -> Seq<char>
    decreases lines.len(),
{
    if lines.len() == 0 {
        Seq::empty()
    } else {
        (lines.first() + "\n"@) + terminated(lines.drop_first())
    }
}

pub proof fn lemma_terminated_append(a: Seq<Seq<char>>, b: Seq<Seq<char>>)
    ensures
        terminated(a + b) == terminated(a) + terminated(b),
    decreases a.len(),
{
    if a.len() == 0 {
        assert(a + b =~= b);
        assert(terminated(a) + terminated(b) =~= terminated(b));
    } else {
        assert((a + b).drop_first() =~= a.drop_first() + b);
        assert((a + b).first() == a.first());
        lemma_terminated_append(a.drop_first(), b);
        assert(terminated(a + b) =~= terminated(a) + terminated(b));
    }
}

pub proof fn lemma_terminated_singleton(l: Seq<char>)
    ensures
        terminated(seq![l]) == l + "\n"@,
{
    assert(seq![l].drop_first() =~= Seq::<Seq<char>>::empty());
    assert(seq![l].first() == l);
    assert(terminated(seq![l]) == (l + "\n"@) + terminated(Seq::<Seq<char>>::empty()));
    assert((l + "\n"@) + Seq::<char>::empty() =~= l + "\n"@);
}


/// `s` holds no newline character.
pub open spec fn no_newline(s: Seq<char>) -> bool {
    forall|k: int| 0 <= k < s.len() ==> s[k] != '\n'
}

/// Unfolds a join at the front.
pub proof fn lemma_join_first(parts: Seq<Seq<char>>, sep: Seq<char>)
    requires
        parts.len() >= 2,
    ensures
        join_with(parts, sep) == parts.first() + sep + join_with(parts.drop_first(), sep),
    decreases parts.len(),
{
    if parts.len() == 2 {
        assert(parts.drop_last().first() == parts.first());
        assert(parts.drop_last() =~= seq![parts.first()]);
        assert(join_with(parts.drop_last(), sep) == parts.first());
        assert(parts.drop_first() =~= seq![parts.last()]);
        assert(join_with(parts.drop_first(), sep) == parts.last());
    } else {
        let dl = parts.drop_last();
        lemma_join_first(dl, sep);
        assert(dl.first() == parts.first());
        assert(dl.drop_first() =~= parts.drop_first().drop_last());
        assert(parts.drop_first().len() >= 2);
        assert(parts.drop_first().last() == parts.last());
        assert(join_with(parts, sep) == join_with(dl, sep) + sep + parts.last());
        assert(join_with(parts.drop_first(), sep) == join_with(parts.drop_first().drop_last(), sep)
            + sep + parts.last());
        assert(join_with(parts, sep) =~= parts.first() + sep + join_with(
            parts.drop_first(),
            sep,
        ));
    }
}

/// Joining newline-free parts with a newline-free separator yields a
/// newline-free text.
pub proof fn lemma_join_no_newline(parts: Seq<Seq<char>>, sep: Seq<char>)
    requires
        forall|i: int| 0 <= i < parts.len() ==> no_newline(#[trigger] parts[i]),
        no_newline(sep),
    ensures
        no_newline(join_with(parts, sep)),
    decreases parts.len(),
{
    if parts.len() > 1 {
        lemma_join_no_newline(parts.drop_last(), sep);
    }
}

/// A newline-joined list followed by one newline is the list of
/// newline-terminated lines.
pub proof fn lemma_join_newline_terminated(ls: Seq<Seq<char>>)
    requires
        ls.len() > 0,
    ensures
        join_with(ls, "\n"@) + "\n"@ == terminated(ls),
    decreases ls.len(),
{
    if ls.len() == 1 {
        lemma_terminated_singleton(ls[0]);
        assert(ls =~= seq![ls[0]]);
        assert(join_with(ls, "\n"@) == ls[0]);
    } else {
        lemma_join_first(ls, "\n"@);
        lemma_join_newline_terminated(ls.drop_first());
        assert(join_with(ls, "\n"@) + "\n"@ =~= (ls.first() + "\n"@) + (join_with(
            ls.drop_first(),
            "\n"@,
        ) + "\n"@));
    }
}

} // verus!
