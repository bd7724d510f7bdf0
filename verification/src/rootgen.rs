//! The root build file: discovering chapter names, recovering the compile
//! targets from each chapter's generated build file, chaining them into one
//! root target per chapter, and aggregating `compile_all` and `clean`.

use vstd::prelude::*;
use vstd::string::*;
use crate::text::{
    contains_seq,
    contains_substring,
    starts_with_seq,
    starts_with_str,
    join_with,
    join_strings,
    no_newline,
    terminated,
};

verus! {

/// The index of the first occurrence of `c` in `s`, or `s.len()` when `c`
/// does not occur.
pub open spec fn first_idx_of(s: Seq<char>, c: char) -> int
    decreases s.len(),
{
    if s.len() == 0 {
        0
    } else if s[0] == c {
        0
    } else {
        1 + first_idx_of(s.drop_first(), c)
    }
}

pub proof fn lemma_first_idx_of(s: Seq<char>, c: char)
    ensures
        0 <= first_idx_of(s, c) <= s.len(),
        first_idx_of(s, c) < s.len() ==> s[first_idx_of(s, c)] == c,
        forall|k: int| 0 <= k < first_idx_of(s, c) ==> s[k] != c,
    decreases s.len(),
{
    if s.len() > 0 && s[0] != c {
        lemma_first_idx_of(s.drop_first(), c);
        assert forall|k: int| 0 <= k < first_idx_of(s, c) implies s[k] != c by {
            if k > 0 {
                assert(s.drop_first()[k - 1] == s[k]);
                assert(s.drop_first()[k - 1] != c);
            }
        }
    }
}

pub proof fn lemma_first_idx_is(s: Seq<char>, c: char, i: int)
    requires
        0 <= i <= s.len(),
        i < s.len() ==> s[i] == c,
        forall|k: int| 0 <= k < i ==> s[k] != c,
    ensures
        first_idx_of(s, c) == i,
    decreases s.len(),
{
    if s.len() > 0 && s[0] != c {
        assert(i > 0);
        lemma_first_idx_is(s.drop_first(), c, i - 1);
    }
}

/// A line with one trailing carriage return removed.
pub open spec fn strip_cr(l: Seq<char>) -> Seq<char> {
    if l.len() > 0 && l.last() == '\r' {
        l.drop_last()
    } else {
        l
    }
}

/// The lines of `s`: split at newlines, each terminated line with one
/// trailing carriage return removed, an unterminated final line kept whole,
/// and no empty final line for text ending in a newline.
pub open spec fn split_lines(s: Seq<char>) -> Seq<Seq<char>>
    decreases s.len(),
{
    if s.len() == 0 {
        Seq::empty()
    } else {
        let i = first_idx_of(s, '\n');
        if 0 <= i < s.len() {
            seq![strip_cr(s.subrange(0, i))] + split_lines(s.subrange(i + 1, s.len() as int))
        } else {
            seq![s]
        }
    }
}

/// Splits `s` into its lines.
pub fn split_into_lines(s: &str) -> (r: Vec<String>)
    ensures
        r.deep_view() == split_lines(s@),
{
    let n = s.unicode_len();
    let mut r: Vec<String> = Vec::new();
    let mut start: usize = 0;
    let mut i: usize = 0;
    proof {
        assert(s@.subrange(0, n as int) =~= s@);
        assert(Seq::<Seq<char>>::empty() + split_lines(s@) =~= split_lines(s@));
    }
    while i < n
        invariant
            0 <= start <= i <= n,
            n == s@.len() <= usize::MAX,
            forall|k: int| start <= k < i ==> s@[k] != '\n',
            split_lines(s@) == r.deep_view() + split_lines(s@.subrange(start as int, n as int)),
        decreases n - i,
    {
        if s.get_char(i) == '\n' {
            let line_end = if i > start && s.get_char(i - 1) == '\r' {
                i - 1
            } else {
                i
            };
            let line = String::from_str(s.substring_char(start, line_end));
            let ghost pre = r.deep_view();
            r.push(line);
            proof {
                let t = s@.subrange(start as int, n as int);
                assert(t.len() == n - start);
                assert(forall|k: int| 0 <= k < i - start ==> t[k] == s@[start + k]);
                lemma_first_idx_is(t, '\n', i - start);
                assert(t.subrange(0, i - start) =~= s@.subrange(start as int, i as int));
                assert(t.subrange(i - start + 1, t.len() as int) =~= s@.subrange(
                    i + 1,
                    n as int,
                ));
                assert(strip_cr(s@.subrange(start as int, i as int)) =~= s@.subrange(
                    start as int,
                    line_end as int,
                ));
                assert(split_lines(t) == seq![strip_cr(s@.subrange(start as int, i as int))]
                    + split_lines(s@.subrange(i + 1, n as int)));
                assert(r.deep_view() =~= pre.push(s@.subrange(start as int, line_end as int)));
                assert(r.deep_view() + split_lines(s@.subrange(i + 1, n as int)) =~= pre
                    + split_lines(t));
            }
            start = i + 1;
        }
        i += 1;
    }
    if start < n {
        let line = String::from_str(s.substring_char(start, n));
        let ghost pre = r.deep_view();
        r.push(line);
        proof {
            let t = s@.subrange(start as int, n as int);
            lemma_first_idx_is(t, '\n', t.len() as int);
            assert(split_lines(t) == seq![t]);
            assert(r.deep_view() =~= pre.push(t));
            assert(r.deep_view() =~= pre + split_lines(t));
        }
    } else {
        proof {
            assert(s@.subrange(start as int, n as int).len() == 0);
            assert(r.deep_view() + split_lines(s@.subrange(start as int, n as int))
                =~= r.deep_view());
        }
    }
    r
}

/// The part of a line before its first colon (the whole line when it has
/// none).
pub open spec fn upto_colon(l: Seq<char>) -> Seq<char> {
    l.subrange(0, first_idx_of(l, ':'))
}

/// The part of `l` before its first colon.
pub fn upto_colon_str(l: &str) -> (r: String)
    ensures
        r@ == upto_colon(l@),
{
    let n = l.unicode_len();
    let mut i: usize = 0;
    while i < n
        invariant
            0 <= i <= n,
            n == l@.len() <= usize::MAX,
            forall|k: int| 0 <= k < i ==> l@[k] != ':',
        decreases n - i,
    {
        if l.get_char(i) == ':' {
            proof {
                lemma_first_idx_is(l@, ':', i as int);
            }
            return String::from_str(l.substring_char(0, i));
        }
        i += 1;
    }
    proof {
        lemma_first_idx_is(l@, ':', n as int);
        assert(l@.subrange(0, n as int) =~= l@);
    }
    String::from_str(l)
}

/// The target names extracted from a list of lines: for each line starting
/// with `compile_`, the part before its first colon, in line order.
pub open spec fn spec_extract_targets(lines: Seq<Seq<char>>) -> Seq<Seq<char>>
    decreases lines.len(),
{
    if lines.len() == 0 {
        Seq::empty()
    } else {
        let rest = spec_extract_targets(lines.drop_last());
        if starts_with_seq(lines.last(), "compile_"@) {
            rest.push(upto_colon(lines.last()))
        } else {
            rest
        }
    }
}

/// The compile target names a chapter build file defines.
pub open spec fn spec_compile_targets(content: Seq<char>) -> Seq<Seq<char>> {
    spec_extract_targets(split_lines(content))
}

/// Recovers the compile target names from a chapter build file's text: one
/// per line starting with `compile_`, cut at the first colon.
pub fn extract_compile_targets(content: &str) -> (r: Vec<String>)
    ensures
        r.deep_view() == spec_compile_targets(content@),
{
    let lines = split_into_lines(content);
    let mut r: Vec<String> = Vec::new();
    let mut k: usize = 0;
    while k < lines.len()
        invariant
            k <= lines.len(),
            lines.deep_view().len() == lines.len(),
            r.deep_view() == spec_extract_targets(lines.deep_view().take(k as int)),
        decreases lines.len() - k,
    {
        let ghost dv = lines.deep_view();
        let ghost pre = r.deep_view();
        if starts_with_str(lines[k].as_str(), "compile_") {
            let name = upto_colon_str(lines[k].as_str());
            r.push(name);
            proof {
                assert(r.deep_view() =~= pre.push(upto_colon(dv[k as int])));
            }
        }
        proof {
            assert(dv.take(k + 1).drop_last() =~= dv.take(k as int));
            assert(dv.take(k + 1).last() == dv[k as int]);
        }
        k += 1;
    }
    proof {
        assert(lines.deep_view().take(lines.len() as int) =~= lines.deep_view());
    }
    r
}

/// One `make` invocation of a recovered target.
pub open spec fn make_invocation(t: Seq<char>) -> Seq<char> {
    "make "@ + t
}

/// The chained body of a root chapter target: the `make` invocations joined
/// so that every invocation but the last is followed by ` && \` and a
/// tab-indented continuation line; the last carries no trailing operator.
pub open spec fn spec_make_chain(targets: Seq<Seq<char>>) -> Seq<char> {
    join_with(targets.map_values(|t: Seq<char>| make_invocation(t)), " && \\\n\t"@)
}

/// A root target for one chapter: enter the chapter directory and run each
/// of its recovered targets in turn. A chapter without a recovered target
/// gets a bare `cd` line, with no trailing operator.
pub open spec fn spec_chapter_block(ch: Seq<char>, targets: Seq<Seq<char>>) -> Seq<char> {
    "compile_"@ + ch + ":\n\tcd "@ + ch + (if targets.len() == 0 {
        Seq::<char>::empty()
    } else {
        " && "@ + spec_make_chain(targets)
    }) + "\n\n"@
}

/// Renders the root target for one chapter from its recovered target names.
pub fn chapter_block(ch: &str, targets: &Vec<String>) -> (r: String)
    ensures
        r@ == spec_chapter_block(ch@, targets.deep_view()),
{
    let mut invocations: Vec<String> = Vec::new();
    let mut k: usize = 0;
    while k < targets.len()
        invariant
            k <= targets.len(),
            targets.deep_view().len() == targets.len(),
            invocations.deep_view() == targets.deep_view().take(k as int).map_values(
                |t: Seq<char>| make_invocation(t),
            ),
        decreases targets.len() - k,
    {
        let ghost dv = targets.deep_view();
        let ghost pre = invocations.deep_view();
        let mut inv = String::from_str("make ");
        inv.append(targets[k].as_str());
        invocations.push(inv);
        proof {
            assert(invocations.deep_view() =~= pre.push(make_invocation(dv[k as int])));
            assert(dv.take(k + 1).map_values(|t: Seq<char>| make_invocation(t)) =~= dv.take(
                k as int,
            ).map_values(|t: Seq<char>| make_invocation(t)).push(make_invocation(dv[k as int])));
        }
        k += 1;
    }
    proof {
        assert(targets.deep_view().take(targets.len() as int) =~= targets.deep_view());
    }
    let mut r = String::from_str("compile_");
    r.append(ch);
    r.append(":\n\tcd ");
    r.append(ch);
    if targets.len() > 0 {
        r.append(" && ");
        let chain = join_strings(&invocations, " && \\\n\t");
        r.append(chain.as_str());
    }
    r.append("\n\n");
    proof {
        assert(r@ =~= spec_chapter_block(ch@, targets.deep_view()));
    }
    r
}

/// The fixed `clean` target appended to the root build file.
pub open spec fn spec_clean_target() -> Seq<char> {
    "clean: \n\tfind ./*/ -type f -executable -exec rm {} \\;\n\trm -f ./*/*.o && rm -f ./*/exercises/*.o"@
}

/// The fixed `clean` target's text.
pub fn clean_target() -> (r: &'static str)
    ensures
        r@ == spec_clean_target(),
{
    "clean: \n\tfind ./*/ -type f -executable -exec rm {} \\;\n\trm -f ./*/*.o && rm -f ./*/exercises/*.o"
}

/// Whether a top-level directory name counts as a chapter.
pub fn is_chapter_name(name: &str) -> (b: bool)
    ensures
        b == contains_seq(name@, "ch"@),
{
    contains_substring(name, "ch")
}

/// A discovered chapter: its directory name, and the text of its build file
/// when one exists on disk.
pub struct ChapterSource {
    pub name: String,
    pub makefile: Option<String>,
}

/// The mathematical value of a `ChapterSource`.
#[verifier::ext_equal]
pub ghost struct ChapterSourceV {
    pub name: Seq<char>,
    pub makefile: Option<Seq<char>>,
}

impl View for ChapterSource {
    type V = ChapterSourceV;

    open spec fn view(&self) -> ChapterSourceV {
        ChapterSourceV {
            name: self.name@,
            makefile: match self.makefile {
                Option::None => None,
                Option::Some(m) => Some(m@),
            },
        }
    }
}

impl DeepView for ChapterSource {
    type V = ChapterSourceV;

    open spec fn deep_view(&self) -> ChapterSourceV {
        self@
    }
}

/// The root targets of all chapters that have a build file, in list order;
/// a chapter without one contributes nothing.
pub open spec fn spec_root_blocks(chs: Seq<ChapterSourceV>) -> Seq<char>
    decreases chs.len(),
{
    if chs.len() == 0 {
        Seq::empty()
    } else {
        spec_root_blocks(chs.drop_last()) + match chs.last().makefile {
            Option::None => Seq::<char>::empty(),
            Option::Some(c) => spec_chapter_block(chs.last().name, spec_compile_targets(c)),
        }
    }
}

/// The root target names `compile_all` depends on: exactly the chapters
/// that have a build file, in list order.
pub open spec fn spec_compile_all_names(chs: Seq<ChapterSourceV>) -> Seq<Seq<char>>
    decreases chs.len(),
{
    if chs.len() == 0 {
        Seq::empty()
    } else {
        spec_compile_all_names(chs.drop_last()) + match chs.last().makefile {
            Option::None => Seq::<Seq<char>>::empty(),
            Option::Some(c) => seq!["compile_"@ + chs.last().name],
        }
    }
}

/// The whole root build file: the per-chapter targets, the `compile_all`
/// line naming every chapter target space-joined, and the `clean` target.
pub open spec fn spec_root_makefile(chs: Seq<ChapterSourceV>) -> Seq<char> {
    spec_root_blocks(chs) + "compile_all: "@ + join_with(spec_compile_all_names(chs), " "@)
        + "\n\n"@ + spec_clean_target()
}

/// Renders the root build file from the discovered chapters. The caller
/// passes the chapters in the order the root file should list them
/// (sorted, for the generator).
pub fn root_makefile(chapters: &Vec<ChapterSource>) -> (r: String)
    ensures
        r@ == spec_root_makefile(chapters.deep_view()),
{
    let mut blocks = String::new();
    let mut names: Vec<String> = Vec::new();
    let mut k: usize = 0;
    while k < chapters.len()
        invariant
            k <= chapters.len(),
            chapters.deep_view().len() == chapters.len(),
            blocks@ == spec_root_blocks(chapters.deep_view().take(k as int)),
            names.deep_view() == spec_compile_all_names(chapters.deep_view().take(k as int)),
        decreases chapters.len() - k,
    {
        let ghost dv = chapters.deep_view();
        let ghost pre_blocks = blocks@;
        let ghost pre_names = names.deep_view();
        match &chapters[k].makefile {
            Option::None => {
                proof {
                    assert(blocks@ =~= pre_blocks + Seq::<char>::empty());
                }
            },
            Option::Some(content) => {
                let targets = extract_compile_targets(content.as_str());
                let block = chapter_block(chapters[k].name.as_str(), &targets);
                blocks.append(block.as_str());
                let mut full = String::from_str("compile_");
                full.append(chapters[k].name.as_str());
                names.push(full);
                proof {
                    assert(names.deep_view() =~= pre_names.push("compile_"@ + dv[k as int].name));
                }
            },
        }
        proof {
            assert(dv.take(k + 1).drop_last() =~= dv.take(k as int));
            assert(dv.take(k + 1).last() == dv[k as int]);
            assert(names.deep_view() =~= spec_compile_all_names(dv.take(k + 1)));
        }
        k += 1;
    }
    proof {
        assert(chapters.deep_view().take(chapters.len() as int) =~= chapters.deep_view());
    }
    let mut r = blocks;
    r.append("compile_all: ");
    let joined = join_strings(&names, " ");
    r.append(joined.as_str());
    r.append("\n\n");
    r.append(clean_target());
    proof {
        assert(r@ =~= spec_root_makefile(chapters.deep_view()));
    }
    r
}


/// Each line with one trailing carriage return removed.
pub open spec fn stripped(ls: Seq<Seq<char>>) -> Seq<Seq<char>> {
    ls.map_values(|l: Seq<char>| strip_cr(l))
}

/// Splitting distributes over concatenation at a newline boundary.
pub proof fn lemma_split_append(s1: Seq<char>, s2: Seq<char>)
    requires
        s1.len() > 0,
        s1.last() == '\n',
    ensures
        split_lines(s1 + s2) == split_lines(s1) + split_lines(s2),
    decreases s1.len(),
{
    let s = s1 + s2;
    let i = first_idx_of(s, '\n');
    let i1 = first_idx_of(s1, '\n');
    lemma_first_idx_of(s1, '\n');
    assert(i1 < s1.len()) by {
        if i1 == s1.len() {
            assert(s1[s1.len() - 1] != '\n');
        }
    }
    lemma_first_idx_is(s, '\n', i1);
    assert(s.subrange(0, i1) =~= s1.subrange(0, i1));
    assert(s.subrange(i1 + 1, s.len() as int) =~= s1.subrange(i1 + 1, s1.len() as int) + s2);
    if i1 == s1.len() - 1 {
        assert(s1.subrange(i1 + 1, s1.len() as int).len() == 0);
        assert(s1.subrange(i1 + 1, s1.len() as int) + s2 =~= s2);
        assert(split_lines(s1) == seq![strip_cr(s1.subrange(0, i1))] + split_lines(
            s1.subrange(i1 + 1, s1.len() as int),
        ));
        assert(split_lines(s1) =~= seq![strip_cr(s1.subrange(0, i1))]);
        assert(split_lines(s) =~= split_lines(s1) + split_lines(s2));
    } else {
        let r1 = s1.subrange(i1 + 1, s1.len() as int);
        assert(r1.len() > 0 && r1.last() == '\n');
        lemma_split_append(r1, s2);
        assert(split_lines(s) =~= split_lines(s1) + split_lines(s2));
    }
}

/// Splitting one newline-terminated, newline-free line off the front.
pub proof fn lemma_split_cons(l: Seq<char>, rest: Seq<char>)
    requires
        no_newline(l),
    ensures
        split_lines((l + "\n"@) + rest) == seq![strip_cr(l)] + split_lines(rest),
{
    reveal_strlit("\n");
    let s = (l + "\n"@) + rest;
    assert(s.len() > 0);
    lemma_first_idx_is(s, '\n', l.len() as int);
    assert(s.subrange(0, l.len() as int) =~= l);
    assert(s.subrange(l.len() as int + 1, s.len() as int) =~= rest);
    assert(split_lines(s) =~= seq![strip_cr(l)] + split_lines(rest));
}

/// A non-empty newline-free text is one line.
pub proof fn lemma_split_single(l: Seq<char>)
    requires
        no_newline(l),
        l.len() > 0,
    ensures
        split_lines(l) == seq![l],
{
    lemma_first_idx_is(l, '\n', l.len() as int);
}

/// Splitting a block of newline-free lines recovers them, stripped.
pub proof fn lemma_split_terminated(ls: Seq<Seq<char>>, rest: Seq<char>)
    requires
        forall|i: int| 0 <= i < ls.len() ==> no_newline(#[trigger] ls[i]),
    ensures
        split_lines(terminated(ls) + rest) == stripped(ls) + split_lines(rest),
    decreases ls.len(),
{
    if ls.len() == 0 {
        assert(terminated(ls) + rest =~= rest);
        assert(stripped(ls) + split_lines(rest) =~= split_lines(rest));
    } else {
        assert(terminated(ls) + rest =~= (ls.first() + "\n"@) + (terminated(ls.drop_first())
            + rest));
        lemma_split_cons(ls.first(), terminated(ls.drop_first()) + rest);
        lemma_split_terminated(ls.drop_first(), rest);
        assert(stripped(ls.drop_first()) =~= stripped(ls).drop_first());
        assert(split_lines(terminated(ls) + rest) =~= stripped(ls) + split_lines(rest));
    }
}

/// Extraction distributes over concatenation of line lists.
pub proof fn lemma_extract_append(a: Seq<Seq<char>>, b: Seq<Seq<char>>)
    ensures
        spec_extract_targets(a + b) == spec_extract_targets(a) + spec_extract_targets(b),
    decreases b.len(),
{
    if b.len() == 0 {
        assert(a + b =~= a);
        assert(spec_extract_targets(a) + spec_extract_targets(b) =~= spec_extract_targets(a));
    } else {
        assert((a + b).drop_last() =~= a + b.drop_last());
        assert((a + b).last() == b.last());
        lemma_extract_append(a, b.drop_last());
        assert(spec_extract_targets(a + b) =~= spec_extract_targets(a) + spec_extract_targets(
            b,
        ));
    }
}

/// Lines of which none starts with the target prefix yield no target.
pub proof fn lemma_extract_none(ls: Seq<Seq<char>>)
    requires
        forall|i: int|
            0 <= i < ls.len() ==> !starts_with_seq(#[trigger] ls[i], "compile_"@),
    ensures
        spec_extract_targets(ls) == Seq::<Seq<char>>::empty(),
    decreases ls.len(),
{
    if ls.len() > 0 {
        lemma_extract_none(ls.drop_last());
    }
}

} // verus!
