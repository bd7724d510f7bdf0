//! Classifies a directory entry into a language bucket from its name, its
//! directory status, and (for Zig entries) its text content.

use vstd::prelude::*;
use vstd::string::*;
use crate::text::{contains_seq, contains_substring};

verus! {

/// The language bucket an entry falls into.
#[derive(Clone, Copy, PartialEq, Eq, Structural, Debug)]
pub enum Category {
    C,
    Cpp,
    Rust,
    ZigBin,
    ZigTest,
    ZigProj,
}

/// File names containing this marker are reserved for sources built as
/// separately linked libraries; they are excluded from every bucket.
pub open spec fn excluded_marker() -> Seq<char> {
    seq!['e', 'x', 't', 'e', 'r', 'n']
}

/// Builds the marker as a `String` (its view is `excluded_marker()`).
pub fn excluded_marker_string() -> (r: String)
    ensures
        r@ == excluded_marker(),
{
    let r = String::from_str("ext").concat("ern");
    proof {
        reveal_strlit("ext");
        reveal_strlit("ern");
        assert(r@ =~= excluded_marker());
    }
    r
}

/// The character index just after the last `'.'` in `name`, or `0` when
/// `name` holds no `'.'`.
pub open spec fn after_last_dot(name: Seq<char>) -> int
    decreases name.len(),
{
    if name.len() == 0 {
        0
    } else if name.last() == '.' {
        name.len() as int
    } else {
        after_last_dot(name.drop_last())
    }
}

/// The extension of a file name: the part after the last `'.'`, or `None`
/// when there is no `'.'` or the only relevant `'.'` leads the name.
pub open spec fn spec_extension_of(name: Seq<char>) -> Option<Seq<char>> {
    let i = after_last_dot(name);
    if i <= 1 {
        None
    } else {
        Some(name.subrange(i, name.len() as int))
    }
}

proof fn lemma_after_last_dot_range(name: Seq<char>)
    ensures
        0 <= after_last_dot(name) <= name.len(),
        after_last_dot(name) > 0 ==> name[after_last_dot(name) - 1] == '.',
        forall|k: int| after_last_dot(name) <= k < name.len() ==> name[k] != '.',
    decreases name.len(),
{
    if name.len() > 0 && name.last() != '.' {
        lemma_after_last_dot_range(name.drop_last());
        assert(forall|k: int| 0 <= k < name.len() - 1 ==> name.drop_last()[k] == name[k]);
    }
}

/// The extension of `name`, as `spec_extension_of` gives it.
pub fn extension_of(name: &str) -> (r: Option<String>)
    ensures
        r matches Some(e) ==> spec_extension_of(name@) == Some(e@),
        r is None ==> spec_extension_of(name@) is None,
{
    let n = name.unicode_len();
    let mut j: usize = n;
    // Scan backwards for the last '.'.
    while j > 0
        invariant
            0 <= j <= n,
            n == name@.len() <= usize::MAX,
            forall|k: int| j <= k < n ==> name@[k] != '.',
        decreases j,
    {
        if name.get_char(j - 1) == '.' {
            proof {
                lemma_after_last_dot_is(name@, j as int);
            }
            if j <= 1 {
                return None;
            }
            let e = String::from_str(name.substring_char(j, n));
            return Some(e);
        }
        j -= 1;
    }
    proof {
        lemma_after_last_dot_is(name@, 0);
    }
    None
}

proof fn lemma_after_last_dot_is(name: Seq<char>, i: int)
    requires
        0 <= i <= name.len(),
        i > 0 ==> name[i - 1] == '.',
        forall|k: int| i <= k < name.len() ==> name[k] != '.',
    ensures
        after_last_dot(name) == i,
    decreases name.len(),
{
    if name.len() > 0 && name.last() != '.' {
        assert(i < name.len());
        lemma_after_last_dot_is(name.drop_last(), i);
    }
}

/// A name without any dot has no extension.
pub proof fn lemma_no_dot_no_extension(name: Seq<char>)
    requires
        forall|k: int| 0 <= k < name.len() ==> name[k] != '.',
    ensures
        spec_extension_of(name) is None,
{
    lemma_after_last_dot_is(name, 0);
}

/// The classification rule: marker-named entries are excluded; `.c`, `.cpp`
/// and `.rs` go by extension alone; `.zig` entries are projects when they
/// are directories, binaries when their text mentions the entry point name,
/// and tests otherwise. Everything else is skipped.
pub open spec fn spec_classify(name: Seq<char>, is_dir: bool, content: Seq<char>) -> Option<
    Category,
> {
    if contains_seq(name, excluded_marker()) {
        None
    } else {
        match spec_extension_of(name) {
            Option::None => None,
            Option::Some(e) => if e == "c"@ {
                Some(Category::C)
            } else if e == "cpp"@ {
                Some(Category::Cpp)
            } else if e == "rs"@ {
                Some(Category::Rust)
            } else if e == "zig"@ {
                Some(spec_zig_category(is_dir, content))
            } else {
                None
            },
        }
    }
}

/// How a `.zig` entry splits: directory, binary, or test.
pub open spec fn spec_zig_category(is_dir: bool, content: Seq<char>) -> Category {
    if is_dir {
        Category::ZigProj
    } else if contains_seq(content, "main"@) {
        Category::ZigBin
    } else {
        Category::ZigTest
    }
}

/// Classifies one directory entry. `content` is only consulted for `.zig`
/// files; callers may pass an empty string otherwise.
pub fn classify(name: &str, is_dir: bool, content: &str) -> (r: Option<Category>)
    ensures
        r == spec_classify(name@, is_dir, content@),
{
    let marker = excluded_marker_string();
    if contains_substring(name, marker.as_str()) {
        return None;
    }
    match extension_of(name) {
        Option::None => None,
        Option::Some(e) => {
            if crate::text::str_eq(e.as_str(), "c") {
                Some(Category::C)
            } else if crate::text::str_eq(e.as_str(), "cpp") {
                Some(Category::Cpp)
            } else if crate::text::str_eq(e.as_str(), "rs") {
                Some(Category::Rust)
            } else if crate::text::str_eq(e.as_str(), "zig") {
                Some(zig_category(is_dir, content))
            } else {
                None
            }
        },
    }
}

/// Splits a `.zig` entry into project, binary, or test.
pub fn zig_category(is_dir: bool, content: &str) -> (r: Category)
    ensures
        r == spec_zig_category(is_dir, content@),
{
    if is_dir {
        Category::ZigProj
    } else if contains_substring(content, "main") {
        Category::ZigBin
    } else {
        Category::ZigTest
    }
}

/// Whether classification will need the entry's text content: only `.zig`
/// plain files that are not marker-excluded are ever read.
pub fn entry_needs_content(name: &str, is_dir: bool) -> (b: bool)
    ensures
        b == (!contains_seq(name@, excluded_marker()) && spec_extension_of(name@) == Some("zig"@)
            && !is_dir),
{
    if is_dir {
        return false;
    }
    let marker = excluded_marker_string();
    if contains_substring(name, marker.as_str()) {
        return false;
    }
    match extension_of(name) {
        Option::None => false,
        Option::Some(e) => crate::text::str_eq(e.as_str(), "zig"),
    }
}

} // verus!
