//! The library-wide laws: statements that relate several functions, proved
//! once and for all inputs.

use vstd::prelude::*;
use crate::text::lemma_join_first;
use crate::text::{
    contains_seq,
    join_with,
    terminated,
    lemma_terminated_append,
    lemma_terminated_singleton,
    no_newline,
    starts_with_seq,
};
use crate::classify::{excluded_marker, spec_extension_of, spec_classify};
use crate::chapter::{
    MakeVarV,
    ZigType,
    zig_files,
    maybe_bucket_line,
    bucket_line,
    var_line_text,
    bucket_segment,
    var_line_list,
    spec_var_block,
    spec_add_entry,
};
use crate::rootgen::{
    spec_chapter_block,
    spec_make_chain,
    make_invocation,
    ChapterSourceV,
    spec_compile_all_names,
    split_lines,
    strip_cr,
    stripped,
    upto_colon,
    lemma_first_idx_is,
    spec_extract_targets,
    spec_compile_targets,
    lemma_split_append,
    lemma_split_cons,
    lemma_split_single,
    lemma_split_terminated,
    lemma_extract_append,
    lemma_extract_none,
};
use crate::chapter::{CommandV, command_text, command_texts, spec_commands, spec_command_names, names_newline_free, spec_chapter_makefile, spec_compiler_vars};

verus! {

/// Classification is a function of the extension, the directory status,
/// and the content alone: two names with the same extension, neither
/// holding the exclusion marker, classify alike whatever else their names
/// hold.
pub proof fn lemma_classification_by_extension(
    n1: Seq<char>,
    n2: Seq<char>,
    is_dir: bool,
    content: Seq<char>,
)
    requires
        !contains_seq(n1, excluded_marker()),
        !contains_seq(n2, excluded_marker()),
        spec_extension_of(n1) == spec_extension_of(n2),
    ensures
        spec_classify(n1, is_dir, content) == spec_classify(n2, is_dir, content),
{
}

/// A name holding the exclusion marker classifies to nothing and extends
/// no bucket, whatever its extension, directory status, or content.
pub proof fn lemma_marker_excluded(m: MakeVarV, name: Seq<char>, is_dir: bool, content: Seq<char>)
    requires
        contains_seq(name, excluded_marker()),
    ensures
        spec_classify(name, is_dir, content) is None,
        spec_add_entry(m, name, is_dir, content) == m,
{
}

/// A bucket's contribution is its segment's lines, each newline-terminated.
proof fn lemma_maybe_line_terminated(name: Seq<char>, files: Seq<Seq<char>>)
    ensures
        maybe_bucket_line(name, files) == terminated(bucket_segment(name, files)),
{
    if files.len() == 0 {
        assert(terminated(bucket_segment(name, files)) =~= maybe_bucket_line(name, files));
    } else {
        lemma_terminated_singleton(var_line_text(name, files));
        assert(bucket_line(name, files) == var_line_text(name, files) + "\n"@);
    }
}

/// Variable emission is monotonic: the variable block is exactly the
/// emitted lines, newline-terminated, and a bucket emits exactly one line
/// when it holds at least one file and none when it is empty.
pub proof fn lemma_variable_emission_monotonic(m: MakeVarV)
    ensures
        spec_var_block(m) == terminated(var_line_list(m)),
        var_line_list(m).len() == (if m.c.len() > 0 {
            1int
        } else {
            0
        }) + (if m.cpp.len() > 0 {
            1int
        } else {
            0
        }) + (if m.rs.len() > 0 {
            1int
        } else {
            0
        }) + (if zig_files(m.zig, ZigType::Bin).len() > 0 {
            1int
        } else {
            0
        }) + (if zig_files(m.zig, ZigType::Test).len() > 0 {
            1int
        } else {
            0
        }) + (if zig_files(m.zig, ZigType::Proj).len() > 0 {
            1int
        } else {
            0
        }),
{
    let s1 = bucket_segment("C_FILES"@, m.c);
    let s2 = bucket_segment("CPP_FILES"@, m.cpp);
    let s3 = bucket_segment("RS_FILES"@, m.rs);
    let s4 = bucket_segment("ZIG_EXE_FILES"@, zig_files(m.zig, ZigType::Bin));
    let s5 = bucket_segment("ZIG_TEST_FILES"@, zig_files(m.zig, ZigType::Test));
    let s6 = bucket_segment("ZIG_PROJ_FILES"@, zig_files(m.zig, ZigType::Proj));
    lemma_maybe_line_terminated("C_FILES"@, m.c);
    lemma_maybe_line_terminated("CPP_FILES"@, m.cpp);
    lemma_maybe_line_terminated("RS_FILES"@, m.rs);
    lemma_maybe_line_terminated("ZIG_EXE_FILES"@, zig_files(m.zig, ZigType::Bin));
    lemma_maybe_line_terminated("ZIG_TEST_FILES"@, zig_files(m.zig, ZigType::Test));
    lemma_maybe_line_terminated("ZIG_PROJ_FILES"@, zig_files(m.zig, ZigType::Proj));
    lemma_terminated_append(s1, s2);
    lemma_terminated_append(s1 + s2, s3);
    lemma_terminated_append(s1 + s2 + s3, s4);
    lemma_terminated_append(s1 + s2 + s3 + s4, s5);
    lemma_terminated_append(s1 + s2 + s3 + s4 + s5, s6);
    assert(spec_var_block(m) == terminated(var_line_list(m)));
}

/// Root target chaining never leaves a dangling operator: with at least
/// one target, the chapter's root target ends with the bare `make`
/// invocation of the last target, followed only by the blank line that
/// closes the block; with none, it ends with the bare `cd` line and no
/// operator at all.
pub proof fn lemma_no_dangling_operator(ch: Seq<char>, targets: Seq<Seq<char>>)
    ensures
        targets.len() > 0 ==> ({
            let block = spec_chapter_block(ch, targets);
            let tail = make_invocation(targets.last()) + "\n\n"@;
            block.len() >= tail.len() && block.skip(block.len() - tail.len()) == tail
        }),
        targets.len() == 0 ==> spec_chapter_block(ch, targets) == "compile_"@ + ch + ":\n\tcd "@
            + ch + "\n\n"@,
{
    let invs = targets.map_values(|t: Seq<char>| make_invocation(t));
    let chain = spec_make_chain(targets);
    assert(invs.len() == targets.len());
    let block = spec_chapter_block(ch, targets);
    if invs.len() == 0 {
        assert(block =~= "compile_"@ + ch + ":\n\tcd "@ + ch + "\n\n"@);
    } else {
        assert(invs.last() == make_invocation(targets.last()));
        let tail = make_invocation(targets.last()) + "\n\n"@;
        if invs.len() == 1 {
            assert(chain == invs[0]);
            assert(block.skip(block.len() - tail.len()) =~= tail);
        } else {
            assert(chain == join_with(invs.drop_last(), " && \\\n\t"@) + " && \\\n\t"@
                + invs.last());
            assert(block.skip(block.len() - tail.len()) =~= tail);
        }
    }
}

/// `compile_all` depends on exactly the chapters that have a build file,
/// in list order: the dependency names are the filtered, renamed chapters.
pub proof fn lemma_compile_all_exactly_generated(chs: Seq<ChapterSourceV>)
    ensures
        spec_compile_all_names(chs) == chs.filter(|c: ChapterSourceV| c.makefile is Some)
            .map_values(|c: ChapterSourceV| "compile_"@ + c.name),
    decreases chs.len(),
{
    reveal(Seq::filter);
    let pred = |c: ChapterSourceV| c.makefile is Some;
    let f = |c: ChapterSourceV| "compile_"@ + c.name;
    if chs.len() == 0 {
        assert(chs.filter(pred).map_values(f) =~= Seq::<Seq<char>>::empty());
        assert(spec_compile_all_names(chs) =~= Seq::<Seq<char>>::empty());
    } else {
        lemma_compile_all_exactly_generated(chs.drop_last());
        let dl = chs.drop_last();
        assert(chs.filter(pred) == if pred(chs.last()) {
            dl.filter(pred).push(chs.last())
        } else {
            dl.filter(pred)
        });
        if pred(chs.last()) {
            assert(dl.filter(pred).push(chs.last()).map_values(f) =~= dl.filter(pred).map_values(
                f,
            ).push(f(chs.last())));
            assert(spec_compile_all_names(chs) =~= dl.filter(pred).map_values(f).push(
                f(chs.last()),
            ));
        } else {
            assert(spec_compile_all_names(chs) =~= spec_compile_all_names(dl)
                + Seq::<Seq<char>>::empty());
        }
    }
}

/// The generated build file's own name never classifies into any bucket,
/// so a second scan of an already-generated chapter sees the same sources.
pub proof fn lemma_generated_file_not_classified(is_dir: bool, content: Seq<char>)
    ensures
        spec_classify("Makefile"@, is_dir, content) is None,
{
    reveal_strlit("Makefile");
    crate::classify::lemma_no_dot_no_extension("Makefile"@);
}


/// The first character of a line starting with the target prefix.
proof fn lemma_not_compile_prefix(l: Seq<char>)
    requires
        l.len() == 0 || l[0] != 'c',
    ensures
        !starts_with_seq(l, "compile_"@),
{
    reveal_strlit("compile_");
    if starts_with_seq(l, "compile_"@) {
        assert(l.subrange(0, 8)[0] == l[0]);
    }
}

/// Stripping a carriage return never turns a line into a target line
/// unless it already started with the prefix's first character.
proof fn lemma_strip_not_compile(l: Seq<char>)
    requires
        l.len() == 0 || l[0] != 'c',
    ensures
        !starts_with_seq(strip_cr(l), "compile_"@),
{
    if strip_cr(l).len() == 0 {
        lemma_not_compile_prefix(strip_cr(l));
    } else {
        assert(strip_cr(l)[0] == l[0]);
        lemma_not_compile_prefix(strip_cr(l));
    }
}

/// The Zig file names of one kind are all drawn from the bucket.
proof fn lemma_zig_files_no_newline(zs: Seq<crate::chapter::ZigV>, ty: ZigType)
    requires
        forall|i: int| 0 <= i < zs.len() ==> no_newline(#[trigger] zs[i].file),
    ensures
        forall|j: int| 0 <= j < zig_files(zs, ty).len() ==> no_newline(#[trigger] zig_files(zs, ty)[j]),
    decreases zs.len(),
{
    if zs.len() > 0 {
        assert(forall|i: int| 0 <= i < zs.len() - 1 ==> zs.drop_last()[i] == zs[i]);
        lemma_zig_files_no_newline(zs.drop_last(), ty);
        let r = zig_files(zs.drop_last(), ty);
        assert forall|j: int| 0 <= j < zig_files(zs, ty).len() implies no_newline(
            #[trigger] zig_files(zs, ty)[j],
        ) by {
            if zs.last().ty == ty && j == r.len() {
                assert(zig_files(zs, ty)[j] == zs.last().file);
                assert(zs.last() == zs[zs.len() - 1]);
            } else {
                assert(zig_files(zs, ty)[j] == r[j]);
            }
        }
    }
}

/// One target-header line extracts to its name.
proof fn lemma_extract_header(header: Seq<char>, name: Seq<char>)
    requires
        starts_with_seq(header, "compile_"@),
        upto_colon(header) == name,
    ensures
        spec_extract_targets(seq![header]) == seq![name],
{
    assert(seq![header].drop_last() =~= Seq::<Seq<char>>::empty());
    assert(seq![header].last() == header);
    assert(spec_extract_targets(Seq::<Seq<char>>::empty()) == Seq::<Seq<char>>::empty());
    assert(spec_extract_targets(seq![header]) == spec_extract_targets(
        seq![header].drop_last(),
    ).push(upto_colon(header)));
    assert(Seq::<Seq<char>>::empty().push(name) =~= seq![name]);
}

/// A command the chapter generator can emit.
pub open spec fn is_emitted_command(c: CommandV) -> bool {
    c == crate::chapter::c_command() || c == crate::chapter::cpp_command() || c
        == crate::chapter::rust_command() || c == crate::chapter::zig_command()
}

/// The name a command's header line extracts to.
pub open spec fn command_name(c: CommandV) -> Seq<char> {
    upto_colon(c.command)
}

/// The split of one emitted command's text, bare or newline-terminated,
/// extracts to exactly the command's name.
proof fn lemma_extract_one_command(c: CommandV)
    requires
        is_emitted_command(c),
    ensures
        spec_extract_targets(split_lines(command_text(c) + "\n"@)) == seq![command_name(c)],
        spec_extract_targets(split_lines(command_text(c))) == seq![command_name(c)],
        command_text(c).len() > 0,
        command_text(c).last() != '\n',
{
    reveal_strlit("compile_");
    reveal_strlit("\n");
    if c == crate::chapter::c_command() {
        reveal_strlit("compile_c: ");
        reveal_strlit("compile_c");
        reveal_strlit("\t$(foreach file, $(C_FILES), \\");
        reveal_strlit("\t\t$(eval out=$(patsubst %.c,%_c,$(file))) \\");
        reveal_strlit("\t\t$(CC) $(file) -o $(out);)");
        reveal_strlit(
            "\t$(foreach file, $(C_FILES), \\\n\t\t$(eval out=$(patsubst %.c,%_c,$(file))) \\\n\t\t$(CC) $(file) -o $(out);)",
        );
        assert(c.arg =~= ("\t$(foreach file, $(C_FILES), \\"@ + "\n"@) + (("\t\t$(eval out=$(patsubst %.c,%_c,$(file))) \\"@ + "\n"@) + "\t\t$(CC) $(file) -o $(out);)"@));
        assert(starts_with_seq("compile_c: "@, "compile_"@)) by {
            assert(("compile_c: "@).subrange(0, 8) =~= "compile_"@);
        }
        assert(upto_colon("compile_c: "@) == "compile_c"@) by {
            lemma_first_idx_is("compile_c: "@, ':', 9);
            assert(("compile_c: "@).subrange(0, 9) =~= "compile_c"@);
        }
        lemma_command_lines(
            c,
            "compile_c: "@,
            "compile_c"@,
            "\t$(foreach file, $(C_FILES), \\"@,
            "\t\t$(eval out=$(patsubst %.c,%_c,$(file))) \\"@,
            "\t\t$(CC) $(file) -o $(out);)"@,
        );
    } else if c == crate::chapter::cpp_command() {
        reveal_strlit("compile_cpp: ");
        reveal_strlit("compile_cpp");
        reveal_strlit("\t$(foreach file, $(CPP_FILES), \\");
        reveal_strlit("\t\t$(eval out=$(patsubst %.cpp,%_cpp,$(file))) \\");
        reveal_strlit("\t\t$(CC+) $(file) -o $(out);)");
        reveal_strlit(
            "\t$(foreach file, $(CPP_FILES), \\\n\t\t$(eval out=$(patsubst %.cpp,%_cpp,$(file))) \\\n\t\t$(CC+) $(file) -o $(out);)",
        );
        assert(c.arg =~= ("\t$(foreach file, $(CPP_FILES), \\"@ + "\n"@) + (("\t\t$(eval out=$(patsubst %.cpp,%_cpp,$(file))) \\"@ + "\n"@) + "\t\t$(CC+) $(file) -o $(out);)"@));
        assert(starts_with_seq("compile_cpp: "@, "compile_"@)) by {
            assert(("compile_cpp: "@).subrange(0, 8) =~= "compile_"@);
        }
        assert(upto_colon("compile_cpp: "@) == "compile_cpp"@) by {
            lemma_first_idx_is("compile_cpp: "@, ':', 11);
            assert(("compile_cpp: "@).subrange(0, 11) =~= "compile_cpp"@);
        }
        lemma_command_lines(
            c,
            "compile_cpp: "@,
            "compile_cpp"@,
            "\t$(foreach file, $(CPP_FILES), \\"@,
            "\t\t$(eval out=$(patsubst %.cpp,%_cpp,$(file))) \\"@,
            "\t\t$(CC+) $(file) -o $(out);)"@,
        );
    } else if c == crate::chapter::rust_command() {
        reveal_strlit("compile_rs: ");
        reveal_strlit("compile_rs");
        reveal_strlit("\t$(foreach file, $(RS_FILES), \\");
        reveal_strlit("\t\t$(eval out=$(patsubst %.rs,%_rs,$(file))) \\");
        reveal_strlit("\t\t$(RUSTC) $(file) -o $(out);)");
        reveal_strlit(
            "\t$(foreach file, $(RS_FILES), \\\n\t\t$(eval out=$(patsubst %.rs,%_rs,$(file))) \\\n\t\t$(RUSTC) $(file) -o $(out);)",
        );
        assert(c.arg =~= ("\t$(foreach file, $(RS_FILES), \\"@ + "\n"@) + (("\t\t$(eval out=$(patsubst %.rs,%_rs,$(file))) \\"@ + "\n"@) + "\t\t$(RUSTC) $(file) -o $(out);)"@));
        assert(starts_with_seq("compile_rs: "@, "compile_"@)) by {
            assert(("compile_rs: "@).subrange(0, 8) =~= "compile_"@);
        }
        assert(upto_colon("compile_rs: "@) == "compile_rs"@) by {
            lemma_first_idx_is("compile_rs: "@, ':', 10);
            assert(("compile_rs: "@).subrange(0, 10) =~= "compile_rs"@);
        }
        lemma_command_lines(
            c,
            "compile_rs: "@,
            "compile_rs"@,
            "\t$(foreach file, $(RS_FILES), \\"@,
            "\t\t$(eval out=$(patsubst %.rs,%_rs,$(file))) \\"@,
            "\t\t$(RUSTC) $(file) -o $(out);)"@,
        );
    } else {
        reveal_strlit("compile_zig: ");
        reveal_strlit("compile_zig");
        reveal_strlit("\t$(foreach file, $(ZIG_EXE), \\");
        reveal_strlit("\t\tzig build-exe $(file);)");
        reveal_strlit("\t$(foreach file, $(ZIG_TEST), \\");
        reveal_strlit("\t\tzig test $(file);)");
        reveal_strlit("\t$(foreach proj, $(ZIG_PROJS), \\");
        reveal_strlit("\t\tcd $(proj) && zig build;)");
        reveal_strlit(
            "\t$(foreach file, $(ZIG_EXE), \\\n\t\tzig build-exe $(file);)\n\t$(foreach file, $(ZIG_TEST), \\\n\t\tzig test $(file);)\n\t$(foreach proj, $(ZIG_PROJS), \\\n\t\tcd $(proj) && zig build;)",
        );
        lemma_zig_command_lines(c);
    }
}

/// One three-line command recipe splits into its header and its three
/// tab-indented lines, and extracts to the header's name.
proof fn lemma_command_lines(
    c: CommandV,
    header: Seq<char>,
    name: Seq<char>,
    a1: Seq<char>,
    a2: Seq<char>,
    a3: Seq<char>,
)
    requires
        c.command == header,
        c.arg == (a1 + "\n"@) + ((a2 + "\n"@) + a3),
        no_newline(header),
        no_newline(a1),
        no_newline(a2),
        no_newline(a3),
        header.len() > 0 && header.last() != '\r',
        a1.len() > 0 && a1[0] == '\t',
        a2.len() > 0 && a2[0] == '\t',
        a3.len() > 0 && a3[0] == '\t' && a3.last() != '\n',
        starts_with_seq(header, "compile_"@),
        upto_colon(header) == name,
    ensures
        spec_extract_targets(split_lines(command_text(c) + "\n"@)) == seq![name],
        spec_extract_targets(split_lines(command_text(c))) == seq![name],
        command_text(c).len() > 0,
        command_text(c).last() != '\n',
{
    reveal_strlit("compile_");
    let t = command_text(c);
    // Terminated form.
    assert(t + "\n"@ =~= (header + "\n"@) + ((a1 + "\n"@) + ((a2 + "\n"@) + ((a3 + "\n"@)
        + Seq::<char>::empty()))));
    lemma_split_cons(a3, Seq::<char>::empty());
    assert(split_lines((a3 + "\n"@) + Seq::<char>::empty()) == seq![strip_cr(a3)]);
    lemma_split_cons(a2, (a3 + "\n"@) + Seq::<char>::empty());
    lemma_split_cons(a1, (a2 + "\n"@) + ((a3 + "\n"@) + Seq::<char>::empty()));
    lemma_split_cons(header, (a1 + "\n"@) + ((a2 + "\n"@) + ((a3 + "\n"@)
        + Seq::<char>::empty())));
    assert(strip_cr(header) == header);
    assert(split_lines(t + "\n"@) =~= seq![header, strip_cr(a1), strip_cr(a2), strip_cr(a3)]);
    // Bare form.
    assert(t =~= (header + "\n"@) + ((a1 + "\n"@) + ((a2 + "\n"@) + a3)));
    lemma_split_single(a3);
    lemma_split_cons(a2, a3);
    lemma_split_cons(a1, (a2 + "\n"@) + a3);
    lemma_split_cons(header, (a1 + "\n"@) + ((a2 + "\n"@) + a3));
    assert(split_lines(t) =~= seq![header, strip_cr(a1), strip_cr(a2), a3]);
    // Extraction.
    lemma_extract_lines(header, name, seq![strip_cr(a1), strip_cr(a2), strip_cr(a3)]);
    lemma_extract_lines(header, name, seq![strip_cr(a1), strip_cr(a2), a3]);
    assert(seq![header] + seq![strip_cr(a1), strip_cr(a2), strip_cr(a3)] =~= seq![
        header,
        strip_cr(a1),
        strip_cr(a2),
        strip_cr(a3),
    ]);
    assert(seq![header] + seq![strip_cr(a1), strip_cr(a2), a3] =~= seq![
        header,
        strip_cr(a1),
        strip_cr(a2),
        a3,
    ]);
    assert(t.last() == a3.last());
}

/// A header line followed by tab-indented recipe lines extracts to the
/// header's name alone.
proof fn lemma_extract_lines(header: Seq<char>, name: Seq<char>, tabs: Seq<Seq<char>>)
    requires
        starts_with_seq(header, "compile_"@),
        upto_colon(header) == name,
        forall|i: int| 0 <= i < tabs.len() ==> (#[trigger] tabs[i]).len() == 0 || tabs[i][0] == '\t',
    ensures
        spec_extract_targets(seq![header] + tabs) == seq![name],
{
    lemma_extract_header(header, name);
    assert forall|i: int| 0 <= i < tabs.len() implies !starts_with_seq(
        #[trigger] tabs[i],
        "compile_"@,
    ) by {
        reveal_strlit("compile_");
        lemma_not_compile_prefix(tabs[i]);
    }
    lemma_extract_none(tabs);
    lemma_extract_append(seq![header], tabs);
    assert(spec_extract_targets(seq![header] + tabs) =~= seq![name]);
}

/// The six-line Zig recipe splits and extracts like the three-line ones.
proof fn lemma_zig_command_lines(c: CommandV)
    requires
        c == crate::chapter::zig_command(),
    ensures
        spec_extract_targets(split_lines(command_text(c) + "\n"@)) == seq![command_name(c)],
        spec_extract_targets(split_lines(command_text(c))) == seq![command_name(c)],
        command_text(c).len() > 0,
        command_text(c).last() != '\n',
{
    reveal_strlit("compile_");
    reveal_strlit("\n");
    reveal_strlit("compile_zig: ");
    reveal_strlit("compile_zig");
    reveal_strlit("\t$(foreach file, $(ZIG_EXE), \\");
    reveal_strlit("\t\tzig build-exe $(file);)");
    reveal_strlit("\t$(foreach file, $(ZIG_TEST), \\");
    reveal_strlit("\t\tzig test $(file);)");
    reveal_strlit("\t$(foreach proj, $(ZIG_PROJS), \\");
    reveal_strlit("\t\tcd $(proj) && zig build;)");
    reveal_strlit(
        "\t$(foreach file, $(ZIG_EXE), \\\n\t\tzig build-exe $(file);)\n\t$(foreach file, $(ZIG_TEST), \\\n\t\tzig test $(file);)\n\t$(foreach proj, $(ZIG_PROJS), \\\n\t\tcd $(proj) && zig build;)",
    );
    let header = "compile_zig: "@;
    let b1 = "\t$(foreach file, $(ZIG_EXE), \\"@;
    let b2 = "\t\tzig build-exe $(file);)"@;
    let b3 = "\t$(foreach file, $(ZIG_TEST), \\"@;
    let b4 = "\t\tzig test $(file);)"@;
    let b5 = "\t$(foreach proj, $(ZIG_PROJS), \\"@;
    let b6 = "\t\tcd $(proj) && zig build;)"@;
    let t = command_text(c);
    let name = command_name(c);
    assert(upto_colon(header) == "compile_zig"@) by {
        lemma_first_idx_is(header, ':', 11);
        assert(header.subrange(0, 11) =~= "compile_zig"@);
    }
    assert(starts_with_seq(header, "compile_"@)) by {
        assert(header.subrange(0, 8) =~= "compile_"@);
    }
    // Terminated form.
    let r6 = (b6 + "\n"@) + Seq::<char>::empty();
    let r5 = (b5 + "\n"@) + r6;
    let r4 = (b4 + "\n"@) + r5;
    let r3 = (b3 + "\n"@) + r4;
    let r2 = (b2 + "\n"@) + r3;
    let r1 = (b1 + "\n"@) + r2;
    assert(t + "\n"@ =~= (header + "\n"@) + r1);
    lemma_split_cons(b6, Seq::<char>::empty());
    lemma_split_cons(b5, r6);
    lemma_split_cons(b4, r5);
    lemma_split_cons(b3, r4);
    lemma_split_cons(b2, r3);
    lemma_split_cons(b1, r2);
    lemma_split_cons(header, r1);
    assert(strip_cr(header) == header);
    assert(strip_cr(b1) == b1 && strip_cr(b2) == b2 && strip_cr(b3) == b3 && strip_cr(b4) == b4
        && strip_cr(b5) == b5 && strip_cr(b6) == b6);
    assert(split_lines(t + "\n"@) =~= seq![header, b1, b2, b3, b4, b5, b6]);
    // Bare form.
    let q5 = (b5 + "\n"@) + b6;
    let q4 = (b4 + "\n"@) + q5;
    let q3 = (b3 + "\n"@) + q4;
    let q2 = (b2 + "\n"@) + q3;
    let q1 = (b1 + "\n"@) + q2;
    assert(t =~= (header + "\n"@) + q1);
    lemma_split_single(b6);
    lemma_split_cons(b5, b6);
    lemma_split_cons(b4, q5);
    lemma_split_cons(b3, q4);
    lemma_split_cons(b2, q3);
    lemma_split_cons(b1, q2);
    lemma_split_cons(header, q1);
    assert(split_lines(t) =~= seq![header, b1, b2, b3, b4, b5, b6]);
    // Extraction.
    lemma_extract_lines(header, name, seq![b1, b2, b3, b4, b5, b6]);
    assert(seq![header] + seq![b1, b2, b3, b4, b5, b6] =~= seq![header, b1, b2, b3, b4, b5, b6]);
    assert(t.last() == b6.last());
}


/// The names of the four emitted commands.
proof fn lemma_command_name_facts()
    ensures
        command_name(crate::chapter::c_command()) == "compile_c"@,
        command_name(crate::chapter::cpp_command()) == "compile_cpp"@,
        command_name(crate::chapter::rust_command()) == "compile_rs"@,
        command_name(crate::chapter::zig_command()) == "compile_zig"@,
{
    reveal_strlit("compile_c: ");
    reveal_strlit("compile_c");
    reveal_strlit("compile_cpp: ");
    reveal_strlit("compile_cpp");
    reveal_strlit("compile_rs: ");
    reveal_strlit("compile_rs");
    reveal_strlit("compile_zig: ");
    reveal_strlit("compile_zig");
    lemma_first_idx_is("compile_c: "@, ':', 9);
    assert(("compile_c: "@).subrange(0, 9) =~= "compile_c"@);
    lemma_first_idx_is("compile_cpp: "@, ':', 11);
    assert(("compile_cpp: "@).subrange(0, 11) =~= "compile_cpp"@);
    lemma_first_idx_is("compile_rs: "@, ':', 10);
    assert(("compile_rs: "@).subrange(0, 10) =~= "compile_rs"@);
    lemma_first_idx_is("compile_zig: "@, ':', 11);
    assert(("compile_zig: "@).subrange(0, 11) =~= "compile_zig"@);
}

/// The command section of a chapter build file extracts to the commands'
/// names, in order.
proof fn lemma_extract_command_section(cs: Seq<CommandV>)
    requires
        forall|i: int| 0 <= i < cs.len() ==> is_emitted_command(#[trigger] cs[i]),
    ensures
        spec_extract_targets(split_lines(join_with(command_texts(cs), "\n"@))) == cs.map_values(
            |c: CommandV| command_name(c),
        ),
    decreases cs.len(),
{
    reveal_strlit("\n");
    let ts = command_texts(cs);
    let f = |c: CommandV| command_name(c);
    if cs.len() == 0 {
        assert(ts.len() == 0);
        assert(join_with(ts, "\n"@) == Seq::<char>::empty());
        assert(split_lines(Seq::<char>::empty()) == Seq::<Seq<char>>::empty());
        assert(spec_extract_targets(Seq::<Seq<char>>::empty()) =~= cs.map_values(f));
    } else if cs.len() == 1 {
        assert(ts.len() == 1);
        assert(join_with(ts, "\n"@) == ts[0]);
        assert(ts[0] == command_text(cs[0]));
        lemma_extract_one_command(cs[0]);
        assert(seq![command_name(cs[0])] =~= cs.map_values(f));
    } else {
        lemma_join_first(ts, "\n"@);
        let rest_cs = cs.drop_first();
        assert(ts.drop_first() =~= command_texts(rest_cs));
        let t0 = command_text(cs[0]);
        assert(ts.first() == t0);
        lemma_extract_one_command(cs[0]);
        let rest_join = join_with(command_texts(rest_cs), "\n"@);
        assert(join_with(ts, "\n"@) =~= (t0 + "\n"@) + rest_join);
        assert((t0 + "\n"@).last() == '\n');
        assert((t0 + "\n"@).len() > 0);
        lemma_split_append(t0 + "\n"@, rest_join);
        lemma_extract_append(split_lines(t0 + "\n"@), split_lines(rest_join));
        assert(forall|i: int|
            0 <= i < rest_cs.len() ==> is_emitted_command(#[trigger] rest_cs[i]));
        lemma_extract_command_section(rest_cs);
        assert(spec_extract_targets(split_lines(join_with(ts, "\n"@))) =~= cs.map_values(f));
    }
}

/// A non-empty variable line whose first character is not the target
/// prefix's first character.
proof fn lemma_segment_lines(name: Seq<char>, files: Seq<Seq<char>>)
    requires
        name.len() > 0,
        name[0] != 'c',
        no_newline(name),
        forall|i: int| 0 <= i < files.len() ==> no_newline(#[trigger] files[i]),
    ensures
        forall|i: int|
            0 <= i < bucket_segment(name, files).len() ==> no_newline(
                #[trigger] bucket_segment(name, files)[i],
            ) && bucket_segment(name, files)[i].len() > 0 && bucket_segment(name, files)[i][0]
                != 'c',
{
    reveal_strlit(" = ");
    if files.len() > 0 {
        let l = var_line_text(name, files);
        assert(bucket_segment(name, files)[0] == l);
        reveal_strlit(" ");
        assert(no_newline(" "@));
        crate::text::lemma_join_no_newline(files, " "@);
        assert(l[0] == name[0]);
        assert(no_newline(l)) by {
            assert(forall|k: int|
                0 <= k < l.len() ==> l[k] == (if k < name.len() {
                    name[k]
                } else if k < name.len() + 3 {
                    (" = "@)[k - name.len()]
                } else {
                    join_with(files, " "@)[k - name.len() - 3]
                }));
        }
    }
}

/// Every variable line of a chapter is newline-free, non-empty, and no
/// target line; so the stripped variable lines extract to nothing.
proof fn lemma_var_lines_extract_none(m: MakeVarV)
    requires
        names_newline_free(m),
    ensures
        forall|i: int|
            0 <= i < var_line_list(m).len() ==> no_newline(#[trigger] var_line_list(m)[i]),
        spec_extract_targets(stripped(var_line_list(m))) == Seq::<Seq<char>>::empty(),
{
    reveal_strlit("C_FILES");
    reveal_strlit("CPP_FILES");
    reveal_strlit("RS_FILES");
    reveal_strlit("ZIG_EXE_FILES");
    reveal_strlit("ZIG_TEST_FILES");
    reveal_strlit("ZIG_PROJ_FILES");
    lemma_zig_files_no_newline(m.zig, ZigType::Bin);
    lemma_zig_files_no_newline(m.zig, ZigType::Test);
    lemma_zig_files_no_newline(m.zig, ZigType::Proj);
    let s1 = bucket_segment("C_FILES"@, m.c);
    let s2 = bucket_segment("CPP_FILES"@, m.cpp);
    let s3 = bucket_segment("RS_FILES"@, m.rs);
    let s4 = bucket_segment("ZIG_EXE_FILES"@, zig_files(m.zig, ZigType::Bin));
    let s5 = bucket_segment("ZIG_TEST_FILES"@, zig_files(m.zig, ZigType::Test));
    let s6 = bucket_segment("ZIG_PROJ_FILES"@, zig_files(m.zig, ZigType::Proj));
    lemma_segment_lines("C_FILES"@, m.c);
    lemma_segment_lines("CPP_FILES"@, m.cpp);
    lemma_segment_lines("RS_FILES"@, m.rs);
    lemma_segment_lines("ZIG_EXE_FILES"@, zig_files(m.zig, ZigType::Bin));
    lemma_segment_lines("ZIG_TEST_FILES"@, zig_files(m.zig, ZigType::Test));
    lemma_segment_lines("ZIG_PROJ_FILES"@, zig_files(m.zig, ZigType::Proj));
    let vll = var_line_list(m);
    assert forall|i: int|
        0 <= i < vll.len() implies no_newline(#[trigger] vll[i]) && vll[i].len() > 0 && vll[i][0]
        != 'c' by {
        let t2 = s1 + s2;
        let t3 = t2 + s3;
        let t4 = t3 + s4;
        let t5 = t4 + s5;
        if i < s1.len() {
            assert(vll[i] == s1[i]);
        } else if i < t2.len() {
            assert(vll[i] == s2[i - s1.len()]);
        } else if i < t3.len() {
            assert(vll[i] == s3[i - t2.len()]);
        } else if i < t4.len() {
            assert(vll[i] == s4[i - t3.len()]);
        } else if i < t5.len() {
            assert(vll[i] == s5[i - t4.len()]);
        } else {
            assert(vll[i] == s6[i - t5.len()]);
        }
    }
    assert forall|i: int|
        0 <= i < stripped(vll).len() implies !starts_with_seq(
        #[trigger] stripped(vll)[i],
        "compile_"@,
    ) by {
        lemma_strip_not_compile(vll[i]);
    }
    lemma_extract_none(stripped(vll));
}

/// The compiler-name variables are newline-free, non-empty, and no target
/// lines.
proof fn lemma_compiler_vars_lines(m: MakeVarV)
    ensures
        forall|i: int|
            0 <= i < spec_compiler_vars(m).len() ==> no_newline(
                #[trigger] spec_compiler_vars(m)[i],
            ) && spec_compiler_vars(m)[i].len() > 0 && spec_compiler_vars(m)[i][0] != 'c',
{
    reveal_strlit("CC = clang");
    reveal_strlit("CC+ = g++");
    reveal_strlit("RUSTC = rustc");
    let v = spec_compiler_vars(m);
    let p1: Seq<Seq<char>> = if m.c.len() > 0 {
        seq!["CC = clang"@]
    } else {
        Seq::empty()
    };
    let p2: Seq<Seq<char>> = if m.cpp.len() > 0 {
        seq!["CC+ = g++"@]
    } else {
        Seq::empty()
    };
    let p3: Seq<Seq<char>> = if m.rs.len() > 0 {
        seq!["RUSTC = rustc"@]
    } else {
        Seq::empty()
    };
    assert forall|i: int|
        0 <= i < v.len() implies no_newline(#[trigger] v[i]) && v[i].len() > 0 && v[i][0]
        != 'c' by {
        if i < p1.len() {
            assert(v[i] == p1[i]);
        } else if i < p1.len() + p2.len() {
            assert(v[i] == p2[i - p1.len()]);
        } else {
            assert(v[i] == p3[i - p1.len() - p2.len()]);
        }
    }
}

/// Re-scanning a generated chapter build file recovers exactly the compile
/// targets the chapter emitted: the second pass of the root stage sees the
/// same targets the first pass wrote, so a re-run writes the same root
/// file.
pub proof fn lemma_rescan_recovers_targets(m: MakeVarV)
    requires
        names_newline_free(m),
    ensures
        spec_compile_targets(spec_chapter_makefile(m)) == spec_command_names(m),
{
    reveal_strlit("\n");
    reveal_strlit("compile_");
    let vars = spec_compiler_vars(m);
    let cs = spec_commands(m);
    let vll = var_line_list(m);
    let a = spec_var_block(m) + "\n"@;
    let b = join_with(vars, "\n"@) + "\n"@;
    let cjoin = join_with(command_texts(cs), "\n"@);
    let full = spec_chapter_makefile(m);
    assert(full =~= a + (b + cjoin));
    assert(a.len() > 0 && a.last() == '\n');
    assert(b.len() > 0 && b.last() == '\n');
    lemma_split_append(a, b + cjoin);
    lemma_split_append(b, cjoin);
    // The variable block's lines.
    lemma_variable_emission_monotonic(m);
    lemma_var_lines_extract_none(m);
    assert(a == terminated(vll) + "\n"@);
    lemma_split_terminated(vll, "\n"@);
    lemma_split_cons(Seq::<char>::empty(), Seq::<char>::empty());
    assert((Seq::<char>::empty() + "\n"@) + Seq::<char>::empty() =~= "\n"@);
    assert(strip_cr(Seq::<char>::empty()) == Seq::<char>::empty());
    assert(split_lines("\n"@) == seq![Seq::<char>::empty()]);
    let la = stripped(vll) + seq![Seq::<char>::empty()];
    assert(split_lines(a) == la);
    lemma_extract_append(stripped(vll), seq![Seq::<char>::empty()]);
    lemma_not_compile_prefix(Seq::<char>::empty());
    assert(seq![Seq::<char>::empty()].drop_last() =~= Seq::<Seq<char>>::empty());
    assert(seq![Seq::<char>::empty()].last() == Seq::<char>::empty());
    assert(spec_extract_targets(Seq::<Seq<char>>::empty()) == Seq::<Seq<char>>::empty());
    assert(spec_extract_targets(seq![Seq::<char>::empty()]) =~= Seq::<Seq<char>>::empty());
    assert(spec_extract_targets(la) =~= Seq::<Seq<char>>::empty());
    // The compiler-name lines.
    lemma_compiler_vars_lines(m);
    let lb = split_lines(b);
    if vars.len() == 0 {
        assert(b =~= "\n"@);
        assert(lb == seq![Seq::<char>::empty()]);
        assert forall|i: int| 0 <= i < lb.len() implies !starts_with_seq(
            #[trigger] lb[i],
            "compile_"@,
        ) by {
            lemma_not_compile_prefix(Seq::<char>::empty());
        }
    } else {
        crate::text::lemma_join_newline_terminated(vars);
        assert(b == terminated(vars));
        assert(terminated(vars) + Seq::<char>::empty() =~= terminated(vars));
        lemma_split_terminated(vars, Seq::<char>::empty());
        assert(split_lines(Seq::<char>::empty()) == Seq::<Seq<char>>::empty());
        assert(lb =~= stripped(vars));
        assert forall|i: int| 0 <= i < lb.len() implies !starts_with_seq(
            #[trigger] lb[i],
            "compile_"@,
        ) by {
            assert(lb[i] == strip_cr(vars[i]));
            lemma_strip_not_compile(vars[i]);
        }
    }
    lemma_extract_none(lb);
    // The command section.
    assert forall|i: int| 0 <= i < cs.len() implies is_emitted_command(#[trigger] cs[i]) by {
        let q1: Seq<CommandV> = if m.c.len() > 0 {
            seq![crate::chapter::c_command()]
        } else {
            Seq::empty()
        };
        let q2: Seq<CommandV> = if m.cpp.len() > 0 {
            seq![crate::chapter::cpp_command()]
        } else {
            Seq::empty()
        };
        let q3: Seq<CommandV> = if m.rs.len() > 0 {
            seq![crate::chapter::rust_command()]
        } else {
            Seq::empty()
        };
        if i < q1.len() {
            assert(cs[i] == q1[i]);
        } else if i < q1.len() + q2.len() {
            assert(cs[i] == q2[i - q1.len()]);
        } else if i < q1.len() + q2.len() + q3.len() {
            assert(cs[i] == q3[i - q1.len() - q2.len()]);
        } else {
            assert(cs[i] == crate::chapter::zig_command());
        }
    }
    lemma_extract_command_section(cs);
    // Assemble.
    lemma_extract_append(split_lines(a), split_lines(b) + split_lines(cjoin));
    lemma_extract_append(split_lines(b), split_lines(cjoin));
    assert(split_lines(full) == split_lines(a) + (split_lines(b) + split_lines(cjoin)));
    lemma_command_name_facts();
    assert(cs.map_values(|c: CommandV| command_name(c)) =~= spec_command_names(m));
    assert(spec_compile_targets(full) =~= spec_command_names(m));
}

} // verus!
