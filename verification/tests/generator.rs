use makegen::chapter::{MakeVar, Commands, Command, Zig, ZigType, chapter_makefile};
use makegen::classify::{classify, Category, entry_needs_content};

fn marker() -> String {
    format!("{}{}", "ext", "ern")
}

#[test]
fn classify_c_file() {
    assert_eq!(classify("prog.c", false, ""), Some(Category::C));
}

#[test]
fn classify_cpp_file() {
    assert_eq!(classify("prog.cpp", false, ""), Some(Category::Cpp));
}

#[test]
fn classify_rust_file() {
    assert_eq!(classify("add.rs", false, ""), Some(Category::Rust));
}

#[test]
fn classify_zig_binary_by_content() {
    assert_eq!(
        classify("hello.zig", false, "pub fn main() void {}"),
        Some(Category::ZigBin)
    );
}

#[test]
fn classify_zig_test_without_entry_point() {
    assert_eq!(
        classify("checks.zig", false, "test \"adds\" {}"),
        Some(Category::ZigTest)
    );
}

#[test]
fn classify_zig_directory_as_project() {
    assert_eq!(classify("proj.zig", true, ""), Some(Category::ZigProj));
}

#[test]
fn classify_unknown_extension_skipped() {
    assert_eq!(classify("notes.txt", false, ""), None);
    assert_eq!(classify("README", false, ""), None);
    assert_eq!(classify("Makefile", false, ""), None);
}

#[test]
fn classify_leading_dot_has_no_extension() {
    assert_eq!(classify(".rs", false, ""), None);
    assert_eq!(classify("lib.tar.rs", false, ""), Some(Category::Rust));
}

#[test]
fn marker_name_excluded_from_every_bucket() {
    let name = format!("add_{}.rs", marker());
    assert_eq!(classify(&name, false, ""), None);
    let cname = format!("{}_lib.c", marker());
    assert_eq!(classify(&cname, false, ""), None);
    let zname = format!("{}.zig", marker());
    assert_eq!(classify(&zname, false, "main"), None);
}

#[test]
fn marker_name_leaves_buckets_unchanged() {
    let mut mv = MakeVar::new();
    mv.add_entry(&format!("add_{}.rs", marker()), false, "");
    assert_eq!(mv.to_string(), "");
}

#[test]
fn zig_new_splits_by_content_and_directory() {
    let bin = Zig::new("a.zig", false, "pub fn main() {}");
    assert_eq!(bin.ty, ZigType::Bin);
    assert_eq!(bin.file, "a.zig");
    let test = Zig::new("b.zig", false, "no entry point here");
    assert_eq!(test.ty, ZigType::Test);
    let proj = Zig::new("c.zig", true, "");
    assert_eq!(proj.ty, ZigType::Proj);
}

#[test]
fn variable_emission_exactly_one_line_per_nonempty_bucket() {
    let mut mv = MakeVar::new();
    mv.add_entry("a.c", false, "");
    mv.add_entry("b.c", false, "");
    assert_eq!(mv.to_string(), "C_FILES = a.c b.c\n");
}

#[test]
fn empty_buckets_emit_nothing() {
    let mv = MakeVar::new();
    assert_eq!(mv.to_string(), "");
}

#[test]
fn zig_buckets_emit_three_variables() {
    let mut mv = MakeVar::new();
    mv.add_entry("bin.zig", false, "fn main() {}");
    mv.add_entry("t.zig", false, "test {}");
    mv.add_entry("proj.zig", true, "");
    assert_eq!(
        mv.to_string(),
        "ZIG_EXE_FILES = bin.zig\nZIG_TEST_FILES = t.zig\nZIG_PROJ_FILES = proj.zig\n"
    );
}

#[test]
fn exercises_entries_prefixed_and_filtered() {
    let mut mv = MakeVar::new();
    mv.add_exercise_entry("zig_ex1.zig", false, "test {}");
    mv.add_exercise_entry("notes.txt", false, "");
    assert_eq!(mv.to_string(), "ZIG_TEST_FILES = exercises/zig_ex1.zig\n");
}

#[test]
fn scenario_mixed_chapter_directory() {
    let mut mv = MakeVar::new();
    mv.add_entry("add.rs", false, "");
    mv.add_entry(&format!("add_{}.rs", marker()), false, "");
    mv.add_entry("prog.c", false, "");
    let vars = mv.to_string();
    assert_eq!(vars, "C_FILES = prog.c\nRS_FILES = add.rs\n");
    let targets = makegen::rootgen::extract_compile_targets(&chapter_makefile(&mv));
    assert_eq!(targets, vec!["compile_c".to_string(), "compile_rs".to_string()]);
}

#[test]
fn command_headers_and_recipes() {
    assert_eq!(Command::c().command, "compile_c: ");
    assert_eq!(Command::cpp().command, "compile_cpp: ");
    assert_eq!(Command::rust().command, "compile_rs: ");
    assert_eq!(Command::zig().command, "compile_zig: ");
    assert_eq!(
        Command::rust().to_string(),
        "compile_rs: \n\t$(foreach file, $(RS_FILES), \\\n\t\t$(eval out=$(patsubst %.rs,%_rs,$(file))) \\\n\t\t$(RUSTC) $(file) -o $(out);)"
    );
}

#[test]
fn commands_selects_per_bucket() {
    let mut mv = MakeVar::new();
    mv.add_entry("a.c", false, "");
    mv.add_entry("b.rs", false, "");
    let cmds = Commands::new(&mv);
    assert_eq!(cmds.variables, vec!["CC = clang".to_string(), "RUSTC = rustc".to_string()]);
    assert_eq!(cmds.commands.len(), 2);
    assert_eq!(cmds.commands[0].command, "compile_c: ");
    assert_eq!(cmds.commands[1].command, "compile_rs: ");
}

#[test]
fn chapter_makefile_layout() {
    let mut mv = MakeVar::new();
    mv.add_entry("a.c", false, "");
    let text = chapter_makefile(&mv);
    let expected = format!(
        "C_FILES = a.c\n\nCC = clang\n{}",
        Command::c().to_string()
    );
    assert_eq!(text, expected);
}

#[test]
fn rerun_on_same_entries_is_byte_identical() {
    let build = || {
        let mut mv = MakeVar::new();
        mv.add_entry("a.c", false, "");
        mv.add_entry("hello.zig", false, "fn main() {}");
        mv.add_entry("lib.rs", false, "");
        chapter_makefile(&mv)
    };
    assert_eq!(build(), build());
}

#[test]
fn entry_needs_content_only_for_zig_files() {
    assert!(entry_needs_content("a.zig", false));
    assert!(!entry_needs_content("a.zig", true));
    assert!(!entry_needs_content("a.c", false));
    assert!(!entry_needs_content(&format!("{}.zig", marker()), false));
    assert!(!MakeVar::exercise_needs_content("ex1.c", false));
    assert!(MakeVar::exercise_needs_content("zig_one", false));
    assert!(!MakeVar::exercise_needs_content("zig_dir", true));
}

#[test]
fn rescan_recovers_zig_and_c_targets() {
    let mut mv = MakeVar::new();
    mv.add_entry("a.c", false, "");
    mv.add_entry("m.zig", false, "fn main() {}");
    let text = chapter_makefile(&mv);
    let targets = makegen::rootgen::extract_compile_targets(&text);
    assert_eq!(targets, vec!["compile_c".to_string(), "compile_zig".to_string()]);
}
