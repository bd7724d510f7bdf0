use makegen::rootgen::{
    extract_compile_targets, chapter_block, root_makefile, clean_target, is_chapter_name,
    ChapterSource, split_into_lines, upto_colon_str,
};
use makegen::order::{sort_names, str_lex_leq};
use makegen::samples::{divide, divide_res, divide_opt, square, add_fn_twice};
use makegen::text::{contains_substring, starts_with_str, str_eq, join_strings};

#[test]
fn split_lines_matches_standard_behavior() {
    assert_eq!(split_into_lines("a\nb"), vec!["a".to_string(), "b".to_string()]);
    assert_eq!(split_into_lines("a\nb\n"), vec!["a".to_string(), "b".to_string()]);
    assert_eq!(split_into_lines("a\r\nb"), vec!["a".to_string(), "b".to_string()]);
    assert_eq!(split_into_lines(""), Vec::<String>::new());
    assert_eq!(split_into_lines("\n\n"), vec!["".to_string(), "".to_string()]);
}

#[test]
fn extracts_targets_up_to_first_colon() {
    let content = "C_FILES = a.c\ncompile_c: deps\n\tbody\ncompile_zig: \nother";
    assert_eq!(
        extract_compile_targets(content),
        vec!["compile_c".to_string(), "compile_zig".to_string()]
    );
    assert_eq!(upto_colon_str("no colon here"), "no colon here");
    assert_eq!(extract_compile_targets("compile_weird\n"), vec!["compile_weird".to_string()]);
}

#[test]
fn chapter_block_chains_without_dangling_operator() {
    let targets = vec!["compile_c".to_string(), "compile_rs".to_string()];
    assert_eq!(
        chapter_block("ch01", &targets),
        "compile_ch01:\n\tcd ch01 && make compile_c && \\\n\tmake compile_rs\n\n"
    );
    let single = vec!["compile_zig".to_string()];
    assert_eq!(
        chapter_block("ch02", &single),
        "compile_ch02:\n\tcd ch02 && make compile_zig\n\n"
    );
}

#[test]
fn root_makefile_lists_only_generated_chapters() {
    let chapters = vec![
        ChapterSource { name: "ch01".to_string(), makefile: Some("compile_c: \nx".to_string()) },
        ChapterSource { name: "ch02".to_string(), makefile: None },
        ChapterSource { name: "ch03".to_string(), makefile: Some("compile_rs: \n".to_string()) },
    ];
    let expected = format!(
        "compile_ch01:\n\tcd ch01 && make compile_c\n\n\
         compile_ch03:\n\tcd ch03 && make compile_rs\n\n\
         compile_all: compile_ch01 compile_ch03\n\n{}",
        clean_target()
    );
    assert_eq!(root_makefile(&chapters), expected);
}

#[test]
fn root_makefile_empty_tree() {
    let chapters: Vec<ChapterSource> = vec![];
    assert_eq!(root_makefile(&chapters), format!("compile_all: \n\n{}", clean_target()));
}

#[test]
fn clean_target_text() {
    assert_eq!(
        clean_target(),
        "clean: \n\tfind ./*/ -type f -executable -exec rm {} \\;\n\trm -f ./*/*.o && rm -f ./*/exercises/*.o"
    );
}

#[test]
fn root_generation_is_idempotent() {
    let build = || {
        let chapters = vec![
            ChapterSource { name: "ch1".to_string(), makefile: Some("compile_c: \n".to_string()) },
            ChapterSource { name: "ch2".to_string(), makefile: None },
        ];
        root_makefile(&chapters)
    };
    assert_eq!(build(), build());
}

#[test]
fn chapter_names_sort_lexicographically_not_numerically() {
    let sorted = sort_names(vec!["ch10".to_string(), "ch2".to_string(), "ch1".to_string()]);
    assert_eq!(sorted, vec!["ch1".to_string(), "ch10".to_string(), "ch2".to_string()]);
}

#[test]
fn sorting_keeps_duplicates() {
    let sorted = sort_names(vec!["b".to_string(), "a".to_string(), "b".to_string()]);
    assert_eq!(sorted, vec!["a".to_string(), "b".to_string(), "b".to_string()]);
}

#[test]
fn lexicographic_comparison() {
    assert!(str_lex_leq("ch1", "ch10"));
    assert!(str_lex_leq("ch10", "ch2"));
    assert!(!str_lex_leq("ch2", "ch10"));
    assert!(str_lex_leq("same", "same"));
}

#[test]
fn chapter_name_filter() {
    assert!(is_chapter_name("ch01"));
    assert!(is_chapter_name("launch"));
    assert!(!is_chapter_name("src"));
}

#[test]
fn text_primitives() {
    assert!(contains_substring("hello world", "lo w"));
    assert!(!contains_substring("hello", "world"));
    assert!(contains_substring("anything", ""));
    assert!(starts_with_str("compile_c: ", "compile_"));
    assert!(!starts_with_str("C_FILES = a.c", "compile_"));
    assert!(str_eq("abc", "abc"));
    assert!(!str_eq("abc", "abd"));
    let parts = vec!["a.c".to_string(), "b.c".to_string()];
    assert_eq!(join_strings(&parts, " "), "a.c b.c");
}

#[test]
fn empty_chapter_block_has_no_operator() {
    let none: Vec<String> = vec![];
    assert_eq!(chapter_block("ch03", &none), "compile_ch03:\n\tcd ch03\n\n");
}

#[test]
fn root_block_for_sourceless_chapter_does_not_dangle() {
    // A chapter with no classified sources still gets a build file; its
    // root target is a bare cd line, and it still counts for compile_all.
    let empty_chapter_makefile = "\n\n";
    let chapters = vec![
        ChapterSource {
            name: "ch05".to_string(),
            makefile: Some(empty_chapter_makefile.to_string()),
        },
    ];
    let expected = format!(
        "compile_ch05:\n\tcd ch05\n\ncompile_all: compile_ch05\n\n{}",
        clean_target()
    );
    assert_eq!(root_makefile(&chapters), expected);
}

#[test]
fn divide_truncates_toward_zero() {
    assert_eq!(divide(10, 2), Ok(5));
    assert_eq!(divide(-7, 2), Ok(-3));
    assert_eq!(divide(7, -2), Ok(-3));
    assert_eq!(divide(-7, -2), Ok(3));
}

#[test]
fn divide_reports_zero_divisor() {
    assert_eq!(divide(10, 0), Err("Cannot divide by zero".to_string()));
    assert_eq!(divide_res(10, 0), Err("Division by Zero".to_string()));
    assert_eq!(divide_opt(10, 0), None);
}

#[test]
fn divide_variants_agree_on_success() {
    assert_eq!(divide_res(10, 2), Ok(5));
    assert_eq!(divide_opt(9, 3), Some(3));
}

#[test]
fn square_and_add_fn_twice() {
    assert_eq!(square(4), 16);
    assert_eq!(square(-5), 25);
    assert_eq!(add_fn_twice(4, square), 32);
}
