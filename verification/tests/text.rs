use pytest_fastcollect::item::TestItemType;
use pytest_fastcollect::parser::line_of_offset;
use pytest_fastcollect::path::file_stem;
use pytest_fastcollect::text::{
    chars_of, contains_text, ends_with, find_from, is_space_char, matches_at, same_text,
    split_text, starts_with, trim,
};

fn text(chars: &[char]) -> String {
    chars.iter().collect()
}

fn pieces(s: &str, sep: &str) -> Vec<String> {
    let chars = chars_of(s);
    let sep = chars_of(sep);
    split_text(&chars, &sep).into_iter().map(text).collect()
}

fn trimmed(s: &str) -> String {
    text(trim(&chars_of(s)))
}

#[test]
fn chars_of_lists_the_characters() {
    assert_eq!(chars_of(""), Vec::<char>::new());
    assert_eq!(chars_of("a\u{e9}z"), vec!['a', '\u{e9}', 'z']);
}

#[test]
fn same_text_compares_whole_texts() {
    assert!(same_text("", ""));
    assert!(same_text("mark", "mark"));
    assert!(!same_text("mark", "marks"));
    assert!(!same_text("mark", "Mark"));
    assert!(same_text("\u{e9}", "\u{e9}"));
    assert!(!same_text("\u{e9}", "\u{e8}"));
}

#[test]
fn matches_at_checks_one_position() {
    let t = chars_of("hello");
    assert!(matches_at(&t, &chars_of("ell"), 1));
    assert!(!matches_at(&t, &chars_of("ell"), 0));
    assert!(matches_at(&t, &chars_of(""), 5));
    assert!(!matches_at(&t, &chars_of(""), 6));
    assert!(!matches_at(&t, &chars_of("lo!"), 3));
    assert!(!matches_at(&t, &chars_of("hello!"), 0));
}

#[test]
fn prefix_and_suffix() {
    let t = chars_of("test_a.py");
    assert!(starts_with(&t, &chars_of("test_")));
    assert!(starts_with(&t, &chars_of("")));
    assert!(!starts_with(&t, &chars_of("est")));
    assert!(ends_with(&t, &chars_of(".py")));
    assert!(ends_with(&t, &chars_of("")));
    assert!(!ends_with(&t, &chars_of(".p")));
    assert!(!ends_with(&chars_of("py"), &chars_of(".py")));
}

#[test]
fn find_gives_the_first_position_from_the_start_given() {
    let t = chars_of("abcabc");
    assert_eq!(find_from(&t, &chars_of("bc"), 0), Some(1));
    assert_eq!(find_from(&t, &chars_of("bc"), 1), Some(1));
    assert_eq!(find_from(&t, &chars_of("bc"), 2), Some(4));
    assert_eq!(find_from(&t, &chars_of("bc"), 5), None);
    assert_eq!(find_from(&t, &chars_of("x"), 0), None);
    assert_eq!(find_from(&t, &chars_of(""), 3), Some(3));
    assert_eq!(find_from(&t, &chars_of(""), 6), Some(6));
    assert_eq!(find_from(&t, &chars_of(""), 7), None);
    assert_eq!(find_from(&t, &chars_of("abcabcd"), 0), None);
}

#[test]
fn contains_is_substring() {
    assert!(contains_text(&chars_of("test_slowest"), &chars_of("slow")));
    assert!(contains_text(&chars_of("abc"), &chars_of("")));
    assert!(contains_text(&chars_of(""), &chars_of("")));
    assert!(!contains_text(&chars_of("abc"), &chars_of("abcd")));
    assert!(!contains_text(&chars_of("abc"), &chars_of("ca")));
}

#[test]
fn split_cuts_at_every_separator() {
    assert_eq!(pieces("a and b", " and "), vec!["a", "b"]);
    assert_eq!(pieces("a and b and c", " and "), vec!["a", "b", "c"]);
    assert_eq!(pieces("abc", " and "), vec!["abc"]);
    assert_eq!(pieces("", " and "), vec![""]);
    assert_eq!(pieces(" and ", " and "), vec!["", ""]);
    assert_eq!(pieces("a and  and b", " and "), vec!["a", "", "b"]);
    assert_eq!(pieces("a*b**c", "*"), vec!["a", "b", "", "c"]);
    assert_eq!(pieces("*", "*"), vec!["", ""]);
}

#[test]
fn split_takes_separators_from_the_left_without_overlap() {
    assert_eq!(pieces("aaa", "aa"), vec!["", "a"]);
    assert_eq!(pieces("x and and y", " and "), vec!["x", "and y"]);
}

#[test]
fn split_on_the_empty_separator_splits_nothing() {
    assert_eq!(pieces("abc", ""), vec!["abc"]);
}

#[test]
fn trim_removes_white_space_at_both_ends() {
    assert_eq!(trimmed("  a b  "), "a b");
    assert_eq!(trimmed("\t\r\na\u{a0}\u{3000}"), "a");
    assert_eq!(trimmed("   "), "");
    assert_eq!(trimmed(""), "");
    assert_eq!(trimmed("a"), "a");
    assert_eq!(trimmed("\u{200b}a"), "\u{200b}a");
}

#[test]
fn white_space_is_what_the_standard_library_takes_for_it() {
    let mut code: u32 = 0;
    while code <= 0x10ffff {
        if let Some(c) = char::from_u32(code) {
            assert_eq!(is_space_char(c), c.is_whitespace());
        }
        code += 1;
    }
}

#[test]
fn line_of_offset_counts_line_feeds_before_the_offset() {
    let source = "a\nbc\n\nd".as_bytes();
    assert_eq!(line_of_offset(source, 0), 1);
    assert_eq!(line_of_offset(source, 1), 1);
    assert_eq!(line_of_offset(source, 2), 2);
    assert_eq!(line_of_offset(source, 4), 2);
    assert_eq!(line_of_offset(source, 5), 3);
    assert_eq!(line_of_offset(source, 6), 4);
    assert_eq!(line_of_offset(source, 7), 4);
    assert_eq!(line_of_offset(source, 700), 4);
    assert_eq!(line_of_offset("".as_bytes(), 0), 1);
    assert_eq!(line_of_offset("".as_bytes(), 9), 1);
    assert_eq!(line_of_offset("x\r\ny".as_bytes(), 3), 2);
    assert_eq!(line_of_offset("x\r\ny".as_bytes(), 2), 1);
    assert_eq!(line_of_offset("x\ry\r\rz".as_bytes(), 2), 2);
    assert_eq!(line_of_offset("x\ry\r\rz".as_bytes(), 5), 4);
    assert_eq!(line_of_offset("x\n\ry".as_bytes(), 3), 3);
}

#[test]
fn file_stem_is_the_name_without_directory_and_extension() {
    assert_eq!(file_stem("a/b/test_x.py"), Some("test_x"));
    assert_eq!(file_stem("test_x.py"), Some("test_x"));
    assert_eq!(file_stem("/abs/noext"), Some("noext"));
    assert_eq!(file_stem("archive.tar.gz"), Some("archive.tar"));
    assert_eq!(file_stem("dir.d/name"), Some("name"));
    assert_eq!(file_stem("a/.hidden"), Some(".hidden"));
    assert_eq!(file_stem("a/.hidden.py"), Some(".hidden"));
    assert_eq!(file_stem("a/name."), Some("name"));
    assert_eq!(file_stem("a/."), Some("."));
    assert_eq!(file_stem("C:\\proj\\tests\\test_x.py"), Some("test_x"));
    assert_eq!(file_stem("a\\b/c.d\\e.f.g"), Some("e.f"));
    assert_eq!(file_stem("a/b\\c"), Some("c"));
}

#[test]
fn file_stem_of_no_file() {
    assert_eq!(file_stem(""), None);
    assert_eq!(file_stem("dir/"), None);
    assert_eq!(file_stem("/"), None);
    assert_eq!(file_stem(".."), None);
    assert_eq!(file_stem("a/.."), None);
    assert_eq!(file_stem("a\\.."), None);
    assert_eq!(file_stem("dir\\"), None);
}

#[test]
fn kinds_have_their_labels() {
    assert_eq!(TestItemType::Function.label(), "Function");
    assert_eq!(TestItemType::Class.label(), "Class");
    assert_eq!(TestItemType::Method.label(), "Method");
}
