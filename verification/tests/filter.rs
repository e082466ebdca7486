use pytest_fastcollect::filter::{evaluate, Haystack, TestFilter};
use pytest_fastcollect::item::{TestItem, TestItemType};
use pytest_fastcollect::text::chars_of;

fn item(name: &str, class: Option<&str>, path: &str, markers: &[&str]) -> TestItem {
    TestItem {
        file_path: path.to_string(),
        name: name.to_string(),
        line_number: 1,
        item_type: if class.is_some() { TestItemType::Method } else { TestItemType::Function },
        class_name: class.map(|c| c.to_string()),
        markers: markers.iter().map(|m| m.to_string()).collect(),
        parametrize_count: None,
    }
}

fn by_keyword(expr: &str) -> TestFilter {
    TestFilter::new(Some(expr.to_string()), None)
}

fn by_marker(expr: &str) -> TestFilter {
    TestFilter::new(None, Some(expr.to_string()))
}

fn marked(markers: &[&str]) -> TestItem {
    item("test_x", None, "test_x.py", markers)
}

fn in_text(expr: &str, text: &str) -> bool {
    let text = chars_of(text);
    evaluate(&chars_of(expr), &Haystack::Text(&text))
}

fn in_markers(expr: &str, markers: &[&str]) -> bool {
    let markers: Vec<Vec<char>> = markers.iter().map(|m| chars_of(m)).collect();
    evaluate(&chars_of(expr), &Haystack::Markers(&markers))
}

#[test]
fn a_filter_without_expressions_lets_everything_through() {
    let filter = TestFilter::new(None, None);
    assert!(filter.matches(&marked(&[])));
    assert!(filter.matches(&marked(&["slow"])));
    assert!(filter.matches(&item("", None, "", &[])));
}

#[test]
fn slow_and_not_smoke() {
    let filter = by_marker("slow and not smoke");
    assert!(filter.matches(&marked(&["slow"])));
    assert!(!filter.matches(&marked(&["slow", "smoke"])));
    assert!(!filter.matches(&marked(&["smoke"])));
    assert!(!filter.matches(&marked(&[])));
}

#[test]
fn a_single_marker_is_tested_for_membership() {
    let filter = by_marker("slow");
    assert!(filter.matches(&marked(&["slow"])));
    assert!(filter.matches(&marked(&["fast", "slow", "slow"])));
    assert!(!filter.matches(&marked(&["slowest"])));
    assert!(!filter.matches(&marked(&["slo"])));
    assert!(!filter.matches(&marked(&[])));
}

#[test]
fn a_single_keyword_is_tested_as_substring() {
    let filter = by_keyword("slow");
    assert!(filter.matches(&item("test_slowest", None, "a.py", &[])));
    assert!(filter.matches(&item("test_x", Some("TestSlow"), "a.py", &[])));
    assert!(filter.matches(&item("test_x", None, "dir/test_slow_things.py", &[])));
    assert!(!filter.matches(&item("test_x", None, "slow/test_fast.py", &[])));
    assert!(!filter.matches(&item("test_x", None, "a.slow", &[])));
    assert!(!filter.matches(&item("test_x", None, "a.py", &["slow"])));
}

#[test]
fn the_search_text_joins_name_class_and_stem_with_spaces() {
    assert!(by_keyword("test_m testk test_file").matches(&item(
        "test_m",
        Some("TestK"),
        "d/test_file.py",
        &[]
    )));
    assert!(by_keyword("test_f test_file").matches(&item("test_f", None, "d/test_file.py", &[])));
    assert!(!by_keyword("test_f  test_file").matches(&item("test_f", None, "d/test_file.py", &[])));
    assert!(!by_keyword("f d").matches(&item("test_f", None, "d/", &[])));
    assert!(by_keyword("test_f").matches(&item("test_f", None, "d/", &[])));
    assert!(by_keyword("testk").matches(&item("test_m", Some("TestK"), "d/..", &[])));
    assert!(!by_keyword("testk .").matches(&item("test_m", Some("TestK"), "d/..", &[])));
    assert!(by_keyword("testk .x").matches(&item("test_m", Some("TestK"), "d/.x", &[])));
}

#[test]
fn expressions_and_subjects_are_compared_in_lower_case() {
    assert!(by_marker("SLOW").matches(&marked(&["slow"])));
    assert!(by_marker("slow").matches(&marked(&["Slow"])));
    assert!(by_marker("Slow AND NOT Smoke").matches(&marked(&["SLOW"])));
    assert!(!by_marker("Slow AND NOT Smoke").matches(&marked(&["SLOW", "SMOKE"])));
    assert!(by_keyword("FOO").matches(&item("test_Foo", None, "a.py", &[])));
    assert!(by_keyword("testk").matches(&item("test_m", Some("TestK"), "a.py", &[])));
    assert!(by_keyword("mod").matches(&item("test_m", None, "Test_MOD.py", &[])));
    assert!(by_keyword("\u{c9}T\u{c9}").matches(&item("test_\u{e9}t\u{e9}", None, "a.py", &[])));
}

#[test]
fn expressions_are_trimmed() {
    assert!(by_marker("  slow  ").matches(&marked(&["slow"])));
    assert!(by_marker("slow and   fast ").matches(&marked(&["slow", "fast"])));
    assert!(by_marker("not    smoke").matches(&marked(&["slow"])));
    assert!(!by_marker("not    smoke").matches(&marked(&["smoke"])));
    assert!(by_keyword("\tfoo\n").matches(&item("test_foo", None, "a.py", &[])));
}

#[test]
fn or_needs_one_part() {
    let filter = by_marker("slow or fast");
    assert!(filter.matches(&marked(&["slow"])));
    assert!(filter.matches(&marked(&["fast"])));
    assert!(filter.matches(&marked(&["slow", "fast"])));
    assert!(!filter.matches(&marked(&["other"])));
    assert!(by_marker("a or b or c").matches(&marked(&["c"])));
    assert!(by_marker("a or not b").matches(&marked(&[])));
    assert!(!by_marker("a or not b").matches(&marked(&["b"])));
}

#[test]
fn and_needs_every_part() {
    let filter = by_marker("slow and fast and big");
    assert!(filter.matches(&marked(&["big", "slow", "fast"])));
    assert!(!filter.matches(&marked(&["slow", "fast"])));
    assert!(!filter.matches(&marked(&[])));
}

#[test]
fn and_is_cut_before_or() {
    // read as: slow and (fast or smoke)
    let filter = by_marker("slow and fast or smoke");
    assert!(filter.matches(&marked(&["slow", "smoke"])));
    assert!(filter.matches(&marked(&["slow", "fast"])));
    assert!(!filter.matches(&marked(&["fast", "smoke"])));
    assert!(!filter.matches(&marked(&["smoke"])));
    // read as: (slow or fast) and smoke
    let filter = by_marker("slow or fast and smoke");
    assert!(filter.matches(&marked(&["fast", "smoke"])));
    assert!(!filter.matches(&marked(&["slow"])));
}

#[test]
fn and_is_cut_before_a_leading_not() {
    // read as: (not slow) and smoke
    let filter = by_marker("not slow and smoke");
    assert!(filter.matches(&marked(&["smoke"])));
    assert!(!filter.matches(&marked(&["slow", "smoke"])));
    assert!(!filter.matches(&marked(&[])));
    // read as: (not slow) or smoke
    let filter = by_marker("not slow or smoke");
    assert!(filter.matches(&marked(&[])));
    assert!(filter.matches(&marked(&["slow", "smoke"])));
    assert!(!filter.matches(&marked(&["slow"])));
}

#[test]
fn not_negates_a_word_and_nothing_more() {
    // the rest after the first "not " is the word "not a"
    assert!(in_markers("not not a", &[]));
    assert!(in_markers("not not a", &["a"]));
    assert!(!in_markers("not not a", &["not a"]));
    assert!(in_text("not b", "a"));
    assert!(!in_text("not a", "banana"));
    // "not" alone, or without the space, is a word
    assert!(in_text("not", "knot"));
    assert!(in_markers("nota", &["nota"]));
    assert!(!in_markers("not", &[]));
}

#[test]
fn there_are_no_brackets() {
    assert!(!in_markers("(a or b) and c", &["a", "c"]));
    assert!(in_markers("(a or b) and c", &["b)", "c"]));
    assert!(in_markers("(a or b) and c", &["(a", "c"]));
}

#[test]
fn operators_need_their_spaces() {
    assert!(in_markers("a and", &["a and"]));
    assert!(!in_markers("a and", &["a"]));
    assert!(in_markers("and b", &["and b"]));
    assert!(in_markers("aandb", &["aandb"]));
    assert!(in_text("a or", "a or b"));
    assert!(!in_text("a or", "a"));
}

#[test]
fn empty_words() {
    // the empty word occurs in every text and is no marker
    assert!(in_text("", "abc"));
    assert!(in_text("", ""));
    assert!(!in_markers("", &["a"]));
    assert!(in_markers("", &[""]));
    assert!(in_text("a and  and b", "ab"));
    assert!(!in_markers("a and  and b", &["a", "b"]));
    // trimmed first, "not " is the word "not"
    assert!(!in_text("not ", "abc"));
    assert!(in_text("not ", "knot"));
    assert!(!in_markers("not ", &["a"]));
    assert!(in_markers("not ", &["not"]));
    // "a and not " has the parts "a" and "not "
    assert!(!in_markers("a and not ", &["a"]));
    assert!(in_markers("a and not ", &["a", "not"]));
}

#[test]
fn both_expressions_must_hold() {
    let filter = TestFilter::new(Some("login".to_string()), Some("slow".to_string()));
    assert!(filter.matches(&item("test_login", None, "a.py", &["slow"])));
    assert!(!filter.matches(&item("test_login", None, "a.py", &["fast"])));
    assert!(!filter.matches(&item("test_logout", None, "a.py", &["slow"])));
    assert!(!filter.matches(&item("test_logout", None, "a.py", &[])));
}

#[test]
fn the_parts_of_a_filter_are_kept() {
    let filter = TestFilter::new(Some("k".to_string()), None);
    assert_eq!(filter.keyword_expr, Some("k".to_string()));
    assert_eq!(filter.marker_expr, None);
}

#[test]
fn expressions_are_evaluated_against_given_subjects() {
    let filter = TestFilter::new(None, None);
    assert!(filter.evaluate_expression("Foo and not BAR", "a foo b"));
    assert!(!filter.evaluate_expression("Foo and not BAR", "a foo bar"));
    assert!(filter.evaluate_expression("x or FOO", "a foo bar"));
    let markers = vec!["slow".to_string(), "net".to_string()];
    assert!(filter.evaluate_marker_expression("SLOW and net", &markers));
    assert!(!filter.evaluate_marker_expression("slow and not net", &markers));
    assert!(!filter.evaluate_marker_expression("slo", &markers));
    let upper = vec!["SLOW".to_string()];
    assert!(!filter.evaluate_marker_expression("slow", &upper));
    let it = item("test_A", Some("TestB"), "x/test_C.py", &["M"]);
    assert!(filter.matches_keyword(&it, "test_a testb test_c"));
    assert!(filter.matches_marker(&it, "m"));
    assert!(!filter.matches_marker(&it, "test_a"));
}
