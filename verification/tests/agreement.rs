//! The library's text functions, held against the same rules written with
//! the string functions of the standard library, on all small inputs.
use pytest_fastcollect::filter::{evaluate, Haystack, TestFilter};
use pytest_fastcollect::item::{TestItem, TestItemType};
use pytest_fastcollect::matcher::wildcard_match;
use pytest_fastcollect::path::file_stem;
use pytest_fastcollect::text::{
    chars_of, contains_text, ends_with, find_from, split_text, starts_with, trim,
};
use std::path::Path;

/// All sequences of at most `max` of the given pieces, joined.
fn joined(pieces: &[&str], max: usize) -> Vec<String> {
    let mut all = vec![String::new()];
    let mut last = vec![String::new()];
    for _ in 0..max {
        let mut next = Vec::new();
        for text in &last {
            for piece in pieces {
                next.push(format!("{}{}", text, piece));
            }
        }
        all.extend(next.iter().cloned());
        last = next;
    }
    all.sort();
    all.dedup();
    all
}

fn text(chars: &[char]) -> String {
    chars.iter().collect()
}

/// The position in bytes of the character at `at`.
fn byte_position(s: &str, at: usize) -> usize {
    s.char_indices().map(|(b, _)| b).chain([s.len()]).nth(at).unwrap()
}

/// The position in characters of the byte at `at`.
fn char_position(s: &str, at: usize) -> usize {
    s[..at].chars().count()
}

fn wildcard_on_str(text: &str, pattern: &str) -> bool {
    let parts: Vec<&str> = pattern.split('*').collect();
    if parts.len() == 1 {
        return text == pattern;
    }
    let mut cursor = 0;
    for (i, part) in parts.iter().enumerate() {
        if part.is_empty() {
            continue;
        }
        if i == 0 {
            if !text.starts_with(part) {
                return false;
            }
            cursor = part.len();
        } else if i == parts.len() - 1 {
            if !text.ends_with(part) {
                return false;
            }
            if cursor > text.len() - part.len() {
                return false;
            }
        } else {
            match text[cursor..].find(part) {
                Some(at) => cursor += at + part.len(),
                None => return false,
            }
        }
    }
    true
}

fn holds_on_str(expr: &str, word_holds: &dyn Fn(&str) -> bool) -> bool {
    let e = expr.trim();
    if e.contains(" and ") {
        e.split(" and ").all(|part| holds_on_str(part, word_holds))
    } else if e.contains(" or ") {
        e.split(" or ").any(|part| holds_on_str(part, word_holds))
    } else if let Some(rest) = e.strip_prefix("not ") {
        !word_holds(rest.trim())
    } else {
        word_holds(e)
    }
}

#[test]
fn wildcard_matching_agrees_on_all_small_inputs() {
    let texts = joined(&["a", "b", "\u{e9}"], 5);
    let patterns = joined(&["a", "b", "\u{e9}", "*"], 4);
    for t in &texts {
        let t_chars = chars_of(t);
        for p in &patterns {
            assert_eq!(
                wildcard_match(&t_chars, &chars_of(p)),
                wildcard_on_str(t, p),
                "text {:?}, pattern {:?}",
                t,
                p
            );
        }
    }
}

#[test]
fn wildcard_matching_agrees_on_longer_patterns() {
    let texts = joined(&["ab", "a", "ba", "b"], 4);
    let patterns = joined(&["ab", "*", "a", "b*b"], 4);
    for t in &texts {
        let t_chars = chars_of(t);
        for p in &patterns {
            assert_eq!(
                wildcard_match(&t_chars, &chars_of(p)),
                wildcard_on_str(t, p),
                "text {:?}, pattern {:?}",
                t,
                p
            );
        }
    }
}

#[test]
fn search_agrees_on_all_small_inputs() {
    let texts = joined(&["a", "b", "\u{e9}"], 5);
    let patterns = joined(&["a", "b", "\u{e9}"], 3);
    for t in &texts {
        let t_chars = chars_of(t);
        for p in &patterns {
            let p_chars = chars_of(p);
            assert_eq!(starts_with(&t_chars, &p_chars), t.starts_with(p.as_str()));
            assert_eq!(ends_with(&t_chars, &p_chars), t.ends_with(p.as_str()));
            assert_eq!(contains_text(&t_chars, &p_chars), t.contains(p.as_str()));
            for from in 0..=t_chars.len() + 1 {
                let by_std = if from <= t_chars.len() {
                    let start = byte_position(t, from);
                    t[start..].find(p.as_str()).map(|at| char_position(t, start + at))
                } else {
                    None
                };
                assert_eq!(
                    find_from(&t_chars, &p_chars, from),
                    by_std,
                    "text {:?}, pattern {:?}, from {}",
                    t,
                    p,
                    from
                );
            }
        }
    }
}

#[test]
fn splitting_agrees_on_all_small_inputs() {
    let texts = joined(&["a", "*", " and ", "and", " ", "\u{e9}", "aa"], 4);
    for t in &texts {
        let t_chars = chars_of(t);
        for sep in ["*", " and ", "aa", "a", " ", "\u{e9}", " a"] {
            let by_library: Vec<String> =
                split_text(&t_chars, &chars_of(sep)).into_iter().map(text).collect();
            let by_std: Vec<String> = t.split(sep).map(String::from).collect();
            assert_eq!(by_library, by_std, "text {:?}, separator {:?}", t, sep);
        }
    }
}

#[test]
fn trimming_agrees_on_all_small_inputs() {
    let pieces = [" ", "\t", "\n", "\r", "a", "\u{a0}", "\u{3000}", "\u{200b}", "\u{85}", "b c"];
    for t in joined(&pieces, 4) {
        assert_eq!(text(trim(&chars_of(&t))), t.trim(), "text {:?}", t);
    }
}

#[test]
fn evaluation_agrees_on_all_small_expressions() {
    let pieces = ["a", "b", "not ", " and ", " or ", " ", "not", "x"];
    let subject_text = chars_of("xa not");
    let markers: Vec<Vec<char>> = vec![chars_of("a"), chars_of("not"), chars_of("not a")];
    for expr in joined(&pieces, 5) {
        let chars = chars_of(&expr);
        assert_eq!(
            evaluate(&chars, &Haystack::Text(&subject_text)),
            holds_on_str(&expr, &|word| "xa not".contains(word)),
            "keyword expression {:?}",
            expr
        );
        assert_eq!(
            evaluate(&chars, &Haystack::Markers(&markers)),
            holds_on_str(&expr, &|word| ["a", "not", "not a"].contains(&word)),
            "marker expression {:?}",
            expr
        );
    }
}

#[test]
fn filters_agree_on_small_expressions_in_any_case() {
    let item = TestItem {
        file_path: "pkg/Test_File.py".to_string(),
        name: "test_A".to_string(),
        line_number: 1,
        item_type: TestItemType::Method,
        class_name: Some("TestB".to_string()),
        markers: vec!["A".to_string(), "b".to_string()],
        parametrize_count: None,
    };
    let search_text = "test_a testb test_file";
    let pieces = ["A", "b", "NOT ", " and ", " Or ", "c", " or ", "test_", "file"];
    for expr in joined(&pieces, 4) {
        let lower = expr.to_lowercase();
        assert_eq!(
            TestFilter::new(Some(expr.clone()), None).matches(&item),
            holds_on_str(&lower, &|word| search_text.contains(word)),
            "keyword expression {:?}",
            expr
        );
        assert_eq!(
            TestFilter::new(None, Some(expr.clone())).matches(&item),
            holds_on_str(&lower, &|word| ["a", "b"].contains(&word)),
            "marker expression {:?}",
            expr
        );
    }
}

#[test]
fn file_stems_agree_on_plain_paths() {
    let pieces = ["a", ".", "/", "b.py", "..", ".c"];
    for path in joined(&pieces, 4) {
        let name = path.rsplit('/').next().unwrap();
        if name.is_empty() || name == "." {
            // std::path reads past a separator or a dot at the end
            continue;
        }
        if path.contains('/') && cfg_separator_differs() {
            continue;
        }
        let by_std = Path::new(&path).file_stem().map(|s| s.to_string_lossy().to_string());
        assert_eq!(file_stem(&path).map(String::from), by_std, "path {:?}", path);
    }
}

/// Whether `/` is not the separator of this platform's paths.
fn cfg_separator_differs() -> bool {
    std::path::MAIN_SEPARATOR != '/'
}
