//! Selection of test items by keyword and by marker.
//!
//! An expression is read as text, not as a grammar. After it has been put
//! in lower case and trimmed: if ` and ` occurs in it, it is cut at every
//! ` and ` and all the pieces must hold; else, if ` or ` occurs in it, it is
//! cut at every ` or ` and one of the pieces must hold; else, if it begins
//! with `not `, the rest must not hold as a word; else it is a word. Each
//! piece is read in the same way. There are no brackets and no quoting, and
//! a word that contains one of the three operators is read as an operator.
//!
//! A keyword holds of an item if it occurs in the item's search text: the
//! name, the class name and the stem of the file name, in lower case, with
//! a space between them. A marker holds of an item if it is one of the
//! item's markers in lower case.
use crate::item::{TestItem, TestItemView};
use crate::matcher::slices_equal;
use crate::path::{file_stem, file_stem_of};
use crate::text::{
    chars_of, contains, contains_text, has_prefix, lemma_split_lengths, lemma_trimmed_len, lowercase_of, split, split_text, starts_with, trim, trimmed, views,
};
use vstd::prelude::*;
use vstd::slice::slice_subrange;
use vstd::string::StringExecFns;

verus! {

/// The word that joins the parts of a conjunction.
pub open spec fn and_word() -> Seq<char> {
    seq![' ', 'a', 'n', 'd', ' ']
}

/// The word that joins the parts of a disjunction.
pub open spec fn or_word() -> Seq<char> {
    seq![' ', 'o', 'r', ' ']
}

/// The word that negates.
pub open spec fn not_word() -> Seq<char> {
    seq!['n', 'o', 't', ' ']
}

/// What an expression is evaluated against.
pub enum Subject {
    /// A text, in which a word holds if it occurs.
    Text(Seq<char>),
    /// A set of markers, in which a word holds if it is a member.
    Markers(Set<Seq<char>>),
}

/// Whether a single word holds.
pub open spec fn word_holds(word: Seq<char>, subject: Subject) -> bool {
    match subject {
        Subject::Text(text) => contains(text, word),
        Subject::Markers(markers) => markers.contains(word),
    }
}

/// Whether an expression in lower case holds.
pub open spec fn holds(expr: Seq<char>, subject: Subject) -> bool
    decreases expr.len(),
    via holds_decreases
{
    let e = trimmed(expr);
    if contains(e, and_word()) {
        forall|i: int|
            0 <= i < split(e, and_word()).len() ==> holds(
                #[trigger] split(e, and_word())[i],
                subject,
            )
    } else if contains(e, or_word()) {
        exists|i: int|
            0 <= i < split(e, or_word()).len() && holds(
                #[trigger] split(e, or_word())[i],
                subject,
            )
    } else if has_prefix(e, not_word()) {
        !word_holds(trimmed(e.skip(4)), subject)
    } else {
        word_holds(e, subject)
    }
}

#[via_fn]
proof fn holds_decreases(expr: Seq<char>, subject: Subject) {
    let e = trimmed(expr);
    lemma_trimmed_len(expr);
    lemma_split_lengths(e, and_word());
    lemma_split_lengths(e, or_word());
}

/// The texts of a list of markers.
pub open spec fn texts(markers: Seq<Vec<char>>) -> Seq<Seq<char>> {
    markers.map_values(|m: Vec<char>| m@)
}

/// What an expression is evaluated against, at run time.
pub enum Haystack<'a> {
    /// A text.
    Text(&'a [char]),
    /// A list of markers.
    Markers(&'a Vec<Vec<char>>),
}

impl<'a> View for Haystack<'a> {
    type V = Subject;

    open spec fn view(&self) -> Subject {
        match self {
            Haystack::Text(text) => Subject::Text(text@),
            Haystack::Markers(markers) => Subject::Markers(texts(markers@).to_set()),
        }
    }
}

/// The search text of an item: its name, the name of its class if it has
/// one, and the stem of its file name if the path names a file; each in
/// lower case, with one space between them.
pub open spec fn search_text(item: TestItemView) -> Seq<char> {
    let name = lowercase_of(item.name);
    let named = match item.class_name {
        Some(class) => name + seq![' '] + lowercase_of(class),
        None => name,
    };
    match file_stem_of(item.file_path) {
        Some(stem) => named + seq![' '] + lowercase_of(stem),
        None => named,
    }
}

/// The markers of an item in lower case.
pub open spec fn lowered_markers(item: TestItemView) -> Seq<Seq<char>> {
    item.markers.map_values(|m: Seq<char>| lowercase_of(m))
}

/// The markers of an item in lower case, as a set.
pub open spec fn marker_set(item: TestItemView) -> Set<Seq<char>> {
    lowered_markers(item).to_set()
}

/// Whether a single word holds.
pub fn word_found(word: &[char], haystack: &Haystack) -> (yes: bool)
    ensures
        yes == word_holds(word@, haystack@),
{
    match haystack {
        Haystack::Text(text) => contains_text(text, word),
        Haystack::Markers(markers) => {
            let mut i: usize = 0;
            while i < markers.len()
                invariant
                    i <= markers.len(),
                    haystack@ == Subject::Markers(texts(markers@).to_set()),
                    forall|k: int| 0 <= k < i ==> markers@[k]@ != word@,
                decreases markers.len() - i,
            {
                if slices_equal(markers[i].as_slice(), word) {
                    assert(texts(markers@)[i as int] == word@);
                    assert(texts(markers@).contains(word@));
                    return true;
                }
                i = i + 1;
            }
            proof {
                if texts(markers@).contains(word@) {
                    let k = choose|k: int|
                        0 <= k < texts(markers@).len() && texts(markers@)[k] == word@;
                    assert(markers@[k]@ == word@);
                }
            }
            false
        },
    }
}

/// Whether an expression in lower case holds.
pub fn evaluate(expr: &[char], haystack: &Haystack) -> (yes: bool)
    ensures
        yes == holds(expr@, haystack@),
    decreases expr@.len(),
{
    let e = trim(expr);
    let and_chars: [char; 5] = [' ', 'a', 'n', 'd', ' '];
    let or_chars: [char; 4] = [' ', 'o', 'r', ' '];
    let not_chars: [char; 4] = ['n', 'o', 't', ' '];
    proof {
        assert(and_chars@ =~= and_word());
        assert(or_chars@ =~= or_word());
        assert(not_chars@ =~= not_word());
        lemma_trimmed_len(expr@);
        lemma_split_lengths(e@, and_word());
        lemma_split_lengths(e@, or_word());
    }
    if contains_text(e, and_chars.as_slice()) {
        let parts = split_text(e, and_chars.as_slice());
        let ghost pieces = split(e@, and_word());
        let mut i: usize = 0;
        while i < parts.len()
            invariant
                i <= parts.len(),
                e@ == trimmed(expr@),
                contains(e@, and_word()),
                pieces == split(e@, and_word()),
                views(parts@) == pieces,
                forall|k: int| 0 <= k < pieces.len() ==> (#[trigger] pieces[k]).len() < expr@.len(),
                forall|k: int| 0 <= k < i ==> holds(#[trigger] pieces[k], haystack@),
            decreases parts.len() - i,
        {
            assert(pieces[i as int] == parts@[i as int]@);
            if !evaluate(parts[i], haystack) {
                assert(!holds(pieces[i as int], haystack@));
                return false;
            }
            i = i + 1;
        }
        true
    } else if contains_text(e, or_chars.as_slice()) {
        let parts = split_text(e, or_chars.as_slice());
        let ghost pieces = split(e@, or_word());
        let mut i: usize = 0;
        while i < parts.len()
            invariant
                i <= parts.len(),
                e@ == trimmed(expr@),
                !contains(e@, and_word()),
                contains(e@, or_word()),
                pieces == split(e@, or_word()),
                views(parts@) == pieces,
                forall|k: int| 0 <= k < pieces.len() ==> (#[trigger] pieces[k]).len() < expr@.len(),
                forall|k: int| 0 <= k < i ==> !holds(#[trigger] pieces[k], haystack@),
            decreases parts.len() - i,
        {
            assert(pieces[i as int] == parts@[i as int]@);
            if evaluate(parts[i], haystack) {
                assert(holds(pieces[i as int], haystack@));
                return true;
            }
            i = i + 1;
        }
        false
    } else if starts_with(e, not_chars.as_slice()) {
        let rest = trim(slice_subrange(e, 4, e.len()));
        assert(e@.subrange(4, e@.len() as int) =~= e@.skip(4));
        !word_found(rest, haystack)
    } else {
        word_found(e, haystack)
    }
}

/// A filter on test items: a keyword expression, a marker expression, both
/// or neither.
#[derive(Debug)]
pub struct TestFilter {
    pub keyword_expr: Option<String>,
    pub marker_expr: Option<String>,
}

impl TestFilter {
    /// Whether the filter lets an item through: whether each expression
    /// that the filter has holds of the item.
    pub open spec fn accepts(self, item: TestItemView) -> bool {
        &&& match self.keyword_expr {
            Some(expr) => holds(lowercase_of(expr@), Subject::Text(search_text(item))),
            None => true,
        }
        &&& match self.marker_expr {
            Some(expr) => holds(lowercase_of(expr@), Subject::Markers(marker_set(item))),
            None => true,
        }
    }

    /// A filter with the given expressions.
    pub fn new(keyword_expr: Option<String>, marker_expr: Option<String>) -> (filter: Self)
        ensures
            filter.keyword_expr == keyword_expr,
            filter.marker_expr == marker_expr,
    {
        TestFilter { keyword_expr, marker_expr }
    }

    /// Whether the filter lets `item` through. A filter without expressions
    /// lets everything through.
    pub fn matches(&self, item: &TestItem) -> (yes: bool)
        ensures
            yes == self.accepts(item@),
    {
        match &self.keyword_expr {
            Some(expr) => {
                if !self.matches_keyword(item, expr.as_str()) {
                    return false;
                }
            },
            None => {},
        }
        match &self.marker_expr {
            Some(expr) => {
                if !self.matches_marker(item, expr.as_str()) {
                    return false;
                }
            },
            None => {},
        }
        true
    }

    /// Whether the keyword expression `expr` holds of `item`.
    pub fn matches_keyword(&self, item: &TestItem, expr: &str) -> (yes: bool)
        ensures
            yes == holds(lowercase_of(expr@), Subject::Text(search_text(item@))),
    {
        proof {
            reveal_strlit(" ");
            assert(" "@ =~= seq![' ']);
        }
        let mut text = item.name.as_str().to_lowercase();
        match &item.class_name {
            Some(class) => {
                let lower = class.as_str().to_lowercase();
                text.append(" ");
                text.append(lower.as_str());
            },
            None => {},
        }
        match file_stem(item.file_path.as_str()) {
            Some(stem) => {
                let lower = stem.to_lowercase();
                text.append(" ");
                text.append(lower.as_str());
            },
            None => {},
        }
        self.evaluate_expression(expr, text.as_str())
    }

    /// Whether the marker expression `expr` holds of `item`.
    pub fn matches_marker(&self, item: &TestItem, expr: &str) -> (yes: bool)
        ensures
            yes == holds(lowercase_of(expr@), Subject::Markers(marker_set(item@))),
    {
        let mut lowered: Vec<String> = Vec::new();
        let mut i: usize = 0;
        while i < item.markers.len()
            invariant
                i <= item.markers.len(),
                lowered.len() == i,
                forall|k: int| 0 <= k < i ==> lowered@[k]@ == lowercase_of(item.markers@[k]@),
            decreases item.markers.len() - i,
        {
            lowered.push(item.markers[i].as_str().to_lowercase());
            i = i + 1;
        }
        assert(lowered.deep_view() =~= lowered_markers(item@));
        self.evaluate_marker_expression(expr, &lowered)
    }

    /// Whether the keyword expression `expr` holds of `search_text`.
    pub fn evaluate_expression(&self, expr: &str, search_text: &str) -> (yes: bool)
        ensures
            yes == holds(lowercase_of(expr@), Subject::Text(search_text@)),
    {
        let lower = expr.to_lowercase();
        let words = chars_of(lower.as_str());
        let text = chars_of(search_text);
        evaluate(words.as_slice(), &Haystack::Text(text.as_slice()))
    }

    /// Whether the marker expression `expr` holds of the set of `markers`.
    pub fn evaluate_marker_expression(&self, expr: &str, markers: &Vec<String>) -> (yes: bool)
        ensures
            yes == holds(lowercase_of(expr@), Subject::Markers(markers.deep_view().to_set())),
    {
        let lower = expr.to_lowercase();
        let words = chars_of(lower.as_str());
        let mut set: Vec<Vec<char>> = Vec::new();
        let mut i: usize = 0;
        while i < markers.len()
            invariant
                i <= markers.len(),
                set.len() == i,
                forall|k: int| 0 <= k < i ==> set@[k]@ == markers@[k]@,
            decreases markers.len() - i,
        {
            set.push(chars_of(markers[i].as_str()));
            i = i + 1;
        }
        assert(texts(set@) =~= markers.deep_view());
        evaluate(words.as_slice(), &Haystack::Markers(&set))
    }
}

} // verus!
