//! Wildcard matching of names against patterns in which `*` stands for any
//! run of characters.
//!
//! A pattern is cut at its stars into literal segments. The first segment
//! must begin the text and the last must end it; the segments between them
//! are searched for from left to right, each at its first occurrence after
//! the one before. Nothing is ever retried, so this is simpler than shell
//! globbing, and a star cannot be escaped.
use crate::text::{
    ends_with, find, find_from, first_at, has_prefix, has_suffix, lemma_find_none, lemma_find_some,
    lemma_found_is_first, matches_at, occurs_at, split, split_text, starts_with, views,
};
use vstd::prelude::*;

verus! {

/// The wildcard, as a separator.
pub open spec fn star() -> Seq<char> {
    seq!['*']
}

/// Whether the segments from the `i`-th on match `text`, given that the
/// segments before them were matched up to `cursor`.
pub open spec fn segments_match(text: Seq<char>, segs: Seq<Seq<char>>, i: int, cursor: int) -> bool
    decreases segs.len() - i,
{
    if i < 0 || i >= segs.len() {
        true
    } else if segs[i].len() == 0 {
        segments_match(text, segs, i + 1, cursor)
    } else if i == 0 {
        has_prefix(text, segs[0]) && segments_match(text, segs, 1, segs[0].len() as int)
    } else if i == segs.len() - 1 {
        has_suffix(text, segs[i]) && cursor <= text.len() - segs[i].len()
    } else {
        match find(text, segs[i], cursor) {
            Some(at) => segments_match(text, segs, i + 1, at + segs[i].len()),
            None => false,
        }
    }
}

/// Whether `text` matches `pattern`. A pattern without a star matches only
/// itself.
pub open spec fn wildcard_matches(text: Seq<char>, pattern: Seq<char>) -> bool {
    let segs = split(pattern, star());
    if segs.len() == 1 {
        text == pattern
    } else {
        segments_match(text, segs, 0, 0)
    }
}

/// No star stands in `text`.
pub open spec fn star_free(text: Seq<char>) -> bool {
    forall|k: int| 0 <= k < text.len() ==> text[k] != '*'
}

/// A text without a star is a single segment.
pub proof fn lemma_split_star_free(text: Seq<char>)
    requires
        star_free(text),
    ensures
        split(text, star()) == seq![text],
{
    assert forall|k: int| 0 <= k implies !occurs_at(text, star(), k) by {
        if occurs_at(text, star(), k) {
            assert(text.subrange(k, k + 1)[0] == text[k]);
            assert(star()[0] == '*');
        }
    }
    lemma_find_none(text, star(), 0);
}

/// A pattern without a star matches the text that is equal to it, and no
/// other.
pub proof fn lemma_star_free_pattern_matches_itself(text: Seq<char>, pattern: Seq<char>)
    requires
        star_free(pattern),
    ensures
        wildcard_matches(text, pattern) <==> text == pattern,
{
    lemma_split_star_free(pattern);
}

/// The pattern `*` matches every text.
pub proof fn lemma_lone_star_matches_all(text: Seq<char>)
    ensures
        wildcard_matches(text, star()),
{
    let none = Seq::<char>::empty();
    assert(none + star() + none =~= star());
    lemma_one_star_matches(text, none, none);
    assert(text.subrange(0, 0) =~= none);
    assert(text.subrange(text.len() as int, text.len() as int) =~= none);
}

/// A pattern with one star has the text before the star and the text after
/// it as its two segments.
pub proof fn lemma_split_one_star(before: Seq<char>, after: Seq<char>)
    requires
        star_free(before),
        star_free(after),
    ensures
        split(before + star() + after, star()) == seq![before, after],
{
    let pattern = before + star() + after;
    let at = before.len() as int;
    assert(pattern.subrange(at, at + 1) =~= star());
    assert forall|k: int| 0 <= k < at implies !occurs_at(pattern, star(), k) by {
        if occurs_at(pattern, star(), k) {
            assert(pattern.subrange(k, k + 1)[0] == pattern[k]);
            assert(pattern[k] == before[k]);
            assert(star()[0] == '*');
        }
    }
    assert(first_at(pattern, star(), 0, at));
    lemma_find_some(pattern, star(), 0, at);
    assert(pattern.take(at) =~= before);
    assert(pattern.skip(at + 1) =~= after);
    lemma_split_star_free(after);
    assert(seq![before] + seq![after] =~= seq![before, after]);
}

/// A pattern of the form `before*after` matches exactly the texts that begin
/// with `before`, end with `after` and are long enough to hold both side by
/// side.
pub proof fn lemma_one_star_matches(text: Seq<char>, before: Seq<char>, after: Seq<char>)
    requires
        star_free(before),
        star_free(after),
    ensures
        wildcard_matches(text, before + star() + after) <==> (has_prefix(text, before)
            && has_suffix(text, after) && before.len() + after.len() <= text.len()),
{
    lemma_split_one_star(before, after);
    let segs = seq![before, after];
    assert(segs.len() == 2);
    assert(segs[0] == before);
    assert(segs[1] == after);
    reveal_with_fuel(segments_match, 3);
    if before.len() == 0 {
        assert(text.subrange(0, 0) =~= before);
    }
    if after.len() == 0 {
        assert(text.subrange(text.len() as int, text.len() as int) =~= after);
    }
}

/// A name matches `test_*.py` exactly when it begins with `test_` and ends
/// with `.py`.
pub proof fn lemma_test_prefix_pattern(name: Seq<char>)
    ensures
        wildcard_matches(name, "test_*.py"@) <==> (has_prefix(name, "test_"@) && has_suffix(
            name,
            ".py"@,
        )),
{
    reveal_strlit("test_*.py");
    reveal_strlit("test_");
    reveal_strlit(".py");
    let before = "test_"@;
    let after = ".py"@;
    assert("test_*.py"@ =~= before + star() + after);
    lemma_one_star_matches(name, before, after);
    if has_prefix(name, before) && has_suffix(name, after) && name.len() < 8 {
        let at = name.len() - 3;
        assert(name.subrange(0, 5)[at] == name[at]);
        assert(name.subrange(at, at + 3)[0] == name[at]);
        assert(before[2] == 's' && before[3] == 't' && before[4] == '_');
        assert(after[0] == '.');
    }
}

/// A name matches `*_test.py` exactly when it ends with `_test.py`.
pub proof fn lemma_test_suffix_pattern(name: Seq<char>)
    ensures
        wildcard_matches(name, "*_test.py"@) <==> has_suffix(name, "_test.py"@),
{
    reveal_strlit("*_test.py");
    reveal_strlit("_test.py");
    let before = Seq::<char>::empty();
    let after = "_test.py"@;
    assert("*_test.py"@ =~= before + star() + after);
    lemma_one_star_matches(name, before, after);
    assert(name.subrange(0, 0) =~= before);
}

/// Whether `text` matches `pattern`, in which each `*` stands for any run of
/// characters.
pub fn wildcard_match(text: &[char], pattern: &[char]) -> (hit: bool)
    ensures
        hit == wildcard_matches(text@, pattern@),
{
    let sep: [char; 1] = ['*'];
    assert(sep@ =~= star());
    let segs = split_text(pattern, sep.as_slice());
    let ghost parts = views(segs@);
    if segs.len() == 1 {
        return slices_equal(text, pattern);
    }
    let mut cursor: usize = 0;
    let mut i: usize = 0;
    while i < segs.len()
        invariant
            i <= segs.len(),
            cursor <= text.len(),
            parts == views(segs@),
            parts == split(pattern@, star()),
            parts.len() != 1,
            segments_match(text@, parts, 0, 0) == segments_match(text@, parts, i as int, cursor as int),
        decreases segs.len() - i,
    {
        let seg: &[char] = segs[i];
        assert(parts[i as int] == seg@);
        if seg.len() == 0 {
        } else if i == 0 {
            if !starts_with(text, seg) {
                return false;
            }
            cursor = seg.len();
        } else if i == segs.len() - 1 {
            if !ends_with(text, seg) {
                return false;
            }
            if cursor > text.len() - seg.len() {
                return false;
            }
        } else {
            match find_from(text, seg, cursor) {
                Some(at) => {
                    proof {
                        lemma_found_is_first(text@, seg@, cursor as int);
                    }
                    cursor = at + seg.len();
                },
                None => {
                    return false;
                },
            }
        }
        i = i + 1;
    }
    true
}

/// Whether two texts are the same.
pub fn slices_equal(a: &[char], b: &[char]) -> (same: bool)
    ensures
        same == (a@ == b@),
{
    if a.len() != b.len() {
        return false;
    }
    let hit = matches_at(a, b, 0);
    proof {
        assert(a@.subrange(0, a@.len() as int) =~= a@);
    }
    hit
}

} // verus!
