//! Text as sequences of characters: occurrences of a pattern, search for the
//! first occurrence, splitting on a separator and trimming of white space.
//!
//! Everything here is stated over `Seq<char>`, the view of `str` and `String`,
//! and computed over slices of `char`.
use vstd::prelude::*;
use vstd::slice::slice_subrange;
use vstd::string::StringSliceAdditionalSpecFns;
use vstd::utf8::encode_utf8_decode_utf8;

verus! {

/// `pat` stands in `text` at position `at`.
pub open spec fn occurs_at(text: Seq<char>, pat: Seq<char>, at: int) -> bool {
    &&& 0 <= at
    &&& at + pat.len() <= text.len()
    &&& text.subrange(at, at + pat.len()) == pat
}

/// `text` begins with `pat`.
pub open spec fn has_prefix(text: Seq<char>, pat: Seq<char>) -> bool {
    occurs_at(text, pat, 0)
}

/// `text` ends with `pat`.
pub open spec fn has_suffix(text: Seq<char>, pat: Seq<char>) -> bool {
    occurs_at(text, pat, text.len() - pat.len())
}

/// `pat` stands somewhere in `text`.
pub open spec fn contains(text: Seq<char>, pat: Seq<char>) -> bool {
    exists|at: int| occurs_at(text, pat, at)
}

/// `at` is the least position not before `from` at which `pat` stands in `text`.
pub open spec fn first_at(text: Seq<char>, pat: Seq<char>, from: int, at: int) -> bool {
    &&& from <= at
    &&& occurs_at(text, pat, at)
    &&& forall|k: int| from <= k < at ==> !occurs_at(text, pat, k)
}

/// The least position not before `from` at which `pat` stands in `text`, if there is one.
pub open spec fn find(text: Seq<char>, pat: Seq<char>, from: int) -> Option<int> {
    if exists|at: int| first_at(text, pat, from, at) {
        Some(choose|at: int| first_at(text, pat, from, at))
    } else {
        None
    }
}

/// The pieces of `text` between the occurrences of `sep`, taken from the left
/// without overlap. A text without the separator is its own single piece, and
/// an empty separator splits nothing.
pub open spec fn split(text: Seq<char>, sep: Seq<char>) -> Seq<Seq<char>>
    decreases text.len(),
{
    match find(text, sep, 0) {
        Some(at) => if sep.len() > 0 && 0 <= at && at + sep.len() <= text.len() {
            seq![text.take(at)] + split(text.skip(at + sep.len()), sep)
        } else {
            seq![text]
        },
        None => seq![text],
    }
}

/// The code points with the Unicode property `White_Space`.
pub open spec fn is_space(c: char) -> bool {
    let u = c as u32;
    ||| 0x09 <= u <= 0x0d
    ||| u == 0x20
    ||| u == 0x85
    ||| u == 0xa0
    ||| u == 0x1680
    ||| 0x2000 <= u <= 0x200a
    ||| u == 0x2028
    ||| u == 0x2029
    ||| u == 0x202f
    ||| u == 0x205f
    ||| u == 0x3000
}

/// `text` without its leading white space.
pub open spec fn trim_start(text: Seq<char>) -> Seq<char>
    decreases text.len(),
{
    if text.len() > 0 && is_space(text.first()) {
        trim_start(text.drop_first())
    } else {
        text
    }
}

/// `text` without its trailing white space.
pub open spec fn trim_end(text: Seq<char>) -> Seq<char>
    decreases text.len(),
{
    if text.len() > 0 && is_space(text.last()) {
        trim_end(text.drop_last())
    } else {
        text
    }
}

/// `text` without its leading and trailing white space.
pub open spec fn trimmed(text: Seq<char>) -> Seq<char> {
    trim_end(trim_start(text))
}

/// The views of a sequence of slices.
pub open spec fn views(parts: Seq<&[char]>) -> Seq<Seq<char>> {
    parts.map_values(|p: &[char]| p@)
}

/// An optional borrowed text as a mathematical value.
pub open spec fn borrowed_view(text: Option<&str>) -> Option<Seq<char>> {
    match text {
        Some(t) => Some(t@),
        None => None,
    }
}

/// A position of the machine as a position of the model.
pub open spec fn position(found: Option<usize>) -> Option<int> {
    match found {
        Some(at) => Some(at as int),
        None => None,
    }
}

/// There is at most one first occurrence, and `find` names it.
pub proof fn lemma_find_some(text: Seq<char>, pat: Seq<char>, from: int, at: int)
    requires
        first_at(text, pat, from, at),
    ensures
        find(text, pat, from) == Some(at),
{
    let other = choose|k: int| first_at(text, pat, from, k);
    assert(first_at(text, pat, from, other));
    if other < at {
        assert(!occurs_at(text, pat, other));
    }
    if at < other {
        assert(!occurs_at(text, pat, at));
    }
}

/// Where the pattern stands nowhere from `from` on, `find` has nothing.
pub proof fn lemma_find_none(text: Seq<char>, pat: Seq<char>, from: int)
    requires
        forall|k: int| from <= k ==> !occurs_at(text, pat, k),
    ensures
        find(text, pat, from).is_none(),
{
}

/// An occurrence at or after `from` means that there is a first one, not after it.
pub proof fn lemma_occurrence_has_first(text: Seq<char>, pat: Seq<char>, from: int, at: int)
    requires
        from <= at,
        occurs_at(text, pat, at),
    ensures
        find(text, pat, from).is_some(),
        from <= find(text, pat, from).unwrap() <= at,
        first_at(text, pat, from, find(text, pat, from).unwrap()),
    decreases at - from,
{
    if exists|k: int| from <= k < at && occurs_at(text, pat, k) {
        let k = choose|k: int| from <= k < at && occurs_at(text, pat, k);
        lemma_occurrence_has_first(text, pat, from, k);
    } else {
        assert(first_at(text, pat, from, at));
        lemma_find_some(text, pat, from, at);
    }
}

/// `contains` and `find` from the start agree.
pub proof fn lemma_contains_iff_found(text: Seq<char>, pat: Seq<char>)
    ensures
        contains(text, pat) <==> find(text, pat, 0).is_some(),
{
    if contains(text, pat) {
        let at = choose|at: int| occurs_at(text, pat, at);
        lemma_occurrence_has_first(text, pat, 0, at);
    }
    if find(text, pat, 0).is_some() {
        let at = choose|at: int| first_at(text, pat, 0, at);
        assert(occurs_at(text, pat, at));
    }
}

/// What `find` returns is a first occurrence.
pub proof fn lemma_found_is_first(text: Seq<char>, pat: Seq<char>, from: int)
    requires
        find(text, pat, from).is_some(),
    ensures
        first_at(text, pat, from, find(text, pat, from).unwrap()),
{
}

/// Trimming at the start leaves a suffix of the text.
pub proof fn lemma_trim_start_is_skip(text: Seq<char>) -> (n: int)
    ensures
        0 <= n <= text.len(),
        trim_start(text) == text.skip(n),
        forall|k: int| 0 <= k < n ==> is_space(text[k]),
        n < text.len() ==> !is_space(text[n]),
    decreases text.len(),
{
    if text.len() > 0 && is_space(text.first()) {
        let rest = text.drop_first();
        let m = lemma_trim_start_is_skip(rest);
        assert(rest.skip(m) =~= text.skip(m + 1));
        assert forall|k: int| 0 <= k < m + 1 implies is_space(text[k]) by {
            if k > 0 {
                assert(text[k] == rest[k - 1]);
            }
        }
        if m + 1 < text.len() {
            assert(text[m + 1] == rest[m]);
        }
        m + 1
    } else {
        assert(text.skip(0) =~= text);
        0
    }
}

/// Trimming at the end leaves a prefix of the text.
pub proof fn lemma_trim_end_is_take(text: Seq<char>) -> (n: int)
    ensures
        0 <= n <= text.len(),
        trim_end(text) == text.take(n),
        forall|k: int| n <= k < text.len() ==> is_space(text[k]),
        n > 0 ==> !is_space(text[n - 1]),
    decreases text.len(),
{
    if text.len() > 0 && is_space(text.last()) {
        let rest = text.drop_last();
        let m = lemma_trim_end_is_take(rest);
        assert(rest.take(m) =~= text.take(m));
        assert forall|k: int| m <= k < text.len() implies is_space(text[k]) by {
            if k < text.len() - 1 {
                assert(text[k] == rest[k]);
            }
        }
        if m > 0 {
            assert(text[m - 1] == rest[m - 1]);
        }
        m
    } else {
        assert(text.take(text.len() as int) =~= text);
        text.len() as int
    }
}

/// Trimming never lengthens a text.
pub proof fn lemma_trimmed_len(text: Seq<char>)
    ensures
        trimmed(text).len() <= text.len(),
{
    let a = lemma_trim_start_is_skip(text);
    let b = lemma_trim_end_is_take(text.skip(a));
}

/// Every piece of a split is at most as long as the text, and shorter where
/// the separator occurs at all.
pub proof fn lemma_split_lengths(text: Seq<char>, sep: Seq<char>)
    requires
        sep.len() > 0,
    ensures
        split(text, sep).len() >= 1,
        forall|i: int|
            0 <= i < split(text, sep).len() ==> (#[trigger] split(text, sep)[i]).len()
                <= text.len(),
        contains(text, sep) ==> forall|i: int|
            0 <= i < split(text, sep).len() ==> (#[trigger] split(text, sep)[i]).len()
                < text.len(),
    decreases text.len(),
{
    lemma_contains_iff_found(text, sep);
    match find(text, sep, 0) {
        Some(at) => {
            lemma_found_is_first(text, sep, 0);
            let rest = text.skip(at + sep.len());
            lemma_split_lengths(rest, sep);
            let parts = split(text, sep);
            assert(parts == seq![text.take(at)] + split(rest, sep));
            assert forall|i: int| 0 <= i < parts.len() implies (#[trigger] parts[i]).len()
                < text.len() by {
                if i > 0 {
                    assert(parts[i] == split(rest, sep)[i - 1]);
                }
            }
        },
        None => {},
    }
}

/// The lowercase form of a text, as `str::to_lowercase` gives it.
pub uninterp spec fn lowercase_of(text: Seq<char>) -> Seq<char>;

/// `str::to_lowercase` maps each text to one lowercase form, by the case
/// mappings of Unicode. Trusted: that the result depends on the text alone.
pub assume_specification[ str::to_lowercase ](s: &str) -> (lower: String)
    ensures
        lower@ == lowercase_of(s@),
;

/// Whether `c` is white space.
pub fn is_space_char(c: char) -> (space: bool)
    ensures
        space == is_space(c),
{
    let u: u32 = c as u32;
    (0x09 <= u && u <= 0x0d) || u == 0x20 || u == 0x85 || u == 0xa0 || u == 0x1680 || (0x2000 <= u
        && u <= 0x200a) || u == 0x2028 || u == 0x2029 || u == 0x202f || u == 0x205f || u == 0x3000
}

/// The characters of `s`, in order.
pub fn chars_of(s: &str) -> (out: Vec<char>)
    ensures
        out@ == s@,
{
    let mut out: Vec<char> = Vec::new();
    for c in it: s.chars()
        invariant
            out@ == it.seq().take(it.index()),
            it.seq() == s@,
    {
        out.push(c);
    }
    out
}

/// Whether two texts are the same.
pub fn same_text(a: &str, b: &str) -> (same: bool)
    ensures
        same == (a@ == b@),
{
    let x = a.as_bytes();
    let y = b.as_bytes();
    proof {
        encode_utf8_decode_utf8(a@);
        encode_utf8_decode_utf8(b@);
    }
    if x.len() != y.len() {
        return false;
    }
    let mut k: usize = 0;
    while k < x.len()
        invariant
            k <= x.len(),
            x.len() == y.len(),
            x@ == a.spec_bytes(),
            y@ == b.spec_bytes(),
            forall|j: int| 0 <= j < k ==> x@[j] == y@[j],
        decreases x.len() - k,
    {
        if x[k] != y[k] {
            return false;
        }
        k = k + 1;
    }
    assert(x@ =~= y@);
    true
}

/// Whether `pat` stands in `text` at position `at`.
pub fn matches_at(text: &[char], pat: &[char], at: usize) -> (hit: bool)
    ensures
        hit == occurs_at(text@, pat@, at as int),
{
    if pat.len() > text.len() || at > text.len() - pat.len() {
        return false;
    }
    let mut k: usize = 0;
    while k < pat.len()
        invariant
            k <= pat.len(),
            at + pat.len() <= text.len(),
            forall|j: int| 0 <= j < k ==> text@[at + j] == pat@[j],
        decreases pat.len() - k,
    {
        if text[at + k] != pat[k] {
            assert(text@.subrange(at as int, at + pat@.len())[k as int] == text@[at + k]);
            return false;
        }
        k = k + 1;
    }
    assert(text@.subrange(at as int, at + pat@.len()) =~= pat@);
    true
}

/// Whether `text` begins with `pat`.
pub fn starts_with(text: &[char], pat: &[char]) -> (hit: bool)
    ensures
        hit == has_prefix(text@, pat@),
{
    matches_at(text, pat, 0)
}

/// Whether `text` ends with `pat`.
pub fn ends_with(text: &[char], pat: &[char]) -> (hit: bool)
    ensures
        hit == has_suffix(text@, pat@),
{
    if pat.len() > text.len() {
        return false;
    }
    matches_at(text, pat, text.len() - pat.len())
}

/// The first position not before `from` at which `pat` stands in `text`.
pub fn find_from(text: &[char], pat: &[char], from: usize) -> (found: Option<usize>)
    ensures
        position(found) == find(text@, pat@, from as int),
{
    if pat.len() > text.len() || from > text.len() - pat.len() {
        proof {
            lemma_find_none(text@, pat@, from as int);
        }
        return None;
    }
    let last: usize = text.len() - pat.len();
    let mut at: usize = from;
    loop
        invariant
            from <= at <= last,
            last == text.len() - pat.len(),
            forall|k: int| from <= k < at ==> !occurs_at(text@, pat@, k),
        decreases last - at,
    {
        if matches_at(text, pat, at) {
            proof {
                lemma_find_some(text@, pat@, from as int, at as int);
            }
            return Some(at);
        }
        if at == last {
            proof {
                lemma_find_none(text@, pat@, from as int);
            }
            return None;
        }
        at = at + 1;
    }
}

/// Whether `pat` stands somewhere in `text`.
pub fn contains_text(text: &[char], pat: &[char]) -> (hit: bool)
    ensures
        hit == contains(text@, pat@),
{
    proof {
        lemma_contains_iff_found(text@, pat@);
    }
    find_from(text, pat, 0).is_some()
}

/// The pieces of `text` between the occurrences of `sep`.
pub fn split_text<'a>(text: &'a [char], sep: &[char]) -> (parts: Vec<&'a [char]>)
    ensures
        views(parts@) == split(text@, sep@),
{
    let mut parts: Vec<&'a [char]> = Vec::new();
    let mut rest: &'a [char] = text;
    if sep.len() == 0 {
        parts.push(rest);
        assert(views(parts@) =~= seq![text@]);
        return parts;
    }
    loop
        invariant
            sep@.len() > 0,
            split(text@, sep@) == views(parts@) + split(rest@, sep@),
        decreases rest@.len(),
    {
        match find_from(rest, sep, 0) {
            Some(at) => {
                proof {
                    lemma_found_is_first(rest@, sep@, 0);
                    assert(occurs_at(rest@, sep@, at as int));
                }
                let end: usize = rest.len();
                let piece = slice_subrange(rest, 0, at);
                let tail = slice_subrange(rest, at + sep.len(), end);
                proof {
                    assert(piece@ == rest@.take(at as int));
                    assert(tail@ == rest@.skip(at + sep@.len()));
                    assert(views(parts@.push(piece)) =~= views(parts@) + seq![piece@]);
                    assert(split(rest@, sep@) == seq![piece@] + split(tail@, sep@));
                    assert(views(parts@) + (seq![piece@] + split(tail@, sep@)) =~= (views(parts@)
                        + seq![piece@]) + split(tail@, sep@));
                }
                parts.push(piece);
                rest = tail;
            },
            None => {
                proof {
                    assert(split(rest@, sep@) == seq![rest@]);
                    assert(views(parts@.push(rest)) =~= views(parts@) + seq![rest@]);
                }
                parts.push(rest);
                return parts;
            },
        }
    }
}

/// `text` without its leading and trailing white space.
pub fn trim<'a>(text: &'a [char]) -> (out: &'a [char])
    ensures
        out@ == trimmed(text@),
{
    let mut lo: usize = 0;
    while lo < text.len() && is_space_char(text[lo])
        invariant
            lo <= text.len(),
            forall|k: int| 0 <= k < lo ==> is_space(text@[k]),
        decreases text.len() - lo,
    {
        lo = lo + 1;
    }
    let mut hi: usize = text.len();
    while hi > lo && is_space_char(text[hi - 1])
        invariant
            lo <= hi <= text.len(),
            forall|k: int| hi <= k < text.len() ==> is_space(text@[k]),
        decreases hi - lo,
    {
        hi = hi - 1;
    }
    proof {
        let a = lemma_trim_start_is_skip(text@);
        assert(a == lo) by {
            if a < lo {
                assert(is_space(text@[a]));
            }
            if lo < a {
                assert(is_space(text@[lo as int]));
            }
        }
        let tail = text@.skip(a);
        let b = lemma_trim_end_is_take(tail);
        assert(b == hi - lo) by {
            if b < hi - lo {
                assert(tail[hi - lo - 1] == text@[hi - 1]);
                assert(is_space(tail[hi - lo - 1]));
            }
            if hi - lo < b {
                assert(tail[b - 1] == text@[lo + b - 1]);
            }
        }
        assert(tail.take(b) =~= text@.subrange(lo as int, hi as int));
    }
    slice_subrange(text, lo, hi)
}

} // verus!
