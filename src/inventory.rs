//! Whether a model is installed, judged from the daemon's two listings: the
//! names that its tag API returns, and the text table of its `list` command.
//! Names compare after lower-casing both sides.
use vstd::prelude::*;
use crate::text::chars_of;

verus! {

/// What `str::to_lowercase` returns for the characters `s`.
pub uninterp spec fn lower_of(s: Seq<char>) -> Seq<char>;

/// Relies on `str::to_lowercase`: its result depends on the characters of
/// `s` alone.
#[verifier::external_body]
fn lowercase(s: &str) -> (r: String)
    ensures
        r@ == lower_of(s@),
{
    s.to_lowercase()
}

/// The characters with the Unicode White_Space property.
pub open spec fn blank(c: char) -> bool {
    ('\u{9}' <= c && c <= '\u{d}') || c == ' ' || c == '\u{85}' || c == '\u{a0}' || c
        == '\u{1680}' || ('\u{2000}' <= c && c <= '\u{200a}') || c == '\u{2028}' || c
        == '\u{2029}' || c == '\u{202f}' || c == '\u{205f}' || c == '\u{3000}'
}

/// Whether `c` is white space, as `char::is_whitespace` has it.
pub fn is_blank(c: char) -> (r: bool)
    ensures
        r == blank(c),
{
    ('\u{9}' <= c && c <= '\u{d}') || c == ' ' || c == '\u{85}' || c == '\u{a0}' || c
        == '\u{1680}' || ('\u{2000}' <= c && c <= '\u{200a}') || c == '\u{2028}' || c
        == '\u{2029}' || c == '\u{202f}' || c == '\u{205f}' || c == '\u{3000}'
}

/// Index of the first line feed at or after `i`, or the length of `s`.
pub open spec fn line_end(s: Seq<char>, i: int) -> int
    decreases s.len() - i,
{
    if i < 0 || i >= s.len() {
        s.len() as int
    } else if s[i] == '\n' {
        i
    } else {
        line_end(s, i + 1)
    }
}

/// Index of the first non-blank character in `[i, e)`, or `e`.
pub open spec fn skip_blanks(s: Seq<char>, i: int, e: int) -> int
    decreases e - i,
{
    if i < 0 || i >= e || i >= s.len() {
        e
    } else if blank(s[i]) {
        skip_blanks(s, i + 1, e)
    } else {
        i
    }
}

/// Index of the first blank character in `[i, e)`, or `e`.
pub open spec fn word_end(s: Seq<char>, i: int, e: int) -> int
    decreases e - i,
{
    if i < 0 || i >= e || i >= s.len() {
        e
    } else if blank(s[i]) {
        i
    } else {
        word_end(s, i + 1, e)
    }
}

/// Whether a line of `s` starts at index `i`.
pub open spec fn line_start(s: Seq<char>, i: int) -> bool {
    i == 0 || (0 < i <= s.len() && s[i - 1] == '\n')
}

/// The first white-space-delimited token of the line starting at `i`
/// (empty if the line is blank).
pub open spec fn first_token(s: Seq<char>, i: int) -> Seq<char> {
    let e = line_end(s, i);
    let k = skip_blanks(s, i, e);
    s.subrange(k, word_end(s, k, e))
}

/// Whether some line of `listing` has `name` as its first token.
pub open spec fn listing_has(listing: Seq<char>, name: Seq<char>) -> bool {
    exists|i: int|
        line_start(listing, i) && (#[trigger] first_token(listing, i)).len() > 0 && first_token(
            listing,
            i,
        ) == name
}

/// Whether `cs[k..m]` holds exactly the characters of `ts`.
fn span_equals(cs: &Vec<char>, k: usize, m: usize, ts: &Vec<char>) -> (r: bool)
    requires
        k <= m <= cs.len(),
    ensures
        r == (cs@.subrange(k as int, m as int) == ts@),
{
    if m - k != ts.len() {
        return false;
    }
    let mut j: usize = 0;
    while j < ts.len()
        invariant
            k <= m <= cs.len(),
            m - k == ts.len(),
            j <= ts.len(),
            forall|x: int| 0 <= x < j ==> cs@[k + x] == ts@[x],
        decreases ts.len() - j,
    {
        if cs[k + j] != ts[j] {
            assert(cs@.subrange(k as int, m as int)[j as int] != ts@[j as int]);
            return false;
        }
        j = j + 1;
    }
    assert(cs@.subrange(k as int, m as int) =~= ts@);
    true
}

/// Whether a line of `listing` has `name` as its first token, compared as
/// given (no case folding).
pub fn listing_has_token(listing: &str, name: &str) -> (r: bool)
    ensures
        r == listing_has(listing@, name@),
{
    let cs = chars_of(listing);
    let ts = chars_of(name);
    let ghost s = listing@;
    let n = cs.len();
    let mut pos: usize = 0;
    loop
        invariant
            s == listing@,
            cs@ == s,
            ts@ == name@,
            n == s.len(),
            pos <= n,
            line_start(s, pos as int),
            forall|i: int|
                0 <= i < pos && line_start(s, i) ==> !((#[trigger] first_token(s, i)).len() > 0
                    && first_token(s, i) == name@),
        decreases n - pos,
    {
        let mut e = pos;
        while e < n && cs[e] != '\n'
            invariant
                cs@ == s,
                n == s.len(),
                pos <= e <= n,
                line_end(s, pos as int) == line_end(s, e as int),
                forall|j: int| pos <= j < e ==> s[j] != '\n',
            decreases n - e,
        {
            e = e + 1;
        }
        assert(line_end(s, e as int) == e);
        let mut k = pos;
        while k < e && is_blank(cs[k])
            invariant
                cs@ == s,
                n == s.len(),
                pos <= k <= e <= n,
                skip_blanks(s, pos as int, e as int) == skip_blanks(s, k as int, e as int),
            decreases e - k,
        {
            k = k + 1;
        }
        assert(skip_blanks(s, k as int, e as int) == k);
        let mut m = k;
        while m < e && !is_blank(cs[m])
            invariant
                cs@ == s,
                n == s.len(),
                k <= m <= e <= n,
                word_end(s, k as int, e as int) == word_end(s, m as int, e as int),
            decreases e - m,
        {
            m = m + 1;
        }
        assert(word_end(s, m as int, e as int) == m);
        assert(first_token(s, pos as int) == s.subrange(k as int, m as int));
        if m > k && span_equals(&cs, k, m, &ts) {
            assert(first_token(s, pos as int).len() > 0 && first_token(s, pos as int) == name@);
            return true;
        }
        assert forall|i: int|
            0 <= i < e + 1 && line_start(s, i) implies !((#[trigger] first_token(s, i)).len() > 0
            && first_token(s, i) == name@) by {
            if pos < i <= e {
                assert(s[i - 1] != '\n');
            }
        }
        if e >= n {
            assert forall|i: int| line_start(s, i) implies !((#[trigger] first_token(s, i)).len()
                > 0 && first_token(s, i) == name@) by {
                assert(0 <= i <= n);
            }
            assert(!listing_has(s, name@));
            return false;
        }
        pos = e + 1;
    }
}

/// Whether the `list` command's output names the model `name`: some line's
/// first token equals `name`, both lower-cased.
pub fn cli_lists_model(listing: &str, name: &str) -> (r: bool)
    ensures
        r == listing_has(lower_of(listing@), lower_of(name@)),
{
    let l = lowercase(listing);
    let t = lowercase(name);
    listing_has_token(l.as_str(), t.as_str())
}

/// Whether one of `names` equals `name` exactly.
pub fn names_include(names: &Vec<String>, name: &str) -> (r: bool)
    ensures
        r == exists|i: int| 0 <= i < names@.len() && (#[trigger] names@[i])@ == name@,
{
    let target = name.to_owned();
    let mut i: usize = 0;
    while i < names.len()
        invariant
            target@ == name@,
            i <= names@.len(),
            forall|j: int| 0 <= j < i ==> (#[trigger] names@[j])@ != name@,
        decreases names.len() - i,
    {
        if names[i] == target {
            assert((names@[i as int])@ == name@);
            return true;
        }
        i = i + 1;
    }
    false
}

/// Whether the names that the tag API returned include `name`, both sides
/// lower-cased.
pub fn api_lists_model(names: &Vec<String>, name: &str) -> (r: bool)
    ensures
        r == exists|i: int|
            0 <= i < names@.len() && lower_of((#[trigger] names@[i])@) == lower_of(name@),
{
    let mut lowered: Vec<String> = Vec::new();
    let mut i: usize = 0;
    while i < names.len()
        invariant
            i <= names@.len(),
            lowered@.len() == i,
            forall|j: int| 0 <= j < i ==> (#[trigger] lowered@[j])@ == lower_of(names@[j]@),
        decreases names.len() - i,
    {
        lowered.push(lowercase(names[i].as_str()));
        i = i + 1;
    }
    let t = lowercase(name);
    let r = names_include(&lowered, t.as_str());
    proof {
        if r {
            let j = choose|j: int| 0 <= j < lowered@.len() && (#[trigger] lowered@[j])@ == t@;
            assert(lower_of(names@[j]@) == lower_of(name@));
        } else {
            assert forall|j: int| 0 <= j < names@.len() implies lower_of((#[trigger] names@[j])@)
                != lower_of(name@) by {
                assert(lowered@[j]@ == lower_of(names@[j]@));
            }
        }
    }
    r
}

} // verus!
