//! Text primitives: trimming, case folding and the sanitizer for raw
//! hardware identifiers.
use vstd::prelude::*;

verus! {

/// Whether a character has the Unicode `White_Space` property.
pub open spec fn is_white_space(c: char) -> bool {
    ('\u{9}' <= c && c <= '\u{d}') || c == ' ' || c == '\u{85}' || c == '\u{a0}' || c
        == '\u{1680}' || ('\u{2000}' <= c && c <= '\u{200a}') || c == '\u{2028}' || c
        == '\u{2029}' || c == '\u{202f}' || c == '\u{205f}' || c == '\u{3000}'
}

/// The lower-case form of a text, as Unicode case mapping gives it.
pub uninterp spec fn lower_of(s: Seq<char>) -> Seq<char>;

pub open spec fn trim_start_of(s: Seq<char>) -> Seq<char>
    decreases s.len(),
{
    if s.len() > 0 && is_white_space(s[0]) {
        trim_start_of(s.drop_first())
    } else {
        s
    }
}

pub open spec fn trim_end_of(s: Seq<char>) -> Seq<char>
    decreases s.len(),
{
    if s.len() > 0 && is_white_space(s.last()) {
        trim_end_of(s.drop_last())
    } else {
        s
    }
}

/// A text with its leading and trailing white space removed.
pub open spec fn trim_of(s: Seq<char>) -> Seq<char> {
    trim_end_of(trim_start_of(s))
}

/// Relies on `str::trim`: it strips leading and trailing characters that
/// have the `White_Space` property, and nothing else.
#[verifier::external_body]
fn trimmed(s: &str) -> (r: String)
    ensures
        r@ == trim_of(s@),
{
    s.trim().to_string()
}

/// Relies on `str::to_lowercase`: the result depends on the characters alone.
#[verifier::external_body]
fn lowercased(s: &str) -> (r: String)
    ensures
        r@ == lower_of(s@),
{
    s.to_lowercase()
}

pub open spec fn opt_chars(o: Option<String>) -> Option<Seq<char>> {
    match o {
        Some(s) => Some(s@),
        None => None,
    }
}

/// Generic values that vendors leave in identifier fields and that many
/// unrelated machines share.
pub open spec fn is_placeholder(s: Seq<char>) -> bool {
    s == "to be filled by o.e.m."@ || s == "default string"@ || s == "none"@ || s
        == "00000000"@ || s == "o.e.m."@
}

/// A raw identifier trimmed and lower-cased.
pub open spec fn normalized(s: Seq<char>) -> Seq<char> {
    lower_of(trim_of(s))
}

/// What the sanitizer makes of a raw identifier: absent when the raw value is
/// absent, blank or a placeholder, else its normalized form.
pub open spec fn sanitized(raw: Option<Seq<char>>) -> Option<Seq<char>> {
    match raw {
        None => None,
        Some(s) => {
            let n = normalized(s);
            if trim_of(s).len() == 0 || is_placeholder(n) {
                None
            } else {
                Some(n)
            }
        },
    }
}

/// Whether two texts are equal.
pub fn same_text(a: &str, b: &str) -> (r: bool)
    ensures
        r == (a@ == b@),
{
    let n = a.unicode_len();
    if n != b.unicode_len() {
        return false;
    }
    let mut i: usize = 0;
    while i < n
        invariant
            n == a@.len(),
            n == b@.len(),
            i <= n,
            a@.subrange(0, i as int) == b@.subrange(0, i as int),
        decreases n - i,
    {
        if a.get_char(i) != b.get_char(i) {
            return false;
        }
        assert(a@.subrange(0, i + 1) == a@.subrange(0, i as int).push(a@[i as int]));
        assert(b@.subrange(0, i + 1) == b@.subrange(0, i as int).push(b@[i as int]));
        i += 1;
    }
    assert(a@ == a@.subrange(0, n as int));
    assert(b@ == b@.subrange(0, n as int));
    true
}

/// Whether text `s` begins with `prefix`.
pub open spec fn has_prefix(s: Seq<char>, prefix: Seq<char>) -> bool {
    prefix.len() <= s.len() && s.subrange(0, prefix.len() as int) == prefix
}

/// Whether `s` begins with `prefix`.
pub fn starts_with_text(s: &str, prefix: &str) -> (r: bool)
    ensures
        r == has_prefix(s@, prefix@),
{
    let n = prefix.unicode_len();
    if n > s.unicode_len() {
        return false;
    }
    let head = s.substring_char(0, n);
    same_text(head, prefix)
}

fn is_placeholder_text(s: &str) -> (r: bool)
    ensures
        r == is_placeholder(s@),
{
    same_text(s, "to be filled by o.e.m.") || same_text(s, "default string") || same_text(
        s,
        "none",
    ) || same_text(s, "00000000") || same_text(s, "o.e.m.")
}

/// Normalizes a raw hardware identifier: trims it, lower-cases it, and
/// drops it when nothing is left or when it is a generic placeholder.
pub fn sanitize_string(s: Option<String>) -> (r: Option<String>)
    ensures
        opt_chars(r) == sanitized(opt_chars(s)),
{
    match s {
        None => None,
        Some(raw) => {
            let t = trimmed(raw.as_str());
            if t.unicode_len() == 0 {
                return None;
            }
            let n = lowercased(t.as_str());
            if is_placeholder_text(n.as_str()) {
                None
            } else {
                Some(n)
            }
        },
    }
}

} // verus!
