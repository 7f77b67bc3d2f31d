//! Slug derivation: a thread's URL-safe identifier, derived once from its
//! title. Words are maximal runs of alphanumeric and quote characters; quote
//! characters are stripped rather than treated as separators, ASCII letters
//! are lowered, and the words are joined with hyphens.

use vstd::prelude::*;

verus! {

/// Whether a character counts as alphanumeric, across all of Unicode. Named
/// here because the full character tables are the standard library's
/// business; the slug rules speak of the class through this name.
pub uninterp spec fn is_alphanum(c: char) -> bool;

/// The quote characters that are stripped from words.
pub open spec fn is_quote(c: char) -> bool {
    c == '\'' || c == '"'
}

/// A character that belongs to a word rather than separating words.
pub open spec fn is_word_char(c: char) -> bool {
    is_quote(c) || is_alphanum(c)
}

/// An ASCII upper-case letter lowered; any other character unchanged.
pub open spec fn lower_ascii(c: char) -> char {
    if 65 <= c as int && c as int <= 90 {
        ((c as int) + 32) as char
    } else {
        c
    }
}

/// One pass over the title, left to right: `in_word` says whether the
/// previous character belonged to a word, `started` whether any word has
/// begun, and `acc` the slug built so far. A hyphen joins each word to the
/// one before it; quote characters open words but add nothing to them.
pub open spec fn slug_go(s: Seq<char>, i: int, in_word: bool, started: bool, acc: Seq<char>) -> Seq<
    char,
>
    recommends
        0 <= i <= s.len(),
    decreases s.len() - i,
{
    if i < 0 || i >= s.len() {
        acc
    } else {
        let c = s[i];
        if is_word_char(c) {
            let joined = if !in_word && started {
                acc.push('-')
            } else {
                acc
            };
            let extended = if is_alphanum(c) {
                joined.push(lower_ascii(c))
            } else {
                joined
            };
            slug_go(s, i + 1, true, true, extended)
        } else {
            slug_go(s, i + 1, false, started, acc)
        }
    }
}

/// The slug of a title.
pub open spec fn spec_slugify(s: Seq<char>) -> Seq<char> {
    slug_go(s, 0, false, false, Seq::empty())
}

/// Relies on `char::is_alphanumeric`: membership in the Unicode alphanumeric
/// class, a function of the character alone.
#[verifier::external_body]
fn is_alphanumeric_ch(c: char) -> (r: bool)
    ensures
        r == is_alphanum(c),
{
    c.is_alphanumeric()
}

/// Relies on `char::to_ascii_lowercase`: `A`-`Z` move down by 32 code
/// points, every other character is returned unchanged.
#[verifier::external_body]
fn to_ascii_lowercase_ch(c: char) -> (r: char)
    ensures
        r == lower_ascii(c),
{
    c.to_ascii_lowercase()
}

/// Derives the slug of a title: alphanumeric words, ASCII-lowered, quote
/// characters stripped, joined with hyphens.
pub fn slugify(title: &str) -> (r: String)
    ensures
        r@ == spec_slugify(title@),
{
    let n = title.unicode_len();
    let mut out = String::new();
    let mut in_word = false;
    let mut started = false;
    let mut i: usize = 0;
    while i < n
        invariant
            i <= n,
            n == title@.len(),
            spec_slugify(title@) == slug_go(title@, i as int, in_word, started, out@),
        decreases n - i,
    {
        let c = title.get_char(i);
        let alnum = is_alphanumeric_ch(c);
        let quote = c == '\'' || c == '"';
        if quote || alnum {
            if !in_word && started {
                crate::base36::push_char(&mut out, '-');
            }
            if alnum {
                crate::base36::push_char(&mut out, to_ascii_lowercase_ch(c));
            }
            in_word = true;
            started = true;
        } else {
            in_word = false;
        }
        i = i + 1;
    }
    out
}

} // verus!
