//! Display titles: what the media tool prints is cut at the first separator
//! and trimmed, so that channel names and quality tags stay out of file names.

use crate::text::{
    decode_lossy, lemma_trimmed_is_part, lemma_trimmed_twice, trim, trimmed, utf8_lossy,
};
use vstd::prelude::*;

verus! {

/// The regular expression that matches, anchored at the start of a text, the
/// longest run of characters other than `|`, `[` and `(`.
pub const TITLE_PATTERN: &'static str = "^[^||\\[|\\(|]*";

/// Whether `c` starts the decoration of a title.
pub open spec fn is_separator(c: char) -> bool {
    c == '|' || c == '[' || c == '('
}

/// Whether no character of `s` is a separator.
pub open spec fn is_clean(s: Seq<char>) -> bool {
    forall|k: int| 0 <= k < s.len() ==> !is_separator(#[trigger] s[k])
}

/// Number of characters of `s` before its first separator.
pub open spec fn clean_len(s: Seq<char>) -> nat
    decreases s.len(),
{
    if s.len() == 0 || is_separator(s[0]) {
        0
    } else {
        1 + clean_len(s.drop_first())
    }
}

/// The longest prefix of `s` that holds no separator.
pub open spec fn clean_prefix(s: Seq<char>) -> Seq<char> {
    s.take(clean_len(s) as int)
}

/// The title to use for the raw title `s`: its longest separator-free prefix,
/// trimmed.
pub open spec fn sanitized(s: Seq<char>) -> Seq<char> {
    trimmed(clean_prefix(s))
}

/// Compiles `pattern` with `regex::Regex::new` and searches `text` with
/// `Regex::find`, giving the matched part of `text`. For [`TITLE_PATTERN`]
/// the compilation succeeds, and since the pattern is anchored and its only
/// repetition is greedy and may be empty, there always is a match: it begins
/// at the start of `text` and runs up to the first separator.
#[verifier::external_body]
fn leading_match(pattern: &str, text: &str) -> (found: Option<String>)
    requires
        pattern@ == TITLE_PATTERN@,
    ensures
        found is Some,
        found->0@ == clean_prefix(text@),
{
    match regex::Regex::new(pattern) {
        Ok(re) => re.find(text).map(|m| m.as_str().to_string()),
        Err(_) => None,
    }
}

/// The clean prefix ends at the first separator of `s`, or with `s`.
pub proof fn lemma_clean_len(s: Seq<char>)
    ensures
        clean_len(s) <= s.len(),
        is_clean(clean_prefix(s)),
        clean_len(s) < s.len() ==> is_separator(s[clean_len(s) as int]),
    decreases s.len(),
{
    if !(s.len() == 0 || is_separator(s[0])) {
        let rest = s.drop_first();
        lemma_clean_len(rest);
        assert forall|k: int| 0 <= k < clean_prefix(s).len() implies !is_separator(
            #[trigger] clean_prefix(s)[k],
        ) by {
            if k > 0 {
                assert(clean_prefix(s)[k] == clean_prefix(rest)[k - 1]);
            }
        }
        if clean_len(s) < s.len() {
            assert(s[clean_len(s) as int] == rest[clean_len(rest) as int]);
        }
    }
}

/// No separator-free prefix of `s` is longer than the clean prefix.
pub proof fn lemma_clean_prefix_longest(s: Seq<char>, n: int)
    requires
        0 <= n <= s.len(),
        is_clean(s.take(n)),
    ensures
        n <= clean_len(s),
{
    lemma_clean_len(s);
    if clean_len(s) < n {
        assert(s.take(n)[clean_len(s) as int] == s[clean_len(s) as int]);
    }
}

/// A text without separators is its own clean prefix.
pub proof fn lemma_clean_prefix_of_clean(s: Seq<char>)
    requires
        is_clean(s),
    ensures
        clean_prefix(s) == s,
{
    assert(s.take(s.len() as int) =~= s);
    lemma_clean_prefix_longest(s, s.len() as int);
    lemma_clean_len(s);
}

/// Sanitizing a text without separators only trims it.
pub proof fn lemma_sanitized_of_clean(s: Seq<char>)
    requires
        is_clean(s),
    ensures
        sanitized(s) == trimmed(s),
{
    lemma_clean_prefix_of_clean(s);
}

/// A sanitized title holds no separator.
pub proof fn lemma_sanitized_is_clean(s: Seq<char>)
    ensures
        is_clean(sanitized(s)),
{
    let p = clean_prefix(s);
    lemma_clean_len(s);
    lemma_trimmed_is_part(p);
    assert forall|k: int| 0 <= k < sanitized(s).len() implies !is_separator(
        #[trigger] sanitized(s)[k],
    ) by {
        assert(sanitized(s)[k] == p[crate::text::leading_space(p) + k]);
    }
}

/// Sanitizing is idempotent: a sanitized title is left as it is.
pub proof fn lemma_sanitized_twice(s: Seq<char>)
    ensures
        sanitized(sanitized(s)) == sanitized(s),
{
    lemma_sanitized_is_clean(s);
    lemma_clean_prefix_of_clean(sanitized(s));
    lemma_trimmed_twice(clean_prefix(s));
}

/// The title to use for the raw title `raw`.
pub fn sanitize(raw: &str) -> (title: String)
    ensures
        title@ == sanitized(raw@),
{
    let found = leading_match(TITLE_PATTERN, raw);
    let prefix = found.unwrap();
    trim(prefix.as_str())
}

/// The raw title that the media tool printed as `stdout`: the output decoded
/// as UTF-8, ill-formed parts replaced, and trimmed.
pub fn raw_title(stdout: &[u8]) -> (raw: String)
    ensures
        raw@ == trimmed(utf8_lossy(stdout@)),
{
    let text = decode_lossy(stdout);
    trim(text.as_str())
}

} // verus!
