//! Text as sequences of characters: trimming, substring search and line
//! splitting, each with a contract over `Seq<char>`.

use vstd::prelude::*;
use vstd::utf8::{decode_utf8, valid_utf8};

verus! {

/// Whether `c` counts as white space (the Unicode `White_Space` property, as
/// `char::is_whitespace` decides it).
pub uninterp spec fn is_whitespace(c: char) -> bool;

/// What a lossy decoding of `bytes` as UTF-8 yields: every well-formed
/// sequence decoded, every ill-formed one replaced by U+FFFD.
pub uninterp spec fn utf8_lossy(bytes: Seq<u8>) -> Seq<char>;

/// `char::is_whitespace` answers by the `White_Space` property alone, so its
/// result is the value of [`is_whitespace`] at the character.
pub assume_specification[ char::is_whitespace ](c: char) -> (b: bool)
    ensures
        b == is_whitespace(c),
;

/// `String::push` appends the character to the end of the string.
pub assume_specification[ String::push ](s: &mut String, c: char)
    ensures
        final(s)@ == old(s)@.push(c),
;

/// `std::str::from_utf8` accepts exactly the well-formed UTF-8 byte strings
/// and, for those, borrows the bytes as the text they encode.
#[verifier::external_body]
pub(crate) fn decode(bytes: &[u8]) -> (text: Option<&str>)
    ensures
        text is Some <==> valid_utf8(bytes@),
        text matches Some(t) ==> t@ == decode_utf8(bytes@),
{
    std::str::from_utf8(bytes).ok()
}

/// `String::from_utf8_lossy` depends on the bytes alone; on well-formed
/// UTF-8 it returns the text they encode unchanged.
#[verifier::external_body]
pub(crate) fn decode_lossy(bytes: &[u8]) -> (text: String)
    ensures
        text@ == utf8_lossy(bytes@),
        valid_utf8(bytes@) ==> text@ == decode_utf8(bytes@),
{
    String::from_utf8_lossy(bytes).into_owned()
}

/// The views of a sequence of strings.
pub open spec fn views(strings: Seq<String>) -> Seq<Seq<char>> {
    strings.map_values(|s: String| s@)
}

/// Number of white-space characters at the start of `s`.
pub open spec fn leading_space(s: Seq<char>) -> nat
    decreases s.len(),
{
    if s.len() > 0 && is_whitespace(s[0]) {
        1 + leading_space(s.drop_first())
    } else {
        0
    }
}

/// Number of white-space characters at the end of `s`.
pub open spec fn trailing_space(s: Seq<char>) -> nat
    decreases s.len(),
{
    if s.len() > 0 && is_whitespace(s.last()) {
        1 + trailing_space(s.drop_last())
    } else {
        0
    }
}

/// `s` without its leading and trailing white space.
pub open spec fn trimmed(s: Seq<char>) -> Seq<char> {
    let rest = s.skip(leading_space(s) as int);
    rest.take(rest.len() - trailing_space(rest))
}

/// Whether `needle` stands in `text` at position `at`.
pub open spec fn occurs_at(text: Seq<char>, needle: Seq<char>, at: int) -> bool {
    &&& 0 <= at
    &&& at + needle.len() <= text.len()
    &&& text.subrange(at, at + needle.len()) == needle
}

/// Whether `needle` is a contiguous part of `text`.
pub open spec fn occurs_in(needle: Seq<char>, text: Seq<char>) -> bool {
    exists|at: int| occurs_at(text, needle, at)
}

/// Position of the first line feed in `s`, or `s.len()` if there is none.
pub open spec fn first_break(s: Seq<char>) -> nat
    decreases s.len(),
{
    if s.len() == 0 || s[0] == '\n' {
        0
    } else {
        1 + first_break(s.drop_first())
    }
}

/// `line` without one carriage return at its end.
pub open spec fn without_cr(line: Seq<char>) -> Seq<char> {
    if line.len() > 0 && line.last() == '\r' {
        line.drop_last()
    } else {
        line
    }
}

/// The lines of `s`. A line ends with a line feed, or a carriage return and
/// a line feed, neither of which belongs to it; the last line may end with
/// the text. A carriage return elsewhere is an ordinary character.
pub open spec fn lines_of(s: Seq<char>) -> Seq<Seq<char>>
    decreases s.len(),
{
    if s.len() == 0 {
        Seq::empty()
    } else {
        let n = first_break(s);
        if n >= s.len() {
            seq![s]
        } else {
            seq![without_cr(s.take(n as int))] + lines_of(s.skip(n as int + 1))
        }
    }
}

/// The leading white space of `s` is a run of white space that ends at the
/// first other character.
pub proof fn lemma_leading_space(s: Seq<char>)
    ensures
        leading_space(s) <= s.len(),
        forall|k: int| 0 <= k < leading_space(s) ==> is_whitespace(#[trigger] s[k]),
        leading_space(s) < s.len() ==> !is_whitespace(s[leading_space(s) as int]),
    decreases s.len(),
{
    if s.len() > 0 && is_whitespace(s[0]) {
        let rest = s.drop_first();
        lemma_leading_space(rest);
        assert forall|k: int| 0 <= k < leading_space(s) implies is_whitespace(#[trigger] s[k]) by {
            if k > 0 {
                assert(s[k] == rest[k - 1]);
            }
        }
        if leading_space(s) < s.len() {
            assert(s[leading_space(s) as int] == rest[leading_space(rest) as int]);
        }
    }
}

/// The trailing white space of `s` is a run of white space that begins after
/// the last other character.
pub proof fn lemma_trailing_space(s: Seq<char>)
    ensures
        trailing_space(s) <= s.len(),
        forall|k: int| s.len() - trailing_space(s) <= k < s.len() ==> is_whitespace(#[trigger] s[k]),
        trailing_space(s) < s.len() ==> !is_whitespace(s[s.len() - trailing_space(s) - 1]),
    decreases s.len(),
{
    if s.len() > 0 && is_whitespace(s.last()) {
        let rest = s.drop_last();
        lemma_trailing_space(rest);
        assert forall|k: int| s.len() - trailing_space(s) <= k < s.len() implies is_whitespace(
            #[trigger] s[k],
        ) by {
            if k < s.len() - 1 {
                assert(s[k] == rest[k]);
            }
        }
        if trailing_space(s) < s.len() {
            assert(s[s.len() - trailing_space(s) - 1] == rest[rest.len() - trailing_space(rest)
                - 1]);
        }
    }
}

/// A run of `n` white-space characters at the start of `s`, followed by
/// another character or by the end, is the leading white space of `s`.
pub proof fn lemma_leading_space_is(s: Seq<char>, n: int)
    requires
        0 <= n <= s.len(),
        forall|k: int| 0 <= k < n ==> is_whitespace(#[trigger] s[k]),
        n < s.len() ==> !is_whitespace(s[n]),
    ensures
        leading_space(s) == n,
{
    lemma_leading_space(s);
    let m = leading_space(s) as int;
    if m < n {
        assert(is_whitespace(s[m]));
    } else if n < m {
        assert(is_whitespace(s[n]));
    }
}

/// A run of `n` white-space characters at the end of `s`, preceded by
/// another character or by the start, is the trailing white space of `s`.
pub proof fn lemma_trailing_space_is(s: Seq<char>, n: int)
    requires
        0 <= n <= s.len(),
        forall|k: int| s.len() - n <= k < s.len() ==> is_whitespace(#[trigger] s[k]),
        n < s.len() ==> !is_whitespace(s[s.len() - n - 1]),
    ensures
        trailing_space(s) == n,
{
    lemma_trailing_space(s);
    let m = trailing_space(s) as int;
    if m < n {
        assert(is_whitespace(s[s.len() - m - 1]));
    } else if n < m {
        assert(is_whitespace(s[s.len() - n - 1]));
    }
}

/// Trimming is idempotent.
pub proof fn lemma_trimmed_twice(s: Seq<char>)
    ensures
        trimmed(trimmed(s)) == trimmed(s),
{
    lemma_leading_space(s);
    let rest = s.skip(leading_space(s) as int);
    lemma_trailing_space(rest);
    let t = trimmed(s);
    if t.len() > 0 {
        assert(t[0] == rest[0]);
        assert(rest[0] == s[leading_space(s) as int]);
        assert(t.last() == rest[rest.len() - trailing_space(rest) - 1]);
    }
    lemma_leading_space_is(t, 0);
    assert(t.skip(0) == t);
    lemma_trailing_space_is(t, 0);
    assert(t.take(t.len() as int) == t);
}

/// What trimming keeps is a contiguous part of the text.
pub proof fn lemma_trimmed_is_part(s: Seq<char>)
    ensures
        leading_space(s) + trimmed(s).len() <= s.len(),
        trimmed(s) == s.subrange(
            leading_space(s) as int,
            (leading_space(s) + trimmed(s).len()) as int,
        ),
{
    lemma_leading_space(s);
    let rest = s.skip(leading_space(s) as int);
    lemma_trailing_space(rest);
    assert(trimmed(s) =~= s.subrange(
        leading_space(s) as int,
        (leading_space(s) + trimmed(s).len()) as int,
    ));
}

/// The first line feed of `s` stands after `m` other characters.
pub proof fn lemma_first_break_is(s: Seq<char>, m: int)
    requires
        0 <= m <= s.len(),
        forall|k: int| 0 <= k < m ==> #[trigger] s[k] != '\n',
        m < s.len() ==> s[m] == '\n',
    ensures
        first_break(s) == m,
    decreases m,
{
    if m > 0 {
        let rest = s.drop_first();
        assert forall|k: int| 0 <= k < m - 1 implies #[trigger] rest[k] != '\n' by {
            assert(rest[k] == s[k + 1]);
        }
        lemma_first_break_is(rest, m - 1);
    }
}

/// The characters of `s`, in order.
pub fn to_chars(s: &str) -> (chars: Vec<char>)
    ensures
        chars@ == s@,
{
    let mut chars: Vec<char> = Vec::new();
    for c in iter: s.chars()
        invariant
            iter.seq() == s@,
            chars@ == iter.seq().take(iter.index()),
    {
        chars.push(c);
    }
    chars
}

/// The string made of the characters `chars[from..to]`.
pub fn from_chars(chars: &[char], from: usize, to: usize) -> (s: String)
    requires
        from <= to <= chars@.len(),
    ensures
        s@ == chars@.subrange(from as int, to as int),
{
    let mut s = String::new();
    let mut i: usize = from;
    while i < to
        invariant
            from <= i <= to <= chars@.len(),
            s@ == chars@.subrange(from as int, i as int),
        decreases to - i,
    {
        s.push(chars[i]);
        i += 1;
    }
    s
}

/// `s` without its leading and trailing white space.
pub fn trim(s: &str) -> (t: String)
    ensures
        t@ == trimmed(s@),
{
    let chars = to_chars(s);
    let n: usize = chars.len();
    let mut from: usize = 0;
    while from < n && chars[from].is_whitespace()
        invariant
            from <= n,
            n == chars@.len(),
            forall|k: int| 0 <= k < from ==> is_whitespace(#[trigger] chars@[k]),
        decreases n - from,
    {
        from += 1;
    }
    let mut to: usize = n;
    while to > from && chars[to - 1].is_whitespace()
        invariant
            from <= to <= n,
            n == chars@.len(),
            forall|k: int| to <= k < n ==> is_whitespace(#[trigger] chars@[k]),
        decreases to - from,
    {
        to -= 1;
    }
    proof {
        lemma_leading_space_is(chars@, from as int);
        let rest = chars@.skip(from as int);
        assert forall|k: int| rest.len() - (n - to) <= k < rest.len() implies is_whitespace(
            #[trigger] rest[k],
        ) by {
            assert(rest[k] == chars@[k + from]);
        }
        if n - to < rest.len() {
            assert(rest[rest.len() - (n - to) - 1] == chars@[to - 1]);
        }
        lemma_trailing_space_is(rest, n - to);
        assert(trimmed(chars@) =~= chars@.subrange(from as int, to as int));
    }
    from_chars(&chars, from, to)
}

/// Whether `needle` stands in `text` at position `at`.
fn matches_at(text: &[char], needle: &[char], at: usize) -> (b: bool)
    requires
        at + needle@.len() <= text@.len(),
    ensures
        b == occurs_at(text@, needle@, at as int),
{
    let n: usize = text.len();
    let m: usize = needle.len();
    let mut j: usize = 0;
    while j < m
        invariant
            j <= m,
            m == needle@.len(),
            n == text@.len(),
            at + m <= n,
            forall|k: int| 0 <= k < j ==> text@[at + k] == needle@[k],
        decreases m - j,
    {
        if text[at + j] != needle[j] {
            proof {
                assert(text@.subrange(at as int, at + m)[j as int] == text@[at + j]);
            }
            return false;
        }
        j += 1;
    }
    proof {
        assert(text@.subrange(at as int, at + m) =~= needle@);
    }
    true
}

/// Whether `needle` is a contiguous part of `text`. The empty text is part
/// of every text.
pub fn contains(text: &str, needle: &str) -> (b: bool)
    ensures
        b == occurs_in(needle@, text@),
{
    let hay = to_chars(text);
    let pat = to_chars(needle);
    let n: usize = hay.len();
    let m: usize = pat.len();
    if m > n {
        return false;
    }
    let last: usize = n - m;
    let mut at: usize = 0;
    loop
        invariant
            hay@ == text@,
            pat@ == needle@,
            n == hay@.len(),
            m == pat@.len(),
            last == n - m,
            at <= last,
            forall|k: int| 0 <= k < at ==> !occurs_at(hay@, pat@, k),
        decreases last - at,
    {
        if matches_at(&hay, &pat, at) {
            assert(occurs_at(text@, needle@, at as int));
            return true;
        }
        if at == last {
            return false;
        }
        at += 1;
    }
}

/// The lines of `s`, as [`lines_of`] defines them.
pub fn lines(s: &str) -> (out: Vec<String>)
    ensures
        views(out@) == lines_of(s@),
{
    let chars = to_chars(s);
    let n: usize = chars.len();
    let mut out: Vec<String> = Vec::new();
    let mut start: usize = 0;
    let mut i: usize = 0;
    proof {
        assert(chars@.skip(0) =~= chars@);
        assert(views(out@) + lines_of(chars@) =~= lines_of(chars@));
    }
    while i < n
        invariant
            start <= i <= n,
            n == chars@.len(),
            forall|k: int| start <= k < i ==> #[trigger] chars@[k] != '\n',
            lines_of(chars@) == views(out@) + lines_of(chars@.skip(start as int)),
        decreases n - i,
    {
        if chars[i] == '\n' {
            let end: usize = if i > start && chars[i - 1] == '\r' {
                i - 1
            } else {
                i
            };
            let line = from_chars(&chars, start, end);
            proof {
                let rest = chars@.skip(start as int);
                assert forall|k: int| 0 <= k < i - start implies #[trigger] rest[k] != '\n' by {
                    assert(rest[k] == chars@[k + start]);
                }
                lemma_first_break_is(rest, i - start);
                assert(rest.take(i - start) =~= chars@.subrange(start as int, i as int));
                assert(without_cr(rest.take(i - start)) =~= line@);
                assert(rest.skip(i - start + 1) =~= chars@.skip(i + 1));
                assert(views(out@.push(line)) =~= views(out@).push(line@));
                assert(views(out@) + (seq![line@] + lines_of(chars@.skip(i + 1))) =~= views(
                    out@,
                ).push(line@) + lines_of(chars@.skip(i + 1)));
            }
            out.push(line);
            start = i + 1;
        }
        i += 1;
    }
    if start < n {
        let line = from_chars(&chars, start, n);
        proof {
            let rest = chars@.skip(start as int);
            assert forall|k: int| 0 <= k < rest.len() implies #[trigger] rest[k] != '\n' by {
                assert(rest[k] == chars@[k + start]);
            }
            lemma_first_break_is(rest, rest.len() as int);
            assert(rest =~= line@);
            assert(views(out@.push(line)) =~= views(out@).push(line@));
            assert(views(out@) + seq![line@] =~= views(out@).push(line@));
        }
        out.push(line);
    } else {
        proof {
            assert(views(out@) + Seq::<Seq<char>>::empty() =~= views(out@));
        }
    }
    out
}

} // verus!
