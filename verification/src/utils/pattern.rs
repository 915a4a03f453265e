//! Regular expressions, as the `regex` crate runs them, and the plain-text handling of
//! descriptions around them.

use vstd::prelude::*;
use crate::utils::text::chars_of;

verus! {

/// `haystack` with every match of `pattern` replaced by `replacement`, where `$1` and the like
/// stand for the groups of the match; `None` when `pattern` is not a valid regular expression.
pub uninterp spec fn regex_replaced(pattern: Seq<char>, haystack: Seq<char>, replacement: Seq<char>) -> Option<Seq<char>>;

/// Trusted: `regex::Regex::new` followed by `Regex::replace_all`. The result is named, not
/// stated: `None` exactly when the pattern does not compile, otherwise the text with the
/// matches replaced.
#[verifier::external_body]
pub(crate) fn regex_replace_all(pattern: &str, haystack: &str, replacement: &str) -> (r: Option<String>)
    ensures
        match r {
            Some(s) => regex_replaced(pattern@, haystack@, replacement@) == Some(s@),
            None => regex_replaced(pattern@, haystack@, replacement@) is None,
        },
{
    match regex::Regex::new(pattern) {
        Ok(re) => Some(re.replace_all(haystack, replacement).into_owned()),
        Err(_) => None,
    }
}

/// The groups of every match of `pattern` in `haystack`, from the left and without overlap:
/// the whole match first, then each group, `None` where a group took no part; `None` when
/// `pattern` is not a valid regular expression.
pub uninterp spec fn regex_captured(pattern: Seq<char>, haystack: Seq<char>) -> Option<Seq<Seq<Option<Seq<char>>>>>;

/// The view of what `regex_captures` hands back.
pub open spec fn captures_view(c: Vec<Vec<Option<String>>>) -> Seq<Seq<Option<Seq<char>>>> {
    c@.map_values(|m: Vec<Option<String>>| m@.map_values(|g: Option<String>| match g {
        Some(s) => Some(s@),
        None => None,
    }))
}

/// Trusted: `regex::Regex::new` followed by `Regex::captures_iter`, each group of each match
/// taken as its text. The result is named, not stated.
#[verifier::external_body]
pub(crate) fn regex_captures(pattern: &str, haystack: &str) -> (r: Option<Vec<Vec<Option<String>>>>)
    ensures
        match r {
            Some(c) => regex_captured(pattern@, haystack@) == Some(captures_view(c)),
            None => regex_captured(pattern@, haystack@) is None,
        },
{
    match regex::Regex::new(pattern) {
        Ok(re) => Some(
            re.captures_iter(haystack)
                .map(|c| c.iter().map(|g| g.map(|g| g.as_str().to_owned())).collect())
                .collect(),
        ),
        Err(_) => None,
    }
}

/// Whether `c` is white space, as `char::is_whitespace` tells by Unicode's `White_Space`.
pub open spec fn is_white(c: char) -> bool {
    ('\t' <= c && c <= '\r') || c == ' ' || c == '\u{85}' || c == '\u{a0}' || c == '\u{1680}'
        || ('\u{2000}' <= c && c <= '\u{200a}') || c == '\u{2028}' || c == '\u{2029}' || c == '\u{202f}'
        || c == '\u{205f}' || c == '\u{3000}'
}

pub fn is_white_char(c: char) -> (r: bool)
    ensures
        r == is_white(c),
{
    ('\t' <= c && c <= '\r') || c == ' ' || c == '\u{85}' || c == '\u{a0}' || c == '\u{1680}'
        || ('\u{2000}' <= c && c <= '\u{200a}') || c == '\u{2028}' || c == '\u{2029}' || c == '\u{202f}'
        || c == '\u{205f}' || c == '\u{3000}'
}

/// The words of `s` joined by single spaces, as `split_whitespace` and `join(" ")` give them.
pub open spec fn collapse_spec(s: Seq<char>) -> Seq<char>
    decreases s.len(),
{
    if s.len() == 0 {
        Seq::empty()
    } else {
        let front = collapse_spec(s.drop_last());
        let c = s.last();
        if is_white(c) {
            front
        } else if front.len() > 0 && is_white(s.drop_last().last()) {
            front.push(' ').push(c)
        } else {
            front.push(c)
        }
    }
}

/// The words of `s` joined by single spaces.
pub fn collapse(s: &Vec<char>) -> (r: Vec<char>)
    ensures
        r@ == collapse_spec(s@),
{
    let mut r: Vec<char> = Vec::new();
    let mut i: usize = 0;
    while i < s.len()
        invariant
            i <= s.len(),
            r@ == collapse_spec(s@.take(i as int)),
        decreases s.len() - i,
    {
        let c = s[i];
        assert(s@.take(i + 1).drop_last() =~= s@.take(i as int));
        assert(s@.take(i + 1).last() == c);
        if is_white_char(c) {
        } else if r.len() > 0 && is_white_char(s[i - 1]) {
            assert(s@.take(i as int).last() == s@[i - 1]);
            r.push(' ');
            r.push(c);
        } else {
            proof {
                if i > 0 {
                    assert(s@.take(i as int).last() == s@[i - 1]);
                }
            }
            r.push(c);
        }
        i = i + 1;
    }
    assert(s@.take(s@.len() as int) =~= s@);
    r
}

/// The number of white characters `s` begins with.
pub open spec fn leading_white(s: Seq<char>) -> int
    decreases s.len(),
{
    if s.len() == 0 || !is_white(s[0]) {
        0
    } else {
        1 + leading_white(s.drop_first())
    }
}

/// The number of white characters `s` ends with.
pub open spec fn trailing_white(s: Seq<char>) -> int
    decreases s.len(),
{
    if s.len() == 0 || !is_white(s.last()) {
        0
    } else {
        1 + trailing_white(s.drop_last())
    }
}

/// `s` without white space at either end, as `str::trim` gives it.
pub open spec fn trim_spec(s: Seq<char>) -> Seq<char> {
    if leading_white(s) == s.len() {
        Seq::empty()
    } else {
        s.subrange(leading_white(s), s.len() - trailing_white(s))
    }
}

proof fn lemma_leading_bound(s: Seq<char>)
    ensures
        0 <= leading_white(s) <= s.len(),
        leading_white(s) < s.len() ==> !is_white(s[leading_white(s)]),
        forall|k: int| 0 <= k < leading_white(s) ==> is_white(#[trigger] s[k]),
    decreases s.len(),
{
    if s.len() > 0 && is_white(s[0]) {
        let rest = s.drop_first();
        lemma_leading_bound(rest);
        assert forall|k: int| 0 <= k < leading_white(s) implies is_white(#[trigger] s[k]) by {
            if k > 0 {
                assert(s[k] == rest[k - 1]);
            }
        }
        if leading_white(s) < s.len() {
            assert(s[leading_white(s)] == rest[leading_white(rest)]);
        }
    }
}

proof fn lemma_trailing_bound(s: Seq<char>)
    ensures
        0 <= trailing_white(s) <= s.len(),
        trailing_white(s) < s.len() ==> !is_white(s[s.len() - 1 - trailing_white(s)]),
        forall|k: int| s.len() - trailing_white(s) <= k < s.len() ==> is_white(#[trigger] s[k]),
    decreases s.len(),
{
    if s.len() > 0 && is_white(s.last()) {
        let rest = s.drop_last();
        lemma_trailing_bound(rest);
        assert forall|k: int| s.len() - trailing_white(s) <= k < s.len() implies is_white(#[trigger] s[k]) by {
            if k < s.len() - 1 {
                assert(s[k] == rest[k]);
            }
        }
        if trailing_white(s) < s.len() {
            assert(s[s.len() - 1 - trailing_white(s)] == rest[rest.len() - 1 - trailing_white(rest)]);
        }
    }
}

/// `s` without white space at either end.
pub fn trim(s: &Vec<char>) -> (r: Vec<char>)
    ensures
        r@ == trim_spec(s@),
{
    proof {
        lemma_leading_bound(s@);
        lemma_trailing_bound(s@);
    }
    let mut start: usize = 0;
    while start < s.len() && is_white_char(s[start])
        invariant
            start <= s.len(),
            forall|k: int| 0 <= k < start ==> is_white(#[trigger] s@[k]),
            0 <= leading_white(s@) <= s@.len(),
            leading_white(s@) < s@.len() ==> !is_white(s@[leading_white(s@)]),
            forall|k: int| 0 <= k < leading_white(s@) ==> is_white(#[trigger] s@[k]),
        decreases s.len() - start,
    {
        start = start + 1;
    }
    assert(start == leading_white(s@)) by {
        if start < leading_white(s@) {
            assert(is_white(s@[start as int]));
        }
        if start > leading_white(s@) {
            assert(is_white(s@[leading_white(s@)]));
        }
    }
    if start == s.len() {
        return Vec::new();
    }
    let mut end: usize = s.len();
    while end > start && is_white_char(s[end - 1])
        invariant
            start < s.len(),
            start == leading_white(s@),
            start <= end <= s.len(),
            forall|k: int| end <= k < s.len() ==> is_white(#[trigger] s@[k]),
            0 <= trailing_white(s@) <= s@.len(),
            trailing_white(s@) < s@.len() ==> !is_white(s@[s@.len() - 1 - trailing_white(s@)]),
            forall|k: int| s@.len() - trailing_white(s@) <= k < s@.len() ==> is_white(#[trigger] s@[k]),
            !is_white(s@[start as int]),
        decreases end,
    {
        end = end - 1;
    }
    assert(end == s.len() - trailing_white(s@)) by {
        if end > s.len() - trailing_white(s@) {
            assert(is_white(s@[end - 1]));
        }
        if end < s.len() - trailing_white(s@) {
            assert(is_white(s@[s@.len() - 1 - trailing_white(s@)]));
        }
    }
    let mut r: Vec<char> = Vec::new();
    let mut i: usize = start;
    while i < end
        invariant
            start <= i <= end <= s.len(),
            r@ == s@.subrange(start as int, i as int),
        decreases end - i,
    {
        r.push(s[i]);
        i = i + 1;
        assert(r@ =~= s@.subrange(start as int, i as int));
    }
    r
}

/// `s` with every `\r\n` made a `\n`, as `str::replace("\r\n", "\n")` gives it.
pub open spec fn crlf_spec(s: Seq<char>) -> Seq<char>
    decreases s.len(),
{
    if s.len() == 0 {
        Seq::empty()
    } else if s.len() >= 2 && s.last() == '\n' && s[s.len() - 2] == '\r' {
        crlf_spec(s.drop_last().drop_last()).push('\n')
    } else {
        crlf_spec(s.drop_last()).push(s.last())
    }
}

/// `s` with every `\r\n` made a `\n`.
pub fn crlf_to_lf(s: &Vec<char>) -> (r: Vec<char>)
    ensures
        r@ == crlf_spec(s@),
{
    let mut r: Vec<char> = Vec::new();
    let mut i: usize = 0;
    while i < s.len()
        invariant
            i <= s.len(),
            r@ == crlf_spec(s@.take(i as int)),
            i > 0 && s@[i - 1] == '\r' ==> r@.len() > 0 && r@.last() == '\r',
        decreases s.len() - i,
    {
        let c = s[i];
        let ghost t = s@.take(i + 1);
        assert(t.drop_last() =~= s@.take(i as int));
        if c == '\n' && i > 0 && s[i - 1] == '\r' {
            assert(t.drop_last().drop_last() =~= s@.take(i - 1));
            assert(s@.take(i as int).drop_last() =~= s@.take(i - 1));
            proof {
                if i >= 2 && s@[i - 2] == '\r' {
                    assert(s@.take(i as int)[i - 2] == '\r');
                }
            }
            assert(crlf_spec(s@.take(i as int)) == crlf_spec(s@.take(i - 1)).push('\r'));
            r.pop();
            r.push('\n');
            assert(r@ =~= crlf_spec(s@.take(i - 1)).push('\n'));
        } else {
            r.push(c);
        }
        i = i + 1;
    }
    assert(s@.take(s@.len() as int) =~= s@);
    r
}

/// `s` cut at every blank line (`\n\n`), from the left and without overlap, as
/// `str::split("\n\n")` cuts it.
pub open spec fn paragraphs_spec(s: Seq<char>) -> Seq<Seq<char>>
    decreases s.len(),
{
    if s.len() < 2 {
        seq![s]
    } else if s[0] == '\n' && s[1] == '\n' {
        seq![Seq::<char>::empty()] + paragraphs_spec(s.skip(2))
    } else {
        let rest = paragraphs_spec(s.drop_first());
        rest.update(0, seq![s[0]] + rest[0])
    }
}

proof fn lemma_paragraphs_nonempty(s: Seq<char>)
    ensures
        paragraphs_spec(s).len() >= 1,
    decreases s.len(),
{
    if s.len() >= 2 {
        if s[0] == '\n' && s[1] == '\n' {
            lemma_paragraphs_nonempty(s.skip(2));
        } else {
            lemma_paragraphs_nonempty(s.drop_first());
        }
    }
}

/// The pieces `done`, then the pieces of the rest with `current` in front of its first.
pub open spec fn pieces_with(done: Seq<Seq<char>>, current: Seq<char>, rest: Seq<Seq<char>>) -> Seq<Seq<char>> {
    done + rest.update(0, current + rest[0])
}

/// `s` cut at every blank line.
pub fn paragraphs(s: &Vec<char>) -> (r: Vec<Vec<char>>)
    ensures
        r@.len() == paragraphs_spec(s@).len(),
        forall|k: int| 0 <= k < r@.len() ==> #[trigger] r@[k]@ == paragraphs_spec(s@)[k],
{
    let mut done: Vec<Vec<char>> = Vec::new();
    let mut current: Vec<char> = Vec::new();
    let mut i: usize = 0;
    let ghost all = paragraphs_spec(s@);
    proof {
        lemma_paragraphs_nonempty(s@);
        let rest = paragraphs_spec(s@.skip(0));
        assert(s@.skip(0) =~= s@);
        assert(rest.update(0, Seq::<char>::empty() + rest[0]) =~= rest);
    }
    while i < s.len()
        invariant
            i <= s.len(),
            all == paragraphs_spec(s@),
            paragraphs_spec(s@.skip(i as int)).len() >= 1,
            all == pieces_with(done@.map_values(|v: Vec<char>| v@), current@, paragraphs_spec(s@.skip(i as int))),
        decreases s.len() - i,
    {
        let ghost t = s@.skip(i as int);
        let ghost views_before = done@.map_values(|v: Vec<char>| v@);
        if i + 1 < s.len() && s[i] == '\n' && s[i + 1] == '\n' {
            assert(t.skip(2) =~= s@.skip(i + 2));
            proof {
                lemma_paragraphs_nonempty(s@.skip(i + 2));
            }
            let finished = current;
            done.push(finished);
            current = Vec::new();
            let ghost rest = paragraphs_spec(s@.skip(i + 2));
            assert(paragraphs_spec(t) == seq![Seq::<char>::empty()] + rest);
            assert(done@.map_values(|v: Vec<char>| v@) =~= views_before.push(finished@));
            assert(pieces_with(views_before, finished@, seq![Seq::<char>::empty()] + rest)
                =~= pieces_with(done@.map_values(|v: Vec<char>| v@), current@, rest)) by {
                assert(rest.update(0, Seq::<char>::empty() + rest[0]) =~= rest);
            }
            i = i + 2;
        } else {
            assert(t.drop_first() =~= s@.skip(i + 1));
            proof {
                lemma_paragraphs_nonempty(s@.skip(i + 1));
            }
            let ghost before = current@;
            let ghost rest = paragraphs_spec(s@.skip(i + 1));
            proof {
                if t.len() >= 2 {
                    assert(paragraphs_spec(t) == rest.update(0, seq![t[0]] + rest[0]));
                } else {
                    assert(t.len() == 1);
                    assert(s@.skip(i + 1) =~= Seq::<char>::empty());
                    assert(rest == seq![Seq::<char>::empty()]);
                    assert(paragraphs_spec(t) == seq![t]);
                    assert(seq![t[0]] =~= t);
                    assert(rest.update(0, seq![t[0]] + rest[0]) =~= seq![t]);
                }
            }
            current.push(s[i]);
            assert(current@ == before.push(t[0]));
            assert(pieces_with(views_before, before, rest.update(0, seq![t[0]] + rest[0]))
                =~= pieces_with(views_before, current@, rest)) by {
                assert(before + (seq![t[0]] + rest[0]) =~= current@ + rest[0]);
            }
            i = i + 1;
        }
    }
    let ghost end = paragraphs_spec(s@.skip(i as int));
    assert(s@.skip(i as int) =~= Seq::<char>::empty());
    assert(end == seq![Seq::<char>::empty()]);
    let ghost views_before = done@.map_values(|v: Vec<char>| v@);
    let last = current;
    done.push(last);
    assert(done@.map_values(|v: Vec<char>| v@) =~= views_before.push(last@));
    assert(all =~= views_before.push(last@)) by {
        assert(end.update(0, last@ + end[0]) =~= seq![last@]);
    }
    done
}

} // verus!
