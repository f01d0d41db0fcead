//! Text handling: stripping typed lines and case-insensitive substring
//! matching, as the session and the search over records use them.

use vstd::prelude::*;
use vstd::std_specs::iter::IteratorSpec;
use vstd::utf8::{char_is_scalar, encode_utf8};

verus! {

/// The lowercase form of `text`, as Unicode defines it.
pub uninterp spec fn lowercase(text: Seq<char>) -> Seq<char>;

/// Whether `needle` occurs in `text` as a run of consecutive characters. The
/// empty needle occurs in every text.
pub open spec fn occurs_in(needle: Seq<char>, text: Seq<char>) -> bool {
    exists|start: int|
        0 <= start && start + needle.len() <= text.len() && #[trigger] text.subrange(
            start,
            start + needle.len(),
        ) == needle
}

/// Whether `c` is white space: one of the characters to which Unicode gives
/// the property `White_Space`.
pub open spec fn is_white_space(c: char) -> bool {
    let code = c as u32;
    ||| 0x09 <= code <= 0x0d
    ||| code == 0x20
    ||| code == 0x85
    ||| code == 0xa0
    ||| code == 0x1680
    ||| 0x2000 <= code <= 0x200a
    ||| code == 0x2028
    ||| code == 0x2029
    ||| code == 0x202f
    ||| code == 0x205f
    ||| code == 0x3000
}

/// `text` without the white space it starts with.
pub open spec fn trimmed_start(text: Seq<char>) -> Seq<char>
    decreases text.len(),
{
    if text.len() > 0 && is_white_space(text.first()) {
        trimmed_start(text.drop_first())
    } else {
        text
    }
}

/// `text` without the white space it ends with.
pub open spec fn trimmed_end(text: Seq<char>) -> Seq<char>
    decreases text.len(),
{
    if text.len() > 0 && is_white_space(text.last()) {
        trimmed_end(text.drop_last())
    } else {
        text
    }
}

/// `text` without the white space around it. A text of white space alone
/// leaves the empty text.
pub open spec fn trimmed(text: Seq<char>) -> Seq<char> {
    trimmed_end(trimmed_start(text))
}

/// Where the first `lead` characters of `text` are white space and the next
/// one, if there is one, is not, the text without leading white space is
/// what follows them.
pub proof fn lemma_trimmed_start_skips(text: Seq<char>, lead: int)
    requires
        0 <= lead <= text.len(),
        forall|k: int| 0 <= k < lead ==> is_white_space(#[trigger] text[k]),
        lead < text.len() ==> !is_white_space(text[lead]),
    ensures
        trimmed_start(text) == text.skip(lead),
    decreases lead,
{
    if lead == 0 {
        assert(text.skip(0) =~= text);
    } else {
        let rest = text.drop_first();
        assert forall|k: int| 0 <= k < lead - 1 implies is_white_space(#[trigger] rest[k]) by {
            assert(rest[k] == text[k + 1]);
        }
        lemma_trimmed_start_skips(rest, lead - 1);
        assert(rest.skip(lead - 1) =~= text.skip(lead));
    }
}

/// Where the characters of `text` from position `keep` on are white space
/// and the one before them, if there is one, is not, the text without
/// trailing white space is its first `keep` characters.
pub proof fn lemma_trimmed_end_takes(text: Seq<char>, keep: int)
    requires
        0 <= keep <= text.len(),
        forall|k: int| keep <= k < text.len() ==> is_white_space(#[trigger] text[k]),
        0 < keep ==> !is_white_space(text[keep - 1]),
    ensures
        trimmed_end(text) == text.take(keep),
    decreases text.len() - keep,
{
    if keep == text.len() {
        assert(text.take(keep) =~= text);
    } else {
        let rest = text.drop_last();
        lemma_trimmed_end_takes(rest, keep);
        assert(rest.take(keep) =~= text.take(keep));
    }
}

/// A text has no more characters than its UTF-8 encoding has bytes.
pub proof fn lemma_encoding_is_no_shorter(text: Seq<char>)
    ensures
        text.len() <= encode_utf8(text).len(),
    decreases text.len(),
{
    if text.len() > 0 {
        char_is_scalar(text[0]);
        lemma_encoding_is_no_shorter(text.drop_first());
    }
}

/// Tells whether `c` is white space.
pub fn is_whitespace(c: char) -> (white: bool)
    ensures
        white == is_white_space(c),
{
    let code: u32 = c as u32;
    (0x09 <= code && code <= 0x0d) || code == 0x20 || code == 0x85 || code == 0xa0 || code
        == 0x1680 || (0x2000 <= code && code <= 0x200a) || code == 0x2028 || code == 0x2029
        || code == 0x202f || code == 0x205f || code == 0x3000
}

/// Strips the white space around `text`: the line end of a typed line is
/// part of it.
pub fn trim(text: &str) -> (inner: &str)
    ensures
        inner@ == trimmed(text@),
{
    let bytes: usize = text.as_bytes().len();
    let mut start: usize = 0;
    let mut end: usize = 0;
    let mut seen: usize = 0;
    let mut inside: bool = false;
    proof {
        lemma_encoding_is_no_shorter(text@);
    }
    for c in it: text.chars()
        invariant
            it.seq() == text@,
            text@.len() <= bytes,
            seen == it.index(),
            start <= end <= seen,
            forall|k: int| 0 <= k < start ==> is_white_space(#[trigger] text@[k]),
            forall|k: int| end <= k < seen ==> is_white_space(#[trigger] text@[k]),
            inside ==> start < end && !is_white_space(text@[start as int]) && !is_white_space(
                text@[end - 1],
            ),
            !inside ==> start == seen && end == seen,
    {
        if is_whitespace(c) {
            if !inside {
                start = seen + 1;
                end = seen + 1;
            }
        } else {
            if !inside {
                start = seen;
                inside = true;
            }
            end = seen + 1;
        }
        seen = seen + 1;
    }
    proof {
        let tail = text@.skip(start as int);
        lemma_trimmed_start_skips(text@, start as int);
        assert forall|k: int| end - start <= k < tail.len() implies is_white_space(
            #[trigger] tail[k],
        ) by {
            assert(tail[k] == text@[k + start]);
        }
        lemma_trimmed_end_takes(tail, end - start);
        assert(tail.take(end - start) =~= text@.subrange(start as int, end as int));
    }
    text.substring_char(start, end)
}

/// Lowercases `text` with `str::to_lowercase`.
///
/// Trusted: the result is the Unicode lowercase form, a function of the
/// characters of `text` alone.
#[verifier::external_body]
pub(crate) fn to_lowercase(text: &str) -> (lower: String)
    ensures
        lower@ == lowercase(text@),
{
    text.to_lowercase()
}

/// Gives the characters of `text` one by one.
pub fn chars_of(text: &str) -> (chars: Vec<char>)
    ensures
        chars@ == text@,
{
    let mut chars: Vec<char> = Vec::new();
    for c in it: text.chars()
        invariant
            it.seq() == text@,
            chars@ == text@.take(it.index()),
    {
        chars.push(c);
        assert(text@.take(it.index() + 1) =~= text@.take(it.index()).push(c));
    }
    assert(text@.take(text@.len() as int) =~= text@);
    chars
}

/// Tells whether `needle` stands in `text` at position `start`.
pub fn occurs_at(text: &[char], needle: &[char], start: usize) -> (found: bool)
    requires
        start + needle@.len() <= text@.len(),
    ensures
        found == (text@.subrange(start as int, start + needle@.len()) == needle@),
{
    let total: usize = text.len();
    let width: usize = needle.len();
    let ghost window = text@.subrange(start as int, start + width);
    let mut i: usize = 0;
    while i < width
        invariant
            width == needle@.len(),
            total == text@.len(),
            start + width <= total,
            window == text@.subrange(start as int, start + width),
            i <= width,
            forall|k: int| 0 <= k < i ==> window[k] == needle@[k],
        decreases width - i,
    {
        if text[start + i] != needle[i] {
            assert(window[i as int] != needle@[i as int]);
            return false;
        }
        i = i + 1;
    }
    assert(window =~= needle@);
    true
}

/// Tells whether `needle` occurs in `text`.
pub fn occurs(text: &[char], needle: &[char]) -> (found: bool)
    ensures
        found == occurs_in(needle@, text@),
{
    if needle.len() > text.len() {
        return false;
    }
    let last: usize = text.len() - needle.len();
    let mut start: usize = 0;
    loop
        invariant
            last + needle@.len() == text@.len(),
            start <= last,
            forall|earlier: int|
                0 <= earlier < start ==> #[trigger] text@.subrange(
                    earlier,
                    earlier + needle@.len(),
                ) != needle@,
        decreases last - start,
    {
        if occurs_at(text, needle, start) {
            return true;
        }
        if start == last {
            return false;
        }
        start = start + 1;
    }
}

} // verus!
