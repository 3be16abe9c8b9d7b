//! Byte text: white space, trimming, prefixes and lines.
//!
//! Responses of the modem are ASCII text. The functions here work on the bytes
//! as they were received and take every byte value: a byte outside ASCII is
//! an ordinary character of its line.

use vstd::prelude::*;
use vstd::string::*;

verus! {

/// The line feed, which ends a line.
pub const LINE_FEED: u8 = 10;

/// The carriage return.
pub const CARRIAGE_RETURN: u8 = 13;

/// The bytes of an ASCII string, one for each character.
pub open spec fn ascii(s: Seq<char>) -> Seq<u8> {
    Seq::new(s.len(), |i: int| s[i] as u8)
}

/// The bytes of an ASCII string literal.
pub fn bytes_of(s: &'static str) -> (bytes: &'static [u8])
    requires
        is_ascii(s),
    ensures
        bytes@ == ascii(s@),
{
    proof {
        is_ascii_spec_bytes(s);
    }
    let bytes = s.as_bytes();
    assert(bytes@ =~= ascii(s@));
    bytes
}

/// White space: the space and the five control characters from the
/// horizontal tab to the carriage return.
pub open spec fn whitespace(b: u8) -> bool {
    b == 32 || 9 <= b <= 13
}

/// Tells whether a byte is white space.
pub fn is_whitespace(b: u8) -> (r: bool)
    ensures
        r == whitespace(b),
{
    b == 32 || (9 <= b && b <= 13)
}

/// `s` without the white space it starts with.
pub open spec fn trimmed_start(s: Seq<u8>) -> Seq<u8>
    decreases s.len(),
{
    if s.len() > 0 && whitespace(s[0]) {
        trimmed_start(s.skip(1))
    } else {
        s
    }
}

/// `s` without the white space it ends with.
pub open spec fn trimmed_end(s: Seq<u8>) -> Seq<u8>
    decreases s.len(),
{
    if s.len() > 0 && whitespace(s.last()) {
        trimmed_end(s.drop_last())
    } else {
        s
    }
}

/// `s` without the white space on either side.
pub open spec fn trimmed(s: Seq<u8>) -> Seq<u8> {
    trimmed_end(trimmed_start(s))
}

/// `s[i..j]` is `s` without surrounding white space: only white space lies
/// outside it, and it neither starts nor ends with white space.
pub open spec fn is_core(s: Seq<u8>, i: int, j: int) -> bool {
    &&& 0 <= i <= j <= s.len()
    &&& forall|k: int| 0 <= k < i ==> whitespace(#[trigger] s[k])
    &&& forall|k: int| j <= k < s.len() ==> whitespace(#[trigger] s[k])
    &&& i < j ==> !whitespace(s[i]) && !whitespace(s[j - 1])
}

proof fn lemma_trimmed_start(s: Seq<u8>, i: int)
    requires
        0 <= i <= s.len(),
        forall|k: int| 0 <= k < i ==> whitespace(#[trigger] s[k]),
        i < s.len() ==> !whitespace(s[i]),
    ensures
        trimmed_start(s) == s.skip(i),
    decreases i,
{
    if i == 0 {
        assert(s.skip(0) =~= s);
    } else {
        let t = s.skip(1);
        assert forall|k: int| 0 <= k < i - 1 implies whitespace(#[trigger] t[k]) by {
            assert(t[k] == s[k + 1]);
        }
        lemma_trimmed_start(t, i - 1);
        assert(t.skip(i - 1) =~= s.skip(i));
    }
}

proof fn lemma_trimmed_end(s: Seq<u8>, j: int)
    requires
        0 <= j <= s.len(),
        forall|k: int| j <= k < s.len() ==> whitespace(#[trigger] s[k]),
        0 < j ==> !whitespace(s[j - 1]),
    ensures
        trimmed_end(s) == s.take(j),
    decreases s.len() - j,
{
    if j == s.len() {
        assert(s.take(j) =~= s);
    } else {
        let t = s.drop_last();
        lemma_trimmed_end(t, j);
        assert(t.take(j) =~= s.take(j));
    }
}

/// Trimming is cutting out the core: where `s[i..j]` is the core of `s`,
/// it is `trimmed(s)`.
pub proof fn lemma_trimmed_is_core(s: Seq<u8>, i: int, j: int)
    requires
        is_core(s, i, j),
    ensures
        trimmed(s) == s.subrange(i, j),
{
    if i == j {
        // `s` is white space throughout
        lemma_trimmed_start(s, s.len() as int);
        assert(s.skip(s.len() as int) =~= Seq::<u8>::empty());
        assert(s.subrange(i, j) =~= Seq::<u8>::empty());
    } else {
        lemma_trimmed_start(s, i);
        let t = s.skip(i);
        assert forall|k: int| j - i <= k < t.len() implies whitespace(#[trigger] t[k]) by {
            assert(t[k] == s[k + i]);
        }
        lemma_trimmed_end(t, j - i);
        assert(t.take(j - i) =~= s.subrange(i, j));
    }
}

/// The line without the white space on either side.
pub fn trim(line: &[u8]) -> (out: &[u8])
    ensures
        out@ == trimmed(line@),
{
    let mut start: usize = 0;
    while start < line.len() && is_whitespace(line[start])
        invariant
            start <= line.len(),
            forall|k: int| 0 <= k < start ==> whitespace(#[trigger] line@[k]),
        decreases line.len() - start,
    {
        start += 1;
    }
    let mut end: usize = line.len();
    while end > start && is_whitespace(line[end - 1])
        invariant
            start <= end <= line.len(),
            forall|k: int| end <= k < line.len() ==> whitespace(#[trigger] line@[k]),
        decreases end,
    {
        end -= 1;
    }
    proof {
        lemma_trimmed_is_core(line@, start as int, end as int);
    }
    &line[start..end]
}

/// Tells whether the line begins with the prefix.
pub fn starts_with(line: &[u8], prefix: &[u8]) -> (r: bool)
    ensures
        r == prefix@.is_prefix_of(line@),
{
    if prefix.len() > line.len() {
        return false;
    }
    let mut i: usize = 0;
    while i < prefix.len()
        invariant
            i <= prefix.len() <= line.len(),
            forall|k: int| 0 <= k < i ==> prefix@[k] == line@[k],
        decreases prefix.len() - i,
    {
        if prefix[i] != line[i] {
            assert(line@.subrange(0, prefix@.len() as int)[i as int] != prefix@[i as int]);
            return false;
        }
        i += 1;
    }
    assert(prefix@ =~= line@.subrange(0, prefix@.len() as int));
    true
}

/// Tells whether two lines hold the same bytes.
pub fn same_bytes(a: &[u8], b: &[u8]) -> (r: bool)
    ensures
        r == (a@ == b@),
{
    if a.len() != b.len() {
        return false;
    }
    let r = starts_with(a, b);
    proof {
        assert(a@.subrange(0, a@.len() as int) =~= a@);
    }
    r
}

/// The number of bytes before the first line feed of `s`, or the length of
/// `s` where it holds none.
pub open spec fn line_end(s: Seq<u8>) -> nat
    decreases s.len(),
{
    if s.len() == 0 || s[0] == LINE_FEED {
        0
    } else {
        1 + line_end(s.skip(1))
    }
}

/// The lines of `s`. A line feed ends a line and does not belong to it; what
/// follows the last line feed is a line if it is not empty. A carriage return
/// is left in its line, where `trimmed` removes it.
pub open spec fn lines_of(s: Seq<u8>) -> Seq<Seq<u8>>
    decreases s.len(),
{
    if s.len() == 0 {
        Seq::empty()
    } else {
        let n = line_end(s) as int;
        if n >= s.len() {
            seq![s]
        } else {
            seq![s.take(n)] + lines_of(s.skip(n + 1))
        }
    }
}

/// `line_end(s)` is the first place that holds a line feed.
pub proof fn lemma_line_end(s: Seq<u8>, n: int)
    requires
        0 <= n <= s.len(),
        forall|k: int| 0 <= k < n ==> #[trigger] s[k] != LINE_FEED,
        n < s.len() ==> s[n] == LINE_FEED,
    ensures
        line_end(s) == n,
    decreases n,
{
    if n > 0 {
        let t = s.skip(1);
        assert forall|k: int| 0 <= k < n - 1 implies #[trigger] t[k] != LINE_FEED by {
            assert(t[k] == s[k + 1]);
        }
        lemma_line_end(t, n - 1);
    }
}

/// What each of the slices holds.
pub open spec fn views(lines: Seq<&[u8]>) -> Seq<Seq<u8>> {
    lines.map_values(|l: &[u8]| l@)
}

/// The lines of the text, in order.
pub fn split_lines<'a>(text: &'a [u8]) -> (out: Vec<&'a [u8]>)
    ensures
        views(out@) == lines_of(text@),
{
    let mut out: Vec<&'a [u8]> = Vec::new();
    let mut pos: usize = 0;
    assert(text@.skip(0) =~= text@);
    assert(views(out@) =~= Seq::<Seq<u8>>::empty());
    while pos < text.len()
        invariant
            pos <= text.len(),
            views(out@) + lines_of(text@.skip(pos as int)) == lines_of(text@),
        decreases text.len() - pos,
    {
        let mut end: usize = pos;
        while end < text.len() && text[end] != LINE_FEED
            invariant
                pos <= end <= text.len(),
                forall|k: int| pos <= k < end ==> #[trigger] text@[k] != LINE_FEED,
            decreases text.len() - end,
        {
            end += 1;
        }
        let ghost rest = text@.skip(pos as int);
        let ghost before = views(out@);
        proof {
            assert forall|k: int| 0 <= k < end - pos implies #[trigger] rest[k] != LINE_FEED by {
                assert(rest[k] == text@[pos + k]);
            }
            lemma_line_end(rest, end - pos);
            assert(rest.take(end - pos) =~= text@.subrange(pos as int, end as int));
        }
        out.push(&text[pos..end]);
        assert(views(out@) =~= before.push(text@.subrange(pos as int, end as int)));
        if end < text.len() {
            proof {
                assert(rest.skip(end - pos + 1) =~= text@.skip(end + 1));
                assert(before.push(rest.take(end - pos)) + lines_of(text@.skip(end + 1))
                    =~= before + (seq![rest.take(end - pos)] + lines_of(text@.skip(end + 1))));
            }
            pos = end + 1;
        } else {
            proof {
                assert(rest.take(end - pos) =~= rest);
                assert(lines_of(text@.skip(end as int)) =~= Seq::<Seq<u8>>::empty());
                assert(before.push(rest) + Seq::<Seq<u8>>::empty() =~= before + seq![rest]);
            }
            pos = end;
        }
    }
    assert(views(out@) + lines_of(text@.skip(pos as int)) =~= views(out@));
    out
}

} // verus!
