//! Header lines: a key of capitals and digits, a colon, and a value that runs
//! to the end of the line.

use vstd::prelude::*;
use vstd::slice::slice_subrange;
use crate::bytes::{
    in_class, lemma_run_end_is, run_end, scan_run, ByteClass, COLON, NEWLINE, RETURN,
};
use crate::model::SyntaxError;

verus! {

/// Where the key that starts at `i` ends: behind a run of at least one
/// capital or digit, and before a colon.
pub open spec fn tag_end(s: Seq<u8>, i: int) -> Option<int> {
    let e = run_end(s, i, ByteClass::TagChar);
    if i < e < s.len() && s[e] == COLON {
        Some(e)
    } else {
        None
    }
}

/// The places of a header line that starts at `i`.
pub struct PairSpan {
    /// Where the key ends and the colon stands.
    pub key_end: int,
    /// Where the value starts: behind the colon and the blanks after it.
    pub value_start: int,
    /// Where the value ends: before the line break.
    pub value_end: int,
    /// Where the next line starts.
    pub next: int,
}

/// Where the value that starts at `v` ends, given that its line's body ends
/// at `e`: a carriage return before the newline is no part of it.
pub open spec fn value_end(s: Seq<u8>, v: int, e: int) -> int {
    if v < e && s[e - 1] == RETURN {
        e - 1
    } else {
        e
    }
}

pub open spec fn pair_span(s: Seq<u8>, i: int) -> Option<PairSpan> {
    match tag_end(s, i) {
        Some(k) => {
            let v = run_end(s, k + 1, ByteClass::Blank);
            let e = run_end(s, v, ByteClass::LineBody);
            Some(
                PairSpan {
                    key_end: k,
                    value_start: v,
                    value_end: value_end(s, v, e),
                    next: if e < s.len() {
                        e + 1
                    } else {
                        e
                    },
                },
            )
        },
        None => None,
    }
}

/// The key of a header line at `pos`, or `None` where no key stands there.
pub fn tagname_at(input: &[u8], pos: usize) -> (r: Option<usize>)
    requires
        pos <= input@.len(),
    ensures
        match r {
            Some(e) => tag_end(input@, pos as int) == Some(e as int) && pos < e < input@.len(),
            None => tag_end(input@, pos as int) is None,
        },
{
    let e = scan_run(input, pos, ByteClass::TagChar);
    if pos < e && e < input.len() && input[e] == COLON {
        Some(e)
    } else {
        None
    }
}

/// The places of the header line at `pos` as `(key_end, value_start,
/// value_end, next)`, or `None` where no header line stands there.
pub fn metadata_pair_at(input: &[u8], pos: usize) -> (r: Option<(usize, usize, usize, usize)>)
    requires
        pos <= input@.len(),
    ensures
        match r {
            Some((k, v, w, n)) => pair_span(input@, pos as int) == Some(
                (PairSpan { key_end: k as int, value_start: v as int, value_end: w as int, next: n as int }),
            ) && pos < k < v <= w <= n <= input@.len(),
            None => pair_span(input@, pos as int) is None,
        },
{
    let total = input.len();
    match tagname_at(input, pos) {
        None => None,
        Some(k) => {
            let v = scan_run(input, k + 1, ByteClass::Blank);
            let e = scan_run(input, v, ByteClass::LineBody);
            let w = if v < e && input[e - 1] == RETURN {
                e - 1
            } else {
                e
            };
            let n = if e < total {
                e + 1
            } else {
                e
            };
            Some((k, v, w, n))
        },
    }
}

/// Reads the key at the start of `input`. The colon behind it is left in the
/// rest.
pub fn metadata_tagname<'a>(input: &'a [u8]) -> (r: Result<(&'a [u8], &'a [u8]), SyntaxError>)
    ensures
        match r {
            Ok((rest, tag)) => match tag_end(input@, 0) {
                Some(e) => tag@ == input@.subrange(0, e) && rest@ == input@.subrange(
                    e,
                    input@.len() as int,
                ),
                None => false,
            },
            Err(_) => tag_end(input@, 0) is None,
        },
{
    match tagname_at(input, 0) {
        Some(e) => Ok((slice_subrange(input, e, input.len()), slice_subrange(input, 0, e))),
        None => Err(SyntaxError {  }),
    }
}

/// Reads one header line at the start of `input`: the key, and the value
/// without the blanks before it and without the line break.
pub fn metadata_pair<'a>(input: &'a [u8]) -> (r: Result<
    (&'a [u8], (&'a [u8], &'a [u8])),
    SyntaxError,
>)
    ensures
        match r {
            Ok((rest, (key, value))) => match pair_span(input@, 0) {
                Some(p) => key@ == input@.subrange(0, p.key_end) && value@ == input@.subrange(
                    p.value_start,
                    p.value_end,
                ) && rest@ == input@.subrange(p.next, input@.len() as int),
                None => false,
            },
            Err(_) => pair_span(input@, 0) is None,
        },
{
    match metadata_pair_at(input, 0) {
        Some((k, v, w, n)) => Ok(
            (
                slice_subrange(input, n, input.len()),
                (slice_subrange(input, 0, k), slice_subrange(input, v, w)),
            ),
        ),
        None => Err(SyntaxError {  }),
    }
}

/// A line made of a key, a colon, a value and a line break.
pub open spec fn header_line(key: Seq<u8>, value: Seq<u8>, crlf: bool) -> Seq<u8> {
    key + seq![COLON] + value + if crlf {
        seq![RETURN, NEWLINE]
    } else {
        seq![NEWLINE]
    }
}

/// Whether `key` can stand as a key: capitals and digits, at least one.
pub open spec fn is_key(key: Seq<u8>) -> bool {
    key.len() > 0 && forall|k: int|
        0 <= k < key.len() ==> in_class(ByteClass::TagChar, #[trigger] key[k])
}

/// Whether `value` can stand as a value: no newline in it, no blank at its
/// start, no carriage return at its end. The empty value is one.
pub open spec fn is_value(value: Seq<u8>) -> bool {
    &&& forall|k: int| 0 <= k < value.len() ==> #[trigger] value[k] != NEWLINE
    &&& value.len() > 0 ==> !in_class(ByteClass::Blank, value[0]) && value.last() != RETURN
}

/// A header line reads back as its key and its value, without the line
/// break, whether the line ends in a newline or in a carriage return and a
/// newline, and also where the value is empty.
pub proof fn lemma_header_line_reads_back(key: Seq<u8>, value: Seq<u8>, crlf: bool)
    requires
        is_key(key),
        is_value(value),
    ensures
        ({
            let s = header_line(key, value, crlf);
            match pair_span(s, 0) {
                Some(p) => s.subrange(0, p.key_end) == key && s.subrange(
                    p.value_start,
                    p.value_end,
                ) == value && p.next == s.len(),
                None => false,
            }
        }),
{
    let s = header_line(key, value, crlf);
    let k = key.len() as int;
    let v = k + 1;
    let w = v + value.len();
    assert(s[k] == COLON);
    assert forall|j: int| 0 <= j < k implies in_class(ByteClass::TagChar, #[trigger] s[j]) by {
        assert(s[j] == key[j]);
    }
    lemma_run_end_is(s, 0, k, ByteClass::TagChar);
    if value.len() > 0 {
        assert(s[v] == value[0]);
    }
    lemma_run_end_is(s, v, v, ByteClass::Blank);
    let e = if crlf {
        w + 1
    } else {
        w
    };
    assert forall|j: int| v <= j < e implies in_class(ByteClass::LineBody, #[trigger] s[j]) by {
        if j < w {
            assert(s[j] == value[j - v]);
        }
    }
    assert(s[e] == NEWLINE);
    lemma_run_end_is(s, v, e, ByteClass::LineBody);
    if !crlf && value.len() > 0 {
        assert(s[w - 1] == value[value.len() - 1]);
    }
    assert(s.subrange(0, k) =~= key);
    assert(s.subrange(v, w) =~= value);
}

} // verus!
