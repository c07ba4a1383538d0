//! Comment stripping: what runs before the grammar sees a chart.

use vstd::prelude::*;
use crate::bytes::{NEWLINE, SLASH};

verus! {

/// Whether a comment opens at `i`: two slashes in a row.
pub open spec fn comment_opens(s: Seq<u8>, i: int) -> bool {
    0 <= i && i + 1 < s.len() && s[i] == SLASH && s[i + 1] == SLASH
}

/// The text of `s` from `i` on without its comments. `inside` says whether
/// `i` lies in a comment that opened earlier on its line. A comment runs up
/// to the newline, which stays.
pub open spec fn stripped_from(s: Seq<u8>, i: int, inside: bool) -> Seq<u8>
    decreases s.len() - i,
{
    if i < 0 || i >= s.len() {
        Seq::empty()
    } else if s[i] == NEWLINE {
        seq![NEWLINE] + stripped_from(s, i + 1, false)
    } else if inside || comment_opens(s, i) {
        stripped_from(s, i + 1, true)
    } else {
        seq![s[i]] + stripped_from(s, i + 1, false)
    }
}

/// A chart's text without its comments.
pub open spec fn stripped(s: Seq<u8>) -> Seq<u8> {
    stripped_from(s, 0, false)
}

/// Whether no comment opens in `s` at or behind `i`.
pub open spec fn comment_free(s: Seq<u8>, i: int) -> bool {
    forall|k: int| i <= k ==> !comment_opens(s, k)
}

/// Text without comments is left as it is.
pub proof fn lemma_stripped_plain(s: Seq<u8>, i: int)
    requires
        0 <= i <= s.len(),
        comment_free(s, i),
    ensures
        stripped_from(s, i, false) == s.subrange(i, s.len() as int),
    decreases s.len() - i,
{
    if i < s.len() {
        assert(!comment_opens(s, i));
        lemma_stripped_plain(s, i + 1);
        assert(s.subrange(i, s.len() as int) =~= seq![s[i]] + s.subrange(
            i + 1,
            s.len() as int,
        ));
    } else {
        assert(s.subrange(i, s.len() as int) =~= Seq::<u8>::empty());
    }
}

/// No comment is left in what stripping gives.
pub proof fn lemma_stripped_has_no_comment(s: Seq<u8>, i: int, inside: bool)
    requires
        0 <= i <= s.len(),
    ensures
        comment_free(stripped_from(s, i, inside), 0),
    decreases s.len() - i,
{
    let out = stripped_from(s, i, inside);
    if i < s.len() {
        if s[i] == NEWLINE {
            let rest = stripped_from(s, i + 1, false);
            lemma_stripped_has_no_comment(s, i + 1, false);
            assert forall|k: int| 0 <= k implies !comment_opens(out, k) by {
                if k >= 1 && comment_opens(out, k) {
                    assert(comment_opens(rest, k - 1));
                }
            }
        } else if inside || comment_opens(s, i) {
            lemma_stripped_has_no_comment(s, i + 1, true);
        } else {
            let rest = stripped_from(s, i + 1, false);
            lemma_stripped_has_no_comment(s, i + 1, false);
            assert forall|k: int| 0 <= k implies !comment_opens(out, k) by {
                if k >= 1 && comment_opens(out, k) {
                    assert(comment_opens(rest, k - 1));
                }
            }
        }
    }
}

/// Stripping twice gives what stripping once gives.
pub proof fn lemma_stripped_twice(s: Seq<u8>)
    ensures
        stripped(stripped(s)) == stripped(s),
{
    let once = stripped(s);
    lemma_stripped_has_no_comment(s, 0, false);
    lemma_stripped_plain(once, 0);
    assert(once.subrange(0, once.len() as int) =~= once);
}

/// Removes every comment, from its two slashes up to the end of its line.
/// Newlines and everything outside comments stay in place.
pub fn preprocess_tja_file(text: &[u8]) -> (out: Vec<u8>)
    ensures
        out@ == stripped(text@),
{
    let mut out: Vec<u8> = Vec::new();
    let mut inside = false;
    let mut i: usize = 0;
    while i < text.len()
        invariant
            i <= text@.len(),
            text@.len() == text.len(),
            stripped(text@) == out@ + stripped_from(text@, i as int, inside),
        decreases text@.len() - i,
    {
        let b = text[i];
        let ghost before = out@;
        let ghost tail = stripped_from(text@, i + 1, b != NEWLINE && (inside || comment_opens(
            text@,
            i as int,
        )));
        if b == NEWLINE {
            out.push(b);
            inside = false;
            assert(before + (seq![NEWLINE] + tail) =~= out@ + tail);
        } else if inside || (b == SLASH && i + 1 < text.len() && text[i + 1] == SLASH) {
            inside = true;
        } else {
            out.push(b);
            assert(before + (seq![b] + tail) =~= out@ + tail);
        }
        i += 1;
    }
    assert(out@ + Seq::<u8>::empty() =~= out@);
    out
}

} // verus!
