//! Note tracks: the command lines, the runs of note digits, and the track as
//! a whole, from its start command to its end command.

use vstd::prelude::*;
use vstd::slice::slice_subrange;
use crate::bytes::{
    decimal, has_word, lemma_run_end, line_break, number_at, number_parse, read_decimal,
    run_end, scan_run, take_line_break, word_at, ByteClass, Decimal, COMMA, HASH, NEWLINE, RETURN,
    SLASH, SPACE, ZERO,
};
use crate::model::{
    entry_views, EntryView, NoteTrackEntry, Player, SyntaxError, TJANoteType, TrackCommand,
};

verus! {

pub const DIGIT_ONE: u8 = 49;

pub const DIGIT_TWO: u8 = 50;

pub const UPPER_P: u8 = 80;

/// The words that open a command line.
#[derive(Clone, Copy, Debug, PartialEq, Eq)]
pub enum Word {
    /// `#START`
    Start,
    /// `#END`
    End,
    /// `#GOGOSTART`
    GogoStart,
    /// `#GOGOEND`
    GogoEnd,
    /// `#BARLINEOFF`
    BarlineOff,
    /// `#BARLINEON`
    BarlineOn,
    /// `#MEASURE` and the space behind it
    Measure,
    /// `#BPMCHANGE` and the space behind it
    BpmChange,
    /// `#SCROLL` and the space behind it
    Scroll,
}

/// The bytes of a word.
pub open spec fn word_text(w: Word) -> Seq<u8> {
    match w {
        Word::Start => seq![HASH, 83, 84, 65, 82, 84],
        Word::End => seq![HASH, 69, 78, 68],
        Word::GogoStart => seq![HASH, 71, 79, 71, 79, 83, 84, 65, 82, 84],
        Word::GogoEnd => seq![HASH, 71, 79, 71, 79, 69, 78, 68],
        Word::BarlineOff => seq![HASH, 66, 65, 82, 76, 73, 78, 69, 79, 70, 70],
        Word::BarlineOn => seq![HASH, 66, 65, 82, 76, 73, 78, 69, 79, 78],
        Word::Measure => seq![HASH, 77, 69, 65, 83, 85, 82, 69, SPACE],
        Word::BpmChange => seq![HASH, 66, 80, 77, 67, 72, 65, 78, 71, 69, SPACE],
        Word::Scroll => seq![HASH, 83, 67, 82, 79, 76, 76, SPACE],
    }
}

pub fn word_bytes(w: Word) -> (v: Vec<u8>)
    ensures
        v@ == word_text(w),
{
    let v = match w {
        Word::Start => vec![HASH, 83, 84, 65, 82, 84],
        Word::End => vec![HASH, 69, 78, 68],
        Word::GogoStart => vec![HASH, 71, 79, 71, 79, 83, 84, 65, 82, 84],
        Word::GogoEnd => vec![HASH, 71, 79, 71, 79, 69, 78, 68],
        Word::BarlineOff => vec![HASH, 66, 65, 82, 76, 73, 78, 69, 79, 70, 70],
        Word::BarlineOn => vec![HASH, 66, 65, 82, 76, 73, 78, 69, 79, 78],
        Word::Measure => vec![HASH, 77, 69, 65, 83, 85, 82, 69, SPACE],
        Word::BpmChange => vec![HASH, 66, 80, 77, 67, 72, 65, 78, 71, 69, SPACE],
        Word::Scroll => vec![HASH, 83, 67, 82, 79, 76, 76, SPACE],
    };
    assert(v@ =~= word_text(w));
    v
}

/// A command that is its word alone: the word at `p`, then a line break.
pub open spec fn plain_command(s: Seq<u8>, p: int, w: Word) -> Option<int> {
    if word_at(s, p, word_text(w)) {
        line_break(s, p + word_text(w).len())
    } else {
        None
    }
}

pub fn plain_command_at(input: &[u8], p: usize, w: Word) -> (r: Option<usize>)
    requires
        p <= input@.len(),
    ensures
        match r {
            Some(e) => plain_command(input@, p as int, w) == Some(e as int) && p < e
                <= input@.len(),
            None => plain_command(input@, p as int, w) is None,
        },
{
    let total = input.len();
    let text = word_bytes(w);
    if has_word(input, p, text.as_slice()) {
        assert(p + text@.len() <= total);
        take_line_break(input, p + text.len())
    } else {
        None
    }
}

/// The end command at `i`: white space, `#END`, and a line break right
/// behind it.
pub open spec fn end_command_end(s: Seq<u8>, i: int) -> Option<int> {
    plain_command(s, run_end(s, i, ByteClass::Space), Word::End)
}

pub fn end_command_at(input: &[u8], pos: usize) -> (r: Option<usize>)
    requires
        pos <= input@.len(),
    ensures
        match r {
            Some(e) => end_command_end(input@, pos as int) == Some(e as int) && pos < e
                <= input@.len(),
            None => end_command_end(input@, pos as int) is None,
        },
{
    let p = scan_run(input, pos, ByteClass::Space);
    plain_command_at(input, p, Word::End)
}

/// The end command is read only where `#END` stands behind the white space
/// and the text ends, or its line ends, right behind the word.
pub proof fn lemma_end_command_only(s: Seq<u8>, i: int)
    ensures
        ({
            let p = run_end(s, i, ByteClass::Space);
            end_command_end(s, i) is Some <==> word_at(s, p, word_text(Word::End)) && (p + 4
                == s.len() || s[p + 4] == NEWLINE || (p + 5 < s.len() && s[p + 4] == RETURN
                && s[p + 5] == NEWLINE))
        }),
{
}

/// The start command at `i`: white space, `#START`, then either a line break,
/// or one space, `P1` or `P2`, and a line break.
pub open spec fn start_command_parse(s: Seq<u8>, i: int) -> Option<(int, TrackCommand)> {
    let p = run_end(s, i, ByteClass::Space);
    let q = p + 6;
    if !word_at(s, p, word_text(Word::Start)) {
        None
    } else if q < s.len() && s[q] == SPACE {
        if q + 2 < s.len() && s[q + 1] == UPPER_P && (s[q + 2] == DIGIT_ONE || s[q + 2]
            == DIGIT_TWO) {
            match line_break(s, q + 3) {
                Some(e) => Some(
                    (
                        e,
                        TrackCommand::Start {
                            player: Some(
                                if s[q + 2] == DIGIT_ONE {
                                    Player::Player1
                                } else {
                                    Player::Player2
                                },
                            ),
                        },
                    ),
                ),
                None => None,
            }
        } else {
            None
        }
    } else {
        match line_break(s, q) {
            Some(e) => Some((e, TrackCommand::Start { player: None })),
            None => None,
        }
    }
}

pub fn start_command_at(input: &[u8], pos: usize) -> (r: Option<(usize, TrackCommand)>)
    requires
        pos <= input@.len(),
    ensures
        match r {
            Some((e, c)) => start_command_parse(input@, pos as int) == Some((e as int, c))
                && pos < e <= input@.len(),
            None => start_command_parse(input@, pos as int) is None,
        },
{
    let total = input.len();
    let p = scan_run(input, pos, ByteClass::Space);
    let text = word_bytes(Word::Start);
    if !has_word(input, p, text.as_slice()) {
        return None;
    }
    let q = p + 6;
    if q < total && input[q] == SPACE {
        if total - q > 2 && input[q + 1] == UPPER_P && (input[q + 2] == DIGIT_ONE || input[q
            + 2] == DIGIT_TWO) {
            let player = if input[q + 2] == DIGIT_ONE {
                Player::Player1
            } else {
                Player::Player2
            };
            match take_line_break(input, q + 3) {
                Some(e) => Some((e, TrackCommand::Start { player: Some(player) })),
                None => None,
            }
        } else {
            None
        }
    } else {
        match take_line_break(input, q) {
            Some(e) => Some((e, TrackCommand::Start { player: None })),
            None => None,
        }
    }
}

/// The measure command at `p`: `#MEASURE`, a space, a number, a slash, a
/// number and a line break. A number is one to nine digits and not zero.
pub open spec fn measure_command(s: Seq<u8>, p: int) -> Option<(int, TrackCommand)> {
    let a0 = p + 9;
    let a1 = run_end(s, a0, ByteClass::Digit);
    let b0 = a1 + 1;
    let b1 = run_end(s, b0, ByteClass::Digit);
    if word_at(s, p, word_text(Word::Measure)) && 1 <= a1 - a0 <= 9 && a1 < s.len() && s[a1]
        == SLASH && 1 <= b1 - b0 <= 9 && decimal(s, a0, a1) > 0 && decimal(s, b0, b1) > 0 {
        match line_break(s, b1) {
            Some(e) => Some(
                (e, TrackCommand::Measure(decimal(s, a0, a1) as u32, decimal(s, b0, b1) as u32)),
            ),
            None => None,
        }
    } else {
        None
    }
}

pub fn measure_command_at(input: &[u8], p: usize) -> (r: Option<(usize, TrackCommand)>)
    requires
        p <= input@.len(),
    ensures
        match r {
            Some((e, c)) => measure_command(input@, p as int) == Some((e as int, c)) && p < e
                <= input@.len(),
            None => measure_command(input@, p as int) is None,
        },
{
    let total = input.len();
    let text = word_bytes(Word::Measure);
    if !has_word(input, p, text.as_slice()) {
        return None;
    }
    let a0 = p + 9;
    let a1 = scan_run(input, a0, ByteClass::Digit);
    if a1 == a0 || a1 - a0 > 9 || a1 >= total || input[a1] != SLASH {
        return None;
    }
    let b0 = a1 + 1;
    let b1 = scan_run(input, b0, ByteClass::Digit);
    if b1 == b0 || b1 - b0 > 9 {
        return None;
    }
    proof {
        lemma_run_end(input@, a0 as int, ByteClass::Digit);
        lemma_run_end(input@, b0 as int, ByteClass::Digit);
    }
    let a = read_decimal(input, a0, a1);
    let b = read_decimal(input, b0, b1);
    if a == 0 || b == 0 {
        return None;
    }
    match take_line_break(input, b1) {
        Some(e) => Some((e, TrackCommand::Measure(a, b))),
        None => None,
    }
}

/// A command that is its word and a number: the word at `p`, the number
/// right behind it, then a line break.
pub open spec fn valued_command(s: Seq<u8>, p: int, w: Word) -> Option<(int, Decimal)> {
    if word_at(s, p, word_text(w)) {
        match number_parse(s, p + word_text(w).len()) {
            Some((e, d)) => match line_break(s, e) {
                Some(n) => Some((n, d)),
                None => None,
            },
            None => None,
        }
    } else {
        None
    }
}

pub fn valued_command_at(input: &[u8], p: usize, w: Word) -> (r: Option<(usize, Decimal)>)
    requires
        p <= input@.len(),
    ensures
        match r {
            Some((e, d)) => valued_command(input@, p as int, w) == Some((e as int, d)) && p < e
                <= input@.len(),
            None => valued_command(input@, p as int, w) is None,
        },
{
    let total = input.len();
    let text = word_bytes(w);
    if !has_word(input, p, text.as_slice()) {
        return None;
    }
    assert(p + text@.len() <= total);
    match number_at(input, p + text.len()) {
        Some((e, d)) => match take_line_break(input, e) {
            Some(n) => Some((n, d)),
            None => None,
        },
        None => None,
    }
}

/// A command inside a track, at `i`: white space, then one of the commands
/// that stand between the start and the end of a track. Nothing may follow
/// a command on its line.
pub open spec fn inner_command_parse(s: Seq<u8>, i: int) -> Option<(int, TrackCommand)> {
    let p = run_end(s, i, ByteClass::Space);
    match plain_command(s, p, Word::GogoStart) {
        Some(e) => Some((e, TrackCommand::GogoStart)),
        None => match plain_command(s, p, Word::GogoEnd) {
            Some(e) => Some((e, TrackCommand::GogoEnd)),
            None => match plain_command(s, p, Word::BarlineOff) {
                Some(e) => Some((e, TrackCommand::BarlineOff)),
                None => match plain_command(s, p, Word::BarlineOn) {
                    Some(e) => Some((e, TrackCommand::BarlineOn)),
                    None => match valued_command(s, p, Word::BpmChange) {
                        Some((e, d)) => Some((e, TrackCommand::BpmChange(d))),
                        None => match valued_command(s, p, Word::Scroll) {
                            Some((e, d)) => Some((e, TrackCommand::Scroll(d))),
                            None => measure_command(s, p),
                        },
                    },
                },
            },
        },
    }
}

pub fn inner_track_command_at(input: &[u8], pos: usize) -> (r: Option<(usize, TrackCommand)>)
    requires
        pos <= input@.len(),
    ensures
        match r {
            Some((e, c)) => inner_command_parse(input@, pos as int) == Some((e as int, c))
                && pos < e <= input@.len(),
            None => inner_command_parse(input@, pos as int) is None,
        },
{
    let p = scan_run(input, pos, ByteClass::Space);
    if let Some(e) = plain_command_at(input, p, Word::GogoStart) {
        return Some((e, TrackCommand::GogoStart));
    }
    if let Some(e) = plain_command_at(input, p, Word::GogoEnd) {
        return Some((e, TrackCommand::GogoEnd));
    }
    if let Some(e) = plain_command_at(input, p, Word::BarlineOff) {
        return Some((e, TrackCommand::BarlineOff));
    }
    if let Some(e) = plain_command_at(input, p, Word::BarlineOn) {
        return Some((e, TrackCommand::BarlineOn));
    }
    if let Some((e, d)) = valued_command_at(input, p, Word::BpmChange) {
        return Some((e, TrackCommand::BpmChange(d)));
    }
    if let Some((e, d)) = valued_command_at(input, p, Word::Scroll) {
        return Some((e, TrackCommand::Scroll(d)));
    }
    measure_command_at(input, p)
}

/// What a note digit stands for. `0` is a rest; `7` and `9` both open a
/// balloon.
pub open spec fn note_of_digit(b: u8) -> Option<TJANoteType> {
    if b == ZERO + 1 {
        Some(TJANoteType::Don)
    } else if b == ZERO + 2 {
        Some(TJANoteType::Kat)
    } else if b == ZERO + 3 {
        Some(TJANoteType::BigDon)
    } else if b == ZERO + 4 {
        Some(TJANoteType::BigKat)
    } else if b == ZERO + 5 {
        Some(TJANoteType::DrumrollStart)
    } else if b == ZERO + 6 {
        Some(TJANoteType::BigDrumrollStart)
    } else if b == ZERO + 7 || b == ZERO + 9 {
        Some(TJANoteType::BalloonStart)
    } else if b == ZERO + 8 {
        Some(TJANoteType::DrumrollEnd)
    } else {
        None
    }
}

pub fn note_for_digit(b: u8) -> (r: Option<TJANoteType>)
    ensures
        r == note_of_digit(b),
{
    if b == ZERO + 1 {
        Some(TJANoteType::Don)
    } else if b == ZERO + 2 {
        Some(TJANoteType::Kat)
    } else if b == ZERO + 3 {
        Some(TJANoteType::BigDon)
    } else if b == ZERO + 4 {
        Some(TJANoteType::BigKat)
    } else if b == ZERO + 5 {
        Some(TJANoteType::DrumrollStart)
    } else if b == ZERO + 6 {
        Some(TJANoteType::BigDrumrollStart)
    } else if b == ZERO + 7 || b == ZERO + 9 {
        Some(TJANoteType::BalloonStart)
    } else if b == ZERO + 8 {
        Some(TJANoteType::DrumrollEnd)
    } else {
        None
    }
}

/// The notes that the digits of `s` from `i` up to `e` stand for, in order.
pub open spec fn notes_between(s: Seq<u8>, i: int, e: int) -> Seq<Option<TJANoteType>> {
    Seq::new((e - i) as nat, |k: int| note_of_digit(s[i + k]))
}

/// A run of note digits at `i`, at least one. The comma behind a run is no
/// part of it.
pub open spec fn notes_parse(s: Seq<u8>, i: int) -> Option<(int, Seq<Option<TJANoteType>>)> {
    let e = run_end(s, i, ByteClass::Digit);
    if i < e {
        Some((e, notes_between(s, i, e)))
    } else {
        None
    }
}

pub fn notes_at(input: &[u8], pos: usize) -> (r: Option<(usize, Vec<Option<TJANoteType>>)>)
    requires
        pos <= input@.len(),
    ensures
        match r {
            Some((e, ns)) => notes_parse(input@, pos as int) == Some((e as int, ns@)) && pos < e
                <= input@.len(),
            None => notes_parse(input@, pos as int) is None,
        },
{
    let e = scan_run(input, pos, ByteClass::Digit);
    if e == pos {
        return None;
    }
    let mut ns: Vec<Option<TJANoteType>> = Vec::new();
    let mut k: usize = pos;
    while k < e
        invariant
            pos <= k <= e <= input@.len(),
            ns@ == notes_between(input@, pos as int, k as int),
        decreases e - k,
    {
        ns.push(note_for_digit(input[k]));
        assert(ns@ =~= notes_between(input@, pos as int, k + 1));
        k += 1;
    }
    Some((e, ns))
}

/// One entry of a track at `i`, behind white space: a command, a run of note
/// digits, or the comma that closes a measure.
pub open spec fn entry_parse(s: Seq<u8>, i: int) -> Option<(int, EntryView)> {
    let q = run_end(s, i, ByteClass::Space);
    match inner_command_parse(s, i) {
        Some((e, c)) => Some((e, EntryView::Command(c))),
        None => match notes_parse(s, q) {
            Some((e, ns)) => Some((e, EntryView::Notes(ns))),
            None => if 0 <= q < s.len() && s[q] == COMMA {
                Some((q + 1, EntryView::EndMeasure))
            } else {
                None
            },
        },
    }
}

pub fn entry_at(input: &[u8], pos: usize) -> (r: Option<(usize, NoteTrackEntry)>)
    requires
        pos <= input@.len(),
    ensures
        match r {
            Some((e, x)) => entry_parse(input@, pos as int) == Some((e as int, x@)) && pos < e
                <= input@.len(),
            None => entry_parse(input@, pos as int) is None,
        },
{
    if let Some((e, c)) = inner_track_command_at(input, pos) {
        return Some((e, NoteTrackEntry::Command(c)));
    }
    let q = scan_run(input, pos, ByteClass::Space);
    if let Some((e, ns)) = notes_at(input, q) {
        return Some((e, NoteTrackEntry::Notes(ns)));
    }
    if q < input.len() && input[q] == COMMA {
        Some((q + 1, NoteTrackEntry::EndMeasure))
    } else {
        None
    }
}

/// The entries that stand at `i` one after another, and the place where no
/// further entry stands.
pub open spec fn entries_parse(s: Seq<u8>, i: int) -> (Seq<EntryView>, int)
    decreases s.len() - i,
{
    match entry_parse(s, i) {
        Some((e, x)) => if i < e <= s.len() {
            let rest = entries_parse(s, e);
            (seq![x] + rest.0, rest.1)
        } else {
            (Seq::empty(), i)
        },
        None => (Seq::empty(), i),
    }
}

/// A track at `i`: a start command, entries, and an end command. Its value
/// begins with the start command; the end command closes the track and is
/// no entry of it. An empty measure, a comma with no digits before it, is
/// kept as an entry of its own.
pub open spec fn note_track_parse(s: Seq<u8>, i: int) -> Option<(int, Seq<EntryView>)> {
    match start_command_parse(s, i) {
        Some((p, c)) => {
            let body = entries_parse(s, p);
            match end_command_end(s, body.1) {
                Some(e) => Some((e, seq![EntryView::Command(c)] + body.0)),
                None => None,
            }
        },
        None => None,
    }
}

pub fn note_track_at(input: &[u8], pos: usize) -> (r: Option<(usize, Vec<NoteTrackEntry>)>)
    requires
        pos <= input@.len(),
    ensures
        match r {
            Some((e, es)) => note_track_parse(input@, pos as int) == Some(
                (e as int, entry_views(es@)),
            ) && pos < e <= input@.len(),
            None => note_track_parse(input@, pos as int) is None,
        },
{
    let (start, c) = match start_command_at(input, pos) {
        Some(r) => r,
        None => {
            return None;
        },
    };
    let mut out: Vec<NoteTrackEntry> = Vec::new();
    out.push(NoteTrackEntry::Command(c));
    let ghost mut acc: Seq<EntryView> = Seq::empty();
    let mut p: usize = start;
    let mut more = true;
    assert(entry_views(out@) =~= seq![EntryView::Command(c)] + acc);
    assert(acc + entries_parse(input@, p as int).0 =~= entries_parse(input@, p as int).0);
    while more
        invariant
            start <= p <= input@.len(),
            entry_views(out@) == seq![EntryView::Command(c)] + acc,
            entries_parse(input@, start as int).0 == acc + entries_parse(input@, p as int).0,
            entries_parse(input@, start as int).1 == entries_parse(input@, p as int).1,
            !more ==> entry_parse(input@, p as int) is None,
        decreases input@.len() - p + (if more { 1int } else { 0int }),
    {
        match entry_at(input, p) {
            Some((e, x)) => {
                let ghost rest = entries_parse(input@, e as int).0;
                assert(acc + (seq![x@] + rest) =~= acc.push(x@) + rest);
                let ghost before = out@;
                out.push(x);
                assert(entry_views(out@) =~= entry_views(before).push(x@));
                proof {
                    acc = acc.push(x@);
                }
                assert(entry_views(out@) =~= seq![EntryView::Command(c)] + acc);
                p = e;
            },
            None => {
                more = false;
            },
        }
    }
    assert(acc + Seq::<EntryView>::empty() =~= acc);
    match end_command_at(input, p) {
        Some(e) => Some((e, out)),
        None => None,
    }
}

/// Reads the end command at the start of `input`.
pub fn end_command<'a>(input: &'a [u8]) -> (r: Result<(&'a [u8], TrackCommand), SyntaxError>)
    ensures
        match r {
            Ok((rest, c)) => match end_command_end(input@, 0) {
                Some(e) => c == TrackCommand::End && rest@ == input@.subrange(
                    e,
                    input@.len() as int,
                ),
                None => false,
            },
            Err(_) => end_command_end(input@, 0) is None,
        },
{
    match end_command_at(input, 0) {
        Some(e) => Ok((slice_subrange(input, e, input.len()), TrackCommand::End)),
        None => Err(SyntaxError {  }),
    }
}

/// Reads the start command at the start of `input`.
pub fn start_command<'a>(input: &'a [u8]) -> (r: Result<(&'a [u8], TrackCommand), SyntaxError>)
    ensures
        match r {
            Ok((rest, c)) => match start_command_parse(input@, 0) {
                Some((e, want)) => c == want && rest@ == input@.subrange(
                    e,
                    input@.len() as int,
                ),
                None => false,
            },
            Err(_) => start_command_parse(input@, 0) is None,
        },
{
    match start_command_at(input, 0) {
        Some((e, c)) => Ok((slice_subrange(input, e, input.len()), c)),
        None => Err(SyntaxError {  }),
    }
}

/// Reads a command of the inside of a track at the start of `input`.
pub fn inner_track_command<'a>(input: &'a [u8]) -> (r: Result<
    (&'a [u8], TrackCommand),
    SyntaxError,
>)
    ensures
        match r {
            Ok((rest, c)) => match inner_command_parse(input@, 0) {
                Some((e, want)) => c == want && rest@ == input@.subrange(
                    e,
                    input@.len() as int,
                ),
                None => false,
            },
            Err(_) => inner_command_parse(input@, 0) is None,
        },
{
    match inner_track_command_at(input, 0) {
        Some((e, c)) => Ok((slice_subrange(input, e, input.len()), c)),
        None => Err(SyntaxError {  }),
    }
}

/// Reads a run of note digits at the start of `input`.
pub fn notes<'a>(input: &'a [u8]) -> (r: Result<
    (&'a [u8], Vec<Option<TJANoteType>>),
    SyntaxError,
>)
    ensures
        match r {
            Ok((rest, ns)) => match notes_parse(input@, 0) {
                Some((e, want)) => ns@ == want && rest@ == input@.subrange(
                    e,
                    input@.len() as int,
                ),
                None => false,
            },
            Err(_) => notes_parse(input@, 0) is None,
        },
{
    match notes_at(input, 0) {
        Some((e, ns)) => Ok((slice_subrange(input, e, input.len()), ns)),
        None => Err(SyntaxError {  }),
    }
}

/// Reads a whole track at the start of `input`.
pub fn note_track<'a>(input: &'a [u8]) -> (r: Result<
    (&'a [u8], Vec<NoteTrackEntry>),
    SyntaxError,
>)
    ensures
        match r {
            Ok((rest, es)) => match note_track_parse(input@, 0) {
                Some((e, want)) => entry_views(es@) == want && rest@ == input@.subrange(
                    e,
                    input@.len() as int,
                ),
                None => false,
            },
            Err(_) => note_track_parse(input@, 0) is None,
        },
{
    match note_track_at(input, 0) {
        Some((e, es)) => Ok((slice_subrange(input, e, input.len()), es)),
        None => Err(SyntaxError {  }),
    }
}

} // verus!
