//! What a chart is made of: notes, track commands, track entries and the
//! items of a chart, each with the mathematical value that contracts speak of.

use vstd::prelude::*;
use crate::bytes::Decimal;

verus! {

#[derive(Clone, Copy, Debug, PartialEq, Eq)]
pub enum Player {
    Player1,
    Player2,
}

/// A playable note. A rest is no note: it is written as `None`.
#[derive(Clone, Copy, Debug, PartialEq, Eq)]
pub enum TJANoteType {
    Don,
    Kat,
    BigDon,
    BigKat,
    DrumrollStart,
    BigDrumrollStart,
    BalloonStart,
    DrumrollEnd,
}

#[derive(Clone, Copy, Debug, PartialEq, Eq)]
pub enum TrackCommand {
    Start { player: Option<Player> },
    End,
    GogoStart,
    GogoEnd,
    /// A measure of `.0` beats of one `.1`-th note each.
    Measure(u32, u32),
    BarlineOff,
    BarlineOn,
    /// The tempo from here on, in beats per minute.
    BpmChange(Decimal),
    /// The scroll speed from here on, as a multiple of the usual one.
    Scroll(Decimal),
}

#[derive(Clone, Debug, PartialEq, Eq)]
pub enum NoteTrackEntry {
    Command(TrackCommand),
    /// One run of note digits, rests included.
    Notes(Vec<Option<TJANoteType>>),
    /// The comma that closes a measure.
    EndMeasure,
}

/// The value of a `NoteTrackEntry`.
pub enum EntryView {
    Command(TrackCommand),
    Notes(Seq<Option<TJANoteType>>),
    EndMeasure,
}

impl View for NoteTrackEntry {
    type V = EntryView;

    open spec fn view(&self) -> EntryView {
        match self {
            NoteTrackEntry::Command(c) => EntryView::Command(*c),
            NoteTrackEntry::Notes(ns) => EntryView::Notes(ns@),
            NoteTrackEntry::EndMeasure => EntryView::EndMeasure,
        }
    }
}

/// The values of a sequence of entries, in order.
pub open spec fn entry_views(es: Seq<NoteTrackEntry>) -> Seq<EntryView> {
    Seq::new(es.len(), |k: int| es[k]@)
}

#[derive(Clone, Debug, PartialEq, Eq)]
pub enum TJAFileItem {
    /// A header line: key and value.
    Metadata(Vec<u8>, Vec<u8>),
    /// One track, from its start command to its end command.
    NoteTrack(Vec<NoteTrackEntry>),
}

/// The value of a `TJAFileItem`.
pub enum ItemView {
    Metadata(Seq<u8>, Seq<u8>),
    NoteTrack(Seq<EntryView>),
}

impl View for TJAFileItem {
    type V = ItemView;

    open spec fn view(&self) -> ItemView {
        match self {
            TJAFileItem::Metadata(k, v) => ItemView::Metadata(k@, v@),
            TJAFileItem::NoteTrack(es) => ItemView::NoteTrack(entry_views(es@)),
        }
    }
}

/// The values of a sequence of items, in order.
pub open spec fn item_views(items: Seq<TJAFileItem>) -> Seq<ItemView> {
    Seq::new(items.len(), |k: int| items[k]@)
}

/// Text that is no chart: some line fits no rule of the grammar.
#[derive(Clone, Copy, Debug, PartialEq, Eq)]
pub struct SyntaxError {}

} // verus!
