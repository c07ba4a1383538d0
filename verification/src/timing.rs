//! The pass over a track that places every note in its measure: which
//! measure, which slot of how many, under which tempo and scroll speed. A
//! note's time follows from these: the lengths of the measures before it in
//! its block, and the fraction `slot / slots` of its own. A measure of
//! `numerator / denominator` at a tempo of `t` beats per minute lasts
//! `60 / t * 4 * numerator / denominator` seconds.

use vstd::prelude::*;
use crate::bytes::{decimal_one, Decimal};
use crate::model::{entry_views, EntryView, NoteTrackEntry, TJANoteType, TrackCommand};

verus! {

/// A note and its place.
#[derive(Clone, Copy, Debug, PartialEq, Eq)]
pub struct PlacedNote {
    pub note_type: TJANoteType,
    /// The index of the note's measure, which is that of the barline closing it.
    pub measure: usize,
    /// The note's slot in its measure, counted from zero. Rests take slots.
    pub slot: usize,
    /// How many slots the measure has.
    pub slots: usize,
    /// The scroll speed in force where the note was written.
    pub scroll_speed: Decimal,
    /// Whether gogo time was on where the note was written.
    pub gogo: bool,
}

/// A closed measure, and with it the barline at its boundary.
#[derive(Clone, Copy, Debug, PartialEq, Eq)]
pub struct Barline {
    /// The measure holds `numerator` beats of one `denominator`-th note each.
    pub numerator: u32,
    pub denominator: u32,
    /// The tempo of the measure, in beats per minute.
    pub tempo: Decimal,
    /// The scroll speed in force where the measure was closed.
    pub scroll_speed: Decimal,
    /// The index of the first measure of this measure's block: time is
    /// counted from there.
    pub origin: usize,
    /// Whether the barline is drawn.
    pub visible: bool,
}

/// The notes and barlines of one track.
#[derive(Clone, Debug, PartialEq, Eq)]
pub struct Track {
    pub notes: Vec<PlacedNote>,
    pub barlines: Vec<Barline>,
}

/// The value of a `Track`.
pub struct TrackView {
    pub notes: Seq<PlacedNote>,
    pub barlines: Seq<Barline>,
}

impl View for Track {
    type V = TrackView;

    open spec fn view(&self) -> TrackView {
        TrackView { notes: self.notes@, barlines: self.barlines@ }
    }
}

/// A slot of the open measure: its note or rest, and the scroll speed and
/// the gogo flag that it was written under.
#[derive(Clone, Copy, Debug, PartialEq, Eq)]
pub struct Slot {
    pub note: Option<TJANoteType>,
    pub scroll_speed: Decimal,
    pub gogo: bool,
}

/// The state of the pass between two entries.
pub struct Cursor {
    pub numerator: u32,
    pub denominator: u32,
    pub tempo: Decimal,
    pub scroll_speed: Decimal,
    pub visible: bool,
    pub gogo: bool,
    pub origin: usize,
    /// The slots of the open measure.
    pub pending: Seq<Slot>,
    pub notes: Seq<PlacedNote>,
    pub barlines: Seq<Barline>,
}

/// The state at a block's start: four quarter notes to a measure, the
/// chart's tempo, the usual scroll speed, barlines drawn, gogo time off, no
/// slot open. Time starts anew: the block's first measure is the next one.
pub open spec fn block_start(bpm: Decimal, notes: Seq<PlacedNote>, barlines: Seq<Barline>) -> Cursor {
    Cursor {
        numerator: 4,
        denominator: 4,
        tempo: bpm,
        scroll_speed: decimal_one(),
        visible: true,
        gogo: false,
        origin: barlines.len() as usize,
        pending: Seq::empty(),
        notes,
        barlines,
    }
}

/// The slots that a run of notes opens.
pub open spec fn slots_of(ns: Seq<Option<TJANoteType>>, scroll_speed: Decimal, gogo: bool) -> Seq<
    Slot,
> {
    Seq::new(ns.len(), |k: int| Slot { note: ns[k], scroll_speed, gogo })
}

/// The notes of the first `k` slots of a measure. A rest takes its slot and
/// gives no note.
pub open spec fn placed(pending: Seq<Slot>, measure: usize, k: int) -> Seq<PlacedNote>
    decreases k,
{
    if k <= 0 {
        Seq::empty()
    } else {
        let before = placed(pending, measure, k - 1);
        match pending[k - 1].note {
            Some(t) => before.push(
                PlacedNote {
                    note_type: t,
                    measure,
                    slot: (k - 1) as usize,
                    slots: pending.len() as usize,
                    scroll_speed: pending[k - 1].scroll_speed,
                    gogo: pending[k - 1].gogo,
                },
            ),
            None => before,
        }
    }
}

/// The barline that closes the open measure.
pub open spec fn closing(c: Cursor) -> Barline {
    Barline {
        numerator: c.numerator,
        denominator: c.denominator,
        tempo: c.tempo,
        scroll_speed: c.scroll_speed,
        origin: c.origin,
        visible: c.visible,
    }
}

/// What one entry does to the state. Runs of notes gather in the open
/// measure; the comma closes it, places its notes and records its barline;
/// a start command opens a new block; the other commands set what they
/// name and move no time.
pub open spec fn step(bpm: Decimal, c: Cursor, e: EntryView) -> Cursor {
    match e {
        EntryView::Command(TrackCommand::Start { player }) => block_start(
            bpm,
            c.notes,
            c.barlines,
        ),
        EntryView::Command(TrackCommand::End) => c,
        EntryView::Command(TrackCommand::GogoStart) => Cursor { gogo: true, ..c },
        EntryView::Command(TrackCommand::GogoEnd) => Cursor { gogo: false, ..c },
        EntryView::Command(TrackCommand::BarlineOff) => Cursor { visible: false, ..c },
        EntryView::Command(TrackCommand::BarlineOn) => Cursor { visible: true, ..c },
        EntryView::Command(TrackCommand::BpmChange(t)) => Cursor { tempo: t, ..c },
        EntryView::Command(TrackCommand::Scroll(v)) => Cursor { scroll_speed: v, ..c },
        EntryView::Command(TrackCommand::Measure(a, b)) => Cursor {
            numerator: a,
            denominator: b,
            ..c
        },
        EntryView::Notes(ns) => Cursor {
            pending: c.pending + slots_of(ns, c.scroll_speed, c.gogo),
            ..c
        },
        EntryView::EndMeasure => Cursor {
            pending: Seq::empty(),
            notes: c.notes + placed(
                c.pending,
                c.barlines.len() as usize,
                c.pending.len() as int,
            ),
            barlines: c.barlines.push(closing(c)),
            ..c
        },
    }
}

/// The state behind the first `n` entries.
pub open spec fn run(bpm: Decimal, es: Seq<EntryView>, n: int) -> Cursor
    decreases n,
{
    if n <= 0 {
        block_start(bpm, Seq::empty(), Seq::empty())
    } else {
        step(bpm, run(bpm, es, n - 1), es[n - 1])
    }
}

/// The notes and barlines that a track's entries give under the chart's
/// tempo `bpm`. Slots that no comma closes are left out.
pub open spec fn placement(bpm: Decimal, es: Seq<EntryView>) -> TrackView {
    TrackView {
        notes: run(bpm, es, es.len() as int).notes,
        barlines: run(bpm, es, es.len() as int).barlines,
    }
}

/// Whether `a` stands before `b`: in an earlier measure, or in the same
/// measure in an earlier slot.
pub open spec fn before(a: PlacedNote, b: PlacedNote) -> bool {
    a.measure < b.measure || (a.measure == b.measure && a.slot < b.slot)
}

/// Whether the notes stand in the order of their places.
pub open spec fn in_order(notes: Seq<PlacedNote>) -> bool {
    forall|i: int, j: int| 0 <= i < j < notes.len() ==> before(notes[i], notes[j])
}

/// Whether every note lies in a slot of a measure among the first `closed`.
pub open spec fn all_within(notes: Seq<PlacedNote>, closed: int) -> bool {
    forall|i: int|
        0 <= i < notes.len() ==> (#[trigger] notes[i]).measure < closed && notes[i].slot
            < notes[i].slots
}

/// Whether the notes of one measure agree on how many slots it has.
pub open spec fn even_slots(notes: Seq<PlacedNote>) -> bool {
    forall|i: int, j: int|
        0 <= i < notes.len() && 0 <= j < notes.len() && notes[i].measure == notes[j].measure
            ==> notes[i].slots == notes[j].slots
}

/// Whether every barline's block starts at or before the barline itself.
pub open spec fn origins_behind(barlines: Seq<Barline>) -> bool {
    forall|m: int| 0 <= m < barlines.len() ==> (#[trigger] barlines[m]).origin <= m
}

/// Places the notes of a track under the chart's tempo. The notes come out
/// in the order of their places, and so of their times, each in a slot of a
/// closed measure.
pub fn place_track(entries: &Vec<NoteTrackEntry>, bpm: Decimal) -> (track: Track)
    ensures
        track@ == placement(bpm, entry_views(entries@)),
        in_order(track@.notes),
        all_within(track@.notes, track@.barlines.len() as int),
        even_slots(track@.notes),
        origins_behind(track@.barlines),
{
    let ghost es = entry_views(entries@);
    let one = Decimal { negative: false, whole: 1, fraction: 0, fraction_digits: 0 };
    let mut numerator: u32 = 4;
    let mut denominator: u32 = 4;
    let mut tempo = bpm;
    let mut scroll_speed = one;
    let mut visible = true;
    let mut gogo = false;
    let mut origin: usize = 0;
    let mut pending: Vec<Slot> = Vec::new();
    let mut notes: Vec<PlacedNote> = Vec::new();
    let mut barlines: Vec<Barline> = Vec::new();
    let mut i: usize = 0;
    while i < entries.len()
        invariant
            i <= entries@.len(),
            es == entry_views(entries@),
            one == decimal_one(),
            run(bpm, es, i as int) == (Cursor {
                numerator,
                denominator,
                tempo,
                scroll_speed,
                visible,
                gogo,
                origin,
                pending: pending@,
                notes: notes@,
                barlines: barlines@,
            }),
            in_order(notes@),
            all_within(notes@, barlines@.len() as int),
            even_slots(notes@),
            origin <= barlines@.len(),
            origins_behind(barlines@),
        decreases entries@.len() - i,
    {
        assert(es[i as int] == entries@[i as int]@);
        match &entries[i] {
            NoteTrackEntry::Command(c) => {
                match c {
                    TrackCommand::Start { player } => {
                        numerator = 4;
                        denominator = 4;
                        tempo = bpm;
                        scroll_speed = one;
                        visible = true;
                        gogo = false;
                        origin = barlines.len();
                        pending = Vec::new();
                    },
                    TrackCommand::End => {},
                    TrackCommand::GogoStart => {
                        gogo = true;
                    },
                    TrackCommand::GogoEnd => {
                        gogo = false;
                    },
                    TrackCommand::BarlineOff => {
                        visible = false;
                    },
                    TrackCommand::BarlineOn => {
                        visible = true;
                    },
                    TrackCommand::BpmChange(t) => {
                        tempo = *t;
                    },
                    TrackCommand::Scroll(v) => {
                        scroll_speed = *v;
                    },
                    TrackCommand::Measure(a, b) => {
                        numerator = *a;
                        denominator = *b;
                    },
                }
            },
            NoteTrackEntry::Notes(ns) => {
                let ghost start = pending@;
                let mut k: usize = 0;
                while k < ns.len()
                    invariant
                        k <= ns@.len(),
                        pending@ == start + slots_of(ns@, scroll_speed, gogo).subrange(
                            0,
                            k as int,
                        ),
                    decreases ns@.len() - k,
                {
                    pending.push(Slot { note: ns[k], scroll_speed, gogo });
                    assert(pending@ =~= start + slots_of(ns@, scroll_speed, gogo).subrange(
                        0,
                        k + 1,
                    ));
                    k += 1;
                }
                assert(pending@ =~= start + slots_of(ns@, scroll_speed, gogo));
            },
            NoteTrackEntry::EndMeasure => {
                let ghost start = notes@;
                let measure = barlines.len();
                let slots = pending.len();
                let mut k: usize = 0;
                while k < slots
                    invariant
                        k <= slots == pending@.len(),
                        measure == barlines@.len(),
                        notes@ == start + placed(pending@, measure, k as int),
                        in_order(notes@),
                        even_slots(notes@),
                        forall|j: int|
                            0 <= j < notes@.len() && (#[trigger] notes@[j]).measure == measure
                                ==> notes@[j].slots == slots,
                        forall|j: int|
                            0 <= j < notes@.len() ==> (#[trigger] notes@[j]).slot
                                < notes@[j].slots && (notes@[j].measure < measure || (
                            notes@[j].measure == measure && notes@[j].slot < k)),
                    decreases slots - k,
                {
                    let slot = pending[k];
                    match slot.note {
                        Some(t) => {
                            notes.push(
                                PlacedNote {
                                    note_type: t,
                                    measure,
                                    slot: k,
                                    slots,
                                    scroll_speed: slot.scroll_speed,
                                    gogo: slot.gogo,
                                },
                            );
                            assert(notes@ =~= start + placed(pending@, measure, k + 1));
                        },
                        None => {
                            assert(notes@ =~= start + placed(pending@, measure, k + 1));
                        },
                    }
                    k += 1;
                }
                barlines.push(
                    Barline { numerator, denominator, tempo, scroll_speed, origin, visible },
                );
                pending = Vec::new();
            },
        }
        i += 1;
    }
    Track { notes, barlines }
}

} // verus!
