//! The chart as a whole: header lines and tracks in the order of the text,
//! and the song that they describe.

use vstd::prelude::*;
use vstd::slice::slice_subrange;
use crate::bytes::{
    bytes_equal, copy_range, decimal, decimal_zero, lemma_run_end, number_of, read_decimal,
    read_number, run_end, scan_run, ByteClass, Decimal, ZERO,
};
use crate::metadata::{metadata_pair_at, pair_span};
use crate::model::{item_views, ItemView, SyntaxError, TJAFileItem};
use crate::preprocess::{preprocess_tja_file, stripped};
use crate::timing::{place_track, placement, Track, TrackView};
use crate::track::{note_track_at, note_track_parse};

verus! {

/// One item at `q`: a header line, or else a track.
pub open spec fn item_parse(s: Seq<u8>, q: int) -> Option<(int, ItemView)> {
    match pair_span(s, q) {
        Some(p) => Some(
            (
                p.next,
                ItemView::Metadata(s.subrange(q, p.key_end), s.subrange(p.value_start, p.value_end)),
            ),
        ),
        None => match note_track_parse(s, q) {
            Some((e, es)) => Some((e, ItemView::NoteTrack(es))),
            None => None,
        },
    }
}

/// The items of the text from `i` to its end, with white space between
/// them, or `None` where something stands there that is no item.
pub open spec fn items_parse(s: Seq<u8>, i: int) -> Option<Seq<ItemView>>
    decreases s.len() - i,
{
    let q = run_end(s, i, ByteClass::Space);
    if q >= s.len() {
        Some(Seq::empty())
    } else if q < i {
        None
    } else {
        match item_parse(s, q) {
            Some((e, x)) => if q < e <= s.len() {
                match items_parse(s, e) {
                    Some(rest) => Some(seq![x] + rest),
                    None => None,
                }
            } else {
                None
            },
            None => None,
        }
    }
}

/// `acc` before what `rest` gives, where it gives something.
pub open spec fn prepend(acc: Seq<ItemView>, rest: Option<Seq<ItemView>>) -> Option<
    Seq<ItemView>,
> {
    match rest {
        Some(r) => Some(acc + r),
        None => None,
    }
}

/// Reads a whole chart: its header lines and tracks in the order of the
/// text. All of the text must be read: the rest that comes back is empty.
pub fn tja_file<'a>(input: &'a [u8]) -> (r: Result<(&'a [u8], Vec<TJAFileItem>), SyntaxError>)
    ensures
        match r {
            Ok((rest, items)) => items_parse(input@, 0) == Some(item_views(items@)) && rest@
                == Seq::<u8>::empty(),
            Err(_) => items_parse(input@, 0) is None,
        },
{
    let total = input.len();
    let mut out: Vec<TJAFileItem> = Vec::new();
    let mut p: usize = 0;
    assert(item_views(out@) =~= Seq::empty());
    assert(prepend(Seq::empty(), items_parse(input@, 0)) == items_parse(input@, 0)) by {
        match items_parse(input@, 0) {
            Some(r) => {
                assert(Seq::<ItemView>::empty() + r =~= r);
            },
            None => {},
        }
    }
    loop
        invariant
            total == input@.len(),
            p <= total,
            items_parse(input@, 0) == prepend(item_views(out@), items_parse(input@, p as int)),
        decreases total - p,
    {
        let q = scan_run(input, p, ByteClass::Space);
        if q >= total {
            assert(item_views(out@) + Seq::<ItemView>::empty() =~= item_views(out@));
            return Ok((slice_subrange(input, total, total), out));
        }
        let ghost before = out@;
        let next = match metadata_pair_at(input, q) {
            Some((k, v, w, n)) => {
                let key = copy_range(input, q, k);
                let value = copy_range(input, v, w);
                out.push(TJAFileItem::Metadata(key, value));
                n
            },
            None => match note_track_at(input, q) {
                Some((e, es)) => {
                    out.push(TJAFileItem::NoteTrack(es));
                    e
                },
                None => {
                    return Err(SyntaxError {  });
                },
            },
        };
        proof {
            let x = out@.last()@;
            assert(item_parse(input@, q as int) == Some((next as int, x)));
            assert(item_views(out@) =~= item_views(before).push(x));
            match items_parse(input@, next as int) {
                Some(r) => {
                    assert(item_views(before) + (seq![x] + r) =~= item_views(out@) + r);
                },
                None => {},
            }
        }
        p = next;
    }
}

/// The header keys that the library reads.
#[derive(Clone, Copy, Debug, PartialEq, Eq)]
pub enum Key {
    Title,
    Bpm,
    Wave,
    DemoStart,
    Course,
    Level,
}

/// A key as it is written in a chart.
pub open spec fn key_text(k: Key) -> Seq<u8> {
    match k {
        Key::Title => seq![84u8, 73, 84, 76, 69],
        Key::Bpm => seq![66u8, 80, 77],
        Key::Wave => seq![87u8, 65, 86, 69],
        Key::DemoStart => seq![68u8, 69, 77, 79, 83, 84, 65, 82, 84],
        Key::Course => seq![67u8, 79, 85, 82, 83, 69],
        Key::Level => seq![76u8, 69, 86, 69, 76],
    }
}

pub fn key_bytes(k: Key) -> (v: Vec<u8>)
    ensures
        v@ == key_text(k),
{
    let v: Vec<u8> = match k {
        Key::Title => vec![84u8, 73, 84, 76, 69],
        Key::Bpm => vec![66u8, 80, 77],
        Key::Wave => vec![87u8, 65, 86, 69],
        Key::DemoStart => vec![68u8, 69, 77, 79, 83, 84, 65, 82, 84],
        Key::Course => vec![67u8, 79, 85, 82, 83, 69],
        Key::Level => vec![76u8, 69, 86, 69, 76],
    };
    assert(v@ =~= key_text(k));
    v
}

/// A key as an error names it.
pub open spec fn key_name(k: Key) -> Seq<char> {
    match k {
        Key::Title => "TITLE"@,
        Key::Bpm => "BPM"@,
        Key::Wave => "WAVE"@,
        Key::DemoStart => "DEMOSTART"@,
        Key::Course => "COURSE"@,
        Key::Level => "LEVEL"@,
    }
}

pub fn key_string(k: Key) -> (s: String)
    ensures
        s@ == key_name(k),
{
    match k {
        Key::Title => "TITLE".to_owned(),
        Key::Bpm => "BPM".to_owned(),
        Key::Wave => "WAVE".to_owned(),
        Key::DemoStart => "DEMOSTART".to_owned(),
        Key::Course => "COURSE".to_owned(),
        Key::Level => "LEVEL".to_owned(),
    }
}

/// The value that the first `n` items give the key: that of the last header
/// line with this key among them.
pub open spec fn last_value(items: Seq<ItemView>, key: Seq<u8>, n: int) -> Option<Seq<u8>>
    decreases n,
{
    if n <= 0 {
        None
    } else {
        match items[n - 1] {
            ItemView::Metadata(k, v) => if k == key {
                Some(v)
            } else {
                last_value(items, key, n - 1)
            },
            ItemView::NoteTrack(_) => last_value(items, key, n - 1),
        }
    }
}

/// Looks a key up in the header lines. Where a key is given twice, the later
/// line counts.
pub fn find_value(items: &Vec<TJAFileItem>, key: Key) -> (r: Option<Vec<u8>>)
    ensures
        match r {
            Some(v) => last_value(item_views(items@), key_text(key), items@.len() as int)
                == Some(v@),
            None => last_value(item_views(items@), key_text(key), items@.len() as int) is None,
        },
{
    let want = key_bytes(key);
    let ghost views = item_views(items@);
    let mut found: Option<Vec<u8>> = None;
    let mut i: usize = 0;
    while i < items.len()
        invariant
            i <= items@.len(),
            views == item_views(items@),
            want@ == key_text(key),
            match found {
                Some(v) => last_value(views, key_text(key), i as int) == Some(v@),
                None => last_value(views, key_text(key), i as int) is None,
            },
        decreases items@.len() - i,
    {
        assert(views[i as int] == items@[i as int]@);
        match &items[i] {
            TJAFileItem::Metadata(k, v) => {
                if bytes_equal(k.as_slice(), want.as_slice()) {
                    found = Some(copy_range(v.as_slice(), 0, v.len()));
                    assert(v@.subrange(0, v@.len() as int) =~= v@);
                }
            },
            TJAFileItem::NoteTrack(_) => {},
        }
        i += 1;
    }
    found
}

/// The courses of a song, from the easiest.
#[derive(Clone, Copy, Debug, PartialEq, Eq)]
pub enum Course {
    Easy,
    Normal,
    Hard,
    Oni,
    Ura,
}

/// The place of a course among a song's difficulties.
pub open spec fn course_index(c: Course) -> int {
    match c {
        Course::Easy => 0,
        Course::Normal => 1,
        Course::Hard => 2,
        Course::Oni => 3,
        Course::Ura => 4,
    }
}

impl Course {
    pub fn index(self) -> (i: usize)
        ensures
            i == course_index(self),
    {
        match self {
            Course::Easy => 0,
            Course::Normal => 1,
            Course::Hard => 2,
            Course::Oni => 3,
            Course::Ura => 4,
        }
    }
}

/// A course as a chart names it.
pub open spec fn course_text(c: Course) -> Seq<u8> {
    match c {
        Course::Easy => seq![69u8, 97, 115, 121],
        Course::Normal => seq![78u8, 111, 114, 109, 97, 108],
        Course::Hard => seq![72u8, 97, 114, 100],
        Course::Oni => seq![79u8, 110, 105],
        Course::Ura => seq![85u8, 114, 97],
    }
}

pub fn course_bytes(c: Course) -> (v: Vec<u8>)
    ensures
        v@ == course_text(c),
{
    let v: Vec<u8> = match c {
        Course::Easy => vec![69u8, 97, 115, 121],
        Course::Normal => vec![78u8, 111, 114, 109, 97, 108],
        Course::Hard => vec![72u8, 97, 114, 100],
        Course::Oni => vec![79u8, 110, 105],
        Course::Ura => vec![85u8, 114, 97],
    };
    assert(v@ =~= course_text(c));
    v
}

/// The course that the value of a `COURSE` line names: by its name, or by
/// its digit from `0` for the easiest to `4`.
pub open spec fn course_of(v: Seq<u8>) -> Option<Course> {
    if v == course_text(Course::Easy) || v == seq![ZERO] {
        Some(Course::Easy)
    } else if v == course_text(Course::Normal) || v == seq![(ZERO + 1) as u8] {
        Some(Course::Normal)
    } else if v == course_text(Course::Hard) || v == seq![(ZERO + 2) as u8] {
        Some(Course::Hard)
    } else if v == course_text(Course::Oni) || v == seq![(ZERO + 3) as u8] {
        Some(Course::Oni)
    } else if v == course_text(Course::Ura) || v == seq![(ZERO + 4) as u8] {
        Some(Course::Ura)
    } else {
        None
    }
}

pub fn names_course(v: &[u8], c: Course) -> (r: bool)
    ensures
        r == (v@ == course_text(c) || v@ == seq![(ZERO + course_index(c)) as u8]),
{
    let name = course_bytes(c);
    if bytes_equal(v, name.as_slice()) {
        return true;
    }
    if v.len() == 1 && v[0] == ZERO + (c.index() as u8) {
        assert(v@ =~= seq![(ZERO + course_index(c)) as u8]);
        true
    } else {
        false
    }
}

pub fn read_course(v: &[u8]) -> (r: Option<Course>)
    ensures
        r == course_of(v@),
{
    if names_course(v, Course::Easy) {
        Some(Course::Easy)
    } else if names_course(v, Course::Normal) {
        Some(Course::Normal)
    } else if names_course(v, Course::Hard) {
        Some(Course::Hard)
    } else if names_course(v, Course::Oni) {
        Some(Course::Oni)
    } else if names_course(v, Course::Ura) {
        Some(Course::Ura)
    } else {
        None
    }
}

/// The star level that the value of a `LEVEL` line writes: one to nine
/// digits.
pub open spec fn level_of(v: Seq<u8>) -> Option<u32> {
    if 1 <= v.len() <= 9 && run_end(v, 0, ByteClass::Digit) == v.len() {
        Some(decimal(v, 0, v.len() as int) as u32)
    } else {
        None
    }
}

pub fn read_level(v: &[u8]) -> (r: Option<u32>)
    ensures
        r == level_of(v@),
{
    let total = v.len();
    if total == 0 || total > 9 || scan_run(v, 0, ByteClass::Digit) != total {
        return None;
    }
    proof {
        lemma_run_end(v@, 0, ByteClass::Digit);
    }
    Some(read_decimal(v, 0, total))
}

/// One difficulty of a song: its star level and its placed track.
#[derive(Clone, Debug, PartialEq, Eq)]
pub struct Difficulty {
    pub star_level: u32,
    pub track: Track,
}

/// The value of a `Difficulty`.
pub struct DifficultyView {
    pub star_level: u32,
    pub track: TrackView,
}

impl View for Difficulty {
    type V = DifficultyView;

    open spec fn view(&self) -> DifficultyView {
        DifficultyView { star_level: self.star_level, track: self.track@ }
    }
}

pub open spec fn difficulty_view(d: Option<Difficulty>) -> Option<DifficultyView> {
    match d {
        Some(x) => Some(x@),
        None => None,
    }
}

pub open spec fn difficulty_views(ds: Seq<Option<Difficulty>>) -> Seq<Option<DifficultyView>> {
    Seq::new(ds.len(), |k: int| difficulty_view(ds[k]))
}

/// What the items read so far say of the difficulties: the course and the
/// star level that the next track gets, and the difficulties filled.
pub struct Gathered {
    pub bpm: Decimal,
    pub course: Course,
    pub level: u32,
    pub difficulties: Seq<Option<DifficultyView>>,
}

/// What one item adds. A `COURSE` or `LEVEL` line with a value that can be
/// read sets the course or the level; a track becomes the difficulty of the
/// course in force, in place of an earlier one.
pub open spec fn gather(g: Gathered, item: ItemView) -> Gathered {
    match item {
        ItemView::Metadata(k, v) => if k == key_text(Key::Course) {
            match course_of(v) {
                Some(c) => Gathered { course: c, ..g },
                None => g,
            }
        } else if k == key_text(Key::Level) {
            match level_of(v) {
                Some(n) => Gathered { level: n, ..g },
                None => g,
            }
        } else {
            g
        },
        ItemView::NoteTrack(es) => Gathered {
            difficulties: g.difficulties.update(
                course_index(g.course),
                Some(DifficultyView { star_level: g.level, track: placement(g.bpm, es) }),
            ),
            ..g
        },
    }
}

/// What the first `n` items say of the difficulties of a chart whose tempo
/// is `bpm`. Before any item the course is the fourth of five and the level
/// is zero.
pub open spec fn gathered(bpm: Decimal, items: Seq<ItemView>, n: int) -> Gathered
    decreases n,
{
    if n <= 0 {
        Gathered { bpm, course: Course::Oni, level: 0, difficulties: Seq::new(5, |k: int| None) }
    } else {
        gather(gathered(bpm, items, n - 1), items[n - 1])
    }
}

/// Places every track of a chart and files it under its course.
pub fn gather_difficulties(items: &Vec<TJAFileItem>, bpm: Decimal) -> (ds: Vec<
    Option<Difficulty>,
>)
    ensures
        ds@.len() == 5,
        difficulty_views(ds@) == gathered(
            bpm,
            item_views(items@),
            items@.len() as int,
        ).difficulties,
{
    let ghost views = item_views(items@);
    let course_key = key_bytes(Key::Course);
    let level_key = key_bytes(Key::Level);
    let mut course = Course::Oni;
    let mut level: u32 = 0;
    let mut ds: Vec<Option<Difficulty>> = Vec::new();
    ds.push(None);
    ds.push(None);
    ds.push(None);
    ds.push(None);
    ds.push(None);
    assert(difficulty_views(ds@) =~= Seq::new(5, |k: int| None));
    let mut i: usize = 0;
    while i < items.len()
        invariant
            i <= items@.len(),
            views == item_views(items@),
            course_key@ == key_text(Key::Course),
            level_key@ == key_text(Key::Level),
            ds@.len() == 5,
            gathered(bpm, views, i as int) == (Gathered {
                bpm,
                course,
                level,
                difficulties: difficulty_views(ds@),
            }),
        decreases items@.len() - i,
    {
        assert(views[i as int] == items@[i as int]@);
        match &items[i] {
            TJAFileItem::Metadata(k, v) => {
                if bytes_equal(k.as_slice(), course_key.as_slice()) {
                    match read_course(v.as_slice()) {
                        Some(c) => {
                            course = c;
                        },
                        None => {},
                    }
                } else if bytes_equal(k.as_slice(), level_key.as_slice()) {
                    match read_level(v.as_slice()) {
                        Some(n) => {
                            level = n;
                        },
                        None => {},
                    }
                }
            },
            TJAFileItem::NoteTrack(es) => {
                let ghost before = ds@;
                let d = Difficulty { star_level: level, track: place_track(es, bpm) };
                ds.set(course.index(), Some(d));
                assert(difficulty_views(ds@) =~= difficulty_views(before).update(
                    course_index(course),
                    Some(d@),
                ));
            },
        }
        i += 1;
    }
    ds
}

/// A song: what its chart's header says of it, and its difficulties.
#[derive(Clone, Debug, PartialEq, Eq)]
pub struct Song {
    pub title: Vec<u8>,
    /// The tempo at the start, in beats per minute.
    pub bpm: Decimal,
    pub audio_filename: Vec<u8>,
    /// Where the preview starts, in seconds: zero where the chart gives no
    /// number for it.
    pub demostart: Decimal,
    /// One place for each course, from the easiest.
    pub difficulties: Vec<Option<Difficulty>>,
}

/// The value of a `Song`.
pub struct SongView {
    pub title: Seq<u8>,
    pub bpm: Decimal,
    pub audio_filename: Seq<u8>,
    pub demostart: Decimal,
    pub difficulties: Seq<Option<DifficultyView>>,
}

impl View for Song {
    type V = SongView;

    open spec fn view(&self) -> SongView {
        SongView {
            title: self.title@,
            bpm: self.bpm,
            audio_filename: self.audio_filename@,
            demostart: self.demostart,
            difficulties: difficulty_views(self.difficulties@),
        }
    }
}

/// The difficulty that stands at a course's place, where one stands there.
pub open spec fn difficulty_at(ds: Seq<Option<Difficulty>>, course: Course) -> Option<Difficulty> {
    if course_index(course) < ds.len() {
        ds[course_index(course)]
    } else {
        None
    }
}

impl Song {
    /// The difficulty of a course, where the song has one.
    pub fn difficulty(&self, course: Course) -> (d: Option<&Difficulty>)
        ensures
            match d {
                Some(x) => difficulty_at(self.difficulties@, course) == Some(*x),
                None => difficulty_at(self.difficulties@, course) is None,
            },
    {
        let i = course.index();
        if i < self.difficulties.len() {
            match &self.difficulties[i] {
                Some(x) => Some(x),
                None => None,
            }
        } else {
            None
        }
    }
}

/// Why a text is no song.
#[derive(Clone, Debug, PartialEq, Eq)]
pub enum TJAParseError {
    /// Some line fits no rule of the grammar, or the tempo is no number.
    Syntax,
    /// The header lacks the key named.
    MetadataNeeded(String),
}

/// What a chart's items amount to.
pub enum Outcome {
    Song(SongView),
    Syntax,
    Missing(Key),
}

/// Where the preview starts: the number that the last `DEMOSTART` line
/// writes, or zero.
pub open spec fn demostart_of(items: Seq<ItemView>) -> Decimal {
    match last_value(items, key_text(Key::DemoStart), items.len() as int) {
        Some(v) => match number_of(v) {
            Some(d) => d,
            None => decimal_zero(),
        },
        None => decimal_zero(),
    }
}

/// The title that the items give: the value of the last `TITLE` line, where
/// it is not empty.
pub open spec fn title_of(items: Seq<ItemView>) -> Option<Seq<u8>> {
    match last_value(items, key_text(Key::Title), items.len() as int) {
        Some(title) => if title.len() > 0 {
            Some(title)
        } else {
            None
        },
        None => None,
    }
}

/// The song of a chart's items. The title, the tempo and the audio file must
/// be given: the first of them that is missing, in this order, is named.
/// An empty title is none. The tempo must be a number.
pub open spec fn song_of(items: Seq<ItemView>) -> Outcome {
    let n = items.len() as int;
    match title_of(items) {
        None => Outcome::Missing(Key::Title),
        Some(title) => match last_value(items, key_text(Key::Bpm), n) {
            None => Outcome::Missing(Key::Bpm),
            Some(bpm) => match last_value(items, key_text(Key::Wave), n) {
                None => Outcome::Missing(Key::Wave),
                Some(wave) => match number_of(bpm) {
                    Some(tempo) => Outcome::Song(
                        SongView {
                            title,
                            bpm: tempo,
                            audio_filename: wave,
                            demostart: demostart_of(items),
                            difficulties: gathered(tempo, items, n).difficulties,
                        },
                    ),
                    None => Outcome::Syntax,
                },
            },
        },
    }
}

/// Whether an error reports the outcome `o`.
pub open spec fn reports(e: TJAParseError, o: Outcome) -> bool {
    match e {
        TJAParseError::Syntax => o is Syntax,
        TJAParseError::MetadataNeeded(name) => match o {
            Outcome::Missing(k) => name@ == key_name(k),
            _ => false,
        },
    }
}

/// Builds the song of a chart's items.
pub fn song_from_items(items: &Vec<TJAFileItem>) -> (r: Result<Song, TJAParseError>)
    ensures
        match r {
            Ok(song) => song_of(item_views(items@)) == Outcome::Song(song@)
                && song.difficulties@.len() == 5,
            Err(e) => reports(e, song_of(item_views(items@))),
        },
{
    let title = match find_value(items, Key::Title) {
        Some(v) => v,
        None => {
            return Err(TJAParseError::MetadataNeeded(key_string(Key::Title)));
        },
    };
    if title.len() == 0 {
        return Err(TJAParseError::MetadataNeeded(key_string(Key::Title)));
    }
    let tempo = match find_value(items, Key::Bpm) {
        Some(v) => v,
        None => {
            return Err(TJAParseError::MetadataNeeded(key_string(Key::Bpm)));
        },
    };
    let audio_filename = match find_value(items, Key::Wave) {
        Some(v) => v,
        None => {
            return Err(TJAParseError::MetadataNeeded(key_string(Key::Wave)));
        },
    };
    let bpm = match read_number(tempo.as_slice()) {
        Some(d) => d,
        None => {
            return Err(TJAParseError::Syntax);
        },
    };
    let zero = Decimal { negative: false, whole: 0, fraction: 0, fraction_digits: 0 };
    let demostart = match find_value(items, Key::DemoStart) {
        Some(v) => match read_number(v.as_slice()) {
            Some(d) => d,
            None => zero,
        },
        None => zero,
    };
    let difficulties = gather_difficulties(items, bpm);
    Ok(Song { title, bpm, audio_filename, demostart, difficulties })
}

/// What a chart's text amounts to: its comments are stripped, the rest is
/// read as items, and the items are made a song.
pub open spec fn chart_outcome(text: Seq<u8>) -> Outcome {
    match items_parse(stripped(text), 0) {
        Some(items) => song_of(items),
        None => Outcome::Syntax,
    }
}

/// Reads a chart. The result depends on the text alone.
pub fn parse_tja_file(text: &[u8]) -> (r: Result<Song, TJAParseError>)
    ensures
        match r {
            Ok(song) => chart_outcome(text@) == Outcome::Song(song@) && song.difficulties@.len()
                == 5,
            Err(e) => reports(e, chart_outcome(text@)),
        },
{
    let clean = preprocess_tja_file(text);
    match tja_file(clean.as_slice()) {
        Ok((_, items)) => song_from_items(&items),
        Err(_) => Err(TJAParseError::Syntax),
    }
}


/// Reading one text twice gives one song: the song depends on the text
/// alone.
pub proof fn lemma_same_text_same_song(text: Seq<u8>, first: SongView, second: SongView)
    requires
        chart_outcome(text) == Outcome::Song(first),
        chart_outcome(text) == Outcome::Song(second),
    ensures
        first == second,
{
}

/// Reading one text twice fails in one way: two errors that report the
/// outcome of one text are of one kind and name one key.
pub proof fn lemma_same_text_same_error(text: Seq<u8>, first: TJAParseError, second: TJAParseError)
    requires
        reports(first, chart_outcome(text)),
        reports(second, chart_outcome(text)),
    ensures
        match (first, second) {
            (TJAParseError::Syntax, TJAParseError::Syntax) => true,
            (TJAParseError::MetadataNeeded(a), TJAParseError::MetadataNeeded(b)) => a@ == b@,
            _ => false,
        },
{
}

/// No text is both a song and an error.
pub proof fn lemma_song_or_error(text: Seq<u8>, song: SongView, e: TJAParseError)
    requires
        chart_outcome(text) == Outcome::Song(song),
    ensures
        !reports(e, chart_outcome(text)),
{
}

} // verus!
