use taiko_chart::bytes::Decimal;
use taiko_chart::clock::{barline_micros, measure_micros, note_micros, slot_micros};
use taiko_chart::model::NoteTrackEntry;
use taiko_chart::model::TJANoteType::{Don, Kat};
use taiko_chart::textures::{sprite_path, TextureCache};
use taiko_chart::timing::{place_track, Barline, PlacedNote, Track};
use taiko_chart::track::note_track;

fn number(whole: u32, fraction: u32, fraction_digits: u8) -> Decimal {
    Decimal {
        negative: false,
        whole,
        fraction,
        fraction_digits,
    }
}

fn entries(text: &str) -> Vec<NoteTrackEntry> {
    note_track(text.as_bytes()).unwrap().1
}

fn places(track: &Track) -> Vec<(usize, usize, usize)> {
    track
        .notes
        .iter()
        .map(|n| (n.measure, n.slot, n.slots))
        .collect()
}

fn plain_barline(numerator: u32, denominator: u32, tempo: Decimal) -> Barline {
    Barline {
        numerator,
        denominator,
        tempo,
        scroll_speed: number(1, 0, 0),
        origin: 0,
        visible: true,
    }
}

#[test]
fn notes_take_their_slots_and_rests_give_none() {
    let track = place_track(
        &entries("#START\n1100,\n1100,\n2,\n,\n#END"),
        number(142, 0, 0),
    );
    assert_eq!(
        places(&track),
        vec![(0, 0, 4), (0, 1, 4), (1, 0, 4), (1, 1, 4), (2, 0, 1)]
    );
    assert_eq!(track.notes[4].note_type, Kat);
    assert_eq!(track.notes[0].note_type, Don);
    assert_eq!(track.barlines.len(), 4);
    for b in track.barlines.iter() {
        assert_eq!(*b, plain_barline(4, 4, number(142, 0, 0)));
    }
}

#[test]
fn runs_of_one_measure_share_its_slots() {
    let track = place_track(&entries("#START\n10\n02\n0001,\n#END"), number(120, 0, 0));
    assert_eq!(places(&track), vec![(0, 0, 8), (0, 3, 8), (0, 7, 8)]);
    assert_eq!(track.barlines.len(), 1);
}

#[test]
fn slots_that_no_comma_closes_are_left_out() {
    let track = place_track(&entries("#START\n1,\n22\n#END"), number(120, 0, 0));
    assert_eq!(places(&track), vec![(0, 0, 1)]);
    assert_eq!(track.barlines.len(), 1);
    let empty = place_track(&Vec::new(), number(120, 0, 0));
    assert!(empty.notes.is_empty() && empty.barlines.is_empty());
}

#[test]
fn five_four_lasts_five_quarters_of_four_four() {
    let track = place_track(
        &entries("#START\n1,\n#MEASURE 5/4\n1,\n#END"),
        number(120, 0, 0),
    );
    assert_eq!(track.barlines[0], plain_barline(4, 4, number(120, 0, 0)));
    assert_eq!(track.barlines[1], plain_barline(5, 4, number(120, 0, 0)));
    let four_four = measure_micros(&track.barlines[0]).unwrap();
    let five_four = measure_micros(&track.barlines[1]).unwrap();
    assert_eq!(four_four, 2_000_000);
    assert_eq!(five_four, 2_500_000);
    assert_eq!(five_four * 4, four_four * 5);
}

#[test]
fn measure_lengths_follow_the_tempo() {
    assert_eq!(
        measure_micros(&plain_barline(4, 4, number(142, 0, 0))),
        Some(1_690_140)
    );
    assert_eq!(
        measure_micros(&plain_barline(3, 4, number(175, 5, 1))),
        Some(1_025_641)
    );
    assert_eq!(
        measure_micros(&plain_barline(7, 8, number(60, 0, 0))),
        Some(3_500_000)
    );
    assert_eq!(measure_micros(&plain_barline(4, 4, number(0, 0, 0))), None);
    assert_eq!(measure_micros(&plain_barline(4, 0, number(120, 0, 0))), None);
    assert_eq!(measure_micros(&plain_barline(4, 4, number(120, 0, 10))), None);
    let backwards = Decimal {
        negative: true,
        whole: 120,
        fraction: 0,
        fraction_digits: 0,
    };
    assert_eq!(measure_micros(&plain_barline(4, 4, backwards)), None);
}

#[test]
fn slots_are_spread_evenly() {
    assert_eq!(slot_micros(2_000_000, 0, 4), 0);
    assert_eq!(slot_micros(2_000_000, 1, 4), 500_000);
    assert_eq!(slot_micros(2_000_000, 3, 4), 1_500_000);
    assert_eq!(slot_micros(1_000_000, 1, 3), 333_333);
    assert_eq!(slot_micros(u64::MAX, 1, 2), u64::MAX / 2);
}

#[test]
fn note_times_count_the_measures_before() {
    let track = place_track(
        &entries("#START\n1010,\n,\n#MEASURE 2/4\n01,\n#BPMCHANGE 240\n2,\n#END"),
        number(120, 0, 0),
    );
    let times: Vec<Option<u64>> = (0..track.notes.len())
        .map(|i| note_micros(&track, i))
        .collect();
    assert_eq!(
        times,
        vec![
            Some(0),
            Some(1_000_000),
            Some(4_500_000),
            Some(5_000_000)
        ]
    );
    assert_eq!(measure_micros(&track.barlines[3]), Some(500_000));
}

#[test]
fn note_times_are_in_order() {
    let track = place_track(
        &entries("#START\n1022,\n#MEASURE 3/8\n100200300,\n,\n30004,\n#END"),
        number(93, 25, 2),
    );
    let times: Vec<u64> = (0..track.notes.len())
        .map(|i| note_micros(&track, i).unwrap())
        .collect();
    assert_eq!(times.len(), 8);
    assert!(times.windows(2).all(|w| w[0] <= w[1]));
    assert!(track
        .notes
        .windows(2)
        .all(|w| (w[0].measure, w[0].slot) < (w[1].measure, w[1].slot)));
}

#[test]
fn a_note_outside_its_track_has_no_time() {
    let stray = PlacedNote {
        note_type: Don,
        measure: 3,
        slot: 0,
        slots: 1,
        scroll_speed: number(1, 0, 0),
        gogo: false,
    };
    let track = Track {
        notes: vec![stray],
        barlines: vec![plain_barline(4, 4, number(120, 0, 0))],
    };
    assert_eq!(note_micros(&track, 0), None);
    assert_eq!(barline_micros(&track, 0), Some(2_000_000));
    let late = Track {
        notes: vec![],
        barlines: vec![Barline { origin: 1, ..plain_barline(4, 4, number(120, 0, 0)) }],
    };
    assert_eq!(barline_micros(&late, 0), None);
    let still = Track {
        notes: vec![PlacedNote { measure: 1, ..stray }],
        barlines: vec![
            plain_barline(4, 4, number(0, 0, 0)),
            plain_barline(4, 4, number(120, 0, 0)),
        ],
    };
    assert_eq!(note_micros(&still, 0), None);
}

#[test]
fn commands_set_what_they_name() {
    let track = place_track(
        &entries(
            "#START\n1\n#GOGOSTART\n#SCROLL 1.5\n1,\n#BARLINEOFF\n#GOGOEND\n1,\n#BARLINEON\n#SCROLL -2\n#BPMCHANGE 99.5\n,\n#END",
        ),
        number(120, 0, 0),
    );
    assert_eq!(places(&track), vec![(0, 0, 2), (0, 1, 2), (1, 0, 1)]);
    let flags: Vec<(bool, Decimal)> = track.notes.iter().map(|n| (n.gogo, n.scroll_speed)).collect();
    assert_eq!(
        flags,
        vec![
            (false, number(1, 0, 0)),
            (true, number(1, 5, 1)),
            (false, number(1, 5, 1))
        ]
    );
    let seen: Vec<(bool, Decimal, Decimal)> = track
        .barlines
        .iter()
        .map(|b| (b.visible, b.tempo, b.scroll_speed))
        .collect();
    let back = Decimal {
        negative: true,
        whole: 2,
        fraction: 0,
        fraction_digits: 0,
    };
    assert_eq!(
        seen,
        vec![
            (true, number(120, 0, 0), number(1, 5, 1)),
            (false, number(120, 0, 0), number(1, 5, 1)),
            (true, number(99, 5, 1), back)
        ]
    );
}

#[test]
fn a_start_command_opens_a_new_block() {
    let mut both = entries("#START P1\n#MEASURE 3/4\n#BPMCHANGE 60\n1,\n1,\n#END");
    both.extend(entries("#START P2\n22,\n#END"));
    let track = place_track(&both, number(120, 0, 0));
    assert_eq!(places(&track), vec![(0, 0, 1), (1, 0, 1), (2, 0, 2), (2, 1, 2)]);
    let origins: Vec<usize> = track.barlines.iter().map(|b| b.origin).collect();
    assert_eq!(origins, vec![0, 0, 2]);
    assert_eq!(track.barlines[2], Barline { origin: 2, ..plain_barline(4, 4, number(120, 0, 0)) });
    assert_eq!(note_micros(&track, 1), Some(3_000_000));
    assert_eq!(note_micros(&track, 2), Some(0));
    assert_eq!(note_micros(&track, 3), Some(1_000_000));
    assert_eq!(barline_micros(&track, 0), Some(3_000_000));
    assert_eq!(barline_micros(&track, 1), Some(6_000_000));
    assert_eq!(barline_micros(&track, 2), Some(2_000_000));
}

#[test]
fn a_texture_keeps_its_handle() {
    let mut cache = TextureCache::new();
    assert_eq!(cache.get("don.png"), None);
    assert_eq!(cache.insert("don.png"), 0);
    assert_eq!(cache.insert("kat.png"), 1);
    assert_eq!(cache.insert("don.png"), 0);
    assert_eq!(cache.get("kat.png"), Some(1));
    assert_eq!(cache.get("big_don.png"), None);
    assert_eq!(cache.insert("big_don.png"), 2);
    assert_eq!(TextureCache::default().get("don.png"), None);
}

#[test]
fn sprites_lie_in_their_directory() {
    assert_eq!(sprite_path("don.png"), "assets/images/don.png");
    assert_eq!(sprite_path(""), "assets/images/");
}
