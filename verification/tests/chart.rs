use taiko_chart::bytes::Decimal;
use taiko_chart::chart::{parse_tja_file, song_from_items, tja_file, Course, TJAParseError};
use taiko_chart::model::TJAFileItem;
use taiko_chart::preprocess::preprocess_tja_file;

const READY_TO: &str = "\
// Ready to\r\n\
TITLE:Ready to\r\n\
SUBTITLE:--Project Taiko\r\n\
BPM:175.5\r\n\
WAVE:Ready to.ogg\r\n\
OFFSET:-1.672\r\n\
DEMOSTART:42.82\r\n\
SONGVOL:100\r\n\
SEVOL:100\r\n\
SCOREMODE:1\r\n\
\r\n\
COURSE:Easy\r\n\
LEVEL:3\r\n\
BALLOON:12,20\r\n\
SCOREINIT:\r\n\
SCOREDIFF:\r\n\
\r\n\
#START\r\n\
1020,\r\n\
1010,\r\n\
2010,\r\n\
1000,\r\n\
1000,\r\n\
1000,\r\n\
1020,\r\n\
1000,\r\n\
#GOGOSTART\r\n\
1010,\r\n\
1000,\r\n\
1000,\r\n\
2010,\r\n\
// drumroll\r\n\
500000000000000000000008,\r\n\
2010,\r\n\
1000,\r\n\
1010,\r\n\
#SCROLL 1.5\r\n\
1000,\r\n\
2010,\r\n\
#SCROLL 1\r\n\
1000,\n\
1000,\n\
7000\n\
0008,\n\
1010,\n\
1000,\n\
2010,\n\
#GOGOEND\n\
1000,\n\
1010,\n\
1000,\n\
1010,\n\
1020,\n\
2010,\n\
#MEASURE 5/4\n\
1010,\n\
1000,\n\
#MEASURE 4/4\n\
1020,\n\
1010,\n\
1000,\n\
1010,\n\
#BPMCHANGE 180.25\n\
1020,\n\
1000,\n\
1000,\n\
1000,\n\
#BARLINEOFF\n\
1010,\n\
2010,\n\
2010,\n\
1020,\n\
#BARLINEON\n\
2010,\n\
2010,\n\
1020,\n\
1020,\n\
1010,\n\
1010,\n\
,\n\
600000080000,  // big roll\n\
1010,\n\
1000,\n\
1020,\n\
2010,\n\
1020,\n\
2010,\n\
1020,\n\
1000,\n\
#END\n\
\n\
COURSE:Normal\n\
LEVEL:5\n\
BALLOON:12,20\n\
SCOREINIT:\n\
SCOREDIFF:\n\
\n\
#START\n\
10101020,\n\
30004000,\n\
10201020,\n\
11102010,\n\
10201020,\n\
30004000,\n\
30004000,\n\
10101020,\n\
#GOGOSTART\n\
10101020,\n\
11102010,\n\
11102010,\n\
11102010,\n\
// drumroll\n\
500000000000000000000008,\n\
30004000,\n\
30004000,\n\
10101020,\n\
#SCROLL 1.5\n\
10101020,\n\
11102010,\n\
#SCROLL 1\n\
30004000,\n\
10101020,\n\
7000\n\
0008,\n\
10101020,\n\
11102010,\n\
30004000,\n\
#GOGOEND\n\
11102010,\n\
30004000,\n\
11102010,\n\
10101020,\n\
30004000,\n\
11102010,\n\
#MEASURE 5/4\n\
10201020,\n\
10101020,\n\
#MEASURE 4/4\n\
30004000,\n\
10101020,\n\
10201020,\n\
11102010,\n\
#BPMCHANGE 180.25\n\
10201020,\n\
10201020,\n\
30004000,\n\
30004000,\n\
#BARLINEOFF\n\
30004000,\n\
10101020,\n\
10201020,\n\
30004000,\n\
#BARLINEON\n\
30004000,\n\
11102010,\n\
10201020,\n\
30004000,\n\
11102010,\n\
30004000,\n\
,\n\
600000080000,  // big roll\n\
11102010,\n\
30004000,\n\
10201020,\n\
10201020,\n\
10101020,\n\
10201020,\n\
10201020,\n\
10201020,\n\
#END\n\
\n\
COURSE:Hard\n\
LEVEL:7\n\
BALLOON:12,20\n\
SCOREINIT:\n\
SCOREDIFF:\n\
\n\
#START\n\
3000400010112020,\n\
1011201110202010,\n\
1011201110202010,\n\
1022101020112010,\n\
3000400010112020,\n\
1011201110202010,\n\
1022101020112010,\n\
1022101020112010,\n\
#GOGOSTART\n\
1011201110202010,\n\
1011201110202010,\n\
1022101020112010,\n\
3000400010112020,\n\
// drumroll\n\
500000000000000000000008,\n\
1022101020112010,\n\
3000400010112020,\n\
3000400010112020,\n\
#SCROLL 1.5\n\
1022101020112010,\n\
1011201110202010,\n\
#SCROLL 1\n\
3000400010112020,\n\
3000400010112020,\n\
7000\n\
0008,\n\
3000400010112020,\n\
3000400010112020,\n\
3000400010112020,\n\
#GOGOEND\n\
3000400010112020,\n\
1011201110202010,\n\
1022101020112010,\n\
3000400010112020,\n\
3000400010112020,\n\
1022101020112010,\n\
#MEASURE 5/4\n\
1022101020112010,\n\
1022101020112010,\n\
#MEASURE 4/4\n\
1022101020112010,\n\
1011201110202010,\n\
1022101020112010,\n\
3000400010112020,\n\
#BPMCHANGE 180.25\n\
1022101020112010,\n\
1011201110202010,\n\
1011201110202010,\n\
1011201110202010,\n\
#BARLINEOFF\n\
1011201110202010,\n\
1022101020112010,\n\
1011201110202010,\n\
1011201110202010,\n\
#BARLINEON\n\
1022101020112010,\n\
3000400010112020,\n\
1011201110202010,\n\
1011201110202010,\n\
1011201110202010,\n\
3000400010112020,\n\
,\n\
600000080000,  // big roll\n\
1011201110202010,\n\
3000400010112020,\n\
1011201110202010,\n\
1022101020112010,\n\
3000400010112020,\n\
1011201110202010,\n\
1011201110202010,\n\
1011201110202010,\n\
#END\n\
\n\
COURSE:Oni\n\
LEVEL:9\n\
BALLOON:12,20\n\
SCOREINIT:\n\
SCOREDIFF:\n\
\n\
#START\n\
3003400410112021,\n\
1122102210112212,\n\
1011221110212210,\n\
3003400410112021,\n\
1122102210112212,\n\
1122102210112212,\n\
3003400410112021,\n\
1122102210112212,\n\
#GOGOSTART\n\
1122102210112212,\n\
1011221110212210,\n\
1011221110212210,\n\
1122102210112212,\n\
// drumroll\n\
500000000000000000000008,\n\
1122102210112212,\n\
1122102210112212,\n\
1122102210112212,\n\
#SCROLL 1.5\n\
1122102210112212,\n\
1011221110212210,\n\
#SCROLL 1\n\
1011221110212210,\n\
1011221110212210,\n\
7000\n\
0008,\n\
3003400410112021,\n\
1122102210112212,\n\
3003400410112021,\n\
#GOGOEND\n\
1122102210112212,\n\
1122102210112212,\n\
3003400410112021,\n\
1011221110212210,\n\
3003400410112021,\n\
1011221110212210,\n\
#MEASURE 5/4\n\
1011221110212210,\n\
3003400410112021,\n\
#MEASURE 4/4\n\
1122102210112212,\n\
1011221110212210,\n\
3003400410112021,\n\
3003400410112021,\n\
#BPMCHANGE 180.25\n\
1011221110212210,\n\
3003400410112021,\n\
1122102210112212,\n\
3003400410112021,\n\
#BARLINEOFF\n\
1011221110212210,\n\
3003400410112021,\n\
1122102210112212,\n\
3003400410112021,\n\
#BARLINEON\n\
1122102210112212,\n\
1011221110212210,\n\
1122102210112212,\n\
1011221110212210,\n\
3003400410112021,\n\
3003400410112021,\n\
,\n\
600000080000,  // big roll\n\
3003400410112021,\n\
1122102210112212,\n\
3003400410112021,\n\
1011221110212210,\n\
3003400410112021,\n\
1011221110212210,\n\
1011221110212210,\n\
1122102210112212,\n\
#END\n\
\n\
COURSE:Ura\n\
LEVEL:10\n\
BALLOON:12,20\n\
SCOREINIT:\n\
SCOREDIFF:\n\
\n\
#START\n\
101122111021221011221022,\n\
101122111021221011221022,\n\
112210221011221230034004,\n\
112210221011221230034004,\n\
101122111021221011221022,\n\
101122111021221011221022,\n\
112210221011221230034004,\n\
112210221011221230034004,\n\
#GOGOSTART\n\
112210221011221230034004,\n\
101122111021221011221022,\n\
112210221011221230034004,\n\
112210221011221230034004,\n\
// drumroll\n\
500000000000000000000008,\n\
112210221011221230034004,\n\
112210221011221230034004,\n\
101122111021221011221022,\n\
#SCROLL 1.5\n\
101122111021221011221022,\n\
101122111021221011221022,\n\
#SCROLL 1\n\
101122111021221011221022,\n\
112210221011221230034004,\n\
7000\n\
0008,\n\
101122111021221011221022,\n\
112210221011221230034004,\n\
101122111021221011221022,\n\
#GOGOEND\n\
112210221011221230034004,\n\
101122111021221011221022,\n\
112210221011221230034004,\n\
112210221011221230034004,\n\
101122111021221011221022,\n\
101122111021221011221022,\n\
#MEASURE 5/4\n\
112210221011221230034004,\n\
101122111021221011221022,\n\
#MEASURE 4/4\n\
112210221011221230034004,\n\
101122111021221011221022,\n\
112210221011221230034004,\n\
112210221011221230034004,\n\
#BPMCHANGE 180.25\n\
101122111021221011221022,\n\
112210221011221230034004,\n\
112210221011221230034004,\n\
112210221011221230034004,\n\
#BARLINEOFF\n\
101122111021221011221022,\n\
101122111021221011221022,\n\
101122111021221011221022,\n\
101122111021221011221022,\n\
#BARLINEON\n\
101122111021221011221022,\n\
101122111021221011221022,\n\
112210221011221230034004,\n\
101122111021221011221022,\n\
112210221011221230034004,\n\
112210221011221230034004,\n\
,\n\
600000080000,  // big roll\n\
101122111021221011221022,\n\
101122111021221011221022,\n\
101122111021221011221022,\n\
101122111021221011221022,\n\
101122111021221011221022,\n\
101122111021221011221022,\n\
112210221011221230034004,\n\
101122111021221011221022,\n\
#END\n\
\n\
";

fn number(whole: u32, fraction: u32, fraction_digits: u8) -> Decimal {
    Decimal {
        negative: false,
        whole,
        fraction,
        fraction_digits,
    }
}

#[test]
fn test_real_tja_file_succeeds() {
    let ready_to = READY_TO;
    let no_comments = preprocess_tja_file(ready_to.as_bytes());

    let res = tja_file(&no_comments);

    println!("{:?}", res);
    assert!(res.is_ok());
}

#[test]
fn real_chart_has_five_tracks() {
    assert!(READY_TO.lines().count() > 300);
    let no_comments = preprocess_tja_file(READY_TO.as_bytes());
    let (rest, items) = tja_file(&no_comments).unwrap();
    assert!(rest.is_empty());
    let tracks = items
        .iter()
        .filter(|item| matches!(item, TJAFileItem::NoteTrack(_)))
        .count();
    assert_eq!(tracks, 5);
    let song = parse_tja_file(READY_TO.as_bytes()).unwrap();
    assert_eq!(song.title, "Ready to".as_bytes());
    assert_eq!(song.bpm, number(175, 5, 1));
    assert_eq!(song.audio_filename, "Ready to.ogg".as_bytes());
    assert_eq!(song.demostart, number(42, 82, 2));
    let levels: Vec<u32> = song
        .difficulties
        .iter()
        .map(|d| d.as_ref().unwrap().star_level)
        .collect();
    assert_eq!(levels, vec![3, 5, 7, 9, 10]);
    for d in song.difficulties.iter() {
        assert_eq!(d.as_ref().unwrap().track.barlines.len(), 60);
    }
    let ura = song.difficulty(Course::Ura).unwrap();
    assert_eq!(ura.star_level, 10);
    assert_eq!(ura.track.barlines[35].tempo, number(175, 5, 1));
    assert_eq!(ura.track.barlines[36].tempo, number(180, 25, 2));
    assert_eq!(ura.track.barlines[16].scroll_speed, number(1, 5, 1));
    assert_eq!(ura.track.barlines[30].numerator, 5);
    assert!(!ura.track.barlines[40].visible);
}

#[test]
fn test_tja_file_full() {
    let ok_track = "TITLE: POP TEAM EPIC
BPM:142
WAVE:POP TEAM EPIC.ogg


BALLOON:10,20
COURSE:Easy
LEVEL:1

#START

1100,
1100,
2,
7,
,
9,

#END
";

    assert!(parse_tja_file(ok_track.as_bytes()).is_ok());

    let no_title = format!("//{}", ok_track);
    assert_eq!(
        parse_tja_file(no_title.as_bytes()).unwrap_err(),
        TJAParseError::MetadataNeeded("TITLE".to_string())
    );
}

const SMALL: &str = "TITLE:a\nBPM:120\nWAVE:a.ogg\n#START\n1,\n#END\n";

#[test]
fn each_required_key_is_asked_for_in_order() {
    assert_eq!(
        parse_tja_file("BPM:120\nWAVE:a.ogg\n".as_bytes()).unwrap_err(),
        TJAParseError::MetadataNeeded("TITLE".to_string())
    );
    assert_eq!(
        parse_tja_file("".as_bytes()).unwrap_err(),
        TJAParseError::MetadataNeeded("TITLE".to_string())
    );
    assert_eq!(
        parse_tja_file("TITLE:a\nWAVE:a.ogg\n".as_bytes()).unwrap_err(),
        TJAParseError::MetadataNeeded("BPM".to_string())
    );
    assert_eq!(
        parse_tja_file("TITLE:a\n".as_bytes()).unwrap_err(),
        TJAParseError::MetadataNeeded("BPM".to_string())
    );
    assert_eq!(
        parse_tja_file("TITLE:a\nBPM:120\n".as_bytes()).unwrap_err(),
        TJAParseError::MetadataNeeded("WAVE".to_string())
    );
    assert!(parse_tja_file(SMALL.as_bytes()).is_ok());
}

#[test]
fn a_line_outside_the_grammar_is_a_syntax_error() {
    assert_eq!(
        parse_tja_file("TITLE:a\nBPM:120\nWAVE:a.ogg\n#START\n1x,\n#END\n".as_bytes())
            .unwrap_err(),
        TJAParseError::Syntax
    );
    assert_eq!(
        parse_tja_file("TITLE:a\nBPM:120\nWAVE:a.ogg\n#START\n1,\n#END P1\n".as_bytes())
            .unwrap_err(),
        TJAParseError::Syntax
    );
    assert_eq!(
        parse_tja_file("title:a\n".as_bytes()).unwrap_err(),
        TJAParseError::Syntax
    );
}

#[test]
fn a_tempo_that_is_no_number_is_a_syntax_error() {
    for bpm in ["fast", "", "12.", ".5", "1e3", "120 ", "1234567890"] {
        let text = format!("TITLE:a\nBPM:{}\nWAVE:a.ogg\n", bpm);
        assert_eq!(
            parse_tja_file(text.as_bytes()).unwrap_err(),
            TJAParseError::Syntax
        );
    }
    let song = parse_tja_file("TITLE:a\nBPM:128.571428\nWAVE:a.ogg\n".as_bytes()).unwrap();
    assert_eq!(song.bpm, number(128, 571428, 6));
    assert_eq!(song.demostart, number(0, 0, 0));
}

#[test]
fn a_later_header_line_wins() {
    let song =
        parse_tja_file("TITLE:a\nBPM:120\nWAVE:a.ogg\nTITLE:b\nBPM:90\n".as_bytes()).unwrap();
    assert_eq!(song.title, "b".as_bytes());
    assert_eq!(song.bpm, number(90, 0, 0));
    assert_eq!(song.audio_filename, "a.ogg".as_bytes());
}

#[test]
fn an_empty_title_is_no_title() {
    assert_eq!(
        parse_tja_file("TITLE:\nBPM:120\nWAVE:a.ogg\n".as_bytes()).unwrap_err(),
        TJAParseError::MetadataNeeded("TITLE".to_string())
    );
    assert_eq!(
        parse_tja_file("TITLE:a\nBPM:120\nWAVE:a.ogg\nTITLE:\r\n".as_bytes()).unwrap_err(),
        TJAParseError::MetadataNeeded("TITLE".to_string())
    );
    let song = parse_tja_file("TITLE:a\nBPM:120\nWAVE:\n".as_bytes()).unwrap();
    assert_eq!(song.audio_filename, "".as_bytes());
}

#[test]
fn tracks_are_filed_under_their_course() {
    let text = "TITLE:a\nBPM:120\nWAVE:a.ogg\n\
COURSE:Easy\nLEVEL:2\n#START\n1,\n#END\n\
COURSE:2\nLEVEL:6\n#START\n1,\n2,\n#END\n\
COURSE:Unknown\nLEVEL:many\n#START\n1,\n2,\n3,\n#END\n";
    let song = parse_tja_file(text.as_bytes()).unwrap();
    assert_eq!(song.difficulties.len(), 5);
    let easy = song.difficulty(Course::Easy).unwrap();
    assert_eq!(easy.star_level, 2);
    assert_eq!(easy.track.barlines.len(), 1);
    assert!(song.difficulty(Course::Normal).is_none());
    let hard = song.difficulty(Course::Hard).unwrap();
    assert_eq!(hard.star_level, 6);
    assert_eq!(hard.track.barlines.len(), 3);
    assert_eq!(hard.track.notes.len(), 3);
    assert!(song.difficulty(Course::Oni).is_none());
    assert!(song.difficulty(Course::Ura).is_none());
}

#[test]
fn a_track_without_a_course_is_the_fourth() {
    let song = parse_tja_file(SMALL.as_bytes()).unwrap();
    let oni = song.difficulty(Course::Oni).unwrap();
    assert_eq!(oni.star_level, 0);
    assert_eq!(oni.track.notes.len(), 1);
    assert_eq!(oni.track.barlines[0].tempo, number(120, 0, 0));
    assert!(song.difficulty(Course::Easy).is_none());
}

#[test]
fn parsing_twice_gives_equal_songs() {
    let first = parse_tja_file(READY_TO.as_bytes());
    let second = parse_tja_file(READY_TO.as_bytes());
    assert!(first.is_ok());
    assert_eq!(first, second);
    let bad = "TITLE:a\n#START\n";
    assert_eq!(parse_tja_file(bad.as_bytes()), parse_tja_file(bad.as_bytes()));
}

#[test]
fn a_song_from_items_matches_the_parse() {
    let clean = preprocess_tja_file(SMALL.as_bytes());
    let (_, items) = tja_file(&clean).unwrap();
    assert_eq!(song_from_items(&items), parse_tja_file(SMALL.as_bytes()));
    assert_eq!(
        song_from_items(&Vec::new()).unwrap_err(),
        TJAParseError::MetadataNeeded("TITLE".to_string())
    );
}

#[test]
fn comments_are_stripped_and_lines_stay() {
    assert_eq!(
        preprocess_tja_file("TITLE:a // the title\nBPM:1\n".as_bytes()),
        "TITLE:a \nBPM:1\n".as_bytes()
    );
    assert_eq!(
        preprocess_tja_file("// one\r\n//two\n1,//x".as_bytes()),
        "\n\n1,".as_bytes()
    );
    assert_eq!(preprocess_tja_file("a/b\n/".as_bytes()), "a/b\n/".as_bytes());
    assert_eq!(preprocess_tja_file("".as_bytes()), "".as_bytes());
    assert_eq!(preprocess_tja_file("///".as_bytes()), "".as_bytes());
}

#[test]
fn stripping_twice_changes_nothing_more() {
    for text in ["a // b\n// c\n/ /\n", "///\n//", "TITLE:x\n#START\n1, // one\n#END\n", READY_TO] {
        let once = preprocess_tja_file(text.as_bytes());
        assert_eq!(preprocess_tja_file(&once), once);
        assert!(!once.windows(2).any(|w| w == "//".as_bytes()));
    }
    assert_eq!(
        preprocess_tja_file("1100,\n#END\n".as_bytes()),
        "1100,\n#END\n".as_bytes()
    );
}
