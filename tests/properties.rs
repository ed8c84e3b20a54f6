use chord2mml::note::{natural_pitch, with_accidental};
use chord2mml::{
    ast_to_mml, chord_to_mml, convert, note_to_mml, parse_to_ast, transpose_note, ASTChord,
    ASTRoot, Accidental, ChordError, ChordQuality,
};

const TABLE: [&str; 12] = ["c", "c+", "d", "d+", "e", "f", "f+", "g", "g+", "a", "a+", "b"];

fn chord(root: &str, accidental: Option<Accidental>, quality: ChordQuality) -> ASTChord {
    ASTChord {
        root: root.to_string(),
        accidental,
        quality,
        bass: None,
    }
}

#[test]
fn natural_letters_give_major_triads() {
    let expected = [
        ("C", "c;e;g"),
        ("D", "d;f+;a"),
        ("E", "e;g+;b"),
        ("F", "f;a;c"),
        ("G", "g;b;d"),
        ("A", "a;c+;e"),
        ("B", "b;d+;f+"),
    ];
    for (input, mml) in expected {
        assert_eq!(convert(input).unwrap(), mml, "input {}", input);
    }
}

#[test]
fn named_examples_convert() {
    assert_eq!(convert("C").unwrap(), "c;e;g");
    assert_eq!(convert("Dm").unwrap(), "d;f;a");
    assert_eq!(convert("F").unwrap(), "f;a;c");
    assert_eq!(convert("G").unwrap(), "g;b;d");
}

#[test]
fn progression_keeps_order_and_repeats() {
    assert_eq!(convert("C-F-G-C").unwrap(), "c;e;g f;a;c g;b;d c;e;g");
    assert_eq!(convert("C-Dm-G-C").unwrap(), "c;e;g d;f;a g;b;d c;e;g");
    assert_eq!(convert("G-C").unwrap(), "g;b;d c;e;g");
}

#[test]
fn progression_skips_empty_segments_and_trims_each() {
    assert_eq!(convert("C--F").unwrap(), "c;e;g f;a;c");
    assert_eq!(convert(" C - F ").unwrap(), "c;e;g f;a;c");
    assert_eq!(convert("-C-").unwrap(), "c;e;g");
}

#[test]
fn every_quality_has_its_intervals() {
    assert_eq!(convert("Cm").unwrap(), "c;d+;g");
    assert_eq!(convert("Cdim").unwrap(), "c;d+;f+");
    assert_eq!(convert("Caug").unwrap(), "c;e;g+");
    assert_eq!(convert("C+").unwrap(), "c;e;g+");
    assert_eq!(convert("C7").unwrap(), "c;e;g;a+");
    assert_eq!(convert("Cmaj7").unwrap(), "c;e;g;b");
    assert_eq!(convert("CM7").unwrap(), "c;e;g;b");
    assert_eq!(convert("Csus4").unwrap(), "c;f;g");
    assert_eq!(convert("Csus2").unwrap(), "c;d;g");
}

#[test]
fn accidentals_move_the_root_by_a_semitone() {
    assert_eq!(convert("C#").unwrap(), "c+;f;g+");
    assert_eq!(convert("Db").unwrap(), "c+;f;g+");
    assert_eq!(convert("Bb").unwrap(), "a+;d;f");
    assert_eq!(convert("E#").unwrap(), "f;a;c");
    assert_eq!(convert("Cb").unwrap(), "b;d+;f+");
    assert_eq!(convert("F#m").unwrap(), "f+;a;c+");
}

#[test]
fn slash_bass_does_not_change_pitches() {
    assert_eq!(convert("G7/B").unwrap(), "g;b;d;f");
    assert_eq!(convert("C/Eb").unwrap(), "c;e;g");
    match parse_to_ast("G7/B").unwrap() {
        ASTRoot::SingleChord(c) => {
            assert_eq!(c.quality, ChordQuality::Dominant7);
            assert_eq!(c.bass, Some("B".to_string()));
        }
        _ => panic!("expected a single chord"),
    }
}

#[test]
fn surrounding_white_space_is_ignored() {
    assert_eq!(convert("  C  ").unwrap(), convert("C").unwrap());
    assert_eq!(convert("\tDm\n").unwrap(), "d;f;a");
    assert_eq!(convert("\u{3000}C\u{a0}").unwrap(), "c;e;g");
}

#[test]
fn characters_that_are_not_white_space_are_kept() {
    assert!(matches!(convert("\u{200b}C"), Err(ChordError::InvalidRoot(_))));
}

#[test]
fn rejections_have_distinct_kinds() {
    assert!(matches!(convert(""), Err(ChordError::EmptyInput)));
    assert!(matches!(convert("   "), Err(ChordError::EmptyInput)));
    match convert("H") {
        Err(ChordError::InvalidRoot(s)) => assert_eq!(s, "H"),
        other => panic!("unexpected {:?}", other),
    }
    match convert("c") {
        Err(ChordError::LowercaseRoot(s)) => assert_eq!(s, "c"),
        other => panic!("unexpected {:?}", other),
    }
    match convert("Cxyz") {
        Err(ChordError::UnknownQuality(s)) => assert_eq!(s, "xyz"),
        other => panic!("unexpected {:?}", other),
    }
    assert!(matches!(convert("C/"), Err(ChordError::EmptyBass)));
}

#[test]
fn malformed_bass_notes_are_rejected() {
    match convert("C/xyz") {
        Err(ChordError::InvalidBass(s)) => assert_eq!(s, "xyz"),
        other => panic!("unexpected {:?}", other),
    }
    assert!(matches!(convert("C/Ex"), Err(ChordError::InvalidBass(_))));
    assert!(matches!(convert("C/F#b"), Err(ChordError::InvalidBass(_))));
    assert!(matches!(convert("C/E/G"), Err(ChordError::InvalidBass(_))));
}

#[test]
fn quality_is_matched_whole() {
    assert!(matches!(convert("Cmaj"), Err(ChordError::UnknownQuality(_))));
    assert!(matches!(convert("Cm7"), Err(ChordError::UnknownQuality(_))));
    assert!(matches!(convert("CM"), Err(ChordError::UnknownQuality(_))));
    assert!(matches!(convert("C#b"), Err(ChordError::UnknownQuality(_))));
}

#[test]
fn empty_progression_is_rejected() {
    assert!(matches!(convert("-"), Err(ChordError::EmptyProgression)));
    assert!(matches!(convert("- -"), Err(ChordError::EmptyProgression)));
}

#[test]
fn first_failing_segment_gives_the_error() {
    match convert("C-H-x") {
        Err(ChordError::InvalidRoot(s)) => assert_eq!(s, "H"),
        other => panic!("unexpected {:?}", other),
    }
    assert!(matches!(convert("C-Cxyz-c"), Err(ChordError::UnknownQuality(_))));
}

#[test]
fn input_length_bound() {
    let longest = "C-".repeat(500);
    assert_eq!(longest.chars().count(), 1000);
    let out = convert(&longest).unwrap();
    assert_eq!(out.split(' ').count(), 500);
    assert!(out.split(' ').all(|c| c == "c;e;g"));
    let padded = format!("  {}  ", longest);
    assert!(convert(&padded).is_ok());
    let over = format!("{}C", longest);
    assert!(matches!(convert(&over), Err(ChordError::InputTooLong)));
}

#[test]
fn transposition_round_trips() {
    for p in TABLE {
        for k in 0..12 {
            let up = transpose_note(p, k);
            assert_eq!(transpose_note(&up, (12 - k) % 12), p, "pitch {} by {}", p, k);
            assert_eq!(transpose_note(&up, -k), p, "pitch {} by {}", p, k);
        }
    }
}

#[test]
fn transposition_wraps_in_both_directions() {
    assert_eq!(transpose_note("c", -1), "b");
    assert_eq!(transpose_note("b", 1), "c");
    assert_eq!(transpose_note("c", 13), "c+");
    assert_eq!(transpose_note("a+", -22), "c");
    assert_eq!(transpose_note("c", i32::MAX), "g");
    assert_eq!(transpose_note("c", i32::MIN), "e");
}

#[test]
fn note_names_are_lowered() {
    assert_eq!(note_to_mml("A", &Some(Accidental::Flat)), "a-");
    assert_eq!(note_to_mml("G", &Some(Accidental::Sharp)), "g+");
    assert_eq!(note_to_mml("b", &None), "b");
    assert_eq!(note_to_mml("", &Some(Accidental::Sharp)), "+");
}

#[test]
fn parsing_twice_gives_equal_values() {
    assert_eq!(parse_to_ast("G7/B").unwrap(), parse_to_ast("G7/B").unwrap());
    assert_eq!(parse_to_ast("C-F#m-G").unwrap(), parse_to_ast("C-F#m-G").unwrap());
    assert_ne!(parse_to_ast("G7/B").unwrap(), parse_to_ast("G7/A").unwrap());
    assert_ne!(parse_to_ast("C-F").unwrap(), parse_to_ast("C-G").unwrap());
    assert_ne!(parse_to_ast("C").unwrap(), parse_to_ast("C-").unwrap());
}

#[test]
fn chord_with_a_root_outside_the_table_is_a_defect() {
    match chord_to_mml(&chord("H", None, ChordQuality::Major)) {
        Err(ChordError::InvalidNote(s)) => assert_eq!(s, "H"),
        other => panic!("unexpected {:?}", other),
    }
    assert!(matches!(
        chord_to_mml(&chord("", None, ChordQuality::Major)),
        Err(ChordError::InvalidNote(_))
    ));
    assert!(matches!(
        chord_to_mml(&chord("CC", None, ChordQuality::Major)),
        Err(ChordError::InvalidNote(_))
    ));
}

#[test]
fn ast_rendering_joins_chords() {
    let ast = ASTRoot::ChordProgression(vec![
        chord("A", None, ChordQuality::Minor),
        chord("E", Some(Accidental::Flat), ChordQuality::Major7),
    ]);
    assert_eq!(ast_to_mml(&ast).unwrap(), "a;c;e d+;g;a+;d");
    let single = ASTRoot::SingleChord(chord("B", Some(Accidental::Flat), ChordQuality::Sus2));
    assert_eq!(ast_to_mml(&single).unwrap(), "a+;c;f");
    let bad = ASTRoot::ChordProgression(vec![
        chord("C", None, ChordQuality::Major),
        chord("X", None, ChordQuality::Major),
    ]);
    assert!(matches!(ast_to_mml(&bad), Err(ChordError::InvalidNote(_))));
}

#[test]
fn error_messages_name_the_offending_text() {
    assert_eq!(
        ChordError::UnknownQuality("xyz".to_string()).message(),
        "Unknown chord quality: xyz"
    );
    assert!(convert("c").unwrap_err().message().contains("'c'"));
    assert!(convert("C/xyz").unwrap_err().message().contains("xyz"));
    assert!(convert("").unwrap_err().message().starts_with("Empty input"));
    assert!(convert("-").unwrap_err().message().contains("No valid chords"));
}

#[test]
fn note_names_are_lowered_beyond_ascii() {
    assert_eq!(note_to_mml("\u{c4}", &None), "\u{e4}");
    assert_eq!(note_to_mml("\u{c9}", &Some(Accidental::Sharp)), "\u{e9}+");
    assert_eq!(note_to_mml("Do", &Some(Accidental::Flat)), "do-");
}

#[test]
fn accidental_marker_is_appended() {
    assert_eq!(with_accidental("e".to_string(), &Some(Accidental::Flat)), "e-");
    assert_eq!(with_accidental("f".to_string(), &Some(Accidental::Sharp)), "f+");
    assert_eq!(with_accidental("g".to_string(), &None), "g");
}

#[test]
fn natural_letters_enter_the_table_lowercase() {
    let letters = ['C', 'D', 'E', 'F', 'G', 'A', 'B'];
    let entries = ["c", "d", "e", "f", "g", "a", "b"];
    for (l, e) in letters.iter().zip(entries.iter()) {
        assert_eq!(natural_pitch(*l), *e);
    }
}

#[test]
fn empty_chord_token_has_its_own_error() {
    for input in ["", "   "] {
        match parse_to_ast(input) {
            Err(e) => {
                assert!(matches!(e, ChordError::EmptyChord));
                assert_eq!(e.message(), "Empty chord notation");
            }
            Ok(other) => panic!("unexpected {:?}", other),
        }
    }
    assert!(matches!(convert(""), Err(ChordError::EmptyInput)));
}
