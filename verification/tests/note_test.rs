use quicknotes::note::{
    deserialize_datetime, extract_preamble, filename_stem_for_date, filename_stem_for_lowered,
    filename_stem_for_title,
    remove_specials, toml_datetime, DatetimeParts, DeserializeFlaw, InvalidPreambleError,
    OffsetPart, Preamble, SerializeError,
};
use quicknotes::timestamp::{CalendarDate, Timestamp};

fn test_time() -> Timestamp {
    Timestamp::new(2015, 10, 21, 7, 28, 0, 0, -7 * 60 * 60).unwrap()
}

fn flaw_of(contents: &str) -> DeserializeFlaw {
    match extract_preamble(contents.as_bytes()) {
        Err(InvalidPreambleError::DeserializeError(error)) => error.flaw,
        other => panic!("expected a flawed document, got {:?}", other),
    }
}

#[test]
fn can_serialize_preamble_as_toml() {
    let preamble = Preamble { title: "Hello world".to_string(), created_at: test_time() };

    assert_eq!(
        "---\ntitle = \"Hello world\"\ncreated_at = 2015-10-21T07:28:00-07:00\n---",
        preamble.serialize().unwrap()
    );
}

#[test]
fn can_read_preamble_alone() {
    let contents = "---\ntitle = \"Hello world\"\ncreated_at = 2015-10-21T07:28:00-07:00\n---";
    let preamble = extract_preamble(contents.as_bytes()).expect("failed to parse preamble");
    let expected = Preamble { title: "Hello world".to_string(), created_at: test_time() };

    assert_eq!(preamble, expected);
}

#[test]
fn can_read_preamble_with_data_after_it() {
    let contents =
        "---\ntitle = \"Hello world\"\ncreated_at = 2015-10-21T07:28:00-07:00\n---\nsick notes bro";
    let preamble = extract_preamble(contents.as_bytes()).expect("failed to parse preamble");
    let expected = Preamble { title: "Hello world".to_string(), created_at: test_time() };

    assert_eq!(preamble, expected);
}

#[test]
fn filename_for_title_converts_to_lowercase() {
    assert_eq!("note", filename_stem_for_title("Note"));
}

#[test]
fn filename_for_title_converts_spaces_to_dashes() {
    assert_eq!("my-awesome-note", filename_stem_for_title("my awesome note"));
}

#[test]
fn filename_for_title_removes_specials() {
    assert_eq!("im-a-note", filename_stem_for_title("i'm a note"));
}

#[test]
fn filename_for_date_uses_date_in_simple_iso_format() {
    assert_eq!("2015-10-21", filename_stem_for_date(CalendarDate::new(2015, 10, 21).unwrap()));
}

#[test]
fn filename_for_title_keeps_every_space_as_a_dash() {
    assert_eq!("a--b-", filename_stem_for_title("A  b "));
    assert_eq!("", filename_stem_for_title(""));
    assert_eq!("", filename_stem_for_title("?!"));
}

#[test]
fn filename_for_title_keeps_characters_outside_ascii() {
    assert_eq!("émile--über", filename_stem_for_title("Émile & ÜBER"));
}

#[test]
fn remove_specials_keeps_letters_and_digits() {
    assert_eq!("abcXYZ019", remove_specials("a.b,c X-Y_Z 0/1\t9\n"));
    assert_eq!("ñandú", remove_specials("¡ñandú!".trim_start_matches('¡')));
}

#[test]
fn filename_for_date_pads_and_signs_the_year() {
    assert_eq!("0007-01-02", filename_stem_for_date(CalendarDate::new(7, 1, 2).unwrap()));
    assert_eq!("0000-02-29", filename_stem_for_date(CalendarDate::new(0, 2, 29).unwrap()));
    assert_eq!("9999-12-31", filename_stem_for_date(CalendarDate::new(9999, 12, 31).unwrap()));
    assert_eq!("+10000-01-01", filename_stem_for_date(CalendarDate::new(10000, 1, 1).unwrap()));
    assert_eq!("-0001-12-31", filename_stem_for_date(CalendarDate::new(-1, 12, 31).unwrap()));
    assert_eq!("-262143-01-01", filename_stem_for_date(CalendarDate::new(-262143, 1, 1).unwrap()));
    assert_eq!("+262142-12-31", filename_stem_for_date(CalendarDate::new(262142, 12, 31).unwrap()));
}

#[test]
fn serialize_then_extract_gives_the_preamble_back() {
    let preamble = Preamble {
        title: "Quotes \" and \\ and 'more'\tüñí".to_string(),
        created_at: Timestamp::new(2024, 2, 29, 23, 59, 59, 123_456_789, 5 * 3600 + 30 * 60).unwrap(),
    };
    let text = preamble.serialize().expect("preamble can be written");
    assert_eq!(extract_preamble(text.as_bytes()).expect("preamble can be read"), preamble);
}

#[test]
fn serialize_writes_whole_minutes_of_offset() {
    let preamble = Preamble {
        title: "t".to_string(),
        created_at: Timestamp::new(2015, 10, 21, 7, 28, 0, 0, -90).unwrap(),
    };
    assert_eq!(
        "---\ntitle = \"t\"\ncreated_at = 2015-10-21T07:28:00-00:01\n---",
        preamble.serialize().unwrap()
    );
}

#[test]
fn serialize_writes_every_offset_under_a_day() {
    let preamble = Preamble::new(
        "a".to_string(),
        Timestamp::new(2015, 10, 21, 7, 28, 0, 0, 10 * 3600).unwrap(),
    );
    let text = preamble.serialize().unwrap();
    assert_eq!(text, "---\ntitle = \"a\"\ncreated_at = 2015-10-21T07:28:00+10:00\n---");
    assert_eq!(extract_preamble(text.as_bytes()), Ok(preamble));

    let preamble = Preamble::new(
        "a".to_string(),
        Timestamp::new(2015, 10, 21, 7, 28, 0, 0, -86_399).unwrap(),
    );
    assert_eq!(
        preamble.serialize().unwrap(),
        "---\ntitle = \"a\"\ncreated_at = 2015-10-21T07:28:00-23:59\n---"
    );
    let preamble = Preamble::new(
        "a".to_string(),
        Timestamp::new(2015, 10, 21, 7, 28, 0, 0, 86_399).unwrap(),
    );
    assert_eq!(
        preamble.serialize().unwrap(),
        "---\ntitle = \"a\"\ncreated_at = 2015-10-21T07:28:00+23:59\n---"
    );
}

#[test]
fn serialize_refuses_a_year_that_does_not_fit() {
    let preamble = Preamble {
        title: "t".to_string(),
        created_at: Timestamp::new(65536, 1, 1, 0, 0, 0, 0, 0).unwrap(),
    };
    assert_eq!(preamble.serialize(), Err(SerializeError::Year));
    let preamble = Preamble {
        title: "t".to_string(),
        created_at: Timestamp::new(-1, 1, 1, 0, 0, 0, 0, 0).unwrap(),
    };
    assert_eq!(preamble.serialize(), Err(SerializeError::Year));
}

#[test]
fn toml_datetime_rounds_the_offset_towards_zero() {
    let parts = toml_datetime(&Timestamp::new(2015, 10, 21, 7, 28, 9, 5, 32767).unwrap()).unwrap();
    assert_eq!(
        parts,
        DatetimeParts {
            date: Some((2015, 10, 21)),
            time: Some((7, 28, 9, 5)),
            offset: Some(OffsetPart::Custom { minutes: 546 })
        }
    );
    let parts = toml_datetime(&Timestamp::new(2015, 10, 21, 7, 28, 9, 5, -32768).unwrap()).unwrap();
    assert_eq!(parts.offset, Some(OffsetPart::Custom { minutes: -546 }));
    let parts = toml_datetime(&Timestamp::new(2015, 10, 21, 7, 28, 9, 5, -59).unwrap()).unwrap();
    assert_eq!(parts.offset, Some(OffsetPart::Custom { minutes: 0 }));
    let parts = toml_datetime(&Timestamp::new(2015, 10, 21, 7, 28, 9, 5, 36_000).unwrap()).unwrap();
    assert_eq!(parts.offset, Some(OffsetPart::Custom { minutes: 600 }));
    let parts = toml_datetime(&Timestamp::new(2015, 10, 21, 7, 28, 9, 5, -86_399).unwrap()).unwrap();
    assert_eq!(parts.offset, Some(OffsetPart::Custom { minutes: -1439 }));
}

#[test]
fn deserialize_datetime_needs_every_part() {
    let whole = DatetimeParts {
        date: Some((2015, 10, 21)),
        time: Some((7, 28, 0, 0)),
        offset: Some(OffsetPart::Z),
    };
    assert_eq!(
        deserialize_datetime(whole),
        Ok(Timestamp::new(2015, 10, 21, 7, 28, 0, 0, 0).unwrap())
    );
    assert_eq!(
        deserialize_datetime(DatetimeParts { date: None, ..whole }),
        Err(DeserializeFlaw::MissingDate)
    );
    assert_eq!(
        deserialize_datetime(DatetimeParts { time: None, ..whole }),
        Err(DeserializeFlaw::MissingTime)
    );
    assert_eq!(
        deserialize_datetime(DatetimeParts { offset: None, ..whole }),
        Err(DeserializeFlaw::MissingOffset)
    );
}

#[test]
fn deserialize_datetime_checks_offset_and_calendar() {
    let whole = DatetimeParts {
        date: Some((2015, 10, 21)),
        time: Some((7, 28, 0, 0)),
        offset: Some(OffsetPart::Custom { minutes: 600 }),
    };
    assert_eq!(
        deserialize_datetime(whole),
        Ok(Timestamp::new(2015, 10, 21, 7, 28, 0, 0, 36000).unwrap())
    );
    assert_eq!(
        deserialize_datetime(DatetimeParts {
            offset: Some(OffsetPart::Custom { minutes: 1440 }),
            ..whole
        }),
        Err(DeserializeFlaw::OffsetOutOfRange)
    );
    assert_eq!(
        deserialize_datetime(DatetimeParts {
            offset: Some(OffsetPart::Custom { minutes: -1440 }),
            ..whole
        }),
        Err(DeserializeFlaw::OffsetOutOfRange)
    );
    assert_eq!(
        deserialize_datetime(DatetimeParts { date: Some((2015, 2, 29)), ..whole }),
        Err(DeserializeFlaw::Unresolvable)
    );
    assert_eq!(
        deserialize_datetime(DatetimeParts { time: Some((7, 28, 60, 0)), ..whole }),
        Err(DeserializeFlaw::Unresolvable)
    );
}

#[test]
fn extract_rejects_a_first_line_that_is_no_fence() {
    assert_eq!(
        extract_preamble(b"title = \"x\"\n---\n"),
        Err(InvalidPreambleError::MalformedFence("title = \"x\"\n".to_string()))
    );
    assert_eq!(extract_preamble(b""), Err(InvalidPreambleError::MalformedFence("".to_string())));
    assert_eq!(extract_preamble(b"---"), Err(InvalidPreambleError::MalformedFence("---".to_string())));
    assert_eq!(
        extract_preamble(b"---\r\ntitle"),
        Err(InvalidPreambleError::MalformedFence("---\r\n".to_string()))
    );
    assert_eq!(
        extract_preamble(b" ---\n---\n"),
        Err(InvalidPreambleError::MalformedFence(" ---\n".to_string()))
    );
}

#[test]
fn extract_rejects_a_fence_that_is_never_closed() {
    assert_eq!(extract_preamble(b"---\n"), Err(InvalidPreambleError::UnterminatedFence));
    assert_eq!(
        extract_preamble(b"---\ntitle = \"x\"\ncreated_at = 2015-10-21T07:28:00-07:00\n"),
        Err(InvalidPreambleError::UnterminatedFence)
    );
    assert_eq!(
        extract_preamble(b"---\ntitle = \"x\"\n--- \n----\n"),
        Err(InvalidPreambleError::UnterminatedFence)
    );
}

#[test]
fn extract_reports_what_the_document_lacks() {
    assert_eq!(flaw_of("---\n---\n"), DeserializeFlaw::MissingTitle);
    assert_eq!(flaw_of("---\ntitle = \"x\"\n---\n"), DeserializeFlaw::MissingCreatedAt);
    assert_eq!(
        flaw_of("---\ntitle = 5\ncreated_at = 2015-10-21T07:28:00-07:00\n---\n"),
        DeserializeFlaw::TitleNotText
    );
    assert_eq!(
        flaw_of("---\ntitle = \"x\"\ncreated_at = \"2015-10-21T07:28:00-07:00\"\n---\n"),
        DeserializeFlaw::CreatedAtNotDatetime
    );
    assert_eq!(flaw_of("---\ntitle = \n---\n"), DeserializeFlaw::Syntax);
    assert_eq!(
        flaw_of("---\ntitle = \"x\"\ncreated_at = 07:28:00\n---\n"),
        DeserializeFlaw::MissingDate
    );
    assert_eq!(
        flaw_of("---\ntitle = \"x\"\ncreated_at = 2015-10-21\n---\n"),
        DeserializeFlaw::MissingTime
    );
    assert_eq!(
        flaw_of("---\ntitle = \"x\"\ncreated_at = 2015-10-21T07:28:00\n---\n"),
        DeserializeFlaw::MissingOffset
    );
}

#[test]
fn extract_reads_an_offset_written_as_z() {
    let preamble =
        extract_preamble(b"---\ncreated_at = 2015-10-21T07:28:00.5Z\nextra = 1\ntitle = \"x\"\n---\nbody")
            .expect("preamble can be read");
    assert_eq!(preamble.title, "x");
    assert_eq!(preamble.created_at, Timestamp::new(2015, 10, 21, 7, 28, 0, 500_000_000, 0).unwrap());
}

#[test]
fn syntax_errors_carry_what_the_parser_said() {
    match extract_preamble(b"---\ntitle = \n---\n") {
        Err(InvalidPreambleError::DeserializeError(error)) => {
            assert_eq!(error.flaw, DeserializeFlaw::Syntax);
            assert!(error.syntax.is_some());
        }
        other => panic!("expected a flawed document, got {:?}", other),
    }
    match extract_preamble(b"---\n---\n") {
        Err(InvalidPreambleError::DeserializeError(error)) => assert!(error.syntax.is_none()),
        other => panic!("expected a flawed document, got {:?}", other),
    }
}

#[test]
fn extract_reads_no_further_than_the_closing_fence() {
    let mut contents =
        b"---\ntitle = \"x\"\ncreated_at = 2015-10-21T07:28:00-07:00\n---\n".to_vec();
    contents.extend_from_slice(&[0xFF, 0xFE, b'\n', 0xC0]);
    let preamble = extract_preamble(&contents).expect("preamble can be read");
    assert_eq!(preamble.title, "x");
}

#[test]
fn extract_rejects_lines_that_are_no_text() {
    let failure = quicknotes::storage::IoFailure {
        kind: quicknotes::storage::IoFailureKind::Other,
        message: "stream did not contain valid UTF-8".to_string(),
    };
    assert_eq!(
        extract_preamble(&[0xFF, b'-', b'-', b'-', b'\n']),
        Err(InvalidPreambleError::IOError(failure.clone()))
    );
    assert_eq!(
        extract_preamble(b"---\ntitle = \"\xFF\"\n---\n"),
        Err(InvalidPreambleError::IOError(failure.clone()))
    );
    assert_eq!(
        extract_preamble(b"---\ntitle = \"x\"\n\xE2\x82"),
        Err(InvalidPreambleError::IOError(failure))
    );
}

#[test]
fn extract_reads_text_outside_ascii() {
    let contents = "---\ntitle = \"caf\u{e9} \u{1F600} \u{4e2d}\"\ncreated_at = 2015-10-21T07:28:00-07:00\n---\n\u{e9}";
    let preamble = extract_preamble(contents.as_bytes()).expect("preamble can be read");
    assert_eq!(preamble.title, "caf\u{e9} \u{1F600} \u{4e2d}");
    assert_eq!(
        extract_preamble("\u{e9}---\n".as_bytes()),
        Err(InvalidPreambleError::MalformedFence("\u{e9}---\n".to_string()))
    );
}

#[test]
fn extract_rejects_a_second_that_no_clock_shows() {
    assert_eq!(
        flaw_of("---\ntitle = \"x\"\ncreated_at = 2015-10-21T07:28:60-07:00\n---\n"),
        DeserializeFlaw::Unresolvable
    );
}

#[test]
fn stems_of_lower_case_titles() {
    assert_eq!(filename_stem_for_lowered("my cool note"), "my-cool-note");
    assert_eq!(filename_stem_for_lowered("v1.2 notes!"), "v12-notes");
    assert_eq!(filename_stem_for_lowered("Kept As Is"), "Kept-As-Is");
    assert_eq!(filename_stem_for_lowered(""), "");
}

#[test]
fn white_space_at_the_end_is_what_unicode_calls_white_space() {
    let white_space = |ch: char| {
        matches!(
            ch,
            '\u{9}'..='\u{d}'
                | ' '
                | '\u{85}'
                | '\u{a0}'
                | '\u{1680}'
                | '\u{2000}'..='\u{200a}'
                | '\u{2028}'
                | '\u{2029}'
                | '\u{202f}'
                | '\u{205f}'
                | '\u{3000}'
        )
    };
    let mut counted = 0;
    for ch in '\0'..=char::MAX {
        let text = format!("a{ch}");
        assert_eq!(text.trim_end() == "a", white_space(ch), "{:?}", ch);
        if white_space(ch) {
            counted += 1;
        }
    }
    assert_eq!(counted, 25);
}
