use tacview_split::processor::{
    first_significant_char, get_coalition_per_line, partition_body, split_into_header_and_body,
    Line, LineError, LineType, ProcessError,
};
use tacview_split::tacview::{Coalition, CoalitionIDs, ThirdName};

fn strings(lines: &[&str]) -> Vec<String> {
    lines.iter().map(|line| line.to_string()).collect()
}

#[test]
fn test_find_type() {
    assert_eq!(LineType::find_type("#0").unwrap(), LineType::Timestamp);
    assert_eq!(
        LineType::find_type("102,T=5.0785362|6.203").unwrap(),
        LineType::Telemetry
    );
    assert_eq!(LineType::find_type("-102").unwrap(), LineType::Destruction);
    assert_eq!(
        LineType::find_type("0,Authentication").unwrap(),
        LineType::ArbitraryData
    );
}

#[test]
#[should_panic]
fn test_find_type_for_space() {
    LineType::find_type(" ").unwrap();
}

#[test]
fn test_get_id_from_line() {
    let lines = vec![
        ("102,T=5.0785362|6.203", "102"),
        ("2d02,T=", "2d02"),
        ("248b02,T=6.70283", "248b02"),
    ];
    for l in lines {
        assert_eq!(
            Line::get_id_from_line(l.0, &LineType::Telemetry).unwrap(),
            l.1
        )
    }
    let lines = vec![("-102", "102"), ("-2d02", "2d02"), ("-248b02", "248b02")];
    for l in lines {
        assert_eq!(
            Line::get_id_from_line(l.0, &LineType::Destruction).unwrap(),
            l.1
        )
    }
}

#[test]
fn find_type_rejects_leading_whitespace() {
    assert_eq!(LineType::find_type(" "), Err(ProcessError::MalformedLine));
    assert_eq!(LineType::find_type("\t102,T=1"), Err(ProcessError::MalformedLine));
    assert_eq!(LineType::find_type("\u{A0}102,T=1"), Err(ProcessError::MalformedLine));
    assert_eq!(LineType::find_type("\u{3000}"), Err(ProcessError::MalformedLine));
}

#[test]
fn find_type_takes_other_characters_for_telemetry() {
    assert_eq!(LineType::find_type("a"), Ok(LineType::Telemetry));
    assert_eq!(LineType::find_type("1"), Ok(LineType::Telemetry));
    assert_eq!(LineType::find_type("\\"), Ok(LineType::Telemetry));
    assert_eq!(LineType::find_type("é,T=1"), Ok(LineType::Telemetry));
}

#[test]
fn find_type_rejects_a_line_without_characters() {
    assert_eq!(LineType::find_type(""), Err(ProcessError::EmptyLine));
    assert_eq!(LineType::find_type("\u{FEFF}"), Err(ProcessError::EmptyLine));
    assert_eq!(LineType::find_type("\u{FEFF}\u{FEFF}"), Err(ProcessError::EmptyLine));
}

#[test]
fn find_type_passes_over_byte_order_marks() {
    assert_eq!(LineType::find_type("\u{FEFF}#0"), Ok(LineType::Timestamp));
    assert_eq!(LineType::find_type("\u{FEFF}\u{FEFF}-1"), Ok(LineType::Destruction));
    assert_eq!(LineType::find_type("\u{FEFF}0,A=1"), Ok(LineType::ArbitraryData));
    assert_eq!(LineType::find_type("\u{FEFF} "), Err(ProcessError::MalformedLine));
}

#[test]
fn by_first_char_follows_the_table() {
    assert_eq!(LineType::by_first_char('#', false), Ok(LineType::Timestamp));
    assert_eq!(LineType::by_first_char('-', false), Ok(LineType::Destruction));
    assert_eq!(LineType::by_first_char('0', false), Ok(LineType::ArbitraryData));
    assert_eq!(LineType::by_first_char('7', false), Ok(LineType::Telemetry));
    assert_eq!(LineType::by_first_char(' ', true), Err(ProcessError::MalformedLine));
    assert_eq!(LineType::by_first_char('#', true), Ok(LineType::Timestamp));
}

#[test]
fn first_significant_char_skips_marks() {
    assert_eq!(first_significant_char("abc"), Some('a'));
    assert_eq!(first_significant_char("\u{FEFF}\u{FEFF}x"), Some('x'));
    assert_eq!(first_significant_char(""), None);
    assert_eq!(first_significant_char("\u{FEFF}"), None);
}

#[test]
fn will_line_continue_looks_at_the_last_character() {
    assert!(Line::will_line_continue("102,T=5.07|6.20\\"));
    assert!(Line::will_line_continue("\\"));
    assert!(!Line::will_line_continue("102,T=5.07|6.20"));
    assert!(!Line::will_line_continue(""));
    assert!(!Line::will_line_continue("a\\b"));
    assert!(!Line::will_line_continue("a\\ "));
}

#[test]
fn get_id_from_line_fails_without_an_identifier() {
    let telemetry = LineType::Telemetry;
    let destruction = LineType::Destruction;
    assert_eq!(
        Line::get_id_from_line(",T=1", &telemetry),
        Err(ProcessError::CannotExtractID)
    );
    assert_eq!(
        Line::get_id_from_line("102", &telemetry),
        Err(ProcessError::CannotExtractID)
    );
    assert_eq!(
        Line::get_id_from_line("", &telemetry),
        Err(ProcessError::CannotExtractID)
    );
    assert_eq!(
        Line::get_id_from_line("-", &destruction),
        Err(ProcessError::CannotExtractID)
    );
    assert_eq!(
        Line::get_id_from_line("", &destruction),
        Err(ProcessError::CannotExtractID)
    );
    assert_eq!(
        Line::get_id_from_line("\u{FEFF}", &destruction),
        Err(ProcessError::CannotExtractID)
    );
}

#[test]
fn get_id_from_line_takes_what_follows_the_marker() {
    let destruction = LineType::Destruction;
    assert_eq!(Line::get_id_from_line("-a,b", &destruction), Ok("a,b"));
    assert_eq!(Line::get_id_from_line("\u{FEFF}-100", &destruction), Ok("100"));
    assert_eq!(Line::get_id_from_line("-é1", &destruction), Ok("é1"));
}

#[test]
fn get_id_from_line_stops_at_the_first_comma() {
    let telemetry = LineType::Telemetry;
    assert_eq!(Line::get_id_from_line("a,b,c", &telemetry), Ok("a"));
    assert_eq!(Line::get_id_from_line("é1,T=1", &telemetry), Ok("é1"));
    assert_eq!(Line::get_id_from_line("1,", &telemetry), Ok("1"));
    assert_eq!(Line::get_id_from_line("#1,", &LineType::Timestamp), Ok("#1"));
}

#[test]
fn assign_registers_the_colour_of_a_line() {
    let mut ids = CoalitionIDs::new();
    let found = Line::assign_id_to_coalitions(&mut ids, "100,T=1|1,Color=Red", "100", ThirdName::Violet);
    assert_eq!(found, Some(Coalition::Red));
    assert_eq!(ids.get("100"), Some(Coalition::Red));
    let found = Line::assign_id_to_coalitions(&mut ids, "100,T=2|2", "100", ThirdName::Violet);
    assert_eq!(found, Some(Coalition::Red));
    let found = Line::assign_id_to_coalitions(&mut ids, "101,T=2|2", "101", ThirdName::Violet);
    assert_eq!(found, None);
    assert_eq!(ids.get("101"), None);
}

#[test]
fn assign_keeps_the_first_registration() {
    let mut ids = CoalitionIDs::new();
    Line::assign_id_to_coalitions(&mut ids, "100,Color=Red", "100", ThirdName::Violet);
    let found = Line::assign_id_to_coalitions(&mut ids, "100,Color=Blue", "100", ThirdName::Violet);
    assert_eq!(found, Some(Coalition::Blue));
    assert_eq!(ids.get("100"), Some(Coalition::Red));
}

#[test]
fn from_content_reads_telemetry_and_destruction() {
    let mut ids = CoalitionIDs::new();
    let line = Line::from_content(LineType::Telemetry, "7,T=1,Color=Violet\\", &mut ids, ThirdName::Violet).unwrap();
    assert_eq!(line, Line::new(LineType::Telemetry, true, Coalition::Violet));
    let line = Line::from_content(LineType::Destruction, "-7", &mut ids, ThirdName::Violet).unwrap();
    assert_eq!(line, Line::new(LineType::Destruction, false, Coalition::Violet));
    let line = Line::from_content(LineType::Destruction, "-8", &mut ids, ThirdName::Violet).unwrap();
    assert_eq!(line, Line::new(LineType::Destruction, false, Coalition::Unknown));
    assert_eq!(
        Line::from_content(LineType::Telemetry, "no separator", &mut ids, ThirdName::Violet),
        Err(ProcessError::CannotExtractID)
    );
}

#[test]
fn process_line_classifies_a_fresh_line() {
    let mut ids = CoalitionIDs::new();
    let start = Line::default();
    assert_eq!(start, Line::new(LineType::Unknown, false, Coalition::Unknown));
    assert_eq!(
        Line::process_line(start, "#47.13", &mut ids, ThirdName::Violet),
        Ok(Line::new(LineType::Timestamp, false, Coalition::All))
    );
    assert_eq!(
        Line::process_line(start, "0,ReferenceLongitude=45.0", &mut ids, ThirdName::Violet),
        Ok(Line::new(LineType::ArbitraryData, false, Coalition::All))
    );
    assert_eq!(
        Line::process_line(start, "100,T=1|1,Color=Blue", &mut ids, ThirdName::Violet),
        Ok(Line::new(LineType::Telemetry, false, Coalition::Blue))
    );
    assert_eq!(
        Line::process_line(start, "-100", &mut ids, ThirdName::Violet),
        Ok(Line::new(LineType::Destruction, false, Coalition::Blue))
    );
    assert_eq!(
        Line::process_line(start, " 100", &mut ids, ThirdName::Violet),
        Err(ProcessError::MalformedLine)
    );
    assert_eq!(Line::process_line(start, "", &mut ids, ThirdName::Violet), Err(ProcessError::EmptyLine));
    assert_eq!(
        Line::process_line(start, "100", &mut ids, ThirdName::Violet),
        Err(ProcessError::CannotExtractID)
    );
}

#[test]
fn process_line_hands_type_and_coalition_to_a_continuation() {
    let mut ids = CoalitionIDs::new();
    let first = Line::process_line(Line::default(), "102,T=5.07|6.20\\", &mut ids, ThirdName::Violet).unwrap();
    assert_eq!(first, Line::new(LineType::Telemetry, true, Coalition::Unknown));
    let second = Line::process_line(first, "  more=data", &mut ids, ThirdName::Violet).unwrap();
    assert_eq!(second, Line::new(LineType::Telemetry, false, Coalition::Unknown));
    assert_eq!(ids.get("102"), None);
    assert_eq!(ids.get("  more=data"), None);
}

#[test]
fn process_line_leaves_the_registry_alone_on_a_continuation() {
    let mut ids = CoalitionIDs::new();
    let first = Line::new(LineType::Telemetry, true, Coalition::Red);
    let second = Line::process_line(first, "200,Color=Blue\\", &mut ids, ThirdName::Violet).unwrap();
    assert_eq!(second, Line::new(LineType::Telemetry, true, Coalition::Red));
    assert_eq!(ids.get("200"), None);
    let third = Line::process_line(second, "", &mut ids, ThirdName::Violet).unwrap();
    assert_eq!(third, Line::new(LineType::Telemetry, false, Coalition::Red));
}

#[test]
fn process_line_cannot_continue_an_unknown_type() {
    let mut ids = CoalitionIDs::new();
    let odd = Line::new(LineType::Unknown, true, Coalition::Unknown);
    assert_eq!(
        Line::process_line(odd, "#0", &mut ids, ThirdName::Violet),
        Err(ProcessError::UnknownLineType)
    );
}

#[test]
fn split_cuts_before_the_first_timestamp() {
    let lines = strings(&["FileType=text/acmi/tacview", "FileVersion=2.1", "#0", "1,T=1", "#1"]);
    let (header, body) = split_into_header_and_body(lines).unwrap();
    assert_eq!(header, strings(&["FileType=text/acmi/tacview", "FileVersion=2.1"]));
    assert_eq!(body, strings(&["#0", "1,T=1", "#1"]));
}

#[test]
fn split_passes_over_a_byte_order_mark() {
    let lines = strings(&["\u{FEFF}FileType=text/acmi/tacview", "\u{FEFF}#0", "1,T=1"]);
    let (header, body) = split_into_header_and_body(lines).unwrap();
    assert_eq!(header, strings(&["\u{FEFF}FileType=text/acmi/tacview"]));
    assert_eq!(body, strings(&["\u{FEFF}#0", "1,T=1"]));
}

#[test]
fn split_without_a_timestamp_is_all_header() {
    let lines = strings(&["FileType=text/acmi/tacview", "0,ReferenceTime=2020"]);
    let (header, body) = split_into_header_and_body(lines.clone()).unwrap();
    assert_eq!(header, lines);
    assert!(body.is_empty());
}

#[test]
fn split_of_nothing_is_nothing() {
    let (header, body) = split_into_header_and_body(Vec::new()).unwrap();
    assert!(header.is_empty());
    assert!(body.is_empty());
}

#[test]
fn split_with_a_timestamp_first_has_no_header() {
    let lines = strings(&["#0", "a,T=1"]);
    let (header, body) = split_into_header_and_body(lines.clone()).unwrap();
    assert!(header.is_empty());
    assert_eq!(body, lines);
}

#[test]
fn split_rejects_an_empty_line_in_the_header() {
    let lines = strings(&["FileType=text/acmi/tacview", "", "#0"]);
    assert_eq!(split_into_header_and_body(lines), Err(ProcessError::EmptyLine));
    let lines = strings(&["\u{FEFF}", "#0"]);
    assert_eq!(split_into_header_and_body(lines), Err(ProcessError::EmptyLine));
}

#[test]
fn split_does_not_look_into_the_body() {
    let lines = strings(&["FileType=text/acmi/tacview", "#0", "", " x"]);
    let (header, body) = split_into_header_and_body(lines).unwrap();
    assert_eq!(header, strings(&["FileType=text/acmi/tacview"]));
    assert_eq!(body, strings(&["#0", "", " x"]));
}

#[test]
fn partition_labels_units_by_their_first_colour() {
    let body = strings(&["#0", "100,T=1|1,Color=Blue", "101,T=2|2,Color=Red", "-100"]);
    assert_eq!(
        get_coalition_per_line(&body),
        Ok(vec![Coalition::All, Coalition::Blue, Coalition::Red, Coalition::Blue])
    );
}

#[test]
fn partition_sends_global_data_to_all() {
    let body = strings(&["0,ReferenceLongitude=45.0"]);
    assert_eq!(get_coalition_per_line(&body), Ok(vec![Coalition::All]));
}

#[test]
fn partition_hands_the_label_to_a_continuation() {
    let body = strings(&["102,T=5.07|6.20,Color=Red\\", "  more=data", "-102"]);
    assert_eq!(
        get_coalition_per_line(&body),
        Ok(vec![Coalition::Red, Coalition::Red, Coalition::Red])
    );
    let body = strings(&["102,T=5.07|6.20\\", "  more=data"]);
    assert_eq!(
        get_coalition_per_line(&body),
        Ok(vec![Coalition::Unknown, Coalition::Unknown])
    );
}

#[test]
fn partition_continues_over_several_lines() {
    let body = strings(&["0,Comments=one\\", "two\\", "", "7,Color=Blue", "-7"]);
    assert_eq!(
        get_coalition_per_line(&body),
        Ok(vec![
            Coalition::All,
            Coalition::All,
            Coalition::All,
            Coalition::Blue,
            Coalition::Blue
        ])
    );
}

#[test]
fn partition_continues_a_timestamp_like_any_line() {
    let body = strings(&["#1\\", "7,Color=Blue", "-7"]);
    assert_eq!(
        get_coalition_per_line(&body),
        Ok(vec![Coalition::All, Coalition::All, Coalition::Unknown])
    );
}

#[test]
fn partition_does_not_know_a_unit_without_colour() {
    let body = strings(&["#0", "-100", "0,Authentication", "100,T=1|1"]);
    assert_eq!(
        get_coalition_per_line(&body),
        Ok(vec![Coalition::All, Coalition::Unknown, Coalition::All, Coalition::Unknown])
    );
}

#[test]
fn partition_of_nothing_is_nothing() {
    let body: Vec<String> = Vec::new();
    assert_eq!(get_coalition_per_line(&body), Ok(Vec::new()));
}

#[test]
fn partition_has_one_label_for_each_line() {
    let body = strings(&["#0", "1,Color=Red", "1,T=2", "2,Color=Green", "-2", "-1", "#1"]);
    let labels = get_coalition_per_line(&body).unwrap();
    assert_eq!(labels.len(), body.len());
    assert_eq!(
        labels,
        vec![
            Coalition::All,
            Coalition::Red,
            Coalition::Red,
            Coalition::Unknown,
            Coalition::Unknown,
            Coalition::Red,
            Coalition::All
        ]
    );
}

#[test]
fn partition_gives_the_same_labels_twice() {
    let body = strings(&["#0", "1,Color=Red\\", "x", "-1", "9,T=1", " bad"]);
    assert_eq!(get_coalition_per_line(&body), get_coalition_per_line(&body));
    let body = strings(&["#0", "1,Color=Violet", "-1"]);
    let first = get_coalition_per_line(&body);
    let second = get_coalition_per_line(&body);
    assert_eq!(first, second);
    assert_eq!(first, Ok(vec![Coalition::All, Coalition::Violet, Coalition::Violet]));
}

#[test]
fn partition_keeps_the_first_colour_of_a_unit() {
    let body = strings(&["5,Color=Red", "5,Color=Blue", "5,T=1", "-5"]);
    assert_eq!(
        get_coalition_per_line(&body),
        Ok(vec![Coalition::Red, Coalition::Blue, Coalition::Red, Coalition::Red])
    );
}

#[test]
fn partition_keeps_an_unknown_colour_too() {
    let body = strings(&["5,Color=Green", "5,Color=Blue", "-5"]);
    assert_eq!(
        get_coalition_per_line(&body),
        Ok(vec![Coalition::Unknown, Coalition::Blue, Coalition::Unknown])
    );
}

#[test]
fn partition_stops_at_the_first_bad_line() {
    let body = strings(&["#0", " 1,Color=Red", "nothing"]);
    assert_eq!(get_coalition_per_line(&body), Err(ProcessError::MalformedLine));
    let body = strings(&["#0", "nothing", " 1,Color=Red"]);
    assert_eq!(get_coalition_per_line(&body), Err(ProcessError::CannotExtractID));
    let body = strings(&["#0", "", "nothing"]);
    assert_eq!(get_coalition_per_line(&body), Err(ProcessError::EmptyLine));
    let body = strings(&["#0", "-"]);
    assert_eq!(get_coalition_per_line(&body), Err(ProcessError::CannotExtractID));
}

#[test]
fn partition_body_names_the_bad_line() {
    let body = strings(&["#0", "1,Color=Red", " 1,T=2", ""]);
    assert_eq!(
        partition_body(&body, ThirdName::Violet),
        Err(LineError { line: 2, error: ProcessError::MalformedLine })
    );
    let body = strings(&["#0", "1,Color=Red"]);
    assert_eq!(partition_body(&body, ThirdName::Violet), Ok(vec![Coalition::All, Coalition::Red]));
}

#[test]
fn partition_body_knows_the_third_coalition_by_its_name() {
    let body = strings(&["#0", "1,Color=Violet", "2,Color=Purple", "-1", "-2"]);
    assert_eq!(
        partition_body(&body, ThirdName::Violet),
        Ok(vec![
            Coalition::All,
            Coalition::Violet,
            Coalition::Unknown,
            Coalition::Violet,
            Coalition::Unknown
        ])
    );
    assert_eq!(
        partition_body(&body, ThirdName::Purple),
        Ok(vec![
            Coalition::All,
            Coalition::Unknown,
            Coalition::Violet,
            Coalition::Unknown,
            Coalition::Violet
        ])
    );
    assert_eq!(
        get_coalition_per_line(&body).ok(),
        partition_body(&body, ThirdName::Violet).ok()
    );
}

#[test]
fn process_line_reads_the_colour_of_the_third_coalition() {
    let mut ids = CoalitionIDs::new();
    assert_eq!(
        Line::process_line(Line::default(), "9,Color=Purple", &mut ids, ThirdName::Purple),
        Ok(Line::new(LineType::Telemetry, false, Coalition::Violet))
    );
    assert_eq!(ids.get("9"), Some(Coalition::Violet));
    assert_eq!(
        Line::process_line(Line::default(), "8,Color=Violet", &mut ids, ThirdName::Purple),
        Ok(Line::new(LineType::Telemetry, false, Coalition::Unknown))
    );
}
