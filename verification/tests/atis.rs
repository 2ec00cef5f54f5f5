use mini_metars::atis::{
    atis_letter, datafeed_is_stale, filter_callsign_and_parse, parse_atis_code,
    parse_code_from_text, Atis,
};

fn lines(text: &[&str]) -> Vec<String> {
    text.iter().map(|l| l.to_string()).collect()
}

fn atis(callsign: &str, code: Option<&str>, text: Option<&[&str]>) -> Atis {
    Atis {
        callsign: callsign.to_string(),
        atis_code: code.map(|c| c.to_string()),
        text_atis: text.map(lines),
    }
}

#[test]
fn letter_after_the_short_word() {
    assert_eq!(parse_code_from_text(&lines(&["BOSTON ATIS INFO B 1254Z"])), Some('B'));
    assert_eq!(parse_code_from_text(&lines(&["INFO Z"])), Some('Z'));
    assert_eq!(parse_code_from_text(&lines(&["INFO A"])), Some('A'));
}

#[test]
fn letter_after_the_long_word() {
    assert_eq!(
        parse_code_from_text(&lines(&["LOGAN AIRPORT INFORMATION C", "WIND 270 AT 5"])),
        Some('C')
    );
}

#[test]
fn short_word_is_tried_first_wherever_it_stands() {
    assert_eq!(
        parse_code_from_text(&lines(&["INFORMATION C", "ADVISE YOU HAVE INFO D"])),
        Some('D')
    );
}

#[test]
fn first_occurrence_with_a_letter_counts() {
    assert_eq!(parse_code_from_text(&lines(&["INFO 1 INFO x INFO Q INFO R"])), Some('Q'));
}

#[test]
fn lines_are_joined_by_a_space() {
    assert_eq!(parse_code_from_text(&lines(&["ADVISE YOU HAVE INFO", "K"])), Some('K'));
    assert_eq!(parse_code_from_text(&lines(&["ADVISE YOU HAVE INF", "O K"])), None);
}

#[test]
fn text_without_a_letter_names_none() {
    assert_eq!(parse_code_from_text(&lines(&[])), None);
    assert_eq!(parse_code_from_text(&lines(&[""])), None);
    assert_eq!(parse_code_from_text(&lines(&["INFO"])), None);
    assert_eq!(parse_code_from_text(&lines(&["INFO "])), None);
    assert_eq!(parse_code_from_text(&lines(&["INFO b"])), None);
    assert_eq!(parse_code_from_text(&lines(&["info B"])), None);
    assert_eq!(parse_code_from_text(&lines(&["INFO  B"])), None);
    assert_eq!(parse_code_from_text(&lines(&["INFORMATION"])), None);
    assert_eq!(parse_code_from_text(&lines(&["INFO É"])), None);
}

#[test]
fn text_one_letter_ahead_of_the_listing_stands() {
    assert_eq!(parse_atis_code(&atis("K", Some("A"), Some(&["INFO B"]))), "B");
    assert_eq!(parse_atis_code(&atis("K", Some("Y"), Some(&["INFORMATION Z"]))), "Z");
}

#[test]
fn listing_stands_otherwise() {
    assert_eq!(parse_atis_code(&atis("K", Some("A"), Some(&["INFO A"]))), "A");
    assert_eq!(parse_atis_code(&atis("K", Some("A"), Some(&["INFO C"]))), "A");
    assert_eq!(parse_atis_code(&atis("K", Some("C"), Some(&["INFO A"]))), "C");
    assert_eq!(parse_atis_code(&atis("K", Some("Z"), Some(&["INFO A"]))), "Z");
}

#[test]
fn listing_of_several_characters() {
    assert_eq!(parse_atis_code(&atis("K", Some("AB"), Some(&["INFO B"]))), "B");
    assert_eq!(parse_atis_code(&atis("K", Some("AB"), Some(&["INFO X"]))), "A");
    assert_eq!(parse_atis_code(&atis("K", Some("AB"), Some(&["NOTHING"]))), "AB");
    assert_eq!(parse_atis_code(&atis("K", Some("AB"), None)), "AB");
    assert_eq!(parse_atis_code(&atis("K", Some(""), Some(&["INFO B"]))), "");
    assert_eq!(parse_atis_code(&atis("K", Some(""), None)), "");
}

#[test]
fn without_a_listing_the_text_decides() {
    assert_eq!(parse_atis_code(&atis("K", None, Some(&["INFO M"]))), "M");
    assert_eq!(parse_atis_code(&atis("K", None, Some(&["NOTHING"]))), "-");
    assert_eq!(parse_atis_code(&atis("K", None, None)), "-");
}

#[test]
fn first_callsign_with_the_pattern() {
    let arrival = atis("KJFK_A_ATIS", Some("A"), None);
    let departure = atis("KJFK_D_ATIS", Some("D"), None);
    let second = atis("KJFK_D_ATIS", Some("E"), None);
    let found = [&arrival, &departure, &second];
    assert_eq!(filter_callsign_and_parse(&found, "_A_"), "A");
    assert_eq!(filter_callsign_and_parse(&found, "_D_"), "D");
    assert_eq!(filter_callsign_and_parse(&found, "_X_"), "-");
    assert_eq!(filter_callsign_and_parse(&[], "_A_"), "-");
}

#[test]
fn one_broadcast() {
    let list = vec![
        atis("KJFK_ATIS", Some("Q"), None),
        atis("KBOS_ATIS", Some("B"), Some(&["BOSTON INFO C"])),
    ];
    assert_eq!(atis_letter(&list, "KBOS"), "C");
    assert_eq!(atis_letter(&list, "KJFK"), "Q");
}

#[test]
fn arrival_and_departure_broadcast() {
    let list = vec![
        atis("KJFK_D_ATIS", Some("D"), None),
        atis("KBOS_ATIS", Some("B"), None),
        atis("KJFK_A_ATIS", Some("A"), Some(&["KENNEDY ARRIVAL INFO B"])),
    ];
    assert_eq!(atis_letter(&list, "KJFK"), "B/D");
}

#[test]
fn two_broadcasts_without_the_patterns() {
    let list = vec![atis("KJFK_ATIS", Some("A"), None), atis("KJFK_1_ATIS", Some("B"), None)];
    assert_eq!(atis_letter(&list, "KJFK"), "-/-");
    let list = vec![atis("KJFK_A_ATIS", Some("A"), None), atis("KJFK_ATIS", Some("B"), None)];
    assert_eq!(atis_letter(&list, "KJFK"), "A/-");
}

#[test]
fn none_or_more_than_two_broadcasts() {
    let list = vec![
        atis("KJFK_A_ATIS", Some("A"), None),
        atis("KJFK_D_ATIS", Some("D"), None),
        atis("KJFK_ATIS", Some("X"), None),
    ];
    assert_eq!(atis_letter(&list, "KJFK"), "-");
    assert_eq!(atis_letter(&list, "KBOS"), "-");
    assert_eq!(atis_letter(&Vec::new(), "KBOS"), "-");
    assert_eq!(atis_letter(&list, ""), "-");
}

#[test]
fn callsign_must_begin_with_the_station() {
    let list = vec![atis("XKBOS_ATIS", Some("A"), None), atis("KBOS", Some("B"), None)];
    assert_eq!(atis_letter(&list, "KBOS"), "B");
    assert_eq!(atis_letter(&list, "kbos"), "-");
}

#[test]
fn snapshot_is_stale_after_sixty_seconds() {
    assert!(!datafeed_is_stale(0));
    assert!(!datafeed_is_stale(59_999_999_999));
    assert!(!datafeed_is_stale(60_000_000_000));
    assert!(datafeed_is_stale(60_000_000_001));
    assert!(datafeed_is_stale(u128::MAX));
}
