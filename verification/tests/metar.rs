use mini_metars::awc::metar_from_reports;
use mini_metars::error::Error;
use mini_metars::metar::{Cloud, MetarDto, StringOrF64, StringOrI32};
use mini_metars::number::Float64;
use mini_metars::text::{
    contains_char, contains_str, format_decimal, format_padded, join, starts_with,
    starts_with_char,
};

fn number(value: f64) -> Float64 {
    Float64 { bits: value.to_bits() }
}

fn report(icao: &str, wdir: Option<StringOrI32>, wspd: Option<i32>, wgst: Option<i32>) -> MetarDto {
    MetarDto {
        metar_id: 1,
        icao_id: icao.to_string(),
        receipt_time: "2024-01-01 00:05:00".to_string(),
        obs_time: 1_704_067_200,
        report_time: "2024-01-01 00:00:00".to_string(),
        temp: Some(number(1.5)),
        dewp: None,
        wdir,
        wspd,
        wgst,
        visib: StringOrF64::String("10+".to_string()),
        altim: number(1013.2),
        slp: None,
        qc_field: 0,
        wx_string: None,
        pres_tend: None,
        max_t: None,
        min_t: None,
        max_t24: None,
        min_t24: None,
        precip: None,
        pcp3hr: None,
        pcp6hr: None,
        pcp24hr: None,
        snow: None,
        vert_vis: None,
        metar_type: "METAR".to_string(),
        raw_ob: String::new(),
        most_recent: 1,
        lat: number(42.36),
        lon: number(-71.01),
        elev: 6,
        prior: 1,
        name: "Boston".to_string(),
        clouds: vec![Cloud { cover: "FEW".to_string(), base: Some(2500) }],
    }
}

#[test]
fn wind_with_numeric_direction() {
    assert_eq!(report("K", Some(StringOrI32::I32(270)), Some(5), None).wind_string(), "27005KT");
    assert_eq!(report("K", Some(StringOrI32::I32(5)), Some(12), None).wind_string(), "00512KT");
    assert_eq!(report("K", Some(StringOrI32::I32(0)), Some(0), None).wind_string(), "00000KT");
    assert_eq!(report("K", Some(StringOrI32::I32(40)), Some(115), None).wind_string(), "040115KT");
}

#[test]
fn wind_with_gusts() {
    assert_eq!(
        report("K", Some(StringOrI32::I32(90)), Some(15), Some(25)).wind_string(),
        "09015G25KT"
    );
    assert_eq!(
        report("K", Some(StringOrI32::I32(360)), Some(8), Some(7)).wind_string(),
        "36008G7KT"
    );
}

#[test]
fn wind_with_text_direction() {
    assert_eq!(
        report("K", Some(StringOrI32::String("VRB".to_string())), Some(3), None).wind_string(),
        "VRB03KT"
    );
}

#[test]
fn wind_missing_direction_or_speed_is_empty() {
    assert_eq!(report("K", None, Some(3), Some(9)).wind_string(), "");
    assert_eq!(report("K", Some(StringOrI32::I32(10)), None, Some(9)).wind_string(), "");
    assert_eq!(report("K", None, None, None).wind_string(), "");
}

#[test]
fn wind_with_negative_numbers_keeps_the_sign_first() {
    assert_eq!(
        report("K", Some(StringOrI32::I32(-5)), Some(-3), Some(-1)).wind_string(),
        "-05-3G-1KT"
    );
}

#[test]
fn padded_rendering_agrees_with_the_formatter() {
    let values = [
        0, 1, 9, 10, 11, 99, 100, 101, 999, 1000, 12345, 1_000_000_000, i32::MAX, -1, -9, -10,
        -99, -100, -12345, i32::MIN,
    ];
    for v in values {
        assert_eq!(format_padded(v, 0), format!("{}", v));
        assert_eq!(format_padded(v, 2), format!("{:02}", v));
        assert_eq!(format_padded(v, 3), format!("{:03}", v));
        assert_eq!(format_padded(v, 12), format!("{:012}", v));
        assert_eq!(format_decimal(v), v.to_string());
    }
    assert_eq!(format_padded(7, 3), "007");
    assert_eq!(format_padded(-7, 3), "-07");
    assert_eq!(format_padded(1234, 3), "1234");
    assert_eq!(format_decimal(i32::MIN), "-2147483648");
}

#[test]
fn either_form_renders_as_text() {
    assert_eq!(StringOrI32::String("VRB".to_string()).to_string(), "VRB");
    assert_eq!(StringOrI32::I32(270).to_string(), "270");
    assert_eq!(StringOrI32::I32(-4).to_string(), "-4");
    assert_eq!(StringOrI32::I32(0).to_string(), "0");
}

#[test]
fn first_report_answers_a_single_request() {
    let first = report("KBOS", None, None, None);
    let second = report("KJFK", None, None, None);
    assert_eq!(metar_from_reports(vec![first.clone(), second]), Ok(first.clone()));
    assert_eq!(metar_from_reports(vec![first.clone()]), Ok(first));
}

#[test]
fn no_report_is_not_found() {
    assert_eq!(metar_from_reports(Vec::new()), Err(Error::NotFound));
}

#[test]
fn joining() {
    let parts = |items: &[&str]| items.iter().map(|s| s.to_string()).collect::<Vec<_>>();
    assert_eq!(join(&parts(&[]), ","), "");
    assert_eq!(join(&parts(&["a"]), ","), "a");
    assert_eq!(join(&parts(&["a", "b", "c"]), ","), "a,b,c");
    assert_eq!(join(&parts(&["", ""]), " "), " ");
    assert_eq!(join(&parts(&["x", "y"]), ""), "xy");
}

#[test]
fn searching() {
    assert!(starts_with_char("@NE", '@'));
    assert!(!starts_with_char("N@E", '@'));
    assert!(!starts_with_char("", '@'));
    assert!(contains_char("K,B", ','));
    assert!(!contains_char("KB", ','));
    assert!(starts_with("KBOS_ATIS", "KBOS"));
    assert!(starts_with("KBOS", ""));
    assert!(!starts_with("KBO", "KBOS"));
    assert!(contains_str("KJFK_D_ATIS", "_D_"));
    assert!(!contains_str("KJFK_ATIS", "_D_"));
    assert!(contains_str("abc", ""));
    assert!(contains_str("", ""));
    assert!(contains_str("abc", "c"));
    assert!(!contains_str("ab", "abc"));
}
