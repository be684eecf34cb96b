use yayti::helpers::{
    generate_yt_video_thumbnail_url, generate_yt_video_thumbnails,
    generate_yt_video_thumbnails_within_max_size, parse_date_to_published, ParseDateError,
    ParseDateOption, SubVector, UTF16Substring,
};
use yayti::json::{JsonNumber, JsonValue};

fn conv(v: serde_json::Value) -> JsonValue {
    match v {
        serde_json::Value::Null => JsonValue::Null,
        serde_json::Value::Bool(b) => JsonValue::Bool(b),
        serde_json::Value::Number(n) => {
            if let Some(u) = n.as_u64() {
                JsonValue::Number(JsonNumber::PosInt(u))
            } else if let Some(i) = n.as_i64() {
                JsonValue::Number(JsonNumber::NegInt(i))
            } else {
                JsonValue::Number(JsonNumber::Float(n.to_string()))
            }
        }
        serde_json::Value::String(s) => JsonValue::String(s),
        serde_json::Value::Array(a) => JsonValue::Array(a.into_iter().map(conv).collect()),
        serde_json::Value::Object(m) => {
            JsonValue::Object(m.into_iter().map(|(k, v)| (k, conv(v))).collect())
        }
    }
}

fn j(text: &str) -> JsonValue {
    conv(serde_json::from_str(text).unwrap())
}

fn month_map() -> JsonValue {
    let months = ["January", "February", "March", "April", "May", "June", "July", "August",
        "September", "October", "November", "December"];
    let entries: Vec<String> = months
        .iter()
        .map(|m| format!(r#"{{"day_month_string": "{}", "full_date_string": "{}"}}"#, m, m))
        .collect();
    j(&format!(r#"{{"en": [{}]}}"#, entries.join(",")))
}

#[test]
fn thumbnail_url_is_host_id_and_path() {
    assert_eq!(
        generate_yt_video_thumbnail_url("abc", "hqdefault"),
        "https://i.ytimg.com/vi/abc/hqdefault.jpg"
    );
}

#[test]
fn all_twenty_thumbnails_in_order() {
    let t = generate_yt_video_thumbnails("xyz");
    assert_eq!(t.len(), 20);
    assert_eq!(t[0].quality, "maxresdefault");
    assert_eq!(t[0].url, "https://i.ytimg.com/vi/xyz/maxresdefault.jpg");
    assert_eq!((t[0].width, t[0].height), (1280, 720));
    assert_eq!(t[1].quality, "maxresstart");
    assert_eq!(t[1].url, "https://i.ytimg.com/vi/xyz/maxres1.jpg");
    assert_eq!(t[8].quality, "high");
    assert_eq!(t[8].url, "https://i.ytimg.com/vi/xyz/hqdefault.jpg");
    assert_eq!(t[12].quality, "medium");
    assert_eq!(t[19].quality, "end");
    assert_eq!(t[19].url, "https://i.ytimg.com/vi/xyz/3.jpg");
    assert_eq!((t[19].width, t[19].height), (120, 90));
}

#[test]
fn thumbnails_within_a_width_are_the_fitting_ones() {
    let all = generate_yt_video_thumbnails("v");
    let small = generate_yt_video_thumbnails_within_max_size("v", 480);
    assert_eq!(small.len(), 12);
    assert!(small.iter().all(|t| t.width <= 480));
    let fitting: Vec<&String> = all.iter().filter(|t| t.width <= 480).map(|t| &t.url).collect();
    let got: Vec<&String> = small.iter().map(|t| &t.url).collect();
    assert_eq!(fitting, got);
    assert_eq!(generate_yt_video_thumbnails_within_max_size("v", 100).len(), 0);
}

#[test]
fn subvector_takes_a_range() {
    let v = vec![1, 2, 3, 4, 5];
    assert_eq!(v.subvector(1, 4).ok().unwrap(), vec![2, 3, 4]);
    assert_eq!(v.subvector(2, 2).ok().unwrap(), Vec::<i32>::new());
    assert_eq!(v.subvector(6, 6).err().unwrap().message, "Invalid start index");
    assert_eq!(v.subvector(1, 6).err().unwrap().message, "Invalid end index");
    assert_eq!(v.subvector(3, 2).err().unwrap().message, "Start must come before end");
}

#[test]
fn utf16_substring_decodes_or_fails() {
    let units: Vec<u16> = "a😀b".encode_utf16().collect();
    assert_eq!(units.subvector_as_str(1, 3).ok().unwrap(), "😀");
    let half = units.subvector_as_str(1, 2).err().unwrap();
    assert_eq!(half.message, "Error converting utf-16 vector to string");
    assert!(half.inner_utf_16_error.is_some());
    let out = units.subvector_as_str(2, 9).err().unwrap();
    assert_eq!(out.message, "Error taking subvector of utf-16 vector");
    assert!(out.inner_sub_string_error.is_some());
}

#[test]
fn day_month_date_is_read() {
    let option = ParseDateOption::ParseDayMonth(String::from("2023"), String::from("15 April"));
    let r = parse_date_to_published("en", &option, &month_map());
    assert_eq!(r.ok().unwrap(), 1681516800);
}

#[test]
fn full_date_is_read_with_english_fallback() {
    let option = ParseDateOption::ParseFullDate(String::from("6 August 2022"));
    let r = parse_date_to_published("de", &option, &month_map());
    assert_eq!(r.ok().unwrap(), 1659744000);
}

#[test]
fn date_errors() {
    let no_year = ParseDateOption::ParseFullDate(String::from("6 August"));
    assert!(matches!(
        parse_date_to_published("en", &no_year, &month_map()),
        Err(ParseDateError::NoYearFoundInDate)
    ));
    let option = ParseDateOption::ParseDayMonth(String::from("2023"), String::from("15 April"));
    assert!(matches!(
        parse_date_to_published("en", &option, &j("{}")),
        Err(ParseDateError::LanguageNotFound)
    ));
    let bad_year = ParseDateOption::ParseDayMonth(String::from("19x9"), String::from("15 April"));
    assert!(matches!(
        parse_date_to_published("en", &bad_year, &month_map()),
        Err(ParseDateError::ErrorConvertingYearToNum)
    ));
    let bad_day = ParseDateOption::ParseDayMonth(String::from("2023"), String::from("31 February"));
    assert!(matches!(
        parse_date_to_published("en", &bad_day, &month_map()),
        Err(ParseDateError::ErrorParsingFinalDateString(_))
    ));
}

#[test]
fn utf16_substring_errors_carry_their_cause() {
    let v: Vec<u16> = "a😀b".encode_utf16().collect();
    assert_eq!(v.subvector_as_str(1, 3).ok().unwrap(), "😀");
    let e = v.subvector_as_str(0, 2).err().unwrap();
    assert_eq!(e.message, "Error converting utf-16 vector to string");
    assert!(e.inner_utf_16_error.is_some());
    assert!(e.inner_sub_string_error.is_none());
    let range = v.subvector_as_str(3, 9).err().unwrap();
    assert_eq!(range.inner_sub_string_error.unwrap().message, "Invalid end index");
    assert!(range.inner_utf_16_error.is_none());
}

#[test]
fn narrower_thumbnails_are_a_suffix() {
    let wide = generate_yt_video_thumbnails_within_max_size("v", 640);
    let narrow = generate_yt_video_thumbnails_within_max_size("v", 320);
    assert_eq!(wide.len(), 16);
    assert_eq!(narrow.len(), 8);
    for (a, b) in narrow.iter().zip(wide[wide.len() - narrow.len()..].iter()) {
        assert_eq!(a.quality, b.quality);
        assert_eq!(a.url, b.url);
        assert_eq!(a.width, b.width);
    }
    assert_eq!(generate_yt_video_thumbnails_within_max_size("v", 5000).len(), 20);
}

#[test]
fn utf16_slices_join() {
    let s = "a😀bc";
    let v: Vec<u16> = s.encode_utf16().collect();
    assert_eq!(v.subvector_as_str(0, v.len()).ok().unwrap(), s);
    let left = v.subvector_as_str(0, 3).ok().unwrap();
    let right = v.subvector_as_str(3, 5).ok().unwrap();
    assert_eq!(left + &right, v.subvector_as_str(0, 5).ok().unwrap());
}

#[test]
fn published_dates_are_midnights() {
    let option = ParseDateOption::ParseFullDate(String::from("6 August 2022"));
    let t = parse_date_to_published("en", &option, &month_map()).ok().unwrap();
    assert_eq!(t % 86400, 0);
}
