use yayti::text::{int_to_string, parse_i32, parse_i64, replace, split, str_contains, usize_to_string};
use yayti::bindings::{capture, joined_matches};
use yayti::helpers::UTF16Substring;
use yayti::month_names::month_name_in;
use yayti::parsers::ciphers::{extract_sig_js_code, get_s_sp_n_url, is_cipher_url_decodable};
use yayti::parsers::web::video::add_host_param_to_url;

#[test]
fn replace_matches_std() {
    assert_eq!(replace("a-b-c", "-", "+"), "a+b+c");
    assert_eq!(replace("aaa", "aa", "b"), "ba");
    assert_eq!(replace("abc", "", "-"), "-a-b-c-");
    assert_eq!(replace("abc", "x", "y"), "abc");
}

#[test]
fn split_matches_std() {
    assert_eq!(split("a,b,,c", ","), vec!["a", "b", "", "c"]);
    assert_eq!(split("abc", ","), vec!["abc"]);
    assert_eq!(split("&q=x&v=y", "&q="), vec!["", "x&v=y"]);
}

#[test]
fn integers_parse_as_from_str() {
    assert_eq!(parse_i32("123"), Some(123));
    assert_eq!(parse_i32("-7"), Some(-7));
    assert_eq!(parse_i32("+7"), Some(7));
    assert_eq!(parse_i32("2147483647"), Some(i32::MAX));
    assert_eq!(parse_i32("2147483648"), None);
    assert_eq!(parse_i32("-2147483648"), Some(i32::MIN));
    assert_eq!(parse_i32(""), None);
    assert_eq!(parse_i32("1 2"), None);
    assert_eq!(parse_i64("9223372036854775807"), Some(i64::MAX));
}

#[test]
fn integers_print_as_display() {
    assert_eq!(int_to_string(0), "0");
    assert_eq!(int_to_string(-42), "-42");
    assert_eq!(int_to_string(i64::MIN), i64::MIN.to_string());
    assert_eq!(usize_to_string(12), "12");
}

#[test]
fn utf16_units_of_a_description() {
    let units: Vec<u16> = "héllo 🎉 wörld".encode_utf16().collect();
    assert_eq!(units.subvector_as_str(0, 5).ok().unwrap(), "héllo");
    assert_eq!(units.subvector_as_str(6, 8).ok().unwrap(), "🎉");
    assert!(units.subvector_as_str(6, 7).is_err());
}

#[test]
fn contains_and_trim() {
    assert!(str_contains("hello", "ell"));
    assert!(str_contains("hello", ""));
    assert!(!str_contains("hello", "z"));
    let player = r#"var XY={ab:function(a,b){a.splice(0,b)}};
foo=function(a){a=a.split(""); XY.ab(a,2);return a.join("")};"#;
    let code = extract_sig_js_code(player).ok().unwrap();
    assert!(code.starts_with(r#"function decipher_sig(a) { a = a.split(""); let XY={"#));
}

#[test]
fn regex_wrappers() {
    assert_eq!(capture(r"(\d+)-(\d+)", "x 12-34 y", 2), Some(String::from("34")));
    assert_eq!(capture(r"(\d+)", "none", 1), None);
    assert_eq!(joined_matches("[0-9]+", "1,234,567 views"), "1234567");
    assert_eq!(month_name_in("Jan 25th", 0), "Jan ");
}

#[test]
fn url_coding() {
    let (_, _, _, url) = get_s_sp_n_url("s=x&sp=y&url=https%3A%2F%2Fa.b%2Fc%3Fd%3De");
    assert_eq!(url, Some(String::from("https://a.b/c?d=e")));
    assert!(!is_cipher_url_decodable("s=x&url=%FF"));
    assert_eq!(add_host_param_to_url("https://r1---sn.googlevideo.com/v?x=1"), "https://r1---sn.googlevideo.com/v?x=1&host=https%3A%2F%2Fr1---sn.googlevideo.com");
}

