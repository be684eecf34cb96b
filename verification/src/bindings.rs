//! Calls into other crates: regular expressions, percent-encoding, dates
//! and character substrings.
use vstd::prelude::*;
use regex::Regex;
use substring::Substring;
use vstd::string::StringSliceAdditionalSpecFns;
use vstd::utf8::{decode_utf8, encode_utf8, valid_utf8};

verus! {

// ---------------------------------------------------------------------------
// regex
// ---------------------------------------------------------------------------

/// What `Regex::captures` finds for `pattern` in `text`: the groups of the
/// leftmost match (`None` for a group that took no part), or `None` when
/// nothing matches or the pattern does not compile.
pub uninterp spec fn regex_captures(pattern: Seq<char>, text: Seq<char>) -> Option<
    Seq<Option<Seq<char>>>,
>;

/// What `Regex::find_iter` finds for `pattern` in `text`: the successive
/// non-overlapping matches (none when the pattern does not compile).
pub uninterp spec fn regex_find_all(pattern: Seq<char>, text: Seq<char>) -> Seq<Seq<char>>;

/// What `Regex::replace` gives: `text` with the leftmost match of `pattern`
/// replaced by `rep`, the group references (`$1`, `$name`) in `rep` expanded
/// (`text` itself when the pattern does not compile).
pub uninterp spec fn regex_replace_first(pattern: Seq<char>, text: Seq<char>, rep: Seq<char>) -> Seq<char>;

/// `Regex::new(pattern)` and `captures(text)`, each group copied into a string.
/// The contract ties the result to the pattern and the text through
/// `regex_captures` and says nothing of how matching works.
#[verifier::external_body]
pub(crate) fn captures(pattern: &str, text: &str) -> (r: Option<Vec<Option<String>>>)
    ensures
        r.deep_view() == regex_captures(pattern@, text@),
{
    let re = match Regex::new(pattern) {
        Ok(re) => re,
        Err(_) => return None,
    };
    let caps = re.captures(text)?;
    let mut out = Vec::new();
    for m in caps.iter() {
        out.push(match m {
            Some(m) => Some(m.as_str().to_string()),
            None => None,
        });
    }
    Some(out)
}

/// `Regex::new(pattern)` and `find_iter(text)`, each match copied into a string.
/// The contract ties the result to the pattern and the text through
/// `regex_find_all` and says nothing of how matching works.
#[verifier::external_body]
pub(crate) fn find_all(pattern: &str, text: &str) -> (r: Vec<String>)
    ensures
        r.deep_view() == regex_find_all(pattern@, text@),
{
    let mut out = Vec::new();
    if let Ok(re) = Regex::new(pattern) {
        for m in re.find_iter(text) {
            out.push(m.as_str().to_string());
        }
    }
    out
}

/// `Regex::new(pattern)` and `replace(text, rep)`. The contract ties the result
/// to the three arguments through `regex_replace_first`.
#[verifier::external_body]
pub(crate) fn replace_first(pattern: &str, text: &str, rep: &str) -> (r: String)
    ensures
        r@ == regex_replace_first(pattern@, text@, rep@),
{
    match Regex::new(pattern) {
        Ok(re) => re.replace(text, rep).into_owned(),
        Err(_) => text.to_string(),
    }
}

/// Group `g` of the leftmost match of `pattern` in `text`, when there is a
/// match and the group took part in it.
pub open spec fn capture_group(pattern: Seq<char>, text: Seq<char>, g: int) -> Option<Seq<char>> {
    match regex_captures(pattern, text) {
        Some(groups) => if 0 <= g < groups.len() {
            groups[g]
        } else {
            None
        },
        None => None,
    }
}

/// Group `g` of the leftmost match of `pattern` in `text`.
pub fn capture(pattern: &str, text: &str, g: usize) -> (r: Option<String>)
    ensures
        r.deep_view() == capture_group(pattern@, text@, g as int),
{
    match captures(pattern, text) {
        Some(mut groups) => {
            if g < groups.len() {
                let ghost before = groups.deep_view();
                let x = groups.swap_remove(g);
                assert(x.deep_view() == before[g as int]);
                x
            } else {
                None
            }
        },
        None => None,
    }
}

/// The matches of `pattern` in `text`, one after another.
pub open spec fn concat_all(parts: Seq<Seq<char>>) -> Seq<char>
    decreases parts.len(),
{
    if parts.len() == 0 {
        Seq::empty()
    } else {
        concat_all(parts.drop_last()) + parts.last()
    }
}

/// The matches of `pattern` in `text` joined together.
pub fn joined_matches(pattern: &str, text: &str) -> (r: String)
    ensures
        r@ == concat_all(regex_find_all(pattern@, text@)),
{
    let parts = find_all(pattern, text);
    let mut out = String::new();
    let mut i: usize = 0;
    while i < parts.len()
        invariant
            i <= parts@.len(),
            parts.deep_view() == regex_find_all(pattern@, text@),
            out@ == concat_all(parts.deep_view().take(i as int)),
        decreases parts@.len() - i,
    {
        assert(parts.deep_view().take(i + 1).drop_last() =~= parts.deep_view().take(i as int));
        out.append(parts[i].as_str());
        i = i + 1;
    }
    assert(parts.deep_view().take(i as int) =~= parts.deep_view());
    out
}

// ---------------------------------------------------------------------------
// urlencoding
// ---------------------------------------------------------------------------

pub open spec fn is_hex_digit(b: u8) -> bool {
    (48 <= b <= 57) || (65 <= b <= 70) || (97 <= b <= 102)
}

pub open spec fn hex_value(b: u8) -> int {
    if b <= 57 {
        b - 48
    } else if b <= 70 {
        b - 55
    } else {
        b - 87
    }
}

/// The bytes `b` with each `%` followed by two hexadecimal digits replaced by
/// the byte they write; any other byte, a lone `%` among them, stays.
pub open spec fn percent_decode_bytes(b: Seq<u8>) -> Seq<u8>
    decreases b.len(),
{
    if b.len() == 0 {
        Seq::empty()
    } else if b[0] == 37 && b.len() >= 3 && is_hex_digit(b[1]) && is_hex_digit(b[2]) {
        seq![(hex_value(b[1]) * 16 + hex_value(b[2])) as u8] + percent_decode_bytes(b.skip(3))
    } else {
        seq![b[0]] + percent_decode_bytes(b.drop_first())
    }
}

/// What `urlencoding::decode` gives for `s`: the text whose UTF-8 bytes are
/// those of `s` percent-decoded, or `None` when those bytes are not UTF-8.
pub open spec fn percent_decoded(s: Seq<char>) -> Option<Seq<char>> {
    let bytes = percent_decode_bytes(encode_utf8(s));
    if valid_utf8(bytes) {
        Some(decode_utf8(bytes))
    } else {
        None
    }
}

/// `urlencoding::decode` (`decode_binary` on the bytes, then
/// `String::from_utf8`), stated by `percent_decoded`.
#[verifier::external_body]
pub(crate) fn url_decode(s: &str) -> (r: Option<String>)
    ensures
        r.deep_view() == percent_decoded(s@),
{
    match urlencoding::decode(s) {
        Ok(d) => Some(d.into_owned()),
        Err(_) => None,
    }
}

pub open spec fn is_unreserved(b: u8) -> bool {
    (48 <= b <= 57) || (65 <= b <= 90) || (97 <= b <= 122) || b == 45 || b == 46 || b == 95
        || b == 126
}

pub open spec fn hex_digit(d: int) -> char {
    if d < 10 {
        (48 + d) as char
    } else {
        (65 - 10 + d) as char
    }
}

/// Percent-encoding of bytes: alphanumerics and `-`, `.`, `_`, `~` stay, any
/// other byte becomes `%` and two upper-case hexadecimal digits.
pub open spec fn percent_encode_bytes(bytes: Seq<u8>) -> Seq<char>
    decreases bytes.len(),
{
    if bytes.len() == 0 {
        Seq::empty()
    } else {
        let b = bytes[0];
        let head = if is_unreserved(b) {
            seq![b as char]
        } else {
            seq!['%', hex_digit(b as int / 16), hex_digit(b as int % 16)]
        };
        head + percent_encode_bytes(bytes.drop_first())
    }
}

/// `urlencoding::encode`: the UTF-8 bytes of `s`, percent-encoded as the
/// crate's source does it (`encode_into` and `to_hex_digit`).
#[verifier::external_body]
pub(crate) fn url_encode(s: &str) -> (r: String)
    ensures
        r@ == percent_encode_bytes(s.spec_bytes()),
{
    urlencoding::encode(s).into_owned()
}

// ---------------------------------------------------------------------------
// chrono
// ---------------------------------------------------------------------------

#[verifier::external_type_specification]
#[verifier::external_body]
pub struct ExChronoParseError(chrono::format::ParseError);

/// The error of `reqwest`, carried in `ScrapeVideoError`.
#[verifier::external_type_specification]
#[verifier::external_body]
pub struct ExReqwestError(reqwest::Error);

/// The error of `serde_json`, carried in `ParseDateError`.
#[verifier::external_type_specification]
#[verifier::external_body]
pub struct ExSerdeJsonError(serde_json::Error);

/// What `NaiveDate::parse_from_str(text, fmt)` at midnight gives as a Unix
/// timestamp in seconds, or `None` when `text` does not parse as a date in `fmt`.
pub uninterp spec fn date_timestamp(text: Seq<char>, fmt: Seq<char>) -> Option<i64>;

/// `NaiveDate::parse_from_str` followed by the timestamp of that day's
/// midnight in UTC. The contract ties the result to both arguments through
/// `date_timestamp`, and says that a midnight is a whole number of days from
/// the epoch; the error is chrono's own.
#[verifier::external_body]
pub(crate) fn parse_date_timestamp(text: &str, fmt: &str) -> (r: Result<i64, chrono::format::ParseError>)
    ensures
        r matches Ok(t) ==> date_timestamp(text@, fmt@) == Some(t),
        r matches Ok(t) ==> t % 86400 == 0,
        r is Err ==> date_timestamp(text@, fmt@) is None,
{
    match chrono::NaiveDate::parse_from_str(text, fmt) {
        Ok(date) => Ok(date.and_time(chrono::NaiveTime::default()).and_utc().timestamp()),
        Err(e) => Err(e),
    }
}

// ---------------------------------------------------------------------------
// substring
// ---------------------------------------------------------------------------

pub open spec fn clamp(i: int, n: int) -> int {
    if i < n {
        i
    } else {
        n
    }
}

/// `Substring::substring`: the characters from index `start` up to `end`,
/// both clamped to the length, or nothing when `end <= start`. The crate's
/// source computes exactly this with `char_indices().nth`.
#[verifier::external_body]
pub(crate) fn substring(s: &str, start: usize, end: usize) -> (r: String)
    ensures
        r@ == if end <= start {
            Seq::empty()
        } else {
            s@.subrange(clamp(start as int, s@.len() as int), clamp(end as int, s@.len() as int))
        },
{
    s.substring(start, end).to_string()
}

} // verus!
