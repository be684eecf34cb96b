//! What a video page holds: the `player` and `next` responses and the API
//! configuration, written into its scripts.
use vstd::prelude::*;
use crate::bindings::{capture, capture_group};
use crate::text::{cat, cat3};

verus! {

/// Why a video page could not be scraped.
pub struct ScrapeVideoError {
    pub message: String,
    pub inner_reqwest_error: Option<reqwest::Error>,
}

impl ScrapeVideoError {
    pub fn new(message: &str) -> (r: ScrapeVideoError)
        ensures
            r.message@ == message@,
            r.inner_reqwest_error is None,
    {
        ScrapeVideoError { message: message.to_string(), inner_reqwest_error: None }
    }

    pub fn new_reqwest(message: &str, inner_reqwest_error: reqwest::Error) -> (r: ScrapeVideoError)
        ensures
            r.message@ == message@,
            r.inner_reqwest_error == Some(inner_reqwest_error),
    {
        ScrapeVideoError { message: message.to_string(), inner_reqwest_error: Some(inner_reqwest_error) }
    }
}

/// `{base_url}{id}&hl={lang}`, in English where no language is given.
pub open spec fn page_url(base_url: Seq<char>, id: Seq<char>, lang: Option<Seq<char>>) -> Seq<char> {
    base_url + id + "&hl="@ + match lang {
        Some(l) => l,
        None => "en"@,
    }
}

pub fn create_page_url(base_url: &str, id: &str, lang: Option<&str>) -> (r: String)
    ensures
        r@ == page_url(base_url@, id@, match lang {
            Some(l) => Some(l@),
            None => None,
        }),
{
    let head = cat3(base_url, id, "&hl=");
    match lang {
        Some(l) => cat(head.as_str(), l),
        None => cat(head.as_str(), "en"),
    }
}

pub open spec fn json_not_found(e: ScrapeVideoError) -> bool {
    e.message@ == "Unable to find JSON"@ && e.inner_reqwest_error is None
}

/// Group `group_index` of the first match of `pattern` in a page body.
pub fn find_json(body: &str, pattern: &str, group_index: usize) -> (r: Result<String, ScrapeVideoError>)
    ensures
        match r {
            Ok(s) => capture_group(pattern@, body@, group_index as int) == Some(s@),
            Err(e) => capture_group(pattern@, body@, group_index as int) is None && json_not_found(e),
        },
{
    match capture(pattern, body, group_index) {
        Some(json) => Ok(json),
        None => Err(ScrapeVideoError::new("Unable to find JSON")),
    }
}

/// The three texts of a video page.
pub struct VideoPageResponse {
    pub next: String,
    pub player: String,
    pub config: String,
}

pub open spec fn player_pattern() -> Seq<char> {
    r"\bytInitialPlayerResponse\s*=\s*(\{.*?);</script"@
}

pub open spec fn next_pattern() -> Seq<char> {
    r#"\bytInitialData("\])?\s*=\s*(\{.*?);</script"#@
}

pub open spec fn config_pattern() -> Seq<char> {
    r#"\(function\(\) \{window\.ytplayer=\{\};[\r\n]*ytcfg\.set\((\{.*?\})\); window\.ytcfg\.obfuscatedData_ ="#@
}

/// One error for each of the player response, the next response and the
/// configuration (in that order) that the page body lacks.
pub open spec fn missing_count(body: Seq<char>) -> int {
    (if capture_group(player_pattern(), body, 1) is None { 1int } else { 0int })
        + (if capture_group(next_pattern(), body, 2) is None { 1int } else { 0int })
        + (if capture_group(config_pattern(), body, 1) is None { 1int } else { 0int })
}

/// The player response, the next response and the API configuration of a
/// video page body; where any is missing, one error for each that is.
pub fn video_page_response(page_body: &str) -> (r: Result<VideoPageResponse, Vec<ScrapeVideoError>>)
    ensures
        match r {
            Ok(page) => capture_group(player_pattern(), page_body@, 1) == Some(page.player@)
                && capture_group(next_pattern(), page_body@, 2) == Some(page.next@)
                && capture_group(config_pattern(), page_body@, 1) == Some(page.config@),
            Err(errors) => missing_count(page_body@) > 0 && errors@.len() == missing_count(page_body@)
                && forall|i: int| 0 <= i < errors@.len() ==> json_not_found(#[trigger] errors@[i]),
        },
{
    let mut errors: Vec<ScrapeVideoError> = Vec::new();
    let player = match find_json(page_body, r"\bytInitialPlayerResponse\s*=\s*(\{.*?);</script", 1) {
        Ok(json) => json,
        Err(e) => {
            errors.push(e);
            String::new()
        },
    };
    let next = match find_json(page_body, r#"\bytInitialData("\])?\s*=\s*(\{.*?);</script"#, 2) {
        Ok(json) => json,
        Err(e) => {
            errors.push(e);
            String::new()
        },
    };
    let config = match find_json(
        page_body,
        r#"\(function\(\) \{window\.ytplayer=\{\};[\r\n]*ytcfg\.set\((\{.*?\})\); window\.ytcfg\.obfuscatedData_ ="#,
        1,
    ) {
        Ok(json) => json,
        Err(e) => {
            errors.push(e);
            String::new()
        },
    };
    if errors.len() == 0 {
        Ok(VideoPageResponse { next, player, config })
    } else {
        Err(errors)
    }
}

} // verus!
