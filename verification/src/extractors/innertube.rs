//! The innertube API: the addresses and the bodies of its requests.
use vstd::prelude::*;
use crate::constants::{INNERTUBE_API_URL, WEBSITE_BASE_URL};
use crate::parsers::{ClientContext, ClientContextView};
use crate::text::{cat, decimal, int_to_string};

verus! {

/// Each member `(key, value)` as `,\r\n"key": value`, the values already
/// written as JSON.
pub open spec fn json_part(members: Seq<(Seq<char>, Seq<char>)>) -> Seq<char>
    decreases members.len(),
{
    if members.len() == 0 {
        Seq::empty()
    } else {
        json_part(members.drop_last()) + ",\r\n\""@ + members.last().0 + "\": "@ + members.last().1
    }
}

/// Writes members to be put inside a larger JSON object, after its other
/// members; each value is JSON text already.
pub fn map_to_json_part(members: &Vec<(String, String)>) -> (r: String)
    ensures
        r@ == json_part(members@.map_values(|m: (String, String)| (m.0@, m.1@))),
{
    let ghost views = members@.map_values(|m: (String, String)| (m.0@, m.1@));
    let mut out = String::new();
    let mut i: usize = 0;
    while i < members.len()
        invariant
            i <= members@.len(),
            views == members@.map_values(|m: (String, String)| (m.0@, m.1@)),
            out@ == json_part(views.take(i as int)),
        decreases members@.len() - i,
    {
        assert(views.take(i + 1).drop_last() =~= views.take(i as int));
        out.append(",\r\n\"");
        out.append(members[i].0.as_str());
        out.append("\": ");
        out.append(members[i].1.as_str());
        i = i + 1;
    }
    assert(views.take(i as int) =~= views);
    out
}

/// The options of a `player` request for the video `video_id` with the player parameters `params`.
pub open spec fn player_request_json_text(video_id: Seq<char>, params: Seq<char>) -> Seq<char> {
    "\n  {\n    \"videoId\": \""@ + video_id + "\",\n    \"params\": \""@ + params + "\",\n    \"playbackContext\": {\n      \"contentPlaybackContext\": {\n        \"vis\": 0,\n        \"splay\": false,\n        \"referer\": \"https://www.youtube.com\",\n        \"currentUrl\": \"/watch?v="@ + video_id + "\",\n        \"autonavState\": \"STATE_NONE\",\n        \"autoCaptionsDefaultOn\": false,\n        \"html5Preference\": \"HTML5_PREF_WANTS\",\n        \"lactMilliseconds\": \"-1\"\n      }\n    }\n  }\n "@
}

pub fn player_request_json(video_id: &str, params: &str) -> (r: String)
    ensures
        r@ == player_request_json_text(video_id@, params@),
{
    let mut out = "\n  {\n    \"videoId\": \"".to_string();
    out.append(video_id);
    out.append("\",\n    \"params\": \"");
    out.append(params);
    out.append("\",\n    \"playbackContext\": {\n      \"contentPlaybackContext\": {\n        \"vis\": 0,\n        \"splay\": false,\n        \"referer\": \"https://www.youtube.com\",\n        \"currentUrl\": \"/watch?v=");
    out.append(video_id);
    out.append("\",\n        \"autonavState\": \"STATE_NONE\",\n        \"autoCaptionsDefaultOn\": false,\n        \"html5Preference\": \"HTML5_PREF_WANTS\",\n        \"lactMilliseconds\": \"-1\"\n      }\n    }\n  }\n ");
    out
}

/// The options of a `player` request for the video `video_id` that names the signature timestamp of the player script.
pub open spec fn player_request_json_with_sig_timestamp_text(video_id: Seq<char>, ts: int) -> Seq<char> {
    "\n  {\n    \"videoId\": \""@ + video_id + "\",\n    \"params\": \"\",\n    \"playbackContext\": {\n      \"contentPlaybackContext\": {\n        \"vis\": 0,\n        \"splay\": false,\n        \"referer\": \"https://www.youtube.com\",\n        \"currentUrl\": \"/watch?v="@ + video_id + "\",\n        \"autonavState\": \"STATE_NONE\",\n        \"signatureTimestamp\": "@ + decimal(ts as int) + ",\n        \"autoCaptionsDefaultOn\": false,\n        \"html5Preference\": \"HTML5_PREF_WANTS\",\n        \"lactMilliseconds\": \"-1\"\n      }\n    }\n  }\n "@
}

pub fn player_request_json_with_sig_timestamp(video_id: &str, ts: i32) -> (r: String)
    ensures
        r@ == player_request_json_with_sig_timestamp_text(video_id@, ts as int),
{
    let ts_text = int_to_string(ts as i64);
    let mut out = "\n  {\n    \"videoId\": \"".to_string();
    out.append(video_id);
    out.append("\",\n    \"params\": \"\",\n    \"playbackContext\": {\n      \"contentPlaybackContext\": {\n        \"vis\": 0,\n        \"splay\": false,\n        \"referer\": \"https://www.youtube.com\",\n        \"currentUrl\": \"/watch?v=");
    out.append(video_id);
    out.append("\",\n        \"autonavState\": \"STATE_NONE\",\n        \"signatureTimestamp\": ");
    out.append(ts_text.as_str());
    out.append(",\n        \"autoCaptionsDefaultOn\": false,\n        \"html5Preference\": \"HTML5_PREF_WANTS\",\n        \"lactMilliseconds\": \"-1\"\n      }\n    }\n  }\n ");
    out
}

/// The options of a `next` request for the video `video_id`.
pub open spec fn next_request_json_text(video_id: Seq<char>) -> Seq<char> {
    "\n  {\n    \"videoId\": \""@ + video_id + "\"\n  }\n "@
}

pub fn next_request_json(video_id: &str) -> (r: String)
    ensures
        r@ == next_request_json_text(video_id@),
{
    let mut out = "\n  {\n    \"videoId\": \"".to_string();
    out.append(video_id);
    out.append("\"\n  }\n ");
    out
}

/// The options of a `browse` request for `id`, followed by the members `extra_part`.
pub open spec fn browse_request_json_text(id: Seq<char>, extra_part: Seq<char>) -> Seq<char> {
    "\n  {\n    \"browseId\": \""@ + id + "\""@ + extra_part + "\n  }\n "@
}

pub fn browse_request_json(id: &str, extra_part: &str) -> (r: String)
    ensures
        r@ == browse_request_json_text(id@, extra_part@),
{
    let mut out = "\n  {\n    \"browseId\": \"".to_string();
    out.append(id);
    out.append("\"");
    out.append(extra_part);
    out.append("\n  }\n ");
    out
}

/// The options of a request that continues a listing.
pub open spec fn continuation_request_json_text(continuation: Seq<char>) -> Seq<char> {
    "\n  {\n    \"continuation\": \""@ + continuation + "\"\n  }\n "@
}

pub fn continuation_request_json(continuation: &str) -> (r: String)
    ensures
        r@ == continuation_request_json_text(continuation@),
{
    let mut out = "\n  {\n    \"continuation\": \"".to_string();
    out.append(continuation);
    out.append("\"\n  }\n ");
    out
}

/// The body of a request as the client `c` in the language `lang`, with
/// the request's own members `extra_part` after the context.
pub open spec fn request_body_text(c: ClientContextView, lang: Seq<char>, extra_part: Seq<char>) -> Seq<char> {
    "\n  {\n    \"context\": {\n      \"client\": {\n        \"hl\": \""@ + lang + "\",\n        \"gl\": \"US\",\n        \"remoteHost\": \"\",\n        \"deviceMake\": \"\",\n        \"deviceModel\": \"\",\n        \"visitorData\": \"\",\n        \"userAgent\": \""@ + c.user_agent + "\",\n        \"clientName\": \""@ + c.client_name + "\",\n        \"clientVersion\": \""@ + c.client_version + "\",\n        \"osName\": \""@ + c.os_name + "\",\n        \"osVersion\": \""@ + c.os_version + "\",\n        \"originalUrl\": \"\",\n        \"platform\": \""@ + c.platform + "\",\n        \"clientFormFactor\": \""@ + c.form_factor + "\",\n        \"configInfo\": {\n          \"appInstallData\": \"\"\n        },\n        \"acceptHeader\": \"*/*\",\n        \"deviceExperimentId\": \"\"\n      }\n    }"@ + extra_part + "\n  }\n  "@
}

/// The body of a request as the client `context` in `lang` (English where
/// none is given).
pub fn request_body(context: &ClientContext, lang: Option<&str>, extra_part: &str) -> (r: String)
    ensures
        r@ == request_body_text(context@, match lang {
            Some(l) => l@,
            None => "en"@,
        }, extra_part@),
{
    let lang: &str = match lang {
        Some(l) => l,
        None => "en",
    };
    let mut out = "\n  {\n    \"context\": {\n      \"client\": {\n        \"hl\": \"".to_string();
    out.append(lang);
    out.append("\",\n        \"gl\": \"US\",\n        \"remoteHost\": \"\",\n        \"deviceMake\": \"\",\n        \"deviceModel\": \"\",\n        \"visitorData\": \"\",\n        \"userAgent\": \"");
    out.append(context.user_agent.as_str());
    out.append("\",\n        \"clientName\": \"");
    out.append(context.client_name.as_str());
    out.append("\",\n        \"clientVersion\": \"");
    out.append(context.client_version.as_str());
    out.append("\",\n        \"osName\": \"");
    out.append(context.os_name.as_str());
    out.append("\",\n        \"osVersion\": \"");
    out.append(context.os_version.as_str());
    out.append("\",\n        \"originalUrl\": \"\",\n        \"platform\": \"");
    out.append(context.platform.as_str());
    out.append("\",\n        \"clientFormFactor\": \"");
    out.append(context.form_factor.as_str());
    out.append("\",\n        \"configInfo\": {\n          \"appInstallData\": \"\"\n        },\n        \"acceptHeader\": \"*/*\",\n        \"deviceExperimentId\": \"\"\n      }\n    }");
    out.append(extra_part);
    out.append("\n  }\n  ");
    out
}

/// The address of the API endpoint `endpoint` for the client `c`.
pub open spec fn endpoint_url_text(c: ClientContextView, endpoint: Seq<char>) -> Seq<char> {
    WEBSITE_BASE_URL@ + INNERTUBE_API_URL@ + c.api_version + "/"@ + endpoint + "?key="@ + c.api_key
}

pub fn endpoint_url(context: &ClientContext, endpoint: &str) -> (r: String)
    ensures
        r@ == endpoint_url_text(context@, endpoint@),
{
    let mut out = WEBSITE_BASE_URL.to_string();
    out.append(INNERTUBE_API_URL);
    out.append(context.api_version.as_str());
    out.append("/");
    out.append(endpoint);
    out.append("?key=");
    out.append(context.api_key.as_str());
    out
}

/// The browse id of a playlist.
pub fn playlist_browse_id(playlist_id: &str) -> (r: String)
    ensures
        r@ == "VL"@ + playlist_id@,
{
    cat("VL", playlist_id)
}

} // verus!
