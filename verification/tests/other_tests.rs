use yayti::json::{JsonNumber, JsonValue, ObjectBuilder};
use yayti::parsers::web::playlist::{parse, parse_playlist_video_renderer};
use yayti::parsers::web::get_languages;
use yayti::parsers::android::video as android;
use yayti::parsers::tv::video as tv;
use yayti::parsers::ClientContext;
use yayti::extractors::scrape::video::{create_page_url, find_json, video_page_response};
use yayti::extractors::innertube::{
    browse_request_json, continuation_request_json, endpoint_url, map_to_json_part,
    next_request_json, playlist_browse_id, request_body,
};
use yayti::extractors::ciphers::{iframe_api_url, player_js_id, player_response_url};

fn conv(v: serde_json::Value) -> JsonValue {
    match v {
        serde_json::Value::Null => JsonValue::Null,
        serde_json::Value::Bool(b) => JsonValue::Bool(b),
        serde_json::Value::Number(n) => {
            if let Some(u) = n.as_u64() {
                JsonValue::Number(JsonNumber::PosInt(u))
            } else if let Some(i) = n.as_i64() {
                JsonValue::Number(JsonNumber::NegInt(i))
            } else {
                JsonValue::Number(JsonNumber::Float(n.to_string()))
            }
        }
        serde_json::Value::String(s) => JsonValue::String(s),
        serde_json::Value::Array(a) => JsonValue::Array(a.into_iter().map(conv).collect()),
        serde_json::Value::Object(m) => {
            JsonValue::Object(m.into_iter().map(|(k, v)| (k, conv(v))).collect())
        }
    }
}

fn back(v: &JsonValue) -> serde_json::Value {
    match v {
        JsonValue::Null => serde_json::Value::Null,
        JsonValue::Bool(b) => serde_json::Value::Bool(*b),
        JsonValue::Number(JsonNumber::PosInt(u)) => serde_json::Value::from(*u),
        JsonValue::Number(JsonNumber::NegInt(i)) => serde_json::Value::from(*i),
        JsonValue::Number(JsonNumber::Float(t)) => serde_json::from_str(t).unwrap(),
        JsonValue::String(s) => serde_json::Value::String(s.clone()),
        JsonValue::Array(a) => serde_json::Value::Array(a.iter().map(back).collect()),
        JsonValue::Object(m) => {
            let mut out = serde_json::Map::new();
            for (k, v) in m {
                out.insert(k.clone(), back(v));
            }
            serde_json::Value::Object(out)
        }
    }
}

fn j(text: &str) -> JsonValue {
    conv(serde_json::from_str(text).unwrap())
}

fn jv(text: &str) -> serde_json::Value {
    serde_json::from_str(text).unwrap()
}

const BROWSE: &str = r#"{
  "header": {"playlistHeaderRenderer": {
    "title": {"simpleText": "My list"},
    "playlistId": "PL1",
    "ownerText": {"runs": [{"text": "Owner", "navigationEndpoint": {"browseEndpoint": {"browseId": "UC9", "canonicalBaseUrl": "/@owner"}}}]},
    "stats": [{"runs": [{"text": "2"}, {"text": " videos"}]}],
    "viewCountText": {"simpleText": "1,001 views"}
  }},
  "microformat": {"microformatDataRenderer": {"description": "About", "unlisted": false}},
  "sidebar": {"playlistSidebarRenderer": {"items": [
    {"playlistSidebarPrimaryInfoRenderer": {"stats": [{}, {}, {"runs": [{"text": "Updated "}, {"text": "6 August 2022"}]}]}},
    {"playlistSidebarSecondaryInfoRenderer": {"videoOwner": {"videoOwnerRenderer": {"thumbnail": {"thumbnails": [{"url": "o.jpg", "width": 88, "height": 88}, {"url": "partial.jpg"}]}}}}}
  ]}},
  "contents": {"twoColumnBrowseResultsRenderer": {"tabs": [{"tabRenderer": {"content": {"sectionListRenderer": {"contents": [{"itemSectionRenderer": {"contents": [{"playlistVideoListRenderer": {"contents": [
    {"playlistVideoRenderer": {"videoId": "v1", "title": {"runs": [{"text": "First "}, {"text": "video"}]}, "shortBylineText": {"runs": [{"text": "Owner", "navigationEndpoint": {"browseEndpoint": {"browseId": "UC9"}}}]}, "index": {"simpleText": "1"}, "lengthSeconds": "61", "thumbnail": {"thumbnails": [{"url": "v1.jpg", "width": 120, "height": 90}]}}},
    {"continuationItemRenderer": {}}
  ]}}]}}]}}}}]}}
}"#;

fn months() -> JsonValue {
    let names = ["January", "February", "March", "April", "May", "June", "July", "August",
        "September", "October", "November", "December"];
    let entries: Vec<String> = names
        .iter()
        .map(|m| format!(r#"["{}", "{}"]"#, m, m))
        .collect();
    j(&format!(r#"{{"en": [{}]}}"#, entries.join(",")))
}

#[test]
fn playlist_is_parsed() {
    let p = parse(&j(BROWSE), "en", &months()).ok().unwrap();
    assert_eq!(p.title, Some(String::from("My list")));
    assert_eq!(p.playlist_id, Some(String::from("PL1")));
    assert_eq!(p.author, Some(String::from("Owner")));
    assert_eq!(p.author_id, Some(String::from("UC9")));
    assert_eq!(p.author_url, Some(String::from("/@owner")));
    assert_eq!(p.video_count, Some(2));
    assert_eq!(p.view_count, Some(1001));
    assert_eq!(p.updated, Some(1659744000));
    assert_eq!(p.is_listed, Some(true));
    assert_eq!(p.author_thumbnails.as_ref().unwrap().len(), 1);
    let videos = p.videos.as_ref().unwrap();
    assert_eq!(videos.len(), 1);
    assert_eq!(videos[0].title, Some(String::from("First video")));
    assert_eq!(videos[0].length_seconds, Some(61));
    assert_eq!(back(&videos[0].into_inv()), jv(r#"{"title": "First video", "videoId": "v1", "author": "Owner", "authorId": "UC9", "authorUrl": "/channel/UC9", "videoThumbnails": [{"url": "v1.jpg", "width": 120, "height": 90}], "index": 1, "lengthSeconds": 61}"#));
    let inv = back(&p.into_inv());
    assert_eq!(inv["playlistThumbnail"], serde_json::Value::Null);
    assert_eq!(inv["description"], jv(r#""About""#));
    assert_eq!(inv["descriptionHtml"], serde_json::Value::Null);
    assert_eq!(inv["videos"].as_array().unwrap().len(), 1);
}

#[test]
fn playlist_alerts_are_errors() {
    let browse = j(r#"{"alerts": [{"alertRenderer": {"type": "ERROR", "text": {"runs": [{"text": "This playlist "}, {"text": "does not exist."}]}}}]}"#);
    let e = parse(&browse, "en", &months()).err().unwrap();
    assert_eq!(e.alerts.len(), 1);
    assert_eq!(e.alerts[0].alert_type, Some(String::from("ERROR")));
    assert_eq!(e.alerts[0].alert_text, Some(String::from("This playlist does not exist.")));
}

#[test]
fn playlist_with_empty_alerts_is_parsed() {
    let browse = j(r#"{"alerts": []}"#);
    let p = parse(&browse, "en", &months()).ok().unwrap();
    assert_eq!(p.title, None);
}

#[test]
fn playlist_id_from_tracking_and_empty_renderer() {
    let browse = j(r#"{"responseContext": {"serviceTrackingParams": [{"params": [{"value": "VLPL77"}]}]}}"#);
    let p = parse(&browse, "en", &months()).ok().unwrap();
    assert_eq!(p.playlist_id, Some(String::from("PL77")));
    assert!(p.videos.is_none());
    let v = parse_playlist_video_renderer(&JsonValue::Null);
    assert!(v.title.is_none() && v.video_id.is_none() && v.index.is_none());
}

#[test]
fn languages_are_listed() {
    let menu = j(r#"{"actions": [{"openPopupAction": {"popup": {"multiPageMenuRenderer": {"sections": [{}, {"multiPageMenuSectionRenderer": {"items": [{}, {"compactLinkRenderer": {"serviceEndpoint": {"signalServiceEndpoint": {"actions": [{"getMultiPageMenuAction": {"menu": {"multiPageMenuRenderer": {"sections": [{"multiPageMenuSectionRenderer": {"items": [
      {"compactLinkRenderer": {"title": {"simpleText": "Čeština"}, "serviceEndpoint": {"signalServiceEndpoint": {"actions": [{"selectLanguageCommand": {"hl": "cs"}}]}}}},
      {"compactLinkRenderer": {"title": {"simpleText": "Broken"}}}
    ]}}]}}}}]}}}}]}}]}}}}]}"#);
    let langs = get_languages(&menu).unwrap();
    assert_eq!(langs.len(), 1);
    assert_eq!(langs[0].language_name, "Čeština");
    assert_eq!(langs[0].language_code, "cs");
    assert!(get_languages(&j("{}")).is_none());
}

#[test]
fn android_responses() {
    let player = j(r#"{"videoDetails": {"title": "T", "shortDescription": "D", "keywords": ["k", 3], "lengthSeconds": "12", "allowRatings": false}, "playabilityStatus": {"status": "OK"}}"#);
    assert_eq!(android::get_title(&player), Some(String::from("T")));
    assert_eq!(android::get_description(&player), Some(String::from("D")));
    assert!(android::get_playability(&player));
    assert!(!android::get_playability(&j(r#"{"playabilityStatus": {"status": "ERROR"}}"#)));
    assert!(!android::get_playability(&j("{}")));
    assert_eq!(android::get_keywords(&player), Some(vec![String::from("k")]));
    assert_eq!(android::get_length_seconds(&player), Some(12));
    assert_eq!(android::get_allow_ratings(&player), Some(false));
}

#[test]
fn tv_description_links() {
    let next = j(r#"{"contents": {"singleColumnWatchNextResults": {"results": {"results": {"contents": [{"itemSectionRenderer": {"contents": [{"videoMetadataRenderer": {
      "title": {"runs": [{"text": "TV title"}]},
      "description": {"runs": [
        {"text": "See "},
        {"text": "https://www.youtube.com/c/X", "navigationEndpoint": {"urlEndpoint": {"url": "https://www.youtube.com/c/X"}}},
        {"text": " at ", "navigationEndpoint": {"watchEndpoint": {"videoId": "v9", "startTimeSeconds": 0}}},
        {"navigationEndpoint": {"watchEndpoint": {"videoId": "v8", "startTimeSeconds": 5}}}
      ]}
    }}]}}]}}}}}"#);
    assert_eq!(tv::get_title(&next), Some(String::from("TV title")));
    assert_eq!(tv::get_description(&next), Some(String::from("See https://www.youtube.com/c/X at ")));
    assert_eq!(
        tv::get_description_html(&next),
        Some(String::from("See <a href=\"https://www.youtube.com/c/X\">https://www.youtube.com/c/X</a><a href=\"https://youtu.be/v9\"> at </a><a href=\"https://youtu.be/v8?t=5\">https://youtu.be/v8?t=5</a>"))
    );
}

#[test]
fn client_contexts() {
    let web = ClientContext::default_web();
    assert_eq!(web.api_version, "v1");
    assert_eq!(web.client_name, "WEB");
    assert_eq!(web.user_agent, "gzip(gfe)");
    assert_eq!(web.platform, "DESKTOP");
    let cfg = j(r#"{"INNERTUBE_API_KEY": "K", "INNERTUBE_CLIENT_NAME": "ANDROID", "INNERTUBE_CONTEXT": {"client": {"osName": "Android", "osVersion": "12"}}}"#);
    let c = ClientContext::from_json(&cfg);
    assert_eq!(c.api_key, "K");
    assert_eq!(c.client_name, "ANDROID");
    assert_eq!(c.os_name, "Android");
    assert_eq!(c.os_version, "12");
    assert_eq!(c.api_version, "v1");
    assert_eq!(c.platform, "DESKTOP");
}

#[test]
fn page_urls_and_json() {
    assert_eq!(create_page_url("https://www.youtube.com/watch?v=", "id1", None), "https://www.youtube.com/watch?v=id1&hl=en");
    assert_eq!(create_page_url("b/", "id1", Some("cs")), "b/id1&hl=cs");
    assert_eq!(find_json("a = {x};", r"= (\{.*?\});", 1).ok(), Some(String::from("{x}")));
    assert_eq!(find_json("nothing", r"= (\{.*?\});", 1).err().unwrap().message, "Unable to find JSON");
    let body = r#"<script>var ytInitialPlayerResponse = {"p":1};</script><script>var ytInitialData = {"n":2};</script><script>(function() {window.ytplayer={};
ytcfg.set({"c":3}); window.ytcfg.obfuscatedData_ = 1"#;
    let page = video_page_response(body).ok().unwrap();
    assert_eq!(page.player, r#"{"p":1}"#);
    assert_eq!(page.next, r#"{"n":2}"#);
    assert_eq!(page.config, r#"{"c":3}"#);
    let errors = video_page_response("<html></html>").err().unwrap();
    assert_eq!(errors.len(), 3);
}

#[test]
fn innertube_requests() {
    let web = ClientContext::default_web();
    assert_eq!(endpoint_url(&web, "next"), format!("https://www.youtube.com/youtubei/v1/next?key={}", web.api_key));
    assert_eq!(playlist_browse_id("PL1"), "VLPL1");
    assert_eq!(map_to_json_part(&vec![(String::from("a"), String::from("1")), (String::from("b"), String::from("\"x\""))]), ",\r\n\"a\": 1,\r\n\"b\": \"x\"");
    let next: serde_json::Value = serde_json::from_str(&next_request_json("v1")).unwrap();
    assert_eq!(next, jv(r#"{"videoId": "v1"}"#));
    let browse: serde_json::Value = serde_json::from_str(&browse_request_json("b1", ",\r\n\"params\": \"x\"")).unwrap();
    assert_eq!(browse, jv(r#"{"browseId": "b1", "params": "x"}"#));
    let cont: serde_json::Value = serde_json::from_str(&continuation_request_json("c1")).unwrap();
    assert_eq!(cont, jv(r#"{"continuation": "c1"}"#));
    let body: serde_json::Value = serde_json::from_str(&request_body(&web, Some("cs"), ",\r\n\"videoId\": \"v1\"")).unwrap();
    assert_eq!(body["context"]["client"]["hl"], jv(r#""cs""#));
    assert_eq!(body["context"]["client"]["clientName"], jv(r#""WEB""#));
    assert_eq!(body["videoId"], jv(r#""v1""#));
    let default_lang: serde_json::Value = serde_json::from_str(&request_body(&web, None, "")).unwrap();
    assert_eq!(default_lang["context"]["client"]["hl"], jv(r#""en""#));
}

#[test]
fn player_script_location() {
    assert_eq!(iframe_api_url(), "https://www.youtube.com/iframe_api");
    let api = r"var x = 'https:\/\/www.youtube.com\/s\/player\/ab12cd\/www-widgetapi.vflset\/www-widgetapi.js';window['yt_embeds";
    assert_eq!(player_js_id(api), Some(String::from("ab12cd")));
    assert_eq!(player_js_id("none"), None);
    assert_eq!(player_response_url("ab12cd"), "https://www.youtube.com/s/player/ab12cd/player_ias.vflset/en_US/base.js");
}

#[test]
fn object_builder_adds_only_missing_members() {
    let mut obj = ObjectBuilder::new();
    obj.add_missing("a", Some(JsonValue::Bool(true)));
    obj.add_missing("a", Some(JsonValue::Bool(false)));
    obj.add_missing("b", None);
    assert!(obj.contains_key("a"));
    assert!(!obj.contains_key("b"));
    assert_eq!(back(&obj.into_value()), jv(r#"{"a": true}"#));
}
