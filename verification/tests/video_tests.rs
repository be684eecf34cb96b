use yayti::json::{JsonNumber, JsonValue};
use yayti::parsers::web::video::{
    add_host_param_to_url, fmt_inv, fmt_inv_with_existing_map, get_author, get_author_id,
    get_available_countries, get_captions, get_chapters, get_comment_continuations,
    get_date_parts, get_date_text, get_description, get_description_html, get_keywords, get_legacy_formats,
    get_adaptive_formats, get_length_seconds, get_like_count, get_music_tracks, get_publish_date,
    get_published, get_recommended, get_sub_count_text, get_title, get_video_id, get_view_count,
    is_listed, is_live_now, length_from_digits, try_fmt_inv, try_get_description_html,
    try_get_published, apply_deciphered_urls, batch_decipher_script, with_deciphered_legacy,
    try_fmt_inv_and_decipher, try_get_recommended, decipher_scripts_for, fmt_inv_and_decipher, try_length_from_digits,
};

fn conv(v: serde_json::Value) -> JsonValue {
    match v {
        serde_json::Value::Null => JsonValue::Null,
        serde_json::Value::Bool(b) => JsonValue::Bool(b),
        serde_json::Value::Number(n) => {
            if let Some(u) = n.as_u64() {
                JsonValue::Number(JsonNumber::PosInt(u))
            } else if let Some(i) = n.as_i64() {
                JsonValue::Number(JsonNumber::NegInt(i))
            } else {
                JsonValue::Number(JsonNumber::Float(n.to_string()))
            }
        }
        serde_json::Value::String(s) => JsonValue::String(s),
        serde_json::Value::Array(a) => JsonValue::Array(a.into_iter().map(conv).collect()),
        serde_json::Value::Object(m) => {
            JsonValue::Object(m.into_iter().map(|(k, v)| (k, conv(v))).collect())
        }
    }
}

fn back(v: &JsonValue) -> serde_json::Value {
    match v {
        JsonValue::Null => serde_json::Value::Null,
        JsonValue::Bool(b) => serde_json::Value::Bool(*b),
        JsonValue::Number(JsonNumber::PosInt(u)) => serde_json::Value::from(*u),
        JsonValue::Number(JsonNumber::NegInt(i)) => serde_json::Value::from(*i),
        JsonValue::Number(JsonNumber::Float(t)) => serde_json::from_str(t).unwrap(),
        JsonValue::String(s) => serde_json::Value::String(s.clone()),
        JsonValue::Array(a) => serde_json::Value::Array(a.iter().map(back).collect()),
        JsonValue::Object(m) => {
            let mut out = serde_json::Map::new();
            for (k, v) in m {
                out.insert(k.clone(), back(v));
            }
            serde_json::Value::Object(out)
        }
    }
}

fn j(text: &str) -> JsonValue {
    conv(serde_json::from_str(text).unwrap())
}

fn jv(text: &str) -> serde_json::Value {
    serde_json::from_str(text).unwrap()
}

fn entries(v: Vec<(String, JsonValue)>) -> serde_json::Value {
    back(&JsonValue::Object(v))
}

const NEXT: &str = r#"{
  "currentVideoEndpoint": {"watchEndpoint": {"videoId": "vid123"}},
  "contents": {"twoColumnWatchNextResults": {
    "results": {"results": {"contents": [
      {"videoPrimaryInfoRenderer": {
        "title": {"runs": [{"text": "A title"}]},
        "viewCount": {"videoViewCountRenderer": {"viewCount": {"simpleText": "1,234 views"}, "isLive": false}},
        "dateText": {"simpleText": "15 April 2023"},
        "relativeDateText": {"simpleText": "2 days ago"},
        "videoActions": {"menuRenderer": {"topLevelButtons": [{"segmentedLikeDislikeButtonRenderer": {"likeButton": {"toggleButtonRenderer": {"defaultText": {"accessibility": {"accessibilityData": {"label": "56 likes"}}}}}}}]}}
      }},
      {"videoSecondaryInfoRenderer": {
        "attributedDescription": {
          "content": "A LINK B VID C",
          "commandRuns": [
            {"startIndex": 2, "length": 4, "onTap": {"innertubeCommand": {"urlEndpoint": {"url": "https://www.youtube.com/redirect?event=x&q=https%3A%2F%2Fexample.com%2F&v=abc"}}}},
            {"startIndex": 9, "length": 3, "onTap": {"innertubeCommand": {"watchEndpoint": {"videoId": "abc", "startTimeSeconds": 30}}}}
          ]
        },
        "owner": {"videoOwnerRenderer": {
          "title": {"runs": [{"text": "Chan", "navigationEndpoint": {"browseEndpoint": {"browseId": "UC1"}}}]},
          "thumbnail": {"thumbnails": [{"url": "t.jpg", "width": 48, "height": 48}]},
          "subscriberCountText": {"simpleText": "1.2M subscribers"}
        }}
      }}
    ]}},
    "secondaryResults": {"secondaryResults": {"results": [
      {"compactVideoRenderer": {
        "videoId": "r1",
        "title": {"simpleText": "Next one"},
        "thumbnail": {"thumbnails": [{"url": "r.jpg", "width": 168, "height": 94}]},
        "longBylineText": {"runs": [{"text": "Other", "navigationEndpoint": {"browseEndpoint": {"browseId": "UC2"}}}]},
        "publishedTimeText": {"simpleText": "1 year ago"},
        "viewCountText": {"simpleText": "12,345 views"},
        "lengthText": {"simpleText": "1:02:03"}
      }},
      {"compactRadioRenderer": {
        "playlistId": "RD1",
        "title": {"simpleText": "Mix"},
        "videoCountText": {"runs": [{"text": "50+"}]}
      }}
    ]}}
  }},
  "engagementPanels": [
    {"engagementPanelSectionListRenderer": {"header": {"engagementPanelTitleHeaderRenderer": {"menu": {"sortFilterSubMenuRenderer": {"subMenuItems": [
      {"title": "Top", "serviceEndpoint": {"continuationCommand": {"token": "tok1"}}},
      {"title": "No token"},
      {"title": "Newest", "serviceEndpoint": {"continuationCommand": {"token": "tok2"}}}
    ]}}}}}},
    {"engagementPanelSectionListRenderer": {"content": {"structuredDescriptionContentRenderer": {"items": [
      {"videoDescriptionHeaderRenderer": {"factoid": [
        {"factoidRenderer": {"value": {"simpleText": "56"}, "label": {"simpleText": "Likes"}}},
        {"factoidRenderer": {"value": {"simpleText": "1,234"}, "label": {"simpleText": "Views"}}},
        {"factoidRenderer": {"value": {"simpleText": "15 Apr"}, "label": {"simpleText": "2023"}}}
      ]}},
      {},
      {"videoDescriptionMusicSectionRenderer": {"carouselLockups": [
        {"carouselLockupRenderer": {
          "videoLockup": {"compactVideoRenderer": {"title": {"runs": [{"text": "Song"}]}, "navigationEndpoint": {"watchEndpoint": {"videoId": "s1"}}}},
          "infoRows": [
            {"infoRowRenderer": {"infoRowExpandStatusKey": "structured-description-music-section-artists-row-state-id", "defaultMetadata": {"simpleText": "Artist"}}},
            {"infoRowRenderer": {"defaultMetadata": {"simpleText": "Album"}}},
            {"infoRowRenderer": {"infoRowExpandStatusKey": "structured-description-music-section-licenses-row-state-id", "expandedMetadata": {"simpleText": "License"}}}
          ]
        }}
      ]}}
    ]}}}}
  ]
}"#;

const PLAYER: &str = r#"{
  "videoDetails": {"title": "Player title", "shortDescription": "Short", "keywords": ["a", 1, "b"],
    "lengthSeconds": "754", "allowRatings": true, "viewCount": "99", "author": "Chan", "channelId": "UC1"},
  "microformat": {"playerMicroformatRenderer": {"publishDate": "2023-04-15", "availableCountries": ["US", "CZ"], "isFamilySafe": true, "category": "Music"}},
  "streamingData": {
    "formats": [{"itag": 18, "url": "https://r1.googlevideo.com/v?x=1", "mimeType": "video/mp4; codecs=\"avc1\"", "bitrate": 500, "width": 640, "height": 360, "lastModified": "1700", "quality": "medium", "fps": 30, "qualityLabel": "360p", "projectionType": "RECTANGULAR", "audioQuality": "AUDIO_QUALITY_LOW", "approxDurationMs": "754000", "audioSampleRate": "44100", "audioChannels": 2}],
    "adaptiveFormats": [{"itag": 140, "url": "https://r2.googlevideo.com/a", "mimeType": "audio/mp4; codecs=\"mp4a\"", "bitrate": 130, "initRange": {"start": "0", "end": "631"}, "indexRange": {"start": "632", "end": "999"}, "lastModified": "1701", "contentLength": "12000", "quality": "tiny", "projectionType": "RECTANGULAR", "averageBitrate": 129, "approxDurationMs": "754000", "audioSampleRate": "44100", "audioQuality": "AUDIO_QUALITY_MEDIUM", "audioChannels": 2}]
  },
  "captions": {"playerCaptionsTracklistRenderer": {"captionTracks": [{"name": {"simpleText": "English"}, "languageCode": "en", "baseUrl": "https://x/api?a=1&ip=0.0.0.0&b=2"}]}}
}"#;

fn month_map() -> JsonValue {
    j(r#"{"en": ["Jan", "Feb", "Mar", "Apr", "May", "Jun", "Jul", "Aug", "Sep", "Oct", "Nov", "Dec"]}"#)
}

#[test]
fn basic_texts_of_next() {
    let next = j(NEXT);
    assert_eq!(get_title(&next), Some(String::from("A title")));
    assert_eq!(get_video_id(&next), Some("vid123"));
    assert_eq!(get_description(&next), Some(String::from("A LINK B VID C")));
    assert_eq!(get_author(&next), Some(String::from("Chan")));
    assert_eq!(get_author_id(&next), Some(String::from("UC1")));
    assert_eq!(get_sub_count_text(&next), Some(String::from("1.2M")));
    assert_eq!(get_view_count(&next), Some(1234));
    assert_eq!(get_like_count(&next), Some(56));
    assert_eq!(is_live_now(&next), Some(false));
    assert_eq!(is_listed(&next), None);
}

#[test]
fn player_falls_back() {
    let player = j(PLAYER);
    assert_eq!(get_title(&player), Some(String::from("Player title")));
    assert_eq!(get_description(&player), Some(String::from("Short")));
    assert_eq!(get_keywords(&player), Some(vec![String::from("a"), String::from("b")]));
    assert_eq!(get_available_countries(&player), Some(vec!["US", "CZ"]));
    assert_eq!(get_length_seconds(&player), Some(754));
    assert_eq!(get_view_count(&player), Some(99));
    assert_eq!(get_publish_date(&player), Some(1681516800));
    assert_eq!(get_title(&j("{}")), None);
}

#[test]
fn description_links_become_anchors() {
    let next = j(NEXT);
    assert_eq!(
        get_description_html(&next),
        Some(String::from("A <a href=\"https://example.com/\">LINK</a> B <a href=\"https://youtu.be/abc?t=30\">VID</a> C"))
    );
    let plain = j(r#"{"contents": {"twoColumnWatchNextResults": {"results": {"results": {"contents": [{}, {"videoSecondaryInfoRenderer": {"attributedDescription": {"content": "no links"}}}]}}}}}"#);
    assert_eq!(get_description_html(&plain), Some(String::from("no links")));
    assert_eq!(try_get_description_html(&j("{}")), Some(None));
}

#[test]
fn undecodable_redirect_is_refused() {
    let bad = j(r#"{"contents": {"twoColumnWatchNextResults": {"results": {"results": {"contents": [{}, {"videoSecondaryInfoRenderer": {"attributedDescription": {"content": "xx", "commandRuns": [{"startIndex": 0, "length": 2, "onTap": {"innertubeCommand": {"urlEndpoint": {"url": "https://www.youtube.com/redirect?&q=%FF&v=1"}}}}]}}}]}}}}}"#);
    assert_eq!(try_get_description_html(&bad), None);
}

#[test]
fn dates_of_next() {
    let next = j(NEXT);
    assert_eq!(get_date_parts(&next), Some((String::from("15 Apr"), String::from("2023"))));
    let date = yayti::month_names::date_information_of(&next).unwrap();
    assert_eq!(date.day_month, "15 Apr");
    assert_eq!(date.year, "2023");
    assert_eq!(Some(date.date_text), get_date_text(&next).or(Some(String::new())));
    assert_eq!(get_published(&next, "en", &month_map()), Some(1681516800));
    assert_eq!(try_get_published(&next, "xx", &month_map()), Some(Some(1681516800)));
    assert_eq!(try_get_published(&j("{}"), "en", &month_map()), Some(None));
}

#[test]
fn recommended_items() {
    let items = get_recommended(&j(NEXT)).unwrap();
    assert_eq!(items.len(), 2);
    assert_eq!(items[0].video_id, Some(String::from("r1")));
    assert_eq!(items[0].length_seconds, Some(3723));
    assert_eq!(items[0].view_count, Some(12345));
    assert_eq!(items[1].title, Some(String::from("Mix")));
    assert_eq!(items[1].playlist_id, Some(String::from("RD1")));
    assert_eq!(items[1].video_count, Some(String::from("50+")));
    let inv = back(&items[0].into_inv().unwrap());
    assert_eq!(inv, jv(r#"{"videoId": "r1", "title": "Next one", "videoThumbnails": [{"url": "r.jpg", "width": 168, "height": 94}], "author": "Other", "authorUrl": "/channel/UC2", "authorId": "UC2", "lengthSeconds": 3723, "viewCount": 12345}"#));
    assert!(items[1].into_inv().is_none());
}

#[test]
fn lengths_in_base_sixty() {
    assert_eq!(length_from_digits("12:34"), 754);
    assert_eq!(length_from_digits("1:02:03"), 3723);
    assert_eq!(length_from_digits("none"), 0);
    assert_eq!(length_from_digits("99999:0:0"), 359996400);
    assert_eq!(length_from_digits("1:2:3:4:5"), 13403045);
    assert_eq!(try_length_from_digits("12:34"), Some(754));
    assert_eq!(try_length_from_digits("1:2:3:4:5:6"), None);
    assert_eq!(try_length_from_digits("999999:0:0"), None);
    assert_eq!(try_length_from_digits("99999999999:1"), Some(1));
}

#[test]
fn music_and_comments() {
    let next = j(NEXT);
    let tracks = get_music_tracks(&next).unwrap();
    assert_eq!(tracks.len(), 1);
    assert_eq!(back(&tracks[0].into_inv()), jv(r#"{"song": "Song", "artist": "Artist", "album": "Album", "license": "License", "videoId": "s1"}"#));
    let conts = get_comment_continuations(&next).unwrap();
    assert_eq!(conts.len(), 2);
    assert_eq!((conts[1].title.as_str(), conts[1].token.as_str()), ("Newest", "tok2"));
    assert!(get_music_tracks(&j(r#"{"engagementPanels": []}"#)).is_none());
}

#[test]
fn formats_and_captions() {
    let player = j(PLAYER);
    let legacy = get_legacy_formats(&player).unwrap();
    assert_eq!(back(&legacy[0].into_inv()), jv(r#"{"url": "https://r1.googlevideo.com/v?x=1", "itag": "18", "type": "video/mp4; codecs=\"avc1\"", "quality": "medium", "fps": 30, "container": "mp4", "resolution": "360p", "qualityLabel": "360p", "size": "640x360"}"#));
    let adaptive = get_adaptive_formats(&player).unwrap();
    assert_eq!(back(&adaptive[0].into_inv()), jv(r#"{"url": "https://r2.googlevideo.com/a", "bitrate": "130", "init": "0-631", "index": "632-999", "itag": "140", "type": "audio/mp4; codecs=\"mp4a\"", "clen": "12000", "lmt": 1701, "projectionType": "RECTANGULAR", "container": "mp4", "audioQuality": "AUDIO_QUALITY_MEDIUM", "audioSampleRate": 44100, "audioChannels": 2, "quality": "tiny", "qualityLabel": "130"}"#));
    let captions = get_captions(&player).unwrap();
    assert_eq!(captions[0].url, "https://x/api?a=1&ip=0.0.0.0&fmt=vtt&b=2");
    assert!(get_chapters(&player).is_none());
}

#[test]
fn host_is_added() {
    assert_eq!(add_host_param_to_url("https://r1.googlevideo.com/v?x=1"), "https://r1.googlevideo.com/v?x=1&host=https%3A%2F%2Fr1.googlevideo.com");
    assert_eq!(add_host_param_to_url("https://example.com/v"), "https://example.com/v");
}

#[test]
fn deciphered_addresses_are_applied() {
    let player = j(PLAYER);
    let legacy = get_legacy_formats(&player).unwrap();
    let own = with_deciphered_legacy(&legacy[0], None);
    assert_eq!(own.url, Some(String::from("https://r1.googlevideo.com/v?x=1&host=https%3A%2F%2Fr1.googlevideo.com")));
    let adaptive = get_adaptive_formats(&player).unwrap();
    let applied = apply_deciphered_urls(&adaptive, Some(String::from("https://r3.googlevideo.com/z,https://r4.googlevideo.com/w")));
    assert_eq!(applied[0].url, Some(String::from("https://r3.googlevideo.com/z&host=https%3A%2F%2Fr3.googlevideo.com")));
    let unchanged = apply_deciphered_urls(&adaptive, None);
    assert_eq!(unchanged[0].url, adaptive[0].url);
    assert_eq!(batch_decipher_script(&vec![String::from("a;deciphered_url}"), String::from("b")]), "[(() => {a;return deciphered_url}})(),(() => {b})()]");
}

#[test]
fn invidious_object_of_the_video() {
    let mut both = j(NEXT);
    if let (JsonValue::Object(a), JsonValue::Object(b)) = (&mut both, j(PLAYER)) {
        a.extend(b);
    }
    let inv = entries(fmt_inv(&both, "en", &month_map()));
    assert_eq!(inv["title"], jv(r#""A title""#));
    assert_eq!(inv["videoId"], jv(r#""vid123""#));
    assert_eq!(inv["published"], jv("1681516800"));
    assert_eq!(inv["authorUrl"], jv(r#""/channel/UC1""#));
    assert_eq!(inv["allowedRegions"], jv(r#"["US", "CZ"]"#));
    assert_eq!(inv["lengthSeconds"], jv("754"));
    assert_eq!(inv["recommendedVideos"].as_array().unwrap().len(), 1);
    assert_eq!(inv["captions"], jv(r#"[{"label": "English", "language_code": "en", "url": "https://x/api?a=1&ip=0.0.0.0&fmt=vtt&b=2"}]"#));
    let kept = fmt_inv_with_existing_map(&both, "en", &month_map(), vec![(String::from("title"), JsonValue::String(String::from("Mine")))]);
    assert_eq!(kept[0].0, "title");
    assert_eq!(entries(kept)["title"], jv(r#""Mine""#));
    assert!(try_fmt_inv(&both, "en", &month_map()).is_some());
}

#[test]
fn undecodable_cipher_address_is_refused() {
    let mut next = jv(NEXT);
    let player = jv(PLAYER);
    next.as_object_mut().unwrap().extend(player.as_object().unwrap().clone());
    let good = conv(next.clone());
    assert!(try_fmt_inv_and_decipher(&good, "en", &month_map(), "nothing", &vec![], None).is_some());
    next["streamingData"]["adaptiveFormats"][0]["signatureCipher"] =
        serde_json::Value::String(String::from("s=abc&sp=sig&url=https%3A%2F%2Fx%FF"));
    let bad = conv(next);
    assert!(try_fmt_inv_and_decipher(&bad, "en", &month_map(), "nothing", &vec![], None).is_none());
}

#[test]
fn overflowing_length_is_refused() {
    let mut next = jv(NEXT);
    assert!(try_get_recommended(&conv(next.clone())).unwrap().is_some());
    next["contents"]["twoColumnWatchNextResults"]["secondaryResults"]["secondaryResults"]["results"][0]["compactVideoRenderer"]["lengthText"]["simpleText"] =
        serde_json::Value::String(String::from("1:2:3:4:5:6"));
    let bad = conv(next);
    assert!(try_get_recommended(&bad).is_none());
    assert!(try_fmt_inv(&bad, "en", &month_map()).is_none());
}

#[test]
fn streams_without_ciphers_get_their_host() {
    let mut next = jv(NEXT);
    next.as_object_mut().unwrap().extend(jv(PLAYER).as_object().unwrap().clone());
    let json = conv(next);
    let scripts = decipher_scripts_for(&json, "nothing", &vec![]);
    assert!(scripts.legacy.is_empty());
    assert!(scripts.adaptive.is_none());
    let inv = entries(fmt_inv_and_decipher(&json, "en", &month_map(), "nothing", &scripts.legacy, scripts.adaptive));
    assert!(inv.get("formatStreams").is_none());
    let adaptive = get_adaptive_formats(&json).unwrap();
    let urls: Vec<String> = inv["adaptiveFormats"].as_array().unwrap().iter().map(|f| String::from(f["url"].as_str().unwrap())).collect();
    let expected: Vec<String> = adaptive.iter().map(|f| add_host_param_to_url(f.url.as_ref().unwrap())).collect();
    assert_eq!(urls, expected);
}

#[test]
fn filling_in_twice_changes_nothing() {
    let mut next = jv(NEXT);
    next.as_object_mut().unwrap().extend(jv(PLAYER).as_object().unwrap().clone());
    let json = conv(next);
    let once = fmt_inv_with_existing_map(&json, "en", &month_map(), vec![(String::from("custom"), JsonValue::Bool(true))]);
    let keys: Vec<String> = once.iter().map(|(k, _)| k.clone()).collect();
    let once_value = entries(once);
    let copy: Vec<(String, JsonValue)> = keys.iter().map(|k| (k.clone(), conv(once_value[k.as_str()].clone()))).collect();
    let twice = fmt_inv_with_existing_map(&json, "en", &month_map(), copy);
    let twice_keys: Vec<String> = twice.iter().map(|(k, _)| k.clone()).collect();
    assert_eq!(twice_keys, keys);
    assert_eq!(entries(twice), once_value);
    assert_eq!(keys[0], "custom");
    assert!(keys[1..].iter().all(|k| ["title", "videoId", "description", "descriptionHtml", "published", "publishedText", "keywords", "viewCount", "likeCount", "isFamilyFriendly", "allowedRegions", "genre", "author", "authorId", "authorUrl", "authorThumbnails", "subCountText", "lengthSeconds", "allowRatings", "isListed", "liveNow", "hlsUrl", "dashUrl", "formatStreams", "adaptiveFormats", "captions", "recommendedVideos", "musicTracks"].contains(&k.as_str())));
    assert_eq!(once_value["authorUrl"], jv(r#""/channel/UC1""#));
}
