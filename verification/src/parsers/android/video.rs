//! Reading video information from the Android client's responses.
use vstd::prelude::*;
use crate::json::{array_at, bool_at, str_at, JsonValue, Seg};
use crate::text::{parse_i32, parse_int_in, str_eq, strings_view};

verus! {

// Paths into the responses

pub open spec fn path_metadata_title() -> Seq<Seg<'static>> {
    seq![Seg::Key("contents"), Seg::Key("singleColumnWatchNextResults"), Seg::Key("results"), Seg::Key("results"), Seg::Key("contents"), Seg::Idx(0), Seg::Key("slimVideoMetadataSectionRenderer"), Seg::Key("contents"), Seg::Idx(0), Seg::Key("elementRenderer"), Seg::Key("newElement"), Seg::Key("type"), Seg::Key("componentType"), Seg::Key("model"), Seg::Key("videoMetadataModel"), Seg::Key("videoMetadata"), Seg::Key("title"), Seg::Key("content")]
}

fn path_metadata_title_segs() -> (r: [Seg<'static>; 18])
    ensures
        r@ == path_metadata_title(),
{
    [Seg::Key("contents"), Seg::Key("singleColumnWatchNextResults"), Seg::Key("results"), Seg::Key("results"), Seg::Key("contents"), Seg::Idx(0), Seg::Key("slimVideoMetadataSectionRenderer"), Seg::Key("contents"), Seg::Idx(0), Seg::Key("elementRenderer"), Seg::Key("newElement"), Seg::Key("type"), Seg::Key("componentType"), Seg::Key("model"), Seg::Key("videoMetadataModel"), Seg::Key("videoMetadata"), Seg::Key("title"), Seg::Key("content")]
}

pub open spec fn path_details_title() -> Seq<Seg<'static>> {
    seq![Seg::Key("videoDetails"), Seg::Key("title")]
}

fn path_details_title_segs() -> (r: [Seg<'static>; 2])
    ensures
        r@ == path_details_title(),
{
    [Seg::Key("videoDetails"), Seg::Key("title")]
}

pub open spec fn path_details_short_description() -> Seq<Seg<'static>> {
    seq![Seg::Key("videoDetails"), Seg::Key("shortDescription")]
}

fn path_details_short_description_segs() -> (r: [Seg<'static>; 2])
    ensures
        r@ == path_details_short_description(),
{
    [Seg::Key("videoDetails"), Seg::Key("shortDescription")]
}

pub open spec fn path_playability_status() -> Seq<Seg<'static>> {
    seq![Seg::Key("playabilityStatus"), Seg::Key("status")]
}

fn path_playability_status_segs() -> (r: [Seg<'static>; 2])
    ensures
        r@ == path_playability_status(),
{
    [Seg::Key("playabilityStatus"), Seg::Key("status")]
}

pub open spec fn path_details_keywords() -> Seq<Seg<'static>> {
    seq![Seg::Key("videoDetails"), Seg::Key("keywords")]
}

fn path_details_keywords_segs() -> (r: [Seg<'static>; 2])
    ensures
        r@ == path_details_keywords(),
{
    [Seg::Key("videoDetails"), Seg::Key("keywords")]
}

pub open spec fn path_details_length_seconds() -> Seq<Seg<'static>> {
    seq![Seg::Key("videoDetails"), Seg::Key("lengthSeconds")]
}

fn path_details_length_seconds_segs() -> (r: [Seg<'static>; 2])
    ensures
        r@ == path_details_length_seconds(),
{
    [Seg::Key("videoDetails"), Seg::Key("lengthSeconds")]
}

pub open spec fn path_details_allow_ratings() -> Seq<Seg<'static>> {
    seq![Seg::Key("videoDetails"), Seg::Key("allowRatings")]
}

fn path_details_allow_ratings_segs() -> (r: [Seg<'static>; 2])
    ensures
        r@ == path_details_allow_ratings(),
{
    [Seg::Key("videoDetails"), Seg::Key("allowRatings")]
}

/// The title, from the `next` response or else the `player` response.
pub open spec fn spec_title(json: JsonValue) -> Option<Seq<char>> {
    match str_at(json, path_metadata_title()) {
        Some(t) => Some(t),
        None => str_at(json, path_details_title()),
    }
}

pub fn get_title(json: &JsonValue) -> (r: Option<String>)
    ensures
        r.deep_view() == spec_title(*json),
{
    match json.string_at(&path_metadata_title_segs()) {
        Some(title) => Some(title),
        None => json.string_at(&path_details_title_segs()),
    }
}

/// The description from the `player` response.
pub fn get_description(json: &JsonValue) -> (r: Option<String>)
    ensures
        r.deep_view() == str_at(*json, path_details_short_description()),
{
    json.string_at(&path_details_short_description_segs())
}

/// Whether the `player` response has a playability status other than `ERROR`.
pub open spec fn spec_playability(json: JsonValue) -> bool {
    match str_at(json, path_playability_status()) {
        Some(status) => status != "ERROR"@,
        None => false,
    }
}

pub fn get_playability(json: &JsonValue) -> (r: bool)
    ensures
        r == spec_playability(*json),
{
    match json.str_ref_at(&path_playability_status_segs()) {
        Some(status) => !str_eq(status, "ERROR"),
        None => false,
    }
}

/// The keywords that are texts.
pub open spec fn texts_of(items: Seq<JsonValue>) -> Seq<Seq<char>>
    decreases items.len(),
{
    if items.len() == 0 {
        Seq::empty()
    } else {
        let rest = texts_of(items.drop_last());
        match items.last() {
            JsonValue::String(s) => rest.push(s@),
            _ => rest,
        }
    }
}

pub open spec fn spec_keywords(json: JsonValue) -> Option<Seq<Seq<char>>> {
    match array_at(json, path_details_keywords()) {
        Some(items) => Some(texts_of(items)),
        None => None,
    }
}

pub fn get_keywords(json: &JsonValue) -> (r: Option<Vec<String>>)
    ensures
        r matches Some(v) ==> spec_keywords(*json) == Some(strings_view(v@)),
        r is None ==> spec_keywords(*json) is None,
{
    match json.array_at(&path_details_keywords_segs()) {
        Some(items) => {
            let mut out: Vec<String> = Vec::new();
            let mut i: usize = 0;
            while i < items.len()
                invariant
                    i <= items@.len(),
                    strings_view(out@) == texts_of(items@.take(i as int)),
                decreases items@.len() - i,
            {
                let ghost before = out@;
                assert(items@.take(i + 1).drop_last() =~= items@.take(i as int));
                match &items[i] {
                    JsonValue::String(s) => {
                        out.push(s.clone());
                        assert(strings_view(out@) =~= strings_view(before).push(s@));
                    },
                    _ => {},
                }
                i = i + 1;
            }
            assert(items@.take(i as int) =~= items@);
            Some(out)
        },
        None => None,
    }
}

/// The length in seconds, where its text is a number that fits in an `i32`.
pub open spec fn spec_length_seconds(json: JsonValue) -> Option<i32> {
    match str_at(json, path_details_length_seconds()) {
        Some(t) => match parse_int_in(t, i32::MIN as int, i32::MAX as int) {
            Some(n) => Some(n as i32),
            None => None,
        },
        None => None,
    }
}

pub fn get_length_seconds(json: &JsonValue) -> (r: Option<i32>)
    ensures
        r == spec_length_seconds(*json),
{
    match json.str_ref_at(&path_details_length_seconds_segs()) {
        Some(t) => parse_i32(t),
        None => None,
    }
}

pub fn get_allow_ratings(json: &JsonValue) -> (r: Option<bool>)
    ensures
        r == bool_at(*json, path_details_allow_ratings()),
{
    json.bool_at(&path_details_allow_ratings_segs())
}

} // verus!
