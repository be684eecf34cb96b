//! Reading video information from the TV client's `next` response.
use vstd::prelude::*;
use crate::json::{array_at, i64_at, str_at, str_or_empty, JsonValue, Seg};
use crate::text::{cat, cat3, decimal, int_to_string};
use crate::constants::SHORT_WEBSITE_BASE_URL;

verus! {

// Paths into the responses

pub open spec fn path_title_text() -> Seq<Seg<'static>> {
    seq![Seg::Key("contents"), Seg::Key("singleColumnWatchNextResults"), Seg::Key("results"), Seg::Key("results"), Seg::Key("contents"), Seg::Idx(0), Seg::Key("itemSectionRenderer"), Seg::Key("contents"), Seg::Idx(0), Seg::Key("videoMetadataRenderer"), Seg::Key("title"), Seg::Key("runs"), Seg::Idx(0), Seg::Key("text")]
}

fn path_title_text_segs() -> (r: [Seg<'static>; 14])
    ensures
        r@ == path_title_text(),
{
    [Seg::Key("contents"), Seg::Key("singleColumnWatchNextResults"), Seg::Key("results"), Seg::Key("results"), Seg::Key("contents"), Seg::Idx(0), Seg::Key("itemSectionRenderer"), Seg::Key("contents"), Seg::Idx(0), Seg::Key("videoMetadataRenderer"), Seg::Key("title"), Seg::Key("runs"), Seg::Idx(0), Seg::Key("text")]
}

pub open spec fn path_description_runs() -> Seq<Seg<'static>> {
    seq![Seg::Key("contents"), Seg::Key("singleColumnWatchNextResults"), Seg::Key("results"), Seg::Key("results"), Seg::Key("contents"), Seg::Idx(0), Seg::Key("itemSectionRenderer"), Seg::Key("contents"), Seg::Idx(0), Seg::Key("videoMetadataRenderer"), Seg::Key("description"), Seg::Key("runs")]
}

fn path_description_runs_segs() -> (r: [Seg<'static>; 12])
    ensures
        r@ == path_description_runs(),
{
    [Seg::Key("contents"), Seg::Key("singleColumnWatchNextResults"), Seg::Key("results"), Seg::Key("results"), Seg::Key("contents"), Seg::Idx(0), Seg::Key("itemSectionRenderer"), Seg::Key("contents"), Seg::Idx(0), Seg::Key("videoMetadataRenderer"), Seg::Key("description"), Seg::Key("runs")]
}

pub open spec fn path_text() -> Seq<Seg<'static>> {
    seq![Seg::Key("text")]
}

fn path_text_segs() -> (r: [Seg<'static>; 1])
    ensures
        r@ == path_text(),
{
    [Seg::Key("text")]
}

pub open spec fn path_run_video_id() -> Seq<Seg<'static>> {
    seq![Seg::Key("navigationEndpoint"), Seg::Key("watchEndpoint"), Seg::Key("videoId")]
}

fn path_run_video_id_segs() -> (r: [Seg<'static>; 3])
    ensures
        r@ == path_run_video_id(),
{
    [Seg::Key("navigationEndpoint"), Seg::Key("watchEndpoint"), Seg::Key("videoId")]
}

pub open spec fn path_run_start_time() -> Seq<Seg<'static>> {
    seq![Seg::Key("navigationEndpoint"), Seg::Key("watchEndpoint"), Seg::Key("startTimeSeconds")]
}

fn path_run_start_time_segs() -> (r: [Seg<'static>; 3])
    ensures
        r@ == path_run_start_time(),
{
    [Seg::Key("navigationEndpoint"), Seg::Key("watchEndpoint"), Seg::Key("startTimeSeconds")]
}

pub open spec fn path_run_url() -> Seq<Seg<'static>> {
    seq![Seg::Key("navigationEndpoint"), Seg::Key("urlEndpoint"), Seg::Key("url")]
}

fn path_run_url_segs() -> (r: [Seg<'static>; 3])
    ensures
        r@ == path_run_url(),
{
    [Seg::Key("navigationEndpoint"), Seg::Key("urlEndpoint"), Seg::Key("url")]
}

pub fn get_title(json: &JsonValue) -> (r: Option<String>)
    ensures
        r.deep_view() == str_at(*json, path_title_text()),
{
    json.string_at(&path_title_text_segs())
}

/// The texts of the runs one after another.
pub open spec fn runs_text(runs: Seq<JsonValue>) -> Seq<char>
    decreases runs.len(),
{
    if runs.len() == 0 {
        Seq::empty()
    } else {
        runs_text(runs.drop_last()) + str_or_empty(runs.last(), path_text())
    }
}

pub open spec fn spec_description(json: JsonValue) -> Option<Seq<char>> {
    match array_at(json, path_description_runs()) {
        Some(runs) => Some(runs_text(runs)),
        None => None,
    }
}

/// The description, its runs joined.
pub fn get_description(json: &JsonValue) -> (r: Option<String>)
    ensures
        r.deep_view() == spec_description(*json),
{
    match json.array_at(&path_description_runs_segs()) {
        Some(runs) => {
            let mut out = String::new();
            let mut i: usize = 0;
            while i < runs.len()
                invariant
                    i <= runs@.len(),
                    out@ == runs_text(runs@.take(i as int)),
                decreases runs@.len() - i,
            {
                assert(runs@.take(i + 1).drop_last() =~= runs@.take(i as int));
                let t = runs[i].string_or_empty(&path_text_segs());
                out.append(t.as_str());
                i = i + 1;
            }
            assert(runs@.take(i as int) =~= runs@);
            Some(out)
        },
        None => None,
    }
}

/// The address a run links to: a video on the short host (at its start time
/// when that is positive), or the address of its URL endpoint.
pub open spec fn run_link(run: JsonValue) -> Option<Seq<char>> {
    match str_at(run, path_run_video_id()) {
        Some(id) => match i64_at(run, path_run_start_time()) {
            Some(t) => if t > 0 {
                Some(SHORT_WEBSITE_BASE_URL@ + "/"@ + id + "?t="@ + decimal(t as int))
            } else {
                Some(SHORT_WEBSITE_BASE_URL@ + "/"@ + id)
            },
            None => Some(SHORT_WEBSITE_BASE_URL@ + "/"@ + id),
        },
        None => str_at(run, path_run_url()),
    }
}

/// A run as HTML: an anchor around its text (or its address where it has no
/// text) where it links somewhere, else its text.
pub open spec fn run_html(run: JsonValue) -> Seq<char> {
    match run_link(run) {
        Some(url) => "<a href=\""@ + url + "\">"@ + match str_at(run, path_text()) {
            Some(t) => t,
            None => url,
        } + "</a>"@,
        None => str_or_empty(run, path_text()),
    }
}

pub open spec fn runs_html(runs: Seq<JsonValue>) -> Seq<char>
    decreases runs.len(),
{
    if runs.len() == 0 {
        Seq::empty()
    } else {
        runs_html(runs.drop_last()) + run_html(runs.last())
    }
}

fn run_link_exec(run: &JsonValue) -> (r: Option<String>)
    ensures
        r.deep_view() == run_link(*run),
{
    match run.str_ref_at(&path_run_video_id_segs()) {
        Some(id) => {
            let video = cat3(SHORT_WEBSITE_BASE_URL, "/", id);
            match run.i64_at(&path_run_start_time_segs()) {
                Some(t) => if t > 0 {
                    let time = int_to_string(t);
                    Some(cat3(video.as_str(), "?t=", time.as_str()))
                } else {
                    Some(video)
                },
                None => Some(video),
            }
        },
        None => run.string_at(&path_run_url_segs()),
    }
}

fn run_html_exec(run: &JsonValue) -> (r: String)
    ensures
        r@ == run_html(*run),
{
    match run_link_exec(run) {
        Some(url) => {
            let label = match run.string_at(&path_text_segs()) {
                Some(t) => t,
                None => url.clone(),
            };
            let head = cat3("<a href=\"", url.as_str(), "\">");
            cat3(head.as_str(), label.as_str(), "</a>")
        },
        None => run.string_or_empty(&path_text_segs()),
    }
}

pub open spec fn spec_description_html(json: JsonValue) -> Option<Seq<char>> {
    match array_at(json, path_description_runs()) {
        Some(runs) => Some(runs_html(runs)),
        None => None,
    }
}

/// The description with its links written as HTML anchors.
pub fn get_description_html(json: &JsonValue) -> (r: Option<String>)
    ensures
        r.deep_view() == spec_description_html(*json),
{
    match json.array_at(&path_description_runs_segs()) {
        Some(runs) => {
            let mut out = String::new();
            let mut i: usize = 0;
            while i < runs.len()
                invariant
                    i <= runs@.len(),
                    out@ == runs_html(runs@.take(i as int)),
                decreases runs@.len() - i,
            {
                assert(runs@.take(i + 1).drop_last() =~= runs@.take(i as int));
                let h = run_html_exec(&runs[i]);
                out.append(h.as_str());
                i = i + 1;
            }
            assert(runs@.take(i as int) =~= runs@);
            Some(out)
        },
        None => None,
    }
}

} // verus!
