//! Reading playlists from the web client's `browse` response.
use vstd::prelude::*;
use crate::json::{
    array_at, bool_at, entries_view, i64_at, int_view, is_object_at, items_view, lemma_items_view,
    step, str_at, str_or_empty, JsonValue, JsonView, ObjectBuilder, Seg,
};
use crate::bindings::{concat_all, substring, clamp};
use crate::helpers::{
    date_reading, months_readable, parse_date_to_published, AuthorThumbnail, DateInput, DateReading,
    ParseDateOption,
};
use crate::text::{cat, parse_i32, parse_int_in};
use crate::parsers::web::video::{digits_number, first_array_from, first_some, number_from_digits};
use vstd::utf8::encode_utf8;
use vstd::string::StringSliceAdditionalSpecFns;

verus! {

// Paths into the responses

pub open spec fn path_alerts() -> Seq<Seg<'static>> {
    seq![Seg::Key("alerts")]
}

fn path_alerts_segs() -> (r: [Seg<'static>; 1])
    ensures
        r@ == path_alerts(),
{
    [Seg::Key("alerts")]
}

pub open spec fn path_alert_type() -> Seq<Seg<'static>> {
    seq![Seg::Key("alertRenderer"), Seg::Key("type")]
}

fn path_alert_type_segs() -> (r: [Seg<'static>; 2])
    ensures
        r@ == path_alert_type(),
{
    [Seg::Key("alertRenderer"), Seg::Key("type")]
}

pub open spec fn path_alert_runs() -> Seq<Seg<'static>> {
    seq![Seg::Key("alertRenderer"), Seg::Key("text"), Seg::Key("runs")]
}

fn path_alert_runs_segs() -> (r: [Seg<'static>; 3])
    ensures
        r@ == path_alert_runs(),
{
    [Seg::Key("alertRenderer"), Seg::Key("text"), Seg::Key("runs")]
}

pub open spec fn path_text() -> Seq<Seg<'static>> {
    seq![Seg::Key("text")]
}

fn path_text_segs() -> (r: [Seg<'static>; 1])
    ensures
        r@ == path_text(),
{
    [Seg::Key("text")]
}

pub open spec fn path_header_title() -> Seq<Seg<'static>> {
    seq![Seg::Key("header"), Seg::Key("playlistHeaderRenderer"), Seg::Key("title"), Seg::Key("simpleText")]
}

fn path_header_title_segs() -> (r: [Seg<'static>; 4])
    ensures
        r@ == path_header_title(),
{
    [Seg::Key("header"), Seg::Key("playlistHeaderRenderer"), Seg::Key("title"), Seg::Key("simpleText")]
}

pub open spec fn path_metadata_title() -> Seq<Seg<'static>> {
    seq![Seg::Key("metadata"), Seg::Key("playlistMetadataRenderer"), Seg::Key("title")]
}

fn path_metadata_title_segs() -> (r: [Seg<'static>; 3])
    ensures
        r@ == path_metadata_title(),
{
    [Seg::Key("metadata"), Seg::Key("playlistMetadataRenderer"), Seg::Key("title")]
}

pub open spec fn path_header_playlist_id() -> Seq<Seg<'static>> {
    seq![Seg::Key("header"), Seg::Key("playlistHeaderRenderer"), Seg::Key("playlistId")]
}

fn path_header_playlist_id_segs() -> (r: [Seg<'static>; 3])
    ensures
        r@ == path_header_playlist_id(),
{
    [Seg::Key("header"), Seg::Key("playlistHeaderRenderer"), Seg::Key("playlistId")]
}

pub open spec fn path_tracking_value() -> Seq<Seg<'static>> {
    seq![Seg::Key("responseContext"), Seg::Key("serviceTrackingParams"), Seg::Idx(0), Seg::Key("params"), Seg::Idx(0), Seg::Key("value")]
}

fn path_tracking_value_segs() -> (r: [Seg<'static>; 6])
    ensures
        r@ == path_tracking_value(),
{
    [Seg::Key("responseContext"), Seg::Key("serviceTrackingParams"), Seg::Idx(0), Seg::Key("params"), Seg::Idx(0), Seg::Key("value")]
}

pub open spec fn path_hero_thumbnails() -> Seq<Seg<'static>> {
    seq![Seg::Key("header"), Seg::Key("playlistHeaderBanner"), Seg::Key("heroPlaylistThumbnailRenderer"), Seg::Key("thumbnail"), Seg::Key("thumbnails")]
}

fn path_hero_thumbnails_segs() -> (r: [Seg<'static>; 5])
    ensures
        r@ == path_hero_thumbnails(),
{
    [Seg::Key("header"), Seg::Key("playlistHeaderBanner"), Seg::Key("heroPlaylistThumbnailRenderer"), Seg::Key("thumbnail"), Seg::Key("thumbnails")]
}

pub open spec fn path_sidebar_items() -> Seq<Seg<'static>> {
    seq![Seg::Key("sidebar"), Seg::Key("playlistSidebarRenderer"), Seg::Key("items")]
}

fn path_sidebar_items_segs() -> (r: [Seg<'static>; 3])
    ensures
        r@ == path_sidebar_items(),
{
    [Seg::Key("sidebar"), Seg::Key("playlistSidebarRenderer"), Seg::Key("items")]
}

pub open spec fn path_owner_text() -> Seq<Seg<'static>> {
    seq![Seg::Key("header"), Seg::Key("playlistHeaderRenderer"), Seg::Key("ownerText"), Seg::Key("runs"), Seg::Idx(0), Seg::Key("text")]
}

fn path_owner_text_segs() -> (r: [Seg<'static>; 6])
    ensures
        r@ == path_owner_text(),
{
    [Seg::Key("header"), Seg::Key("playlistHeaderRenderer"), Seg::Key("ownerText"), Seg::Key("runs"), Seg::Idx(0), Seg::Key("text")]
}

pub open spec fn path_owner_browse_id() -> Seq<Seg<'static>> {
    seq![Seg::Key("header"), Seg::Key("playlistHeaderRenderer"), Seg::Key("ownerText"), Seg::Key("runs"), Seg::Idx(0), Seg::Key("navigationEndpoint"), Seg::Key("browseEndpoint"), Seg::Key("browseId")]
}

fn path_owner_browse_id_segs() -> (r: [Seg<'static>; 8])
    ensures
        r@ == path_owner_browse_id(),
{
    [Seg::Key("header"), Seg::Key("playlistHeaderRenderer"), Seg::Key("ownerText"), Seg::Key("runs"), Seg::Idx(0), Seg::Key("navigationEndpoint"), Seg::Key("browseEndpoint"), Seg::Key("browseId")]
}

pub open spec fn path_owner_base_url() -> Seq<Seg<'static>> {
    seq![Seg::Key("header"), Seg::Key("playlistHeaderRenderer"), Seg::Key("ownerText"), Seg::Key("runs"), Seg::Idx(0), Seg::Key("navigationEndpoint"), Seg::Key("browseEndpoint"), Seg::Key("canonicalBaseUrl")]
}

fn path_owner_base_url_segs() -> (r: [Seg<'static>; 8])
    ensures
        r@ == path_owner_base_url(),
{
    [Seg::Key("header"), Seg::Key("playlistHeaderRenderer"), Seg::Key("ownerText"), Seg::Key("runs"), Seg::Idx(0), Seg::Key("navigationEndpoint"), Seg::Key("browseEndpoint"), Seg::Key("canonicalBaseUrl")]
}

pub open spec fn path_sidebar_owner_text() -> Seq<Seg<'static>> {
    seq![Seg::Key("sidebar"), Seg::Key("playlistSidebarRenderer"), Seg::Key("items"), Seg::Idx(1), Seg::Key("playlistSidebarSecondaryInfoRenderer"), Seg::Key("videoOwner"), Seg::Key("videoOwnerRenderer"), Seg::Key("title"), Seg::Key("runs"), Seg::Idx(0), Seg::Key("text")]
}

fn path_sidebar_owner_text_segs() -> (r: [Seg<'static>; 11])
    ensures
        r@ == path_sidebar_owner_text(),
{
    [Seg::Key("sidebar"), Seg::Key("playlistSidebarRenderer"), Seg::Key("items"), Seg::Idx(1), Seg::Key("playlistSidebarSecondaryInfoRenderer"), Seg::Key("videoOwner"), Seg::Key("videoOwnerRenderer"), Seg::Key("title"), Seg::Key("runs"), Seg::Idx(0), Seg::Key("text")]
}

pub open spec fn path_sidebar_owner_browse_id() -> Seq<Seg<'static>> {
    seq![Seg::Key("sidebar"), Seg::Key("playlistSidebarRenderer"), Seg::Key("items"), Seg::Idx(1), Seg::Key("playlistSidebarSecondaryInfoRenderer"), Seg::Key("videoOwner"), Seg::Key("videoOwnerRenderer"), Seg::Key("title"), Seg::Key("runs"), Seg::Idx(0), Seg::Key("navigationEndpoint"), Seg::Key("browseEndpoint"), Seg::Key("browseId")]
}

fn path_sidebar_owner_browse_id_segs() -> (r: [Seg<'static>; 13])
    ensures
        r@ == path_sidebar_owner_browse_id(),
{
    [Seg::Key("sidebar"), Seg::Key("playlistSidebarRenderer"), Seg::Key("items"), Seg::Idx(1), Seg::Key("playlistSidebarSecondaryInfoRenderer"), Seg::Key("videoOwner"), Seg::Key("videoOwnerRenderer"), Seg::Key("title"), Seg::Key("runs"), Seg::Idx(0), Seg::Key("navigationEndpoint"), Seg::Key("browseEndpoint"), Seg::Key("browseId")]
}

pub open spec fn path_sidebar_owner_base_url() -> Seq<Seg<'static>> {
    seq![Seg::Key("sidebar"), Seg::Key("playlistSidebarRenderer"), Seg::Key("items"), Seg::Idx(1), Seg::Key("playlistSidebarSecondaryInfoRenderer"), Seg::Key("videoOwner"), Seg::Key("videoOwnerRenderer"), Seg::Key("title"), Seg::Key("runs"), Seg::Idx(0), Seg::Key("navigationEndpoint"), Seg::Key("browseEndpoint"), Seg::Key("canonicalBaseUrl")]
}

fn path_sidebar_owner_base_url_segs() -> (r: [Seg<'static>; 13])
    ensures
        r@ == path_sidebar_owner_base_url(),
{
    [Seg::Key("sidebar"), Seg::Key("playlistSidebarRenderer"), Seg::Key("items"), Seg::Idx(1), Seg::Key("playlistSidebarSecondaryInfoRenderer"), Seg::Key("videoOwner"), Seg::Key("videoOwnerRenderer"), Seg::Key("title"), Seg::Key("runs"), Seg::Idx(0), Seg::Key("navigationEndpoint"), Seg::Key("browseEndpoint"), Seg::Key("canonicalBaseUrl")]
}

pub open spec fn path_item_owner_thumbnails() -> Seq<Seg<'static>> {
    seq![Seg::Key("playlistSidebarSecondaryInfoRenderer"), Seg::Key("videoOwner"), Seg::Key("videoOwnerRenderer"), Seg::Key("thumbnail"), Seg::Key("thumbnails")]
}

fn path_item_owner_thumbnails_segs() -> (r: [Seg<'static>; 5])
    ensures
        r@ == path_item_owner_thumbnails(),
{
    [Seg::Key("playlistSidebarSecondaryInfoRenderer"), Seg::Key("videoOwner"), Seg::Key("videoOwnerRenderer"), Seg::Key("thumbnail"), Seg::Key("thumbnails")]
}

pub open spec fn path_description() -> Seq<Seg<'static>> {
    seq![Seg::Key("microformat"), Seg::Key("microformatDataRenderer"), Seg::Key("description")]
}

fn path_description_segs() -> (r: [Seg<'static>; 3])
    ensures
        r@ == path_description(),
{
    [Seg::Key("microformat"), Seg::Key("microformatDataRenderer"), Seg::Key("description")]
}

pub open spec fn path_header_stats_runs() -> Seq<Seg<'static>> {
    seq![Seg::Key("header"), Seg::Key("playlistHeaderRenderer"), Seg::Key("stats"), Seg::Idx(0), Seg::Key("runs")]
}

fn path_header_stats_runs_segs() -> (r: [Seg<'static>; 5])
    ensures
        r@ == path_header_stats_runs(),
{
    [Seg::Key("header"), Seg::Key("playlistHeaderRenderer"), Seg::Key("stats"), Seg::Idx(0), Seg::Key("runs")]
}

pub open spec fn path_sidebar_video_count() -> Seq<Seg<'static>> {
    seq![Seg::Key("sidebar"), Seg::Key("playlistSidebarRenderer"), Seg::Key("items"), Seg::Idx(0), Seg::Key("playlistSidebarPrimaryInfoRenderer"), Seg::Key("stats"), Seg::Idx(0), Seg::Key("runs"), Seg::Idx(0), Seg::Key("text")]
}

fn path_sidebar_video_count_segs() -> (r: [Seg<'static>; 10])
    ensures
        r@ == path_sidebar_video_count(),
{
    [Seg::Key("sidebar"), Seg::Key("playlistSidebarRenderer"), Seg::Key("items"), Seg::Idx(0), Seg::Key("playlistSidebarPrimaryInfoRenderer"), Seg::Key("stats"), Seg::Idx(0), Seg::Key("runs"), Seg::Idx(0), Seg::Key("text")]
}

pub open spec fn path_header_view_count() -> Seq<Seg<'static>> {
    seq![Seg::Key("header"), Seg::Key("playlistHeaderRenderer"), Seg::Key("viewCountText"), Seg::Key("simpleText")]
}

fn path_header_view_count_segs() -> (r: [Seg<'static>; 4])
    ensures
        r@ == path_header_view_count(),
{
    [Seg::Key("header"), Seg::Key("playlistHeaderRenderer"), Seg::Key("viewCountText"), Seg::Key("simpleText")]
}

pub open spec fn path_sidebar_view_count() -> Seq<Seg<'static>> {
    seq![Seg::Key("sidebar"), Seg::Key("playlistSidebarRenderer"), Seg::Key("items"), Seg::Idx(0), Seg::Key("playlistSidebarPrimaryInfoRenderer"), Seg::Key("stats"), Seg::Idx(1), Seg::Key("simpleText")]
}

fn path_sidebar_view_count_segs() -> (r: [Seg<'static>; 8])
    ensures
        r@ == path_sidebar_view_count(),
{
    [Seg::Key("sidebar"), Seg::Key("playlistSidebarRenderer"), Seg::Key("items"), Seg::Idx(0), Seg::Key("playlistSidebarPrimaryInfoRenderer"), Seg::Key("stats"), Seg::Idx(1), Seg::Key("simpleText")]
}

pub open spec fn path_sidebar_updated() -> Seq<Seg<'static>> {
    seq![Seg::Key("sidebar"), Seg::Key("playlistSidebarRenderer"), Seg::Key("items"), Seg::Idx(0), Seg::Key("playlistSidebarPrimaryInfoRenderer"), Seg::Key("stats"), Seg::Idx(2), Seg::Key("runs"), Seg::Idx(1), Seg::Key("text")]
}

fn path_sidebar_updated_segs() -> (r: [Seg<'static>; 10])
    ensures
        r@ == path_sidebar_updated(),
{
    [Seg::Key("sidebar"), Seg::Key("playlistSidebarRenderer"), Seg::Key("items"), Seg::Idx(0), Seg::Key("playlistSidebarPrimaryInfoRenderer"), Seg::Key("stats"), Seg::Idx(2), Seg::Key("runs"), Seg::Idx(1), Seg::Key("text")]
}

pub open spec fn path_unlisted() -> Seq<Seg<'static>> {
    seq![Seg::Key("microformat"), Seg::Key("microformatDataRenderer"), Seg::Key("unlisted")]
}

fn path_unlisted_segs() -> (r: [Seg<'static>; 3])
    ensures
        r@ == path_unlisted(),
{
    [Seg::Key("microformat"), Seg::Key("microformatDataRenderer"), Seg::Key("unlisted")]
}

pub open spec fn path_tabs() -> Seq<Seg<'static>> {
    seq![Seg::Key("contents"), Seg::Key("twoColumnBrowseResultsRenderer"), Seg::Key("tabs")]
}

fn path_tabs_segs() -> (r: [Seg<'static>; 3])
    ensures
        r@ == path_tabs(),
{
    [Seg::Key("contents"), Seg::Key("twoColumnBrowseResultsRenderer"), Seg::Key("tabs")]
}

pub open spec fn path_tab_videos() -> Seq<Seg<'static>> {
    seq![Seg::Key("tabRenderer"), Seg::Key("content"), Seg::Key("sectionListRenderer"), Seg::Key("contents"), Seg::Idx(0), Seg::Key("itemSectionRenderer"), Seg::Key("contents"), Seg::Idx(0), Seg::Key("playlistVideoListRenderer"), Seg::Key("contents")]
}

fn path_tab_videos_segs() -> (r: [Seg<'static>; 10])
    ensures
        r@ == path_tab_videos(),
{
    [Seg::Key("tabRenderer"), Seg::Key("content"), Seg::Key("sectionListRenderer"), Seg::Key("contents"), Seg::Idx(0), Seg::Key("itemSectionRenderer"), Seg::Key("contents"), Seg::Idx(0), Seg::Key("playlistVideoListRenderer"), Seg::Key("contents")]
}

pub open spec fn path_continuation_items() -> Seq<Seg<'static>> {
    seq![Seg::Key("onResponseReceivedActions"), Seg::Idx(0), Seg::Key("appendContinuationItemsAction"), Seg::Key("continuationItems")]
}

fn path_continuation_items_segs() -> (r: [Seg<'static>; 4])
    ensures
        r@ == path_continuation_items(),
{
    [Seg::Key("onResponseReceivedActions"), Seg::Idx(0), Seg::Key("appendContinuationItemsAction"), Seg::Key("continuationItems")]
}

pub open spec fn path_url() -> Seq<Seg<'static>> {
    seq![Seg::Key("url")]
}

fn path_url_segs() -> (r: [Seg<'static>; 1])
    ensures
        r@ == path_url(),
{
    [Seg::Key("url")]
}

pub open spec fn path_width() -> Seq<Seg<'static>> {
    seq![Seg::Key("width")]
}

fn path_width_segs() -> (r: [Seg<'static>; 1])
    ensures
        r@ == path_width(),
{
    [Seg::Key("width")]
}

pub open spec fn path_height() -> Seq<Seg<'static>> {
    seq![Seg::Key("height")]
}

fn path_height_segs() -> (r: [Seg<'static>; 1])
    ensures
        r@ == path_height(),
{
    [Seg::Key("height")]
}

pub open spec fn path_title_runs() -> Seq<Seg<'static>> {
    seq![Seg::Key("title"), Seg::Key("runs")]
}

fn path_title_runs_segs() -> (r: [Seg<'static>; 2])
    ensures
        r@ == path_title_runs(),
{
    [Seg::Key("title"), Seg::Key("runs")]
}

pub open spec fn path_video_id() -> Seq<Seg<'static>> {
    seq![Seg::Key("videoId")]
}

fn path_video_id_segs() -> (r: [Seg<'static>; 1])
    ensures
        r@ == path_video_id(),
{
    [Seg::Key("videoId")]
}

pub open spec fn path_byline_text() -> Seq<Seg<'static>> {
    seq![Seg::Key("shortBylineText"), Seg::Key("runs"), Seg::Idx(0), Seg::Key("text")]
}

fn path_byline_text_segs() -> (r: [Seg<'static>; 4])
    ensures
        r@ == path_byline_text(),
{
    [Seg::Key("shortBylineText"), Seg::Key("runs"), Seg::Idx(0), Seg::Key("text")]
}

pub open spec fn path_byline_browse_id() -> Seq<Seg<'static>> {
    seq![Seg::Key("shortBylineText"), Seg::Key("runs"), Seg::Idx(0), Seg::Key("navigationEndpoint"), Seg::Key("browseEndpoint"), Seg::Key("browseId")]
}

fn path_byline_browse_id_segs() -> (r: [Seg<'static>; 6])
    ensures
        r@ == path_byline_browse_id(),
{
    [Seg::Key("shortBylineText"), Seg::Key("runs"), Seg::Idx(0), Seg::Key("navigationEndpoint"), Seg::Key("browseEndpoint"), Seg::Key("browseId")]
}

pub open spec fn path_renderer_thumbnails() -> Seq<Seg<'static>> {
    seq![Seg::Key("thumbnail"), Seg::Key("thumbnails")]
}

fn path_renderer_thumbnails_segs() -> (r: [Seg<'static>; 2])
    ensures
        r@ == path_renderer_thumbnails(),
{
    [Seg::Key("thumbnail"), Seg::Key("thumbnails")]
}

pub open spec fn path_index_text() -> Seq<Seg<'static>> {
    seq![Seg::Key("index"), Seg::Key("simpleText")]
}

fn path_index_text_segs() -> (r: [Seg<'static>; 2])
    ensures
        r@ == path_index_text(),
{
    [Seg::Key("index"), Seg::Key("simpleText")]
}

pub open spec fn path_length_seconds() -> Seq<Seg<'static>> {
    seq![Seg::Key("lengthSeconds")]
}

fn path_length_seconds_segs() -> (r: [Seg<'static>; 1])
    ensures
        r@ == path_length_seconds(),
{
    [Seg::Key("lengthSeconds")]
}

// ---------------------------------------------------------------------------
// Thumbnails
// ---------------------------------------------------------------------------

/// A thumbnail as its address, width and height.
pub open spec fn author_thumb_view(t: AuthorThumbnail) -> (Seq<char>, i32, i32) {
    (t.url@, t.width, t.height)
}

pub open spec fn author_thumbs_view(v: Seq<AuthorThumbnail>) -> Seq<(Seq<char>, i32, i32)> {
    v.map_values(|t: AuthorThumbnail| author_thumb_view(t))
}

/// The thumbnails of a list that have an address, a width and a height,
/// the sizes cut to `i32`.
pub open spec fn complete_thumbnails(items: Seq<JsonValue>) -> Seq<(Seq<char>, i32, i32)>
    decreases items.len(),
{
    if items.len() == 0 {
        Seq::empty()
    } else {
        let rest = complete_thumbnails(items.drop_last());
        let t = items.last();
        match (str_at(t, path_url()), i64_at(t, path_width()), i64_at(t, path_height())) {
            (Some(url), Some(w), Some(h)) => rest.push((url, w as i32, h as i32)),
            _ => rest,
        }
    }
}

pub fn parse_complete_thumbnails(items: &Vec<JsonValue>) -> (r: Vec<AuthorThumbnail>)
    ensures
        author_thumbs_view(r@) == complete_thumbnails(items@),
{
    let mut out: Vec<AuthorThumbnail> = Vec::new();
    let mut i: usize = 0;
    while i < items.len()
        invariant
            i <= items@.len(),
            author_thumbs_view(out@) == complete_thumbnails(items@.take(i as int)),
        decreases items@.len() - i,
    {
        let ghost before = out@;
        assert(items@.take(i + 1).drop_last() =~= items@.take(i as int));
        let t = &items[i];
        match (t.string_at(&path_url_segs()), t.i64_at(&path_width_segs()), t.i64_at(&path_height_segs())) {
            (Some(url), Some(w), Some(h)) => {
                out.push(AuthorThumbnail { url, width: w as i32, height: h as i32 });
                assert(author_thumbs_view(out@) =~= author_thumbs_view(before).push(author_thumb_view(out@[before.len() as int])));
            },
            _ => {},
        }
        i = i + 1;
    }
    assert(items@.take(i as int) =~= items@);
    out
}

pub open spec fn opt_complete_thumbnails(items: Option<Seq<JsonValue>>) -> Option<Seq<(Seq<char>, i32, i32)>> {
    match items {
        Some(a) => Some(complete_thumbnails(a)),
        None => None,
    }
}

pub open spec fn opt_thumbs_view(v: Option<Vec<AuthorThumbnail>>) -> Option<Seq<(Seq<char>, i32, i32)>> {
    match v {
        Some(t) => Some(author_thumbs_view(t@)),
        None => None,
    }
}

fn parse_opt_thumbnails(items: Option<&Vec<JsonValue>>) -> (r: Option<Vec<AuthorThumbnail>>)
    ensures
        opt_thumbs_view(r) == opt_complete_thumbnails(match items {
            Some(a) => Some(a@),
            None => None,
        }),
{
    match items {
        Some(a) => Some(parse_complete_thumbnails(a)),
        None => None,
    }
}

// ---------------------------------------------------------------------------
// Videos
// ---------------------------------------------------------------------------

pub struct PlaylistVideo {
    pub title: Option<String>,
    pub video_id: Option<String>,
    pub author: Option<String>,
    pub author_id: Option<String>,
    pub video_thumbnails: Option<Vec<AuthorThumbnail>>,
    pub index: Option<i32>,
    pub length_seconds: Option<i32>,
}

pub struct PlaylistVideoView {
    pub title: Option<Seq<char>>,
    pub video_id: Option<Seq<char>>,
    pub author: Option<Seq<char>>,
    pub author_id: Option<Seq<char>>,
    pub video_thumbnails: Option<Seq<(Seq<char>, i32, i32)>>,
    pub index: Option<i32>,
    pub length_seconds: Option<i32>,
}

impl View for PlaylistVideo {
    type V = PlaylistVideoView;

    open spec fn view(&self) -> PlaylistVideoView {
        PlaylistVideoView {
            title: self.title.deep_view(),
            video_id: self.video_id.deep_view(),
            author: self.author.deep_view(),
            author_id: self.author_id.deep_view(),
            video_thumbnails: opt_thumbs_view(self.video_thumbnails),
            index: self.index,
            length_seconds: self.length_seconds,
        }
    }
}

/// The texts of the runs one after another, a run without text adding nothing.
pub open spec fn runs_text(runs: Seq<JsonValue>) -> Seq<char>
    decreases runs.len(),
{
    if runs.len() == 0 {
        Seq::empty()
    } else {
        runs_text(runs.drop_last()) + str_or_empty(runs.last(), path_text())
    }
}

pub fn join_runs(runs: &Vec<JsonValue>) -> (r: String)
    ensures
        r@ == runs_text(runs@),
{
    let mut out = String::new();
    let mut i: usize = 0;
    while i < runs.len()
        invariant
            i <= runs@.len(),
            out@ == runs_text(runs@.take(i as int)),
        decreases runs@.len() - i,
    {
        assert(runs@.take(i + 1).drop_last() =~= runs@.take(i as int));
        let t = runs[i].string_or_empty(&path_text_segs());
        out.append(t.as_str());
        i = i + 1;
    }
    assert(runs@.take(i as int) =~= runs@);
    out
}

pub open spec fn i32_text(t: Option<Seq<char>>) -> Option<i32> {
    match t {
        Some(s) => match parse_int_in(s, i32::MIN as int, i32::MAX as int) {
            Some(n) => Some(n as i32),
            None => None,
        },
        None => None,
    }
}

/// The video that a `playlistVideoRenderer` describes.
pub open spec fn playlist_video_of(r: JsonValue) -> PlaylistVideoView {
    PlaylistVideoView {
        title: match array_at(r, path_title_runs()) {
            Some(runs) => Some(runs_text(runs)),
            None => None,
        },
        video_id: str_at(r, path_video_id()),
        author: str_at(r, path_byline_text()),
        author_id: str_at(r, path_byline_browse_id()),
        video_thumbnails: opt_complete_thumbnails(array_at(r, path_renderer_thumbnails())),
        index: i32_text(str_at(r, path_index_text())),
        length_seconds: i32_text(str_at(r, path_length_seconds())),
    }
}

fn parse_i32_opt(t: Option<&str>) -> (r: Option<i32>)
    ensures
        r == i32_text(match t {
            Some(s) => Some(s@),
            None => None,
        }),
{
    match t {
        Some(s) => parse_i32(s),
        None => None,
    }
}

pub fn parse_playlist_video_renderer(renderer: &JsonValue) -> (r: PlaylistVideo)
    ensures
        r@ == playlist_video_of(*renderer),
{
    let title = match renderer.array_at(&path_title_runs_segs()) {
        Some(runs) => Some(join_runs(runs)),
        None => None,
    };
    let thumbnails = parse_opt_thumbnails(renderer.array_at(&path_renderer_thumbnails_segs()));
    PlaylistVideo {
        title,
        video_id: renderer.string_at(&path_video_id_segs()),
        author: renderer.string_at(&path_byline_text_segs()),
        author_id: renderer.string_at(&path_byline_browse_id_segs()),
        video_thumbnails: thumbnails,
        index: parse_i32_opt(renderer.str_ref_at(&path_index_text_segs())),
        length_seconds: parse_i32_opt(renderer.str_ref_at(&path_length_seconds_segs())),
    }
}

// ---------------------------------------------------------------------------
// JSON as the Invidious API writes it
// ---------------------------------------------------------------------------

pub open spec fn opt_text_json(v: Option<Seq<char>>) -> JsonView {
    match v {
        Some(s) => JsonView::Str(s),
        None => JsonView::Null,
    }
}

pub open spec fn opt_int_json(v: Option<int>) -> JsonView {
    match v {
        Some(i) => int_view(i),
        None => JsonView::Null,
    }
}

pub open spec fn author_thumb_json(t: (Seq<char>, i32, i32)) -> JsonView {
    JsonView::Object(seq![
        ("url"@, JsonView::Str(t.0)),
        ("width"@, int_view(t.1 as int)),
        ("height"@, int_view(t.2 as int)),
    ])
}

pub open spec fn opt_thumbs_json(v: Option<Seq<(Seq<char>, i32, i32)>>) -> JsonView {
    match v {
        Some(t) => JsonView::Array(t.map_values(|x: (Seq<char>, i32, i32)| author_thumb_json(x))),
        None => JsonView::Null,
    }
}

pub open spec fn opt_i32_int(v: Option<i32>) -> Option<int> {
    match v {
        Some(i) => Some(i as int),
        None => None,
    }
}

pub open spec fn opt_i64_int(v: Option<i64>) -> Option<int> {
    match v {
        Some(i) => Some(i as int),
        None => None,
    }
}

pub open spec fn channel_url(author_id: Option<Seq<char>>) -> Seq<char> {
    "/channel/"@ + match author_id {
        Some(id) => id,
        None => Seq::empty(),
    }
}

fn opt_text_value(v: &Option<String>) -> (r: JsonValue)
    ensures
        r.jv() == opt_text_json(v.deep_view()),
{
    match v {
        Some(s) => JsonValue::String(s.clone()),
        None => JsonValue::Null,
    }
}

fn opt_int_value(v: Option<i64>) -> (r: JsonValue)
    ensures
        r.jv() == opt_int_json(opt_i64_int(v)),
{
    match v {
        Some(i) => crate::json::int_value(i),
        None => JsonValue::Null,
    }
}

fn opt_i32_value(v: Option<i32>) -> (r: JsonValue)
    ensures
        r.jv() == opt_int_json(opt_i32_int(v)),
{
    match v {
        Some(i) => crate::json::int_value(i as i64),
        None => JsonValue::Null,
    }
}

fn author_thumb_value(t: &AuthorThumbnail) -> (r: JsonValue)
    ensures
        r.jv() == author_thumb_json(author_thumb_view(*t)),
{
    let mut obj = ObjectBuilder::new();
    obj.push_text("url", t.url.clone());
    obj.push_int("width", t.width as i64);
    obj.push_int("height", t.height as i64);
    assert(entries_view(obj.entries@) =~= seq![
        ("url"@, JsonView::Str(t.url@)),
        ("width"@, int_view(t.width as int)),
        ("height"@, int_view(t.height as int)),
    ]);
    obj.into_value()
}

fn opt_thumbs_value(v: &Option<Vec<AuthorThumbnail>>) -> (r: JsonValue)
    ensures
        r.jv() == opt_thumbs_json(opt_thumbs_view(*v)),
{
    match v {
        Some(ts) => {
            let mut items: Vec<JsonValue> = Vec::new();
            let mut i: usize = 0;
            while i < ts.len()
                invariant
                    i <= ts@.len(),
                    items@.len() == i,
                    forall|k: int| 0 <= k < i ==> (#[trigger] items@[k]).jv() == author_thumb_json(author_thumb_view(ts@[k])),
                decreases ts@.len() - i,
            {
                items.push(author_thumb_value(&ts[i]));
                i = i + 1;
            }
            proof {
                lemma_items_view(items@);
            }
            assert(items_view(items@) =~= author_thumbs_view(ts@).map_values(|x: (Seq<char>, i32, i32)| author_thumb_json(x)));
            JsonValue::Array(items)
        },
        None => JsonValue::Null,
    }
}

/// A playlist video as the Invidious API writes it.
pub open spec fn playlist_video_inv(v: PlaylistVideoView) -> JsonView {
    JsonView::Object(seq![
        ("title"@, opt_text_json(v.title)),
        ("videoId"@, opt_text_json(v.video_id)),
        ("author"@, opt_text_json(v.author)),
        ("authorId"@, opt_text_json(v.author_id)),
        ("authorUrl"@, JsonView::Str(channel_url(v.author_id))),
        ("videoThumbnails"@, opt_thumbs_json(v.video_thumbnails)),
        ("index"@, opt_int_json(opt_i32_int(v.index))),
        ("lengthSeconds"@, opt_int_json(opt_i32_int(v.length_seconds))),
    ])
}

fn channel_url_exec(author_id: &Option<String>) -> (r: String)
    ensures
        r@ == channel_url(author_id.deep_view()),
{
    match author_id {
        Some(id) => cat("/channel/", id.as_str()),
        None => {
            let r = "/channel/".to_string();
            assert(r@ == "/channel/"@ + Seq::<char>::empty());
            r
        },
    }
}

impl PlaylistVideo {
    /// The video as the Invidious API writes it.
    pub fn into_inv(&self) -> (r: JsonValue)
        ensures
            r.jv() == playlist_video_inv(self@),
    {
        let mut obj = ObjectBuilder::new();
        obj.push("title", opt_text_value(&self.title));
        obj.push("videoId", opt_text_value(&self.video_id));
        obj.push("author", opt_text_value(&self.author));
        obj.push("authorId", opt_text_value(&self.author_id));
        obj.push_text("authorUrl", channel_url_exec(&self.author_id));
        obj.push("videoThumbnails", opt_thumbs_value(&self.video_thumbnails));
        obj.push("index", opt_i32_value(self.index));
        obj.push("lengthSeconds", opt_i32_value(self.length_seconds));
        assert(entries_view(obj.entries@) =~= seq![
            ("title"@, opt_text_json(self@.title)),
            ("videoId"@, opt_text_json(self@.video_id)),
            ("author"@, opt_text_json(self@.author)),
            ("authorId"@, opt_text_json(self@.author_id)),
            ("authorUrl"@, JsonView::Str(channel_url(self@.author_id))),
            ("videoThumbnails"@, opt_thumbs_json(self@.video_thumbnails)),
            ("index"@, opt_int_json(opt_i32_int(self.index))),
            ("lengthSeconds"@, opt_int_json(opt_i32_int(self.length_seconds))),
        ]);
        obj.into_value()
    }
}


// ---------------------------------------------------------------------------
// Playlists
// ---------------------------------------------------------------------------

pub struct Playlist {
    pub title: Option<String>,
    pub playlist_id: Option<String>,
    pub playlist_thumbnails: Option<Vec<AuthorThumbnail>>,
    pub author: Option<String>,
    pub author_id: Option<String>,
    pub author_url: Option<String>,
    pub author_thumbnails: Option<Vec<AuthorThumbnail>>,
    pub description: Option<String>,
    pub description_html: Option<String>,
    pub video_count: Option<i32>,
    pub view_count: Option<i32>,
    pub updated: Option<i64>,
    pub is_listed: Option<bool>,
    pub videos: Option<Vec<PlaylistVideo>>,
}

pub open spec fn playlist_videos_view(v: Seq<PlaylistVideo>) -> Seq<PlaylistVideoView> {
    v.map_values(|x: PlaylistVideo| x@)
}

pub struct PlaylistView {
    pub title: Option<Seq<char>>,
    pub playlist_id: Option<Seq<char>>,
    pub playlist_thumbnails: Option<Seq<(Seq<char>, i32, i32)>>,
    pub author: Option<Seq<char>>,
    pub author_id: Option<Seq<char>>,
    pub author_url: Option<Seq<char>>,
    pub author_thumbnails: Option<Seq<(Seq<char>, i32, i32)>>,
    pub description: Option<Seq<char>>,
    pub description_html: Option<Seq<char>>,
    pub video_count: Option<i32>,
    pub view_count: Option<i32>,
    pub updated: Option<i64>,
    pub is_listed: Option<bool>,
    pub videos: Option<Seq<PlaylistVideoView>>,
}

impl View for Playlist {
    type V = PlaylistView;

    open spec fn view(&self) -> PlaylistView {
        PlaylistView {
            title: self.title.deep_view(),
            playlist_id: self.playlist_id.deep_view(),
            playlist_thumbnails: opt_thumbs_view(self.playlist_thumbnails),
            author: self.author.deep_view(),
            author_id: self.author_id.deep_view(),
            author_url: self.author_url.deep_view(),
            author_thumbnails: opt_thumbs_view(self.author_thumbnails),
            description: self.description.deep_view(),
            description_html: self.description_html.deep_view(),
            video_count: self.video_count,
            view_count: self.view_count,
            updated: self.updated,
            is_listed: self.is_listed,
            videos: match self.videos {
                Some(v) => Some(playlist_videos_view(v@)),
                None => None,
            },
        }
    }
}

/// An alert that the response holds instead of a playlist.
pub struct Alert {
    pub alert_type: Option<String>,
    pub alert_text: Option<String>,
}

pub struct PlaylistError {
    pub alerts: Vec<Alert>,
}

pub open spec fn alert_view(a: Alert) -> (Option<Seq<char>>, Option<Seq<char>>) {
    (a.alert_type.deep_view(), a.alert_text.deep_view())
}

pub open spec fn alerts_view(v: Seq<Alert>) -> Seq<(Option<Seq<char>>, Option<Seq<char>>)> {
    v.map_values(|a: Alert| alert_view(a))
}

/// The type of an alert and the texts of its runs.
pub open spec fn alert_of(a: JsonValue) -> (Option<Seq<char>>, Option<Seq<char>>) {
    (
        str_at(a, path_alert_type()),
        match array_at(a, path_alert_runs()) {
            Some(runs) => Some(runs_text(runs)),
            None => None,
        },
    )
}

fn parse_alert(a: &JsonValue) -> (r: Alert)
    ensures
        alert_view(r) == alert_of(*a),
{
    let alert_text = match a.array_at(&path_alert_runs_segs()) {
        Some(runs) => Some(join_runs(runs)),
        None => None,
    };
    Alert { alert_type: a.string_at(&path_alert_type_segs()), alert_text }
}

/// The playlist id of the tracking parameters: the value after its first two
/// characters (its UTF-8 length as the end index).
pub open spec fn tracked_playlist_id(v: Seq<char>) -> Seq<char> {
    let end = (encode_utf8(v).len() as usize) as int;
    if end <= 2 {
        Seq::empty()
    } else {
        v.subrange(clamp(2, v.len() as int), clamp(end, v.len() as int))
    }
}

/// The video count: the first stats run of the header, or else the first
/// stats text of the sidebar.
pub open spec fn video_count_of(browse: JsonValue) -> Option<i32> {
    match array_at(browse, path_header_stats_runs()) {
        Some(stats) => if stats.len() > 0 {
            i32_text(Some(str_or_empty(stats[0], path_text())))
        } else {
            None
        },
        None => i32_text(str_at(browse, path_sidebar_video_count())),
    }
}

/// The view count: the digits of the header's view count text, or else of
/// the sidebar's.
pub open spec fn view_count_of(browse: JsonValue) -> Option<i32> {
    match first_some(str_at(browse, path_header_view_count()), str_at(browse, path_sidebar_view_count())) {
        Some(t) => match digits_number(t) {
            Some(n) => Some(n as i32),
            None => None,
        },
        None => None,
    }
}

/// The update time: the sidebar's update date read with the month names of
/// `lang`.
pub open spec fn updated_of(browse: JsonValue, lang: &str, month_map: JsonValue) -> Option<i64> {
    match str_at(browse, path_sidebar_updated()) {
        Some(date) => match date_reading(lang, DateInput::FullDate(date), month_map) {
            DateReading::Timestamp(t) => Some(t),
            _ => None,
        },
        None => None,
    }
}

/// The videos of the content entries that are playlist video renderers.
pub open spec fn tab_videos(contents: Seq<JsonValue>) -> Seq<PlaylistVideoView>
    decreases contents.len(),
{
    if contents.len() == 0 {
        Seq::empty()
    } else {
        let rest = tab_videos(contents.drop_last());
        if is_object_at(contents.last(), seq![Seg::Key("playlistVideoRenderer")]) {
            rest.push(playlist_video_of(step(contents.last(), Seg::Key("playlistVideoRenderer"))->0))
        } else {
            rest
        }
    }
}

/// The renderer of a continuation item, or `null`.
pub open spec fn renderer_or_null(item: JsonValue) -> JsonValue {
    match step(item, Seg::Key("playlistVideoRenderer")) {
        Some(r) => r,
        None => JsonValue::Null,
    }
}

/// The videos of the first tab that lists some, or else those of the
/// continuation items.
pub open spec fn videos_of(browse: JsonValue) -> Option<Seq<PlaylistVideoView>> {
    match array_at(browse, path_tabs()) {
        Some(tabs) => match first_array_from(tabs, path_tab_videos(), 0) {
            Some(contents) => Some(tab_videos(contents)),
            None => match array_at(browse, path_continuation_items()) {
                Some(items) => Some(items.map_values(|i: JsonValue| playlist_video_of(renderer_or_null(i)))),
                None => None,
            },
        },
        None => None,
    }
}

/// The playlist that a `browse` response describes.
pub open spec fn playlist_of(browse: JsonValue, lang: &str, month_map: JsonValue) -> PlaylistView {
    PlaylistView {
        title: first_some(str_at(browse, path_header_title()), str_at(browse, path_metadata_title())),
        playlist_id: match str_at(browse, path_header_playlist_id()) {
            Some(id) => Some(id),
            None => match str_at(browse, path_tracking_value()) {
                Some(v) => Some(tracked_playlist_id(v)),
                None => None,
            },
        },
        playlist_thumbnails: opt_complete_thumbnails(array_at(browse, path_hero_thumbnails())),
        author: first_some(str_at(browse, path_owner_text()), str_at(browse, path_sidebar_owner_text())),
        author_id: first_some(str_at(browse, path_owner_browse_id()), str_at(browse, path_sidebar_owner_browse_id())),
        author_url: first_some(str_at(browse, path_owner_base_url()), str_at(browse, path_sidebar_owner_base_url())),
        author_thumbnails: match array_at(browse, path_sidebar_items()) {
            Some(items) => opt_complete_thumbnails(first_array_from(items, path_item_owner_thumbnails(), 0)),
            None => None,
        },
        description: str_at(browse, path_description()),
        description_html: None,
        video_count: video_count_of(browse),
        view_count: view_count_of(browse),
        updated: updated_of(browse, lang, month_map),
        is_listed: match bool_at(browse, path_unlisted()) {
            Some(u) => Some(!u),
            None => None,
        },
        videos: videos_of(browse),
    }
}

/// The alerts of a response that has an `alerts` array.
pub open spec fn alerts_of(browse: JsonValue) -> Option<Seq<(Option<Seq<char>>, Option<Seq<char>>)>> {
    match array_at(browse, path_alerts()) {
        Some(alerts) => Some(alerts.map_values(|a: JsonValue| alert_of(a))),
        None => None,
    }
}

fn parse_tab_videos(contents: &Vec<JsonValue>) -> (r: Vec<PlaylistVideo>)
    ensures
        playlist_videos_view(r@) == tab_videos(contents@),
{
    let mut out: Vec<PlaylistVideo> = Vec::new();
    let mut i: usize = 0;
    let key = [Seg::Key("playlistVideoRenderer")];
    assert(key@ == seq![Seg::Key("playlistVideoRenderer")]);
    while i < contents.len()
        invariant
            i <= contents@.len(),
            key@ == seq![Seg::Key("playlistVideoRenderer")],
            playlist_videos_view(out@) == tab_videos(contents@.take(i as int)),
        decreases contents@.len() - i,
    {
        let ghost before = out@;
        assert(contents@.take(i + 1).drop_last() =~= contents@.take(i as int));
        if contents[i].is_object_at(&key) {
            match contents[i].get_key("playlistVideoRenderer") {
                Some(renderer) => {
                    let v = parse_playlist_video_renderer(renderer);
                    out.push(v);
                    assert(playlist_videos_view(out@) =~= playlist_videos_view(before).push(v@));
                },
                None => {},
            }
        }
        i = i + 1;
    }
    assert(contents@.take(i as int) =~= contents@);
    out
}

fn parse_continuation_videos(items: &Vec<JsonValue>) -> (r: Vec<PlaylistVideo>)
    ensures
        playlist_videos_view(r@) == items@.map_values(|i: JsonValue| playlist_video_of(renderer_or_null(i))),
{
    let mut out: Vec<PlaylistVideo> = Vec::new();
    let null = JsonValue::Null;
    let mut i: usize = 0;
    while i < items.len()
        invariant
            i <= items@.len(),
            null == JsonValue::Null,
            out@.len() == i,
            forall|k: int| 0 <= k < i ==> (#[trigger] out@[k])@ == playlist_video_of(renderer_or_null(items@[k])),
        decreases items@.len() - i,
    {
        let renderer = match items[i].get_key("playlistVideoRenderer") {
            Some(r) => r,
            None => &null,
        };
        out.push(parse_playlist_video_renderer(renderer));
        i = i + 1;
    }
    assert(playlist_videos_view(out@) =~= items@.map_values(|i: JsonValue| playlist_video_of(renderer_or_null(i))));
    out
}

fn parse_videos(browse: &JsonValue) -> (r: Option<Vec<PlaylistVideo>>)
    ensures
        match r {
            Some(v) => videos_of(*browse) == Some(playlist_videos_view(v@)),
            None => videos_of(*browse) is None,
        },
{
    match browse.array_at(&path_tabs_segs()) {
        Some(tabs) => {
            let mut i: usize = 0;
            while i < tabs.len()
                invariant
                    i <= tabs@.len(),
                    first_array_from(tabs@, path_tab_videos(), 0) == first_array_from(tabs@, path_tab_videos(), i as int),
                    array_at(*browse, path_tabs()) == Some(tabs@),
                decreases tabs@.len() - i,
            {
                match tabs[i].array_at(&path_tab_videos_segs()) {
                    Some(contents) => {
                        return Some(parse_tab_videos(contents));
                    },
                    None => {},
                }
                i = i + 1;
            }
            match browse.array_at(&path_continuation_items_segs()) {
                Some(items) => Some(parse_continuation_videos(items)),
                None => None,
            }
        },
        None => None,
    }
}

fn first_thumbnails(items: &Vec<JsonValue>) -> (r: Option<Vec<AuthorThumbnail>>)
    ensures
        opt_thumbs_view(r) == opt_complete_thumbnails(first_array_from(items@, path_item_owner_thumbnails(), 0)),
{
    let mut i: usize = 0;
    while i < items.len()
        invariant
            i <= items@.len(),
            first_array_from(items@, path_item_owner_thumbnails(), 0) == first_array_from(items@, path_item_owner_thumbnails(), i as int),
        decreases items@.len() - i,
    {
        match items[i].array_at(&path_item_owner_thumbnails_segs()) {
            Some(thumbnails) => {
                return Some(parse_complete_thumbnails(thumbnails));
            },
            None => {},
        }
        i = i + 1;
    }
    None
}

fn video_count_exec(browse: &JsonValue) -> (r: Option<i32>)
    ensures
        r == video_count_of(*browse),
{
    match browse.array_at(&path_header_stats_runs_segs()) {
        Some(stats) => {
            if stats.len() > 0 {
                let t = stats[0].string_or_empty(&path_text_segs());
                parse_i32(t.as_str())
            } else {
                None
            }
        },
        None => parse_i32_opt(browse.str_ref_at(&path_sidebar_video_count_segs())),
    }
}

fn view_count_exec(browse: &JsonValue) -> (r: Option<i32>)
    ensures
        r == view_count_of(*browse),
{
    let text = match browse.str_ref_at(&path_header_view_count_segs()) {
        Some(t) => Some(t),
        None => browse.str_ref_at(&path_sidebar_view_count_segs()),
    };
    match text {
        Some(t) => number_from_digits(t),
        None => None,
    }
}

fn playlist_id_exec(browse: &JsonValue) -> (r: Option<String>)
    ensures
        r.deep_view() == match str_at(*browse, path_header_playlist_id()) {
            Some(id) => Some(id),
            None => match str_at(*browse, path_tracking_value()) {
                Some(v) => Some(tracked_playlist_id(v)),
                None => None,
            },
        },
{
    match browse.string_at(&path_header_playlist_id_segs()) {
        Some(id) => Some(id),
        None => match browse.str_ref_at(&path_tracking_value_segs()) {
            Some(v) => {
                assert(v.spec_bytes() == encode_utf8(v@));
                Some(substring(v, 2, v.len()))
            },
            None => None,
        },
    }
}

fn first_text(a: Option<String>, b: Option<String>) -> (r: Option<String>)
    ensures
        r.deep_view() == first_some(a.deep_view(), b.deep_view()),
{
    match a {
        Some(x) => Some(x),
        None => b,
    }
}

/// Whether a response has an `alerts` array with at least one alert.
pub open spec fn has_alerts(browse: JsonValue) -> bool {
    match alerts_of(browse) {
        Some(alerts) => alerts.len() > 0,
        None => false,
    }
}

/// The playlist of a `browse` response, or its alerts where its `alerts`
/// array has any. The update time is read with the month names of `lang`
/// from `month_map`.
pub fn parse(browse: &JsonValue, lang: &str, month_map: &JsonValue) -> (r: Result<Playlist, PlaylistError>)
    requires
        str_at(*browse, path_sidebar_updated()) is Some ==> months_readable(*month_map, lang),
    ensures
        match r {
            Ok(p) => !has_alerts(*browse) && p@ == playlist_of(*browse, lang, *month_map),
            Err(e) => has_alerts(*browse) && alerts_of(*browse) == Some(alerts_view(e.alerts@)),
        },
{
    match browse.array_at(&path_alerts_segs()) {
        Some(alerts) => if alerts.len() > 0 {
            let mut out: Vec<Alert> = Vec::new();
            let mut i: usize = 0;
            while i < alerts.len()
                invariant
                    i <= alerts@.len(),
                    out@.len() == i,
                    forall|k: int| 0 <= k < i ==> alert_view(#[trigger] out@[k]) == alert_of(alerts@[k]),
                decreases alerts@.len() - i,
            {
                out.push(parse_alert(&alerts[i]));
                i = i + 1;
            }
            assert(alerts_view(out@) =~= alerts@.map_values(|a: JsonValue| alert_of(a)));
            return Err(PlaylistError { alerts: out });
        } else {
            assert(!has_alerts(*browse));
        },
        None => {},
    }
    let author_thumbnails = match browse.array_at(&path_sidebar_items_segs()) {
        Some(items) => first_thumbnails(items),
        None => None,
    };
    let updated = match browse.str_ref_at(&path_sidebar_updated_segs()) {
        Some(date) => {
            let option = ParseDateOption::ParseFullDate(date.to_string());
            match parse_date_to_published(lang, &option, month_map) {
                Ok(t) => Some(t),
                Err(_) => None,
            }
        },
        None => None,
    };
    let is_listed = match browse.bool_at(&path_unlisted_segs()) {
        Some(u) => Some(!u),
        None => None,
    };
    Ok(Playlist {
        title: first_text(browse.string_at(&path_header_title_segs()), browse.string_at(&path_metadata_title_segs())),
        playlist_id: playlist_id_exec(browse),
        playlist_thumbnails: parse_opt_thumbnails(browse.array_at(&path_hero_thumbnails_segs())),
        author: first_text(browse.string_at(&path_owner_text_segs()), browse.string_at(&path_sidebar_owner_text_segs())),
        author_id: first_text(browse.string_at(&path_owner_browse_id_segs()), browse.string_at(&path_sidebar_owner_browse_id_segs())),
        author_url: first_text(browse.string_at(&path_owner_base_url_segs()), browse.string_at(&path_sidebar_owner_base_url_segs())),
        author_thumbnails,
        description: browse.string_at(&path_description_segs()),
        description_html: None,
        video_count: video_count_exec(browse),
        view_count: view_count_exec(browse),
        updated,
        is_listed,
        videos: parse_videos(browse),
    })
}

/// The last thumbnail of a non-empty list, or `null` where there is none.
pub open spec fn last_thumb_json(v: Option<Seq<(Seq<char>, i32, i32)>>) -> JsonView {
    match v {
        Some(t) => author_thumb_json(t.last()),
        None => JsonView::Null,
    }
}

/// The members of a playlist as the Invidious API writes it.
pub open spec fn playlist_members(p: PlaylistView) -> Seq<(Seq<char>, JsonView)> {
    seq![
        ("title"@, opt_text_json(p.title)),
        ("playlistId"@, opt_text_json(p.playlist_id)),
        ("playlistThumbnail"@, last_thumb_json(p.playlist_thumbnails)),
        ("author"@, opt_text_json(p.author)),
        ("authorId"@, opt_text_json(p.author_id)),
        ("authorUrl"@, JsonView::Str(channel_url(p.author_id))),
        ("authorThumbnails"@, opt_thumbs_json(p.author_thumbnails)),
        ("description"@, opt_text_json(p.description)),
        ("descriptionHtml"@, opt_text_json(p.description_html)),
        ("videoCount"@, opt_int_json(opt_i32_int(p.video_count))),
        ("viewCount"@, opt_int_json(opt_i32_int(p.view_count))),
        ("updated"@, opt_int_json(opt_i64_int(p.updated))),
        ("isListed"@, match p.is_listed {
            Some(b) => JsonView::Bool(b),
            None => JsonView::Null,
        }),
        ("videos"@, JsonView::Array(match p.videos {
            Some(v) => v.map_values(|x: PlaylistVideoView| playlist_video_inv(x)),
            None => Seq::empty(),
        })),
    ]
}

/// A playlist as the Invidious API writes it.
pub open spec fn playlist_inv(p: PlaylistView) -> JsonView {
    JsonView::Object(playlist_members(p))
}

fn videos_value(videos: &Option<Vec<PlaylistVideo>>) -> (r: JsonValue)
    ensures
        r.jv() == JsonView::Array(match videos {
            Some(v) => playlist_videos_view(v@).map_values(|x: PlaylistVideoView| playlist_video_inv(x)),
            None => Seq::empty(),
        }),
{
    let mut items: Vec<JsonValue> = Vec::new();
    match videos {
        Some(v) => {
            let mut i: usize = 0;
            while i < v.len()
                invariant
                    i <= v@.len(),
                    items@.len() == i,
                    forall|k: int| 0 <= k < i ==> (#[trigger] items@[k]).jv() == playlist_video_inv(v@[k]@),
                decreases v@.len() - i,
            {
                items.push(v[i].into_inv());
                i = i + 1;
            }
            proof {
                lemma_items_view(items@);
            }
            assert(items_view(items@) =~= playlist_videos_view(v@).map_values(|x: PlaylistVideoView| playlist_video_inv(x)));
        },
        None => {
            proof {
                lemma_items_view(items@);
            }
            assert(items_view(items@) =~= Seq::<JsonView>::empty());
        },
    }
    JsonValue::Array(items)
}

impl Playlist {
    /// The playlist as the Invidious API writes it; its thumbnail is the last
    /// of its thumbnails.
    #[verifier::rlimit(30)]
    pub fn into_inv(&self) -> (r: JsonValue)
        requires
            self.playlist_thumbnails matches Some(t) ==> t@.len() > 0,
        ensures
            r.jv() == playlist_inv(self@),
    {
        let thumbnail = match &self.playlist_thumbnails {
            Some(thumbnails) => {
                let last = author_thumb_value(&thumbnails[thumbnails.len() - 1]);
                assert(author_thumbs_view(thumbnails@).last() == author_thumb_view(thumbnails@[thumbnails@.len() - 1]));
                last
            },
            None => JsonValue::Null,
        };
        assert(thumbnail.jv() == last_thumb_json(self@.playlist_thumbnails));
        let listed = match self.is_listed {
            Some(b) => JsonValue::Bool(b),
            None => JsonValue::Null,
        };
        let mut obj = ObjectBuilder::new();
        obj.push("title", opt_text_value(&self.title));
        obj.push("playlistId", opt_text_value(&self.playlist_id));
        obj.push("playlistThumbnail", thumbnail);
        obj.push("author", opt_text_value(&self.author));
        obj.push("authorId", opt_text_value(&self.author_id));
        obj.push_text("authorUrl", channel_url_exec(&self.author_id));
        obj.push("authorThumbnails", opt_thumbs_value(&self.author_thumbnails));
        obj.push("description", opt_text_value(&self.description));
        obj.push("descriptionHtml", opt_text_value(&self.description_html));
        obj.push("videoCount", opt_i32_value(self.video_count));
        obj.push("viewCount", opt_i32_value(self.view_count));
        obj.push("updated", opt_int_value(self.updated));
        obj.push("isListed", listed);
        obj.push("videos", videos_value(&self.videos));
        assert(entries_view(obj.entries@) =~= playlist_members(self@));
        obj.into_value()
    }
}

/// The view count of a playlist is the number that the digits of its view
/// count text write: the header's text where it has one, else the text of
/// the second statistic in the sidebar.
pub proof fn lemma_playlist_view_count(browse: JsonValue, lang: &str, month_map: JsonValue, t: Seq<char>)
    requires
        str_at(browse, seq![Seg::Key("header"), Seg::Key("playlistHeaderRenderer"), Seg::Key("viewCountText"), Seg::Key("simpleText")]) == Some(t)
            || (str_at(browse, seq![Seg::Key("header"), Seg::Key("playlistHeaderRenderer"), Seg::Key("viewCountText"), Seg::Key("simpleText")]) is None && str_at(browse, seq![Seg::Key("sidebar"), Seg::Key("playlistSidebarRenderer"), Seg::Key("items"), Seg::Idx(0), Seg::Key("playlistSidebarPrimaryInfoRenderer"), Seg::Key("stats"), Seg::Idx(1), Seg::Key("simpleText")]) == Some(t)),
    ensures
        playlist_of(browse, lang, month_map).view_count == match digits_number(t) {
            Some(n) => Some(n as i32),
            None => None,
        },
{
}

} // verus!
