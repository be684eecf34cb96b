//! Reading video information from the web client's `next` and `player` responses.
use vstd::prelude::*;
use crate::json::{
    lemma_view_get_append, has_member, lemma_with_member_reads, array_at, bool_at, entries_view, follow, items_view, lemma_items_view, i64_at, i64_or_zero, int_value, int_view,
    opt_int_member, opt_text_member, str_at, str_or_empty, JsonValue, JsonView, ObjectBuilder, Seg,
    bool_jv, bool_value, i32_value, i64_value, int_jv, lemma_with_member_keeps, lemma_with_member_keeps_all, lemma_with_member_other, opt_jv, strs_value, text_jv,
    text_value, texts_jv, texts_value, view_get, with_member,
};
use crate::bindings::{
    capture, capture_group, captures, concat_all, find_all, percent_decoded, regex_replace_first, replace_first, url_decode, url_encode, percent_encode_bytes, date_timestamp, regex_captures, joined_matches, parse_date_timestamp, regex_find_all,
};
use crate::text::{
    cat, cat3, decimal, int_to_string, usize_to_string, parse_i32, parse_int_between, parse_i64, parse_int_in, replace, replace_all, split,
    split_all, str_eq, strings_view, contains, lemma_split_all_len, str_contains, trim, trimmed,
};

use crate::constants::{SHORT_WEBSITE_BASE_URL, WEBSITE_BASE_URL};
use crate::parsers::ciphers::{
    cipher_url_decodable, create_formatable_decipher_js_code, executable_code,
    format_decipher_code_into_executable, formatable_decipher_js_code, is_cipher_url_decodable,
    quote_regex_literals, quoted_js_code,
};
use vstd::utf8::encode_utf8;
use crate::helpers::{utf16_slice_text, UTF16Substring};
use crate::utf16::{encode_utf16, lemma_utf16_roundtrip, string_from_utf16, utf16_encode};

verus! {

// ---------------------------------------------------------------------------
// Paths into the responses

pub open spec fn path_title_primary() -> Seq<Seg<'static>> {
    seq![Seg::Key("contents"), Seg::Key("twoColumnWatchNextResults"), Seg::Key("results"), Seg::Key("results"), Seg::Key("contents"), Seg::Idx(0), Seg::Key("videoPrimaryInfoRenderer"), Seg::Key("title"), Seg::Key("runs"), Seg::Idx(0), Seg::Key("text")]
}

fn path_title_primary_segs() -> (r: [Seg<'static>; 11])
    ensures
        r@ == path_title_primary(),
{
    [Seg::Key("contents"), Seg::Key("twoColumnWatchNextResults"), Seg::Key("results"), Seg::Key("results"), Seg::Key("contents"), Seg::Idx(0), Seg::Key("videoPrimaryInfoRenderer"), Seg::Key("title"), Seg::Key("runs"), Seg::Idx(0), Seg::Key("text")]
}

pub open spec fn path_details_title() -> Seq<Seg<'static>> {
    seq![Seg::Key("videoDetails"), Seg::Key("title")]
}

fn path_details_title_segs() -> (r: [Seg<'static>; 2])
    ensures
        r@ == path_details_title(),
{
    [Seg::Key("videoDetails"), Seg::Key("title")]
}

pub open spec fn path_current_video_id() -> Seq<Seg<'static>> {
    seq![Seg::Key("currentVideoEndpoint"), Seg::Key("watchEndpoint"), Seg::Key("videoId")]
}

fn path_current_video_id_segs() -> (r: [Seg<'static>; 3])
    ensures
        r@ == path_current_video_id(),
{
    [Seg::Key("currentVideoEndpoint"), Seg::Key("watchEndpoint"), Seg::Key("videoId")]
}

pub open spec fn path_attributed_content() -> Seq<Seg<'static>> {
    seq![Seg::Key("contents"), Seg::Key("twoColumnWatchNextResults"), Seg::Key("results"), Seg::Key("results"), Seg::Key("contents"), Seg::Idx(1), Seg::Key("videoSecondaryInfoRenderer"), Seg::Key("attributedDescription"), Seg::Key("content")]
}

fn path_attributed_content_segs() -> (r: [Seg<'static>; 9])
    ensures
        r@ == path_attributed_content(),
{
    [Seg::Key("contents"), Seg::Key("twoColumnWatchNextResults"), Seg::Key("results"), Seg::Key("results"), Seg::Key("contents"), Seg::Idx(1), Seg::Key("videoSecondaryInfoRenderer"), Seg::Key("attributedDescription"), Seg::Key("content")]
}

pub open spec fn path_details_short_description() -> Seq<Seg<'static>> {
    seq![Seg::Key("videoDetails"), Seg::Key("shortDescription")]
}

fn path_details_short_description_segs() -> (r: [Seg<'static>; 2])
    ensures
        r@ == path_details_short_description(),
{
    [Seg::Key("videoDetails"), Seg::Key("shortDescription")]
}

pub open spec fn path_date_text() -> Seq<Seg<'static>> {
    seq![Seg::Key("contents"), Seg::Key("twoColumnWatchNextResults"), Seg::Key("results"), Seg::Key("results"), Seg::Key("contents"), Seg::Idx(0), Seg::Key("videoPrimaryInfoRenderer"), Seg::Key("dateText"), Seg::Key("simpleText")]
}

fn path_date_text_segs() -> (r: [Seg<'static>; 9])
    ensures
        r@ == path_date_text(),
{
    [Seg::Key("contents"), Seg::Key("twoColumnWatchNextResults"), Seg::Key("results"), Seg::Key("results"), Seg::Key("contents"), Seg::Idx(0), Seg::Key("videoPrimaryInfoRenderer"), Seg::Key("dateText"), Seg::Key("simpleText")]
}

pub open spec fn path_panels() -> Seq<Seg<'static>> {
    seq![Seg::Key("engagementPanels")]
}

fn path_panels_segs() -> (r: [Seg<'static>; 1])
    ensures
        r@ == path_panels(),
{
    [Seg::Key("engagementPanels")]
}

pub open spec fn path_publish_date() -> Seq<Seg<'static>> {
    seq![Seg::Key("microformat"), Seg::Key("playerMicroformatRenderer"), Seg::Key("publishDate")]
}

fn path_publish_date_segs() -> (r: [Seg<'static>; 3])
    ensures
        r@ == path_publish_date(),
{
    [Seg::Key("microformat"), Seg::Key("playerMicroformatRenderer"), Seg::Key("publishDate")]
}

pub open spec fn path_relative_date_text() -> Seq<Seg<'static>> {
    seq![Seg::Key("contents"), Seg::Key("twoColumnWatchNextResults"), Seg::Key("results"), Seg::Key("results"), Seg::Key("contents"), Seg::Idx(0), Seg::Key("videoPrimaryInfoRenderer"), Seg::Key("relativeDateText"), Seg::Key("simpleText")]
}

fn path_relative_date_text_segs() -> (r: [Seg<'static>; 9])
    ensures
        r@ == path_relative_date_text(),
{
    [Seg::Key("contents"), Seg::Key("twoColumnWatchNextResults"), Seg::Key("results"), Seg::Key("results"), Seg::Key("contents"), Seg::Idx(0), Seg::Key("videoPrimaryInfoRenderer"), Seg::Key("relativeDateText"), Seg::Key("simpleText")]
}

pub open spec fn path_details_keywords() -> Seq<Seg<'static>> {
    seq![Seg::Key("videoDetails"), Seg::Key("keywords")]
}

fn path_details_keywords_segs() -> (r: [Seg<'static>; 2])
    ensures
        r@ == path_details_keywords(),
{
    [Seg::Key("videoDetails"), Seg::Key("keywords")]
}

pub open spec fn path_available_countries() -> Seq<Seg<'static>> {
    seq![Seg::Key("microformat"), Seg::Key("playerMicroformatRenderer"), Seg::Key("availableCountries")]
}

fn path_available_countries_segs() -> (r: [Seg<'static>; 3])
    ensures
        r@ == path_available_countries(),
{
    [Seg::Key("microformat"), Seg::Key("playerMicroformatRenderer"), Seg::Key("availableCountries")]
}

pub open spec fn path_views_simple() -> Seq<Seg<'static>> {
    seq![Seg::Key("contents"), Seg::Key("twoColumnWatchNextResults"), Seg::Key("results"), Seg::Key("results"), Seg::Key("contents"), Seg::Idx(0), Seg::Key("videoPrimaryInfoRenderer"), Seg::Key("viewCount"), Seg::Key("videoViewCountRenderer"), Seg::Key("viewCount"), Seg::Key("simpleText")]
}

fn path_views_simple_segs() -> (r: [Seg<'static>; 11])
    ensures
        r@ == path_views_simple(),
{
    [Seg::Key("contents"), Seg::Key("twoColumnWatchNextResults"), Seg::Key("results"), Seg::Key("results"), Seg::Key("contents"), Seg::Idx(0), Seg::Key("videoPrimaryInfoRenderer"), Seg::Key("viewCount"), Seg::Key("videoViewCountRenderer"), Seg::Key("viewCount"), Seg::Key("simpleText")]
}

pub open spec fn path_views_runs() -> Seq<Seg<'static>> {
    seq![Seg::Key("contents"), Seg::Key("twoColumnWatchNextResults"), Seg::Key("results"), Seg::Key("results"), Seg::Key("contents"), Seg::Idx(0), Seg::Key("videoPrimaryInfoRenderer"), Seg::Key("viewCount"), Seg::Key("videoViewCountRenderer"), Seg::Key("viewCount"), Seg::Key("runs"), Seg::Idx(0), Seg::Key("text")]
}

fn path_views_runs_segs() -> (r: [Seg<'static>; 13])
    ensures
        r@ == path_views_runs(),
{
    [Seg::Key("contents"), Seg::Key("twoColumnWatchNextResults"), Seg::Key("results"), Seg::Key("results"), Seg::Key("contents"), Seg::Idx(0), Seg::Key("videoPrimaryInfoRenderer"), Seg::Key("viewCount"), Seg::Key("videoViewCountRenderer"), Seg::Key("viewCount"), Seg::Key("runs"), Seg::Idx(0), Seg::Key("text")]
}

pub open spec fn path_details_view_count() -> Seq<Seg<'static>> {
    seq![Seg::Key("videoDetails"), Seg::Key("viewCount")]
}

fn path_details_view_count_segs() -> (r: [Seg<'static>; 2])
    ensures
        r@ == path_details_view_count(),
{
    [Seg::Key("videoDetails"), Seg::Key("viewCount")]
}

pub open spec fn path_like_label() -> Seq<Seg<'static>> {
    seq![Seg::Key("contents"), Seg::Key("twoColumnWatchNextResults"), Seg::Key("results"), Seg::Key("results"), Seg::Key("contents"), Seg::Idx(0), Seg::Key("videoPrimaryInfoRenderer"), Seg::Key("videoActions"), Seg::Key("menuRenderer"), Seg::Key("topLevelButtons"), Seg::Idx(0), Seg::Key("segmentedLikeDislikeButtonRenderer"), Seg::Key("likeButton"), Seg::Key("toggleButtonRenderer"), Seg::Key("defaultText"), Seg::Key("accessibility"), Seg::Key("accessibilityData"), Seg::Key("label")]
}

fn path_like_label_segs() -> (r: [Seg<'static>; 18])
    ensures
        r@ == path_like_label(),
{
    [Seg::Key("contents"), Seg::Key("twoColumnWatchNextResults"), Seg::Key("results"), Seg::Key("results"), Seg::Key("contents"), Seg::Idx(0), Seg::Key("videoPrimaryInfoRenderer"), Seg::Key("videoActions"), Seg::Key("menuRenderer"), Seg::Key("topLevelButtons"), Seg::Idx(0), Seg::Key("segmentedLikeDislikeButtonRenderer"), Seg::Key("likeButton"), Seg::Key("toggleButtonRenderer"), Seg::Key("defaultText"), Seg::Key("accessibility"), Seg::Key("accessibilityData"), Seg::Key("label")]
}

pub open spec fn path_factoid2_value() -> Seq<Seg<'static>> {
    seq![Seg::Key("engagementPanelSectionListRenderer"), Seg::Key("content"), Seg::Key("structuredDescriptionContentRenderer"), Seg::Key("items"), Seg::Idx(0), Seg::Key("videoDescriptionHeaderRenderer"), Seg::Key("factoid"), Seg::Idx(2), Seg::Key("factoidRenderer"), Seg::Key("value"), Seg::Key("simpleText")]
}

fn path_factoid2_value_segs() -> (r: [Seg<'static>; 11])
    ensures
        r@ == path_factoid2_value(),
{
    [Seg::Key("engagementPanelSectionListRenderer"), Seg::Key("content"), Seg::Key("structuredDescriptionContentRenderer"), Seg::Key("items"), Seg::Idx(0), Seg::Key("videoDescriptionHeaderRenderer"), Seg::Key("factoid"), Seg::Idx(2), Seg::Key("factoidRenderer"), Seg::Key("value"), Seg::Key("simpleText")]
}

pub open spec fn path_factoid2_label() -> Seq<Seg<'static>> {
    seq![Seg::Key("engagementPanelSectionListRenderer"), Seg::Key("content"), Seg::Key("structuredDescriptionContentRenderer"), Seg::Key("items"), Seg::Idx(0), Seg::Key("videoDescriptionHeaderRenderer"), Seg::Key("factoid"), Seg::Idx(2), Seg::Key("factoidRenderer"), Seg::Key("label"), Seg::Key("simpleText")]
}

fn path_factoid2_label_segs() -> (r: [Seg<'static>; 11])
    ensures
        r@ == path_factoid2_label(),
{
    [Seg::Key("engagementPanelSectionListRenderer"), Seg::Key("content"), Seg::Key("structuredDescriptionContentRenderer"), Seg::Key("items"), Seg::Idx(0), Seg::Key("videoDescriptionHeaderRenderer"), Seg::Key("factoid"), Seg::Idx(2), Seg::Key("factoidRenderer"), Seg::Key("label"), Seg::Key("simpleText")]
}

pub open spec fn path_factoid_f_value(f: usize) -> Seq<Seg<'static>> {
    seq![Seg::Key("engagementPanelSectionListRenderer"), Seg::Key("content"), Seg::Key("structuredDescriptionContentRenderer"), Seg::Key("items"), Seg::Idx(0), Seg::Key("videoDescriptionHeaderRenderer"), Seg::Key("factoid"), Seg::Idx(f), Seg::Key("factoidRenderer"), Seg::Key("value"), Seg::Key("simpleText")]
}

fn path_factoid_f_value_segs(f: usize) -> (r: [Seg<'static>; 11])
    ensures
        r@ == path_factoid_f_value(f),
{
    [Seg::Key("engagementPanelSectionListRenderer"), Seg::Key("content"), Seg::Key("structuredDescriptionContentRenderer"), Seg::Key("items"), Seg::Idx(0), Seg::Key("videoDescriptionHeaderRenderer"), Seg::Key("factoid"), Seg::Idx(f), Seg::Key("factoidRenderer"), Seg::Key("value"), Seg::Key("simpleText")]
}

pub open spec fn path_author_runs() -> Seq<Seg<'static>> {
    seq![Seg::Key("contents"), Seg::Key("twoColumnWatchNextResults"), Seg::Key("results"), Seg::Key("results"), Seg::Key("contents"), Seg::Idx(1), Seg::Key("videoSecondaryInfoRenderer"), Seg::Key("owner"), Seg::Key("videoOwnerRenderer"), Seg::Key("title"), Seg::Key("runs"), Seg::Idx(0), Seg::Key("text")]
}

fn path_author_runs_segs() -> (r: [Seg<'static>; 13])
    ensures
        r@ == path_author_runs(),
{
    [Seg::Key("contents"), Seg::Key("twoColumnWatchNextResults"), Seg::Key("results"), Seg::Key("results"), Seg::Key("contents"), Seg::Idx(1), Seg::Key("videoSecondaryInfoRenderer"), Seg::Key("owner"), Seg::Key("videoOwnerRenderer"), Seg::Key("title"), Seg::Key("runs"), Seg::Idx(0), Seg::Key("text")]
}

pub open spec fn path_details_author() -> Seq<Seg<'static>> {
    seq![Seg::Key("videoDetails"), Seg::Key("author")]
}

fn path_details_author_segs() -> (r: [Seg<'static>; 2])
    ensures
        r@ == path_details_author(),
{
    [Seg::Key("videoDetails"), Seg::Key("author")]
}

pub open spec fn path_author_browse_id() -> Seq<Seg<'static>> {
    seq![Seg::Key("contents"), Seg::Key("twoColumnWatchNextResults"), Seg::Key("results"), Seg::Key("results"), Seg::Key("contents"), Seg::Idx(1), Seg::Key("videoSecondaryInfoRenderer"), Seg::Key("owner"), Seg::Key("videoOwnerRenderer"), Seg::Key("title"), Seg::Key("runs"), Seg::Idx(0), Seg::Key("navigationEndpoint"), Seg::Key("browseEndpoint"), Seg::Key("browseId")]
}

fn path_author_browse_id_segs() -> (r: [Seg<'static>; 15])
    ensures
        r@ == path_author_browse_id(),
{
    [Seg::Key("contents"), Seg::Key("twoColumnWatchNextResults"), Seg::Key("results"), Seg::Key("results"), Seg::Key("contents"), Seg::Idx(1), Seg::Key("videoSecondaryInfoRenderer"), Seg::Key("owner"), Seg::Key("videoOwnerRenderer"), Seg::Key("title"), Seg::Key("runs"), Seg::Idx(0), Seg::Key("navigationEndpoint"), Seg::Key("browseEndpoint"), Seg::Key("browseId")]
}

pub open spec fn path_details_channel_id() -> Seq<Seg<'static>> {
    seq![Seg::Key("videoDetails"), Seg::Key("channelId")]
}

fn path_details_channel_id_segs() -> (r: [Seg<'static>; 2])
    ensures
        r@ == path_details_channel_id(),
{
    [Seg::Key("videoDetails"), Seg::Key("channelId")]
}

pub open spec fn path_author_thumbnails() -> Seq<Seg<'static>> {
    seq![Seg::Key("contents"), Seg::Key("twoColumnWatchNextResults"), Seg::Key("results"), Seg::Key("results"), Seg::Key("contents"), Seg::Idx(1), Seg::Key("videoSecondaryInfoRenderer"), Seg::Key("owner"), Seg::Key("videoOwnerRenderer"), Seg::Key("thumbnail"), Seg::Key("thumbnails")]
}

fn path_author_thumbnails_segs() -> (r: [Seg<'static>; 11])
    ensures
        r@ == path_author_thumbnails(),
{
    [Seg::Key("contents"), Seg::Key("twoColumnWatchNextResults"), Seg::Key("results"), Seg::Key("results"), Seg::Key("contents"), Seg::Idx(1), Seg::Key("videoSecondaryInfoRenderer"), Seg::Key("owner"), Seg::Key("videoOwnerRenderer"), Seg::Key("thumbnail"), Seg::Key("thumbnails")]
}

pub open spec fn path_url() -> Seq<Seg<'static>> {
    seq![Seg::Key("url")]
}

fn path_url_segs() -> (r: [Seg<'static>; 1])
    ensures
        r@ == path_url(),
{
    [Seg::Key("url")]
}

pub open spec fn path_width() -> Seq<Seg<'static>> {
    seq![Seg::Key("width")]
}

fn path_width_segs() -> (r: [Seg<'static>; 1])
    ensures
        r@ == path_width(),
{
    [Seg::Key("width")]
}

pub open spec fn path_height() -> Seq<Seg<'static>> {
    seq![Seg::Key("height")]
}

fn path_height_segs() -> (r: [Seg<'static>; 1])
    ensures
        r@ == path_height(),
{
    [Seg::Key("height")]
}

pub open spec fn path_sub_count_simple() -> Seq<Seg<'static>> {
    seq![Seg::Key("contents"), Seg::Key("twoColumnWatchNextResults"), Seg::Key("results"), Seg::Key("results"), Seg::Key("contents"), Seg::Idx(1), Seg::Key("videoSecondaryInfoRenderer"), Seg::Key("owner"), Seg::Key("videoOwnerRenderer"), Seg::Key("subscriberCountText"), Seg::Key("simpleText")]
}

fn path_sub_count_simple_segs() -> (r: [Seg<'static>; 11])
    ensures
        r@ == path_sub_count_simple(),
{
    [Seg::Key("contents"), Seg::Key("twoColumnWatchNextResults"), Seg::Key("results"), Seg::Key("results"), Seg::Key("contents"), Seg::Idx(1), Seg::Key("videoSecondaryInfoRenderer"), Seg::Key("owner"), Seg::Key("videoOwnerRenderer"), Seg::Key("subscriberCountText"), Seg::Key("simpleText")]
}

pub open spec fn path_details_length_seconds() -> Seq<Seg<'static>> {
    seq![Seg::Key("videoDetails"), Seg::Key("lengthSeconds")]
}

fn path_details_length_seconds_segs() -> (r: [Seg<'static>; 2])
    ensures
        r@ == path_details_length_seconds(),
{
    [Seg::Key("videoDetails"), Seg::Key("lengthSeconds")]
}

pub open spec fn path_details_allow_ratings() -> Seq<Seg<'static>> {
    seq![Seg::Key("videoDetails"), Seg::Key("allowRatings")]
}

fn path_details_allow_ratings_segs() -> (r: [Seg<'static>; 2])
    ensures
        r@ == path_details_allow_ratings(),
{
    [Seg::Key("videoDetails"), Seg::Key("allowRatings")]
}

pub open spec fn path_badges() -> Seq<Seg<'static>> {
    seq![Seg::Key("contents"), Seg::Key("twoColumnWatchNextResults"), Seg::Key("results"), Seg::Key("results"), Seg::Key("contents"), Seg::Idx(0), Seg::Key("videoPrimaryInfoRenderer"), Seg::Key("badges")]
}

fn path_badges_segs() -> (r: [Seg<'static>; 8])
    ensures
        r@ == path_badges(),
{
    [Seg::Key("contents"), Seg::Key("twoColumnWatchNextResults"), Seg::Key("results"), Seg::Key("results"), Seg::Key("contents"), Seg::Idx(0), Seg::Key("videoPrimaryInfoRenderer"), Seg::Key("badges")]
}

pub open spec fn path_badge_icon_type() -> Seq<Seg<'static>> {
    seq![Seg::Key("metadataBadgeRenderer"), Seg::Key("icon"), Seg::Key("iconType")]
}

fn path_badge_icon_type_segs() -> (r: [Seg<'static>; 3])
    ensures
        r@ == path_badge_icon_type(),
{
    [Seg::Key("metadataBadgeRenderer"), Seg::Key("icon"), Seg::Key("iconType")]
}

pub open spec fn path_details_is_crawlable() -> Seq<Seg<'static>> {
    seq![Seg::Key("videoDetails"), Seg::Key("isCrawlable")]
}

fn path_details_is_crawlable_segs() -> (r: [Seg<'static>; 2])
    ensures
        r@ == path_details_is_crawlable(),
{
    [Seg::Key("videoDetails"), Seg::Key("isCrawlable")]
}

pub open spec fn path_is_live() -> Seq<Seg<'static>> {
    seq![Seg::Key("contents"), Seg::Key("twoColumnWatchNextResults"), Seg::Key("results"), Seg::Key("results"), Seg::Key("contents"), Seg::Idx(0), Seg::Key("videoPrimaryInfoRenderer"), Seg::Key("viewCount"), Seg::Key("videoViewCountRenderer"), Seg::Key("isLive")]
}

fn path_is_live_segs() -> (r: [Seg<'static>; 10])
    ensures
        r@ == path_is_live(),
{
    [Seg::Key("contents"), Seg::Key("twoColumnWatchNextResults"), Seg::Key("results"), Seg::Key("results"), Seg::Key("contents"), Seg::Idx(0), Seg::Key("videoPrimaryInfoRenderer"), Seg::Key("viewCount"), Seg::Key("videoViewCountRenderer"), Seg::Key("isLive")]
}

pub open spec fn path_details_is_live_content() -> Seq<Seg<'static>> {
    seq![Seg::Key("videoDetails"), Seg::Key("isLiveContent")]
}

fn path_details_is_live_content_segs() -> (r: [Seg<'static>; 2])
    ensures
        r@ == path_details_is_live_content(),
{
    [Seg::Key("videoDetails"), Seg::Key("isLiveContent")]
}

pub open spec fn path_dash_url() -> Seq<Seg<'static>> {
    seq![Seg::Key("streamingData"), Seg::Key("dashManifestUrl")]
}

fn path_dash_url_segs() -> (r: [Seg<'static>; 2])
    ensures
        r@ == path_dash_url(),
{
    [Seg::Key("streamingData"), Seg::Key("dashManifestUrl")]
}

pub open spec fn path_hls_url() -> Seq<Seg<'static>> {
    seq![Seg::Key("streamingData"), Seg::Key("hlsManifestUrl")]
}

fn path_hls_url_segs() -> (r: [Seg<'static>; 2])
    ensures
        r@ == path_hls_url(),
{
    [Seg::Key("streamingData"), Seg::Key("hlsManifestUrl")]
}

pub open spec fn path_is_family_safe() -> Seq<Seg<'static>> {
    seq![Seg::Key("microformat"), Seg::Key("playerMicroformatRenderer"), Seg::Key("isFamilySafe")]
}

fn path_is_family_safe_segs() -> (r: [Seg<'static>; 3])
    ensures
        r@ == path_is_family_safe(),
{
    [Seg::Key("microformat"), Seg::Key("playerMicroformatRenderer"), Seg::Key("isFamilySafe")]
}

pub open spec fn path_category() -> Seq<Seg<'static>> {
    seq![Seg::Key("microformat"), Seg::Key("playerMicroformatRenderer"), Seg::Key("category")]
}

fn path_category_segs() -> (r: [Seg<'static>; 3])
    ensures
        r@ == path_category(),
{
    [Seg::Key("microformat"), Seg::Key("playerMicroformatRenderer"), Seg::Key("category")]
}

pub open spec fn path_formats() -> Seq<Seg<'static>> {
    seq![Seg::Key("streamingData"), Seg::Key("formats")]
}

fn path_formats_segs() -> (r: [Seg<'static>; 2])
    ensures
        r@ == path_formats(),
{
    [Seg::Key("streamingData"), Seg::Key("formats")]
}

pub open spec fn path_adaptive_formats() -> Seq<Seg<'static>> {
    seq![Seg::Key("streamingData"), Seg::Key("adaptiveFormats")]
}

fn path_adaptive_formats_segs() -> (r: [Seg<'static>; 2])
    ensures
        r@ == path_adaptive_formats(),
{
    [Seg::Key("streamingData"), Seg::Key("adaptiveFormats")]
}

pub open spec fn path_signature_cipher() -> Seq<Seg<'static>> {
    seq![Seg::Key("signatureCipher")]
}

fn path_signature_cipher_segs() -> (r: [Seg<'static>; 1])
    ensures
        r@ == path_signature_cipher(),
{
    [Seg::Key("signatureCipher")]
}

pub open spec fn path_itag() -> Seq<Seg<'static>> {
    seq![Seg::Key("itag")]
}

fn path_itag_segs() -> (r: [Seg<'static>; 1])
    ensures
        r@ == path_itag(),
{
    [Seg::Key("itag")]
}

pub open spec fn path_mime_type() -> Seq<Seg<'static>> {
    seq![Seg::Key("mimeType")]
}

fn path_mime_type_segs() -> (r: [Seg<'static>; 1])
    ensures
        r@ == path_mime_type(),
{
    [Seg::Key("mimeType")]
}

pub open spec fn path_bitrate() -> Seq<Seg<'static>> {
    seq![Seg::Key("bitrate")]
}

fn path_bitrate_segs() -> (r: [Seg<'static>; 1])
    ensures
        r@ == path_bitrate(),
{
    [Seg::Key("bitrate")]
}

pub open spec fn path_last_modified() -> Seq<Seg<'static>> {
    seq![Seg::Key("lastModified")]
}

fn path_last_modified_segs() -> (r: [Seg<'static>; 1])
    ensures
        r@ == path_last_modified(),
{
    [Seg::Key("lastModified")]
}

pub open spec fn path_quality() -> Seq<Seg<'static>> {
    seq![Seg::Key("quality")]
}

fn path_quality_segs() -> (r: [Seg<'static>; 1])
    ensures
        r@ == path_quality(),
{
    [Seg::Key("quality")]
}

pub open spec fn path_fps() -> Seq<Seg<'static>> {
    seq![Seg::Key("fps")]
}

fn path_fps_segs() -> (r: [Seg<'static>; 1])
    ensures
        r@ == path_fps(),
{
    [Seg::Key("fps")]
}

pub open spec fn path_quality_label() -> Seq<Seg<'static>> {
    seq![Seg::Key("qualityLabel")]
}

fn path_quality_label_segs() -> (r: [Seg<'static>; 1])
    ensures
        r@ == path_quality_label(),
{
    [Seg::Key("qualityLabel")]
}

pub open spec fn path_projection_type() -> Seq<Seg<'static>> {
    seq![Seg::Key("projectionType")]
}

fn path_projection_type_segs() -> (r: [Seg<'static>; 1])
    ensures
        r@ == path_projection_type(),
{
    [Seg::Key("projectionType")]
}

pub open spec fn path_audio_quality() -> Seq<Seg<'static>> {
    seq![Seg::Key("audioQuality")]
}

fn path_audio_quality_segs() -> (r: [Seg<'static>; 1])
    ensures
        r@ == path_audio_quality(),
{
    [Seg::Key("audioQuality")]
}

pub open spec fn path_approx_duration_ms() -> Seq<Seg<'static>> {
    seq![Seg::Key("approxDurationMs")]
}

fn path_approx_duration_ms_segs() -> (r: [Seg<'static>; 1])
    ensures
        r@ == path_approx_duration_ms(),
{
    [Seg::Key("approxDurationMs")]
}

pub open spec fn path_audio_sample_rate() -> Seq<Seg<'static>> {
    seq![Seg::Key("audioSampleRate")]
}

fn path_audio_sample_rate_segs() -> (r: [Seg<'static>; 1])
    ensures
        r@ == path_audio_sample_rate(),
{
    [Seg::Key("audioSampleRate")]
}

pub open spec fn path_audio_channels() -> Seq<Seg<'static>> {
    seq![Seg::Key("audioChannels")]
}

fn path_audio_channels_segs() -> (r: [Seg<'static>; 1])
    ensures
        r@ == path_audio_channels(),
{
    [Seg::Key("audioChannels")]
}

pub open spec fn path_init_start() -> Seq<Seg<'static>> {
    seq![Seg::Key("initRange"), Seg::Key("start")]
}

fn path_init_start_segs() -> (r: [Seg<'static>; 2])
    ensures
        r@ == path_init_start(),
{
    [Seg::Key("initRange"), Seg::Key("start")]
}

pub open spec fn path_init_end() -> Seq<Seg<'static>> {
    seq![Seg::Key("initRange"), Seg::Key("end")]
}

fn path_init_end_segs() -> (r: [Seg<'static>; 2])
    ensures
        r@ == path_init_end(),
{
    [Seg::Key("initRange"), Seg::Key("end")]
}

pub open spec fn path_index_start() -> Seq<Seg<'static>> {
    seq![Seg::Key("indexRange"), Seg::Key("start")]
}

fn path_index_start_segs() -> (r: [Seg<'static>; 2])
    ensures
        r@ == path_index_start(),
{
    [Seg::Key("indexRange"), Seg::Key("start")]
}

pub open spec fn path_index_end() -> Seq<Seg<'static>> {
    seq![Seg::Key("indexRange"), Seg::Key("end")]
}

fn path_index_end_segs() -> (r: [Seg<'static>; 2])
    ensures
        r@ == path_index_end(),
{
    [Seg::Key("indexRange"), Seg::Key("end")]
}

pub open spec fn path_content_length() -> Seq<Seg<'static>> {
    seq![Seg::Key("contentLength")]
}

fn path_content_length_segs() -> (r: [Seg<'static>; 1])
    ensures
        r@ == path_content_length(),
{
    [Seg::Key("contentLength")]
}

pub open spec fn path_average_bitrate() -> Seq<Seg<'static>> {
    seq![Seg::Key("averageBitrate")]
}

fn path_average_bitrate_segs() -> (r: [Seg<'static>; 1])
    ensures
        r@ == path_average_bitrate(),
{
    [Seg::Key("averageBitrate")]
}

pub open spec fn path_chapters() -> Seq<Seg<'static>> {
    seq![Seg::Key("playerOverlays"), Seg::Key("playerOverlayRenderer"), Seg::Key("decoratedPlayerBarRenderer"), Seg::Key("decoratedPlayerBarRenderer"), Seg::Key("playerBar"), Seg::Key("multiMarkersPlayerBarRenderer"), Seg::Key("markersMap"), Seg::Idx(0), Seg::Key("value"), Seg::Key("chapters")]
}

fn path_chapters_segs() -> (r: [Seg<'static>; 10])
    ensures
        r@ == path_chapters(),
{
    [Seg::Key("playerOverlays"), Seg::Key("playerOverlayRenderer"), Seg::Key("decoratedPlayerBarRenderer"), Seg::Key("decoratedPlayerBarRenderer"), Seg::Key("playerBar"), Seg::Key("multiMarkersPlayerBarRenderer"), Seg::Key("markersMap"), Seg::Idx(0), Seg::Key("value"), Seg::Key("chapters")]
}

pub open spec fn path_chapter_title() -> Seq<Seg<'static>> {
    seq![Seg::Key("chapterRenderer"), Seg::Key("title"), Seg::Key("simpleText")]
}

fn path_chapter_title_segs() -> (r: [Seg<'static>; 3])
    ensures
        r@ == path_chapter_title(),
{
    [Seg::Key("chapterRenderer"), Seg::Key("title"), Seg::Key("simpleText")]
}

pub open spec fn path_chapter_start() -> Seq<Seg<'static>> {
    seq![Seg::Key("chapterRenderer"), Seg::Key("timeRangeStartMillis")]
}

fn path_chapter_start_segs() -> (r: [Seg<'static>; 2])
    ensures
        r@ == path_chapter_start(),
{
    [Seg::Key("chapterRenderer"), Seg::Key("timeRangeStartMillis")]
}

pub open spec fn path_chapter_thumbnails() -> Seq<Seg<'static>> {
    seq![Seg::Key("chapterRenderer"), Seg::Key("thumbnail"), Seg::Key("thumbnails")]
}

fn path_chapter_thumbnails_segs() -> (r: [Seg<'static>; 3])
    ensures
        r@ == path_chapter_thumbnails(),
{
    [Seg::Key("chapterRenderer"), Seg::Key("thumbnail"), Seg::Key("thumbnails")]
}

pub open spec fn path_caption_tracks() -> Seq<Seg<'static>> {
    seq![Seg::Key("captions"), Seg::Key("playerCaptionsTracklistRenderer"), Seg::Key("captionTracks")]
}

fn path_caption_tracks_segs() -> (r: [Seg<'static>; 3])
    ensures
        r@ == path_caption_tracks(),
{
    [Seg::Key("captions"), Seg::Key("playerCaptionsTracklistRenderer"), Seg::Key("captionTracks")]
}

pub open spec fn path_caption_name() -> Seq<Seg<'static>> {
    seq![Seg::Key("name"), Seg::Key("simpleText")]
}

fn path_caption_name_segs() -> (r: [Seg<'static>; 2])
    ensures
        r@ == path_caption_name(),
{
    [Seg::Key("name"), Seg::Key("simpleText")]
}

pub open spec fn path_language_code() -> Seq<Seg<'static>> {
    seq![Seg::Key("languageCode")]
}

fn path_language_code_segs() -> (r: [Seg<'static>; 1])
    ensures
        r@ == path_language_code(),
{
    [Seg::Key("languageCode")]
}

pub open spec fn path_base_url() -> Seq<Seg<'static>> {
    seq![Seg::Key("baseUrl")]
}

fn path_base_url_segs() -> (r: [Seg<'static>; 1])
    ensures
        r@ == path_base_url(),
{
    [Seg::Key("baseUrl")]
}

pub open spec fn path_recommended() -> Seq<Seg<'static>> {
    seq![Seg::Key("contents"), Seg::Key("twoColumnWatchNextResults"), Seg::Key("secondaryResults"), Seg::Key("secondaryResults"), Seg::Key("results")]
}

fn path_recommended_segs() -> (r: [Seg<'static>; 5])
    ensures
        r@ == path_recommended(),
{
    [Seg::Key("contents"), Seg::Key("twoColumnWatchNextResults"), Seg::Key("secondaryResults"), Seg::Key("secondaryResults"), Seg::Key("results")]
}

pub open spec fn path_rec_video_id() -> Seq<Seg<'static>> {
    seq![Seg::Key("compactVideoRenderer"), Seg::Key("videoId")]
}

fn path_rec_video_id_segs() -> (r: [Seg<'static>; 2])
    ensures
        r@ == path_rec_video_id(),
{
    [Seg::Key("compactVideoRenderer"), Seg::Key("videoId")]
}

pub open spec fn path_rec_thumbnails() -> Seq<Seg<'static>> {
    seq![Seg::Key("compactVideoRenderer"), Seg::Key("thumbnail"), Seg::Key("thumbnails")]
}

fn path_rec_thumbnails_segs() -> (r: [Seg<'static>; 3])
    ensures
        r@ == path_rec_thumbnails(),
{
    [Seg::Key("compactVideoRenderer"), Seg::Key("thumbnail"), Seg::Key("thumbnails")]
}

pub open spec fn path_rec_title() -> Seq<Seg<'static>> {
    seq![Seg::Key("compactVideoRenderer"), Seg::Key("title"), Seg::Key("simpleText")]
}

fn path_rec_title_segs() -> (r: [Seg<'static>; 3])
    ensures
        r@ == path_rec_title(),
{
    [Seg::Key("compactVideoRenderer"), Seg::Key("title"), Seg::Key("simpleText")]
}

pub open spec fn path_radio_title() -> Seq<Seg<'static>> {
    seq![Seg::Key("compactRadioRenderer"), Seg::Key("title"), Seg::Key("simpleText")]
}

fn path_radio_title_segs() -> (r: [Seg<'static>; 3])
    ensures
        r@ == path_radio_title(),
{
    [Seg::Key("compactRadioRenderer"), Seg::Key("title"), Seg::Key("simpleText")]
}

pub open spec fn path_rec_author() -> Seq<Seg<'static>> {
    seq![Seg::Key("compactVideoRenderer"), Seg::Key("longBylineText"), Seg::Key("runs"), Seg::Idx(0), Seg::Key("text")]
}

fn path_rec_author_segs() -> (r: [Seg<'static>; 5])
    ensures
        r@ == path_rec_author(),
{
    [Seg::Key("compactVideoRenderer"), Seg::Key("longBylineText"), Seg::Key("runs"), Seg::Idx(0), Seg::Key("text")]
}

pub open spec fn path_rec_author_id() -> Seq<Seg<'static>> {
    seq![Seg::Key("compactVideoRenderer"), Seg::Key("longBylineText"), Seg::Key("runs"), Seg::Idx(0), Seg::Key("navigationEndpoint"), Seg::Key("browseEndpoint"), Seg::Key("browseId")]
}

fn path_rec_author_id_segs() -> (r: [Seg<'static>; 7])
    ensures
        r@ == path_rec_author_id(),
{
    [Seg::Key("compactVideoRenderer"), Seg::Key("longBylineText"), Seg::Key("runs"), Seg::Idx(0), Seg::Key("navigationEndpoint"), Seg::Key("browseEndpoint"), Seg::Key("browseId")]
}

pub open spec fn path_rec_published() -> Seq<Seg<'static>> {
    seq![Seg::Key("compactVideoRenderer"), Seg::Key("publishedTimeText"), Seg::Key("simpleText")]
}

fn path_rec_published_segs() -> (r: [Seg<'static>; 3])
    ensures
        r@ == path_rec_published(),
{
    [Seg::Key("compactVideoRenderer"), Seg::Key("publishedTimeText"), Seg::Key("simpleText")]
}

pub open spec fn path_rec_view_count() -> Seq<Seg<'static>> {
    seq![Seg::Key("compactVideoRenderer"), Seg::Key("viewCountText"), Seg::Key("simpleText")]
}

fn path_rec_view_count_segs() -> (r: [Seg<'static>; 3])
    ensures
        r@ == path_rec_view_count(),
{
    [Seg::Key("compactVideoRenderer"), Seg::Key("viewCountText"), Seg::Key("simpleText")]
}

pub open spec fn path_rec_length() -> Seq<Seg<'static>> {
    seq![Seg::Key("compactVideoRenderer"), Seg::Key("lengthText"), Seg::Key("simpleText")]
}

fn path_rec_length_segs() -> (r: [Seg<'static>; 3])
    ensures
        r@ == path_rec_length(),
{
    [Seg::Key("compactVideoRenderer"), Seg::Key("lengthText"), Seg::Key("simpleText")]
}

pub open spec fn path_radio_playlist_id() -> Seq<Seg<'static>> {
    seq![Seg::Key("compactRadioRenderer"), Seg::Key("playlistId")]
}

fn path_radio_playlist_id_segs() -> (r: [Seg<'static>; 2])
    ensures
        r@ == path_radio_playlist_id(),
{
    [Seg::Key("compactRadioRenderer"), Seg::Key("playlistId")]
}

pub open spec fn path_radio_video_count() -> Seq<Seg<'static>> {
    seq![Seg::Key("compactRadioRenderer"), Seg::Key("videoCountText"), Seg::Key("runs"), Seg::Idx(0), Seg::Key("text")]
}

fn path_radio_video_count_segs() -> (r: [Seg<'static>; 5])
    ensures
        r@ == path_radio_video_count(),
{
    [Seg::Key("compactRadioRenderer"), Seg::Key("videoCountText"), Seg::Key("runs"), Seg::Idx(0), Seg::Key("text")]
}

pub open spec fn path_music_lockups() -> Seq<Seg<'static>> {
    seq![Seg::Key("engagementPanelSectionListRenderer"), Seg::Key("content"), Seg::Key("structuredDescriptionContentRenderer"), Seg::Key("items"), Seg::Idx(2), Seg::Key("videoDescriptionMusicSectionRenderer"), Seg::Key("carouselLockups")]
}

fn path_music_lockups_segs() -> (r: [Seg<'static>; 7])
    ensures
        r@ == path_music_lockups(),
{
    [Seg::Key("engagementPanelSectionListRenderer"), Seg::Key("content"), Seg::Key("structuredDescriptionContentRenderer"), Seg::Key("items"), Seg::Idx(2), Seg::Key("videoDescriptionMusicSectionRenderer"), Seg::Key("carouselLockups")]
}

pub open spec fn path_lockup_title() -> Seq<Seg<'static>> {
    seq![Seg::Key("carouselLockupRenderer"), Seg::Key("videoLockup"), Seg::Key("compactVideoRenderer"), Seg::Key("title"), Seg::Key("runs"), Seg::Idx(0), Seg::Key("text")]
}

fn path_lockup_title_segs() -> (r: [Seg<'static>; 7])
    ensures
        r@ == path_lockup_title(),
{
    [Seg::Key("carouselLockupRenderer"), Seg::Key("videoLockup"), Seg::Key("compactVideoRenderer"), Seg::Key("title"), Seg::Key("runs"), Seg::Idx(0), Seg::Key("text")]
}

pub open spec fn path_lockup_video_id() -> Seq<Seg<'static>> {
    seq![Seg::Key("carouselLockupRenderer"), Seg::Key("videoLockup"), Seg::Key("compactVideoRenderer"), Seg::Key("navigationEndpoint"), Seg::Key("watchEndpoint"), Seg::Key("videoId")]
}

fn path_lockup_video_id_segs() -> (r: [Seg<'static>; 6])
    ensures
        r@ == path_lockup_video_id(),
{
    [Seg::Key("carouselLockupRenderer"), Seg::Key("videoLockup"), Seg::Key("compactVideoRenderer"), Seg::Key("navigationEndpoint"), Seg::Key("watchEndpoint"), Seg::Key("videoId")]
}

pub open spec fn path_lockup_rows() -> Seq<Seg<'static>> {
    seq![Seg::Key("carouselLockupRenderer"), Seg::Key("infoRows")]
}

fn path_lockup_rows_segs() -> (r: [Seg<'static>; 2])
    ensures
        r@ == path_lockup_rows(),
{
    [Seg::Key("carouselLockupRenderer"), Seg::Key("infoRows")]
}

pub open spec fn path_row_status_key() -> Seq<Seg<'static>> {
    seq![Seg::Key("infoRowRenderer"), Seg::Key("infoRowExpandStatusKey")]
}

fn path_row_status_key_segs() -> (r: [Seg<'static>; 2])
    ensures
        r@ == path_row_status_key(),
{
    [Seg::Key("infoRowRenderer"), Seg::Key("infoRowExpandStatusKey")]
}

pub open spec fn path_row_default() -> Seq<Seg<'static>> {
    seq![Seg::Key("infoRowRenderer"), Seg::Key("defaultMetadata"), Seg::Key("simpleText")]
}

fn path_row_default_segs() -> (r: [Seg<'static>; 3])
    ensures
        r@ == path_row_default(),
{
    [Seg::Key("infoRowRenderer"), Seg::Key("defaultMetadata"), Seg::Key("simpleText")]
}

pub open spec fn path_row_expanded() -> Seq<Seg<'static>> {
    seq![Seg::Key("infoRowRenderer"), Seg::Key("expandedMetadata"), Seg::Key("simpleText")]
}

fn path_row_expanded_segs() -> (r: [Seg<'static>; 3])
    ensures
        r@ == path_row_expanded(),
{
    [Seg::Key("infoRowRenderer"), Seg::Key("expandedMetadata"), Seg::Key("simpleText")]
}

pub open spec fn path_sub_menu_items() -> Seq<Seg<'static>> {
    seq![Seg::Key("engagementPanelSectionListRenderer"), Seg::Key("header"), Seg::Key("engagementPanelTitleHeaderRenderer"), Seg::Key("menu"), Seg::Key("sortFilterSubMenuRenderer"), Seg::Key("subMenuItems")]
}

fn path_sub_menu_items_segs() -> (r: [Seg<'static>; 6])
    ensures
        r@ == path_sub_menu_items(),
{
    [Seg::Key("engagementPanelSectionListRenderer"), Seg::Key("header"), Seg::Key("engagementPanelTitleHeaderRenderer"), Seg::Key("menu"), Seg::Key("sortFilterSubMenuRenderer"), Seg::Key("subMenuItems")]
}

pub open spec fn path_item_title() -> Seq<Seg<'static>> {
    seq![Seg::Key("title")]
}

fn path_item_title_segs() -> (r: [Seg<'static>; 1])
    ensures
        r@ == path_item_title(),
{
    [Seg::Key("title")]
}

pub open spec fn path_item_token() -> Seq<Seg<'static>> {
    seq![Seg::Key("serviceEndpoint"), Seg::Key("continuationCommand"), Seg::Key("token")]
}

fn path_item_token_segs() -> (r: [Seg<'static>; 3])
    ensures
        r@ == path_item_token(),
{
    [Seg::Key("serviceEndpoint"), Seg::Key("continuationCommand"), Seg::Key("token")]
}

pub open spec fn path_command_runs() -> Seq<Seg<'static>> {
    seq![Seg::Key("contents"), Seg::Key("twoColumnWatchNextResults"), Seg::Key("results"), Seg::Key("results"), Seg::Key("contents"), Seg::Idx(1), Seg::Key("videoSecondaryInfoRenderer"), Seg::Key("attributedDescription"), Seg::Key("commandRuns")]
}

fn path_command_runs_segs() -> (r: [Seg<'static>; 9])
    ensures
        r@ == path_command_runs(),
{
    [Seg::Key("contents"), Seg::Key("twoColumnWatchNextResults"), Seg::Key("results"), Seg::Key("results"), Seg::Key("contents"), Seg::Idx(1), Seg::Key("videoSecondaryInfoRenderer"), Seg::Key("attributedDescription"), Seg::Key("commandRuns")]
}

pub open spec fn path_run_start() -> Seq<Seg<'static>> {
    seq![Seg::Key("startIndex")]
}

fn path_run_start_segs() -> (r: [Seg<'static>; 1])
    ensures
        r@ == path_run_start(),
{
    [Seg::Key("startIndex")]
}

pub open spec fn path_run_length() -> Seq<Seg<'static>> {
    seq![Seg::Key("length")]
}

fn path_run_length_segs() -> (r: [Seg<'static>; 1])
    ensures
        r@ == path_run_length(),
{
    [Seg::Key("length")]
}

pub open spec fn path_run_url() -> Seq<Seg<'static>> {
    seq![Seg::Key("onTap"), Seg::Key("innertubeCommand"), Seg::Key("urlEndpoint"), Seg::Key("url")]
}

fn path_run_url_segs() -> (r: [Seg<'static>; 4])
    ensures
        r@ == path_run_url(),
{
    [Seg::Key("onTap"), Seg::Key("innertubeCommand"), Seg::Key("urlEndpoint"), Seg::Key("url")]
}

pub open spec fn path_run_video_id() -> Seq<Seg<'static>> {
    seq![Seg::Key("onTap"), Seg::Key("innertubeCommand"), Seg::Key("watchEndpoint"), Seg::Key("videoId")]
}

fn path_run_video_id_segs() -> (r: [Seg<'static>; 4])
    ensures
        r@ == path_run_video_id(),
{
    [Seg::Key("onTap"), Seg::Key("innertubeCommand"), Seg::Key("watchEndpoint"), Seg::Key("videoId")]
}

pub open spec fn path_run_start_time() -> Seq<Seg<'static>> {
    seq![Seg::Key("onTap"), Seg::Key("innertubeCommand"), Seg::Key("watchEndpoint"), Seg::Key("startTimeSeconds")]
}

fn path_run_start_time_segs() -> (r: [Seg<'static>; 4])
    ensures
        r@ == path_run_start_time(),
{
    [Seg::Key("onTap"), Seg::Key("innertubeCommand"), Seg::Key("watchEndpoint"), Seg::Key("startTimeSeconds")]
}

pub open spec fn path_run_base_url() -> Seq<Seg<'static>> {
    seq![Seg::Key("onTap"), Seg::Key("innertubeCommand"), Seg::Key("browseEndpoint"), Seg::Key("canonicalBaseUrl")]
}

fn path_run_base_url_segs() -> (r: [Seg<'static>; 4])
    ensures
        r@ == path_run_base_url(),
{
    [Seg::Key("onTap"), Seg::Key("innertubeCommand"), Seg::Key("browseEndpoint"), Seg::Key("canonicalBaseUrl")]
}

pub open spec fn first_some(a: Option<Seq<char>>, b: Option<Seq<char>>) -> Option<Seq<char>> {
    match a {
        Some(x) => Some(x),
        None => b,
    }
}

// ---------------------------------------------------------------------------
// Title, id and description
// ---------------------------------------------------------------------------

pub open spec fn spec_title(json: JsonValue) -> Option<Seq<char>> {
    first_some(
        str_at(json, path_title_primary()),
        str_at(json, path_details_title()),
    )
}

/// The title, from the `next` response or else the `player` response.
pub fn get_title(json: &JsonValue) -> (r: Option<String>)
    ensures
        r.deep_view() == spec_title(*json),
{
    match json.string_at(
        &path_title_primary_segs(),
    ) {
        Some(title) => Some(title),
        None => json.string_at(&path_details_title_segs()),
    }
}

pub open spec fn spec_video_id(json: JsonValue) -> Option<Seq<char>> {
    str_at(json, path_current_video_id())
}

pub fn get_video_id(json: &JsonValue) -> (r: Option<&str>)
    ensures
        r matches Some(s) ==> spec_video_id(*json) == Some(s@),
        r is None ==> spec_video_id(*json) is None,
{
    json.str_ref_at(&path_current_video_id_segs())
}

pub open spec fn spec_description(json: JsonValue) -> Option<Seq<char>> {
    first_some(
        str_at(json, path_attributed_content()),
        str_at(json, path_details_short_description()),
    )
}

/// The description, from the `next` response or else the `player` response.
pub fn get_description(json: &JsonValue) -> (r: Option<String>)
    ensures
        r.deep_view() == spec_description(*json),
{
    match json.string_at(
        &path_attributed_content_segs(),
    ) {
        Some(description) => Some(description),
        None => json.string_at(&path_details_short_description_segs()),
    }
}

// ---------------------------------------------------------------------------
// Dates
// ---------------------------------------------------------------------------

pub open spec fn spec_date_text(json: JsonValue) -> Option<Seq<char>> {
    str_at(json, path_date_text())
}

/// The full date text from the `next` response.
pub fn get_date_text(json: &JsonValue) -> (r: Option<String>)
    ensures
        r.deep_view() == spec_date_text(*json),
{
    json.string_at(
        &path_date_text_segs(),
    )
}

/// The date parts of one panel: its third factoid's label and value, the one
/// with a space first.
pub open spec fn panel_date_parts(panel: JsonValue) -> Option<(Seq<char>, Seq<char>)> {
    match str_at(panel, path_factoid2_value()) {
        Some(value) => match str_at(panel, path_factoid2_label()) {
            Some(label) => if crate::text::contains(label, " "@) {
                Some((label, value))
            } else {
                Some((value, label))
            },
            None => None,
        },
        None => None,
    }
}

/// The date parts of the first panel that has them.
pub open spec fn first_date_parts(panels: Seq<JsonValue>) -> Option<(Seq<char>, Seq<char>)>
    decreases panels.len(),
{
    if panels.len() == 0 {
        None
    } else {
        match panel_date_parts(panels[0]) {
            Some(p) => Some(p),
            None => first_date_parts(panels.drop_first()),
        }
    }
}

pub open spec fn spec_date_parts(json: JsonValue) -> Option<(Seq<char>, Seq<char>)> {
    match array_at(json, path_panels()) {
        Some(panels) => first_date_parts(panels),
        None => None,
    }
}

pub open spec fn pair_view(p: Option<(String, String)>) -> Option<(Seq<char>, Seq<char>)> {
    match p {
        Some((a, b)) => Some((a@, b@)),
        None => None,
    }
}

fn panel_date_parts_exec(panel: &JsonValue) -> (r: Option<(String, String)>)
    ensures
        pair_view(r) == panel_date_parts(*panel),
{
    match panel.string_at(
        &path_factoid2_value_segs(),
    ) {
        Some(value) => match panel.string_at(
            &path_factoid2_label_segs(),
        ) {
            Some(label) => if crate::text::str_contains(label.as_str(), " ") {
                Some((label, value))
            } else {
                Some((value, label))
            },
            None => None,
        },
        None => None,
    }
}

/// The month and day, and the year, of the upload, from the `next` response.
pub fn get_date_parts(json: &JsonValue) -> (r: Option<(String, String)>)
    ensures
        pair_view(r) == spec_date_parts(*json),
{
    match json.array_at(&path_panels_segs()) {
        Some(panels) => {
            let mut i: usize = 0;
            assert(panels@.skip(0) =~= panels@);
            while i < panels.len()
                invariant
                    i <= panels@.len(),
                    array_at(*json, path_panels()) == Some(panels@),
                    first_date_parts(panels@) == first_date_parts(panels@.skip(i as int)),
                decreases panels@.len() - i,
            {
                assert(panels@.skip(i as int).drop_first() =~= panels@.skip(i + 1));
                assert(panels@.skip(i as int)[0] == panels@[i as int]);
                let result = panel_date_parts_exec(&panels[i]);
                if result.is_some() {
                    return result;
                }
                i = i + 1;
            }
            None
        },
        None => None,
    }
}

pub open spec fn spec_publish_date(json: JsonValue) -> Option<i64> {
    match str_at(json, path_publish_date()) {
        Some(text) => date_timestamp(text, "%Y-%m-%d"@),
        None => None,
    }
}

/// The publish date, as the timestamp of its midnight, from the `player` response.
pub fn get_publish_date(json: &JsonValue) -> (r: Option<i64>)
    ensures
        r == spec_publish_date(*json),
{
    match json.str_ref_at(
        &path_publish_date_segs(),
    ) {
        Some(published_date_string) => match parse_date_timestamp(published_date_string, "%Y-%m-%d") {
            Ok(published) => Some(published),
            Err(_) => None,
        },
        None => None,
    }
}

pub open spec fn spec_published_text(json: JsonValue) -> Option<Seq<char>> {
    str_at(json, path_relative_date_text())
}

/// The relative publish date text from the `next` response.
pub fn get_published_text(json: &JsonValue) -> (r: Option<String>)
    ensures
        r.deep_view() == spec_published_text(*json),
{
    json.string_at(
        &path_relative_date_text_segs(),
    )
}

// ---------------------------------------------------------------------------
// Lists of strings
// ---------------------------------------------------------------------------

/// The strings among `items`, in order.
pub open spec fn strings_in(items: Seq<JsonValue>) -> Seq<Seq<char>>
    decreases items.len(),
{
    if items.len() == 0 {
        Seq::empty()
    } else {
        let prev = strings_in(items.drop_last());
        match items.last() {
            JsonValue::String(s) => prev.push(s@),
            _ => prev,
        }
    }
}

/// The strings among `items`, copied.
pub fn collect_strings(items: &Vec<JsonValue>) -> (r: Vec<String>)
    ensures
        strings_view(r@) == strings_in(items@),
{
    let mut out: Vec<String> = Vec::new();
    let mut i: usize = 0;
    while i < items.len()
        invariant
            i <= items@.len(),
            strings_view(out@) == strings_in(items@.take(i as int)),
        decreases items@.len() - i,
    {
        assert(items@.take(i + 1).drop_last() =~= items@.take(i as int));
        assert(items@.take(i + 1).last() == items@[i as int]);
        match &items[i] {
            JsonValue::String(s) => {
                let ghost before = out@;
                out.push(s.clone());
                assert(strings_view(out@) =~= strings_view(before).push(s@));
            },
            _ => {},
        }
        i = i + 1;
    }
    assert(items@.take(i as int) =~= items@);
    out
}

/// The strings among `items`, borrowed.
pub fn collect_strs<'a>(items: &'a Vec<JsonValue>) -> (r: Vec<&'a str>)
    ensures
        r@.map_values(|s: &str| s@) == strings_in(items@),
{
    let mut out: Vec<&'a str> = Vec::new();
    let mut i: usize = 0;
    while i < items.len()
        invariant
            i <= items@.len(),
            out@.map_values(|s: &str| s@) == strings_in(items@.take(i as int)),
        decreases items@.len() - i,
    {
        assert(items@.take(i + 1).drop_last() =~= items@.take(i as int));
        assert(items@.take(i + 1).last() == items@[i as int]);
        match &items[i] {
            JsonValue::String(s) => {
                let ghost before = out@;
                out.push(s.as_str());
                assert(out@.map_values(|s: &str| s@) =~= before.map_values(|s: &str| s@).push(s@));
            },
            _ => {},
        }
        i = i + 1;
    }
    assert(items@.take(i as int) =~= items@);
    out
}

pub open spec fn spec_keywords(json: JsonValue) -> Option<Seq<Seq<char>>> {
    match array_at(json, path_details_keywords()) {
        Some(items) => Some(strings_in(items)),
        None => None,
    }
}

/// The keywords from the `player` response.
pub fn get_keywords(json: &JsonValue) -> (r: Option<Vec<String>>)
    ensures
        r matches Some(v) ==> spec_keywords(*json) == Some(strings_view(v@)),
        r is None ==> spec_keywords(*json) is None,
{
    match json.array_at(&path_details_keywords_segs()) {
        Some(keyword_array) => Some(collect_strings(keyword_array)),
        None => None,
    }
}

pub open spec fn spec_available_countries(json: JsonValue) -> Option<Seq<Seq<char>>> {
    match array_at(json, path_available_countries()) {
        Some(items) => Some(strings_in(items)),
        None => None,
    }
}

/// The countries where the video is available, from the `player` response.
pub fn get_available_countries(json: &JsonValue) -> (r: Option<Vec<&str>>)
    ensures
        r matches Some(v) ==> spec_available_countries(*json) == Some(v@.map_values(|s: &str| s@)),
        r is None ==> spec_available_countries(*json) is None,
{
    match json.array_at(
        &path_available_countries_segs(),
    ) {
        Some(available_countries) => Some(collect_strs(available_countries)),
        None => None,
    }
}

// ---------------------------------------------------------------------------
// Counts
// ---------------------------------------------------------------------------

/// The number written by the digits in `text`, all runs of digits joined.
pub open spec fn digits_number(text: Seq<char>) -> Option<int> {
    parse_int_in(concat_all(regex_find_all("[0-9]+"@, text)), i32::MIN as int, i32::MAX as int)
}

pub fn number_from_digits(text: &str) -> (r: Option<i32>)
    ensures
        r matches Some(v) ==> digits_number(text@) == Some(v as int),
        r is None ==> digits_number(text@) is None,
{
    let digits = joined_matches("[0-9]+", text);
    parse_i32(digits.as_str())
}

/// Some engagement panel shows `0` as factoid `f`.
pub open spec fn has_zero_factoid(panels: Seq<JsonValue>, f: usize) -> bool {
    exists|i: int| 0 <= i < panels.len() && str_at(#[trigger] panels[i], path_factoid_f_value(f)) == Some("0"@)
}

pub open spec fn zero_factoid(json: JsonValue, f: usize) -> Option<i32> {
    match array_at(json, path_panels()) {
        Some(panels) => if has_zero_factoid(panels, f) {
            Some(0)
        } else {
            None
        },
        None => None,
    }
}

fn find_zero_factoid(json: &JsonValue, f: usize) -> (r: Option<i32>)
    ensures
        r == zero_factoid(*json, f),
{
    match json.array_at(&path_panels_segs()) {
        Some(panels) => {
            let mut i: usize = 0;
            while i < panels.len()
                invariant
                    i <= panels@.len(),
                    array_at(*json, path_panels()) == Some(panels@),
                    forall|j: int| 0 <= j < i ==> str_at(#[trigger] panels@[j], path_factoid_f_value(f)) != Some("0"@),
                decreases panels@.len() - i,
            {
                let value = panels[i].str_ref_at(
                    &path_factoid_f_value_segs(f),
                );
                match value {
                    Some(v) => {
                        if str_eq(v, "0") {
                            assert(str_at(panels@[i as int], path_factoid_f_value(f)) == Some("0"@));
                            return Some(0);
                        }
                    },
                    None => {},
                }
                i = i + 1;
            }
            None
        },
        None => None,
    }
}

pub open spec fn spec_view_count(json: JsonValue) -> Option<i32> {
    let text = first_some(
        str_at(json, path_views_simple()),
        str_at(json, path_views_runs()),
    );
    match text {
        Some(t) => match digits_number(t) {
            Some(n) => Some(n as i32),
            None => zero_factoid(json, 1),
        },
        None => match str_at(json, path_details_view_count()) {
            Some(v) => match parse_int_in(v, i32::MIN as int, i32::MAX as int) {
                Some(n) => Some(n as i32),
                None => None,
            },
            None => None,
        },
    }
}

/// The view count, from the `next` response or else the `player` response.
pub fn get_view_count(json: &JsonValue) -> (r: Option<i32>)
    ensures
        r == spec_view_count(*json),
{
    let views_text = match json.str_ref_at(
        &path_views_simple_segs(),
    ) {
        Some(views_text) => Some(views_text),
        None => json.str_ref_at(
            &path_views_runs_segs(),
        ),
    };
    match views_text {
        Some(view_text) => match number_from_digits(view_text) {
            Some(number) => Some(number),
            None => find_zero_factoid(json, 1),
        },
        None => match json.str_ref_at(&path_details_view_count_segs()) {
            Some(view_count) => parse_i32(view_count),
            None => None,
        },
    }
}

pub open spec fn spec_like_count(json: JsonValue) -> Option<i32> {
    match str_at(json, path_like_label()) {
        Some(t) => match digits_number(t) {
            Some(n) => Some(n as i32),
            None => zero_factoid(json, 0),
        },
        None => None,
    }
}

/// The like count from the `next` response.
pub fn get_like_count(json: &JsonValue) -> (r: Option<i32>)
    ensures
        r == spec_like_count(*json),
{
    match json.str_ref_at(
        &path_like_label_segs(),
    ) {
        Some(like_text) => match number_from_digits(like_text) {
            Some(number) => Some(number),
            None => find_zero_factoid(json, 0),
        },
        None => None,
    }
}

// ---------------------------------------------------------------------------
// Author
// ---------------------------------------------------------------------------

pub open spec fn spec_author(json: JsonValue) -> Option<Seq<char>> {
    first_some(str_at(json, path_author_runs()), str_at(json, path_details_author()))
}

/// The author, from the `next` response or else the `player` response.
pub fn get_author(json: &JsonValue) -> (r: Option<String>)
    ensures
        r.deep_view() == spec_author(*json),
{
    match json.string_at(&path_author_runs_segs()) {
        Some(owner) => Some(owner),
        None => json.string_at(&path_details_author_segs()),
    }
}

pub open spec fn spec_author_id(json: JsonValue) -> Option<Seq<char>> {
    first_some(str_at(json, path_author_browse_id()), str_at(json, path_details_channel_id()))
}

/// The author's channel id, from the `next` response or else the `player` response.
pub fn get_author_id(json: &JsonValue) -> (r: Option<String>)
    ensures
        r.deep_view() == spec_author_id(*json),
{
    match json.string_at(&path_author_browse_id_segs()) {
        Some(browse_id) => Some(browse_id),
        None => json.string_at(&path_details_channel_id_segs()),
    }
}

pub struct Thumbnail {
    pub url: String,
    pub width: i32,
    pub height: i32,
}

/// A thumbnail as its address, width and height.
pub open spec fn thumb_view(t: Thumbnail) -> (Seq<char>, i32, i32) {
    (t.url@, t.width, t.height)
}

pub open spec fn thumbs_view(v: Seq<Thumbnail>) -> Seq<(Seq<char>, i32, i32)> {
    v.map_values(|t: Thumbnail| thumb_view(t))
}

/// The thumbnail that a `thumbnails` entry describes: its `url` (or `""`) and
/// its `width` and `height` (or 0), cut to `i32`.
pub open spec fn thumbnail_of(v: JsonValue) -> (Seq<char>, i32, i32) {
    (str_or_empty(v, path_url()), i64_or_zero(v, path_width()) as i32, i64_or_zero(v, path_height()) as i32)
}

pub open spec fn thumbnails_of(items: Seq<JsonValue>) -> Seq<(Seq<char>, i32, i32)> {
    items.map_values(|v: JsonValue| thumbnail_of(v))
}

pub fn parse_thumbnail(v: &JsonValue) -> (r: Thumbnail)
    ensures
        thumb_view(r) == thumbnail_of(*v),
{
    let url = match v.string_at(&path_url_segs()) {
        Some(url) => url,
        None => String::new(),
    };
    let width = match v.i64_at(&path_width_segs()) {
        Some(w) => w,
        None => 0,
    };
    let height = match v.i64_at(&path_height_segs()) {
        Some(h) => h,
        None => 0,
    };
    Thumbnail { url, width: width as i32, height: height as i32 }
}

pub fn parse_thumbnails(items: &Vec<JsonValue>) -> (r: Vec<Thumbnail>)
    ensures
        thumbs_view(r@) == thumbnails_of(items@),
{
    let mut out: Vec<Thumbnail> = Vec::new();
    let mut i: usize = 0;
    while i < items.len()
        invariant
            i <= items@.len(),
            thumbs_view(out@) == thumbnails_of(items@.take(i as int)),
        decreases items@.len() - i,
    {
        let ghost before = out@;
        out.push(parse_thumbnail(&items[i]));
        assert(thumbs_view(out@) =~= thumbs_view(before).push(thumbnail_of(items@[i as int])));
        assert(thumbnails_of(items@.take(i + 1)) =~= thumbnails_of(items@.take(i as int)).push(
            thumbnail_of(items@[i as int]),
        ));
        i = i + 1;
    }
    assert(items@.take(i as int) =~= items@);
    out
}

pub open spec fn spec_author_thumbnails(json: JsonValue) -> Option<Seq<(Seq<char>, i32, i32)>> {
    match array_at(json, path_author_thumbnails()) {
        Some(items) => Some(thumbnails_of(items)),
        None => None,
    }
}

/// The author's thumbnails from the `next` response.
pub fn get_author_thumbnails(json: &JsonValue) -> (r: Option<Vec<Thumbnail>>)
    ensures
        r matches Some(v) ==> spec_author_thumbnails(*json) == Some(thumbs_view(v@)),
        r is None ==> spec_author_thumbnails(*json) is None,
{
    match json.array_at(&path_author_thumbnails_segs()) {
        Some(author_thumbnails) => Some(parse_thumbnails(author_thumbnails)),
        None => None,
    }
}

/// The first word with a digit in it.
pub open spec fn first_numeric_word(words: Seq<Seq<char>>) -> Option<Seq<char>>
    decreases words.len(),
{
    if words.len() == 0 {
        None
    } else if regex_captures("[0-9]+"@, words[0]) is Some {
        Some(words[0])
    } else {
        first_numeric_word(words.drop_first())
    }
}

pub open spec fn spec_sub_count_text(json: JsonValue) -> Option<Seq<char>> {
    match str_at(json, path_sub_count_simple()) {
        Some(text) => first_numeric_word(split_all(text, " "@)),
        None => None,
    }
}

/// The subscriber text has a word that holds a digit, where there is one
/// (taking the first such word panics otherwise).
pub open spec fn sub_count_defined(json: JsonValue) -> bool {
    str_at(json, path_sub_count_simple()) matches Some(text) ==> first_numeric_word(split_all(text, " "@)) is Some
}

fn sub_count_text_exec(json: &JsonValue) -> (r: Option<String>)
    ensures
        r.deep_view() == spec_sub_count_text(*json),
{
    match json.str_ref_at(&path_sub_count_simple_segs()) {
        Some(text) => {
            proof {
                reveal_strlit(" ");
            }
            let words = split(text, " ");
            let ghost w = strings_view(words@);
            let mut i: usize = 0;
            assert(w.skip(0) =~= w);
            while i < words.len()
                invariant
                    i <= words@.len(),
                    w == strings_view(words@),
                    w == split_all(text@, " "@),
                    str_at(*json, path_sub_count_simple()) == Some(text@),
                    first_numeric_word(w) == first_numeric_word(w.skip(i as int)),
                decreases words@.len() - i,
            {
                assert(w.skip(i as int).drop_first() =~= w.skip(i + 1));
                assert(w.skip(i as int)[0] == words@[i as int]@);
                if captures("[0-9]+", words[i].as_str()).is_some() {
                    return Some(words[i].clone());
                }
                i = i + 1;
            }
            None
        },
        None => None,
    }
}

/// The subscriber count text from the `next` response: the first word of the
/// subscriber text that holds a digit.
pub fn get_sub_count_text(json: &JsonValue) -> (r: Option<String>)
    requires
        sub_count_defined(*json),
    ensures
        r.deep_view() == spec_sub_count_text(*json),
{
    sub_count_text_exec(json)
}

fn sub_count_defined_exec(json: &JsonValue) -> (r: bool)
    ensures
        r == sub_count_defined(*json),
{
    match json.str_ref_at(&path_sub_count_simple_segs()) {
        Some(_) => sub_count_text_exec(json).is_some(),
        None => true,
    }
}

/// `Some(get_sub_count_text(json))` where that is defined, `None` where it
/// is not.
pub fn try_get_sub_count_text(json: &JsonValue) -> (r: Option<Option<String>>)
    ensures
        r is Some <==> sub_count_defined(*json),
        r matches Some(t) ==> t.deep_view() == spec_sub_count_text(*json),
{
    if sub_count_defined_exec(json) {
        Some(get_sub_count_text(json))
    } else {
        None
    }
}

// ---------------------------------------------------------------------------
// Flags and lengths
// ---------------------------------------------------------------------------

pub open spec fn spec_length_seconds(json: JsonValue) -> Option<i32> {
    match str_at(json, path_details_length_seconds()) {
        Some(s) => match parse_int_in(s, i32::MIN as int, i32::MAX as int) {
            Some(n) => Some(n as i32),
            None => None,
        },
        None => None,
    }
}

/// The length in seconds from the `player` response.
pub fn get_length_seconds(json: &JsonValue) -> (r: Option<i32>)
    ensures
        r == spec_length_seconds(*json),
{
    match json.str_ref_at(&path_details_length_seconds_segs()) {
        Some(length_seconds_str) => parse_i32(length_seconds_str),
        None => None,
    }
}

pub fn get_allow_ratings(json: &JsonValue) -> (r: Option<bool>)
    ensures
        r == bool_at(*json, path_details_allow_ratings()),
{
    json.bool_at(&path_details_allow_ratings_segs())
}

/// A badge marks the video as listed unless its icon says it is unlisted.
pub open spec fn badge_listed(badge: JsonValue) -> bool {
    match str_at(badge, path_badge_icon_type()) {
        Some(label) => label != "PRIVACY_UNLISTED"@,
        None => true,
    }
}

/// Some badge marks the video as listed.
pub open spec fn any_badge_listed(badges: Seq<JsonValue>) -> bool {
    exists|i: int| 0 <= i < badges.len() && badge_listed(#[trigger] badges[i])
}

pub open spec fn spec_is_listed(json: JsonValue) -> Option<bool> {
    match array_at(json, path_badges()) {
        Some(badges) => Some(any_badge_listed(badges)),
        None => bool_at(json, path_details_is_crawlable()),
    }
}

/// Whether the video is listed, from the `next` response or else the `player` response.
pub fn is_listed(json: &JsonValue) -> (r: Option<bool>)
    ensures
        r == spec_is_listed(*json),
{
    match json.array_at(&path_badges_segs()) {
        Some(badges) => {
            let mut i: usize = 0;
            while i < badges.len()
                invariant
                    i <= badges@.len(),
                    forall|j: int| 0 <= j < i ==> !badge_listed(#[trigger] badges@[j]),
                    array_at(*json, path_badges()) == Some(badges@),
                decreases badges@.len() - i,
            {
                let listed = match badges[i].str_ref_at(&path_badge_icon_type_segs()) {
                    Some(label) => !str_eq(label, "PRIVACY_UNLISTED"),
                    None => true,
                };
                if listed {
                    assert(badge_listed(badges@[i as int]));
                    assert(any_badge_listed(badges@));
                    return Some(true);
                }
                i = i + 1;
            }
            Some(false)
        },
        None => json.bool_at(&path_details_is_crawlable_segs()),
    }
}

pub open spec fn spec_is_live_now(json: JsonValue) -> Option<bool> {
    match bool_at(json, path_is_live()) {
        Some(b) => Some(b),
        None => bool_at(json, path_details_is_live_content()),
    }
}

/// Whether the video is live now, from the `next` response or else the `player` response.
pub fn is_live_now(json: &JsonValue) -> (r: Option<bool>)
    ensures
        r == spec_is_live_now(*json),
{
    match json.bool_at(&path_is_live_segs()) {
        Some(is_live) => Some(is_live),
        None => json.bool_at(&path_details_is_live_content_segs()),
    }
}

pub fn get_dash_url(json: &JsonValue) -> (r: Option<String>)
    ensures
        r.deep_view() == str_at(*json, path_dash_url()),
{
    json.string_at(&path_dash_url_segs())
}

pub fn get_hls_url(json: &JsonValue) -> (r: Option<String>)
    ensures
        r.deep_view() == str_at(*json, path_hls_url()),
{
    json.string_at(&path_hls_url_segs())
}

pub fn is_family_friendly(json: &JsonValue) -> (r: Option<bool>)
    ensures
        r == bool_at(*json, path_is_family_safe()),
{
    json.bool_at(&path_is_family_safe_segs())
}

/// The category from the `player` response.
pub fn get_category(json: &JsonValue) -> (r: Option<String>)
    ensures
        r.deep_view() == str_at(*json, path_category()),
{
    json.string_at(&path_category_segs())
}

// ---------------------------------------------------------------------------
// Legacy formats
// ---------------------------------------------------------------------------

/// `str::parse` of `s` into an integer type whose values are `lo..=hi`, or 0.
pub open spec fn parsed_or_zero(s: Seq<char>, lo: int, hi: int) -> int {
    match parse_int_in(s, lo, hi) {
        Some(v) => v,
        None => 0,
    }
}

pub fn parse_i32_or_zero(s: &str) -> (r: i32)
    ensures
        r == parsed_or_zero(s@, i32::MIN as int, i32::MAX as int),
{
    match parse_i32(s) {
        Some(v) => v,
        None => 0,
    }
}

pub fn parse_i64_or_zero(s: &str) -> (r: i64)
    ensures
        r == parsed_or_zero(s@, i64::MIN as int, i64::MAX as int),
{
    match parse_i64(s) {
        Some(v) => v,
        None => 0,
    }
}

pub struct LegacyFormat {
    pub url: Option<String>,
    pub signature_cipher: Option<String>,
    pub itag: i32,
    pub mime_type: String,
    pub bitrate: i32,
    pub width: i32,
    pub height: i32,
    pub last_modified_time: i64,
    pub quality: String,
    pub fps: i32,
    pub quality_label: String,
    pub projection_type: String,
    pub audio_quality: String,
    pub approx_duration_ms: i32,
    pub audio_sample_rate: String,
    pub audio_channels: i32,
}

/// A legacy format with its texts as character sequences.
pub struct LegacyFormatView {
    pub url: Option<Seq<char>>,
    pub signature_cipher: Option<Seq<char>>,
    pub itag: i32,
    pub mime_type: Seq<char>,
    pub bitrate: i32,
    pub width: i32,
    pub height: i32,
    pub last_modified_time: i64,
    pub quality: Seq<char>,
    pub fps: i32,
    pub quality_label: Seq<char>,
    pub projection_type: Seq<char>,
    pub audio_quality: Seq<char>,
    pub approx_duration_ms: i32,
    pub audio_sample_rate: Seq<char>,
    pub audio_channels: i32,
}

impl View for LegacyFormat {
    type V = LegacyFormatView;

    open spec fn view(&self) -> LegacyFormatView {
        LegacyFormatView {
            url: self.url.deep_view(),
            signature_cipher: self.signature_cipher.deep_view(),
            itag: self.itag,
            mime_type: self.mime_type@,
            bitrate: self.bitrate,
            width: self.width,
            height: self.height,
            last_modified_time: self.last_modified_time,
            quality: self.quality@,
            fps: self.fps,
            quality_label: self.quality_label@,
            projection_type: self.projection_type@,
            audio_quality: self.audio_quality@,
            approx_duration_ms: self.approx_duration_ms,
            audio_sample_rate: self.audio_sample_rate@,
            audio_channels: self.audio_channels,
        }
    }
}

/// The legacy format that an entry of `streamingData.formats` describes: each
/// field from its member, `""` or 0 where it is missing, integers cut to `i32`.
pub open spec fn legacy_format_of(f: JsonValue) -> LegacyFormatView {
    LegacyFormatView {
        url: str_at(f, path_url()),
        signature_cipher: str_at(f, path_signature_cipher()),
        itag: i64_or_zero(f, path_itag()) as i32,
        mime_type: str_or_empty(f, path_mime_type()),
        bitrate: i64_or_zero(f, path_bitrate()) as i32,
        width: i64_or_zero(f, path_width()) as i32,
        height: i64_or_zero(f, path_height()) as i32,
        last_modified_time: parsed_or_zero(str_or_empty(f, path_last_modified()), i64::MIN as int, i64::MAX as int) as i64,
        quality: str_or_empty(f, path_quality()),
        fps: i64_or_zero(f, path_fps()) as i32,
        quality_label: str_or_empty(f, path_quality_label()),
        projection_type: str_or_empty(f, path_projection_type()),
        audio_quality: str_or_empty(f, path_audio_quality()),
        approx_duration_ms: parsed_or_zero(str_or_empty(f, path_approx_duration_ms()), i32::MIN as int, i32::MAX as int) as i32,
        audio_sample_rate: str_or_empty(f, path_audio_sample_rate()),
        audio_channels: i64_or_zero(f, path_audio_channels()) as i32,
    }
}

pub fn parse_legacy_format(f: &JsonValue) -> (r: LegacyFormat)
    ensures
        r@ == legacy_format_of(*f),
{
    let last_modified = f.string_or_empty(&path_last_modified_segs());
    let approx_duration = f.string_or_empty(&path_approx_duration_ms_segs());
    LegacyFormat {
        url: f.string_at(&path_url_segs()),
        signature_cipher: f.string_at(&path_signature_cipher_segs()),
        itag: f.i64_or_zero(&path_itag_segs()) as i32,
        mime_type: f.string_or_empty(&path_mime_type_segs()),
        bitrate: f.i64_or_zero(&path_bitrate_segs()) as i32,
        width: f.i64_or_zero(&path_width_segs()) as i32,
        height: f.i64_or_zero(&path_height_segs()) as i32,
        last_modified_time: parse_i64_or_zero(last_modified.as_str()),
        quality: f.string_or_empty(&path_quality_segs()),
        fps: f.i64_or_zero(&path_fps_segs()) as i32,
        quality_label: f.string_or_empty(&path_quality_label_segs()),
        projection_type: f.string_or_empty(&path_projection_type_segs()),
        audio_quality: f.string_or_empty(&path_audio_quality_segs()),
        approx_duration_ms: parse_i32_or_zero(approx_duration.as_str()),
        audio_sample_rate: f.string_or_empty(&path_audio_sample_rate_segs()),
        audio_channels: f.i64_or_zero(&path_audio_channels_segs()) as i32,
    }
}

pub open spec fn legacy_views(v: Seq<LegacyFormat>) -> Seq<LegacyFormatView> {
    v.map_values(|f: LegacyFormat| f@)
}

pub open spec fn spec_legacy_formats(json: JsonValue) -> Option<Seq<LegacyFormatView>> {
    match array_at(json, path_formats()) {
        Some(items) => Some(items.map_values(|f: JsonValue| legacy_format_of(f))),
        None => None,
    }
}

/// The `formats` of the `player` response.
pub fn get_legacy_formats(json: &JsonValue) -> (r: Option<Vec<LegacyFormat>>)
    ensures
        r matches Some(v) ==> spec_legacy_formats(*json) == Some(legacy_views(v@)),
        r is None ==> spec_legacy_formats(*json) is None,
{
    match json.array_at(&path_formats_segs()) {
        Some(formats) => {
            let mut out: Vec<LegacyFormat> = Vec::new();
            let mut i: usize = 0;
            while i < formats.len()
                invariant
                    i <= formats@.len(),
                    legacy_views(out@) == formats@.take(i as int).map_values(|f: JsonValue| legacy_format_of(f)),
                decreases formats@.len() - i,
            {
                let ghost before = out@;
                out.push(parse_legacy_format(&formats[i]));
                assert(legacy_views(out@) =~= legacy_views(before).push(legacy_format_of(formats@[i as int])));
                assert(formats@.take(i + 1).map_values(|f: JsonValue| legacy_format_of(f)) =~= formats@.take(i as int).map_values(|f: JsonValue| legacy_format_of(f)).push(legacy_format_of(formats@[i as int])));
                i = i + 1;
            }
            assert(formats@.take(i as int) =~= formats@);
            Some(out)
        },
        None => None,
    }
}

pub open spec fn container_pattern() -> Seq<char> {
    "(video|audio)/([^;]*?); "@
}

/// The container named in a MIME type, as in `video/mp4; codecs=...`.
pub open spec fn container_of(mime_type: Seq<char>) -> Option<Seq<char>> {
    capture_group(container_pattern(), mime_type, 2)
}

/// `"{width}x{height}"`.
pub open spec fn size_text(width: int, height: int) -> Seq<char> {
    decimal(width) + "x"@ + decimal(height)
}

pub fn size_string(width: i32, height: i32) -> (r: String)
    ensures
        r@ == size_text(width as int, height as int),
{
    let w = int_to_string(width as i64);
    let h = int_to_string(height as i64);
    cat3(w.as_str(), "x", h.as_str())
}

/// A legacy format as the Invidious API writes it.
pub open spec fn legacy_format_inv(f: LegacyFormatView) -> JsonView {
    JsonView::Object(
        opt_text_member("url"@, f.url) + seq![
            ("itag"@, JsonView::Str(decimal(f.itag as int))),
            ("type"@, JsonView::Str(f.mime_type)),
            ("quality"@, JsonView::Str(f.quality)),
            ("fps"@, int_view(f.fps as int)),
        ] + opt_text_member("container"@, container_of(f.mime_type)) + seq![
            ("resolution"@, JsonView::Str(f.quality_label)),
            ("qualityLabel"@, JsonView::Str(f.quality_label)),
            ("size"@, JsonView::Str(size_text(f.width as int, f.height as int))),
        ],
    )
}

impl LegacyFormat {
    /// The format as the Invidious API writes it.
    pub fn into_inv(&self) -> (r: JsonValue)
        ensures
            r.jv() == legacy_format_inv(self@),
    {
        let mut obj = ObjectBuilder::new();
        assert(entries_view(obj.entries@) =~= Seq::empty());
        obj.push_opt_text("url", &self.url);
        let ghost p1 = entries_view(obj.entries@);
        obj.push_text("itag", int_to_string(self.itag as i64));
        obj.push_text("type", self.mime_type.clone());
        obj.push_text("quality", self.quality.clone());
        obj.push_int("fps", self.fps as i64);
        let ghost p2 = entries_view(obj.entries@);
        obj.push_opt_text("container", &capture("(video|audio)/([^;]*?); ", self.mime_type.as_str(), 2));
        let ghost p3 = entries_view(obj.entries@);
        obj.push_text("resolution", self.quality_label.clone());
        obj.push_text("qualityLabel", self.quality_label.clone());
        obj.push_text("size", size_string(self.width, self.height));
        assert(p2 =~= p1 + seq![
            ("itag"@, JsonView::Str(decimal(self.itag as int))),
            ("type"@, JsonView::Str(self.mime_type@)),
            ("quality"@, JsonView::Str(self.quality@)),
            ("fps"@, int_view(self.fps as int)),
        ]);
        assert(entries_view(obj.entries@) =~= p3 + seq![
            ("resolution"@, JsonView::Str(self.quality_label@)),
            ("qualityLabel"@, JsonView::Str(self.quality_label@)),
            ("size"@, JsonView::Str(size_text(self.width as int, self.height as int))),
        ]);
        obj.into_value()
    }
}

// ---------------------------------------------------------------------------
// Adaptive formats
// ---------------------------------------------------------------------------

/// A format of the `adaptiveFormats` list. Its loudness, a floating-point
/// number, is not read here.
pub struct AdaptiveFormat {
    pub url: Option<String>,
    pub signature_cipher: Option<String>,
    pub itag: i32,
    pub mime_type: String,
    pub bitrate: i32,
    pub width: Option<i32>,
    pub height: Option<i32>,
    pub init_range: (i32, i32),
    pub index_range: (i32, i32),
    pub last_modified_time: i64,
    pub content_length: i32,
    pub quality: String,
    pub fps: Option<i32>,
    pub quality_label: Option<String>,
    pub projection_type: String,
    pub average_bitrate: i32,
    pub approx_duration_ms: i32,
    pub audio_sample_rate: Option<i32>,
    pub audio_quality: Option<String>,
    pub audio_channels: Option<i32>,
}

pub struct AdaptiveFormatView {
    pub url: Option<Seq<char>>,
    pub signature_cipher: Option<Seq<char>>,
    pub itag: i32,
    pub mime_type: Seq<char>,
    pub bitrate: i32,
    pub width: Option<i32>,
    pub height: Option<i32>,
    pub init_range: (i32, i32),
    pub index_range: (i32, i32),
    pub last_modified_time: i64,
    pub content_length: i32,
    pub quality: Seq<char>,
    pub fps: Option<i32>,
    pub quality_label: Option<Seq<char>>,
    pub projection_type: Seq<char>,
    pub average_bitrate: i32,
    pub approx_duration_ms: i32,
    pub audio_sample_rate: Option<i32>,
    pub audio_quality: Option<Seq<char>>,
    pub audio_channels: Option<i32>,
}

impl View for AdaptiveFormat {
    type V = AdaptiveFormatView;

    open spec fn view(&self) -> AdaptiveFormatView {
        AdaptiveFormatView {
            url: self.url.deep_view(),
            signature_cipher: self.signature_cipher.deep_view(),
            itag: self.itag,
            mime_type: self.mime_type@,
            bitrate: self.bitrate,
            width: self.width,
            height: self.height,
            init_range: self.init_range,
            index_range: self.index_range,
            last_modified_time: self.last_modified_time,
            content_length: self.content_length,
            quality: self.quality@,
            fps: self.fps,
            quality_label: self.quality_label.deep_view(),
            projection_type: self.projection_type@,
            average_bitrate: self.average_bitrate,
            approx_duration_ms: self.approx_duration_ms,
            audio_sample_rate: self.audio_sample_rate,
            audio_quality: self.audio_quality.deep_view(),
            audio_channels: self.audio_channels,
        }
    }
}

/// `as_i64` of a member, cut to `i32`.
pub open spec fn opt_i32(v: Option<i64>) -> Option<i32> {
    match v {
        Some(i) => Some(i as i32),
        None => None,
    }
}

pub fn opt_i32_exec(v: Option<i64>) -> (r: Option<i32>)
    ensures
        r == opt_i32(v),
{
    match v {
        Some(i) => Some(i as i32),
        None => None,
    }
}

pub open spec fn i32_text_or_zero(f: JsonValue, path: Seq<Seg>) -> i32 {
    parsed_or_zero(str_or_empty(f, path), i32::MIN as int, i32::MAX as int) as i32
}

/// The adaptive format that an entry of `streamingData.adaptiveFormats` describes.
pub open spec fn adaptive_format_of(f: JsonValue) -> AdaptiveFormatView {
    AdaptiveFormatView {
        url: str_at(f, path_url()),
        signature_cipher: str_at(f, path_signature_cipher()),
        itag: i64_or_zero(f, path_itag()) as i32,
        mime_type: str_or_empty(f, path_mime_type()),
        bitrate: i64_or_zero(f, path_bitrate()) as i32,
        width: opt_i32(i64_at(f, path_width())),
        height: opt_i32(i64_at(f, path_height())),
        init_range: (i32_text_or_zero(f, path_init_start()), i32_text_or_zero(f, path_init_end())),
        index_range: (i32_text_or_zero(f, path_index_start()), i32_text_or_zero(f, path_index_end())),
        last_modified_time: parsed_or_zero(str_or_empty(f, path_last_modified()), i64::MIN as int, i64::MAX as int) as i64,
        content_length: i32_text_or_zero(f, path_content_length()),
        quality: str_or_empty(f, path_quality()),
        fps: opt_i32(i64_at(f, path_fps())),
        quality_label: str_at(f, path_quality_label()),
        projection_type: str_or_empty(f, path_projection_type()),
        average_bitrate: i64_or_zero(f, path_average_bitrate()) as i32,
        approx_duration_ms: i32_text_or_zero(f, path_approx_duration_ms()),
        audio_sample_rate: match str_at(f, path_audio_sample_rate()) {
            Some(s) => match parse_int_in(s, i32::MIN as int, i32::MAX as int) {
                Some(v) => Some(v as i32),
                None => None,
            },
            None => None,
        },
        audio_quality: str_at(f, path_audio_quality()),
        audio_channels: opt_i32(i64_at(f, path_audio_channels())),
    }
}

fn i32_text_or_zero_exec(f: &JsonValue, path: &[Seg]) -> (r: i32)
    ensures
        r == i32_text_or_zero(*f, path@),
{
    let text = f.string_or_empty(path);
    parse_i32_or_zero(text.as_str())
}

pub fn parse_adaptive_format(f: &JsonValue) -> (r: AdaptiveFormat)
    ensures
        r@ == adaptive_format_of(*f),
{
    let last_modified = f.string_or_empty(&path_last_modified_segs());
    let audio_sample_rate = match f.str_ref_at(&path_audio_sample_rate_segs()) {
        Some(s) => parse_i32(s),
        None => None,
    };
    AdaptiveFormat {
        url: f.string_at(&path_url_segs()),
        signature_cipher: f.string_at(&path_signature_cipher_segs()),
        itag: f.i64_or_zero(&path_itag_segs()) as i32,
        mime_type: f.string_or_empty(&path_mime_type_segs()),
        bitrate: f.i64_or_zero(&path_bitrate_segs()) as i32,
        width: opt_i32_exec(f.i64_at(&path_width_segs())),
        height: opt_i32_exec(f.i64_at(&path_height_segs())),
        init_range: (i32_text_or_zero_exec(f, &path_init_start_segs()), i32_text_or_zero_exec(f, &path_init_end_segs())),
        index_range: (i32_text_or_zero_exec(f, &path_index_start_segs()), i32_text_or_zero_exec(f, &path_index_end_segs())),
        last_modified_time: parse_i64_or_zero(last_modified.as_str()),
        content_length: i32_text_or_zero_exec(f, &path_content_length_segs()),
        quality: f.string_or_empty(&path_quality_segs()),
        fps: opt_i32_exec(f.i64_at(&path_fps_segs())),
        quality_label: f.string_at(&path_quality_label_segs()),
        projection_type: f.string_or_empty(&path_projection_type_segs()),
        average_bitrate: f.i64_or_zero(&path_average_bitrate_segs()) as i32,
        approx_duration_ms: i32_text_or_zero_exec(f, &path_approx_duration_ms_segs()),
        audio_sample_rate,
        audio_quality: f.string_at(&path_audio_quality_segs()),
        audio_channels: opt_i32_exec(f.i64_at(&path_audio_channels_segs())),
    }
}

pub open spec fn adaptive_views(v: Seq<AdaptiveFormat>) -> Seq<AdaptiveFormatView> {
    v.map_values(|f: AdaptiveFormat| f@)
}

pub open spec fn spec_adaptive_formats(json: JsonValue) -> Option<Seq<AdaptiveFormatView>> {
    match array_at(json, path_adaptive_formats()) {
        Some(items) => Some(items.map_values(|f: JsonValue| adaptive_format_of(f))),
        None => None,
    }
}

/// The `adaptiveFormats` of the `player` response.
pub fn get_adaptive_formats(json: &JsonValue) -> (r: Option<Vec<AdaptiveFormat>>)
    ensures
        r matches Some(v) ==> spec_adaptive_formats(*json) == Some(adaptive_views(v@)),
        r is None ==> spec_adaptive_formats(*json) is None,
{
    match json.array_at(&path_adaptive_formats_segs()) {
        Some(formats) => {
            let mut out: Vec<AdaptiveFormat> = Vec::new();
            let mut i: usize = 0;
            while i < formats.len()
                invariant
                    i <= formats@.len(),
                    adaptive_views(out@) == formats@.take(i as int).map_values(|f: JsonValue| adaptive_format_of(f)),
                decreases formats@.len() - i,
            {
                let ghost before = out@;
                out.push(parse_adaptive_format(&formats[i]));
                assert(adaptive_views(out@) =~= adaptive_views(before).push(adaptive_format_of(formats@[i as int])));
                assert(formats@.take(i + 1).map_values(|f: JsonValue| adaptive_format_of(f)) =~= formats@.take(i as int).map_values(|f: JsonValue| adaptive_format_of(f)).push(adaptive_format_of(formats@[i as int])));
                i = i + 1;
            }
            assert(formats@.take(i as int) =~= formats@);
            Some(out)
        },
        None => None,
    }
}

/// `"{start}-{end}"`.
pub open spec fn range_text(r: (i32, i32)) -> Seq<char> {
    decimal(r.0 as int) + "-"@ + decimal(r.1 as int)
}

pub fn range_string(r: (i32, i32)) -> (s: String)
    ensures
        s@ == range_text(r),
{
    let a = int_to_string(r.0 as i64);
    let b = int_to_string(r.1 as i64);
    cat3(a.as_str(), "-", b.as_str())
}

/// An `i32` widened to `i64`, when there is one.
pub open spec fn widen(v: Option<i32>) -> Option<i64> {
    match v {
        Some(i) => Some(i as i64),
        None => None,
    }
}

pub fn widen_exec(v: Option<i32>) -> (r: Option<i64>)
    ensures
        r == widen(v),
{
    match v {
        Some(i) => Some(i as i64),
        None => None,
    }
}

/// The members of an adaptive format as the Invidious API writes it.
pub open spec fn adaptive_format_members(f: AdaptiveFormatView) -> Seq<(Seq<char>, JsonView)> {
        opt_text_member("url"@, f.url) + seq![
            ("bitrate"@, JsonView::Str(decimal(f.bitrate as int))),
            ("init"@, JsonView::Str(range_text(f.init_range))),
            ("index"@, JsonView::Str(range_text(f.index_range))),
            ("itag"@, JsonView::Str(decimal(f.itag as int))),
            ("type"@, JsonView::Str(f.mime_type)),
            ("clen"@, JsonView::Str(decimal(f.content_length as int))),
            ("lmt"@, int_view(f.last_modified_time as int)),
            ("projectionType"@, JsonView::Str(f.projection_type)),
        ] + opt_int_member("fps"@, widen(f.fps)) + opt_text_member("container"@, container_of(f.mime_type))
            + opt_text_member("audioQuality"@, f.audio_quality) + opt_int_member("audioSampleRate"@, widen(f.audio_sample_rate)) + opt_int_member("audioChannels"@, widen(f.audio_channels)) + seq![
            ("quality"@, JsonView::Str(f.quality)),
            ("qualityLabel"@, JsonView::Str(match f.quality_label {
                Some(l) => l,
                None => decimal(f.bitrate as int),
            })),
        ] + match (f.width, f.height) {
            (Some(w), Some(h)) => seq![("size"@, JsonView::Str(size_text(w as int, h as int)))],
            _ => Seq::empty(),
        }
}

/// An adaptive format as the Invidious API writes it.
pub open spec fn adaptive_format_inv(f: AdaptiveFormatView) -> JsonView {
    JsonView::Object(adaptive_format_members(f))
}

impl AdaptiveFormat {
    /// The format as the Invidious API writes it.
    #[verifier::spinoff_prover]
    #[verifier::rlimit(50)]
    pub fn into_inv(&self) -> (r: JsonValue)
        ensures
            r.jv() == adaptive_format_inv(self@),
    {
        let mut obj = ObjectBuilder::new();
        assert(entries_view(obj.entries@) =~= Seq::empty());
        obj.push_opt_text("url", &self.url);
        let ghost p1 = entries_view(obj.entries@);
        obj.push_text("bitrate", int_to_string(self.bitrate as i64));
        obj.push_text("init", range_string(self.init_range));
        obj.push_text("index", range_string(self.index_range));
        obj.push_text("itag", int_to_string(self.itag as i64));
        obj.push_text("type", self.mime_type.clone());
        obj.push_text("clen", int_to_string(self.content_length as i64));
        obj.push_int("lmt", self.last_modified_time);
        obj.push_text("projectionType", self.projection_type.clone());
        let ghost p2 = entries_view(obj.entries@);
        assert(p2 =~= p1 + seq![
            ("bitrate"@, JsonView::Str(decimal(self.bitrate as int))),
            ("init"@, JsonView::Str(range_text(self.init_range))),
            ("index"@, JsonView::Str(range_text(self.index_range))),
            ("itag"@, JsonView::Str(decimal(self.itag as int))),
            ("type"@, JsonView::Str(self.mime_type@)),
            ("clen"@, JsonView::Str(decimal(self.content_length as int))),
            ("lmt"@, int_view(self.last_modified_time as int)),
            ("projectionType"@, JsonView::Str(self.projection_type@)),
        ]);
        obj.push_opt_int("fps", widen_exec(self.fps));
        obj.push_opt_text("container", &capture("(video|audio)/([^;]*?); ", self.mime_type.as_str(), 2));
        obj.push_opt_text("audioQuality", &self.audio_quality);
        obj.push_opt_int("audioSampleRate", widen_exec(self.audio_sample_rate));
        obj.push_opt_int("audioChannels", widen_exec(self.audio_channels));
        let ghost p7 = entries_view(obj.entries@);
        assert(p7 == p2 + opt_int_member("fps"@, widen(self@.fps)) + opt_text_member("container"@, container_of(self@.mime_type))
            + opt_text_member("audioQuality"@, self@.audio_quality) + opt_int_member("audioSampleRate"@, widen(self@.audio_sample_rate)) + opt_int_member("audioChannels"@, widen(self@.audio_channels)));
        assert(p1 == opt_text_member("url"@, self@.url));
        obj.push_text("quality", self.quality.clone());
        let label = match &self.quality_label {
            Some(quality_label) => quality_label.clone(),
            None => int_to_string(self.bitrate as i64),
        };
        obj.push_text("qualityLabel", label);
        let ghost p8 = entries_view(obj.entries@);
        assert(p8 =~= p7 + seq![
            ("quality"@, JsonView::Str(self.quality@)),
            ("qualityLabel"@, JsonView::Str(match self@.quality_label {
                Some(l) => l,
                None => decimal(self.bitrate as int),
            })),
        ]);
        match (self.width, self.height) {
            (Some(width), Some(height)) => {
                obj.push_text("size", size_string(width, height));
            },
            _ => {},
        }
        assert(entries_view(obj.entries@) =~= p8 + match (self.width, self.height) {
            (Some(w), Some(h)) => seq![("size"@, JsonView::Str(size_text(w as int, h as int)))],
            _ => Seq::<(Seq<char>, JsonView)>::empty(),
        });
        assert(entries_view(obj.entries@) =~= adaptive_format_members(self@));
        obj.into_value()
    }
}

proof fn lemma_format_keys_not_size()
    ensures
        "url"@ != "size"@,
        "bitrate"@ != "size"@,
        "init"@ != "size"@,
        "index"@ != "size"@,
        "itag"@ != "size"@,
        "type"@ != "size"@,
        "clen"@ != "size"@,
        "lmt"@ != "size"@,
        "projectionType"@ != "size"@,
        "fps"@ != "size"@,
        "container"@ != "size"@,
        "audioQuality"@ != "size"@,
        "audioSampleRate"@ != "size"@,
        "audioChannels"@ != "size"@,
        "quality"@ != "size"@,
        "qualityLabel"@ != "size"@,
        "resolution"@ != "size"@,
{
    reveal_strlit("url");
    assert("url"@[0] == 'u');
    reveal_strlit("bitrate");
    assert("bitrate"@[0] == 'b');
    reveal_strlit("init");
    assert("init"@[0] == 'i');
    reveal_strlit("index");
    assert("index"@[0] == 'i');
    reveal_strlit("itag");
    assert("itag"@[0] == 'i');
    reveal_strlit("type");
    assert("type"@[0] == 't');
    reveal_strlit("clen");
    assert("clen"@[0] == 'c');
    reveal_strlit("lmt");
    assert("lmt"@[0] == 'l');
    reveal_strlit("projectionType");
    assert("projectionType"@[0] == 'p');
    reveal_strlit("fps");
    assert("fps"@[0] == 'f');
    reveal_strlit("container");
    assert("container"@[0] == 'c');
    reveal_strlit("audioQuality");
    assert("audioQuality"@[0] == 'a');
    reveal_strlit("audioSampleRate");
    assert("audioSampleRate"@[0] == 'a');
    reveal_strlit("audioChannels");
    assert("audioChannels"@[0] == 'a');
    reveal_strlit("quality");
    assert("quality"@[0] == 'q');
    reveal_strlit("qualityLabel");
    assert("qualityLabel"@[0] == 'q');
    reveal_strlit("resolution");
    assert("resolution"@[0] == 'r');
    reveal_strlit("size");
    assert("size"@[0] == 's');
}

/// The `size` member of an adaptive format as the Invidious API writes it is
/// its width and its height in decimal, width first, joined by `x`.
pub proof fn lemma_adaptive_format_size(f: JsonValue, w: i64, h: i64)
    requires
        i64_at(f, seq![Seg::Key("width")]) == Some(w),
        i64_at(f, seq![Seg::Key("height")]) == Some(h),
        i32::MIN <= w <= i32::MAX,
        i32::MIN <= h <= i32::MAX,
    ensures
        view_get(adaptive_format_members(adaptive_format_of(f)), "size"@)
            == Some(JsonView::Str(decimal(w as int) + "x"@ + decimal(h as int))),
{
    let m = adaptive_format_of(f);
    assert(m.width == Some(w as i32));
    assert(m.height == Some(h as i32));
    lemma_format_keys_not_size();
    reveal_with_fuel(view_get, 10);
    let a = opt_text_member("url"@, m.url);
    let b = seq![
        ("bitrate"@, JsonView::Str(decimal(m.bitrate as int))),
        ("init"@, JsonView::Str(range_text(m.init_range))),
        ("index"@, JsonView::Str(range_text(m.index_range))),
        ("itag"@, JsonView::Str(decimal(m.itag as int))),
        ("type"@, JsonView::Str(m.mime_type)),
        ("clen"@, JsonView::Str(decimal(m.content_length as int))),
        ("lmt"@, int_view(m.last_modified_time as int)),
        ("projectionType"@, JsonView::Str(m.projection_type)),
    ];
    let c = opt_int_member("fps"@, widen(m.fps));
    let d = opt_text_member("container"@, container_of(m.mime_type));
    let e = opt_text_member("audioQuality"@, m.audio_quality);
    let g = opt_int_member("audioSampleRate"@, widen(m.audio_sample_rate));
    let i = opt_int_member("audioChannels"@, widen(m.audio_channels));
    let j = seq![
        ("quality"@, JsonView::Str(m.quality)),
        ("qualityLabel"@, JsonView::Str(match m.quality_label {
            Some(l) => l,
            None => decimal(m.bitrate as int),
        })),
    ];
    let t = seq![("size"@, JsonView::Str(size_text(w as int, h as int)))];
    let p1 = a + b;
    let p2 = p1 + c;
    let p3 = p2 + d;
    let p4 = p3 + e;
    let p5 = p4 + g;
    let p6 = p5 + i;
    let p7 = p6 + j;
    assert(adaptive_format_members(m) == p7 + t);
    lemma_view_get_append(a, b, "size"@);
    lemma_view_get_append(p1, c, "size"@);
    lemma_view_get_append(p2, d, "size"@);
    lemma_view_get_append(p3, e, "size"@);
    lemma_view_get_append(p4, g, "size"@);
    lemma_view_get_append(p5, i, "size"@);
    lemma_view_get_append(p6, j, "size"@);
    lemma_view_get_append(p7, t, "size"@);
}

/// The `size` member of a legacy format as the Invidious API writes it is
/// its width and its height in decimal, width first, joined by `x` (a missing
/// width or height counts as 0).
pub proof fn lemma_legacy_format_size(f: JsonValue, w: i64, h: i64)
    requires
        i64_at(f, seq![Seg::Key("width")]) == Some(w),
        i64_at(f, seq![Seg::Key("height")]) == Some(h),
        i32::MIN <= w <= i32::MAX,
        i32::MIN <= h <= i32::MAX,
    ensures
        legacy_format_inv(legacy_format_of(f)) matches JsonView::Object(members) && view_get(members, "size"@)
            == Some(JsonView::Str(decimal(w as int) + "x"@ + decimal(h as int))),
{
    let m = legacy_format_of(f);
    assert(m.width == w as i32);
    assert(m.height == h as i32);
    lemma_format_keys_not_size();
    reveal_with_fuel(view_get, 10);
    let a = opt_text_member("url"@, m.url);
    let b = seq![
        ("itag"@, JsonView::Str(decimal(m.itag as int))),
        ("type"@, JsonView::Str(m.mime_type)),
        ("quality"@, JsonView::Str(m.quality)),
        ("fps"@, int_view(m.fps as int)),
    ];
    let c = opt_text_member("container"@, container_of(m.mime_type));
    let t = seq![
        ("resolution"@, JsonView::Str(m.quality_label)),
        ("qualityLabel"@, JsonView::Str(m.quality_label)),
        ("size"@, JsonView::Str(size_text(w as int, h as int))),
    ];
    let p1 = a + b;
    let p2 = p1 + c;
    lemma_view_get_append(a, b, "size"@);
    lemma_view_get_append(p1, c, "size"@);
    lemma_view_get_append(p2, t, "size"@);
}

// ---------------------------------------------------------------------------
// Chapters and captions
// ---------------------------------------------------------------------------

pub struct Chapter {
    pub title: String,
    pub time_range_start_millis: i32,
    pub thumbnails: Vec<Thumbnail>,
}

pub open spec fn chapter_view(c: Chapter) -> (Seq<char>, i32, Seq<(Seq<char>, i32, i32)>) {
    (c.title@, c.time_range_start_millis, thumbs_view(c.thumbnails@))
}

pub open spec fn chapters_view(v: Seq<Chapter>) -> Seq<(Seq<char>, i32, Seq<(Seq<char>, i32, i32)>)> {
    v.map_values(|c: Chapter| chapter_view(c))
}

pub open spec fn array_or_empty(v: JsonValue, path: Seq<Seg>) -> Seq<JsonValue> {
    match array_at(v, path) {
        Some(a) => a,
        None => Seq::empty(),
    }
}

/// The chapter that an entry of the chapters list describes.
pub open spec fn chapter_of(c: JsonValue) -> (Seq<char>, i32, Seq<(Seq<char>, i32, i32)>) {
    (
        str_or_empty(c, path_chapter_title()),
        i64_or_zero(c, path_chapter_start()) as i32,
        thumbnails_of(array_or_empty(c, path_chapter_thumbnails())),
    )
}

pub fn parse_chapter(c: &JsonValue) -> (r: Chapter)
    ensures
        chapter_view(r) == chapter_of(*c),
{
    let thumbnails = match c.array_at(&path_chapter_thumbnails_segs()) {
        Some(items) => parse_thumbnails(items),
        None => {
            let empty: Vec<JsonValue> = Vec::new();
            parse_thumbnails(&empty)
        },
    };
    Chapter {
        title: c.string_or_empty(&path_chapter_title_segs()),
        time_range_start_millis: c.i64_or_zero(&path_chapter_start_segs()) as i32,
        thumbnails,
    }
}

pub open spec fn spec_chapters(json: JsonValue) -> Option<Seq<(Seq<char>, i32, Seq<(Seq<char>, i32, i32)>)>> {
    match array_at(json, path_chapters()) {
        Some(items) => Some(items.map_values(|c: JsonValue| chapter_of(c))),
        None => None,
    }
}

/// The chapters from the `next` response.
pub fn get_chapters(json: &JsonValue) -> (r: Option<Vec<Chapter>>)
    ensures
        r matches Some(v) ==> spec_chapters(*json) == Some(chapters_view(v@)),
        r is None ==> spec_chapters(*json) is None,
{
    match json.array_at(&path_chapters_segs()) {
        Some(chapters) => {
            let mut out: Vec<Chapter> = Vec::new();
            let mut i: usize = 0;
            while i < chapters.len()
                invariant
                    i <= chapters@.len(),
                    chapters_view(out@) == chapters@.take(i as int).map_values(|c: JsonValue| chapter_of(c)),
                decreases chapters@.len() - i,
            {
                let ghost before = out@;
                out.push(parse_chapter(&chapters[i]));
                assert(chapters_view(out@) =~= chapters_view(before).push(chapter_of(chapters@[i as int])));
                assert(chapters@.take(i + 1).map_values(|c: JsonValue| chapter_of(c)) =~= chapters@.take(i as int).map_values(|c: JsonValue| chapter_of(c)).push(chapter_of(chapters@[i as int])));
                i = i + 1;
            }
            assert(chapters@.take(i as int) =~= chapters@);
            Some(out)
        },
        None => None,
    }
}

pub struct Caption {
    pub label: String,
    pub language_code: String,
    pub url: String,
}

pub open spec fn caption_view(c: Caption) -> (Seq<char>, Seq<char>, Seq<char>) {
    (c.label@, c.language_code@, c.url@)
}

pub open spec fn captions_view(v: Seq<Caption>) -> Seq<(Seq<char>, Seq<char>, Seq<char>)> {
    v.map_values(|c: Caption| caption_view(c))
}

/// The caption that a caption track describes; its address asks for WebVTT.
pub open spec fn caption_of(t: JsonValue) -> (Seq<char>, Seq<char>, Seq<char>) {
    (
        str_or_empty(t, path_caption_name()),
        str_or_empty(t, path_language_code()),
        replace_all(str_or_empty(t, path_base_url()), "&ip=0.0.0.0"@, "&ip=0.0.0.0&fmt=vtt"@),
    )
}

pub fn parse_caption(t: &JsonValue) -> (r: Caption)
    ensures
        caption_view(r) == caption_of(*t),
{
    let base_url = t.string_or_empty(&path_base_url_segs());
    Caption {
        label: t.string_or_empty(&path_caption_name_segs()),
        language_code: t.string_or_empty(&path_language_code_segs()),
        url: replace(base_url.as_str(), "&ip=0.0.0.0", "&ip=0.0.0.0&fmt=vtt"),
    }
}

pub open spec fn spec_captions(json: JsonValue) -> Option<Seq<(Seq<char>, Seq<char>, Seq<char>)>> {
    match array_at(json, path_caption_tracks()) {
        Some(items) => Some(items.map_values(|t: JsonValue| caption_of(t))),
        None => None,
    }
}

/// The captions of the `player` response.
pub fn get_captions(json: &JsonValue) -> (r: Option<Vec<Caption>>)
    ensures
        r matches Some(v) ==> spec_captions(*json) == Some(captions_view(v@)),
        r is None ==> spec_captions(*json) is None,
{
    match json.array_at(&path_caption_tracks_segs()) {
        Some(tracks) => {
            let mut out: Vec<Caption> = Vec::new();
            let mut i: usize = 0;
            while i < tracks.len()
                invariant
                    i <= tracks@.len(),
                    captions_view(out@) == tracks@.take(i as int).map_values(|t: JsonValue| caption_of(t)),
                decreases tracks@.len() - i,
            {
                let ghost before = out@;
                out.push(parse_caption(&tracks[i]));
                assert(captions_view(out@) =~= captions_view(before).push(caption_of(tracks@[i as int])));
                assert(tracks@.take(i + 1).map_values(|t: JsonValue| caption_of(t)) =~= tracks@.take(i as int).map_values(|t: JsonValue| caption_of(t)).push(caption_of(tracks@[i as int])));
                i = i + 1;
            }
            assert(tracks@.take(i as int) =~= tracks@);
            Some(out)
        },
        None => None,
    }
}


// ---------------------------------------------------------------------------
// Recommended videos
// ---------------------------------------------------------------------------

/// The members of a thumbnail as serde writes it.
pub open spec fn thumbnail_json(t: (Seq<char>, i32, i32)) -> JsonView {
    JsonView::Object(seq![
        ("url"@, JsonView::Str(t.0)),
        ("width"@, int_view(t.1 as int)),
        ("height"@, int_view(t.2 as int)),
    ])
}

pub fn thumbnail_value(t: &Thumbnail) -> (r: JsonValue)
    ensures
        r.jv() == thumbnail_json(thumb_view(*t)),
{
    let mut obj = ObjectBuilder::new();
    obj.push_text("url", t.url.clone());
    obj.push_int("width", t.width as i64);
    obj.push_int("height", t.height as i64);
    assert(entries_view(obj.entries@) =~= seq![
        ("url"@, JsonView::Str(t.url@)),
        ("width"@, int_view(t.width as int)),
        ("height"@, int_view(t.height as int)),
    ]);
    obj.into_value()
}

/// A list of thumbnails as serde writes it.
pub fn thumbnails_value(ts: &Vec<Thumbnail>) -> (r: JsonValue)
    ensures
        r.jv() == JsonView::Array(thumbs_view(ts@).map_values(|t: (Seq<char>, i32, i32)| thumbnail_json(t))),
{
    let mut items: Vec<JsonValue> = Vec::new();
    let mut i: usize = 0;
    while i < ts.len()
        invariant
            i <= ts@.len(),
            items_view(items@) == thumbs_view(ts@.take(i as int)).map_values(|t: (Seq<char>, i32, i32)| thumbnail_json(t)),
        decreases ts@.len() - i,
    {
        let ghost before = items@;
        let v = thumbnail_value(&ts[i]);
        items.push(v);
        proof {
            lemma_items_view(before);
            lemma_items_view(items@);
        }
        assert(items_view(items@) =~= items_view(before).push(thumbnail_json(thumb_view(ts@[i as int]))));
        assert(thumbs_view(ts@.take(i + 1)).map_values(|t: (Seq<char>, i32, i32)| thumbnail_json(t)) =~= thumbs_view(ts@.take(i as int)).map_values(|t: (Seq<char>, i32, i32)| thumbnail_json(t)).push(thumbnail_json(thumb_view(ts@[i as int]))));
        i = i + 1;
    }
    assert(ts@.take(i as int) =~= ts@);
    JsonValue::Array(items)
}

/// The value of one group of digits: its number, or 0 when it does not fit
/// in an `i32`.
pub open spec fn digit_group_value(d: Seq<char>) -> int {
    match parse_int_in(d, 0, i32::MAX as int) {
        Some(n) => n,
        None => 0,
    }
}

/// Groups of digits read as base-60 places, the last group the units
/// (`"1:02:03"` is 3723).
pub open spec fn sexagesimal(groups: Seq<Seq<char>>) -> int
    decreases groups.len(),
{
    if groups.len() == 0 {
        0
    } else {
        sexagesimal(groups.drop_last()) * 60 + digit_group_value(groups.last())
    }
}

pub proof fn lemma_sexagesimal_grows(groups: Seq<Seq<char>>, k: int)
    requires
        0 <= k <= groups.len(),
    ensures
        0 <= sexagesimal(groups.take(k)) <= sexagesimal(groups),
    decreases groups.len(),
{
    if k < groups.len() {
        lemma_sexagesimal_grows(groups.drop_last(), k);
        assert(groups.drop_last().take(k) =~= groups.take(k));
        lemma_digit_group_value_nonneg(groups.last());
        assert(sexagesimal(groups.drop_last()) >= 0);
    } else {
        assert(groups.take(k) =~= groups);
        lemma_sexagesimal_nonneg(groups);
    }
}

pub proof fn lemma_digit_group_value_nonneg(d: Seq<char>)
    ensures
        digit_group_value(d) >= 0,
{
}

pub proof fn lemma_sexagesimal_nonneg(groups: Seq<Seq<char>>)
    ensures
        sexagesimal(groups) >= 0,
    decreases groups.len(),
{
    if groups.len() > 0 {
        lemma_sexagesimal_nonneg(groups.drop_last());
        lemma_digit_group_value_nonneg(groups.last());
    }
}

/// Whether a length text reads without overflow: it has fewer than six
/// groups of digits (the place value of the sixth does not fit in an `i32`)
/// and their total fits in an `i32`.
pub open spec fn length_fits(text: Seq<char>) -> bool {
    let groups = regex_find_all("[0-9]+"@, text);
    groups.len() < 6 && sexagesimal(groups) <= i32::MAX
}

/// The length in seconds that a text such as `"12:34"` gives: its groups of
/// digits in base 60.
pub open spec fn length_from_text(text: Seq<char>) -> i32 {
    sexagesimal(regex_find_all("[0-9]+"@, text)) as i32
}

/// The length in seconds that a text such as `"12:34"` gives.
pub fn length_from_digits(text: &str) -> (r: i32)
    requires
        length_fits(text@),
    ensures
        r == length_from_text(text@),
{
    match try_length_from_digits(text) {
        Some(length) => length,
        None => 0,
    }
}

/// `Some(length_from_digits(text))` where the text reads without overflow,
/// `None` where it does not.
pub fn try_length_from_digits(text: &str) -> (r: Option<i32>)
    ensures
        r is Some <==> length_fits(text@),
        r matches Some(v) ==> v == length_from_text(text@),
{
    let groups = find_all("[0-9]+", text);
    let ghost g = groups.deep_view();
    if groups.len() >= 6 {
        return None;
    }
    let mut total: i64 = 0;
    let mut i: usize = 0;
    while i < groups.len()
        invariant
            i <= groups@.len(),
            g == groups.deep_view(),
            g == regex_find_all("[0-9]+"@, text@),
            0 <= total <= i32::MAX,
            total == sexagesimal(g.take(i as int)),
        decreases groups@.len() - i,
    {
        let part: i64 = match parse_int_between(groups[i].as_str(), 0, i32::MAX as i64) {
            Some(n) => n,
            None => 0,
        };
        proof {
            assert(g.take(i + 1).drop_last() =~= g.take(i as int));
            assert(g.take(i + 1).last() == g[i as int]);
            assert(g[i as int] == groups@[i as int]@);
        }
        let next = total * 60 + part;
        if next > i32::MAX as i64 {
            proof {
                lemma_sexagesimal_grows(g, i + 1);
            }
            return None;
        }
        total = next;
        i = i + 1;
    }
    assert(g.take(i as int) =~= g);
    Some(total as i32)
}

pub struct RecommendedItem {
    pub video_id: Option<String>,
    pub thumbnails: Vec<Thumbnail>,
    pub title: Option<String>,
    pub author: Option<String>,
    pub author_id: Option<String>,
    pub published_time_text: Option<String>,
    pub view_count: Option<i32>,
    pub length_seconds: Option<i32>,
    pub playlist_id: Option<String>,
    pub video_count: Option<String>,
}

pub struct RecommendedItemView {
    pub video_id: Option<Seq<char>>,
    pub thumbnails: Seq<(Seq<char>, i32, i32)>,
    pub title: Option<Seq<char>>,
    pub author: Option<Seq<char>>,
    pub author_id: Option<Seq<char>>,
    pub published_time_text: Option<Seq<char>>,
    pub view_count: Option<i32>,
    pub length_seconds: Option<i32>,
    pub playlist_id: Option<Seq<char>>,
    pub video_count: Option<Seq<char>>,
}

impl View for RecommendedItem {
    type V = RecommendedItemView;

    open spec fn view(&self) -> RecommendedItemView {
        RecommendedItemView {
            video_id: self.video_id.deep_view(),
            thumbnails: thumbs_view(self.thumbnails@),
            title: self.title.deep_view(),
            author: self.author.deep_view(),
            author_id: self.author_id.deep_view(),
            published_time_text: self.published_time_text.deep_view(),
            view_count: self.view_count,
            length_seconds: self.length_seconds,
            playlist_id: self.playlist_id.deep_view(),
            video_count: self.video_count.deep_view(),
        }
    }
}

/// The item that an entry of the recommendations describes: a video
/// (`compactVideoRenderer`) or a mix (`compactRadioRenderer`).
pub open spec fn recommended_of(v: JsonValue) -> RecommendedItemView {
    RecommendedItemView {
        video_id: str_at(v, path_rec_video_id()),
        thumbnails: thumbnails_of(array_or_empty(v, path_rec_thumbnails())),
        title: first_some(str_at(v, path_rec_title()), str_at(v, path_radio_title())),
        author: str_at(v, path_rec_author()),
        author_id: str_at(v, path_rec_author_id()),
        published_time_text: str_at(v, path_rec_published()),
        view_count: match str_at(v, path_rec_view_count()) {
            Some(t) => match digits_number(t) {
                Some(n) => Some(n as i32),
                None => None,
            },
            None => None,
        },
        length_seconds: match str_at(v, path_rec_length()) {
            Some(t) => Some(length_from_text(t)),
            None => None,
        },
        playlist_id: str_at(v, path_radio_playlist_id()),
        video_count: str_at(v, path_radio_video_count()),
    }
}

/// Reading an entry of the recommendations is defined where its length
/// text, if it has one, reads without overflow (elsewhere it panics).
pub open spec fn recommended_item_defined(v: JsonValue) -> bool {
    match str_at(v, path_rec_length()) {
        Some(t) => length_fits(t),
        None => true,
    }
}

pub fn parse_recommended(v: &JsonValue) -> (r: RecommendedItem)
    requires
        recommended_item_defined(*v),
    ensures
        r@ == recommended_of(*v),
{
    let thumbnails = match v.array_at(&path_rec_thumbnails_segs()) {
        Some(items) => parse_thumbnails(items),
        None => {
            let empty: Vec<JsonValue> = Vec::new();
            parse_thumbnails(&empty)
        },
    };
    let title = match v.string_at(&path_rec_title_segs()) {
        Some(title) => Some(title),
        None => v.string_at(&path_radio_title_segs()),
    };
    let view_count = match v.str_ref_at(&path_rec_view_count_segs()) {
        Some(text) => number_from_digits(text),
        None => None,
    };
    let length_seconds = match v.str_ref_at(&path_rec_length_segs()) {
        Some(text) => Some(length_from_digits(text)),
        None => None,
    };
    RecommendedItem {
        video_id: v.string_at(&path_rec_video_id_segs()),
        thumbnails,
        title,
        author: v.string_at(&path_rec_author_segs()),
        author_id: v.string_at(&path_rec_author_id_segs()),
        published_time_text: v.string_at(&path_rec_published_segs()),
        view_count,
        length_seconds,
        playlist_id: v.string_at(&path_radio_playlist_id_segs()),
        video_count: v.string_at(&path_radio_video_count_segs()),
    }
}

pub open spec fn spec_recommended(json: JsonValue) -> Option<Seq<RecommendedItemView>> {
    match array_at(json, path_recommended()) {
        Some(items) => Some(items.map_values(|v: JsonValue| recommended_of(v))),
        None => None,
    }
}

pub open spec fn recommended_view(v: Seq<RecommendedItem>) -> Seq<RecommendedItemView> {
    v.map_values(|r: RecommendedItem| r@)
}

/// Reading the recommendations is defined where each entry can be read.
pub open spec fn recommended_defined(json: JsonValue) -> bool {
    match array_at(json, path_recommended()) {
        Some(items) => forall|i: int| 0 <= i < items.len() ==> #[trigger] recommended_item_defined(items[i]),
        None => true,
    }
}

/// The recommended videos and mixes of the `next` response.
pub fn get_recommended(json: &JsonValue) -> (r: Option<Vec<RecommendedItem>>)
    requires
        recommended_defined(*json),
    ensures
        r matches Some(v) ==> spec_recommended(*json) == Some(recommended_view(v@)),
        r is None ==> spec_recommended(*json) is None,
{
    match json.array_at(&path_recommended_segs()) {
        Some(items) => {
            let mut out: Vec<RecommendedItem> = Vec::new();
            let mut i: usize = 0;
            while i < items.len()
                invariant
                    i <= items@.len(),
                    recommended_view(out@) == items@.take(i as int).map_values(|v: JsonValue| recommended_of(v)),
                    forall|k: int| 0 <= k < items@.len() ==> recommended_item_defined(#[trigger] items@[k]),
                decreases items@.len() - i,
            {
                let ghost before = out@;
                assert(recommended_item_defined(items@[i as int]));
                out.push(parse_recommended(&items[i]));
                assert(recommended_view(out@) =~= recommended_view(before).push(recommended_of(items@[i as int])));
                assert(items@.take(i + 1).map_values(|v: JsonValue| recommended_of(v)) =~= items@.take(i as int).map_values(|v: JsonValue| recommended_of(v)).push(recommended_of(items@[i as int])));
                i = i + 1;
            }
            assert(items@.take(i as int) =~= items@);
            Some(out)
        },
        None => None,
    }
}

proof fn lemma_recommended_defined_items(json: JsonValue, items: Seq<JsonValue>)
    requires
        array_at(json, path_recommended()) == Some(items),
    ensures
        recommended_defined(json) == forall|k: int| 0 <= k < items.len() ==> #[trigger] recommended_item_defined(items[k]),
{
    assert(match array_at(json, path_recommended()) {
        Some(found) => found == items,
        None => false,
    });
}

fn recommended_defined_exec(json: &JsonValue) -> (r: bool)
    ensures
        r == recommended_defined(*json),
{
    match json.array_at(&path_recommended_segs()) {
        Some(items) => {
            let mut i: usize = 0;
            while i < items.len()
                invariant
                    i <= items@.len(),
                    array_at(*json, path_recommended()) == Some(items@),
                    forall|k: int| 0 <= k < i ==> recommended_item_defined(#[trigger] items@[k]),
                decreases items@.len() - i,
            {
                let fits = match items[i].str_ref_at(&path_rec_length_segs()) {
                    Some(text) => try_length_from_digits(text).is_some(),
                    None => true,
                };
                if !fits {
                    assert(!recommended_item_defined(items@[i as int]));
                    proof {
                        lemma_recommended_defined_items(*json, items@);
                    }
                    return false;
                }
                i = i + 1;
            }
            true
        },
        None => true,
    }
}

/// `Some(get_recommended(json))` where that is defined, `None` where it is not.
pub fn try_get_recommended(json: &JsonValue) -> (r: Option<Option<Vec<RecommendedItem>>>)
    ensures
        r is Some <==> recommended_defined(*json),
        r matches Some(Some(v)) ==> spec_recommended(*json) == Some(recommended_view(v@)),
        r matches Some(None) ==> spec_recommended(*json) is None,
{
    if recommended_defined_exec(json) {
        Some(get_recommended(json))
    } else {
        None
    }
}

/// A recommended video as the Invidious API writes it; there is none unless
/// the item has an id, a title, an author with an id, a length and a view
/// count (a mix has none of these).
pub open spec fn recommended_inv(r: RecommendedItemView) -> Option<JsonView> {
    match (r.video_id, r.title, r.author, r.author_id, r.length_seconds, r.view_count) {
        (Some(video_id), Some(title), Some(author), Some(author_id), Some(length), Some(views)) => Some(
            JsonView::Object(seq![
                ("videoId"@, JsonView::Str(video_id)),
                ("title"@, JsonView::Str(title)),
                ("videoThumbnails"@, JsonView::Array(r.thumbnails.map_values(|t: (Seq<char>, i32, i32)| thumbnail_json(t)))),
                ("author"@, JsonView::Str(author)),
                ("authorUrl"@, JsonView::Str("/channel/"@ + author_id)),
                ("authorId"@, JsonView::Str(author_id)),
                ("lengthSeconds"@, int_view(length as int)),
                ("viewCount"@, int_view(views as int)),
            ]),
        ),
        _ => None,
    }
}

impl RecommendedItem {
    /// The item as the Invidious API writes it.
    pub fn into_inv(&self) -> (r: Option<JsonValue>)
        ensures
            r matches Some(v) ==> recommended_inv(self@) == Some(v.jv()),
            r is None ==> recommended_inv(self@) is None,
    {
        match (&self.video_id, &self.title, &self.author, &self.author_id, self.length_seconds, self.view_count) {
            (Some(video_id), Some(title), Some(author), Some(author_id), Some(length_seconds), Some(view_count)) => {
                let mut obj = ObjectBuilder::new();
                obj.push_text("videoId", video_id.clone());
                obj.push_text("title", title.clone());
                obj.push("videoThumbnails", thumbnails_value(&self.thumbnails));
                obj.push_text("author", author.clone());
                obj.push_text("authorUrl", cat("/channel/", author_id.as_str()));
                obj.push_text("authorId", author_id.clone());
                obj.push_int("lengthSeconds", length_seconds as i64);
                obj.push_int("viewCount", view_count as i64);
                assert(entries_view(obj.entries@) =~= seq![
                    ("videoId"@, JsonView::Str(video_id@)),
                    ("title"@, JsonView::Str(title@)),
                    ("videoThumbnails"@, JsonView::Array(thumbs_view(self.thumbnails@).map_values(|t: (Seq<char>, i32, i32)| thumbnail_json(t)))),
                    ("author"@, JsonView::Str(author@)),
                    ("authorUrl"@, JsonView::Str("/channel/"@ + author_id@)),
                    ("authorId"@, JsonView::Str(author_id@)),
                    ("lengthSeconds"@, int_view(length_seconds as int)),
                    ("viewCount"@, int_view(view_count as int)),
                ]);
                Some(obj.into_value())
            },
            _ => None,
        }
    }
}


// ---------------------------------------------------------------------------
// Music in the description
// ---------------------------------------------------------------------------

/// The array at `path` in the first of `panels` from index `k` on that has
/// one there.
pub open spec fn first_array_from(panels: Seq<JsonValue>, path: Seq<Seg>, k: int) -> Option<Seq<JsonValue>>
    decreases panels.len() - k,
{
    if k < 0 || k >= panels.len() {
        None
    } else {
        match array_at(panels[k], path) {
            Some(a) => Some(a),
            None => first_array_from(panels, path, k + 1),
        }
    }
}

pub struct MusicTrack {
    pub song: Option<String>,
    pub artist: Option<String>,
    pub album: Option<String>,
    pub license: Option<String>,
    pub video_id: Option<String>,
}

pub struct MusicTrackView {
    pub song: Option<Seq<char>>,
    pub artist: Option<Seq<char>>,
    pub album: Option<Seq<char>>,
    pub license: Option<Seq<char>>,
    pub video_id: Option<Seq<char>>,
}

impl View for MusicTrack {
    type V = MusicTrackView;

    open spec fn view(&self) -> MusicTrackView {
        MusicTrackView {
            song: self.song.deep_view(),
            artist: self.artist.deep_view(),
            album: self.album.deep_view(),
            license: self.license.deep_view(),
            video_id: self.video_id.deep_view(),
        }
    }
}

/// Artist, album and license, as far as they are known.
pub type TrackInfo = (Option<Seq<char>>, Option<Seq<char>>, Option<Seq<char>>);

/// What one info row adds: the artists row names the artist, the licenses
/// row the license, and a row without a status key the album.
pub open spec fn info_step(s: TrackInfo, row: JsonValue) -> TrackInfo {
    match str_at(row, path_row_status_key()) {
        Some(k) => if k == "structured-description-music-section-artists-row-state-id"@ {
            match str_at(row, path_row_default()) {
                Some(a) => (Some(a), s.1, s.2),
                None => s,
            }
        } else if k == "structured-description-music-section-licenses-row-state-id"@ {
            match str_at(row, path_row_expanded()) {
                Some(l) => (s.0, s.1, Some(l)),
                None => s,
            }
        } else {
            s
        },
        None => match str_at(row, path_row_default()) {
            Some(a) => (s.0, Some(a), s.2),
            None => s,
        },
    }
}

/// The info rows read one after another; a later row wins.
pub open spec fn track_info(rows: Seq<JsonValue>) -> TrackInfo
    decreases rows.len(),
{
    if rows.len() == 0 {
        (None, None, None)
    } else {
        info_step(track_info(rows.drop_last()), rows.last())
    }
}

/// The track that a carousel lockup describes.
pub open spec fn track_of(lockup: JsonValue) -> MusicTrackView {
    let info = match array_at(lockup, path_lockup_rows()) {
        Some(rows) => track_info(rows),
        None => (None, None, None),
    };
    MusicTrackView {
        song: str_at(lockup, path_lockup_title()),
        artist: info.0,
        album: info.1,
        license: info.2,
        video_id: str_at(lockup, path_lockup_video_id()),
    }
}

pub fn parse_track(lockup: &JsonValue) -> (r: MusicTrack)
    ensures
        r@ == track_of(*lockup),
{
    let mut artist: Option<String> = None;
    let mut album: Option<String> = None;
    let mut license: Option<String> = None;
    match lockup.array_at(&path_lockup_rows_segs()) {
        Some(rows) => {
            let mut i: usize = 0;
            while i < rows.len()
                invariant
                    i <= rows@.len(),
                    (artist.deep_view(), album.deep_view(), license.deep_view()) == track_info(rows@.take(i as int)),
                decreases rows@.len() - i,
            {
                let row = &rows[i];
                assert(rows@.take(i + 1).drop_last() =~= rows@.take(i as int));
                match row.str_ref_at(&path_row_status_key_segs()) {
                    Some(key) => {
                        if str_eq(key, "structured-description-music-section-artists-row-state-id") {
                            match row.string_at(&path_row_default_segs()) {
                                Some(a) => {
                                    artist = Some(a);
                                },
                                None => {},
                            }
                        } else if str_eq(key, "structured-description-music-section-licenses-row-state-id") {
                            match row.string_at(&path_row_expanded_segs()) {
                                Some(l) => {
                                    license = Some(l);
                                },
                                None => {},
                            }
                        }
                    },
                    None => {
                        match row.string_at(&path_row_default_segs()) {
                            Some(a) => {
                                album = Some(a);
                            },
                            None => {},
                        }
                    },
                }
                i = i + 1;
            }
            assert(rows@.take(i as int) =~= rows@);
        },
        None => {},
    }
    MusicTrack {
        song: lockup.string_at(&path_lockup_title_segs()),
        artist,
        album,
        license,
        video_id: lockup.string_at(&path_lockup_video_id_segs()),
    }
}

pub open spec fn tracks_view(v: Seq<MusicTrack>) -> Seq<MusicTrackView> {
    v.map_values(|t: MusicTrack| t@)
}

pub open spec fn spec_music_tracks(json: JsonValue) -> Option<Seq<MusicTrackView>> {
    match array_at(json, path_panels()) {
        Some(panels) => match first_array_from(panels, path_music_lockups(), 0) {
            Some(lockups) => Some(lockups.map_values(|l: JsonValue| track_of(l))),
            None => None,
        },
        None => None,
    }
}

fn parse_tracks(lockups: &Vec<JsonValue>) -> (r: Vec<MusicTrack>)
    ensures
        tracks_view(r@) == lockups@.map_values(|l: JsonValue| track_of(l)),
{
    let mut out: Vec<MusicTrack> = Vec::new();
    let mut i: usize = 0;
    while i < lockups.len()
        invariant
            i <= lockups@.len(),
            tracks_view(out@) == lockups@.take(i as int).map_values(|l: JsonValue| track_of(l)),
        decreases lockups@.len() - i,
    {
        let ghost before = out@;
        out.push(parse_track(&lockups[i]));
        assert(tracks_view(out@) =~= tracks_view(before).push(track_of(lockups@[i as int])));
        assert(lockups@.take(i + 1).map_values(|l: JsonValue| track_of(l)) =~= lockups@.take(i as int).map_values(|l: JsonValue| track_of(l)).push(track_of(lockups@[i as int])));
        i = i + 1;
    }
    assert(lockups@.take(i as int) =~= lockups@);
    out
}

/// The music tracks listed in the description, from the first engagement
/// panel that has a music section.
pub fn get_music_tracks(json: &JsonValue) -> (r: Option<Vec<MusicTrack>>)
    ensures
        r matches Some(v) ==> spec_music_tracks(*json) == Some(tracks_view(v@)),
        r is None ==> spec_music_tracks(*json) is None,
{
    match json.array_at(&path_panels_segs()) {
        Some(panels) => {
            let mut i: usize = 0;
            while i < panels.len()
                invariant
                    i <= panels@.len(),
                    first_array_from(panels@, path_music_lockups(), 0) == first_array_from(panels@, path_music_lockups(), i as int),
                    array_at(*json, path_panels()) == Some(panels@),
                decreases panels@.len() - i,
            {
                match panels[i].array_at(&path_music_lockups_segs()) {
                    Some(lockups) => {
                        return Some(parse_tracks(lockups));
                    },
                    None => {},
                }
                i = i + 1;
            }
            None
        },
        None => None,
    }
}

/// A music track as the Invidious API writes it: the members that are known.
pub open spec fn track_inv(t: MusicTrackView) -> JsonView {
    JsonView::Object(
        opt_text_member("song"@, t.song) + opt_text_member("artist"@, t.artist) + opt_text_member("album"@, t.album)
            + opt_text_member("license"@, t.license) + opt_text_member("videoId"@, t.video_id),
    )
}

impl MusicTrack {
    /// The track as the Invidious API writes it.
    pub fn into_inv(&self) -> (r: JsonValue)
        ensures
            r.jv() == track_inv(self@),
    {
        let mut obj = ObjectBuilder::new();
        assert(entries_view(obj.entries@) =~= Seq::empty());
        obj.push_opt_text("song", &self.song);
        assert(entries_view(obj.entries@) =~= opt_text_member("song"@, self@.song));
        obj.push_opt_text("artist", &self.artist);
        obj.push_opt_text("album", &self.album);
        obj.push_opt_text("license", &self.license);
        obj.push_opt_text("videoId", &self.video_id);
        obj.into_value()
    }
}

// ---------------------------------------------------------------------------
// Comment continuations
// ---------------------------------------------------------------------------

pub struct CommentContinuation {
    pub title: String,
    pub token: String,
}

pub open spec fn continuation_view(c: CommentContinuation) -> (Seq<char>, Seq<char>) {
    (c.title@, c.token@)
}

pub open spec fn continuations_view(v: Seq<CommentContinuation>) -> Seq<(Seq<char>, Seq<char>)> {
    v.map_values(|c: CommentContinuation| continuation_view(c))
}

/// The sort menu items that have both a title and a continuation token.
pub open spec fn continuations_of(items: Seq<JsonValue>) -> Seq<(Seq<char>, Seq<char>)>
    decreases items.len(),
{
    if items.len() == 0 {
        Seq::empty()
    } else {
        let rest = continuations_of(items.drop_last());
        match (str_at(items.last(), path_item_title()), str_at(items.last(), path_item_token())) {
            (Some(title), Some(token)) => rest.push((title, token)),
            _ => rest,
        }
    }
}

pub open spec fn spec_comment_continuations(json: JsonValue) -> Option<Seq<(Seq<char>, Seq<char>)>> {
    match array_at(json, path_panels()) {
        Some(panels) => match first_array_from(panels, path_sub_menu_items(), 0) {
            Some(items) => Some(continuations_of(items)),
            None => None,
        },
        None => None,
    }
}

fn parse_continuations(items: &Vec<JsonValue>) -> (r: Vec<CommentContinuation>)
    ensures
        continuations_view(r@) == continuations_of(items@),
{
    let mut out: Vec<CommentContinuation> = Vec::new();
    let mut i: usize = 0;
    while i < items.len()
        invariant
            i <= items@.len(),
            continuations_view(out@) == continuations_of(items@.take(i as int)),
        decreases items@.len() - i,
    {
        let ghost before = out@;
        assert(items@.take(i + 1).drop_last() =~= items@.take(i as int));
        match (items[i].string_at(&path_item_title_segs()), items[i].string_at(&path_item_token_segs())) {
            (Some(title), Some(token)) => {
                out.push(CommentContinuation { title, token });
                assert(continuations_view(out@) =~= continuations_view(before).push((title@, token@)));
            },
            _ => {},
        }
        i = i + 1;
    }
    assert(items@.take(i as int) =~= items@);
    out
}

/// The comment sort options (title and continuation token) of the first
/// engagement panel that offers them.
pub fn get_comment_continuations(json: &JsonValue) -> (r: Option<Vec<CommentContinuation>>)
    ensures
        r matches Some(v) ==> spec_comment_continuations(*json) == Some(continuations_view(v@)),
        r is None ==> spec_comment_continuations(*json) is None,
{
    match json.array_at(&path_panels_segs()) {
        Some(panels) => {
            let mut i: usize = 0;
            while i < panels.len()
                invariant
                    i <= panels@.len(),
                    first_array_from(panels@, path_sub_menu_items(), 0) == first_array_from(panels@, path_sub_menu_items(), i as int),
                    array_at(*json, path_panels()) == Some(panels@),
                decreases panels@.len() - i,
            {
                match panels[i].array_at(&path_sub_menu_items_segs()) {
                    Some(items) => {
                        return Some(parse_continuations(items));
                    },
                    None => {},
                }
                i = i + 1;
            }
            None
        },
        None => None,
    }
}


// ---------------------------------------------------------------------------
// Description with links
// ---------------------------------------------------------------------------

/// The part of a redirect address between `&q=` and `&v=`.
pub open spec fn redirect_target(u: Seq<char>) -> Seq<char> {
    split_all(split_all(u, "&q="@)[1], "&v="@)[0]
}

/// A redirect address that names its target between `&q=` and `&v=`.
pub open spec fn is_query_redirect(u: Seq<char>) -> bool {
    contains(u, "&q="@) && contains(u, "&v="@)
}

/// The target of a redirect address cannot be percent-decoded (the address
/// is not used then).
pub open spec fn run_url_fails(run: JsonValue) -> bool {
    match str_at(run, path_run_url()) {
        Some(u) => is_query_redirect(u) && percent_decoded(redirect_target(u)) is None,
        None => false,
    }
}

/// The address that a command run links to: the decoded target of a
/// redirect, any other address but a bare redirect, a video on the short host
/// (at its start time when that is positive), or a channel on the site.
pub open spec fn run_url(run: JsonValue) -> Option<Seq<char>> {
    match str_at(run, path_run_url()) {
        Some(u) => if is_query_redirect(u) {
            percent_decoded(redirect_target(u))
        } else if !contains(u, "https://www.youtube.com/redirect"@) {
            Some(u)
        } else {
            None
        },
        None => match str_at(run, path_run_video_id()) {
            Some(id) => match i64_at(run, path_run_start_time()) {
                Some(t) => if t > 0 {
                    Some(SHORT_WEBSITE_BASE_URL@ + "/"@ + id + "?t="@ + decimal(t as int))
                } else {
                    Some(SHORT_WEBSITE_BASE_URL@ + "/"@ + id)
                },
                None => None,
            },
            None => match str_at(run, path_run_base_url()) {
                Some(b) => Some(WEBSITE_BASE_URL@ + b),
                None => None,
            },
        },
    }
}

fn redirect_target_exec(u: &str) -> (r: String)
    requires
        is_query_redirect(u@),
    ensures
        r@ == redirect_target(u@),
{
    proof {
        reveal_strlit("&q=");
        reveal_strlit("&v=");
        lemma_split_all_len(u@, "&q="@);
    }
    let parts = split(u, "&q=");
    assert(parts@[1]@ == split_all(u@, "&q="@)[1]);
    let inner = split(parts[1].as_str(), "&v=");
    proof {
        lemma_split_all_len(parts@[1]@, "&v="@);
    }
    assert(inner@[0]@ == split_all(parts@[1]@, "&v="@)[0]);
    inner[0].clone()
}

/// The address of a command run; `Err` where its target cannot be decoded.
fn link_of_run(run: &JsonValue) -> (r: Result<Option<String>, ()>)
    ensures
        r is Err <==> run_url_fails(*run),
        r matches Ok(u) ==> u.deep_view() == run_url(*run),
{
    match run.str_ref_at(&path_run_url_segs()) {
        Some(u) => {
            if str_contains(u, "&q=") && str_contains(u, "&v=") {
                let target = redirect_target_exec(u);
                match url_decode(target.as_str()) {
                    Some(decoded) => Ok(Some(decoded)),
                    None => Err(()),
                }
            } else if !str_contains(u, "https://www.youtube.com/redirect") {
                Ok(Some(u.to_string()))
            } else {
                Ok(None)
            }
        },
        None => match run.str_ref_at(&path_run_video_id_segs()) {
            Some(id) => match run.i64_at(&path_run_start_time_segs()) {
                Some(t) => {
                    let video = cat3(SHORT_WEBSITE_BASE_URL, "/", id);
                    if t > 0 {
                        let time = int_to_string(t);
                        Ok(Some(cat3(video.as_str(), "?t=", time.as_str())))
                    } else {
                        Ok(Some(video))
                    }
                },
                None => Ok(None),
            },
            None => match run.str_ref_at(&path_run_base_url_segs()) {
                Some(b) => Ok(Some(cat(WEBSITE_BASE_URL, b))),
                None => Ok(None),
            },
        },
    }
}

/// The text of a link: without `•`, a slash and the blanks after it made
/// `@`, and trimmed.
pub open spec fn link_label(contents: Seq<char>) -> Seq<char> {
    trimmed(regex_replace_first("/\\s@*"@, replace_all(contents, "•"@, ""@), "@"@))
}

pub open spec fn link_html(url: Seq<char>, contents: Seq<char>) -> Seq<char> {
    "<a href=\""@ + url + "\">"@ + link_label(contents) + "</a>"@
}

fn link_html_exec(url: &str, contents: &str) -> (r: String)
    ensures
        r@ == link_html(url@, contents@),
{
    let cleaned = replace(contents, "•", "");
    let marked = replace_first("/\\s@*", cleaned.as_str(), "@");
    let label = trim(marked.as_str());
    let head = cat3("<a href=\"", url, "\">");
    let body = cat3(head.as_str(), label.as_str(), "</a>");
    body
}

pub open spec fn text_or_empty(t: Option<Seq<char>>) -> Seq<char> {
    match t {
        Some(x) => x,
        None => Seq::empty(),
    }
}

/// One command run applied to the text built so far and the growth of its
/// UTF-16 length over the description's (`offset`); `None` where applying it
/// is undefined and panics: an undecodable redirect, an index sum beyond
/// `usize`, or a text that became shorter than the description.
pub open spec fn html_step(state: Option<(Seq<char>, int)>, run: JsonValue, description_units: Seq<u16>) -> Option<(Seq<char>, int)> {
    match state {
        None => None,
        Some((text, offset)) => {
            let start = (i64_or_zero(run, path_run_start()) as usize) as int;
            let length = (i64_or_zero(run, path_run_length()) as usize) as int;
            if length == 0 {
                state
            } else if run_url_fails(run) {
                None
            } else {
                match run_url(run) {
                    None => state,
                    Some(url) => if start + length > usize::MAX || start + offset > usize::MAX
                        || start + length + offset > usize::MAX {
                        None
                    } else {
                        let contents = text_or_empty(utf16_slice_text(description_units, start, start + length));
                        let units = utf16_encode(text);
                        let before = text_or_empty(utf16_slice_text(units, 0, start + offset));
                        let after = text_or_empty(utf16_slice_text(units, start + length + offset, units.len() as int));
                        let next = before + link_html(url, contents) + after;
                        let n = utf16_encode(next).len() as int;
                        if n < description_units.len() {
                            None
                        } else {
                            Some((next, n - description_units.len()))
                        }
                    },
                }
            }
        },
    }
}

/// The command runs applied in order to the description `text`.
pub open spec fn html_fold(runs: Seq<JsonValue>, text: Seq<char>) -> Option<(Seq<char>, int)>
    decreases runs.len(),
{
    if runs.len() == 0 {
        Some((text, 0))
    } else {
        html_step(html_fold(runs.drop_last(), text), runs.last(), utf16_encode(text))
    }
}

/// The description with its links as HTML anchors: `Some(r)` for the result
/// `r`, `None` where applying the runs is undefined (it panics).
pub open spec fn description_html_outcome(json: JsonValue) -> Option<Option<Seq<char>>> {
    match str_at(json, path_attributed_content()) {
        None => Some(None),
        Some(text) => match array_at(json, path_command_runs()) {
            None => Some(Some(text)),
            Some(runs) => if runs.len() == 0 {
                Some(Some(text))
            } else {
                match html_fold(runs, text) {
                    Some(state) => Some(Some(state.0)),
                    None => None,
                }
            },
        },
    }
}

/// Once a run is undefined, the rest of the runs change nothing.
pub proof fn lemma_html_fold_stays_none(runs: Seq<JsonValue>, text: Seq<char>, k: int)
    requires
        0 <= k <= runs.len(),
        html_fold(runs.take(k), text) is None,
    ensures
        html_fold(runs, text) is None,
    decreases runs.len(),
{
    if k < runs.len() {
        assert(runs.drop_last().take(k) =~= runs.take(k));
        lemma_html_fold_stays_none(runs.drop_last(), text, k);
    } else {
        assert(runs.take(k) =~= runs);
    }
}

fn slice_or_empty(units: &Vec<u16>, start: usize, end: usize) -> (r: String)
    ensures
        r@ == text_or_empty(utf16_slice_text(units@, start as int, end as int)),
{
    match units.subvector_as_str(start, end) {
        Ok(s) => s,
        Err(_) => String::new(),
    }
}

/// The links of the description, applied one command run after another.
#[verifier::spinoff_prover]
#[verifier::rlimit(40)]
fn description_html_outcome_exec(json: &JsonValue) -> (r: Option<Option<String>>)
    ensures
        r.deep_view() == description_html_outcome(*json),
{
    let description = match json.string_at(&path_attributed_content_segs()) {
        Some(d) => d,
        None => return Some(None),
    };
    let runs = match json.array_at(&path_command_runs_segs()) {
        Some(runs) => runs,
        None => return Some(Some(description)),
    };
    if runs.len() == 0 {
        return Some(Some(description));
    }
    let description_units = encode_utf16(description.as_str());
    let attr_len = description_units.len();
    let mut text = description.clone();
    let mut units = description_units.clone();
    let mut offset: usize = 0;
    let mut i: usize = 0;
    while i < runs.len()
        invariant
            i <= runs@.len(),
            description_units@ == utf16_encode(description@),
            attr_len == description_units@.len(),
            units@ == utf16_encode(text@),
            html_fold(runs@.take(i as int), description@) == Some((text@, offset as int)),
            str_at(*json, path_attributed_content()) == Some(description@),
            array_at(*json, path_command_runs()) == Some(runs@),
            runs@.len() > 0,
        decreases runs@.len() - i,
    {
        let run = &runs[i];
        assert(runs@.take(i + 1).drop_last() =~= runs@.take(i as int));
        let start: usize = match run.i64_at(&path_run_start_segs()) {
            Some(s) => #[verifier::truncate] (s as usize),
            None => 0,
        };
        let length: usize = match run.i64_at(&path_run_length_segs()) {
            Some(l) => #[verifier::truncate] (l as usize),
            None => 0,
        };
        if length != 0 {
            let url = match link_of_run(run) {
                Ok(url) => url,
                Err(()) => {
                    proof {
                        lemma_html_fold_stays_none(runs@, description@, i + 1);
                    }
                    return None;
                },
            };
            match url {
                Some(url) => {
                    let end = match start.checked_add(length) {
                        Some(e) => e,
                        None => {
                            proof {
                                lemma_html_fold_stays_none(runs@, description@, i + 1);
                            }
                            return None;
                        },
                    };
                    let contents = slice_or_empty(&description_units, start, end);
                    let link = link_html_exec(url.as_str(), contents.as_str());
                    let before_end = match start.checked_add(offset) {
                        Some(e) => e,
                        None => {
                            proof {
                                lemma_html_fold_stays_none(runs@, description@, i + 1);
                            }
                            return None;
                        },
                    };
                    let before = slice_or_empty(&units, 0, before_end);
                    let after_start = match end.checked_add(offset) {
                        Some(e) => e,
                        None => {
                            proof {
                                lemma_html_fold_stays_none(runs@, description@, i + 1);
                            }
                            return None;
                        },
                    };
                    let after = slice_or_empty(&units, after_start, units.len());
                    let next = cat3(before.as_str(), link.as_str(), after.as_str());
                    let next_units = encode_utf16(next.as_str());
                    if next_units.len() < attr_len {
                        proof {
                            lemma_html_fold_stays_none(runs@, description@, i + 1);
                        }
                        return None;
                    }
                    offset = next_units.len() - attr_len;
                    units = next_units;
                    text = next;
                },
                None => {},
            }
        }
        i = i + 1;
    }
    assert(runs@.take(i as int) =~= runs@);
    proof {
        lemma_utf16_roundtrip(text@);
    }
    match string_from_utf16(units.as_slice()) {
        Ok(s) => Some(Some(s)),
        Err(_) => Some(Some(text)),
    }
}

/// The description with its links (`commandRuns`) written as HTML anchors,
/// from the `next` response; defined where `description_html_outcome` is.
pub fn get_description_html(json: &JsonValue) -> (r: Option<String>)
    requires
        description_html_outcome(*json) is Some,
    ensures
        Some(r.deep_view()) == description_html_outcome(*json),
{
    match description_html_outcome_exec(json) {
        Some(r) => r,
        None => None,
    }
}

/// `Some(get_description_html(json))` where that is defined, `None` where it
/// is not.
pub fn try_get_description_html(json: &JsonValue) -> (r: Option<Option<String>>)
    ensures
        r.deep_view() == description_html_outcome(*json),
{
    match description_html_outcome_exec(json) {
        Some(_) => Some(get_description_html(json)),
        None => None,
    }
}


// ---------------------------------------------------------------------------
// Publication date from the localized date text
// ---------------------------------------------------------------------------

/// A four-digit year of this century.
pub open spec fn years_pattern() -> Seq<char> {
    "20[0-9][0-9]"@
}

/// The month names of `lang` in a map from language codes to month names,
/// falling back on English.
pub open spec fn month_names(map: JsonValue, lang: &str) -> Option<Seq<JsonValue>> {
    match array_at(map, seq![Seg::Key(lang)]) {
        Some(names) => Some(names),
        None => if lang@ != "en"@ {
            array_at(map, seq![Seg::Key("en")])
        } else {
            None
        },
    }
}

fn month_names_exec<'a>(map: &'a JsonValue, lang: &str) -> (r: Option<&'a Vec<JsonValue>>)
    ensures
        r matches Some(v) ==> month_names(*map, lang) == Some(v@),
        r is None ==> month_names(*map, lang) is None,
{
    let key = [Seg::Key(lang)];
    assert(key@ == seq![Seg::Key(lang)]);
    match map.array_at(&key) {
        Some(names) => Some(names),
        None => if !str_eq(lang, "en") {
            let en = [Seg::Key("en")];
            assert(en@ == seq![Seg::Key("en")]);
            map.array_at(&en)
        } else {
            None
        },
    }
}

/// The number in the first group of a match, or `day` when it does not fit
/// in an `i32`.
pub open spec fn day_from_groups(groups: Seq<Option<Seq<char>>>, day: int) -> int {
    if groups.len() > 0 && groups[0] is Some {
        match parse_int_in(groups[0]->0, i32::MIN as int, i32::MAX as int) {
            Some(n) => n,
            None => day,
        }
    } else {
        day
    }
}

/// The month names are tried from December back to January: each one that
/// occurs in `day_month` sets the month, and the first of these after whose
/// removal a number remains sets the day and ends the search. `None` where
/// the search reaches a name that is not text (which panics).
pub open spec fn month_scan(names: Seq<JsonValue>, day_month: Seq<char>, i: int, month: int, day: int) -> Option<(int, int)>
    decreases names.len() - i,
{
    if i < 0 || i >= names.len() {
        Some((month, day))
    } else {
        match names[names.len() - 1 - i] {
            JsonValue::String(name) => if contains(day_month, name@) {
                let m = names.len() - i;
                match regex_captures("[0-9]+"@, replace_all(day_month, name@, ""@)) {
                    Some(groups) => Some((m, day_from_groups(groups, day))),
                    None => month_scan(names, day_month, i + 1, m, day),
                }
            } else {
                month_scan(names, day_month, i + 1, month, day)
            },
            _ => None,
        }
    }
}

fn month_scan_exec(names: &Vec<JsonValue>, day_month: &str) -> (r: Option<(usize, i32)>)
    ensures
        match r {
            Some((m, d)) => month_scan(names@, day_month@, 0, 12, 1) == Some((m as int, d as int)),
            None => month_scan(names@, day_month@, 0, 12, 1) is None,
        },
{
    let mut month: usize = 12;
    let mut day: i32 = 1;
    let mut i: usize = 0;
    while i < names.len()
        invariant
            i <= names@.len(),
            month_scan(names@, day_month@, 0, 12, 1) == month_scan(names@, day_month@, i as int, month as int, day as int),
        decreases names@.len() - i,
    {
        match &names[names.len() - 1 - i] {
            JsonValue::String(name) => {
                if str_contains(day_month, name.as_str()) {
                    month = names.len() - i;
                    let rest = replace(day_month, name.as_str(), "");
                    match captures("[0-9]+", rest.as_str()) {
                        Some(groups) => {
                            if groups.len() > 0 {
                                match &groups[0] {
                                    Some(number) => {
                                        match parse_i32(number.as_str()) {
                                            Some(n) => {
                                                day = n;
                                            },
                                            None => {},
                                        }
                                    },
                                    None => {},
                                }
                            }
                            return Some((month, day));
                        },
                        None => {},
                    }
                }
            },
            _ => {
                return None;
            },
        }
        i = i + 1;
    }
    Some((month, day))
}

/// The year of a text: the number of its first match of the year pattern.
/// The outer `None` is where reading panics (a match without its whole-match
/// group, which the regex crate does not produce).
pub open spec fn year_number(year: Seq<char>) -> Option<Option<int>> {
    match regex_captures(years_pattern(), year) {
        Some(groups) => if groups.len() > 0 && groups[0] is Some {
            Some(parse_int_in(groups[0]->0, i32::MIN as int, i32::MAX as int))
        } else {
            None
        },
        None => Some(None),
    }
}

fn year_number_exec(year: &str) -> (r: Option<Option<i32>>)
    ensures
        match r {
            Some(Some(y)) => year_number(year@) == Some(Some(y as int)),
            Some(None) => year_number(year@) == Some(None::<int>),
            None => year_number(year@) is None,
        },
{
    match captures("20[0-9][0-9]", year) {
        Some(groups) => {
            if groups.len() > 0 {
                match &groups[0] {
                    Some(digits) => match parse_i32(digits.as_str()) {
                        Some(y) => Some(Some(y)),
                        None => Some(None),
                    },
                    None => None,
                }
            } else {
                None
            }
        },
        None => Some(None),
    }
}

/// The date parts from the panels, or else from the date text: its year and
/// the text without it. The outer `None` is where reading panics.
pub open spec fn published_parts(json: JsonValue) -> Option<Option<(Seq<char>, Seq<char>)>> {
    match spec_date_parts(json) {
        Some(parts) => Some(Some(parts)),
        None => match spec_date_text(json) {
            Some(t) => match regex_captures(years_pattern(), t) {
                Some(groups) => if groups.len() > 0 && groups[0] is Some {
                    Some(Some((groups[0]->0, regex_replace_first(years_pattern(), t, ""@))))
                } else {
                    None
                },
                None => Some(None),
            },
            None => Some(None),
        },
    }
}

fn published_parts_exec(json: &JsonValue) -> (r: Option<Option<(String, String)>>)
    ensures
        match r {
            Some(p) => published_parts(*json) == Some(pair_view(p)),
            None => published_parts(*json) is None,
        },
{
    match get_date_parts(json) {
        Some(parts) => Some(Some(parts)),
        None => match get_date_text(json) {
            Some(text) => match captures("20[0-9][0-9]", text.as_str()) {
                Some(groups) => {
                    if groups.len() > 0 {
                        match &groups[0] {
                            Some(year) => Some(Some((year.clone(), replace_first("20[0-9][0-9]", text.as_str(), "")))),
                            None => None,
                        }
                    } else {
                        None
                    }
                },
                None => Some(None),
            },
            None => Some(None),
        },
    }
}

/// `"{year}-{month}-{day}"`.
pub open spec fn date_string(year: int, month: int, day: int) -> Seq<char> {
    decimal(year) + "-"@ + decimal(month) + "-"@ + decimal(day)
}

/// The publication timestamp read from the localized date with the month
/// names of `lang` in `month_map`: `Some(r)` for the result `r`, `None`
/// where reading it is undefined (it panics).
pub open spec fn published_outcome(json: JsonValue, lang: &str, month_map: JsonValue) -> Option<Option<i64>> {
    match published_parts(json) {
        None => None,
        Some(None) => Some(None),
        Some(Some((label, value))) => {
            let year = if regex_captures(years_pattern(), label) is Some {
                label
            } else {
                value
            };
            let day_month = if year == label {
                value
            } else {
                label
            };
            match year_number(year) {
                None => None,
                Some(year_num) => match month_names(month_map, lang) {
                    None => Some(None),
                    Some(names) => match month_scan(names, day_month, 0, 12, 1) {
                        None => None,
                        Some((month, day)) => match year_num {
                            Some(y) => Some(date_timestamp(date_string(y, month, day), "%Y-%m-%d"@)),
                            None => Some(None),
                        },
                    },
                },
            }
        },
    }
}

fn published_outcome_exec(json: &JsonValue, lang: &str, month_map: &JsonValue) -> (r: Option<Option<i64>>)
    ensures
        r == published_outcome(*json, lang, *month_map),
        r matches Some(Some(t)) ==> t % 86400 == 0,
{
    let (label, value) = match published_parts_exec(json) {
        None => return None,
        Some(None) => return Some(None),
        Some(Some(parts)) => parts,
    };
    let year = if captures("20[0-9][0-9]", label.as_str()).is_some() {
        label.clone()
    } else {
        value.clone()
    };
    let day_month = if str_eq(year.as_str(), label.as_str()) {
        value
    } else {
        label
    };
    let year_num = match year_number_exec(year.as_str()) {
        None => return None,
        Some(y) => y,
    };
    let names = match month_names_exec(month_map, lang) {
        None => return Some(None),
        Some(names) => names,
    };
    let (month, day) = match month_scan_exec(names, day_month.as_str()) {
        None => return None,
        Some(found) => found,
    };
    match year_num {
        Some(y) => {
            let ys = int_to_string(y as i64);
            let ms = usize_to_string(month);
            let ds = int_to_string(day as i64);
            let head = cat3(ys.as_str(), "-", ms.as_str());
            let date = cat3(head.as_str(), "-", ds.as_str());
            assert(date@ == date_string(y as int, month as int, day as int));
            match parse_date_timestamp(date.as_str(), "%Y-%m-%d") {
                Ok(t) => Some(Some(t)),
                Err(_) => Some(None),
            }
        },
        None => Some(None),
    }
}

/// The publication timestamp, read from the localized date of the `next`
/// response with the month names of `lang` from `month_map` (a map from
/// language codes to the twelve month names); defined where
/// `published_outcome` is.
pub fn get_published(json: &JsonValue, lang: &str, month_map: &JsonValue) -> (r: Option<i64>)
    requires
        published_outcome(*json, lang, *month_map) is Some,
    ensures
        Some(r) == published_outcome(*json, lang, *month_map),
        r matches Some(t) ==> t % 86400 == 0,
{
    match published_outcome_exec(json, lang, month_map) {
        Some(r) => r,
        None => None,
    }
}

/// `Some(get_published(..))` where that is defined, `None` where it is not.
pub fn try_get_published(json: &JsonValue, lang: &str, month_map: &JsonValue) -> (r: Option<Option<i64>>)
    ensures
        r == published_outcome(*json, lang, *month_map),
        r matches Some(Some(t)) ==> t % 86400 == 0,
{
    match published_outcome_exec(json, lang, month_map) {
        Some(_) => Some(get_published(json, lang, month_map)),
        None => None,
    }
}


// ---------------------------------------------------------------------------
// The whole video as the Invidious API writes it
// ---------------------------------------------------------------------------

pub fn legacy_formats_value(v: &Vec<LegacyFormat>) -> (r: JsonValue)
    ensures
        r.jv() == JsonView::Array(legacy_views(v@).map_values(|f: LegacyFormatView| legacy_format_inv(f))),
{
    let mut items: Vec<JsonValue> = Vec::new();
    let mut i: usize = 0;
    while i < v.len()
        invariant
            i <= v@.len(),
            items@.len() == i,
            forall|k: int| 0 <= k < i ==> (#[trigger] items@[k]).jv() == legacy_format_inv(v@[k]@),
        decreases v@.len() - i,
    {
        items.push(v[i].into_inv());
        i = i + 1;
    }
    proof {
        lemma_items_view(items@);
    }
    assert(items_view(items@) =~= legacy_views(v@).map_values(|f: LegacyFormatView| legacy_format_inv(f)));
    JsonValue::Array(items)
}

pub fn adaptive_formats_value(v: &Vec<AdaptiveFormat>) -> (r: JsonValue)
    ensures
        r.jv() == JsonView::Array(adaptive_views(v@).map_values(|f: AdaptiveFormatView| adaptive_format_inv(f))),
{
    let mut items: Vec<JsonValue> = Vec::new();
    let mut i: usize = 0;
    while i < v.len()
        invariant
            i <= v@.len(),
            items@.len() == i,
            forall|k: int| 0 <= k < i ==> (#[trigger] items@[k]).jv() == adaptive_format_inv(v@[k]@),
        decreases v@.len() - i,
    {
        items.push(v[i].into_inv());
        i = i + 1;
    }
    proof {
        lemma_items_view(items@);
    }
    assert(items_view(items@) =~= adaptive_views(v@).map_values(|f: AdaptiveFormatView| adaptive_format_inv(f)));
    JsonValue::Array(items)
}

/// A caption as serde writes it.
pub open spec fn caption_json(c: (Seq<char>, Seq<char>, Seq<char>)) -> JsonView {
    JsonView::Object(seq![
        ("label"@, JsonView::Str(c.0)),
        ("language_code"@, JsonView::Str(c.1)),
        ("url"@, JsonView::Str(c.2)),
    ])
}

pub fn captions_value(v: &Vec<Caption>) -> (r: JsonValue)
    ensures
        r.jv() == JsonView::Array(captions_view(v@).map_values(|c: (Seq<char>, Seq<char>, Seq<char>)| caption_json(c))),
{
    let mut items: Vec<JsonValue> = Vec::new();
    let mut i: usize = 0;
    while i < v.len()
        invariant
            i <= v@.len(),
            items@.len() == i,
            forall|k: int| 0 <= k < i ==> (#[trigger] items@[k]).jv() == caption_json(caption_view(v@[k])),
        decreases v@.len() - i,
    {
        let c = &v[i];
        let mut obj = ObjectBuilder::new();
        obj.push_text("label", c.label.clone());
        obj.push_text("language_code", c.language_code.clone());
        obj.push_text("url", c.url.clone());
        assert(entries_view(obj.entries@) =~= seq![
            ("label"@, JsonView::Str(c.label@)),
            ("language_code"@, JsonView::Str(c.language_code@)),
            ("url"@, JsonView::Str(c.url@)),
        ]);
        items.push(obj.into_value());
        i = i + 1;
    }
    proof {
        lemma_items_view(items@);
    }
    assert(items_view(items@) =~= captions_view(v@).map_values(|c: (Seq<char>, Seq<char>, Seq<char>)| caption_json(c)));
    JsonValue::Array(items)
}

/// The recommended items that the Invidious API can write, written.
pub open spec fn recommended_invs(items: Seq<RecommendedItemView>) -> Seq<JsonView>
    decreases items.len(),
{
    if items.len() == 0 {
        Seq::empty()
    } else {
        recommended_invs(items.drop_last()) + match recommended_inv(items.last()) {
            Some(x) => seq![x],
            None => Seq::empty(),
        }
    }
}

pub fn recommended_value(v: &Vec<RecommendedItem>) -> (r: JsonValue)
    ensures
        r.jv() == JsonView::Array(recommended_invs(recommended_view(v@))),
{
    let mut items: Vec<JsonValue> = Vec::new();
    let mut i: usize = 0;
    while i < v.len()
        invariant
            i <= v@.len(),
            items_view(items@) == recommended_invs(recommended_view(v@.take(i as int))),
        decreases v@.len() - i,
    {
        let ghost before = items@;
        assert(recommended_view(v@.take(i + 1)).drop_last() =~= recommended_view(v@.take(i as int)));
        match v[i].into_inv() {
            Some(x) => {
                items.push(x);
                proof {
                    lemma_items_view(before);
                    lemma_items_view(items@);
                }
                assert(items_view(items@) =~= items_view(before) + seq![x.jv()]);
            },
            None => {
                assert(recommended_invs(recommended_view(v@.take(i + 1))) =~= recommended_invs(recommended_view(v@.take(i as int))));
            },
        }
        i = i + 1;
    }
    assert(v@.take(i as int) =~= v@);
    JsonValue::Array(items)
}

pub fn tracks_value(v: &Vec<MusicTrack>) -> (r: JsonValue)
    ensures
        r.jv() == JsonView::Array(tracks_view(v@).map_values(|t: MusicTrackView| track_inv(t))),
{
    let mut items: Vec<JsonValue> = Vec::new();
    let mut i: usize = 0;
    while i < v.len()
        invariant
            i <= v@.len(),
            items@.len() == i,
            forall|k: int| 0 <= k < i ==> (#[trigger] items@[k]).jv() == track_inv(v@[k]@),
        decreases v@.len() - i,
    {
        items.push(v[i].into_inv());
        i = i + 1;
    }
    proof {
        lemma_items_view(items@);
    }
    assert(items_view(items@) =~= tracks_view(v@).map_values(|t: MusicTrackView| track_inv(t)));
    JsonValue::Array(items)
}

pub open spec fn html_jv(json: JsonValue) -> Option<JsonView> {
    match description_html_outcome(json) {
        Some(Some(t)) => Some(JsonView::Str(t)),
        _ => None,
    }
}

/// The publication timestamp from the localized date, or else from the
/// `player` response's publish date.
pub open spec fn published_jv(json: JsonValue, lang: &str, month_map: JsonValue) -> Option<JsonView> {
    match published_outcome(json, lang, month_map) {
        Some(Some(t)) => Some(int_view(t as int)),
        _ => match spec_publish_date(json) {
            Some(t) => Some(int_view(t as int)),
            None => None,
        },
    }
}

pub open spec fn opt_i32_int(v: Option<i32>) -> Option<int> {
    match v {
        Some(i) => Some(i as int),
        None => None,
    }
}

/// Title, id, description, description with links, publication time and
/// relative publication text.
pub open spec fn inv_head(e: Seq<(Seq<char>, JsonView)>, json: JsonValue, lang: &str, month_map: JsonValue) -> Seq<(Seq<char>, JsonView)> {
    let e = with_member(e, "title"@, text_jv(spec_title(json)));
    let e = with_member(e, "videoId"@, text_jv(spec_video_id(json)));
    let e = with_member(e, "description"@, text_jv(spec_description(json)));
    let e = with_member(e, "descriptionHtml"@, html_jv(json));
    let e = with_member(e, "published"@, published_jv(json, lang, month_map));
    with_member(e, "publishedText"@, text_jv(spec_published_text(json)))
}

/// Keywords, counts, audience and author.
pub open spec fn inv_people(e: Seq<(Seq<char>, JsonView)>, json: JsonValue) -> Seq<(Seq<char>, JsonView)> {
    let e = with_member(e, "keywords"@, match spec_keywords(json) {
        Some(k) => Some(texts_jv(k)),
        None => None,
    });
    let e = with_member(e, "viewCount"@, int_jv(opt_i32_int(spec_view_count(json))));
    let e = with_member(e, "likeCount"@, int_jv(opt_i32_int(spec_like_count(json))));
    let e = with_member(e, "isFamilyFriendly"@, bool_jv(bool_at(json, path_is_family_safe())));
    let e = with_member(e, "allowedRegions"@, match spec_available_countries(json) {
        Some(c) => Some(texts_jv(c)),
        None => None,
    });
    let e = with_member(e, "genre"@, text_jv(str_at(json, path_category())));
    let e = with_member(e, "author"@, text_jv(spec_author(json)));
    let e = with_member(e, "authorId"@, text_jv(spec_author_id(json)));
    let e = with_member(e, "authorUrl"@, match spec_author_id(json) {
        Some(id) => Some(JsonView::Str("/channel/"@ + id)),
        None => None,
    });
    with_member(e, "authorThumbnails"@, match spec_author_thumbnails(json) {
        Some(t) => Some(JsonView::Array(t.map_values(|x: (Seq<char>, i32, i32)| thumbnail_json(x)))),
        None => None,
    })
}

/// Subscriber count text, length, ratings, listing, live state and manifests.
pub open spec fn inv_state(e: Seq<(Seq<char>, JsonView)>, json: JsonValue) -> Seq<(Seq<char>, JsonView)> {
    let e = with_member(e, "subCountText"@, text_jv(spec_sub_count_text(json)));
    let e = with_member(e, "lengthSeconds"@, int_jv(opt_i32_int(spec_length_seconds(json))));
    let e = with_member(e, "allowRatings"@, bool_jv(bool_at(json, path_details_allow_ratings())));
    let e = with_member(e, "isListed"@, bool_jv(spec_is_listed(json)));
    let e = with_member(e, "liveNow"@, bool_jv(spec_is_live_now(json)));
    let e = with_member(e, "hlsUrl"@, text_jv(str_at(json, path_hls_url())));
    with_member(e, "dashUrl"@, text_jv(str_at(json, path_dash_url())))
}

/// Streams, captions, recommendations and music.
pub open spec fn inv_streams(e: Seq<(Seq<char>, JsonView)>, json: JsonValue) -> Seq<(Seq<char>, JsonView)> {
    let e = with_member(e, "formatStreams"@, match spec_legacy_formats(json) {
        Some(f) => Some(JsonView::Array(f.map_values(|x: LegacyFormatView| legacy_format_inv(x)))),
        None => None,
    });
    let e = with_member(e, "adaptiveFormats"@, match spec_adaptive_formats(json) {
        Some(f) => Some(JsonView::Array(f.map_values(|x: AdaptiveFormatView| adaptive_format_inv(x)))),
        None => None,
    });
    let e = with_member(e, "captions"@, match spec_captions(json) {
        Some(c) => Some(JsonView::Array(c.map_values(|x: (Seq<char>, Seq<char>, Seq<char>)| caption_json(x)))),
        None => None,
    });
    let e = with_member(e, "recommendedVideos"@, match spec_recommended(json) {
        Some(r) => Some(JsonView::Array(recommended_invs(r))),
        None => None,
    });
    with_member(e, "musicTracks"@, match spec_music_tracks(json) {
        Some(t) => Some(JsonView::Array(t.map_values(|x: MusicTrackView| track_inv(x)))),
        None => None,
    })
}

/// The members of `existing` followed by those of the video that it lacks.
pub open spec fn fmt_inv_entries(existing: Seq<(Seq<char>, JsonView)>, json: JsonValue, lang: &str, month_map: JsonValue) -> Seq<(Seq<char>, JsonView)> {
    inv_streams(inv_state(inv_people(inv_head(existing, json, lang, month_map), json), json), json)
}

/// Filling in a missing description with links, publication time,
/// subscriber count text or recommendations is defined where those getters
/// are (elsewhere it panics).
pub open spec fn fmt_inv_defined(existing: Seq<(Seq<char>, JsonView)>, json: JsonValue, lang: &str, month_map: JsonValue) -> bool {
    &&& view_get(existing, "descriptionHtml"@) is None ==> description_html_outcome(json) is Some
    &&& view_get(existing, "published"@) is None ==> published_outcome(json, lang, month_map) is Some
    &&& view_get(existing, "subCountText"@) is None ==> sub_count_defined(json)
    &&& view_get(existing, "recommendedVideos"@) is None ==> recommended_defined(json)
}

fn add_head(obj: &mut ObjectBuilder, json: &JsonValue, lang: &str, month_map: &JsonValue)
    requires
        fmt_inv_defined(entries_view(old(obj).entries@), *json, lang, *month_map),
    ensures
        entries_view(final(obj).entries@) == inv_head(entries_view(old(obj).entries@), *json, lang, *month_map),
{
    let ghost e0 = entries_view(obj.entries@);
    proof {
        reveal_strlit("title");
        reveal_strlit("videoId");
        reveal_strlit("description");
        reveal_strlit("descriptionHtml");
        reveal_strlit("published");
        assert("title"@.len() == 5 && "videoId"@.len() == 7 && "description"@.len() == 11);
        assert("descriptionHtml"@.len() == 15 && "published"@.len() == 9);
        lemma_with_member_other(e0, "title"@, text_jv(spec_title(*json)), "descriptionHtml"@);
        lemma_with_member_other(e0, "title"@, text_jv(spec_title(*json)), "published"@);
    }
    obj.add_missing("title", text_value(get_title(json)));
    let ghost e1 = entries_view(obj.entries@);
    let video_id = match get_video_id(json) {
        Some(id) => Some(id.to_string()),
        None => None,
    };
    obj.add_missing("videoId", text_value(video_id));
    let ghost e2 = entries_view(obj.entries@);
    proof {
        lemma_with_member_other(e1, "videoId"@, text_jv(spec_video_id(*json)), "descriptionHtml"@);
        lemma_with_member_other(e1, "videoId"@, text_jv(spec_video_id(*json)), "published"@);
    }
    obj.add_missing("description", text_value(get_description(json)));
    let ghost e3 = entries_view(obj.entries@);
    proof {
        lemma_with_member_other(e2, "description"@, text_jv(spec_description(*json)), "descriptionHtml"@);
        lemma_with_member_other(e2, "description"@, text_jv(spec_description(*json)), "published"@);
    }
    if !obj.contains_key("descriptionHtml") {
        obj.add_missing("descriptionHtml", text_value(get_description_html(json)));
    }
    let ghost e4 = entries_view(obj.entries@);
    assert(e4 == with_member(e3, "descriptionHtml"@, html_jv(*json)));
    proof {
        lemma_with_member_other(e3, "descriptionHtml"@, html_jv(*json), "published"@);
    }
    if !obj.contains_key("published") {
        let published = match get_published(json, lang, month_map) {
            Some(t) => Some(t),
            None => get_publish_date(json),
        };
        obj.add_missing("published", i64_value(published));
    }
    let ghost e5 = entries_view(obj.entries@);
    assert(e5 == with_member(e4, "published"@, published_jv(*json, lang, *month_map)));
    obj.add_missing("publishedText", text_value(get_published_text(json)));
}

fn add_people(obj: &mut ObjectBuilder, json: &JsonValue)
    ensures
        entries_view(final(obj).entries@) == inv_people(entries_view(old(obj).entries@), *json),
{
    let keywords = match get_keywords(json) {
        Some(k) => Some(texts_value(&k)),
        None => None,
    };
    obj.add_missing("keywords", keywords);
    obj.add_missing("viewCount", i32_value(get_view_count(json)));
    obj.add_missing("likeCount", i32_value(get_like_count(json)));
    obj.add_missing("isFamilyFriendly", bool_value(is_family_friendly(json)));
    let regions = match get_available_countries(json) {
        Some(c) => Some(strs_value(&c)),
        None => None,
    };
    obj.add_missing("allowedRegions", regions);
    obj.add_missing("genre", text_value(get_category(json)));
    obj.add_missing("author", text_value(get_author(json)));
    let author_id = get_author_id(json);
    let author_url = match &author_id {
        Some(id) => Some(JsonValue::String(cat("/channel/", id.as_str()))),
        None => None,
    };
    obj.add_missing("authorId", text_value(author_id));
    obj.add_missing("authorUrl", author_url);
    let thumbnails = match get_author_thumbnails(json) {
        Some(t) => Some(thumbnails_value(&t)),
        None => None,
    };
    obj.add_missing("authorThumbnails", thumbnails);
}

fn add_state(obj: &mut ObjectBuilder, json: &JsonValue)
    requires
        view_get(entries_view(old(obj).entries@), "subCountText"@) is None ==> sub_count_defined(*json),
    ensures
        entries_view(final(obj).entries@) == inv_state(entries_view(old(obj).entries@), *json),
{
    if !obj.contains_key("subCountText") {
        obj.add_missing("subCountText", text_value(get_sub_count_text(json)));
    }
    obj.add_missing("lengthSeconds", i32_value(get_length_seconds(json)));
    obj.add_missing("allowRatings", bool_value(get_allow_ratings(json)));
    obj.add_missing("isListed", bool_value(is_listed(json)));
    obj.add_missing("liveNow", bool_value(is_live_now(json)));
    obj.add_missing("hlsUrl", text_value(get_hls_url(json)));
    obj.add_missing("dashUrl", text_value(get_dash_url(json)));
}

fn add_streams(obj: &mut ObjectBuilder, json: &JsonValue)
    requires
        view_get(entries_view(old(obj).entries@), "recommendedVideos"@) is None ==> recommended_defined(*json),
    ensures
        entries_view(final(obj).entries@) == inv_streams(entries_view(old(obj).entries@), *json),
{
    let legacy = match get_legacy_formats(json) {
        Some(f) => Some(legacy_formats_value(&f)),
        None => None,
    };
    obj.add_missing("formatStreams", legacy);
    let adaptive = match get_adaptive_formats(json) {
        Some(f) => Some(adaptive_formats_value(&f)),
        None => None,
    };
    obj.add_missing("adaptiveFormats", adaptive);
    let captions = match get_captions(json) {
        Some(c) => Some(captions_value(&c)),
        None => None,
    };
    obj.add_missing("captions", captions);
    if !obj.contains_key("recommendedVideos") {
        proof {
            lemma_with_member_keeps_all();
        }
        let recommended = match get_recommended(json) {
            Some(r) => Some(recommended_value(&r)),
            None => None,
        };
        obj.add_missing("recommendedVideos", recommended);
    }
    let tracks = match get_music_tracks(json) {
        Some(t) => Some(tracks_value(&t)),
        None => None,
    };
    obj.add_missing("musicTracks", tracks);
}

/// The members of `existing_map` followed by those of the video, from the
/// `next` and `player` responses in `json`, that it lacks, as the Invidious
/// API names them. The publication time reads month names from `month_map`
/// (language code to month names) for `lang`.
pub fn fmt_inv_with_existing_map(json: &JsonValue, lang: &str, month_map: &JsonValue, existing_map: Vec<(String, JsonValue)>) -> (r: Vec<(String, JsonValue)>)
    requires
        fmt_inv_defined(entries_view(existing_map@), *json, lang, *month_map),
    ensures
        entries_view(r@) == fmt_inv_entries(entries_view(existing_map@), *json, lang, *month_map),
{
    let mut obj = ObjectBuilder::from_entries(existing_map);
    let ghost e0 = entries_view(obj.entries@);
    add_head(&mut obj, json, lang, month_map);
    add_people(&mut obj, json);
    proof {
        let e1 = inv_head(e0, *json, lang, *month_map);
        if view_get(e0, "subCountText"@) is Some {
            lemma_inv_head_keeps(e0, *json, lang, *month_map, "subCountText"@);
            lemma_inv_people_keeps(e1, *json, "subCountText"@);
        }
    }
    add_state(&mut obj, json);
    proof {
        let e1 = inv_head(e0, *json, lang, *month_map);
        let e2 = inv_people(e1, *json);
        if view_get(e0, "recommendedVideos"@) is Some {
            lemma_inv_head_keeps(e0, *json, lang, *month_map, "recommendedVideos"@);
            lemma_inv_people_keeps(e1, *json, "recommendedVideos"@);
            lemma_inv_state_keeps(e2, *json, "recommendedVideos"@);
        }
    }
    add_streams(&mut obj, json);
    obj.entries
}

/// The video as the Invidious API writes it.
pub fn fmt_inv(json: &JsonValue, lang: &str, month_map: &JsonValue) -> (r: Vec<(String, JsonValue)>)
    requires
        fmt_inv_defined(Seq::empty(), *json, lang, *month_map),
    ensures
        entries_view(r@) == fmt_inv_entries(Seq::empty(), *json, lang, *month_map),
{
    let existing: Vec<(String, JsonValue)> = Vec::new();
    assert(entries_view(existing@) =~= Seq::empty());
    fmt_inv_with_existing_map(json, lang, month_map, existing)
}

/// `Some(fmt_inv_with_existing_map(..))` where that is defined, `None` where
/// it is not.
pub fn try_fmt_inv_with_existing_map(json: &JsonValue, lang: &str, month_map: &JsonValue, existing_map: Vec<(String, JsonValue)>) -> (r: Option<Vec<(String, JsonValue)>>)
    ensures
        r is Some <==> fmt_inv_defined(entries_view(existing_map@), *json, lang, *month_map),
        r matches Some(v) ==> entries_view(v@) == fmt_inv_entries(entries_view(existing_map@), *json, lang, *month_map),
{
    let obj = ObjectBuilder::from_entries(existing_map);
    if !obj.contains_key("descriptionHtml") && description_html_outcome_exec(json).is_none() {
        return None;
    }
    if !obj.contains_key("published") && published_outcome_exec(json, lang, month_map).is_none() {
        return None;
    }
    if !obj.contains_key("subCountText") && !sub_count_defined_exec(json) {
        return None;
    }
    if !obj.contains_key("recommendedVideos") && !recommended_defined_exec(json) {
        return None;
    }
    Some(fmt_inv_with_existing_map(json, lang, month_map, obj.entries))
}

/// `Some(fmt_inv(..))` where that is defined, `None` where it is not.
pub fn try_fmt_inv(json: &JsonValue, lang: &str, month_map: &JsonValue) -> (r: Option<Vec<(String, JsonValue)>>)
    ensures
        r is Some <==> fmt_inv_defined(Seq::empty(), *json, lang, *month_map),
        r matches Some(v) ==> entries_view(v@) == fmt_inv_entries(Seq::empty(), *json, lang, *month_map),
{
    if description_html_outcome_exec(json).is_none() || published_outcome_exec(json, lang, month_map).is_none()
        || !sub_count_defined_exec(json) || !recommended_defined_exec(json) {
        return None;
    }
    Some(fmt_inv(json, lang, month_map))
}


// ---------------------------------------------------------------------------
// Deciphered stream addresses
// ---------------------------------------------------------------------------

pub open spec fn host_pattern() -> Seq<char> {
    r"(.*?\.googlevideo\.com)"@
}

/// `url` followed by `&host=` and its percent-encoded host, when it names a
/// `googlevideo.com` host.
pub open spec fn host_param_url(url: Seq<char>) -> Seq<char> {
    match capture_group(host_pattern(), url, 1) {
        Some(host) => url + "&host="@ + percent_encode_bytes(encode_utf8(host)),
        None => url,
    }
}

pub fn add_host_param_to_url(url: &str) -> (r: String)
    ensures
        r@ == host_param_url(url@),
{
    match capture(r"(.*?\.googlevideo\.com)", url, 1) {
        Some(host) => {
            let encoded = url_encode(host.as_str());
            cat3(url, "&host=", encoded.as_str())
        },
        None => url.to_string(),
    }
}

fn copy_opt(o: &Option<String>) -> (r: Option<String>)
    ensures
        r.deep_view() == o.deep_view(),
{
    match o {
        Some(s) => Some(s.clone()),
        None => None,
    }
}

pub open spec fn legacy_with_url(f: LegacyFormatView, url: Option<Seq<char>>) -> LegacyFormatView {
    LegacyFormatView { url: url, ..f }
}

fn legacy_with_url_exec(f: &LegacyFormat, url: Option<String>) -> (r: LegacyFormat)
    ensures
        r@ == legacy_with_url(f@, url.deep_view()),
{
    LegacyFormat {
        url,
        signature_cipher: copy_opt(&f.signature_cipher),
        itag: f.itag,
        mime_type: f.mime_type.clone(),
        bitrate: f.bitrate,
        width: f.width,
        height: f.height,
        last_modified_time: f.last_modified_time,
        quality: f.quality.clone(),
        fps: f.fps,
        quality_label: f.quality_label.clone(),
        projection_type: f.projection_type.clone(),
        audio_quality: f.audio_quality.clone(),
        approx_duration_ms: f.approx_duration_ms,
        audio_sample_rate: f.audio_sample_rate.clone(),
        audio_channels: f.audio_channels,
    }
}

pub open spec fn adaptive_with_url(f: AdaptiveFormatView, url: Option<Seq<char>>) -> AdaptiveFormatView {
    AdaptiveFormatView { url: url, ..f }
}

fn adaptive_with_url_exec(f: &AdaptiveFormat, url: Option<String>) -> (r: AdaptiveFormat)
    ensures
        r@ == adaptive_with_url(f@, url.deep_view()),
{
    AdaptiveFormat {
        url,
        signature_cipher: copy_opt(&f.signature_cipher),
        itag: f.itag,
        mime_type: f.mime_type.clone(),
        bitrate: f.bitrate,
        width: f.width,
        height: f.height,
        init_range: f.init_range,
        index_range: f.index_range,
        last_modified_time: f.last_modified_time,
        content_length: f.content_length,
        quality: f.quality.clone(),
        fps: f.fps,
        quality_label: copy_opt(&f.quality_label),
        projection_type: f.projection_type.clone(),
        average_bitrate: f.average_bitrate,
        approx_duration_ms: f.approx_duration_ms,
        audio_sample_rate: f.audio_sample_rate,
        audio_quality: copy_opt(&f.audio_quality),
        audio_channels: f.audio_channels,
    }
}

/// A legacy format after deciphering: with a signature cipher, the address
/// that its script gave (`deciphered`, `None` where no script ran) with the
/// host added; without one, its own address with the host added.
pub open spec fn legacy_deciphered(f: LegacyFormatView, deciphered: Option<Seq<char>>) -> LegacyFormatView {
    match f.signature_cipher {
        Some(_) => match deciphered {
            Some(u) => legacy_with_url(f, Some(host_param_url(u))),
            None => f,
        },
        None => legacy_with_url(f, Some(host_param_url(f.url->0))),
    }
}

/// A legacy format with the address that deciphering gave.
pub fn with_deciphered_legacy(f: &LegacyFormat, deciphered: Option<String>) -> (r: LegacyFormat)
    requires
        f@.signature_cipher is None ==> f@.url is Some,
    ensures
        r@ == legacy_deciphered(f@, deciphered.deep_view()),
{
    match &f.signature_cipher {
        Some(_) => match deciphered {
            Some(u) => legacy_with_url_exec(f, Some(add_host_param_to_url(u.as_str()))),
            None => legacy_with_url_exec(f, copy_opt(&f.url)),
        },
        None => {
            let own = match &f.url {
                Some(u) => add_host_param_to_url(u.as_str()),
                None => String::new(),
            };
            legacy_with_url_exec(f, Some(own))
        },
    }
}

/// The address in the signature cipher of `f`, where it has one, decodes.
pub open spec fn legacy_cipher_decodable(f: LegacyFormatView) -> bool {
    f.signature_cipher matches Some(c) ==> cipher_url_decodable(c)
}

/// The address in the signature cipher of `f`, where it has one, decodes.
pub open spec fn adaptive_cipher_decodable(f: AdaptiveFormatView) -> bool {
    f.signature_cipher matches Some(c) ==> cipher_url_decodable(c)
}

/// Whether a deciphering script can be made for `f` with `js_code`.
pub open spec fn legacy_has_script(f: LegacyFormatView, js_code: Seq<char>) -> bool {
    f.signature_cipher matches Some(c) && executable_code(c, js_code) is Ok
}

/// The deciphering script of `f` with `js_code`, quoted for the engine, where
/// one can be made.
pub open spec fn legacy_script(f: LegacyFormatView, js_code: Seq<char>) -> Option<Seq<char>> {
    match f.signature_cipher {
        Some(c) => match executable_code(c, js_code) {
            Ok(code) => Some(quoted_js_code(code)),
            Err(_) => None,
        },
        None => None,
    }
}

/// What the engine gave for format `i`, where a script was made for it.
pub open spec fn legacy_output(f: LegacyFormatView, outputs: Seq<Option<Seq<char>>>, i: int, js_code: Seq<char>) -> Option<Seq<char>> {
    if legacy_has_script(f, js_code) && i < outputs.len() {
        outputs[i]
    } else {
        None
    }
}

/// The legacy formats with the addresses that the engine gave for their
/// scripts (`outputs`, one entry per format, `None` where the script failed);
/// a format without a cipher gets its own address with the host added.
pub open spec fn legacy_given(fs: Seq<LegacyFormatView>, outputs: Seq<Option<Seq<char>>>, js_code: Seq<char>) -> Seq<LegacyFormatView> {
    Seq::new(fs.len(), |i: int| legacy_deciphered(fs[i], legacy_output(fs[i], outputs, i, js_code)))
}

/// Deciphers a legacy format with what the engine gave for its script.
fn decipher_legacy(f: &LegacyFormat, js_code: &str, output: Option<String>) -> (r: LegacyFormat)
    requires
        f@.signature_cipher is None ==> f@.url is Some,
        legacy_cipher_decodable(f@),
    ensures
        r@ == legacy_deciphered(f@, if legacy_has_script(f@, js_code@) { output.deep_view() } else { None }),
{
    let deciphered = match &f.signature_cipher {
        Some(cipher) => match format_decipher_code_into_executable(cipher.as_str(), js_code) {
            Ok(_) => output,
            Err(_) => None,
        },
        None => None,
    };
    with_deciphered_legacy(f, deciphered)
}

pub open spec fn opt_at(outputs: Seq<Option<String>>, i: int) -> Option<String> {
    if i < outputs.len() {
        outputs[i]
    } else {
        None
    }
}

fn copy_opt_at(outputs: &Vec<Option<String>>, i: usize) -> (r: Option<String>)
    ensures
        r.deep_view() == opt_at(outputs@, i as int).deep_view(),
{
    if i < outputs.len() {
        copy_opt(&outputs[i])
    } else {
        None
    }
}

fn decipher_legacy_list(fs: &Vec<LegacyFormat>, js_code: &str, outputs: &Vec<Option<String>>) -> (r: Vec<LegacyFormat>)
    requires
        forall|i: int| 0 <= i < fs@.len() ==> (#[trigger] fs@[i]@).signature_cipher is None ==> fs@[i]@.url is Some,
        forall|i: int| 0 <= i < fs@.len() ==> legacy_cipher_decodable(#[trigger] fs@[i]@),
    ensures
        legacy_views(r@) == legacy_given(legacy_views(fs@), outputs.deep_view(), js_code@),
{
    let mut out: Vec<LegacyFormat> = Vec::new();
    let mut i: usize = 0;
    while i < fs.len()
        invariant
            i <= fs@.len(),
            out@.len() == i,
            forall|k: int| 0 <= k < fs@.len() ==> (#[trigger] fs@[k]@).signature_cipher is None ==> fs@[k]@.url is Some,
            forall|k: int| 0 <= k < fs@.len() ==> legacy_cipher_decodable(#[trigger] fs@[k]@),
            forall|k: int| 0 <= k < i ==> (#[trigger] out@[k])@ == legacy_deciphered(
                fs@[k]@,
                legacy_output(fs@[k]@, outputs.deep_view(), k, js_code@),
            ),
        decreases fs@.len() - i,
    {
        assert(fs@[i as int]@.signature_cipher is None ==> fs@[i as int]@.url is Some);
        assert(legacy_cipher_decodable(fs@[i as int]@));
        let output = copy_opt_at(outputs, i);
        assert(legacy_has_script(fs@[i as int]@, js_code@) ==> output.deep_view() == legacy_output(
            fs@[i as int]@,
            outputs.deep_view(),
            i as int,
            js_code@,
        ));
        out.push(decipher_legacy(&fs[i], js_code, output));
        i = i + 1;
    }
    assert(legacy_views(out@) =~= legacy_given(legacy_views(fs@), outputs.deep_view(), js_code@)) by {
        assert forall|k: int| 0 <= k < fs@.len() implies legacy_views(out@)[k] == legacy_given(legacy_views(fs@), outputs.deep_view(), js_code@)[k] by {
            assert(legacy_views(fs@)[k] == fs@[k]@);
            assert(legacy_views(out@)[k] == out@[k]@);
        }
    }
    out
}

/// The quoted deciphering scripts of the legacy formats.
fn legacy_script_list(fs: &Vec<LegacyFormat>, js_code: &str) -> (r: Vec<Option<String>>)
    requires
        forall|i: int| 0 <= i < fs@.len() ==> legacy_cipher_decodable(#[trigger] fs@[i]@),
    ensures
        r.deep_view() == legacy_views(fs@).map_values(|f: LegacyFormatView| legacy_script(f, js_code@)),
{
    let mut out: Vec<Option<String>> = Vec::new();
    let mut i: usize = 0;
    while i < fs.len()
        invariant
            i <= fs@.len(),
            out@.len() == i,
            forall|k: int| 0 <= k < fs@.len() ==> legacy_cipher_decodable(#[trigger] fs@[k]@),
            forall|k: int| 0 <= k < i ==> (#[trigger] out@[k]).deep_view() == legacy_script(fs@[k]@, js_code@),
        decreases fs@.len() - i,
    {
        assert(legacy_cipher_decodable(fs@[i as int]@));
        let script = match &fs[i].signature_cipher {
            Some(cipher) => match format_decipher_code_into_executable(cipher.as_str(), js_code) {
                Ok(code) => Some(quote_regex_literals(code)),
                Err(_) => None,
            },
            None => None,
        };
        out.push(script);
        i = i + 1;
    }
    assert(out.deep_view() =~= legacy_views(fs@).map_values(|f: LegacyFormatView| legacy_script(f, js_code@))) by {
        assert forall|k: int| 0 <= k < fs@.len() implies out.deep_view()[k] == legacy_views(fs@).map_values(|f: LegacyFormatView| legacy_script(f, js_code@))[k] by {
            assert(legacy_views(fs@)[k] == fs@[k]@);
        }
    }
    out
}

/// The deciphering scripts of the adaptive formats that have a signature
/// cipher from which one can be made.
pub open spec fn adaptive_codes(fs: Seq<AdaptiveFormatView>, js_code: Seq<char>) -> Seq<Seq<char>>
    decreases fs.len(),
{
    if fs.len() == 0 {
        Seq::empty()
    } else {
        adaptive_codes(fs.drop_last(), js_code) + match fs.last().signature_cipher {
            Some(c) => match executable_code(c, js_code) {
                Ok(code) => seq![code],
                Err(_) => Seq::empty(),
            },
            None => Seq::empty(),
        }
    }
}

pub fn adaptive_decipher_codes(fs: &Vec<AdaptiveFormat>, js_code: &str) -> (r: Vec<String>)
    requires
        forall|i: int| 0 <= i < fs@.len() ==> adaptive_cipher_decodable(#[trigger] fs@[i]@),
    ensures
        strings_view(r@) == adaptive_codes(adaptive_views(fs@), js_code@),
{
    let mut out: Vec<String> = Vec::new();
    let mut i: usize = 0;
    while i < fs.len()
        invariant
            i <= fs@.len(),
            strings_view(out@) == adaptive_codes(adaptive_views(fs@.take(i as int)), js_code@),
            forall|k: int| 0 <= k < fs@.len() ==> adaptive_cipher_decodable(#[trigger] fs@[k]@),
        decreases fs@.len() - i,
    {
        let ghost before = out@;
        assert(adaptive_cipher_decodable(fs@[i as int]@));
        assert(adaptive_views(fs@.take(i + 1)).drop_last() =~= adaptive_views(fs@.take(i as int)));
        assert(adaptive_views(fs@.take(i + 1)).last() == fs@[i as int]@);
        match &fs[i].signature_cipher {
            Some(cipher) => match format_decipher_code_into_executable(cipher.as_str(), js_code) {
                Ok(code) => {
                    out.push(code);
                    assert(strings_view(out@) =~= strings_view(before).push(out@[before.len() as int]@));
                },
                Err(_) => {},
            },
            None => {},
        }
        assert(strings_view(out@) == adaptive_codes(adaptive_views(fs@.take(i + 1)), js_code@));
        i = i + 1;
    }
    assert(fs@.take(i as int) =~= fs@);
    out
}

/// `parts` joined with `sep` between them.
pub open spec fn joined(parts: Seq<Seq<char>>, sep: Seq<char>) -> Seq<char>
    decreases parts.len(),
{
    if parts.len() == 0 {
        Seq::empty()
    } else if parts.len() == 1 {
        parts[0]
    } else {
        joined(parts.drop_last(), sep) + sep + parts.last()
    }
}

/// One script that runs every deciphering script and gives their addresses
/// as an array.
pub open spec fn batch_script(codes: Seq<Seq<char>>) -> Seq<char> {
    replace_all(
        "[(() => {"@ + joined(codes, "})(),(() => {"@) + "})()]"@,
        "deciphered_url}"@,
        "return deciphered_url}"@,
    )
}

pub fn batch_decipher_script(codes: &Vec<String>) -> (r: String)
    ensures
        r@ == batch_script(strings_view(codes@)),
{
    let mut all = String::new();
    let mut i: usize = 0;
    while i < codes.len()
        invariant
            i <= codes@.len(),
            all@ == joined(strings_view(codes@.take(i as int)), "})(),(() => {"@),
        decreases codes@.len() - i,
    {
        let ghost before = all@;
        assert(strings_view(codes@.take(i + 1)).drop_last() =~= strings_view(codes@.take(i as int)));
        assert(strings_view(codes@.take(i + 1)).last() == codes@[i as int]@);
        if i == 0 {
            all = codes[i].clone();
            assert(strings_view(codes@.take(1)) =~= seq![codes@[0]@]);
        } else {
            let next = cat3(all.as_str(), "})(),(() => {", codes[i].as_str());
            all = next;
        }
        i = i + 1;
    }
    assert(codes@.take(i as int) =~= codes@);
    let wrapped = cat3("[(() => {", all.as_str(), "})()]");
    replace(wrapped.as_str(), "deciphered_url}", "return deciphered_url}")
}

/// The adaptive formats with the addresses that the batch script gave, one
/// per comma-separated piece of its output, the host added; a format past
/// the last piece keeps its address.
pub open spec fn urls_applied(fs: Seq<AdaptiveFormatView>, urls: Seq<Seq<char>>) -> Seq<AdaptiveFormatView> {
    Seq::new(
        fs.len(),
        |i: int|
            if i < urls.len() {
                adaptive_with_url(fs[i], Some(host_param_url(urls[i])))
            } else {
                fs[i]
            },
    )
}

pub open spec fn batch_applied(fs: Seq<AdaptiveFormatView>, output: Option<Seq<char>>) -> Seq<AdaptiveFormatView> {
    match output {
        Some(o) => urls_applied(fs, split_all(o, ","@)),
        None => fs,
    }
}

/// The adaptive formats with the output of the batch script applied.
pub fn apply_deciphered_urls(fs: &Vec<AdaptiveFormat>, output: Option<String>) -> (r: Vec<AdaptiveFormat>)
    ensures
        adaptive_views(r@) == batch_applied(adaptive_views(fs@), output.deep_view()),
{
    let urls: Vec<String> = match &output {
        Some(o) => {
            proof {
                reveal_strlit(",");
            }
            split(o.as_str(), ",")
        },
        None => Vec::new(),
    };
    let ghost target = match output.deep_view() {
        Some(o) => urls_applied(adaptive_views(fs@), split_all(o, ","@)),
        None => adaptive_views(fs@),
    };
    let mut out: Vec<AdaptiveFormat> = Vec::new();
    let mut i: usize = 0;
    while i < fs.len()
        invariant
            i <= fs@.len(),
            out@.len() == i,
            output is Some ==> strings_view(urls@) == split_all(output.deep_view()->0, ","@),
            output is None ==> urls@.len() == 0,
            forall|k: int| 0 <= k < i ==> (#[trigger] out@[k])@ == (if output is Some && k < urls@.len() {
                adaptive_with_url(fs@[k]@, Some(host_param_url(urls@[k]@)))
            } else {
                fs@[k]@
            }),
        decreases fs@.len() - i,
    {
        let next = if output.is_some() && i < urls.len() {
            adaptive_with_url_exec(&fs[i], Some(add_host_param_to_url(urls[i].as_str())))
        } else {
            adaptive_with_url_exec(&fs[i], copy_opt(&fs[i].url))
        };
        proof {
            assert(adaptive_with_url(fs@[i as int]@, fs@[i as int]@.url) == fs@[i as int]@);
        }
        out.push(next);
        i = i + 1;
    }
    assert(adaptive_views(out@) =~= batch_applied(adaptive_views(fs@), output.deep_view())) by {
        match output.deep_view() {
            Some(o) => {
                assert forall|k: int| 0 <= k < out@.len() implies adaptive_views(out@)[k] == urls_applied(adaptive_views(fs@), split_all(o, ","@))[k] by {
                    if k < urls@.len() {
                        assert(split_all(o, ","@)[k] == urls@[k]@);
                    }
                }
            },
            None => {},
        }
    }
    out
}

/// The adaptive formats with their own addresses, the host added.
pub open spec fn own_urls_applied(fs: Seq<AdaptiveFormatView>) -> Seq<AdaptiveFormatView> {
    Seq::new(fs.len(), |i: int| adaptive_with_url(fs[i], Some(host_param_url(fs[i].url->0))))
}

fn apply_own_urls(fs: &Vec<AdaptiveFormat>) -> (r: Vec<AdaptiveFormat>)
    requires
        forall|i: int| 0 <= i < fs@.len() ==> (#[trigger] fs@[i]@).url is Some,
    ensures
        adaptive_views(r@) == own_urls_applied(adaptive_views(fs@)),
{
    let mut out: Vec<AdaptiveFormat> = Vec::new();
    let mut i: usize = 0;
    while i < fs.len()
        invariant
            i <= fs@.len(),
            out@.len() == i,
            forall|k: int| 0 <= k < fs@.len() ==> (#[trigger] fs@[k]@).url is Some,
            forall|k: int| 0 <= k < i ==> (#[trigger] out@[k])@ == adaptive_with_url(fs@[k]@, Some(host_param_url(fs@[k]@.url->0))),
        decreases fs@.len() - i,
    {
        assert(fs@[i as int]@.url is Some);
        let own = match &fs[i].url {
            Some(u) => add_host_param_to_url(u.as_str()),
            None => String::new(),
        };
        out.push(adaptive_with_url_exec(&fs[i], Some(own)));
        i = i + 1;
    }
    assert(adaptive_views(out@) =~= own_urls_applied(adaptive_views(fs@)));
    out
}

/// The adaptive formats after deciphering with `js_code`: with deciphering
/// scripts, the formats with the output of the one batch script that runs
/// them all (`output`, `None` where it failed); without any, each with its
/// own address and the host added.
pub open spec fn adaptive_given(fs: Seq<AdaptiveFormatView>, output: Option<Seq<char>>, js_code: Seq<char>) -> Seq<AdaptiveFormatView> {
    if adaptive_codes(fs, js_code).len() > 0 {
        batch_applied(fs, output)
    } else {
        own_urls_applied(fs)
    }
}

/// The batch script of the adaptive formats, quoted for the engine, where
/// they have deciphering scripts.
pub open spec fn adaptive_batch_script(fs: Seq<AdaptiveFormatView>, js_code: Seq<char>) -> Option<Seq<char>> {
    if adaptive_codes(fs, js_code).len() > 0 {
        Some(quoted_js_code(batch_script(adaptive_codes(fs, js_code))))
    } else {
        None
    }
}

fn decipher_adaptive_list(fs: &Vec<AdaptiveFormat>, js_code: &str, output: Option<String>) -> (r: Vec<AdaptiveFormat>)
    requires
        forall|i: int| 0 <= i < fs@.len() ==> adaptive_cipher_decodable(#[trigger] fs@[i]@),
        adaptive_codes(adaptive_views(fs@), js_code@).len() == 0 ==> forall|i: int| 0 <= i < fs@.len() ==> (#[trigger] fs@[i]@).url is Some,
    ensures
        adaptive_views(r@) == adaptive_given(adaptive_views(fs@), output.deep_view(), js_code@),
{
    let codes = adaptive_decipher_codes(fs, js_code);
    if codes.len() > 0 {
        apply_deciphered_urls(fs, output)
    } else {
        proof {
            assert forall|i: int| 0 <= i < fs@.len() implies (#[trigger] fs@[i]@).url is Some by {
                assert(adaptive_views(fs@)[i] == fs@[i]@);
            }
        }
        apply_own_urls(fs)
    }
}

fn adaptive_script_of(fs: &Vec<AdaptiveFormat>, js_code: &str) -> (r: Option<String>)
    requires
        forall|i: int| 0 <= i < fs@.len() ==> adaptive_cipher_decodable(#[trigger] fs@[i]@),
    ensures
        r.deep_view() == adaptive_batch_script(adaptive_views(fs@), js_code@),
{
    let codes = adaptive_decipher_codes(fs, js_code);
    if codes.len() > 0 {
        Some(quote_regex_literals(batch_decipher_script(&codes)))
    } else {
        None
    }
}

/// The deciphering script of the player script, or `""` where none can be made.
pub open spec fn decipher_code_or_empty(player_res: Seq<char>) -> Seq<char> {
    match formatable_decipher_js_code(player_res) {
        Ok(c) => c,
        Err(_) => Seq::empty(),
    }
}

/// Counts, audience and author, in the order in which the deciphering
/// variant adds them.
pub open spec fn inv_people_deciphering(e: Seq<(Seq<char>, JsonView)>, json: JsonValue) -> Seq<(Seq<char>, JsonView)> {
    let e = with_member(e, "viewCount"@, int_jv(opt_i32_int(spec_view_count(json))));
    let e = with_member(e, "likeCount"@, int_jv(opt_i32_int(spec_like_count(json))));
    let e = with_member(e, "isFamilyFriendly"@, bool_jv(bool_at(json, path_is_family_safe())));
    let e = with_member(e, "allowedRegions"@, match spec_available_countries(json) {
        Some(c) => Some(texts_jv(c)),
        None => None,
    });
    let e = with_member(e, "authorId"@, text_jv(spec_author_id(json)));
    let e = with_member(e, "authorUrl"@, match spec_author_id(json) {
        Some(id) => Some(JsonView::Str("/channel/"@ + id)),
        None => None,
    });
    let e = with_member(e, "authorThumbnails"@, match spec_author_thumbnails(json) {
        Some(t) => Some(JsonView::Array(t.map_values(|x: (Seq<char>, i32, i32)| thumbnail_json(x)))),
        None => None,
    });
    let e = with_member(e, "keywords"@, match spec_keywords(json) {
        Some(k) => Some(texts_jv(k)),
        None => None,
    });
    let e = with_member(e, "genre"@, text_jv(str_at(json, path_category())));
    with_member(e, "author"@, text_jv(spec_author(json)))
}

/// Streams with the deciphered formats `legacy` and `adaptive`, then
/// captions, recommendations and music.
pub open spec fn inv_streams_deciphered(
    e: Seq<(Seq<char>, JsonView)>,
    json: JsonValue,
    player_res: Seq<char>,
    legacy: Seq<LegacyFormatView>,
    adaptive: Seq<AdaptiveFormatView>,
) -> Seq<(Seq<char>, JsonView)> {
    let e = with_member(e, "formatStreams"@, if spec_legacy_formats(json) is Some && formatable_decipher_js_code(player_res) is Ok {
        Some(JsonView::Array(legacy.map_values(|x: LegacyFormatView| legacy_format_inv(x))))
    } else {
        None
    });
    let e = with_member(e, "adaptiveFormats"@, if spec_adaptive_formats(json) is Some {
        Some(JsonView::Array(adaptive.map_values(|x: AdaptiveFormatView| adaptive_format_inv(x))))
    } else {
        None
    });
    let e = with_member(e, "captions"@, match spec_captions(json) {
        Some(c) => Some(JsonView::Array(c.map_values(|x: (Seq<char>, Seq<char>, Seq<char>)| caption_json(x)))),
        None => None,
    });
    let e = with_member(e, "recommendedVideos"@, match spec_recommended(json) {
        Some(r) => Some(JsonView::Array(recommended_invs(r))),
        None => None,
    });
    with_member(e, "musicTracks"@, match spec_music_tracks(json) {
        Some(t) => Some(JsonView::Array(t.map_values(|x: MusicTrackView| track_inv(x)))),
        None => None,
    })
}

pub open spec fn fmt_inv_deciphered_entries(
    existing: Seq<(Seq<char>, JsonView)>,
    json: JsonValue,
    lang: &str,
    month_map: JsonValue,
    player_res: Seq<char>,
    legacy: Seq<LegacyFormatView>,
    adaptive: Seq<AdaptiveFormatView>,
) -> Seq<(Seq<char>, JsonView)> {
    inv_streams_deciphered(
        inv_state(inv_people_deciphering(inv_head(existing, json, lang, month_map), json), json),
        json,
        player_res,
        legacy,
        adaptive,
    )
}

/// The legacy formats after deciphering, where the engine gave `outputs`
/// for their scripts (one entry per format).
pub open spec fn legacy_given_in(json: JsonValue, player_res: Seq<char>, outputs: Seq<Option<Seq<char>>>) -> Seq<LegacyFormatView> {
    match (spec_legacy_formats(json), formatable_decipher_js_code(player_res)) {
        (Some(fs), Ok(code)) => legacy_given(fs, outputs, code),
        _ => Seq::empty(),
    }
}

/// The adaptive formats after deciphering, where the engine gave `output`
/// for their batch script.
pub open spec fn adaptive_given_in(json: JsonValue, player_res: Seq<char>, output: Option<Seq<char>>) -> Seq<AdaptiveFormatView> {
    match spec_adaptive_formats(json) {
        Some(fs) => adaptive_given(fs, output, decipher_code_or_empty(player_res)),
        None => Seq::empty(),
    }
}

/// The scripts that deciphering the streams hands to the JavaScript engine:
/// one entry per legacy format, and the batch script of the adaptive formats.
pub struct DecipherScripts {
    pub legacy: Vec<Option<String>>,
    pub adaptive: Option<String>,
}

/// The scripts of the legacy formats, where `formatStreams` is missing, the
/// response has legacy formats and the player script gives deciphering
/// functions: one per format, `None` where none can be made.
pub open spec fn legacy_scripts(existing: Seq<(Seq<char>, JsonView)>, json: JsonValue, player_res: Seq<char>) -> Seq<Option<Seq<char>>> {
    if view_get(existing, "formatStreams"@) is None {
        match (spec_legacy_formats(json), formatable_decipher_js_code(player_res)) {
            (Some(fs), Ok(code)) => fs.map_values(|f: LegacyFormatView| legacy_script(f, code)),
            _ => Seq::empty(),
        }
    } else {
        Seq::empty()
    }
}

/// The batch script of the adaptive formats, where `adaptiveFormats` is
/// missing and some adaptive format has a deciphering script.
pub open spec fn adaptive_script(existing: Seq<(Seq<char>, JsonView)>, json: JsonValue, player_res: Seq<char>) -> Option<Seq<char>> {
    if view_get(existing, "adaptiveFormats"@) is None {
        match spec_adaptive_formats(json) {
            Some(fs) => adaptive_batch_script(fs, decipher_code_or_empty(player_res)),
            None => None,
        }
    } else {
        None
    }
}

/// Adding the host to the own address of a format without a cipher is
/// undefined (it panics) where that format has no address, and so is making
/// the deciphering script of a format whose cipher holds an address that
/// does not decode.
pub open spec fn decipher_defined(existing: Seq<(Seq<char>, JsonView)>, json: JsonValue, player_res: Seq<char>) -> bool {
    &&& view_get(existing, "formatStreams"@) is None ==> legacy_defined(json, player_res)
    &&& view_get(existing, "adaptiveFormats"@) is None ==> adaptive_defined(json, player_res)
}

pub open spec fn legacy_defined(json: JsonValue, player_res: Seq<char>) -> bool {
    match (spec_legacy_formats(json), formatable_decipher_js_code(player_res)) {
        (Some(fs), Ok(_)) => (forall|i: int| 0 <= i < fs.len() ==> (#[trigger] fs[i]).signature_cipher is None ==> fs[i].url is Some)
            && forall|i: int| 0 <= i < fs.len() ==> legacy_cipher_decodable(#[trigger] fs[i]),
        _ => true,
    }
}

pub open spec fn adaptive_defined(json: JsonValue, player_res: Seq<char>) -> bool {
    match spec_adaptive_formats(json) {
        Some(fs) => (forall|i: int| 0 <= i < fs.len() ==> adaptive_cipher_decodable(#[trigger] fs[i]))
            && (adaptive_codes(fs, decipher_code_or_empty(player_res)).len() == 0 ==> forall|i: int| 0 <= i < fs.len() ==> (#[trigger] fs[i]).url is Some),
        None => true,
    }
}

fn add_people_deciphering(obj: &mut ObjectBuilder, json: &JsonValue)
    ensures
        entries_view(final(obj).entries@) == inv_people_deciphering(entries_view(old(obj).entries@), *json),
{
    obj.add_missing("viewCount", i32_value(get_view_count(json)));
    obj.add_missing("likeCount", i32_value(get_like_count(json)));
    obj.add_missing("isFamilyFriendly", bool_value(is_family_friendly(json)));
    let regions = match get_available_countries(json) {
        Some(c) => Some(strs_value(&c)),
        None => None,
    };
    obj.add_missing("allowedRegions", regions);
    let author_id = get_author_id(json);
    let author_url = match &author_id {
        Some(id) => Some(JsonValue::String(cat("/channel/", id.as_str()))),
        None => None,
    };
    obj.add_missing("authorId", text_value(author_id));
    obj.add_missing("authorUrl", author_url);
    let thumbnails = match get_author_thumbnails(json) {
        Some(t) => Some(thumbnails_value(&t)),
        None => None,
    };
    obj.add_missing("authorThumbnails", thumbnails);
    let keywords = match get_keywords(json) {
        Some(k) => Some(texts_value(&k)),
        None => None,
    };
    obj.add_missing("keywords", keywords);
    obj.add_missing("genre", text_value(get_category(json)));
    obj.add_missing("author", text_value(get_author(json)));
}

fn add_streams_deciphered(
    obj: &mut ObjectBuilder,
    json: &JsonValue,
    player_res: &str,
    legacy_outputs: &Vec<Option<String>>,
    adaptive_output: Option<String>,
)
    requires
        decipher_defined(entries_view(old(obj).entries@), *json, player_res@),
        view_get(entries_view(old(obj).entries@), "recommendedVideos"@) is None ==> recommended_defined(*json),
    ensures
        entries_view(final(obj).entries@) == inv_streams_deciphered(
            entries_view(old(obj).entries@),
            *json,
            player_res@,
            legacy_given_in(*json, player_res@, legacy_outputs.deep_view()),
            adaptive_given_in(*json, player_res@, adaptive_output.deep_view()),
        ),
{
    let ghost e0 = entries_view(obj.entries@);
    let ghost legacy = legacy_given_in(*json, player_res@, legacy_outputs.deep_view());
    let ghost adaptive = adaptive_given_in(*json, player_res@, adaptive_output.deep_view());
    let decipher_code = match create_formatable_decipher_js_code(player_res) {
        Ok(code) => code,
        Err(_) => String::new(),
    };
    if !obj.contains_key("formatStreams") {
        match get_legacy_formats(json) {
            Some(formats) => match create_formatable_decipher_js_code(player_res) {
                Ok(js_code) => {
                    proof {
                        assert forall|i: int| 0 <= i < formats@.len() && (#[trigger] formats@[i]@).signature_cipher is None implies formats@[i]@.url is Some by {
                            assert(legacy_views(formats@)[i] == formats@[i]@);
                        }
                        assert forall|i: int| 0 <= i < formats@.len() implies legacy_cipher_decodable(#[trigger] formats@[i]@) by {
                            assert(legacy_views(formats@)[i] == formats@[i]@);
                        }
                    }
                    let deciphered = decipher_legacy_list(&formats, js_code.as_str(), legacy_outputs);
                    assert(legacy_views(deciphered@) == legacy);
                    obj.add_missing("formatStreams", Some(legacy_formats_value(&deciphered)));
                },
                Err(_) => {},
            },
            None => {},
        }
    }
    let ghost e1 = entries_view(obj.entries@);
    assert(e1 == with_member(e0, "formatStreams"@, if spec_legacy_formats(*json) is Some && formatable_decipher_js_code(player_res@) is Ok {
        Some(JsonView::Array(legacy.map_values(|x: LegacyFormatView| legacy_format_inv(x))))
    } else {
        None
    }));
    proof {
        if view_get(e0, "adaptiveFormats"@) is Some {
            lemma_with_member_keeps(e0, "formatStreams"@, if spec_legacy_formats(*json) is Some && formatable_decipher_js_code(player_res@) is Ok {
                Some(JsonView::Array(legacy.map_values(|x: LegacyFormatView| legacy_format_inv(x))))
            } else {
                None
            }, "adaptiveFormats"@);
        }
    }
    if !obj.contains_key("adaptiveFormats") {
        match get_adaptive_formats(json) {
            Some(formats) => {
                proof {
                    assert forall|i: int| 0 <= i < formats@.len() implies adaptive_cipher_decodable(#[trigger] formats@[i]@) by {
                        assert(adaptive_views(formats@)[i] == formats@[i]@);
                    }
                    if adaptive_codes(adaptive_views(formats@), decipher_code@).len() == 0 {
                        assert forall|i: int| 0 <= i < formats@.len() implies (#[trigger] formats@[i]@).url is Some by {
                            assert(adaptive_views(formats@)[i] == formats@[i]@);
                        }
                    }
                }
                let deciphered = decipher_adaptive_list(&formats, decipher_code.as_str(), adaptive_output);
                assert(adaptive_views(deciphered@) == adaptive);
                obj.add_missing("adaptiveFormats", Some(adaptive_formats_value(&deciphered)));
            },
            None => {},
        }
    }
    let captions = match get_captions(json) {
        Some(c) => Some(captions_value(&c)),
        None => None,
    };
    obj.add_missing("captions", captions);
    if !obj.contains_key("recommendedVideos") {
        proof {
            lemma_with_member_keeps_all();
        }
        let recommended = match get_recommended(json) {
            Some(r) => Some(recommended_value(&r)),
            None => None,
        };
        obj.add_missing("recommendedVideos", recommended);
    }
    let tracks = match get_music_tracks(json) {
        Some(t) => Some(tracks_value(&t)),
        None => None,
    };
    obj.add_missing("musicTracks", tracks);
}

/// The scripts that deciphering the streams of `json` with the player script
/// `player_res` hands to the JavaScript engine, for the members that
/// `existing_map` lacks (see `fmt_inv_with_existing_map_and_decipher`).
pub fn decipher_scripts_for(json: &JsonValue, player_res: &str, existing_map: &Vec<(String, JsonValue)>) -> (r: DecipherScripts)
    requires
        decipher_defined(entries_view(existing_map@), *json, player_res@),
    ensures
        r.legacy.deep_view() == legacy_scripts(entries_view(existing_map@), *json, player_res@),
        r.adaptive.deep_view() == adaptive_script(entries_view(existing_map@), *json, player_res@),
{
    let decipher_code = match create_formatable_decipher_js_code(player_res) {
        Ok(code) => code,
        Err(_) => String::new(),
    };
    let mut legacy: Vec<Option<String>> = Vec::new();
    proof {
        reveal_strlit("formatStreams");
    }
    if !has_member(existing_map, "formatStreams") {
        match (get_legacy_formats(json), create_formatable_decipher_js_code(player_res)) {
            (Some(formats), Ok(js_code)) => {
                proof {
                    assert forall|i: int| 0 <= i < formats@.len() implies legacy_cipher_decodable(#[trigger] formats@[i]@) by {
                        assert(legacy_views(formats@)[i] == formats@[i]@);
                    }
                }
                legacy = legacy_script_list(&formats, js_code.as_str());
            },
            _ => {
                assert(legacy.deep_view() =~= Seq::<Option<Seq<char>>>::empty());
            },
        }
    } else {
        assert(legacy.deep_view() =~= Seq::<Option<Seq<char>>>::empty());
    }
    let adaptive = if !has_member(existing_map, "adaptiveFormats") {
        match get_adaptive_formats(json) {
            Some(formats) => {
                proof {
                    assert forall|i: int| 0 <= i < formats@.len() implies adaptive_cipher_decodable(#[trigger] formats@[i]@) by {
                        assert(adaptive_views(formats@)[i] == formats@[i]@);
                    }
                }
                adaptive_script_of(&formats, decipher_code.as_str())
            },
            None => None,
        }
    } else {
        None
    };
    DecipherScripts { legacy, adaptive }
}

/// `Some(decipher_scripts_for(..))` where that is defined, `None` where it is
/// not.
pub fn try_decipher_scripts_for(json: &JsonValue, player_res: &str, existing_map: &Vec<(String, JsonValue)>) -> (r: Option<DecipherScripts>)
    ensures
        r is Some <==> decipher_defined(entries_view(existing_map@), *json, player_res@),
        r matches Some(scripts) ==> scripts.legacy.deep_view() == legacy_scripts(entries_view(existing_map@), *json, player_res@)
            && scripts.adaptive.deep_view() == adaptive_script(entries_view(existing_map@), *json, player_res@),
{
    if !has_member(existing_map, "formatStreams") && !legacy_defined_exec(json, player_res) {
        return None;
    }
    if !has_member(existing_map, "adaptiveFormats") && !adaptive_defined_exec(json, player_res) {
        return None;
    }
    Some(decipher_scripts_for(json, player_res, existing_map))
}

/// Like `fmt_inv_with_existing_map`, with the members in a slightly different
/// order, and with the stream addresses deciphered with the player script
/// `player_res` and given their host. The deciphering scripts
/// (`decipher_scripts_for`) run in the JavaScript engine; `legacy_outputs`
/// holds what it gave for each legacy format's script and `adaptive_output`
/// what it gave for the batch script of the adaptive formats (`None` where a
/// script failed).
pub fn fmt_inv_with_existing_map_and_decipher(
    json: &JsonValue,
    lang: &str,
    month_map: &JsonValue,
    player_res: &str,
    existing_map: Vec<(String, JsonValue)>,
    legacy_outputs: &Vec<Option<String>>,
    adaptive_output: Option<String>,
) -> (r: Vec<(String, JsonValue)>)
    requires
        fmt_inv_defined(entries_view(existing_map@), *json, lang, *month_map),
        decipher_defined(entries_view(existing_map@), *json, player_res@),
    ensures
        entries_view(r@) == fmt_inv_deciphered_entries(
            entries_view(existing_map@),
            *json,
            lang,
            *month_map,
            player_res@,
            legacy_given_in(*json, player_res@, legacy_outputs.deep_view()),
            adaptive_given_in(*json, player_res@, adaptive_output.deep_view()),
        ),
{
    let mut obj = ObjectBuilder::from_entries(existing_map);
    let ghost e0 = entries_view(obj.entries@);
    add_head(&mut obj, json, lang, month_map);
    add_people_deciphering(&mut obj, json);
    proof {
        let e1 = inv_head(e0, *json, lang, *month_map);
        if view_get(e0, "subCountText"@) is Some {
            lemma_inv_head_keeps(e0, *json, lang, *month_map, "subCountText"@);
            lemma_inv_people_deciphering_keeps(e1, *json, "subCountText"@);
        }
    }
    add_state(&mut obj, json);
    proof {
        let e1 = inv_head(e0, *json, lang, *month_map);
        let e2 = inv_people_deciphering(e1, *json);
        let e3 = inv_state(e2, *json);
        assert(entries_view(obj.entries@) == e3);
        if view_get(e0, "formatStreams"@) is Some {
            lemma_inv_head_keeps(e0, *json, lang, *month_map, "formatStreams"@);
            lemma_inv_people_deciphering_keeps(e1, *json, "formatStreams"@);
            lemma_inv_state_keeps(e2, *json, "formatStreams"@);
        }
        if view_get(e0, "adaptiveFormats"@) is Some {
            lemma_inv_head_keeps(e0, *json, lang, *month_map, "adaptiveFormats"@);
            lemma_inv_people_deciphering_keeps(e1, *json, "adaptiveFormats"@);
            lemma_inv_state_keeps(e2, *json, "adaptiveFormats"@);
        }
        if view_get(e0, "recommendedVideos"@) is Some {
            lemma_inv_head_keeps(e0, *json, lang, *month_map, "recommendedVideos"@);
            lemma_inv_people_deciphering_keeps(e1, *json, "recommendedVideos"@);
            lemma_inv_state_keeps(e2, *json, "recommendedVideos"@);
        }
    }
    add_streams_deciphered(&mut obj, json, player_res, legacy_outputs, adaptive_output);
    obj.entries
}

/// `fmt_inv_with_existing_map_and_decipher` starting from no members.
pub fn fmt_inv_and_decipher(
    json: &JsonValue,
    lang: &str,
    month_map: &JsonValue,
    player_res: &str,
    legacy_outputs: &Vec<Option<String>>,
    adaptive_output: Option<String>,
) -> (r: Vec<(String, JsonValue)>)
    requires
        fmt_inv_defined(Seq::empty(), *json, lang, *month_map),
        decipher_defined(Seq::empty(), *json, player_res@),
    ensures
        entries_view(r@) == fmt_inv_deciphered_entries(
            Seq::empty(),
            *json,
            lang,
            *month_map,
            player_res@,
            legacy_given_in(*json, player_res@, legacy_outputs.deep_view()),
            adaptive_given_in(*json, player_res@, adaptive_output.deep_view()),
        ),
{
    let existing: Vec<(String, JsonValue)> = Vec::new();
    assert(entries_view(existing@) =~= Seq::empty());
    fmt_inv_with_existing_map_and_decipher(json, lang, month_map, player_res, existing, legacy_outputs, adaptive_output)
}

fn legacy_defined_exec(json: &JsonValue, player_res: &str) -> (r: bool)
    ensures
        r == legacy_defined(*json, player_res@),
{
    match (get_legacy_formats(json), create_formatable_decipher_js_code(player_res)) {
        (Some(formats), Ok(_)) => {
            let mut i: usize = 0;
            while i < formats.len()
                invariant
                    i <= formats@.len(),
                    spec_legacy_formats(*json) == Some(legacy_views(formats@)),
                    formatable_decipher_js_code(player_res@) is Ok,
                    forall|k: int| 0 <= k < i ==> (#[trigger] formats@[k]@).signature_cipher is None ==> formats@[k]@.url is Some,
                    forall|k: int| 0 <= k < i ==> legacy_cipher_decodable(#[trigger] formats@[k]@),
                decreases formats@.len() - i,
            {
                assert(legacy_views(formats@)[i as int] == formats@[i as int]@);
                let decodable = match &formats[i].signature_cipher {
                    Some(c) => is_cipher_url_decodable(c.as_str()),
                    None => formats[i].url.is_some(),
                };
                if !decodable {
                    return false;
                }
                i = i + 1;
            }
            assert forall|k: int| 0 <= k < formats@.len() && (#[trigger] legacy_views(formats@)[k]).signature_cipher is None implies legacy_views(formats@)[k].url is Some by {
                assert(legacy_views(formats@)[k] == formats@[k]@);
            }
            assert forall|k: int| 0 <= k < formats@.len() implies legacy_cipher_decodable(#[trigger] legacy_views(formats@)[k]) by {
                assert(legacy_views(formats@)[k] == formats@[k]@);
            }
            true
        },
        _ => true,
    }
}

fn adaptive_defined_exec(json: &JsonValue, player_res: &str) -> (r: bool)
    ensures
        r == adaptive_defined(*json, player_res@),
{
    let decipher_code = match create_formatable_decipher_js_code(player_res) {
        Ok(code) => code,
        Err(_) => String::new(),
    };
    match get_adaptive_formats(json) {
        Some(formats) => {
            let mut i: usize = 0;
            while i < formats.len()
                invariant
                    i <= formats@.len(),
                    spec_adaptive_formats(*json) == Some(adaptive_views(formats@)),
                    forall|k: int| 0 <= k < i ==> adaptive_cipher_decodable(#[trigger] formats@[k]@),
                decreases formats@.len() - i,
            {
                assert(adaptive_views(formats@)[i as int] == formats@[i as int]@);
                let decodable = match &formats[i].signature_cipher {
                    Some(c) => is_cipher_url_decodable(c.as_str()),
                    None => true,
                };
                if !decodable {
                    return false;
                }
                i = i + 1;
            }
            assert forall|k: int| 0 <= k < formats@.len() implies adaptive_cipher_decodable(#[trigger] adaptive_views(formats@)[k]) by {
                assert(adaptive_views(formats@)[k] == formats@[k]@);
            }
            let codes = adaptive_decipher_codes(&formats, decipher_code.as_str());
            if codes.len() > 0 {
                return true;
            }
            assert(decipher_code@ == decipher_code_or_empty(player_res@));
            let mut i: usize = 0;
            while i < formats.len()
                invariant
                    i <= formats@.len(),
                    spec_adaptive_formats(*json) == Some(adaptive_views(formats@)),
                    forall|k: int| 0 <= k < formats@.len() ==> adaptive_cipher_decodable(#[trigger] adaptive_views(formats@)[k]),
                    adaptive_codes(adaptive_views(formats@), decipher_code_or_empty(player_res@)).len() == 0,
                    forall|k: int| 0 <= k < i ==> (#[trigger] formats@[k]@).url is Some,
                decreases formats@.len() - i,
            {
                if formats[i].url.is_none() {
                    assert(adaptive_views(formats@)[i as int] == formats@[i as int]@);
                    return false;
                }
                i = i + 1;
            }
            assert forall|k: int| 0 <= k < formats@.len() implies (#[trigger] adaptive_views(formats@)[k]).url is Some by {
                assert(adaptive_views(formats@)[k] == formats@[k]@);
            }
            true
        },
        None => true,
    }
}

/// `Some(fmt_inv_with_existing_map_and_decipher(..))` where that is defined,
/// `None` where it is not.
pub fn try_fmt_inv_with_existing_map_and_decipher(
    json: &JsonValue,
    lang: &str,
    month_map: &JsonValue,
    player_res: &str,
    existing_map: Vec<(String, JsonValue)>,
    legacy_outputs: &Vec<Option<String>>,
    adaptive_output: Option<String>,
) -> (r: Option<Vec<(String, JsonValue)>>)
    ensures
        r is Some <==> fmt_inv_defined(entries_view(existing_map@), *json, lang, *month_map) && decipher_defined(
            entries_view(existing_map@),
            *json,
            player_res@,
        ),
        r matches Some(v) ==> entries_view(v@) == fmt_inv_deciphered_entries(
            entries_view(existing_map@),
            *json,
            lang,
            *month_map,
            player_res@,
            legacy_given_in(*json, player_res@, legacy_outputs.deep_view()),
            adaptive_given_in(*json, player_res@, adaptive_output.deep_view()),
        ),
{
    let obj = ObjectBuilder::from_entries(existing_map);
    if !obj.contains_key("descriptionHtml") && description_html_outcome_exec(json).is_none() {
        return None;
    }
    if !obj.contains_key("published") && published_outcome_exec(json, lang, month_map).is_none() {
        return None;
    }
    if !obj.contains_key("subCountText") && !sub_count_defined_exec(json) {
        return None;
    }
    if !obj.contains_key("recommendedVideos") && !recommended_defined_exec(json) {
        return None;
    }
    if !obj.contains_key("formatStreams") && !legacy_defined_exec(json, player_res) {
        return None;
    }
    if !obj.contains_key("adaptiveFormats") && !adaptive_defined_exec(json, player_res) {
        return None;
    }
    Some(fmt_inv_with_existing_map_and_decipher(json, lang, month_map, player_res, obj.entries, legacy_outputs, adaptive_output))
}

/// `Some(fmt_inv_and_decipher(..))` where that is defined, `None` where it is
/// not.
pub fn try_fmt_inv_and_decipher(
    json: &JsonValue,
    lang: &str,
    month_map: &JsonValue,
    player_res: &str,
    legacy_outputs: &Vec<Option<String>>,
    adaptive_output: Option<String>,
) -> (r: Option<Vec<(String, JsonValue)>>)
    ensures
        r is Some <==> fmt_inv_defined(Seq::empty(), *json, lang, *month_map) && decipher_defined(Seq::empty(), *json, player_res@),
        r matches Some(v) ==> entries_view(v@) == fmt_inv_deciphered_entries(
            Seq::empty(),
            *json,
            lang,
            *month_map,
            player_res@,
            legacy_given_in(*json, player_res@, legacy_outputs.deep_view()),
            adaptive_given_in(*json, player_res@, adaptive_output.deep_view()),
        ),
{
    let existing: Vec<(String, JsonValue)> = Vec::new();
    assert(entries_view(existing@) =~= Seq::empty());
    try_fmt_inv_with_existing_map_and_decipher(json, lang, month_map, player_res, existing, legacy_outputs, adaptive_output)
}


// ---------------------------------------------------------------------------
// Laws
// ---------------------------------------------------------------------------

/// A command run that has no address of its own and names no video, but
/// names the path `b` of a channel, links to that path on the site:
/// `https://www.youtube.com` followed by `b`.
pub proof fn lemma_channel_run_links_to_site(run: JsonValue, b: Seq<char>)
    requires
        str_at(run, seq![Seg::Key("onTap"), Seg::Key("innertubeCommand"), Seg::Key("urlEndpoint"), Seg::Key("url")]) is None,
        str_at(run, seq![Seg::Key("onTap"), Seg::Key("innertubeCommand"), Seg::Key("watchEndpoint"), Seg::Key("videoId")]) is None,
        str_at(run, seq![Seg::Key("onTap"), Seg::Key("innertubeCommand"), Seg::Key("browseEndpoint"), Seg::Key("canonicalBaseUrl")]) == Some(b),
    ensures
        !run_url_fails(run),
        run_url(run) == Some("https://www.youtube.com"@ + b),
{
    assert(WEBSITE_BASE_URL@ == "https://www.youtube.com"@);
}

/// The view count of a video is the number that the digits of its view
/// count text write: the simple text where there is one, else the text of
/// the first run.
pub proof fn lemma_view_count_from_text(json: JsonValue, t: Seq<char>)
    requires
        str_at(json, seq![Seg::Key("contents"), Seg::Key("twoColumnWatchNextResults"), Seg::Key("results"), Seg::Key("results"), Seg::Key("contents"), Seg::Idx(0), Seg::Key("videoPrimaryInfoRenderer"), Seg::Key("viewCount"), Seg::Key("videoViewCountRenderer"), Seg::Key("viewCount"), Seg::Key("simpleText")]) == Some(t)
            || (str_at(json, seq![Seg::Key("contents"), Seg::Key("twoColumnWatchNextResults"), Seg::Key("results"), Seg::Key("results"), Seg::Key("contents"), Seg::Idx(0), Seg::Key("videoPrimaryInfoRenderer"), Seg::Key("viewCount"), Seg::Key("videoViewCountRenderer"), Seg::Key("viewCount"), Seg::Key("simpleText")]) is None
            && str_at(json, seq![Seg::Key("contents"), Seg::Key("twoColumnWatchNextResults"), Seg::Key("results"), Seg::Key("results"), Seg::Key("contents"), Seg::Idx(0), Seg::Key("videoPrimaryInfoRenderer"), Seg::Key("viewCount"), Seg::Key("videoViewCountRenderer"), Seg::Key("viewCount"), Seg::Key("runs"), Seg::Idx(0), Seg::Key("text")]) == Some(t)),
        digits_number(t) is Some,
    ensures
        spec_view_count(json) == Some(digits_number(t)->0 as i32),
        digits_number(t) == parse_int_in(concat_all(regex_find_all("[0-9]+"@, t)), i32::MIN as int, i32::MAX as int),
{
}

/// Where no engagement panel gives the date parts, the publication time is
/// read from the date text: its year of this century, and the month and day
/// that the month names of `lang` find in the rest of the text, give the
/// midnight of that date.
pub proof fn lemma_published_from_date_text(
    json: JsonValue,
    lang: &str,
    month_map: JsonValue,
    t: Seq<char>,
    y: Seq<char>,
    year: int,
    names: Seq<JsonValue>,
    month: int,
    day: int,
)
    requires
        spec_date_parts(json) is None,
        str_at(json, seq![Seg::Key("contents"), Seg::Key("twoColumnWatchNextResults"), Seg::Key("results"), Seg::Key("results"), Seg::Key("contents"), Seg::Idx(0), Seg::Key("videoPrimaryInfoRenderer"), Seg::Key("dateText"), Seg::Key("simpleText")]) == Some(t),
        regex_captures("20[0-9][0-9]"@, t) matches Some(groups) && groups.len() > 0 && groups[0] == Some(y),
        regex_captures("20[0-9][0-9]"@, y) is Some,
        year_number(y) == Some(Some(year)),
        month_names(month_map, lang) == Some(names),
        month_scan(names, regex_replace_first("20[0-9][0-9]"@, t, ""@), 0, 12, 1) == Some((month, day)),
    ensures
        published_outcome(json, lang, month_map) == Some(date_timestamp(date_string(year, month, day), "%Y-%m-%d"@)),
{
    let rest = regex_replace_first("20[0-9][0-9]"@, t, ""@);
    assert(published_parts(json) == Some(Some((y, rest))));
}


proof fn lemma_inv_head_keeps(e: Seq<(Seq<char>, JsonView)>, json: JsonValue, lang: &str, month_map: JsonValue, key: Seq<char>)
    requires
        view_get(e, key) is Some,
    ensures
        view_get(inv_head(e, json, lang, month_map), key) == view_get(e, key),
{
    lemma_with_member_keeps_all();
}

proof fn lemma_inv_people_keeps(e: Seq<(Seq<char>, JsonView)>, json: JsonValue, key: Seq<char>)
    requires
        view_get(e, key) is Some,
    ensures
        view_get(inv_people(e, json), key) == view_get(e, key),
{
    lemma_with_member_keeps_all();
}

proof fn lemma_inv_people_deciphering_keeps(e: Seq<(Seq<char>, JsonView)>, json: JsonValue, key: Seq<char>)
    requires
        view_get(e, key) is Some,
    ensures
        view_get(inv_people_deciphering(e, json), key) == view_get(e, key),
{
    lemma_with_member_keeps_all();
}

proof fn lemma_inv_state_keeps(e: Seq<(Seq<char>, JsonView)>, json: JsonValue, key: Seq<char>)
    requires
        view_get(e, key) is Some,
    ensures
        view_get(inv_state(e, json), key) == view_get(e, key),
{
    lemma_with_member_keeps_all();
}

proof fn lemma_inv_streams_keeps(e: Seq<(Seq<char>, JsonView)>, json: JsonValue, key: Seq<char>)
    requires
        view_get(e, key) is Some,
    ensures
        view_get(inv_streams(e, json), key) == view_get(e, key),
{
    lemma_with_member_keeps_all();
}

proof fn lemma_inv_streams_deciphered_keeps(
    e: Seq<(Seq<char>, JsonView)>,
    json: JsonValue,
    player_res: Seq<char>,
    legacy: Seq<LegacyFormatView>,
    adaptive: Seq<AdaptiveFormatView>,
    key: Seq<char>,
)
    requires
        view_get(e, key) is Some,
    ensures
        view_get(inv_streams_deciphered(e, json, player_res, legacy, adaptive), key) == view_get(e, key),
{
    lemma_with_member_keeps_all();
}

/// The members that the Invidious API gives a video.
pub open spec fn is_invidious_video_key(key: Seq<char>) -> bool {
    ||| key == "title"@
    ||| key == "videoId"@
    ||| key == "description"@
    ||| key == "descriptionHtml"@
    ||| key == "published"@
    ||| key == "publishedText"@
    ||| key == "keywords"@
    ||| key == "viewCount"@
    ||| key == "likeCount"@
    ||| key == "isFamilyFriendly"@
    ||| key == "allowedRegions"@
    ||| key == "genre"@
    ||| key == "author"@
    ||| key == "authorId"@
    ||| key == "authorUrl"@
    ||| key == "authorThumbnails"@
    ||| key == "subCountText"@
    ||| key == "lengthSeconds"@
    ||| key == "allowRatings"@
    ||| key == "isListed"@
    ||| key == "liveNow"@
    ||| key == "hlsUrl"@
    ||| key == "dashUrl"@
    ||| key == "formatStreams"@
    ||| key == "adaptiveFormats"@
    ||| key == "captions"@
    ||| key == "recommendedVideos"@
    ||| key == "musicTracks"@
}

proof fn lemma_with_member_other_all()
    ensures
        forall|entries: Seq<(Seq<char>, JsonView)>, k: Seq<char>, v: Option<JsonView>, key: Seq<char>|
            k != key ==> #[trigger] view_get(with_member(entries, k, v), key) == view_get(entries, key),
{
    assert forall|entries: Seq<(Seq<char>, JsonView)>, k: Seq<char>, v: Option<JsonView>, key: Seq<char>|
        k != key implies #[trigger] view_get(with_member(entries, k, v), key) == view_get(entries, key) by {
        lemma_with_member_other(entries, k, v, key);
    }
}

/// Filling in the video adds no member but those the Invidious API gives a
/// video: any other name is looked up as in the existing map.
pub proof fn lemma_fmt_inv_adds_only_video_keys(existing: Seq<(Seq<char>, JsonView)>, json: JsonValue, lang: &str, month_map: JsonValue, key: Seq<char>)
    requires
        !is_invidious_video_key(key),
    ensures
        view_get(fmt_inv_entries(existing, json, lang, month_map), key) == view_get(existing, key),
{
    lemma_with_member_other_all();
}

/// Filling in the video with deciphered streams adds no member but those the
/// Invidious API gives a video, whatever deciphering gave.
pub proof fn lemma_fmt_inv_deciphered_adds_only_video_keys(
    existing: Seq<(Seq<char>, JsonView)>,
    json: JsonValue,
    lang: &str,
    month_map: JsonValue,
    player_res: Seq<char>,
    legacy: Seq<LegacyFormatView>,
    adaptive: Seq<AdaptiveFormatView>,
    key: Seq<char>,
)
    requires
        !is_invidious_video_key(key),
    ensures
        view_get(fmt_inv_deciphered_entries(existing, json, lang, month_map, player_res, legacy, adaptive), key)
            == view_get(existing, key),
{
    lemma_with_member_other_all();
}

proof fn lemma_with_member_settles()
    ensures
        forall|entries: Seq<(Seq<char>, JsonView)>, k: Seq<char>, v: Option<JsonView>|
            v is Some ==> (#[trigger] view_get(with_member(entries, k, v), k)) is Some,
{
    assert forall|entries: Seq<(Seq<char>, JsonView)>, k: Seq<char>, v: Option<JsonView>|
        v is Some implies (#[trigger] view_get(with_member(entries, k, v), k)) is Some by {
        if view_get(entries, k) is None {
            lemma_with_member_reads(entries, k, v->0);
        } else {
            lemma_with_member_keeps(entries, k, v, k);
        }
    }
}

/// Whether the member `k` is settled in `e`: it is there, or there is
/// nothing to add for it.
pub open spec fn member_settled(e: Seq<(Seq<char>, JsonView)>, k: Seq<char>, v: Option<JsonView>) -> bool {
    view_get(e, k) is Some || v is None
}

/// The members that `inv_head` adds are settled in `e`.
pub open spec fn head_settled(e: Seq<(Seq<char>, JsonView)>, json: JsonValue, lang: &str, month_map: JsonValue) -> bool {
    &&& member_settled(e, "title"@, text_jv(spec_title(json)))
    &&& member_settled(e, "videoId"@, text_jv(spec_video_id(json)))
    &&& member_settled(e, "description"@, text_jv(spec_description(json)))
    &&& member_settled(e, "descriptionHtml"@, html_jv(json))
    &&& member_settled(e, "published"@, published_jv(json, lang, month_map))
    &&& member_settled(e, "publishedText"@, text_jv(spec_published_text(json)))
}

proof fn lemma_head_settles(e: Seq<(Seq<char>, JsonView)>, json: JsonValue, lang: &str, month_map: JsonValue)
    ensures
        head_settled(inv_head(e, json, lang, month_map), json, lang, month_map),
{
    lemma_with_member_keeps_all();
    lemma_with_member_settles();
}

proof fn lemma_head_idle(e: Seq<(Seq<char>, JsonView)>, json: JsonValue, lang: &str, month_map: JsonValue)
    requires
        head_settled(e, json, lang, month_map),
    ensures
        inv_head(e, json, lang, month_map) == e,
{
}

/// The members that `inv_people` adds are settled in `e`.
pub open spec fn people_settled(e: Seq<(Seq<char>, JsonView)>, json: JsonValue) -> bool {
    &&& member_settled(e, "keywords"@, match spec_keywords(json) {
        Some(k) => Some(texts_jv(k)),
        None => None,
    })
    &&& member_settled(e, "viewCount"@, int_jv(opt_i32_int(spec_view_count(json))))
    &&& member_settled(e, "likeCount"@, int_jv(opt_i32_int(spec_like_count(json))))
    &&& member_settled(e, "isFamilyFriendly"@, bool_jv(bool_at(json, path_is_family_safe())))
    &&& member_settled(e, "allowedRegions"@, match spec_available_countries(json) {
        Some(c) => Some(texts_jv(c)),
        None => None,
    })
    &&& member_settled(e, "genre"@, text_jv(str_at(json, path_category())))
    &&& member_settled(e, "author"@, text_jv(spec_author(json)))
    &&& member_settled(e, "authorId"@, text_jv(spec_author_id(json)))
    &&& member_settled(e, "authorUrl"@, match spec_author_id(json) {
        Some(id) => Some(JsonView::Str("/channel/"@ + id)),
        None => None,
    })
    &&& member_settled(e, "authorThumbnails"@, match spec_author_thumbnails(json) {
        Some(t) => Some(JsonView::Array(t.map_values(|x: (Seq<char>, i32, i32)| thumbnail_json(x)))),
        None => None,
    })
}

proof fn lemma_people_settles(e: Seq<(Seq<char>, JsonView)>, json: JsonValue)
    ensures
        people_settled(inv_people(e, json), json),
{
    lemma_with_member_keeps_all();
    lemma_with_member_settles();
}

proof fn lemma_people_idle(e: Seq<(Seq<char>, JsonView)>, json: JsonValue)
    requires
        people_settled(e, json),
    ensures
        inv_people(e, json) == e,
{
}

/// The members that `inv_state` adds are settled in `e`.
pub open spec fn state_settled(e: Seq<(Seq<char>, JsonView)>, json: JsonValue) -> bool {
    &&& member_settled(e, "subCountText"@, text_jv(spec_sub_count_text(json)))
    &&& member_settled(e, "lengthSeconds"@, int_jv(opt_i32_int(spec_length_seconds(json))))
    &&& member_settled(e, "allowRatings"@, bool_jv(bool_at(json, path_details_allow_ratings())))
    &&& member_settled(e, "isListed"@, bool_jv(spec_is_listed(json)))
    &&& member_settled(e, "liveNow"@, bool_jv(spec_is_live_now(json)))
    &&& member_settled(e, "hlsUrl"@, text_jv(str_at(json, path_hls_url())))
    &&& member_settled(e, "dashUrl"@, text_jv(str_at(json, path_dash_url())))
}

proof fn lemma_state_settles(e: Seq<(Seq<char>, JsonView)>, json: JsonValue)
    ensures
        state_settled(inv_state(e, json), json),
{
    lemma_with_member_keeps_all();
    lemma_with_member_settles();
}

proof fn lemma_state_idle(e: Seq<(Seq<char>, JsonView)>, json: JsonValue)
    requires
        state_settled(e, json),
    ensures
        inv_state(e, json) == e,
{
}

/// The members that `inv_streams` adds are settled in `e`.
pub open spec fn streams_settled(e: Seq<(Seq<char>, JsonView)>, json: JsonValue) -> bool {
    &&& member_settled(e, "formatStreams"@, match spec_legacy_formats(json) {
        Some(f) => Some(JsonView::Array(f.map_values(|x: LegacyFormatView| legacy_format_inv(x)))),
        None => None,
    })
    &&& member_settled(e, "adaptiveFormats"@, match spec_adaptive_formats(json) {
        Some(f) => Some(JsonView::Array(f.map_values(|x: AdaptiveFormatView| adaptive_format_inv(x)))),
        None => None,
    })
    &&& member_settled(e, "captions"@, match spec_captions(json) {
        Some(c) => Some(JsonView::Array(c.map_values(|x: (Seq<char>, Seq<char>, Seq<char>)| caption_json(x)))),
        None => None,
    })
    &&& member_settled(e, "recommendedVideos"@, match spec_recommended(json) {
        Some(r) => Some(JsonView::Array(recommended_invs(r))),
        None => None,
    })
    &&& member_settled(e, "musicTracks"@, match spec_music_tracks(json) {
        Some(t) => Some(JsonView::Array(t.map_values(|x: MusicTrackView| track_inv(x)))),
        None => None,
    })
}

proof fn lemma_streams_settles(e: Seq<(Seq<char>, JsonView)>, json: JsonValue)
    ensures
        streams_settled(inv_streams(e, json), json),
{
    lemma_with_member_keeps_all();
    lemma_with_member_settles();
}

proof fn lemma_streams_idle(e: Seq<(Seq<char>, JsonView)>, json: JsonValue)
    requires
        streams_settled(e, json),
    ensures
        inv_streams(e, json) == e,
{
}

proof fn lemma_head_settled_after_people(e: Seq<(Seq<char>, JsonView)>, json: JsonValue, lang: &str, month_map: JsonValue)
    requires
        head_settled(e, json, lang, month_map),
    ensures
        head_settled(inv_people(e, json), json, lang, month_map),
{
    if view_get(e, "title"@) is Some {
        lemma_inv_people_keeps(e, json, "title"@);
    }
    if view_get(e, "videoId"@) is Some {
        lemma_inv_people_keeps(e, json, "videoId"@);
    }
    if view_get(e, "description"@) is Some {
        lemma_inv_people_keeps(e, json, "description"@);
    }
    if view_get(e, "descriptionHtml"@) is Some {
        lemma_inv_people_keeps(e, json, "descriptionHtml"@);
    }
    if view_get(e, "published"@) is Some {
        lemma_inv_people_keeps(e, json, "published"@);
    }
    if view_get(e, "publishedText"@) is Some {
        lemma_inv_people_keeps(e, json, "publishedText"@);
    }
}

proof fn lemma_head_settled_after_state(e: Seq<(Seq<char>, JsonView)>, json: JsonValue, lang: &str, month_map: JsonValue)
    requires
        head_settled(e, json, lang, month_map),
    ensures
        head_settled(inv_state(e, json), json, lang, month_map),
{
    if view_get(e, "title"@) is Some {
        lemma_inv_state_keeps(e, json, "title"@);
    }
    if view_get(e, "videoId"@) is Some {
        lemma_inv_state_keeps(e, json, "videoId"@);
    }
    if view_get(e, "description"@) is Some {
        lemma_inv_state_keeps(e, json, "description"@);
    }
    if view_get(e, "descriptionHtml"@) is Some {
        lemma_inv_state_keeps(e, json, "descriptionHtml"@);
    }
    if view_get(e, "published"@) is Some {
        lemma_inv_state_keeps(e, json, "published"@);
    }
    if view_get(e, "publishedText"@) is Some {
        lemma_inv_state_keeps(e, json, "publishedText"@);
    }
}

proof fn lemma_head_settled_after_streams(e: Seq<(Seq<char>, JsonView)>, json: JsonValue, lang: &str, month_map: JsonValue)
    requires
        head_settled(e, json, lang, month_map),
    ensures
        head_settled(inv_streams(e, json), json, lang, month_map),
{
    if view_get(e, "title"@) is Some {
        lemma_inv_streams_keeps(e, json, "title"@);
    }
    if view_get(e, "videoId"@) is Some {
        lemma_inv_streams_keeps(e, json, "videoId"@);
    }
    if view_get(e, "description"@) is Some {
        lemma_inv_streams_keeps(e, json, "description"@);
    }
    if view_get(e, "descriptionHtml"@) is Some {
        lemma_inv_streams_keeps(e, json, "descriptionHtml"@);
    }
    if view_get(e, "published"@) is Some {
        lemma_inv_streams_keeps(e, json, "published"@);
    }
    if view_get(e, "publishedText"@) is Some {
        lemma_inv_streams_keeps(e, json, "publishedText"@);
    }
}

proof fn lemma_people_settled_after_state(e: Seq<(Seq<char>, JsonView)>, json: JsonValue)
    requires
        people_settled(e, json),
    ensures
        people_settled(inv_state(e, json), json),
{
    if view_get(e, "keywords"@) is Some {
        lemma_inv_state_keeps(e, json, "keywords"@);
    }
    if view_get(e, "viewCount"@) is Some {
        lemma_inv_state_keeps(e, json, "viewCount"@);
    }
    if view_get(e, "likeCount"@) is Some {
        lemma_inv_state_keeps(e, json, "likeCount"@);
    }
    if view_get(e, "isFamilyFriendly"@) is Some {
        lemma_inv_state_keeps(e, json, "isFamilyFriendly"@);
    }
    if view_get(e, "allowedRegions"@) is Some {
        lemma_inv_state_keeps(e, json, "allowedRegions"@);
    }
    if view_get(e, "genre"@) is Some {
        lemma_inv_state_keeps(e, json, "genre"@);
    }
    if view_get(e, "author"@) is Some {
        lemma_inv_state_keeps(e, json, "author"@);
    }
    if view_get(e, "authorId"@) is Some {
        lemma_inv_state_keeps(e, json, "authorId"@);
    }
    if view_get(e, "authorUrl"@) is Some {
        lemma_inv_state_keeps(e, json, "authorUrl"@);
    }
    if view_get(e, "authorThumbnails"@) is Some {
        lemma_inv_state_keeps(e, json, "authorThumbnails"@);
    }
}

proof fn lemma_people_settled_after_streams(e: Seq<(Seq<char>, JsonView)>, json: JsonValue)
    requires
        people_settled(e, json),
    ensures
        people_settled(inv_streams(e, json), json),
{
    if view_get(e, "keywords"@) is Some {
        lemma_inv_streams_keeps(e, json, "keywords"@);
    }
    if view_get(e, "viewCount"@) is Some {
        lemma_inv_streams_keeps(e, json, "viewCount"@);
    }
    if view_get(e, "likeCount"@) is Some {
        lemma_inv_streams_keeps(e, json, "likeCount"@);
    }
    if view_get(e, "isFamilyFriendly"@) is Some {
        lemma_inv_streams_keeps(e, json, "isFamilyFriendly"@);
    }
    if view_get(e, "allowedRegions"@) is Some {
        lemma_inv_streams_keeps(e, json, "allowedRegions"@);
    }
    if view_get(e, "genre"@) is Some {
        lemma_inv_streams_keeps(e, json, "genre"@);
    }
    if view_get(e, "author"@) is Some {
        lemma_inv_streams_keeps(e, json, "author"@);
    }
    if view_get(e, "authorId"@) is Some {
        lemma_inv_streams_keeps(e, json, "authorId"@);
    }
    if view_get(e, "authorUrl"@) is Some {
        lemma_inv_streams_keeps(e, json, "authorUrl"@);
    }
    if view_get(e, "authorThumbnails"@) is Some {
        lemma_inv_streams_keeps(e, json, "authorThumbnails"@);
    }
}

proof fn lemma_state_settled_after_streams(e: Seq<(Seq<char>, JsonView)>, json: JsonValue)
    requires
        state_settled(e, json),
    ensures
        state_settled(inv_streams(e, json), json),
{
    if view_get(e, "subCountText"@) is Some {
        lemma_inv_streams_keeps(e, json, "subCountText"@);
    }
    if view_get(e, "lengthSeconds"@) is Some {
        lemma_inv_streams_keeps(e, json, "lengthSeconds"@);
    }
    if view_get(e, "allowRatings"@) is Some {
        lemma_inv_streams_keeps(e, json, "allowRatings"@);
    }
    if view_get(e, "isListed"@) is Some {
        lemma_inv_streams_keeps(e, json, "isListed"@);
    }
    if view_get(e, "liveNow"@) is Some {
        lemma_inv_streams_keeps(e, json, "liveNow"@);
    }
    if view_get(e, "hlsUrl"@) is Some {
        lemma_inv_streams_keeps(e, json, "hlsUrl"@);
    }
    if view_get(e, "dashUrl"@) is Some {
        lemma_inv_streams_keeps(e, json, "dashUrl"@);
    }
}

/// Filling in the video a second time changes nothing.
pub proof fn lemma_fmt_inv_idempotent(existing: Seq<(Seq<char>, JsonView)>, json: JsonValue, lang: &str, month_map: JsonValue)
    ensures
        fmt_inv_entries(fmt_inv_entries(existing, json, lang, month_map), json, lang, month_map)
            == fmt_inv_entries(existing, json, lang, month_map),
{
    let e1 = inv_head(existing, json, lang, month_map);
    let e2 = inv_people(e1, json);
    let e3 = inv_state(e2, json);
    let e4 = inv_streams(e3, json);
    lemma_head_settles(existing, json, lang, month_map);
    lemma_head_settled_after_people(e1, json, lang, month_map);
    lemma_head_settled_after_state(e2, json, lang, month_map);
    lemma_head_settled_after_streams(e3, json, lang, month_map);
    lemma_people_settles(e1, json);
    lemma_people_settled_after_state(e2, json);
    lemma_people_settled_after_streams(e3, json);
    lemma_state_settles(e2, json);
    lemma_state_settled_after_streams(e3, json);
    lemma_streams_settles(e3, json);
    lemma_head_idle(e4, json, lang, month_map);
    lemma_people_idle(e4, json);
    lemma_state_idle(e4, json);
    lemma_streams_idle(e4, json);
}

proof fn lemma_stream_keys_differ()
    ensures
        "title"@ != "formatStreams"@,
        "title"@ != "adaptiveFormats"@,
        "videoId"@ != "formatStreams"@,
        "videoId"@ != "adaptiveFormats"@,
        "description"@ != "formatStreams"@,
        "description"@ != "adaptiveFormats"@,
        "descriptionHtml"@ != "formatStreams"@,
        "descriptionHtml"@ != "adaptiveFormats"@,
        "published"@ != "formatStreams"@,
        "published"@ != "adaptiveFormats"@,
        "publishedText"@ != "formatStreams"@,
        "publishedText"@ != "adaptiveFormats"@,
        "keywords"@ != "formatStreams"@,
        "keywords"@ != "adaptiveFormats"@,
        "viewCount"@ != "formatStreams"@,
        "viewCount"@ != "adaptiveFormats"@,
        "likeCount"@ != "formatStreams"@,
        "likeCount"@ != "adaptiveFormats"@,
        "isFamilyFriendly"@ != "formatStreams"@,
        "isFamilyFriendly"@ != "adaptiveFormats"@,
        "allowedRegions"@ != "formatStreams"@,
        "allowedRegions"@ != "adaptiveFormats"@,
        "genre"@ != "formatStreams"@,
        "genre"@ != "adaptiveFormats"@,
        "author"@ != "formatStreams"@,
        "author"@ != "adaptiveFormats"@,
        "authorId"@ != "formatStreams"@,
        "authorId"@ != "adaptiveFormats"@,
        "authorUrl"@ != "formatStreams"@,
        "authorUrl"@ != "adaptiveFormats"@,
        "authorThumbnails"@ != "formatStreams"@,
        "authorThumbnails"@ != "adaptiveFormats"@,
        "subCountText"@ != "formatStreams"@,
        "subCountText"@ != "adaptiveFormats"@,
        "lengthSeconds"@ != "formatStreams"@,
        "lengthSeconds"@ != "adaptiveFormats"@,
        "allowRatings"@ != "formatStreams"@,
        "allowRatings"@ != "adaptiveFormats"@,
        "isListed"@ != "formatStreams"@,
        "isListed"@ != "adaptiveFormats"@,
        "liveNow"@ != "formatStreams"@,
        "liveNow"@ != "adaptiveFormats"@,
        "hlsUrl"@ != "formatStreams"@,
        "hlsUrl"@ != "adaptiveFormats"@,
        "dashUrl"@ != "formatStreams"@,
        "dashUrl"@ != "adaptiveFormats"@,
        "captions"@ != "formatStreams"@,
        "captions"@ != "adaptiveFormats"@,
        "recommendedVideos"@ != "formatStreams"@,
        "recommendedVideos"@ != "adaptiveFormats"@,
        "musicTracks"@ != "formatStreams"@,
        "musicTracks"@ != "adaptiveFormats"@,
        "formatStreams"@ != "adaptiveFormats"@,
{
    lemma_video_key_facts();
}

proof fn lemma_no_cipher_no_codes(fs: Seq<AdaptiveFormatView>, js_code: Seq<char>)
    requires
        forall|i: int| 0 <= i < fs.len() ==> (#[trigger] fs[i]).signature_cipher is None,
    ensures
        adaptive_codes(fs, js_code).len() == 0,
    decreases fs.len(),
{
    if fs.len() > 0 {
        assert forall|i: int| 0 <= i < fs.drop_last().len() implies (#[trigger] fs.drop_last()[i]).signature_cipher is None by {
            assert(fs.drop_last()[i] == fs[i]);
        }
        lemma_no_cipher_no_codes(fs.drop_last(), js_code);
        assert(fs.last() == fs[fs.len() - 1]);
    }
}

/// Where no format has a signature cipher, deciphering keeps the adaptive
/// formats in order, each with its own address and the host added, and the
/// legacy formats likewise; the legacy formats are written exactly where the
/// player script gives deciphering functions. This holds whatever the engine
/// gave.
pub proof fn lemma_deciphered_plain_streams(
    existing: Seq<(Seq<char>, JsonView)>,
    json: JsonValue,
    lang: &str,
    month_map: JsonValue,
    player_res: Seq<char>,
    outputs: Seq<Option<Seq<char>>>,
    output: Option<Seq<char>>,
)
    requires
        view_get(existing, "formatStreams"@) is None,
        view_get(existing, "adaptiveFormats"@) is None,
        spec_legacy_formats(json) is Some,
        forall|i: int| 0 <= i < spec_legacy_formats(json)->0.len()
            ==> (#[trigger] spec_legacy_formats(json)->0[i]).signature_cipher is None,
        spec_adaptive_formats(json) is Some,
        forall|i: int| 0 <= i < spec_adaptive_formats(json)->0.len()
            ==> (#[trigger] spec_adaptive_formats(json)->0[i]).signature_cipher is None,
    ensures
        view_get(
            fmt_inv_deciphered_entries(existing, json, lang, month_map, player_res, legacy_given_in(json, player_res, outputs), adaptive_given_in(json, player_res, output)),
            "adaptiveFormats"@,
        ) == Some(JsonView::Array(own_urls_applied(spec_adaptive_formats(json)->0).map_values(|x: AdaptiveFormatView| adaptive_format_inv(x)))),
        view_get(
            fmt_inv_deciphered_entries(existing, json, lang, month_map, player_res, legacy_given_in(json, player_res, outputs), adaptive_given_in(json, player_res, output)),
            "formatStreams"@,
        ) == if formatable_decipher_js_code(player_res) is Ok {
            Some(JsonView::Array(spec_legacy_formats(json)->0.map_values(
                |f: LegacyFormatView| legacy_format_inv(legacy_deciphered(f, None)),
            )))
        } else {
            None
        },
{
    let legacy = legacy_given_in(json, player_res, outputs);
    let adaptive = adaptive_given_in(json, player_res, output);
    let fs = spec_legacy_formats(json)->0;
    let gs = spec_adaptive_formats(json)->0;
    lemma_stream_keys_differ();
    lemma_with_member_other_all();
    lemma_no_cipher_no_codes(gs, decipher_code_or_empty(player_res));
    assert(adaptive == own_urls_applied(gs));
    if formatable_decipher_js_code(player_res) is Ok {
        let code = formatable_decipher_js_code(player_res)->Ok_0;
        assert(legacy =~= fs.map_values(|f: LegacyFormatView| legacy_deciphered(f, None))) by {
            assert forall|i: int| 0 <= i < fs.len() implies legacy[i] == legacy_deciphered(fs[i], None) by {
                assert(fs[i].signature_cipher is None);
                assert(!legacy_has_script(fs[i], code));
            }
        }
        assert(legacy.map_values(|x: LegacyFormatView| legacy_format_inv(x)) =~= fs.map_values(
            |f: LegacyFormatView| legacy_format_inv(legacy_deciphered(f, None)),
        ));
    }
    let e1 = inv_head(existing, json, lang, month_map);
    let e2 = inv_people_deciphering(e1, json);
    let e3 = inv_state(e2, json);
    assert(view_get(e3, "formatStreams"@) is None);
    assert(view_get(e3, "adaptiveFormats"@) is None);
    let legacy_v = if spec_legacy_formats(json) is Some && formatable_decipher_js_code(player_res) is Ok {
        Some(JsonView::Array(legacy.map_values(|x: LegacyFormatView| legacy_format_inv(x))))
    } else {
        None
    };
    let f1 = with_member(e3, "formatStreams"@, legacy_v);
    if legacy_v is Some {
        lemma_with_member_reads(e3, "formatStreams"@, legacy_v->0);
    }
    assert(view_get(f1, "adaptiveFormats"@) is None);
    let adaptive_v = JsonView::Array(adaptive.map_values(|x: AdaptiveFormatView| adaptive_format_inv(x)));
    lemma_with_member_reads(f1, "adaptiveFormats"@, adaptive_v);
}

proof fn lemma_video_key_facts()
    ensures
        "title"@.len() == 5 && "title"@[0] == 't',
        "videoId"@.len() == 7 && "videoId"@[0] == 'v',
        "description"@.len() == 11 && "description"@[0] == 'd',
        "descriptionHtml"@.len() == 15 && "descriptionHtml"@[0] == 'd',
        "published"@.len() == 9 && "published"@[0] == 'p',
        "publishedText"@.len() == 13 && "publishedText"@[0] == 'p',
        "keywords"@.len() == 8 && "keywords"@[0] == 'k',
        "viewCount"@.len() == 9 && "viewCount"@[0] == 'v',
        "likeCount"@.len() == 9 && "likeCount"@[0] == 'l',
        "isFamilyFriendly"@.len() == 16 && "isFamilyFriendly"@[0] == 'i',
        "allowedRegions"@.len() == 14 && "allowedRegions"@[0] == 'a',
        "genre"@.len() == 5 && "genre"@[0] == 'g',
        "author"@.len() == 6 && "author"@[0] == 'a',
        "authorId"@.len() == 8 && "authorId"@[0] == 'a',
        "authorUrl"@.len() == 9 && "authorUrl"@[0] == 'a',
        "authorThumbnails"@.len() == 16 && "authorThumbnails"@[0] == 'a',
        "subCountText"@.len() == 12 && "subCountText"@[0] == 's',
        "lengthSeconds"@.len() == 13 && "lengthSeconds"@[0] == 'l',
        "allowRatings"@.len() == 12 && "allowRatings"@[0] == 'a',
        "isListed"@.len() == 8 && "isListed"@[0] == 'i',
        "liveNow"@.len() == 7 && "liveNow"@[0] == 'l',
        "hlsUrl"@.len() == 6 && "hlsUrl"@[0] == 'h',
        "dashUrl"@.len() == 7 && "dashUrl"@[0] == 'd',
        "formatStreams"@.len() == 13 && "formatStreams"@[0] == 'f',
        "adaptiveFormats"@.len() == 15 && "adaptiveFormats"@[0] == 'a',
        "captions"@.len() == 8 && "captions"@[0] == 'c',
        "recommendedVideos"@.len() == 17 && "recommendedVideos"@[0] == 'r',
        "musicTracks"@.len() == 11 && "musicTracks"@[0] == 'm',
{
    reveal_strlit("title");
    reveal_strlit("videoId");
    reveal_strlit("description");
    reveal_strlit("descriptionHtml");
    reveal_strlit("published");
    reveal_strlit("publishedText");
    reveal_strlit("keywords");
    reveal_strlit("viewCount");
    reveal_strlit("likeCount");
    reveal_strlit("isFamilyFriendly");
    reveal_strlit("allowedRegions");
    reveal_strlit("genre");
    reveal_strlit("author");
    reveal_strlit("authorId");
    reveal_strlit("authorUrl");
    reveal_strlit("authorThumbnails");
    reveal_strlit("subCountText");
    reveal_strlit("lengthSeconds");
    reveal_strlit("allowRatings");
    reveal_strlit("isListed");
    reveal_strlit("liveNow");
    reveal_strlit("hlsUrl");
    reveal_strlit("dashUrl");
    reveal_strlit("formatStreams");
    reveal_strlit("adaptiveFormats");
    reveal_strlit("captions");
    reveal_strlit("recommendedVideos");
    reveal_strlit("musicTracks");
    assert("title"@.len() == 5 && "title"@[0] == 't');
    assert("videoId"@.len() == 7 && "videoId"@[0] == 'v');
    assert("description"@.len() == 11 && "description"@[0] == 'd');
    assert("descriptionHtml"@.len() == 15 && "descriptionHtml"@[0] == 'd');
    assert("published"@.len() == 9 && "published"@[0] == 'p');
    assert("publishedText"@.len() == 13 && "publishedText"@[0] == 'p');
    assert("keywords"@.len() == 8 && "keywords"@[0] == 'k');
    assert("viewCount"@.len() == 9 && "viewCount"@[0] == 'v');
    assert("likeCount"@.len() == 9 && "likeCount"@[0] == 'l');
    assert("isFamilyFriendly"@.len() == 16 && "isFamilyFriendly"@[0] == 'i');
    assert("allowedRegions"@.len() == 14 && "allowedRegions"@[0] == 'a');
    assert("genre"@.len() == 5 && "genre"@[0] == 'g');
    assert("author"@.len() == 6 && "author"@[0] == 'a');
    assert("authorId"@.len() == 8 && "authorId"@[0] == 'a');
    assert("authorUrl"@.len() == 9 && "authorUrl"@[0] == 'a');
    assert("authorThumbnails"@.len() == 16 && "authorThumbnails"@[0] == 'a');
    assert("subCountText"@.len() == 12 && "subCountText"@[0] == 's');
    assert("lengthSeconds"@.len() == 13 && "lengthSeconds"@[0] == 'l');
    assert("allowRatings"@.len() == 12 && "allowRatings"@[0] == 'a');
    assert("isListed"@.len() == 8 && "isListed"@[0] == 'i');
    assert("liveNow"@.len() == 7 && "liveNow"@[0] == 'l');
    assert("hlsUrl"@.len() == 6 && "hlsUrl"@[0] == 'h');
    assert("dashUrl"@.len() == 7 && "dashUrl"@[0] == 'd');
    assert("formatStreams"@.len() == 13 && "formatStreams"@[0] == 'f');
    assert("adaptiveFormats"@.len() == 15 && "adaptiveFormats"@[0] == 'a');
    assert("captions"@.len() == 8 && "captions"@[0] == 'c');
    assert("recommendedVideos"@.len() == 17 && "recommendedVideos"@[0] == 'r');
    assert("musicTracks"@.len() == 11 && "musicTracks"@[0] == 'm');
}

proof fn lemma_with_member_reads_all()
    ensures
        forall|entries: Seq<(Seq<char>, JsonView)>, k: Seq<char>, x: JsonView|
            view_get(entries, k) is None ==> #[trigger] view_get(with_member(entries, k, Some(x)), k) == Some(x),
{
    assert forall|entries: Seq<(Seq<char>, JsonView)>, k: Seq<char>, x: JsonView|
        view_get(entries, k) is None implies #[trigger] view_get(with_member(entries, k, Some(x)), k) == Some(x) by {
        lemma_with_member_reads(entries, k, x);
    }
}

/// What `inv_head` writes under `key`, where the object lacks it.
pub open spec fn head_value(json: JsonValue, lang: &str, month_map: JsonValue, key: Seq<char>) -> Option<JsonView> {
    if key == "title"@ {
        text_jv(spec_title(json))
    } else     if key == "videoId"@ {
        text_jv(spec_video_id(json))
    } else     if key == "description"@ {
        text_jv(spec_description(json))
    } else     if key == "descriptionHtml"@ {
        html_jv(json)
    } else     if key == "published"@ {
        published_jv(json, lang, month_map)
    } else     if key == "publishedText"@ {
        text_jv(spec_published_text(json))
    } else {
        None
    }
}

#[verifier::spinoff_prover]
#[verifier::rlimit(40)]
proof fn lemma_head_member(e: Seq<(Seq<char>, JsonView)>, json: JsonValue, lang: &str, month_map: JsonValue, key: Seq<char>)
    ensures
        view_get(inv_head(e, json, lang, month_map), key) == if view_get(e, key) is Some {
            view_get(e, key)
        } else {
            head_value(json, lang, month_map, key)
        },
{
    lemma_video_key_facts();
    lemma_with_member_other_all();
    lemma_with_member_reads_all();
    lemma_with_member_keeps_all();
}

/// What `inv_people` writes under `key`, where the object lacks it.
pub open spec fn people_value(json: JsonValue, key: Seq<char>) -> Option<JsonView> {
    if key == "keywords"@ {
        match spec_keywords(json) {
            Some(k) => Some(texts_jv(k)),
            None => None,
        }
    } else     if key == "viewCount"@ {
        int_jv(opt_i32_int(spec_view_count(json)))
    } else     if key == "likeCount"@ {
        int_jv(opt_i32_int(spec_like_count(json)))
    } else     if key == "isFamilyFriendly"@ {
        bool_jv(bool_at(json, path_is_family_safe()))
    } else     if key == "allowedRegions"@ {
        match spec_available_countries(json) {
            Some(c) => Some(texts_jv(c)),
            None => None,
        }
    } else     if key == "genre"@ {
        text_jv(str_at(json, path_category()))
    } else     if key == "author"@ {
        text_jv(spec_author(json))
    } else     if key == "authorId"@ {
        text_jv(spec_author_id(json))
    } else     if key == "authorUrl"@ {
        match spec_author_id(json) {
            Some(id) => Some(JsonView::Str("/channel/"@ + id)),
            None => None,
        }
    } else     if key == "authorThumbnails"@ {
        match spec_author_thumbnails(json) {
            Some(t) => Some(JsonView::Array(t.map_values(|x: (Seq<char>, i32, i32)| thumbnail_json(x)))),
            None => None,
        }
    } else {
        None
    }
}

#[verifier::spinoff_prover]
#[verifier::rlimit(40)]
proof fn lemma_people_member(e: Seq<(Seq<char>, JsonView)>, json: JsonValue, key: Seq<char>)
    ensures
        view_get(inv_people(e, json), key) == if view_get(e, key) is Some {
            view_get(e, key)
        } else {
            people_value(json, key)
        },
{
    lemma_video_key_facts();
    lemma_with_member_other_all();
    lemma_with_member_reads_all();
    lemma_with_member_keeps_all();
}

/// What `inv_state` writes under `key`, where the object lacks it.
pub open spec fn state_value(json: JsonValue, key: Seq<char>) -> Option<JsonView> {
    if key == "subCountText"@ {
        text_jv(spec_sub_count_text(json))
    } else     if key == "lengthSeconds"@ {
        int_jv(opt_i32_int(spec_length_seconds(json)))
    } else     if key == "allowRatings"@ {
        bool_jv(bool_at(json, path_details_allow_ratings()))
    } else     if key == "isListed"@ {
        bool_jv(spec_is_listed(json))
    } else     if key == "liveNow"@ {
        bool_jv(spec_is_live_now(json))
    } else     if key == "hlsUrl"@ {
        text_jv(str_at(json, path_hls_url()))
    } else     if key == "dashUrl"@ {
        text_jv(str_at(json, path_dash_url()))
    } else {
        None
    }
}

#[verifier::spinoff_prover]
#[verifier::rlimit(40)]
proof fn lemma_state_member(e: Seq<(Seq<char>, JsonView)>, json: JsonValue, key: Seq<char>)
    ensures
        view_get(inv_state(e, json), key) == if view_get(e, key) is Some {
            view_get(e, key)
        } else {
            state_value(json, key)
        },
{
    lemma_video_key_facts();
    lemma_with_member_other_all();
    lemma_with_member_reads_all();
    lemma_with_member_keeps_all();
}

/// What `inv_streams` writes under `key`, where the object lacks it.
pub open spec fn streams_value(json: JsonValue, key: Seq<char>) -> Option<JsonView> {
    if key == "formatStreams"@ {
        match spec_legacy_formats(json) {
            Some(f) => Some(JsonView::Array(f.map_values(|x: LegacyFormatView| legacy_format_inv(x)))),
            None => None,
        }
    } else     if key == "adaptiveFormats"@ {
        match spec_adaptive_formats(json) {
            Some(f) => Some(JsonView::Array(f.map_values(|x: AdaptiveFormatView| adaptive_format_inv(x)))),
            None => None,
        }
    } else     if key == "captions"@ {
        match spec_captions(json) {
            Some(c) => Some(JsonView::Array(c.map_values(|x: (Seq<char>, Seq<char>, Seq<char>)| caption_json(x)))),
            None => None,
        }
    } else     if key == "recommendedVideos"@ {
        match spec_recommended(json) {
            Some(r) => Some(JsonView::Array(recommended_invs(r))),
            None => None,
        }
    } else     if key == "musicTracks"@ {
        match spec_music_tracks(json) {
            Some(t) => Some(JsonView::Array(t.map_values(|x: MusicTrackView| track_inv(x)))),
            None => None,
        }
    } else {
        None
    }
}

#[verifier::spinoff_prover]
#[verifier::rlimit(40)]
proof fn lemma_streams_member(e: Seq<(Seq<char>, JsonView)>, json: JsonValue, key: Seq<char>)
    ensures
        view_get(inv_streams(e, json), key) == if view_get(e, key) is Some {
            view_get(e, key)
        } else {
            streams_value(json, key)
        },
{
    lemma_video_key_facts();
    lemma_with_member_other_all();
    lemma_with_member_reads_all();
    lemma_with_member_keeps_all();
}

/// What the Invidious API writes under `key` for the video, where the
/// existing map lacks it: the value built from the member's getter.
pub open spec fn video_member(json: JsonValue, lang: &str, month_map: JsonValue, key: Seq<char>) -> Option<JsonView> {
    match head_value(json, lang, month_map, key) {
        Some(v) => Some(v),
        None => match people_value(json, key) {
            Some(v) => Some(v),
            None => match state_value(json, key) {
                Some(v) => Some(v),
                None => streams_value(json, key),
            },
        },
    }
}

/// Each member that filling in the video adds is built from its getter: a
/// name the existing map lacks is looked up as `video_member` gives it
/// (nothing for a name that is not a member of a video).
pub proof fn lemma_fmt_inv_members_from_getters(existing: Seq<(Seq<char>, JsonView)>, json: JsonValue, lang: &str, month_map: JsonValue, key: Seq<char>)
    requires
        view_get(existing, key) is None,
    ensures
        view_get(fmt_inv_entries(existing, json, lang, month_map), key) == video_member(json, lang, month_map, key),
{
    let e1 = inv_head(existing, json, lang, month_map);
    let e2 = inv_people(e1, json);
    let e3 = inv_state(e2, json);
    lemma_head_member(existing, json, lang, month_map, key);
    lemma_people_member(e1, json, key);
    lemma_state_member(e2, json, key);
    lemma_streams_member(e3, json, key);
}

/// Filling in the video never changes a member that the existing map had.
pub proof fn lemma_fmt_inv_keeps_existing(existing: Seq<(Seq<char>, JsonView)>, json: JsonValue, lang: &str, month_map: JsonValue, key: Seq<char>)
    requires
        view_get(existing, key) is Some,
    ensures
        view_get(fmt_inv_entries(existing, json, lang, month_map), key) == view_get(existing, key),
{
    let e1 = inv_head(existing, json, lang, month_map);
    lemma_inv_head_keeps(existing, json, lang, month_map, key);
    let e2 = inv_people(e1, json);
    lemma_inv_people_keeps(e1, json, key);
    let e3 = inv_state(e2, json);
    lemma_inv_state_keeps(e2, json, key);
    lemma_inv_streams_keeps(e3, json, key);
}

/// Filling in the video with deciphered streams never changes a member that
/// the existing map had, whatever deciphering gave.
pub proof fn lemma_fmt_inv_deciphered_keeps_existing(
    existing: Seq<(Seq<char>, JsonView)>,
    json: JsonValue,
    lang: &str,
    month_map: JsonValue,
    player_res: Seq<char>,
    legacy: Seq<LegacyFormatView>,
    adaptive: Seq<AdaptiveFormatView>,
    key: Seq<char>,
)
    requires
        view_get(existing, key) is Some,
    ensures
        view_get(fmt_inv_deciphered_entries(existing, json, lang, month_map, player_res, legacy, adaptive), key)
            == view_get(existing, key),
{
    let e1 = inv_head(existing, json, lang, month_map);
    lemma_inv_head_keeps(existing, json, lang, month_map, key);
    let e2 = inv_people_deciphering(e1, json);
    lemma_inv_people_deciphering_keeps(e1, json, key);
    let e3 = inv_state(e2, json);
    lemma_inv_state_keeps(e2, json, key);
    lemma_inv_streams_deciphered_keeps(e3, json, player_res, legacy, adaptive, key);
}

/// Without command runs, the description with links is the description.
pub proof fn lemma_description_html_without_runs(json: JsonValue)
    requires
        str_at(json, path_attributed_content()) is Some,
        array_at(json, path_command_runs()) matches Some(runs) ==> runs.len() == 0,
    ensures
        description_html_outcome(json) == Some(spec_description(json)),
{
}

/// Adding the host keeps the address as it was, at the start.
pub proof fn lemma_host_param_keeps_url(url: Seq<char>)
    ensures
        host_param_url(url).len() >= url.len(),
        host_param_url(url).take(url.len() as int) == url,
{
    match capture_group(host_pattern(), url, 1) {
        Some(host) => {
            let r = url + "&host="@ + percent_encode_bytes(encode_utf8(host));
            assert(r.take(url.len() as int) =~= url);
        },
        None => {
            assert(url.take(url.len() as int) =~= url);
        },
    }
}

} // verus!
