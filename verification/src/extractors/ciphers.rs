//! Where the player script is found.
use vstd::prelude::*;
use crate::bindings::capture_group;
use crate::bindings::capture;
use crate::constants::WEBSITE_BASE_URL;
use crate::text::{cat, cat3};

verus! {

/// The address of the embedding API script, which names the player.
pub fn iframe_api_url() -> (r: String)
    ensures
        r@ == WEBSITE_BASE_URL@ + "/iframe_api"@,
{
    cat(WEBSITE_BASE_URL, "/iframe_api")
}

pub open spec fn player_id_pattern() -> Seq<char> {
    r"= 'https:\\/\\/www.youtube.com\\/s\\/player\\/([^']*?)\\/www-widgetapi.vflset\\/www-widgetapi.js';window\['yt_embeds"@
}

/// The id of the player that the embedding API script names.
pub fn player_js_id(iframe_api: &str) -> (r: Option<String>)
    ensures
        r.deep_view() == capture_group(player_id_pattern(), iframe_api@, 1),
{
    capture(
        r"= 'https:\\/\\/www.youtube.com\\/s\\/player\\/([^']*?)\\/www-widgetapi.vflset\\/www-widgetapi.js';window\['yt_embeds",
        iframe_api,
        1,
    )
}

/// The address of the player script with id `id`.
pub fn player_response_url(id: &str) -> (r: String)
    ensures
        r@ == WEBSITE_BASE_URL@ + "/s/player/"@ + id@ + "/player_ias.vflset/en_US/base.js"@,
{
    let head = cat3(WEBSITE_BASE_URL, "/s/player/", id);
    cat(head.as_str(), "/player_ias.vflset/en_US/base.js")
}

} // verus!
