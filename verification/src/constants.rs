//! Hosts and paths of the site and its API.
use vstd::prelude::*;

verus! {

pub const YT_THUMBNAIL_HOST_URL: &'static str = "https://i.ytimg.com/vi";

pub const WEBSITE_BASE_URL: &'static str = "https://www.youtube.com";

pub const SHORT_WEBSITE_BASE_URL: &'static str = "https://youtu.be";

pub const WEBSITE_VIDEO_PATH: &'static str = "/watch?v=";

pub const INNERTUBE_API_URL: &'static str = "/youtubei/";

pub const DEFAULT_WEB_API_KEY: &'static str = "";

pub const DEFAULT_WEB_CVER: &'static str = "2.20230331.00.00";

} // verus!
