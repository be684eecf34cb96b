//! Reading what the site's responses hold, and the client that asks for them.
pub mod android;
pub mod ciphers;
pub mod tv;
pub mod web;

use vstd::prelude::*;
use crate::constants::{DEFAULT_WEB_API_KEY, DEFAULT_WEB_CVER};
use crate::json::{str_at, JsonValue, Seg};

verus! {

// Paths into the responses

pub open spec fn path_api_key() -> Seq<Seg<'static>> {
    seq![Seg::Key("INNERTUBE_API_KEY")]
}

fn path_api_key_segs() -> (r: [Seg<'static>; 1])
    ensures
        r@ == path_api_key(),
{
    [Seg::Key("INNERTUBE_API_KEY")]
}

pub open spec fn path_api_version() -> Seq<Seg<'static>> {
    seq![Seg::Key("INNERTUBE_API_VERSION")]
}

fn path_api_version_segs() -> (r: [Seg<'static>; 1])
    ensures
        r@ == path_api_version(),
{
    [Seg::Key("INNERTUBE_API_VERSION")]
}

pub open spec fn path_client_version() -> Seq<Seg<'static>> {
    seq![Seg::Key("INNERTUBE_CLIENT_VERSION")]
}

fn path_client_version_segs() -> (r: [Seg<'static>; 1])
    ensures
        r@ == path_client_version(),
{
    [Seg::Key("INNERTUBE_CLIENT_VERSION")]
}

pub open spec fn path_user_agent() -> Seq<Seg<'static>> {
    seq![Seg::Key("INNERTUBE_CONTEXT"), Seg::Key("client"), Seg::Key("userAgent")]
}

fn path_user_agent_segs() -> (r: [Seg<'static>; 3])
    ensures
        r@ == path_user_agent(),
{
    [Seg::Key("INNERTUBE_CONTEXT"), Seg::Key("client"), Seg::Key("userAgent")]
}

pub open spec fn path_client_name() -> Seq<Seg<'static>> {
    seq![Seg::Key("INNERTUBE_CLIENT_NAME")]
}

fn path_client_name_segs() -> (r: [Seg<'static>; 1])
    ensures
        r@ == path_client_name(),
{
    [Seg::Key("INNERTUBE_CLIENT_NAME")]
}

pub open spec fn path_os_name() -> Seq<Seg<'static>> {
    seq![Seg::Key("INNERTUBE_CONTEXT"), Seg::Key("client"), Seg::Key("osName")]
}

fn path_os_name_segs() -> (r: [Seg<'static>; 3])
    ensures
        r@ == path_os_name(),
{
    [Seg::Key("INNERTUBE_CONTEXT"), Seg::Key("client"), Seg::Key("osName")]
}

pub open spec fn path_os_version() -> Seq<Seg<'static>> {
    seq![Seg::Key("INNERTUBE_CONTEXT"), Seg::Key("client"), Seg::Key("osVersion")]
}

fn path_os_version_segs() -> (r: [Seg<'static>; 3])
    ensures
        r@ == path_os_version(),
{
    [Seg::Key("INNERTUBE_CONTEXT"), Seg::Key("client"), Seg::Key("osVersion")]
}

pub open spec fn path_platform() -> Seq<Seg<'static>> {
    seq![Seg::Key("INNERTUBE_CONTEXT"), Seg::Key("client"), Seg::Key("platform")]
}

fn path_platform_segs() -> (r: [Seg<'static>; 3])
    ensures
        r@ == path_platform(),
{
    [Seg::Key("INNERTUBE_CONTEXT"), Seg::Key("client"), Seg::Key("platform")]
}

/// The client that the innertube API is asked as.
pub struct ClientContext {
    pub api_key: String,
    pub api_version: String,
    pub client_version: String,
    pub user_agent: String,
    pub client_name: String,
    pub os_name: String,
    pub os_version: String,
    pub platform: String,
    pub form_factor: String,
}

/// A client context with its texts as character sequences, in field order.
pub struct ClientContextView {
    pub api_key: Seq<char>,
    pub api_version: Seq<char>,
    pub client_version: Seq<char>,
    pub user_agent: Seq<char>,
    pub client_name: Seq<char>,
    pub os_name: Seq<char>,
    pub os_version: Seq<char>,
    pub platform: Seq<char>,
    pub form_factor: Seq<char>,
}

impl View for ClientContext {
    type V = ClientContextView;

    open spec fn view(&self) -> ClientContextView {
        ClientContextView {
            api_key: self.api_key@,
            api_version: self.api_version@,
            client_version: self.client_version@,
            user_agent: self.user_agent@,
            client_name: self.client_name@,
            os_name: self.os_name@,
            os_version: self.os_version@,
            platform: self.platform@,
            form_factor: self.form_factor@,
        }
    }
}

/// The web client on a desktop.
pub open spec fn web_context() -> ClientContextView {
    ClientContextView {
        api_key: DEFAULT_WEB_API_KEY@,
        api_version: "v1"@,
        client_version: DEFAULT_WEB_CVER@,
        user_agent: "gzip(gfe)"@,
        client_name: "WEB"@,
        os_name: ""@,
        os_version: ""@,
        platform: "DESKTOP"@,
        form_factor: "UNKNOWN_FORM_FACTOR"@,
    }
}

pub open spec fn text_or(v: Option<Seq<char>>, default: Seq<char>) -> Seq<char> {
    match v {
        Some(t) => t,
        None => default,
    }
}

/// The client that a page's `ytcfg` configuration names, with the web
/// client's values where it names none.
pub open spec fn context_of(config: JsonValue) -> ClientContextView {
    let d = web_context();
    ClientContextView {
        api_key: text_or(str_at(config, path_api_key()), d.api_key),
        api_version: text_or(str_at(config, path_api_version()), d.api_version),
        client_version: text_or(str_at(config, path_client_version()), d.client_version),
        user_agent: text_or(str_at(config, path_user_agent()), d.user_agent),
        client_name: text_or(str_at(config, path_client_name()), d.client_name),
        os_name: text_or(str_at(config, path_os_name()), d.os_name),
        os_version: text_or(str_at(config, path_os_version()), d.os_version),
        platform: text_or(str_at(config, path_platform()), d.platform),
        form_factor: d.form_factor,
    }
}

fn text_or_exec(v: Option<String>, default: String) -> (r: String)
    ensures
        r@ == text_or(v.deep_view(), default@),
{
    match v {
        Some(t) => t,
        None => default,
    }
}

impl ClientContext {
    pub fn default_web() -> (r: ClientContext)
        ensures
            r@ == web_context(),
    {
        ClientContext {
            api_key: DEFAULT_WEB_API_KEY.to_string(),
            api_version: "v1".to_string(),
            client_version: DEFAULT_WEB_CVER.to_string(),
            user_agent: "gzip(gfe)".to_string(),
            client_name: "WEB".to_string(),
            os_name: "".to_string(),
            os_version: "".to_string(),
            platform: "DESKTOP".to_string(),
            form_factor: "UNKNOWN_FORM_FACTOR".to_string(),
        }
    }

    /// The client that a page's `ytcfg` configuration names.
    pub fn from_json(j_object: &JsonValue) -> (r: ClientContext)
        ensures
            r@ == context_of(*j_object),
    {
        let defaults = ClientContext::default_web();
        ClientContext {
            api_key: text_or_exec(j_object.string_at(&path_api_key_segs()), defaults.api_key),
            api_version: text_or_exec(j_object.string_at(&path_api_version_segs()), defaults.api_version),
            client_version: text_or_exec(j_object.string_at(&path_client_version_segs()), defaults.client_version),
            user_agent: text_or_exec(j_object.string_at(&path_user_agent_segs()), defaults.user_agent),
            client_name: text_or_exec(j_object.string_at(&path_client_name_segs()), defaults.client_name),
            os_name: text_or_exec(j_object.string_at(&path_os_name_segs()), defaults.os_name),
            os_version: text_or_exec(j_object.string_at(&path_os_version_segs()), defaults.os_version),
            platform: text_or_exec(j_object.string_at(&path_platform_segs()), defaults.platform),
            form_factor: defaults.form_factor,
        }
    }
}

} // verus!
