//! Reading the web client's responses.
pub mod video;
pub mod playlist;

use vstd::prelude::*;
use crate::json::{array_at, str_at, JsonValue, Seg};

verus! {

// Paths into the responses

pub open spec fn path_language_items() -> Seq<Seg<'static>> {
    seq![Seg::Key("actions"), Seg::Idx(0), Seg::Key("openPopupAction"), Seg::Key("popup"), Seg::Key("multiPageMenuRenderer"), Seg::Key("sections"), Seg::Idx(1), Seg::Key("multiPageMenuSectionRenderer"), Seg::Key("items"), Seg::Idx(1), Seg::Key("compactLinkRenderer"), Seg::Key("serviceEndpoint"), Seg::Key("signalServiceEndpoint"), Seg::Key("actions"), Seg::Idx(0), Seg::Key("getMultiPageMenuAction"), Seg::Key("menu"), Seg::Key("multiPageMenuRenderer"), Seg::Key("sections"), Seg::Idx(0), Seg::Key("multiPageMenuSectionRenderer"), Seg::Key("items")]
}

fn path_language_items_segs() -> (r: [Seg<'static>; 22])
    ensures
        r@ == path_language_items(),
{
    [Seg::Key("actions"), Seg::Idx(0), Seg::Key("openPopupAction"), Seg::Key("popup"), Seg::Key("multiPageMenuRenderer"), Seg::Key("sections"), Seg::Idx(1), Seg::Key("multiPageMenuSectionRenderer"), Seg::Key("items"), Seg::Idx(1), Seg::Key("compactLinkRenderer"), Seg::Key("serviceEndpoint"), Seg::Key("signalServiceEndpoint"), Seg::Key("actions"), Seg::Idx(0), Seg::Key("getMultiPageMenuAction"), Seg::Key("menu"), Seg::Key("multiPageMenuRenderer"), Seg::Key("sections"), Seg::Idx(0), Seg::Key("multiPageMenuSectionRenderer"), Seg::Key("items")]
}

pub open spec fn path_language_name() -> Seq<Seg<'static>> {
    seq![Seg::Key("compactLinkRenderer"), Seg::Key("title"), Seg::Key("simpleText")]
}

fn path_language_name_segs() -> (r: [Seg<'static>; 3])
    ensures
        r@ == path_language_name(),
{
    [Seg::Key("compactLinkRenderer"), Seg::Key("title"), Seg::Key("simpleText")]
}

pub open spec fn path_language_code() -> Seq<Seg<'static>> {
    seq![Seg::Key("compactLinkRenderer"), Seg::Key("serviceEndpoint"), Seg::Key("signalServiceEndpoint"), Seg::Key("actions"), Seg::Idx(0), Seg::Key("selectLanguageCommand"), Seg::Key("hl")]
}

fn path_language_code_segs() -> (r: [Seg<'static>; 7])
    ensures
        r@ == path_language_code(),
{
    [Seg::Key("compactLinkRenderer"), Seg::Key("serviceEndpoint"), Seg::Key("signalServiceEndpoint"), Seg::Key("actions"), Seg::Idx(0), Seg::Key("selectLanguageCommand"), Seg::Key("hl")]
}

/// A language that the site offers: its name and its code.
pub struct Language {
    pub language_name: String,
    pub language_code: String,
}

pub open spec fn language_view(l: Language) -> (Seq<char>, Seq<char>) {
    (l.language_name@, l.language_code@)
}

/// The languages of the menu entries that have both a name and a code.
pub open spec fn languages_of(items: Seq<JsonValue>) -> Seq<(Seq<char>, Seq<char>)>
    decreases items.len(),
{
    if items.len() == 0 {
        Seq::empty()
    } else {
        let rest = languages_of(items.drop_last());
        match (str_at(items.last(), path_language_name()), str_at(items.last(), path_language_code())) {
            (Some(name), Some(code)) => rest.push((name, code)),
            _ => rest,
        }
    }
}

pub open spec fn spec_languages(json: JsonValue) -> Option<Seq<(Seq<char>, Seq<char>)>> {
    match array_at(json, path_language_items()) {
        Some(items) => Some(languages_of(items)),
        None => None,
    }
}

/// The languages offered in the language menu of a response.
pub fn get_languages(json: &JsonValue) -> (r: Option<Vec<Language>>)
    ensures
        r matches Some(v) ==> spec_languages(*json) == Some(v@.map_values(|l: Language| language_view(l))),
        r is None ==> spec_languages(*json) is None,
{
    match json.array_at(&path_language_items_segs()) {
        Some(items) => {
            let mut out: Vec<Language> = Vec::new();
            let mut i: usize = 0;
            while i < items.len()
                invariant
                    i <= items@.len(),
                    out@.map_values(|l: Language| language_view(l)) == languages_of(items@.take(i as int)),
                decreases items@.len() - i,
            {
                let ghost before = out@;
                assert(items@.take(i + 1).drop_last() =~= items@.take(i as int));
                match (items[i].string_at(&path_language_name_segs()), items[i].string_at(&path_language_code_segs())) {
                    (Some(language_name), Some(language_code)) => {
                        let ghost entry = (language_name@, language_code@);
                        out.push(Language { language_name, language_code });
                        assert(out@.map_values(|l: Language| language_view(l)) =~= before.map_values(|l: Language| language_view(l)).push(entry));
                    },
                    _ => {},
                }
                i = i + 1;
            }
            assert(items@.take(i as int) =~= items@);
            Some(out)
        },
        None => None,
    }
}

} // verus!
