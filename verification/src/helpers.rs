//! Thumbnails, sub-vectors and UTF-16 substrings.
use vstd::prelude::*;
use crate::constants::YT_THUMBNAIL_HOST_URL;
use crate::text::{
    cat, cat3, contains, decimal, int_to_string, parse_i32, parse_int_in, replace, replace_all,
    str_contains, str_eq, usize_to_string,
};
use crate::json::{array_at, obj_get, JsonValue, Seg};
use crate::bindings::{
    capture, capture_group, captures, clamp, date_timestamp, parse_date_timestamp, regex_captures,
    substring,
};
use vstd::utf8::encode_utf8;
use vstd::string::StringSliceAdditionalSpecFns;
use crate::utf16::{lemma_utf16_decode_append, lemma_utf16_roundtrip, string_from_utf16, utf16_decode, utf16_encode};

verus! {

pub struct Thumbnail {
    pub quality: String,
    pub url: String,
    pub width: i32,
    pub height: i32,
}

pub struct AuthorThumbnail {
    pub url: String,
    pub width: i32,
    pub height: i32,
}

pub struct Size {
    pub name: String,
    pub label: String,
    pub width: i32,
    pub height: i32,
}

/// A thumbnail as its quality name, its address, its width and its height.
pub open spec fn thumb_view(t: Thumbnail) -> (Seq<char>, Seq<char>, int, int) {
    (t.quality@, t.url@, t.width as int, t.height as int)
}

pub open spec fn thumbs_view(v: Seq<Thumbnail>) -> Seq<(Seq<char>, Seq<char>, int, int)> {
    v.map_values(|t: Thumbnail| thumb_view(t))
}

/// The address of a thumbnail image of video `id`: `{host}/{id}/{path}.jpg`.
pub open spec fn thumbnail_url(id: Seq<char>, path: Seq<char>) -> Seq<char> {
    YT_THUMBNAIL_HOST_URL@ + "/"@ + id + "/"@ + path + ".jpg"@
}

pub fn generate_yt_video_thumbnail_url(id: &str, thumbnail_path: &str) -> (r: String)
    ensures
        r@ == thumbnail_url(id@, thumbnail_path@),
{
    let mut s = cat3(YT_THUMBNAIL_HOST_URL, "/", id);
    s.append("/");
    s.append(thumbnail_path);
    s.append(".jpg");
    s
}

/// The known thumbnail sizes, largest first: name, width, height.
pub open spec fn size_name(s: int) -> Seq<char> {
    if s == 0 {
        "maxres"@
    } else if s == 1 {
        "sd"@
    } else if s == 2 {
        "hq"@
    } else if s == 3 {
        "mq"@
    } else {
        ""@
    }
}

pub open spec fn size_width(s: int) -> int {
    if s == 0 {
        1280
    } else if s == 1 {
        640
    } else if s == 2 {
        480
    } else if s == 3 {
        320
    } else {
        120
    }
}

pub open spec fn size_height(s: int) -> int {
    if s == 0 {
        720
    } else if s == 1 {
        480
    } else if s == 2 {
        360
    } else if s == 3 {
        180
    } else {
        90
    }
}

/// The known thumbnail kinds of each size.
pub open spec fn kind_name(t: int) -> Seq<char> {
    if t == 0 {
        "default"@
    } else if t == 1 {
        "1"@
    } else if t == 2 {
        "2"@
    } else {
        "3"@
    }
}

/// The quality name of the thumbnail of size `s` and kind `t`.
pub open spec fn quality_name(s: int, t: int) -> Seq<char> {
    if t == 1 {
        size_name(s) + "start"@
    } else if t == 2 {
        size_name(s) + "middle"@
    } else if t == 3 {
        size_name(s) + "end"@
    } else if s == 2 {
        "high"@
    } else if s == 3 {
        "medium"@
    } else {
        size_name(s) + kind_name(t)
    }
}

/// The `i`-th of the twenty known thumbnails of video `id`: sizes in turn,
/// and within each size the kinds `default`, `1`, `2`, `3`.
pub open spec fn thumbnail_candidate(id: Seq<char>, i: int) -> (Seq<char>, Seq<char>, int, int) {
    let s = i / 4;
    let t = i % 4;
    (
        quality_name(s, t),
        thumbnail_url(id, size_name(s) + kind_name(t)),
        size_width(s),
        size_height(s),
    )
}

/// The first `n` known thumbnails of video `id` that are at most `max_width` wide.
pub open spec fn thumbnails_upto(id: Seq<char>, max_width: int, n: nat) -> Seq<
    (Seq<char>, Seq<char>, int, int),
>
    decreases n,
{
    if n == 0 {
        Seq::empty()
    } else {
        let prev = thumbnails_upto(id, max_width, (n - 1) as nat);
        if size_width((n - 1) / 4) <= max_width {
            prev.push(thumbnail_candidate(id, n - 1))
        } else {
            prev
        }
    }
}

/// The known thumbnails of video `id` that are at most `max_width` wide, in order.
pub open spec fn known_thumbnails(id: Seq<char>, max_width: int) -> Seq<
    (Seq<char>, Seq<char>, int, int),
> {
    thumbnails_upto(id, max_width, 20)
}

/// Every thumbnail within a maximum width is at most that wide.
pub proof fn lemma_thumbnails_fit(id: Seq<char>, max_width: int)
    ensures
        forall|i: int| 0 <= i < known_thumbnails(id, max_width).len() ==> #[trigger] known_thumbnails(id, max_width)[i].2 <= max_width,
{
    lemma_thumbnails_upto_fit(id, max_width, 20);
}

proof fn lemma_thumbnails_upto_fit(id: Seq<char>, max_width: int, n: nat)
    ensures
        forall|i: int| 0 <= i < thumbnails_upto(id, max_width, n).len() ==> #[trigger] thumbnails_upto(id, max_width, n)[i].2 <= max_width,
    decreases n,
{
    if n > 0 {
        lemma_thumbnails_upto_fit(id, max_width, (n - 1) as nat);
        let prev = thumbnails_upto(id, max_width, (n - 1) as nat);
        let cur = thumbnails_upto(id, max_width, n);
        assert forall|i: int| 0 <= i < cur.len() implies #[trigger] cur[i].2 <= max_width by {
            if i < prev.len() {
                assert(cur[i] == prev[i]);
            }
        }
    }
}

/// The thumbnails within a maximum width are those of all twenty known
/// thumbnails (the default maximum of 1280 admits every one) that fit it, in
/// the same order.
pub proof fn lemma_thumbnails_within_are_filtered(id: Seq<char>, max_width: int)
    ensures
        known_thumbnails(id, 1280).len() == 20,
        known_thumbnails(id, max_width) == known_thumbnails(id, 1280).filter(
            |t: (Seq<char>, Seq<char>, int, int)| t.2 <= max_width,
        ),
{
    lemma_thumbnails_upto_filtered(id, max_width, 20);
}

/// The index of the first of the twenty known thumbnails that is at most
/// `max_width` wide (20 where none is); widths only shrink after it.
pub open spec fn first_fitting(max_width: int) -> int {
    if 1280 <= max_width {
        0
    } else if 640 <= max_width {
        4
    } else if 480 <= max_width {
        8
    } else if 320 <= max_width {
        12
    } else if 120 <= max_width {
        16
    } else {
        20
    }
}

proof fn lemma_fits_from_first(max_width: int, i: int)
    requires
        0 <= i < 20,
    ensures
        (size_width(i / 4) <= max_width) <==> i >= first_fitting(max_width),
{
}

proof fn lemma_thumbnails_upto_suffix(id: Seq<char>, max_width: int, n: nat)
    requires
        n <= 20,
    ensures
        thumbnails_upto(id, max_width, n) =~= Seq::new(
            if n > first_fitting(max_width) { (n - first_fitting(max_width)) as nat } else { 0 },
            |j: int| thumbnail_candidate(id, first_fitting(max_width) + j),
        ),
    decreases n,
{
    if n > 0 {
        lemma_thumbnails_upto_suffix(id, max_width, (n - 1) as nat);
        lemma_fits_from_first(max_width, n - 1);
    }
}

/// A narrower maximum width gives the last thumbnails of what a wider one
/// gives, in the same order.
pub proof fn lemma_thumbnails_narrower_is_suffix(id: Seq<char>, narrow: int, wide: int)
    requires
        narrow <= wide,
    ensures
        known_thumbnails(id, narrow).len() <= known_thumbnails(id, wide).len(),
        known_thumbnails(id, narrow) == known_thumbnails(id, wide).subrange(
            known_thumbnails(id, wide).len() - known_thumbnails(id, narrow).len(),
            known_thumbnails(id, wide).len() as int,
        ),
{
    lemma_thumbnails_upto_suffix(id, narrow, 20);
    lemma_thumbnails_upto_suffix(id, wide, 20);
    let a = known_thumbnails(id, narrow);
    let b = known_thumbnails(id, wide);
    assert(first_fitting(wide) <= first_fitting(narrow));
    assert(a =~= b.subrange(b.len() - a.len(), b.len() as int));
}

proof fn lemma_thumbnails_upto_filtered(id: Seq<char>, max_width: int, n: nat)
    requires
        n <= 20,
    ensures
        thumbnails_upto(id, 1280, n).len() == n,
        thumbnails_upto(id, max_width, n) == thumbnails_upto(id, 1280, n).filter(
            |t: (Seq<char>, Seq<char>, int, int)| t.2 <= max_width,
        ),
    decreases n,
{
    reveal(Seq::filter);
    if n > 0 {
        lemma_thumbnails_upto_filtered(id, max_width, (n - 1) as nat);
        let all = thumbnails_upto(id, 1280, n);
        assert(size_width((n - 1) / 4) <= 1280);
        assert(all.drop_last() =~= thumbnails_upto(id, 1280, (n - 1) as nat));
        assert(all.last() == thumbnail_candidate(id, n - 1));
    } else {
        assert(thumbnails_upto(id, 1280, 0).filter(|t: (Seq<char>, Seq<char>, int, int)| t.2 <= max_width) =~= Seq::empty());
    }
}

fn size_entry(s: usize) -> (r: (&'static str, i32, i32))
    requires
        s < 5,
    ensures
        r.0@ == size_name(s as int),
        r.1 == size_width(s as int),
        r.2 == size_height(s as int),
{
    if s == 0 {
        ("maxres", 1280, 720)
    } else if s == 1 {
        ("sd", 640, 480)
    } else if s == 2 {
        ("hq", 480, 360)
    } else if s == 3 {
        ("mq", 320, 180)
    } else {
        ("", 120, 90)
    }
}

fn kind_entry(t: usize) -> (r: &'static str)
    requires
        t < 4,
    ensures
        r@ == kind_name(t as int),
{
    if t == 0 {
        "default"
    } else if t == 1 {
        "1"
    } else if t == 2 {
        "2"
    } else {
        "3"
    }
}

pub fn generate_yt_video_thumbnails(id: &str) -> (r: Vec<Thumbnail>)
    ensures
        thumbs_view(r@) == known_thumbnails(id@, 1280),
{
    generate_yt_video_thumbnails_within_max_size(id, 1280)
}

pub fn generate_yt_video_thumbnails_within_max_size(id: &str, max_width: i32) -> (r: Vec<
    Thumbnail,
>)
    ensures
        thumbs_view(r@) == known_thumbnails(id@, max_width as int),
{
    let mut thumbnails: Vec<Thumbnail> = Vec::new();
    let mut i: usize = 0;
    while i < 20
        invariant
            i <= 20,
            thumbs_view(thumbnails@) == thumbnails_upto(id@, max_width as int, i as nat),
        decreases 20 - i,
    {
        let s = i / 4;
        let t = i % 4;
        let (name, width, height) = size_entry(s);
        let kind = kind_entry(t);
        let quality = if t == 1 {
            cat(name, "start")
        } else if t == 2 {
            cat(name, "middle")
        } else if t == 3 {
            cat(name, "end")
        } else if s == 2 {
            "high".to_owned()
        } else if s == 3 {
            "medium".to_owned()
        } else {
            cat(name, kind)
        };
        let path = cat(name, kind);
        let url = generate_yt_video_thumbnail_url(id, path.as_str());
        if width <= max_width {
            let ghost before = thumbnails@;
            thumbnails.push(Thumbnail { quality, url, width, height });
            assert(thumbs_view(thumbnails@) =~= thumbs_view(before).push(
                thumbnail_candidate(id@, i as int),
            ));
        }
        i = i + 1;
    }
    thumbnails
}

// ---------------------------------------------------------------------------
// Sub-vectors
// ---------------------------------------------------------------------------

pub struct SubVectorError {
    pub message: String,
}

impl SubVectorError {
    pub fn new(message: &str) -> (r: SubVectorError)
        ensures
            r.message@ == message@,
    {
        SubVectorError { message: message.to_owned() }
    }
}

/// Why `v[start..end]` cannot be taken, if it cannot: the message of the error.
pub open spec fn subvector_error(len: int, start: int, end: int) -> Option<Seq<char>> {
    if len < start {
        Some("Invalid start index"@)
    } else if len < end {
        Some("Invalid end index"@)
    } else if end < start {
        Some("Start must come before end"@)
    } else {
        None
    }
}

/// The equivalent of `.substring()`, but for vectors.
pub trait SubVector<T: Copy> {
    spec fn elems(&self) -> Seq<T>;

    fn subvector(&self, start: usize, end: usize) -> (r: Result<Vec<T>, SubVectorError>)
        ensures
            match r {
                Ok(v) => subvector_error(self.elems().len() as int, start as int, end as int)
                    is None && v@ == self.elems().subrange(start as int, end as int),
                Err(e) => subvector_error(self.elems().len() as int, start as int, end as int)
                    == Some(e.message@),
            },
    ;
}

impl<T: Copy> SubVector<T> for Vec<T> {
    open spec fn elems(&self) -> Seq<T> {
        self@
    }

    fn subvector(&self, start: usize, end: usize) -> (r: Result<Vec<T>, SubVectorError>) {
        let length = self.len();
        if length < start {
            Err(SubVectorError::new("Invalid start index"))
        } else if length < end {
            Err(SubVectorError::new("Invalid end index"))
        } else if end < start {
            Err(SubVectorError::new("Start must come before end"))
        } else {
            let mut new_vector: Vec<T> = Vec::new();
            let mut i = start;
            while i < end
                invariant
                    start <= i <= end <= self@.len(),
                    new_vector@ == self@.subrange(start as int, i as int),
                decreases end - i,
            {
                new_vector.push(self[i]);
                assert(self@.subrange(start as int, i + 1) =~= self@.subrange(
                    start as int,
                    i as int,
                ).push(self@[i as int]));
                i = i + 1;
            }
            Ok(new_vector)
        }
    }
}

pub struct UTF16SubStringError {
    pub message: String,
    pub inner_sub_string_error: Option<SubVectorError>,
    pub inner_utf_16_error: Option<std::string::FromUtf16Error>,
}

impl UTF16SubStringError {
    pub fn new_sub_string_error(message: &str, error: SubVectorError) -> (r: UTF16SubStringError)
        ensures
            r.message@ == message@,
            r.inner_sub_string_error == Some(error),
            r.inner_utf_16_error is None,
    {
        UTF16SubStringError {
            message: message.to_owned(),
            inner_sub_string_error: Some(error),
            inner_utf_16_error: None,
        }
    }

    pub fn new_utf_16_error(message: &str, error: std::string::FromUtf16Error) -> (r:
        UTF16SubStringError)
        ensures
            r.message@ == message@,
            r.inner_sub_string_error is None,
            r.inner_utf_16_error == Some(error),
    {
        UTF16SubStringError {
            message: message.to_owned(),
            inner_sub_string_error: None,
            inner_utf_16_error: Some(error),
        }
    }
}

/// The text that the code units `u[start..end]` encode, if they can be taken
/// and decoded.
pub open spec fn utf16_slice_text(u: Seq<u16>, start: int, end: int) -> Option<Seq<char>> {
    if subvector_error(u.len() as int, start, end) is Some {
        None
    } else {
        utf16_decode(u.subrange(start, end))
    }
}

/// The texts of two adjacent slices of UTF-16 code units, where each
/// decodes, make the text of the slice that spans both.
pub proof fn lemma_utf16_slices_concatenate(u: Seq<u16>, i: int, j: int, k: int)
    requires
        0 <= i <= j <= k <= u.len(),
        utf16_slice_text(u, i, j) is Some,
        utf16_slice_text(u, j, k) is Some,
    ensures
        utf16_slice_text(u, i, k) == Some(utf16_slice_text(u, i, j)->0 + utf16_slice_text(u, j, k)->0),
{
    assert(u.subrange(i, k) =~= u.subrange(i, j) + u.subrange(j, k));
    lemma_utf16_decode_append(u.subrange(i, j), u.subrange(j, k));
}

/// The whole of the UTF-16 encoding of a string gives the string back.
pub proof fn lemma_utf16_whole_slice(s: Seq<char>)
    ensures
        utf16_slice_text(utf16_encode(s), 0, utf16_encode(s).len() as int) == Some(s),
{
    let u = utf16_encode(s);
    assert(u.subrange(0, u.len() as int) =~= u);
    lemma_utf16_roundtrip(s);
}

/// Taking the substring of UTF-16 encoded text.
pub trait UTF16Substring {
    spec fn units(&self) -> Seq<u16>;

    fn subvector_as_str(&self, start: usize, end: usize) -> (r: Result<String, UTF16SubStringError>)
        ensures
            match r {
                Ok(s) => utf16_slice_text(self.units(), start as int, end as int) == Some(s@),
                Err(e) => utf16_slice_text(self.units(), start as int, end as int) is None && (
                if subvector_error(self.units().len() as int, start as int, end as int) is Some {
                    &&& e.message@ == "Error taking subvector of utf-16 vector"@
                    &&& e.inner_sub_string_error matches Some(inner) && Some(inner.message@)
                        == subvector_error(self.units().len() as int, start as int, end as int)
                    &&& e.inner_utf_16_error is None
                } else {
                    &&& e.message@ == "Error converting utf-16 vector to string"@
                    &&& e.inner_utf_16_error is Some
                    &&& e.inner_sub_string_error is None
                }),
            },
    ;
}

impl UTF16Substring for Vec<u16> {
    open spec fn units(&self) -> Seq<u16> {
        self@
    }

    fn subvector_as_str(&self, start: usize, end: usize) -> (r: Result<String, UTF16SubStringError>) {
        match self.subvector(start, end) {
            Ok(contents) => match string_from_utf16(contents.as_slice()) {
                Ok(string_contents) => Ok(string_contents),
                Err(err) => Err(
                    UTF16SubStringError::new_utf_16_error(
                        "Error converting utf-16 vector to string",
                        err,
                    ),
                ),
            },
            Err(err) => Err(
                UTF16SubStringError::new_sub_string_error(
                    "Error taking subvector of utf-16 vector",
                    err,
                ),
            ),
        }
    }
}


// ---------------------------------------------------------------------------
// Localized dates
// ---------------------------------------------------------------------------

/// A localized date to read: a year and a day with its month, or a full date.
pub enum ParseDateOption {
    ParseDayMonth(String, String),
    ParseFullDate(String),
}

/// Why a localized date could not be read.
pub enum ParseDateError {
    NoYearFoundInDate,
    ErrorDeserializingMapBytes(serde_json::Error),
    LanguageNotFound,
    ErrorParsingFinalDateString(chrono::format::ParseError),
    ErrorConvertingYearToNum,
}

/// How a month is written in a language: within a day and month, and within
/// a full date.
pub struct MonthInformation {
    pub day_month_string: String,
    pub full_date_string: String,
}

/// How many members named `key` an object has.
pub open spec fn key_count(entries: Seq<(String, JsonValue)>, key: Seq<char>) -> nat
    decreases entries.len(),
{
    if entries.len() == 0 {
        0
    } else {
        key_count(entries.drop_last(), key) + if entries.last().0@ == key {
            1nat
        } else {
            0nat
        }
    }
}

/// The month information that serde reads from a value: an object with the
/// two texts, each named once, or an array of exactly the two texts.
pub open spec fn month_info_of(v: JsonValue) -> Option<(Seq<char>, Seq<char>)> {
    match v {
        JsonValue::Object(entries) => match (
            obj_get(entries@, "day_month_string"@),
            obj_get(entries@, "full_date_string"@),
        ) {
            (Some(JsonValue::String(d)), Some(JsonValue::String(f))) => if key_count(
                entries@,
                "day_month_string"@,
            ) == 1 && key_count(entries@, "full_date_string"@) == 1 {
                Some((d@, f@))
            } else {
                None
            },
            _ => None,
        },
        JsonValue::Array(items) => if items@.len() == 2 {
            match (items@[0], items@[1]) {
                (JsonValue::String(d), JsonValue::String(f)) => Some((d@, f@)),
                _ => None,
            }
        } else {
            None
        },
        _ => None,
    }
}

fn key_count_exec(entries: &Vec<(String, JsonValue)>, key: &str) -> (r: usize)
    ensures
        r == key_count(entries@, key@),
{
    let mut n: usize = 0;
    let mut i: usize = 0;
    while i < entries.len()
        invariant
            i <= entries@.len(),
            n == key_count(entries@.take(i as int), key@),
            n <= i,
        decreases entries@.len() - i,
    {
        assert(entries@.take(i + 1).drop_last() =~= entries@.take(i as int));
        if str_eq(entries[i].0.as_str(), key) {
            n = n + 1;
        }
        i = i + 1;
    }
    assert(entries@.take(i as int) =~= entries@);
    n
}

fn month_info_exec(v: &JsonValue) -> (r: Option<MonthInformation>)
    ensures
        match r {
            Some(m) => month_info_of(*v) == Some((m.day_month_string@, m.full_date_string@)),
            None => month_info_of(*v) is None,
        },
{
    match v {
        JsonValue::Object(entries) => {
            let d = v.get_key("day_month_string");
            let f = v.get_key("full_date_string");
            match (d, f) {
                (Some(JsonValue::String(d)), Some(JsonValue::String(f))) => {
                    if key_count_exec(entries, "day_month_string") == 1 && key_count_exec(entries, "full_date_string") == 1 {
                        Some(MonthInformation { day_month_string: d.clone(), full_date_string: f.clone() })
                    } else {
                        None
                    }
                },
                _ => None,
            }
        },
        JsonValue::Array(items) => {
            if items.len() == 2 {
                match (&items[0], &items[1]) {
                    (JsonValue::String(d), JsonValue::String(f)) => Some(
                        MonthInformation { day_month_string: d.clone(), full_date_string: f.clone() },
                    ),
                    _ => None,
                }
            } else {
                None
            }
        },
        _ => None,
    }
}

/// The month entries of `lang` in a map from language codes to months,
/// falling back on English.
pub open spec fn months_of_language(map: JsonValue, lang: &str) -> Option<Seq<JsonValue>> {
    match array_at(map, seq![Seg::Key(lang)]) {
        Some(months) => Some(months),
        None => if lang@ != "en"@ {
            array_at(map, seq![Seg::Key("en")])
        } else {
            None
        },
    }
}

fn months_of_language_exec<'a>(map: &'a JsonValue, lang: &str) -> (r: Option<&'a Vec<JsonValue>>)
    ensures
        r matches Some(v) ==> months_of_language(*map, lang) == Some(v@),
        r is None ==> months_of_language(*map, lang) is None,
{
    let key = [Seg::Key(lang)];
    assert(key@ == seq![Seg::Key(lang)]);
    match map.array_at(&key) {
        Some(months) => Some(months),
        None => if !str_eq(lang, "en") {
            let en = [Seg::Key("en")];
            assert(en@ == seq![Seg::Key("en")]);
            map.array_at(&en)
        } else {
            None
        },
    }
}

/// Every month entry of `lang` in `month_map` can be read as month
/// information (reading panics on one that cannot).
pub open spec fn months_readable(month_map: JsonValue, lang: &str) -> bool {
    match months_of_language(month_map, lang) {
        Some(months) => forall|i: int| 0 <= i < months.len() ==> (#[trigger] month_info_of(months[i])) is Some,
        None => true,
    }
}

/// The year pattern of this century.
pub open spec fn years_re() -> Seq<char> {
    "20[0-9][0-9]"@
}

/// A localized date to read, with its texts as character sequences.
pub enum DateInput {
    DayMonth(Seq<char>, Seq<char>),
    FullDate(Seq<char>),
}

pub open spec fn date_input(option: ParseDateOption) -> DateInput {
    match option {
        ParseDateOption::ParseDayMonth(year, day_month) => DateInput::DayMonth(year@, day_month@),
        ParseDateOption::ParseFullDate(date) => DateInput::FullDate(date@),
    }
}

/// The year and the day with its month: given, or the first year in a full
/// date and the date without it.
pub open spec fn year_and_day_month(input: DateInput) -> Option<(Seq<char>, Seq<char>)> {
    match input {
        DateInput::DayMonth(year, day_month) => Some((year, day_month)),
        DateInput::FullDate(date) => match capture_group(years_re(), date, 0) {
            Some(year) => Some((year, replace_all(date, year, ""@))),
            None => None,
        },
    }
}

/// `Substring::substring(0, n)`.
pub open spec fn prefix_chars(s: Seq<char>, n: int) -> Seq<char> {
    if n <= 0 {
        Seq::empty()
    } else {
        s.subrange(0, clamp(n, s.len() as int))
    }
}

/// A month name occurs in `day_month`, or the name without as many characters
/// at its end as its UTF-8 length less one.
pub open spec fn month_name_found(day_month: Seq<char>, name: Seq<char>) -> bool {
    contains(day_month, name) || contains(day_month, prefix_chars(name, (encode_utf8(name).len() as usize) - 1))
}

/// The number of group 0, or `day` when there is none or it does not fit.
pub open spec fn day_of_groups(groups: Seq<Option<Seq<char>>>, day: int) -> int {
    if groups.len() > 0 && groups[0] is Some {
        match parse_int_in(groups[0]->0, i32::MIN as int, i32::MAX as int) {
            Some(n) => n,
            None => day,
        }
    } else {
        day
    }
}

/// The months tried from the last back to the first, as in `get_published`,
/// with the names for the chosen form of date.
pub open spec fn month_day_scan(infos: Seq<(Seq<char>, Seq<char>)>, day_month_form: bool, day_month: Seq<char>, i: int, month: int, day: int) -> (int, int)
    decreases infos.len() - i,
{
    if i < 0 || i >= infos.len() {
        (month, day)
    } else {
        let info = infos[infos.len() - 1 - i];
        let name = if day_month_form {
            info.0
        } else {
            info.1
        };
        if month_name_found(day_month, name) {
            let m = infos.len() - i;
            match regex_captures("[0-9]+"@, replace_all(day_month, name, ""@)) {
                Some(groups) => (m, day_of_groups(groups, day)),
                None => month_day_scan(infos, day_month_form, day_month, i + 1, m, day),
            }
        } else {
            month_day_scan(infos, day_month_form, day_month, i + 1, month, day)
        }
    }
}

/// The year read as a number.
pub open spec fn year_value(year: Seq<char>) -> Option<int> {
    match capture_group(years_re(), year, 0) {
        Some(digits) => parse_int_in(digits, i32::MIN as int, i32::MAX as int),
        None => None,
    }
}

/// What reading a localized date gives.
pub enum DateReading {
    Timestamp(i64),
    NoYearFound,
    LanguageNotFound,
    InvalidFinalDate,
    YearNotNumber,
    MapNotRead,
}

pub open spec fn reading_of(r: Result<i64, ParseDateError>) -> DateReading {
    match r {
        Ok(t) => DateReading::Timestamp(t),
        Err(ParseDateError::NoYearFoundInDate) => DateReading::NoYearFound,
        Err(ParseDateError::ErrorDeserializingMapBytes(_)) => DateReading::MapNotRead,
        Err(ParseDateError::LanguageNotFound) => DateReading::LanguageNotFound,
        Err(ParseDateError::ErrorParsingFinalDateString(_)) => DateReading::InvalidFinalDate,
        Err(ParseDateError::ErrorConvertingYearToNum) => DateReading::YearNotNumber,
    }
}

/// `"{year}-{month}-{day}"`.
pub open spec fn ymd_text(year: int, month: int, day: int) -> Seq<char> {
    decimal(year) + "-"@ + decimal(month) + "-"@ + decimal(day)
}

/// The timestamp of a localized date, read with the month information of
/// `lang` in `month_map`.
pub open spec fn date_reading(lang: &str, input: DateInput, month_map: JsonValue) -> DateReading {
    match year_and_day_month(input) {
        None => DateReading::NoYearFound,
        Some((year, day_month)) => match months_of_language(month_map, lang) {
            None => DateReading::LanguageNotFound,
            Some(months) => {
                let infos = months.map_values(|v: JsonValue| month_info_of(v)->0);
                let found = month_day_scan(infos, input is DayMonth, day_month, 0, 12, 1);
                match year_value(year) {
                    None => DateReading::YearNotNumber,
                    Some(y) => match date_timestamp(ymd_text(y, found.0, found.1), "%Y-%m-%d"@) {
                        Some(t) => DateReading::Timestamp(t),
                        None => DateReading::InvalidFinalDate,
                    },
                }
            },
        },
    }
}

fn year_and_day_month_exec(option: &ParseDateOption) -> (r: Option<(String, String)>)
    ensures
        match r {
            Some((y, d)) => year_and_day_month(date_input(*option)) == Some((y@, d@)),
            None => year_and_day_month(date_input(*option)) is None,
        },
{
    match option {
        ParseDateOption::ParseDayMonth(year, day_month) => Some((year.clone(), day_month.clone())),
        ParseDateOption::ParseFullDate(date) => match capture("20[0-9][0-9]", date.as_str(), 0) {
            Some(year) => {
                let day_month = replace(date.as_str(), year.as_str(), "");
                Some((year, day_month))
            },
            None => None,
        },
    }
}

fn month_day_scan_exec(infos: &Vec<MonthInformation>, day_month_form: bool, day_month: &str) -> (r: (usize, i32))
    ensures
        month_day_scan(
            infos@.map_values(|m: MonthInformation| (m.day_month_string@, m.full_date_string@)),
            day_month_form,
            day_month@,
            0,
            12,
            1,
        ) == (r.0 as int, r.1 as int),
{
    let ghost views = infos@.map_values(|m: MonthInformation| (m.day_month_string@, m.full_date_string@));
    let mut month: usize = 12;
    let mut day: i32 = 1;
    let mut i: usize = 0;
    while i < infos.len()
        invariant
            i <= infos@.len(),
            views == infos@.map_values(|m: MonthInformation| (m.day_month_string@, m.full_date_string@)),
            month_day_scan(views, day_month_form, day_month@, 0, 12, 1) == month_day_scan(views, day_month_form, day_month@, i as int, month as int, day as int),
        decreases infos@.len() - i,
    {
        let info = &infos[infos.len() - 1 - i];
        let name: &str = if day_month_form {
            info.day_month_string.as_str()
        } else {
            info.full_date_string.as_str()
        };
        let ghost idx = infos@.len() - 1 - i;
        assert(views[idx] == (infos@[idx].day_month_string@, infos@[idx].full_date_string@));
        let found = if str_contains(day_month, name) {
            true
        } else {
            assert(name.spec_bytes() == encode_utf8(name@));
            let shorter = if name.len() > 0 {
                substring(name, 0, name.len() - 1)
            } else {
                String::new()
            };
            assert(shorter@ == prefix_chars(name@, (encode_utf8(name@).len() as usize) - 1));
            str_contains(day_month, shorter.as_str())
        };
        assert(found == month_name_found(day_month@, name@));
        if found {
            month = infos.len() - i;
            let rest = replace(day_month, name, "");
            match captures("[0-9]+", rest.as_str()) {
                Some(groups) => {
                    let ghost g = groups.deep_view();
                    let ghost day_before = day as int;
                    if groups.len() > 0 {
                        assert(g[0] == groups@[0].deep_view());
                        match &groups[0] {
                            Some(number) => match parse_i32(number.as_str()) {
                                Some(n) => {
                                    day = n;
                                },
                                None => {},
                            },
                            None => {},
                        }
                    }
                    assert(day as int == day_of_groups(g, day_before));
                    return (month, day);
                },
                None => {},
            }
        }
        i = i + 1;
    }
    (month, day)
}

/// Reads the timestamp of a localized date with the month information of
/// `lang` (or else English) in `month_map`, a map from language codes to the
/// twelve months. A regex match without its group 0, which the regex crate
/// does not produce, counts as no match.
pub fn parse_date_to_published(lang: &str, option: &ParseDateOption, month_map: &JsonValue) -> (r: Result<i64, ParseDateError>)
    requires
        months_readable(*month_map, lang),
    ensures
        reading_of(r) == date_reading(lang, date_input(*option), *month_map),
        r matches Ok(t) ==> t % 86400 == 0,
{
    let (year, day_month) = match year_and_day_month_exec(option) {
        Some(parts) => parts,
        None => return Err(ParseDateError::NoYearFoundInDate),
    };
    let months = match months_of_language_exec(month_map, lang) {
        Some(months) => months,
        None => return Err(ParseDateError::LanguageNotFound),
    };
    let mut infos: Vec<MonthInformation> = Vec::new();
    let mut i: usize = 0;
    while i < months.len()
        invariant
            i <= months@.len(),
            months_of_language(*month_map, lang) == Some(months@),
            months_readable(*month_map, lang),
            infos@.len() == i,
            forall|k: int| 0 <= k < i ==> month_info_of(months@[k]) == Some(((#[trigger] infos@[k]).day_month_string@, infos@[k].full_date_string@)),
        decreases months@.len() - i,
    {
        assert(month_info_of(months@[i as int]) is Some);
        match month_info_exec(&months[i]) {
            Some(info) => infos.push(info),
            None => {},
        }
        i = i + 1;
    }
    let day_month_form = match option {
        ParseDateOption::ParseDayMonth(_, _) => true,
        ParseDateOption::ParseFullDate(_) => false,
    };
    let (month, day) = month_day_scan_exec(&infos, day_month_form, day_month.as_str());
    assert(infos@.map_values(|m: MonthInformation| (m.day_month_string@, m.full_date_string@)) =~= months@.map_values(|v: JsonValue| month_info_of(v)->0));
    let year_num = match capture("20[0-9][0-9]", year.as_str(), 0) {
        Some(digits) => parse_i32(digits.as_str()),
        None => None,
    };
    match year_num {
        Some(y) => {
            let ys = int_to_string(y as i64);
            let ms = usize_to_string(month);
            let ds = int_to_string(day as i64);
            let head = cat3(ys.as_str(), "-", ms.as_str());
            let date = cat3(head.as_str(), "-", ds.as_str());
            assert(date@ == ymd_text(y as int, month as int, day as int));
            match parse_date_timestamp(date.as_str(), "%Y-%m-%d") {
                Ok(t) => Ok(t),
                Err(e) => Err(ParseDateError::ErrorParsingFinalDateString(e)),
            }
        },
        None => Err(ParseDateError::ErrorConvertingYearToNum),
    }
}

} // verus!
