//! Month names of each language, read off dates that the site shows in that
//! language: the data behind reading localized upload dates.
use vstd::prelude::*;
use crate::bindings::{captures, regex_captures, regex_replace_first, replace_first};
use crate::helpers::years_re;
use crate::json::JsonValue;
use crate::parsers::web::Language;
use crate::parsers::web::video::{get_date_parts, get_date_text, spec_date_parts, spec_date_text};
use crate::text::{cat, replace, replace_all, str_eq, strings_view};

verus! {

/// A date as the site shows it in one language: its day and month, its year,
/// and its full text.
pub struct DateInformation {
    pub day_month: String,
    pub year: String,
    pub date_text: String,
}

pub open spec fn date_information_view(d: DateInformation) -> (Seq<char>, Seq<char>, Seq<char>) {
    (d.day_month@, d.year@, d.date_text@)
}

/// The date made of the two parts `label` and `value`: the year is `label`
/// where a year of this century occurs in it, else `value`; the day and month
/// are the other part.
pub open spec fn split_date(label: Seq<char>, value: Seq<char>, date_text: Seq<char>) -> (
    Seq<char>,
    Seq<char>,
    Seq<char>,
) {
    let year = if regex_captures(years_re(), label) is Some {
        label
    } else {
        value
    };
    let day_month = if year == label {
        value
    } else {
        label
    };
    (day_month, year, date_text)
}

/// The date made of the two parts `label` and `value` and the full text.
pub fn date_information(label: &str, value: &str, date_text: &str) -> (r: DateInformation)
    ensures
        date_information_view(r) == split_date(label@, value@, date_text@),
{
    let year = if captures("20[0-9][0-9]", label).is_some() {
        label
    } else {
        value
    };
    let day_month = if str_eq(year, label) {
        value
    } else {
        label
    };
    DateInformation {
        day_month: day_month.to_owned(),
        year: year.to_owned(),
        date_text: date_text.to_owned(),
    }
}

/// The date of the upload in a `next` response, where it has date parts; the
/// full text is empty where the response has none.
pub open spec fn date_information_in(json: JsonValue) -> Option<(Seq<char>, Seq<char>, Seq<char>)> {
    match spec_date_parts(json) {
        Some((label, value)) => Some(
            split_date(
                label,
                value,
                match spec_date_text(json) {
                    Some(t) => t,
                    None => Seq::empty(),
                },
            ),
        ),
        None => None,
    }
}

/// The date of the upload in a `next` response.
pub fn date_information_of(json: &JsonValue) -> (r: Option<DateInformation>)
    ensures
        match r {
            Some(d) => date_information_in(*json) == Some(date_information_view(d)),
            None => date_information_in(*json) is None,
        },
{
    match get_date_parts(json) {
        Some((label, value)) => {
            let date_text = match get_date_text(json) {
                Some(t) => t,
                None => {
                    proof {
                        reveal_strlit("");
                    }
                    "".to_owned()
                },
            };
            Some(date_information(label.as_str(), value.as_str(), date_text.as_str()))
        },
        None => None,
    }
}

/// The day of the date read for each month, January first.
pub open spec fn shown_day(month: int) -> Seq<char> {
    if month == 0 {
        "25"@
    } else if month == 1 {
        "27"@
    } else if month == 2 {
        "23"@
    } else if month == 3 {
        "23"@
    } else if month == 4 {
        "12"@
    } else if month == 5 {
        "16"@
    } else if month == 6 {
        "17"@
    } else if month == 7 {
        "14"@
    } else if month == 8 {
        "29"@
    } else if month == 9 {
        "17"@
    } else if month == 10 {
        "18"@
    } else {
        "15"@
    }
}

fn shown_day_exec(month: usize) -> (r: &'static str)
    requires
        month < 12,
    ensures
        r@ == shown_day(month as int),
{
    match month {
        0 => "25",
        1 => "27",
        2 => "23",
        3 => "23",
        4 => "12",
        5 => "16",
        6 => "17",
        7 => "14",
        8 => "29",
        9 => "17",
        10 => "18",
        _ => "15",
    }
}

/// The name of a month in `day_month`, where `day` is the day: the text
/// without the first run of non-spaces that starts with the day or, where
/// nothing would be left, without every occurrence of the day.
pub open spec fn month_name(day_month: Seq<char>, day: Seq<char>) -> Seq<char> {
    let without_run = regex_replace_first(day + "[^ ]*"@, day_month, ""@);
    if without_run.len() == 0 {
        replace_all(day_month, day, ""@)
    } else {
        without_run
    }
}

/// The name of month `month` (January is 0) in the day and month of its date.
pub fn month_name_in(day_month: &str, month: usize) -> (r: String)
    requires
        month < 12,
    ensures
        r@ == month_name(day_month@, shown_day(month as int)),
{
    let day = shown_day_exec(month);
    let pattern = cat(day, "[^ ]*");
    let name = replace_first(pattern.as_str(), day_month, "");
    proof {
        reveal_strlit("");
    }
    if str_eq(name.as_str(), "") {
        replace(day_month, day, "")
    } else {
        assert(name@.len() != 0) by {
            if name@.len() == 0 {
                assert(name@ =~= ""@);
            }
        }
        name
    }
}

/// The days and months of a language's dates.
pub open spec fn day_months(dates: Seq<DateInformation>) -> Seq<Seq<char>> {
    dates.map_values(|d: DateInformation| d.day_month@)
}

/// A language's code with the days and months of its dates.
pub open spec fn dated_views(info: Seq<(Language, Vec<DateInformation>)>) -> Seq<(Seq<char>, Seq<Seq<char>>)> {
    info.map_values(|e: (Language, Vec<DateInformation>)| (e.0.language_code@, day_months(e.1@)))
}

/// The month names of one language, from the days and months of its dates,
/// January first.
pub open spec fn month_names_of(day_months: Seq<Seq<char>>) -> Seq<Seq<char>> {
    Seq::new(day_months.len(), |k: int| month_name(day_months[k], shown_day(k)))
}

/// The name of month `k` in each language that has a date for it, in the
/// order of the languages.
pub open spec fn names_of_month(info: Seq<(Seq<char>, Seq<Seq<char>>)>, k: int) -> Seq<Seq<char>>
    decreases info.len(),
{
    if info.len() == 0 {
        Seq::empty()
    } else {
        names_of_month(info.drop_last(), k) + if k < info.last().1.len() {
            seq![month_name(info.last().1[k], shown_day(k))]
        } else {
            Seq::empty()
        }
    }
}

/// Whether `entries` has an entry for `code`.
pub open spec fn has_language(entries: Seq<(Seq<char>, Seq<Seq<char>>)>, code: Seq<char>) -> bool {
    exists|j: int| 0 <= j < entries.len() && #[trigger] entries[j].0 == code
}

/// `entries` with `names` for `code`: they replace the names the language had,
/// or come last.
pub open spec fn with_language(
    entries: Seq<(Seq<char>, Seq<Seq<char>>)>,
    code: Seq<char>,
    names: Seq<Seq<char>>,
) -> Seq<(Seq<char>, Seq<Seq<char>>)> {
    if has_language(entries, code) {
        entries.map_values(
            |e: (Seq<char>, Seq<Seq<char>>)|
                if e.0 == code {
                    (code, names)
                } else {
                    e
                },
        )
    } else {
        entries.push((code, names))
    }
}

/// The month names of each language, by its code; a language read twice keeps
/// the names of its last dates.
pub open spec fn language_month_map(info: Seq<(Seq<char>, Seq<Seq<char>>)>) -> Seq<(Seq<char>, Seq<Seq<char>>)>
    decreases info.len(),
{
    if info.len() == 0 {
        Seq::empty()
    } else {
        with_language(
            language_month_map(info.drop_last()),
            info.last().0,
            month_names_of(info.last().1),
        )
    }
}

/// No two entries have the same code.
pub open spec fn codes_unique(entries: Seq<(Seq<char>, Seq<Seq<char>>)>) -> bool {
    forall|i: int, j: int| 0 <= i < j < entries.len() ==> #[trigger] entries[i].0 != #[trigger] entries[j].0
}

pub open spec fn entries_view(entries: Seq<(String, Vec<String>)>) -> Seq<(Seq<char>, Seq<Seq<char>>)> {
    entries.map_values(|e: (String, Vec<String>)| (e.0@, strings_view(e.1@)))
}

/// The month names of one language from its dates, January first.
pub fn month_names_of_dates(dates: &Vec<DateInformation>) -> (r: Vec<String>)
    requires
        dates@.len() <= 12,
    ensures
        strings_view(r@) == month_names_of(day_months(dates@)),
{
    let mut out: Vec<String> = Vec::new();
    let mut k: usize = 0;
    while k < dates.len()
        invariant
            k <= dates@.len() <= 12,
            out@.len() == k,
            forall|j: int| 0 <= j < k ==> (#[trigger] out@[j])@ == month_name(dates@[j].day_month@, shown_day(j)),
        decreases dates@.len() - k,
    {
        out.push(month_name_in(dates[k].day_month.as_str(), k));
        k = k + 1;
    }
    assert(strings_view(out@) =~= month_names_of(day_months(dates@)));
    out
}

proof fn lemma_names_of_month_step(info: Seq<(Seq<char>, Seq<Seq<char>>)>, i: int, k: int)
    requires
        0 <= i < info.len(),
    ensures
        names_of_month(info.take(i + 1), k) == names_of_month(info.take(i), k) + if k < info[i].1.len() {
            seq![month_name(info[i].1[k], shown_day(k))]
        } else {
            Seq::empty()
        },
{
    assert(info.take(i + 1).drop_last() =~= info.take(i));
    assert(info.take(i + 1).last() == info[i]);
}

fn names_of_month_exec(info: &Vec<(Language, Vec<DateInformation>)>, k: usize) -> (r: Vec<String>)
    requires
        k < 12,
    ensures
        strings_view(r@) == names_of_month(dated_views(info@), k as int),
{
    let ghost views = dated_views(info@);
    let mut out: Vec<String> = Vec::new();
    let mut i: usize = 0;
    assert(views.take(0) =~= Seq::<(Seq<char>, Seq<Seq<char>>)>::empty());
    while i < info.len()
        invariant
            i <= info@.len(),
            k < 12,
            views == dated_views(info@),
            strings_view(out@) == names_of_month(views.take(i as int), k as int),
        decreases info@.len() - i,
    {
        proof {
            lemma_names_of_month_step(views, i as int, k as int);
        }
        let ghost before = out@;
        let dates = &info[i].1;
        assert(views[i as int].1 == day_months(dates@));
        if k < dates.len() {
            out.push(month_name_in(dates[k].day_month.as_str(), k));
            assert(strings_view(out@) =~= strings_view(before) + seq![month_name(views[i as int].1[k as int], shown_day(k as int))]);
        } else {
            assert(strings_view(out@) =~= strings_view(before) + Seq::<Seq<char>>::empty());
        }
        i = i + 1;
    }
    assert(views.take(i as int) =~= views);
    out
}

/// Puts the names of `code` into `entries`, in place of those it had.
fn insert_language(entries: &mut Vec<(String, Vec<String>)>, code: &str, names: Vec<String>)
    requires
        codes_unique(entries_view(old(entries)@)),
    ensures
        entries_view(final(entries)@) == with_language(entries_view(old(entries)@), code@, strings_view(names@)),
        codes_unique(entries_view(final(entries)@)),
{
    let ghost before = entries_view(entries@);
    let mut j: usize = 0;
    while j < entries.len()
        invariant
            j <= entries@.len(),
            entries_view(entries@) == before,
            before == entries_view(old(entries)@),
            codes_unique(before),
            forall|k: int| 0 <= k < j ==> (#[trigger] before[k]).0 != code@,
        decreases entries@.len() - j,
    {
        assert(before[j as int].0 == entries@[j as int].0@);
        if str_eq(entries[j].0.as_str(), code) {
            let ghost nv = strings_view(names@);
            entries.set(j, (code.to_owned(), names));
            assert(entries_view(entries@) =~= with_language(before, code@, nv)) by {
                assert(has_language(before, code@));
                assert forall|k: int| 0 <= k < before.len() && k != j implies before[k].0 != code@ by {
                    if k < j {
                    } else {
                        assert(before[j as int].0 != before[k].0);
                    }
                }
            }
            return;
        }
        j = j + 1;
    }
    let ghost nv = strings_view(names@);
    entries.push((code.to_owned(), names));
    assert(!has_language(before, code@));
    assert(entries_view(entries@) =~= before.push((code@, nv)));
}

/// The two tables made from the dates read in each language: for each month,
/// its name in each language that has a date for it; and for each language,
/// its month names. A language has dates for at most twelve months.
pub fn month_name_tables(info: &Vec<(Language, Vec<DateInformation>)>) -> (r: (
    Vec<Vec<String>>,
    Vec<(String, Vec<String>)>,
))
    requires
        forall|i: int| 0 <= i < info@.len() ==> (#[trigger] info@[i]).1@.len() <= 12,
    ensures
        r.0@.len() == 12,
        forall|k: int| 0 <= k < 12 ==> strings_view((#[trigger] r.0@[k])@) == names_of_month(dated_views(info@), k),
        entries_view(r.1@) == language_month_map(dated_views(info@)),
{
    let mut by_month: Vec<Vec<String>> = Vec::new();
    let mut k: usize = 0;
    while k < 12
        invariant
            k <= 12,
            by_month@.len() == k,
            forall|j: int| 0 <= j < k ==> strings_view((#[trigger] by_month@[j])@) == names_of_month(dated_views(info@), j),
        decreases 12 - k,
    {
        by_month.push(names_of_month_exec(info, k));
        k = k + 1;
    }
    let ghost views = dated_views(info@);
    let mut by_language: Vec<(String, Vec<String>)> = Vec::new();
    let mut i: usize = 0;
    assert(views.take(0) =~= Seq::<(Seq<char>, Seq<Seq<char>>)>::empty());
    assert(entries_view(by_language@) =~= Seq::<(Seq<char>, Seq<Seq<char>>)>::empty());
    while i < info.len()
        invariant
            i <= info@.len(),
            views == dated_views(info@),
            forall|j: int| 0 <= j < info@.len() ==> (#[trigger] info@[j]).1@.len() <= 12,
            entries_view(by_language@) == language_month_map(views.take(i as int)),
            codes_unique(entries_view(by_language@)),
        decreases info@.len() - i,
    {
        assert(views.take(i + 1).drop_last() =~= views.take(i as int));
        assert(views.take(i + 1).last() == views[i as int]);
        assert(views[i as int] == (info@[i as int].0.language_code@, day_months(info@[i as int].1@)));
        let names = month_names_of_dates(&info[i].1);
        insert_language(&mut by_language, info[i].0.language_code.as_str(), names);
        i = i + 1;
    }
    assert(views.take(i as int) =~= views);
    (by_month, by_language)
}

proof fn lemma_with_language_unique(
    entries: Seq<(Seq<char>, Seq<Seq<char>>)>,
    code: Seq<char>,
    names: Seq<Seq<char>>,
)
    requires
        codes_unique(entries),
    ensures
        codes_unique(with_language(entries, code, names)),
        has_language(with_language(entries, code, names), code),
        forall|c: Seq<char>| has_language(entries, c) ==> #[trigger] has_language(with_language(entries, code, names), c),
        exists|j: int| 0 <= j < with_language(entries, code, names).len() && #[trigger] with_language(entries, code, names)[j] == (code, names),
{
    let w = with_language(entries, code, names);
    if has_language(entries, code) {
        let j0 = choose|j: int| 0 <= j < entries.len() && #[trigger] entries[j].0 == code;
        assert(w[j0] == (code, names));
        assert(w[j0].0 == code);
        assert forall|c: Seq<char>| has_language(entries, c) implies #[trigger] has_language(w, c) by {
            let j = choose|j: int| 0 <= j < entries.len() && #[trigger] entries[j].0 == c;
            assert(w[j].0 == c);
        }
    } else {
        assert(w[entries.len() as int] == (code, names));
        assert(w[entries.len() as int].0 == code);
        assert forall|c: Seq<char>| has_language(entries, c) implies #[trigger] has_language(w, c) by {
            let j = choose|j: int| 0 <= j < entries.len() && #[trigger] entries[j].0 == c;
            assert(w[j].0 == c);
        }
    }
}

/// The month-name map has one entry per language code: no code occurs twice.
pub proof fn lemma_language_month_map_codes_unique(info: Seq<(Seq<char>, Seq<Seq<char>>)>)
    ensures
        codes_unique(language_month_map(info)),
    decreases info.len(),
{
    if info.len() > 0 {
        lemma_language_month_map_codes_unique(info.drop_last());
        lemma_with_language_unique(
            language_month_map(info.drop_last()),
            info.last().0,
            month_names_of(info.last().1),
        );
    }
}

/// Every language read has an entry in the month-name map.
pub proof fn lemma_language_month_map_has_each(info: Seq<(Seq<char>, Seq<Seq<char>>)>, i: int)
    requires
        0 <= i < info.len(),
    ensures
        has_language(language_month_map(info), info[i].0),
    decreases info.len(),
{
    let prev = language_month_map(info.drop_last());
    lemma_language_month_map_codes_unique(info.drop_last());
    lemma_with_language_unique(prev, info.last().0, month_names_of(info.last().1));
    if i < info.len() - 1 {
        lemma_language_month_map_has_each(info.drop_last(), i);
        assert(info.drop_last()[i] == info[i]);
    }
}

/// The entry of the language read last holds the month names of its dates.
pub proof fn lemma_language_month_map_last(info: Seq<(Seq<char>, Seq<Seq<char>>)>)
    requires
        info.len() > 0,
    ensures
        exists|j: int|
            0 <= j < language_month_map(info).len() && #[trigger] language_month_map(info)[j] == (
                info.last().0,
                month_names_of(info.last().1),
            ),
{
    lemma_language_month_map_codes_unique(info.drop_last());
    let w = with_language(
        language_month_map(info.drop_last()),
        info.last().0,
        month_names_of(info.last().1),
    );
    lemma_with_language_unique(
        language_month_map(info.drop_last()),
        info.last().0,
        month_names_of(info.last().1),
    );
    assert(language_month_map(info) == w);
    let j = choose|j: int| 0 <= j < w.len() && #[trigger] w[j] == (info.last().0, month_names_of(info.last().1));
    assert(language_month_map(info)[j] == (info.last().0, month_names_of(info.last().1)));
}

} // verus!
