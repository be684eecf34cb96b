use yayti::month_names::{
    date_information, month_name_in, month_name_tables, month_names_of_dates, DateInformation,
};
use yayti::parsers::web::Language;

fn date(day_month: &str) -> DateInformation {
    DateInformation {
        day_month: String::from(day_month),
        year: String::from("2023"),
        date_text: String::new(),
    }
}

fn language(code: &str) -> Language {
    Language { language_name: String::from(code), language_code: String::from(code) }
}

#[test]
fn year_and_day_month_are_told_apart() {
    let d = date_information("25. 1.", "2020", "25. 1. 2020");
    assert_eq!(d.day_month, "25. 1.");
    assert_eq!(d.year, "2020");
    assert_eq!(d.date_text, "25. 1. 2020");
    let e = date_information("2020", "Jan 25", "");
    assert_eq!(e.day_month, "Jan 25");
    assert_eq!(e.year, "2020");
    let f = date_information("Jan 25", "Jan 25", "");
    assert_eq!(f.day_month, "Jan 25");
    assert_eq!(f.year, "Jan 25");
}

#[test]
fn month_name_is_what_is_left_of_the_date() {
    assert_eq!(month_name_in("25. ledna", 0), " ledna");
    assert_eq!(month_name_in("Jan 25", 0), "Jan ");
    assert_eq!(month_name_in("27 févr.", 1), " févr.");
    assert_eq!(month_name_in("25", 0), "");
    assert_eq!(month_name_in("1月25日", 0), "1月");
    assert_eq!(month_name_in("15 dic", 11), " dic");
}

#[test]
fn month_names_of_a_language() {
    let names = month_names_of_dates(&vec![date("Jan 25"), date("Feb 27"), date("Mar 23")]);
    assert_eq!(names, vec!["Jan ", "Feb ", "Mar "]);
}

#[test]
fn tables_by_month_and_by_language() {
    let info = vec![
        (language("en"), vec![date("Jan 25"), date("Feb 27")]),
        (language("cs"), vec![date("25. ledna")]),
        (language("en"), vec![date("January 25")]),
    ];
    let (by_month, by_language) = month_name_tables(&info);
    assert_eq!(by_month.len(), 12);
    assert_eq!(by_month[0], vec!["Jan ", " ledna", "January "]);
    assert_eq!(by_month[1], vec!["Feb "]);
    assert!(by_month[2].is_empty());
    assert_eq!(by_language.len(), 2);
    assert_eq!(by_language[0], (String::from("en"), vec![String::from("January ")]));
    assert_eq!(by_language[1], (String::from("cs"), vec![String::from(" ledna")]));
}

#[test]
fn date_of_a_response() {
    let none = yayti::month_names::date_information_of(&yayti::json::JsonValue::Null);
    assert!(none.is_none());
}
