//! Dates, text ordering, the weather-code classifier, arguments and
//! geocoding decisions.

use deca_weather::args::requested_offsets;
use deca_weather::cities::get_favourite_cities;
use deca_weather::date::{format_date, parse_date, today_date, Date};
use deca_weather::models::{city_from_geo, GeoError, GeoResponse, GeoResult};
use deca_weather::text::{str_name_le, str_same_name, str_text_le};
use deca_weather::wmo::{describe, emoji};

#[test]
fn parse_date_accepts_calendar_days() {
    assert_eq!(parse_date("2024-01-01"), Some(Date { year: 2024, month: 1, day: 1 }));
    assert_eq!(parse_date("2024-02-29"), Some(Date { year: 2024, month: 2, day: 29 }));
    assert_eq!(parse_date("1999-12-31"), Some(Date { year: 1999, month: 12, day: 31 }));
}

#[test]
fn parse_date_rejects_malformed_text() {
    assert_eq!(parse_date("2023-02-29"), None); // not a leap year
    assert_eq!(parse_date("2024-13-01"), None);
    assert_eq!(parse_date("2024-00-10"), None);
    assert_eq!(parse_date("2024-1-1"), None);
    assert_eq!(parse_date("2024/01/01"), None);
    assert_eq!(parse_date(""), None);
    assert_eq!(parse_date("yesterday!"), None);
}

#[test]
fn format_date_pads_to_four_and_two_digits() {
    assert_eq!(format_date(&Date { year: 812, month: 3, day: 7 }), "0812-03-07");
    assert_eq!(format_date(&Date { year: 2024, month: 12, day: 31 }), "2024-12-31");
}

#[test]
fn format_then_parse_round_trips() {
    let d = Date { year: 2024, month: 2, day: 29 };
    assert_eq!(parse_date(&format_date(&d)), Some(d));
}

#[test]
fn plus_days_rolls_over_months_and_years() {
    let d = Date { year: 2024, month: 2, day: 28 };
    assert_eq!(d.plus_days(1), Date { year: 2024, month: 2, day: 29 });
    assert_eq!(d.plus_days(2), Date { year: 2024, month: 3, day: 1 });
    let e = Date { year: 2023, month: 12, day: 31 };
    assert_eq!(e.plus_days(1), Date { year: 2024, month: 1, day: 1 });
}

#[test]
fn date_order_is_chronological() {
    let a = Date { year: 2024, month: 1, day: 31 };
    let b = Date { year: 2024, month: 2, day: 1 };
    assert!(a.lt(&b));
    assert!(a.le(&b));
    assert!(!b.le(&a));
    assert!(!a.lt(&a));
}

#[test]
fn today_date_is_a_calendar_day() {
    let d = today_date().expect("the clock's day fits the calendar");
    assert!((1..=9999).contains(&d.year));
    assert!((1..=12).contains(&d.month));
    assert!((1..=31).contains(&d.day));
}

#[test]
fn name_comparison_folds_ascii_case() {
    assert!(str_same_name("Brussels", "bRuSSels"));
    assert!(!str_same_name("Brussels", "Bruges"));
    assert!(str_name_le("antwerp", "Bruges"));
    assert!(str_name_le("Antwerp", "antwerp"));
    assert!(!str_name_le("Dinant", "Bruges"));
}

#[test]
fn date_text_comparison_is_chronological() {
    assert!(str_text_le("2024-01-09", "2024-01-10"));
    assert!(str_text_le("2023-12-31", "2024-01-01"));
    assert!(!str_text_le("2024-02-01", "2024-01-31"));
}

#[test]
fn describe_names_the_codes() {
    assert_eq!(describe(61), "Rain, not freezing, continuous, slight at time of observation");
    assert_eq!(describe(0), "Cloud development not observed or not observable");
    assert_eq!(describe(99), "Thunderstorm, heavy, with hail at time of observation");
    assert_eq!(describe(100), "Unknown WMO weather code");
}

#[test]
fn emoji_covers_the_code_bands() {
    assert_eq!(emoji(0), "\u{2601}\u{fe0f}");
    assert_eq!(emoji(45), "\u{1f32b}\u{fe0f}");
    assert_eq!(emoji(61), "\u{1f327}\u{fe0f}");
    assert_eq!(emoji(75), "\u{2744}\u{fe0f}");
    assert_eq!(emoji(99), "\u{26c8}\u{fe0f}");
    assert_eq!(emoji(4), "?");
}

#[test]
fn requested_offsets_follow_the_flags() {
    assert_eq!(requested_offsets(false, false), vec![0]);
    assert_eq!(requested_offsets(true, false), vec![1]);
    assert_eq!(requested_offsets(false, true), vec![2]);
    assert_eq!(requested_offsets(true, true), vec![1, 2]);
}

#[test]
fn favourites_are_the_ten_belgian_cities() {
    let f = get_favourite_cities();
    assert_eq!(f.len(), 10);
    assert_eq!(f[0].name, "Brussels");
    assert_eq!(f[0].lat, 50850450);
    assert_eq!(f[0].long, 4348780);
    assert_eq!(f[9].name, "Dinant");
}

#[test]
fn city_from_geo_takes_the_first_result() {
    let resp = GeoResponse {
        results: Some(vec![
            GeoResult { name: "Ghent".to_string(), latitude: 51053500, longitude: 3725000 },
            GeoResult { name: "Ghent (US)".to_string(), latitude: 1, longitude: 2 },
        ]),
    };
    let c = city_from_geo(&resp).unwrap();
    assert_eq!(c.name, "Ghent");
    assert_eq!(c.lat, 51053500);
    assert_eq!(c.long, 3725000);
}

#[test]
fn city_from_geo_fails_without_results() {
    let none = GeoResponse { results: None };
    let empty = GeoResponse { results: Some(vec![]) };
    assert!(matches!(city_from_geo(&none), Err(GeoError::NotFound)));
    assert!(matches!(city_from_geo(&empty), Err(GeoError::NotFound)));
}
