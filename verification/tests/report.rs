//! The staleness-aware read path and the fresh-forecast selection.

use deca_weather::date::Date;
use deca_weather::db::DbDailyForecastRow;
use deca_weather::models::{City, DailyForecast, DailyUnits, ForecastResponse, FreshReport};
use deca_weather::render::{select_days, DayData, ForecastReport};

fn row(date: &str, code: i64, t_min: i64, t_max: i64, t_mean: i64) -> DbDailyForecastRow {
    DbDailyForecastRow { date: date.to_string(), weather_code: code, t_min, t_max, t_mean }
}

fn date(year: u32, month: u32, day: u32) -> Date {
    Date { year, month, day }
}

#[test]
fn select_days_no_rows_is_no_data() {
    let r = select_days(&vec![], &vec![0], &date(2024, 3, 10));
    assert!(matches!(r, ForecastReport::NoData));
}

#[test]
fn select_days_no_offsets_is_no_data() {
    let rows = vec![row("2024-03-10", 61, 50, 100, 75)];
    let r = select_days(&rows, &vec![], &date(2024, 3, 10));
    assert!(matches!(r, ForecastReport::NoData));
}

#[test]
fn select_days_stale_snapshot_is_outdated_not_a_stale_card() {
    // The newest stored day is yesterday relative to "today".
    let rows = vec![row("2024-03-08", 61, 50, 100, 75), row("2024-03-09", 2, 40, 90, 70)];
    let r = select_days(&rows, &vec![0], &date(2024, 3, 10));
    match r {
        ForecastReport::Outdated(last) => assert_eq!(last, date(2024, 3, 9)),
        other => panic!("expected Outdated, got {:?}", other),
    }
}

#[test]
fn select_days_partial_match_fills_present_days_only() {
    // Today and the day after tomorrow are stored, tomorrow is not.
    let today = date(2024, 3, 10);
    let rows = vec![row("2024-03-10", 61, 50, 100, 75), row("2024-03-12", 2, 40, 90, 70)];
    let r = select_days(&rows, &vec![0, 1, 2], &today);
    match r {
        ForecastReport::Cards(cards) => {
            assert_eq!(cards.len(), 3);
            assert_eq!(cards[0].offset, 0);
            assert_eq!(cards[0].date, "2024-03-10");
            assert_eq!(
                cards[0].data,
                Some(DayData { weather_code: 61, t_min: 50, t_max: 100, t_mean: 75 })
            );
            assert_eq!(cards[1].offset, 1);
            assert_eq!(cards[1].date, "2024-03-11");
            assert_eq!(cards[1].data, None);
            assert_eq!(cards[2].offset, 2);
            assert_eq!(cards[2].date, "2024-03-12");
            assert_eq!(
                cards[2].data,
                Some(DayData { weather_code: 2, t_min: 40, t_max: 90, t_mean: 70 })
            );
        },
        other => panic!("expected Cards, got {:?}", other),
    }
}

#[test]
fn select_days_no_requested_day_stored() {
    // The snapshot is current (today is stored) but only far-future days
    // are requested.
    let rows = vec![row("2024-03-10", 61, 50, 100, 75)];
    let r = select_days(&rows, &vec![5, 6], &date(2024, 3, 10));
    assert!(matches!(r, ForecastReport::NoMatchingDays));
}

#[test]
fn select_days_crosses_month_end() {
    let rows = vec![row("2024-03-01", 61, 50, 100, 75)];
    let r = select_days(&rows, &vec![1], &date(2024, 2, 29));
    match r {
        ForecastReport::Cards(cards) => {
            assert_eq!(cards[0].date, "2024-03-01");
            assert!(cards[0].data.is_some());
        },
        other => panic!("expected Cards, got {:?}", other),
    }
}

fn units() -> DailyUnits {
    DailyUnits {
        time: "iso8601".to_string(),
        temperature_2m_max: "\u{b0}C".to_string(),
        temperature_2m_min: "\u{b0}C".to_string(),
        weather_code: "wmo code".to_string(),
        temperature_2m_mean: "\u{b0}C".to_string(),
    }
}

#[test]
fn day_cards_empty_response_is_no_data() {
    let fr = ForecastResponse {
        daily: DailyForecast {
            time: vec![],
            weather_code: vec![],
            temperature_2m_min: vec![],
            temperature_2m_max: vec![],
            temperature_2m_mean: vec![],
        },
        daily_units: units(),
    };
    assert_eq!(fr.len(), 0);
    assert!(matches!(fr.day_cards(&vec![0]), FreshReport::NoData));
}

#[test]
fn day_cards_past_horizon_gets_empty_card() {
    let fr = ForecastResponse {
        daily: DailyForecast {
            time: vec!["2024-03-10".to_string(), "2024-03-11".to_string()],
            weather_code: vec![61, 2],
            temperature_2m_min: vec![50, 40],
            temperature_2m_max: vec![100, 90],
            temperature_2m_mean: vec![75, 70],
        },
        daily_units: units(),
    };
    assert_eq!(fr.len(), 2);
    match fr.day_cards(&vec![0, 5]) {
        FreshReport::Days(days) => {
            assert_eq!(days.len(), 2);
            assert_eq!(days[0].index, 0);
            let card = days[0].card.as_ref().expect("day 0 is covered");
            assert_eq!(card.date, "2024-03-10");
            assert_eq!(card.weather_code, 61);
            assert_eq!(card.t_min, 50);
            assert_eq!(card.t_max, 100);
            assert_eq!(card.t_mean, 75);
            assert_eq!(days[1].index, 5);
            assert!(days[1].card.is_none());
        },
        other => panic!("expected Days, got {:?}", other),
    }
}

#[test]
fn select_days_report_for_city_flow() {
    // A small end-to-end shaped check: a stored city's rows through the
    // report selection.
    let mut db = deca_weather::db::Db::new();
    let c = City { name: "Test".to_string(), lat: 1_000_000, long: 2_000_000 };
    db.insert_city(&c);
    let fr = ForecastResponse {
        daily: DailyForecast {
            time: vec!["2024-01-01".to_string()],
            weather_code: vec![61],
            temperature_2m_min: vec![50],
            temperature_2m_max: vec![100],
            temperature_2m_mean: vec![75],
        },
        daily_units: units(),
    };
    db.save_forecast_for_city(&c, &fr, 42).unwrap();
    let rows = db.get_daily_forecast_for_city(&c).unwrap();
    let r = select_days(&rows, &vec![0], &date(2024, 1, 1));
    match r {
        ForecastReport::Cards(cards) => {
            assert_eq!(cards[0].date, "2024-01-01");
            assert_eq!(
                cards[0].data,
                Some(DayData { weather_code: 61, t_min: 50, t_max: 100, t_mean: 75 })
            );
        },
        other => panic!("expected Cards, got {:?}", other),
    }
}
