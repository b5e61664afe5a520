//! The forecast cache: insertion, upsert, cascade, atomicity, lookups.

use deca_weather::db::{Db, DbError};
use deca_weather::models::{City, DailyForecast, DailyUnits, ForecastResponse};

fn city(name: &str, lat: i64, long: i64) -> City {
    City { name: name.to_string(), lat, long }
}

fn units() -> DailyUnits {
    DailyUnits {
        time: "iso8601".to_string(),
        temperature_2m_max: "\u{b0}C".to_string(),
        temperature_2m_min: "\u{b0}C".to_string(),
        weather_code: "wmo code".to_string(),
        temperature_2m_mean: "\u{b0}C".to_string(),
    }
}

fn forecast(days: &[(&str, u32, i64, i64, i64)]) -> ForecastResponse {
    ForecastResponse {
        daily: DailyForecast {
            time: days.iter().map(|d| d.0.to_string()).collect(),
            weather_code: days.iter().map(|d| d.1).collect(),
            temperature_2m_min: days.iter().map(|d| d.2).collect(),
            temperature_2m_max: days.iter().map(|d| d.3).collect(),
            temperature_2m_mean: days.iter().map(|d| d.4).collect(),
        },
        daily_units: units(),
    }
}

#[test]
fn insert_city_is_idempotent() {
    let mut db = Db::new();
    db.insert_city(&city("Brussels", 50850450, 4348780));
    let before = db.list_cities().len();
    db.insert_city(&city("Brussels", 50850450, 4348780));
    let after = db.list_cities();
    assert_eq!(before, 1);
    assert_eq!(after.len(), 1);
    assert_eq!(after[0].name, "Brussels");
}

#[test]
fn insert_city_case_insensitive_dedup() {
    let mut db = Db::new();
    db.insert_city(&city("Brussels", 50850450, 4348780));
    db.insert_city(&city("BRUSSELS", 50850450, 4348780));
    assert_eq!(db.list_cities().len(), 1);
}

#[test]
fn same_name_different_coordinates_are_two_cities() {
    let mut db = Db::new();
    db.insert_city(&city("Springfield", 1, 2));
    db.insert_city(&city("Springfield", 3, 4));
    assert_eq!(db.list_cities().len(), 2);
}

#[test]
fn save_forecast_upsert_last_write_wins() {
    let mut db = Db::new();
    let c = city("Ghent", 51053500, 3725000);
    db.insert_city(&c);
    db.save_forecast_for_city(&c, &forecast(&[("2024-01-01", 61, 50, 100, 75)]), 1000)
        .unwrap();
    db.save_forecast_for_city(&c, &forecast(&[("2024-01-01", 3, 10, 60, 30)]), 2000)
        .unwrap();
    let rows = db.get_daily_forecast_for_city(&c).unwrap();
    assert_eq!(rows.len(), 1);
    assert_eq!(rows[0].date, "2024-01-01");
    assert_eq!(rows[0].weather_code, 3);
    assert_eq!(rows[0].t_min, 10);
    assert_eq!(rows[0].t_max, 60);
    assert_eq!(rows[0].t_mean, 30);
}

#[test]
fn save_forecast_duplicate_date_in_one_batch_last_wins() {
    let mut db = Db::new();
    let c = city("Ghent", 51053500, 3725000);
    db.insert_city(&c);
    db.save_forecast_for_city(
        &c,
        &forecast(&[("2024-01-01", 61, 50, 100, 75), ("2024-01-01", 3, 10, 60, 30)]),
        1000,
    )
    .unwrap();
    let rows = db.get_daily_forecast_for_city(&c).unwrap();
    assert_eq!(rows.len(), 1);
    assert_eq!(rows[0].weather_code, 3);
}

#[test]
fn save_forecast_unknown_city_fails_without_partial_rows() {
    let mut db = Db::new();
    let known = city("Ghent", 51053500, 3725000);
    db.insert_city(&known);
    let unknown = city("Atlantis", 0, 0);
    let r = db.save_forecast_for_city(
        &unknown,
        &forecast(&[
            ("2024-01-01", 61, 50, 100, 75),
            ("2024-01-02", 61, 50, 100, 75),
            ("2024-01-03", 61, 50, 100, 75),
        ]),
        1000,
    );
    assert_eq!(r, Err(DbError::UnknownCity));
    // None of the batch's days was committed anywhere.
    let rows = db.get_daily_forecast_for_city(&known).unwrap();
    assert_eq!(rows.len(), 0);
    assert_eq!(db.list_cities().len(), 1);
    // The failed city is still unknown to the row store.
    assert!(db.get_daily_forecast_for_city(&unknown).is_err());
}

#[test]
fn delete_city_cascades_to_forecast_rows() {
    let mut db = Db::new();
    let c = city("Ghent", 51053500, 3725000);
    db.insert_city(&c);
    db.save_forecast_for_city(
        &c,
        &forecast(&[("2024-01-01", 61, 50, 100, 75), ("2024-01-02", 2, 40, 90, 70)]),
        1000,
    )
    .unwrap();
    let removed = db.delete_city("ghent");
    assert_eq!(removed, 1);
    assert_eq!(db.list_cities().len(), 0);
    assert!(matches!(db.get_daily_forecast_for_city(&c), Err(DbError::UnknownCity)));
}

#[test]
fn delete_city_missing_returns_zero() {
    let mut db = Db::new();
    db.insert_city(&city("Ghent", 51053500, 3725000));
    assert_eq!(db.delete_city("Atlantis"), 0);
    assert_eq!(db.list_cities().len(), 1);
}

#[test]
fn list_cities_is_name_ascending() {
    let mut db = Db::new();
    db.insert_city(&city("Waterloo", 50714690, 4399100));
    db.insert_city(&city("antwerp", 51220470, 4400260));
    db.insert_city(&city("Dinant", 50258070, 4911660));
    let names: Vec<String> = db.list_cities().into_iter().map(|c| c.name).collect();
    assert_eq!(names, vec!["antwerp".to_string(), "Dinant".to_string(), "Waterloo".to_string()]);
}

#[test]
fn find_city_by_name_is_case_insensitive() {
    let mut db = Db::new();
    db.insert_city(&city("Brussels", 50850450, 4348780));
    let found = db.get_city_by_name("brussels").expect("should match");
    assert_eq!(found.name, "Brussels");
    assert_eq!(found.lat, 50850450);
    assert_eq!(found.long, 4348780);
    assert!(db.get_city_by_name("paris").is_none());
}

#[test]
fn get_forecast_rows_come_back_date_ascending() {
    let mut db = Db::new();
    let c = city("Ghent", 51053500, 3725000);
    db.insert_city(&c);
    db.save_forecast_for_city(
        &c,
        &forecast(&[
            ("2024-01-03", 1, 1, 2, 1),
            ("2024-01-01", 2, 3, 4, 3),
            ("2024-01-02", 3, 5, 6, 5),
        ]),
        1000,
    )
    .unwrap();
    let dates: Vec<String> = db
        .get_daily_forecast_for_city(&c)
        .unwrap()
        .into_iter()
        .map(|r| r.date)
        .collect();
    assert_eq!(
        dates,
        vec!["2024-01-01".to_string(), "2024-01-02".to_string(), "2024-01-03".to_string()]
    );
}

#[test]
fn remaining_ids_shrink_with_new_cities_only() {
    let mut db = Db::new();
    let fresh = db.remaining_ids();
    assert_eq!(fresh, u64::MAX - 1);
    db.insert_city(&city("Ghent", 51053500, 3725000));
    assert_eq!(db.remaining_ids(), fresh - 1);
    db.insert_city(&city("Ghent", 51053500, 3725000));
    assert_eq!(db.remaining_ids(), fresh - 1);
}

#[test]
fn forecast_wf_demands_parallel_arrays() {
    let mut fr = forecast(&[("2024-01-01", 61, 50, 100, 75)]);
    assert!(fr.is_wf());
    fr.daily.weather_code.push(2);
    assert!(!fr.is_wf());
}

#[test]
fn preload_favourites_is_idempotent() {
    let mut db = Db::new();
    deca_weather::cities::preload_favourites(&mut db);
    assert_eq!(db.list_cities().len(), 10);
    deca_weather::cities::preload_favourites(&mut db);
    assert_eq!(db.list_cities().len(), 10);
}

#[test]
fn end_to_end_one_saved_row_comes_back_exactly() {
    let mut db = Db::new();
    // Test (1.0, 2.0) in microdegrees.
    let c = city("Test", 1_000_000, 2_000_000);
    db.insert_city(&c);
    // One day: code 61, min 5.0, max 10.0, mean 7.5 degrees (tenths).
    db.save_forecast_for_city(&c, &forecast(&[("2024-01-01", 61, 50, 100, 75)]), 42)
        .unwrap();
    let rows = db.get_daily_forecast_for_city(&c).unwrap();
    assert_eq!(rows.len(), 1);
    assert_eq!(rows[0].date, "2024-01-01");
    assert_eq!(rows[0].weather_code, 61);
    assert_eq!(rows[0].t_min, 50);
    assert_eq!(rows[0].t_max, 100);
    assert_eq!(rows[0].t_mean, 75);
}
