//! The data the client moves around: cities with coordinates, the
//! normalized forecast response, and geocoding results.
//!
//! Coordinates are carried in microdegrees (degrees times one million) and
//! temperatures in tenths of a degree Celsius, so that every value here is a
//! plain integer.

use vstd::prelude::*;

use crate::text::same_name;

verus! {

/// A city with coordinates in microdegrees.
#[derive(Debug)]
pub struct City {
    pub name: String,
    pub lat: i64,
    pub long: i64,
}

/// The mathematical content of a `City`.
pub ghost struct CityView {
    pub name: Seq<char>,
    pub lat: int,
    pub long: int,
}

impl View for City {
    type V = CityView;

    open spec fn view(&self) -> CityView {
        CityView { name: self.name@, lat: self.lat as int, long: self.long as int }
    }
}

/// Two cities are the same entry when their names agree case-insensitively
/// and their coordinates agree exactly.
pub open spec fn same_triple(a: CityView, b: CityView) -> bool {
    same_name(a.name, b.name) && a.lat == b.lat && a.long == b.long
}

impl City {
    /// A copy of this city.
    pub fn duplicate(&self) -> (r: City)
        ensures
            r@ == self@,
    {
        City { name: self.name.clone(), lat: self.lat, long: self.long }
    }
}

/// One geocoding result: a name and its coordinates in microdegrees.
#[derive(Debug)]
pub struct GeoResult {
    pub name: String,
    pub latitude: i64,
    pub longitude: i64,
}

/// The mathematical content of a `GeoResult`.
pub ghost struct GeoResultView {
    pub name: Seq<char>,
    pub latitude: int,
    pub longitude: int,
}

impl View for GeoResult {
    type V = GeoResultView;

    open spec fn view(&self) -> GeoResultView {
        GeoResultView {
            name: self.name@,
            latitude: self.latitude as int,
            longitude: self.longitude as int,
        }
    }
}

/// A geocoding response: zero or more results, the first authoritative.
#[derive(Debug)]
pub struct GeoResponse {
    pub results: Option<Vec<GeoResult>>,
}

/// Why no city could be made from a geocoding response.
#[derive(Debug, PartialEq, Eq, Structural)]
pub enum GeoError {
    /// The response carried no results: the name resolves to no city.
    NotFound,
}

/// Whether a geocoding response carries at least one result.
pub open spec fn geo_has_result(g: &GeoResponse) -> bool {
    g.results matches Some(v) && v@.len() > 0
}

/// The city a geocoding response resolves to: the first result, taken as it
/// stands. Fails exactly when the response carries no results.
pub fn city_from_geo(geo_response: &GeoResponse) -> (r: Result<City, GeoError>)
    ensures
        r is Ok <==> geo_has_result(geo_response),
        r matches Ok(c) ==> (geo_response.results matches Some(v) && c@.name == v@[0]@.name
            && c@.lat == v@[0]@.latitude && c@.long == v@[0]@.longitude),
        r matches Err(e) ==> e == GeoError::NotFound,
{
    match &geo_response.results {
        Some(v) if v.len() > 0 => {
            let first = &v[0];
            Ok(City { name: first.name.clone(), lat: first.latitude, long: first.longitude })
        },
        _ => Err(GeoError::NotFound),
    }
}

/// The per-day parallel arrays of a forecast response: entry `k` of each
/// array describes forecast day `k`. Temperatures are tenths of a degree
/// Celsius.
#[derive(Debug)]
pub struct DailyForecast {
    pub time: Vec<String>,
    pub temperature_2m_max: Vec<i64>,
    pub temperature_2m_min: Vec<i64>,
    pub weather_code: Vec<u32>,
    pub temperature_2m_mean: Vec<i64>,
}

/// The measurement units the response declared for each array.
#[derive(Debug)]
pub struct DailyUnits {
    pub time: String,
    pub temperature_2m_max: String,
    pub temperature_2m_min: String,
    pub weather_code: String,
    pub temperature_2m_mean: String,
}

/// A normalized multi-day forecast for one coordinate pair.
#[derive(Debug)]
pub struct ForecastResponse {
    pub daily: DailyForecast,
    pub daily_units: DailyUnits,
}

impl ForecastResponse {
    /// The arrays run in parallel: one entry per forecast day.
    pub open spec fn wf(&self) -> bool {
        &&& self.daily.temperature_2m_max@.len() == self.daily.time@.len()
        &&& self.daily.temperature_2m_min@.len() == self.daily.time@.len()
        &&& self.daily.weather_code@.len() == self.daily.time@.len()
        &&& self.daily.temperature_2m_mean@.len() == self.daily.time@.len()
    }

    /// How many forecast days the response carries.
    pub fn len(&self) -> (r: usize)
        ensures
            r == self.daily.time@.len(),
    {
        self.daily.time.len()
    }

    /// Whether the arrays really do run in parallel; what the save path
    /// demands of a response.
    pub fn is_wf(&self) -> (r: bool)
        ensures
            r == self.wf(),
    {
        let n = self.daily.time.len();
        self.daily.temperature_2m_max.len() == n && self.daily.temperature_2m_min.len() == n
            && self.daily.weather_code.len() == n && self.daily.temperature_2m_mean.len() == n
    }
}

/// One requested entry of a fresh forecast: the day index that was asked
/// for, and its card when the response reaches that far.
#[derive(Debug)]
pub struct FreshDay {
    pub index: usize,
    pub card: Option<FreshCard>,
}

/// The values shown for one forecast day.
#[derive(Debug)]
pub struct FreshCard {
    pub date: String,
    pub weather_code: u32,
    pub t_min: i64,
    pub t_max: i64,
    pub t_mean: i64,
}

/// What a fresh (just fetched) forecast yields for a list of requested day
/// indices.
#[derive(Debug)]
pub enum FreshReport {
    /// The response carries no days, or nothing was requested.
    NoData,
    /// One entry per requested index, in request order.
    Days(Vec<FreshDay>),
}

impl ForecastResponse {
    /// Pick the requested day indices out of this response, one entry per
    /// request: a filled card for an index the response covers, an empty one
    /// for an index past its horizon.
    pub fn day_cards(&self, indices: &Vec<usize>) -> (r: FreshReport)
        requires
            self.wf(),
        ensures
            (self.daily.time@.len() == 0 || indices@.len() == 0) <==> r is NoData,
            r matches FreshReport::Days(days) ==> days@.len() == indices@.len(),
            r matches FreshReport::Days(days) ==> forall|i: int|
                0 <= i < indices@.len() ==> (#[trigger] days@[i]).index == indices@[i],
            r matches FreshReport::Days(days) ==> forall|i: int|
                0 <= i < indices@.len() ==> ((#[trigger] days@[i]).card is Some <==> indices@[i]
                    < self.daily.time@.len()),
            r matches FreshReport::Days(days) ==> forall|i: int|
                0 <= i < indices@.len() ==> ((#[trigger] days@[i]).card matches Some(c) ==> {
                    let k = indices@[i] as int;
                    &&& c.date@ == self.daily.time@[k]@
                    &&& c.weather_code == self.daily.weather_code@[k]
                    &&& c.t_min == self.daily.temperature_2m_min@[k]
                    &&& c.t_max == self.daily.temperature_2m_max@[k]
                    &&& c.t_mean == self.daily.temperature_2m_mean@[k]
                }),
    {
        if self.len() == 0 || indices.len() == 0 {
            return FreshReport::NoData;
        }
        let n = self.len();
        let mut days: Vec<FreshDay> = Vec::new();
        let mut i: usize = 0;
        while i < indices.len()
            invariant
                self.wf(),
                i <= indices@.len(),
                n == self.daily.time@.len(),
                days@.len() == i,
                forall|j: int| 0 <= j < i ==> (#[trigger] days@[j]).index == indices@[j],
                forall|j: int|
                    0 <= j < i ==> ((#[trigger] days@[j]).card is Some <==> indices@[j]
                        < self.daily.time@.len()),
                forall|j: int|
                    0 <= j < i ==> ((#[trigger] days@[j]).card matches Some(c) ==> {
                        let k = indices@[j] as int;
                        &&& c.date@ == self.daily.time@[k]@
                        &&& c.weather_code == self.daily.weather_code@[k]
                        &&& c.t_min == self.daily.temperature_2m_min@[k]
                        &&& c.t_max == self.daily.temperature_2m_max@[k]
                        &&& c.t_mean == self.daily.temperature_2m_mean@[k]
                    }),
            decreases indices@.len() - i,
        {
            let id = indices[i];
            if id < n {
                let card = FreshCard {
                    date: self.daily.time[id].clone(),
                    weather_code: self.daily.weather_code[id],
                    t_min: self.daily.temperature_2m_min[id],
                    t_max: self.daily.temperature_2m_max[id],
                    t_mean: self.daily.temperature_2m_mean[id],
                };
                days.push(FreshDay { index: id, card: Some(card) });
            } else {
                days.push(FreshDay { index: id, card: None });
            }
            i = i + 1;
        }
        FreshReport::Days(days)
    }
}

} // verus!
