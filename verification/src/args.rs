//! The commands the client understands, as plain values, and how a
//! request's day flags become day offsets.

use vstd::prelude::*;

verus! {

/// A parsed invocation: its command, if one was named.
#[derive(Debug)]
pub struct WeatherArgs {
    pub command: Option<Commands>,
}

/// The commands.
#[derive(Debug)]
pub enum Commands {
    /// Show the daily forecast of the favourite cities.
    List,
    /// Fetch and show the forecast of one city.
    Get(GetArgs),
    /// Add a city (and its current forecast) to the store.
    AddCity(AddCityArgs),
    /// Remove a city and everything stored for it.
    RemoveCity(RemoveCityArgs),
    /// Show a city's forecast strictly from the store.
    GetDb(GetDbArgs),
}

/// A fetch-and-show request.
#[derive(Debug)]
pub struct GetArgs {
    pub city: String,
    pub tomorrow: bool,
    pub day_after: bool,
}

/// An add request.
#[derive(Debug)]
pub struct AddCityArgs {
    pub city: String,
}

/// A remove request.
#[derive(Debug)]
pub struct RemoveCityArgs {
    pub city: String,
}

/// A read-from-store request.
#[derive(Debug)]
pub struct GetDbArgs {
    pub city: String,
    pub tomorrow: bool,
    pub day_after: bool,
}

/// The day offsets a request's flags ask for: tomorrow and/or the day
/// after when flagged, today alone when neither is.
pub open spec fn spec_requested_offsets(tomorrow: bool, day_after: bool) -> Seq<u64> {
    if tomorrow && day_after {
        seq![1u64, 2u64]
    } else if tomorrow {
        seq![1u64]
    } else if day_after {
        seq![2u64]
    } else {
        seq![0u64]
    }
}

/// Turn a request's day flags into the offsets to show.
pub fn requested_offsets(tomorrow: bool, day_after: bool) -> (r: Vec<u64>)
    ensures
        r@ == spec_requested_offsets(tomorrow, day_after),
{
    let mut r: Vec<u64> = Vec::new();
    if tomorrow {
        r.push(1);
    }
    if day_after {
        r.push(2);
    }
    if !tomorrow && !day_after {
        r.push(0);
    }
    proof {
        assert(r@ =~= spec_requested_offsets(tomorrow, day_after));
    }
    r
}

} // verus!
