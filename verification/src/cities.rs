//! The curated favourites: ten Belgian cities preloaded into the store on
//! startup. Coordinates are microdegrees, as everywhere in this crate.

use vstd::prelude::*;

use crate::db::{Db, db_wf, has_city, cities_view};
use crate::models::{City, CityView};

verus! {

/// The favourites, in their curated order.
pub open spec fn spec_favourite_cities() -> Seq<CityView> {
    seq![
        CityView { name: "Brussels"@, lat: 50850450, long: 4348780 },
        CityView { name: "Antwerp"@, lat: 51220470, long: 4400260 },
        CityView { name: "Grimbergen"@, lat: 50934090, long: 4372130 },
        CityView { name: "Li\u{e8}ge"@, lat: 50633730, long: 5567490 },
        CityView { name: "Louvain-la-Neuve"@, lat: 50668290, long: 4614430 },
        CityView { name: "Waterloo"@, lat: 50714690, long: 4399100 },
        CityView { name: "Bruges"@, lat: 51208920, long: 3224240 },
        CityView { name: "Leveun"@, lat: 50879590, long: 4700930 },
        CityView { name: "Knokke-Heist"@, lat: 51350000, long: 3266670 },
        CityView { name: "Dinant"@, lat: 50258070, long: 4911660 },
    ]
}

/// The favourites as values, exactly the curated list.
pub fn get_favourite_cities() -> (r: Vec<City>)
    ensures
        cities_view(r@) == spec_favourite_cities(),
{
    let mut v: Vec<City> = Vec::new();
    v.push(City { name: String::from_str("Brussels"), lat: 50850450, long: 4348780 });
    v.push(City { name: String::from_str("Antwerp"), lat: 51220470, long: 4400260 });
    v.push(City { name: String::from_str("Grimbergen"), lat: 50934090, long: 4372130 });
    v.push(City { name: String::from_str("Li\u{e8}ge"), lat: 50633730, long: 5567490 });
    v.push(City { name: String::from_str("Louvain-la-Neuve"), lat: 50668290, long: 4614430 });
    v.push(City { name: String::from_str("Waterloo"), lat: 50714690, long: 4399100 });
    v.push(City { name: String::from_str("Bruges"), lat: 51208920, long: 3224240 });
    v.push(City { name: String::from_str("Leveun"), lat: 50879590, long: 4700930 });
    v.push(City { name: String::from_str("Knokke-Heist"), lat: 51350000, long: 3266670 });
    v.push(City { name: String::from_str("Dinant"), lat: 50258070, long: 4911660 });
    proof {
        assert(cities_view(v@) =~= spec_favourite_cities());
    }
    v
}

/// The store after the first `k` favourites were inserted in order.
pub open spec fn spec_preload(db: crate::db::DbView, k: int) -> crate::db::DbView
    decreases k,
{
    if k <= 0 {
        db
    } else {
        crate::db::spec_insert_city(spec_preload(db, k - 1), spec_favourite_cities()[k - 1])
    }
}

/// Put every favourite into the store, in the curated order; each one
/// already there is left alone, so running this on every startup keeps
/// exactly one entry per favourite.
#[verifier::loop_isolation(false)]
pub fn preload_favourites(db: &mut Db)
    requires
        db_wf(old(db)@),
        old(db)@.next_id + 10 <= u64::MAX as int,
    ensures
        db_wf(final(db)@),
        final(db)@ == spec_preload(old(db)@, 10),
        forall|k: int| 0 <= k < 10 ==> has_city(final(db)@, spec_favourite_cities()[k]),
{
    let favourites = get_favourite_cities();
    proof {
        assert(spec_favourite_cities().len() == 10);
        assert(favourites@.len() == 10);
    }
    let n = favourites.len();
    let mut i: usize = 0;
    while i < n
        invariant
            n == 10,
            favourites@.len() == 10,
            i <= n,
            cities_view(favourites@) == spec_favourite_cities(),
            db_wf(db@),
            db@ == spec_preload(old(db)@, i as int),
            db@.next_id <= old(db)@.next_id + i,
            forall|k: int| 0 <= k < i ==> has_city(db@, spec_favourite_cities()[k]),
        decreases n - i,
    {
        let ghost before = db@;
        db.insert_city(&favourites[i]);
        proof {
            assert(has_city(db@, spec_favourite_cities()[i as int]));
            assert forall|k: int| 0 <= k < i implies has_city(
                db@,
                spec_favourite_cities()[k],
            ) by {
                let w = choose|w: int|
                    0 <= w < before.cities.len() && crate::models::same_triple(
                        before.cities[w].city,
                        spec_favourite_cities()[k],
                    );
                assert(db@.cities[w] == before.cities[w]);
            }
        }
        i = i + 1;
    }
}

} // verus!
