//! The forecast cache: cities and their per-day forecast rows.
//!
//! The cache is a table of cities, each under a numeric id, and a table of
//! forecast rows keyed by (city id, date text). City insertion is
//! idempotent on the (name, latitude, longitude) triple, with the name
//! compared case-insensitively; saving a forecast upserts each day
//! last-write-wins and refuses cities that were never inserted; deleting a
//! city cascades to its rows. Reads come back sorted the way the report
//! expects them: cities by name, rows by date.

use vstd::prelude::*;
use vstd::seq_lib::{group_filter_ensures, group_to_multiset_ensures};

use crate::models::{City, CityView, ForecastResponse, same_triple};
use crate::text::{same_name, name_le, text_le, folded, codes};
use crate::text::{str_same_name, str_name_le, str_text_le};
use crate::text::{lemma_lex_le_total, lemma_lex_le_trans};

verus! {

/// A stored city: its id and its fields.
struct StoredCity {
    id: u64,
    name: String,
    lat: i64,
    long: i64,
}

/// A stored forecast row. Temperatures are tenths of a degree Celsius;
/// `fetched_at` is the save's timestamp in seconds.
struct StoredRow {
    city_id: u64,
    date: String,
    weather_code: i64,
    t_min: i64,
    t_max: i64,
    t_mean: i64,
    fetched_at: i64,
}

/// One forecast row as handed back by the cache.
#[derive(Debug)]
pub struct DbDailyForecastRow {
    pub date: String,
    pub weather_code: i64,
    pub t_min: i64,
    pub t_max: i64,
    pub t_mean: i64,
}

/// The mathematical content of a returned forecast row.
pub ghost struct RowOut {
    pub date: Seq<char>,
    pub weather_code: int,
    pub t_min: int,
    pub t_max: int,
    pub t_mean: int,
}

impl View for DbDailyForecastRow {
    type V = RowOut;

    open spec fn view(&self) -> RowOut {
        RowOut {
            date: self.date@,
            weather_code: self.weather_code as int,
            t_min: self.t_min as int,
            t_max: self.t_max as int,
            t_mean: self.t_mean as int,
        }
    }
}

/// A stored city, mathematically.
pub ghost struct CityRec {
    pub id: int,
    pub city: CityView,
}

/// A stored forecast row, mathematically.
pub ghost struct RowRec {
    pub city_id: int,
    pub date: Seq<char>,
    pub weather_code: int,
    pub t_min: int,
    pub t_max: int,
    pub t_mean: int,
    pub fetched_at: int,
}

/// The whole cache, mathematically: both tables and the next free id.
pub ghost struct DbView {
    pub cities: Seq<CityRec>,
    pub rows: Seq<RowRec>,
    pub next_id: int,
}

spec fn city_rec(c: StoredCity) -> CityRec {
    CityRec {
        id: c.id as int,
        city: CityView { name: c.name@, lat: c.lat as int, long: c.long as int },
    }
}

spec fn row_rec(r: StoredRow) -> RowRec {
    RowRec {
        city_id: r.city_id as int,
        date: r.date@,
        weather_code: r.weather_code as int,
        t_min: r.t_min as int,
        t_max: r.t_max as int,
        t_mean: r.t_mean as int,
        fetched_at: r.fetched_at as int,
    }
}

/// What a returned row keeps of a stored one: everything but the city id
/// and the fetch timestamp.
pub open spec fn row_out(r: RowRec) -> RowOut {
    RowOut {
        date: r.date,
        weather_code: r.weather_code,
        t_min: r.t_min,
        t_max: r.t_max,
        t_mean: r.t_mean,
    }
}

/// The forecast cache.
pub struct Db {
    cities: Vec<StoredCity>,
    rows: Vec<StoredRow>,
    next_id: u64,
}

impl View for Db {
    type V = DbView;

    closed spec fn view(&self) -> DbView {
        DbView {
            cities: self.cities@.map_values(|c: StoredCity| city_rec(c)),
            rows: self.rows@.map_values(|r: StoredRow| row_rec(r)),
            next_id: self.next_id as int,
        }
    }
}

/// A forecast-cache failure.
#[derive(Debug, PartialEq, Eq, Structural)]
pub enum DbError {
    /// A forecast operation referenced a city absent from the store.
    UnknownCity,
}

/// Whether some stored city carries the given id.
pub open spec fn has_city_id(cities: Seq<CityRec>, id: int) -> bool {
    exists|k: int| 0 <= k < cities.len() && cities[k].id == id
}

/// Whether the given id belongs to a stored city of the given
/// (case-insensitive) name.
pub open spec fn id_named(cities: Seq<CityRec>, id: int, name: Seq<char>) -> bool {
    exists|k: int|
        0 <= k < cities.len() && cities[k].id == id && same_name(cities[k].city.name, name)
}

/// Whether the cache holds this city triple.
pub open spec fn has_city(db: DbView, c: CityView) -> bool {
    exists|i: int| 0 <= i < db.cities.len() && same_triple(db.cities[i].city, c)
}

/// The id under which this city triple is stored.
pub open spec fn city_id_of(db: DbView, c: CityView) -> int {
    db.cities[choose|i: int| 0 <= i < db.cities.len() && same_triple(db.cities[i].city, c)].id
}

/// The stored cities matching a triple.
pub open spec fn cities_with(db: DbView, c: CityView) -> Seq<CityRec> {
    db.cities.filter(|r: CityRec| same_triple(r.city, c))
}

/// The cache's invariant: city ids are unique and below the next free id,
/// city triples are unique, every row references a stored city, and row
/// keys (city id, date) are unique.
pub open spec fn db_wf(db: DbView) -> bool {
    &&& forall|i: int, j: int|
        0 <= i < j < db.cities.len() ==> db.cities[i].id != db.cities[j].id
    &&& forall|i: int, j: int|
        0 <= i < j < db.cities.len() ==> !same_triple(db.cities[i].city, db.cities[j].city)
    &&& forall|i: int| 0 <= i < db.cities.len() ==> 0 <= #[trigger] db.cities[i].id < db.next_id
    &&& forall|i: int|
        0 <= i < db.rows.len() ==> has_city_id(db.cities, #[trigger] db.rows[i].city_id)
    &&& forall|i: int, j: int|
        0 <= i < j < db.rows.len() ==> !(db.rows[i].city_id == db.rows[j].city_id
            && db.rows[i].date == db.rows[j].date)
}

/// Inserting a city: a no-op when the triple is already stored, otherwise
/// the city is appended under the next free id.
pub open spec fn spec_insert_city(db: DbView, c: CityView) -> DbView {
    if has_city(db, c) {
        db
    } else {
        DbView {
            cities: db.cities.push(CityRec { id: db.next_id, city: c }),
            rows: db.rows,
            next_id: db.next_id + 1,
        }
    }
}

/// A sequence with no matching element filters to nothing.
proof fn lemma_filter_empty<A>(s: Seq<A>, pred: spec_fn(A) -> bool)
    requires
        forall|i: int| 0 <= i < s.len() ==> !pred(s[i]),
    ensures
        s.filter(pred) == Seq::<A>::empty(),
    decreases s.len(),
{
    reveal(Seq::filter);
    if s.len() > 0 {
        lemma_filter_empty(s.drop_last(), pred);
    }
}

/// A sequence with exactly one matching element filters to length one.
proof fn lemma_filter_single<A>(s: Seq<A>, pred: spec_fn(A) -> bool)
    requires
        exists|i: int| 0 <= i < s.len() && pred(s[i]),
        forall|i: int, j: int| 0 <= i < j < s.len() ==> !(pred(s[i]) && pred(s[j])),
    ensures
        s.filter(pred).len() == 1,
    decreases s.len(),
{
    reveal(Seq::filter);
    let w = choose|i: int| 0 <= i < s.len() && pred(s[i]);
    if w == s.len() - 1 {
        lemma_filter_empty(s.drop_last(), pred);
    } else {
        assert(!pred(s.last()));
        assert(pred(s.drop_last()[w]));
        lemma_filter_single(s.drop_last(), pred);
    }
}

impl Db {
    /// An empty cache.
    pub fn new() -> (r: Db)
        ensures
            db_wf(r@),
            r@.cities == Seq::<CityRec>::empty(),
            r@.rows == Seq::<RowRec>::empty(),
            r@.next_id == 1,
    {
        let r = Db { cities: Vec::new(), rows: Vec::new(), next_id: 1 };
        proof {
            assert(r@.cities =~= Seq::<CityRec>::empty());
            assert(r@.rows =~= Seq::<RowRec>::empty());
        }
        r
    }

    /// How many fresh city ids are still free: what an insertion, and a
    /// preload of the favourites, demand before they run.
    pub fn remaining_ids(&self) -> (r: u64)
        ensures
            r as int == u64::MAX as int - self@.next_id,
    {
        u64::MAX - self.next_id
    }

    /// Insert a city: a new triple is appended, one already stored (its
    /// name compared case-insensitively) leaves the cache exactly as it
    /// was. Afterwards the cache holds exactly one entry for the triple.
    pub fn insert_city(&mut self, city: &City)
        requires
            db_wf(old(self)@),
            old(self)@.next_id < u64::MAX as int,
        ensures
            db_wf(final(self)@),
            final(self)@ == spec_insert_city(old(self)@, city@),
            has_city(final(self)@, city@),
            cities_with(final(self)@, city@).len() == 1,
    {
        let n = self.cities.len();
        let mut i: usize = 0;
        while i < n
            invariant
                db_wf(self@),
                self@ == old(self)@,
                n == self.cities@.len(),
                i <= n,
                forall|k: int| 0 <= k < i ==> !same_triple(self@.cities[k].city, city@),
            decreases n - i,
        {
            let c = &self.cities[i];
            if c.lat == city.lat && c.long == city.long && str_same_name(&c.name, &city.name) {
                proof {
                    assert(same_triple(self@.cities[i as int].city, city@));
                    assert forall|a: int, b: int|
                        0 <= a < b < self@.cities.len() implies !(same_triple(
                        self@.cities[a].city,
                        city@,
                    ) && same_triple(self@.cities[b].city, city@)) by {
                        assert(!same_triple(self@.cities[a].city, self@.cities[b].city));
                    }
                    lemma_filter_single(
                        self@.cities,
                        |r: CityRec| same_triple(r.city, city@),
                    );
                }
                return;
            }
            i = i + 1;
        }
        proof {
            assert(!has_city(self@, city@));
        }
        let ghost before = self@;
        let rec = StoredCity {
            id: self.next_id,
            name: city.name.clone(),
            lat: city.lat,
            long: city.long,
        };
        self.cities.push(rec);
        self.next_id = self.next_id + 1;
        proof {
            assert(self@.cities =~= before.cities.push(
                CityRec { id: before.next_id, city: city@ },
            ));
            assert(self@.rows =~= before.rows);
            assert(self@ == spec_insert_city(before, city@));
            assert(same_triple(self@.cities[before.cities.len() as int].city, city@));
            assert forall|k: int| 0 <= k < self@.rows.len() implies has_city_id(
                self@.cities,
                #[trigger] self@.rows[k].city_id,
            ) by {
                assert(has_city_id(before.cities, before.rows[k].city_id));
                let w = choose|j: int|
                    0 <= j < before.cities.len() && before.cities[j].id == before.rows[
                        k
                    ].city_id;
                assert(self@.cities[w].id == self@.rows[k].city_id);
            }
            assert forall|a: int, b: int|
                0 <= a < b < self@.cities.len() implies !(same_triple(
                self@.cities[a].city,
                city@,
            ) && same_triple(self@.cities[b].city, city@)) by {
                if b < before.cities.len() {
                    assert(!same_triple(self@.cities[a].city, self@.cities[b].city));
                }
            }
            lemma_filter_single(self@.cities, |r: CityRec| same_triple(r.city, city@));
        }
    }
}

/// Deleting by name: every city whose name matches case-insensitively
/// leaves the city table, and every forecast row belonging to such a city
/// leaves the row table with it.
pub open spec fn spec_delete_city(db: DbView, name: Seq<char>) -> DbView {
    DbView {
        cities: db.cities.filter(|c: CityRec| !same_name(c.city.name, name)),
        rows: db.rows.filter(|r: RowRec| !id_named(db.cities, r.city_id, name)),
        next_id: db.next_id,
    }
}

/// Filtering a sequence extended by one element filters the extension.
proof fn lemma_filter_push<A>(s: Seq<A>, pred: spec_fn(A) -> bool, e: A)
    ensures
        s.push(e).filter(pred) == if pred(e) {
            s.filter(pred).push(e)
        } else {
            s.filter(pred)
        },
{
    reveal(Seq::filter);
    assert(s.push(e).drop_last() =~= s);
    assert(s.push(e).last() == e);
}

impl Db {
    /// The position of the city stored under `id`, if any.
    fn city_index_of_id(&self, id: u64) -> (r: Option<usize>)
        ensures
            r matches Some(k) ==> k < self@.cities.len() && self@.cities[k as int].id == id as int,
            r is None ==> !has_city_id(self@.cities, id as int),
    {
        let n = self.cities.len();
        let mut i: usize = 0;
        while i < n
            invariant
                n == self@.cities.len(),
                i <= n,
                forall|k: int| 0 <= k < i ==> self@.cities[k].id != id as int,
            decreases n - i,
        {
            if self.cities[i].id == id {
                return Some(i);
            }
            i = i + 1;
        }
        None
    }

    /// Delete every city whose name matches case-insensitively, and with
    /// each one all of its forecast rows; returns how many cities left the
    /// store.
    #[verifier::loop_isolation(false)]
    pub fn delete_city(&mut self, name: &str) -> (r: usize)
        requires
            db_wf(old(self)@),
        ensures
            db_wf(final(self)@),
            final(self)@ == spec_delete_city(old(self)@, name@),
            r as int == old(self)@.cities.len() - final(self)@.cities.len(),
    {
        let ghost dbv0 = self@;
        let ghost keep_row = |r: RowRec| !id_named(dbv0.cities, r.city_id, name@);
        let ghost keep_city = |c: CityRec| !same_name(c.city.name, name@);
        // First drop the rows of every matching city, then the cities.
        let mut i: usize = 0;
        let ghost mut j: int = 0;
        while i < self.rows.len()
            invariant
                db_wf(dbv0),
                self@.cities == dbv0.cities,
                self@.next_id == dbv0.next_id,
                0 <= j <= dbv0.rows.len(),
                i as int == dbv0.rows.take(j).filter(keep_row).len(),
                self@.rows =~= dbv0.rows.take(j).filter(keep_row) + dbv0.rows.skip(j),
            decreases dbv0.rows.len() - j,
        {
            proof {
                assert(self@.rows.len() == i + (dbv0.rows.len() - j));
                assert(self@.rows[i as int] == dbv0.rows[j]);
                assert(dbv0.rows.take(j + 1) =~= dbv0.rows.take(j).push(dbv0.rows[j]));
                lemma_filter_push(dbv0.rows.take(j), keep_row, dbv0.rows[j]);
            }
            let rid = self.rows[i].city_id;
            proof {
                assert(has_city_id(dbv0.cities, dbv0.rows[j].city_id));
            }
            let k = match self.city_index_of_id(rid) {
                Some(k) => k,
                None => {
                    // unreachable: every row references a stored city
                    proof {
                        assert(false);
                    }
                    return 0;
                },
            };
            let is_named = str_same_name(&self.cities[k].name, name);
            proof {
                if is_named {
                    assert(id_named(dbv0.cities, dbv0.rows[j].city_id, name@));
                } else {
                    if id_named(dbv0.cities, dbv0.rows[j].city_id, name@) {
                        let w = choose|w: int|
                            0 <= w < dbv0.cities.len() && dbv0.cities[w].id == dbv0.rows[
                                j
                            ].city_id && same_name(dbv0.cities[w].city.name, name@);
                        assert(w == k as int);
                        assert(same_name(self@.cities[k as int].city.name, name@));
                        assert(false);
                    }
                }
            }
            let ghost fpart = dbv0.rows.take(j).filter(keep_row);
            if is_named {
                let ghost rows_before = self@.rows;
                self.rows.remove(i);
                proof {
                    assert(!keep_row(dbv0.rows[j]));
                    assert(self@.rows =~= rows_before.remove(i as int));
                    assert(rows_before.remove(i as int) =~= fpart + dbv0.rows.skip(j + 1));
                    assert(self@.rows =~= dbv0.rows.take(j + 1).filter(keep_row)
                        + dbv0.rows.skip(j + 1));
                    j = j + 1;
                }
            } else {
                i = i + 1;
                proof {
                    assert(keep_row(dbv0.rows[j]));
                    assert(self@.rows =~= fpart.push(dbv0.rows[j]) + dbv0.rows.skip(j + 1));
                    assert(self@.rows =~= dbv0.rows.take(j + 1).filter(keep_row)
                        + dbv0.rows.skip(j + 1));
                    j = j + 1;
                }
            }
        }
        proof {
            assert(dbv0.rows.take(dbv0.rows.len() as int) =~= dbv0.rows);
            assert(self@.rows =~= dbv0.rows.filter(keep_row));
        }
        // Now the cities themselves.
        let ghost rows1 = self@.rows;
        let total = self.cities.len();
        let mut removed: usize = 0;
        let mut ci: usize = 0;
        let ghost mut cj: int = 0;
        while ci < self.cities.len()
            invariant
                db_wf(dbv0),
                self@.rows == rows1,
                rows1 == dbv0.rows.filter(keep_row),
                self@.next_id == dbv0.next_id,
                total == dbv0.cities.len(),
                0 <= cj <= dbv0.cities.len(),
                ci as int == dbv0.cities.take(cj).filter(keep_city).len(),
                removed as int == cj - ci,
                self@.cities =~= dbv0.cities.take(cj).filter(keep_city) + dbv0.cities.skip(cj),
            decreases dbv0.cities.len() - cj,
        {
            proof {
                assert(self@.cities.len() == ci + (dbv0.cities.len() - cj));
                assert(self@.cities[ci as int] == dbv0.cities[cj]);
                assert(dbv0.cities.take(cj + 1) =~= dbv0.cities.take(cj).push(dbv0.cities[cj]));
                lemma_filter_push(dbv0.cities.take(cj), keep_city, dbv0.cities[cj]);
            }
            let ghost fpart = dbv0.cities.take(cj).filter(keep_city);
            if str_same_name(&self.cities[ci].name, name) {
                let ghost cities_before = self@.cities;
                self.cities.remove(ci);
                removed = removed + 1;
                proof {
                    assert(!keep_city(dbv0.cities[cj]));
                    assert(self@.cities =~= cities_before.remove(ci as int));
                    assert(cities_before.remove(ci as int) =~= fpart + dbv0.cities.skip(cj + 1));
                    assert(self@.cities =~= dbv0.cities.take(cj + 1).filter(keep_city)
                        + dbv0.cities.skip(cj + 1));
                    cj = cj + 1;
                }
            } else {
                ci = ci + 1;
                proof {
                    assert(keep_city(dbv0.cities[cj]));
                    assert(self@.cities =~= fpart.push(dbv0.cities[cj])
                        + dbv0.cities.skip(cj + 1));
                    assert(self@.cities =~= dbv0.cities.take(cj + 1).filter(keep_city)
                        + dbv0.cities.skip(cj + 1));
                    cj = cj + 1;
                }
            }
        }
        proof {
            assert(dbv0.cities.take(dbv0.cities.len() as int) =~= dbv0.cities);
            assert(self@.cities =~= dbv0.cities.filter(keep_city));
            assert(self@ == spec_delete_city(dbv0, name@));
            lemma_delete_city_wf(dbv0, name@);
        }
        removed
    }
}

/// Deletion keeps the cache well formed: the survivors of both tables keep
/// their uniqueness, and a surviving row's city survives with it.
proof fn lemma_delete_city_wf(db: DbView, name: Seq<char>)
    requires
        db_wf(db),
    ensures
        db_wf(spec_delete_city(db, name)),
{
    broadcast use group_filter_ensures;

    let keep_city = |c: CityRec| !same_name(c.city.name, name);
    let keep_row = |r: RowRec| !id_named(db.cities, r.city_id, name);
    let db1 = spec_delete_city(db, name);
    let ids_differ = |a: CityRec, b: CityRec| a.id != b.id;
    let triples_differ = |a: CityRec, b: CityRec| !same_triple(a.city, b.city);
    let keys_differ = |a: RowRec, b: RowRec| !(a.city_id == b.city_id && a.date == b.date);
    lemma_filter_keeps_pairs(db.cities, keep_city, ids_differ);
    lemma_filter_keeps_pairs(db.cities, keep_city, triples_differ);
    lemma_filter_keeps_pairs(db.rows, keep_row, keys_differ);
    assert forall|i: int, j: int|
        0 <= i < j < db1.cities.len() implies db1.cities[i].id != db1.cities[j].id by {
        assert(ids_differ(db1.cities[i], db1.cities[j]));
    }
    assert forall|i: int, j: int|
        0 <= i < j < db1.cities.len() implies !same_triple(
        db1.cities[i].city,
        db1.cities[j].city,
    ) by {
        assert(triples_differ(db1.cities[i], db1.cities[j]));
    }
    assert forall|i: int, j: int|
        0 <= i < j < db1.rows.len() implies !(db1.rows[i].city_id == db1.rows[j].city_id
        && db1.rows[i].date == db1.rows[j].date) by {
        assert(keys_differ(db1.rows[i], db1.rows[j]));
    }
    assert forall|i: int| 0 <= i < db1.cities.len() implies 0 <= #[trigger] db1.cities[i].id
        < db1.next_id by {
        lemma_filter_is_elem(db.cities, keep_city, i);
        let w = choose|w: int| 0 <= w < db.cities.len() && db.cities[w] == db1.cities[i];
        assert(0 <= db.cities[w].id < db.next_id);
    }
    assert forall|i: int| 0 <= i < db1.rows.len() implies has_city_id(
        db1.cities,
        #[trigger] db1.rows[i].city_id,
    ) by {
        assert(keep_row(db1.rows[i]));
        let r = db1.rows[i];
        lemma_filter_is_elem(db.rows, keep_row, i);
        let w = choose|w: int| 0 <= w < db.rows.len() && db.rows[w] == r;
        assert(has_city_id(db.cities, db.rows[w].city_id));
        let c = choose|c: int| 0 <= c < db.cities.len() && db.cities[c].id == r.city_id;
        assert(keep_city(db.cities[c]));
        assert(db.cities.filter(keep_city).contains(db.cities[c]));
        let k = choose|k: int|
            0 <= k < db1.cities.len() && db1.cities[k] == db.cities[c];
        assert(db1.cities[k].id == r.city_id);
    }
}

/// A pairwise property of a sequence survives filtering.
proof fn lemma_filter_keeps_pairs<A>(
    s: Seq<A>,
    pred: spec_fn(A) -> bool,
    rel: spec_fn(A, A) -> bool,
)
    requires
        forall|i: int, j: int| 0 <= i < j < s.len() ==> #[trigger] rel(s[i], s[j]),
    ensures
        forall|i: int, j: int|
            0 <= i < j < s.filter(pred).len() ==> #[trigger] rel(s.filter(pred)[i], s.filter(pred)[j]),
    decreases s.len(),
{
    reveal(Seq::filter);
    if s.len() > 0 {
        lemma_filter_keeps_pairs(s.drop_last(), pred, rel);
        let f = s.filter(pred);
        let g = s.drop_last().filter(pred);
        if pred(s.last()) {
            assert(f =~= g.push(s.last()));
            assert forall|i: int, j: int| 0 <= i < j < f.len() implies #[trigger] rel(
                f[i],
                f[j],
            ) by {
                if j < f.len() - 1 {
                    assert(rel(g[i], g[j]));
                } else {
                    assert(f[i] == g[i]);
                    lemma_filter_is_elem(s.drop_last(), pred, i);
                    let w = choose|w: int|
                        0 <= w < s.drop_last().len() && s.drop_last()[w] == g[i];
                    assert(rel(s[w], s[s.len() - 1]));
                }
            }
        } else {
            assert(f =~= g);
        }
    }
}

/// Every element of a filtered sequence stands somewhere in the original.
proof fn lemma_filter_is_elem<A>(s: Seq<A>, pred: spec_fn(A) -> bool, i: int)
    requires
        0 <= i < s.filter(pred).len(),
    ensures
        exists|w: int| 0 <= w < s.len() && s[w] == s.filter(pred)[i],
    decreases s.len(),
{
    reveal(Seq::filter);
    if s.len() > 0 {
        let g = s.drop_last().filter(pred);
        if i < g.len() {
            lemma_filter_is_elem(s.drop_last(), pred, i);
            let w = choose|w: int| 0 <= w < s.drop_last().len() && s.drop_last()[w] == g[i];
            assert(s[w] == s.filter(pred)[i]);
        } else {
            assert(pred(s.last()));
            assert(s.filter(pred)[i] == s.last());
            assert(s[s.len() - 1] == s.filter(pred)[i]);
        }
    }
}

/// After a deletion no city of that name is left, and no surviving row
/// belonged to a city of that name: a forecast lookup for such a city can
/// only answer `UnknownCity`.
pub proof fn lemma_delete_city_cascade(db: DbView, name: Seq<char>)
    requires
        db_wf(db),
    ensures
        forall|c: CityView|
            same_name(c.name, name) ==> !has_city(spec_delete_city(db, name), c),
        forall|i: int|
            0 <= i < spec_delete_city(db, name).rows.len() ==> !id_named(
                db.cities,
                #[trigger] spec_delete_city(db, name).rows[i].city_id,
                name,
            ),
{
    broadcast use group_filter_ensures;

    let db1 = spec_delete_city(db, name);
    let keep_city = |c: CityRec| !same_name(c.city.name, name);
    let keep_row = |r: RowRec| !id_named(db.cities, r.city_id, name);
    assert forall|c: CityView| same_name(c.name, name) implies !has_city(db1, c) by {
        if has_city(db1, c) {
            let i = choose|i: int|
                0 <= i < db1.cities.len() && same_triple(db1.cities[i].city, c);
            assert(keep_city(db1.cities[i]));
            assert(same_name(db1.cities[i].city.name, c.name));
        }
    }
    assert forall|i: int| 0 <= i < db1.rows.len() implies !id_named(
        db.cities,
        #[trigger] db1.rows[i].city_id,
        name,
    ) by {
        assert(keep_row(db1.rows[i]));
    }
}

/// Whether two rows share their (city id, date) key.
pub open spec fn row_key_eq(a: RowRec, b: RowRec) -> bool {
    a.city_id == b.city_id && a.date == b.date
}

/// Upserting one row: when a row with the same key is stored it is
/// overwritten in place, otherwise the row is appended.
pub open spec fn spec_upsert_row(rows: Seq<RowRec>, r: RowRec) -> Seq<RowRec> {
    if exists|i: int| 0 <= i < rows.len() && row_key_eq(rows[i], r) {
        rows.update(choose|i: int| 0 <= i < rows.len() && row_key_eq(rows[i], r), r)
    } else {
        rows.push(r)
    }
}

/// Day `k` of a forecast response as a row for the city stored under `id`.
pub open spec fn spec_day_row(fr: &ForecastResponse, id: int, k: int, fetched_at: int) -> RowRec {
    RowRec {
        city_id: id,
        date: fr.daily.time@[k]@,
        weather_code: fr.daily.weather_code@[k] as int,
        t_min: fr.daily.temperature_2m_min@[k] as int,
        t_max: fr.daily.temperature_2m_max@[k] as int,
        t_mean: fr.daily.temperature_2m_mean@[k] as int,
        fetched_at: fetched_at,
    }
}

/// The first `n` days of a forecast upserted in order.
pub open spec fn spec_upsert_batch(
    rows: Seq<RowRec>,
    fr: &ForecastResponse,
    id: int,
    n: int,
    fetched_at: int,
) -> Seq<RowRec>
    decreases n,
{
    if n <= 0 {
        rows
    } else {
        spec_upsert_row(
            spec_upsert_batch(rows, fr, id, n - 1, fetched_at),
            spec_day_row(fr, id, n - 1, fetched_at),
        )
    }
}

impl Db {
    /// The first stored city whose name matches case-insensitively, the
    /// way a lookup by name alone answers.
    pub fn get_city_by_name(&self, name: &str) -> (r: Option<City>)
        ensures
            r is None ==> forall|i: int|
                0 <= i < self@.cities.len() ==> !same_name(
                    (#[trigger] self@.cities[i]).city.name,
                    name@,
                ),
            r matches Some(c) ==> exists|i: int|
                0 <= i < self@.cities.len() && same_name(
                    (#[trigger] self@.cities[i]).city.name,
                    name@,
                ) && c@ == self@.cities[i].city && (forall|k: int|
                    0 <= k < i ==> !same_name((#[trigger] self@.cities[k]).city.name, name@)),
    {
        let n = self.cities.len();
        let mut i: usize = 0;
        while i < n
            invariant
                n == self@.cities.len(),
                i <= n,
                forall|k: int|
                    0 <= k < i ==> !same_name((#[trigger] self@.cities[k]).city.name, name@),
            decreases n - i,
        {
            let c = &self.cities[i];
            if str_same_name(&c.name, name) {
                let r = City { name: c.name.clone(), lat: c.lat, long: c.long };
                proof {
                    assert(same_name(self@.cities[i as int].city.name, name@));
                    assert(r@ == self@.cities[i as int].city);
                }
                return Some(r);
            }
            i = i + 1;
        }
        None
    }

    /// The id the given city triple is stored under, if it is stored.
    fn get_city_id(&self, city: &City) -> (r: Option<u64>)
        requires
            db_wf(self@),
        ensures
            r matches Some(id) ==> has_city(self@, city@) && id as int == city_id_of(
                self@,
                city@,
            ),
            r is None ==> !has_city(self@, city@),
    {
        let n = self.cities.len();
        let mut i: usize = 0;
        while i < n
            invariant
                db_wf(self@),
                n == self@.cities.len(),
                i <= n,
                forall|k: int| 0 <= k < i ==> !same_triple(self@.cities[k].city, city@),
            decreases n - i,
        {
            let c = &self.cities[i];
            if c.lat == city.lat && c.long == city.long && str_same_name(&c.name, &city.name) {
                proof {
                    assert(same_triple(self@.cities[i as int].city, city@));
                    let w = choose|w: int|
                        0 <= w < self@.cities.len() && same_triple(self@.cities[w].city, city@);
                    if w < i as int {
                        assert(same_triple(self@.cities[w].city, self@.cities[i as int].city));
                        assert(false);
                    } else if (i as int) < w {
                        assert(same_triple(self@.cities[i as int].city, self@.cities[w].city));
                        assert(false);
                    }
                }
                return Some(self.cities[i].id);
            }
            i = i + 1;
        }
        None
    }

    /// The position of the row stored under (id, date), if any.
    fn find_row_index(&self, id: u64, date: &String) -> (r: Option<usize>)
        ensures
            r matches Some(k) ==> k < self@.rows.len() && self@.rows[k as int].city_id
                == id as int && self@.rows[k as int].date == date@,
            r is None ==> forall|w: int|
                0 <= w < self@.rows.len() ==> !((#[trigger] self@.rows[w]).city_id == id as int
                    && self@.rows[w].date == date@),
    {
        let n = self.rows.len();
        let mut k: usize = 0;
        while k < n
            invariant
                n == self@.rows.len(),
                k <= n,
                forall|w: int|
                    0 <= w < k ==> !((#[trigger] self@.rows[w]).city_id == id as int
                        && self@.rows[w].date == date@),
            decreases n - k,
        {
            if self.rows[k].city_id == id && self.rows[k].date == *date {
                return Some(k);
            }
            k = k + 1;
        }
        None
    }

    /// Save a forecast for a city already in the store: each day of the
    /// batch is upserted under (city, date), overwriting any stored row for
    /// the same day. A city never inserted is refused with `UnknownCity`
    /// and the store is left untouched, no day of the batch written.
    #[verifier::loop_isolation(false)]
    pub fn save_forecast_for_city(
        &mut self,
        city: &City,
        forecast: &ForecastResponse,
        fetched_at: i64,
    ) -> (r: Result<(), DbError>)
        requires
            db_wf(old(self)@),
            forecast.wf(),
        ensures
            db_wf(final(self)@),
            r is Ok <==> has_city(old(self)@, city@),
            r is Err ==> final(self)@ == old(self)@ && r == Err::<(), DbError>(
                DbError::UnknownCity,
            ),
            r is Ok ==> final(self)@.cities == old(self)@.cities && final(self)@.next_id == old(
                self,
            )@.next_id && final(self)@.rows == spec_upsert_batch(
                old(self)@.rows,
                forecast,
                city_id_of(old(self)@, city@),
                forecast.daily.time@.len() as int,
                fetched_at as int,
            ),
    {
        let id = match self.get_city_id(city) {
            Some(id) => id,
            None => {
                return Err(DbError::UnknownCity);
            },
        };
        let ghost rows0 = self@.rows;
        let ghost idg = id as int;
        let n = forecast.len();
        let mut day: usize = 0;
        while day < n
            invariant
                day <= n,
                db_wf(self@),
                self@.cities == old(self)@.cities,
                self@.next_id == old(self)@.next_id,
                self@.rows == spec_upsert_batch(rows0, forecast, idg, day as int, fetched_at as int),
            decreases n - day,
        {
            let date = &forecast.daily.time[day];
            let new_row = StoredRow {
                city_id: id,
                date: forecast.daily.time[day].clone(),
                weather_code: forecast.daily.weather_code[day] as i64,
                t_min: forecast.daily.temperature_2m_min[day],
                t_max: forecast.daily.temperature_2m_max[day],
                t_mean: forecast.daily.temperature_2m_mean[day],
                fetched_at: fetched_at,
            };
            proof {
                assert(row_rec(new_row) == spec_day_row(
                    forecast,
                    idg,
                    day as int,
                    fetched_at as int,
                ));
            }
            let ghost rows_cur = self@.rows;
            match self.find_row_index(id, date) {
                Some(k) => {
                    proof {
                        assert(row_key_eq(
                            rows_cur[k as int],
                            spec_day_row(forecast, idg, day as int, fetched_at as int),
                        ));
                        let w = choose|w: int|
                            0 <= w < rows_cur.len() && row_key_eq(
                                rows_cur[w],
                                spec_day_row(forecast, idg, day as int, fetched_at as int),
                            );
                        if w != k as int {
                            assert(rows_cur[w].city_id == rows_cur[k as int].city_id
                                && rows_cur[w].date == rows_cur[k as int].date);
                            assert(false);
                        }
                    }
                    let ghost before = self@.rows;
                    self.rows.remove(k);
                    self.rows.insert(k, new_row);
                    proof {
                        assert(self@.rows =~= before.update(
                            k as int,
                            spec_day_row(forecast, idg, day as int, fetched_at as int),
                        ));
                        assert(self@.rows == spec_upsert_row(
                            rows_cur,
                            spec_day_row(forecast, idg, day as int, fetched_at as int),
                        ));
                    }
                },
                None => {
                    self.rows.push(new_row);
                    proof {
                        assert(self@.rows =~= rows_cur.push(
                            spec_day_row(forecast, idg, day as int, fetched_at as int),
                        ));
                        assert(self@.rows == spec_upsert_row(
                            rows_cur,
                            spec_day_row(forecast, idg, day as int, fetched_at as int),
                        ));
                    }
                },
            }
            day = day + 1;
        }
        Ok(())
    }
}

/// A sequence of returned rows as its mathematical content.
pub open spec fn rows_view(v: Seq<DbDailyForecastRow>) -> Seq<RowOut> {
    v.map_values(|x: DbDailyForecastRow| x@)
}

/// A sequence of cities as its mathematical content.
pub open spec fn cities_view(v: Seq<City>) -> Seq<CityView> {
    v.map_values(|x: City| x@)
}

/// Where to insert a row among date-sorted rows: after everything no later.
fn insert_pos_rows(sorted: &Vec<DbDailyForecastRow>, x: &DbDailyForecastRow) -> (p: usize)
    ensures
        p <= sorted@.len(),
        forall|k: int| 0 <= k < p ==> text_le((#[trigger] sorted@[k]).date@, x.date@),
        p < sorted@.len() ==> text_le(x.date@, sorted@[p as int].date@),
{
    let n = sorted.len();
    let mut p: usize = 0;
    while p < n
        invariant
            n == sorted@.len(),
            p <= n,
            forall|k: int| 0 <= k < p ==> text_le((#[trigger] sorted@[k]).date@, x.date@),
        decreases n - p,
    {
        if !str_text_le(&sorted[p].date, &x.date) {
            proof {
                lemma_lex_le_total(codes(sorted@[p as int].date@), codes(x.date@));
            }
            return p;
        }
        p = p + 1;
    }
    p
}

/// Sort rows by their date text, keeping exactly the same rows.
#[verifier::loop_isolation(false)]
fn sort_rows(input: Vec<DbDailyForecastRow>) -> (r: Vec<DbDailyForecastRow>)
    ensures
        rows_view(r@).to_multiset() == rows_view(input@).to_multiset(),
        forall|a: int, b: int|
            0 <= a < b < r@.len() ==> text_le((#[trigger] r@[a]).date@, (#[trigger] r@[b]).date@),
{
    broadcast use group_to_multiset_ensures;
    broadcast use vstd::multiset::group_multiset_axioms;

    let ghost m0 = rows_view(input@).to_multiset();
    let mut rest = input;
    let mut sorted: Vec<DbDailyForecastRow> = Vec::new();
    proof {
        assert(rows_view(sorted@) =~= Seq::<RowOut>::empty());
        assert(rows_view(sorted@).to_multiset().add(rows_view(rest@).to_multiset()) =~= m0);
    }
    while rest.len() > 0
        invariant
            rows_view(sorted@).to_multiset().add(rows_view(rest@).to_multiset()) == m0,
            forall|a: int, b: int|
                0 <= a < b < sorted@.len() ==> text_le(
                    (#[trigger] sorted@[a]).date@,
                    (#[trigger] sorted@[b]).date@,
                ),
        decreases rest@.len(),
    {
        let ghost iv = rows_view(rest@);
        let ghost sv = rows_view(sorted@);
        let x = rest.remove(0);
        proof {
            assert(rows_view(rest@) =~= iv.remove(0));
            assert(iv[0] == x@);
            assert(iv.contains(x@));
        }
        let p = insert_pos_rows(&sorted, &x);
        let ghost old_sorted = sorted@;
        sorted.insert(p, x);
        proof {
            assert(rows_view(sorted@) =~= sv.insert(p as int, x@));
            assert(rows_view(sorted@).to_multiset().add(rows_view(rest@).to_multiset())
                =~= m0);
            assert forall|a: int, b: int|
                0 <= a < b < sorted@.len() implies text_le(
                (#[trigger] sorted@[a]).date@,
                (#[trigger] sorted@[b]).date@,
            ) by {
                if b < p as int {
                    assert(sorted@[a] == old_sorted[a] && sorted@[b] == old_sorted[b]);
                } else if a < p as int && b == p as int {
                    assert(text_le(old_sorted[a].date@, x.date@));
                } else if a < p as int && b > p as int {
                    assert(sorted@[b] == old_sorted[b - 1]);
                    assert(text_le(old_sorted[a].date@, old_sorted[b - 1].date@));
                } else if a == p as int {
                    assert(sorted@[b] == old_sorted[b - 1]);
                    if p as int <= b - 2 {
                        assert(text_le(x.date@, old_sorted[p as int].date@));
                        assert(text_le(old_sorted[p as int].date@, old_sorted[b - 1].date@));
                        lemma_lex_le_trans(
                            codes(x.date@),
                            codes(old_sorted[p as int].date@),
                            codes(old_sorted[b - 1].date@),
                        );
                    } else {
                        assert(b - 1 == p as int);
                        assert(text_le(x.date@, old_sorted[p as int].date@));
                    }
                } else {
                    assert(sorted@[a] == old_sorted[a - 1] && sorted@[b] == old_sorted[b - 1]);
                }
            }
        }
    }
    proof {
        assert(rows_view(rest@) =~= Seq::<RowOut>::empty());
        assert(rows_view(sorted@).to_multiset() =~= m0);
    }
    sorted
}

/// Where to insert a city among name-sorted cities: after everything no
/// later in case-insensitive order.
fn insert_pos_cities(sorted: &Vec<City>, x: &City) -> (p: usize)
    ensures
        p <= sorted@.len(),
        forall|k: int| 0 <= k < p ==> name_le((#[trigger] sorted@[k]).name@, x.name@),
        p < sorted@.len() ==> name_le(x.name@, sorted@[p as int].name@),
{
    let n = sorted.len();
    let mut p: usize = 0;
    while p < n
        invariant
            n == sorted@.len(),
            p <= n,
            forall|k: int| 0 <= k < p ==> name_le((#[trigger] sorted@[k]).name@, x.name@),
        decreases n - p,
    {
        if !str_name_le(&sorted[p].name, &x.name) {
            proof {
                lemma_lex_le_total(folded(sorted@[p as int].name@), folded(x.name@));
            }
            return p;
        }
        p = p + 1;
    }
    p
}

/// Sort cities by name, keeping exactly the same cities.
#[verifier::loop_isolation(false)]
fn sort_cities(input: Vec<City>) -> (r: Vec<City>)
    ensures
        cities_view(r@).to_multiset() == cities_view(input@).to_multiset(),
        forall|a: int, b: int|
            0 <= a < b < r@.len() ==> name_le((#[trigger] r@[a]).name@, (#[trigger] r@[b]).name@),
{
    broadcast use group_to_multiset_ensures;
    broadcast use vstd::multiset::group_multiset_axioms;

    let ghost m0 = cities_view(input@).to_multiset();
    let mut rest = input;
    let mut sorted: Vec<City> = Vec::new();
    proof {
        assert(cities_view(sorted@) =~= Seq::<CityView>::empty());
        assert(cities_view(sorted@).to_multiset().add(cities_view(rest@).to_multiset()) =~= m0);
    }
    while rest.len() > 0
        invariant
            cities_view(sorted@).to_multiset().add(cities_view(rest@).to_multiset()) == m0,
            forall|a: int, b: int|
                0 <= a < b < sorted@.len() ==> name_le(
                    (#[trigger] sorted@[a]).name@,
                    (#[trigger] sorted@[b]).name@,
                ),
        decreases rest@.len(),
    {
        let ghost iv = cities_view(rest@);
        let ghost sv = cities_view(sorted@);
        let x = rest.remove(0);
        proof {
            assert(cities_view(rest@) =~= iv.remove(0));
            assert(iv[0] == x@);
            assert(iv.contains(x@));
        }
        let p = insert_pos_cities(&sorted, &x);
        let ghost old_sorted = sorted@;
        sorted.insert(p, x);
        proof {
            assert(cities_view(sorted@) =~= sv.insert(p as int, x@));
            assert(cities_view(sorted@).to_multiset().add(cities_view(rest@).to_multiset())
                =~= m0);
            assert forall|a: int, b: int|
                0 <= a < b < sorted@.len() implies name_le(
                (#[trigger] sorted@[a]).name@,
                (#[trigger] sorted@[b]).name@,
            ) by {
                if b < p as int {
                    assert(sorted@[a] == old_sorted[a] && sorted@[b] == old_sorted[b]);
                } else if a < p as int && b == p as int {
                    assert(name_le(old_sorted[a].name@, x.name@));
                } else if a < p as int && b > p as int {
                    assert(sorted@[b] == old_sorted[b - 1]);
                    assert(name_le(old_sorted[a].name@, old_sorted[b - 1].name@));
                } else if a == p as int {
                    assert(sorted@[b] == old_sorted[b - 1]);
                    if p as int <= b - 2 {
                        assert(name_le(x.name@, old_sorted[p as int].name@));
                        assert(name_le(old_sorted[p as int].name@, old_sorted[b - 1].name@));
                        lemma_lex_le_trans(
                            folded(x.name@),
                            folded(old_sorted[p as int].name@),
                            folded(old_sorted[b - 1].name@),
                        );
                    } else {
                        assert(b - 1 == p as int);
                        assert(name_le(x.name@, old_sorted[p as int].name@));
                    }
                } else {
                    assert(sorted@[a] == old_sorted[a - 1] && sorted@[b] == old_sorted[b - 1]);
                }
            }
        }
    }
    proof {
        assert(cities_view(rest@) =~= Seq::<CityView>::empty());
        assert(cities_view(sorted@).to_multiset() =~= m0);
    }
    sorted
}

impl Db {
    /// All stored cities, in ascending case-insensitive name order.
    #[verifier::loop_isolation(false)]
    pub fn list_cities(&self) -> (r: Vec<City>)
        ensures
            cities_view(r@).to_multiset() == self@.cities.map_values(
                |c: CityRec| c.city,
            ).to_multiset(),
            forall|a: int, b: int|
                0 <= a < b < r@.len() ==> name_le(
                    (#[trigger] r@[a]).name@,
                    (#[trigger] r@[b]).name@,
                ),
    {
        let n = self.cities.len();
        let mut out: Vec<City> = Vec::new();
        let mut i: usize = 0;
        proof {
            assert(cities_view(out@) =~= self@.cities.map_values(|c: CityRec| c.city).take(0));
        }
        while i < n
            invariant
                i <= n,
                cities_view(out@) == self@.cities.map_values(|c: CityRec| c.city).take(i as int),
            decreases n - i,
        {
            let c = &self.cities[i];
            out.push(City { name: c.name.clone(), lat: c.lat, long: c.long });
            proof {
                assert(cities_view(out@) =~= self@.cities.map_values(|c: CityRec| c.city).take(
                    i + 1,
                ));
            }
            i = i + 1;
        }
        proof {
            assert(self@.cities.map_values(|c: CityRec| c.city).take(n as int) =~= self@.cities
                .map_values(|c: CityRec| c.city));
        }
        sort_cities(out)
    }

    /// All stored forecast rows of the given city, earliest date first.
    /// A city never inserted is refused with `UnknownCity`.
    #[verifier::loop_isolation(false)]
    pub fn get_daily_forecast_for_city(&self, city: &City) -> (r: Result<
        Vec<DbDailyForecastRow>,
        DbError,
    >)
        requires
            db_wf(self@),
        ensures
            r is Ok <==> has_city(self@, city@),
            r matches Err(e) ==> e == DbError::UnknownCity,
            r matches Ok(v) ==> rows_view(v@).to_multiset() == self@.rows.filter(
                |rr: RowRec| rr.city_id == city_id_of(self@, city@),
            ).map_values(|rr: RowRec| row_out(rr)).to_multiset(),
            r matches Ok(v) ==> forall|a: int, b: int|
                0 <= a < b < v@.len() ==> text_le(
                    (#[trigger] v@[a]).date@,
                    (#[trigger] v@[b]).date@,
                ),
    {
        let id = match self.get_city_id(city) {
            Some(id) => id,
            None => {
                return Err(DbError::UnknownCity);
            },
        };
        let ghost mine = |rr: RowRec| rr.city_id == city_id_of(self@, city@);
        let n = self.rows.len();
        let mut out: Vec<DbDailyForecastRow> = Vec::new();
        let mut i: usize = 0;
        proof {
            assert(self@.rows.take(0).filter(mine) =~= Seq::<RowRec>::empty());
            assert(rows_view(out@) =~= self@.rows.take(0).filter(mine).map_values(
                |rr: RowRec| row_out(rr),
            ));
        }
        while i < n
            invariant
                i <= n,
                n == self@.rows.len(),
                rows_view(out@) == self@.rows.take(i as int).filter(mine).map_values(
                    |rr: RowRec| row_out(rr),
                ),
            decreases n - i,
        {
            proof {
                assert(self@.rows.take(i + 1) =~= self@.rows.take(i as int).push(
                    self@.rows[i as int],
                ));
                lemma_filter_push(self@.rows.take(i as int), mine, self@.rows[i as int]);
            }
            let row = &self.rows[i];
            if row.city_id == id {
                let nr = DbDailyForecastRow {
                    date: row.date.clone(),
                    weather_code: row.weather_code,
                    t_min: row.t_min,
                    t_max: row.t_max,
                    t_mean: row.t_mean,
                };
                let ghost e = self@.rows[i as int];
                let ghost old_out = rows_view(out@);
                proof {
                    assert(mine(e));
                    assert(nr@ == row_out(e));
                }
                out.push(nr);
                proof {
                    assert(rows_view(out@) =~= old_out.push(row_out(e)));
                    assert(self@.rows.take(i + 1).filter(mine) == self@.rows.take(
                        i as int,
                    ).filter(mine).push(e));
                    assert(self@.rows.take(i as int).filter(mine).push(e).map_values(
                        |rr: RowRec| row_out(rr),
                    ) =~= self@.rows.take(i as int).filter(mine).map_values(
                        |rr: RowRec| row_out(rr),
                    ).push(row_out(e)));
                    assert(rows_view(out@) =~= self@.rows.take(i + 1).filter(mine).map_values(
                        |rr: RowRec| row_out(rr),
                    ));
                }
            } else {
                proof {
                    assert(rows_view(out@) =~= self@.rows.take(i + 1).filter(mine).map_values(
                        |rr: RowRec| row_out(rr),
                    ));
                }
            }
            i = i + 1;
        }
        proof {
            assert(self@.rows.take(n as int) =~= self@.rows);
        }
        Ok(sort_rows(out))
    }
}

/// Upserting two rows with the same key in turn comes to upserting the
/// second alone: the second write wins, and afterwards exactly one stored
/// row carries the key, holding the second write's values.
pub proof fn lemma_upsert_last_write_wins(rows: Seq<RowRec>, a: RowRec, b: RowRec)
    requires
        forall|i: int, j: int| 0 <= i < j < rows.len() ==> !row_key_eq(rows[i], rows[j]),
        row_key_eq(a, b),
    ensures
        spec_upsert_row(spec_upsert_row(rows, a), b) == spec_upsert_row(rows, b),
        spec_upsert_row(rows, b).filter(|r: RowRec| row_key_eq(r, b)).len() == 1,
        forall|i: int|
            0 <= i < spec_upsert_row(rows, b).len() && row_key_eq(
                #[trigger] spec_upsert_row(rows, b)[i],
                b,
            ) ==> spec_upsert_row(rows, b)[i] == b,
        exists|i: int|
            0 <= i < spec_upsert_row(rows, b).len() && #[trigger] spec_upsert_row(rows, b)[i]
                == b,
{
    let out = spec_upsert_row(rows, b);
    if exists|i: int| 0 <= i < rows.len() && row_key_eq(rows[i], b) {
        let w = choose|i: int| 0 <= i < rows.len() && row_key_eq(rows[i], b);
        assert forall|i: int|
            0 <= i < rows.len() && row_key_eq(#[trigger] rows[i], b) implies i == w by {
            if i < w {
                assert(!row_key_eq(rows[i], rows[w]));
            } else if w < i {
                assert(!row_key_eq(rows[w], rows[i]));
            }
        }
        assert(out =~= rows.update(w, b));
        let wa = choose|i: int| 0 <= i < rows.len() && row_key_eq(rows[i], a);
        assert(wa == w);
        let r1 = spec_upsert_row(rows, a);
        assert(r1 =~= rows.update(w, a));
        assert(row_key_eq(r1[w], b));
        assert forall|i: int|
            0 <= i < r1.len() && row_key_eq(#[trigger] r1[i], b) implies i == w by {
            if i != w {
                assert(r1[i] == rows[i]);
                assert(row_key_eq(rows[i], b));
            }
        }
        let wb = choose|i: int| 0 <= i < r1.len() && row_key_eq(r1[i], b);
        assert(wb == w);
        assert(spec_upsert_row(r1, b) =~= r1.update(w, b));
        assert(spec_upsert_row(r1, b) =~= out);
        assert forall|i: int, j: int|
            0 <= i < j < out.len() implies !(row_key_eq(out[i], b) && row_key_eq(out[j], b)) by {
            if row_key_eq(out[i], b) && row_key_eq(out[j], b) {
                assert(i == w || out[i] == rows[i]);
                assert(j == w || out[j] == rows[j]);
                assert(!row_key_eq(rows[i], rows[j]));
                assert(false);
            }
        }
        assert(row_key_eq(out[w], b));
        lemma_filter_single(out, |r: RowRec| row_key_eq(r, b));
        assert(out[w] == b);
    } else {
        assert(out =~= rows.push(b));
        let r1 = spec_upsert_row(rows, a);
        assert(r1 =~= rows.push(a));
        assert(row_key_eq(r1[rows.len() as int], b));
        assert forall|i: int|
            0 <= i < r1.len() && row_key_eq(#[trigger] r1[i], b) implies i == rows.len() by {
            if i < rows.len() {
                assert(r1[i] == rows[i]);
                assert(row_key_eq(rows[i], b));
            }
        }
        let wb = choose|i: int| 0 <= i < r1.len() && row_key_eq(r1[i], b);
        assert(wb == rows.len());
        assert(spec_upsert_row(r1, b) =~= r1.update(rows.len() as int, b));
        assert(spec_upsert_row(r1, b) =~= out);
        assert forall|i: int, j: int|
            0 <= i < j < out.len() implies !(row_key_eq(out[i], b) && row_key_eq(out[j], b)) by {
            if row_key_eq(out[i], b) && row_key_eq(out[j], b) {
                assert(i < rows.len() ==> out[i] == rows[i]);
                assert(j < rows.len() ==> out[j] == rows[j]);
                if j < rows.len() {
                    assert(!row_key_eq(rows[i], rows[j]));
                } else {
                    assert(i < rows.len());
                    assert(row_key_eq(rows[i], b));
                }
                assert(false);
            }
        }
        assert(row_key_eq(out[rows.len() as int], b));
        lemma_filter_single(out, |r: RowRec| row_key_eq(r, b));
        assert(out[rows.len() as int] == b);
    }
}

/// Inserting a triple that is already stored changes nothing, so a second
/// insertion of the same city leaves the cache of the first one untouched,
/// still with exactly one entry for the triple.
pub proof fn lemma_insert_city_idempotent(db: DbView, c: CityView)
    requires
        db_wf(db),
    ensures
        spec_insert_city(spec_insert_city(db, c), c) == spec_insert_city(db, c),
        cities_with(spec_insert_city(db, c), c).len() == 1,
{
    let db1 = spec_insert_city(db, c);
    if has_city(db, c) {
        assert forall|i: int, j: int|
            0 <= i < j < db.cities.len() implies !(same_triple(db.cities[i].city, c)
            && same_triple(db.cities[j].city, c)) by {
            assert(!same_triple(db.cities[i].city, db.cities[j].city));
        }
        lemma_filter_single(db.cities, |r: CityRec| same_triple(r.city, c));
    } else {
        assert(same_triple(db1.cities[db.cities.len() as int].city, c));
        assert(has_city(db1, c));
        assert forall|i: int, j: int|
            0 <= i < j < db1.cities.len() implies !(same_triple(db1.cities[i].city, c)
            && same_triple(db1.cities[j].city, c)) by {
            if j < db.cities.len() {
            } else {
                assert(db1.cities[j].city == c);
            }
        }
        lemma_filter_single(db1.cities, |r: CityRec| same_triple(r.city, c));
    }
}

} // verus!
