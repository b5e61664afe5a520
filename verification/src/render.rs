//! The staleness-aware read path: given a city's stored rows and the
//! requested day offsets (0 = today), decide what a report shows.
//!
//! The whole cached snapshot counts as outdated when its newest stored day
//! lies before today; that is a different condition from a single requested
//! day missing, which only earns a per-day placeholder. Turning the
//! resulting cards into text is left to the caller.

use vstd::prelude::*;

use crate::date::{Date, valid_date, date_lt, spec_parse_date, spec_plus_days, spec_format_date};
use crate::date::{parse_date, format_date};
use crate::db::{DbDailyForecastRow, RowOut, rows_view};

verus! {

/// The values shown for one matched day.
#[derive(Clone, Copy, Debug, PartialEq, Eq, Structural)]
pub struct DayData {
    pub weather_code: i64,
    pub t_min: i64,
    pub t_max: i64,
    pub t_mean: i64,
}

/// One requested offset's entry: its label offset, the date it stands for,
/// and the stored values when that date is stored.
#[derive(Debug)]
pub struct DayCard {
    pub offset: u64,
    pub date: String,
    pub data: Option<DayData>,
}

/// What a read of the cache yields for a set of requested offsets.
#[derive(Debug)]
pub enum ForecastReport {
    /// No stored rows, or no requested offsets.
    NoData,
    /// The newest stored day, which lies before today: the snapshot is
    /// outdated and wants a refresh first.
    Outdated(Date),
    /// The snapshot is current but none of the requested days is stored.
    NoMatchingDays,
    /// One card per requested offset, in request order.
    Cards(Vec<DayCard>),
}

/// The latest calendar day named by any stored row, ignoring rows whose
/// date text spells no date.
pub open spec fn spec_max_date(rows: Seq<RowOut>) -> Option<Date>
    decreases rows.len(),
{
    if rows.len() == 0 {
        None
    } else {
        let rest = spec_max_date(rows.drop_last());
        match spec_parse_date(rows.last().date) {
            None => rest,
            Some(d) => match rest {
                None => Some(d),
                Some(m) => if date_lt(m, d) {
                    Some(d)
                } else {
                    Some(m)
                },
            },
        }
    }
}

/// The first stored row carrying exactly the given date text.
pub open spec fn spec_row_match(rows: Seq<RowOut>, target: Seq<char>) -> Option<RowOut>
    decreases rows.len(),
{
    if rows.len() == 0 {
        None
    } else if rows[0].date == target {
        Some(rows[0])
    } else {
        spec_row_match(rows.drop_first(), target)
    }
}

/// The date text an offset stands for: today moved forward that many days.
pub open spec fn spec_target(today: Date, off: u64) -> Seq<char> {
    spec_format_date(spec_plus_days(today, off as nat))
}

/// Whether any requested offset has a stored row.
pub open spec fn spec_any_match(rows: Seq<RowOut>, offsets: Seq<u64>, today: Date) -> bool {
    exists|i: int|
        0 <= i < offsets.len() && (#[trigger] spec_row_match(
            rows,
            spec_target(today, offsets[i]),
        )) is Some
}

/// Whether the snapshot counts as outdated: it has a newest parseable day
/// and that day lies before today.
pub open spec fn spec_outdated(rows: Seq<RowOut>, today: Date) -> bool {
    spec_max_date(rows) matches Some(m) && date_lt(m, today)
}

/// When a prefix of the rows misses the date, the first match is decided by
/// what follows.
proof fn lemma_row_match_skip(rows: Seq<RowOut>, target: Seq<char>, i: int)
    requires
        0 <= i <= rows.len(),
        forall|w: int| 0 <= w < i ==> (#[trigger] rows[w]).date != target,
    ensures
        spec_row_match(rows, target) == spec_row_match(rows.skip(i), target),
    decreases i,
{
    if i > 0 {
        lemma_row_match_skip(rows.drop_first(), target, i - 1);
        assert(rows.drop_first().skip(i - 1) =~= rows.skip(i));
    } else {
        assert(rows.skip(0) =~= rows);
    }
}

/// The first stored row with the given date text, by position.
fn find_row(rows: &Vec<DbDailyForecastRow>, target: &String) -> (r: Option<usize>)
    ensures
        r matches Some(k) ==> k < rows@.len() && spec_row_match(rows_view(rows@), target@)
            == Some(rows@[k as int]@),
        r is None ==> spec_row_match(rows_view(rows@), target@) is None,
{
    let n = rows.len();
    let mut i: usize = 0;
    while i < n
        invariant
            n == rows@.len(),
            i <= n,
            forall|w: int| 0 <= w < i ==> (#[trigger] rows_view(rows@)[w]).date != target@,
        decreases n - i,
    {
        proof {
            lemma_row_match_skip(rows_view(rows@), target@, i as int);
        }
        if rows[i].date == *target {
            proof {
                assert(rows_view(rows@).skip(i as int)[0] == rows_view(rows@)[i as int]);
            }
            return Some(i);
        }
        i = i + 1;
    }
    proof {
        lemma_row_match_skip(rows_view(rows@), target@, n as int);
        assert(rows_view(rows@).skip(n as int) =~= Seq::<RowOut>::empty());
    }
    None
}

/// The latest parseable stored day, by scan.
fn max_stored_date(rows: &Vec<DbDailyForecastRow>) -> (r: Option<Date>)
    ensures
        r == spec_max_date(rows_view(rows@)),
{
    let n = rows.len();
    let mut cur: Option<Date> = None;
    let mut i: usize = 0;
    proof {
        assert(rows_view(rows@).take(0) =~= Seq::<RowOut>::empty());
    }
    while i < n
        invariant
            n == rows@.len(),
            i <= n,
            cur == spec_max_date(rows_view(rows@).take(i as int)),
        decreases n - i,
    {
        proof {
            assert(rows_view(rows@).take(i + 1).drop_last() =~= rows_view(rows@).take(i as int));
            assert(rows_view(rows@).take(i + 1).last() == rows_view(rows@)[i as int]);
        }
        match parse_date(rows[i].date.as_str()) {
            Some(d) => {
                cur = match cur {
                    None => Some(d),
                    Some(m) => if m.lt(&d) {
                        Some(d)
                    } else {
                        Some(m)
                    },
                };
            },
            None => {},
        }
        i = i + 1;
    }
    proof {
        assert(rows_view(rows@).take(n as int) =~= rows_view(rows@));
    }
    cur
}

/// Read a set of requested offsets out of a city's stored rows, as of
/// `today`. No rows or no offsets yields `NoData`; a snapshot whose newest
/// day lies before today yields `Outdated` with that day; a current
/// snapshot storing none of the requested days yields `NoMatchingDays`;
/// otherwise every offset gets its card, filled from the stored row of its
/// date when one exists and left empty when not.
#[verifier::loop_isolation(false)]
pub fn select_days(rows: &Vec<DbDailyForecastRow>, offsets: &Vec<u64>, today: &Date) -> (r:
    ForecastReport)
    requires
        valid_date(*today),
    ensures
        (rows@.len() == 0 || offsets@.len() == 0) <==> r is NoData,
        r is Outdated <==> (rows@.len() > 0 && offsets@.len() > 0 && spec_outdated(
            rows_view(rows@),
            *today,
        )),
        r matches ForecastReport::Outdated(last) ==> spec_max_date(rows_view(rows@)) == Some(
            last,
        ) && date_lt(last, *today),
        r is NoMatchingDays <==> (rows@.len() > 0 && offsets@.len() > 0 && !spec_outdated(
            rows_view(rows@),
            *today,
        ) && !spec_any_match(rows_view(rows@), offsets@, *today)),
        r matches ForecastReport::Cards(cards) ==> cards@.len() == offsets@.len(),
        r matches ForecastReport::Cards(cards) ==> forall|i: int|
            0 <= i < offsets@.len() ==> (#[trigger] cards@[i]).offset == offsets@[i]
                && cards@[i].date@ == spec_target(*today, offsets@[i]),
        r matches ForecastReport::Cards(cards) ==> forall|i: int|
            0 <= i < offsets@.len() ==> match spec_row_match(
                rows_view(rows@),
                spec_target(*today, offsets@[i]),
            ) {
                Some(m) => (#[trigger] cards@[i]).data == Some(
                    DayData {
                        weather_code: m.weather_code as i64,
                        t_min: m.t_min as i64,
                        t_max: m.t_max as i64,
                        t_mean: m.t_mean as i64,
                    },
                ),
                None => (#[trigger] cards@[i]).data is None,
            },
{
    if rows.len() == 0 || offsets.len() == 0 {
        return ForecastReport::NoData;
    }
    match max_stored_date(rows) {
        Some(m) => {
            if m.lt(today) {
                return ForecastReport::Outdated(m);
            }
        },
        None => {},
    }
    let n = offsets.len();
    let mut cards: Vec<DayCard> = Vec::new();
    let mut any = false;
    let mut i: usize = 0;
    while i < n
        invariant
            i <= n,
            cards@.len() == i,
            any == spec_any_match(rows_view(rows@), offsets@.take(i as int), *today),
            forall|k: int|
                0 <= k < i ==> (#[trigger] cards@[k]).offset == offsets@[k] && cards@[k].date@
                    == spec_target(*today, offsets@[k]),
            forall|k: int|
                0 <= k < i ==> match spec_row_match(
                    rows_view(rows@),
                    spec_target(*today, offsets@[k]),
                ) {
                    Some(m) => (#[trigger] cards@[k]).data == Some(
                        DayData {
                            weather_code: m.weather_code as i64,
                            t_min: m.t_min as i64,
                            t_max: m.t_max as i64,
                            t_mean: m.t_mean as i64,
                        },
                    ),
                    None => (#[trigger] cards@[k]).data is None,
                },
        decreases n - i,
    {
        let off = offsets[i];
        let target_date = today.plus_days(off);
        let target = format_date(&target_date);
        let hit = find_row(rows, &target);
        let ghost any_before = any;
        let data = match hit {
            Some(k) => {
                any = true;
                let row = &rows[k];
                Some(
                    DayData {
                        weather_code: row.weather_code,
                        t_min: row.t_min,
                        t_max: row.t_max,
                        t_mean: row.t_mean,
                    },
                )
            },
            None => None,
        };
        cards.push(DayCard { offset: off, date: target, data: data });
        proof {
            assert(offsets@.take(i + 1).drop_last() =~= offsets@.take(i as int));
            assert(offsets@.take(i + 1).last() == offsets@[i as int]);
            let t = spec_target(*today, offsets@[i as int]);
            if spec_row_match(rows_view(rows@), t) is Some {
                assert(spec_any_match(rows_view(rows@), offsets@.take(i + 1), *today)) by {
                    assert(offsets@.take(i + 1)[i as int] == offsets@[i as int]);
                }
                assert(any);
            } else {
                if spec_any_match(rows_view(rows@), offsets@.take(i + 1), *today) {
                    let w = choose|w: int|
                        0 <= w < offsets@.take(i + 1).len() && (#[trigger] spec_row_match(
                            rows_view(rows@),
                            spec_target(*today, offsets@.take(i + 1)[w]),
                        )) is Some;
                    assert(w < i);
                    assert(offsets@.take(i as int)[w] == offsets@.take(i + 1)[w]);
                    assert(spec_any_match(rows_view(rows@), offsets@.take(i as int), *today));
                }
                if spec_any_match(rows_view(rows@), offsets@.take(i as int), *today) {
                    let w = choose|w: int|
                        0 <= w < offsets@.take(i as int).len() && (#[trigger] spec_row_match(
                            rows_view(rows@),
                            spec_target(*today, offsets@.take(i as int)[w]),
                        )) is Some;
                    assert(offsets@.take(i + 1)[w] == offsets@.take(i as int)[w]);
                    assert(spec_any_match(rows_view(rows@), offsets@.take(i + 1), *today));
                }
                assert(any == spec_any_match(rows_view(rows@), offsets@.take(i + 1), *today));
            }
        }
        i = i + 1;
    }
    proof {
        assert(offsets@.take(n as int) =~= offsets@);
    }
    if !any {
        return ForecastReport::NoMatchingDays;
    }
    ForecastReport::Cards(cards)
}

} // verus!
