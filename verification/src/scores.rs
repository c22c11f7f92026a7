//! The terms of the two composite indices over the trailing four weeks.
//!
//! Both indices read the activities that started at most 28 days before
//! today. This module decides which activities enter which term and by how
//! many days each index decays; the terms are combined by the caller:
//!
//! - endurance: `mean(distance * duration of each long ride) / 10000
//!   + sum(week durations / 3600) + sum(stress) / 100`, times
//!   `0.9 ^ decay_days`;
//! - fitness: `sum(week durations / 3600) * 4 + (sum(stress) / 4) / 10
//!   + long_count`, times `0.985 ^ decay_days`.

use vstd::prelude::*;
use vstd::arithmetic::power2::{lemma2_to64_rest, lemma_pow2_adds, pow2};
use crate::calendar::{date_at, rfc3339_utc_date, CalendarDate};
use crate::scalar::{
    encodes_integer, lemma_order_is_that_of_values, scaled_value, Scalar, FRACTION_RANGE,
};
use crate::schema::{start_dates, start_dates_of, ActivitySummary};

verus! {

/// The age in days up to which an activity is in the window.
pub const WINDOW_DAYS: i64 = 28;

/// The age in days below which an activity belongs to the trailing week.
pub const WEEK_DAYS: i64 = 7;

/// Bit pattern of 80000.0, the distance in meters from which a ride is long.
pub const LONG_RIDE_METERS_BITS: u64 = 0x40F3_8800_0000_0000;

/// The age in days of the nearest long ride up to which the endurance index
/// does not decay.
pub const LONG_RIDE_GRACE_DAYS: i64 = 14;

/// The number of rest days up to which the fitness index does not decay.
pub const REST_GRACE_DAYS: i64 = 3;

/// Bit pattern of 0.9, by which the endurance index decays per day.
pub const ENDURO_DECAY_BITS: u64 = 0x3FEC_CCCC_CCCC_CCCD;

/// Bit pattern of 0.985, by which the fitness index decays per day.
pub const FITNESS_DECAY_BITS: u64 = 0x3FEF_851E_B851_EB85;

/// The divisor of the mean long-ride product in the endurance index.
pub const LONG_PRODUCT_DIVISOR: i64 = 10000;

/// The divisor of the stress sum in the endurance index.
pub const STRESS_DIVISOR: i64 = 100;

/// The weight of the week's hours in the fitness index.
pub const WEEK_HOURS_WEIGHT: i64 = 4;

/// The weeks over which the fitness index averages stress.
pub const STRESS_WEEKS: i64 = 4;

/// The divisor of the weekly stress average in the fitness index.
pub const WEEKLY_STRESS_DIVISOR: i64 = 10;

/// The distance and duration of a long ride; their product enters the
/// endurance index.
#[derive(Clone, Copy, Debug)]
pub struct LongRide {
    pub distance: Scalar,
    pub duration: i64,
}

/// Why an index could not be computed.
#[derive(Debug, Clone, Copy)]
pub enum ScoreError {
    /// The start date of an activity is no RFC 3339 date-and-time.
    InvalidStartDate {
        /// The position of the activity among those given.
        index: usize,
        /// The id of the activity.
        id: u64,
    },
    /// No activity in the window started today or earlier, so the count of
    /// rest days has no end.
    NoActiveDay,
}

/// The age in days of an activity that starts on `date`: how long before
/// `today` that is. Negative for a date after today.
pub open spec fn age_on(date: Option<CalendarDate>, today: CalendarDate) -> int
    recommends
        date is Some,
{
    today.day_number - date.unwrap().day_number
}

/// Whether each of the first `n` activities has a date.
pub open spec fn dated(dates: Seq<Option<CalendarDate>>, n: int) -> bool {
    forall|i: int| 0 <= i < n ==> #[trigger] date_at(dates, i) is Some
}

/// Whether an activity that starts on `date` is in the window.
pub open spec fn in_window(date: Option<CalendarDate>, today: CalendarDate) -> bool {
    age_on(date, today) <= WINDOW_DAYS
}

/// Whether an activity that starts on `date` is in the trailing week.
pub open spec fn in_week(date: Option<CalendarDate>, today: CalendarDate) -> bool {
    age_on(date, today) < WEEK_DAYS
}

/// Whether the activity is a long ride: at least 80000 meters.
pub open spec fn is_long(a: ActivitySummary) -> bool {
    a.distance.spec_ge(Scalar { bits: LONG_RIDE_METERS_BITS })
}

/// The durations of the activities of the trailing week among the first `n`.
pub open spec fn week_durations(
    acts: Seq<ActivitySummary>,
    dates: Seq<Option<CalendarDate>>,
    today: CalendarDate,
    n: int,
) -> Seq<
    i64,
>
    decreases n,
{
    if n <= 0 {
        Seq::empty()
    } else if in_week(date_at(dates, n - 1), today) {
        week_durations(acts, dates, today, n - 1).push(acts[n - 1].duration)
    } else {
        week_durations(acts, dates, today, n - 1)
    }
}

/// The stress scores of the activities in the window among the first `n`.
pub open spec fn stress_terms(
    acts: Seq<ActivitySummary>,
    dates: Seq<Option<CalendarDate>>,
    today: CalendarDate,
    n: int,
) -> Seq<
    Scalar,
>
    decreases n,
{
    if n <= 0 {
        Seq::empty()
    } else if in_window(date_at(dates, n - 1), today) && acts[n - 1].training_stress_score is Some {
        stress_terms(acts, dates, today, n - 1).push(acts[n - 1].training_stress_score.unwrap())
    } else {
        stress_terms(acts, dates, today, n - 1)
    }
}

/// The long rides in the window among the first `n` activities.
pub open spec fn long_rides(
    acts: Seq<ActivitySummary>,
    dates: Seq<Option<CalendarDate>>,
    today: CalendarDate,
    n: int,
) -> Seq<
    LongRide,
>
    decreases n,
{
    if n <= 0 {
        Seq::empty()
    } else if in_window(date_at(dates, n - 1), today) && is_long(acts[n - 1]) {
        long_rides(acts, dates, today, n - 1).push(
            LongRide { distance: acts[n - 1].distance, duration: acts[n - 1].duration },
        )
    } else {
        long_rides(acts, dates, today, n - 1)
    }
}

/// The smaller of an optional and a given age.
pub open spec fn nearer(so_far: Option<int>, age: int) -> Option<int> {
    match so_far {
        Some(d) => if age < d {
            Some(age)
        } else {
            Some(d)
        },
        None => Some(age),
    }
}

/// The age of the nearest long ride in the window among the first `n`
/// activities.
pub open spec fn nearest_long_age(
    acts: Seq<ActivitySummary>,
    dates: Seq<Option<CalendarDate>>,
    today: CalendarDate,
    n: int,
)
    -> Option<int>
    decreases n,
{
    if n <= 0 {
        None
    } else if in_window(date_at(dates, n - 1), today) && is_long(acts[n - 1]) {
        nearer(nearest_long_age(acts, dates, today, n - 1), age_on(date_at(dates, n - 1), today))
    } else {
        nearest_long_age(acts, dates, today, n - 1)
    }
}

/// The rest days before today: the age of the most recent activity in the
/// window that started today or earlier, among the first `n`.
pub open spec fn rest_days(
    acts: Seq<ActivitySummary>,
    dates: Seq<Option<CalendarDate>>,
    today: CalendarDate,
    n: int,
) -> Option<int>
    decreases n,
{
    if n <= 0 {
        None
    } else if in_window(date_at(dates, n - 1), today) && age_on(date_at(dates, n - 1), today) >= 0 {
        nearer(rest_days(acts, dates, today, n - 1), age_on(date_at(dates, n - 1), today))
    } else {
        rest_days(acts, dates, today, n - 1)
    }
}

/// The days beyond `grace` in an optional count of days; none within it.
pub open spec fn days_beyond(days: Option<int>, grace: int) -> int {
    match days {
        Some(d) => if d > grace {
            d - grace
        } else {
            0
        },
        None => 0,
    }
}

/// The terms of the endurance index.
#[derive(Debug)]
pub struct EnduroTerms {
    /// The long rides in the window, in the order of the activities.
    pub long_rides: Vec<LongRide>,
    /// The durations in seconds of the activities of the trailing week.
    pub week_durations: Vec<i64>,
    /// The stress scores of the activities in the window.
    pub stress: Vec<Scalar>,
    /// The age in days of the nearest long ride in the window.
    pub nearest_long_age: Option<i64>,
    /// The days by which the nearest long ride is older than the grace
    /// period; 0 where it is not, or there is none.
    pub decay_days: i64,
}

impl EnduroTerms {
    /// Whether these are the terms of `acts` as seen from `today`.
    pub open spec fn is_terms_of(
        self,
        acts: Seq<ActivitySummary>,
        dates: Seq<Option<CalendarDate>>,
        today: CalendarDate,
    ) -> bool {
        let n = acts.len() as int;
        &&& self.long_rides@ == long_rides(acts, dates, today, n)
        &&& self.week_durations@ == week_durations(acts, dates, today, n)
        &&& self.stress@ == stress_terms(acts, dates, today, n)
        &&& match nearest_long_age(acts, dates, today, n) {
            Some(d) => self.nearest_long_age == Some(d as i64) && d as i64 == d,
            None => self.nearest_long_age is None,
        }
        &&& self.decay_days == days_beyond(
            nearest_long_age(acts, dates, today, n),
            LONG_RIDE_GRACE_DAYS as int,
        )
    }
}

/// The terms of the fitness index.
#[derive(Debug)]
pub struct FitnessTerms {
    /// The durations in seconds of the activities of the trailing week.
    pub week_durations: Vec<i64>,
    /// The stress scores of the activities in the window.
    pub stress: Vec<Scalar>,
    /// The number of long rides in the window.
    pub long_count: usize,
    /// The activity-free days before today, today included.
    pub rest_days: i64,
    /// The rest days beyond the grace period; 0 within it.
    pub decay_days: i64,
}

impl FitnessTerms {
    /// Whether these are the terms of `acts` as seen from `today`.
    pub open spec fn is_terms_of(
        self,
        acts: Seq<ActivitySummary>,
        dates: Seq<Option<CalendarDate>>,
        today: CalendarDate,
    ) -> bool {
        let n = acts.len() as int;
        &&& self.week_durations@ == week_durations(acts, dates, today, n)
        &&& self.stress@ == stress_terms(acts, dates, today, n)
        &&& self.long_count == long_rides(acts, dates, today, n).len()
        &&& rest_days(acts, dates, today, n) == Some(self.rest_days as int)
        &&& self.decay_days == days_beyond(rest_days(acts, dates, today, n), REST_GRACE_DAYS as int)
    }
}

/// Whether an activity that starts at `start_date` is in the window as seen
/// from `today`; nothing where the start date is no RFC 3339 date-and-time.
/// Only an activity in the window contributes to an index.
pub fn starts_in_window(start_date: &str, today: &CalendarDate) -> (r: Option<bool>)
    ensures
        match rfc3339_utc_date(start_date@) {
            Some(date) => r == Some(today.day_number - date.day_number <= WINDOW_DAYS),
            None => r is None,
        },
{
    match CalendarDate::parse(start_date) {
        Some(date) => Some(today.days_since(&date) <= WINDOW_DAYS),
        None => None,
    }
}

/// What the indices read of one activity.
struct Reading {
    age: i64,
    long: bool,
}

/// Reads the age of an activity and whether it is a long ride.
fn read(a: &ActivitySummary, date: &CalendarDate, today: &CalendarDate) -> (r: Reading)
    ensures
        r.age == age_on(Some(*date), *today),
        r.long == is_long(*a),
{
    Reading {
        age: today.days_since(date),
        long: a.distance.ge(Scalar { bits: LONG_RIDE_METERS_BITS }),
    }
}

/// The date at position `i` of a list of dates.
fn known_date(dates: &[Option<CalendarDate>], i: usize) -> (r: Option<CalendarDate>)
    ensures
        r == date_at(dates@, i as int),
{
    if i < dates.len() {
        dates[i]
    } else {
        None
    }
}

/// The smaller of an optional and a given age.
fn nearer_of(so_far: Option<i64>, age: i64) -> (r: Option<i64>)
    ensures
        r == Some(
            match so_far {
                Some(d) => if age < d {
                    age
                } else {
                    d
                },
                None => age,
            },
        ),
{
    match so_far {
        Some(d) => if age < d {
            Some(age)
        } else {
            Some(d)
        },
        None => Some(age),
    }
}

/// The terms of the endurance index of `activities` as seen from `today`,
/// with the date on which each activity starts given: `dates` holds them in
/// the order of `activities`, and an activity beyond the end of `dates` has
/// none.
///
/// An activity is in the window where it started at most 28 days before
/// today, and in the trailing week where it started less than 7 days before
/// today. A ride of at least 80000 meters is long. The index decays by the
/// days that the nearest long ride in the window is older than 14 days.
///
/// Fails at the first activity without a date.
pub fn enduro_terms_on(
    activities: &[ActivitySummary],
    dates: &[Option<CalendarDate>],
    today: &CalendarDate,
) -> (r: Result<EnduroTerms, ScoreError>)
    ensures
        match r {
            Ok(terms) => dated(dates@, activities@.len() as int) && terms.is_terms_of(
                activities@,
                dates@,
                *today,
            ),
            Err(ScoreError::InvalidStartDate { index, id }) => {
                &&& index < activities@.len()
                &&& dated(dates@, index as int)
                &&& date_at(dates@, index as int) is None
                &&& id == activities@[index as int].id
            },
            Err(ScoreError::NoActiveDay) => false,
        },
{
    let mut rides: Vec<LongRide> = Vec::new();
    let mut week: Vec<i64> = Vec::new();
    let mut stress: Vec<Scalar> = Vec::new();
    let mut nearest: Option<i64> = None;
    let mut i: usize = 0;
    while i < activities.len()
        invariant
            i <= activities@.len(),
            dated(dates@, i as int),
            rides@ == long_rides(activities@, dates@, *today, i as int),
            week@ == week_durations(activities@, dates@, *today, i as int),
            stress@ == stress_terms(activities@, dates@, *today, i as int),
            match nearest_long_age(activities@, dates@, *today, i as int) {
                Some(d) => nearest == Some(d as i64) && d as i64 == d,
                None => nearest is None,
            },
        decreases activities@.len() - i,
    {
        let a = &activities[i];
        let reading = match known_date(dates, i) {
            Some(date) => read(a, &date, today),
            None => {
                return Err(ScoreError::InvalidStartDate { index: i, id: a.id });
            },
        };
        if reading.age <= WINDOW_DAYS {
            if reading.age < WEEK_DAYS {
                week.push(a.duration);
            }
            match a.training_stress_score {
                Some(tss) => {
                    stress.push(tss);
                },
                None => {},
            }
            if reading.long {
                rides.push(LongRide { distance: a.distance, duration: a.duration });
                nearest = nearer_of(nearest, reading.age);
            }
        }
        i = i + 1;
    }
    let decay_days: i64 = match nearest {
        Some(d) => if d > LONG_RIDE_GRACE_DAYS {
            d - LONG_RIDE_GRACE_DAYS
        } else {
            0
        },
        None => 0,
    };
    Ok(
        EnduroTerms {
            long_rides: rides,
            week_durations: week,
            stress,
            nearest_long_age: nearest,
            decay_days,
        },
    )
}

/// The terms of the endurance index of `activities` as seen from `today`.
/// Each activity starts on the UTC date of its start date; for the rest see
/// `enduro_terms_on`.
///
/// Fails at the first activity whose start date is no RFC 3339
/// date-and-time.
pub fn enduro_terms(activities: &[ActivitySummary], today: &CalendarDate) -> (r: Result<
    EnduroTerms,
    ScoreError,
>)
    ensures
        match r {
            Ok(terms) => dated(start_dates_of(activities@), activities@.len() as int)
                && terms.is_terms_of(activities@, start_dates_of(activities@), *today),
            Err(ScoreError::InvalidStartDate { index, id }) => {
                &&& index < activities@.len()
                &&& dated(start_dates_of(activities@), index as int)
                &&& rfc3339_utc_date(activities@[index as int].start_date@) is None
                &&& id == activities@[index as int].id
            },
            Err(ScoreError::NoActiveDay) => false,
        },
{
    let dates = start_dates(activities);
    enduro_terms_on(activities, dates.as_slice(), today)
}

/// The long rides are at most as many as the activities.
proof fn lemma_long_rides_bound(
    acts: Seq<ActivitySummary>,
    dates: Seq<Option<CalendarDate>>,
    today: CalendarDate,
    n: int,
)
    requires
        0 <= n,
    ensures
        long_rides(acts, dates, today, n).len() <= n,
    decreases n,
{
    if n > 0 {
        lemma_long_rides_bound(acts, dates, today, n - 1);
    }
}

/// The terms of the fitness index of `activities` as seen from `today`, with
/// the date on which each activity starts given as for `enduro_terms_on`.
///
/// The window, the trailing week and the long rides are those of the
/// endurance index. The rest days are the days from today back to the most
/// recent day with an activity in the window; the index decays by the rest
/// days beyond 3.
///
/// Fails at the first activity without a date, and where no activity in the
/// window started today or earlier.
pub fn fitness_terms_on(
    activities: &[ActivitySummary],
    dates: &[Option<CalendarDate>],
    today: &CalendarDate,
) -> (r: Result<FitnessTerms, ScoreError>)
    ensures
        match r {
            Ok(terms) => dated(dates@, activities@.len() as int) && terms.is_terms_of(
                activities@,
                dates@,
                *today,
            ),
            Err(ScoreError::InvalidStartDate { index, id }) => {
                &&& index < activities@.len()
                &&& dated(dates@, index as int)
                &&& date_at(dates@, index as int) is None
                &&& id == activities@[index as int].id
            },
            Err(ScoreError::NoActiveDay) => {
                &&& dated(dates@, activities@.len() as int)
                &&& rest_days(activities@, dates@, *today, activities@.len() as int) is None
            },
        },
{
    let mut week: Vec<i64> = Vec::new();
    let mut stress: Vec<Scalar> = Vec::new();
    let mut long_count: usize = 0;
    let mut rest: Option<i64> = None;
    let mut i: usize = 0;
    while i < activities.len()
        invariant
            i <= activities@.len(),
            dated(dates@, i as int),
            long_count == long_rides(activities@, dates@, *today, i as int).len(),
            week@ == week_durations(activities@, dates@, *today, i as int),
            stress@ == stress_terms(activities@, dates@, *today, i as int),
            match rest_days(activities@, dates@, *today, i as int) {
                Some(d) => rest == Some(d as i64) && d as i64 == d,
                None => rest is None,
            },
        decreases activities@.len() - i,
    {
        let a = &activities[i];
        let reading = match known_date(dates, i) {
            Some(date) => read(a, &date, today),
            None => {
                return Err(ScoreError::InvalidStartDate { index: i, id: a.id });
            },
        };
        if reading.age <= WINDOW_DAYS {
            if reading.age < WEEK_DAYS {
                week.push(a.duration);
            }
            match a.training_stress_score {
                Some(tss) => {
                    stress.push(tss);
                },
                None => {},
            }
            if reading.long {
                proof {
                    lemma_long_rides_bound(activities@, dates@, *today, i as int);
                }
                long_count = long_count + 1;
            }
            if reading.age >= 0 {
                rest = nearer_of(rest, reading.age);
            }
        }
        i = i + 1;
    }
    match rest {
        Some(days) => {
            let decay_days: i64 = if days > REST_GRACE_DAYS {
                days - REST_GRACE_DAYS
            } else {
                0
            };
            Ok(
                FitnessTerms {
                    week_durations: week,
                    stress,
                    long_count,
                    rest_days: days,
                    decay_days,
                },
            )
        },
        None => Err(ScoreError::NoActiveDay),
    }
}

/// The terms of the fitness index of `activities` as seen from `today`. Each
/// activity starts on the UTC date of its start date; for the rest see
/// `fitness_terms_on`.
///
/// Fails at the first activity whose start date is no RFC 3339
/// date-and-time, and where no activity in the window started today or
/// earlier.
pub fn fitness_terms(activities: &[ActivitySummary], today: &CalendarDate) -> (r: Result<
    FitnessTerms,
    ScoreError,
>)
    ensures
        match r {
            Ok(terms) => dated(start_dates_of(activities@), activities@.len() as int)
                && terms.is_terms_of(activities@, start_dates_of(activities@), *today),
            Err(ScoreError::InvalidStartDate { index, id }) => {
                &&& index < activities@.len()
                &&& dated(start_dates_of(activities@), index as int)
                &&& rfc3339_utc_date(activities@[index as int].start_date@) is None
                &&& id == activities@[index as int].id
            },
            Err(ScoreError::NoActiveDay) => {
                &&& dated(start_dates_of(activities@), activities@.len() as int)
                &&& rest_days(
                    activities@,
                    start_dates_of(activities@),
                    *today,
                    activities@.len() as int,
                ) is None
            },
        },
{
    let dates = start_dates(activities);
    fitness_terms_on(activities, dates.as_slice(), today)
}

/// The nearest long ride in the window is at most 28 days old, so the
/// endurance index decays by at most 14 days.
pub proof fn lemma_nearest_long_age_bound(
    acts: Seq<ActivitySummary>,
    dates: Seq<Option<CalendarDate>>,
    today: CalendarDate,
    n: int,
)
    ensures
        match nearest_long_age(acts, dates, today, n) {
            Some(d) => d <= WINDOW_DAYS,
            None => true,
        },
        0 <= days_beyond(nearest_long_age(acts, dates, today, n), LONG_RIDE_GRACE_DAYS as int)
            <= WINDOW_DAYS - LONG_RIDE_GRACE_DAYS,
    decreases n,
{
    if n > 0 {
        lemma_nearest_long_age_bound(acts, dates, today, n - 1);
    }
}

/// The rest days are between 0 and 28, so the fitness index decays by at
/// most 25 days.
pub proof fn lemma_rest_days_bound(
    acts: Seq<ActivitySummary>,
    dates: Seq<Option<CalendarDate>>,
    today: CalendarDate,
    n: int,
)
    ensures
        match rest_days(acts, dates, today, n) {
            Some(d) => 0 <= d <= WINDOW_DAYS,
            None => true,
        },
        0 <= days_beyond(rest_days(acts, dates, today, n), REST_GRACE_DAYS as int) <= WINDOW_DAYS
            - REST_GRACE_DAYS,
    decreases n,
{
    if n > 0 {
        lemma_rest_days_bound(acts, dates, today, n - 1);
    }
}

/// The endurance index does not decay while the nearest long ride is at most
/// 14 days old, and decays by the days beyond 14 where it is older.
pub proof fn lemma_enduro_decay(
    terms: EnduroTerms,
    acts: Seq<ActivitySummary>,
    dates: Seq<Option<CalendarDate>>,
    today: CalendarDate,
)
    requires
        terms.is_terms_of(acts, dates, today),
    ensures
        match terms.nearest_long_age {
            Some(age) => if age > LONG_RIDE_GRACE_DAYS {
                terms.decay_days == age - LONG_RIDE_GRACE_DAYS
            } else {
                terms.decay_days == 0
            },
            None => terms.decay_days == 0,
        },
{
}

/// The fitness index does not decay within 3 rest days, and decays by the
/// days beyond 3 after more.
pub proof fn lemma_fitness_decay(
    terms: FitnessTerms,
    acts: Seq<ActivitySummary>,
    dates: Seq<Option<CalendarDate>>,
    today: CalendarDate,
)
    requires
        terms.is_terms_of(acts, dates, today),
    ensures
        if terms.rest_days > REST_GRACE_DAYS {
            terms.decay_days == terms.rest_days - REST_GRACE_DAYS
        } else {
            terms.decay_days == 0
        },
{
}

/// The rest days are the least age at which the window has an activity on or
/// before today: some activity has that age and none is more recent.
pub proof fn lemma_rest_days_least(
    acts: Seq<ActivitySummary>,
    dates: Seq<Option<CalendarDate>>,
    today: CalendarDate,
    n: int,
)
    requires
        0 <= n <= acts.len(),
    ensures
        match rest_days(acts, dates, today, n) {
            Some(d) => {
                &&& exists|i: int|
                    0 <= i < n && in_window(date_at(dates, i), today) && #[trigger] age_on(
                        date_at(dates, i),
                        today,
                    ) == d
                &&& forall|i: int|
                    0 <= i < n && in_window(date_at(dates, i), today) && age_on(
                        date_at(dates, i),
                        today,
                    ) >= 0 ==> d <= #[trigger] age_on(date_at(dates, i), today)
            },
            None => forall|i: int|
                0 <= i < n && in_window(date_at(dates, i), today) ==> #[trigger] age_on(
                    date_at(dates, i),
                    today,
                ) < 0,
        },
    decreases n,
{
    if n > 0 {
        lemma_rest_days_least(acts, dates, today, n - 1);
        let last = date_at(dates, n - 1);
        if in_window(last, today) && age_on(last, today) >= 0 {
            let d = rest_days(acts, dates, today, n).unwrap();
            if d == age_on(last, today) {
                assert(in_window(date_at(dates, n - 1), today) && age_on(
                    date_at(dates, n - 1),
                    today,
                ) == d);
            } else {
                let w = choose|i: int|
                    0 <= i < n - 1 && in_window(date_at(dates, i), today) && #[trigger] age_on(
                        date_at(dates, i),
                        today,
                    ) == d;
                assert(0 <= w < n && in_window(date_at(dates, w), today) && age_on(
                    date_at(dates, w),
                    today,
                ) == d);
            }
        } else {
            match rest_days(acts, dates, today, n) {
                Some(d) => {
                    let w = choose|i: int|
                        0 <= i < n - 1 && in_window(date_at(dates, i), today) && #[trigger] age_on(
                            date_at(dates, i),
                            today,
                        ) == d;
                    assert(0 <= w < n && in_window(date_at(dates, w), today) && age_on(
                        date_at(dates, w),
                        today,
                    ) == d);
                },
                None => {},
            }
        }
    }
}

/// The terms read nothing of an activity outside the window: two lists of
/// activities with the same dates, that agree on distance, duration and
/// stress for the activities in the window, have the same terms.
pub proof fn lemma_terms_read_the_window(
    a: Seq<ActivitySummary>,
    b: Seq<ActivitySummary>,
    dates: Seq<Option<CalendarDate>>,
    today: CalendarDate,
    n: int,
)
    requires
        0 <= n <= a.len(),
        a.len() == b.len(),
        forall|i: int|
            0 <= i < n && in_window(date_at(dates, i), today) ==> (#[trigger] a[i]).distance
                == b[i].distance && a[i].duration == b[i].duration && a[i].training_stress_score
                == b[i].training_stress_score,
    ensures
        week_durations(a, dates, today, n) == week_durations(b, dates, today, n),
        stress_terms(a, dates, today, n) == stress_terms(b, dates, today, n),
        long_rides(a, dates, today, n) == long_rides(b, dates, today, n),
        nearest_long_age(a, dates, today, n) == nearest_long_age(b, dates, today, n),
        rest_days(a, dates, today, n) == rest_days(b, dates, today, n),
    decreases n,
{
    if n > 0 {
        lemma_terms_read_the_window(a, b, dates, today, n - 1);
    }
}

/// The threshold of a long ride encodes 80000 meters.
pub proof fn lemma_long_ride_threshold()
    ensures
        encodes_integer(LONG_RIDE_METERS_BITS, 80000),
{
    lemma2_to64_rest();
    lemma_pow2_adds(36, 1038);
    assert((FRACTION_RANGE + 0x3_8800_0000_0000) * pow2(1038) == 80000 * (pow2(36) * pow2(1038)))
        by (nonlinear_arith)
        requires
            FRACTION_RANGE + 0x3_8800_0000_0000 == 80000 * pow2(36),
    ;
}

/// A ride is long exactly where its distance is a number of at least 80000
/// meters.
pub proof fn lemma_long_means_80000(a: ActivitySummary)
    ensures
        is_long(a) <==> !a.distance.spec_is_nan() && scaled_value(a.distance.bits) >= 80000 * pow2(
            1074,
        ),
{
    lemma_long_ride_threshold();
    if !a.distance.spec_is_nan() {
        lemma_order_is_that_of_values(Scalar { bits: LONG_RIDE_METERS_BITS }, a.distance);
    }
}

} // verus!
