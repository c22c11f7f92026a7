//! Activity summaries bucketed by calendar period.

use vstd::prelude::*;
use vstd::string::*;
use crate::calendar::{date_at, rfc3339_utc_date, CalendarDate};
use crate::scalar::Scalar;
use crate::schema::{start_dates, start_dates_of, ActivitySummary};
use crate::text::{
    contains_text, decimal, lemma_bytes_before_irreflexive, lemma_bytes_before_transitive,
    lemma_text_order_total, padded_decimal_string, same_text, signed_decimal,
    signed_decimal_string, sorts_before, text_before, texts, zero_padded,
};

verus! {

/// The calendar period by which activities are bucketed.
#[derive(Debug, Clone, Copy)]
pub enum Period {
    Day,
    Week,
    Month,
    Year,
}

/// The key of the period that a date falls in: the ISO date for a day,
/// `{iso_year}-W{iso_week:02}` for a week, `{year}-{month:02}` for a month,
/// `{year}` for a year.
pub open spec fn period_key_text(date: CalendarDate, p: Period) -> Seq<char> {
    match p {
        Period::Day => date.spec_text(),
        Period::Week => signed_decimal(date.iso_year as int) + seq!['-', 'W'] + zero_padded(
            decimal(date.iso_week as nat),
            2,
        ),
        Period::Month => signed_decimal(date.year as int) + seq!['-'] + zero_padded(
            decimal(date.month as nat),
            2,
        ),
        Period::Year => signed_decimal(date.year as int),
    }
}

/// The key of the period that `date` falls in.
pub fn period_key(date: &CalendarDate, p: Period) -> (r: String)
    ensures
        r@ == period_key_text(*date, p),
{
    match p {
        Period::Day => date.text(),
        Period::Week => {
            proof {
                reveal_strlit("-W");
            }
            let mut out = signed_decimal_string(date.iso_year as i64);
            out.append("-W");
            out.append(padded_decimal_string(date.iso_week as u64, 2).as_str());
            out
        },
        Period::Month => {
            proof {
                reveal_strlit("-");
            }
            let mut out = signed_decimal_string(date.year as i64);
            out.append("-");
            out.append(padded_decimal_string(date.month as u64, 2).as_str());
            out
        },
        Period::Year => signed_decimal_string(date.year as i64),
    }
}

/// What a statistics query asks for: the period, and the activities that
/// count. Without an id filter every id counts; with a type filter only the
/// activities that have one of the listed types count.
pub struct Query {
    pub period: Period,
    pub ids: Option<Seq<u64>>,
    pub types: Option<Seq<Seq<char>>>,
}

/// The terms that the activities of one period contribute to each statistic,
/// in the order of the activities.
pub struct Tally {
    pub rides: nat,
    pub distance: Seq<Scalar>,
    pub weighted_power: Seq<Scalar>,
    pub intensity_factor: Seq<Scalar>,
    pub training_stress: Seq<Scalar>,
    pub average_speed: Seq<Scalar>,
}

/// `terms` with `value` added where there is one.
pub open spec fn with_known(terms: Seq<Scalar>, value: Option<Scalar>) -> Seq<Scalar> {
    match value {
        Some(v) => terms.push(v),
        None => terms,
    }
}

/// The tally of no activity.
pub open spec fn empty_tally() -> Tally {
    Tally {
        rides: 0,
        distance: Seq::empty(),
        weighted_power: Seq::empty(),
        intensity_factor: Seq::empty(),
        training_stress: Seq::empty(),
        average_speed: Seq::empty(),
    }
}

/// The tally with one more activity.
pub open spec fn tally_with(t: Tally, a: ActivitySummary) -> Tally {
    Tally {
        rides: t.rides + 1,
        distance: t.distance.push(a.distance),
        weighted_power: with_known(t.weighted_power, a.weighted_average_power),
        intensity_factor: with_known(t.intensity_factor, a.intensity_factor),
        training_stress: with_known(t.training_stress, a.training_stress_score),
        average_speed: with_known(t.average_speed, a.average_speed),
    }
}

/// Whether an activity passes the filters: its id is one of `ids`, where ids
/// are given, and its type is one of `types`, where types are given.
pub open spec fn passes(
    a: ActivitySummary,
    ids: Option<Seq<u64>>,
    types: Option<Seq<Seq<char>>>,
) -> bool {
    &&& match ids {
        Some(ids) => ids.contains(a.id),
        None => true,
    }
    &&& match types {
        Some(types) => match a.activity_type {
            Some(t) => types.contains(t@),
            None => false,
        },
        None => true,
    }
}

/// Whether the query counts the activity.
pub open spec fn selected(a: ActivitySummary, q: Query) -> bool {
    passes(a, q.ids, q.types)
}

/// The key of the period that a date falls in, where there is a date.
pub open spec fn key_of(date: Option<CalendarDate>, p: Period) -> Option<Seq<char>> {
    match date {
        Some(d) => Some(period_key_text(d, p)),
        None => None,
    }
}

/// Whether the activity at position `i` counts under the key `key`: the
/// query counts it and its date falls in the period with that key.
pub open spec fn counts_under(
    acts: Seq<ActivitySummary>,
    dates: Seq<Option<CalendarDate>>,
    q: Query,
    key: Seq<char>,
    i: int,
) -> bool {
    selected(acts[i], q) && key_of(date_at(dates, i), q.period) == Some(key)
}

/// Whether some activity counts under the key `key`.
pub open spec fn some_counts_under(
    acts: Seq<ActivitySummary>,
    dates: Seq<Option<CalendarDate>>,
    q: Query,
    key: Seq<char>,
) -> bool {
    exists|i: int| 0 <= i < acts.len() && #[trigger] counts_under(acts, dates, q, key, i)
}

/// The tally, under the key `key`, of the first `n` activities.
pub open spec fn tally(
    acts: Seq<ActivitySummary>,
    dates: Seq<Option<CalendarDate>>,
    q: Query,
    key: Seq<char>,
    n: int,
) -> Tally
    decreases n,
{
    if n <= 0 {
        empty_tally()
    } else if counts_under(acts, dates, q, key, n - 1) {
        tally_with(tally(acts, dates, q, key, n - 1), acts[n - 1])
    } else {
        tally(acts, dates, q, key, n - 1)
    }
}

/// The number of activities among the first `n` that the query counts.
pub open spec fn selected_count(acts: Seq<ActivitySummary>, q: Query, n: int) -> int
    decreases n,
{
    if n <= 0 {
        0
    } else {
        selected_count(acts, q, n - 1) + if selected(acts[n - 1], q) {
            1int
        } else {
            0int
        }
    }
}

/// The statistics of one period. Each real-valued statistic is given by its
/// terms: `distance` and `training_stress` are the sums of theirs, and
/// `weighted_power`, `intensity_factor` and `average_speed` are the means of
/// theirs, absent where there is no term.
#[derive(Debug)]
pub struct StatsEntry {
    pub period: String,
    pub rides: usize,
    pub distance: Vec<Scalar>,
    pub weighted_power: Vec<Scalar>,
    pub intensity_factor: Vec<Scalar>,
    pub training_stress: Vec<Scalar>,
    pub average_speed: Vec<Scalar>,
}

impl StatsEntry {
    /// The terms that the entry holds.
    pub open spec fn tally(self) -> Tally {
        Tally {
            rides: self.rides as nat,
            distance: self.distance@,
            weighted_power: self.weighted_power@,
            intensity_factor: self.intensity_factor@,
            training_stress: self.training_stress@,
            average_speed: self.average_speed@,
        }
    }
}

/// The rides of all entries together.
pub open spec fn total_rides(entries: Seq<StatsEntry>) -> int
    decreases entries.len(),
{
    if entries.len() == 0 {
        0
    } else {
        total_rides(entries.drop_last()) + entries.last().rides
    }
}

/// Whether one of the entries has the key.
pub open spec fn has_key(entries: Seq<StatsEntry>, key: Seq<char>) -> bool {
    exists|j: int| 0 <= j < entries.len() && #[trigger] entries[j].period@ == key
}

/// Whether the entries are in strictly ascending order of their keys.
pub open spec fn ascending(entries: Seq<StatsEntry>) -> bool {
    forall|j: int, k: int|
        0 <= j < k < entries.len() ==> text_before(
            #[trigger] entries[j].period@,
            #[trigger] entries[k].period@,
        )
}

/// Whether `entries` are the statistics of the first `n` activities: one
/// entry for each key under which an activity counts, in ascending order of
/// the keys, each with the tally of its key.
pub open spec fn is_stats_of(
    entries: Seq<StatsEntry>,
    acts: Seq<ActivitySummary>,
    dates: Seq<Option<CalendarDate>>,
    q: Query,
    n: int,
) -> bool {
    &&& ascending(entries)
    &&& forall|j: int|
        0 <= j < entries.len() ==> (#[trigger] entries[j]).tally() == tally(
            acts,
            dates,
            q,
            entries[j].period@,
            n,
        ) && entries[j].rides >= 1
    &&& forall|key: Seq<char>|
        #[trigger] tally(acts, dates, q, key, n).rides > 0 ==> has_key(entries, key)
    &&& total_rides(entries) == selected_count(acts, q, n)
}

/// Why statistics could not be computed.
#[derive(Debug, Clone, Copy)]
pub enum StatsError {
    /// A counted activity has no date: its start date is no RFC 3339
    /// date-and-time.
    InvalidStartDate {
        /// The position of the activity among those given.
        index: usize,
        /// The id of the activity.
        id: u64,
    },
}

/// Whether every counted activity among the first `n` has a start date.
pub open spec fn all_dated(
    acts: Seq<ActivitySummary>,
    dates: Seq<Option<CalendarDate>>,
    q: Query,
    n: int,
) -> bool {
    forall|i: int| 0 <= i < n && selected(#[trigger] acts[i], q) ==> date_at(dates, i) is Some
}

/// The query that the arguments of `activity_stats` make.
pub open spec fn query_of(period: Period, ids: Option<&[u64]>, types: Option<&[String]>) -> Query {
    Query {
        period,
        ids: match ids {
            Some(l) => Some(l@),
            None => None,
        },
        types: match types {
            Some(l) => Some(texts(l@)),
            None => None,
        },
    }
}

/// Whether `id` is one of `ids`.
fn contains_id(ids: &[u64], id: u64) -> (r: bool)
    ensures
        r == ids@.contains(id),
{
    let mut i: usize = 0;
    while i < ids.len()
        invariant
            i <= ids@.len(),
            forall|j: int| 0 <= j < i ==> ids@[j] != id,
        decreases ids@.len() - i,
    {
        if ids[i] == id {
            return true;
        }
        i = i + 1;
    }
    false
}

/// Whether an activity with the id `id` passes the id filter: every id does
/// where no ids are given.
pub fn id_counts(ids: Option<&[u64]>, id: u64) -> (r: bool)
    ensures
        r == match ids {
            Some(l) => l@.contains(id),
            None => true,
        },
{
    match ids {
        Some(l) => contains_id(l, id),
        None => true,
    }
}

/// Whether the activity passes the filters.
pub fn is_selected(a: &ActivitySummary, ids: Option<&[u64]>, types: Option<&[String]>) -> (r: bool)
    ensures
        r == passes(
            *a,
            match ids {
                Some(l) => Some(l@),
                None => None,
            },
            match types {
                Some(l) => Some(texts(l@)),
                None => None,
            },
        ),
{
    let by_id = id_counts(ids, a.id);
    let by_type = match types {
        Some(l) => match &a.activity_type {
            Some(t) => contains_text(l, t.as_str()),
            None => false,
        },
        None => true,
    };
    by_id && by_type
}

/// A tally counts at most one ride per activity.
pub proof fn lemma_tally_rides_bound(
    acts: Seq<ActivitySummary>,
    dates: Seq<Option<CalendarDate>>,
    q: Query,
    key: Seq<char>,
    n: int,
)
    requires
        0 <= n,
    ensures
        tally(acts, dates, q, key, n).rides <= n,
    decreases n,
{
    if n > 0 {
        lemma_tally_rides_bound(acts, dates, q, key, n - 1);
    }
}

/// A tally without rides is the empty tally.
pub proof fn lemma_tally_without_rides(
    acts: Seq<ActivitySummary>,
    dates: Seq<Option<CalendarDate>>,
    q: Query,
    key: Seq<char>,
    n: int,
)
    requires
        tally(acts, dates, q, key, n).rides == 0,
    ensures
        tally(acts, dates, q, key, n) == empty_tally(),
    decreases n,
{
    if n > 0 {
        if !counts_under(acts, dates, q, key, n - 1) {
            lemma_tally_without_rides(acts, dates, q, key, n - 1);
        }
    }
}

/// Putting an entry in adds its rides to the total.
pub proof fn lemma_total_rides_insert(entries: Seq<StatsEntry>, j: int, e: StatsEntry)
    requires
        0 <= j <= entries.len(),
    ensures
        total_rides(entries.insert(j, e)) == total_rides(entries) + e.rides,
    decreases entries.len(),
{
    let after = entries.insert(j, e);
    if j == entries.len() {
        assert(after.drop_last() =~= entries);
    } else {
        lemma_total_rides_insert(entries.drop_last(), j, e);
        assert(after.drop_last() =~= entries.drop_last().insert(j, e));
    }
}

/// Taking an entry out takes its rides from the total.
pub proof fn lemma_total_rides_remove(entries: Seq<StatsEntry>, j: int)
    requires
        0 <= j < entries.len(),
    ensures
        total_rides(entries.remove(j)) == total_rides(entries) - entries[j].rides,
    decreases entries.len(),
{
    let after = entries.remove(j);
    if j < entries.len() - 1 {
        lemma_total_rides_remove(entries.drop_last(), j);
        assert(after.drop_last() =~= entries.drop_last().remove(j));
    }
}

/// An activity that the query does not count leaves the statistics as they
/// are.
proof fn lemma_step_skipped(
    entries: Seq<StatsEntry>,
    acts: Seq<ActivitySummary>,
    dates: Seq<Option<CalendarDate>>,
    q: Query,
    i: int,
)
    requires
        0 <= i < acts.len(),
        is_stats_of(entries, acts, dates, q, i),
        !selected(acts[i], q),
    ensures
        is_stats_of(entries, acts, dates, q, i + 1),
{
    assert forall|key: Seq<char>| #[trigger]
        tally(acts, dates, q, key, i + 1).rides > 0 implies has_key(entries, key) by {
        assert(tally(acts, dates, q, key, i + 1) == tally(acts, dates, q, key, i));
    }
}

/// A counted activity whose key has an entry adds its terms to that entry.
proof fn lemma_step_update(
    before: Seq<StatsEntry>,
    after: Seq<StatsEntry>,
    acts: Seq<ActivitySummary>,
    dates: Seq<Option<CalendarDate>>,
    q: Query,
    i: int,
    key: Seq<char>,
    j: int,
)
    requires
        0 <= i < acts.len(),
        is_stats_of(before, acts, dates, q, i),
        selected(acts[i], q),
        key_of(date_at(dates, i), q.period) == Some(key),
        0 <= j < before.len(),
        before[j].period@ == key,
        after.len() == before.len(),
        after[j].period@ == key,
        after[j].tally() == tally_with(before[j].tally(), acts[i]),
        forall|m: int| 0 <= m < before.len() && m != j ==> after[m] == before[m],
    ensures
        is_stats_of(after, acts, dates, q, i + 1),
{
    assert forall|m: int| 0 <= m < before.len() && m != j implies #[trigger] before[m].period@
        != key by {
        lemma_bytes_before_irreflexive(vstd::utf8::encode_utf8(key));
    }
    assert forall|k: Seq<char>| #[trigger]
        tally(acts, dates, q, k, i + 1).rides > 0 implies has_key(after, k) by {
        if k != key {
            assert(tally(acts, dates, q, k, i + 1) == tally(acts, dates, q, k, i));
            let m = choose|m: int| 0 <= m < before.len() && #[trigger] before[m].period@ == k;
            assert(after[m].period@ == k);
        }
    }
    assert(total_rides(after) == selected_count(acts, q, i + 1)) by {
        lemma_total_rides_remove(before, j);
        lemma_total_rides_insert(before.remove(j), j, after[j]);
        assert(before.remove(j).insert(j, after[j]) =~= after);
    }
}

/// A counted activity whose key has no entry yet gets an entry of its own,
/// in the place that keeps the keys in order.
proof fn lemma_step_insert(
    before: Seq<StatsEntry>,
    e: StatsEntry,
    acts: Seq<ActivitySummary>,
    dates: Seq<Option<CalendarDate>>,
    q: Query,
    i: int,
    j: int,
)
    requires
        0 <= i < acts.len(),
        is_stats_of(before, acts, dates, q, i),
        selected(acts[i], q),
        key_of(date_at(dates, i), q.period) == Some(e.period@),
        0 <= j <= before.len(),
        forall|m: int| 0 <= m < j ==> text_before(#[trigger] before[m].period@, e.period@),
        j < before.len() ==> !text_before(before[j].period@, e.period@) && before[j].period@
            != e.period@,
        e.tally() == tally_with(empty_tally(), acts[i]),
    ensures
        is_stats_of(before.insert(j, e), acts, dates, q, i + 1),
{
    let key = e.period@;
    let after = before.insert(j, e);
    lemma_bytes_before_irreflexive(vstd::utf8::encode_utf8(key));
    assert forall|m: int| j <= m < before.len() implies text_before(
        key,
        #[trigger] before[m].period@,
    ) by {
        lemma_text_order_total(before[j].period@, key);
        if m > j {
            lemma_bytes_before_transitive(
                vstd::utf8::encode_utf8(key),
                vstd::utf8::encode_utf8(before[j].period@),
                vstd::utf8::encode_utf8(before[m].period@),
            );
        }
    }
    lemma_tally_without_rides(acts, dates, q, key, i);
    assert forall|k: Seq<char>| #[trigger]
        tally(acts, dates, q, k, i + 1).rides > 0 implies has_key(after, k) by {
        if k == key {
            assert(after[j].period@ == k);
        } else {
            assert(tally(acts, dates, q, k, i + 1) == tally(acts, dates, q, k, i));
            let m = choose|m: int| 0 <= m < before.len() && #[trigger] before[m].period@ == k;
            if m < j {
                assert(after[m].period@ == k);
            } else {
                assert(after[m + 1].period@ == k);
            }
        }
    }
    lemma_total_rides_insert(before, j, e);
}

/// The first entry whose key does not sort before `key`.
fn lower_bound(entries: &Vec<StatsEntry>, key: &str) -> (j: usize)
    ensures
        j <= entries@.len(),
        forall|m: int| 0 <= m < j ==> text_before(#[trigger] entries@[m].period@, key@),
        j < entries@.len() ==> !text_before(entries@[j as int].period@, key@),
{
    let mut j: usize = 0;
    while j < entries.len()
        invariant
            j <= entries@.len(),
            forall|m: int| 0 <= m < j ==> text_before(#[trigger] entries@[m].period@, key@),
        decreases entries@.len() - j,
    {
        if !sorts_before(entries[j].period.as_str(), key) {
            return j;
        }
        j = j + 1;
    }
    j
}

/// Adds a value to the terms where there is one.
fn push_known(terms: &mut Vec<Scalar>, value: Option<Scalar>)
    ensures
        final(terms)@ == with_known(old(terms)@, value),
{
    match value {
        Some(v) => {
            terms.push(v);
        },
        None => {},
    }
}

/// The entry of a period with a single activity.
fn first_entry(period: String, a: &ActivitySummary) -> (e: StatsEntry)
    ensures
        e.period == period,
        e.tally() == tally_with(empty_tally(), *a),
{
    let mut e = StatsEntry {
        period,
        rides: 1,
        distance: Vec::new(),
        weighted_power: Vec::new(),
        intensity_factor: Vec::new(),
        training_stress: Vec::new(),
        average_speed: Vec::new(),
    };
    e.distance.push(a.distance);
    push_known(&mut e.weighted_power, a.weighted_average_power);
    push_known(&mut e.intensity_factor, a.intensity_factor);
    push_known(&mut e.training_stress, a.training_stress_score);
    push_known(&mut e.average_speed, a.average_speed);
    e
}

/// The entry with one more activity.
fn entry_with(e: StatsEntry, a: &ActivitySummary) -> (r: StatsEntry)
    requires
        e.rides < usize::MAX,
    ensures
        r.period == e.period,
        r.tally() == tally_with(e.tally(), *a),
{
    let mut e = e;
    e.rides = e.rides + 1;
    e.distance.push(a.distance);
    push_known(&mut e.weighted_power, a.weighted_average_power);
    push_known(&mut e.intensity_factor, a.intensity_factor);
    push_known(&mut e.training_stress, a.training_stress_score);
    push_known(&mut e.average_speed, a.average_speed);
    e
}

/// Buckets activity summaries by calendar period, with the date on which
/// each activity starts given: `dates` holds them in the order of
/// `activities`, and an activity beyond the end of `dates` has none.
///
/// An activity counts where its id is one of `ids`, if ids are given, and
/// its type is one of `types`, if types are given; an activity without a
/// type does not count under a type filter. Each counted activity falls in
/// the period of its date. The result has one entry per period in which an
/// activity counts, in ascending order of the period keys, with the
/// activity's terms in the order of `activities`.
///
/// Fails at the first counted activity without a date.
pub fn bucket_by_period(
    period: Period,
    ids: Option<&[u64]>,
    types: Option<&[String]>,
    activities: &[ActivitySummary],
    dates: &[Option<CalendarDate>],
) -> (r: Result<Vec<StatsEntry>, StatsError>)
    ensures
        match r {
            Ok(entries) => {
                &&& all_dated(
                    activities@,
                    dates@,
                    query_of(period, ids, types),
                    activities@.len() as int,
                )
                &&& is_stats_of(
                    entries@,
                    activities@,
                    dates@,
                    query_of(period, ids, types),
                    activities@.len() as int,
                )
            },
            Err(StatsError::InvalidStartDate { index, id }) => {
                &&& index < activities@.len()
                &&& selected(activities@[index as int], query_of(period, ids, types))
                &&& date_at(dates@, index as int) is None
                &&& all_dated(activities@, dates@, query_of(period, ids, types), index as int)
                &&& id == activities@[index as int].id
            },
        },
{
    let ghost q = query_of(period, ids, types);
    let ghost acts = activities@;
    let mut entries: Vec<StatsEntry> = Vec::new();
    let mut i: usize = 0;
    while i < activities.len()
        invariant
            i <= activities@.len(),
            acts == activities@,
            q == query_of(period, ids, types),
            all_dated(acts, dates@, q, i as int),
            is_stats_of(entries@, acts, dates@, q, i as int),
        decreases activities@.len() - i,
    {
        let a = &activities[i];
        if is_selected(a, ids, types) {
            let known = if i < dates.len() {
                dates[i]
            } else {
                None
            };
            let date = match known {
                Some(d) => d,
                None => {
                    return Err(StatsError::InvalidStartDate { index: i, id: a.id });
                },
            };
            let key = period_key(&date, period);
            let j = lower_bound(&entries, key.as_str());
            let ghost before = entries@;
            let found = j < entries.len() && same_text(entries[j].period.as_str(), key.as_str());
            if found {
                proof {
                    lemma_tally_rides_bound(acts, dates@, q, key@, i as int);
                }
                let old_entry = entries.remove(j);
                let new_entry = entry_with(old_entry, a);
                entries.insert(j, new_entry);
                proof {
                    lemma_step_update(before, entries@, acts, dates@, q, i as int, key@, j as int);
                }
            } else {
                let e = first_entry(key, a);
                proof {
                    lemma_step_insert(before, e, acts, dates@, q, i as int, j as int);
                }
                entries.insert(j, e);
            }
        } else {
            proof {
                lemma_step_skipped(entries@, acts, dates@, q, i as int);
            }
        }
        i = i + 1;
    }
    Ok(entries)
}

/// Buckets activity summaries by calendar period. Each counted activity
/// falls in the period of the UTC date of its start; for the rest see
/// `bucket_by_period`.
///
/// Fails at the first counted activity whose start date is no RFC 3339
/// date-and-time.
pub fn activity_stats(
    period: Period,
    ids: Option<&[u64]>,
    types: Option<&[String]>,
    activities: &[ActivitySummary],
) -> (r: Result<Vec<StatsEntry>, StatsError>)
    ensures
        match r {
            Ok(entries) => {
                &&& all_dated(
                    activities@,
                    start_dates_of(activities@),
                    query_of(period, ids, types),
                    activities@.len() as int,
                )
                &&& is_stats_of(
                    entries@,
                    activities@,
                    start_dates_of(activities@),
                    query_of(period, ids, types),
                    activities@.len() as int,
                )
            },
            Err(StatsError::InvalidStartDate { index, id }) => {
                &&& index < activities@.len()
                &&& selected(activities@[index as int], query_of(period, ids, types))
                &&& rfc3339_utc_date(activities@[index as int].start_date@) is None
                &&& all_dated(
                    activities@,
                    start_dates_of(activities@),
                    query_of(period, ids, types),
                    index as int,
                )
                &&& id == activities@[index as int].id
            },
        },
{
    let dates = start_dates(activities);
    bucket_by_period(period, ids, types, activities, dates.as_slice())
}

/// A key has a ride exactly where some activity counts under it.
pub proof fn lemma_tally_has_ride(
    acts: Seq<ActivitySummary>,
    dates: Seq<Option<CalendarDate>>,
    q: Query,
    key: Seq<char>,
    n: int,
)
    requires
        0 <= n <= acts.len(),
    ensures
        tally(acts, dates, q, key, n).rides > 0 <==> exists|i: int|
            0 <= i < n && #[trigger] counts_under(acts, dates, q, key, i),
    decreases n,
{
    if n > 0 {
        lemma_tally_has_ride(acts, dates, q, key, n - 1);
        if tally(acts, dates, q, key, n - 1).rides > 0 {
            let w = choose|i: int|
                0 <= i < n - 1 && #[trigger] counts_under(acts, dates, q, key, i);
        }
    }
}

/// The buckets are the periods of the counted activities: every counted
/// activity has the bucket of its period, every bucket is the period of a
/// counted activity, and no period has two buckets.
pub proof fn lemma_buckets_are_the_periods(
    entries: Seq<StatsEntry>,
    acts: Seq<ActivitySummary>,
    dates: Seq<Option<CalendarDate>>,
    q: Query,
)
    requires
        is_stats_of(entries, acts, dates, q, acts.len() as int),
    ensures
        forall|i: int, key: Seq<char>|
            0 <= i < acts.len() && #[trigger] counts_under(acts, dates, q, key, i) ==> has_key(
                entries,
                key,
            ),
        forall|j: int|
            0 <= j < entries.len() ==> some_counts_under(
                acts,
                dates,
                q,
                (#[trigger] entries[j]).period@,
            ),
        forall|j: int, k: int|
            0 <= j < entries.len() && 0 <= k < entries.len() && (#[trigger] entries[j]).period@
                == (#[trigger] entries[k]).period@ ==> j == k,
{
    let n = acts.len() as int;
    assert forall|i: int, key: Seq<char>|
        0 <= i < acts.len() && #[trigger] counts_under(acts, dates, q, key, i) implies has_key(
        entries,
        key,
    ) by {
        lemma_tally_has_ride(acts, dates, q, key, n);
    }
    assert forall|j: int| 0 <= j < entries.len() implies some_counts_under(
        acts,
        dates,
        q,
        (#[trigger] entries[j]).period@,
    ) by {
        lemma_tally_has_ride(acts, dates, q, entries[j].period@, n);
    }
    assert forall|j: int, k: int|
        0 <= j < entries.len() && 0 <= k < entries.len() && (#[trigger] entries[j]).period@
            == (#[trigger] entries[k]).period@ implies j == k by {
        lemma_one_entry_per_key(entries, j, k);
    }
}

/// Without filters the rides of all buckets together are as many as the
/// activities.
pub proof fn lemma_unfiltered_rides_total(
    entries: Seq<StatsEntry>,
    acts: Seq<ActivitySummary>,
    dates: Seq<Option<CalendarDate>>,
    period: Period,
)
    requires
        is_stats_of(
            entries,
            acts,
            dates,
            Query { period, ids: None, types: None },
            acts.len() as int,
        ),
    ensures
        total_rides(entries) == acts.len(),
{
    lemma_unfiltered_counts_all(acts, period, acts.len() as int);
}

/// Without filters every activity counts: the rides of all buckets together
/// are as many as the activities.
pub proof fn lemma_unfiltered_counts_all(acts: Seq<ActivitySummary>, period: Period, n: int)
    requires
        0 <= n <= acts.len(),
    ensures
        selected_count(acts, Query { period, ids: None, types: None }, n) == n,
    decreases n,
{
    if n > 0 {
        lemma_unfiltered_counts_all(acts, period, n - 1);
    }
}

/// The keys of the entries are distinct: each period has one bucket.
pub proof fn lemma_one_entry_per_key(entries: Seq<StatsEntry>, j: int, k: int)
    requires
        ascending(entries),
        0 <= j < entries.len(),
        0 <= k < entries.len(),
        entries[j].period@ == entries[k].period@,
    ensures
        j == k,
{
    lemma_bytes_before_irreflexive(vstd::utf8::encode_utf8(entries[j].period@));
}

} // verus!
