//! Append-only dated histories: FTP, weight, power-to-weight and the two
//! composite indices.
//!
//! A history only grows at its end. Its current value is that of its last
//! entry. The FTP, weight and power-to-weight histories are never read
//! empty: a first entry is seeded on demand.

use vstd::prelude::*;
use vstd::arithmetic::power2::{lemma2_to64_rest, lemma_pow2_adds, pow2};
use vstd::string::*;
use crate::scalar::{encodes_integer, Scalar, FRACTION_RANGE};

verus! {

/// Bit pattern of 240.0, the FTP in watts that an empty history is seeded
/// with.
pub const DEFAULT_FTP_BITS: u64 = 0x406E_0000_0000_0000;

/// Bit pattern of 75.0, the weight in kilograms that an empty history is
/// seeded with.
pub const DEFAULT_WEIGHT_BITS: u64 = 0x4052_C000_0000_0000;

/// One dated value of a history.
#[derive(Debug, Clone)]
pub struct TimeSeriesEntry {
    pub date: String,
    pub value: Scalar,
}

/// A dated value, by the text of its date.
pub struct EntryView {
    pub date: Seq<char>,
    pub value: Scalar,
}

impl View for TimeSeriesEntry {
    type V = EntryView;

    open spec fn view(&self) -> EntryView {
        EntryView { date: self.date@, value: self.value }
    }
}

/// A history, by the texts of its dates.
pub open spec fn entries(history: Seq<TimeSeriesEntry>) -> Seq<EntryView> {
    Seq::new(history.len(), |i: int| history[i]@)
}

/// The history with a first entry where it had none.
pub open spec fn seeded(history: Seq<EntryView>, today: Seq<char>, default: Scalar) -> Seq<
    EntryView,
> {
    if history.len() == 0 {
        seq![EntryView { date: today, value: default }]
    } else {
        history
    }
}

/// The current value of a history: that of its last entry, or `default`
/// where it has none.
pub open spec fn current_value(history: Seq<EntryView>, default: Scalar) -> Scalar {
    if history.len() == 0 {
        default
    } else {
        history[history.len() - 1].value
    }
}

/// The history with one more entry.
pub open spec fn recorded(history: Seq<EntryView>, today: Seq<char>, value: Scalar) -> Seq<
    EntryView,
> {
    history.push(EntryView { date: today, value })
}

/// The most recent entries first, at most `count` of them where a count is
/// given.
pub open spec fn most_recent(history: Seq<EntryView>, count: Option<usize>) -> Seq<EntryView> {
    let kept = match count {
        Some(n) => if n < history.len() {
            n as int
        } else {
            history.len() as int
        },
        None => history.len() as int,
    };
    Seq::new(kept as nat, |i: int| history[history.len() - 1 - i])
}

/// Seeds an empty history with `default`, dated today. Tells whether it did,
/// that is whether the history has to be persisted.
pub fn seed(history: &mut Vec<TimeSeriesEntry>, today: &str, default: Scalar) -> (changed: bool)
    ensures
        entries(final(history)@) == seeded(entries(old(history)@), today@, default),
        changed == (old(history)@.len() == 0),
        !changed ==> final(history)@ == old(history)@,
        final(history)@.len() >= 1,
{
    if history.len() == 0 {
        history.push(TimeSeriesEntry { date: String::from_str(today), value: default });
        true
    } else {
        false
    }
}

/// The current value of a history.
pub fn current(history: &Vec<TimeSeriesEntry>, default: Scalar) -> (r: Scalar)
    ensures
        r == current_value(entries(history@), default),
{
    if history.len() == 0 {
        default
    } else {
        history[history.len() - 1].value
    }
}

/// Appends a value, dated today.
pub fn record(history: &mut Vec<TimeSeriesEntry>, today: &str, value: Scalar)
    ensures
        entries(final(history)@) == recorded(entries(old(history)@), today@, value),
{
    history.push(TimeSeriesEntry { date: String::from_str(today), value });
}

/// The most recent entries first, at most `count` of them where a count is
/// given.
pub fn recent(history: &Vec<TimeSeriesEntry>, count: Option<usize>) -> (r: Vec<TimeSeriesEntry>)
    ensures
        entries(r@) == most_recent(entries(history@), count),
{
    let len = history.len();
    let kept: usize = match count {
        Some(n) => if n < len {
            n
        } else {
            len
        },
        None => len,
    };
    let mut out: Vec<TimeSeriesEntry> = Vec::new();
    let mut i: usize = 0;
    while i < kept
        invariant
            i <= kept <= len,
            len == history@.len(),
            out@.len() == i,
            forall|j: int| 0 <= j < i ==> out@[j]@ == history@[len - 1 - j]@,
        decreases kept - i,
    {
        let e = &history[len - 1 - i];
        out.push(TimeSeriesEntry { date: e.date.clone(), value: e.value });
        i = i + 1;
    }
    out
}

/// A ratio that the caller evaluates: `dividend / divisor`.
#[derive(Debug, Clone, Copy)]
pub struct Quotient {
    pub dividend: Scalar,
    pub divisor: Scalar,
}

/// The three histories of the rider's threshold: FTP in watts, weight in
/// kilograms, and their ratio.
#[derive(Debug)]
pub struct Ledgers {
    pub ftp: Vec<TimeSeriesEntry>,
    pub weight: Vec<TimeSeriesEntry>,
    pub wkg: Vec<TimeSeriesEntry>,
}

/// The three histories, by the texts of their dates.
pub struct LedgersView {
    pub ftp: Seq<EntryView>,
    pub weight: Seq<EntryView>,
    pub wkg: Seq<EntryView>,
}

impl View for Ledgers {
    type V = LedgersView;

    open spec fn view(&self) -> LedgersView {
        LedgersView {
            ftp: entries(self.ftp@),
            weight: entries(self.weight@),
            wkg: entries(self.wkg@),
        }
    }
}

/// The default FTP.
pub open spec fn default_ftp() -> Scalar {
    Scalar { bits: DEFAULT_FTP_BITS }
}

/// The default weight.
pub open spec fn default_weight() -> Scalar {
    Scalar { bits: DEFAULT_WEIGHT_BITS }
}

impl LedgersView {
    /// The histories after the FTP history was read: seeded where empty.
    pub open spec fn with_ftp_seeded(self, today: Seq<char>) -> LedgersView {
        LedgersView { ftp: seeded(self.ftp, today, default_ftp()), ..self }
    }

    /// The histories after the weight history was read: seeded where empty.
    pub open spec fn with_weight_seeded(self, today: Seq<char>) -> LedgersView {
        LedgersView { weight: seeded(self.weight, today, default_weight()), ..self }
    }

    /// The current FTP, the default where the history is empty.
    pub open spec fn current_ftp(self) -> Scalar {
        current_value(self.ftp, default_ftp())
    }

    /// The current weight, the default where the history is empty.
    pub open spec fn current_weight(self) -> Scalar {
        current_value(self.weight, default_weight())
    }

    /// The ratio of the current FTP to the current weight.
    pub open spec fn power_to_weight(self) -> Quotient {
        Quotient { dividend: self.current_ftp(), divisor: self.current_weight() }
    }

    /// The histories after a new FTP was set: the FTP history, seeded where
    /// empty, has the new entry, and the weight history is seeded where
    /// empty.
    pub open spec fn with_ftp(self, today: Seq<char>, ftp: Scalar) -> LedgersView {
        let read = self.with_ftp_seeded(today);
        LedgersView { ftp: recorded(read.ftp, today, ftp), ..read }.with_weight_seeded(today)
    }

    /// The histories after a new weight was set.
    pub open spec fn with_weight(self, today: Seq<char>, weight: Scalar) -> LedgersView {
        let read = self.with_weight_seeded(today);
        LedgersView { weight: recorded(read.weight, today, weight), ..read }.with_ftp_seeded(today)
    }

    /// The histories after the power-to-weight history was read with the
    /// ratio `ratio` at hand: seeded with it where empty.
    pub open spec fn with_wkg_seeded(self, today: Seq<char>, ratio: Scalar) -> LedgersView {
        LedgersView { wkg: seeded(self.wkg, today, ratio), ..self }
    }

    /// The histories after the ratio `ratio` was recorded.
    pub open spec fn with_wkg(self, today: Seq<char>, ratio: Scalar) -> LedgersView {
        let read = self.with_wkg_seeded(today, ratio);
        LedgersView { wkg: recorded(read.wkg, today, ratio), ..read }
    }
}

impl Ledgers {
    /// Makes sure the FTP history has an entry: an empty one is seeded with
    /// 240 watts, dated today. Tells whether it was seeded.
    pub fn get_ftp_history(&mut self, today: &str) -> (changed: bool)
        ensures
            final(self)@ == old(self)@.with_ftp_seeded(today@),
            changed == (old(self).ftp@.len() == 0),
            final(self).ftp@.len() >= 1,
    {
        seed(&mut self.ftp, today, Scalar { bits: DEFAULT_FTP_BITS })
    }

    /// Makes sure the weight history has an entry: an empty one is seeded
    /// with 75 kilograms, dated today. Tells whether it was seeded.
    pub fn get_weight_history(&mut self, today: &str) -> (changed: bool)
        ensures
            final(self)@ == old(self)@.with_weight_seeded(today@),
            changed == (old(self).weight@.len() == 0),
            final(self).weight@.len() >= 1,
    {
        seed(&mut self.weight, today, Scalar { bits: DEFAULT_WEIGHT_BITS })
    }

    /// The current FTP, after the history was seeded where empty.
    pub fn current_ftp(&mut self, today: &str) -> (r: Scalar)
        ensures
            final(self)@ == old(self)@.with_ftp_seeded(today@),
            r == final(self)@.current_ftp(),
    {
        self.get_ftp_history(today);
        current(&self.ftp, Scalar { bits: DEFAULT_FTP_BITS })
    }

    /// The current weight, after the history was seeded where empty.
    pub fn current_weight(&mut self, today: &str) -> (r: Scalar)
        ensures
            final(self)@ == old(self)@.with_weight_seeded(today@),
            r == final(self)@.current_weight(),
    {
        self.get_weight_history(today);
        current(&self.weight, Scalar { bits: DEFAULT_WEIGHT_BITS })
    }

    /// The FTP history, most recent first, after it was seeded where empty.
    pub fn ftp_history(&mut self, today: &str, count: Option<usize>) -> (r: Vec<TimeSeriesEntry>)
        ensures
            final(self)@ == old(self)@.with_ftp_seeded(today@),
            entries(r@) == most_recent(final(self)@.ftp, count),
    {
        self.get_ftp_history(today);
        recent(&self.ftp, count)
    }

    /// The weight history, most recent first, after it was seeded where
    /// empty.
    pub fn weight_history(&mut self, today: &str, count: Option<usize>) -> (r: Vec<
        TimeSeriesEntry,
    >)
        ensures
            final(self)@ == old(self)@.with_weight_seeded(today@),
            entries(r@) == most_recent(final(self)@.weight, count),
    {
        self.get_weight_history(today);
        recent(&self.weight, count)
    }

    /// The ratio that the power-to-weight history is seeded with: current
    /// FTP over current weight, after both histories were seeded where
    /// empty.
    pub fn power_to_weight(&mut self, today: &str) -> (r: Quotient)
        ensures
            final(self)@ == old(self)@.with_ftp_seeded(today@).with_weight_seeded(today@),
            r == final(self)@.power_to_weight(),
    {
        let dividend = self.current_ftp(today);
        let divisor = self.current_weight(today);
        Quotient { dividend, divisor }
    }

    /// Sets a new FTP, dated today, and gives the power-to-weight ratio that
    /// follows from it: the new FTP over the current weight. The caller
    /// evaluates the ratio and records it with `record_wkg`.
    pub fn set_ftp(&mut self, today: &str, ftp: Scalar) -> (r: Quotient)
        ensures
            final(self)@ == old(self)@.with_ftp(today@, ftp),
            r == final(self)@.power_to_weight(),
            r.dividend == ftp,
            r.divisor == old(self)@.current_weight(),
    {
        self.get_ftp_history(today);
        record(&mut self.ftp, today, ftp);
        let divisor = self.current_weight(today);
        Quotient { dividend: ftp, divisor }
    }

    /// Sets a new weight, dated today, and gives the power-to-weight ratio
    /// that follows from it: the current FTP over the new weight.
    pub fn set_weight(&mut self, today: &str, weight: Scalar) -> (r: Quotient)
        ensures
            final(self)@ == old(self)@.with_weight(today@, weight),
            r == final(self)@.power_to_weight(),
            r.dividend == old(self)@.current_ftp(),
            r.divisor == weight,
    {
        self.get_weight_history(today);
        record(&mut self.weight, today, weight);
        let dividend = self.current_ftp(today);
        Quotient { dividend, divisor: weight }
    }

    /// Whether the power-to-weight history has to be seeded before it is
    /// read.
    pub fn wkg_is_empty(&self) -> (r: bool)
        ensures
            r == (self.wkg@.len() == 0),
    {
        self.wkg.len() == 0
    }

    /// Makes sure the power-to-weight history has an entry: an empty one is
    /// seeded with `ratio`, dated today. `ratio` is the value of
    /// `power_to_weight`. Tells whether it was seeded.
    pub fn get_wkg_history(&mut self, today: &str, ratio: Scalar) -> (changed: bool)
        ensures
            final(self)@ == old(self)@.with_wkg_seeded(today@, ratio),
            changed == (old(self).wkg@.len() == 0),
            final(self).wkg@.len() >= 1,
    {
        seed(&mut self.wkg, today, ratio)
    }

    /// The current power-to-weight ratio; 0 where the history is empty.
    pub fn current_wkg(&self) -> (r: Scalar)
        ensures
            r == current_value(self@.wkg, Scalar::spec_zero()),
    {
        current(&self.wkg, Scalar::zero())
    }

    /// The power-to-weight history, most recent first.
    pub fn wkg_history(&self, count: Option<usize>) -> (r: Vec<TimeSeriesEntry>)
        ensures
            entries(r@) == most_recent(self@.wkg, count),
    {
        recent(&self.wkg, count)
    }

    /// Records a power-to-weight ratio, dated today, after the history was
    /// seeded with it where empty.
    pub fn record_wkg(&mut self, today: &str, ratio: Scalar)
        ensures
            final(self)@ == old(self)@.with_wkg(today@, ratio),
    {
        self.get_wkg_history(today, ratio);
        record(&mut self.wkg, today, ratio);
    }
}

/// The current value of an index: 0 where it was never computed.
pub fn current_score(history: &Vec<TimeSeriesEntry>) -> (r: Scalar)
    ensures
        r == current_value(entries(history@), Scalar::spec_zero()),
{
    current(history, Scalar::zero())
}

/// Reading a history seeds it at most once: a seeded history has an entry,
/// an empty one gets exactly one, and reading again changes nothing.
pub proof fn lemma_seeding_idempotent(
    history: Seq<EntryView>,
    today: Seq<char>,
    default: Scalar,
    later: Seq<char>,
    other: Scalar,
)
    ensures
        seeded(history, today, default).len() >= 1,
        history.len() == 0 ==> seeded(history, today, default).len() == 1,
        seeded(seeded(history, today, default), later, other) == seeded(history, today, default),
{
}

/// No entry of a history is ever rewritten: seeding and recording keep every
/// entry in its place.
pub proof fn lemma_append_only(
    history: Seq<EntryView>,
    today: Seq<char>,
    value: Scalar,
    i: int,
)
    requires
        0 <= i < history.len(),
    ensures
        seeded(history, today, value)[i] == history[i],
        recorded(history, today, value)[i] == history[i],
        recorded(history, today, value).len() == history.len() + 1,
{
}

/// The entry recorded last is the current value and the first of the recent
/// entries.
pub proof fn lemma_recorded_is_current(
    history: Seq<EntryView>,
    today: Seq<char>,
    value: Scalar,
    default: Scalar,
    count: Option<usize>,
)
    requires
        count != Some(0usize),
    ensures
        current_value(recorded(history, today, value), default) == value,
        most_recent(recorded(history, today, value), count).len() >= 1,
        most_recent(recorded(history, today, value), count)[0] == (EntryView {
            date: today,
            value,
        }),
{
}

/// After a new FTP `ftp` was set with the weight `w` current, the ratio to
/// record is `ftp / w`; once its value `ratio` is recorded, it is the first
/// entry of the recent power-to-weight history.
pub proof fn lemma_set_ftp_records_ratio(
    before: LedgersView,
    today: Seq<char>,
    ftp: Scalar,
    ratio: Scalar,
    count: Option<usize>,
)
    requires
        count != Some(0usize),
    ensures
        before.with_ftp(today, ftp).power_to_weight() == (Quotient {
            dividend: ftp,
            divisor: before.current_weight(),
        }),
        most_recent(before.with_ftp(today, ftp).with_wkg(today, ratio).wkg, count)[0].value
            == ratio,
{
    lemma_recorded_is_current(
        before.with_ftp(today, ftp).with_wkg_seeded(today, ratio).wkg,
        today,
        ratio,
        ratio,
        count,
    );
}

/// After a new weight `weight` was set with the FTP `f` current, the ratio
/// to record is `f / weight`; once its value `ratio` is recorded, it is the
/// first entry of the recent power-to-weight history.
pub proof fn lemma_set_weight_records_ratio(
    before: LedgersView,
    today: Seq<char>,
    weight: Scalar,
    ratio: Scalar,
    count: Option<usize>,
)
    requires
        count != Some(0usize),
    ensures
        before.with_weight(today, weight).power_to_weight() == (Quotient {
            dividend: before.current_ftp(),
            divisor: weight,
        }),
        most_recent(before.with_weight(today, weight).with_wkg(today, ratio).wkg, count)[0].value
            == ratio,
{
    lemma_recorded_is_current(
        before.with_weight(today, weight).with_wkg_seeded(today, ratio).wkg,
        today,
        ratio,
        ratio,
        count,
    );
}

/// The defaults encode 240 watts and 75 kilograms.
pub proof fn lemma_defaults()
    ensures
        encodes_integer(DEFAULT_FTP_BITS, 240),
        encodes_integer(DEFAULT_WEIGHT_BITS, 75),
{
    lemma2_to64_rest();
    lemma_pow2_adds(45, 1029);
    assert((FRACTION_RANGE + 0xE_0000_0000_0000) * pow2(1029) == 240 * (pow2(45) * pow2(1029)))
        by (nonlinear_arith)
        requires
            FRACTION_RANGE + 0xE_0000_0000_0000 == 240 * pow2(45),
    ;
    lemma_pow2_adds(46, 1028);
    assert((FRACTION_RANGE + 0x2_C000_0000_0000) * pow2(1028) == 75 * (pow2(46) * pow2(1028)))
        by (nonlinear_arith)
        requires
            FRACTION_RANGE + 0x2_C000_0000_0000 == 75 * pow2(46),
    ;
}

} // verus!
