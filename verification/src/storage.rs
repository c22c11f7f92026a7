//! The keys under which activities and ledgers are stored.
//!
//! A key is a sequence of path segments below the store's root. Activities
//! are partitioned by the year of their start date and keyed by their id;
//! each ledger has one well-known key.

use vstd::prelude::*;
use vstd::string::*;
use vstd::utf8::{encode_utf8, is_char_boundary};
use crate::json::{lemma_inserted, Json, Number};
use crate::power::{rolling_windows, PowerWindows};
use crate::scalar::{Scalar, INFINITY_BITS, SIGN_BIT};
use crate::schema::{parse_streams, power_stream, time_stream, ActivityHeader};
use crate::summary::{duration, duration_of, get_text, get_unsigned, text_field, unsigned_field};
use crate::text::{
    decimal, decimal_string, lemma_bytes_before_transitive, lemma_text_order_total, sorts_before,
    text_before, texts,
};
use crate::utils::Storage as StorageCfg;

verus! {

/// The key scheme of one user's store.
#[derive(Clone, Debug)]
pub struct Storage {
    /// The segments of the store's root: the data directory, then the user.
    pub base: Vec<String>,
}

impl Storage {
    /// The segments of the store's root.
    pub open spec fn root(self) -> Seq<Seq<char>> {
        texts(self.base@)
    }

    /// The store of the configured user below the configured data directory.
    pub fn new(cfg: &StorageCfg) -> (r: Self)
        ensures
            r.root() == seq![cfg.data_dir@, cfg.user@],
    {
        let mut base: Vec<String> = Vec::new();
        base.push(cfg.data_dir.clone());
        base.push(cfg.user.clone());
        Storage { base }
    }

    /// A copy of the root's segments.
    fn root_segments(&self) -> (r: Vec<String>)
        ensures
            texts(r@) == self.root(),
    {
        let mut out: Vec<String> = Vec::new();
        let mut i: usize = 0;
        while i < self.base.len()
            invariant
                i <= self.base@.len(),
                out@.len() == i,
                forall|j: int| 0 <= j < i ==> out@[j]@ == self.base@[j]@,
            decreases self.base@.len() - i,
        {
            out.push(self.base[i].clone());
            i = i + 1;
        }
        out
    }

    /// The key of a file directly below the root.
    fn ledger_path(&self, name: &str) -> (r: Vec<String>)
        ensures
            texts(r@) == self.root().push(name@),
    {
        let mut out = self.root_segments();
        out.push(String::from_str(name));
        out
    }

    /// The key of an activity's directory: the root, the year, the id in
    /// decimal.
    pub fn activity_dir(&self, year: &str, id: u64) -> (r: Vec<String>)
        ensures
            texts(r@) == self.root().push(year@).push(decimal(id as nat)),
    {
        let mut out = self.root_segments();
        out.push(String::from_str(year));
        out.push(decimal_string(id));
        out
    }

    /// The key of the FTP ledger.
    pub fn ftp_path(&self) -> (r: Vec<String>)
        ensures
            texts(r@) == self.root().push("ftp.json"@),
    {
        self.ledger_path("ftp.json")
    }

    /// The key of the weight ledger.
    pub fn weight_path(&self) -> (r: Vec<String>)
        ensures
            texts(r@) == self.root().push("weight.json"@),
    {
        self.ledger_path("weight.json")
    }

    /// The key of the power-to-weight ledger.
    pub fn wkg_path(&self) -> (r: Vec<String>)
        ensures
            texts(r@) == self.root().push("wkg.json"@),
    {
        self.ledger_path("wkg.json")
    }

    /// The key of the endurance-index ledger.
    pub fn enduro_path(&self) -> (r: Vec<String>)
        ensures
            texts(r@) == self.root().push("enduro.json"@),
    {
        self.ledger_path("enduro.json")
    }

    /// The key of the fitness-index ledger.
    pub fn fitness_path(&self) -> (r: Vec<String>)
        ensures
            texts(r@) == self.root().push("fitness.json"@),
    {
        self.ledger_path("fitness.json")
    }
}

/// The year under which an activity is kept: the first four bytes of its
/// start date, where the date can be cut there.
pub open spec fn year_bytes(start_date: Seq<char>) -> Option<Seq<u8>> {
    if is_char_boundary(encode_utf8(start_date), 4) {
        Some(encode_utf8(start_date).subrange(0, 4))
    } else {
        None
    }
}

/// The year under which an activity with the given start date is kept.
/// Nothing where the date is shorter than four bytes or its fourth byte is
/// inside a character.
pub fn partition_year(start_date: &str) -> (r: Option<String>)
    ensures
        match r {
            Some(year) => year_bytes(start_date@) == Some(encode_utf8(year@)),
            None => year_bytes(start_date@) is None,
        },
{
    if start_date.is_char_boundary(4) {
        let (head, _) = start_date.split_at(4);
        let year = String::from_str(head);
        Some(year)
    } else {
        None
    }
}

/// The start date by which an activity is partitioned: that of its metadata,
/// or 1 January 1970 where it has none.
pub open spec fn partition_date(meta: Json) -> Seq<char> {
    match text_field(meta, "start_date"@) {
        Some(date) => date,
        None => "1970-01-01"@,
    }
}

/// Where an activity is kept.
#[derive(Debug)]
pub struct ActivityKey {
    /// The partition: the year of the start date.
    pub year: String,
    /// The id of the activity.
    pub id: u64,
    /// The key of the activity's directory.
    pub dir: Vec<String>,
}

/// The name under which an activity's metadata is kept in its directory.
pub fn meta_file() -> (r: String)
    ensures
        r@ == "meta.json.zst"@,
{
    String::from_str("meta.json.zst")
}

/// The name under which an activity's raw streams are kept in its directory.
pub fn streams_file() -> (r: String)
    ensures
        r@ == "streams.json.zst"@,
{
    String::from_str("streams.json.zst")
}

impl Storage {
    /// Where the activity with the given metadata is kept: below the year of
    /// its start date, under its id. Nothing where the metadata has no
    /// unsigned `id` or the start date has no year.
    pub fn activity_key(&self, meta: &Json) -> (r: Option<ActivityKey>)
        ensures
            match r {
                Some(key) => {
                    &&& year_bytes(partition_date(*meta)) == Some(encode_utf8(key.year@))
                    &&& unsigned_field(*meta, "id"@) == Some(key.id)
                    &&& texts(key.dir@) == self.root().push(key.year@).push(decimal(key.id as nat))
                },
                None => year_bytes(partition_date(*meta)) is None || unsigned_field(*meta, "id"@)
                    is None,
            },
    {
        let date = match get_text(meta, "start_date") {
            Some(date) => date,
            None => String::from_str("1970-01-01"),
        };
        let year = match partition_year(date.as_str()) {
            Some(year) => year,
            None => {
                return None;
            },
        };
        let id = match get_unsigned(meta, "id") {
            Some(id) => id,
            None => {
                return None;
            },
        };
        let dir = self.activity_dir(year.as_str(), id);
        Some(ActivityKey { year, id, dir })
    }
}

/// What the analytics of an activity are derived from when it is saved.
#[derive(Debug)]
pub struct Derivation {
    /// The rolling windows of the power stream; normalized power is the
    /// fourth root of the mean of the fourth powers of their means.
    pub power_windows: PowerWindows,
    /// The duration in seconds that the stress score is taken over.
    pub duration: i64,
}

/// What the analytics of an activity are derived from when it is saved:
/// something where its raw streams have canonical streams with power
/// samples, nothing otherwise.
///
/// With normalized power `NP` and the FTP at the time, the caller computes
/// the intensity factor `NP / FTP` and the stress score
/// `duration * NP * IF / (FTP * 3600) * 100`.
pub fn derivation(meta: &Json, streams: &Json) -> (r: Option<Derivation>)
    ensures
        match r {
            Some(d) => {
                &&& time_stream(*streams) is Some
                &&& power_stream(*streams).len() > 0
                &&& d.power_windows.is_windows_of(power_stream(*streams))
                &&& d.duration == duration_of(*meta, time_stream(*streams).unwrap())
            },
            None => time_stream(*streams) is None || power_stream(*streams).len() == 0,
        },
{
    match parse_streams(streams) {
        Some(parsed) => {
            if parsed.power.len() > 0 {
                Some(
                    Derivation {
                        power_windows: rolling_windows(parsed.power.as_slice()),
                        duration: duration(meta, &parsed.time),
                    },
                )
            } else {
                None
            }
        },
        None => None,
    }
}

/// Whether the value is neither infinite nor a NaN.
pub open spec fn finite(x: Scalar) -> bool {
    crate::scalar::magnitude_of(x.bits) < INFINITY_BITS
}

/// A real value as a JSON document: a number, or null where the value is
/// infinite or a NaN, which JSON cannot hold.
pub open spec fn real_document(x: Scalar) -> Json {
    if finite(x) {
        Json::Number(Number { signed: None, unsigned: None, real: x })
    } else {
        Json::Null
    }
}

/// A real value as a JSON document.
pub fn real_json(x: Scalar) -> (r: Json)
    ensures
        r == real_document(x),
{
    let magnitude: u64 = if x.bits >= SIGN_BIT {
        x.bits - SIGN_BIT
    } else {
        x.bits
    };
    if magnitude < INFINITY_BITS {
        Json::Number(Number { signed: None, unsigned: None, real: x })
    } else {
        Json::Null
    }
}

/// Whether `after` is `before` with the three derived analytics set:
/// `normalized_power`, `intensity_factor` and `training_stress_score` hold
/// the given values, and every other member is as before. Metadata that is
/// no object stays as it is.
pub open spec fn is_annotated(
    after: Json,
    before: Json,
    np: Scalar,
    intensity: Scalar,
    stress: Scalar,
) -> bool {
    match before {
        Json::Object(_) => {
            &&& after.spec_is_object()
            &&& after.spec_get("normalized_power"@) == Some(real_document(np))
            &&& after.spec_get("intensity_factor"@) == Some(real_document(intensity))
            &&& after.spec_get("training_stress_score"@) == Some(real_document(stress))
            &&& forall|key: Seq<char>|
                key != "normalized_power"@ && key != "intensity_factor"@ && key
                    != "training_stress_score"@ ==> #[trigger] after.spec_get(key)
                    == before.spec_get(key)
        },
        _ => after == before,
    }
}

/// Writes the derived analytics of an activity into its metadata.
pub fn with_analytics(meta: Json, np: Scalar, intensity: Scalar, stress: Scalar) -> (r: Json)
    ensures
        is_annotated(r, meta, np, intensity, stress),
{
    proof {
        reveal_strlit("normalized_power");
        reveal_strlit("intensity_factor");
        reveal_strlit("training_stress_score");
    }
    if !meta.is_object() {
        return meta;
    }
    let k1 = String::from_str("normalized_power");
    let k2 = String::from_str("intensity_factor");
    let k3 = String::from_str("training_stress_score");
    let ghost m0 = meta->Object_0@;
    let first = meta.with_member(k1, real_json(np));
    let ghost m1 = first->Object_0@;
    let second = first.with_member(k2, real_json(intensity));
    let ghost m2 = second->Object_0@;
    let third = second.with_member(k3, real_json(stress));
    proof {
        assert(k1@ != k2@) by {
            assert(k1@[0] != k2@[0]);
        }
        assert(k1@ != k3@);
        assert(k2@ != k3@);
        lemma_inserted(m0, k1, real_document(np), k2@);
        lemma_inserted(m0, k1, real_document(np), k3@);
        lemma_inserted(m1, k2, real_document(intensity), k1@);
        lemma_inserted(m1, k2, real_document(intensity), k3@);
        lemma_inserted(m2, k3, real_document(stress), k1@);
        lemma_inserted(m2, k3, real_document(stress), k2@);
        assert forall|key: Seq<char>|
            key != "normalized_power"@ && key != "intensity_factor"@ && key
                != "training_stress_score"@ implies #[trigger] third.spec_get(key)
            == meta.spec_get(key) by {
            lemma_inserted(m0, k1, real_document(np), key);
            lemma_inserted(m1, k2, real_document(intensity), key);
            lemma_inserted(m2, k3, real_document(stress), key);
        }
    }
    third
}

/// Where a header goes among headers that are listed newest first: before
/// the first one that does not start later than it.
pub open spec fn place_of(listed: Seq<ActivityHeader>, h: ActivityHeader) -> int
    decreases listed.len(),
{
    if listed.len() == 0 {
        0
    } else if !text_before(h.start_date@, listed[0].start_date@) {
        0
    } else {
        1 + place_of(listed.skip(1), h)
    }
}

/// The headers from position `from` on, newest first: in descending order of
/// their start dates, headers with the same start date in the order given.
pub open spec fn newest_first(headers: Seq<ActivityHeader>, from: int) -> Seq<ActivityHeader>
    decreases headers.len() - from,
{
    if from >= headers.len() || from < 0 {
        Seq::empty()
    } else {
        let rest = newest_first(headers, from + 1);
        rest.insert(place_of(rest, headers[from]), headers[from])
    }
}

/// Whether no header is listed before one that starts later.
pub open spec fn descending(listed: Seq<ActivityHeader>) -> bool {
    forall|i: int, j: int|
        0 <= i < j < listed.len() ==> !text_before(
            #[trigger] listed[i].start_date@,
            #[trigger] listed[j].start_date@,
        )
}

/// The place of a header is after every header that starts later and at a
/// header that does not.
pub proof fn lemma_place_of(listed: Seq<ActivityHeader>, h: ActivityHeader)
    ensures
        0 <= place_of(listed, h) <= listed.len(),
        forall|i: int|
            0 <= i < place_of(listed, h) ==> text_before(
                h.start_date@,
                #[trigger] listed[i].start_date@,
            ),
        place_of(listed, h) < listed.len() ==> !text_before(
            h.start_date@,
            listed[place_of(listed, h)].start_date@,
        ),
    decreases listed.len(),
{
    if listed.len() > 0 && text_before(h.start_date@, listed[0].start_date@) {
        let rest = listed.skip(1);
        lemma_place_of(rest, h);
        assert forall|i: int| 0 <= i < place_of(listed, h) implies text_before(
            h.start_date@,
            #[trigger] listed[i].start_date@,
        ) by {
            if i > 0 {
                assert(listed[i] == rest[i - 1]);
            }
        }
    }
}

/// A listing is in descending order of start dates, and holds exactly the
/// headers given.
pub proof fn lemma_newest_first(headers: Seq<ActivityHeader>, from: int)
    requires
        0 <= from <= headers.len(),
    ensures
        descending(newest_first(headers, from)),
        newest_first(headers, from).len() == headers.len() - from,
        newest_first(headers, from).to_multiset() == headers.skip(from).to_multiset(),
    decreases headers.len() - from,
{
    if from < headers.len() {
        let rest = newest_first(headers, from + 1);
        let h = headers[from];
        let p = place_of(rest, h);
        lemma_newest_first(headers, from + 1);
        lemma_place_of(rest, h);
        let out = rest.insert(p, h);
        assert forall|i: int, j: int| 0 <= i < j < out.len() implies !text_before(
            #[trigger] out[i].start_date@,
            #[trigger] out[j].start_date@,
        ) by {
            if j == p {
                if text_before(rest[i].start_date@, h.start_date@) {
                    lemma_bytes_before_transitive(
                        encode_utf8(h.start_date@),
                        encode_utf8(rest[i].start_date@),
                        encode_utf8(h.start_date@),
                    );
                    crate::text::lemma_bytes_before_irreflexive(encode_utf8(h.start_date@));
                }
            } else if j > p && i == p {
                if text_before(h.start_date@, rest[j - 1].start_date@) {
                    lemma_text_order_total(h.start_date@, rest[p].start_date@);
                    if h.start_date@ != rest[p].start_date@ {
                        lemma_bytes_before_transitive(
                            encode_utf8(rest[p].start_date@),
                            encode_utf8(h.start_date@),
                            encode_utf8(rest[j - 1].start_date@),
                        );
                    }
                }
            }
        }
        vstd::seq_lib::to_multiset_insert(rest, p, h);
        vstd::seq_lib::to_multiset_insert(headers.skip(from + 1), 0, h);
        assert(headers.skip(from) =~= headers.skip(from + 1).insert(0, h));
    } else {
        assert(headers.skip(from) =~= Seq::<ActivityHeader>::empty());
    }
}

/// The place of a header in a listing.
fn find_place(listed: &Vec<ActivityHeader>, h: &ActivityHeader) -> (p: usize)
    ensures
        p == place_of(listed@, *h),
        p <= listed@.len(),
{
    let mut p: usize = 0;
    assert(listed@.skip(0) =~= listed@);
    while p < listed.len()
        invariant
            p <= listed@.len(),
            place_of(listed@, *h) == p + place_of(listed@.skip(p as int), *h),
        decreases listed@.len() - p,
    {
        assert(listed@.skip(p as int).skip(1) =~= listed@.skip(p + 1));
        if !sorts_before(h.start_date.as_str(), listed[p].start_date.as_str()) {
            return p;
        }
        p = p + 1;
    }
    p
}

/// Lists activities newest first, at most `limit` of them where a limit is
/// given. Activities with the same start date stay in the order given.
pub fn list_activities(headers: Vec<ActivityHeader>, limit: Option<usize>) -> (r: Vec<
    ActivityHeader,
>)
    ensures
        r@ == newest_first(headers@, 0).take(
            match limit {
                Some(n) => if n < headers@.len() {
                    n as int
                } else {
                    headers@.len() as int
                },
                None => headers@.len() as int,
            },
        ),
{
    let ghost all = headers@;
    let mut pending = headers;
    let mut listed: Vec<ActivityHeader> = Vec::new();
    while pending.len() > 0
        invariant
            pending@ == all.take(pending@.len() as int),
            pending@.len() <= all.len(),
            listed@ == newest_first(all, pending@.len() as int),
        decreases pending@.len(),
    {
        let h = pending.pop().unwrap();
        let p = find_place(&listed, &h);
        listed.insert(p, h);
    }
    proof {
        lemma_newest_first(all, 0);
    }
    match limit {
        Some(n) => {
            if n < listed.len() {
                listed.truncate(n);
            }
        },
        None => {},
    }
    assert(listed@ =~= newest_first(all, 0).take(
        match limit {
            Some(n) => if n < all.len() {
                n as int
            } else {
                all.len() as int
            },
            None => all.len() as int,
        },
    ));
    listed
}

} // verus!
