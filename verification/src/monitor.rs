//! Provider health: the latency log, its percentiles and averages, and
//! whether a model answered its last request.
use vstd::prelude::*;

use vstd::relations::{sorted_by, total_ordering};

use chrono::TimeZone;

use crate::text::{decimal, decimal_string, push_str, str_eq, to_owned};

verus! {

/// One request to a model; its time is in milliseconds since the Unix
/// epoch.
#[derive(Debug, Clone)]
pub struct LatencyRecord {
    pub model: String,
    pub latency_ms: u64,
    pub success: bool,
    pub timestamp: i64,
    pub tokens_input: u32,
    pub tokens_output: u32,
}

/// Ascending order of latencies.
pub open spec fn ascending() -> spec_fn(u64, u64) -> bool {
    |a: u64, b: u64| a <= b
}

/// The latencies of a model's successful requests, in order.
pub open spec fn ok_latencies(rs: Seq<LatencyRecord>, model: Seq<char>) -> Seq<u64>
    decreases rs.len(),
{
    if rs.len() == 0 {
        seq![]
    } else if rs.last().model@ == model && rs.last().success {
        ok_latencies(rs.drop_last(), model).push(rs.last().latency_ms)
    } else {
        ok_latencies(rs.drop_last(), model)
    }
}

/// The latencies of all of a model's requests, in order.
pub open spec fn model_latencies(rs: Seq<LatencyRecord>, model: Seq<char>) -> Seq<u64>
    decreases rs.len(),
{
    if rs.len() == 0 {
        seq![]
    } else if rs.last().model@ == model {
        model_latencies(rs.drop_last(), model).push(rs.last().latency_ms)
    } else {
        model_latencies(rs.drop_last(), model)
    }
}

/// The sum of latencies.
pub open spec fn total(s: Seq<u64>) -> nat
    decreases s.len(),
{
    if s.len() == 0 {
        0
    } else {
        total(s.drop_last()) + s.last() as nat
    }
}

/// Where the 95th percentile of `n` sorted latencies sits: the one at
/// position `95n/100`, counted from one.
pub open spec fn p95_position(n: nat) -> int {
    let idx = (n * 95 / 100) as int;
    if idx == 0 {
        0
    } else {
        idx - 1
    }
}

/// The 95th percentile latency of a model's successful requests; zero
/// without any.
pub open spec fn p95(rs: Seq<LatencyRecord>, model: Seq<char>) -> u64 {
    let l = ok_latencies(rs, model);
    if l.len() == 0 {
        0
    } else {
        l.sort_by(ascending())[p95_position(l.len())]
    }
}

/// Whether a model's last request succeeded; a model never asked counts
/// as healthy.
pub open spec fn healthy(rs: Seq<LatencyRecord>, model: Seq<char>) -> bool
    decreases rs.len(),
{
    if rs.len() == 0 {
        true
    } else if rs.last().model@ == model {
        rs.last().success
    } else {
        healthy(rs.drop_last(), model)
    }
}

proof fn lemma_ascending_total()
    ensures
        total_ordering(ascending()),
{
}

/// Put a latency into a sorted list, keeping it sorted.
fn sorted_insert(v: &mut Vec<u64>, x: u64)
    requires
        sorted_by(old(v)@, ascending()),
    ensures
        sorted_by(final(v)@, ascending()),
        final(v)@.to_multiset() == old(v)@.to_multiset().insert(x),
{
    let mut i: usize = 0;
    while i < v.len() && v[i] <= x
        invariant
            i <= v@.len(),
            v@ == old(v)@,
            forall|j: int| 0 <= j < i ==> v@[j] <= x,
        decreases v.len() - i,
    {
        i += 1;
    }
    let ghost before = v@;
    proof {
        assert forall|j: int| i <= j < before.len() implies x < before[j] by {
            assert(ascending()(before[i as int], before[j]) || i == j);
        }
    }
    v.insert(i, x);
    proof {
        vstd::seq_lib::to_multiset_insert(before, i as int, x);
        assert forall|a: int, b: int| 0 <= a < b < v@.len() implies #[trigger] ascending()(
            v@[a],
            v@[b],
        ) by {
            if b < i {
                assert(ascending()(before[a], before[b]));
            } else if b == i {
            } else if a < i {
            } else if a == i {
            } else {
                assert(ascending()(before[a - 1], before[b - 1]));
            }
        }
    }
}

/// An instant written as chrono writes it with `%Y-%m-%dT%H:%M:%S` in UTC
/// (empty for an instant chrono cannot represent).
pub uninterp spec fn iso_seconds(ms: int) -> Seq<char>;

/// `chrono::Utc.timestamp_millis_opt` on the instant, then
/// `DateTime::format` with `%Y-%m-%dT%H:%M:%S`; empty text when chrono has
/// no such instant. The text is a function of the instant alone.
#[verifier::external_body]
fn iso_seconds_text(ms: i64) -> (r: String)
    ensures
        r@ == iso_seconds(ms as int),
{
    match chrono::Utc.timestamp_millis_opt(ms).single() {
        Some(t) => t.format("%Y-%m-%dT%H:%M:%S").to_string(),
        None => String::new(),
    }
}

/// A boolean as Rust writes it.
pub open spec fn bool_text(b: bool) -> Seq<char> {
    if b {
        "true"@
    } else {
        "false"@
    }
}

/// The CSV row of a request.
pub open spec fn csv_row(r: LatencyRecord) -> Seq<char> {
    iso_seconds(r.timestamp as int) + ","@ + r.model@ + ","@ + decimal(r.latency_ms as nat) + ","@
        + bool_text(r.success) + ","@ + decimal(r.tokens_input as nat) + ","@ + decimal(
        r.tokens_output as nat,
    ) + "\n"@
}

/// The CSV rows of requests, in order.
pub open spec fn csv_rows(rs: Seq<LatencyRecord>) -> Seq<char>
    decreases rs.len(),
{
    if rs.len() == 0 {
        seq![]
    } else {
        csv_rows(rs.drop_last()) + csv_row(rs.last())
    }
}

/// The header of the latency CSV.
pub open spec fn csv_header() -> Seq<char> {
    "timestamp,model,latency_ms,success,tokens_in,tokens_out\n"@
}

/// The CSV row of a request.
fn csv_row_exec(r: &LatencyRecord) -> (s: String)
    ensures
        s@ == csv_row(*r),
{
    let mut row = iso_seconds_text(r.timestamp);
    push_str(&mut row, ",");
    push_str(&mut row, r.model.as_str());
    push_str(&mut row, ",");
    push_str(&mut row, decimal_string(r.latency_ms as u128).as_str());
    push_str(&mut row, ",");
    push_str(&mut row, if r.success {
        "true"
    } else {
        "false"
    });
    push_str(&mut row, ",");
    push_str(&mut row, decimal_string(r.tokens_input as u128).as_str());
    push_str(&mut row, ",");
    push_str(&mut row, decimal_string(r.tokens_output as u128).as_str());
    push_str(&mut row, "\n");
    row
}

/// A log of requests to models.
pub struct HealthMonitor {
    records: Vec<LatencyRecord>,
}

impl View for HealthMonitor {
    type V = Seq<LatencyRecord>;

    closed spec fn view(&self) -> Seq<LatencyRecord> {
        self.records@
    }
}

impl HealthMonitor {
    /// An empty log.
    pub fn new() -> (r: Self)
        ensures
            r@ == Seq::<LatencyRecord>::empty(),
    {
        HealthMonitor { records: Vec::new() }
    }

    /// Log a request.
    pub fn record(&mut self, record: LatencyRecord)
        ensures
            final(self)@ == old(self)@.push(record),
    {
        self.records.push(record);
    }

    /// The requests logged, in order.
    pub fn records(&self) -> (r: &[LatencyRecord])
        ensures
            r@ == self@,
    {
        self.records.as_slice()
    }

    /// The 95th percentile latency of a model's successful requests.
    pub fn p95_latency(&self, model: &str) -> (r: u64)
        ensures
            r == p95(self@, model@),
    {
        let mut lats: Vec<u64> = Vec::new();
        let mut i: usize = 0;
        while i < self.records.len()
            invariant
                i <= self.records@.len(),
                sorted_by(lats@, ascending()),
                lats@.to_multiset() == ok_latencies(self.records@.take(i as int), model@).to_multiset(),
            decreases self.records.len() - i,
        {
            proof {
                assert(self.records@.take(i + 1).drop_last() =~= self.records@.take(i as int));
                assert(self.records@.take(i + 1).last() == self.records@[i as int]);
            }
            let rec = &self.records[i];
            if rec.success && str_eq(rec.model.as_str(), model) {
                proof {
                    broadcast use vstd::seq_lib::to_multiset_build;
                }
                sorted_insert(&mut lats, rec.latency_ms);
            }
            i += 1;
        }
        assert(self.records@.take(i as int) =~= self.records@);
        let ghost l = ok_latencies(self.records@, model@);
        proof {
            lemma_ascending_total();
            l.lemma_sort_by_ensures(ascending());
            vstd::seq_lib::lemma_sorted_unique(lats@, l.sort_by(ascending()), ascending());
            vstd::seq_lib::to_multiset_len(lats@);
            vstd::seq_lib::to_multiset_len(l);
        }
        if lats.len() == 0 {
            return 0;
        }
        let idx = ((lats.len() as u128) * 95 / 100) as usize;
        let pos = if idx == 0 {
            0
        } else {
            idx - 1
        };
        lats[pos]
    }

    /// The average latency of a model's requests, rounded down; zero
    /// without any.
    pub fn avg_latency(&self, model: &str) -> (r: u64)
        requires
            total(model_latencies(self@, model@)) <= u64::MAX,
        ensures
            r == (if model_latencies(self@, model@).len() == 0 {
                0
            } else {
                total(model_latencies(self@, model@)) / model_latencies(self@, model@).len()
            }),
    {
        let mut sum: u64 = 0;
        let mut count: u64 = 0;
        let mut i: usize = 0;
        while i < self.records.len()
            invariant
                i <= self.records@.len(),
                sum == total(model_latencies(self.records@.take(i as int), model@)),
                count == model_latencies(self.records@.take(i as int), model@).len(),
                count <= i,
                total(model_latencies(self.records@, model@)) <= u64::MAX,
            decreases self.records.len() - i,
        {
            proof {
                assert(self.records@.take(i + 1).drop_last() =~= self.records@.take(i as int));
                assert(self.records@.take(i + 1).last() == self.records@[i as int]);
                lemma_prefix_bounds(self.records@, model@, i + 1);
            }
            let rec = &self.records[i];
            proof {
                let m = model_latencies(self.records@.take(i as int), model@);
                assert(m.push(rec.latency_ms).drop_last() =~= m);
            }
            if str_eq(rec.model.as_str(), model) {
                sum = sum + rec.latency_ms;
                count = count + 1;
            }
            i += 1;
        }
        assert(self.records@.take(i as int) =~= self.records@);
        if count == 0 {
            0
        } else {
            sum / count
        }
    }

    /// The log as CSV: a header, then one row per request.
    pub fn export_csv(&self) -> (r: String)
        ensures
            r@ == csv_header() + csv_rows(self@),
    {
        let mut csv = to_owned("timestamp,model,latency_ms,success,tokens_in,tokens_out\n");
        let mut i: usize = 0;
        while i < self.records.len()
            invariant
                i <= self.records@.len(),
                csv@ == csv_header() + csv_rows(self.records@.take(i as int)),
            decreases self.records.len() - i,
        {
            proof {
                assert(self.records@.take(i + 1).drop_last() =~= self.records@.take(i as int));
                assert(self.records@.take(i + 1).last() == self.records@[i as int]);
            }
            let row = csv_row_exec(&self.records[i]);
            push_str(&mut csv, row.as_str());
            i += 1;
        }
        assert(self.records@.take(i as int) =~= self.records@);
        csv
    }

    /// Whether a model's last request succeeded; a model never asked is
    /// healthy.
    pub fn is_healthy(&self, model: &str) -> (r: bool)
        ensures
            r == healthy(self@, model@),
    {
        let mut i = self.records.len();
        assert(self.records@.take(i as int) =~= self.records@);
        while i > 0
            invariant
                i <= self.records@.len(),
                healthy(self.records@, model@) == healthy(self.records@.take(i as int), model@),
            decreases i,
        {
            proof {
                assert(self.records@.take(i as int).drop_last() =~= self.records@.take(i - 1));
                assert(self.records@.take(i as int).last() == self.records@[i - 1]);
            }
            if str_eq(self.records[i - 1].model.as_str(), model) {
                return self.records[i - 1].success;
            }
            i -= 1;
        }
        assert(self.records@.take(0) =~= Seq::<LatencyRecord>::empty());
        true
    }
}

/// A prefix of the log holds no more latency, and no more requests, of a
/// model than the whole log.
proof fn lemma_prefix_bounds(rs: Seq<LatencyRecord>, model: Seq<char>, k: int)
    requires
        0 <= k <= rs.len(),
    ensures
        total(model_latencies(rs.take(k), model)) <= total(model_latencies(rs, model)),
        model_latencies(rs.take(k), model).len() <= model_latencies(rs, model).len(),
    decreases rs.len() - k,
{
    if k < rs.len() {
        lemma_prefix_bounds(rs, model, k + 1);
        assert(rs.take(k + 1).drop_last() =~= rs.take(k));
        assert(rs.take(k + 1).last() == rs[k]);
        let m = model_latencies(rs.take(k), model);
        assert(m.push(rs[k].latency_ms).drop_last() =~= m);
    } else {
        assert(rs.take(k) =~= rs);
    }
}

} // verus!
