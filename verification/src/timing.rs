//! How long the parts of a tick and the waits for the global lock take.
//!
//! Only statistics go out, over the samples of the last hour, and at most so many per key. Only what
//! is over its budget is worth a line in the log.
use crate::json;
use crate::json::Field;
use crate::table;
use crate::table::Row;
use crate::text;
use vstd::prelude::*;

verus! {

/// Statistics look this far back, in milliseconds.
pub const WINDOW: u64 = 3_600_000;

/// Samples kept per key.
pub const MAX_SAMPLES: usize = 2_000;

/// A part of a tick that takes this long is worth a line, in milliseconds.
pub const SLOW_SEGMENT: u64 = 2_000;

/// A tick that takes this long is worth a line, in milliseconds.
pub const SLOW_TICK: u64 = 10_000;

/// A wait for the lock that takes this long is worth a line, in milliseconds.
pub const SLOW_LOCK_WAIT: u64 = 1_000;

/// The key of a whole tick.
pub const TICK_TOTAL: &'static str = "tick:_total";

/// When something was measured and how long it took, in milliseconds of a clock that only goes
/// forward.
#[derive(Debug, Clone, Copy)]
pub struct Sample {
    pub at: u64,
    pub took: u64,
}

impl View for Sample {
    type V = Sample;

    open spec fn view(&self) -> Sample {
        *self
    }
}

impl Row for Sample {
    fn copied(&self) -> (r: Self) {
        *self
    }
}

/// The samples of one key, oldest first.
#[derive(Debug)]
pub struct Series {
    pub key: String,
    pub samples: Vec<Sample>,
}

/// What a `Series` holds.
#[verifier::ext_equal]
pub struct SeriesView {
    pub key: Seq<char>,
    pub samples: Seq<Sample>,
}

impl View for Series {
    type V = SeriesView;

    open spec fn view(&self) -> SeriesView {
        SeriesView { key: self.key@, samples: self.samples@ }
    }
}

/// All samples.
#[derive(Debug)]
pub struct Timing {
    pub series: Vec<Series>,
}

impl View for Timing {
    type V = Seq<SeriesView>;

    open spec fn view(&self) -> Seq<SeriesView> {
        table::views(self.series@)
    }
}

/// The series of a key.
pub open spec fn of_key(key: Seq<char>) -> spec_fn(SeriesView) -> bool {
    |s: SeriesView| s.key == key
}

/// The samples of a key.
pub open spec fn samples_of(t: Seq<SeriesView>, key: Seq<char>) -> Seq<Sample> {
    match table::first(t, of_key(key)) {
        Some(s) => s.samples,
        None => Seq::empty(),
    }
}

/// How long ago a sample was taken.
pub open spec fn age(s: Sample, now: u64) -> int {
    if now >= s.at {
        now - s.at
    } else {
        0
    }
}

/// The sample counts.
pub open spec fn recent(now: u64) -> spec_fn(Sample) -> bool {
    |s: Sample| age(s, now) <= 3_600_000
}

fn is_recent(s: &Sample, now: u64) -> (r: bool)
    ensures
        r == (recent(now))(*s),
{
    now < s.at || now - s.at <= WINDOW
}

/// The samples from the first that still counts on.
pub open spec fn without_old(q: Seq<Sample>, now: u64) -> Seq<Sample>
    decreases q.len(),
{
    if q.len() == 0 || (recent(now))(q[0]) {
        q
    } else {
        without_old(q.skip(1), now)
    }
}

/// The last of some samples.
pub open spec fn last_of(q: Seq<Sample>, n: int) -> Seq<Sample> {
    if q.len() <= n {
        q
    } else {
        q.skip(q.len() - n)
    }
}

/// The samples that are kept.
pub open spec fn kept(q: Seq<Sample>, now: u64) -> Seq<Sample> {
    last_of(without_old(q, now), 2_000)
}

/// The table after a sample was taken.
pub open spec fn recorded(t: Seq<SeriesView>, key: Seq<char>, now: u64, took: u64) -> Seq<SeriesView> {
    let sample = Sample { at: now, took };
    if table::any(t, of_key(key)) {
        table::changed(
            t,
            of_key(key),
            |s: SeriesView| (SeriesView { samples: kept(s.samples.push(sample), now), ..s }),
        )
    } else {
        t.push(SeriesView { key, samples: kept(seq![sample], now) })
    }
}

proof fn old_ones_go(q: Seq<Sample>, now: u64, i: int)
    requires
        0 <= i <= q.len(),
        forall|j: int| 0 <= j < i ==> !(recent(now))(#[trigger] q[j]),
        i < q.len() ==> (recent(now))(q[i]),
    ensures
        without_old(q, now) == q.skip(i),
    decreases i,
{
    if i == 0 {
        assert(q.skip(0) =~= q);
    } else {
        let rest = q.skip(1);
        assert forall|j: int| 0 <= j < i - 1 implies !(recent(now))(#[trigger] rest[j]) by {
            assert(!(recent(now))(q[j + 1]));
        }
        assert(!(recent(now))(q[0]));
        if i - 1 < rest.len() {
            assert(rest[i - 1] == q[i]);
        }
        old_ones_go(rest, now, i - 1);
        assert(rest.skip(i - 1) =~= q.skip(i));
    }
}

/// Drops what is too old, then what is too much.
fn prune(q: Vec<Sample>, now: u64) -> (r: Vec<Sample>)
    ensures
        r@ == kept(q@, now),
{
    let mut i: usize = 0;
    while i < q.len() && !is_recent(&q[i], now)
        invariant
            i <= q.len(),
            forall|j: int| 0 <= j < i ==> !(recent(now))(#[trigger] q@[j]),
        decreases q.len() - i,
    {
        i += 1;
    }
    proof {
        old_ones_go(q@, now, i as int);
    }
    let mut from: usize = i;
    if q.len() - i > MAX_SAMPLES {
        from = q.len() - MAX_SAMPLES;
    }
    let mut out: Vec<Sample> = Vec::new();
    let mut k: usize = from;
    while k < q.len()
        invariant
            from <= k <= q.len(),
            out@ == q@.subrange(from as int, k as int),
        decreases q.len() - k,
    {
        out.push(q[k]);
        assert(q@.subrange(from as int, k as int + 1) =~= q@.subrange(from as int, k as int).push(q@[k as int]));
        k += 1;
    }
    assert(out@ =~= kept(q@, now));
    out
}

impl Timing {
    pub fn new() -> (r: Timing)
        ensures
            r@ == Seq::<SeriesView>::empty(),
    {
        let r = Timing { series: Vec::new() };
        assert(r@ =~= Seq::<SeriesView>::empty());
        r
    }

    /// Take a sample.
    pub fn record(&mut self, key: &str, now: u64, took: u64)
        ensures
            final(self)@ == recorded(old(self)@, key@, now, took),
    {
        let ghost was = self@;
        let ghost sample = Sample { at: now, took };
        let ghost to = |s: SeriesView| (SeriesView { samples: kept(s.samples.push(sample), now), ..s });
        let mut found = false;
        let mut i: usize = 0;
        while i < self.series.len()
            invariant
                i <= self.series.len(),
                was == old(self)@,
                self.series.len() == was.len(),
                sample == (Sample { at: now, took }),
                to == (|s: SeriesView| (SeriesView { samples: kept(s.samples.push(sample), now), ..s })),
                found == exists|j: int| 0 <= j < i && (of_key(key@))(#[trigger] was[j]),
                forall|j: int|
                    0 <= j < i ==> (#[trigger] self@[j]) == (if (of_key(key@))(was[j]) {
                        to(was[j])
                    } else {
                        was[j]
                    }),
                forall|j: int| i <= j < self.series.len() ==> #[trigger] self@[j] == was[j],
            decreases self.series.len() - i,
        {
            assert(self@[i as int] == was[i as int]);
            if text::same(self.series[i].key.as_str(), key) {
                assert((of_key(key@))(was[i as int]));
                found = true;
                let mut samples: Vec<Sample> = Vec::new();
                let mut k: usize = 0;
                while k < self.series[i].samples.len()
                    invariant
                        i < self.series.len(),
                        k <= self.series@[i as int].samples.len(),
                        samples@ == self.series@[i as int].samples@.take(k as int),
                    decreases self.series@[i as int].samples.len() - k,
                {
                    let ghost all = self.series@[i as int].samples@;
                    samples.push(self.series[i].samples[k]);
                    assert(all.take(k as int + 1) =~= all.take(k as int).push(all[k as int]));
                    k += 1;
                }
                assert(samples@ =~= was[i as int].samples);
                samples.push(Sample { at: now, took });
                let fresh = Series { key: key.to_owned(), samples: prune(samples, now) };
                assert(fresh@ =~= to(was[i as int]));
                let ghost before = self@;
                self.series.set(i, fresh);
                assert(self@ =~= before.update(i as int, fresh@));
            }
            i += 1;
        }
        if found {
            assert(table::any(was, of_key(key@)));
            assert(self@ =~= recorded(was, key@, now, took));
        } else {
            assert(self@ =~= was);
            let mut samples: Vec<Sample> = Vec::new();
            samples.push(Sample { at: now, took });
            assert(samples@ =~= seq![sample]);
            self.series.push(Series { key: key.to_owned(), samples: prune(samples, now) });
            assert(!table::any(was, of_key(key@)));
            assert(self@ =~= recorded(was, key@, now, took));
        }
    }
}

// ---------------------------------------------------------------- statistics

/// Which of `n` sorted samples is the `p`-th percentile: the nearest that really happened.
pub open spec fn rank(n: int, p: int) -> int {
    let k = (n * p + 99) / 100 - 1;
    if k < 0 {
        0
    } else if k > n - 1 {
        n - 1
    } else {
        k
    }
}

/// A percentile of sorted samples; nothing without samples.
pub open spec fn percentile(sorted: Seq<u64>, p: int) -> u64 {
    if sorted.len() == 0 {
        0
    } else {
        sorted[rank(sorted.len() as int, p)]
    }
}

/// The percentile of sorted samples. No number is made up between two that happened.
pub fn pct(sorted: &[u64], p: usize) -> (r: u64)
    ensures
        r == percentile(sorted@, p as int),
{
    let n: usize = sorted.len();
    if n == 0 {
        return 0;
    }
    assert(0 <= n * p <= 0xffff_ffff_ffff_ffff * 0xffff_ffff_ffff_ffff) by (nonlinear_arith)
        requires
            0 <= n <= 0xffff_ffff_ffff_ffff,
            0 <= p <= 0xffff_ffff_ffff_ffff,
    ;
    let nth: u128 = (n as u128) * (p as u128);
    let up: u128 = nth / 100 + (if nth % 100 == 0 {
        0
    } else {
        1
    });
    let k: u128 = if up == 0 {
        0
    } else {
        up - 1
    };
    let last: usize = n - 1;
    let i: usize = if k < last as u128 {
        k as usize
    } else {
        last
    };
    sorted[i]
}

/// The statistics of one key.
#[derive(Debug)]
pub struct Stat {
    pub key: String,
    pub count: usize,
    pub p50_ms: u64,
    pub p95_ms: u64,
    pub max_ms: u64,
}

/// What a `Stat` holds.
#[verifier::ext_equal]
pub struct StatView {
    pub key: Seq<char>,
    pub count: nat,
    pub p50_ms: u64,
    pub p95_ms: u64,
    pub max_ms: u64,
}

impl View for Stat {
    type V = StatView;

    open spec fn view(&self) -> StatView {
        StatView {
            key: self.key@,
            count: self.count as nat,
            p50_ms: self.p50_ms,
            p95_ms: self.p95_ms,
            max_ms: self.max_ms,
        }
    }
}

/// One sample took less than another.
pub open spec fn faster() -> spec_fn(Sample, Sample) -> bool {
    |a: Sample, b: Sample| a.took < b.took
}

/// The times that count, in order.
pub open spec fn times(q: Seq<Sample>, now: u64) -> Seq<u64> {
    table::ordered(q.filter(recent(now)), faster()).map_values(|s: Sample| s.took)
}

/// The statistics over some times.
pub open spec fn stat_of(key: Seq<char>, ms: Seq<u64>) -> StatView {
    StatView {
        key,
        count: ms.len(),
        p50_ms: percentile(ms, 50),
        p95_ms: percentile(ms, 95),
        max_ms: ms.last(),
    }
}

/// The statistics of every key that has samples that count.
pub open spec fn stats_of(t: Seq<SeriesView>, now: u64) -> Seq<StatView>
    decreases t.len(),
{
    if t.len() == 0 {
        Seq::empty()
    } else {
        let s = t.last();
        let before = stats_of(t.drop_last(), now);
        let ms = times(s.samples, now);
        if ms.len() == 0 {
            before
        } else {
            before.push(stat_of(s.key, ms))
        }
    }
}

fn times_of(q: &Vec<Sample>, now: u64) -> (r: Vec<u64>)
    ensures
        r@ == times(q@, now),
{
    let ghost views = table::views(q@);
    assert(views =~= q@);
    let some = table::select(q, |s: &Sample| -> (b: bool)
        ensures b == (recent(now))(s@)
        { is_recent(s, now) }, Ghost(recent(now)));
    let sorted = table::arrange(some, |a: &Sample, b: &Sample| -> (c: bool)
        ensures c == (faster())(a@, b@)
        { a.took < b.took }, Ghost(faster()));
    assert(table::views(sorted@) =~= sorted@);
    let mut out: Vec<u64> = Vec::new();
    let mut i: usize = 0;
    while i < sorted.len()
        invariant
            i <= sorted.len(),
            out.len() == i,
            forall|j: int| 0 <= j < i ==> #[trigger] out@[j] == sorted@[j].took,
        decreases sorted.len() - i,
    {
        out.push(sorted[i].took);
        i += 1;
    }
    assert(out@ =~= times(q@, now));
    out
}

impl Timing {
    /// The statistics of every key that has samples that count. No sample goes out.
    pub fn snapshot(&self, now: u64) -> (r: Vec<Stat>)
        ensures
            table::views(r@) == stats_of(self@, now),
    {
        let ghost all = self@;
        let mut out: Vec<Stat> = Vec::new();
        let mut i: usize = 0;
        assert(table::views(out@) =~= stats_of(all.take(0), now));
        while i < self.series.len()
            invariant
                i <= self.series.len(),
                all == self@,
                table::views(out@) == stats_of(all.take(i as int), now),
            decreases self.series.len() - i,
        {
            let ms = times_of(&self.series[i].samples, now);
            proof {
                assert(all.take(i as int + 1).drop_last() =~= all.take(i as int));
                assert(all.take(i as int + 1).last() == self.series@[i as int]@);
            }
            if ms.len() > 0 {
                let stat = Stat {
                    key: self.series[i].key.clone(),
                    count: ms.len(),
                    p50_ms: pct(ms.as_slice(), 50),
                    p95_ms: pct(ms.as_slice(), 95),
                    max_ms: ms[ms.len() - 1],
                };
                assert(stat@ =~= stat_of(self.series@[i as int]@.key, ms@));
                let ghost before = table::views(out@);
                out.push(stat);
                assert(table::views(out@) =~= before.push(stat@));
            }
            i += 1;
        }
        assert(all.take(i as int) =~= all);
        out
    }
}

/// The statistics of one key, as JSON has them.
pub open spec fn stat_members(s: StatView) -> Seq<(Seq<char>, json::FieldView)> {
    seq![
        ("count"@, json::FieldView::Count(s.count as u64)),
        ("p50_ms"@, json::FieldView::Count(s.p50_ms)),
        ("p95_ms"@, json::FieldView::Count(s.p95_ms)),
        ("max_ms"@, json::FieldView::Count(s.max_ms)),
    ]
}

/// The statistics of every key, as JSON has them.
pub open spec fn snapshot_members(stats: Seq<StatView>) -> Seq<(Seq<char>, json::FieldView)> {
    stats.map_values(|s: StatView| (s.key, json::FieldView::Json(json::json_object(stat_members(s)))))
}

impl Stat {
    pub fn to_json(&self) -> (r: String)
        ensures
            r@ == json::json_object(stat_members(self@)),
    {
        let fields = [
            ("count", Field::Count(self.count as u64)),
            ("p50_ms", Field::Count(self.p50_ms)),
            ("p95_ms", Field::Count(self.p95_ms)),
            ("max_ms", Field::Count(self.max_ms)),
        ];
        assert(json::members(fields@) =~= stat_members(self@));
        json::object(&fields)
    }
}

/// The members of the report.
pub open spec fn report_members(stats: Seq<StatView>) -> Seq<(Seq<char>, json::FieldView)> {
    seq![
        ("window_secs"@, json::FieldView::Count(3_600)),
        ("stats"@, json::FieldView::Json(json::json_object(snapshot_members(stats)))),
    ]
}

/// The report: how far back it looks, and the statistics of each key.
pub fn snapshot_json(stats: &Vec<Stat>) -> (r: String)
    ensures
        r@ == json::json_object(report_members(table::views(stats@))),
{
    let mut texts: Vec<String> = Vec::new();
    let mut i: usize = 0;
    while i < stats.len()
        invariant
            i <= stats.len(),
            texts.len() == i,
            forall|j: int| 0 <= j < i ==> (#[trigger] texts@[j])@ == json::json_object(stat_members(stats@[j]@)),
        decreases stats.len() - i,
    {
        texts.push(stats[i].to_json());
        i += 1;
    }
    let mut fields: Vec<(&str, Field)> = Vec::new();
    let mut k: usize = 0;
    while k < stats.len()
        invariant
            k <= stats.len(),
            fields.len() == k,
            texts.len() == stats.len(),
            forall|j: int|
                0 <= j < stats.len() ==> (#[trigger] texts@[j])@ == json::json_object(stat_members(stats@[j]@)),
            forall|j: int|
                0 <= j < k ==> (#[trigger] fields@[j]).0@ == stats@[j]@.key && fields@[j].1@ == json::FieldView::Json(
                    json::json_object(stat_members(stats@[j]@)),
                ),
        decreases stats.len() - k,
    {
        fields.push((stats[k].key.as_str(), Field::Json(texts[k].as_str())));
        k += 1;
    }
    assert(json::members(fields@) =~= snapshot_members(table::views(stats@)));
    let inner = json::object(fields.as_slice());
    let outer = [("window_secs", Field::Count(WINDOW / 1_000)), ("stats", Field::Json(inner.as_str()))];
    assert(json::members(outer@) =~= seq![
        ("window_secs"@, json::FieldView::Count(3_600)),
        ("stats"@, json::FieldView::Json(json::json_object(snapshot_members(table::views(stats@))))),
    ]);
    json::object(&outer)
}

// ---------------------------------------------------------------- what is worth a line

/// Something took as long as is worth a line.
pub open spec fn is_slow(took: u64, limit: u64) -> bool {
    took >= limit
}

/// Whether a part of a tick was slow, and the measurements with it.
pub open spec fn segment_noted(all: Seq<SeriesView>, name: Seq<char>, now: u64, took: u64) -> (bool, Seq<SeriesView>) {
    (is_slow(took, SLOW_SEGMENT), recorded(all, "tick:"@ + name, now, took))
}

/// Whether a tick was slow, and the measurements with it.
pub open spec fn tick_noted(all: Seq<SeriesView>, now: u64, took: u64) -> (bool, Seq<SeriesView>) {
    (is_slow(took, SLOW_TICK), recorded(all, "tick:_total"@, now, took))
}

/// Whether a lock was waited for too long, and the measurements with it.
pub open spec fn wait_noted(all: Seq<SeriesView>, site: Seq<char>, now: u64, waited: u64) -> (bool, Seq<SeriesView>) {
    (is_slow(waited, SLOW_LOCK_WAIT), recorded(all, "lock:wait:"@ + site, now, waited))
}

impl Timing {
    /// A part of a tick is done. True is that it is worth a line.
    pub fn note_segment(&mut self, name: &str, now: u64, took: u64) -> (slow: bool)
        ensures
            (slow, final(self)@) == segment_noted(old(self)@, name@, now, took),
    {
        self.record(text::joined("tick:", name).as_str(), now, took);
        took >= SLOW_SEGMENT
    }

    /// A tick is done. True is that it took longer than one heartbeat.
    pub fn note_tick(&mut self, now: u64, took: u64) -> (slow: bool)
        ensures
            (slow, final(self)@) == tick_noted(old(self)@, now, took),
    {
        self.record(TICK_TOTAL, now, took);
        took >= SLOW_TICK
    }

    /// The lock was waited for, from the file `site`. True is that it is worth a line.
    pub fn note_lock_wait(&mut self, site: &str, now: u64, waited: u64) -> (slow: bool)
        ensures
            (slow, final(self)@) == wait_noted(old(self)@, site@, now, waited),
    {
        self.record(text::joined("lock:wait:", site).as_str(), now, waited);
        waited >= SLOW_LOCK_WAIT
    }

    /// The lock was held. That alone is never worth a line.
    pub fn note_lock_hold(&mut self, site: &str, now: u64, held: u64)
        ensures
            final(self)@ == recorded(old(self)@, "lock:hold:"@ + site@, now, held),
    {
        self.record(text::joined("lock:hold:", site).as_str(), now, held);
    }
}

// ---------------------------------------------------------------- laws

/// A percentile is a time that really happened, and enough samples are no slower: at least `p` of a
/// hundred.
pub proof fn a_percentile_really_happened(sorted: Seq<u64>, p: int)
    requires
        sorted.len() > 0,
        0 <= p <= 100,
        forall|i: int, j: int| 0 <= i <= j < sorted.len() ==> sorted[i] <= sorted[j],
    ensures
        sorted.contains(percentile(sorted, p)),
        ({
            let k = rank(sorted.len() as int, p);
            &&& 0 <= k < sorted.len()
            &&& 100 * (k + 1) >= sorted.len() * p
            &&& forall|j: int| 0 <= j <= k ==> #[trigger] sorted[j] <= percentile(sorted, p)
            &&& forall|j: int| k <= j < sorted.len() ==> percentile(sorted, p) <= #[trigger] sorted[j]
        }),
{
    let n = sorted.len() as int;
    let k = rank(n, p);
    assert(n * p <= n * 100) by (nonlinear_arith)
        requires
            n > 0,
            p <= 100,
    ;
    assert(n * p >= 0) by (nonlinear_arith)
        requires
            n > 0,
            p >= 0,
    ;
    assert(sorted[k] == percentile(sorted, p));
}

/// Taking a sample of one key leaves the others alone, and the key keeps a bounded number.
pub proof fn keys_are_counted_separately(t: Seq<SeriesView>, key: Seq<char>, now: u64, took: u64, other: Seq<char>)
    requires
        key != other,
    ensures
        samples_of(recorded(t, key, now, took), other) == samples_of(t, other),
        samples_of(recorded(t, key, now, took), key) == kept(
            samples_of(t, key).push(Sample { at: now, took }),
            now,
        ),
        samples_of(recorded(t, key, now, took), key).len() <= 2_000,
{
    let sample = Sample { at: now, took };
    let to = |s: SeriesView| (SeriesView { samples: kept(s.samples.push(sample), now), ..s });
    let after = recorded(t, key, now, took);
    table::first_is_a_hit(t, of_key(key));
    table::first_is_a_hit(t, of_key(other));
    if table::any(t, of_key(key)) {
        table::first_of_changed(t, of_key(other), of_key(key), to);
        table::first_of_changed(t, of_key(key), of_key(key), to);
    } else {
        let one = SeriesView { key, samples: kept(seq![sample], now) };
        assert forall|i: int| 0 <= i < t.len() implies !(of_key(key))(#[trigger] after[i]) by {
            assert(!(of_key(key))(t[i]));
        }
        table::first_at(after, of_key(key), t.len() as int);
        assert(Seq::<Sample>::empty().push(sample) =~= seq![sample]);
        first_of_pushed(t, one, of_key(other));
    }
}

/// Something that was measured: under which key, when, and how long it took.
pub struct Measured {
    pub key: Seq<char>,
    pub at: u64,
    pub took: u64,
}

/// The table after some measurements, the first of them into an empty table.
pub open spec fn after_all(m: Seq<Measured>) -> Seq<SeriesView>
    decreases m.len(),
{
    if m.len() == 0 {
        Seq::empty()
    } else {
        recorded(after_all(m.drop_last()), m.last().key, m.last().at, m.last().took)
    }
}

/// What was measured under a key, oldest first.
pub open spec fn under(m: Seq<Measured>, key: Seq<char>) -> Seq<Sample>
    decreases m.len(),
{
    if m.len() == 0 {
        Seq::empty()
    } else {
        let before = under(m.drop_last(), key);
        if m.last().key == key {
            before.push(Sample { at: m.last().at, took: m.last().took })
        } else {
            before
        }
    }
}

/// The statistics of a key, where there are any.
pub open spec fn stat_for(stats: Seq<StatView>, key: Seq<char>) -> Option<StatView> {
    table::first(stats, |s: StatView| s.key == key)
}

/// A key has one series.
pub open spec fn keys_are_unique(t: Seq<SeriesView>) -> bool {
    forall|i: int, j: int| 0 <= i < j < t.len() ==> (#[trigger] t[i]).key != (#[trigger] t[j]).key
}

proof fn recording_keeps_keys(t: Seq<SeriesView>, key: Seq<char>, now: u64, took: u64)
    requires
        keys_are_unique(t),
    ensures
        keys_are_unique(recorded(t, key, now, took)),
{
    let after = recorded(t, key, now, took);
    assert forall|i: int, j: int| 0 <= i < j < after.len() implies (#[trigger] after[i]).key != (
    #[trigger] after[j]).key by {
        if j < t.len() {
            assert(t[i].key != t[j].key);
        } else {
            assert(!(of_key(key))(t[i]));
        }
    }
}

proof fn key_of_a_series(t: Seq<SeriesView>, key: Seq<char>, now: u64)
    requires
        keys_are_unique(t),
    ensures
        ({
            let ms = times(samples_of(t, key), now);
            stat_for(stats_of(t, now), key) == if ms.len() == 0 {
                None
            } else {
                Some(stat_of(key, ms))
            }
        }),
    decreases t.len(),
{
    let hit = |s: StatView| s.key == key;
    assert(Seq::<Sample>::empty().filter(recent(now)).len() == 0) by {
        reveal(Seq::filter);
    }
    if t.len() > 0 {
        let head = t.drop_last();
        let s = t.last();
        let ms = times(s.samples, now);
        let before = stats_of(head, now);
        assert(keys_are_unique(head)) by {
            assert forall|i: int, j: int| 0 <= i < j < head.len() implies (#[trigger] head[i]).key != (
            #[trigger] head[j]).key by {
                assert(t[i].key != t[j].key);
            }
        }
        key_of_a_series(head, key, now);
        assert(t =~= head.push(s));
        if s.key == key {
            assert forall|i: int| 0 <= i < head.len() implies !(of_key(key))(#[trigger] head[i]) by {
                assert(t[i].key != t[t.len() - 1].key);
            }
            table::first_of_none(head, of_key(key));
            table::first_at(t, of_key(key), t.len() - 1);
            if ms.len() > 0 {
                let stats = before.push(stat_of(s.key, ms));
                table::first_is_a_hit(before, hit);
                assert forall|i: int| 0 <= i < before.len() implies !hit(#[trigger] stats[i]) by {
                    assert(stats[i] == before[i]);
                }
                table::first_at(stats, hit, before.len() as int);
            }
        } else {
            first_of_pushed(head, s, of_key(key));
            if ms.len() > 0 {
                first_of_pushed(before, stat_of(s.key, ms), hit);
            }
        }
    }
}

/// Taking a sample of one key changes the statistics of no other.
pub proof fn other_keys_keep_their_statistics(
    t: Seq<SeriesView>,
    key: Seq<char>,
    at: u64,
    took: u64,
    other: Seq<char>,
    now: u64,
)
    requires
        keys_are_unique(t),
        key != other,
    ensures
        stat_for(stats_of(recorded(t, key, at, took), now), other) == stat_for(stats_of(t, now), other),
{
    recording_keeps_keys(t, key, at, took);
    keys_are_counted_separately(t, key, at, took, other);
    key_of_a_series(t, other, now);
    key_of_a_series(recorded(t, key, at, took), other, now);
}

/// No two of the samples are further apart than statistics look back.
pub open spec fn close_together(q: Seq<Sample>) -> bool {
    forall|i: int, j: int| 0 <= i < q.len() && 0 <= j < q.len() ==> (#[trigger] q[j]).at - (#[trigger] q[i]).at <= 3_600_000
}

proof fn what_is_kept(m: Seq<Measured>, key: Seq<char>)
    requires
        close_together(under(m, key)),
    ensures
        keys_are_unique(after_all(m)),
        samples_of(after_all(m), key) == last_of(under(m, key), 2_000),
    decreases m.len(),
{
    if m.len() > 0 {
        let r = m.last();
        let was = after_all(m.drop_last());
        let all = under(m, key);
        let before = under(m.drop_last(), key);
        assert(close_together(before)) by {
            assert forall|i: int, j: int| 0 <= i < before.len() && 0 <= j < before.len() implies (#[trigger] before[j]).at - (
            #[trigger] before[i]).at <= 3_600_000 by {
                assert(all[i] == before[i] && all[j] == before[j]);
            }
        }
        what_is_kept(m.drop_last(), key);
        recording_keeps_keys(was, r.key, r.at, r.took);
        if r.key == key {
            let sample = Sample { at: r.at, took: r.took };
            let q = last_of(before, 2_000).push(sample);
            assert(key.push('x').len() == key.len() + 1);
            keys_are_counted_separately(was, key, r.at, r.took, key.push('x'));
            assert(all == before.push(sample));
            if before.len() > 0 {
                let gone = before.len() - last_of(before, 2_000).len();
                assert(all[before.len() as int].at - all[gone].at <= 3_600_000);
                assert(q[0] == all[gone]);
            }
            assert((recent(r.at))(q[0]));
            assert(without_old(q, r.at) == q);
            assert(last_of(q, 2_000) =~= last_of(all, 2_000));
        } else {
            keys_are_counted_separately(was, r.key, r.at, r.took, key);
        }
    }
}

proof fn all_count(q: Seq<Sample>, now: u64)
    requires
        forall|i: int| 0 <= i < q.len() ==> (recent(now))(#[trigger] q[i]),
    ensures
        q.filter(recent(now)) == q,
    decreases q.len(),
{
    reveal(Seq::filter);
    if q.len() > 0 {
        let head = q.drop_last();
        assert forall|i: int| 0 <= i < head.len() implies (recent(now))(#[trigger] head[i]) by {
            assert((recent(now))(q[i]));
        }
        all_count(head, now);
        assert((recent(now))(q[q.len() - 1]));
        assert(head.push(q.last()) =~= q);
    }
}

/// What was measured under a key within the hour is what is reported of it: the statistics are those of the
/// last two thousand samples, or of all where there are fewer, and the maximum is the longest of these.
pub proof fn what_is_measured_is_reported(m: Seq<Measured>, key: Seq<char>, now: u64)
    requires
        under(m, key).len() > 0,
        close_together(under(m, key)),
        forall|i: int| 0 <= i < under(m, key).len() ==> age(#[trigger] under(m, key)[i], now) <= 3_600_000,
    ensures
        ({
            let all = under(m, key);
            let last = last_of(all, 2_000);
            let ms = table::ordered(last, faster()).map_values(|s: Sample| s.took);
            let stat = stat_of(key, ms);
            &&& stat_for(stats_of(after_all(m), now), key) == Some(stat)
            &&& stat.count == if all.len() <= 2_000 {
                all.len()
            } else {
                2_000
            }
            &&& forall|i: int| 0 <= i < last.len() ==> (#[trigger] last[i]).took <= stat.max_ms
            &&& exists|i: int| 0 <= i < last.len() && (#[trigger] last[i]).took == stat.max_ms
        }),
{
    broadcast use vstd::seq_lib::group_to_multiset_ensures;

    let all = under(m, key);
    let last = last_of(all, 2_000);
    let sorted = table::ordered(last, faster());
    what_is_kept(m, key);
    key_of_a_series(after_all(m), key, now);
    assert forall|i: int| 0 <= i < last.len() implies (recent(now))(#[trigger] last[i]) by {
        let gone = all.len() - last.len();
        assert(last[i] == all[i + gone]);
    }
    all_count(last, now);
    table::ordering_keeps_the_rows(last, faster());
    table::ordering_orders(last, faster());
    let max = sorted[sorted.len() - 1];
    assert forall|i: int| 0 <= i < last.len() implies (#[trigger] last[i]).took <= max.took by {
        assert(last.contains(last[i]));
        assert(sorted.to_multiset().count(last[i]) > 0);
        assert(sorted.contains(last[i]));
        let k = choose|k: int| 0 <= k < sorted.len() && sorted[k] == last[i];
        if k < sorted.len() - 1 {
            assert(!(faster())(sorted[sorted.len() - 1], sorted[k]));
        }
    }
    assert(sorted.contains(max));
    assert(last.to_multiset().count(max) > 0);
    assert(last.contains(max));
}

proof fn first_of_pushed<V>(t: Seq<V>, s: V, hit: spec_fn(V) -> bool)
    requires
        !hit(s),
    ensures
        table::first(t.push(s), hit) == table::first(t, hit),
    decreases t.len(),
{
    if t.len() > 0 {
        assert(t.push(s).skip(1) =~= t.skip(1).push(s));
        first_of_pushed(t.skip(1), s, hit);
    } else {
        assert(t.push(s).skip(1) =~= Seq::<V>::empty());
        assert(t =~= Seq::<V>::empty());
    }
}

/// A part of a tick is worth a line from two seconds on, a tick from ten, and a wait for the lock from
/// one.
pub proof fn what_is_worth_a_line(took: u64)
    ensures
        is_slow(took, SLOW_SEGMENT) <==> took >= 2 * 1_000,
        is_slow(took, SLOW_TICK) <==> took >= 10 * 1_000,
        is_slow(took, SLOW_LOCK_WAIT) <==> took >= 1_000,
{
}

/// A sample counts for an hour; those that do not count any more go from the front, and at most the last
/// two thousand stay.
pub proof fn a_sample_counts_for_an_hour(q: Seq<Sample>, now: u64, s: Sample, i: int)
    ensures
        (recent(now))(s) <==> now - s.at <= 60 * 60 * 1_000,
        0 <= i <= q.len() && (forall|j: int| 0 <= j < i ==> now - (#[trigger] q[j]).at > 60 * 60 * 1_000) && (i < q.len()
            ==> now - q[i].at <= 60 * 60 * 1_000) ==> {
            &&& q.len() - i <= 2_000 ==> kept(q, now) == q.skip(i)
            &&& q.len() - i > 2_000 ==> kept(q, now) == q.skip(q.len() - 2_000)
        },
{
    if 0 <= i <= q.len() && (forall|j: int| 0 <= j < i ==> now - (#[trigger] q[j]).at > 60 * 60 * 1_000) && (i < q.len()
        ==> now - q[i].at <= 60 * 60 * 1_000) {
        assert forall|j: int| 0 <= j < i implies !(recent(now))(#[trigger] q[j]) by {
            assert(now - q[j].at > 3_600_000);
        }
        old_ones_go(q, now, i);
        if q.len() - i > 2_000 {
            assert(q.skip(i).skip(q.len() - i - 2_000) =~= q.skip(q.len() - 2_000));
        }
    }
}

/// A percentile is no later in the order than it has to be: one place before it, fewer than `p` of a
/// hundred are no slower.
pub proof fn a_percentile_is_the_nearest(n: int, p: int)
    requires
        n > 0,
        0 <= p <= 100,
    ensures
        0 <= rank(n, p) < n,
        100 * (rank(n, p) + 1) >= n * p,
        rank(n, p) > 0 ==> 100 * rank(n, p) < n * p,
{
    assert(0 <= n * p <= n * 100) by (nonlinear_arith)
        requires
            n > 0,
            0 <= p <= 100,
    ;
}

/// A key's statistics are taken over the samples that count, in order: how many there are, the median,
/// the ninety-fifth percentile and the slowest. A key without such samples has none.
pub proof fn what_the_statistics_say(t: Seq<SeriesView>, s: SeriesView, now: u64, i: int)
    ensures
        ({
            let ms = times(s.samples, now);
            let stats = stats_of(t.push(s), now);
            &&& ms.len() == s.samples.filter(|x: Sample| now - x.at <= 3_600_000).len()
            &&& ms.len() == 0 ==> stats == stats_of(t, now)
            &&& ms.len() > 0 ==> {
                &&& stats.drop_last() == stats_of(t, now)
                &&& stats.last().key == s.key
                &&& stats.last().count == ms.len()
                &&& stats.last().p50_ms == percentile(ms, 50)
                &&& stats.last().p95_ms == percentile(ms, 95)
                &&& stats.last().max_ms == ms[ms.len() - 1]
            }
            &&& 0 <= i < ms.len() ==> ms[i] <= ms[ms.len() - 1]
        }),
{
    let ms = times(s.samples, now);
    let rows = s.samples.filter(recent(now));
    let list = table::ordered(rows, faster());
    assert(t.push(s).drop_last() =~= t);
    assert(recent(now) =~= |x: Sample| now - x.at <= 3_600_000);
    table::ordering_keeps_the_rows(rows, faster());
    table::ordering_orders(rows, faster());
    if 0 <= i < ms.len() - 1 {
        assert(!(faster())(list[ms.len() - 1], list[i]));
    }
    if ms.len() > 0 {
        assert(stats_of(t.push(s), now).drop_last() =~= stats_of(t, now));
    }
}

/// The report names the hour it looks back, and every key with its four numbers.
pub proof fn the_report_names_every_key(stats: Seq<StatView>, i: int)
    ensures
        report_members(stats).len() == 2,
        report_members(stats)[0] == ("window_secs"@, json::FieldView::Count(3_600)),
        report_members(stats)[1] == ("stats"@, json::FieldView::Json(json::json_object(snapshot_members(stats)))),
        snapshot_members(stats).len() == stats.len(),
        0 <= i < stats.len() ==> snapshot_members(stats)[i].0 == stats[i].key && snapshot_members(stats)[i].1
            == json::FieldView::Json(
            json::json_object(
                seq![
                    ("count"@, json::FieldView::Count(stats[i].count as u64)),
                    ("p50_ms"@, json::FieldView::Count(stats[i].p50_ms)),
                    ("p95_ms"@, json::FieldView::Count(stats[i].p95_ms)),
                    ("max_ms"@, json::FieldView::Count(stats[i].max_ms)),
                ],
            ),
        ),
{
}

/// A measure is shown with how often it was taken, its median, its ninety-fifth percentile and its largest.
pub proof fn a_measure_is_shown_number_by_number(s: StatView)
    ensures
        ({
            let m = stat_members(s);
            &&& m.len() == 4
            &&& m.contains(("count"@, json::FieldView::Count(s.count as u64)))
            &&& m.contains(("p50_ms"@, json::FieldView::Count(s.p50_ms)))
            &&& m.contains(("p95_ms"@, json::FieldView::Count(s.p95_ms)))
            &&& m.contains(("max_ms"@, json::FieldView::Count(s.max_ms)))
        }),
{
    let m = stat_members(s);
    assert(m[0].0 == "count"@);
    assert(m[1].0 == "p50_ms"@);
    assert(m[2].0 == "p95_ms"@);
    assert(m[3].0 == "max_ms"@);
}

/// Each measure goes under its own key, and is worth a line from two seconds for a part of a tick, ten for a
/// whole one, and one for a lock that was waited for.
pub proof fn each_measure_has_its_key_and_its_limit(all: Seq<SeriesView>, name: Seq<char>, now: u64, took: u64)
    ensures
        segment_noted(all, name, now, took).0 <==> took >= 2_000,
        tick_noted(all, now, took).0 <==> took >= 10_000,
        wait_noted(all, name, now, took).0 <==> took >= 1_000,
        segment_noted(all, name, now, took).1 == recorded(all, "tick:"@ + name, now, took),
        tick_noted(all, now, took).1 == recorded(all, "tick:_total"@, now, took),
        wait_noted(all, name, now, took).1 == recorded(all, "lock:wait:"@ + name, now, took),
{
}

} // verus!
