//! The metric registry: counters, histograms with fixed bucket bounds, and gauges,
//! each series keyed by a metric name and a label list.
use vstd::prelude::*;

use crate::exposition::{
    counters_text, exposition, gauges_text, histograms_text, push_fixed_sample, push_histogram,
    push_integer_sample,
};
use crate::labels::{canonical, canonical_series};
use crate::text::MAX_SCALE;

verus! {

/// One `key="value"` pair of a series.
pub struct Label {
    pub key: String,
    pub value: String,
}

impl View for Label {
    type V = (Seq<char>, Seq<char>);

    open spec fn view(&self) -> (Seq<char>, Seq<char>) {
        (self.key@, self.value@)
    }
}

impl Label {
    pub fn new(key: &str, value: String) -> (r: Label)
        ensures
            r@ == (key@, value@),
    {
        Label { key: key.to_owned(), value }
    }
}

/// A metric name with the labels of one of its series. The registry keys a series
/// by its name and its labels sorted by key (see `canonical`).
pub struct Series {
    pub name: String,
    pub labels: Vec<Label>,
}

/// A metric name and label list. The registry identifies a series by the
/// `canonical` form of this: the same name with the labels sorted by key, so
/// `[a, b]` and `[b, a]` name one series.
pub struct SeriesId {
    pub name: Seq<char>,
    pub labels: Seq<(Seq<char>, Seq<char>)>,
}

impl View for Series {
    type V = SeriesId;

    open spec fn view(&self) -> SeriesId {
        SeriesId { name: self.name@, labels: self.labels@.map_values(|l: Label| l@) }
    }
}

/// A non-negative decimal number `units / 10^scale`, as gauges hold them.
#[derive(Clone, Copy, Debug, PartialEq, Eq, Structural)]
pub struct Fixed {
    pub units: u64,
    pub scale: u32,
}

/// Number of decimal places of every histogram observation and bound: a histogram
/// measured in seconds takes its observations in microseconds.
pub const HISTOGRAM_SCALE: u32 = 6;

/// The accumulated state of one histogram series: for each bound, how many
/// observations were at or below it, and the running sum and count.
pub struct HistogramData {
    pub buckets: Vec<u64>,
    pub sum: u64,
    pub count: u64,
}

pub struct HistogramModel {
    pub buckets: Seq<u64>,
    pub sum: u64,
    pub count: u64,
}

impl View for HistogramData {
    type V = HistogramModel;

    open spec fn view(&self) -> HistogramModel {
        HistogramModel { buckets: self.buckets@, sum: self.sum, count: self.count }
    }
}

#[derive(Clone, Copy, Debug, PartialEq, Eq, Structural)]
pub enum MetricsError {
    /// Histogram bounds that are not strictly increasing.
    InvalidBuckets,
    /// A histogram name registered again with other bounds.
    ConflictingBuckets,
    /// An observation for a histogram name whose bounds were never registered.
    UnregisteredHistogram,
}

/// Abstract state of a registry. Series of each kind are kept in the order in
/// which they were first written, which is also the order in which they are rendered.
pub struct RegistryModel {
    pub bucket_names: Seq<Seq<char>>,
    pub bucket_bounds: Seq<Seq<u64>>,
    pub counter_ids: Seq<SeriesId>,
    pub counter_values: Seq<u64>,
    pub histogram_ids: Seq<SeriesId>,
    pub histograms: Seq<HistogramModel>,
    pub gauge_ids: Seq<SeriesId>,
    pub gauge_values: Seq<Fixed>,
}

/// Index of the last occurrence of `k` in `s`, or -1.
pub open spec fn position<K>(s: Seq<K>, k: K) -> int
    decreases s.len(),
{
    if s.len() == 0 {
        -1
    } else if s.last() == k {
        s.len() - 1
    } else {
        position(s.drop_last(), k)
    }
}

pub proof fn lemma_position<K>(s: Seq<K>, k: K)
    ensures
        -1 <= position(s, k) < s.len(),
        position(s, k) >= 0 ==> s[position(s, k)] == k,
        position(s, k) == -1 ==> forall|i: int| 0 <= i < s.len() ==> s[i] != k,
    decreases s.len(),
{
    if s.len() > 0 && s.last() != k {
        lemma_position(s.drop_last(), k);
        assert forall|i: int| 0 <= i < s.len() - 1 implies s[i] == s.drop_last()[i] by {}
    }
}

pub proof fn lemma_position_push<K>(s: Seq<K>, x: K, k: K)
    ensures
        position(s.push(x), k) == if x == k { s.len() as int } else { position(s, k) },
{
    assert(s.push(x).drop_last() =~= s);
}

pub open spec fn sat_inc(v: u64) -> u64 {
    if v < u64::MAX { (v + 1) as u64 } else { v }
}

pub open spec fn sat_add(a: u64, b: u64) -> u64 {
    if a + b <= u64::MAX { (a + b) as u64 } else { u64::MAX }
}

pub open spec fn strictly_increasing(b: Seq<u64>) -> bool {
    forall|i: int, j: int| 0 <= i < j < b.len() ==> b[i] < b[j]
}

/// The histogram after one more observation of `v`: every bucket whose bound is at
/// or above `v` counts it, and the sum and count grow (saturating at `u64::MAX`).
pub open spec fn observe(h: HistogramModel, bounds: Seq<u64>, v: u64) -> HistogramModel {
    HistogramModel {
        buckets: Seq::new(
            h.buckets.len(),
            |j: int| if v <= bounds[j] { sat_inc(h.buckets[j]) } else { h.buckets[j] },
        ),
        sum: sat_add(h.sum, v),
        count: sat_inc(h.count),
    }
}

pub open spec fn empty_histogram(n: nat) -> HistogramModel {
    HistogramModel { buckets: Seq::new(n, |j: int| 0u64), sum: 0, count: 0 }
}

impl RegistryModel {
    pub open spec fn wf(self) -> bool {
        &&& self.bucket_names.len() == self.bucket_bounds.len()
        &&& self.counter_ids.len() == self.counter_values.len()
        &&& self.histogram_ids.len() == self.histograms.len()
        &&& self.gauge_ids.len() == self.gauge_values.len()
        &&& forall|i: int|
            0 <= i < self.bucket_bounds.len() ==> strictly_increasing(#[trigger] self.bucket_bounds[i])
        &&& forall|i: int|
            0 <= i < self.histogram_ids.len() ==> {
                &&& self.is_registered(#[trigger] self.histogram_ids[i].name)
                &&& self.histograms[i].buckets.len() == self.bounds_of(self.histogram_ids[i].name).len()
            }
        &&& forall|i: int| 0 <= i < self.gauge_values.len() ==> #[trigger] self.gauge_values[i].scale <= MAX_SCALE
    }

    pub open spec fn is_registered(self, name: Seq<char>) -> bool {
        position(self.bucket_names, name) >= 0
    }

    /// The bucket bounds registered for `name`.
    pub open spec fn bounds_of(self, name: Seq<char>) -> Seq<u64> {
        self.bucket_bounds[position(self.bucket_names, name)]
    }

    /// The value of a counter series; zero before its first increment.
    pub open spec fn counter_value(self, id: SeriesId) -> u64 {
        let i = position(self.counter_ids, id);
        if i >= 0 { self.counter_values[i] } else { 0 }
    }

    /// The state of a histogram series; empty before its first observation.
    pub open spec fn histogram_of(self, id: SeriesId) -> HistogramModel {
        let i = position(self.histogram_ids, id);
        if i >= 0 { self.histograms[i] } else { empty_histogram(self.bounds_of(id.name).len()) }
    }

    pub open spec fn gauge_value(self, id: SeriesId) -> Option<Fixed> {
        let i = position(self.gauge_ids, id);
        if i >= 0 { Some(self.gauge_values[i]) } else { None }
    }

    pub open spec fn with_bounds(self, name: Seq<char>, bounds: Seq<u64>) -> RegistryModel {
        RegistryModel {
            bucket_names: self.bucket_names.push(name),
            bucket_bounds: self.bucket_bounds.push(bounds),
            ..self
        }
    }

    pub open spec fn with_increment(self, id: SeriesId) -> RegistryModel {
        let i = position(self.counter_ids, id);
        if i >= 0 {
            RegistryModel {
                counter_values: self.counter_values.update(i, sat_inc(self.counter_values[i])),
                ..self
            }
        } else {
            RegistryModel {
                counter_ids: self.counter_ids.push(id),
                counter_values: self.counter_values.push(1),
                ..self
            }
        }
    }

    pub open spec fn with_observation(self, id: SeriesId, v: u64) -> RegistryModel {
        let i = position(self.histogram_ids, id);
        let h = observe(self.histogram_of(id), self.bounds_of(id.name), v);
        if i >= 0 {
            RegistryModel { histograms: self.histograms.update(i, h), ..self }
        } else {
            RegistryModel {
                histogram_ids: self.histogram_ids.push(id),
                histograms: self.histograms.push(h),
                ..self
            }
        }
    }

    pub open spec fn with_gauge(self, id: SeriesId, v: Fixed) -> RegistryModel {
        let i = position(self.gauge_ids, id);
        if i >= 0 {
            RegistryModel { gauge_values: self.gauge_values.update(i, v), ..self }
        } else {
            RegistryModel {
                gauge_ids: self.gauge_ids.push(id),
                gauge_values: self.gauge_values.push(v),
                ..self
            }
        }
    }
}

/// Counters, histograms and gauges of one process. Histogram bounds are fixed per
/// metric name when the name is registered, and shared by all its series.
pub struct MetricRegistry {
    bucket_names: Vec<String>,
    bucket_bounds: Vec<Vec<u64>>,
    counter_series: Vec<Series>,
    counter_values: Vec<u64>,
    histogram_series: Vec<Series>,
    histogram_data: Vec<HistogramData>,
    gauge_series: Vec<Series>,
    gauge_values: Vec<Fixed>,
}

impl View for MetricRegistry {
    type V = RegistryModel;

    closed spec fn view(&self) -> RegistryModel {
        RegistryModel {
            bucket_names: self.bucket_names@.map_values(|s: String| s@),
            bucket_bounds: self.bucket_bounds@.map_values(|b: Vec<u64>| b@),
            counter_ids: self.counter_series@.map_values(|s: Series| s@),
            counter_values: self.counter_values@,
            histogram_ids: self.histogram_series@.map_values(|s: Series| s@),
            histograms: self.histogram_data@.map_values(|h: HistogramData| h@),
            gauge_ids: self.gauge_series@.map_values(|s: Series| s@),
            gauge_values: self.gauge_values@,
        }
    }
}

fn labels_equal(a: &Vec<Label>, b: &Vec<Label>) -> (r: bool)
    ensures
        r == (a@.map_values(|l: Label| l@) == b@.map_values(|l: Label| l@)),
{
    let ghost va = a@.map_values(|l: Label| l@);
    let ghost vb = b@.map_values(|l: Label| l@);
    if a.len() != b.len() {
        assert(va.len() != vb.len());
        return false;
    }
    let mut i: usize = 0;
    while i < a.len()
        invariant
            a.len() == b.len(),
            i <= a.len(),
            va == a@.map_values(|l: Label| l@),
            vb == b@.map_values(|l: Label| l@),
            forall|j: int| 0 <= j < i ==> va[j] == vb[j],
        decreases a.len() - i,
    {
        if a[i].key != b[i].key || a[i].value != b[i].value {
            assert(va[i as int] != vb[i as int]);
            return false;
        }
        i = i + 1;
    }
    assert(va =~= vb);
    true
}

fn same_series(a: &Series, b: &Series) -> (r: bool)
    ensures
        r == (a@ == b@),
{
    a.name == b.name && labels_equal(&a.labels, &b.labels)
}

/// Index of the last series in `list` that equals `s`.
fn find_series(list: &Vec<Series>, s: &Series) -> (r: Option<usize>)
    ensures
        match r {
            Some(i) => i < list.len() && i as int == position(list@.map_values(|x: Series| x@), s@),
            None => position(list@.map_values(|x: Series| x@), s@) == -1,
        },
{
    let ghost ids = list@.map_values(|x: Series| x@);
    let mut i: usize = list.len();
    assert(ids.take(i as int) =~= ids);
    while i > 0
        invariant
            i <= list.len(),
            ids == list@.map_values(|x: Series| x@),
            position(ids, s@) == position(ids.take(i as int), s@),
        decreases i,
    {
        let ghost prefix = ids.take(i as int);
        assert(prefix.drop_last() =~= ids.take(i - 1));
        if same_series(&list[i - 1], s) {
            return Some(i - 1);
        }
        i = i - 1;
    }
    None
}

fn find_name(list: &Vec<String>, name: &String) -> (r: Option<usize>)
    ensures
        match r {
            Some(i) => i < list.len() && i as int == position(list@.map_values(|x: String| x@), name@),
            None => position(list@.map_values(|x: String| x@), name@) == -1,
        },
{
    let ghost ids = list@.map_values(|x: String| x@);
    let mut i: usize = list.len();
    assert(ids.take(i as int) =~= ids);
    while i > 0
        invariant
            i <= list.len(),
            ids == list@.map_values(|x: String| x@),
            position(ids, name@) == position(ids.take(i as int), name@),
        decreases i,
    {
        let ghost prefix = ids.take(i as int);
        assert(prefix.drop_last() =~= ids.take(i - 1));
        if list[i - 1] == *name {
            return Some(i - 1);
        }
        i = i - 1;
    }
    None
}

fn is_strictly_increasing(b: &Vec<u64>) -> (r: bool)
    ensures
        r == strictly_increasing(b@),
{
    let mut i: usize = 1;
    while i < b.len()
        invariant
            1 <= i,
            forall|x: int, y: int| 0 <= x < y < i && y < b.len() ==> b@[x] < b@[y],
        decreases b.len() - i,
    {
        if b[i - 1] >= b[i] {
            return false;
        }
        i = i + 1;
    }
    true
}

fn bounds_equal(a: &Vec<u64>, b: &Vec<u64>) -> (r: bool)
    ensures
        r == (a@ == b@),
{
    if a.len() != b.len() {
        return false;
    }
    let mut i: usize = 0;
    while i < a.len()
        invariant
            a.len() == b.len(),
            i <= a.len(),
            forall|j: int| 0 <= j < i ==> a@[j] == b@[j],
        decreases a.len() - i,
    {
        if a[i] != b[i] {
            return false;
        }
        i = i + 1;
    }
    assert(a@ =~= b@);
    true
}

fn empty_data(n: usize) -> (r: HistogramData)
    ensures
        r@ == empty_histogram(n as nat),
{
    let mut buckets: Vec<u64> = Vec::new();
    let mut j: usize = 0;
    while j < n
        invariant
            j <= n,
            buckets@ =~= Seq::new(j as nat, |k: int| 0u64),
        decreases n - j,
    {
        buckets.push(0);
        j = j + 1;
    }
    HistogramData { buckets, sum: 0, count: 0 }
}

fn observe_data(h: &HistogramData, bounds: &Vec<u64>, v: u64) -> (r: HistogramData)
    requires
        h.buckets.len() == bounds.len(),
    ensures
        r@ == observe(h@, bounds@, v),
{
    let n = h.buckets.len();
    let mut buckets: Vec<u64> = Vec::new();
    let mut j: usize = 0;
    while j < n
        invariant
            n == h.buckets.len() == bounds.len(),
            j <= n,
            buckets@.len() == j,
            forall|k: int| 0 <= k < j ==> #[trigger] buckets@[k] == if v <= bounds@[k] {
                sat_inc(h.buckets@[k])
            } else {
                h.buckets@[k]
            },
        decreases n - j,
    {
        let c = h.buckets[j];
        if v <= bounds[j] {
            buckets.push(if c < u64::MAX { c + 1 } else { c });
        } else {
            buckets.push(c);
        }
        j = j + 1;
    }
    let sum = if h.sum <= u64::MAX - v { h.sum + v } else { u64::MAX };
    let count = if h.count < u64::MAX { h.count + 1 } else { h.count };
    let r = HistogramData { buckets, sum, count };
    assert(r@.buckets =~= observe(h@, bounds@, v).buckets);
    r
}

impl MetricRegistry {
    pub open spec fn wf(&self) -> bool {
        self@.wf()
    }

    /// A registry with no histogram bounds and no series.
    pub fn new() -> (r: MetricRegistry)
        ensures
            r.wf(),
            r@.bucket_names.len() == 0,
            r@.counter_ids.len() == 0,
            r@.histogram_ids.len() == 0,
            r@.gauge_ids.len() == 0,
    {
        let r = MetricRegistry {
            bucket_names: Vec::new(),
            bucket_bounds: Vec::new(),
            counter_series: Vec::new(),
            counter_values: Vec::new(),
            histogram_series: Vec::new(),
            histogram_data: Vec::new(),
            gauge_series: Vec::new(),
            gauge_values: Vec::new(),
        };
        assert(r@.bucket_names =~= Seq::empty());
        assert(r@.counter_ids =~= Seq::empty());
        assert(r@.histogram_ids =~= Seq::empty());
        assert(r@.gauge_ids =~= Seq::empty());
        r
    }

    /// Fixes the bucket bounds of the histogram `name`. Registering the same bounds
    /// again changes nothing; other bounds for a registered name, or bounds that are
    /// not strictly increasing, are refused and leave the registry as it was.
    pub fn register_histogram(&mut self, name: String, bounds: Vec<u64>) -> (r: Result<(), MetricsError>)
        requires
            old(self).wf(),
        ensures
            final(self).wf(),
            !strictly_increasing(bounds@) ==> r == Err::<(), MetricsError>(MetricsError::InvalidBuckets)
                && final(self)@ == old(self)@,
            strictly_increasing(bounds@) && old(self)@.is_registered(name@) ==> {
                &&& final(self)@ == old(self)@
                &&& if old(self)@.bounds_of(name@) == bounds@ {
                    r == Ok::<(), MetricsError>(())
                } else {
                    r == Err::<(), MetricsError>(MetricsError::ConflictingBuckets)
                }
            },
            strictly_increasing(bounds@) && !old(self)@.is_registered(name@) ==> r == Ok::<(), MetricsError>(())
                && final(self)@ == old(self)@.with_bounds(name@, bounds@),
    {
        if !is_strictly_increasing(&bounds) {
            return Err(MetricsError::InvalidBuckets);
        }
        match find_name(&self.bucket_names, &name) {
            Some(i) => {
                if bounds_equal(&self.bucket_bounds[i], &bounds) {
                    Ok(())
                } else {
                    Err(MetricsError::ConflictingBuckets)
                }
            },
            None => {
                let ghost m = self@;
                self.bucket_names.push(name);
                self.bucket_bounds.push(bounds);
                proof {
                    let m2 = self@;
                    assert(m2.bucket_names =~= m.bucket_names.push(name@));
                    assert(m2.bucket_bounds =~= m.bucket_bounds.push(bounds@));
                    assert(m2 == m.with_bounds(name@, bounds@));
                    lemma_position(m.bucket_names, name@);
                    assert forall|k: int| 0 <= k < m2.histogram_ids.len() implies {
                        &&& m2.is_registered(#[trigger] m2.histogram_ids[k].name)
                        &&& m2.histograms[k].buckets.len() == m2.bounds_of(m2.histogram_ids[k].name).len()
                    } by {
                        let n = m.histogram_ids[k].name;
                        lemma_position(m.bucket_names, n);
                        lemma_position_push(m.bucket_names, name@, n);
                    }
                }
                Ok(())
            },
        }
    }

    /// Adds one to the counter series `series`, creating it at 1 on first use
    /// (saturating at `u64::MAX`).
    pub fn increment_counter(&mut self, series: Series)
        requires
            old(self).wf(),
        ensures
            final(self).wf(),
            final(self)@ == old(self)@.with_increment(canonical(series@)),
    {
        let s = canonical_series(&series);
        let ghost m = self@;
        match find_series(&self.counter_series, &s) {
            Some(i) => {
                let v = self.counter_values[i];
                let nv = if v < u64::MAX { v + 1 } else { v };
                self.counter_values.set(i, nv);
                proof {
                    assert(self@.counter_values =~= m.counter_values.update(i as int, sat_inc(v)));
                    assert(self@ == m.with_increment(s@));
                }
            },
            None => {
                self.counter_series.push(s);
                self.counter_values.push(1);
                proof {
                    assert(self@.counter_ids =~= m.counter_ids.push(s@));
                    assert(self@.counter_values =~= m.counter_values.push(1));
                    assert(self@ == m.with_increment(s@));
                }
            },
        }
    }

    /// Adds the observation `v` (in units of `10^-HISTOGRAM_SCALE`) to the histogram
    /// series `series`, creating the series on first use. The name must have registered bounds.
    pub fn record_histogram(&mut self, series: Series, v: u64) -> (r: Result<(), MetricsError>)
        requires
            old(self).wf(),
        ensures
            final(self).wf(),
            old(self)@.is_registered(canonical(series@).name) ==> r == Ok::<(), MetricsError>(())
                && final(self)@ == old(self)@.with_observation(canonical(series@), v),
            !old(self)@.is_registered(canonical(series@).name) ==> r == Err::<(), MetricsError>(
                MetricsError::UnregisteredHistogram,
            ) && final(self)@ == old(self)@,
    {
        let s = canonical_series(&series);
        let ghost m = self@;
        let bi = match find_name(&self.bucket_names, &s.name) {
            Some(bi) => bi,
            None => {
                return Err(MetricsError::UnregisteredHistogram);
            },
        };
        proof {
            lemma_position(m.histogram_ids, s@);
        }
        match find_series(&self.histogram_series, &s) {
            Some(i) => {
                proof {
                    assert(m.histogram_ids[i as int] == s@);
                    assert(m.histograms[i as int].buckets.len() == m.bounds_of(
                        m.histogram_ids[i as int].name,
                    ).len());
                    assert(self.histogram_data@[i as int]@ == m.histograms[i as int]);
                    assert(self.bucket_bounds@[bi as int]@ == m.bounds_of(s@.name));
                }
                let h = observe_data(&self.histogram_data[i], &self.bucket_bounds[bi], v);
                self.histogram_data.set(i, h);
                proof {
                    assert(self@.histograms =~= m.histograms.update(
                        i as int,
                        observe(m.histogram_of(s@), m.bounds_of(s@.name), v),
                    ));
                    assert(self@ == m.with_observation(s@, v));
                }
            },
            None => {
                let h0 = empty_data(self.bucket_bounds[bi].len());
                let h = observe_data(&h0, &self.bucket_bounds[bi], v);
                self.histogram_series.push(s);
                self.histogram_data.push(h);
                proof {
                    assert(h0@ =~= empty_histogram(m.bounds_of(s@.name).len()));
                    assert(self@.histogram_ids =~= m.histogram_ids.push(s@));
                    assert(self@.histograms =~= m.histograms.push(
                        observe(m.histogram_of(s@), m.bounds_of(s@.name), v),
                    ));
                    assert(self@ == m.with_observation(s@, v));
                }
            },
        }
        Ok(())
    }

    /// The scrape-format text of every series. Reading leaves the registry as it is,
    /// so two renders with no write between them give the same text.
    pub fn render(&self) -> (r: String)
        requires
            self.wf(),
        ensures
            r@ == exposition(self@),
    {
        let ghost m = self@;
        let mut out = String::new();
        let mut i: usize = 0;
        while i < self.counter_series.len()
            invariant
                m == self@,
                m.wf(),
                i <= m.counter_ids.len(),
                out@ == counters_text(m, i as nat),
            decreases self.counter_series.len() - i,
        {
            let s = &self.counter_series[i];
            push_integer_sample(&mut out, &s.name, "", &s.labels, self.counter_values[i]);
            i = i + 1;
            proof {
                reveal_strlit("");
                assert(s@.name + ""@ =~= s@.name);
                assert(out@ =~= counters_text(m, i as nat));
            }
        }
        let ghost c = out@;
        let mut i: usize = 0;
        while i < self.histogram_series.len()
            invariant
                m == self@,
                m.wf(),
                i <= m.histogram_ids.len(),
                out@ == c + histograms_text(m, i as nat),
            decreases self.histogram_series.len() - i,
        {
            let s = &self.histogram_series[i];
            let bi = find_name(&self.bucket_names, &s.name);
            proof {
                assert(m.is_registered(m.histogram_ids[i as int].name));
                lemma_position(m.bucket_names, s@.name);
            }
            match bi {
                Some(bi) => {
                    proof {
                        assert(self.bucket_bounds@[bi as int]@ == m.bounds_of(s@.name));
                        assert(self.histogram_data@[i as int]@ == m.histograms[i as int]);
                    }
                    push_histogram(&mut out, s, &self.histogram_data[i], &self.bucket_bounds[bi]);
                },
                None => {},
            }
            i = i + 1;
            proof {
                assert(out@ =~= c + histograms_text(m, i as nat));
            }
        }
        let ghost ch = out@;
        let mut i: usize = 0;
        while i < self.gauge_series.len()
            invariant
                m == self@,
                m.wf(),
                i <= m.gauge_ids.len(),
                out@ == ch + gauges_text(m, i as nat),
            decreases self.gauge_series.len() - i,
        {
            let s = &self.gauge_series[i];
            let v = self.gauge_values[i];
            proof {
                assert(m.gauge_values[i as int].scale <= MAX_SCALE);
            }
            push_fixed_sample(&mut out, &s.name, "", &s.labels, v.units, v.scale);
            i = i + 1;
            proof {
                reveal_strlit("");
                assert(s@.name + ""@ =~= s@.name);
                assert(out@ =~= ch + gauges_text(m, i as nat));
            }
        }
        out
    }

    /// Overwrites the gauge series `series` with `v`, creating it on first use.
    pub fn set_gauge(&mut self, series: Series, v: Fixed)
        requires
            old(self).wf(),
            v.scale <= MAX_SCALE,
        ensures
            final(self).wf(),
            final(self)@ == old(self)@.with_gauge(canonical(series@), v),
    {
        let s = canonical_series(&series);
        let ghost m = self@;
        match find_series(&self.gauge_series, &s) {
            Some(i) => {
                self.gauge_values.set(i, v);
                proof {
                    assert(self@.gauge_values =~= m.gauge_values.update(i as int, v));
                    assert(self@ == m.with_gauge(s@, v));
                }
            },
            None => {
                self.gauge_series.push(s);
                self.gauge_values.push(v);
                proof {
                    assert(self@.gauge_ids =~= m.gauge_ids.push(s@));
                    assert(self@.gauge_values =~= m.gauge_values.push(v));
                    assert(self@ == m.with_gauge(s@, v));
                }
            },
        }
    }

    /// Whether bucket bounds are registered for the histogram `name`.
    pub fn has_histogram(&self, name: &String) -> (r: bool)
        requires
            self.wf(),
        ensures
            r == self@.is_registered(name@),
    {
        find_name(&self.bucket_names, name).is_some()
    }

    /// The value of the counter series `series` (zero before its first increment).
    pub fn counter(&self, series: &Series) -> (r: u64)
        requires
            self.wf(),
        ensures
            r == self@.counter_value(canonical(series@)),
    {
        let s = &canonical_series(series);
        proof {
            lemma_position(self@.counter_ids, s@);
        }
        match find_series(&self.counter_series, s) {
            Some(i) => self.counter_values[i],
            None => 0,
        }
    }

    /// The count of bucket `j` of the histogram series `series`: `None` before the
    /// series' first observation or where the histogram has no bucket `j`.
    pub fn bucket_count(&self, series: &Series, j: usize) -> (r: Option<u64>)
        requires
            self.wf(),
        ensures
            ({
                let i = position(self@.histogram_ids, canonical(series@));
                match r {
                    Some(c) => i >= 0 && j < self@.histograms[i].buckets.len() && c == self@.histograms[i].buckets[j as int],
                    None => i < 0 || j >= self@.histograms[i].buckets.len(),
                }
            }),
    {
        let s = &canonical_series(series);
        proof {
            lemma_position(self@.histogram_ids, s@);
        }
        match find_series(&self.histogram_series, s) {
            Some(i) => {
                let h = &self.histogram_data[i];
                if j < h.buckets.len() {
                    Some(h.buckets[j])
                } else {
                    None
                }
            },
            None => None,
        }
    }

    /// Sum and count of the histogram series `series`; `None` before its first observation.
    pub fn histogram_totals(&self, series: &Series) -> (r: Option<(u64, u64)>)
        requires
            self.wf(),
        ensures
            ({
                let i = position(self@.histogram_ids, canonical(series@));
                match r {
                    Some(t) => i >= 0 && t == (self@.histograms[i].sum, self@.histograms[i].count),
                    None => i < 0,
                }
            }),
    {
        let s = &canonical_series(series);
        proof {
            lemma_position(self@.histogram_ids, s@);
        }
        match find_series(&self.histogram_series, s) {
            Some(i) => Some((self.histogram_data[i].sum, self.histogram_data[i].count)),
            None => None,
        }
    }

    /// The value of the gauge series `series`; `None` before it is first set.
    pub fn gauge(&self, series: &Series) -> (r: Option<Fixed>)
        requires
            self.wf(),
        ensures
            r == self@.gauge_value(canonical(series@)),
    {
        let s = &canonical_series(series);
        proof {
            lemma_position(self@.gauge_ids, s@);
        }
        match find_series(&self.gauge_series, s) {
            Some(i) => Some(self.gauge_values[i]),
            None => None,
        }
    }
}

} // verus!
