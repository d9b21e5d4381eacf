//! What holds of the registry across many writes and reads.
use vstd::prelude::*;

use crate::exposition::exposition;
use crate::prometheus::{
    after_request, after_sample, request_series, service_series, CPU_USAGE, REQUESTS_TOTAL,
    TOTAL_DISKS_SPACE, TOTAL_MEMORY, TOTAL_SWAP, USED_DISKS_USAGE, USED_MEMORY, USED_SWAP,
};
use crate::system::SnapshotModel;
use crate::registry::{
    lemma_position, lemma_position_push, position, sat_add, sat_inc, Fixed, MetricRegistry,
    RegistryModel, SeriesId,
};

verus! {

/// The registry after the requests of `obs`, recorded one after another.
pub open spec fn after_requests(m: RegistryModel, obs: Seq<crate::prometheus::RequestObservation>) -> RegistryModel
    decreases obs.len(),
{
    if obs.len() == 0 {
        m
    } else {
        after_request(after_requests(m, obs.drop_last()), obs.last())
    }
}

/// How many of the requests in `obs` fall on the counter series `id`.
pub open spec fn requests_on(obs: Seq<crate::prometheus::RequestObservation>, id: SeriesId) -> nat
    decreases obs.len(),
{
    if obs.len() == 0 {
        0
    } else {
        requests_on(obs.drop_last(), id) + if request_series(REQUESTS_TOTAL@, obs.last()) == id {
            1nat
        } else {
            0nat
        }
    }
}

/// `n` added to a counter value, saturating at `u64::MAX`.
pub open spec fn counter_plus(v: u64, n: nat) -> u64 {
    if v + n <= u64::MAX { (v + n) as u64 } else { u64::MAX }
}

/// One increment adds one to its own counter series and leaves every other one as it was.
pub proof fn lemma_increment_counter_value(m: RegistryModel, sid: SeriesId, id: SeriesId)
    requires
        m.counter_ids.len() == m.counter_values.len(),
    ensures
        m.with_increment(sid).counter_value(id) == if sid == id {
            sat_inc(m.counter_value(id))
        } else {
            m.counter_value(id)
        },
        m.with_increment(sid).counter_ids.len() == m.with_increment(sid).counter_values.len(),
{
    lemma_position(m.counter_ids, sid);
    lemma_position(m.counter_ids, id);
    lemma_position_push(m.counter_ids, sid, id);
}

/// Requests recorded one by one, in any interleaving of label sets, lose no count:
/// each counter series ends at its starting value plus the number of requests on it.
pub proof fn lemma_no_lost_updates(m: RegistryModel, obs: Seq<crate::prometheus::RequestObservation>, id: SeriesId)
    requires
        m.wf(),
    ensures
        after_requests(m, obs).counter_value(id) == counter_plus(m.counter_value(id), requests_on(obs, id)),
        after_requests(m, obs).counter_ids.len() == after_requests(m, obs).counter_values.len(),
    decreases obs.len(),
{
    if obs.len() > 0 {
        let prev = after_requests(m, obs.drop_last());
        let o = obs.last();
        lemma_no_lost_updates(m, obs.drop_last(), id);
        lemma_increment_counter_value(prev, request_series(REQUESTS_TOTAL@, o), id);
    }
}

/// N requests with one method, route and status, on a series not counted before,
/// leave its counter at N (at most `u64::MAX`).
pub proof fn lemma_requests_counted(m: RegistryModel, obs: Seq<crate::prometheus::RequestObservation>, id: SeriesId)
    requires
        m.wf(),
        m.counter_value(id) == 0,
        forall|i: int| 0 <= i < obs.len() ==> request_series(REQUESTS_TOTAL@, #[trigger] obs[i]) == id,
    ensures
        after_requests(m, obs).counter_value(id) == if obs.len() <= u64::MAX {
            obs.len() as u64
        } else {
            u64::MAX
        },
{
    lemma_all_requests_on(obs, id);
    lemma_no_lost_updates(m, obs, id);
}

proof fn lemma_all_requests_on(obs: Seq<crate::prometheus::RequestObservation>, id: SeriesId)
    requires
        forall|i: int| 0 <= i < obs.len() ==> request_series(REQUESTS_TOTAL@, #[trigger] obs[i]) == id,
    ensures
        requests_on(obs, id) == obs.len(),
    decreases obs.len(),
{
    if obs.len() > 0 {
        let d = obs.drop_last();
        assert forall|i: int| 0 <= i < d.len() implies request_series(REQUESTS_TOTAL@, #[trigger] d[i]) == id by {
            assert(d[i] == obs[i]);
        }
        lemma_all_requests_on(d, id);
        assert(request_series(REQUESTS_TOTAL@, obs[obs.len() - 1]) == id);
    }
}

/// One observation `v` on a histogram series counts once in every bucket whose bound
/// is at or above `v` and in no other, adds `v` to the sum and one to the count
/// (each saturating), and leaves every other histogram series as it was.
pub proof fn lemma_observation_buckets(m: RegistryModel, id: SeriesId, v: u64, other: SeriesId)
    requires
        m.wf(),
        m.is_registered(id.name),
    ensures
        ({
            let bounds = m.bounds_of(id.name);
            let before = m.histogram_of(id);
            let after = m.with_observation(id, v).histogram_of(id);
            &&& after.buckets.len() == bounds.len()
            &&& forall|j: int|
                0 <= j < bounds.len() ==> #[trigger] after.buckets[j] == if v <= bounds[j] {
                    sat_inc(before.buckets[j])
                } else {
                    before.buckets[j]
                }
            &&& after.sum == sat_add(before.sum, v)
            &&& after.count == sat_inc(before.count)
        }),
        other != id ==> m.with_observation(id, v).histogram_of(other) == m.histogram_of(other),
{
    let i = position(m.histogram_ids, id);
    lemma_position(m.histogram_ids, id);
    lemma_position(m.histogram_ids, other);
    lemma_position_push(m.histogram_ids, id, id);
    lemma_position_push(m.histogram_ids, id, other);
    if i >= 0 {
        assert(m.histograms[i].buckets.len() == m.bounds_of(m.histogram_ids[i].name).len());
    }
}

/// Recording an observation keeps the registry well formed.
pub proof fn lemma_observation_wf(m: RegistryModel, id: SeriesId, v: u64)
    requires
        m.wf(),
        m.is_registered(id.name),
    ensures
        m.with_observation(id, v).wf(),
{
    let m2 = m.with_observation(id, v);
    lemma_position(m.histogram_ids, id);
    let i = position(m.histogram_ids, id);
    if i >= 0 {
        assert(m.histograms[i].buckets.len() == m.bounds_of(m.histogram_ids[i].name).len());
    }
    assert forall|k: int| 0 <= k < m2.histogram_ids.len() implies {
        &&& m2.is_registered(#[trigger] m2.histogram_ids[k].name)
        &&& m2.histograms[k].buckets.len() == m2.bounds_of(m2.histogram_ids[k].name).len()
    } by {
        if k < m.histogram_ids.len() {
            assert(m2.histogram_ids[k] == m.histogram_ids[k]);
        }
    }
}

/// The registry after the observations `vs` on the histogram series `id`.
pub open spec fn after_observations(m: RegistryModel, id: SeriesId, vs: Seq<u64>) -> RegistryModel
    decreases vs.len(),
{
    if vs.len() == 0 {
        m
    } else {
        after_observations(m, id, vs.drop_last()).with_observation(id, vs.last())
    }
}

/// How many of `vs` are at or below `bound`.
pub open spec fn at_most(vs: Seq<u64>, bound: u64) -> nat
    decreases vs.len(),
{
    if vs.len() == 0 {
        0
    } else {
        at_most(vs.drop_last(), bound) + if vs.last() <= bound { 1nat } else { 0nat }
    }
}

/// `vs` added one by one to `start`, saturating at `u64::MAX`.
pub open spec fn sum_of(start: u64, vs: Seq<u64>) -> u64
    decreases vs.len(),
{
    if vs.len() == 0 {
        start
    } else {
        sat_add(sum_of(start, vs.drop_last()), vs.last())
    }
}

/// Over any sequence of observations on one histogram series, each bucket ends at its
/// starting count plus the number of observations at or below its bound, the count
/// at its start plus the number of observations, and the sum accumulates them all
/// (counts and sum saturating at `u64::MAX`).
pub proof fn lemma_observations_cumulative(m: RegistryModel, id: SeriesId, vs: Seq<u64>)
    requires
        m.wf(),
        m.is_registered(id.name),
    ensures
        ({
            let bounds = m.bounds_of(id.name);
            let before = m.histogram_of(id);
            let after = after_observations(m, id, vs).histogram_of(id);
            &&& after.buckets.len() == bounds.len()
            &&& forall|j: int|
                0 <= j < bounds.len() ==> #[trigger] after.buckets[j] == counter_plus(
                    before.buckets[j],
                    at_most(vs, bounds[j]),
                )
            &&& after.count == counter_plus(before.count, vs.len())
            &&& after.sum == sum_of(before.sum, vs)
        }),
        after_observations(m, id, vs).wf(),
        after_observations(m, id, vs).is_registered(id.name),
        after_observations(m, id, vs).bounds_of(id.name) == m.bounds_of(id.name),
    decreases vs.len(),
{
    let bounds = m.bounds_of(id.name);
    let before = m.histogram_of(id);
    if vs.len() == 0 {
        lemma_position(m.histogram_ids, id);
        let i = position(m.histogram_ids, id);
        if i >= 0 {
            assert(m.histograms[i].buckets.len() == m.bounds_of(m.histogram_ids[i].name).len());
        }
    } else {
        let d = vs.drop_last();
        let v = vs.last();
        lemma_observations_cumulative(m, id, d);
        let prev = after_observations(m, id, d);
        lemma_observation_buckets(prev, id, v, id);
        lemma_observation_wf(prev, id, v);
        let mid = prev.histogram_of(id);
        let after = after_observations(m, id, vs).histogram_of(id);
        assert forall|j: int| 0 <= j < bounds.len() implies #[trigger] after.buckets[j] == counter_plus(
            before.buckets[j],
            at_most(vs, bounds[j]),
        ) by {
            assert(mid.buckets[j] == counter_plus(before.buckets[j], at_most(d, bounds[j])));
        }
    }
}

/// Setting a gauge series gives it that value and leaves every other gauge as it was.
pub proof fn lemma_gauge_value(m: RegistryModel, gid: SeriesId, v: Fixed, id: SeriesId)
    requires
        m.gauge_ids.len() == m.gauge_values.len(),
    ensures
        m.with_gauge(gid, v).gauge_value(id) == if gid == id { Some(v) } else { m.gauge_value(id) },
        m.with_gauge(gid, v).gauge_ids.len() == m.with_gauge(gid, v).gauge_values.len(),
{
    lemma_position(m.gauge_ids, gid);
    lemma_position(m.gauge_ids, id);
    lemma_position_push(m.gauge_ids, gid, id);
}

/// A published sample never shows more memory, swap or disk space in use than in
/// total: the used gauges stay at or below the total gauges.
pub proof fn lemma_published_within_totals(m: RegistryModel, s: SnapshotModel)
    requires
        m.wf(),
        s.wf(),
    ensures
        after_sample(m, s).gauge_value(service_series(USED_MEMORY@)) == Some(Fixed { units: s.used_memory, scale: 0 }),
        after_sample(m, s).gauge_value(service_series(TOTAL_MEMORY@)) == Some(Fixed { units: s.total_memory, scale: 0 }),
        after_sample(m, s).gauge_value(service_series(USED_SWAP@)) == Some(Fixed { units: s.used_swap, scale: 0 }),
        after_sample(m, s).gauge_value(service_series(TOTAL_SWAP@)) == Some(Fixed { units: s.total_swap, scale: 0 }),
        after_sample(m, s).gauge_value(service_series(USED_DISKS_USAGE@)) == Some(Fixed { units: s.used_disks_space, scale: 0 }),
        after_sample(m, s).gauge_value(service_series(TOTAL_DISKS_SPACE@)) == Some(Fixed { units: s.total_disks_space, scale: 0 }),
        s.used_memory <= s.total_memory,
        s.used_swap <= s.total_swap,
        s.used_disks_space <= s.total_disks_space,
{
    reveal_strlit("system_cpu_usage");
    reveal_strlit("system_total_memory");
    reveal_strlit("system_used_memory");
    reveal_strlit("system_total_swap");
    reveal_strlit("system_used_swap");
    reveal_strlit("system_total_disks_space");
    reveal_strlit("system_used_disks_usage");
    let names = seq![
        CPU_USAGE@, TOTAL_MEMORY@, USED_MEMORY@, TOTAL_SWAP@, USED_SWAP@, TOTAL_DISKS_SPACE@,
        USED_DISKS_USAGE@,
    ];
    let values = seq![
        Fixed { units: s.cpu_usage, scale: 3 },
        Fixed { units: s.total_memory, scale: 0 },
        Fixed { units: s.used_memory, scale: 0 },
        Fixed { units: s.total_swap, scale: 0 },
        Fixed { units: s.used_swap, scale: 0 },
        Fixed { units: s.total_disks_space, scale: 0 },
        Fixed { units: s.used_disks_space, scale: 0 },
    ];
    assert(names[0][7] == 'c' && names[1][7] == 't' && names[2][7] == 'u');
    assert(names[3][7] == 't' && names[4][7] == 'u' && names[5][7] == 't' && names[6][7] == 'u');
    assert(names[1][13] == 'm' && names[3][13] == 's' && names[5][13] == 'd');
    assert(names[2][12] == 'm' && names[4][12] == 's' && names[6][12] == 'd');
    let m1 = m.with_gauge(service_series(names[0]), values[0]);
    let m2 = m1.with_gauge(service_series(names[1]), values[1]);
    let m3 = m2.with_gauge(service_series(names[2]), values[2]);
    let m4 = m3.with_gauge(service_series(names[3]), values[3]);
    let m5 = m4.with_gauge(service_series(names[4]), values[4]);
    let m6 = m5.with_gauge(service_series(names[5]), values[5]);
    assert forall|k: int| 1 <= k < 7 implies {
        &&& #[trigger] after_sample(m, s).gauge_value(service_series(names[k])) == Some(values[k])
    } by {
        let id = service_series(names[k]);
        lemma_gauge_value(m, service_series(names[0]), values[0], id);
        lemma_gauge_value(m1, service_series(names[1]), values[1], id);
        lemma_gauge_value(m2, service_series(names[2]), values[2], id);
        lemma_gauge_value(m3, service_series(names[3]), values[3], id);
        lemma_gauge_value(m4, service_series(names[4]), values[4], id);
        lemma_gauge_value(m5, service_series(names[5]), values[5], id);
        lemma_gauge_value(m6, service_series(names[6]), values[6], id);
    }
}

/// Rendering reads the registry only: two renders with no write between them give
/// the same text.
pub proof fn lemma_render_idempotent(reg: &MetricRegistry, first: Seq<char>, second: Seq<char>)
    requires
        first == exposition(reg@),
        second == exposition(reg@),
    ensures
        first == second,
{
}

} // verus!
