//! What is counted, remembered and listed of what was stored.

use crate::config::error::ExpectedError;
use crate::db::container;
use crate::db::container::Owner;
use crate::db::devices;
use crate::db::models;
use crate::db::models::{ContainerLaunchIntent, DeviceSample, RequestMetric, ServiceRestart};
use crate::db::order;
use crate::db::restarts;
use crate::db::restarts::SpecAcceptance;
use vstd::prelude::*;
use vstd::string::*;

verus! {

proof fn lemma_tally_grows<T>(rows: Seq<T>, row: T, f: spec_fn(T) -> bool)
    ensures
        restarts::tally(rows.push(row), f) == restarts::tally(rows, f) + (if f(row) {
            1int
        } else {
            0
        }),
        restarts::tally(Seq::<T>::empty(), f) == 0,
{
    assert(rows.push(row).drop_last() =~= rows);
}

proof fn lemma_total_grows<T>(rows: Seq<T>, row: T, f: spec_fn(T) -> int)
    ensures
        restarts::total(rows.push(row), f) == restarts::total(rows, f) + f(row),
        restarts::total(Seq::<T>::empty(), f) == 0,
{
    assert(rows.push(row).drop_last() =~= rows);
}

/// One more request counts exactly where it is of the run and began within
/// the window, and as a failure exactly where its status is bad enough.
/// Nothing counts where nothing was asked.
pub proof fn lemma_request_counts_in_its_window(
    before: (u64, u64),
    after: (u64, u64),
    metrics: Seq<RequestMetric>,
    m: RequestMetric,
    service_id: i64,
    run_id: i64,
    since_ms: i64,
    min_error_status: u16,
)
    requires
        restarts::is_error_rate(before, metrics, service_id, run_id, since_ms, min_error_status),
        restarts::is_error_rate(
            after,
            metrics.push(m),
            service_id,
            run_id,
            since_ms,
            min_error_status,
        ),
    ensures
        metrics.len() == 0 ==> before.0 == 0 && before.1 == 0,
        ({
            let counts = m.service_id == service_id && m.run_id == Some(run_id) && m.timestamp_ms
                >= since_ms;
            &&& counts ==> after.0 == before.0 + 1
            &&& !counts ==> after.0 == before.0 && after.1 == before.1
            &&& counts && m.status_code >= min_error_status ==> after.1 == before.1 + 1
            &&& counts && m.status_code < min_error_status ==> after.1 == before.1
        }),
{
    let f = |m: RequestMetric| restarts::in_window(m, service_id, run_id, since_ms);
    let g = |m: RequestMetric|
        restarts::in_window(m, service_id, run_id, since_ms) && m.status_code >= min_error_status;
    lemma_tally_grows(metrics, m, f);
    lemma_tally_grows(metrics, m, g);
}

/// One more request counts among those that drafted exactly where it is of
/// the run, drafted something and ended within the window; its tokens then
/// count as drafted and as accepted. What it had accepted counts for the
/// run whenever it ended.
pub proof fn lemma_draft_counts_in_its_window(
    before: SpecAcceptance,
    after: SpecAcceptance,
    metrics: Seq<RequestMetric>,
    m: RequestMetric,
    service_id: i64,
    run_id: i64,
    since_ms: i64,
    ended: int,
    tokens: int,
    taken: int,
)
    requires
        restarts::is_acceptance(Some(before), metrics, service_id, run_id, since_ms),
        restarts::is_acceptance(Some(after), metrics.push(m), service_id, run_id, since_ms),
        m.duration_ms matches Some(d) ==> ended == m.timestamp_ms + d,
        m.duration_ms is None ==> ended == m.timestamp_ms,
        m.draft_tokens matches Some(n) ==> tokens == n,
        m.draft_tokens is None ==> tokens == 0,
        m.draft_tokens_accepted matches Some(n) ==> taken == n,
        m.draft_tokens_accepted is None ==> taken == 0,
        taken >= 0,
        restarts::window_accepted(metrics, service_id, run_id, since_ms) >= 0,
        restarts::run_accepted(metrics, service_id, run_id) >= 0,
        restarts::window_drafted(metrics, service_id, run_id, since_ms) >= 0,
    ensures
        ({
            let drafting = m.service_id == service_id && m.run_id == Some(run_id) && tokens > 0;
            &&& drafting && ended >= since_ms ==> {
                &&& after.window_drafting == before.window_drafting + 1
                &&& after.window_drafted == before.window_drafted + tokens
                &&& after.window_accepted == before.window_accepted + taken
            }
            &&& !drafting || ended < since_ms ==> {
                &&& after.window_drafting == before.window_drafting
                &&& after.window_drafted == before.window_drafted
                &&& after.window_accepted == before.window_accepted
            }
            &&& drafting ==> after.run_accepted == before.run_accepted + taken
            &&& !drafting ==> after.run_accepted == before.run_accepted
        }),
{
    lemma_tally_grows(
        metrics,
        m,
        |m: RequestMetric|
            restarts::drafted(m, service_id, run_id) && restarts::end_ms(m) >= since_ms,
    );
    lemma_total_grows(
        metrics,
        m,
        |m: RequestMetric|
            if restarts::drafted(m, service_id, run_id) && restarts::end_ms(m) >= since_ms {
                m.draft_tokens->0 as int
            } else {
                0
            },
    );
    lemma_total_grows(
        metrics,
        m,
        |m: RequestMetric|
            if restarts::drafted(m, service_id, run_id) && restarts::end_ms(m) >= since_ms {
                restarts::accepted(m)
            } else {
                0
            },
    );
    lemma_total_grows(
        metrics,
        m,
        |m: RequestMetric|
            if restarts::drafted(m, service_id, run_id) {
                restarts::accepted(m)
            } else {
                0
            },
    );
}

proof fn lemma_tally_is_filter<T>(rows: Seq<T>, f: spec_fn(T) -> bool)
    ensures
        restarts::tally(rows, f) == rows.filter(f).len(),
    decreases rows.len(),
{
    reveal(Seq::filter);
    if rows.len() > 0 {
        lemma_tally_is_filter(rows.drop_last(), f);
    }
}

proof fn lemma_filtered<T>(rows: Seq<T>, f: spec_fn(T) -> bool)
    ensures
        forall|x: T| #[trigger] rows.filter(f).contains(x) <==> rows.contains(x) && f(x),
    decreases rows.len(),
{
    reveal(Seq::filter);
    if rows.len() > 0 {
        let rest = rows.drop_last();
        lemma_filtered(rest, f);
        let few = rest.filter(f);
        assert forall|x: T| #[trigger] rows.filter(f).contains(x) <==> rows.contains(x) && f(x) by {
            assert(few.contains(x) <==> rest.contains(x) && f(x));
            if rest.contains(x) {
                assert(rows[rest.index_of(x)] == x);
            }
            if rows.contains(x) {
                let k = rows.index_of(x);
                if k < rest.len() {
                    assert(rest[k] == x);
                }
            }
            if f(rows.last()) {
                let all = few.push(rows.last());
                assert(all[few.len() as int] == rows.last());
                if few.contains(x) {
                    assert(all[few.index_of(x)] == x);
                }
                if all.contains(x) {
                    let k = all.index_of(x);
                    if k < few.len() {
                        assert(few[k] == x);
                    }
                }
            }
            assert(rows[rows.len() - 1] == rows.last());
        }
    }
}

/// A restart is forgotten exactly where it is of the service that restarted
/// and fifty of that service are newer, by their time and then by their
/// number; every other is remembered, and none is made up. The numbers that
/// are handed back are those of the forgotten.
pub proof fn lemma_restart_forgotten_iff_outlived(
    history: Seq<ServiceRestart>,
    service_id: i64,
    r: ServiceRestart,
)
    requires
        history.contains(r),
    ensures
        ({
            let newer = history.filter(
                |x: ServiceRestart|
                    x.service_id == r.service_id && (r.at_ms < x.at_ms || (r.at_ms == x.at_ms
                        && r.restart_id < x.restart_id)),
            );
            let gone = r.service_id == service_id && newer.len() >= 50;
            &&& restarts::remembered(history, service_id).contains(r) <==> !gone
            &&& gone ==> restarts::evicted_ids(history, service_id).contains(r.restart_id)
        }),
        forall|x: ServiceRestart| #[trigger]
            restarts::remembered(history, service_id).contains(x) ==> history.contains(x),
        restarts::remembered(history, service_id).len() + restarts::evicted_ids(
            history,
            service_id,
        ).len() == history.len(),
{
    let f = |x: ServiceRestart| restarts::is_newer(x, r);
    let g = |x: ServiceRestart|
        x.service_id == r.service_id && (r.at_ms < x.at_ms || (r.at_ms == x.at_ms && r.restart_id
            < x.restart_id));
    assert(f =~= g);
    lemma_tally_is_filter(history, f);
    let keep = |x: ServiceRestart| !restarts::evicted(history, service_id, x);
    let drop = |x: ServiceRestart| restarts::evicted(history, service_id, x);
    lemma_filtered(history, keep);
    lemma_filtered(history, drop);
    if restarts::evicted(history, service_id, r) {
        assert(!keep(r));
        if restarts::remembered(history, service_id).contains(r) {
            assert(keep(r));
        }
        let ids = restarts::evicted_ids(history, service_id);
        assert(drop(r));
        assert(history.filter(drop).contains(r));
        let k = history.filter(drop).index_of(r);
        assert(history.filter(drop)[k] == r);
        assert(ids[k] == r.restart_id);
    } else {
        assert(keep(r));
    }
    assert forall|x: ServiceRestart| #[trigger]
        restarts::remembered(history, service_id).contains(x) implies history.contains(x) by {
        assert(history.filter(keep).contains(x));
    }
    lemma_filters_share(history, keep, drop);
}

proof fn lemma_filters_share<T>(rows: Seq<T>, f: spec_fn(T) -> bool, g: spec_fn(T) -> bool)
    requires
        forall|x: T| #[trigger] f(x) == !g(x),
    ensures
        rows.filter(f).len() + rows.filter(g).len() == rows.len(),
    decreases rows.len(),
{
    reveal(Seq::filter);
    if rows.len() > 0 {
        lemma_filters_share(rows.drop_last(), f, g);
        assert(f(rows.last()) == !g(rows.last()));
    }
}

proof fn lemma_picked_all<T>(rows: Seq<T>, o: Seq<usize>, keys: Seq<(i64, i64)>)
    requires
        order::is_order(o, keys),
        keys.len() == rows.len(),
    ensures
        order::picked(rows, o).len() == rows.len(),
        forall|x: T| #[trigger] order::picked(rows, o).contains(x) <==> rows.contains(x),
{
    let out = order::picked(rows, o);
    assert forall|x: T| #[trigger] out.contains(x) <==> rows.contains(x) by {
        if out.contains(x) {
            let i = out.index_of(x);
            assert(o[i] < keys.len());
            assert(rows[o[i] as int] == x);
        }
        if rows.contains(x) {
            let p = rows.index_of(x);
            order::lemma_order_covers(o, keys, p);
            let i = choose|i: int| 0 <= i < o.len() && #[trigger] o[i] == p;
            assert(out[i] == x);
        }
    }
}

/// The recent restarts of a service: the newest first, as many as asked for
/// or as there are, and none newer left out.
pub proof fn lemma_recent_restarts_listed(
    out: Seq<ServiceRestart>,
    history: Seq<ServiceRestart>,
    service_id: i64,
    limit: nat,
)
    requires
        restarts::newest_first(out, restarts::restarts_of(history, service_id), limit),
    ensures
        forall|i: int|
            0 <= i < out.len() ==> history.contains(#[trigger] out[i]) && out[i].service_id
                == service_id,
        forall|i: int, j: int|
            0 <= i < j < out.len() ==> (#[trigger] out[j]).at_ms < (#[trigger] out[i]).at_ms || (
            out[j].at_ms == out[i].at_ms && out[j].restart_id <= out[i].restart_id),
        out.len() <= limit,
        out.len() == limit || out.len() == history.filter(
            |r: ServiceRestart| r.service_id == service_id,
        ).len(),
        out.len() < limit ==> forall|r: ServiceRestart|
            history.contains(r) && r.service_id == service_id ==> #[trigger] out.contains(r),
        forall|r: ServiceRestart, i: int|
            0 <= i < out.len() && history.contains(r) && r.service_id == service_id
                && !#[trigger] out.contains(r) ==> r.at_ms < (#[trigger] out[i]).at_ms || (r.at_ms
                == out[i].at_ms && r.restart_id <= out[i].restart_id),
{
    let f = |r: ServiceRestart| r.service_id == service_id;
    let rows = history.filter(f);
    lemma_filtered(history, f);
    let o = choose|o: Seq<usize>| #[trigger]
        order::is_order(o, restarts::ages(rows)) && out == order::picked(
            rows,
            o,
        ).reverse().take(
            if limit < rows.len() {
                limit as int
            } else {
                rows.len() as int
            },
        );
    let keys = restarts::ages(rows);
    let all = order::picked(rows, o);
    let n = rows.len() as int;
    lemma_picked_all(rows, o, keys);
    assert forall|i: int| 0 <= i < out.len() implies #[trigger] out[i] == rows[o[n - 1 - i] as int] by {
        assert(all.reverse()[i] == all[n - 1 - i]);
    }
    assert forall|i: int| 0 <= i < out.len() implies history.contains(#[trigger] out[i])
        && out[i].service_id == service_id by {
        assert(o[n - 1 - i] < keys.len());
        assert(rows.contains(rows[o[n - 1 - i] as int]));
        assert(f(rows[o[n - 1 - i] as int]));
    }
    assert forall|i: int, j: int| 0 <= i < j < out.len() implies (#[trigger] out[j]).at_ms < (
    #[trigger] out[i]).at_ms || (out[j].at_ms == out[i].at_ms && out[j].restart_id
        <= out[i].restart_id) by {
        assert(order::in_turn(keys, o[n - 1 - j], o[n - 1 - i]));
        assert(o[n - 1 - j] < keys.len() && o[n - 1 - i] < keys.len());
    }
    assert forall|r: ServiceRestart, i: int|
        0 <= i < out.len() && history.contains(r) && r.service_id == service_id
            && !#[trigger] out.contains(r) implies r.at_ms < (#[trigger] out[i]).at_ms || (r.at_ms
        == out[i].at_ms && r.restart_id <= out[i].restart_id) by {
        assert(f(r));
        assert(rows.contains(r));
        let p = rows.index_of(r);
        order::lemma_order_covers(o, keys, p);
        let k = choose|k: int| 0 <= k < o.len() && #[trigger] o[k] == p;
        if n - 1 - k < out.len() {
            assert(out[n - 1 - k] == r);
        }
        assert(order::in_turn(keys, o[k], o[n - 1 - i]));
        assert(o[n - 1 - i] < keys.len());
    }
    if out.len() < limit {
        assert forall|r: ServiceRestart|
            history.contains(r) && r.service_id == service_id implies #[trigger] out.contains(r) by {
            assert(f(r));
            assert(rows.contains(r));
            let p = rows.index_of(r);
            order::lemma_order_covers(o, keys, p);
            let k = choose|k: int| 0 <= k < o.len() && #[trigger] o[k] == p;
            assert(out[n - 1 - k] == r);
        }
    }
}

/// The restarts of a span of time: those within it, its ends among them, of
/// the service that was asked for or of all; each once, the oldest first.
pub proof fn lemma_restarts_of_a_span_listed(
    out: Seq<(String, ServiceRestart)>,
    rows: Seq<(String, ServiceRestart)>,
    service_id: Option<i64>,
    since_ms: i64,
    until_ms: i64,
)
    requires
        restarts::oldest_first(
            out,
            rows.filter(
                |row: (String, ServiceRestart)|
                    restarts::asked(row, service_id, since_ms, until_ms),
            ),
        ),
    ensures
        forall|row: (String, ServiceRestart)| #[trigger]
            out.contains(row) <==> rows.contains(row) && since_ms <= row.1.at_ms && row.1.at_ms
                <= until_ms && (service_id is None || service_id == Some(row.1.service_id)),
        forall|i: int, j: int|
            0 <= i < j < out.len() ==> (#[trigger] out[i]).1.at_ms < (#[trigger] out[j]).1.at_ms || (
            out[i].1.at_ms == out[j].1.at_ms && out[i].1.restart_id <= out[j].1.restart_id),
{
    let f = |row: (String, ServiceRestart)|
        restarts::asked(row, service_id, since_ms, until_ms);
    let few = rows.filter(f);
    lemma_filtered(rows, f);
    let o = choose|o: Seq<usize>| #[trigger]
        order::is_order(o, restarts::named_ages(few)) && out == order::picked(few, o);
    let keys = restarts::named_ages(few);
    lemma_picked_all(few, o, keys);
    assert forall|row: (String, ServiceRestart)| #[trigger]
        out.contains(row) <==> rows.contains(row) && since_ms <= row.1.at_ms && row.1.at_ms
            <= until_ms && (service_id is None || service_id == Some(row.1.service_id)) by {
        if few.contains(row) {
            assert(f(row));
        }
        if rows.contains(row) && f(row) {
            assert(few.contains(row));
        }
    }
    assert forall|i: int, j: int| 0 <= i < j < out.len() implies (#[trigger] out[i]).1.at_ms < (
    #[trigger] out[j]).1.at_ms || (out[i].1.at_ms == out[j].1.at_ms && out[i].1.restart_id
        <= out[j].1.restart_id) by {
        assert(order::in_turn(keys, o[i], o[j]));
        assert(o[i] < keys.len() && o[j] < keys.len());
    }
}

/// The samples of a span of time: those within it, its ends among them, of
/// the device that was asked for or of all, in order of time. None is lost.
pub proof fn lemma_samples_of_a_span_listed(
    out: Seq<DeviceSample>,
    samples: Seq<DeviceSample>,
    device: Option<&str>,
    since_ms: i64,
    until_ms: i64,
)
    requires
        devices::by_time(out, devices::asked_samples(samples, device, since_ms, until_ms)),
    ensures
        forall|s: DeviceSample| #[trigger]
            out.contains(s) <==> samples.contains(s) && since_ms <= s.timestamp_ms && s.timestamp_ms
                <= until_ms && (device matches Some(d) ==> s.device@ == d@),
        forall|i: int, j: int|
            0 <= i < j < out.len() ==> (#[trigger] out[i]).timestamp_ms <= (
            #[trigger] out[j]).timestamp_ms,
{
    let f = |s: DeviceSample| devices::asked(s, device, since_ms, until_ms);
    let few = samples.filter(f);
    lemma_filtered(samples, f);
    let o = choose|o: Seq<usize>| #[trigger]
        order::is_order(o, devices::times(few)) && out == order::picked(few, o);
    let keys = devices::times(few);
    lemma_picked_all(few, o, keys);
    assert forall|s: DeviceSample| #[trigger]
        out.contains(s) <==> samples.contains(s) && since_ms <= s.timestamp_ms && s.timestamp_ms
            <= until_ms && (device matches Some(d) ==> s.device@ == d@) by {
        if few.contains(s) {
            assert(f(s));
        }
        if samples.contains(s) && f(s) {
            assert(few.contains(s));
        }
    }
    assert forall|i: int, j: int| 0 <= i < j < out.len() implies (#[trigger] out[i]).timestamp_ms
        <= (#[trigger] out[j]).timestamp_ms by {
        assert(order::in_turn(keys, o[i], o[j]));
        assert(o[i] < keys.len() && o[j] < keys.len());
    }
}

/// Pruning keeps every sample from the cutoff on and no older one.
pub proof fn lemma_pruned_by_age(samples: Seq<DeviceSample>, cutoff_ms: i64, s: DeviceSample)
    ensures
        devices::kept_samples(samples, cutoff_ms).contains(s) <==> samples.contains(s)
            && s.timestamp_ms >= cutoff_ms,
{
    let f = |s: DeviceSample| !devices::expired(s, cutoff_ms);
    lemma_filtered(samples, f);
    let few = samples.filter(f);
    if few.contains(s) {
        assert(f(s));
    }
    if samples.contains(s) && f(s) {
        assert(few.contains(s));
    }
}

/// Launch intents are listed in order of their numbers, none lost and none
/// made up: for an owner those that carry its identifier, and for a service
/// those of the service.
pub proof fn lemma_intents_listed(
    out: Seq<ContainerLaunchIntent>,
    rows: Seq<ContainerLaunchIntent>,
    owner: Seq<char>,
    service_id: i64,
    i: ContainerLaunchIntent,
)
    ensures
        container::in_order_of_number(out, container::of_owner(rows, owner)) ==> (out.contains(i)
            <==> rows.contains(i) && i.owner_uuid@ == owner),
        container::in_order_of_number(out, container::of_service(rows, service_id)) ==> (
        out.contains(i) <==> rows.contains(i) && i.service_id == service_id),
        forall|few: Seq<ContainerLaunchIntent>| #[trigger]
            container::in_order_of_number(out, few) ==> forall|a: int, b: int|
                0 <= a < b < out.len() ==> (#[trigger] out[a]).intent_id <= (
                #[trigger] out[b]).intent_id,
{
    let f = container::owned_by(owner);
    let g = |i: ContainerLaunchIntent| i.service_id == service_id;
    lemma_filtered(rows, f);
    lemma_filtered(rows, g);
    assert forall|few: Seq<ContainerLaunchIntent>| #[trigger]
        container::in_order_of_number(out, few) implies (out.contains(i) <==> few.contains(i))
        && forall|a: int, b: int|
        0 <= a < b < out.len() ==> (#[trigger] out[a]).intent_id <= (
        #[trigger] out[b]).intent_id by {
        let o = choose|o: Seq<usize>| #[trigger]
            order::is_order(o, container::numbers(few)) && out == order::picked(few, o);
        let keys = container::numbers(few);
        lemma_picked_all(few, o, keys);
        assert forall|a: int, b: int| 0 <= a < b < out.len() implies (#[trigger] out[a]).intent_id
            <= (#[trigger] out[b]).intent_id by {
            assert(order::in_turn(keys, o[a], o[b]));
            assert(o[a] < keys.len() && o[b] < keys.len());
        }
    }
    let own = rows.filter(f);
    let theirs = rows.filter(g);
    if own.contains(i) {
        assert(f(i));
    }
    if rows.contains(i) && f(i) {
        assert(own.contains(i));
    }
    if theirs.contains(i) {
        assert(g(i));
    }
    if rows.contains(i) && g(i) {
        assert(theirs.contains(i));
    }
}

/// A count that was read back is the number itself, but never less than
/// nothing.
pub proof fn lemma_count_read_back(n: Option<i64>)
    ensures
        n is None ==> models::counted(n) == 0,
        n matches Some(x) ==> (x >= 0 ==> models::counted(n) == x) && (x < 0 ==> models::counted(n)
            == 0),
{
}

/// A trigger that is not recorded has never fired.
pub proof fn lemma_unrecorded_trigger_never_fired(counts: Map<Seq<char>, i64>, trigger: Seq<char>)
    ensures
        counts.contains_key(trigger) ==> restarts::fired(counts, trigger) == counts[trigger],
        !counts.contains_key(trigger) ==> restarts::fired(counts, trigger) == 0,
{
}

/// What was drafted is not answered only where a sum goes beyond what can be
/// kept.
pub proof fn lemma_only_large_sums_unanswered(
    metrics: Seq<RequestMetric>,
    service_id: i64,
    run_id: i64,
    since_ms: i64,
)
    requires
        restarts::is_acceptance(None, metrics, service_id, run_id, since_ms),
    ensures
        !(i64::MIN <= restarts::window_drafted(metrics, service_id, run_id, since_ms) <= i64::MAX)
            || !(i64::MIN <= restarts::window_accepted(metrics, service_id, run_id, since_ms)
            <= i64::MAX) || !(i64::MIN <= restarts::run_accepted(metrics, service_id, run_id)
            <= i64::MAX),
{
}

/// A recorded owner that is a UUID stays; one that is none is refused, and
/// the operator reads which it was; where none is recorded, one is minted.
pub proof fn lemma_owner_told(
    stored: Option<Seq<char>>,
    answer: Result<Option<String>, ExpectedError>,
    settled: Result<Owner, ExpectedError>,
)
    requires
        container::owner_answer(stored, answer),
        container::owner_settled(stored, settled),
    ensures
        stored is None ==> (answer matches Ok(o) && o is None) && (settled matches Ok(o) && o.minted
            && container::is_uuid(o.uuid@)),
        stored matches Some(u) ==> (container::is_uuid(u) ==> (answer matches Ok(Some(o)) && o@ == u)
            && (settled matches Ok(o) && !o.minted && o.uuid@ == u)),
        stored matches Some(u) ==> (!container::is_uuid(u) ==> (answer matches Err(e)
            && e.text_view() == "<installation_metadata>"@ + ": "@ + ("stored owner_uuid `"@ + u
            + "` is not a valid UUID"@)) && (settled matches Err(e) && e.text_view()
            == "<installation_metadata>"@ + ": "@ + ("stored owner_uuid `"@ + u
            + "` is not a valid UUID"@))),
{
}

} // verus!
