//! Restarts that watchdogs asked for, and what the watchdogs look at.

use crate::db::models;
use crate::db::models::{count_of, RequestMetric, ServiceRestart};
use crate::db::order;
use crate::db::order::ascending_order;
use crate::text_map::TextMap;
use vstd::prelude::*;

verus! {

/// How many restarts of one service are remembered.
pub const SERVICE_RESTART_CAP: u32 = 50;

/// How many rows `f` holds of.
pub open spec fn tally<T>(rows: Seq<T>, f: spec_fn(T) -> bool) -> nat
    decreases rows.len(),
{
    if rows.len() == 0 {
        0
    } else {
        tally(rows.drop_last(), f) + if f(rows.last()) {
            1nat
        } else {
            0
        }
    }
}

/// The sum of `f` over all rows.
pub open spec fn total<T>(rows: Seq<T>, f: spec_fn(T) -> int) -> int
    decreases rows.len(),
{
    if rows.len() == 0 {
        0
    } else {
        total(rows.drop_last(), f) + f(rows.last())
    }
}

/// Whether a request was served by the run `run_id` of a service.
pub open spec fn of_run(m: RequestMetric, service_id: i64, run_id: i64) -> bool {
    m.service_id == service_id && m.run_id == Some(run_id)
}

/// Whether a request of the run began no earlier than `since_ms`.
pub open spec fn in_window(
    m: RequestMetric,
    service_id: i64,
    run_id: i64,
    since_ms: i64,
) -> bool {
    of_run(m, service_id, run_id) && m.timestamp_ms >= since_ms
}

/// Whether `r` counts the requests of one run that began no earlier than
/// `since_ms`, and those of them with a status of at least
/// `min_error_status`.
pub open spec fn is_error_rate(
    r: (u64, u64),
    metrics: Seq<RequestMetric>,
    service_id: i64,
    run_id: i64,
    since_ms: i64,
    min_error_status: u16,
) -> bool {
    &&& r.0 == tally(metrics, |m: RequestMetric| in_window(m, service_id, run_id, since_ms))
    &&& r.1 == tally(
        metrics,
        |m: RequestMetric|
            in_window(m, service_id, run_id, since_ms) && m.status_code >= min_error_status,
    )
}

/// How many requests of one run began no earlier than `since_ms`, and how
/// many of those have a status of at least `min_error_status`.
pub fn error_rate_since(
    metrics: &[RequestMetric],
    service_id: i64,
    run_id: i64,
    since_ms: i64,
    min_error_status: u16,
) -> (r: (u64, u64))
    ensures
        is_error_rate(r, metrics@, service_id, run_id, since_ms, min_error_status),
{
    let ghost requests = |m: RequestMetric| in_window(m, service_id, run_id, since_ms);
    let ghost failures = |m: RequestMetric|
        in_window(m, service_id, run_id, since_ms) && m.status_code >= min_error_status;
    let mut all: u64 = 0;
    let mut errors: u64 = 0;
    for i in 0..metrics.len()
        invariant
            requests == (|m: RequestMetric| in_window(m, service_id, run_id, since_ms)),
            failures == (|m: RequestMetric|
                in_window(m, service_id, run_id, since_ms) && m.status_code >= min_error_status),
            all == tally(metrics@.take(i as int), requests),
            errors == tally(metrics@.take(i as int), failures),
            all <= i,
            errors <= i,
    {
        let m: &RequestMetric = &metrics[i];
        proof {
            assert(metrics@.take(i + 1).drop_last() =~= metrics@.take(i as int));
            assert(metrics@.take(i + 1).last() == *m);
        }
        let of_this_run: bool = match m.run_id {
            Some(id) => id == run_id,
            None => false,
        };
        if m.service_id == service_id && of_this_run && m.timestamp_ms >= since_ms {
            all += 1;
            if m.status_code >= min_error_status as i64 {
                errors += 1;
            }
        }
    }
    assert(metrics@.take(metrics@.len() as int) =~= metrics@);
    (all, errors)
}

/// What became of drafted tokens: in a window, and in the whole run.
#[derive(Debug, Clone, Copy, PartialEq, Eq, Structural)]
pub struct SpecAcceptance {
    /// Requests of the window that drafted.
    pub window_drafting: u64,
    /// Tokens they drafted.
    pub window_drafted: u64,
    /// Drafted tokens that were accepted.
    pub window_accepted: u64,
    /// Drafted tokens that were accepted in the whole run.
    pub run_accepted: u64,
}

/// Whether a request of the run drafted tokens.
pub open spec fn drafted(m: RequestMetric, service_id: i64, run_id: i64) -> bool {
    of_run(m, service_id, run_id) && (m.draft_tokens matches Some(n) && n > 0)
}

/// When a request ended.
pub open spec fn end_ms(m: RequestMetric) -> int {
    m.timestamp_ms + (match m.duration_ms {
        Some(d) => d as int,
        None => 0,
    })
}

/// How many drafted tokens of a request were accepted.
pub open spec fn accepted(m: RequestMetric) -> int {
    match m.draft_tokens_accepted {
        Some(n) => n as int,
        None => 0,
    }
}

/// The draft tokens of the window: what the requests drafted that ended no
/// earlier than `since_ms`.
pub open spec fn window_drafted(
    metrics: Seq<RequestMetric>,
    service_id: i64,
    run_id: i64,
    since_ms: i64,
) -> int {
    total(
        metrics,
        |m: RequestMetric|
            if drafted(m, service_id, run_id) && end_ms(m) >= since_ms {
                m.draft_tokens->0 as int
            } else {
                0
            },
    )
}

/// The accepted tokens of the window.
pub open spec fn window_accepted(
    metrics: Seq<RequestMetric>,
    service_id: i64,
    run_id: i64,
    since_ms: i64,
) -> int {
    total(
        metrics,
        |m: RequestMetric|
            if drafted(m, service_id, run_id) && end_ms(m) >= since_ms {
                accepted(m)
            } else {
                0
            },
    )
}

/// The accepted tokens of the whole run.
pub open spec fn run_accepted(
    metrics: Seq<RequestMetric>,
    service_id: i64,
    run_id: i64,
) -> int {
    total(
        metrics,
        |m: RequestMetric|
            if drafted(m, service_id, run_id) {
                accepted(m)
            } else {
                0
            },
    )
}

/// Whether a sum can be kept.
pub open spec fn fits(n: int) -> bool {
    i64::MIN <= n <= i64::MAX
}

/// `n`, or zero where it is less.
pub open spec fn at_least_zero(n: int) -> int {
    if n > 0 {
        n
    } else {
        0
    }
}

fn narrowed(n: i128) -> (r: Option<u64>)
    ensures
        match r {
            Some(x) => fits(n as int) && x == at_least_zero(n as int),
            None => !fits(n as int),
        },
{
    if n < i64::MIN as i128 || n > i64::MAX as i128 {
        None
    } else if n > 0 {
        Some(n as u64)
    } else {
        Some(0)
    }
}

/// Whether `r` is what became of the tokens that one run drafted.
pub open spec fn is_acceptance(
    r: Option<SpecAcceptance>,
    metrics: Seq<RequestMetric>,
    service_id: i64,
    run_id: i64,
    since_ms: i64,
) -> bool {
    let in_drafted = window_drafted(metrics, service_id, run_id, since_ms);
    let in_accepted = window_accepted(metrics, service_id, run_id, since_ms);
    let all_accepted = run_accepted(metrics, service_id, run_id);
    match r {
        Some(a) => {
            &&& a.window_drafting == tally(
                metrics,
                |m: RequestMetric| drafted(m, service_id, run_id) && end_ms(m) >= since_ms,
            )
            &&& fits(in_drafted) && a.window_drafted == at_least_zero(in_drafted)
            &&& fits(in_accepted) && a.window_accepted == at_least_zero(in_accepted)
            &&& fits(all_accepted) && a.run_accepted == at_least_zero(all_accepted)
        },
        None => !fits(in_drafted) || !fits(in_accepted) || !fits(all_accepted),
    }
}

/// What became of the tokens that one run drafted. The window is of the
/// requests that ended no earlier than `since_ms`, whenever they began. A
/// sum too large to be kept is not answered.
pub fn spec_acceptance_since(
    metrics: &[RequestMetric],
    service_id: i64,
    run_id: i64,
    since_ms: i64,
) -> (r: Option<SpecAcceptance>)
    ensures
        is_acceptance(r, metrics@, service_id, run_id, since_ms),
{
    let ghost drafting = |m: RequestMetric|
        drafted(m, service_id, run_id) && end_ms(m) >= since_ms;
    let mut count: u64 = 0;
    let mut in_drafted: i128 = 0;
    let mut in_accepted: i128 = 0;
    let mut all_accepted: i128 = 0;
    for i in 0..metrics.len()
        invariant
            drafting == (|m: RequestMetric|
                drafted(m, service_id, run_id) && end_ms(m) >= since_ms),
            count == tally(metrics@.take(i as int), drafting),
            count <= i,
            in_drafted == window_drafted(metrics@.take(i as int), service_id, run_id, since_ms),
            in_accepted == window_accepted(metrics@.take(i as int), service_id, run_id, since_ms),
            all_accepted == run_accepted(metrics@.take(i as int), service_id, run_id),
            i * i64::MIN <= in_drafted <= i * i64::MAX,
            i * i64::MIN <= in_accepted <= i * i64::MAX,
            i * i64::MIN <= all_accepted <= i * i64::MAX,
    {
        let m: &RequestMetric = &metrics[i];
        proof {
            assert(metrics@.take(i + 1).drop_last() =~= metrics@.take(i as int));
            assert(metrics@.take(i + 1).last() == *m);
            assert((i + 1) * i64::MIN == i * i64::MIN + i64::MIN) by (nonlinear_arith);
            assert((i + 1) * i64::MAX == i * i64::MAX + i64::MAX) by (nonlinear_arith);
            assert(i * i64::MAX <= 0xffff_ffff_ffff_ffff * i64::MAX) by (nonlinear_arith)
                requires
                    i <= 0xffff_ffff_ffff_ffff,
            ;
            assert(i * i64::MIN >= 0xffff_ffff_ffff_ffff * i64::MIN) by (nonlinear_arith)
                requires
                    i <= 0xffff_ffff_ffff_ffff,
            ;
        }
        let of_this_run: bool = match m.run_id {
            Some(id) => id == run_id,
            None => false,
        };
        let tokens: i64 = match m.draft_tokens {
            Some(n) => n,
            None => 0,
        };
        if m.service_id == service_id && of_this_run && tokens > 0 {
            let took: i64 = match m.draft_tokens_accepted {
                Some(n) => n,
                None => 0,
            };
            let lasted: i64 = match m.duration_ms {
                Some(d) => d,
                None => 0,
            };
            let end: i128 = m.timestamp_ms as i128 + lasted as i128;
            if end >= since_ms as i128 {
                count += 1;
                in_drafted = in_drafted + tokens as i128;
                in_accepted = in_accepted + took as i128;
            }
            all_accepted = all_accepted + took as i128;
        }
    }
    assert(metrics@.take(metrics@.len() as int) =~= metrics@);
    match (narrowed(in_drafted), narrowed(in_accepted), narrowed(all_accepted)) {
        (Some(window_drafted), Some(window_accepted), Some(run_accepted)) => Some(
            SpecAcceptance {
                window_drafting: count,
                window_drafted,
                window_accepted,
                run_accepted,
            },
        ),
        _ => None,
    }
}

/// What restarts are ordered by: their time, and their number where they
/// share one.
pub open spec fn age(r: ServiceRestart) -> (i64, i64) {
    (r.at_ms, r.restart_id)
}

/// Whether `x` is a later restart of the same service as `r`.
pub open spec fn is_newer(x: ServiceRestart, r: ServiceRestart) -> bool {
    x.service_id == r.service_id && order::key_before(age(r), age(x))
}

/// Whether so many later restarts of its service are remembered that `r` is
/// not.
pub open spec fn outlived(history: Seq<ServiceRestart>, r: ServiceRestart) -> bool {
    tally(history, |x: ServiceRestart| is_newer(x, r)) >= SERVICE_RESTART_CAP
}

/// Whether a restart of `service_id` is forgotten.
pub open spec fn evicted(
    history: Seq<ServiceRestart>,
    service_id: i64,
    r: ServiceRestart,
) -> bool {
    r.service_id == service_id && outlived(history, r)
}

/// What is remembered of `history` once the restarts of `service_id` are cut
/// to the newest.
pub open spec fn remembered(history: Seq<ServiceRestart>, service_id: i64) -> Seq<ServiceRestart> {
    history.filter(|r: ServiceRestart| !evicted(history, service_id, r))
}

fn is_outlived(history: &Vec<ServiceRestart>, r: &ServiceRestart) -> (b: bool)
    ensures
        b == outlived(history@, *r),
{
    let ghost newer = |x: ServiceRestart| is_newer(x, *r);
    let mut count: usize = 0;
    for i in 0..history.len()
        invariant
            newer == (|x: ServiceRestart| is_newer(x, *r)),
            count == tally(history@.take(i as int), newer),
            count <= i,
    {
        let x: &ServiceRestart = &history[i];
        proof {
            assert(history@.take(i + 1).drop_last() =~= history@.take(i as int));
            assert(history@.take(i + 1).last() == *x);
        }
        if x.service_id == r.service_id && (x.at_ms > r.at_ms || (x.at_ms == r.at_ms
            && x.restart_id > r.restart_id)) {
            count += 1;
        }
    }
    assert(history@.take(history@.len() as int) =~= history@);
    count >= SERVICE_RESTART_CAP as usize
}

/// How often a trigger has fired, where `count` is recorded.
pub open spec fn fired(counts: Map<Seq<char>, i64>, trigger: Seq<char>) -> int {
    if counts.contains_key(trigger) {
        counts[trigger] as int
    } else {
        0
    }
}

/// The restarts of one service that are remembered, and how often each
/// trigger has fired for it.
#[derive(Debug)]
pub struct RestartBook {
    pub history: Vec<ServiceRestart>,
    pub counts: TextMap<i64>,
}

/// What is to be written down of one more restart.
#[derive(Debug)]
pub struct Recorded {
    /// How often its trigger has fired now.
    pub count: i64,
    /// The restarts that are forgotten.
    pub evicted: Vec<i64>,
}

/// The numbers of the restarts of `service_id` that are forgotten.
pub open spec fn evicted_ids(history: Seq<ServiceRestart>, service_id: i64) -> Seq<i64> {
    history.filter(|r: ServiceRestart| evicted(history, service_id, r)).map_values(
        |r: ServiceRestart| r.restart_id,
    )
}

impl RestartBook {
    /// Remembers one more restart, and counts it. The restarts of its
    /// service are cut to the newest; the counts never are.
    pub fn record(&mut self, row: ServiceRestart) -> (r: Recorded)
        requires
            fired(old(self).counts@, row.trigger@) < i64::MAX,
        ensures
            final(self).history@ == remembered(old(self).history@.push(row), row.service_id),
            r.evicted@ == evicted_ids(old(self).history@.push(row), row.service_id),
            r.count == fired(old(self).counts@, row.trigger@) + 1,
            final(self).counts@ == old(self).counts@.insert(row.trigger@, r.count),
    {
        let known: i64 = match self.counts.get(row.trigger.as_str()) {
            Some(n) => *n,
            None => 0,
        };
        let count: i64 = known + 1;
        let service_id: i64 = row.service_id;
        let _ = self.counts.insert(row.trigger.clone(), count);
        self.history.push(row);
        let ghost all = self.history@;
        let mut kept: Vec<ServiceRestart> = Vec::new();
        let mut gone: Vec<i64> = Vec::new();
        let ghost stays = |x: ServiceRestart| !evicted(all, service_id, x);
        let ghost goes = |x: ServiceRestart| evicted(all, service_id, x);
        let ghost number = |x: ServiceRestart| x.restart_id;
        proof {
            reveal(Seq::filter);
            assert(all.take(0).filter(stays) =~= Seq::empty());
            assert(all.take(0).filter(goes) =~= Seq::empty());
            assert(gone@ =~= all.take(0).filter(goes).map_values(number));
        }
        let n: usize = self.history.len();
        for i in 0..n
            invariant
                n == all.len(),
                self.history@ == all,
                stays == (|x: ServiceRestart| !evicted(all, service_id, x)),
                goes == (|x: ServiceRestart| evicted(all, service_id, x)),
                number == (|x: ServiceRestart| x.restart_id),
                kept@ == all.take(i as int).filter(stays),
                gone@ == all.take(i as int).filter(goes).map_values(number),
                self.counts@ == old(self).counts@.insert(row.trigger@, count),
        {
            let x: &ServiceRestart = &self.history[i];
            let ghost before = all.take(i as int);
            proof {
                assert(all.take(i + 1).drop_last() =~= before);
                assert(all.take(i + 1).last() == *x);
                reveal(Seq::filter);
            }
            if x.service_id == service_id && is_outlived(&self.history, x) {
                gone.push(x.restart_id);
                assert(gone@ =~= all.take(i + 1).filter(goes).map_values(number));
            } else {
                kept.push(x.clone());
            }
        }
        assert(all.take(all.len() as int) =~= all);
        self.history = kept;
        Recorded { count, evicted: gone }
    }

    /// How often each trigger has fired.
    pub fn count_service_restarts_by_trigger(&self) -> (r: Vec<(String, u64)>)
        ensures
            r@.len() == self.counts.pairs().len(),
            forall|i: int|
                0 <= i < r@.len() ==> (#[trigger] r@[i]).0@ == self.counts.pairs()[i].0 && r@[i].1
                    == models::counted(Some(self.counts.pairs()[i].1)),
    {
        let mut r: Vec<(String, u64)> = Vec::new();
        let n: usize = self.counts.len();
        for i in 0..n
            invariant
                n == self.counts.pairs().len(),
                r@.len() == i,
                forall|j: int|
                    0 <= j < i ==> (#[trigger] r@[j]).0@ == self.counts.pairs()[j].0 && r@[j].1
                        == models::counted(Some(self.counts.pairs()[j].1)),
        {
            r.push(
                (
                    self.counts.key_at(i).to_owned(),
                    count_of(Some(*self.counts.value_at(i))),
                ),
            );
        }
        r
    }

    /// The newest restarts of a service, at most `limit`, newest first.
    pub fn recent_service_restarts(&self, service_id: i64, limit: u32) -> (r: Vec<ServiceRestart>)
        ensures
            newest_first(r@, restarts_of(self.history@, service_id), limit as nat),
    {
        let ghost own = |x: ServiceRestart| x.service_id == service_id;
        let mut rows: Vec<ServiceRestart> = Vec::new();
        let mut keys: Vec<(i64, i64)> = Vec::new();
        proof {
            reveal(Seq::filter);
            assert(self.history@.take(0).filter(own) =~= Seq::empty());
        }
        for i in 0..self.history.len()
            invariant
                own == (|x: ServiceRestart| x.service_id == service_id),
                rows@ == self.history@.take(i as int).filter(own),
                keys@ == ages(rows@),
        {
            let x: &ServiceRestart = &self.history[i];
            proof {
                assert(self.history@.take(i + 1).drop_last() =~= self.history@.take(i as int));
                assert(self.history@.take(i + 1).last() == *x);
                reveal(Seq::filter);
            }
            if x.service_id == service_id {
                rows.push(x.clone());
                keys.push((x.at_ms, x.restart_id));
                assert(keys@ =~= ages(rows@));
            }
        }
        assert(self.history@.take(self.history@.len() as int) =~= self.history@);
        let order: Vec<usize> = ascending_order(keys.as_slice());
        let mut r: Vec<ServiceRestart> = Vec::new();
        let n: usize = order.len();
        let ghost sorted = order::picked(rows@, order@).reverse();
        let mut left: usize = n;
        while left > 0 && r.len() < limit as usize
            invariant
                n == order@.len(),
                n == rows@.len(),
                order::is_order(order@, keys@),
                keys@.len() == rows@.len(),
                sorted == order::picked(rows@, order@).reverse(),
                left + r@.len() == n,
                r@.len() <= limit,
                r@ == sorted.take(r@.len() as int),
            decreases left,
        {
            left -= 1;
            r.push(rows[order[left]].clone());
            assert(r@ =~= sorted.take(r@.len() as int));
        }
        proof {
            assert(order::is_order(order@, ages(rows@)));
        }
        r
    }
}

/// What restarts are ordered by.
pub open spec fn ages(rows: Seq<ServiceRestart>) -> Seq<(i64, i64)> {
    rows.map_values(|r: ServiceRestart| age(r))
}

/// The restarts of one service, as they stand.
pub open spec fn restarts_of(history: Seq<ServiceRestart>, service_id: i64) -> Seq<ServiceRestart> {
    history.filter(|r: ServiceRestart| r.service_id == service_id)
}

/// Whether `out` holds the newest of `rows`, at most `limit`, newest first.
pub open spec fn newest_first(
    out: Seq<ServiceRestart>,
    rows: Seq<ServiceRestart>,
    limit: nat,
) -> bool {
    exists|o: Seq<usize>| #[trigger]
        order::is_order(o, ages(rows)) && out == order::picked(rows, o).reverse().take(
            if limit < rows.len() {
                limit as int
            } else {
                rows.len() as int
            },
        )
}

/// Whether a restart is of the asked service, or of any, and within the
/// window, whose ends belong to it.
pub open spec fn asked(
    row: (String, ServiceRestart),
    service_id: Option<i64>,
    since_ms: i64,
    until_ms: i64,
) -> bool {
    &&& since_ms <= row.1.at_ms <= until_ms
    &&& match service_id {
        Some(id) => row.1.service_id == id,
        None => true,
    }
}

/// What named restarts are ordered by.
pub open spec fn named_ages(rows: Seq<(String, ServiceRestart)>) -> Seq<(i64, i64)> {
    rows.map_values(|r: (String, ServiceRestart)| age(r.1))
}

/// Whether `out` holds `rows`, oldest first.
pub open spec fn oldest_first(
    out: Seq<(String, ServiceRestart)>,
    rows: Seq<(String, ServiceRestart)>,
) -> bool {
    exists|o: Seq<usize>| #[trigger]
        order::is_order(o, named_ages(rows)) && out == order::picked(rows, o)
}

/// The restarts of a window of time, of one service or of all, each with the
/// name of its service, oldest first.
pub fn query_service_restarts(
    rows: &[(String, ServiceRestart)],
    service_id: Option<i64>,
    since_ms: i64,
    until_ms: i64,
) -> (r: Vec<(String, ServiceRestart)>)
    ensures
        oldest_first(
            r@,
            rows@.filter(
                |row: (String, ServiceRestart)| asked(row, service_id, since_ms, until_ms),
            ),
        ),
{
    let ghost wanted = |row: (String, ServiceRestart)|
        asked(row, service_id, since_ms, until_ms);
    let mut found: Vec<(String, ServiceRestart)> = Vec::new();
    let mut keys: Vec<(i64, i64)> = Vec::new();
    proof {
        reveal(Seq::filter);
        assert(rows@.take(0).filter(wanted) =~= Seq::empty());
    }
    for i in 0..rows.len()
        invariant
            wanted == (|row: (String, ServiceRestart)|
                asked(row, service_id, since_ms, until_ms)),
            found@ == rows@.take(i as int).filter(wanted),
            keys@ == named_ages(found@),
    {
        let x: &ServiceRestart = &rows[i].1;
        proof {
            assert(rows@.take(i + 1).drop_last() =~= rows@.take(i as int));
            assert(rows@.take(i + 1).last() == rows@[i as int]);
            reveal(Seq::filter);
        }
        let of_service: bool = match service_id {
            Some(id) => x.service_id == id,
            None => true,
        };
        if since_ms <= x.at_ms && x.at_ms <= until_ms && of_service {
            found.push((rows[i].0.clone(), x.clone()));
            keys.push((x.at_ms, x.restart_id));
            assert(keys@ =~= named_ages(found@));
        }
    }
    assert(rows@.take(rows@.len() as int) =~= rows@);
    let order: Vec<usize> = ascending_order(keys.as_slice());
    let mut r: Vec<(String, ServiceRestart)> = Vec::new();
    for i in 0..order.len()
        invariant
            order::is_order(order@, keys@),
            keys@.len() == found@.len(),
            r@ == order::picked(found@, order@.take(i as int)),
    {
        let row: &(String, ServiceRestart) = &found[order[i]];
        r.push((row.0.clone(), row.1.clone()));
        assert(r@ =~= order::picked(found@, order@.take(i + 1)));
    }
    assert(order@.take(order@.len() as int) =~= order@);
    assert(order::is_order(order@, named_ages(found@)));
    r
}

/// Counts never fall, whatever the history forgets: one more restart counts
/// for its own trigger and leaves all other counts as they are.
pub proof fn lemma_counts_never_fall(
    before: Map<Seq<char>, i64>,
    trigger: Seq<char>,
    count: i64,
    other: Seq<char>,
)
    requires
        count == fired(before, trigger) + 1,
    ensures
        fired(before.insert(trigger, count), other) >= fired(before, other),
        fired(before.insert(trigger, count), trigger) == fired(before, trigger) + 1,
        other != trigger ==> fired(before.insert(trigger, count), other) == fired(before, other),
{
}

proof fn lemma_tally_all_but_one<T>(
    rows: Seq<T>,
    f: spec_fn(T) -> bool,
    g: spec_fn(T) -> bool,
    k: int,
)
    requires
        forall|i: int| 0 <= i < rows.len() && i != k && f(#[trigger] rows[i]) ==> g(rows[i]),
    ensures
        tally(rows, g) + 1 >= tally(rows, f),
        !(0 <= k < rows.len()) ==> tally(rows, g) >= tally(rows, f),
    decreases rows.len(),
{
    if rows.len() > 0 {
        let front = rows.drop_last();
        assert forall|i: int| 0 <= i < front.len() && i != k && f(#[trigger] front[i]) implies g(
            front[i],
        ) by {
            assert(front[i] == rows[i]);
        }
        lemma_tally_all_but_one(front, f, g, k);
        assert(rows.last() == rows[rows.len() - 1]);
    }
}

/// Among rows there is one that no other is older than.
proof fn lemma_oldest(rows: Seq<ServiceRestart>, f: spec_fn(ServiceRestart) -> bool) -> (k: int)
    requires
        tally(rows, f) > 0,
    ensures
        0 <= k < rows.len(),
        f(rows[k]),
        forall|i: int|
            0 <= i < rows.len() && f(#[trigger] rows[i]) ==> !order::key_before(
                age(rows[i]),
                age(rows[k]),
            ),
    decreases rows.len(),
{
    let front = rows.drop_last();
    let last = rows.len() - 1;
    if tally(front, f) == 0 {
        assert forall|i: int| 0 <= i < front.len() implies !f(#[trigger] front[i]) by {
            lemma_none_tallied(front, f, i);
        }
        assert forall|i: int| 0 <= i < rows.len() && f(#[trigger] rows[i]) implies i == last by {
            if i < last {
                assert(front[i] == rows[i]);
            }
        }
        last
    } else {
        let k = lemma_oldest(front, f);
        assert(rows[k] == front[k]);
        let best = if f(rows[last]) && order::key_before(age(rows[last]), age(rows[k])) {
            last
        } else {
            k
        };
        assert forall|i: int| 0 <= i < rows.len() && f(#[trigger] rows[i]) implies
            !order::key_before(age(rows[i]), age(rows[best])) by {
            if i < last {
                assert(front[i] == rows[i]);
            }
        }
        best
    }
}

proof fn lemma_none_tallied<T>(rows: Seq<T>, f: spec_fn(T) -> bool, i: int)
    requires
        tally(rows, f) == 0,
        0 <= i < rows.len(),
    ensures
        !f(rows[i]),
    decreases rows.len(),
{
    if i < rows.len() - 1 {
        lemma_none_tallied(rows.drop_last(), f, i);
    }
}

/// However many restarts there were, no more than the cap of one service
/// are remembered.
pub proof fn lemma_history_bounded(history: Seq<ServiceRestart>, service_id: i64)
    requires
        forall|i: int, j: int|
            0 <= i < j < history.len() ==> (#[trigger] history[i]).restart_id != (
            #[trigger] history[j]).restart_id,
    ensures
        tally(
            history,
            |r: ServiceRestart|
                r.service_id == service_id && !evicted(history, service_id, r),
        ) <= SERVICE_RESTART_CAP,
{
    let stays = |r: ServiceRestart|
        r.service_id == service_id && !evicted(history, service_id, r);
    if tally(history, stays) > SERVICE_RESTART_CAP {
        let k = lemma_oldest(history, stays);
        let newer = |x: ServiceRestart| is_newer(x, history[k]);
        assert forall|i: int|
            0 <= i < history.len() && i != k && stays(#[trigger] history[i]) implies newer(
            history[i],
        ) by {
            assert(!order::key_before(age(history[i]), age(history[k])));
            assert(history[i].restart_id != history[k].restart_id);
        }
        lemma_tally_all_but_one(history, stays, newer, k);
        assert(outlived(history, history[k]));
        assert(stays(history[k]));
    }
}

} // verus!
