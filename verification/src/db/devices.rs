//! Samples of the devices' memory.

use crate::db::models::DeviceSample;
use crate::db::order;
use crate::db::order::ascending_order;
use crate::text;
use vstd::prelude::*;

verus! {

/// The bytes in use of a device, as a sample records them.
pub fn used_bytes(total_bytes: i64, free_bytes: i64) -> (r: i64)
    requires
        i64::MIN <= total_bytes - free_bytes <= i64::MAX,
    ensures
        r == total_bytes - free_bytes,
{
    total_bytes - free_bytes
}

/// Whether a sample is of the asked device, or of any, and within the
/// window, whose ends belong to it.
pub open spec fn asked(
    s: DeviceSample,
    device: Option<&str>,
    since_ms: i64,
    until_ms: i64,
) -> bool {
    &&& since_ms <= s.timestamp_ms <= until_ms
    &&& match device {
        Some(d) => s.device@ == d@,
        None => true,
    }
}

/// The samples asked for, as they stand.
pub open spec fn asked_samples(
    samples: Seq<DeviceSample>,
    device: Option<&str>,
    since_ms: i64,
    until_ms: i64,
) -> Seq<DeviceSample> {
    samples.filter(|s: DeviceSample| asked(s, device, since_ms, until_ms))
}

/// Whether `out` holds the rows of `rows` in order of time, those of one
/// time as they stand in `rows`.
pub open spec fn by_time(out: Seq<DeviceSample>, rows: Seq<DeviceSample>) -> bool {
    exists|o: Seq<usize>| #[trigger]
        order::is_order(o, times(rows)) && out == order::picked(rows, o)
}

/// The times of samples.
pub open spec fn times(rows: Seq<DeviceSample>) -> Seq<(i64, i64)> {
    rows.map_values(|s: DeviceSample| (s.timestamp_ms, 0i64))
}

/// The samples of a window of time, of one device or of all, in order of
/// time.
pub fn query_device_samples(
    samples: &[DeviceSample],
    device: Option<&str>,
    since_ms: i64,
    until_ms: i64,
) -> (r: Vec<DeviceSample>)
    ensures
        by_time(r@, asked_samples(samples@, device, since_ms, until_ms)),
{
    let mut rows: Vec<DeviceSample> = Vec::new();
    let mut keys: Vec<(i64, i64)> = Vec::new();
    let ghost wanted = |s: DeviceSample| asked(s, device, since_ms, until_ms);
    assert(samples@.take(0).filter(wanted) =~= Seq::empty()) by {
        reveal(Seq::filter);
    }
    for i in 0..samples.len()
        invariant
            wanted == (|s: DeviceSample| asked(s, device, since_ms, until_ms)),
            rows@ == samples@.take(i as int).filter(wanted),
            keys@ == times(rows@),
    {
        let s: &DeviceSample = &samples[i];
        let of_device: bool = match device {
            Some(d) => text::same(s.device.as_str(), d),
            None => true,
        };
        proof {
            let upto = samples@.take(i + 1);
            assert(upto.drop_last() =~= samples@.take(i as int));
            assert(upto.last() == *s);
            reveal(Seq::filter);
        }
        let ghost before = rows@;
        if since_ms <= s.timestamp_ms && s.timestamp_ms <= until_ms && of_device {
            rows.push(s.clone());
            keys.push((s.timestamp_ms, 0));
            assert(keys@ =~= times(rows@));
        }
    }
    assert(samples@.take(samples@.len() as int) =~= samples@);
    let order: Vec<usize> = ascending_order(keys.as_slice());
    let mut r: Vec<DeviceSample> = Vec::new();
    for i in 0..order.len()
        invariant
            order::is_order(order@, keys@),
            keys@.len() == rows@.len(),
            r@ == order::picked(rows@, order@.take(i as int)),
    {
        r.push(rows[order[i]].clone());
        assert(r@ =~= order::picked(rows@, order@.take(i + 1)));
    }
    assert(order@.take(order@.len() as int) =~= order@);
    assert(order::is_order(order@, times(rows@)));
    r
}

/// Whether a sample is older than `cutoff_ms`.
pub open spec fn expired(s: DeviceSample, cutoff_ms: i64) -> bool {
    s.timestamp_ms < cutoff_ms
}

/// The samples that stay once those older than `cutoff_ms` are dropped.
pub open spec fn kept_samples(samples: Seq<DeviceSample>, cutoff_ms: i64) -> Seq<DeviceSample> {
    samples.filter(|s: DeviceSample| !expired(s, cutoff_ms))
}

/// Drops the samples older than `cutoff_ms`, and tells which they were.
pub fn prune_device_samples(samples: &mut Vec<DeviceSample>, cutoff_ms: i64) -> (r: Vec<i64>)
    ensures
        final(samples)@ == kept_samples(old(samples)@, cutoff_ms),
        r@ == old(samples)@.filter(|s: DeviceSample| expired(s, cutoff_ms)).map_values(
            |s: DeviceSample| s.sample_id,
        ),
{
    let ghost all = samples@;
    let ghost old_ones = |s: DeviceSample| expired(s, cutoff_ms);
    let ghost young = |s: DeviceSample| !expired(s, cutoff_ms);
    let ghost number = |s: DeviceSample| s.sample_id;
    let mut kept: Vec<DeviceSample> = Vec::new();
    let mut r: Vec<i64> = Vec::new();
    proof {
        reveal(Seq::filter);
        assert(all.take(0).filter(young) =~= Seq::empty());
        assert(all.take(0).filter(old_ones).map_values(number) =~= Seq::empty());
    }
    for i in 0..samples.len()
        invariant
            samples@ == all,
            old_ones == (|s: DeviceSample| expired(s, cutoff_ms)),
            young == (|s: DeviceSample| !expired(s, cutoff_ms)),
            number == (|s: DeviceSample| s.sample_id),
            kept@ == all.take(i as int).filter(young),
            r@ == all.take(i as int).filter(old_ones).map_values(number),
    {
        let s: &DeviceSample = &samples[i];
        proof {
            let upto = all.take(i + 1);
            assert(upto.drop_last() =~= all.take(i as int));
            assert(upto.last() == *s);
            reveal(Seq::filter);
        }
        if s.timestamp_ms < cutoff_ms {
            r.push(s.sample_id);
            proof {
                let before = all.take(i as int).filter(old_ones);
                assert(before.push(*s).map_values(number) =~= before.map_values(number).push(
                    s.sample_id,
                ));
            }
        } else {
            kept.push(s.clone());
        }
    }
    assert(all.take(all.len() as int) =~= all);
    *samples = kept;
    r
}

/// Dropping what is older than `cutoff_ms` costs no window that begins then
/// or later a sample.
pub proof fn lemma_prune_spares_later_windows(
    samples: Seq<DeviceSample>,
    cutoff_ms: i64,
    device: Option<&str>,
    since_ms: i64,
    until_ms: i64,
)
    requires
        since_ms >= cutoff_ms,
    ensures
        asked_samples(kept_samples(samples, cutoff_ms), device, since_ms, until_ms)
            == asked_samples(samples, device, since_ms, until_ms),
    decreases samples.len(),
{
    reveal(Seq::filter);
    let young = |s: DeviceSample| !expired(s, cutoff_ms);
    let wanted = |s: DeviceSample| asked(s, device, since_ms, until_ms);
    if samples.len() > 0 {
        let front = samples.drop_last();
        lemma_prune_spares_later_windows(front, cutoff_ms, device, since_ms, until_ms);
        let kept = front.filter(young);
        if young(samples.last()) {
            assert(kept.push(samples.last()).drop_last() =~= kept);
        }
    }
}

} // verus!
