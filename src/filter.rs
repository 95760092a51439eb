//! The anomaly filter: which records stay in the report.
use vstd::prelude::*;
use crate::record::Record;
use crate::resources::Resources;
use crate::units::sat_sub;

verus! {

/// Whether the measured cpu exceeds the requested cpu; false where either
/// is unknown.
pub open spec fn over_requested(res: Resources) -> bool {
    res.usage.cpu is Some && res.requests.cpu is Some && res.usage.cpu->Some_0.0
        > res.requests.cpu->Some_0.0
}

/// Whether the slack below the request is to be judged: the check is on, a
/// threshold is set, and both cpu amounts are known.
pub open spec fn slack_judged(res: Resources, threshold: Option<u64>, no_check_higher: bool) -> bool {
    !no_check_higher && threshold is Some && res.usage.cpu is Some && res.requests.cpu is Some
}

/// A record stays when it consumes more cpu than requested, or when its
/// unused request exceeds the threshold, or when the data or the settings
/// for judging it are missing. It is dropped only when usage is within the
/// request and within the allowed slack.
pub open spec fn retained(res: Resources, threshold: Option<u64>, no_check_higher: bool) -> bool {
    if over_requested(res) {
        true
    } else if slack_judged(res, threshold, no_check_higher) {
        sat_sub(res.requests.cpu->Some_0.0, res.usage.cpu->Some_0.0) > threshold->Some_0
    } else {
        true
    }
}

/// The records of `s` that the filter retains, in order.
pub open spec fn retained_records(s: Seq<Record>, threshold: Option<u64>, no_check_higher: bool) -> Seq<Record>
    decreases s.len(),
{
    if s.len() == 0 {
        Seq::empty()
    } else {
        let prev = retained_records(s.drop_last(), threshold, no_check_higher);
        if retained(s.last().resources, threshold, no_check_higher) {
            prev.push(s.last())
        } else {
            prev
        }
    }
}

/// Decides whether a record with these resources stays in the report.
pub fn keep_record(resources: &Resources, threshold: Option<u64>, no_check_higher: bool) -> (r: bool)
    ensures
        r == retained(*resources, threshold, no_check_higher),
{
    if let (Some(usage), Some(requests)) = (resources.usage.cpu, resources.requests.cpu) {
        if usage.0 > requests.0 {
            return true;
        }
        if !no_check_higher {
            if let Some(threshold) = threshold {
                let diff = requests.saturating_sub(usage);
                return diff.0 > threshold;
            }
        }
    }
    true
}

/// The records that the filter retains, in their order.
pub fn filter_records(records: Vec<Record>, threshold: Option<u64>, no_check_higher: bool) -> (r: Vec<Record>)
    ensures
        r@ == retained_records(records@, threshold, no_check_higher),
{
    let mut out: Vec<Record> = Vec::new();
    let mut i: usize = 0;
    while i < records.len()
        invariant
            i <= records@.len(),
            out@ == retained_records(records@.subrange(0, i as int), threshold, no_check_higher),
        decreases records.len() - i,
    {
        proof {
            assert(records@.subrange(0, i + 1).drop_last() =~= records@.subrange(0, i as int));
        }
        if keep_record(&records[i].resources, threshold, no_check_higher) {
            out.push(records[i].clone());
        }
        i = i + 1;
    }
    assert(records@.subrange(0, records@.len() as int) =~= records@);
    out
}

} // verus!
