//! The resource report: the retained records and their totals.
use vstd::prelude::*;
use crate::aggregate::{
    NamespaceTotal,
    OwnerTotal,
    lemma_namespace_totals_agree,
    lemma_owner_totals_agree,
    namespace_totals,
    namespace_totals_of,
    owner_totals,
    owner_totals_of,
};
use crate::filter::{filter_records, retained, retained_records};
use crate::record::{ContainerUsage, Record, merged};
use crate::resources::empty_pair;

verus! {

/// Totals per namespace and per owner, and the records they sum.
#[derive(Debug, PartialEq, Eq)]
pub struct Report {
    pub namespace_totals: Vec<NamespaceTotal>,
    pub owner_totals: Vec<OwnerTotal>,
    pub records: Vec<Record>,
}

/// Filters the records and sums the retained ones by namespace and by owner.
pub fn build_report(records: Vec<Record>, threshold: Option<u64>, no_check_higher: bool) -> (r: Report)
    ensures
        r.records@ == retained_records(records@, threshold, no_check_higher),
        namespace_totals_of(r.records@, r.namespace_totals@),
        owner_totals_of(r.records@, r.owner_totals@),
{
    let kept = filter_records(records, threshold, no_check_higher);
    let namespace_totals = namespace_totals(&kept);
    let owner_totals = owner_totals(&kept);
    Report { namespace_totals, owner_totals, records: kept }
}

/// Whether `pods` lists the pod `name` of namespace `ns`.
pub open spec fn lists_pod(pods: Seq<(String, String)>, ns: Seq<char>, name: Seq<char>) -> bool {
    exists|j: int| 0 <= j < pods.len() && (#[trigger] pods[j]).0@ == ns && pods[j].1@ == name
}

/// Whether some record of `records` belongs to the pod `name` of namespace `ns`.
pub open spec fn has_pod(records: Seq<Record>, ns: Seq<char>, name: Seq<char>) -> bool {
    exists|i: int| 0 <= i < records.len() && (#[trigger] records[i]).namespace@ == ns && records[i].pod_name@ == name
}

/// The pods, as (namespace, name), that `records` belong to, each once, in
/// order of first appearance: the pods whose metrics are to be fetched.
pub fn distinct_pods(records: &Vec<Record>) -> (r: Vec<(String, String)>)
    ensures
        forall|i: int|
            0 <= i < records@.len() ==> lists_pod(r@, (#[trigger] records@[i]).namespace@, records@[i].pod_name@),
        forall|j: int| 0 <= j < r@.len() ==> has_pod(records@, (#[trigger] r@[j]).0@, r@[j].1@),
        forall|j: int, k: int|
            0 <= j < k < r@.len() ==> !((#[trigger] r@[j]).0@ == (#[trigger] r@[k]).0@ && r@[j].1@ == r@[k].1@),
{
    let mut out: Vec<(String, String)> = Vec::new();
    let mut i: usize = 0;
    while i < records.len()
        invariant
            i <= records@.len(),
            forall|m: int|
                0 <= m < i ==> lists_pod(out@, (#[trigger] records@[m]).namespace@, records@[m].pod_name@),
            forall|j: int| 0 <= j < out@.len() ==> has_pod(records@.subrange(0, i as int), (#[trigger] out@[j]).0@, out@[j].1@),
            forall|j: int, k: int|
                0 <= j < k < out@.len() ==> !((#[trigger] out@[j]).0@ == (#[trigger] out@[k]).0@ && out@[j].1@
                    == out@[k].1@),
        decreases records.len() - i,
    {
        let rec = &records[i];
        let ghost pre = records@.subrange(0, i as int);
        let ghost next = records@.subrange(0, i + 1);
        let mut j: usize = 0;
        let mut seen = false;
        while j < out.len()
            invariant
                j <= out@.len(),
                seen ==> lists_pod(out@, rec.namespace@, rec.pod_name@),
                !seen ==> forall|k: int|
                    0 <= k < j ==> !((#[trigger] out@[k]).0@ == rec.namespace@ && out@[k].1@ == rec.pod_name@),
            decreases out.len() - j,
        {
            if out[j].0 == rec.namespace && out[j].1 == rec.pod_name {
                seen = true;
            }
            j = j + 1;
        }
        let ghost old_out = out@;
        if !seen {
            out.push((rec.namespace.clone(), rec.pod_name.clone()));
            assert(out@[old_out.len() as int].0@ == rec.namespace@);
        }
        proof {
            assert(next[i as int] == *rec);
            assert forall|m: int| 0 <= m < i + 1 implies lists_pod(out@, (#[trigger] records@[m]).namespace@, records@[m].pod_name@) by {
                if m < i {
                    let j = choose|j: int| 0 <= j < old_out.len() && (#[trigger] old_out[j]).0@ == records@[m].namespace@
                        && old_out[j].1@ == records@[m].pod_name@;
                    assert(out@[j] == old_out[j]);
                } else if !seen {
                    assert(out@[old_out.len() as int].0@ == records@[m].namespace@);
                }
            }
            assert forall|j: int| 0 <= j < out@.len() implies has_pod(next, (#[trigger] out@[j]).0@, out@[j].1@) by {
                if j < old_out.len() {
                    assert(out@[j] == old_out[j]);
                    let m = choose|m: int| 0 <= m < pre.len() && (#[trigger] pre[m]).namespace@ == old_out[j].0@
                        && pre[m].pod_name@ == old_out[j].1@;
                    assert(next[m] == pre[m]);
                } else {
                    assert(out@[j].0@ == next[i as int].namespace@);
                }
            }
        }
        i = i + 1;
    }
    assert(records@.subrange(0, records@.len() as int) =~= records@);
    out
}

/// A record whose pod had no metrics stays as it was, with no usage, and the
/// filter keeps it whatever the threshold and the skip flag.
pub proof fn lemma_missing_metrics_retained(record: Record, threshold: Option<u64>, no_check_higher: bool)
    requires
        record.resources.usage == empty_pair(),
    ensures
        merged(record, None::<Seq<ContainerUsage>>) == Ok::<Record, crate::record::RecordError>(record),
        retained(record.resources, threshold, no_check_higher),
        retained_records(seq![record], threshold, no_check_higher) == seq![record],
{
    assert(seq![record].drop_last() =~= Seq::<Record>::empty());
    assert(Seq::<Record>::empty().push(record) =~= seq![record]);
    assert(retained_records(Seq::<Record>::empty(), threshold, no_check_higher) == Seq::<Record>::empty());
}

/// Each record occurs among the retained ones as often as in `s` if the
/// filter keeps it, and not at all otherwise.
proof fn lemma_retained_count(s: Seq<Record>, threshold: Option<u64>, no_check_higher: bool, x: Record)
    ensures
        retained_records(s, threshold, no_check_higher).to_multiset().count(x) == if retained(
            x.resources,
            threshold,
            no_check_higher,
        ) {
            s.to_multiset().count(x)
        } else {
            0
        },
    decreases s.len(),
{
    broadcast use vstd::multiset::group_multiset_axioms;
    broadcast use vstd::seq_lib::group_to_multiset_ensures;

    if s.len() == 0 {
        assert(s.to_multiset().len() == 0);
        assert(retained_records(s, threshold, no_check_higher).len() == 0);
        assert(retained_records(s, threshold, no_check_higher).to_multiset().len() == 0);
    } else {
        let d = s.drop_last();
        lemma_retained_count(d, threshold, no_check_higher, x);
        assert(d.push(s.last()) =~= s);
        vstd::seq_lib::to_multiset_build(d, s.last());
        let kept = retained_records(d, threshold, no_check_higher);
        vstd::seq_lib::to_multiset_build(kept, s.last());
    }
}

/// The filter keeps a permutation of the same records as a permutation.
pub proof fn lemma_filter_order_independent(
    a: Seq<Record>,
    b: Seq<Record>,
    threshold: Option<u64>,
    no_check_higher: bool,
)
    requires
        a.to_multiset() == b.to_multiset(),
    ensures
        retained_records(a, threshold, no_check_higher).to_multiset() == retained_records(
            b,
            threshold,
            no_check_higher,
        ).to_multiset(),
{
    assert forall|x: Record|
        retained_records(a, threshold, no_check_higher).to_multiset().count(x) == retained_records(
            b,
            threshold,
            no_check_higher,
        ).to_multiset().count(x) by {
        lemma_retained_count(a, threshold, no_check_higher, x);
        lemma_retained_count(b, threshold, no_check_higher, x);
    }
    assert(retained_records(a, threshold, no_check_higher).to_multiset() =~= retained_records(
        b,
        threshold,
        no_check_higher,
    ).to_multiset());
}

/// Two reports built with the same settings from the same records in any two
/// orders retain the same records and have the same namespaces and owners,
/// each with the same total.
pub proof fn lemma_report_order_independent(
    a: Seq<Record>,
    b: Seq<Record>,
    threshold: Option<u64>,
    no_check_higher: bool,
    ra: Report,
    rb: Report,
)
    requires
        a.to_multiset() == b.to_multiset(),
        ra.records@ == retained_records(a, threshold, no_check_higher),
        namespace_totals_of(ra.records@, ra.namespace_totals@),
        owner_totals_of(ra.records@, ra.owner_totals@),
        rb.records@ == retained_records(b, threshold, no_check_higher),
        namespace_totals_of(rb.records@, rb.namespace_totals@),
        owner_totals_of(rb.records@, rb.owner_totals@),
    ensures
        ra.records@.to_multiset() == rb.records@.to_multiset(),
        forall|j: int|
            0 <= j < ra.namespace_totals@.len() ==> exists|k: int|
                0 <= k < rb.namespace_totals@.len() && (#[trigger] rb.namespace_totals@[k]).namespace@
                    == (#[trigger] ra.namespace_totals@[j]).namespace@ && rb.namespace_totals@[k].resources
                    == ra.namespace_totals@[j].resources,
        forall|k: int|
            0 <= k < rb.namespace_totals@.len() ==> exists|j: int|
                0 <= j < ra.namespace_totals@.len() && (#[trigger] ra.namespace_totals@[j]).namespace@
                    == (#[trigger] rb.namespace_totals@[k]).namespace@ && ra.namespace_totals@[j].resources
                    == rb.namespace_totals@[k].resources,
        forall|j: int|
            0 <= j < ra.owner_totals@.len() ==> exists|k: int|
                0 <= k < rb.owner_totals@.len() && (#[trigger] rb.owner_totals@[k]).owner.name@
                    == (#[trigger] ra.owner_totals@[j]).owner.name@ && rb.owner_totals@[k].owner.kind@
                    == ra.owner_totals@[j].owner.kind@ && rb.owner_totals@[k].resources
                    == ra.owner_totals@[j].resources,
        forall|k: int|
            0 <= k < rb.owner_totals@.len() ==> exists|j: int|
                0 <= j < ra.owner_totals@.len() && (#[trigger] ra.owner_totals@[j]).owner.name@
                    == (#[trigger] rb.owner_totals@[k]).owner.name@ && ra.owner_totals@[j].owner.kind@
                    == rb.owner_totals@[k].owner.kind@ && ra.owner_totals@[j].resources
                    == rb.owner_totals@[k].resources,
{
    lemma_filter_order_independent(a, b, threshold, no_check_higher);
    lemma_namespace_totals_agree(ra.records@, rb.records@, ra.namespace_totals@, rb.namespace_totals@);
    lemma_owner_totals_agree(ra.records@, rb.records@, ra.owner_totals@, rb.owner_totals@);
}

} // verus!
