//! Per-namespace and per-owner totals: coalescing sums of the resources of
//! the records in each group.
use vstd::prelude::*;
use crate::owner::Owner;
use crate::record::Record;
use crate::resources::{
    Resources,
    empty_resources,
    lemma_resources_plus_associative,
    lemma_resources_plus_commutative,
    lemma_resources_plus_identity,
    resources_plus,
};

verus! {

broadcast use vstd::seq_lib::group_to_multiset_ensures;

/// The summed resources of a namespace's records.
#[derive(Debug, PartialEq, Eq)]
pub struct NamespaceTotal {
    pub namespace: String,
    pub resources: Resources,
}

/// The summed resources of the records of pods with one top controller.
#[derive(Debug, PartialEq, Eq)]
pub struct OwnerTotal {
    pub owner: Owner,
    pub resources: Resources,
}

/// The sum of the resources of the records that `member` selects.
pub open spec fn member_total(s: Seq<Record>, member: spec_fn(Record) -> bool) -> Resources
    decreases s.len(),
{
    if s.len() == 0 {
        empty_resources()
    } else {
        let prev = member_total(s.drop_last(), member);
        if member(s.last()) {
            resources_plus(prev, s.last().resources)
        } else {
            prev
        }
    }
}

/// Selects the records of namespace `ns`.
pub open spec fn in_namespace(ns: Seq<char>) -> spec_fn(Record) -> bool {
    |r: Record| r.namespace@ == ns
}

/// Selects the records of pods whose top controller has this name and kind.
pub open spec fn owned_by(name: Seq<char>, kind: Seq<char>) -> spec_fn(Record) -> bool {
    |r: Record| r.owner is Some && r.owner->Some_0.name@ == name && r.owner->Some_0.kind@ == kind
}

/// The total of namespace `ns` over `records`.
pub open spec fn namespace_total(records: Seq<Record>, ns: Seq<char>) -> Resources {
    member_total(records, in_namespace(ns))
}

/// The total of the owner with this name and kind over `records`.
pub open spec fn owner_total(records: Seq<Record>, name: Seq<char>, kind: Seq<char>) -> Resources {
    member_total(records, owned_by(name, kind))
}

pub open spec fn has_namespace(records: Seq<Record>, ns: Seq<char>) -> bool {
    exists|i: int| 0 <= i < records.len() && (#[trigger] records[i]).namespace@ == ns
}

pub open spec fn has_owner(records: Seq<Record>, name: Seq<char>, kind: Seq<char>) -> bool {
    exists|i: int|
        0 <= i < records.len() && (#[trigger] records[i]).owner is Some && records[i].owner->Some_0.name@
            == name && records[i].owner->Some_0.kind@ == kind
}

/// `totals` holds one entry per namespace of `records`, each with that
/// namespace's total.
pub open spec fn namespace_totals_of(records: Seq<Record>, totals: Seq<NamespaceTotal>) -> bool {
    &&& forall|j: int|
        0 <= j < totals.len() ==> (#[trigger] totals[j]).resources == namespace_total(records, totals[j].namespace@)
    &&& forall|j: int| 0 <= j < totals.len() ==> has_namespace(records, (#[trigger] totals[j]).namespace@)
    &&& forall|j: int, k: int|
        0 <= j < k < totals.len() ==> (#[trigger] totals[j]).namespace@ != (#[trigger] totals[k]).namespace@
    &&& forall|i: int|
        0 <= i < records.len() ==> exists|j: int|
            0 <= j < totals.len() && (#[trigger] totals[j]).namespace@ == (#[trigger] records[i]).namespace@
}

/// `totals` holds one entry per owner of `records`, each with that owner's
/// total; records without an owner are in none.
pub open spec fn owner_totals_of(records: Seq<Record>, totals: Seq<OwnerTotal>) -> bool {
    &&& forall|j: int|
        0 <= j < totals.len() ==> (#[trigger] totals[j]).resources == owner_total(
            records,
            totals[j].owner.name@,
            totals[j].owner.kind@,
        )
    &&& forall|j: int|
        0 <= j < totals.len() ==> has_owner(records, (#[trigger] totals[j]).owner.name@, totals[j].owner.kind@)
    &&& forall|j: int, k: int|
        0 <= j < k < totals.len() ==> !((#[trigger] totals[j]).owner.name@ == (#[trigger] totals[k]).owner.name@
            && totals[j].owner.kind@ == totals[k].owner.kind@)
    &&& forall|i: int|
        0 <= i < records.len() && (#[trigger] records[i]).owner is Some ==> exists|j: int|
            0 <= j < totals.len() && (#[trigger] totals[j]).owner.name@ == records[i].owner->Some_0.name@
                && totals[j].owner.kind@ == records[i].owner->Some_0.kind@
}

/// A total over records that the selector leaves all out is empty.
proof fn lemma_total_of_none(s: Seq<Record>, member: spec_fn(Record) -> bool)
    requires
        forall|i: int| 0 <= i < s.len() ==> !member(#[trigger] s[i]),
    ensures
        member_total(s, member) == empty_resources(),
    decreases s.len(),
{
    if s.len() > 0 {
        assert(!member(s[s.len() - 1]));
        lemma_total_of_none(s.drop_last(), member);
    }
}

/// Taking one record out of a sequence takes its share out of each total.
proof fn lemma_total_remove(s: Seq<Record>, i: int, member: spec_fn(Record) -> bool)
    requires
        0 <= i < s.len(),
    ensures
        member_total(s, member) == if member(s[i]) {
            resources_plus(member_total(s.remove(i), member), s[i].resources)
        } else {
            member_total(s.remove(i), member)
        },
    decreases s.len(),
{
    if i == s.len() - 1 {
        assert(s.remove(i) =~= s.drop_last());
    } else {
        let d = s.drop_last();
        lemma_total_remove(d, i, member);
        assert(d.remove(i) =~= s.remove(i).drop_last());
        assert(s.remove(i).last() == s.last());
        let base = member_total(d.remove(i), member);
        let a = s[i].resources;
        let b = s.last().resources;
        lemma_resources_plus_associative(base, a, b);
        lemma_resources_plus_associative(base, b, a);
        lemma_resources_plus_commutative(a, b);
    }
}

/// Totals do not depend on the order of the records.
pub proof fn lemma_total_permutation(a: Seq<Record>, b: Seq<Record>, member: spec_fn(Record) -> bool)
    requires
        a.to_multiset() == b.to_multiset(),
    ensures
        member_total(a, member) == member_total(b, member),
    decreases a.len(),
{
    if a.len() == 0 {
        assert(b.to_multiset().len() == 0);
        assert(b.len() == 0);
    } else {
        let x = a.last();
        assert(a.to_multiset().count(x) > 0) by {
            assert(a.contains(x)) by {
                assert(a[a.len() - 1] == x);
            }
        }
        assert(b.contains(x));
        let i = choose|i: int| 0 <= i < b.len() && b[i] == x;
        assert(a.drop_last().to_multiset() == b.remove(i).to_multiset()) by {
            assert(a.drop_last() =~= a.remove(a.len() - 1));
        }
        lemma_total_permutation(a.drop_last(), b.remove(i), member);
        lemma_total_remove(b, i, member);
    }
}

/// Grouping is independent of the order of the records: any permutation of
/// the same records has the same namespaces and owners, with the same totals.
pub proof fn lemma_totals_order_independent(a: Seq<Record>, b: Seq<Record>)
    requires
        a.to_multiset() == b.to_multiset(),
    ensures
        forall|ns: Seq<char>| #[trigger] namespace_total(a, ns) == namespace_total(b, ns),
        forall|name: Seq<char>, kind: Seq<char>| #[trigger] owner_total(a, name, kind) == owner_total(b, name, kind),
        forall|ns: Seq<char>| #[trigger] has_namespace(a, ns) == has_namespace(b, ns),
        forall|name: Seq<char>, kind: Seq<char>| #[trigger] has_owner(a, name, kind) == has_owner(b, name, kind),
{
    assert forall|ns: Seq<char>| #[trigger] namespace_total(a, ns) == namespace_total(b, ns) by {
        lemma_total_permutation(a, b, in_namespace(ns));
    }
    assert forall|name: Seq<char>, kind: Seq<char>| #[trigger] owner_total(a, name, kind) == owner_total(b, name, kind) by {
        lemma_total_permutation(a, b, owned_by(name, kind));
    }
    assert forall|x: Record| a.contains(x) == b.contains(x) by {
        vstd::seq_lib::to_multiset_contains(a, x);
        vstd::seq_lib::to_multiset_contains(b, x);
    }
    assert forall|ns: Seq<char>| #[trigger] has_namespace(a, ns) == has_namespace(b, ns) by {
        if has_namespace(a, ns) {
            let i = choose|i: int| 0 <= i < a.len() && (#[trigger] a[i]).namespace@ == ns;
            assert(a.contains(a[i]));
            let j = choose|j: int| 0 <= j < b.len() && b[j] == a[i];
            assert(b[j].namespace@ == ns);
        }
        if has_namespace(b, ns) {
            let i = choose|i: int| 0 <= i < b.len() && (#[trigger] b[i]).namespace@ == ns;
            assert(b.contains(b[i]));
            let j = choose|j: int| 0 <= j < a.len() && a[j] == b[i];
            assert(a[j].namespace@ == ns);
        }
    }
    assert forall|name: Seq<char>, kind: Seq<char>| #[trigger] has_owner(a, name, kind) == has_owner(b, name, kind) by {
        if has_owner(a, name, kind) {
            let i = choose|i: int|
                0 <= i < a.len() && (#[trigger] a[i]).owner is Some && a[i].owner->Some_0.name@ == name
                    && a[i].owner->Some_0.kind@ == kind;
            assert(a.contains(a[i]));
            let j = choose|j: int| 0 <= j < b.len() && b[j] == a[i];
            assert(b[j].owner == a[i].owner);
        }
        if has_owner(b, name, kind) {
            let i = choose|i: int|
                0 <= i < b.len() && (#[trigger] b[i]).owner is Some && b[i].owner->Some_0.name@ == name
                    && b[i].owner->Some_0.kind@ == kind;
            assert(b.contains(b[i]));
            let j = choose|j: int| 0 <= j < a.len() && a[j] == b[i];
            assert(a[j].owner == b[i].owner);
        }
    }
}

/// Two namespace groupings of the same records in any two orders agree: each
/// namespace of one is in the other, with the same total.
pub proof fn lemma_namespace_totals_agree(
    a: Seq<Record>,
    b: Seq<Record>,
    ta: Seq<NamespaceTotal>,
    tb: Seq<NamespaceTotal>,
)
    requires
        a.to_multiset() == b.to_multiset(),
        namespace_totals_of(a, ta),
        namespace_totals_of(b, tb),
    ensures
        forall|j: int|
            0 <= j < ta.len() ==> exists|k: int|
                0 <= k < tb.len() && (#[trigger] tb[k]).namespace@ == (#[trigger] ta[j]).namespace@
                    && tb[k].resources == ta[j].resources,
        forall|k: int|
            0 <= k < tb.len() ==> exists|j: int|
                0 <= j < ta.len() && (#[trigger] ta[j]).namespace@ == (#[trigger] tb[k]).namespace@
                    && ta[j].resources == tb[k].resources,
{
    lemma_totals_order_independent(a, b);
    assert forall|j: int| 0 <= j < ta.len() implies exists|k: int|
        0 <= k < tb.len() && (#[trigger] tb[k]).namespace@ == (#[trigger] ta[j]).namespace@
            && tb[k].resources == ta[j].resources by {
        let ns = ta[j].namespace@;
        assert(has_namespace(a, ns));
        assert(has_namespace(b, ns));
        let i = choose|i: int| 0 <= i < b.len() && (#[trigger] b[i]).namespace@ == ns;
        let k = choose|k: int| 0 <= k < tb.len() && (#[trigger] tb[k]).namespace@ == b[i].namespace@;
        assert(namespace_total(a, ns) == namespace_total(b, ns));
    }
    assert forall|k: int| 0 <= k < tb.len() implies exists|j: int|
        0 <= j < ta.len() && (#[trigger] ta[j]).namespace@ == (#[trigger] tb[k]).namespace@
            && ta[j].resources == tb[k].resources by {
        let ns = tb[k].namespace@;
        assert(has_namespace(b, ns));
        assert(has_namespace(a, ns));
        let i = choose|i: int| 0 <= i < a.len() && (#[trigger] a[i]).namespace@ == ns;
        let j = choose|j: int| 0 <= j < ta.len() && (#[trigger] ta[j]).namespace@ == a[i].namespace@;
        assert(namespace_total(a, ns) == namespace_total(b, ns));
    }
}

/// Two owner groupings of the same records in any two orders agree: each
/// owner of one is in the other, with the same total.
pub proof fn lemma_owner_totals_agree(a: Seq<Record>, b: Seq<Record>, ta: Seq<OwnerTotal>, tb: Seq<OwnerTotal>)
    requires
        a.to_multiset() == b.to_multiset(),
        owner_totals_of(a, ta),
        owner_totals_of(b, tb),
    ensures
        forall|j: int|
            0 <= j < ta.len() ==> exists|k: int|
                0 <= k < tb.len() && (#[trigger] tb[k]).owner.name@ == (#[trigger] ta[j]).owner.name@
                    && tb[k].owner.kind@ == ta[j].owner.kind@ && tb[k].resources == ta[j].resources,
        forall|k: int|
            0 <= k < tb.len() ==> exists|j: int|
                0 <= j < ta.len() && (#[trigger] ta[j]).owner.name@ == (#[trigger] tb[k]).owner.name@
                    && ta[j].owner.kind@ == tb[k].owner.kind@ && ta[j].resources == tb[k].resources,
{
    lemma_totals_order_independent(a, b);
    assert forall|j: int| 0 <= j < ta.len() implies exists|k: int|
        0 <= k < tb.len() && (#[trigger] tb[k]).owner.name@ == (#[trigger] ta[j]).owner.name@
            && tb[k].owner.kind@ == ta[j].owner.kind@ && tb[k].resources == ta[j].resources by {
        let name = ta[j].owner.name@;
        let kind = ta[j].owner.kind@;
        assert(has_owner(a, name, kind));
        assert(has_owner(b, name, kind));
        let i = choose|i: int|
            0 <= i < b.len() && (#[trigger] b[i]).owner is Some && b[i].owner->Some_0.name@ == name
                && b[i].owner->Some_0.kind@ == kind;
        let k = choose|k: int|
            0 <= k < tb.len() && (#[trigger] tb[k]).owner.name@ == b[i].owner->Some_0.name@
                && tb[k].owner.kind@ == b[i].owner->Some_0.kind@;
        assert(owner_total(a, name, kind) == owner_total(b, name, kind));
    }
    assert forall|k: int| 0 <= k < tb.len() implies exists|j: int|
        0 <= j < ta.len() && (#[trigger] ta[j]).owner.name@ == (#[trigger] tb[k]).owner.name@
            && ta[j].owner.kind@ == tb[k].owner.kind@ && ta[j].resources == tb[k].resources by {
        let name = tb[k].owner.name@;
        let kind = tb[k].owner.kind@;
        assert(has_owner(b, name, kind));
        assert(has_owner(a, name, kind));
        let i = choose|i: int|
            0 <= i < a.len() && (#[trigger] a[i]).owner is Some && a[i].owner->Some_0.name@ == name
                && a[i].owner->Some_0.kind@ == kind;
        let j = choose|j: int|
            0 <= j < ta.len() && (#[trigger] ta[j]).owner.name@ == a[i].owner->Some_0.name@
                && ta[j].owner.kind@ == a[i].owner->Some_0.kind@;
        assert(owner_total(a, name, kind) == owner_total(b, name, kind));
    }
}

/// Selects every record.
pub open spec fn every_record() -> spec_fn(Record) -> bool {
    |r: Record| true
}

/// What `start` becomes after `add_assign` of each record of `s`, in order.
pub open spec fn fold_total(start: Resources, s: Seq<Record>) -> Resources
    decreases s.len(),
{
    if s.len() == 0 {
        start
    } else {
        resources_plus(fold_total(start, s.drop_last()), s.last().resources)
    }
}

proof fn lemma_fold_total_is_sum(start: Resources, s: Seq<Record>)
    ensures
        fold_total(start, s) == resources_plus(start, member_total(s, every_record())),
    decreases s.len(),
{
    if s.len() == 0 {
        lemma_resources_plus_identity(start);
    } else {
        lemma_fold_total_is_sum(start, s.drop_last());
        lemma_resources_plus_associative(start, member_total(s.drop_last(), every_record()), s.last().resources);
    }
}

/// Adding the same records to a total in any two orders gives the same total.
pub proof fn lemma_add_assign_order_independent(start: Resources, a: Seq<Record>, b: Seq<Record>)
    requires
        a.to_multiset() == b.to_multiset(),
    ensures
        fold_total(start, a) == fold_total(start, b),
{
    lemma_fold_total_is_sum(start, a);
    lemma_fold_total_is_sum(start, b);
    lemma_total_permutation(a, b, every_record());
}

/// Adding one more record to a prefix changes only the totals that select it.
proof fn lemma_total_step(s: Seq<Record>, i: int, member: spec_fn(Record) -> bool)
    requires
        0 <= i < s.len(),
    ensures
        member_total(s.subrange(0, i + 1), member) == if member(s[i]) {
            resources_plus(member_total(s.subrange(0, i), member), s[i].resources)
        } else {
            member_total(s.subrange(0, i), member)
        },
{
    assert(s.subrange(0, i + 1).drop_last() =~= s.subrange(0, i));
}

impl NamespaceTotal {
    /// Adds a record's resources to the total.
    pub fn add_assign(&mut self, rhs: &Record)
        ensures
            final(self).namespace == old(self).namespace,
            final(self).resources == resources_plus(old(self).resources, rhs.resources),
    {
        self.resources = self.resources.add(&rhs.resources);
    }
}

impl OwnerTotal {
    /// Adds a record's resources to the total.
    pub fn add_assign(&mut self, rhs: &Record)
        ensures
            final(self).owner == old(self).owner,
            final(self).resources == resources_plus(old(self).resources, rhs.resources),
    {
        self.resources = self.resources.add(&rhs.resources);
    }
}

/// Index of the total of namespace `ns`, if there is one.
fn find_namespace(totals: &Vec<NamespaceTotal>, ns: &String) -> (r: Option<usize>)
    ensures
        match r {
            Some(j) => j < totals@.len() && totals@[j as int].namespace@ == ns@,
            None => forall|j: int| 0 <= j < totals@.len() ==> (#[trigger] totals@[j]).namespace@ != ns@,
        },
{
    let mut j: usize = 0;
    while j < totals.len()
        invariant
            j <= totals@.len(),
            forall|k: int| 0 <= k < j ==> (#[trigger] totals@[k]).namespace@ != ns@,
        decreases totals.len() - j,
    {
        if totals[j].namespace == *ns {
            return Some(j);
        }
        j = j + 1;
    }
    None
}

/// Index of the total of `owner`, if there is one.
fn find_owner(totals: &Vec<OwnerTotal>, owner: &Owner) -> (r: Option<usize>)
    ensures
        match r {
            Some(j) => j < totals@.len() && totals@[j as int].owner.name@ == owner.name@
                && totals@[j as int].owner.kind@ == owner.kind@,
            None => forall|j: int|
                0 <= j < totals@.len() ==> !((#[trigger] totals@[j]).owner.name@ == owner.name@
                    && totals@[j].owner.kind@ == owner.kind@),
        },
{
    let mut j: usize = 0;
    while j < totals.len()
        invariant
            j <= totals@.len(),
            forall|k: int|
                0 <= k < j ==> !((#[trigger] totals@[k]).owner.name@ == owner.name@ && totals@[k].owner.kind@
                    == owner.kind@),
        decreases totals.len() - j,
    {
        if totals[j].owner.same_as(owner) {
            return Some(j);
        }
        j = j + 1;
    }
    None
}

/// The total of each namespace of `records`, in order of first appearance.
pub fn namespace_totals(records: &Vec<Record>) -> (r: Vec<NamespaceTotal>)
    ensures
        namespace_totals_of(records@, r@),
{
    let mut out: Vec<NamespaceTotal> = Vec::new();
    let mut i: usize = 0;
    while i < records.len()
        invariant
            i <= records@.len(),
            namespace_totals_of(records@.subrange(0, i as int), out@),
        decreases records.len() - i,
    {
        let ghost pre = records@.subrange(0, i as int);
        let ghost next = records@.subrange(0, i + 1);
        let ghost old_out = out@;
        let rec = &records[i];
        proof {
            assert forall|ns: Seq<char>| #[trigger] namespace_total(next, ns) == if rec.namespace@ == ns {
                resources_plus(namespace_total(pre, ns), rec.resources)
            } else {
                namespace_total(pre, ns)
            } by {
                lemma_total_step(records@, i as int, in_namespace(ns));
            }
            assert forall|k: int| 0 <= k < i implies next[k] == #[trigger] pre[k] by {}
            assert(next[i as int] == *rec);
        }
        match find_namespace(&out, &rec.namespace) {
            Some(j) => {
                out[j].add_assign(rec);
                proof {
                    assert forall|k: int| 0 <= k < out@.len() implies has_namespace(next, (#[trigger] out@[k]).namespace@) by {
                        assert(has_namespace(pre, old_out[k].namespace@));
                        let m = choose|m: int| 0 <= m < pre.len() && (#[trigger] pre[m]).namespace@ == old_out[k].namespace@;
                        assert(next[m] == pre[m]);
                    }
                    assert forall|m: int| 0 <= m < next.len() implies exists|k: int|
                        0 <= k < out@.len() && (#[trigger] out@[k]).namespace@ == (#[trigger] next[m]).namespace@ by {
                        if m < i {
                            assert(next[m] == pre[m]);
                            let k = choose|k: int| 0 <= k < old_out.len() && (#[trigger] old_out[k]).namespace@ == pre[m].namespace@;
                            assert(out@[k].namespace@ == old_out[k].namespace@);
                        } else {
                            assert(out@[j as int].namespace@ == next[m].namespace@);
                        }
                    }
                }
            },
            None => {
                proof {
                    assert forall|m: int| 0 <= m < pre.len() implies !in_namespace(rec.namespace@)(#[trigger] pre[m]) by {
                        let k = choose|k: int| 0 <= k < old_out.len() && (#[trigger] old_out[k]).namespace@ == pre[m].namespace@;
                    }
                    lemma_total_of_none(pre, in_namespace(rec.namespace@));
                    lemma_resources_plus_identity(rec.resources);
                }
                out.push(NamespaceTotal { namespace: rec.namespace.clone(), resources: rec.resources });
                proof {
                    assert forall|k: int| 0 <= k < out@.len() implies has_namespace(next, (#[trigger] out@[k]).namespace@) by {
                        if k < old_out.len() {
                            assert(has_namespace(pre, old_out[k].namespace@));
                            let m = choose|m: int| 0 <= m < pre.len() && (#[trigger] pre[m]).namespace@ == old_out[k].namespace@;
                            assert(next[m] == pre[m]);
                        } else {
                            assert(next[i as int].namespace@ == out@[k].namespace@);
                        }
                    }
                    assert forall|m: int| 0 <= m < next.len() implies exists|k: int|
                        0 <= k < out@.len() && (#[trigger] out@[k]).namespace@ == (#[trigger] next[m]).namespace@ by {
                        if m < i {
                            assert(next[m] == pre[m]);
                            let k = choose|k: int| 0 <= k < old_out.len() && (#[trigger] old_out[k]).namespace@ == pre[m].namespace@;
                            assert(out@[k] == old_out[k]);
                        } else {
                            assert(out@[old_out.len() as int].namespace@ == next[m].namespace@);
                        }
                    }
                }
            },
        }
        i = i + 1;
    }
    assert(records@.subrange(0, records@.len() as int) =~= records@);
    out
}

/// The total of each owner of `records`, in order of first appearance;
/// records without an owner count towards none.
pub fn owner_totals(records: &Vec<Record>) -> (r: Vec<OwnerTotal>)
    ensures
        owner_totals_of(records@, r@),
{
    let mut out: Vec<OwnerTotal> = Vec::new();
    let mut i: usize = 0;
    while i < records.len()
        invariant
            i <= records@.len(),
            owner_totals_of(records@.subrange(0, i as int), out@),
        decreases records.len() - i,
    {
        let ghost pre = records@.subrange(0, i as int);
        let ghost next = records@.subrange(0, i + 1);
        let ghost old_out = out@;
        let rec = &records[i];
        proof {
            assert forall|name: Seq<char>, kind: Seq<char>| #[trigger] owner_total(next, name, kind) == if owned_by(name, kind)(*rec) {
                resources_plus(owner_total(pre, name, kind), rec.resources)
            } else {
                owner_total(pre, name, kind)
            } by {
                lemma_total_step(records@, i as int, owned_by(name, kind));
            }
            assert forall|k: int| 0 <= k < i implies next[k] == #[trigger] pre[k] by {}
            assert(next[i as int] == *rec);
        }
        match &rec.owner {
            None => {
                proof {
                    assert forall|k: int| 0 <= k < out@.len() implies has_owner(next, (#[trigger] out@[k]).owner.name@, out@[k].owner.kind@) by {
                        let m = choose|m: int| 0 <= m < pre.len() && (#[trigger] pre[m]).owner is Some
                            && pre[m].owner->Some_0.name@ == out@[k].owner.name@ && pre[m].owner->Some_0.kind@ == out@[k].owner.kind@;
                        assert(next[m] == pre[m]);
                    }
                    assert forall|m: int| 0 <= m < next.len() && (#[trigger] next[m]).owner is Some implies exists|k: int|
                        0 <= k < out@.len() && (#[trigger] out@[k]).owner.name@ == next[m].owner->Some_0.name@
                            && out@[k].owner.kind@ == next[m].owner->Some_0.kind@ by {
                        assert(m < i);
                        assert(next[m] == pre[m]);
                    }
                }
            },
            Some(owner) => {
                match find_owner(&out, owner) {
                    Some(j) => {
                        out[j].add_assign(rec);
                        proof {
                            assert forall|k: int| 0 <= k < out@.len() implies has_owner(next, (#[trigger] out@[k]).owner.name@, out@[k].owner.kind@) by {
                                let m = choose|m: int| 0 <= m < pre.len() && (#[trigger] pre[m]).owner is Some
                                    && pre[m].owner->Some_0.name@ == old_out[k].owner.name@ && pre[m].owner->Some_0.kind@ == old_out[k].owner.kind@;
                                assert(next[m] == pre[m]);
                            }
                            assert forall|m: int| 0 <= m < next.len() && (#[trigger] next[m]).owner is Some implies exists|k: int|
                                0 <= k < out@.len() && (#[trigger] out@[k]).owner.name@ == next[m].owner->Some_0.name@
                                    && out@[k].owner.kind@ == next[m].owner->Some_0.kind@ by {
                                if m < i {
                                    assert(next[m] == pre[m]);
                                    let k = choose|k: int| 0 <= k < old_out.len() && (#[trigger] old_out[k]).owner.name@ == pre[m].owner->Some_0.name@
                                        && old_out[k].owner.kind@ == pre[m].owner->Some_0.kind@;
                                    assert(out@[k].owner == old_out[k].owner);
                                } else {
                                    assert(out@[j as int].owner.name@ == next[m].owner->Some_0.name@);
                                }
                            }
                        }
                    },
                    None => {
                        proof {
                            assert forall|m: int| 0 <= m < pre.len() implies !owned_by(owner.name@, owner.kind@)(#[trigger] pre[m]) by {
                                if pre[m].owner is Some {
                                    let k = choose|k: int| 0 <= k < old_out.len() && (#[trigger] old_out[k]).owner.name@ == pre[m].owner->Some_0.name@
                                        && old_out[k].owner.kind@ == pre[m].owner->Some_0.kind@;
                                }
                            }
                            lemma_total_of_none(pre, owned_by(owner.name@, owner.kind@));
                            lemma_resources_plus_identity(rec.resources);
                        }
                        out.push(OwnerTotal { owner: owner.clone(), resources: rec.resources });
                        proof {
                            assert forall|k: int| 0 <= k < out@.len() implies has_owner(next, (#[trigger] out@[k]).owner.name@, out@[k].owner.kind@) by {
                                if k < old_out.len() {
                                    let m = choose|m: int| 0 <= m < pre.len() && (#[trigger] pre[m]).owner is Some
                                        && pre[m].owner->Some_0.name@ == old_out[k].owner.name@ && pre[m].owner->Some_0.kind@ == old_out[k].owner.kind@;
                                    assert(next[m] == pre[m]);
                                } else {
                                    assert(next[i as int].owner->Some_0 == out@[k].owner);
                                }
                            }
                            assert forall|m: int| 0 <= m < next.len() && (#[trigger] next[m]).owner is Some implies exists|k: int|
                                0 <= k < out@.len() && (#[trigger] out@[k]).owner.name@ == next[m].owner->Some_0.name@
                                    && out@[k].owner.kind@ == next[m].owner->Some_0.kind@ by {
                                if m < i {
                                    assert(next[m] == pre[m]);
                                    let k = choose|k: int| 0 <= k < old_out.len() && (#[trigger] old_out[k]).owner.name@ == pre[m].owner->Some_0.name@
                                        && old_out[k].owner.kind@ == pre[m].owner->Some_0.kind@;
                                    assert(out@[k] == old_out[k]);
                                } else {
                                    assert(out@[old_out.len() as int].owner == next[m].owner->Some_0);
                                }
                            }
                        }
                    },
                }
            },
        }
        i = i + 1;
    }
    assert(records@.subrange(0, records@.len() as int) =~= records@);
    out
}

} // verus!
