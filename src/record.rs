//! Per-container resource records: built from a running pod's declared
//! requests and limits, then completed with measured usage.
use vstd::prelude::*;
use crate::owner::{Owner, OwnerReference};
use crate::quantity::{ParseError, quantity_to_number, quantity_value};
use crate::resources::{ResourcePair, Resources, derived_difference};
use crate::units::{Cpu, Memory};

verus! {

/// Cpu and memory quantities as written, each possibly absent.
#[derive(Debug, PartialEq, Eq)]
pub struct QuantityPair {
    pub cpu: Option<String>,
    pub memory: Option<String>,
}

/// A container's resources block: its cpu and memory requests and limits.
#[derive(Debug, PartialEq, Eq)]
pub struct ResourceRequirements {
    pub requests: QuantityPair,
    pub limits: QuantityPair,
    /// Whether the block declares nothing at all, of any resource. A block
    /// that declares only resources other than cpu and memory is not empty.
    pub empty: bool,
}

/// A container of a pod's spec.
#[derive(Debug, PartialEq, Eq)]
pub struct Container {
    pub name: String,
    pub resources: Option<ResourceRequirements>,
    /// The security context's read-only root filesystem setting, if any.
    pub read_only_root_filesystem: Option<bool>,
    pub has_liveness_probe: bool,
    pub has_readiness_probe: bool,
}

/// A pod as listed: identity, phase, owners and, if it has a spec, containers.
#[derive(Debug, PartialEq, Eq)]
pub struct Pod {
    pub name: String,
    pub namespace: String,
    pub phase: Option<String>,
    pub owner_references: Vec<OwnerReference>,
    pub containers: Option<Vec<Container>>,
}

/// Measured usage of one container, as quantities.
#[derive(Debug, PartialEq, Eq)]
pub struct ContainerUsage {
    pub name: String,
    pub cpu: String,
    pub memory: String,
}

/// What the metrics source gave for one pod: its containers' usage, or
/// `None` where the metrics could not be had.
#[derive(Debug, PartialEq, Eq)]
pub struct PodUsage {
    pub namespace: String,
    pub pod_name: String,
    pub containers: Option<Vec<ContainerUsage>>,
}

/// The resource record of one container of one pod.
#[derive(Debug, PartialEq, Eq)]
pub struct Record {
    pub namespace: String,
    pub pod_name: String,
    pub container_name: String,
    pub owner: Option<Owner>,
    pub resources: Resources,
}

impl Clone for Record {
    fn clone(&self) -> (r: Self)
        ensures
            r == *self,
    {
        Record {
            namespace: self.namespace.clone(),
            pod_name: self.pod_name.clone(),
            container_name: self.container_name.clone(),
            owner: match &self.owner {
                Some(o) => Some(o.clone()),
                None => None,
            },
            resources: self.resources,
        }
    }
}

/// Which quantity of a container could not be read.
#[derive(Debug, Clone, Copy, PartialEq, Eq, Structural)]
pub enum ResourceField {
    RequestsCpu,
    RequestsMemory,
    LimitsCpu,
    LimitsMemory,
    UsageCpu,
    UsageMemory,
}

/// A quantity that could not be normalised, with where it was found.
#[derive(Debug, PartialEq, Eq)]
pub struct RecordError {
    pub namespace: String,
    pub pod_name: String,
    pub container_name: String,
    pub field: ResourceField,
    pub error: ParseError,
}

/// Whether a pod is running and has a spec.
pub open spec fn running(pod: Pod) -> bool {
    pod.phase is Some && pod.phase->Some_0@ == "Running"@ && pod.containers is Some
}

/// An optional quantity normalised, or the error it gives.
pub open spec fn parsed(q: Option<String>) -> Result<Option<u64>, ParseError> {
    match q {
        None => Ok(None),
        Some(s) => match quantity_value(s@) {
            Ok(v) => Ok(Some(v)),
            Err(e) => Err(e),
        },
    }
}

pub open spec fn cpu_of(v: Option<u64>) -> Option<Cpu> {
    match v {
        Some(v) => Some(Cpu(v)),
        None => None,
    }
}

pub open spec fn memory_of(v: Option<u64>) -> Option<Memory> {
    match v {
        Some(v) => Some(Memory(v)),
        None => None,
    }
}

pub open spec fn record_error(
    pod_name: String,
    namespace: String,
    container_name: String,
    field: ResourceField,
    error: ParseError,
) -> RecordError {
    RecordError { namespace, pod_name, container_name, field, error }
}

/// The record that a container's declarations give, or the first of its
/// quantities (requests before limits, cpu before memory) that is malformed.
pub open spec fn declared_record(
    pod_name: String,
    namespace: String,
    owner: Option<Owner>,
    name: String,
    req: ResourceRequirements,
) -> Result<Record, RecordError> {
    let rc = parsed(req.requests.cpu);
    let rm = parsed(req.requests.memory);
    let lc = parsed(req.limits.cpu);
    let lm = parsed(req.limits.memory);
    if rc is Err {
        Err(record_error(pod_name, namespace, name, ResourceField::RequestsCpu, rc->Err_0))
    } else if rm is Err {
        Err(record_error(pod_name, namespace, name, ResourceField::RequestsMemory, rm->Err_0))
    } else if lc is Err {
        Err(record_error(pod_name, namespace, name, ResourceField::LimitsCpu, lc->Err_0))
    } else if lm is Err {
        Err(record_error(pod_name, namespace, name, ResourceField::LimitsMemory, lm->Err_0))
    } else {
        let requests = ResourcePair { cpu: cpu_of(rc->Ok_0), memory: memory_of(rm->Ok_0) };
        let limits = ResourcePair { cpu: cpu_of(lc->Ok_0), memory: memory_of(lm->Ok_0) };
        let no_usage = ResourcePair { cpu: None, memory: None };
        let base = Resources {
            usage: no_usage,
            requests,
            limits,
            difference: crate::resources::UsageDifference { requests: no_usage, limits: no_usage },
        };
        Ok(Record { namespace, pod_name, container_name: name, owner, resources: base })
    }
}

/// Whether a container has a resources block that declares something.
pub open spec fn bears_resources(c: Container) -> bool {
    c.resources is Some && !c.resources->Some_0.empty
}

/// The records of the containers among `cs` that bear resources, or the
/// error of the first one whose declarations are malformed.
pub open spec fn container_records(
    pod_name: String,
    namespace: String,
    owner: Option<Owner>,
    cs: Seq<Container>,
) -> Result<Seq<Record>, RecordError>
    decreases cs.len(),
{
    if cs.len() == 0 {
        Ok(Seq::empty())
    } else {
        match container_records(pod_name, namespace, owner, cs.drop_last()) {
            Err(e) => Err(e),
            Ok(prev) => if bears_resources(cs.last()) {
                match declared_record(pod_name, namespace, owner, cs.last().name, cs.last().resources->Some_0) {
                    Ok(r) => Ok(prev.push(r)),
                    Err(e) => Err(e),
                }
            } else {
                Ok(prev)
            },
        }
    }
}

/// The records of a pod: none unless it is running.
pub open spec fn pod_records(pod: Pod, owner: Option<Owner>) -> Result<Seq<Record>, RecordError> {
    if running(pod) {
        container_records(pod.name, pod.namespace, owner, pod.containers->Some_0@)
    } else {
        Ok(Seq::empty())
    }
}

/// The first usage entry named `name`.
pub open spec fn usage_for(list: Seq<ContainerUsage>, name: Seq<char>) -> Option<ContainerUsage>
    decreases list.len(),
{
    if list.len() == 0 {
        None
    } else if list[0].name@ == name {
        Some(list[0])
    } else {
        usage_for(list.drop_first(), name)
    }
}

/// `res` with its usage replaced and its differences recomputed.
pub open spec fn with_usage(res: Resources, cpu: Option<Cpu>, memory: Option<Memory>) -> Resources {
    let r = Resources { usage: ResourcePair { cpu, memory }, ..res };
    Resources { difference: derived_difference(r), ..r }
}

/// A record completed with the usage that its pod's metrics give; `None`
/// stands for metrics that were unavailable, which leaves the record as it is.
pub open spec fn merged(record: Record, metrics: Option<Seq<ContainerUsage>>) -> Result<Record, RecordError> {
    match metrics {
        None => Ok(record),
        Some(list) => match usage_for(list, record.container_name@) {
            None => Ok(Record { resources: with_usage(record.resources, None, None), ..record }),
            Some(u) => {
                let c = quantity_value(u.cpu@);
                let m = quantity_value(u.memory@);
                if c is Err {
                    Err(record_error(record.pod_name, record.namespace, record.container_name, ResourceField::UsageCpu, c->Err_0))
                } else if m is Err {
                    Err(record_error(record.pod_name, record.namespace, record.container_name, ResourceField::UsageMemory, m->Err_0))
                } else {
                    Ok(Record {
                        resources: with_usage(record.resources, Some(Cpu(c->Ok_0)), Some(Memory(m->Ok_0))),
                        ..record
                    })
                }
            },
        },
    }
}

/// Whether two records share the key (namespace, pod, container).
pub open spec fn same_key(a: Record, b: Record) -> bool {
    a.namespace@ == b.namespace@ && a.pod_name@ == b.pod_name@ && a.container_name@ == b.container_name@
}

/// The records whose key no earlier record has: the first of each key.
pub open spec fn first_of_each_key(s: Seq<Record>) -> Seq<Record>
    decreases s.len(),
{
    if s.len() == 0 {
        Seq::empty()
    } else {
        let prev = first_of_each_key(s.drop_last());
        if exists|j: int| 0 <= j < prev.len() && same_key(#[trigger] prev[j], s.last()) {
            prev
        } else {
            prev.push(s.last())
        }
    }
}

proof fn lemma_error_persists(
    pod_name: String,
    namespace: String,
    owner: Option<Owner>,
    cs: Seq<Container>,
    i: int,
)
    requires
        0 <= i <= cs.len(),
        container_records(pod_name, namespace, owner, cs.subrange(0, i)) is Err,
    ensures
        container_records(pod_name, namespace, owner, cs) == container_records(
            pod_name,
            namespace,
            owner,
            cs.subrange(0, i),
        ),
    decreases cs.len() - i,
{
    if i == cs.len() {
        assert(cs.subrange(0, i) =~= cs);
    } else {
        assert(cs.drop_last().subrange(0, i) =~= cs.subrange(0, i));
        lemma_error_persists(pod_name, namespace, owner, cs.drop_last(), i);
    }
}

fn parse_optional(q: &Option<String>) -> (r: Result<Option<u64>, ParseError>)
    ensures
        r == parsed(*q),
{
    match q {
        None => Ok(None),
        Some(s) => match quantity_to_number(s.as_str()) {
            Ok(v) => Ok(Some(v)),
            Err(e) => Err(e),
        },
    }
}

fn make_error(
    pod_name: &String,
    namespace: &String,
    container_name: &String,
    field: ResourceField,
    error: ParseError,
) -> (r: RecordError)
    ensures
        r == record_error(*pod_name, *namespace, *container_name, field, error),
{
    RecordError {
        namespace: namespace.clone(),
        pod_name: pod_name.clone(),
        container_name: container_name.clone(),
        field,
        error,
    }
}

/// Whether a pod is running (phase `"Running"`) and has a spec.
pub fn is_running(pod: &Pod) -> (r: bool)
    ensures
        r == running(*pod),
{
    match &pod.phase {
        Some(phase) => {
            let running_phase = String::from_str("Running");
            *phase == running_phase && pod.containers.is_some()
        },
        None => false,
    }
}

/// Whether a container has a resources block that declares something.
pub fn has_resources(c: &Container) -> (r: bool)
    ensures
        r == bears_resources(*c),
{
    match &c.resources {
        Some(req) => !req.empty,
        None => false,
    }
}

/// Builds the record of a container that declares resources, normalising
/// each declared quantity.
pub fn generate_pod_output(
    pod_name: String,
    namespace: String,
    owner: Option<Owner>,
    container: &Container,
) -> (r: Result<Record, RecordError>)
    requires
        container.resources is Some,
    ensures
        r == declared_record(pod_name, namespace, owner, container.name, container.resources->Some_0),
{
    let req = container.resources.as_ref().unwrap();
    let rc = parse_optional(&req.requests.cpu);
    let rm = parse_optional(&req.requests.memory);
    let lc = parse_optional(&req.limits.cpu);
    let lm = parse_optional(&req.limits.memory);
    let requests_cpu = match rc {
        Ok(v) => v,
        Err(e) => {
            return Err(make_error(&pod_name, &namespace, &container.name, ResourceField::RequestsCpu, e));
        },
    };
    let requests_memory = match rm {
        Ok(v) => v,
        Err(e) => {
            return Err(make_error(&pod_name, &namespace, &container.name, ResourceField::RequestsMemory, e));
        },
    };
    let limits_cpu = match lc {
        Ok(v) => v,
        Err(e) => {
            return Err(make_error(&pod_name, &namespace, &container.name, ResourceField::LimitsCpu, e));
        },
    };
    let limits_memory = match lm {
        Ok(v) => v,
        Err(e) => {
            return Err(make_error(&pod_name, &namespace, &container.name, ResourceField::LimitsMemory, e));
        },
    };
    let requests = ResourcePair { cpu: to_cpu(requests_cpu), memory: to_memory(requests_memory) };
    let limits = ResourcePair { cpu: to_cpu(limits_cpu), memory: to_memory(limits_memory) };
    Ok(Record {
        namespace,
        pod_name,
        container_name: container.name.clone(),
        owner,
        resources: Resources::declared(requests, limits),
    })
}

fn to_cpu(v: Option<u64>) -> (r: Option<Cpu>)
    ensures
        r == cpu_of(v),
{
    match v {
        Some(v) => Some(Cpu(v)),
        None => None,
    }
}

fn to_memory(v: Option<u64>) -> (r: Option<Memory>)
    ensures
        r == memory_of(v),
{
    match v {
        Some(v) => Some(Memory(v)),
        None => None,
    }
}

/// The records of a pod's containers whose resources block is present and
/// not empty, attributed to `owner`; none for a pod that is not running.
pub fn pod_to_output(pod: &Pod, owner: Option<Owner>) -> (r: Result<Vec<Record>, RecordError>)
    ensures
        match r {
            Ok(v) => pod_records(*pod, owner) == Ok::<Seq<Record>, RecordError>(v@),
            Err(e) => pod_records(*pod, owner) == Err::<Seq<Record>, RecordError>(e),
        },
{
    if !is_running(pod) {
        return Ok(Vec::new());
    }
    let containers = match &pod.containers {
        Some(cs) => cs,
        None => {
            return Ok(Vec::new());
        },
    };
    let ghost cs = containers@;
    let mut out: Vec<Record> = Vec::new();
    let mut i: usize = 0;
    while i < containers.len()
        invariant
            cs == containers@,
            running(*pod),
            pod.containers->Some_0@ == cs,
            i <= cs.len(),
            container_records(pod.name, pod.namespace, owner, cs.subrange(0, i as int))
                == Ok::<Seq<Record>, RecordError>(out@),
        decreases cs.len() - i,
    {
        let c = &containers[i];
        proof {
            assert(cs.subrange(0, i + 1).drop_last() =~= cs.subrange(0, i as int));
            assert(cs.subrange(0, i + 1).last() == cs[i as int]);
        }
        if has_resources(c) {
            let owner_copy = match &owner {
                Some(o) => Some(o.clone()),
                None => None,
            };
            match generate_pod_output(pod.name.clone(), pod.namespace.clone(), owner_copy, c) {
                Ok(rec) => out.push(rec),
                Err(e) => {
                    proof {
                        lemma_error_persists(pod.name, pod.namespace, owner, cs, i + 1);
                    }
                    return Err(e);
                },
            }
        }
        i = i + 1;
    }
    assert(cs.subrange(0, cs.len() as int) =~= cs);
    Ok(out)
}

/// The first usage entry named like `name`.
fn find_usage<'a>(list: &'a Vec<ContainerUsage>, name: &String) -> (r: Option<&'a ContainerUsage>)
    ensures
        match r {
            Some(u) => usage_for(list@, name@) == Some(*u),
            None => usage_for(list@, name@) is None,
        },
{
    let mut i: usize = 0;
    assert(list@.subrange(0, list@.len() as int) =~= list@);
    while i < list.len()
        invariant
            i <= list@.len(),
            usage_for(list@, name@) == usage_for(list@.subrange(i as int, list@.len() as int), name@),
        decreases list.len() - i,
    {
        assert(list@.subrange(i as int, list@.len() as int).drop_first() =~= list@.subrange(
            i + 1,
            list@.len() as int,
        ));
        if list[i].name == *name {
            return Some(&list[i]);
        }
        i = i + 1;
    }
    None
}

/// Completes a record with the usage of its container among its pod's
/// metrics. `None` stands for metrics that could not be had: the record is
/// kept with no usage. A container absent from the metrics gets no usage.
pub fn merge_usage(record: Record, metrics: Option<&Vec<ContainerUsage>>) -> (r: Result<Record, RecordError>)
    ensures
        r == merged(record, match metrics {
            Some(m) => Some(m@),
            None => None,
        }),
{
    let list = match metrics {
        None => {
            return Ok(record);
        },
        Some(list) => list,
    };
    match find_usage(list, &record.container_name) {
        None => {
            let resources = record.resources.set_cpu_usage(None).set_memory_usage(None);
            Ok(Record { resources, ..record })
        },
        Some(u) => {
            let cpu = match quantity_to_number(u.cpu.as_str()) {
                Ok(v) => v,
                Err(e) => {
                    return Err(make_error(&record.pod_name, &record.namespace, &record.container_name, ResourceField::UsageCpu, e));
                },
            };
            let memory = match quantity_to_number(u.memory.as_str()) {
                Ok(v) => v,
                Err(e) => {
                    return Err(make_error(&record.pod_name, &record.namespace, &record.container_name, ResourceField::UsageMemory, e));
                },
            };
            let resources = record.resources.set_cpu_usage(Some(Cpu(cpu))).set_memory_usage(Some(Memory(memory)));
            Ok(Record { resources, ..record })
        },
    }
}

/// Keeps the first record of each key (namespace, pod, container), in order.
pub fn dedup_records(records: Vec<Record>) -> (r: Vec<Record>)
    ensures
        r@ == first_of_each_key(records@),
{
    let mut out: Vec<Record> = Vec::new();
    let mut i: usize = 0;
    while i < records.len()
        invariant
            i <= records@.len(),
            out@ == first_of_each_key(records@.subrange(0, i as int)),
        decreases records.len() - i,
    {
        let ghost prefix = records@.subrange(0, i + 1);
        proof {
            assert(prefix.drop_last() =~= records@.subrange(0, i as int));
        }
        let rec = &records[i];
        let mut j: usize = 0;
        let mut seen = false;
        while j < out.len()
            invariant
                j <= out@.len(),
                seen <==> exists|k: int| 0 <= k < j && same_key(#[trigger] out@[k], *rec),
            decreases out.len() - j,
        {
            if out[j].namespace == rec.namespace && out[j].pod_name == rec.pod_name
                && out[j].container_name == rec.container_name {
                seen = true;
            }
            j = j + 1;
        }
        if !seen {
            out.push(rec.clone());
        }
        i = i + 1;
    }
    assert(records@.subrange(0, records@.len() as int) =~= records@);
    out
}

/// The usage that `list` gives for the pod `pod_name` of namespace `ns`:
/// that of its first entry, or `None` where it has none.
pub open spec fn usage_of_pod(list: Seq<PodUsage>, ns: Seq<char>, pod_name: Seq<char>) -> Option<Seq<ContainerUsage>>
    decreases list.len(),
{
    if list.len() == 0 {
        None
    } else if list[0].namespace@ == ns && list[0].pod_name@ == pod_name {
        match list[0].containers {
            Some(v) => Some(v@),
            None => None,
        }
    } else {
        usage_of_pod(list.drop_first(), ns, pod_name)
    }
}

/// Every record merged with its pod's usage, or the first error.
pub open spec fn merged_all(s: Seq<Record>, list: Seq<PodUsage>) -> Result<Seq<Record>, RecordError>
    decreases s.len(),
{
    if s.len() == 0 {
        Ok(Seq::empty())
    } else {
        match merged_all(s.drop_last(), list) {
            Err(e) => Err(e),
            Ok(prev) => match merged(s.last(), usage_of_pod(list, s.last().namespace@, s.last().pod_name@)) {
                Ok(r) => Ok(prev.push(r)),
                Err(e) => Err(e),
            },
        }
    }
}

proof fn lemma_merge_error_persists(s: Seq<Record>, list: Seq<PodUsage>, i: int)
    requires
        0 <= i <= s.len(),
        merged_all(s.subrange(0, i), list) is Err,
    ensures
        merged_all(s, list) == merged_all(s.subrange(0, i), list),
    decreases s.len() - i,
{
    if i == s.len() {
        assert(s.subrange(0, i) =~= s);
    } else {
        assert(s.drop_last().subrange(0, i) =~= s.subrange(0, i));
        lemma_merge_error_persists(s.drop_last(), list, i);
    }
}

/// The usage entry of the pod `pod_name` of namespace `ns`, if `list` has one.
fn find_pod_usage<'a>(list: &'a Vec<PodUsage>, ns: &String, pod_name: &String) -> (r: Option<&'a Vec<ContainerUsage>>)
    ensures
        match r {
            Some(v) => usage_of_pod(list@, ns@, pod_name@) == Some(v@),
            None => usage_of_pod(list@, ns@, pod_name@) is None,
        },
{
    let mut i: usize = 0;
    assert(list@.subrange(0, list@.len() as int) =~= list@);
    while i < list.len()
        invariant
            i <= list@.len(),
            usage_of_pod(list@, ns@, pod_name@) == usage_of_pod(list@.subrange(i as int, list@.len() as int), ns@, pod_name@),
        decreases list.len() - i,
    {
        assert(list@.subrange(i as int, list@.len() as int).drop_first() =~= list@.subrange(
            i + 1,
            list@.len() as int,
        ));
        if list[i].namespace == *ns && list[i].pod_name == *pod_name {
            return match &list[i].containers {
                Some(v) => Some(v),
                None => None,
            };
        }
        i = i + 1;
    }
    None
}

/// Completes every record with the usage of its pod among `metrics`; a pod
/// that `metrics` does not list, or lists without data, leaves its records
/// with no usage.
pub fn merge_all_usage(records: Vec<Record>, metrics: &Vec<PodUsage>) -> (r: Result<Vec<Record>, RecordError>)
    ensures
        match r {
            Ok(v) => merged_all(records@, metrics@) == Ok::<Seq<Record>, RecordError>(v@),
            Err(e) => merged_all(records@, metrics@) == Err::<Seq<Record>, RecordError>(e),
        },
{
    let mut out: Vec<Record> = Vec::new();
    let mut i: usize = 0;
    while i < records.len()
        invariant
            i <= records@.len(),
            merged_all(records@.subrange(0, i as int), metrics@) == Ok::<Seq<Record>, RecordError>(out@),
        decreases records.len() - i,
    {
        proof {
            assert(records@.subrange(0, i + 1).drop_last() =~= records@.subrange(0, i as int));
            assert(records@.subrange(0, i + 1).last() == records@[i as int]);
        }
        let rec = records[i].clone();
        let usage = find_pod_usage(metrics, &rec.namespace, &rec.pod_name);
        match merge_usage(rec, usage) {
            Ok(m) => out.push(m),
            Err(e) => {
                proof {
                    lemma_merge_error_persists(records@, metrics@, i + 1);
                }
                return Err(e);
            },
        }
        i = i + 1;
    }
    assert(records@.subrange(0, records@.len() as int) =~= records@);
    Ok(out)
}

} // verus!
