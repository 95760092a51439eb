//! Two per-container checks: a root filesystem that is not read-only, and
//! neither a liveness nor a readiness probe.
use vstd::prelude::*;
use crate::owner::Owner;
use crate::record::{Container, Pod, running};

verus! {

/// A container whose root filesystem is writable.
#[derive(Debug, PartialEq, Eq, PartialOrd, Ord)]
pub struct NoReadOnlyRootFilesystem {
    pub namespace: String,
    pub owner: Option<Owner>,
    pub pod_name: String,
    pub container_name: String,
}

/// A container of a running pod that has neither health probe.
#[derive(Debug, PartialEq, Eq, PartialOrd, Ord)]
pub struct MissingHealthProbes {
    pub pod_name: String,
    pub owner: Option<Owner>,
    pub container_name: String,
}

/// Whether a container's root filesystem is writable: read-only is not set
/// to true.
pub open spec fn writable_root(c: Container) -> bool {
    c.read_only_root_filesystem != Some(true)
}

pub open spec fn unprobed(c: Container) -> bool {
    !c.has_liveness_probe && !c.has_readiness_probe
}

/// The entries for the containers among `cs` with a writable root filesystem.
pub open spec fn writable_entries(pod: Pod, owner: Option<Owner>, cs: Seq<Container>) -> Seq<
    NoReadOnlyRootFilesystem,
>
    decreases cs.len(),
{
    if cs.len() == 0 {
        Seq::empty()
    } else {
        let prev = writable_entries(pod, owner, cs.drop_last());
        if writable_root(cs.last()) {
            prev.push(
                NoReadOnlyRootFilesystem {
                    namespace: pod.namespace,
                    owner,
                    pod_name: pod.name,
                    container_name: cs.last().name,
                },
            )
        } else {
            prev
        }
    }
}

/// The entries for the containers among `cs` that have no probe.
pub open spec fn unprobed_entries(pod: Pod, owner: Option<Owner>, cs: Seq<Container>) -> Seq<
    MissingHealthProbes,
>
    decreases cs.len(),
{
    if cs.len() == 0 {
        Seq::empty()
    } else {
        let prev = unprobed_entries(pod, owner, cs.drop_last());
        if unprobed(cs.last()) {
            prev.push(MissingHealthProbes { pod_name: pod.name, owner, container_name: cs.last().name })
        } else {
            prev
        }
    }
}

fn copy_owner(owner: &Option<Owner>) -> (r: Option<Owner>)
    ensures
        r == *owner,
{
    match owner {
        Some(o) => Some(o.clone()),
        None => None,
    }
}

/// The containers of a pod whose root filesystem is not read-only, or
/// `None` for a pod without a spec.
pub fn all_pod_containers_read_only(pod: &Pod, owner: Option<Owner>) -> (r: Option<Vec<NoReadOnlyRootFilesystem>>)
    ensures
        r is None <==> pod.containers is None,
        r is Some ==> r->Some_0@ == writable_entries(*pod, owner, pod.containers->Some_0@),
{
    let containers = match &pod.containers {
        Some(cs) => cs,
        None => {
            return None;
        },
    };
    let mut out: Vec<NoReadOnlyRootFilesystem> = Vec::new();
    let mut i: usize = 0;
    while i < containers.len()
        invariant
            i <= containers@.len(),
            out@ == writable_entries(*pod, owner, containers@.subrange(0, i as int)),
        decreases containers.len() - i,
    {
        proof {
            assert(containers@.subrange(0, i + 1).drop_last() =~= containers@.subrange(0, i as int));
        }
        let c = &containers[i];
        if !matches!(c.read_only_root_filesystem, Some(true)) {
            out.push(
                NoReadOnlyRootFilesystem {
                    namespace: pod.namespace.clone(),
                    owner: copy_owner(&owner),
                    pod_name: pod.name.clone(),
                    container_name: c.name.clone(),
                },
            );
        }
        i = i + 1;
    }
    assert(containers@.subrange(0, containers@.len() as int) =~= containers@);
    Some(out)
}

/// The containers of a running pod that have neither a liveness nor a
/// readiness probe; none for a pod that is not running.
pub fn containers_missing_probes(pod: &Pod, owner: Option<Owner>) -> (r: Vec<MissingHealthProbes>)
    ensures
        r@ == if running(*pod) {
            unprobed_entries(*pod, owner, pod.containers->Some_0@)
        } else {
            Seq::empty()
        },
{
    if !crate::record::is_running(pod) {
        return Vec::new();
    }
    let containers = match &pod.containers {
        Some(cs) => cs,
        None => {
            return Vec::new();
        },
    };
    let mut out: Vec<MissingHealthProbes> = Vec::new();
    let mut i: usize = 0;
    while i < containers.len()
        invariant
            i <= containers@.len(),
            out@ == unprobed_entries(*pod, owner, containers@.subrange(0, i as int)),
        decreases containers.len() - i,
    {
        proof {
            assert(containers@.subrange(0, i + 1).drop_last() =~= containers@.subrange(0, i as int));
        }
        let c = &containers[i];
        if !c.has_liveness_probe && !c.has_readiness_probe {
            out.push(
                MissingHealthProbes {
                    pod_name: pod.name.clone(),
                    owner: copy_owner(&owner),
                    container_name: c.name.clone(),
                },
            );
        }
        i = i + 1;
    }
    assert(containers@.subrange(0, containers@.len() as int) =~= containers@);
    out
}

} // verus!
