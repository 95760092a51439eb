use kube_audit::owner::{
    extract_owner, get_pod_owner, owner_after_lookup, single_match, ExpandableKind, LookupError,
    Owner, OwnerReference, OwnerStep,
};

fn reference(name: &str, kind: &str, controller: bool) -> OwnerReference {
    OwnerReference {
        name: name.to_string(),
        kind: kind.to_string(),
        controller,
    }
}

fn owner(name: &str, kind: &str) -> Owner {
    Owner {
        name: name.to_string(),
        kind: kind.to_string(),
    }
}

#[test]
fn replica_set_resolves_to_deployment() {
    let pod_refs = vec![reference("rs1", "ReplicaSet", true)];
    let step = get_pod_owner(&pod_refs);
    let (kind, name, direct) = match step {
        OwnerStep::Lookup { kind, name, direct } => (kind, name, direct),
        other => panic!("expected a lookup, got {other:?}"),
    };
    assert_eq!(kind, ExpandableKind::ReplicaSet);
    assert_eq!(name, "rs1");
    assert_eq!(direct, owner("rs1", "ReplicaSet"));

    let parent_refs = vec![reference("dep1", "Deployment", true)];
    assert_eq!(owner_after_lookup(direct, &parent_refs), owner("dep1", "Deployment"));
}

#[test]
fn daemon_set_is_its_own_owner() {
    let pod_refs = vec![reference("ds1", "DaemonSet", true)];
    assert_eq!(get_pod_owner(&pod_refs), OwnerStep::Resolved(owner("ds1", "DaemonSet")));
}

#[test]
fn job_without_controller_falls_back() {
    let pod_refs = vec![reference("job1", "Job", true)];
    let direct = match get_pod_owner(&pod_refs) {
        OwnerStep::Lookup { kind, direct, .. } => {
            assert_eq!(kind, ExpandableKind::Job);
            direct
        }
        other => panic!("expected a lookup, got {other:?}"),
    };
    let parent_refs = vec![reference("other", "Thing", false)];
    assert_eq!(owner_after_lookup(direct, &parent_refs), owner("job1", "Job"));
}

#[test]
fn job_resolves_to_cron_job() {
    let pod_refs = vec![reference("job1", "Job", true)];
    let direct = match get_pod_owner(&pod_refs) {
        OwnerStep::Lookup { direct, .. } => direct,
        other => panic!("expected a lookup, got {other:?}"),
    };
    let parent_refs = vec![reference("cron1", "CronJob", true)];
    assert_eq!(owner_after_lookup(direct, &parent_refs), owner("cron1", "CronJob"));
}

#[test]
fn no_controller_means_no_owner() {
    assert_eq!(get_pod_owner(&vec![]), OwnerStep::Unowned);
    let refs = vec![reference("rs1", "ReplicaSet", false)];
    assert_eq!(get_pod_owner(&refs), OwnerStep::Unowned);
}

#[test]
fn first_controller_wins() {
    let refs = vec![
        reference("a", "StatefulSet", false),
        reference("b", "StatefulSet", true),
        reference("c", "DaemonSet", true),
    ];
    assert_eq!(extract_owner(&refs), Some(reference("b", "StatefulSet", true)));
    assert_eq!(get_pod_owner(&refs), OwnerStep::Resolved(owner("b", "StatefulSet")));
}

#[test]
fn lookup_needs_exactly_one_match() {
    assert_eq!(single_match(vec![7]), Ok(7));
    assert_eq!(single_match(Vec::<u8>::new()), Err(LookupError::NotFound));
    assert_eq!(single_match(vec![1, 2]), Err(LookupError::Ambiguous));
}
