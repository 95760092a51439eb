use kube_audit::owner::Owner;
use kube_audit::quantity::ParseError;
use kube_audit::record::{
    dedup_records, generate_pod_output, is_running, merge_all_usage, merge_usage, pod_to_output,
    Container, ContainerUsage, Pod, PodUsage, QuantityPair, Record, ResourceField,
    ResourceRequirements,
};
use kube_audit::report::build_report;
use kube_audit::resources::{ResourcePair, Resources, UsageDifference};
use kube_audit::units::{Cpu, Memory};

fn quantities(cpu: Option<&str>, memory: Option<&str>) -> QuantityPair {
    QuantityPair {
        cpu: cpu.map(str::to_string),
        memory: memory.map(str::to_string),
    }
}

fn container(name: &str, resources: Option<ResourceRequirements>) -> Container {
    Container {
        name: name.to_string(),
        resources,
        read_only_root_filesystem: None,
        has_liveness_probe: false,
        has_readiness_probe: false,
    }
}

fn declared(requests_cpu: &str, requests_memory: &str) -> ResourceRequirements {
    ResourceRequirements {
        requests: quantities(Some(requests_cpu), Some(requests_memory)),
        limits: quantities(None, None),
        empty: false,
    }
}

fn pod(phase: Option<&str>, containers: Option<Vec<Container>>) -> Pod {
    Pod {
        name: "web-1".to_string(),
        namespace: "shop".to_string(),
        phase: phase.map(str::to_string),
        owner_references: vec![],
        containers,
    }
}

fn none_pair() -> ResourcePair {
    ResourcePair {
        cpu: None,
        memory: None,
    }
}

fn usage(name: &str, cpu: &str, memory: &str) -> ContainerUsage {
    ContainerUsage {
        name: name.to_string(),
        cpu: cpu.to_string(),
        memory: memory.to_string(),
    }
}

fn record_for(container_name: &str, requests_cpu: u64) -> Record {
    Record {
        namespace: "shop".to_string(),
        pod_name: "web-1".to_string(),
        container_name: container_name.to_string(),
        owner: None,
        resources: Resources {
            usage: none_pair(),
            requests: ResourcePair {
                cpu: Some(Cpu(requests_cpu)),
                memory: None,
            },
            limits: none_pair(),
            difference: UsageDifference {
                requests: none_pair(),
                limits: none_pair(),
            },
        },
    }
}

#[test]
fn running_needs_phase_and_spec() {
    assert!(is_running(&pod(Some("Running"), Some(vec![]))));
    assert!(!is_running(&pod(Some("Pending"), Some(vec![]))));
    assert!(!is_running(&pod(None, Some(vec![]))));
    assert!(!is_running(&pod(Some("Running"), None)));
}

#[test]
fn record_normalises_declarations() {
    let owner = Owner {
        name: "web".to_string(),
        kind: "Deployment".to_string(),
    };
    let c = Container {
        name: "app".to_string(),
        resources: Some(ResourceRequirements {
            requests: quantities(Some("250m"), Some("64Mi")),
            limits: quantities(Some("1"), None),
            empty: false,
        }),
        read_only_root_filesystem: None,
        has_liveness_probe: true,
        has_readiness_probe: false,
    };
    let r = generate_pod_output("web-1".to_string(), "shop".to_string(), Some(owner.clone()), &c)
        .unwrap();
    assert_eq!(r.container_name, "app");
    assert_eq!(r.owner, Some(owner));
    assert_eq!(r.resources.requests.cpu, Some(Cpu(250)));
    assert_eq!(r.resources.requests.memory, Some(Memory(67_108_864)));
    assert_eq!(r.resources.limits.cpu, Some(Cpu(1000)));
    assert_eq!(r.resources.limits.memory, None);
    assert_eq!(r.resources.usage, none_pair());
}

#[test]
fn record_error_names_the_field() {
    let c = container(
        "app",
        Some(ResourceRequirements {
            requests: quantities(Some("100m"), None),
            limits: quantities(Some("1"), Some("1Qi")),
            empty: false,
        }),
    );
    let e = generate_pod_output("web-1".to_string(), "shop".to_string(), None, &c).unwrap_err();
    assert_eq!(e.field, ResourceField::LimitsMemory);
    assert_eq!(e.error, ParseError::UnknownSuffix);
    assert_eq!(e.namespace, "shop");
    assert_eq!(e.pod_name, "web-1");
    assert_eq!(e.container_name, "app");
}

#[test]
fn pod_records_skip_containers_without_resources() {
    let p = pod(
        Some("Running"),
        Some(vec![
            container("a", Some(declared("100m", "1Mi"))),
            container("b", None),
            container("c", Some(declared("2", "1Gi"))),
        ]),
    );
    let records = pod_to_output(&p, None).unwrap();
    let names: Vec<&str> = records.iter().map(|r| r.container_name.as_str()).collect();
    assert_eq!(names, vec!["a", "c"]);
    assert_eq!(records[1].resources.requests.cpu, Some(Cpu(2000)));
}

#[test]
fn pod_records_of_pod_not_running_are_empty() {
    let p = pod(
        Some("Succeeded"),
        Some(vec![container("a", Some(declared("100m", "1Mi")))]),
    );
    assert_eq!(pod_to_output(&p, None).unwrap(), vec![]);
}

#[test]
fn pod_records_fail_on_malformed_request() {
    let p = pod(
        Some("Running"),
        Some(vec![
            container("a", Some(declared("100m", "1Mi"))),
            container("b", Some(declared("lots", "1Mi"))),
        ]),
    );
    let e = pod_to_output(&p, None).unwrap_err();
    assert_eq!(e.container_name, "b");
    assert_eq!(e.field, ResourceField::RequestsCpu);
    assert_eq!(e.error, ParseError::NotANumber);
}

#[test]
fn merge_fills_usage_and_differences() {
    let mut rec = record_for("app", 100);
    rec.resources.limits.cpu = Some(Cpu(500));
    rec.resources.requests.memory = Some(Memory(1_048_576));
    let metrics = vec![usage("sidecar", "5m", "1Ki"), usage("app", "40m", "1Ki")];
    let merged = merge_usage(rec, Some(&metrics)).unwrap();
    assert_eq!(merged.resources.usage.cpu, Some(Cpu(40)));
    assert_eq!(merged.resources.usage.memory, Some(Memory(1024)));
    assert_eq!(merged.resources.difference.requests.cpu, Some(Cpu(60)));
    assert_eq!(
        merged.resources.difference.requests.memory,
        Some(Memory(1_047_552))
    );
    assert_eq!(merged.resources.difference.limits.cpu, Some(Cpu(460)));
    assert_eq!(merged.resources.difference.limits.memory, None);
}

#[test]
fn merge_saturates_difference() {
    let rec = record_for("app", 100);
    let metrics = vec![usage("app", "150m", "1Ki")];
    let merged = merge_usage(rec, Some(&metrics)).unwrap();
    assert_eq!(merged.resources.difference.requests.cpu, Some(Cpu(0)));
}

#[test]
fn merge_without_matching_container_leaves_no_usage() {
    let rec = record_for("app", 100);
    let metrics = vec![usage("other", "40m", "1Ki")];
    let merged = merge_usage(rec.clone(), Some(&metrics)).unwrap();
    assert_eq!(merged, rec);
}

#[test]
fn merge_reports_malformed_usage() {
    let rec = record_for("app", 100);
    let metrics = vec![usage("app", "40m", "x")];
    let e = merge_usage(rec, Some(&metrics)).unwrap_err();
    assert_eq!(e.field, ResourceField::UsageMemory);
    assert_eq!(e.error, ParseError::NotANumber);
}

#[test]
fn missing_metrics_keep_the_record() {
    let rec = record_for("app", 100);
    let merged = merge_usage(rec.clone(), None).unwrap();
    assert_eq!(merged, rec);
    assert_eq!(merged.resources.usage, none_pair());
    let report = build_report(vec![merged], Some(50), false);
    assert_eq!(report.records, vec![rec]);
}

#[test]
fn dedup_keeps_first_of_each_key() {
    let a = record_for("app", 100);
    let b = record_for("app", 200);
    let c = record_for("sidecar", 300);
    let kept = dedup_records(vec![a.clone(), b, c.clone()]);
    assert_eq!(kept, vec![a, c]);
}

#[test]
fn merge_all_matches_records_to_their_pod() {
    let a = record_for("app", 100);
    let mut b = record_for("app", 100);
    b.pod_name = "web-2".to_string();
    let mut c = record_for("app", 100);
    c.pod_name = "web-3".to_string();
    let metrics = vec![
        PodUsage {
            namespace: "shop".to_string(),
            pod_name: "web-2".to_string(),
            containers: Some(vec![usage("app", "70m", "2Ki")]),
        },
        PodUsage {
            namespace: "shop".to_string(),
            pod_name: "web-1".to_string(),
            containers: None,
        },
        PodUsage {
            namespace: "other".to_string(),
            pod_name: "web-3".to_string(),
            containers: Some(vec![usage("app", "5m", "1Ki")]),
        },
    ];
    let merged = merge_all_usage(vec![a.clone(), b, c.clone()], &metrics).unwrap();
    assert_eq!(merged[0], a);
    assert_eq!(merged[1].resources.usage.cpu, Some(Cpu(70)));
    assert_eq!(merged[1].resources.difference.requests.cpu, Some(Cpu(30)));
    assert_eq!(merged[2], c);
}

#[test]
fn merge_all_reports_first_error() {
    let a = record_for("app", 100);
    let metrics = vec![PodUsage {
        namespace: "shop".to_string(),
        pod_name: "web-1".to_string(),
        containers: Some(vec![usage("app", "1Qi", "1Ki")]),
    }];
    let e = merge_all_usage(vec![a], &metrics).unwrap_err();
    assert_eq!(e.field, ResourceField::UsageCpu);
    assert_eq!(e.error, ParseError::UnknownSuffix);
}

#[test]
fn empty_resources_block_gives_no_record() {
    let empty_block = ResourceRequirements {
        requests: quantities(None, None),
        limits: quantities(None, None),
        empty: true,
    };
    let p = pod(Some("Running"), Some(vec![container("idle", Some(empty_block))]));
    assert_eq!(pod_to_output(&p, None).unwrap(), vec![]);
}

#[test]
fn block_with_other_resources_gives_a_record() {
    let gpu_only = ResourceRequirements {
        requests: quantities(None, None),
        limits: quantities(None, None),
        empty: false,
    };
    let p = pod(Some("Running"), Some(vec![container("gpu", Some(gpu_only))]));
    let records = pod_to_output(&p, None).unwrap();
    assert_eq!(records.len(), 1);
    assert_eq!(records[0].container_name, "gpu");
    assert_eq!(records[0].resources.requests, none_pair());
    assert_eq!(records[0].resources.limits, none_pair());
}
