use kube_audit::aggregate::{namespace_totals, owner_totals, NamespaceTotal, OwnerTotal};
use kube_audit::owner::Owner;
use kube_audit::record::Record;
use kube_audit::report::{build_report, distinct_pods};
use kube_audit::resources::{ResourcePair, Resources, UsageDifference};
use kube_audit::units::{Cpu, Memory};

fn pair(cpu: Option<u64>, memory: Option<u64>) -> ResourcePair {
    ResourcePair {
        cpu: cpu.map(Cpu),
        memory: memory.map(Memory),
    }
}

fn res(requests: ResourcePair, usage: ResourcePair) -> Resources {
    Resources {
        usage,
        requests,
        limits: pair(None, None),
        difference: UsageDifference {
            requests: requests.sub(&usage),
            limits: pair(None, None),
        },
    }
}

fn owner(name: &str) -> Owner {
    Owner {
        name: name.to_string(),
        kind: "Deployment".to_string(),
    }
}

fn record(ns: &str, pod: &str, owner: Option<Owner>, resources: Resources) -> Record {
    Record {
        namespace: ns.to_string(),
        pod_name: pod.to_string(),
        container_name: "app".to_string(),
        owner,
        resources,
    }
}

fn sample() -> Vec<Record> {
    vec![
        record(
            "a",
            "p1",
            Some(owner("web")),
            res(pair(Some(100), Some(1000)), pair(Some(40), None)),
        ),
        record("b", "p2", None, res(pair(Some(300), None), pair(None, None))),
        record(
            "a",
            "p3",
            Some(owner("web")),
            res(pair(Some(50), None), pair(Some(70), Some(10))),
        ),
        record("a", "p4", Some(owner("db")), res(pair(None, Some(5)), pair(None, None))),
    ]
}

fn find_ns<'a>(totals: &'a [NamespaceTotal], ns: &str) -> &'a NamespaceTotal {
    totals.iter().find(|t| t.namespace == ns).unwrap()
}

fn find_owner<'a>(totals: &'a [OwnerTotal], name: &str) -> &'a OwnerTotal {
    totals.iter().find(|t| t.owner.name == name).unwrap()
}

#[test]
fn coalescing_add_of_pairs() {
    let three = pair(Some(3), None);
    let four = pair(Some(4), None);
    assert_eq!(three.add(&four).cpu, Some(Cpu(7)));
    assert_eq!(three.add(&pair(None, None)).cpu, Some(Cpu(3)));
    assert_eq!(pair(None, None).add(&three).cpu, Some(Cpu(3)));
    assert_eq!(pair(None, None).add(&pair(None, None)), pair(None, None));
    assert_eq!(
        pair(Some(1), Some(2)).add(&pair(None, Some(5))),
        pair(Some(1), Some(7))
    );
}

#[test]
fn saturating_sub_of_pairs() {
    assert_eq!(
        pair(Some(100), Some(10)).sub(&pair(Some(40), Some(20))),
        pair(Some(60), Some(0))
    );
    assert_eq!(
        pair(Some(100), None).sub(&pair(None, Some(20))),
        pair(None, None)
    );
}

#[test]
fn namespace_totals_sum_members() {
    let records = sample();
    let totals = namespace_totals(&records);
    assert_eq!(totals.len(), 2);
    assert_eq!(totals[0].namespace, "a");
    let a = find_ns(&totals, "a");
    assert_eq!(a.resources.requests, pair(Some(150), Some(1005)));
    assert_eq!(a.resources.usage, pair(Some(110), Some(10)));
    assert_eq!(a.resources.difference.requests, pair(Some(60), None));
    let b = find_ns(&totals, "b");
    assert_eq!(b.resources.requests, pair(Some(300), None));
    assert_eq!(b.resources.usage, pair(None, None));
}

#[test]
fn owner_totals_sum_members() {
    let records = sample();
    let totals = owner_totals(&records);
    assert_eq!(totals.len(), 2);
    let web = find_owner(&totals, "web");
    assert_eq!(web.resources.requests, pair(Some(150), Some(1000)));
    assert_eq!(web.resources.usage, pair(Some(110), Some(10)));
    let db = find_owner(&totals, "db");
    assert_eq!(db.resources.requests, pair(None, Some(5)));
}

#[test]
fn totals_ignore_record_order() {
    let records = sample();
    let mut reversed = sample();
    reversed.reverse();
    let mut rotated = sample();
    rotated.rotate_left(1);
    for other in [reversed, rotated] {
        let ns1 = namespace_totals(&records);
        let ns2 = namespace_totals(&other);
        assert_eq!(ns1.len(), ns2.len());
        for t in &ns1 {
            assert_eq!(t.resources, find_ns(&ns2, &t.namespace).resources);
        }
        let o1 = owner_totals(&records);
        let o2 = owner_totals(&other);
        assert_eq!(o1.len(), o2.len());
        for t in &o1 {
            assert_eq!(t.resources, find_owner(&o2, &t.owner.name).resources);
        }
    }
}

#[test]
fn add_assign_accumulates() {
    let records = sample();
    let mut total = NamespaceTotal {
        namespace: "a".to_string(),
        resources: records[0].resources,
    };
    total.add_assign(&records[2]);
    assert_eq!(total.resources.requests.cpu, Some(Cpu(150)));
    let mut by_owner = OwnerTotal {
        owner: owner("web"),
        resources: records[0].resources,
    };
    by_owner.add_assign(&records[2]);
    assert_eq!(by_owner.resources.usage.memory, Some(Memory(10)));
}

#[test]
fn report_totals_cover_retained_records_only() {
    let report = build_report(sample(), Some(50), false);
    let pods: Vec<&str> = report.records.iter().map(|r| r.pod_name.as_str()).collect();
    assert_eq!(pods, vec!["p1", "p2", "p3", "p4"]);
    let report = build_report(
        vec![
            record("a", "p1", None, res(pair(Some(100), None), pair(Some(90), None))),
            record("a", "p2", None, res(pair(Some(100), None), pair(Some(10), None))),
        ],
        Some(50),
        false,
    );
    assert_eq!(report.records.len(), 1);
    assert_eq!(report.records[0].pod_name, "p2");
    assert_eq!(report.namespace_totals.len(), 1);
    assert_eq!(report.namespace_totals[0].resources.usage.cpu, Some(Cpu(10)));
    assert!(report.owner_totals.is_empty());
}

#[test]
fn distinct_pods_lists_each_pod_once() {
    let mut records = sample();
    let mut second = records[0].clone();
    second.container_name = "sidecar".to_string();
    records.push(second);
    let pods = distinct_pods(&records);
    assert_eq!(
        pods,
        vec![
            ("a".to_string(), "p1".to_string()),
            ("b".to_string(), "p2".to_string()),
            ("a".to_string(), "p3".to_string()),
            ("a".to_string(), "p4".to_string()),
        ]
    );
}

#[test]
fn permuted_runs_give_the_same_report() {
    let records = vec![
        record("a", "p1", Some(owner("web")), res(pair(Some(100), None), pair(Some(90), None))),
        record("a", "p2", Some(owner("web")), res(pair(Some(100), None), pair(Some(10), None))),
        record("b", "p3", Some(owner("db")), res(pair(Some(100), None), pair(Some(150), None))),
        record("b", "p4", None, res(pair(None, Some(64)), pair(None, None))),
    ];
    let mut permuted = records.clone();
    permuted.swap(0, 3);
    permuted.swap(1, 2);
    let r1 = build_report(records, Some(50), false);
    let r2 = build_report(permuted, Some(50), false);

    let mut pods1: Vec<&str> = r1.records.iter().map(|r| r.pod_name.as_str()).collect();
    let mut pods2: Vec<&str> = r2.records.iter().map(|r| r.pod_name.as_str()).collect();
    pods1.sort();
    pods2.sort();
    assert_eq!(pods1, vec!["p2", "p3", "p4"]);
    assert_eq!(pods1, pods2);

    assert_eq!(r1.namespace_totals.len(), r2.namespace_totals.len());
    for t in &r1.namespace_totals {
        assert_eq!(t.resources, find_ns(&r2.namespace_totals, &t.namespace).resources);
    }
    assert_eq!(r1.owner_totals.len(), r2.owner_totals.len());
    for t in &r1.owner_totals {
        assert_eq!(t.resources, find_owner(&r2.owner_totals, &t.owner.name).resources);
    }
    assert_eq!(find_ns(&r1.namespace_totals, "b").resources.requests, pair(Some(100), Some(64)));
}

#[test]
fn add_assign_in_any_order_gives_the_same_total() {
    let records = sample();
    let start = NamespaceTotal {
        namespace: "all".to_string(),
        resources: res(pair(None, None), pair(None, None)),
    };
    let mut forward = NamespaceTotal { namespace: start.namespace.clone(), resources: start.resources };
    for r in &records {
        forward.add_assign(r);
    }
    let mut backward = start;
    for r in records.iter().rev() {
        backward.add_assign(r);
    }
    assert_eq!(forward, backward);
    assert_eq!(forward.resources.requests, pair(Some(450), Some(1005)));
}
