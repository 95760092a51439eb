use kube_audit::filter::{filter_records, keep_record};
use kube_audit::resources::{ResourcePair, Resources, UsageDifference};
use kube_audit::units::Cpu;

fn pair(cpu: Option<u64>) -> ResourcePair {
    ResourcePair {
        cpu: cpu.map(Cpu),
        memory: None,
    }
}

fn resources(requests: Option<u64>, usage: Option<u64>) -> Resources {
    Resources {
        usage: pair(usage),
        requests: pair(requests),
        limits: pair(None),
        difference: UsageDifference {
            requests: pair(None),
            limits: pair(None),
        },
    }
}

#[test]
fn over_consumption_is_retained() {
    let r = resources(Some(100), Some(150));
    assert!(keep_record(&r, Some(50), false));
    assert!(keep_record(&r, Some(50), true));
    assert!(keep_record(&r, None, false));
}

#[test]
fn large_slack_is_retained() {
    assert!(keep_record(&resources(Some(100), Some(40)), Some(50), false));
}

#[test]
fn small_slack_is_dropped() {
    assert!(!keep_record(&resources(Some(100), Some(90)), Some(50), false));
    assert!(!keep_record(&resources(Some(100), Some(50)), Some(50), false));
    assert!(!keep_record(&resources(Some(100), Some(100)), Some(0), false));
}

#[test]
fn skip_flag_retains() {
    assert!(keep_record(&resources(Some(100), Some(90)), Some(50), true));
}

#[test]
fn missing_data_or_threshold_retains() {
    assert!(keep_record(&resources(Some(100), Some(90)), None, false));
    assert!(keep_record(&resources(None, Some(90)), Some(50), false));
    assert!(keep_record(&resources(Some(100), None), Some(50), false));
    assert!(keep_record(&resources(None, None), Some(50), false));
}

#[test]
fn filter_keeps_order_of_retained_records() {
    let make = |name: &str, requests: u64, usage: u64| kube_audit::record::Record {
        namespace: "ns".to_string(),
        pod_name: "pod".to_string(),
        container_name: name.to_string(),
        owner: None,
        resources: resources(Some(requests), Some(usage)),
    };
    let records = vec![
        make("a", 100, 150),
        make("b", 100, 90),
        make("c", 100, 40),
    ];
    let kept = filter_records(records, Some(50), false);
    let names: Vec<&str> = kept.iter().map(|r| r.container_name.as_str()).collect();
    assert_eq!(names, vec!["a", "c"]);
}
