use proxmon::fetch::collect_clusters;
use proxmon::fetch::ClusterOutcome;
use proxmon::host::Host;
use proxmon::host::HostType;
use proxmon::host::IpOverride;
use proxmon::host::ManualHost;
use proxmon::reconcile::reconcile;

fn vm(name: &str, ip: Option<&str>, node: &str) -> Host {
    Host {
        name: name.to_string(),
        host_type: HostType::VM,
        status: "running".to_string(),
        ip: ip.map(|s| s.to_string()),
        node: Some(node.to_string()),
        vmid: Some(100),
        ansible_user: Some("gozy".to_string()),
    }
}

#[test]
fn override_wins_and_others_stay() {
    let hosts = vec![vm("a", Some("10.0.0.1"), "n1"), vm("b", Some("10.0.0.2"), "n1")];
    let overrides = vec![IpOverride { name: "a".to_string(), ip: "192.168.0.9".to_string() }];
    let manual: Vec<ManualHost> = Vec::new();
    let merged = reconcile(hosts, &overrides, &manual);
    assert_eq!(merged.len(), 2);
    assert_eq!(merged[0].ip.as_deref(), Some("192.168.0.9"));
    assert_eq!(merged[1].ip.as_deref(), Some("10.0.0.2"));
    assert_eq!(merged[0].name, "a");
    assert_eq!(merged[0].status, "running");
}

#[test]
fn override_applies_even_without_resolved_ip() {
    let hosts = vec![vm("a", None, "n1")];
    let overrides = vec![IpOverride { name: "a".to_string(), ip: "172.16.0.4".to_string() }];
    let manual: Vec<ManualHost> = Vec::new();
    let merged = reconcile(hosts, &overrides, &manual);
    assert_eq!(merged[0].ip.as_deref(), Some("172.16.0.4"));
}

#[test]
fn manual_hosts_appended_as_physical() {
    let hosts = vec![vm("a", Some("10.0.0.1"), "n1")];
    let overrides: Vec<IpOverride> = Vec::new();
    let manual = vec![
        ManualHost {
            name: "gw-01".to_string(),
            ip: "10.0.0.1".to_string(),
            host_type: "physical".to_string(),
            ansible_user: "root".to_string(),
        },
        ManualHost {
            name: "nas".to_string(),
            ip: "10.0.0.2".to_string(),
            host_type: "physical".to_string(),
            ansible_user: "admin".to_string(),
        },
    ];
    let merged = reconcile(hosts, &overrides, &manual);
    assert_eq!(merged.len(), 3);
    for m in &merged[1..] {
        assert_eq!(m.host_type, HostType::Physical);
        assert_eq!(m.status, "unknown");
        assert!(m.node.is_none());
        assert!(m.vmid.is_none());
    }
    assert_eq!(merged[1].name, "gw-01");
    assert_eq!(merged[1].ip.as_deref(), Some("10.0.0.1"));
    assert_eq!(merged[1].ansible_user.as_deref(), Some("root"));
    assert_eq!(merged[2].name, "nas");
}

#[test]
fn manual_hosts_are_not_subject_to_overrides() {
    let hosts: Vec<Host> = Vec::new();
    let overrides = vec![IpOverride { name: "gw-01".to_string(), ip: "9.9.9.9".to_string() }];
    let manual = vec![ManualHost {
        name: "gw-01".to_string(),
        ip: "10.0.0.1".to_string(),
        host_type: "physical".to_string(),
        ansible_user: "root".to_string(),
    }];
    let merged = reconcile(hosts, &overrides, &manual);
    assert_eq!(merged[0].ip.as_deref(), Some("10.0.0.1"));
}

#[test]
fn empty_string_names_match_overrides() {
    let hosts = vec![vm("", Some("10.0.0.1"), "n1")];
    let overrides = vec![IpOverride { name: "".to_string(), ip: "10.9.9.9".to_string() }];
    let manual: Vec<ManualHost> = Vec::new();
    let merged = reconcile(hosts, &overrides, &manual);
    assert_eq!(merged[0].ip.as_deref(), Some("10.9.9.9"));
}

#[test]
fn end_to_end_two_clusters_with_override_and_manual() {
    let cluster1 = ClusterOutcome {
        name: "cluster1".to_string(),
        outcome: Ok(vec![Host {
            name: "web-01".to_string(),
            host_type: HostType::VM,
            status: "running".to_string(),
            ip: Some("10.0.0.5".to_string()),
            node: Some("pve1".to_string()),
            vmid: Some(100),
            ansible_user: Some("gozy".to_string()),
        }]),
    };
    let cluster2 = ClusterOutcome { name: "cluster2".to_string(), outcome: Ok(Vec::new()) };
    let (gathered, errors) = collect_clusters(vec![cluster1, cluster2]);
    assert!(errors.is_empty());
    let overrides = vec![IpOverride { name: "web-01".to_string(), ip: "10.0.0.99".to_string() }];
    let manual = vec![ManualHost {
        name: "gw-01".to_string(),
        ip: "10.0.0.1".to_string(),
        host_type: "physical".to_string(),
        ansible_user: "root".to_string(),
    }];
    let merged = reconcile(gathered, &overrides, &manual);
    assert_eq!(merged.len(), 2);
    assert_eq!(merged[0].name, "web-01");
    assert_eq!(merged[0].host_type, HostType::VM);
    assert_eq!(merged[0].status, "running");
    assert_eq!(merged[0].ip.as_deref(), Some("10.0.0.99"));
    assert_eq!(merged[0].node.as_deref(), Some("pve1"));
    assert_eq!(merged[1].name, "gw-01");
    assert_eq!(merged[1].host_type, HostType::Physical);
    assert_eq!(merged[1].status, "unknown");
    assert_eq!(merged[1].ip.as_deref(), Some("10.0.0.1"));
    assert!(merged[1].node.is_none());
}
