use proxmon::config::ProxmoxHost;
use proxmon::fetch::api_base_url;
use proxmon::fetch::auth_header_value;
use proxmon::fetch::collect_clusters;
use proxmon::fetch::config_path;
use proxmon::fetch::ifaces_path;
use proxmon::fetch::nodes_path;
use proxmon::fetch::units_path;
use proxmon::fetch::ClusterFetch;
use proxmon::fetch::ClusterOutcome;
use proxmon::fetch::FetchAction;
use proxmon::fetch::FetchEvent;
use proxmon::fetch::UnitInfo;
use proxmon::fetch::UnitKind;
use proxmon::host::Host;
use proxmon::host::HostType;

fn cfg() -> ProxmoxHost {
    ProxmoxHost {
        name: "lab".to_string(),
        host: "pve.example".to_string(),
        port: 8006,
        api_token_id: "root@pam!tok".to_string(),
        api_token_secret: "SECRET-REDACTED".to_string(),
        verify_ssl: false,
    }
}

#[test]
fn request_strings_are_exact() {
    let c = cfg();
    assert_eq!(api_base_url(&c), "https://pve.example:8006/api2/json");
    assert_eq!(auth_header_value(&c), "PVEAPIToken=root@pam!tok=SECRET-REDACTED");
    assert_eq!(nodes_path(), "/nodes");
    let node = "pve1".to_string();
    assert_eq!(units_path(&node, UnitKind::Vm), "/nodes/pve1/qemu");
    assert_eq!(units_path(&node, UnitKind::Lxc), "/nodes/pve1/lxc");
    assert_eq!(
        ifaces_path(&node, UnitKind::Vm, 100),
        "/nodes/pve1/qemu/100/agent/network-get-interfaces"
    );
    assert_eq!(ifaces_path(&node, UnitKind::Lxc, 101), "/nodes/pve1/lxc/101/interfaces");
    assert_eq!(config_path(&node, UnitKind::Vm, 100), "/nodes/pve1/qemu/100/config");
}

#[test]
fn failed_node_listing_is_fatal_to_the_pass() {
    let mut m = ClusterFetch::start();
    let act = m.step(FetchEvent::Nodes(Err("connection refused".to_string())));
    match act {
        FetchAction::Failed(msg) => assert_eq!(msg, "connection refused"),
        _ => panic!("expected the pass to fail"),
    }
}

#[test]
fn empty_node_list_finishes_with_no_hosts() {
    let mut m = ClusterFetch::start();
    let act = m.step(FetchEvent::Nodes(Ok(Vec::new())));
    assert!(matches!(act, FetchAction::Done));
    assert!(m.into_hosts().is_empty());
}

#[test]
fn full_pass_resolves_and_degrades_per_contract() {
    let mut m = ClusterFetch::start();
    let act = m.step(FetchEvent::Nodes(Ok(vec!["pve1".to_string()])));
    match act {
        FetchAction::GetUnits(node, kind) => {
            assert_eq!(node, "pve1");
            assert_eq!(kind, UnitKind::Vm);
        },
        _ => panic!("expected a unit listing request"),
    }
    // One VM; its agent answers with a usable address.
    let act = m.step(FetchEvent::Units(Some(vec![UnitInfo {
        vmid: 100,
        name: "web-01".to_string(),
        status: "running".to_string(),
    }])));
    match act {
        FetchAction::GetIfaces(node, kind, vmid) => {
            assert_eq!(node, "pve1");
            assert_eq!(kind, UnitKind::Vm);
            assert_eq!(vmid, 100);
        },
        _ => panic!("expected an interface request"),
    }
    let act = m.step(FetchEvent::Ifaces(Some(vec![
        Some("127.0.0.1".to_string()),
        Some("10.0.0.5".to_string()),
    ])));
    match act {
        FetchAction::GetUnits(node, kind) => {
            assert_eq!(node, "pve1");
            assert_eq!(kind, UnitKind::Lxc);
        },
        _ => panic!("expected the container listing next"),
    }
    // The container listing fails: it contributes nothing, the pass ends.
    let act = m.step(FetchEvent::Units(None));
    assert!(matches!(act, FetchAction::Done));
    let hosts = m.into_hosts();
    assert_eq!(hosts.len(), 1);
    assert_eq!(hosts[0].name, "web-01");
    assert_eq!(hosts[0].host_type, HostType::VM);
    assert_eq!(hosts[0].status, "running");
    assert_eq!(hosts[0].ip.as_deref(), Some("10.0.0.5"));
    assert_eq!(hosts[0].node.as_deref(), Some("pve1"));
    assert_eq!(hosts[0].vmid, Some(100));
    assert_eq!(hosts[0].ansible_user.as_deref(), Some("gozy"));
}

#[test]
fn unit_without_live_address_falls_back_to_config() {
    let mut m = ClusterFetch::start();
    m.step(FetchEvent::Nodes(Ok(vec!["pve1".to_string()])));
    m.step(FetchEvent::Units(Some(vec![UnitInfo {
        vmid: 7,
        name: "db".to_string(),
        status: "stopped".to_string(),
    }])));
    // The agent call fails outright: the protocol asks for the config.
    let act = m.step(FetchEvent::Ifaces(None));
    match act {
        FetchAction::GetNetConfig(node, kind, vmid) => {
            assert_eq!(node, "pve1");
            assert_eq!(kind, UnitKind::Vm);
            assert_eq!(vmid, 7);
        },
        _ => panic!("expected a config request"),
    }
    // The config call fails too: the unit is kept with no address.
    m.step(FetchEvent::NetConfig(None));
    m.step(FetchEvent::Units(None));
    let hosts = m.into_hosts();
    assert_eq!(hosts.len(), 1);
    assert_eq!(hosts[0].name, "db");
    assert!(hosts[0].ip.is_none());
}

#[test]
fn one_failed_cluster_never_suppresses_another() {
    let good_host = Host {
        name: "ok-vm".to_string(),
        host_type: HostType::VM,
        status: "running".to_string(),
        ip: Some("10.0.0.5".to_string()),
        node: Some("pve2".to_string()),
        vmid: Some(1),
        ansible_user: Some("gozy".to_string()),
    };
    let outcomes = vec![
        ClusterOutcome { name: "a".to_string(), outcome: Err("timeout".to_string()) },
        ClusterOutcome { name: "b".to_string(), outcome: Ok(vec![good_host]) },
    ];
    let (hosts, errors) = collect_clusters(outcomes);
    assert_eq!(hosts.len(), 1);
    assert_eq!(hosts[0].name, "ok-vm");
    assert_eq!(errors.len(), 1);
    assert_eq!(errors[0].cluster, "a");
    assert_eq!(errors[0].message, "timeout");
}
