use proxmon::host::Host;
use proxmon::host::HostType;
use proxmon::sort::host_compare;
use proxmon::sort::sort_hosts;
use proxmon::sort::SortColumn;
use proxmon::sort::SortDirection;
use proxmon::text::Cmp;

fn host(name: &str, kind: HostType, status: &str, ip: Option<&str>, node: Option<&str>) -> Host {
    Host {
        name: name.to_string(),
        host_type: kind,
        status: status.to_string(),
        ip: ip.map(|s| s.to_string()),
        node: node.map(|s| s.to_string()),
        vmid: None,
        ansible_user: None,
    }
}

fn names(hosts: &Vec<Host>) -> Vec<String> {
    hosts.iter().map(|h| h.name.clone()).collect()
}

#[test]
fn name_sort_is_case_insensitive() {
    let mut hosts = vec![
        host("b-host", HostType::VM, "running", None, None),
        host("A-host", HostType::VM, "running", None, None),
    ];
    sort_hosts(&mut hosts, &SortColumn::Name, &SortDirection::Ascending);
    assert_eq!(names(&hosts), vec!["A-host".to_string(), "b-host".to_string()]);
}

#[test]
fn sorting_twice_gives_identical_order() {
    let mut hosts = vec![
        host("delta", HostType::LXC, "stopped", Some("10.0.0.7"), Some("n2")),
        host("alpha", HostType::VM, "running", Some("10.0.0.9"), Some("n1")),
        host("Charlie", HostType::VM, "running", None, Some("n3")),
    ];
    sort_hosts(&mut hosts, &SortColumn::Name, &SortDirection::Ascending);
    let once = names(&hosts);
    sort_hosts(&mut hosts, &SortColumn::Name, &SortDirection::Ascending);
    assert_eq!(names(&hosts), once);
    assert_eq!(once, vec!["alpha".to_string(), "Charlie".to_string(), "delta".to_string()]);
}

#[test]
fn missing_ip_sorts_last_in_both_directions() {
    for dir in [SortDirection::Ascending, SortDirection::Descending] {
        let mut hosts = vec![
            host("x", HostType::VM, "running", None, None),
            host("y", HostType::VM, "running", Some("10.0.0.2"), None),
            host("z", HostType::VM, "running", Some("10.0.0.1"), None),
        ];
        sort_hosts(&mut hosts, &SortColumn::IpAddress, &dir);
        assert!(hosts[0].ip.is_some());
        assert!(hosts[1].ip.is_some());
        assert!(hosts[2].ip.is_none(), "direction {:?}", dir);
    }
}

#[test]
fn ip_sort_compares_numerically() {
    let mut hosts = vec![
        host("a", HostType::VM, "running", Some("10.0.0.2"), None),
        host("b", HostType::VM, "running", Some("9.0.0.1"), None),
    ];
    sort_hosts(&mut hosts, &SortColumn::IpAddress, &SortDirection::Ascending);
    assert_eq!(names(&hosts), vec!["b".to_string(), "a".to_string()]);
}

#[test]
fn unparseable_ips_fall_back_to_text_order() {
    let mut hosts = vec![
        host("a", HostType::VM, "running", Some("zzz"), None),
        host("b", HostType::VM, "running", Some("abc"), None),
    ];
    sort_hosts(&mut hosts, &SortColumn::IpAddress, &SortDirection::Ascending);
    assert_eq!(names(&hosts), vec!["b".to_string(), "a".to_string()]);
}

#[test]
fn toggling_direction_reverses_distinct_rows() {
    let mut ascending = vec![
        host("m3", HostType::VM, "running", Some("10.0.0.3"), None),
        host("m1", HostType::VM, "running", Some("10.0.0.1"), None),
        host("m2", HostType::VM, "running", Some("10.0.0.2"), None),
    ];
    let mut descending = vec![
        host("m3", HostType::VM, "running", Some("10.0.0.3"), None),
        host("m1", HostType::VM, "running", Some("10.0.0.1"), None),
        host("m2", HostType::VM, "running", Some("10.0.0.2"), None),
    ];
    sort_hosts(&mut ascending, &SortColumn::IpAddress, &SortDirection::Ascending);
    sort_hosts(&mut descending, &SortColumn::IpAddress, &SortDirection::Descending);
    let mut reversed = names(&ascending);
    reversed.reverse();
    assert_eq!(names(&descending), reversed);
}

#[test]
fn kind_and_status_and_node_columns_order_rows() {
    let mut hosts = vec![
        host("a", HostType::VM, "running", None, Some("n2")),
        host("b", HostType::LXC, "stopped", None, Some("n1")),
        host("c", HostType::Physical, "unknown", None, None),
    ];
    sort_hosts(&mut hosts, &SortColumn::Type, &SortDirection::Ascending);
    assert_eq!(names(&hosts), vec!["b".to_string(), "c".to_string(), "a".to_string()]);
    sort_hosts(&mut hosts, &SortColumn::Status, &SortDirection::Ascending);
    assert_eq!(names(&hosts), vec!["a".to_string(), "b".to_string(), "c".to_string()]);
    sort_hosts(&mut hosts, &SortColumn::Node, &SortDirection::Ascending);
    assert_eq!(names(&hosts), vec!["b".to_string(), "a".to_string(), "c".to_string()]);
    assert!(hosts[2].node.is_none());
}

#[test]
fn comparator_mixes_parseable_and_unparseable_by_text_order() {
    // Both parse: numeric, so "9.0.0.1" orders before "10.0.0.2".
    let a = host("a", HostType::VM, "running", Some("9.0.0.1"), None);
    let b = host("b", HostType::VM, "running", Some("10.0.0.2"), None);
    assert_eq!(
        host_compare(&SortColumn::IpAddress, &SortDirection::Ascending, &a, &b),
        Cmp::Lt
    );
    // One side does not parse: plain text order, so "10.x" orders first.
    let c = host("c", HostType::VM, "running", Some("10.x"), None);
    assert_eq!(
        host_compare(&SortColumn::IpAddress, &SortDirection::Ascending, &a, &c),
        Cmp::Gt
    );
    // A missing address sorts last whatever the direction.
    let d = host("d", HostType::VM, "running", None, None);
    assert_eq!(
        host_compare(&SortColumn::IpAddress, &SortDirection::Ascending, &c, &d),
        Cmp::Lt
    );
    assert_eq!(
        host_compare(&SortColumn::IpAddress, &SortDirection::Descending, &a, &d),
        Cmp::Lt
    );
}
