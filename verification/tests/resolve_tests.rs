use proxmon::ipv4::parse_ipv4;
use proxmon::ipv4::split_str;
use proxmon::resolve::config_ip;
use proxmon::resolve::net_value_ip_of;
use proxmon::resolve::pick_lxc_ip;
use proxmon::resolve::pick_vm_ip;
use proxmon::resolve::resolve_ip;
use proxmon::resolve::strip_cidr_str;
use proxmon::resolve::ConfigEntry;

fn entry(key: &str, value: Option<&str>) -> ConfigEntry {
    ConfigEntry { key: key.to_string(), value: value.map(|s| s.to_string()) }
}

#[test]
fn agent_listing_skips_loopback_and_ipv6() {
    let addrs = vec![
        Some("127.0.0.1".to_string()),
        None,
        Some("fe80::1".to_string()),
        Some("10.1.2.3".to_string()),
    ];
    assert_eq!(pick_vm_ip(&addrs), Some("10.1.2.3".to_string()));
}

#[test]
fn agent_listing_strips_cidr_before_testing() {
    let addrs = vec![Some("127.0.0.1/8".to_string()), Some("10.1.2.3/24".to_string())];
    assert_eq!(pick_vm_ip(&addrs), Some("10.1.2.3".to_string()));
}

#[test]
fn agent_listing_with_nothing_usable_yields_none() {
    let addrs = vec![Some("127.0.0.1".to_string()), Some("::1".to_string())];
    assert_eq!(pick_vm_ip(&addrs), None);
}

#[test]
fn container_listing_strips_cidr_before_testing() {
    let inets = vec![
        Some("127.0.0.1/8".to_string()),
        Some("".to_string()),
        Some("192.168.7.9/24".to_string()),
    ];
    assert_eq!(pick_lxc_ip(&inets), Some("192.168.7.9".to_string()));
}

#[test]
fn net_config_value_extraction_is_exact() {
    assert_eq!(
        net_value_ip_of("virtio=AA:BB,bridge=vmbr0,ip=192.168.1.50/24,gw=192.168.1.1"),
        Some("192.168.1.50".to_string())
    );
    assert_eq!(net_value_ip_of("virtio=AA:BB,bridge=vmbr0"), None);
    // An `ip=` token with no following delimiter is passed over.
    assert_eq!(net_value_ip_of("ip=10.0.0.1"), None);
    assert_eq!(net_value_ip_of("ip=10.0.0.1 extra"), Some("10.0.0.1".to_string()));
}

#[test]
fn config_scan_takes_first_net_key_that_yields() {
    let entries = vec![
        entry("cores", Some("4")),
        entry("net0", Some("virtio=AA,bridge=vmbr0")),
        entry("net1", Some("virtio=BB,ip=10.5.5.5/16,gw=10.5.0.1")),
        entry("net2", Some("virtio=CC,ip=10.9.9.9,gw=x")),
    ];
    assert_eq!(config_ip(&entries), Some("10.5.5.5".to_string()));
}

#[test]
fn resolver_falls_back_to_config_when_agent_unusable() {
    let addrs = vec![Some("127.0.0.1".to_string()), Some("fe80::1".to_string())];
    let entries = vec![entry("net0", Some("virtio=AA,ip=172.16.4.2/12,gw=g"))];
    let got = resolve_ip(&Some(addrs), &Some(entries), true);
    assert_eq!(got, Some("172.16.4.2".to_string()));
}

#[test]
fn resolver_yields_none_when_both_strategies_fail() {
    let addrs = vec![Some("127.0.0.2".to_string())];
    let entries = vec![entry("net0", Some("virtio=AA,bridge=vmbr0"))];
    assert_eq!(resolve_ip(&Some(addrs), &Some(entries), true), None);
    assert_eq!(resolve_ip(&None, &None, true), None);
}

#[test]
fn strip_cidr_leaves_plain_addresses_alone() {
    assert_eq!(strip_cidr_str("10.0.0.1/24"), "10.0.0.1");
    assert_eq!(strip_cidr_str("10.0.0.1"), "10.0.0.1");
    assert_eq!(strip_cidr_str(""), "");
}

#[test]
fn ipv4_parse_accepts_dotted_quads_only() {
    assert_eq!(parse_ipv4("10.0.0.5"), Some((10u32 << 24) + 5));
    assert_eq!(parse_ipv4("255.255.255.255"), Some(u32::MAX));
    assert_eq!(parse_ipv4("0.0.0.0"), Some(0));
    assert_eq!(parse_ipv4("256.0.0.1"), None);
    assert_eq!(parse_ipv4("01.0.0.1"), None);
    assert_eq!(parse_ipv4("1.2.3"), None);
    assert_eq!(parse_ipv4("1.2.3.4.5"), None);
    assert_eq!(parse_ipv4("a.b.c.d"), None);
    assert_eq!(parse_ipv4(""), None);
}

#[test]
fn split_keeps_empty_parts() {
    let parts = split_str("a..b.", '.');
    assert_eq!(parts, vec!["a".to_string(), "".to_string(), "b".to_string(), "".to_string()]);
    assert_eq!(split_str("", '.'), vec!["".to_string()]);
}
