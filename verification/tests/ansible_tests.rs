use proxmon::ansible::generate_ansible_hosts;
use proxmon::config::AnsibleDefaults;
use proxmon::host::Host;
use proxmon::host::HostType;

fn vm(name: &str, ip: &str, node: &str, vmid: u32) -> Host {
    Host {
        name: name.to_string(),
        host_type: HostType::VM,
        status: "running".to_string(),
        ip: Some(ip.to_string()),
        node: Some(node.to_string()),
        vmid: Some(vmid),
        ansible_user: Some("gozy".to_string()),
    }
}

#[test]
fn test_generate_ansible_hosts() {
    let hosts = vec![
        Host {
            name: "test-vm".to_string(),
            host_type: HostType::VM,
            status: "running".to_string(),
            ip: Some("10.1.2.10".to_string()),
            node: Some("pve1".to_string()),
            vmid: Some(100),
            ansible_user: Some("gozy".to_string()),
        },
        Host {
            name: "test-lxc".to_string(),
            host_type: HostType::LXC,
            status: "running".to_string(),
            ip: Some("10.1.2.20".to_string()),
            node: Some("pve1".to_string()),
            vmid: Some(101),
            ansible_user: Some("gozy".to_string()),
        },
    ];

    let defaults = AnsibleDefaults::default();
    let output = generate_ansible_hosts(&hosts, &defaults);

    assert!(output.contains("[Proxmox_VM]"));
    assert!(output.contains("[Proxmox_LXC]"));
    assert!(output.contains("test-vm ansible_host=10.1.2.10 ansible_user=gozy"));
    assert!(output.contains("test-lxc ansible_host=10.1.2.20 ansible_user=gozy"));
    assert!(output.contains("[all:vars]"));
}

#[test]
fn export_exact_text_single_vm() {
    let hosts = vec![vm("web-01", "10.0.0.5", "pve1", 100)];
    let defaults = AnsibleDefaults::default();
    let output = generate_ansible_hosts(&hosts, &defaults);
    let expected = "[Proxmox_VM]\nweb-01 ansible_host=10.0.0.5 ansible_user=gozy\n\n\
                    [all:vars]\n\
                    ansible_python_interpreter=/usr/bin/python3\n\
                    ansible_become=yes\n\
                    ansible_become_method=sudo\n";
    assert_eq!(output, expected);
}

#[test]
fn export_omits_empty_groups_and_missing_fields() {
    let hosts = vec![Host {
        name: "bare".to_string(),
        host_type: HostType::Physical,
        status: "unknown".to_string(),
        ip: None,
        node: None,
        vmid: None,
        ansible_user: None,
    }];
    let defaults = AnsibleDefaults {
        python_interpreter: "/opt/py".to_string(),
        ansible_become: false,
        become_method: "su".to_string(),
    };
    let output = generate_ansible_hosts(&hosts, &defaults);
    assert!(!output.contains("[Proxmox_VM]"));
    assert!(!output.contains("[Proxmox_LXC]"));
    assert!(output.contains("[Physical]\nbare\n"));
    assert!(output.contains("ansible_become=no\n"));
    assert!(output.contains("ansible_python_interpreter=/opt/py\n"));
    assert!(output.contains("ansible_become_method=su\n"));
    assert!(!output.contains("ansible_host="));
    assert!(!output.contains("ansible_user="));
}

#[test]
fn export_empty_list_has_only_vars() {
    let hosts: Vec<Host> = Vec::new();
    let defaults = AnsibleDefaults::default();
    let output = generate_ansible_hosts(&hosts, &defaults);
    assert_eq!(
        output,
        "[all:vars]\nansible_python_interpreter=/usr/bin/python3\nansible_become=yes\nansible_become_method=sudo\n"
    );
}
