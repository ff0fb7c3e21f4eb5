//! The persisted configuration: cluster endpoints, manual hosts, IP
//! overrides and export defaults. Loading and saving the file is the
//! caller's concern; the library works on the loaded values.

use vstd::prelude::*;

use crate::host::IpOverride;
use crate::host::ManualHost;

verus! {

/// One configured cluster endpoint. The token secret is sent as a
/// request header and never logged.
#[derive(Debug)]
pub struct ProxmoxHost {
    pub name: String,
    pub host: String,
    pub port: u16,
    pub api_token_id: String,
    pub api_token_secret: String,
    pub verify_ssl: bool,
}

/// Defaults carried into the exported inventory's variables section.
#[derive(Debug)]
pub struct AnsibleDefaults {
    pub python_interpreter: String,
    pub ansible_become: bool,
    pub become_method: String,
}

/// The whole persisted configuration.
#[derive(Debug)]
pub struct Config {
    pub proxmox_hosts: Vec<ProxmoxHost>,
    pub manual_hosts: Vec<ManualHost>,
    pub ip_overrides: Vec<IpOverride>,
    pub ansible_defaults: AnsibleDefaults,
}

/// The cluster API port assumed when none is configured.
pub fn default_port() -> (r: u16)
    ensures
        r == 8006,
{
    8006
}

/// The interpreter path assumed when none is configured.
pub fn default_python_interpreter() -> (r: String)
    ensures
        r@ == "/usr/bin/python3"@,
{
    String::from_str("/usr/bin/python3")
}

/// The privilege-escalation flag assumed when none is configured.
pub fn default_true() -> (r: bool)
    ensures
        r,
{
    true
}

/// The privilege-escalation method assumed when none is configured.
pub fn default_become_method() -> (r: String)
    ensures
        r@ == "sudo"@,
{
    String::from_str("sudo")
}

impl Default for AnsibleDefaults {
    /// The export defaults assumed when the configuration names none.
    fn default() -> (r: Self)
        ensures
            r.python_interpreter@ == "/usr/bin/python3"@,
            r.ansible_become,
            r.become_method@ == "sudo"@,
    {
        AnsibleDefaults {
            python_interpreter: default_python_interpreter(),
            ansible_become: default_true(),
            become_method: default_become_method(),
        }
    }
}

impl Default for Config {
    /// An empty configuration: no clusters, no manual hosts, no
    /// overrides, default export settings.
    fn default() -> (r: Self)
        ensures
            r.proxmox_hosts@.len() == 0,
            r.manual_hosts@.len() == 0,
            r.ip_overrides@.len() == 0,
            r.ansible_defaults.python_interpreter@ == "/usr/bin/python3"@,
            r.ansible_defaults.ansible_become,
            r.ansible_defaults.become_method@ == "sudo"@,
    {
        Config {
            proxmox_hosts: Vec::new(),
            manual_hosts: Vec::new(),
            ip_overrides: Vec::new(),
            ansible_defaults: AnsibleDefaults::default(),
        }
    }
}

} // verus!
