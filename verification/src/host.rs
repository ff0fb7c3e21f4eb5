//! The canonical discovery record and the user-maintained entries that
//! the reconciliation merge consumes.

use vstd::prelude::*;

verus! {

/// What kind of compute unit a host record describes.
#[derive(Debug, Clone, Copy, PartialEq, Eq, Structural)]
pub enum HostType {
    VM,
    LXC,
    Physical,
}

impl HostType {
    /// The label shown for this kind; also the key the display sort
    /// compares when ordering by kind.
    pub open spec fn label(self) -> Seq<char> {
        match self {
            HostType::VM => "VM"@,
            HostType::LXC => "LXC"@,
            HostType::Physical => "Physical"@,
        }
    }

    pub fn as_str(&self) -> (r: &'static str)
        ensures
            r@ == self.label(),
    {
        match self {
            HostType::VM => "VM",
            HostType::LXC => "LXC",
            HostType::Physical => "Physical",
        }
    }
}

/// One discovered or declared host. Records are value objects: every
/// discovery pass builds a fresh list, and only the IP-override edit
/// path mutates an existing record in place.
#[derive(Debug)]
pub struct Host {
    pub name: String,
    pub host_type: HostType,
    pub status: String,
    pub ip: Option<String>,
    pub node: Option<String>,
    pub vmid: Option<u32>,
    pub ansible_user: Option<String>,
}

/// The mathematical value of a host record: its text fields as
/// character sequences.
pub ghost struct HostView {
    pub name: Seq<char>,
    pub host_type: HostType,
    pub status: Seq<char>,
    pub ip: Option<Seq<char>>,
    pub node: Option<Seq<char>>,
    pub vmid: Option<u32>,
    pub ansible_user: Option<Seq<char>>,
}

/// The view of an optional string.
pub open spec fn opt_view(o: Option<String>) -> Option<Seq<char>> {
    match o {
        Some(s) => Some(s@),
        None => None,
    }
}

impl View for Host {
    type V = HostView;

    open spec fn view(&self) -> HostView {
        HostView {
            name: self.name@,
            host_type: self.host_type,
            status: self.status@,
            ip: opt_view(self.ip),
            node: opt_view(self.node),
            vmid: self.vmid,
            ansible_user: opt_view(self.ansible_user),
        }
    }
}

impl DeepView for Host {
    type V = HostView;

    open spec fn deep_view(&self) -> HostView {
        self.view()
    }
}

/// A user-asserted IP address, keyed by host name; it takes precedence
/// over any discovered address for that name.
#[derive(Debug)]
pub struct IpOverride {
    pub name: String,
    pub ip: String,
}

/// The mathematical value of an override entry.
pub ghost struct OverrideView {
    pub name: Seq<char>,
    pub ip: Seq<char>,
}

impl View for IpOverride {
    type V = OverrideView;

    open spec fn view(&self) -> OverrideView {
        OverrideView { name: self.name@, ip: self.ip@ }
    }
}

impl DeepView for IpOverride {
    type V = OverrideView;

    open spec fn deep_view(&self) -> OverrideView {
        self.view()
    }
}

/// A host never discovered from any cluster, declared entirely by the
/// user; always surfaced as a physical host with status "unknown".
#[derive(Debug)]
pub struct ManualHost {
    pub name: String,
    pub ip: String,
    pub host_type: String,
    pub ansible_user: String,
}

/// The mathematical value of a manual entry.
pub ghost struct ManualView {
    pub name: Seq<char>,
    pub ip: Seq<char>,
    pub host_type: Seq<char>,
    pub ansible_user: Seq<char>,
}

impl View for ManualHost {
    type V = ManualView;

    open spec fn view(&self) -> ManualView {
        ManualView {
            name: self.name@,
            ip: self.ip@,
            host_type: self.host_type@,
            ansible_user: self.ansible_user@,
        }
    }
}

impl DeepView for ManualHost {
    type V = ManualView;

    open spec fn deep_view(&self) -> ManualView {
        self.view()
    }
}

} // verus!
