//! The exported inventory text: one section per host kind, one line
//! per host carrying its address and user when present, and a global
//! variables section with the configured export defaults.

use vstd::prelude::*;

use crate::config::AnsibleDefaults;
use crate::host::Host;
use crate::host::HostType;
use crate::host::HostView;

verus! {

/// The inventory line for one host: the name, then the address and the
/// user, each when present.
pub open spec fn host_line(h: HostView) -> Seq<char> {
    h.name + (match h.ip {
        Some(ip) => " ansible_host="@ + ip,
        None => Seq::<char>::empty(),
    }) + (match h.ansible_user {
        Some(u) => " ansible_user="@ + u,
        None => Seq::<char>::empty(),
    }) + "\n"@
}

/// The lines of every host of the given kind, in list order.
pub open spec fn group_lines(hs: Seq<HostView>, kind: HostType) -> Seq<char>
    decreases hs.len(),
{
    if hs.len() == 0 {
        Seq::<char>::empty()
    } else {
        group_lines(hs.drop_last(), kind) + (if hs.last().host_type == kind {
            host_line(hs.last())
        } else {
            Seq::<char>::empty()
        })
    }
}

/// Whether any host of the given kind is present.
pub open spec fn has_kind(hs: Seq<HostView>, kind: HostType) -> bool {
    exists|i: int| 0 <= i < hs.len() && (#[trigger] hs[i]).host_type == kind
}

/// One section of the export: the bracketed group title and the
/// member lines, followed by a blank line; empty groups are omitted.
pub open spec fn group_section(title: Seq<char>, hs: Seq<HostView>, kind: HostType) -> Seq<char> {
    if has_kind(hs, kind) {
        "["@ + title + "]\n"@ + group_lines(hs, kind) + "\n"@
    } else {
        Seq::<char>::empty()
    }
}

/// The trailing variables section with the export defaults.
pub open spec fn vars_section(py: Seq<char>, escalate: bool, method: Seq<char>) -> Seq<char> {
    "[all:vars]\n"@ + "ansible_python_interpreter="@ + py + "\n"@ + "ansible_become="@ + (if escalate {
        "yes"@
    } else {
        "no"@
    }) + "\n"@ + "ansible_become_method="@ + method + "\n"@
}

/// The whole export: the virtual machines, the containers, then the
/// physical hosts, then the variables section.
pub open spec fn ansible_output(
    hs: Seq<HostView>,
    py: Seq<char>,
    escalate: bool,
    method: Seq<char>,
) -> Seq<char> {
    group_section("Proxmox_VM"@, hs, HostType::VM) + group_section(
        "Proxmox_LXC"@,
        hs,
        HostType::LXC,
    ) + group_section("Physical"@, hs, HostType::Physical) + vars_section(py, escalate, method)
}

/// Append the inventory line for one host.
fn append_host_line(out: &mut String, h: &Host)
    ensures
        final(out)@ == old(out)@ + host_line(h@),
{
    out.append(h.name.as_str());
    match &h.ip {
        Some(ip) => {
            out.append(" ansible_host=");
            out.append(ip.as_str());
        },
        None => {},
    }
    match &h.ansible_user {
        Some(u) => {
            out.append(" ansible_user=");
            out.append(u.as_str());
        },
        None => {},
    }
    out.append("\n");
    assert(out@ =~= old(out)@ + host_line(h@));
}

/// Whether any host of the given kind is present, computed.
fn contains_kind(hosts: &Vec<Host>, kind: HostType) -> (r: bool)
    ensures
        r == has_kind(hosts.deep_view(), kind),
{
    let mut i: usize = 0;
    while i < hosts.len()
        invariant
            i <= hosts@.len(),
            hosts.deep_view().len() == hosts@.len(),
            forall|k: int| 0 <= k < i ==> (#[trigger] hosts.deep_view()[k]).host_type != kind,
        decreases hosts@.len() - i,
    {
        if hosts[i].host_type == kind {
            assert(hosts.deep_view()[i as int].host_type == kind);
            return true;
        }
        i = i + 1;
    }
    false
}

/// Append one group section.
fn append_group(out: &mut String, title: &str, hosts: &Vec<Host>, kind: HostType)
    ensures
        final(out)@ == old(out)@ + group_section(title@, hosts.deep_view(), kind),
{
    let ghost dv = hosts.deep_view();
    if !contains_kind(hosts, kind) {
        assert(out@ =~= old(out)@ + group_section(title@, dv, kind));
        return ;
    }
    out.append("[");
    out.append(title);
    out.append("]\n");
    let ghost base = out@;
    proof {
        assert(dv.take(0) =~= Seq::<HostView>::empty());
        assert(base + group_lines(dv.take(0), kind) =~= base);
    }
    let mut i: usize = 0;
    while i < hosts.len()
        invariant
            i <= hosts@.len(),
            dv == hosts.deep_view(),
            dv.len() == hosts@.len(),
            out@ == base + group_lines(dv.take(i as int), kind),
        decreases hosts@.len() - i,
    {
        proof {
            assert(dv.take(i + 1 as int).drop_last() =~= dv.take(i as int));
            assert(dv.take(i + 1 as int).last() == dv[i as int]);
        }
        if hosts[i].host_type == kind {
            append_host_line(out, &hosts[i]);
            assert(out@ =~= base + group_lines(dv.take(i + 1 as int), kind));
        } else {
            assert(dv[i as int].host_type != kind);
            assert(out@ =~= base + group_lines(dv.take(i + 1 as int), kind));
        }
        i = i + 1;
    }
    proof {
        assert(dv.take(dv.len() as int) =~= dv);
    }
    out.append("\n");
    assert(out@ =~= old(out)@ + group_section(title@, dv, kind));
}

/// The exported inventory for a host list and the configured export
/// defaults: a section per kind in a fixed order, then the variables
/// section. Pure text assembly; no I/O.
pub fn generate_ansible_hosts(hosts: &Vec<Host>, defaults: &AnsibleDefaults) -> (r: String)
    ensures
        r@ == ansible_output(
            hosts.deep_view(),
            defaults.python_interpreter@,
            defaults.ansible_become,
            defaults.become_method@,
        ),
{
    let mut out = String::new();
    append_group(&mut out, "Proxmox_VM", hosts, HostType::VM);
    append_group(&mut out, "Proxmox_LXC", hosts, HostType::LXC);
    append_group(&mut out, "Physical", hosts, HostType::Physical);
    let ghost sections = out@;
    out.append("[all:vars]\n");
    out.append("ansible_python_interpreter=");
    out.append(defaults.python_interpreter.as_str());
    out.append("\n");
    out.append("ansible_become=");
    if defaults.ansible_become {
        out.append("yes");
    } else {
        out.append("no");
    }
    out.append("\n");
    out.append("ansible_become_method=");
    out.append(defaults.become_method.as_str());
    out.append("\n");
    assert(out@ =~= sections + vars_section(
        defaults.python_interpreter@,
        defaults.ansible_become,
        defaults.become_method@,
    ));
    assert(out@ =~= ansible_output(
        hosts.deep_view(),
        defaults.python_interpreter@,
        defaults.ansible_become,
        defaults.become_method@,
    ));
    out
}

} // verus!
