//! The merge that produces the canonical host list of one discovery
//! pass: cluster-discovered hosts with user overrides applied, followed
//! by the user's manual entries.

use vstd::prelude::*;

use crate::host::Host;
use crate::host::HostType;
use crate::host::HostView;
use crate::host::IpOverride;
use crate::host::ManualHost;
use crate::host::ManualView;
use crate::host::OverrideView;

verus! {

/// The address of the first override whose name equals `name`, if any.
pub open spec fn find_override(ovs: Seq<OverrideView>, name: Seq<char>) -> Option<Seq<char>>
    decreases ovs.len(),
{
    if ovs.len() == 0 {
        None
    } else if ovs[0].name == name {
        Some(ovs[0].ip)
    } else {
        find_override(ovs.drop_first(), name)
    }
}

/// What a matching override does to one host: it replaces the address,
/// discovered or not, and touches nothing else.
pub open spec fn with_override(h: HostView, ovs: Seq<OverrideView>) -> HostView {
    match find_override(ovs, h.name) {
        Some(ip) => HostView { ip: Some(ip), ..h },
        None => h,
    }
}

/// Every cluster host with its override applied, in order.
pub open spec fn apply_overrides(hs: Seq<HostView>, ovs: Seq<OverrideView>) -> Seq<HostView> {
    hs.map_values(|h: HostView| with_override(h, ovs))
}

/// The host synthesized for a manual entry: always physical, status
/// "unknown", no node and no unit id, address and user taken as given.
pub open spec fn manual_host(m: ManualView) -> HostView {
    HostView {
        name: m.name,
        host_type: HostType::Physical,
        status: "unknown"@,
        ip: Some(m.ip),
        node: None,
        vmid: None,
        ansible_user: Some(m.ansible_user),
    }
}

/// The hosts synthesized for the manual entries, in configuration
/// order.
pub open spec fn manual_hosts(ms: Seq<ManualView>) -> Seq<HostView> {
    ms.map_values(|m: ManualView| manual_host(m))
}

/// The canonical host list: cluster hosts first, each with its override
/// applied, then one synthesized host per manual entry.
pub open spec fn reconcile_spec(
    hs: Seq<HostView>,
    ovs: Seq<OverrideView>,
    ms: Seq<ManualView>,
) -> Seq<HostView> {
    apply_overrides(hs, ovs) + manual_hosts(ms)
}

/// The first override whose name equals `name`, computed.
pub fn lookup_override(overrides: &Vec<IpOverride>, name: &String) -> (r: Option<String>)
    ensures
        match r {
            Some(ip) => find_override(overrides.deep_view(), name@) == Some(ip@),
            None => find_override(overrides.deep_view(), name@) is None,
        },
{
    let ghost ovs = overrides.deep_view();
    proof {
        assert(ovs.skip(0) =~= ovs);
    }
    let mut i: usize = 0;
    while i < overrides.len()
        invariant
            i <= overrides@.len(),
            ovs == overrides.deep_view(),
            ovs.len() == overrides@.len(),
            find_override(ovs, name@) == find_override(ovs.skip(i as int), name@),
        decreases overrides@.len() - i,
    {
        if overrides[i].name == *name {
            assert(ovs.skip(i as int)[0] == ovs[i as int]);
            return Some(overrides[i].ip.clone());
        }
        proof {
            assert(ovs.skip(i as int)[0] == ovs[i as int]);
            assert(ovs.skip(i as int).drop_first() =~= ovs.skip(i + 1));
        }
        i = i + 1;
    }
    proof {
        assert(ovs.skip(i as int).len() == 0);
    }
    None
}

/// Merge one discovery pass: apply the overrides to the cluster hosts,
/// then append the manual entries. Pure; performs no I/O.
pub fn reconcile(
    cluster_hosts: Vec<Host>,
    overrides: &Vec<IpOverride>,
    manual: &Vec<ManualHost>,
) -> (r: Vec<Host>)
    ensures
        r.deep_view() == reconcile_spec(
            cluster_hosts.deep_view(),
            overrides.deep_view(),
            manual.deep_view(),
        ),
{
    let ghost orig = cluster_hosts.deep_view();
    let ghost ovs = overrides.deep_view();
    let mut rest = cluster_hosts;
    let mut out: Vec<Host> = Vec::new();
    let ghost mut k: int = 0;
    proof {
        assert(orig.skip(0) =~= orig);
        assert(out.deep_view() =~= apply_overrides(orig, ovs).take(0));
    }
    while rest.len() > 0
        invariant
            0 <= k <= orig.len(),
            ovs == overrides.deep_view(),
            out@.len() == k,
            rest.deep_view() =~= orig.skip(k),
            out.deep_view() =~= apply_overrides(orig, ovs).take(k),
        decreases rest@.len(),
    {
        proof {
            assert(rest.deep_view().len() == rest@.len());
            assert(orig.skip(k).len() == orig.len() - k);
            assert(k < orig.len());
            assert(rest.deep_view()[0] == rest@[0].deep_view());
            assert(orig.skip(k)[0] == orig[0 + k]);
        }
        let ghost prev_rest = rest@;
        let h = rest.remove(0);
        assert(h.deep_view() == orig[k]);
        proof {
            assert(rest@ =~= prev_rest.remove(0));
            assert forall|i: int| 0 <= i < rest@.len() implies rest.deep_view()[i] == orig.skip(
                k + 1,
            )[i] by {
                assert(rest@[i] == prev_rest[i + 1]);
                assert(rest.deep_view()[i] == rest@[i].deep_view());
                assert(orig.skip(k + 1)[i] == orig[i + (k + 1)]);
                assert(orig.skip(k)[i + 1] == orig[(i + 1) + k]);
            }
            assert(rest.deep_view() =~= orig.skip(k + 1));
        }
        let merged = match lookup_override(overrides, &h.name) {
            Some(ip) => Host {
                name: h.name,
                host_type: h.host_type,
                status: h.status,
                ip: Some(ip),
                node: h.node,
                vmid: h.vmid,
                ansible_user: h.ansible_user,
            },
            None => h,
        };
        assert(merged.deep_view() == with_override(orig[k], ovs));
        let ghost prev = out.deep_view();
        out.push(merged);
        proof {
            assert(out.deep_view() =~= prev.push(merged.deep_view()));
            assert(apply_overrides(orig, ovs)[k] == with_override(orig[k], ovs));
            assert(out.deep_view() =~= apply_overrides(orig, ovs).take(k + 1));
            k = k + 1;
        }
    }
    assert(out.deep_view() =~= apply_overrides(orig, ovs));
    let ghost msv = manual.deep_view();
    proof {
        assert(manual_hosts(msv).take(0) =~= Seq::<HostView>::empty());
        assert(out.deep_view() =~= apply_overrides(orig, ovs) + manual_hosts(msv).take(0));
    }
    let mut j: usize = 0;
    while j < manual.len()
        invariant
            j <= manual@.len(),
            msv == manual.deep_view(),
            msv.len() == manual@.len(),
            out.deep_view() =~= apply_overrides(orig, ovs) + manual_hosts(msv).take(j as int),
        decreases manual@.len() - j,
    {
        let m = &manual[j];
        let synthesized = Host {
            name: m.name.clone(),
            host_type: HostType::Physical,
            status: String::from_str("unknown"),
            ip: Some(m.ip.clone()),
            node: None,
            vmid: None,
            ansible_user: Some(m.ansible_user.clone()),
        };
        assert(synthesized.deep_view() == manual_host(msv[j as int]));
        let ghost prev = out.deep_view();
        out.push(synthesized);
        proof {
            assert(out.deep_view() =~= prev.push(synthesized.deep_view()));
            assert(manual_hosts(msv)[j as int] == manual_host(msv[j as int]));
            assert(out.deep_view() =~= apply_overrides(orig, ovs) + manual_hosts(msv).take(
                j + 1 as int,
            ));
        }
        j = j + 1;
    }
    proof {
        assert(manual_hosts(msv).take(msv.len() as int) =~= manual_hosts(msv));
        assert(out.deep_view() =~= reconcile_spec(orig, ovs, msv));
    }
    out
}

/// Law: with no manual entries, the merge assigns to each cluster host
/// whose name has an override exactly that override's address, leaves
/// hosts without one unchanged, and keeps every other field and the
/// order as they were.
pub proof fn lemma_reconcile_overrides(hs: Seq<HostView>, ovs: Seq<OverrideView>)
    ensures
        reconcile_spec(hs, ovs, Seq::<ManualView>::empty()).len() == hs.len(),
        forall|i: int|
            0 <= i < hs.len() ==> #[trigger] reconcile_spec(hs, ovs, Seq::<ManualView>::empty())[i]
                == (match find_override(ovs, hs[i].name) {
                Some(ip) => HostView { ip: Some(ip), ..hs[i] },
                None => hs[i],
            }),
{
    let r = reconcile_spec(hs, ovs, Seq::<ManualView>::empty());
    assert(manual_hosts(Seq::<ManualView>::empty()) =~= Seq::<HostView>::empty());
    assert(r =~= apply_overrides(hs, ovs));
    assert(forall|i: int| 0 <= i < hs.len() ==> #[trigger] r[i] == with_override(hs[i], ovs));
}

/// Law: the merge output has one element per cluster host plus one per
/// manual entry; every element derived from a manual entry is physical,
/// has status "unknown" and no node, and carries the entry's address
/// and user; with no overrides the cluster hosts pass through
/// unchanged.
pub proof fn lemma_reconcile_manual(hs: Seq<HostView>, ms: Seq<ManualView>)
    ensures
        reconcile_spec(hs, Seq::<OverrideView>::empty(), ms).len() == hs.len() + ms.len(),
        forall|i: int|
            0 <= i < hs.len() ==> #[trigger] reconcile_spec(hs, Seq::<OverrideView>::empty(), ms)[i]
                == hs[i],
        forall|j: int|
            0 <= j < ms.len() ==> #[trigger] reconcile_spec(hs, Seq::<OverrideView>::empty(), ms)[
                hs.len() + j] == manual_host(ms[j]),
{
    let r = reconcile_spec(hs, Seq::<OverrideView>::empty(), ms);
    assert(forall|i: int|
        0 <= i < hs.len() ==> #[trigger] apply_overrides(hs, Seq::<OverrideView>::empty())[i]
            == hs[i]);
    assert(forall|j: int| 0 <= j < ms.len() ==> #[trigger] manual_hosts(ms)[j] == manual_host(
        ms[j],
    ));
}

} // verus!

