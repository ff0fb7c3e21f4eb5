//! The discovery protocol against one cluster, as a state machine from
//! response events to the next request, and the merge of several
//! clusters' outcomes. The caller performs each requested HTTP call
//! and hands back the parsed response as plain values; every decision
//! in between is made here.
//!
//! One pass walks the cluster's nodes; for each node it lists virtual
//! machines and then containers; for each unit it asks the live
//! interface listing and, only when that yields no address, the static
//! configuration. A failed node listing ends the pass with an error; a
//! failed unit listing contributes nothing and the pass goes on; a
//! failed interface or configuration call degrades to a missing
//! address, never to an error.

use vstd::prelude::*;

use crate::config::ProxmoxHost;
use crate::host::Host;
use crate::host::HostType;
use crate::host::HostView;
use crate::resolve::config_fallback_ip;
use crate::resolve::config_ip;
use crate::resolve::pick_lxc_ip;
use crate::resolve::pick_vm_ip;
use crate::resolve::select_lxc_ip;
use crate::resolve::select_vm_ip;
use crate::resolve::ConfigEntry;
use crate::resolve::ConfigEntryView;
use crate::text::dec_str;
use crate::text::u64_to_dec;

verus! {

/// Which kind of compute unit a listing covers.
#[derive(Debug, Clone, Copy, PartialEq, Eq, Structural)]
pub enum UnitKind {
    Vm,
    Lxc,
}

/// One unit as reported by a node's listing.
#[derive(Debug)]
pub struct UnitInfo {
    pub vmid: u32,
    pub name: String,
    pub status: String,
}

/// The mathematical value of a unit record.
pub ghost struct UnitInfoView {
    pub vmid: u32,
    pub name: Seq<char>,
    pub status: Seq<char>,
}

impl View for UnitInfo {
    type V = UnitInfoView;

    open spec fn view(&self) -> UnitInfoView {
        UnitInfoView { vmid: self.vmid, name: self.name@, status: self.status@ }
    }
}

impl DeepView for UnitInfo {
    type V = UnitInfoView;

    open spec fn deep_view(&self) -> UnitInfoView {
        self.view()
    }
}

/// The authorization header value sent on every request.
pub fn auth_header_value(cfg: &ProxmoxHost) -> (r: String)
    ensures
        r@ == "PVEAPIToken="@ + cfg.api_token_id@ + "="@ + cfg.api_token_secret@,
{
    let mut r = String::from_str("PVEAPIToken=");
    r.append(cfg.api_token_id.as_str());
    r.append("=");
    r.append(cfg.api_token_secret.as_str());
    assert(r@ =~= "PVEAPIToken="@ + cfg.api_token_id@ + "="@ + cfg.api_token_secret@);
    r
}

/// The base of every request URL for one cluster.
pub fn api_base_url(cfg: &ProxmoxHost) -> (r: String)
    ensures
        r@ == "https://"@ + cfg.host@ + ":"@ + dec_str(cfg.port as int) + "/api2/json"@,
{
    let mut r = String::from_str("https://");
    r.append(cfg.host.as_str());
    r.append(":");
    let port = u64_to_dec(cfg.port as u64);
    r.append(port.as_str());
    r.append("/api2/json");
    assert(r@ =~= "https://"@ + cfg.host@ + ":"@ + dec_str(cfg.port as int) + "/api2/json"@);
    r
}

/// The path segment naming a unit kind.
pub open spec fn kind_segment(kind: UnitKind) -> Seq<char> {
    match kind {
        UnitKind::Vm => "qemu"@,
        UnitKind::Lxc => "lxc"@,
    }
}

/// The request path that lists a cluster's nodes.
pub fn nodes_path() -> (r: String)
    ensures
        r@ == "/nodes"@,
{
    String::from_str("/nodes")
}

/// The request path that lists one node's units of one kind.
pub fn units_path(node: &String, kind: UnitKind) -> (r: String)
    ensures
        r@ == "/nodes/"@ + node@ + "/"@ + kind_segment(kind),
{
    let mut r = String::from_str("/nodes/");
    r.append(node.as_str());
    r.append("/");
    match kind {
        UnitKind::Vm => r.append("qemu"),
        UnitKind::Lxc => r.append("lxc"),
    }
    assert(r@ =~= "/nodes/"@ + node@ + "/"@ + kind_segment(kind));
    r
}

/// The request path that lists one unit's live interfaces: the guest
/// agent's interface listing for a virtual machine, the container
/// interface listing otherwise.
pub open spec fn ifaces_suffix(kind: UnitKind) -> Seq<char> {
    match kind {
        UnitKind::Vm => "/agent/network-get-interfaces"@,
        UnitKind::Lxc => "/interfaces"@,
    }
}

/// The request path for one unit's live interface listing.
pub fn ifaces_path(node: &String, kind: UnitKind, vmid: u32) -> (r: String)
    ensures
        r@ == "/nodes/"@ + node@ + "/"@ + kind_segment(kind) + "/"@ + dec_str(vmid as int)
            + ifaces_suffix(kind),
{
    let mut r = units_path(node, kind);
    r.append("/");
    let id = u64_to_dec(vmid as u64);
    r.append(id.as_str());
    match kind {
        UnitKind::Vm => r.append("/agent/network-get-interfaces"),
        UnitKind::Lxc => r.append("/interfaces"),
    }
    assert(r@ =~= "/nodes/"@ + node@ + "/"@ + kind_segment(kind) + "/"@ + dec_str(vmid as int)
        + ifaces_suffix(kind));
    r
}

/// The request path for one unit's static configuration.
pub fn config_path(node: &String, kind: UnitKind, vmid: u32) -> (r: String)
    ensures
        r@ == "/nodes/"@ + node@ + "/"@ + kind_segment(kind) + "/"@ + dec_str(vmid as int)
            + "/config"@,
{
    let mut r = units_path(node, kind);
    r.append("/");
    let id = u64_to_dec(vmid as u64);
    r.append(id.as_str());
    r.append("/config");
    assert(r@ =~= "/nodes/"@ + node@ + "/"@ + kind_segment(kind) + "/"@ + dec_str(vmid as int)
        + "/config"@);
    r
}

/// One parsed response, handed back by the caller in answer to the
/// matching request. A failed call carries nothing — except a failed
/// node listing, which carries its message and is fatal to the pass.
pub enum FetchEvent {
    Nodes(Result<Vec<String>, String>),
    Units(Option<Vec<UnitInfo>>),
    Ifaces(Option<Vec<Option<String>>>),
    NetConfig(Option<Vec<ConfigEntry>>),
}

/// The next step of the protocol: a request to perform, or the end of
/// the pass.
pub enum FetchAction {
    GetUnits(String, UnitKind),
    GetIfaces(String, UnitKind, u32),
    GetNetConfig(String, UnitKind, u32),
    Done,
    Failed(String),
}

/// The phase the protocol is in: which response it awaits.
#[derive(Debug, Clone, Copy, PartialEq, Eq, Structural)]
pub enum Phase {
    AwaitNodes,
    AwaitUnits,
    AwaitIfaces,
    AwaitConfig,
    Finished,
}

/// The host record built for one discovered unit.
pub open spec fn unit_host(
    node: Seq<char>,
    kind: UnitKind,
    u: UnitInfoView,
    ip: Option<Seq<char>>,
) -> HostView {
    HostView {
        name: u.name,
        host_type: match kind {
            UnitKind::Vm => HostType::VM,
            UnitKind::Lxc => HostType::LXC,
        },
        status: u.status,
        ip: ip,
        node: Some(node),
        vmid: Some(u.vmid),
        ansible_user: Some("gozy"@),
    }
}

/// Whether a host record could have come from a cluster: it names its
/// node, is no physical entry, and carries the default user.
pub open spec fn cluster_host(h: HostView) -> bool {
    &&& h.node is Some
    &&& h.host_type != HostType::Physical
    &&& h.vmid is Some
    &&& h.ansible_user == Some("gozy"@)
}

/// The step that follows once a node's current listing has no unit
/// left to resolve: the node's other listing, then the next node's
/// first listing, then the end of the pass. The walk visits every
/// node in order, virtual machines before containers.
pub open spec fn advance_outcome(pre: ClusterFetch, post: ClusterFetch, r: FetchAction) -> bool {
    if pre.kind == UnitKind::Vm {
        &&& post.kind == UnitKind::Lxc
        &&& post.node_idx == pre.node_idx
        &&& post.phase == Phase::AwaitUnits
        &&& (r matches FetchAction::GetUnits(n, k) && n@ == pre.cur_node() && k == UnitKind::Lxc)
    } else if pre.node_idx + 1 < pre.nodes@.len() {
        &&& post.kind == UnitKind::Vm
        &&& post.node_idx == pre.node_idx + 1
        &&& post.phase == Phase::AwaitUnits
        &&& (r matches FetchAction::GetUnits(n, k) && n@ == pre.nodes@[pre.node_idx + 1]@ && k
            == UnitKind::Vm)
    } else {
        &&& post.phase == Phase::Finished
        &&& r is Done
    }
}

/// The step that follows once the current unit's host is recorded:
/// the next queued unit's interface listing, or, with the queue
/// drained, the advance to the node's other listing, the next node or
/// the end of the pass.
pub open spec fn record_outcome(pre: ClusterFetch, post: ClusterFetch, r: FetchAction) -> bool {
    if pre.unit_idx + 1 < pre.units@.len() {
        &&& post.phase == Phase::AwaitIfaces
        &&& post.node_idx == pre.node_idx
        &&& post.kind == pre.kind
        &&& post.unit_idx == pre.unit_idx
        &&& post.units@ == pre.units@.remove(pre.unit_idx as int)
        &&& (r matches FetchAction::GetIfaces(n, k, id) && n@ == pre.cur_node() && k == pre.kind
            && id == pre.units@[pre.unit_idx + 1]@.vmid)
    } else {
        advance_outcome(pre, post, r)
    }
}

/// The discovery protocol against one cluster.
pub struct ClusterFetch {
    pub phase: Phase,
    pub nodes: Vec<String>,
    pub node_idx: usize,
    pub kind: UnitKind,
    pub units: Vec<UnitInfo>,
    pub unit_idx: usize,
    pub hosts: Vec<Host>,
}

impl ClusterFetch {
    /// The machine's structural invariant: indices in bounds for the
    /// phase, and every gathered host a cluster host.
    pub open spec fn wf(self) -> bool {
        &&& (self.phase == Phase::AwaitUnits || self.phase == Phase::AwaitIfaces || self.phase
            == Phase::AwaitConfig ==> self.node_idx < self.nodes@.len())
        &&& (self.phase == Phase::AwaitIfaces || self.phase == Phase::AwaitConfig ==> self.unit_idx
            < self.units@.len())
        &&& forall|i: int|
            0 <= i < self.hosts.deep_view().len() ==> cluster_host(
                #[trigger] self.hosts.deep_view()[i],
            )
    }

    /// Which event answers the awaited response.
    pub open spec fn expects(self, ev: FetchEvent) -> bool {
        match ev {
            FetchEvent::Nodes(_) => self.phase == Phase::AwaitNodes,
            FetchEvent::Units(_) => self.phase == Phase::AwaitUnits,
            FetchEvent::Ifaces(_) => self.phase == Phase::AwaitIfaces,
            FetchEvent::NetConfig(_) => self.phase == Phase::AwaitConfig,
        }
    }

    /// The node currently being walked.
    pub open spec fn cur_node(self) -> Seq<char> {
        self.nodes@[self.node_idx as int]@
    }

    /// The unit currently being resolved.
    pub open spec fn cur_unit(self) -> UnitInfoView {
        self.units@[self.unit_idx as int]@
    }

    /// A fresh pass: the caller's first request lists the nodes, and
    /// the first event answers it.
    pub fn start() -> (r: ClusterFetch)
        ensures
            r.wf(),
            r.phase == Phase::AwaitNodes,
            r.hosts@.len() == 0,
    {
        ClusterFetch {
            phase: Phase::AwaitNodes,
            nodes: Vec::new(),
            node_idx: 0,
            kind: UnitKind::Vm,
            units: Vec::new(),
            unit_idx: 0,
            hosts: Vec::new(),
        }
    }

    /// Move to the next pending work item: the next queued unit, then
    /// the other listing of the node, then the next node, then the end
    /// of the pass. Touches no gathered host.
    fn proceed(&mut self) -> (r: FetchAction)
        requires
            old(self).phase == Phase::AwaitUnits || old(self).phase == Phase::AwaitIfaces || old(
                self,
            ).phase == Phase::AwaitConfig,
            old(self).node_idx < old(self).nodes@.len(),
            old(self).wf(),
        ensures
            final(self).wf(),
            final(self).hosts@ == old(self).hosts@,
            final(self).nodes@ == old(self).nodes@,
            !(r is Failed),
            r is Done <==> final(self).phase == Phase::Finished,
            old(self).unit_idx < old(self).units@.len() ==> final(self).units@ == old(self).units@
                && final(self).unit_idx == old(self).unit_idx && final(self).node_idx == old(
                self,
            ).node_idx && final(self).kind == old(self).kind && final(self).phase
                == Phase::AwaitIfaces && (
            r matches FetchAction::GetIfaces(n, k, id) && n@ == old(self).cur_node() && k == old(
                self,
            ).kind && id == old(self).cur_unit().vmid),
            old(self).unit_idx >= old(self).units@.len() ==> advance_outcome(
                *old(self),
                *final(self),
                r,
            ) && final(self).units@.len() == 0 && final(self).unit_idx == 0,
    {
        if self.unit_idx < self.units.len() {
            self.phase = Phase::AwaitIfaces;
            let node = self.nodes[self.node_idx].clone();
            let vmid = self.units[self.unit_idx].vmid;
            return FetchAction::GetIfaces(node, self.kind, vmid);
        }
        self.units = Vec::new();
        self.unit_idx = 0;
        match self.kind {
            UnitKind::Vm => {
                self.kind = UnitKind::Lxc;
                self.phase = Phase::AwaitUnits;
                let node = self.nodes[self.node_idx].clone();
                FetchAction::GetUnits(node, UnitKind::Lxc)
            },
            UnitKind::Lxc => {
                let n = self.nodes.len();
                if self.node_idx + 1 < n {
                    self.node_idx = self.node_idx + 1;
                    self.kind = UnitKind::Vm;
                    self.phase = Phase::AwaitUnits;
                    let node = self.nodes[self.node_idx].clone();
                    FetchAction::GetUnits(node, UnitKind::Vm)
                } else {
                    self.phase = Phase::Finished;
                    FetchAction::Done
                }
            },
        }
    }

    /// Record the finished unit as a host and move on.
    fn finish_unit(&mut self, ip: Option<String>) -> (r: FetchAction)
        requires
            old(self).phase == Phase::AwaitIfaces || old(self).phase == Phase::AwaitConfig,
            old(self).wf(),
        ensures
            final(self).wf(),
            final(self).hosts.deep_view() == old(self).hosts.deep_view().push(
                unit_host(
                    old(self).cur_node(),
                    old(self).kind,
                    old(self).cur_unit(),
                    ip.deep_view(),
                ),
            ),
            final(self).nodes@ == old(self).nodes@,
            record_outcome(*old(self), *final(self), r),
            !(r is Failed),
            r is Done <==> final(self).phase == Phase::Finished,
    {
        let ghost prev = self.hosts.deep_view();
        let node = self.nodes[self.node_idx].clone();
        let unit = self.units.remove(self.unit_idx);
        let host = Host {
            name: unit.name,
            host_type: match self.kind {
                UnitKind::Vm => HostType::VM,
                UnitKind::Lxc => HostType::LXC,
            },
            status: unit.status,
            ip: ip,
            node: Some(node),
            vmid: Some(unit.vmid),
            ansible_user: Some(String::from_str("gozy")),
        };
        self.hosts.push(host);
        proof {
            assert(self.hosts.deep_view() =~= prev.push(
                unit_host(
                    old(self).cur_node(),
                    old(self).kind,
                    old(self).cur_unit(),
                    ip.deep_view(),
                ),
            ));
        }
        self.phase = Phase::AwaitUnits;
        proof {
            old(self).units@.remove_ensures(old(self).unit_idx as int);
        }
        self.proceed()
    }

    /// Consume one response and decide the next step. A failed node
    /// listing is fatal; a failed unit listing contributes nothing; a
    /// unit whose live interfaces yield no address falls back to its
    /// static configuration; a unit whose configuration yields nothing
    /// is kept with no address.
    pub fn step(&mut self, ev: FetchEvent) -> (r: FetchAction)
        requires
            old(self).wf(),
            old(self).expects(ev),
        ensures
            final(self).wf(),
            !(r is Done) && !(r is Failed) ==> final(self).phase != Phase::Finished,
            r is Done ==> final(self).phase == Phase::Finished && forall|i: int|
                0 <= i < final(self).hosts.deep_view().len() ==> cluster_host(
                    #[trigger] final(self).hosts.deep_view()[i],
                ),
            !(ev is Nodes) ==> final(self).nodes@ == old(self).nodes@,
            match ev {
                FetchEvent::Nodes(res) => match res {
                    Ok(ns) => !(r is Failed) && final(self).nodes@ == ns@ && final(self).hosts@
                        == old(self).hosts@ && (ns@.len() == 0 ==> r is Done && final(self).phase
                        == Phase::Finished) && (ns@.len() > 0 ==> final(self).phase
                        == Phase::AwaitUnits && final(self).node_idx == 0 && final(self).kind
                        == UnitKind::Vm && (
                    r matches FetchAction::GetUnits(n2, k) && n2@ == ns@[0]@ && k == UnitKind::Vm)),
                    Err(m) => r matches FetchAction::Failed(m2) && m2@ == m@ && final(self).phase
                        == Phase::Finished,
                },
                FetchEvent::Units(res) => final(self).hosts@ == old(self).hosts@ && !(r is Failed)
                    && (match res {
                    Some(us) => final(self).units@ == us@ && (us@.len() > 0 ==> final(self).phase
                        == Phase::AwaitIfaces && final(self).node_idx == old(self).node_idx
                        && final(self).kind == old(self).kind && final(self).unit_idx == 0 && (
                    r matches FetchAction::GetIfaces(n2, k, id) && n2@ == old(self).cur_node() && k
                        == old(self).kind && id == us@[0].vmid)) && (us@.len() == 0
                        ==> advance_outcome(*old(self), *final(self), r)),
                    None => advance_outcome(*old(self), *final(self), r),
                }),
                FetchEvent::Ifaces(res) => {
                    let live = match res.deep_view() {
                        Some(addrs) => match old(self).kind {
                            UnitKind::Vm => select_vm_ip(addrs),
                            UnitKind::Lxc => select_lxc_ip(addrs),
                        },
                        None => None,
                    };
                    &&& !(r is Failed)
                    &&& match live {
                        Some(ip) => final(self).hosts.deep_view() == old(
                            self,
                        ).hosts.deep_view().push(
                            unit_host(
                                old(self).cur_node(),
                                old(self).kind,
                                old(self).cur_unit(),
                                Some(ip),
                            ),
                        ) && record_outcome(*old(self), *final(self), r),
                        None => final(self).hosts@ == old(self).hosts@ && final(self).phase
                            == Phase::AwaitConfig && final(self).node_idx == old(self).node_idx
                            && final(self).kind == old(self).kind && final(self).unit_idx == old(
                            self,
                        ).unit_idx && final(self).units@ == old(self).units@ && r
                            == FetchAction::GetNetConfig(
                            final(self).nodes[old(self).node_idx as int],
                            old(self).kind,
                            old(self).cur_unit().vmid,
                        ),
                    }
                },
                FetchEvent::NetConfig(res) => {
                    let fallback = match res.deep_view() {
                        Some(es) => config_fallback_ip(es),
                        None => None,
                    };
                    &&& !(r is Failed)
                    &&& final(self).hosts.deep_view() == old(self).hosts.deep_view().push(
                        unit_host(
                            old(self).cur_node(),
                            old(self).kind,
                            old(self).cur_unit(),
                            fallback,
                        ),
                    )
                    &&& record_outcome(*old(self), *final(self), r)
                },
            },
    {
        match ev {
            FetchEvent::Nodes(res) => match res {
                Ok(ns) => {
                    self.nodes = ns;
                    self.node_idx = 0;
                    self.kind = UnitKind::Vm;
                    self.units = Vec::new();
                    self.unit_idx = 0;
                    if self.nodes.len() == 0 {
                        self.phase = Phase::Finished;
                        FetchAction::Done
                    } else {
                        self.phase = Phase::AwaitUnits;
                        let node = self.nodes[0].clone();
                        FetchAction::GetUnits(node, UnitKind::Vm)
                    }
                },
                Err(m) => {
                    self.phase = Phase::Finished;
                    FetchAction::Failed(m)
                },
            },
            FetchEvent::Units(res) => {
                match res {
                    Some(us) => {
                        let ghost usv = us@;
                        self.units = us;
                        self.unit_idx = 0;
                        let act = self.proceed();
                        assert(self.units@ =~= usv);
                        act
                    },
                    None => {
                        self.units = Vec::new();
                        self.unit_idx = 0;
                        self.proceed()
                    },
                }
            },
            FetchEvent::Ifaces(res) => {
                let live = match &res {
                    Some(addrs) => match self.kind {
                        UnitKind::Vm => pick_vm_ip(addrs),
                        UnitKind::Lxc => pick_lxc_ip(addrs),
                    },
                    None => None,
                };
                match live {
                    Some(ip) => self.finish_unit(Some(ip)),
                    None => {
                        self.phase = Phase::AwaitConfig;
                        let node = self.nodes[self.node_idx].clone();
                        let vmid = self.units[self.unit_idx].vmid;
                        FetchAction::GetNetConfig(node, self.kind, vmid)
                    },
                }
            },
            FetchEvent::NetConfig(res) => {
                let fallback = match &res {
                    Some(es) => config_ip(es),
                    None => None,
                };
                self.finish_unit(fallback)
            },
        }
    }

    /// The hosts of a finished pass.
    pub fn into_hosts(self) -> (r: Vec<Host>)
        requires
            self.phase == Phase::Finished,
        ensures
            r@ == self.hosts@,
    {
        self.hosts
    }
}

/// The outcome of one cluster's pass: its hosts, or the message of the
/// failure that ended it.
pub struct ClusterOutcome {
    pub name: String,
    pub outcome: Result<Vec<Host>, String>,
}

/// The mathematical value of one cluster's outcome.
pub ghost struct ClusterOutcomeView {
    pub name: Seq<char>,
    pub outcome: Result<Seq<HostView>, Seq<char>>,
}

impl View for ClusterOutcome {
    type V = ClusterOutcomeView;

    open spec fn view(&self) -> ClusterOutcomeView {
        ClusterOutcomeView {
            name: self.name@,
            outcome: match self.outcome {
                Ok(ref hs) => Ok(hs.deep_view()),
                Err(ref m) => Err(m@),
            },
        }
    }
}

impl DeepView for ClusterOutcome {
    type V = ClusterOutcomeView;

    open spec fn deep_view(&self) -> ClusterOutcomeView {
        self.view()
    }
}

/// One per-cluster diagnostic of a discovery pass.
#[derive(Debug)]
pub struct ClusterError {
    pub cluster: String,
    pub message: String,
}

/// The mathematical value of one diagnostic.
pub ghost struct ClusterErrorView {
    pub cluster: Seq<char>,
    pub message: Seq<char>,
}

impl View for ClusterError {
    type V = ClusterErrorView;

    open spec fn view(&self) -> ClusterErrorView {
        ClusterErrorView { cluster: self.cluster@, message: self.message@ }
    }
}

impl DeepView for ClusterError {
    type V = ClusterErrorView;

    open spec fn deep_view(&self) -> ClusterErrorView {
        self.view()
    }
}

/// The hosts of every successful cluster, concatenated in
/// configuration order; a failed cluster contributes nothing.
pub open spec fn gathered_hosts(os: Seq<ClusterOutcomeView>) -> Seq<HostView>
    decreases os.len(),
{
    if os.len() == 0 {
        Seq::<HostView>::empty()
    } else {
        gathered_hosts(os.drop_last()) + (match os.last().outcome {
            Ok(hs) => hs,
            Err(_) => Seq::<HostView>::empty(),
        })
    }
}

/// One diagnostic per failed cluster, in configuration order, each
/// naming its cluster.
pub open spec fn cluster_errors(os: Seq<ClusterOutcomeView>) -> Seq<ClusterErrorView>
    decreases os.len(),
{
    if os.len() == 0 {
        Seq::<ClusterErrorView>::empty()
    } else {
        cluster_errors(os.drop_last()) + (match os.last().outcome {
            Ok(_) => Seq::<ClusterErrorView>::empty(),
            Err(m) => seq![ClusterErrorView { cluster: os.last().name, message: m }],
        })
    }
}

/// Merge the per-cluster outcomes of one discovery pass: the hosts of
/// every successful cluster, and one diagnostic per failed one. A
/// failure never suppresses another cluster's hosts.
pub fn collect_clusters(outcomes: Vec<ClusterOutcome>) -> (r: (Vec<Host>, Vec<ClusterError>))
    ensures
        r.0.deep_view() == gathered_hosts(outcomes.deep_view()),
        r.1.deep_view() == cluster_errors(outcomes.deep_view()),
{
    let ghost ov = outcomes.deep_view();
    let mut rest = outcomes;
    let mut hosts: Vec<Host> = Vec::new();
    let mut errors: Vec<ClusterError> = Vec::new();
    let ghost mut k: int = 0;
    proof {
        assert(ov.take(0) =~= Seq::<ClusterOutcomeView>::empty());
        assert(hosts.deep_view() =~= gathered_hosts(ov.take(0)));
        assert(errors.deep_view() =~= cluster_errors(ov.take(0)));
        assert(rest.deep_view() =~= ov.skip(0));
    }
    while rest.len() > 0
        invariant
            0 <= k <= ov.len(),
            rest.deep_view() =~= ov.skip(k),
            hosts.deep_view() == gathered_hosts(ov.take(k)),
            errors.deep_view() == cluster_errors(ov.take(k)),
        decreases rest@.len(),
    {
        proof {
            assert(rest.deep_view().len() == rest@.len());
            assert(ov.skip(k).len() == ov.len() - k);
            assert(ov.skip(k)[0] == ov[0 + k]);
            assert(rest.deep_view()[0] == rest@[0].deep_view());
        }
        let ghost prev_rest = rest@;
        let entry = rest.remove(0);
        assert(entry.deep_view() == ov[k]);
        proof {
            assert(rest@ =~= prev_rest.remove(0));
            assert forall|i: int| 0 <= i < rest@.len() implies rest.deep_view()[i] == ov.skip(
                k + 1,
            )[i] by {
                assert(rest@[i] == prev_rest[i + 1]);
                assert(rest.deep_view()[i] == rest@[i].deep_view());
                assert(ov.skip(k + 1)[i] == ov[i + (k + 1)]);
                assert(ov.skip(k)[i + 1] == ov[(i + 1) + k]);
            }
            assert(rest.deep_view() =~= ov.skip(k + 1));
            assert(ov.take(k + 1).drop_last() =~= ov.take(k));
            assert(ov.take(k + 1).last() == ov[k]);
        }
        let ghost prev_hosts = hosts.deep_view();
        let ghost prev_errors = errors.deep_view();
        let name = entry.name;
        match entry.outcome {
            Ok(mut hs) => {
                let ghost hsv = hs.deep_view();
                hosts.append(&mut hs);
                proof {
                    assert forall|i: int|
                        0 <= i < hosts.deep_view().len() implies hosts.deep_view()[i] == (prev_hosts
                        + hsv)[i] by {
                        assert(hosts.deep_view()[i] == hosts@[i].deep_view());
                    }
                    assert(hosts.deep_view() =~= prev_hosts + hsv);
                    assert(hosts.deep_view() =~= gathered_hosts(ov.take(k + 1)));
                    assert(errors.deep_view() =~= cluster_errors(ov.take(k + 1)));
                }
            },
            Err(m) => {
                errors.push(ClusterError { cluster: name, message: m });
                proof {
                    assert(errors.deep_view() =~= prev_errors.push(errors@.last().deep_view()));
                    assert(errors.deep_view() =~= cluster_errors(ov.take(k + 1)));
                    assert(hosts.deep_view() =~= gathered_hosts(ov.take(k + 1)));
                }
            },
        }
        proof {
            k = k + 1;
        }
    }
    proof {
        assert(ov.take(ov.len() as int) =~= ov);
    }
    (hosts, errors)
}

/// Law: one cluster's failed node listing never suppresses another's
/// results. Merging a failed pass with a successful one yields exactly
/// the successful cluster's hosts — so their reconciliation with
/// overrides and manual entries is exactly that of the successful
/// cluster alone — and one diagnostic, recorded under the failed
/// cluster's name with the failure's message.
pub proof fn lemma_cluster_isolation(
    bad: ClusterOutcomeView,
    good: ClusterOutcomeView,
    ovs: Seq<crate::host::OverrideView>,
    ms: Seq<crate::host::ManualView>,
)
    requires
        bad.outcome is Err,
        good.outcome is Ok,
    ensures
        gathered_hosts(seq![bad, good]) == good.outcome->Ok_0,
        crate::reconcile::reconcile_spec(gathered_hosts(seq![bad, good]), ovs, ms)
            == crate::reconcile::reconcile_spec(good.outcome->Ok_0, ovs, ms),
        cluster_errors(seq![bad, good]) == seq![
            ClusterErrorView { cluster: bad.name, message: bad.outcome->Err_0 },
        ],
{
    let both = seq![bad, good];
    let solo = seq![bad];
    let none = Seq::<ClusterOutcomeView>::empty();
    let diag = ClusterErrorView { cluster: bad.name, message: bad.outcome->Err_0 };
    assert(both.drop_last() =~= solo);
    assert(both.last() == good);
    assert(solo.drop_last() =~= none);
    assert(solo.last() == bad);
    assert(gathered_hosts(none) =~= Seq::<HostView>::empty());
    assert(gathered_hosts(solo) =~= gathered_hosts(none) + Seq::<HostView>::empty());
    assert(gathered_hosts(solo) =~= Seq::<HostView>::empty());
    assert(gathered_hosts(both) =~= gathered_hosts(solo) + good.outcome->Ok_0);
    assert(gathered_hosts(both) =~= good.outcome->Ok_0);
    assert(cluster_errors(none) =~= Seq::<ClusterErrorView>::empty());
    assert(cluster_errors(solo) =~= cluster_errors(none) + seq![diag]);
    assert(cluster_errors(solo) =~= seq![diag]);
    assert(cluster_errors(both) =~= cluster_errors(solo) + Seq::<ClusterErrorView>::empty());
    assert(cluster_errors(both) =~= seq![diag]);
}

} // verus!
