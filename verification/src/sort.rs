//! The display sort order of the host list: one of five columns with a
//! toggleable direction. Names compare case-insensitively; addresses
//! compare numerically when both parse as dotted-quad IPv4 values and
//! fall back to raw lexicographic order when either does not; hosts
//! lacking an address or a node sort after those that have one,
//! whatever the direction.
//!
//! The numeric-or-lexicographic address rule is not transitive across
//! a mix of parseable and unparseable addresses, so the ordering
//! lemmas and the sort's full-ordering clauses carry a premise that
//! the list's addresses parse uniformly; the sort always leaves every
//! adjacent pair in order.

use vstd::prelude::*;

use crate::host::Host;
use crate::host::HostView;
use crate::ipv4::ipv4_value;
use crate::ipv4::parse_ipv4;
use crate::text::ci_cmp;
use crate::text::flip;
use crate::text::lemma_lex_cmp_flip;
use crate::text::lemma_lex_cmp_trans;
use crate::text::lex_cmp;
use crate::text::str_cmp;
use crate::text::str_cmp_ci;
use crate::text::Cmp;

verus! {

/// The column the host list is ordered by.
#[derive(Debug, Clone, Copy, PartialEq, Eq, Structural)]
pub enum SortColumn {
    Name,
    Type,
    Status,
    IpAddress,
    Node,
}

/// The direction of the active sort.
#[derive(Debug, Clone, Copy, PartialEq, Eq, Structural)]
pub enum SortDirection {
    Ascending,
    Descending,
}

/// A comparison adjusted for the sort direction: descending flips it.
pub open spec fn apply_dir(dir: SortDirection, c: Cmp) -> Cmp {
    match dir {
        SortDirection::Ascending => c,
        SortDirection::Descending => flip(c),
    }
}

/// Three-way comparison of two addresses: numeric when both parse as
/// IPv4, raw lexicographic when either does not.
pub open spec fn ip_cmp(a: Seq<char>, b: Seq<char>) -> Cmp {
    match (ipv4_value(a), ipv4_value(b)) {
        (Some(x), Some(y)) => if x < y {
            Cmp::Lt
        } else if x > y {
            Cmp::Gt
        } else {
            Cmp::Eq
        },
        (Some(x), None) => lex_cmp(a, b),
        (None, Some(y)) => lex_cmp(a, b),
        (None, None) => lex_cmp(a, b),
    }
}

/// Three-way comparison of two hosts under the active column and
/// direction. A missing address or node sorts last regardless of the
/// direction; the direction flips everything else.
pub open spec fn host_cmp(col: SortColumn, dir: SortDirection, a: HostView, b: HostView) -> Cmp {
    match col {
        SortColumn::Name => apply_dir(dir, ci_cmp(a.name, b.name)),
        SortColumn::Type => apply_dir(dir, lex_cmp(a.host_type.label(), b.host_type.label())),
        SortColumn::Status => apply_dir(dir, lex_cmp(a.status, b.status)),
        SortColumn::IpAddress => match (a.ip, b.ip) {
            (Some(x), Some(y)) => apply_dir(dir, ip_cmp(x, y)),
            (Some(x), None) => Cmp::Lt,
            (None, Some(y)) => Cmp::Gt,
            (None, None) => Cmp::Eq,
        },
        SortColumn::Node => match (a.node, b.node) {
            (Some(x), Some(y)) => apply_dir(dir, lex_cmp(x, y)),
            (Some(x), None) => Cmp::Lt,
            (None, Some(y)) => Cmp::Gt,
            (None, None) => Cmp::Eq,
        },
    }
}

/// The non-strict order the sort establishes.
pub open spec fn host_le(col: SortColumn, dir: SortDirection, a: HostView, b: HostView) -> bool {
    host_cmp(col, dir, a, b) != Cmp::Gt
}

/// Whether a sequence of hosts is ordered under the given column and
/// direction.
pub open spec fn sorted_hosts(s: Seq<HostView>, col: SortColumn, dir: SortDirection) -> bool {
    forall|i: int, j: int|
        0 <= i < j < s.len() ==> host_le(col, dir, #[trigger] s[i], #[trigger] s[j])
}

/// Exchanging the operands of an address comparison flips it.
proof fn lemma_ip_cmp_flip(a: Seq<char>, b: Seq<char>)
    ensures
        ip_cmp(a, b) == flip(ip_cmp(b, a)),
{
    lemma_lex_cmp_flip(false, a, b);
}

/// The address order is transitive in its non-strict form, provided
/// the three addresses parse uniformly: all as dotted quads, or none.
proof fn lemma_ip_cmp_trans(a: Seq<char>, b: Seq<char>, c: Seq<char>)
    requires
        ip_cmp(a, b) != Cmp::Gt,
        ip_cmp(b, c) != Cmp::Gt,
        ipv4_value(a) is Some <==> ipv4_value(b) is Some,
        ipv4_value(b) is Some <==> ipv4_value(c) is Some,
    ensures
        ip_cmp(a, c) != Cmp::Gt,
{
    if ipv4_value(a) is None && ipv4_value(b) is None && ipv4_value(c) is None {
        lemma_lex_cmp_trans(false, a, b, c);
    }
}

/// Exchanging the operands of a host comparison flips it.
pub proof fn lemma_host_cmp_flip(col: SortColumn, dir: SortDirection, a: HostView, b: HostView)
    ensures
        host_cmp(col, dir, a, b) == flip(host_cmp(col, dir, b, a)),
{
    match col {
        SortColumn::Name => {
            lemma_lex_cmp_flip(true, a.name, b.name);
        },
        SortColumn::Type => {
            lemma_lex_cmp_flip(false, a.host_type.label(), b.host_type.label());
        },
        SortColumn::Status => {
            lemma_lex_cmp_flip(false, a.status, b.status);
        },
        SortColumn::IpAddress => {
            if a.ip is Some && b.ip is Some {
                lemma_ip_cmp_flip(a.ip->0, b.ip->0);
            }
        },
        SortColumn::Node => {
            if a.node is Some && b.node is Some {
                lemma_lex_cmp_flip(false, a.node->0, b.node->0);
            }
        },
    }
}

/// Whether two hosts' addresses parse uniformly: when both carry one,
/// either both parse as dotted quads or neither does. Pairs like this
/// are the ones the address order compares consistently.
pub open spec fn addr_compat(a: HostView, b: HostView) -> bool {
    a.ip is Some && b.ip is Some ==> (ipv4_value(a.ip->0) is Some <==> ipv4_value(b.ip->0)
        is Some)
}

/// Whether every pair of rows parses its addresses uniformly.
pub open spec fn uniform_addrs(s: Seq<HostView>) -> bool {
    forall|i: int, j: int|
        0 <= i < s.len() && 0 <= j < s.len() ==> addr_compat(#[trigger] s[i], #[trigger] s[j])
}

/// Whether the column's order is a total preorder on this list: it is
/// for every column but the address column, where a mix of parseable
/// and unparseable addresses makes the numeric-or-lexicographic rule
/// cyclic.
pub open spec fn sortable(s: Seq<HostView>, col: SortColumn) -> bool {
    col == SortColumn::IpAddress ==> uniform_addrs(s)
}

/// The host order is transitive; under the address column this asks
/// that the three rows' addresses parse uniformly.
pub proof fn lemma_host_le_trans(
    col: SortColumn,
    dir: SortDirection,
    a: HostView,
    b: HostView,
    c: HostView,
)
    requires
        host_le(col, dir, a, b),
        host_le(col, dir, b, c),
        col == SortColumn::IpAddress ==> addr_compat(a, b) && addr_compat(b, c) && addr_compat(
            a,
            c,
        ),
    ensures
        host_le(col, dir, a, c),
{
    match dir {
        SortDirection::Ascending => {
            match col {
                SortColumn::Name => {
                    lemma_lex_cmp_trans(true, a.name, b.name, c.name);
                },
                SortColumn::Type => {
                    lemma_lex_cmp_trans(
                        false,
                        a.host_type.label(),
                        b.host_type.label(),
                        c.host_type.label(),
                    );
                },
                SortColumn::Status => {
                    lemma_lex_cmp_trans(false, a.status, b.status, c.status);
                },
                SortColumn::IpAddress => {
                    if a.ip is Some && b.ip is Some && c.ip is Some {
                        lemma_ip_cmp_trans(a.ip->0, b.ip->0, c.ip->0);
                    }
                },
                SortColumn::Node => {
                    if a.node is Some && b.node is Some && c.node is Some {
                        lemma_lex_cmp_trans(false, a.node->0, b.node->0, c.node->0);
                    }
                },
            }
        },
        SortDirection::Descending => {
            match col {
                SortColumn::Name => {
                    lemma_lex_cmp_flip(true, a.name, b.name);
                    lemma_lex_cmp_flip(true, b.name, c.name);
                    lemma_lex_cmp_trans(true, c.name, b.name, a.name);
                    lemma_lex_cmp_flip(true, a.name, c.name);
                },
                SortColumn::Type => {
                    lemma_lex_cmp_flip(false, a.host_type.label(), b.host_type.label());
                    lemma_lex_cmp_flip(false, b.host_type.label(), c.host_type.label());
                    lemma_lex_cmp_trans(
                        false,
                        c.host_type.label(),
                        b.host_type.label(),
                        a.host_type.label(),
                    );
                    lemma_lex_cmp_flip(false, a.host_type.label(), c.host_type.label());
                },
                SortColumn::Status => {
                    lemma_lex_cmp_flip(false, a.status, b.status);
                    lemma_lex_cmp_flip(false, b.status, c.status);
                    lemma_lex_cmp_trans(false, c.status, b.status, a.status);
                    lemma_lex_cmp_flip(false, a.status, c.status);
                },
                SortColumn::IpAddress => {
                    if a.ip is Some && b.ip is Some && c.ip is Some {
                        lemma_ip_cmp_flip(a.ip->0, b.ip->0);
                        lemma_ip_cmp_flip(b.ip->0, c.ip->0);
                        lemma_ip_cmp_trans(c.ip->0, b.ip->0, a.ip->0);
                        lemma_ip_cmp_flip(a.ip->0, c.ip->0);
                    }
                },
                SortColumn::Node => {
                    if a.node is Some && b.node is Some && c.node is Some {
                        lemma_lex_cmp_flip(false, a.node->0, b.node->0);
                        lemma_lex_cmp_flip(false, b.node->0, c.node->0);
                        lemma_lex_cmp_trans(false, c.node->0, b.node->0, a.node->0);
                        lemma_lex_cmp_flip(false, a.node->0, c.node->0);
                    }
                },
            }
        },
    }
}

/// A comparison adjusted for the sort direction, computed.
fn apply_dir_of(dir: &SortDirection, c: Cmp) -> (r: Cmp)
    ensures
        r == apply_dir(*dir, c),
{
    match dir {
        SortDirection::Ascending => c,
        SortDirection::Descending => match c {
            Cmp::Lt => Cmp::Gt,
            Cmp::Eq => Cmp::Eq,
            Cmp::Gt => Cmp::Lt,
        },
    }
}

/// Three-way comparison of two addresses, computed.
fn ip_compare(a: &String, b: &String) -> (r: Cmp)
    ensures
        r == ip_cmp(a@, b@),
{
    let va = parse_ipv4(a.as_str());
    let vb = parse_ipv4(b.as_str());
    match (va, vb) {
        (Some(x), Some(y)) => {
            if x < y {
                Cmp::Lt
            } else if x > y {
                Cmp::Gt
            } else {
                Cmp::Eq
            }
        },
        _ => str_cmp(a.as_str(), b.as_str()),
    }
}

/// Moving an element of a sequence to an earlier position keeps its
/// multiset of elements.
proof fn lemma_move_back_multiset<A>(s: Seq<A>, i: int, p: int)
    requires
        0 <= i < s.len(),
        0 <= p <= i,
    ensures
        s.remove(i).insert(p, s[i]).to_multiset() == s.to_multiset(),
{
    broadcast use vstd::seq_lib::group_to_multiset_ensures;
    broadcast use vstd::multiset::group_multiset_axioms;

    let r = s.remove(i);
    let t = r.insert(p, s[i]);
    s.remove_ensures(i);
    r.insert_ensures(p, s[i]);
    assert(t.remove(p) =~= r);
    assert(t[p] == s[i]);
    assert(r.to_multiset() =~= s.to_multiset().remove(s[i]));
    assert(t.remove(p).to_multiset() =~= t.to_multiset().remove(t[p]));
    assert(s.contains(s[i]));
    assert(t.contains(t[p]));
    assert(s.to_multiset().count(s[i]) > 0);
    assert(t.to_multiset().count(s[i]) > 0);
    assert forall|x: A| t.to_multiset().count(x) == s.to_multiset().count(x) by {
        assert(t.to_multiset().remove(t[p]).count(x) == s.to_multiset().remove(s[i]).count(x));
    }
    assert(t.to_multiset() =~= s.to_multiset());
}

/// Sort the host list under the active column and direction: the
/// result holds the same records, with every adjacent pair in order.
/// When the column's order is a total preorder on the list — always,
/// except under the address column with a mix of parseable and
/// unparseable addresses — the whole result is ordered, and a list
/// already in order comes back exactly as it was, so repeating a sort
/// changes nothing.
#[verifier::rlimit(100)]
pub fn sort_hosts(hosts: &mut Vec<Host>, col: &SortColumn, dir: &SortDirection)
    ensures
        final(hosts).deep_view().to_multiset() == old(hosts).deep_view().to_multiset(),
        forall|k: int|
            0 <= k < final(hosts).deep_view().len() - 1 ==> host_le(
                *col,
                *dir,
                #[trigger] final(hosts).deep_view()[k],
                final(hosts).deep_view()[k + 1],
            ),
        sortable(old(hosts).deep_view(), *col) ==> sorted_hosts(
            final(hosts).deep_view(),
            *col,
            *dir,
        ),
        sortable(old(hosts).deep_view(), *col) && sorted_hosts(
            old(hosts).deep_view(),
            *col,
            *dir,
        ) ==> final(hosts)@ == old(hosts)@,
{
    let ghost orig_dv = hosts.deep_view();
    let ghost orig_ex = hosts@;
    let n = hosts.len();
    if n == 0 {
        return ;
    }
    let mut i: usize = 1;
    while i < n
        invariant
            1 <= i <= n,
            n == hosts@.len(),
            orig_dv.len() == n,
            orig_dv == Seq::new(orig_ex.len(), |k: int| orig_ex[k].deep_view()),
            hosts.deep_view().to_multiset() == orig_dv.to_multiset(),
            forall|k: int|
                0 <= k < i - 1 ==> host_le(
                    *col,
                    *dir,
                    #[trigger] hosts.deep_view()[k],
                    hosts.deep_view()[k + 1],
                ),
            uniform_addrs(orig_dv) ==> uniform_addrs(hosts.deep_view()),
            sortable(orig_dv, *col) ==> forall|p: int, q: int|
                0 <= p < q < i ==> host_le(
                    *col,
                    *dir,
                    #[trigger] hosts.deep_view()[p],
                    #[trigger] hosts.deep_view()[q],
                ),
            sortable(orig_dv, *col) && sorted_hosts(orig_dv, *col, *dir) ==> hosts@ == orig_ex,
        decreases n - i,
    {
        let ghost dvb = hosts.deep_view();
        let mut p: usize = 0;
        while p < i && host_compare(col, dir, &hosts[p], &hosts[i]) != Cmp::Gt
            invariant
                p <= i,
                i < n,
                n == hosts@.len(),
                dvb == hosts.deep_view(),
                forall|q: int|
                    0 <= q < p ==> host_le(*col, *dir, #[trigger] dvb[q], dvb[i as int]),
            decreases i - p,
    {
            assert(host_le(*col, *dir, dvb[p as int], dvb[i as int]));
            p = p + 1;
        }
        if p < i {
            assert(host_cmp(*col, *dir, dvb[p as int], dvb[i as int]) == Cmp::Gt);
            proof {
                if sortable(orig_dv, *col) && sorted_hosts(orig_dv, *col, *dir) {
                    assert(hosts.deep_view() =~= orig_dv);
                    assert(host_le(*col, *dir, orig_dv[p as int], orig_dv[i as int]));
                    assert(false);
                }
            }
            let ghost exb = hosts@;
            let moved = hosts.remove(i);
            hosts.insert(p, moved);
            proof {
                let x = dvb[i as int];
                let dvn = dvb.remove(i as int).insert(p as int, x);
                dvb.remove_ensures(i as int);
                dvb.remove(i as int).insert_ensures(p as int, x);
                assert(hosts@ =~= exb.remove(i as int).insert(p as int, exb[i as int]));
                exb.remove_ensures(i as int);
                exb.remove(i as int).insert_ensures(p as int, exb[i as int]);
                assert forall|k: int| 0 <= k < n implies hosts.deep_view()[k] == dvn[k] by {
                    assert(hosts.deep_view()[k] == hosts@[k].deep_view());
                    if k < p {
                        assert(hosts@[k] == exb[k]);
                        assert(dvn[k] == dvb[k]);
                    } else if k == p {
                        assert(hosts@[k] == exb[i as int]);
                        assert(dvn[k] == x);
                    } else if k <= i {
                        assert(hosts@[k] == exb.remove(i as int)[k - 1]);
                        assert(exb.remove(i as int)[k - 1] == exb[k - 1]);
                        assert(dvn[k] == dvb.remove(i as int)[k - 1]);
                        assert(dvb.remove(i as int)[k - 1] == dvb[k - 1]);
                    } else {
                        assert(hosts@[k] == exb.remove(i as int)[k - 1]);
                        assert(exb.remove(i as int)[k - 1] == exb[k]);
                        assert(dvn[k] == dvb.remove(i as int)[k - 1]);
                        assert(dvb.remove(i as int)[k - 1] == dvb[k]);
                    }
                }
                assert(hosts.deep_view() =~= dvn);
                lemma_move_back_multiset(dvb, i as int, p as int);
                lemma_host_cmp_flip(*col, *dir, dvb[p as int], x);
                assert(host_le(*col, *dir, x, dvb[p as int]));
                assert forall|k: int|
                    0 <= k < n implies exists|m: int| 0 <= m < n && #[trigger] dvn[k] == dvb[m] by {
                    if k < p {
                        assert(dvn[k] == dvb[k]);
                    } else if k == p {
                        assert(dvn[k] == dvb[i as int]);
                    } else if k <= i {
                        assert(dvn[k] == dvb[k - 1]);
                    } else {
                        assert(dvn[k] == dvb[k]);
                    }
                }
                if uniform_addrs(orig_dv) {
                    assert forall|k1: int, k2: int|
                        0 <= k1 < n && 0 <= k2 < n implies addr_compat(
                        #[trigger] dvn[k1],
                        #[trigger] dvn[k2],
                    ) by {
                        let m1 = choose|m: int| 0 <= m < n && dvn[k1] == dvb[m];
                        let m2 = choose|m: int| 0 <= m < n && dvn[k2] == dvb[m];
                        assert(addr_compat(dvb[m1], dvb[m2]));
                    }
                }
                assert forall|k: int|
                    0 <= k < i implies host_le(*col, *dir, #[trigger] dvn[k], dvn[k + 1]) by {
                    if k + 1 < p {
                        assert(dvn[k] == dvb[k] && dvn[k + 1] == dvb[k + 1]);
                        assert(host_le(*col, *dir, dvb[k], dvb[k + 1]));
                    } else if k + 1 == p {
                        assert(dvn[k] == dvb[k] && dvn[k + 1] == x);
                        assert(host_le(*col, *dir, dvb[k], dvb[i as int]));
                    } else if k == p {
                        assert(dvn[k] == x && dvn[k + 1] == dvb[p as int]);
                    } else {
                        assert(dvn[k] == dvb[k - 1] && dvn[k + 1] == dvb[k]);
                        assert(host_le(*col, *dir, dvb[k - 1], dvb[k]));
                    }
                }
                if sortable(orig_dv, *col) {
                    assert forall|a: int, b: int|
                        0 <= a < b < i + 1 implies host_le(*col, *dir, dvn[a], dvn[b]) by {
                        if b < p {
                            assert(dvn[a] == dvb[a] && dvn[b] == dvb[b]);
                        } else if b == p {
                            assert(dvn[a] == dvb[a] && dvn[b] == x);
                        } else if a < p {
                            assert(dvn[a] == dvb[a] && dvn[b] == dvb[b - 1]);
                            assert(p <= b - 1);
                            if a < b - 1 {
                            } else {
                                assert(a == b - 1 && a >= p);
                                assert(false);
                            }
                        } else if a == p {
                            assert(dvn[a] == x && dvn[b] == dvb[b - 1]);
                            if b - 1 > p {
                                assert(host_le(*col, *dir, dvb[p as int], dvb[b - 1]));
                                if *col == SortColumn::IpAddress {
                                    assert(addr_compat(x, dvb[p as int]));
                                    assert(addr_compat(dvb[p as int], dvb[b - 1]));
                                    assert(addr_compat(x, dvb[b - 1]));
                                }
                                lemma_host_le_trans(*col, *dir, x, dvb[p as int], dvb[b - 1]);
                            }
                        } else {
                            assert(dvn[a] == dvb[a - 1] && dvn[b] == dvb[b - 1]);
                        }
                    }
                }
            }
        } else {
            assert(p == i);
            proof {
                assert forall|k: int|
                    0 <= k < i implies host_le(*col, *dir, #[trigger] dvb[k], dvb[k + 1]) by {
                    if k == i - 1 {
                        assert(host_le(*col, *dir, dvb[k], dvb[i as int]));
                    }
                }
                if sortable(orig_dv, *col) {
                    assert forall|a: int, b: int|
                        0 <= a < b < i + 1 implies host_le(*col, *dir, dvb[a], dvb[b]) by {
                        if b == i {
                            assert(host_le(*col, *dir, dvb[a], dvb[i as int]));
                        }
                    }
                }
            }
        }
        i = i + 1;
    }
    assert(hosts.deep_view() =~= final(hosts).deep_view());
}

/// Once a row without an address appears, every later row of an
/// adjacently-ordered list lacks one too.
proof fn lemma_missing_ip_propagates(s: Seq<HostView>, dir: SortDirection, i: int, j: int)
    requires
        forall|k: int|
            0 <= k < s.len() - 1 ==> host_le(
                SortColumn::IpAddress,
                dir,
                #[trigger] s[k],
                s[k + 1],
            ),
        0 <= i <= j < s.len(),
        s[i].ip is None,
    ensures
        s[j].ip is None,
    decreases j - i,
{
    if j > i {
        assert(host_le(SortColumn::IpAddress, dir, s[i], s[i + 1]));
        assert(s[i + 1].ip is None);
        lemma_missing_ip_propagates(s, dir, i + 1, j);
    }
}

/// Law: a list whose every adjacent pair is ordered by address — as
/// every sorted list is, and as the sort always leaves the list —
/// keeps every host lacking an address after every host that has one,
/// whatever the direction.
pub proof fn lemma_ip_sort_places_missing_last(s: Seq<HostView>, dir: SortDirection)
    requires
        forall|k: int|
            0 <= k < s.len() - 1 ==> host_le(
                SortColumn::IpAddress,
                dir,
                #[trigger] s[k],
                s[k + 1],
            ),
    ensures
        forall|i: int, j: int|
            0 <= i < j < s.len() ==> !((#[trigger] s[i]).ip is None && (#[trigger] s[j]).ip
                is Some),
{
    assert forall|i: int, j: int|
        0 <= i < j < s.len() implies !(s[i].ip is None && s[j].ip is Some) by {
        if s[i].ip is None {
            lemma_missing_ip_propagates(s, dir, i, j);
        }
    }
}

/// Whether no two distinct rows of `s` are tied under the column and
/// direction.
pub open spec fn no_ties(s: Seq<HostView>, col: SortColumn, dir: SortDirection) -> bool {
    forall|i: int, j: int|
        0 <= i < s.len() && 0 <= j < s.len() && i != j ==> host_cmp(
            col,
            dir,
            #[trigger] s[i],
            #[trigger] s[j],
        ) != Cmp::Eq
}

/// Two ordered lists holding the same rows, with no two rows tied, are
/// the same list.
proof fn lemma_sorted_no_ties_unique(
    x: Seq<HostView>,
    y: Seq<HostView>,
    col: SortColumn,
    dir: SortDirection,
)
    requires
        sorted_hosts(x, col, dir),
        sorted_hosts(y, col, dir),
        x.to_multiset() == y.to_multiset(),
        no_ties(x, col, dir),
    ensures
        x =~= y,
    decreases x.len(),
{
    broadcast use vstd::seq_lib::group_to_multiset_ensures;
    broadcast use vstd::multiset::group_multiset_axioms;

    assert(x.len() == x.to_multiset().len());
    assert(y.len() == y.to_multiset().len());
    if x.len() > 0 {
        assert(y.contains(y[0]));
        assert(y.to_multiset().count(y[0]) > 0);
        assert(x.to_multiset().count(y[0]) > 0);
        assert(x.contains(y[0]));
        let i = choose|i: int| 0 <= i < x.len() && x[i] == y[0];
        assert(x.contains(x[0]));
        assert(y.to_multiset().count(x[0]) > 0);
        assert(y.contains(x[0]));
        let k = choose|k: int| 0 <= k < y.len() && y[k] == x[0];
        if x[0] != y[0] {
            assert(i != 0);
            assert(k != 0);
            assert(host_le(col, dir, x[0], x[i]));
            assert(host_le(col, dir, y[0], y[k]));
            lemma_host_cmp_flip(col, dir, x[0], y[0]);
            assert(host_cmp(col, dir, x[0], x[i]) == Cmp::Eq);
            assert(false);
        }
        let xd = x.drop_first();
        let yd = y.drop_first();
        assert(x.remove(0) =~= xd);
        assert(y.remove(0) =~= yd);
        assert(xd.to_multiset() =~= x.to_multiset().remove(x[0]));
        assert(yd.to_multiset() =~= y.to_multiset().remove(y[0]));
        assert(xd.to_multiset() == yd.to_multiset());
        assert forall|a: int, b: int|
            0 <= a < b < xd.len() implies host_le(col, dir, #[trigger] xd[a], #[trigger] xd[b]) by {
            assert(xd[a] == x[a + 1] && xd[b] == x[b + 1]);
            assert(host_le(col, dir, x[a + 1], x[b + 1]));
        }
        assert forall|a: int, b: int|
            0 <= a < b < yd.len() implies host_le(col, dir, #[trigger] yd[a], #[trigger] yd[b]) by {
            assert(yd[a] == y[a + 1] && yd[b] == y[b + 1]);
            assert(host_le(col, dir, y[a + 1], y[b + 1]));
        }
        assert forall|a: int, b: int|
            0 <= a < xd.len() && 0 <= b < xd.len() && a != b implies host_cmp(
            col,
            dir,
            #[trigger] xd[a],
            #[trigger] xd[b],
        ) != Cmp::Eq by {
            assert(xd[a] == x[a + 1] && xd[b] == x[b + 1]);
            assert(host_cmp(col, dir, x[a + 1], x[b + 1]) != Cmp::Eq);
        }
        lemma_sorted_no_ties_unique(xd, yd, col, dir);
        assert forall|m: int| 0 <= m < x.len() implies x[m] == y[m] by {
            if m > 0 {
                assert(x[m] == xd[m - 1] && y[m] == yd[m - 1]);
            }
        }
    }
}

/// With the key present on both sides, the descending comparison is
/// exactly the flipped ascending one.
proof fn lemma_host_cmp_dir_swap(col: SortColumn, a: HostView, b: HostView)
    requires
        col == SortColumn::IpAddress ==> a.ip is Some && b.ip is Some,
        col == SortColumn::Node ==> a.node is Some && b.node is Some,
    ensures
        host_cmp(col, SortDirection::Descending, a, b) == flip(
            host_cmp(col, SortDirection::Ascending, a, b),
        ),
{
}

/// Law: when no two rows tie under the active column, and every row
/// carries the compared key, the list ordered in the opposite direction
/// is exactly the reverse. A row without an address or node would sort
/// last in both directions, so the law asks for the key to be present
/// under those two columns.
pub proof fn lemma_toggle_direction_reverses(s: Seq<HostView>, t: Seq<HostView>, col: SortColumn)
    requires
        s.to_multiset() == t.to_multiset(),
        sorted_hosts(s, col, SortDirection::Ascending),
        sorted_hosts(t, col, SortDirection::Descending),
        no_ties(s, col, SortDirection::Ascending),
        col == SortColumn::IpAddress ==> forall|i: int|
            0 <= i < s.len() ==> (#[trigger] s[i]).ip is Some,
        col == SortColumn::Node ==> forall|i: int|
            0 <= i < s.len() ==> (#[trigger] s[i]).node is Some,
    ensures
        t =~= s.reverse(),
{
    broadcast use vstd::seq_lib::group_to_multiset_ensures;
    broadcast use vstd::multiset::group_multiset_axioms;

    let n = t.len();
    assert(s.len() == s.to_multiset().len());
    assert(t.len() == t.to_multiset().len());
    assert forall|k: int|
        0 <= k < n implies (col == SortColumn::IpAddress ==> (#[trigger] t[k]).ip is Some) && (col
        == SortColumn::Node ==> t[k].node is Some) by {
        assert(t.contains(t[k]));
        assert(t.to_multiset().count(t[k]) > 0);
        assert(s.to_multiset().count(t[k]) > 0);
        assert(s.contains(t[k]));
        let m = choose|m: int| 0 <= m < s.len() && s[m] == t[k];
        assert(s[m] == t[k]);
    }
    let r = t.reverse();
    t.lemma_reverse_to_multiset();
    assert(r.to_multiset() == s.to_multiset());
    assert forall|i: int, j: int|
        0 <= i < j < r.len() implies host_le(
        col,
        SortDirection::Ascending,
        #[trigger] r[i],
        #[trigger] r[j],
    ) by {
        assert(r[i] == t[n - 1 - i]);
        assert(r[j] == t[n - 1 - j]);
        assert(host_le(col, SortDirection::Descending, t[n - 1 - j], t[n - 1 - i]));
        lemma_host_cmp_dir_swap(col, t[n - 1 - j], t[n - 1 - i]);
        lemma_host_cmp_flip(col, SortDirection::Ascending, t[n - 1 - j], t[n - 1 - i]);
    }
    lemma_sorted_no_ties_unique(s, r, col, SortDirection::Ascending);
    assert forall|k: int| 0 <= k < n implies t[k] == s.reverse()[k] by {
        assert(s.reverse()[k] == s[n - 1 - k]);
        assert(r[n - 1 - k] == t[k]);
        assert(s[n - 1 - k] == r[n - 1 - k]);
    }
}

/// Three-way comparison of two hosts under the active column and
/// direction, computed.
pub fn host_compare(col: &SortColumn, dir: &SortDirection, a: &Host, b: &Host) -> (r: Cmp)
    ensures
        r == host_cmp(*col, *dir, a@, b@),
{
    match col {
        SortColumn::Name => apply_dir_of(dir, str_cmp_ci(a.name.as_str(), b.name.as_str())),
        SortColumn::Type => apply_dir_of(dir, str_cmp(a.host_type.as_str(), b.host_type.as_str())),
        SortColumn::Status => apply_dir_of(dir, str_cmp(a.status.as_str(), b.status.as_str())),
        SortColumn::IpAddress => match (&a.ip, &b.ip) {
            (Some(x), Some(y)) => apply_dir_of(dir, ip_compare(x, y)),
            (Some(_), None) => Cmp::Lt,
            (None, Some(_)) => Cmp::Gt,
            (None, None) => Cmp::Eq,
        },
        SortColumn::Node => match (&a.node, &b.node) {
            (Some(x), Some(y)) => apply_dir_of(dir, str_cmp(x.as_str(), y.as_str())),
            (Some(_), None) => Cmp::Lt,
            (None, Some(_)) => Cmp::Gt,
            (None, None) => Cmp::Eq,
        },
    }
}

} // verus!
