//! Best-effort IP discovery for one compute unit: first the live
//! guest-agent or container interface list, then, if that yields
//! nothing, a tolerant scan of the unit's static network configuration
//! for an embedded `ip=` token. Absence is a valid outcome, never an
//! error.

use vstd::prelude::*;

use crate::text::contains_char;
use crate::text::find_char;
use crate::text::find_sub;
use crate::text::lemma_find_char;
use crate::text::lemma_find_sub;
use crate::text::starts_with;
use crate::text::str_contains_char;
use crate::text::str_find_char;
use crate::text::str_find_sub;
use crate::text::str_starts_with;

verus! {

/// One key/value pair of a unit's static configuration; values that
/// are not plain text carry nothing.
#[derive(Debug)]
pub struct ConfigEntry {
    pub key: String,
    pub value: Option<String>,
}

/// The mathematical value of a configuration entry.
pub ghost struct ConfigEntryView {
    pub key: Seq<char>,
    pub value: Option<Seq<char>>,
}

impl View for ConfigEntry {
    type V = ConfigEntryView;

    open spec fn view(&self) -> ConfigEntryView {
        ConfigEntryView {
            key: self.key@,
            value: match self.value {
                Some(ref v) => Some(v@),
                None => None,
            },
        }
    }
}

impl DeepView for ConfigEntry {
    type V = ConfigEntryView;

    open spec fn deep_view(&self) -> ConfigEntryView {
        self.view()
    }
}

/// An address with any CIDR suffix removed: everything before the
/// first slash.
pub open spec fn strip_cidr(ip: Seq<char>) -> Seq<char> {
    ip.take(find_char(ip, '/'))
}

/// An address with any CIDR suffix removed, computed.
pub fn strip_cidr_str(ip: &str) -> (r: String)
    ensures
        r@ == strip_cidr(ip@),
{
    proof {
        lemma_find_char(ip@, '/');
    }
    let f = str_find_char(ip, '/');
    let head = ip.substring_char(0, f);
    assert(head@ =~= strip_cidr(ip@));
    head.to_owned()
}

/// Whether a stripped guest-agent address is acceptable: neither
/// loopback nor IPv6-shaped.
pub open spec fn usable_vm_addr(ip: Seq<char>) -> bool {
    !starts_with(ip, "127."@) && !contains_char(ip, ':')
}

/// The first acceptable address in a guest-agent interface listing,
/// CIDR suffixes removed before the test.
pub open spec fn select_vm_ip(addrs: Seq<Option<Seq<char>>>) -> Option<Seq<char>>
    decreases addrs.len(),
{
    if addrs.len() == 0 {
        None
    } else {
        match addrs[0] {
            Some(raw) => if usable_vm_addr(strip_cidr(raw)) {
                Some(strip_cidr(raw))
            } else {
                select_vm_ip(addrs.drop_first())
            },
            None => select_vm_ip(addrs.drop_first()),
        }
    }
}

/// The first acceptable address in a guest-agent interface listing,
/// computed.
pub fn pick_vm_ip(addrs: &Vec<Option<String>>) -> (r: Option<String>)
    ensures
        r.deep_view() == select_vm_ip(addrs.deep_view()),
{
    let ghost av = addrs.deep_view();
    proof {
        assert(av.skip(0) =~= av);
    }
    let mut i: usize = 0;
    while i < addrs.len()
        invariant
            i <= addrs@.len(),
            av == addrs.deep_view(),
            av.len() == addrs@.len(),
            select_vm_ip(av) == select_vm_ip(av.skip(i as int)),
        decreases addrs@.len() - i,
    {
        proof {
            assert(av.skip(i as int)[0] == av[i as int]);
            assert(av.skip(i as int).drop_first() =~= av.skip(i + 1));
        }
        match &addrs[i] {
            Some(raw) => {
                let stripped = strip_cidr_str(raw.as_str());
                let lo = str_starts_with(stripped.as_str(), "127.");
                let v6 = str_contains_char(stripped.as_str(), ':');
                if !lo && !v6 {
                    return Some(stripped);
                }
            },
            None => {},
        }
        i = i + 1;
    }
    proof {
        assert(av.skip(i as int).len() == 0);
    }
    None
}

/// Whether a stripped container address is acceptable: neither
/// loopback nor empty.
pub open spec fn usable_lxc_addr(ip: Seq<char>) -> bool {
    !starts_with(ip, "127."@) && ip.len() > 0
}

/// The first acceptable address in a container interface listing,
/// CIDR suffixes removed before the test.
pub open spec fn select_lxc_ip(inets: Seq<Option<Seq<char>>>) -> Option<Seq<char>>
    decreases inets.len(),
{
    if inets.len() == 0 {
        None
    } else {
        match inets[0] {
            Some(raw) => if usable_lxc_addr(strip_cidr(raw)) {
                Some(strip_cidr(raw))
            } else {
                select_lxc_ip(inets.drop_first())
            },
            None => select_lxc_ip(inets.drop_first()),
        }
    }
}

/// The first acceptable address in a container interface listing,
/// computed.
pub fn pick_lxc_ip(inets: &Vec<Option<String>>) -> (r: Option<String>)
    ensures
        r.deep_view() == select_lxc_ip(inets.deep_view()),
{
    let ghost iv = inets.deep_view();
    proof {
        assert(iv.skip(0) =~= iv);
    }
    let mut i: usize = 0;
    while i < inets.len()
        invariant
            i <= inets@.len(),
            iv == inets.deep_view(),
            iv.len() == inets@.len(),
            select_lxc_ip(iv) == select_lxc_ip(iv.skip(i as int)),
        decreases inets@.len() - i,
    {
        proof {
            assert(iv.skip(i as int)[0] == iv[i as int]);
            assert(iv.skip(i as int).drop_first() =~= iv.skip(i + 1));
        }
        match &inets[i] {
            Some(raw) => {
                let stripped = strip_cidr_str(raw.as_str());
                let lo = str_starts_with(stripped.as_str(), "127.");
                if !lo && stripped.as_str().unicode_len() > 0 {
                    return Some(stripped);
                }
            },
            None => {},
        }
        i = i + 1;
    }
    proof {
        assert(iv.skip(i as int).len() == 0);
    }
    None
}

/// The address embedded in one configuration value: the text after the
/// first `ip=` token, up to the next comma or space, CIDR suffix
/// removed; nothing when the token or the delimiter is missing.
pub open spec fn net_value_ip(v: Seq<char>) -> Option<Seq<char>> {
    match find_sub(v, "ip="@) {
        None => None,
        Some(at) => {
            let rest = v.skip(at + "ip="@.len() as int);
            let cut = if find_char(rest, ',') < find_char(rest, ' ') {
                find_char(rest, ',')
            } else {
                find_char(rest, ' ')
            };
            if cut == rest.len() {
                None
            } else {
                Some(strip_cidr(rest.take(cut)))
            }
        },
    }
}

/// The address embedded in one configuration value, computed.
pub fn net_value_ip_of(v: &str) -> (r: Option<String>)
    ensures
        r.deep_view() == net_value_ip(v@),
{
    proof {
        reveal_strlit("ip=");
        lemma_find_sub(v@, "ip="@);
    }
    let at = match str_find_sub(v, "ip=") {
        Some(at) => at,
        None => {
            return None;
        },
    };
    let n = v.unicode_len();
    let rest = v.substring_char(at + 3, n);
    assert(rest@ =~= v@.skip(at + "ip="@.len() as int));
    proof {
        lemma_find_char(rest@, ',');
        lemma_find_char(rest@, ' ');
    }
    let fc = str_find_char(rest, ',');
    let fs = str_find_char(rest, ' ');
    let cut = if fc < fs {
        fc
    } else {
        fs
    };
    if cut == rest.unicode_len() {
        return None;
    }
    let head = rest.substring_char(0, cut);
    assert(head@ =~= rest@.take(cut as int));
    Some(strip_cidr_str(head))
}

/// The fallback address drawn from a unit's static configuration: the
/// first entry whose key begins with `net` and whose value yields an
/// embedded address.
pub open spec fn config_fallback_ip(entries: Seq<ConfigEntryView>) -> Option<Seq<char>>
    decreases entries.len(),
{
    if entries.len() == 0 {
        None
    } else {
        let e = entries[0];
        if starts_with(e.key, "net"@) && e.value is Some && net_value_ip(e.value->0) is Some {
            net_value_ip(e.value->0)
        } else {
            config_fallback_ip(entries.drop_first())
        }
    }
}

/// The fallback address drawn from a unit's static configuration,
/// computed.
pub fn config_ip(entries: &Vec<ConfigEntry>) -> (r: Option<String>)
    ensures
        r.deep_view() == config_fallback_ip(entries.deep_view()),
{
    let ghost ev = entries.deep_view();
    proof {
        assert(ev.skip(0) =~= ev);
    }
    let mut i: usize = 0;
    while i < entries.len()
        invariant
            i <= entries@.len(),
            ev == entries.deep_view(),
            ev.len() == entries@.len(),
            config_fallback_ip(ev) == config_fallback_ip(ev.skip(i as int)),
        decreases entries@.len() - i,
    {
        proof {
            assert(ev.skip(i as int)[0] == ev[i as int]);
            assert(ev.skip(i as int).drop_first() =~= ev.skip(i + 1));
        }
        let e = &entries[i];
        if str_starts_with(e.key.as_str(), "net") {
            match &e.value {
                Some(v) => {
                    match net_value_ip_of(v.as_str()) {
                        Some(ip) => {
                            return Some(ip);
                        },
                        None => {},
                    }
                },
                None => {},
            }
        }
        i = i + 1;
    }
    proof {
        assert(ev.skip(i as int).len() == 0);
    }
    None
}

/// What the two strategies together produce for one unit: the live
/// interface result when it yields an address, else the configuration
/// fallback; a failed call counts as no answer for its strategy.
pub open spec fn resolved_ip(
    live: Option<Seq<Option<Seq<char>>>>,
    config: Option<Seq<ConfigEntryView>>,
    vm: bool,
) -> Option<Seq<char>> {
    let first = match live {
        Some(addrs) => if vm {
            select_vm_ip(addrs)
        } else {
            select_lxc_ip(addrs)
        },
        None => None,
    };
    match first {
        Some(ip) => Some(ip),
        None => match config {
            Some(es) => config_fallback_ip(es),
            None => None,
        },
    }
}

/// Resolve one unit's address from an already-fetched interface
/// listing and configuration, computed. The fetch protocol performs
/// the same two steps, requesting the configuration only when the
/// interface listing yields nothing.
pub fn resolve_ip(
    live: &Option<Vec<Option<String>>>,
    config: &Option<Vec<ConfigEntry>>,
    vm: bool,
) -> (r: Option<String>)
    ensures
        r.deep_view() == resolved_ip(live.deep_view(), config.deep_view(), vm),
{
    let first = match live {
        Some(addrs) => if vm {
            pick_vm_ip(addrs)
        } else {
            pick_lxc_ip(addrs)
        },
        None => None,
    };
    match first {
        Some(ip) => Some(ip),
        None => match config {
            Some(es) => config_ip(es),
            None => None,
        },
    }
}

/// A listing whose every entry is loopback, IPv6-shaped or absent
/// yields no live address.
proof fn lemma_select_vm_none(addrs: Seq<Option<Seq<char>>>)
    requires
        forall|i: int|
            0 <= i < addrs.len() ==> match #[trigger] addrs[i] {
                Some(raw) => !usable_vm_addr(strip_cidr(raw)),
                None => true,
            },
    ensures
        select_vm_ip(addrs) is None,
    decreases addrs.len(),
{
    if addrs.len() > 0 {
        assert(forall|i: int|
            0 <= i < addrs.drop_first().len() ==> addrs.drop_first()[i] == addrs[i + 1]);
        lemma_select_vm_none(addrs.drop_first());
    }
}

/// Law: when the guest agent reports only loopback or IPv6-shaped
/// addresses, or none at all, resolution proceeds to the static
/// configuration; when that too yields nothing, the result is nothing.
pub proof fn lemma_resolver_fallback(
    addrs: Seq<Option<Seq<char>>>,
    config: Option<Seq<ConfigEntryView>>,
)
    requires
        forall|i: int|
            0 <= i < addrs.len() ==> match #[trigger] addrs[i] {
                Some(raw) => !usable_vm_addr(strip_cidr(raw)),
                None => true,
            },
    ensures
        resolved_ip(Some(addrs), config, true) == (match config {
            Some(es) => config_fallback_ip(es),
            None => None::<Seq<char>>,
        }),
        (match config {
            Some(es) => config_fallback_ip(es) is None,
            None => true,
        }) ==> resolved_ip(Some(addrs), config, true) is None,
{
    lemma_select_vm_none(addrs);
}

} // verus!
