//! The session state behind the interactive host table: the current
//! list and selection, the active view, the sort settings, the text
//! being edited, and the transitions a key event causes. The caller
//! renders this state, translates raw terminal events into [`Key`]
//! values, and performs the [`Effect`] a transition asks for.

use vstd::prelude::*;

use crate::ansible::ansible_output;
use crate::ansible::generate_ansible_hosts;
use crate::config::Config;
use crate::config::ProxmoxHost;
use crate::fetch::ClusterError;
use crate::host::Host;
use crate::host::HostView;
use crate::host::IpOverride;
use crate::host::OverrideView;
use crate::ipv4::digits_val;
use crate::ipv4::is_dec_digit;
use crate::ipv4::lemma_digits_prefix_le;
use crate::reconcile::reconcile;
use crate::reconcile::reconcile_spec;
use crate::sort::host_le;
use crate::sort::sort_hosts;
use crate::sort::sortable;
use crate::sort::sorted_hosts;
use crate::sort::SortColumn;
use crate::sort::SortDirection;
use crate::text::chars_to_string;
use crate::text::str_chars;
use crate::text::str_trim;
use crate::text::trimmed;

verus! {

/// The overrides without every entry of the given name, order kept.
pub open spec fn without_override(ovs: Seq<OverrideView>, name: Seq<char>) -> Seq<OverrideView>
    decreases ovs.len(),
{
    if ovs.len() == 0 {
        Seq::<OverrideView>::empty()
    } else {
        without_override(ovs.drop_last(), name) + (if ovs.last().name == name {
            Seq::<OverrideView>::empty()
        } else {
            seq![ovs.last()]
        })
    }
}

/// The position of the first override with the given name, or the
/// length when none has it.
pub open spec fn find_override_idx(ovs: Seq<OverrideView>, name: Seq<char>) -> int
    decreases ovs.len(),
{
    if ovs.len() == 0 {
        0
    } else if ovs[0].name == name {
        0
    } else {
        1 + find_override_idx(ovs.drop_first(), name)
    }
}

/// Where the first override with a name lies: in bounds and carrying
/// the name when present, at the end when absent, nowhere earlier.
pub proof fn lemma_find_override_idx(ovs: Seq<OverrideView>, name: Seq<char>)
    ensures
        0 <= find_override_idx(ovs, name) <= ovs.len(),
        find_override_idx(ovs, name) < ovs.len() ==> ovs[find_override_idx(ovs, name)].name
            == name,
        forall|k: int| 0 <= k < find_override_idx(ovs, name) ==> ovs[k].name != name,
    decreases ovs.len(),
{
    if ovs.len() > 0 && ovs[0].name != name {
        lemma_find_override_idx(ovs.drop_first(), name);
        let f = find_override_idx(ovs, name);
        let d = ovs.drop_first();
        assert(f == 1 + find_override_idx(d, name));
        if f < ovs.len() {
            assert(ovs[f] == d[f - 1]);
        }
        assert forall|k: int| 0 <= k < f implies ovs[k].name != name by {
            if k >= 1 {
                assert(ovs[k] == d[k - 1]);
            }
        }
    }
}

/// The overrides with the entry of the given name replaced by the
/// given address, or a new entry appended when none has the name.
pub open spec fn upsert_override(
    ovs: Seq<OverrideView>,
    name: Seq<char>,
    ip: Seq<char>,
) -> Seq<OverrideView> {
    let i = find_override_idx(ovs, name);
    if i < ovs.len() {
        ovs.update(i, OverrideView { name, ip })
    } else {
        ovs.push(OverrideView { name, ip })
    }
}

/// The position of the first host with the given name, or the length
/// when none has it.
pub open spec fn find_host_idx(hs: Seq<HostView>, name: Seq<char>) -> int
    decreases hs.len(),
{
    if hs.len() == 0 {
        0
    } else if hs[0].name == name {
        0
    } else {
        1 + find_host_idx(hs.drop_first(), name)
    }
}

/// Where the first host with a name lies: in bounds and carrying the
/// name when present, at the end when absent, nowhere earlier.
pub proof fn lemma_find_host_idx(hs: Seq<HostView>, name: Seq<char>)
    ensures
        0 <= find_host_idx(hs, name) <= hs.len(),
        find_host_idx(hs, name) < hs.len() ==> hs[find_host_idx(hs, name)].name == name,
        forall|k: int| 0 <= k < find_host_idx(hs, name) ==> hs[k].name != name,
    decreases hs.len(),
{
    if hs.len() > 0 && hs[0].name != name {
        lemma_find_host_idx(hs.drop_first(), name);
        let f = find_host_idx(hs, name);
        let d = hs.drop_first();
        assert(f == 1 + find_host_idx(d, name));
        if f < hs.len() {
            assert(hs[f] == d[f - 1]);
        }
        assert forall|k: int| 0 <= k < f implies hs[k].name != name by {
            if k >= 1 {
                assert(hs[k] == d[k - 1]);
            }
        }
    }
}

/// The host list with the first host of the given name carrying the
/// given address, every other record untouched.
pub open spec fn set_first_host_ip(
    hs: Seq<HostView>,
    name: Seq<char>,
    ip: Option<Seq<char>>,
) -> Seq<HostView> {
    let i = find_host_idx(hs, name);
    if i < hs.len() {
        hs.update(i, HostView { ip, ..hs[i] })
    } else {
        hs
    }
}

/// A port field's digit part: the field without its optional leading
/// plus sign.
pub open spec fn port_digits(s: Seq<char>) -> Seq<char> {
    if s.len() > 0 && s[0] == '+' {
        s.drop_first()
    } else {
        s
    }
}

/// Whether every character of `d` is a decimal digit.
pub open spec fn all_dec_digits(d: Seq<char>) -> bool {
    forall|i: int| 0 <= i < d.len() ==> is_dec_digit(#[trigger] d[i])
}

/// The port number a configured port field denotes: an optional plus
/// sign, then decimal digits whose value fits; anything else is not a
/// port.
pub open spec fn parse_u16_spec(s: Seq<char>) -> Option<u16> {
    if port_digits(s).len() >= 1 && all_dec_digits(port_digits(s)) && digits_val(port_digits(s))
        <= 65535 {
        Some(digits_val(port_digits(s)) as u16)
    } else {
        None
    }
}

/// The port number a configured port field denotes, computed.
pub fn parse_u16(s: &str) -> (r: Option<u16>)
    ensures
        r == parse_u16_spec(s@),
{
    let n = s.unicode_len();
    let start: usize = if n > 0 && s.get_char(0) == '+' {
        1
    } else {
        0
    };
    let ghost digits = if start == 1 {
        s@.drop_first()
    } else {
        s@
    };
    proof {
        assert(digits =~= s@.skip(start as int));
    }
    if n == start {
        return None;
    }
    let mut val: u32 = 0;
    let mut i: usize = start;
    proof {
        assert(s@.subrange(start as int, start as int) =~= Seq::<char>::empty());
    }
    while i < n
        invariant
            start <= i <= n,
            n == s@.len(),
            start < n,
            digits == s@.skip(start as int),
            digits == port_digits(s@),
            val == digits_val(s@.subrange(start as int, i as int)),
            val <= 65535,
            forall|k: int| start <= k < i ==> is_dec_digit(#[trigger] s@[k]),
        decreases n - i,
    {
        let c = s.get_char(i);
        let u = c as u32;
        if u < 48 || u > 57 {
            proof {
                assert(digits[i - start] == s@[i as int]);
                if parse_u16_spec(s@) is Some {
                    assert(all_dec_digits(digits));
                    assert(is_dec_digit(digits[i - start]));
                    assert(false);
                }
            }
            return None;
        }
        proof {
            let piece = s@.subrange(start as int, i + 1 as int);
            assert(piece.drop_last() =~= s@.subrange(start as int, i as int));
            assert(piece.last() == s@[i as int]);
        }
        val = val * 10 + (u - 48);
        i = i + 1;
        if val > 65535 {
            proof {
                if parse_u16_spec(s@) is Some {
                    assert(all_dec_digits(digits));
                    assert(digits.take(i - start) =~= s@.subrange(start as int, i as int));
                    lemma_digits_prefix_le(digits, i - start);
                    assert(digits_val(digits) > 65535);
                    assert(false);
                }
            }
            return None;
        }
    }
    proof {
        assert(digits =~= s@.subrange(start as int, n as int));
        assert(forall|k: int|
            0 <= k < digits.len() ==> #[trigger] digits[k] == s@[k + start]
                && is_dec_digit(s@[k + start]));
    }
    Some(val as u16)
}

/// Which screen the session shows.
#[derive(Debug, Clone, Copy, PartialEq, Eq, Structural)]
pub enum ViewMode {
    Main,
    Export,
    EditIp,
    Setup,
}

/// The field of the cluster-setup form that has focus.
#[derive(Debug, Clone, Copy, PartialEq, Eq, Structural)]
pub enum SetupField {
    Name,
    Host,
    Port,
    ApiTokenId,
    ApiTokenSecret,
    VerifySsl,
}

/// A single-line text editor: its content and a cursor within it.
#[derive(Debug)]
pub struct TextInput {
    pub chars: Vec<char>,
    pub cursor: usize,
}

impl TextInput {
    /// The cursor never leaves the content.
    pub open spec fn wf(self) -> bool {
        self.cursor <= self.chars@.len()
    }

    /// An empty editor.
    pub fn new() -> (r: TextInput)
        ensures
            r.wf(),
            r.chars@.len() == 0,
            r.cursor == 0,
    {
        TextInput { chars: Vec::new(), cursor: 0 }
    }

    /// An editor holding `v`, cursor at the end.
    pub fn with_value(v: &str) -> (r: TextInput)
        ensures
            r.wf(),
            r.chars@ == v@,
            r.cursor == v@.len(),
    {
        let chars = str_chars(v);
        let cursor = chars.len();
        TextInput { chars, cursor }
    }

    /// The content as a string.
    pub fn value(&self) -> (r: String)
        ensures
            r@ == self.chars@,
    {
        chars_to_string(&self.chars)
    }

    /// Insert a character at the cursor; the cursor follows it.
    pub fn insert_char(&mut self, c: char)
        requires
            old(self).wf(),
        ensures
            final(self).wf(),
            final(self).chars@ == old(self).chars@.insert(old(self).cursor as int, c),
            final(self).cursor == old(self).cursor + 1,
    {
        self.chars.insert(self.cursor, c);
        let n = self.chars.len();
        assert(self.cursor < n);
        self.cursor = self.cursor + 1;
    }

    /// Delete the character before the cursor, if any.
    pub fn delete_prev(&mut self)
        requires
            old(self).wf(),
        ensures
            final(self).wf(),
            old(self).cursor == 0 ==> *final(self) == *old(self),
            old(self).cursor > 0 ==> final(self).chars@ == old(self).chars@.remove(
                old(self).cursor - 1,
            ) && final(self).cursor == old(self).cursor - 1,
    {
        if self.cursor > 0 {
            self.chars.remove(self.cursor - 1);
            self.cursor = self.cursor - 1;
        }
    }

    /// Delete the character at the cursor, if any.
    pub fn delete_next(&mut self)
        requires
            old(self).wf(),
        ensures
            final(self).wf(),
            old(self).cursor == old(self).chars@.len() ==> *final(self) == *old(self),
            old(self).cursor < old(self).chars@.len() ==> final(self).chars@ == old(self).chars@.remove(old(self).cursor as int) && final(self).cursor == old(self).cursor,
    {
        if self.cursor < self.chars.len() {
            self.chars.remove(self.cursor);
        }
    }

    /// Move the cursor one place left, stopping at the start.
    pub fn move_left(&mut self)
        requires
            old(self).wf(),
        ensures
            final(self).wf(),
            final(self).chars@ == old(self).chars@,
            final(self).cursor == (if old(self).cursor > 0 {
                (old(self).cursor - 1) as usize
            } else {
                0usize
            }),
    {
        if self.cursor > 0 {
            self.cursor = self.cursor - 1;
        }
    }

    /// Move the cursor one place right, stopping at the end.
    pub fn move_right(&mut self)
        requires
            old(self).wf(),
        ensures
            final(self).wf(),
            final(self).chars@ == old(self).chars@,
            final(self).cursor == (if old(self).cursor < old(self).chars@.len() {
                (old(self).cursor + 1) as usize
            } else {
                old(self).cursor
            }),
    {
        if self.cursor < self.chars.len() {
            self.cursor = self.cursor + 1;
        }
    }

    /// Move the cursor to the start.
    pub fn move_home(&mut self)
        requires
            old(self).wf(),
        ensures
            final(self).wf(),
            final(self).chars@ == old(self).chars@,
            final(self).cursor == 0,
    {
        self.cursor = 0;
    }

    /// Move the cursor past the last character.
    pub fn move_end(&mut self)
        requires
            old(self).wf(),
        ensures
            final(self).wf(),
            final(self).chars@ == old(self).chars@,
            final(self).cursor == old(self).chars@.len(),
    {
        self.cursor = self.chars.len();
    }
}

/// The overrides without every entry of the given name, computed by
/// keeping the others.
fn retain_without(overrides: &Vec<IpOverride>, name: &String) -> (r: Vec<IpOverride>)
    ensures
        r.deep_view() == without_override(overrides.deep_view(), name@),
{
    let ghost ovs = overrides.deep_view();
    let mut r: Vec<IpOverride> = Vec::new();
    proof {
        assert(ovs.take(0) =~= Seq::<OverrideView>::empty());
        assert(r.deep_view() =~= without_override(ovs.take(0), name@));
    }
    let mut i: usize = 0;
    while i < overrides.len()
        invariant
            i <= overrides@.len(),
            ovs == overrides.deep_view(),
            ovs.len() == overrides@.len(),
            r.deep_view() == without_override(ovs.take(i as int), name@),
        decreases overrides@.len() - i,
    {
        proof {
            assert(ovs.take(i + 1 as int).drop_last() =~= ovs.take(i as int));
            assert(ovs.take(i + 1 as int).last() == ovs[i as int]);
        }
        let entry = &overrides[i];
        if entry.name == *name {
            proof {
                assert(without_override(ovs.take(i + 1 as int), name@) =~= without_override(
                    ovs.take(i as int),
                    name@,
                ));
            }
        } else {
            let ghost prev = r.deep_view();
            r.push(IpOverride { name: entry.name.clone(), ip: entry.ip.clone() });
            proof {
                assert(r.deep_view() =~= prev.push(ovs[i as int]));
                assert(without_override(ovs.take(i + 1 as int), name@) =~= without_override(
                    ovs.take(i as int),
                    name@,
                ).push(ovs[i as int]));
            }
        }
        i = i + 1;
    }
    proof {
        assert(ovs.take(ovs.len() as int) =~= ovs);
    }
    r
}

/// Replace the first override of the given name, or append one.
fn upsert_in(overrides: &mut Vec<IpOverride>, name: &String, ip: &String)
    ensures
        final(overrides).deep_view() == upsert_override(old(overrides).deep_view(), name@, ip@),
{
    let ghost ovs = overrides.deep_view();
    proof {
        lemma_find_override_idx(ovs, name@);
    }
    let mut i: usize = 0;
    while i < overrides.len()
        invariant
            i <= overrides@.len(),
            overrides@ == old(overrides)@,
            ovs == overrides.deep_view(),
            ovs.len() == overrides@.len(),
            forall|k: int| 0 <= k < i ==> (#[trigger] ovs[k]).name != name@,
            0 <= find_override_idx(ovs, name@) <= ovs.len(),
            find_override_idx(ovs, name@) < ovs.len() ==> ovs[find_override_idx(ovs, name@)].name
                == name@,
            forall|k: int| 0 <= k < find_override_idx(ovs, name@) ==> ovs[k].name != name@,
        decreases overrides@.len() - i,
    {
        if overrides[i].name == *name {
            proof {
                assert(ovs[i as int] == overrides@[i as int].deep_view());
                let f = find_override_idx(ovs, name@);
                if f < i {
                    assert(ovs[f].name != name@);
                }
                if i < f {
                    assert(ovs[i as int].name != name@);
                }
                assert(i == f);
            }
            let ghost exb = overrides@;
            let mut entry = overrides.remove(i);
            entry.ip = ip.clone();
            let ghost snap = entry;
            overrides.insert(i, entry);
            proof {
                exb.remove_ensures(i as int);
                exb.remove(i as int).insert_ensures(i as int, snap);
                assert(overrides@[i as int] == snap);
                assert(overrides@.len() == exb.len());
                assert forall|k: int|
                    0 <= k < overrides.deep_view().len() implies overrides.deep_view()[k]
                    == upsert_override(ovs, name@, ip@)[k] by {
                    assert(overrides.deep_view()[k] == overrides@[k].deep_view());
                    if k < i {
                        assert(overrides@[k] == exb.remove(i as int)[k]);
                        assert(exb.remove(i as int)[k] == exb[k]);
                    } else if k > i {
                        assert(overrides@[k] == exb.remove(i as int)[k - 1]);
                        assert(exb.remove(i as int)[k - 1] == exb[k]);
                    }
                }
                assert(overrides.deep_view() =~= upsert_override(ovs, name@, ip@));
            }
            return ;
        }
        i = i + 1;
    }
    assert(find_override_idx(ovs, name@) == ovs.len());
    let ghost prev = overrides.deep_view();
    overrides.push(IpOverride { name: name.clone(), ip: ip.clone() });
    proof {
        assert(overrides.deep_view() =~= prev.push(OverrideView { name: name@, ip: ip@ }));
    }
}

/// Give the first host of the given name the given address.
fn set_host_ip_in(hosts: &mut Vec<Host>, name: &String, ip: Option<String>)
    ensures
        final(hosts).deep_view() == set_first_host_ip(
            old(hosts).deep_view(),
            name@,
            ip.deep_view(),
        ),
        final(hosts)@.len() == old(hosts)@.len(),
{
    let ghost hs = hosts.deep_view();
    proof {
        lemma_find_host_idx(hs, name@);
    }
    let mut i: usize = 0;
    while i < hosts.len()
        invariant
            i <= hosts@.len(),
            hosts@ == old(hosts)@,
            hs == hosts.deep_view(),
            hs.len() == hosts@.len(),
            forall|k: int| 0 <= k < i ==> (#[trigger] hs[k]).name != name@,
            0 <= find_host_idx(hs, name@) <= hs.len(),
            find_host_idx(hs, name@) < hs.len() ==> hs[find_host_idx(hs, name@)].name == name@,
            forall|k: int| 0 <= k < find_host_idx(hs, name@) ==> hs[k].name != name@,
        decreases hosts@.len() - i,
    {
        if hosts[i].name == *name {
            proof {
                assert(hs[i as int] == hosts@[i as int].deep_view());
                let f = find_host_idx(hs, name@);
                if f < i {
                    assert(hs[f].name != name@);
                }
                if i < f {
                    assert(hs[i as int].name != name@);
                }
                assert(i == f);
            }
            let ghost exb = hosts@;
            let mut entry = hosts.remove(i);
            entry.ip = ip;
            let ghost snap = entry;
            hosts.insert(i, entry);
            proof {
                exb.remove_ensures(i as int);
                exb.remove(i as int).insert_ensures(i as int, snap);
                assert(hosts@[i as int] == snap);
                assert(hosts@.len() == exb.len());
                assert forall|k: int|
                    0 <= k < hosts.deep_view().len() implies hosts.deep_view()[k]
                    == set_first_host_ip(hs, name@, ip.deep_view())[k] by {
                    assert(hosts.deep_view()[k] == hosts@[k].deep_view());
                    if k < i {
                        assert(hosts@[k] == exb.remove(i as int)[k]);
                        assert(exb.remove(i as int)[k] == exb[k]);
                    } else if k > i {
                        assert(hosts@[k] == exb.remove(i as int)[k - 1]);
                        assert(exb.remove(i as int)[k - 1] == exb[k]);
                    }
                }
                assert(hosts.deep_view() =~= set_first_host_ip(hs, name@, ip.deep_view()));
            }
            return ;
        }
        i = i + 1;
    }
    assert(find_host_idx(hs, name@) == hs.len());
    assert(hosts.deep_view() =~= set_first_host_ip(hs, name@, ip.deep_view()));
}

/// Whether any configured cluster endpoint carries the name.
pub open spec fn has_cluster_named(hs: Seq<ProxmoxHost>, name: Seq<char>) -> bool {
    exists|i: int| 0 <= i < hs.len() && (#[trigger] hs[i]).name@ == name
}

/// Whether any configured cluster endpoint carries the name, computed.
fn cluster_name_exists(hosts: &Vec<ProxmoxHost>, name: &String) -> (r: bool)
    ensures
        r == has_cluster_named(hosts@, name@),
{
    let mut i: usize = 0;
    while i < hosts.len()
        invariant
            i <= hosts@.len(),
            forall|k: int| 0 <= k < i ==> (#[trigger] hosts@[k]).name@ != name@,
        decreases hosts@.len() - i,
    {
        if hosts[i].name == *name {
            return true;
        }
        i = i + 1;
    }
    false
}

/// A key event, already freed of the terminal backend's encoding.
#[derive(Debug, Clone, Copy, PartialEq, Eq, Structural)]
pub enum Key {
    Char(char),
    Ctrl(char),
    Up,
    Down,
    Left,
    Right,
    PageUp,
    PageDown,
    Home,
    End,
    Enter,
    Esc,
    Tab,
    BackTab,
    Backspace,
    Delete,
    Other,
}

/// What the caller must do after a key transition: nothing, persist
/// the configuration, or copy the export text to the clipboard.
#[derive(Debug, Clone, Copy, PartialEq, Eq, Structural)]
pub enum Effect {
    Nothing,
    SaveConfig,
    CopyExport,
}

/// The session state of one run.
#[derive(Debug)]
pub struct App {
    pub hosts: Vec<Host>,
    pub selected_index: usize,
    pub view_mode: ViewMode,
    pub is_loading: bool,
    pub last_error: Option<String>,
    pub config: Config,
    pub config_path: String,
    pub should_quit: bool,
    pub export_content: String,
    pub ip_input: TextInput,
    pub editing_host_name: String,
    pub sort_column: SortColumn,
    pub sort_direction: SortDirection,
    pub initial_fetch_done: bool,
    pub loading_frame: usize,
    pub setup_field: SetupField,
    pub setup_name: TextInput,
    pub setup_host: TextInput,
    pub setup_port: TextInput,
    pub setup_token_id: TextInput,
    pub setup_token_secret: TextInput,
    pub setup_verify_ssl: bool,
}

impl App {
    /// The session invariant: the selection stays within the list and
    /// every editor is well formed.
    pub open spec fn inv(self) -> bool {
        &&& self.hosts@.len() > 0 ==> self.selected_index < self.hosts@.len()
        &&& self.hosts@.len() == 0 ==> self.selected_index == 0
        &&& self.ip_input.wf()
        &&& self.setup_name.wf()
        &&& self.setup_host.wf()
        &&& self.setup_port.wf()
        &&& self.setup_token_id.wf()
        &&& self.setup_token_secret.wf()
    }

    /// A fresh session: empty list, main view, loading until the
    /// startup discovery completes, sorted by name ascending.
    pub fn new(config: Config, config_path: String) -> (r: App)
        ensures
            r.inv(),
            r.hosts@.len() == 0,
            r.selected_index == 0,
            r.view_mode == ViewMode::Main,
            r.is_loading,
            r.last_error is None,
            r.config == config,
            r.config_path == config_path,
            !r.should_quit,
            r.export_content@.len() == 0,
            r.ip_input.chars@.len() == 0,
            r.editing_host_name@.len() == 0,
            r.sort_column == SortColumn::Name,
            r.sort_direction == SortDirection::Ascending,
            !r.initial_fetch_done,
            r.loading_frame == 0,
            r.setup_field == SetupField::Name,
            !r.setup_verify_ssl,
            r.setup_name.chars@.len() == 0,
            r.setup_host.chars@.len() == 0,
            r.setup_port.chars@ == "8006"@,
            r.setup_token_id.chars@.len() == 0,
            r.setup_token_secret.chars@.len() == 0,
    {
        App {
            hosts: Vec::new(),
            selected_index: 0,
            view_mode: ViewMode::Main,
            is_loading: true,
            last_error: None,
            config,
            config_path,
            should_quit: false,
            export_content: String::new(),
            ip_input: TextInput::new(),
            editing_host_name: String::new(),
            sort_column: SortColumn::Name,
            sort_direction: SortDirection::Ascending,
            initial_fetch_done: false,
            loading_frame: 0,
            setup_field: SetupField::Name,
            setup_name: TextInput::new(),
            setup_host: TextInput::new(),
            setup_port: TextInput::with_value("8006"),
            setup_token_id: TextInput::new(),
            setup_token_secret: TextInput::new(),
            setup_verify_ssl: false,
        }
    }

    /// Advance the loading animation one frame, wrapping at the top.
    pub fn tick_loading_animation(&mut self)
        ensures
            *final(self) == (App {
                loading_frame: (if old(self).loading_frame == usize::MAX {
                    0usize
                } else {
                    (old(self).loading_frame + 1) as usize
                }),
                ..*old(self)
            }),
    {
        if self.loading_frame == usize::MAX {
            self.loading_frame = 0;
        } else {
            self.loading_frame = self.loading_frame + 1;
        }
    }

    /// Select the next row, wrapping to the top; nothing on an empty
    /// list.
    pub fn next(&mut self)
        requires
            old(self).inv(),
        ensures
            final(self).inv(),
            *final(self) == (App {
                selected_index: (if old(self).hosts@.len() == 0 {
                    0usize
                } else {
                    (((old(self).selected_index + 1) as int % old(self).hosts@.len() as int) as usize)
                }),
                ..*old(self)
            }),
    {
        if self.hosts.len() == 0 {
            return ;
        }
        self.selected_index = (self.selected_index + 1) % self.hosts.len();
    }

    /// Select the previous row, wrapping to the bottom; nothing on an
    /// empty list.
    pub fn previous(&mut self)
        requires
            old(self).inv(),
        ensures
            final(self).inv(),
            *final(self) == (App {
                selected_index: (if old(self).hosts@.len() == 0 {
                    0usize
                } else if old(self).selected_index == 0 {
                    (old(self).hosts@.len() - 1) as usize
                } else {
                    (old(self).selected_index - 1) as usize
                }),
                ..*old(self)
            }),
    {
        if self.hosts.len() == 0 {
            return ;
        }
        if self.selected_index == 0 {
            self.selected_index = self.hosts.len() - 1;
        } else {
            self.selected_index = self.selected_index - 1;
        }
    }

    /// Jump ten rows down, stopping at the last row.
    pub fn page_down(&mut self)
        requires
            old(self).inv(),
        ensures
            final(self).inv(),
            *final(self) == (App {
                selected_index: (if old(self).hosts@.len() == 0 {
                    0usize
                } else if old(self).selected_index + 10 < old(self).hosts@.len() {
                    (old(self).selected_index + 10) as usize
                } else {
                    (old(self).hosts@.len() - 1) as usize
                }),
                ..*old(self)
            }),
    {
        if self.hosts.len() == 0 {
            return ;
        }
        let last = self.hosts.len() - 1;
        if last - self.selected_index >= 10 {
            self.selected_index = self.selected_index + 10;
        } else {
            self.selected_index = last;
        }
    }

    /// Jump ten rows up, stopping at the first row.
    pub fn page_up(&mut self)
        requires
            old(self).inv(),
        ensures
            final(self).inv(),
            *final(self) == (App {
                selected_index: (if old(self).hosts@.len() == 0 {
                    0usize
                } else if old(self).selected_index >= 10 {
                    (old(self).selected_index - 10) as usize
                } else {
                    0usize
                }),
                ..*old(self)
            }),
    {
        if self.hosts.len() == 0 {
            return ;
        }
        if self.selected_index >= 10 {
            self.selected_index = self.selected_index - 10;
        } else {
            self.selected_index = 0;
        }
    }

    /// Select the first row, if any.
    pub fn go_to_top(&mut self)
        requires
            old(self).inv(),
        ensures
            final(self).inv(),
            *final(self) == (App { selected_index: 0usize, ..*old(self) }),
    {
        if self.hosts.len() > 0 {
            self.selected_index = 0;
        }
    }

    /// Select the last row, if any.
    pub fn go_to_bottom(&mut self)
        requires
            old(self).inv(),
        ensures
            final(self).inv(),
            *final(self) == (App {
                selected_index: (if old(self).hosts@.len() == 0 {
                    0usize
                } else {
                    (old(self).hosts@.len() - 1) as usize
                }),
                ..*old(self)
            }),
    {
        if self.hosts.len() > 0 {
            self.selected_index = self.hosts.len() - 1;
        }
    }

    /// Re-sort the list under the active column and direction and
    /// select the first row.
    pub fn apply_sort(&mut self)
        requires
            old(self).inv(),
        ensures
            final(self).inv(),
            forall|k: int|
                0 <= k < final(self).hosts.deep_view().len() - 1 ==> host_le(
                    final(self).sort_column,
                    final(self).sort_direction,
                    #[trigger] final(self).hosts.deep_view()[k],
                    final(self).hosts.deep_view()[k + 1],
                ),
            sortable(old(self).hosts.deep_view(), old(self).sort_column) ==> sorted_hosts(
                final(self).hosts.deep_view(),
                final(self).sort_column,
                final(self).sort_direction,
            ),
            final(self).hosts.deep_view().to_multiset() == old(self).hosts.deep_view().to_multiset(),
            final(self).selected_index == 0,
            *final(self) == (App {
                hosts: final(self).hosts,
                selected_index: 0usize,
                ..*old(self)
            }),
            sortable(old(self).hosts.deep_view(), old(self).sort_column) && sorted_hosts(
                old(self).hosts.deep_view(),
                old(self).sort_column,
                old(self).sort_direction,
            ) ==> final(self).hosts@ == old(self).hosts@,
    {
        let col = self.sort_column;
        let dir = self.sort_direction;
        sort_hosts(&mut self.hosts, &col, &dir);
        self.selected_index = 0;
    }

    /// Choose the sort column: a new column sorts ascending, the
    /// active column flips its direction; the list is re-sorted and
    /// the first row selected.
    pub fn set_sort_column(&mut self, column: SortColumn)
        requires
            old(self).inv(),
        ensures
            final(self).inv(),
            old(self).sort_column == column ==> final(self).sort_column == column && final(self).sort_direction == (if old(self).sort_direction == SortDirection::Ascending {
                SortDirection::Descending
            } else {
                SortDirection::Ascending
            }),
            old(self).sort_column != column ==> final(self).sort_column == column && final(self).sort_direction == SortDirection::Ascending,
            sortable(old(self).hosts.deep_view(), final(self).sort_column) ==> sorted_hosts(
                final(self).hosts.deep_view(),
                final(self).sort_column,
                final(self).sort_direction,
            ),
            final(self).hosts.deep_view().to_multiset() == old(self).hosts.deep_view().to_multiset(),
            final(self).selected_index == 0,
            *final(self) == (App {
                hosts: final(self).hosts,
                selected_index: 0usize,
                sort_column: final(self).sort_column,
                sort_direction: final(self).sort_direction,
                ..*old(self)
            }),
    {
        if self.sort_column == column {
            self.sort_direction = match self.sort_direction {
                SortDirection::Ascending => SortDirection::Descending,
                SortDirection::Descending => SortDirection::Ascending,
            };
        } else {
            self.sort_column = column;
            self.sort_direction = SortDirection::Ascending;
        }
        self.apply_sort();
    }

    /// Cycle the setup form focus forward.
    pub fn next_setup_field(&mut self)
        requires
            old(self).inv(),
        ensures
            final(self).inv(),
            *final(self) == (App {
                setup_field: (match old(self).setup_field {
                    SetupField::Name => SetupField::Host,
                    SetupField::Host => SetupField::Port,
                    SetupField::Port => SetupField::ApiTokenId,
                    SetupField::ApiTokenId => SetupField::ApiTokenSecret,
                    SetupField::ApiTokenSecret => SetupField::VerifySsl,
                    SetupField::VerifySsl => SetupField::Name,
                }),
                ..*old(self)
            }),
    {
        self.setup_field = match self.setup_field {
            SetupField::Name => SetupField::Host,
            SetupField::Host => SetupField::Port,
            SetupField::Port => SetupField::ApiTokenId,
            SetupField::ApiTokenId => SetupField::ApiTokenSecret,
            SetupField::ApiTokenSecret => SetupField::VerifySsl,
            SetupField::VerifySsl => SetupField::Name,
        };
    }

    /// Cycle the setup form focus backward.
    pub fn prev_setup_field(&mut self)
        requires
            old(self).inv(),
        ensures
            final(self).inv(),
            *final(self) == (App {
                setup_field: (match old(self).setup_field {
                    SetupField::Name => SetupField::VerifySsl,
                    SetupField::Host => SetupField::Name,
                    SetupField::Port => SetupField::Host,
                    SetupField::ApiTokenId => SetupField::Port,
                    SetupField::ApiTokenSecret => SetupField::ApiTokenId,
                    SetupField::VerifySsl => SetupField::ApiTokenSecret,
                }),
                ..*old(self)
            }),
    {
        self.setup_field = match self.setup_field {
            SetupField::Name => SetupField::VerifySsl,
            SetupField::Host => SetupField::Name,
            SetupField::Port => SetupField::Host,
            SetupField::ApiTokenId => SetupField::Port,
            SetupField::ApiTokenSecret => SetupField::ApiTokenId,
            SetupField::VerifySsl => SetupField::ApiTokenSecret,
        };
    }

    /// Open the setup form with cleared fields.
    pub fn start_setup(&mut self)
        requires
            old(self).inv(),
        ensures
            final(self).inv(),
            final(self).view_mode == ViewMode::Setup,
            final(self).setup_field == SetupField::Name,
            final(self).setup_name.chars@.len() == 0,
            final(self).setup_host.chars@.len() == 0,
            final(self).setup_port.chars@ == "8006"@,
            final(self).setup_token_id.chars@.len() == 0,
            final(self).setup_token_secret.chars@.len() == 0,
            !final(self).setup_verify_ssl,
            final(self).hosts@ == old(self).hosts@,
            final(self).config == old(self).config,
    {
        self.setup_name = TextInput::new();
        self.setup_host = TextInput::new();
        self.setup_port = TextInput::with_value("8006");
        self.setup_token_id = TextInput::new();
        self.setup_token_secret = TextInput::new();
        self.setup_verify_ssl = false;
        self.setup_field = SetupField::Name;
        self.view_mode = ViewMode::Setup;
    }

    /// Open the address editor for the selected host, prefilled with
    /// its current address; nothing on an empty list.
    pub fn start_edit_ip(&mut self)
        requires
            old(self).inv(),
        ensures
            final(self).inv(),
            old(self).hosts@.len() == 0 ==> *final(self) == *old(self),
            old(self).hosts@.len() > 0 ==> {
                &&& final(self).view_mode == ViewMode::EditIp
                &&& final(self).editing_host_name@ == old(self).hosts@[old(self).selected_index as int].name@
                &&& final(self).ip_input.chars@ == (match old(self).hosts@[old(self).selected_index as int].ip {
                    Some(ip) => ip@,
                    None => Seq::<char>::empty(),
                })
                &&& final(self).hosts@ == old(self).hosts@
                &&& final(self).config == old(self).config
            },
    {
        if self.hosts.len() == 0 {
            return ;
        }
        self.editing_host_name = self.hosts[self.selected_index].name.clone();
        match &self.hosts[self.selected_index].ip {
            Some(ip) => {
                self.ip_input = TextInput::with_value(ip.as_str());
            },
            None => {
                self.ip_input = TextInput::new();
            },
        }
        self.view_mode = ViewMode::EditIp;
    }

    /// Render the export text for the current list and show it.
    pub fn export_ansible_format(&mut self)
        requires
            old(self).inv(),
        ensures
            final(self).inv(),
            final(self).export_content@ == ansible_output(
                old(self).hosts.deep_view(),
                old(self).config.ansible_defaults.python_interpreter@,
                old(self).config.ansible_defaults.ansible_become,
                old(self).config.ansible_defaults.become_method@,
            ),
            final(self).view_mode == ViewMode::Export,
            final(self).hosts@ == old(self).hosts@,
            final(self).config == old(self).config,
            final(self).selected_index == old(self).selected_index,
    {
        self.export_content = generate_ansible_hosts(&self.hosts, &self.config.ansible_defaults);
        self.view_mode = ViewMode::Export;
    }

    /// Commit the address editor: an empty value removes the override
    /// for the edited host, any other value records it; the in-memory
    /// list is updated at once, so the edit is visible without a new
    /// discovery pass. The caller persists the configuration.
    pub fn save_ip_override(&mut self) -> (r: Effect)
        requires
            old(self).inv(),
        ensures
            final(self).inv(),
            r == Effect::SaveConfig,
            final(self).view_mode == ViewMode::Main,
            final(self).last_error matches Some(m) && m@ == "IP saved for "@ + old(self).editing_host_name@,
            trimmed(old(self).ip_input.chars@).len() == 0 ==> {
                &&& final(self).config.ip_overrides.deep_view() == without_override(
                    old(self).config.ip_overrides.deep_view(),
                    old(self).editing_host_name@,
                )
                &&& final(self).hosts.deep_view() == set_first_host_ip(
                    old(self).hosts.deep_view(),
                    old(self).editing_host_name@,
                    None,
                )
            },
            trimmed(old(self).ip_input.chars@).len() > 0 ==> {
                &&& final(self).config.ip_overrides.deep_view() == upsert_override(
                    old(self).config.ip_overrides.deep_view(),
                    old(self).editing_host_name@,
                    trimmed(old(self).ip_input.chars@),
                )
                &&& final(self).hosts.deep_view() == set_first_host_ip(
                    old(self).hosts.deep_view(),
                    old(self).editing_host_name@,
                    Some(trimmed(old(self).ip_input.chars@)),
                )
            },
    {
        let value = self.ip_input.value();
        let new_ip = str_trim(value.as_str());
        let name = self.editing_host_name.clone();
        if new_ip.as_str().unicode_len() == 0 {
            let kept = retain_without(&self.config.ip_overrides, &name);
            self.config.ip_overrides = kept;
            set_host_ip_in(&mut self.hosts, &name, None);
        } else {
            upsert_in(&mut self.config.ip_overrides, &name, &new_ip);
            set_host_ip_in(&mut self.hosts, &name, Some(new_ip));
        }
        let mut message = String::from_str("IP saved for ");
        message.append(self.editing_host_name.as_str());
        assert(message@ =~= "IP saved for "@ + self.editing_host_name@);
        self.last_error = Some(message);
        self.view_mode = ViewMode::Main;
        Effect::SaveConfig
    }

    /// Commit the setup form: with a name, an address and both token
    /// parts present, record the new cluster endpoint and return to
    /// the main view; otherwise report what is missing or duplicated
    /// and stay. The port falls back to the default when it does not
    /// parse. The caller persists the configuration on success.
    pub fn save_proxmox_host(&mut self) -> (r: Effect)
        requires
            old(self).inv(),
        ensures
            final(self).inv(),
            ({
                let name = trimmed(old(self).setup_name.chars@);
                let host = trimmed(old(self).setup_host.chars@);
                let tid = trimmed(old(self).setup_token_id.chars@);
                let tsec = trimmed(old(self).setup_token_secret.chars@);
                if name.len() == 0 || host.len() == 0 || tid.len() == 0 || tsec.len() == 0 {
                    &&& r == Effect::Nothing
                    &&& final(self).config.proxmox_hosts@ == old(self).config.proxmox_hosts@
                    &&& (final(self).last_error matches Some(m) && m@
                        == "All fields except port are required"@)
                    &&& final(self).view_mode == old(self).view_mode
                } else if has_cluster_named(old(self).config.proxmox_hosts@, name) {
                    &&& r == Effect::Nothing
                    &&& final(self).config.proxmox_hosts@ == old(self).config.proxmox_hosts@
                    &&& (final(self).last_error matches Some(m) && m@ == "Host '"@ + name
                        + "' already exists"@)
                    &&& final(self).view_mode == old(self).view_mode
                } else {
                    let added = final(self).config.proxmox_hosts@.last();
                    &&& r == Effect::SaveConfig
                    &&& final(self).config.proxmox_hosts@.len() == old(self).config.proxmox_hosts@.len() + 1
                    &&& forall|i: int|
                        0 <= i < old(self).config.proxmox_hosts@.len() ==> final(self).config.proxmox_hosts@[i] == old(self).config.proxmox_hosts@[i]
                    &&& added.name@ == name
                    &&& added.host@ == host
                    &&& added.port == (match parse_u16_spec(
                        trimmed(old(self).setup_port.chars@),
                    ) {
                        Some(p) => p,
                        None => 8006u16,
                    })
                    &&& added.api_token_id@ == tid
                    &&& added.api_token_secret@ == tsec
                    &&& added.verify_ssl == old(self).setup_verify_ssl
                    &&& (final(self).last_error matches Some(m) && m@ == "Added Proxmox host '"@
                        + name + "'"@)
                    &&& final(self).view_mode == ViewMode::Main
                }
            }),
            final(self).hosts@ == old(self).hosts@,
            final(self).config.ip_overrides@ == old(self).config.ip_overrides@,
            final(self).config.manual_hosts@ == old(self).config.manual_hosts@,
    {
        let name = str_trim(self.setup_name.value().as_str());
        let host = str_trim(self.setup_host.value().as_str());
        let port_str = str_trim(self.setup_port.value().as_str());
        let tid = str_trim(self.setup_token_id.value().as_str());
        let tsec = str_trim(self.setup_token_secret.value().as_str());
        if name.as_str().unicode_len() == 0 || host.as_str().unicode_len() == 0
            || tid.as_str().unicode_len() == 0 || tsec.as_str().unicode_len() == 0 {
            self.last_error = Some(String::from_str("All fields except port are required"));
            return Effect::Nothing;
        }
        let port = match parse_u16(port_str.as_str()) {
            Some(p) => p,
            None => 8006,
        };
        if cluster_name_exists(&self.config.proxmox_hosts, &name) {
            let mut message = String::from_str("Host '");
            message.append(name.as_str());
            message.append("' already exists");
            assert(message@ =~= "Host '"@ + name@ + "' already exists"@);
            self.last_error = Some(message);
            return Effect::Nothing;
        }
        let ghost prev = self.config.proxmox_hosts@;
        self.config.proxmox_hosts.push(
            ProxmoxHost {
                name: name.clone(),
                host,
                port,
                api_token_id: tid,
                api_token_secret: tsec,
                verify_ssl: self.setup_verify_ssl,
            },
        );
        let mut message = String::from_str("Added Proxmox host '");
        message.append(name.as_str());
        message.append("'");
        assert(message@ =~= "Added Proxmox host '"@ + name@ + "'"@);
        self.last_error = Some(message);
        self.view_mode = ViewMode::Main;
        Effect::SaveConfig
    }

    /// Begin a discovery pass: show the loading state and clear the
    /// status line. The caller then fetches and hands the outcome to
    /// [`App::apply_discovery`].
    pub fn begin_refresh(&mut self)
        requires
            old(self).inv(),
        ensures
            final(self).inv(),
            *final(self) == (App {
                is_loading: true,
                last_error: None::<String>,
                ..*old(self)
            }),
    {
        self.is_loading = true;
        self.last_error = None;
    }

    /// Apply the outcome of a discovery pass: reconcile the gathered
    /// hosts with the configured overrides and manual entries, re-sort
    /// under the active settings, select the first row, and surface
    /// the most recent per-cluster failure, if any.
    pub fn apply_discovery(&mut self, gathered: Vec<Host>, errors: &Vec<ClusterError>)
        requires
            old(self).inv(),
        ensures
            final(self).inv(),
            !final(self).is_loading,
            final(self).initial_fetch_done,
            final(self).selected_index == 0,
            final(self).sort_column == old(self).sort_column,
            final(self).sort_direction == old(self).sort_direction,
            final(self).config == old(self).config,
            sortable(
                reconcile_spec(
                    gathered.deep_view(),
                    old(self).config.ip_overrides.deep_view(),
                    old(self).config.manual_hosts.deep_view(),
                ),
                final(self).sort_column,
            ) ==> sorted_hosts(
                final(self).hosts.deep_view(),
                final(self).sort_column,
                final(self).sort_direction,
            ),
            final(self).hosts.deep_view().to_multiset() == reconcile_spec(
                gathered.deep_view(),
                old(self).config.ip_overrides.deep_view(),
                old(self).config.manual_hosts.deep_view(),
            ).to_multiset(),
            errors@.len() == 0 ==> final(self).last_error is None,
            errors@.len() > 0 ==> (final(self).last_error matches Some(m) && m@
                == "Error fetching from "@ + errors@.last().cluster@ + ": "@
                + errors@.last().message@),
    {
        self.last_error = None;
        if errors.len() > 0 {
            let last = &errors[errors.len() - 1];
            let mut message = String::from_str("Error fetching from ");
            message.append(last.cluster.as_str());
            message.append(": ");
            message.append(last.message.as_str());
            assert(message@ =~= "Error fetching from "@ + errors@.last().cluster@ + ": "@
                + errors@.last().message@);
            self.last_error = Some(message);
        }
        let merged = reconcile(gathered, &self.config.ip_overrides, &self.config.manual_hosts);
        self.hosts = merged;
        self.is_loading = false;
        self.initial_fetch_done = true;
        self.selected_index = 0;
        self.apply_sort();
    }

    /// One key event in the current view: the complete transition
    /// table of the interface. Quit keys raise the quit flag;
    /// navigation moves the selection; digits pick a sort column;
    /// the editors take their own keys. Returns what the caller must
    /// do afterwards.
    pub fn handle_key_event(&mut self, key: Key) -> (r: Effect)
        requires
            old(self).inv(),
        ensures
            final(self).inv(),
            old(self).view_mode == ViewMode::Main && (key == Key::Char('q') || key == Key::Char(
                'Q',
            ) || key == Key::Ctrl('c')) ==> *final(self) == (App {
                should_quit: true,
                ..*old(self)
            }),
            old(self).view_mode == ViewMode::Export && (key == Key::Esc || key == Key::Enter || key
                == Key::Char('q')) ==> *final(self) == (App {
                view_mode: ViewMode::Main,
                ..*old(self)
            }),
            old(self).view_mode == ViewMode::Export && (key == Key::Char('c') || key == Key::Char(
                'C',
            ) || key == Key::Char('y') || key == Key::Char('Y')) ==> r == Effect::CopyExport && *final(self) == *old(self),
            old(self).view_mode == ViewMode::EditIp && key == Key::Esc ==> *final(self) == (App {
                view_mode: ViewMode::Main,
                ..*old(self)
            }),
            old(self).view_mode == ViewMode::EditIp && key == Key::Enter ==> r
                == Effect::SaveConfig && final(self).view_mode == ViewMode::Main,
    {
        match self.view_mode {
            ViewMode::Main => match key {
                Key::Char('q') | Key::Char('Q') | Key::Ctrl('c') => {
                    self.should_quit = true;
                    Effect::Nothing
                },
                Key::Down | Key::Char('j') => {
                    self.next();
                    Effect::Nothing
                },
                Key::Up | Key::Char('k') => {
                    self.previous();
                    Effect::Nothing
                },
                Key::PageDown => {
                    self.page_down();
                    Effect::Nothing
                },
                Key::PageUp => {
                    self.page_up();
                    Effect::Nothing
                },
                Key::Home | Key::Char('g') => {
                    self.go_to_top();
                    Effect::Nothing
                },
                Key::End | Key::Char('G') => {
                    self.go_to_bottom();
                    Effect::Nothing
                },
                Key::Char('e') | Key::Char('E') => {
                    self.export_ansible_format();
                    Effect::Nothing
                },
                Key::Char('i') | Key::Char('I') => {
                    self.start_edit_ip();
                    Effect::Nothing
                },
                Key::Char('a') | Key::Char('A') => {
                    self.start_setup();
                    Effect::Nothing
                },
                Key::Char('1') => {
                    self.set_sort_column(SortColumn::Name);
                    Effect::Nothing
                },
                Key::Char('2') => {
                    self.set_sort_column(SortColumn::Type);
                    Effect::Nothing
                },
                Key::Char('3') => {
                    self.set_sort_column(SortColumn::Status);
                    Effect::Nothing
                },
                Key::Char('4') => {
                    self.set_sort_column(SortColumn::IpAddress);
                    Effect::Nothing
                },
                Key::Char('5') => {
                    self.set_sort_column(SortColumn::Node);
                    Effect::Nothing
                },
                _ => Effect::Nothing,
            },
            ViewMode::Export => match key {
                Key::Esc | Key::Enter | Key::Char('q') => {
                    self.view_mode = ViewMode::Main;
                    Effect::Nothing
                },
                Key::Char('c') | Key::Char('C') | Key::Char('y') | Key::Char('Y') => {
                    Effect::CopyExport
                },
                _ => Effect::Nothing,
            },
            ViewMode::EditIp => match key {
                Key::Enter => self.save_ip_override(),
                Key::Esc => {
                    self.view_mode = ViewMode::Main;
                    Effect::Nothing
                },
                Key::Char(c) => {
                    self.ip_input.insert_char(c);
                    Effect::Nothing
                },
                Key::Backspace => {
                    self.ip_input.delete_prev();
                    Effect::Nothing
                },
                Key::Delete => {
                    self.ip_input.delete_next();
                    Effect::Nothing
                },
                Key::Left => {
                    self.ip_input.move_left();
                    Effect::Nothing
                },
                Key::Right => {
                    self.ip_input.move_right();
                    Effect::Nothing
                },
                Key::Home => {
                    self.ip_input.move_home();
                    Effect::Nothing
                },
                Key::End => {
                    self.ip_input.move_end();
                    Effect::Nothing
                },
                _ => Effect::Nothing,
            },
            ViewMode::Setup => match key {
                Key::Esc => {
                    self.view_mode = ViewMode::Main;
                    Effect::Nothing
                },
                Key::Tab => {
                    self.next_setup_field();
                    Effect::Nothing
                },
                Key::BackTab => {
                    self.prev_setup_field();
                    Effect::Nothing
                },
                Key::Enter => {
                    if self.setup_field == SetupField::VerifySsl {
                        self.save_proxmox_host()
                    } else {
                        Effect::Nothing
                    }
                },
                Key::Char(c) => {
                    if self.setup_field == SetupField::VerifySsl {
                        if c == ' ' {
                            self.setup_verify_ssl = !self.setup_verify_ssl;
                        }
                    } else {
                        match self.setup_field {
                            SetupField::Name => self.setup_name.insert_char(c),
                            SetupField::Host => self.setup_host.insert_char(c),
                            SetupField::Port => self.setup_port.insert_char(c),
                            SetupField::ApiTokenId => self.setup_token_id.insert_char(c),
                            SetupField::ApiTokenSecret => self.setup_token_secret.insert_char(c),
                            SetupField::VerifySsl => {},
                        }
                    }
                    Effect::Nothing
                },
                Key::Backspace => {
                    match self.setup_field {
                        SetupField::Name => self.setup_name.delete_prev(),
                        SetupField::Host => self.setup_host.delete_prev(),
                        SetupField::Port => self.setup_port.delete_prev(),
                        SetupField::ApiTokenId => self.setup_token_id.delete_prev(),
                        SetupField::ApiTokenSecret => self.setup_token_secret.delete_prev(),
                        SetupField::VerifySsl => {},
                    }
                    Effect::Nothing
                },
                Key::Delete => {
                    match self.setup_field {
                        SetupField::Name => self.setup_name.delete_next(),
                        SetupField::Host => self.setup_host.delete_next(),
                        SetupField::Port => self.setup_port.delete_next(),
                        SetupField::ApiTokenId => self.setup_token_id.delete_next(),
                        SetupField::ApiTokenSecret => self.setup_token_secret.delete_next(),
                        SetupField::VerifySsl => {},
                    }
                    Effect::Nothing
                },
                Key::Left => {
                    match self.setup_field {
                        SetupField::Name => self.setup_name.move_left(),
                        SetupField::Host => self.setup_host.move_left(),
                        SetupField::Port => self.setup_port.move_left(),
                        SetupField::ApiTokenId => self.setup_token_id.move_left(),
                        SetupField::ApiTokenSecret => self.setup_token_secret.move_left(),
                        SetupField::VerifySsl => {},
                    }
                    Effect::Nothing
                },
                Key::Right => {
                    match self.setup_field {
                        SetupField::Name => self.setup_name.move_right(),
                        SetupField::Host => self.setup_host.move_right(),
                        SetupField::Port => self.setup_port.move_right(),
                        SetupField::ApiTokenId => self.setup_token_id.move_right(),
                        SetupField::ApiTokenSecret => self.setup_token_secret.move_right(),
                        SetupField::VerifySsl => {},
                    }
                    Effect::Nothing
                },
                _ => Effect::Nothing,
            },
        }
    }
}

} // verus!
