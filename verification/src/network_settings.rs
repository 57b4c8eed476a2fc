//! Decisions of the Network Settings screen: how each key changes the
//! screen's state (NIC list, per-NIC field editor, MAC entry, port forward
//! list and the add-rule dialog), and what the screen asks of its caller.

use vstd::prelude::*;
use crate::chars::{
    is_digit, parse_u16, pop_char, push_char, str_eq, str_lowercase, to_lowercase, trim, trim_ws,
    u16_text, utf8_len, utf8_shorter_than,
};
use crate::keys::Key;
use crate::seqs::{equal_to, first_index, lemma_first_index, lemma_first_index_props};
use crate::vm::qemu_config::{PortForward, PortProtocol};
use crate::wizard_types::{
    AddPfStep, AddingPortForward, NetworkSettingsState, NicConfig, NicView, StopView, current_stop,
    cycled, lemma_resolve_stops_len, names_view, nics_view, opt_view, resolve_stops, stops_view,
};

verus! {

/// What the screen asks of its caller after a key.
#[derive(Debug, Clone, PartialEq, Eq)]
pub enum NsOutcome {
    /// Nothing beyond the state change itself.
    Stay,
    /// Ask before discarding the edits made to the open NIC.
    ConfirmDiscardNicEdit,
    /// Ask before discarding the changes made to the NIC list.
    ConfirmDiscardNicList,
    /// Write the NICs to the launch script and return to the NIC list.
    SaveNic,
    /// Write the NICs to the launch script and close the screen.
    SaveAndClose,
    /// Close the screen without saving.
    Close,
    /// Generate a random MAC address and hand it to [`set_mac`].
    GenerateMac,
    /// Show this message in the status line: a MAC address entry that is
    /// not valid was left as typed.
    InvalidMac(String),
}

/// Abstract value of an [`NsOutcome`].
pub enum OutcomeView {
    Stay,
    ConfirmDiscardNicEdit,
    ConfirmDiscardNicList,
    SaveNic,
    SaveAndClose,
    Close,
    GenerateMac,
    InvalidMac(Seq<char>),
}

impl View for NsOutcome {
    type V = OutcomeView;

    open spec fn view(&self) -> OutcomeView {
        match self {
            NsOutcome::Stay => OutcomeView::Stay,
            NsOutcome::ConfirmDiscardNicEdit => OutcomeView::ConfirmDiscardNicEdit,
            NsOutcome::ConfirmDiscardNicList => OutcomeView::ConfirmDiscardNicList,
            NsOutcome::SaveNic => OutcomeView::SaveNic,
            NsOutcome::SaveAndClose => OutcomeView::SaveAndClose,
            NsOutcome::Close => OutcomeView::Close,
            NsOutcome::GenerateMac => OutcomeView::GenerateMac,
            NsOutcome::InvalidMac(s) => OutcomeView::InvalidMac(s@),
        }
    }
}

/// Abstract value of an [`AddingPortForward`].
pub struct AddingView {
    pub step: AddPfStep,
    pub protocol: PortProtocol,
    pub host_port_input: Seq<char>,
    pub guest_port_input: Seq<char>,
}

pub open spec fn adding_view(a: AddingPortForward) -> AddingView {
    AddingView {
        step: a.step,
        protocol: a.protocol,
        host_port_input: a.host_port_input@,
        guest_port_input: a.guest_port_input@,
    }
}

/// Abstract value of a [`NetworkSettingsState`].
pub struct NsView {
    pub nics: Seq<NicView>,
    pub nics_baseline: Seq<NicView>,
    pub active_nic: int,
    pub list_cursor: int,
    pub editing_nic: bool,
    pub nic_snapshot: Option<NicView>,
    pub mac_edit_buffer: Seq<char>,
    pub editing_mac: bool,
    pub selected_field: int,
    pub editing_port_forwards: bool,
    pub pf_selected: int,
    pub adding_pf: Option<AddingView>,
}

pub open spec fn ns_view(ns: NetworkSettingsState) -> NsView {
    NsView {
        nics: nics_view(ns.nics@),
        nics_baseline: nics_view(ns.nics_baseline@),
        active_nic: ns.active_nic as int,
        list_cursor: ns.list_cursor as int,
        editing_nic: ns.editing_nic,
        nic_snapshot: match ns.nic_snapshot {
            Some(n) => Some(n@),
            None => None,
        },
        mac_edit_buffer: ns.mac_edit_buffer@,
        editing_mac: ns.editing_mac,
        selected_field: ns.selected_field as int,
        editing_port_forwards: ns.editing_port_forwards,
        pf_selected: ns.pf_selected as int,
        adding_pf: match ns.adding_pf {
            Some(a) => Some(adding_view(a)),
            None => None,
        },
    }
}

/// The screen's standing invariant: at least one NIC, and both the open
/// NIC and the list cursor point at one of them.
pub open spec fn ns_wf(s: NsView) -> bool {
    &&& s.nics.len() > 0
    &&& 0 <= s.active_nic < s.nics.len()
    &&& 0 <= s.list_cursor < s.nics.len()
}

pub open spec fn default_nic() -> NicView {
    NicView {
        model: "e1000"@,
        backend: "user"@,
        port_forwards: Seq::empty(),
        bridge_name: None,
        mac_address: None,
    }
}

// ---------------------------------------------------------------------------
// NIC list
// ---------------------------------------------------------------------------

/// Where the open NIC and the cursor end up after removing the NIC at the
/// cursor from a list of `len` NICs: the open NIC keeps pointing at the same
/// adapter (or the nearest one left), the cursor stays in range.
pub open spec fn after_removal(active: int, cursor: int, len: int) -> (int, int) {
    let new_len = len - 1;
    let a = if active == cursor {
        if active >= new_len { new_len - 1 } else { active }
    } else if active > cursor {
        active - 1
    } else {
        active
    };
    let c = if cursor >= new_len { new_len - 1 } else { cursor };
    (a, c)
}

/// The NIC list's response to a key.
pub open spec fn nic_list_step(s: NsView, key: Key) -> (NsView, OutcomeView) {
    match key {
        Key::Esc => if s.nics != s.nics_baseline {
            (s, OutcomeView::ConfirmDiscardNicList)
        } else {
            (s, OutcomeView::Close)
        },
        Key::Char('j') | Key::Down => if s.list_cursor < s.nics.len() - 1 {
            (NsView { list_cursor: s.list_cursor + 1, ..s }, OutcomeView::Stay)
        } else {
            (s, OutcomeView::Stay)
        },
        Key::Char('k') | Key::Up => if s.list_cursor > 0 {
            (NsView { list_cursor: s.list_cursor - 1, ..s }, OutcomeView::Stay)
        } else {
            (s, OutcomeView::Stay)
        },
        Key::Enter => (
            NsView {
                active_nic: s.list_cursor,
                nic_snapshot: Some(s.nics[s.list_cursor]),
                editing_nic: true,
                selected_field: 0,
                ..s
            },
            OutcomeView::Stay,
        ),
        Key::Char('a') | Key::Char('A') => (
            NsView {
                nics: s.nics.push(default_nic()),
                active_nic: s.nics.len() as int,
                list_cursor: s.nics.len() as int,
                nic_snapshot: Some(default_nic()),
                editing_nic: true,
                selected_field: 0,
                ..s
            },
            OutcomeView::Stay,
        ),
        Key::Char('d') | Key::Delete => if s.list_cursor < s.nics.len() && s.nics.len() > 1 {
            let (a, c) = after_removal(s.active_nic, s.list_cursor, s.nics.len() as int);
            (
                NsView { nics: s.nics.remove(s.list_cursor), active_nic: a, list_cursor: c, ..s },
                OutcomeView::Stay,
            )
        } else {
            (s, OutcomeView::Stay)
        },
        Key::Char('s') | Key::Char('S') => (s, OutcomeView::SaveAndClose),
        _ => (s, OutcomeView::Stay),
    }
}

fn port_forwards_equal(a: &Vec<PortForward>, b: &Vec<PortForward>) -> (r: bool)
    ensures
        r == (a@ == b@),
{
    if a.len() != b.len() {
        return false;
    }
    let mut i: usize = 0;
    while i < a.len()
        invariant
            a@.len() == b@.len(),
            i <= a@.len(),
            forall|k: int| 0 <= k < i ==> a@[k] == b@[k],
        decreases a@.len() - i,
    {
        if a[i] != b[i] {
            return false;
        }
        i += 1;
    }
    assert(a@ =~= b@);
    true
}

fn opt_eq(a: &Option<String>, b: &Option<String>) -> (r: bool)
    ensures
        r == (opt_view(*a) == opt_view(*b)),
{
    match (a, b) {
        (Some(x), Some(y)) => *x == *y,
        (None, None) => true,
        _ => false,
    }
}

/// Whether two NICs hold the same settings.
pub fn nic_equal(a: &NicConfig, b: &NicConfig) -> (r: bool)
    ensures
        r == (a@ == b@),
{
    a.model == b.model && a.backend == b.backend && port_forwards_equal(&a.port_forwards, &b.port_forwards)
        && opt_eq(&a.bridge_name, &b.bridge_name) && opt_eq(&a.mac_address, &b.mac_address)
}

/// Whether two NIC lists hold the same NICs in the same order.
pub fn nics_equal(a: &Vec<NicConfig>, b: &Vec<NicConfig>) -> (r: bool)
    ensures
        r == (nics_view(a@) == nics_view(b@)),
{
    if a.len() != b.len() {
        assert(nics_view(a@).len() != nics_view(b@).len());
        return false;
    }
    let mut i: usize = 0;
    while i < a.len()
        invariant
            a@.len() == b@.len(),
            i <= a@.len(),
            forall|k: int| 0 <= k < i ==> nics_view(a@)[k] == nics_view(b@)[k],
        decreases a@.len() - i,
    {
        if !nic_equal(&a[i], &b[i]) {
            assert(nics_view(a@)[i as int] != nics_view(b@)[i as int]);
            return false;
        }
        i += 1;
    }
    assert(nics_view(a@) =~= nics_view(b@));
    true
}

/// A copy of a NIC with the same settings.
pub fn copy_nic(n: &NicConfig) -> (r: NicConfig)
    ensures
        r@ == n@,
{
    let pf = n.port_forwards.clone();
    assert(pf@ =~= n.port_forwards@);
    NicConfig {
        model: n.model.clone(),
        backend: n.backend.clone(),
        port_forwards: pf,
        bridge_name: match &n.bridge_name {
            Some(b) => Some(b.clone()),
            None => None,
        },
        mac_address: match &n.mac_address {
            Some(m) => Some(m.clone()),
            None => None,
        },
    }
}

/// Handle a key on the top-level NIC list.
pub fn handle_nic_list_key(ns: &mut NetworkSettingsState, key: Key) -> (out: NsOutcome)
    requires
        ns_wf(ns_view(*old(ns))),
    ensures
        (ns_view(*final(ns)), out@) == nic_list_step(ns_view(*old(ns)), key),
        ns_wf(ns_view(*final(ns))),
{
    let ghost s = ns_view(*ns);
    match key {
        Key::Esc => {
            if !nics_equal(&ns.nics, &ns.nics_baseline) {
                NsOutcome::ConfirmDiscardNicList
            } else {
                NsOutcome::Close
            }
        },
        Key::Char('j') | Key::Down => {
            if ns.list_cursor < ns.nics.len() - 1 {
                ns.list_cursor += 1;
            }
            NsOutcome::Stay
        },
        Key::Char('k') | Key::Up => {
            if ns.list_cursor > 0 {
                ns.list_cursor -= 1;
            }
            NsOutcome::Stay
        },
        Key::Enter => {
            ns.active_nic = ns.list_cursor;
            ns.nic_snapshot = Some(copy_nic(&ns.nics[ns.active_nic]));
            ns.editing_nic = true;
            ns.selected_field = 0;
            NsOutcome::Stay
        },
        Key::Char('a') | Key::Char('A') => {
            let ghost before = ns.nics@;
            ns.nics.push(NicConfig::default());
            assert(nics_view(ns.nics@) =~= nics_view(before).push(default_nic()));
            ns.active_nic = ns.nics.len() - 1;
            ns.list_cursor = ns.active_nic;
            ns.nic_snapshot = Some(copy_nic(&ns.nics[ns.active_nic]));
            ns.editing_nic = true;
            ns.selected_field = 0;
            NsOutcome::Stay
        },
        Key::Char('d') | Key::Delete => {
            if ns.list_cursor < ns.nics.len() && ns.nics.len() > 1 {
                let ghost before = ns.nics@;
                ns.nics.remove(ns.list_cursor);
                assert(nics_view(ns.nics@) =~= nics_view(before).remove(ns.list_cursor as int));
                if ns.active_nic == ns.list_cursor {
                    if ns.active_nic >= ns.nics.len() {
                        ns.active_nic = ns.nics.len() - 1;
                    }
                } else if ns.active_nic > ns.list_cursor {
                    ns.active_nic -= 1;
                }
                if ns.list_cursor >= ns.nics.len() {
                    ns.list_cursor = ns.nics.len() - 1;
                }
            }
            NsOutcome::Stay
        },
        Key::Char('s') | Key::Char('S') => NsOutcome::SaveAndClose,
        _ => NsOutcome::Stay,
    }
}

// ---------------------------------------------------------------------------
// Port forward list and the add-rule dialog
// ---------------------------------------------------------------------------

/// The port forwarding rules of the open NIC.
pub open spec fn active_forwards(s: NsView) -> Seq<PortForward> {
    s.nics[s.active_nic].port_forwards
}

/// The state with the open NIC's rules replaced by `pfs`.
pub open spec fn with_forwards(s: NsView, pfs: Seq<PortForward>) -> NsView {
    NsView {
        nics: s.nics.update(s.active_nic, NicView { port_forwards: pfs, ..s.nics[s.active_nic] }),
        ..s
    }
}

/// Whether some rule forwards host port `h` to guest port `g`.
pub open spec fn has_rule(pfs: Seq<PortForward>, h: u16, g: u16) -> bool {
    exists|i: int| 0 <= i < pfs.len() && (#[trigger] pfs[i]).host_port == h && pfs[i].guest_port == g
}

/// Adding a preset rule: it is added unless a rule with the same host and
/// guest ports is already there.
pub open spec fn preset_step(s: NsView, p: PortProtocol, h: u16, g: u16) -> NsView {
    if has_rule(active_forwards(s), h, g) {
        s
    } else {
        with_forwards(s, active_forwards(s).push(PortForward { protocol: p, host_port: h, guest_port: g }))
    }
}

pub open spec fn fresh_adding() -> AddingView {
    AddingView {
        step: AddPfStep::Protocol,
        protocol: PortProtocol::Tcp,
        host_port_input: Seq::empty(),
        guest_port_input: Seq::empty(),
    }
}

/// The port forward list's response to a key (while no rule is being added).
pub open spec fn pf_list_step(s: NsView, key: Key) -> NsView {
    let pfs = active_forwards(s);
    let last = if pfs.len() > 0 { pfs.len() - 1 } else { 0 };
    match key {
        Key::Esc => NsView { editing_port_forwards: false, ..s },
        Key::Char('j') | Key::Down => if s.pf_selected < last {
            NsView { pf_selected: s.pf_selected + 1, ..s }
        } else {
            s
        },
        Key::Char('k') | Key::Up => if s.pf_selected > 0 {
            NsView { pf_selected: s.pf_selected - 1, ..s }
        } else {
            s
        },
        Key::Char('a') | Key::Enter => NsView { adding_pf: Some(fresh_adding()), ..s },
        Key::Char('d') | Key::Delete => if pfs.len() > 0 && s.pf_selected < pfs.len() {
            let rest = pfs.remove(s.pf_selected);
            let sel = if s.pf_selected >= rest.len() && s.pf_selected > 0 {
                s.pf_selected - 1
            } else {
                s.pf_selected
            };
            NsView { pf_selected: sel, ..with_forwards(s, rest) }
        } else {
            s
        },
        Key::Char('1') => preset_step(s, PortProtocol::Tcp, 2222, 22),
        Key::Char('2') => preset_step(s, PortProtocol::Tcp, 13389, 3389),
        Key::Char('3') => preset_step(s, PortProtocol::Tcp, 8080, 80),
        Key::Char('4') => preset_step(s, PortProtocol::Tcp, 8443, 443),
        Key::Char('5') => preset_step(s, PortProtocol::Tcp, 15900, 5900),
        _ => s,
    }
}

pub open spec fn other_protocol(p: PortProtocol) -> PortProtocol {
    match p {
        PortProtocol::Tcp => PortProtocol::Udp,
        PortProtocol::Udp => PortProtocol::Tcp,
    }
}

pub open spec fn without_last(s: Seq<char>) -> Seq<char> {
    if s.len() == 0 {
        s
    } else {
        s.drop_last()
    }
}

/// The add-rule dialog's response to a key. Enter moves from the protocol
/// to the host port, from a valid host port to the guest port, and with
/// both ports valid adds the rule and closes the dialog.
pub open spec fn adding_step(s: NsView, a: AddingView, key: Key) -> NsView {
    match key {
        Key::Esc => NsView { adding_pf: None, ..s },
        Key::Enter => match a.step {
            AddPfStep::Protocol => NsView { adding_pf: Some(AddingView { step: AddPfStep::HostPort, ..a }), ..s },
            AddPfStep::HostPort => if u16_text(a.host_port_input) is Some {
                NsView { adding_pf: Some(AddingView { step: AddPfStep::GuestPort, ..a }), ..s }
            } else {
                s
            },
            AddPfStep::GuestPort => match (u16_text(a.host_port_input), u16_text(a.guest_port_input)) {
                (Some(h), Some(g)) => NsView {
                    adding_pf: None,
                    ..with_forwards(
                        s,
                        active_forwards(s).push(PortForward { protocol: a.protocol, host_port: h, guest_port: g }),
                    )
                },
                _ => s,
            },
        },
        Key::Left | Key::Right => if a.step == AddPfStep::Protocol {
            NsView { adding_pf: Some(AddingView { protocol: other_protocol(a.protocol), ..a }), ..s }
        } else {
            s
        },
        Key::Char(c) => if is_digit(c) {
            match a.step {
                AddPfStep::HostPort => NsView {
                    adding_pf: Some(AddingView { host_port_input: a.host_port_input.push(c), ..a }),
                    ..s
                },
                AddPfStep::GuestPort => NsView {
                    adding_pf: Some(AddingView { guest_port_input: a.guest_port_input.push(c), ..a }),
                    ..s
                },
                AddPfStep::Protocol => s,
            }
        } else {
            s
        },
        Key::Backspace => match a.step {
            AddPfStep::HostPort => NsView {
                adding_pf: Some(AddingView { host_port_input: without_last(a.host_port_input), ..a }),
                ..s
            },
            AddPfStep::GuestPort => NsView {
                adding_pf: Some(AddingView { guest_port_input: without_last(a.guest_port_input), ..a }),
                ..s
            },
            AddPfStep::Protocol => s,
        },
        _ => s,
    }
}

fn push_forward(ns: &mut NetworkSettingsState, pf: PortForward)
    requires
        ns_wf(ns_view(*old(ns))),
    ensures
        ns_view(*final(ns)) == with_forwards(
            ns_view(*old(ns)),
            active_forwards(ns_view(*old(ns))).push(pf),
        ),
{
    let ghost s = ns_view(*ns);
    let a = ns.active_nic;
    ns.nics[a].port_forwards.push(pf);
    assert(nics_view(ns.nics@) =~= s.nics.update(
        a as int,
        NicView { port_forwards: s.nics[a as int].port_forwards.push(pf), ..s.nics[a as int] },
    ));
}

fn find_rule(pfs: &Vec<PortForward>, host_port: u16, guest_port: u16) -> (b: bool)
    ensures
        b == has_rule(pfs@, host_port, guest_port),
{
    let mut i: usize = 0;
    while i < pfs.len()
        invariant
            i <= pfs@.len(),
            forall|k: int| 0 <= k < i ==> !((#[trigger] pfs@[k]).host_port == host_port && pfs@[k].guest_port == guest_port),
        decreases pfs@.len() - i,
    {
        if pfs[i].host_port == host_port && pfs[i].guest_port == guest_port {
            return true;
        }
        i += 1;
    }
    false
}

/// Add a preset rule to the open NIC unless one with the same host and
/// guest ports is already there.
pub fn add_preset(ns: &mut NetworkSettingsState, protocol: PortProtocol, host_port: u16, guest_port: u16)
    requires
        ns_wf(ns_view(*old(ns))),
    ensures
        ns_view(*final(ns)) == preset_step(ns_view(*old(ns)), protocol, host_port, guest_port),
{
    let a = ns.active_nic;
    if !find_rule(&ns.nics[a].port_forwards, host_port, guest_port) {
        push_forward(ns, PortForward { protocol, host_port, guest_port });
    }
}

/// Adding a preset never creates a second rule for the same host and guest
/// ports: rules that were distinct by ports stay distinct.
pub proof fn law_presets_never_duplicate(s: NsView, p: PortProtocol, h: u16, g: u16)
    requires
        ns_wf(s),
        forall|i: int, j: int|
            0 <= i < j < active_forwards(s).len() ==> !(active_forwards(s)[i].host_port
                == active_forwards(s)[j].host_port && active_forwards(s)[i].guest_port
                == active_forwards(s)[j].guest_port),
    ensures
        ({
            let pfs = active_forwards(preset_step(s, p, h, g));
            &&& has_rule(pfs, h, g)
            &&& forall|i: int, j: int|
                0 <= i < j < pfs.len() ==> !(pfs[i].host_port == pfs[j].host_port && pfs[i].guest_port
                    == pfs[j].guest_port)
        }),
{
    let pfs0 = active_forwards(s);
    if !has_rule(pfs0, h, g) {
        let pfs = pfs0.push(PortForward { protocol: p, host_port: h, guest_port: g });
        assert(active_forwards(preset_step(s, p, h, g)) == pfs);
        assert(pfs[pfs0.len() as int].host_port == h);
        assert forall|i: int, j: int|
            0 <= i < j < pfs.len() implies !(pfs[i].host_port == pfs[j].host_port && pfs[i].guest_port
            == pfs[j].guest_port) by {
            if j == pfs0.len() {
                assert(pfs[i] == pfs0[i]);
            }
        }
    }
}

/// Deleting in the port forward list removes exactly the selected rule of
/// the open NIC: the rules before it stay where they are, those after it
/// move up by one, nothing else of that NIC or of the other NICs changes,
/// and the selection stays put unless it was on the last rule, when it moves
/// up to the new last one.
pub proof fn law_delete_removes_the_selected_rule(s: NsView, key: Key)
    requires
        ns_wf(s),
        key == Key::Char('d') || key == Key::Delete,
        0 <= s.pf_selected < s.nics[s.active_nic].port_forwards.len(),
    ensures
        pf_list_step(s, key).active_nic == s.active_nic,
        pf_list_step(s, key).nics.len() == s.nics.len(),
        forall|n: int|
            0 <= n < s.nics.len() && n != s.active_nic ==> #[trigger] pf_list_step(s, key).nics[n] == s.nics[n],
        pf_list_step(s, key).nics[s.active_nic].model == s.nics[s.active_nic].model,
        pf_list_step(s, key).nics[s.active_nic].backend == s.nics[s.active_nic].backend,
        pf_list_step(s, key).nics[s.active_nic].bridge_name == s.nics[s.active_nic].bridge_name,
        pf_list_step(s, key).nics[s.active_nic].mac_address == s.nics[s.active_nic].mac_address,
        pf_list_step(s, key).nics[s.active_nic].port_forwards.len() == s.nics[s.active_nic].port_forwards.len()
            - 1,
        forall|k: int|
            0 <= k < s.pf_selected ==> #[trigger] pf_list_step(s, key).nics[s.active_nic].port_forwards[k]
                == s.nics[s.active_nic].port_forwards[k],
        forall|k: int|
            s.pf_selected <= k < s.nics[s.active_nic].port_forwards.len() - 1 ==> #[trigger] pf_list_step(
                s,
                key,
            ).nics[s.active_nic].port_forwards[k] == s.nics[s.active_nic].port_forwards[k + 1],
        pf_list_step(s, key).pf_selected == if s.pf_selected == s.nics[s.active_nic].port_forwards.len() - 1
            && s.pf_selected > 0 {
            s.pf_selected - 1
        } else {
            s.pf_selected
        },
{
}

/// Handle a key in the port forward list (no rule being added).
pub fn handle_pf_list_key(ns: &mut NetworkSettingsState, key: Key)
    requires
        ns_wf(ns_view(*old(ns))),
    ensures
        ns_view(*final(ns)) == pf_list_step(ns_view(*old(ns)), key),
        ns_wf(ns_view(*final(ns))),
{
    let ghost s = ns_view(*ns);
    let a = ns.active_nic;
    match key {
        Key::Esc => {
            ns.editing_port_forwards = false;
        },
        Key::Char('j') | Key::Down => {
            let count = ns.nics[a].port_forwards.len();
            let last = if count > 0 { count - 1 } else { 0 };
            if ns.pf_selected < last {
                ns.pf_selected += 1;
            }
        },
        Key::Char('k') | Key::Up => {
            if ns.pf_selected > 0 {
                ns.pf_selected -= 1;
            }
        },
        Key::Char('a') | Key::Enter => {
            ns.adding_pf = Some(
                AddingPortForward {
                    step: AddPfStep::Protocol,
                    protocol: PortProtocol::Tcp,
                    host_port_input: String::new(),
                    guest_port_input: String::new(),
                },
            );
        },
        Key::Char('d') | Key::Delete => {
            let count = ns.nics[a].port_forwards.len();
            if count > 0 && ns.pf_selected < count {
                let sel = ns.pf_selected;
                let ghost pfs0 = ns.nics@[a as int].port_forwards@;
                ns.nics[a].port_forwards.remove(sel);
                assert(nics_view(ns.nics@) =~= s.nics.update(
                    a as int,
                    NicView { port_forwards: pfs0.remove(sel as int), ..s.nics[a as int] },
                ));
                if ns.pf_selected >= ns.nics[a].port_forwards.len() && ns.pf_selected > 0 {
                    ns.pf_selected -= 1;
                }
            }
        },
        Key::Char('1') => add_preset(ns, PortProtocol::Tcp, 2222, 22),
        Key::Char('2') => add_preset(ns, PortProtocol::Tcp, 13389, 3389),
        Key::Char('3') => add_preset(ns, PortProtocol::Tcp, 8080, 80),
        Key::Char('4') => add_preset(ns, PortProtocol::Tcp, 8443, 443),
        Key::Char('5') => add_preset(ns, PortProtocol::Tcp, 15900, 5900),
        _ => {},
    }
}

/// Confirming the add-rule dialog with both ports valid appends the rule
/// as entered (its protocol, host port and guest port) to the end of the
/// open NIC's rules and closes the dialog; the rules already there, the
/// open NIC's other settings and the other NICs stay as they were. With
/// either port invalid, Enter on the guest port changes nothing.
pub proof fn law_confirm_appends_the_entered_rule(s: NsView, a: AddingView)
    requires
        ns_wf(s),
        a.step == AddPfStep::GuestPort,
    ensures
        ({
            let r = adding_step(s, a, Key::Enter);
            let old_pfs = s.nics[s.active_nic].port_forwards;
            let new_pfs = r.nics[s.active_nic].port_forwards;
            match (u16_text(a.host_port_input), u16_text(a.guest_port_input)) {
                (Some(h), Some(g)) => {
                    &&& r.adding_pf is None
                    &&& r.active_nic == s.active_nic
                    &&& r.nics.len() == s.nics.len()
                    &&& forall|n: int| 0 <= n < s.nics.len() && n != s.active_nic ==> #[trigger] r.nics[n] == s.nics[n]
                    &&& r.nics[s.active_nic].model == s.nics[s.active_nic].model
                    &&& r.nics[s.active_nic].backend == s.nics[s.active_nic].backend
                    &&& r.nics[s.active_nic].bridge_name == s.nics[s.active_nic].bridge_name
                    &&& r.nics[s.active_nic].mac_address == s.nics[s.active_nic].mac_address
                    &&& new_pfs.len() == old_pfs.len() + 1
                    &&& forall|k: int| 0 <= k < old_pfs.len() ==> #[trigger] new_pfs[k] == old_pfs[k]
                    &&& new_pfs[old_pfs.len() as int] == PortForward { protocol: a.protocol, host_port: h, guest_port: g }
                },
                _ => r == s,
            }
        }),
{
}

/// Handle a key in the add-rule dialog.
pub fn handle_adding_pf(ns: &mut NetworkSettingsState, key: Key)
    requires
        ns_wf(ns_view(*old(ns))),
    ensures
        ns_view(*final(ns)) == match ns_view(*old(ns)).adding_pf {
            Some(a) => adding_step(ns_view(*old(ns)), a, key),
            None => ns_view(*old(ns)),
        },
        ns_wf(ns_view(*final(ns))),
{
    let mut adding = match ns.adding_pf.take() {
        Some(a) => a,
        None => return,
    };
    match key {
        Key::Esc => {},
        Key::Enter => match adding.step {
            AddPfStep::Protocol => {
                adding.step = AddPfStep::HostPort;
                ns.adding_pf = Some(adding);
            },
            AddPfStep::HostPort => {
                if parse_u16(adding.host_port_input.as_str()).is_some() {
                    adding.step = AddPfStep::GuestPort;
                }
                ns.adding_pf = Some(adding);
            },
            AddPfStep::GuestPort => {
                match (parse_u16(adding.host_port_input.as_str()), parse_u16(adding.guest_port_input.as_str())) {
                    (Some(host), Some(guest)) => {
                        let pf = PortForward { protocol: adding.protocol, host_port: host, guest_port: guest };
                        push_forward(ns, pf);
                    },
                    _ => {
                        ns.adding_pf = Some(adding);
                    },
                }
            },
        },
        Key::Left | Key::Right => {
            if adding.step == AddPfStep::Protocol {
                adding.protocol = match adding.protocol {
                    PortProtocol::Tcp => PortProtocol::Udp,
                    PortProtocol::Udp => PortProtocol::Tcp,
                };
            }
            ns.adding_pf = Some(adding);
        },
        Key::Char(c) => {
            if '0' <= c && c <= '9' {
                match adding.step {
                    AddPfStep::HostPort => push_char(&mut adding.host_port_input, c),
                    AddPfStep::GuestPort => push_char(&mut adding.guest_port_input, c),
                    AddPfStep::Protocol => {},
                }
            }
            ns.adding_pf = Some(adding);
        },
        Key::Backspace => {
            match adding.step {
                AddPfStep::HostPort => pop_char(&mut adding.host_port_input),
                AddPfStep::GuestPort => pop_char(&mut adding.guest_port_input),
                AddPfStep::Protocol => {},
            }
            ns.adding_pf = Some(adding);
        },
        _ => {
            ns.adding_pf = Some(adding);
        },
    }
}

// ---------------------------------------------------------------------------
// MAC address entry
// ---------------------------------------------------------------------------

pub open spec fn is_hex_digit(c: char) -> bool {
    ('0' <= c && c <= '9') || ('a' <= c && c <= 'f') || ('A' <= c && c <= 'F')
}

pub open spec fn mac_or_empty(m: Option<Seq<char>>) -> Seq<char> {
    match m {
        Some(x) => x,
        None => Seq::empty(),
    }
}

/// The state with the open NIC's MAC address replaced by `mac`.
pub open spec fn with_mac(s: NsView, mac: Option<Seq<char>>) -> NsView {
    NsView {
        nics: s.nics.update(s.active_nic, NicView { mac_address: mac, ..s.nics[s.active_nic] }),
        ..s
    }
}

/// The MAC entry's response to a key. On Enter the trimmed entry decides:
/// an empty one clears the MAC; a valid one (see [`canonical_mac`]) becomes
/// the NIC's MAC in lowercase; any other stays as typed, with a message for
/// the status line.
pub open spec fn mac_step(s: NsView, key: Key) -> (NsView, OutcomeView) {
    let nic = s.nics[s.active_nic];
    match key {
        Key::Esc => (
            NsView { mac_edit_buffer: mac_or_empty(nic.mac_address), editing_mac: false, ..s },
            OutcomeView::Stay,
        ),
        Key::Enter => {
            let t = trim_ws(s.mac_edit_buffer);
            if t.len() == 0 {
                (
                    NsView { mac_edit_buffer: Seq::empty(), editing_mac: false, ..with_mac(s, None) },
                    OutcomeView::Stay,
                )
            } else if canonical_mac(t) {
                let l = str_lowercase(t);
                (NsView { mac_edit_buffer: l, editing_mac: false, ..with_mac(s, Some(l)) }, OutcomeView::Stay)
            } else {
                (s, OutcomeView::InvalidMac("Invalid MAC address: "@ + t))
            }
        },
        Key::Backspace => (NsView { mac_edit_buffer: without_last(s.mac_edit_buffer), ..s }, OutcomeView::Stay),
        Key::Char(c) => if (is_hex_digit(c) || c == ':') && utf8_len(s.mac_edit_buffer) < 17 {
            (NsView { mac_edit_buffer: s.mac_edit_buffer.push(c), ..s }, OutcomeView::Stay)
        } else {
            (s, OutcomeView::Stay)
        },
        _ => (s, OutcomeView::Stay),
    }
}

fn set_active_mac(ns: &mut NetworkSettingsState, mac: Option<String>)
    requires
        ns_wf(ns_view(*old(ns))),
    ensures
        ns_view(*final(ns)) == with_mac(ns_view(*old(ns)), opt_view(mac)),
{
    let ghost s = ns_view(*ns);
    let a = ns.active_nic;
    let ghost mv = opt_view(mac);
    ns.nics[a].mac_address = mac;
    assert(nics_view(ns.nics@) =~= s.nics.update(
        a as int,
        NicView { mac_address: mv, ..s.nics[a as int] },
    ));
}

fn clone_mac(m: &Option<String>) -> (r: String)
    ensures
        r@ == mac_or_empty(opt_view(*m)),
{
    match m {
        Some(x) => x.clone(),
        None => String::new(),
    }
}

/// Handle a key while the MAC address is being typed.
pub fn handle_mac_key(ns: &mut NetworkSettingsState, key: Key) -> (out: NsOutcome)
    requires
        ns_wf(ns_view(*old(ns))),
    ensures
        (ns_view(*final(ns)), out@) == mac_step(ns_view(*old(ns)), key),
        ns_wf(ns_view(*final(ns))),
{
    let a = ns.active_nic;
    match key {
        Key::Esc => {
            ns.mac_edit_buffer = clone_mac(&ns.nics[a].mac_address);
            ns.editing_mac = false;
            NsOutcome::Stay
        },
        Key::Enter => {
            let trimmed = trim(ns.mac_edit_buffer.as_str());
            if trimmed.as_str().is_empty() {
                set_active_mac(ns, None);
                ns.mac_edit_buffer = String::new();
                ns.editing_mac = false;
                NsOutcome::Stay
            } else {
                if is_valid_mac(trimmed.as_str()) {
                    accept_mac(ns, trimmed.as_str());
                    NsOutcome::Stay
                } else {
                    NsOutcome::InvalidMac(invalid_mac_message(trimmed.as_str()))
                }
            }
        },
        Key::Backspace => {
            pop_char(&mut ns.mac_edit_buffer);
            NsOutcome::Stay
        },
        Key::Char(c) => {
            let hex = ('0' <= c && c <= '9') || ('a' <= c && c <= 'f') || ('A' <= c && c <= 'F');
            if (hex || c == ':') && utf8_shorter_than(ns.mac_edit_buffer.as_str(), 17) {
                push_char(&mut ns.mac_edit_buffer, c);
            }
            NsOutcome::Stay
        },
        _ => NsOutcome::Stay,
    }
}

/// A MAC address in the canonical form `aa:bb:cc:dd:ee:ff`: six pairs of
/// hexadecimal digits (either case) separated by colons.
pub open spec fn canonical_mac(s: Seq<char>) -> bool {
    &&& s.len() == 17
    &&& forall|i: int| 0 <= i < 17 ==> if i % 3 == 2 { #[trigger] s[i] == ':' } else { is_hex_digit(s[i]) }
}

/// Whether a MAC address entry is in the canonical form (see
/// [`canonical_mac`]); the screen takes such an entry with
/// [`accept_mac`] and answers any other with [`invalid_mac_message`].
pub fn is_valid_mac(mac: &str) -> (b: bool)
    ensures
        b == canonical_mac(mac@),
{
    let v = crate::chars::chars_of(mac);
    if v.len() != 17 {
        return false;
    }
    let mut i: usize = 0;
    while i < 17
        invariant
            v@ == mac@,
            v@.len() == 17,
            i <= 17,
            forall|k: int| 0 <= k < i ==> if k % 3 == 2 { #[trigger] v@[k] == ':' } else { is_hex_digit(v@[k]) },
        decreases 17 - i,
    {
        let c = v[i];
        let ok = if i % 3 == 2 {
            c == ':'
        } else {
            ('0' <= c && c <= '9') || ('a' <= c && c <= 'f') || ('A' <= c && c <= 'F')
        };
        if !ok {
            return false;
        }
        i += 1;
    }
    true
}

/// Accept a checked MAC address entry: the open NIC takes it in lowercase,
/// the entry shows it, and MAC entry ends.
pub fn accept_mac(ns: &mut NetworkSettingsState, mac: &str)
    requires
        ns_wf(ns_view(*old(ns))),
    ensures
        ns_view(*final(ns)) == (NsView {
            mac_edit_buffer: str_lowercase(mac@),
            editing_mac: false,
            ..with_mac(ns_view(*old(ns)), Some(str_lowercase(mac@)))
        }),
{
    let lower = to_lowercase(mac);
    ns.mac_edit_buffer = lower.clone();
    set_active_mac(ns, Some(lower));
    ns.editing_mac = false;
}

/// The status message for a MAC address entry that failed the check.
pub fn invalid_mac_message(mac: &str) -> (m: String)
    ensures
        m@ == "Invalid MAC address: "@ + mac@,
{
    let mut m = "Invalid MAC address: ".to_owned();
    m.append(mac);
    m
}

/// Give the open NIC a freshly generated MAC address (the `r` key), also
/// shown in the MAC entry.
pub fn set_mac(ns: &mut NetworkSettingsState, mac: String)
    requires
        ns_wf(ns_view(*old(ns))),
    ensures
        ns_view(*final(ns)) == (NsView {
            mac_edit_buffer: mac@,
            ..with_mac(ns_view(*old(ns)), Some(mac@))
        }),
{
    ns.mac_edit_buffer = mac.clone();
    set_active_mac(ns, Some(mac));
}

// ---------------------------------------------------------------------------
// Per-NIC field editor
// ---------------------------------------------------------------------------

/// Adapter models offered for a NIC.
pub open spec fn network_models() -> Seq<Seq<char>> {
    seq!["virtio"@, "e1000"@, "rtl8139"@, "ne2k_pci"@, "pcnet"@, "none"@]
}

/// Moving `delta` places (cyclically) along `options` from `current`
/// (from the first option when `current` is not one of them).
pub open spec fn cycled_option(current: Seq<char>, options: Seq<Seq<char>>, delta: int) -> Seq<char> {
    options[(option_index(current, options) + delta) % (options.len() as int)]
}

/// Where `current` stands among `options`: its first position, or 0 when
/// it is not one of them.
pub open spec fn option_index(current: Seq<char>, options: Seq<Seq<char>>) -> int {
    let i = first_index(options, equal_to(current));
    if i >= 0 { i } else { 0 }
}

/// The texts of a list of string slices.
pub open spec fn strs_view(s: Seq<&str>) -> Seq<Seq<char>> {
    s.map_values(|o: &str| o@)
}

/// Move `current` `delta` places along `options`, cyclically.
pub fn cycle_option(current: &mut String, options: &[&str], delta: i32)
    requires
        0 < options@.len() <= i32::MAX,
        i32::MIN <= option_index(old(current)@, strs_view(options@)) + delta <= i32::MAX,
    ensures
        final(current)@ == cycled_option(old(current)@, strs_view(options@), delta as int),
{
    let ghost ov = strs_view(options@);
    let n = options.len();
    let i = option_position(options, current.as_str());
    proof {
        lemma_first_index_props(ov, equal_to(current@));
    }
    let cur: usize = if i < n { i } else { 0 };
    let sum: i32 = cur as i32 + delta;
    let new_idx: usize = match sum.checked_rem_euclid(n as i32) {
        Some(r) => r as usize,
        None => return,
    };
    assert(ov[new_idx as int] == options@[new_idx as int]@);
    *current = options[new_idx].to_owned();
}

/// Position of the first option equal to `current`, or the number of
/// options when none is.
fn option_position(options: &[&str], current: &str) -> (i: usize)
    ensures
        ({
            let f = first_index(strs_view(options@), equal_to(current@));
            i as int == if f >= 0 { f } else { options@.len() as int }
        }),
        i <= options@.len(),
{
    let ghost ov = strs_view(options@);
    let ghost p = equal_to(current@);
    let n = options.len();
    let mut i: usize = 0;
    while i < n
        invariant
            n == options@.len(),
            ov == strs_view(options@),
            p == equal_to(current@),
            i <= n,
            forall|k: int| 0 <= k < i ==> !p(#[trigger] ov[k]),
        decreases n - i,
    {
        assert(ov[i as int] == options@[i as int]@);
        if str_eq(options[i], current) {
            proof {
                lemma_first_index(ov, p, i as int);
            }
            return i;
        }
        i += 1;
    }
    proof {
        lemma_first_index(ov, p, i as int);
    }
    n
}

/// The bridge a "generic bridge" stop falls back to: the first system
/// bridge, else "qemubr0".
pub open spec fn default_bridge_of(bridges: Seq<Seq<char>>) -> Option<Seq<char>> {
    if bridges.len() > 0 {
        Some(bridges[0])
    } else {
        Some("qemubr0"@)
    }
}

/// The open NIC with its bridge moved `delta` places along the system bridges.
pub open spec fn cycled_bridge(nic: NicView, bridges: Seq<Seq<char>>, delta: int) -> NicView {
    let current = mac_or_empty(nic.bridge_name);
    let i = first_index(bridges, equal_to(current));
    let cur = if i >= 0 { i } else { 0 };
    NicView { bridge_name: Some(bridges[(cur + delta) % (bridges.len() as int)]), ..nic }
}

/// The state with the open NIC replaced by `nic`.
pub open spec fn with_nic(s: NsView, nic: NicView) -> NsView {
    NsView { nics: s.nics.update(s.active_nic, nic), ..s }
}

pub open spec fn max_field(nic: NicView) -> int {
    if nic.backend == "none"@ {
        1
    } else if nic.backend == "user"@ || nic.backend == "passt"@ || nic.backend == "bridge"@ {
        3
    } else {
        2
    }
}

/// Leaving the field editor without keeping its edits: the open NIC goes
/// back to its snapshot (when there is one), and the snapshot is dropped.
pub open spec fn discarded(s: NsView) -> NsView {
    let restored = match s.nic_snapshot {
        Some(n) => with_nic(s, n),
        None => s,
    };
    NsView { nic_snapshot: None, editing_nic: false, ..restored }
}

/// The field editor's response to a key, given the backend stops and the
/// system bridges.
pub open spec fn field_step(s: NsView, key: Key, stops: Seq<StopView>, bridges: Seq<Seq<char>>) -> (
    NsView,
    OutcomeView,
) {
    let nic = s.nics[s.active_nic];
    let sel = s.selected_field;
    match key {
        Key::Esc => if s.nic_snapshot != Some(nic) {
            (s, OutcomeView::ConfirmDiscardNicEdit)
        } else {
            (discarded(s), OutcomeView::Stay)
        },
        Key::Char('s') | Key::Char('S') => (s, OutcomeView::SaveNic),
        Key::Char('j') | Key::Down => if sel < max_field(nic) {
            (NsView { selected_field: sel + 1, ..s }, OutcomeView::Stay)
        } else {
            (s, OutcomeView::Stay)
        },
        Key::Char('k') | Key::Up => if sel > 0 {
            (NsView { selected_field: sel - 1, ..s }, OutcomeView::Stay)
        } else {
            (s, OutcomeView::Stay)
        },
        Key::Char('r') => if sel == 2 && nic.backend != "none"@ {
            (s, OutcomeView::GenerateMac)
        } else {
            (s, OutcomeView::Stay)
        },
        Key::Char('c') => if sel == 2 && nic.backend != "none"@ {
            (NsView { mac_edit_buffer: Seq::empty(), ..with_mac(s, None) }, OutcomeView::Stay)
        } else {
            (s, OutcomeView::Stay)
        },
        Key::Left | Key::Right | Key::Tab | Key::BackTab => {
            let delta: int = if key == Key::Right || key == Key::Tab { 1 } else { -1 };
            if sel == 0 {
                (
                    with_nic(s, NicView { model: cycled_option(nic.model, network_models(), delta), ..nic }),
                    OutcomeView::Stay,
                )
            } else if sel == 1 {
                (with_nic(s, cycled(nic, stops, default_bridge_of(bridges), delta)), OutcomeView::Stay)
            } else if sel == 3 && nic.backend == "bridge"@ && bridges.len() > 0 {
                (with_nic(s, cycled_bridge(nic, bridges, delta)), OutcomeView::Stay)
            } else {
                (s, OutcomeView::Stay)
            }
        },
        Key::Enter => if sel == 2 && nic.backend != "none"@ {
            (
                NsView { mac_edit_buffer: mac_or_empty(nic.mac_address), editing_mac: true, ..s },
                OutcomeView::Stay,
            )
        } else if sel == 3 && (nic.backend == "user"@ || nic.backend == "passt"@) {
            (NsView { editing_port_forwards: true, pf_selected: 0, ..s }, OutcomeView::Stay)
        } else {
            (s, OutcomeView::Stay)
        },
        _ => (s, OutcomeView::Stay),
    }
}

/// Leave the field editor without keeping its edits (see [`discarded`]).
pub fn discard_nic_edit(ns: &mut NetworkSettingsState)
    requires
        ns_wf(ns_view(*old(ns))),
    ensures
        ns_view(*final(ns)) == discarded(ns_view(*old(ns))),
        ns_wf(ns_view(*final(ns))),
{
    let ghost s = ns_view(*ns);
    let a = ns.active_nic;
    if let Some(snapshot) = ns.nic_snapshot.take() {
        let ghost sv = snapshot@;
        ns.nics.set(a, snapshot);
        assert(nics_view(ns.nics@) =~= s.nics.update(a as int, sv));
    }
    ns.editing_nic = false;
}

/// After the open NIC's edits were saved: back to the NIC list, with the
/// saved NICs as the new baseline for unsaved-change detection.
pub fn mark_nic_edit_saved(ns: &mut NetworkSettingsState)
    ensures
        ns_view(*final(ns)) == (NsView {
            editing_nic: false,
            nic_snapshot: None,
            nics_baseline: ns_view(*old(ns)).nics,
            ..ns_view(*old(ns))
        }),
{
    ns.editing_nic = false;
    ns.nic_snapshot = None;
    let mut copy: Vec<NicConfig> = Vec::new();
    let mut i: usize = 0;
    while i < ns.nics.len()
        invariant
            i <= ns.nics@.len(),
            nics_view(copy@) == nics_view(ns.nics@).take(i as int),
        decreases ns.nics@.len() - i,
    {
        let ghost prev = copy@;
        let n = copy_nic(&ns.nics[i]);
        copy.push(n);
        assert(nics_view(copy@) =~= nics_view(prev).push(n@));
        assert(nics_view(copy@) =~= nics_view(ns.nics@).take(i + 1));
        i += 1;
    }
    assert(nics_view(ns.nics@).take(ns.nics@.len() as int) =~= nics_view(ns.nics@));
    ns.nics_baseline = copy;
}

fn set_active_nic(ns: &mut NetworkSettingsState, nic: NicConfig)
    requires
        ns_wf(ns_view(*old(ns))),
    ensures
        ns_view(*final(ns)) == with_nic(ns_view(*old(ns)), nic@),
{
    let ghost s = ns_view(*ns);
    let ghost nv = nic@;
    let a = ns.active_nic;
    ns.nics.set(a, nic);
    assert(nics_view(ns.nics@) =~= s.nics.update(a as int, nv));
}

fn bridge_position(bridges: &[String], name: &Option<String>) -> (i: usize)
    ensures
        ({
            let f = first_index(names_view(bridges@), equal_to(mac_or_empty(opt_view(*name))));
            i as int == if f >= 0 { f } else { 0 }
        }),
        bridges@.len() > 0 ==> i < bridges@.len(),
{
    let ghost bv = names_view(bridges@);
    let ghost cur = mac_or_empty(opt_view(*name));
    let ghost p = equal_to(cur);
    let current = clone_mac(name);
    let mut i: usize = 0;
    while i < bridges.len()
        invariant
            bv == names_view(bridges@),
            current@ == cur,
            cur == mac_or_empty(opt_view(*name)),
            p == equal_to(cur),
            i <= bridges@.len(),
            forall|k: int| 0 <= k < i ==> !p(#[trigger] bv[k]),
        decreases bridges@.len() - i,
    {
        assert(bv[i as int] == bridges@[i as int]@);
        if bridges[i] == current {
            proof {
                lemma_first_index(bv, p, i as int);
            }
            return i;
        }
        i += 1;
    }
    proof {
        lemma_first_index(bv, p, i as int);
    }
    0
}

/// Handle a key in the per-NIC field editor.
pub fn handle_field_key(
    ns: &mut NetworkSettingsState,
    key: Key,
    stops: &[(String, Option<String>)],
    system_bridges: &[String],
) -> (out: NsOutcome)
    requires
        ns_wf(ns_view(*old(ns))),
        stops@.len() < i32::MAX,
        system_bridges@.len() <= i32::MAX,
    ensures
        (ns_view(*final(ns)), out@) == field_step(
            ns_view(*old(ns)),
            key,
            stops_view(stops@),
            names_view(system_bridges@),
        ),
        ns_wf(ns_view(*final(ns))),
{
    let ghost s = ns_view(*ns);
    let a = ns.active_nic;
    let max = ns.nics[a].max_editor_field();
    let mac_field_shown = ns.selected_field == 2 && ns.nics[a].show_mac();
    match key {
        Key::Esc => {
            let dirty = match &ns.nic_snapshot {
                Some(snap) => !nic_equal(snap, &ns.nics[a]),
                None => true,
            };
            if dirty {
                NsOutcome::ConfirmDiscardNicEdit
            } else {
                discard_nic_edit(ns);
                NsOutcome::Stay
            }
        },
        Key::Char('s') | Key::Char('S') => NsOutcome::SaveNic,
        Key::Char('j') | Key::Down => {
            if ns.selected_field < max {
                ns.selected_field += 1;
            }
            NsOutcome::Stay
        },
        Key::Char('k') | Key::Up => {
            if ns.selected_field > 0 {
                ns.selected_field -= 1;
            }
            NsOutcome::Stay
        },
        Key::Char('r') => {
            if mac_field_shown {
                NsOutcome::GenerateMac
            } else {
                NsOutcome::Stay
            }
        },
        Key::Char('c') => {
            if mac_field_shown {
                set_active_mac(ns, None);
                ns.mac_edit_buffer = String::new();
            }
            NsOutcome::Stay
        },
        Key::Left | Key::Right | Key::Tab | Key::BackTab => {
            let delta: i32 = match key {
                Key::Right | Key::Tab => 1,
                _ => -1,
            };
            if ns.selected_field == 0 {
                let models = vec!["virtio", "e1000", "rtl8139", "ne2k_pci", "pcnet", "none"];
                proof {
                    assert(strs_view(models@) =~= network_models());
                }
                let mut nic = copy_nic(&ns.nics[a]);
                proof {
                    lemma_first_index_props(strs_view(models@), equal_to(nic.model@));
                }
                cycle_option(&mut nic.model, models.as_slice(), delta);
                set_active_nic(ns, nic);
            } else if ns.selected_field == 1 {
                let default_bridge: Option<String> = if system_bridges.len() > 0 {
                    Some(system_bridges[0].clone())
                } else {
                    Some("qemubr0".to_owned())
                };
                assert(opt_view(default_bridge) == default_bridge_of(names_view(system_bridges@)));
                let mut nic = copy_nic(&ns.nics[a]);
                proof {
                    let r = resolve_stops(stops_view(stops@), opt_view(default_bridge));
                    lemma_resolve_stops_len(stops_view(stops@), opt_view(default_bridge));
                    lemma_first_index_props(r, crate::wizard_types::matches_nic(nic@));
                    lemma_first_index_props(r, crate::wizard_types::is_bridge_stop_for(opt_view(default_bridge)));
                }
                nic.cycle_backend(stops, &default_bridge, delta);
                set_active_nic(ns, nic);
            } else if ns.selected_field == 3 && ns.nics[a].is_bridge() && system_bridges.len() > 0 {
                let cur = bridge_position(system_bridges, &ns.nics[a].bridge_name);
                let sum: i32 = cur as i32 + delta;
                let new_idx: usize = match sum.checked_rem_euclid(system_bridges.len() as i32) {
                    Some(r) => r as usize,
                    None => return NsOutcome::Stay,
                };
                let mut nic = copy_nic(&ns.nics[a]);
                nic.bridge_name = Some(system_bridges[new_idx].clone());
                set_active_nic(ns, nic);
            }
            NsOutcome::Stay
        },
        Key::Enter => {
            if mac_field_shown {
                ns.mac_edit_buffer = clone_mac(&ns.nics[a].mac_address);
                ns.editing_mac = true;
            } else if ns.selected_field == 3 && ns.nics[a].show_port_forwards() {
                ns.editing_port_forwards = true;
                ns.pf_selected = 0;
            }
            NsOutcome::Stay
        },
        _ => NsOutcome::Stay,
    }
}

// ---------------------------------------------------------------------------
// The whole screen
// ---------------------------------------------------------------------------

/// The screen's response to a key, by mode: the NIC list, the add-rule
/// dialog, the port forward list, MAC entry, or the field editor.
pub open spec fn ns_step(s: NsView, key: Key, stops: Seq<StopView>, bridges: Seq<Seq<char>>) -> (NsView, OutcomeView) {
    if !s.editing_nic {
        nic_list_step(s, key)
    } else if s.editing_port_forwards {
        match s.adding_pf {
            Some(a) => (adding_step(s, a, key), OutcomeView::Stay),
            None => (pf_list_step(s, key), OutcomeView::Stay),
        }
    } else if s.editing_mac {
        mac_step(s, key)
    } else {
        field_step(s, key, stops, bridges)
    }
}

/// Handle a key on the Network Settings screen (see [`ns_step`]); the
/// result says what the caller has to do besides the state change.
pub fn handle_key(
    ns: &mut NetworkSettingsState,
    key: Key,
    stops: &[(String, Option<String>)],
    system_bridges: &[String],
) -> (out: NsOutcome)
    requires
        ns_wf(ns_view(*old(ns))),
        stops@.len() < i32::MAX,
        system_bridges@.len() <= i32::MAX,
    ensures
        (ns_view(*final(ns)), out@) == ns_step(
            ns_view(*old(ns)),
            key,
            stops_view(stops@),
            names_view(system_bridges@),
        ),
        ns_wf(ns_view(*final(ns))),
{
    if !ns.editing_nic {
        return handle_nic_list_key(ns, key);
    }
    if ns.editing_port_forwards {
        if ns.adding_pf.is_some() {
            handle_adding_pf(ns, key);
        } else {
            handle_pf_list_key(ns, key);
        }
        return NsOutcome::Stay;
    }
    if ns.editing_mac {
        return handle_mac_key(ns, key);
    }
    handle_field_key(ns, key, stops, system_bridges)
}

/// Every key keeps the screen's invariant: at least one NIC, with the open
/// NIC and the list cursor pointing at one of them.
pub proof fn law_keys_keep_the_screen_well_formed(s: NsView, key: Key, stops: Seq<StopView>, bridges: Seq<Seq<char>>)
    requires
        ns_wf(s),
    ensures
        ns_wf(ns_step(s, key, stops, bridges).0),
{
    let r = ns_step(s, key, stops, bridges).0;
    if !s.editing_nic {
        if key == Key::Char('d') || key == Key::Delete {
            if s.list_cursor < s.nics.len() && s.nics.len() > 1 {
                assert(r.nics.len() == s.nics.len() - 1);
            }
        }
    }
}

/// While a NIC is open in the editor, no key but the field editor's own
/// Esc touches the snapshot taken when the NIC was opened, or changes which
/// NIC is open: MAC entry, the port forward list and the add-rule dialog
/// all leave both alone.
pub proof fn law_editing_keeps_the_snapshot(s: NsView, key: Key, stops: Seq<StopView>, bridges: Seq<Seq<char>>)
    requires
        ns_wf(s),
        s.editing_nic,
        !(key == Key::Esc && !s.editing_port_forwards && !s.editing_mac),
    ensures
        ns_step(s, key, stops, bridges).0.nic_snapshot == s.nic_snapshot,
        ns_step(s, key, stops, bridges).0.active_nic == s.active_nic,
        ns_step(s, key, stops, bridges).0.editing_nic,
{
}

/// Discarding brings the open NIC back to its snapshot, leaves the other
/// NICs as they are, and closes the editor.
pub proof fn law_discard_restores_the_snapshot(s: NsView, n: NicView)
    requires
        ns_wf(s),
        s.nic_snapshot == Some(n),
    ensures
        discarded(s).nics == s.nics.update(s.active_nic, n),
        !discarded(s).editing_nic,
        discarded(s).nic_snapshot is None,
{
}

/// Opening a NIC from the list and discarding right away leaves the NICs
/// exactly as they were.
pub proof fn law_open_then_discard_keeps_the_nics(s: NsView)
    requires
        ns_wf(s),
        !s.editing_nic,
    ensures
        discarded(nic_list_step(s, Key::Enter).0).nics == s.nics,
{
    assert(s.nics.update(s.list_cursor, s.nics[s.list_cursor]) =~= s.nics);
}

} // verus!
