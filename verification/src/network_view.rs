//! What the Network Settings screen shows: the NIC list rows, the per-NIC
//! editor's field rows, and the bridge status lines.

use vstd::prelude::*;
use crate::chars::{decimal, push_char, push_decimal, str_eq};
use crate::network_settings::{NsView, ns_view, ns_wf};
use crate::wizard_types::{AddPfStep, AddingPortForward, NetworkSettingsState, NicView, backend_text, names_view, opt_view};

verus! {

// ---------------------------------------------------------------------------
// Padding and joining
// ---------------------------------------------------------------------------

/// `s` padded with spaces on the right to `width` characters, as `{:width}`
/// formats a string; longer text is left as it is.
pub open spec fn padded(s: Seq<char>, width: nat) -> Seq<char> {
    if s.len() < width {
        s + Seq::new((width - s.len()) as nat, |i: int| ' ')
    } else {
        s
    }
}

/// Pad `s` with spaces on the right to `width` characters.
pub fn pad_right(s: &str, width: usize) -> (r: String)
    ensures
        r@ == padded(s@, width as nat),
{
    let mut r = s.to_owned();
    let n = crate::chars::chars_of(s).len();
    if n < width {
        let mut k: usize = n;
        while k < width
            invariant
                n == s@.len(),
                n <= k <= width,
                r@ == s@ + Seq::new((k - n) as nat, |i: int| ' '),
            decreases width - k,
        {
            push_char(&mut r, ' ');
            assert(r@ =~= s@ + Seq::new((k + 1 - n) as nat, |i: int| ' '));
            k += 1;
        }
    }
    r
}

/// The parts joined with `sep` between them.
pub open spec fn joined(parts: Seq<Seq<char>>, sep: Seq<char>) -> Seq<char>
    decreases parts.len(),
{
    if parts.len() == 0 {
        Seq::empty()
    } else if parts.len() == 1 {
        parts[0]
    } else {
        joined(parts.drop_last(), sep) + sep + parts.last()
    }
}

/// Join `parts` with `sep` between them.
pub fn join(parts: &[String], sep: &str) -> (r: String)
    ensures
        r@ == joined(names_view(parts@), sep@),
{
    let ghost pv = names_view(parts@);
    let mut r = String::new();
    let mut i: usize = 0;
    while i < parts.len()
        invariant
            pv == names_view(parts@),
            i <= parts@.len(),
            r@ == joined(pv.take(i as int), sep@),
        decreases parts@.len() - i,
    {
        assert(pv.take(i + 1).drop_last() =~= pv.take(i as int));
        assert(pv.take(i + 1).last() == parts@[i as int]@);
        if i > 0 {
            r.append(sep);
        } else {
            assert(pv.take(0) =~= Seq::<Seq<char>>::empty());
        }
        r.append(parts[i].as_str());
        i += 1;
    }
    assert(pv.take(parts@.len() as int) =~= pv);
    r
}

// ---------------------------------------------------------------------------
// Field rows
// ---------------------------------------------------------------------------

/// One row of a per-NIC editor: a label, the current value, whether the row
/// has the focus, and the key hint shown while it has.
#[derive(Debug, Clone)]
pub struct FieldRow {
    pub label: String,
    pub value: String,
    pub selected: bool,
    pub hint: String,
}

pub struct FieldRowView {
    pub label: Seq<char>,
    pub value: Seq<char>,
    pub selected: bool,
    pub hint: Seq<char>,
}

impl View for FieldRow {
    type V = FieldRowView;

    open spec fn view(&self) -> FieldRowView {
        FieldRowView { label: self.label@, value: self.value@, selected: self.selected, hint: self.hint@ }
    }
}

pub open spec fn row(label: Seq<char>, value: Seq<char>, selected: bool, hint: Seq<char>) -> FieldRowView {
    FieldRowView { label, value, selected, hint }
}

fn make_row(label: &str, value: String, selected: bool, hint: &str) -> (r: FieldRow)
    ensures
        r@ == row(label@, value@, selected, hint@),
{
    FieldRow { label: label.to_owned(), value, selected, hint: hint.to_owned() }
}

/// The four pieces a field row is drawn from: the focus marker, the label
/// in a 12-column cell, the value in a 20-column cell, and the hint (only
/// while the row has the focus).
pub open spec fn field_line_spec(r: FieldRowView) -> (Seq<char>, Seq<char>, Seq<char>, Seq<char>) {
    (
        if r.selected { "> "@ } else { "  "@ },
        padded(r.label, 12),
        padded(r.value, 20),
        if r.selected { r.hint } else { Seq::empty() },
    )
}

/// Lay out a field row (see [`field_line_spec`]).
pub fn field_line(r: &FieldRow) -> (parts: (String, String, String, String))
    ensures
        (parts.0@, parts.1@, parts.2@, parts.3@) == field_line_spec(r@),
{
    let prefix = if r.selected { "> ".to_owned() } else { "  ".to_owned() };
    let hint = if r.selected { r.hint.clone() } else { String::new() };
    (prefix, pad_right(r.label.as_str(), 12), pad_right(r.value.as_str(), 20), hint)
}

// ---------------------------------------------------------------------------
// The per-NIC editor
// ---------------------------------------------------------------------------

/// The rows of the per-NIC editor. The MAC row is there unless the backend
/// is "none"; the fourth row is the bridge (bridge backend) or the port
/// forwards (user and passt backends).
pub struct NicEditorRows {
    pub header: String,
    pub adapter: FieldRow,
    pub backend: FieldRow,
    pub mac: Option<FieldRow>,
    pub fourth: Option<FieldRow>,
}

pub open spec fn cycle_hint() -> Seq<char> {
    "[←/→/Tab] cycle"@
}

pub open spec fn opt_row(r: Option<FieldRow>) -> Option<FieldRowView> {
    match r {
        Some(x) => Some(x@),
        None => None,
    }
}

/// The MAC row's value: the entry with a cursor while typing, else the
/// NIC's MAC address, else "(auto)".
pub open spec fn mac_value(s: NsView, nic: NicView) -> Seq<char> {
    if s.editing_mac {
        s.mac_edit_buffer.push('_')
    } else {
        match nic.mac_address {
            Some(m) => m,
            None => "(auto)"@,
        }
    }
}

pub open spec fn mac_hint(s: NsView) -> Seq<char> {
    if s.editing_mac {
        "[Enter] save  [Esc] cancel"@
    } else if s.selected_field == 2 {
        "[Enter] edit  [r] randomize  [c] clear"@
    } else {
        ""@
    }
}

pub open spec fn forwards_value(n: nat) -> Seq<char> {
    if n == 0 {
        "none"@
    } else {
        decimal(n) + " rule(s)"@
    }
}

/// The header of the per-NIC editor.
pub open spec fn editor_header(s: NsView) -> Seq<char> {
    "Configure NIC "@ + decimal((s.active_nic + 1) as nat) + " of "@ + decimal(s.nics.len())
}

pub open spec fn mac_row(s: NsView) -> Option<FieldRowView> {
    let nic = s.nics[s.active_nic];
    if nic.backend != "none"@ {
        Some(row("MAC:"@, mac_value(s, nic), s.selected_field == 2, mac_hint(s)))
    } else {
        None
    }
}

pub open spec fn fourth_row(s: NsView) -> Option<FieldRowView> {
    let nic = s.nics[s.active_nic];
    let sel = s.selected_field == 3;
    if nic.backend == "bridge"@ {
        Some(
            row(
                "Bridge:"@,
                match nic.bridge_name {
                    Some(b) => b,
                    None => "qemubr0"@,
                },
                sel,
                cycle_hint(),
            ),
        )
    } else if nic.backend == "user"@ || nic.backend == "passt"@ {
        Some(
            row(
                "Forwards:"@,
                forwards_value(nic.port_forwards.len()),
                sel,
                if sel { "[Enter] edit"@ } else { ""@ },
            ),
        )
    } else {
        None
    }
}

fn text_of(s: &str) -> (r: String)
    ensures
        r@ == s@,
{
    s.to_owned()
}

/// The rows of the per-NIC editor for the open NIC.
pub fn nic_editor_rows(ns: &NetworkSettingsState) -> (r: NicEditorRows)
    requires
        ns_wf(ns_view(*ns)),
    ensures
        r.header@ == editor_header(ns_view(*ns)),
        r.adapter@ == row(
            "Adapter:"@,
            ns_view(*ns).nics[ns.active_nic as int].model,
            ns.selected_field == 0,
            cycle_hint(),
        ),
        r.backend@ == row(
            "Backend:"@,
            backend_text(
                ns_view(*ns).nics[ns.active_nic as int].backend,
                ns_view(*ns).nics[ns.active_nic as int].bridge_name,
            ),
            ns.selected_field == 1,
            cycle_hint(),
        ),
        opt_row(r.mac) == mac_row(ns_view(*ns)),
        opt_row(r.fourth) == fourth_row(ns_view(*ns)),
{
    let ghost s = ns_view(*ns);
    let a = ns.active_nic;
    let len = ns.nics.len();
    assert(s.nics.len() == len);
    let nic = &ns.nics[a];
    assert(s.nics[a as int] == nic@);
    let sel = ns.selected_field;
    let mut header = text_of("Configure NIC ");
    push_decimal(&mut header, (a + 1) as u64);
    header.append(" of ");
    push_decimal(&mut header, len as u64);
    let adapter = make_row("Adapter:", nic.model.clone(), sel == 0, "[←/→/Tab] cycle");
    let backend = make_row("Backend:", nic.backend_display(), sel == 1, "[←/→/Tab] cycle");
    let mac = if nic.show_mac() {
        let value = if ns.editing_mac {
            let mut v = ns.mac_edit_buffer.clone();
            push_char(&mut v, '_');
            v
        } else {
            match &nic.mac_address {
                Some(m) => m.clone(),
                None => text_of("(auto)"),
            }
        };
        let hint = if ns.editing_mac {
            "[Enter] save  [Esc] cancel"
        } else if sel == 2 {
            "[Enter] edit  [r] randomize  [c] clear"
        } else {
            ""
        };
        Some(make_row("MAC:", value, sel == 2, hint))
    } else {
        None
    };
    let fourth = if nic.is_bridge() {
        let value = match &nic.bridge_name {
            Some(b) => b.clone(),
            None => text_of("qemubr0"),
        };
        Some(make_row("Bridge:", value, sel == 3, "[←/→/Tab] cycle"))
    } else if nic.show_port_forwards() {
        let n = nic.port_forwards.len();
        let value = if n == 0 {
            text_of("none")
        } else {
            let mut v = String::new();
            push_decimal(&mut v, n as u64);
            v.append(" rule(s)");
            v
        };
        let hint = if sel == 3 { "[Enter] edit" } else { "" };
        Some(make_row("Forwards:", value, sel == 3, hint))
    } else {
        None
    };
    NicEditorRows { header, adapter, backend, mac, fourth }
}

// ---------------------------------------------------------------------------
// The NIC list
// ---------------------------------------------------------------------------

/// One row of the NIC list and whether the cursor is on it.
pub open spec fn nic_list_row(i: int, nic: NicView, cursor: int) -> (Seq<char>, bool) {
    (
        (if i == cursor { "> "@ } else { "  "@ }) + "NIC "@ + decimal((i + 1) as nat) + ": "@ + nic.model + " ("@
            + backend_text(nic.backend, nic.bridge_name) + ")"@,
        i == cursor,
    )
}

/// The rows of the NIC list, one per NIC (see [`nic_list_row`]).
pub fn nic_list_rows(ns: &NetworkSettingsState) -> (rows: Vec<(String, bool)>)
    ensures
        rows@.len() == ns.nics@.len(),
        forall|i: int|
            0 <= i < rows@.len() ==> ((#[trigger] rows@[i]).0@, rows@[i].1) == nic_list_row(
                i,
                ns.nics@[i]@,
                ns.list_cursor as int,
            ),
{
    let mut rows: Vec<(String, bool)> = Vec::new();
    let mut i: usize = 0;
    while i < ns.nics.len()
        invariant
            i <= ns.nics@.len(),
            rows@.len() == i,
            forall|k: int|
                0 <= k < i ==> ((#[trigger] rows@[k]).0@, rows@[k].1) == nic_list_row(
                    k,
                    ns.nics@[k]@,
                    ns.list_cursor as int,
                ),
        decreases ns.nics@.len() - i,
    {
        let selected = i == ns.list_cursor;
        let mut t = if selected { text_of("> ") } else { text_of("  ") };
        t.append("NIC ");
        push_decimal(&mut t, (i + 1) as u64);
        t.append(": ");
        let d = ns.nics[i].describe();
        t.append(d.as_str());
        assert(t@ =~= nic_list_row(i as int, ns.nics@[i as int]@, ns.list_cursor as int).0);
        rows.push((t, selected));
        i += 1;
    }
    rows
}

// ---------------------------------------------------------------------------
// The add-rule dialog
// ---------------------------------------------------------------------------

/// What the add-rule dialog shows besides the protocol itself: which entry
/// is active, the protocol's key hint, and the two port entries ("_" while
/// empty).
pub struct AddingRows {
    pub protocol_active: bool,
    pub protocol_hint: String,
    pub host: String,
    pub host_active: bool,
    pub guest: String,
    pub guest_active: bool,
}

pub open spec fn entry_text(input: Seq<char>) -> Seq<char> {
    if input.len() == 0 { "_"@ } else { input }
}

fn port_entry_text(input: &String) -> (t: String)
    ensures
        t@ == entry_text(input@),
{
    if input.as_str().is_empty() {
        text_of("_")
    } else {
        input.clone()
    }
}

/// The add-rule dialog's rows (see [`AddingRows`]).
pub fn adding_rows(a: &AddingPortForward) -> (r: AddingRows)
    ensures
        r.protocol_active == (a.step == AddPfStep::Protocol),
        r.protocol_hint@ == if a.step == AddPfStep::Protocol { " [←/→] toggle"@ } else { ""@ },
        r.host@ == entry_text(a.host_port_input@),
        r.host_active == (a.step == AddPfStep::HostPort),
        r.guest@ == entry_text(a.guest_port_input@),
        r.guest_active == (a.step == AddPfStep::GuestPort),
{
    let protocol_active = a.step == AddPfStep::Protocol;
    AddingRows {
        protocol_active,
        protocol_hint: if protocol_active { text_of(" [←/→] toggle") } else { text_of("") },
        host: port_entry_text(&a.host_port_input),
        host_active: a.step == AddPfStep::HostPort,
        guest: port_entry_text(&a.guest_port_input),
        guest_active: a.step == AddPfStep::GuestPort,
    }
}

// ---------------------------------------------------------------------------
// Bridge status
// ---------------------------------------------------------------------------

/// What the host offers for bridged networking.
pub struct BridgeCaps {
    /// Where qemu-bridge-helper was found, as shown to the user.
    pub helper_path: Option<String>,
    /// Whether the helper may create taps (setuid or cap_net_admin).
    pub helper_configured: bool,
    /// The bridges present on the host.
    pub system_bridges: Vec<String>,
}

/// How a bridge status line is shown.
#[derive(Debug, Clone, Copy, PartialEq, Eq, Structural)]
pub enum StatusKind {
    /// A label with a value that is as it should be.
    Good,
    /// A label with a value that needs attention.
    Bad,
    /// An empty line.
    Blank,
    /// A heading.
    Heading,
    /// A setup instruction.
    Guidance,
}

/// One line of the bridge status: a label (empty but for `Good` and `Bad`
/// lines) and a text.
#[derive(Debug, Clone)]
pub struct StatusLine {
    pub label: String,
    pub text: String,
    pub kind: StatusKind,
}

pub struct StatusView {
    pub label: Seq<char>,
    pub text: Seq<char>,
    pub kind: StatusKind,
}

impl View for StatusLine {
    type V = StatusView;

    open spec fn view(&self) -> StatusView {
        StatusView { label: self.label@, text: self.text@, kind: self.kind }
    }
}

pub open spec fn status_view(v: Seq<StatusLine>) -> Seq<StatusView> {
    v.map_values(|l: StatusLine| l@)
}

pub open spec fn field(label: Seq<char>, text: Seq<char>, good: bool) -> StatusView {
    StatusView { label, text, kind: if good { StatusKind::Good } else { StatusKind::Bad } }
}

pub open spec fn plain(text: Seq<char>, kind: StatusKind) -> StatusView {
    StatusView { label: ""@, text, kind }
}

/// The helper, its permissions, the host's bridges, and the managed
/// networks when there are any.
pub open spec fn status_fields(
    helper: Option<Seq<char>>,
    configured: bool,
    bridges: Seq<Seq<char>>,
    managed: Seq<Seq<char>>,
) -> Seq<StatusView> {
    seq![
        field(
            "  bridge-helper: "@,
            match helper {
                Some(p) => "found ("@ + p + ")"@,
                None => "not found"@,
            },
            helper is Some,
        ),
        field(
            "  Permissions:   "@,
            if configured { "configured (setuid/cap_net_admin)"@ } else { "not configured"@ },
            configured,
        ),
        field(
            "  Bridges:       "@,
            if bridges.len() == 0 { "none found"@ } else { joined(bridges, ", "@) },
            bridges.len() > 0,
        ),
    ] + if managed.len() > 0 {
        seq![field("  Managed nets:  "@, joined(managed, ", "@), true)]
    } else {
        Seq::empty()
    }
}

pub open spec fn guidance_if(cond: bool, lines: Seq<Seq<char>>) -> Seq<StatusView> {
    if cond {
        lines.map_values(|t: Seq<char>| plain(t, StatusKind::Guidance))
    } else {
        Seq::empty()
    }
}

/// How to set up what is missing: after a blank line and a heading, how to
/// install the helper, give it its permissions, and create a bridge.
pub open spec fn setup_lines(no_helper: bool, configured: bool, no_bridges: bool) -> Seq<StatusView> {
    seq![plain(""@, StatusKind::Blank), plain("  Setup needed:"@, StatusKind::Heading)] + guidance_if(
        no_helper,
        seq!["    Install: qemu-bridge-helper (part of QEMU)"@],
    ) + guidance_if(!configured, seq!["    Run: sudo setcap cap_net_admin+ep /usr/lib/qemu/qemu-bridge-helper"@])
        + guidance_if(
        no_bridges,
        seq!["    Create bridge: sudo ip link add qemubr0 type bridge"@, "    Enable:        sudo ip link set qemubr0 up"@],
    )
}

/// The bridge status shown under a bridged NIC: the status fields, then,
/// when something is missing, how to set it up.
pub open spec fn bridge_status_spec(
    helper: Option<Seq<char>>,
    configured: bool,
    bridges: Seq<Seq<char>>,
    managed: Seq<Seq<char>>,
) -> Seq<StatusView> {
    let no_helper = helper is None;
    let no_bridges = bridges.len() == 0;
    status_fields(helper, configured, bridges, managed) + if no_helper || !configured || no_bridges {
        setup_lines(no_helper, configured, no_bridges)
    } else {
        Seq::empty()
    }
}

fn push_line(v: &mut Vec<StatusLine>, label: &str, text: String, kind: StatusKind)
    ensures
        status_view(final(v)@) == status_view(old(v)@).push(StatusView { label: label@, text: text@, kind }),
{
    let ghost before = status_view(v@);
    let ghost tv = text@;
    v.push(StatusLine { label: label.to_owned(), text, kind });
    assert(status_view(v@) =~= before.push(StatusView { label: label@, text: tv, kind }));
}

fn push_guidance(v: &mut Vec<StatusLine>, text: &str)
    ensures
        status_view(final(v)@) == status_view(old(v)@).push(plain(text@, StatusKind::Guidance)),
{
    push_line(v, "", text_of(text), StatusKind::Guidance);
}

fn push_fields(v: &mut Vec<StatusLine>, caps: &BridgeCaps, managed: &[String])
    ensures
        status_view(final(v)@) == status_view(old(v)@) + status_fields(
            opt_view(caps.helper_path),
            caps.helper_configured,
            names_view(caps.system_bridges@),
            names_view(managed@),
        ),
{
    let ghost start = status_view(v@);
    let (helper_text, helper_ok) = match &caps.helper_path {
        Some(p) => {
            let mut t = text_of("found (");
            t.append(p.as_str());
            t.append(")");
            (t, true)
        },
        None => (text_of("not found"), false),
    };
    push_line(v, "  bridge-helper: ", helper_text, if helper_ok { StatusKind::Good } else { StatusKind::Bad });
    let configured = caps.helper_configured;
    let perm = if configured {
        text_of("configured (setuid/cap_net_admin)")
    } else {
        text_of("not configured")
    };
    push_line(v, "  Permissions:   ", perm, if configured { StatusKind::Good } else { StatusKind::Bad });
    let no_bridges = caps.system_bridges.len() == 0;
    let bridges_text = if no_bridges {
        text_of("none found")
    } else {
        join(caps.system_bridges.as_slice(), ", ")
    };
    push_line(v, "  Bridges:       ", bridges_text, if no_bridges { StatusKind::Bad } else { StatusKind::Good });
    if managed.len() > 0 {
        push_line(v, "  Managed nets:  ", join(managed, ", "), StatusKind::Good);
    }
    assert(status_view(v@) =~= start + status_fields(
        opt_view(caps.helper_path),
        caps.helper_configured,
        names_view(caps.system_bridges@),
        names_view(managed@),
    ));
}

fn push_setup(v: &mut Vec<StatusLine>, no_helper: bool, configured: bool, no_bridges: bool)
    ensures
        status_view(final(v)@) == status_view(old(v)@) + setup_lines(no_helper, configured, no_bridges),
{
    let ghost start = status_view(v@);
    push_line(v, "", text_of(""), StatusKind::Blank);
    push_line(v, "", text_of("  Setup needed:"), StatusKind::Heading);
    let ghost head = status_view(v@);
    if no_helper {
        push_guidance(v, "    Install: qemu-bridge-helper (part of QEMU)");
    }
    let ghost a = status_view(v@);
    assert(a =~= head + guidance_if(no_helper, seq!["    Install: qemu-bridge-helper (part of QEMU)"@]));
    if !configured {
        push_guidance(v, "    Run: sudo setcap cap_net_admin+ep /usr/lib/qemu/qemu-bridge-helper");
    }
    let ghost b = status_view(v@);
    assert(b =~= a + guidance_if(
        !configured,
        seq!["    Run: sudo setcap cap_net_admin+ep /usr/lib/qemu/qemu-bridge-helper"@],
    ));
    if no_bridges {
        push_guidance(v, "    Create bridge: sudo ip link add qemubr0 type bridge");
        push_guidance(v, "    Enable:        sudo ip link set qemubr0 up");
    }
    assert(status_view(v@) =~= b + guidance_if(
        no_bridges,
        seq!["    Create bridge: sudo ip link add qemubr0 type bridge"@, "    Enable:        sudo ip link set qemubr0 up"@],
    ));
    assert(status_view(v@) =~= start + setup_lines(no_helper, configured, no_bridges));
}

/// The bridge status lines (see [`bridge_status_spec`]); `managed` holds the
/// descriptions of the managed virtual networks.
pub fn bridge_status(caps: &BridgeCaps, managed: &[String]) -> (v: Vec<StatusLine>)
    ensures
        status_view(v@) == bridge_status_spec(
            opt_view(caps.helper_path),
            caps.helper_configured,
            names_view(caps.system_bridges@),
            names_view(managed@),
        ),
{
    let mut v: Vec<StatusLine> = Vec::new();
    push_fields(&mut v, caps, managed);
    let no_helper = caps.helper_path.is_none();
    let no_bridges = caps.system_bridges.len() == 0;
    if no_helper || !caps.helper_configured || no_bridges {
        push_setup(&mut v, no_helper, caps.helper_configured, no_bridges);
    }
    assert(status_view(v@) =~= bridge_status_spec(
        opt_view(caps.helper_path),
        caps.helper_configured,
        names_view(caps.system_bridges@),
        names_view(managed@),
    ));
    v
}

} // verus!
