//! The configuration summary shown beside a VM's ASCII art: hardware,
//! disks and network topology, one line each.

use vstd::prelude::*;
use crate::chars::{decimal, push_decimal};
use crate::network_view::{join, joined};
use crate::vm::qemu_config::{NetworkBackend, NetworkConfig, PortForward};
use crate::wizard_types::{names_view, opt_view};

verus! {

/// One line of the summary.
#[derive(Debug, Clone, PartialEq, Eq)]
pub enum ConfigLine {
    /// A section heading.
    Heading(String),
    /// A label and its value.
    Field(String, String),
    /// A plain line.
    Plain(String),
    /// A dimmed line.
    Muted(String),
    /// An empty line.
    Blank,
    /// A port forwarding rule of the NIC above it.
    Forward(PortForward),
}

pub enum LineView {
    Heading(Seq<char>),
    Field(Seq<char>, Seq<char>),
    Plain(Seq<char>),
    Muted(Seq<char>),
    Blank,
    Forward(PortForward),
}

impl View for ConfigLine {
    type V = LineView;

    open spec fn view(&self) -> LineView {
        match self {
            ConfigLine::Heading(t) => LineView::Heading(t@),
            ConfigLine::Field(l, v) => LineView::Field(l@, v@),
            ConfigLine::Plain(t) => LineView::Plain(t@),
            ConfigLine::Muted(t) => LineView::Muted(t@),
            ConfigLine::Blank => LineView::Blank,
            ConfigLine::Forward(pf) => LineView::Forward(*pf),
        }
    }
}

pub open spec fn lines_view(v: Seq<ConfigLine>) -> Seq<LineView> {
    v.map_values(|l: ConfigLine| l@)
}

/// A disk as the summary shows it: its full path, format, interface and
/// role as text, and how much of it is used out of its capacity when that
/// is known.
pub struct DiskSummary {
    pub path: String,
    pub format: String,
    pub interface: String,
    pub role: String,
    pub usage: Option<(String, String)>,
}

/// What the summary reads from a VM's configuration. The memory comes
/// already formatted.
pub struct ConfigSummary {
    pub architecture: String,
    pub command: String,
    pub cpu_cores: u32,
    pub cpu_model: Option<String>,
    pub memory: String,
    pub machine: Option<String>,
    pub enable_kvm: bool,
    pub uefi: bool,
    pub tpm: bool,
    pub gl_acceleration: bool,
    pub disks: Vec<DiskSummary>,
    pub networks: Vec<NetworkConfig>,
}

// ---------------------------------------------------------------------------
// The lines
// ---------------------------------------------------------------------------

pub open spec fn cpu_text(cores: u32, model: Option<Seq<char>>) -> Seq<char> {
    decimal(cores as nat) + " cores"@ + match model {
        Some(m) => " ("@ + m + ")"@,
        None => Seq::empty(),
    }
}

/// The platform features that are on, in order.
pub open spec fn features(c: ConfigSummary) -> Seq<Seq<char>> {
    (if c.enable_kvm { seq!["KVM"@] } else { Seq::empty() }) + (if c.uefi { seq!["UEFI"@] } else { Seq::empty() }) + (
    if c.tpm { seq!["TPM"@] } else { Seq::empty() }) + (if c.gl_acceleration { seq!["3D Accel"@] } else { Seq::empty() })
}

pub open spec fn features_text(c: ConfigSummary) -> Seq<char> {
    if features(c).len() == 0 {
        "None"@
    } else {
        joined(features(c), ", "@)
    }
}

pub open spec fn hardware_lines(c: ConfigSummary) -> Seq<LineView> {
    seq![
        LineView::Heading("Hardware"@),
        LineView::Field("Architecture: "@, c.architecture@ + " ("@ + c.command@ + ")"@),
        LineView::Field("CPU: "@, cpu_text(c.cpu_cores, opt_view(c.cpu_model))),
        LineView::Field("Memory: "@, c.memory@),
    ] + (match c.machine {
        Some(m) => seq![LineView::Field("Machine: "@, m@)],
        None => Seq::empty(),
    }) + seq![LineView::Field("Features: "@, features_text(c))]
}

pub open spec fn disk_text(d: DiskSummary) -> Seq<char> {
    "  "@ + d.path@ + " — "@ + d.format@ + ", "@ + d.interface@ + " ["@ + d.role@ + "]"@ + match d.usage {
        Some((used, capacity)) => " ("@ + used@ + " used / "@ + capacity@ + " capacity)"@,
        None => Seq::empty(),
    }
}

pub open spec fn disk_lines(c: ConfigSummary) -> Seq<LineView> {
    seq![LineView::Blank, LineView::Heading("Disks"@)] + (if c.disks@.len() == 0 {
        seq![LineView::Muted("  (none)"@)]
    } else {
        Seq::empty()
    }) + c.disks@.map_values(|d: DiskSummary| LineView::Plain(disk_text(d)))
}

pub open spec fn backend_summary(b: NetworkBackend) -> Seq<char> {
    match b {
        NetworkBackend::User => "user/SLIRP (NAT)"@,
        NetworkBackend::Passt => "passt"@,
        NetworkBackend::Bridge(name) => "bridge: "@ + name@,
        NetworkBackend::NoBackend => "none"@,
    }
}

/// The line of NIC `i` (counting from 0): numbered when the VM has more
/// than one NIC.
pub open spec fn nic_text(i: int, multi: bool, net: NetworkConfig) -> Seq<char> {
    (if multi { "  NIC "@ + decimal((i + 1) as nat) + ": "@ } else { "  NIC: "@ }) + net.model@ + " — "@
        + backend_summary(net.backend) + match net.mac_address {
        Some(m) => " (MAC "@ + m@ + ")"@,
        None => Seq::empty(),
    }
}

/// A NIC's line followed by one line per port forwarding rule.
pub open spec fn nic_block(i: int, multi: bool, net: NetworkConfig) -> Seq<LineView> {
    seq![LineView::Plain(nic_text(i, multi, net))] + net.port_forwards@.map_values(|pf: PortForward| LineView::Forward(pf))
}

pub open spec fn nics_lines(nets: Seq<NetworkConfig>, multi: bool) -> Seq<LineView>
    decreases nets.len(),
{
    if nets.len() == 0 {
        Seq::empty()
    } else {
        nics_lines(nets.drop_last(), multi) + nic_block(nets.len() - 1, multi, nets.last())
    }
}

pub open spec fn network_lines(c: ConfigSummary) -> Seq<LineView> {
    seq![LineView::Blank, LineView::Heading("Network"@)] + (if c.networks@.len() == 0 {
        seq![LineView::Muted("  (none)"@)]
    } else {
        Seq::empty()
    }) + nics_lines(c.networks@, c.networks@.len() > 1)
}

/// The whole summary: hardware, then disks, then network.
pub open spec fn config_lines_spec(c: ConfigSummary) -> Seq<LineView> {
    hardware_lines(c) + disk_lines(c) + network_lines(c)
}

/// Where a feature name stands in the Features line: KVM, UEFI, TPM, 3D
/// acceleration; -1 for any other text.
pub open spec fn feature_position(name: Seq<char>) -> int {
    if name == "KVM"@ {
        0
    } else if name == "UEFI"@ {
        1
    } else if name == "TPM"@ {
        2
    } else if name == "3D Accel"@ {
        3
    } else {
        -1
    }
}

/// The Features line names each enabled platform feature and nothing else,
/// once each and in the fixed order KVM, UEFI, TPM, 3D Accel; with none
/// enabled it reads "None". It is the last hardware line, right after
/// Memory (or Machine, when one is set).
pub proof fn law_features_name_each_enabled_flag(c: ConfigSummary)
    ensures
        features(c).contains("KVM"@) == c.enable_kvm,
        features(c).contains("UEFI"@) == c.uefi,
        features(c).contains("TPM"@) == c.tpm,
        features(c).contains("3D Accel"@) == c.gl_acceleration,
        forall|i: int| 0 <= i < features(c).len() ==> feature_position(#[trigger] features(c)[i]) >= 0,
        forall|i: int, j: int|
            0 <= i < j < features(c).len() ==> feature_position(#[trigger] features(c)[i]) < feature_position(
                #[trigger] features(c)[j],
            ),
        (features(c).len() == 0) == (!c.enable_kvm && !c.uefi && !c.tpm && !c.gl_acceleration),
        config_lines_spec(c)[if c.machine is Some { 5int } else { 4int }] == LineView::Field(
            "Features: "@,
            if features(c).len() == 0 {
                "None"@
            } else {
                joined(features(c), ", "@)
            },
        ),
{
    reveal_strlit("KVM");
    reveal_strlit("UEFI");
    reveal_strlit("TPM");
    reveal_strlit("3D Accel");
    let k: Seq<Seq<char>> = if c.enable_kvm { seq!["KVM"@] } else { Seq::empty() };
    let u: Seq<Seq<char>> = if c.uefi { seq!["UEFI"@] } else { Seq::empty() };
    let t: Seq<Seq<char>> = if c.tpm { seq!["TPM"@] } else { Seq::empty() };
    let g: Seq<Seq<char>> = if c.gl_acceleration { seq!["3D Accel"@] } else { Seq::empty() };
    let f = features(c);
    assert(f == k + u + t + g);
    assert(feature_position("KVM"@) == 0);
    assert(feature_position("UEFI"@) == 1) by {
        assert("UEFI"@ != "KVM"@) by { assert("UEFI"@.len() != "KVM"@.len()); }
    }
    assert(feature_position("TPM"@) == 2) by {
        assert("TPM"@ != "KVM"@) by { assert("TPM"@[0] != "KVM"@[0]); }
        assert("TPM"@ != "UEFI"@) by { assert("TPM"@.len() != "UEFI"@.len()); }
    }
    assert(feature_position("3D Accel"@) == 3) by {
        assert("3D Accel"@ != "KVM"@) by { assert("3D Accel"@.len() != "KVM"@.len()); }
        assert("3D Accel"@ != "UEFI"@) by { assert("3D Accel"@.len() != "UEFI"@.len()); }
        assert("3D Accel"@ != "TPM"@) by { assert("3D Accel"@.len() != "TPM"@.len()); }
    }
    assert forall|i: int| 0 <= i < f.len() implies (f[i] == "KVM"@ && c.enable_kvm) || (f[i] == "UEFI"@
        && c.uefi) || (f[i] == "TPM"@ && c.tpm) || (f[i] == "3D Accel"@ && c.gl_acceleration) by {
        if i < k.len() {
            assert(f[i] == k[i]);
        } else if i < k.len() + u.len() {
            assert(f[i] == u[i - k.len()]);
        } else if i < k.len() + u.len() + t.len() {
            assert(f[i] == t[i - k.len() - u.len()]);
        } else {
            assert(f[i] == g[i - k.len() - u.len() - t.len()]);
        }
    }
    if c.enable_kvm {
        assert(f[0] == "KVM"@);
    }
    if c.uefi {
        assert(f[k.len() as int] == "UEFI"@);
    }
    if c.tpm {
        assert(f[(k.len() + u.len()) as int] == "TPM"@);
    }
    if c.gl_acceleration {
        assert(f[(k.len() + u.len() + t.len()) as int] == "3D Accel"@);
    }
    let hw = hardware_lines(c);
    assert(hw.len() == if c.machine is Some { 6int } else { 5int });
    assert(config_lines_spec(c)[hw.len() - 1] == hw[hw.len() - 1]);
}

// ---------------------------------------------------------------------------
// Building them
// ---------------------------------------------------------------------------

fn push_line(v: &mut Vec<ConfigLine>, l: ConfigLine)
    ensures
        lines_view(final(v)@) == lines_view(old(v)@).push(l@),
{
    let ghost before = lines_view(v@);
    let ghost lv = l@;
    v.push(l);
    assert(lines_view(v@) =~= before.push(lv));
}

fn text(s: &str) -> (r: String)
    ensures
        r@ == s@,
{
    s.to_owned()
}

fn features_string(c: &ConfigSummary) -> (s: String)
    ensures
        s@ == features_text(*c),
{
    let mut f: Vec<String> = Vec::new();
    if c.enable_kvm {
        f.push(text("KVM"));
    }
    let ghost a = names_view(f@);
    if c.uefi {
        f.push(text("UEFI"));
    }
    let ghost b = names_view(f@);
    if c.tpm {
        f.push(text("TPM"));
    }
    let ghost d = names_view(f@);
    if c.gl_acceleration {
        f.push(text("3D Accel"));
    }
    assert(a =~= if c.enable_kvm { seq!["KVM"@] } else { Seq::<Seq<char>>::empty() });
    assert(b =~= a + if c.uefi { seq!["UEFI"@] } else { Seq::<Seq<char>>::empty() });
    assert(d =~= b + if c.tpm { seq!["TPM"@] } else { Seq::<Seq<char>>::empty() });
    assert(names_view(f@) =~= features(*c));
    if f.len() == 0 {
        text("None")
    } else {
        join(f.as_slice(), ", ")
    }
}

fn disk_string(d: &DiskSummary) -> (s: String)
    ensures
        s@ == disk_text(*d),
{
    let mut s = text("  ");
    s.append(d.path.as_str());
    s.append(" — ");
    s.append(d.format.as_str());
    s.append(", ");
    s.append(d.interface.as_str());
    s.append(" [");
    s.append(d.role.as_str());
    s.append("]");
    if let Some((used, capacity)) = &d.usage {
        s.append(" (");
        s.append(used.as_str());
        s.append(" used / ");
        s.append(capacity.as_str());
        s.append(" capacity)");
    }
    s
}

fn nic_string(i: usize, multi: bool, net: &NetworkConfig) -> (s: String)
    requires
        i < usize::MAX,
    ensures
        s@ == nic_text(i as int, multi, *net),
{
    let mut s = if multi {
        let mut l = text("  NIC ");
        push_decimal(&mut l, (i + 1) as u64);
        l.append(": ");
        l
    } else {
        text("  NIC: ")
    };
    s.append(net.model.as_str());
    s.append(" — ");
    match &net.backend {
        NetworkBackend::User => s.append("user/SLIRP (NAT)"),
        NetworkBackend::Passt => s.append("passt"),
        NetworkBackend::Bridge(name) => {
            s.append("bridge: ");
            s.append(name.as_str());
        },
        NetworkBackend::NoBackend => s.append("none"),
    }
    if let Some(mac) = &net.mac_address {
        s.append(" (MAC ");
        s.append(mac.as_str());
        s.append(")");
    }
    s
}

fn cpu_string(c: &ConfigSummary) -> (s: String)
    ensures
        s@ == cpu_text(c.cpu_cores, opt_view(c.cpu_model)),
{
    let mut cpu = String::new();
    push_decimal(&mut cpu, c.cpu_cores as u64);
    cpu.append(" cores");
    if let Some(model) = &c.cpu_model {
        cpu.append(" (");
        cpu.append(model.as_str());
        cpu.append(")");
    }
    cpu
}

fn arch_string(c: &ConfigSummary) -> (s: String)
    ensures
        s@ == c.architecture@ + " ("@ + c.command@ + ")"@,
{
    let mut arch = c.architecture.clone();
    arch.append(" (");
    arch.append(c.command.as_str());
    arch.append(")");
    arch
}

fn push_hardware(v: &mut Vec<ConfigLine>, c: &ConfigSummary)
    ensures
        lines_view(final(v)@) == lines_view(old(v)@) + hardware_lines(*c),
{
    let ghost start = lines_view(v@);
    push_line(v, ConfigLine::Heading(text("Hardware")));
    push_line(v, ConfigLine::Field(text("Architecture: "), arch_string(c)));
    push_line(v, ConfigLine::Field(text("CPU: "), cpu_string(c)));
    push_line(v, ConfigLine::Field(text("Memory: "), c.memory.clone()));
    let ghost four = lines_view(v@);
    if let Some(machine) = &c.machine {
        push_line(v, ConfigLine::Field(text("Machine: "), machine.clone()));
    }
    let ghost five = lines_view(v@);
    assert(five =~= four + match c.machine {
        Some(m) => seq![LineView::Field("Machine: "@, m@)],
        None => Seq::<LineView>::empty(),
    });
    push_line(v, ConfigLine::Field(text("Features: "), features_string(c)));
    assert(lines_view(v@) =~= start + hardware_lines(*c));
}

fn push_disks(v: &mut Vec<ConfigLine>, c: &ConfigSummary)
    ensures
        lines_view(final(v)@) == lines_view(old(v)@) + disk_lines(*c),
{
    let ghost start = lines_view(v@);
    push_line(v, ConfigLine::Blank);
    push_line(v, ConfigLine::Heading(text("Disks")));
    if c.disks.len() == 0 {
        push_line(v, ConfigLine::Muted(text("  (none)")));
    }
    let ghost disk_head = lines_view(v@);
    let ghost dv = c.disks@.map_values(|d: DiskSummary| LineView::Plain(disk_text(d)));
    let mut i: usize = 0;
    while i < c.disks.len()
        invariant
            i <= c.disks@.len(),
            dv == c.disks@.map_values(|d: DiskSummary| LineView::Plain(disk_text(d))),
            lines_view(v@) == disk_head + dv.take(i as int),
        decreases c.disks@.len() - i,
    {
        let line = disk_string(&c.disks[i]);
        push_line(v, ConfigLine::Plain(line));
        assert(dv.take(i + 1) =~= dv.take(i as int).push(dv[i as int]));
        i += 1;
    }
    assert(dv.take(c.disks@.len() as int) =~= dv);
    assert(lines_view(v@) =~= start + disk_lines(*c));
}

fn push_nic(v: &mut Vec<ConfigLine>, k: usize, multi: bool, net: &NetworkConfig)
    requires
        k < usize::MAX,
    ensures
        lines_view(final(v)@) == lines_view(old(v)@) + nic_block(k as int, multi, *net),
{
    let ghost before = lines_view(v@);
    push_line(v, ConfigLine::Plain(nic_string(k, multi, net)));
    let ghost pv = net.port_forwards@.map_values(|pf: PortForward| LineView::Forward(pf));
    let ghost start = lines_view(v@);
    let mut j: usize = 0;
    while j < net.port_forwards.len()
        invariant
            j <= net.port_forwards@.len(),
            pv == net.port_forwards@.map_values(|pf: PortForward| LineView::Forward(pf)),
            lines_view(v@) == start + pv.take(j as int),
        decreases net.port_forwards@.len() - j,
    {
        push_line(v, ConfigLine::Forward(net.port_forwards[j]));
        assert(pv.take(j + 1) =~= pv.take(j as int).push(pv[j as int]));
        j += 1;
    }
    assert(pv.take(net.port_forwards@.len() as int) =~= pv);
    assert(lines_view(v@) =~= before + nic_block(k as int, multi, *net));
}

fn push_network(v: &mut Vec<ConfigLine>, c: &ConfigSummary)
    ensures
        lines_view(final(v)@) == lines_view(old(v)@) + network_lines(*c),
{
    let ghost start = lines_view(v@);
    push_line(v, ConfigLine::Blank);
    push_line(v, ConfigLine::Heading(text("Network")));
    if c.networks.len() == 0 {
        push_line(v, ConfigLine::Muted(text("  (none)")));
    }
    let ghost net_head = lines_view(v@);
    let multi = c.networks.len() > 1;
    let ghost nets = c.networks@;
    let mut k: usize = 0;
    while k < c.networks.len()
        invariant
            k <= nets.len(),
            nets == c.networks@,
            multi == (nets.len() > 1),
            lines_view(v@) == net_head + nics_lines(nets.take(k as int), multi),
        decreases nets.len() - k,
    {
        push_nic(v, k, multi, &c.networks[k]);
        assert(nets.take(k + 1).drop_last() =~= nets.take(k as int));
        assert(lines_view(v@) =~= net_head + nics_lines(nets.take(k + 1), multi));
        k += 1;
    }
    assert(nets.take(nets.len() as int) =~= nets);
    assert(lines_view(v@) =~= start + network_lines(*c));
}

/// The summary's lines for a VM's configuration (see [`config_lines_spec`]).
pub fn config_lines(c: &ConfigSummary) -> (v: Vec<ConfigLine>)
    ensures
        lines_view(v@) == config_lines_spec(*c),
{
    let mut v: Vec<ConfigLine> = Vec::new();
    push_hardware(&mut v, c);
    push_disks(&mut v, c);
    push_network(&mut v, c);
    assert(lines_view(v@) =~= config_lines_spec(*c));
    v
}

} // verus!
