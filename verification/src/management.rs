//! The management menu of a VM and the option lists of its submenus.

use vstd::prelude::*;
use crate::chars::{chars_of, is_whitespace, is_ws, str_eq};
use crate::seqs::{first_index, lemma_first_index};
use crate::vm::qemu_config::QemuEmulator;

verus! {

/// Actions that can be performed from the management menu
#[derive(Debug, Clone, Copy, PartialEq, Eq, Structural)]
pub enum MenuAction {
    StopVm,
    BootOptions,
    Snapshots,
    UsbPassthrough,
    PciPassthrough,
    DiskPassthrough,
    SharedFolders,
    NetworkSettings,
    MultiGpuPassthrough,
    SingleGpuPassthrough,
    ChangeDisplay,
    Toggle3dAccel,
    EditNotes,
    EditSystem,
    RenameVm,
    ResetVm,
    DeleteVm,
    EditRawConfig,
}

/// Menu item with name and description
#[derive(Debug, Clone)]
pub struct MenuItem {
    pub name: &'static str,
    pub description: &'static str,
    pub action: MenuAction,
}

/// What the menu depends on: the two passthrough settings and whether the
/// VM currently has 3D acceleration on.
#[derive(Debug, Clone, Copy)]
pub struct MenuFlags {
    pub multi_gpu_passthrough: bool,
    pub single_gpu_passthrough: bool,
    pub gl_acceleration: bool,
}

/// The menu's actions, in order: the general ones, the GPU passthrough
/// ones that are enabled, the display and note ones, renaming, stopping,
/// resetting and deleting the VM, and editing its raw configuration last.
pub open spec fn menu_actions(f: MenuFlags) -> Seq<MenuAction> {
    seq![
        MenuAction::BootOptions,
        MenuAction::Snapshots,
        MenuAction::UsbPassthrough,
        MenuAction::PciPassthrough,
        MenuAction::DiskPassthrough,
        MenuAction::SharedFolders,
        MenuAction::NetworkSettings,
    ] + (if f.multi_gpu_passthrough {
        seq![MenuAction::MultiGpuPassthrough]
    } else {
        Seq::empty()
    }) + (if f.single_gpu_passthrough {
        seq![MenuAction::SingleGpuPassthrough]
    } else {
        Seq::empty()
    }) + seq![
        MenuAction::ChangeDisplay,
        MenuAction::Toggle3dAccel,
        MenuAction::EditNotes,
        MenuAction::RenameVm,
        MenuAction::StopVm,
        MenuAction::ResetVm,
        MenuAction::DeleteVm,
        MenuAction::EditRawConfig,
    ]
}

/// The name a menu item shows for an action.
pub open spec fn action_name(a: MenuAction) -> Seq<char> {
    match a {
        MenuAction::BootOptions => "Boot Options"@,
        MenuAction::Snapshots => "Snapshots"@,
        MenuAction::UsbPassthrough => "USB Passthrough"@,
        MenuAction::PciPassthrough => "PCI Passthrough"@,
        MenuAction::DiskPassthrough => "Passthrough Disks"@,
        MenuAction::SharedFolders => "Shared Folders"@,
        MenuAction::NetworkSettings => "Network Settings"@,
        MenuAction::MultiGpuPassthrough => "Multi-GPU Passthrough"@,
        MenuAction::SingleGpuPassthrough => "Single GPU Passthrough"@,
        MenuAction::ChangeDisplay => "Change Display"@,
        MenuAction::Toggle3dAccel => "3D Acceleration (non-pass-through)"@,
        MenuAction::EditNotes => "Edit Notes"@,
        MenuAction::EditSystem => "Edit System"@,
        MenuAction::RenameVm => "Rename VM"@,
        MenuAction::EditRawConfig => "Edit Raw Configuration"@,
        MenuAction::StopVm => "Stop VM"@,
        MenuAction::ResetVm => "Reset VM (recreate disk)"@,
        MenuAction::DeleteVm => "Delete VM"@,
    }
}

/// The description a menu item shows for an action; the 3D acceleration
/// item says whether acceleration is currently on.
pub open spec fn action_description(a: MenuAction, gl_on: bool) -> Seq<char> {
    match a {
        MenuAction::BootOptions => "Normal, install, or custom ISO boot"@,
        MenuAction::Snapshots => "Create, restore, or delete snapshots"@,
        MenuAction::UsbPassthrough => "Pass USB devices to the VM"@,
        MenuAction::PciPassthrough => "Pass PCI devices to the VM"@,
        MenuAction::DiskPassthrough => "Attach whole physical disks (guest can destroy their contents)"@,
        MenuAction::SharedFolders => "Share host directories with the VM (9p)"@,
        MenuAction::NetworkSettings => "Configure networking backend and port forwarding"@,
        MenuAction::MultiGpuPassthrough => "Pass a secondary GPU to the VM with Looking Glass"@,
        MenuAction::SingleGpuPassthrough => "Configure passthrough for your primary GPU"@,
        MenuAction::ChangeDisplay => "GTK, SDL, SPICE-app, or VNC output"@,
        MenuAction::Toggle3dAccel => if gl_on { "Currently ON - toggle off"@ } else { "Currently OFF - toggle on"@ },
        MenuAction::EditNotes => "Add or edit personal notes for this VM"@,
        MenuAction::EditSystem => "Change memory, CPU, and machine settings"@,
        MenuAction::RenameVm => "Change the name shown for this VM"@,
        MenuAction::EditRawConfig => "Edit the launch.sh script directly"@,
        MenuAction::StopVm => "Shut down the running VM (ACPI poweroff)"@,
        MenuAction::ResetVm => "Restore VM to fresh state"@,
        MenuAction::DeleteVm => "Permanently remove this VM"@,
    }
}

fn menu_item(action: MenuAction, gl_on: bool) -> (item: MenuItem)
    ensures
        item.action == action,
        item.name@ == action_name(action),
        item.description@ == action_description(action, gl_on),
{
    match action {
        MenuAction::BootOptions => MenuItem { name: "Boot Options", description: "Normal, install, or custom ISO boot", action },
        MenuAction::Snapshots => MenuItem { name: "Snapshots", description: "Create, restore, or delete snapshots", action },
        MenuAction::UsbPassthrough => MenuItem { name: "USB Passthrough", description: "Pass USB devices to the VM", action },
        MenuAction::PciPassthrough => MenuItem { name: "PCI Passthrough", description: "Pass PCI devices to the VM", action },
        MenuAction::DiskPassthrough => MenuItem { name: "Passthrough Disks", description: "Attach whole physical disks (guest can destroy their contents)", action },
        MenuAction::SharedFolders => MenuItem { name: "Shared Folders", description: "Share host directories with the VM (9p)", action },
        MenuAction::NetworkSettings => MenuItem { name: "Network Settings", description: "Configure networking backend and port forwarding", action },
        MenuAction::MultiGpuPassthrough => MenuItem { name: "Multi-GPU Passthrough", description: "Pass a secondary GPU to the VM with Looking Glass", action },
        MenuAction::SingleGpuPassthrough => MenuItem { name: "Single GPU Passthrough", description: "Configure passthrough for your primary GPU", action },
        MenuAction::ChangeDisplay => MenuItem { name: "Change Display", description: "GTK, SDL, SPICE-app, or VNC output", action },
        MenuAction::Toggle3dAccel => MenuItem { name: "3D Acceleration (non-pass-through)", description: if gl_on { "Currently ON - toggle off" } else { "Currently OFF - toggle on" }, action },
        MenuAction::EditNotes => MenuItem { name: "Edit Notes", description: "Add or edit personal notes for this VM", action },
        MenuAction::EditSystem => MenuItem { name: "Edit System", description: "Change memory, CPU, and machine settings", action },
        MenuAction::RenameVm => MenuItem { name: "Rename VM", description: "Change the name shown for this VM", action },
        MenuAction::EditRawConfig => MenuItem { name: "Edit Raw Configuration", description: "Edit the launch.sh script directly", action },
        MenuAction::StopVm => MenuItem { name: "Stop VM", description: "Shut down the running VM (ACPI poweroff)", action },
        MenuAction::ResetVm => MenuItem { name: "Reset VM (recreate disk)", description: "Restore VM to fresh state", action },
        MenuAction::DeleteVm => MenuItem { name: "Delete VM", description: "Permanently remove this VM", action },
    }
}

/// Menu items for a VM: one per action of [`menu_actions`], each with its
/// name and description.
pub fn get_menu_items(flags: &MenuFlags) -> (items: Vec<MenuItem>)
    ensures
        items@.len() == menu_actions(*flags).len(),
        forall|i: int|
            0 <= i < items@.len() ==> (#[trigger] items@[i]).action == menu_actions(*flags)[i]
                && items@[i].name@ == action_name(items@[i].action) && items@[i].description@
                == action_description(items@[i].action, flags.gl_acceleration),
{
    let ghost acts = menu_actions(*flags);
    let gl = flags.gl_acceleration;
    let mut actions: Vec<MenuAction> = vec![
        MenuAction::BootOptions,
        MenuAction::Snapshots,
        MenuAction::UsbPassthrough,
        MenuAction::PciPassthrough,
        MenuAction::DiskPassthrough,
        MenuAction::SharedFolders,
        MenuAction::NetworkSettings,
    ];
    if flags.multi_gpu_passthrough {
        actions.push(MenuAction::MultiGpuPassthrough);
    }
    if flags.single_gpu_passthrough {
        actions.push(MenuAction::SingleGpuPassthrough);
    }
    actions.push(MenuAction::ChangeDisplay);
    actions.push(MenuAction::Toggle3dAccel);
    actions.push(MenuAction::EditNotes);
    actions.push(MenuAction::RenameVm);
    actions.push(MenuAction::StopVm);
    actions.push(MenuAction::ResetVm);
    actions.push(MenuAction::DeleteVm);
    actions.push(MenuAction::EditRawConfig);
    assert(actions@ =~= acts);
    let mut items: Vec<MenuItem> = Vec::new();
    let mut i: usize = 0;
    while i < actions.len()
        invariant
            actions@ == acts,
            acts == menu_actions(*flags),
            gl == flags.gl_acceleration,
            i <= actions@.len(),
            items@.len() == i,
            forall|k: int|
                0 <= k < i ==> (#[trigger] items@[k]).action == acts[k] && items@[k].name@
                    == action_name(items@[k].action) && items@[k].description@ == action_description(
                    items@[k].action,
                    gl,
                ),
        decreases actions@.len() - i,
    {
        items.push(menu_item(actions[i], gl));
        i += 1;
    }
    items
}

/// Number of menu rows to navigate: the menu of the selected VM, or 6 when
/// no VM is selected.
pub fn menu_item_count(selected: Option<&MenuFlags>) -> (n: usize)
    ensures
        n == match selected {
            Some(f) => menu_actions(*f).len(),
            None => 6,
        },
{
    match selected {
        Some(f) => get_menu_items(f).len(),
        None => 6,
    }
}

/// The menu always holds the fifteen general items plus one per enabled
/// GPU passthrough option, no action twice, and ends with stopping,
/// resetting and deleting the VM, then editing its raw configuration.
pub proof fn law_menu_shape(f: MenuFlags)
    ensures
        menu_actions(f).len() == 15 + (if f.multi_gpu_passthrough { 1int } else { 0 }) + (if f.single_gpu_passthrough { 1int } else { 0 }),
        ({
            let a = menu_actions(f);
            &&& a[a.len() - 4] == MenuAction::StopVm
            &&& a[a.len() - 3] == MenuAction::ResetVm
            &&& a[a.len() - 2] == MenuAction::DeleteVm
            &&& a[a.len() - 1] == MenuAction::EditRawConfig
        }),
        forall|i: int, j: int|
            0 <= i < j < menu_actions(f).len() ==> menu_actions(f)[i] != menu_actions(f)[j],
{
}

// ---------------------------------------------------------------------------
// Display options
// ---------------------------------------------------------------------------

/// Known display backends with their descriptions.
pub open spec fn display_table() -> Seq<(Seq<char>, Seq<char>)> {
    seq![
        ("gtk"@, "GTK - Default windowed display"@),
        ("sdl"@, "SDL - Better for 3D acceleration"@),
        ("spice-app"@, "SPICE - Remote desktop (needs virt-viewer)"@),
        ("vnc"@, "VNC - Network accessible display"@),
        ("none"@, "None - Headless, no graphical output"@),
    ]
}

/// Description of a display backend: the known one, else "<name> display".
pub open spec fn display_description(name: Seq<char>) -> Seq<char> {
    let i = first_index(display_table(), |e: (Seq<char>, Seq<char>)| e.0 == name);
    if i >= 0 {
        display_table()[i].1
    } else {
        name + " display"@
    }
}

fn describe_display(name: &String) -> (d: String)
    ensures
        d@ == display_description(name@),
{
    if str_eq(name.as_str(), "gtk") {
        proof {
            lemma_first_index(display_table(), |e: (Seq<char>, Seq<char>)| e.0 == name@, 0);
        }
        "GTK - Default windowed display".to_owned()
    } else if str_eq(name.as_str(), "sdl") {
        proof {
            assert(display_table()[0].0 != name@);
            lemma_first_index(display_table(), |e: (Seq<char>, Seq<char>)| e.0 == name@, 1);
        }
        "SDL - Better for 3D acceleration".to_owned()
    } else if str_eq(name.as_str(), "spice-app") {
        proof {
            assert(display_table()[0].0 != name@);
            assert(display_table()[1].0 != name@);
            lemma_first_index(display_table(), |e: (Seq<char>, Seq<char>)| e.0 == name@, 2);
        }
        "SPICE - Remote desktop (needs virt-viewer)".to_owned()
    } else if str_eq(name.as_str(), "vnc") {
        proof {
            assert(display_table()[0].0 != name@);
            assert(display_table()[1].0 != name@);
            assert(display_table()[2].0 != name@);
            lemma_first_index(display_table(), |e: (Seq<char>, Seq<char>)| e.0 == name@, 3);
        }
        "VNC - Network accessible display".to_owned()
    } else if str_eq(name.as_str(), "none") {
        proof {
            assert(display_table()[0].0 != name@);
            assert(display_table()[1].0 != name@);
            assert(display_table()[2].0 != name@);
            assert(display_table()[3].0 != name@);
            lemma_first_index(display_table(), |e: (Seq<char>, Seq<char>)| e.0 == name@, 4);
        }
        "None - Headless, no graphical output".to_owned()
    } else {
        proof {
            assert(display_table()[0].0 != name@);
            assert(display_table()[1].0 != name@);
            assert(display_table()[2].0 != name@);
            assert(display_table()[3].0 != name@);
            assert(display_table()[4].0 != name@);
            lemma_first_index(display_table(), |e: (Seq<char>, Seq<char>)| e.0 == name@, 5);
        }
        let mut d = name.clone();
        d.append(" display");
        d
    }
}

pub open spec fn options_view(v: Seq<(String, String)>) -> Seq<(Seq<char>, Seq<char>)> {
    v.map_values(|p: (String, String)| (p.0@, p.1@))
}

/// Display options for the display backends the emulator supports, in the
/// order detected: each backend with its description.
pub fn get_display_options(detected: &[String]) -> (opts: Vec<(String, String)>)
    ensures
        opts@.len() == detected@.len(),
        forall|i: int|
            0 <= i < detected@.len() ==> #[trigger] options_view(opts@)[i] == (
                detected@[i]@,
                display_description(detected@[i]@),
            ),
{
    let mut opts: Vec<(String, String)> = Vec::new();
    let mut i: usize = 0;
    while i < detected.len()
        invariant
            i <= detected@.len(),
            opts@.len() == i,
            forall|k: int|
                0 <= k < i ==> #[trigger] options_view(opts@)[k] == (
                    detected@[k]@,
                    display_description(detected@[k]@),
                ),
        decreases detected@.len() - i,
    {
        let name = detected[i].clone();
        let desc = describe_display(&detected[i]);
        let ghost prev = opts@;
        opts.push((name, desc));
        assert(options_view(opts@) =~= options_view(prev).push((detected@[i as int]@, display_description(detected@[i as int]@))));
        i += 1;
    }
    opts
}

// ---------------------------------------------------------------------------
// CPU model and machine type choices
// ---------------------------------------------------------------------------

/// Curated CPU model choices, per emulator architecture.
pub open spec fn cpu_model_table(e: QemuEmulator) -> Seq<(Seq<char>, Seq<char>)> {
    match e {
        QemuEmulator::X86_64 | QemuEmulator::I386 => seq![
            ("host"@, "Host CPU passthrough - best performance, requires KVM"@),
            ("max"@, "All features the accelerator supports"@),
            ("qemu64"@, "Generic 64-bit - most portable under TCG"@),
            ("kvm64"@, "Generic KVM-optimized 64-bit"@),
            ("Skylake-Client"@, "Intel Skylake-class features"@),
            ("Broadwell"@, "Intel Broadwell-class features"@),
            ("Haswell"@, "Intel Haswell-class features"@),
            ("IvyBridge"@, "Intel Ivy Bridge-class features"@),
            ("SandyBridge"@, "Intel Sandy Bridge-class features"@),
            ("Nehalem"@, "Intel Nehalem-class features"@),
            ("core2duo"@, "Older Core 2 Duo-class features"@),
        ],
        QemuEmulator::Arm | QemuEmulator::Aarch64 => seq![
            ("host"@, "Host CPU passthrough - best performance, requires KVM"@),
            ("max"@, "All features the accelerator supports"@),
            ("cortex-a72"@, "ARM Cortex-A72"@),
            ("cortex-a57"@, "ARM Cortex-A57"@),
            ("cortex-a53"@, "ARM Cortex-A53"@),
            ("cortex-a15"@, "ARM Cortex-A15"@),
        ],
        QemuEmulator::Ppc => seq![
            ("host"@, "Host CPU passthrough - best performance, requires KVM"@),
            ("max"@, "All features the accelerator supports"@),
            ("POWER9"@, "IBM POWER9"@),
            ("POWER8"@, "IBM POWER8"@),
            ("G4"@, "PowerPC G4 (Motorola 74xx)"@),
            ("750"@, "PowerPC 750 (G3)"@),
        ],
        QemuEmulator::M68k => seq![
            ("m68040"@, "Motorola 68040"@),
            ("m5206"@, "ColdFire m5206"@),
            ("any"@, "Any supported model"@),
        ],
        QemuEmulator::Other(_) => seq![
            ("host"@, "Host CPU passthrough - best performance, requires KVM"@),
            ("max"@, "All features the accelerator supports"@),
        ],
    }
}

fn push_option(v: &mut Vec<(String, String)>, name: &str, desc: &str)
    ensures
        options_view(final(v)@) == options_view(old(v)@).push((name@, desc@)),
{
    v.push((name.to_owned(), desc.to_owned()));
    assert(options_view(v@) =~= options_view(old(v)@).push((name@, desc@)));
}

fn cpu_model_choices(e: &QemuEmulator) -> (v: Vec<(String, String)>)
    ensures
        options_view(v@) == cpu_model_table(*e),
{
    let mut v: Vec<(String, String)> = Vec::new();
    match e {
        QemuEmulator::X86_64 | QemuEmulator::I386 => {
            push_option(&mut v, "host", "Host CPU passthrough - best performance, requires KVM");
            push_option(&mut v, "max", "All features the accelerator supports");
            push_option(&mut v, "qemu64", "Generic 64-bit - most portable under TCG");
            push_option(&mut v, "kvm64", "Generic KVM-optimized 64-bit");
            push_option(&mut v, "Skylake-Client", "Intel Skylake-class features");
            push_option(&mut v, "Broadwell", "Intel Broadwell-class features");
            push_option(&mut v, "Haswell", "Intel Haswell-class features");
            push_option(&mut v, "IvyBridge", "Intel Ivy Bridge-class features");
            push_option(&mut v, "SandyBridge", "Intel Sandy Bridge-class features");
            push_option(&mut v, "Nehalem", "Intel Nehalem-class features");
            push_option(&mut v, "core2duo", "Older Core 2 Duo-class features");
        },
        QemuEmulator::Arm | QemuEmulator::Aarch64 => {
            push_option(&mut v, "host", "Host CPU passthrough - best performance, requires KVM");
            push_option(&mut v, "max", "All features the accelerator supports");
            push_option(&mut v, "cortex-a72", "ARM Cortex-A72");
            push_option(&mut v, "cortex-a57", "ARM Cortex-A57");
            push_option(&mut v, "cortex-a53", "ARM Cortex-A53");
            push_option(&mut v, "cortex-a15", "ARM Cortex-A15");
        },
        QemuEmulator::Ppc => {
            push_option(&mut v, "host", "Host CPU passthrough - best performance, requires KVM");
            push_option(&mut v, "max", "All features the accelerator supports");
            push_option(&mut v, "POWER9", "IBM POWER9");
            push_option(&mut v, "POWER8", "IBM POWER8");
            push_option(&mut v, "G4", "PowerPC G4 (Motorola 74xx)");
            push_option(&mut v, "750", "PowerPC 750 (G3)");
        },
        QemuEmulator::M68k => {
            push_option(&mut v, "m68040", "Motorola 68040");
            push_option(&mut v, "m5206", "ColdFire m5206");
            push_option(&mut v, "any", "Any supported model");
        },
        QemuEmulator::Other(_) => {
            push_option(&mut v, "host", "Host CPU passthrough - best performance, requires KVM");
            push_option(&mut v, "max", "All features the accelerator supports");
        },
    }
    assert(options_view(v@) =~= cpu_model_table(*e));
    v
}

/// Curated machine type choices, per emulator architecture.
pub open spec fn machine_type_table(e: QemuEmulator) -> Seq<(Seq<char>, Seq<char>)> {
    match e {
        QemuEmulator::X86_64 | QemuEmulator::I386 => seq![
            ("q35"@, "Modern PCIe chipset (recommended)"@),
            ("pc"@, "Legacy i440FX chipset"@),
            ("microvm"@, "Minimal machine for lightweight guests"@),
            ("isapc"@, "Legacy ISA-only machine"@),
        ],
        QemuEmulator::Arm | QemuEmulator::Aarch64 => seq![
            ("virt"@, "Generic virtual ARM platform (recommended)"@),
            ("raspi3b"@, "Raspberry Pi 3B"@),
            ("raspi4b"@, "Raspberry Pi 4B"@),
            ("versatilepb"@, "ARM Versatile/PB"@),
        ],
        QemuEmulator::Ppc => seq![
            ("pseries"@, "IBM pSeries (recommended)"@),
            ("mac99"@, "Power Mac G4"@),
            ("g3beige"@, "Power Mac G3 (Beige)"@),
            ("40p"@, "IBM RS/6000 40p"@),
        ],
        QemuEmulator::M68k => seq![
            ("q800"@, "Quadra 800 (Mac)"@),
            ("mcf5208evb"@, "ColdFire MCF5208EVB"@),
            ("next-cube"@, "NeXT Cube"@),
        ],
        QemuEmulator::Other(_) => seq![
            ("pc"@, "Generic PC machine"@),
        ],
    }
}

fn machine_type_choices(e: &QemuEmulator) -> (v: Vec<(String, String)>)
    ensures
        options_view(v@) == machine_type_table(*e),
{
    let mut v: Vec<(String, String)> = Vec::new();
    match e {
        QemuEmulator::X86_64 | QemuEmulator::I386 => {
            push_option(&mut v, "q35", "Modern PCIe chipset (recommended)");
            push_option(&mut v, "pc", "Legacy i440FX chipset");
            push_option(&mut v, "microvm", "Minimal machine for lightweight guests");
            push_option(&mut v, "isapc", "Legacy ISA-only machine");
        },
        QemuEmulator::Arm | QemuEmulator::Aarch64 => {
            push_option(&mut v, "virt", "Generic virtual ARM platform (recommended)");
            push_option(&mut v, "raspi3b", "Raspberry Pi 3B");
            push_option(&mut v, "raspi4b", "Raspberry Pi 4B");
            push_option(&mut v, "versatilepb", "ARM Versatile/PB");
        },
        QemuEmulator::Ppc => {
            push_option(&mut v, "pseries", "IBM pSeries (recommended)");
            push_option(&mut v, "mac99", "Power Mac G4");
            push_option(&mut v, "g3beige", "Power Mac G3 (Beige)");
            push_option(&mut v, "40p", "IBM RS/6000 40p");
        },
        QemuEmulator::M68k => {
            push_option(&mut v, "q800", "Quadra 800 (Mac)");
            push_option(&mut v, "mcf5208evb", "ColdFire MCF5208EVB");
            push_option(&mut v, "next-cube", "NeXT Cube");
        },
        QemuEmulator::Other(_) => {
            push_option(&mut v, "pc", "Generic PC machine");
        },
    }
    assert(options_view(v@) =~= machine_type_table(*e));
    v
}

/// CPU model choices for the selected VM's architecture (x86_64 when no
/// VM is selected).
pub fn get_cpu_model_options(emulator: Option<&QemuEmulator>) -> (v: Vec<(String, String)>)
    ensures
        options_view(v@) == cpu_model_table(
            match emulator {
                Some(e) => *e,
                None => QemuEmulator::X86_64,
            },
        ),
{
    match emulator {
        Some(e) => cpu_model_choices(e),
        None => cpu_model_choices(&QemuEmulator::X86_64),
    }
}

/// Machine type choices for the selected VM's architecture (x86_64 when no
/// VM is selected).
pub fn get_machine_type_options(emulator: Option<&QemuEmulator>) -> (v: Vec<(String, String)>)
    ensures
        options_view(v@) == machine_type_table(
            match emulator {
                Some(e) => *e,
                None => QemuEmulator::X86_64,
            },
        ),
{
    match emulator {
        Some(e) => machine_type_choices(e),
        None => machine_type_choices(&QemuEmulator::X86_64),
    }
}

/// The 32- and 64-bit ARM emulators.
pub open spec fn is_arm_emulator(e: QemuEmulator) -> bool {
    e is Arm || e is Aarch64
}

/// The 64- and 32-bit x86 emulators.
pub open spec fn is_x86_emulator(e: QemuEmulator) -> bool {
    e is X86_64 || e is I386
}

/// The CPU models that every accelerator understands whatever the
/// architecture: the host's own CPU and the accelerator's maximum.
pub open spec fn is_generic_cpu(name: Seq<char>) -> bool {
    name == "host"@ || name == "max"@
}

proof fn lemma_not_cortex(s: Seq<char>)
    requires
        s.len() < 7 || s[0] != 'c' || s[3] != 't',
    ensures
        !"cortex-"@.is_prefix_of(s),
{
    reveal_strlit("cortex-");
    if "cortex-"@.is_prefix_of(s) {
        assert(s.subrange(0, 7)[0] == s[0]);
        assert(s.subrange(0, 7)[3] == s[3]);
    }
}

proof fn lemma_cortex(s: Seq<char>)
    requires
        s.len() >= 7,
        s.subrange(0, 7) =~= "cortex-"@,
    ensures
        "cortex-"@.is_prefix_of(s),
{
}

/// CPU models on offer fit the emulator's architecture: emulators of one
/// architecture get one list; the ARM list holds, besides the generic
/// `host` and `max`, only Cortex cores, the x86 list no Cortex core, so no
/// x86 model is ever offered for an ARM emulator.
pub proof fn law_cpu_models_fit_the_architecture(e: QemuEmulator, f: QemuEmulator)
    ensures
        is_arm_emulator(e) && is_arm_emulator(f) ==> cpu_model_table(e) == cpu_model_table(f),
        is_x86_emulator(e) && is_x86_emulator(f) ==> cpu_model_table(e) == cpu_model_table(f),
        is_arm_emulator(e) ==> forall|i: int|
            0 <= i < cpu_model_table(e).len() ==> is_generic_cpu(#[trigger] cpu_model_table(e)[i].0)
                || "cortex-"@.is_prefix_of(cpu_model_table(e)[i].0),
        is_x86_emulator(e) ==> forall|i: int|
            0 <= i < cpu_model_table(e).len() ==> !"cortex-"@.is_prefix_of(#[trigger] cpu_model_table(e)[i].0),
        is_arm_emulator(e) && is_x86_emulator(f) ==> forall|i: int, j: int|
            0 <= i < cpu_model_table(e).len() && 0 <= j < cpu_model_table(f).len() && !is_generic_cpu(
                #[trigger] cpu_model_table(e)[i].0,
            ) ==> cpu_model_table(e)[i].0 != #[trigger] cpu_model_table(f)[j].0,
{
    reveal_strlit("cortex-");
    reveal_strlit("cortex-a72");
    reveal_strlit("cortex-a57");
    reveal_strlit("cortex-a53");
    reveal_strlit("cortex-a15");
    reveal_strlit("host");
    reveal_strlit("max");
    reveal_strlit("qemu64");
    reveal_strlit("kvm64");
    reveal_strlit("Skylake-Client");
    reveal_strlit("Broadwell");
    reveal_strlit("Haswell");
    reveal_strlit("IvyBridge");
    reveal_strlit("SandyBridge");
    reveal_strlit("Nehalem");
    reveal_strlit("core2duo");
    let arm = cpu_model_table(QemuEmulator::Aarch64);
    let x86 = cpu_model_table(QemuEmulator::X86_64);
    lemma_cortex("cortex-a72"@);
    lemma_cortex("cortex-a57"@);
    lemma_cortex("cortex-a53"@);
    lemma_cortex("cortex-a15"@);
    lemma_not_cortex("host"@);
    lemma_not_cortex("max"@);
    lemma_not_cortex("qemu64"@);
    lemma_not_cortex("kvm64"@);
    lemma_not_cortex("Skylake-Client"@);
    lemma_not_cortex("Broadwell"@);
    lemma_not_cortex("Haswell"@);
    lemma_not_cortex("IvyBridge"@);
    lemma_not_cortex("SandyBridge"@);
    lemma_not_cortex("Nehalem"@);
    lemma_not_cortex("core2duo"@);
    assert forall|i: int| 0 <= i < arm.len() implies is_generic_cpu(#[trigger] arm[i].0)
        || "cortex-"@.is_prefix_of(arm[i].0) by {
    }
    assert forall|i: int| 0 <= i < x86.len() implies !"cortex-"@.is_prefix_of(#[trigger] x86[i].0) by {
    }
    assert forall|i: int, j: int|
        0 <= i < arm.len() && 0 <= j < x86.len() && !is_generic_cpu(#[trigger] arm[i].0) implies arm[i].0
        != #[trigger] x86[j].0 by {
        assert("cortex-"@.is_prefix_of(arm[i].0));
        assert(!"cortex-"@.is_prefix_of(x86[j].0));
    }
}

/// Machine types on offer fit the emulator's architecture: emulators of
/// one architecture get one list, and no x86 machine is ever offered for an
/// ARM emulator, nor an ARM board for an x86 one.
pub proof fn law_machine_types_fit_the_architecture(e: QemuEmulator, f: QemuEmulator)
    ensures
        is_arm_emulator(e) && is_arm_emulator(f) ==> machine_type_table(e) == machine_type_table(f),
        is_x86_emulator(e) && is_x86_emulator(f) ==> machine_type_table(e) == machine_type_table(f),
        is_arm_emulator(e) && is_x86_emulator(f) ==> forall|i: int, j: int|
            0 <= i < machine_type_table(e).len() && 0 <= j < machine_type_table(f).len() ==> (
            #[trigger] machine_type_table(e)[i]).0 != (#[trigger] machine_type_table(f)[j]).0,
{
    reveal_strlit("virt");
    reveal_strlit("raspi3b");
    reveal_strlit("raspi4b");
    reveal_strlit("versatilepb");
    reveal_strlit("q35");
    reveal_strlit("pc");
    reveal_strlit("microvm");
    reveal_strlit("isapc");
    let arm = machine_type_table(QemuEmulator::Aarch64);
    let x86 = machine_type_table(QemuEmulator::X86_64);
    assert forall|i: int, j: int| 0 <= i < arm.len() && 0 <= j < x86.len() implies (#[trigger] arm[i]).0 != (
    #[trigger] x86[j]).0 by {
        assert(arm[i].0.len() != x86[j].0.len() || arm[i].0[0] != x86[j].0[0]);
    }
}

// ---------------------------------------------------------------------------
// Current display of a launch script
// ---------------------------------------------------------------------------

/// First position at or after `i` where `m` occurs in `s`, or -1.
pub open spec fn find_from(s: Seq<char>, m: Seq<char>, i: int) -> int
    decreases s.len() + 1 - i,
{
    if i < 0 || i + m.len() > s.len() {
        -1
    } else if s.subrange(i, i + m.len()) == m {
        i
    } else {
        find_from(s, m, i + 1)
    }
}

/// Characters that end a display value: whitespace, a comma or a backslash.
pub open spec fn ends_display_value(c: char) -> bool {
    is_ws(c) || c == ',' || c == '\\'
}

/// The display a launch script selects: the value after the first
/// `-display `, up to the first whitespace, comma or backslash; "gtk" when
/// the script has no `-display ` option.
pub open spec fn script_display(script: Seq<char>) -> Seq<char> {
    let at = find_from(script, "-display "@, 0);
    if at < 0 {
        "gtk"@
    } else {
        let rest = script.skip(at + 9);
        let end = first_index(rest, |c: char| ends_display_value(c));
        if end < 0 {
            rest
        } else {
            rest.take(end)
        }
    }
}

fn matches_at(s: &Vec<char>, m: &Vec<char>, i: usize) -> (b: bool)
    requires
        i + m@.len() <= s@.len(),
    ensures
        b == (s@.subrange(i as int, i + m@.len()) == m@),
{
    let n = s.len();
    let mut j: usize = 0;
    while j < m.len()
        invariant
            n == s@.len(),
            i + m@.len() <= s@.len(),
            j <= m@.len(),
            forall|q: int| 0 <= q < j ==> s@[i + q] == m@[q],
        decreases m@.len() - j,
    {
        if s[i + j] != m[j] {
            assert(s@.subrange(i as int, i + m@.len())[j as int] != m@[j as int]);
            return false;
        }
        j += 1;
    }
    assert(s@.subrange(i as int, i + m@.len()) =~= m@);
    true
}

proof fn lemma_find_from_skip(s: Seq<char>, m: Seq<char>, i: int, k: int)
    requires
        0 <= i <= k,
        forall|p: int| i <= p < k ==> !(p + m.len() <= s.len() && #[trigger] s.subrange(p, p + m.len()) == m),
    ensures
        find_from(s, m, i) == find_from(s, m, k),
    decreases k - i,
{
    if i < k {
        lemma_find_from_skip(s, m, i + 1, k);
    }
}

fn find_marker(s: &Vec<char>, m: &Vec<char>) -> (r: Option<usize>)
    requires
        m@.len() > 0,
    ensures
        match r {
            Some(i) => i + m@.len() <= s@.len() && i as int == find_from(s@, m@, 0),
            None => find_from(s@, m@, 0) == -1,
        },
{
    let n = s.len();
    let ml = m.len();
    let mut i: usize = 0;
    while ml <= n && i <= n - ml
        invariant
            n == s@.len(),
            ml == m@.len(),
            ml > 0,
            forall|p: int| 0 <= p < i ==> !(p + m@.len() <= s@.len() && #[trigger] s@.subrange(p, p + m@.len()) == m@),
        decreases n + 1 - i,
    {
        if matches_at(s, m, i) {
            proof {
                lemma_find_from_skip(s@, m@, 0, i as int);
            }
            return Some(i);
        }
        i += 1;
    }
    proof {
        lemma_find_from_skip(s@, m@, 0, i as int);
    }
    None
}

/// Extract the display setting from a launch script (see [`script_display`]).
pub fn extract_display_from_script(script: &str) -> (d: String)
    ensures
        d@ == script_display(script@),
{
    let s = chars_of(script);
    let marker = chars_of("-display ");
    proof {
        reveal_strlit("-display ");
    }
    let ghost sv = s@;
    assert(marker@.len() == 9);
    let i = match find_marker(&s, &marker) {
        Some(i) => i,
        None => return "gtk".to_owned(),
    };
    let n = s.len();
    assert(i + 9 <= n);
    let start = i + 9;
    let ghost rest = sv.skip(start as int);
    let ghost p = |c: char| ends_display_value(c);
    let mut out = String::new();
    let mut k: usize = start;
    while k < s.len() && !(is_whitespace(s[k]) || s[k] == ',' || s[k] == '\\')
        invariant
            sv == s@,
            start <= k <= sv.len(),
            rest == sv.skip(start as int),
            p == (|c: char| ends_display_value(c)),
            out@ == sv.subrange(start as int, k as int),
            forall|q: int| 0 <= q < k - start ==> !p(#[trigger] rest[q]),
        decreases sv.len() - k,
    {
        crate::chars::push_char(&mut out, s[k]);
        assert(sv.subrange(start as int, k + 1) =~= sv.subrange(start as int, k as int).push(sv[k as int]));
        k += 1;
    }
    proof {
        lemma_first_index(rest, p, k - start);
        if k < sv.len() {
            assert(out@ =~= rest.take(k - start));
        } else {
            assert(out@ =~= rest);
        }
    }
    out
}

// ---------------------------------------------------------------------------
// Dialog placement
// ---------------------------------------------------------------------------

/// A rectangle of terminal cells.
#[derive(Debug, Clone, Copy, PartialEq, Eq, Structural)]
pub struct Area {
    pub x: u16,
    pub y: u16,
    pub width: u16,
    pub height: u16,
}

pub open spec fn clip(len: u16, start: u16) -> u16 {
    if len as int <= u16::MAX - start {
        len
    } else {
        (u16::MAX - start) as u16
    }
}

/// `ratatui::layout::Rect::new`: the rectangle at (x, y), its width and
/// height cut so that it ends within the u16 coordinate range.
#[verifier::external_body]
fn rect_new(x: u16, y: u16, width: u16, height: u16) -> (r: Area)
    ensures
        r == (Area { x, y, width: clip(width, x), height: clip(height, y) }),
{
    let r = ratatui::layout::Rect::new(x, y, width, height);
    Area { x: r.x, y: r.y, width: r.width, height: r.height }
}

pub open spec fn sat_sub(a: u16, b: u16) -> int {
    if a >= b {
        a - b
    } else {
        0
    }
}

/// A `width` x `height` dialog centered in `area`.
pub fn centered_rect(width: u16, height: u16, area: Area) -> (r: Area)
    requires
        area.x + sat_sub(area.width, width) / 2 <= u16::MAX,
        area.y + sat_sub(area.height, height) / 2 <= u16::MAX,
    ensures
        r.x == area.x + sat_sub(area.width, width) / 2,
        r.y == area.y + sat_sub(area.height, height) / 2,
        r.width == clip(width, r.x),
        r.height == clip(height, r.y),
{
    let x = area.x + (area.width.saturating_sub(width)) / 2;
    let y = area.y + (area.height.saturating_sub(height)) / 2;
    rect_new(x, y, width, height)
}

/// A dialog that fits in its area lies within it, with the left margin at
/// most one cell narrower than the right one (and likewise top and bottom).
pub proof fn law_centered_dialog_fits(width: u16, height: u16, area: Area, r: Area)
    requires
        width <= area.width,
        height <= area.height,
        area.x + area.width <= u16::MAX,
        area.y + area.height <= u16::MAX,
        r.x == area.x + sat_sub(area.width, width) / 2,
        r.y == area.y + sat_sub(area.height, height) / 2,
        r.width == clip(width, r.x),
        r.height == clip(height, r.y),
    ensures
        area.x <= r.x && r.x + r.width <= area.x + area.width,
        area.y <= r.y && r.y + r.height <= area.y + area.height,
        r.width == width && r.height == height,
        (r.x - area.x) <= (area.x + area.width) - (r.x + r.width) <= (r.x - area.x) + 1,
        (r.y - area.y) <= (area.y + area.height) - (r.y + r.height) <= (r.y - area.y) + 1,
{
}

} // verus!
