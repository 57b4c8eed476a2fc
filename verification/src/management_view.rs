//! What the management dialogs show: the numbered option rows, the dialog
//! titles and field values, and where each dialog stands.

use vstd::prelude::*;
use crate::chars::{decimal, push_decimal, str_eq};
use crate::management::{Area, MenuItem, centered_rect, clip, sat_sub};
use crate::wizard_types::opt_view;

verus! {

// ---------------------------------------------------------------------------
// Dialog placement
// ---------------------------------------------------------------------------

/// The smaller of two sizes.
pub open spec fn min_size(a: int, b: int) -> int {
    if a <= b { a } else { b }
}

/// A dialog's width (or height) in an area of `avail` cells: at most `max`,
/// and two cells clear of each edge.
pub open spec fn dialog_extent(max: u16, avail: u16) -> u16 {
    min_size(max as int, sat_sub(avail, 4)) as u16
}

/// Where a dialog of at most `max_width` by `max_height` cells stands in
/// `area`: two cells clear of each edge, centered.
pub fn dialog_area(max_width: u16, max_height: u16, area: Area) -> (r: Area)
    requires
        area.x + sat_sub(area.width, dialog_extent(max_width, area.width)) / 2 <= u16::MAX,
        area.y + sat_sub(area.height, dialog_extent(max_height, area.height)) / 2 <= u16::MAX,
    ensures
        r.x == area.x + sat_sub(area.width, dialog_extent(max_width, area.width)) / 2,
        r.y == area.y + sat_sub(area.height, dialog_extent(max_height, area.height)) / 2,
        r.width == clip(dialog_extent(max_width, area.width), r.x),
        r.height == clip(dialog_extent(max_height, area.height), r.y),
{
    let aw = area.width.saturating_sub(4);
    let ah = area.height.saturating_sub(4);
    let w: u16 = if aw < max_width { aw } else { max_width };
    let h: u16 = if ah < max_height { ah } else { max_height };
    centered_rect(w, h, area)
}

/// Height of the management menu for `n` items: six rows plus two per item.
pub open spec fn menu_height(n: nat) -> int {
    (6 + 2 * n) as int
}

/// Where the management menu stands: at most 50 cells wide, as tall as its
/// `item_count` items need, two cells clear of each edge, centered.
pub fn menu_dialog_area(item_count: usize, area: Area) -> (r: Area)
    requires
        6 + 2 * item_count <= usize::MAX,
        area.x + sat_sub(area.width, dialog_extent(50, area.width)) / 2 <= u16::MAX,
        area.y + sat_sub(area.height, min_size(menu_height(item_count as nat), sat_sub(area.height, 4)) as u16) / 2
            <= u16::MAX,
    ensures
        r.x == area.x + sat_sub(area.width, dialog_extent(50, area.width)) / 2,
        r.y == area.y + sat_sub(area.height, min_size(menu_height(item_count as nat), sat_sub(area.height, 4)) as u16) / 2,
        r.width == clip(dialog_extent(50, area.width), r.x),
        r.height == clip(min_size(menu_height(item_count as nat), sat_sub(area.height, 4)) as u16, r.y),
{
    let aw = area.width.saturating_sub(4);
    let w: u16 = if aw < 50 { aw } else { 50 };
    let wanted: usize = 6 + item_count * 2;
    let ah = area.height.saturating_sub(4);
    let h: u16 = if wanted < ah as usize { wanted as u16 } else { ah };
    centered_rect(w, h, area)
}

// ---------------------------------------------------------------------------
// Numbered option rows
// ---------------------------------------------------------------------------

/// One entry of a numbered option list: its title line, its description
/// line, and whether it is the current setting.
#[derive(Debug, Clone)]
pub struct OptionRow {
    pub title: String,
    pub detail: String,
    pub current: bool,
}

pub open spec fn row_view(r: OptionRow) -> (Seq<char>, Seq<char>, bool) {
    (r.title@, r.detail@, r.current)
}

/// The rows for option `i` (counting from 0) named `name`: "[i+1] name",
/// marked " *" when it is the current setting, over its indented
/// description.
pub open spec fn option_row(i: int, name: Seq<char>, desc: Seq<char>, current: Option<Seq<char>>) -> (
    Seq<char>,
    Seq<char>,
    bool,
) {
    let is_current = current == Some(name);
    (
        "["@ + decimal((i + 1) as nat) + "] "@ + name + (if is_current { " *"@ } else { ""@ }),
        "    "@ + desc,
        is_current,
    )
}

fn numbered(i: usize, name: &str) -> (t: String)
    requires
        i < usize::MAX,
    ensures
        t@ == "["@ + decimal((i + 1) as nat) + "] "@ + name@,
{
    let mut t = "[".to_owned();
    push_decimal(&mut t, (i + 1) as u64);
    t.append("] ");
    t.append(name);
    t
}

fn indented(desc: &str) -> (t: String)
    ensures
        t@ == "    "@ + desc@,
{
    let mut t = "    ".to_owned();
    t.append(desc);
    t
}

/// The rows of a numbered option list of (name, description) pairs, with
/// `current` the current setting if there is one.
pub fn option_rows(options: &[(String, String)], current: Option<&str>) -> (rows: Vec<OptionRow>)
    ensures
        rows@.len() == options@.len(),
        forall|i: int|
            0 <= i < rows@.len() ==> row_view(#[trigger] rows@[i]) == option_row(
                i,
                options@[i].0@,
                options@[i].1@,
                match current {
                    Some(c) => Some(c@),
                    None => None,
                },
            ),
{
    let ghost cur: Option<Seq<char>> = match current {
        Some(c) => Some(c@),
        None => None,
    };
    let mut rows: Vec<OptionRow> = Vec::new();
    let mut i: usize = 0;
    while i < options.len()
        invariant
            i <= options@.len(),
            rows@.len() == i,
            cur == match current {
                Some(c) => Some(c@),
                None => None,
            },
            forall|k: int|
                0 <= k < i ==> row_view(#[trigger] rows@[k]) == option_row(k, options@[k].0@, options@[k].1@, cur),
        decreases options@.len() - i,
    {
        let name = options[i].0.as_str();
        let is_current = match current {
            Some(c) => str_eq(c, name),
            None => false,
        };
        let mut title = numbered(i, name);
        if is_current {
            title.append(" *");
        } else {
            title.append("");
        }
        let detail = indented(options[i].1.as_str());
        rows.push(OptionRow { title, detail, current: is_current });
        i += 1;
    }
    rows
}

/// The rows of the management menu: "[i+1] name" over the indented
/// description of each item.
pub fn menu_rows(items: &[MenuItem]) -> (rows: Vec<OptionRow>)
    ensures
        rows@.len() == items@.len(),
        forall|i: int|
            0 <= i < rows@.len() ==> row_view(#[trigger] rows@[i]) == (
                "["@ + decimal((i + 1) as nat) + "] "@ + items@[i].name@,
                "    "@ + items@[i].description@,
                false,
            ),
{
    let mut rows: Vec<OptionRow> = Vec::new();
    let mut i: usize = 0;
    while i < items.len()
        invariant
            i <= items@.len(),
            rows@.len() == i,
            forall|k: int|
                0 <= k < i ==> row_view(#[trigger] rows@[k]) == (
                    "["@ + decimal((k + 1) as nat) + "] "@ + items@[k].name@,
                    "    "@ + items@[k].description@,
                    false,
                ),
        decreases items@.len() - i,
    {
        let title = numbered(i, items[i].name);
        let detail = indented(items[i].description);
        rows.push(OptionRow { title, detail, current: false });
        i += 1;
    }
    rows
}

/// The boot choices, in order.
pub open spec fn boot_items() -> Seq<(Seq<char>, Seq<char>)> {
    seq![
        ("Normal boot"@, "Start the VM normally"@),
        ("Install mode"@, "Boot from installation media"@),
        ("Boot with custom ISO"@, "Select an ISO file to boot"@),
        ("Boot with recovery DMG"@, "Select a DMG file as recovery image"@),
        ("Boot with floppy image"@, "Select a floppy image (.img, .ima) to boot"@),
    ]
}

fn pair(a: &str, b: &str) -> (p: (String, String))
    ensures
        p.0@ == a@,
        p.1@ == b@,
{
    (a.to_owned(), b.to_owned())
}

/// The boot choices as (name, description) pairs (see [`boot_items`]).
pub fn boot_options() -> (v: Vec<(String, String)>)
    ensures
        v@.len() == boot_items().len(),
        forall|i: int| 0 <= i < v@.len() ==> ((#[trigger] v@[i]).0@, v@[i].1@) == boot_items()[i],
{
    let v = vec![
        pair("Normal boot", "Start the VM normally"),
        pair("Install mode", "Boot from installation media"),
        pair("Boot with custom ISO", "Select an ISO file to boot"),
        pair("Boot with recovery DMG", "Select a DMG file as recovery image"),
        pair("Boot with floppy image", "Select a floppy image (.img, .ima) to boot"),
    ];
    v
}

// ---------------------------------------------------------------------------
// Titles and values
// ---------------------------------------------------------------------------

pub open spec fn or_default(v: Option<Seq<char>>, d: Seq<char>) -> Seq<char> {
    match v {
        Some(x) => x,
        None => d,
    }
}

fn current_title(prefix: &str, value: &str) -> (t: String)
    ensures
        t@ == prefix@ + value@ + ") "@,
{
    let mut t = prefix.to_owned();
    t.append(value);
    t.append(") ");
    t
}

/// The CPU model dialog's title; a VM without a CPU model shows "(default)".
pub fn cpu_model_title(cpu_model: &Option<String>) -> (t: String)
    ensures
        t@ == " CPU Model (current: "@ + or_default(opt_view(*cpu_model), "(default)"@) + ") "@,
{
    match cpu_model {
        Some(m) => current_title(" CPU Model (current: ", m.as_str()),
        None => current_title(" CPU Model (current: ", "(default)"),
    }
}

/// The machine type dialog's title; a VM without a machine type shows
/// "(default)".
pub fn machine_type_title(machine: &Option<String>) -> (t: String)
    ensures
        t@ == " Machine Type (current: "@ + or_default(opt_view(*machine), "(default)"@) + ") "@,
{
    match machine {
        Some(m) => current_title(" Machine Type (current: ", m.as_str()),
        None => current_title(" Machine Type (current: ", "(default)"),
    }
}

/// The display dialog's title.
pub fn display_title(current_display: &str) -> (t: String)
    ensures
        t@ == " Display Options (current: "@ + current_display@ + ") "@,
{
    current_title(" Display Options (current: ", current_display)
}

/// The management menu's title, for the selected VM's name (or "Unknown").
pub fn management_title(vm_name: Option<&str>) -> (t: String)
    ensures
        t@ == " "@ + (match vm_name {
            Some(n) => n@,
            None => "Unknown"@,
        }) + " - Management "@,
{
    let mut t = " ".to_owned();
    match vm_name {
        Some(n) => t.append(n),
        None => t.append("Unknown"),
    }
    t.append(" - Management ");
    t
}

/// The snapshot dialog's title: the number of snapshots, or that the VM's
/// disk does not support them.
pub fn snapshots_title(supported: bool, count: usize) -> (t: String)
    ensures
        t@ == if supported {
            " Snapshots ("@ + decimal(count as nat) + ") "@
        } else {
            " Snapshots (not supported) "@
        },
{
    if !supported {
        return " Snapshots (not supported) ".to_owned();
    }
    let mut t = " Snapshots (".to_owned();
    push_decimal(&mut t, count as u64);
    t.append(") ");
    t
}

/// The two lines of a snapshot entry: its name, then its date and size.
pub fn snapshot_lines(name: &str, date: &str, size: &str) -> (l: (String, String))
    ensures
        l.0@ == "  "@ + name@,
        l.1@ == "    "@ + date@ + " - "@ + size@,
{
    let mut a = "  ".to_owned();
    a.append(name);
    let mut b = "    ".to_owned();
    b.append(date);
    b.append(" - ");
    b.append(size);
    (a, b)
}

/// What the Edit System dialog reads from the selected VM.
pub struct SystemSettings {
    pub memory_mb: u32,
    pub cpu_cores: u32,
    pub cpu_model: Option<String>,
    pub machine: Option<String>,
}

/// The Edit System dialog's fields and their values: memory, CPU cores,
/// CPU model and machine type; "-" or "(default)" without a VM or value.
pub open spec fn system_fields_spec(s: Option<SystemSettings>) -> Seq<(Seq<char>, Seq<char>)> {
    match s {
        Some(c) => seq![
            ("Memory"@, decimal(c.memory_mb as nat) + " MB"@),
            ("CPU Cores"@, decimal(c.cpu_cores as nat)),
            ("CPU Model"@, or_default(opt_view(c.cpu_model), "(default)"@)),
            ("Machine Type"@, or_default(opt_view(c.machine), "(default)"@)),
        ],
        None => seq![
            ("Memory"@, "-"@),
            ("CPU Cores"@, "-"@),
            ("CPU Model"@, "(default)"@),
            ("Machine Type"@, "(default)"@),
        ],
    }
}

fn text_or(v: &Option<String>, d: &str) -> (t: String)
    ensures
        t@ == or_default(opt_view(*v), d@),
{
    match v {
        Some(x) => x.clone(),
        None => d.to_owned(),
    }
}

/// The Edit System dialog's fields (see [`system_fields_spec`]).
pub fn system_fields(s: Option<&SystemSettings>) -> (v: Vec<(String, String)>)
    ensures
        v@.len() == 4,
        forall|i: int|
            0 <= i < 4 ==> ((#[trigger] v@[i]).0@, v@[i].1@) == system_fields_spec(
                match s {
                    Some(c) => Some(*c),
                    None => None,
                },
            )[i],
{
    match s {
        Some(c) => {
            let mut mem = String::new();
            push_decimal(&mut mem, c.memory_mb as u64);
            mem.append(" MB");
            let mut cores = String::new();
            push_decimal(&mut cores, c.cpu_cores as u64);
            vec![
                ("Memory".to_owned(), mem),
                ("CPU Cores".to_owned(), cores),
                ("CPU Model".to_owned(), text_or(&c.cpu_model, "(default)")),
                ("Machine Type".to_owned(), text_or(&c.machine, "(default)")),
            ]
        },
        None => vec![
            pair("Memory", "-"),
            pair("CPU Cores", "-"),
            pair("CPU Model", "(default)"),
            pair("Machine Type", "(default)"),
        ],
    }
}

} // verus!
