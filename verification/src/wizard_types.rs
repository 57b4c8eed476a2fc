//! Wizard and import state types: the state of the VM creation and import
//! wizards, the network editors, and the small choice types they cycle through.

use vstd::prelude::*;
use std::path::PathBuf;
use crate::chars::{has_substring, str_contains, str_eq, str_lowercase, to_lowercase};
use crate::metadata::QemuProfile;
use crate::vnet::{VNetKind, VirtualNetwork};
use crate::seqs::{equal_to, first_index, lemma_first_index, lemma_first_index_props};
use crate::vm::qemu_config::{NetworkBackend, NetworkConfig, PortForward, PortProtocol};

verus! {

// ---------------------------------------------------------------------------
// Group choice
// ---------------------------------------------------------------------------

/// Which group a wizard-created or imported VM should join.
///
/// `Default` defers to the VM's OS-category default group. `Existing` and
/// `New` are an explicit override.
#[derive(Debug, Clone, PartialEq, Eq, Default)]
pub enum GroupChoice {
    #[default]
    Default,
    Existing(String),
    New(String),
}

/// Abstract value of a [`GroupChoice`].
pub enum GroupChoiceView {
    Default,
    Existing(Seq<char>),
    New(Seq<char>),
}

impl View for GroupChoice {
    type V = GroupChoiceView;

    open spec fn view(&self) -> GroupChoiceView {
        match self {
            GroupChoice::Default => GroupChoiceView::Default,
            GroupChoice::Existing(n) => GroupChoiceView::Existing(n@),
            GroupChoice::New(n) => GroupChoiceView::New(n@),
        }
    }
}

pub open spec fn names_view(s: Seq<String>) -> Seq<Seq<char>> {
    s.map_values(|g: String| g@)
}

/// Position of `name` among `groups`, or -1.
pub open spec fn name_position(groups: Seq<Seq<char>>, name: Seq<char>) -> int {
    first_index(groups, equal_to(name))
}

/// Cycling forward: Default (or a new name) -> each existing group in order -> Default.
pub open spec fn next_choice(c: GroupChoiceView, groups: Seq<Seq<char>>) -> GroupChoiceView {
    match c {
        GroupChoiceView::Existing(name) => {
            let i = name_position(groups, name);
            if i >= 0 && i + 1 < groups.len() {
                GroupChoiceView::Existing(groups[i + 1])
            } else {
                GroupChoiceView::Default
            }
        },
        _ => if groups.len() > 0 {
            GroupChoiceView::Existing(groups[0])
        } else {
            GroupChoiceView::Default
        },
    }
}

/// Cycling backward, the mirror of [`next_choice`].
pub open spec fn prev_choice(c: GroupChoiceView, groups: Seq<Seq<char>>) -> GroupChoiceView {
    match c {
        GroupChoiceView::Existing(name) => {
            let i = name_position(groups, name);
            if i > 0 {
                GroupChoiceView::Existing(groups[i - 1])
            } else {
                GroupChoiceView::Default
            }
        },
        _ => if groups.len() > 0 {
            GroupChoiceView::Existing(groups[groups.len() - 1])
        } else {
            GroupChoiceView::Default
        },
    }
}

fn find_name(groups: &[String], name: &String) -> (r: Option<usize>)
    ensures
        match r {
            Some(i) => i < groups@.len() && i as int == name_position(names_view(groups@), name@),
            None => name_position(names_view(groups@), name@) == -1,
        },
{
    let ghost gv = names_view(groups@);
    let ghost p = equal_to(name@);
    let mut i: usize = 0;
    while i < groups.len()
        invariant
            gv == names_view(groups@),
            p == equal_to(name@),
            i <= groups@.len(),
            forall|k: int| 0 <= k < i ==> !p(#[trigger] gv[k]),
        decreases groups@.len() - i,
    {
        if groups[i] == *name {
            proof {
                lemma_first_index(gv, p, i as int);
            }
            return Some(i);
        }
        i += 1;
    }
    proof {
        lemma_first_index(gv, p, i as int);
    }
    None
}

impl GroupChoice {
    /// Human-readable label for display.
    pub fn label(&self) -> (s: String)
        ensures
            s@ == match self@ {
                GroupChoiceView::Default => "Default (OS category)"@,
                GroupChoiceView::Existing(n) => n,
                GroupChoiceView::New(n) => n,
            },
    {
        match self {
            GroupChoice::Default => "Default (OS category)".to_owned(),
            GroupChoice::Existing(name) | GroupChoice::New(name) => name.clone(),
        }
    }

    /// The explicit group name to join, or `None` for the default.
    pub fn target_name(&self) -> (r: Option<&str>)
        ensures
            match self@ {
                GroupChoiceView::Default => r is None,
                GroupChoiceView::Existing(n) => r is Some && r->0@ == n,
                GroupChoiceView::New(n) => r is Some && r->0@ == n,
            },
    {
        match self {
            GroupChoice::Default => None,
            GroupChoice::Existing(name) | GroupChoice::New(name) => Some(name.as_str()),
        }
    }

    /// Cycle forward: Default -> each of `existing_groups` in order -> Default.
    pub fn next(&self, existing_groups: &[String]) -> (r: Self)
        ensures
            r@ == next_choice(self@, names_view(existing_groups@)),
    {
        match self {
            GroupChoice::Default | GroupChoice::New(_) => {
                if existing_groups.len() > 0 {
                    GroupChoice::Existing(existing_groups[0].clone())
                } else {
                    GroupChoice::Default
                }
            },
            GroupChoice::Existing(name) => match find_name(existing_groups, name) {
                Some(i) => {
                    if i < existing_groups.len() - 1 {
                        GroupChoice::Existing(existing_groups[i + 1].clone())
                    } else {
                        GroupChoice::Default
                    }
                },
                None => GroupChoice::Default,
            },
        }
    }

    /// Cycle backward: the mirror of [`Self::next`].
    pub fn prev(&self, existing_groups: &[String]) -> (r: Self)
        ensures
            r@ == prev_choice(self@, names_view(existing_groups@)),
    {
        match self {
            GroupChoice::Default | GroupChoice::New(_) => {
                if existing_groups.len() > 0 {
                    GroupChoice::Existing(existing_groups[existing_groups.len() - 1].clone())
                } else {
                    GroupChoice::Default
                }
            },
            GroupChoice::Existing(name) => match find_name(existing_groups, name) {
                Some(i) => {
                    if i == 0 {
                        GroupChoice::Default
                    } else {
                        GroupChoice::Existing(existing_groups[i - 1].clone())
                    }
                },
                None => GroupChoice::Default,
            },
        }
    }
}

proof fn lemma_position_of_distinct(groups: Seq<Seq<char>>, j: int)
    requires
        0 <= j < groups.len(),
        forall|a: int, b: int| 0 <= a < b < groups.len() ==> groups[a] != groups[b],
    ensures
        name_position(groups, groups[j]) == j,
{
    let p = equal_to(groups[j]);
    assert forall|k: int| 0 <= k < j implies !p(#[trigger] groups[k]) by {}
    lemma_first_index(groups, p, j);
}

/// With distinct group names, cycling forward then backward (or backward
/// then forward) returns to where it started, from the default or from any
/// existing group.
pub proof fn law_group_choice_cycle_round_trips(c: GroupChoiceView, groups: Seq<Seq<char>>)
    requires
        forall|a: int, b: int| 0 <= a < b < groups.len() ==> groups[a] != groups[b],
        match c {
            GroupChoiceView::Default => true,
            GroupChoiceView::Existing(n) => groups.contains(n),
            GroupChoiceView::New(_) => false,
        },
    ensures
        prev_choice(next_choice(c, groups), groups) == c,
        next_choice(prev_choice(c, groups), groups) == c,
{
    let n = groups.len();
    match c {
        GroupChoiceView::Default => {
            if n > 0 {
                lemma_position_of_distinct(groups, 0);
                lemma_position_of_distinct(groups, n - 1);
            }
        },
        GroupChoiceView::Existing(name) => {
            let j = choose|j: int| 0 <= j < n && groups[j] == name;
            lemma_position_of_distinct(groups, j);
            if j + 1 < n {
                lemma_position_of_distinct(groups, j + 1);
            }
            if j > 0 {
                lemma_position_of_distinct(groups, j - 1);
            }
            if n > 0 {
                lemma_position_of_distinct(groups, 0);
                lemma_position_of_distinct(groups, n - 1);
            }
        },
        GroupChoiceView::New(_) => {},
    }
}

/// Cycling forward, with distinct group names: from the default (or a new
/// name) to the first group, or the default when there are none; from a
/// group to the one after it, or to the default after the last one or when
/// the named group is not in the list. Cycling never yields a new name.
pub proof fn law_group_choice_next(groups: Seq<Seq<char>>, name: Seq<char>, i: int)
    requires
        forall|a: int, b: int| 0 <= a < b < groups.len() ==> groups[a] != groups[b],
    ensures
        next_choice(GroupChoiceView::Default, groups) == if groups.len() > 0 {
            GroupChoiceView::Existing(groups[0])
        } else {
            GroupChoiceView::Default
        },
        next_choice(GroupChoiceView::New(name), groups) == next_choice(GroupChoiceView::Default, groups),
        0 <= i && i + 1 < groups.len() ==> next_choice(GroupChoiceView::Existing(groups[i]), groups)
            == GroupChoiceView::Existing(groups[i + 1]),
        groups.len() > 0 ==> next_choice(GroupChoiceView::Existing(groups[groups.len() - 1]), groups)
            == GroupChoiceView::Default,
        !groups.contains(name) ==> next_choice(GroupChoiceView::Existing(name), groups)
            == GroupChoiceView::Default,
        !(next_choice(GroupChoiceView::Existing(name), groups) is New),
{
    if 0 <= i && i + 1 < groups.len() {
        lemma_position_of_distinct(groups, i);
    }
    if groups.len() > 0 {
        lemma_position_of_distinct(groups, groups.len() - 1);
    }
    if !groups.contains(name) {
        let p = equal_to(name);
        assert forall|k: int| 0 <= k < groups.len() implies !p(#[trigger] groups[k]) by {
            if p(groups[k]) {
                assert(groups.contains(name));
            }
        }
        lemma_first_index(groups, p, groups.len() as int);
    }
}

/// A new-group choice cycles exactly like the default one.
pub proof fn law_new_group_choice_cycles_like_default(name: Seq<char>, groups: Seq<Seq<char>>)
    ensures
        next_choice(GroupChoiceView::New(name), groups) == next_choice(GroupChoiceView::Default, groups),
        prev_choice(GroupChoiceView::New(name), groups) == prev_choice(GroupChoiceView::Default, groups),
{
}

// ---------------------------------------------------------------------------
// Disk image format
// ---------------------------------------------------------------------------

/// Disk image format to create for new VMs
#[derive(Debug, Clone, Copy, PartialEq, Eq, Default)]
pub enum DiskImageFormat {
    #[default]
    Qcow2,
    Raw,
}

/// The format that a lowercase `qemu-img` format name denotes, if supported.
pub open spec fn format_of_qemu_name(s: Seq<char>) -> Option<DiskImageFormat> {
    if s == "qcow2"@ || s == "qcow"@ {
        Some(DiskImageFormat::Qcow2)
    } else if s == "raw"@ {
        Some(DiskImageFormat::Raw)
    } else {
        None
    }
}

/// The format that a lowercase file extension denotes, if supported.
pub open spec fn format_of_extension(s: Seq<char>) -> Option<DiskImageFormat> {
    if s == "qcow2"@ || s == "qcow"@ {
        Some(DiskImageFormat::Qcow2)
    } else if s == "raw"@ || s == "img"@ {
        Some(DiskImageFormat::Raw)
    } else {
        None
    }
}

/// What `Path::extension` gives for a path: the part of the file name after
/// its last dot, when there is one.
pub uninterp spec fn path_extension(path: Seq<char>) -> Option<Seq<char>>;

/// `Path::extension` on a path held as a string, with the extension
/// returned as an owned string.
#[verifier::external_body]
fn file_extension(path: &str) -> (r: Option<String>)
    ensures
        (r is Some) == (path_extension(path@) is Some),
        r matches Some(e) ==> path_extension(path@) == Some(e@),
{
    match std::path::Path::new(path).extension() {
        Some(ext) => ext.to_str().map(str::to_owned),
        None => None,
    }
}

impl DiskImageFormat {
    /// The format's `qemu-img` name, which is also its file extension.
    pub open spec fn name(self) -> Seq<char> {
        match self {
            DiskImageFormat::Qcow2 => "qcow2"@,
            DiskImageFormat::Raw => "raw"@,
        }
    }

    pub open spec fn toggled(self) -> DiskImageFormat {
        match self {
            DiskImageFormat::Qcow2 => DiskImageFormat::Raw,
            DiskImageFormat::Raw => DiskImageFormat::Qcow2,
        }
    }

    /// Format name accepted by `qemu-img`.
    #[must_use]
    pub fn as_str(self) -> (s: &'static str)
        ensures
            s@ == self.name(),
    {
        match self {
            Self::Qcow2 => "qcow2",
            Self::Raw => "raw",
        }
    }

    /// File extension used for newly-created or imported disks.
    #[must_use]
    pub fn extension(self) -> (s: &'static str)
        ensures
            s@ == self.name(),
    {
        match self {
            Self::Qcow2 => "qcow2",
            Self::Raw => "raw",
        }
    }

    /// Short label for compact UI summaries.
    #[must_use]
    pub fn label(self) -> (s: &'static str)
        ensures
            s@ == match self {
                DiskImageFormat::Qcow2 => "qcow2"@,
                DiskImageFormat::Raw => "raw"@,
            },
    {
        match self {
            Self::Qcow2 => "qcow2",
            Self::Raw => "raw",
        }
    }

    /// Human-readable description for format selection UI.
    #[must_use]
    pub fn description(self) -> (s: &'static str)
        ensures
            s@ == match self {
                DiskImageFormat::Qcow2 => "qcow2 (copy-on-write, snapshots supported)"@,
                DiskImageFormat::Raw => "raw (plain disk image, no snapshots)"@,
            },
    {
        match self {
            Self::Qcow2 => "qcow2 (copy-on-write, snapshots supported)",
            Self::Raw => "raw (plain disk image, no snapshots)",
        }
    }

    /// Human-readable storage behavior summary.
    #[must_use]
    pub fn storage_description(self) -> (s: &'static str)
        ensures
            s@ == match self {
                DiskImageFormat::Qcow2 => "Expandable (only uses space as needed)"@,
                DiskImageFormat::Raw => "Plain sparse file (guest sees full size)"@,
            },
    {
        match self {
            Self::Qcow2 => "Expandable (only uses space as needed)",
            Self::Raw => "Plain sparse file (guest sees full size)",
        }
    }

    /// Compact summary for confirmation screens.
    #[must_use]
    pub fn summary(self) -> (s: &'static str)
        ensures
            s@ == match self {
                DiskImageFormat::Qcow2 => "qcow2 (expandable)"@,
                DiskImageFormat::Raw => "raw (no snapshots)"@,
            },
    {
        match self {
            Self::Qcow2 => "qcow2 (expandable)",
            Self::Raw => "raw (no snapshots)",
        }
    }

    /// Alternate between the supported creation formats.
    #[must_use]
    pub fn toggle(self) -> (f: Self)
        ensures
            f == self.toggled(),
    {
        match self {
            Self::Qcow2 => Self::Raw,
            Self::Raw => Self::Qcow2,
        }
    }

    /// Map a `qemu-img info` format string into a supported wizard format;
    /// the name is matched case-insensitively.
    #[must_use]
    pub fn from_qemu_format(format: &str) -> (r: Option<Self>)
        ensures
            r == format_of_qemu_name(str_lowercase(format@)),
    {
        let lower = to_lowercase(format);
        Self::from_lowercase_qemu_format(lower.as_str())
    }

    /// The supported format that an already-lowercased `qemu-img` format
    /// name denotes.
    #[must_use]
    pub fn from_lowercase_qemu_format(format: &str) -> (r: Option<Self>)
        ensures
            r == format_of_qemu_name(format@),
    {
        if str_eq(format, "qcow2") || str_eq(format, "qcow") {
            Some(Self::Qcow2)
        } else if str_eq(format, "raw") {
            Some(Self::Raw)
        } else {
            None
        }
    }

    /// Infer the disk format from a path's extension (case-insensitively).
    #[must_use]
    pub fn from_path(path: &str) -> (r: Option<Self>)
        ensures
            r == match path_extension(path@) {
                Some(ext) => format_of_extension(str_lowercase(ext)),
                None => None,
            },
    {
        match file_extension(path) {
            Some(ext) => Self::from_extension(ext.as_str()),
            None => None,
        }
    }

    /// The format that a file extension denotes (case-insensitively).
    #[must_use]
    pub fn from_extension(ext: &str) -> (r: Option<Self>)
        ensures
            r == format_of_extension(str_lowercase(ext@)),
    {
        let lower = to_lowercase(ext);
        Self::from_lowercase_extension(lower.as_str())
    }

    /// The format that an already-lowercased file extension denotes.
    #[must_use]
    pub fn from_lowercase_extension(ext: &str) -> (r: Option<Self>)
        ensures
            r == format_of_extension(ext@),
    {
        if str_eq(ext, "qcow2") || str_eq(ext, "qcow") {
            Some(Self::Qcow2)
        } else if str_eq(ext, "raw") || str_eq(ext, "img") {
            Some(Self::Raw)
        } else {
            None
        }
    }
}

/// A format's own name parses back to it, both as a `qemu-img` format name
/// and as a file extension.
pub proof fn law_format_names_round_trip(f: DiskImageFormat)
    ensures
        format_of_qemu_name(f.name()) == Some(f),
        format_of_extension(f.name()) == Some(f),
{
    reveal_strlit("qcow2");
    reveal_strlit("qcow");
    reveal_strlit("raw");
    assert("raw"@.len() != "qcow2"@.len() && "raw"@.len() != "qcow"@.len());
}

/// Toggling the format twice gives back the format it started from, and toggling
/// always changes it.
pub proof fn law_toggle_is_an_involution(f: DiskImageFormat)
    ensures
        f.toggled().toggled() == f,
        f.toggled() != f,
{
}

/// Action to take with an existing disk when using it for a new VM
#[derive(Debug, Clone, Copy, PartialEq, Eq, Default)]
pub enum DiskAction {
    #[default]
    Copy,
    Move,
}

// ---------------------------------------------------------------------------
// Wizard steps
// ---------------------------------------------------------------------------

/// Steps in the VM creation wizard
#[derive(Debug, Clone, PartialEq, Eq, Default, Structural)]
pub enum WizardStep {
    /// Step 1: Select name and OS type
    #[default]
    SelectOs,
    /// Step 2: Select ISO file
    SelectIso,
    /// Step 3: Configure disk settings
    ConfigureDisk,
    /// Step 4: Configure QEMU settings
    ConfigureQemu,
    /// Step 5: Review and confirm
    Confirm,
}

impl WizardStep {
    pub open spec fn step_number(self) -> int {
        match self {
            WizardStep::SelectOs => 1,
            WizardStep::SelectIso => 2,
            WizardStep::ConfigureDisk => 3,
            WizardStep::ConfigureQemu => 4,
            WizardStep::Confirm => 5,
        }
    }

    pub open spec fn following(self) -> Option<WizardStep> {
        match self {
            WizardStep::SelectOs => Some(WizardStep::SelectIso),
            WizardStep::SelectIso => Some(WizardStep::ConfigureDisk),
            WizardStep::ConfigureDisk => Some(WizardStep::ConfigureQemu),
            WizardStep::ConfigureQemu => Some(WizardStep::Confirm),
            WizardStep::Confirm => None,
        }
    }

    pub open spec fn preceding(self) -> Option<WizardStep> {
        match self {
            WizardStep::SelectOs => None,
            WizardStep::SelectIso => Some(WizardStep::SelectOs),
            WizardStep::ConfigureDisk => Some(WizardStep::SelectIso),
            WizardStep::ConfigureQemu => Some(WizardStep::ConfigureDisk),
            WizardStep::Confirm => Some(WizardStep::ConfigureQemu),
        }
    }

    /// Get the step number (1-5)
    pub fn number(&self) -> (n: u8)
        ensures
            n == self.step_number(),
    {
        match self {
            WizardStep::SelectOs => 1,
            WizardStep::SelectIso => 2,
            WizardStep::ConfigureDisk => 3,
            WizardStep::ConfigureQemu => 4,
            WizardStep::Confirm => 5,
        }
    }

    /// Get the step title
    pub fn title(&self) -> (s: &'static str)
        ensures
            s@ == match *self {
                WizardStep::SelectOs => "Select Operating System"@,
                WizardStep::SelectIso => "Select Install Media"@,
                WizardStep::ConfigureDisk => "Configure Disk"@,
                WizardStep::ConfigureQemu => "Configure QEMU"@,
                WizardStep::Confirm => "Review & Create"@,
            },
    {
        match self {
            WizardStep::SelectOs => "Select Operating System",
            WizardStep::SelectIso => "Select Install Media",
            WizardStep::ConfigureDisk => "Configure Disk",
            WizardStep::ConfigureQemu => "Configure QEMU",
            WizardStep::Confirm => "Review & Create",
        }
    }

    /// Move to the next step
    pub fn next(&self) -> (r: Option<WizardStep>)
        ensures
            r == self.following(),
    {
        match self {
            WizardStep::SelectOs => Some(WizardStep::SelectIso),
            WizardStep::SelectIso => Some(WizardStep::ConfigureDisk),
            WizardStep::ConfigureDisk => Some(WizardStep::ConfigureQemu),
            WizardStep::ConfigureQemu => Some(WizardStep::Confirm),
            WizardStep::Confirm => None,
        }
    }

    /// Move to the previous step
    pub fn prev(&self) -> (r: Option<WizardStep>)
        ensures
            r == self.preceding(),
    {
        match self {
            WizardStep::SelectOs => None,
            WizardStep::SelectIso => Some(WizardStep::SelectOs),
            WizardStep::ConfigureDisk => Some(WizardStep::SelectIso),
            WizardStep::ConfigureQemu => Some(WizardStep::ConfigureDisk),
            WizardStep::Confirm => Some(WizardStep::ConfigureQemu),
        }
    }
}

/// The wizard's steps form a line numbered 1 to 5: going forward moves to
/// the step numbered one higher, going back undoes going forward (and the
/// other way round), only the last step has no next one and only the first
/// has no previous one.
pub proof fn law_wizard_steps_form_a_line(s: WizardStep)
    ensures
        1 <= s.step_number() <= 5,
        s.following() matches Some(n) ==> n.step_number() == s.step_number() + 1 && n.preceding()
            == Some(s),
        s.preceding() matches Some(p) ==> p.step_number() == s.step_number() - 1 && p.following()
            == Some(s),
        (s.following() is None) == (s == WizardStep::Confirm),
        (s.preceding() is None) == (s == WizardStep::SelectOs),
{
}

// ---------------------------------------------------------------------------
// Disk source
// ---------------------------------------------------------------------------

/// Where the new VM's system disk comes from
#[derive(Debug, Clone, Copy, PartialEq, Eq, Default, Structural)]
pub enum WizardDiskSource {
    /// Create a fresh disk image in the VM directory
    #[default]
    NewImage,
    /// Copy/move an existing disk image file into the VM directory
    ExistingImage,
    /// Pass through a whole physical disk (destructive for its contents)
    PhysicalDevice,
}

impl WizardDiskSource {
    pub open spec fn following(self) -> WizardDiskSource {
        match self {
            WizardDiskSource::NewImage => WizardDiskSource::ExistingImage,
            WizardDiskSource::ExistingImage => WizardDiskSource::PhysicalDevice,
            WizardDiskSource::PhysicalDevice => WizardDiskSource::NewImage,
        }
    }

    pub open spec fn preceding(self) -> WizardDiskSource {
        match self {
            WizardDiskSource::NewImage => WizardDiskSource::PhysicalDevice,
            WizardDiskSource::ExistingImage => WizardDiskSource::NewImage,
            WizardDiskSource::PhysicalDevice => WizardDiskSource::ExistingImage,
        }
    }

    pub fn next(self) -> (r: Self)
        ensures
            r == self.following(),
    {
        match self {
            Self::NewImage => Self::ExistingImage,
            Self::ExistingImage => Self::PhysicalDevice,
            Self::PhysicalDevice => Self::NewImage,
        }
    }

    pub fn prev(self) -> (r: Self)
        ensures
            r == self.preceding(),
    {
        match self {
            Self::NewImage => Self::PhysicalDevice,
            Self::ExistingImage => Self::NewImage,
            Self::PhysicalDevice => Self::ExistingImage,
        }
    }

    pub fn label(self) -> (s: &'static str)
        ensures
            s@ == match self {
                WizardDiskSource::NewImage => "Create New"@,
                WizardDiskSource::ExistingImage => "Use Existing"@,
                WizardDiskSource::PhysicalDevice => "Physical Disk"@,
            },
    {
        match self {
            Self::NewImage => "Create New",
            Self::ExistingImage => "Use Existing",
            Self::PhysicalDevice => "Physical Disk",
        }
    }
}

/// The disk sources form a cycle of three: `prev` undoes `next`, `next`
/// undoes `prev`, and three steps either way return to the start.
pub proof fn law_disk_source_cycle(d: WizardDiskSource)
    ensures
        d.following().preceding() == d,
        d.preceding().following() == d,
        d.following().following().following() == d,
        d.following() != d,
{
}

// ---------------------------------------------------------------------------
// Network adapters
// ---------------------------------------------------------------------------

pub open spec fn opt_view(o: Option<String>) -> Option<Seq<char>> {
    match o {
        Some(s) => Some(s@),
        None => None,
    }
}

fn opt_str_eq(a: &Option<String>, b: &Option<String>) -> (r: bool)
    ensures
        r == (opt_view(*a) == opt_view(*b)),
{
    match (a, b) {
        (Some(x), Some(y)) => *x == *y,
        (None, None) => true,
        _ => false,
    }
}

fn clone_opt(o: &Option<String>) -> (r: Option<String>)
    ensures
        opt_view(r) == opt_view(*o),
{
    match o {
        Some(s) => Some(s.clone()),
        None => None,
    }
}

/// A single network adapter's settings, as edited in the wizard or the
/// Network Settings screen. A VM can have any number of these.
#[derive(Debug, Clone, PartialEq)]
pub struct NicConfig {
    /// Network adapter model ("virtio", "e1000", ... or "none")
    pub model: String,
    /// Network backend ("user", "passt", "bridge", or "none")
    pub backend: String,
    /// Port forwarding rules (user & passt backends)
    pub port_forwards: Vec<PortForward>,
    /// Bridge name when backend is "bridge"
    pub bridge_name: Option<String>,
    /// Custom MAC address for the NIC (canonical aa:bb:cc:dd:ee:ff form)
    pub mac_address: Option<String>,
}

/// Abstract value of a [`NicConfig`].
pub struct NicView {
    pub model: Seq<char>,
    pub backend: Seq<char>,
    pub port_forwards: Seq<PortForward>,
    pub bridge_name: Option<Seq<char>>,
    pub mac_address: Option<Seq<char>>,
}

impl View for NicConfig {
    type V = NicView;

    open spec fn view(&self) -> NicView {
        NicView {
            model: self.model@,
            backend: self.backend@,
            port_forwards: self.port_forwards@,
            bridge_name: opt_view(self.bridge_name),
            mac_address: opt_view(self.mac_address),
        }
    }
}

impl Default for NicConfig {
    fn default() -> (r: Self)
        ensures
            r@ == (NicView {
                model: "e1000"@,
                backend: "user"@,
                port_forwards: Seq::empty(),
                bridge_name: None,
                mac_address: None,
            }),
    {
        let r = Self {
            model: "e1000".to_owned(),
            backend: "user".to_owned(),
            port_forwards: Vec::new(),
            bridge_name: None,
            mac_address: None,
        };
        assert(r.port_forwards@ =~= Seq::<PortForward>::empty());
        r
    }
}

/// A backend stop as `(backend id, bridge name)`.
pub type StopView = (Seq<char>, Option<Seq<char>>);

pub open spec fn stops_view(s: Seq<(String, Option<String>)>) -> Seq<StopView> {
    s.map_values(|p: (String, Option<String>)| (p.0@, opt_view(p.1)))
}

/// A stop with its bridge resolved: the generic "bridge" stop (no specific
/// network) falls back to the default bridge.
pub open spec fn effective_stop(stop: StopView, default_bridge: Option<Seq<char>>) -> StopView {
    if stop.0 == "bridge"@ && stop.1 is None {
        (stop.0, default_bridge)
    } else {
        stop
    }
}

/// The stops with their bridges resolved, dropping any stop that resolves
/// to the same value as an earlier one.
pub open spec fn resolve_stops(stops: Seq<StopView>, default_bridge: Option<Seq<char>>) -> Seq<StopView>
    decreases stops.len(),
{
    if stops.len() == 0 {
        Seq::empty()
    } else {
        let r = resolve_stops(stops.drop_last(), default_bridge);
        let e = effective_stop(stops.last(), default_bridge);
        if r.contains(e) {
            r
        } else {
            r.push(e)
        }
    }
}

/// Whether a resolved stop is the one a NIC is currently on.
pub open spec fn stop_matches(stop: StopView, nic: NicView) -> bool {
    if stop.0 == "bridge"@ {
        nic.backend == "bridge"@ && stop.1 == nic.bridge_name
    } else {
        stop.0 == nic.backend
    }
}

pub open spec fn matches_nic(nic: NicView) -> spec_fn(StopView) -> bool {
    |s: StopView| stop_matches(s, nic)
}

pub open spec fn is_bridge_stop_for(bridge: Option<Seq<char>>) -> spec_fn(StopView) -> bool {
    |s: StopView| s.0 == "bridge"@ && s.1 == bridge
}

/// Index of the resolved stop a NIC is on: the first stop matching it; for
/// a bridge NIC matching none of them, the generic bridge stop; else 0.
pub open spec fn current_stop(resolved: Seq<StopView>, nic: NicView, default_bridge: Option<Seq<char>>) -> int {
    let i = first_index(resolved, matches_nic(nic));
    if i >= 0 {
        i
    } else if nic.backend == "bridge"@ {
        let j = first_index(resolved, is_bridge_stop_for(default_bridge));
        if j >= 0 {
            j
        } else {
            0
        }
    } else {
        0
    }
}

/// The NIC after moving `delta` stops (cyclically) along the resolved stops.
/// Landing on a "bridge" stop also sets the bridge name to that stop's bridge.
pub open spec fn cycled(nic: NicView, stops: Seq<StopView>, default_bridge: Option<Seq<char>>, delta: int) -> NicView {
    let r = resolve_stops(stops, default_bridge);
    if r.len() == 0 {
        nic
    } else {
        let s = r[(current_stop(r, nic, default_bridge) + delta) % (r.len() as int)];
        NicView {
            backend: s.0,
            bridge_name: if s.0 == "bridge"@ { s.1 } else { nic.bridge_name },
            ..nic
        }
    }
}

pub proof fn lemma_resolve_stops_len(stops: Seq<StopView>, d: Option<Seq<char>>)
    ensures
        resolve_stops(stops, d).len() <= stops.len(),
    decreases stops.len(),
{
    if stops.len() > 0 {
        lemma_resolve_stops_len(stops.drop_last(), d);
    }
}

proof fn lemma_resolve_step(stops: Seq<StopView>, d: Option<Seq<char>>, k: int)
    requires
        0 <= k < stops.len(),
    ensures
        resolve_stops(stops.take(k + 1), d) == ({
            let r = resolve_stops(stops.take(k), d);
            let e = effective_stop(stops[k], d);
            if r.contains(e) {
                r
            } else {
                r.push(e)
            }
        }),
{
    assert(stops.take(k + 1).drop_last() =~= stops.take(k));
}

impl NicConfig {
    fn stop_eq(a: &(String, Option<String>), b: &(String, Option<String>)) -> (r: bool)
        ensures
            r == ((a.0@, opt_view(a.1)) == (b.0@, opt_view(b.1))),
    {
        a.0 == b.0 && opt_str_eq(&a.1, &b.1)
    }

    fn resolve(stops: &[(String, Option<String>)], default_bridge: &Option<String>) -> (r: Vec<(String, Option<String>)>)
        ensures
            stops_view(r@) == resolve_stops(stops_view(stops@), opt_view(*default_bridge)),
    {
        let ghost sv = stops_view(stops@);
        let ghost d = opt_view(*default_bridge);
        let mut resolved: Vec<(String, Option<String>)> = Vec::new();
        let mut k: usize = 0;
        assert(sv.take(0) =~= Seq::<StopView>::empty());
        while k < stops.len()
            invariant
                sv == stops_view(stops@),
                d == opt_view(*default_bridge),
                k <= stops@.len(),
                stops_view(resolved@) == resolve_stops(sv.take(k as int), d),
            decreases stops@.len() - k,
        {
            proof {
                lemma_resolve_step(sv, d, k as int);
            }
            let id = &stops[k].0;
            let bridge = &stops[k].1;
            let effective: Option<String> = if str_eq(id.as_str(), "bridge") && bridge.is_none() {
                clone_opt(default_bridge)
            } else {
                clone_opt(bridge)
            };
            let entry = (id.clone(), effective);
            assert((entry.0@, opt_view(entry.1)) == effective_stop(sv[k as int], d));
            let mut seen = false;
            let mut q: usize = 0;
            let ghost e = (entry.0@, opt_view(entry.1));
            while q < resolved.len()
                invariant
                    q <= resolved@.len(),
                    seen == exists|m: int| 0 <= m < q && stops_view(resolved@)[m] == (entry.0@, opt_view(entry.1)),
                decreases resolved@.len() - q,
            {
                assert(stops_view(resolved@)[q as int] == (resolved@[q as int].0@, opt_view(resolved@[q as int].1)));
                if Self::stop_eq(&resolved[q], &entry) {
                    seen = true;
                }
                q += 1;
            }
            let ghost before = resolved@;
            assert(seen == stops_view(resolved@).contains(e));
            if !seen {
                resolved.push(entry);
                assert(stops_view(resolved@) =~= stops_view(before).push((entry.0@, opt_view(entry.1))));
            }
            k += 1;
        }
        assert(sv.take(stops@.len() as int) =~= sv);
        resolved
    }

    fn matches_stop(&self, stop: &(String, Option<String>)) -> (b: bool)
        ensures
            b == stop_matches((stop.0@, opt_view(stop.1)), self@),
    {
        if str_eq(stop.0.as_str(), "bridge") {
            str_eq(self.backend.as_str(), "bridge") && opt_str_eq(&stop.1, &self.bridge_name)
        } else {
            stop.0 == self.backend
        }
    }

    fn current_index(&self, resolved: &Vec<(String, Option<String>)>, default_bridge: &Option<String>) -> (i: usize)
        ensures
            i as int == current_stop(stops_view(resolved@), self@, opt_view(*default_bridge)),
            resolved@.len() > 0 ==> i < resolved@.len(),
    {
        let ghost rv = stops_view(resolved@);
        let ghost nic = self@;
        let ghost d = opt_view(*default_bridge);
        let ghost p = matches_nic(nic);
        let ghost pb = is_bridge_stop_for(d);
        let mut k: usize = 0;
        while k < resolved.len()
            invariant
                rv == stops_view(resolved@),
                nic == self@,
                p == matches_nic(nic),
                k <= resolved@.len(),
                forall|m: int| 0 <= m < k ==> !p(#[trigger] rv[m]),
            decreases resolved@.len() - k,
        {
            assert(rv[k as int] == (resolved@[k as int].0@, opt_view(resolved@[k as int].1)));
            if self.matches_stop(&resolved[k]) {
                proof {
                    lemma_first_index(rv, p, k as int);
                }
                return k;
            }
            k += 1;
        }
        proof {
            lemma_first_index(rv, p, k as int);
        }
        if !str_eq(self.backend.as_str(), "bridge") {
            return 0;
        }
        let mut j: usize = 0;
        while j < resolved.len()
            invariant
                rv == stops_view(resolved@),
                d == opt_view(*default_bridge),
                pb == is_bridge_stop_for(d),
                nic == self@,
                p == matches_nic(nic),
                first_index(rv, p) == -1,
                nic.backend == "bridge"@,
                j <= resolved@.len(),
                forall|m: int| 0 <= m < j ==> !pb(#[trigger] rv[m]),
            decreases resolved@.len() - j,
        {
            assert(rv[j as int] == (resolved@[j as int].0@, opt_view(resolved@[j as int].1)));
            if str_eq(resolved[j].0.as_str(), "bridge") && opt_str_eq(&resolved[j].1, default_bridge) {
                proof {
                    lemma_first_index(rv, pb, j as int);
                }
                return j;
            }
            j += 1;
        }
        proof {
            lemma_first_index(rv, pb, j as int);
        }
        0
    }

    /// Cycle this NIC's backend through `stops` (backend id, and the bridge
    /// of a specific managed network where the stop is tied to one), keeping
    /// `bridge_name` in sync: landing on a stop tied to a managed network
    /// sets `bridge_name` to that network's bridge; landing on the generic
    /// "bridge" stop sets it to `default_bridge`. Stops that resolve to the
    /// same value as an earlier stop are skipped, so cycling never gets stuck
    /// between two stops that look alike.
    pub fn cycle_backend(
        &mut self,
        stops: &[(String, Option<String>)],
        default_bridge: &Option<String>,
        delta: i32,
    )
        requires
            stops@.len() <= i32::MAX,
            i32::MIN <= current_stop(
                resolve_stops(stops_view(stops@), opt_view(*default_bridge)),
                old(self)@,
                opt_view(*default_bridge),
            ) + delta <= i32::MAX,
        ensures
            final(self)@ == cycled(old(self)@, stops_view(stops@), opt_view(*default_bridge), delta as int),
    {
        let resolved = Self::resolve(stops, default_bridge);
        proof {
            lemma_resolve_stops_len(stops_view(stops@), opt_view(*default_bridge));
        }
        if resolved.len() == 0 {
            return;
        }
        let current_idx = self.current_index(&resolved, default_bridge);
        let n = resolved.len() as i32;
        let sum = current_idx as i32 + delta;
        let new_idx: usize = match sum.checked_rem_euclid(n) {
            Some(r) => r as usize,
            None => return,
        };
        assert(stops_view(resolved@)[new_idx as int] == (resolved@[new_idx as int].0@, opt_view(
            resolved@[new_idx as int].1,
        )));
        let new_backend = resolved[new_idx].0.clone();
        let lands_on_bridge = str_eq(new_backend.as_str(), "bridge");
        self.backend = new_backend;
        if lands_on_bridge {
            self.bridge_name = clone_opt(&resolved[new_idx].1);
        }
    }
}

/// Whether only "bridge" stops share a backend id among `r`.
pub open spec fn unique_plain_ids(r: Seq<StopView>) -> bool {
    forall|a: int, b: int| 0 <= a < b < r.len() && r[a].0 == r[b].0 ==> r[a].0 == "bridge"@
}

pub proof fn lemma_resolve_stops_distinct(stops: Seq<StopView>, d: Option<Seq<char>>)
    ensures
        forall|a: int, b: int|
            0 <= a < b < resolve_stops(stops, d).len() ==> resolve_stops(stops, d)[a] != resolve_stops(
                stops,
                d,
            )[b],
    decreases stops.len(),
{
    if stops.len() > 0 {
        let prev = resolve_stops(stops.drop_last(), d);
        lemma_resolve_stops_distinct(stops.drop_last(), d);
        let e = effective_stop(stops.last(), d);
        if !prev.contains(e) {
            let r = prev.push(e);
            assert forall|a: int, b: int| 0 <= a < b < r.len() implies r[a] != r[b] by {
                if b == r.len() - 1 {
                    assert(r[a] == prev[a]);
                }
            }
        }
    }
}

proof fn lemma_landing_is_current(r: Seq<StopView>, nic: NicView, k: int)
    requires
        0 <= k < r.len(),
        unique_plain_ids(r),
        forall|a: int, b: int| 0 <= a < b < r.len() ==> r[a] != r[b],
        nic.backend == r[k].0,
        r[k].0 == "bridge"@ ==> nic.bridge_name == r[k].1,
    ensures
        first_index(r, matches_nic(nic)) == k,
{
    let p = matches_nic(nic);
    assert forall|j: int| 0 <= j < k implies !p(#[trigger] r[j]) by {
        if r[j].0 == "bridge"@ {
            if stop_matches(r[j], nic) {
                assert(r[j] == r[k]);
            }
        }
    }
    lemma_first_index(r, p, k);
}

/// Cycling a NIC's backend by `delta` and then by `-delta` comes back to
/// the stop it started on: same backend, and for a bridge NIC the same
/// bridge. This holds whenever the NIC sits on one of the resolved stops
/// and only "bridge" stops share a backend id; model, port forwards and
/// MAC are never touched.
pub proof fn law_cycle_backend_round_trip(
    nic: NicView,
    stops: Seq<StopView>,
    d: Option<Seq<char>>,
    delta: int,
)
    requires
        first_index(resolve_stops(stops, d), matches_nic(nic)) >= 0,
        unique_plain_ids(resolve_stops(stops, d)),
    ensures
        cycled(cycled(nic, stops, d, delta), stops, d, -delta).backend == nic.backend,
        nic.backend == "bridge"@ ==> cycled(cycled(nic, stops, d, delta), stops, d, -delta).bridge_name
            == nic.bridge_name,
        cycled(cycled(nic, stops, d, delta), stops, d, -delta).model == nic.model,
        cycled(cycled(nic, stops, d, delta), stops, d, -delta).port_forwards == nic.port_forwards,
        cycled(cycled(nic, stops, d, delta), stops, d, -delta).mac_address == nic.mac_address,
        0 <= current_stop(resolve_stops(stops, d), nic, d) < resolve_stops(stops, d).len(),
        0 <= current_stop(resolve_stops(stops, d), cycled(nic, stops, d, delta), d) < resolve_stops(
            stops,
            d,
        ).len(),
{
    let r = resolve_stops(stops, d);
    let n = r.len() as int;
    let i = first_index(r, matches_nic(nic));
    lemma_first_index_props(r, matches_nic(nic));
    lemma_resolve_stops_distinct(stops, d);
    assert(current_stop(r, nic, d) == i);
    let k = (i + delta) % n;
    assert(0 <= k < n) by (nonlinear_arith)
        requires
            n > 0,
            k == (i + delta) % n,
    ;
    let nic1 = cycled(nic, stops, d, delta);
    lemma_landing_is_current(r, nic1, k);
    assert(current_stop(r, nic1, d) == k);
    assert((k - delta) % n == i) by {
        vstd::arithmetic::div_mod::lemma_fundamental_div_mod(i + delta, n);
        let q = (i + delta) / n;
        assert(k - delta == i + n * (-q)) by (nonlinear_arith)
            requires
                i + delta == n * q + k,
        ;
        vstd::arithmetic::div_mod::lemma_mod_multiples_vanish(-q, i, n);
        vstd::arithmetic::div_mod::lemma_small_mod(i as nat, n as nat);
    }
    assert(stop_matches(r[i], nic));
}

/// Every stop, resolved, is among the resolved stops, and every resolved
/// stop is one of the stops, resolved.
pub proof fn lemma_resolve_stops_covers(stops: Seq<StopView>, d: Option<Seq<char>>)
    ensures
        forall|k: int| 0 <= k < stops.len() ==> resolve_stops(stops, d).contains(
            #[trigger] effective_stop(stops[k], d),
        ),
        forall|j: int|
            0 <= j < resolve_stops(stops, d).len() ==> exists|k: int|
                0 <= k < stops.len() && #[trigger] resolve_stops(stops, d)[j] == effective_stop(stops[k], d),
    decreases stops.len(),
{
    if stops.len() > 0 {
        let prev_stops = stops.drop_last();
        lemma_resolve_stops_covers(prev_stops, d);
        let prev = resolve_stops(prev_stops, d);
        let r = resolve_stops(stops, d);
        let e = effective_stop(stops.last(), d);
        assert forall|k: int| 0 <= k < stops.len() implies r.contains(#[trigger] effective_stop(stops[k], d)) by {
            if k < stops.len() - 1 {
                assert(stops[k] == prev_stops[k]);
                let j = choose|j: int| 0 <= j < prev.len() && prev[j] == effective_stop(prev_stops[k], d);
                if !prev.contains(e) {
                    assert(r[j] == prev[j]);
                }
            } else if !prev.contains(e) {
                assert(r[r.len() - 1] == e);
            }
        }
        assert forall|j: int| 0 <= j < r.len() implies exists|k: int|
            0 <= k < stops.len() && #[trigger] r[j] == effective_stop(stops[k], d) by {
            if j < prev.len() {
                assert(r[j] == prev[j]);
                let k = choose|k: int| 0 <= k < prev_stops.len() && prev[j] == effective_stop(prev_stops[k], d);
                assert(stops[k] == prev_stops[k]);
            } else {
                assert(r[j] == effective_stop(stops[stops.len() - 1], d));
            }
        }
    }
}

/// The backend round trip stated over the stops as given: cycling a NIC's
/// backend by `delta` and back by `-delta` returns to its backend (and,
/// for a bridge NIC, to its bridge), whenever the NIC sits on one of the
/// stops (a "bridge" stop without a network standing for the default
/// bridge) and no backend id other than "bridge" occurs twice among them.
/// With at most `i32::MAX` stops and a step of one, both calls of
/// [`NicConfig::cycle_backend`] meet their preconditions.
pub proof fn law_cycle_backend_round_trip_over_stops(
    nic: NicView,
    stops: Seq<StopView>,
    d: Option<Seq<char>>,
    delta: int,
)
    requires
        forall|a: int, b: int|
            0 <= a < stops.len() && 0 <= b < stops.len() && a != b && stops[a].0 == stops[b].0
                ==> stops[a].0 == "bridge"@,
        exists|k: int| 0 <= k < stops.len() && stop_matches(#[trigger] effective_stop(stops[k], d), nic),
    ensures
        cycled(cycled(nic, stops, d, delta), stops, d, -delta).backend == nic.backend,
        nic.backend == "bridge"@ ==> cycled(cycled(nic, stops, d, delta), stops, d, -delta).bridge_name
            == nic.bridge_name,
        stops.len() <= i32::MAX && -1 <= delta <= 1 ==> {
            &&& i32::MIN <= current_stop(resolve_stops(stops, d), nic, d) + delta <= i32::MAX
            &&& i32::MIN <= current_stop(resolve_stops(stops, d), cycled(nic, stops, d, delta), d) - delta
                <= i32::MAX
        },
{
    let r = resolve_stops(stops, d);
    lemma_resolve_stops_len(stops, d);
    lemma_resolve_stops_covers(stops, d);
    lemma_resolve_stops_distinct(stops, d);
    let k = choose|k: int| 0 <= k < stops.len() && stop_matches(#[trigger] effective_stop(stops[k], d), nic);
    let e = effective_stop(stops[k], d);
    assert(r.contains(e));
    let j = choose|j: int| 0 <= j < r.len() && r[j] == e;
    lemma_first_index_props(r, matches_nic(nic));
    assert(matches_nic(nic)(r[j]));
    assert forall|a: int, b: int| 0 <= a < b < r.len() && r[a].0 == r[b].0 implies r[a].0 == "bridge"@ by {
        let ka = choose|ka: int| 0 <= ka < stops.len() && #[trigger] r[a] == effective_stop(stops[ka], d);
        let kb = choose|kb: int| 0 <= kb < stops.len() && #[trigger] r[b] == effective_stop(stops[kb], d);
        assert(r[a] != r[b]);
        if r[a].0 != "bridge"@ {
            assert(stops[ka].0 == r[a].0);
            assert(stops[kb].0 == r[b].0);
            assert(ka != kb);
        }
    }
    law_cycle_backend_round_trip(nic, stops, d, delta);
}

/// Human-readable description of a backend, e.g. `"bridge (vmc-lan)"`.
pub open spec fn backend_text(backend: Seq<char>, bridge_name: Option<Seq<char>>) -> Seq<char> {
    if backend == "user"@ {
        "user/SLIRP (NAT)"@
    } else if backend == "passt"@ {
        "passt"@
    } else if backend == "bridge"@ {
        "bridge ("@ + (match bridge_name {
            Some(b) => b,
            None => "qemubr0"@,
        }) + ")"@
    } else if backend == "none"@ {
        "none"@
    } else {
        backend
    }
}

impl NicConfig {
    /// `true` unless this NIC's backend is "none" — governs whether the
    /// MAC field is shown in the per-NIC editors.
    pub fn show_mac(&self) -> (b: bool)
        ensures
            b == (self@.backend != "none"@),
    {
        !str_eq(self.backend.as_str(), "none")
    }

    /// `true` when the backend is "user" or "passt" — governs whether the
    /// Forwards field is shown in the per-NIC editors.
    pub fn show_port_forwards(&self) -> (b: bool)
        ensures
            b == (self@.backend == "user"@ || self@.backend == "passt"@),
    {
        str_eq(self.backend.as_str(), "user") || str_eq(self.backend.as_str(), "passt")
    }

    /// `true` when the backend is "bridge" — governs whether the Bridge
    /// field is shown in the per-NIC editors.
    pub fn is_bridge(&self) -> (b: bool)
        ensures
            b == (self@.backend == "bridge"@),
    {
        str_eq(self.backend.as_str(), "bridge")
    }

    /// Highest focusable field index in a per-NIC editor for this NIC's
    /// current backend: 0=adapter, 1=backend, 2=mac (when `show_mac`),
    /// 3=bridge/forwards (when `is_bridge` or `show_port_forwards`).
    pub fn max_editor_field(&self) -> (m: usize)
        ensures
            m == if self@.backend == "none"@ {
                1usize
            } else if self@.backend == "user"@ || self@.backend == "passt"@ || self@.backend
                == "bridge"@ {
                3usize
            } else {
                2usize
            },
    {
        if !self.show_mac() {
            1
        } else if self.show_port_forwards() || self.is_bridge() {
            3
        } else {
            2
        }
    }

    /// Human-readable backend description, e.g. `"bridge (vmc-lan)"`.
    pub fn backend_display(&self) -> (s: String)
        ensures
            s@ == backend_text(self@.backend, self@.bridge_name),
    {
        let b = self.backend.as_str();
        if str_eq(b, "user") {
            "user/SLIRP (NAT)".to_owned()
        } else if str_eq(b, "passt") {
            "passt".to_owned()
        } else if str_eq(b, "bridge") {
            let mut s = "bridge (".to_owned();
            match &self.bridge_name {
                Some(name) => s.append(name.as_str()),
                None => s.append("qemubr0"),
            }
            s.append(")");
            s
        } else if str_eq(b, "none") {
            "none".to_owned()
        } else {
            self.backend.clone()
        }
    }

    /// Short one-line summary, e.g. `"e1000 (bridge (vmc-lan))"` — used in
    /// NIC list rows.
    pub fn describe(&self) -> (s: String)
        ensures
            s@ == self@.model + " ("@ + backend_text(self@.backend, self@.bridge_name) + ")"@,
    {
        let mut s = self.model.clone();
        s.append(" (");
        let b = self.backend_display();
        s.append(b.as_str());
        s.append(")");
        s
    }
}

/// The NIC settings that a parsed network adapter stands for.
pub open spec fn nic_of_network(net: NetworkConfig) -> NicView {
    NicView {
        model: net.model@,
        backend: match net.backend {
            NetworkBackend::User => "user"@,
            NetworkBackend::Passt => "passt"@,
            NetworkBackend::Bridge(_) => "bridge"@,
            NetworkBackend::NoBackend => "none"@,
        },
        port_forwards: net.port_forwards@,
        bridge_name: match net.backend {
            NetworkBackend::Bridge(name) => Some(name@),
            _ => None,
        },
        mac_address: opt_view(net.mac_address),
    }
}

impl<'a> From<&'a NetworkConfig> for NicConfig {
    fn from(net: &'a NetworkConfig) -> (r: Self)
        ensures
            r@ == nic_of_network(*net),
    {
        let (backend, bridge_name) = match &net.backend {
            NetworkBackend::User => ("user".to_owned(), None),
            NetworkBackend::Passt => ("passt".to_owned(), None),
            NetworkBackend::Bridge(name) => ("bridge".to_owned(), Some(name.clone())),
            NetworkBackend::NoBackend => ("none".to_owned(), None),
        };
        let port_forwards = net.port_forwards.clone();
        assert(port_forwards@ =~= net.port_forwards@);
        Self {
            model: net.model.clone(),
            backend,
            port_forwards,
            bridge_name,
            mac_address: clone_opt(&net.mac_address),
        }
    }
}

impl<'a> vstd::std_specs::convert::FromSpecImpl<&'a NetworkConfig> for NicConfig {
    open spec fn obeys_from_spec() -> bool {
        false
    }

    open spec fn from_spec(v: &'a NetworkConfig) -> Self {
        choose|r: NicConfig| r@ == nic_of_network(*v)
    }
}

// ---------------------------------------------------------------------------
// QEMU settings
// ---------------------------------------------------------------------------

/// A filesystem path, carried through the wizard state unchanged.
#[verifier::external_type_specification]
#[verifier::external_body]
pub struct ExPathBuf(PathBuf);

/// `PathBuf::clone`, which derived `Clone` impls of the wizard state call;
/// nothing is claimed of the copy.
pub assume_specification[ <PathBuf as Clone>::clone ](p: &PathBuf) -> PathBuf;

/// QEMU configuration settings for the wizard
#[derive(Debug, Clone)]
pub struct WizardQemuConfig {
    /// QEMU emulator command
    pub emulator: String,
    /// RAM in megabytes
    pub memory_mb: u32,
    /// CPU cores
    pub cpu_cores: u32,
    /// CPU model (host, qemu64, pentium, etc.)
    pub cpu_model: Option<String>,
    /// Machine type (q35, pc, etc.)
    pub machine: Option<String>,
    /// Graphics adapter
    pub vga: String,
    /// Audio devices
    pub audio: Vec<String>,
    /// Network adapters attached to this VM (at least one)
    pub network_adapters: Vec<NicConfig>,
    /// Index into `network_adapters` of the adapter currently being edited
    pub active_nic: usize,
    /// Disk interface
    pub disk_interface: String,
    /// Enable KVM acceleration
    pub enable_kvm: bool,
    /// Enable 3D/GL acceleration (requires virtio-vga)
    pub gl_acceleration: bool,
    /// UEFI boot mode
    pub uefi: bool,
    /// TPM emulation
    pub tpm: bool,
    /// RTC uses local time (for Windows)
    pub rtc_localtime: bool,
    /// USB tablet for mouse
    pub usb_tablet: bool,
    /// Display output
    pub display: String,
    /// Additional QEMU arguments
    pub extra_args: Vec<String>,
    /// BIOS/ROM file path (for classic Mac and other systems needing custom firmware)
    pub bios_path: Option<PathBuf>,
}

pub open spec fn nics_view(s: Seq<NicConfig>) -> Seq<NicView> {
    s.map_values(|n: NicConfig| n@)
}

impl Default for WizardQemuConfig {
    fn default() -> (c: Self)
        ensures
            c.emulator@ == "qemu-system-x86_64"@,
            c.memory_mb == 2048,
            c.cpu_cores == 2,
            opt_view(c.cpu_model) == Some("host"@),
            opt_view(c.machine) == Some("q35"@),
            c.vga@ == "std"@,
            names_view(c.audio@) == seq!["intel-hda"@, "hda-duplex"@],
            nics_view(c.network_adapters@) == seq![
                NicView {
                    model: "e1000"@,
                    backend: "user"@,
                    port_forwards: Seq::empty(),
                    bridge_name: None,
                    mac_address: None,
                },
            ],
            c.active_nic == 0,
            c.disk_interface@ == "ide"@,
            c.enable_kvm,
            !c.gl_acceleration,
            !c.uefi,
            !c.tpm,
            !c.rtc_localtime,
            c.usb_tablet,
            c.display@ == "gtk"@,
            c.extra_args@.len() == 0,
            c.bios_path is None,
    {
        let c = Self {
            emulator: "qemu-system-x86_64".to_owned(),
            memory_mb: 2048,
            cpu_cores: 2,
            cpu_model: Some("host".to_owned()),
            machine: Some("q35".to_owned()),
            vga: "std".to_owned(),
            audio: vec!["intel-hda".to_owned(), "hda-duplex".to_owned()],
            network_adapters: vec![NicConfig::default()],
            active_nic: 0,
            disk_interface: "ide".to_owned(),
            enable_kvm: true,
            gl_acceleration: false,
            uefi: false,
            tpm: false,
            rtc_localtime: false,
            usb_tablet: true,
            display: "gtk".to_owned(),
            extra_args: Vec::new(),
            bios_path: None,
        };
        assert(names_view(c.audio@) =~= seq!["intel-hda"@, "hda-duplex"@]);
        assert(nics_view(c.network_adapters@) =~= seq![c.network_adapters@[0]@]);
        c
    }
}

/// Whether some argument asks for GL acceleration ("virtio-vga-gl" or "gl=on").
pub open spec fn wants_gl(args: Seq<Seq<char>>) -> bool {
    exists|i: int|
        0 <= i < args.len() && (has_substring(#[trigger] args[i], "virtio-vga-gl"@) || has_substring(
            args[i],
            "gl=on"@,
        ))
}

fn clone_names(v: &Vec<String>) -> (r: Vec<String>)
    ensures
        names_view(r@) == names_view(v@),
{
    let mut r: Vec<String> = Vec::new();
    let mut i: usize = 0;
    while i < v.len()
        invariant
            i <= v@.len(),
            names_view(r@) == names_view(v@).take(i as int),
        decreases v@.len() - i,
    {
        let ghost prev = r@;
        let s = v[i].clone();
        assert(s@ == v@[i as int]@);
        r.push(s);
        assert(names_view(r@) =~= names_view(prev).push(s@));
        assert(names_view(r@) =~= names_view(v@).take(i + 1));
        i += 1;
    }
    assert(names_view(v@).take(v@.len() as int) =~= names_view(v@));
    r
}

fn any_gl_arg(args: &Vec<String>) -> (b: bool)
    ensures
        b == wants_gl(names_view(args@)),
{
    let ghost av = names_view(args@);
    let mut i: usize = 0;
    while i < args.len()
        invariant
            av == names_view(args@),
            i <= args@.len(),
            forall|k: int|
                0 <= k < i ==> !(has_substring(#[trigger] av[k], "virtio-vga-gl"@) || has_substring(
                    av[k],
                    "gl=on"@,
                )),
        decreases args@.len() - i,
    {
        let a = args[i].as_str();
        if str_contains(a, "virtio-vga-gl") || str_contains(a, "gl=on") {
            assert(av[i as int] == args@[i as int]@);
            return true;
        }
        i += 1;
    }
    false
}

impl WizardQemuConfig {
    /// Create from a QEMU profile: every setting is taken from the profile,
    /// with a single NIC of the profile's model and backend, and GL
    /// acceleration on when some extra argument asks for it.
    pub fn from_profile(profile: &QemuProfile) -> (c: Self)
        ensures
            c.emulator@ == profile.emulator@,
            c.memory_mb == profile.memory_mb,
            c.cpu_cores == profile.cpu_cores,
            opt_view(c.cpu_model) == opt_view(profile.cpu_model),
            opt_view(c.machine) == opt_view(profile.machine),
            c.vga@ == profile.vga@,
            names_view(c.audio@) == names_view(profile.audio@),
            nics_view(c.network_adapters@) == seq![
                NicView {
                    model: profile.network_model@,
                    backend: profile.network_backend@,
                    port_forwards: Seq::empty(),
                    bridge_name: None,
                    mac_address: None,
                },
            ],
            c.active_nic == 0,
            c.disk_interface@ == profile.disk_interface@,
            c.enable_kvm == profile.enable_kvm,
            c.gl_acceleration == wants_gl(names_view(profile.extra_args@)),
            c.uefi == profile.uefi,
            c.tpm == profile.tpm,
            c.rtc_localtime == profile.rtc_localtime,
            c.usb_tablet == profile.usb_tablet,
            c.display@ == profile.display@,
            names_view(c.extra_args@) == names_view(profile.extra_args@),
            c.bios_path is None,
    {
        let gl_acceleration = any_gl_arg(&profile.extra_args);
        let nic = NicConfig {
            model: profile.network_model.clone(),
            backend: profile.network_backend.clone(),
            ..Default::default()
        };
        let c = Self {
            emulator: profile.emulator.clone(),
            memory_mb: profile.memory_mb,
            cpu_cores: profile.cpu_cores,
            cpu_model: clone_opt(&profile.cpu_model),
            machine: clone_opt(&profile.machine),
            vga: profile.vga.clone(),
            audio: clone_names(&profile.audio),
            network_adapters: vec![nic],
            active_nic: 0,
            disk_interface: profile.disk_interface.clone(),
            enable_kvm: profile.enable_kvm,
            gl_acceleration,
            uefi: profile.uefi,
            tpm: profile.tpm,
            rtc_localtime: profile.rtc_localtime,
            usb_tablet: profile.usb_tablet,
            display: profile.display.clone(),
            extra_args: clone_names(&profile.extra_args),
            bios_path: None,
        };
        assert(nics_view(c.network_adapters@) =~= seq![c.network_adapters@[0]@]);
        c
    }
}

// ---------------------------------------------------------------------------
// Custom OS entry and editable fields
// ---------------------------------------------------------------------------

/// Custom OS entry for when the user selects "Other". Some fields are
/// captured by the entry form but reserved for saving custom OS entries to
/// user metadata.
#[derive(Debug, Clone, Default)]
pub struct CustomOsEntry {
    pub id: String,
    pub name: String,
    pub publisher: String,
    pub release_date: Option<String>,
    pub architecture: String,
    pub short_blurb: String,
    pub long_blurb: String,
    pub fun_facts: Vec<String>,
    pub base_profile: String,
    pub save_to_user: bool,
}

/// Fields that can be edited in the wizard
#[derive(Debug, Clone, PartialEq, Eq)]
pub enum WizardField {
    VmName,
    OsFilter,
    DiskSize,
    MemoryMb,
    CpuCores,
    MacAddress,
    CustomOsId,
    CustomOsName,
    CustomOsPublisher,
    CustomOsReleaseDate,
    CustomOsShortBlurb,
    GroupName,
}

// ---------------------------------------------------------------------------
// Virtual network editor
// ---------------------------------------------------------------------------

/// Create/edit form state for the Virtual Network Manager screen
#[derive(Debug, Clone)]
pub struct VNetEditorState {
    /// Some(name) when editing an existing network (name is then read-only);
    /// None when creating a new one.
    pub original_name: Option<String>,
    pub name: String,
    pub kind: VNetKind,
    pub subnet: String,
    pub dhcp: bool,
    /// 0 = name, 1 = type, 2 = subnet, 3 = DHCP toggle
    pub field_focus: usize,
    /// True while a text field is being edited
    pub editing: bool,
    pub edit_buffer: String,
    pub error: Option<String>,
    /// (name, kind, subnet, dhcp) as they were when the editor was opened,
    /// to detect unsaved edits on Esc (see `dirty`). Only the editor's
    /// constructors can make one.
    pub baseline: VNetBaseline,
}

/// The form values of a virtual network editor at the moment it was opened.
#[derive(Debug, Clone)]
pub struct VNetBaseline {
    name: String,
    kind: VNetKind,
    subnet: String,
    dhcp: bool,
}

impl VNetBaseline {
    /// The form values it holds: name, kind, subnet and DHCP.
    pub closed spec fn values(&self) -> (Seq<char>, VNetKind, Seq<char>, bool) {
        (self.name@, self.kind, self.subnet@, self.dhcp)
    }
}

impl VNetEditorState {
    /// The form values as they were when the editor was opened.
    pub open spec fn baseline_view(&self) -> (Seq<char>, VNetKind, Seq<char>, bool) {
        self.baseline.values()
    }

    /// The current form values.
    pub open spec fn form_view(&self) -> (Seq<char>, VNetKind, Seq<char>, bool) {
        (self.name@, self.kind, self.subnet@, self.dhcp)
    }

    /// A blank form for a new NAT network on 192.168.150.0/24 with DHCP.
    pub fn new_network() -> (s: Self)
        ensures
            s.original_name is None,
            s.name@ == Seq::<char>::empty(),
            s.kind == VNetKind::Nat,
            s.subnet@ == "192.168.150.0/24"@,
            s.dhcp,
            s.field_focus == 0,
            !s.editing,
            s.edit_buffer@ == Seq::<char>::empty(),
            s.error is None,
            s.baseline_view() == s.form_view(),
    {
        let name = String::new();
        let kind = VNetKind::Nat;
        let subnet = "192.168.150.0/24".to_owned();
        let dhcp = true;
        Self {
            original_name: None,
            baseline: VNetBaseline { name: name.clone(), kind, subnet: subnet.clone(), dhcp },
            name,
            kind,
            subnet,
            dhcp,
            field_focus: 0,
            editing: false,
            edit_buffer: String::new(),
            error: None,
        }
    }

    /// A form for editing `net`, with focus on the type field (the name of
    /// an existing network is read-only).
    pub fn edit(net: &VirtualNetwork) -> (s: Self)
        ensures
            opt_view(s.original_name) == Some(net.name@),
            s.name@ == net.name@,
            s.kind == net.kind,
            s.subnet@ == net.subnet@,
            s.dhcp == net.dhcp,
            s.field_focus == 1,
            !s.editing,
            s.edit_buffer@ == Seq::<char>::empty(),
            s.error is None,
            s.baseline_view() == s.form_view(),
    {
        Self {
            original_name: Some(net.name.clone()),
            baseline: VNetBaseline {
                name: net.name.clone(),
                kind: net.kind,
                subnet: net.subnet.clone(),
                dhcp: net.dhcp,
            },
            name: net.name.clone(),
            kind: net.kind,
            subnet: net.subnet.clone(),
            dhcp: net.dhcp,
            field_focus: 1,
            editing: false,
            edit_buffer: String::new(),
            error: None,
        }
    }

    /// Whether the form differs from its state when opened.
    pub fn dirty(&self) -> (d: bool)
        ensures
            d == (self.form_view() != self.baseline_view()),
    {
        !(self.name == self.baseline.name && self.kind == self.baseline.kind && self.subnet
            == self.baseline.subnet && self.dhcp == self.baseline.dhcp)
    }
}

// ---------------------------------------------------------------------------
// Network settings screen state
// ---------------------------------------------------------------------------

/// State for network settings editing screen
#[derive(Debug, Clone)]
pub struct NetworkSettingsState {
    /// Network adapters attached to this VM (at least one)
    pub nics: Vec<NicConfig>,
    /// `nics` as last loaded from (or saved to) launch.sh, so the NIC
    /// list's Esc can detect and confirm unsaved changes before discarding.
    pub nics_baseline: Vec<NicConfig>,
    /// Index into `nics` of the adapter currently open in the field editor
    pub active_nic: usize,
    /// Row highlighted in the NIC list, in `0..nics.len()`.
    pub list_cursor: usize,
    /// `true` while the per-NIC field editor is open for `active_nic`;
    /// `false` while showing the NIC list.
    pub editing_nic: bool,
    /// `nics[active_nic]` as it was when the field editor was opened, so
    /// Esc can discard in-progress edits instead of keeping them.
    pub nic_snapshot: Option<NicConfig>,
    pub mac_edit_buffer: String,
    pub editing_mac: bool,
    pub selected_field: usize,
    pub editing_port_forwards: bool,
    pub pf_selected: usize,
    pub adding_pf: Option<AddingPortForward>,
}

/// State when adding a new port forward rule
#[derive(Debug, Clone)]
pub struct AddingPortForward {
    pub step: AddPfStep,
    pub protocol: PortProtocol,
    pub host_port_input: String,
    pub guest_port_input: String,
}

/// Steps when adding a port forward
#[derive(Debug, Clone, PartialEq, Eq, Structural)]
pub enum AddPfStep {
    Protocol,
    HostPort,
    GuestPort,
}

// ---------------------------------------------------------------------------
// VM import wizard
// ---------------------------------------------------------------------------

/// Source type for VM import
#[derive(Debug, Clone, PartialEq, Eq)]
pub enum ImportSource {
    Libvirt,
    Quickemu,
}

/// Disk handling action during import
#[derive(Debug, Clone, Copy, PartialEq, Eq, Default)]
pub enum ImportDiskAction {
    #[default]
    Symlink,
    Copy,
    Move,
}

/// Steps in the import wizard
#[derive(Debug, Clone, PartialEq, Eq, Default)]
pub enum ImportStep {
    #[default]
    SelectSource,
    SelectVm,
    CompatibilityWarnings,
    ConfigureDisk,
    ReviewAndImport,
}

/// A VM discovered from an external source that can be imported
#[derive(Debug, Clone)]
pub struct ImportableVm {
    pub name: String,
    pub config_path: PathBuf,
    pub source: ImportSource,
    pub qemu_config: WizardQemuConfig,
    pub disk_paths: Vec<PathBuf>,
    pub detected_os_profile: Option<String>,
    pub import_notes: Vec<String>,
    pub disks_readable: Vec<bool>,
}

/// State for the VM import wizard
#[derive(Debug, Clone)]
pub struct ImportWizardState {
    pub step: ImportStep,
    pub source: Option<ImportSource>,
    pub discovered_vms: Vec<ImportableVm>,
    pub selected_vm_index: usize,
    pub selected_vm: Option<ImportableVm>,
    pub vm_name: String,
    pub folder_name: String,
    pub disk_action: ImportDiskAction,
    /// Which group the imported VM should join; `Default` uses its OS category.
    pub group_choice: GroupChoice,
    pub field_focus: usize,
    pub error_message: Option<String>,
    pub editing_name: bool,
    pub editing_group_name: bool,
    pub group_name_buffer: String,
    pub warnings_acknowledged: bool,
}

impl Default for ImportWizardState {
    fn default() -> (s: Self)
        ensures
            s.step == ImportStep::SelectSource,
            s.source is None,
            s.discovered_vms@.len() == 0,
            s.selected_vm_index == 0,
            s.selected_vm is None,
            s.vm_name@ == Seq::<char>::empty(),
            s.folder_name@ == Seq::<char>::empty(),
            s.disk_action == ImportDiskAction::Symlink,
            s.group_choice@ == GroupChoiceView::Default,
            s.field_focus == 0,
            s.error_message is None,
            !s.editing_name,
            !s.editing_group_name,
            s.group_name_buffer@ == Seq::<char>::empty(),
            !s.warnings_acknowledged,
    {
        Self {
            step: ImportStep::SelectSource,
            source: None,
            discovered_vms: Vec::new(),
            selected_vm_index: 0,
            selected_vm: None,
            vm_name: String::new(),
            folder_name: String::new(),
            disk_action: ImportDiskAction::Symlink,
            group_choice: GroupChoice::Default,
            field_focus: 0,
            error_message: None,
            editing_name: false,
            editing_group_name: false,
            group_name_buffer: String::new(),
            warnings_acknowledged: false,
        }
    }
}

} // verus!
