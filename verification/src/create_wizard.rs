//! Decisions of the VM creation wizard: the folder name derived from a VM's
//! display name, the checks that gate each step, and the expanded state of
//! the OS categories.

use vstd::prelude::*;
use crate::chars::{
    char_alphanumeric, chars_of, decimal, is_alphanumeric, is_whitespace, is_ws, push_char,
    push_decimal, str_eq, str_lowercase, to_lowercase,
};
use crate::seqs::{equal_to, first_index, lemma_first_index};
use crate::wizard_types::{WizardDiskSource, WizardStep, names_view};

verus! {

// ---------------------------------------------------------------------------
// Folder names
// ---------------------------------------------------------------------------

/// The alphanumeric runs of `s`, joined by single hyphens.
pub open spec fn folder_slug(s: Seq<char>) -> Seq<char>
    decreases s.len(),
{
    if s.len() == 0 {
        Seq::empty()
    } else {
        let prev = folder_slug(s.drop_last());
        let c = s.last();
        if !char_alphanumeric(c) {
            prev
        } else if s.len() >= 2 && !char_alphanumeric(s[s.len() - 2]) && prev.len() > 0 {
            prev.push('-').push(c)
        } else {
            prev.push(c)
        }
    }
}

/// Folder name for a VM display name: lowercase it, and join its
/// alphanumeric runs with single hyphens.
pub fn generate_folder_name(display_name: &str) -> (r: String)
    ensures
        r@ == folder_slug(str_lowercase(display_name@)),
{
    let lower = to_lowercase(display_name);
    folder_name_from_lowercase(lower.as_str())
}

/// The folder name for an already-lowercased display name.
pub fn folder_name_from_lowercase(lower: &str) -> (r: String)
    ensures
        r@ == folder_slug(lower@),
{
    let v = chars_of(lower);
    let ghost s = v@;
    let mut out = String::new();
    let mut emitted = false;
    let mut prev_alnum = false;
    let mut i: usize = 0;
    assert(s.take(0) =~= Seq::<char>::empty());
    while i < v.len()
        invariant
            s == v@,
            i <= s.len(),
            out@ == folder_slug(s.take(i as int)),
            emitted == (out@.len() > 0),
            prev_alnum == (i > 0 && char_alphanumeric(s[i - 1])),
        decreases s.len() - i,
    {
        let c = v[i];
        let alnum = is_alphanumeric(c);
        assert(s.take(i + 1).drop_last() =~= s.take(i as int));
        if alnum {
            if i >= 1 && !prev_alnum && emitted {
                push_char(&mut out, '-');
            }
            push_char(&mut out, c);
            emitted = true;
        }
        prev_alnum = alnum;
        i += 1;
    }
    assert(s.take(s.len() as int) =~= s);
    out
}

/// Whether a character may stand in a folder name.
pub open spec fn slug_char(c: char) -> bool {
    c == '-' || char_alphanumeric(c)
}

/// A folder name never starts or ends with a hyphen, never holds two
/// hyphens in a row, and holds only alphanumeric characters and hyphens.
pub open spec fn well_formed_slug(s: Seq<char>) -> bool {
    &&& forall|i: int| 0 <= i < s.len() ==> slug_char(#[trigger] s[i])
    &&& s.len() > 0 ==> s[0] != '-' && s[s.len() - 1] != '-'
    &&& forall|i: int| 0 <= i < s.len() - 1 ==> !(#[trigger] s[i] == '-' && s[i + 1] == '-')
}

proof fn lemma_slug_shape(s: Seq<char>)
    ensures
        forall|i: int| 0 <= i < folder_slug(s).len() ==> slug_char(#[trigger] folder_slug(s)[i]),
        folder_slug(s).len() > 0 ==> char_alphanumeric(folder_slug(s)[0]) && char_alphanumeric(
            folder_slug(s)[folder_slug(s).len() - 1],
        ),
        forall|i: int|
            0 <= i < folder_slug(s).len() - 1 ==> !(#[trigger] folder_slug(s)[i] == '-' && folder_slug(
                s,
            )[i + 1] == '-' && char_alphanumeric(folder_slug(s)[i]) == false),
    decreases s.len(),
{
    if s.len() > 0 {
        let prev = folder_slug(s.drop_last());
        lemma_slug_shape(s.drop_last());
        let r = folder_slug(s);
        let c = s.last();
        if char_alphanumeric(c) {
            if s.len() >= 2 && !char_alphanumeric(s[s.len() - 2]) && prev.len() > 0 {
                assert(r == prev.push('-').push(c));
                assert(r[prev.len() as int] == '-');
                assert(r[prev.len() - 1] == prev[prev.len() - 1]);
                assert forall|i: int| 0 <= i < r.len() - 1 implies !(#[trigger] r[i] == '-' && r[i + 1]
                    == '-' && char_alphanumeric(r[i]) == false) by {
                    if i < prev.len() - 1 {
                        assert(r[i] == prev[i] && r[i + 1] == prev[i + 1]);
                    }
                }
                assert forall|i: int| 0 <= i < r.len() implies slug_char(#[trigger] r[i]) by {
                    if i < prev.len() {
                        assert(r[i] == prev[i]);
                    }
                }
                assert(r[0] == prev[0]);
            } else {
                assert(r == prev.push(c));
                assert forall|i: int| 0 <= i < r.len() - 1 implies !(#[trigger] r[i] == '-' && r[i + 1]
                    == '-' && char_alphanumeric(r[i]) == false) by {
                    if i < prev.len() - 1 {
                        assert(r[i] == prev[i] && r[i + 1] == prev[i + 1]);
                    }
                }
                assert forall|i: int| 0 <= i < r.len() implies slug_char(#[trigger] r[i]) by {
                    if i < prev.len() {
                        assert(r[i] == prev[i]);
                    }
                }
                if prev.len() > 0 {
                    assert(r[0] == prev[0]);
                }
            }
        }
    }
}

/// Every generated folder name is well formed (see `well_formed_slug`),
/// whatever the display name: this rests on `-` not being alphanumeric,
/// which `char::is_alphanumeric` reports.
pub proof fn law_folder_names_are_well_formed(s: Seq<char>)
    requires
        !char_alphanumeric('-'),
    ensures
        well_formed_slug(folder_slug(s)),
{
    lemma_slug_shape(s);
    let r = folder_slug(s);
    assert forall|i: int| 0 <= i < r.len() - 1 implies !(#[trigger] r[i] == '-' && r[i + 1] == '-') by {
        if r[i] == '-' {
            assert(!char_alphanumeric(r[i]));
        }
    }
}

/// Name to try on the `attempt`-th probe for a free folder: the base name
/// first, then `base-2` up to `base-1000`.
pub open spec fn folder_candidate_name(base: Seq<char>, attempt: nat) -> Seq<char> {
    if attempt <= 1 {
        base
    } else {
        base + "-"@ + decimal(attempt)
    }
}

/// The name used when the base name and all its numbered variants are taken.
pub open spec fn folder_fallback_name(base: Seq<char>) -> Seq<char> {
    base + "-error-too-many-vms"@
}

/// The folder name to try at `attempt` (counting from 1), and whether it
/// still has to be checked against the library: attempts 1 to 1000 are
/// probes, after that the fallback name is used as it is.
pub fn folder_candidate(base: &str, attempt: u32) -> (r: (String, bool))
    ensures
        r.1 == (attempt <= 1000),
        r.1 ==> r.0@ == folder_candidate_name(base@, attempt as nat),
        !r.1 ==> r.0@ == folder_fallback_name(base@),
{
    let mut name = base.to_owned();
    if attempt > 1000 {
        name.append("-error-too-many-vms");
        return (name, false);
    }
    if attempt > 1 {
        name.append("-");
        push_decimal(&mut name, attempt as u64);
    }
    (name, true)
}

// ---------------------------------------------------------------------------
// Step checks
// ---------------------------------------------------------------------------

/// A path the wizard refers to, as shown to the user, and whether it exists.
pub struct CheckedPath {
    pub display: String,
    pub exists: bool,
}

/// What the step checks read from the wizard state.
pub struct WizardCheck {
    pub step: WizardStep,
    pub vm_name: String,
    pub has_selected_os: bool,
    pub has_custom_os: bool,
    pub disk_source: WizardDiskSource,
    pub existing_disk: Option<CheckedPath>,
    pub disk_size_gb: u32,
    pub physical_disk: Option<CheckedPath>,
    pub machine: Option<String>,
    pub memory_mb: u32,
    pub cpu_cores: u32,
}

pub open spec fn all_whitespace(s: Seq<char>) -> bool {
    forall|i: int| 0 <= i < s.len() ==> is_ws(#[trigger] s[i])
}

pub open spec fn has_prefix(s: Seq<char>, p: Seq<char>) -> bool {
    p.len() <= s.len() && s.subrange(0, p.len() as int) == p
}

/// Whether a machine type is a classic Mac one (no physical disk passthrough).
pub open spec fn mac_machine(machine: Option<String>) -> bool {
    match machine {
        Some(m) => has_prefix(m@, "q800"@) || has_prefix(m@, "mac99"@),
        None => false,
    }
}

/// Whether the wizard may leave its current step, and if not, why.
pub open spec fn check_verdict(c: WizardCheck) -> Result<(), Seq<char>> {
    match c.step {
        WizardStep::SelectOs => if all_whitespace(c.vm_name@) {
            Err("Please enter a VM name"@)
        } else if !c.has_selected_os && !c.has_custom_os {
            Err("Please select an operating system"@)
        } else {
            Ok(())
        },
        WizardStep::SelectIso => Ok(()),
        WizardStep::ConfigureDisk => match c.disk_source {
            WizardDiskSource::ExistingImage => match c.existing_disk {
                None => Err("Please select an existing disk"@),
                Some(p) => if !p.exists {
                    Err("Disk file not found: "@ + p.display@)
                } else {
                    Ok(())
                },
            },
            WizardDiskSource::NewImage => if c.disk_size_gb == 0 {
                Err("Disk size must be greater than 0"@)
            } else if c.disk_size_gb > 10000 {
                Err("Disk size cannot exceed 10TB"@)
            } else {
                Ok(())
            },
            WizardDiskSource::PhysicalDevice => match c.physical_disk {
                None => Err("Please select a physical disk"@),
                Some(p) => if !p.exists {
                    Err("Physical disk not found: "@ + p.display@)
                } else if mac_machine(c.machine) {
                    Err("Physical disk passthrough is not supported for this machine type"@)
                } else {
                    Ok(())
                },
            },
        },
        WizardStep::ConfigureQemu => if c.memory_mb == 0 {
            Err("Memory must be greater than 0"@)
        } else if c.cpu_cores == 0 {
            Err("CPU cores must be greater than 0"@)
        } else {
            Ok(())
        },
        WizardStep::Confirm => Ok(()),
    }
}

fn is_blank(s: &str) -> (b: bool)
    ensures
        b == all_whitespace(s@),
{
    let v = chars_of(s);
    let mut i: usize = 0;
    while i < v.len()
        invariant
            v@ == s@,
            i <= v.len(),
            forall|k: int| 0 <= k < i ==> is_ws(#[trigger] v@[k]),
        decreases v.len() - i,
    {
        if !is_whitespace(v[i]) {
            return false;
        }
        i += 1;
    }
    true
}

fn starts_with(s: &str, p: &str) -> (b: bool)
    ensures
        b == has_prefix(s@, p@),
{
    let vs = chars_of(s);
    let vp = chars_of(p);
    if vp.len() > vs.len() {
        return false;
    }
    let mut i: usize = 0;
    while i < vp.len()
        invariant
            vs@ == s@,
            vp@ == p@,
            vp.len() <= vs.len(),
            i <= vp.len(),
            forall|k: int| 0 <= k < i ==> vs@[k] == vp@[k],
        decreases vp.len() - i,
    {
        if vs[i] != vp[i] {
            assert(vs@.subrange(0, vp@.len() as int)[i as int] != vp@[i as int]);
            return false;
        }
        i += 1;
    }
    assert(vs@.subrange(0, vp@.len() as int) =~= vp@);
    true
}

fn err_with(prefix: &str, detail: &String) -> (r: Result<(), String>)
    ensures
        r matches Err(e) && e@ == prefix@ + detail@,
{
    let mut m = prefix.to_owned();
    m.append(detail.as_str());
    Err(m)
}

fn err(msg: &str) -> (r: Result<(), String>)
    ensures
        r matches Err(e) && e@ == msg@,
{
    Err(msg.to_owned())
}

/// Whether the wizard may leave its current step: `Ok` when it may,
/// else the message that tells the user what is missing.
pub fn can_proceed(c: &WizardCheck) -> (r: Result<(), String>)
    ensures
        match (r, check_verdict(*c)) {
            (Ok(()), Ok(())) => true,
            (Err(m), Err(e)) => m@ == e,
            _ => false,
        },
{
    match c.step {
        WizardStep::SelectOs => {
            if is_blank(c.vm_name.as_str()) {
                return err("Please enter a VM name");
            }
            if !c.has_selected_os && !c.has_custom_os {
                return err("Please select an operating system");
            }
            Ok(())
        },
        WizardStep::SelectIso => Ok(()),
        WizardStep::ConfigureDisk => {
            match c.disk_source {
                WizardDiskSource::ExistingImage => match &c.existing_disk {
                    None => return err("Please select an existing disk"),
                    Some(path) => {
                        if !path.exists {
                            return err_with("Disk file not found: ", &path.display);
                        }
                    },
                },
                WizardDiskSource::NewImage => {
                    if c.disk_size_gb == 0 {
                        return err("Disk size must be greater than 0");
                    }
                    if c.disk_size_gb > 10000 {
                        return err("Disk size cannot exceed 10TB");
                    }
                },
                WizardDiskSource::PhysicalDevice => {
                    let disk = match &c.physical_disk {
                        None => return err("Please select a physical disk"),
                        Some(d) => d,
                    };
                    if !disk.exists {
                        return err_with("Physical disk not found: ", &disk.display);
                    }
                    if let Some(machine) = &c.machine {
                        if starts_with(machine.as_str(), "q800") || starts_with(machine.as_str(), "mac99") {
                            return err("Physical disk passthrough is not supported for this machine type");
                        }
                    }
                },
            }
            Ok(())
        },
        WizardStep::ConfigureQemu => {
            if c.memory_mb == 0 {
                return err("Memory must be greater than 0");
            }
            if c.cpu_cores == 0 {
                return err("CPU cores must be greater than 0");
            }
            Ok(())
        },
        WizardStep::Confirm => Ok(()),
    }
}

// ---------------------------------------------------------------------------
// OS categories
// ---------------------------------------------------------------------------

/// The expanded categories after toggling `c`: its first occurrence
/// removed when it is there, else `c` appended.
pub open spec fn toggled_categories(before: Seq<Seq<char>>, c: Seq<char>) -> Seq<Seq<char>> {
    let i = first_index(before, equal_to(c));
    if i >= 0 {
        before.remove(i)
    } else {
        before.push(c)
    }
}

/// Toggles whether `category` is expanded in the OS list (see
/// [`toggled_categories`]).
pub fn toggle_category(expanded: &mut Vec<String>, category: &str)
    ensures
        names_view(final(expanded)@) == toggled_categories(names_view(old(expanded)@), category@),
{
    let ghost before = names_view(expanded@);
    let ghost p = equal_to(category@);
    let mut i: usize = 0;
    while i < expanded.len()
        invariant
            before == names_view(expanded@),
            before == names_view(old(expanded)@),
            p == equal_to(category@),
            i <= expanded@.len(),
            forall|j: int| 0 <= j < i ==> !p(#[trigger] before[j]),
        decreases expanded@.len() - i,
    {
        assert(before[i as int] == expanded@[i as int]@);
        if str_eq(expanded[i].as_str(), category) {
            proof {
                lemma_first_index(before, p, i as int);
            }
            expanded.remove(i);
            assert(names_view(expanded@) =~= before.remove(i as int));
            return;
        }
        i += 1;
    }
    proof {
        lemma_first_index(before, p, i as int);
    }
    expanded.push(category.to_owned());
    assert(names_view(expanded@) =~= before.push(category@));
}

/// Whether `category` is expanded in the OS list.
pub fn is_category_expanded(expanded: &[String], category: &str) -> (b: bool)
    ensures
        b == names_view(expanded@).contains(category@),
{
    let ghost v = names_view(expanded@);
    let mut i: usize = 0;
    while i < expanded.len()
        invariant
            v == names_view(expanded@),
            i <= expanded@.len(),
            forall|j: int| 0 <= j < i ==> v[j] != category@,
        decreases expanded@.len() - i,
    {
        assert(v[i as int] == expanded@[i as int]@);
        if str_eq(expanded[i].as_str(), category) {
            return true;
        }
        i += 1;
    }
    false
}

/// Toggling a category that is not expanded twice gives back the list it
/// started from; in between, the category is expanded.
pub proof fn law_toggle_twice_restores_collapsed(before: Seq<Seq<char>>, category: Seq<char>)
    requires
        !before.contains(category),
    ensures
        toggled_categories(before, category).contains(category),
        toggled_categories(toggled_categories(before, category), category) == before,
{
    let p = equal_to(category);
    assert forall|j: int| 0 <= j < before.len() implies !p(#[trigger] before[j]) by {
        if p(before[j]) {
            assert(before.contains(category));
        }
    }
    lemma_first_index(before, p, before.len() as int);
    let once = before.push(category);
    assert(once[before.len() as int] == category);
    assert forall|j: int| 0 <= j < before.len() implies !p(#[trigger] once[j]) by {
        assert(once[j] == before[j]);
    }
    lemma_first_index(once, p, before.len() as int);
    assert(once.remove(before.len() as int) =~= before);
}

} // verus!
