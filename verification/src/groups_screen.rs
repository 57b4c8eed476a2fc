//! Decisions of the VM Groups screen and the Group Members screen: how a key
//! moves the selection and what it asks of the caller, plus the texts both
//! screens show.

use vstd::prelude::*;
use crate::chars::{decimal, push_decimal};
use crate::keys::Key;

verus! {

/// What the Groups screen asks of its caller after a key.
#[derive(Debug, Clone, Copy, PartialEq, Eq, Structural)]
pub enum GroupsAction {
    /// Nothing beyond the selection change.
    Stay,
    /// Leave the screen.
    Back,
    /// Move the selected group one place down in the order.
    MoveSelectedDown,
    /// Move the selected group one place up in the order.
    MoveSelectedUp,
    /// Ask for the name of a new group (starting from an empty entry).
    CreateGroup,
    /// Ask for a new name for the selected group (starting from its name).
    RenameGroup,
    /// Ask before deleting the selected group.
    DeleteGroup,
    /// Open the members of the selected group.
    OpenMembers,
}

/// The selection after a "down" key in a list of `count` entries.
pub open spec fn selection_down(selected: int, count: int) -> int {
    if count > 0 && selected + 1 < count { selected + 1 } else { selected }
}

/// The selection after an "up" key.
pub open spec fn selection_up(selected: int) -> int {
    if selected > 0 { selected - 1 } else { selected }
}

/// The Groups screen's response to a key, with `count` groups and the one
/// at `selected` (if there is one) selected.
pub open spec fn groups_step(selected: int, count: int, key: Key) -> (int, GroupsAction) {
    let has = 0 <= selected < count;
    match key {
        Key::Esc => (selected, GroupsAction::Back),
        Key::Char('J') => (selected, GroupsAction::MoveSelectedDown),
        Key::Char('K') => (selected, GroupsAction::MoveSelectedUp),
        Key::Char('j') | Key::Down => (selection_down(selected, count), GroupsAction::Stay),
        Key::Char('k') | Key::Up => (selection_up(selected), GroupsAction::Stay),
        Key::Char('c') | Key::Char('C') => (selected, GroupsAction::CreateGroup),
        Key::Char('r') | Key::Char('R') => (selected, if has { GroupsAction::RenameGroup } else { GroupsAction::Stay }),
        Key::Char('d') | Key::Char('D') => (selected, if has { GroupsAction::DeleteGroup } else { GroupsAction::Stay }),
        Key::Enter => (selected, if has { GroupsAction::OpenMembers } else { GroupsAction::Stay }),
        _ => (selected, GroupsAction::Stay),
    }
}

fn move_down(selected: usize, count: usize) -> (r: usize)
    ensures
        r == selection_down(selected as int, count as int),
{
    if count > 0 && selected < count - 1 {
        selected + 1
    } else {
        selected
    }
}

fn move_up(selected: usize) -> (r: usize)
    ensures
        r == selection_up(selected as int),
{
    if selected > 0 {
        selected - 1
    } else {
        selected
    }
}

/// Handle a key on the Groups screen: the new selection and the action
/// (see [`groups_step`]).
pub fn groups_handle_key(selected: usize, count: usize, key: Key) -> (r: (usize, GroupsAction))
    ensures
        (r.0 as int, r.1) == groups_step(selected as int, count as int, key),
{
    let has = selected < count;
    match key {
        Key::Esc => (selected, GroupsAction::Back),
        Key::Char('J') => (selected, GroupsAction::MoveSelectedDown),
        Key::Char('K') => (selected, GroupsAction::MoveSelectedUp),
        Key::Char('j') | Key::Down => (move_down(selected, count), GroupsAction::Stay),
        Key::Char('k') | Key::Up => (move_up(selected), GroupsAction::Stay),
        Key::Char('c') | Key::Char('C') => (selected, GroupsAction::CreateGroup),
        Key::Char('r') | Key::Char('R') => (selected, if has { GroupsAction::RenameGroup } else { GroupsAction::Stay }),
        Key::Char('d') | Key::Char('D') => (selected, if has { GroupsAction::DeleteGroup } else { GroupsAction::Stay }),
        Key::Enter => (selected, if has { GroupsAction::OpenMembers } else { GroupsAction::Stay }),
        _ => (selected, GroupsAction::Stay),
    }
}

/// What the Group Members screen asks of its caller after a key.
#[derive(Debug, Clone, Copy, PartialEq, Eq, Structural)]
pub enum MembersAction {
    /// Nothing beyond the selection change.
    Stay,
    /// Save the groups and leave the screen.
    SaveAndBack,
    /// Toggle whether the VM at this position belongs to the group.
    Toggle(usize),
}

/// The Group Members screen's response to a key, with `vm_count` VMs listed
/// and the one at `selected` (if there is one) selected.
pub open spec fn members_step(selected: int, vm_count: int, key: Key) -> (int, MembersAction) {
    match key {
        Key::Esc => (selected, MembersAction::SaveAndBack),
        Key::Char('j') | Key::Down => (selection_down(selected, vm_count), MembersAction::Stay),
        Key::Char('k') | Key::Up => (selection_up(selected), MembersAction::Stay),
        Key::Char(' ') => (
            selected,
            if 0 <= selected < vm_count { MembersAction::Toggle(selected as usize) } else { MembersAction::Stay },
        ),
        _ => (selected, MembersAction::Stay),
    }
}

/// Handle a key on the Group Members screen (see [`members_step`]).
pub fn members_handle_key(selected: usize, vm_count: usize, key: Key) -> (r: (usize, MembersAction))
    ensures
        (r.0 as int, r.1) == members_step(selected as int, vm_count as int, key),
{
    match key {
        Key::Esc => (selected, MembersAction::SaveAndBack),
        Key::Char('j') | Key::Down => (move_down(selected, vm_count), MembersAction::Stay),
        Key::Char('k') | Key::Up => (move_up(selected), MembersAction::Stay),
        Key::Char(' ') => (
            selected,
            if selected < vm_count { MembersAction::Toggle(selected) } else { MembersAction::Stay },
        ),
        _ => (selected, MembersAction::Stay),
    }
}

/// A key never moves the selection out of a non-empty list, on either
/// screen: a selection inside the list stays inside it.
pub proof fn law_selection_stays_in_list(selected: int, count: int, key: Key)
    requires
        0 <= selected < count,
    ensures
        0 <= groups_step(selected, count, key).0 < count,
        0 <= members_step(selected, count, key).0 < count,
{
}

/// A "down" key followed by an "up" key returns to the selection, unless
/// the selection was already on the last entry.
pub proof fn law_down_then_up_returns(selected: int, count: int)
    requires
        0 <= selected,
        selected + 1 < count,
    ensures
        groups_step(groups_step(selected, count, Key::Down).0, count, Key::Up).0 == selected,
        members_step(members_step(selected, count, Key::Down).0, count, Key::Up).0 == selected,
{
}

/// The count shown beside a group: "1 VM" or "<n> VMs".
pub open spec fn vm_count_label(n: nat) -> Seq<char> {
    if n == 1 { "1 VM"@ } else { decimal(n) + " VMs"@ }
}

/// The count shown beside a group (see [`vm_count_label`]).
pub fn group_vm_count_label(n: usize) -> (s: String)
    ensures
        s@ == vm_count_label(n as nat),
{
    if n == 1 {
        return "1 VM".to_owned();
    }
    let mut s = String::new();
    push_decimal(&mut s, n as u64);
    s.append(" VMs");
    s
}

/// The Groups dialog's title.
pub fn groups_title(n: usize) -> (s: String)
    ensures
        s@ == " Groups ("@ + decimal(n as nat) + " defined) "@,
{
    let mut s = " Groups (".to_owned();
    push_decimal(&mut s, n as u64);
    s.append(" defined) ");
    s
}

/// The Group Members dialog's title, for the selected group's name (or
/// "Group" when none is selected).
pub fn members_title(group_name: Option<&str>) -> (s: String)
    ensures
        s@ == " "@ + (match group_name { Some(n) => n@, None => "Group"@ }) + " — Members "@,
{
    let mut s = " ".to_owned();
    match group_name {
        Some(n) => s.append(n),
        None => s.append("Group"),
    }
    s.append(" — Members ");
    s
}

/// The box in front of a VM on the Group Members screen.
pub fn member_checkbox(is_member: bool) -> (s: &'static str)
    ensures
        s@ == if is_member { "[x] "@ } else { "[ ] "@ },
{
    if is_member { "[x] " } else { "[ ] " }
}

} // verus!
