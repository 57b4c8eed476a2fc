use vm_curator::groups_screen::{
    group_vm_count_label, groups_handle_key, groups_title, member_checkbox,
    members_handle_key, members_title, GroupsAction, MembersAction,
};
use vm_curator::keys::Key;
use vm_curator::management::Area;
use vm_curator::management_view::dialog_area;

#[test]
fn groups_navigation_stays_inside_the_list() {
    assert_eq!(groups_handle_key(0, 3, Key::Down), (1, GroupsAction::Stay));
    assert_eq!(groups_handle_key(2, 3, Key::Char('j')), (2, GroupsAction::Stay));
    assert_eq!(groups_handle_key(0, 0, Key::Down), (0, GroupsAction::Stay));
    assert_eq!(groups_handle_key(2, 3, Key::Up), (1, GroupsAction::Stay));
    assert_eq!(groups_handle_key(0, 3, Key::Char('k')), (0, GroupsAction::Stay));
}

#[test]
fn groups_keys_ask_for_actions() {
    assert_eq!(groups_handle_key(1, 3, Key::Esc), (1, GroupsAction::Back));
    assert_eq!(groups_handle_key(1, 3, Key::Char('J')), (1, GroupsAction::MoveSelectedDown));
    assert_eq!(groups_handle_key(1, 3, Key::Char('K')), (1, GroupsAction::MoveSelectedUp));
    assert_eq!(groups_handle_key(1, 3, Key::Char('c')), (1, GroupsAction::CreateGroup));
    assert_eq!(groups_handle_key(0, 0, Key::Char('C')), (0, GroupsAction::CreateGroup));
    assert_eq!(groups_handle_key(1, 3, Key::Char('R')), (1, GroupsAction::RenameGroup));
    assert_eq!(groups_handle_key(1, 3, Key::Char('d')), (1, GroupsAction::DeleteGroup));
    assert_eq!(groups_handle_key(1, 3, Key::Enter), (1, GroupsAction::OpenMembers));
    assert_eq!(groups_handle_key(1, 3, Key::Char('x')), (1, GroupsAction::Stay));
}

#[test]
fn group_actions_need_a_selected_group() {
    assert_eq!(groups_handle_key(0, 0, Key::Char('r')), (0, GroupsAction::Stay));
    assert_eq!(groups_handle_key(0, 0, Key::Char('D')), (0, GroupsAction::Stay));
    assert_eq!(groups_handle_key(0, 0, Key::Enter), (0, GroupsAction::Stay));
}

#[test]
fn members_keys() {
    assert_eq!(members_handle_key(0, 2, Key::Esc), (0, MembersAction::SaveAndBack));
    assert_eq!(members_handle_key(0, 2, Key::Down), (1, MembersAction::Stay));
    assert_eq!(members_handle_key(1, 2, Key::Down), (1, MembersAction::Stay));
    assert_eq!(members_handle_key(1, 2, Key::Char('k')), (0, MembersAction::Stay));
    assert_eq!(members_handle_key(1, 2, Key::Char(' ')), (1, MembersAction::Toggle(1)));
    assert_eq!(members_handle_key(0, 0, Key::Char(' ')), (0, MembersAction::Stay));
    assert_eq!(members_handle_key(0, 2, Key::Enter), (0, MembersAction::Stay));
}

#[test]
fn group_labels() {
    assert_eq!(group_vm_count_label(0), "0 VMs");
    assert_eq!(group_vm_count_label(1), "1 VM");
    assert_eq!(group_vm_count_label(12), "12 VMs");
    assert_eq!(groups_title(3), " Groups (3 defined) ");
    assert_eq!(members_title(Some("Servers")), " Servers — Members ");
    assert_eq!(members_title(None), " Group — Members ");
    assert_eq!(member_checkbox(true), "[x] ");
    assert_eq!(member_checkbox(false), "[ ] ");
}

#[test]
fn group_dialog_is_centered_and_bounded() {
    let r = dialog_area(66, 22, Area { x: 0, y: 0, width: 100, height: 40 });
    assert_eq!((r.x, r.y, r.width, r.height), (17, 9, 66, 22));
    let r = dialog_area(66, 22, Area { x: 0, y: 0, width: 50, height: 20 });
    assert_eq!((r.x, r.y, r.width, r.height), (2, 2, 46, 16));
    let r = dialog_area(66, 22, Area { x: 0, y: 0, width: 3, height: 2 });
    assert_eq!((r.x, r.y, r.width, r.height), (1, 1, 0, 0));
}
