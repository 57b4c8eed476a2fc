use std::collections::{HashMap, HashSet};
use vm_curator::groups::{assign_to_category_groups, prune_stale, VmGroup};

#[test]
fn vm_group_contains_checks_membership() {
    let group = VmGroup {
        name: "Servers".to_string(),
        vm_ids: vec!["debian-12".to_string()],
    };
    assert!(group.contains("debian-12"));
    assert!(!group.contains("ubuntu-24-04"));
}

#[test]
fn prune_stale_removes_missing_vm_ids_only() {
    let mut groups = vec![
        VmGroup {
            name: "Servers".to_string(),
            vm_ids: vec!["debian-12".to_string(), "deleted-vm".to_string()],
        },
        VmGroup {
            name: "Desktops".to_string(),
            vm_ids: vec!["deleted-vm".to_string()],
        },
    ];
    let valid_ids: HashSet<&str> = ["debian-12"].into_iter().collect();

    let changed = prune_stale(&mut groups, &valid_ids);

    assert!(changed);
    assert_eq!(groups[0].vm_ids, vec!["debian-12".to_string()]);
    assert!(groups[1].vm_ids.is_empty());
}

#[test]
fn prune_stale_no_op_when_all_ids_valid() {
    let mut groups = vec![VmGroup {
        name: "Servers".to_string(),
        vm_ids: vec!["debian-12".to_string()],
    }];
    let valid_ids: HashSet<&str> = ["debian-12", "ubuntu-24-04"].into_iter().collect();

    let changed = prune_stale(&mut groups, &valid_ids);

    assert!(!changed);
    assert_eq!(groups[0].vm_ids, vec!["debian-12".to_string()]);
}

#[test]
fn new_group_is_empty_and_named() {
    let g = VmGroup::new("Desktops");
    assert_eq!(g.name, "Desktops");
    assert!(g.vm_ids.is_empty());
}

#[test]
fn prune_stale_twice_reports_no_second_change() {
    let mut groups = vec![VmGroup {
        name: "Servers".to_string(),
        vm_ids: vec!["a".to_string(), "gone".to_string(), "b".to_string()],
    }];
    let valid_ids: HashSet<&str> = ["a", "b"].into_iter().collect();
    assert!(prune_stale(&mut groups, &valid_ids));
    assert_eq!(groups[0].vm_ids, vec!["a".to_string(), "b".to_string()]);
    assert!(!prune_stale(&mut groups, &valid_ids));
    assert_eq!(groups[0].vm_ids, vec!["a".to_string(), "b".to_string()]);
    assert_eq!(groups[0].name, "Servers");
}

fn order() -> HashMap<String, i32> {
    let mut m = HashMap::new();
    m.insert("Windows".to_string(), 0);
    m.insert("Linux".to_string(), 1);
    m.insert("BSD".to_string(), 2);
    m
}

#[test]
fn assign_creates_category_groups_in_rank_order() {
    let mut groups: Vec<VmGroup> = Vec::new();
    let pairs = vec![
        ("freebsd-14".to_string(), "BSD".to_string()),
        ("win-11".to_string(), "Windows".to_string()),
        ("debian-12".to_string(), "Linux".to_string()),
    ];
    assert!(assign_to_category_groups(&mut groups, &pairs, &order()));
    let names: Vec<&str> = groups.iter().map(|g| g.name.as_str()).collect();
    assert_eq!(names, vec!["Windows", "Linux", "BSD"]);
    assert_eq!(groups[0].vm_ids, vec!["win-11".to_string()]);
    assert_eq!(groups[1].vm_ids, vec!["debian-12".to_string()]);
    assert_eq!(groups[2].vm_ids, vec!["freebsd-14".to_string()]);
}

#[test]
fn assign_leaves_already_grouped_vms_alone() {
    let mut groups = vec![VmGroup {
        name: "Favourites".to_string(),
        vm_ids: vec!["debian-12".to_string()],
    }];
    let pairs = vec![("debian-12".to_string(), "Linux".to_string())];
    assert!(!assign_to_category_groups(&mut groups, &pairs, &order()));
    assert_eq!(groups.len(), 1);
    assert_eq!(groups[0].vm_ids, vec!["debian-12".to_string()]);
}

#[test]
fn assign_puts_unranked_categories_last_and_reuses_existing_groups() {
    let mut groups = vec![
        VmGroup {
            name: "Mine".to_string(),
            vm_ids: vec![],
        },
        VmGroup {
            name: "Linux".to_string(),
            vm_ids: vec!["arch".to_string()],
        },
    ];
    let pairs = vec![
        ("ubuntu".to_string(), "Linux".to_string()),
        ("haiku".to_string(), "Other".to_string()),
        ("win-xp".to_string(), "Windows".to_string()),
    ];
    assert!(assign_to_category_groups(&mut groups, &pairs, &order()));
    let names: Vec<&str> = groups.iter().map(|g| g.name.as_str()).collect();
    // "Mine" is not a category, so new category groups go after it; Windows
    // ranks before Linux; the unranked "Other" goes last.
    assert_eq!(names, vec!["Mine", "Windows", "Linux", "Other"]);
    assert_eq!(groups[2].vm_ids, vec!["arch".to_string(), "ubuntu".to_string()]);
    assert_eq!(groups[3].vm_ids, vec!["haiku".to_string()]);
}

#[test]
fn new_category_groups_go_after_groups_that_are_not_categories() {
    let mut groups = vec![VmGroup::new("Servers")];
    let pairs = vec![("debian-12".to_string(), "Linux".to_string())];
    let mut order = HashMap::new();
    order.insert("Linux".to_string(), 1);
    assert!(assign_to_category_groups(&mut groups, &pairs, &order));
    let names: Vec<&str> = groups.iter().map(|g| g.name.as_str()).collect();
    assert_eq!(names, vec!["Servers", "Linux"]);
    assert_eq!(groups[1].vm_ids, vec!["debian-12".to_string()]);
}
