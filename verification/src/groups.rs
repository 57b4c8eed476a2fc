//! User-defined VM groups.
//!
//! A group is a name plus a list of VM ids. Groups are freeform and entirely
//! user-managed; the list order is significant (it is the order the Groups
//! screen shows them in, and the user controls it directly).

use std::collections::HashMap;
use std::collections::HashSet;
use vstd::prelude::*;
use crate::chars::str_eq;
use crate::seqs::{first_index, lemma_first_index, lemma_first_index_props};

verus! {

/// The abstract value of a group: its name and member ids, as character sequences.
pub struct GroupView {
    pub name: Seq<char>,
    pub vm_ids: Seq<Seq<char>>,
}

/// A user-defined group of VMs.
#[derive(Debug, Clone, PartialEq, Eq)]
pub struct VmGroup {
    pub name: String,
    /// VM ids belonging to this group.
    pub vm_ids: Vec<String>,
}

pub open spec fn ids_view(v: Seq<String>) -> Seq<Seq<char>> {
    v.map_values(|s: String| s@)
}

impl View for VmGroup {
    type V = GroupView;

    open spec fn view(&self) -> GroupView {
        GroupView { name: self.name@, vm_ids: ids_view(self.vm_ids@) }
    }
}

pub open spec fn groups_view(gs: Seq<VmGroup>) -> Seq<GroupView> {
    gs.map_values(|g: VmGroup| g@)
}

impl VmGroup {
    /// A new, empty group with the given name.
    pub fn new(name: &str) -> (g: Self)
        ensures
            g@.name == name@,
            g@.vm_ids == Seq::<Seq<char>>::empty(),
    {
        let g = VmGroup { name: name.to_owned(), vm_ids: Vec::new() };
        assert(g@.vm_ids =~= Seq::<Seq<char>>::empty());
        g
    }

    /// Whether `vm_id` is one of this group's members.
    pub fn contains(&self, vm_id: &str) -> (b: bool)
        ensures
            b == self@.vm_ids.contains(vm_id@),
    {
        let mut i: usize = 0;
        while i < self.vm_ids.len()
            invariant
                i <= self.vm_ids.len(),
                forall|j: int| 0 <= j < i ==> self.vm_ids@[j]@ != vm_id@,
            decreases self.vm_ids.len() - i,
        {
            if str_eq(self.vm_ids[i].as_str(), vm_id) {
                assert(self@.vm_ids[i as int] == vm_id@);
                return true;
            }
            i += 1;
        }
        assert(!self@.vm_ids.contains(vm_id@)) by {
            assert forall|j: int| 0 <= j < self@.vm_ids.len() implies self@.vm_ids[j] != vm_id@ by {
                assert(self@.vm_ids[j] == self.vm_ids@[j]@);
            }
        }
        false
    }
}

// ---------------------------------------------------------------------------
// Pruning stale ids
// ---------------------------------------------------------------------------

/// Whether the set holds a string with the characters of `id`.
pub open spec fn id_in_set<'a>(set: Set<&'a str>, id: Seq<char>) -> bool {
    exists|k: &'a str| set.contains(k) && k@ == id
}

/// The ids of `ids` that the set holds, in their original order.
pub open spec fn keep_valid<'a>(ids: Seq<Seq<char>>, set: Set<&'a str>) -> Seq<Seq<char>>
    decreases ids.len(),
{
    if ids.len() == 0 {
        Seq::empty()
    } else {
        let r = keep_valid(ids.drop_last(), set);
        if id_in_set(set, ids.last()) {
            r.push(ids.last())
        } else {
            r
        }
    }
}

pub open spec fn pruned_group<'a>(g: GroupView, set: Set<&'a str>) -> GroupView {
    GroupView { name: g.name, vm_ids: keep_valid(g.vm_ids, set) }
}

/// Every group with the ids that the set does not hold removed.
pub open spec fn pruned<'a>(gs: Seq<GroupView>, set: Set<&'a str>) -> Seq<GroupView> {
    gs.map_values(|g: GroupView| pruned_group(g, set))
}

/// Whether some group holds an id that the set does not.
pub open spec fn has_stale<'a>(gs: Seq<GroupView>, set: Set<&'a str>) -> bool {
    exists|i: int, j: int|
        0 <= i < gs.len() && 0 <= j < gs[i].vm_ids.len() && !id_in_set(set, #[trigger] gs[i].vm_ids[j])
}

/// `HashSet::contains` on a set of string slices: true when the set holds a
/// string equal to `id`.
#[verifier::external_body]
fn set_contains_id(set: &HashSet<&str>, id: &str) -> (b: bool)
    ensures
        b == id_in_set(set@, id@),
{
    set.contains(id)
}

pub proof fn lemma_keep_valid_props<'a>(ids: Seq<Seq<char>>, set: Set<&'a str>)
    ensures
        keep_valid(ids, set).len() <= ids.len(),
        keep_valid(ids, set).len() == ids.len() <==> forall|j: int|
            0 <= j < ids.len() ==> id_in_set(set, #[trigger] ids[j]),
        forall|j: int|
            0 <= j < keep_valid(ids, set).len() ==> id_in_set(set, #[trigger] keep_valid(ids, set)[j]),
    decreases ids.len(),
{
    if ids.len() > 0 {
        let t = ids.drop_last();
        lemma_keep_valid_props(t, set);
        if forall|j: int| 0 <= j < ids.len() ==> id_in_set(set, #[trigger] ids[j]) {
            assert forall|j: int| 0 <= j < t.len() implies id_in_set(set, #[trigger] t[j]) by {
                assert(t[j] == ids[j]);
            }
            assert(id_in_set(set, ids[ids.len() - 1]));
        } else {
            let j = choose|j: int| 0 <= j < ids.len() && !id_in_set(set, #[trigger] ids[j]);
            if j < ids.len() - 1 {
                assert(t[j] == ids[j]);
            }
        }
    }
}

proof fn lemma_keep_valid_step<'a>(ids: Seq<Seq<char>>, set: Set<&'a str>, j: int)
    requires
        0 <= j < ids.len(),
    ensures
        keep_valid(ids.take(j + 1), set) == if id_in_set(set, ids[j]) {
            keep_valid(ids.take(j), set).push(ids[j])
        } else {
            keep_valid(ids.take(j), set)
        },
{
    assert(ids.take(j + 1).drop_last() =~= ids.take(j));
}

/// Remove membership entries referencing a VM id not in `valid_ids` (e.g. a
/// VM that was deleted, or whose library directory disappeared). Returns
/// true if any group's membership actually changed.
pub fn prune_stale(groups: &mut [VmGroup], valid_ids: &HashSet<&str>) -> (changed: bool)
    ensures
        groups_view(final(groups)@) == pruned(groups_view(old(groups)@), valid_ids@),
        changed == has_stale(groups_view(old(groups)@), valid_ids@),
        changed == (groups_view(final(groups)@) != groups_view(old(groups)@)),
{
    let ghost orig = groups_view(groups@);
    let ghost set = valid_ids@;
    let mut changed = false;
    let mut i: usize = 0;
    while i < groups.len()
        invariant
            orig == groups_view(old(groups)@),
            set == valid_ids@,
            groups@.len() == orig.len(),
            i <= groups@.len(),
            forall|k: int| 0 <= k < i ==> #[trigger] groups@[k]@ == pruned_group(orig[k], set),
            forall|k: int| i <= k < groups@.len() ==> #[trigger] groups@[k]@ == orig[k],
            changed == exists|k: int, j: int|
                0 <= k < i && 0 <= j < orig[k].vm_ids.len() && !id_in_set(
                    set,
                    #[trigger] orig[k].vm_ids[j],
                ),
        decreases groups@.len() - i,
    {
        let ghost ids = orig[i as int].vm_ids;
        assert(groups@[i as int]@ == orig[i as int]);
        let before = groups[i].vm_ids.len();
        let mut kept: Vec<String> = Vec::new();
        let mut j: usize = 0;
        while j < groups[i].vm_ids.len()
            invariant
                groups@.len() == orig.len(),
                i < groups@.len(),
                groups@[i as int]@ == orig[i as int],
                ids == orig[i as int].vm_ids,
                set == valid_ids@,
                j <= ids.len(),
                ids_view(kept@) == keep_valid(ids.take(j as int), set),
            decreases ids.len() - j,
        {
            proof {
                lemma_keep_valid_step(ids, set, j as int);
            }
            assert(ids[j as int] == groups@[i as int].vm_ids@[j as int]@);
            if set_contains_id(valid_ids, groups[i].vm_ids[j].as_str()) {
                let id = groups[i].vm_ids[j].clone();
                kept.push(id);
                assert(ids_view(kept@) =~= keep_valid(ids.take(j as int), set).push(ids[j as int]));
            }
            j += 1;
        }
        assert(ids.take(ids.len() as int) =~= ids);
        proof {
            lemma_keep_valid_props(ids, set);
        }
        if kept.len() != before {
            changed = true;
        }
        let name = groups[i].name.clone();
        groups[i] = VmGroup { name, vm_ids: kept };
        proof {
            assert(groups@[i as int]@ == pruned_group(orig[i as int], set));
            if !(kept@.len() == before) {
                let jj = choose|jj: int| 0 <= jj < ids.len() && !id_in_set(set, #[trigger] ids[jj]);
                assert(!id_in_set(set, orig[i as int].vm_ids[jj]));
            }
        }
        i += 1;
    }
    assert(groups_view(groups@) =~= pruned(orig, set));
    proof {
        law_prune_changes_exactly_when_an_id_is_stale(orig, set);
    }
    changed
}

/// Pruning changes the groups exactly when some group, at any position,
/// lists an id that the set of valid ids does not hold.
pub proof fn law_prune_changes_exactly_when_an_id_is_stale<'a>(gs: Seq<GroupView>, set: Set<&'a str>)
    ensures
        pruned(gs, set) != gs <==> exists|i: int, j: int|
            0 <= i < gs.len() && 0 <= j < gs[i].vm_ids.len() && !id_in_set(set, #[trigger] gs[i].vm_ids[j]),
{
    let p = pruned(gs, set);
    if exists|i: int, j: int|
        0 <= i < gs.len() && 0 <= j < gs[i].vm_ids.len() && !id_in_set(set, #[trigger] gs[i].vm_ids[j]) {
        let (i, j) = choose|i: int, j: int|
            0 <= i < gs.len() && 0 <= j < gs[i].vm_ids.len() && !id_in_set(set, #[trigger] gs[i].vm_ids[j]);
        lemma_keep_valid_props(gs[i].vm_ids, set);
        assert(p[i].vm_ids.len() < gs[i].vm_ids.len());
    } else {
        assert forall|i: int| 0 <= i < gs.len() implies #[trigger] p[i] == gs[i] by {
            assert forall|j: int| 0 <= j < gs[i].vm_ids.len() implies id_in_set(set, #[trigger] gs[i].vm_ids[j]) by {
            }
            lemma_keep_valid_all_valid(gs[i].vm_ids, set);
        }
        assert(p =~= gs);
    }
}

/// Pruning is idempotent: after one pass no stale id is left, so a second
/// pass reports no change and leaves the groups as they are.
pub proof fn law_prune_is_idempotent<'a>(gs: Seq<GroupView>, set: Set<&'a str>)
    ensures
        !has_stale(pruned(gs, set), set),
        pruned(pruned(gs, set), set) == pruned(gs, set),
{
    let p = pruned(gs, set);
    assert forall|i: int| 0 <= i < p.len() implies #[trigger] pruned_group(p[i], set) == p[i] by {
        lemma_keep_valid_props(gs[i].vm_ids, set);
        lemma_keep_valid_props(p[i].vm_ids, set);
        lemma_keep_valid_all_valid(p[i].vm_ids, set);
    }
    assert(pruned(p, set) =~= p);
    if has_stale(p, set) {
        let (i, j) = choose|i: int, j: int|
            0 <= i < p.len() && 0 <= j < p[i].vm_ids.len() && !id_in_set(set, #[trigger] p[i].vm_ids[j]);
        lemma_keep_valid_props(gs[i].vm_ids, set);
    }
}

/// Pruning keeps every group, in its place and under its name, with
/// exactly the ids that the set holds, in their original order.
pub proof fn law_prune_keeps_exactly_the_valid_ids<'a>(gs: Seq<GroupView>, set: Set<&'a str>)
    ensures
        pruned(gs, set).len() == gs.len(),
        forall|i: int|
            0 <= i < gs.len() ==> (#[trigger] pruned(gs, set)[i]).name == gs[i].name && pruned(gs, set)[i].vm_ids
                == gs[i].vm_ids.filter(|x: Seq<char>| id_in_set(set, x)),
{
    assert forall|i: int| 0 <= i < gs.len() implies (#[trigger] pruned(gs, set)[i]).name == gs[i].name
        && pruned(gs, set)[i].vm_ids == gs[i].vm_ids.filter(|x: Seq<char>| id_in_set(set, x)) by {
        lemma_keep_valid_is_filter(gs[i].vm_ids, set);
    }
}

proof fn lemma_keep_valid_is_filter<'a>(ids: Seq<Seq<char>>, set: Set<&'a str>)
    ensures
        keep_valid(ids, set) == ids.filter(|x: Seq<char>| id_in_set(set, x)),
    decreases ids.len(),
{
    reveal(Seq::filter);
    if ids.len() > 0 {
        lemma_keep_valid_is_filter(ids.drop_last(), set);
    }
}

proof fn lemma_keep_valid_all_valid<'a>(ids: Seq<Seq<char>>, set: Set<&'a str>)
    requires
        forall|j: int| 0 <= j < ids.len() ==> id_in_set(set, #[trigger] ids[j]),
    ensures
        keep_valid(ids, set) == ids,
    decreases ids.len(),
{
    if ids.len() > 0 {
        let t = ids.drop_last();
        assert forall|j: int| 0 <= j < t.len() implies id_in_set(set, #[trigger] t[j]) by {
            assert(t[j] == ids[j]);
        }
        lemma_keep_valid_all_valid(t, set);
        assert(ids.last() == ids[ids.len() - 1]);
        assert(t.push(ids.last()) =~= ids);
    }
}

// ---------------------------------------------------------------------------
// Default (category) groups
// ---------------------------------------------------------------------------

/// Whether some group lists `id` as a member.
pub open spec fn in_any_group(gs: Seq<GroupView>, id: Seq<char>) -> bool {
    exists|i: int| 0 <= i < gs.len() && (#[trigger] gs[i]).vm_ids.contains(id)
}

/// The rank stored in `order` under the key spelled `name`, if any.
pub open spec fn name_rank(order: Map<String, i32>, name: Seq<char>) -> Option<i32> {
    if exists|k: String| order.contains_key(k) && k@ == name {
        Some(order[choose|k: String| order.contains_key(k) && k@ == name])
    } else {
        None
    }
}

/// A name's position in the category order; names without one sort last.
pub open spec fn rank_in(order: Map<String, i32>, name: Seq<char>) -> int {
    match name_rank(order, name) {
        Some(r) => r as int,
        None => i32::MAX as int,
    }
}

/// Index of the first group named `name`, or -1.
pub open spec fn group_named(gs: Seq<GroupView>, name: Seq<char>) -> int {
    first_index(gs, |g: GroupView| g.name == name)
}

/// Whether a group is a category that ranks after rank `r`. Groups that
/// are not categories (no rank in `order`) never do.
pub open spec fn ranks_after(order: Map<String, i32>, r: int) -> spec_fn(GroupView) -> bool {
    |g: GroupView|
        match name_rank(order, g.name) {
            Some(k) => k as int > r,
            None => false,
        }
}

/// Where a new category group of rank `r` goes: before the first category
/// group that ranks after it, else at the end; so it always comes after
/// every group that is not a category and every category ranking before it.
pub open spec fn insert_position(gs: Seq<GroupView>, order: Map<String, i32>, r: int) -> int {
    let i = first_index(gs, ranks_after(order, r));
    if i < 0 {
        gs.len() as int
    } else {
        i
    }
}

/// One step of default assignment: a VM that is in no group joins the
/// group named after its category, which is created at its ranked position
/// when missing. A VM already in some group is left where it is.
pub open spec fn assign_one(
    gs: Seq<GroupView>,
    order: Map<String, i32>,
    id: Seq<char>,
    cat: Seq<char>,
) -> Seq<GroupView> {
    if in_any_group(gs, id) {
        gs
    } else {
        let i = group_named(gs, cat);
        if i >= 0 {
            gs.update(i, GroupView { name: gs[i].name, vm_ids: gs[i].vm_ids.push(id) })
        } else {
            gs.insert(
                insert_position(gs, order, rank_in(order, cat)),
                GroupView { name: cat, vm_ids: seq![id] },
            )
        }
    }
}

/// Default assignment of every `(vm_id, category)` pair, in order.
pub open spec fn assign_all(
    gs: Seq<GroupView>,
    order: Map<String, i32>,
    pairs: Seq<(Seq<char>, Seq<char>)>,
) -> Seq<GroupView>
    decreases pairs.len(),
{
    if pairs.len() == 0 {
        gs
    } else {
        let last = pairs.last();
        assign_one(assign_all(gs, order, pairs.drop_last()), order, last.0, last.1)
    }
}

/// Whether some pair's VM was in no group at the moment it came up.
pub open spec fn assigns_any(
    gs: Seq<GroupView>,
    order: Map<String, i32>,
    pairs: Seq<(Seq<char>, Seq<char>)>,
) -> bool {
    exists|k: int|
        0 <= k < pairs.len() && !in_any_group(assign_all(gs, order, pairs.take(k)), #[trigger] pairs[k].0)
}

pub open spec fn pairs_view(s: Seq<(String, String)>) -> Seq<(Seq<char>, Seq<char>)> {
    s.map_values(|p: (String, String)| (p.0@, p.1@))
}

/// `HashMap::get` on a map keyed by names, copying out the value stored
/// under the key equal to `name`.
#[verifier::external_body]
fn lookup_rank(order: &HashMap<String, i32>, name: &String) -> (r: Option<i32>)
    ensures
        r == name_rank(order@, name@),
{
    order.get(name).copied()
}

fn any_group_contains(groups: &Vec<VmGroup>, vm_id: &String) -> (b: bool)
    ensures
        b == in_any_group(groups_view(groups@), vm_id@),
{
    let ghost gv = groups_view(groups@);
    let mut i: usize = 0;
    while i < groups.len()
        invariant
            gv == groups_view(groups@),
            i <= groups.len(),
            forall|k: int| 0 <= k < i ==> !(#[trigger] gv[k]).vm_ids.contains(vm_id@),
        decreases groups.len() - i,
    {
        if groups[i].contains(vm_id.as_str()) {
            assert(gv[i as int].vm_ids.contains(vm_id@));
            return true;
        }
        i += 1;
    }
    false
}

fn position_named(groups: &Vec<VmGroup>, name: &String) -> (r: Option<usize>)
    ensures
        match r {
            Some(i) => i < groups@.len() && i as int == group_named(groups_view(groups@), name@),
            None => group_named(groups_view(groups@), name@) == -1,
        },
{
    let ghost gv = groups_view(groups@);
    let ghost p = |g: GroupView| g.name == name@;
    let mut i: usize = 0;
    while i < groups.len()
        invariant
            gv == groups_view(groups@),
            p == (|g: GroupView| g.name == name@),
            i <= groups.len(),
            forall|k: int| 0 <= k < i ==> !p(#[trigger] gv[k]),
        decreases groups.len() - i,
    {
        if groups[i].name == *name {
            proof {
                lemma_first_index(gv, p, i as int);
            }
            return Some(i);
        }
        i += 1;
    }
    proof {
        lemma_first_index(gv, p, i as int);
    }
    None
}

fn rank_or_last(order: &HashMap<String, i32>, name: &String) -> (r: i32)
    ensures
        r as int == rank_in(order@, name@),
{
    match lookup_rank(order, name) {
        Some(r) => r,
        None => i32::MAX,
    }
}

fn ranked_insert_position(groups: &Vec<VmGroup>, order: &HashMap<String, i32>, rank: i32) -> (r: usize)
    ensures
        r as int == insert_position(groups_view(groups@), order@, rank as int),
        r <= groups@.len(),
{
    let ghost gv = groups_view(groups@);
    let ghost p = ranks_after(order@, rank as int);
    let mut i: usize = 0;
    while i < groups.len()
        invariant
            gv == groups_view(groups@),
            p == ranks_after(order@, rank as int),
            i <= groups.len(),
            forall|k: int| 0 <= k < i ==> !p(#[trigger] gv[k]),
        decreases groups.len() - i,
    {
        let after = match lookup_rank(order, &groups[i].name) {
            Some(k) => k > rank,
            None => false,
        };
        if after {
            proof {
                lemma_first_index(gv, p, i as int);
            }
            return i;
        }
        i += 1;
    }
    proof {
        lemma_first_index(gv, p, i as int);
    }
    i
}

/// One step of default assignment on the real list; true when the VM was
/// in no group and has been added to its category group.
fn assign_default_group(
    groups: &mut Vec<VmGroup>,
    vm_id: &String,
    category_name: &String,
    category_order: &HashMap<String, i32>,
) -> (added: bool)
    ensures
        groups_view(final(groups)@) == assign_one(
            groups_view(old(groups)@),
            category_order@,
            vm_id@,
            category_name@,
        ),
        added == !in_any_group(groups_view(old(groups)@), vm_id@),
{
    let ghost before = groups_view(groups@);
    let ghost order = category_order@;
    if any_group_contains(groups, vm_id) {
        return false;
    }
    let group_idx = match position_named(groups, category_name) {
        Some(i) => i,
        None => {
            let rank = rank_or_last(category_order, category_name);
            let insert_at = ranked_insert_position(groups, category_order, rank);
            groups.insert(insert_at, VmGroup { name: category_name.clone(), vm_ids: Vec::new() });
            proof {
                assert(groups@[insert_at as int]@.vm_ids =~= Seq::<Seq<char>>::empty());
            }
            insert_at
        },
    };
    let ghost mid = groups@;
    let ghost old_ids = groups@[group_idx as int].vm_ids@;
    let id = vm_id.clone();
    groups[group_idx].vm_ids.push(id);
    proof {
        let ng = groups@[group_idx as int];
        assert(ids_view(old_ids.push(id)) =~= ids_view(old_ids).push(vm_id@));
        let target = assign_one(before, order, vm_id@, category_name@);
        if group_named(before, category_name@) >= 0 {
            assert(groups_view(groups@) =~= target);
        } else {
            let ip = insert_position(before, order, rank_in(order, category_name@));
            assert(groups_view(mid) =~= before.insert(ip, mid[ip]@));
            assert(groups_view(groups@) =~= target);
        }
    }
    true
}

/// A VM's default group is its OS-family category. This assigns each
/// `(vm_id, category_name)` pair to the group with that name, creating the
/// group when it does not exist yet (placed among the other category groups
/// by `category_order`, and after any group that is not a category at all).
/// A VM already in any group is left alone: this only supplies a default,
/// never overrides a user's own choice. Returns true if anything changed.
pub fn assign_to_category_groups(
    groups: &mut Vec<VmGroup>,
    vm_categories: &[(String, String)],
    category_order: &HashMap<String, i32>,
) -> (changed: bool)
    ensures
        groups_view(final(groups)@) == assign_all(
            groups_view(old(groups)@),
            category_order@,
            pairs_view(vm_categories@),
        ),
        changed == assigns_any(
            groups_view(old(groups)@),
            category_order@,
            pairs_view(vm_categories@),
        ),
        changed == (groups_view(final(groups)@) != groups_view(old(groups)@)),
{
    let ghost orig = groups_view(groups@);
    let ghost order = category_order@;
    let ghost pairs = pairs_view(vm_categories@);
    let mut changed = false;
    let mut k: usize = 0;
    assert(pairs.take(0) =~= Seq::<(Seq<char>, Seq<char>)>::empty());
    while k < vm_categories.len()
        invariant
            orig == groups_view(old(groups)@),
            order == category_order@,
            pairs == pairs_view(vm_categories@),
            k <= vm_categories@.len(),
            groups_view(groups@) == assign_all(orig, order, pairs.take(k as int)),
            changed == exists|q: int|
                0 <= q < k && !in_any_group(
                    assign_all(orig, order, pairs.take(q)),
                    #[trigger] pairs[q].0,
                ),
        decreases vm_categories@.len() - k,
    {
        assert(pairs.take(k + 1).drop_last() =~= pairs.take(k as int));
        assert(pairs.take(k + 1).last() == pairs[k as int]);
        let vm_id = &vm_categories[k].0;
        let category_name = &vm_categories[k].1;
        assert(pairs[k as int] == (vm_id@, category_name@));
        if assign_default_group(groups, vm_id, category_name, category_order) {
            changed = true;
        }
        proof {
            assert(assign_all(orig, order, pairs.take(k + 1)) == assign_one(
                assign_all(orig, order, pairs.take(k as int)),
                order,
                vm_id@,
                category_name@,
            ));
        }
        k += 1;
    }
    assert(pairs.take(vm_categories@.len() as int) =~= pairs);
    proof {
        lemma_assigns_any_iff_changed(orig, order, pairs);
    }
    changed
}

/// Default assignment changes the groups exactly when some listed VM, at
/// any position in the list, is in no group to begin with.
pub proof fn law_assignment_changes_exactly_when_a_vm_is_ungrouped(
    gs: Seq<GroupView>,
    order: Map<String, i32>,
    pairs: Seq<(Seq<char>, Seq<char>)>,
)
    ensures
        assign_all(gs, order, pairs) != gs <==> exists|k: int|
            0 <= k < pairs.len() && !in_any_group(gs, #[trigger] pairs[k].0),
{
    if exists|k: int| 0 <= k < pairs.len() && !in_any_group(gs, #[trigger] pairs[k].0) {
        let k = choose|k: int| 0 <= k < pairs.len() && !in_any_group(gs, #[trigger] pairs[k].0);
        law_assignment_covers_every_vm(gs, order, pairs);
        assert(in_any_group(assign_all(gs, order, pairs), pairs[k].0));
    } else {
        lemma_assign_all_fixed(gs, order, pairs);
    }
}

proof fn lemma_assigns_any_iff_changed(
    gs: Seq<GroupView>,
    order: Map<String, i32>,
    pairs: Seq<(Seq<char>, Seq<char>)>,
)
    ensures
        assigns_any(gs, order, pairs) <==> assign_all(gs, order, pairs) != gs,
{
    if assigns_any(gs, order, pairs) {
        let k = choose|k: int|
            0 <= k < pairs.len() && !in_any_group(assign_all(gs, order, pairs.take(k)), #[trigger] pairs[k].0);
        let x = pairs[k].0;
        if in_any_group(gs, x) {
            law_assignment_leaves_grouped_vms_alone(gs, order, pairs.take(k), x, pairs[k].1);
            assert(false);
        }
        law_assignment_covers_every_vm(gs, order, pairs);
        assert(in_any_group(assign_all(gs, order, pairs), pairs[k].0));
        assert(assign_all(gs, order, pairs) != gs);
    } else {
        lemma_no_assignment_prefix(gs, order, pairs, pairs.len() as int);
        assert(pairs.take(pairs.len() as int) =~= pairs);
    }
}

proof fn lemma_no_assignment_prefix(
    gs: Seq<GroupView>,
    order: Map<String, i32>,
    pairs: Seq<(Seq<char>, Seq<char>)>,
    k: int,
)
    requires
        0 <= k <= pairs.len(),
        !assigns_any(gs, order, pairs),
    ensures
        assign_all(gs, order, pairs.take(k)) == gs,
    decreases k,
{
    if k == 0 {
        assert(pairs.take(0) =~= Seq::<(Seq<char>, Seq<char>)>::empty());
    } else {
        lemma_no_assignment_prefix(gs, order, pairs, k - 1);
        assert(pairs.take(k).drop_last() =~= pairs.take(k - 1));
        assert(pairs.take(k).last() == pairs[k - 1]);
        assert(in_any_group(assign_all(gs, order, pairs.take(k - 1)), pairs[k - 1].0));
    }
}

/// Whether some group named `name` lists `id`.
pub open spec fn member_of(gs: Seq<GroupView>, name: Seq<char>, id: Seq<char>) -> bool {
    exists|i: int| 0 <= i < gs.len() && (#[trigger] gs[i]).name == name && gs[i].vm_ids.contains(id)
}

proof fn lemma_assign_one_effects(gs: Seq<GroupView>, order: Map<String, i32>, id: Seq<char>, cat: Seq<char>)
    ensures
        in_any_group(assign_one(gs, order, id, cat), id),
        forall|x: Seq<char>| #[trigger] in_any_group(gs, x) ==> in_any_group(assign_one(gs, order, id, cat), x),
        forall|x: Seq<char>, name: Seq<char>|
            in_any_group(gs, x) ==> (#[trigger] member_of(assign_one(gs, order, id, cat), name, x)
                == member_of(gs, name, x)),
{
    let r = assign_one(gs, order, id, cat);
    if !in_any_group(gs, id) {
        let i = group_named(gs, cat);
        lemma_first_index_props(gs, |g: GroupView| g.name == cat);
        if i >= 0 {
            assert(r[i].vm_ids.last() == id);
            assert(r[i].vm_ids.contains(id)) by {
                assert(r[i].vm_ids[r[i].vm_ids.len() - 1] == id);
            }
            assert forall|x: Seq<char>| #[trigger] in_any_group(gs, x) implies in_any_group(r, x) by {
                let j = choose|j: int| 0 <= j < gs.len() && (#[trigger] gs[j]).vm_ids.contains(x);
                let q = choose|q: int| 0 <= q < gs[j].vm_ids.len() && gs[j].vm_ids[q] == x;
                assert(r[j].vm_ids[q] == x);
            }
            assert forall|x: Seq<char>, name: Seq<char>| in_any_group(gs, x) implies (
            #[trigger] member_of(r, name, x) == member_of(gs, name, x)) by {
                assert(x != id);
                if member_of(gs, name, x) {
                    let j = choose|j: int|
                        0 <= j < gs.len() && (#[trigger] gs[j]).name == name && gs[j].vm_ids.contains(x);
                    let q = choose|q: int| 0 <= q < gs[j].vm_ids.len() && gs[j].vm_ids[q] == x;
                    assert(r[j].vm_ids[q] == x);
                    assert(r[j].name == name);
                }
                if member_of(r, name, x) {
                    let j = choose|j: int|
                        0 <= j < r.len() && (#[trigger] r[j]).name == name && r[j].vm_ids.contains(x);
                    let q = choose|q: int| 0 <= q < r[j].vm_ids.len() && r[j].vm_ids[q] == x;
                    if j == i {
                        assert(q < gs[i].vm_ids.len());
                        assert(gs[i].vm_ids[q] == x);
                    }
                    assert(gs[j].vm_ids.contains(x));
                }
            }
        } else {
            let p = insert_position(gs, order, rank_in(order, cat));
            lemma_first_index_props(gs, ranks_after(order, rank_in(order, cat)));
            assert(0 <= p <= gs.len());
            assert(r[p].vm_ids[0] == id);
            assert forall|x: Seq<char>| #[trigger] in_any_group(gs, x) implies in_any_group(r, x) by {
                let j = choose|j: int| 0 <= j < gs.len() && (#[trigger] gs[j]).vm_ids.contains(x);
                let jj = if j < p { j } else { j + 1 };
                assert(r[jj] == gs[j]);
            }
            assert forall|x: Seq<char>, name: Seq<char>| in_any_group(gs, x) implies (
            #[trigger] member_of(r, name, x) == member_of(gs, name, x)) by {
                assert(x != id);
                if member_of(gs, name, x) {
                    let j = choose|j: int|
                        0 <= j < gs.len() && (#[trigger] gs[j]).name == name && gs[j].vm_ids.contains(x);
                    let jj = if j < p { j } else { j + 1 };
                    assert(r[jj] == gs[j]);
                }
                if member_of(r, name, x) {
                    let j = choose|j: int|
                        0 <= j < r.len() && (#[trigger] r[j]).name == name && r[j].vm_ids.contains(x);
                    if j == p {
                        let q = choose|q: int| 0 <= q < r[j].vm_ids.len() && r[j].vm_ids[q] == x;
                        assert(false);
                    } else if j < p {
                        assert(r[j] == gs[j]);
                    } else {
                        assert(r[j] == gs[j - 1]);
                    }
                }
            }
        }
    }
}

/// After default assignment every listed VM is in some group.
pub proof fn law_assignment_covers_every_vm(
    gs: Seq<GroupView>,
    order: Map<String, i32>,
    pairs: Seq<(Seq<char>, Seq<char>)>,
)
    ensures
        forall|k: int| 0 <= k < pairs.len() ==> in_any_group(assign_all(gs, order, pairs), #[trigger] pairs[k].0),
    decreases pairs.len(),
{
    if pairs.len() > 0 {
        let prev = pairs.drop_last();
        law_assignment_covers_every_vm(gs, order, prev);
        let last = pairs.last();
        lemma_assign_one_effects(assign_all(gs, order, prev), order, last.0, last.1);
        assert forall|k: int| 0 <= k < pairs.len() implies in_any_group(
            assign_all(gs, order, pairs),
            #[trigger] pairs[k].0,
        ) by {
            if k < pairs.len() - 1 {
                assert(prev[k] == pairs[k]);
                assert(in_any_group(assign_all(gs, order, prev), prev[k].0));
            }
        }
    }
}

proof fn lemma_assign_one_joins_category(gs: Seq<GroupView>, order: Map<String, i32>, id: Seq<char>, cat: Seq<char>)
    requires
        !in_any_group(gs, id),
    ensures
        member_of(assign_one(gs, order, id, cat), cat, id),
{
    let r = assign_one(gs, order, id, cat);
    let i = group_named(gs, cat);
    lemma_first_index_props(gs, |g: GroupView| g.name == cat);
    if i >= 0 {
        assert(r[i].vm_ids[r[i].vm_ids.len() - 1] == id);
        assert(r[i].vm_ids.contains(id));
    } else {
        let p = insert_position(gs, order, rank_in(order, cat));
        lemma_first_index_props(gs, ranks_after(order, rank_in(order, cat)));
        assert(r[p].vm_ids[0] == id);
        assert(r[p].vm_ids.contains(id));
    }
}

proof fn lemma_assign_all_append(
    gs: Seq<GroupView>,
    order: Map<String, i32>,
    a: Seq<(Seq<char>, Seq<char>)>,
    b: Seq<(Seq<char>, Seq<char>)>,
)
    ensures
        assign_all(gs, order, a + b) == assign_all(assign_all(gs, order, a), order, b),
    decreases b.len(),
{
    if b.len() == 0 {
        assert(a + b =~= a);
    } else {
        lemma_assign_all_append(gs, order, a, b.drop_last());
        assert((a + b).drop_last() =~= a + b.drop_last());
        assert((a + b).last() == b.last());
    }
}

/// A VM that is in no group when its pair comes up ends up in the group
/// named after its category, and stays there through the rest of the list.
pub proof fn law_assignment_puts_an_ungrouped_vm_in_its_category(
    gs: Seq<GroupView>,
    order: Map<String, i32>,
    pairs: Seq<(Seq<char>, Seq<char>)>,
    k: int,
)
    requires
        0 <= k < pairs.len(),
        !in_any_group(assign_all(gs, order, pairs.take(k)), pairs[k].0),
    ensures
        member_of(assign_all(gs, order, pairs), pairs[k].1, pairs[k].0),
{
    let before = assign_all(gs, order, pairs.take(k));
    assert(pairs.take(k + 1).drop_last() =~= pairs.take(k));
    assert(pairs.take(k + 1).last() == pairs[k]);
    let mid = assign_all(gs, order, pairs.take(k + 1));
    assert(mid == assign_one(before, order, pairs[k].0, pairs[k].1));
    lemma_assign_one_joins_category(before, order, pairs[k].0, pairs[k].1);
    lemma_assign_one_effects(before, order, pairs[k].0, pairs[k].1);
    let rest = pairs.skip(k + 1);
    lemma_assign_all_append(gs, order, pairs.take(k + 1), rest);
    assert(pairs.take(k + 1) + rest =~= pairs);
    law_assignment_leaves_grouped_vms_alone(mid, order, rest, pairs[k].0, pairs[k].1);
}

/// When an ungrouped VM's category has no group yet, a group of that name
/// holding just the VM is inserted: after every group that is not a
/// category and every category that does not rank after it, and right
/// before the first category that does; the other groups are unchanged.
pub proof fn law_new_category_group_is_placed_by_rank(
    gs: Seq<GroupView>,
    order: Map<String, i32>,
    id: Seq<char>,
    cat: Seq<char>,
)
    requires
        !in_any_group(gs, id),
        forall|i: int| 0 <= i < gs.len() ==> (#[trigger] gs[i]).name != cat,
    ensures
        exists|p: int|
            0 <= p <= gs.len() && assign_one(gs, order, id, cat) == gs.insert(
                p,
                GroupView { name: cat, vm_ids: seq![id] },
            ) && (forall|q: int| 0 <= q < p ==> !(#[trigger] ranks_after(order, rank_in(order, cat))(gs[q])))
                && (p < gs.len() ==> ranks_after(order, rank_in(order, cat))(gs[p])),
{
    let f = |g: GroupView| g.name == cat;
    lemma_first_index_props(gs, f);
    if group_named(gs, cat) >= 0 {
        assert(f(gs[group_named(gs, cat)]));
    }
    let r = rank_in(order, cat);
    let p = insert_position(gs, order, r);
    lemma_first_index_props(gs, ranks_after(order, r));
    assert(0 <= p <= gs.len());
    assert(group_named(gs, cat) < 0);
    assert(assign_one(gs, order, id, cat) == gs.insert(p, GroupView { name: cat, vm_ids: seq![id] }));
    assert(forall|q: int| 0 <= q < p ==> !(#[trigger] ranks_after(order, r)(gs[q])));
    assert(p < gs.len() ==> ranks_after(order, r)(gs[p]));
}

/// `f` places the groups of `old` among those of `new`: in the same order,
/// under the same names, each with its members first in the same order.
pub open spec fn embeds(old: Seq<GroupView>, new: Seq<GroupView>, f: spec_fn(int) -> int) -> bool {
    &&& forall|i: int| 0 <= i < old.len() ==> 0 <= #[trigger] f(i) < new.len()
    &&& forall|i: int, j: int| 0 <= i < j < old.len() ==> #[trigger] f(i) < #[trigger] f(j)
    &&& forall|i: int|
        0 <= i < old.len() ==> new[#[trigger] f(i)].name == old[i].name && old[i].vm_ids.is_prefix_of(
            new[f(i)].vm_ids,
        )
}

proof fn lemma_assign_one_embeds(gs: Seq<GroupView>, order: Map<String, i32>, id: Seq<char>, cat: Seq<char>) -> (f:
    spec_fn(int) -> int)
    ensures
        embeds(gs, assign_one(gs, order, id, cat), f),
{
    let r = assign_one(gs, order, id, cat);
    if in_any_group(gs, id) {
        let f = |i: int| i;
        assert forall|i: int| 0 <= i < gs.len() implies r[#[trigger] f(i)].name == gs[i].name
            && gs[i].vm_ids.is_prefix_of(r[f(i)].vm_ids) by {
            assert(gs[i].vm_ids =~= r[i].vm_ids.subrange(0, gs[i].vm_ids.len() as int));
        }
        f
    } else {
        let g = group_named(gs, cat);
        if g >= 0 {
            lemma_first_index_props(gs, |x: GroupView| x.name == cat);
            let f = |i: int| i;
            assert forall|i: int| 0 <= i < gs.len() implies r[#[trigger] f(i)].name == gs[i].name
                && gs[i].vm_ids.is_prefix_of(r[f(i)].vm_ids) by {
                if i == g {
                    assert(gs[i].vm_ids =~= gs[i].vm_ids.push(id).subrange(0, gs[i].vm_ids.len() as int));
                } else {
                    assert(gs[i].vm_ids =~= r[i].vm_ids.subrange(0, gs[i].vm_ids.len() as int));
                }
            }
            f
        } else {
            let p = insert_position(gs, order, rank_in(order, cat));
            lemma_first_index_props(gs, ranks_after(order, rank_in(order, cat)));
            assert(0 <= p <= gs.len());
            let f = |i: int| if i < p { i } else { i + 1 };
            assert forall|i: int| 0 <= i < gs.len() implies r[#[trigger] f(i)].name == gs[i].name
                && gs[i].vm_ids.is_prefix_of(r[f(i)].vm_ids) by {
                assert(r[f(i)] == gs[i]);
                assert(gs[i].vm_ids =~= r[f(i)].vm_ids.subrange(0, gs[i].vm_ids.len() as int));
            }
            f
        }
    }
}

proof fn lemma_embeds_compose(
    a: Seq<GroupView>,
    b: Seq<GroupView>,
    c: Seq<GroupView>,
    f: spec_fn(int) -> int,
    g: spec_fn(int) -> int,
) -> (h: spec_fn(int) -> int)
    requires
        embeds(a, b, f),
        embeds(b, c, g),
    ensures
        embeds(a, c, h),
{
    let h = |i: int| g(f(i));
    assert forall|i: int, j: int| 0 <= i < j < a.len() implies #[trigger] h(i) < #[trigger] h(j) by {
        assert(f(i) < f(j));
        assert(0 <= f(i) < b.len() && 0 <= f(j) < b.len());
        assert(g(f(i)) < g(f(j)));
    }
    assert forall|i: int| 0 <= i < a.len() implies 0 <= #[trigger] h(i) < c.len() by {
        assert(0 <= f(i) < b.len());
        assert(0 <= g(f(i)) < c.len());
    }
    assert forall|i: int| 0 <= i < a.len() implies c[#[trigger] h(i)].name == a[i].name
        && a[i].vm_ids.is_prefix_of(c[h(i)].vm_ids) by {
        let k = f(i);
        assert(0 <= k < b.len());
        assert(b[k].name == a[i].name && a[i].vm_ids.is_prefix_of(b[k].vm_ids));
        assert(c[g(k)].name == b[k].name && b[k].vm_ids.is_prefix_of(c[g(k)].vm_ids));
        let n = a[i].vm_ids.len() as int;
        assert forall|q: int| 0 <= q < n implies a[i].vm_ids[q] == c[g(k)].vm_ids[q] by {
            assert(a[i].vm_ids[q] == b[k].vm_ids.subrange(0, n)[q]);
            assert(b[k].vm_ids[q] == c[g(k)].vm_ids.subrange(0, b[k].vm_ids.len() as int)[q]);
        }
        assert(a[i].vm_ids =~= c[g(k)].vm_ids.subrange(0, n));
    }
    h
}

/// Default assignment keeps every existing group, in the order the user
/// gave them, under its name and with its members first: it only adds
/// groups and appends members.
pub proof fn law_assignment_keeps_groups_in_order(
    gs: Seq<GroupView>,
    order: Map<String, i32>,
    pairs: Seq<(Seq<char>, Seq<char>)>,
)
    ensures
        exists|f: spec_fn(int) -> int| embeds(gs, assign_all(gs, order, pairs), f),
{
    let f = lemma_assign_all_embeds(gs, order, pairs);
    assert(embeds(gs, assign_all(gs, order, pairs), f));
}

proof fn lemma_assign_all_embeds(
    gs: Seq<GroupView>,
    order: Map<String, i32>,
    pairs: Seq<(Seq<char>, Seq<char>)>,
) -> (f: spec_fn(int) -> int)
    ensures
        embeds(gs, assign_all(gs, order, pairs), f),
    decreases pairs.len(),
{
    if pairs.len() == 0 {
        let f = |i: int| i;
        assert forall|i: int| 0 <= i < gs.len() implies gs[#[trigger] f(i)].name == gs[i].name
            && gs[i].vm_ids.is_prefix_of(gs[f(i)].vm_ids) by {
            assert(gs[i].vm_ids =~= gs[i].vm_ids.subrange(0, gs[i].vm_ids.len() as int));
        }
        f
    } else {
        let prev = assign_all(gs, order, pairs.drop_last());
        let f1 = lemma_assign_all_embeds(gs, order, pairs.drop_last());
        let last = pairs.last();
        let f2 = lemma_assign_one_embeds(prev, order, last.0, last.1);
        lemma_embeds_compose(gs, prev, assign_all(gs, order, pairs), f1, f2)
    }
}

/// Default assignment never overrides a choice already made: a VM that is
/// already in some group stays in exactly the groups (by name) it was in.
pub proof fn law_assignment_leaves_grouped_vms_alone(
    gs: Seq<GroupView>,
    order: Map<String, i32>,
    pairs: Seq<(Seq<char>, Seq<char>)>,
    x: Seq<char>,
    name: Seq<char>,
)
    requires
        in_any_group(gs, x),
    ensures
        in_any_group(assign_all(gs, order, pairs), x),
        member_of(assign_all(gs, order, pairs), name, x) == member_of(gs, name, x),
    decreases pairs.len(),
{
    if pairs.len() > 0 {
        let prev = pairs.drop_last();
        law_assignment_leaves_grouped_vms_alone(gs, order, prev, x, name);
        let last = pairs.last();
        lemma_assign_one_effects(assign_all(gs, order, prev), order, last.0, last.1);
    }
}

/// Assignment reports a change exactly when some listed VM was still
/// ungrouped; when every listed VM already is in a group, nothing changes.
pub proof fn law_assignment_of_grouped_vms_is_a_no_op(
    gs: Seq<GroupView>,
    order: Map<String, i32>,
    pairs: Seq<(Seq<char>, Seq<char>)>,
)
    requires
        forall|k: int| 0 <= k < pairs.len() ==> in_any_group(gs, #[trigger] pairs[k].0),
    ensures
        assign_all(gs, order, pairs) == gs,
        !assigns_any(gs, order, pairs),
{
    lemma_assign_all_fixed(gs, order, pairs);
    if assigns_any(gs, order, pairs) {
        let k = choose|k: int|
            0 <= k < pairs.len() && !in_any_group(assign_all(gs, order, pairs.take(k)), #[trigger] pairs[k].0);
        lemma_assign_all_prefix_fixed(gs, order, pairs, k);
    }
}

proof fn lemma_assign_all_prefix_fixed(
    gs: Seq<GroupView>,
    order: Map<String, i32>,
    pairs: Seq<(Seq<char>, Seq<char>)>,
    k: int,
)
    requires
        0 <= k <= pairs.len(),
        forall|q: int| 0 <= q < pairs.len() ==> in_any_group(gs, #[trigger] pairs[q].0),
    ensures
        assign_all(gs, order, pairs.take(k)) == gs,
{
    let t = pairs.take(k);
    assert forall|q: int| 0 <= q < t.len() implies in_any_group(gs, #[trigger] t[q].0) by {
        assert(t[q] == pairs[q]);
    }
    lemma_assign_all_fixed(gs, order, t);
}

proof fn lemma_assign_all_fixed(
    gs: Seq<GroupView>,
    order: Map<String, i32>,
    pairs: Seq<(Seq<char>, Seq<char>)>,
)
    requires
        forall|k: int| 0 <= k < pairs.len() ==> in_any_group(gs, #[trigger] pairs[k].0),
    ensures
        assign_all(gs, order, pairs) == gs,
    decreases pairs.len(),
{
    if pairs.len() > 0 {
        let prev = pairs.drop_last();
        assert forall|k: int| 0 <= k < prev.len() implies in_any_group(gs, #[trigger] prev[k].0) by {
            assert(prev[k] == pairs[k]);
        }
        lemma_assign_all_fixed(gs, order, prev);
        assert(in_any_group(gs, pairs[pairs.len() - 1].0));
    }
}

} // verus!
