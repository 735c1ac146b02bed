//! The sidebar's decisions about project groups: which group comes next when cycling,
//! which workspace opens a group, what the group menu offers, and the labels it shows.
//! Groups and workspaces are named by integer keys.

use vstd::prelude::*;
use crate::text::{decimal, push_decimal};

verus! {

/// The first index at which `key` occurs in `keys`, if any.
pub open spec fn first_index_of(keys: Seq<u64>, key: u64) -> Option<int> {
    if exists|i: int| 0 <= i < keys.len() && keys[i] == key {
        Some(choose|i: int| 0 <= i < keys.len() && keys[i] == key
            && forall|j: int| 0 <= j < i ==> keys[j] != key)
    } else {
        None
    }
}

/// The position of `key` in `keys`: its first occurrence.
pub fn position_of(keys: &Vec<u64>, key: u64) -> (r: Option<usize>)
    ensures
        match r {
            Some(i) => i < keys@.len() && keys@[i as int] == key
                && forall|j: int| 0 <= j < i ==> keys@[j] != key,
            None => forall|j: int| 0 <= j < keys@.len() ==> keys@[j] != key,
        },
        r matches Some(i) ==> first_index_of(keys@, key) == Some(i as int),
        r is None ==> first_index_of(keys@, key) is None,
{
    let mut i: usize = 0;
    while i < keys.len()
        invariant
            i <= keys@.len(),
            forall|j: int| 0 <= j < i ==> keys@[j] != key,
        decreases keys@.len() - i,
    {
        if keys[i] == key {
            proof {
                let w = choose|w: int| 0 <= w < keys@.len() && keys@[w] == key
                    && forall|j: int| 0 <= j < w ==> keys@[j] != key;
                assert(0 <= i < keys@.len() && keys@[i as int] == key
                    && forall|j: int| 0 <= j < i ==> keys@[j] != key);
                if w < i {
                } else if w > i {
                    assert(keys@[i as int] != key);
                }
            }
            return Some(i);
        }
        i = i + 1;
    }
    None
}

/// The index after `active` going forward, or before it going backward, wrapping around.
pub open spec fn cycled(active: int, len: int, forward: bool) -> int {
    if forward {
        (active + 1) % len
    } else {
        (active + len - 1) % len
    }
}

/// The group index reached by cycling once from `active` among `len` groups.
pub fn cycle_index(active: usize, len: usize, forward: bool) -> (r: usize)
    requires
        active < len,
    ensures
        r == cycled(active as int, len as int, forward),
        r < len,
{
    proof {
        let (a, n) = (active as int, len as int);
        if forward {
            if a + 1 == n {
                vstd::arithmetic::div_mod::lemma_mod_self_0(n);
            } else {
                vstd::arithmetic::div_mod::lemma_small_mod((a + 1) as nat, n as nat);
            }
        } else if a == 0 {
            vstd::arithmetic::div_mod::lemma_small_mod((n - 1) as nat, n as nat);
        } else {
            vstd::arithmetic::div_mod::lemma_mod_add_multiples_vanish(a - 1, n);
            vstd::arithmetic::div_mod::lemma_small_mod((a - 1) as nat, n as nat);
        }
    }
    if forward {
        if active + 1 == len { 0 } else { active + 1 }
    } else {
        if active == 0 { len - 1 } else { active - 1 }
    }
}

/// Cycling forward and then backward, or backward and then forward, comes back to the
/// group one started from.
pub proof fn law_cycle_round_trip(active: int, len: int, forward: bool)
    requires
        0 <= active < len,
    ensures
        0 <= cycled(active, len, forward) < len,
        cycled(cycled(active, len, forward), len, !forward) == active,
{
    if forward {
        if active + 1 == len {
            assert((active + 1) % len == 0) by {
                vstd::arithmetic::div_mod::lemma_mod_self_0(len);
            }
            assert((len - 1) % len == len - 1) by {
                vstd::arithmetic::div_mod::lemma_small_mod((len - 1) as nat, len as nat);
            }
        } else {
            vstd::arithmetic::div_mod::lemma_small_mod((active + 1) as nat, len as nat);
            assert((active + 1 + len - 1) % len == active) by {
                vstd::arithmetic::div_mod::lemma_mod_add_multiples_vanish(active, len);
                vstd::arithmetic::div_mod::lemma_small_mod(active as nat, len as nat);
            }
        }
    } else {
        if active == 0 {
            vstd::arithmetic::div_mod::lemma_small_mod((len - 1) as nat, len as nat);
            assert((len - 1 + 1) % len == 0) by {
                vstd::arithmetic::div_mod::lemma_mod_self_0(len);
            }
        } else {
            assert((active + len - 1) % len == active - 1) by {
                vstd::arithmetic::div_mod::lemma_mod_add_multiples_vanish(active - 1, len);
                vstd::arithmetic::div_mod::lemma_small_mod((active - 1) as nat, len as nat);
            }
            vstd::arithmetic::div_mod::lemma_small_mod(active as nat, len as nat);
        }
    }
}

/// The group to switch to from the active group's key, in the sidebar that starts over at
/// the first group when the active one is not listed: `None` when there are no groups.
pub fn next_group(keys: &Vec<u64>, active_key: u64, forward: bool) -> (r: Option<usize>)
    ensures
        keys@.len() == 0 <==> r is None,
        r matches Some(n) ==> match first_index_of(keys@, active_key) {
            Some(p) => n == cycled(p, keys@.len() as int, forward),
            None => n == 0,
        },
{
    if keys.len() == 0 {
        return None;
    }
    match position_of(keys, active_key) {
        Some(p) => Some(cycle_index(p, keys.len(), forward)),
        None => Some(0),
    }
}

/// The group to switch to from the active group's key, in the sidebar that cycles from
/// the first group when the active one is not listed: `None` when there are no groups.
pub fn next_group_from_first(keys: &Vec<u64>, active_key: u64, forward: bool) -> (r: Option<usize>)
    ensures
        keys@.len() == 0 <==> r is None,
        r matches Some(n) ==> match first_index_of(keys@, active_key) {
            Some(p) => n == cycled(p, keys@.len() as int, forward),
            None => n == cycled(0, keys@.len() as int, forward),
        },
{
    if keys.len() == 0 {
        return None;
    }
    let active = match position_of(keys, active_key) {
        Some(p) => p,
        None => 0,
    };
    Some(cycle_index(active, keys.len(), forward))
}

/// The workspace that opens a group: the group's last active workspace, else the first
/// workspace of the group.
#[derive(Clone, Copy, Debug, PartialEq, Eq, Structural)]
pub enum WorkspaceChoice {
    LastActive(u64),
    Workspace(usize),
}

/// The workspace that opens the group `key`, given its last active workspace and the
/// group key of each workspace; `None` when the group has no workspace.
pub fn workspace_for_group(last_active: Option<u64>, workspace_groups: &Vec<u64>, key: u64) -> (r: Option<WorkspaceChoice>)
    ensures
        match last_active {
            Some(w) => r == Some(WorkspaceChoice::LastActive(w)),
            None => match first_index_of(workspace_groups@, key) {
                Some(i) => r == Some(WorkspaceChoice::Workspace(i as usize)),
                None => r is None,
            },
        },
{
    match last_active {
        Some(w) => Some(WorkspaceChoice::LastActive(w)),
        None => match position_of(workspace_groups, key) {
            Some(i) => Some(WorkspaceChoice::Workspace(i)),
            None => None,
        },
    }
}

/// Which entries of a group's menu are enabled.
#[derive(Clone, Copy, Debug, PartialEq, Eq, Structural)]
pub struct ProjectMenuState {
    pub can_open_in_new_window: bool,
    pub can_move_up: bool,
    pub can_move_down: bool,
}

/// The menu of the group `key` among the groups `keys`: moving up needs a group above,
/// moving down a group below, and opening in a new window at least two groups.
pub fn project_menu_state(keys: &Vec<u64>, key: u64) -> (r: ProjectMenuState)
    ensures
        r.can_open_in_new_window == (keys@.len() >= 2),
        r.can_move_up == (first_index_of(keys@, key) matches Some(i) && i > 0),
        r.can_move_down == (first_index_of(keys@, key) matches Some(i) && i + 1 < keys@.len()),
{
    let count = keys.len();
    let index = position_of(keys, key);
    let can_move_up = match index {
        Some(i) => i > 0,
        None => false,
    };
    let can_move_down = match index {
        Some(i) => i + 1 < count,
        None => false,
    };
    ProjectMenuState { can_open_in_new_window: count >= 2, can_move_up, can_move_down }
}

/// The names joined with `", "` between them.
pub open spec fn joined(names: Seq<Seq<char>>) -> Seq<char>
    decreases names.len(),
{
    if names.len() == 0 {
        Seq::empty()
    } else if names.len() == 1 {
        names[0]
    } else {
        joined(names.drop_last()) + ", "@ + names.last()
    }
}

/// The label of a workspace: its worktree names joined with `", "`, or `Empty project`
/// when that is empty.
pub open spec fn workspace_label_of(names: Seq<Seq<char>>) -> Seq<char> {
    if joined(names).len() == 0 { "Empty project"@ } else { joined(names) }
}

/// The label of a workspace with the given visible worktree names.
pub fn workspace_label(names: &Vec<String>) -> (r: String)
    ensures
        r@ == workspace_label_of(names@.map_values(|n: String| n@)),
{
    let ghost ns = names@.map_values(|n: String| n@);
    let mut out = String::new();
    let mut i: usize = 0;
    while i < names.len()
        invariant
            ns == names@.map_values(|n: String| n@),
            i <= names@.len(),
            out@ == joined(ns.take(i as int)),
        decreases names@.len() - i,
    {
        proof {
            assert(ns.take(i + 1).drop_last() =~= ns.take(i as int));
            assert(ns.take(i + 1).last() == names@[i as int]@);
            if i == 0 {
                assert(ns.take(1)[0] == names@[0]@);
            }
        }
        if i > 0 {
            out.append(", ");
        }
        out.append(names[i].as_str());
        proof {
            if i == 0 {
                assert(out@ =~= joined(ns.take(1)));
            } else {
                assert(out@ =~= joined(ns.take(i + 1)));
            }
        }
        i = i + 1;
    }
    proof {
        assert(ns.take(names@.len() as int) =~= ns);
    }
    if out.as_str().is_empty() {
        String::from_str("Empty project")
    } else {
        out
    }
}

/// The message that describes the local workspace.
pub fn workspace_info_message(worktree_count: u64) -> (r: String)
    ensures
        r@ == "Local workspace with "@ + decimal(worktree_count as nat) + " worktree(s)"@,
{
    let mut s = String::from_str("Local workspace with ");
    push_decimal(&mut s, worktree_count);
    s.append(" worktree(s)");
    s
}


/// With at least two groups, a listed group can always be moved up or down.
pub proof fn law_listed_group_can_move(keys: Seq<u64>, key: u64)
    requires
        keys.len() >= 2,
        keys.contains(key),
    ensures
        first_index_of(keys, key) matches Some(i) && (i > 0 || i + 1 < keys.len()),
{
    let w = choose|i: int| 0 <= i < keys.len() && keys[i] == key;
    assert(0 <= w < keys.len() && keys[w] == key);
    let i = choose|i: int| 0 <= i < keys.len() && keys[i] == key
        && forall|j: int| 0 <= j < i ==> keys[j] != key;
    assert(exists|i: int| 0 <= i < keys.len() && keys[i] == key
        && forall|j: int| 0 <= j < i ==> keys[j] != key) by {
        lemma_first_occurrence(keys, key, w);
    }
}

proof fn lemma_first_occurrence(keys: Seq<u64>, key: u64, w: int)
    requires
        0 <= w < keys.len(),
        keys[w] == key,
    ensures
        exists|i: int| 0 <= i < keys.len() && keys[i] == key && forall|j: int| 0 <= j < i ==> keys[j] != key,
    decreases w,
{
    if exists|j: int| 0 <= j < w && keys[j] == key {
        let j = choose|j: int| 0 <= j < w && keys[j] == key;
        lemma_first_occurrence(keys, key, j);
    } else {
        assert(forall|j: int| 0 <= j < w ==> keys[j] != key);
    }
}


/// A project group as the sidebar lists it: its key and the keys of its workspaces.
#[derive(Debug, Clone, PartialEq, Eq)]
pub struct ProjectGroupEntry {
    pub key: u64,
    pub workspaces: Vec<u64>,
}

/// A row of the sidebar's project list.
#[derive(Debug, Clone, Copy, PartialEq, Eq, Structural)]
pub enum SidebarRow {
    /// The row of a group, highlighted when it is the active group.
    Group { index: usize, active: bool },
    /// The row of one workspace of a group with several, highlighted when it is the
    /// active workspace; `element_id` tells the rows apart.
    Workspace { group_index: usize, workspace_index: usize, element_id: u64, active: bool },
}

/// The rows of one group: its own row, then, when it has more than one workspace, a row
/// for each of them.
pub open spec fn group_rows(g: ProjectGroupEntry, index: int, active_key: u64, active_workspace: u64) -> Seq<SidebarRow> {
    seq![SidebarRow::Group { index: index as usize, active: g.key == active_key }]
        + if g.workspaces@.len() > 1 {
            Seq::new(g.workspaces@.len(), |w: int| SidebarRow::Workspace {
                group_index: index as usize,
                workspace_index: w as usize,
                element_id: (index * 1000 + w) as u64,
                active: g.workspaces@[w] == active_workspace,
            })
        } else {
            Seq::empty()
        }
}

/// The rows of the groups, group after group.
pub open spec fn sidebar_rows_of(groups: Seq<ProjectGroupEntry>, active_key: u64, active_workspace: u64) -> Seq<SidebarRow>
    decreases groups.len(),
{
    if groups.len() == 0 {
        Seq::empty()
    } else {
        sidebar_rows_of(groups.drop_last(), active_key, active_workspace)
            + group_rows(groups.last(), groups.len() - 1, active_key, active_workspace)
    }
}

/// The element ids of the workspace rows fit in `usize`.
pub open spec fn row_ids_fit(groups: Seq<ProjectGroupEntry>) -> bool {
    forall|i: int| 0 <= i < groups.len() ==> i * 1000 + (#[trigger] groups[i]).workspaces@.len() <= usize::MAX
}

/// The project sidebar's list: for each group, in order, whether its row is the active
/// one; and whether the list shows its placeholder instead.
#[derive(Debug, PartialEq, Eq)]
pub struct ProjectRows {
    pub active: Vec<bool>,
    pub show_placeholder: bool,
}

/// The project sidebar's list for the groups with the given keys: one row per group in
/// order, active exactly when its key is the active key, and the placeholder exactly when
/// there are no groups.
pub fn project_rows(keys: &Vec<u64>, active_key: u64) -> (r: ProjectRows)
    ensures
        r.active@.len() == keys@.len(),
        forall|i: int| 0 <= i < keys@.len() ==> r.active@[i] == (#[trigger] keys@[i] == active_key),
        r.show_placeholder == (keys@.len() == 0),
{
    let mut active: Vec<bool> = Vec::new();
    let mut i: usize = 0;
    while i < keys.len()
        invariant
            i <= keys@.len(),
            active@.len() == i,
            forall|k: int| 0 <= k < i ==> active@[k] == (#[trigger] keys@[k] == active_key),
        decreases keys@.len() - i,
    {
        active.push(keys[i] == active_key);
        i = i + 1;
    }
    ProjectRows { active, show_placeholder: keys.len() == 0 }
}

/// The rows of the sidebar's project list, given the active group and workspace.
pub fn sidebar_rows(groups: &Vec<ProjectGroupEntry>, active_key: u64, active_workspace: u64) -> (r: Vec<SidebarRow>)
    requires
        row_ids_fit(groups@),
    ensures
        r@ == sidebar_rows_of(groups@, active_key, active_workspace),
{
    let mut rows: Vec<SidebarRow> = Vec::new();
    let mut gi: usize = 0;
    proof {
        assert(groups@.take(0) =~= Seq::<ProjectGroupEntry>::empty());
    }
    while gi < groups.len()
        invariant
            row_ids_fit(groups@),
            gi <= groups@.len(),
            rows@ == sidebar_rows_of(groups@.take(gi as int), active_key, active_workspace),
        decreases groups@.len() - gi,
    {
        let g = &groups[gi];
        let ghost before = rows@;
        rows.push(SidebarRow::Group { index: gi, active: g.key == active_key });
        let n = g.workspaces.len();
        if n > 1 {
            proof {
                assert(gi * 1000 + g.workspaces@.len() <= usize::MAX);
            }
            let mut wi: usize = 0;
            while wi < n
                invariant
                    n == g.workspaces@.len(),
                    n > 1,
                    gi * 1000 + n <= usize::MAX,
                    wi <= n,
                    rows@ == before + seq![SidebarRow::Group { index: gi, active: g.key == active_key }]
                        + Seq::new(wi as nat, |w: int| SidebarRow::Workspace {
                            group_index: gi,
                            workspace_index: w as usize,
                            element_id: (gi * 1000 + w) as u64,
                            active: g.workspaces@[w] == active_workspace,
                        }),
                decreases n - wi,
            {
                let element_id = (gi * 1000 + wi) as u64;
                rows.push(SidebarRow::Workspace {
                    group_index: gi,
                    workspace_index: wi,
                    element_id,
                    active: g.workspaces[wi] == active_workspace,
                });
                let ghost prev_wi = wi;
                wi = wi + 1;
                proof {
                    assert(Seq::new(wi as nat, |w: int| SidebarRow::Workspace {
                            group_index: gi,
                            workspace_index: w as usize,
                            element_id: (gi * 1000 + w) as u64,
                            active: g.workspaces@[w] == active_workspace,
                        }) =~= Seq::new(prev_wi as nat, |w: int| SidebarRow::Workspace {
                            group_index: gi,
                            workspace_index: w as usize,
                            element_id: (gi * 1000 + w) as u64,
                            active: g.workspaces@[w] == active_workspace,
                        }).push(SidebarRow::Workspace {
                            group_index: gi,
                            workspace_index: prev_wi,
                            element_id,
                            active: g.workspaces@[prev_wi as int] == active_workspace,
                        }));
                }
            }
        }
        proof {
            assert(groups@.take(gi + 1).drop_last() =~= groups@.take(gi as int));
            assert(groups@.take(gi + 1).last() == groups@[gi as int]);
            assert(rows@ =~= sidebar_rows_of(groups@.take(gi + 1), active_key, active_workspace));
        }
        gi = gi + 1;
    }
    proof {
        assert(groups@.take(groups@.len() as int) =~= groups@);
    }
    rows
}

/// Which sides of a tiled window touch the screen's edge.
#[derive(Debug, Clone, Copy, PartialEq, Eq, Structural)]
pub struct Tiling {
    pub top: bool,
    pub left: bool,
    pub right: bool,
    pub bottom: bool,
}

/// Which corners of the sidebar are rounded.
#[derive(Debug, Clone, Copy, PartialEq, Eq, Structural)]
pub struct RoundedCorners {
    pub top_left: bool,
    pub bottom_left: bool,
    pub top_right: bool,
    pub bottom_right: bool,
}

/// The rounded corners of a sidebar on the left (or right) of a window: with the
/// client drawing the decorations (`Some` tiling), the sidebar's outer corners are
/// rounded unless the window is tiled against either edge they touch; with the server
/// drawing them, none are.
pub fn rounded_corners(on_left: bool, client_tiling: Option<Tiling>) -> (r: RoundedCorners)
    ensures
        match client_tiling {
            None => r == (RoundedCorners { top_left: false, bottom_left: false, top_right: false, bottom_right: false }),
            Some(t) => r == (RoundedCorners {
                top_left: on_left && !(t.top || t.left),
                bottom_left: on_left && !(t.bottom || t.left),
                top_right: !on_left && !(t.top || t.right),
                bottom_right: !on_left && !(t.bottom || t.right),
            }),
        },
{
    match client_tiling {
        None => RoundedCorners { top_left: false, bottom_left: false, top_right: false, bottom_right: false },
        Some(t) => RoundedCorners {
            top_left: on_left && !(t.top || t.left),
            bottom_left: on_left && !(t.bottom || t.left),
            top_right: !on_left && !(t.top || t.right),
            bottom_right: !on_left && !(t.bottom || t.right),
        },
    }
}


/// Where the sidebar's header draws the window controls.
#[derive(Debug, Clone, Copy, PartialEq, Eq, Structural)]
pub struct HeaderControls {
    pub left: bool,
    pub right: bool,
}

/// The header draws the window controls on the sidebar's side, except on macOS and in
/// full screen.
pub fn header_window_controls(is_macos: bool, fullscreen: bool, simple_fullscreen: bool, on_left: bool) -> (r: HeaderControls)
    ensures
        r.left == (!is_macos && !fullscreen && !simple_fullscreen && on_left),
        r.right == (!is_macos && !fullscreen && !simple_fullscreen && !on_left),
{
    let not_fullscreen = !fullscreen && !simple_fullscreen;
    HeaderControls { left: !is_macos && not_fullscreen && on_left, right: !is_macos && not_fullscreen && !on_left }
}

/// The text of the title bar: none when the workspace has a visible worktree (the pane's
/// tab bar takes the top of the window), else the editor's name.
pub fn title_bar_label(has_visible_worktree: bool) -> (r: Option<&'static str>)
    ensures
        has_visible_worktree ==> r is None,
        !has_visible_worktree ==> (r matches Some(s) && s@ == "Light Code"@),
{
    if has_visible_worktree {
        None
    } else {
        Some("Light Code")
    }
}

} // verus!
