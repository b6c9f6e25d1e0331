use vstd::prelude::*;
use vstd::string::*;

verus! {

/// The icons of the workspace indicator.
pub struct WorkspacesIcons {
    pub active: String,
    pub inactive: String,
}

/// Whether position `i` (from 0) of the indicator shows the active icon:
/// the active workspace is numbered from 1, and one numbered past the end
/// lights the last position.
pub open spec fn is_active_at(i: int, active: int, length: int) -> bool {
    i + 1 == active || (i == length - 1 && active > length)
}

/// The first `n` positions of the indicator, each icon followed by a space.
pub open spec fn indicator(active_icon: Seq<char>, inactive_icon: Seq<char>, active: int, length: int, n: nat) -> Seq<char>
    decreases n,
{
    if n == 0 {
        Seq::empty()
    } else {
        indicator(active_icon, inactive_icon, active, length, (n - 1) as nat) + (if is_active_at(
            n - 1,
            active,
            length,
        ) {
            active_icon
        } else {
            inactive_icon
        }) + seq![' ']
    }
}

/// The workspace indicator: one icon per workspace, the active one marked.
pub fn workspaces(icons: &WorkspacesIcons, active_workspace: usize, length: usize) -> (r: String)
    ensures
        r@ == indicator(icons.active@, icons.inactive@, active_workspace as int, length as int, length as nat),
{
    let mut line = String::new();
    let mut i: usize = 0;
    while i < length
        invariant
            0 <= i <= length,
            line@ == indicator(icons.active@, icons.inactive@, active_workspace as int, length as int, i as nat),
        decreases length - i,
    {
        if i + 1 == active_workspace || (i + 1 == length && active_workspace > length) {
            line.append(icons.active.as_str());
        } else {
            line.append(icons.inactive.as_str());
        }
        line.append(" ");
        proof {
            reveal_strlit(" ");
        }
        i = i + 1;
    }
    line
}

/// The active workspace and the workspace count as Hyprland reports them.
/// The id is taken as `usize` the way Rust's `as` does: a negative id (a
/// special workspace) becomes a number past the end.
pub fn hyprland(active_id: i32, workspace_count: usize) -> (r: (usize, usize))
    ensures
        r == (active_id as usize, workspace_count),
{
    (active_id as usize, workspace_count)
}

} // verus!
