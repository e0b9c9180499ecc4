//! Keeping the show running when the niri compositor takes the window off
//! screen: whether one of our windows sits on an active workspace, and
//! when the watcher pauses or resumes painting.
use vstd::prelude::*;

verus! {

/// At most one visibility check per this many nanoseconds.
pub const CHECK_INTERVAL_NS: u64 = 100_000_000;

/// A window as the compositor lists it: the process that owns it and the
/// workspace it is on, where the reply gives them.
#[derive(Clone, Copy, Debug, PartialEq, Eq, Structural)]
pub struct WindowInfo {
    pub pid: Option<u64>,
    pub workspace_id: Option<u64>,
}

/// A workspace as the compositor lists it.
#[derive(Clone, Copy, Debug, PartialEq, Eq, Structural)]
pub struct WorkspaceInfo {
    pub id: Option<u64>,
    pub is_active: Option<bool>,
}

/// Whether workspace `id` is listed as active.
pub open spec fn workspace_active(workspaces: Seq<WorkspaceInfo>, id: u64) -> bool {
    exists|j: int| 0 <= j < workspaces.len() && #[trigger] workspaces[j].id == Some(id)
        && workspaces[j].is_active == Some(true)
}

/// Whether window `w` belongs to process `pid`.
pub open spec fn owned_by(w: WindowInfo, pid: u64) -> bool {
    w.pid == Some(pid)
}

/// Whether window `w` is on an active workspace.
pub open spec fn on_active_workspace(w: WindowInfo, workspaces: Seq<WorkspaceInfo>) -> bool {
    match w.workspace_id {
        Some(id) => workspace_active(workspaces, id),
        None => false,
    }
}

/// Visibility from the listed windows and workspaces: unknown while none of
/// the windows of process `pid` is listed, else whether one of them is on
/// an active workspace.
pub open spec fn spec_visibility(
    windows: Seq<WindowInfo>,
    workspaces: Seq<WorkspaceInfo>,
    pid: u64,
) -> Option<bool> {
    if !(exists|i: int| 0 <= i < windows.len() && owned_by(#[trigger] windows[i], pid)) {
        None
    } else {
        Some(
            exists|i: int|
                0 <= i < windows.len() && owned_by(#[trigger] windows[i], pid) && on_active_workspace(
                    windows[i],
                    workspaces,
                ),
        )
    }
}

fn is_active_workspace(workspaces: &Vec<WorkspaceInfo>, id: u64) -> (r: bool)
    ensures
        r == workspace_active(workspaces@, id),
{
    let mut j: usize = 0;
    while j < workspaces.len()
        invariant
            j <= workspaces@.len(),
            forall|k: int|
                0 <= k < j ==> !(#[trigger] workspaces@[k].id == Some(id) && workspaces@[k].is_active
                    == Some(true)),
        decreases workspaces@.len() - j,
    {
        let w = workspaces[j];
        if w.id == Some(id) && w.is_active == Some(true) {
            return true;
        }
        j = j + 1;
    }
    false
}

/// Whether a window of process `pid` is on screen, as far as the listed
/// windows and workspaces tell.
pub fn visibility(windows: &Vec<WindowInfo>, workspaces: &Vec<WorkspaceInfo>, pid: u64) -> (r: Option<
    bool,
>)
    ensures
        r == spec_visibility(windows@, workspaces@, pid),
{
    let mut seen_ours = false;
    let mut i: usize = 0;
    while i < windows.len()
        invariant
            i <= windows@.len(),
            seen_ours == exists|k: int| 0 <= k < i && owned_by(#[trigger] windows@[k], pid),
            forall|k: int|
                0 <= k < i ==> !(owned_by(#[trigger] windows@[k], pid) && on_active_workspace(
                    windows@[k],
                    workspaces@,
                )),
        decreases windows@.len() - i,
    {
        let w = windows[i];
        if w.pid == Some(pid) {
            seen_ours = true;
            let on_screen = match w.workspace_id {
                Some(id) => is_active_workspace(workspaces, id),
                None => false,
            };
            if on_screen {
                return Some(true);
            }
        }
        assert(owned_by(windows@[i as int], pid) ==> exists|k: int|
            0 <= k < i + 1 && owned_by(#[trigger] windows@[k], pid));
        i = i + 1;
    }
    if seen_ours {
        Some(false)
    } else {
        None
    }
}

/// What the watcher remembers across checks: whether the current pause of
/// painting is its own, and whether the window has been on screen once.
#[derive(Clone, Copy, Debug, PartialEq, Eq, Structural)]
pub struct WatchState {
    pub paused_by_us: bool,
    pub seen_visible: bool,
}

/// What the watcher does to painting after a check.
#[derive(Clone, Copy, Debug, PartialEq, Eq, Structural)]
pub enum PaintingChange {
    Keep,
    Pause,
    Resume,
}

impl WatchState {
    /// Nothing seen, nothing paused.
    pub fn new() -> (r: Self)
        ensures
            r == (WatchState { paused_by_us: false, seen_visible: false }),
    {
        WatchState { paused_by_us: false, seen_visible: false }
    }

    /// The step after a check that found the window on screen or not
    /// (`painting_skipped`: whether painting is paused at the moment, by
    /// anyone). The first sighting only arms the watcher; once armed, it
    /// pauses painting when the window leaves the screen and painting runs,
    /// and it resumes only a pause of its own.
    pub fn on_check(self, visible: bool, painting_skipped: bool) -> (r: (WatchState, PaintingChange))
        ensures
            r == (if visible {
                if !self.seen_visible {
                    (WatchState { seen_visible: true, ..self }, PaintingChange::Keep)
                } else if self.paused_by_us {
                    (WatchState { paused_by_us: false, ..self }, PaintingChange::Resume)
                } else {
                    (self, PaintingChange::Keep)
                }
            } else if self.seen_visible && !painting_skipped {
                (WatchState { paused_by_us: true, ..self }, PaintingChange::Pause)
            } else {
                (self, PaintingChange::Keep)
            }),
            r.1 is Resume ==> self.paused_by_us && visible,
            r.1 is Pause ==> self.seen_visible && !visible && !painting_skipped,
    {
        if visible {
            if !self.seen_visible {
                (WatchState { seen_visible: true, ..self }, PaintingChange::Keep)
            } else if self.paused_by_us {
                (WatchState { paused_by_us: false, ..self }, PaintingChange::Resume)
            } else {
                (self, PaintingChange::Keep)
            }
        } else if self.seen_visible && !painting_skipped {
            (WatchState { paused_by_us: true, ..self }, PaintingChange::Pause)
        } else {
            (self, PaintingChange::Keep)
        }
    }
}

/// Whether a check is due at `now_ns` after one at `last_check_ns` (both on
/// one monotonic clock).
pub fn check_due(last_check_ns: u64, now_ns: u64) -> (r: bool)
    ensures
        r == (now_ns >= last_check_ns && now_ns - last_check_ns >= CHECK_INTERVAL_NS),
{
    now_ns >= last_check_ns && now_ns - last_check_ns >= CHECK_INTERVAL_NS
}

} // verus!
