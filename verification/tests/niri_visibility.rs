use gled::niri::{check_due, visibility, PaintingChange, WatchState, WindowInfo, WorkspaceInfo};

fn window(pid: u64, workspace: u64) -> WindowInfo {
    WindowInfo { pid: Some(pid), workspace_id: Some(workspace) }
}

fn workspace(id: u64, active: bool) -> WorkspaceInfo {
    WorkspaceInfo { id: Some(id), is_active: Some(active) }
}

#[test]
fn visibility_is_unknown_without_our_windows() {
    let windows = vec![window(7, 1)];
    let workspaces = vec![workspace(1, true)];
    assert_eq!(visibility(&windows, &workspaces, 42), None);
    assert_eq!(visibility(&Vec::new(), &workspaces, 42), None);
}

#[test]
fn visible_when_one_of_our_windows_is_on_an_active_workspace() {
    let windows = vec![window(42, 1), window(42, 2), window(7, 3)];
    let workspaces = vec![workspace(1, false), workspace(2, true), workspace(3, true)];
    assert_eq!(visibility(&windows, &workspaces, 42), Some(true));
}

#[test]
fn hidden_when_our_windows_are_on_inactive_workspaces() {
    let windows = vec![
        window(42, 1),
        WindowInfo { pid: Some(42), workspace_id: None },
        window(7, 3),
    ];
    let workspaces = vec![
        workspace(1, false),
        WorkspaceInfo { id: Some(1), is_active: None },
        workspace(3, true),
    ];
    assert_eq!(visibility(&windows, &workspaces, 42), Some(false));
}

#[test]
fn watcher_arms_on_first_sighting_then_pauses_and_resumes() {
    let s = WatchState::new();
    // Off screen before ever being seen: nothing happens.
    let (s, change) = s.on_check(false, false);
    assert_eq!(change, PaintingChange::Keep);
    assert!(!s.seen_visible);
    let (s, change) = s.on_check(true, false);
    assert_eq!(change, PaintingChange::Keep);
    assert!(s.seen_visible);
    let (s, change) = s.on_check(false, false);
    assert_eq!(change, PaintingChange::Pause);
    assert!(s.paused_by_us);
    let (s, change) = s.on_check(true, true);
    assert_eq!(change, PaintingChange::Resume);
    assert_eq!(s, WatchState { paused_by_us: false, seen_visible: true });
}

#[test]
fn watcher_leaves_a_foreign_pause_alone() {
    let s = WatchState { paused_by_us: false, seen_visible: true };
    // Painting already paused by someone else: no pause of our own.
    let (s, change) = s.on_check(false, true);
    assert_eq!(change, PaintingChange::Keep);
    assert!(!s.paused_by_us);
    // Back on screen: that pause is not ours to resume.
    let (_, change) = s.on_check(true, true);
    assert_eq!(change, PaintingChange::Keep);
}

#[test]
fn checks_are_spaced_by_the_interval() {
    assert!(!check_due(1_000_000_000, 1_050_000_000));
    assert!(check_due(1_000_000_000, 1_100_000_000));
    assert!(!check_due(1_000_000_000, 900_000_000));
}
