use cua_driver::guard::{
    await_launch, background_pid_reaper, background_placement_guard, enforce_background_placement,
    guard_background_placement_for_pid_lifetime, known_windows, launched_window, proc_start_time,
    spawn_focus_restore_guard, stat_path, FocusEvent, FocusGuard, FocusStep, GuardTier, LaunchStep, ReaperStep, SweeperStep,
};
use cua_driver::hyprland::{HyprClient, HyprWorkspaceRef, WindowInfo};

fn client(address: &str, pid: i64, workspace: Option<i64>) -> HyprClient {
    HyprClient {
        address: address.to_string(),
        mapped: true,
        hidden: false,
        pid,
        title: "t".to_string(),
        class: "c".to_string(),
        at: [0, 0],
        size: [100, 100],
        monitor: Some(0),
        workspace: workspace.map(|id| HyprWorkspaceRef { id }),
    }
}

fn window(xid: u64, workspace_id: Option<i64>) -> WindowInfo {
    WindowInfo {
        xid,
        pid: Some(9),
        title: format!("w{xid}"),
        x: 0,
        y: 0,
        width: 10,
        height: 10,
        workspace_id,
    }
}

fn stat(name: &str, start: &str) -> String {
    let mut s = format!("1234 ({name}) S");
    for i in 1..19 {
        s.push_str(&format!(" {i}"));
    }
    format!("{s} {start} 999 1000\n")
}

#[test]
fn proc_start_time_none_once_gone() {
    // The idle task never has a stat entry.
    assert_eq!(stat_path(0), "/proc/0/stat");
    assert_eq!(proc_start_time(None), None);
}

#[test]
fn start_times_are_read_whatever_the_name() {
    assert_eq!(proc_start_time(Some(&stat("bash", "5511"))), Some(5511));
    assert_eq!(proc_start_time(Some(&stat("a) b (c) ", "77"))), Some(77));
    assert_eq!(
        proc_start_time(Some(&stat("x", "18446744073709551615"))),
        Some(u64::MAX)
    );
    assert_eq!(proc_start_time(Some(&stat("x", "18446744073709551616"))), None);
    assert_eq!(proc_start_time(Some(&stat("x", "-1"))), None);
    assert_eq!(proc_start_time(Some("1234 bash S 1 2 3")), None);
    assert_eq!(proc_start_time(Some("1234 (bash) S 1 2 3")), None);
    assert_eq!(proc_start_time(Some("")), None);
    assert_eq!(stat_path(4294967295), "/proc/4294967295/stat");
}

#[test]
fn only_the_windows_of_the_process_are_swept() {
    let clients = [
        client("0x1", 9, Some(2)),
        client("0x2", 9, Some(-98)),
        client("0x3", 8, Some(2)),
        client("0x4", 9, None),
        client("oops", 9, Some(1)),
        client("0x5", 9, Some(0)),
        client("0x6", 4294967305, Some(1)),
    ];
    assert_eq!(enforce_background_placement(Some(&clients), 9), vec![1, 5]);
    assert!(enforce_background_placement(Some(&clients), 7).is_empty());
    assert!(enforce_background_placement(None, 9).is_empty());
}

#[test]
fn one_sweep_leaves_nothing_to_sweep() {
    let mut clients = vec![client("0x1", 9, Some(2)), client("0x2", 9, Some(5))];
    let swept = enforce_background_placement(Some(&clients), 9);
    assert_eq!(swept, vec![1, 2]);
    for c in clients.iter_mut() {
        c.workspace = Some(HyprWorkspaceRef { id: -98 });
    }
    assert!(enforce_background_placement(Some(&clients), 9).is_empty());
}

#[test]
fn the_compositor_guards_where_it_can() {
    assert_eq!(guard_background_placement_for_pid_lifetime(true), GuardTier::Compositor);
    assert_eq!(guard_background_placement_for_pid_lifetime(false), GuardTier::Polling);
}

#[test]
fn the_reaper_waits_for_the_very_process() {
    assert_eq!(background_pid_reaper(Some(5), Some(5)), ReaperStep::Wait { ms: 1000 });
    assert_eq!(background_pid_reaper(Some(5), Some(6)), ReaperStep::Unregister);
    assert_eq!(background_pid_reaper(Some(5), None), ReaperStep::Unregister);
    assert_eq!(background_pid_reaper(None, None), ReaperStep::Unregister);
}

#[test]
fn the_sweeper_slows_down_and_ends() {
    let soon = SweeperStep::WaitAndSweep { ms: 300 };
    let later = SweeperStep::WaitAndSweep { ms: 1000 };
    assert_eq!(background_placement_guard(Some(5), Some(5), 0), soon);
    assert_eq!(background_placement_guard(Some(5), Some(5), 29_999), soon);
    assert_eq!(background_placement_guard(Some(5), Some(5), 30_000), later);
    assert_eq!(background_placement_guard(Some(5), Some(6), 0), SweeperStep::End);
    assert_eq!(background_placement_guard(Some(5), None, 0), SweeperStep::End);
    assert_eq!(background_placement_guard(None, None, 0), SweeperStep::End);
}

#[test]
fn a_launch_reports_its_window() {
    let known = known_windows(&[window(1, Some(1)), window(2, Some(-98))]);
    assert_eq!(known.len(), 2);
    let same = [window(2, Some(-98)), window(1, Some(1))];
    assert!(launched_window(&known, &same).is_none());
    let plain = [window(1, Some(1)), window(3, Some(1)), window(4, None)];
    assert_eq!(launched_window(&known, &plain).unwrap().xid, 3);
    let special = [window(3, Some(1)), window(2, Some(-98)), window(5, Some(-97)), window(6, Some(-97))];
    assert_eq!(launched_window(&known, &special).unwrap().xid, 5);
    assert!(launched_window(&known, &[]).is_none());
}

#[test]
fn a_launch_is_awaited_for_ten_seconds() {
    assert_eq!(await_launch(0), LaunchStep::WaitAndLook { ms: 250 });
    assert_eq!(await_launch(9_999), LaunchStep::WaitAndLook { ms: 250 });
    assert_eq!(await_launch(10_000), LaunchStep::NoWindow);
}

/// Asks a watch for a reading, and gives it.
fn look(guard: &mut FocusGuard, elapsed_ms: u64, active: Option<u64>) -> FocusStep {
    let wait = FocusStep::WaitAndLook { ms: 100 };
    assert_eq!(guard.advance(FocusEvent::Time { elapsed_ms }), wait);
    guard.advance(FocusEvent::Reading { active, elapsed_ms })
}

#[test]
fn the_focus_is_put_back_after_a_launch() {
    let clients = [client("0xa", 1, Some(1)), client("0xb", 1, Some(1)), client("?", 1, Some(1))];
    let restore = FocusStep::Restore { window: 0xa };
    let mut guard = spawn_focus_restore_guard(true, Some(0xa), Some(&clients)).unwrap();
    assert_eq!(look(&mut guard, 0, Some(0xa)), FocusStep::TellTime);
    assert_eq!(look(&mut guard, 100, None), FocusStep::TellTime);
    assert_eq!(look(&mut guard, 700, Some(0xb)), FocusStep::TellTime);
    assert_eq!(look(&mut guard, 2_999, Some(0xc)), restore);
    for (elapsed_ms, window) in [(699, 0xb), (699, 0xc), (700, 0xc), (2_900, 0xc)] {
        let mut guard = spawn_focus_restore_guard(true, Some(0xa), Some(&clients)).unwrap();
        assert_eq!(look(&mut guard, elapsed_ms, Some(window)), restore);
    }
    let mut blind = spawn_focus_restore_guard(true, Some(1), None).unwrap();
    assert_eq!(look(&mut blind, 2_000, Some(2)), FocusStep::Restore { window: 1 });
}

#[test]
fn the_focus_is_put_back_at_most_once() {
    let mut guard = spawn_focus_restore_guard(true, Some(1), None).unwrap();
    assert_eq!(look(&mut guard, 100, Some(2)), FocusStep::Restore { window: 1 });
    for elapsed_ms in [200, 300, 5_000] {
        assert_eq!(guard.advance(FocusEvent::Time { elapsed_ms }), FocusStep::End);
        let reading = FocusEvent::Reading { active: Some(2), elapsed_ms };
        assert_eq!(guard.advance(reading), FocusStep::End);
    }
    let mut late = spawn_focus_restore_guard(true, Some(1), None).unwrap();
    assert_eq!(late.advance(FocusEvent::Time { elapsed_ms: 3_000 }), FocusStep::End);
    let reading = FocusEvent::Reading { active: Some(2), elapsed_ms: 3_100 };
    assert_eq!(late.advance(reading), FocusStep::End);
    let mut unasked = spawn_focus_restore_guard(true, Some(1), None).unwrap();
    let reading = FocusEvent::Reading { active: Some(2), elapsed_ms: 10 };
    assert_eq!(unasked.advance(reading), FocusStep::End);
}

#[test]
fn the_focus_is_watched_only_in_a_session_with_a_focus() {
    let clients = [client("0xa", 1, Some(1))];
    assert!(spawn_focus_restore_guard(true, None, Some(&clients)).is_none());
    assert!(spawn_focus_restore_guard(false, Some(0xa), Some(&clients)).is_none());
    assert!(spawn_focus_restore_guard(false, None, None).is_none());
}
