use cua_driver::hyprland::{
    active_window_address, answered, crop_needs_monitors, cropped, find_client, focused_monitor_name,
    grim_region_args, list_windows, list_windows_inner, may_ask_monitors, monitor_for_window,
    parse_address, screenshot_display_bytes_grim, screenshot_window_bytes,
    screenshot_window_bytes_grim, screenshot_window_bytes_with_provenance, usable, visible_workspace_ids,
    CaptureMethod, CaptureStep, CropError, ExportOutcome, ExportSlot, HyprClient, HyprMonitor,
    HyprWorkspaceRef, QueryError,
};

fn client(address: &str, pid: i64, title: &str) -> HyprClient {
    HyprClient {
        address: address.to_string(),
        mapped: true,
        hidden: false,
        pid,
        title: title.to_string(),
        class: "app".to_string(),
        at: [10, -20],
        size: [640, 480],
        monitor: Some(0),
        workspace: Some(HyprWorkspaceRef { id: 3 }),
    }
}

fn monitor(id: i64, active: Option<i64>, special: Option<i64>) -> HyprMonitor {
    HyprMonitor {
        id,
        name: format!("DP-{id}"),
        focused: false,
        active_workspace: active.map(|id| HyprWorkspaceRef { id }),
        special_workspace: special.map(|id| HyprWorkspaceRef { id }),
    }
}

#[test]
fn addresses_are_read_in_hexadecimal() {
    assert_eq!(parse_address("0x55d0c0ffee"), Some(0x55d0c0ffee));
    assert_eq!(parse_address("DEADbeef"), Some(0xdeadbeef));
    assert_eq!(parse_address("0x0x10"), Some(16));
    assert_eq!(parse_address("+ff"), Some(255));
    assert_eq!(parse_address("0xffffffffffffffff"), Some(u64::MAX));
    assert_eq!(parse_address("0x10000000000000000"), None);
    for bad in ["", "0x", "+", "0xg", "-1", "0X10", " 10"] {
        assert_eq!(parse_address(bad), None, "{bad}");
        assert_eq!(
            u64::from_str_radix(bad.trim_start_matches("0x"), 16).ok(),
            None
        );
    }
    for id in [0u64, 1, 15, 16, 255, 4294967296, u64::MAX] {
        assert_eq!(parse_address(&format!("0x{id:x}")), Some(id));
        assert_eq!(parse_address(&format!("{id:x}")), Some(id));
    }
}

#[test]
fn windows_are_listed_from_clients() {
    let windows = list_windows_inner(&[client("0x10", 42, "Title")], None);
    assert_eq!(windows.len(), 1);
    let w = &windows[0];
    assert_eq!((w.xid, w.pid, w.title.as_str()), (16, Some(42), "Title"));
    assert_eq!((w.x, w.y, w.width, w.height), (10, -20, 640, 480));
    assert_eq!(w.workspace_id, Some(3));
    let copy = w.copy();
    assert_eq!((copy.xid, copy.title.as_str()), (16, "Title"));
}

#[test]
fn clients_that_show_nothing_are_not_listed() {
    let mut clients = Vec::new();
    let mut unmapped = client("0x1", 1, "a");
    unmapped.mapped = false;
    clients.push(unmapped);
    let mut hidden = client("0x2", 1, "a");
    hidden.hidden = true;
    clients.push(hidden);
    let mut narrow = client("0x3", 1, "a");
    narrow.size = [1, 50];
    clients.push(narrow);
    let mut flat = client("0x4", 1, "a");
    flat.size = [50, -3];
    clients.push(flat);
    clients.push(client("zz", 1, "a"));
    let mut nameless = client("0x5", 1, " \u{2003}\n");
    nameless.class = "\t".to_string();
    clients.push(nameless);
    clients.push(client("0x6", 1, " "));
    let mut floating = client("0x7", -1, "b");
    floating.workspace = None;
    floating.size = [2, 2];
    clients.push(floating);
    let windows = list_windows(Some(&clients), None);
    assert_eq!(windows.len(), 2);
    assert_eq!((windows[0].xid, windows[0].title.as_str()), (6, "app"));
    assert_eq!((windows[1].xid, windows[1].pid), (7, None));
    assert_eq!(windows[1].workspace_id, None);
    assert!(list_windows(None, None).is_empty());
}

#[test]
fn a_filter_keeps_one_process() {
    let clients = [
        client("0x1", 5, "a"),
        client("0x2", 6, "b"),
        client("0x3", 5, "c"),
        client("0x4", 4294967301, "d"),
        client("0x5", -5, "e"),
    ];
    let ids: Vec<u64> = list_windows(Some(&clients), Some(5)).iter().map(|w| w.xid).collect();
    assert_eq!(ids, vec![1, 3]);
    assert_eq!(list_windows(Some(&clients), None).len(), 5);
    assert!(list_windows(Some(&clients), Some(0)).is_empty());
}

#[test]
fn monitors_tell_what_is_visible() {
    let monitors = [
        monitor(0, Some(1), Some(0)),
        monitor(1, None, Some(-98)),
        monitor(2, Some(4), None),
    ];
    assert_eq!(visible_workspace_ids(Some(&monitors)), vec![1, -98, 4]);
    assert!(visible_workspace_ids(None).is_empty());
}

#[test]
fn the_focused_monitor_is_named() {
    let mut monitors = vec![monitor(0, None, None), monitor(1, None, None), monitor(2, None, None)];
    assert_eq!(focused_monitor_name(Some(&monitors)), None);
    monitors[1].focused = true;
    monitors[2].focused = true;
    assert_eq!(focused_monitor_name(Some(&monitors)), Some("DP-1".to_string()));
    assert_eq!(focused_monitor_name(None), None);
}

#[test]
fn a_window_is_found_on_its_monitor() {
    let mut far = client("0x2", 1, "far");
    far.monitor = Some(7);
    let mut lost = client("0x3", 1, "lost");
    lost.monitor = None;
    let clients = [client("0x1", 1, "near"), far, lost];
    let monitors = [monitor(3, None, None), monitor(0, None, None)];
    assert_eq!(find_client(&clients, 2), Some(1));
    assert_eq!(monitor_for_window(&clients, &monitors, 1), Some(1));
    assert_eq!(monitor_for_window(&clients, &monitors, 2), None);
    assert_eq!(monitor_for_window(&clients, &monitors, 3), None);
    assert_eq!(monitor_for_window(&clients, &monitors, 9), None);
}

#[test]
fn a_window_on_the_shown_workspace_is_cropped() {
    let clients = [client("0x1", 1, "a")];
    assert!(crop_needs_monitors(&clients, 1));
    let shown = [monitor(0, Some(3), None)];
    assert_eq!(
        screenshot_window_bytes_grim(&clients, Some(&shown), 1),
        Ok("10,-20 640x480".to_string())
    );
    assert_eq!(
        screenshot_window_bytes_grim(&clients, None, 1),
        Ok("10,-20 640x480".to_string())
    );
    let elsewhere = [monitor(5, Some(9), None)];
    assert!(screenshot_window_bytes_grim(&clients, Some(&elsewhere), 1).is_ok());
    let blank = [monitor(0, None, Some(-99))];
    assert!(screenshot_window_bytes_grim(&clients, Some(&blank), 1).is_ok());
}

#[test]
fn crops_that_would_show_something_else_are_refused() {
    let clients = [client("0xabc", 1, "a")];
    let other = [monitor(0, Some(-4), None)];
    let refused = screenshot_window_bytes_grim(&clients, Some(&other), 0xabc).unwrap_err();
    assert_eq!(refused, CropError::OtherWorkspace { window_id: 0xabc, workspace: 3, shown: -4 });
    assert_eq!(
        refused.message(),
        "Hyprland client 0xabc is on workspace 3 but its monitor shows workspace -4; \
         a grim region crop would capture unrelated content"
    );
    let missing = screenshot_window_bytes_grim(&clients, None, 0xdef).unwrap_err();
    assert_eq!(missing, CropError::NotFound { window_id: 0xdef });
    assert_eq!(missing.message(), "Hyprland client 0xdef not found");
    assert!(!crop_needs_monitors(&clients, 0xdef));
    let mut thin = client("0x1", 1, "a");
    thin.size = [1, 9];
    let invalid = screenshot_window_bytes_grim(&[thin], None, 1).unwrap_err();
    assert_eq!(invalid, CropError::InvalidGeometry { window_id: 1 });
    assert_eq!(invalid.message(), "Hyprland client 0x1 has invalid geometry");
}

#[test]
fn one_export_runs_at_a_time() {
    let mut slot = ExportSlot::new();
    assert!(slot.begin());
    assert!(!slot.begin());
    slot.finish();
    assert!(slot.begin());
    assert!(slot.in_flight);
}

#[test]
fn pictures_tell_how_they_were_taken() {
    match screenshot_window_bytes_with_provenance(ExportOutcome::Captured(vec![1, 2])) {
        CaptureStep::Done(png, method) => {
            assert_eq!(method, CaptureMethod::ToplevelExport);
            assert_eq!(screenshot_window_bytes((png, method)), vec![1, 2]);
        }
        CaptureStep::Crop => panic!("an exported picture is used"),
    }
    for outcome in [
        ExportOutcome::StillInFlight,
        ExportOutcome::NotSpawned,
        ExportOutcome::TimedOut,
        ExportOutcome::Failed,
    ] {
        assert!(matches!(screenshot_window_bytes_with_provenance(outcome), CaptureStep::Crop));
    }
    assert_eq!(cropped(vec![3]), (vec![3], CaptureMethod::RegionCrop));
}

#[test]
fn tools_have_to_answer_with_something() {
    assert_eq!(answered(true, vec![1], QueryError::Clients).unwrap(), vec![1]);
    let failures = [
        (QueryError::Clients, "hyprctl clients -j failed"),
        (QueryError::Monitors, "hyprctl monitors -j failed"),
        (QueryError::Region("1,2 3x4".to_string()), "grim failed for Hyprland geometry 1,2 3x4"),
        (QueryError::Display, "grim full-output capture failed"),
    ];
    for (failure, words) in failures {
        assert_eq!(answered(true, vec![], failure).unwrap_err().message(), words);
    }
    assert!(answered(false, vec![1], QueryError::Display).is_err());
    assert!(usable(true, b"{}") && !usable(true, b"") && !usable(false, b"{}"));
    assert!(may_ask_monitors(true).is_ok());
    assert_eq!(may_ask_monitors(false).unwrap_err().message(), "not a Hyprland session");
    assert_eq!(grim_region_args("1,2 3x4"), vec!["-g", "1,2 3x4", "-t", "png", "-"]);
    assert_eq!(screenshot_display_bytes_grim(), vec!["-t", "png", "-"]);
}

#[test]
fn the_active_window_is_its_address() {
    assert_eq!(active_window_address(Some("0x2a")), Some(42));
    assert_eq!(active_window_address(Some("nothing")), None);
    assert_eq!(active_window_address(None), None);
}
