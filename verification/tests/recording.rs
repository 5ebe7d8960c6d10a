use cua_driver::recording::{
    abort_uncommitted_start, capture_target, click_point, click_source, cursor_session_payload, finished_session_payload,
    starting_session_payload, strip_internal_keys, turn_document, turn_files, video_session_payload,
    write_json_atomic, write_turn, ClickSource, ConfigureAction, CursorStats, PendingTurn, RecordingError,
    RecordingSession, StartOutcome, StartTicket, VideoMetadata,
};
use cua_driver::video::turn_timestamp_and_target;
use serde_json::Value;

type Session = RecordingSession<&'static str, u8>;

fn json(text: &str) -> Value {
    serde_json::from_str(text).unwrap()
}

fn commit(s: &mut Session, t: StartTicket<&'static str, u8>, ended: bool) -> StartOutcome<&'static str, u8> {
    s.commit_start(t.epoch, t.owner, ended, t.dir, Some("video"), Some(1), None, 1_000)
}

fn live(owner: Option<&str>) -> Session {
    let mut s: Session = RecordingSession::new();
    let t = s.start("/rec", None, true, owner, false).unwrap();
    assert!(matches!(commit(&mut s, t, false), StartOutcome::Committed { .. }));
    s
}

fn metadata(error: Option<&str>) -> VideoMetadata {
    VideoMetadata {
        path: "/rec/recording.mp4".to_string(),
        duration_ms: 1234,
        finalized: error.is_none(),
        error: error.map(str::to_owned),
    }
}

#[test]
fn a_new_session_records_nothing() {
    let mut s: Session = RecordingSession::default();
    let state = s.current_state();
    assert!(!state.enabled && !state.video_active);
    assert_eq!((state.next_turn, state.output_dir, state.owner), (1, None, None));
    assert_eq!((state.last_error, state.last_video_path), (None, None));
    assert!(s.record("click", &Value::Null, "ok", 5).is_none());
    assert_eq!(s.start_epoch(), 0);
}

#[test]
fn a_start_names_its_files() {
    let mut s: Session = RecordingSession::new();
    let t = s.start("~/rec", Some("/home/u"), true, Some("A"), false).unwrap();
    assert_eq!(t.dir, "/home/u/rec");
    assert_eq!(t.video_path.as_deref(), Some("/home/u/rec/recording.mp4"));
    assert_eq!(t.cursor_path, "/home/u/rec/cursor.jsonl");
    assert_eq!((t.epoch, t.owner.as_deref()), (1, Some("A")));
    assert!(t.old_video.is_none() && t.old_cursor.is_none());
    let t = s.start("/r/", None, false, None, true).unwrap();
    assert_eq!(t.video_path, None);
    assert_eq!(t.epoch, 2);
}

#[test]
fn a_committed_start_is_live() {
    let s = live(Some("A"));
    let state = s.current_state();
    assert!(state.enabled && state.video_active);
    assert_eq!(state.output_dir.as_deref(), Some("/rec"));
    assert_eq!(state.owner.as_deref(), Some("A"));
    assert_eq!(state.next_turn, 1);
}

#[test]
fn a_dead_session_cannot_start() {
    let mut s: Session = RecordingSession::new();
    let refused = s.start("/rec", None, true, Some("A"), true).unwrap_err();
    assert!(matches!(refused, RecordingError::OwnerEnded(_)));
    assert_eq!(
        refused.message(),
        "session A has ended; refusing to start a recording owned by a dead session"
    );
    assert_eq!(s.start_epoch(), 0);
}

#[test]
fn a_session_that_dies_during_its_start_is_not_recorded() {
    let mut s: Session = RecordingSession::new();
    let t = s.start("/rec", None, true, Some("A"), false).unwrap();
    match commit(&mut s, t, true) {
        StartOutcome::Aborted { video, cursor, finalize, error } => {
            assert_eq!((video, cursor, finalize), (Some("video"), Some(1), true));
            assert_eq!(
                error.message(),
                "session A has ended; refusing to start a recording owned by a dead session"
            );
        }
        StartOutcome::Committed { .. } => panic!("the owner has ended"),
    }
    assert!(!s.current_state().enabled);
}

#[test]
fn a_newer_start_wins() {
    let mut s: Session = RecordingSession::new();
    let first = s.start("/a", None, true, Some("A"), false).unwrap();
    let second = s.start("/b", None, true, Some("B"), false).unwrap();
    match commit(&mut s, first, false) {
        StartOutcome::Aborted { finalize, error, .. } => {
            assert!(finalize);
            assert_eq!(
                error.message(),
                "a concurrent start_recording or stop_recording superseded this start"
            );
        }
        StartOutcome::Committed { .. } => panic!("a newer start was let in"),
    }
    assert!(matches!(commit(&mut s, second, false), StartOutcome::Committed { .. }));
    assert_eq!(s.current_state().owner.as_deref(), Some("B"));
}

#[test]
fn a_loser_leaves_the_winners_directory_alone() {
    let mut s: Session = RecordingSession::new();
    let first = s.start("/rec/.", None, true, None, false).unwrap();
    let second = s.start("/rec", None, true, None, false).unwrap();
    assert!(matches!(commit(&mut s, second, false), StartOutcome::Committed { .. }));
    match commit(&mut s, first, false) {
        StartOutcome::Aborted { finalize, .. } => assert!(!finalize),
        StartOutcome::Committed { .. } => panic!("a newer start is live"),
    }
}

#[test]
fn a_start_displaces_what_is_live() {
    let mut s = live(Some("A"));
    let t = s.start("/b", None, true, Some("B"), false).unwrap();
    assert_eq!((t.old_video, t.old_cursor), (Some("video"), Some(1)));
    let state = s.current_state();
    assert!(state.enabled && !state.video_active);
    assert_eq!(state.output_dir.as_deref(), Some("/rec"));
}

#[test]
fn a_stop_while_starting_supersedes_the_start() {
    let mut s = live(None);
    let t = s.start("/b", None, true, None, false).unwrap();
    assert!(s.stop_owner(None).is_some());
    assert!(matches!(
        commit(&mut s, t, false),
        StartOutcome::Aborted { error: RecordingError::Superseded, .. }
    ));
}

#[test]
fn the_stop_of_a_dying_session_spares_a_newer_start() {
    let mut s = live(Some("A"));
    let t = s.start("/b", None, true, Some("B"), false).unwrap();
    assert!(s.stop_owner(Some("A")).is_some());
    assert!(matches!(commit(&mut s, t, false), StartOutcome::Committed { .. }));
    assert!(s.stop_owner(Some("A")).is_none());
    assert_eq!(s.current_state().owner.as_deref(), Some("B"));
}

#[test]
fn only_the_owner_or_an_unconditional_stop_stops() {
    let mut s = live(None);
    assert!(s.stop_owner(Some("A")).is_none());
    assert!(s.current_state().enabled);
    let t = s.stop_owner(None).unwrap();
    assert_eq!((t.dir.as_deref(), t.video, t.cursor), (Some("/rec"), Some("video"), Some(1)));
    assert!(s.stop_owner(None).is_none());
    let mut s = live(Some("A"));
    assert!(s.stop_owner(Some("B")).is_none());
    assert!(s.stop_owner(Some("A")).is_some());
    let state = s.current_state();
    assert!(!state.enabled);
    assert_eq!((state.owner, state.output_dir, state.next_turn), (None, None, 1));
}

#[test]
fn a_stop_concludes_with_what_the_backends_report() {
    let mut s = live(None);
    let t = s.stop_owner(None).unwrap();
    let stats = CursorStats { samples: 3, dropped_offscreen: 2 };
    let file = s.finish_stop(t.dir, Some(metadata(Some("frozen"))), stats, 77).unwrap();
    assert_eq!(file.dir, "/rec");
    assert_eq!(
        file.value,
        json(
            "{\"schema_version\":1,\"started_at_monotonic_ms\":77,\
             \"video\":{\"present\":true,\"path\":\"recording.mp4\",\
             \"absolute_path\":\"/rec/recording.mp4\",\"duration_ms\":1234,\"finalized\":false,\
             \"error\":\"frozen\"},\
             \"cursor\":{\"present\":true,\"sample_count\":3,\"dropped_offscreen\":2}}"
        )
    );
    let state = s.current_state();
    assert_eq!(state.last_error.as_deref(), Some("frozen"));
    assert_eq!(state.last_video_path.as_deref(), Some("/rec/recording.mp4"));
    assert!(s.finish_stop(None, None, CursorStats::default(), 78).is_none());
}

#[test]
fn a_healthy_stop_clears_the_error_and_the_next_start_the_video() {
    let mut s: Session = RecordingSession::new();
    let t = s.start("/rec", None, true, None, false).unwrap();
    let failed = Some("no ffmpeg".to_string());
    let committed = s.commit_start(t.epoch, t.owner, false, t.dir, None, None, failed, 5);
    assert!(matches!(committed, StartOutcome::Committed { .. }));
    assert_eq!(s.current_state().last_error.as_deref(), Some("no ffmpeg"));
    let t = s.stop_owner(None).unwrap();
    s.finish_stop(t.dir, None, CursorStats::default(), 6);
    assert_eq!(s.current_state().last_error.as_deref(), Some("no ffmpeg"));
    s.finish_stop(None, Some(metadata(None)), CursorStats::default(), 7);
    assert_eq!(s.current_state().last_error, None);
    let t = s.start("/rec", None, true, None, false).unwrap();
    commit(&mut s, t, false);
    assert_eq!(s.current_state().last_video_path, None);
}

#[test]
fn configuring_starts_and_stops() {
    let mut s: Session = RecordingSession::new();
    let missing = s.configure(true, None, None).unwrap_err();
    assert_eq!(missing.message(), "output_dir is required when enabling recording");
    match s.configure(true, Some("/rec"), None).unwrap() {
        ConfigureAction::Start(t) => {
            assert_eq!(t.owner, None);
            assert_eq!(t.video_path.as_deref(), Some("/rec/recording.mp4"));
            commit(&mut s, t, false);
        }
        ConfigureAction::Stop(_) => panic!("recording was enabled"),
    }
    assert!(matches!(s.configure(false, None, None), Ok(ConfigureAction::Stop(Some(_)))));
    assert!(matches!(s.configure(false, None, None), Ok(ConfigureAction::Stop(None))));
}

#[test]
fn turns_are_numbered_and_stripped() {
    let mut s = live(None);
    let args = json("{\"pid\":7,\"_session_id\":\"secret\",\"x_\":1}");
    let turn = s.record("click", &args, "ok", 1_010).unwrap();
    assert_eq!(turn.dir, "/rec/turn-00001");
    assert_eq!((turn.tool_name.as_str(), turn.result_text.as_str()), ("click", "ok"));
    assert_eq!((turn.start_ms, turn.session_start_ms), (1_010, 1_000));
    assert_eq!(turn.args, json("{\"pid\":7,\"x_\":1}"));
    assert_eq!(s.record("click", &args, "ok", 1_010).unwrap().dir, "/rec/turn-00002");
    assert_eq!(s.current_state().next_turn, 3);
    s.record_failed("disk full".to_string());
    assert_eq!(s.current_state().last_error.as_deref(), Some("disk full"));
}

#[test]
fn internal_keys_are_dropped_at_the_top_only() {
    let args = json("{\"_a\":1,\"\":2,\"b\":{\"_c\":3},\"__\":4}");
    assert_eq!(strip_internal_keys(&args), json("{\"\":2,\"b\":{\"_c\":3}}"));
    let list = json("[{\"_a\":1}]");
    assert_eq!(strip_internal_keys(&list), list);
    assert_eq!(strip_internal_keys(&Value::Null), Value::Null);
    let plain = json("{\"z\":1.5,\"a\":[true]}");
    assert_eq!(strip_internal_keys(&plain), plain);
}

#[test]
fn session_files_have_three_shapes_of_video() {
    assert_eq!(video_session_payload(false, None, None), json("{\"present\":false}"));
    assert_eq!(
        video_session_payload(false, Some("why"), None),
        json("{\"present\":false,\"error\":\"why\"}")
    );
    assert_eq!(
        video_session_payload(true, Some("unused"), None),
        json("{\"present\":true,\"path\":\"recording.mp4\"}")
    );
    assert_eq!(
        video_session_payload(true, None, Some(&metadata(None))),
        json(
            "{\"present\":true,\"path\":\"recording.mp4\",\"absolute_path\":\"/rec/recording.mp4\",\
             \"duration_ms\":1234,\"finalized\":true}"
        )
    );
    assert_eq!(
        cursor_session_payload(CursorStats::default()),
        json("{\"present\":false,\"sample_count\":0,\"dropped_offscreen\":0}")
    );
    assert_eq!(
        starting_session_payload(9, false, Some("no ffmpeg"), true),
        json(
            "{\"schema_version\":1,\"started_at_monotonic_ms\":9,\
             \"video\":{\"present\":false,\"error\":\"no ffmpeg\"},\
             \"cursor\":{\"present\":true,\"sample_count\":0}}"
        )
    );
    assert_eq!(
        finished_session_payload(9, &None, CursorStats { samples: u64::MAX, dropped_offscreen: 0 }),
        json(
            "{\"schema_version\":1,\"started_at_monotonic_ms\":9,\"video\":{\"present\":false},\
             \"cursor\":{\"present\":true,\"sample_count\":18446744073709551615,\"dropped_offscreen\":0}}"
        )
    );
}

#[test]
fn clicks_are_placed_by_point_or_by_element() {
    let point = json("{\"x\":3,\"y\":4.5,\"window_id\":1,\"pid\":2,\"element_index\":5}");
    for tool in ["click", "double_click", "right_click"] {
        match click_source(tool, &point) {
            ClickSource::Point { x, y } => {
                assert_eq!((x.as_f64(), y.as_f64()), (Some(3.0), Some(4.5)));
                assert!(x.is_f64());
            }
            other => panic!("{other:?}"),
        }
    }
    assert!(matches!(click_source("scroll", &point), ClickSource::Nowhere));
    let element = json("{\"x\":3,\"y\":\"4\",\"window_id\":1,\"pid\":-2,\"element_index\":5}");
    assert!(matches!(
        click_source("click", &element),
        ClickSource::Element { window_id: 1, pid: -2, index: 5 }
    ));
    for args in [
        "{\"window_id\":1,\"pid\":2}",
        "{\"window_id\":-1,\"pid\":2,\"element_index\":5}",
        "{\"window_id\":1,\"pid\":2.5,\"element_index\":5}",
        "{\"window_id\":1,\"pid\":18446744073709551615,\"element_index\":5}",
        "{\"window_id\":1,\"pid\":2,\"element_index\":4294967296}",
        "{}",
        "7",
    ] {
        assert!(matches!(click_source("click", &json(args)), ClickSource::Nowhere), "{args}");
    }
    assert_eq!(capture_target(&element), (Some(1), Some(-2)));
    assert_eq!(capture_target(&json("{\"window_id\":\"1\",\"pid\":1.0}")), (None, None));
}

#[test]
fn a_click_lands_where_its_arguments_or_the_platform_say() {
    let found = || Some((json("8.0"), json("9.0")));
    assert_eq!(click_point(ClickSource::Nowhere, found()), None);
    let point = || ClickSource::Point { x: json("1.5"), y: json("-2.0") };
    let given = Some((json("1.5"), json("-2.0")));
    assert_eq!(click_point(point(), found()), given);
    assert_eq!(click_point(point(), None), given);
    let element = || ClickSource::Element { window_id: 1, pid: 2, index: 3 };
    assert_eq!(click_point(element(), found()), found());
    assert_eq!(click_point(element(), None), None);
}

#[test]
fn marked_pictures_come_with_clicks() {
    let found = Some((json("8.0"), json("9.0")));
    for (tool, args, click) in [
        ("click", "{\"x\":1,\"y\":2}", true),
        ("click", "{\"window_id\":1,\"pid\":2,\"element_index\":3}", true),
        ("click", "{\"x\":1}", false),
        ("scroll", "{\"x\":1,\"y\":2}", false),
    ] {
        let turn = PendingTurn { tool_name: tool.to_string(), ..pending(args) };
        let point = click_point(click_source(tool, &turn.args), found.clone());
        let action = write_turn(&turn, 200, "t", point.clone());
        assert_eq!(action.get("click_point").is_some(), click, "{tool} {args}");
        let files = turn_files(&turn, None, Some(vec![2]), &point, Some(vec![3]));
        assert_eq!(files.len(), if click { 2 } else { 1 }, "{tool} {args}");
        assert_eq!(files.iter().any(|f| f.path.ends_with("click.png")), click, "{tool} {args}");
    }
}

fn pending(args: &str) -> PendingTurn {
    PendingTurn {
        dir: "/rec/turn-00001".to_string(),
        tool_name: "click".to_string(),
        args: json(args),
        result_text: "ok".to_string(),
        start_ms: 90,
        session_start_ms: 100,
    }
}

#[test]
fn turns_are_written_with_their_times() {
    let turn = pending("{\"pid\":7}");
    assert_eq!(
        write_turn(&turn, 350, "1.250", None),
        json(
            "{\"tool\":\"click\",\"arguments\":{\"pid\":7},\"result_summary\":\"ok\",\
             \"timestamp\":\"1.250\",\"t_ms_from_session_start\":250,\
             \"t_start_ms_from_session_start\":0}"
        )
    );
    let marked = write_turn(&turn, 50, "0", Some((json("1.5"), json("-2.0"))));
    assert_eq!(marked["click_point"], json("{\"x\":1.5,\"y\":-2.0}"));
    assert_eq!(marked["t_ms_from_session_start"], json("0"));
}

#[test]
fn files_stand_beside_a_turn() {
    let turn = pending("{}");
    let point = Some((json("1.5"), json("2.5")));
    let names = |files: Vec<cua_driver::recording::TurnFile>| -> Vec<(String, Vec<u8>)> {
        files.into_iter().map(|f| (f.path, f.bytes)).collect()
    };
    assert_eq!(
        names(turn_files(&turn, Some(vec![1]), Some(vec![2]), &point, Some(vec![3]))),
        vec![
            ("/rec/turn-00001/app_state.json".to_string(), vec![1]),
            ("/rec/turn-00001/screenshot.png".to_string(), vec![2]),
            ("/rec/turn-00001/click.png".to_string(), vec![3]),
        ]
    );
    assert!(names(turn_files(&turn, None, None, &point, Some(vec![3]))).is_empty());
    assert_eq!(
        names(turn_files(&turn, None, Some(vec![2]), &None, Some(vec![3]))),
        vec![("/rec/turn-00001/screenshot.png".to_string(), vec![2])]
    );
}

#[test]
fn documents_are_written_beside_their_place() {
    let value = json("{\"b\":[1,{}],\"a\":\"\\\"\"}");
    let w = write_json_atomic("/rec", "session", &value).unwrap();
    assert_eq!(w.temporary, "/rec/session.tmp");
    assert_eq!(w.path, "/rec/session.json");
    assert_eq!(w.text, serde_json::to_string_pretty(&value).unwrap());
    assert_eq!(json(&w.text), value);
}

#[test]
fn what_the_recorder_writes_the_video_reads() {
    let mut deep = "[]".to_string();
    for _ in 0..100 {
        deep = format!("{{\"pid\":{deep}}}");
    }
    for (args, target) in [
        ("{\"window_id\":99}", true),
        ("{\"pid\":null}", true),
        ("{\"x\":1e300,\"y\":0.1}", false),
        (deep.as_str(), true),
        ("[\"pid\"]", false),
        ("null", false),
    ] {
        let point = || Some((json("0.1"), json("1e-7")));
        let document = turn_document(&pending(args), 1_850, "t", point()).unwrap();
        assert_eq!(document.path, "/rec/turn-00001/action.json");
        assert_eq!(document.temporary, "/rec/turn-00001/action.tmp");
        let value = write_turn(&pending(args), 1_850, "t", point());
        assert_eq!(document.text, write_json_atomic("/d", "action", &value).unwrap().text);
        assert_eq!(turn_timestamp_and_target(&document.text), Some((1_750, target)), "{args}");
    }
}

#[test]
fn a_commit_finds_nothing_left_to_displace() {
    let mut s = live(Some("A"));
    let t = s.start("/b", None, true, Some("B"), false).unwrap();
    match commit(&mut s, t, false) {
        StartOutcome::Committed { displaced_video, displaced_cursor } => {
            assert!(displaced_video.is_none() && displaced_cursor.is_none());
        }
        StartOutcome::Aborted { .. } => panic!("nothing superseded this start"),
    }
}

#[test]
fn the_epoch_moves_with_starts_and_unconditional_stops() {
    let mut s = live(Some("A"));
    assert_eq!(s.start_epoch(), 1);
    s.stop_owner(Some("B"));
    assert_eq!(s.start_epoch(), 1);
    s.stop_owner(Some("A"));
    assert_eq!(s.start_epoch(), 1);
    s.stop_owner(None);
    assert_eq!(s.start_epoch(), 1);
    let t = s.start("/c", None, false, None, false).unwrap();
    commit(&mut s, t, false);
    s.stop_owner(None);
    assert_eq!(s.start_epoch(), 3);
}

#[test]
fn an_aborted_start_completes_its_session_file() {
    let stats = CursorStats { samples: 1, dropped_offscreen: 0 };
    let file = abort_uncommitted_start("/a".to_string(), Some(metadata(None)), stats, true, 8).unwrap();
    assert_eq!(file.dir, "/a");
    assert_eq!(file.value, finished_session_payload(8, &Some(metadata(None)), stats));
    let none = abort_uncommitted_start("/a".to_string(), None, stats, true, 8).unwrap();
    assert_eq!(none.value["video"], json("{\"present\":false}"));
    assert!(abort_uncommitted_start("/a".to_string(), None, stats, false, 8).is_none());
}

#[test]
fn an_overtaken_start_leaves_the_winner_as_it_is() {
    let mut s: Session = RecordingSession::new();
    let loser = s.start("/a", None, false, Some("A"), false).unwrap();
    let winner = s.start("/b", None, true, Some("B"), false).unwrap();
    commit(&mut s, winner, false);
    let before = format!("{:?}", s.current_state());
    match s.commit_start(loser.epoch, loser.owner, false, loser.dir, Some("own"), Some(9), None, 4) {
        StartOutcome::Aborted { video, cursor, finalize, error } => {
            assert_eq!((video, cursor, finalize), (Some("own"), Some(9), true));
            assert!(matches!(error, RecordingError::Superseded));
        }
        StartOutcome::Committed { .. } => panic!("a newer start is live"),
    }
    assert_eq!(format!("{:?}", s.current_state()), before);
}

#[test]
fn configuring_off_stops_whoever_owns_the_recording() {
    for dir in [None, Some("/elsewhere")] {
        let mut s = live(Some("A"));
        match s.configure(false, dir, None).unwrap() {
            ConfigureAction::Stop(Some(t)) => assert_eq!(t.dir.as_deref(), Some("/rec")),
            _ => panic!("a recording was live"),
        }
        assert!(!s.current_state().enabled);
        assert_eq!(s.start_epoch(), 2);
    }
}

#[test]
fn whole_coordinates_become_floats_that_are_read_back() {
    let args = json("{\"x\":18446744073709551615,\"y\":-9,\"pid\":1}");
    match click_source("click", &args) {
        ClickSource::Point { x, y } => {
            assert!(x.is_f64() && y.is_f64());
            assert_eq!(x, json("18446744073709551616.0"));
            assert_eq!(y, json("-9.0"));
            let document = turn_document(&pending("{\"pid\":1}"), 200, "t", Some((x, y))).unwrap();
            assert_eq!(turn_timestamp_and_target(&document.text), Some((100, true)));
        }
        other => panic!("{other:?}"),
    }
}
