use cua_driver::video::{
    await_encoder, collect_target_window_frames, encode_result, encode_screenshot_sequence, failure_message,
    finish_video, format_duration, frame_durations_ms, output_dimensions, preferred_turn_frame_path,
    stop_video, timeout_message, turn_target, turn_timestamp_and_target, EncodeArg, EncodeResult, EncoderAction,
    EncoderStatus, FrameError, LinuxVideoBackendFactory, TurnEntry, TurnFrame, VideoSource,
};

fn frame(path: &str, t_ms: u64) -> TurnFrame {
    TurnFrame { path: path.as_bytes().to_vec(), t_ms }
}

fn turn(idx: u32, t_ms: u64, args: &str, click_png: bool) -> TurnEntry {
    TurnEntry {
        name: format!("turn-{idx:05}").into_bytes(),
        is_dir: true,
        click_exists: click_png,
        screenshot_exists: true,
        action: Some(format!(
            "{{\"tool\":\"click\",\"arguments\":{args},\"result_summary\":\"ok\",\
             \"timestamp\":\"0.000\",\"t_ms_from_session_start\":{t_ms},\
             \"t_start_ms_from_session_start\":{t_ms}}}"
        )),
    }
}

#[test]
fn collect_target_window_frames_skips_display_only_turns() {
    let entries = [
        turn(1, 100, "{\"name\":\"zenity\"}", false),
        turn(2, 250, "{\"pid\":42,\"window_id\":99}", true),
        turn(3, 500, "{\"pid\":42}", false),
    ];
    let frames = collect_target_window_frames(b"/tmp/collect", &entries);
    assert_eq!(frames.len(), 2);
    assert_eq!(frames[0].t_ms, 250);
    assert_eq!(frames[1].t_ms, 500);
    assert_eq!(frames[0].path, b"/tmp/collect/turn-00002/click.png".to_vec());
    assert!(frames[0].path.ends_with(b"/click.png"));
    assert_eq!(frames[1].path, b"/tmp/collect/turn-00003/screenshot.png".to_vec());
}

#[test]
fn frame_durations_start_first_target_at_zero_and_have_floor() {
    let frames = vec![frame("a.png", 5_000), frame("b.png", 5_100), frame("c.png", 8_000)];
    assert_eq!(frame_durations_ms(&frames, 9_000), vec![5_100, 2_900, 1_000]);
}

#[test]
fn output_dimensions_uses_max_even_extent() {
    assert_eq!(output_dimensions(&[(3, 5), (8, 6)]).unwrap(), (8, 6));
}

#[test]
fn odd_extents_are_rounded_up() {
    assert_eq!(output_dimensions(&[(3, 5)]), Ok((4, 6)));
    assert_eq!(output_dimensions(&[(1, 9), (7, 2)]), Ok((8, 10)));
    assert_eq!(output_dimensions(&[]), Err(FrameError::NoValidFrames));
    assert_eq!(output_dimensions(&[(0, 4)]), Err(FrameError::NoValidFrames));
    assert_eq!(output_dimensions(&[(u32::MAX, 0)]), Err(FrameError::NoValidFrames));
    assert_eq!(output_dimensions(&[(4294967294, 1)]), Ok((4294967294, 2)));
    assert_eq!(FrameError::NoValidFrames.message(), "no valid screenshot frames found");
}

#[test]
fn short_frames_are_shown_for_the_floor() {
    let frames = vec![frame("a", 10), frame("b", 20), frame("c", 20), frame("d", 1_000)];
    assert_eq!(frame_durations_ms(&frames, 500), vec![250, 250, 980, 250]);
    assert_eq!(frame_durations_ms(&frames[..1], 0), vec![250]);
    assert!(frame_durations_ms(&[], 1_000).is_empty());
}

#[test]
fn entries_that_are_no_turns_give_no_frame() {
    let whole = || turn(1, 5, "{\"pid\":1}", false);
    let mut file = whole();
    file.is_dir = false;
    let mut other = whole();
    other.name = b"return-1".to_vec();
    let mut bare = whole();
    bare.screenshot_exists = false;
    let mut silent = whole();
    silent.action = None;
    let mut broken = whole();
    broken.action = Some("{".to_string());
    let mut argless = whole();
    argless.action = Some("{\"t_ms_from_session_start\":5}".to_string());
    let entries = [file, other, bare, silent, broken, argless, whole()];
    let frames = collect_target_window_frames(b"d", &entries);
    assert_eq!(frames.len(), 1);
    assert_eq!(frames[0].path, b"d/turn-00001/screenshot.png".to_vec());
}

#[test]
fn frames_are_ordered_by_time_and_then_by_path() {
    let entries = [
        turn(9, 70, "{\"pid\":1}", false),
        turn(2, 70, "{\"pid\":1}", true),
        turn(5, 10, "{\"window_id\":1}", false),
    ];
    let names: Vec<Vec<u8>> =
        collect_target_window_frames(b"/r/", &entries).into_iter().map(|f| f.path).collect();
    assert_eq!(
        names,
        vec![
            b"/r/turn-00005/screenshot.png".to_vec(),
            b"/r/turn-00002/click.png".to_vec(),
            b"/r/turn-00009/screenshot.png".to_vec(),
        ]
    );
}

#[test]
fn paths_are_ordered_component_by_component() {
    let mut entries = Vec::new();
    for name in ["turn-a", "turn-a.b", "turn-a-", "turn-", "turn-ab", "turn-a!"] {
        let mut e = turn(0, 3, "{\"pid\":1}", false);
        e.name = name.as_bytes().to_vec();
        entries.push(e);
    }
    let got: Vec<Vec<u8>> =
        collect_target_window_frames(b"", &entries).into_iter().map(|f| f.path).collect();
    let mut expected: Vec<std::path::PathBuf> = got
        .iter()
        .map(|p| std::path::PathBuf::from(String::from_utf8(p.clone()).unwrap()))
        .collect();
    expected.sort();
    let expected: Vec<Vec<u8>> =
        expected.into_iter().map(|p| p.to_str().unwrap().as_bytes().to_vec()).collect();
    assert_eq!(got.len(), 6);
    assert_eq!(got, expected);
}

#[test]
fn actions_tell_time_and_target() {
    let read = turn_timestamp_and_target;
    assert_eq!(read("{\"arguments\":{\"pid\":null}}"), Some((0, true)));
    assert_eq!(read("{\"arguments\":{},\"t_ms_from_session_start\":7}"), Some((7, false)));
    assert_eq!(read("{\"arguments\":[],\"t_ms_from_session_start\":-7}"), Some((0, false)));
    assert_eq!(read("{\"arguments\":null,\"t_ms_from_session_start\":1.5}"), Some((0, false)));
    assert_eq!(read("{\"t_ms_from_session_start\":7}"), None);
    assert_eq!(read("[]"), None);
    assert_eq!(read("not json"), None);
    let value: serde_json::Value =
        serde_json::from_str("{\"arguments\":{\"window_id\":3},\"t_ms_from_session_start\":9}").unwrap();
    assert_eq!(turn_target(&value), Some((9, true)));
}

#[test]
fn the_marked_picture_is_preferred() {
    assert_eq!(preferred_turn_frame_path(b"t", true), b"t/click.png".to_vec());
    assert_eq!(preferred_turn_frame_path(b"t", false), b"t/screenshot.png".to_vec());
}

#[test]
fn durations_are_written_as_std_writes_them() {
    for ms in [0u64, 1, 9, 10, 250, 999, 1_000, 1_001, 61_234, 8_796_093_022_207_999] {
        assert_eq!(format_duration(ms), format!("{:.3}", ms as f64 / 1000.0));
    }
}

#[test]
fn the_encoder_gets_its_arguments() {
    let frames = [frame("a.png", 100), frame("b.png", 2_000)];
    let sizes = [(7, 2), (3, 6)];
    let args: Vec<String> = encode_screenshot_sequence(&frames, &sizes, 3_500, b"/o/recording.mp4")
        .unwrap()
        .into_iter()
        .map(|a| match a {
            EncodeArg::Text(t) => t,
            EncodeArg::Path(p) => format!("file:{}", String::from_utf8(p).unwrap()),
            EncodeArg::Seconds(ms) => panic!("{ms} ms have a text"),
        })
        .collect();
    assert_eq!(
        args,
        vec![
            "-y", "-loglevel", "error", "-loop", "1", "-t", "2.000", "-i", "file:a.png", "-loop",
            "1", "-t", "1.500", "-i", "file:b.png", "-filter_complex",
            "[0:v]scale=8:6:force_original_aspect_ratio=decrease,\
             pad=8:6:(ow-iw)/2:(oh-ih)/2,setsar=1,format=rgba[v0];\
             [1:v]scale=8:6:force_original_aspect_ratio=decrease,\
             pad=8:6:(ow-iw)/2:(oh-ih)/2,setsar=1,format=rgba[v1];\
             [v0][v1]concat=n=2:v=1:a=0,format=yuv420p[v]",
            "-map", "[v]", "-r", "10", "-c:v", "libx264", "-preset", "ultrafast", "-pix_fmt",
            "yuv420p", "-movflags", "+faststart", "-g", "10", "file:/o/recording.mp4",
        ]
    );
}

#[test]
fn frames_without_extent_are_not_encoded() {
    let frames = [frame("a.png", 100)];
    let refused = |sizes: &[(u32, u32)]| encode_screenshot_sequence(&frames, sizes, 9, b"o").err();
    assert_eq!(refused(&[(0, 5)]), Some(FrameError::NoValidFrames));
    assert_eq!(refused(&[(5, 0)]), Some(FrameError::NoValidFrames));
    assert_eq!(refused(&[]), Some(FrameError::NoValidFrames));
    assert_eq!(refused(&[(5, 5)]), None);
}

#[test]
fn times_beyond_the_limit_are_left_as_numbers() {
    let limit = 8_796_093_022_208_000;
    let time = |total: u64| {
        let args = encode_screenshot_sequence(&[frame("a", 0)], &[(2, 2)], total, b"o").unwrap();
        args.into_iter().nth(6).unwrap()
    };
    assert!(matches!(time(limit), EncodeArg::Seconds(ms) if ms == limit));
    assert!(matches!(time(limit - 1), EncodeArg::Text(t) if t == "8796093022207.999"));
}

#[test]
fn the_encoder_is_not_waited_for_beyond_its_deadline() {
    let exited = EncoderStatus::Exited { success: true };
    assert_eq!(await_encoder(exited, true), EncoderAction::Finish { success: true });
    assert_eq!(await_encoder(EncoderStatus::Running, false), EncoderAction::Wait { ms: 50 });
    assert_eq!(await_encoder(EncoderStatus::Running, true), EncoderAction::Kill { timed_out: true });
    assert_eq!(await_encoder(EncoderStatus::Lost, false), EncoderAction::Kill { timed_out: false });
    assert_eq!(
        timeout_message(12),
        "ffmpeg screenshot-sequence encode exceeded 60s (12 frames); \
         killed to avoid blocking the recording mutex"
    );
    assert_eq!(
        failure_message("exit status: 1", b"bad \xff"),
        "ffmpeg screenshot-sequence encode failed (exit status: 1): bad \u{fffd}"
    );
}

#[test]
fn the_encoder_runs_only_on_frames() {
    let failed = || Some(Err("why".to_string()));
    assert!(matches!(encode_result(&[], None), Some(EncodeResult::NoFrames)));
    assert!(matches!(encode_result(&[], Some(Ok(()))), Some(EncodeResult::NoFrames)));
    assert!(matches!(encode_result(&[], failed()), Some(EncodeResult::NoFrames)));
    let frames = [frame("a", 1)];
    assert!(encode_result(&frames, None).is_none());
    assert!(matches!(encode_result(&frames, Some(Ok(()))), Some(EncodeResult::Encoded)));
    assert!(matches!(encode_result(&frames, failed()), Some(EncodeResult::Failed(e)) if e == "why"));
    assert!(stop_video(&frames, None, "/o".to_string(), 9).is_none());
    let done = stop_video(&frames, Some(Ok(())), "/o".to_string(), 9).unwrap();
    assert_eq!((done.path.as_str(), done.duration_ms), ("/o", 9));
    assert_eq!((done.finalized, done.error), (true, None));
    let broken = stop_video(&frames, failed(), "/o".to_string(), 9).unwrap();
    assert_eq!((broken.finalized, broken.error.as_deref()), (false, Some("why")));
    for outcome in [None, Some(Ok(())), failed()] {
        let empty = stop_video(&[], outcome, "/o".to_string(), 9).unwrap();
        assert!(!empty.finalized);
        assert!(empty.error.unwrap().starts_with("no target-window screenshots were recorded; "));
    }
}

#[test]
fn a_finished_video_tells_how_it_went() {
    let done = finish_video("/o".to_string(), 9, EncodeResult::Encoded);
    assert_eq!((done.path.as_str(), done.duration_ms, done.finalized), ("/o", 9, true));
    assert_eq!(done.error, None);
    let failed = finish_video("/o".to_string(), 9, EncodeResult::Failed("why".to_string()));
    assert_eq!((failed.finalized, failed.error.as_deref()), (false, Some("why")));
    let empty = finish_video("/o".to_string(), 9, EncodeResult::NoFrames);
    assert!(!empty.finalized);
    assert_eq!(
        empty.error.as_deref(),
        Some(
            "no target-window screenshots were recorded; Linux Wayland video avoids \
             display capture because locked desktops only expose the lock screen"
        )
    );
}

#[test]
fn the_display_is_never_recorded_under_wayland() {
    assert_eq!(LinuxVideoBackendFactory.start(true), VideoSource::TurnScreenshots);
    assert_eq!(LinuxVideoBackendFactory.start(false), VideoSource::Display);
}

#[test]
fn frames_come_on_at_their_times_and_cover_the_recording() {
    let frames = vec![frame("a", 40), frame("b", 300), frame("c", 1_000), frame("d", 1_250)];
    let shown = frame_durations_ms(&frames, 2_000);
    let mut at = 0;
    for (i, f) in frames.iter().enumerate() {
        if i > 0 {
            assert_eq!(at, f.t_ms);
        }
        at += shown[i];
    }
    assert_eq!(at, 2_000);
    let burst = vec![frame("a", 10), frame("b", 20), frame("c", 30)];
    let shown = frame_durations_ms(&burst, 100);
    assert_eq!(shown.iter().sum::<u64>(), 750);
    let tight = vec![frame("a", 0), frame("b", 249), frame("c", 600)];
    assert_eq!(frame_durations_ms(&tight, 900).iter().sum::<u64>(), 901);
}
