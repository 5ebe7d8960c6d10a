use cua_driver::headless_x::{
    activate, active_display, is_active, lock_path, pick_free_display, session_environment, shutdown,
    socket_path, wait_for_display, xvfb_args, EnvChange, HeadlessError, HeadlessState,
    HeadlessXSession, StartAction, StartEvent, StartPhase, TeardownStep,
};

#[test]
fn pick_free_display_returns_colon_form() {
    let d = pick_free_display(&[], &[]).unwrap();
    assert!(d.starts_with(':'));
    assert!(d[1..].parse::<u32>().is_ok());
}

#[test]
fn the_first_display_without_socket_and_lock_is_picked() {
    assert_eq!(pick_free_display(&[], &[]).unwrap(), ":70");
    assert_eq!(pick_free_display(&[70, 72], &[71]).unwrap(), ":73");
    assert_eq!(pick_free_display(&[0, 1], &[69]).unwrap(), ":70");
    let all: Vec<u32> = (70..200).collect();
    let most: Vec<u32> = (70..199).collect();
    assert_eq!(pick_free_display(&most, &[]).unwrap(), ":199");
    let full = pick_free_display(&[], &all);
    assert!(matches!(full, Err(HeadlessError::NoFreeDisplay)));
    assert_eq!(full.unwrap_err().message(), "no free X display in :70..:199");
}

#[test]
fn display_files_have_their_names() {
    assert_eq!(socket_path(70), "/tmp/.X11-unix/X70");
    assert_eq!(lock_path(199), "/tmp/.X199-lock");
}

#[test]
fn the_server_gets_its_arguments() {
    assert_eq!(
        xvfb_args(":70", 1920, 1080),
        vec![
            ":70", "-screen", "0", "1920x1080x24", "-ac", "+extension", "GLX", "+render", "-noreset",
        ]
    );
    let (session, args) = HeadlessXSession::start(&[70], &[71], 640, 480).unwrap();
    assert_eq!(session.display, ":72");
    assert_eq!(args[0], ":72");
    assert_eq!(args[3], "640x480x24");
}

#[test]
fn a_start_waits_until_the_server_answers() {
    let (phase, action) = wait_for_display(StartPhase::Spawning, StartEvent::Spawned);
    assert_eq!((phase, action), (StartPhase::Waiting, StartAction::Connect));
    let (phase, action) = wait_for_display(phase, StartEvent::NoAnswer { time_is_up: false });
    assert_eq!((phase, action), (StartPhase::Waiting, StartAction::WaitAndConnect { ms: 100 }));
    let (phase, action) = wait_for_display(phase, StartEvent::Answered);
    assert_eq!((phase, action), (StartPhase::Ended, StartAction::SpawnWindowManager));
}

#[test]
fn a_server_that_never_answers_is_killed() {
    let (phase, _) = wait_for_display(StartPhase::Spawning, StartEvent::Spawned);
    assert_eq!(
        wait_for_display(phase, StartEvent::NoAnswer { time_is_up: true }),
        (StartPhase::Ended, StartAction::KillAndFail)
    );
    assert_eq!(
        wait_for_display(StartPhase::Spawning, StartEvent::NotSpawned),
        (StartPhase::Ended, StartAction::Fail)
    );
    let late = HeadlessError::NotReady { display: ":70".to_string(), timeout_secs: 10 };
    assert_eq!(late.message(), "Xvfb did not become ready on :70 within 10s");
}

#[test]
fn a_session_is_taken_down_in_order() {
    let session = HeadlessXSession { display: ":71".to_string() };
    let steps = session.teardown(true);
    assert_eq!(steps.len(), 4);
    assert!(matches!(steps[0], TeardownStep::KillWindowManager));
    assert!(matches!(steps[1], TeardownStep::KillServer));
    assert!(matches!(&steps[2], TeardownStep::Remove(p) if p == "/tmp/.X11-unix/X71"));
    assert!(matches!(&steps[3], TeardownStep::Remove(p) if p == "/tmp/.X71-lock"));
    let steps = HeadlessXSession { display: "::7".to_string() }.teardown(false);
    assert_eq!(steps.len(), 3);
    assert!(matches!(&steps[1], TeardownStep::Remove(p) if p == "/tmp/.X11-unix/X7"));
}

#[test]
fn the_environment_points_at_the_display() {
    let mut seen: Vec<String> = Vec::new();
    for change in session_environment(":70") {
        seen.push(match change {
            EnvChange::Assign(name, value) => format!("{name}={value}"),
            EnvChange::Remove(name) => format!("-{name}"),
        });
    }
    assert_eq!(
        seen,
        vec![
            "DISPLAY=:70", "-HYPRLAND_INSTANCE_SIGNATURE", "-WAYLAND_DISPLAY",
            "LIBGL_ALWAYS_SOFTWARE=1", "GALLIUM_DRIVER=llvmpipe", "GDK_BACKEND=x11",
        ]
    );
}

#[test]
fn activation_is_idempotent_and_shutdown_ends_it() {
    let mut state: HeadlessState<u8> = HeadlessState::new();
    assert!(!is_active(&state));
    assert_eq!(active_display(&state), None);
    assert_eq!(activate(&mut state, ":70", 1), (":70".to_string(), None));
    assert!(is_active(&state));
    assert_eq!(active_display(&state), Some(":70".to_string()));
    assert_eq!(activate(&mut state, ":71", 2), (":70".to_string(), Some(2)));
    assert_eq!(active_display(&state), Some(":70".to_string()));
    assert_eq!(shutdown(&mut state), Some(1));
    assert!(!is_active(&state));
    assert_eq!(shutdown(&mut state), None);
}
