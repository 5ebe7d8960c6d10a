//! A private headless X session.
//!
//! Some X11 programs take only input that is genuine to the X server. They are
//! run in an `Xvfb` of their own and driven there: it is no output of the
//! user's compositor, and inside it their window is the focused one. While
//! such a session is active, the rest of the driver is pointed at it through
//! the environment.
use crate::text::{
    chars_of, decimal, digit_value, lemma_numeral_reads_back, piece, push_decimal, string_list,
    string_of, texts,
};
use vstd::prelude::*;

verus! {

/// The first display number that is tried.
pub const FIRST_DISPLAY: u32 = 70;

/// The number behind the last display that is tried.
pub const DISPLAY_END: u32 = 200;

/// How long the X server may take to answer, in seconds.
pub const READY_TIMEOUT_SECS: u64 = 10;

/// Why a headless session did not come up.
#[derive(Debug)]
pub enum HeadlessError {
    /// Every display number is taken.
    NoFreeDisplay,
    /// The X server did not answer in time.
    NotReady { display: String, timeout_secs: u64 },
}

impl HeadlessError {
    /// The failure in words.
    pub open spec fn words(self) -> Seq<char> {
        match self {
            HeadlessError::NoFreeDisplay => "no free X display in :70..:199"@,
            HeadlessError::NotReady { display, timeout_secs } => "Xvfb did not become ready on "@
                + display@ + " within "@ + decimal(timeout_secs as nat) + "s"@,
        }
    }

    /// The failure in words.
    pub fn message(&self) -> (r: String)
        ensures
            r@ == self.words(),
    {
        match self {
            HeadlessError::NoFreeDisplay => "no free X display in :70..:199".to_owned(),
            HeadlessError::NotReady { display, timeout_secs } => {
                let mut r = "Xvfb did not become ready on ".to_owned();
                r.append(display.as_str());
                r.append(" within ");
                push_decimal(&mut r, *timeout_secs);
                r.append("s");
                r
            },
        }
    }
}

// Displays

/// The socket of the display with a name behind its colon.
pub open spec fn socket_file(n: Seq<char>) -> Seq<char> {
    "/tmp/.X11-unix/X"@ + n
}

/// The lock file of the display with a name behind its colon.
pub open spec fn lock_file(n: Seq<char>) -> Seq<char> {
    "/tmp/.X"@ + n + "-lock"@
}

/// The socket of a display.
pub fn socket_path(n: u32) -> (r: String)
    ensures
        r@ == socket_file(decimal(n as nat)),
{
    let mut r = "/tmp/.X11-unix/X".to_owned();
    push_decimal(&mut r, n as u64);
    r
}

/// The lock file of a display.
pub fn lock_path(n: u32) -> (r: String)
    ensures
        r@ == lock_file(decimal(n as nat)),
{
    let mut r = "/tmp/.X".to_owned();
    push_decimal(&mut r, n as u64);
    r.append("-lock");
    r
}

/// The name of a display.
pub open spec fn display_name(n: nat) -> Seq<char> {
    ":"@ + decimal(n)
}

/// Whether a display can be used: neither its socket nor its lock is there.
pub open spec fn free(sockets: Seq<u32>, locks: Seq<u32>, n: u32) -> bool {
    !sockets.contains(n) && !locks.contains(n)
}

fn holds(list: &[u32], n: u32) -> (r: bool)
    ensures
        r == list@.contains(n),
{
    let mut i: usize = 0;
    while i < list.len()
        invariant
            i <= list.len(),
            forall|j: int| 0 <= j < i ==> list@[j] != n,
        decreases list.len() - i,
    {
        if list[i] == n {
            return true;
        }
        i += 1;
    }
    false
}

/// The first display that is free, given the numbers whose sockets and whose
/// locks are there.
pub fn pick_free_display(sockets: &[u32], locks: &[u32]) -> (r: Result<String, HeadlessError>)
    ensures
        (match r {
            Ok(name) => exists|n: u32|
                FIRST_DISPLAY <= n < DISPLAY_END && #[trigger] free(sockets@, locks@, n) && name@
                    == display_name(n as nat) && forall|m: u32|
                    FIRST_DISPLAY <= m < n ==> !#[trigger] free(sockets@, locks@, m),
            Err(e) => e is NoFreeDisplay && forall|m: u32|
                FIRST_DISPLAY <= m < DISPLAY_END ==> !#[trigger] free(sockets@, locks@, m),
        }),
{
    let mut n: u32 = FIRST_DISPLAY;
    while n < DISPLAY_END
        invariant
            FIRST_DISPLAY <= n <= DISPLAY_END,
            forall|m: u32| FIRST_DISPLAY <= m < n ==> !#[trigger] free(sockets@, locks@, m),
        decreases DISPLAY_END - n,
    {
        if !holds(sockets, n) && !holds(locks, n) {
            let mut name = ":".to_owned();
            push_decimal(&mut name, n as u64);
            assert(free(sockets@, locks@, n));
            return Ok(name);
        }
        n += 1;
    }
    Err(HeadlessError::NoFreeDisplay)
}

/// The size of a screen as Xvfb takes it, with 24 bits of colour.
pub open spec fn screen_text(width: u32, height: u32) -> Seq<char> {
    decimal(width as nat) + "x"@ + decimal(height as nat) + "x24"@
}

/// The arguments of Xvfb.
pub fn xvfb_args(display: &str, width: u32, height: u32) -> (r: Vec<String>)
    ensures
        texts(r@) == seq![
            display@,
            "-screen"@,
            "0"@,
            screen_text(width, height),
            "-ac"@,
            "+extension"@,
            "GLX"@,
            "+render"@,
            "-noreset"@,
        ],
{
    let mut screen = String::new();
    push_decimal(&mut screen, width as u64);
    screen.append("x");
    push_decimal(&mut screen, height as u64);
    screen.append("x24");
    assert(screen@ =~= screen_text(width, height));
    let r = string_list(
        &[display, "-screen", "0", screen.as_str(), "-ac", "+extension", "GLX", "+render", "-noreset"],
    );
    assert(texts(r@) =~= seq![
        display@,
        "-screen"@,
        "0"@,
        screen_text(width, height),
        "-ac"@,
        "+extension"@,
        "GLX"@,
        "+render"@,
        "-noreset"@,
    ]);
    r
}

// Starting

/// How far the start of a session has come.
#[derive(Debug, Clone, Copy, PartialEq, Eq)]
pub enum StartPhase {
    /// The X server is being spawned.
    Spawning,
    /// The X server runs, and its first answer is awaited.
    Waiting,
    /// Nothing more is done.
    Ended,
}

/// What came of the last action.
#[derive(Debug, Clone, Copy, PartialEq, Eq)]
pub enum StartEvent {
    /// The X server was spawned.
    Spawned,
    /// The X server could not be spawned.
    NotSpawned,
    /// The X server answered.
    Answered,
    /// The X server did not answer, and the time is or is not up.
    NoAnswer { time_is_up: bool },
}

/// What is to be done next.
#[derive(Debug, Clone, Copy, PartialEq, Eq)]
pub enum StartAction {
    /// Try to connect to the X server.
    Connect,
    /// Wait some milliseconds, then try to connect.
    WaitAndConnect { ms: u64 },
    /// Spawn the window manager, which may fail, and hand the session over.
    SpawnWindowManager,
    /// Report that the X server could not be spawned.
    Fail,
    /// Kill the X server and report that it did not answer in time.
    KillAndFail,
}

/// The phase after an event, and what is to be done.
pub open spec fn start_step(phase: StartPhase, event: StartEvent) -> (StartPhase, StartAction) {
    match (phase, event) {
        (StartPhase::Spawning, StartEvent::Spawned) => (StartPhase::Waiting, StartAction::Connect),
        (StartPhase::Waiting, StartEvent::Answered) => (
            StartPhase::Ended,
            StartAction::SpawnWindowManager,
        ),
        (StartPhase::Waiting, StartEvent::NoAnswer { time_is_up }) => if time_is_up {
            (StartPhase::Ended, StartAction::KillAndFail)
        } else {
            (StartPhase::Waiting, StartAction::WaitAndConnect { ms: 100 })
        },
        (StartPhase::Waiting, _) => (StartPhase::Ended, StartAction::KillAndFail),
        _ => (StartPhase::Ended, StartAction::Fail),
    }
}

/// Takes an event of a start and says what is to be done.
pub fn wait_for_display(phase: StartPhase, event: StartEvent) -> (r: (StartPhase, StartAction))
    ensures
        r == start_step(phase, event),
{
    match (phase, event) {
        (StartPhase::Spawning, StartEvent::Spawned) => (StartPhase::Waiting, StartAction::Connect),
        (StartPhase::Waiting, StartEvent::Answered) => (
            StartPhase::Ended,
            StartAction::SpawnWindowManager,
        ),
        (StartPhase::Waiting, StartEvent::NoAnswer { time_is_up }) => if time_is_up {
            (StartPhase::Ended, StartAction::KillAndFail)
        } else {
            (StartPhase::Waiting, StartAction::WaitAndConnect { ms: 100 })
        },
        (StartPhase::Waiting, _) => (StartPhase::Ended, StartAction::KillAndFail),
        _ => (StartPhase::Ended, StartAction::Fail),
    }
}

// The session

/// A headless X session, known by its display.
#[derive(Debug)]
pub struct HeadlessXSession {
    pub display: String,
}

impl HeadlessXSession {
    /// Chooses the display of a session and the arguments of its X server.
    pub fn start(
        sockets: &[u32],
        locks: &[u32],
        width: u32,
        height: u32,
    ) -> (r: Result<(HeadlessXSession, Vec<String>), HeadlessError>)
        ensures
            (match r {
                Ok((session, args)) => {
                    &&& exists|n: u32|
                        FIRST_DISPLAY <= n < DISPLAY_END && #[trigger] free(sockets@, locks@, n)
                            && session.display@ == display_name(n as nat) && forall|m: u32|
                            FIRST_DISPLAY <= m < n ==> !#[trigger] free(sockets@, locks@, m)
                    &&& texts(args@) == seq![
                        session.display@,
                        "-screen"@,
                        "0"@,
                        screen_text(width, height),
                        "-ac"@,
                        "+extension"@,
                        "GLX"@,
                        "+render"@,
                        "-noreset"@,
                    ]
                },
                Err(e) => e is NoFreeDisplay && forall|m: u32|
                    FIRST_DISPLAY <= m < DISPLAY_END ==> !#[trigger] free(sockets@, locks@, m),
            }),
    {
        match pick_free_display(sockets, locks) {
            Ok(display) => {
                let args = xvfb_args(display.as_str(), width, height);
                Ok((HeadlessXSession { display }, args))
            },
            Err(e) => Err(e),
        }
    }

    /// The steps that take the session down: the window manager goes before
    /// the X server, and what the X server leaves behind goes last.
    pub fn teardown(&self, window_manager: bool) -> (r: Vec<TeardownStep>)
        ensures
            teardown_models(r@) == teardown_of(self.display@, window_manager),
    {
        let v = chars_of(self.display.as_str());
        let n: usize = v.len();
        let mut i: usize = 0;
        assert(v@.skip(0) =~= v@);
        while i < n && v[i] == ':'
            invariant
                i <= n == v@.len(),
                v@ == self.display@,
                without_colons(self.display@) == without_colons(v@.skip(i as int)),
            decreases n - i,
        {
            assert(v@.skip(i as int).skip(1) =~= v@.skip(i + 1));
            i += 1;
        }
        let name = string_of(&piece(&v, i, n));
        assert(name@ =~= v@.skip(i as int));
        assert(name@ == without_colons(self.display@));
        let mut socket = "/tmp/.X11-unix/X".to_owned();
        socket.append(name.as_str());
        let mut lock = "/tmp/.X".to_owned();
        lock.append(name.as_str());
        lock.append("-lock");
        let mut r: Vec<TeardownStep> = Vec::new();
        if window_manager {
            r.push(TeardownStep::KillWindowManager);
        }
        r.push(TeardownStep::KillServer);
        r.push(TeardownStep::Remove(socket));
        r.push(TeardownStep::Remove(lock));
        assert(teardown_models(r@) =~= teardown_of(self.display@, window_manager));
        r
    }
}

/// A step that takes a session down.
#[derive(Debug)]
pub enum TeardownStep {
    KillWindowManager,
    KillServer,
    Remove(String),
}

/// What a step that takes a session down does.
pub enum TeardownModel {
    KillWindowManager,
    KillServer,
    Remove(Seq<char>),
}

impl View for TeardownStep {
    type V = TeardownModel;

    open spec fn view(&self) -> TeardownModel {
        match self {
            TeardownStep::KillWindowManager => TeardownModel::KillWindowManager,
            TeardownStep::KillServer => TeardownModel::KillServer,
            TeardownStep::Remove(path) => TeardownModel::Remove(path@),
        }
    }
}

/// What the steps in a list do.
pub open spec fn teardown_models(steps: Seq<TeardownStep>) -> Seq<TeardownModel> {
    steps.map_values(|s: TeardownStep| s@)
}

/// A display's name without the colons at its start.
pub open spec fn without_colons(s: Seq<char>) -> Seq<char>
    decreases s.len(),
{
    if s.len() > 0 && s[0] == ':' {
        without_colons(s.skip(1))
    } else {
        s
    }
}

/// The steps that take down a session on a display.
pub open spec fn teardown_of(display: Seq<char>, window_manager: bool) -> Seq<TeardownModel> {
    (if window_manager {
        seq![TeardownModel::KillWindowManager]
    } else {
        seq![]
    }) + seq![
        TeardownModel::KillServer,
        TeardownModel::Remove(socket_file(without_colons(display))),
        TeardownModel::Remove(lock_file(without_colons(display))),
    ]
}

// The environment

/// A change to the environment of the process.
#[derive(Debug)]
pub enum EnvChange {
    Assign(&'static str, String),
    Remove(&'static str),
}

/// What a change to the environment does.
pub enum EnvModel {
    Assign(Seq<char>, Seq<char>),
    Remove(Seq<char>),
}

impl View for EnvChange {
    type V = EnvModel;

    open spec fn view(&self) -> EnvModel {
        match self {
            EnvChange::Assign(name, value) => EnvModel::Assign(name@, value@),
            EnvChange::Remove(name) => EnvModel::Remove(name@),
        }
    }
}

/// What the changes in a list do.
pub open spec fn env_models(changes: Seq<EnvChange>) -> Seq<EnvModel> {
    changes.map_values(|c: EnvChange| c@)
}

/// The environment that points the driver at a display: it names the display,
/// no longer tells of Hyprland and Wayland, and has programs draw without a
/// graphics card and on X11.
pub open spec fn environment_of(display: Seq<char>) -> Seq<EnvModel> {
    seq![
        EnvModel::Assign("DISPLAY"@, display),
        EnvModel::Remove("HYPRLAND_INSTANCE_SIGNATURE"@),
        EnvModel::Remove("WAYLAND_DISPLAY"@),
        EnvModel::Assign("LIBGL_ALWAYS_SOFTWARE"@, "1"@),
        EnvModel::Assign("GALLIUM_DRIVER"@, "llvmpipe"@),
        EnvModel::Assign("GDK_BACKEND"@, "x11"@),
    ]
}

/// The changes to the environment that point the driver at a display.
pub fn session_environment(display: &str) -> (r: Vec<EnvChange>)
    ensures
        env_models(r@) == environment_of(display@),
{
    let mut r: Vec<EnvChange> = Vec::new();
    r.push(EnvChange::Assign("DISPLAY", display.to_owned()));
    r.push(EnvChange::Remove("HYPRLAND_INSTANCE_SIGNATURE"));
    r.push(EnvChange::Remove("WAYLAND_DISPLAY"));
    r.push(EnvChange::Assign("LIBGL_ALWAYS_SOFTWARE", "1".to_owned()));
    r.push(EnvChange::Assign("GALLIUM_DRIVER", "llvmpipe".to_owned()));
    r.push(EnvChange::Assign("GDK_BACKEND", "x11".to_owned()));
    assert(env_models(r@) =~= environment_of(display@));
    r
}

// The driver's mode

/// Whether the driver runs headless, and on which session.
pub struct HeadlessState<S> {
    active: bool,
    session: Option<(String, S)>,
}

/// What is known of the driver's mode: the display of the session, if there is
/// one.
pub struct HeadlessModel<S> {
    pub active: bool,
    pub session: Option<(Seq<char>, S)>,
}

impl<S> View for HeadlessState<S> {
    type V = HeadlessModel<S>;

    closed spec fn view(&self) -> HeadlessModel<S> {
        HeadlessModel {
            active: self.active,
            session: match self.session {
                Some((display, s)) => Some((display@, s)),
                None => None,
            },
        }
    }
}

impl<S> HeadlessModel<S> {
    /// The driver is headless just while it has a session.
    pub open spec fn valid(self) -> bool {
        self.active == self.session is Some
    }

    /// The mode before any session.
    pub open spec fn fresh() -> HeadlessModel<S> {
        HeadlessModel { active: false, session: None }
    }

    /// The mode once a session was started, unless there is one already.
    pub open spec fn activated(self, display: Seq<char>, s: S) -> HeadlessModel<S> {
        if self.session is Some {
            self
        } else {
            HeadlessModel { active: true, session: Some((display, s)) }
        }
    }
}

impl<S> HeadlessState<S> {
    /// The mode before any session.
    pub fn new() -> (r: HeadlessState<S>)
        ensures
            r@ == HeadlessModel::<S>::fresh(),
            r@.valid(),
    {
        HeadlessState { active: false, session: None }
    }
}

/// Whether the driver runs headless.
pub fn is_active<S>(state: &HeadlessState<S>) -> (r: bool)
    ensures
        r == state@.active,
{
    state.active
}

/// The display of the session that there is, if there is one. A session is
/// started only where there is none.
pub fn active_display<S>(state: &HeadlessState<S>) -> (r: Option<String>)
    ensures
        (match state@.session {
            Some((display, _)) => r matches Some(d) && d@ == display,
            None => r is None,
        }),
{
    match &state.session {
        Some((display, _)) => Some(display.clone()),
        None => None,
    }
}

/// Takes over a session that was started, and gives the display that the
/// driver now runs on. Where there is a session already, that one stays, and
/// the other is handed back.
pub fn activate<S>(state: &mut HeadlessState<S>, display: &str, session: S) -> (r: (String, Option<S>))
    requires
        old(state)@.valid(),
    ensures
        final(state)@ == old(state)@.activated(display@, session),
        final(state)@.valid(),
        (match old(state)@.session {
            Some((d, _)) => r.0@ == d && r.1 == Some(session),
            None => r.0@ == display@ && r.1 is None,
        }),
{
    if let Some((d, _)) = &state.session {
        return (d.clone(), Some(session));
    }
    state.session = Some((display.to_owned(), session));
    state.active = true;
    (display.to_owned(), None)
}

/// Ends the headless mode, and hands the session back to be taken down.
pub fn shutdown<S>(state: &mut HeadlessState<S>) -> (r: Option<S>)
    ensures
        final(state)@ == HeadlessModel::<S>::fresh(),
        (match old(state)@.session {
            Some((_, s)) => r == Some(s),
            None => r is None,
        }),
{
    state.active = false;
    match state.session.take() {
        Some((_, s)) => Some(s),
        None => None,
    }
}

// Laws

/// The start of a session after a series of events.
pub open spec fn start_run(events: Seq<StartEvent>) -> (StartPhase, Option<StartAction>)
    decreases events.len(),
{
    if events.len() == 0 {
        (StartPhase::Spawning, None)
    } else {
        let (phase, _) = start_run(events.drop_last());
        let (next, action) = start_step(phase, events.last());
        (next, Some(action))
    }
}

/// Whether an action hands the X server over or kills it.
pub open spec fn disposes(action: Option<StartAction>) -> bool {
    action == Some(StartAction::SpawnWindowManager) || action == Some(StartAction::KillAndFail)
}

/// No X server is left running unseen: once a start that spawned one has
/// ended, the server was handed over or killed. It is handed over only after
/// it answered.
pub proof fn law_no_server_is_left_behind(events: Seq<StartEvent>)
    ensures
        start_run(events).0 == StartPhase::Spawning ==> events.len() == 0,
        start_run(events).0 == StartPhase::Waiting ==> events.len() > 0 && events[0]
            == StartEvent::Spawned,
        start_run(events).0 == StartPhase::Ended && events[0] == StartEvent::Spawned ==> exists|k: int|
            0 < k <= events.len() && disposes(#[trigger] start_run(events.take(k)).1),
        start_run(events).1 == Some(StartAction::SpawnWindowManager) ==> events.last()
            == StartEvent::Answered && events[0] == StartEvent::Spawned,
    decreases events.len(),
{
    if events.len() > 0 {
        let before = events.drop_last();
        let n = events.len() as int;
        law_no_server_is_left_behind(before);
        assert(events.take(n) =~= events);
        if before.len() > 0 {
            assert(before[0] == events[0]);
        }
        if start_run(before).0 == StartPhase::Ended && events[0] == StartEvent::Spawned {
            let k = choose|k: int|
                0 < k <= before.len() && disposes(#[trigger] start_run(before.take(k)).1);
            assert(before.take(k) =~= events.take(k));
        }
        if disposes(start_run(events).1) {
            assert(disposes(start_run(events.take(n)).1));
        }
    }
}

/// What is removed when a session on a picked display ends is what was looked
/// for when the display was picked.
pub proof fn law_teardown_frees_the_display(n: u32, window_manager: bool)
    ensures
        teardown_of(display_name(n as nat), window_manager).contains(
            TeardownModel::Remove(socket_file(decimal(n as nat))),
        ),
        teardown_of(display_name(n as nat), window_manager).contains(
            TeardownModel::Remove(lock_file(decimal(n as nat))),
        ),
{
    let digits = decimal(n as nat);
    let name = display_name(n as nat);
    lemma_numeral_reads_back(n as nat, 10);
    reveal_strlit(":");
    assert(digit_value(digits[0], 10) is Some);
    assert(name[0] == ':');
    assert(name.skip(1) =~= digits);
    assert(without_colons(digits) == digits);
    let steps = teardown_of(name, window_manager);
    assert(steps[steps.len() - 2] == TeardownModel::Remove(socket_file(digits)));
    assert(steps[steps.len() - 1] == TeardownModel::Remove(lock_file(digits)));
}

/// Activating twice is activating once: the second call keeps the first
/// session and names its display.
pub proof fn law_activation_is_idempotent<S>(
    m: HeadlessModel<S>,
    first: Seq<char>,
    a: S,
    second: Seq<char>,
    b: S,
)
    requires
        m.valid(),
    ensures
        m.activated(first, a).activated(second, b) == m.activated(first, a),
        m.activated(first, a).valid(),
        m.activated(first, a).active,
{
}

/// The displays that are tried are those from 70 to 199. A display is free
/// just where neither its socket nor its lock is there, and its name, its
/// socket and its lock are made from its number.
pub proof fn law_displays_are_known_by_their_files(
    sockets: Seq<u32>,
    locks: Seq<u32>,
    n: u32,
    m: u32,
)
    ensures
        FIRST_DISPLAY == 70 && DISPLAY_END == 200 && READY_TIMEOUT_SECS == 10,
        free(sockets, locks, n) <==> !(exists|i: int| 0 <= i < sockets.len() && sockets[i] == n) && !(
        exists|i: int| 0 <= i < locks.len() && locks[i] == n),
        display_name(n as nat) == seq![':'] + decimal(n as nat),
        display_name(n as nat) == display_name(m as nat) ==> n == m,
        socket_file(decimal(n as nat)) == "/tmp/.X11-unix/X"@ + decimal(n as nat),
        lock_file(decimal(n as nat)) == "/tmp/.X"@ + decimal(n as nat) + "-lock"@,
{
    reveal_strlit(":");
    assert(":"@ =~= seq![':']);
    lemma_numeral_reads_back(n as nat, 10);
    lemma_numeral_reads_back(m as nat, 10);
    assert(display_name(n as nat).skip(1) =~= decimal(n as nat));
    assert(display_name(m as nat).skip(1) =~= decimal(m as nat));
}

/// A screen is as wide and as high as it is asked to be, with 24 bits a pixel.
pub proof fn law_screens_have_their_size(width: u32, height: u32)
    ensures
        screen_text(width, height) == decimal(width as nat) + seq!['x'] + decimal(height as nat) + seq![
            'x',
            '2',
            '4',
        ],
{
    reveal_strlit("x");
    reveal_strlit("x24");
    assert("x"@ =~= seq!['x']);
    assert("x24"@ =~= seq!['x', '2', '4']);
}

/// The start of a session that is still waited for.
proof fn lemma_waiting(waits: nat)
    ensures
        start_run(seq![StartEvent::Spawned] + Seq::new(
            waits,
            |i: int| StartEvent::NoAnswer { time_is_up: false },
        )).0 == StartPhase::Waiting,
    decreases waits,
{
    let first = seq![StartEvent::Spawned];
    let events = first + Seq::new(waits, |i: int| StartEvent::NoAnswer { time_is_up: false });
    if waits == 0 {
        assert(events =~= first);
        assert(first.drop_last() =~= Seq::<StartEvent>::empty());
        assert(start_run(first.drop_last()).0 == StartPhase::Spawning);
    } else {
        lemma_waiting((waits - 1) as nat);
        let less = first + Seq::new(
            (waits - 1) as nat,
            |i: int| StartEvent::NoAnswer { time_is_up: false },
        );
        assert(events.drop_last() =~= less);
        assert(events.last() == (StartEvent::NoAnswer { time_is_up: false }));
    }
}

/// An X server that was spawned is asked at once, and then again every tenth
/// of a second for as long as the time is not up. As soon as it answers, the
/// session is handed over; when the time is up, it is killed. One that could
/// not be spawned is reported.
pub proof fn law_servers_are_waited_for(waits: nat)
    ensures
        ({
            let before = seq![StartEvent::Spawned] + Seq::new(
                waits,
                |i: int| StartEvent::NoAnswer { time_is_up: false },
            );
            &&& start_run(before).1 == Some(
                if waits == 0 {
                    StartAction::Connect
                } else {
                    StartAction::WaitAndConnect { ms: 100 }
                },
            )
            &&& start_run(before.push(StartEvent::Answered)) == (
                StartPhase::Ended,
                Some(StartAction::SpawnWindowManager),
            )
            &&& start_run(before.push(StartEvent::NoAnswer { time_is_up: true })) == (
                StartPhase::Ended,
                Some(StartAction::KillAndFail),
            )
        }),
        start_run(seq![StartEvent::NotSpawned]) == (StartPhase::Ended, Some(StartAction::Fail)),
{
    let first = seq![StartEvent::Spawned];
    let before = first + Seq::new(waits, |i: int| StartEvent::NoAnswer { time_is_up: false });
    lemma_waiting(waits);
    assert(before.push(StartEvent::Answered).drop_last() =~= before);
    assert(before.push(StartEvent::NoAnswer { time_is_up: true }).drop_last() =~= before);
    let failed = seq![StartEvent::NotSpawned];
    assert(failed.drop_last() =~= Seq::<StartEvent>::empty());
    assert(start_run(failed.drop_last()).0 == StartPhase::Spawning);
    if waits == 0 {
        assert(before =~= first);
        assert(first.drop_last() =~= Seq::<StartEvent>::empty());
        assert(start_run(first.drop_last()).0 == StartPhase::Spawning);
    } else {
        lemma_waiting((waits - 1) as nat);
        assert(before.drop_last() =~= first + Seq::new(
            (waits - 1) as nat,
            |i: int| StartEvent::NoAnswer { time_is_up: false },
        ));
        assert(before.last() == (StartEvent::NoAnswer { time_is_up: false }));
    }
}

/// A session is taken down in order: the window manager, if there is one, then
/// the X server, then its socket and its lock. The colons in front of the
/// display's name are no part of the files' names.
pub proof fn law_sessions_are_taken_down_in_order(name: Seq<char>, window_manager: bool)
    requires
        name.len() > 0 ==> name[0] != ':',
    ensures
        ({
            let steps = teardown_of(seq![':'] + name, window_manager);
            let n: int = if window_manager {
                1
            } else {
                0
            };
            &&& steps.len() == n + 3
            &&& window_manager ==> steps[0] == TeardownModel::KillWindowManager
            &&& steps[n] == TeardownModel::KillServer
            &&& steps[n + 1] == TeardownModel::Remove("/tmp/.X11-unix/X"@ + name)
            &&& steps[n + 2] == TeardownModel::Remove("/tmp/.X"@ + name + "-lock"@)
        }),
        without_colons(name) == name,
        without_colons(seq![':'] + name) == name,
{
    let display = seq![':'] + name;
    assert(display[0] == ':');
    assert(display.skip(1) =~= name);
    assert(without_colons(name) == name);
    assert(without_colons(display) == without_colons(display.skip(1)));
}

/// An environment after some changes.
pub open spec fn changed(
    env: Map<Seq<char>, Seq<char>>,
    changes: Seq<EnvModel>,
) -> Map<Seq<char>, Seq<char>>
    decreases changes.len(),
{
    if changes.len() == 0 {
        env
    } else {
        let before = changed(env, changes.drop_last());
        match changes.last() {
            EnvModel::Assign(name, value) => before.insert(name, value),
            EnvModel::Remove(name) => before.remove(name),
        }
    }
}

/// The environment of a headless session names its display, tells nothing of
/// Hyprland or Wayland, and has programs draw without a graphics card and on
/// X11. Every other variable stays as it is.
pub proof fn law_the_environment_points_at_the_display(
    env: Map<Seq<char>, Seq<char>>,
    display: Seq<char>,
    name: Seq<char>,
)
    ensures
        ({
            let after = changed(env, environment_of(display));
            &&& after.dom().contains("DISPLAY"@) && after["DISPLAY"@] == display
            &&& !after.dom().contains("HYPRLAND_INSTANCE_SIGNATURE"@)
            &&& !after.dom().contains("WAYLAND_DISPLAY"@)
            &&& after.dom().contains("LIBGL_ALWAYS_SOFTWARE"@) && after["LIBGL_ALWAYS_SOFTWARE"@]
                == "1"@
            &&& after.dom().contains("GALLIUM_DRIVER"@) && after["GALLIUM_DRIVER"@] == "llvmpipe"@
            &&& after.dom().contains("GDK_BACKEND"@) && after["GDK_BACKEND"@] == "x11"@
            &&& name != "DISPLAY"@ && name != "HYPRLAND_INSTANCE_SIGNATURE"@ && name
                != "WAYLAND_DISPLAY"@ && name != "LIBGL_ALWAYS_SOFTWARE"@ && name != "GALLIUM_DRIVER"@
                && name != "GDK_BACKEND"@ ==> (after.dom().contains(name) <==> env.dom().contains(name))
                && (env.dom().contains(name) ==> after[name] == env[name])
        }),
{
    reveal_strlit("DISPLAY");
    reveal_strlit("HYPRLAND_INSTANCE_SIGNATURE");
    reveal_strlit("WAYLAND_DISPLAY");
    reveal_strlit("LIBGL_ALWAYS_SOFTWARE");
    reveal_strlit("GALLIUM_DRIVER");
    reveal_strlit("GDK_BACKEND");
    assert("DISPLAY"@.len() == 7 && "HYPRLAND_INSTANCE_SIGNATURE"@.len() == 27);
    assert("WAYLAND_DISPLAY"@.len() == 15 && "LIBGL_ALWAYS_SOFTWARE"@.len() == 21);
    assert("GALLIUM_DRIVER"@.len() == 14 && "GDK_BACKEND"@.len() == 11);
    reveal_with_fuel(changed, 7);
    let all = environment_of(display);
    let five = all.drop_last();
    let four = five.drop_last();
    let three = four.drop_last();
    let two = three.drop_last();
    let one = two.drop_last();
    assert(five.last() == all[4] && four.last() == all[3] && three.last() == all[2]);
    assert(two.last() == all[1] && one.last() == all[0]);
    assert(one.drop_last().len() == 0);
}

/// The first session that is taken over is the one that the driver runs on,
/// and until then it runs on none.
pub proof fn law_the_first_session_is_taken_over<S>(display: Seq<char>, s: S)
    ensures
        !HeadlessModel::<S>::fresh().active,
        HeadlessModel::<S>::fresh().session is None,
        HeadlessModel::<S>::fresh().activated(display, s).session == Some((display, s)),
        HeadlessModel::<S>::fresh().activated(display, s).active,
{
}

/// A session that did not come up says why, and names its display and the time
/// that it had.
pub proof fn law_failures_to_start_say_why(display: String, timeout_secs: u64)
    ensures
        HeadlessError::NoFreeDisplay.words() == "no free X display in :70..:199"@,
        (HeadlessError::NotReady { display, timeout_secs }).words() == "Xvfb did not become ready on "@
            + display@ + " within "@ + decimal(timeout_secs as nat) + "s"@,
{
}

} // verus!
