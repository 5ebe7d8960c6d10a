//! Keeping a background launch out of the user's way.
//!
//! A window rule covers only the first window that a launched process opens.
//! So the process is watched for as long as it lives, and its windows are
//! swept onto the hidden workspace; and the focus is put back when the launch
//! took it. What is watched is a process and not a number: a process is known
//! by its number and the time at which the kernel started it.
use crate::hyprland::{
    address_of, client_models, parse_address, window_models, ClientModel, HyprClient,
    WindowInfo, WindowModel,
};
use crate::text::{
    chars_of, decimal, field, last_position, nth_field, number, piece, push_decimal, read_number,
};
use std::collections::HashSet;
use vstd::prelude::*;

verus! {

broadcast use vstd::std_specs::hash::group_hash_axioms;

// Processes

/// The file in which the kernel tells of a process.
pub fn stat_path(pid: u32) -> (r: String)
    ensures
        r@ == "/proc/"@ + decimal(pid as nat) + "/stat"@,
{
    let mut r = "/proc/".to_owned();
    push_decimal(&mut r, pid as u64);
    r.append("/stat");
    r
}

/// The start time among the fields that follow a process's name.
pub open spec fn start_field(fields: Seq<char>) -> Option<u64> {
    match field(fields, 19) {
        Some(f) => match number(f, 10, u64::MAX as nat) {
            Some(n) => Some(n as u64),
            None => None,
        },
        None => None,
    }
}

/// The start time that the kernel tells of a process. The name stands in round
/// brackets and can hold brackets and spaces itself, so the fields are those
/// behind the last closing bracket.
pub open spec fn start_time(stat: Seq<char>) -> Option<u64> {
    match stat.index_of_last(')') {
        Some(i) => start_field(stat.skip(i + 1)),
        None => None,
    }
}

/// The start time of a process, from what the kernel tells of it; none once
/// the process is gone.
pub fn proc_start_time(stat: Option<&str>) -> (r: Option<u64>)
    ensures
        r == (match stat {
            Some(s) => start_time(s@),
            None => None,
        }),
{
    let v = match stat {
        Some(s) => chars_of(s),
        None => {
            return None;
        },
    };
    let n: usize = v.len();
    let close: usize = match last_position(&v, ')') {
        Some(i) => i,
        None => {
            return None;
        },
    };
    let fields = piece(&v, close + 1, n);
    assert(fields@ =~= v@.skip(close + 1));
    match nth_field(&fields, 19) {
        Some(f) => read_number(&f, 10, u64::MAX),
        None => None,
    }
}

// Sweeping windows

/// The window of a process that is to be swept onto the hidden workspace: one
/// on a workspace that is not special.
pub open spec fn swept(c: ClientModel, pid: u32) -> Option<u64> {
    if c.pid == pid && (c.workspace matches Some(w) && w.id >= 0) {
        address_of(c.address)
    } else {
        None
    }
}

/// The windows of a process that are to be swept, in the clients' order.
pub open spec fn sweep(clients: Seq<ClientModel>, pid: u32) -> Seq<u64>
    decreases clients.len(),
{
    if clients.len() == 0 {
        Seq::empty()
    } else {
        let before = sweep(clients.drop_last(), pid);
        match swept(clients.last(), pid) {
            Some(id) => before.push(id),
            None => before,
        }
    }
}

fn swept_window(c: &HyprClient, pid: u32) -> (r: Option<u64>)
    ensures
        r == swept(c@, pid),
{
    match &c.workspace {
        Some(w) => if c.pid == pid as i64 && w.id >= 0 {
            parse_address(c.address.as_str())
        } else {
            None
        },
        None => None,
    }
}

/// The windows of a process that are to be moved onto the hidden workspace;
/// none where the compositor did not report its clients.
pub fn enforce_background_placement(clients: Option<&[HyprClient]>, pid: u32) -> (r: Vec<u64>)
    ensures
        r@ == (match clients {
            Some(list) => sweep(client_models(list@), pid),
            None => Seq::empty(),
        }),
{
    let mut r: Vec<u64> = Vec::new();
    let list = match clients {
        Some(list) => list,
        None => {
            return r;
        },
    };
    let ghost models = client_models(list@);
    let mut i: usize = 0;
    while i < list.len()
        invariant
            i <= list.len(),
            models == client_models(list@),
            r@ == sweep(models.take(i as int), pid),
        decreases list.len() - i,
    {
        assert(models.take(i + 1).drop_last() =~= models.take(i as int));
        assert(models.take(i + 1).last() == list@[i as int]@);
        if let Some(id) = swept_window(&list[i], pid) {
            r.push(id);
        }
        i += 1;
    }
    assert(models.take(i as int) =~= models);
    r
}

/// How a process's windows are kept off the user's workspaces.
#[derive(Debug, Clone, Copy, PartialEq, Eq)]
pub enum GuardTier {
    /// The compositor does it; what is left is to tell it when the process is
    /// gone.
    Compositor,
    /// The windows are swept again and again.
    Polling,
}

/// Chooses the guard, by whether the compositor took the process into its own.
pub fn guard_background_placement_for_pid_lifetime(registered: bool) -> (r: GuardTier)
    ensures
        r == (if registered {
            GuardTier::Compositor
        } else {
            GuardTier::Polling
        }),
{
    if registered {
        GuardTier::Compositor
    } else {
        GuardTier::Polling
    }
}

/// Whether the process that had a start time when its watch began still runs.
pub open spec fn still_runs(first: Option<u64>, now: Option<u64>) -> bool {
    first is Some && now == first
}

/// What the watch over a process that the compositor guards does next.
#[derive(Debug, Clone, Copy, PartialEq, Eq)]
pub enum ReaperStep {
    /// Wait some milliseconds and look again.
    Wait { ms: u64 },
    /// Take the process out of the compositor's guard, and end.
    Unregister,
}

/// What follows a look at a process that the compositor guards.
pub open spec fn reaper_step(first: Option<u64>, now: Option<u64>) -> ReaperStep {
    if still_runs(first, now) {
        ReaperStep::Wait { ms: 1000 }
    } else {
        ReaperStep::Unregister
    }
}

/// Looks after a process that the compositor guards: waits while it runs, and
/// takes it out of the guard once it is gone or its number is another's.
pub fn background_pid_reaper(first: Option<u64>, now: Option<u64>) -> (r: ReaperStep)
    ensures
        r == reaper_step(first, now),
{
    match (first, now) {
        (Some(a), Some(b)) => if a == b {
            ReaperStep::Wait { ms: 1000 }
        } else {
            ReaperStep::Unregister
        },
        _ => ReaperStep::Unregister,
    }
}

/// What the watch that sweeps a process's windows does next.
#[derive(Debug, Clone, Copy, PartialEq, Eq)]
pub enum SweeperStep {
    /// Wait some milliseconds and sweep.
    WaitAndSweep { ms: u64 },
    /// End.
    End,
}

/// What follows a look at a process whose windows are swept.
pub open spec fn sweeper_step(first: Option<u64>, now: Option<u64>, elapsed_ms: u64) -> SweeperStep {
    if !still_runs(first, now) {
        SweeperStep::End
    } else if elapsed_ms < 30_000 {
        SweeperStep::WaitAndSweep { ms: 300 }
    } else {
        SweeperStep::WaitAndSweep { ms: 1000 }
    }
}

/// Looks after a process whose windows are swept: often while it starts, more
/// rarely afterwards, and no more once it is gone.
pub fn background_placement_guard(
    first: Option<u64>,
    now: Option<u64>,
    elapsed_ms: u64,
) -> (r: SweeperStep)
    ensures
        r == sweeper_step(first, now, elapsed_ms),
{
    match (first, now) {
        (Some(a), Some(b)) => if a != b {
            SweeperStep::End
        } else if elapsed_ms < 30_000 {
            SweeperStep::WaitAndSweep { ms: 300 }
        } else {
            SweeperStep::WaitAndSweep { ms: 1000 }
        },
        _ => SweeperStep::End,
    }
}

// Finding the launched window

/// The ids of the windows in a list.
pub open spec fn window_ids(windows: Seq<WindowModel>) -> Set<u64> {
    windows.map_values(|w: WindowModel| w.xid).to_set()
}

/// The ids of the windows in a list.
pub fn known_windows(windows: &[WindowInfo]) -> (r: HashSet<u64>)
    ensures
        r@ == window_ids(window_models(windows@)),
{
    let mut r: HashSet<u64> = HashSet::new();
    let ghost ids = window_models(windows@).map_values(|w: WindowModel| w.xid);
    let mut i: usize = 0;
    assert(r@ =~= ids.take(0).to_set());
    while i < windows.len()
        invariant
            i <= windows.len(),
            ids == window_models(windows@).map_values(|w: WindowModel| w.xid),
            r@ == ids.take(i as int).to_set(),
        decreases windows.len() - i,
    {
        r.insert(windows[i].xid);
        assert(ids.take(i + 1) =~= ids.take(i as int).push(ids[i as int]));
        proof {
            ids.take(i as int).lemma_push_to_set_commute(ids[i as int]);
        }
        i += 1;
    }
    assert(ids.take(i as int) =~= ids);
    r
}

/// Whether a window is on a special workspace.
pub open spec fn on_special(w: WindowModel) -> bool {
    w.workspace_id matches Some(id) && id < 0
}

/// Where the first window stands that is not among the known ones.
pub open spec fn first_fresh(known: Set<u64>, windows: Seq<WindowModel>) -> Option<int> {
    windows.map_values(|w: WindowModel| !known.contains(w.xid)).index_of_first(true)
}

/// Where the first window stands that is not among the known ones and is on a
/// special workspace.
pub open spec fn first_fresh_on_special(known: Set<u64>, windows: Seq<WindowModel>) -> Option<int> {
    windows.map_values(|w: WindowModel| !known.contains(w.xid) && on_special(w)).index_of_first(true)
}

/// The window that a launch opened: a new one on a special workspace, or else
/// the first new one.
pub open spec fn launched(known: Set<u64>, windows: Seq<WindowModel>) -> Option<WindowModel> {
    match first_fresh_on_special(known, windows) {
        Some(i) => Some(windows[i]),
        None => match first_fresh(known, windows) {
            Some(i) => Some(windows[i]),
            None => None,
        },
    }
}

/// Finds the window that a launch opened, among the windows there are now.
pub fn launched_window(known: &HashSet<u64>, windows: &[WindowInfo]) -> (r: Option<WindowInfo>)
    ensures
        (match r {
            Some(w) => launched(known@, window_models(windows@)) == Some(w@),
            None => launched(known@, window_models(windows@)) is None,
        }),
{
    let ghost models = window_models(windows@);
    let ghost fresh = models.map_values(|w: WindowModel| !known@.contains(w.xid));
    let ghost special = models.map_values(
        |w: WindowModel| !known@.contains(w.xid) && on_special(w),
    );
    let mut first: Option<usize> = None;
    let mut i: usize = 0;
    while i < windows.len()
        invariant
            i <= windows.len(),
            models == window_models(windows@),
            fresh == models.map_values(|w: WindowModel| !known@.contains(w.xid)),
            special == models.map_values(
                |w: WindowModel| !known@.contains(w.xid) && on_special(w),
            ),
            forall|j: int| 0 <= j < i ==> !#[trigger] special[j],
            (match first {
                Some(k) => k < i && fresh[k as int] && forall|j: int| 0 <= j < k ==> !#[trigger] fresh[j],
                None => forall|j: int| 0 <= j < i ==> !#[trigger] fresh[j],
            }),
        decreases windows.len() - i,
    {
        let is_fresh = !known.contains(&windows[i].xid);
        let is_special = match windows[i].workspace_id {
            Some(id) => id < 0,
            None => false,
        };
        assert(fresh[i as int] == is_fresh);
        assert(special[i as int] == (is_fresh && is_special));
        if is_fresh {
            if is_special {
                proof {
                    special.index_of_first_ensures(true);
                    assert(special.contains(true));
                }
                return Some(windows[i].copy());
            }
            if first.is_none() {
                first = Some(i);
            }
        }
        i += 1;
    }
    proof {
        special.index_of_first_ensures(true);
        fresh.index_of_first_ensures(true);
    }
    match first {
        Some(k) => {
            assert(fresh.contains(true));
            Some(windows[k].copy())
        },
        None => None,
    }
}

/// What a launch does next while its window is awaited.
#[derive(Debug, Clone, Copy, PartialEq, Eq)]
pub enum LaunchStep {
    /// Wait some milliseconds and look for a new window.
    WaitAndLook { ms: u64 },
    /// Report that no window came: the start is slow, or the window opened in
    /// a process that was there before.
    NoWindow,
}

/// What a launch whose window is awaited does at a time.
pub open spec fn launch_step(elapsed_ms: u64) -> LaunchStep {
    if elapsed_ms < 10_000 {
        LaunchStep::WaitAndLook { ms: 250 }
    } else {
        LaunchStep::NoWindow
    }
}

/// Awaits the window of a launch for ten seconds.
pub fn await_launch(elapsed_ms: u64) -> (r: LaunchStep)
    ensures
        r == launch_step(elapsed_ms),
{
    if elapsed_ms < 10_000 {
        LaunchStep::WaitAndLook { ms: 250 }
    } else {
        LaunchStep::NoWindow
    }
}

// Putting the focus back

/// The time during which any change of focus counts as the launch's, in
/// milliseconds.
pub const EARLY_RESTORE_MS: u64 = 700;

/// The time for which the focus is watched, in milliseconds.
pub const FOCUS_WATCH_MS: u64 = 3000;

/// How far a watch over the focus has come.
#[derive(Debug, Clone, Copy, PartialEq, Eq)]
pub enum FocusPhase {
    /// The time is to be told.
    Watching,
    /// The time was not up, and the window that has the focus is to be told.
    Looking,
    /// Nothing more is done.
    Ended,
}

/// A watch over the focus across a launch.
pub struct FocusGuard {
    previous: u64,
    preexisting: HashSet<u64>,
    phase: FocusPhase,
}

/// What a watch over the focus knows: the window that had it, the windows that
/// there were, and how far it has come.
pub struct FocusModel {
    pub previous: u64,
    pub preexisting: Set<u64>,
    pub phase: FocusPhase,
}

impl View for FocusGuard {
    type V = FocusModel;

    closed spec fn view(&self) -> FocusModel {
        FocusModel {
            previous: self.previous,
            preexisting: self.preexisting@,
            phase: self.phase,
        }
    }
}

/// The window ids among the addresses of some clients.
pub open spec fn client_ids(clients: Seq<ClientModel>) -> Set<u64> {
    Set::new(
        |id: u64| exists|i: int| 0 <= i < clients.len() && address_of(#[trigger] clients[i].address) == Some(id),
    )
}

fn known_clients(clients: &[HyprClient]) -> (r: HashSet<u64>)
    ensures
        r@ == client_ids(client_models(clients@)),
{
    let mut r: HashSet<u64> = HashSet::new();
    let ghost models = client_models(clients@);
    let mut i: usize = 0;
    assert(r@ =~= client_ids(models.take(0)));
    while i < clients.len()
        invariant
            i <= clients.len(),
            models == client_models(clients@),
            r@ == client_ids(models.take(i as int)),
        decreases clients.len() - i,
    {
        let id = parse_address(clients[i].address.as_str());
        let ghost before = r@;
        if let Some(id) = id {
            r.insert(id);
        }
        proof {
            let upto = models.take(i + 1);
            assert(upto[i as int] == models[i as int]);
            assert forall|x: u64| r@.contains(x) == client_ids(upto).contains(x) by {
                if before.contains(x) {
                    let k = choose|k: int| 0 <= k < i && address_of(
                        #[trigger] models.take(i as int)[k].address,
                    ) == Some(x);
                    assert(address_of(upto[k].address) == Some(x));
                }
                if id == Some(x) {
                    assert(address_of(upto[i as int].address) == Some(x));
                }
                if client_ids(upto).contains(x) {
                    let k = choose|k: int| 0 <= k < upto.len() && address_of(
                        #[trigger] upto[k].address,
                    ) == Some(x);
                    if k < i {
                        assert(models.take(i as int)[k] == upto[k]);
                        assert(address_of(models.take(i as int)[k].address) == Some(x));
                    }
                }
            }
            assert(r@ =~= client_ids(upto));
        }
        i += 1;
    }
    assert(models.take(i as int) =~= models);
    r
}

/// Begins a watch over the focus, in a Hyprland session in which a window has
/// it. The windows that there are count as none where the compositor did not
/// report its clients.
pub fn spawn_focus_restore_guard(
    session: bool,
    active: Option<u64>,
    clients: Option<&[HyprClient]>,
) -> (r: Option<FocusGuard>)
    ensures
        r is Some <==> session && active is Some,
        r matches Some(g) ==> g@ == (FocusModel {
            previous: active->0,
            preexisting: match clients {
                Some(list) => client_ids(client_models(list@)),
                None => Set::empty(),
            },
            phase: FocusPhase::Watching,
        }),
{
    if !session {
        return None;
    }
    match active {
        Some(previous) => {
            let preexisting = match clients {
                Some(list) => known_clients(list),
                None => {
                    let none: HashSet<u64> = HashSet::new();
                    none
                },
            };
            Some(FocusGuard { previous, preexisting, phase: FocusPhase::Watching })
        },
        None => None,
    }
}

/// What a watch over the focus is told.
#[derive(Debug, Clone, Copy, PartialEq, Eq)]
pub enum FocusEvent {
    /// The time since the launch.
    Time { elapsed_ms: u64 },
    /// The window that has the focus, if one has, and the time since the
    /// launch.
    Reading { active: Option<u64>, elapsed_ms: u64 },
}

/// What a watch over the focus does next.
#[derive(Debug, Clone, Copy, PartialEq, Eq)]
pub enum FocusStep {
    /// Tell the time.
    TellTime,
    /// Wait some milliseconds and tell which window has the focus.
    WaitAndLook { ms: u64 },
    /// Focus a window, and end.
    Restore { window: u64 },
    /// End.
    End,
}

impl FocusModel {
    /// Whether the focus is put back, some time after the launch, when a
    /// window has it. Early on, from whatever other window; later only from
    /// one that is new, since the user may have switched to an old one.
    pub open spec fn restores(self, elapsed_ms: u64, active: Option<u64>) -> bool {
        active matches Some(current) && current != self.previous && (elapsed_ms < EARLY_RESTORE_MS
            || !self.preexisting.contains(current))
    }

    /// The watch in another phase.
    pub open spec fn in_phase(self, phase: FocusPhase) -> FocusModel {
        FocusModel { phase, ..self }
    }

    /// The watch after an event, and what it does next. It ends when the time
    /// is up and when it puts the focus back.
    pub open spec fn advanced(self, event: FocusEvent) -> (FocusModel, FocusStep) {
        match (self.phase, event) {
            (FocusPhase::Watching, FocusEvent::Time { elapsed_ms }) => if elapsed_ms
                < FOCUS_WATCH_MS {
                (self.in_phase(FocusPhase::Looking), FocusStep::WaitAndLook { ms: 100 })
            } else {
                (self.in_phase(FocusPhase::Ended), FocusStep::End)
            },
            (FocusPhase::Looking, FocusEvent::Reading { active, elapsed_ms }) => if self.restores(
                elapsed_ms,
                active,
            ) {
                (self.in_phase(FocusPhase::Ended), FocusStep::Restore { window: self.previous })
            } else {
                (self.in_phase(FocusPhase::Watching), FocusStep::TellTime)
            },
            _ => (self.in_phase(FocusPhase::Ended), FocusStep::End),
        }
    }
}

impl FocusGuard {
    /// Takes an event and says what is to be done.
    pub fn advance(&mut self, event: FocusEvent) -> (step: FocusStep)
        ensures
            (final(self)@, step) == old(self)@.advanced(event),
    {
        match (self.phase, event) {
            (FocusPhase::Watching, FocusEvent::Time { elapsed_ms }) => {
                if elapsed_ms < FOCUS_WATCH_MS {
                    self.phase = FocusPhase::Looking;
                    FocusStep::WaitAndLook { ms: 100 }
                } else {
                    self.phase = FocusPhase::Ended;
                    FocusStep::End
                }
            },
            (FocusPhase::Looking, FocusEvent::Reading { active, elapsed_ms }) => {
                let taken = match active {
                    Some(current) => current != self.previous && (elapsed_ms < EARLY_RESTORE_MS
                        || !self.preexisting.contains(&current)),
                    None => false,
                };
                if taken {
                    self.phase = FocusPhase::Ended;
                    FocusStep::Restore { window: self.previous }
                } else {
                    self.phase = FocusPhase::Watching;
                    FocusStep::TellTime
                }
            },
            _ => {
                self.phase = FocusPhase::Ended;
                FocusStep::End
            },
        }
    }
}

} // verus!
