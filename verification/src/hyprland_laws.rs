//! What holds of window lists, captures, launches and guards as a whole.
use crate::guard::{
    client_ids, launch_step, launched, on_special, reaper_step, start_field, start_time,
    still_runs, sweep, sweeper_step, swept, window_ids, FocusEvent, FocusModel, FocusPhase,
    FocusStep, LaunchStep, ReaperStep, SweeperStep, EARLY_RESTORE_MS, FOCUS_WATCH_MS,
};
use crate::hyprland::{
    active_on, address_of, client_index, client_models, crop_of, displayable, focused_index,
    geometry_text, monitor_index, needs_monitors, shown_workspaces, unprefixed, visible_ids, window_models,
    window_monitor, window_of, windows_of, ClientModel, CropError, ExportSlot, HyprClient, HyprMonitor,
    HyprWorkspaceRef, QueryError, WindowInfo, WindowModel,
};
use crate::text::{
    after_space, ascii_space, blank, decimal, digit_value, digits_value, field, hexadecimal,
    lemma_numeral_reads_back, number, signed_decimal, word_len,
};
use vstd::prelude::*;

verus! {

// Addresses and windows

/// A number in hexadecimal has no `0x` at its start, and is left as it is.
proof fn lemma_hexadecimal_is_unprefixed(n: nat)
    ensures
        unprefixed(hexadecimal(n)) == hexadecimal(n),
        unprefixed("0x"@ + hexadecimal(n)) == hexadecimal(n),
{
    let digits = hexadecimal(n);
    let s = "0x"@ + digits;
    lemma_numeral_reads_back(n, 16);
    reveal_strlit("0x");
    assert(s.skip(2) =~= digits);
    assert(s[0] == '0' && s[1] == 'x');
    if digits.len() >= 2 {
        assert(digit_value(digits[1], 16) is Some);
        assert(digits[1] != 'x');
    }
    assert(unprefixed(digits) == digits);
    assert(unprefixed(s) == unprefixed(s.skip(2)));
}

/// The address of a window is its id in hexadecimal, with or without `0x`, and
/// is read back as that id, however large. A number that no id can be is not
/// read as one.
pub proof fn law_addresses_are_read_back(n: nat)
    ensures
        n <= u64::MAX ==> address_of("0x"@ + hexadecimal(n)) == Some(n as u64),
        n <= u64::MAX ==> address_of(hexadecimal(n)) == Some(n as u64),
        n > u64::MAX ==> address_of("0x"@ + hexadecimal(n)) is None,
        n > u64::MAX ==> address_of(hexadecimal(n)) is None,
{
    lemma_numeral_reads_back(n, 16);
    lemma_hexadecimal_is_unprefixed(n);
}

/// A text with a character that is no digit denotes no number.
proof fn lemma_no_digit_no_number(s: Seq<char>, i: int)
    requires
        0 <= i < s.len(),
        digit_value(s[i], 16) is None,
    ensures
        digits_value(s, 16) is None,
    decreases s.len(),
{
    if i < s.len() - 1 {
        assert(s.drop_last()[i] == s[i]);
        lemma_no_digit_no_number(s.drop_last(), i);
    }
}

/// What stands in a text and is neither `0` nor `x` stays in it without the
/// `0x` at its start.
proof fn lemma_unprefixed_keeps(s: Seq<char>, c: char)
    requires
        s.contains(c),
        c != '0',
        c != 'x',
    ensures
        unprefixed(s).contains(c),
    decreases s.len(),
{
    if s.len() >= 2 && s[0] == '0' && s[1] == 'x' {
        let i = choose|i: int| 0 <= i < s.len() && s[i] == c;
        assert(s.skip(2)[i - 2] == c);
        lemma_unprefixed_keeps(s.skip(2), c);
    }
}

/// Nothing is read of an address without digits, or with a character that is
/// no hexadecimal digit behind the `0x` at its start and a sign.
pub proof fn law_only_hexadecimal_is_read(s: Seq<char>, c: char)
    ensures
        address_of(""@) is None,
        address_of("0x"@) is None,
        s.contains(c) && digit_value(c, 16) is None && c != 'x' && c != '+' ==> address_of(s) is None,
        forall|i: int|
            0 <= i < unprefixed(s).len() && digit_value(#[trigger] unprefixed(s)[i], 16) is None && (i > 0
                || unprefixed(s)[i] != '+') ==> address_of(s) is None,
{
    reveal_strlit("");
    reveal_strlit("0x");
    assert("0x"@[0] == '0' && "0x"@[1] == 'x');
    assert("0x"@.skip(2) =~= ""@);
    let t = unprefixed(s);
    assert forall|i: int|
        0 <= i < t.len() && digit_value(#[trigger] t[i], 16) is None && (i > 0 || t[i] != '+') implies address_of(
        s,
    ) is None by {
        if t[0] == '+' {
            assert(t.skip(1)[i - 1] == t[i]);
            lemma_no_digit_no_number(t.skip(1), i - 1);
        } else {
            lemma_no_digit_no_number(t, i);
        }
    }
    if s.contains(c) && digit_value(c, 16) is None && c != 'x' && c != '+' {
        lemma_unprefixed_keeps(s, c);
        let i = choose|i: int| 0 <= i < t.len() && t[i] == c;
        assert(digit_value(t[i], 16) is None);
    }
}

/// A list of windows for one process is what the full list holds of it.
pub proof fn law_the_filter_selects_a_process(clients: Seq<ClientModel>, pid: u32)
    ensures
        windows_of(clients, Some(pid)) == windows_of(clients, None).filter(
            |w: WindowModel| w.pid == Some(pid),
        ),
    decreases clients.len(),
{
    reveal(Seq::filter);
    let keep = |w: WindowModel| w.pid == Some(pid);
    if clients.len() > 0 {
        let before = clients.drop_last();
        law_the_filter_selects_a_process(before, pid);
        let all = windows_of(before, None);
        if let Some(w) = window_of(clients.last(), None) {
            assert(all.push(w).drop_last() =~= all);
            assert(all.push(w).last() == w);
        }
    }
}

/// Every listed window stands for a client: a mapped one that is not hidden,
/// more than a pixel wide and high, and has something to be called by.
pub proof fn law_listed_windows_are_real(clients: Seq<ClientModel>, filter_pid: Option<u32>, i: int)
    requires
        0 <= i < windows_of(clients, filter_pid).len(),
    ensures
        exists|k: int|
            0 <= k < clients.len() && displayable(#[trigger] clients[k]) && window_of(
                clients[k],
                filter_pid,
            ) == Some(windows_of(clients, filter_pid)[i]),
        !blank(windows_of(clients, filter_pid)[i].title),
        windows_of(clients, filter_pid)[i].width > 1,
        windows_of(clients, filter_pid)[i].height > 1,
    decreases clients.len(),
{
    let before = clients.drop_last();
    if i < windows_of(before, filter_pid).len() {
        law_listed_windows_are_real(before, filter_pid, i);
        let k = choose|k: int|
            0 <= k < before.len() && displayable(#[trigger] before[k]) && window_of(
                before[k],
                filter_pid,
            ) == Some(windows_of(before, filter_pid)[i]);
        assert(clients[k] == before[k]);
    } else {
        assert(clients[clients.len() - 1] == clients.last());
        assert(displayable(clients[clients.len() - 1]));
    }
}

/// A workspace counts as visible just where some monitor shows it, as its
/// active workspace or as a special one laid over it.
pub proof fn law_visible_workspaces_are_shown(monitors: Seq<HyprMonitor>, id: i64)
    ensures
        visible_ids(monitors).contains(id) <==> exists|k: int|
            0 <= k < monitors.len() && (#[trigger] monitors[k].active_workspace == Some(
                HyprWorkspaceRef { id },
            ) || (monitors[k].special_workspace == Some(HyprWorkspaceRef { id }) && id != 0)),
    decreases monitors.len(),
{
    if monitors.len() > 0 {
        let before = monitors.drop_last();
        let last = monitors.last();
        law_visible_workspaces_are_shown(before, id);
        let here = shown_workspaces(last);
        let all = visible_ids(monitors);
        let shown = |m: HyprMonitor|
            m.active_workspace == Some(HyprWorkspaceRef { id }) || (m.special_workspace == Some(
                HyprWorkspaceRef { id },
            ) && id != 0);
        assert(here.contains(id) <==> shown(last)) by {
            if here.contains(id) {
                let i = choose|i: int| 0 <= i < here.len() && here[i] == id;
            }
            if last.active_workspace == Some(HyprWorkspaceRef { id }) {
                assert(here[0] == id);
            }
            if last.special_workspace == Some(HyprWorkspaceRef { id }) && id != 0 {
                assert(here[here.len() - 1] == id);
            }
        }
        assert(all.contains(id) <==> visible_ids(before).contains(id) || here.contains(id)) by {
            let b = visible_ids(before);
            if all.contains(id) {
                let i = choose|i: int| 0 <= i < all.len() && all[i] == id;
                if i < b.len() {
                    assert(b[i] == id);
                } else {
                    assert(here[i - b.len()] == id);
                }
            }
            if b.contains(id) {
                let i = choose|i: int| 0 <= i < b.len() && b[i] == id;
                assert(all[i] == id);
            }
            if here.contains(id) {
                let i = choose|i: int| 0 <= i < here.len() && here[i] == id;
                assert(all[b.len() + i] == id);
            }
        }
        assert(forall|k: int| 0 <= k < before.len() ==> #[trigger] before[k] == monitors[k]);
        if shown(last) {
            assert(monitors[monitors.len() - 1] == last);
        }
        if exists|k: int|
            0 <= k < before.len() && (#[trigger] before[k].active_workspace == Some(
                HyprWorkspaceRef { id },
            ) || (before[k].special_workspace == Some(HyprWorkspaceRef { id }) && id != 0)) {
            let k = choose|k: int|
                0 <= k < before.len() && (#[trigger] before[k].active_workspace == Some(
                    HyprWorkspaceRef { id },
                ) || (before[k].special_workspace == Some(HyprWorkspaceRef { id }) && id != 0));
            assert(monitors[k].active_workspace == before[k].active_workspace);
        }
        if exists|k: int|
            0 <= k < monitors.len() && (#[trigger] monitors[k].active_workspace == Some(
                HyprWorkspaceRef { id },
            ) || (monitors[k].special_workspace == Some(HyprWorkspaceRef { id }) && id != 0)) {
            let k = choose|k: int|
                0 <= k < monitors.len() && (#[trigger] monitors[k].active_workspace == Some(
                    HyprWorkspaceRef { id },
                ) || (monitors[k].special_workspace == Some(HyprWorkspaceRef { id }) && id != 0));
            if k < before.len() {
                assert(before[k].active_workspace == monitors[k].active_workspace);
            }
        }
    }
}

// Captures

/// A window is never cropped from a screen that is known to show another
/// workspace than the window's.
pub proof fn law_crops_show_the_windows_workspace(
    clients: Seq<ClientModel>,
    monitors: Option<Seq<HyprMonitor>>,
    window_id: u64,
)
    requires
        crop_of(clients, monitors, window_id) is Ok,
    ensures
        client_index(clients, window_id) matches Some(i) && 0 <= i < clients.len() && address_of(
            clients[i].address,
        ) == Some(window_id) && (clients[i].workspace is Some && clients[i].monitor is Some ==> (
        active_on(monitors, clients[i].monitor->0) matches Some(shown) ==> shown
            == clients[i].workspace->0.id)),
{
    let ids = clients.map_values(|c: ClientModel| address_of(c.address));
    ids.index_of_first_ensures(Some(window_id));
}

/// What can happen to the exports of windows.
pub enum ExportEvent {
    /// A capture asks to begin an export.
    Begin,
    /// An export that was begun comes to its end.
    Finish,
}

/// The slot and the number of exports under way after an event. An export can
/// only end if one is under way.
pub open spec fn exports_after(slot: ExportSlot, running: nat, e: ExportEvent) -> (ExportSlot, nat) {
    match e {
        ExportEvent::Begin => (
            slot.begun(),
            if slot.grants() {
                running + 1
            } else {
                running
            },
        ),
        ExportEvent::Finish => if running > 0 {
            (slot.finished(), (running - 1) as nat)
        } else {
            (slot, running)
        },
    }
}

/// The slot and the number of exports under way after a series of events.
pub open spec fn exports_run(events: Seq<ExportEvent>) -> (ExportSlot, nat)
    decreases events.len(),
{
    if events.len() == 0 {
        (ExportSlot { in_flight: false }, 0)
    } else {
        let (slot, running) = exports_run(events.drop_last());
        exports_after(slot, running, events.last())
    }
}

/// However captures and their ends follow one another, at most one export is
/// under way, and the slot tells whether one is.
pub proof fn law_one_export_at_a_time(events: Seq<ExportEvent>)
    ensures
        exports_run(events).1 <= 1,
        exports_run(events).0.in_flight <==> exports_run(events).1 == 1,
    decreases events.len(),
{
    if events.len() > 0 {
        law_one_export_at_a_time(events.drop_last());
    }
}

// Processes

/// What a process is called does not matter to its start time, even where the
/// name holds brackets and spaces.
pub proof fn law_process_names_do_not_matter(head: Seq<char>, fields: Seq<char>)
    requires
        !fields.contains(')'),
    ensures
        start_time(head + seq![')'] + fields) == start_field(fields),
{
    let stat = head + seq![')'] + fields;
    stat.index_of_last_ensures(')');
    assert(stat[head.len() as int] == ')');
    assert(stat.contains(')'));
    let i = stat.index_of_last(')')->0;
    if i > head.len() {
        assert(fields[i - head.len() - 1] == ')');
    }
    assert(i == head.len());
    assert(stat.skip(i + 1) =~= fields);
}

/// Fields with a space before each.
pub open spec fn spaced(fields: Seq<Seq<char>>) -> Seq<char>
    decreases fields.len(),
{
    if fields.len() == 0 {
        Seq::empty()
    } else {
        seq![' '] + fields[0] + spaced(fields.skip(1))
    }
}

/// Whether a text can be a field: it is not empty and holds no white space.
pub open spec fn is_field(f: Seq<char>) -> bool {
    f.len() > 0 && forall|i: int| 0 <= i < f.len() ==> !ascii_space(#[trigger] f[i])
}

/// A word ends where white space follows it.
proof fn lemma_word_len(word: Seq<char>, rest: Seq<char>)
    requires
        forall|i: int| 0 <= i < word.len() ==> !ascii_space(#[trigger] word[i]),
        rest.len() > 0 ==> ascii_space(rest[0]),
    ensures
        word_len(word + rest) == word.len(),
    decreases word.len(),
{
    let s = word + rest;
    if word.len() == 0 {
        assert(s =~= rest);
    } else {
        assert(s[0] == word[0]);
        assert(s.skip(1) =~= word.skip(1) + rest);
        assert forall|i: int| 0 <= i < word.skip(1).len() implies !ascii_space(
            #[trigger] word.skip(1)[i],
        ) by {
            assert(word.skip(1)[i] == word[i + 1]);
        }
        lemma_word_len(word.skip(1), rest);
    }
}

/// A field is found by its number.
proof fn lemma_spaced_field(fields: Seq<Seq<char>>, n: nat)
    requires
        n < fields.len(),
        forall|i: int| 0 <= i < fields.len() ==> is_field(#[trigger] fields[i]),
    ensures
        field(spaced(fields), n) == Some(fields[n as int]),
    decreases n,
{
    let s = spaced(fields);
    let first = fields[0];
    let others = fields.skip(1);
    let rest = spaced(others);
    assert(is_field(first));
    assert(s.skip(1) =~= first + rest);
    assert((first + rest)[0] == first[0]);
    assert(after_space(first + rest) == first + rest);
    assert(after_space(s) == first + rest);
    if rest.len() > 0 {
        assert(rest[0] == ' ');
    }
    lemma_word_len(first, rest);
    assert((first + rest).take(first.len() as int) =~= first);
    assert((first + rest).skip(first.len() as int) =~= rest);
    if n > 0 {
        assert forall|i: int| 0 <= i < others.len() implies is_field(#[trigger] others[i]) by {
            assert(others[i] == fields[i + 1]);
        }
        lemma_spaced_field(others, (n - 1) as nat);
    }
}

/// The start time of a process is read from the twentieth field behind its
/// name, the twenty-second of the line.
pub proof fn law_start_times_are_read_back(head: Seq<char>, fields: Seq<Seq<char>>, time: u64)
    requires
        fields.len() >= 20,
        forall|i: int| 0 <= i < fields.len() ==> is_field(#[trigger] fields[i]),
        fields[19] == decimal(time as nat),
        !spaced(fields).contains(')'),
    ensures
        start_time(head + seq![')'] + spaced(fields)) == Some(time),
{
    law_process_names_do_not_matter(head, spaced(fields));
    lemma_spaced_field(fields, 19);
    lemma_numeral_reads_back(time as nat, 10);
}

// Launches

/// A launch reports a window that was not there before, and one on a special
/// workspace if there is such a one. It reports none just where every window
/// was there before.
pub proof fn law_launches_report_a_new_window(known: Set<u64>, windows: Seq<WindowModel>)
    ensures
        launched(known, windows) matches Some(w) ==> windows.contains(w) && !known.contains(w.xid),
        launched(known, windows) is None <==> window_ids(windows).subset_of(known),
        launched(known, windows) matches Some(w) ==> (on_special(w) || forall|v: WindowModel|
            windows.contains(v) && !known.contains(v.xid) ==> !#[trigger] on_special(v)),
{
    let fresh = windows.map_values(|w: WindowModel| !known.contains(w.xid));
    let special = windows.map_values(|w: WindowModel| !known.contains(w.xid) && on_special(w));
    let ids = windows.map_values(|w: WindowModel| w.xid);
    fresh.index_of_first_ensures(true);
    special.index_of_first_ensures(true);
    if special.contains(true) {
        let i = special.index_of_first(true)->0;
        assert(special[i]);
        assert(windows.contains(windows[i]));
        assert(ids[i] == windows[i].xid);
        assert(window_ids(windows).contains(windows[i].xid));
    } else {
        assert forall|v: WindowModel| windows.contains(v) && !known.contains(v.xid) implies !#[trigger] on_special(
            v,
        ) by {
            let k = choose|k: int| 0 <= k < windows.len() && windows[k] == v;
            assert(!special[k]);
        }
        if fresh.contains(true) {
            let i = fresh.index_of_first(true)->0;
            assert(fresh[i]);
            assert(windows.contains(windows[i]));
            assert(ids[i] == windows[i].xid);
            assert(window_ids(windows).contains(windows[i].xid));
        } else {
            assert forall|x: u64| window_ids(windows).contains(x) implies known.contains(x) by {
                let k = choose|k: int| 0 <= k < ids.len() && ids[k] == x;
                assert(!fresh[k]);
            }
        }
    }
}

/// Only windows of the process, and only those on ordinary workspaces, are
/// swept.
pub proof fn law_sweeps_touch_only_the_process(clients: Seq<ClientModel>, pid: u32, i: int)
    requires
        0 <= i < sweep(clients, pid).len(),
    ensures
        exists|k: int|
            0 <= k < clients.len() && swept(#[trigger] clients[k], pid) == Some(sweep(clients, pid)[i]),
    decreases clients.len(),
{
    let before = clients.drop_last();
    if i < sweep(before, pid).len() {
        law_sweeps_touch_only_the_process(before, pid, i);
        let k = choose|k: int|
            0 <= k < before.len() && swept(#[trigger] before[k], pid) == Some(sweep(before, pid)[i]);
        assert(clients[k] == before[k]);
    } else {
        assert(clients[clients.len() - 1] == clients.last());
    }
}

/// The clients once the windows with some ids are on a workspace.
pub open spec fn moved(clients: Seq<ClientModel>, ids: Seq<u64>, workspace: i64) -> Seq<ClientModel> {
    clients.map_values(
        |c: ClientModel|
            if address_of(c.address) matches Some(id) && ids.contains(id) {
                ClientModel { workspace: Some(HyprWorkspaceRef { id: workspace }), ..c }
            } else {
                c
            },
    )
}

/// A client's window is in the sweep if it is to be swept.
proof fn lemma_swept_is_in_the_sweep(clients: Seq<ClientModel>, pid: u32, k: int)
    requires
        0 <= k < clients.len(),
        swept(clients[k], pid) is Some,
    ensures
        sweep(clients, pid).contains(swept(clients[k], pid)->0),
    decreases clients.len(),
{
    let before = clients.drop_last();
    let all = sweep(clients, pid);
    if k == clients.len() - 1 {
        assert(all[all.len() - 1] == swept(clients[k], pid)->0);
    } else {
        lemma_swept_is_in_the_sweep(before, pid, k);
        let b = sweep(before, pid);
        let i = choose|i: int| 0 <= i < b.len() && b[i] == swept(before[k], pid)->0;
        assert(all[i] == b[i]);
    }
}

/// Nothing is swept of clients of which none is to be swept.
proof fn lemma_empty_sweep(clients: Seq<ClientModel>, pid: u32)
    requires
        forall|k: int| 0 <= k < clients.len() ==> swept(#[trigger] clients[k], pid) is None,
    ensures
        sweep(clients, pid) == Seq::<u64>::empty(),
    decreases clients.len(),
{
    if clients.len() > 0 {
        let before = clients.drop_last();
        assert forall|k: int| 0 <= k < before.len() implies swept(#[trigger] before[k], pid) is None by {
            assert(before[k] == clients[k]);
        }
        lemma_empty_sweep(before, pid);
        assert(swept(clients[clients.len() - 1], pid) is None);
    }
}

/// One sweep is enough: once its windows are on a special workspace, a second
/// sweep finds nothing left on the user's workspaces.
pub proof fn law_one_sweep_is_enough(clients: Seq<ClientModel>, pid: u32, hidden: i64)
    requires
        hidden < 0,
    ensures
        sweep(moved(clients, sweep(clients, pid), hidden), pid) == Seq::<u64>::empty(),
{
    let ids = sweep(clients, pid);
    let after = moved(clients, ids, hidden);
    assert forall|k: int| 0 <= k < after.len() implies swept(#[trigger] after[k], pid) is None by {
        let c = clients[k];
        if swept(c, pid) is Some {
            lemma_swept_is_in_the_sweep(clients, pid, k);
        }
    }
    lemma_empty_sweep(after, pid);
}

// The focus

/// Late in the watch, a switch to a window that was there before the launch is
/// the user's and is left alone; a window that the launch opened never keeps
/// the focus while it is watched; and nothing is done while the focus is where
/// it was.
pub proof fn law_the_focus_returns_only_from_launches(
    g: FocusModel,
    elapsed_ms: u64,
    current: u64,
)
    ensures
        elapsed_ms >= EARLY_RESTORE_MS && g.preexisting.contains(current) ==> !g.restores(
            elapsed_ms,
            Some(current),
        ),
        current != g.previous && !g.preexisting.contains(current) ==> g.restores(
            elapsed_ms,
            Some(current),
        ),
        elapsed_ms < EARLY_RESTORE_MS && current != g.previous ==> g.restores(
            elapsed_ms,
            Some(current),
        ),
        !g.restores(elapsed_ms, Some(g.previous)),
        !g.restores(elapsed_ms, None),
{
}

/// A watch over the focus after a series of events.
pub open spec fn focus_after(g: FocusModel, events: Seq<FocusEvent>) -> FocusModel
    decreases events.len(),
{
    if events.len() == 0 {
        g
    } else {
        let (next, _) = focus_after(g, events.drop_last()).advanced(events.last());
        next
    }
}

/// What a watch over the focus does on an event of a series.
pub open spec fn focus_step(g: FocusModel, events: Seq<FocusEvent>, i: int) -> FocusStep {
    let (_, step) = focus_after(g, events.take(i)).advanced(events[i]);
    step
}

/// A watch keeps to its windows. It looks only right after it was told that
/// the time was not up.
proof fn lemma_focus_phase(g: FocusModel, events: Seq<FocusEvent>)
    requires
        g.phase == FocusPhase::Watching,
    ensures
        focus_after(g, events).previous == g.previous,
        focus_after(g, events).preexisting == g.preexisting,
        focus_after(g, events).phase == FocusPhase::Looking ==> events.len() > 0 && (events.last() matches FocusEvent::Time {
            elapsed_ms,
        } && elapsed_ms < FOCUS_WATCH_MS),
    decreases events.len(),
{
    if events.len() > 0 {
        lemma_focus_phase(g, events.drop_last());
    }
}

/// A watch that has ended stays ended.
proof fn lemma_focus_ended(g: FocusModel, events: Seq<FocusEvent>, i: int, j: int)
    requires
        0 <= i <= j <= events.len(),
        focus_after(g, events.take(i)).phase == FocusPhase::Ended,
    ensures
        focus_after(g, events.take(j)).phase == FocusPhase::Ended,
    decreases j - i,
{
    if i < j {
        lemma_focus_ended(g, events, i, j - 1);
        assert(events.take(j).drop_last() =~= events.take(j - 1));
    }
}

/// The focus is put back at most once, and the watch is over with it: from
/// then on it does nothing but end.
pub proof fn law_the_focus_is_put_back_at_most_once(
    g: FocusModel,
    events: Seq<FocusEvent>,
    i: int,
    j: int,
)
    requires
        g.phase == FocusPhase::Watching,
        0 <= i < j < events.len(),
        focus_step(g, events, i) is Restore || focus_step(g, events, i) is End,
    ensures
        focus_step(g, events, j) == FocusStep::End,
{
    assert(events.take(i + 1).drop_last() =~= events.take(i));
    assert(events.take(i + 1).last() == events[i]);
    lemma_focus_ended(g, events, i + 1, j);
}

/// The focus is put back only to the window that had it, only on a reading
/// that the launch took it, and only where the time was not up when the
/// reading was asked for.
pub proof fn law_the_focus_is_put_back_only_while_watched(
    g: FocusModel,
    events: Seq<FocusEvent>,
    i: int,
)
    requires
        g.phase == FocusPhase::Watching,
        0 <= i < events.len(),
        focus_step(g, events, i) is Restore,
    ensures
        focus_step(g, events, i) == (FocusStep::Restore { window: g.previous }),
        (events[i] matches FocusEvent::Reading { active, elapsed_ms } && g.restores(
            elapsed_ms,
            active,
        )),
        i > 0,
        (events[i - 1] matches FocusEvent::Time { elapsed_ms } && elapsed_ms < FOCUS_WATCH_MS),
{
    lemma_focus_phase(g, events.take(i));
    assert(events.take(i).len() > 0);
    assert(events.take(i).last() == events[i - 1]);
}

// Lists in full

/// A `0x` in front of an address changes nothing, however often it stands
/// there, and neither does a plus sign behind it.
pub proof fn law_prefixes_change_nothing(s: Seq<char>)
    ensures
        address_of("0x"@ + s) == address_of(s),
        !(unprefixed(s).len() >= 2 && unprefixed(s)[0] == '0' && unprefixed(s)[1] == 'x'),
        !(s.len() >= 2 && s[0] == '0' && s[1] == 'x') ==> unprefixed(s) == s,
    decreases s.len(),
{
    reveal_strlit("0x");
    let t = "0x"@ + s;
    assert(t[0] == '0' && t[1] == 'x');
    assert(t.skip(2) =~= s);
    if s.len() >= 2 && s[0] == '0' && s[1] == 'x' {
        law_prefixes_change_nothing(s.skip(2));
    }
}

/// The entry of a client is in the list.
proof fn lemma_listed(clients: Seq<ClientModel>, filter_pid: Option<u32>, k: int)
    requires
        0 <= k < clients.len(),
        window_of(clients[k], filter_pid) is Some,
    ensures
        windows_of(clients, filter_pid).contains(window_of(clients[k], filter_pid)->0),
    decreases clients.len(),
{
    let before = clients.drop_last();
    let all = windows_of(clients, filter_pid);
    if k == clients.len() - 1 {
        assert(all[all.len() - 1] == window_of(clients[k], filter_pid)->0);
    } else {
        lemma_listed(before, filter_pid, k);
        let b = windows_of(before, filter_pid);
        let i = choose|i: int| 0 <= i < b.len() && b[i] == window_of(before[k], filter_pid)->0;
        assert(all[i] == b[i]);
    }
}

/// Whether a window is the entry of a client: it has the client's id, process,
/// title or class, place, size and workspace.
pub open spec fn entry_of(w: WindowInfo, c: HyprClient) -> bool {
    &&& address_of(c.address@) == Some(w.xid)
    &&& w.pid == (if 0 <= c.pid <= u32::MAX {
        Some(c.pid as u32)
    } else {
        None
    })
    &&& w.title@ == (if blank(c.title@) {
        c.class@
    } else {
        c.title@
    })
    &&& w.x == c.at@[0] && w.y == c.at@[1]
    &&& w.width == c.size@[0] && w.height == c.size@[1]
    &&& c.workspace is Some <==> w.workspace_id is Some
    &&& c.workspace is Some ==> w.workspace_id->0 == c.workspace->0.id
}

/// The list is complete: every client that is mapped, not hidden, more than a
/// pixel wide and high, has a readable address and something to be called by,
/// and belongs to the process that is asked for, if one is, has its entry in
/// the list, whatever workspace it is on.
pub proof fn law_every_window_is_listed(
    clients: Seq<HyprClient>,
    filter_pid: Option<u32>,
    listed: Seq<WindowInfo>,
    k: int,
)
    requires
        window_models(listed) == windows_of(client_models(clients), filter_pid),
        0 <= k < clients.len(),
        clients[k].mapped,
        !clients[k].hidden,
        clients[k].size@[0] > 1,
        clients[k].size@[1] > 1,
        address_of(clients[k].address@) is Some,
        !blank(clients[k].title@) || !blank(clients[k].class@),
        filter_pid matches Some(pid) ==> clients[k].pid == pid,
    ensures
        exists|i: int| 0 <= i < listed.len() && entry_of(#[trigger] listed[i], clients[k]),
{
    let models = client_models(clients);
    assert(models[k] == clients[k]@);
    let w = window_of(models[k], filter_pid);
    assert(w is Some);
    lemma_listed(models, filter_pid, k);
    let all = windows_of(models, filter_pid);
    let i = choose|i: int| 0 <= i < all.len() && all[i] == w->0;
    assert(window_models(listed)[i] == listed[i]@);
    assert(entry_of(listed[i], clients[k]));
}

/// The list holds nothing else: every window in it is the entry of a client
/// that is mapped, not hidden, more than a pixel wide and high, has something
/// to be called by, and belongs to the process that is asked for, if one is.
pub proof fn law_every_listed_window_is_a_client(
    clients: Seq<HyprClient>,
    filter_pid: Option<u32>,
    listed: Seq<WindowInfo>,
    i: int,
)
    requires
        window_models(listed) == windows_of(client_models(clients), filter_pid),
        0 <= i < listed.len(),
    ensures
        exists|k: int|
            0 <= k < clients.len() && entry_of(listed[i], #[trigger] clients[k]) && clients[k].mapped
                && !clients[k].hidden && clients[k].size@[0] > 1 && clients[k].size@[1] > 1 && (
            !blank(clients[k].title@) || !blank(clients[k].class@)) && (filter_pid is Some ==> clients[k].pid
                == filter_pid->0),
{
    let models = client_models(clients);
    assert(windows_of(models, filter_pid).len() == listed.len());
    assert(window_models(listed)[i] == listed[i]@);
    law_listed_windows_are_real(models, filter_pid, i);
    let k = choose|k: int|
        0 <= k < models.len() && displayable(#[trigger] models[k]) && window_of(models[k], filter_pid)
            == Some(windows_of(models, filter_pid)[i]);
    assert(models[k] == clients[k]@);
    assert(entry_of(listed[i], clients[k]));
}

/// The windows of two lists of clients, one behind the other, are those of the
/// one and then those of the other: the clients' order is kept, and no client
/// counts twice.
pub proof fn law_windows_keep_the_clients_order(
    a: Seq<ClientModel>,
    b: Seq<ClientModel>,
    filter_pid: Option<u32>,
)
    ensures
        windows_of(a + b, filter_pid) == windows_of(a, filter_pid) + windows_of(b, filter_pid),
        a.len() == 1 ==> windows_of(a, filter_pid).len() <= 1,
    decreases b.len(),
{
    if b.len() == 0 {
        assert(a + b =~= a);
    } else {
        assert((a + b).drop_last() =~= a + b.drop_last());
        law_windows_keep_the_clients_order(a, b.drop_last(), filter_pid);
    }
    assert(windows_of(a + b, filter_pid) =~= windows_of(a, filter_pid) + windows_of(b, filter_pid));
    if a.len() == 1 {
        assert(a.drop_last() =~= Seq::<ClientModel>::empty());
        assert(windows_of(a.drop_last(), filter_pid).len() == 0);
    }
}

/// The workspaces that two lists of monitors show, one behind the other, are
/// those of the one and then those of the other.
pub proof fn law_workspaces_go_monitor_by_monitor(a: Seq<HyprMonitor>, b: Seq<HyprMonitor>)
    ensures
        visible_ids(a + b) == visible_ids(a) + visible_ids(b),
        a.len() == 1 ==> visible_ids(a).len() == (if a[0].active_workspace is Some {
            1int
        } else {
            0
        }) + (if a[0].special_workspace is Some && a[0].special_workspace->0.id != 0 {
            1int
        } else {
            0
        }),
    decreases b.len(),
{
    if b.len() == 0 {
        assert(a + b =~= a);
    } else {
        assert((a + b).drop_last() =~= a + b.drop_last());
        law_workspaces_go_monitor_by_monitor(a, b.drop_last());
    }
    assert(visible_ids(a + b) =~= visible_ids(a) + visible_ids(b));
    if a.len() == 1 {
        assert(a.drop_last() =~= Seq::<HyprMonitor>::empty());
        assert(visible_ids(a.drop_last()).len() == 0);
    }
}

/// The focused monitor is the first that has the focus; there is none just
/// where no monitor has it.
pub proof fn law_the_focused_monitor_is_the_first(monitors: Seq<HyprMonitor>)
    ensures
        focused_index(monitors) matches Some(i) ==> 0 <= i < monitors.len() && monitors[i].focused
            && forall|j: int| 0 <= j < i ==> !(#[trigger] monitors[j]).focused,
        focused_index(monitors) is None ==> forall|j: int|
            0 <= j < monitors.len() ==> !(#[trigger] monitors[j]).focused,
{
    let focus = monitors.map_values(|m: HyprMonitor| m.focused);
    focus.index_of_first_ensures(true);
    assert forall|j: int| 0 <= j < monitors.len() implies (#[trigger] monitors[j]).focused == focus[j] by {}
    if focused_index(monitors) is None {
        assert forall|j: int| 0 <= j < monitors.len() implies !(#[trigger] monitors[j]).focused by {
            if focus[j] {
                assert(focus.contains(true));
            }
        }
    } else {
        let i = focused_index(monitors)->0;
        assert(focus[i]);
        assert forall|j: int| 0 <= j < i implies !(#[trigger] monitors[j]).focused by {
            assert(!focus[j]);
        }
    }
}

/// A monitor is found by its number, and a client by its window's id: the
/// first that has it, and none just where none has it.
pub proof fn law_monitors_and_clients_are_found(
    monitors: Seq<HyprMonitor>,
    id: i64,
    clients: Seq<HyprClient>,
    window_id: u64,
)
    ensures
        monitor_index(monitors, id) matches Some(i) ==> 0 <= i < monitors.len() && monitors[i].id == id
            && forall|j: int| 0 <= j < i ==> (#[trigger] monitors[j]).id != id,
        monitor_index(monitors, id) is None ==> forall|j: int|
            0 <= j < monitors.len() ==> (#[trigger] monitors[j]).id != id,
        client_index(client_models(clients), window_id) matches Some(i) ==> 0 <= i < clients.len()
            && address_of(clients[i].address@) == Some(window_id) && forall|j: int|
            0 <= j < i ==> address_of((#[trigger] clients[j]).address@) != Some(window_id),
        client_index(client_models(clients), window_id) is None ==> forall|j: int|
            0 <= j < clients.len() ==> address_of((#[trigger] clients[j]).address@) != Some(window_id),
{
    let ids = monitors.map_values(|m: HyprMonitor| m.id);
    ids.index_of_first_ensures(id);
    assert forall|j: int| 0 <= j < monitors.len() implies (#[trigger] monitors[j]).id == ids[j] by {}
    if monitor_index(monitors, id) is None {
        assert forall|j: int| 0 <= j < monitors.len() implies (#[trigger] monitors[j]).id != id by {
            assert(ids[j] == monitors[j].id);
        }
    } else {
        let i = monitor_index(monitors, id)->0;
        assert forall|j: int| 0 <= j < i implies (#[trigger] monitors[j]).id != id by {
            assert(ids[j] == monitors[j].id);
        }
    }
    let models = client_models(clients);
    let addresses = models.map_values(|c: ClientModel| address_of(c.address));
    addresses.index_of_first_ensures(Some(window_id));
    assert forall|j: int| 0 <= j < clients.len() implies addresses[j] == address_of(
        (#[trigger] clients[j]).address@,
    ) by {
        assert(models[j] == clients[j]@);
    }
    if client_index(models, window_id) is None {
        assert forall|j: int| 0 <= j < clients.len() implies address_of((#[trigger] clients[j]).address@)
            != Some(window_id) by {
            assert(addresses[j] == address_of(clients[j].address@));
        }
    } else {
        let i = client_index(models, window_id)->0;
        assert(addresses[i] == address_of(clients[i].address@));
        assert forall|j: int| 0 <= j < i implies address_of((#[trigger] clients[j]).address@) != Some(
            window_id,
        ) by {
            assert(addresses[j] == address_of(clients[j].address@));
        }
    }
}

/// Whether the monitor with a number is known to show another workspace.
pub open spec fn shows_another(monitors: Option<Seq<HyprMonitor>>, id: i64, workspace: i64) -> bool {
    monitors matches Some(list) && exists|k: int|
        0 <= k < list.len() && (#[trigger] list[k]).id == id && (forall|j: int|
            0 <= j < k ==> (#[trigger] list[j]).id != id) && (list[k].active_workspace matches Some(w)
            && w.id != workspace)
}

/// A window is cropped at its client's place and size. It is refused only
/// where it has no client, where the client is no more than a pixel wide or
/// high, or where the client's monitor is known to show another workspace than
/// the client's.
pub proof fn law_crops_are_refused_for_a_reason(
    clients: Seq<HyprClient>,
    monitors: Option<Seq<HyprMonitor>>,
    window_id: u64,
    i: int,
)
    requires
        0 <= i < clients.len(),
        address_of(clients[i].address@) == Some(window_id),
        forall|j: int| 0 <= j < i ==> address_of((#[trigger] clients[j]).address@) != Some(window_id),
    ensures
        ({
            let c = clients[i];
            let r = crop_of(client_models(clients), monitors, window_id);
            if c.size@[0] <= 1 || c.size@[1] <= 1 {
                r == Err::<Seq<char>, CropError>(CropError::InvalidGeometry { window_id })
            } else if c.workspace is Some && c.monitor is Some && shows_another(
                monitors,
                c.monitor->0,
                c.workspace->0.id,
            ) {
                r is Err && (r->Err_0 matches CropError::OtherWorkspace { window_id: w, workspace, shown } && w
                    == window_id && workspace == c.workspace->0.id && shown != workspace)
            } else {
                r == Ok::<Seq<char>, CropError>(
                    signed_decimal(c.at@[0] as int) + seq![','] + signed_decimal(c.at@[1] as int) + seq![' ']
                        + signed_decimal(c.size@[0] as int) + seq!['x'] + signed_decimal(
                        c.size@[1] as int,
                    ),
                )
            }
        }),
{
    let c = clients[i];
    let models = client_models(clients);
    let m = c.monitor->0;
    assert(models[i] == c@);
    law_monitors_and_clients_are_found(
        match monitors {
            Some(list) => list,
            None => seq![],
        },
        m,
        clients,
        window_id,
    );
    let found = client_index(models, window_id);
    if found is None {
        assert(address_of(clients[i].address@) != Some(window_id));
    }
    if found->0 < i {
        assert(address_of(clients[found->0].address@) != Some(window_id));
    }
    assert(found == Some(i));
    if let Some(list) = monitors {
        let k = monitor_index(list, m);
        if c.workspace is Some && shows_another(monitors, m, c.workspace->0.id) {
            let l = choose|k: int|
                0 <= k < list.len() && (#[trigger] list[k]).id == m && (forall|j: int|
                    0 <= j < k ==> (#[trigger] list[j]).id != m) && (list[k].active_workspace matches Some(w)
                    && w.id != c.workspace->0.id);
            assert(list[l].id == m);
            assert(k is Some);
            assert(k->0 == l);
        } else if k is Some {
            assert(list[k->0].id == m);
        }
    }
    reveal_strlit(",");
    reveal_strlit(" ");
    reveal_strlit("x");
    assert(","@ =~= seq![',']);
    assert(" "@ =~= seq![' ']);
    assert("x"@ =~= seq!['x']);
    assert(geometry_text(c@) == signed_decimal(c.at@[0] as int) + seq![','] + signed_decimal(
        c.at@[1] as int,
    ) + seq![' '] + signed_decimal(c.size@[0] as int) + seq!['x'] + signed_decimal(c.size@[1] as int));
}

/// A window without a client is never cropped.
pub proof fn law_unknown_windows_are_not_cropped(
    clients: Seq<HyprClient>,
    monitors: Option<Seq<HyprMonitor>>,
    window_id: u64,
)
    requires
        forall|j: int|
            0 <= j < clients.len() ==> address_of((#[trigger] clients[j]).address@) != Some(window_id),
    ensures
        crop_of(client_models(clients), monitors, window_id) == Err::<Seq<char>, CropError>(
            CropError::NotFound { window_id },
        ),
{
    law_monitors_and_clients_are_found(seq![], 0, clients, window_id);
    if client_index(client_models(clients), window_id) is Some {
        let i = client_index(client_models(clients), window_id)->0;
        assert(address_of(clients[i].address@) != Some(window_id));
    }
}

// Guards in full

/// Every window of the process that is on an ordinary workspace is swept, and
/// nothing else is.
pub proof fn law_sweeps_are_complete(clients: Seq<HyprClient>, pid: u32, id: u64)
    ensures
        sweep(client_models(clients), pid).contains(id) <==> exists|k: int|
            0 <= k < clients.len() && (#[trigger] clients[k]).pid == pid && clients[k].workspace is Some
                && clients[k].workspace->0.id >= 0 && address_of(clients[k].address@) == Some(id),
{
    let models = client_models(clients);
    let all = sweep(models, pid);
    if all.contains(id) {
        let i = choose|i: int| 0 <= i < all.len() && all[i] == id;
        law_sweeps_touch_only_the_process(models, pid, i);
        let k = choose|k: int|
            0 <= k < models.len() && swept(#[trigger] models[k], pid) == Some(all[i]);
        assert(models[k] == clients[k]@);
        assert(clients[k].pid == pid);
    }
    if exists|k: int|
        0 <= k < clients.len() && (#[trigger] clients[k]).pid == pid && clients[k].workspace is Some
            && clients[k].workspace->0.id >= 0 && address_of(clients[k].address@) == Some(id) {
        let k = choose|k: int|
            0 <= k < clients.len() && (#[trigger] clients[k]).pid == pid && clients[k].workspace is Some
                && clients[k].workspace->0.id >= 0 && address_of(clients[k].address@) == Some(id);
        assert(models[k] == clients[k]@);
        assert(swept(models[k], pid) == Some(id));
        lemma_swept_is_in_the_sweep(models, pid, k);
    }
}

/// Sweeps keep the clients' order: the sweep of two lists, one behind the
/// other, is that of the one and then that of the other.
pub proof fn law_sweeps_keep_the_clients_order(a: Seq<ClientModel>, b: Seq<ClientModel>, pid: u32)
    ensures
        sweep(a + b, pid) == sweep(a, pid) + sweep(b, pid),
        a.len() == 1 ==> sweep(a, pid).len() <= 1,
    decreases b.len(),
{
    if b.len() == 0 {
        assert(a + b =~= a);
    } else {
        assert((a + b).drop_last() =~= a + b.drop_last());
        law_sweeps_keep_the_clients_order(a, b.drop_last(), pid);
    }
    assert(sweep(a + b, pid) =~= sweep(a, pid) + sweep(b, pid));
    if a.len() == 1 {
        assert(a.drop_last() =~= Seq::<ClientModel>::empty());
        assert(sweep(a.drop_last(), pid).len() == 0);
    }
}

/// A process still runs just while its number has the start time that it had
/// at first; a process that had none does not count as running.
pub proof fn law_processes_are_known_by_their_start(first: Option<u64>, now: Option<u64>)
    ensures
        still_runs(first, now) <==> (first matches Some(a) && now matches Some(b) && a == b),
        !still_runs(None, now),
        !still_runs(first, None),
        first is Some ==> still_runs(first, first),
{
}

/// No start time is read where no bracket closes the process's name, where
/// fewer than twenty fields follow it, or where the twentieth is no number.
pub proof fn law_other_lines_tell_no_start(stat: Seq<char>, fields: Seq<char>)
    ensures
        !stat.contains(')') ==> start_time(stat) is None,
        field(fields, 19) is None ==> start_field(fields) is None,
        field(fields, 19) matches Some(f) ==> (number(f, 10, u64::MAX as nat) is None ==> start_field(
            fields,
        ) is None),
        field(fields, 19) matches Some(f) ==> (number(f, 10, u64::MAX as nat) matches Some(n)
            ==> start_field(fields) == Some(n as u64)),
{
    stat.index_of_last_ensures(')');
}

/// The ids of a list of windows are those of its windows and no others, and
/// the ids of a list of clients are those of its readable addresses and no
/// others.
pub proof fn law_ids_are_those_of_the_list(
    windows: Seq<WindowInfo>,
    clients: Seq<HyprClient>,
    id: u64,
)
    ensures
        window_ids(window_models(windows)).contains(id) <==> exists|i: int|
            0 <= i < windows.len() && (#[trigger] windows[i]).xid == id,
        client_ids(client_models(clients)).contains(id) <==> exists|k: int|
            0 <= k < clients.len() && address_of((#[trigger] clients[k]).address@) == Some(id),
{
    let models = window_models(windows);
    let ids = models.map_values(|w: WindowModel| w.xid);
    if window_ids(models).contains(id) {
        let i = choose|i: int| 0 <= i < ids.len() && ids[i] == id;
        assert(windows[i].xid == id);
    }
    if exists|i: int| 0 <= i < windows.len() && (#[trigger] windows[i]).xid == id {
        let i = choose|i: int| 0 <= i < windows.len() && (#[trigger] windows[i]).xid == id;
        assert(ids[i] == id);
    }
    let known = client_models(clients);
    if client_ids(known).contains(id) {
        let k = choose|k: int|
            0 <= k < known.len() && address_of(#[trigger] known[k].address) == Some(id);
        assert(known[k] == clients[k]@);
        assert(address_of(clients[k].address@) == Some(id));
    }
    if exists|k: int| 0 <= k < clients.len() && address_of((#[trigger] clients[k]).address@) == Some(id) {
        let k = choose|k: int|
            0 <= k < clients.len() && address_of((#[trigger] clients[k]).address@) == Some(id);
        assert(known[k].address == clients[k].address@);
    }
}

/// Whether a window was not there before.
pub open spec fn fresh(known: Set<u64>, w: WindowInfo) -> bool {
    !known.contains(w.xid)
}

/// Whether a window is on a special workspace, which has a negative number.
pub open spec fn hidden_away(w: WindowInfo) -> bool {
    w.workspace_id is Some && w.workspace_id->0 < 0
}

/// A launch reports the first window that was not there before and is on a
/// special workspace. Without one, it reports the first that was not there
/// before, and without that, none.
pub proof fn law_launches_report_the_first_window(
    known: Set<u64>,
    windows: Seq<WindowInfo>,
    i: int,
)
    ensures
        0 <= i < windows.len() && fresh(known, windows[i]) && hidden_away(windows[i]) && (forall|j: int|
            0 <= j < i ==> !(fresh(known, #[trigger] windows[j]) && hidden_away(windows[j])))
            ==> launched(known, window_models(windows)) == Some(windows[i]@),
        0 <= i < windows.len() && fresh(known, windows[i]) && (forall|j: int|
            0 <= j < i ==> !fresh(known, #[trigger] windows[j])) && (forall|j: int|
            0 <= j < windows.len() ==> !(fresh(known, #[trigger] windows[j]) && hidden_away(windows[j])))
            ==> launched(known, window_models(windows)) == Some(windows[i]@),
        (forall|j: int| 0 <= j < windows.len() ==> !fresh(known, #[trigger] windows[j])) ==> launched(
            known,
            window_models(windows),
        ) is None,
{
    let models = window_models(windows);
    let new = models.map_values(|w: WindowModel| !known.contains(w.xid));
    let special = models.map_values(|w: WindowModel| !known.contains(w.xid) && on_special(w));
    new.index_of_first_ensures(true);
    special.index_of_first_ensures(true);
    assert forall|j: int| 0 <= j < windows.len() implies new[j] == fresh(known, #[trigger] windows[j])
        && special[j] == (fresh(known, windows[j]) && hidden_away(windows[j])) by {
        assert(models[j] == windows[j]@);
    }
    if 0 <= i < windows.len() {
        assert(models[i] == windows[i]@);
        if special[i] {
            assert(special.contains(true));
        }
        if new[i] {
            assert(new.contains(true));
        }
    }
    if special.contains(true) {
        let k = special.index_of_first(true)->0;
        assert(fresh(known, windows[k]) && hidden_away(windows[k]));
    }
    if new.contains(true) {
        let k = new.index_of_first(true)->0;
        assert(fresh(known, windows[k]));
    }
}

/// A watch over the focus does what it is for: while the time is not up it
/// looks, and a reading that the launch took the focus puts it back to the
/// window that had it. Any other reading lets the watch go on.
pub proof fn law_the_focus_is_put_back(g: FocusModel, elapsed_ms: u64, current: u64)
    ensures
        FOCUS_WATCH_MS == 3000 && EARLY_RESTORE_MS == 700,
        g.phase == FocusPhase::Watching && elapsed_ms < 3000 ==> g.advanced(
            FocusEvent::Time { elapsed_ms },
        ) == (g.in_phase(FocusPhase::Looking), FocusStep::WaitAndLook { ms: 100 }),
        g.phase == FocusPhase::Watching && elapsed_ms >= 3000 ==> g.advanced(
            FocusEvent::Time { elapsed_ms },
        ) == (g.in_phase(FocusPhase::Ended), FocusStep::End),
        g.phase == FocusPhase::Looking && current != g.previous && (elapsed_ms < 700
            || !g.preexisting.contains(current)) ==> g.advanced(
            FocusEvent::Reading { active: Some(current), elapsed_ms },
        ) == (g.in_phase(FocusPhase::Ended), FocusStep::Restore { window: g.previous }),
        g.phase == FocusPhase::Looking && (current == g.previous || (elapsed_ms >= 700
            && g.preexisting.contains(current))) ==> g.advanced(
            FocusEvent::Reading { active: Some(current), elapsed_ms },
        ) == (g.in_phase(FocusPhase::Watching), FocusStep::TellTime),
        g.phase == FocusPhase::Looking ==> g.advanced(FocusEvent::Reading { active: None, elapsed_ms }) == (
            g.in_phase(FocusPhase::Watching),
            FocusStep::TellTime,
        ),
        forall|p: FocusPhase|
            (#[trigger] g.in_phase(p)).previous == g.previous && g.in_phase(p).preexisting
                == g.preexisting && g.in_phase(p).phase == p,
{
}

/// An export may begin just while none is under way, and begins then.
pub proof fn law_exports_begin_while_none_is_under_way(slot: ExportSlot)
    ensures
        slot.grants() <==> !slot.in_flight,
        slot.begun().in_flight,
        !slot.finished().in_flight,
        slot.finished().grants(),
        !slot.begun().grants(),
{
}

/// A process is looked after for as long as it runs, however long that is, and
/// no longer: one that the compositor guards once a second until it is taken
/// out of the guard, and one whose windows are swept three times a second at
/// first and once a second from half a minute on.
pub proof fn law_processes_are_looked_after_while_they_run(
    start: u64,
    now: Option<u64>,
    first: Option<u64>,
    elapsed_ms: u64,
)
    ensures
        reaper_step(Some(start), Some(start)) == (ReaperStep::Wait { ms: 1000 }),
        now != Some(start) ==> reaper_step(Some(start), now) == ReaperStep::Unregister,
        reaper_step(None, now) == ReaperStep::Unregister,
        sweeper_step(Some(start), Some(start), elapsed_ms) == (SweeperStep::WaitAndSweep {
            ms: if elapsed_ms < 30000 {
                300
            } else {
                1000
            },
        }),
        now != Some(start) ==> sweeper_step(Some(start), now, elapsed_ms) == SweeperStep::End,
        sweeper_step(None, now, elapsed_ms) == SweeperStep::End,
        reaper_step(first, now) is Unregister <==> sweeper_step(first, now, elapsed_ms) is End,
{
}

/// The window of a launch is looked for every quarter of a second for ten
/// seconds, and then given up for good.
pub proof fn law_launches_are_awaited_for_ten_seconds(elapsed_ms: u64, later_ms: u64)
    ensures
        elapsed_ms < 10000 ==> launch_step(elapsed_ms) == (LaunchStep::WaitAndLook { ms: 250 }),
        elapsed_ms >= 10000 ==> launch_step(elapsed_ms) == LaunchStep::NoWindow,
        launch_step(elapsed_ms) is NoWindow && elapsed_ms <= later_ms ==> launch_step(
            later_ms,
        ) is NoWindow,
{
}

/// A refused crop names its window by its id, and says what is wrong with it:
/// of a window on another workspace, first its own workspace and then the one
/// that is shown.
pub proof fn law_refused_crops_name_their_window(window_id: u64, workspace: i64, shown: i64)
    ensures
        (CropError::NotFound { window_id }).words() == "Hyprland client 0x"@ + hexadecimal(
            window_id as nat,
        ) + " not found"@,
        (CropError::InvalidGeometry { window_id }).words() == "Hyprland client 0x"@ + hexadecimal(
            window_id as nat,
        ) + " has invalid geometry"@,
        (CropError::OtherWorkspace { window_id, workspace, shown }).words() == "Hyprland client 0x"@
            + hexadecimal(window_id as nat) + (" is on workspace "@ + signed_decimal(workspace as int)
            + " but its monitor shows workspace "@ + signed_decimal(shown as int)
            + "; a grim region crop would capture unrelated content"@),
{
}

/// A question that failed says which one it was, and of a crop where it was.
pub proof fn law_failed_questions_say_which(geometry: String)
    ensures
        QueryError::Clients.words() == "hyprctl clients -j failed"@,
        QueryError::Monitors.words() == "hyprctl monitors -j failed"@,
        QueryError::NotASession.words() == "not a Hyprland session"@,
        QueryError::Region(geometry).words() == "grim failed for Hyprland geometry "@ + geometry@,
        QueryError::Display.words() == "grim full-output capture failed"@,
{
}

/// A window is on the first monitor that has the number which the window's
/// client names. It is on none that is known where it has no client, where the
/// client names no monitor, or where no monitor has that number.
pub proof fn law_windows_are_on_their_clients_monitor(
    clients: Seq<HyprClient>,
    monitors: Seq<HyprMonitor>,
    window_id: u64,
    i: int,
    k: int,
)
    requires
        0 <= i < clients.len(),
        address_of(clients[i].address@) == Some(window_id),
        forall|j: int| 0 <= j < i ==> address_of((#[trigger] clients[j]).address@) != Some(window_id),
    ensures
        clients[i].monitor is None ==> window_monitor(clients, monitors, window_id) is None,
        clients[i].monitor is Some && 0 <= k < monitors.len() && monitors[k].id == clients[i].monitor->0 && (
        forall|j: int| 0 <= j < k ==> (#[trigger] monitors[j]).id != clients[i].monitor->0)
            ==> window_monitor(clients, monitors, window_id) == Some(k),
        clients[i].monitor is Some && (forall|j: int|
            0 <= j < monitors.len() ==> (#[trigger] monitors[j]).id != clients[i].monitor->0)
            ==> window_monitor(clients, monitors, window_id) is None,
{
    let m = clients[i].monitor->0;
    law_monitors_and_clients_are_found(monitors, m, clients, window_id);
    let found = client_index(client_models(clients), window_id);
    if found is None {
        assert(address_of(clients[i].address@) != Some(window_id));
    }
    if found->0 < i {
        assert(address_of(clients[found->0].address@) != Some(window_id));
    }
    assert(found == Some(i));
    let at = monitor_index(monitors, m);
    if 0 <= k < monitors.len() && monitors[k].id == m && (forall|j: int|
        0 <= j < k ==> (#[trigger] monitors[j]).id != m) {
        assert(at is Some);
        if at->0 < k {
            assert(monitors[at->0].id != m);
        }
    }
    if at is Some {
        assert(monitors[at->0].id == m);
    }
}

/// The monitors are asked just where their answer can make a difference to a
/// crop: where they are not, every answer leads to the same crop, and where
/// they are, a monitor that shows another workspace prevents it.
pub proof fn law_monitors_are_asked_where_it_matters(
    clients: Seq<HyprClient>,
    monitors: Option<Seq<HyprMonitor>>,
    others: Option<Seq<HyprMonitor>>,
    window_id: u64,
)
    ensures
        !needs_monitors(clients, window_id) ==> crop_of(client_models(clients), monitors, window_id)
            == crop_of(client_models(clients), others, window_id),
        needs_monitors(clients, window_id) ==> exists|i: int|
            0 <= i < clients.len() && address_of((#[trigger] clients[i]).address@) == Some(window_id)
                && clients[i].monitor is Some && clients[i].workspace is Some && (shows_another(
                monitors,
                clients[i].monitor->0,
                clients[i].workspace->0.id,
            ) ==> crop_of(client_models(clients), monitors, window_id) is Err) && crop_of(
                client_models(clients),
                None,
                window_id,
            ) is Ok,
{
    law_monitors_and_clients_are_found(seq![], 0, clients, window_id);
    let models = client_models(clients);
    if let Some(i) = client_index(models, window_id) {
        assert(models[i] == clients[i]@);
        law_crops_are_refused_for_a_reason(clients, monitors, window_id, i);
        law_crops_are_refused_for_a_reason(clients, None, window_id, i);
        if needs_monitors(clients, window_id) {
            assert(address_of(clients[i].address@) == Some(window_id));
        }
    }
}

} // verus!
