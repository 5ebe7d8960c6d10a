//! What holds of a recording session over any course of calls.
use crate::json::{contents, float_form, Json, JsonNumber};
use crate::path::{joined, same_components};
use crate::recording::{
    action_json, click_model, clicks, configure_effect, cursor_json, elapsed, finished_video_json,
    internal, point_at, record_effect, session_json, signed_member, start_effect, starting_cursor_json,
    stop_effect, stripped, text_of, turn_files_model, turn_name, unsigned_member, video_json,
    ClickModel, ConfigureAction, CursorStats, ErrorModel, OutcomeModel, RecordingError,
    PendingTurn, RecordingModel, StartTicket, StopTicket, VideoModel,
};
use crate::text::{begins_with, decimal, digits_value, lemma_numeral_reads_back, zero_padded};
use crate::text_laws::law_paths_are_compared_by_parts;
use vstd::prelude::*;

verus! {

/// One call on a recording session.
pub enum RecordingStep<V, C> {
    /// A start; `dead` where its owner has ended.
    Start { dead: bool },
    /// The commit of a start that was let in at `epoch`.
    Commit {
        epoch: nat,
        dead: bool,
        owner: Option<Seq<char>>,
        dir: Seq<char>,
        video: Option<V>,
        cursor: Option<C>,
        video_error: Option<Seq<char>>,
        now_ms: u64,
    },
    Stop { requester: Option<Seq<char>> },
    FinishStop { finished: Option<VideoModel>, stats: CursorStats },
    Record,
    RecordFailed { error: Seq<char> },
}

/// The state after one call.
pub open spec fn after<V, C>(m: RecordingModel<V, C>, step: RecordingStep<V, C>) -> RecordingModel<
    V,
    C,
> {
    match step {
        RecordingStep::Start { dead } => if dead {
            m
        } else {
            m.begun()
        },
        RecordingStep::Commit {
            epoch,
            dead,
            owner,
            dir,
            video,
            cursor,
            video_error,
            now_ms,
        } => if m.commits(epoch, dead) {
            m.committed(owner, dir, video, cursor, video_error, now_ms)
        } else {
            m
        },
        RecordingStep::Stop { requester } => if m.stops(requester) {
            m.stopped(requester)
        } else {
            m
        },
        RecordingStep::FinishStop { finished, stats } => m.concluded(finished, stats),
        RecordingStep::Record => if m.enabled {
            m.turned()
        } else {
            m
        },
        RecordingStep::RecordFailed { error } => m.failed(error),
    }
}

/// The state after a course of calls.
pub open spec fn run<V, C>(
    m: RecordingModel<V, C>,
    steps: Seq<RecordingStep<V, C>>,
) -> RecordingModel<V, C>
    decreases steps.len(),
{
    if steps.len() == 0 {
        m
    } else {
        after(run(m, steps.drop_last()), steps.last())
    }
}

/// Whether a call moves the epoch on, and so ends the hopes of every start
/// that has not committed yet.
pub open spec fn supersedes<V, C>(m: RecordingModel<V, C>, step: RecordingStep<V, C>) -> bool {
    match step {
        RecordingStep::Start { dead } => !dead,
        RecordingStep::Stop { requester } => requester is None && m.stops(None),
        _ => false,
    }
}

/// Whether a call commits the start that was let in at `epoch`.
pub open spec fn commits_epoch<V, C>(step: RecordingStep<V, C>, epoch: nat) -> bool {
    step matches RecordingStep::Commit { epoch: e, .. } && e == epoch
}

/// Every course of calls leaves the session in a valid state.
pub proof fn law_sessions_stay_valid<V, C>(steps: Seq<RecordingStep<V, C>>)
    ensures
        run(RecordingModel::<V, C>::fresh(), steps).valid(),
    decreases steps.len(),
{
    if steps.len() > 0 {
        law_sessions_stay_valid(steps.drop_last());
    }
}

/// The epoch never falls: at each call it stays, or moves on by one.
pub proof fn law_epoch_never_falls<V, C>(
    m: RecordingModel<V, C>,
    steps: Seq<RecordingStep<V, C>>,
)
    ensures
        m.start_epoch <= run(m, steps).start_epoch <= m.start_epoch + steps.len(),
    decreases steps.len(),
{
    if steps.len() > 0 {
        law_epoch_never_falls(m, steps.drop_last());
    }
}

/// A start that a newer start or an effective unconditional stop has
/// overtaken is never made live, whatever else happens before and after.
pub proof fn law_superseded_start_never_commits<V, C>(
    m: RecordingModel<V, C>,
    before: Seq<RecordingStep<V, C>>,
    newer: RecordingStep<V, C>,
    later: Seq<RecordingStep<V, C>>,
    dead: bool,
)
    requires
        supersedes(run(m.begun(), before), newer),
    ensures
        !run(after(run(m.begun(), before), newer), later).commits(m.begun().start_epoch, dead),
{
    law_epoch_never_falls(m.begun(), before);
    law_epoch_never_falls(after(run(m.begun(), before), newer), later);
}

/// Whether some call of a course moves the epoch on.
pub open spec fn overtaken<V, C>(m: RecordingModel<V, C>, steps: Seq<RecordingStep<V, C>>) -> bool
    decreases steps.len(),
{
    steps.len() > 0 && (overtaken(m, steps.drop_last()) || supersedes(
        run(m, steps.drop_last()),
        steps.last(),
    ))
}

/// A course with a call that moves the epoch on leaves a higher epoch.
proof fn lemma_overtaken_epoch<V, C>(m: RecordingModel<V, C>, steps: Seq<RecordingStep<V, C>>)
    requires
        overtaken(m, steps),
    ensures
        run(m, steps).start_epoch > m.start_epoch,
    decreases steps.len(),
{
    let shorter = steps.drop_last();
    law_epoch_never_falls(m, shorter);
    if overtaken(m, shorter) {
        lemma_overtaken_epoch(m, shorter);
    }
}

/// A start that another start or an effective unconditional stop overtook, or
/// whose owner ended, before its commit is refused. The session stays as the
/// others left it, the start's own backends come back to be stopped, and its
/// `session.json` is to be completed unless a live recording writes to the
/// same directory.
pub proof fn law_overtaken_starts_change_nothing<V, C>(
    m: RecordingModel<V, C>,
    steps: Seq<RecordingStep<V, C>>,
    owner: Option<Seq<char>>,
    dead: bool,
    dir: Seq<char>,
    video: Option<V>,
    cursor: Option<C>,
    video_error: Option<Seq<char>>,
    now_ms: u64,
)
    requires
        overtaken(m.begun(), steps) || dead,
        dead ==> owner is Some,
    ensures
        ({
            let epoch = m.begun().start_epoch;
            let reached = run(m.begun(), steps);
            &&& after(
                reached,
                RecordingStep::Commit { epoch, dead, owner, dir, video, cursor, video_error, now_ms },
            ) == reached
            &&& reached.outcome(epoch, owner, dead, dir, video, cursor) == (OutcomeModel::Aborted {
                video,
                cursor,
                finalize: !(reached.enabled && reached.output_dir is Some && same_components(
                    reached.output_dir->0,
                    dir,
                )),
                error: if dead {
                    ErrorModel::OwnerEnded(owner->0)
                } else {
                    ErrorModel::Superseded
                },
            })
        }),
{
    if overtaken(m.begun(), steps) {
        lemma_overtaken_epoch(m.begun(), steps);
    }
}

/// A start that nothing has overtaken and whose owner is alive is made live.
/// A stop by another session does not get in its way.
pub proof fn law_unchallenged_start_commits<V, C>(
    m: RecordingModel<V, C>,
    steps: Seq<RecordingStep<V, C>>,
)
    requires
        !overtaken(m.begun(), steps),
    ensures
        run(m.begun(), steps).commits(m.begun().start_epoch, false),
    decreases steps.len(),
{
    if steps.len() > 0 {
        law_unchallenged_start_commits(m, steps.drop_last());
    }
}

/// A start that is made live finds no backend left to displace: those that
/// were live were handed out when it was let in, and none can have been made
/// live since.
pub proof fn law_commit_displaces_nothing<V, C>(
    m: RecordingModel<V, C>,
    steps: Seq<RecordingStep<V, C>>,
)
    requires
        !overtaken(m.begun(), steps),
        forall|i: int|
            0 <= i < steps.len() ==> !commits_epoch(#[trigger] steps[i], m.begun().start_epoch),
    ensures
        run(m.begun(), steps).video is None,
        run(m.begun(), steps).cursor is None,
    decreases steps.len(),
{
    if steps.len() > 0 {
        let shorter = steps.drop_last();
        law_unchallenged_start_commits(m, shorter);
        assert(!commits_epoch(steps[steps.len() - 1], m.begun().start_epoch));
        assert forall|i: int| 0 <= i < shorter.len() implies !commits_epoch(
            #[trigger] shorter[i],
            m.begun().start_epoch,
        ) by {
            assert(shorter[i] == steps[i]);
        }
        law_commit_displaces_nothing(m, shorter);
    }
}

/// Turning recording off is an unconditional stop, whatever directory is
/// named and whoever owns the recording. Turning it on is an anonymous start
/// with video, and needs a directory.
pub proof fn law_configuring_is_stopping_or_starting<V, C>(
    pre: RecordingModel<V, C>,
    dir: Option<Seq<char>>,
    post: RecordingModel<V, C>,
    r: Result<ConfigureAction<V, C>, RecordingError>,
)
    ensures
        configure_effect(pre, false, dir, post, r) <==> (r matches Ok(ConfigureAction::Stop(t))
            && stop_effect(pre, None, post, t)),
        dir matches Some(d) ==> (configure_effect(pre, true, dir, post, r) <==> (r matches Ok(
            ConfigureAction::Start(t),
        ) && start_effect(pre, d, true, None, false, post, Ok(t)))),
        dir is None ==> (configure_effect(pre, true, dir, post, r) <==> (r matches Err(e) && e@
            == ErrorModel::MissingOutputDir && post == pre)),
        configure_effect(pre, true, dir, post, r) ==> (r matches Ok(ConfigureAction::Start(t))
            ==> text_of(t.owner) is None && t.video_path is Some),
{
}

/// A recording that was made live for a start without an owner belongs to
/// nobody.
pub proof fn law_anonymous_starts_are_owned_by_nobody<V, C>(
    m: RecordingModel<V, C>,
    dir: Seq<char>,
    video: Option<V>,
    cursor: Option<C>,
    video_error: Option<Seq<char>>,
    now_ms: u64,
)
    ensures
        m.committed(None, dir, video, cursor, video_error, now_ms).enabled,
        m.committed(None, dir, video, cursor, video_error, now_ms).owner is None,
{
}

/// No commit leaves a recording behind that belongs to a session that has
/// ended.
pub proof fn law_dead_owner_never_records<V, C>(m: RecordingModel<V, C>, epoch: nat)
    ensures
        !m.commits(epoch, true),
{
}

/// Stopping twice is stopping once: right after a stop that had effect, no
/// stop has any.
pub proof fn law_stop_is_idempotent<V, C>(
    m: RecordingModel<V, C>,
    first: Option<Seq<char>>,
    second: Option<Seq<char>>,
)
    requires
        m.stops(first),
    ensures
        !m.stopped(first).stops(second),
{
}

/// A session whose recording another session has replaced does not stop the
/// other's recording when it ends.
pub proof fn law_replaced_owner_stops_nothing<V, C>(
    m: RecordingModel<V, C>,
    owner: Option<Seq<char>>,
    other: Seq<char>,
    dir: Seq<char>,
    video: Option<V>,
    cursor: Option<C>,
    video_error: Option<Seq<char>>,
    now_ms: u64,
)
    requires
        owner != Some(other),
    ensures
        !m.committed(owner, dir, video, cursor, video_error, now_ms).stops(Some(other)),
{
}

/// Only a stop without a requester ends a recording that nobody owns, and it
/// ends any live recording.
pub proof fn law_anonymous_recording_outlives_sessions<V, C>(
    m: RecordingModel<V, C>,
    requester: Seq<char>,
)
    requires
        m.enabled,
    ensures
        m.owner is None ==> !m.stops(Some(requester)),
        m.stops(None),
{
}

/// Whether a call makes another recording live or ends the live one.
pub open spec fn switches<V, C>(m: RecordingModel<V, C>, step: RecordingStep<V, C>) -> bool {
    match step {
        RecordingStep::Commit { epoch, dead, .. } => m.commits(epoch, dead),
        RecordingStep::Stop { requester } => m.stops(requester),
        _ => false,
    }
}

/// How many of some calls record a turn.
pub open spec fn recorded<V, C>(steps: Seq<RecordingStep<V, C>>) -> nat
    decreases steps.len(),
{
    if steps.len() == 0 {
        0
    } else {
        recorded(steps.drop_last()) + (if steps.last() is Record {
            1nat
        } else {
            0nat
        })
    }
}

/// The turns of a recording are numbered from one, without a gap: as long as a
/// start that was made live stays live, the turn that follows `n` recorded
/// ones has the number `n + 1`, whatever else is called in between.
pub proof fn law_turns_are_numbered_from_one<V, C>(
    m: RecordingModel<V, C>,
    owner: Option<Seq<char>>,
    dir: Seq<char>,
    video: Option<V>,
    cursor: Option<C>,
    video_error: Option<Seq<char>>,
    now_ms: u64,
    steps: Seq<RecordingStep<V, C>>,
)
    requires
        forall|i: int|
            0 <= i < steps.len() ==> !switches(
                run(
                    m.committed(owner, dir, video, cursor, video_error, now_ms),
                    #[trigger] steps.take(i),
                ),
                steps[i],
            ),
    ensures
        ({
            let reached = run(
                m.committed(owner, dir, video, cursor, video_error, now_ms),
                steps,
            );
            reached.enabled && reached.output_dir == Some(dir) && reached.next_turn == 1 + recorded(
                steps,
            ) && recorded(steps) <= steps.len()
        }),
    decreases steps.len(),
{
    let live = m.committed(owner, dir, video, cursor, video_error, now_ms);
    if steps.len() > 0 {
        let shorter = steps.drop_last();
        assert forall|i: int| 0 <= i < shorter.len() implies !switches(
            run(live, #[trigger] shorter.take(i)),
            shorter[i],
        ) by {
            assert(shorter.take(i) =~= steps.take(i));
        }
        law_turns_are_numbered_from_one(
            m,
            owner,
            dir,
            video,
            cursor,
            video_error,
            now_ms,
            shorter,
        );
        assert(steps.take(steps.len() - 1) =~= shorter);
    }
}

/// Whether a call commits a start of a session that is not known to be dead.
pub open spec fn revives<V, C>(step: RecordingStep<V, C>, session: Seq<char>) -> bool {
    step matches RecordingStep::Commit { owner, dead, .. } && owner == Some(session) && !dead
}

/// A session that has ended leaves no recording behind. Its end is marked
/// before its recording is stopped; so from that stop on each of its commits
/// finds it dead, and whatever else happens, no live recording is its own.
pub proof fn law_ended_sessions_leave_no_recording<V, C>(
    m: RecordingModel<V, C>,
    session: Seq<char>,
    later: Seq<RecordingStep<V, C>>,
)
    requires
        m.valid(),
        forall|i: int|
            0 <= i < later.len() ==> !revives(#[trigger] later[i], session),
    ensures
        run(after(m, RecordingStep::Stop { requester: Some(session) }), later).owner != Some(session),
    decreases later.len(),
{
    if later.len() > 0 {
        let shorter = later.drop_last();
        assert forall|i: int| 0 <= i < shorter.len() implies !revives(
            #[trigger] shorter[i],
            session,
        ) by {
            assert(shorter[i] == later[i]);
        }
        law_ended_sessions_leave_no_recording(m, session, shorter);
        assert(later[later.len() - 1] == later.last());
    }
}

/// Zeros in front do not change the number that digits denote.
proof fn lemma_leading_zeros(n: nat, s: Seq<char>)
    requires
        digits_value(s, 10) is Some,
    ensures
        digits_value(Seq::new(n, |i: int| '0') + s, 10) == digits_value(s, 10),
    decreases n + s.len(),
{
    let zeros = Seq::new(n, |i: int| '0');
    if s.len() > 0 {
        assert((zeros + s).drop_last() =~= zeros + s.drop_last());
        lemma_leading_zeros(n, s.drop_last());
    } else if n > 0 {
        assert((zeros + s).drop_last() =~= Seq::new((n - 1) as nat, |i: int| '0') + s);
        lemma_leading_zeros((n - 1) as nat, s);
    } else {
        assert(zeros + s =~= s);
    }
}

/// Different turns of a recording go to different directories.
pub proof fn law_turn_directories_differ(dir: Seq<char>, a: nat, b: nat)
    requires
        joined(dir, turn_name(a)) == joined(dir, turn_name(b)),
    ensures
        a == b,
{
    reveal_strlit("turn-");
    let front = if dir.len() == 0 || dir.last() == '/' {
        dir
    } else {
        dir.push('/')
    };
    assert(turn_name(a) =~= joined(dir, turn_name(a)).skip(front.len() as int));
    assert(turn_name(b) =~= joined(dir, turn_name(b)).skip(front.len() as int));
    let x = zero_padded(decimal(a), 5);
    let y = zero_padded(decimal(b), 5);
    let p = "turn-"@.len() as int;
    assert(x =~= turn_name(a).skip(p));
    assert(y =~= turn_name(b).skip(p));
    lemma_numeral_reads_back(a, 10);
    lemma_numeral_reads_back(b, 10);
    if decimal(a).len() < 5 {
        lemma_leading_zeros((5 - decimal(a).len()) as nat, decimal(a));
    }
    if decimal(b).len() < 5 {
        lemma_leading_zeros((5 - decimal(b).len()) as nat, decimal(b));
    }
}

/// No reserved key survives in recorded arguments, every other member does,
/// and stripping again changes nothing.
pub proof fn law_recorded_arguments_hold_no_internal_keys(args: Json, key: Seq<char>)
    ensures
        internal(key) ==> stripped(args).member(key) is None,
        !internal(key) ==> stripped(args).member(key) == args.member(key),
        stripped(stripped(args)) == stripped(args),
{
    if let Json::Object(fields) = args {
        let keep = Set::new(|k: Seq<char>| !internal(k));
        assert(fields.restrict(keep).restrict(keep) =~= fields.restrict(keep));
    }
}

/// A turn has a click point, in its `action.json` and by a marked picture,
/// just where it clicked at a point that the arguments give or at an element
/// that the platform found. A turn of a tool that does not click has none.
pub proof fn law_marks_come_with_clicks(
    tool_name: Seq<char>,
    args: Json,
    looked_up: Option<(Json, Json)>,
    result_text: Seq<char>,
    timestamp: Seq<char>,
    elapsed_ms: u64,
    start_elapsed_ms: u64,
    dir: Seq<char>,
    app_state: Option<Seq<u8>>,
    screenshot: Option<Seq<u8>>,
    marked: Option<Seq<u8>>,
)
    ensures
        ({
            let point = point_at(click_model(tool_name, args), looked_up);
            let action = action_json(
                tool_name,
                args,
                result_text,
                timestamp,
                elapsed_ms,
                start_elapsed_ms,
                point,
            );
            let files = turn_files_model(dir, app_state, screenshot, point, marked);
            &&& !clicks(tool_name) ==> point is None
            &&& action.member("click_point"@) is Some <==> point is Some
            &&& point matches Some((x, y)) ==> action.member("click_point"@) == Some(
                Json::Object(Map::empty().insert("x"@, x).insert("y"@, y)),
            )
            &&& (exists|i: int| 0 <= i < files.len() && #[trigger] files[i].0 == joined(dir, "click.png"@))
                <==> point is Some && screenshot is Some && marked is Some
            &&& point is Some && screenshot is Some && marked is Some ==> files.last() == (
                joined(dir, "click.png"@),
                marked->0,
            )
        }),
{
    reveal_strlit("tool");
    reveal_strlit("arguments");
    reveal_strlit("result_summary");
    reveal_strlit("timestamp");
    reveal_strlit("t_ms_from_session_start");
    reveal_strlit("t_start_ms_from_session_start");
    reveal_strlit("click_point");
    assert("tool"@.len() == 4 && "arguments"@.len() == 9 && "result_summary"@.len() == 14);
    assert("timestamp"@.len() == 9 && "click_point"@.len() == 11);
    assert("t_ms_from_session_start"@.len() == 23 && "t_start_ms_from_session_start"@.len() == 29);
    reveal_strlit("app_state.json");
    reveal_strlit("screenshot.png");
    reveal_strlit("click.png");
    assert(joined(dir, "app_state.json"@).len() > joined(dir, "click.png"@).len());
    assert(joined(dir, "screenshot.png"@).len() > joined(dir, "click.png"@).len());
    let point = point_at(click_model(tool_name, args), looked_up);
    let files = turn_files_model(dir, app_state, screenshot, point, marked);
    if point is Some && screenshot is Some && marked is Some {
        assert(files[files.len() - 1].0 == joined(dir, "click.png"@));
    }
}

// Times and documents

/// The time of a turn, counted from the recording's start, leads back to the
/// moment: the start and the time together are the moment, unless it came
/// before the start, which counts as the start itself. So a later turn never
/// has a smaller time.
pub proof fn law_times_count_from_the_start(start_ms: u64, moment_ms: u64, later_ms: u64)
    ensures
        moment_ms >= start_ms ==> start_ms + elapsed(start_ms, moment_ms) == moment_ms,
        moment_ms < start_ms ==> elapsed(start_ms, moment_ms) == 0,
        moment_ms <= later_ms ==> elapsed(start_ms, moment_ms) <= elapsed(start_ms, later_ms),
        start_ms <= moment_ms <= later_ms ==> elapsed(start_ms, later_ms) - elapsed(start_ms, moment_ms)
            == later_ms - moment_ms,
{
}

/// What distinguishes the keys of an `action.json`.
proof fn lemma_action_keys()
    ensures
        "tool"@.len() == 4,
        "arguments"@.len() == 9,
        "result_summary"@.len() == 14,
        "timestamp"@.len() == 9,
        "arguments"@ != "timestamp"@,
        "t_ms_from_session_start"@.len() == 23,
        "t_start_ms_from_session_start"@.len() == 29,
        "click_point"@.len() == 11,
        "x"@ != "y"@,
{
    reveal_strlit("tool");
    reveal_strlit("arguments");
    reveal_strlit("result_summary");
    reveal_strlit("timestamp");
    reveal_strlit("t_ms_from_session_start");
    reveal_strlit("t_start_ms_from_session_start");
    reveal_strlit("click_point");
    reveal_strlit("x");
    reveal_strlit("y");
    assert("arguments"@[0] != "timestamp"@[0]);
    assert("x"@[0] != "y"@[0]);
}

/// An `action.json` tells the tool, its arguments, what came of it, the time
/// in words, and the moments of its end and its beginning, each so that it and
/// the recording's start make up the moment; and where it clicked, if it did.
/// It tells nothing else.
pub proof fn law_a_turn_is_told_in_full(
    tool_name: Seq<char>,
    args: Json,
    result_text: Seq<char>,
    timestamp: Seq<char>,
    session_start_ms: u64,
    now_ms: u64,
    start_ms: u64,
    click_point: Option<(Json, Json)>,
    key: Seq<char>,
)
    requires
        session_start_ms <= start_ms <= now_ms,
    ensures
        ({
            let action = action_json(
                tool_name,
                args,
                result_text,
                timestamp,
                elapsed(session_start_ms, now_ms),
                elapsed(session_start_ms, start_ms),
                click_point,
            );
            &&& action.member("tool"@) == Some(Json::Text(tool_name))
            &&& action.member("arguments"@) == Some(args)
            &&& action.member("result_summary"@) == Some(Json::Text(result_text))
            &&& action.member("timestamp"@) == Some(Json::Text(timestamp))
            &&& (action.member("t_ms_from_session_start"@) matches Some(Json::Number(JsonNumber::Unsigned(t)))
                && session_start_ms + t == now_ms)
            &&& (action.member("t_start_ms_from_session_start"@) matches Some(
                Json::Number(JsonNumber::Unsigned(t)),
            ) && session_start_ms + t == start_ms)
            &&& (match click_point {
                Some((x, y)) => action.member("click_point"@) is Some && action.member("click_point"@)->0.member(
                    "x"@,
                ) == Some(x) && action.member("click_point"@)->0.member("y"@) == Some(y),
                None => action.member("click_point"@) is None,
            })
            &&& action.member(key) is Some ==> key == "tool"@ || key == "arguments"@ || key
                == "result_summary"@ || key == "timestamp"@ || key == "t_ms_from_session_start"@ || key
                == "t_start_ms_from_session_start"@ || key == "click_point"@
        }),
{
    lemma_action_keys();
}

/// What distinguishes the keys of a `session.json`.
proof fn lemma_session_keys()
    ensures
        "present"@.len() == 7,
        "sample_count"@.len() == 12,
        "dropped_offscreen"@.len() == 17,
        "path"@.len() == 4,
        "absolute_path"@.len() == 13,
        "duration_ms"@.len() == 11,
        "finalized"@.len() == 9,
        "error"@.len() == 5,
        "schema_version"@.len() == 14,
        "started_at_monotonic_ms"@.len() == 23,
        "video"@.len() == 5,
        "cursor"@.len() == 6,
{
    reveal_strlit("present");
    reveal_strlit("sample_count");
    reveal_strlit("dropped_offscreen");
    reveal_strlit("path");
    reveal_strlit("absolute_path");
    reveal_strlit("duration_ms");
    reveal_strlit("finalized");
    reveal_strlit("error");
    reveal_strlit("schema_version");
    reveal_strlit("started_at_monotonic_ms");
    reveal_strlit("video");
    reveal_strlit("cursor");
}

/// A `session.json` tells its version, its moment, and what is known of the
/// video and of the cursor. The cursor counts as recorded at the end just
/// where there was a sample, and at the start just where its sampler came up.
pub proof fn law_sessions_are_told_in_full(
    now_ms: u64,
    video: Json,
    cursor: Json,
    stats: CursorStats,
    started: bool,
    key: Seq<char>,
)
    ensures
        ({
            let session = session_json(now_ms, video, cursor);
            &&& session.member("schema_version"@) == Some(Json::Number(JsonNumber::Unsigned(1)))
            &&& session.member("started_at_monotonic_ms"@) == Some(
                Json::Number(JsonNumber::Unsigned(now_ms)),
            )
            &&& session.member("video"@) == Some(video)
            &&& session.member("cursor"@) == Some(cursor)
            &&& session.member(key) is Some ==> key == "schema_version"@ || key
                == "started_at_monotonic_ms"@ || key == "video"@ || key == "cursor"@
        }),
        cursor_json(stats).member("present"@) == Some(Json::Bool(stats.samples > 0)),
        cursor_json(stats).member("sample_count"@) == Some(
            Json::Number(JsonNumber::Unsigned(stats.samples)),
        ),
        cursor_json(stats).member("dropped_offscreen"@) == Some(
            Json::Number(JsonNumber::Unsigned(stats.dropped_offscreen)),
        ),
        starting_cursor_json(started).member("present"@) == Some(Json::Bool(started)),
        starting_cursor_json(started).member("sample_count"@) == Some(
            Json::Number(JsonNumber::Unsigned(0)),
        ),
        starting_cursor_json(started).member("dropped_offscreen"@) is None,
        cursor_json(stats).member(key) is Some ==> key == "present"@ || key == "sample_count"@ || key
            == "dropped_offscreen"@,
{
    lemma_session_keys();
    reveal_strlit("video");
    reveal_strlit("error");
    assert("video"@[0] != "error"@[0]);
}

/// The `video` field says whether there is a video. Of one that there is, it
/// names the file, and once it has stopped also its place, its length, whether
/// it is complete and what went wrong with it, if anything did. Of one that
/// there is not, it says why, if that is known, and nothing else.
pub proof fn law_videos_are_told_in_full(
    present: bool,
    error: Option<Seq<char>>,
    meta: Option<VideoModel>,
)
    ensures
        ({
            let v = video_json(present, error, meta);
            &&& v.member("present"@) == Some(Json::Bool(present))
            &&& v.member("path"@) == (if present {
                Some(Json::Text("recording.mp4"@))
            } else {
                None
            })
            &&& v.member("absolute_path"@) == (if present && meta is Some {
                Some(Json::Text(meta->0.path))
            } else {
                None
            })
            &&& v.member("duration_ms"@) == (if present && meta is Some {
                Some(Json::Number(JsonNumber::Unsigned(meta->0.duration_ms)))
            } else {
                None
            })
            &&& v.member("finalized"@) == (if present && meta is Some {
                Some(Json::Bool(meta->0.finalized))
            } else {
                None
            })
            &&& v.member("error"@) == (if !present && error is Some {
                Some(Json::Text(error->0))
            } else if present && meta is Some && meta->0.error is Some {
                Some(Json::Text(meta->0.error->0))
            } else {
                None
            })
        }),
        finished_video_json(meta).member("present"@) == Some(Json::Bool(meta is Some)),
        meta is Some ==> finished_video_json(meta) == video_json(true, None, meta),
        meta is None ==> finished_video_json(meta).member("error"@) is None,
{
    lemma_session_keys();
}

// Turns

/// A turn's directory is named after its number: `turn-` and at least five
/// digits, which denote the number.
pub proof fn law_turn_names_tell_their_number(index: nat)
    ensures
        begins_with(turn_name(index), "turn-"@),
        turn_name(index).len() >= 10,
        digits_value(turn_name(index).skip(5), 10) == Some(index),
        decimal(index).len() <= 5 ==> turn_name(index).len() == 10,
        decimal(index).len() > 5 ==> turn_name(index).len() == 5 + decimal(index).len(),
{
    reveal_strlit("turn-");
    let name = turn_name(index);
    let digits = zero_padded(decimal(index), 5);
    assert(name.take(5) =~= "turn-"@);
    assert(name.skip(5) =~= digits);
    lemma_numeral_reads_back(index, 10);
    if decimal(index).len() < 5 {
        lemma_leading_zeros((5 - decimal(index).len()) as nat, decimal(index));
    }
}

/// A key is reserved just where it begins with an underscore. Arguments that
/// are no object stay as they are, and an object stays one.
pub proof fn law_underscores_reserve_keys(rest: Seq<char>, key: Seq<char>, args: Json)
    ensures
        internal(seq!['_'] + rest),
        key.len() == 0 ==> !internal(key),
        key.len() > 0 && key[0] != '_' ==> !internal(key),
        !(args is Object) ==> stripped(args) == args,
        args is Object ==> stripped(args) is Object,
{
    assert((seq!['_'] + rest)[0] == '_');
}

/// A tool that clicks lands at the numbers `x` and `y` of its arguments where
/// both are there. Otherwise it lands at the element that the arguments name
/// by a window, a process and an index that fits, and otherwise nowhere. Any
/// other tool lands nowhere.
pub proof fn law_clicks_land_where_the_arguments_say(tool_name: Seq<char>, args: Json)
    ensures
        ({
            let clicking = tool_name == "click"@ || tool_name == "double_click"@ || tool_name
                == "right_click"@;
            let at_point = args.member("x"@) is Some && args.member("x"@)->0 is Number && args.member(
                "y"@,
            ) is Some && args.member("y"@)->0 is Number;
            let window = unsigned_member(args, "window_id"@);
            let pid = signed_member(args, "pid"@);
            let index = unsigned_member(args, "element_index"@);
            &&& clicks(tool_name) <==> clicking
            &&& !clicking ==> click_model(tool_name, args) is Nowhere
            &&& clicking && at_point ==> (click_model(tool_name, args) matches ClickModel::Point { x, y } && (
            args.member("x"@)->0->Number_0 is Float ==> x == args.member("x"@)->0) && (args.member(
                "y"@,
            )->0->Number_0 is Float ==> y == args.member("y"@)->0) && (!(args.member(
                "x"@,
            )->0->Number_0 is Float) ==> x == Json::Number(float_form(args.member("x"@)->0->Number_0))) && (
            !(args.member("y"@)->0->Number_0 is Float) ==> y == Json::Number(
                float_form(args.member("y"@)->0->Number_0),
            )))
            &&& clicking && !at_point && window is Some && pid is Some && index is Some && index->0 <= u32::MAX
                ==> click_model(tool_name, args) == (ClickModel::Element {
                window_id: window->0,
                pid: pid->0,
                index: index->0 as u32,
            })
            &&& clicking && !at_point && !(window is Some && pid is Some && index is Some && index->0
                <= u32::MAX) ==> click_model(tool_name, args) is Nowhere
        }),
{
}

/// A member of the arguments counts as an integer just where it is one: as an
/// unsigned one where it is not negative, and as a signed one where it fits.
pub proof fn law_integers_are_taken_as_they_are(j: Json, key: Seq<char>, n: u64, z: i64)
    ensures
        j.member(key) == Some(Json::Number(JsonNumber::Unsigned(n))) ==> unsigned_member(j, key) == Some(n),
        j.member(key) == Some(Json::Number(JsonNumber::Unsigned(n))) && n <= i64::MAX ==> signed_member(
            j,
            key,
        ) == Some(n as i64),
        j.member(key) == Some(Json::Number(JsonNumber::Unsigned(n))) && n > i64::MAX ==> signed_member(
            j,
            key,
        ) is None,
        j.member(key) == Some(Json::Number(JsonNumber::Negative(z))) ==> unsigned_member(j, key) is None
            && signed_member(j, key) == Some(z),
        j.member(key) is None ==> unsigned_member(j, key) is None && signed_member(j, key) is None,
        j.member(key) is Some && !(j.member(key)->0 is Number && !(j.member(key)->0->Number_0 is Float))
            ==> unsigned_member(j, key) is None && signed_member(j, key) is None,
{
}

/// A click at a point that the arguments give lands there, whatever the
/// platform looked up; a click at an element lands where the platform found
/// it, if it did; and what clicks nowhere lands nowhere.
pub proof fn law_given_points_come_first(
    x: Json,
    y: Json,
    window_id: u64,
    pid: i64,
    index: u32,
    looked_up: Option<(Json, Json)>,
)
    ensures
        point_at(ClickModel::Point { x, y }, looked_up) == Some((x, y)),
        point_at(ClickModel::Element { window_id, pid, index }, looked_up) == looked_up,
        point_at(ClickModel::Nowhere, looked_up) is None,
{
}

/// The names of the files beside a turn differ.
proof fn lemma_file_names(dir: Seq<char>)
    ensures
        joined(dir, "app_state.json"@) != joined(dir, "screenshot.png"@),
        joined(dir, "app_state.json"@).len() > joined(dir, "click.png"@).len(),
        joined(dir, "screenshot.png"@).len() > joined(dir, "click.png"@).len(),
{
    reveal_strlit("app_state.json");
    reveal_strlit("screenshot.png");
    reveal_strlit("click.png");
    let a = joined(dir, "app_state.json"@);
    let b = joined(dir, "screenshot.png"@);
    assert(a[a.len() - 14] == 'a');
    assert(b[b.len() - 14] == 's');
}

/// Beside a turn stand its accessibility snapshot, its screenshot and its
/// marked screenshot, each just where there is one, under its own name and as
/// it was captured, and nothing else.
pub proof fn law_captures_are_all_kept(
    dir: Seq<char>,
    app_state: Option<Seq<u8>>,
    screenshot: Option<Seq<u8>>,
    click_point: Option<(Json, Json)>,
    marked: Option<Seq<u8>>,
    path: Seq<char>,
    bytes: Seq<u8>,
)
    ensures
        turn_files_model(dir, app_state, screenshot, click_point, marked).contains((path, bytes)) <==> {
            ||| path == joined(dir, "app_state.json"@) && app_state == Some(bytes)
            ||| path == joined(dir, "screenshot.png"@) && screenshot == Some(bytes)
            ||| path == joined(dir, "click.png"@) && marked == Some(bytes) && screenshot is Some
                && click_point is Some
        },
        turn_files_model(dir, app_state, screenshot, click_point, marked).len() <= 3,
{
    lemma_file_names(dir);
    let files = turn_files_model(dir, app_state, screenshot, click_point, marked);
    let n: int = if app_state is Some {
        1
    } else {
        0
    };
    if app_state is Some {
        assert(files[0] == (joined(dir, "app_state.json"@), app_state->0));
    }
    if screenshot is Some {
        assert(files[n] == (joined(dir, "screenshot.png"@), screenshot->0));
        if click_point is Some && marked is Some {
            assert(files[n + 1] == (joined(dir, "click.png"@), marked->0));
        }
    }
    if files.contains((path, bytes)) {
        let i = choose|i: int| 0 <= i < files.len() && files[i] == (path, bytes);
        assert(i == 0 || i == 1 || i == 2);
    }
}

// The session's state

/// A start that is let in takes the live backends and moves the epoch on; the
/// recording that is live stays as it is until the start is made live.
pub proof fn law_starts_touch_only_the_backends<V, C>(m: RecordingModel<V, C>)
    ensures
        m.begun().video is None && m.begun().cursor is None,
        m.begun().start_epoch == m.start_epoch + 1,
        m.begun().enabled == m.enabled,
        m.begun().owner == m.owner,
        m.begun().output_dir == m.output_dir,
        m.begun().next_turn == m.next_turn,
        m.begun().session_start_ms == m.session_start_ms,
        m.begun().last_error == m.last_error,
        m.begun().last_video == m.last_video,
        m.begun().last_cursor_stats == m.last_cursor_stats,
{
}

/// A recording that is made live is its start's in all: its owner, its
/// directory, its backends and its error; its first turn is the first, its
/// time begins, and nothing is left of the recording before it.
pub proof fn law_live_recordings_are_their_starts<V, C>(
    m: RecordingModel<V, C>,
    epoch: nat,
    owner: Option<Seq<char>>,
    dir: Seq<char>,
    video: Option<V>,
    cursor: Option<C>,
    video_error: Option<Seq<char>>,
    now_ms: u64,
)
    ensures
        m.commits(epoch, false) <==> m.start_epoch == epoch,
        !m.commits(epoch, true),
        m.commits(epoch, false) ==> m.outcome(epoch, owner, false, dir, video, cursor) == (
        OutcomeModel::<V, C>::Committed { displaced_video: m.video, displaced_cursor: m.cursor }),
        ({
            let live = m.committed(owner, dir, video, cursor, video_error, now_ms);
            &&& live.enabled
            &&& live.owner == owner
            &&& live.output_dir == Some(dir)
            &&& live.next_turn == 1
            &&& live.session_start_ms == now_ms
            &&& live.last_error == video_error
            &&& live.video == video
            &&& live.cursor == cursor
            &&& live.last_video is None
            &&& live.last_cursor_stats.samples == 0 && live.last_cursor_stats.dropped_offscreen == 0
            &&& live.start_epoch == m.start_epoch
        }),
{
}

/// A start that is not made live gives its backends back, and says whether its
/// owner ended or it came too late.
pub proof fn law_refused_starts_get_their_backends_back<V, C>(
    m: RecordingModel<V, C>,
    epoch: nat,
    owner: Option<Seq<char>>,
    dead: bool,
    dir: Seq<char>,
    video: Option<V>,
    cursor: Option<C>,
)
    requires
        dead || m.start_epoch != epoch,
    ensures
        (m.outcome(epoch, owner, dead, dir, video, cursor) matches OutcomeModel::Aborted {
            video: v,
            cursor: c,
            finalize,
            error,
        } && v == video && c == cursor && finalize == m.finalizes(dir) && error == (if dead {
            ErrorModel::OwnerEnded(owner->0)
        } else {
            ErrorModel::Superseded
        })),
{
}

/// The `session.json` of a start that was not made live is completed, unless a
/// live recording writes to that very directory, however it is spelt.
pub proof fn law_live_files_are_left_alone<V, C>(m: RecordingModel<V, C>, dir: Seq<char>)
    ensures
        !m.enabled || m.output_dir is None ==> m.finalizes(dir),
        m.enabled && m.output_dir is Some ==> (m.finalizes(dir) <==> !same_components(
            m.output_dir->0,
            dir,
        )),
        m.enabled && m.output_dir == Some(dir) ==> !m.finalizes(dir),
        m.enabled && m.output_dir == Some(dir) && dir.len() > 0 ==> !m.finalizes(dir + seq!['/']),
{
    law_paths_are_compared_by_parts(dir, dir, dir);
}

/// A stop has effect just where a recording is live and the session that asks
/// owns it, or nobody in particular asks. It ends the recording; what is known
/// of errors, videos and cursors stays. Only a stop that nobody in particular
/// asks for moves the epoch on.
pub proof fn law_stops_end_the_recording<V, C>(
    m: RecordingModel<V, C>,
    requester: Option<Seq<char>>,
)
    ensures
        m.stops(requester) <==> m.enabled && (requester is None || m.owner == requester),
        ({
            let s = m.stopped(requester);
            &&& !s.enabled && s.owner is None && s.output_dir is None
            &&& s.video is None && s.cursor is None
            &&& s.next_turn == 1 && s.session_start_ms == 0
            &&& s.last_error == m.last_error
            &&& s.last_video == m.last_video
            &&& s.last_cursor_stats == m.last_cursor_stats
            &&& requester is None ==> s.start_epoch == m.start_epoch + 1
            &&& requester is Some ==> s.start_epoch == m.start_epoch
        }),
{
}

/// What the stopped backends report is kept: the video as it is, with its
/// error or its lack of one in the place of the last error, and the cursor's
/// tallies. A recording that is live meanwhile is not touched.
pub proof fn law_reports_are_kept<V, C>(
    m: RecordingModel<V, C>,
    video: Option<VideoModel>,
    stats: CursorStats,
)
    ensures
        ({
            let c = m.concluded(video, stats);
            &&& c.last_video == video
            &&& c.last_cursor_stats == stats
            &&& video matches Some(v) ==> c.last_error == v.error
            &&& video is None ==> c.last_error == m.last_error
            &&& c.enabled == m.enabled && c.owner == m.owner && c.output_dir == m.output_dir
            &&& c.next_turn == m.next_turn && c.session_start_ms == m.session_start_ms
            &&& c.video == m.video && c.cursor == m.cursor && c.start_epoch == m.start_epoch
        }),
{
}

/// A turn takes the next number, and a turn that could not be written leaves
/// its error; neither changes anything else.
pub proof fn law_turns_change_the_number_alone<V, C>(m: RecordingModel<V, C>, error: Seq<char>)
    ensures
        m.turned().next_turn == m.next_turn + 1,
        m.turned() == (RecordingModel::<V, C> { next_turn: m.turned().next_turn, ..m }),
        m.failed(error).last_error == Some(error),
        m.failed(error) == (RecordingModel::<V, C> { last_error: Some(error), ..m }),
        RecordingModel::<V, C>::fresh().next_turn == 1 && !RecordingModel::<V, C>::fresh().enabled,
        RecordingModel::<V, C>::fresh().start_epoch == 0,
{
}

/// As long as a recording that was made live stays live, its owner, its
/// directory and the moment that its turns count from stay as they were.
pub proof fn law_live_recordings_stay_as_they_are<V, C>(
    m: RecordingModel<V, C>,
    owner: Option<Seq<char>>,
    dir: Seq<char>,
    video: Option<V>,
    cursor: Option<C>,
    video_error: Option<Seq<char>>,
    now_ms: u64,
    steps: Seq<RecordingStep<V, C>>,
)
    requires
        forall|i: int|
            0 <= i < steps.len() ==> !switches(
                run(
                    m.committed(owner, dir, video, cursor, video_error, now_ms),
                    #[trigger] steps.take(i),
                ),
                steps[i],
            ),
    ensures
        ({
            let reached = run(
                m.committed(owner, dir, video, cursor, video_error, now_ms),
                steps,
            );
            reached.enabled && reached.owner == owner && reached.output_dir == Some(dir)
                && reached.session_start_ms == now_ms
        }),
    decreases steps.len(),
{
    let live = m.committed(owner, dir, video, cursor, video_error, now_ms);
    if steps.len() > 0 {
        let shorter = steps.drop_last();
        assert forall|i: int| 0 <= i < shorter.len() implies !switches(
            run(live, #[trigger] shorter.take(i)),
            shorter[i],
        ) by {
            assert(shorter.take(i) =~= steps.take(i));
        }
        law_live_recordings_stay_as_they_are(
            m,
            owner,
            dir,
            video,
            cursor,
            video_error,
            now_ms,
            shorter,
        );
        assert(steps.take(steps.len() - 1) =~= shorter);
    }
}

/// No backend is lost: what was live is handed out by the start or the stop
/// that ends it, and is live no more. A stop also tells where the recording
/// went.
pub proof fn law_no_backend_is_lost<V, C>(
    pre: RecordingModel<V, C>,
    requester: Option<Seq<char>>,
    stopped: StopTicket<V, C>,
    dir: Seq<char>,
    record_video: bool,
    owner: Option<Seq<char>>,
    owner_ended: bool,
    started: StartTicket<V, C>,
    post: RecordingModel<V, C>,
)
    ensures
        stop_effect(pre, requester, post, Some(stopped)) ==> {
            &&& stopped.video == pre.video && stopped.cursor == pre.cursor
            &&& text_of(stopped.dir) == pre.output_dir
            &&& post.video is None && post.cursor is None && !post.enabled
        },
        stop_effect(pre, requester, post, None) ==> post == pre && (!pre.enabled || (requester is Some
            && pre.owner != requester)),
        start_effect(pre, dir, record_video, owner, owner_ended, post, Ok(started)) ==> {
            &&& started.old_video == pre.video && started.old_cursor == pre.cursor
            &&& post.video is None && post.cursor is None
            &&& started.epoch == pre.start_epoch + 1
            &&& post.start_epoch == started.epoch
            &&& text_of(started.owner) == owner
            &&& started.dir@ == dir
            &&& started.cursor_path@ == joined(dir, "cursor.jsonl"@)
            &&& started.video_path is Some <==> record_video
            &&& started.video_path matches Some(p) ==> p@ == joined(dir, "recording.mp4"@)
            &&& owner is None || !owner_ended
        },
{
}

/// A start is refused just where its owner has ended, and then nothing
/// changes.
pub proof fn law_only_ended_owners_are_refused<V, C>(
    pre: RecordingModel<V, C>,
    dir: Seq<char>,
    record_video: bool,
    owner: Option<Seq<char>>,
    owner_ended: bool,
    post: RecordingModel<V, C>,
    r: Result<StartTicket<V, C>, RecordingError>,
)
    requires
        start_effect(pre, dir, record_video, owner, owner_ended, post, r),
    ensures
        r is Err <==> owner is Some && owner_ended,
        r matches Err(e) ==> e@ == ErrorModel::OwnerEnded(owner->0) && post == pre,
        r is Ok ==> post == pre.begun(),
{
}

/// A refused start says why, and names its owner where that has ended.
pub proof fn law_refusals_say_why(owner: String)
    ensures
        RecordingError::OwnerEnded(owner).words() == "session "@ + owner@
            + " has ended; refusing to start a recording owned by a dead session"@,
        RecordingError::Superseded.words()
            == "a concurrent start_recording or stop_recording superseded this start"@,
        RecordingError::MissingOutputDir.words() == "output_dir is required when enabling recording"@,
{
}

/// A tool call becomes a turn just while a recording is live: one in the
/// recording's directory, under the next number, with the call's tool, result
/// and beginning as they are, its arguments but for reserved keys, and the
/// recording's start to count from. The next call's turn goes elsewhere.
pub proof fn law_calls_become_turns<V, C>(
    pre: RecordingModel<V, C>,
    tool_name: Seq<char>,
    args: Json,
    result_text: Seq<char>,
    start_ms: u64,
    post: RecordingModel<V, C>,
    r: Option<PendingTurn>,
    next_args: Json,
    last: RecordingModel<V, C>,
    next: Option<PendingTurn>,
    key: Seq<char>,
)
    requires
        pre.valid(),
        record_effect(pre, tool_name, args, result_text, start_ms, post, r),
        record_effect(post, tool_name, next_args, result_text, start_ms, last, next),
    ensures
        r is Some <==> pre.enabled,
        r is None ==> post == pre,
        r is Some ==> next is Some,
        r matches Some(t) ==> {
            &&& t.dir@ == joined(pre.output_dir->0, "turn-"@ + zero_padded(decimal(pre.next_turn), 5))
            &&& t.tool_name@ == tool_name
            &&& t.result_text@ == result_text
            &&& t.start_ms == start_ms
            &&& t.session_start_ms == pre.session_start_ms
            &&& !(key.len() > 0 && key[0] == '_') ==> contents(t.args).member(key) == args.member(key)
            &&& key.len() > 0 && key[0] == '_' ==> contents(t.args).member(key) is None
            &&& post.next_turn == pre.next_turn + 1
            &&& post.enabled && post.owner == pre.owner && post.output_dir == pre.output_dir
            &&& post.session_start_ms == pre.session_start_ms
            &&& t.dir@ != next->0.dir@
        },
{
    law_recorded_arguments_hold_no_internal_keys(args, key);
    if r is Some {
        let dir = pre.output_dir->0;
        if joined(dir, turn_name(pre.next_turn)) == joined(dir, turn_name(post.next_turn)) {
            law_turn_directories_differ(dir, pre.next_turn, post.next_turn);
        }
    }
}

} // verus!
