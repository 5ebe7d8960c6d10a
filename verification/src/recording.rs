//! The trajectory recording session.
//!
//! One recording is live at a time. Starting it takes three steps, so that
//! slow backends never run while the session is locked: [`RecordingSession::start`]
//! displaces what is live and hands out a ticket, the caller brings up the
//! backends, and [`RecordingSession::commit_start`] makes them live, unless a
//! newer start, an unconditional stop or the end of the owning session came
//! in between. While a recording is live, each tool call becomes one
//! numbered turn directory.
use crate::json;
use crate::json::{contents, read_depth, readable, Json, JsonNumber};
use crate::path::{expand_tilde, expanded, join, joined, same_components, same_path};
use crate::text::{decimal, push_padded_decimal, same_text, zero_padded};
use crate::video::read_target;
use crate::video_laws::{law_recorded_turn_is_read_back, law_recorded_turns_are_readable};
use vstd::prelude::*;

verus! {

/// What is known of a video once its backend has stopped.
#[derive(Debug)]
pub struct VideoMetadata {
    pub path: String,
    pub duration_ms: u64,
    /// Whether the file was completed.
    pub finalized: bool,
    /// What went wrong with the capture, if anything did.
    pub error: Option<String>,
}

/// What [`VideoMetadata`] holds.
pub struct VideoModel {
    pub path: Seq<char>,
    pub duration_ms: u64,
    pub finalized: bool,
    pub error: Option<Seq<char>>,
}

/// The text of a string, where there is one.
pub open spec fn text_of(s: Option<String>) -> Option<Seq<char>> {
    match s {
        Some(t) => Some(t@),
        None => None,
    }
}

/// The text of a string slice, where there is one.
pub open spec fn text_in(s: Option<&str>) -> Option<Seq<char>> {
    match s {
        Some(t) => Some(t@),
        None => None,
    }
}

impl View for VideoMetadata {
    type V = VideoModel;

    open spec fn view(&self) -> VideoModel {
        VideoModel {
            path: self.path@,
            duration_ms: self.duration_ms,
            finalized: self.finalized,
            error: text_of(self.error),
        }
    }
}

/// The metadata of a video, where there is one.
pub open spec fn video_of(m: Option<VideoMetadata>) -> Option<VideoModel> {
    match m {
        Some(v) => Some(v@),
        None => None,
    }
}

fn copy_text(s: &Option<String>) -> (r: Option<String>)
    ensures
        text_of(r) == text_of(*s),
{
    match s {
        Some(t) => Some(t.clone()),
        None => None,
    }
}

fn own_text(s: Option<&str>) -> (r: Option<String>)
    ensures
        text_of(r) == text_in(s),
{
    match s {
        Some(t) => Some(t.to_owned()),
        None => None,
    }
}

/// The tallies of a cursor sampler.
#[derive(Debug, Clone, Copy, PartialEq, Eq)]
pub struct CursorStats {
    pub samples: u64,
    /// Polls skipped because the cursor was off the recorded monitor.
    pub dropped_offscreen: u64,
}

impl Default for CursorStats {
    fn default() -> (r: Self)
        ensures
            r.samples == 0,
            r.dropped_offscreen == 0,
    {
        CursorStats { samples: 0, dropped_offscreen: 0 }
    }
}

/// Why a recording request is refused.
#[derive(Debug)]
pub enum RecordingError {
    /// The session that would own the recording has ended.
    OwnerEnded(String),
    /// A newer start or an unconditional stop came first.
    Superseded,
    /// Recording is to be enabled, and no directory was given.
    MissingOutputDir,
}

/// What [`RecordingError`] holds.
pub enum ErrorModel {
    OwnerEnded(Seq<char>),
    Superseded,
    MissingOutputDir,
}

impl View for RecordingError {
    type V = ErrorModel;

    open spec fn view(&self) -> ErrorModel {
        match self {
            RecordingError::OwnerEnded(owner) => ErrorModel::OwnerEnded(owner@),
            RecordingError::Superseded => ErrorModel::Superseded,
            RecordingError::MissingOutputDir => ErrorModel::MissingOutputDir,
        }
    }
}

impl RecordingError {
    /// The text of [`RecordingError::message`].
    pub open spec fn words(self) -> Seq<char> {
        match self {
            RecordingError::OwnerEnded(owner) => "session "@ + owner@
                + " has ended; refusing to start a recording owned by a dead session"@,
            RecordingError::Superseded =>
                "a concurrent start_recording or stop_recording superseded this start"@,
            RecordingError::MissingOutputDir => "output_dir is required when enabling recording"@,
        }
    }

    /// The error in words.
    pub fn message(&self) -> (r: String)
        ensures
            r@ == self.words(),
    {
        match self {
            RecordingError::OwnerEnded(owner) => {
                let mut s = "session ".to_owned();
                s.append(owner.as_str());
                s.append(" has ended; refusing to start a recording owned by a dead session");
                s
            },
            RecordingError::Superseded =>
                "a concurrent start_recording or stop_recording superseded this start".to_owned(),
            RecordingError::MissingOutputDir =>
                "output_dir is required when enabling recording".to_owned(),
        }
    }
}

/// What a recording session holds. `V` and `C` stand for the live video
/// backend and cursor sampler.
pub struct RecordingModel<V, C> {
    pub enabled: bool,
    pub owner: Option<Seq<char>>,
    pub output_dir: Option<Seq<char>>,
    pub next_turn: nat,
    pub session_start_ms: u64,
    pub last_error: Option<Seq<char>>,
    pub video: Option<V>,
    pub last_video: Option<VideoModel>,
    pub cursor: Option<C>,
    pub last_cursor_stats: CursorStats,
    pub start_epoch: nat,
}

impl<V, C> RecordingModel<V, C> {
    /// The states that a session can be in.
    pub open spec fn valid(self) -> bool {
        &&& self.next_turn >= 1
        &&& self.enabled ==> self.output_dir is Some
        &&& !self.enabled ==> {
            &&& self.owner is None
            &&& self.output_dir is None
            &&& self.next_turn == 1
            &&& self.session_start_ms == 0
            &&& self.video is None
            &&& self.cursor is None
        }
    }

    /// The state of a session that has never recorded.
    pub open spec fn fresh() -> Self {
        RecordingModel {
            enabled: false,
            owner: None,
            output_dir: None,
            next_turn: 1,
            session_start_ms: 0,
            last_error: None,
            video: None,
            last_video: None,
            cursor: None,
            last_cursor_stats: CursorStats { samples: 0, dropped_offscreen: 0 },
            start_epoch: 0,
        }
    }

    /// The state after a start was let in: what was live is handed out, and
    /// the epoch moves on.
    pub open spec fn begun(self) -> Self {
        RecordingModel {
            video: None,
            cursor: None,
            start_epoch: self.start_epoch + 1,
            ..self
        }
    }

    /// Whether a start that was let in at `epoch` may still become live.
    pub open spec fn commits(self, epoch: nat, dead: bool) -> bool {
        !dead && self.start_epoch == epoch
    }

    /// The state after a start became live.
    pub open spec fn committed(
        self,
        owner: Option<Seq<char>>,
        dir: Seq<char>,
        video: Option<V>,
        cursor: Option<C>,
        video_error: Option<Seq<char>>,
        now_ms: u64,
    ) -> Self {
        RecordingModel {
            enabled: true,
            owner,
            output_dir: Some(dir),
            next_turn: 1,
            session_start_ms: now_ms,
            last_error: video_error,
            video,
            last_video: None,
            cursor,
            last_cursor_stats: CursorStats { samples: 0, dropped_offscreen: 0 },
            start_epoch: self.start_epoch,
        }
    }

    /// Whether a start into a directory that was not made live completes its
    /// `session.json`: not where a live recording writes to that directory.
    pub open spec fn finalizes(self, dir: Seq<char>) -> bool {
        !(self.enabled && self.output_dir is Some && same_components(self.output_dir->0, dir))
    }

    /// How a start that was let in at `epoch` ends. `dead` tells whether it
    /// has an owner and that owner has ended.
    pub open spec fn outcome(
        self,
        epoch: nat,
        owner: Option<Seq<char>>,
        dead: bool,
        dir: Seq<char>,
        video: Option<V>,
        cursor: Option<C>,
    ) -> OutcomeModel<V, C> {
        if self.commits(epoch, dead) {
            OutcomeModel::Committed { displaced_video: self.video, displaced_cursor: self.cursor }
        } else {
            OutcomeModel::Aborted {
                video,
                cursor,
                finalize: self.finalizes(dir),
                error: if dead {
                    ErrorModel::OwnerEnded(owner->0)
                } else {
                    ErrorModel::Superseded
                },
            }
        }
    }

    /// Whether a stop has any effect. One without a requester stops whatever
    /// is live; a session stops only what it owns.
    pub open spec fn stops(self, requester: Option<Seq<char>>) -> bool {
        self.enabled && (requester is Some ==> self.owner == requester)
    }

    /// The state after a stop that had effect. One without a requester moves
    /// the epoch on.
    pub open spec fn stopped(self, requester: Option<Seq<char>>) -> Self {
        RecordingModel {
            enabled: false,
            owner: None,
            output_dir: None,
            next_turn: 1,
            session_start_ms: 0,
            video: None,
            cursor: None,
            start_epoch: if requester is None {
                self.start_epoch + 1
            } else {
                self.start_epoch
            },
            ..self
        }
    }

    /// The state after the outcome of the stopped backends was taken in. The
    /// video's own error, or its lack of one, replaces what was known before.
    pub open spec fn concluded(self, video: Option<VideoModel>, stats: CursorStats) -> Self {
        RecordingModel {
            last_error: match video {
                Some(v) => v.error,
                None => self.last_error,
            },
            last_video: video,
            last_cursor_stats: stats,
            ..self
        }
    }

    /// The state after a turn was begun.
    pub open spec fn turned(self) -> Self {
        RecordingModel { next_turn: self.next_turn + 1, ..self }
    }

    /// The state after a turn could not be written.
    pub open spec fn failed(self, error: Seq<char>) -> Self {
        RecordingModel { last_error: Some(error), ..self }
    }
}

/// The recording session of a driver.
pub struct RecordingSession<V, C> {
    enabled: bool,
    /// The session that started the live recording. None owns one that was
    /// started anonymously.
    owner: Option<String>,
    output_dir: Option<String>,
    next_turn: u32,
    session_start_ms: u64,
    last_error: Option<String>,
    video: Option<V>,
    last_video: Option<VideoMetadata>,
    cursor: Option<C>,
    last_cursor_stats: CursorStats,
    /// Moves on with every start and every effective unconditional stop. A
    /// start that finds it moved at its commit has lost.
    start_epoch: u64,
}

impl<V, C> View for RecordingSession<V, C> {
    type V = RecordingModel<V, C>;

    closed spec fn view(&self) -> RecordingModel<V, C> {
        RecordingModel {
            enabled: self.enabled,
            owner: text_of(self.owner),
            output_dir: text_of(self.output_dir),
            next_turn: self.next_turn as nat,
            session_start_ms: self.session_start_ms,
            last_error: text_of(self.last_error),
            video: self.video,
            last_video: video_of(self.last_video),
            cursor: self.cursor,
            last_cursor_stats: self.last_cursor_stats,
            start_epoch: self.start_epoch as nat,
        }
    }
}

/// A snapshot of a recording session.
#[derive(Debug, Clone)]
pub struct RecordingState {
    pub enabled: bool,
    pub output_dir: Option<String>,
    pub next_turn: u32,
    pub last_error: Option<String>,
    /// Whether a video backend is live.
    pub video_active: bool,
    /// The most recently finished video, until the next start.
    pub last_video_path: Option<String>,
    /// The session that owns the live recording.
    pub owner: Option<String>,
}

/// A start that was let in: what to stop first, and where to write.
#[derive(Debug)]
pub struct StartTicket<V, C> {
    pub epoch: u64,
    pub owner: Option<String>,
    pub dir: String,
    /// Where the video goes, if one is to be recorded.
    pub video_path: Option<String>,
    pub cursor_path: String,
    /// Backends of the recording that this start displaces.
    pub old_video: Option<V>,
    pub old_cursor: Option<C>,
}

/// How a start ends.
#[derive(Debug)]
pub enum StartOutcome<V, C> {
    /// The recording is live. Backends that were live are to be stopped.
    Committed { displaced_video: Option<V>, displaced_cursor: Option<C> },
    /// The recording is not live. Its backends are to be stopped, and
    /// its `session.json` is to be completed if `finalize` says so.
    Aborted {
        video: Option<V>,
        cursor: Option<C>,
        finalize: bool,
        error: RecordingError,
    },
}

/// What [`StartOutcome`] holds.
pub enum OutcomeModel<V, C> {
    Committed { displaced_video: Option<V>, displaced_cursor: Option<C> },
    Aborted { video: Option<V>, cursor: Option<C>, finalize: bool, error: ErrorModel },
}

impl<V, C> View for StartOutcome<V, C> {
    type V = OutcomeModel<V, C>;

    open spec fn view(&self) -> OutcomeModel<V, C> {
        match self {
            StartOutcome::Committed { displaced_video, displaced_cursor } => OutcomeModel::Committed {
                displaced_video: *displaced_video,
                displaced_cursor: *displaced_cursor,
            },
            StartOutcome::Aborted { video, cursor, finalize, error } => OutcomeModel::Aborted {
                video: *video,
                cursor: *cursor,
                finalize: *finalize,
                error: error@,
            },
        }
    }
}

/// A stop that has effect: the backends to stop, and where the recording went.
#[derive(Debug)]
pub struct StopTicket<V, C> {
    pub dir: Option<String>,
    pub video: Option<V>,
    pub cursor: Option<C>,
}

/// What a stop does: the state before and after it, and the ticket it gives.
pub open spec fn stop_effect<V, C>(
    pre: RecordingModel<V, C>,
    requester: Option<Seq<char>>,
    post: RecordingModel<V, C>,
    r: Option<StopTicket<V, C>>,
) -> bool {
    match r {
        None => !pre.stops(requester) && post == pre,
        Some(t) => {
            &&& pre.stops(requester)
            &&& post == pre.stopped(requester)
            &&& text_of(t.dir) == pre.output_dir
            &&& t.video == pre.video
            &&& t.cursor == pre.cursor
        },
    }
}

/// What a start does: the state before and after it, and the ticket it gives.
/// `dir` is the directory in full.
pub open spec fn start_effect<V, C>(
    pre: RecordingModel<V, C>,
    dir: Seq<char>,
    record_video: bool,
    owner: Option<Seq<char>>,
    owner_ended: bool,
    post: RecordingModel<V, C>,
    r: Result<StartTicket<V, C>, RecordingError>,
) -> bool {
    match r {
        Err(e) => {
            &&& owner is Some && owner_ended
            &&& e@ == ErrorModel::OwnerEnded(owner->0)
            &&& post == pre
        },
        Ok(t) => {
            &&& !(owner is Some && owner_ended)
            &&& post == pre.begun()
            &&& t.epoch == post.start_epoch
            &&& text_of(t.owner) == owner
            &&& t.dir@ == dir
            &&& text_of(t.video_path) == (if record_video {
                Some(joined(dir, "recording.mp4"@))
            } else {
                None
            })
            &&& t.cursor_path@ == joined(dir, "cursor.jsonl"@)
            &&& t.old_video == pre.video
            &&& t.old_cursor == pre.cursor
        },
    }
}

/// What a change of configuration does: the state before and after it, and
/// what it asks for. `dir` is the directory in full, if one was given.
pub open spec fn configure_effect<V, C>(
    pre: RecordingModel<V, C>,
    enabled: bool,
    dir: Option<Seq<char>>,
    post: RecordingModel<V, C>,
    r: Result<ConfigureAction<V, C>, RecordingError>,
) -> bool {
    match r {
        Err(e) => enabled && dir is None && e@ == ErrorModel::MissingOutputDir && post == pre,
        Ok(ConfigureAction::Stop(t)) => !enabled && stop_effect(pre, None, post, t),
        Ok(ConfigureAction::Start(t)) => enabled && dir is Some && start_effect(
            pre,
            dir->0,
            true,
            None,
            false,
            post,
            Ok(t),
        ),
    }
}

/// What recording a tool call does: the state before and after it, and the
/// turn that is to be written.
pub open spec fn record_effect<V, C>(
    pre: RecordingModel<V, C>,
    tool_name: Seq<char>,
    args: Json,
    result_text: Seq<char>,
    start_ms: u64,
    post: RecordingModel<V, C>,
    r: Option<PendingTurn>,
) -> bool {
    match r {
        None => !pre.enabled && post == pre,
        Some(t) => {
            &&& pre.enabled
            &&& post == pre.turned()
            &&& t.dir@ == joined(pre.output_dir->0, turn_name(pre.next_turn))
            &&& t.tool_name@ == tool_name
            &&& t.result_text@ == result_text
            &&& t.start_ms == start_ms
            &&& t.session_start_ms == pre.session_start_ms
            &&& contents(t.args) == stripped(args)
        },
    }
}

/// What a change of configuration asks for.
#[derive(Debug)]
pub enum ConfigureAction<V, C> {
    /// Stop the backends, if the stop had any effect.
    Stop(Option<StopTicket<V, C>>),
    /// Bring up the backends of an anonymous recording with video.
    Start(StartTicket<V, C>),
}

/// The final `session.json` and the directory it belongs to.
#[derive(Debug)]
pub struct SessionFile {
    pub dir: String,
    pub value: serde_json::Value,
}

/// A turn that is to be written.
#[derive(Debug)]
pub struct PendingTurn {
    pub dir: String,
    pub tool_name: String,
    /// The arguments without internal keys.
    pub args: serde_json::Value,
    pub result_text: String,
    /// When the tool call began.
    pub start_ms: u64,
    /// When the recording began.
    pub session_start_ms: u64,
}

impl<V, C> RecordingSession<V, C> {
    /// Whether the session is in a valid state.
    pub open spec fn wf(self) -> bool {
        self@.valid()
    }

    /// A session that has never recorded.
    pub fn new() -> (r: Self)
        ensures
            r.wf(),
            r@ == RecordingModel::<V, C>::fresh(),
    {
        RecordingSession {
            enabled: false,
            owner: None,
            output_dir: None,
            next_turn: 1,
            session_start_ms: 0,
            last_error: None,
            video: None,
            last_video: None,
            cursor: None,
            last_cursor_stats: CursorStats { samples: 0, dropped_offscreen: 0 },
            start_epoch: 0,
        }
    }

    /// How many starts and unconditional stops there were.
    pub fn start_epoch(&self) -> (r: u64)
        ensures
            r == self@.start_epoch,
    {
        self.start_epoch
    }

    /// Lets a start in: hands out what is live and where the new recording
    /// is to be written. Refused where the owning session has ended; an
    /// anonymous start is never refused.
    pub fn start(
        &mut self,
        output_dir: &str,
        home: Option<&str>,
        record_video: bool,
        owner: Option<&str>,
        owner_ended: bool,
    ) -> (r: Result<StartTicket<V, C>, RecordingError>)
        requires
            old(self).wf(),
            !(owner is Some && owner_ended) ==> old(self)@.start_epoch < u64::MAX,
        ensures
            final(self).wf(),
            start_effect(
                old(self)@,
                expanded(output_dir@, text_in(home)),
                record_video,
                text_in(owner),
                owner_ended,
                final(self)@,
                r,
            ),
    {
        if let Some(o) = owner {
            if owner_ended {
                return Err(RecordingError::OwnerEnded(o.to_owned()));
            }
        }
        self.start_epoch = self.start_epoch + 1;
        let old_video = self.video.take();
        let old_cursor = self.cursor.take();
        let dir = expand_tilde(output_dir, home);
        let video_path = if record_video {
            Some(join(dir.as_str(), "recording.mp4"))
        } else {
            None
        };
        let cursor_path = join(dir.as_str(), "cursor.jsonl");
        Ok(
            StartTicket {
                epoch: self.start_epoch,
                owner: own_text(owner),
                dir,
                video_path,
                cursor_path,
                old_video,
                old_cursor,
            },
        )
    }

    /// Makes a start live, unless its owner has ended or it was superseded.
    /// One that is not made live leaves the session as it was; its
    /// `session.json` is to be completed unless a live recording writes to
    /// the same directory. `anchor_ms` is the moment from which the backends
    /// count their time; the turns count theirs from it too.
    pub fn commit_start(
        &mut self,
        epoch: u64,
        owner: Option<String>,
        owner_ended: bool,
        dir: String,
        video: Option<V>,
        cursor: Option<C>,
        video_error: Option<String>,
        anchor_ms: u64,
    ) -> (r: StartOutcome<V, C>)
        requires
            old(self).wf(),
        ensures
            final(self).wf(),
            ({
                let dead = owner is Some && owner_ended;
                &&& r@ == old(self)@.outcome(epoch as nat, text_of(owner), dead, dir@, video, cursor)
                &&& final(self)@ == (if old(self)@.commits(epoch as nat, dead) {
                    old(self)@.committed(
                        text_of(owner),
                        dir@,
                        video,
                        cursor,
                        text_of(video_error),
                        anchor_ms,
                    )
                } else {
                    old(self)@
                })
            }),
    {
        let dead = owner.is_some() && owner_ended;
        if dead || self.start_epoch != epoch {
            let winner = match &self.output_dir {
                Some(d) => self.enabled && same_path(d.as_str(), dir.as_str()),
                None => false,
            };
            let error = match owner {
                Some(o) => if owner_ended {
                    RecordingError::OwnerEnded(o)
                } else {
                    RecordingError::Superseded
                },
                None => RecordingError::Superseded,
            };
            return StartOutcome::Aborted { video, cursor, finalize: !winner, error };
        }
        let displaced_video = self.video.take();
        let displaced_cursor = self.cursor.take();
        self.video = video;
        self.cursor = cursor;
        self.owner = owner;
        self.enabled = true;
        self.output_dir = Some(dir);
        self.next_turn = 1;
        self.session_start_ms = anchor_ms;
        self.last_error = video_error;
        self.last_video = None;
        self.last_cursor_stats = CursorStats { samples: 0, dropped_offscreen: 0 };
        StartOutcome::Committed { displaced_video, displaced_cursor }
    }

    /// Stops the live recording, and hands out its backends. Nothing happens
    /// where none is live, or where the requesting session does not own it.
    pub fn stop_owner(&mut self, requester: Option<&str>) -> (r: Option<StopTicket<V, C>>)
        requires
            old(self).wf(),
            requester is None && old(self)@.enabled ==> old(self)@.start_epoch < u64::MAX,
        ensures
            final(self).wf(),
            stop_effect(old(self)@, text_in(requester), final(self)@, r),
    {
        if !self.enabled {
            return None;
        }
        match requester {
            Some(req) => {
                let owns = match &self.owner {
                    Some(o) => same_text(o.as_str(), req),
                    None => false,
                };
                if !owns {
                    return None;
                }
            },
            None => {
                self.start_epoch = self.start_epoch + 1;
            },
        }
        self.owner = None;
        let dir = self.output_dir.take();
        let video = self.video.take();
        let cursor = self.cursor.take();
        self.enabled = false;
        self.next_turn = 1;
        self.session_start_ms = 0;
        Some(StopTicket { dir, video, cursor })
    }

    /// Takes in what the stopped backends report, and gives the final
    /// `session.json`. `video` is missing where none ran or its stop failed.
    pub fn finish_stop(
        &mut self,
        dir: Option<String>,
        video: Option<VideoMetadata>,
        stats: CursorStats,
        now_ms: u64,
    ) -> (r: Option<SessionFile>)
        requires
            old(self).wf(),
        ensures
            final(self).wf(),
            final(self)@ == old(self)@.concluded(video_of(video), stats),
            r is Some <==> dir is Some,
            r matches Some(f) ==> f.dir@ == dir->0@ && contents(f.value)
                == session_json(now_ms, finished_video_json(video_of(video)), cursor_json(stats)),
    {
        if let Some(m) = &video {
            self.last_error = copy_text(&m.error);
        }
        let file = match dir {
            Some(d) => {
                let value = finished_session_payload(now_ms, &video, stats);
                Some(SessionFile { dir: d, value })
            },
            None => None,
        };
        self.last_video = video;
        self.last_cursor_stats = stats;
        file
    }

    /// Turns recording off, or on with video and without an owner.
    pub fn configure(&mut self, enabled: bool, output_dir: Option<&str>, home: Option<&str>) -> (r:
        Result<ConfigureAction<V, C>, RecordingError>)
        requires
            old(self).wf(),
            (if enabled {
                output_dir is Some
            } else {
                old(self)@.enabled
            }) ==> old(self)@.start_epoch < u64::MAX,
        ensures
            final(self).wf(),
            configure_effect(
                old(self)@,
                enabled,
                (match output_dir {
                    Some(d) => Some(expanded(d@, text_in(home))),
                    None => None,
                }),
                final(self)@,
                r,
            ),
    {
        if !enabled {
            return Ok(ConfigureAction::Stop(self.stop_owner(None)));
        }
        match output_dir {
            None => Err(RecordingError::MissingOutputDir),
            Some(dir) => match self.start(dir, home, true, None, false) {
                Ok(t) => Ok(ConfigureAction::Start(t)),
                Err(e) => Err(e),
            },
        }
    }

    /// A snapshot of the session.
    pub fn current_state(&self) -> (r: RecordingState)
        ensures
            r.enabled == self@.enabled,
            text_of(r.output_dir) == self@.output_dir,
            r.next_turn == self@.next_turn,
            text_of(r.last_error) == self@.last_error,
            r.video_active == self@.video is Some,
            text_of(r.last_video_path) == (match self@.last_video {
                Some(v) => Some(v.path),
                None => None,
            }),
            text_of(r.owner) == self@.owner,
    {
        RecordingState {
            enabled: self.enabled,
            output_dir: copy_text(&self.output_dir),
            next_turn: self.next_turn,
            last_error: copy_text(&self.last_error),
            video_active: self.video.is_some(),
            last_video_path: match &self.last_video {
                Some(m) => Some(m.path.clone()),
                None => None,
            },
            owner: copy_text(&self.owner),
        }
    }

    /// Begins the turn of a finished tool call; nothing while no recording is
    /// live. Internal keys never reach the recorded arguments.
    pub fn record(
        &mut self,
        tool_name: &str,
        args: &serde_json::Value,
        result_text: &str,
        start_ms: u64,
    ) -> (r: Option<PendingTurn>)
        requires
            old(self).wf(),
            old(self)@.enabled ==> old(self)@.next_turn < u32::MAX,
        ensures
            final(self).wf(),
            record_effect(
                old(self)@,
                tool_name@,
                contents(*args),
                result_text@,
                start_ms,
                final(self)@,
                r,
            ),
    {
        if !self.enabled {
            return None;
        }
        let dir = match &self.output_dir {
            Some(out) => {
                let mut name = "turn-".to_owned();
                push_padded_decimal(&mut name, self.next_turn as u64, 5);
                join(out.as_str(), name.as_str())
            },
            None => {
                return None;
            },
        };
        self.next_turn = self.next_turn + 1;
        Some(
            PendingTurn {
                dir,
                tool_name: tool_name.to_owned(),
                args: strip_internal_keys(args),
                result_text: result_text.to_owned(),
                start_ms,
                session_start_ms: self.session_start_ms,
            },
        )
    }

    /// Notes that a turn could not be written.
    pub fn record_failed(&mut self, error: String)
        requires
            old(self).wf(),
        ensures
            final(self).wf(),
            final(self)@ == old(self)@.failed(error@),
    {
        self.last_error = Some(error);
    }
}

impl<V, C> Default for RecordingSession<V, C> {
    fn default() -> (r: Self)
        ensures
            r.wf(),
            r@ == RecordingModel::<V, C>::fresh(),
    {
        RecordingSession::new()
    }
}

/// The directory name of a turn.
pub open spec fn turn_name(index: nat) -> Seq<char> {
    "turn-"@ + zero_padded(decimal(index), 5)
}

/// Whether a key is reserved for the driver itself.
pub open spec fn internal(key: Seq<char>) -> bool {
    key.len() > 0 && key[0] == '_'
}

/// A value without the members whose keys are reserved.
pub open spec fn stripped(j: Json) -> Json {
    match j {
        Json::Object(fields) => Json::Object(
            fields.restrict(Set::new(|k: Seq<char>| !internal(k))),
        ),
        _ => j,
    }
}

/// Drops the reserved keys of a tool call's arguments.
pub fn strip_internal_keys(args: &serde_json::Value) -> (r: serde_json::Value)
    ensures
        contents(r) == stripped(contents(*args)),
{
    let keys = match json::keys(args) {
        None => {
            return json::copy(args);
        },
        Some(ks) => ks,
    };
    let ghost fields = contents(*args)->Object_0;
    let mut out = json::object();
    let mut i: usize = 0;
    assert(Map::<Seq<char>, Json>::empty() =~= fields.restrict(
        Set::new(|k: Seq<char>| !internal(k) && exists|j: int| 0 <= j < 0 && #[trigger] keys@[j]@ == k),
    ));
    while i < keys.len()
        invariant
            i <= keys.len(),
            contents(*args) == Json::Object(fields),
            forall|j: int| 0 <= j < keys@.len() ==> fields.dom().contains(#[trigger] keys@[j]@),
            contents(out) == Json::Object(
                fields.restrict(
                    Set::new(
                        |k: Seq<char>|
                            !internal(k) && exists|j: int| 0 <= j < i && #[trigger] keys@[j]@ == k,
                    ),
                ),
            ),
        decreases keys.len() - i,
    {
        let key = keys[i].as_str();
        let ghost before = fields.restrict(
            Set::new(
                |k: Seq<char>|
                    !internal(k) && exists|j: int| 0 <= j < i && #[trigger] keys@[j]@ == k,
            ),
        );
        let reserved = key.unicode_len() > 0 && key.get_char(0) == '_';
        if !reserved {
            if let Some(item) = json::member(args, key) {
                json::set_member(&mut out, key, json::copy(item));
            }
        }
        let ghost after = fields.restrict(
            Set::new(
                |k: Seq<char>|
                    !internal(k) && exists|j: int| 0 <= j < i + 1 && #[trigger] keys@[j]@ == k,
            ),
        );
        proof {
            assert(keys@[i as int]@ == key@);
            if reserved {
                assert(after =~= before);
            } else {
                assert(after =~= before.insert(key@, fields[key@]));
            }
        }
        i += 1;
    }
    assert(fields.restrict(
        Set::new(
            |k: Seq<char>|
                !internal(k) && exists|j: int| 0 <= j < i && #[trigger] keys@[j]@ == k,
        ),
    ) =~= fields.restrict(Set::new(|k: Seq<char>| !internal(k))));
    out
}

/// The `cursor` field of a finished `session.json`.
pub open spec fn cursor_json(stats: CursorStats) -> Json {
    Json::Object(
        Map::empty().insert("present"@, Json::Bool(stats.samples > 0)).insert(
            "sample_count"@,
            Json::Number(JsonNumber::Unsigned(stats.samples)),
        ).insert(
            "dropped_offscreen"@,
            Json::Number(JsonNumber::Unsigned(stats.dropped_offscreen)),
        ),
    )
}

/// The `cursor` field of a `session.json` at the start.
pub open spec fn starting_cursor_json(present: bool) -> Json {
    Json::Object(
        Map::empty().insert("present"@, Json::Bool(present)).insert(
            "sample_count"@,
            Json::Number(JsonNumber::Unsigned(0)),
        ),
    )
}

/// The members of a `video` field, with an error where there is one.
pub open spec fn with_error(fields: Map<Seq<char>, Json>, error: Option<Seq<char>>) -> Json {
    match error {
        Some(e) => Json::Object(fields.insert("error"@, Json::Text(e))),
        None => Json::Object(fields),
    }
}

/// The `video` field of a `session.json`. Without video it says so, and why
/// if that is known; of a video that is being recorded it names the file; of
/// a finished one it tells all that is known.
pub open spec fn video_json(
    present: bool,
    error: Option<Seq<char>>,
    meta: Option<VideoModel>,
) -> Json {
    if !present {
        with_error(Map::empty().insert("present"@, Json::Bool(false)), error)
    } else {
        let named = Map::empty().insert("present"@, Json::Bool(true)).insert(
            "path"@,
            Json::Text("recording.mp4"@),
        );
        match meta {
            Some(m) => with_error(
                named.insert("absolute_path"@, Json::Text(m.path)).insert(
                    "duration_ms"@,
                    Json::Number(JsonNumber::Unsigned(m.duration_ms)),
                ).insert("finalized"@, Json::Bool(m.finalized)),
                m.error,
            ),
            None => Json::Object(named),
        }
    }
}

/// The `video` field of a finished `session.json`.
pub open spec fn finished_video_json(meta: Option<VideoModel>) -> Json {
    video_json(meta is Some, None, meta)
}

/// A `session.json`.
pub open spec fn session_json(now_ms: u64, video: Json, cursor: Json) -> Json {
    Json::Object(
        Map::empty().insert("schema_version"@, Json::Number(JsonNumber::Unsigned(1))).insert(
            "started_at_monotonic_ms"@,
            Json::Number(JsonNumber::Unsigned(now_ms)),
        ).insert("video"@, video).insert("cursor"@, cursor),
    )
}

/// The `cursor` field of a finished `session.json`.
pub fn cursor_session_payload(stats: CursorStats) -> (r: serde_json::Value)
    ensures
        contents(r) == cursor_json(stats),
{
    let mut o = json::object();
    json::set_member(&mut o, "present", json::boolean(stats.samples > 0));
    json::set_member(&mut o, "sample_count", json::unsigned(stats.samples));
    json::set_member(&mut o, "dropped_offscreen", json::unsigned(stats.dropped_offscreen));
    o
}

/// The `video` field of a `session.json`.
pub fn video_session_payload(
    present: bool,
    error: Option<&str>,
    meta: Option<&VideoMetadata>,
) -> (r: serde_json::Value)
    ensures
        contents(r) == video_json(
            present,
            text_in(error),
            match meta {
                Some(m) => Some(m@),
                None => None,
            },
        ),
{
    let mut o = json::object();
    if !present {
        json::set_member(&mut o, "present", json::boolean(false));
        if let Some(e) = error {
            json::set_member(&mut o, "error", json::text(e));
        }
        return o;
    }
    json::set_member(&mut o, "present", json::boolean(true));
    json::set_member(&mut o, "path", json::text("recording.mp4"));
    if let Some(m) = meta {
        json::set_member(&mut o, "absolute_path", json::text(m.path.as_str()));
        json::set_member(&mut o, "duration_ms", json::unsigned(m.duration_ms));
        json::set_member(&mut o, "finalized", json::boolean(m.finalized));
        if let Some(e) = &m.error {
            json::set_member(&mut o, "error", json::text(e.as_str()));
        }
    }
    o
}

fn session_payload(now_ms: u64, video: serde_json::Value, cursor: serde_json::Value) -> (r:
    serde_json::Value)
    ensures
        contents(r) == session_json(now_ms, contents(video), contents(cursor)),
{
    let mut o = json::object();
    json::set_member(&mut o, "schema_version", json::unsigned(1));
    json::set_member(&mut o, "started_at_monotonic_ms", json::unsigned(now_ms));
    json::set_member(&mut o, "video", video);
    json::set_member(&mut o, "cursor", cursor);
    o
}

/// The `session.json` that a start writes. Video is present where its backend
/// came up, whatever was asked for.
pub fn starting_session_payload(
    now_ms: u64,
    video_started: bool,
    video_error: Option<&str>,
    cursor_started: bool,
) -> (r: serde_json::Value)
    ensures
        contents(r) == session_json(
            now_ms,
            video_json(video_started, text_in(video_error), None),
            starting_cursor_json(cursor_started),
        ),
{
    let mut cursor = json::object();
    json::set_member(&mut cursor, "present", json::boolean(cursor_started));
    json::set_member(&mut cursor, "sample_count", json::unsigned(0));
    session_payload(now_ms, video_session_payload(video_started, video_error, None), cursor)
}

/// The `session.json` of a recording whose backends have stopped, or of a
/// start that was aborted.
pub fn finished_session_payload(
    now_ms: u64,
    video: &Option<VideoMetadata>,
    stats: CursorStats,
) -> (r: serde_json::Value)
    ensures
        contents(r) == session_json(
            now_ms,
            finished_video_json(video_of(*video)),
            cursor_json(stats),
        ),
{
    let block = match video {
        Some(m) => video_session_payload(true, None, Some(m)),
        None => video_session_payload(false, None, None),
    };
    session_payload(now_ms, block, cursor_session_payload(stats))
}

/// The `session.json` of a start that was not made live, once its backends
/// have stopped; none where another recording writes to the directory.
pub fn abort_uncommitted_start(
    dir: String,
    video: Option<VideoMetadata>,
    stats: CursorStats,
    finalize: bool,
    now_ms: u64,
) -> (r: Option<SessionFile>)
    ensures
        r is Some <==> finalize,
        r matches Some(f) ==> f.dir@ == dir@ && contents(f.value) == session_json(
            now_ms,
            finished_video_json(video_of(video)),
            cursor_json(stats),
        ),
{
    if !finalize {
        return None;
    }
    Some(SessionFile { dir, value: finished_session_payload(now_ms, &video, stats) })
}

// Writing turns

/// Whether a tool clicks somewhere.
pub open spec fn clicks(tool_name: Seq<char>) -> bool {
    tool_name == "click"@ || tool_name == "double_click"@ || tool_name == "right_click"@
}

/// Where a click lands, as far as the arguments tell.
#[derive(Debug)]
pub enum ClickSource {
    /// Nothing was clicked, or nothing tells where.
    Nowhere,
    /// The point that the arguments give.
    Point { x: serde_json::Value, y: serde_json::Value },
    /// An element whose place the platform has to look up.
    Element { window_id: u64, pid: i64, index: u32 },
}

/// What [`ClickSource`] holds.
pub enum ClickModel {
    Nowhere,
    Point { x: Json, y: Json },
    Element { window_id: u64, pid: i64, index: u32 },
}

impl View for ClickSource {
    type V = ClickModel;

    open spec fn view(&self) -> ClickModel {
        match self {
            ClickSource::Nowhere => ClickModel::Nowhere,
            ClickSource::Point { x, y } => ClickModel::Point { x: contents(*x), y: contents(*y) },
            ClickSource::Element { window_id, pid, index } => ClickModel::Element {
                window_id: *window_id,
                pid: *pid,
                index: *index,
            },
        }
    }
}

/// The member of an object as an unsigned integer.
pub open spec fn unsigned_member(j: Json, key: Seq<char>) -> Option<u64> {
    match j.member(key) {
        Some(m) => m.unsigned(),
        None => None,
    }
}

/// The member of an object as a signed integer.
pub open spec fn signed_member(j: Json, key: Seq<char>) -> Option<i64> {
    match j.member(key) {
        Some(m) => m.signed(),
        None => None,
    }
}

/// The member of an object as a floating-point number.
pub open spec fn float_member(j: Json, key: Seq<char>) -> Option<Json> {
    match j.member(key) {
        Some(Json::Number(n)) => Some(Json::Number(json::float_of(n))),
        _ => None,
    }
}

/// Where a tool call clicks: at `x` and `y` where both are numbers, else at
/// the element that a window, a process and an index name together.
pub open spec fn click_model(tool_name: Seq<char>, args: Json) -> ClickModel {
    if !clicks(tool_name) {
        ClickModel::Nowhere
    } else {
        match (float_member(args, "x"@), float_member(args, "y"@)) {
            (Some(x), Some(y)) => ClickModel::Point { x, y },
            _ => match (
                unsigned_member(args, "window_id"@),
                signed_member(args, "pid"@),
                unsigned_member(args, "element_index"@),
            ) {
                (Some(window_id), Some(pid), Some(index)) => if index <= u32::MAX {
                    ClickModel::Element { window_id, pid, index: index as u32 }
                } else {
                    ClickModel::Nowhere
                },
                _ => ClickModel::Nowhere,
            },
        }
    }
}

/// The members of a value that can be read back can be, one level less deep.
proof fn lemma_members_are_readable(j: Json, key: Seq<char>, depth: nat)
    requires
        readable(j, depth),
        j.member(key) is Some,
    ensures
        depth > 0,
        readable(j.member(key)->0, (depth - 1) as nat),
{
    assert(j->Object_0.dom().contains(key));
}

fn opt_unsigned(args: &serde_json::Value, key: &str) -> (r: Option<u64>)
    ensures
        r == unsigned_member(contents(*args), key@),
{
    match json::member(args, key) {
        Some(m) => json::as_unsigned(m),
        None => None,
    }
}

fn opt_signed(args: &serde_json::Value, key: &str) -> (r: Option<i64>)
    ensures
        r == signed_member(contents(*args), key@),
{
    match json::member(args, key) {
        Some(m) => json::as_signed(m),
        None => None,
    }
}

fn opt_float(args: &serde_json::Value, key: &str) -> (r: Option<serde_json::Value>)
    ensures
        (match r {
            Some(f) => {
                &&& float_member(contents(*args), key@) == Some(contents(f))
                &&& contents(f) is Number && contents(f)->Number_0 is Float
                &&& forall|depth: nat|
                    readable(contents(*args)->Object_0[key@], depth) ==> #[trigger] readable(
                        contents(f),
                        depth,
                    )
            },
            None => float_member(contents(*args), key@) is None,
        }),
{
    match json::member(args, key) {
        Some(m) => json::as_float(m),
        None => None,
    }
}

/// Where a tool call clicks. A point that the arguments give is a pair of
/// floats, and can be read back where the arguments can.
pub fn click_source(tool_name: &str, args: &serde_json::Value) -> (r: ClickSource)
    ensures
        r@ == click_model(tool_name@, contents(*args)),
        r@ matches ClickModel::Point { x, y } ==> x is Number && x->Number_0 is Float && y is Number
            && y->Number_0 is Float,
        r@ matches ClickModel::Point { x, y } ==> (readable(
            contents(*args),
            (read_depth() - 1) as nat,
        ) ==> readable(x, (read_depth() - 2) as nat) && readable(y, (read_depth() - 2) as nat)),
{
    if !(same_text(tool_name, "click") || same_text(tool_name, "double_click") || same_text(
        tool_name,
        "right_click",
    )) {
        return ClickSource::Nowhere;
    }
    match (opt_float(args, "x"), opt_float(args, "y")) {
        (Some(x), Some(y)) => {
            proof {
                let j = contents(*args);
                let depth = (read_depth() - 1) as nat;
                if readable(j, depth) {
                    lemma_members_are_readable(j, "x"@, depth);
                    lemma_members_are_readable(j, "y"@, depth);
                }
            }
            ClickSource::Point { x, y }
        },
        _ => match (
            opt_unsigned(args, "window_id"),
            opt_signed(args, "pid"),
            opt_unsigned(args, "element_index"),
        ) {
            (Some(window_id), Some(pid), Some(index)) => if index <= u32::MAX as u64 {
                ClickSource::Element { window_id, pid, index: index as u32 }
            } else {
                ClickSource::Nowhere
            },
            _ => ClickSource::Nowhere,
        },
    }
}

/// The window and the process that a turn's screenshot and snapshot are taken
/// of.
pub fn capture_target(args: &serde_json::Value) -> (r: (Option<u64>, Option<i64>))
    ensures
        r.0 == unsigned_member(contents(*args), "window_id"@),
        r.1 == signed_member(contents(*args), "pid"@),
{
    (opt_unsigned(args, "window_id"), opt_signed(args, "pid"))
}

/// The time from one moment to another; zero where it would be negative.
pub open spec fn elapsed(from_ms: u64, to_ms: u64) -> u64 {
    if to_ms >= from_ms {
        (to_ms - from_ms) as u64
    } else {
        0
    }
}

/// The `action.json` of a turn.
pub open spec fn action_json(
    tool_name: Seq<char>,
    args: Json,
    result_text: Seq<char>,
    timestamp: Seq<char>,
    elapsed_ms: u64,
    start_elapsed_ms: u64,
    click_point: Option<(Json, Json)>,
) -> Json {
    let fields = Map::empty().insert("tool"@, Json::Text(tool_name)).insert("arguments"@, args).insert(
        "result_summary"@,
        Json::Text(result_text),
    ).insert("timestamp"@, Json::Text(timestamp)).insert(
        "t_ms_from_session_start"@,
        Json::Number(JsonNumber::Unsigned(elapsed_ms)),
    ).insert(
        "t_start_ms_from_session_start"@,
        Json::Number(JsonNumber::Unsigned(start_elapsed_ms)),
    );
    match click_point {
        Some((x, y)) => Json::Object(
            fields.insert("click_point"@, Json::Object(Map::empty().insert("x"@, x).insert("y"@, y))),
        ),
        None => Json::Object(fields),
    }
}

/// What a click point holds, where there is one.
pub open spec fn point_of(p: Option<(serde_json::Value, serde_json::Value)>) -> Option<(Json, Json)> {
    match p {
        Some((x, y)) => Some((contents(x), contents(y))),
        None => None,
    }
}

/// Where the click of a turn landed: nowhere, at the point that the arguments
/// give, or where the platform found the element, if it did.
pub open spec fn point_at(source: ClickModel, looked_up: Option<(Json, Json)>) -> Option<(Json, Json)> {
    match source {
        ClickModel::Nowhere => None,
        ClickModel::Point { x, y } => Some((x, y)),
        ClickModel::Element { .. } => looked_up,
    }
}

/// Where the click of a turn landed. `looked_up` is where the platform found
/// the element that was clicked, if one was to be looked up.
pub fn click_point(
    source: ClickSource,
    looked_up: Option<(serde_json::Value, serde_json::Value)>,
) -> (r: Option<(serde_json::Value, serde_json::Value)>)
    ensures
        point_of(r) == point_at(source@, point_of(looked_up)),
{
    match source {
        ClickSource::Nowhere => None,
        ClickSource::Point { x, y } => Some((x, y)),
        ClickSource::Element { .. } => looked_up,
    }
}

/// The `action.json` of a turn, given the time, that time in words, and where
/// the click landed.
pub fn write_turn(
    turn: &PendingTurn,
    now_ms: u64,
    timestamp: &str,
    click_point: Option<(serde_json::Value, serde_json::Value)>,
) -> (r: serde_json::Value)
    ensures
        contents(r) == action_json(
            turn.tool_name@,
            contents(turn.args),
            turn.result_text@,
            timestamp@,
            elapsed(turn.session_start_ms, now_ms),
            elapsed(turn.session_start_ms, turn.start_ms),
            point_of(click_point),
        ),
{
    let mut o = json::object();
    json::set_member(&mut o, "tool", json::text(turn.tool_name.as_str()));
    json::set_member(&mut o, "arguments", json::copy(&turn.args));
    json::set_member(&mut o, "result_summary", json::text(turn.result_text.as_str()));
    json::set_member(&mut o, "timestamp", json::text(timestamp));
    json::set_member(
        &mut o,
        "t_ms_from_session_start",
        json::unsigned(now_ms.saturating_sub(turn.session_start_ms)),
    );
    json::set_member(
        &mut o,
        "t_start_ms_from_session_start",
        json::unsigned(turn.start_ms.saturating_sub(turn.session_start_ms)),
    );
    if let Some((x, y)) = click_point {
        let mut p = json::object();
        json::set_member(&mut p, "x", x);
        json::set_member(&mut p, "y", y);
        json::set_member(&mut o, "click_point", p);
    }
    o
}

/// A file that belongs to a turn.
#[derive(Debug)]
pub struct TurnFile {
    pub path: String,
    pub bytes: Vec<u8>,
}

/// What a file holds, with its place.
pub open spec fn file_of(f: TurnFile) -> (Seq<char>, Seq<u8>) {
    (f.path@, f.bytes@)
}

/// The bytes of a capture, where there is one.
pub open spec fn bytes_of(b: Option<Vec<u8>>) -> Option<Seq<u8>> {
    match b {
        Some(v) => Some(v@),
        None => None,
    }
}

/// The file that holds a capture, if there is one.
pub open spec fn captured(dir: Seq<char>, name: Seq<char>, bytes: Option<Seq<u8>>) -> Seq<
    (Seq<char>, Seq<u8>),
> {
    match bytes {
        Some(b) => seq![(joined(dir, name), b)],
        None => Seq::empty(),
    }
}

/// The files that stand beside a turn's `action.json`. A marked screenshot
/// comes only with a screenshot, and only where the turn has a click point.
pub open spec fn turn_files_model(
    dir: Seq<char>,
    app_state: Option<Seq<u8>>,
    screenshot: Option<Seq<u8>>,
    click_point: Option<(Json, Json)>,
    marked: Option<Seq<u8>>,
) -> Seq<(Seq<char>, Seq<u8>)> {
    captured(dir, "app_state.json"@, app_state) + captured(dir, "screenshot.png"@, screenshot) + (
    if screenshot is Some && click_point is Some {
        captured(dir, "click.png"@, marked)
    } else {
        Seq::empty()
    })
}

/// The files that stand beside a turn's `action.json`: the accessibility
/// snapshot, the screenshot, and the screenshot with the click marked in it.
pub fn turn_files(
    turn: &PendingTurn,
    app_state: Option<Vec<u8>>,
    screenshot: Option<Vec<u8>>,
    click_point: &Option<(serde_json::Value, serde_json::Value)>,
    marked: Option<Vec<u8>>,
) -> (r: Vec<TurnFile>)
    ensures
        r@.map_values(|f: TurnFile| file_of(f)) == turn_files_model(
            turn.dir@,
            bytes_of(app_state),
            bytes_of(screenshot),
            point_of(*click_point),
            bytes_of(marked),
        ),
{
    let mut r: Vec<TurnFile> = Vec::new();
    let ghost all = turn_files_model(
        turn.dir@,
        bytes_of(app_state),
        bytes_of(screenshot),
        point_of(*click_point),
        bytes_of(marked),
    );
    if let Some(bytes) = app_state {
        r.push(TurnFile { path: join(turn.dir.as_str(), "app_state.json"), bytes });
    }
    if let Some(bytes) = screenshot {
        r.push(TurnFile { path: join(turn.dir.as_str(), "screenshot.png"), bytes });
        if click_point.is_some() {
            if let Some(bytes) = marked {
                r.push(TurnFile { path: join(turn.dir.as_str(), "click.png"), bytes });
            }
        }
    }
    assert(r@.map_values(|f: TurnFile| file_of(f)) =~= all);
    r
}

/// A document that replaces another in one step: it is written beside it and
/// then renamed.
#[derive(Debug)]
pub struct AtomicWrite {
    pub temporary: String,
    pub path: String,
    pub text: String,
}

/// How to write `<stem>.json` in a directory so that no reader ever sees part
/// of it.
pub fn write_json_atomic(dir: &str, stem: &str, value: &serde_json::Value) -> (r: Result<
    AtomicWrite,
    serde_json::Error,
>)
    ensures
        r is Ok,
        r->Ok_0.temporary@ == joined(dir@, stem@ + ".tmp"@),
        r->Ok_0.path@ == joined(dir@, stem@ + ".json"@),
        r->Ok_0.temporary@ != r->Ok_0.path@,
        r->Ok_0.text@ == json::pretty_text(contents(*value)),
        readable(contents(*value), read_depth()) ==> json::parsed(r->Ok_0.text@) is Some
            && json::same_outline(contents(*value), json::parsed(r->Ok_0.text@)->0),
{
    let mut temporary = stem.to_owned();
    temporary.append(".tmp");
    let mut name = stem.to_owned();
    name.append(".json");
    proof {
        reveal_strlit(".tmp");
        reveal_strlit(".json");
        assert(temporary@.len() + 1 == name@.len());
        assert(temporary@[0] == name@[0]);
    }
    match json::pretty(value) {
        Ok(text) => Ok(
            AtomicWrite {
                temporary: join(dir, temporary.as_str()),
                path: join(dir, name.as_str()),
                text,
            },
        ),
        Err(e) => Err(e),
    }
}

/// How to write the `action.json` of a turn. Where the arguments can be read
/// back, a video later reads from it the time of the turn and whether the
/// arguments name a window or a process.
pub fn turn_document(
    turn: &PendingTurn,
    now_ms: u64,
    timestamp: &str,
    click_point: Option<(serde_json::Value, serde_json::Value)>,
) -> (r: Result<AtomicWrite, serde_json::Error>)
    ensures
        r is Ok,
        r->Ok_0.temporary@ == joined(turn.dir@, "action"@ + ".tmp"@),
        r->Ok_0.path@ == joined(turn.dir@, "action"@ + ".json"@),
        r->Ok_0.text@ == json::pretty_text(
            action_json(
                turn.tool_name@,
                contents(turn.args),
                turn.result_text@,
                timestamp@,
                elapsed(turn.session_start_ms, now_ms),
                elapsed(turn.session_start_ms, turn.start_ms),
                point_of(click_point),
            ),
        ),
        readable(contents(turn.args), (read_depth() - 1) as nat) && (point_of(click_point)
            matches Some((x, y)) ==> readable(x, (read_depth() - 2) as nat)
            && readable(y, (read_depth() - 2) as nat)) ==> read_target(r->Ok_0.text@)
            == Some(
            (
                elapsed(turn.session_start_ms, now_ms),
                contents(turn.args).member("window_id"@) is Some || contents(turn.args).member(
                    "pid"@,
                ) is Some,
            ),
        ),
{
    let ghost point = point_of(click_point);
    let value = write_turn(turn, now_ms, timestamp, click_point);
    let r = write_json_atomic(turn.dir.as_str(), "action", &value);
    proof {
        let args = contents(turn.args);
        let readable_point = point matches Some((x, y)) ==> readable(
            x,
            (read_depth() - 2) as nat,
        ) && readable(y, (read_depth() - 2) as nat);
        if readable(args, (read_depth() - 1) as nat) && readable_point {
            law_recorded_turns_are_readable(
                turn.tool_name@,
                args,
                turn.result_text@,
                timestamp@,
                elapsed(turn.session_start_ms, now_ms),
                elapsed(turn.session_start_ms, turn.start_ms),
                point,
            );
            law_recorded_turn_is_read_back(
                turn.tool_name@,
                args,
                turn.result_text@,
                timestamp@,
                elapsed(turn.session_start_ms, now_ms),
                elapsed(turn.session_start_ms, turn.start_ms),
                point,
                r->Ok_0.text@,
            );
        }
    }
    r
}

} // verus!
