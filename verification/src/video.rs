//! Trajectory video.
//!
//! On Wayland the display shows the wrong thing: the target window usually
//! lives on a hidden workspace, and a locked session shows the lock screen.
//! So the video is put together when the recording stops, from the
//! screenshots of the turns that had a target window. Each frame is shown
//! from its turn's time until the next turn's, and never for less than a
//! quarter of a second.
use crate::json;
use crate::json::{contents, Json};
use crate::path::{beneath, copy_bytes, put_beneath};
use crate::recording::{unsigned_member, VideoMetadata};
use crate::text::{decimal, lossy, push_decimal, push_padded_decimal, shown, zero_padded};
use crate::video_laws::law_the_largest_is_an_upper_bound;
use vstd::prelude::*;
use vstd::utf8::encode_utf8;

verus! {

/// Frames per second of the finished video.
pub const FPS: u64 = 10;

/// How long the encoder may take, in seconds.
pub const ENCODE_DEADLINE_SECS: u64 = 60;

/// How long each frame is shown at least, in milliseconds.
pub const FRAME_FLOOR_MS: u64 = 250;

/// Where the frames of a video come from.
#[derive(Debug, Clone, Copy, PartialEq, Eq)]
pub enum VideoSource {
    /// The screenshots of the turns.
    TurnScreenshots,
    /// The display.
    Display,
}

/// Chooses the video backend of a recording.
pub struct LinuxVideoBackendFactory;

impl LinuxVideoBackendFactory {
    /// The source of a new video: never the display under Wayland.
    pub fn start(&self, wayland: bool) -> (r: VideoSource)
        ensures
            r == (if wayland {
                VideoSource::TurnScreenshots
            } else {
                VideoSource::Display
            }),
    {
        if wayland {
            VideoSource::TurnScreenshots
        } else {
            VideoSource::Display
        }
    }
}

// Frames

/// A frame of the video: a picture and the time of its turn.
#[derive(Debug)]
pub struct TurnFrame {
    pub path: Vec<u8>,
    pub t_ms: u64,
}

/// What [`TurnFrame`] holds.
pub struct FrameModel {
    pub path: Seq<u8>,
    pub t_ms: u64,
}

impl View for TurnFrame {
    type V = FrameModel;

    open spec fn view(&self) -> FrameModel {
        FrameModel { path: self.path@, t_ms: self.t_ms }
    }
}

/// An entry of a recording's directory, with what stands in it.
#[derive(Debug)]
pub struct TurnEntry {
    pub name: Vec<u8>,
    pub is_dir: bool,
    pub click_exists: bool,
    pub screenshot_exists: bool,
    /// The text of its `action.json`, where that could be read.
    pub action: Option<String>,
}

/// What [`TurnEntry`] holds.
pub struct EntryModel {
    pub name: Seq<u8>,
    pub is_dir: bool,
    pub click_exists: bool,
    pub screenshot_exists: bool,
    pub action: Option<Seq<char>>,
}

impl View for TurnEntry {
    type V = EntryModel;

    open spec fn view(&self) -> EntryModel {
        EntryModel {
            name: self.name@,
            is_dir: self.is_dir,
            click_exists: self.click_exists,
            screenshot_exists: self.screenshot_exists,
            action: match self.action {
                Some(t) => Some(t@),
                None => None,
            },
        }
    }
}

/// The bytes of `turn-`.
pub open spec fn turn_prefix() -> Seq<u8> {
    encode_utf8("turn-"@)
}

/// The bytes of `click.png`.
pub open spec fn click_file() -> Seq<u8> {
    encode_utf8("click.png"@)
}

/// The bytes of `screenshot.png`.
pub open spec fn screenshot_file() -> Seq<u8> {
    encode_utf8("screenshot.png"@)
}

/// What an `action.json` tells a video: the time of the turn, and whether it
/// had a target window. Nothing where it has no arguments.
pub open spec fn target_of(action: Json) -> Option<(u64, bool)> {
    match action.member("arguments"@) {
        Some(args) => Some(
            (
                match unsigned_member(action, "t_ms_from_session_start"@) {
                    Some(t) => t,
                    None => 0,
                },
                args.member("window_id"@) is Some || args.member("pid"@) is Some,
            ),
        ),
        None => None,
    }
}

/// What the text of an `action.json` tells a video.
pub open spec fn read_target(text: Seq<char>) -> Option<(u64, bool)> {
    match json::parsed(text) {
        Some(action) => target_of(action),
        None => None,
    }
}

/// What an `action.json` tells a video.
pub fn turn_target(action: &serde_json::Value) -> (r: Option<(u64, bool)>)
    ensures
        r == target_of(contents(*action)),
{
    let t_ms: u64 = match json::member(action, "t_ms_from_session_start") {
        Some(v) => match json::as_unsigned(v) {
            Some(t) => t,
            None => 0,
        },
        None => 0,
    };
    match json::member(action, "arguments") {
        Some(args) => Some(
            (
                t_ms,
                json::member(args, "window_id").is_some() || json::member(args, "pid").is_some(),
            ),
        ),
        None => None,
    }
}

/// What the text of an `action.json` tells a video.
pub fn turn_timestamp_and_target(text: &str) -> (r: Option<(u64, bool)>)
    ensures
        r == read_target(text@),
{
    match json::parse(text) {
        Ok(action) => turn_target(&action),
        Err(_) => None,
    }
}

/// The picture that stands for a turn: the marked one where there is one.
pub open spec fn preferred_frame(turn_dir: Seq<u8>, click_exists: bool) -> Seq<u8> {
    beneath(
        turn_dir,
        if click_exists {
            click_file()
        } else {
            screenshot_file()
        },
    )
}

/// The frame that an entry of a recording's directory gives, if any: it has
/// to be a turn with a picture, a readable `action.json` and a target window.
pub open spec fn frame_of(dir: Seq<u8>, entry: EntryModel) -> Option<FrameModel> {
    if entry.is_dir && turn_prefix().is_prefix_of(entry.name) && (entry.click_exists
        || entry.screenshot_exists) {
        match entry.action {
            Some(text) => match read_target(text) {
                Some((t_ms, true)) => Some(
                    FrameModel {
                        path: preferred_frame(beneath(dir, entry.name), entry.click_exists),
                        t_ms,
                    },
                ),
                _ => None,
            },
            None => None,
        }
    } else {
        None
    }
}

/// The frames that a listing gives, in its order.
pub open spec fn frames_of(dir: Seq<u8>, entries: Seq<EntryModel>) -> Seq<FrameModel>
    decreases entries.len(),
{
    if entries.len() == 0 {
        Seq::empty()
    } else {
        let earlier = frames_of(dir, entries.drop_last());
        match frame_of(dir, entries.last()) {
            Some(f) => earlier.push(f),
            None => earlier,
        }
    }
}

/// The rank of a byte in the order of paths: names that end come first.
pub open spec fn path_rank(b: u8) -> int {
    if b == 47 {
        0
    } else {
        b + 1
    }
}

/// The order of paths, component by component.
pub open spec fn path_up_to(a: Seq<u8>, b: Seq<u8>) -> bool
    decreases a.len(),
{
    if a.len() == 0 {
        true
    } else if b.len() == 0 {
        false
    } else if path_rank(a[0]) < path_rank(b[0]) {
        true
    } else if path_rank(a[0]) > path_rank(b[0]) {
        false
    } else {
        path_up_to(a.skip(1), b.skip(1))
    }
}

/// The order of frames: by time, then by path.
pub open spec fn frame_up_to(a: FrameModel, b: FrameModel) -> bool {
    a.t_ms < b.t_ms || (a.t_ms == b.t_ms && path_up_to(a.path, b.path))
}

/// Whether frames stand in order.
pub open spec fn in_order(frames: Seq<FrameModel>) -> bool {
    forall|i: int, j: int|
        0 <= i <= j < frames.len() ==> frame_up_to(#[trigger] frames[i], #[trigger] frames[j])
}

/// The models of a vector of frames.
pub open spec fn frame_models(frames: Seq<TurnFrame>) -> Seq<FrameModel> {
    frames.map_values(|f: TurnFrame| f@)
}

/// The models of a vector of entries.
pub open spec fn entry_models(entries: Seq<TurnEntry>) -> Seq<EntryModel> {
    entries.map_values(|e: TurnEntry| e@)
}

proof fn lemma_path_order_reflexive(a: Seq<u8>)
    ensures
        path_up_to(a, a),
    decreases a.len(),
{
    if a.len() > 0 {
        lemma_path_order_reflexive(a.skip(1));
    }
}

proof fn lemma_path_order_connected(a: Seq<u8>, b: Seq<u8>)
    ensures
        path_up_to(a, b) || path_up_to(b, a),
    decreases a.len(),
{
    if a.len() > 0 && b.len() > 0 {
        lemma_path_order_connected(a.skip(1), b.skip(1));
    }
}

proof fn lemma_path_order_antisymmetric(a: Seq<u8>, b: Seq<u8>)
    requires
        path_up_to(a, b),
        path_up_to(b, a),
    ensures
        a == b,
    decreases a.len(),
{
    if a.len() > 0 && b.len() > 0 {
        lemma_path_order_antisymmetric(a.skip(1), b.skip(1));
        assert(a =~= seq![a[0]] + a.skip(1));
        assert(b =~= seq![b[0]] + b.skip(1));
    } else {
        assert(a =~= b);
    }
}

proof fn lemma_path_order_transitive(a: Seq<u8>, b: Seq<u8>, c: Seq<u8>)
    requires
        path_up_to(a, b),
        path_up_to(b, c),
    ensures
        path_up_to(a, c),
    decreases a.len(),
{
    if a.len() > 0 && b.len() > 0 && c.len() > 0 && path_rank(a[0]) == path_rank(b[0]) && path_rank(
        b[0],
    ) == path_rank(c[0]) {
        lemma_path_order_transitive(a.skip(1), b.skip(1), c.skip(1));
    }
}

pub proof fn lemma_frame_order(a: FrameModel, b: FrameModel, c: FrameModel)
    ensures
        frame_up_to(a, a),
        frame_up_to(a, b) || frame_up_to(b, a),
        frame_up_to(a, b) && frame_up_to(b, a) ==> a == b,
        frame_up_to(a, b) && frame_up_to(b, c) ==> frame_up_to(a, c),
{
    lemma_path_order_reflexive(a.path);
    lemma_path_order_connected(a.path, b.path);
    if frame_up_to(a, b) && frame_up_to(b, a) {
        lemma_path_order_antisymmetric(a.path, b.path);
    }
    if path_up_to(a.path, b.path) && path_up_to(b.path, c.path) {
        lemma_path_order_transitive(a.path, b.path, c.path);
    }
}

/// Whether one path comes no later than another.
fn path_in_order(a: &[u8], b: &[u8]) -> (r: bool)
    ensures
        r == path_up_to(a@, b@),
{
    let mut i: usize = 0;
    assert(a@.skip(0) =~= a@ && b@.skip(0) =~= b@);
    while i < a.len()
        invariant
            i <= a.len(),
            i <= b.len(),
            path_up_to(a@, b@) == path_up_to(a@.skip(i as int), b@.skip(i as int)),
        decreases a.len() - i,
    {
        if i == b.len() {
            return false;
        }
        let x: u16 = if a[i] == 47 {
            0
        } else {
            a[i] as u16 + 1
        };
        let y: u16 = if b[i] == 47 {
            0
        } else {
            b[i] as u16 + 1
        };
        if x < y {
            return true;
        }
        if x > y {
            return false;
        }
        assert(a@.skip(i as int).skip(1) =~= a@.skip(i + 1));
        assert(b@.skip(i as int).skip(1) =~= b@.skip(i + 1));
        i += 1;
    }
    true
}

/// Whether one frame comes no later than another.
fn frame_in_order(a: &TurnFrame, b: &TurnFrame) -> (r: bool)
    ensures
        r == frame_up_to(a@, b@),
{
    a.t_ms < b.t_ms || (a.t_ms == b.t_ms && path_in_order(&a.path, &b.path))
}

/// Puts a frame where it belongs.
fn insert_frame(frames: &mut Vec<TurnFrame>, frame: TurnFrame)
    requires
        in_order(frame_models(old(frames)@)),
    ensures
        in_order(frame_models(final(frames)@)),
        frame_models(final(frames)@).to_multiset() == frame_models(old(frames)@).to_multiset().insert(
            frame@,
        ),
{
    let ghost before = frame_models(frames@);
    let mut at: usize = 0;
    while at < frames.len() && frame_in_order(&frames[at], &frame)
        invariant
            at <= frames.len(),
            before == frame_models(frames@),
            frames@ == old(frames)@,
            forall|i: int| 0 <= i < at ==> frame_up_to(#[trigger] before[i], frame@),
        decreases frames.len() - at,
    {
        at += 1;
    }
    let ghost model = frame@;
    assert(at < before.len() ==> before[at as int] == frames@[at as int]@);
    frames.insert(at, frame);
    assert(frame_models(frames@) =~= before.insert(at as int, model));
    proof {
        vstd::seq_lib::to_multiset_insert(before, at as int, model);
        let s = before.insert(at as int, model);
        assert forall|i: int, j: int| 0 <= i <= j < s.len() implies frame_up_to(
            #[trigger] s[i],
            #[trigger] s[j],
        ) by {
            lemma_frame_order(model, model, model);
            if i < at && j == at {
                assert(frame_up_to(before[i], model));
            } else if i == at && j > at {
                lemma_frame_order(model, before[at as int], before[j - 1]);
                assert(frame_up_to(before[at as int], before[j - 1]));
            } else if i < at && j < at {
                assert(frame_up_to(before[i], before[j]));
            } else if i < at && j > at {
                assert(frame_up_to(before[i], before[j - 1]));
            } else if i > at {
                assert(frame_up_to(before[i - 1], before[j - 1]));
            }
        }
    }
}

fn bytes_begin_with(s: &[u8], p: &[u8]) -> (r: bool)
    ensures
        r == p@.is_prefix_of(s@),
{
    if p.len() > s.len() {
        return false;
    }
    let mut i: usize = 0;
    while i < p.len()
        invariant
            i <= p.len() <= s.len(),
            forall|j: int| 0 <= j < i ==> s@[j] == p@[j],
        decreases p.len() - i,
    {
        if s[i] != p[i] {
            assert(s@.subrange(0, p@.len() as int)[i as int] != p@[i as int]);
            return false;
        }
        i += 1;
    }
    assert(p@ =~= s@.subrange(0, p@.len() as int));
    true
}

/// The picture that stands for a turn.
pub fn preferred_turn_frame_path(turn_dir: &[u8], click_exists: bool) -> (r: Vec<u8>)
    ensures
        r@ == preferred_frame(turn_dir@, click_exists),
{
    if click_exists {
        put_beneath(turn_dir, "click.png".as_bytes())
    } else {
        put_beneath(turn_dir, "screenshot.png".as_bytes())
    }
}

/// The frame that an entry of a recording's directory gives.
fn entry_frame(dir: &[u8], entry: &TurnEntry) -> (r: Option<TurnFrame>)
    ensures
        (match r {
            Some(f) => frame_of(dir@, entry@) == Some(f@),
            None => frame_of(dir@, entry@) is None,
        }),
{
    if !entry.is_dir || !bytes_begin_with(&entry.name, "turn-".as_bytes()) {
        return None;
    }
    if !(entry.click_exists || entry.screenshot_exists) {
        return None;
    }
    match &entry.action {
        Some(text) => match turn_timestamp_and_target(text.as_str()) {
            Some((t_ms, target)) => if target {
                let turn_dir = put_beneath(dir, &entry.name);
                Some(
                    TurnFrame { path: preferred_turn_frame_path(&turn_dir, entry.click_exists), t_ms },
                )
            } else {
                None
            },
            None => None,
        },
        None => None,
    }
}

/// The frames of a video, in order, from a listing of the recording's
/// directory.
pub fn collect_target_window_frames(dir: &[u8], entries: &[TurnEntry]) -> (r: Vec<TurnFrame>)
    ensures
        in_order(frame_models(r@)),
        frame_models(r@).to_multiset() == frames_of(dir@, entry_models(entries@)).to_multiset(),
{
    let mut frames: Vec<TurnFrame> = Vec::new();
    let ghost models = entry_models(entries@);
    let mut i: usize = 0;
    assert(frame_models(frames@) =~= Seq::<FrameModel>::empty());
    assert(models.take(0) =~= Seq::<EntryModel>::empty());
    while i < entries.len()
        invariant
            i <= entries.len(),
            models == entry_models(entries@),
            in_order(frame_models(frames@)),
            frame_models(frames@).to_multiset() == frames_of(dir@, models.take(i as int)).to_multiset(),
        decreases entries.len() - i,
    {
        proof {
            assert(models.take(i + 1).drop_last() =~= models.take(i as int));
            assert(models.take(i + 1).last() == entries@[i as int]@);
            vstd::seq_lib::to_multiset_build(
                frames_of(dir@, models.take(i as int)),
                frame_of(dir@, entries@[i as int]@)->0,
            );
        }
        if let Some(frame) = entry_frame(dir, &entries[i]) {
            insert_frame(&mut frames, frame);
        }
        i += 1;
    }
    assert(models.take(i as int) =~= models);
    frames
}

// Timing

/// How long a frame is shown. The first frame is shown from the beginning,
/// the last one until the end.
pub open spec fn frame_duration(frames: Seq<FrameModel>, total_ms: u64, i: int) -> u64 {
    let start = if i == 0 {
        0
    } else {
        frames[i].t_ms
    };
    let end = if i + 1 < frames.len() {
        frames[i + 1].t_ms
    } else {
        total_ms
    };
    if end - start > FRAME_FLOOR_MS {
        (end - start) as u64
    } else {
        FRAME_FLOOR_MS
    }
}

/// How long each frame is shown.
pub open spec fn durations(frames: Seq<FrameModel>, total_ms: u64) -> Seq<u64> {
    Seq::new(frames.len(), |i: int| frame_duration(frames, total_ms, i))
}

/// How long each frame is shown, in milliseconds.
pub fn frame_durations_ms(frames: &[TurnFrame], total_duration_ms: u64) -> (r: Vec<u64>)
    ensures
        r@ == durations(frame_models(frames@), total_duration_ms),
{
    let mut r: Vec<u64> = Vec::new();
    let ghost models = frame_models(frames@);
    let mut i: usize = 0;
    while i < frames.len()
        invariant
            i <= frames.len(),
            models == frame_models(frames@),
            r@ == durations(models, total_duration_ms).take(i as int),
        decreases frames.len() - i,
    {
        assert(models[i as int] == frames@[i as int]@);
        let start: u64 = if i == 0 {
            0
        } else {
            frames[i].t_ms
        };
        let end: u64 = if i + 1 < frames.len() {
            assert(models[i + 1] == frames@[i + 1]@);
            frames[i + 1].t_ms
        } else {
            total_duration_ms
        };
        let gap: u64 = end.saturating_sub(start);
        r.push(
            if gap > FRAME_FLOOR_MS {
                gap
            } else {
                FRAME_FLOOR_MS
            },
        );
        i += 1;
        assert(r@ =~= durations(models, total_duration_ms).take(i as int));
    }
    assert(r@ =~= durations(models, total_duration_ms));
    r
}

/// The limit below which [`format_duration`] works, in milliseconds: from
/// there on a double cannot tell milliseconds apart.
pub const FORMAT_LIMIT_MS: u64 = 8_796_093_022_208_000;

/// Milliseconds as seconds, with three decimals.
pub open spec fn seconds_text(ms: u64) -> Seq<char> {
    decimal((ms / 1000) as nat) + seq!['.'] + zero_padded(decimal((ms % 1000) as nat), 3)
}

/// Milliseconds as seconds, with three decimals.
pub fn format_duration(ms: u64) -> (r: String)
    requires
        ms < FORMAT_LIMIT_MS,
    ensures
        r@ == seconds_text(ms),
{
    let mut r = String::new();
    push_decimal(&mut r, ms / 1000);
    r.push('.');
    push_padded_decimal(&mut r, ms % 1000, 3);
    assert(r@ =~= seconds_text(ms));
    r
}

// Encoding

/// Why frames cannot be encoded.
#[derive(Debug, Clone, Copy, PartialEq, Eq)]
pub enum FrameError {
    /// No frame has any extent.
    NoValidFrames,
}

impl FrameError {
    /// The reason in words.
    pub fn message(&self) -> (r: String)
        ensures
            r@ == "no valid screenshot frames found"@,
    {
        "no valid screenshot frames found".to_owned()
    }
}

/// The largest of some numbers; zero for none.
pub open spec fn largest(s: Seq<u32>) -> u32
    decreases s.len(),
{
    if s.len() == 0 {
        0
    } else if s.last() > largest(s.drop_last()) {
        s.last()
    } else {
        largest(s.drop_last())
    }
}

/// A number rounded up to an even one.
pub open spec fn even_up(n: u32) -> u32 {
    if n % 2 != 0 {
        (n + 1) as u32
    } else {
        n
    }
}

/// The widths of some pictures.
pub open spec fn widths(sizes: Seq<(u32, u32)>) -> Seq<u32> {
    sizes.map_values(|p: (u32, u32)| p.0)
}

/// The heights of some pictures.
pub open spec fn heights(sizes: Seq<(u32, u32)>) -> Seq<u32> {
    sizes.map_values(|p: (u32, u32)| p.1)
}

/// The extent of the video: large enough for every frame, and even both ways.
pub fn output_dimensions(sizes: &[(u32, u32)]) -> (r: Result<(u32, u32), FrameError>)
    requires
        largest(widths(sizes@)) > 0 && largest(heights(sizes@)) > 0 ==> largest(widths(sizes@))
            < u32::MAX && largest(heights(sizes@)) < u32::MAX,
    ensures
        ({
            let width = largest(widths(sizes@));
            let height = largest(heights(sizes@));
            match r {
                Ok(p) => width != 0 && height != 0 && p.0 == even_up(width) && p.1 == even_up(height),
                Err(_) => width == 0 || height == 0,
            }
        }),
        r matches Ok(p) ==> forall|k: int|
            0 <= k < sizes@.len() ==> (#[trigger] sizes@[k]).0 <= p.0 && sizes@[k].1 <= p.1,
        r is Err ==> (forall|k: int| 0 <= k < sizes@.len() ==> (#[trigger] sizes@[k]).0 == 0) || (
        forall|k: int| 0 <= k < sizes@.len() ==> (#[trigger] sizes@[k]).1 == 0),
{
    let ghost ws = widths(sizes@);
    let ghost hs = heights(sizes@);
    let mut width: u32 = 0;
    let mut height: u32 = 0;
    let mut i: usize = 0;
    assert(ws.take(0) =~= Seq::<u32>::empty() && hs.take(0) =~= Seq::<u32>::empty());
    while i < sizes.len()
        invariant
            i <= sizes.len(),
            ws == widths(sizes@),
            hs == heights(sizes@),
            width == largest(ws.take(i as int)),
            height == largest(hs.take(i as int)),
        decreases sizes.len() - i,
    {
        let (w, h) = sizes[i];
        assert(ws.take(i + 1).drop_last() =~= ws.take(i as int));
        assert(hs.take(i + 1).drop_last() =~= hs.take(i as int));
        if w > width {
            width = w;
        }
        if h > height {
            height = h;
        }
        i += 1;
    }
    assert(ws.take(i as int) =~= ws && hs.take(i as int) =~= hs);
    proof {
        law_the_largest_is_an_upper_bound(ws);
        law_the_largest_is_an_upper_bound(hs);
        assert forall|k: int| 0 <= k < sizes@.len() implies (#[trigger] sizes@[k]).0 <= width
            && sizes@[k].1 <= height by {
            assert(ws[k] == sizes@[k].0 && hs[k] == sizes@[k].1);
        }
    }
    if width == 0 || height == 0 {
        return Err(FrameError::NoValidFrames);
    }
    if width % 2 != 0 {
        width += 1;
    }
    if height % 2 != 0 {
        height += 1;
    }
    Ok((width, height))
}

/// An argument of the encoder.
#[derive(Debug)]
pub enum EncodeArg {
    Text(String),
    /// The path of a picture or of the video.
    Path(Vec<u8>),
    /// A time in milliseconds, from [`FORMAT_LIMIT_MS`] up, to be given in
    /// seconds.
    Seconds(u64),
}

/// What [`EncodeArg`] holds.
pub enum EncodeArgModel {
    Text(Seq<char>),
    Path(Seq<u8>),
    Seconds(u64),
}

impl View for EncodeArg {
    type V = EncodeArgModel;

    open spec fn view(&self) -> EncodeArgModel {
        match self {
            EncodeArg::Text(t) => EncodeArgModel::Text(t@),
            EncodeArg::Path(p) => EncodeArgModel::Path(p@),
            EncodeArg::Seconds(ms) => EncodeArgModel::Seconds(*ms),
        }
    }
}

/// A time as the encoder gets it: in seconds, with three decimals.
pub open spec fn time_arg(ms: u64) -> EncodeArgModel {
    if ms < FORMAT_LIMIT_MS {
        EncodeArgModel::Text(seconds_text(ms))
    } else {
        EncodeArgModel::Seconds(ms)
    }
}

/// The arguments that show each of the first `n` frames for its time.
pub open spec fn input_args(
    frames: Seq<FrameModel>,
    durations: Seq<u64>,
    n: nat,
) -> Seq<EncodeArgModel>
    decreases n,
{
    if n == 0 {
        Seq::empty()
    } else {
        input_args(frames, durations, (n - 1) as nat) + seq![
            EncodeArgModel::Text("-loop"@),
            EncodeArgModel::Text("1"@),
            EncodeArgModel::Text("-t"@),
            time_arg(durations[n - 1]),
            EncodeArgModel::Text("-i"@),
            EncodeArgModel::Path(frames[n - 1].path),
        ]
    }
}

/// The filters that fit each of the first `n` pictures into the frame,
/// without distorting it, each followed by a semicolon.
pub open spec fn fit_filters(width: u32, height: u32, n: nat) -> Seq<char>
    decreases n,
{
    if n == 0 {
        Seq::empty()
    } else {
        let extent = decimal(width as nat) + ":"@ + decimal(height as nat);
        let i = decimal((n - 1) as nat);
        fit_filters(width, height, (n - 1) as nat) + ("["@ + i + ":v]scale="@ + extent
            + ":force_original_aspect_ratio=decrease,pad="@ + extent
            + ":(ow-iw)/2:(oh-ih)/2,setsar=1,format=rgba[v"@ + i + "];"@)
    }
}

/// The names of the first `n` fitted pictures.
pub open spec fn fitted_names(n: nat) -> Seq<char>
    decreases n,
{
    if n == 0 {
        Seq::empty()
    } else {
        fitted_names((n - 1) as nat) + ("[v"@ + decimal((n - 1) as nat) + "]"@)
    }
}

/// The filter graph: fit every picture, then show them one after the other.
pub open spec fn filter_graph(width: u32, height: u32, n: nat) -> Seq<char> {
    fit_filters(width, height, n) + (fitted_names(n) + "concat=n="@ + decimal(n)
        + ":v=1:a=0,format=yuv420p[v]"@)
}

/// All arguments of the encoder.
pub open spec fn encode_args(
    frames: Seq<FrameModel>,
    total_ms: u64,
    width: u32,
    height: u32,
    output: Seq<u8>,
) -> Seq<EncodeArgModel> {
    seq![
        EncodeArgModel::Text("-y"@),
        EncodeArgModel::Text("-loglevel"@),
        EncodeArgModel::Text("error"@),
    ] + input_args(frames, durations(frames, total_ms), frames.len()) + seq![
        EncodeArgModel::Text("-filter_complex"@),
        EncodeArgModel::Text(filter_graph(width, height, frames.len())),
        EncodeArgModel::Text("-map"@),
        EncodeArgModel::Text("[v]"@),
        EncodeArgModel::Text("-r"@),
        EncodeArgModel::Text(decimal(FPS as nat)),
        EncodeArgModel::Text("-c:v"@),
        EncodeArgModel::Text("libx264"@),
        EncodeArgModel::Text("-preset"@),
        EncodeArgModel::Text("ultrafast"@),
        EncodeArgModel::Text("-pix_fmt"@),
        EncodeArgModel::Text("yuv420p"@),
        EncodeArgModel::Text("-movflags"@),
        EncodeArgModel::Text("+faststart"@),
        EncodeArgModel::Text("-g"@),
        EncodeArgModel::Text(decimal(FPS as nat)),
        EncodeArgModel::Path(output),
    ]
}

/// The models of a vector of arguments.
pub open spec fn arg_models(args: Seq<EncodeArg>) -> Seq<EncodeArgModel> {
    args.map_values(|a: EncodeArg| a@)
}

fn push_text(args: &mut Vec<EncodeArg>, text: &str)
    ensures
        arg_models(final(args)@) == arg_models(old(args)@).push(EncodeArgModel::Text(text@)),
{
    args.push(EncodeArg::Text(text.to_owned()));
    assert(arg_models(args@) =~= arg_models(old(args)@).push(EncodeArgModel::Text(text@)));
}

fn push_path(args: &mut Vec<EncodeArg>, path: &[u8])
    ensures
        arg_models(final(args)@) == arg_models(old(args)@).push(EncodeArgModel::Path(path@)),
{
    args.push(EncodeArg::Path(copy_bytes(path)));
    assert(arg_models(args@) =~= arg_models(old(args)@).push(EncodeArgModel::Path(path@)));
}

fn push_time(args: &mut Vec<EncodeArg>, ms: u64)
    ensures
        arg_models(final(args)@) == arg_models(old(args)@).push(time_arg(ms)),
{
    if ms < FORMAT_LIMIT_MS {
        args.push(EncodeArg::Text(format_duration(ms)));
    } else {
        args.push(EncodeArg::Seconds(ms));
    }
    assert(arg_models(args@) =~= arg_models(old(args)@).push(time_arg(ms)));
}

/// The filter graph of the encoder.
fn build_filter_graph(width: u32, height: u32, n: usize) -> (r: String)
    ensures
        r@ == filter_graph(width, height, n as nat),
{
    let mut r = String::new();
    let mut i: usize = 0;
    while i < n
        invariant
            i <= n,
            r@ == fit_filters(width, height, i as nat),
        decreases n - i,
    {
        r.append("[");
        push_decimal(&mut r, i as u64);
        r.append(":v]scale=");
        push_decimal(&mut r, width as u64);
        r.append(":");
        push_decimal(&mut r, height as u64);
        r.append(":force_original_aspect_ratio=decrease,pad=");
        push_decimal(&mut r, width as u64);
        r.append(":");
        push_decimal(&mut r, height as u64);
        r.append(":(ow-iw)/2:(oh-ih)/2,setsar=1,format=rgba[v");
        push_decimal(&mut r, i as u64);
        r.append("];");
        i += 1;
        assert(r@ =~= fit_filters(width, height, i as nat));
    }
    let ghost fitted = r@;
    let mut j: usize = 0;
    assert(r@ =~= fitted + fitted_names(0));
    while j < n
        invariant
            j <= n,
            r@ == fitted + fitted_names(j as nat),
        decreases n - j,
    {
        r.append("[v");
        push_decimal(&mut r, j as u64);
        r.append("]");
        j += 1;
        assert(r@ =~= fitted + fitted_names(j as nat));
    }
    r.append("concat=n=");
    push_decimal(&mut r, n as u64);
    r.append(":v=1:a=0,format=yuv420p[v]");
    assert(r@ =~= filter_graph(width, height, n as nat));
    r
}

/// The arguments with which the encoder makes a video of some frames, whose
/// pictures have the given sizes. The video is large enough for each of them;
/// where none has any extent, there is no video.
pub fn encode_screenshot_sequence(
    frames: &[TurnFrame],
    sizes: &[(u32, u32)],
    total_duration_ms: u64,
    output_path: &[u8],
) -> (r: Result<Vec<EncodeArg>, FrameError>)
    requires
        largest(widths(sizes@)) > 0 && largest(heights(sizes@)) > 0 ==> largest(widths(sizes@))
            < u32::MAX && largest(heights(sizes@)) < u32::MAX,
    ensures
        ({
            let width = largest(widths(sizes@));
            let height = largest(heights(sizes@));
            match r {
                Ok(args) => width != 0 && height != 0 && arg_models(args@) == encode_args(
                    frame_models(frames@),
                    total_duration_ms,
                    even_up(width),
                    even_up(height),
                    output_path@,
                ),
                Err(e) => (width == 0 || height == 0) && e == FrameError::NoValidFrames,
            }
        }),
{
    let (width, height) = match output_dimensions(sizes) {
        Ok(extent) => extent,
        Err(e) => {
            return Err(e);
        },
    };
    let ghost models = frame_models(frames@);
    let shown = frame_durations_ms(frames, total_duration_ms);
    let mut args: Vec<EncodeArg> = Vec::new();
    assert(arg_models(args@) =~= Seq::<EncodeArgModel>::empty());
    push_text(&mut args, "-y");
    push_text(&mut args, "-loglevel");
    push_text(&mut args, "error");
    let ghost head = arg_models(args@);
    let mut i: usize = 0;
    assert(head =~= head + input_args(models, shown@, 0));
    while i < frames.len()
        invariant
            i <= frames.len(),
            models == frame_models(frames@),
            shown@ == durations(models, total_duration_ms),
            arg_models(args@) == head + input_args(models, shown@, i as nat),
        decreases frames.len() - i,
    {
        push_text(&mut args, "-loop");
        push_text(&mut args, "1");
        push_text(&mut args, "-t");
        push_time(&mut args, shown[i]);
        push_text(&mut args, "-i");
        push_path(&mut args, &frames[i].path);
        assert(models[i as int] == frames@[i as int]@);
        i += 1;
        assert(arg_models(args@) =~= head + input_args(models, shown@, i as nat));
    }
    let graph = build_filter_graph(width, height, frames.len());
    let mut fps = String::new();
    push_decimal(&mut fps, FPS);
    assert(fps@ =~= decimal(FPS as nat));
    push_text(&mut args, "-filter_complex");
    push_text(&mut args, graph.as_str());
    push_text(&mut args, "-map");
    push_text(&mut args, "[v]");
    push_text(&mut args, "-r");
    push_text(&mut args, fps.as_str());
    push_text(&mut args, "-c:v");
    push_text(&mut args, "libx264");
    push_text(&mut args, "-preset");
    push_text(&mut args, "ultrafast");
    push_text(&mut args, "-pix_fmt");
    push_text(&mut args, "yuv420p");
    push_text(&mut args, "-movflags");
    push_text(&mut args, "+faststart");
    push_text(&mut args, "-g");
    push_text(&mut args, fps.as_str());
    push_path(&mut args, output_path);
    assert(head =~= seq![
        EncodeArgModel::Text("-y"@),
        EncodeArgModel::Text("-loglevel"@),
        EncodeArgModel::Text("error"@),
    ]);
    assert(arg_models(args@) =~= encode_args(
        models,
        total_duration_ms,
        width,
        height,
        output_path@,
    ));
    Ok(args)
}

/// What is seen of a running encoder.
#[derive(Debug, Clone, Copy, PartialEq, Eq)]
pub enum EncoderStatus {
    Exited { success: bool },
    Running,
    /// Its state could not be read.
    Lost,
}

/// What to do about a running encoder.
#[derive(Debug, Clone, Copy, PartialEq, Eq)]
pub enum EncoderAction {
    /// The video is done, or has failed.
    Finish { success: bool },
    /// Look again after some milliseconds.
    Wait { ms: u64 },
    /// Kill it, because it took too long or its state is unknown.
    Kill { timed_out: bool },
}

/// What follows what is seen of the encoder.
pub open spec fn encoder_action(status: EncoderStatus, past_deadline: bool) -> EncoderAction {
    match status {
        EncoderStatus::Exited { success } => EncoderAction::Finish { success },
        EncoderStatus::Running => if past_deadline {
            EncoderAction::Kill { timed_out: true }
        } else {
            EncoderAction::Wait { ms: 50 }
        },
        EncoderStatus::Lost => EncoderAction::Kill { timed_out: false },
    }
}

/// The next step in waiting for the encoder. It is waited for only up to the
/// deadline, so that stopping a recording never takes longer.
pub fn await_encoder(status: EncoderStatus, past_deadline: bool) -> (r: EncoderAction)
    ensures
        r == encoder_action(status, past_deadline),
{
    match status {
        EncoderStatus::Exited { success } => EncoderAction::Finish { success },
        EncoderStatus::Running => if past_deadline {
            EncoderAction::Kill { timed_out: true }
        } else {
            EncoderAction::Wait { ms: 50 }
        },
        EncoderStatus::Lost => EncoderAction::Kill { timed_out: false },
    }
}

/// The error of an encoder that took too long.
pub fn timeout_message(frames: usize) -> (r: String)
    ensures
        r@ == "ffmpeg screenshot-sequence encode exceeded "@ + decimal(ENCODE_DEADLINE_SECS as nat)
            + "s ("@ + decimal(frames as nat)
            + " frames); killed to avoid blocking the recording mutex"@,
{
    let mut r = "ffmpeg screenshot-sequence encode exceeded ".to_owned();
    push_decimal(&mut r, ENCODE_DEADLINE_SECS);
    r.append("s (");
    push_decimal(&mut r, frames as u64);
    r.append(" frames); killed to avoid blocking the recording mutex");
    r
}

/// The error of an encoder that failed, with its exit in words and what it
/// wrote to its error stream.
pub fn failure_message(status: &str, stderr: &[u8]) -> (r: String)
    ensures
        r@ == "ffmpeg screenshot-sequence encode failed ("@ + status@ + "): "@ + shown(stderr@),
{
    let mut r = "ffmpeg screenshot-sequence encode failed (".to_owned();
    r.append(status);
    r.append("): ");
    r.append(lossy(stderr).as_str());
    r
}

/// How making a video ended.
#[derive(Debug)]
pub enum EncodeResult {
    /// No turn had a picture of a target window.
    NoFrames,
    Encoded,
    Failed(String),
}

/// How making a video of some number of frames ended, or nothing where the
/// encoder has yet to run.
pub open spec fn encoding(frames: nat, outcome: Option<Result<(), String>>) -> Option<EncodeResult> {
    if frames == 0 {
        Some(EncodeResult::NoFrames)
    } else {
        match outcome {
            None => None,
            Some(Ok(_)) => Some(EncodeResult::Encoded),
            Some(Err(e)) => Some(EncodeResult::Failed(e)),
        }
    }
}

/// How making a video of some frames ended, or nothing where the encoder has
/// yet to run. It never runs without frames.
pub fn encode_result(frames: &[TurnFrame], outcome: Option<Result<(), String>>) -> (r: Option<
    EncodeResult,
>)
    ensures
        r == encoding(frames@.len(), outcome),
{
    if frames.len() == 0 {
        return Some(EncodeResult::NoFrames);
    }
    match outcome {
        None => None,
        Some(Ok(_)) => Some(EncodeResult::Encoded),
        Some(Err(e)) => Some(EncodeResult::Failed(e)),
    }
}

/// The error of a recording in which no turn had a picture of a target window.
pub open spec fn no_frames_error() -> Seq<char> {
    "no target-window screenshots were recorded; Linux Wayland video avoids display capture because locked desktops only expose the lock screen"@
}

/// The metadata of a video whose backend has stopped. It is complete only if
/// the encoder succeeded; otherwise the error says what happened.
pub fn finish_video(path: String, duration_ms: u64, result: EncodeResult) -> (r: VideoMetadata)
    ensures
        r.path == path,
        r.duration_ms == duration_ms,
        r.finalized == result is Encoded,
        (match result {
            EncodeResult::NoFrames => r.error is Some && r.error->0@ == no_frames_error(),
            EncodeResult::Encoded => r.error is None,
            EncodeResult::Failed(e) => r.error == Some(e),
        }),
{
    match result {
        EncodeResult::NoFrames => VideoMetadata {
            path,
            duration_ms,
            finalized: false,
            error: Some(
                "no target-window screenshots were recorded; Linux Wayland video avoids display capture because locked desktops only expose the lock screen".to_owned(),
            ),
        },
        EncodeResult::Encoded => VideoMetadata { path, duration_ms, finalized: true, error: None },
        EncodeResult::Failed(e) => VideoMetadata {
            path,
            duration_ms,
            finalized: false,
            error: Some(e),
        },
    }
}

/// The metadata of a recording that stops with some frames, or nothing where
/// the encoder is to be run on them first. A recording without frames is never
/// complete, and runs no encoder.
pub fn stop_video(
    frames: &[TurnFrame],
    outcome: Option<Result<(), String>>,
    path: String,
    duration_ms: u64,
) -> (r: Option<VideoMetadata>)
    ensures
        r is None <==> frames@.len() > 0 && outcome is None,
        r matches Some(video) ==> {
            &&& video.path == path
            &&& video.duration_ms == duration_ms
            &&& video.finalized == (frames@.len() > 0 && outcome matches Some(Ok(_)))
            &&& if frames@.len() == 0 {
                video.error is Some && video.error->0@ == no_frames_error()
            } else {
                match outcome {
                    Some(Err(e)) => video.error == Some(e),
                    _ => video.error is None,
                }
            }
        },
{
    match encode_result(frames, outcome) {
        Some(result) => Some(finish_video(path, duration_ms, result)),
        None => None,
    }
}

} // verus!
