//! What holds of trajectory videos as a whole.
use crate::json::{parsed, read_depth, readable, same_outline, Json};
use crate::recording::action_json;
use crate::path::beneath;
use crate::text::{decimal, digits_value, lemma_numeral_reads_back, zero_padded};
use crate::text_laws::lemma_zeros_in_front;
use crate::video::{
    durations, encode_args, encoder_action, encoding, entry_models, even_up, filter_graph, fit_filters, fitted_names,
    frame_models, frame_of, frame_up_to, frames_of, heights, in_order, input_args, largest,
    lemma_frame_order, path_up_to, preferred_frame, read_target, seconds_text, target_of, time_arg,
    turn_prefix, widths, EncodeArgModel, EncodeResult, EncoderAction, EncoderStatus, EntryModel, FrameModel, TurnEntry, TurnFrame,
    FORMAT_LIMIT_MS, FPS, FRAME_FLOOR_MS,
};
use vstd::prelude::*;
use vstd::utf8::encode_utf8;

verus! {

/// When a frame comes on: the sum of the times of the frames before it.
pub open spec fn shown_at(frames: Seq<FrameModel>, total_ms: u64, i: int) -> int
    decreases i,
{
    if i <= 0 {
        0
    } else {
        shown_at(frames, total_ms, i - 1) + durations(frames, total_ms)[i - 1]
    }
}

/// Every frame is shown for at least a quarter of a second.
pub proof fn law_every_frame_is_seen(frames: Seq<FrameModel>, total_ms: u64, i: int)
    requires
        0 <= i < frames.len(),
    ensures
        durations(frames, total_ms)[i] >= FRAME_FLOOR_MS,
        FRAME_FLOOR_MS == 250,
{
}

/// When a frame is due: the first at the beginning, each other at its turn's
/// time, and what would follow the last at the end.
pub open spec fn due_at(frames: Seq<FrameModel>, total_ms: u64, i: int) -> int {
    if i <= 0 {
        0
    } else if i < frames.len() {
        frames[i].t_ms as int
    } else {
        total_ms as int
    }
}

/// Whether there is at least a quarter of a second between when a frame is due
/// and when the next one is, or the end.
pub open spec fn has_its_time(frames: Seq<FrameModel>, total_ms: u64, i: int) -> bool {
    due_at(frames, total_ms, i + 1) - due_at(frames, total_ms, i) >= FRAME_FLOOR_MS
}

/// A frame comes on when it is due if all before it have their time, and
/// later otherwise.
proof fn lemma_delay(frames: Seq<FrameModel>, total_ms: u64, i: int)
    requires
        0 <= i <= frames.len(),
    ensures
        shown_at(frames, total_ms, i) >= due_at(frames, total_ms, i),
        shown_at(frames, total_ms, i) == due_at(frames, total_ms, i) <==> (i > 0 ==> forall|j: int|
            0 <= j < i ==> #[trigger] has_its_time(frames, total_ms, j)),
    decreases i,
{
    if i > 0 {
        lemma_delay(frames, total_ms, i - 1);
        let before = shown_at(frames, total_ms, i - 1) == due_at(frames, total_ms, i - 1);
        let last = has_its_time(frames, total_ms, i - 1);
        assert(shown_at(frames, total_ms, i) == due_at(frames, total_ms, i) <==> before && last);
        if before && last {
            assert forall|j: int| 0 <= j < i implies #[trigger] has_its_time(frames, total_ms, j) by {
                if j < i - 1 {
                    assert(i - 1 > 0);
                }
            }
        }
    }
}

/// No frame but the first comes on before its turn's time, and one comes on
/// exactly then just where there is at least a quarter of a second for each
/// frame before it.
pub proof fn law_frames_keep_their_times(frames: Seq<FrameModel>, total_ms: u64, i: int)
    requires
        0 < i < frames.len(),
    ensures
        shown_at(frames, total_ms, i) >= frames[i].t_ms,
        shown_at(frames, total_ms, i) == frames[i].t_ms <==> forall|j: int|
            0 <= j < i ==> #[trigger] has_its_time(frames, total_ms, j),
{
    lemma_delay(frames, total_ms, i);
}

/// A video lasts at least as long as its recording, and exactly as long just
/// where there is at least a quarter of a second for each of its frames.
pub proof fn law_video_covers_the_recording(frames: Seq<FrameModel>, total_ms: u64)
    requires
        frames.len() > 0,
    ensures
        shown_at(frames, total_ms, frames.len() as int) >= total_ms,
        shown_at(frames, total_ms, frames.len() as int) == total_ms <==> forall|j: int|
            0 <= j < frames.len() ==> #[trigger] has_its_time(frames, total_ms, j),
{
    lemma_delay(frames, total_ms, frames.len() as int);
}

/// The order of the frames is fixed by the frames alone: two arrangements of
/// the same frames that are both in order are the same. So the order in which
/// a directory lists its turns makes no difference.
pub proof fn law_frame_order_is_unique(a: Seq<FrameModel>, b: Seq<FrameModel>)
    requires
        in_order(a),
        in_order(b),
        a.to_multiset() == b.to_multiset(),
    ensures
        a == b,
    decreases a.len(),
{
    a.to_multiset_ensures();
    b.to_multiset_ensures();
    if a.len() > 0 {
        let x = a.last();
        let y = b.last();
        assert(a.to_multiset().count(x) > 0);
        assert(b.contains(x));
        assert(b.to_multiset().count(y) > 0);
        assert(a.contains(y));
        let i = choose|i: int| 0 <= i < a.len() && a[i] == y;
        let j = choose|j: int| 0 <= j < b.len() && b[j] == x;
        assert(frame_up_to(a[i], a[a.len() - 1]));
        assert(frame_up_to(b[j], b[b.len() - 1]));
        lemma_frame_order(x, y, x);
        assert(x == y);
        let n = a.len() - 1;
        assert(a.remove(n) =~= a.drop_last());
        assert(b.remove(n) =~= b.drop_last());
        assert(a.drop_last().to_multiset() =~= b.drop_last().to_multiset());
        assert(in_order(a.drop_last()) && in_order(b.drop_last()));
        law_frame_order_is_unique(a.drop_last(), b.drop_last());
        assert(a =~= a.drop_last().push(x));
        assert(b =~= b.drop_last().push(y));
    } else {
        assert(a =~= b);
    }
}

/// An object is readable if its members are, one level less deep.
proof fn lemma_readable_object(fields: Map<Seq<char>, Json>, depth: nat)
    requires
        forall|k: Seq<char>| #[trigger] fields.dom().contains(k) ==> readable(fields[k], depth),
    ensures
        readable(Json::Object(fields), depth + 1),
{
}

/// An `action.json` nests one level deeper than the arguments in it. One that
/// is written for arguments that can be read back can itself be read back.
pub proof fn law_recorded_turns_are_readable(
    tool_name: Seq<char>,
    args: Json,
    result_text: Seq<char>,
    timestamp: Seq<char>,
    elapsed_ms: u64,
    start_elapsed_ms: u64,
    click_point: Option<(Json, Json)>,
)
    requires
        readable(args, (read_depth() - 1) as nat),
        click_point matches Some(p) ==> readable(p.0, (read_depth() - 2) as nat) && readable(
            p.1,
            (read_depth() - 2) as nat,
        ),
    ensures
        readable(
            action_json(
                tool_name,
                args,
                result_text,
                timestamp,
                elapsed_ms,
                start_elapsed_ms,
                click_point,
            ),
            read_depth(),
        ),
{
    let written = action_json(
        tool_name,
        args,
        result_text,
        timestamp,
        elapsed_ms,
        start_elapsed_ms,
        click_point,
    );
    let fields = written->Object_0;
    if let Some((x, y)) = click_point {
        let point = Map::empty().insert("x"@, x).insert("y"@, y);
        assert forall|k: Seq<char>| #[trigger] point.dom().contains(k) implies readable(
            point[k],
            (read_depth() - 2) as nat,
        ) by {}
        lemma_readable_object(point, (read_depth() - 2) as nat);
    }
    assert forall|k: Seq<char>| #[trigger] fields.dom().contains(k) implies readable(
        fields[k],
        (read_depth() - 1) as nat,
    ) by {}
    lemma_readable_object(fields, (read_depth() - 1) as nat);
    assert(written == Json::Object(fields));
}

/// What the recorder writes of a turn, the video reads back: the turn's time,
/// and whether its arguments name a window or a process.
pub proof fn law_recorded_turn_is_read_back(
    tool_name: Seq<char>,
    args: Json,
    result_text: Seq<char>,
    timestamp: Seq<char>,
    elapsed_ms: u64,
    start_elapsed_ms: u64,
    click_point: Option<(Json, Json)>,
    text: Seq<char>,
)
    requires
        parsed(text) is Some,
        same_outline(
            action_json(
                tool_name,
                args,
                result_text,
                timestamp,
                elapsed_ms,
                start_elapsed_ms,
                click_point,
            ),
            parsed(text)->0,
        ),
    ensures
        read_target(text) == Some(
            (elapsed_ms, args.member("window_id"@) is Some || args.member("pid"@) is Some),
        ),
{
    let written = action_json(
        tool_name,
        args,
        result_text,
        timestamp,
        elapsed_ms,
        start_elapsed_ms,
        click_point,
    );
    let read = parsed(text)->0;
    reveal_strlit("tool");
    reveal_strlit("arguments");
    reveal_strlit("result_summary");
    reveal_strlit("timestamp");
    reveal_strlit("t_ms_from_session_start");
    reveal_strlit("t_start_ms_from_session_start");
    reveal_strlit("click_point");
    assert("tool"@.len() == 4 && "arguments"@.len() == 9 && "result_summary"@.len() == 14);
    assert("timestamp"@.len() == 9 && "click_point"@.len() == 11);
    assert("t_ms_from_session_start"@.len() == 23 && "t_start_ms_from_session_start"@.len() == 29);
    assert("arguments"@[0] != "timestamp"@[0]);
    assert(written.member("arguments"@) == Some(args));
    assert(written.member("t_ms_from_session_start"@)->0.unsigned() == Some(elapsed_ms));
    assert(args.member("window_id"@) is Some <==> read.member("arguments"@)->0.member("window_id"@) is Some);
    assert(args.member("pid"@) is Some <==> read.member("arguments"@)->0.member("pid"@) is Some);
}

// The extent

/// The largest of some numbers is at least each of them and is one of them;
/// it is zero where there are none.
pub proof fn law_the_largest_is_an_upper_bound(s: Seq<u32>)
    ensures
        forall|k: int| 0 <= k < s.len() ==> #[trigger] s[k] <= largest(s),
        s.len() > 0 ==> exists|k: int| 0 <= k < s.len() && #[trigger] s[k] == largest(s),
        s.len() == 0 ==> largest(s) == 0,
    decreases s.len(),
{
    if s.len() > 0 {
        let before = s.drop_last();
        law_the_largest_is_an_upper_bound(before);
        assert forall|k: int| 0 <= k < s.len() implies #[trigger] s[k] <= largest(s) by {
            if k < before.len() {
                assert(before[k] == s[k]);
            }
        }
        if s.last() > largest(before) || before.len() == 0 {
            assert(s[s.len() - 1] == largest(s));
        } else {
            let k = choose|k: int| 0 <= k < before.len() && #[trigger] before[k] == largest(before);
            assert(s[k] == largest(s));
        }
    }
}

/// A number is rounded up to an even one by at most one, and an even number
/// stays.
pub proof fn law_rounding_up_makes_even(n: u32)
    requires
        n < u32::MAX,
    ensures
        even_up(n) % 2 == 0,
        n <= even_up(n) <= n + 1,
{
}

/// The video is at least as wide and as high as each of its pictures, and even
/// both ways. Before it is made even, its width is that of some picture, and
/// its height is that of some picture.
pub proof fn law_the_video_fits_every_picture(sizes: Seq<(u32, u32)>)
    requires
        forall|k: int|
            0 <= k < sizes.len() ==> (#[trigger] sizes[k]).0 < u32::MAX && sizes[k].1 < u32::MAX,
    ensures
        ({
            let width = even_up(largest(widths(sizes)));
            let height = even_up(largest(heights(sizes)));
            &&& forall|k: int|
                0 <= k < sizes.len() ==> (#[trigger] sizes[k]).0 <= width && sizes[k].1 <= height
            &&& width % 2 == 0 && height % 2 == 0
            &&& sizes.len() > 0 ==> exists|k: int|
                0 <= k < sizes.len() && (#[trigger] sizes[k]).0 == largest(widths(sizes)) && width
                    - sizes[k].0 <= 1
            &&& sizes.len() > 0 ==> exists|k: int|
                0 <= k < sizes.len() && (#[trigger] sizes[k]).1 == largest(heights(sizes)) && height
                    - sizes[k].1 <= 1
        }),
{
    let ws = widths(sizes);
    let hs = heights(sizes);
    law_the_largest_is_an_upper_bound(ws);
    law_the_largest_is_an_upper_bound(hs);
    assert forall|k: int| 0 <= k < sizes.len() implies (#[trigger] sizes[k]).0 <= largest(ws)
        && sizes[k].1 <= largest(hs) by {
        assert(ws[k] == sizes[k].0 && hs[k] == sizes[k].1);
    }
    if sizes.len() > 0 {
        let i = choose|k: int| 0 <= k < ws.len() && #[trigger] ws[k] == largest(ws);
        let j = choose|k: int| 0 <= k < hs.len() && #[trigger] hs[k] == largest(hs);
        assert(sizes[i].0 == largest(ws));
        assert(sizes[j].1 == largest(hs));
    }
    law_rounding_up_makes_even(largest(ws));
    law_rounding_up_makes_even(largest(hs));
}

// Frames in full

/// An `action.json` tells a video the time of its turn, or zero where that is
/// no unsigned integer, and that it has a target where its arguments name a
/// window or a process; it tells nothing without arguments.
pub proof fn law_actions_tell_time_and_target(action: Json, text: Seq<char>)
    ensures
        action.member("arguments"@) is None ==> target_of(action) is None,
        action.member("arguments"@) matches Some(args) ==> (target_of(action) matches Some((t, target)) && (
        target <==> args.member("window_id"@) is Some || args.member("pid"@) is Some) && (action.member(
            "t_ms_from_session_start"@,
        ) matches Some(m) && m.unsigned() is Some ==> t == action.member(
            "t_ms_from_session_start"@,
        )->0.unsigned()->0) && (!(action.member("t_ms_from_session_start"@) matches Some(m)
            && m.unsigned() is Some) ==> t == 0)),
        parsed(text) is None ==> read_target(text) is None,
        parsed(text) is Some ==> read_target(text) == target_of(parsed(text)->0),
{
}

/// Whether an entry of a recording's directory is a turn with a picture and a
/// target, at a time.
pub open spec fn shows_target(e: TurnEntry, t_ms: u64) -> bool {
    &&& e.is_dir
    &&& encode_utf8("turn-"@).is_prefix_of(e.name@)
    &&& e.click_exists || e.screenshot_exists
    &&& e.action is Some
    &&& read_target(e.action->0@) == Some((t_ms, true))
}

/// The picture of a turn: the marked one where there is one.
pub open spec fn picture_of(dir: Seq<u8>, e: TurnEntry) -> Seq<u8> {
    beneath(
        beneath(dir, e.name@),
        encode_utf8(
            if e.click_exists {
                "click.png"@
            } else {
                "screenshot.png"@
            },
        ),
    )
}

/// The frame of an entry is among those of the listing.
proof fn lemma_frame_listed(dir: Seq<u8>, entries: Seq<EntryModel>, k: int)
    requires
        0 <= k < entries.len(),
        frame_of(dir, entries[k]) is Some,
    ensures
        frames_of(dir, entries).contains(frame_of(dir, entries[k])->0),
    decreases entries.len(),
{
    let before = entries.drop_last();
    let all = frames_of(dir, entries);
    if k == entries.len() - 1 {
        assert(all[all.len() - 1] == frame_of(dir, entries[k])->0);
    } else {
        lemma_frame_listed(dir, before, k);
        let b = frames_of(dir, before);
        let i = choose|i: int| 0 <= i < b.len() && b[i] == frame_of(dir, before[k])->0;
        assert(all[i] == b[i]);
    }
}

/// A frame of a listing is that of one of its entries.
proof fn lemma_frame_has_entry(dir: Seq<u8>, entries: Seq<EntryModel>, f: FrameModel) -> (k: int)
    requires
        frames_of(dir, entries).contains(f),
    ensures
        0 <= k < entries.len(),
        frame_of(dir, entries[k]) == Some(f),
    decreases entries.len(),
{
    let all = frames_of(dir, entries);
    let i = choose|i: int| 0 <= i < all.len() && all[i] == f;
    if entries.len() == 0 {
        0
    } else {
        let before = entries.drop_last();
        if i < frames_of(dir, before).len() {
            assert(frames_of(dir, before)[i] == f);
            lemma_frame_has_entry(dir, before, f)
        } else {
            entries.len() - 1
        }
    }
}

/// The video shows the picture of every turn that has one and a target, at the
/// turn's time, and nothing else.
pub proof fn law_every_target_is_shown(
    dir: Seq<u8>,
    entries: Seq<TurnEntry>,
    frames: Seq<TurnFrame>,
    path: Seq<u8>,
    t_ms: u64,
)
    requires
        frame_models(frames).to_multiset() == frames_of(dir, entry_models(entries)).to_multiset(),
    ensures
        (exists|i: int| 0 <= i < frames.len() && (#[trigger] frames[i]).path@ == path && frames[i].t_ms
            == t_ms) <==> exists|k: int|
            0 <= k < entries.len() && shows_target(#[trigger] entries[k], t_ms) && picture_of(dir, entries[k])
                == path,
{
    let shown = frame_models(frames);
    let models = entry_models(entries);
    let all = frames_of(dir, models);
    shown.to_multiset_ensures();
    all.to_multiset_ensures();
    let f = FrameModel { path, t_ms };
    if exists|i: int| 0 <= i < frames.len() && (#[trigger] frames[i]).path@ == path && frames[i].t_ms == t_ms {
        let i = choose|i: int|
            0 <= i < frames.len() && (#[trigger] frames[i]).path@ == path && frames[i].t_ms == t_ms;
        assert(shown[i] == f);
        assert(shown.contains(f));
        assert(shown.to_multiset().count(f) > 0);
        assert(all.to_multiset().count(f) > 0);
        assert(all.contains(f));
        let k = lemma_frame_has_entry(dir, models, f);
        assert(models[k] == entries[k]@);
        assert(shows_target(entries[k], t_ms));
    }
    if exists|k: int|
        0 <= k < entries.len() && shows_target(#[trigger] entries[k], t_ms) && picture_of(dir, entries[k])
            == path {
        let k = choose|k: int|
            0 <= k < entries.len() && shows_target(#[trigger] entries[k], t_ms) && picture_of(
                dir,
                entries[k],
            ) == path;
        assert(models[k] == entries[k]@);
        assert(frame_of(dir, models[k]) == Some(f));
        lemma_frame_listed(dir, models, k);
        assert(all.to_multiset().count(f) > 0);
        assert(shown.to_multiset().count(f) > 0);
        assert(shown.contains(f));
        let i = choose|i: int| 0 <= i < shown.len() && shown[i] == f;
        assert(frames[i]@ == f);
    }
}

/// The frames of two listings, one behind the other, are those of the one and
/// then those of the other: no turn is shown twice.
pub proof fn law_turns_are_shown_once(dir: Seq<u8>, a: Seq<EntryModel>, b: Seq<EntryModel>)
    ensures
        frames_of(dir, a + b) == frames_of(dir, a) + frames_of(dir, b),
        a.len() == 1 ==> frames_of(dir, a).len() <= 1,
    decreases b.len(),
{
    if b.len() == 0 {
        assert(a + b =~= a);
    } else {
        assert((a + b).drop_last() =~= a + b.drop_last());
        law_turns_are_shown_once(dir, a, b.drop_last());
    }
    assert(frames_of(dir, a + b) =~= frames_of(dir, a) + frames_of(dir, b));
    if a.len() == 1 {
        assert(a.drop_last() =~= Seq::<EntryModel>::empty());
        assert(frames_of(dir, a.drop_last()).len() == 0);
    }
}

/// The picture of a turn with a marked one is that one.
pub proof fn law_marked_pictures_are_preferred(turn_dir: Seq<u8>)
    ensures
        preferred_frame(turn_dir, true) == beneath(turn_dir, encode_utf8("click.png"@)),
        preferred_frame(turn_dir, false) == beneath(turn_dir, encode_utf8("screenshot.png"@)),
        turn_prefix() == encode_utf8("turn-"@),
{
}

/// Paths are ordered at their first difference, by its bytes, where a
/// separator comes before any other byte; and a path comes before its
/// continuations.
pub proof fn law_paths_are_ordered_at_the_first_difference(
    common: Seq<u8>,
    x: u8,
    y: u8,
    s: Seq<u8>,
    t: Seq<u8>,
)
    requires
        x != y,
    ensures
        path_up_to(common + seq![x] + s, common + seq![y] + t) <==> x == 47 || (y != 47 && x < y),
        path_up_to(common, common + s),
        s.len() > 0 ==> !path_up_to(common + s, common),
    decreases common.len(),
{
    let a = common + seq![x] + s;
    let b = common + seq![y] + t;
    if common.len() == 0 {
        assert(a[0] == x && b[0] == y);
    } else {
        assert(a[0] == common[0] && b[0] == common[0]);
        assert(a.skip(1) =~= common.skip(1) + seq![x] + s);
        assert(b.skip(1) =~= common.skip(1) + seq![y] + t);
        assert((common + s)[0] == common[0]);
        assert((common + s).skip(1) =~= common.skip(1) + s);
        law_paths_are_ordered_at_the_first_difference(common.skip(1), x, y, s, t);
    }
}

/// Frames are shown in the order of their times, and at one time in the order
/// of their paths.
pub proof fn law_frames_are_shown_by_time(frames: Seq<FrameModel>, i: int, j: int)
    requires
        in_order(frames),
        0 <= i <= j < frames.len(),
    ensures
        frames[i].t_ms <= frames[j].t_ms,
        frames[i].t_ms == frames[j].t_ms ==> path_up_to(frames[i].path, frames[j].path),
{
    assert(frame_up_to(frames[i], frames[j]));
}

/// A frame is shown until the next one is due, and the last one until the end,
/// but never for less than a quarter of a second; and not a moment longer.
pub proof fn law_frames_last_until_the_next(frames: Seq<FrameModel>, total_ms: u64, i: int)
    requires
        0 <= i < frames.len(),
    ensures
        durations(frames, total_ms).len() == frames.len(),
        ({
            let from: int = if i == 0 {
                0
            } else {
                frames[i].t_ms as int
            };
            let until: int = if i == frames.len() - 1 {
                total_ms as int
            } else {
                frames[i + 1].t_ms as int
            };
            durations(frames, total_ms)[i] == (if until - from > 250 {
                until - from
            } else {
                250
            })
        }),
{
}

/// A time in seconds with three decimals is read back: the digits before and
/// behind the point make up its milliseconds.
pub proof fn law_seconds_are_read_back(ms: u64)
    ensures
        exists|whole: Seq<char>, part: Seq<char>|
            seconds_text(ms) == #[trigger] (whole + seq!['.'] + part) && part.len() == 3 && digits_value(
                whole,
                10,
            ) is Some && digits_value(part, 10) is Some && digits_value(whole, 10)->0 * 1000
                + digits_value(part, 10)->0 == ms,
        ms < FORMAT_LIMIT_MS ==> time_arg(ms) == EncodeArgModel::Text(seconds_text(ms)),
        ms >= FORMAT_LIMIT_MS ==> time_arg(ms) == EncodeArgModel::Seconds(ms),
{
    let whole = decimal((ms / 1000) as nat);
    let rest = (ms % 1000) as nat;
    let part = zero_padded(decimal(rest), 3);
    lemma_numeral_reads_back((ms / 1000) as nat, 10);
    lemma_numeral_reads_back(rest, 10);
    lemma_three_digits(rest);
    if decimal(rest).len() < 3 {
        lemma_zeros_in_front((3 - decimal(rest).len()) as nat, decimal(rest), 10);
    }
    assert(seconds_text(ms) == whole + seq!['.'] + part);
}

/// A number below a thousand has at most three digits.
proof fn lemma_three_digits(n: nat)
    requires
        n < 1000,
    ensures
        decimal(n).len() <= 3,
{
    reveal_with_fuel(crate::text::numeral, 4);
    assert(n / 10 < 100);
    assert(n / 10 / 10 < 10);
}

/// The encoder is given each frame once, in order, as a picture that is shown
/// for the frame's time.
pub proof fn law_every_frame_is_encoded(
    frames: Seq<FrameModel>,
    shown: Seq<u64>,
    n: nat,
    i: int,
)
    requires
        0 <= i < n,
    ensures
        input_args(frames, shown, n).len() == 6 * n,
        input_args(frames, shown, n)[6 * i] == EncodeArgModel::Text("-loop"@),
        input_args(frames, shown, n)[6 * i + 1] == EncodeArgModel::Text("1"@),
        input_args(frames, shown, n)[6 * i + 2] == EncodeArgModel::Text("-t"@),
        input_args(frames, shown, n)[6 * i + 3] == time_arg(shown[i]),
        input_args(frames, shown, n)[6 * i + 4] == EncodeArgModel::Text("-i"@),
        input_args(frames, shown, n)[6 * i + 5] == EncodeArgModel::Path(frames[i].path),
    decreases n,
{
    if n > 1 {
        let m = (n - 1) as nat;
        law_every_frame_is_encoded(
            frames,
            shown,
            m,
            if i < m {
                i
            } else {
                0
            },
        );
    } else {
        assert(input_args(frames, shown, 0).len() == 0);
    }
}

/// The filter that fits a picture into the frame: scaled down to it without
/// distortion, and padded to it evenly.
pub open spec fn fitting(width: u32, height: u32, i: nat) -> Seq<char> {
    "["@ + decimal(i) + ":v]scale="@ + (decimal(width as nat) + ":"@ + decimal(height as nat))
        + ":force_original_aspect_ratio=decrease,pad="@ + (decimal(width as nat) + ":"@ + decimal(
        height as nat,
    )) + ":(ow-iw)/2:(oh-ih)/2,setsar=1,format=rgba[v"@ + decimal(i) + "];"@
}

/// Every picture is fitted into the frame, whatever its number, and the fitted
/// pictures are named in order.
pub proof fn law_every_picture_is_fitted(width: u32, height: u32, n: nat, i: nat)
    requires
        i < n,
    ensures
        exists|p: int|
            0 <= p <= p + fitting(width, height, i).len() <= fit_filters(width, height, n).len()
                && #[trigger] fit_filters(width, height, n).subrange(
                p,
                p + fitting(width, height, i).len(),
            ) == fitting(width, height, i),
        exists|p: int|
            0 <= p <= p + decimal(i).len() + 3 <= fitted_names(n).len()
                && #[trigger] fitted_names(n).subrange(p, p + decimal(i).len() + 3) == seq!['[', 'v']
                + decimal(i) + seq![']'],
        fit_filters(width, height, n).len() == fit_filters(width, height, (n - 1) as nat).len() + fitting(
            width,
            height,
            (n - 1) as nat,
        ).len(),
        fitted_names(n).len() == fitted_names((n - 1) as nat).len() + decimal((n - 1) as nat).len() + 3,
    decreases n,
{
    let m = (n - 1) as nat;
    let all = fit_filters(width, height, n);
    let before = fit_filters(width, height, m);
    let names = fitted_names(n);
    let earlier = fitted_names(m);
    reveal_strlit("[v");
    reveal_strlit("]");
    assert("[v"@ + decimal(m) + "]"@ =~= seq!['[', 'v'] + decimal(m) + seq![']']);
    assert(all == before + fitting(width, height, m));
    assert(names == earlier + (seq!['[', 'v'] + decimal(m) + seq![']']));
    if i == m {
        let p = before.len() as int;
        assert(all.subrange(p, p + fitting(width, height, i).len()) =~= fitting(width, height, i));
        let q = earlier.len() as int;
        assert(names.subrange(q, q + decimal(i).len() + 3) =~= seq!['[', 'v'] + decimal(i) + seq![']']);
    } else {
        law_every_picture_is_fitted(width, height, m, i);
        let p = choose|p: int|
            0 <= p <= p + fitting(width, height, i).len() <= before.len() && #[trigger] before.subrange(
                p,
                p + fitting(width, height, i).len(),
            ) == fitting(width, height, i);
        assert(all.subrange(p, p + fitting(width, height, i).len()) =~= before.subrange(
            p,
            p + fitting(width, height, i).len(),
        ));
        let q = choose|q: int|
            0 <= q <= q + decimal(i).len() + 3 <= earlier.len() && #[trigger] earlier.subrange(
                q,
                q + decimal(i).len() + 3,
            ) == seq!['[', 'v'] + decimal(i) + seq![']'];
        assert(names.subrange(q, q + decimal(i).len() + 3) =~= earlier.subrange(
            q,
            q + decimal(i).len() + 3,
        ));
    }
}

/// The encoder is run over all frames, fits them all into the frame, shows
/// them one after the other, and writes to the output.
pub proof fn law_the_encoder_gets_it_all(
    frames: Seq<FrameModel>,
    total_ms: u64,
    width: u32,
    height: u32,
    output: Seq<u8>,
    i: int,
)
    requires
        0 <= i < frames.len(),
    ensures
        ({
            let args = encode_args(frames, total_ms, width, height, output);
            let t = 3 + 6 * frames.len() as int;
            &&& args.len() == t + 17
            &&& args[0] == EncodeArgModel::Text("-y"@)
            &&& args[3 + 6 * i + 3] == time_arg(durations(frames, total_ms)[i])
            &&& args[3 + 6 * i + 5] == EncodeArgModel::Path(frames[i].path)
            &&& args[t] == EncodeArgModel::Text("-filter_complex"@)
            &&& args[t + 1] == EncodeArgModel::Text(
                fit_filters(width, height, frames.len()) + (fitted_names(frames.len()) + "concat=n="@ + decimal(
                    frames.len(),
                ) + ":v=1:a=0,format=yuv420p[v]"@),
            )
            &&& args[t + 2] == EncodeArgModel::Text("-map"@) && args[t + 3] == EncodeArgModel::Text(
                "[v]"@,
            )
            &&& args[t + 4] == EncodeArgModel::Text("-r"@) && args[t + 5] == EncodeArgModel::Text(
                decimal(10),
            )
            &&& args[t + 6] == EncodeArgModel::Text("-c:v"@) && args[t + 7] == EncodeArgModel::Text(
                "libx264"@,
            )
            &&& args[t + 8] == EncodeArgModel::Text("-preset"@) && args[t + 9] == EncodeArgModel::Text(
                "ultrafast"@,
            )
            &&& args[t + 10] == EncodeArgModel::Text("-pix_fmt"@) && args[t + 11] == EncodeArgModel::Text(
                "yuv420p"@,
            )
            &&& args[t + 12] == EncodeArgModel::Text("-movflags"@) && args[t + 13]
                == EncodeArgModel::Text("+faststart"@)
            &&& args[t + 14] == EncodeArgModel::Text("-g"@) && args[t + 15] == EncodeArgModel::Text(
                decimal(10),
            )
            &&& args.last() == EncodeArgModel::Path(output)
        }),
{
    law_every_frame_is_encoded(frames, durations(frames, total_ms), frames.len(), i);
    assert(FPS == 10);
    assert(filter_graph(width, height, frames.len()) == fit_filters(width, height, frames.len()) + (
    fitted_names(frames.len()) + "concat=n="@ + decimal(frames.len()) + ":v=1:a=0,format=yuv420p[v]"@));
}

/// An encoder that has exited is taken at its word, whenever it is seen. One
/// that runs is waited for up to the deadline and killed from then on, as one
/// that took too long; one whose state is unknown is killed.
pub proof fn law_encoders_are_waited_for(success: bool, past_deadline: bool)
    ensures
        encoder_action(EncoderStatus::Exited { success }, past_deadline) == (EncoderAction::Finish {
            success,
        }),
        encoder_action(EncoderStatus::Running, false) == (EncoderAction::Wait { ms: 50 }),
        encoder_action(EncoderStatus::Running, true) == (EncoderAction::Kill { timed_out: true }),
        encoder_action(EncoderStatus::Lost, past_deadline) == (EncoderAction::Kill { timed_out: false }),
{
}

/// Without frames there is no video, whatever the encoder says. With frames the
/// encoder has to run, and its word is what came of it.
pub proof fn law_videos_come_of_frames(frames: nat, outcome: Option<Result<(), String>>, e: String)
    ensures
        encoding(0, outcome) == Some(EncodeResult::NoFrames),
        frames > 0 ==> encoding(frames, None) is None,
        frames > 0 ==> encoding(frames, Some(Ok(()))) == Some(EncodeResult::Encoded),
        frames > 0 ==> encoding(frames, Some(Err(e))) == Some(EncodeResult::Failed(e)),
{
}

} // verus!
