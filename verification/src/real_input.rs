//! Real (kernel-level) input: the tier that moves the user's own pointer.
//!
//! Real input goes where the pointer is, so a click may only follow a
//! placement that the compositor has confirmed. The way from device to
//! logical coordinates differs from host to host; every move is therefore a
//! closed loop of commanding a position, reading the cursor back and
//! correcting, which gives up without a click when it does not converge.
use crate::evdev::{key_code, keycode, lowered, modifier_code, modifier_keycode};
use crate::path::{beneath, copy_bytes, put_beneath};
use crate::text::{
    chars_of, decimal, first_position, lossy, piece, push_decimal, push_signed_decimal,
    push_string, same_text, shown, signed_decimal, string_list, string_of, texts, trim, trimmed,
};
use crate::uinput_device;
use crate::uinput_device::NotImplemented;
use vstd::prelude::*;
use vstd::utf8::encode_utf8;

verus! {

/// How many corrections a placement may take.
pub const MAX_PLACEMENT_ITERS: usize = 8;

/// How long the compositor is given to process a move, in milliseconds.
pub const MOVE_SETTLE_MS: u64 = 60;

/// The pause between two clicks, in milliseconds.
pub const CLICK_PAUSE_MS: u64 = 80;

/// The mechanism that the real tier drives.
#[derive(Debug, Clone)]
pub enum Backend {
    /// The ydotool client of a running ydotoold, with its socket's path.
    Ydotool { socket: Vec<u8> },
    /// A virtual device of the driver's own, on `/dev/uinput`.
    DevUinput,
}

/// What a backend is.
pub enum BackendModel {
    Ydotool { path: Seq<u8> },
    DevUinput,
}

impl View for Backend {
    type V = BackendModel;

    open spec fn view(&self) -> BackendModel {
        match self {
            Backend::Ydotool { socket } => BackendModel::Ydotool { path: socket@ },
            Backend::DevUinput => BackendModel::DevUinput,
        }
    }
}

impl Backend {
    /// The name of the mechanism.
    pub fn name(&self) -> (r: &'static str)
        ensures
            r@ == (match self@ {
                BackendModel::Ydotool { .. } => "ydotool"@,
                BackendModel::DevUinput => "uinput"@,
            }),
    {
        match self {
            Backend::Ydotool { .. } => "ydotool",
            Backend::DevUinput => "uinput",
        }
    }
}

/// What the real tier can reach on a host.
#[derive(Debug, Clone)]
pub struct Capability {
    /// The socket of a ydotoold, if there is one.
    pub ydotool_socket: Option<Vec<u8>>,
    /// Whether `/dev/uinput` is there and can be written.
    pub dev_uinput_writable: bool,
    /// Whether the process is in the `input` group.
    pub in_input_group: bool,
}

/// The bytes of a path, if there is one.
pub open spec fn path_of(p: Option<Vec<u8>>) -> Option<Seq<u8>> {
    match p {
        Some(v) => Some(v@),
        None => None,
    }
}

impl Capability {
    /// The summary in words.
    pub open spec fn summary_words(&self) -> Seq<char> {
        match self.ydotool_socket {
            Some(socket) => "ydotoold socket "@ + shown(socket@) + " (preferred)"@,
            None => if self.dev_uinput_writable {
                "/dev/uinput writable but ydotoold not running — start ydotoold; direct /dev/uinput injection is a tracked follow-up"@
            } else {
                "unavailable — no ydotoold socket and /dev/uinput not writable ("@
                    + (if self.in_input_group {
                    "in 'input' group"@
                } else {
                    "NOT in 'input' group"@
                }) + ")"@
            },
        }
    }

    /// The backend to use: ydotool where its socket was found, and none
    /// otherwise. A writable `/dev/uinput` is reported but not chosen.
    pub fn preferred_backend(&self) -> (r: Option<Backend>)
        ensures
            (match self.ydotool_socket {
                Some(socket) => r is Some && r->0@ == (BackendModel::Ydotool { path: socket@ }),
                None => r is None,
            }),
    {
        match &self.ydotool_socket {
            Some(socket) => Some(Backend::Ydotool { socket: copy_bytes(socket) }),
            None => None,
        }
    }

    /// What can be reached, in one line.
    pub fn summary(&self) -> (r: String)
        ensures
            r@ == self.summary_words(),
    {
        match &self.ydotool_socket {
            Some(socket) => {
                let mut r = "ydotoold socket ".to_owned();
                r.append(lossy(socket).as_str());
                r.append(" (preferred)");
                r
            },
            None => if self.dev_uinput_writable {
                "/dev/uinput writable but ydotoold not running — start ydotoold; direct /dev/uinput injection is a tracked follow-up".to_owned()
            } else {
                let mut r =
                    "unavailable — no ydotoold socket and /dev/uinput not writable (".to_owned();
                if self.in_input_group {
                    r.append("in 'input' group");
                } else {
                    r.append("NOT in 'input' group");
                }
                r.append(")");
                r
            },
        }
    }
}

// What can be reached

/// The paths at which ydotoold's socket may stand, the likeliest first: the
/// one that `$YDOTOOL_SOCKET` names, the one in the runtime directory, the one
/// in the runtime directory of the user's number, and the one under `/tmp`.
pub open spec fn candidate_paths(
    named: Option<Seq<u8>>,
    runtime_dir: Option<Seq<u8>>,
    uid: Option<Seq<char>>,
) -> Seq<Seq<u8>> {
    (match named {
        Some(p) => seq![p],
        None => seq![],
    }) + (match runtime_dir {
        Some(d) => seq![beneath(d, encode_utf8(".ydotool_socket"@))],
        None => seq![],
    }) + (match uid {
        Some(u) => seq![encode_utf8("/run/user/"@ + u + "/.ydotool_socket"@)],
        None => seq![],
    }) + seq![encode_utf8("/tmp/.ydotool_socket"@)]
}

/// The bytes of the paths in a list.
pub open spec fn path_list(v: Seq<Vec<u8>>) -> Seq<Seq<u8>> {
    v.map_values(|p: Vec<u8>| p@)
}

fn push_path(list: &mut Vec<Vec<u8>>, p: Vec<u8>)
    ensures
        path_list(final(list)@) == path_list(old(list)@).push(p@),
{
    list.push(p);
    assert(path_list(list@) =~= path_list(old(list)@).push(p@));
}

/// The paths at which ydotoold's socket may stand, the likeliest first.
pub fn socket_candidates(
    named: Option<&[u8]>,
    runtime_dir: Option<&[u8]>,
    uid: Option<&str>,
) -> (r: Vec<Vec<u8>>)
    ensures
        path_list(r@) == candidate_paths(
            (match named {
                Some(p) => Some(p@),
                None => None,
            }),
            (match runtime_dir {
                Some(d) => Some(d@),
                None => None,
            }),
            (match uid {
                Some(u) => Some(u@),
                None => None,
            }),
        ),
{
    let mut r: Vec<Vec<u8>> = Vec::new();
    if let Some(p) = named {
        push_path(&mut r, copy_bytes(p));
    }
    if let Some(d) = runtime_dir {
        push_path(&mut r, put_beneath(d, ".ydotool_socket".as_bytes()));
    }
    if let Some(u) = uid {
        let mut path = "/run/user/".to_owned();
        path.append(u);
        path.append("/.ydotool_socket");
        push_path(&mut r, copy_bytes(path.as_str().as_bytes()));
    }
    push_path(&mut r, copy_bytes("/tmp/.ydotool_socket".as_bytes()));
    assert(path_list(r@) =~= candidate_paths(
        (match named {
            Some(p) => Some(p@),
            None => None,
        }),
        (match runtime_dir {
            Some(d) => Some(d@),
            None => None,
        }),
        (match uid {
            Some(u) => Some(u@),
            None => None,
        }),
    ));
    r
}

/// The first of the candidates that is a socket.
pub fn find_ydotool_socket(candidates: &[Vec<u8>], is_socket: &[bool]) -> (r: Option<Vec<u8>>)
    requires
        candidates@.len() == is_socket@.len(),
    ensures
        path_of(r) == (match is_socket@.index_of_first(true) {
            Some(i) => Some(candidates@[i]@),
            None => None,
        }),
{
    let mut i: usize = 0;
    while i < candidates.len()
        invariant
            i <= candidates.len(),
            candidates@.len() == is_socket@.len(),
            forall|j: int| 0 <= j < i ==> !is_socket@[j],
        decreases candidates.len() - i,
    {
        if is_socket[i] {
            proof {
                is_socket@.index_of_first_ensures(true);
                assert(is_socket@.contains(true));
            }
            return Some(copy_bytes(&candidates[i]));
        }
        i += 1;
    }
    proof {
        is_socket@.index_of_first_ensures(true);
    }
    None
}

/// Whether one of the process's groups is `input`.
pub fn in_input_group(groups: &[String]) -> (r: bool)
    ensures
        r == texts(groups@).contains("input"@),
{
    let mut i: usize = 0;
    while i < groups.len()
        invariant
            i <= groups.len(),
            forall|j: int| 0 <= j < i ==> #[trigger] texts(groups@)[j] != "input"@,
        decreases groups.len() - i,
    {
        if same_text(groups[i].as_str(), "input") {
            assert(texts(groups@)[i as int] == "input"@);
            return true;
        }
        i += 1;
    }
    false
}

/// What the real tier can reach, from what was probed.
pub fn capability(
    candidates: &[Vec<u8>],
    is_socket: &[bool],
    dev_uinput_writable: bool,
    groups: &[String],
) -> (r: Capability)
    requires
        candidates@.len() == is_socket@.len(),
    ensures
        path_of(r.ydotool_socket) == (match is_socket@.index_of_first(true) {
            Some(i) => Some(candidates@[i]@),
            None => None,
        }),
        r.dev_uinput_writable == dev_uinput_writable,
        r.in_input_group == texts(groups@).contains("input"@),
{
    Capability {
        ydotool_socket: find_ydotool_socket(candidates, is_socket),
        dev_uinput_writable,
        in_input_group: in_input_group(groups),
    }
}

// Commands

/// Why real input failed.
#[derive(Debug)]
pub enum RealInputError {
    /// No backend can be used. Holds the summary of what can be reached.
    Unavailable(String),
    /// A key has no keycode. Holds the key's name.
    NoKeycode(String),
    /// The backend is not implemented.
    NotImplemented(NotImplemented),
    /// ydotool failed. Holds its first argument and what it said.
    Ydotool { verb: YdotoolVerb, said: String },
    /// The compositor did not tell the cursor's position.
    CursorposFailed,
    /// The compositor told the cursor's position in another form.
    UnexpectedCursorpos,
}

impl RealInputError {
    /// The failure in words.
    pub open spec fn words(self) -> Seq<char> {
        match self {
            RealInputError::Unavailable(summary) => "real-input tier unavailable: "@ + summary@
                + ". Start ydotoold (e.g. `systemctl --user start ydotool` or run `ydotoold`), or make /dev/uinput writable (add your user to the 'input' group and re-login). See `cua-driver doctor`."@,
            RealInputError::NoKeycode(key) => "no evdev keycode for key '"@ + key@ + "'"@,
            RealInputError::NotImplemented(e) => e.words(),
            RealInputError::Ydotool { verb, said } => "ydotool \""@ + verb.word() + "\" failed: "@
                + said@,
            RealInputError::CursorposFailed => "hyprctl cursorpos failed"@,
            RealInputError::UnexpectedCursorpos => "unexpected cursorpos output"@,
        }
    }

    /// The failure in words.
    pub fn message(&self) -> (r: String)
        ensures
            r@ == self.words(),
    {
        match self {
            RealInputError::Unavailable(summary) => {
                let mut r = "real-input tier unavailable: ".to_owned();
                r.append(summary.as_str());
                r.append(
                    ". Start ydotoold (e.g. `systemctl --user start ydotool` or run `ydotoold`), or make /dev/uinput writable (add your user to the 'input' group and re-login). See `cua-driver doctor`.",
                );
                r
            },
            RealInputError::NoKeycode(key) => {
                let mut r = "no evdev keycode for key '".to_owned();
                r.append(key.as_str());
                r.append("'");
                r
            },
            RealInputError::NotImplemented(e) => e.message(),
            RealInputError::Ydotool { verb, said } => {
                let mut r = "ydotool \"".to_owned();
                r.append(verb.text());
                r.append("\" failed: ");
                r.append(said.as_str());
                r
            },
            RealInputError::CursorposFailed => "hyprctl cursorpos failed".to_owned(),
            RealInputError::UnexpectedCursorpos => "unexpected cursorpos output".to_owned(),
        }
    }
}

/// What ydotool is asked to do.
#[derive(Debug, Clone, Copy, PartialEq, Eq)]
pub enum YdotoolVerb {
    MouseMove,
    Click,
    Type,
    Key,
}

impl YdotoolVerb {
    /// The word for it on the command line.
    pub open spec fn word(self) -> Seq<char> {
        match self {
            YdotoolVerb::MouseMove => "mousemove"@,
            YdotoolVerb::Click => "click"@,
            YdotoolVerb::Type => "type"@,
            YdotoolVerb::Key => "key"@,
        }
    }

    /// The word for it on the command line.
    pub fn text(&self) -> (r: &'static str)
        ensures
            r@ == self.word(),
    {
        match self {
            YdotoolVerb::MouseMove => "mousemove",
            YdotoolVerb::Click => "click",
            YdotoolVerb::Type => "type",
            YdotoolVerb::Key => "key",
        }
    }
}

/// A run of ydotool.
#[derive(Debug)]
pub struct YdotoolCall {
    /// The path of the socket, for `$YDOTOOL_SOCKET`.
    pub socket: Vec<u8>,
    /// The first argument.
    pub verb: YdotoolVerb,
    /// The other arguments.
    pub rest: Vec<String>,
}

/// What a run of ydotool is.
pub struct YdotoolModel {
    pub socket: Seq<u8>,
    pub verb: YdotoolVerb,
    pub rest: Seq<Seq<char>>,
}

impl View for YdotoolCall {
    type V = YdotoolModel;

    open spec fn view(&self) -> YdotoolModel {
        YdotoolModel { socket: self.socket@, verb: self.verb, rest: texts(self.rest@) }
    }
}

impl YdotoolCall {
    /// The arguments of the run.
    pub fn args(&self) -> (r: Vec<String>)
        ensures
            texts(r@) == seq![self@.verb.word()] + self@.rest,
    {
        let mut r: Vec<String> = Vec::new();
        push_string(&mut r, self.verb.text().to_owned());
        let mut i: usize = 0;
        while i < self.rest.len()
            invariant
                i <= self.rest.len(),
                texts(r@) == seq![self@.verb.word()] + self@.rest.take(i as int),
            decreases self.rest.len() - i,
        {
            push_string(&mut r, self.rest[i].clone());
            i += 1;
            assert(texts(r@) =~= seq![self@.verb.word()] + self@.rest.take(i as int));
        }
        assert(self@.rest.take(i as int) =~= self@.rest);
        r
    }

    /// What became of the run, by its exit and what it wrote to its error
    /// stream.
    pub fn outcome(&self, success: bool, stderr: &[u8]) -> (r: Result<(), RealInputError>)
        ensures
            r is Ok <==> success,
            r matches Err(e) ==> (e matches RealInputError::Ydotool { verb, said } && verb == self.verb
                && said@ == trimmed(shown(stderr@))),
    {
        if success {
            return Ok(());
        }
        let said = trim(&chars_of(lossy(stderr).as_str()));
        Err(RealInputError::Ydotool { verb: self.verb, said: string_of(&said) })
    }
}

/// A key going down or up.
pub struct KeyEvent {
    pub code: u16,
    pub down: bool,
}

/// The events of a key press: the modifiers go down in order, the key goes
/// down and up, and the modifiers go up in reverse order.
pub open spec fn key_events(main: u16, mods: Seq<u16>) -> Seq<KeyEvent> {
    mods.map_values(|m: u16| KeyEvent { code: m, down: true }) + seq![
        KeyEvent { code: main, down: true },
        KeyEvent { code: main, down: false },
    ] + mods.reverse().map_values(|m: u16| KeyEvent { code: m, down: false })
}

/// A key event as ydotool takes it.
pub open spec fn event_text(e: KeyEvent) -> Seq<char> {
    decimal(e.code as nat) + (if e.down {
        ":1"@
    } else {
        ":0"@
    })
}

/// Key events as ydotool takes them.
pub open spec fn event_texts(events: Seq<KeyEvent>) -> Seq<Seq<char>> {
    events.map_values(|e: KeyEvent| event_text(e))
}

fn push_event(list: &mut Vec<String>, code: u16, down: bool)
    ensures
        texts(final(list)@) == texts(old(list)@).push(event_text(KeyEvent { code, down })),
{
    let mut s = String::new();
    push_decimal(&mut s, code as u64);
    assert(s@ =~= decimal(code as nat));
    if down {
        s.append(":1");
    } else {
        s.append(":0");
    }
    push_string(list, s);
}

/// The codes of the modifiers among names in lower case; a name that is no
/// modifier counts for nothing.
pub open spec fn modifier_codes(names: Seq<Seq<char>>) -> Seq<u16>
    decreases names.len(),
{
    if names.len() == 0 {
        Seq::empty()
    } else {
        let before = modifier_codes(names.drop_last());
        match modifier_code(names.last()) {
            Some(code) => before.push(code),
            None => before,
        }
    }
}

/// Names in lower case.
pub open spec fn lowered_names(names: Seq<&str>) -> Seq<Seq<char>> {
    names.map_values(|n: &str| lowered(n@))
}

/// The codes of the modifiers among names.
fn modifier_keycodes(names: &[&str]) -> (r: Vec<u16>)
    ensures
        r@ == modifier_codes(lowered_names(names@)),
{
    let mut r: Vec<u16> = Vec::new();
    let mut i: usize = 0;
    while i < names.len()
        invariant
            i <= names.len(),
            r@ == modifier_codes(lowered_names(names@).take(i as int)),
        decreases names.len() - i,
    {
        let ghost upto = lowered_names(names@).take(i + 1);
        assert(upto.drop_last() =~= lowered_names(names@).take(i as int));
        assert(upto.last() == lowered(names@[i as int]@));
        if let Some(code) = modifier_keycode(names[i]) {
            r.push(code);
        }
        i += 1;
    }
    assert(lowered_names(names@).take(i as int) =~= lowered_names(names@));
    r
}

/// The code by which ydotool knows a click of a button: 1 is the left, 2 the
/// middle and 3 the right one.
pub open spec fn click_code(button: u8) -> Seq<char> {
    if button == 3 {
        "0xC1"@
    } else if button == 2 {
        "0xC2"@
    } else {
        "0xC0"@
    }
}

/// A device coordinate brought into the range of the virtual device.
fn device_coordinate(v: i64) -> (r: i32)
    ensures
        r == (if v > i32::MAX {
            i32::MAX as int
        } else if v < i32::MIN {
            i32::MIN as int
        } else {
            v as int
        }),
{
    if v > 2147483647 {
        2147483647
    } else if v < -2147483648 {
        -2147483648
    } else {
        v as i32
    }
}

/// A session of real input over a chosen backend.
pub struct RealInput {
    backend: Backend,
}

impl View for RealInput {
    type V = BackendModel;

    closed spec fn view(&self) -> BackendModel {
        self.backend@
    }
}

/// What becomes of an operation: a run of ydotool with a verb and its other
/// arguments, or the failure of the backend that is not implemented.
pub open spec fn commanded(
    backend: BackendModel,
    verb: YdotoolVerb,
    rest: Seq<Seq<char>>,
    r: Result<Option<YdotoolCall>, RealInputError>,
) -> bool {
    match backend {
        BackendModel::Ydotool { path } => r matches Ok(Some(call)) && call@ == (YdotoolModel {
            socket: path,
            verb,
            rest,
        }),
        BackendModel::DevUinput => r is Err && r->Err_0 == RealInputError::NotImplemented(NotImplemented),
    }
}

/// What the direct backend did, with no run of ydotool left to make.
fn done_directly(r: Result<(), NotImplemented>) -> (done: Result<Option<YdotoolCall>, RealInputError>)
    ensures
        (match r {
            Ok(_) => done matches Ok(None),
            Err(e) => done is Err && done->Err_0 == RealInputError::NotImplemented(e),
        }),
{
    match r {
        Ok(_) => Ok(None),
        Err(e) => Err(RealInputError::NotImplemented(e)),
    }
}

impl RealInput {
    /// Chooses a backend from what can be reached.
    pub fn detect(cap: &Capability) -> (r: Result<RealInput, RealInputError>)
        ensures
            (match cap.ydotool_socket {
                Some(socket) => r is Ok && r->Ok_0@ == (BackendModel::Ydotool { path: socket@ }),
                None => r is Err && (r->Err_0 matches RealInputError::Unavailable(s) && s@
                    == cap.summary_words()),
            }),
    {
        match cap.preferred_backend() {
            Some(backend) => Ok(RealInput { backend }),
            None => Err(RealInputError::Unavailable(cap.summary())),
        }
    }

    /// The name of the chosen mechanism.
    pub fn backend_name(&self) -> (r: &'static str)
        ensures
            r@ == (match self@ {
                BackendModel::Ydotool { .. } => "ydotool"@,
                BackendModel::DevUinput => "uinput"@,
            }),
    {
        self.backend.name()
    }

    /// Moves the pointer to a device position.
    pub fn backend_move_abs(&self, x: i64, y: i64) -> (r: Result<Option<YdotoolCall>, RealInputError>)
        ensures
            commanded(
                self@,
                YdotoolVerb::MouseMove,
                seq!["-a"@, "-x"@, signed_decimal(x as int), "-y"@, signed_decimal(y as int)],
                r,
            ),
    {
        match &self.backend {
            Backend::Ydotool { socket } => {
                let mut xs = String::new();
                push_signed_decimal(&mut xs, x);
                let mut ys = String::new();
                push_signed_decimal(&mut ys, y);
                assert(xs@ =~= signed_decimal(x as int));
                assert(ys@ =~= signed_decimal(y as int));
                let rest = string_list(&["-a", "-x", xs.as_str(), "-y", ys.as_str()]);
                assert(texts(rest@) =~= seq![
                    "-a"@,
                    "-x"@,
                    signed_decimal(x as int),
                    "-y"@,
                    signed_decimal(y as int),
                ]);
                Ok(Some(YdotoolCall { socket: copy_bytes(socket), verb: YdotoolVerb::MouseMove, rest }))
            },
            Backend::DevUinput => done_directly(uinput_device::move_abs(
                device_coordinate(x),
                device_coordinate(y),
            )),
        }
    }

    /// Clicks a button where the pointer is.
    pub fn backend_click(&self, button: u8) -> (r: Result<Option<YdotoolCall>, RealInputError>)
        ensures
            commanded(self@, YdotoolVerb::Click, seq![click_code(button)], r),
    {
        match &self.backend {
            Backend::Ydotool { socket } => {
                let code = if button == 3 {
                    "0xC1"
                } else if button == 2 {
                    "0xC2"
                } else {
                    "0xC0"
                };
                let rest = string_list(&[code]);
                assert(texts(rest@) =~= seq![click_code(button)]);
                Ok(Some(YdotoolCall { socket: copy_bytes(socket), verb: YdotoolVerb::Click, rest }))
            },
            Backend::DevUinput => done_directly(uinput_device::click(button)),
        }
    }

    /// Types a text as it stands.
    pub fn type_text(&self, text: &str) -> (r: Result<Option<YdotoolCall>, RealInputError>)
        ensures
            commanded(self@, YdotoolVerb::Type, seq!["--"@, text@], r),
    {
        match &self.backend {
            Backend::Ydotool { socket } => {
                let rest = string_list(&["--", text]);
                assert(texts(rest@) =~= seq!["--"@, text@]);
                Ok(Some(YdotoolCall { socket: copy_bytes(socket), verb: YdotoolVerb::Type, rest }))
            },
            Backend::DevUinput => done_directly(uinput_device::type_text(text)),
        }
    }

    /// Presses a key, given by its code, with modifiers.
    pub fn press(&self, main: u16, mods: &[u16]) -> (r: Result<Option<YdotoolCall>, RealInputError>)
        ensures
            commanded(self@, YdotoolVerb::Key, event_texts(key_events(main, mods@)), r),
    {
        match &self.backend {
            Backend::Ydotool { socket } => {
                let rest = key_arguments(main, mods);
                Ok(Some(YdotoolCall { socket: copy_bytes(socket), verb: YdotoolVerb::Key, rest }))
            },
            Backend::DevUinput => done_directly(uinput_device::key(main, mods)),
        }
    }

    /// Presses a named key with modifiers. Names that are no modifier are
    /// passed over.
    pub fn key(&self, key: &str, modifiers: &[&str]) -> (r: Result<Option<YdotoolCall>, RealInputError>)
        ensures
            (match key_code(lowered(key@)) {
                Some(main) => commanded(
                    self@,
                    YdotoolVerb::Key,
                    event_texts(key_events(main, modifier_codes(lowered_names(modifiers@)))),
                    r,
                ),
                None => r is Err && (r->Err_0 matches RealInputError::NoKeycode(name) && name@ == key@),
            }),
    {
        match keycode(key) {
            Some(main) => {
                let mods = modifier_keycodes(modifiers);
                self.press(main, &mods)
            },
            None => Err(RealInputError::NoKeycode(key.to_owned())),
        }
    }
}

/// The events of a key press as arguments.
fn key_arguments(main: u16, mods: &[u16]) -> (r: Vec<String>)
    ensures
        texts(r@) == event_texts(key_events(main, mods@)),
{
    let ghost events = key_events(main, mods@);
    let n: usize = mods.len();
    let mut r: Vec<String> = Vec::new();
    assert(texts(r@) =~= event_texts(events).take(0));
    let mut i: usize = 0;
    while i < n
        invariant
            i <= n == mods@.len(),
            events == key_events(main, mods@),
            texts(r@) == event_texts(events).take(i as int),
        decreases n - i,
    {
        push_event(&mut r, mods[i], true);
        assert(events[i as int] == (KeyEvent { code: mods@[i as int], down: true }));
        i += 1;
        assert(texts(r@) =~= event_texts(events).take(i as int));
    }
    push_event(&mut r, main, true);
    push_event(&mut r, main, false);
    assert(events[n as int] == (KeyEvent { code: main, down: true }));
    assert(events[n + 1] == (KeyEvent { code: main, down: false }));
    assert(texts(r@) =~= event_texts(events).take(n + 2));
    let mut left: usize = n;
    while left > 0
        invariant
            left <= n == mods@.len(),
            events == key_events(main, mods@),
            texts(r@) == event_texts(events).take(n + 2 + (n - left)),
        decreases left,
    {
        left -= 1;
        push_event(&mut r, mods[left], false);
        assert(events[n + 2 + (n - 1 - left)] == (KeyEvent { code: mods@[left as int], down: false }));
        assert(texts(r@) =~= event_texts(events).take(n + 2 + (n - left)));
    }
    assert(event_texts(events).take(events.len() as int) =~= event_texts(events));
    r
}

/// The keys that are held after some events, the last pressed at the end. A
/// key goes up only as the last pressed of those held.
pub open spec fn held_keys(events: Seq<KeyEvent>) -> Option<Seq<u16>>
    decreases events.len(),
{
    if events.len() == 0 {
        Some(Seq::empty())
    } else {
        match held_keys(events.drop_last()) {
            Some(held) => if events.last().down {
                Some(held.push(events.last().code))
            } else if held.len() > 0 && held.last() == events.last().code {
                Some(held.drop_last())
            } else {
                None
            },
            None => None,
        }
    }
}

/// While the first modifiers go down, they are the keys held.
proof fn lemma_pressing(main: u16, mods: Seq<u16>, k: int)
    requires
        0 <= k <= mods.len(),
    ensures
        held_keys(key_events(main, mods).take(k)) == Some(mods.take(k)),
    decreases k,
{
    let events = key_events(main, mods);
    if k > 0 {
        lemma_pressing(main, mods, k - 1);
        assert(events.take(k).drop_last() =~= events.take(k - 1));
        assert(events.take(k).last() == (KeyEvent { code: mods[k - 1], down: true }));
        assert(mods.take(k - 1).push(mods[k - 1]) =~= mods.take(k));
    } else {
        assert(mods.take(0) =~= Seq::<u16>::empty());
    }
}

/// While the last modifiers go up, the first ones are the keys held.
proof fn lemma_releasing(main: u16, mods: Seq<u16>, k: int)
    requires
        0 <= k <= mods.len(),
        held_keys(key_events(main, mods).take(mods.len() as int + 2)) == Some(mods),
    ensures
        held_keys(key_events(main, mods).take(mods.len() + 2 + k)) == Some(mods.take(mods.len() - k)),
    decreases k,
{
    let events = key_events(main, mods);
    let n = mods.len() as int;
    if k > 0 {
        lemma_releasing(main, mods, k - 1);
        assert(events.take(n + 2 + k).drop_last() =~= events.take(n + 2 + k - 1));
        assert(events.take(n + 2 + k).last() == (KeyEvent { code: mods[n - k], down: false }));
        assert(mods.take(n - k + 1).drop_last() =~= mods.take(n - k));
    } else {
        assert(mods.take(n) =~= mods);
    }
}

/// A key goes down while all of its modifiers are held and nothing else is,
/// and after the press no key is held.
pub proof fn law_key_presses_release_every_key(main: u16, mods: Seq<u16>)
    ensures
        held_keys(key_events(main, mods).take(mods.len() as int + 1)) == Some(mods.push(main)),
        held_keys(key_events(main, mods)) == Some(Seq::<u16>::empty()),
{
    let events = key_events(main, mods);
    let n = mods.len() as int;
    lemma_pressing(main, mods, n);
    assert(mods.take(n) =~= mods);
    assert(events.take(n + 1).drop_last() =~= events.take(n));
    assert(events.take(n + 1).last() == (KeyEvent { code: main, down: true }));
    assert(events.take(n + 2).drop_last() =~= events.take(n + 1));
    assert(events.take(n + 2).last() == (KeyEvent { code: main, down: false }));
    assert(mods.push(main).drop_last() =~= mods);
    lemma_releasing(main, mods, n);
    assert(mods.take(0) =~= Seq::<u16>::empty());
    assert(events.take(n + 2 + n) =~= events);
}

// The cursor

/// The two numerals in what the compositor says of the cursor.
pub open spec fn cursor_fields(said: Seq<char>) -> Option<(Seq<char>, Seq<char>)> {
    let s = trimmed(said);
    match s.index_of_first(',') {
        Some(i) => Some((trimmed(s.take(i)), trimmed(s.skip(i + 1)))),
        None => None,
    }
}

/// Takes the two numerals from a text of the form `x, y`.
pub fn split_cursorpos(said: &str) -> (r: Result<(String, String), RealInputError>)
    ensures
        (match cursor_fields(said@) {
            Some((x, y)) => r is Ok && r->Ok_0.0@ == x && r->Ok_0.1@ == y,
            None => r is Err && r->Err_0 is UnexpectedCursorpos,
        }),
{
    let s = trim(&chars_of(said));
    let n: usize = s.len();
    match first_position(&s, ',') {
        Some(i) => {
            let x = trim(&piece(&s, 0, i));
            let y = trim(&piece(&s, i + 1, n));
            assert(s@.subrange(0, i as int) =~= s@.take(i as int));
            assert(s@.subrange(i + 1, s@.len() as int) =~= s@.skip(i + 1));
            Ok((string_of(&x), string_of(&y)))
        },
        None => Err(RealInputError::UnexpectedCursorpos),
    }
}

/// Takes the two numerals of the cursor's position from the compositor's exit
/// and output.
pub fn cursorpos_fields(success: bool, stdout: &[u8]) -> (r: Result<(String, String), RealInputError>)
    ensures
        !success ==> r is Err && r->Err_0 is CursorposFailed,
        success ==> (match cursor_fields(shown(stdout@)) {
            Some((x, y)) => r is Ok && r->Ok_0.0@ == x && r->Ok_0.1@ == y,
            None => r is Err && r->Err_0 is UnexpectedCursorpos,
        }),
{
    if !success {
        return Err(RealInputError::CursorposFailed);
    }
    split_cursorpos(lossy(stdout).as_str())
}

} // verus!
