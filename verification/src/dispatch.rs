//! Commands to the Hyprland compositor.
//!
//! Hyprland 0.55 replaced the words of `hyprctl dispatch` by Lua. Every
//! request is therefore a list of commands, the modern one first and the
//! legacy one after it, which are tried in order until the compositor answers
//! one of them with `ok`.
use crate::text::{
    begins_with, blank, chars_of, decimal, hexadecimal, lemma_numeral_reads_back, lossy,
    push_decimal, push_hexadecimal, push_string, shown, starts_with, texts, trim_start,
    trimmed_start,
};
use crate::text_laws::{law_trimming_the_start_keeps_the_end, lemma_trimmed_front};
use vstd::prelude::*;

verus! {

/// The hidden workspace on which background launches land.
pub const BACKGROUND_WORKSPACE: &'static str = "special:cua";

/// The name of the hidden workspace among the special ones.
pub const BACKGROUND_NAME: &'static str = "cua";

// Answers

/// Whether an answer of the compositor means that a command was accepted.
/// hyprctl can succeed while it prints an error.
pub open spec fn accepting(said: Seq<char>) -> bool {
    begins_with(trimmed_start(said), "ok"@)
}

/// Whether an answer means that a command was accepted.
pub fn says_ok(said: &str) -> (r: bool)
    ensures
        r == accepting(said@),
{
    starts_with(&trim_start(said), &chars_of("ok"))
}

/// Whether a command was accepted, from hyprctl's exit and output.
pub fn hyprctl_dispatch(success: bool, stdout: &[u8]) -> (r: bool)
    ensures
        r == (success && accepting(shown(stdout@))),
{
    success && says_ok(lossy(stdout).as_str())
}

/// What follows the answer to a command of a list.
#[derive(Debug, Clone, Copy, PartialEq, Eq)]
pub enum AttemptStep {
    /// The request is met.
    Accepted,
    /// The command with this number is to be tried.
    Try(usize),
    /// No command was accepted.
    Rejected,
}

/// What follows the answer to the command with the number `tried`.
pub open spec fn next_step(commands: nat, tried: usize, accepted: bool) -> AttemptStep {
    if accepted {
        AttemptStep::Accepted
    } else if tried + 1 < commands {
        AttemptStep::Try((tried + 1) as usize)
    } else {
        AttemptStep::Rejected
    }
}

/// What follows the answer to the command with the number `tried`.
pub fn after_attempt(commands: &[String], tried: usize, accepted: bool) -> (r: AttemptStep)
    requires
        tried < commands@.len(),
    ensures
        r == next_step(commands@.len(), tried, accepted),
{
    let n: usize = commands.len();
    if accepted {
        AttemptStep::Accepted
    } else if tried + 1 < n {
        AttemptStep::Try(tried + 1)
    } else {
        AttemptStep::Rejected
    }
}

// Requests

/// The commands that focus a window.
pub open spec fn focus_commands(address: u64) -> Seq<Seq<char>> {
    seq![
        "hl.dsp.focus({ window = 'address:0x"@ + hexadecimal(address as nat) + "' })"@,
        "focuswindow address:0x"@ + hexadecimal(address as nat),
    ]
}

/// The commands that focus a window.
pub fn focus_window(address: u64) -> (r: Vec<String>)
    ensures
        texts(r@) == focus_commands(address),
{
    let mut modern = "hl.dsp.focus({ window = 'address:0x".to_owned();
    push_hexadecimal(&mut modern, address);
    modern.append("' })");
    let mut legacy = "focuswindow address:0x".to_owned();
    push_hexadecimal(&mut legacy, address);
    let mut r: Vec<String> = Vec::new();
    push_string(&mut r, modern);
    push_string(&mut r, legacy);
    assert(texts(r@) =~= focus_commands(address));
    r
}

/// Lua that hides the special workspaces again if the hidden workspace is the
/// one they now show. A move to a special workspace always reveals it.
pub open spec fn rehide_lua() -> Seq<char> {
    "local sp = hl.get_active_special_workspace() if sp ~= nil and tostring(sp):find('"@
        + BACKGROUND_WORKSPACE@ + "', 1, true) then hl.dispatch(hl.dsp.workspace.toggle_special('"@
        + BACKGROUND_NAME@ + "')) end "@
}

fn push_rehide_lua(out: &mut String)
    ensures
        final(out)@ == old(out)@ + rehide_lua(),
{
    out.append("local sp = hl.get_active_special_workspace() if sp ~= nil and tostring(sp):find('");
    out.append(BACKGROUND_WORKSPACE);
    out.append("', 1, true) then hl.dispatch(hl.dsp.workspace.toggle_special('");
    out.append(BACKGROUND_NAME);
    out.append("')) end ");
    assert(out@ =~= old(out)@ + rehide_lua());
}

/// The commands that move a window onto the hidden workspace. The modern one
/// moves it and hides the workspace again within one dispatch, so that no
/// frame shows it.
pub open spec fn hide_commands(address: u64) -> Seq<Seq<char>> {
    seq![
        "(function() hl.dispatch(hl.dsp.window.move({ workspace = '"@ + BACKGROUND_WORKSPACE@
            + "', window = 'address:0x"@ + hexadecimal(address as nat) + "' })) "@ + rehide_lua()
            + "return hl.dsp.no_op() end)()"@,
        "movetoworkspacesilent "@ + BACKGROUND_WORKSPACE@ + ",address:0x"@ + hexadecimal(
            address as nat,
        ),
    ]
}

/// The commands that move a window onto the hidden workspace.
pub fn move_window_to_background_workspace(address: u64) -> (r: Vec<String>)
    ensures
        texts(r@) == hide_commands(address),
{
    let mut modern = "(function() hl.dispatch(hl.dsp.window.move({ workspace = '".to_owned();
    modern.append(BACKGROUND_WORKSPACE);
    modern.append("', window = 'address:0x");
    push_hexadecimal(&mut modern, address);
    modern.append("' })) ");
    push_rehide_lua(&mut modern);
    modern.append("return hl.dsp.no_op() end)()");
    let mut legacy = "movetoworkspacesilent ".to_owned();
    legacy.append(BACKGROUND_WORKSPACE);
    legacy.append(",address:0x");
    push_hexadecimal(&mut legacy, address);
    let mut r: Vec<String> = Vec::new();
    push_string(&mut r, modern);
    push_string(&mut r, legacy);
    assert(texts(r@) =~= hide_commands(address));
    r
}

/// Lua that puts a process under the compositor's guard. The guard moves each
/// new window of a guarded process onto the hidden workspace while the window
/// opens.
pub open spec fn register_lua(pid: u32) -> Seq<char> {
    "(function() if _G.cua_bg == nil then _G.cua_bg = { pids = {} } end _G.cua_bg.pids["@ + decimal(
        pid as nat,
    )
        + "] = true if _G.cua_bg.sub == nil then _G.cua_bg.sub = hl.on('window.open', function(w) local t = _G.cua_bg if t == nil or w == nil or not t.pids[w.pid] then return end if w.workspace == nil or w.workspace.id >= 0 then hl.dispatch(hl.dsp.window.move({ workspace = '"@
        + BACKGROUND_WORKSPACE@ + "', window = 'address:'..tostring(w.address) })) "@ + rehide_lua()
        + "end end) end return hl.dsp.no_op() end)()"@
}

/// Lua that puts a process under the compositor's guard.
pub fn register_background_pid_hook(pid: u32) -> (r: String)
    ensures
        r@ == register_lua(pid),
{
    let mut r =
        "(function() if _G.cua_bg == nil then _G.cua_bg = { pids = {} } end _G.cua_bg.pids[".to_owned();
    push_decimal(&mut r, pid as u64);
    r.append(
        "] = true if _G.cua_bg.sub == nil then _G.cua_bg.sub = hl.on('window.open', function(w) local t = _G.cua_bg if t == nil or w == nil or not t.pids[w.pid] then return end if w.workspace == nil or w.workspace.id >= 0 then hl.dispatch(hl.dsp.window.move({ workspace = '",
    );
    r.append(BACKGROUND_WORKSPACE);
    r.append("', window = 'address:'..tostring(w.address) })) ");
    push_rehide_lua(&mut r);
    r.append("end end) end return hl.dsp.no_op() end)()");
    r
}

/// Lua that clears what an earlier driver left in the compositor's guard.
pub fn reset_background_pid_registry() -> (r: &'static str)
    ensures
        r@
            == "(function() local t = _G.cua_bg if t ~= nil and t.sub ~= nil then t.sub:remove() end _G.cua_bg = { pids = {} } return hl.dsp.no_op() end)()"@,
{
    "(function() local t = _G.cua_bg if t ~= nil and t.sub ~= nil then t.sub:remove() end _G.cua_bg = { pids = {} } return hl.dsp.no_op() end)()"
}

/// Lua that takes a process out of the compositor's guard, and ends the guard
/// with the last one.
pub open spec fn unregister_lua(pid: u32) -> Seq<char> {
    "(function() local t = _G.cua_bg if t ~= nil then t.pids["@ + decimal(pid as nat)
        + "] = nil if t.sub ~= nil and next(t.pids) == nil then t.sub:remove() t.sub = nil end end return hl.dsp.no_op() end)()"@
}

/// Lua that takes a process out of the compositor's guard.
pub fn unregister_background_pid_hook(pid: u32) -> (r: String)
    ensures
        r@ == unregister_lua(pid),
{
    let mut r = "(function() local t = _G.cua_bg if t ~= nil then t.pids[".to_owned();
    push_decimal(&mut r, pid as u64);
    r.append(
        "] = nil if t.sub ~= nil and next(t.pids) == nil then t.sub:remove() t.sub = nil end end return hl.dsp.no_op() end)()",
    );
    r
}

// Launching

/// A character as it stands in a Lua string between single quotes.
pub open spec fn lua_escape(c: char) -> Seq<char> {
    if c == '\\' || c == '\'' {
        seq!['\\', c]
    } else {
        seq![c]
    }
}

/// A text as it stands in a Lua string between single quotes.
pub open spec fn lua_escaped(s: Seq<char>) -> Seq<char>
    decreases s.len(),
{
    if s.len() == 0 {
        Seq::empty()
    } else {
        lua_escaped(s.drop_last()) + lua_escape(s.last())
    }
}

fn push_lua_escaped(out: &mut String, s: &str)
    ensures
        final(out)@ == old(out)@ + lua_escaped(s@),
{
    let v = chars_of(s);
    let mut i: usize = 0;
    assert(out@ =~= old(out)@ + lua_escaped(v@.take(0)));
    while i < v.len()
        invariant
            i <= v.len(),
            v@ == s@,
            out@ == old(out)@ + lua_escaped(v@.take(i as int)),
        decreases v.len() - i,
    {
        assert(v@.take(i + 1).drop_last() =~= v@.take(i as int));
        if v[i] == '\\' || v[i] == '\'' {
            out.push('\\');
        }
        out.push(v[i]);
        i += 1;
        assert(out@ =~= old(out)@ + lua_escaped(v@.take(i as int)));
    }
    assert(v@.take(i as int) =~= s@);
}

/// A command line with window rules in front.
pub open spec fn exec_payload(rules: Seq<char>, shell_cmd: Seq<char>) -> Seq<char> {
    "["@ + rules + "] "@ + shell_cmd
}

/// The commands that run a command line under window rules.
pub open spec fn exec_commands(rules: Seq<char>, shell_cmd: Seq<char>) -> Seq<Seq<char>> {
    seq![
        "hl.dsp.exec_cmd('"@ + lua_escaped(exec_payload(rules, shell_cmd)) + "')"@,
        "exec "@ + exec_payload(rules, shell_cmd),
    ]
}

/// The commands that run a command line under window rules.
pub fn dispatch_exec_with_rules(rules: &str, shell_cmd: &str) -> (r: Vec<String>)
    ensures
        texts(r@) == exec_commands(rules@, shell_cmd@),
{
    let mut payload = "[".to_owned();
    payload.append(rules);
    payload.append("] ");
    payload.append(shell_cmd);
    let mut modern = "hl.dsp.exec_cmd('".to_owned();
    push_lua_escaped(&mut modern, payload.as_str());
    modern.append("')");
    let mut legacy = "exec ".to_owned();
    legacy.append(payload.as_str());
    let mut r: Vec<String> = Vec::new();
    push_string(&mut r, modern);
    push_string(&mut r, legacy);
    assert(texts(r@) =~= exec_commands(rules@, shell_cmd@));
    r
}

/// The failure of a launch that no command was accepted for, in words.
pub fn exec_rejected() -> (r: String)
    ensures
        r@
            == "hyprctl dispatch exec was rejected in both the modern (Lua) and legacy grammar"@,
{
    "hyprctl dispatch exec was rejected in both the modern (Lua) and legacy grammar".to_owned()
}

/// The rules under which a background launch runs.
pub open spec fn background_rules() -> Seq<char> {
    "workspace "@ + BACKGROUND_WORKSPACE@ + " silent"@
}

/// The commands that launch a command line onto the hidden workspace, without
/// a change of workspace or focus.
pub fn launch_on_special_workspace(shell_cmd: &str) -> (r: Vec<String>)
    ensures
        texts(r@) == exec_commands(background_rules(), shell_cmd@),
{
    let mut rules = "workspace ".to_owned();
    rules.append(BACKGROUND_WORKSPACE);
    rules.append(" silent");
    dispatch_exec_with_rules(rules.as_str(), shell_cmd)
}

// Laws

/// The hidden workspace is a special one, under its short name.
pub proof fn law_the_hidden_workspace_is_special()
    ensures
        BACKGROUND_WORKSPACE@ == "special:"@ + BACKGROUND_NAME@,
{
    reveal_strlit("special:cua");
    reveal_strlit("special:");
    reveal_strlit("cua");
    assert("special:cua"@ =~= "special:"@ + "cua"@);
}

/// What Lua reads behind the opening quote of a string: the string, and what
/// stands behind its closing quote. Of the escapes only those of the backslash
/// and the quote are read, and a line break ends no string.
pub open spec fn lua_string(t: Seq<char>) -> Option<(Seq<char>, Seq<char>)>
    decreases t.len(),
{
    if t.len() == 0 || t[0] == '\n' || t[0] == '\r' {
        None
    } else if t[0] == '\'' {
        Some((Seq::empty(), t.skip(1)))
    } else if t[0] == '\\' {
        if t.len() >= 2 && (t[1] == '\\' || t[1] == '\'') {
            match lua_string(t.skip(2)) {
                Some((s, rest)) => Some((seq![t[1]] + s, rest)),
                None => None,
            }
        } else {
            None
        }
    } else {
        match lua_string(t.skip(1)) {
            Some((s, rest)) => Some((seq![t[0]] + s, rest)),
            None => None,
        }
    }
}

/// Escaping goes character by character from the front too.
proof fn lemma_escaped_front(s: Seq<char>)
    requires
        s.len() > 0,
    ensures
        lua_escaped(s) == lua_escape(s[0]) + lua_escaped(s.skip(1)),
    decreases s.len(),
{
    if s.len() == 1 {
        assert(s.drop_last() =~= Seq::<char>::empty());
        assert(s.skip(1) =~= Seq::<char>::empty());
        assert(lua_escaped(s) =~= lua_escape(s[0]) + lua_escaped(s.skip(1)));
    } else {
        lemma_escaped_front(s.drop_last());
        assert(s.drop_last().skip(1) =~= s.skip(1).drop_last());
        assert(lua_escaped(s) =~= lua_escape(s[0]) + lua_escaped(s.skip(1)));
    }
}

/// A text without line breaks that is escaped and put between quotes is read
/// as that text: nothing in it ends the string.
pub proof fn law_escaped_text_is_read_back(s: Seq<char>, rest: Seq<char>)
    requires
        !s.contains('\n'),
        !s.contains('\r'),
    ensures
        lua_string(lua_escaped(s) + seq!['\''] + rest) == Some((s, rest)),
    decreases s.len(),
{
    let t = lua_escaped(s) + seq!['\''] + rest;
    if s.len() == 0 {
        assert(t.skip(1) =~= rest);
    } else {
        lemma_escaped_front(s);
        let tail = s.skip(1);
        assert forall|c: char| tail.contains(c) implies s.contains(c) by {
            let i = choose|i: int| 0 <= i < tail.len() && tail[i] == c;
            assert(s[i + 1] == c);
        }
        law_escaped_text_is_read_back(tail, rest);
        let u = lua_escaped(tail) + seq!['\''] + rest;
        assert(s.contains(s[0]));
        if s[0] == '\\' || s[0] == '\'' {
            assert(t.skip(2) =~= u);
            assert(t[0] == '\\' && t[1] == s[0]);
        } else {
            assert(t.skip(1) =~= u);
            assert(t[0] == s[0]);
        }
        assert(seq![s[0]] + tail =~= s);
    }
}

/// A launch hands Lua the rules and the command line as they are, whatever
/// quotes and backslashes they hold.
pub proof fn law_launches_reach_lua_unchanged(rules: Seq<char>, shell_cmd: Seq<char>)
    requires
        !exec_payload(rules, shell_cmd).contains('\n'),
        !exec_payload(rules, shell_cmd).contains('\r'),
    ensures
        begins_with(exec_commands(rules, shell_cmd)[0], "hl.dsp.exec_cmd('"@),
        lua_string(exec_commands(rules, shell_cmd)[0].skip("hl.dsp.exec_cmd('"@.len() as int)) == Some(
            (exec_payload(rules, shell_cmd), ")"@),
        ),
{
    let payload = exec_payload(rules, shell_cmd);
    let command = exec_commands(rules, shell_cmd)[0];
    let opening = "hl.dsp.exec_cmd('"@;
    reveal_strlit("')");
    reveal_strlit(")");
    assert("')"@ =~= seq!['\''] + ")"@);
    assert(command.take(opening.len() as int) =~= opening);
    assert(command.skip(opening.len() as int) =~= lua_escaped(payload) + seq!['\''] + ")"@);
    law_escaped_text_is_read_back(payload, ")"@);
}

/// The step that a request is at once the first answers of a series are in.
pub open spec fn after_answers(commands: nat, answers: Seq<bool>) -> AttemptStep
    decreases answers.len(),
{
    if answers.len() == 0 {
        AttemptStep::Try(0)
    } else {
        match after_answers(commands, answers.drop_last()) {
            AttemptStep::Try(tried) => next_step(commands, tried, answers.last()),
            done => done,
        }
    }
}

/// The commands of a request are tried one after the other, each only after
/// all before it were rejected, and the request is met by the first that is
/// accepted.
pub proof fn law_commands_are_tried_in_order(commands: nat, answers: Seq<bool>)
    requires
        0 < commands <= usize::MAX,
    ensures
        (match after_answers(commands, answers) {
            AttemptStep::Try(tried) => tried == answers.len() < commands && !answers.contains(true),
            AttemptStep::Accepted => answers.contains(true) && answers.index_of_first(true)->0 < commands,
            AttemptStep::Rejected => answers.len() >= commands && !answers.take(commands as int).contains(
                true,
            ),
        }),
    decreases answers.len(),
{
    if answers.len() > 0 {
        let before = answers.drop_last();
        law_commands_are_tried_in_order(commands, before);
        before.index_of_first_ensures(true);
        answers.index_of_first_ensures(true);
        assert forall|b: bool| before.contains(b) implies answers.contains(b) by {
            let i = choose|i: int| 0 <= i < before.len() && before[i] == b;
            assert(answers[i] == b);
        }
        match after_answers(commands, before) {
            AttemptStep::Try(tried) => {
                assert(answers[tried as int] == answers.last());
                if answers.contains(true) && !answers.last() {
                    let i = choose|i: int| 0 <= i < answers.len() && answers[i] == true;
                    assert(before[i] == true);
                }
                if tried + 1 >= commands {
                    assert(answers.take(commands as int) =~= answers);
                }
            },
            AttemptStep::Accepted => {
                let i = before.index_of_first(true)->0;
                assert(answers[i] == true);
            },
            AttemptStep::Rejected => {
                assert(answers.take(commands as int) =~= before.take(commands as int));
            },
        }
    }
}

/// An answer accepts a command just where it begins with `ok`, but for white
/// space in front.
pub proof fn law_answers_begin_with_ok(gap: Seq<char>, rest: Seq<char>, said: Seq<char>)
    requires
        blank(gap),
    ensures
        accepting(gap + seq!['o', 'k'] + rest),
        accepting(said) ==> exists|i: int|
            0 <= i <= said.len() - 2 && blank(#[trigger] said.take(i)) && said[i] == 'o' && said[i + 1] == 'k',
        !said.contains('k') ==> !accepting(said),
{
    reveal_strlit("ok");
    assert("ok"@ =~= seq!['o', 'k']);
    let t = seq!['o', 'k'] + rest;
    assert(gap + seq!['o', 'k'] + rest =~= gap + t);
    lemma_trimmed_front(gap, t);
    assert(t[0] == 'o');
    assert(trimmed_start(t) == t);
    assert(t.take(2) =~= "ok"@);
    law_trimming_the_start_keeps_the_end(said);
    let i = choose|i: int|
        0 <= i <= said.len() && #[trigger] said.skip(i) == trimmed_start(said) && blank(said.take(i));
    if accepting(said) {
        let s = said.skip(i);
        assert(s.take(2)[0] == 'o' && s.take(2)[1] == 'k');
        assert(said[i] == 'o' && said[i + 1] == 'k');
        assert(blank(said.take(i)));
    }
}

/// A command to focus a window names the window by its id in hexadecimal, in
/// both grammars, the modern one first; so commands for different windows
/// differ.
pub proof fn law_focus_commands_name_their_window(a: u64, b: u64)
    ensures
        focus_commands(a).len() == 2,
        focus_commands(a)[0] == "hl.dsp.focus({ window = 'address:0x"@ + hexadecimal(a as nat) + "' })"@,
        focus_commands(a)[1] == "focuswindow address:0x"@ + hexadecimal(a as nat),
        focus_commands(a) == focus_commands(b) ==> a == b,
{
    let x = hexadecimal(a as nat);
    let y = hexadecimal(b as nat);
    lemma_numeral_reads_back(a as nat, 16);
    lemma_numeral_reads_back(b as nat, 16);
    let f = "focuswindow address:0x"@;
    assert((f + x).skip(f.len() as int) =~= x);
    assert((f + y).skip(f.len() as int) =~= y);
}

/// A command to hide a window names the window by its id in hexadecimal and
/// the hidden workspace, in both grammars, the modern one first; so commands
/// for different windows differ. The modern one hides the workspace again.
#[verifier::spinoff_prover]
pub proof fn law_hide_commands_name_their_window(a: u64, b: u64)
    ensures
        hide_commands(a).len() == 2,
        hide_commands(a)[0] == "(function() hl.dispatch(hl.dsp.window.move({ workspace = '"@
            + "special:cua"@ + "', window = 'address:0x"@ + hexadecimal(a as nat) + "' })) "@
            + rehide_lua() + "return hl.dsp.no_op() end)()"@,
        hide_commands(a)[1] == "movetoworkspacesilent special:cua,address:0x"@ + hexadecimal(a as nat),
        hide_commands(a) == hide_commands(b) ==> a == b,
        rehide_lua()
            == "local sp = hl.get_active_special_workspace() if sp ~= nil and tostring(sp):find('"@
            + "special:cua"@ + "', 1, true) then hl.dispatch(hl.dsp.workspace.toggle_special('"@
            + "cua"@ + "')) end "@,
{
    let x = hexadecimal(a as nat);
    let y = hexadecimal(b as nat);
    lemma_numeral_reads_back(a as nat, 16);
    lemma_numeral_reads_back(b as nat, 16);
    reveal_strlit("movetoworkspacesilent ");
    reveal_strlit("special:cua");
    reveal_strlit(",address:0x");
    reveal_strlit("movetoworkspacesilent special:cua,address:0x");
    let m = "movetoworkspacesilent special:cua,address:0x"@;
    assert("movetoworkspacesilent "@ + "special:cua"@ + ",address:0x"@ =~= m);
    assert((m + x).skip(m.len() as int) =~= x);
    assert((m + y).skip(m.len() as int) =~= y);
}

/// The compositor's guard is told of a process, and that it is gone, by the
/// process's number; so different processes are told of differently. What is
/// told of a process moves its new windows off the ordinary workspaces and
/// hides the hidden one again.
pub proof fn law_guards_name_their_process(a: u32, b: u32)
    ensures
        register_lua(a)
            == "(function() if _G.cua_bg == nil then _G.cua_bg = { pids = {} } end _G.cua_bg.pids["@
            + decimal(a as nat)
            + "] = true if _G.cua_bg.sub == nil then _G.cua_bg.sub = hl.on('window.open', function(w) local t = _G.cua_bg if t == nil or w == nil or not t.pids[w.pid] then return end if w.workspace == nil or w.workspace.id >= 0 then hl.dispatch(hl.dsp.window.move({ workspace = '"@
            + "special:cua"@ + "', window = 'address:'..tostring(w.address) })) "@ + rehide_lua()
            + "end end) end return hl.dsp.no_op() end)()"@,
        unregister_lua(a) == "(function() local t = _G.cua_bg if t ~= nil then t.pids["@ + decimal(
            a as nat,
        )
            + "] = nil if t.sub ~= nil and next(t.pids) == nil then t.sub:remove() t.sub = nil end end return hl.dsp.no_op() end)()"@,
        unregister_lua(a) == unregister_lua(b) ==> a == b,
        register_lua(a) == register_lua(b) ==> a == b,
{
    let x = decimal(a as nat);
    let y = decimal(b as nat);
    lemma_numeral_reads_back(a as nat, 10);
    lemma_numeral_reads_back(b as nat, 10);
    let front = "(function() local t = _G.cua_bg if t ~= nil then t.pids["@;
    let back =
        "] = nil if t.sub ~= nil and next(t.pids) == nil then t.sub:remove() t.sub = nil end end return hl.dsp.no_op() end)()"@;
    lemma_between(front, x, y, back);
    assert(unregister_lua(a) =~= front + x + back);
    assert(unregister_lua(b) =~= front + y + back);
    let opening = "(function() if _G.cua_bg == nil then _G.cua_bg = { pids = {} } end _G.cua_bg.pids["@;
    let rest =
        "] = true if _G.cua_bg.sub == nil then _G.cua_bg.sub = hl.on('window.open', function(w) local t = _G.cua_bg if t == nil or w == nil or not t.pids[w.pid] then return end if w.workspace == nil or w.workspace.id >= 0 then hl.dispatch(hl.dsp.window.move({ workspace = '"@
        + BACKGROUND_WORKSPACE@ + "', window = 'address:'..tostring(w.address) })) "@ + rehide_lua()
        + "end end) end return hl.dsp.no_op() end)()"@;
    lemma_between(opening, x, y, rest);
    assert(register_lua(a) =~= opening + x + rest);
    assert(register_lua(b) =~= opening + y + rest);
}

/// What stands between the same two texts can be told from the whole.
proof fn lemma_between(front: Seq<char>, x: Seq<char>, y: Seq<char>, back: Seq<char>)
    ensures
        front + x + back == front + y + back ==> x == y,
{
    let s = front + x + back;
    let t = front + y + back;
    if s == t {
        assert(s.len() == front.len() + x.len() + back.len());
        assert(t.len() == front.len() + y.len() + back.len());
        assert(s.subrange(front.len() as int, s.len() - back.len()) =~= x);
        assert(t.subrange(front.len() as int, t.len() - back.len()) =~= y);
    }
}

/// A launch runs the command line as it is, behind its rules in square
/// brackets, in both grammars; a background launch has the rule that puts it
/// onto the hidden workspace in silence.
pub proof fn law_launches_keep_the_command_line(rules: Seq<char>, shell_cmd: Seq<char>)
    ensures
        exec_payload(rules, shell_cmd) == seq!['['] + rules + seq![']', ' '] + shell_cmd,
        exec_commands(rules, shell_cmd).len() == 2,
        exec_commands(rules, shell_cmd)[1] == "exec ["@ + rules + "] "@ + shell_cmd,
        background_rules() == "workspace special:cua silent"@,
{
    reveal_strlit("[");
    reveal_strlit("] ");
    reveal_strlit("exec ");
    reveal_strlit("exec [");
    assert("["@ =~= seq!['[']);
    assert("] "@ =~= seq![']', ' ']);
    assert("exec ["@ =~= "exec "@ + "["@);
    assert(exec_commands(rules, shell_cmd)[1] =~= "exec ["@ + rules + "] "@ + shell_cmd);
    reveal_strlit("workspace ");
    reveal_strlit("special:cua");
    reveal_strlit(" silent");
    reveal_strlit("workspace special:cua silent");
    assert(background_rules() =~= "workspace special:cua silent"@);
}

} // verus!
