use cua_driver::dispatch::{
    after_attempt, dispatch_exec_with_rules, exec_rejected, focus_window, hyprctl_dispatch,
    launch_on_special_workspace, move_window_to_background_workspace, register_background_pid_hook,
    reset_background_pid_registry, says_ok, unregister_background_pid_hook, AttemptStep,
    BACKGROUND_NAME, BACKGROUND_WORKSPACE,
};

#[test]
fn only_an_answer_of_ok_is_acceptance() {
    assert!(says_ok("ok"));
    assert!(says_ok("ok\n"));
    assert!(says_ok(" \n\tok then"));
    assert!(!says_ok("error: ok"));
    assert!(!says_ok("o"));
    assert!(!says_ok(""));
    assert!(hyprctl_dispatch(true, b"ok\n"));
    assert!(!hyprctl_dispatch(false, b"ok\n"));
    assert!(!hyprctl_dispatch(true, b"Invalid dispatcher"));
    assert!(hyprctl_dispatch(true, b"ok \xff"));
    assert!(!hyprctl_dispatch(true, b"\xffok"));
}

#[test]
fn windows_are_focused_in_both_grammars() {
    assert_eq!(
        focus_window(0x55_5555_abcd),
        vec![
            "hl.dsp.focus({ window = 'address:0x555555abcd' })",
            "focuswindow address:0x555555abcd",
        ]
    );
}

#[test]
fn windows_are_hidden_in_both_grammars() {
    let commands = move_window_to_background_workspace(0x1f);
    assert_eq!(
        commands[0],
        "(function() \
         hl.dispatch(hl.dsp.window.move({ workspace = 'special:cua', window = 'address:0x1f' })) \
         local sp = hl.get_active_special_workspace() \
         if sp ~= nil and tostring(sp):find('special:cua', 1, true) then \
         hl.dispatch(hl.dsp.workspace.toggle_special('cua')) end \
         return hl.dsp.no_op() end)()"
    );
    assert_eq!(commands[1], "movetoworkspacesilent special:cua,address:0x1f");
    assert_eq!(commands.len(), 2);
    assert_eq!(BACKGROUND_WORKSPACE, format!("special:{BACKGROUND_NAME}"));
}

#[test]
fn processes_are_registered_with_the_compositor() {
    assert_eq!(
        register_background_pid_hook(4242),
        "(function() \
         if _G.cua_bg == nil then _G.cua_bg = { pids = {} } end \
         _G.cua_bg.pids[4242] = true \
         if _G.cua_bg.sub == nil then \
         _G.cua_bg.sub = hl.on('window.open', function(w) \
         local t = _G.cua_bg \
         if t == nil or w == nil or not t.pids[w.pid] then return end \
         if w.workspace == nil or w.workspace.id >= 0 then \
         hl.dispatch(hl.dsp.window.move({ workspace = 'special:cua', window = 'address:'..tostring(w.address) })) \
         local sp = hl.get_active_special_workspace() \
         if sp ~= nil and tostring(sp):find('special:cua', 1, true) then \
         hl.dispatch(hl.dsp.workspace.toggle_special('cua')) end \
         end \
         end) \
         end \
         return hl.dsp.no_op() end)()"
    );
    assert_eq!(
        unregister_background_pid_hook(7),
        "(function() \
         local t = _G.cua_bg \
         if t ~= nil then \
         t.pids[7] = nil \
         if t.sub ~= nil and next(t.pids) == nil then t.sub:remove() t.sub = nil end \
         end \
         return hl.dsp.no_op() end)()"
    );
    assert_eq!(
        reset_background_pid_registry(),
        "(function() \
         local t = _G.cua_bg \
         if t ~= nil and t.sub ~= nil then t.sub:remove() end \
         _G.cua_bg = { pids = {} } \
         return hl.dsp.no_op() end)()"
    );
}

#[test]
fn launches_are_quoted_for_lua() {
    assert_eq!(
        dispatch_exec_with_rules("float", r"echo 'it\s'"),
        vec![
            r"hl.dsp.exec_cmd('[float] echo \'it\\s\'')",
            r"exec [float] echo 'it\s'",
        ]
    );
    assert_eq!(
        launch_on_special_workspace("env A=b kitty"),
        vec![
            "hl.dsp.exec_cmd('[workspace special:cua silent] env A=b kitty')",
            "exec [workspace special:cua silent] env A=b kitty",
        ]
    );
    assert_eq!(
        exec_rejected(),
        "hyprctl dispatch exec was rejected in both the modern (Lua) and legacy grammar"
    );
}

#[test]
fn commands_are_tried_until_one_is_accepted() {
    let commands = focus_window(1);
    assert_eq!(after_attempt(&commands, 0, true), AttemptStep::Accepted);
    assert_eq!(after_attempt(&commands, 0, false), AttemptStep::Try(1));
    assert_eq!(after_attempt(&commands, 1, true), AttemptStep::Accepted);
    assert_eq!(after_attempt(&commands, 1, false), AttemptStep::Rejected);
}
