use swayctl::{
    bind, find_current, find_or_create_by_name, join_commands, list, move_to, rename, show,
    show_by_name, show_by_number, swap, OpError, Workspace, WorkspaceRecord,
};

fn rec(num: i32, name: &str, output: &str, visible: bool, focused: bool) -> WorkspaceRecord {
    WorkspaceRecord {
        num,
        name: name.to_string(),
        output: output.to_string(),
        visible,
        focused,
        urgent: false,
    }
}

fn snapshot() -> Vec<WorkspaceRecord> {
    vec![
        rec(1, "1: mail", "DP-1", true, true),
        rec(3, "3: web", "DP-2", false, false),
        rec(-1, "irc", "DP-2", true, false),
    ]
}

#[test]
fn find_current_picks_focused() {
    let cur = find_current(&snapshot()).unwrap();
    assert_eq!(cur.num, Some(1));
    assert_eq!(cur.name, Some("mail".to_string()));
    assert!(cur.focused);
}

#[test]
fn find_current_requires_focus() {
    let ws = vec![rec(1, "1: mail", "DP-1", true, false)];
    assert_eq!(find_current(&ws).unwrap_err(), OpError::NoFocusedWorkspace);
}

#[test]
fn bind_noop_when_already_bound() {
    // The focused workspace already holds slot 1.
    assert_eq!(bind(&snapshot(), 1).unwrap(), None);
}

#[test]
fn bind_to_free_slot_is_one_rename() {
    let cmds = bind(&snapshot(), 4).unwrap().unwrap();
    assert_eq!(cmds, vec!["rename workspace 1: mail to 4: mail".to_string()]);
}

#[test]
fn bind_to_occupied_named_slot_swaps() {
    let cmds = bind(&snapshot(), 3).unwrap().unwrap();
    assert_eq!(
        cmds,
        vec![
            "rename workspace 3: web to internal-tmp-swapping".to_string(),
            "rename workspace 1: mail to 3: mail".to_string(),
            "rename workspace internal-tmp-swapping to 1: web".to_string(),
        ]
    );
}

#[test]
fn bind_to_occupied_unnamed_slot_fails() {
    let ws = vec![
        rec(1, "1: mail", "DP-1", true, true),
        rec(3, "3", "DP-2", false, false),
    ];
    assert_eq!(bind(&ws, 3).unwrap_err(), OpError::DestinationUnaddressable);
}

#[test]
fn bind_requires_focus() {
    let ws = vec![rec(1, "1: mail", "DP-1", true, false)];
    assert_eq!(bind(&ws, 2).unwrap_err(), OpError::NoFocusedWorkspace);
}

#[test]
fn rename_emits_in_place_rename() {
    let cmds = rename(&snapshot(), "inbox".to_string()).unwrap().unwrap();
    assert_eq!(cmds, vec!["rename workspace to \"1: inbox\"".to_string()]);
}

#[test]
fn rename_to_existing_name_fails() {
    assert_eq!(
        rename(&snapshot(), "web".to_string()).unwrap_err(),
        OpError::NameConflict
    );
}

#[test]
fn rename_to_own_name_is_allowed() {
    // Only a name held by a *different* workspace conflicts.
    let cmds = rename(&snapshot(), "mail".to_string()).unwrap().unwrap();
    assert_eq!(cmds, vec!["rename workspace to \"1: mail\"".to_string()]);
}

#[test]
fn move_to_existing_workspace() {
    let cmds = move_to(&snapshot(), "web".to_string()).unwrap().unwrap();
    assert_eq!(cmds, vec!["move container to workspace 3: web".to_string()]);
}

#[test]
fn move_to_new_workspace() {
    let cmds = move_to(&snapshot(), "music".to_string()).unwrap().unwrap();
    assert_eq!(cmds, vec!["move container to workspace music".to_string()]);
}

#[test]
fn show_focused_target_is_noop() {
    assert_eq!(show_by_name(&snapshot(), "mail".to_string()).unwrap(), None);
}

#[test]
fn show_visible_target_exchanges_outputs() {
    // "irc" is visible on another output: showing it swaps outputs instead
    // of focusing it in place.
    let cmds = show_by_name(&snapshot(), "irc".to_string()).unwrap().unwrap();
    assert_eq!(
        cmds,
        vec![
            "move workspace to output DP-2".to_string(),
            "workspace irc".to_string(),
            "move workspace to output DP-1".to_string(),
        ]
    );
}

#[test]
fn show_hidden_target_follows_focused_output() {
    // "web" is hidden on DP-2 while the focused workspace sits on DP-1: it
    // is focused by number and then pulled to DP-1.
    let cmds = show_by_name(&snapshot(), "web".to_string()).unwrap().unwrap();
    assert_eq!(
        cmds,
        vec![
            "workspace number 3".to_string(),
            "move workspace to output DP-1".to_string(),
        ]
    );
}

#[test]
fn show_synthesized_target_by_name() {
    // A name that matches nothing addresses a workspace yet to exist: no
    // output is known, so no output move is appended.
    let cmds = show_by_name(&snapshot(), "music".to_string()).unwrap().unwrap();
    assert_eq!(cmds, vec!["workspace music".to_string()]);
}

#[test]
fn show_by_number_uses_number_command() {
    let cmds = show_by_number(&snapshot(), 5).unwrap().unwrap();
    assert_eq!(cmds, vec!["workspace number 5".to_string()]);
}

#[test]
fn show_same_output_hidden_target_needs_no_move() {
    let ws = vec![
        rec(1, "1: mail", "DP-1", true, true),
        rec(3, "3: web", "DP-1", false, false),
    ];
    let cmds = show_by_name(&ws, "web".to_string()).unwrap().unwrap();
    assert_eq!(cmds, vec!["workspace number 3".to_string()]);
}

#[test]
fn show_checks_focus() {
    let ws = vec![rec(3, "3: web", "DP-1", false, false)];
    let target = find_or_create_by_name(&ws, "web".to_string());
    assert_eq!(show(&ws, target).unwrap_err(), OpError::NoFocusedWorkspace);
}

#[test]
fn list_sorts_names_and_drops_unnamed() {
    let ws = vec![
        rec(2, "2: web", "DP-1", false, false),
        rec(1, "1: mail", "DP-1", true, true),
        rec(-1, "zeta", "DP-2", false, false),
        rec(3, "3", "DP-2", true, false),
    ];
    assert_eq!(
        list(&ws),
        vec!["mail".to_string(), "web".to_string(), "zeta".to_string()]
    );
}

#[test]
fn list_of_empty_snapshot_is_empty() {
    assert_eq!(list(&Vec::new()), Vec::<String>::new());
}

#[test]
fn swap_two_visible_workspaces() {
    let cmds = swap(&snapshot()).unwrap().unwrap();
    assert_eq!(
        cmds,
        vec![
            "move workspace to output DP-2".to_string(),
            "workspace irc".to_string(),
            "move workspace to output DP-1".to_string(),
        ]
    );
}

#[test]
fn swap_needs_exactly_two_visible() {
    let one = vec![rec(1, "1: mail", "DP-1", true, true)];
    assert_eq!(swap(&one).unwrap(), None);
    let three = vec![
        rec(1, "1: mail", "DP-1", true, true),
        rec(2, "2: web", "DP-2", true, false),
        rec(3, "3: irc", "DP-3", true, false),
    ];
    assert_eq!(swap(&three).unwrap(), None);
}

#[test]
fn swap_picks_focused_first() {
    // The focused workspace moves first, whichever position it holds.
    let ws = vec![
        rec(2, "2: web", "DP-2", true, false),
        rec(1, "1: mail", "DP-1", true, true),
    ];
    let cmds = swap(&ws).unwrap().unwrap();
    assert_eq!(
        cmds,
        vec![
            "move workspace to output DP-2".to_string(),
            "workspace number 2".to_string(),
            "move workspace to output DP-1".to_string(),
        ]
    );
}

#[test]
fn join_commands_batches_in_order() {
    let cmds = vec!["a".to_string(), "b".to_string(), "c".to_string()];
    assert_eq!(join_commands(&cmds), "a; b; c");
    assert_eq!(join_commands(&vec!["x".to_string()]), "x");
    assert_eq!(join_commands(&Vec::new()), "");
}

#[test]
fn synthesized_targets_carry_only_their_key() {
    let t = find_or_create_by_name(&snapshot(), "music".to_string());
    assert_eq!(
        t,
        Workspace {
            num: None,
            name: Some("music".to_string()),
            output: None,
            visible: false,
            focused: false,
        }
    );
}
