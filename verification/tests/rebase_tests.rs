use git_editor::rebase::{first_pressed, is_action_line, PressedKeys, RebaseAction, RebaseData, RebaseKey};

fn lines(v: &[&str]) -> Vec<String> {
    v.iter().map(|s| s.to_string()).collect()
}

fn ops(d: &RebaseData) -> Vec<String> {
    d.actions().iter().map(|a| a.operation.clone()).collect()
}

fn shas(d: &RebaseData) -> Vec<String> {
    d.actions().iter().map(|a| a.sha.clone()).collect()
}

fn sample() -> RebaseData {
    RebaseData::new(
        "todo".to_string(),
        lines(&["pick a1 first", "pick b2 second", "pick c3 third", "pick d4 fourth"]),
    )
}

fn none_pressed() -> PressedKeys {
    PressedKeys { p: false, r: false, e: false, s: false, f: false, b: false, d: false, t: false }
}

#[test]
fn action_fields_are_split_at_the_first_two_spaces() {
    let a = RebaseAction::new("pick 1a2b3c Fix the parser  twice".to_string());
    assert_eq!(a.operation, "pick");
    assert_eq!(a.sha, "1a2b3c");
    assert_eq!(a.message, "Fix the parser  twice");
}

#[test]
fn action_with_empty_fields() {
    let a = RebaseAction::new("  ".to_string());
    assert_eq!(a.operation, "");
    assert_eq!(a.sha, "");
    assert_eq!(a.message, "");
    let b = RebaseAction::new("break x ".to_string());
    assert_eq!(b.operation, "break");
    assert_eq!(b.sha, "x");
    assert_eq!(b.message, "");
}

#[test]
fn action_with_non_ascii_message() {
    let a = RebaseAction::new("reword ffee Ünïcödé ✓ message".to_string());
    assert_eq!(a.operation, "reword");
    assert_eq!(a.sha, "ffee");
    assert_eq!(a.message, "Ünïcödé ✓ message");
}

#[test]
fn action_line_check() {
    assert!(is_action_line("pick a b"));
    assert!(is_action_line("pick a "));
    assert!(!is_action_line("pick a"));
    assert!(!is_action_line("pick"));
    assert!(!is_action_line(""));
}

#[test]
fn to_line_writes_the_fields_back() {
    let line = "squash 0123abc Some message with spaces";
    let a = RebaseAction::new(line.to_string());
    assert_eq!(a.to_line(), line);
    let b = RebaseAction {
        operation: "edit".to_string(),
        sha: "9f".to_string(),
        message: "m".to_string(),
    };
    assert_eq!(b.to_line(), "edit 9f m");
}

#[test]
fn todo_lines_are_sorted_into_actions_and_comments() {
    let d = RebaseData::new(
        "path/git-rebase-todo".to_string(),
        lines(&["pick a1 one", "", "| comment one", "fixup b2 two words", "|", "", "| second"]),
    );
    assert_eq!(d.rebase_file(), "path/git-rebase-todo");
    assert_eq!(ops(&d), vec!["pick", "fixup"]);
    assert_eq!(shas(&d), vec!["a1", "b2"]);
    assert_eq!(d.actions()[1].message, "two words");
    assert_eq!(d.comments(), &lines(&["| comment one", "|", "| second"]));
    assert_eq!(d.drag_index(), None);
    assert_eq!(d.drag_dest(), None);
}

#[test]
fn rebase_window_size() {
    let d = sample();
    // 4 actions, no comment, 2 more lines: 6 * 20.
    assert_eq!(d.default_window_size(), (700, 120));
    let many: Vec<String> = (0..60).map(|i| format!("pick s{} m", i)).collect();
    let d = RebaseData::new("t".to_string(), many);
    assert_eq!(d.default_window_size(), (700, 980));
    let d = RebaseData::new("t".to_string(), lines(&["| a", "| b", "pick x y"]));
    assert_eq!(d.default_window_size(), (700, 100));
}

#[test]
fn move_forward_backward_and_past_the_end() {
    let mut d = sample();
    d.move_action(0, 2);
    assert_eq!(shas(&d), vec!["b2", "c3", "a1", "d4"]);
    d.move_action(3, 0);
    assert_eq!(shas(&d), vec!["d4", "b2", "c3", "a1"]);
    d.move_action(1, 10);
    assert_eq!(shas(&d), vec!["d4", "c3", "a1", "b2"]);
    d.move_action(2, 2);
    assert_eq!(shas(&d), vec!["d4", "c3", "a1", "b2"]);
}

#[test]
fn moving_back_restores_the_list() {
    for from in 0..4usize {
        for dest in 0..7usize {
            let mut d = sample();
            d.move_action(from, dest);
            let back = if dest < 3 { dest } else { 3 };
            d.move_action(back, from);
            assert_eq!(shas(&d), vec!["a1", "b2", "c3", "d4"]);
        }
    }
}

#[test]
fn drop_moves_the_dragged_row_once_the_mouse_is_released() {
    let mut d = sample();
    d.drag_to(0, 2);
    assert_eq!(d.drag_index(), Some(0));
    assert_eq!(d.drag_dest(), Some(2));
    // still active: nothing changes
    d.begin_frame(true, true);
    assert_eq!(d.drag_index(), Some(0));
    assert_eq!(shas(&d), vec!["a1", "b2", "c3", "d4"]);
    // released
    d.begin_frame(false, false);
    assert_eq!(d.drag_index(), None);
    assert_eq!(d.drag_dest(), None);
    assert_eq!(shas(&d), vec!["b2", "c3", "a1", "d4"]);
}

#[test]
fn drag_ends_without_move_while_the_mouse_still_drags() {
    let mut d = sample();
    d.drag_to(1, 3);
    d.begin_frame(false, true);
    assert_eq!(d.drag_index(), None);
    assert_eq!(d.drag_dest(), None);
    assert_eq!(shas(&d), vec!["a1", "b2", "c3", "d4"]);
    d.begin_frame(false, false);
    assert_eq!(shas(&d), vec!["a1", "b2", "c3", "d4"]);
}

#[test]
fn rows_shift_to_preview_the_drop() {
    let mut d = sample();
    assert_eq!(d.reorder_shift(1), 0);
    d.drag_to(0, 2);
    assert_eq!(d.reorder_shift(0), 0);
    assert_eq!(d.reorder_shift(1), -1);
    assert_eq!(d.reorder_shift(2), -1);
    assert_eq!(d.reorder_shift(3), 0);
    d.drag_to(3, 1);
    assert_eq!(d.reorder_shift(0), 0);
    assert_eq!(d.reorder_shift(1), 1);
    assert_eq!(d.reorder_shift(2), 1);
    assert_eq!(d.reorder_shift(3), 0);
}

#[test]
fn preview_matches_the_drop() {
    for from in 0..4usize {
        for dest in 0..6usize {
            let mut d = sample();
            d.drag_to(from, dest);
            let before = shas(&d);
            let shifts: Vec<i8> = (0..4).map(|k| d.reorder_shift(k)).collect();
            d.begin_frame(false, false);
            let after = shas(&d);
            for k in 0..4usize {
                if k != from {
                    let pos = (k as i64 + shifts[k] as i64) as usize;
                    assert_eq!(after[pos], before[k]);
                }
            }
            let last = if dest < 3 { dest } else { 3 };
            assert_eq!(after[last], before[from]);
        }
    }
}

#[test]
fn keys_set_the_operation() {
    let cases = [
        (RebaseKey::Pick, "pick"),
        (RebaseKey::Reword, "reword"),
        (RebaseKey::Edit, "edit"),
        (RebaseKey::Squash, "squash"),
        (RebaseKey::Fixup, "fixup"),
        (RebaseKey::Break, "break"),
        (RebaseKey::Drop, "drop"),
    ];
    for (key, name) in cases.iter() {
        let mut d = sample();
        d.apply_key(2, *key);
        assert_eq!(ops(&d), vec!["pick", "pick", name, "pick"]);
        assert_eq!(d.actions()[2].sha, "c3");
        assert_eq!(d.actions()[2].message, "third");
        assert_eq!(d.drag_index(), None);
    }
}

#[test]
fn top_key_drags_to_the_first_row() {
    let mut d = sample();
    d.apply_key(3, RebaseKey::Top);
    assert_eq!(d.drag_index(), Some(3));
    assert_eq!(d.drag_dest(), Some(0));
    d.begin_frame(false, false);
    assert_eq!(shas(&d), vec!["d4", "a1", "b2", "c3"]);
}

#[test]
fn first_pressed_key_wins() {
    assert_eq!(first_pressed(none_pressed()), None);
    let mut k = none_pressed();
    k.t = true;
    assert_eq!(first_pressed(k), Some(RebaseKey::Top));
    k.d = true;
    assert_eq!(first_pressed(k), Some(RebaseKey::Drop));
    k.b = true;
    assert_eq!(first_pressed(k), Some(RebaseKey::Break));
    k.f = true;
    assert_eq!(first_pressed(k), Some(RebaseKey::Fixup));
    k.s = true;
    assert_eq!(first_pressed(k), Some(RebaseKey::Squash));
    k.e = true;
    assert_eq!(first_pressed(k), Some(RebaseKey::Edit));
    k.r = true;
    assert_eq!(first_pressed(k), Some(RebaseKey::Reword));
    k.p = true;
    assert_eq!(first_pressed(k), Some(RebaseKey::Pick));
}

#[test]
fn todo_contents_lists_each_action_on_its_line() {
    let mut d = RebaseData::new(
        "t".to_string(),
        lines(&["pick a1 one two", "| c", "edit b2 x"]),
    );
    assert_eq!(d.todo_contents(), "pick a1 one two\nedit b2 x\n");
    d.apply_key(0, RebaseKey::Squash);
    assert_eq!(d.todo_contents(), "squash a1 one two\nedit b2 x\n");
    let empty = RebaseData::new("t".to_string(), lines(&["| only"]));
    assert_eq!(empty.todo_contents(), "");
}

#[test]
fn written_todo_reads_back() {
    let mut d = RebaseData::new(
        "t".to_string(),
        lines(&["pick a1 one two", "", "fixup b2 three  spaces", "drop c3 "]),
    );
    d.move_action(0, 5);
    let text = d.todo_contents();
    let read: Vec<String> = text.lines().map(|l| l.to_string()).collect();
    let again = RebaseData::new("t".to_string(), read);
    assert_eq!(ops(&again), ops(&d));
    assert_eq!(shas(&again), shas(&d));
    let msgs: Vec<String> = again.actions().iter().map(|a| a.message.clone()).collect();
    assert_eq!(msgs, vec!["three  spaces", "", "one two"]);
    assert!(again.comments().is_empty());
}
