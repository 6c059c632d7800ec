use git_editor::dispatch::{editor_kind, EditorKind};
use git_editor::message::MessageData;

fn some(v: &[&str]) -> Vec<Option<String>> {
    v.iter().map(|s| Some(s.to_string())).collect()
}

#[test]
fn empty_first_line_gets_a_blank_line() {
    let m = MessageData::new("COMMIT_EDITMSG".to_string(), some(&["", "# Please enter", "# the message"]));
    assert_eq!(m.comment(), "\n\n# Please enter\n# the message\n");
    assert_eq!(m.line_count(), 9);
    assert_eq!(m.message_file(), "COMMIT_EDITMSG");
}

#[test]
fn non_empty_first_line_is_kept() {
    let m = MessageData::new("m".to_string(), some(&["Subject", "", "Body"]));
    assert_eq!(m.comment(), "Subject\n\nBody\n");
    assert_eq!(m.line_count(), 8);
}

#[test]
fn no_lines() {
    let m = MessageData::new("m".to_string(), Vec::new());
    assert_eq!(m.comment(), "");
    assert_eq!(m.line_count(), 5);
}

#[test]
fn unreadable_lines_are_skipped() {
    let lines = vec![None, Some("".to_string()), None, Some("b".to_string())];
    let m = MessageData::new("m".to_string(), lines);
    assert_eq!(m.comment(), "\nb\n");
    assert_eq!(m.line_count(), 7);
}

#[test]
fn line_count_is_five_more_than_the_newlines() {
    for lines in [some(&["", "a"]), some(&["x", "y", "z"]), some(&[""]), some(&["one"])].iter() {
        let m = MessageData::new("m".to_string(), lines.clone());
        let newlines = m.comment().chars().filter(|c| *c == '\n').count() as u32;
        assert_eq!(m.line_count(), 5 + newlines);
    }
}

#[test]
fn message_window_size() {
    let m = MessageData::new("m".to_string(), some(&["a", "b"]));
    assert_eq!(m.default_window_size(), (700, 140));
    let many: Vec<Option<String>> = (0..100).map(|i| Some(format!("line {}", i))).collect();
    let m = MessageData::new("m".to_string(), many);
    assert_eq!(m.default_window_size(), (700, 980));
}

#[test]
fn editor_kind_by_file_name() {
    let k = |s: &str| editor_kind(&vec![s.to_string()]);
    assert_eq!(k("/repo/.git/COMMIT_EDITMSG"), EditorKind::Message);
    assert_eq!(k("COMMIT_EDITMSG"), EditorKind::Message);
    assert_eq!(k("/repo/.git/addp-hunk-edit.diff"), EditorKind::Message);
    assert_eq!(k("/repo/.git/rebase-merge/git-rebase-todo"), EditorKind::Rebase);
    assert_eq!(k("COMMIT_EDITMSG.bak"), EditorKind::Rebase);
    assert_eq!(k(""), EditorKind::Rebase);
    let two = vec!["git-rebase-todo".to_string(), "COMMIT_EDITMSG".to_string()];
    assert_eq!(editor_kind(&two), EditorKind::Rebase);
}
