//! Which editor a file is opened in.

use vstd::prelude::*;
use crate::text::{chars_end_with, chars_of, ends_with, lemma_ends_with_concat};

verus! {

/// The two editors.
#[derive(Clone, Copy, PartialEq, Eq, Structural, Debug)]
pub enum EditorKind {
    /// The commit message editor.
    Message,
    /// The interactive-rebase todo editor.
    Rebase,
}

/// A commit message or a hunk being edited is opened in the message editor; any other file
/// is taken for a rebase todo list.
pub open spec fn editor_kind_spec(path: Seq<char>) -> EditorKind {
    if ends_with(path, "COMMIT_EDITMSG"@) || ends_with(path, "addp-hunk-edit.diff"@) {
        EditorKind::Message
    } else {
        EditorKind::Rebase
    }
}

/// The editor for the file named by the first argument.
pub fn editor_kind(args: &Vec<String>) -> (k: EditorKind)
    requires
        args.len() > 0,
    ensures
        k == editor_kind_spec(args@[0]@),
{
    let path = chars_of(args[0].as_str());
    let message = chars_of("COMMIT_EDITMSG");
    let hunk = chars_of("addp-hunk-edit.diff");
    if chars_end_with(&path, &message) || chars_end_with(&path, &hunk) {
        EditorKind::Message
    } else {
        EditorKind::Rebase
    }
}

/// Whatever path leads to it, a file named `COMMIT_EDITMSG` or `addp-hunk-edit.diff` opens in
/// the message editor; a path opens there only when it is some path followed by one of these
/// names.
pub proof fn lemma_message_files(prefix: Seq<char>, path: Seq<char>)
    ensures
        editor_kind_spec(prefix + "COMMIT_EDITMSG"@) == EditorKind::Message,
        editor_kind_spec(prefix + "addp-hunk-edit.diff"@) == EditorKind::Message,
        editor_kind_spec(path) == EditorKind::Message ==> (exists|p: Seq<char>| path == p + "COMMIT_EDITMSG"@)
            || (exists|p: Seq<char>| path == p + "addp-hunk-edit.diff"@),
{
    lemma_ends_with_concat(prefix, "COMMIT_EDITMSG"@, path);
    lemma_ends_with_concat(prefix, "addp-hunk-edit.diff"@, path);
    if editor_kind_spec(path) == EditorKind::Message {
        if ends_with(path, "COMMIT_EDITMSG"@) {
            let p = path.subrange(0, path.len() - "COMMIT_EDITMSG"@.len());
            assert(path == p + "COMMIT_EDITMSG"@);
        } else {
            let p = path.subrange(0, path.len() - "addp-hunk-edit.diff"@.len());
            assert(path == p + "addp-hunk-edit.diff"@);
        }
    }
}

} // verus!
