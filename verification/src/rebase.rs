//! The interactive-rebase todo list: its lines, its actions and their reordering.

use vstd::prelude::*;
use crate::text::{
    chars_of, find_space, first_space, lemma_first_space, lemma_first_space_at, push_char,
    push_str, space_free, string_from_range, views,
};

verus! {

broadcast use vstd::seq_lib::group_seq_properties;

/// The line of a todo list that holds `operation sha message`, separated by single spaces.
pub open spec fn action_line(operation: Seq<char>, sha: Seq<char>, message: Seq<char>) -> Seq<char> {
    operation + seq![' '] + sha + seq![' '] + message
}

/// What follows the first space of `line`.
pub open spec fn after_first_space(line: Seq<char>) -> Seq<char> {
    line.subrange(first_space(line) + 1int, line.len() as int)
}

/// `line` splits into three fields at its first two spaces.
pub open spec fn has_action_fields(line: Seq<char>) -> bool {
    &&& first_space(line) < line.len()
    &&& first_space(after_first_space(line)) < after_first_space(line).len()
}

/// The fields of `line`: what stands before its first space, what stands between its first
/// and its second space, and the rest after the second space, spaces included.
pub open spec fn split_action(line: Seq<char>) -> (Seq<char>, Seq<char>, Seq<char>) {
    let rest = after_first_space(line);
    let j = first_space(rest);
    (line.subrange(0, first_space(line) as int), rest.subrange(0, j as int), rest.subrange(j + 1int, rest.len() as int))
}

/// One line of the todo list: what to do with which commit.
pub struct RebaseAction {
    pub operation: String,
    pub sha: String,
    pub message: String,
}

impl View for RebaseAction {
    type V = (Seq<char>, Seq<char>, Seq<char>);

    open spec fn view(&self) -> (Seq<char>, Seq<char>, Seq<char>) {
        (self.operation@, self.sha@, self.message@)
    }
}

/// Whether `line` has the three fields that `RebaseAction::new` reads from it.
pub fn is_action_line(line: &str) -> (b: bool)
    ensures
        b == has_action_fields(line@),
{
    let v = chars_of(line);
    let i = find_space(&v, 0);
    assert(v@.subrange(0, v@.len() as int) =~= v@);
    if i >= v.len() {
        return false;
    }
    let j = find_space(&v, i + 1);
    proof {
        let rest = after_first_space(line@);
        assert(rest =~= v@.subrange(i + 1, v@.len() as int));
    }
    j < v.len()
}

impl RebaseAction {
    /// Reads an action from a todo line: the operation before the first space, the commit
    /// between the first and the second space, and the message after it.
    pub fn new(line: String) -> (a: Self)
        requires
            has_action_fields(line@),
        ensures
            a@ == split_action(line@),
    {
        let v = chars_of(line.as_str());
        let i = find_space(&v, 0);
        assert(v@.subrange(0, v@.len() as int) =~= v@);
        let j = find_space(&v, i + 1);
        let operation = string_from_range(&v, 0, i);
        let sha = string_from_range(&v, i + 1, j);
        let message = string_from_range(&v, j + 1, v.len());
        proof {
            let rest = after_first_space(line@);
            assert(rest =~= v@.subrange(i + 1, v@.len() as int));
            let k = first_space(rest);
            assert(rest.subrange(0, k as int) =~= v@.subrange(i + 1, j as int));
            assert(rest.subrange(k + 1int, rest.len() as int) =~= v@.subrange(j + 1, v@.len() as int));
        }
        RebaseAction { operation, sha, message }
    }

    /// The todo line of this action.
    pub fn to_line(&self) -> (s: String)
        ensures
            s@ == action_line(self.operation@, self.sha@, self.message@),
    {
        let mut s = String::new();
        push_str(&mut s, self.operation.as_str());
        push_char(&mut s, ' ');
        push_str(&mut s, self.sha.as_str());
        push_char(&mut s, ' ');
        push_str(&mut s, self.message.as_str());
        s
    }
}

/// Writing the fields of a todo line back gives the line.
#[verifier::rlimit(40)]
pub proof fn lemma_split_then_join(line: Seq<char>)
    requires
        has_action_fields(line),
    ensures
        action_line(split_action(line).0, split_action(line).1, split_action(line).2) == line,
{
    let i = first_space(line);
    let rest = after_first_space(line);
    let j = first_space(rest);
    lemma_first_space(line);
    lemma_first_space(rest);
    let a = line.subrange(0, i as int);
    let b = rest.subrange(0, j as int);
    let c = rest.subrange(j + 1int, rest.len() as int);
    assert(b + seq![' '] + c =~= rest);
    assert(a + seq![' '] + rest =~= line);
    assert(split_action(line) == (a, b, c));
    assert(action_line(a, b, c) =~= a + seq![' '] + (b + seq![' '] + c));
}

/// Reading a line written from three fields gives the fields back, when the first two hold
/// no space.
pub proof fn lemma_join_then_split(operation: Seq<char>, sha: Seq<char>, message: Seq<char>)
    requires
        space_free(operation),
        space_free(sha),
    ensures
        has_action_fields(action_line(operation, sha, message)),
        split_action(action_line(operation, sha, message)) == (operation, sha, message),
{
    let line = action_line(operation, sha, message);
    let n = operation.len() as int;
    assert forall|k: int| 0 <= k < n implies line[k] != ' ' by {
        assert(line[k] == operation[k]);
    }
    lemma_first_space_at(line, n);
    let rest = after_first_space(line);
    assert(rest =~= sha + seq![' '] + message);
    let m = sha.len() as int;
    assert forall|k: int| 0 <= k < m implies rest[k] != ' ' by {
        assert(rest[k] == sha[k]);
    }
    lemma_first_space_at(rest, m);
    assert(line.subrange(0, n) =~= operation);
    assert(rest.subrange(0, m) =~= sha);
    assert(rest.subrange(m + 1, rest.len() as int) =~= message);
}

/// A todo line that is kept as a comment: it starts with `|`.
pub open spec fn is_comment_line(line: Seq<char>) -> bool {
    line.len() > 0 && line[0] == '|'
}

/// A todo line that holds an action: neither empty nor a comment.
pub open spec fn is_action_entry(line: Seq<char>) -> bool {
    line.len() > 0 && line[0] != '|'
}

/// The comment lines of `lines`, in order.
pub open spec fn comment_lines(lines: Seq<Seq<char>>) -> Seq<Seq<char>> {
    lines.filter(|l: Seq<char>| is_comment_line(l))
}

/// The action lines of `lines`, in order.
pub open spec fn action_entries(lines: Seq<Seq<char>>) -> Seq<Seq<char>> {
    lines.filter(|l: Seq<char>| is_action_entry(l))
}

/// The fields read from each of `lines`.
pub open spec fn split_all(lines: Seq<Seq<char>>) -> Seq<(Seq<char>, Seq<char>, Seq<char>)> {
    lines.map_values(|l: Seq<char>| split_action(l))
}

/// The fields of each action.
pub open spec fn action_views(actions: Seq<RebaseAction>) -> Seq<(Seq<char>, Seq<char>, Seq<char>)> {
    actions.map_values(|a: RebaseAction| a@)
}

/// The todo line written for each of the given fields.
pub open spec fn todo_lines(fields: Seq<(Seq<char>, Seq<char>, Seq<char>)>) -> Seq<Seq<char>> {
    fields.map_values(|f: (Seq<char>, Seq<char>, Seq<char>)| action_line(f.0, f.1, f.2))
}

/// The lines, each followed by a newline.
pub open spec fn joined_lines(lines: Seq<Seq<char>>) -> Seq<char>
    decreases lines.len(),
{
    if lines.len() == 0 {
        Seq::empty()
    } else {
        joined_lines(lines.drop_last()) + lines.last() + seq!['\n']
    }
}

/// `s` is moved from position `from` to position `dest`: it is taken out, then put back at
/// `dest`, or at the end where `dest` is past the last position left.
pub open spec fn moved<A>(s: Seq<A>, from: int, dest: int) -> Seq<A> {
    let rest = s.remove(from);
    if dest >= rest.len() {
        rest.push(s[from])
    } else {
        rest.insert(dest, s[from])
    }
}

/// How many rows the row at `index` is shown shifted while the row `drag_index` is dragged to
/// `drag_dest`: one up for the rows between the dragged row and its destination below it, one
/// down for those between the destination above it and the dragged row, none otherwise.
pub open spec fn row_shift(index: int, drag_index: Option<usize>, drag_dest: Option<usize>) -> int {
    match (drag_index, drag_dest) {
        (Some(di), Some(dd)) => if index > di && dd >= index {
            -1
        } else if index < di && dd <= index {
            1
        } else {
            0
        },
        _ => 0,
    }
}

/// A command given by a key while the pointer is over an action.
#[derive(Clone, Copy, PartialEq, Eq, Structural, Debug)]
pub enum RebaseKey {
    Pick,
    Reword,
    Edit,
    Squash,
    Fixup,
    Break,
    Drop,
    Top,
}

/// The operation that a key writes into an action; `Top` writes none.
pub open spec fn key_operation(key: RebaseKey) -> Option<Seq<char>> {
    match key {
        RebaseKey::Pick => Some("pick"@),
        RebaseKey::Reword => Some("reword"@),
        RebaseKey::Edit => Some("edit"@),
        RebaseKey::Squash => Some("squash"@),
        RebaseKey::Fixup => Some("fixup"@),
        RebaseKey::Break => Some("break"@),
        RebaseKey::Drop => Some("drop"@),
        RebaseKey::Top => None,
    }
}

/// Which of the command keys went down in this frame.
#[derive(Clone, Copy, Debug)]
pub struct PressedKeys {
    pub p: bool,
    pub r: bool,
    pub e: bool,
    pub s: bool,
    pub f: bool,
    pub b: bool,
    pub d: bool,
    pub t: bool,
}

/// The command of the first pressed key in the order P, R, E, S, F, B, D, T.
pub open spec fn first_pressed_spec(k: PressedKeys) -> Option<RebaseKey> {
    if k.p {
        Some(RebaseKey::Pick)
    } else if k.r {
        Some(RebaseKey::Reword)
    } else if k.e {
        Some(RebaseKey::Edit)
    } else if k.s {
        Some(RebaseKey::Squash)
    } else if k.f {
        Some(RebaseKey::Fixup)
    } else if k.b {
        Some(RebaseKey::Break)
    } else if k.d {
        Some(RebaseKey::Drop)
    } else if k.t {
        Some(RebaseKey::Top)
    } else {
        None
    }
}

/// The command that a frame's key presses give; keys earlier in the order P, R, E, S, F, B,
/// D, T win over later ones.
pub fn first_pressed(keys: PressedKeys) -> (k: Option<RebaseKey>)
    ensures
        k == first_pressed_spec(keys),
{
    if keys.p {
        Some(RebaseKey::Pick)
    } else if keys.r {
        Some(RebaseKey::Reword)
    } else if keys.e {
        Some(RebaseKey::Edit)
    } else if keys.s {
        Some(RebaseKey::Squash)
    } else if keys.f {
        Some(RebaseKey::Fixup)
    } else if keys.b {
        Some(RebaseKey::Break)
    } else if keys.d {
        Some(RebaseKey::Drop)
    } else if keys.t {
        Some(RebaseKey::Top)
    } else {
        None
    }
}

/// The rebase todo file being edited: its actions, its comment lines, and the row being
/// dragged, if any, with the row it is dragged to.
pub struct RebaseData {
    rebase_file: String,
    actions: Vec<RebaseAction>,
    comments: Vec<String>,
    drag_index: Option<usize>,
    drag_dest: Option<usize>,
}

impl RebaseData {
    /// The dragged row is always an action of the list.
    #[verifier::type_invariant]
    spec fn drag_in_range(self) -> bool {
        self.drag_index matches Some(i) ==> i < self.actions.len()
    }

    /// The path of the todo file.
    pub closed spec fn spec_file(&self) -> Seq<char> {
        self.rebase_file@
    }

    /// The actions, in the order in which they will be written.
    pub closed spec fn spec_actions(&self) -> Seq<RebaseAction> {
        self.actions@
    }

    /// The comment lines, in the order in which they were read.
    pub closed spec fn spec_comments(&self) -> Seq<String> {
        self.comments@
    }

    /// The row being dragged.
    pub closed spec fn spec_drag_index(&self) -> Option<usize> {
        self.drag_index
    }

    /// The row that the dragged row is over.
    pub closed spec fn spec_drag_dest(&self) -> Option<usize> {
        self.drag_dest
    }

    /// Reads the todo list from the lines of the file: a line that starts with `|` is a
    /// comment, an empty line is skipped, any other line is an action.
    pub fn new(rebase_file: String, lines: Vec<String>) -> (d: Self)
        requires
            forall|k: int|
                0 <= k < lines.len() && is_action_entry(#[trigger] lines@[k]@) ==> has_action_fields(
                    lines@[k]@,
                ),
        ensures
            d.spec_file() == rebase_file@,
            views(d.spec_comments()) == comment_lines(views(lines@)),
            action_views(d.spec_actions()) == split_all(action_entries(views(lines@))),
            d.spec_drag_index() is None,
            d.spec_drag_dest() is None,
    {
        let mut actions: Vec<RebaseAction> = Vec::new();
        let mut comments: Vec<String> = Vec::new();
        let n = lines.len();
        let ghost all = views(lines@);
        let mut k: usize = 0;
        while k < n
            invariant
                n == lines.len(),
                0 <= k <= n,
                all == views(lines@),
                forall|m: int|
                    0 <= m < lines.len() && is_action_entry(#[trigger] lines@[m]@) ==> has_action_fields(
                        lines@[m]@,
                    ),
                views(comments@) == comment_lines(all.take(k as int)),
                action_views(actions@) == split_all(action_entries(all.take(k as int))),
            decreases n - k,
        {
            let line = lines[k].clone();
            let v = chars_of(line.as_str());
            let ghost before = all.take(k as int);
            assert(all.take(k + 1) =~= before.push(line@));
            assert(line@ == lines@[k as int]@);
            proof {
                before.lemma_filter_push(line@, |l: Seq<char>| is_comment_line(l));
                before.lemma_filter_push(line@, |l: Seq<char>| is_action_entry(l));
            }
            if v.len() > 0 && v[0] == '|' {
                comments.push(line);
                assert(views(comments@) =~= comment_lines(all.take(k as int)).push(line@));
            } else if v.len() > 0 {
                let a = RebaseAction::new(line);
                actions.push(a);
                assert(action_views(actions@) =~= split_all(action_entries(all.take(k as int))).push(
                    split_action(line@),
                ));
                assert(split_all(action_entries(all.take(k + 1))) =~= split_all(
                    action_entries(all.take(k as int)),
                ).push(split_action(line@)));
            }
            k = k + 1;
        }
        assert(all.take(n as int) =~= all);
        RebaseData { rebase_file, actions, comments, drag_index: None, drag_dest: None }
    }

    /// The path of the todo file.
    pub fn rebase_file(&self) -> (r: &String)
        ensures
            r@ == self.spec_file(),
    {
        &self.rebase_file
    }

    /// The actions, in order.
    pub fn actions(&self) -> (r: &Vec<RebaseAction>)
        ensures
            r@ == self.spec_actions(),
    {
        &self.actions
    }

    /// The comment lines, in order.
    pub fn comments(&self) -> (r: &Vec<String>)
        ensures
            r@ == self.spec_comments(),
    {
        &self.comments
    }

    /// The row being dragged; it is always a row of the list.
    pub fn drag_index(&self) -> (r: Option<usize>)
        ensures
            r == self.spec_drag_index(),
            r matches Some(i) ==> i < self.spec_actions().len(),
    {
        proof {
            use_type_invariant(self);
        }
        self.drag_index
    }

    /// The row that the dragged row is over.
    pub fn drag_dest(&self) -> (r: Option<usize>)
        ensures
            r == self.spec_drag_dest(),
    {
        self.drag_dest
    }

    /// Inner size of the window: 700 wide, and 20 per line of the list and two more lines,
    /// but no more than 980, the product being cut to 32 bits first.
    pub fn default_window_size(&self) -> (size: (u32, u32))
        requires
            (self.spec_actions().len() + self.spec_comments().len() + 2) * 20 <= usize::MAX,
        ensures
            size.0 == 700,
            size.1 == if ((self.spec_actions().len() + self.spec_comments().len() + 2)
                * 20) as u32 <= 980 {
                ((self.spec_actions().len() + self.spec_comments().len() + 2) * 20) as u32
            } else {
                980u32
            },
    {
        let line_count = self.actions.len() + self.comments.len() + 2;
        let height = (line_count * 20) as u32;
        if height <= 980 {
            (700, height)
        } else {
            (700, 980)
        }
    }

    /// Moves the action at `from` to `dest`, or to the end where `dest` is past the last
    /// position left once it is taken out.
    pub fn move_action(&mut self, from: usize, dest: usize)
        requires
            from < old(self).spec_actions().len(),
        ensures
            final(self).spec_actions() == moved(old(self).spec_actions(), from as int, dest as int),
            final(self).spec_comments() == old(self).spec_comments(),
            final(self).spec_file() == old(self).spec_file(),
            final(self).spec_drag_index() == old(self).spec_drag_index(),
            final(self).spec_drag_dest() == old(self).spec_drag_dest(),
    {
        proof {
            use_type_invariant(&*self);
        }
        let drag_index = self.drag_index;
        self.drag_index = None;
        let mut actions: Vec<RebaseAction> = Vec::new();
        std::mem::swap(&mut actions, &mut self.actions);
        let ghost before = actions@;
        let action = actions.remove(from);
        if dest >= actions.len() {
            actions.push(action);
        } else {
            actions.insert(dest, action);
        }
        assert(actions@ =~= moved(before, from as int, dest as int));
        std::mem::swap(&mut actions, &mut self.actions);
        self.drag_index = drag_index;
    }

    /// What a frame does first: once no item is active the drag ends, and where a row was
    /// dragged over a destination and the mouse no longer drags, the row is moved there.
    pub fn begin_frame(&mut self, any_item_active: bool, mouse_dragging: bool)
        ensures
            final(self).spec_comments() == old(self).spec_comments(),
            final(self).spec_file() == old(self).spec_file(),
            any_item_active ==> final(self).spec_drag_index() == old(self).spec_drag_index()
                && final(self).spec_drag_dest() == old(self).spec_drag_dest()
                && final(self).spec_actions() == old(self).spec_actions(),
            !any_item_active ==> final(self).spec_drag_index() is None
                && final(self).spec_drag_dest() is None,
            !any_item_active ==> final(self).spec_actions() == match (
                old(self).spec_drag_index(),
                old(self).spec_drag_dest(),
            ) {
                (Some(i), Some(d)) => if mouse_dragging {
                    old(self).spec_actions()
                } else {
                    moved(old(self).spec_actions(), i as int, d as int)
                },
                _ => old(self).spec_actions(),
            },
    {
        proof {
            use_type_invariant(&*self);
        }
        let mut move_index: Option<usize> = None;
        let mut move_dest: Option<usize> = None;
        if !any_item_active {
            if self.drag_index.is_some() && self.drag_dest.is_some() {
                move_index = self.drag_index;
                move_dest = self.drag_dest;
            }
            self.drag_index = None;
            self.drag_dest = None;
        }
        if !mouse_dragging {
            if let Some(from) = move_index {
                if let Some(dest) = move_dest {
                    self.move_action(from, dest);
                }
            }
        }
    }

    /// How many rows the action at `index` is shown shifted by the drag in progress: -1 is
    /// one row up, 1 one row down.
    pub fn reorder_shift(&self, index: usize) -> (shift: i8)
        ensures
            shift == row_shift(index as int, self.spec_drag_index(), self.spec_drag_dest()),
    {
        if let Some(drag_index) = self.drag_index {
            if let Some(drag_dest) = self.drag_dest {
                if index > drag_index && drag_dest >= index {
                    return -1;
                } else if index < drag_index && drag_dest <= index {
                    return 1;
                }
            }
        }
        0
    }

    /// Applies a key pressed over the action at `index`: an operation key writes its
    /// operation into the action; `Top` starts dragging the action to the first row.
    pub fn apply_key(&mut self, index: usize, key: RebaseKey)
        requires
            index < old(self).spec_actions().len(),
        ensures
            final(self).spec_comments() == old(self).spec_comments(),
            final(self).spec_file() == old(self).spec_file(),
            final(self).spec_actions().len() == old(self).spec_actions().len(),
            key_operation(key) matches Some(op) ==> {
                &&& final(self).spec_drag_index() == old(self).spec_drag_index()
                &&& final(self).spec_drag_dest() == old(self).spec_drag_dest()
                &&& final(self).spec_actions()[index as int].operation@ == op
                &&& final(self).spec_actions()[index as int].sha == old(self).spec_actions()[index as int].sha
                &&& final(self).spec_actions()[index as int].message == old(
                    self,
                ).spec_actions()[index as int].message
                &&& forall|k: int|
                    0 <= k < old(self).spec_actions().len() && k != index ==> final(self).spec_actions()[k]
                        == old(self).spec_actions()[k]
            },
            key_operation(key) is None ==> {
                &&& final(self).spec_drag_index() == Some(index)
                &&& final(self).spec_drag_dest() == Some(0usize)
                &&& final(self).spec_actions() == old(self).spec_actions()
            },
    {
        let operation = match key {
            RebaseKey::Pick => "pick",
            RebaseKey::Reword => "reword",
            RebaseKey::Edit => "edit",
            RebaseKey::Squash => "squash",
            RebaseKey::Fixup => "fixup",
            RebaseKey::Break => "break",
            RebaseKey::Drop => "drop",
            RebaseKey::Top => {
                self.drag_index = Some(index);
                self.drag_dest = Some(0);
                return;
            },
        };
        let sha = self.actions[index].sha.clone();
        let message = self.actions[index].message.clone();
        let action = RebaseAction { operation: operation.to_owned(), sha, message };
        proof {
            use_type_invariant(&*self);
        }
        let drag_index = self.drag_index;
        self.drag_index = None;
        let mut actions: Vec<RebaseAction> = Vec::new();
        std::mem::swap(&mut actions, &mut self.actions);
        actions.set(index, action);
        std::mem::swap(&mut actions, &mut self.actions);
        self.drag_index = drag_index;
    }

    /// While the action at `index` is dragged over row `dest`: it becomes the dragged row.
    pub fn drag_to(&mut self, index: usize, dest: usize)
        requires
            index < old(self).spec_actions().len(),
        ensures
            final(self).spec_drag_index() == Some(index),
            final(self).spec_drag_dest() == Some(dest),
            final(self).spec_actions() == old(self).spec_actions(),
            final(self).spec_comments() == old(self).spec_comments(),
            final(self).spec_file() == old(self).spec_file(),
    {
        self.drag_index = Some(index);
        self.drag_dest = Some(dest);
    }

    /// The text written back to the todo file: the line of each action, each followed by a
    /// newline.
    pub fn todo_contents(&self) -> (s: String)
        ensures
            s@ == joined_lines(todo_lines(action_views(self.spec_actions()))),
    {
        let mut s = String::new();
        let n = self.actions.len();
        let ghost lines = todo_lines(action_views(self.actions@));
        let mut k: usize = 0;
        while k < n
            invariant
                n == self.actions.len(),
                0 <= k <= n,
                lines == todo_lines(action_views(self.actions@)),
                s@ == joined_lines(lines.take(k as int)),
            decreases n - k,
        {
            let line = self.actions[k].to_line();
            push_str(&mut s, line.as_str());
            push_char(&mut s, '\n');
            assert(lines.take(k + 1).drop_last() =~= lines.take(k as int));
            k = k + 1;
        }
        assert(lines.take(n as int) =~= lines);
        s
    }
}

/// Moving an action keeps every action: the list is a permutation of the one before, and the
/// moved action stands at `dest`, or last where `dest` is past the end.
pub proof fn lemma_move_permutes<A>(s: Seq<A>, from: int, dest: int)
    requires
        0 <= from < s.len(),
        0 <= dest,
    ensures
        moved(s, from, dest).len() == s.len(),
        moved(s, from, dest).to_multiset() == s.to_multiset(),
        moved(s, from, dest)[if dest < s.len() - 1 { dest } else { s.len() - 1 }] == s[from],
{
    broadcast use vstd::seq_lib::to_multiset_remove, vstd::seq_lib::to_multiset_insert;
    broadcast use vstd::multiset::group_multiset_axioms;

    let rest = s.remove(from);
    rest.insert_ensures(if dest < rest.len() { dest } else { rest.len() as int }, s[from]);
    assert(rest.push(s[from]) =~= rest.insert(rest.len() as int, s[from]));
    assert(s.to_multiset() =~= rest.to_multiset().insert(s[from]));
}

/// Moving the action back from where it went to where it was gives the list that was there
/// before.
pub proof fn lemma_move_back<A>(s: Seq<A>, from: int, dest: int)
    requires
        0 <= from < s.len(),
        0 <= dest,
    ensures
        moved(moved(s, from, dest), if dest < s.len() - 1 { dest } else { s.len() - 1 }, from) == s,
{
    let x = s[from];
    let rest = s.remove(from);
    let p = if dest < s.len() - 1 { dest } else { s.len() - 1 };
    let t = moved(s, from, dest);
    assert(t =~= rest.insert(p, x));
    assert(t[p] == x);
    assert(t.remove(p) =~= rest);
    let u = moved(t, p, from);
    if from >= rest.len() {
        assert(u =~= rest.push(x));
    } else {
        assert(u =~= rest.insert(from, x));
    }
    assert(u =~= s);
}

/// While a row is dragged, every other row is shown shifted to where the drop will put it:
/// the row at `k` ends at `k` plus its shift.
pub proof fn lemma_shift_previews_drop<A>(s: Seq<A>, drag_index: usize, drag_dest: usize, k: int)
    requires
        drag_index < s.len(),
        0 <= k < s.len(),
        k != drag_index,
    ensures
        0 <= k + row_shift(k, Some(drag_index), Some(drag_dest)) < s.len(),
        moved(s, drag_index as int, drag_dest as int)[k + row_shift(k, Some(drag_index), Some(drag_dest))]
            == s[k],
{
    let rest = s.remove(drag_index as int);
    let x = s[drag_index as int];
    let p = if drag_dest < rest.len() { drag_dest as int } else { rest.len() as int };
    rest.insert_ensures(p, x);
    assert(rest.push(x) =~= rest.insert(rest.len() as int, x));
    let j = if k < drag_index { k } else { k - 1 };
    assert(rest[j] == s[k]);
}

/// Each todo line written from fields whose operation and commit hold no space, and whose
/// operation does not start with `|`, is read back as an action with the same fields: none
/// of them is taken for a comment or skipped.
pub proof fn lemma_todo_read_back(fields: Seq<(Seq<char>, Seq<char>, Seq<char>)>)
    requires
        forall|k: int|
            0 <= k < fields.len() ==> space_free(#[trigger] fields[k].0) && space_free(fields[k].1)
                && !(fields[k].0.len() > 0 && fields[k].0[0] == '|'),
    ensures
        forall|k: int|
            0 <= k < fields.len() ==> is_action_entry(#[trigger] todo_lines(fields)[k])
                && has_action_fields(todo_lines(fields)[k]),
        comment_lines(todo_lines(fields)) == Seq::<Seq<char>>::empty(),
        split_all(action_entries(todo_lines(fields))) == fields,
    decreases fields.len(),
{
    let lines = todo_lines(fields);
    assert forall|k: int| 0 <= k < fields.len() implies is_action_entry(#[trigger] lines[k])
        && has_action_fields(lines[k]) by {
        let f = fields[k];
        lemma_join_then_split(f.0, f.1, f.2);
        let line = action_line(f.0, f.1, f.2);
        if f.0.len() > 0 {
            assert(line[0] == f.0[0]);
        } else {
            assert(line[0] == ' ');
        }
    }
    if fields.len() > 0 {
        let init = fields.drop_last();
        lemma_todo_read_back(init);
        let last = fields.last();
        assert(lines =~= todo_lines(init).push(action_line(last.0, last.1, last.2)));
        let line = action_line(last.0, last.1, last.2);
        assert(is_action_entry(lines[fields.len() - 1]));
        todo_lines(init).lemma_filter_push(line, |l: Seq<char>| is_comment_line(l));
        todo_lines(init).lemma_filter_push(line, |l: Seq<char>| is_action_entry(l));
        lemma_join_then_split(last.0, last.1, last.2);
        assert(split_all(action_entries(lines)) =~= split_all(action_entries(todo_lines(init))).push(
            split_action(line),
        ));
        assert(split_all(action_entries(lines)) =~= fields);
    } else {
        reveal_with_fuel(Seq::filter, 1);
        assert(comment_lines(lines) =~= Seq::<Seq<char>>::empty());
        assert(split_all(action_entries(lines)) =~= fields);
    }
}

/// Writing lines one after the other: the text of two lists of lines is the text of the first
/// followed by that of the second, and one line is written as itself and a newline. These two
/// facts fix what is written for any list: every line, in order, each with its newline.
pub proof fn lemma_joined_lines_concat(a: Seq<Seq<char>>, b: Seq<Seq<char>>, l: Seq<char>)
    ensures
        joined_lines(a + b) == joined_lines(a) + joined_lines(b),
        joined_lines(seq![l]) == l + seq!['\n'],
        joined_lines(Seq::<Seq<char>>::empty()) == Seq::<char>::empty(),
    decreases b.len(),
{
    let one = seq![l];
    assert(one.drop_last() =~= Seq::<Seq<char>>::empty());
    assert(one.last() == l);
    assert(joined_lines(one.drop_last()) =~= Seq::<char>::empty());
    assert(joined_lines(one) =~= l + seq!['\n']);
    if b.len() == 0 {
        assert(a + b =~= a);
        assert(joined_lines(a) + joined_lines(b) =~= joined_lines(a));
    } else {
        lemma_joined_lines_concat(a, b.drop_last(), l);
        assert((a + b).drop_last() =~= a + b.drop_last());
        assert((a + b).last() == b.last());
        assert(joined_lines(a + b) =~= joined_lines(a) + joined_lines(b));
    }
}

/// The todo text of a list of actions is the todo text of its first part followed by that of
/// the rest, and one action is written as its line and a newline: no action is left out, and
/// each is written once, in order.
pub proof fn lemma_todo_text_concat(
    a: Seq<(Seq<char>, Seq<char>, Seq<char>)>,
    b: Seq<(Seq<char>, Seq<char>, Seq<char>)>,
    f: (Seq<char>, Seq<char>, Seq<char>),
)
    ensures
        joined_lines(todo_lines(a + b)) == joined_lines(todo_lines(a)) + joined_lines(todo_lines(b)),
        joined_lines(todo_lines(seq![f])) == action_line(f.0, f.1, f.2) + seq!['\n'],
{
    assert(todo_lines(a + b) =~= todo_lines(a) + todo_lines(b));
    lemma_joined_lines_concat(todo_lines(a), todo_lines(b), action_line(f.0, f.1, f.2));
    let one = todo_lines(seq![f]);
    assert(one =~= seq![action_line(f.0, f.1, f.2)]);
}

/// Whether `key` went down this frame.
pub open spec fn key_pressed(keys: PressedKeys, key: RebaseKey) -> bool {
    match key {
        RebaseKey::Pick => keys.p,
        RebaseKey::Reword => keys.r,
        RebaseKey::Edit => keys.e,
        RebaseKey::Squash => keys.s,
        RebaseKey::Fixup => keys.f,
        RebaseKey::Break => keys.b,
        RebaseKey::Drop => keys.d,
        RebaseKey::Top => keys.t,
    }
}

/// The place of `key` in the order in which keys win: P, R, E, S, F, B, D, T.
pub open spec fn key_rank(key: RebaseKey) -> nat {
    match key {
        RebaseKey::Pick => 0,
        RebaseKey::Reword => 1,
        RebaseKey::Edit => 2,
        RebaseKey::Squash => 3,
        RebaseKey::Fixup => 4,
        RebaseKey::Break => 5,
        RebaseKey::Drop => 6,
        RebaseKey::Top => 7,
    }
}

/// The command given is a pressed key before which no pressed key stands in the order, and
/// there is a command exactly when some key is pressed; so a key pressed alone gives its own
/// command.
pub proof fn lemma_first_pressed_wins(keys: PressedKeys, key: RebaseKey)
    ensures
        first_pressed_spec(keys) == Some(key) <==> (key_pressed(keys, key) && forall|o: RebaseKey|
            key_rank(o) < key_rank(key) ==> !key_pressed(keys, o)),
        first_pressed_spec(keys) is None <==> forall|o: RebaseKey| !key_pressed(keys, o),
{
    let earlier_free = forall|o: RebaseKey| key_rank(o) < key_rank(key) ==> !key_pressed(keys, o);
    if earlier_free && key_pressed(keys, key) {
        assert(!key_pressed(keys, RebaseKey::Pick) || key == RebaseKey::Pick);
        match key {
            RebaseKey::Pick => {},
            RebaseKey::Reword => {
                assert(!key_pressed(keys, RebaseKey::Pick));
            },
            RebaseKey::Edit => {
                assert(!key_pressed(keys, RebaseKey::Pick));
                assert(!key_pressed(keys, RebaseKey::Reword));
            },
            RebaseKey::Squash => {
                assert(!key_pressed(keys, RebaseKey::Pick));
                assert(!key_pressed(keys, RebaseKey::Reword));
                assert(!key_pressed(keys, RebaseKey::Edit));
            },
            RebaseKey::Fixup => {
                assert(!key_pressed(keys, RebaseKey::Pick));
                assert(!key_pressed(keys, RebaseKey::Reword));
                assert(!key_pressed(keys, RebaseKey::Edit));
                assert(!key_pressed(keys, RebaseKey::Squash));
            },
            RebaseKey::Break => {
                assert(!key_pressed(keys, RebaseKey::Pick));
                assert(!key_pressed(keys, RebaseKey::Reword));
                assert(!key_pressed(keys, RebaseKey::Edit));
                assert(!key_pressed(keys, RebaseKey::Squash));
                assert(!key_pressed(keys, RebaseKey::Fixup));
            },
            RebaseKey::Drop => {
                assert(!key_pressed(keys, RebaseKey::Pick));
                assert(!key_pressed(keys, RebaseKey::Reword));
                assert(!key_pressed(keys, RebaseKey::Edit));
                assert(!key_pressed(keys, RebaseKey::Squash));
                assert(!key_pressed(keys, RebaseKey::Fixup));
                assert(!key_pressed(keys, RebaseKey::Break));
            },
            RebaseKey::Top => {
                assert(!key_pressed(keys, RebaseKey::Pick));
                assert(!key_pressed(keys, RebaseKey::Reword));
                assert(!key_pressed(keys, RebaseKey::Edit));
                assert(!key_pressed(keys, RebaseKey::Squash));
                assert(!key_pressed(keys, RebaseKey::Fixup));
                assert(!key_pressed(keys, RebaseKey::Break));
                assert(!key_pressed(keys, RebaseKey::Drop));
            },
        }
    }
    if first_pressed_spec(keys) == Some(key) {
        assert forall|o: RebaseKey| key_rank(o) < key_rank(key) implies !key_pressed(keys, o) by {
            match o {
                RebaseKey::Pick => {},
                RebaseKey::Reword => {},
                RebaseKey::Edit => {},
                RebaseKey::Squash => {},
                RebaseKey::Fixup => {},
                RebaseKey::Break => {},
                RebaseKey::Drop => {},
                RebaseKey::Top => {},
            }
        }
    }
    if first_pressed_spec(keys) is None {
        assert forall|o: RebaseKey| !key_pressed(keys, o) by {
            match o {
                RebaseKey::Pick => {},
                RebaseKey::Reword => {},
                RebaseKey::Edit => {},
                RebaseKey::Squash => {},
                RebaseKey::Fixup => {},
                RebaseKey::Break => {},
                RebaseKey::Drop => {},
                RebaseKey::Top => {},
            }
        }
    } else {
        assert(key_pressed(keys, first_pressed_spec(keys)->0));
    }
}

/// The letter of each command key.
pub open spec fn key_letter(key: RebaseKey) -> char {
    match key {
        RebaseKey::Pick => 'p',
        RebaseKey::Reword => 'r',
        RebaseKey::Edit => 'e',
        RebaseKey::Squash => 's',
        RebaseKey::Fixup => 'f',
        RebaseKey::Break => 'b',
        RebaseKey::Drop => 'd',
        RebaseKey::Top => 't',
    }
}

/// Every key but `Top` writes an operation, which starts with the key's letter, so that no two
/// keys write the same operation; `Top` writes none.
pub proof fn lemma_key_operations(key: RebaseKey)
    ensures
        key_operation(key) is None <==> key == RebaseKey::Top,
        key_operation(key) matches Some(op) ==> op.len() > 0 && op[0] == key_letter(key),
{
    reveal_strlit("pick");
    reveal_strlit("reword");
    reveal_strlit("edit");
    reveal_strlit("squash");
    reveal_strlit("fixup");
    reveal_strlit("break");
    reveal_strlit("drop");
}

/// With no row dragged, or no destination yet, every row is shown in its own place; the
/// dragged row itself is never shifted.
pub proof fn lemma_no_drag_no_shift(index: int, drag_index: Option<usize>, drag_dest: Option<usize>)
    ensures
        drag_index is None ==> row_shift(index, drag_index, drag_dest) == 0,
        drag_dest is None ==> row_shift(index, drag_index, drag_dest) == 0,
        drag_index == Some(index as usize) && 0 <= index ==> row_shift(index, drag_index, drag_dest) == 0,
        -1 <= row_shift(index, drag_index, drag_dest) <= 1,
{
}

} // verus!
