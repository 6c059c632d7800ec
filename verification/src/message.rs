//! The commit message being edited, as read from the message file.

use vstd::prelude::*;
use crate::text::{push_char, push_str};

verus! {

broadcast use vstd::seq_lib::group_seq_properties;

/// The views of lines read from a file; `None` stands for a line that could not be read.
pub open spec fn opt_views(lines: Seq<Option<String>>) -> Seq<Option<Seq<char>>> {
    lines.map_values(|o: Option<String>| match o {
        Some(l) => Some(l@),
        None => None,
    })
}

/// The text shown for the first line: an empty first line becomes two newlines, so that a
/// blank line stands before the instructions that follow; another line is kept with its
/// newline; an unreadable line gives nothing.
pub open spec fn first_line_text(line: Option<Seq<char>>) -> Seq<char> {
    match line {
        Some(l) => if l.len() == 0 {
            seq!['\n', '\n']
        } else {
            l + seq!['\n']
        },
        None => Seq::empty(),
    }
}

/// How many lines the first line counts for: two for an empty one, one for another, none
/// for an unreadable one.
pub open spec fn first_line_count(line: Option<Seq<char>>) -> nat {
    match line {
        Some(l) => if l.len() == 0 {
            2
        } else {
            1
        },
        None => 0,
    }
}

/// Each readable line with its newline, unreadable ones left out.
pub open spec fn following_text(lines: Seq<Option<Seq<char>>>) -> Seq<char>
    decreases lines.len(),
{
    if lines.len() == 0 {
        Seq::empty()
    } else {
        following_text(lines.drop_last()) + match lines.last() {
            Some(l) => l + seq!['\n'],
            None => Seq::empty(),
        }
    }
}

/// How many of the lines could be read.
pub open spec fn readable_count(lines: Seq<Option<Seq<char>>>) -> nat
    decreases lines.len(),
{
    if lines.len() == 0 {
        0
    } else {
        readable_count(lines.drop_last()) + if lines.last() is Some {
            1nat
        } else {
            0nat
        }
    }
}

/// The text of the message as it is shown for editing.
pub open spec fn message_text(lines: Seq<Option<Seq<char>>>) -> Seq<char> {
    if lines.len() == 0 {
        Seq::empty()
    } else {
        first_line_text(lines[0]) + following_text(lines.subrange(1, lines.len() as int))
    }
}

/// The number of lines the window is sized for: five, and the lines of the message.
pub open spec fn message_line_count(lines: Seq<Option<Seq<char>>>) -> nat {
    if lines.len() == 0 {
        5
    } else {
        5 + first_line_count(lines[0]) + readable_count(lines.subrange(1, lines.len() as int))
    }
}

/// How many newlines `s` holds.
pub open spec fn newline_count(s: Seq<char>) -> nat
    decreases s.len(),
{
    if s.len() == 0 {
        0
    } else {
        newline_count(s.drop_last()) + if s.last() == '\n' {
            1nat
        } else {
            0nat
        }
    }
}

/// The commit message file being edited.
pub struct MessageData {
    line_count: u32,
    comment: String,
    message_file: String,
}

impl MessageData {
    /// The number of lines the window is sized for.
    pub closed spec fn spec_line_count(&self) -> nat {
        self.line_count as nat
    }

    /// The text being edited.
    pub closed spec fn spec_comment(&self) -> Seq<char> {
        self.comment@
    }

    /// The path of the message file.
    pub closed spec fn spec_file(&self) -> Seq<char> {
        self.message_file@
    }

    /// Builds the message from the lines read from the file.
    pub fn new(message_file: String, lines: Vec<Option<String>>) -> (d: Self)
        requires
            lines.len() + 6 <= u32::MAX,
        ensures
            d.spec_file() == message_file@,
            d.spec_comment() == message_text(opt_views(lines@)),
            d.spec_line_count() == message_line_count(opt_views(lines@)),
    {
        let ghost all = opt_views(lines@);
        let mut line_count: u32 = 5;
        let mut comment = String::new();
        let n = lines.len();
        if n == 0 {
            return MessageData { line_count, comment, message_file };
        }
        match &lines[0] {
            Some(line) => {
                if line.as_str().is_empty() {
                    line_count = line_count + 2;
                    push_char(&mut comment, '\n');
                    push_char(&mut comment, '\n');
                } else {
                    line_count = line_count + 1;
                    push_str(&mut comment, line.as_str());
                    push_char(&mut comment, '\n');
                }
            },
            None => {},
        }
        assert(comment@ =~= first_line_text(all[0]));
        let ghost rest = all.subrange(1, n as int);
        let mut k: usize = 1;
        while k < n
            invariant
                n == lines.len(),
                n + 6 <= u32::MAX,
                1 <= k <= n,
                all == opt_views(lines@),
                rest == all.subrange(1, n as int),
                comment@ == first_line_text(all[0]) + following_text(rest.take(k - 1)),
                line_count == 5 + first_line_count(all[0]) + readable_count(rest.take(k - 1)),
                readable_count(rest.take(k - 1)) <= k - 1,
            decreases n - k,
        {
            assert(rest.take(k as int).drop_last() =~= rest.take(k - 1));
            match &lines[k] {
                Some(line) => {
                    line_count = line_count + 1;
                    push_str(&mut comment, line.as_str());
                    push_char(&mut comment, '\n');
                },
                None => {},
            }
            k = k + 1;
        }
        assert(rest.take(n - 1) =~= rest);
        MessageData { line_count, comment, message_file }
    }

    /// The number of lines the window is sized for.
    pub fn line_count(&self) -> (r: u32)
        ensures
            r == self.spec_line_count(),
    {
        self.line_count
    }

    /// The text being edited.
    pub fn comment(&self) -> (r: &String)
        ensures
            r@ == self.spec_comment(),
    {
        &self.comment
    }

    /// The path of the message file.
    pub fn message_file(&self) -> (r: &String)
        ensures
            r@ == self.spec_file(),
    {
        &self.message_file
    }

    /// Inner size of the window: 700 wide, and 20 per counted line but no more than 980.
    pub fn default_window_size(&self) -> (size: (u32, u32))
        requires
            self.spec_line_count() * 20 <= u32::MAX,
        ensures
            size.0 == 700,
            size.1 == if self.spec_line_count() * 20 <= 980 {
                self.spec_line_count() * 20
            } else {
                980
            },
    {
        let height = self.line_count * 20;
        if height <= 980 {
            (700, height)
        } else {
            (700, 980)
        }
    }
}

/// No readable line holds a newline, as is so of lines split at newlines.
pub open spec fn lines_newline_free(lines: Seq<Option<Seq<char>>>) -> bool {
    forall|k: int| 0 <= k < lines.len() ==> newline_free(#[trigger] lines[k])
}

/// A line that is unreadable or holds no newline.
pub open spec fn newline_free(line: Option<Seq<char>>) -> bool {
    match line {
        Some(l) => forall|m: int| 0 <= m < l.len() ==> l[m] != '\n',
        None => true,
    }
}

proof fn lemma_newline_count_add(a: Seq<char>, b: Seq<char>)
    ensures
        newline_count(a + b) == newline_count(a) + newline_count(b),
    decreases b.len(),
{
    if b.len() > 0 {
        lemma_newline_count_add(a, b.drop_last());
        assert((a + b).drop_last() =~= a + b.drop_last());
    } else {
        assert(a + b =~= a);
    }
}

proof fn lemma_newline_free_count(l: Seq<char>)
    requires
        forall|m: int| 0 <= m < l.len() ==> l[m] != '\n',
    ensures
        newline_count(l) == 0,
    decreases l.len(),
{
    if l.len() > 0 {
        lemma_newline_free_count(l.drop_last());
    }
}

proof fn lemma_following_newlines(lines: Seq<Option<Seq<char>>>)
    requires
        lines_newline_free(lines),
    ensures
        newline_count(following_text(lines)) == readable_count(lines),
    decreases lines.len(),
{
    if lines.len() > 0 {
        let init = lines.drop_last();
        assert forall|k: int| 0 <= k < init.len() implies newline_free(#[trigger] init[k]) by {
            assert(init[k] == lines[k]);
        }
        lemma_following_newlines(init);
        let tail = match lines.last() {
            Some(l) => l + seq!['\n'],
            None => Seq::empty(),
        };
        lemma_newline_count_add(following_text(init), tail);
        if let Some(l) = lines.last() {
            assert(lines[lines.len() - 1] == lines.last());
            lemma_newline_free_count(l);
            assert((l + seq!['\n']).drop_last() =~= l);
        }
    }
}

/// The number of lines the window is sized for is five more than the number of lines of the
/// text shown, when the lines read hold no newline.
pub proof fn lemma_line_count_counts_newlines(lines: Seq<Option<Seq<char>>>)
    requires
        lines_newline_free(lines),
    ensures
        message_line_count(lines) == 5 + newline_count(message_text(lines)),
{
    if lines.len() > 0 {
        let rest = lines.subrange(1, lines.len() as int);
        assert forall|k: int| 0 <= k < rest.len() implies newline_free(#[trigger] rest[k]) by {
            assert(rest[k] == lines[k + 1]);
        }
        lemma_following_newlines(rest);
        lemma_newline_count_add(first_line_text(lines[0]), following_text(rest));
        match lines[0] {
            Some(l) => {
                if l.len() == 0 {
                    reveal_with_fuel(newline_count, 3);
                } else {
                    lemma_newline_free_count(l);
                    assert((l + seq!['\n']).drop_last() =~= l);
                }
            },
            None => {},
        }
    }
}

/// The lines after the first are shown one after the other: the text of two runs of lines is
/// the text of the first followed by that of the second; a readable line, whatever it holds,
/// empty or not, is shown as itself and a newline and counts for one line; an unreadable one
/// shows nothing and counts for none. These facts fix the text and the count of every run.
pub proof fn lemma_following_concat(
    a: Seq<Option<Seq<char>>>,
    b: Seq<Option<Seq<char>>>,
    l: Seq<char>,
)
    ensures
        following_text(a + b) == following_text(a) + following_text(b),
        readable_count(a + b) == readable_count(a) + readable_count(b),
        following_text(seq![Some(l)]) == l + seq!['\n'],
        readable_count(seq![Some(l)]) == 1,
        following_text(seq![None::<Seq<char>>]) == Seq::<char>::empty(),
        readable_count(seq![None::<Seq<char>>]) == 0,
    decreases b.len(),
{
    let one = seq![Some(l)];
    assert(one.drop_last() =~= Seq::<Option<Seq<char>>>::empty());
    assert(one.last() == Some(l));
    assert(following_text(one.drop_last()) =~= Seq::<char>::empty());
    assert(following_text(one) =~= l + seq!['\n']);
    let none = seq![None::<Seq<char>>];
    assert(none.drop_last() =~= Seq::<Option<Seq<char>>>::empty());
    assert(following_text(none) =~= Seq::<char>::empty());
    if b.len() == 0 {
        assert(a + b =~= a);
        assert(following_text(a) + following_text(b) =~= following_text(a));
    } else {
        lemma_following_concat(a, b.drop_last(), l);
        assert((a + b).drop_last() =~= a + b.drop_last());
        assert((a + b).last() == b.last());
        assert(following_text(a + b) =~= following_text(a) + following_text(b));
    }
}

/// The text shown is the first line's text followed by the text of the rest, and the count is
/// five, the first line's count, and one for every readable line after it.
///
/// An empty first line is shown as a blank line before the rest and counts for two; another
/// readable first line is shown with its newline and counts for one; an unreadable one shows
/// nothing and counts for none.
pub proof fn lemma_message_of_first_and_rest(first: Option<Seq<char>>, rest: Seq<Option<Seq<char>>>)
    ensures
        message_text(seq![first] + rest) == first_line_text(first) + following_text(rest),
        message_line_count(seq![first] + rest) == 5 + first_line_count(first) + readable_count(rest),
        first == Some(Seq::<char>::empty()) ==> message_text(seq![first] + rest) == seq!['\n', '\n']
            + following_text(rest) && message_line_count(seq![first] + rest) == 7 + readable_count(
            rest,
        ),
        first matches Some(l) && l.len() > 0 ==> message_text(seq![first] + rest) == first->0 + seq![
            '\n',
        ] + following_text(rest) && message_line_count(seq![first] + rest) == 6 + readable_count(rest),
        first is None ==> message_text(seq![first] + rest) == following_text(rest)
            && message_line_count(seq![first] + rest) == 5 + readable_count(rest),
        message_text(Seq::<Option<Seq<char>>>::empty()) == Seq::<char>::empty(),
        message_line_count(Seq::<Option<Seq<char>>>::empty()) == 5,
{
    let ls = seq![first] + rest;
    assert(ls[0] == first);
    assert(ls.subrange(1, ls.len() as int) =~= rest);
    if first is None {
        assert(Seq::<char>::empty() + following_text(rest) =~= following_text(rest));
    }
}

} // verus!
