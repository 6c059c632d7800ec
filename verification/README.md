# git_editor

The editing logic of a small graphical editor that git starts for commit messages and for
interactive-rebase todo lists, verified with Verus.

- `src/` is the verified library:
  - `text.rs`: characters of a string, the first space of a line, suffixes.
  - `rebase.rs`: todo lines and actions, reading and writing them, moving an action by drag
    and drop, the key commands, and the laws that tie these together.
  - `message.rs`: the commit message text shown for editing and the line count the window
    is sized by.
  - `window.rs`: window placement and the decisions of the event loop.
  - `dispatch.rs`: which editor a file is opened in.
- `app/` is the program: file I/O, the window, the GPU and the user interface.
- `tests/` runs the library on concrete inputs.
