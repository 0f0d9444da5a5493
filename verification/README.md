# tmux-thumbs: the swapper

The swapper is the part of tmux-thumbs that talks to tmux. It captures the active pane,
runs `thumbs` on its content in a pane that takes its place, and acts upon what the user
selects there: it runs a command on the selected text, or moves the copy-mode cursor to
it.

- `src/` is the library, verified with Verus. `swapper` holds the session; the contracts
  of its methods say which commands are run, in which order, and how the state changes.
  They are stated over the texts in `state`, `commands`, `capture`, `options`,
  `selection`, `clipboard` and `quote`. `laws` and `waits` state what holds of a session
  as a whole.
- `app/` is the program around it: arguments, the clock, starting processes, and printing.
- `tests/` run the library on scripted replies.

What is called from outside is trusted rather than proved, behind three small wrappers:
`regex::Regex::new` and `captures` (in `options`), `base64::encode` (in `clipboard`) and
`String::from_utf8_lossy` (in `shell`). `String::push` (in `text`) has a contract that is
taken from its documentation.
