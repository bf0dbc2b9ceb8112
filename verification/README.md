# github_notif_tui

A terminal dashboard for the pull requests that wait on you on GitHub: review
requests made to you and to your teams, mentions, assignments and your own
pull requests, each in a tab. It lists them with a priority score, CI and
review state, lets you search, filter and sort, mark pull requests done, read,
pinned or snoozed, and open them in the browser.

The logic is a Verus library, verified against its contracts:

- `src/gh.rs` — pull-request data, and the details read from a `gh pr view` answer.
- `src/review.rs` — where each participant of a pull request stands.
- `src/score.rs` — the priority score.
- `src/app.rs`, `src/table.rs`, `src/sorting.rs`, `src/state.rs` — tabs, search,
  filters, sorting and the local marks.
- `src/control.rs`, `src/events.rs` — what each key and event does: a step from
  state and event to new state and effects.
- `src/ui.rs` — the texts, tones and layout numbers of the screen.
- `src/laws.rs` — properties that span several operations.

`app/` runs it: the terminal loop, the `gh` command, the saved marks and the
drawing with ratatui. `tests/` holds the tests of the library.
