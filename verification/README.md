# codex_rollback_bridge

A desktop tool that watches a git repository, lists its recent commits, and lets its
user commit pending work, move the checked-out branch back one commit, or point
`main` at `HEAD`.  Another tool can select the watched repository by writing its path
into a hand-over file.

The project is split in two:

- `src/` is a library verified with Verus.  It holds the decisions the tool makes
  (drawing and the scroll-wheel arithmetic, which work in floating point, stay in the
  window code):
  - `config`: where the settings files live, how a settings document is read key by
    key (with the log lines for each problem), and how the default and the per-user
    override file combine;
  - `git`: the `git` commands that are run, how their output is parsed into commit
    rows, how a snapshot of the repository is assembled, and which directories a scan
    looks at; running a command is left to a runner closure supplied by the caller;
  - `monitor`: the background monitor as a state machine (what each command or timeout
    does, how failures are counted);
  - `material`: the hand-over material and the search for a rendering within the size
    limit;
  - `view_state`, `external_poll`: what the window shows, which actions it allows,
    and how the hand-over file is watched;
  - `text`, `paths`, `timefmt`: the text, path and time helpers these rest on;
  - `laws`: properties that span several functions.
- `app/` is the window (eframe/egui), the file system, the `git` processes and the
  monitor's thread.  It hands the library what it read and acts on what the library
  decides; where the library needs to run `git` or to ask whether a directory exists, it
  calls a closure that `app/` supplies.

The tests under `tests/` run the library on concrete values.
