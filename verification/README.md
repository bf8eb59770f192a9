# cargo-cage

A Linux sandbox around Cargo builds, written in Verus: build scripts, procedural
macros and compiler helpers run without a network, with a private home, a clean
environment and write access to nothing but a target run of their own and
`Cargo.lock`.

## Layout

- `src/` is the library. It holds every decision: the command line, the policy,
  the walks over host paths, the layout of the sandbox, the command lines of
  Bubblewrap and of the Landlock launcher, resource budgets, diagnostics, the
  verdicts of the red-team runner and the local release check.
- `app/` is the program around it: it performs what the library asks of the host.
- `tests/` runs the library against hosts that live in memory.

## Flows

Nothing in `src/` touches the host. Whatever needs it is a *flow*: a function of
the answers received so far that either finishes or asks the next question
(`src/flow.rs`). The contract of a flow states its result for every sequence of
answers, so the laws of the library hold whatever the host replies, for example:

- `starts::requests_start_only_bubblewrap`: a sandboxed request starts no program
  but Bubblewrap.
- `bubblewrap::requests_run_only_after_a_preflight`: the requested program runs
  only once the namespaces have been seen to be new and the privileges gone.
- `walk::accepted_paths_are_accepted_again`: a path that was accepted holds no
  symlink, and its canonical form is accepted unchanged.
- `launcher::launcher_reads_what_was_written`: the launcher reads back exactly
  what the sandbox grants.
- `launcher::programs_start_only_confined`: the launcher starts a program only
  after the kernel has confirmed the restrictions.
- `run::build_writes_only_target_and_lockfile` and `run::builds_are_offline`: what
  a build may write to, and that it has no network.
- `reads::doctor_changes_nothing`: the diagnosis only reads.
