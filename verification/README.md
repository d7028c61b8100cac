# revlocal-daemon

The daemon of rev-local, a code review tool that runs on one's own machine: it watches
repositories, has each change reviewed by an engine, and publishes what was found as far as it has
been allowed to.

`src/` is the logic, verified with [Verus](https://github.com/verus-lang/verus): every function
states in its contract what it returns, and the laws that span several functions are public proof
functions at the end of the modules they belong to.

- Reviewing a change: `depth`, `truncation`, `prompt`, `normalize`, `pipeline`, `engines`.
- Working through the queue: `executor`, `state_machine`, `triggers`, `scheduler`, `backfill`,
  `autopilot`, `poll`, `kill_switch`.
- What may be done: `budgets`, `autonomy`, `gating`, `approvals`, `notify`.
- Repositories and the machine: `repos`, `scan`, `hooks`, `startup`, `doctor`,
  `trigger_receiver`.
- What is shown: `view`, `dashboard`, `run_view`, `findings_view`, `repository_view`,
  `approvals_view`, `settings_view`, `onboarding`.
- Beneath them: `model`, `text`, `clock`, `globs`.

Calls into other crates stand behind small functions whose contracts are taken on trust: times
(`clock`, chrono), globs (`globs`, globset), documents (`normalize`, `repos`, `findings_view`,
serde_json) and templates (`prompt`, handlebars).

`tests/` runs the library on concrete values. `app/` is what surrounds it: the database, version
control, engines and publishing targets behind traits, and the files, processes and sockets that
the daemon uses itself.
