# alas_launcher

The core of the AzurNext launcher, written in Verus. The functions under
`src/` carry contracts that Verus proves, except a few trusted items
whose contracts are taken as given: wrappers of `String::push`,
`String::from_utf8_lossy` and of the YAML parse of the deploy
configuration (`serde_yaml` into `serde_json::Value`, converted node for
node), and an assumed specification of `char::from_u32`.

- `src/config_text.rs`, `src/deploy.rs`: reading the deploy configuration,
  rewriting its update method, and migrating it to the self-contained
  `.venv` layout (with proofs that the last chosen method wins and that a
  migration is stable).
- `src/progress.rs`, `src/percent.rs`: the splash screen's progress while
  the repository updates and the dependencies sync.
- `src/setup_flow.rs`, `src/commands.rs`, `src/layout.rs`, `src/runtime.rs`,
  `src/pypi.rs`: the plans, commands, paths and decisions of preparing the
  Python runtime.
- `src/backend.rs`: the web UI's launch settings, the choice of its port,
  and the reading of port listings.
- `src/autostart.rs`, `src/encoding.rs`: the logon task and its UTF-16 file.
- `src/updater.rs`: the self-update's state machine.
- `src/notify.rs`: what a notification shows.

`app/` is a headless program around it: files, processes, the clock,
network and threads. The window and the system notifications are not part
of it. `tests/` runs the library on concrete values.
