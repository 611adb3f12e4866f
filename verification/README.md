# ssmt

The plugin system of SSMT (manifests, the registry of installed packages,
launch planning, launcher command lines, marketplace catalogs, package
archives, settings, logs, file-lock recovery) and the Calabiyau extraction
decisions, written in Verus with their behaviour stated in `requires` /
`ensures` contracts and proved.

## Layout

- `src/` — the verified library.
  - `manifest.rs`: plugin manifests and every rule a manifest must meet.
  - `versions.rs`: version requirements, through `semver`.
  - `registry.rs`: installed packages, their enabled state and dependency paths.
  - `launch.rs`: launch requests, the launch plan and the phase machine.
  - `forwarder.rs`: launcher templates, command lines and the ready/exit decisions.
  - `hoyoshade.rs`, `external_manager.rs`: the two bundled launch bridges.
  - `marketplace.rs`: catalog entries and what a host supports.
  - `package.rs`: which archive entries may be extracted, and where.
  - `settings.rs`, `logging.rs`, `launch_events.rs`, `commands.rs`: plugin
    settings, plugin logs, launch events on standard output, and the data the
    UI commands return.
  - `file_locks.rs`, `launch_barrier.rs`: the decisions around lock owners and
    the named events that hold a launched game.
  - `cami.rs`: which data types a Calabiyau draw IB matches, and how its
    submeshes are cut and named.
  - `text.rs`: character-level helpers.
- `tests/` — tests of the library on concrete values.
- `app/` — plain Rust around the library: files, processes, archives, JSON
  (serde), the watcher, and the Windows calls.

Contracts speak of views (`Seq<char>` for strings, `Seq` for vectors) and of
spec functions that state each rule directly. Calls into outside crates go
through a few wrappers whose contracts are stated next to them.
