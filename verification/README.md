# finupdate

A frontend for updates of bootc-managed systems: it tells whether an update is
available, installs it, shows what changed, and switches to another build or
variant of the image.

The library under `src/` is written in Verus. It holds the state machines of the
program, its parsers, the rules by which images are resolved, and everything
that is decided or put into words. Each function states in `requires` and
`ensures` what it does, over ghost views of the types (`DeepView`), and Verus
proves it. Functions named `law_…` state properties that relate several
functions.

- `src/text.rs`, `src/calendar.rs`: text and dates.
- `src/orchestrator.rs`, `src/update_worker.rs`: the run of an update.
- `src/privileged.rs`, `src/action_journal.rs`: commands of the host, and the
  journal of what is run or withheld.
- `src/settings.rs`, `src/args.rs`: preferences, and the overrides of a run.
- `src/registry_client.rs`, `src/families.rs`, `src/service.rs`: builds, the
  catalogue of families, and the service over a registry.
- `src/sbom_diff.rs`: the difference of two package lists.
- `src/app.rs` and `src/ui/`: the application and its views, as state machines
  that answer a message with a new state and with effects.
- `src/changelog_widget.rs`, `src/rebase_widget.rs`, `src/ffi.rs`: what the panel
  of the control centre shows.
- `src/cli.rs`: the command line without a window.

What is taken on trust stands behind functions marked `external_body` and
`assume_specification`: dates of `chrono`, JSON of `serde_json`, image references
of `oci-client`, and a few functions of the standard library.

`app/` is the program around the library: GTK widgets, the network, processes
and files. It performs the effects and hands back what happened.
