# dufs

The core of a web file manager that serves one directory tree to its administrator,
written in Verus. What the server decides is in `src/` and proved against its contracts.
What touches the disk, the network or the clock is in `app/`.

## Layout

- `src/problem.rs`, `src/operation_registry.rs`, `src/app_error.rs`, `src/response.rs`:
  errors, operations and responses as clients see them.
- `src/paths.rs`, `src/path_policy.rs`, `src/internal_names.rs`, `src/uri.rs`: paths, and
  which of them a client may name.
- `src/path_coordinator.rs`: which requests may hold which paths at the same time.
- `src/rooted_fs/`: renames, publications, deletions, staged uploads and directory visits
  below a root, step by step.
- `src/listing/`: listings and searches, their order, limits and pages.
- `src/browser_api/`, `src/delete.rs`, `src/download.rs`, `src/assets.rs`,
  `src/administrator_web.rs`: the handlers of requests.
- `src/server.rs`, `src/auth.rs`, `src/args.rs`, `src/listening.rs`: the server itself.
- `src/text.rs`, `src/identifiers.rs`, `src/http_utils.rs`, `src/io_error.rs`,
  `src/steps.rs`: what the others build on.

## Decisions and outside work

A handler that looks at the outside world between its checks is a function of what has
been seen so far. It answers with the next thing to look at, or with what to do
(`src/steps.rs`). Its contract lists the checks in their order, and the laws beside it say
what holds of every run. `app/` performs each step and hands back what it saw.

The functions of other crates that the library calls stand behind small wrappers whose
doc comments say what is claimed of them.

## Program

`app/` is a small server for the machine that it runs on. It keeps operations in memory,
takes no uploads, and leaves sessions and passwords to the service in front of it, so it
only listens on loopback addresses.
