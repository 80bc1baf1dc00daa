# nodus

The decision logic of `nodus`, a command-line manager of project-scoped agent
packages, written in Verus and proved against its contracts.

- `src/` is the verified library:
  - `git`: how dependency URLs are normalized and aliases derived, how git's
    tag listing is read, and the step-by-step procedure that puts a
    dependency's checkout in place (each step asks the caller for one piece
    of file system or `git` work and decides from the answer).
  - `store`: digests and the procedure that builds a package snapshot in a
    staging directory before moving it into place; `store_runs` follows whole
    runs of it against a model of the file system (a second run reuses the
    snapshot, a deleted file is restored).
  - `skills`: where the files of a package's skills go in a project, in path
    order.
  - `update_checker`: throttled release probes, reading `Location` headers,
    and when to announce a newer release.
  - `report`: the text of status lines, notices and error chains, routed to
    the result or the diagnostic stream.
  - `cache`: where the shared store lives on each platform.
  - `path`: paths with the rules of POSIX and of Windows (prefixes, roots,
    absolute paths, `join`, components, `strip_prefix`, `parent`, and the
    order of paths); `text`: character-level helpers.
  - `execution`, `resolver`, `cli`: dry-run previews, the commands that are not
    available yet, and command dispatch.
- `app/` is the program around it: argument parsing, the terminal, the file
  system, `git` and `curl`, and the JSON state file.
- `tests/` runs the library on concrete values.
