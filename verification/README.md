# sync_runner

The decision logic of an end-to-end test runner for a directory
synchronisation server and client, verified with Verus.

- `src/` — the verified library:
  - `path`, `sandbox`: paths as component sequences; walks that confine every
    path to a sandbox root, refusing links, `..`, names that are empty, `.`,
    `..` or hold a separator, ambiguous Windows names and anything that
    resolves outside; the sandbox registry.
  - `walk_model`: what a walk and the sandbox-root setup conclude on a given
    file system, and the laws that follow (an absolute descendant walks as
    its relative rest; an accepted path is accepted again as itself; setup
    is repeatable).
  - `tree_check`, `tree_copy`, `listing`: checking a whole tree for links
    before a recursive copy, removal or rename; copying a tree so that the
    destination mirrors the source; gathering a tree's entries for the
    comparisons. Each is a machine whose accepted end says that every path
    it met was handled.
  - `order`, `entries`, `text`, `verification`: sorted sets of relative
    paths, the containment and same-entries checks and their messages, and
    byte-for-byte file comparison.
  - `case`: each test case's fixture, checks and clean-up, as data. The
    default case asks only that the server hold every client entry (every
    run asks that); it compares neither the entries both ways nor the trees.
  - `process`, `supervise`: waiting for and stopping child processes, as
    machines driven by the caller.
  - `runner`, `prepare`, `log`: case selection and verdicts, program and log
    locations, starting the programs, log levels.
- `app/` — the command line, file-system and process I/O that drive the
  library.
- `tests/` — tests of the library on concrete values.
