# dig

`dig` is a git wrapper for stacked-branch workflows: it tracks which branch is stacked on which,
draws the stacks as trees, and merges, deletes, adopts and cleans branches while restacking what
sits on them.

The logic is a library verified with Verus; the program around it is ordinary Rust. The program
itself wires two commands, `init` and `commit`. For branch creation and deletion, adoption, merging,
cleaning and restacking, the library holds the checks and step machines with their contracts; the git
and store-file drivers that would run them are not part of this crate, and `app/records.rs` (the
store's file format) is not yet reached from `main`.

- `src/` — the verified library. Every function carries a `requires`/`ensures` contract over
  mathematical models (`Seq` views of strings, lists and trees, `first_active` lookups in the store),
  and the library's laws are public proof functions (`law_*`).
  - `store` — tracked branches and their events; lookup, insert, archive and reparent.
  - `tree` — the stack tree of the tracked branches, its sibling order, and narrowing it to a branch.
  - `render`, `operation`, `ui` — tree drawings, live operation drawings, colors and markers.
  - `branch`, `adopt`, `merge`, `clean`, `workflow` — the checks and step-by-step decisions of the
    commands; git's answers come in as plain values.
  - `commit`, `init` — the git command lines these commands run and how their results are shown.
  - `text`, `error` — string helpers with exact specifications, and the library's error type.
- `app/` — `main`, clap argument parsing, git processes, terminal output and the serde file format.
- `tests/` — tests of the library on concrete values.
