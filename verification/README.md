checkout
========

Recursive checkout of the submodules of a git repository.

A repository lists in its `Checkout.toml` the submodules that are to be checked out, each with the
categories that it belongs to. The tool moves each of them to the commit that the repository
records for it, or, for the categories that are bumped, to the tip of its branch. Ignored
categories are left alone. It then does the same in each submodule. Unless it is forced to, it
overwrites no file that is changed or in the index, and no untracked file, but for ignored ones,
that the target has too.

- `src/` is the library: every decision that the tool takes, with its contract, verified with
  Verus. `src/model.rs` describes the checkout of a submodule as a transition system and
  `src/laws.rs` states what holds of every checkout: that local changes survive, where HEAD goes,
  when a remote is needed, and that it ends. `src/tree.rs` states what the visits of all submodules
  report together.
- `app/` is the program around it: command line, files, git and tasks.
- `tests/` runs the library on examples.
