# syu

`syu` is a command-line tool for specification-driven development: a
repository keeps a layered specification (philosophies, policies,
requirements, features) in YAML, and `syu` validates the links between the
layers and the traces from requirements and features into source code and
tests. It also lists, searches, explains and browses the specification,
scaffolds new workspaces and definitions, and shows the git history of a
traced item.

## Layout

- `src/` is the library, written in Verus. Each module states what its
  functions return in `requires`/`ensures` contracts over spec functions,
  and Verus proves the code against them: the validation rules and their
  diagnostics (`check`, `report`, `language` for the adapters that traced
  files are read with), the browser model (`browser`, `browse`,
  `webapp`), `syu add` and `syu init` (`add`, `init`, `prompt`), history
  (`log`, `history`), lookup and listing (`lookup`, `list`, `explain`,
  `audit`), `syu doctor` (`doctor`) and the path and text helpers they share
  (`paths`, `text`, `shell`, `order`).
- `tests/` runs the library on concrete inputs.
- `app/` is the program around the library: argument parsing, reading the
  workspace from disk, YAML and JSON, git and other processes, the local web
  server, and printing. It hands the library plain values and prints what
  comes back.
