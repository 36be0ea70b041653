# rootcause

A structured error-reporting library. A report is a tree: each node holds a
context (the error or message it stands for), attachments that describe it,
and the reports that caused it. Reports are rendered in a configurable
layout.

Layout of the crate:

- `src/` is the verified library. Values held by reports are described by
  plain data (`object::Object`: a type identifier, the type's name and the
  texts of its own formatting); handlers (`handlers`) decide how they are
  rendered. `report` holds the tree and its operations, `hooks` what runs
  when a report is created (locations, backtraces) and how reports are
  rendered (`hooks::builtin_hooks::report_formatter`), `preformatted` the
  preformatting of a whole tree, and `option_ext`, `result_ext`,
  `iterator_ext` and `into_report` the conversions from `Option`, `Result`
  and sequences of results.
- `app/` holds what needs the running program: the global hook set, the
  caller's source location, the conversion of Rust values into report
  values, the environment, and the standard formatting traits.
- `tests/` runs the library on concrete reports.
