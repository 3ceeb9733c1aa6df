# openvaf

JSON output of compiled Verilog-A modules, and the decisions of the runs that
produce it, verified with Verus.

- `src/` is the verified library. `model` holds a compiled module as plain data,
  and `module` writes it. `laws`, `legal` and `wellformed` show that what is written
  is JSON and reads as the value that is laid out for the module, as long as
  the names that are written unescaped, such as those of nodes, may stand in a JSON
  string. `unambiguous` shows that it reads as nothing else. `compile`, `dump` and
  `expand` say what a run does next, and `write` how text is handed to a writer.
- `app/` is the compiler around it: it reads sources, runs the compiler passes and
  the linker, and talks to the terminal. It needs the other crates of the compiler
  (`basedb`, `hir`, `hir_lower`, `mir`, `mir_llvm`, `sim_back`, `osdi`, `linker`,
  `paths`, `target`, `tokens`).
- `tests/` runs the library.
