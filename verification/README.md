# tc_calc_fuzzer

A grammar-aware differential fuzzer for a small calculator, built on LibAFL.

- `src/` is the verified library: the expression grammar and its written
  form (`ast`, `numtext`), the random expression generator (`generator`),
  the grammar-aware mutations (`mutator`), the input decisions of the
  harness (`harness`), the bounded random draw (`rng`), and properties
  proved across them (`laws`).
- `app/` is the fuzzing program: LibAFL launch and stages, the Python
  oracle process, the comparison of floating-point results, and serde
  copies of the expression types.
- `tests/` exercise the library, including a check of every decimal
  literal the generator writes against binary64 formatting.
