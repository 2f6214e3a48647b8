# autoresearch_rs

A small sandbox for fixed-budget language-model experiments, with its
non-numeric core verified by Verus.

- `src/` — the verified library: the character tokenizer (`tokenizer`), the
  tokenizer, token and key-value file formats (`tokenizer_file`,
  `token_file`, `kv`), line and decimal handling (`text`, `numbers`), the
  xorshift generator and batch sampling (`rng`), train/validation splitting
  (`split`), the results table (`results`), run ids (`run_id`) and the
  command-line grammars of the four commands (`cli`).
- `app/` — the `prepare`, `train`, `report` and `autoresearch` commands:
  file and process I/O, floating-point arithmetic and the candle model.
- `tests/` — tests of the library on concrete values.
