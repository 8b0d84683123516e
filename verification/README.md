# shijuan

A library for a primary-school exam-paper and lesson-plan desktop tool, with
its behaviour stated in Verus contracts and proved.

## Layout

- `src/` — the verified library: prompts for paper and lesson-plan generation,
  the offline question banks and template papers, the arithmetic checker
  (expression evaluator over exact fractions, answer reading, answer repair),
  paper quality checks, the question bank, wrong-question history and review
  outlines, the curriculum catalogue and its site scrapers' page logic, the
  paper-site sync, e-book catalogue pages, API-key storage and the settings.
  Calls into `regex`, `encoding_rs` and `reqwest::Url` stand behind small
  trusted wrappers whose contracts name what the call returns.
- `app/` — the desktop side: file and network I/O, the fetch loops, JSON
  (de)serialisation with serde, printing to PDF, and the floating-point
  specification table.
- `tests/` — tests of the library on concrete values.

## Main laws

- Checking a paper after `repair_math_answers` reports no mismatch
  (`verify::lemma_repaired_paper_has_no_mismatch`).
- The curriculum catalogue lists each key once, in order, with the first
  entry found for it (`knowledge::lemma_catalog_listing`).
- A stored API key reads back as it was written (`secret`).
- Both generation prompts state the difficulty shares, and the user prompt
  states a given section structure (`generate`).
