# tableflow

The core of a poker-table tracker, verified with Verus: the table state
machine, action reconstruction from stack and pot changes, the betting-round
rules, state validation, hand history and session statistics, the input of the
recommendation engine with its cache and cache key, and the byte-level image
preparation for the card and digit models.

Amounts of chips are integers in hundredths of a chip and confidences are
integers in thousandths, so every rule is exact integer arithmetic.

Layout:

- `src/` — the verified library. Public functions state their results in
  their `ensures`, except where the result is a clock reading or a flag
  shared between clones, which no contract describes; the properties that span several calls (records numbered in
  order, confidence kept within 500..=1000, chips conserved by actions, seats
  never added or moved, no duplicate reconstructed actions, class ids forming
  a deck, uniform images staying uniform when resized, cache keys telling different
  action histories apart, ...) are public proof
  functions next to the code they are about.
- `tests/` — tests run against the compiled library.
- `app/` — the runtime around it: JSON and JSONL encodings, the async table
  manager, the recommendation sidecar process, the inference pool, the
  JavaScript bridge, and the floating-point parts (normalised rectangles,
  softmax, parsing of amounts, percentages, and the gray values and bilinear
  weights that it hands to the library's image conversions).
