# rvllm_runtime

The decisions of an LLM runtime for Apple hardware, verified with Verus: what the
engine admits, reserves, launches and completes; which programs an ANE decoder
loads and how it is stepped; which command lines, references, job manifests,
receipts and reports are accepted, and why the others are not.

- `src/` is the library. Its functions state over mathematical models what they
  return; what a tokenizer or a parser answers is named, not restated. Work that
  needs a device, a clock or a file is a call that the host answers, and the
  library decides what follows from each answer.
  - `engine`: admission, KV reservation with roll-back, submission, completion.
  - `ane`: weight plans, program caches, checkpoint validation, the decode script,
    half-precision conversion and comparison, component pins.
  - `metal_infer`: text inference over a Metal backend, one prompt or a session.
  - `disagg`: prefill on Metal with decode on the ANE, and its cache batches.
  - `queue`: the experiment queue, from job manifests to verdicts.
  - `mlx`, `model_suite`, `evidence`, `referee`, `handoff`, `bench`: summaries,
    suites, evidence checks, the quality referee, prefill handoff, paired trials.
  - `text`, `json`, `hash`, `order`, `paths`: what the others are built on.
- `app/` holds the command-line tools: files, processes, clocks, floating-point
  arithmetic and serialisation around the library.
- `tests/` runs the library on concrete inputs.

Outside functions are called through declared contracts: JSON in `src/json.rs`,
SHA-256 in `src/hash.rs`, tokenization in `src/metal_infer/tokenizer.rs`, and a few
functions in `src/text.rs`, `src/mlx/benchmark.rs` and
`src/disagg/references.rs`.
