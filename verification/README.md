# cfr_atlas

Exact K/V attention virtualization for CPU inference: historical K/V is a
virtual address space of pages that are either resident in a byte-bounded hot
cache or regenerated on demand and folded into online-softmax attention.

## Layout

- `src/` is the verified core, checked by Verus: page identity and ranges,
  checked layout arithmetic, the hot cache with its global and per-layer
  budgets, the token ledger, head topologies, configuration and its versioned
  text schema, page-size tuning, residency policies, storage rounding on `f32`
  bit patterns, request and validation shape checks, benchmark estimates and
  options, and the Ollama boundary (URL handling, request bodies and framing,
  HTTP response parsing, model lookup and topology derivation).
- `app/` is the runtime around it: floating-point attention, positional
  encodings, the reference backend, validation harnesses, benchmarks, threads,
  sockets and JSON deserialization.
- `tests/` exercises the core from outside.

K/V element values cross the core as IEEE-754 single-precision bit patterns
(`u32`); everything that computes with them as numbers lives in `app/`.
