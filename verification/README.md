# fastllm

A gateway for routing LLM requests to providers, with its decisions proved
correct in Verus: provider routing, admission and per-route limits of the
scheduler, retry and fallback plans, the prompt cache (keys, time-to-live,
eviction of the oldest entry), and the bookkeeping of local models (memory
budget, inference slots, KV-cache prefixes, residency and expiry).

Layout:

- `src/` — the verified library. Every function carries a contract over
  mathematical views (`Seq`, `Map`, spec functions); the `law_*` proof
  functions state properties that span calls, such as a cache read giving
  back what a write stored.
- `app/` — the asynchronous shell: provider objects of `autoagents-llm`,
  tokio permits, deadlines and backoff sleeps, serde forms of the records and
  the error's `Display`. It hands plain values to the library and runs the
  actions the library decides.
- `tests/` — tests of the library on concrete values.
