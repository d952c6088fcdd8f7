# lighttrack_api

The rules of the LightTrack API server, as a verified library: what an event has to look like to be
stored, who may read or write it, what is scrubbed from it, which limits speak about it, and what the
server answers. Every function in `src/` carries a contract that Verus proves; the laws that span
functions stand beside them as public proof functions.

## Layout

- `src/` — the library. `ingest`, `event`, `validate`, `redact`, `scrub` and `otlp` are the way of an
  event to the store; `auth`, `guards`, `keys`, `devices`, `boundary` say who may do what; `admission`,
  `limit`, `limits`, `proximity`, `rejections`, `rejection_history`, `usage`, `guardrails` are about
  budgets; `forecast`, `forecast_alerts`, `forecast_plan`, `sweep` about what lies ahead; `projects`,
  `prompts`, `gate`, `canary`, `quality`, `judges`, `labels`, `datasets`, `jobs`, `relay`, `actions`
  about the registries; `error`, `health`, `posture`, `prices`, `query`, `seen`, `boot`, `logging`,
  `outbound` about running the server. `text`, `dates`, `wire`, `json`, `seqs`, `order`, `clock`, `figure`, `hook` are what they rest on.
- `tests/` — the library run on concrete values.
- `app/` — the server: configuration, HTTP, the bound on writes in flight, and an in-process store.

## What is trusted

Standard text functions (`text`), the calendar of chrono (`dates`) and the JSON reader and string writer
of serde_json (`wire`). Each such item says above it what is claimed of the outside function.

Figures that are floating point on the wire are held as an order key and as they are written (`figure`),
amounts of dollars as picodollars (`event::Money`). A scrubber, a digest, the one form of a trace
reference and the cut of a label to size are functions that the caller brings; contracts speak of what they compute.
