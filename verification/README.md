# wickle

The core of an agent runtime as a verified library: checkpoints and the transitions between them,
leases, admission, event and record histories, hooks, context sources, skills, context compaction,
model catalogs, routing and option layering, provider tool contracts, profile resolution and
inspection reports.

Every decision is a function from plain values to plain values with a contract that Verus proves.
What an operation refuses, and with which code and path, is part of its contract.

* `src/` holds the library.
  * `error`, `data`, `json`, `text`, `reader`, `serialization`, `encoding`, `table`, `refs`: values,
    strict JSON, canonical JSON and digests.
  * `run`, `content`, `context`, `profile`, `model`, `prompt`, `skills`, `hook`: what runs are made of.
  * `state`: the store. `state/memory_store` keeps runs; `commit`, `segments` and `leases` change
    them; the other modules say what a checkpoint and its history must satisfy; `order` states what
    every change keeps, and `steps` what holds after any number of them.
  * `model_catalog`, `model_routing`, `model_options`, `model_dispatch`, `model_execution`: choosing
    and calling models.
  * `provider_tool_schema`: tools as a provider sees them, and arguments that are decoded exactly.
  * `resolution`: validating a profile against the metadata of its components.
  * `context_source`, `context_strategy`, `hook`, `skills`: what enters a model's context.
  * `inspection`: reports about prepared steps that show no secrets.
* `tests/` runs the library on concrete values.
* `app/` is ordinary asynchronous Rust around the library: it reads and writes stores, calls
  adapters, hooks, sources and skills, and keeps deadlines.

Laws that relate several operations are public proof functions whose names start with `law_`.
