# llm_tools

The verified rules of two services, and the program that runs them.

- **llm-router** puts prompts to language models by quality tier, falls back to a second vendor where a retry may help,
  puts typed decisions to a System One provider, and records every call in monthly partitions.
- **tool** is a registry of tools that a model may call: definitions are reviewed before they are active, only read-only
  tools run without approval, and nothing is fetched from a host that is not public.

## Layout

| Where | What |
| --- | --- |
| `src/` | the library: every rule, with its contract, verified by Verus |
| `src/llm_router/` | tiers, limits, routes, the budget of a decision, the adapters' bodies and replies, the audit rows |
| `src/tool/` | registration, review, execution, races, declarative sources, guards, lookups |
| `src/text.rs`, `src/json.rs`, `src/number.rs` | texts, JSON values and doubles as the rules see them |
| `tests/` | the library on concrete values, with its outside crates linked |
| `app/` | the two services around the library: HTTP, Postgres, files, clocks |

The library holds doubles by their bits, and takes the results of I/O as arguments: a status and a body, the addresses a
host resolved to, the rows of a table. Where it calls an outside crate, the call stands behind a small function whose
doc comment says what is taken on trust.

## Running a service

The program takes the service as its argument, `llm-router` or `tool`, and its settings from the environment:

- `llm-router`: `OPENROUTER_API_KEY`, `DATABASE_URL`, `LLM_<TIER>_PRIMARY` and `LLM_<TIER>_BACKUP` for `LOW`, `MEDIUM`
  and `HIGH`, and `LLM_<TIER>_MAX_INPUT_TOKENS` and `LLM_<TIER>_MAX_OUTPUT_TOKENS` for each tier that is served;
  optionally `OPENROUTER_BASE_URL`, `LLM_PROVIDER_ROUTING_JSON`, `TYPESAFE_AI_API_KEY`, `TYPESAFE_AI_BASE_URL` and
  `TYPESAFE_AI_MODEL`.
- `tool`: `DATABASE_URL`, `LLM_ROUTER_URL`, `KNOWLEDGE_BASE_URL`; optionally `YOU_SEARCH_API_KEY`,
  `BRAVE_SEARCH_API_KEY`, `BUILT_IN_TOOLS_FILE` and `DECLARATIVE_TOOLS_FILE`.
