# noral_web

The verified core of a web research engine, and the HTTP server around it.

A query goes out to many sources. What comes back is ranked: by how its words
match, by how far its source is trusted, and by a small neural network that
learns from clicks. An agent can carry on the research in a conversation with a
language model.

## Layout

| where | what |
|---|---|
| `src/text.rs` | words, searching, clipping |
| `src/json.rs` | JSON documents, by way of `serde_json` |
| `src/research.rs`, `src/spelling.rs` | what of a query a candidate matches, however it is spelt |
| `src/similarity.rs` | why a cosine lies between nought and one |
| `src/order.rs`, `src/ranking.rs` | sorting, and the ranking with alternating hosts |
| `src/neural.rs`, `src/probes.rs` | the network's shape, lessons and self-test |
| `src/nim.rs`, `src/prompts.rs` | messages, tools, replies, retries and tasks of the language model |
| `src/agent.rs`, `src/conversations.rs` | the agent, and what holds of every conversation |
| `src/keys.rs`, `src/requests.rs` | keys, and what a request asks for |
| `tests/` | the library at work on examples |
| `app/` | the server: network, files, clock and floating point |

The code in `src/` is proved with [Verus](https://github.com/verus-lang/verus). Not
proved but believed are the contracts of what it calls outside:

- in `src/json.rs`, thirteen wrappers around `serde_json` (`parse`, `render`, `get`,
  `nth`, `as_text`, `as_list`, `text`, `number`, `boolean`, `list`, `fields`, `put`,
  `object`) and `Clone` of its `Value`;
- in `src/text.rs`, `str::to_lowercase`, `char::is_alphanumeric`,
  `char::is_whitespace` and `String::push` of the standard library.

Floating point stays in `app/`. The library works on counts, on hundredths and
on integer keys that order like the scores do.

## Server

| method | path | body | returns |
|---|---|---|---|
| GET | `/` | | a short overview |
| POST | `/api/research` | `{query, depth, apx}` | a ranked report |
| POST | `/api/click` | `{feats, skipped}` | 204, and the network has learnt |
| GET | `/api/testmode` | | the network's self-test |
| GET | `/api/keystatus` | | which services have a key |
| POST | `/api/savekey` | `{service, key}` | the same, after saving |
| POST | `/api/agent` | `{message, mode, apx, history}` | `{answer, steps, evidence}` |

Keys come from the environment (`NIM_KEY`, `APINEX_KEY`, `LANGSEARCH_KEY`,
`BRAVE_KEY`, `EXA_KEY`, `TAVILY_KEY`, `SERPER_KEY`) or from `*-key.txt` files.
Where pages and candidates come from is behind the `Sources` trait in
`app/fetch.rs`.
