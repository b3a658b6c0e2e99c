# rust_saas

The decision logic of a small AI workspace platform — project debug
containers, flows of model agents, streamed chat with tool calls, and a
document/vector service — written in Verus, with each function's behaviour
stated in its contract and proved.

## Layout

- `src/` — the verified library, one module per concern:
  - `text`, `paths` — characters, decimal text, path joining, container and
    volume names;
  - `compose`, `docker`, `prompts` — Dockerfiles, the compose file, reading
    `docker`/`docker-compose` output, deployment instructions for the model;
  - `flow`, `agent` — the flow graph (head nodes, the nodes that follow a
    completed node), the supervising loop and the node agents' decisions;
  - `tool_calls`, `mcp`, `llm`, `memory`, `local_chat` — streamed tool calls,
    MCP server replies, chat messages and the local model's memory;
  - `assign` — assigning project files to containers;
  - `chunking`, `tasks`, `search`, `rerank`, `export`, `service`, `ontology` —
    the document service: chunking, background tasks, search, re-ranking,
    import/export, settings and the domain ontology;
  - `workspace` — workspace paths, listings and service answers.
- `tests/` — tests on concrete values, one file per area.
- `app/` — a command-line front end: it reads files and the environment, runs
  `docker` and `docker-compose`, converts JSON, and computes the floating-point
  scores of search results; every decision it prints comes from the library.

Laws that span several functions are public proof functions named
`lemma_*` (for instance `chunking::lemma_spans_cover`,
`workspace::lemma_listing_order_sorts`,
`tool_calls::lemma_argument_pieces_join`).

## What is not here

- The object-storage client (`MinioService` and its constructor): it is built
  on the `minio` crate, which is not available to this build, so neither the
  library nor the front end holds it. The storage settings, object keys and
  download answers it works with are in `service`.
- Network, database and async plumbing (HTTP handlers, repositories, the
  executors' channels): the front end is a synchronous command-line program,
  and the library holds the decisions those parts take as step functions
  (`agent::supervise`, `agent::node_step`, `tool_calls::stream_step`).
