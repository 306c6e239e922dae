# commander

The decision logic of Commander, an AI agent for software engineering work, written in Verus
and proved against its contracts.

## Layout

- `src/` — the verified library.
  - `text`, `order`, `path`, `pattern`, `net`: strings, ordering, paths, regular expressions and
    globs, URLs and IP addresses, with specifications of what they compute.
  - `tool/`: the workspace tools (file read, edit, write, list and search, text search, shell,
    web fetch and search, memory, presentations, transcription, visual inspection, research);
    each checks its arguments and decides what to do, and the research tool runs as a state
    machine of requests to a model and a search service.
  - `llm/`: model configuration, Bedrock and OpenAI request layout and answer reading,
    embedding settings.
  - `mcp`: exposed names of MCP tools, their registration and call routing.
  - `persistence/`: the file stores (tool permissions, schedules, subagents, watch), the chat
    message columns and the stored names of roles, statuses and task sources.
  - `process/`: bounded output logs, the Docker sandbox's arguments, and background process
    supervision.
- `tests/` — tests of the library on concrete values.
- `app/` — the command line: reads files and the network, runs processes, and calls the library.
