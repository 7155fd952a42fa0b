# memos

The verified core of a local-first notes application: Markdown memos with tags and
mentions, attachments, reactions and links between memos, chat sessions with an AI
assistant, review decks of flash cards, sharing with peers on the local network, a local
LLM runner and an MCP server.

## Layout

- `src/` — the library, verified with Verus. Every function carries a contract; the
  public proof functions named `law_*` state properties that hold across calls.
  - `markdown`, `text` — tag and mention extraction, snippets, HTML rendering (comrak).
  - `memo`, `attachment`, `reaction`, `memo_relation`, `tag`, `setting`, `chat_session`,
    `review_store`, `import_export`, `sql` — the SQL statements of the store and how rows
    are filtered, ordered and paged after the query.
  - `lan` — sharing rules, the peer cache, the frame codec and the answers to peers.
  - `agent`, `ai`, `sse`, `review`, `document` — the assistant's tool loop, the streamed
    answer, prompts, the checks around model calls and document conversion (markitdown).
  - `llm_runner`, `mcp`, `mcp_http` — the runner's command line and state, and the MCP
    server's configuration, HTTP framing and JSON-RPC decisions.
  - `commands`, `file_storage`, `attachment_url`, `thumbnail` — request handling shared by
    the application commands, attachment files, the attachment URL scheme and image
    thumbnails (image).
- `app/` — a command line host around the library: SQLite (rusqlite), files, the SSE
  reader, peer frames over byte streams, HTTP calls (ureq) and the JSON shapes of the
  library's types (serde).
- `tests/` — tests of the library through its public interface.
