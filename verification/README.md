# helper_backend

The backend of a desktop tool that collects content (WeChat exports,
Xiaohongshu notes, Bilibili), cleans and scores it, queues what needs a
person's review, and syncs the rest to Notion, either as database rows or
as a tree of category and week pages.

`src/` is the library, written and proved with Verus: every public function
states what it returns in its contract, and the properties that span
several functions are stated and proved as `law_*` proof functions.

- `pipeline/` — normalization (canonical URLs, cleaned text, fingerprints,
  deduplication keys), text analysis, the processing state machine and its
  retry schedule.
- `collectors/` — reading WeChat files, the Xiaohongshu feeds, pages and
  profile tabs: what is kept, how pages are walked, how items are built.
- `app_core/` — routing into the review queue, ids and payloads of stored
  records, dashboard tallies, dead-letter replay.
- `sync_notion/` — the Notion request bodies and their parsing, the page
  tree and its routing, the content shown on a page and its quality gate,
  the sync run's retry and dead-letter decisions, the smoke check.
- `ipc`, `config`, `budget_guard`, `ai_orchestrator` — request
  validation, settings, the AI budget breaker and model routing.
- `json`, `text`, `num` — the JSON model, strings and number formatting the
  rest is stated over.

`app/` is the application around it: the encrypted SQLite database, the
HTTP clients, the local text-extraction tools, the command layer and the
floating-point scores. It reads and writes; the decisions are the
library's.

`tests/` runs the library on concrete inputs.
