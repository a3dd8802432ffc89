# web_search

A web search tool for agents, in Verus. It searches DuckDuckGo (web and news) or Brave
and answers with a numbered plain-text report.

- `src/` is the library: arguments, requests, the course of a search, the reading of
  pages and JSON answers, and the reports, each with its contract. `src/laws.rs` states
  and proves what holds of searches as a whole.
- `app/` sends the requests over HTTP and offers the tool to an agent.
- `tests/` runs the library on concrete pages, answers and arguments.

What the library relies on without proof is declared in `src/patterns.rs` (the crate
`regex`), `src/encoding.rs` (the crate `urlencoding`) and `src/text.rs` (three string
methods of the standard library).
