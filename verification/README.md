# aruaru-web

The logic of a browser UI that manages deployment targets ("sites"): the
site list and the active site, the site form rules (required fields, port
1–65535, path normalisation), the SQL history, the markup of results and
summaries, the CSV export and the reading of GraphQL replies.

- `src/` — the library, verified with Verus: `text` (trimming, decimal
  text, digit parsing), `json` (the JSON values the logic reads), `dom`
  (HTML escaping), `profiles`, `history`, `render`, `graphql`, `actions`
  (what the page's handlers decide) and `shell` (the page markup).
- `app/` — the WebAssembly side: event wiring, DOM updates, `localStorage`,
  `fetch()`, and the serde forms of the stored values.
- `tests/` — tests of the library on concrete values.
