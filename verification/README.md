# nbp_rs

A small service that reads the "Tabela A" RSS feed of average exchange rates published by
Narodowy Bank Polski and answers with the selected rates as JSON, or as an HTML page when the
client asks for `text/html`. Upstream answers are cached in memory for a configurable time.

## Layout

- `src/` — the verified library (Verus):
  - `nbp_parser` — feed items to exchange-rate records: the RFC 2822 date (read with `chrono`),
    the rate table of the HTML description (cells read with `scraper`), the rate literals, and
    the errors; with the laws of the parse.
  - `float_syntax` — the literal syntax that `f64::from_str` accepts; rates are kept as such
    literals.
  - `decimal` — `u64` values as `u64::from_str` reads them (the cache time to live).
  - `text` — characters of strings, Unicode whitespace trimming, substring search.
  - `rate_cache` — the cache of the last upstream answer and its laws.
  - `service` — configuration, content negotiation and the status of each failure.
  - `launch` — command-line flags, default feed and the socket to listen on.
- `app/` — the program around it: reading the XML document with `quick_xml`/`serde`, the
  `axum` router, the `reqwest` upstream request, the page template, and socket handling.
- `tests/` — tests of the library.
