# search

What a search server does with a query, apart from looking documents up: checking the query,
saying what it asks of the engine, choosing the page of results, and making of each document that
was found the hit that the user sees. Contracts are proved with Verus.

- `src/query.rs`, `src/filter.rs`, `src/pagination.rs`, `src/prepare.rs`: queries, and what they ask
  of the engine.
- `src/fields.rs`, `src/options.rs`, `src/matcher.rs`, `src/formatted.rs`, `src/positions.rs`: which
  fields a hit has, and how they are formatted.
- `src/document.rs`, `src/geo.rs`, `src/hits.rs`: from stored bytes to a hit.
- `src/facets.rs`, `src/perform.rs`: performing a search, and a search for the values of a facet.
- `src/json.rs`, `src/text.rs`, `src/float.rs`: JSON values, texts, and floating-point numbers by
  their bit patterns.
- `src/index.rs`, `src/selector.rs`: what is asked of an index. Nothing is assumed of its answers.

Two functions are taken on trust: `read_entries` in `src/document.rs`, which reads stored documents
with the crate `obkv`, and `capture_point` in `src/geo.rs`, which searches with the crate `regex`.

`app/` holds the queries as they are received, the results as they are sent, and the adapter between
an engine and the library.
