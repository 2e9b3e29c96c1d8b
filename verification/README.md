# catalog

The rules of a small brand and category catalog, written in Verus and proved
against their contracts:

- `src/text.rs` — Unicode white space, trimming, character counts.
- `src/number.rs` — reading an `i64` from text, with std's error kinds.
- `src/domain/` — the brand and category forms and their validation
  (`rules.rs`), the avatar helpers (`brand/dto/filters.rs`), the category
  rows and the category tree (`category/dto2.rs`, with the check that the
  tree can be built).
- `src/web/` — what each page answers, given the form and what the database
  said.

`app/` holds the axum routes, the sqlx queries, the askama templates and the
serde forms; it converts between those types and the library's and leaves
every decision to the library. `tests/` exercises the library on concrete
values.
