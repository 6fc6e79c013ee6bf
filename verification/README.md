# ramag_dbclient

The verified core of a desktop database client's schema and result tooling. Everything
under `src/` is checked by Verus, and nearly every function there states what it does in a
contract; the window, the database, the clock and the file system stay outside and hand
their answers to the library as plain values.

## Layout

- `src/text.rs`: character-level helpers (trimming, decimal text, UTF-8 lengths, joining).
- `src/domain.rs`: columns, indexes, foreign keys, table metadata and their ghost models.
- `src/sql_text.rs`: quoted identifiers and raw SQL fragments checked for statement breaks.
- `src/metadata.rs`: comparisons of column, index and foreign-key definitions.
- `src/migration.rs`: the migration script generator, its ordered stages and its laws.
- `src/schema_diff.rs`: the three-section structural diff of two tables and its text form.
- `src/schema_diff_dialog.rs`: the comparison dialog's state: loads, the checks before a
  script is saved or run, the confirmed run, notices, and what the dialog shows.
- `src/migration_review.rs`: stage review, confirmation text, copied script, approval history.
- `src/approval.rs`: approval records, their limits, merging and ordering, SHA-256 fingerprints.
- `src/designer.rs`, `src/designer_view.rs`: the table designer's field drafts, generated SQL,
  field diff, and what the designer shows in each state.
- `src/result_panel.rs`: the result panel's state: results, memory accounting, paging,
  sorting, the selection (kept ascending, each row once), staged cell edits (kept ordered by
  row and column, grouped one UPDATE per row), plans, warnings and the view-mode toolbar.
- `src/result_ops.rs`, `src/result_export.rs`: the row identity and the WHERE clause that
  locates one row, the UPDATE and DELETE of one row, values typed into a cell editor, batch
  progress, write notices, and the export of selected rows in ascending row order.
- `src/schema_diagram.rs`: the schema diagram's loads, search, cards and relation list.
- `src/table_properties.rs`: the read-only definition dialog.
- `app/`: stored approval history as JSON, floating-point layout rules, and the loop that
  drives the comparison dialog against a host that owns the window and the database.
- `tests/`: tests of the library through its public interface.
