# table_range

Early partition pruning by data ranges, as a verified library and the PostgreSQL extension around
it.

A `table_range` index stores, in the metapage of each leaf partition's index, a summary of every
indexed column's actual data: the minimum and maximum, or a covering extent for range types and
PostGIS geometry, and whether some or all values are null. When a query is planned, a partition
whose summary proves that no row can match is dropped, also where the column is not the partition
key. A summary only has to be over-inclusive: inserts widen it in place, deletes leave it alone.

```sql
CREATE INDEX events_tr ON events USING table_range (val, created_at);
EXPLAIN (COSTS OFF) SELECT * FROM events WHERE val >= 250;
```

## Layout

| File | Content |
|------|---------|
| `src/backend.rs` | the questions that decisions ask of the server, and the answers |
| `src/index_storage.rs` | the stored form of a summary and its place in the metapage |
| `src/summary_build.rs` | building a leaf's summary from scans |
| `src/index_am.rs` | widening a summary for an inserted row |
| `src/prune_hook.rs` | which clauses prove, from a summary, that nothing matches |
| `src/decision.rs` | the decision on a relation, from its clauses to the answer |
| `src/plan_state.rs` | what a planner invocation remembers, and the hooks' decisions |
| `src/summary_cache.rs` | the per-process cache of summaries and its coherence |
| `src/soundness.rs` | laws: pruning never loses a row |
| `src/maintenance.rs` | laws: summaries keep covering their partition |
| `src/scenarios.rs` | end-to-end scripts for a live server |
| `src/text.rs` | quoting, searching and writing numbers |
| `app/` | the extension itself: hooks, access method, page I/O, statements |

The library never calls the server. A function that needs to know something returns a question; the
extension finds the answer out, notes it and calls again. Values are datum words and types are
object identifiers, which the library only carries around.

## What is proved

Every function of `src/` has a contract. On top of them stand the laws. The central ones, over a
server that is given by its answers:

- a partition that is pruned holds no matching row, and a query gives the same rows with pruning on
  and off (`soundness`);
- every decision ends, and is the one that the server's answers determine (`soundness`, `decision`);
- a summary covers the rows that it was built from, those that were inserted since, and what deletes
  left of them (`maintenance`); of a column that cannot take a value in only the null flags are
  kept, and a summary that no longer fits its page leaves the page empty, so that a stored summary
  is never narrower than the data;
- a stored summary reads back as it was written, and one that was cut short reads as nothing
  (`index_storage`);
- a summary that a plan gets from the cache covers every row that the process sees, whatever
  transactions and savepoints were rolled back, here or elsewhere, once the invalidations on the way
  are delivered (`summary_cache`); a new plan therefore loses none of these rows (`maintenance`).

They ask of the server what PostgreSQL asks of a btree operator family: that its comparison
procedures order the values of all its types together, and that its operators go by that order. Of
extents they ask that merging gives one that covers what was merged. Clauses have to be well typed:
a column appears in them with its own type and collation.

A build takes the scan's minimum and maximum as the server writes them. Elsewhere nothing is asked
of the texts that values are written as. A constant's text prunes only where the
value that the column's type reads from it equals the constant; an inserted value's text becomes a
bound only where it reads back as the value. Texts are written and read under fixed settings
(`DateStyle`, `IntervalStyle`, `extra_float_digits`, `lc_monetary`, `array_nulls`,
`standard_conforming_strings`), whatever those of the session are.

A plan that is kept for later depends on the indexes that it was pruned by, and is made anew when
one of them is invalidated, or when the session's `TimeZone` changes: by it, dates compare with
points in time.

## Limits

- `NOT`, `NOT IN` and expressions over columns are kept, and so are comparisons under a collation
  that is not the column's, comparisons with a constant that the column's type cannot hold, and null
  tests of whole rows.
- A summary has to fit one page. Where a value would make it longer than that, the partition has no
  summary until `REINDEX`.
- A column with a value that cannot be taken in is pruned by null tests only until `REINDEX`. A type
  that gets its first btree operator class after the index was built needs a `REINDEX` too.
- Deletes and rolled-back inserts leave a summary wider than it has to be, also after `VACUUM`;
  `REINDEX` builds it anew.
- PostGIS functions are looked up under the session's `search_path`; where they are not found,
  nothing is pruned, and an insert leaves the partition without a summary.
- An insert fails where the server can neither widen a summary nor take it off its page, as it does
  where any page cannot be written.
