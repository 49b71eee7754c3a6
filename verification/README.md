# nokv_meta

Metadata core of agent workspaces: the durable record formats, the rules that
records and publications obey, the lowering of atomic plans to two ordered
stores, and the bounded queries over paths, workspaces and changes. The library
under `src/` is verified with Verus; every function states what it returns, and
the modules whose names end in `_laws` state what holds across functions.

## Layout

| Part | Modules |
|------|---------|
| Bytes, text, order, digests | `bytes`, `text`, `ordering`, `sorted_maps`, `digest` |
| Names and identifiers | `names`, `ids`, `positions`, `states`, `scalars` |
| Durable records | `records`, `record_laws`, `generic_index_*`, `publish_*` |
| Providers | `provider`, `provider_catalog`, `plan_semantics`, `scopes`, `fdb_*`, `holt_provider` |
| Namespace | `namespace`, `namespace_types`, `prefix_scan`, `store_records` |
| Queries | `query_*` |
| Read statistics | `read_stats` |

Code that talks to a database is split in two. The library decides: it hands
out an action (`CommitAction`, `ChangeAction`, the next limit of a `ScanRun`) and
takes back what came of it. The drivers under `app/` perform the actions with
FoundationDB or Holt, and add what Verus does not read: `Display` and `Error`,
thread-local state, files, and floating-point sums.

## What is trusted

Two outside functions are called through contracts that are believed, not
proved: `sha2::Sha256::digest`, whose result is named and otherwise left open, and
`String::from_utf8`, which succeeds exactly on valid UTF-8 and keeps the bytes.
