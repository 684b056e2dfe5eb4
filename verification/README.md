# loop_engine

The verified core of a loop engine: issues that agents drive to completion under human
gates.

The library never touches a database, git, a clock or an agent. Its tables are values:
an operation changes them, returns a result, and appends to an outbox what is to be done
outside. Where an action alternates decisions with outside work, the library is handed an
event and answers with the next thing to do.

- `src/table.rs`, `src/order.rs`, `src/text.rs`, `src/json.rs`, `src/clock.rs`: tables,
  sorting, text, JSON and time.
- `src/entities/`, `src/models.rs`, `src/error.rs`: rows, read models and errors.
- `src/loop_service/`: inbox cards, their subjects, memories, iterations, edges.
- `src/loop_engine/`: the human actions (`actions`, `exits`), the merge gate (`merge`),
  the parallel fan-in (`fan_in`, `finalize`), the transitions they share, and the laws
  (`laws`, `action_laws`, `merge_laws`, `finalize_laws`).
- `src/folder_group_service.rs`, `src/folder_groups.rs`, `src/handlers.rs`,
  `src/migration.rs`: folder groups.
- `app/`: the database rows, the host interface, the web handlers and the migration.

Contracts are stated over views: a row with its texts as character sequences, a table as
the sequence of its rows. JSON values stay `serde_json` values; what the library takes from
`serde_json` is stated in `src/json.rs`.
