# llmparty

The decision logic of the llmparty control plane, verified with Verus: how
agent tool calls are tied to sessions, turns and DAG tasks; the contexts
agents receive; how turn events finish DAG runs and move tasks; the task
provenance graph and the statements that project it into the graph database;
the DAG summary; configuration; and the paging of raw pi transcripts.

Layout:

- `src/` – the verified library. Each module states its behaviour in
  `requires`/`ensures` over spec functions, and the laws that relate several
  functions as public proof functions (`lemma_*`). `graph_store` models what
  the projection's writes do to a graph (a `MERGE` on a primary key, a `SET`
  of properties, a relation merged between matched nodes); `graph_readback`
  models the seven provenance reads on such a graph and proves that reading
  back a projected snapshot gives its provenance.
- `tests/` – tests of the library on concrete values.
- `app/` – some of the I/O around the library: environment, HTTP dashboard,
  the SQLite reads the queries and the graph snapshot need, the lbug graph
  database, transcript files, the JSON shapes of the API, and the task
  writes of a turn event, a cancellation and a new DAG task. The command
  flows that dispatch to sessions and start planning turns are not wired
  there.
