# connector-supabase

A Henosis connector for a local self-hosted Supabase project, as a verified library.

Each complete graph slice is strictly accepted, planned against fresh PostgreSQL/PostgREST truth,
rendered into machine and Markdown review projections, and reconciled one exact operation per pass.
Outputs are published only after an observation proves convergence.

## Layout

- `src/` is the library. Every item of it is verified with Verus.
  - `authoring` derives a component from a native Supabase project; `context` holds the strict
    component context and its content checks.
  - `slice` decodes a complete slice; `journal` folds the operation journal; `target` observes the
    database, and says which statements carry an operation out; `inputs` gives migrations their
    upstream values.
  - `plan` builds immutable executable plans; `review` redacts them.
  - `reconciler` decides acceptance, recovery and retirement; `pass` is one reconcile pass as a state
    machine, from events to effects; `report` builds what core is told.
  - `text`, `order`, `hashing`, `json` and `model` are what these modules share. The outside
    functions that the library relies on are declared there and in `slice`, each with what is claimed
    of it.
  - The modules named `*_laws` state what holds of the library as a whole: what digests fix, that
    a pass applies at most one operation, that interrupted operations are recovered, that dependencies
    come first, and more.
- `tests/` runs the library on concrete values.
- `app/` is the service around it: PostgreSQL, S2, the state directory, and callbacks to core. With
  the argument `derive` it prints the component of a native repository instead.

## Service configuration

| Variable | Default | Purpose |
|---|---|---|
| `HENOSIS_CORE_URL` | `http://core:8080` | Core callback/recovery origin |
| `HENOSIS_CORE_TOKEN` | unset | Optional core bearer token |
| `HENOSIS_STATE_DIR` | `/var/lib/henosis-connector-supabase/state` | Checkpoints, private plans, and review projections |
| `S2_ACCESS_TOKEN`, `S2_ACCOUNT_ENDPOINT`, `S2_BASIN_ENDPOINT`, `S2_BASIN` | required | Existing basin coordinates and token |
| `HENOSIS_SUPABASE_JOURNAL_STREAM` | `connector-supabase-local-v1` | Target operation-journal stream |
| `HENOSIS_SUPABASE_HOST` | `supabase-db` | Target PostgreSQL host |
| `HENOSIS_SUPABASE_PORT` | `5432` | Target PostgreSQL port |
| `HENOSIS_SUPABASE_USER` | `postgres` | Target PostgreSQL role |
| `HENOSIS_SUPABASE_DATABASE` | `postgres` | Target PostgreSQL database |
| `HENOSIS_SUPABASE_PASSWORD_FILE` | `/run/secrets/supabase-postgres-password` | Trusted password secret |
| `HENOSIS_SUPABASE_API_URL` | `http://127.0.0.1:4484` | Credential-free public output origin |
| `HENOSIS_SUPABASE_DATABASE_URL_REF` | `docker-secret://supabase-connection-url` | Published reference to the database URL |
| `HENOSIS_SUPABASE_ANON_KEY_REF` | `docker-secret://supabase-anon-key` | Published reference to the anonymous key |
