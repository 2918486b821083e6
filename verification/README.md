# gulfi

Gulfi keeps documents (CSV and JSON files described in `meta.json`) in a
SQLite database and searches them by full text, by embedding distance, or
by reciprocal rank fusion of both. It has a command line to load and sync
documents and run migrations, and an HTTP server for searches, history,
favourites and login.

## Layout

- `src/` is the library, written in Verus: every function states what it
  does in `requires`/`ensures`, and Verus proves it.
  - `query`: the search language (`Query::parse`) and its constraints.
  - `search`: strategies, checks of a search against its document, and the
    SQL text and bound values of each strategy.
  - `ingest`: the SQL that creates and fills a document's tables, and the
    rows a CSV or JSON file inserts.
  - `migrations`: cutting scripts into statements, migration files, which
    are pending, the plan of a run and the content hash.
  - `embeddings`, `progress`: requests to the embedding provider, the retry
    decisions and the progress board.
  - `server`, `responses`, `favorites`, `ui`, `auth`: the server's values,
    answers, favourites, dates and passwords.
  - `cli`, `commands`: error messages, tips and exit codes, answers to the
    prompts, the configuration template, the connection pool's counts.
  - `text`, `common`, `datasources`: text operations, normalisation,
    documents and header checks.
- Calls into outside crates (ammonia, chrono, serde_json, csv, blake2,
  argon2, rand) go through small trusted wrappers whose contracts are
  stated next to them.
- `app/` is the program around the library: argument handling, files, the
  database, HTTP and the embedding provider.
- `tests/` runs the library on concrete values.
