# ferrinx

The verified core of Ferrinx, a lightweight ONNX inference service, and its
command-line client.

- `src/` is the library, verified with Verus. Each module states its rules in
  `requires`/`ensures` contracts over mathematical models (`Seq`, `Map`,
  `Set`, integers), and the properties that span several operations are
  proved as lemmas (`lemma_*`):
  - `engine`: the LRU cache of model sessions, the waiting for a load in
    progress, and the eviction of the least recently used session;
  - `ratelimit`: per-key request limits over a sliding one-minute window;
  - `api`: error answers, public paths, permissions, rate-limit keys, the
    checks of forms and logins, and the startup report of a configuration;
  - `cli`: the client's configuration editor and the decisions of its
    commands;
  - `tensor`, `transform`, `pipeline`: tensor encoding and shape changes,
    Base64 payloads, and the integer decisions of the pipelines;
  - `config`, `types`, `dto`, `errors`, `constants`, `utils`, `model`,
    `redis`: configuration defaults and validation, shared value types,
    messages, hashing and key generation, model files, queue entries.
- `app/` is the `ferrinx` command-line program: arguments, the configuration
  file, HTTP requests, printing, and the floating-point transform pipelines.
- `tests/` exercises the library.
