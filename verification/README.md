# rustdesk_server_pro

The management server of RustDesk Pro: licences, users, devices, audit records,
an in-memory cache and Prometheus metrics.

- `src/` is the verified library (Verus). It holds the rules of the server: the
  licence key layout and the device budget, role permissions and account checks,
  device and audit record handling (including the SQL text the server sends), the
  bounded expiring cache, the session tokens, the metric counters and their text
  export. Calls into outside crates (base64, chrono, uuid, bcrypt, jsonwebtoken,
  sodiumoxide, serde_json, tokio's clock) sit behind small trusted items whose
  contracts are stated in their doc comments.
- `app/` is the program around it: command line, logging, the SQLite pool, the HTTP
  API, the JSON form of requests and responses, and the latency histograms (floating
  point).
- `tests/` runs the library on concrete values.
