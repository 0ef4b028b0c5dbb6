# zju_booking

A seat-booking server for the ZJU library reservation service, with its core
verified in Verus.

- `src/` — the verified library:
  - `models` — the service's data (seats, segments, tasks, …);
  - `text` — string search, splitting and ordering with their specifications;
  - `codec` — JSON string quoting, base64 and AES-128-CBC, each behind a
    trusted wrapper;
  - `rsa` — the CAS password encryption over `num-bigint`;
  - `json` — compact JSON objects;
  - `client` — the booking session, its headers, request bodies and the
    decisions on the service's replies;
  - `login` — the CAS login as a state machine (stage + event → stage + action);
  - `worker` — the background booking worker as a state machine and its seat choice;
  - `registry` — web sessions, pooled clients and running tasks over `dashmap`;
  - `error` — the web API's errors and their replies.
- `app/` — the server: HTTP with `reqwest`, the web API with `axum`, storage
  with `sqlx`, and the loops that run the login and the workers.
- `tests/` — tests of the library with the real outside crates.
