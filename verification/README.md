# reverse-proxy

A load-balancing reverse proxy with active health checks and configuration hot reload,
whose routing core is verified with Verus.

- `src/` is the library. The routing table is a plain value, and everything that happens to
  it (a request is routed, a request ends, a health check comes back, a new configuration
  is applied) is a function with a contract over its mathematical view.
  - `config` — configuration values, defaults and load errors
  - `table` — the backends that the proxy has had, and the rotation
  - `state` — backends, the routing state, connection guards
  - `balancer` — round-robin and least-connections
  - `health` — rounds of health checks and what their results mean
  - `watcher` — hot reload, and the merging of file events into one reload per save
  - `proxy` — routing of requests, the proxy's own replies, the status page
  - `uri` — the boundary to the `http` crate's URI type
  - `mock_backend` — a stand-in backend for demonstrations
  - `laws` — what holds across operations: fairness, failover, counts that never drift,
    reloads that leave unchanged backends alone, one reload per burst of file events
- `tests/` runs the library on concrete values.
- `app/` is the program around it: arguments, files, timers and the network. It keeps the
  table behind one lock, held for single operations only and never across an await. Picking
  a backend and counting a request lock it for writing; so does a health check, but only
  where it finds that a backend has changed.

Backends are handed out by handle: a handle names a slot of the table, and the backend's
liveness and load are read there, so a handle never shows a stale state. A slot is never
given out again and never taken back, so a handle stays good for as long as the table lives.

Removing a backend drops it from the rotation at once, even with requests in flight; those
requests still finish, and the removed backend's count follows them down to zero. A failed
request is answered with 502 and is not tried elsewhere.
