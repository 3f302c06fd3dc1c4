# recentip

Service discovery, remote calls and event subscriptions of SOME/IP, with the protocol logic
verified by Verus.

- `src/` is the library. It opens no sockets: `runtime::event_loop::EventLoop::react` takes an
  event (a datagram, a command of a handle, a deadline) and returns what is to be done. Every
  function states in its contract what it returns and how the state changes.
  - `wire`, `discovery`: the bytes on the wire, and that they read back.
  - `config`, `builder`, `ids`, `net`, `error`, `message`: settings, identifiers, addresses and
    what passes between the runtime and its handles.
  - `runtime`: the state and what every event does to it. `runtime::laws`,
    `runtime::subscription_laws`, `runtime::acknowledgement_laws`, `runtime::exchange_laws` and
    `runtime::shutdown_laws` hold what is true of several of these steps together, up to two
    hosts that exchange messages.
  - `handles`: what applications hold: searches, services that were found, offers, events and
    subscriptions.
  - `buffer`, `nonempty`: the calls into the `bytes` and `vec1` crates. Their contracts are
    taken on trust.
- `tests/` runs the library on concrete values.
- `app/` is the runtime on tokio's sockets, or turmoil's for simulated networks.
