# ztna

The logic of a zero-trust network access tunnel, verified with Verus: an
Agent that tunnels host packets over QUIC, a relay server that matches
Agents to App Connectors and brokers peer-to-peer hole punching, and an App
Connector that forwards tunnelled traffic to a backend service.

- `src/` is the verified library. `p2p/` holds candidates, connectivity
  checks, hole punching, path resilience and signaling framing; `server/`
  the relay's registry, routing, signaling sessions, retry tokens, client
  authentication and metrics; `connector/` packet building and checksums,
  the TCP proxy, UDP flows and the Connector's signaling sessions; `agent.rs`
  the Agent's state machine; the other files are shared helpers (bytes,
  text, addresses, clock, randomness, a vector-backed map, sorting).
- `tests/` exercises the library on concrete values.
- `app/` is ordinary Rust around it: sockets, QUIC connections, event
  loops, configuration, the bincode wire form of messages and the Agent's
  C interface.
