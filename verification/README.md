# dstate

Distributed state replication, verified with Verus.

Every node of a cluster owns a state and holds views of the states of the others. A mutation of
the owned state is projected into a view and synchronized to the peers by a configurable strategy:
pushed at once, announced by a change feed and pulled on query, or sent as a periodic snapshot.
The library decides what is sent and what is taken in; it performs no I/O.

## Layout

- `src/`: the verified library
  - `types`, `traits`, `node_map`: identities, versions, messages, errors, what users implement
  - `replica`: the parts of the protocol (views, mutations, change feed, versions, lifecycle,
    startup, diagnostics); `replica/shard_laws.rs` and `replica/diagnostics_laws.rs` state what
    holds of one replica
  - `engine`: the parts combined; `engine/model.rs` says what each operation does,
    `engine/laws.rs` what holds between two nodes
  - `codec`: the bytes of messages
  - `registry`: the state types of a node
  - `host`: routing, commands, introductions, faults on an in-process transport, subscriptions
  - `sim`: a deterministic cluster in ticks; `sim/transport_laws.rs`, `sim/cluster_laws.rs`,
    `sim/push_laws.rs` and `sim/convergence.rs` state what holds of it as a whole,
    `sim/test_convergence.rs` what holds of a fresh cluster of test states
  - `test_support`: states, a clock, a storage and configurations for tests
- `tests/`: tests of the library
- `app/`: clocks, storage, runtimes, actors and the types that carry derives of other crates

## What is proved

Generations order states. Under the policy that keeps stale views, no message makes a view older or
drops one; under the policy that drops a view of an unknown version and waits, whatever snapshot
arrives next takes its place, be it an older one. A snapshot delivered twice, or after a newer one,
changes nothing. A delta is applied exactly where it continues a view, and a gap is
answered by a request for a snapshot. A node that has left is not heard until it joins again. On a
clean network a pushed mutation reaches, within two ticks, every node that shares the state, listens
to its owner, is not ahead of it and understands what is under way from it. Once the cluster has
settled, each such node holds what every owner has pushed last, in whatever order the owners did. A
settled cluster stays settled.

What is trusted is the format of `bincode`, in `src/codec.rs`: each call is stated as the bytes that
it writes or reads.
