# agent_net

The decisions of a network agent, verified with Verus, and a program that carries them out.

- `src/legacy.rs`: legacy address texts and their modern spelling.
- `src/address.rs`: addresses as sequences of protocol components, and taking a peer id off.
- `src/identity.rs`: the node's key pair, read from a hexadecimal secret key.
- `src/psk.rs`: the key of a private network, read from base64.
- `src/behavior.rs`: the settings of the sub-protocols, and the events that they report.
- `src/startup.rs`: the steps of starting a swarm, as a state machine.
- `src/network.rs`: what the events of a swarm mean for the routing table.
- `src/node.rs`: what the node answers to its group, and how it bootstraps.
- `app/`: input and output around the library: libp2p's swarm and tdn's group network.

`app/` needs the crates `tdn` (0.11, feature `single`) and `subql_indexer_utils` besides those in
`Cargo.toml`.
