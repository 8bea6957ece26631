# dvf_node

The decision logic of an operator node of a distributed Ethereum validator,
proved with Verus.

- `src/net.rs`: IP and socket addresses; the wildcard listening address.
- `src/peers.rs`: the directory of discovered peers (key text to IP).
- `src/contract.rs`: validators, operators and the contract listener's commands.
- `src/keys.rs`: the calls into `base64` and `secp256k1`, with their contracts.
- `src/names.rs`, `src/bytes.rs`: decimal text, file names, byte comparison.
- `src/plan.rs`: what a start or a stop of a validator leads to, as spec functions and plan types.
- `src/node.rs`: the node and its command decisions.
- `src/laws.rs`: properties proved of those decisions.
- `app/lib.rs`: the tokio command loop, the files, and the services of the operator's other crates.
