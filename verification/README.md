# chudo

A small blockchain and messenger, written in Verus. The functions of the
library in `src/` carry contracts that Verus proves, with one exception: the
small wrappers marked `#[verifier::external_body]` that call the outside
crates (SHA3-256, Ed25519, the operating system's randomness, X25519, HKDF,
hexadecimal, MD5, UUID). Their contracts are believed, not proved; each one's
doc comment says what it claims of the crate it calls.

- `block`, `transaction`, `encoding`: blocks and transactions and the byte
  layout their hashes are computed over.
- `crypto`: SHA3-256, kHeavyHash, Ed25519 keys and signatures.
- `keymap`, `state`, `mempool`, `dag`: balances and stored blocks, mining,
  pending transactions, DAG tips.
- `p2p`: the peer messages and how a node answers them.
- `hexcodec`: hexadecimal text for bytes.
- `node`: the request handlers of the chain and messenger services.
- `messenger`: X25519 session keys, messages, rewards, storage.
- `grpc_client`: the payloads of the service check client.

`app/` holds the node program: sockets, threads, the async runtime, and
serializable copies of the library's types.
