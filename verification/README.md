# ava-platformvm

The platform chain's state machine, verified with Verus: its transactions and
blocks, how they are written and read, the state that blocks change, how blocks
are verified and accepted, the rewards of stakers, the read service, and the
gossip protocols between nodes.

- `src/` is the library. Every function in it is verified against its contract;
  the few functions that call other crates say what they rely on.
  - `codec`, `wire`, `ids`, `utxo`, `signer`, `stakeable`, `txs`, `genesis` and
    `block`: values and their bytes. `txs::unsigned` lists the kinds of
    transactions.
  - `state`: the stored state, layers of changes over it, and the changes of
    validators at each height, which can be undone.
  - `block::executor`, `block::builder`: verifying, accepting and building blocks.
  - `reward`: what a stake earns.
  - `network`, `txs::mempool`: gossiped transactions.
  - `service`, `jsonrpc`, `text`, `status`: answers about the chain.
  - `p2p`: messages between nodes and what is gossiped in them.
  - `collections`, `order`, `crypto`, `error`: what the others share.
- `tests/` runs the library on concrete values.
- `app/` is what surrounds it: the network loops, the executors' loop, the JSON
  forms and the HTTP service.

Times are Unix seconds; the block builder works in nanoseconds.
