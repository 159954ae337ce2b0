# chain_sync

The relay chain sync strategy of a blockchain node: which blocks to ask of which
peer, how to find the best block in common with a peer, when blocks go to the
import queue, and what peers are reported for.

The strategy does no input or output. Each event (a peer connects, sends blocks,
announces a block, ...) is a call of a function of `ChainSync`, which changes the
state and adds to a `Context` what the node is to do, in order. Where the node has
to find something out first, such as the hash that the blockchain has at some
number, it hands the answer back through another function; `Action` says which.
The node carries out an action completely before it goes on to the next one.

- `src/message.rs`, `src/context.rs`: the values that go in, and the actions that
  come out.
- `src/hash.rs`: what is asked of a block hash type.
- `src/peer.rs`, `src/table.rs`: a connected peer, and the table of all of them.
- `src/status.rs`: the reported status.
- `src/model.rs`: the strategy as mathematics. `SyncView` is its state; for each
  event there is what it makes of the state and what it asks for.
- `src/sync.rs`: `ChainSync`, each function proved to do what the model says.
- `src/laws.rs`: what holds of the model in every state and across events.
- `app/`: a driver that carries out the actions on a real node, and publishes the
  two flags that say whether the node is offline or catching up.

Peers are walked in the order in which a hash table holds them. Contracts speak of
some order that names each peer once, and hold whatever that order is.
