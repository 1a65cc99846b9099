# management

The management layer of a peer-to-peer device network. A node keeps track of the
peers around it, of aliases and of the senders it listens to, exchanges control
messages with other nodes, has content kept in a distributed table, and upgrades
itself from peers that run a newer program.

The library is written in Verus and does no input or output. A node
(`Management`) is handed an input, and answers with a `Turn`: the actions that
are to be done, in order, and either a question that has to be answered before
it goes on, or the wish for the next input.

- `src/management.rs`: the node.
- `src/model.rs`: what a node knows and how each input changes it; the contracts
  of the node speak of these functions.
- `src/laws.rs`: what holds of every node, and of two nodes that talk to each
  other.
- `src/history.rs`: what holds over any sequence of calls.
- `src/turn.rs`: inputs, actions, questions.
- `src/protocol.rs`, `src/codec.rs`, `src/wire.rs`: the messages, their Protocol
  Buffers encoding, and the calls into `prost` that it rests on; the proofs that
  decoding undoes encoding are in `src/codec_laws.rs` and `src/wire_laws.rs`.
- `src/aliases.rs`, `src/text.rs`, `src/display.rs`, `src/options.rs`: the alias
  table, lists of strings, the bytes for the display, the command line.
- `app/`: the loop that waits for inputs and does what the node asks for, over
  any network layer, distributed table and upgrade server.
