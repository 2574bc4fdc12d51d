# tx-pigeon

Sends a transaction to every node that offers the libre relay service, fetches the transactions
that such nodes hold, relays them, and passes transactions around on a gossip topic.

`src/` is the library. It holds every decision and is verified with Verus:

- `tx`, `hexcode`, `txid_set`: transactions, their texts and ids
- `wire`: the messages of the peer-to-peer protocol and their frames
- `address`, `onion`, `tor`: where peers are, and which of them may be spoken to
- `session`, `deliver`, `fetch_peer`, `crawl`: conversations with one peer, as states that say what
  to do next and move on with what came of it
- `discover`, `blast`, `gather`, `relay`: what is done with all peers
- `mempool`: recent transactions as block explorers list them
- `topic`, `node`: the gossip topic and the nodes on it
- `cli`, `ui`, `text`, `shuffle`: the command line, the screen, and helpers

`app/` is the program around it: sockets, Tor, the gossip network, HTTP, the terminal. It performs
the actions that the library asks for and reports what came of them.

`tests/` runs the library on concrete values.
