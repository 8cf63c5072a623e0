# bitpeer

The protocol of a Bitcoin peer that relays unconfirmed transactions, written in Verus: what is
answered to each message, what is kept for later, how a connection begins, and how blocks and
the transactions of a peer's mempool are asked for.

- `src/` is the verified library. It opens no socket. Its functions take what came in and say
  what to send, what to wait for and what to keep.
  - `primitives`: hashes, transactions and blocks
  - `mempool`: the unconfirmed transactions, by txid and by wtxid
  - `networking::message`: the messages and their commands
  - `networking::reader`: what is done with each message that comes in
  - `networking::inbox`: what came in and waits to be asked for
  - `networking::handshake`: how two peers introduce themselves
  - `networking::request`: what a peer is asked for, and what becomes of its answers
  - `networking::peer`: a peer that has introduced itself
- `app/` runs the library over TCP, directly or through a SOCKS5 proxy.
- `tests/` runs the library against the `bitcoin` crate.
