# rustus

A server for resumable uploads with the TUS protocol. What the server decides about a request is a
library that Verus verifies. Settings, storages, listeners and the network are the program around
it.

- `src/` holds the library. Each handler of the protocol is a function from what it has reached and
  what has just happened to what it has reached next, what happens beside, and what it asks for
  (`protocol/exchange.rs`). Its contract says which turn it takes, in every state and on every
  event.
- `src/protocol/storing.rs` and `src/laws.rs` state what the handlers do together: an upload that is
  sent in pieces has the bytes of all of them in their order, a final upload has the bytes of its
  parts, what one reply tells the next request may send, and a refused request changes nothing.
- `src/paths.rs` states which path and method meet which page or handler of the application.
- `src/fields.rs`, `src/codec.rs` and `src/utils/hashes.rs` hold what is believed of other crates:
  header maps, base64, random ids, wildcard patterns, media types and digests.
- `app/` runs the handlers over HTTP: it keeps records in memory and bytes on a disk, counts, logs,
  and listens.
- `tests/` runs the library with storages in memory.

## Limits

Offsets and lengths are machine words. A write that would bring an offset beyond the largest of
them, and a final upload that would be longer, are outside the contracts; the program stops on them.
