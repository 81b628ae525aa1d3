# spaces

A small peer-to-peer chat. Clients join *spaces* (chat rooms named by UUIDs)
through a routing node; what a client sends to a space is signed with its
Ed25519 identity and handed by the node to every connection that joined the
space.

- `src/` is the verified library (Verus): the wire format (`codec`,
  `transport`), signed payloads (`identity`), the client-to-node protocol
  (`protocol`), the node's routing decisions (`node`), the client-side state of
  spaces and presence (`space`, `presense`), hash-chained blocks (`block`) and a
  few smaller stores (`board`, `registry`, `store`, `channel`).
- `app/` is the program around it: the routing node (lunatic processes and
  websockets) and, under `app/web`, the browser client (yew).
- `tests/` exercises the library, including byte-for-byte comparisons of the
  wire format with bincode.
