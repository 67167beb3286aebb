# rseip

EtherNet/IP (CIP) client library for Allen-Bradley controllers, with its
message encoding, reply decoding and client-side protocol rules verified by
Verus.

- `src/` — the verified library:
  - `buf` — byte buffers (`bytes`) and endian reads (`byteorder`) with the
    contracts the rest relies on;
  - `codec` — the `Encodable` / `Decodable` traits and their basic impls;
  - `eip` — encapsulation header and framing, commands, common packet
    format, session and discovery replies;
  - `cip` — EPATH, message router requests and replies, Unconnected Send,
    connected send, Forward Open / Close, identity and socket objects;
  - `ab_eip` — tag path parser, symbol types and instances, tag values,
    Read/Write Tag (fragmented) and Read Modify Write requests, tag
    listing, templates;
  - `client` — CIP connection state and options, device discovery, host
    addresses.
- `tests/` — tests of the library.
- `app/` — the tokio client: TCP sessions, explicit messaging with and
  without a CIP connection, the tag listing and template reading loops,
  and UDP discovery.
