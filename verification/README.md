# mndp_rs

Discovery of MikroTik devices through the MikroTik Neighbor Discovery
Protocol (MNDP), with its decoding and collection logic verified by Verus.

- `src/` — the verified library: the record kinds (`tlv`), the decoded
  values and devices (`model`), the wire format (`wire`: `decode`,
  `decode_packet` and the laws that relate them), the filter that picks MNDP
  datagrams out of captured Ethernet frames (`frame`, over `pnet`), the
  configuration and the bookkeeping of a listening round (`listener`), time
  spans (`time`) and the command line (`cli`).
- `app/` — the `mndp` tool: sockets (`socket2`), raw capture (`pnet`
  datalink), the discovery stream (`tokio`), and a frame sniffer.
- `tests/` — tests of the library on concrete datagrams, frames and
  command lines.
