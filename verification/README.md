# rmqtt

An MQTT 3.1.1 client library whose packet format and session decisions are
verified with Verus.

- `src/codec.rs`: remaining-length encoding and decoding, length-prefixed
  strings, packet identifiers, splicing bytes into a buffer.
- `src/packet.rs`: `CtrlPacket`, its mathematical model, its constructors and
  its encoding to bytes.
- `src/parse.rs`: decoding bytes into a `CtrlPacket`.
- `src/roundtrip.rs`: the proof that decoding gives back what encoding wrote.
- `src/session.rs`: connection settings, the broker's answer to CONNECT,
  packet numbering, published messages, answers to received packets and
  keep-alive timing.
- `app/main.rs`: a client program that does the network I/O around the
  library.
