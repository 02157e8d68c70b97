# hivemqtt

An MQTT 5 client library whose protocol logic is verified with Verus.

- `src/` is the verified library: the wire format of every MQTT 5 control
  packet (fixed header, Variable Byte Integers, properties, each packet's
  variable header and payload), the packet identifier allocator, the session
  state of the client (topic aliases, QoS 1 and QoS 2 exchanges in flight),
  the keep-alive clock and the decisions of the network loop. Each encoder
  and decoder is stated against a specification of the bytes, and the
  round-trip laws (what is read back of what was written) are proved.
- `app/` holds what Verus does not see: the asynchronous connection over a
  stream, the network loop that reads, writes and keeps time, the client
  handle that hands messages to it, and the error types with their messages.
- `tests/` runs the library on concrete packets and sessions.
