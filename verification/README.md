# mqtt_protocol_core

A Sans-I/O MQTT protocol library. It does no I/O itself: it encodes and decodes
MQTT packets, assembles frames from bytes as they arrive, hands out packet
identifiers and keeps topic alias tables, and leaves sending, receiving and timers
to its user.

The library under `src/` is written in Verus. Each public function carries a
contract, and Verus proves that the code meets it and never panics on the inputs
the contract admits. Among the properties proved:

- the frame assembler returns exactly the frames of the byte stream, whatever the
  chunking, and refuses a remaining length with a fifth byte;
- every v3.1.1 packet parses back from the body it serialises to, with the same
  fields, and the serialised bytes are stated in terms of those fields;
- the value allocator keeps its vacant values as the maximal runs, hands out the
  smallest vacant value and takes released values back;
- the sending-side topic alias table keeps its alias-to-topic mapping, its
  topic-to-alias lookup and its free list in agreement, and recycles the least
  recently used alias when all are taken.

Layout:

- `src/mqtt/packet`: packet types, their fields and wire formats, topic alias tables;
- `src/mqtt/connection`: frame assembly, packet identifiers, roles, options;
- `src/mqtt/common`: payload buffers, cursor, value allocator, and the few calls
  into `std` and `indexmap` whose contracts are trusted;
- `tests/`: tests on concrete values;
- `app/`: JSON renderings of the library's values (with `serde`/`serde_json`).
