# prost-uuid-bytes

`ProstUuid` is a UUID carried as the protobuf message

```protobuf
package uuid;
message Uuid { bytes value = 1; }
```

On the wire it is the key `0x0a`, the length `0x10` and the 16 raw bytes;
as text it is the lowercase hyphenated form of RFC 9562.

The library in `src/` carries its contracts and their proofs:

- `id.rs` — the value itself, its conversions and the RFC 9562 check
  (`validate_rfc9562`, `is_rfc9562`, `from_slice`, `from_slice_strict`);
- `text.rs` — the hyphenated text it prints and the text forms it parses;
- `wire.rs` — varints, field keys and wire types as prost writes and reads them;
- `message.rs` — `encode_raw`, `encoded_len`, `merge_field`, `decode`, and
  the laws that tie them together (every value round-trips, the last field
  wins, wrong lengths and truncated input are refused);
- `error.rs` — the validation errors and their messages.

`app/` gives a copy of the type the faces that need outside traits:
`prost::Message`, `prost::Name`, serde, `Display` and the derive_more derives.
