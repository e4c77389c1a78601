# mrt_ingester

Decoders for MRT (RFC 6396) routing-table dump records, TABLE_DUMP (type 12)
and TABLE_DUMP_V2 (type 13, with the RFC 8050 ADD-PATH subtypes), verified
with Verus.

- `src/bytes.rs`: big-endian integers and byte runs read from the front of a
  byte slice (through `byteorder`), and the mathematical decoders they meet.
- `src/address.rs`: address families, IP addresses, prefix sizes.
- `src/records/tabledump.rs`: the records, their owned decoders, the
  zero-copy RIB view with its lazy entry iterator, and the proof that the
  zero-copy and owned readings agree.
- `app/`: glue to `std::io` (reading a record body from any `Read`, std
  error and address types, a std `Iterator` over zero-copy entries).
