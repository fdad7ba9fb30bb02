# modbus-mapper

Type-safe mapping of records to and from 16-bit Modbus registers, with the
mapping logic verified by Verus.

## Layout

- `src/` — the verified library.
  - `endian.rs`: word-order conversions of 32- and 64-bit integers, with their
    round-trip laws.
  - `layout.rs`: the register layout of a record (field types, offsets, word
    order, bit and byte packing), its well-formedness, what an encoded block
    holds, and `check_layout`, which finds the first overflow, overlap or gap.
  - `codec.rs`: `Layout::to_registers` / `Layout::from_registers`, field
    metadata, and the law that decoding an encoded block gives back the values.
  - `attrs.rs`: the mapping options of a record, their validation, and
    `derive_layout`, which builds the layout they describe.
  - `client.rs`: which request reads or writes a record's block, and when a
    register type refuses the operation.
  - `function_code.rs`, `error.rs`, `text.rs`, `lib.rs`: function codes,
    errors, text comparison, register types and the mapping traits.
- `app/` — the unverified edge: the async `tokio-modbus` client, `f32`/`f64`
  conversions, the error type with transport variants, and the derive's code
  generation over `syn`, `darling` and `quote`.
- `tests/` — tests of the library on concrete records.
