# Zorua

Zorua models binary data with endian-aware storage, safe byte views and LSB0 bitfields. The library
is written in Verus: what each function does is stated in its contract, and proved.

## Layout

- `bits`: reading, writing, clearing, testing and copying runs of bits in byte slices. A buffer is
  one long bit array: bit 0 is the least significant bit of byte 0, bit 8 that of byte 1.
- `codec`: `BitCodec<S>`, a value that is stored as an `S`, with the codecs of `bool` and the native
  integers; `SoundCodec<S>` holds the proofs that a codec gives back what was stored.
- `array_codec`, `packed`, `enum_codec`: codecs of arrays, of structs that are stored as their first
  bits, and of enums that are stored as their discriminants.
- `data_type`: integers that store their bytes in a given order, and integers of odd widths.
- `byte_repr`: values that any bytes of their size stand for, and those that can be seen in bytes
  where they are.
- `views`: checked views of repeated packed fields.
- `macros`: what `bitstruct!` and `#[derive(BitCodec)]` do with their input: the grammar of
  definitions, the storage that fields get, where packed fields lie, which accessors and codecs are
  made, the code for them, and what is refused.
- `laws`: how several calls go together.

`app/` turns token streams into the library's tokens and generated code into token streams. It also
holds the endian-aware integers that have `zerocopy`'s byte views, for the fields of generated
structs: a reference to such an integer is made from bytes there.

## Definitions

The packed fields of a field follow each other and have to fill its storage. Bits that are not used
are declared with `pad`:

```rust
bitstruct! {
    #[repr(C)]
    #[endian(little)]
    pub struct Header {
        pub id: u16,
        flags: u16 {
            pub kind: u4@0,
            pub active: bool@4,
            pad 11,
        },
    }
}
```

## What is not proved

`zerocopy` lays out the bytes of integers and byte arrays, and `syn` parses the parts of Rust's own
grammar that definitions are made of; `proc_macro2` is built without its `proc-macro` feature, so that
there is one lexer behind `syn`. The functions that call them state what they rely on, in
`byte_repr`, `data_type::endian` and `macros::syntax`; `array_codec` does so for
`core::array::from_fn`.
