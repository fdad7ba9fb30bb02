//! Encoding field values into a layout's register block, and decoding them back.

use vstd::prelude::*;

use crate::endian::{
    word64,
    i32_from_registers, i32_to_registers, i64_from_registers, i64_to_registers,
    lemma_i32_roundtrip, lemma_i64_roundtrip, lemma_u32_roundtrip, lemma_u64_roundtrip,
    u32_from_registers, u32_to_registers, u64_from_registers, u64_to_registers, Endianness,
};
use crate::error::ModbusMapperError;
use vstd::arithmetic::power2::pow2;
use vstd::bits::lemma_u16_shr_is_div;
use crate::layout::{
    bool_of, byte_of, byte_value, compatible, conforms, contribution, covers, decode_field,
    decoded, encoded, has_type, layout_wf, packing_fits, register_word, shares_register, span,
    type_register_count, value_from_words, value_words, FieldSpec, FieldType, FieldValue, Layout,
    Packing,
};

verus! {

proof fn lemma_or_zero(x: u16)
    ensures
        x | 0u16 == x,
        0u16 | x == x,
{
    assert(x | 0u16 == x && 0u16 | x == x) by (bit_vector);
}

proof fn lemma_zero_word(b: u8)
    ensures
        (0u16 >> b) & 1u16 == 0,
        0u16 >> 8u16 == 0,
        0u16 & 0xffu16 == 0,
{
    assert((0u16 >> b) & 1u16 == 0 && 0u16 >> 8u16 == 0 && 0u16 & 0xffu16 == 0) by (bit_vector);
}

proof fn lemma_or_other_bit(x: u16, b: u8, c: u8)
    requires
        b < 16,
        c < 16,
        b != c,
    ensures
        ((x | (1u16 << c)) >> b) & 1u16 == (x >> b) & 1u16,
{
    assert(((x | (1u16 << c)) >> b) & 1u16 == (x >> b) & 1u16) by (bit_vector)
        requires
            b < 16,
            c < 16,
            b != c,
    ;
}

proof fn lemma_or_own_bit(x: u16, b: u8)
    requires
        b < 16,
        (x >> b) & 1u16 == 0,
    ensures
        ((x | (1u16 << b)) >> b) & 1u16 == 1,
{
    assert(((x | (1u16 << b)) >> b) & 1u16 == 1) by (bit_vector)
        requires
            b < 16,
    ;
}

proof fn lemma_or_bytes(x: u16, y: u16)
    requires
        y < 256,
    ensures
        (x | y) >> 8u16 == x >> 8u16,
        (x | (y << 8u16)) & 0xffu16 == x & 0xffu16,
        x >> 8u16 == 0 ==> (x | (y << 8u16)) >> 8u16 == y,
        x & 0xffu16 == 0 ==> (x | y) & 0xffu16 == y,
        (x & 0xffu16 == y) ==> x as u8 == y as u8,
{
    assert((x | y) >> 8u16 == x >> 8u16 && (x | (y << 8u16)) & 0xffu16 == x & 0xffu16 && (x
        >> 8u16 == 0 ==> (x | (y << 8u16)) >> 8u16 == y) && (x & 0xffu16 == 0 ==> (x | y) & 0xffu16
        == y) && ((x & 0xffu16 == y) ==> x as u8 == y as u8)) by (bit_vector)
        requires
            y < 256,
    ;
}

proof fn lemma_bit_beside_byte(x: u16, y: u16, b: u8)
    requires
        y < 256,
        b < 16,
    ensures
        b < 8 ==> ((x | (y << 8u16)) >> b) & 1u16 == (x >> b) & 1u16,
        b < 8 ==> (x | (1u16 << b)) >> 8u16 == x >> 8u16,
        b >= 8 ==> ((x | y) >> b) & 1u16 == (x >> b) & 1u16,
        b >= 8 ==> (x | (1u16 << b)) & 0xffu16 == x & 0xffu16,
{
    assert((b < 8 ==> ((x | (y << 8u16)) >> b) & 1u16 == (x >> b) & 1u16) && (b < 8 ==> (x | (1u16
        << b)) >> 8u16 == x >> 8u16) && (b >= 8 ==> ((x | y) >> b) & 1u16 == (x >> b) & 1u16) && (b
        >= 8 ==> (x | (1u16 << b)) & 0xffu16 == x & 0xffu16)) by (bit_vector)
        requires
            y < 256,
            b < 16,
    ;
}

/// An unpacked value occupies as many registers as its type takes.
proof fn lemma_value_words_len(v: FieldValue, ty: FieldType, endian: Endianness)
    requires
        has_type(v, ty),
    ensures
        value_words(v, endian).len() == type_register_count(ty),
{
}

/// Reading the registers written for an unpacked value gives the value.
proof fn lemma_value_words_roundtrip(v: FieldValue, ty: FieldType, endian: Endianness)
    requires
        has_type(v, ty),
    ensures
        value_from_words(ty, endian, value_words(v, endian)) == v,
{
    match v {
        FieldValue::Bool(b) => {},
        FieldValue::U8(x) => {
            assert((x as u16) as u8 == x) by (bit_vector);
        },
        FieldValue::I8(x) => {
            assert(((x as u8) as u16) as i8 == x) by (bit_vector);
        },
        FieldValue::U16(x) => {},
        FieldValue::I16(x) => {
            assert((x as u16) as i16 == x) by (bit_vector);
        },
        FieldValue::U32(x) => {
            lemma_u32_roundtrip(x, endian);
        },
        FieldValue::I32(x) => {
            lemma_i32_roundtrip(x, endian);
        },
        FieldValue::U64(x) => {
            lemma_u64_roundtrip(x, endian);
        },
        FieldValue::I64(x) => {
            lemma_i64_roundtrip(x, endian);
        },
        FieldValue::F32(x) => {
            lemma_u32_roundtrip(x, endian);
        },
        FieldValue::F64(x) => {
            lemma_u64_roundtrip(x, endian);
        },
    }
}

/// A register held by an unpacked field holds nothing but that field's word.
proof fn lemma_whole_field_word(
    fields: Seq<FieldSpec>,
    values: Seq<FieldValue>,
    total: nat,
    i: int,
    r: int,
    k: nat,
)
    requires
        layout_wf(fields, total),
        0 <= i < fields.len(),
        fields[i].packing is Register,
        covers(fields[i], r),
        k <= fields.len(),
        values.len() == fields.len(),
    ensures
        register_word(fields, values, r, k) == if i < k {
            contribution(fields[i], values[i], r)
        } else {
            0
        },
    decreases k,
{
    if k > 0 {
        lemma_whole_field_word(fields, values, total, i, r, (k - 1) as nat);
        assert(register_word(fields, values, r, k) == register_word(fields, values, r, (k - 1) as nat)
            | contribution(fields[k - 1], values[k - 1], r));
        let j = k - 1;
        let prev = register_word(fields, values, r, (k - 1) as nat);
        lemma_or_zero(prev);
        lemma_or_zero(contribution(fields[j], values[j], r));
        if j != i {
            assert(compatible(fields[i], fields[j]));
        }
    }
}

/// Bit `b` of a register holds the `bool` field packed there, and nothing else.
proof fn lemma_bit_field_word(
    fields: Seq<FieldSpec>,
    values: Seq<FieldValue>,
    total: nat,
    i: int,
    b: u8,
    k: nat,
)
    requires
        layout_wf(fields, total),
        0 <= i < fields.len(),
        fields[i].packing == Packing::Bit(b),
        k <= fields.len(),
        values.len() == fields.len(),
    ensures
        (register_word(fields, values, fields[i].address as int, k) >> b) & 1u16 == if i < k
            && bool_of(values[i]) {
            1u16
        } else {
            0u16
        },
    decreases k,
{
    let a = fields[i].address as int;
    assert(packing_fits(fields[i]));
    lemma_zero_word(b);
    if k > 0 {
        lemma_bit_field_word(fields, values, total, i, b, (k - 1) as nat);
        let j = k - 1;
        let prev = register_word(fields, values, a, (k - 1) as nat);
        let c = contribution(fields[j], values[j], a);
        assert(register_word(fields, values, a, k) == prev | c);
        lemma_or_zero(prev);
        if j != i {
            assert(compatible(fields[i], fields[j]));
            assert(packing_fits(fields[j]));
            if covers(fields[j], a) {
                assert(shares_register(fields[i], fields[j]));
                lemma_bit_beside_byte(prev, byte_of(values[j]) as u16, b);
                if let Packing::Bit(bj) = fields[j].packing {
                    if bool_of(values[j]) {
                        lemma_or_other_bit(prev, b, bj);
                    }
                }
            } else {
                assert(c == 0);
            }
        } else {
            assert(covers(fields[i], a));
            if bool_of(values[i]) {
                lemma_or_own_bit(prev, b);
            }
        }
    }
}

/// The high byte of a register holds the byte field packed there, and nothing else.
proof fn lemma_high_byte_word(
    fields: Seq<FieldSpec>,
    values: Seq<FieldValue>,
    total: nat,
    i: int,
    k: nat,
)
    requires
        layout_wf(fields, total),
        0 <= i < fields.len(),
        fields[i].packing is HighByte,
        k <= fields.len(),
        values.len() == fields.len(),
    ensures
        register_word(fields, values, fields[i].address as int, k) >> 8u16 == if i < k {
            byte_of(values[i]) as u16
        } else {
            0u16
        },
    decreases k,
{
    let a = fields[i].address as int;
    lemma_zero_word(0);
    if k > 0 {
        lemma_high_byte_word(fields, values, total, i, (k - 1) as nat);
        let j = k - 1;
        let prev = register_word(fields, values, a, (k - 1) as nat);
        let c = contribution(fields[j], values[j], a);
        assert(register_word(fields, values, a, k) == prev | c);
        lemma_or_zero(prev);
        lemma_or_bytes(prev, byte_of(values[j]) as u16);
        if j != i {
            assert(compatible(fields[i], fields[j]));
            if covers(fields[j], a) {
                assert(shares_register(fields[i], fields[j]));
                assert(packing_fits(fields[j]));
                if let Packing::Bit(bj) = fields[j].packing {
                    lemma_bit_beside_byte(prev, 0, bj);
                }
            } else {
                assert(c == 0);
            }
        } else {
            assert(covers(fields[i], a));
        }
    }
}

/// The low byte of a register holds the byte field packed there, and nothing else.
proof fn lemma_low_byte_word(
    fields: Seq<FieldSpec>,
    values: Seq<FieldValue>,
    total: nat,
    i: int,
    k: nat,
)
    requires
        layout_wf(fields, total),
        0 <= i < fields.len(),
        fields[i].packing is LowByte,
        k <= fields.len(),
        values.len() == fields.len(),
    ensures
        register_word(fields, values, fields[i].address as int, k) & 0xffu16 == if i < k {
            byte_of(values[i]) as u16
        } else {
            0u16
        },
    decreases k,
{
    let a = fields[i].address as int;
    lemma_zero_word(0);
    if k > 0 {
        lemma_low_byte_word(fields, values, total, i, (k - 1) as nat);
        let j = k - 1;
        let prev = register_word(fields, values, a, (k - 1) as nat);
        let c = contribution(fields[j], values[j], a);
        assert(register_word(fields, values, a, k) == prev | c);
        lemma_or_zero(prev);
        lemma_or_bytes(prev, byte_of(values[j]) as u16);
        if j != i {
            assert(compatible(fields[i], fields[j]));
            if covers(fields[j], a) {
                assert(shares_register(fields[i], fields[j]));
                assert(packing_fits(fields[j]));
                if let Packing::Bit(bj) = fields[j].packing {
                    lemma_bit_beside_byte(prev, 0, bj);
                }
            } else {
                assert(c == 0);
            }
        } else {
            assert(covers(fields[i], a));
        }
    }
}

/// Decoding a field from the encoded block gives back the field's value.
proof fn lemma_field_roundtrip(
    fields: Seq<FieldSpec>,
    values: Seq<FieldValue>,
    total: nat,
    i: int,
)
    requires
        layout_wf(fields, total),
        conforms(fields, values),
        0 <= i < fields.len(),
    ensures
        decode_field(fields[i], encoded(fields, values, total)) == values[i],
{
    let f = fields[i];
    let v = values[i];
    let regs = encoded(fields, values, total);
    let n = fields.len();
    let a = f.address as int;
    assert(packing_fits(f) && f.address + span(f) <= total);
    assert(has_type(v, f.ty));
    match f.packing {
        Packing::Register => {
            let c = type_register_count(f.ty);
            lemma_value_words_len(v, f.ty, f.endian);
            let words = regs.subrange(a, a + c);
            assert forall|j: int| 0 <= j < c implies words[j] == value_words(v, f.endian)[j] by {
                lemma_whole_field_word(fields, values, total, i, a + j, n);
            }
            assert(words =~= value_words(v, f.endian));
            lemma_value_words_roundtrip(v, f.ty, f.endian);
        },
        Packing::Bit(b) => {
            lemma_bit_field_word(fields, values, total, i, b, n);
        },
        Packing::HighByte => {
            lemma_high_byte_word(fields, values, total, i, n);
            match v {
                FieldValue::I8(x) => {
                    assert((x as u8) as i8 == x) by (bit_vector);
                },
                _ => {},
            }
        },
        Packing::LowByte => {
            lemma_low_byte_word(fields, values, total, i, n);
            lemma_or_bytes(regs[a], byte_of(v) as u16);
            match v {
                FieldValue::I8(x) => {
                    assert((x as u8) as i8 == x) by (bit_vector);
                },
                _ => {},
            }
        },
    }
}

/// Decoding the register block that a record's values were encoded into gives
/// back exactly those values: `from_registers(to_registers(v)) == v` for every
/// well-formed layout and every list of values of the fields' types.
pub proof fn lemma_decode_encode(layout: Layout, values: Seq<FieldValue>)
    requires
        layout.wf(),
        conforms(layout.fields@, values),
    ensures
        decoded(layout.fields@, encoded(layout.fields@, values, layout.register_count as nat))
            == values,
{
    let fields = layout.fields@;
    let total = layout.register_count as nat;
    assert forall|i: int| 0 <= i < fields.len() implies decoded(
        fields,
        encoded(fields, values, total),
    )[i] == values[i] by {
        lemma_field_roundtrip(fields, values, total, i);
    }
    assert(decoded(fields, encoded(fields, values, total)) =~= values);
}


/// A register held only by bit-packed fields has a zero bit where none of them lies.
proof fn lemma_unclaimed_bit_word(
    fields: Seq<FieldSpec>,
    values: Seq<FieldValue>,
    total: nat,
    r: int,
    q: u8,
    k: nat,
)
    requires
        layout_wf(fields, total),
        values.len() == fields.len(),
        k <= fields.len(),
        q < 16,
        forall|j: int|
            0 <= j < fields.len() && #[trigger] covers(fields[j], r) ==> fields[j].packing is Bit
                && fields[j].packing->0 != q,
    ensures
        (register_word(fields, values, r, k) >> q) & 1u16 == 0,
    decreases k,
{
    lemma_zero_word(q);
    if k > 0 {
        lemma_unclaimed_bit_word(fields, values, total, r, q, (k - 1) as nat);
        let j = k - 1;
        let prev = register_word(fields, values, r, (k - 1) as nat);
        let c = contribution(fields[j], values[j], r);
        assert(register_word(fields, values, r, k) == prev | c);
        lemma_or_zero(prev);
        if covers(fields[j], r) {
            assert(packing_fits(fields[j]));
            if let Packing::Bit(b) = fields[j].packing {
                if bool_of(values[j]) {
                    lemma_or_other_bit(prev, q, b);
                }
            }
        } else {
            assert(c == 0);
        }
    }
}

/// Where each field's value lies in the encoded block: an unpacked field's
/// registers hold its words, a bit-packed `bool` is its bit (1 when true), a
/// byte-packed `u8`/`i8` is its byte of the shared register.
pub proof fn lemma_field_placement(layout: Layout, values: Seq<FieldValue>, i: int)
    requires
        layout.wf(),
        conforms(layout.fields@, values),
        0 <= i < layout.fields@.len(),
    ensures
        ({
            let regs = encoded(layout.fields@, values, layout.register_count as nat);
            let f = layout.fields@[i];
            let a = f.address as int;
            &&& f.packing is Register ==> regs.subrange(a, a + type_register_count(f.ty))
                == value_words(values[i], f.endian)
            &&& f.packing is Bit ==> (regs[a] >> f.packing->0) & 1u16 == if bool_of(values[i]) {
                1u16
            } else {
                0u16
            }
            &&& f.packing is HighByte ==> regs[a] >> 8u16 == byte_of(values[i]) as u16
            &&& f.packing is LowByte ==> regs[a] & 0xffu16 == byte_of(values[i]) as u16
        }),
{
    let fields = layout.fields@;
    let total = layout.register_count as nat;
    let n = fields.len();
    let f = fields[i];
    let a = f.address as int;
    let regs = encoded(fields, values, total);
    assert(packing_fits(f) && f.address + span(f) <= total);
    assert(has_type(values[i], f.ty));
    match f.packing {
        Packing::Register => {
            lemma_value_words_len(values[i], f.ty, f.endian);
            let c = type_register_count(f.ty);
            assert forall|j: int| 0 <= j < c implies regs.subrange(a, a + c)[j] == value_words(
                values[i],
                f.endian,
            )[j] by {
                lemma_whole_field_word(fields, values, total, i, a + j, n);
            }
            assert(regs.subrange(a, a + c) =~= value_words(values[i], f.endian));
        },
        Packing::Bit(b) => {
            lemma_bit_field_word(fields, values, total, i, b, n);
        },
        Packing::HighByte => {
            lemma_high_byte_word(fields, values, total, i, n);
        },
        Packing::LowByte => {
            lemma_low_byte_word(fields, values, total, i, n);
        },
    }
}

/// The registers an unpacked field holds in the encoded block, in bit
/// operations on the field's value: a `bool` is 1 or 0; a `u8`/`i8` is its
/// byte with the high byte zero; a 16-bit value is the register; a 32-bit
/// value (an `f32` by its IEEE bits) puts its high 16 bits first in big word
/// order and last in little word order; a 64-bit value puts its four 16-bit
/// words most significant first in big word order and least significant first
/// in little word order.
pub proof fn lemma_unpacked_field_registers(layout: Layout, values: Seq<FieldValue>, i: int)
    requires
        layout.wf(),
        conforms(layout.fields@, values),
        0 <= i < layout.fields@.len(),
        layout.fields@[i].packing is Register,
    ensures
        ({
            let regs = encoded(layout.fields@, values, layout.register_count as nat);
            let a = layout.fields@[i].address as int;
            let big = layout.fields@[i].endian is Big;
            match values[i] {
                FieldValue::Bool(b) => regs[a] == if b {
                    1u16
                } else {
                    0u16
                },
                FieldValue::U8(x) => regs[a] == x as u16,
                FieldValue::I8(x) => regs[a] == (x as u16) & 0xffu16,
                FieldValue::U16(x) => regs[a] == x,
                FieldValue::I16(x) => regs[a] == x as u16,
                FieldValue::U32(x) => {
                    &&& regs[a] == if big { (x >> 16u32) as u16 } else { x as u16 }
                    &&& regs[a + 1] == if big { x as u16 } else { (x >> 16u32) as u16 }
                },
                FieldValue::F32(x) => {
                    &&& regs[a] == if big { (x >> 16u32) as u16 } else { x as u16 }
                    &&& regs[a + 1] == if big { x as u16 } else { (x >> 16u32) as u16 }
                },
                FieldValue::I32(x) => {
                    &&& regs[a] == if big { ((x as u32) >> 16u32) as u16 } else { x as u16 }
                    &&& regs[a + 1] == if big { x as u16 } else { ((x as u32) >> 16u32) as u16 }
                },
                FieldValue::U64(x) => {
                    &&& regs[a] == if big { (x >> 48u64) as u16 } else { x as u16 }
                    &&& regs[a + 1] == if big { (x >> 32u64) as u16 } else { (x >> 16u64) as u16 }
                    &&& regs[a + 2] == if big { (x >> 16u64) as u16 } else { (x >> 32u64) as u16 }
                    &&& regs[a + 3] == if big { x as u16 } else { (x >> 48u64) as u16 }
                },
                FieldValue::F64(x) => {
                    &&& regs[a] == if big { (x >> 48u64) as u16 } else { x as u16 }
                    &&& regs[a + 1] == if big { (x >> 32u64) as u16 } else { (x >> 16u64) as u16 }
                    &&& regs[a + 2] == if big { (x >> 16u64) as u16 } else { (x >> 32u64) as u16 }
                    &&& regs[a + 3] == if big { x as u16 } else { (x >> 48u64) as u16 }
                },
                FieldValue::I64(x) => {
                    let y = x as u64;
                    &&& regs[a] == if big { (y >> 48u64) as u16 } else { y as u16 }
                    &&& regs[a + 1] == if big { (y >> 32u64) as u16 } else { (y >> 16u64) as u16 }
                    &&& regs[a + 2] == if big { (y >> 16u64) as u16 } else { (y >> 32u64) as u16 }
                    &&& regs[a + 3] == if big { y as u16 } else { (y >> 48u64) as u16 }
                },
            }
        }),
{
    lemma_field_placement(layout, values, i);
    let fields = layout.fields@;
    let regs = encoded(fields, values, layout.register_count as nat);
    let f = fields[i];
    let a = f.address as int;
    let c = type_register_count(f.ty);
    assert(has_type(values[i], f.ty));
    let w = regs.subrange(a, a + c);
    assert(w == value_words(values[i], f.endian));
    lemma_value_words_len(values[i], f.ty, f.endian);
    assert forall|j: int| 0 <= j < c implies regs[a + j] == value_words(values[i], f.endian)[j] by {
        assert(regs[a + j] == w[j]);
    }
    let vw = value_words(values[i], f.endian);
    assert(regs[a] == vw[0]) by {
        assert(regs[a + 0] == vw[0]);
    }
    if c >= 2 {
        assert(regs[a + 1] == vw[1]);
    }
    if c >= 4 {
        assert(regs[a + 2] == vw[2]);
        assert(regs[a + 3] == vw[3]);
    }
    match values[i] {
        FieldValue::I8(x) => {
            assert(((x as u8) as u16) == (x as u16) & 0xffu16) by (bit_vector);
        },
        FieldValue::I32(x) => {
            assert((x as u32) as u16 == x as u16) by (bit_vector);
        },
        FieldValue::U64(x) => {
            assert(word64(x, 3) == (x >> 48u64) as u16 && word64(x, 2) == (x >> 32u64) as u16
                && word64(x, 1) == (x >> 16u64) as u16 && word64(x, 0) == x as u16) by (bit_vector);
        },
        FieldValue::F64(x) => {
            assert(word64(x, 3) == (x >> 48u64) as u16 && word64(x, 2) == (x >> 32u64) as u16
                && word64(x, 1) == (x >> 16u64) as u16 && word64(x, 0) == x as u16) by (bit_vector);
        },
        FieldValue::I64(x) => {
            let y = x as u64;
            assert(word64(y, 3) == (y >> 48u64) as u16 && word64(y, 2) == (y >> 32u64) as u16
                && word64(y, 1) == (y >> 16u64) as u16 && word64(y, 0) == y as u16) by (bit_vector);
        },
        _ => {},
    }
}

/// What an unpacked field decodes to, in bit operations on its registers: a
/// `bool` is true exactly when its register is non-zero; a `u8`/`i8` is the
/// register's low byte; a 16-bit value is the register; a 32-bit value (an
/// `f32` by its IEEE bits) takes its high 16 bits from the first register in
/// big word order and from the second in little word order; a 64-bit value
/// takes its words most significant first in big word order and least
/// significant first in little word order.
pub proof fn lemma_unpacked_field_value(f: FieldSpec, regs: Seq<u16>)
    requires
        f.packing is Register,
        f.address + type_register_count(f.ty) <= regs.len(),
    ensures
        ({
            let a = f.address as int;
            let big = f.endian is Big;
            let r32 = if big {
                ((regs[a] as u32) << 16u32) | (regs[a + 1] as u32)
            } else {
                ((regs[a + 1] as u32) << 16u32) | (regs[a] as u32)
            };
            let r64 = if big {
                ((regs[a] as u64) << 48u64) | ((regs[a + 1] as u64) << 32u64) | ((regs[a + 2] as u64)
                    << 16u64) | (regs[a + 3] as u64)
            } else {
                ((regs[a + 3] as u64) << 48u64) | ((regs[a + 2] as u64) << 32u64) | ((regs[a
                    + 1] as u64) << 16u64) | (regs[a] as u64)
            };
            decode_field(f, regs) == match f.ty {
                FieldType::Bool => FieldValue::Bool(regs[a] != 0),
                FieldType::U8 => FieldValue::U8((regs[a] & 0xffu16) as u8),
                FieldType::I8 => FieldValue::I8((regs[a] & 0xffu16) as u8 as i8),
                FieldType::U16 => FieldValue::U16(regs[a]),
                FieldType::I16 => FieldValue::I16(regs[a] as i16),
                FieldType::U32 => FieldValue::U32(r32),
                FieldType::I32 => FieldValue::I32(r32 as i32),
                FieldType::F32 => FieldValue::F32(r32),
                FieldType::U64 => FieldValue::U64(r64),
                FieldType::I64 => FieldValue::I64(r64 as i64),
                FieldType::F64 => FieldValue::F64(r64),
            }
        }),
{
    let a = f.address as int;
    let x = regs[a];
    assert((x & 0xffu16) as u8 == x as u8 && (x & 0xffu16) as u8 as i8 == x as i8) by (bit_vector);
}

/// What a packed field decodes to, in bit operations on its register: a
/// bit-packed `bool` is true exactly when its bit is 1; a byte-packed `u8` or
/// `i8` is bits 8-15 of the register for the high byte and bits 0-7 for the
/// low byte, an `i8` read as two's complement.
pub proof fn lemma_packed_field_value(f: FieldSpec, regs: Seq<u16>)
    requires
        !(f.packing is Register),
        packing_fits(f),
        f.address < regs.len(),
    ensures
        ({
            let x = regs[f.address as int];
            let byte: u8 = if f.packing is HighByte {
                (x / 256) as u8
            } else {
                (x % 256) as u8
            };
            decode_field(f, regs) == match f.packing {
                Packing::Bit(b) => FieldValue::Bool((x as nat / pow2(b as nat)) % 2 == 1),
                _ => if f.ty is I8 {
                    FieldValue::I8(byte as i8)
                } else {
                    FieldValue::U8(byte)
                },
            }
        }),
{
    let x = regs[f.address as int];
    assert(x >> 8u16 == x / 256 && x as u8 == (x % 256) as u8) by (bit_vector);
    if let Packing::Bit(b) = f.packing {
        let s = b as u16;
        lemma_u16_shr_is_div(x, s);
        assert((x >> b) & 1u16 == (x >> s) % 2 && ((x >> b) & 1u16 != 0) == ((x >> s) % 2 == 1))
            by (bit_vector)
            requires
                s == b as u16,
                b < 16,
        ;
    }
}

/// In a register held only by bit-packed fields, every bit that no field lies
/// in is zero.
pub proof fn lemma_unclaimed_bits_are_zero(layout: Layout, values: Seq<FieldValue>, r: int, q: u8)
    requires
        layout.wf(),
        conforms(layout.fields@, values),
        0 <= r < layout.register_count,
        q < 16,
        forall|j: int|
            0 <= j < layout.fields@.len() && #[trigger] covers(layout.fields@[j], r)
                ==> layout.fields@[j].packing is Bit && layout.fields@[j].packing->0 != q,
    ensures
        (encoded(layout.fields@, values, layout.register_count as nat)[r] >> q) & 1u16 == 0,
{
    lemma_unclaimed_bit_word(
        layout.fields@,
        values,
        layout.register_count as nat,
        r,
        q,
        layout.fields@.len(),
    );
}

/// Decoding any block of the right length gives one value of the right type
/// for each field, so decoded values can always be encoded again.
pub proof fn lemma_decoded_conforms(layout: Layout, regs: Seq<u16>)
    requires
        layout.wf(),
    ensures
        conforms(layout.fields@, decoded(layout.fields@, regs)),
{
    let fields = layout.fields@;
    assert forall|i: int| 0 <= i < fields.len() implies has_type(
        #[trigger] decoded(fields, regs)[i],
        fields[i].ty,
    ) by {
        assert(packing_fits(fields[i]));
    }
}

/// The truth value of a `bool` field value.
fn value_bool(v: FieldValue) -> (b: bool)
    ensures
        b == bool_of(v),
{
    match v {
        FieldValue::Bool(b) => b,
        _ => false,
    }
}

/// The byte of a `u8`/`i8` field value.
fn value_byte(v: FieldValue) -> (b: u8)
    ensures
        b == byte_of(v),
{
    match v {
        FieldValue::U8(x) => x,
        FieldValue::I8(x) => x as u8,
        _ => 0,
    }
}

/// The registers an unpacked value occupies.
fn value_to_words(v: FieldValue, endian: Endianness) -> (words: Vec<u16>)
    ensures
        words@ == value_words(v, endian),
{
    let words = match v {
        FieldValue::Bool(b) => vec![if b { 1u16 } else { 0u16 }],
        FieldValue::U8(x) => vec![x as u16],
        FieldValue::I8(x) => vec![(x as u8) as u16],
        FieldValue::U16(x) => vec![x],
        FieldValue::I16(x) => vec![x as u16],
        FieldValue::U32(x) => {
            let w = u32_to_registers(x, endian);
            vec![w[0], w[1]]
        },
        FieldValue::I32(x) => {
            let w = i32_to_registers(x, endian);
            vec![w[0], w[1]]
        },
        FieldValue::U64(x) => {
            let w = u64_to_registers(x, endian);
            vec![w[0], w[1], w[2], w[3]]
        },
        FieldValue::I64(x) => {
            let w = i64_to_registers(x, endian);
            vec![w[0], w[1], w[2], w[3]]
        },
        FieldValue::F32(x) => {
            let w = u32_to_registers(x, endian);
            vec![w[0], w[1]]
        },
        FieldValue::F64(x) => {
            let w = u64_to_registers(x, endian);
            vec![w[0], w[1], w[2], w[3]]
        },
    };
    assert(words@ =~= value_words(v, endian));
    words
}

/// The value of type `ty` held by the whole registers `words`.
fn value_from_register_words(ty: FieldType, endian: Endianness, words: &[u16]) -> (v: FieldValue)
    requires
        words@.len() >= type_register_count(ty),
    ensures
        v == value_from_words(ty, endian, words@),
{
    match ty {
        FieldType::Bool => FieldValue::Bool(words[0] != 0),
        FieldType::U8 => FieldValue::U8(words[0] as u8),
        FieldType::I8 => FieldValue::I8(words[0] as i8),
        FieldType::U16 => FieldValue::U16(words[0]),
        FieldType::I16 => FieldValue::I16(words[0] as i16),
        FieldType::U32 => FieldValue::U32(u32_from_registers(words, endian)),
        FieldType::I32 => FieldValue::I32(i32_from_registers(words, endian)),
        FieldType::U64 => FieldValue::U64(u64_from_registers(words, endian)),
        FieldType::I64 => FieldValue::I64(i64_from_registers(words, endian)),
        FieldType::F32 => FieldValue::F32(u32_from_registers(words, endian)),
        FieldType::F64 => FieldValue::F64(u64_from_registers(words, endian)),
    }
}

/// A byte read as a `u8` or `i8` field value.
fn byte_field_value(ty: FieldType, byte: u8) -> (v: FieldValue)
    ensures
        v == byte_value(ty, byte),
{
    match ty {
        FieldType::I8 => FieldValue::I8(byte as i8),
        _ => FieldValue::U8(byte),
    }
}

/// The value of field `f` read from the register block `regs`.
fn decode_field_value(f: FieldSpec, regs: &[u16]) -> (v: FieldValue)
    requires
        packing_fits(f),
        f.address + span(f) <= regs@.len(),
    ensures
        v == decode_field(f, regs@),
{
    let a = f.address as usize;
    match f.packing {
        Packing::Register => {
            let count = f.ty.register_count() as usize;
            let words = vstd::slice::slice_subrange(regs, a, a + count);
            value_from_register_words(f.ty, f.endian, words)
        },
        Packing::Bit(b) => FieldValue::Bool((regs[a] >> b) & 1u16 != 0),
        Packing::HighByte => byte_field_value(f.ty, (regs[a] >> 8u16) as u8),
        Packing::LowByte => byte_field_value(f.ty, regs[a] as u8),
    }
}

/// Whether `i` is the index of the first of `names` that is `name`.
pub open spec fn first_named(names: Seq<String>, name: Seq<char>, i: int) -> bool {
    &&& 0 <= i < names.len()
    &&& names[i]@ == name
    &&& forall|j: int| 0 <= j < i ==> (#[trigger] names[j])@ != name
}

/// Whether none of `names` is `name`.
pub open spec fn none_named(names: Seq<String>, name: Seq<char>) -> bool {
    forall|j: int| 0 <= j < names.len() ==> (#[trigger] names[j])@ != name
}

impl Layout {
    /// Whether `values` gives one value of the right type for each field of this layout.
    pub fn values_conform(&self, values: &[FieldValue]) -> (ok: bool)
        ensures
            ok == conforms(self.fields@, values@),
    {
        if values.len() != self.fields.len() {
            return false;
        }
        let n = self.fields.len();
        let mut i: usize = 0;
        while i < n
            invariant
                n == self.fields@.len(),
                values@.len() == n,
                i <= n,
                forall|j: int| 0 <= j < i ==> has_type(#[trigger] values@[j], self.fields@[j].ty),
            decreases n - i,
        {
            let ok = match (values[i], self.fields[i].ty) {
                (FieldValue::Bool(_), FieldType::Bool) => true,
                (FieldValue::U8(_), FieldType::U8) => true,
                (FieldValue::I8(_), FieldType::I8) => true,
                (FieldValue::U16(_), FieldType::U16) => true,
                (FieldValue::I16(_), FieldType::I16) => true,
                (FieldValue::U32(_), FieldType::U32) => true,
                (FieldValue::I32(_), FieldType::I32) => true,
                (FieldValue::U64(_), FieldType::U64) => true,
                (FieldValue::I64(_), FieldType::I64) => true,
                (FieldValue::F32(_), FieldType::F32) => true,
                (FieldValue::F64(_), FieldType::F64) => true,
                _ => false,
            };
            if !ok {
                return false;
            }
            i += 1;
        }
        true
    }

    /// Serialize field values, one per field in order, to the layout's register block.
    pub fn to_registers(&self, values: &[FieldValue]) -> (regs: Vec<u16>)
        requires
            self.wf(),
            conforms(self.fields@, values@),
        ensures
            regs@ == encoded(self.fields@, values@, self.register_count as nat),
            regs@.len() == self.register_count,
    {
        let ghost fields = self.fields@;
        let ghost vals = values@;
        let total = self.register_count as usize;
        let mut regs: Vec<u16> = Vec::new();
        let mut r: usize = 0;
        while r < total
            invariant
                r <= total,
                regs@.len() == r,
                forall|q: int| 0 <= q < r ==> regs@[q] == 0,
            decreases total - r,
        {
            regs.push(0);
            r += 1;
        }
        let n = self.fields.len();
        let mut k: usize = 0;
        while k < n
            invariant
                self.wf(),
                fields == self.fields@,
                vals == values@,
                conforms(fields, vals),
                n == fields.len(),
                total == self.register_count,
                k <= n,
                regs@.len() == total,
                forall|q: int|
                    0 <= q < total ==> regs@[q] == register_word(fields, vals, q, k as nat),
            decreases n - k,
        {
            let f = self.fields[k];
            let v = values[k];
            let a = f.address as usize;
            proof {
                assert(packing_fits(fields[k as int]));
                assert(has_type(vals[k as int], fields[k as int].ty));
            }
            let ghost before = regs@;
            match f.packing {
                Packing::Register => {
                    let words = value_to_words(v, f.endian);
                    proof {
                        lemma_value_words_len(v, f.ty, f.endian);
                    }
                    let c = words.len();
                    let mut j: usize = 0;
                    while j < c
                        invariant
                            c == words@.len(),
                            words@ == value_words(v, f.endian),
                            a + c <= total,
                            a == f.address,
                            f.packing is Register,
                            c == type_register_count(f.ty),
                            j <= c,
                            regs@.len() == total,
                            before.len() == total,
                            forall|q: int|
                                0 <= q < total ==> regs@[q] == if a <= q < a + j {
                                    before[q] | contribution(f, v, q)
                                } else {
                                    before[q]
                                },
                        decreases c - j,
                    {
                        let cur = regs[a + j];
                        regs[a + j] = cur | words[j];
                        j += 1;
                    }
                },
                Packing::Bit(b) => {
                    if value_bool(v) {
                        let cur = regs[a];
                        regs[a] = cur | (1u16 << b);
                    }
                },
                Packing::HighByte => {
                    let cur = regs[a];
                    regs[a] = cur | ((value_byte(v) as u16) << 8u16);
                },
                Packing::LowByte => {
                    let cur = regs[a];
                    regs[a] = cur | (value_byte(v) as u16);
                },
            }
            proof {
                assert forall|q: int| 0 <= q < total implies regs@[q] == register_word(
                    fields,
                    vals,
                    q,
                    (k + 1) as nat,
                ) by {
                    lemma_or_zero(before[q]);
                }
            }
            k += 1;
        }
        proof {
            assert(regs@ =~= encoded(fields, vals, total as nat));
        }
        regs
    }

    /// Deserialize the field values, one per field in order, from a register block.
    ///
    /// Returns `RegisterCountMismatch` if the block does not have the layout's register count.
    pub fn from_registers(&self, registers: &[u16]) -> (res: Result<Vec<FieldValue>, ModbusMapperError>)
        requires
            self.wf(),
        ensures
            registers@.len() != self.register_count ==> (res matches Err(
                ModbusMapperError::RegisterCountMismatch { expected, actual },
            ) && expected == self.register_count && actual == registers@.len()),
            registers@.len() == self.register_count ==> (res matches Ok(values) && values@
                == decoded(self.fields@, registers@)),
    {
        if registers.len() != self.register_count as usize {
            return Err(
                ModbusMapperError::RegisterCountMismatch {
                    expected: self.register_count as usize,
                    actual: registers.len(),
                },
            );
        }
        let ghost fields = self.fields@;
        let n = self.fields.len();
        let mut values: Vec<FieldValue> = Vec::new();
        let mut i: usize = 0;
        while i < n
            invariant
                self.wf(),
                fields == self.fields@,
                n == fields.len(),
                registers@.len() == self.register_count,
                i <= n,
                values@.len() == i,
                forall|j: int| 0 <= j < i ==> values@[j] == decode_field(fields[j], registers@),
            decreases n - i,
        {
            proof {
                assert(packing_fits(fields[i as int]));
            }
            let v = decode_field_value(self.fields[i], registers);
            values.push(v);
            i += 1;
        }
        assert(values@ =~= decoded(fields, registers@));
        Ok(values)
    }

    /// Index of the first field with the given name.
    fn find_field(&self, name: &str) -> (found: Option<usize>)
        ensures
            found matches Some(i) ==> first_named(self.field_names@, name@, i as int),
            found is None ==> none_named(self.field_names@, name@),
    {
        let n = self.field_names.len();
        let mut i: usize = 0;
        while i < n
            invariant
                n == self.field_names@.len(),
                i <= n,
                forall|j: int| 0 <= j < i ==> (#[trigger] self.field_names@[j])@ != name@,
            decreases n - i,
        {
            if crate::text::same_text(self.field_names[i].as_str(), name) {
                return Some(i);
            }
            i += 1;
        }
        None
    }

    /// The offset within the block of the first field with the given name, `None` if no mapped
    /// field has that name.
    pub fn field_address(&self, field_name: &str) -> (address: Option<u16>)
        requires
            self.wf(),
        ensures
            address matches Some(a) ==> exists|i: int|
                first_named(self.field_names@, field_name@, i) && (
                #[trigger] self.fields@[i]).address == a,
            address is None <==> none_named(self.field_names@, field_name@),
    {
        match self.find_field(field_name) {
            Some(i) => Some(self.fields[i].address),
            None => None,
        }
    }

    /// The register count of the type of the first field with the given name, `None` if no
    /// mapped field has that name.
    pub fn field_register_count(&self, field_name: &str) -> (count: Option<u16>)
        requires
            self.wf(),
        ensures
            count matches Some(c) ==> exists|i: int|
                first_named(self.field_names@, field_name@, i) && c == type_register_count(
                    (#[trigger] self.fields@[i]).ty,
                ),
            count is None <==> none_named(self.field_names@, field_name@),
    {
        match self.find_field(field_name) {
            Some(i) => Some(self.fields[i].ty.register_count()),
            None => None,
        }
    }
}

} // verus!
