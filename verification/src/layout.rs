//! The register layout of a mapped record, and what its register block holds.
//!
//! A record maps each of its fields onto a contiguous block of registers that
//! starts at offset 0. A field either occupies whole registers (one, two or
//! four, by its type), or shares one register with other packed fields: a
//! `bool` in one bit, a `u8`/`i8` in the high or low byte.

use vstd::prelude::*;

use crate::endian::{value32, value64, words32, words64, Endianness};
use crate::text::same_text;
use crate::RegisterType;
use vstd::set_lib::{lemma_int_range, lemma_set_disjoint_lens, set_int_range};

verus! {

/// The primitive types a field can have.
#[derive(Debug, Clone, Copy, PartialEq, Eq, Structural)]
pub enum FieldType {
    /// `bool`
    Bool,
    /// `u8`
    U8,
    /// `i8`
    I8,
    /// `u16`
    U16,
    /// `i16`
    I16,
    /// `u32`
    U32,
    /// `i32`
    I32,
    /// `u64`
    U64,
    /// `i64`
    I64,
    /// `f32`, held as its IEEE 754 bits
    F32,
    /// `f64`, held as its IEEE 754 bits
    F64,
}

/// Number of whole registers a value of the type occupies.
pub open spec fn type_register_count(ty: FieldType) -> nat {
    match ty {
        FieldType::Bool | FieldType::U8 | FieldType::I8 | FieldType::U16 | FieldType::I16 => 1,
        FieldType::U32 | FieldType::I32 | FieldType::F32 => 2,
        FieldType::U64 | FieldType::I64 | FieldType::F64 => 4,
    }
}

/// The field type that a Rust type name denotes, if it is one of the supported primitives.
pub open spec fn type_named(name: Seq<char>) -> Option<FieldType> {
    if name == "bool"@ {
        Some(FieldType::Bool)
    } else if name == "u8"@ {
        Some(FieldType::U8)
    } else if name == "i8"@ {
        Some(FieldType::I8)
    } else if name == "u16"@ {
        Some(FieldType::U16)
    } else if name == "i16"@ {
        Some(FieldType::I16)
    } else if name == "u32"@ {
        Some(FieldType::U32)
    } else if name == "i32"@ {
        Some(FieldType::I32)
    } else if name == "u64"@ {
        Some(FieldType::U64)
    } else if name == "i64"@ {
        Some(FieldType::I64)
    } else if name == "f32"@ {
        Some(FieldType::F32)
    } else if name == "f64"@ {
        Some(FieldType::F64)
    } else {
        None
    }
}

/// Number of registers a value of the named type occupies; 0 for an unsupported type.
pub open spec fn named_register_count(name: Seq<char>) -> nat {
    match type_named(name) {
        Some(ty) => type_register_count(ty),
        None => 0,
    }
}

impl FieldType {
    /// Number of whole registers a value of this type occupies.
    pub fn register_count(self) -> (n: u16)
        ensures
            n == type_register_count(self),
    {
        match self {
            FieldType::Bool | FieldType::U8 | FieldType::I8 | FieldType::U16 | FieldType::I16 => 1,
            FieldType::U32 | FieldType::I32 | FieldType::F32 => 2,
            FieldType::U64 | FieldType::I64 | FieldType::F64 => 4,
        }
    }

    /// The field type a Rust type name denotes, `None` for an unsupported type.
    pub fn from_name(name: &str) -> (ty: Option<FieldType>)
        ensures
            ty == type_named(name@),
    {
        if same_text(name, "bool") {
            Some(FieldType::Bool)
        } else if same_text(name, "u8") {
            Some(FieldType::U8)
        } else if same_text(name, "i8") {
            Some(FieldType::I8)
        } else if same_text(name, "u16") {
            Some(FieldType::U16)
        } else if same_text(name, "i16") {
            Some(FieldType::I16)
        } else if same_text(name, "u32") {
            Some(FieldType::U32)
        } else if same_text(name, "i32") {
            Some(FieldType::I32)
        } else if same_text(name, "u64") {
            Some(FieldType::U64)
        } else if same_text(name, "i64") {
            Some(FieldType::I64)
        } else if same_text(name, "f32") {
            Some(FieldType::F32)
        } else if same_text(name, "f64") {
            Some(FieldType::F64)
        } else {
            None
        }
    }
}

/// Get the number of registers required for a type, by its name; 0 for an unsupported type.
pub fn get_type_register_count(type_str: &str) -> (n: u16)
    ensures
        n == named_register_count(type_str@),
{
    match FieldType::from_name(type_str) {
        Some(ty) => ty.register_count(),
        None => 0,
    }
}

/// How a field is placed in its register block.
#[derive(Debug, Clone, Copy, PartialEq, Eq, Structural)]
pub enum Packing {
    /// The field occupies whole registers of its own.
    Register,
    /// A `bool` in the given bit (0-15) of a shared register.
    Bit(u8),
    /// A `u8`/`i8` in bits 8-15 of a shared register.
    HighByte,
    /// A `u8`/`i8` in bits 0-7 of a shared register.
    LowByte,
}

/// The value of one field; `F32` and `F64` hold the IEEE 754 bits of the float.
#[derive(Debug, Clone, Copy, PartialEq, Eq, Structural)]
pub enum FieldValue {
    /// A `bool` field.
    Bool(bool),
    /// A `u8` field.
    U8(u8),
    /// An `i8` field.
    I8(i8),
    /// A `u16` field.
    U16(u16),
    /// An `i16` field.
    I16(i16),
    /// A `u32` field.
    U32(u32),
    /// An `i32` field.
    I32(i32),
    /// A `u64` field.
    U64(u64),
    /// An `i64` field.
    I64(i64),
    /// The bits of an `f32` field.
    F32(u32),
    /// The bits of an `f64` field.
    F64(u64),
}

/// Where and how one mapped field of a record is placed.
#[derive(Debug, Clone, Copy, PartialEq, Eq, Structural)]
pub struct FieldSpec {
    /// The field's type.
    pub ty: FieldType,
    /// Offset of the field's first register within the record's block.
    pub address: u16,
    /// Word order of a field that spans several registers.
    pub endian: Endianness,
    /// How the field is placed.
    pub packing: Packing,
}

/// The register layout of a mapped record.
pub struct Layout {
    /// Absolute wire address of the block, used for I/O.
    pub base_address: u16,
    /// The kind of registers the block consists of.
    pub register_type: RegisterType,
    /// The names of the mapped fields, in declaration order.
    pub field_names: Vec<String>,
    /// The placement of each mapped field, in the order of `field_names`.
    pub fields: Vec<FieldSpec>,
    /// Number of registers in the block.
    pub register_count: u16,
}

/// Number of registers a field occupies: its type's count, or one shared register if packed.
pub open spec fn span(f: FieldSpec) -> nat {
    match f.packing {
        Packing::Register => type_register_count(f.ty),
        _ => 1,
    }
}

/// Whether register `r` of the block holds (part of) field `f`.
pub open spec fn covers(f: FieldSpec, r: int) -> bool {
    f.address <= r < f.address + span(f)
}

/// Whether a field's packing suits its type: bits hold a `bool` at positions
/// 0-15, bytes hold a `u8` or `i8`.
pub open spec fn packing_fits(f: FieldSpec) -> bool {
    match f.packing {
        Packing::Register => true,
        Packing::Bit(b) => f.ty is Bool && b < 16,
        Packing::HighByte | Packing::LowByte => f.ty is U8 || f.ty is I8,
    }
}

/// Whether two packed fields may share their register without overlapping:
/// distinct bits, the two distinct bytes, or a bit outside a byte, of the same
/// register.
pub open spec fn shares_register(f: FieldSpec, g: FieldSpec) -> bool {
    &&& f.address == g.address
    &&& match (f.packing, g.packing) {
        (Packing::Bit(a), Packing::Bit(b)) => a != b,
        (Packing::HighByte, Packing::LowByte) => true,
        (Packing::LowByte, Packing::HighByte) => true,
        (Packing::Bit(a), Packing::HighByte) => a < 8,
        (Packing::HighByte, Packing::Bit(b)) => b < 8,
        (Packing::Bit(a), Packing::LowByte) => a >= 8,
        (Packing::LowByte, Packing::Bit(b)) => b >= 8,
        _ => false,
    }
}

/// Whether two fields can stand in one block: their registers are disjoint, or
/// they share one register without overlapping.
pub open spec fn compatible(f: FieldSpec, g: FieldSpec) -> bool {
    ||| f.address + span(f) <= g.address
    ||| g.address + span(g) <= f.address
    ||| shares_register(f, g)
}

/// Whether `fields` lay out a gap-free block of `total` registers starting at
/// 0: every field fits its packing and lies in the block, no two fields
/// overlap, and every register of the block holds some field.
pub open spec fn layout_wf(fields: Seq<FieldSpec>, total: nat) -> bool {
    &&& forall|i: int|
        0 <= i < fields.len() ==> packing_fits(#[trigger] fields[i]) && fields[i].address
            + span(fields[i]) <= total
    &&& forall|i: int, j: int|
        #![trigger fields[i], fields[j]]
        0 <= i < fields.len() && 0 <= j < fields.len() && i != j ==> compatible(
            fields[i],
            fields[j],
        )
    &&& forall|r: int| 0 <= r < total ==> #[trigger] covered(fields, r)
}

/// Whether some field holds register `r`.
pub open spec fn covered(fields: Seq<FieldSpec>, r: int) -> bool {
    exists|i: int| 0 <= i < fields.len() && #[trigger] covers(fields[i], r)
}

impl Layout {
    /// The layout's invariant: each mapped field has a name, and the fields lay out
    /// a gap-free block of `register_count` registers.
    pub open spec fn wf(&self) -> bool {
        &&& self.field_names@.len() == self.fields@.len()
        &&& layout_wf(self.fields@, self.register_count as nat)
    }
}

/// Whether a value is of the given field type.
pub open spec fn has_type(v: FieldValue, ty: FieldType) -> bool {
    match v {
        FieldValue::Bool(_) => ty is Bool,
        FieldValue::U8(_) => ty is U8,
        FieldValue::I8(_) => ty is I8,
        FieldValue::U16(_) => ty is U16,
        FieldValue::I16(_) => ty is I16,
        FieldValue::U32(_) => ty is U32,
        FieldValue::I32(_) => ty is I32,
        FieldValue::U64(_) => ty is U64,
        FieldValue::I64(_) => ty is I64,
        FieldValue::F32(_) => ty is F32,
        FieldValue::F64(_) => ty is F64,
    }
}

/// Whether `values` gives one value of the right type for each field, in order.
pub open spec fn conforms(fields: Seq<FieldSpec>, values: Seq<FieldValue>) -> bool {
    &&& values.len() == fields.len()
    &&& forall|i: int| 0 <= i < fields.len() ==> has_type(#[trigger] values[i], fields[i].ty)
}

/// The registers a value occupies when it is not packed: a `bool` is 1 or 0, a
/// `u8`/`i8` sits in the low byte with the high byte zero, 16-bit values are
/// the register itself, and wider values are split into words in the given order.
pub open spec fn value_words(v: FieldValue, endian: Endianness) -> Seq<u16> {
    match v {
        FieldValue::Bool(b) => seq![if b { 1u16 } else { 0u16 }],
        FieldValue::U8(x) => seq![x as u16],
        FieldValue::I8(x) => seq![(x as u8) as u16],
        FieldValue::U16(x) => seq![x],
        FieldValue::I16(x) => seq![x as u16],
        FieldValue::U32(x) => words32(x, endian),
        FieldValue::I32(x) => words32(x as u32, endian),
        FieldValue::U64(x) => words64(x, endian),
        FieldValue::I64(x) => words64(x as u64, endian),
        FieldValue::F32(x) => words32(x, endian),
        FieldValue::F64(x) => words64(x, endian),
    }
}

/// The truth value of a `bool` field.
pub open spec fn bool_of(v: FieldValue) -> bool {
    match v {
        FieldValue::Bool(b) => b,
        _ => false,
    }
}

/// The byte of a `u8`/`i8` field (the two's complement bits of an `i8`).
pub open spec fn byte_of(v: FieldValue) -> u8 {
    match v {
        FieldValue::U8(x) => x,
        FieldValue::I8(x) => x as u8,
        _ => 0,
    }
}

/// The bits that field `f`, holding `v`, sets in register `r` of the block.
pub open spec fn contribution(f: FieldSpec, v: FieldValue, r: int) -> u16 {
    if !covers(f, r) {
        0
    } else {
        match f.packing {
            Packing::Register => value_words(v, f.endian)[r - f.address],
            Packing::Bit(b) => if bool_of(v) { 1u16 << b } else { 0 },
            Packing::HighByte => (byte_of(v) as u16) << 8u16,
            Packing::LowByte => byte_of(v) as u16,
        }
    }
}

/// Register `r` as set by the first `k` fields: the bitwise or of their contributions.
pub open spec fn register_word(
    fields: Seq<FieldSpec>,
    values: Seq<FieldValue>,
    r: int,
    k: nat,
) -> u16
    decreases k,
{
    if k == 0 {
        0
    } else {
        register_word(fields, values, r, (k - 1) as nat) | contribution(
            fields[k - 1],
            values[k - 1],
            r,
        )
    }
}

/// The register block of `total` registers that holds `values` in the fields of a layout.
pub open spec fn encoded(fields: Seq<FieldSpec>, values: Seq<FieldValue>, total: nat) -> Seq<u16> {
    Seq::new(total, |r: int| register_word(fields, values, r, fields.len()))
}

/// The value of type `ty` held by whole registers `words` in the given word order.
/// A `bool` is any non-zero register, a `u8`/`i8` the low byte.
pub open spec fn value_from_words(ty: FieldType, endian: Endianness, words: Seq<u16>) -> FieldValue {
    match ty {
        FieldType::Bool => FieldValue::Bool(words[0] != 0),
        FieldType::U8 => FieldValue::U8(words[0] as u8),
        FieldType::I8 => FieldValue::I8(words[0] as i8),
        FieldType::U16 => FieldValue::U16(words[0]),
        FieldType::I16 => FieldValue::I16(words[0] as i16),
        FieldType::U32 => FieldValue::U32(value32(words, endian)),
        FieldType::I32 => FieldValue::I32(value32(words, endian) as i32),
        FieldType::U64 => FieldValue::U64(value64(words, endian)),
        FieldType::I64 => FieldValue::I64(value64(words, endian) as i64),
        FieldType::F32 => FieldValue::F32(value32(words, endian)),
        FieldType::F64 => FieldValue::F64(value64(words, endian)),
    }
}

/// A byte read as a `u8` or an `i8` field value.
pub open spec fn byte_value(ty: FieldType, byte: u8) -> FieldValue {
    if ty is I8 {
        FieldValue::I8(byte as i8)
    } else {
        FieldValue::U8(byte)
    }
}

/// The value of field `f` read from the register block `regs`.
pub open spec fn decode_field(f: FieldSpec, regs: Seq<u16>) -> FieldValue {
    match f.packing {
        Packing::Register => value_from_words(
            f.ty,
            f.endian,
            regs.subrange(f.address as int, f.address + type_register_count(f.ty)),
        ),
        Packing::Bit(b) => FieldValue::Bool((regs[f.address as int] >> b) & 1u16 != 0),
        Packing::HighByte => byte_value(f.ty, (regs[f.address as int] >> 8u16) as u8),
        Packing::LowByte => byte_value(f.ty, regs[f.address as int] as u8),
    }
}

/// The values of all fields read from the register block `regs`.
pub open spec fn decoded(fields: Seq<FieldSpec>, regs: Seq<u16>) -> Seq<FieldValue> {
    Seq::new(fields.len(), |i: int| decode_field(fields[i], regs))
}


/// One past the last register a field occupies.
pub open spec fn end_of(f: FieldSpec) -> int {
    f.address + span(f)
}

/// One past the last register any of the fields occupies; 0 for no fields.
pub open spec fn max_end(fields: Seq<FieldSpec>) -> int
    decreases fields.len(),
{
    if fields.len() == 0 {
        0
    } else {
        let m = max_end(fields.drop_last());
        if end_of(fields.last()) > m {
            end_of(fields.last())
        } else {
            m
        }
    }
}

/// Whether every field ends within the 16-bit register address space.
pub open spec fn fits_addresses(fields: Seq<FieldSpec>) -> bool {
    forall|i: int| 0 <= i < fields.len() ==> end_of(#[trigger] fields[i]) <= u16::MAX
}

/// Whether field `k` is the first field that ends beyond the 16-bit register address space.
pub open spec fn first_overflow(fields: Seq<FieldSpec>, k: int) -> bool {
    &&& 0 <= k < fields.len()
    &&& end_of(fields[k]) > u16::MAX
    &&& forall|j: int| 0 <= j < k ==> end_of(#[trigger] fields[j]) <= u16::MAX
}

/// Whether every two fields can stand in one block.
pub open spec fn pairwise_compatible(fields: Seq<FieldSpec>) -> bool {
    forall|i: int, j: int|
        #![trigger fields[i], fields[j]]
        0 <= i < j < fields.len() ==> compatible(fields[i], fields[j])
}

/// Whether the pair of field indices `(i, j)` is the first pair, in lexicographic
/// order with `i < j`, of fields that overlap.
pub open spec fn first_overlap(fields: Seq<FieldSpec>, i: int, j: int) -> bool {
    &&& 0 <= i < j < fields.len()
    &&& !compatible(fields[i], fields[j])
    &&& forall|a: int, b: int|
        #![trigger fields[a], fields[b]]
        0 <= a < b < fields.len() && (a < i || (a == i && b < j)) ==> compatible(
            fields[a],
            fields[b],
        )
}

/// Whether `r` is the lowest register of a block of `total` registers that no field holds.
pub open spec fn first_gap(fields: Seq<FieldSpec>, total: int, r: int) -> bool {
    &&& 0 <= r < total
    &&& !covered(fields, r)
    &&& forall|q: int| 0 <= q < r ==> #[trigger] covered(fields, q)
}

/// Whether placed fields form a gap-free block, starting at register 0, that
/// fits the 16-bit register address space.
pub open spec fn layout_fits(fields: Seq<FieldSpec>) -> bool {
    &&& fits_addresses(fields)
    &&& layout_wf(fields, max_end(fields) as nat)
}

/// A reason why a list of placed fields does not form a valid register block.
#[derive(Debug, Clone, Copy, PartialEq, Eq, Structural)]
pub enum LayoutIssue {
    /// The field at this index ends beyond the 16-bit register address space.
    AddressOverflow(usize),
    /// The fields at these two indices overlap.
    Overlap(usize, usize),
    /// No field holds this register of the block.
    Gap(u16),
}

/// Number of registers a field occupies.
pub fn field_span(f: FieldSpec) -> (n: u16)
    ensures
        n == span(f),
{
    match f.packing {
        Packing::Register => f.ty.register_count(),
        _ => 1,
    }
}

/// Whether two fields can stand in one block.
pub fn fields_compatible(f: FieldSpec, g: FieldSpec) -> (ok: bool)
    ensures
        ok == compatible(f, g),
{
    let f_end = f.address as u32 + field_span(f) as u32;
    let g_end = g.address as u32 + field_span(g) as u32;
    if f_end <= g.address as u32 || g_end <= f.address as u32 {
        return true;
    }
    if f.address != g.address {
        return false;
    }
    match (f.packing, g.packing) {
        (Packing::Bit(a), Packing::Bit(b)) => a != b,
        (Packing::HighByte, Packing::LowByte) => true,
        (Packing::LowByte, Packing::HighByte) => true,
        (Packing::Bit(a), Packing::HighByte) => a < 8,
        (Packing::HighByte, Packing::Bit(b)) => b < 8,
        (Packing::Bit(a), Packing::LowByte) => a >= 8,
        (Packing::LowByte, Packing::Bit(b)) => b >= 8,
        _ => false,
    }
}

/// Whether some field holds register `r`.
fn register_covered(fields: &[FieldSpec], r: u32) -> (c: bool)
    ensures
        c == covered(fields@, r as int),
{
    let n = fields.len();
    let mut k: usize = 0;
    while k < n
        invariant
            n == fields@.len(),
            k <= n,
            forall|j: int| 0 <= j < k ==> !covers(#[trigger] fields@[j], r as int),
        decreases n - k,
    {
        let f = fields[k];
        if f.address as u32 <= r && r < f.address as u32 + field_span(f) as u32 {
            assert(covers(fields@[k as int], r as int));
            return true;
        }
        k += 1;
    }
    false
}

proof fn lemma_max_end_bound(fields: Seq<FieldSpec>, i: int)
    requires
        0 <= i < fields.len(),
    ensures
        end_of(fields[i]) <= max_end(fields),
    decreases fields.len(),
{
    if i < fields.len() - 1 {
        lemma_max_end_bound(fields.drop_last(), i);
    }
}

/// Check that placed fields form a gap-free block starting at register 0, and
/// return its register count.
///
/// Reports the first field that ends beyond the 16-bit address space, else the
/// first pair of overlapping fields, else the lowest register no field holds.
pub fn check_layout(fields: &[FieldSpec]) -> (res: Result<u16, LayoutIssue>)
    requires
        forall|i: int| 0 <= i < fields@.len() ==> packing_fits(#[trigger] fields@[i]),
    ensures
        res is Ok <==> layout_fits(fields@),
        res matches Ok(total) ==> total == max_end(fields@) && layout_wf(fields@, total as nat),
        res matches Err(LayoutIssue::AddressOverflow(k)) ==> first_overflow(fields@, k as int),
        res matches Err(LayoutIssue::Overlap(i, j)) ==> fits_addresses(fields@) && first_overlap(
            fields@,
            i as int,
            j as int,
        ),
        res matches Err(LayoutIssue::Gap(r)) ==> fits_addresses(fields@) && pairwise_compatible(
            fields@,
        ) && first_gap(fields@, max_end(fields@), r as int),
{
    let ghost fs = fields@;
    let n = fields.len();
    let mut total: u32 = 0;
    let mut k: usize = 0;
    while k < n
        invariant
            fs == fields@,
            n == fs.len(),
            k <= n,
            total == max_end(fs.take(k as int)),
            total <= u16::MAX,
            forall|j: int| 0 <= j < k ==> end_of(#[trigger] fs[j]) <= u16::MAX,
        decreases n - k,
    {
        let end = fields[k].address as u32 + field_span(fields[k]) as u32;
        if end > 65535 {
            proof {
                assert(end_of(fs[k as int]) > u16::MAX);
            }
            return Err(LayoutIssue::AddressOverflow(k));
        }
        proof {
            assert(fs.take(k + 1).drop_last() =~= fs.take(k as int));
            assert(fs.take(k + 1).last() == fs[k as int]);
        }
        if end > total {
            total = end;
        }
        k += 1;
    }
    proof {
        assert(fs.take(n as int) =~= fs);
    }
    let mut i: usize = 0;
    while i < n
        invariant
            fs == fields@,
            n == fs.len(),
            i <= n,
            fits_addresses(fs),
            forall|a: int, b: int|
                #![trigger fs[a], fs[b]]
                0 <= a < b < n && a < i ==> compatible(fs[a], fs[b]),
        decreases n - i,
    {
        let mut j: usize = i + 1;
        while j < n
            invariant
                fs == fields@,
                n == fs.len(),
                i < n,
                i + 1 <= j <= n,
                fits_addresses(fs),
                forall|a: int, b: int|
                    #![trigger fs[a], fs[b]]
                    0 <= a < b < n && (a < i || (a == i && b < j)) ==> compatible(fs[a], fs[b]),
            decreases n - j,
        {
            if !fields_compatible(fields[i], fields[j]) {
                proof {
                    assert(!compatible(fs[i as int], fs[j as int]));
                }
                return Err(LayoutIssue::Overlap(i, j));
            }
            j += 1;
        }
        i += 1;
    }
    let mut r: u32 = 0;
    while r < total
        invariant
            fs == fields@,
            total == max_end(fs),
            total <= u16::MAX,
            r <= total,
            fits_addresses(fs),
            pairwise_compatible(fs),
            forall|q: int| 0 <= q < r ==> #[trigger] covered(fs, q),
        decreases total - r,
    {
        if !register_covered(fields, r) {
            proof {
                assert(!covered(fs, r as int));
            }
            return Err(LayoutIssue::Gap(r as u16));
        }
        r += 1;
    }
    proof {
        assert forall|a: int| 0 <= a < fs.len() implies packing_fits(#[trigger] fs[a]) && fs[a].address
            + span(fs[a]) <= total by {
            lemma_max_end_bound(fs, a);
        }
        assert forall|a: int, b: int|
            #![trigger fs[a], fs[b]]
            0 <= a < fs.len() && 0 <= b < fs.len() && a != b implies compatible(fs[a], fs[b]) by {
            if b < a {
                assert(compatible(fs[b], fs[a]));
            }
        }
    }
    Ok(total as u16)
}


proof fn lemma_max_end_at_most(fields: Seq<FieldSpec>, t: int)
    requires
        t >= 0,
        forall|i: int| 0 <= i < fields.len() ==> end_of(#[trigger] fields[i]) <= t,
    ensures
        0 <= max_end(fields) <= t,
    decreases fields.len(),
{
    if fields.len() > 0 {
        assert forall|i: int| 0 <= i < fields.drop_last().len() implies end_of(
            #[trigger] fields.drop_last()[i],
        ) <= t by {
            assert(fields.drop_last()[i] == fields[i]);
        }
        lemma_max_end_at_most(fields.drop_last(), t);
        assert(end_of(fields[fields.len() - 1]) <= t);
    }
}

/// A well-formed layout's register count is one past the last register any
/// field occupies: the block has no trailing registers that hold no field.
pub proof fn lemma_register_count_is_max_end(fields: Seq<FieldSpec>, total: nat)
    requires
        layout_wf(fields, total),
    ensures
        total == max_end(fields),
{
    assert forall|i: int| 0 <= i < fields.len() implies end_of(#[trigger] fields[i]) <= total by {
        assert(packing_fits(fields[i]));
    }
    lemma_max_end_at_most(fields, total as int);
    if total > 0 {
        assert(covered(fields, total - 1));
        let i = choose|i: int| 0 <= i < fields.len() && #[trigger] covers(fields[i], total - 1);
        lemma_max_end_bound(fields, i);
    }
}

/// Whether a field's packing suits its type.
pub fn field_packing_fits(f: FieldSpec) -> (ok: bool)
    ensures
        ok == packing_fits(f),
{
    match f.packing {
        Packing::Register => true,
        Packing::Bit(b) => f.ty == FieldType::Bool && b < 16,
        Packing::HighByte | Packing::LowByte => f.ty == FieldType::U8 || f.ty == FieldType::I8,
    }
}

impl Layout {
    /// Whether the layout keeps its invariant: one name per field, and the
    /// fields form a gap-free block of `register_count` registers.
    pub fn is_well_formed(&self) -> (ok: bool)
        ensures
            ok == self.wf(),
    {
        if self.field_names.len() != self.fields.len() {
            return false;
        }
        let n = self.fields.len();
        let mut i: usize = 0;
        while i < n
            invariant
                n == self.fields@.len(),
                i <= n,
                forall|j: int| 0 <= j < i ==> packing_fits(#[trigger] self.fields@[j]),
            decreases n - i,
        {
            if !field_packing_fits(self.fields[i]) {
                assert(!packing_fits(self.fields@[i as int]));
                return false;
            }
            i += 1;
        }
        match check_layout(self.fields.as_slice()) {
            Ok(total) => {
                if total != self.register_count {
                    proof {
                        if self.wf() {
                            lemma_register_count_is_max_end(self.fields@, self.register_count as nat);
                        }
                    }
                    return false;
                }
                true
            },
            Err(_) => {
                proof {
                    if self.wf() {
                        let fs = self.fields@;
                        lemma_register_count_is_max_end(fs, self.register_count as nat);
                        assert forall|a: int| 0 <= a < fs.len() implies end_of(#[trigger] fs[a])
                            <= u16::MAX by {
                            assert(packing_fits(fs[a]));
                        }
                        assert(layout_fits(fs));
                    }
                }
                false
            },
        }
    }
}


/// The registers field `f` holds.
pub open spec fn held(f: FieldSpec) -> Set<int> {
    set_int_range(f.address as int, end_of(f))
}

/// The registers some of the fields hold.
pub open spec fn held_by(fields: Seq<FieldSpec>) -> Set<int>
    decreases fields.len(),
{
    if fields.len() == 0 {
        Set::empty()
    } else {
        held_by(fields.drop_last()) + held(fields.last())
    }
}

/// The sum of the registers each field takes.
pub open spec fn total_span(fields: Seq<FieldSpec>) -> nat
    decreases fields.len(),
{
    if fields.len() == 0 {
        0
    } else {
        total_span(fields.drop_last()) + span(fields.last())
    }
}

proof fn lemma_held_by_covered(fields: Seq<FieldSpec>)
    ensures
        held_by(fields).finite(),
        forall|r: int| held_by(fields).contains(r) <==> covered(fields, r),
    decreases fields.len(),
{
    if fields.len() > 0 {
        let init = fields.drop_last();
        let last = fields.last();
        lemma_held_by_covered(init);
        lemma_int_range(last.address as int, end_of(last));
        assert forall|r: int| held_by(fields).contains(r) <==> covered(fields, r) by {
            assert(held_by(fields).contains(r) == (held_by(init).contains(r) || held(
                last,
            ).contains(r)));
            assert(held(last).contains(r) == covers(last, r));
            if covered(init, r) {
                let i = choose|i: int| 0 <= i < init.len() && #[trigger] covers(init[i], r);
                assert(init[i] == fields[i]);
                assert(covers(fields[i], r));
            }
            if covers(last, r) {
                assert(covers(fields[fields.len() - 1], r));
            }
            if covered(fields, r) {
                let i = choose|i: int| 0 <= i < fields.len() && #[trigger] covers(fields[i], r);
                if i < fields.len() - 1 {
                    assert(init[i] == fields[i]);
                    assert(covers(init[i], r));
                }
            }
        }
    }
}

proof fn lemma_held_by_len(fields: Seq<FieldSpec>)
    requires
        forall|i: int, j: int|
            #![trigger fields[i], fields[j]]
            0 <= i < fields.len() && 0 <= j < fields.len() && i != j ==> end_of(fields[i])
                <= fields[j].address || end_of(fields[j]) <= fields[i].address,
    ensures
        held_by(fields).len() == total_span(fields),
    decreases fields.len(),
{
    if fields.len() > 0 {
        let init = fields.drop_last();
        let last = fields.last();
        assert forall|i: int, j: int|
            #![trigger init[i], init[j]]
            0 <= i < init.len() && 0 <= j < init.len() && i != j implies end_of(init[i])
            <= init[j].address || end_of(init[j]) <= init[i].address by {
            assert(init[i] == fields[i] && init[j] == fields[j]);
        }
        lemma_held_by_len(init);
        lemma_held_by_covered(init);
        lemma_int_range(last.address as int, end_of(last));
        assert(held_by(init).disjoint(held(last))) by {
            assert forall|r: int| held_by(init).contains(r) implies !held(last).contains(r) by {
                assert(covered(init, r));
                let i = choose|i: int| 0 <= i < init.len() && #[trigger] covers(init[i], r);
                assert(fields[i] == init[i]);
                assert(end_of(fields[i]) <= fields[fields.len() - 1].address || end_of(
                    fields[fields.len() - 1],
                ) <= fields[i].address);
            }
        }
        lemma_set_disjoint_lens(held_by(init), held(last));
    }
}

/// A well-formed layout whose fields are all unpacked has exactly as many
/// registers as its fields take together.
pub proof fn lemma_unpacked_register_count(fields: Seq<FieldSpec>, total: nat)
    requires
        layout_wf(fields, total),
        forall|i: int| 0 <= i < fields.len() ==> (#[trigger] fields[i]).packing is Register,
    ensures
        total == total_span(fields),
{
    assert forall|i: int, j: int|
        #![trigger fields[i], fields[j]]
        0 <= i < fields.len() && 0 <= j < fields.len() && i != j implies end_of(fields[i])
        <= fields[j].address || end_of(fields[j]) <= fields[i].address by {
        assert(compatible(fields[i], fields[j]));
    }
    lemma_held_by_len(fields);
    lemma_held_by_covered(fields);
    lemma_int_range(0, total as int);
    assert forall|r: int| held_by(fields).contains(r) <==> set_int_range(0, total as int).contains(r) by {
        if covered(fields, r) {
            let i = choose|i: int| 0 <= i < fields.len() && #[trigger] covers(fields[i], r);
            assert(packing_fits(fields[i]));
        }
    }
    assert(held_by(fields) =~= set_int_range(0, total as int));
}


/// The bits of its register that a field occupies: all of them when unpacked,
/// bit `b` for `Bit(b)`, bits 8-15 for the high byte, bits 0-7 for the low byte.
pub open spec fn packing_mask(p: Packing) -> u16 {
    match p {
        Packing::Register => 0xffffu16,
        Packing::Bit(b) => 1u16 << b,
        Packing::HighByte => 0xff00u16,
        Packing::LowByte => 0x00ffu16,
    }
}

/// Two fields that start at the same register can stand in one block exactly
/// when the bits of the register they occupy are disjoint.
pub proof fn lemma_same_register_compatible(f: FieldSpec, g: FieldSpec)
    requires
        packing_fits(f),
        packing_fits(g),
        f.address == g.address,
    ensures
        compatible(f, g) <==> packing_mask(f.packing) & packing_mask(g.packing) == 0,
{
    assert(span(f) >= 1 && span(g) >= 1);
    match (f.packing, g.packing) {
        (Packing::Bit(a), Packing::Bit(b)) => {
            assert(((1u16 << a) & (1u16 << b) == 0) <==> a != b) by (bit_vector)
                requires
                    a < 16,
                    b < 16,
            ;
        },
        (Packing::Bit(a), _) => {
            assert(((1u16 << a) & 0xff00u16 == 0) <==> a < 8) by (bit_vector)
                requires
                    a < 16,
            ;
            assert(((1u16 << a) & 0x00ffu16 == 0) <==> a >= 8) by (bit_vector)
                requires
                    a < 16,
            ;
            assert((1u16 << a) & 0xffffu16 != 0) by (bit_vector)
                requires
                    a < 16,
            ;
        },
        (_, Packing::Bit(b)) => {
            assert((0xff00u16 & (1u16 << b) == 0) <==> b < 8) by (bit_vector)
                requires
                    b < 16,
            ;
            assert((0x00ffu16 & (1u16 << b) == 0) <==> b >= 8) by (bit_vector)
                requires
                    b < 16,
            ;
            assert(0xffffu16 & (1u16 << b) != 0) by (bit_vector)
                requires
                    b < 16,
            ;
        },
        _ => {
            assert(0xff00u16 & 0x00ffu16 == 0 && 0x00ffu16 & 0xff00u16 == 0 && 0xff00u16 & 0xff00u16
                != 0 && 0x00ffu16 & 0x00ffu16 != 0 && 0xffffu16 & 0xffffu16 != 0 && 0xffffu16
                & 0xff00u16 != 0 && 0xffffu16 & 0x00ffu16 != 0 && 0xff00u16 & 0xffffu16 != 0
                && 0x00ffu16 & 0xffffu16 != 0) by (bit_vector);
        },
    }
}

} // verus!
