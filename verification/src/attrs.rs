//! The mapping options of a record, their validation, and the layout they describe.
//!
//! A record's options give, for the record, the base address of its block, its
//! register type and default word order, and, for each field, its name, type,
//! offset in the block, word order, packing, and whether it is skipped. A valid
//! set of options describes a [`Layout`]: its mapped fields form a gap-free
//! block of registers that starts at offset 0.

use vstd::prelude::*;

use crate::endian::Endianness;
use crate::layout::{
    check_layout, fits_addresses, layout_fits, first_gap, first_overflow, first_overlap, max_end,
    packing_fits, pairwise_compatible, type_named, FieldSpec, FieldType, Layout, LayoutIssue,
    Packing,
};
use crate::text::same_text;
use crate::RegisterType;

verus! {

/// Field-level mapping options.
#[derive(Debug)]
pub struct ModbusFieldOpts {
    /// The field's name.
    pub ident: Option<String>,
    /// The name of the field's type (the last segment of its path).
    pub ty: String,
    /// Offset of the field within the block (required unless skipped).
    pub address: Option<u16>,
    /// Word order for this field: `"big"` or `"little"`.
    pub endian: Option<String>,
    /// Bit position (0-15) of a `bool` packed into the register at `address`.
    pub bit: Option<u8>,
    /// Byte of the register at `address` that holds a packed `u8`/`i8`: `"high"` or `"low"`.
    pub offset: Option<String>,
    /// Exclude this field from the mapping.
    pub skip: bool,
    /// Read-only field.
    pub readonly: bool,
    /// Write-only field.
    pub writeonly: bool,
}

/// Struct-level mapping options.
#[derive(Debug)]
pub struct ModbusMapperOpts {
    /// The struct's name.
    pub ident: String,
    /// The struct's fields, in declaration order.
    pub fields: Vec<ModbusFieldOpts>,
    /// Absolute wire address of the block (default 0).
    pub base_address: Option<u16>,
    /// Register type: `"holding"` or `"input"` (default `"holding"`).
    pub register_type: Option<String>,
    /// Default word order: `"big"` or `"little"` (default `"big"`).
    pub default_endian: Option<String>,
}

/// The rule that a set of mapping options breaks.
#[derive(Debug, Clone, Copy, PartialEq, Eq, Structural)]
pub enum AttrRule {
    /// `register_type` is none of `holding`, `input`, `coil`, `discrete`.
    InvalidRegisterType,
    /// `register_type` is `coil` or `discrete`, which are not supported yet.
    UnsupportedRegisterType,
    /// `default_endian` is neither `big` nor `little`.
    InvalidDefaultEndian,
    /// A field that is not skipped has no `address`.
    MissingAddress,
    /// A field's `endian` is neither `big` nor `little`.
    InvalidEndian,
    /// A field is both `readonly` and `writeonly`.
    ReadonlyAndWriteonly,
    /// A field's type is not a supported primitive.
    UnsupportedType,
    /// A field has both `bit` and `offset`.
    BitAndOffset,
    /// A field that is not a `bool` has `bit`.
    BitOnNonBool,
    /// A field's `bit` is above 15.
    BitOutOfRange,
    /// A field's `offset` is neither `high` nor `low`.
    InvalidOffset,
    /// A field that is not a `u8`/`i8` has `offset`.
    OffsetOnNonByte,
    /// A field ends beyond the 16-bit register address space.
    AddressOverflow,
    /// Two fields overlap.
    Overlap,
    /// A register of the block holds no field.
    Gap,
}

/// A broken rule, with where it was broken.
#[derive(Debug)]
pub struct AttrError {
    /// The rule that was broken.
    pub rule: AttrRule,
    /// The struct's name for a struct-level rule, else the (first) field's name.
    pub item: String,
    /// The offending attribute value (register type, word order, type name or
    /// offset), or the second field of an overlap; empty otherwise.
    pub detail: String,
    /// The offending bit position, or the offset of the register that holds no field; 0 otherwise.
    pub position: u16,
}

/// The text of an optional attribute, or a default.
pub open spec fn text_or(t: Option<String>, default: Seq<char>) -> Seq<char> {
    match t {
        Some(s) => s@,
        None => default,
    }
}

/// The word order an attribute value names.
pub open spec fn endian_named(s: Seq<char>) -> Option<Endianness> {
    if s == "big"@ {
        Some(Endianness::Big)
    } else if s == "little"@ {
        Some(Endianness::Little)
    } else {
        None
    }
}

/// The register type an attribute value names.
pub open spec fn register_type_named(s: Seq<char>) -> Option<RegisterType> {
    if s == "holding"@ {
        Some(RegisterType::Holding)
    } else if s == "input"@ {
        Some(RegisterType::Input)
    } else if s == "coil"@ {
        Some(RegisterType::Coil)
    } else if s == "discrete"@ {
        Some(RegisterType::Discrete)
    } else {
        None
    }
}

/// The register type text of a struct, `holding` by default.
pub open spec fn register_type_text(opts: ModbusMapperOpts) -> Seq<char> {
    text_or(opts.register_type, "holding"@)
}

/// The default word order text of a struct, `big` by default.
pub open spec fn default_endian_text(opts: ModbusMapperOpts) -> Seq<char> {
    text_or(opts.default_endian, "big"@)
}

/// The first struct-level rule the options break: the register type must be
/// `holding` or `input`, and the default word order `big` or `little`.
pub open spec fn struct_rule(opts: ModbusMapperOpts) -> Option<AttrRule> {
    match register_type_named(register_type_text(opts)) {
        None => Some(AttrRule::InvalidRegisterType),
        Some(RegisterType::Coil) | Some(RegisterType::Discrete) => Some(
            AttrRule::UnsupportedRegisterType,
        ),
        _ => if endian_named(default_endian_text(opts)) is None {
            Some(AttrRule::InvalidDefaultEndian)
        } else {
            None
        },
    }
}

/// The offending value reported for a broken struct-level rule.
pub open spec fn struct_detail(opts: ModbusMapperOpts, rule: AttrRule) -> Seq<char> {
    match rule {
        AttrRule::InvalidDefaultEndian => default_endian_text(opts),
        _ => register_type_text(opts),
    }
}

/// A field's name, `unknown` if it has none.
pub open spec fn field_name(f: ModbusFieldOpts) -> Seq<char> {
    text_or(f.ident, "unknown"@)
}

/// Whether a field's type is `u8` or `i8`.
pub open spec fn is_byte_type(f: ModbusFieldOpts) -> bool {
    type_named(f.ty@) == Some(FieldType::U8) || type_named(f.ty@) == Some(FieldType::I8)
}

/// The first attribute rule a field breaks: a mapped field needs an address,
/// a word order of `big` or `little` if it has one, and cannot be both
/// read-only and write-only. A skipped field breaks none.
pub open spec fn attr_rule(f: ModbusFieldOpts) -> Option<AttrRule> {
    if f.skip {
        None
    } else if f.address is None {
        Some(AttrRule::MissingAddress)
    } else if f.endian is Some && endian_named(f.endian->0@) is None {
        Some(AttrRule::InvalidEndian)
    } else if f.readonly && f.writeonly {
        Some(AttrRule::ReadonlyAndWriteonly)
    } else {
        None
    }
}

/// The first type or packing rule a field breaks: a mapped field has a
/// supported type, not both `bit` and `offset`, a `bit` only on a `bool` and
/// at most 15, an `offset` only `high` or `low` and only on a `u8`/`i8`. A
/// skipped field breaks none.
pub open spec fn kind_rule(f: ModbusFieldOpts) -> Option<AttrRule> {
    if f.skip {
        None
    } else if type_named(f.ty@) is None {
        Some(AttrRule::UnsupportedType)
    } else if f.bit is Some && f.offset is Some {
        Some(AttrRule::BitAndOffset)
    } else if f.bit is Some && type_named(f.ty@) != Some(FieldType::Bool) {
        Some(AttrRule::BitOnNonBool)
    } else if f.bit is Some && f.bit->0 > 15 {
        Some(AttrRule::BitOutOfRange)
    } else if f.offset is Some && !(f.offset->0@ == "high"@ || f.offset->0@ == "low"@) {
        Some(AttrRule::InvalidOffset)
    } else if f.offset is Some && !is_byte_type(f) {
        Some(AttrRule::OffsetOnNonByte)
    } else {
        None
    }
}

/// The first field-level rule a field breaks: its attribute rules first, then
/// its type and packing rules.
pub open spec fn field_rule(f: ModbusFieldOpts) -> Option<AttrRule> {
    if attr_rule(f) is Some {
        attr_rule(f)
    } else {
        kind_rule(f)
    }
}

/// The offending value reported for a broken field-level rule.
pub open spec fn field_detail(f: ModbusFieldOpts, rule: AttrRule) -> Seq<char> {
    match rule {
        AttrRule::InvalidEndian => f.endian->0@,
        AttrRule::UnsupportedType => f.ty@,
        AttrRule::InvalidOffset => f.offset->0@,
        _ => Seq::empty(),
    }
}

/// The offending position reported for a broken field-level rule.
pub open spec fn field_position(f: ModbusFieldOpts, rule: AttrRule) -> u16 {
    match rule {
        AttrRule::BitOutOfRange => f.bit->0 as u16,
        _ => 0,
    }
}

/// Whether an error reports exactly the given rule, item, detail and position.
pub open spec fn reports(
    e: AttrError,
    rule: AttrRule,
    item: Seq<char>,
    detail: Seq<char>,
    position: u16,
) -> bool {
    &&& e.rule == rule
    &&& e.item@ == item
    &&& e.detail@ == detail
    &&& e.position == position
}

/// Whether an error reports that field `f` breaks `rule`.
pub open spec fn reports_rule(e: AttrError, f: ModbusFieldOpts, rule: AttrRule) -> bool {
    reports(e, rule, field_name(f), field_detail(f, rule), field_position(f, rule))
}

/// The fields that are not skipped, in declaration order.
pub open spec fn mapped_fields(fields: Seq<ModbusFieldOpts>) -> Seq<ModbusFieldOpts>
    decreases fields.len(),
{
    if fields.len() == 0 {
        Seq::empty()
    } else {
        let m = mapped_fields(fields.drop_last());
        if fields.last().skip {
            m
        } else {
            m.push(fields.last())
        }
    }
}

/// The placement that a valid field's options describe.
pub open spec fn spec_of(f: ModbusFieldOpts, default_endian: Endianness) -> FieldSpec {
    FieldSpec {
        ty: type_named(f.ty@)->0,
        address: f.address->0,
        endian: match f.endian {
            Some(e) => endian_named(e@)->0,
            None => default_endian,
        },
        packing: match f.bit {
            Some(b) => Packing::Bit(b),
            None => match f.offset {
                Some(o) => if o@ == "high"@ {
                    Packing::HighByte
                } else {
                    Packing::LowByte
                },
                None => Packing::Register,
            },
        },
    }
}

/// The placements of the mapped fields of valid options.
pub open spec fn mapped_specs(opts: ModbusMapperOpts) -> Seq<FieldSpec> {
    let de = endian_named(default_endian_text(opts))->0;
    mapped_fields(opts.fields@).map_values(|f: ModbusFieldOpts| spec_of(f, de))
}

/// Whether field `i` is the first field that breaks an attribute rule.
pub open spec fn first_attr_error(fields: Seq<ModbusFieldOpts>, i: int) -> bool {
    &&& 0 <= i < fields.len()
    &&& attr_rule(fields[i]) is Some
    &&& forall|j: int| 0 <= j < i ==> attr_rule(#[trigger] fields[j]) is None
}

/// Whether every field keeps the attribute rules.
pub open spec fn attrs_valid(fields: Seq<ModbusFieldOpts>) -> bool {
    forall|j: int| 0 <= j < fields.len() ==> attr_rule(#[trigger] fields[j]) is None
}

/// Whether field `i` is the first field that breaks a type or packing rule.
pub open spec fn first_kind_error(fields: Seq<ModbusFieldOpts>, i: int) -> bool {
    &&& 0 <= i < fields.len()
    &&& kind_rule(fields[i]) is Some
    &&& forall|j: int| 0 <= j < i ==> kind_rule(#[trigger] fields[j]) is None
}

/// Whether every field keeps the field-level rules.
pub open spec fn fields_valid(fields: Seq<ModbusFieldOpts>) -> bool {
    forall|j: int| 0 <= j < fields.len() ==> field_rule(#[trigger] fields[j]) is None
}

/// What building the layout of options that keep the struct- and field-level
/// rules gives: the layout of the mapped fields if they form a gap-free block,
/// else the first field that overflows the address space, the first pair of
/// overlapping fields, or the lowest register that holds no field.
pub open spec fn layout_outcome(opts: ModbusMapperOpts, res: Result<Layout, AttrError>) -> bool {
    let specs = mapped_specs(opts);
    let mapped = mapped_fields(opts.fields@);
    match res {
        Ok(l) => {
            &&& l.wf()
            &&& l.fields@ == specs
            &&& l.field_names@.len() == mapped.len()
            &&& forall|k: int|
                0 <= k < mapped.len() ==> (#[trigger] l.field_names@[k])@ == field_name(mapped[k])
            &&& l.base_address == match opts.base_address {
                Some(a) => a,
                None => 0u16,
            }
            &&& l.register_type == register_type_named(register_type_text(opts))->0
            &&& l.register_count == max_end(specs)
        },
        Err(e) => match e.rule {
            AttrRule::AddressOverflow => exists|k: int|
                #[trigger] first_overflow(specs, k) && reports(
                    e,
                    AttrRule::AddressOverflow,
                    field_name(mapped[k]),
                    Seq::empty(),
                    0,
                ),
            AttrRule::Overlap => fits_addresses(specs) && exists|i: int, j: int|
                #[trigger] first_overlap(specs, i, j) && reports(
                    e,
                    AttrRule::Overlap,
                    field_name(mapped[i]),
                    field_name(mapped[j]),
                    0,
                ),
            AttrRule::Gap => {
                &&& fits_addresses(specs)
                &&& pairwise_compatible(specs)
                &&& first_gap(specs, max_end(specs), e.position as int)
                &&& e.item@ == opts.ident@
                &&& e.detail@ == Seq::<char>::empty()
            },
            _ => false,
        },
    }
}

/// The word order an attribute value names.
pub fn endian_from_name(s: &str) -> (e: Option<Endianness>)
    ensures
        e == endian_named(s@),
{
    if same_text(s, "big") {
        Some(Endianness::Big)
    } else if same_text(s, "little") {
        Some(Endianness::Little)
    } else {
        None
    }
}

/// The register type an attribute value names.
pub fn register_type_from_name(s: &str) -> (t: Option<RegisterType>)
    ensures
        t == register_type_named(s@),
{
    if same_text(s, "holding") {
        Some(RegisterType::Holding)
    } else if same_text(s, "input") {
        Some(RegisterType::Input)
    } else if same_text(s, "coil") {
        Some(RegisterType::Coil)
    } else if same_text(s, "discrete") {
        Some(RegisterType::Discrete)
    } else {
        None
    }
}

fn text_or_default(t: &Option<String>, default: &str) -> (s: String)
    ensures
        s@ == text_or(*t, default@),
{
    match t {
        Some(s) => s.clone(),
        None => default.to_owned(),
    }
}

impl ModbusMapperOpts {
    /// Get the register type, defaulting to "holding" if not specified.
    pub fn get_register_type(&self) -> (s: String)
        ensures
            s@ == register_type_text(*self),
    {
        text_or_default(&self.register_type, "holding")
    }

    /// Get the default endianness, defaulting to "big" if not specified.
    pub fn get_default_endian(&self) -> (s: String)
        ensures
            s@ == default_endian_text(*self),
    {
        text_or_default(&self.default_endian, "big")
    }

    /// Get the base address, defaulting to 0 if not specified.
    pub fn get_base_address(&self) -> (a: u16)
        ensures
            a == match self.base_address {
                Some(a) => a,
                None => 0u16,
            },
    {
        match self.base_address {
            Some(a) => a,
            None => 0,
        }
    }

    /// Get all non-skipped fields.
    pub fn fields(&self) -> (mapped: Vec<&ModbusFieldOpts>)
        ensures
            mapped@.len() == mapped_fields(self.fields@).len(),
            forall|k: int|
                0 <= k < mapped@.len() ==> *(#[trigger] mapped@[k]) == mapped_fields(
                    self.fields@,
                )[k],
    {
        let ghost fs = self.fields@;
        let mut mapped: Vec<&ModbusFieldOpts> = Vec::new();
        let n = self.fields.len();
        let mut i: usize = 0;
        while i < n
            invariant
                fs == self.fields@,
                n == fs.len(),
                i <= n,
                mapped@.len() == mapped_fields(fs.take(i as int)).len(),
                forall|k: int|
                    0 <= k < mapped@.len() ==> *(#[trigger] mapped@[k]) == mapped_fields(
                        fs.take(i as int),
                    )[k],
            decreases n - i,
        {
            proof {
                assert(fs.take(i + 1).drop_last() =~= fs.take(i as int));
                assert(fs.take(i + 1).last() == fs[i as int]);
            }
            if !self.fields[i].skip {
                mapped.push(&self.fields[i]);
            }
            i += 1;
        }
        proof {
            assert(fs.take(n as int) =~= fs);
        }
        mapped
    }
}

impl ModbusFieldOpts {
    /// Get the field name as a string, `"unknown"` if the field has none.
    pub fn name(&self) -> (s: String)
        ensures
            s@ == field_name(*self),
    {
        text_or_default(&self.ident, "unknown")
    }

    /// Get the endianness for this field, using the provided default if not specified.
    pub fn get_endian(&self, default: &str) -> (s: String)
        ensures
            s@ == text_or(self.endian, default@),
    {
        text_or_default(&self.endian, default)
    }
}

/// Validate struct-level attributes: the register type must be `holding` or
/// `input`, the default word order `big` or `little`.
pub fn validate_struct_attrs(opts: &ModbusMapperOpts) -> (res: Result<(), AttrError>)
    ensures
        match struct_rule(*opts) {
            None => res is Ok,
            Some(rule) => res matches Err(e) && reports(
                e,
                rule,
                opts.ident@,
                struct_detail(*opts, rule),
                0,
            ),
        },
{
    let register_type = opts.get_register_type();
    match register_type_from_name(register_type.as_str()) {
        None => {
            return Err(
                AttrError {
                    rule: AttrRule::InvalidRegisterType,
                    item: opts.ident.clone(),
                    detail: register_type,
                    position: 0,
                },
            );
        },
        Some(RegisterType::Coil) | Some(RegisterType::Discrete) => {
            return Err(
                AttrError {
                    rule: AttrRule::UnsupportedRegisterType,
                    item: opts.ident.clone(),
                    detail: register_type,
                    position: 0,
                },
            );
        },
        _ => {},
    }
    let default_endian = opts.get_default_endian();
    if endian_from_name(default_endian.as_str()).is_none() {
        return Err(
            AttrError {
                rule: AttrRule::InvalidDefaultEndian,
                item: opts.ident.clone(),
                detail: default_endian,
                position: 0,
            },
        );
    }
    Ok(())
}

fn field_error(field: &ModbusFieldOpts, rule: AttrRule, detail: String, position: u16) -> (e: AttrError)
    ensures
        reports(e, rule, field_name(*field), detail@, position),
{
    AttrError { rule, item: field.name(), detail, position }
}

/// Validate field-level attributes: a mapped field needs an address, a word
/// order of `big` or `little` if it has one, and cannot be both read-only and
/// write-only.
pub fn validate_field_attrs(field: &ModbusFieldOpts, _default_endian: &str) -> (res: Result<
    (),
    AttrError,
>)
    ensures
        attr_rule(*field) is None ==> res is Ok,
        attr_rule(*field) matches Some(rule) ==> (res matches Err(e) && reports_rule(
            e,
            *field,
            rule,
        )),
{
    if field.skip {
        return Ok(());
    }
    if field.address.is_none() {
        return Err(field_error(field, AttrRule::MissingAddress, String::new(), 0));
    }
    if let Some(endian) = &field.endian {
        if endian_from_name(endian.as_str()).is_none() {
            return Err(field_error(field, AttrRule::InvalidEndian, endian.clone(), 0));
        }
    }
    if field.readonly && field.writeonly {
        return Err(field_error(field, AttrRule::ReadonlyAndWriteonly, String::new(), 0));
    }
    Ok(())
}

/// Validate a field's type and packing: a mapped field has a supported type,
/// and a `bit` (0-15, on a `bool`) or an `offset` (`high` or `low`, on a
/// `u8`/`i8`), not both.
pub fn validate_field_kind(field: &ModbusFieldOpts) -> (res: Result<(), AttrError>)
    ensures
        kind_rule(*field) is None ==> res is Ok,
        kind_rule(*field) matches Some(rule) ==> (res matches Err(e) && reports_rule(
            e,
            *field,
            rule,
        )),
{
    if field.skip {
        return Ok(());
    }
    let ty = match FieldType::from_name(field.ty.as_str()) {
        Some(ty) => ty,
        None => {
            return Err(field_error(field, AttrRule::UnsupportedType, field.ty.clone(), 0));
        },
    };
    if field.bit.is_some() && field.offset.is_some() {
        return Err(field_error(field, AttrRule::BitAndOffset, String::new(), 0));
    }
    if let Some(bit) = field.bit {
        if ty != FieldType::Bool {
            return Err(field_error(field, AttrRule::BitOnNonBool, String::new(), 0));
        }
        if bit > 15 {
            return Err(field_error(field, AttrRule::BitOutOfRange, String::new(), bit as u16));
        }
    }
    if let Some(offset) = &field.offset {
        if !(same_text(offset.as_str(), "high") || same_text(offset.as_str(), "low")) {
            return Err(field_error(field, AttrRule::InvalidOffset, offset.clone(), 0));
        }
        if !(ty == FieldType::U8 || ty == FieldType::I8) {
            return Err(field_error(field, AttrRule::OffsetOnNonByte, String::new(), 0));
        }
    }
    Ok(())
}

/// The placement of a mapped field whose options keep the field-level rules.
fn field_spec(f: &ModbusFieldOpts, default_endian: Endianness) -> (s: FieldSpec)
    requires
        field_rule(*f) is None,
        !f.skip,
    ensures
        s == spec_of(*f, default_endian),
        packing_fits(s),
{
    let ty = match FieldType::from_name(f.ty.as_str()) {
        Some(ty) => ty,
        None => FieldType::Bool,
    };
    let address = match f.address {
        Some(a) => a,
        None => 0,
    };
    let endian = match &f.endian {
        Some(e) => match endian_from_name(e.as_str()) {
            Some(e) => e,
            None => default_endian,
        },
        None => default_endian,
    };
    let packing = match f.bit {
        Some(b) => Packing::Bit(b),
        None => match &f.offset {
            Some(o) => if same_text(o.as_str(), "high") {
                Packing::HighByte
            } else {
                Packing::LowByte
            },
            None => Packing::Register,
        },
    };
    FieldSpec { ty, address, endian, packing }
}

/// Validate a record's mapping options and build the layout they describe.
///
/// Reports, in this order: a broken struct-level rule; the first field that
/// breaks an attribute rule; the first field that breaks a type or packing
/// rule; the first mapped field that ends beyond the
/// 16-bit address space; the first pair of overlapping fields; the lowest
/// register of the block that holds no field.
pub fn derive_layout(opts: &ModbusMapperOpts) -> (res: Result<Layout, AttrError>)
    ensures
        struct_rule(*opts) matches Some(rule) ==> (res matches Err(e) && reports(
            e,
            rule,
            opts.ident@,
            struct_detail(*opts, rule),
            0,
        )),
        struct_rule(*opts) is None ==> forall|i: int|
            #[trigger] first_attr_error(opts.fields@, i) ==> (res matches Err(e) && reports_rule(
                e,
                opts.fields@[i],
                attr_rule(opts.fields@[i])->0,
            )),
        struct_rule(*opts) is None && attrs_valid(opts.fields@) ==> forall|i: int|
            #[trigger] first_kind_error(opts.fields@, i) ==> (res matches Err(e) && reports_rule(
                e,
                opts.fields@[i],
                kind_rule(opts.fields@[i])->0,
            )),
        struct_rule(*opts) is None && fields_valid(opts.fields@) ==> layout_outcome(*opts, res),
        res is Ok <==> struct_rule(*opts) is None && fields_valid(opts.fields@) && layout_fits(
            mapped_specs(*opts),
        ),
{
    match validate_struct_attrs(opts) {
        Ok(()) => {
            assert(struct_rule(*opts) is None);
        },
        Err(e) => {
            return Err(e);
        },
    }
    let default_endian_text = opts.get_default_endian();
    let default_endian = match endian_from_name(default_endian_text.as_str()) {
        Some(e) => e,
        None => Endianness::Big,
    };
    let ghost fs = opts.fields@;
    let n = opts.fields.len();
    let mut i: usize = 0;
    while i < n
        invariant
            fs == opts.fields@,
            n == fs.len(),
            i <= n,
            forall|j: int| 0 <= j < i ==> attr_rule(#[trigger] fs[j]) is None,
            struct_rule(*opts) is None,
        decreases n - i,
    {
        match validate_field_attrs(&opts.fields[i], default_endian_text.as_str()) {
            Ok(()) => {},
            Err(e) => {
                proof {
                    assert(first_attr_error(fs, i as int));
                    assert(!attrs_valid(fs));
                    assert forall|j: int| #[trigger] first_attr_error(fs, j) implies j == i by {
                        if j < i {
                            assert(attr_rule(fs[j]) is None);
                        } else if j > i {
                            assert(attr_rule(fs[i as int]) is None);
                        }
                    }
                }
                return Err(e);
            },
        }
        i += 1;
    }
    let mut i: usize = 0;
    while i < n
        invariant
            fs == opts.fields@,
            n == fs.len(),
            i <= n,
            attrs_valid(fs),
            forall|j: int| 0 <= j < i ==> kind_rule(#[trigger] fs[j]) is None,
            struct_rule(*opts) is None,
        decreases n - i,
    {
        match validate_field_kind(&opts.fields[i]) {
            Ok(()) => {},
            Err(e) => {
                proof {
                    assert(first_kind_error(fs, i as int));
                    assert(field_rule(fs[i as int]) is Some);
                    assert forall|j: int| #[trigger] first_kind_error(fs, j) implies j == i by {
                        if j < i {
                            assert(kind_rule(fs[j]) is None);
                        } else if j > i {
                            assert(kind_rule(fs[i as int]) is None);
                        }
                    }
                }
                return Err(e);
            },
        }
        i += 1;
    }
    proof {
        assert forall|j: int| 0 <= j < n implies field_rule(#[trigger] fs[j]) is None by {
            assert(attr_rule(fs[j]) is None);
            assert(kind_rule(fs[j]) is None);
        }
    }
    let ghost de = default_endian;
    let mut names: Vec<String> = Vec::new();
    let mut specs: Vec<FieldSpec> = Vec::new();
    let mut i: usize = 0;
    while i < n
        invariant
            fs == opts.fields@,
            n == fs.len(),
            i <= n,
            fields_valid(fs),
            de == default_endian,
            names@.len() == specs@.len(),
            specs@.len() == mapped_fields(fs.take(i as int)).len(),
            forall|k: int|
                0 <= k < specs@.len() ==> (#[trigger] specs@[k]) == spec_of(
                    mapped_fields(fs.take(i as int))[k],
                    de,
                ),
            forall|k: int|
                0 <= k < names@.len() ==> (#[trigger] names@[k])@ == field_name(
                    mapped_fields(fs.take(i as int))[k],
                ),
            forall|k: int| 0 <= k < specs@.len() ==> packing_fits(#[trigger] specs@[k]),
        decreases n - i,
    {
        proof {
            assert(fs.take(i + 1).drop_last() =~= fs.take(i as int));
            assert(fs.take(i + 1).last() == fs[i as int]);
            assert(field_rule(fs[i as int]) is None);
        }
        let ghost m = mapped_fields(fs.take(i as int));
        proof {
            assert(mapped_fields(fs.take(i + 1)) == if fs[i as int].skip {
                m
            } else {
                m.push(fs[i as int])
            });
        }
        let f = &opts.fields[i];
        if !f.skip {
            names.push(f.name());
            let s = field_spec(f, default_endian);
            let ghost old_specs = specs@;
            specs.push(s);
            proof {
                assert(*f == fs[i as int]);
                assert(s == spec_of(fs[i as int], de));
                assert(specs@ == old_specs.push(s));
                assert forall|k: int| 0 <= k < specs@.len() implies (#[trigger] specs@[k]) == spec_of(
                    mapped_fields(fs.take(i + 1))[k],
                    de,
                ) by {
                    if k < old_specs.len() {
                        assert(specs@[k] == old_specs[k]);
                    }
                }
            }
        }
        i += 1;
    }
    proof {
        assert(fs.take(n as int) =~= fs);
        assert(specs@ =~= mapped_specs(*opts));
    }
    let ghost mapped = mapped_fields(fs);
    match check_layout(specs.as_slice()) {
        Ok(total) => {
            let layout = Layout {
                base_address: opts.get_base_address(),
                register_type: match register_type_from_name(opts.get_register_type().as_str()) {
                    Some(t) => t,
                    None => RegisterType::Holding,
                },
                field_names: names,
                fields: specs,
                register_count: total,
            };
            Ok(layout)
        },
        Err(LayoutIssue::AddressOverflow(k)) => {
            let e = AttrError {
                rule: AttrRule::AddressOverflow,
                item: names[k].clone(),
                detail: String::new(),
                position: 0,
            };
            proof {
                assert(first_overflow(mapped_specs(*opts), k as int));
            }
            Err(e)
        },
        Err(LayoutIssue::Overlap(a, b)) => {
            let e = AttrError {
                rule: AttrRule::Overlap,
                item: names[a].clone(),
                detail: names[b].clone(),
                position: 0,
            };
            proof {
                assert(first_overlap(mapped_specs(*opts), a as int, b as int));
            }
            Err(e)
        },
        Err(LayoutIssue::Gap(r)) => {
            Err(
                AttrError {
                    rule: AttrRule::Gap,
                    item: opts.ident.clone(),
                    detail: String::new(),
                    position: r,
                },
            )
        },
    }
}


impl ModbusFieldOpts {
    /// Options of a field with the given name and type name, and no attributes.
    pub fn new(ident: &str, ty: &str) -> (f: ModbusFieldOpts)
        ensures
            f.ident matches Some(name) && name@ == ident@,
            f.ty@ == ty@,
            f.address is None,
            f.endian is None,
            f.bit is None,
            f.offset is None,
            !f.skip,
            !f.readonly,
            !f.writeonly,
    {
        ModbusFieldOpts {
            ident: Some(ident.to_owned()),
            ty: ty.to_owned(),
            address: None,
            endian: None,
            bit: None,
            offset: None,
            skip: false,
            readonly: false,
            writeonly: false,
        }
    }

    /// The same options with `address` set.
    pub fn at(self, address: u16) -> (f: ModbusFieldOpts)
        ensures
            f == (ModbusFieldOpts { address: Some(address), ..self }),
    {
        ModbusFieldOpts { address: Some(address), ..self }
    }

    /// The same options with `endian` set.
    pub fn with_endian(self, endian: &str) -> (f: ModbusFieldOpts)
        ensures
            f.endian matches Some(e) && e@ == endian@,
            f == (ModbusFieldOpts { endian: f.endian, ..self }),
    {
        ModbusFieldOpts { endian: Some(endian.to_owned()), ..self }
    }

    /// The same options with `bit` set.
    pub fn with_bit(self, bit: u8) -> (f: ModbusFieldOpts)
        ensures
            f == (ModbusFieldOpts { bit: Some(bit), ..self }),
    {
        ModbusFieldOpts { bit: Some(bit), ..self }
    }

    /// The same options with `offset` set.
    pub fn with_offset(self, offset: &str) -> (f: ModbusFieldOpts)
        ensures
            f.offset matches Some(o) && o@ == offset@,
            f == (ModbusFieldOpts { offset: f.offset, ..self }),
    {
        ModbusFieldOpts { offset: Some(offset.to_owned()), ..self }
    }

    /// The same options with `skip` set.
    pub fn skipped(self) -> (f: ModbusFieldOpts)
        ensures
            f == (ModbusFieldOpts { skip: true, ..self }),
    {
        ModbusFieldOpts { skip: true, ..self }
    }

    /// The same options with `readonly` set.
    pub fn read_only(self) -> (f: ModbusFieldOpts)
        ensures
            f == (ModbusFieldOpts { readonly: true, ..self }),
    {
        ModbusFieldOpts { readonly: true, ..self }
    }

    /// The same options with `writeonly` set.
    pub fn write_only(self) -> (f: ModbusFieldOpts)
        ensures
            f == (ModbusFieldOpts { writeonly: true, ..self }),
    {
        ModbusFieldOpts { writeonly: true, ..self }
    }
}

impl ModbusMapperOpts {
    /// Options of a struct with the given name, no fields and no attributes.
    pub fn new(ident: &str) -> (o: ModbusMapperOpts)
        ensures
            o.ident@ == ident@,
            o.fields@.len() == 0,
            o.base_address is None,
            o.register_type is None,
            o.default_endian is None,
    {
        ModbusMapperOpts {
            ident: ident.to_owned(),
            fields: Vec::new(),
            base_address: None,
            register_type: None,
            default_endian: None,
        }
    }

    /// The same options with `base_address` set.
    pub fn with_base_address(self, base_address: u16) -> (o: ModbusMapperOpts)
        ensures
            o == (ModbusMapperOpts { base_address: Some(base_address), ..self }),
    {
        ModbusMapperOpts { base_address: Some(base_address), ..self }
    }

    /// The same options with `register_type` set.
    pub fn with_register_type(self, register_type: &str) -> (o: ModbusMapperOpts)
        ensures
            o.register_type matches Some(t) && t@ == register_type@,
            o == (ModbusMapperOpts { register_type: o.register_type, ..self }),
    {
        ModbusMapperOpts { register_type: Some(register_type.to_owned()), ..self }
    }

    /// The same options with `default_endian` set.
    pub fn with_default_endian(self, default_endian: &str) -> (o: ModbusMapperOpts)
        ensures
            o.default_endian matches Some(e) && e@ == default_endian@,
            o == (ModbusMapperOpts { default_endian: o.default_endian, ..self }),
    {
        ModbusMapperOpts { default_endian: Some(default_endian.to_owned()), ..self }
    }

    /// The same options with one more field after the others.
    pub fn with_field(self, field: ModbusFieldOpts) -> (o: ModbusMapperOpts)
        ensures
            o.fields@ == self.fields@.push(field),
            o == (ModbusMapperOpts { fields: o.fields, ..self }),
    {
        let mut o = self;
        o.fields.push(field);
        o
    }
}


/// Every mapped field is a field of the options that is not skipped.
proof fn lemma_mapped_from_fields(fields: Seq<ModbusFieldOpts>)
    ensures
        forall|k: int|
            0 <= k < mapped_fields(fields).len() ==> exists|j: int|
                0 <= j < fields.len() && fields[j] == #[trigger] mapped_fields(fields)[k],
        forall|k: int| 0 <= k < mapped_fields(fields).len() ==> !(#[trigger] mapped_fields(fields)[k]).skip,
    decreases fields.len(),
{
    if fields.len() > 0 {
        let init = fields.drop_last();
        lemma_mapped_from_fields(init);
        let m = mapped_fields(init);
        assert forall|k: int| 0 <= k < mapped_fields(fields).len() implies exists|j: int|
            0 <= j < fields.len() && fields[j] == #[trigger] mapped_fields(fields)[k] by {
            if k < m.len() {
                let j = choose|j: int| 0 <= j < init.len() && init[j] == #[trigger] m[k];
                assert(fields[j] == init[j]);
            } else {
                assert(fields[fields.len() - 1] == mapped_fields(fields)[k]);
            }
        }
        assert forall|k: int| 0 <= k < mapped_fields(fields).len() implies !(
        #[trigger] mapped_fields(fields)[k]).skip by {
            if k < m.len() {
                assert(mapped_fields(fields)[k] == m[k]);
            }
        }
    }
}

/// Each mapped field of valid options is placed as its attributes say: at
/// its address, with the type its type name names, in the word order its
/// `endian` names whatever the default (else the default word order), in its
/// `bit`, in the byte its `offset` names, or in whole registers without either.
pub proof fn lemma_mapped_field_spec(opts: ModbusMapperOpts, k: int)
    requires
        struct_rule(opts) is None,
        fields_valid(opts.fields@),
        0 <= k < mapped_fields(opts.fields@).len(),
    ensures
        ({
            let f = mapped_fields(opts.fields@)[k];
            let s = mapped_specs(opts)[k];
            &&& s.address == f.address->0
            &&& Some(s.ty) == type_named(f.ty@)
            &&& f.endian matches Some(e) ==> Some(s.endian) == endian_named(e@)
            &&& f.endian is None ==> Some(s.endian) == endian_named(default_endian_text(opts))
            &&& f.bit matches Some(b) ==> s.packing == Packing::Bit(b)
            &&& f.offset is Some && f.offset->0@ == "high"@ ==> s.packing is HighByte
            &&& f.offset is Some && f.offset->0@ == "low"@ ==> s.packing is LowByte
            &&& f.bit is None && f.offset is None ==> s.packing is Register
        }),
{
    let fs = opts.fields@;
    lemma_mapped_from_fields(fs);
    let f = mapped_fields(fs)[k];
    let j = choose|j: int| 0 <= j < fs.len() && fs[j] == #[trigger] mapped_fields(fs)[k];
    assert(field_rule(fs[j]) is None);
    assert(!f.skip);
    assert(attr_rule(f) is None && kind_rule(f) is None);
    if f.offset is Some && f.offset->0@ == "low"@ {
        reveal_strlit("low");
        reveal_strlit("high");
        assert("low"@.len() != "high"@.len());
        assert(f.offset->0@ != "high"@);
    }
}

} // verus!
