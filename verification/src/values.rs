//! C values: what the builder hands out for constants, temporaries,
//! parameters, functions and globals, and how each is written as an expression.
use vstd::prelude::*;

use crate::context::extends;
use crate::text::{
    dec_is_injective, dec, dec_u64, dec_usize, decimal, hex_digits, hex_fixed, join, join_strings,
    sdec, signed_decimal, texts, Text,
};
use crate::types::TypeRef;

verus! {

/// A reference to a value in a [`ValueStore`].
#[derive(Clone, Copy, PartialEq, Eq, Structural, Debug)]
pub struct ValueRef(pub usize);

/// What a value is.
#[derive(Debug)]
pub enum CValueKind {
    NullPtr,
    Undef,
    Poison,
    BoolConst(bool),
    IntConst(i128),
    UintConst(u128),
    /// A floating-point constant, given by the bits of a binary64 number.
    FloatConst(u64),
    /// A local variable of the function.
    Temp,
    /// A parameter of the function.
    Param { index: usize },
    Function { name: String, sig: TypeRef },
    /// The address of a global.
    Global { name: String },
    /// An expression that is written where the value is used.
    InlineExpr(String),
    /// A string literal in the data section.
    StringLit { id: usize },
    /// A byte array in the data section.
    ByteString { id: usize },
    PtrOffset { base: ValueRef, offset: u64 },
    StructConst { fields: Vec<ValueRef> },
    VectorConst { elements: Vec<ValueRef>, type_str: String },
}

/// What a value is, as contracts speak of it.
pub enum ValKind {
    NullPtr,
    Undef,
    Poison,
    BoolConst(bool),
    IntConst(i128),
    UintConst(u128),
    FloatConst(u64),
    Temp,
    Param { index: usize },
    Function { name: Text, sig: TypeRef },
    Global { name: Text },
    InlineExpr(Text),
    StringLit { id: usize },
    ByteString { id: usize },
    PtrOffset { base: ValueRef, offset: u64 },
    StructConst { fields: Seq<ValueRef> },
    VectorConst { elements: Seq<ValueRef>, type_str: Text },
}

impl View for CValueKind {
    type V = ValKind;

    open spec fn view(&self) -> ValKind {
        match *self {
            CValueKind::NullPtr => ValKind::NullPtr,
            CValueKind::Undef => ValKind::Undef,
            CValueKind::Poison => ValKind::Poison,
            CValueKind::BoolConst(b) => ValKind::BoolConst(b),
            CValueKind::IntConst(i) => ValKind::IntConst(i),
            CValueKind::UintConst(u) => ValKind::UintConst(u),
            CValueKind::FloatConst(f) => ValKind::FloatConst(f),
            CValueKind::Temp => ValKind::Temp,
            CValueKind::Param { index } => ValKind::Param { index },
            CValueKind::Function { name, sig } => ValKind::Function { name: name@, sig },
            CValueKind::Global { name } => ValKind::Global { name: name@ },
            CValueKind::InlineExpr(e) => ValKind::InlineExpr(e@),
            CValueKind::StringLit { id } => ValKind::StringLit { id },
            CValueKind::ByteString { id } => ValKind::ByteString { id },
            CValueKind::PtrOffset { base, offset } => ValKind::PtrOffset { base, offset },
            CValueKind::StructConst { fields } => ValKind::StructConst { fields: fields@ },
            CValueKind::VectorConst { elements, type_str } => ValKind::VectorConst {
                elements: elements@,
                type_str: type_str@,
            },
        }
    }
}

/// A value with its type.
#[derive(Debug)]
pub struct CValue {
    pub kind: CValueKind,
    pub ty: TypeRef,
}

/// A value with its type, as contracts speak of it.
pub struct Value {
    pub kind: ValKind,
    pub ty: TypeRef,
}

impl View for CValue {
    type V = Value;

    open spec fn view(&self) -> Value {
        Value { kind: self.kind@, ty: self.ty }
    }
}

// --- Validity ---

/// Whether every value of a list comes before the position `n`.
pub open spec fn vals_below(list: Seq<ValueRef>, n: int) -> bool {
    forall|i: int| 0 <= i < list.len() ==> (#[trigger] list[i]).0 < n
}

/// Whether a value refers to values before the position `n` only.
pub open spec fn val_kind_ok(k: ValKind, n: int) -> bool {
    match k {
        ValKind::PtrOffset { base, .. } => base.0 < n,
        ValKind::StructConst { fields } => vals_below(fields, n),
        ValKind::VectorConst { elements, .. } => vals_below(elements, n),
        _ => true,
    }
}

/// Whether every value of a list refers to earlier values only.
pub open spec fn values_ok(values: Seq<Value>) -> bool {
    forall|i: int| 0 <= i < values.len() ==> val_kind_ok((#[trigger] values[i]).kind, i)
}

/// Whether the types that a value refers to come before the position `ntypes`.
pub open spec fn value_types_ok(v: Value, ntypes: int) -> bool {
    &&& v.ty.0 < ntypes
    &&& v.kind matches ValKind::Function { sig, .. } ==> sig.0 < ntypes
}

// --- Text ---

/// A 128-bit number as an expression: its two halves put together.
pub open spec fn wide_text(u: nat) -> Text {
    "((uint128_t)"@ + dec(u / 0x1_0000_0000_0000_0000) + "ULL << 64 | "@ + dec(
        u % 0x1_0000_0000_0000_0000,
    ) + "ULL)"@
}

/// An unsigned constant.
pub open spec fn uint_text(u: u128) -> Text {
    if u <= u64::MAX {
        dec(u as nat) + "ULL"@
    } else {
        wide_text(u as nat)
    }
}

/// A signed constant. Where it has no literal of its own it is written by its
/// two's complement bits.
pub open spec fn int_text(i: i128) -> Text {
    if i64::MIN < i <= i64::MAX {
        sdec(i as int) + "LL"@
    } else {
        "(int128_t)"@ + wide_text((i as u128) as nat)
    }
}

/// A binary64 number by its bits, as a C expression: a hexadecimal
/// floating-point literal, which is exact, or a builtin where it is not finite.
pub open spec fn float_text(bits: u64) -> Text {
    let sign = if bits >= 0x8000_0000_0000_0000 {
        "-"@
    } else {
        Seq::empty()
    };
    let exp = (bits / 0x10_0000_0000_0000) % 0x800;
    let mant = bits % 0x10_0000_0000_0000;
    if exp == 0x7ff {
        if mant == 0 {
            sign + "__builtin_inf()"@
        } else {
            sign + "__builtin_nan(\"\")"@
        }
    } else if exp == 0 {
        sign + "0x0."@ + hex_fixed(mant as nat, 13) + "p-1022"@
    } else {
        sign + "0x1."@ + hex_fixed(mant as nat, 13) + "p"@ + sdec(exp - 1023)
    }
}

/// The texts of the parts of the value at `v`.
pub open spec fn part_texts(values: Seq<Value>, list: Seq<ValueRef>, v: nat) -> Seq<Text>
    decreases v, 0nat,
{
    Seq::new(
        list.len(),
        |i: int|
            if 0 <= i < list.len() && list[i].0 < v {
                value_text(values, list[i].0 as nat)
            } else {
                Seq::empty()
            },
    )
}

/// The text of a value.
pub open spec fn value_text(values: Seq<Value>, v: nat) -> Text
    decreases v, 1nat,
{
    match values[v as int].kind {
        ValKind::NullPtr => "NULL"@,
        ValKind::Undef => "0"@,
        ValKind::Poison => "0"@,
        ValKind::BoolConst(b) => if b {
            "1"@
        } else {
            "0"@
        },
        ValKind::IntConst(i) => int_text(i),
        ValKind::UintConst(u) => uint_text(u),
        ValKind::FloatConst(f) => float_text(f),
        ValKind::Temp => "_t"@ + dec(v),
        ValKind::Param { index } => "_arg"@ + dec(index as nat),
        ValKind::Function { name, .. } => name,
        ValKind::Global { name } => name,
        ValKind::InlineExpr(e) => e,
        ValKind::StringLit { id } => "_str"@ + dec(id as nat),
        ValKind::ByteString { id } => "_bytes"@ + dec(id as nat),
        ValKind::PtrOffset { base, offset } => if base.0 < v {
            "(void *)((char *)"@ + value_text(values, base.0 as nat) + " + "@ + dec(offset as nat)
                + ")"@
        } else {
            Seq::empty()
        },
        ValKind::StructConst { fields } => "{ "@ + join(part_texts(values, fields, v), ", "@)
            + " }"@,
        ValKind::VectorConst { elements, type_str } => "("@ + type_str + "){ "@ + join(
            part_texts(values, elements, v),
            ", "@,
        ) + " }"@,
    }
}

/// The texts of a list of values.
pub open spec fn value_texts(values: Seq<Value>, list: Seq<ValueRef>) -> Seq<Text> {
    list.map_values(|v: ValueRef| value_text(values, v.0 as nat))
}

/// The number that an integer constant stands for, in 64 bits.
pub open spec fn const_u64(k: ValKind) -> Option<u64> {
    match k {
        ValKind::BoolConst(b) => Some(
            if b {
                1u64
            } else {
                0u64
            },
        ),
        ValKind::IntConst(i) => Some(i as u64),
        ValKind::UintConst(u) => Some(u as u64),
        _ => None,
    }
}

/// The number that an integer constant stands for, in 128 bits.
pub open spec fn const_u128(k: ValKind) -> Option<u128> {
    match k {
        ValKind::BoolConst(b) => Some(
            if b {
                1u128
            } else {
                0u128
            },
        ),
        ValKind::IntConst(i) => Some(i as u128),
        ValKind::UintConst(u) => Some(u),
        _ => None,
    }
}

/// Writes a 128-bit number as an expression.
pub fn render_wide(u: u128) -> (r: String)
    ensures
        r@ == wide_text(u as nat),
{
    let hi = u / 0x1_0000_0000_0000_0000u128;
    let lo = u % 0x1_0000_0000_0000_0000u128;
    "((uint128_t)".to_owned().concat(&decimal(hi)).concat("ULL << 64 | ").concat(
        &decimal(lo),
    ).concat("ULL)")
}

/// Writes an unsigned constant.
pub fn render_uint(u: u128) -> (r: String)
    ensures
        r@ == uint_text(u),
{
    if u <= 0xffff_ffff_ffff_ffffu128 {
        decimal(u).concat("ULL")
    } else {
        render_wide(u)
    }
}

/// Writes a signed constant.
pub fn render_int(i: i128) -> (r: String)
    ensures
        r@ == int_text(i),
{
    if -0x8000_0000_0000_0000i128 < i && i <= 0x7fff_ffff_ffff_ffffi128 {
        signed_decimal(i).concat("LL")
    } else {
        "(int128_t)".to_owned().concat(&render_wide(i as u128))
    }
}

/// Writes a floating-point constant.
pub fn render_float(bits: u64) -> (r: String)
    ensures
        r@ == float_text(bits),
{
    let sign = if bits >= 0x8000_0000_0000_0000u64 { "-".to_owned() } else { String::new() };
    let exp: u64 = (bits / 0x10_0000_0000_0000u64) % 0x800u64;
    let mant: u64 = bits % 0x10_0000_0000_0000u64;
    if exp == 0x7ff {
        if mant == 0 {
            sign.concat("__builtin_inf()")
        } else {
            sign.concat("__builtin_nan(\"\")")
        }
    } else if exp == 0 {
        sign.concat("0x0.").concat(&hex_digits(mant, 13)).concat("p-1022")
    } else {
        sign.concat("0x1.").concat(&hex_digits(mant, 13)).concat("p").concat(
            &signed_decimal(exp as i128 - 1023),
        )
    }
}

/// Holds the values of a codegen unit.
#[derive(Debug)]
pub struct ValueStore {
    pub list: Vec<CValue>,
    /// How many string literals there are.
    pub strings: usize,
    /// How many byte arrays there are.
    pub bytes: usize,
}

impl View for ValueStore {
    type V = Seq<Value>;

    open spec fn view(&self) -> Seq<Value> {
        self.list@.map_values(|v: CValue| v@)
    }
}

impl ValueStore {
    /// The invariant of the store.
    pub open spec fn wf(&self) -> bool {
        &&& values_ok(self@)
        &&& self.strings <= self@.len()
        &&& self.bytes <= self@.len()
    }

    /// An empty store.
    pub fn new() -> (r: ValueStore)
        ensures
            r@ == Seq::<Value>::empty(),
            r.strings == 0,
            r.bytes == 0,
            r.wf(),
    {
        let r = ValueStore { list: Vec::new(), strings: 0, bytes: 0 };
        assert(r@ =~= Seq::<Value>::empty());
        r
    }

    /// Adds a value.
    pub fn add_value(&mut self, kind: CValueKind, ty: TypeRef) -> (r:
        ValueRef)
        requires
            old(self).wf(),
            val_kind_ok(kind@, old(self)@.len() as int),
        ensures
            final(self).wf(),
            final(self)@ == old(self)@.push(Value { kind: kind@, ty }),
            final(self).strings == old(self).strings,
            final(self).bytes == old(self).bytes,
            r.0 == old(self)@.len(),
    {
        let n = self.list.len();
        let ghost before = self@;
        self.list.push(CValue { kind, ty });
        assert(self@ =~= before.push(Value { kind: kind@, ty }));
        ValueRef(n)
    }

    /// Adds a string literal, with the next number of its kind.
    pub fn next_string_literal(&mut self, ty: TypeRef) -> (r: ValueRef)
        requires
            old(self).wf(),
        ensures
            final(self).wf(),
            final(self)@ == old(self)@.push(
                Value { kind: ValKind::StringLit { id: old(self).strings }, ty },
            ),
            final(self).strings == old(self).strings + 1,
            final(self).bytes == old(self).bytes,
            r.0 == old(self)@.len(),
    {
        let id = self.strings;
        let r = self.add_value(CValueKind::StringLit { id }, ty);
        let n = self.list.len();
        assert(id < n);
        self.strings = id + 1;
        r
    }

    /// Adds a byte array, with the next number of its kind.
    pub fn next_byte_string(&mut self, ty: TypeRef) -> (r: ValueRef)
        requires
            old(self).wf(),
        ensures
            final(self).wf(),
            final(self)@ == old(self)@.push(
                Value { kind: ValKind::ByteString { id: old(self).bytes }, ty },
            ),
            final(self).strings == old(self).strings,
            final(self).bytes == old(self).bytes + 1,
            r.0 == old(self)@.len(),
    {
        let id = self.bytes;
        let r = self.add_value(CValueKind::ByteString { id }, ty);
        let n = self.list.len();
        assert(id < n);
        self.bytes = id + 1;
        r
    }

    /// How many byte arrays there are, which is the number of the next one.
    pub fn byte_string_counter(&self) -> (r: usize)
        ensures
            r == self.bytes,
    {
        self.bytes
    }

    /// A value with its type.
    pub fn get(&self, v: ValueRef) -> (r: &CValue)
        requires
            v.0 < self@.len(),
        ensures
            r@ == self@[v.0 as int],
    {
        &self.list[v.0]
    }

    /// The type of a value.
    pub fn get_type(&self, v: ValueRef) -> (r: TypeRef)
        requires
            v.0 < self@.len(),
        ensures
            r == self@[v.0 as int].ty,
    {
        self.list[v.0].ty
    }

    /// The signature of a function value.
    pub fn get_fn_sig(&self, v: ValueRef) -> (r: Option<TypeRef>)
        requires
            v.0 < self@.len(),
        ensures
            r == match self@[v.0 as int].kind {
                ValKind::Function { sig, .. } => Some(sig),
                _ => None,
            },
    {
        match &self.list[v.0].kind {
            CValueKind::Function { sig, .. } => Some(*sig),
            _ => None,
        }
    }

    /// The number that an integer constant stands for, in 64 bits.
    pub fn as_u64(&self, v: ValueRef) -> (r: Option<u64>)
        requires
            v.0 < self@.len(),
        ensures
            r == const_u64(self@[v.0 as int].kind),
    {
        match &self.list[v.0].kind {
            CValueKind::BoolConst(b) => Some(if *b { 1u64 } else { 0u64 }),
            CValueKind::IntConst(i) => Some(*i as u64),
            CValueKind::UintConst(u) => Some(*u as u64),
            _ => None,
        }
    }

    /// The number that an integer constant stands for, in 128 bits. Signed
    /// constants are held sign-extended, so both readings give the same bits.
    pub fn as_u128(&self, v: ValueRef) -> (r: Option<u128>)
        requires
            v.0 < self@.len(),
        ensures
            r == const_u128(self@[v.0 as int].kind),
    {
        match &self.list[v.0].kind {
            CValueKind::BoolConst(b) => Some(if *b { 1u128 } else { 0u128 }),
            CValueKind::IntConst(i) => Some(*i as u128),
            CValueKind::UintConst(u) => Some(*u),
            _ => None,
        }
    }

    /// The texts of a list of values that all come before `bound`.
    fn render_below(
        &self,
        list: &Vec<ValueRef>,
        Ghost(bound): Ghost<nat>,
    ) -> (r: Vec<String>)
        requires
            values_ok(self@),
            bound <= self@.len(),
            vals_below(list@, bound as int),
        ensures
            texts(r@) == value_texts(self@, list@),
        decreases bound, 1nat,
    {
        let mut out: Vec<String> = Vec::new();
        let mut i: usize = 0;
        while i < list.len()
            invariant
                i <= list@.len(),
                values_ok(self@),
                bound <= self@.len(),
                vals_below(list@, bound as int),
                out@.len() == i,
                forall|k: int|
                    0 <= k < i ==> (#[trigger] out@[k])@ == value_text(self@, list@[k].0 as nat),
            decreases list@.len() - i,
        {
            out.push(self.render(list[i]));
            i = i + 1;
        }
        assert(texts(out@) =~= value_texts(self@, list@));
        out
    }

    /// Writes a value as an expression.
    pub fn render(&self, v: ValueRef) -> (r: String)
        requires
            values_ok(self@),
            v.0 < self@.len(),
        ensures
            r@ == value_text(self@, v.0 as nat),
        decreases v.0 as nat, 2nat,
    {
        proof {
            assert(val_kind_ok(self@[v.0 as int].kind, v.0 as int));
        }
        match &self.list[v.0].kind {
            CValueKind::NullPtr => "NULL".to_owned(),
            CValueKind::Undef => "0".to_owned(),
            CValueKind::Poison => "0".to_owned(),
            CValueKind::BoolConst(b) => {
                if *b {
                    "1".to_owned()
                } else {
                    "0".to_owned()
                }
            },
            CValueKind::IntConst(i) => render_int(*i),
            CValueKind::UintConst(u) => render_uint(*u),
            CValueKind::FloatConst(f) => render_float(*f),
            CValueKind::Temp => "_t".to_owned().concat(&dec_usize(v.0)),
            CValueKind::Param { index } => "_arg".to_owned().concat(&dec_usize(*index)),
            CValueKind::Function { name, .. } => name.clone(),
            CValueKind::Global { name } => name.clone(),
            CValueKind::InlineExpr(e) => e.clone(),
            CValueKind::StringLit { id } => "_str".to_owned().concat(&dec_usize(*id)),
            CValueKind::ByteString { id } => "_bytes".to_owned().concat(&dec_usize(*id)),
            CValueKind::PtrOffset { base, offset } => {
                let b = self.render(*base);
                "(void *)((char *)".to_owned().concat(&b).concat(" + ").concat(
                    &dec_u64(*offset),
                ).concat(")")
            },
            CValueKind::StructConst { fields } => {
                let parts = self.render_below(fields, Ghost(v.0 as nat));
                assert(value_texts(self@, fields@) =~= part_texts(self@, fields@, v.0 as nat));
                "{ ".to_owned().concat(&join_strings(&parts, ", ")).concat(" }")
            },
            CValueKind::VectorConst { elements, type_str } => {
                let parts = self.render_below(elements, Ghost(v.0 as nat));
                assert(value_texts(self@, elements@) =~= part_texts(self@, elements@, v.0 as nat));
                "(".to_owned().concat(type_str).concat("){ ").concat(
                    &join_strings(&parts, ", "),
                ).concat(" }")
            },
        }
    }
}

// --- Laws ---

/// A value is written in the same way at any later time.
pub proof fn value_text_is_stable(values: Seq<Value>, later: Seq<Value>, v: nat)
    requires
        extends(values, later),
        v < values.len(),
    ensures
        value_text(later, v) == value_text(values, v),
    decreases v,
{
    assert(later[v as int] == values[v as int]);
    match values[v as int].kind {
        ValKind::PtrOffset { base, .. } => if base.0 < v {
            value_text_is_stable(values, later, base.0 as nat);
        },
        ValKind::StructConst { fields } => parts_are_stable(values, later, fields, v),
        ValKind::VectorConst { elements, .. } => parts_are_stable(values, later, elements, v),
        _ => {},
    }
}

proof fn parts_are_stable(values: Seq<Value>, later: Seq<Value>, list: Seq<ValueRef>, v: nat)
    requires
        extends(values, later),
        v < values.len(),
    ensures
        part_texts(later, list, v) == part_texts(values, list, v),
    decreases v, 0nat,
{
    assert forall|i: int| 0 <= i < list.len() implies #[trigger] part_texts(later, list, v)[i]
        == part_texts(values, list, v)[i] by {
        if list[i].0 < v {
            value_text_is_stable(values, later, list[i].0 as nat);
        }
    }
    assert(part_texts(later, list, v) =~= part_texts(values, list, v));
}

/// Different temporaries have different names.
pub proof fn temporaries_have_different_names(values: Seq<Value>, a: nat, b: nat)
    requires
        a < values.len(),
        b < values.len(),
        a != b,
        values[a as int].kind is Temp,
        values[b as int].kind is Temp,
    ensures
        value_text(values, a) != value_text(values, b),
{
    reveal_strlit("_t");
    if value_text(values, a) == value_text(values, b) {
        assert(("_t"@ + dec(a)).skip(2) =~= dec(a));
        assert(("_t"@ + dec(b)).skip(2) =~= dec(b));
        dec_is_injective(a, b);
    }
}

} // verus!
