//! Constants: integers, floating-point numbers, strings, structures and
//! vectors as values.
use vstd::arithmetic::power2::{
    lemma_pow2_pos, lemma_pow2_strictly_increases, lemma_pow2_unfold, pow2,
};
use vstd::prelude::*;

use crate::context::{CodegenCx, Cx};
use crate::text::{hex_bytes, hex_list, Text};
use crate::types::{refs_below, CTypeKind, Kind, TypeRef};
use crate::values::{const_u128, int_text, uint_text, CValueKind, ValKind, ValueRef};

verus! {

// --- Numbers ---

/// The number that the low `bits` bits of a pattern stand for in two's
/// complement.
pub open spec fn signed_value(val: u128, bits: nat) -> int {
    let m = val as int % pow2(bits) as int;
    if m >= pow2((bits - 1) as nat) {
        m - pow2(bits)
    } else {
        m
    }
}

/// The pattern whose low `bits` bits are set.
pub open spec fn low_mask(bits: nat) -> u128 {
    (pow2(bits) - 1) as u128
}

/// A width, at most 128.
pub open spec fn width(bits: u64) -> nat {
    if bits >= 128 {
        128
    } else {
        bits as nat
    }
}

/// A power of two.
pub fn power_of_two(k: u32) -> (r: u128)
    requires
        k < 128,
    ensures
        r == pow2(k as nat),
{
    let mut r: u128 = 1;
    let mut i: u32 = 0;
    proof {
        vstd::arithmetic::power2::lemma2_to64();
    }
    while i < k
        invariant
            i <= k,
            k < 128,
            r == pow2(i as nat),
        decreases k - i,
    {
        proof {
            lemma_pow2_unfold((i + 1) as nat);
            pow2_fits((i + 1) as nat);
        }
        r = r * 2;
        i = i + 1;
    }
    r
}

/// A power of two below the 128th fits in 128 bits.
pub proof fn pow2_fits(k: nat)
    requires
        k < 128,
    ensures
        pow2(k) <= 0x8000_0000_0000_0000_0000_0000_0000_0000,
{
    if k < 127 {
        lemma_pow2_strictly_increases(k, 127);
    }
    pow2_top();
}

/// The two largest powers of two that are needed.
pub proof fn pow2_top()
    ensures
        pow2(127) == 0x8000_0000_0000_0000_0000_0000_0000_0000,
        pow2(128) == 0x1_0000_0000_0000_0000_0000_0000_0000_0000,
{
    vstd::arithmetic::power2::lemma2_to64();
    vstd::arithmetic::power2::lemma2_to64_rest();
    vstd::arithmetic::power2::lemma_pow2_adds(64, 63);
    vstd::arithmetic::power2::lemma_pow2_adds(64, 64);
    assert(pow2(63) == 0x8000_0000_0000_0000);
    assert(pow2(64) == 0x1_0000_0000_0000_0000);
    assert(0x1_0000_0000_0000_0000int * 0x8000_0000_0000_0000int
        == 0x8000_0000_0000_0000_0000_0000_0000_0000int) by (nonlinear_arith);
    assert(0x1_0000_0000_0000_0000int * 0x1_0000_0000_0000_0000int
        == 0x1_0000_0000_0000_0000_0000_0000_0000_0000int) by (nonlinear_arith);
}

/// Sign-extends a bit pattern of a width.
pub fn sign_extend_to_i128(val: u128, bits: u32) -> (r: i128)
    requires
        bits > 0,
    ensures
        r == signed_value(val, width(bits as u64)),
{
    if bits >= 128 {
        proof {
            pow2_top();
            vstd::arithmetic::div_mod::lemma_small_mod(val as nat, pow2(128));
        }
        if val >= 0x8000_0000_0000_0000_0000_0000_0000_0000u128 {
            let below: u128 = 0xffff_ffff_ffff_ffff_ffff_ffff_ffff_ffffu128 - val;
            -(below as i128) - 1
        } else {
            val as i128
        }
    } else {
        let half = power_of_two(bits - 1);
        proof {
            lemma_pow2_unfold(bits as nat);
            pow2_fits(bits as nat);
            lemma_pow2_pos((bits - 1) as nat);
        }
        let full = half * 2;
        assert(full == pow2(bits as nat));
        let m = val % full;
        if m >= half {
            -((full - m) as i128)
        } else {
            m as i128
        }
    }
}

/// The exponent and the fraction of a binary32 number below the normal range,
/// in binary64: the number is doubled until it is in the normal range.
pub open spec fn normalized(mant: int, exp: int) -> int
    decreases 0x100_0000 - mant,
{
    if mant >= 0x80_0000 || mant <= 0 {
        exp * 0x10_0000_0000_0000 + (mant - 0x80_0000) * 0x2000_0000
    } else {
        normalized(mant * 2, exp - 1)
    }
}

/// A binary32 number in binary64, both by their bits.
pub open spec fn widened(bits: u32) -> u64 {
    let sign = (bits / 0x8000_0000) as int;
    let exp = ((bits / 0x80_0000) % 0x100) as int;
    let mant = (bits % 0x80_0000) as int;
    let rest = if exp == 0xff {
        0x7ff * 0x10_0000_0000_0000 + mant * 0x2000_0000
    } else if exp != 0 {
        (exp + 896) * 0x10_0000_0000_0000 + mant * 0x2000_0000
    } else if mant == 0 {
        0
    } else {
        normalized(mant, 897)
    };
    (sign * 0x8000_0000_0000_0000 + rest) as u64
}

/// Widens a binary32 number to binary64, both by their bits.
pub fn widen_float(bits: u32) -> (r: u64)
    ensures
        r == widened(bits),
{
    let sign: u64 = (bits / 0x8000_0000) as u64;
    let exp: u64 = ((bits / 0x80_0000) % 0x100) as u64;
    let mant: u64 = (bits % 0x80_0000) as u64;
    let rest: u64 = if exp == 0xff {
        0x7ff * 0x10_0000_0000_0000 + mant * 0x2000_0000
    } else if exp != 0 {
        (exp + 896) * 0x10_0000_0000_0000 + mant * 0x2000_0000
    } else if mant == 0 {
        0
    } else {
        let mut m: u64 = mant;
        let mut e: u64 = 897;
        let ghost mut steps: nat = 0;
        proof {
            vstd::arithmetic::power2::lemma2_to64();
        }
        while m < 0x80_0000
            invariant
                0 < m < 0x100_0000,
                normalized(m as int, e as int) == normalized(mant as int, 897),
                e + steps == 897,
                steps <= 23,
                m >= pow2(steps),
            decreases 0x100_0000 - m,
        {
            proof {
                vstd::arithmetic::power2::lemma2_to64();
                lemma_pow2_unfold(steps + 1);
                steps = steps + 1;
                if steps > 23 {
                    lemma_pow2_strictly_increases(23, steps);
                }
            }
            m = m * 2;
            e = e - 1;
        }
        e * 0x10_0000_0000_0000 + (m - 0x80_0000) * 0x2000_0000
    };
    sign * 0x8000_0000_0000_0000 + rest
}

// --- Constants ---

/// How the number of a constant is held: signed types hold it sign-extended, so
/// that it is written with its sign.
pub open spec fn uint_kind(k: Kind, u: u128, ptr_bytes: u64) -> ValKind {
    match k {
        Kind::Int { bits, signed: true } => ValKind::IntConst(
            signed_value(u, width(bits)) as i128,
        ),
        Kind::PtrWidth { signed: true } => ValKind::IntConst(
            signed_value(u, (ptr_bytes * 8) as nat) as i128,
        ),
        _ => ValKind::UintConst(u),
    }
}

/// Whether a type has values: integers of zero bits have none.
pub open spec fn inhabited(k: Kind) -> bool {
    k matches Kind::Int { bits, signed: true } ==> bits > 0
}

/// The width in bits of the numbers of a type, 0 where it has none.
pub open spec fn number_bits(k: Kind, ptr_bytes: u64) -> nat {
    match k {
        Kind::Int { bits, .. } => bits as nat,
        Kind::PtrWidth { .. } => (ptr_bytes * 8) as nat,
        _ => 0,
    }
}

/// A number of some width as one of 128 bits: the bits above are filled with the
/// sign, or with zeros.
pub open spec fn extended(u: u128, bits: nat, sign_ext: bool) -> u128 {
    if bits == 0 || bits >= 128 {
        u
    } else if sign_ext {
        signed_value(u, bits) as u128
    } else {
        (u as nat % pow2(bits)) as u128
    }
}

/// The types of a list of values.
pub open spec fn types_of(c: Cx, list: Seq<ValueRef>) -> Seq<TypeRef> {
    list.map_values(|v: ValueRef| c.type_of(v))
}

/// The bytes of a text in UTF-8.
pub open spec fn utf8(s: Text) -> Seq<u8> {
    vstd::utf8::encode_utf8(s)
}

/// What the operations on constants do.
impl Cx {
    /// Adds a value whose type is interned first.
    pub open spec fn adds(self, kind: ValKind, k: Kind) -> (Cx, ValueRef) {
        (self.value_of(kind, k), self.next())
    }

    /// Adds a value of a type.
    pub open spec fn adds_at(self, kind: ValKind, t: TypeRef) -> (Cx, ValueRef) {
        (self.value(kind, t), self.next())
    }

    /// Adds a number as wide as a pointer.
    pub open spec fn usize_const(self, i: u64) -> (Cx, ValueRef) {
        self.adds(ValKind::UintConst(i as u128), Kind::PtrWidth { signed: false })
    }

    /// Adds a string: its bytes in the data section, its address and its
    /// length.
    pub open spec fn str_const(self, s: Text) -> (Cx, (ValueRef, ValueRef)) {
        let (c1, ptr) = self.interns(Kind::Ptr);
        let v = c1.next();
        let c2 = Cx {
            strings: (c1.strings + 1) as usize,
            ..c1.value(ValKind::StringLit { id: c1.strings }, ptr)
        };
        let c3 = c2.data(
            "static const unsigned char "@ + c2.text(v) + "[] = { "@ + hex_list(utf8(s)) + " };"@,
        );
        let (c4, n) = c3.usize_const(utf8(s).len() as u64);
        (c4, (v, n))
    }

    /// Adds a structure.
    pub open spec fn struct_const(self, elts: Seq<ValueRef>, packed: bool) -> (Cx, ValueRef) {
        self.adds(
            ValKind::StructConst { fields: elts },
            Kind::Struct { fields: types_of(self, elts), packed, name: None },
        )
    }

    /// Adds a vector.
    pub open spec fn vector_const(self, elts: Seq<ValueRef>) -> (Cx, ValueRef) {
        let (c1, element) = if elts.len() == 0 {
            self.interns(Kind::Int { bits: 8, signed: true })
        } else {
            (self, self.type_of(elts[0]))
        };
        let (c2, t) = c1.interns(Kind::Vector { element, len: elts.len() as u64 });
        c2.adds_at(ValKind::VectorConst { elements: elts, type_str: c2.type_str(t) }, t)
    }

    /// Adds an address at an offset from another, unless the offset is zero.
    pub open spec fn ptr_offset(self, v: ValueRef, offset: u64) -> (Cx, ValueRef) {
        if offset == 0 {
            (self, v)
        } else {
            self.adds(ValKind::PtrOffset { base: v, offset }, Kind::Ptr)
        }
    }
}

/// Copies a list of values.
pub fn copy_values(list: &Vec<ValueRef>) -> (r: Vec<ValueRef>)
    ensures
        r@ == list@,
{
    let mut out: Vec<ValueRef> = Vec::new();
    let mut i: usize = 0;
    while i < list.len()
        invariant
            i <= list@.len(),
            out@ == list@.take(i as int),
        decreases list@.len() - i,
    {
        out.push(list[i]);
        i = i + 1;
        assert(out@ =~= list@.take(i as int));
    }
    assert(list@.take(list@.len() as int) =~= list@);
    out
}

/// The bytes of a string.
pub fn string_bytes(s: &str) -> (r: Vec<u8>)
    ensures
        r@ == utf8(s@),
{
    let bytes = s.as_bytes();
    let mut out: Vec<u8> = Vec::new();
    let mut i: usize = 0;
    while i < bytes.len()
        invariant
            i <= bytes@.len(),
            out@ == bytes@.take(i as int),
        decreases bytes@.len() - i,
    {
        out.push(bytes[i]);
        i = i + 1;
        assert(out@ =~= bytes@.take(i as int));
    }
    assert(bytes@.take(bytes@.len() as int) =~= bytes@);
    out
}

impl CodegenCx {
    /// Adds a value whose type is interned first.
    fn add_const(&mut self, kind: CValueKind, ty: CTypeKind) -> (r: ValueRef)
        requires
            old(self).wf(),
            crate::types::kind_ok(ty@, old(self)@.types.len() as int),
            crate::values::val_kind_ok(kind@, old(self)@.values.len() as int),
            !(kind@ is Function),
        ensures
            final(self).wf(),
            (final(self)@, r) == old(self)@.adds(kind@, ty@),
            final(self)@.has(r),
            old(self)@.within(final(self)@),
            final(self)@.values[r.0 as int].kind == kind@,
            final(self)@.kind(final(self)@.type_of(r)) == ty@,
    {
        let t = self.intern_type(ty);
        self.intern_value(kind, t)
    }

    /// The null pointer, at a type.
    pub fn const_null(&mut self, t: TypeRef) -> (r: ValueRef)
        requires
            old(self).wf(),
            old(self)@.has_type(t),
        ensures
            final(self).wf(),
            (final(self)@, r) == old(self)@.adds_at(ValKind::NullPtr, t),
            final(self)@.has(r),
            old(self)@.within(final(self)@),
    {
        self.intern_value(CValueKind::NullPtr, t)
    }

    /// A value that is not defined, at a type.
    pub fn const_undef(&mut self, t: TypeRef) -> (r: ValueRef)
        requires
            old(self).wf(),
            old(self)@.has_type(t),
        ensures
            final(self).wf(),
            (final(self)@, r) == old(self)@.adds_at(ValKind::Undef, t),
            final(self)@.has(r),
            old(self)@.within(final(self)@),
    {
        self.intern_value(CValueKind::Undef, t)
    }

    /// A poison value, at a type.
    pub fn const_poison(&mut self, t: TypeRef) -> (r: ValueRef)
        requires
            old(self).wf(),
            old(self)@.has_type(t),
        ensures
            final(self).wf(),
            (final(self)@, r) == old(self)@.adds_at(ValKind::Poison, t),
            final(self)@.has(r),
            old(self)@.within(final(self)@),
    {
        self.intern_value(CValueKind::Poison, t)
    }

    /// A truth value.
    pub fn const_bool(&mut self, val: bool) -> (r: ValueRef)
        requires
            old(self).wf(),
        ensures
            final(self).wf(),
            (final(self)@, r) == old(self)@.adds(ValKind::BoolConst(val), Kind::Bool),
            final(self)@.has(r),
            old(self)@.within(final(self)@),
    {
        self.add_const(CValueKind::BoolConst(val), CTypeKind::Bool)
    }

    pub fn const_i8(&mut self, i: i8) -> (r: ValueRef)
        requires
            old(self).wf(),
        ensures
            final(self).wf(),
            (final(self)@, r) == old(self)@.adds(
                ValKind::IntConst(i as i128),
                Kind::Int { bits: 8, signed: true },
            ),
            final(self)@.has(r),
            old(self)@.within(final(self)@),
            final(self)@.text(r) == int_text(i as i128),
            crate::meaning::kind_width(
                final(self)@.kind(final(self)@.type_of(r)),
                0,
            ) matches Some((w, _)) && w == 8,
    {
        self.add_const(CValueKind::IntConst(i as i128), CTypeKind::Int { bits: 8, signed: true })
    }

    pub fn const_i16(&mut self, i: i16) -> (r: ValueRef)
        requires
            old(self).wf(),
        ensures
            final(self).wf(),
            (final(self)@, r) == old(self)@.adds(
                ValKind::IntConst(i as i128),
                Kind::Int { bits: 16, signed: true },
            ),
            final(self)@.has(r),
            old(self)@.within(final(self)@),
            final(self)@.text(r) == int_text(i as i128),
            crate::meaning::kind_width(
                final(self)@.kind(final(self)@.type_of(r)),
                0,
            ) matches Some((w, _)) && w == 16,
    {
        self.add_const(CValueKind::IntConst(i as i128), CTypeKind::Int { bits: 16, signed: true })
    }

    pub fn const_i32(&mut self, i: i32) -> (r: ValueRef)
        requires
            old(self).wf(),
        ensures
            final(self).wf(),
            (final(self)@, r) == old(self)@.adds(
                ValKind::IntConst(i as i128),
                Kind::Int { bits: 32, signed: true },
            ),
            final(self)@.has(r),
            old(self)@.within(final(self)@),
            final(self)@.text(r) == int_text(i as i128),
            crate::meaning::kind_width(
                final(self)@.kind(final(self)@.type_of(r)),
                0,
            ) matches Some((w, _)) && w == 32,
    {
        self.add_const(CValueKind::IntConst(i as i128), CTypeKind::Int { bits: 32, signed: true })
    }

    /// A signed number, at a type.
    pub fn const_int(&mut self, t: TypeRef, i: i64) -> (r: ValueRef)
        requires
            old(self).wf(),
            old(self)@.has_type(t),
        ensures
            final(self).wf(),
            (final(self)@, r) == old(self)@.adds_at(ValKind::IntConst(i as i128), t),
            final(self)@.has(r),
            old(self)@.within(final(self)@),
    {
        self.intern_value(CValueKind::IntConst(i as i128), t)
    }

    pub fn const_u8(&mut self, i: u8) -> (r: ValueRef)
        requires
            old(self).wf(),
        ensures
            final(self).wf(),
            (final(self)@, r) == old(self)@.adds(
                ValKind::UintConst(i as u128),
                Kind::Int { bits: 8, signed: true },
            ),
            final(self)@.has(r),
            old(self)@.within(final(self)@),
            final(self)@.text(r) == uint_text(i as u128),
            crate::meaning::kind_width(
                final(self)@.kind(final(self)@.type_of(r)),
                0,
            ) matches Some((w, _)) && w == 8,
    {
        self.add_const(CValueKind::UintConst(i as u128), CTypeKind::Int { bits: 8, signed: true })
    }

    pub fn const_u32(&mut self, i: u32) -> (r: ValueRef)
        requires
            old(self).wf(),
        ensures
            final(self).wf(),
            (final(self)@, r) == old(self)@.adds(
                ValKind::UintConst(i as u128),
                Kind::Int { bits: 32, signed: true },
            ),
            final(self)@.has(r),
            old(self)@.within(final(self)@),
            final(self)@.text(r) == uint_text(i as u128),
            crate::meaning::kind_width(
                final(self)@.kind(final(self)@.type_of(r)),
                0,
            ) matches Some((w, _)) && w == 32,
    {
        self.add_const(CValueKind::UintConst(i as u128), CTypeKind::Int { bits: 32, signed: true })
    }

    pub fn const_u64(&mut self, i: u64) -> (r: ValueRef)
        requires
            old(self).wf(),
        ensures
            final(self).wf(),
            (final(self)@, r) == old(self)@.adds(
                ValKind::UintConst(i as u128),
                Kind::Int { bits: 64, signed: true },
            ),
            final(self)@.has(r),
            old(self)@.within(final(self)@),
            final(self)@.text(r) == uint_text(i as u128),
            crate::meaning::kind_width(
                final(self)@.kind(final(self)@.type_of(r)),
                0,
            ) matches Some((w, _)) && w == 64,
    {
        self.add_const(CValueKind::UintConst(i as u128), CTypeKind::Int { bits: 64, signed: true })
    }

    pub fn const_u128(&mut self, i: u128) -> (r: ValueRef)
        requires
            old(self).wf(),
        ensures
            final(self).wf(),
            (final(self)@, r) == old(self)@.adds(
                ValKind::UintConst(i),
                Kind::Int { bits: 128, signed: true },
            ),
            final(self)@.has(r),
            old(self)@.within(final(self)@),
            final(self)@.text(r) == uint_text(i),
            crate::meaning::kind_width(
                final(self)@.kind(final(self)@.type_of(r)),
                0,
            ) matches Some((w, _)) && w == 128,
    {
        self.add_const(CValueKind::UintConst(i), CTypeKind::Int { bits: 128, signed: true })
    }

    /// A number as wide as a pointer.
    pub fn const_usize(&mut self, i: u64) -> (r: ValueRef)
        requires
            old(self).wf(),
        ensures
            final(self).wf(),
            (final(self)@, r) == old(self)@.usize_const(i),
            final(self)@.has(r),
            old(self)@.within(final(self)@),
    {
        self.add_const(CValueKind::UintConst(i as u128), CTypeKind::PtrWidth { signed: false })
    }

    /// A number given by its bits, at a type. At a signed type it is held
    /// sign-extended.
    pub fn const_uint(&mut self, t: TypeRef, i: u64) -> (r: ValueRef)
        requires
            old(self).wf(),
            old(self)@.has_type(t),
            inhabited(old(self)@.kind(t)),
        ensures
            final(self).wf(),
            (final(self)@, r) == old(self)@.adds_at(
                uint_kind(old(self)@.kind(t), i as u128, old(self)@.ptr_bytes),
                t,
            ),
            final(self)@.has(r),
            old(self)@.within(final(self)@),
    {
        self.const_uint_big(t, i as u128)
    }

    /// A number given by its 128 bits, at a type. At a signed type it is held
    /// sign-extended.
    pub fn const_uint_big(&mut self, t: TypeRef, u: u128) -> (r: ValueRef)
        requires
            old(self).wf(),
            old(self)@.has_type(t),
            inhabited(old(self)@.kind(t)),
        ensures
            final(self).wf(),
            (final(self)@, r) == old(self)@.adds_at(
                uint_kind(old(self)@.kind(t), u, old(self)@.ptr_bytes),
                t,
            ),
            final(self)@.has(r),
            old(self)@.within(final(self)@),
    {
        let ptr_bits = self.pointer_size() as u32 * 8;
        let kind = match self.get_kind(t) {
            CTypeKind::Int { bits, signed: true } => CValueKind::IntConst(
                sign_extend_to_i128(
                    u,
                    if *bits >= 128 {
                        128
                    } else {
                        *bits as u32
                    },
                ),
            ),
            CTypeKind::PtrWidth { signed: true } => CValueKind::IntConst(
                sign_extend_to_i128(u, ptr_bits),
            ),
            _ => CValueKind::UintConst(u),
        };
        self.intern_value(kind, t)
    }

    /// A floating-point number given by the bits of a binary64, at a type.
    pub fn const_real(&mut self, t: TypeRef, bits: u64) -> (r: ValueRef)
        requires
            old(self).wf(),
            old(self)@.has_type(t),
        ensures
            final(self).wf(),
            (final(self)@, r) == old(self)@.adds_at(ValKind::FloatConst(bits), t),
            final(self)@.has(r),
            old(self)@.within(final(self)@),
    {
        self.intern_value(CValueKind::FloatConst(bits), t)
    }

    /// A string: its address and its length. The bytes are written one by one,
    /// so that a zero byte is kept.
    pub fn const_str(&mut self, s: &str) -> (r: (ValueRef, ValueRef))
        requires
            old(self).wf(),
        ensures
            final(self).wf(),
            (final(self)@, r) == old(self)@.str_const(s@),
            final(self)@.has(r.0),
            final(self)@.has(r.1),
            old(self)@.within(final(self)@),
    {
        let ptr_ty = self.type_ptr();
        let ptr_val = self.next_string_literal(ptr_ty);
        let name = self.render_value(ptr_val);
        let bytes = string_bytes(s);
        let n = bytes.len();
        let hex = hex_bytes(&bytes, 0, n);
        assert(bytes@.subrange(0, n as int) =~= bytes@);
        let decl = "static const unsigned char ".to_owned().concat(&name).concat(
            "[] = { ",
        ).concat(&hex).concat(" };");
        self.push_data(decl);
        let len_val = self.const_usize(n as u64);
        (ptr_val, len_val)
    }

    /// A structure of the given values.
    pub fn const_struct(&mut self, elts: &Vec<ValueRef>, packed: bool) -> (r: ValueRef)
        requires
            old(self).wf(),
            old(self)@.has_all(elts@),
        ensures
            final(self).wf(),
            (final(self)@, r) == old(self)@.struct_const(elts@, packed),
            final(self)@.has(r),
            old(self)@.within(final(self)@),
    {
        let mut fields: Vec<TypeRef> = Vec::new();
        let mut i: usize = 0;
        while i < elts.len()
            invariant
                i <= elts@.len(),
                self.wf(),
                self@ == old(self)@,
                self@.has_all(elts@),
                fields@ == types_of(self@, elts@).take(i as int),
                refs_below(fields@, self@.types.len() as int),
            decreases elts@.len() - i,
        {
            fields.push(self.get_type(elts[i]));
            i = i + 1;
            assert(fields@ =~= types_of(self@, elts@).take(i as int));
        }
        assert(fields@ =~= types_of(self@, elts@));
        let parts = copy_values(elts);
        self.add_const(
            CValueKind::StructConst { fields: parts },
            CTypeKind::Struct { fields, packed, name: None },
        )
    }

    /// A vector of the given values.
    pub fn const_vector(&mut self, elts: &Vec<ValueRef>) -> (r: ValueRef)
        requires
            old(self).wf(),
            old(self)@.has_all(elts@),
        ensures
            final(self).wf(),
            (final(self)@, r) == old(self)@.vector_const(elts@),
            final(self)@.has(r),
            old(self)@.within(final(self)@),
    {
        let element = if elts.len() == 0 {
            self.type_int(8)
        } else {
            self.get_type(elts[0])
        };
        let ty = self.intern_type(CTypeKind::Vector { element, len: elts.len() as u64 });
        let type_str = self.render_type(ty);
        let elements = copy_values(elts);
        self.intern_value(CValueKind::VectorConst { elements, type_str }, ty)
    }

    /// An address at an offset from another.
    pub fn const_ptr_byte_offset(&mut self, val: ValueRef, offset: u64) -> (r: ValueRef)
        requires
            old(self).wf(),
            old(self)@.has(val),
        ensures
            final(self).wf(),
            (final(self)@, r) == old(self)@.ptr_offset(val, offset),
            final(self)@.has(r),
            old(self)@.within(final(self)@),
    {
        if offset == 0 {
            return val;
        }
        self.add_const(CValueKind::PtrOffset { base: val, offset }, CTypeKind::Ptr)
    }

    /// The number that a constant stands for, extended to 128 bits.
    pub fn const_to_opt_u128(&self, v: ValueRef, sign_ext: bool) -> (r: Option<u128>)
        requires
            self.wf(),
            self@.has(v),
        ensures
            r == match const_u128(self@.values[v.0 as int].kind) {
                Some(u) => Some(
                    extended(u, number_bits(self@.kind_of(v), self@.ptr_bytes), sign_ext),
                ),
                None => None,
            },
    {
        proof {
            self.wf_is_consistent();
        }
        let t = self.get_type(v);
        let bits: u64 = match self.get_kind(t) {
            CTypeKind::Int { bits, .. } => *bits,
            CTypeKind::PtrWidth { .. } => self.pointer_size() * 8,
            _ => 0,
        };
        match self.values.as_u128(v) {
            Some(u) => {
                if bits == 0 || bits >= 128 {
                    Some(u)
                } else if sign_ext {
                    Some(sign_extend_to_i128(u, bits as u32) as u128)
                } else {
                    proof {
                        lemma_pow2_pos(bits as nat);
                    }
                    Some(u % power_of_two(bits as u32))
                }
            },
            None => None,
        }
    }

    /// The address of a constant that was allocated: the constant itself.
    pub fn static_addr_of(&self, cv: ValueRef) -> (r: ValueRef)
        ensures
            r == cv,
    {
        cv
    }
}

// --- Laws ---

/// Sign extension keeps the low bits of a pattern and gives a number of the
/// width.
pub proof fn sign_extension_keeps_bits(val: u128, bits: nat)
    requires
        0 < bits <= 128,
    ensures
        (signed_value(val, bits) - val) % (pow2(bits) as int) == 0,
        -(pow2((bits - 1) as nat) as int) <= signed_value(val, bits) < pow2((bits - 1) as nat),
{
    let p = pow2(bits) as int;
    lemma_pow2_pos(bits);
    lemma_pow2_unfold(bits);
    let m = val as int % p;
    vstd::arithmetic::div_mod::lemma_fundamental_div_mod(val as int, p);
    vstd::arithmetic::div_mod::lemma_mod_bound(val as int, p);
    let q = val as int / p;
    assert(val as int == p * q + m);
    if m >= pow2((bits - 1) as nat) {
        assert(signed_value(val, bits) - val == p * (-q - 1)) by (nonlinear_arith)
            requires
                signed_value(val, bits) == m - p,
                val as int == p * q + m,
        ;
        vstd::arithmetic::div_mod::lemma_mod_multiples_basic(-q - 1, p);
        vstd::arithmetic::mul::lemma_mul_is_commutative(p, -q - 1);
    } else {
        assert(signed_value(val, bits) - val == p * (-q)) by (nonlinear_arith)
            requires
                signed_value(val, bits) == m,
                val as int == p * q + m,
        ;
        vstd::arithmetic::div_mod::lemma_mod_multiples_basic(-q, p);
        vstd::arithmetic::mul::lemma_mul_is_commutative(p, -q);
    }
}

/// The low `bits` bits of a pattern are its remainder by that power of two.
pub proof fn low_bits_are_the_remainder(val: u128, bits: nat)
    requires
        bits <= 128,
    ensures
        pow2(bits) - 1 <= u128::MAX,
        val & low_mask(bits) == val as int % pow2(bits) as int,
    decreases bits,
{
    pow2_top();
    if bits < 128 {
        pow2_fits(bits);
    }
    lemma_pow2_pos(bits);
    if bits == 0 {
        vstd::arithmetic::power2::lemma2_to64();
        assert(val & 0u128 == 0u128) by (bit_vector);
    } else {
        let k = (bits - 1) as nat;
        let (m, h) = (low_mask(bits), low_mask(k));
        lemma_pow2_unfold(bits);
        lemma_pow2_pos(k);
        pow2_fits(k);
        low_bits_are_the_remainder(val / 2, k);
        assert(val & m == 2 * ((val / 2) & h) + val % 2) by (bit_vector)
            requires
                m == 2 * h + 1,
        ;
        vstd::arithmetic::div_mod::lemma_mod_breakdown(val as int, 2, pow2(k) as int);
    }
}

/// Sign extension reads only the low bits of a pattern. Extending what it gives
/// once more changes nothing, and the low bits stay what they were.
pub proof fn sign_extension_reads_the_low_bits(val: u128, bits: nat)
    requires
        0 < bits <= 128,
    ensures
        ({
            let s = signed_value(val, bits);
            let again = s as i128 as u128;
            &&& i128::MIN <= s <= i128::MAX
            &&& s == signed_value(val & low_mask(bits), bits)
            &&& s == signed_value(again, bits)
            &&& again & low_mask(bits) == val & low_mask(bits)
        }),
{
    let p = pow2(bits) as int;
    let s = signed_value(val, bits);
    let narrow = s as i128;
    let again = narrow as u128;
    lemma_pow2_pos(bits);
    pow2_top();
    pow2_fits((bits - 1) as nat);
    sign_extension_keeps_bits(val, bits);
    low_bits_are_the_remainder(val, bits);
    low_bits_are_the_remainder(again, bits);
    vstd::arithmetic::div_mod::lemma_mod_twice(val as int, p);
    assert((narrow as u128) == if narrow < 0 {
        narrow + 0x1_0000_0000_0000_0000_0000_0000_0000_0000
    } else {
        narrow as int
    }) by (bit_vector);
    let rest = pow2((128 - bits) as nat) as int;
    vstd::arithmetic::power2::lemma_pow2_adds(bits, (128 - bits) as nat);
    vstd::arithmetic::div_mod::lemma_mod_multiples_vanish(rest, s, p);
    assert(again as int % p == s % p);
    vstd::arithmetic::div_mod::lemma_mod_equivalence(s, val as int, p);
    assert(s % p == val as int % p);
}

/// The number that a pattern of 64 bits stands for is read back from a constant
/// as wide as a pointer.
pub proof fn usize_constants_are_read_back(c: Cx, i: u64)
    ensures
        ({
            let (c1, v) = c.usize_const(i);
            c.values.len() <= usize::MAX ==> crate::values::const_u64(
                c1.values[v.0 as int].kind,
            ) == Some(i)
        }),
{
    assert(((i as u128) as u64) == i) by (bit_vector);
}

/// The significand of a finite binary32 number, as an integer.
pub open spec fn significand32(bits: u32) -> int {
    let exp = (bits / 0x80_0000) % 0x100;
    let mant = bits % 0x80_0000;
    if exp == 0 {
        mant as int
    } else {
        mant + 0x80_0000
    }
}

/// The exponent of a finite binary32 number: the number is its significand times
/// 2 to the power of this, less 150.
pub open spec fn exponent32(bits: u32) -> int {
    let exp = (bits / 0x80_0000) % 0x100;
    if exp == 0 {
        1
    } else {
        exp as int
    }
}

/// The significand of a finite binary64 number, as an integer.
pub open spec fn significand64(bits: u64) -> int {
    let exp = (bits / 0x10_0000_0000_0000) % 0x800;
    let mant = bits % 0x10_0000_0000_0000;
    if exp == 0 {
        mant as int
    } else {
        mant + 0x10_0000_0000_0000
    }
}

/// The exponent of a finite binary64 number: the number is its significand times
/// 2 to the power of this, less 1075.
pub open spec fn exponent64(bits: u64) -> int {
    let exp = (bits / 0x10_0000_0000_0000) % 0x800;
    if exp == 0 {
        1
    } else {
        exp as int
    }
}

proof fn normalized_keeps_number(mant: int, exp: int, k: nat) -> (s: nat)
    requires
        0 < mant < 0x100_0000,
        mant >= pow2(k),
        k <= 23,
        exp >= 874 + (23 - k),
    ensures
        s <= 23 - k,
        mant * pow2(s) >= 0x80_0000,
        mant * pow2(s) < 0x100_0000,
        normalized(mant, exp) == (exp - s) * 0x10_0000_0000_0000 + (mant * pow2(s) - 0x80_0000)
            * 0x2000_0000,
    decreases 23 - k,
{
    vstd::arithmetic::power2::lemma2_to64();
    if mant >= 0x80_0000 {
        assert(mant * pow2(0) == mant) by (nonlinear_arith)
            requires
                pow2(0) == 1,
        ;
        0
    } else {
        if k >= 23 {
            assert(false);
        }
        lemma_pow2_unfold(k + 1);
        let s = normalized_keeps_number(mant * 2, exp - 1, k + 1);
        lemma_pow2_unfold(s + 1);
        assert(mant * pow2(s + 1) == (mant * 2) * pow2(s)) by (nonlinear_arith)
            requires
                pow2(s + 1) == 2 * pow2(s),
        ;
        s + 1
    }
}

/// Widening a finite number keeps its sign and its value: the significand grows
/// by as many bits as the exponent, measured from the least one, sinks.
pub proof fn widening_keeps_the_number(bits: u32)
    requires
        (bits / 0x80_0000) % 0x100 != 0xff,
    ensures
        widened(bits) / 0x8000_0000_0000_0000 == bits / 0x8000_0000,
        exists|s: nat|
            significand64(widened(bits)) == significand32(bits) * 0x2000_0000 * #[trigger] pow2(s)
                && (significand32(bits) != 0 ==> exponent64(widened(bits)) + s == exponent32(bits)
                + 896),
{
    let sign = (bits / 0x8000_0000) as int;
    let exp = ((bits / 0x80_0000) % 0x100) as int;
    let mant = (bits % 0x80_0000) as int;
    vstd::arithmetic::power2::lemma2_to64();
    if exp != 0 || mant == 0 {
        let w = widened(bits);
        assert(significand64(w) == significand32(bits) * 0x2000_0000 * pow2(0)) by {
            assert(pow2(0) == 1);
        }
    } else {
        let s = normalized_keeps_number(mant, 897, 0);
        let w = widened(bits);
        let e = 897 - s;
        let f = (mant * pow2(s) - 0x80_0000) * 0x2000_0000;
        assert(w == sign * 0x8000_0000_0000_0000 + e * 0x10_0000_0000_0000 + f);
        assert(significand64(w) == f + 0x10_0000_0000_0000);
        assert(significand64(w) == mant * 0x2000_0000 * pow2(s)) by (nonlinear_arith)
            requires
                significand64(w) == (mant * pow2(s) - 0x80_0000) * 0x2000_0000
                    + 0x10_0000_0000_0000,
        ;
        assert(exponent64(w) == e);
    }
}

} // verus!
