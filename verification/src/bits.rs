//! Intrinsics on the bits of integers, and saturating arithmetic.
use vstd::arithmetic::power2::{lemma_pow2_pos, pow2};
use vstd::prelude::*;

use crate::arith::{overflow_helper, render_suffix};
use crate::builder::{Builder, Bx};
use crate::c_ast::{CExpr, CStmt, Expr, Stmt};
use crate::consts::power_of_two;
use crate::text::{dec, dec_u64, decimal, sdec, signed_decimal, Text};
use crate::types::{CTypeKind, Kind, TypeRef};
use crate::values::{ValKind, ValueRef};

verus! {

/// The width of an integer type in bits, 0 for other types.
pub open spec fn int_bits(k: Kind, ptr_bytes: u64) -> u64 {
    match k {
        Kind::Int { bits, .. } => bits,
        Kind::PtrWidth { .. } => (ptr_bytes * 8) as u64,
        Kind::Bool => 1,
        _ => 0,
    }
}

/// Whether a type is one of signed integers.
pub open spec fn is_signed_kind(k: Kind) -> bool {
    (k matches Kind::Int { signed: true, .. }) || (k matches Kind::PtrWidth { signed: true })
}

/// The bounds of a signed type of a width. Of 128 bits they are not written.
pub open spec fn signed_bound_texts(bits: u64, t: Text) -> (Text, Text) {
    if bits <= 64 {
        (
            "("@ + t + ")"@ + sdec(-(pow2((bits - 1) as nat) as int)) + "LL"@,
            "("@ + t + ")"@ + sdec(pow2((bits - 1) as nat) - 1) + "LL"@,
        )
    } else {
        ("0"@, "0"@)
    }
}

/// The largest number of an unsigned type of a width.
pub open spec fn unsigned_bound_text(bits: u64, t: Text) -> Text {
    if bits < 128 {
        "("@ + t + ")"@ + dec((pow2(bits as nat) - 1) as nat) + "ULL"@
    } else {
        "("@ + t + ")-1"@
    }
}

/// What a saturating operation gives where it overflows.
pub open spec fn clamp_text(is_add: bool, k: Kind, bits: u64, t: Text, r: Text) -> Text {
    if is_signed_kind(k) {
        let (min, max) = signed_bound_texts(bits, t);
        signed_clamp_text(is_add, r, min, max)
    } else if is_add {
        unsigned_bound_text(bits, t)
    } else {
        "("@ + t + ")0"@
    }
}

/// The number of leading zeros of an expression of a width.
pub open spec fn ctlz_text(v: Text, bits: u64) -> Text {
    if bits < 32 {
        "("@ + v + " == 0 ? "@ + dec(bits as nat) + " : __rustc_clz32((uint32_t)("@ + v + ") & "@ + dec((pow2(bits as nat) - 1) as nat) + "U) - (32 - "@ + dec(bits as nat) + "))"@
    } else if bits <= 32 {
        "("@ + v + " == 0 ? "@ + dec(bits as nat) + " : __rustc_clz32((uint32_t)"@ + v + ") - (32 - "@ + dec(bits as nat) + "))"@
    } else if bits <= 64 {
        "("@ + v + " == 0 ? "@ + dec(bits as nat) + " : __rustc_clz64((uint64_t)"@ + v + ") - (64 - "@ + dec(bits as nat) + "))"@
    } else {
        "((uint64_t)((uint128_t)("@ + v + ") >> 64) != 0 ? __rustc_clz64((uint64_t)((uint128_t)("@ + v + ") >> 64)) : 64 + ((uint64_t)("@ + v + ") == 0 ? 64 : __rustc_clz64((uint64_t)("@ + v + "))))"@
    }
}

/// The number of trailing zeros of an expression of a width.
pub open spec fn cttz_text(v: Text, bits: u64) -> Text {
    if bits <= 32 {
        "("@ + v + " == 0 ? "@ + dec(bits as nat) + " : __rustc_ctz32((uint32_t)"@ + v + "))"@
    } else if bits <= 64 {
        "("@ + v + " == 0 ? "@ + dec(bits as nat) + " : __rustc_ctz64((uint64_t)"@ + v + "))"@
    } else {
        "((uint64_t)("@ + v + ") != 0 ? __rustc_ctz64((uint64_t)("@ + v + ")) : 64 + ((uint64_t)((uint128_t)("@ + v + ") >> 64) == 0 ? 64 : __rustc_ctz64((uint64_t)((uint128_t)("@ + v + ") >> 64))))"@
    }
}

/// The number of ones of an expression of a width.
pub open spec fn ctpop_text(v: Text, bits: u64) -> Text {
    if bits < 32 {
        "__rustc_popcount32((uint32_t)("@ + v + ") & "@ + dec((pow2(bits as nat) - 1) as nat) + "U)"@
    } else if bits <= 32 {
        "__rustc_popcount32((uint32_t)"@ + v + ")"@
    } else if bits <= 64 {
        "__rustc_popcount64((uint64_t)"@ + v + ")"@
    } else {
        "(__rustc_popcount64((uint64_t)("@ + v + ")) + __rustc_popcount64((uint64_t)((uint128_t)("@ + v + ") >> 64)))"@
    }
}

/// An expression of a width with its bytes in the other order.
pub open spec fn bswap_text(v: Text, bits: u64) -> Text {
    if bits == 8 {
        v
    } else if bits == 16 {
        "__rustc_bswap16("@ + v + ")"@
    } else if bits == 32 {
        "__rustc_bswap32("@ + v + ")"@
    } else if bits == 64 {
        "__rustc_bswap64("@ + v + ")"@
    } else if bits == 128 {
        "((uint128_t)__rustc_bswap64((uint64_t)("@ + v + ")) << 64 | (uint128_t)__rustc_bswap64((uint64_t)((uint128_t)("@ + v + ") >> 64)))"@
    } else {
        v + " /* bswap unsupported for "@ + dec(bits as nat) + "-bit */"@
    }
}

/// The loop that reverses the bits of an expression.
pub open spec fn reverse_text(rn: Text, itn: Text, bits: u64, t: Text, ut: Text, v: Text) -> Text {
    "for ("@ + itn + " = 0; "@ + itn + " < "@ + dec(bits as nat) + "; "@ + itn + "++) { "@ + rn + " = ("@ + t + ")((("@ + ut + ")"@ + rn + " << 1) | ((("@ + ut + ")"@ + v + " >> "@ + itn + ") & 1)); }"@
}

/// An expression of a width, rotated.
pub open spec fn rotate_text(left: bool, v: Text, s: Text, bits: u64, t: Text, ut: Text) -> Text {
    if left {
        "("@ + t + ")(("@ + ut + ")"@ + v + " << ("@ + s + " % "@ + dec(bits as nat) + ") | ("@ + ut + ")"@ + v + " >> (("@ + dec(bits as nat) + " - "@ + s + ") % "@ + dec(bits as nat) + "))"@
    } else {
        "("@ + t + ")(("@ + ut + ")"@ + v + " >> ("@ + s + " % "@ + dec(bits as nat) + ") | ("@ + ut + ")"@ + v + " << (("@ + dec(bits as nat) + " - "@ + s + ") % "@ + dec(bits as nat) + "))"@
    }
}

/// Two expressions of a width, shifted as one.
pub open spec fn funnel_text(left: bool, va: Text, vb: Text, vs: Text, bits: u64, t: Text, ut: Text) -> Text {
    if left {
        "("@ + t + ")((("@ + ut + ")"@ + va + " << "@ + vs + ") | (("@ + ut + ")"@ + vb + " >> ("@ + dec(bits as nat) + " - "@ + vs + ")))"@
    } else {
        "("@ + t + ")((("@ + ut + ")"@ + va + " >> "@ + vs + ") | (("@ + ut + ")"@ + vb + " << ("@ + dec(bits as nat) + " - "@ + vs + ")))"@
    }
}

/// The statement that computes and tests for overflow.
pub open spec fn overflow_call_text(overflow: Text, helper: Text, l: Text, r0: Text, result: Text) -> Text {
    overflow + " = "@ + helper + "("@ + l + ", "@ + r0 + ", &"@ + result + ");"@
}

/// The statement that takes the bound where there was overflow.
pub open spec fn clamp_stmt_text(overflow: Text, result: Text, clamp: Text) -> Text {
    "if ("@ + overflow + ") "@ + result + " = "@ + clamp + ";"@
}

/// The bound of a signed type on the side of the second operand.
pub open spec fn signed_clamp_text(upper_first: bool, r0: Text, min: Text, max: Text) -> Text {
    if upper_first {
        "("@ + r0 + " > 0 ? "@ + max + " : "@ + min + ")"@
    } else {
        "("@ + r0 + " > 0 ? "@ + min + " : "@ + max + ")"@
    }
}

/// What these intrinsics do.
impl Bx {
    /// The width of an integer type.
    pub open spec fn width(self, t: TypeRef) -> u64 {
        int_bits(self.cx.kind(t), self.cx.ptr_bytes)
    }

    /// Stores an expression that is held in a temporary.
    pub open spec fn store_expr(self, t: TypeRef, e: Expr, dest: ValueRef) -> Bx {
        let (b, v) = self.temp_stmt(t, e);
        b.store(v, dest).0
    }

    /// Interns the unsigned type of a type and gives its text, or that of the
    /// type itself where it is not a signed integer.
    pub open spec fn unsigned_str(self, t: TypeRef) -> (Bx, Text) {
        let (b, u) = self.unsigned(t);
        match u {
            Some(u) => (b, b.type_str(u)),
            None => (b, b.type_str(t)),
        }
    }

    pub open spec fn codegen_ctlz(self, val: ValueRef, dest: ValueRef) -> Bx {
        let k = Kind::Int { bits: 32, signed: true };
        let text = ctlz_text(self.cx.text(val), self.width(self.type_of(val)));
        self.intern(k).store_expr(self.cx.ty(k), Expr::Raw(text), dest)
    }

    pub open spec fn codegen_cttz(self, val: ValueRef, dest: ValueRef) -> Bx {
        let k = Kind::Int { bits: 32, signed: true };
        let text = cttz_text(self.cx.text(val), self.width(self.type_of(val)));
        self.intern(k).store_expr(self.cx.ty(k), Expr::Raw(text), dest)
    }

    pub open spec fn codegen_ctpop(self, val: ValueRef, dest: ValueRef) -> Bx {
        let k = Kind::Int { bits: 32, signed: true };
        let text = ctpop_text(self.cx.text(val), self.width(self.type_of(val)));
        self.intern(k).store_expr(self.cx.ty(k), Expr::Raw(text), dest)
    }

    pub open spec fn codegen_bswap(self, val: ValueRef, dest: ValueRef) -> Bx {
        let t = self.type_of(val);
        self.store_expr(t, Expr::Raw(bswap_text(self.cx.text(val), self.width(t))), dest)
    }

    pub open spec fn codegen_bitreverse(self, val: ValueRef, dest: ValueRef) -> Bx {
        let t = self.type_of(val);
        let (b1, result) = self.typed_temp(t);
        let k = Kind::Int { bits: 32, signed: true };
        let (b2, iter) = b1.intern(k).value(ValKind::Temp, b1.cx.ty(k));
        let itn = b2.cx.text(iter);
        let (b3, ut) = b2.local("int32_t "@ + itn + ";"@).unsigned_str(t);
        let rn = b3.cx.text(result);
        b3.emit(Stmt::Raw(rn + " = 0;"@)).emit(
            Stmt::Raw(
                reverse_text(rn, itn, self.width(t), b3.type_str(t), ut, b3.cx.text(val)),
            ),
        ).store(result, dest).0
    }

    pub open spec fn codegen_saturating(
        self,
        is_add: bool,
        lhs: ValueRef,
        rhs: ValueRef,
        dest: ValueRef,
    ) -> Bx {
        let t = self.type_of(lhs);
        let k = self.cx.kind(t);
        let (b1, result) = self.typed_temp(t);
        let (b2, overflow) = b1.typed_temp(t);
        let helper = overflow_helper(
            if is_add {
                "add"@
            } else {
                "sub"@
            },
            k,
        );
        let r = self.cx.text(rhs);
        let clamp = clamp_text(is_add, k, self.width(t), self.type_str(t), r);
        let rn = b2.cx.text(result);
        let on = b2.cx.text(overflow);
        b2.emit(
            Stmt::Raw(overflow_call_text(on, helper, self.cx.text(lhs), r, rn)),
        ).emit(Stmt::Raw(clamp_stmt_text(on, rn, clamp))).store(result, dest).0
    }

    pub open spec fn codegen_rotate(
        self,
        left: bool,
        val: ValueRef,
        shift: ValueRef,
        dest: ValueRef,
    ) -> Bx {
        let t = self.type_of(val);
        let (b, ut) = self.unsigned_str(t);
        b.store_expr(
            t,
            Expr::Raw(
                rotate_text(
                    left,
                    b.cx.text(val),
                    b.cx.text(shift),
                    self.width(t),
                    b.type_str(t),
                    ut,
                ),
            ),
            dest,
        )
    }

    pub open spec fn codegen_funnel_shift(
        self,
        left: bool,
        x: ValueRef,
        y: ValueRef,
        shift: ValueRef,
        dest: ValueRef,
    ) -> Bx {
        let t = self.type_of(x);
        let (b, ut) = self.unsigned_str(t);
        b.store_expr(
            t,
            Expr::Raw(
                funnel_text(
                    left,
                    b.cx.text(x),
                    b.cx.text(y),
                    b.cx.text(shift),
                    self.width(t),
                    b.type_str(t),
                    ut,
                ),
            ),
            dest,
        )
    }
}

/// The number whose low `bits` bits are ones.
fn mask_of(bits: u64) -> (r: u128)
    requires
        bits < 128,
    ensures
        r == pow2(bits as nat) - 1,
{
    proof {
        lemma_pow2_pos(bits as nat);
    }
    power_of_two(bits as u32) - 1
}

/// Writes the bounds of a signed type of a width.
fn render_signed_bounds(bits: u64, t: &str) -> (r: (String, String))
    requires
        bits > 0,
    ensures
        (r.0@, r.1@) == signed_bound_texts(bits, t@),
{
    if bits <= 64 {
        let half = power_of_two((bits - 1) as u32);
        proof {
            lemma_pow2_pos((bits - 1) as nat);
            vstd::arithmetic::power2::lemma2_to64();
            vstd::arithmetic::power2::lemma2_to64_rest();
            if bits < 64 {
                vstd::arithmetic::power2::lemma_pow2_strictly_increases((bits - 1) as nat, 63);
            }
        }
        let top = half as i128;
        let cast = "(".to_owned().concat(t).concat(")");
        (
            cast.clone().concat(&signed_decimal(-top)).concat("LL"),
            cast.concat(&signed_decimal(top - 1)).concat("LL"),
        )
    } else {
        ("0".to_owned(), "0".to_owned())
    }
}

/// Writes the largest number of an unsigned type of a width.
fn render_unsigned_bound(bits: u64, t: &str) -> (r: String)
    ensures
        r@ == unsigned_bound_text(bits, t@),
{
    if bits < 128 {
        "(".to_owned().concat(t).concat(")").concat(&decimal(mask_of(bits))).concat("ULL")
    } else {
        "(".to_owned().concat(t).concat(")-1")
    }
}

/// Writes the number of leading zeros of an expression of a width.
fn render_ctlz(v: &str, bits: u64) -> (r: String)
    ensures
        r@ == ctlz_text(v@, bits),
{
    if bits < 32 {
        "(".to_owned().concat(v).concat(" == 0 ? ").concat(&dec_u64(bits)).concat(" : __rustc_clz32((uint32_t)(").concat(v).concat(") & ").concat(&decimal(mask_of(bits))).concat("U) - (32 - ").concat(&dec_u64(bits)).concat("))")
    } else if bits <= 32 {
        "(".to_owned().concat(v).concat(" == 0 ? ").concat(&dec_u64(bits)).concat(" : __rustc_clz32((uint32_t)").concat(v).concat(") - (32 - ").concat(&dec_u64(bits)).concat("))")
    } else if bits <= 64 {
        "(".to_owned().concat(v).concat(" == 0 ? ").concat(&dec_u64(bits)).concat(" : __rustc_clz64((uint64_t)").concat(v).concat(") - (64 - ").concat(&dec_u64(bits)).concat("))")
    } else {
        "((uint64_t)((uint128_t)(".to_owned().concat(v).concat(") >> 64) != 0 ? __rustc_clz64((uint64_t)((uint128_t)(").concat(v).concat(") >> 64)) : 64 + ((uint64_t)(").concat(v).concat(") == 0 ? 64 : __rustc_clz64((uint64_t)(").concat(v).concat("))))")
    }
}

/// Writes the number of trailing zeros of an expression of a width.
fn render_cttz(v: &str, bits: u64) -> (r: String)
    ensures
        r@ == cttz_text(v@, bits),
{
    if bits <= 32 {
        "(".to_owned().concat(v).concat(" == 0 ? ").concat(&dec_u64(bits)).concat(" : __rustc_ctz32((uint32_t)").concat(v).concat("))")
    } else if bits <= 64 {
        "(".to_owned().concat(v).concat(" == 0 ? ").concat(&dec_u64(bits)).concat(" : __rustc_ctz64((uint64_t)").concat(v).concat("))")
    } else {
        "((uint64_t)(".to_owned().concat(v).concat(") != 0 ? __rustc_ctz64((uint64_t)(").concat(v).concat(")) : 64 + ((uint64_t)((uint128_t)(").concat(v).concat(") >> 64) == 0 ? 64 : __rustc_ctz64((uint64_t)((uint128_t)(").concat(v).concat(") >> 64))))")
    }
}

/// Writes the number of ones of an expression of a width.
fn render_ctpop(v: &str, bits: u64) -> (r: String)
    ensures
        r@ == ctpop_text(v@, bits),
{
    if bits < 32 {
        "__rustc_popcount32((uint32_t)(".to_owned().concat(v).concat(") & ").concat(&decimal(mask_of(bits))).concat("U)")
    } else if bits <= 32 {
        "__rustc_popcount32((uint32_t)".to_owned().concat(v).concat(")")
    } else if bits <= 64 {
        "__rustc_popcount64((uint64_t)".to_owned().concat(v).concat(")")
    } else {
        "(__rustc_popcount64((uint64_t)(".to_owned().concat(v).concat(")) + __rustc_popcount64((uint64_t)((uint128_t)(").concat(v).concat(") >> 64)))")
    }
}

/// Writes an expression of a width with its bytes in the other order.
fn render_bswap(v: &str, bits: u64) -> (r: String)
    ensures
        r@ == bswap_text(v@, bits),
{
    if bits == 8 {
        v.to_owned()
    } else if bits == 16 {
        "__rustc_bswap16(".to_owned().concat(v).concat(")")
    } else if bits == 32 {
        "__rustc_bswap32(".to_owned().concat(v).concat(")")
    } else if bits == 64 {
        "__rustc_bswap64(".to_owned().concat(v).concat(")")
    } else if bits == 128 {
        "((uint128_t)__rustc_bswap64((uint64_t)(".to_owned().concat(v).concat(")) << 64 | (uint128_t)__rustc_bswap64((uint64_t)((uint128_t)(").concat(v).concat(") >> 64)))")
    } else {
        v.to_owned().concat(" /* bswap unsupported for ").concat(&dec_u64(bits)).concat("-bit */")
    }
}

/// Writes the loop that reverses the bits of an expression.
fn render_reverse(rn: &str, itn: &str, bits: u64, t: &str, ut: &str, v: &str) -> (r: String)
    ensures
        r@ == reverse_text(rn@, itn@, bits, t@, ut@, v@),
{
    "for (".to_owned().concat(itn).concat(" = 0; ").concat(itn).concat(" < ").concat(&dec_u64(bits)).concat("; ").concat(itn).concat("++) { ").concat(rn).concat(" = (").concat(t).concat(")(((").concat(ut).concat(")").concat(rn).concat(" << 1) | (((").concat(ut).concat(")").concat(v).concat(" >> ").concat(itn).concat(") & 1)); }")
}

/// Writes an expression of a width, rotated.
fn render_rotate(left: bool, v: &str, s: &str, bits: u64, t: &str, ut: &str) -> (r: String)
    ensures
        r@ == rotate_text(left, v@, s@, bits, t@, ut@),
{
    if left {
        "(".to_owned().concat(t).concat(")((").concat(ut).concat(")").concat(v).concat(" << (").concat(s).concat(" % ").concat(&dec_u64(bits)).concat(") | (").concat(ut).concat(")").concat(v).concat(" >> ((").concat(&dec_u64(bits)).concat(" - ").concat(s).concat(") % ").concat(&dec_u64(bits)).concat("))")
    } else {
        "(".to_owned().concat(t).concat(")((").concat(ut).concat(")").concat(v).concat(" >> (").concat(s).concat(" % ").concat(&dec_u64(bits)).concat(") | (").concat(ut).concat(")").concat(v).concat(" << ((").concat(&dec_u64(bits)).concat(" - ").concat(s).concat(") % ").concat(&dec_u64(bits)).concat("))")
    }
}

/// Writes two expressions of a width, shifted as one.
fn render_funnel(left: bool, va: &str, vb: &str, vs: &str, bits: u64, t: &str, ut: &str) -> (r: String)
    ensures
        r@ == funnel_text(left, va@, vb@, vs@, bits, t@, ut@),
{
    if left {
        "(".to_owned().concat(t).concat(")(((").concat(ut).concat(")").concat(va).concat(" << ").concat(vs).concat(") | ((").concat(ut).concat(")").concat(vb).concat(" >> (").concat(&dec_u64(bits)).concat(" - ").concat(vs).concat(")))")
    } else {
        "(".to_owned().concat(t).concat(")(((").concat(ut).concat(")").concat(va).concat(" >> ").concat(vs).concat(") | ((").concat(ut).concat(")").concat(vb).concat(" << (").concat(&dec_u64(bits)).concat(" - ").concat(vs).concat(")))")
    }
}

/// Writes the statement that computes and tests for overflow.
fn render_overflow_call(overflow: &str, helper: &str, l: &str, r0: &str, result: &str) -> (r: String)
    ensures
        r@ == overflow_call_text(overflow@, helper@, l@, r0@, result@),
{
    overflow.to_owned().concat(" = ").concat(helper).concat("(").concat(l).concat(", ").concat(r0).concat(", &").concat(result).concat(");")
}

/// Writes the statement that takes the bound where there was overflow.
fn render_clamp_stmt(overflow: &str, result: &str, clamp: &str) -> (r: String)
    ensures
        r@ == clamp_stmt_text(overflow@, result@, clamp@),
{
    "if (".to_owned().concat(overflow).concat(") ").concat(result).concat(" = ").concat(clamp).concat(";")
}

/// Writes the bound of a signed type on the side of the second operand.
fn render_signed_clamp(upper_first: bool, r0: &str, min: &str, max: &str) -> (r: String)
    ensures
        r@ == signed_clamp_text(upper_first, r0@, min@, max@),
{
    if upper_first {
        "(".to_owned().concat(r0).concat(" > 0 ? ").concat(max).concat(" : ").concat(min).concat(")")
    } else {
        "(".to_owned().concat(r0).concat(" > 0 ? ").concat(min).concat(" : ").concat(max).concat(")")
    }
}

impl Builder {
    /// The width of an integer type in bits, 0 for other types.
    pub fn int_width(&self, t: TypeRef) -> (r: u64)
        requires
            self.wf(),
            self@.has_type(t),
        ensures
            r == self@.width(t),
            self@.cx.kind(t) is PtrWidth ==> r > 0,
    {
        let ptr_bits = self.cx.pointer_size() * 8;
        match self.get_kind(t) {
            CTypeKind::Int { bits, .. } => *bits,
            CTypeKind::PtrWidth { .. } => ptr_bits,
            CTypeKind::Bool => 1,
            _ => 0,
        }
    }

    /// The text of the unsigned type of a type, or of the type itself where it
    /// is not a signed integer.
    pub fn unsigned_str(&mut self, t: TypeRef) -> (r: String)
        requires
            old(self).wf(),
            old(self)@.has_type(t),
        ensures
            final(self).wf(),
            (final(self)@, r@) == old(self)@.unsigned_str(t),
            old(self)@.within(final(self)@),
    {
        match self.unsigned_type(t) {
            Some(u) => self.render_type(u),
            None => self.render_type(t),
        }
    }

    /// Counts leading zeros.
    pub fn codegen_ctlz(&mut self, val: ValueRef, dest: ValueRef)
        requires
            old(self).wf(),
            old(self)@.has(val),
            old(self)@.has(dest),
        ensures
            final(self).wf(),
            final(self)@ == old(self)@.codegen_ctlz(val, dest),
            old(self)@.within(final(self)@),
    {
        let t = self.get_type(val);
        let bits = self.int_width(t);
        let text = render_ctlz(&self.render(val), bits);
        let ret_ty = self.cx.type_int(32);
        let result = self.new_temp_with_stmt(ret_ty, CExpr::Raw(text));
        self.store(result, dest);
    }

    /// Counts trailing zeros.
    pub fn codegen_cttz(&mut self, val: ValueRef, dest: ValueRef)
        requires
            old(self).wf(),
            old(self)@.has(val),
            old(self)@.has(dest),
        ensures
            final(self).wf(),
            final(self)@ == old(self)@.codegen_cttz(val, dest),
            old(self)@.within(final(self)@),
    {
        let t = self.get_type(val);
        let bits = self.int_width(t);
        let text = render_cttz(&self.render(val), bits);
        let ret_ty = self.cx.type_int(32);
        let result = self.new_temp_with_stmt(ret_ty, CExpr::Raw(text));
        self.store(result, dest);
    }

    /// Counts ones.
    pub fn codegen_ctpop(&mut self, val: ValueRef, dest: ValueRef)
        requires
            old(self).wf(),
            old(self)@.has(val),
            old(self)@.has(dest),
        ensures
            final(self).wf(),
            final(self)@ == old(self)@.codegen_ctpop(val, dest),
            old(self)@.within(final(self)@),
    {
        let t = self.get_type(val);
        let bits = self.int_width(t);
        let text = render_ctpop(&self.render(val), bits);
        let ret_ty = self.cx.type_int(32);
        let result = self.new_temp_with_stmt(ret_ty, CExpr::Raw(text));
        self.store(result, dest);
    }

    /// Reverses the order of bytes.
    pub fn codegen_bswap(&mut self, val: ValueRef, dest: ValueRef)
        requires
            old(self).wf(),
            old(self)@.has(val),
            old(self)@.has(dest),
        ensures
            final(self).wf(),
            final(self)@ == old(self)@.codegen_bswap(val, dest),
            old(self)@.within(final(self)@),
    {
        let t = self.get_type(val);
        let bits = self.int_width(t);
        let text = render_bswap(&self.render(val), bits);
        let ret_ty = t;
        let result = self.new_temp_with_stmt(ret_ty, CExpr::Raw(text));
        self.store(result, dest);
    }

    /// Reverses the order of bits.
    pub fn codegen_bitreverse(&mut self, val: ValueRef, dest: ValueRef)
        requires
            old(self).wf(),
            old(self)@.has(val),
            old(self)@.has(dest),
        ensures
            final(self).wf(),
            final(self)@ == old(self)@.codegen_bitreverse(val, dest),
            old(self)@.within(final(self)@),
    {
        let t = self.get_type(val);
        let bits = self.int_width(t);
        let result = self.typed_temp(t);
        let i32_ty = self.cx.type_int(32);
        let iter = self.new_temp(i32_ty);
        let itn = self.render(iter);
        self.add_local_decl("int32_t ".to_owned().concat(&itn).concat(";"));
        let ut = self.unsigned_str(t);
        let rn = self.render(result);
        let ts = self.render_type(t);
        self.emit(CStmt::Raw(rn.clone().concat(" = 0;")));
        let text = render_reverse(&rn, &itn, bits, &ts, &ut, &self.render(val));
        self.emit(CStmt::Raw(text));
        self.store(result, dest);
    }

    /// Adds or subtracts, and takes the nearest number of the type where that
    /// overflows.
    pub fn codegen_saturating(&mut self, is_add: bool, lhs: ValueRef, rhs: ValueRef, dest: ValueRef)
        requires
            old(self).wf(),
            old(self)@.has(lhs),
            old(self)@.has(rhs),
            old(self)@.has(dest),
            old(self)@.kind_of(lhs) matches Kind::Int { bits, signed: true } ==> bits > 0,
        ensures
            final(self).wf(),
            final(self)@ == old(self)@.codegen_saturating(is_add, lhs, rhs, dest),
            old(self)@.within(final(self)@),
    {
        let t = self.get_type(lhs);
        let bits = self.int_width(t);
        let ts = self.render_type(t);
        let suffix = render_suffix(self.get_kind(t));
        let signed = match self.get_kind(t) {
            CTypeKind::Int { signed: true, .. } => true,
            CTypeKind::PtrWidth { signed: true } => true,
            _ => false,
        };
        let l = self.render(lhs);
        let r0 = self.render(rhs);
        let result = self.typed_temp(t);
        let overflow = self.typed_temp(t);
        let op = if is_add {
            "add"
        } else {
            "sub"
        };
        let helper = "__rustc_".to_owned().concat(op).concat("_overflow_").concat(&suffix);
        let clamp = if signed {
            let (min, max) = render_signed_bounds(bits, &ts);
            render_signed_clamp(is_add, &r0, &min, &max)
        } else if is_add {
            render_unsigned_bound(bits, &ts)
        } else {
            "(".to_owned().concat(&ts).concat(")0")
        };
        let rn = self.render(result);
        let on = self.render(overflow);
        self.emit(CStmt::Raw(render_overflow_call(&on, &helper, &l, &r0, &rn)));
        self.emit(CStmt::Raw(render_clamp_stmt(&on, &rn, &clamp)));
        self.store(result, dest);
    }

    /// Rotates the bits of a number.
    pub fn codegen_rotate(&mut self, left: bool, val: ValueRef, shift: ValueRef, dest: ValueRef)
        requires
            old(self).wf(),
            old(self)@.has(val),
            old(self)@.has(shift),
            old(self)@.has(dest),
        ensures
            final(self).wf(),
            final(self)@ == old(self)@.codegen_rotate(left, val, shift, dest),
            old(self)@.within(final(self)@),
    {
        let t = self.get_type(val);
        let bits = self.int_width(t);
        let ut = self.unsigned_str(t);
        let ts = self.render_type(t);
        let text = render_rotate(left, &self.render(val), &self.render(shift), bits, &ts, &ut);
        let result = self.new_temp_with_stmt(t, CExpr::Raw(text));
        self.store(result, dest);
    }

    /// Shifts two numbers as one of twice the width.
    pub fn codegen_funnel_shift(&mut self, left: bool, a: ValueRef, b: ValueRef, shift: ValueRef, dest: ValueRef)
        requires
            old(self).wf(),
            old(self)@.has(a),
            old(self)@.has(b),
            old(self)@.has(shift),
            old(self)@.has(dest),
        ensures
            final(self).wf(),
            final(self)@ == old(self)@.codegen_funnel_shift(left, a, b, shift, dest),
            old(self)@.within(final(self)@),
    {
        let t = self.get_type(a);
        let bits = self.int_width(t);
        let ut = self.unsigned_str(t);
        let ts = self.render_type(t);
        let text = render_funnel(
            left,
            &self.render(a),
            &self.render(b),
            &self.render(shift),
            bits,
            &ts,
            &ut,
        );
        let result = self.new_temp_with_stmt(t, CExpr::Raw(text));
        self.store(result, dest);
    }
}

} // verus!
