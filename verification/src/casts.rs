//! Casts and comparisons.
use vstd::arithmetic::power2::{lemma_pow2_pos, pow2};
use vstd::prelude::*;

use crate::builder::{Builder, Bx};
use crate::c_ast::{CBinOp, CExpr, CStmt, CUnaryOp, Expr, Stmt};
use crate::consts::{pow2_fits, pow2_top, power_of_two};
use crate::kept::{conversions_give_unsigned_bits, unsigned_bits};
use crate::meaning::Meaning;
use crate::numbers::{
    cast_gives, cast_result, comparison_result, comparisons_ask_the_predicate, intcast_gives,
    intcast_result, zext_gives, zext_result,
};
use crate::text::{dec, decimal, digit, Text};
use crate::types::{CTypeKind, Kind, TypeRef};
use crate::values::{int_text, render_int, render_uint, uint_text, ValKind, ValueRef};

verus! {

/// How integers are compared.
#[derive(Clone, Copy, PartialEq, Eq, Structural, Debug)]
pub enum IntPredicate {
    IntEQ,
    IntNE,
    IntUGT,
    IntUGE,
    IntULT,
    IntULE,
    IntSGT,
    IntSGE,
    IntSLT,
    IntSLE,
}

/// How floating-point numbers are compared. The ordered (`O`) and the unordered
/// (`U`) form of a comparison are written with the same C operator: where one of
/// the operands is not a number, `!=` holds and every other operator does not.
/// `RealORD` and `RealUNO` ask whether one is not a number.
#[derive(Clone, Copy, PartialEq, Eq, Structural, Debug)]
pub enum RealPredicate {
    RealPredicateFalse,
    RealOEQ,
    RealOGT,
    RealOGE,
    RealOLT,
    RealOLE,
    RealONE,
    RealORD,
    RealUNO,
    RealUEQ,
    RealUGT,
    RealUGE,
    RealULT,
    RealULE,
    RealUNE,
    RealPredicateTrue,
}

/// The C operator of a comparison of integers.
pub open spec fn int_op_of(op: IntPredicate) -> CBinOp {
    match op {
        IntPredicate::IntEQ => CBinOp::Eq,
        IntPredicate::IntNE => CBinOp::Ne,
        IntPredicate::IntUGT => CBinOp::Gt,
        IntPredicate::IntSGT => CBinOp::Gt,
        IntPredicate::IntUGE => CBinOp::Ge,
        IntPredicate::IntSGE => CBinOp::Ge,
        IntPredicate::IntULT => CBinOp::Lt,
        IntPredicate::IntSLT => CBinOp::Lt,
        IntPredicate::IntULE => CBinOp::Le,
        IntPredicate::IntSLE => CBinOp::Le,
    }
}

/// Whether integers are compared as unsigned numbers.
pub open spec fn unsigned_op(op: IntPredicate) -> bool {
    op is IntUGT || op is IntUGE || op is IntULT || op is IntULE
}

/// Whether integers are compared as signed numbers.
pub open spec fn signed_op(op: IntPredicate) -> bool {
    op is IntSGT || op is IntSGE || op is IntSLT || op is IntSLE
}

/// The C operator of a comparison of floating-point numbers, where there is one.
pub open spec fn real_op_of(op: RealPredicate) -> CBinOp {
    match op {
        RealPredicate::RealOEQ => CBinOp::Eq,
        RealPredicate::RealUEQ => CBinOp::Eq,
        RealPredicate::RealONE => CBinOp::Ne,
        RealPredicate::RealUNE => CBinOp::Ne,
        RealPredicate::RealOGT => CBinOp::Gt,
        RealPredicate::RealUGT => CBinOp::Gt,
        RealPredicate::RealOGE => CBinOp::Ge,
        RealPredicate::RealUGE => CBinOp::Ge,
        RealPredicate::RealOLT => CBinOp::Lt,
        RealPredicate::RealULT => CBinOp::Lt,
        RealPredicate::RealOLE => CBinOp::Le,
        RealPredicate::RealULE => CBinOp::Le,
        _ => CBinOp::Eq,
    }
}

/// The width that an operand of a comparison has.
pub open spec fn operand_bits(k: Kind) -> u64 {
    match k {
        Kind::Int { bits, .. } => bits,
        Kind::Bool => 1,
        Kind::Ptr => 64,
        _ => 0,
    }
}

/// The larger of two widths.
pub open spec fn wider(a: u64, b: u64) -> u64 {
    if a >= b {
        a
    } else {
        b
    }
}

/// The kind of type at which two operands are compared, where they are cast.
pub open spec fn compare_kind(op: IntPredicate, l: Kind, r: Kind) -> Option<Kind> {
    let bits = wider(operand_bits(l), operand_bits(r));
    if l is PtrWidth || r is PtrWidth {
        Some(Kind::PtrWidth { signed: !unsigned_op(op) })
    } else if unsigned_op(op) || signed_op(op) || bits > 0 {
        Some(Kind::Int { bits, signed: !unsigned_op(op) })
    } else {
        None
    }
}

/// Whether a number is one that is not a number.
pub open spec fn is_nan(v: Expr) -> Expr {
    Expr::binop(v, CBinOp::Ne, v)
}

/// The bounds of an integer type to which a conversion saturates.
pub struct Bounds {
    /// The least number, as a floating-point expression.
    pub from: Text,
    /// One more than the largest number, as a floating-point expression.
    pub to: Text,
    /// The least number, as an integer expression.
    pub min: Text,
    /// The largest number, as an integer expression.
    pub max: Text,
}

/// The power of two that is one more than the largest number of a width.
pub open spec fn unsigned_limit(bits: nat) -> int {
    pow2(bits) as int
}

/// The power of two that is one more than the largest signed number of a width.
pub open spec fn signed_limit(bits: nat) -> int {
    pow2((bits - 1) as nat) as int
}

/// A floating-point number cast to an integer type, clamped to its bounds.
pub open spec fn clamped(v: Expr, t: Text, b: Bounds) -> Expr {
    Expr::ternary(
        is_nan(v),
        Expr::cast(t, Expr::Lit("0"@)),
        Expr::ternary(
            Expr::binop(v, CBinOp::Lt, Expr::Lit(b.from)),
            Expr::cast(t, Expr::Lit(b.min)),
            Expr::ternary(
                Expr::binop(v, CBinOp::Ge, Expr::Lit(b.to)),
                Expr::cast(t, Expr::Lit(b.max)),
                Expr::cast(t, v),
            ),
        ),
    )
}

/// The bounds of an unsigned type. The limit is a power of two, so that it has an
/// exact floating-point literal; the largest number has none where the type is
/// wider than the significand.
pub open spec fn unsigned_bounds(k: Kind) -> Option<Bounds> {
    match k {
        Kind::Int { bits, .. } => if bits <= 128 {
            Some(
                Bounds {
                    from: "0.0"@,
                    to: dec(unsigned_limit(bits as nat) as nat) + ".0"@,
                    min: "0"@,
                    max: uint_text((unsigned_limit(bits as nat) - 1) as u128),
                },
            )
        } else {
            None
        },
        Kind::PtrWidth { .. } => Some(
            Bounds {
                from: "0.0"@,
                to: "((double)(UINTPTR_MAX / 2 + 1) * 2.0)"@,
                min: "0"@,
                max: "UINTPTR_MAX"@,
            },
        ),
        _ => None,
    }
}

/// The bounds of a signed type. The least number is a power of two with its sign,
/// and the limit the same power.
pub open spec fn signed_bounds(k: Kind) -> Option<Bounds> {
    match k {
        Kind::Int { bits, signed: true } => if bits <= 128 {
            let limit = signed_limit(bits as nat);
            Some(
                Bounds {
                    from: "-"@ + (dec(limit as nat) + ".0"@),
                    to: dec(limit as nat) + ".0"@,
                    min: "(-"@ + int_text((limit - 1) as i128) + " - 1)"@,
                    max: int_text((limit - 1) as i128),
                },
            )
        } else {
            None
        },
        Kind::PtrWidth { signed: true } => Some(
            Bounds {
                from: "(double)INTPTR_MIN"@,
                to: "-(double)INTPTR_MIN"@,
                min: "INTPTR_MIN"@,
                max: "INTPTR_MAX"@,
            },
        ),
        _ => None,
    }
}

/// Whether a cast keeps the bits: between pointers, and between integers of the
/// same width.
pub open spec fn cast_keeps_bits(src: Kind, dst: Kind, ptr_bytes: u64) -> bool {
    match (src, dst) {
        (Kind::Ptr, Kind::Ptr) => true,
        (Kind::Int { bits: a, .. }, Kind::Int { bits: b, .. }) => a == b,
        (Kind::PtrWidth { .. }, Kind::PtrWidth { .. }) => true,
        (Kind::PtrWidth { .. }, Kind::Int { bits, .. }) => bits == ptr_bytes * 8,
        (Kind::Int { bits, .. }, Kind::PtrWidth { .. }) => bits == ptr_bytes * 8,
        _ => false,
    }
}

/// The kind of the signed type of the width of an unsigned one.
pub open spec fn signed_kind(k: Kind) -> Option<Kind> {
    match k {
        Kind::Int { bits, signed: false } => Some(Kind::Int { bits, signed: true }),
        Kind::PtrWidth { signed: false } => Some(Kind::PtrWidth { signed: true }),
        _ => None,
    }
}

/// What the casts and comparisons do.
impl Bx {
    /// A cast through another type.
    pub open spec fn cast_through(self, v: ValueRef, mid: TypeRef, t: TypeRef) -> (Bx, ValueRef) {
        self.temp_stmt(
            t,
            Expr::cast(self.type_str(t), Expr::cast(self.type_str(mid), self.var(v))),
        )
    }

    pub open spec fn zext(self, v: ValueRef, t: TypeRef) -> (Bx, ValueRef) {
        let (b, u) = self.unsigned(self.type_of(v));
        match u {
            Some(u) => b.cast_through(v, u, t),
            None => self.cast(v, t),
        }
    }

    pub open spec fn fptoui(self, v: ValueRef, t: TypeRef) -> (Bx, ValueRef) {
        let (b, u) = self.unsigned(t);
        match u {
            Some(u) => b.cast_through(v, u, t),
            None => self.cast(v, t),
        }
    }

    pub open spec fn fptoui_sat(self, v: ValueRef, t: TypeRef) -> (Bx, ValueRef) {
        match unsigned_bounds(self.cx.kind(t)) {
            Some(b) => self.temp_stmt(t, clamped(self.var(v), self.type_str(t), b)),
            None => self.cast(v, t),
        }
    }

    pub open spec fn fptosi_sat(self, v: ValueRef, t: TypeRef) -> (Bx, ValueRef) {
        match signed_bounds(self.cx.kind(t)) {
            Some(b) => self.temp_stmt(t, clamped(self.var(v), self.type_str(t), b)),
            None => self.cast(v, t),
        }
    }

    pub open spec fn bitcast(self, v: ValueRef, t: TypeRef) -> (Bx, ValueRef) {
        let src_ty = self.type_of(v);
        if src_ty == t {
            (self, v)
        } else if cast_keeps_bits(self.cx.kind(src_ty), self.cx.kind(t), self.cx.ptr_bytes) {
            self.cast(v, t)
        } else {
            let (b1, result) = self.value(ValKind::Temp, t);
            let (b2, src) = b1.value(ValKind::Temp, src_ty);
            let b3 = b2.local(b2.type_str(t) + " "@ + b2.cx.text(result) + ";"@).local(
                b2.type_str(src_ty) + " "@ + b2.cx.text(src) + ";"@,
            );
            (
                b3.emit(Stmt::Assign(b3.var(src), b3.var(v))).emit(
                    Stmt::Expr(
                        Expr::call(
                            "memcpy"@,
                            seq![
                                Expr::addr_of(b3.var(result)),
                                Expr::addr_of(b3.var(src)),
                                Expr::sizeof_expr(b3.var(result)),
                            ],
                        ),
                    ),
                ),
                result,
            )
        }
    }

    pub open spec fn intcast(self, v: ValueRef, t: TypeRef, is_signed: bool) -> (Bx, ValueRef) {
        if is_signed {
            match signed_kind(self.kind_of(v)) {
                Some(k) => self.intern(k).cast_through(v, self.cx.ty(k), t),
                None => self.cast(v, t),
            }
        } else {
            self.zext(v, t)
        }
    }

    pub open spec fn icmp(self, op: IntPredicate, l: ValueRef, r: ValueRef) -> (Bx, ValueRef) {
        let b = self.intern(Kind::Bool);
        let bool_ty = self.cx.ty(Kind::Bool);
        match compare_kind(op, b.kind_of(l), b.kind_of(r)) {
            Some(k) => {
                let b1 = b.intern(k);
                let t = b1.type_str(b.cx.ty(k));
                b1.temp_stmt(
                    bool_ty,
                    Expr::binop(
                        Expr::cast(t, b1.var(l)),
                        int_op_of(op),
                        Expr::cast(t, b1.var(r)),
                    ),
                )
            },
            None => b.temp_stmt(bool_ty, Expr::binop(b.var(l), int_op_of(op), b.var(r))),
        }
    }

    pub open spec fn fcmp(self, op: RealPredicate, l: ValueRef, r: ValueRef) -> (Bx, ValueRef) {
        let b = self.intern(Kind::Bool);
        let bool_ty = self.cx.ty(Kind::Bool);
        match op {
            RealPredicate::RealPredicateFalse => {
                let (c, v) = b.cx.adds(ValKind::BoolConst(false), Kind::Bool);
                (b.with_cx(c), v)
            },
            RealPredicate::RealPredicateTrue => {
                let (c, v) = b.cx.adds(ValKind::BoolConst(true), Kind::Bool);
                (b.with_cx(c), v)
            },
            RealPredicate::RealORD => b.temp_stmt(
                bool_ty,
                Expr::binop(
                    Expr::unary(CUnaryOp::LogNot, is_nan(b.var(l))),
                    CBinOp::LogAnd,
                    Expr::unary(CUnaryOp::LogNot, is_nan(b.var(r))),
                ),
            ),
            RealPredicate::RealUNO => b.temp_stmt(
                bool_ty,
                Expr::binop(is_nan(b.var(l)), CBinOp::LogOr, is_nan(b.var(r))),
            ),
            _ => b.temp_stmt(bool_ty, Expr::binop(b.var(l), real_op_of(op), b.var(r))),
        }
    }
}

/// Writes a power of two.
fn render_power(bits: u64) -> (r: String)
    requires
        bits <= 128,
    ensures
        r@ == dec(pow2(bits as nat)),
{
    if bits == 128 {
        proof {
            pow2_top();
        }
        let mut r = decimal(34028236692093846346337460743176821145);
        r.push('6');
        assert(digit(6) == '6');
        r
    } else {
        decimal(power_of_two(bits as u32))
    }
}

/// The bounds of an integer type, written out.
struct BoundTexts {
    from: String,
    to: String,
    min: String,
    max: String,
}

impl View for BoundTexts {
    type V = Bounds;

    closed spec fn view(&self) -> Bounds {
        Bounds { from: self.from@, to: self.to@, min: self.min@, max: self.max@ }
    }
}

/// The bounds of optional texts.
spec fn opt_bounds(b: Option<BoundTexts>) -> Option<Bounds> {
    match b {
        Some(b) => Some(b@),
        None => None,
    }
}

/// Writes the bounds of an unsigned type.
fn render_unsigned_bounds(k: &CTypeKind) -> (r: Option<BoundTexts>)
    ensures
        opt_bounds(r) == unsigned_bounds(k@),
{
    match k {
        CTypeKind::Int { bits, .. } => {
            if *bits > 128 {
                return None;
            }
            proof {
                pow2_top();
                lemma_pow2_pos(*bits as nat);
            }
            let most: u128 = if *bits == 128 {
                0xffff_ffff_ffff_ffff_ffff_ffff_ffff_ffff
            } else {
                power_of_two(*bits as u32) - 1
            };
            Some(
                BoundTexts {
                    from: "0.0".to_owned(),
                    to: render_power(*bits).concat(".0"),
                    min: "0".to_owned(),
                    max: render_uint(most),
                },
            )
        },
        CTypeKind::PtrWidth { .. } => Some(
            BoundTexts {
                from: "0.0".to_owned(),
                to: "((double)(UINTPTR_MAX / 2 + 1) * 2.0)".to_owned(),
                min: "0".to_owned(),
                max: "UINTPTR_MAX".to_owned(),
            },
        ),
        _ => None,
    }
}

/// Writes the bounds of a signed type.
fn render_signed_bounds(k: &CTypeKind) -> (r: Option<BoundTexts>)
    requires
        k@ matches Kind::Int { bits, signed: true } ==> bits > 0,
    ensures
        opt_bounds(r) == signed_bounds(k@),
{
    match k {
        CTypeKind::Int { bits, signed: true } => {
            if *bits > 128 {
                return None;
            }
            proof {
                pow2_fits((*bits - 1) as nat);
                lemma_pow2_pos((*bits - 1) as nat);
            }
            let most: u128 = power_of_two((*bits - 1) as u32) - 1;
            let max = render_int(most as i128);
            let limit = render_power(*bits - 1).concat(".0");
            Some(
                BoundTexts {
                    from: "-".to_owned().concat(&limit),
                    to: limit,
                    min: "(-".to_owned().concat(&max).concat(" - 1)"),
                    max,
                },
            )
        },
        CTypeKind::PtrWidth { signed: true } => Some(
            BoundTexts {
                from: "(double)INTPTR_MIN".to_owned(),
                to: "-(double)INTPTR_MIN".to_owned(),
                min: "INTPTR_MIN".to_owned(),
                max: "INTPTR_MAX".to_owned(),
            },
        ),
        _ => None,
    }
}

/// Writes a floating-point number cast to an integer type, clamped to its
/// bounds.
fn saturated(v: &str, t: &str, b: &BoundTexts) -> (r: CExpr)
    ensures
        r@ == clamped(Expr::Var(v@), t@, b@),
{
    let nan = CExpr::binop(CExpr::var(v), CBinOp::Ne, CExpr::var(v));
    let inner = CExpr::ternary(
        CExpr::binop(CExpr::var(v), CBinOp::Ge, CExpr::lit(&b.to)),
        CExpr::cast(t, CExpr::lit(&b.max)),
        CExpr::cast(t, CExpr::var(v)),
    );
    let mid = CExpr::ternary(
        CExpr::binop(CExpr::var(v), CBinOp::Lt, CExpr::lit(&b.from)),
        CExpr::cast(t, CExpr::lit(&b.min)),
        inner,
    );
    CExpr::ternary(nan, CExpr::cast(t, CExpr::lit("0")), mid)
}

/// The C operator of a comparison of integers.
fn int_op(op: IntPredicate) -> (r: CBinOp)
    ensures
        r == int_op_of(op),
{
    match op {
        IntPredicate::IntEQ => CBinOp::Eq,
        IntPredicate::IntNE => CBinOp::Ne,
        IntPredicate::IntUGT => CBinOp::Gt,
        IntPredicate::IntSGT => CBinOp::Gt,
        IntPredicate::IntUGE => CBinOp::Ge,
        IntPredicate::IntSGE => CBinOp::Ge,
        IntPredicate::IntULT => CBinOp::Lt,
        IntPredicate::IntSLT => CBinOp::Lt,
        IntPredicate::IntULE => CBinOp::Le,
        IntPredicate::IntSLE => CBinOp::Le,
    }
}

/// Whether integers are compared as unsigned numbers.
fn is_unsigned(op: IntPredicate) -> (r: bool)
    ensures
        r == unsigned_op(op),
{
    match op {
        IntPredicate::IntUGT => true,
        IntPredicate::IntUGE => true,
        IntPredicate::IntULT => true,
        IntPredicate::IntULE => true,
        _ => false,
    }
}

/// Whether integers are compared as signed numbers.
fn is_signed(op: IntPredicate) -> (r: bool)
    ensures
        r == signed_op(op),
{
    match op {
        IntPredicate::IntSGT => true,
        IntPredicate::IntSGE => true,
        IntPredicate::IntSLT => true,
        IntPredicate::IntSLE => true,
        _ => false,
    }
}

/// The C operator of a comparison of floating-point numbers.
fn real_op(op: RealPredicate) -> (r: CBinOp)
    ensures
        r == real_op_of(op),
{
    match op {
        RealPredicate::RealONE => CBinOp::Ne,
        RealPredicate::RealUNE => CBinOp::Ne,
        RealPredicate::RealOGT => CBinOp::Gt,
        RealPredicate::RealUGT => CBinOp::Gt,
        RealPredicate::RealOGE => CBinOp::Ge,
        RealPredicate::RealUGE => CBinOp::Ge,
        RealPredicate::RealOLT => CBinOp::Lt,
        RealPredicate::RealULT => CBinOp::Lt,
        RealPredicate::RealOLE => CBinOp::Le,
        RealPredicate::RealULE => CBinOp::Le,
        _ => CBinOp::Eq,
    }
}

/// The width that an operand of a comparison has.
fn operand_width(k: &CTypeKind) -> (r: u64)
    ensures
        r == operand_bits(k@),
{
    match k {
        CTypeKind::Int { bits, .. } => *bits,
        CTypeKind::Bool => 1,
        CTypeKind::Ptr => 64,
        _ => 0,
    }
}

impl Builder {
    /// Compares two values at one type.
    fn compare_at(
        &mut self,
        bool_ty: TypeRef,
        cast_ty: TypeRef,
        op: CBinOp,
        lhs: ValueRef,
        rhs: ValueRef,
    ) -> (r: ValueRef)
        requires
            old(self).wf(),
            old(self)@.has_type(bool_ty),
            old(self)@.has_type(cast_ty),
            old(self)@.has(lhs),
            old(self)@.has(rhs),
        ensures
            final(self).wf(),
            (final(self)@, r) == old(self)@.temp_stmt(
                bool_ty,
                Expr::binop(
                    Expr::cast(old(self)@.type_str(cast_ty), old(self)@.var(lhs)),
                    op,
                    Expr::cast(old(self)@.type_str(cast_ty), old(self)@.var(rhs)),
                ),
            ),
            final(self)@.has(r),
            old(self)@.within(final(self)@),
    {
        let t = self.render_type(cast_ty);
        let e = CExpr::binop(
            CExpr::cast(&t, self.var(lhs)),
            op,
            CExpr::cast(&t, self.var(rhs)),
        );
        self.new_temp_with_stmt(bool_ty, e)
    }

    /// Narrows an integer.
    pub fn trunc(&mut self, val: ValueRef, dest_ty: TypeRef) -> (r: ValueRef)
        requires
            old(self).wf(),
            old(self)@.has(val),
            old(self)@.has_type(dest_ty),
        ensures
            final(self).wf(),
            (final(self)@, r) == old(self)@.cast(val, dest_ty),
            final(self)@.has(r),
            old(self)@.within(final(self)@),
            old(self)@.then_gives(
                final(self)@,
                r,
                |m: Meaning, n: int|
                    cast_result(old(self)@, val, dest_ty, m, n),
            ),
    {
        proof {
            cast_gives(self@, val, dest_ty);
        }
        self.cast(val, dest_ty)
    }

    /// Widens a signed integer.
    pub fn sext(&mut self, val: ValueRef, dest_ty: TypeRef) -> (r: ValueRef)
        requires
            old(self).wf(),
            old(self)@.has(val),
            old(self)@.has_type(dest_ty),
        ensures
            final(self).wf(),
            (final(self)@, r) == old(self)@.cast(val, dest_ty),
            final(self)@.has(r),
            old(self)@.within(final(self)@),
            old(self)@.then_gives(
                final(self)@,
                r,
                |m: Meaning, n: int|
                    cast_result(old(self)@, val, dest_ty, m, n),
            ),
    {
        proof {
            cast_gives(self@, val, dest_ty);
        }
        self.cast(val, dest_ty)
    }

    /// Widens an integer with zeros: through the unsigned type of its width.
    pub fn zext(&mut self, val: ValueRef, dest_ty: TypeRef) -> (r: ValueRef)
        requires
            old(self).wf(),
            old(self)@.has(val),
            old(self)@.has_type(dest_ty),
        ensures
            final(self).wf(),
            (final(self)@, r) == old(self)@.zext(val, dest_ty),
            final(self)@.has(r),
            old(self)@.within(final(self)@),
            old(self)@.cx.types.len() < usize::MAX ==> old(self)@.then_gives(
                final(self)@,
                r,
                |m: Meaning, n: int|
                    zext_result(old(self)@, val, dest_ty, m, n),
            ),
    {
        proof {
            self.cx.wf_is_consistent();
            if self@.cx.types.len() < usize::MAX {
                zext_gives(self@, val, dest_ty);
            }
        }
        let src_ty = self.get_type(val);
        if let Some(u) = self.unsigned_type(src_ty) {
            let e = CExpr::cast(
                &self.render_type(dest_ty),
                CExpr::cast(&self.render_type(u), self.var(val)),
            );
            self.new_temp_with_stmt(dest_ty, e)
        } else {
            self.cast(val, dest_ty)
        }
    }

    /// Converts a floating-point number to an unsigned integer: without its fraction,
    /// or the nearest number that the type holds, and zero where it is not a number.
    pub fn fptoui_sat(&mut self, val: ValueRef, dest_ty: TypeRef) -> (r: ValueRef)
        requires
            old(self).wf(),
            old(self)@.has(val),
            old(self)@.has_type(dest_ty),
        ensures
            final(self).wf(),
            (final(self)@, r) == old(self)@.fptoui_sat(val, dest_ty),
            final(self)@.has(r),
            old(self)@.within(final(self)@),
    {
        match render_unsigned_bounds(self.get_kind(dest_ty)) {
            Some(bounds) => {
                let dt = self.render_type(dest_ty);
                let v = self.render(val);
                let e = saturated(&v, &dt, &bounds);
                self.new_temp_with_stmt(dest_ty, e)
            },
            None => self.cast(val, dest_ty),
        }
    }

    /// Converts a floating-point number to a signed integer: without its fraction, or
    /// the nearest number that the type holds, and zero where it is not a number.
    pub fn fptosi_sat(&mut self, val: ValueRef, dest_ty: TypeRef) -> (r: ValueRef)
        requires
            old(self).wf(),
            old(self)@.has(val),
            old(self)@.has_type(dest_ty),
            old(self)@.cx.kind(dest_ty) matches Kind::Int { bits, signed: true } ==> bits > 0,
        ensures
            final(self).wf(),
            (final(self)@, r) == old(self)@.fptosi_sat(val, dest_ty),
            final(self)@.has(r),
            old(self)@.within(final(self)@),
    {
        match render_signed_bounds(self.get_kind(dest_ty)) {
            Some(bounds) => {
                let dt = self.render_type(dest_ty);
                let v = self.render(val);
                let e = saturated(&v, &dt, &bounds);
                self.new_temp_with_stmt(dest_ty, e)
            },
            None => self.cast(val, dest_ty),
        }
    }

    /// Converts a floating-point number to an unsigned integer, through the unsigned
    /// type of its width.
    pub fn fptoui(&mut self, val: ValueRef, dest_ty: TypeRef) -> (r: ValueRef)
        requires
            old(self).wf(),
            old(self)@.has(val),
            old(self)@.has_type(dest_ty),
        ensures
            final(self).wf(),
            (final(self)@, r) == old(self)@.fptoui(val, dest_ty),
            final(self)@.has(r),
            old(self)@.within(final(self)@),
            old(self)@.cx.types.len() < usize::MAX ==> old(self)@.then_gives(
                final(self)@,
                r,
                |m: Meaning, n: int|
                    unsigned_bits(old(self)@, val, dest_ty, m, n),
            ),
    {
        proof {
            self.cx.wf_is_consistent();
            if self@.cx.types.len() < usize::MAX {
                conversions_give_unsigned_bits(self@, val, dest_ty);
            }
        }
        if let Some(u) = self.unsigned_type(dest_ty) {
            let e = CExpr::cast(
                &self.render_type(dest_ty),
                CExpr::cast(&self.render_type(u), self.var(val)),
            );
            self.new_temp_with_stmt(dest_ty, e)
        } else {
            self.cast(val, dest_ty)
        }
    }

    /// Converts a floating-point number to a signed integer.
    pub fn fptosi(&mut self, val: ValueRef, dest_ty: TypeRef) -> (r: ValueRef)
        requires
            old(self).wf(),
            old(self)@.has(val),
            old(self)@.has_type(dest_ty),
        ensures
            final(self).wf(),
            (final(self)@, r) == old(self)@.cast(val, dest_ty),
            final(self)@.has(r),
            old(self)@.within(final(self)@),
            old(self)@.then_gives(
                final(self)@,
                r,
                |m: Meaning, n: int|
                    cast_result(old(self)@, val, dest_ty, m, n),
            ),
    {
        proof {
            cast_gives(self@, val, dest_ty);
        }
        self.cast(val, dest_ty)
    }

    /// Converts an unsigned integer to a floating-point number.
    pub fn uitofp(&mut self, val: ValueRef, dest_ty: TypeRef) -> (r: ValueRef)
        requires
            old(self).wf(),
            old(self)@.has(val),
            old(self)@.has_type(dest_ty),
        ensures
            final(self).wf(),
            (final(self)@, r) == old(self)@.zext(val, dest_ty),
            final(self)@.has(r),
            old(self)@.within(final(self)@),
            old(self)@.cx.types.len() < usize::MAX ==> old(self)@.then_gives(
                final(self)@,
                r,
                |m: Meaning, n: int|
                    zext_result(old(self)@, val, dest_ty, m, n),
            ),
    {
        proof {
            self.cx.wf_is_consistent();
            if self@.cx.types.len() < usize::MAX {
                zext_gives(self@, val, dest_ty);
            }
        }
        self.zext(val, dest_ty)
    }

    /// Converts a signed integer to a floating-point number.
    pub fn sitofp(&mut self, val: ValueRef, dest_ty: TypeRef) -> (r: ValueRef)
        requires
            old(self).wf(),
            old(self)@.has(val),
            old(self)@.has_type(dest_ty),
        ensures
            final(self).wf(),
            (final(self)@, r) == old(self)@.cast(val, dest_ty),
            final(self)@.has(r),
            old(self)@.within(final(self)@),
            old(self)@.then_gives(
                final(self)@,
                r,
                |m: Meaning, n: int|
                    cast_result(old(self)@, val, dest_ty, m, n),
            ),
    {
        proof {
            cast_gives(self@, val, dest_ty);
        }
        self.cast(val, dest_ty)
    }

    /// Narrows a floating-point number.
    pub fn fptrunc(&mut self, val: ValueRef, dest_ty: TypeRef) -> (r: ValueRef)
        requires
            old(self).wf(),
            old(self)@.has(val),
            old(self)@.has_type(dest_ty),
        ensures
            final(self).wf(),
            (final(self)@, r) == old(self)@.cast(val, dest_ty),
            final(self)@.has(r),
            old(self)@.within(final(self)@),
            old(self)@.then_gives(
                final(self)@,
                r,
                |m: Meaning, n: int|
                    cast_result(old(self)@, val, dest_ty, m, n),
            ),
    {
        proof {
            cast_gives(self@, val, dest_ty);
        }
        self.cast(val, dest_ty)
    }

    /// Widens a floating-point number.
    pub fn fpext(&mut self, val: ValueRef, dest_ty: TypeRef) -> (r: ValueRef)
        requires
            old(self).wf(),
            old(self)@.has(val),
            old(self)@.has_type(dest_ty),
        ensures
            final(self).wf(),
            (final(self)@, r) == old(self)@.cast(val, dest_ty),
            final(self)@.has(r),
            old(self)@.within(final(self)@),
            old(self)@.then_gives(
                final(self)@,
                r,
                |m: Meaning, n: int|
                    cast_result(old(self)@, val, dest_ty, m, n),
            ),
    {
        proof {
            cast_gives(self@, val, dest_ty);
        }
        self.cast(val, dest_ty)
    }

    /// A pointer as an integer.
    pub fn ptrtoint(&mut self, val: ValueRef, dest_ty: TypeRef) -> (r: ValueRef)
        requires
            old(self).wf(),
            old(self)@.has(val),
            old(self)@.has_type(dest_ty),
        ensures
            final(self).wf(),
            (final(self)@, r) == old(self)@.cast(val, dest_ty),
            final(self)@.has(r),
            old(self)@.within(final(self)@),
            old(self)@.then_gives(
                final(self)@,
                r,
                |m: Meaning, n: int|
                    cast_result(old(self)@, val, dest_ty, m, n),
            ),
    {
        proof {
            cast_gives(self@, val, dest_ty);
        }
        self.cast(val, dest_ty)
    }

    /// An integer as a pointer.
    pub fn inttoptr(&mut self, val: ValueRef, dest_ty: TypeRef) -> (r: ValueRef)
        requires
            old(self).wf(),
            old(self)@.has(val),
            old(self)@.has_type(dest_ty),
        ensures
            final(self).wf(),
            (final(self)@, r) == old(self)@.cast(val, dest_ty),
            final(self)@.has(r),
            old(self)@.within(final(self)@),
            old(self)@.then_gives(
                final(self)@,
                r,
                |m: Meaning, n: int|
                    cast_result(old(self)@, val, dest_ty, m, n),
            ),
    {
        proof {
            cast_gives(self@, val, dest_ty);
        }
        self.cast(val, dest_ty)
    }

    /// A pointer at another type.
    pub fn pointercast(&mut self, val: ValueRef, dest_ty: TypeRef) -> (r: ValueRef)
        requires
            old(self).wf(),
            old(self)@.has(val),
            old(self)@.has_type(dest_ty),
        ensures
            final(self).wf(),
            (final(self)@, r) == old(self)@.cast(val, dest_ty),
            final(self)@.has(r),
            old(self)@.within(final(self)@),
            old(self)@.then_gives(
                final(self)@,
                r,
                |m: Meaning, n: int|
                    cast_result(old(self)@, val, dest_ty, m, n),
            ),
    {
        proof {
            cast_gives(self@, val, dest_ty);
        }
        self.cast(val, dest_ty)
    }

    /// The same bits at another type. Pointers and integers of the same width are
    /// cast; anything else is copied through memory.
    pub fn bitcast(&mut self, val: ValueRef, dest_ty: TypeRef) -> (r: ValueRef)
        requires
            old(self).wf(),
            old(self)@.has(val),
            old(self)@.has_type(dest_ty),
        ensures
            final(self).wf(),
            (final(self)@, r) == old(self)@.bitcast(val, dest_ty),
            final(self)@.has(r),
            old(self)@.within(final(self)@),
    {
        let src_ty = self.get_type(val);
        if src_ty.0 == dest_ty.0 {
            return val;
        }
        let ptr_bits: u64 = if self.cx.pointer_size() == 4 {
            32
        } else {
            64
        };
        let castable = match (self.get_kind(src_ty), self.get_kind(dest_ty)) {
            (CTypeKind::Ptr, CTypeKind::Ptr) => true,
            (CTypeKind::Int { bits: a, .. }, CTypeKind::Int { bits: b, .. }) => *a == *b,
            (CTypeKind::PtrWidth { .. }, CTypeKind::PtrWidth { .. }) => true,
            (CTypeKind::PtrWidth { .. }, CTypeKind::Int { bits, .. }) => *bits == ptr_bits,
            (CTypeKind::Int { bits, .. }, CTypeKind::PtrWidth { .. }) => *bits == ptr_bits,
            _ => false,
        };
        if castable {
            return self.cast(val, dest_ty);
        }
        let result = self.new_temp(dest_ty);
        let src = self.new_temp(src_ty);
        let result_decl = self.render_type(dest_ty).concat(" ").concat(
            &self.render(result),
        ).concat(";");
        self.add_local_decl(result_decl);
        let src_decl = self.render_type(src_ty).concat(" ").concat(&self.render(src)).concat(";");
        self.add_local_decl(src_decl);
        let fill = CStmt::assign(self.var(src), self.var(val));
        self.emit(fill);
        let copy = CExpr::call3(
            "memcpy",
            CExpr::addr_of(self.var(result)),
            CExpr::addr_of(self.var(src)),
            CExpr::sizeof_expr(self.var(result)),
        );
        self.emit(CStmt::expr(copy));
        result
    }

    /// Widens or narrows an integer. A signed one of an unsigned C type goes through
    /// the signed type of its width, so that C extends its sign.
    pub fn intcast(&mut self, val: ValueRef, dest_ty: TypeRef, is_signed: bool) -> (r: ValueRef)
        requires
            old(self).wf(),
            old(self)@.has(val),
            old(self)@.has_type(dest_ty),
        ensures
            final(self).wf(),
            (final(self)@, r) == old(self)@.intcast(val, dest_ty, is_signed),
            final(self)@.has(r),
            old(self)@.within(final(self)@),
            old(self)@.cx.types.len() < usize::MAX ==> old(self)@.then_gives(
                final(self)@,
                r,
                |m: Meaning, n: int|
                    intcast_result(old(self)@, val, dest_ty, is_signed, m, n),
            ),
    {
        proof {
            self.cx.wf_is_consistent();
            if self@.cx.types.len() < usize::MAX {
                intcast_gives(self@, val, dest_ty, is_signed);
            }
        }
        if !is_signed {
            return self.zext(val, dest_ty);
        }
        let src_ty = self.get_type(val);
        let signed = match self.get_kind(src_ty) {
            CTypeKind::Int { bits, signed: false } => Some(
                CTypeKind::Int { bits: *bits, signed: true },
            ),
            CTypeKind::PtrWidth { signed: false } => Some(CTypeKind::PtrWidth { signed: true }),
            _ => None,
        };
        match signed {
            Some(kind) => {
                let s = self.intern_type(kind);
                let e = CExpr::cast(
                    &self.render_type(dest_ty),
                    CExpr::cast(&self.render_type(s), self.var(val)),
                );
                self.new_temp_with_stmt(dest_ty, e)
            },
            None => self.cast(val, dest_ty),
        }
    }

    /// Compares integers. Both operands are cast to one type, which decides in C
    /// whether they are compared as signed numbers: a type as wide as a pointer where
    /// one of them has such a type, else the wider of their types.
    pub fn icmp(&mut self, op: IntPredicate, lhs: ValueRef, rhs: ValueRef) -> (r: ValueRef)
        requires
            old(self).wf(),
            old(self)@.has(lhs),
            old(self)@.has(rhs),
        ensures
            final(self).wf(),
            (final(self)@, r) == old(self)@.icmp(op, lhs, rhs),
            final(self)@.has(r),
            old(self)@.within(final(self)@),
            old(self)@.cx.types.len() + 1 < usize::MAX ==> old(self)@.then_gives(
                final(self)@,
                r,
                |m: Meaning, n: int|
                    comparison_result(old(self)@, op, lhs, rhs, m, n),
            ),
    {
        proof {
            self.cx.wf_is_consistent();
            if self@.cx.types.len() + 1 < usize::MAX {
                comparisons_ask_the_predicate(self@, op, lhs, rhs);
            }
        }
        let bool_ty = self.cx.type_bool();
        let c_op = int_op(op);
        let unsigned = is_unsigned(op);
        let lhs_ty = self.get_type(lhs);
        let rhs_ty = self.get_type(rhs);
        let l_ptrwidth = match self.get_kind(lhs_ty) {
            CTypeKind::PtrWidth { .. } => true,
            _ => false,
        };
        let r_ptrwidth = match self.get_kind(rhs_ty) {
            CTypeKind::PtrWidth { .. } => true,
            _ => false,
        };
        if l_ptrwidth || r_ptrwidth {
            let cast_ty = self.intern_type(CTypeKind::PtrWidth { signed: !unsigned });
            return self.compare_at(bool_ty, cast_ty, c_op, lhs, rhs);
        }
        let lhs_bits = operand_width(self.get_kind(lhs_ty));
        let rhs_bits = operand_width(self.get_kind(rhs_ty));
        let cast_bits = if lhs_bits >= rhs_bits {
            lhs_bits
        } else {
            rhs_bits
        };
        if unsigned || is_signed(op) || cast_bits > 0 {
            let cast_ty = self.intern_type(CTypeKind::Int { bits: cast_bits, signed: !unsigned });
            return self.compare_at(bool_ty, cast_ty, c_op, lhs, rhs);
        }
        let e = CExpr::binop(self.var(lhs), c_op, self.var(rhs));
        self.new_temp_with_stmt(bool_ty, e)
    }

    /// Compares floating-point numbers. `x != x` tells whether `x` is not a number.
    pub fn fcmp(&mut self, op: RealPredicate, lhs: ValueRef, rhs: ValueRef) -> (r: ValueRef)
        requires
            old(self).wf(),
            old(self)@.has(lhs),
            old(self)@.has(rhs),
        ensures
            final(self).wf(),
            (final(self)@, r) == old(self)@.fcmp(op, lhs, rhs),
            final(self)@.has(r),
            old(self)@.within(final(self)@),
    {
        let bool_ty = self.cx.type_bool();
        match op {
            RealPredicate::RealPredicateFalse => self.cx.const_bool(false),
            RealPredicate::RealPredicateTrue => self.cx.const_bool(true),
            RealPredicate::RealORD => {
                let l = CExpr::binop(self.var(lhs), CBinOp::Ne, self.var(lhs));
                let r = CExpr::binop(self.var(rhs), CBinOp::Ne, self.var(rhs));
                let e = CExpr::binop(
                    CExpr::unary(CUnaryOp::LogNot, l),
                    CBinOp::LogAnd,
                    CExpr::unary(CUnaryOp::LogNot, r),
                );
                self.new_temp_with_stmt(bool_ty, e)
            },
            RealPredicate::RealUNO => {
                let l = CExpr::binop(self.var(lhs), CBinOp::Ne, self.var(lhs));
                let r = CExpr::binop(self.var(rhs), CBinOp::Ne, self.var(rhs));
                self.new_temp_with_stmt(bool_ty, CExpr::binop(l, CBinOp::LogOr, r))
            },
            _ => {
                let e = CExpr::binop(self.var(lhs), real_op(op), self.var(rhs));
                self.new_temp_with_stmt(bool_ty, e)
            },
        }
    }
}

// --- Laws ---

/// A number that is a fraction, without its fraction.
pub open spec fn truncated(num: int, den: int) -> int {
    if num >= 0 {
        num / den
    } else {
        -((-num) / den)
    }
}

/// A number that a saturating conversion casts is one that the type holds: what
/// passes the tests against the least number and the limit is, without its
/// fraction, between the bounds.
pub proof fn conversions_stay_in_range(num: int, den: int, min: int, limit: int)
    requires
        den > 0,
        min <= 0 < limit,
        num >= min * den,
        num < limit * den,
    ensures
        min <= truncated(num, den) <= limit - 1,
{
    if num >= 0 {
        vstd::arithmetic::div_mod::lemma_fundamental_div_mod(num, den);
        vstd::arithmetic::div_mod::lemma_mod_bound(num, den);
        let q = num / den;
        assert(0 <= q < limit) by (nonlinear_arith)
            requires
                num == den * q + num % den,
                0 <= num % den < den,
                0 <= num < limit * den,
                den > 0,
        ;
    } else {
        vstd::arithmetic::div_mod::lemma_fundamental_div_mod(-num, den);
        vstd::arithmetic::div_mod::lemma_mod_bound(-num, den);
        let q = (-num) / den;
        assert((-min) * den == -(min * den)) by (nonlinear_arith);
        assert(0 <= q <= -min) by (nonlinear_arith)
            requires
                -num == den * q + (-num) % den,
                0 <= (-num) % den < den,
                0 < -num <= (-min) * den,
                den > 0,
        ;
    }
}

/// The bounds of a width are those of its numbers: the limit is one more than the
/// largest.
pub proof fn limits_are_exact(bits: nat)
    requires
        0 < bits <= 128,
    ensures
        unsigned_limit(bits) - 1 <= u128::MAX,
        signed_limit(bits) - 1 <= i128::MAX,
        unsigned_limit(bits) == 2 * signed_limit(bits),
{
    pow2_top();
    pow2_fits((bits - 1) as nat);
    vstd::arithmetic::power2::lemma_pow2_unfold(bits);
}

/// Operands are compared at a type that has room for both, and that is signed
/// unless they are ordered as unsigned numbers.
pub proof fn comparisons_do_not_truncate(op: IntPredicate, l: Kind, r: Kind)
    ensures
        compare_kind(op, l, r) matches Some(k) ==> {
            &&& k matches Kind::Int { bits, signed } ==> bits >= operand_bits(l) && bits
                >= operand_bits(r) && signed == !unsigned_op(op)
            &&& k matches Kind::PtrWidth { signed } ==> signed == !unsigned_op(op)
            &&& k is Int || k is PtrWidth
            &&& k is PtrWidth <==> l is PtrWidth || r is PtrWidth
        },
{
}

} // verus!
