//! Arithmetic on values.
use vstd::prelude::*;

use crate::builder::{Builder, Bx};
use crate::c_ast::{CBinOp, CExpr, CStmt, CUnaryOp, Expr, Stmt};
use crate::layout::Scalar;
use crate::meaning::{binop_gives, quotient, unary_gives, unsigned_result, Meaning};
use crate::numbers::{logical_shift_result, lshr_gives, shift_gives, shift_result};
use crate::text::{dec, dec_u64, Text};
use crate::type_of::{round_bits, rounded, scalar_kind, scalar_to_c_type};
use crate::types::{CTypeKind, Kind};
use crate::values::{ValKind, ValueRef};

verus! {

/// The operations that can overflow.
#[derive(Clone, Copy, PartialEq, Eq, Structural, Debug)]
pub enum OverflowOp {
    Add,
    Sub,
    Mul,
}

/// The name of an operation that can overflow.
pub open spec fn overflow_name(op: OverflowOp) -> Text {
    match op {
        OverflowOp::Add => "add"@,
        OverflowOp::Sub => "sub"@,
        OverflowOp::Mul => "mul"@,
    }
}

/// The suffix of the helper functions for a type.
pub open spec fn helper_suffix(k: Kind) -> Text {
    match k {
        Kind::Int { bits, signed } => (if signed {
            "i"@
        } else {
            "u"@
        }) + dec(rounded(bits) as nat),
        Kind::PtrWidth { signed } => if signed {
            "isize"@
        } else {
            "usize"@
        },
        _ => "u64"@,
    }
}

/// The name of the helper that computes and tests for overflow.
pub open spec fn overflow_helper(op: Text, k: Kind) -> Text {
    "__rustc_"@ + op + "_overflow_"@ + helper_suffix(k)
}

/// Whether a type is one of truth values.
pub open spec fn is_bool_kind(k: Kind) -> bool {
    k is Bool || (k matches Kind::Int { bits: 1, .. })
}

/// What the arithmetic operations do.
impl Bx {
    pub open spec fn frem(self, l: ValueRef, r: ValueRef) -> (Bx, ValueRef) {
        self.temp_stmt(
            self.type_of(l),
            Expr::call("fmod"@, seq![self.var(l), self.var(r)]),
        )
    }

    /// A shift at the type of the left operand.
    pub open spec fn shift(self, op: CBinOp, l: ValueRef, r: ValueRef) -> (Bx, ValueRef) {
        let t = self.type_of(l);
        self.temp_stmt(
            t,
            Expr::binop(
                Expr::cast(self.type_str(t), Expr::paren(self.var(l))),
                op,
                Expr::paren(self.var(r)),
            ),
        )
    }

    /// A shift to the right of the operand as an unsigned number.
    pub open spec fn lshr(self, l: ValueRef, r: ValueRef) -> (Bx, ValueRef) {
        let t = self.type_of(l);
        let (b, u) = self.unsigned(t);
        match u {
            Some(u) => b.temp_stmt(
                t,
                Expr::cast(
                    b.type_str(t),
                    Expr::paren(
                        Expr::binop(
                            Expr::cast(b.type_str(u), Expr::paren(b.var(l))),
                            CBinOp::Shr,
                            Expr::paren(b.var(r)),
                        ),
                    ),
                ),
            ),
            None => self.shift(CBinOp::Shr, l, r),
        }
    }

    pub open spec fn unary(self, op: CUnaryOp, v: ValueRef) -> (Bx, ValueRef) {
        self.temp_stmt(self.type_of(v), Expr::unary(op, self.var(v)))
    }

    /// The complement: of a truth value the logical one.
    pub open spec fn not(self, v: ValueRef) -> (Bx, ValueRef) {
        self.unary(
            if is_bool_kind(self.kind_of(v)) {
                CUnaryOp::LogNot
            } else {
                CUnaryOp::BitNot
            },
            v,
        )
    }

    /// An operation and whether it overflows: a helper stores the result and
    /// returns the answer.
    pub open spec fn checked_binop(self, op: OverflowOp, l: ValueRef, r: ValueRef) -> (
        Bx,
        (ValueRef, ValueRef),
    ) {
        let t = self.type_of(l);
        let (b1, result) = self.typed_temp(t);
        let b2 = b1.intern(Kind::Bool);
        let (b3, overflow) = b2.value(ValKind::Temp, b1.cx.ty(Kind::Bool));
        let b4 = b3.local("_Bool "@ + b3.cx.text(overflow) + ";"@);
        let call = Expr::call(
            overflow_helper(overflow_name(op), self.cx.kind(t)),
            seq![b4.var(l), b4.var(r), Expr::addr_of(b4.var(result))],
        );
        (b4.emit(Stmt::Assign(b4.var(overflow), call)), (result, overflow))
    }

    /// A truth value as an 8-bit integer; any other value as it is.
    pub open spec fn from_immediate(self, v: ValueRef) -> (Bx, ValueRef) {
        if self.kind_of(v) is Bool {
            let k = Kind::Int { bits: 8, signed: true };
            self.intern(k).temp_stmt(
                self.cx.ty(k),
                Expr::cast("int8_t"@, Expr::paren(self.var(v))),
            )
        } else {
            (self, v)
        }
    }

    /// A value at the C type of a scalar.
    pub open spec fn to_immediate_scalar(self, v: ValueRef, s: Scalar) -> (Bx, ValueRef) {
        let b = self.intern(scalar_kind(s));
        let t = self.cx.ty(scalar_kind(s));
        if b.type_of(v) == t {
            (b, v)
        } else if s.is_bool {
            b.temp_stmt(t, Expr::cast("_Bool"@, Expr::paren(b.var(v))))
        } else {
            b.value(ValKind::InlineExpr(b.cx.text(v)), t)
        }
    }
}

/// Writes the suffix of the helper functions for a type.
pub fn render_suffix(k: &CTypeKind) -> (r: String)
    ensures
        r@ == helper_suffix(k@),
{
    match k {
        CTypeKind::Int { bits, signed } => {
            let width = dec_u64(round_bits(*bits));
            if *signed {
                "i".to_owned().concat(&width)
            } else {
                "u".to_owned().concat(&width)
            }
        },
        CTypeKind::PtrWidth { signed } => {
            if *signed {
                "isize".to_owned()
            } else {
                "usize".to_owned()
            }
        },
        _ => "u64".to_owned(),
    }
}

impl Builder {
    /// Adds integers.
    pub fn add(&mut self, lhs: ValueRef, rhs: ValueRef) -> (r: ValueRef)
        requires
            old(self).wf(),
            old(self)@.has(lhs),
            old(self)@.has(rhs),
        ensures
            final(self).wf(),
            (final(self)@, r) == old(self)@.binop(CBinOp::Add, lhs, rhs),
            final(self)@.has(r),
            old(self)@.within(final(self)@),
            old(self)@.then_gives(
                final(self)@,
                r,
                |m: Meaning, n: int|
                    n == m.of(old(self)@, lhs) + m.of(old(self)@, rhs),
            ),
    {
        proof {
            binop_gives(self@, CBinOp::Add, lhs, rhs);
        }
        self.binop(CBinOp::Add, lhs, rhs)
    }

    /// Adds floating-point numbers.
    pub fn fadd(&mut self, lhs: ValueRef, rhs: ValueRef) -> (r: ValueRef)
        requires
            old(self).wf(),
            old(self)@.has(lhs),
            old(self)@.has(rhs),
        ensures
            final(self).wf(),
            (final(self)@, r) == old(self)@.binop(CBinOp::Add, lhs, rhs),
            final(self)@.has(r),
            old(self)@.within(final(self)@),
            old(self)@.then_gives(
                final(self)@,
                r,
                |m: Meaning, n: int|
                    n == m.of(old(self)@, lhs) + m.of(old(self)@, rhs),
            ),
    {
        proof {
            binop_gives(self@, CBinOp::Add, lhs, rhs);
        }
        self.binop(CBinOp::Add, lhs, rhs)
    }

    /// Adds floating-point numbers; no shortcuts are taken.
    pub fn fadd_fast(&mut self, lhs: ValueRef, rhs: ValueRef) -> (r: ValueRef)
        requires
            old(self).wf(),
            old(self)@.has(lhs),
            old(self)@.has(rhs),
        ensures
            final(self).wf(),
            (final(self)@, r) == old(self)@.binop(CBinOp::Add, lhs, rhs),
            final(self)@.has(r),
            old(self)@.within(final(self)@),
            old(self)@.then_gives(
                final(self)@,
                r,
                |m: Meaning, n: int|
                    n == m.of(old(self)@, lhs) + m.of(old(self)@, rhs),
            ),
    {
        proof {
            binop_gives(self@, CBinOp::Add, lhs, rhs);
        }
        self.binop(CBinOp::Add, lhs, rhs)
    }

    /// Adds floating-point numbers; no shortcuts are taken.
    pub fn fadd_algebraic(&mut self, lhs: ValueRef, rhs: ValueRef) -> (r: ValueRef)
        requires
            old(self).wf(),
            old(self)@.has(lhs),
            old(self)@.has(rhs),
        ensures
            final(self).wf(),
            (final(self)@, r) == old(self)@.binop(CBinOp::Add, lhs, rhs),
            final(self)@.has(r),
            old(self)@.within(final(self)@),
            old(self)@.then_gives(
                final(self)@,
                r,
                |m: Meaning, n: int|
                    n == m.of(old(self)@, lhs) + m.of(old(self)@, rhs),
            ),
    {
        proof {
            binop_gives(self@, CBinOp::Add, lhs, rhs);
        }
        self.binop(CBinOp::Add, lhs, rhs)
    }

    /// Subtracts integers.
    pub fn sub(&mut self, lhs: ValueRef, rhs: ValueRef) -> (r: ValueRef)
        requires
            old(self).wf(),
            old(self)@.has(lhs),
            old(self)@.has(rhs),
        ensures
            final(self).wf(),
            (final(self)@, r) == old(self)@.binop(CBinOp::Sub, lhs, rhs),
            final(self)@.has(r),
            old(self)@.within(final(self)@),
            old(self)@.then_gives(
                final(self)@,
                r,
                |m: Meaning, n: int|
                    n == m.of(old(self)@, lhs) - m.of(old(self)@, rhs),
            ),
    {
        proof {
            binop_gives(self@, CBinOp::Sub, lhs, rhs);
        }
        self.binop(CBinOp::Sub, lhs, rhs)
    }

    /// Subtracts floating-point numbers.
    pub fn fsub(&mut self, lhs: ValueRef, rhs: ValueRef) -> (r: ValueRef)
        requires
            old(self).wf(),
            old(self)@.has(lhs),
            old(self)@.has(rhs),
        ensures
            final(self).wf(),
            (final(self)@, r) == old(self)@.binop(CBinOp::Sub, lhs, rhs),
            final(self)@.has(r),
            old(self)@.within(final(self)@),
            old(self)@.then_gives(
                final(self)@,
                r,
                |m: Meaning, n: int|
                    n == m.of(old(self)@, lhs) - m.of(old(self)@, rhs),
            ),
    {
        proof {
            binop_gives(self@, CBinOp::Sub, lhs, rhs);
        }
        self.binop(CBinOp::Sub, lhs, rhs)
    }

    /// Subtracts floating-point numbers; no shortcuts are taken.
    pub fn fsub_fast(&mut self, lhs: ValueRef, rhs: ValueRef) -> (r: ValueRef)
        requires
            old(self).wf(),
            old(self)@.has(lhs),
            old(self)@.has(rhs),
        ensures
            final(self).wf(),
            (final(self)@, r) == old(self)@.binop(CBinOp::Sub, lhs, rhs),
            final(self)@.has(r),
            old(self)@.within(final(self)@),
            old(self)@.then_gives(
                final(self)@,
                r,
                |m: Meaning, n: int|
                    n == m.of(old(self)@, lhs) - m.of(old(self)@, rhs),
            ),
    {
        proof {
            binop_gives(self@, CBinOp::Sub, lhs, rhs);
        }
        self.binop(CBinOp::Sub, lhs, rhs)
    }

    /// Subtracts floating-point numbers; no shortcuts are taken.
    pub fn fsub_algebraic(&mut self, lhs: ValueRef, rhs: ValueRef) -> (r: ValueRef)
        requires
            old(self).wf(),
            old(self)@.has(lhs),
            old(self)@.has(rhs),
        ensures
            final(self).wf(),
            (final(self)@, r) == old(self)@.binop(CBinOp::Sub, lhs, rhs),
            final(self)@.has(r),
            old(self)@.within(final(self)@),
            old(self)@.then_gives(
                final(self)@,
                r,
                |m: Meaning, n: int|
                    n == m.of(old(self)@, lhs) - m.of(old(self)@, rhs),
            ),
    {
        proof {
            binop_gives(self@, CBinOp::Sub, lhs, rhs);
        }
        self.binop(CBinOp::Sub, lhs, rhs)
    }

    /// Multiplies integers.
    pub fn mul(&mut self, lhs: ValueRef, rhs: ValueRef) -> (r: ValueRef)
        requires
            old(self).wf(),
            old(self)@.has(lhs),
            old(self)@.has(rhs),
        ensures
            final(self).wf(),
            (final(self)@, r) == old(self)@.binop(CBinOp::Mul, lhs, rhs),
            final(self)@.has(r),
            old(self)@.within(final(self)@),
            old(self)@.then_gives(
                final(self)@,
                r,
                |m: Meaning, n: int|
                    n == m.of(old(self)@, lhs) * m.of(old(self)@, rhs),
            ),
    {
        proof {
            binop_gives(self@, CBinOp::Mul, lhs, rhs);
        }
        self.binop(CBinOp::Mul, lhs, rhs)
    }

    /// Multiplies floating-point numbers.
    pub fn fmul(&mut self, lhs: ValueRef, rhs: ValueRef) -> (r: ValueRef)
        requires
            old(self).wf(),
            old(self)@.has(lhs),
            old(self)@.has(rhs),
        ensures
            final(self).wf(),
            (final(self)@, r) == old(self)@.binop(CBinOp::Mul, lhs, rhs),
            final(self)@.has(r),
            old(self)@.within(final(self)@),
            old(self)@.then_gives(
                final(self)@,
                r,
                |m: Meaning, n: int|
                    n == m.of(old(self)@, lhs) * m.of(old(self)@, rhs),
            ),
    {
        proof {
            binop_gives(self@, CBinOp::Mul, lhs, rhs);
        }
        self.binop(CBinOp::Mul, lhs, rhs)
    }

    /// Multiplies floating-point numbers; no shortcuts are taken.
    pub fn fmul_fast(&mut self, lhs: ValueRef, rhs: ValueRef) -> (r: ValueRef)
        requires
            old(self).wf(),
            old(self)@.has(lhs),
            old(self)@.has(rhs),
        ensures
            final(self).wf(),
            (final(self)@, r) == old(self)@.binop(CBinOp::Mul, lhs, rhs),
            final(self)@.has(r),
            old(self)@.within(final(self)@),
            old(self)@.then_gives(
                final(self)@,
                r,
                |m: Meaning, n: int|
                    n == m.of(old(self)@, lhs) * m.of(old(self)@, rhs),
            ),
    {
        proof {
            binop_gives(self@, CBinOp::Mul, lhs, rhs);
        }
        self.binop(CBinOp::Mul, lhs, rhs)
    }

    /// Multiplies floating-point numbers; no shortcuts are taken.
    pub fn fmul_algebraic(&mut self, lhs: ValueRef, rhs: ValueRef) -> (r: ValueRef)
        requires
            old(self).wf(),
            old(self)@.has(lhs),
            old(self)@.has(rhs),
        ensures
            final(self).wf(),
            (final(self)@, r) == old(self)@.binop(CBinOp::Mul, lhs, rhs),
            final(self)@.has(r),
            old(self)@.within(final(self)@),
            old(self)@.then_gives(
                final(self)@,
                r,
                |m: Meaning, n: int|
                    n == m.of(old(self)@, lhs) * m.of(old(self)@, rhs),
            ),
    {
        proof {
            binop_gives(self@, CBinOp::Mul, lhs, rhs);
        }
        self.binop(CBinOp::Mul, lhs, rhs)
    }

    /// Divides unsigned integers.
    pub fn udiv(&mut self, lhs: ValueRef, rhs: ValueRef) -> (r: ValueRef)
        requires
            old(self).wf(),
            old(self)@.has(lhs),
            old(self)@.has(rhs),
        ensures
            final(self).wf(),
            (final(self)@, r) == old(self)@.unsigned_binop(CBinOp::Div, lhs, rhs),
            final(self)@.has(r),
            old(self)@.within(final(self)@),
            old(self)@.then_gives(
                final(self)@,
                r,
                |m: Meaning, n: int|
                    unsigned_result(old(self)@, CBinOp::Div, lhs, rhs, m, n),
            ),
    {
        self.unsigned_binop(CBinOp::Div, lhs, rhs)
    }

    /// Divides unsigned integers without remainder.
    pub fn exactudiv(&mut self, lhs: ValueRef, rhs: ValueRef) -> (r: ValueRef)
        requires
            old(self).wf(),
            old(self)@.has(lhs),
            old(self)@.has(rhs),
        ensures
            final(self).wf(),
            (final(self)@, r) == old(self)@.unsigned_binop(CBinOp::Div, lhs, rhs),
            final(self)@.has(r),
            old(self)@.within(final(self)@),
            old(self)@.then_gives(
                final(self)@,
                r,
                |m: Meaning, n: int|
                    unsigned_result(old(self)@, CBinOp::Div, lhs, rhs, m, n),
            ),
    {
        self.unsigned_binop(CBinOp::Div, lhs, rhs)
    }

    /// Divides signed integers.
    pub fn sdiv(&mut self, lhs: ValueRef, rhs: ValueRef) -> (r: ValueRef)
        requires
            old(self).wf(),
            old(self)@.has(lhs),
            old(self)@.has(rhs),
        ensures
            final(self).wf(),
            (final(self)@, r) == old(self)@.binop(CBinOp::Div, lhs, rhs),
            final(self)@.has(r),
            old(self)@.within(final(self)@),
            old(self)@.then_gives(
                final(self)@,
                r,
                |m: Meaning, n: int|
                    n == quotient(m.of(old(self)@, lhs), m.of(old(self)@, rhs)),
            ),
    {
        proof {
            binop_gives(self@, CBinOp::Div, lhs, rhs);
        }
        self.binop(CBinOp::Div, lhs, rhs)
    }

    /// Divides signed integers without remainder.
    pub fn exactsdiv(&mut self, lhs: ValueRef, rhs: ValueRef) -> (r: ValueRef)
        requires
            old(self).wf(),
            old(self)@.has(lhs),
            old(self)@.has(rhs),
        ensures
            final(self).wf(),
            (final(self)@, r) == old(self)@.binop(CBinOp::Div, lhs, rhs),
            final(self)@.has(r),
            old(self)@.within(final(self)@),
            old(self)@.then_gives(
                final(self)@,
                r,
                |m: Meaning, n: int|
                    n == quotient(m.of(old(self)@, lhs), m.of(old(self)@, rhs)),
            ),
    {
        proof {
            binop_gives(self@, CBinOp::Div, lhs, rhs);
        }
        self.binop(CBinOp::Div, lhs, rhs)
    }

    /// Divides floating-point numbers.
    pub fn fdiv(&mut self, lhs: ValueRef, rhs: ValueRef) -> (r: ValueRef)
        requires
            old(self).wf(),
            old(self)@.has(lhs),
            old(self)@.has(rhs),
        ensures
            final(self).wf(),
            (final(self)@, r) == old(self)@.binop(CBinOp::Div, lhs, rhs),
            final(self)@.has(r),
            old(self)@.within(final(self)@),
            old(self)@.then_gives(
                final(self)@,
                r,
                |m: Meaning, n: int|
                    n == quotient(m.of(old(self)@, lhs), m.of(old(self)@, rhs)),
            ),
    {
        proof {
            binop_gives(self@, CBinOp::Div, lhs, rhs);
        }
        self.binop(CBinOp::Div, lhs, rhs)
    }

    /// Divides floating-point numbers; no shortcuts are taken.
    pub fn fdiv_fast(&mut self, lhs: ValueRef, rhs: ValueRef) -> (r: ValueRef)
        requires
            old(self).wf(),
            old(self)@.has(lhs),
            old(self)@.has(rhs),
        ensures
            final(self).wf(),
            (final(self)@, r) == old(self)@.binop(CBinOp::Div, lhs, rhs),
            final(self)@.has(r),
            old(self)@.within(final(self)@),
            old(self)@.then_gives(
                final(self)@,
                r,
                |m: Meaning, n: int|
                    n == quotient(m.of(old(self)@, lhs), m.of(old(self)@, rhs)),
            ),
    {
        proof {
            binop_gives(self@, CBinOp::Div, lhs, rhs);
        }
        self.binop(CBinOp::Div, lhs, rhs)
    }

    /// Divides floating-point numbers; no shortcuts are taken.
    pub fn fdiv_algebraic(&mut self, lhs: ValueRef, rhs: ValueRef) -> (r: ValueRef)
        requires
            old(self).wf(),
            old(self)@.has(lhs),
            old(self)@.has(rhs),
        ensures
            final(self).wf(),
            (final(self)@, r) == old(self)@.binop(CBinOp::Div, lhs, rhs),
            final(self)@.has(r),
            old(self)@.within(final(self)@),
            old(self)@.then_gives(
                final(self)@,
                r,
                |m: Meaning, n: int|
                    n == quotient(m.of(old(self)@, lhs), m.of(old(self)@, rhs)),
            ),
    {
        proof {
            binop_gives(self@, CBinOp::Div, lhs, rhs);
        }
        self.binop(CBinOp::Div, lhs, rhs)
    }

    /// The remainder of unsigned integers.
    pub fn urem(&mut self, lhs: ValueRef, rhs: ValueRef) -> (r: ValueRef)
        requires
            old(self).wf(),
            old(self)@.has(lhs),
            old(self)@.has(rhs),
        ensures
            final(self).wf(),
            (final(self)@, r) == old(self)@.unsigned_binop(CBinOp::Rem, lhs, rhs),
            final(self)@.has(r),
            old(self)@.within(final(self)@),
            old(self)@.then_gives(
                final(self)@,
                r,
                |m: Meaning, n: int|
                    unsigned_result(old(self)@, CBinOp::Rem, lhs, rhs, m, n),
            ),
    {
        self.unsigned_binop(CBinOp::Rem, lhs, rhs)
    }

    /// The remainder of signed integers.
    pub fn srem(&mut self, lhs: ValueRef, rhs: ValueRef) -> (r: ValueRef)
        requires
            old(self).wf(),
            old(self)@.has(lhs),
            old(self)@.has(rhs),
        ensures
            final(self).wf(),
            (final(self)@, r) == old(self)@.binop(CBinOp::Rem, lhs, rhs),
            final(self)@.has(r),
            old(self)@.within(final(self)@),
            old(self)@.then_gives(
                final(self)@,
                r,
                |m: Meaning, n: int|
                    n == m.of(old(self)@, lhs) - m.of(old(self)@, rhs) * quotient(m.of(old(self)@, lhs), m.of(old(self)@, rhs)),
            ),
    {
        proof {
            binop_gives(self@, CBinOp::Rem, lhs, rhs);
        }
        self.binop(CBinOp::Rem, lhs, rhs)
    }

    /// The remainder of floating-point numbers.
    pub fn frem(&mut self, lhs: ValueRef, rhs: ValueRef) -> (r: ValueRef)
        requires
            old(self).wf(),
            old(self)@.has(lhs),
            old(self)@.has(rhs),
        ensures
            final(self).wf(),
            (final(self)@, r) == old(self)@.frem(lhs, rhs),
            final(self)@.has(r),
            old(self)@.within(final(self)@),
    {
        let t = self.get_type(lhs);
        let e = CExpr::call2("fmod", self.var(lhs), self.var(rhs));
        self.new_temp_with_stmt(t, e)
    }

    /// The remainder of floating-point numbers; no shortcuts are taken.
    pub fn frem_fast(&mut self, lhs: ValueRef, rhs: ValueRef) -> (r: ValueRef)
        requires
            old(self).wf(),
            old(self)@.has(lhs),
            old(self)@.has(rhs),
        ensures
            final(self).wf(),
            (final(self)@, r) == old(self)@.frem(lhs, rhs),
            final(self)@.has(r),
            old(self)@.within(final(self)@),
    {
        self.frem(lhs, rhs)
    }

    /// The remainder of floating-point numbers; no shortcuts are taken.
    pub fn frem_algebraic(&mut self, lhs: ValueRef, rhs: ValueRef) -> (r: ValueRef)
        requires
            old(self).wf(),
            old(self)@.has(lhs),
            old(self)@.has(rhs),
        ensures
            final(self).wf(),
            (final(self)@, r) == old(self)@.frem(lhs, rhs),
            final(self)@.has(r),
            old(self)@.within(final(self)@),
    {
        self.frem(lhs, rhs)
    }

    /// Shifts to the left. The operand is cast to its own type first, since a
    /// literal may be narrower.
    pub fn shl(&mut self, lhs: ValueRef, rhs: ValueRef) -> (r: ValueRef)
        requires
            old(self).wf(),
            old(self)@.has(lhs),
            old(self)@.has(rhs),
        ensures
            final(self).wf(),
            (final(self)@, r) == old(self)@.shift(CBinOp::Shl, lhs, rhs),
            final(self)@.has(r),
            old(self)@.within(final(self)@),
            old(self)@.then_gives(
                final(self)@,
                r,
                |m: Meaning, n: int|
                    shift_result(old(self)@, true, lhs, rhs, m, n),
            ),
    {
        proof {
            self.cx.wf_is_consistent();
            shift_gives(self@, true, lhs, rhs);
        }
        let t = self.get_type(lhs);
        let e = CExpr::binop(
            CExpr::cast(&self.render_type(t), CExpr::paren(self.var(lhs))),
            CBinOp::Shl,
            CExpr::paren(self.var(rhs)),
        );
        self.new_temp_with_stmt(t, e)
    }

    /// Shifts to the right, with zeros coming in.
    pub fn lshr(&mut self, lhs: ValueRef, rhs: ValueRef) -> (r: ValueRef)
        requires
            old(self).wf(),
            old(self)@.has(lhs),
            old(self)@.has(rhs),
        ensures
            final(self).wf(),
            (final(self)@, r) == old(self)@.lshr(lhs, rhs),
            final(self)@.has(r),
            old(self)@.within(final(self)@),
            old(self)@.cx.types.len() < usize::MAX ==> old(self)@.then_gives(
                final(self)@,
                r,
                |m: Meaning, n: int| logical_shift_result(old(self)@, lhs, rhs, m, n),
            ),
    {
        proof {
            self.cx.wf_is_consistent();
            if self@.cx.types.len() < usize::MAX {
                lshr_gives(self@, lhs, rhs);
            }
        }
        let t = self.get_type(lhs);
        if let Some(u) = self.unsigned_type(t) {
            let e = CExpr::cast(
                &self.render_type(t),
                CExpr::paren(
                    CExpr::binop(
                        CExpr::cast(&self.render_type(u), CExpr::paren(self.var(lhs))),
                        CBinOp::Shr,
                        CExpr::paren(self.var(rhs)),
                    ),
                ),
            );
            self.new_temp_with_stmt(t, e)
        } else {
            let e = CExpr::binop(
                CExpr::cast(&self.render_type(t), CExpr::paren(self.var(lhs))),
                CBinOp::Shr,
                CExpr::paren(self.var(rhs)),
            );
            self.new_temp_with_stmt(t, e)
        }
    }

    /// Shifts to the right, with copies of the sign coming in.
    pub fn ashr(&mut self, lhs: ValueRef, rhs: ValueRef) -> (r: ValueRef)
        requires
            old(self).wf(),
            old(self)@.has(lhs),
            old(self)@.has(rhs),
        ensures
            final(self).wf(),
            (final(self)@, r) == old(self)@.shift(CBinOp::Shr, lhs, rhs),
            final(self)@.has(r),
            old(self)@.within(final(self)@),
            old(self)@.then_gives(
                final(self)@,
                r,
                |m: Meaning, n: int|
                    shift_result(old(self)@, false, lhs, rhs, m, n),
            ),
    {
        proof {
            self.cx.wf_is_consistent();
            shift_gives(self@, false, lhs, rhs);
        }
        let t = self.get_type(lhs);
        let e = CExpr::binop(
            CExpr::cast(&self.render_type(t), CExpr::paren(self.var(lhs))),
            CBinOp::Shr,
            CExpr::paren(self.var(rhs)),
        );
        self.new_temp_with_stmt(t, e)
    }

    /// Bitwise and.
    pub fn and(&mut self, lhs: ValueRef, rhs: ValueRef) -> (r: ValueRef)
        requires
            old(self).wf(),
            old(self)@.has(lhs),
            old(self)@.has(rhs),
        ensures
            final(self).wf(),
            (final(self)@, r) == old(self)@.binop(CBinOp::BitAnd, lhs, rhs),
            final(self)@.has(r),
            old(self)@.within(final(self)@),
            old(self)@.then_gives(
                final(self)@,
                r,
                |m: Meaning, n: int|
                    n == (m.bits_and)(m.of(old(self)@, lhs), m.of(old(self)@, rhs)),
            ),
    {
        proof {
            binop_gives(self@, CBinOp::BitAnd, lhs, rhs);
        }
        self.binop(CBinOp::BitAnd, lhs, rhs)
    }

    /// Bitwise or.
    pub fn or(&mut self, lhs: ValueRef, rhs: ValueRef) -> (r: ValueRef)
        requires
            old(self).wf(),
            old(self)@.has(lhs),
            old(self)@.has(rhs),
        ensures
            final(self).wf(),
            (final(self)@, r) == old(self)@.binop(CBinOp::BitOr, lhs, rhs),
            final(self)@.has(r),
            old(self)@.within(final(self)@),
            old(self)@.then_gives(
                final(self)@,
                r,
                |m: Meaning, n: int|
                    n == (m.bits_or)(m.of(old(self)@, lhs), m.of(old(self)@, rhs)),
            ),
    {
        proof {
            binop_gives(self@, CBinOp::BitOr, lhs, rhs);
        }
        self.binop(CBinOp::BitOr, lhs, rhs)
    }

    /// Bitwise exclusive or.
    pub fn xor(&mut self, lhs: ValueRef, rhs: ValueRef) -> (r: ValueRef)
        requires
            old(self).wf(),
            old(self)@.has(lhs),
            old(self)@.has(rhs),
        ensures
            final(self).wf(),
            (final(self)@, r) == old(self)@.binop(CBinOp::BitXor, lhs, rhs),
            final(self)@.has(r),
            old(self)@.within(final(self)@),
            old(self)@.then_gives(
                final(self)@,
                r,
                |m: Meaning, n: int|
                    n == (m.bits_xor)(m.of(old(self)@, lhs), m.of(old(self)@, rhs)),
            ),
    {
        proof {
            binop_gives(self@, CBinOp::BitXor, lhs, rhs);
        }
        self.binop(CBinOp::BitXor, lhs, rhs)
    }

    /// Emits a unary operation.
    fn unary(&mut self, op: CUnaryOp, v: ValueRef) -> (r: ValueRef)
        requires
            old(self).wf(),
            old(self)@.has(v),
        ensures
            final(self).wf(),
            (final(self)@, r) == old(self)@.unary(op, v),
            final(self)@.has(r),
            old(self)@.within(final(self)@),
    {
        let t = self.get_type(v);
        let e = CExpr::unary(op, self.var(v));
        self.new_temp_with_stmt(t, e)
    }

    /// Negates an integer.
    pub fn neg(&mut self, v: ValueRef) -> (r: ValueRef)
        requires
            old(self).wf(),
            old(self)@.has(v),
        ensures
            final(self).wf(),
            (final(self)@, r) == old(self)@.unary(CUnaryOp::Neg, v),
            final(self)@.has(r),
            old(self)@.within(final(self)@),
            old(self)@.then_gives(
                final(self)@,
                r,
                |m: Meaning, n: int|
                    n == -m.of(old(self)@, v),
            ),
    {
        proof {
            unary_gives(self@, CUnaryOp::Neg, v);
        }
        self.unary(CUnaryOp::Neg, v)
    }

    /// Negates a floating-point number.
    pub fn fneg(&mut self, v: ValueRef) -> (r: ValueRef)
        requires
            old(self).wf(),
            old(self)@.has(v),
        ensures
            final(self).wf(),
            (final(self)@, r) == old(self)@.unary(CUnaryOp::Neg, v),
            final(self)@.has(r),
            old(self)@.within(final(self)@),
            old(self)@.then_gives(
                final(self)@,
                r,
                |m: Meaning, n: int|
                    n == -m.of(old(self)@, v),
            ),
    {
        proof {
            unary_gives(self@, CUnaryOp::Neg, v);
        }
        self.neg(v)
    }

    /// The complement: of a truth value the logical one, else the bitwise one.
    pub fn not(&mut self, v: ValueRef) -> (r: ValueRef)
        requires
            old(self).wf(),
            old(self)@.has(v),
        ensures
            final(self).wf(),
            (final(self)@, r) == old(self)@.not(v),
            final(self)@.has(r),
            old(self)@.within(final(self)@),
    {
        let t = self.get_type(v);
        let is_bool = match self.get_kind(t) {
            CTypeKind::Bool => true,
            CTypeKind::Int { bits, .. } => *bits == 1,
            _ => false,
        };
        if is_bool {
            self.unary(CUnaryOp::LogNot, v)
        } else {
            self.unary(CUnaryOp::BitNot, v)
        }
    }

    /// An operation and whether it overflows.
    pub fn checked_binop(&mut self, oop: OverflowOp, lhs: ValueRef, rhs: ValueRef) -> (r: (
        ValueRef,
        ValueRef,
    ))
        requires
            old(self).wf(),
            old(self)@.has(lhs),
            old(self)@.has(rhs),
        ensures
            final(self).wf(),
            (final(self)@, r) == old(self)@.checked_binop(oop, lhs, rhs),
            final(self)@.has(r.0),
            final(self)@.has(r.1),
            old(self)@.within(final(self)@),
    {
        let t = self.get_type(lhs);
        let suffix = render_suffix(self.get_kind(t));
        let result = self.typed_temp(t);
        let op_name = match oop {
            OverflowOp::Add => "add",
            OverflowOp::Sub => "sub",
            OverflowOp::Mul => "mul",
        };
        let helper = "__rustc_".to_owned().concat(op_name).concat("_overflow_").concat(&suffix);
        let bool_ty = self.cx.type_bool();
        let overflow = self.new_temp(bool_ty);
        let decl = "_Bool ".to_owned().concat(&self.render(overflow)).concat(";");
        self.add_local_decl(decl);
        let call = CExpr::call3(
            &helper,
            self.var(lhs),
            self.var(rhs),
            CExpr::addr_of(self.var(result)),
        );
        let target = self.var(overflow);
        self.emit(CStmt::assign(target, call));
        (result, overflow)
    }

    /// A truth value as an 8-bit integer; any other value as it is.
    pub fn from_immediate(&mut self, val: ValueRef) -> (r: ValueRef)
        requires
            old(self).wf(),
            old(self)@.has(val),
        ensures
            final(self).wf(),
            (final(self)@, r) == old(self)@.from_immediate(val),
            final(self)@.has(r),
            old(self)@.within(final(self)@),
    {
        let t = self.get_type(val);
        let is_bool = match self.get_kind(t) {
            CTypeKind::Bool => true,
            _ => false,
        };
        if is_bool {
            let i8_ty = self.cx.type_int(8);
            let e = CExpr::cast("int8_t", CExpr::paren(self.var(val)));
            self.new_temp_with_stmt(i8_ty, e)
        } else {
            val
        }
    }

    /// A value at the C type of a scalar: cast where the scalar is a truth
    /// value, else the same expression at the other type.
    pub fn to_immediate_scalar(&mut self, val: ValueRef, scalar: Scalar) -> (r: ValueRef)
        requires
            old(self).wf(),
            old(self)@.has(val),
        ensures
            final(self).wf(),
            (final(self)@, r) == old(self)@.to_immediate_scalar(val, scalar),
            final(self)@.has(r),
            old(self)@.within(final(self)@),
    {
        let expected = scalar_to_c_type(&mut self.cx, scalar);
        let actual = self.get_type(val);
        if actual.0 == expected.0 {
            return val;
        }
        if scalar.is_bool {
            let e = CExpr::cast("_Bool", CExpr::paren(self.var(val)));
            self.new_temp_with_stmt(expected, e)
        } else {
            let text = self.render(val);
            self.inline_expr(text, expected)
        }
    }
}

} // verus!
