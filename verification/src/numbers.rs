//! What the operations on integers and floating-point numbers give: each is told
//! by the numbers that go in and the number that comes out.
use vstd::arithmetic::power2::pow2;
use vstd::prelude::*;

use crate::builder::{unsigned_kind, Bx};
use crate::c_ast::{CBinOp, CUnaryOp, Expr, Stmt};
use crate::casts::{compare_kind, IntPredicate, RealPredicate};
use crate::context::{cx_ok, Cx};
use crate::meaning::{
    assigned_is_given, bool_names_say_truth, fits, interned_kind, kind_width,
    other_names_keep_the_number, reads_limits, reads_literals, temporaries_are_assigned, truth,
    type_names_say_the_width, values_have_types, wrapped_to, wrapping_keeps_low_bits, Meaning,
};
use crate::text::{dec, sdec, Text};
use crate::types::{Kind, TypeRef};
use crate::values::ValueRef;

verus! {

// --- Shifts ---

/// A shift of an integer: to the left it multiplies by a power of two, to the right
/// it divides by one and rounds down.
pub open spec fn shift_result(b: Bx, left: bool, l: ValueRef, r: ValueRef, m: Meaning,
    n: int) -> bool {
    b.holds_numbers(m, l) ==> n == (if left {
        m.of(b, l) * pow2(m.of(b, r) as nat)
    } else {
        m.of(b, l) / (pow2(m.of(b, r) as nat) as int)
    })
}

/// Shifts multiply or divide by a power of two.
pub proof fn shift_gives(b: Bx, left: bool, l: ValueRef, r: ValueRef)
    requires
        cx_ok(b.cx),
    ensures
        ({
            let op = if left {
                CBinOp::Shl
            } else {
                CBinOp::Shr
            };
            b.then_gives(
                b.shift(op, l, r).0,
                b.shift(op, l, r).1,
                |m: Meaning, n: int| shift_result(b, left, l, r, m, n),
            )
        }),
{
    let op = if left {
        CBinOp::Shl
    } else {
        CBinOp::Shr
    };
    let t = b.type_of(l);
    let e = Expr::binop(
        Expr::cast(b.type_str(t), Expr::paren(b.var(l))),
        op,
        Expr::paren(b.var(r)),
    );
    let p = |m: Meaning, n: int| shift_result(b, left, l, r, m, n);
    assert forall|m: Meaning| p(m, #[trigger] m.eval(e)) by {
        reveal_with_fuel(Meaning::eval, 5);
        if b.holds_numbers(m, l) {
            let x = m.of(b, l);
            let (bits, signed) = b.width_of(l)->0;
            type_names_say_the_width(b.cx, t, m.ptr_bits, x);
            wrapping_keeps_low_bits(x, bits, signed, signed);
        }
    }
    assigned_is_given(b, t, e, p);
}

/// A logical shift to the right: zeros come in, whatever the sign of the type.
pub open spec fn logical_shift_result(b: Bx, l: ValueRef, r: ValueRef, m: Meaning, n: int) -> bool {
    b.holds_numbers(m, l) && m.of(b, r) >= 0 ==> {
        let (bits, _) = b.width_of(l)->0;
        wrapped_to(n, bits, false) == wrapped_to(m.of(b, l), bits, false) / (pow2(
            m.of(b, r) as nat,
        ) as int)
    }
}

/// A logical shift to the right divides the number that the bits stand for without
/// a sign.
pub proof fn lshr_gives(b: Bx, l: ValueRef, r: ValueRef)
    requires
        cx_ok(b.cx),
        b.has(l),
        b.cx.types.len() < usize::MAX,
    ensures
        b.then_gives(
            b.lshr(l, r).0,
            b.lshr(l, r).1,
            |m: Meaning, n: int| logical_shift_result(b, l, r, m, n),
        ),
{
    let t = b.type_of(l);
    values_have_types(b.cx, l);
    let p = |m: Meaning, n: int| logical_shift_result(b, l, r, m, n);
    let (b1, u) = b.unsigned(t);
    let e = match u {
        Some(u) => Expr::cast(
            b1.type_str(t),
            Expr::paren(
                Expr::binop(
                    Expr::cast(b1.type_str(u), Expr::paren(b1.var(l))),
                    CBinOp::Shr,
                    Expr::paren(b1.var(r)),
                ),
            ),
        ),
        None => Expr::binop(
            Expr::cast(b.type_str(t), Expr::paren(b.var(l))),
            CBinOp::Shr,
            Expr::paren(b.var(r)),
        ),
    };
    assert forall|m: Meaning| p(m, #[trigger] m.eval(e)) by {
        reveal_with_fuel(Meaning::eval, 8);
        if b.holds_numbers(m, l) && m.of(b, r) >= 0 {
            let x = m.of(b, l);
            let (bits, signed) = b.width_of(l)->0;
            let ux = wrapped_to(x, bits, false);
            let d = pow2(m.of(b, r) as nat) as int;
            vstd::arithmetic::power2::lemma_pow2_pos(m.of(b, r) as nat);
            wrapping_keeps_low_bits(x, bits, signed, false);
            vstd::arithmetic::div_mod::lemma_div_pos_is_pos(ux, d);
            vstd::arithmetic::div_mod::lemma_div_is_ordered_by_denominator(ux, 1, d);
            vstd::arithmetic::div_mod::lemma_div_basics(ux);
            wrapping_keeps_low_bits(ux / d, bits, false, false);
            wrapping_keeps_low_bits(ux / d, bits, signed, false);
            type_names_say_the_width(b.cx, t, m.ptr_bits, x);
            if u is Some {
                interned_kind(b.cx, unsigned_kind(b.cx.kind(t))->0);
                type_names_say_the_width(b1.cx, u->0, m.ptr_bits, x);
                type_names_say_the_width(b1.cx, t, m.ptr_bits, ux / d);
            }
        }
    }
    if u is Some {
        assigned_is_given(b1, t, e, p);
    } else {
        assigned_is_given(b, t, e, p);
    }
}

// --- Conversions ---

/// The width and the sign of an integer type.
pub open spec fn type_width(c: Cx, t: TypeRef) -> Option<(nat, bool)> {
    kind_width(c.kind(t), (c.ptr_bytes * 8) as nat)
}

/// A conversion to an integer type keeps as many low bits as the type has; one to
/// a truth value asks whether the number is not zero; one to a floating-point type or
/// a pointer keeps the number.
pub open spec fn cast_result(b: Bx, v: ValueRef, t: TypeRef, m: Meaning, n: int) -> bool {
    m.ptr_bits == b.cx.ptr_bytes * 8 ==> {
        &&& type_width(b.cx, t) matches Some((bits, signed)) ==> n == wrapped_to(
            m.of(b, v),
            bits,
            signed,
        )
        &&& b.cx.kind(t) is Bool ==> n == truth(m.of(b, v) != 0)
        &&& b.cx.kind(t) is Float || b.cx.kind(t) is Ptr ==> n == m.of(b, v)
    }
}

/// A cast keeps the low bits.
pub proof fn cast_gives(b: Bx, v: ValueRef, t: TypeRef)
    ensures
        b.then_gives(
            b.cast(v, t).0,
            b.cast(v, t).1,
            |m: Meaning, n: int| cast_result(b, v, t, m, n),
        ),
{
    let e = Expr::cast(b.type_str(t), b.var(v));
    let p = |m: Meaning, n: int| cast_result(b, v, t, m, n);
    assert forall|m: Meaning| p(m, #[trigger] m.eval(e)) by {
        reveal_with_fuel(Meaning::eval, 3);
        if m.ptr_bits == b.cx.ptr_bytes * 8 {
            if type_width(b.cx, t) is Some {
                type_names_say_the_width(b.cx, t, m.ptr_bits, m.of(b, v));
            }
            if b.cx.kind(t) is Bool {
                bool_names_say_truth(b.cx, t, m.ptr_bits, m.of(b, v));
            }
            if b.cx.kind(t) is Float || b.cx.kind(t) is Ptr {
                other_names_keep_the_number(b.cx, t, m.ptr_bits, m.of(b, v));
            }
        }
    }
    assigned_is_given(b, t, e, p);
}

/// A wider type holds every number of a narrower one of the same sign, and what a
/// cast to it gives is that number.
pub proof fn widening_casts_keep_the_number(n: int, from: nat, to: nat, signed: bool)
    requires
        0 < from <= to,
        fits(n, from, signed),
    ensures
        wrapped_to(n, to, signed) == n,
{
    if from < to {
        vstd::arithmetic::power2::lemma_pow2_strictly_increases(from, to);
    }
    wrapping_keeps_low_bits(n, to, signed, signed);
}

/// Zero extension: the number that the bits stand for without a sign, as far as the
/// new type holds it.
pub open spec fn zext_result(b: Bx, v: ValueRef, t: TypeRef, m: Meaning, n: int) -> bool {
    b.holds_numbers(m, v) ==> {
        let (bits, _) = b.width_of(v)->0;
        &&& type_width(b.cx, t) matches Some((to, signed)) ==> n == wrapped_to(
            wrapped_to(m.of(b, v), bits, false),
            to,
            signed,
        )
        &&& b.cx.kind(t) is Float ==> n == wrapped_to(m.of(b, v), bits, false)
    }
}

/// Zero extension reads the bits without a sign.
pub proof fn zext_gives(b: Bx, v: ValueRef, t: TypeRef)
    requires
        cx_ok(b.cx),
        b.has(v),
        b.has_type(t),
        b.cx.types.len() < usize::MAX,
    ensures
        b.then_gives(
            b.zext(v, t).0,
            b.zext(v, t).1,
            |m: Meaning, n: int| zext_result(b, v, t, m, n),
        ),
{
    let s = b.type_of(v);
    values_have_types(b.cx, v);
    let p = |m: Meaning, n: int| zext_result(b, v, t, m, n);
    let (b1, u) = b.unsigned(s);
    let e = match u {
        Some(u) => Expr::cast(b1.type_str(t), Expr::cast(b1.type_str(u), b1.var(v))),
        None => Expr::cast(b.type_str(t), b.var(v)),
    };
    assert forall|m: Meaning| p(m, #[trigger] m.eval(e)) by {
        reveal_with_fuel(Meaning::eval, 4);
        if b.holds_numbers(m, v) && (type_width(b.cx, t) is Some || b.cx.kind(t) is Float) {
            let x = m.of(b, v);
            let (bits, signed) = b.width_of(v)->0;
            let ux = wrapped_to(x, bits, false);
            wrapping_keeps_low_bits(x, bits, signed, false);
            if u is Some {
                interned_kind(b.cx, unsigned_kind(b.cx.kind(s))->0);
                type_names_say_the_width(b1.cx, u->0, m.ptr_bits, x);
            }
            if b.cx.kind(t) is Float {
                other_names_keep_the_number(b1.cx, t, m.ptr_bits, ux);
            } else {
                type_names_say_the_width(b1.cx, t, m.ptr_bits, ux);
            }
        }
    }
    if u is Some {
        assigned_is_given(b1, t, e, p);
    } else {
        assigned_is_given(b, t, e, p);
    }
}

/// A conversion of integers: the source is read with the sign that is asked for.
pub open spec fn intcast_result(b: Bx, v: ValueRef, t: TypeRef, is_signed: bool, m: Meaning,
    n: int) -> bool {
    b.holds_numbers(m, v) ==> {
        let (bits, _) = b.width_of(v)->0;
        type_width(b.cx, t) matches Some((to, signed)) ==> n == wrapped_to(
            wrapped_to(m.of(b, v), bits, is_signed),
            to,
            signed,
        )
    }
}

/// A conversion of integers reads the source with the sign that is asked for,
/// whatever the sign of its type.
pub proof fn intcast_gives(b: Bx, v: ValueRef, t: TypeRef, is_signed: bool)
    requires
        cx_ok(b.cx),
        b.has(v),
        b.has_type(t),
        b.cx.types.len() < usize::MAX,
    ensures
        b.then_gives(
            b.intcast(v, t, is_signed).0,
            b.intcast(v, t, is_signed).1,
            |m: Meaning, n: int| intcast_result(b, v, t, is_signed, m, n),
        ),
{
    values_have_types(b.cx, v);
    let p = |m: Meaning, n: int| intcast_result(b, v, t, is_signed, m, n);
    if is_signed {
        let k = crate::casts::signed_kind(b.kind_of(v));
        let b1 = match k {
            Some(k) => b.intern(k),
            None => b,
        };
        let e = match k {
            Some(k) => Expr::cast(
                b1.type_str(t),
                Expr::cast(b1.type_str(b.cx.ty(k)), b1.var(v)),
            ),
            None => Expr::cast(b.type_str(t), b.var(v)),
        };
        assert forall|m: Meaning| p(m, #[trigger] m.eval(e)) by {
            reveal_with_fuel(Meaning::eval, 4);
            if b.holds_numbers(m, v) && type_width(b.cx, t) is Some {
                let x = m.of(b, v);
                let (bits, signed) = b.width_of(v)->0;
                wrapping_keeps_low_bits(x, bits, signed, true);
                if k is Some {
                    interned_kind(b.cx, k->0);
                    type_names_say_the_width(b1.cx, b.cx.ty(k->0), m.ptr_bits, x);
                    type_names_say_the_width(b1.cx, t, m.ptr_bits, wrapped_to(x, bits, true));
                } else {
                    type_names_say_the_width(b.cx, t, m.ptr_bits, x);
                }
            }
        }
        assigned_is_given(b1, t, e, p);
    } else {
        zext_gives(b, v, t);
        let (b1, r) = b.intcast(v, t, is_signed);
        if b.at_block() {
            let e = b1.code().last()->Assign_1;
            assert forall|m: Meaning| p(m, #[trigger] m.eval(e)) by {
                assert(zext_result(b, v, t, m, m.eval(e)));
            }
        }
    }
}

// --- Comparisons ---

/// Whether a predicate holds of two numbers.
pub open spec fn predicate_holds(op: IntPredicate, x: int, y: int) -> bool {
    match op {
        IntPredicate::IntEQ => x == y,
        IntPredicate::IntNE => x != y,
        IntPredicate::IntUGT => x > y,
        IntPredicate::IntSGT => x > y,
        IntPredicate::IntUGE => x >= y,
        IntPredicate::IntSGE => x >= y,
        IntPredicate::IntULT => x < y,
        IntPredicate::IntSLT => x < y,
        IntPredicate::IntULE => x <= y,
        IntPredicate::IntSLE => x <= y,
    }
}

/// Whether a predicate compares numbers without a sign.
pub open spec fn without_sign(op: IntPredicate) -> bool {
    op == IntPredicate::IntUGT || op == IntPredicate::IntUGE || op == IntPredicate::IntULT || op
        == IntPredicate::IntULE
}

/// A comparison of integers of one type: the predicate of the numbers that the bits
/// stand for, without a sign where the predicate says so, else with one.
pub open spec fn comparison_result(b: Bx, op: IntPredicate, l: ValueRef, r: ValueRef, m: Meaning,
    n: int) -> bool {
    b.holds_numbers(m, l) && b.holds_numbers(m, r) && b.kind_of(l) == b.kind_of(r) ==> {
        let (bits, _) = b.width_of(l)->0;
        n == truth(
            predicate_holds(
                op,
                wrapped_to(m.of(b, l), bits, !without_sign(op)),
                wrapped_to(m.of(b, r), bits, !without_sign(op)),
            ),
        )
    }
}

/// A comparison holds exactly where the predicate holds of the numbers.
pub proof fn comparisons_ask_the_predicate(b: Bx, op: IntPredicate, l: ValueRef, r: ValueRef)
    requires
        cx_ok(b.cx),
        b.has(l),
        b.has(r),
        b.cx.types.len() + 1 < usize::MAX,
    ensures
        b.then_gives(
            b.icmp(op, l, r).0,
            b.icmp(op, l, r).1,
            |m: Meaning, n: int| comparison_result(b, op, l, r, m, n),
        ),
{
    values_have_types(b.cx, l);
    values_have_types(b.cx, r);
    let p = |m: Meaning, n: int| comparison_result(b, op, l, r, m, n);
    let b0 = b.intern(Kind::Bool);
    let bool_ty = b.cx.ty(Kind::Bool);
    assert(b0.kind_of(l) == b.kind_of(l));
    assert(b0.kind_of(r) == b.kind_of(r));
    let ck = compare_kind(op, b0.kind_of(l), b0.kind_of(r));
    let b1 = match ck {
        Some(k) => b0.intern(k),
        None => b0,
    };
    let e = match ck {
        Some(k) => {
            let t = b1.type_str(b0.cx.ty(k));
            Expr::binop(
                Expr::cast(t, b1.var(l)),
                crate::casts::int_op_of(op),
                Expr::cast(t, b1.var(r)),
            )
        },
        None => Expr::binop(b0.var(l), crate::casts::int_op_of(op), b0.var(r)),
    };
    assert forall|m: Meaning| p(m, #[trigger] m.eval(e)) by {
        reveal_with_fuel(Meaning::eval, 4);
        if b.holds_numbers(m, l) && b.holds_numbers(m, r) && b.kind_of(l) == b.kind_of(r) {
            assert(ck is Some);
            interned_kind(b0.cx, ck->0);
            type_names_say_the_width(b1.cx, b0.cx.ty(ck->0), m.ptr_bits, m.of(b, l));
            type_names_say_the_width(b1.cx, b0.cx.ty(ck->0), m.ptr_bits, m.of(b, r));
        }
    }
    assigned_is_given(b1, bool_ty, e, p);
}

/// A predicate and its negation are complementary, swapping the operands mirrors it,
/// and the signed and the unsigned form agree on what the numbers are compared by.
pub proof fn predicates_mirror(x: int, y: int)
    ensures
        predicate_holds(IntPredicate::IntEQ, x, y) != predicate_holds(IntPredicate::IntNE, x, y),
        predicate_holds(IntPredicate::IntSLT, x, y) != predicate_holds(IntPredicate::IntSGE, x, y),
        predicate_holds(IntPredicate::IntSLE, x, y) != predicate_holds(IntPredicate::IntSGT, x, y),
        predicate_holds(IntPredicate::IntULT, x, y) == predicate_holds(IntPredicate::IntUGT, y, x),
        predicate_holds(IntPredicate::IntULE, x, y) == predicate_holds(IntPredicate::IntUGE, y, x),
        predicate_holds(IntPredicate::IntULT, x, y) == predicate_holds(IntPredicate::IntSLT, x, y),
        predicate_holds(IntPredicate::IntULE, x, y) == predicate_holds(IntPredicate::IntSLE, x, y),
{
}

// --- Choices and complements ---

/// A choice gives the first value where the condition is not zero, else the second.
pub proof fn choices_follow_the_condition(b: Bx, c: ValueRef, x: ValueRef, y: ValueRef)
    ensures
        b.then_gives(
            b.select(c, x, y).0,
            b.select(c, x, y).1,
            |m: Meaning, n: int|
                n == (if m.of(b, c) != 0 {
                    m.of(b, x)
                } else {
                    m.of(b, y)
                }),
        ),
        b.select(c, x, y).0.type_of(b.select(c, x, y).1) == b.type_of(x)
            || b.cx.values.len() > usize::MAX,
{
    let e = Expr::ternary(b.var(c), b.var(x), b.var(y));
    let p = |m: Meaning, n: int|
        n == (if m.of(b, c) != 0 {
            m.of(b, x)
        } else {
            m.of(b, y)
        });
    assert forall|m: Meaning| p(m, #[trigger] m.eval(e)) by {
        reveal_with_fuel(Meaning::eval, 3);
    }
    assigned_is_given(b, b.type_of(x), e, p);
    temporaries_are_assigned(b, b.type_of(x), e);
}

/// The complement of a truth value is the other truth value, and that of another
/// integer has every bit changed: with the number itself it sums to minus one.
pub proof fn complements_change_every_bit(b: Bx, v: ValueRef)
    ensures
        b.then_gives(
            b.not(v).0,
            b.not(v).1,
            |m: Meaning, n: int|
                if b.kind_of(v) is Bool {
                    n == truth(m.of(b, v) == 0)
                } else {
                    b.width_of(v) is Some ==> n + m.of(b, v) == -1
                },
        ),
{
    let op = if b.kind_of(v) is Bool || (b.kind_of(v) matches Kind::Int { bits: 1, .. }) {
        CUnaryOp::LogNot
    } else {
        CUnaryOp::BitNot
    };
    let e = Expr::unary(op, b.var(v));
    let p = |m: Meaning, n: int|
        if b.kind_of(v) is Bool {
            n == truth(m.of(b, v) == 0)
        } else {
            b.width_of(v) is Some ==> n + m.of(b, v) == -1
        };
    assert forall|m: Meaning| p(m, #[trigger] m.eval(e)) by {
        reveal_with_fuel(Meaning::eval, 3);
    }
    assigned_is_given(b, b.type_of(v), e, p);
}

// --- Floating-point numbers ---

/// A comparison of numbers of which each may be none: then only `!=` holds.
pub open spec fn real_compare(op: CBinOp, x: Option<int>, y: Option<int>) -> bool {
    if x is None || y is None {
        op is Ne
    } else {
        match op {
            CBinOp::Eq => x->0 == y->0,
            CBinOp::Ne => x->0 != y->0,
            CBinOp::Lt => x->0 < y->0,
            CBinOp::Le => x->0 <= y->0,
            CBinOp::Gt => x->0 > y->0,
            CBinOp::Ge => x->0 >= y->0,
            _ => false,
        }
    }
}

/// Whether a condition on floating-point numbers holds, given what names stand for;
/// a name may stand for no number.
pub open spec fn real_truth(e: Expr, names: spec_fn(Text) -> Option<int>) -> bool
    decreases e,
{
    match e {
        Expr::Unary(CUnaryOp::LogNot, x) => !real_truth(*x, names),
        Expr::Binop(l, CBinOp::LogAnd, r) => real_truth(*l, names) && real_truth(*r, names),
        Expr::Binop(l, CBinOp::LogOr, r) => real_truth(*l, names) || real_truth(*r, names),
        Expr::Binop(l, op, r) => match (*l, *r) {
            (Expr::Var(x), Expr::Var(y)) => real_compare(op, names(x), names(y)),
            _ => false,
        },
        _ => false,
    }
}

/// Whether a predicate holds of two numbers.
pub open spec fn real_holds(op: RealPredicate, x: int, y: int) -> bool {
    match op {
        RealPredicate::RealPredicateFalse => false,
        RealPredicate::RealPredicateTrue => true,
        RealPredicate::RealORD => true,
        RealPredicate::RealUNO => false,
        RealPredicate::RealOEQ => x == y,
        RealPredicate::RealUEQ => x == y,
        RealPredicate::RealONE => x != y,
        RealPredicate::RealUNE => x != y,
        RealPredicate::RealOGT => x > y,
        RealPredicate::RealUGT => x > y,
        RealPredicate::RealOGE => x >= y,
        RealPredicate::RealUGE => x >= y,
        RealPredicate::RealOLT => x < y,
        RealPredicate::RealULT => x < y,
        RealPredicate::RealOLE => x <= y,
        RealPredicate::RealULE => x <= y,
    }
}

/// A comparison of floating-point numbers holds exactly where the predicate does.
/// Where one of the two is not a number, it holds only where it asks for that, or for
/// a difference.
pub proof fn real_comparisons_ask_the_predicate(
    b: Bx,
    op: RealPredicate,
    l: ValueRef,
    r: ValueRef,
    names: spec_fn(Text) -> Option<int>,
)
    ensures
        ({
            let (b1, v) = b.fcmp(op, l, r);
            let (x, y) = (names(b.cx.text(l)), names(b.cx.text(r)));
            if op is RealPredicateFalse || op is RealPredicateTrue {
                &&& b1.code() == b.code()
                &&& b.cx.values.len() <= usize::MAX ==> b1.cx.text(v) == (if op
                    is RealPredicateTrue {
                    "1"@
                } else {
                    "0"@
                })
            } else {
                b.at_block() ==> {
                    &&& b1.code().drop_last() == b.code()
                    &&& b1.code().last() matches Stmt::Assign(place, e) && place == b1.var(v) && (
                    if x is Some && y is Some {
                        real_truth(e, names) == real_holds(op, x->0, y->0)
                    } else {
                        real_truth(e, names) == (op is RealUNO || op is RealONE || op is RealUNE)
                    })
                }
            }
        }),
{
    let b0 = b.intern(Kind::Bool);
    let t = b.cx.ty(Kind::Bool);
    let (b1, v) = b.fcmp(op, l, r);
    if !(op is RealPredicateFalse || op is RealPredicateTrue) && b.at_block() {
        let (nl, nr) = (crate::casts::is_nan(b0.var(l)), crate::casts::is_nan(b0.var(r)));
        let e = match op {
            RealPredicate::RealORD => Expr::binop(
                Expr::unary(CUnaryOp::LogNot, nl),
                CBinOp::LogAnd,
                Expr::unary(CUnaryOp::LogNot, nr),
            ),
            RealPredicate::RealUNO => Expr::binop(nl, CBinOp::LogOr, nr),
            _ => Expr::binop(b0.var(l), crate::casts::real_op_of(op), b0.var(r)),
        };
        temporaries_are_assigned(b0, t, e);
        assert(b1.code().drop_last() =~= b.code());
        reveal_with_fuel(real_truth, 4);
    }
}

/// A number held within bounds.
pub open spec fn held_within(n: int, min: int, max: int) -> int {
    if n < min {
        min
    } else if n > max {
        max
    } else {
        n
    }
}

/// A saturating conversion of a whole number gives the nearest number that the
/// integer type holds.
pub open spec fn saturating_result(b: Bx, v: ValueRef, t: TypeRef, signed: bool, m: Meaning,
    n: int) -> bool {
    reads_literals(m) && reads_limits(m) && m.ptr_bits == b.cx.ptr_bytes * 8 && type_width(b.cx, t)
        is Some && (type_width(b.cx, t)->0).1 == signed ==> {
        let (bits, _) = type_width(b.cx, t)->0;
        if signed {
            n == held_within(
                m.of(b, v),
                -(pow2((bits - 1) as nat) as int),
                pow2((bits - 1) as nat) - 1,
            )
        } else {
            n == held_within(m.of(b, v), 0, pow2(bits) - 1)
        }
    }
}

/// What a number written as an unsigned literal stands for.
proof fn uint_literals_are_read(m: Meaning, u: u128)
    requires
        reads_literals(m),
    ensures
        (m.names)(crate::values::uint_text(u)) == u,
{
    let n = u as nat;
    if u > u64::MAX {
        let d = 0x1_0000_0000_0000_0000nat;
        vstd::arithmetic::div_mod::lemma_fundamental_div_mod(n as int, d as int);
        assert((m.names)("((uint128_t)"@ + dec(n / d) + "ULL << 64 | "@ + dec(n % d) + "ULL)"@)
            == (n / d) * 0x1_0000_0000_0000_0000 + n % d);
    } else {
        assert((m.names)(dec(n) + "ULL"@) == n);
    }
}

/// A saturating conversion to an unsigned type gives the nearest number of the type.
pub proof fn unsigned_conversions_saturate(b: Bx, v: ValueRef, t: TypeRef)
    requires
        cx_ok(b.cx),
    ensures
        b.then_gives(
            b.fptoui_sat(v, t).0,
            b.fptoui_sat(v, t).1,
            |m: Meaning, n: int| saturating_result(b, v, t, false, m, n),
        ),
{
    let p = |m: Meaning, n: int| saturating_result(b, v, t, false, m, n);
    let bounds = crate::casts::unsigned_bounds(b.cx.kind(t));
    let e = match bounds {
        Some(bd) => crate::casts::clamped(b.var(v), b.type_str(t), bd),
        None => Expr::cast(b.type_str(t), b.var(v)),
    };
    assert forall|m: Meaning| p(m, #[trigger] m.eval(e)) by {
        reveal_with_fuel(Meaning::eval, 6);
        if reads_literals(m) && reads_limits(m) && m.ptr_bits == b.cx.ptr_bytes * 8
            && type_width(b.cx, t) is Some && !(type_width(b.cx, t)->0).1 {
            let (bits, _) = type_width(b.cx, t)->0;
            let x = m.of(b, v);
            vstd::arithmetic::power2::lemma_pow2_pos(bits);
            crate::consts::pow2_top();
            if bits < 128 {
                crate::consts::pow2_fits(bits);
            }
            let top = (pow2(bits) - 1) as u128;
            uint_literals_are_read(m, top);
            type_names_say_the_width(b.cx, t, m.ptr_bits, 0);
            type_names_say_the_width(b.cx, t, m.ptr_bits, x);
            type_names_say_the_width(b.cx, t, m.ptr_bits, pow2(bits) - 1);
            wrapping_keeps_low_bits(0, bits, false, false);
            wrapping_keeps_low_bits(x, bits, false, false);
            wrapping_keeps_low_bits(pow2(bits) - 1, bits, false, false);
            assert((m.names)(dec(pow2(bits)) + ".0"@) == pow2(bits));
        }
    }
    assigned_is_given(b, t, e, p);
}

/// A saturating conversion to a signed type gives the nearest number of the type.
pub proof fn signed_conversions_saturate(b: Bx, v: ValueRef, t: TypeRef)
    requires
        cx_ok(b.cx),
        b.cx.kind(t) matches Kind::Int { bits, .. } ==> bits <= 64,
    ensures
        b.then_gives(
            b.fptosi_sat(v, t).0,
            b.fptosi_sat(v, t).1,
            |m: Meaning, n: int| saturating_result(b, v, t, true, m, n),
        ),
{
    let p = |m: Meaning, n: int| saturating_result(b, v, t, true, m, n);
    let bounds = crate::casts::signed_bounds(b.cx.kind(t));
    let e = match bounds {
        Some(bd) => crate::casts::clamped(b.var(v), b.type_str(t), bd),
        None => Expr::cast(b.type_str(t), b.var(v)),
    };
    assert forall|m: Meaning| p(m, #[trigger] m.eval(e)) by {
        reveal_with_fuel(Meaning::eval, 6);
        if reads_literals(m) && reads_limits(m) && m.ptr_bits == b.cx.ptr_bytes * 8
            && type_width(b.cx, t) is Some && (type_width(b.cx, t)->0).1 {
            let (bits, _) = type_width(b.cx, t)->0;
            let x = m.of(b, v);
            let h = pow2((bits - 1) as nat);
            vstd::arithmetic::power2::lemma_pow2_pos((bits - 1) as nat);
            vstd::arithmetic::power2::lemma_pow2_unfold(bits);
            crate::consts::pow2_top();
            if bits < 64 {
                vstd::arithmetic::power2::lemma_pow2_strictly_increases(
                    (bits - 1) as nat,
                    63,
                );
            }
            vstd::arithmetic::power2::lemma2_to64_rest();
            type_names_say_the_width(b.cx, t, m.ptr_bits, 0);
            type_names_say_the_width(b.cx, t, m.ptr_bits, x);
            type_names_say_the_width(b.cx, t, m.ptr_bits, h - 1);
            type_names_say_the_width(b.cx, t, m.ptr_bits, -(h as int));
            wrapping_keeps_low_bits(0, bits, true, true);
            wrapping_keeps_low_bits(x, bits, true, true);
            wrapping_keeps_low_bits(h - 1, bits, true, true);
            wrapping_keeps_low_bits(-(h as int), bits, true, true);
            let text = sdec((h - 1) as int) + "LL"@;
            assert(crate::values::int_text((h - 1) as i128) == text);
            assert((m.names)(text) == h - 1);
            assert((m.names)("(-"@ + text + " - 1)"@) == -(h - 1) - 1);
            assert((m.names)(dec(h) + ".0"@) == h);
            assert((m.names)("-"@ + (dec(h) + ".0"@)) == -h);
        }
    }
    assigned_is_given(b, t, e, p);
}

} // verus!
