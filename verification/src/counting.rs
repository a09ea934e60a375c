//! What the intrinsics on bits compute: counting, reversing and rotating.
use vstd::arithmetic::power2::pow2;
use vstd::prelude::*;

use crate::builder::{unsigned_kind, Bx};
use crate::c_ast::{CBinOp, Expr, Stmt};
use crate::context::cx_ok;
use crate::meaning::{
    c_width, emitted_is_last, fits, interned_kind, plain_text, quotient, reads_literals,
    temporaries_are_assigned, values_have_types, wrapped_to, wrapping_keeps_low_bits, Meaning,
};
use crate::places::assigned_whole;
use crate::text::{dec, Text};
use crate::types::{Kind, TypeRef};
use crate::values::{value_text_is_stable, ValKind, ValueRef};

verus! {

/// Whether `later` computes an expression into the temporary that is added next and
/// stores it at a destination, as a type of a name.
pub open spec fn stores(b: Bx, later: Bx, t: Text, e: Expr, dest: ValueRef) -> bool {
    let temp = Expr::Var("_t"@ + dec(b.cx.values.len()));
    &&& later.at_block()
    &&& later.code() == b.code().push(Stmt::Assign(temp, e)).push(
        Stmt::Assign(Expr::deref(t + " *"@, b.var(dest)), temp),
    )
}

/// An expression that is stored is computed once and stored at the destination.
pub proof fn expressions_are_stored(b: Bx, t: TypeRef, e: Expr, dest: ValueRef)
    requires
        b.at_block(),
        b.has(dest),
        assigned_whole(b.cx.kind(t)),
        b.cx.values.len() < usize::MAX,
    ensures
        stores(b, b.store_expr(t, e, dest), b.type_str(t), e, dest),
{
    temporaries_are_assigned(b, t, e);
    let (b1, v) = b.temp_stmt(t, e);
    value_text_is_stable(b.cx.values, b1.cx.values, dest.0 as nat);
    emitted_is_last(
        b1,
        Stmt::Assign(Expr::deref(b1.type_str(b1.type_of(v)) + " *"@, b1.var(dest)), b1.var(v)),
    );
}

// --- Rotations ---

/// A rotation, of a value of `bits` bits, as an expression: what is shifted out at one
/// end comes in at the other.
pub open spec fn rotation(left: bool, v: Text, s: Text, bits: nat, t: Text, ut: Text) -> Expr {
    let n = Expr::Lit(dec(bits));
    let (there, back) = if left {
        (CBinOp::Shl, CBinOp::Shr)
    } else {
        (CBinOp::Shr, CBinOp::Shl)
    };
    let rest = Expr::binop(Expr::paren(Expr::binop(n, CBinOp::Sub, Expr::Var(s))), CBinOp::Rem, n);
    Expr::cast(
        t,
        Expr::paren(
            Expr::binop(
                Expr::binop(
                    Expr::cast(ut, Expr::Var(v)),
                    there,
                    Expr::paren(Expr::binop(Expr::Var(s), CBinOp::Rem, n)),
                ),
                CBinOp::BitOr,
                Expr::binop(Expr::cast(ut, Expr::Var(v)), back, Expr::paren(rest)),
            ),
        ),
    )
}

/// A rotation by less than the width brings together what a shift keeps and what it
/// loses, of the number that the bits stand for without a sign.
pub proof fn rotations_lose_nothing(
    m: Meaning,
    left: bool,
    v: Text,
    s: Text,
    bits: nat,
    t: Text,
    ut: Text,
)
    requires
        reads_literals(m),
        c_width(ut, m.ptr_bits) == Some((bits, false)),
        ut != "_Bool"@,
        0 < (m.names)(s) < bits,
    ensures
        ({
            let x = wrapped_to((m.names)(v), bits, false);
            let n = (m.names)(s) as nat;
            let rest = (bits - n) as nat;
            let (kept, lost) = if left {
                (x * pow2(n), x / (pow2(rest) as int))
            } else {
                (x / (pow2(n) as int), x * pow2(rest))
            };
            m.eval(rotation(left, v, s, bits, t, ut)) == crate::meaning::converted(
                t,
                (m.bits_or)(kept, lost),
                m.ptr_bits,
            )
        }),
{
    reveal_with_fuel(Meaning::eval, 8);
    let n = (m.names)(s);
    assert((m.names)(dec(bits)) == bits);
    assert(quotient(n, bits as int) == 0) by (nonlinear_arith)
        requires
            0 < n < bits,
    {
        vstd::arithmetic::div_mod::lemma_basic_div(n, bits as int);
    }
    assert(quotient(bits - n, bits as int) == 0) by (nonlinear_arith)
        requires
            0 < n < bits,
    {
        vstd::arithmetic::div_mod::lemma_basic_div(bits - n, bits as int);
    }
    assert(bits * 0 == 0);
}

// --- How the texts are put together ---

#[verifier::spinoff_prover]
#[verifier::rlimit(60)]
proof fn left_rotation_is_grouped(v: Text, s: Text, d: Text, t: Text, ut: Text)
    ensures
        "("@ + t + ")(("@ + ut + ")"@ + v + " << ("@ + s + " % "@ + d + ") | ("@ + ut + ")"@ + v
            + " >> (("@ + d + " - "@ + s + ") % "@ + d + "))"@ == "("@ + t + ")"@ + ("("@ + ((("("@
            + ut + ")"@ + v) + " << "@ + ("("@ + (s + " % "@ + d) + ")"@)) + " | "@ + (("("@ + ut
            + ")"@ + v) + " >> "@ + ("("@ + (("("@ + (d + " - "@ + s) + ")"@) + " % "@ + d)
            + ")"@))) + ")"@),
{
    reveal_strlit("(");
    reveal_strlit(")((");
    reveal_strlit(")");
    reveal_strlit(" << (");
    reveal_strlit(" % ");
    reveal_strlit(") | (");
    reveal_strlit(" >> ((");
    reveal_strlit(" - ");
    reveal_strlit(") % ");
    reveal_strlit("))");
    reveal_strlit(" << ");
    reveal_strlit(" | ");
    reveal_strlit(" >> ");
    assert("("@ + t + ")(("@ + ut + ")"@ + v + " << ("@ + s + " % "@ + d + ") | ("@ + ut + ")"@ + v
        + " >> (("@ + d + " - "@ + s + ") % "@ + d + "))"@ =~= "("@ + t + ")"@ + ("("@ + ((("("@
        + ut + ")"@ + v) + " << "@ + ("("@ + (s + " % "@ + d) + ")"@)) + " | "@ + (("("@ + ut + ")"@
        + v) + " >> "@ + ("("@ + (("("@ + (d + " - "@ + s) + ")"@) + " % "@ + d) + ")"@))) + ")"@));
}

proof fn left_rotation_is_written(v: Text, s: Text, d: Text, t: Text, ut: Text)
    ensures
        "("@ + t + ")(("@ + ut + ")"@ + v + " << ("@ + s + " % "@ + d + ") | ("@ + ut + ")"@ + v
            + " >> (("@ + d + " - "@ + s + ") % "@ + d + "))"@ == plain_text(Expr::cast(t,
            Expr::paren(Expr::binop(Expr::binop(Expr::cast(ut, Expr::Var(v)), CBinOp::Shl,
            Expr::paren(Expr::binop(Expr::Var(s), CBinOp::Rem, Expr::Lit(d)))), CBinOp::BitOr,
            Expr::binop(Expr::cast(ut, Expr::Var(v)), CBinOp::Shr,
            Expr::paren(Expr::binop(Expr::paren(Expr::binop(Expr::Lit(d), CBinOp::Sub,
            Expr::Var(s))), CBinOp::Rem, Expr::Lit(d)))))))),
{
    left_rotation_is_grouped(v, s, d, t, ut);
    assert(plain_text(Expr::Var(v)) == v);
    assert(plain_text(Expr::Var(s)) == s);
    assert(plain_text(Expr::Lit(d)) == d);
    let e1 = Expr::cast(ut, Expr::Var(v));
    assert(plain_text(e1) == "("@ + ut + ")"@ + v);
    let e2 = Expr::binop(Expr::Var(s), CBinOp::Rem, Expr::Lit(d));
    assert(plain_text(e2) == s + " % "@ + d);
    let e3 = Expr::paren(e2);
    assert(plain_text(e3) == "("@ + (s + " % "@ + d) + ")"@);
    let e4 = Expr::binop(e1, CBinOp::Shl, e3);
    assert(plain_text(e4) == ("("@ + ut + ")"@ + v) + " << "@ + ("("@ + (s + " % "@ + d) + ")"@));
    let e5 = Expr::cast(ut, Expr::Var(v));
    assert(plain_text(e5) == "("@ + ut + ")"@ + v);
    let e6 = Expr::binop(Expr::Lit(d), CBinOp::Sub, Expr::Var(s));
    assert(plain_text(e6) == d + " - "@ + s);
    let e7 = Expr::paren(e6);
    assert(plain_text(e7) == "("@ + (d + " - "@ + s) + ")"@);
    let e8 = Expr::binop(e7, CBinOp::Rem, Expr::Lit(d));
    assert(plain_text(e8) == ("("@ + (d + " - "@ + s) + ")"@) + " % "@ + d);
    let e9 = Expr::paren(e8);
    assert(plain_text(e9) == "("@ + (("("@ + (d + " - "@ + s) + ")"@) + " % "@ + d) + ")"@);
    let e10 = Expr::binop(e5, CBinOp::Shr, e9);
    assert(plain_text(e10) == ("("@ + ut + ")"@ + v) + " >> "@ + ("("@ + (("("@ + (d + " - "@ + s)
        + ")"@) + " % "@ + d) + ")"@));
    let e11 = Expr::binop(e4, CBinOp::BitOr, e10);
    assert(plain_text(e11) == (("("@ + ut + ")"@ + v) + " << "@ + ("("@ + (s + " % "@ + d) + ")"@))
        + " | "@ + (("("@ + ut + ")"@ + v) + " >> "@ + ("("@ + (("("@ + (d + " - "@ + s) + ")"@)
        + " % "@ + d) + ")"@)));
    let e12 = Expr::paren(e11);
    assert(plain_text(e12) == "("@ + ((("("@ + ut + ")"@ + v) + " << "@ + ("("@ + (s + " % "@ + d)
        + ")"@)) + " | "@ + (("("@ + ut + ")"@ + v) + " >> "@ + ("("@ + (("("@ + (d + " - "@ + s)
        + ")"@) + " % "@ + d) + ")"@))) + ")"@);
    let e13 = Expr::cast(t, e12);
    assert(plain_text(e13) == "("@ + t + ")"@ + ("("@ + ((("("@ + ut + ")"@ + v) + " << "@ + ("("@
        + (s + " % "@ + d) + ")"@)) + " | "@ + (("("@ + ut + ")"@ + v) + " >> "@ + ("("@ + (("("@
        + (d + " - "@ + s) + ")"@) + " % "@ + d) + ")"@))) + ")"@));
}

#[verifier::spinoff_prover]
#[verifier::rlimit(60)]
proof fn right_rotation_is_grouped(v: Text, s: Text, d: Text, t: Text, ut: Text)
    ensures
        "("@ + t + ")(("@ + ut + ")"@ + v + " >> ("@ + s + " % "@ + d + ") | ("@ + ut + ")"@ + v
            + " << (("@ + d + " - "@ + s + ") % "@ + d + "))"@ == "("@ + t + ")"@ + ("("@ + ((("("@
            + ut + ")"@ + v) + " >> "@ + ("("@ + (s + " % "@ + d) + ")"@)) + " | "@ + (("("@ + ut
            + ")"@ + v) + " << "@ + ("("@ + (("("@ + (d + " - "@ + s) + ")"@) + " % "@ + d)
            + ")"@))) + ")"@),
{
    reveal_strlit("(");
    reveal_strlit(")((");
    reveal_strlit(")");
    reveal_strlit(" >> (");
    reveal_strlit(" % ");
    reveal_strlit(") | (");
    reveal_strlit(" << ((");
    reveal_strlit(" - ");
    reveal_strlit(") % ");
    reveal_strlit("))");
    reveal_strlit(" >> ");
    reveal_strlit(" | ");
    reveal_strlit(" << ");
    assert("("@ + t + ")(("@ + ut + ")"@ + v + " >> ("@ + s + " % "@ + d + ") | ("@ + ut + ")"@ + v
        + " << (("@ + d + " - "@ + s + ") % "@ + d + "))"@ =~= "("@ + t + ")"@ + ("("@ + ((("("@
        + ut + ")"@ + v) + " >> "@ + ("("@ + (s + " % "@ + d) + ")"@)) + " | "@ + (("("@ + ut + ")"@
        + v) + " << "@ + ("("@ + (("("@ + (d + " - "@ + s) + ")"@) + " % "@ + d) + ")"@))) + ")"@));
}

proof fn right_rotation_is_written(v: Text, s: Text, d: Text, t: Text, ut: Text)
    ensures
        "("@ + t + ")(("@ + ut + ")"@ + v + " >> ("@ + s + " % "@ + d + ") | ("@ + ut + ")"@ + v
            + " << (("@ + d + " - "@ + s + ") % "@ + d + "))"@ == plain_text(Expr::cast(t,
            Expr::paren(Expr::binop(Expr::binop(Expr::cast(ut, Expr::Var(v)), CBinOp::Shr,
            Expr::paren(Expr::binop(Expr::Var(s), CBinOp::Rem, Expr::Lit(d)))), CBinOp::BitOr,
            Expr::binop(Expr::cast(ut, Expr::Var(v)), CBinOp::Shl,
            Expr::paren(Expr::binop(Expr::paren(Expr::binop(Expr::Lit(d), CBinOp::Sub,
            Expr::Var(s))), CBinOp::Rem, Expr::Lit(d)))))))),
{
    right_rotation_is_grouped(v, s, d, t, ut);
    assert(plain_text(Expr::Var(v)) == v);
    assert(plain_text(Expr::Var(s)) == s);
    assert(plain_text(Expr::Lit(d)) == d);
    let e1 = Expr::cast(ut, Expr::Var(v));
    assert(plain_text(e1) == "("@ + ut + ")"@ + v);
    let e2 = Expr::binop(Expr::Var(s), CBinOp::Rem, Expr::Lit(d));
    assert(plain_text(e2) == s + " % "@ + d);
    let e3 = Expr::paren(e2);
    assert(plain_text(e3) == "("@ + (s + " % "@ + d) + ")"@);
    let e4 = Expr::binop(e1, CBinOp::Shr, e3);
    assert(plain_text(e4) == ("("@ + ut + ")"@ + v) + " >> "@ + ("("@ + (s + " % "@ + d) + ")"@));
    let e5 = Expr::cast(ut, Expr::Var(v));
    assert(plain_text(e5) == "("@ + ut + ")"@ + v);
    let e6 = Expr::binop(Expr::Lit(d), CBinOp::Sub, Expr::Var(s));
    assert(plain_text(e6) == d + " - "@ + s);
    let e7 = Expr::paren(e6);
    assert(plain_text(e7) == "("@ + (d + " - "@ + s) + ")"@);
    let e8 = Expr::binop(e7, CBinOp::Rem, Expr::Lit(d));
    assert(plain_text(e8) == ("("@ + (d + " - "@ + s) + ")"@) + " % "@ + d);
    let e9 = Expr::paren(e8);
    assert(plain_text(e9) == "("@ + (("("@ + (d + " - "@ + s) + ")"@) + " % "@ + d) + ")"@);
    let e10 = Expr::binop(e5, CBinOp::Shl, e9);
    assert(plain_text(e10) == ("("@ + ut + ")"@ + v) + " << "@ + ("("@ + (("("@ + (d + " - "@ + s)
        + ")"@) + " % "@ + d) + ")"@));
    let e11 = Expr::binop(e4, CBinOp::BitOr, e10);
    assert(plain_text(e11) == (("("@ + ut + ")"@ + v) + " >> "@ + ("("@ + (s + " % "@ + d) + ")"@))
        + " | "@ + (("("@ + ut + ")"@ + v) + " << "@ + ("("@ + (("("@ + (d + " - "@ + s) + ")"@)
        + " % "@ + d) + ")"@)));
    let e12 = Expr::paren(e11);
    assert(plain_text(e12) == "("@ + ((("("@ + ut + ")"@ + v) + " >> "@ + ("("@ + (s + " % "@ + d)
        + ")"@)) + " | "@ + (("("@ + ut + ")"@ + v) + " << "@ + ("("@ + (("("@ + (d + " - "@ + s)
        + ")"@) + " % "@ + d) + ")"@))) + ")"@);
    let e13 = Expr::cast(t, e12);
    assert(plain_text(e13) == "("@ + t + ")"@ + ("("@ + ((("("@ + ut + ")"@ + v) + " >> "@ + ("("@
        + (s + " % "@ + d) + ")"@)) + " | "@ + (("("@ + ut + ")"@ + v) + " << "@ + ("("@ + (("("@
        + (d + " - "@ + s) + ")"@) + " % "@ + d) + ")"@))) + ")"@));
}

#[verifier::spinoff_prover]
#[verifier::rlimit(60)]
proof fn left_funnel_is_grouped(a: Text, b: Text, s: Text, d: Text, t: Text, ut: Text)
    ensures
        "("@ + t + ")((("@ + ut + ")"@ + a + " << "@ + s + ") | (("@ + ut + ")"@ + b + " >> ("@ + d
            + " - "@ + s + ")))"@ == "("@ + t + ")"@ + ("("@ + (("("@ + (("("@ + ut + ")"@ + a)
            + " << "@ + s) + ")"@) + " | "@ + ("("@ + (("("@ + ut + ")"@ + b) + " >> "@ + ("("@ + (d
            + " - "@ + s) + ")"@)) + ")"@)) + ")"@),
{
    reveal_strlit("(");
    reveal_strlit(")(((");
    reveal_strlit(")");
    reveal_strlit(" << ");
    reveal_strlit(") | ((");
    reveal_strlit(" >> (");
    reveal_strlit(" - ");
    reveal_strlit(")))");
    reveal_strlit(" | ");
    reveal_strlit(" >> ");
    assert("("@ + t + ")((("@ + ut + ")"@ + a + " << "@ + s + ") | (("@ + ut + ")"@ + b + " >> ("@
        + d + " - "@ + s + ")))"@ =~= "("@ + t + ")"@ + ("("@ + (("("@ + (("("@ + ut + ")"@ + a)
        + " << "@ + s) + ")"@) + " | "@ + ("("@ + (("("@ + ut + ")"@ + b) + " >> "@ + ("("@ + (d
        + " - "@ + s) + ")"@)) + ")"@)) + ")"@));
}

proof fn left_funnel_is_written(a: Text, b: Text, s: Text, d: Text, t: Text, ut: Text)
    ensures
        "("@ + t + ")((("@ + ut + ")"@ + a + " << "@ + s + ") | (("@ + ut + ")"@ + b + " >> ("@ + d
            + " - "@ + s + ")))"@ == plain_text(Expr::cast(t,
            Expr::paren(Expr::binop(Expr::paren(Expr::binop(Expr::cast(ut, Expr::Var(a)),
            CBinOp::Shl, Expr::Var(s))), CBinOp::BitOr, Expr::paren(Expr::binop(Expr::cast(ut,
            Expr::Var(b)), CBinOp::Shr, Expr::paren(Expr::binop(Expr::Lit(d), CBinOp::Sub,
            Expr::Var(s))))))))),
{
    left_funnel_is_grouped(a, b, s, d, t, ut);
    assert(plain_text(Expr::Var(a)) == a);
    assert(plain_text(Expr::Var(s)) == s);
    assert(plain_text(Expr::Var(b)) == b);
    assert(plain_text(Expr::Lit(d)) == d);
    let e1 = Expr::cast(ut, Expr::Var(a));
    assert(plain_text(e1) == "("@ + ut + ")"@ + a);
    let e2 = Expr::binop(e1, CBinOp::Shl, Expr::Var(s));
    assert(plain_text(e2) == ("("@ + ut + ")"@ + a) + " << "@ + s);
    let e3 = Expr::paren(e2);
    assert(plain_text(e3) == "("@ + (("("@ + ut + ")"@ + a) + " << "@ + s) + ")"@);
    let e4 = Expr::cast(ut, Expr::Var(b));
    assert(plain_text(e4) == "("@ + ut + ")"@ + b);
    let e5 = Expr::binop(Expr::Lit(d), CBinOp::Sub, Expr::Var(s));
    assert(plain_text(e5) == d + " - "@ + s);
    let e6 = Expr::paren(e5);
    assert(plain_text(e6) == "("@ + (d + " - "@ + s) + ")"@);
    let e7 = Expr::binop(e4, CBinOp::Shr, e6);
    assert(plain_text(e7) == ("("@ + ut + ")"@ + b) + " >> "@ + ("("@ + (d + " - "@ + s) + ")"@));
    let e8 = Expr::paren(e7);
    assert(plain_text(e8) == "("@ + (("("@ + ut + ")"@ + b) + " >> "@ + ("("@ + (d + " - "@ + s)
        + ")"@)) + ")"@);
    let e9 = Expr::binop(e3, CBinOp::BitOr, e8);
    assert(plain_text(e9) == ("("@ + (("("@ + ut + ")"@ + a) + " << "@ + s) + ")"@) + " | "@ + ("("@
        + (("("@ + ut + ")"@ + b) + " >> "@ + ("("@ + (d + " - "@ + s) + ")"@)) + ")"@));
    let e10 = Expr::paren(e9);
    assert(plain_text(e10) == "("@ + (("("@ + (("("@ + ut + ")"@ + a) + " << "@ + s) + ")"@)
        + " | "@ + ("("@ + (("("@ + ut + ")"@ + b) + " >> "@ + ("("@ + (d + " - "@ + s) + ")"@))
        + ")"@)) + ")"@);
    let e11 = Expr::cast(t, e10);
    assert(plain_text(e11) == "("@ + t + ")"@ + ("("@ + (("("@ + (("("@ + ut + ")"@ + a) + " << "@
        + s) + ")"@) + " | "@ + ("("@ + (("("@ + ut + ")"@ + b) + " >> "@ + ("("@ + (d + " - "@ + s)
        + ")"@)) + ")"@)) + ")"@));
}

#[verifier::spinoff_prover]
#[verifier::rlimit(60)]
proof fn right_funnel_is_grouped(a: Text, b: Text, s: Text, d: Text, t: Text, ut: Text)
    ensures
        "("@ + t + ")((("@ + ut + ")"@ + a + " >> "@ + s + ") | (("@ + ut + ")"@ + b + " << ("@ + d
            + " - "@ + s + ")))"@ == "("@ + t + ")"@ + ("("@ + (("("@ + (("("@ + ut + ")"@ + a)
            + " >> "@ + s) + ")"@) + " | "@ + ("("@ + (("("@ + ut + ")"@ + b) + " << "@ + ("("@ + (d
            + " - "@ + s) + ")"@)) + ")"@)) + ")"@),
{
    reveal_strlit("(");
    reveal_strlit(")(((");
    reveal_strlit(")");
    reveal_strlit(" >> ");
    reveal_strlit(") | ((");
    reveal_strlit(" << (");
    reveal_strlit(" - ");
    reveal_strlit(")))");
    reveal_strlit(" | ");
    reveal_strlit(" << ");
    assert("("@ + t + ")((("@ + ut + ")"@ + a + " >> "@ + s + ") | (("@ + ut + ")"@ + b + " << ("@
        + d + " - "@ + s + ")))"@ =~= "("@ + t + ")"@ + ("("@ + (("("@ + (("("@ + ut + ")"@ + a)
        + " >> "@ + s) + ")"@) + " | "@ + ("("@ + (("("@ + ut + ")"@ + b) + " << "@ + ("("@ + (d
        + " - "@ + s) + ")"@)) + ")"@)) + ")"@));
}

proof fn right_funnel_is_written(a: Text, b: Text, s: Text, d: Text, t: Text, ut: Text)
    ensures
        "("@ + t + ")((("@ + ut + ")"@ + a + " >> "@ + s + ") | (("@ + ut + ")"@ + b + " << ("@ + d
            + " - "@ + s + ")))"@ == plain_text(Expr::cast(t,
            Expr::paren(Expr::binop(Expr::paren(Expr::binop(Expr::cast(ut, Expr::Var(a)),
            CBinOp::Shr, Expr::Var(s))), CBinOp::BitOr, Expr::paren(Expr::binop(Expr::cast(ut,
            Expr::Var(b)), CBinOp::Shl, Expr::paren(Expr::binop(Expr::Lit(d), CBinOp::Sub,
            Expr::Var(s))))))))),
{
    right_funnel_is_grouped(a, b, s, d, t, ut);
    assert(plain_text(Expr::Var(a)) == a);
    assert(plain_text(Expr::Var(s)) == s);
    assert(plain_text(Expr::Var(b)) == b);
    assert(plain_text(Expr::Lit(d)) == d);
    let e1 = Expr::cast(ut, Expr::Var(a));
    assert(plain_text(e1) == "("@ + ut + ")"@ + a);
    let e2 = Expr::binop(e1, CBinOp::Shr, Expr::Var(s));
    assert(plain_text(e2) == ("("@ + ut + ")"@ + a) + " >> "@ + s);
    let e3 = Expr::paren(e2);
    assert(plain_text(e3) == "("@ + (("("@ + ut + ")"@ + a) + " >> "@ + s) + ")"@);
    let e4 = Expr::cast(ut, Expr::Var(b));
    assert(plain_text(e4) == "("@ + ut + ")"@ + b);
    let e5 = Expr::binop(Expr::Lit(d), CBinOp::Sub, Expr::Var(s));
    assert(plain_text(e5) == d + " - "@ + s);
    let e6 = Expr::paren(e5);
    assert(plain_text(e6) == "("@ + (d + " - "@ + s) + ")"@);
    let e7 = Expr::binop(e4, CBinOp::Shl, e6);
    assert(plain_text(e7) == ("("@ + ut + ")"@ + b) + " << "@ + ("("@ + (d + " - "@ + s) + ")"@));
    let e8 = Expr::paren(e7);
    assert(plain_text(e8) == "("@ + (("("@ + ut + ")"@ + b) + " << "@ + ("("@ + (d + " - "@ + s)
        + ")"@)) + ")"@);
    let e9 = Expr::binop(e3, CBinOp::BitOr, e8);
    assert(plain_text(e9) == ("("@ + (("("@ + ut + ")"@ + a) + " >> "@ + s) + ")"@) + " | "@ + ("("@
        + (("("@ + ut + ")"@ + b) + " << "@ + ("("@ + (d + " - "@ + s) + ")"@)) + ")"@));
    let e10 = Expr::paren(e9);
    assert(plain_text(e10) == "("@ + (("("@ + (("("@ + ut + ")"@ + a) + " >> "@ + s) + ")"@)
        + " | "@ + ("("@ + (("("@ + ut + ")"@ + b) + " << "@ + ("("@ + (d + " - "@ + s) + ")"@))
        + ")"@)) + ")"@);
    let e11 = Expr::cast(t, e10);
    assert(plain_text(e11) == "("@ + t + ")"@ + ("("@ + (("("@ + (("("@ + ut + ")"@ + a) + " >> "@
        + s) + ")"@) + " | "@ + ("("@ + (("("@ + ut + ")"@ + b) + " << "@ + ("("@ + (d + " - "@ + s)
        + ")"@)) + ")"@)) + ")"@));
}

#[verifier::spinoff_prover]
#[verifier::rlimit(60)]
proof fn reversing_step_is_grouped(r: Text, i: Text, v: Text, t: Text, ut: Text)
    ensures
        "("@ + t + ")((("@ + ut + ")"@ + r + " << 1) | ((("@ + ut + ")"@ + v + " >> "@ + i
            + ") & 1))"@ == "("@ + t + ")"@ + ("("@ + (("("@ + (("("@ + ut + ")"@ + r) + " << "@
            + "1"@) + ")"@) + " | "@ + ("("@ + (("("@ + (("("@ + ut + ")"@ + v) + " >> "@ + i)
            + ")"@) + " & "@ + "1"@) + ")"@)) + ")"@),
{
    reveal_strlit("(");
    reveal_strlit(")(((");
    reveal_strlit(")");
    reveal_strlit(" << 1) | (((");
    reveal_strlit(" >> ");
    reveal_strlit(") & 1))");
    reveal_strlit(" << ");
    reveal_strlit("1");
    reveal_strlit(" | ");
    reveal_strlit(" & ");
    assert("("@ + t + ")((("@ + ut + ")"@ + r + " << 1) | ((("@ + ut + ")"@ + v + " >> "@ + i
        + ") & 1))"@ =~= "("@ + t + ")"@ + ("("@ + (("("@ + (("("@ + ut + ")"@ + r) + " << "@
        + "1"@) + ")"@) + " | "@ + ("("@ + (("("@ + (("("@ + ut + ")"@ + v) + " >> "@ + i) + ")"@)
        + " & "@ + "1"@) + ")"@)) + ")"@));
}

proof fn reversing_step_is_written(r: Text, i: Text, v: Text, t: Text, ut: Text)
    ensures
        "("@ + t + ")((("@ + ut + ")"@ + r + " << 1) | ((("@ + ut + ")"@ + v + " >> "@ + i
            + ") & 1))"@ == plain_text(Expr::cast(t,
            Expr::paren(Expr::binop(Expr::paren(Expr::binop(Expr::cast(ut, Expr::Var(r)),
            CBinOp::Shl, Expr::Lit("1"@))), CBinOp::BitOr,
            Expr::paren(Expr::binop(Expr::paren(Expr::binop(Expr::cast(ut, Expr::Var(v)),
            CBinOp::Shr, Expr::Var(i))), CBinOp::BitAnd, Expr::Lit("1"@))))))),
{
    reversing_step_is_grouped(r, i, v, t, ut);
    assert(plain_text(Expr::Var(r)) == r);
    assert(plain_text(Expr::Lit("1"@)) == "1"@);
    assert(plain_text(Expr::Var(v)) == v);
    assert(plain_text(Expr::Var(i)) == i);
    let e1 = Expr::cast(ut, Expr::Var(r));
    assert(plain_text(e1) == "("@ + ut + ")"@ + r);
    let e2 = Expr::binop(e1, CBinOp::Shl, Expr::Lit("1"@));
    assert(plain_text(e2) == ("("@ + ut + ")"@ + r) + " << "@ + "1"@);
    let e3 = Expr::paren(e2);
    assert(plain_text(e3) == "("@ + (("("@ + ut + ")"@ + r) + " << "@ + "1"@) + ")"@);
    let e4 = Expr::cast(ut, Expr::Var(v));
    assert(plain_text(e4) == "("@ + ut + ")"@ + v);
    let e5 = Expr::binop(e4, CBinOp::Shr, Expr::Var(i));
    assert(plain_text(e5) == ("("@ + ut + ")"@ + v) + " >> "@ + i);
    let e6 = Expr::paren(e5);
    assert(plain_text(e6) == "("@ + (("("@ + ut + ")"@ + v) + " >> "@ + i) + ")"@);
    let e7 = Expr::binop(e6, CBinOp::BitAnd, Expr::Lit("1"@));
    assert(plain_text(e7) == ("("@ + (("("@ + ut + ")"@ + v) + " >> "@ + i) + ")"@) + " & "@
        + "1"@);
    let e8 = Expr::paren(e7);
    assert(plain_text(e8) == "("@ + (("("@ + (("("@ + ut + ")"@ + v) + " >> "@ + i) + ")"@) + " & "@
        + "1"@) + ")"@);
    let e9 = Expr::binop(e3, CBinOp::BitOr, e8);
    assert(plain_text(e9) == ("("@ + (("("@ + ut + ")"@ + r) + " << "@ + "1"@) + ")"@) + " | "@
        + ("("@ + (("("@ + (("("@ + ut + ")"@ + v) + " >> "@ + i) + ")"@) + " & "@ + "1"@) + ")"@));
    let e10 = Expr::paren(e9);
    assert(plain_text(e10) == "("@ + (("("@ + (("("@ + ut + ")"@ + r) + " << "@ + "1"@) + ")"@)
        + " | "@ + ("("@ + (("("@ + (("("@ + ut + ")"@ + v) + " >> "@ + i) + ")"@) + " & "@ + "1"@)
        + ")"@)) + ")"@);
    let e11 = Expr::cast(t, e10);
    assert(plain_text(e11) == "("@ + t + ")"@ + ("("@ + (("("@ + (("("@ + ut + ")"@ + r) + " << "@
        + "1"@) + ")"@) + " | "@ + ("("@ + (("("@ + (("("@ + ut + ")"@ + v) + " >> "@ + i) + ")"@)
        + " & "@ + "1"@) + ")"@)) + ")"@));
}

#[verifier::spinoff_prover]
#[verifier::rlimit(60)]
proof fn small_leading_is_grouped(v: Text, d: Text, k: Text)
    ensures
        "("@ + v + " == 0 ? "@ + d + " : __rustc_clz32((uint32_t)("@ + v + ") & "@ + k
            + "U) - (32 - "@ + d + "))"@ == "("@ + ((v + " == "@ + "0"@) + " ? "@ + d + " : "@
            + (("__rustc_clz32"@ + "("@ + (("("@ + "uint32_t"@ + ")"@ + ("("@ + v + ")"@)) + " & "@
            + (k + "U"@)) + ")"@) + " - "@ + ("("@ + ("32"@ + " - "@ + d) + ")"@))) + ")"@,
{
    reveal_strlit("(");
    reveal_strlit(" == 0 ? ");
    reveal_strlit(" : __rustc_clz32((uint32_t)(");
    reveal_strlit(") & ");
    reveal_strlit("U) - (32 - ");
    reveal_strlit("))");
    reveal_strlit(" == ");
    reveal_strlit("0");
    reveal_strlit(" ? ");
    reveal_strlit(" : ");
    reveal_strlit("__rustc_clz32");
    reveal_strlit("uint32_t");
    reveal_strlit(")");
    reveal_strlit(" & ");
    reveal_strlit("U");
    reveal_strlit(" - ");
    reveal_strlit("32");
    assert("("@ + v + " == 0 ? "@ + d + " : __rustc_clz32((uint32_t)("@ + v + ") & "@ + k
        + "U) - (32 - "@ + d + "))"@ =~= "("@ + ((v + " == "@ + "0"@) + " ? "@ + d + " : "@
        + (("__rustc_clz32"@ + "("@ + (("("@ + "uint32_t"@ + ")"@ + ("("@ + v + ")"@)) + " & "@ + (k
        + "U"@)) + ")"@) + " - "@ + ("("@ + ("32"@ + " - "@ + d) + ")"@))) + ")"@);
}

proof fn small_leading_is_written(v: Text, d: Text, k: Text)
    ensures
        "("@ + v + " == 0 ? "@ + d + " : __rustc_clz32((uint32_t)("@ + v + ") & "@ + k
            + "U) - (32 - "@ + d + "))"@
            == plain_text(Expr::paren(Expr::ternary(Expr::binop(Expr::Var(v), CBinOp::Eq,
            Expr::Lit("0"@)), Expr::Lit(d), Expr::binop(Expr::call("__rustc_clz32"@,
            seq![Expr::binop(Expr::cast("uint32_t"@, Expr::paren(Expr::Var(v))), CBinOp::BitAnd,
            Expr::Lit((k + "U"@)))]), CBinOp::Sub, Expr::paren(Expr::binop(Expr::Lit("32"@),
            CBinOp::Sub, Expr::Lit(d))))))),
{
    small_leading_is_grouped(v, d, k);
    assert(plain_text(Expr::Var(v)) == v);
    assert(plain_text(Expr::Lit("0"@)) == "0"@);
    assert(plain_text(Expr::Lit(d)) == d);
    assert(plain_text(Expr::Lit((k + "U"@))) == (k + "U"@));
    assert(plain_text(Expr::Lit("32"@)) == "32"@);
    let e1 = Expr::binop(Expr::Var(v), CBinOp::Eq, Expr::Lit("0"@));
    assert(plain_text(e1) == v + " == "@ + "0"@);
    let e2 = Expr::paren(Expr::Var(v));
    assert(plain_text(e2) == "("@ + v + ")"@);
    let e3 = Expr::cast("uint32_t"@, e2);
    assert(plain_text(e3) == "("@ + "uint32_t"@ + ")"@ + ("("@ + v + ")"@));
    let e4 = Expr::binop(e3, CBinOp::BitAnd, Expr::Lit((k + "U"@)));
    assert(plain_text(e4) == ("("@ + "uint32_t"@ + ")"@ + ("("@ + v + ")"@)) + " & "@ + (k + "U"@));
    assert(plain_text(Expr::Var("__rustc_clz32"@)) == "__rustc_clz32"@);
    let e5 = Expr::call("__rustc_clz32"@, seq![e4]);
    assert(plain_text(e5) == "__rustc_clz32"@ + "("@ + (("("@ + "uint32_t"@ + ")"@ + ("("@ + v
        + ")"@)) + " & "@ + (k + "U"@)) + ")"@);
    let e6 = Expr::binop(Expr::Lit("32"@), CBinOp::Sub, Expr::Lit(d));
    assert(plain_text(e6) == "32"@ + " - "@ + d);
    let e7 = Expr::paren(e6);
    assert(plain_text(e7) == "("@ + ("32"@ + " - "@ + d) + ")"@);
    let e8 = Expr::binop(e5, CBinOp::Sub, e7);
    assert(plain_text(e8) == ("__rustc_clz32"@ + "("@ + (("("@ + "uint32_t"@ + ")"@ + ("("@ + v
        + ")"@)) + " & "@ + (k + "U"@)) + ")"@) + " - "@ + ("("@ + ("32"@ + " - "@ + d) + ")"@));
    let e9 = Expr::ternary(e1, Expr::Lit(d), e8);
    assert(plain_text(e9) == (v + " == "@ + "0"@) + " ? "@ + d + " : "@ + (("__rustc_clz32"@ + "("@
        + (("("@ + "uint32_t"@ + ")"@ + ("("@ + v + ")"@)) + " & "@ + (k + "U"@)) + ")"@) + " - "@
        + ("("@ + ("32"@ + " - "@ + d) + ")"@)));
    let e10 = Expr::paren(e9);
    assert(plain_text(e10) == "("@ + ((v + " == "@ + "0"@) + " ? "@ + d + " : "@
        + (("__rustc_clz32"@ + "("@ + (("("@ + "uint32_t"@ + ")"@ + ("("@ + v + ")"@)) + " & "@ + (k
        + "U"@)) + ")"@) + " - "@ + ("("@ + ("32"@ + " - "@ + d) + ")"@))) + ")"@);
}

#[verifier::spinoff_prover]
#[verifier::rlimit(60)]
proof fn word_leading_is_grouped(v: Text, d: Text)
    ensures
        "("@ + v + " == 0 ? "@ + d + " : __rustc_clz32((uint32_t)"@ + v + ") - (32 - "@ + d + "))"@
            == "("@ + ((v + " == "@ + "0"@) + " ? "@ + d + " : "@ + (("__rustc_clz32"@ + "("@
            + ("("@ + "uint32_t"@ + ")"@ + v) + ")"@) + " - "@ + ("("@ + ("32"@ + " - "@ + d)
            + ")"@))) + ")"@,
{
    reveal_strlit("(");
    reveal_strlit(" == 0 ? ");
    reveal_strlit(" : __rustc_clz32((uint32_t)");
    reveal_strlit(") - (32 - ");
    reveal_strlit("))");
    reveal_strlit(" == ");
    reveal_strlit("0");
    reveal_strlit(" ? ");
    reveal_strlit(" : ");
    reveal_strlit("__rustc_clz32");
    reveal_strlit("uint32_t");
    reveal_strlit(")");
    reveal_strlit(" - ");
    reveal_strlit("32");
    assert("("@ + v + " == 0 ? "@ + d + " : __rustc_clz32((uint32_t)"@ + v + ") - (32 - "@ + d
        + "))"@ =~= "("@ + ((v + " == "@ + "0"@) + " ? "@ + d + " : "@ + (("__rustc_clz32"@ + "("@
        + ("("@ + "uint32_t"@ + ")"@ + v) + ")"@) + " - "@ + ("("@ + ("32"@ + " - "@ + d) + ")"@)))
        + ")"@);
}

proof fn word_leading_is_written(v: Text, d: Text)
    ensures
        "("@ + v + " == 0 ? "@ + d + " : __rustc_clz32((uint32_t)"@ + v + ") - (32 - "@ + d + "))"@
            == plain_text(Expr::paren(Expr::ternary(Expr::binop(Expr::Var(v), CBinOp::Eq,
            Expr::Lit("0"@)), Expr::Lit(d), Expr::binop(Expr::call("__rustc_clz32"@,
            seq![Expr::cast("uint32_t"@, Expr::Var(v))]), CBinOp::Sub,
            Expr::paren(Expr::binop(Expr::Lit("32"@), CBinOp::Sub, Expr::Lit(d))))))),
{
    word_leading_is_grouped(v, d);
    assert(plain_text(Expr::Var(v)) == v);
    assert(plain_text(Expr::Lit("0"@)) == "0"@);
    assert(plain_text(Expr::Lit(d)) == d);
    assert(plain_text(Expr::Lit("32"@)) == "32"@);
    let e1 = Expr::binop(Expr::Var(v), CBinOp::Eq, Expr::Lit("0"@));
    assert(plain_text(e1) == v + " == "@ + "0"@);
    let e2 = Expr::cast("uint32_t"@, Expr::Var(v));
    assert(plain_text(e2) == "("@ + "uint32_t"@ + ")"@ + v);
    assert(plain_text(Expr::Var("__rustc_clz32"@)) == "__rustc_clz32"@);
    let e3 = Expr::call("__rustc_clz32"@, seq![e2]);
    assert(plain_text(e3) == "__rustc_clz32"@ + "("@ + ("("@ + "uint32_t"@ + ")"@ + v) + ")"@);
    let e4 = Expr::binop(Expr::Lit("32"@), CBinOp::Sub, Expr::Lit(d));
    assert(plain_text(e4) == "32"@ + " - "@ + d);
    let e5 = Expr::paren(e4);
    assert(plain_text(e5) == "("@ + ("32"@ + " - "@ + d) + ")"@);
    let e6 = Expr::binop(e3, CBinOp::Sub, e5);
    assert(plain_text(e6) == ("__rustc_clz32"@ + "("@ + ("("@ + "uint32_t"@ + ")"@ + v) + ")"@)
        + " - "@ + ("("@ + ("32"@ + " - "@ + d) + ")"@));
    let e7 = Expr::ternary(e1, Expr::Lit(d), e6);
    assert(plain_text(e7) == (v + " == "@ + "0"@) + " ? "@ + d + " : "@ + (("__rustc_clz32"@ + "("@
        + ("("@ + "uint32_t"@ + ")"@ + v) + ")"@) + " - "@ + ("("@ + ("32"@ + " - "@ + d) + ")"@)));
    let e8 = Expr::paren(e7);
    assert(plain_text(e8) == "("@ + ((v + " == "@ + "0"@) + " ? "@ + d + " : "@ + (("__rustc_clz32"@
        + "("@ + ("("@ + "uint32_t"@ + ")"@ + v) + ")"@) + " - "@ + ("("@ + ("32"@ + " - "@ + d)
        + ")"@))) + ")"@);
}

#[verifier::spinoff_prover]
#[verifier::rlimit(60)]
proof fn long_leading_is_grouped(v: Text, d: Text)
    ensures
        "("@ + v + " == 0 ? "@ + d + " : __rustc_clz64((uint64_t)"@ + v + ") - (64 - "@ + d + "))"@
            == "("@ + ((v + " == "@ + "0"@) + " ? "@ + d + " : "@ + (("__rustc_clz64"@ + "("@
            + ("("@ + "uint64_t"@ + ")"@ + v) + ")"@) + " - "@ + ("("@ + ("64"@ + " - "@ + d)
            + ")"@))) + ")"@,
{
    reveal_strlit("(");
    reveal_strlit(" == 0 ? ");
    reveal_strlit(" : __rustc_clz64((uint64_t)");
    reveal_strlit(") - (64 - ");
    reveal_strlit("))");
    reveal_strlit(" == ");
    reveal_strlit("0");
    reveal_strlit(" ? ");
    reveal_strlit(" : ");
    reveal_strlit("__rustc_clz64");
    reveal_strlit("uint64_t");
    reveal_strlit(")");
    reveal_strlit(" - ");
    reveal_strlit("64");
    assert("("@ + v + " == 0 ? "@ + d + " : __rustc_clz64((uint64_t)"@ + v + ") - (64 - "@ + d
        + "))"@ =~= "("@ + ((v + " == "@ + "0"@) + " ? "@ + d + " : "@ + (("__rustc_clz64"@ + "("@
        + ("("@ + "uint64_t"@ + ")"@ + v) + ")"@) + " - "@ + ("("@ + ("64"@ + " - "@ + d) + ")"@)))
        + ")"@);
}

proof fn long_leading_is_written(v: Text, d: Text)
    ensures
        "("@ + v + " == 0 ? "@ + d + " : __rustc_clz64((uint64_t)"@ + v + ") - (64 - "@ + d + "))"@
            == plain_text(Expr::paren(Expr::ternary(Expr::binop(Expr::Var(v), CBinOp::Eq,
            Expr::Lit("0"@)), Expr::Lit(d), Expr::binop(Expr::call("__rustc_clz64"@,
            seq![Expr::cast("uint64_t"@, Expr::Var(v))]), CBinOp::Sub,
            Expr::paren(Expr::binop(Expr::Lit("64"@), CBinOp::Sub, Expr::Lit(d))))))),
{
    long_leading_is_grouped(v, d);
    assert(plain_text(Expr::Var(v)) == v);
    assert(plain_text(Expr::Lit("0"@)) == "0"@);
    assert(plain_text(Expr::Lit(d)) == d);
    assert(plain_text(Expr::Lit("64"@)) == "64"@);
    let e1 = Expr::binop(Expr::Var(v), CBinOp::Eq, Expr::Lit("0"@));
    assert(plain_text(e1) == v + " == "@ + "0"@);
    let e2 = Expr::cast("uint64_t"@, Expr::Var(v));
    assert(plain_text(e2) == "("@ + "uint64_t"@ + ")"@ + v);
    assert(plain_text(Expr::Var("__rustc_clz64"@)) == "__rustc_clz64"@);
    let e3 = Expr::call("__rustc_clz64"@, seq![e2]);
    assert(plain_text(e3) == "__rustc_clz64"@ + "("@ + ("("@ + "uint64_t"@ + ")"@ + v) + ")"@);
    let e4 = Expr::binop(Expr::Lit("64"@), CBinOp::Sub, Expr::Lit(d));
    assert(plain_text(e4) == "64"@ + " - "@ + d);
    let e5 = Expr::paren(e4);
    assert(plain_text(e5) == "("@ + ("64"@ + " - "@ + d) + ")"@);
    let e6 = Expr::binop(e3, CBinOp::Sub, e5);
    assert(plain_text(e6) == ("__rustc_clz64"@ + "("@ + ("("@ + "uint64_t"@ + ")"@ + v) + ")"@)
        + " - "@ + ("("@ + ("64"@ + " - "@ + d) + ")"@));
    let e7 = Expr::ternary(e1, Expr::Lit(d), e6);
    assert(plain_text(e7) == (v + " == "@ + "0"@) + " ? "@ + d + " : "@ + (("__rustc_clz64"@ + "("@
        + ("("@ + "uint64_t"@ + ")"@ + v) + ")"@) + " - "@ + ("("@ + ("64"@ + " - "@ + d) + ")"@)));
    let e8 = Expr::paren(e7);
    assert(plain_text(e8) == "("@ + ((v + " == "@ + "0"@) + " ? "@ + d + " : "@ + (("__rustc_clz64"@
        + "("@ + ("("@ + "uint64_t"@ + ")"@ + v) + ")"@) + " - "@ + ("("@ + ("64"@ + " - "@ + d)
        + ")"@))) + ")"@);
}

#[verifier::spinoff_prover]
#[verifier::rlimit(60)]
proof fn word_trailing_is_grouped(v: Text, d: Text)
    ensures
        "("@ + v + " == 0 ? "@ + d + " : __rustc_ctz32((uint32_t)"@ + v + "))"@ == "("@ + ((v
            + " == "@ + "0"@) + " ? "@ + d + " : "@ + ("__rustc_ctz32"@ + "("@ + ("("@ + "uint32_t"@
            + ")"@ + v) + ")"@)) + ")"@,
{
    reveal_strlit("(");
    reveal_strlit(" == 0 ? ");
    reveal_strlit(" : __rustc_ctz32((uint32_t)");
    reveal_strlit("))");
    reveal_strlit(" == ");
    reveal_strlit("0");
    reveal_strlit(" ? ");
    reveal_strlit(" : ");
    reveal_strlit("__rustc_ctz32");
    reveal_strlit("uint32_t");
    reveal_strlit(")");
    assert("("@ + v + " == 0 ? "@ + d + " : __rustc_ctz32((uint32_t)"@ + v + "))"@ =~= "("@ + ((v
        + " == "@ + "0"@) + " ? "@ + d + " : "@ + ("__rustc_ctz32"@ + "("@ + ("("@ + "uint32_t"@
        + ")"@ + v) + ")"@)) + ")"@);
}

proof fn word_trailing_is_written(v: Text, d: Text)
    ensures
        "("@ + v + " == 0 ? "@ + d + " : __rustc_ctz32((uint32_t)"@ + v + "))"@
            == plain_text(Expr::paren(Expr::ternary(Expr::binop(Expr::Var(v), CBinOp::Eq,
            Expr::Lit("0"@)), Expr::Lit(d), Expr::call("__rustc_ctz32"@, seq![Expr::cast("uint32_t"@,
            Expr::Var(v))])))),
{
    word_trailing_is_grouped(v, d);
    assert(plain_text(Expr::Var(v)) == v);
    assert(plain_text(Expr::Lit("0"@)) == "0"@);
    assert(plain_text(Expr::Lit(d)) == d);
    let e1 = Expr::binop(Expr::Var(v), CBinOp::Eq, Expr::Lit("0"@));
    assert(plain_text(e1) == v + " == "@ + "0"@);
    let e2 = Expr::cast("uint32_t"@, Expr::Var(v));
    assert(plain_text(e2) == "("@ + "uint32_t"@ + ")"@ + v);
    assert(plain_text(Expr::Var("__rustc_ctz32"@)) == "__rustc_ctz32"@);
    let e3 = Expr::call("__rustc_ctz32"@, seq![e2]);
    assert(plain_text(e3) == "__rustc_ctz32"@ + "("@ + ("("@ + "uint32_t"@ + ")"@ + v) + ")"@);
    let e4 = Expr::ternary(e1, Expr::Lit(d), e3);
    assert(plain_text(e4) == (v + " == "@ + "0"@) + " ? "@ + d + " : "@ + ("__rustc_ctz32"@ + "("@
        + ("("@ + "uint32_t"@ + ")"@ + v) + ")"@));
    let e5 = Expr::paren(e4);
    assert(plain_text(e5) == "("@ + ((v + " == "@ + "0"@) + " ? "@ + d + " : "@ + ("__rustc_ctz32"@
        + "("@ + ("("@ + "uint32_t"@ + ")"@ + v) + ")"@)) + ")"@);
}

#[verifier::spinoff_prover]
#[verifier::rlimit(60)]
proof fn long_trailing_is_grouped(v: Text, d: Text)
    ensures
        "("@ + v + " == 0 ? "@ + d + " : __rustc_ctz64((uint64_t)"@ + v + "))"@ == "("@ + ((v
            + " == "@ + "0"@) + " ? "@ + d + " : "@ + ("__rustc_ctz64"@ + "("@ + ("("@ + "uint64_t"@
            + ")"@ + v) + ")"@)) + ")"@,
{
    reveal_strlit("(");
    reveal_strlit(" == 0 ? ");
    reveal_strlit(" : __rustc_ctz64((uint64_t)");
    reveal_strlit("))");
    reveal_strlit(" == ");
    reveal_strlit("0");
    reveal_strlit(" ? ");
    reveal_strlit(" : ");
    reveal_strlit("__rustc_ctz64");
    reveal_strlit("uint64_t");
    reveal_strlit(")");
    assert("("@ + v + " == 0 ? "@ + d + " : __rustc_ctz64((uint64_t)"@ + v + "))"@ =~= "("@ + ((v
        + " == "@ + "0"@) + " ? "@ + d + " : "@ + ("__rustc_ctz64"@ + "("@ + ("("@ + "uint64_t"@
        + ")"@ + v) + ")"@)) + ")"@);
}

proof fn long_trailing_is_written(v: Text, d: Text)
    ensures
        "("@ + v + " == 0 ? "@ + d + " : __rustc_ctz64((uint64_t)"@ + v + "))"@
            == plain_text(Expr::paren(Expr::ternary(Expr::binop(Expr::Var(v), CBinOp::Eq,
            Expr::Lit("0"@)), Expr::Lit(d), Expr::call("__rustc_ctz64"@, seq![Expr::cast("uint64_t"@,
            Expr::Var(v))])))),
{
    long_trailing_is_grouped(v, d);
    assert(plain_text(Expr::Var(v)) == v);
    assert(plain_text(Expr::Lit("0"@)) == "0"@);
    assert(plain_text(Expr::Lit(d)) == d);
    let e1 = Expr::binop(Expr::Var(v), CBinOp::Eq, Expr::Lit("0"@));
    assert(plain_text(e1) == v + " == "@ + "0"@);
    let e2 = Expr::cast("uint64_t"@, Expr::Var(v));
    assert(plain_text(e2) == "("@ + "uint64_t"@ + ")"@ + v);
    assert(plain_text(Expr::Var("__rustc_ctz64"@)) == "__rustc_ctz64"@);
    let e3 = Expr::call("__rustc_ctz64"@, seq![e2]);
    assert(plain_text(e3) == "__rustc_ctz64"@ + "("@ + ("("@ + "uint64_t"@ + ")"@ + v) + ")"@);
    let e4 = Expr::ternary(e1, Expr::Lit(d), e3);
    assert(plain_text(e4) == (v + " == "@ + "0"@) + " ? "@ + d + " : "@ + ("__rustc_ctz64"@ + "("@
        + ("("@ + "uint64_t"@ + ")"@ + v) + ")"@));
    let e5 = Expr::paren(e4);
    assert(plain_text(e5) == "("@ + ((v + " == "@ + "0"@) + " ? "@ + d + " : "@ + ("__rustc_ctz64"@
        + "("@ + ("("@ + "uint64_t"@ + ")"@ + v) + ")"@)) + ")"@);
}

#[verifier::spinoff_prover]
#[verifier::rlimit(60)]
proof fn small_ones_is_grouped(v: Text, k: Text)
    ensures
        "__rustc_popcount32((uint32_t)("@ + v + ") & "@ + k + "U)"@ == "__rustc_popcount32"@ + "("@
            + (("("@ + "uint32_t"@ + ")"@ + ("("@ + v + ")"@)) + " & "@ + (k + "U"@)) + ")"@,
{
    reveal_strlit("__rustc_popcount32((uint32_t)(");
    reveal_strlit(") & ");
    reveal_strlit("U)");
    reveal_strlit("__rustc_popcount32");
    reveal_strlit("(");
    reveal_strlit("uint32_t");
    reveal_strlit(")");
    reveal_strlit(" & ");
    reveal_strlit("U");
    assert("__rustc_popcount32((uint32_t)("@ + v + ") & "@ + k + "U)"@ =~= "__rustc_popcount32"@
        + "("@ + (("("@ + "uint32_t"@ + ")"@ + ("("@ + v + ")"@)) + " & "@ + (k + "U"@)) + ")"@);
}

proof fn small_ones_is_written(v: Text, k: Text)
    ensures
        "__rustc_popcount32((uint32_t)("@ + v + ") & "@ + k + "U)"@
            == plain_text(Expr::call("__rustc_popcount32"@, seq![Expr::binop(Expr::cast("uint32_t"@,
            Expr::paren(Expr::Var(v))), CBinOp::BitAnd, Expr::Lit((k + "U"@)))])),
{
    small_ones_is_grouped(v, k);
    assert(plain_text(Expr::Var(v)) == v);
    assert(plain_text(Expr::Lit((k + "U"@))) == (k + "U"@));
    let e1 = Expr::paren(Expr::Var(v));
    assert(plain_text(e1) == "("@ + v + ")"@);
    let e2 = Expr::cast("uint32_t"@, e1);
    assert(plain_text(e2) == "("@ + "uint32_t"@ + ")"@ + ("("@ + v + ")"@));
    let e3 = Expr::binop(e2, CBinOp::BitAnd, Expr::Lit((k + "U"@)));
    assert(plain_text(e3) == ("("@ + "uint32_t"@ + ")"@ + ("("@ + v + ")"@)) + " & "@ + (k + "U"@));
    assert(plain_text(Expr::Var("__rustc_popcount32"@)) == "__rustc_popcount32"@);
    let e4 = Expr::call("__rustc_popcount32"@, seq![e3]);
    assert(plain_text(e4) == "__rustc_popcount32"@ + "("@ + (("("@ + "uint32_t"@ + ")"@ + ("("@ + v
        + ")"@)) + " & "@ + (k + "U"@)) + ")"@);
}

#[verifier::spinoff_prover]
#[verifier::rlimit(60)]
proof fn word_ones_is_grouped(v: Text)
    ensures
        "__rustc_popcount32((uint32_t)"@ + v + ")"@ == "__rustc_popcount32"@ + "("@ + ("("@
            + "uint32_t"@ + ")"@ + v) + ")"@,
{
    reveal_strlit("__rustc_popcount32((uint32_t)");
    reveal_strlit(")");
    reveal_strlit("__rustc_popcount32");
    reveal_strlit("(");
    reveal_strlit("uint32_t");
    assert("__rustc_popcount32((uint32_t)"@ + v + ")"@ =~= "__rustc_popcount32"@ + "("@ + ("("@
        + "uint32_t"@ + ")"@ + v) + ")"@);
}

proof fn word_ones_is_written(v: Text)
    ensures
        "__rustc_popcount32((uint32_t)"@ + v + ")"@ == plain_text(Expr::call("__rustc_popcount32"@,
            seq![Expr::cast("uint32_t"@, Expr::Var(v))])),
{
    word_ones_is_grouped(v);
    assert(plain_text(Expr::Var(v)) == v);
    let e1 = Expr::cast("uint32_t"@, Expr::Var(v));
    assert(plain_text(e1) == "("@ + "uint32_t"@ + ")"@ + v);
    assert(plain_text(Expr::Var("__rustc_popcount32"@)) == "__rustc_popcount32"@);
    let e2 = Expr::call("__rustc_popcount32"@, seq![e1]);
    assert(plain_text(e2) == "__rustc_popcount32"@ + "("@ + ("("@ + "uint32_t"@ + ")"@ + v) + ")"@);
}

#[verifier::spinoff_prover]
#[verifier::rlimit(60)]
proof fn long_ones_is_grouped(v: Text)
    ensures
        "__rustc_popcount64((uint64_t)"@ + v + ")"@ == "__rustc_popcount64"@ + "("@ + ("("@
            + "uint64_t"@ + ")"@ + v) + ")"@,
{
    reveal_strlit("__rustc_popcount64((uint64_t)");
    reveal_strlit(")");
    reveal_strlit("__rustc_popcount64");
    reveal_strlit("(");
    reveal_strlit("uint64_t");
    assert("__rustc_popcount64((uint64_t)"@ + v + ")"@ =~= "__rustc_popcount64"@ + "("@ + ("("@
        + "uint64_t"@ + ")"@ + v) + ")"@);
}

proof fn long_ones_is_written(v: Text)
    ensures
        "__rustc_popcount64((uint64_t)"@ + v + ")"@ == plain_text(Expr::call("__rustc_popcount64"@,
            seq![Expr::cast("uint64_t"@, Expr::Var(v))])),
{
    long_ones_is_grouped(v);
    assert(plain_text(Expr::Var(v)) == v);
    let e1 = Expr::cast("uint64_t"@, Expr::Var(v));
    assert(plain_text(e1) == "("@ + "uint64_t"@ + ")"@ + v);
    assert(plain_text(Expr::Var("__rustc_popcount64"@)) == "__rustc_popcount64"@);
    let e2 = Expr::call("__rustc_popcount64"@, seq![e1]);
    assert(plain_text(e2) == "__rustc_popcount64"@ + "("@ + ("("@ + "uint64_t"@ + ")"@ + v) + ")"@);
}

#[verifier::spinoff_prover]
#[verifier::rlimit(60)]
proof fn high_half_is_grouped(v: Text)
    ensures
        "(uint64_t)((uint128_t)("@ + v + ") >> 64)"@ == "("@ + "uint64_t"@ + ")"@ + ("("@ + (("("@
            + "uint128_t"@ + ")"@ + ("("@ + v + ")"@)) + " >> "@ + "64"@) + ")"@),
{
    reveal_strlit("(uint64_t)((uint128_t)(");
    reveal_strlit(") >> 64)");
    reveal_strlit("(");
    reveal_strlit("uint64_t");
    reveal_strlit(")");
    reveal_strlit("uint128_t");
    reveal_strlit(" >> ");
    reveal_strlit("64");
    assert("(uint64_t)((uint128_t)("@ + v + ") >> 64)"@ =~= "("@ + "uint64_t"@ + ")"@ + ("("@
        + (("("@ + "uint128_t"@ + ")"@ + ("("@ + v + ")"@)) + " >> "@ + "64"@) + ")"@));
}

proof fn high_half_is_written(v: Text)
    ensures
        "(uint64_t)((uint128_t)("@ + v + ") >> 64)"@ == plain_text(Expr::cast("uint64_t"@,
            Expr::paren(Expr::binop(Expr::cast("uint128_t"@, Expr::paren(Expr::Var(v))), CBinOp::Shr,
            Expr::Lit("64"@))))),
{
    high_half_is_grouped(v);
    assert(plain_text(Expr::Var(v)) == v);
    assert(plain_text(Expr::Lit("64"@)) == "64"@);
    let e1 = Expr::paren(Expr::Var(v));
    assert(plain_text(e1) == "("@ + v + ")"@);
    let e2 = Expr::cast("uint128_t"@, e1);
    assert(plain_text(e2) == "("@ + "uint128_t"@ + ")"@ + ("("@ + v + ")"@));
    let e3 = Expr::binop(e2, CBinOp::Shr, Expr::Lit("64"@));
    assert(plain_text(e3) == ("("@ + "uint128_t"@ + ")"@ + ("("@ + v + ")"@)) + " >> "@ + "64"@);
    let e4 = Expr::paren(e3);
    assert(plain_text(e4) == "("@ + (("("@ + "uint128_t"@ + ")"@ + ("("@ + v + ")"@)) + " >> "@
        + "64"@) + ")"@);
    let e5 = Expr::cast("uint64_t"@, e4);
    assert(plain_text(e5) == "("@ + "uint64_t"@ + ")"@ + ("("@ + (("("@ + "uint128_t"@ + ")"@
        + ("("@ + v + ")"@)) + " >> "@ + "64"@) + ")"@));
}

#[verifier::spinoff_prover]
#[verifier::rlimit(60)]
proof fn low_half_is_grouped(v: Text)
    ensures
        "(uint64_t)("@ + v + ")"@ == "("@ + "uint64_t"@ + ")"@ + ("("@ + v + ")"@),
{
    reveal_strlit("(uint64_t)(");
    reveal_strlit(")");
    reveal_strlit("(");
    reveal_strlit("uint64_t");
    assert("(uint64_t)("@ + v + ")"@ =~= "("@ + "uint64_t"@ + ")"@ + ("("@ + v + ")"@));
}

proof fn low_half_is_written(v: Text)
    ensures
        "(uint64_t)("@ + v + ")"@ == plain_text(Expr::cast("uint64_t"@, Expr::paren(Expr::Var(v)))),
{
    low_half_is_grouped(v);
    assert(plain_text(Expr::Var(v)) == v);
    let e1 = Expr::paren(Expr::Var(v));
    assert(plain_text(e1) == "("@ + v + ")"@);
    let e2 = Expr::cast("uint64_t"@, e1);
    assert(plain_text(e2) == "("@ + "uint64_t"@ + ")"@ + ("("@ + v + ")"@));
}

#[verifier::spinoff_prover]
#[verifier::rlimit(60)]
proof fn wide_leading_is_grouped(h: Text, l: Text)
    ensures
        "("@ + h + " != 0 ? __rustc_clz64("@ + h + ") : 64 + ("@ + l
            + " == 0 ? 64 : __rustc_clz64("@ + l + ")))"@ == "("@ + ((h + " != "@ + "0"@) + " ? "@
            + ("__rustc_clz64"@ + "("@ + h + ")"@) + " : "@ + ("64"@ + " + "@ + ("("@ + ((l
            + " == "@ + "0"@) + " ? "@ + "64"@ + " : "@ + ("__rustc_clz64"@ + "("@ + l + ")"@))
            + ")"@))) + ")"@,
{
    reveal_strlit("(");
    reveal_strlit(" != 0 ? __rustc_clz64(");
    reveal_strlit(") : 64 + (");
    reveal_strlit(" == 0 ? 64 : __rustc_clz64(");
    reveal_strlit(")))");
    reveal_strlit(" != ");
    reveal_strlit("0");
    reveal_strlit(" ? ");
    reveal_strlit("__rustc_clz64");
    reveal_strlit(")");
    reveal_strlit(" : ");
    reveal_strlit("64");
    reveal_strlit(" + ");
    reveal_strlit(" == ");
    assert("("@ + h + " != 0 ? __rustc_clz64("@ + h + ") : 64 + ("@ + l
        + " == 0 ? 64 : __rustc_clz64("@ + l + ")))"@ =~= "("@ + ((h + " != "@ + "0"@) + " ? "@
        + ("__rustc_clz64"@ + "("@ + h + ")"@) + " : "@ + ("64"@ + " + "@ + ("("@ + ((l + " == "@
        + "0"@) + " ? "@ + "64"@ + " : "@ + ("__rustc_clz64"@ + "("@ + l + ")"@)) + ")"@))) + ")"@);
}

#[verifier::spinoff_prover]
#[verifier::rlimit(60)]
proof fn wide_leading_has_halves(v: Text)
    ensures
        "((uint64_t)((uint128_t)("@ + v + ") >> 64) != 0 ? __rustc_clz64((uint64_t)((uint128_t)("@
            + v + ") >> 64)) : 64 + ((uint64_t)("@ + v + ") == 0 ? 64 : __rustc_clz64((uint64_t)("@
            + v + "))))"@ == "("@ + ("(uint64_t)((uint128_t)("@ + v + ") >> 64)"@)
            + " != 0 ? __rustc_clz64("@ + ("(uint64_t)((uint128_t)("@ + v + ") >> 64)"@)
            + ") : 64 + ("@ + ("(uint64_t)("@ + v + ")"@) + " == 0 ? 64 : __rustc_clz64("@
            + ("(uint64_t)("@ + v + ")"@) + ")))"@,
{
    reveal_strlit("((uint64_t)((uint128_t)(");
    reveal_strlit(") >> 64) != 0 ? __rustc_clz64((uint64_t)((uint128_t)(");
    reveal_strlit(") >> 64)) : 64 + ((uint64_t)(");
    reveal_strlit(") == 0 ? 64 : __rustc_clz64((uint64_t)(");
    reveal_strlit("))))");
    reveal_strlit("(");
    reveal_strlit("(uint64_t)((uint128_t)(");
    reveal_strlit(") >> 64)");
    reveal_strlit(" != 0 ? __rustc_clz64(");
    reveal_strlit(") : 64 + (");
    reveal_strlit("(uint64_t)(");
    reveal_strlit(")");
    reveal_strlit(" == 0 ? 64 : __rustc_clz64(");
    reveal_strlit(")))");
    assert("((uint64_t)((uint128_t)("@ + v
        + ") >> 64) != 0 ? __rustc_clz64((uint64_t)((uint128_t)("@ + v
        + ") >> 64)) : 64 + ((uint64_t)("@ + v + ") == 0 ? 64 : __rustc_clz64((uint64_t)("@ + v
        + "))))"@ =~= "("@ + ("(uint64_t)((uint128_t)("@ + v + ") >> 64)"@)
        + " != 0 ? __rustc_clz64("@ + ("(uint64_t)((uint128_t)("@ + v + ") >> 64)"@) + ") : 64 + ("@
        + ("(uint64_t)("@ + v + ")"@) + " == 0 ? 64 : __rustc_clz64("@ + ("(uint64_t)("@ + v + ")"@)
        + ")))"@);
}

proof fn wide_leading_is_written(v: Text)
    ensures
        "((uint64_t)((uint128_t)("@ + v + ") >> 64) != 0 ? __rustc_clz64((uint64_t)((uint128_t)("@
            + v + ") >> 64)) : 64 + ((uint64_t)("@ + v + ") == 0 ? 64 : __rustc_clz64((uint64_t)("@
            + v + "))))"@ == plain_text(Expr::paren(Expr::ternary(Expr::binop(high_half(v),
            CBinOp::Ne, Expr::Lit("0"@)), Expr::call("__rustc_clz64"@, seq![high_half(v)]),
            Expr::binop(Expr::Lit("64"@), CBinOp::Add,
            Expr::paren(Expr::ternary(Expr::binop(low_half(v), CBinOp::Eq, Expr::Lit("0"@)),
            Expr::Lit("64"@), Expr::call("__rustc_clz64"@, seq![low_half(v)]))))))),
{
    high_half_is_written(v);
    low_half_is_written(v);
    wide_leading_has_halves(v);
    let (h, l) = (plain_text(high_half(v)), plain_text(low_half(v)));
    wide_leading_is_grouped(h, l);
    assert(plain_text(Expr::Lit("0"@)) == "0"@);
    let e1 = Expr::binop(high_half(v), CBinOp::Ne, Expr::Lit("0"@));
    assert(plain_text(e1) == h + " != "@ + "0"@);
    assert(plain_text(Expr::Var("__rustc_clz64"@)) == "__rustc_clz64"@);
    let e2 = Expr::call("__rustc_clz64"@, seq![high_half(v)]);
    assert(plain_text(e2) == "__rustc_clz64"@ + "("@ + h + ")"@);
    assert(plain_text(Expr::Lit("64"@)) == "64"@);
    assert(plain_text(Expr::Lit("0"@)) == "0"@);
    let e3 = Expr::binop(low_half(v), CBinOp::Eq, Expr::Lit("0"@));
    assert(plain_text(e3) == l + " == "@ + "0"@);
    assert(plain_text(Expr::Lit("64"@)) == "64"@);
    assert(plain_text(Expr::Var("__rustc_clz64"@)) == "__rustc_clz64"@);
    let e4 = Expr::call("__rustc_clz64"@, seq![low_half(v)]);
    assert(plain_text(e4) == "__rustc_clz64"@ + "("@ + l + ")"@);
    let e5 = Expr::ternary(e3, Expr::Lit("64"@), e4);
    assert(plain_text(e5) == (l + " == "@ + "0"@) + " ? "@ + "64"@ + " : "@ + ("__rustc_clz64"@
        + "("@ + l + ")"@));
    let e6 = Expr::paren(e5);
    assert(plain_text(e6) == "("@ + ((l + " == "@ + "0"@) + " ? "@ + "64"@ + " : "@
        + ("__rustc_clz64"@ + "("@ + l + ")"@)) + ")"@);
    let e7 = Expr::binop(Expr::Lit("64"@), CBinOp::Add, e6);
    assert(plain_text(e7) == "64"@ + " + "@ + ("("@ + ((l + " == "@ + "0"@) + " ? "@ + "64"@
        + " : "@ + ("__rustc_clz64"@ + "("@ + l + ")"@)) + ")"@));
    let e8 = Expr::ternary(e1, e2, e7);
    assert(plain_text(e8) == (h + " != "@ + "0"@) + " ? "@ + ("__rustc_clz64"@ + "("@ + h + ")"@)
        + " : "@ + ("64"@ + " + "@ + ("("@ + ((l + " == "@ + "0"@) + " ? "@ + "64"@ + " : "@
        + ("__rustc_clz64"@ + "("@ + l + ")"@)) + ")"@)));
    let e9 = Expr::paren(e8);
    assert(plain_text(e9) == "("@ + ((h + " != "@ + "0"@) + " ? "@ + ("__rustc_clz64"@ + "("@ + h
        + ")"@) + " : "@ + ("64"@ + " + "@ + ("("@ + ((l + " == "@ + "0"@) + " ? "@ + "64"@ + " : "@
        + ("__rustc_clz64"@ + "("@ + l + ")"@)) + ")"@))) + ")"@);
}

#[verifier::spinoff_prover]
#[verifier::rlimit(60)]
proof fn wide_trailing_is_grouped(h: Text, l: Text)
    ensures
        "("@ + l + " != 0 ? __rustc_ctz64("@ + l + ") : 64 + ("@ + h
            + " == 0 ? 64 : __rustc_ctz64("@ + h + ")))"@ == "("@ + ((l + " != "@ + "0"@) + " ? "@
            + ("__rustc_ctz64"@ + "("@ + l + ")"@) + " : "@ + ("64"@ + " + "@ + ("("@ + ((h
            + " == "@ + "0"@) + " ? "@ + "64"@ + " : "@ + ("__rustc_ctz64"@ + "("@ + h + ")"@))
            + ")"@))) + ")"@,
{
    reveal_strlit("(");
    reveal_strlit(" != 0 ? __rustc_ctz64(");
    reveal_strlit(") : 64 + (");
    reveal_strlit(" == 0 ? 64 : __rustc_ctz64(");
    reveal_strlit(")))");
    reveal_strlit(" != ");
    reveal_strlit("0");
    reveal_strlit(" ? ");
    reveal_strlit("__rustc_ctz64");
    reveal_strlit(")");
    reveal_strlit(" : ");
    reveal_strlit("64");
    reveal_strlit(" + ");
    reveal_strlit(" == ");
    assert("("@ + l + " != 0 ? __rustc_ctz64("@ + l + ") : 64 + ("@ + h
        + " == 0 ? 64 : __rustc_ctz64("@ + h + ")))"@ =~= "("@ + ((l + " != "@ + "0"@) + " ? "@
        + ("__rustc_ctz64"@ + "("@ + l + ")"@) + " : "@ + ("64"@ + " + "@ + ("("@ + ((h + " == "@
        + "0"@) + " ? "@ + "64"@ + " : "@ + ("__rustc_ctz64"@ + "("@ + h + ")"@)) + ")"@))) + ")"@);
}

#[verifier::spinoff_prover]
#[verifier::rlimit(60)]
proof fn wide_trailing_has_halves(v: Text)
    ensures
        "((uint64_t)("@ + v + ") != 0 ? __rustc_ctz64((uint64_t)("@ + v
            + ")) : 64 + ((uint64_t)((uint128_t)("@ + v
            + ") >> 64) == 0 ? 64 : __rustc_ctz64((uint64_t)((uint128_t)("@ + v + ") >> 64))))"@
            == "("@ + ("(uint64_t)("@ + v + ")"@) + " != 0 ? __rustc_ctz64("@ + ("(uint64_t)("@ + v
            + ")"@) + ") : 64 + ("@ + ("(uint64_t)((uint128_t)("@ + v + ") >> 64)"@)
            + " == 0 ? 64 : __rustc_ctz64("@ + ("(uint64_t)((uint128_t)("@ + v + ") >> 64)"@)
            + ")))"@,
{
    reveal_strlit("((uint64_t)(");
    reveal_strlit(") != 0 ? __rustc_ctz64((uint64_t)(");
    reveal_strlit(")) : 64 + ((uint64_t)((uint128_t)(");
    reveal_strlit(") >> 64) == 0 ? 64 : __rustc_ctz64((uint64_t)((uint128_t)(");
    reveal_strlit(") >> 64))))");
    reveal_strlit("(");
    reveal_strlit("(uint64_t)(");
    reveal_strlit(")");
    reveal_strlit(" != 0 ? __rustc_ctz64(");
    reveal_strlit(") : 64 + (");
    reveal_strlit("(uint64_t)((uint128_t)(");
    reveal_strlit(") >> 64)");
    reveal_strlit(" == 0 ? 64 : __rustc_ctz64(");
    reveal_strlit(")))");
    assert("((uint64_t)("@ + v + ") != 0 ? __rustc_ctz64((uint64_t)("@ + v
        + ")) : 64 + ((uint64_t)((uint128_t)("@ + v
        + ") >> 64) == 0 ? 64 : __rustc_ctz64((uint64_t)((uint128_t)("@ + v + ") >> 64))))"@
        =~= "("@ + ("(uint64_t)("@ + v + ")"@) + " != 0 ? __rustc_ctz64("@ + ("(uint64_t)("@ + v
        + ")"@) + ") : 64 + ("@ + ("(uint64_t)((uint128_t)("@ + v + ") >> 64)"@)
        + " == 0 ? 64 : __rustc_ctz64("@ + ("(uint64_t)((uint128_t)("@ + v + ") >> 64)"@) + ")))"@);
}

proof fn wide_trailing_is_written(v: Text)
    ensures
        "((uint64_t)("@ + v + ") != 0 ? __rustc_ctz64((uint64_t)("@ + v
            + ")) : 64 + ((uint64_t)((uint128_t)("@ + v
            + ") >> 64) == 0 ? 64 : __rustc_ctz64((uint64_t)((uint128_t)("@ + v + ") >> 64))))"@
            == plain_text(Expr::paren(Expr::ternary(Expr::binop(low_half(v), CBinOp::Ne,
            Expr::Lit("0"@)), Expr::call("__rustc_ctz64"@, seq![low_half(v)]),
            Expr::binop(Expr::Lit("64"@), CBinOp::Add,
            Expr::paren(Expr::ternary(Expr::binop(high_half(v), CBinOp::Eq, Expr::Lit("0"@)),
            Expr::Lit("64"@), Expr::call("__rustc_ctz64"@, seq![high_half(v)]))))))),
{
    high_half_is_written(v);
    low_half_is_written(v);
    wide_trailing_has_halves(v);
    let (h, l) = (plain_text(high_half(v)), plain_text(low_half(v)));
    wide_trailing_is_grouped(h, l);
    assert(plain_text(Expr::Lit("0"@)) == "0"@);
    let e1 = Expr::binop(low_half(v), CBinOp::Ne, Expr::Lit("0"@));
    assert(plain_text(e1) == l + " != "@ + "0"@);
    assert(plain_text(Expr::Var("__rustc_ctz64"@)) == "__rustc_ctz64"@);
    let e2 = Expr::call("__rustc_ctz64"@, seq![low_half(v)]);
    assert(plain_text(e2) == "__rustc_ctz64"@ + "("@ + l + ")"@);
    assert(plain_text(Expr::Lit("64"@)) == "64"@);
    assert(plain_text(Expr::Lit("0"@)) == "0"@);
    let e3 = Expr::binop(high_half(v), CBinOp::Eq, Expr::Lit("0"@));
    assert(plain_text(e3) == h + " == "@ + "0"@);
    assert(plain_text(Expr::Lit("64"@)) == "64"@);
    assert(plain_text(Expr::Var("__rustc_ctz64"@)) == "__rustc_ctz64"@);
    let e4 = Expr::call("__rustc_ctz64"@, seq![high_half(v)]);
    assert(plain_text(e4) == "__rustc_ctz64"@ + "("@ + h + ")"@);
    let e5 = Expr::ternary(e3, Expr::Lit("64"@), e4);
    assert(plain_text(e5) == (h + " == "@ + "0"@) + " ? "@ + "64"@ + " : "@ + ("__rustc_ctz64"@
        + "("@ + h + ")"@));
    let e6 = Expr::paren(e5);
    assert(plain_text(e6) == "("@ + ((h + " == "@ + "0"@) + " ? "@ + "64"@ + " : "@
        + ("__rustc_ctz64"@ + "("@ + h + ")"@)) + ")"@);
    let e7 = Expr::binop(Expr::Lit("64"@), CBinOp::Add, e6);
    assert(plain_text(e7) == "64"@ + " + "@ + ("("@ + ((h + " == "@ + "0"@) + " ? "@ + "64"@
        + " : "@ + ("__rustc_ctz64"@ + "("@ + h + ")"@)) + ")"@));
    let e8 = Expr::ternary(e1, e2, e7);
    assert(plain_text(e8) == (l + " != "@ + "0"@) + " ? "@ + ("__rustc_ctz64"@ + "("@ + l + ")"@)
        + " : "@ + ("64"@ + " + "@ + ("("@ + ((h + " == "@ + "0"@) + " ? "@ + "64"@ + " : "@
        + ("__rustc_ctz64"@ + "("@ + h + ")"@)) + ")"@)));
    let e9 = Expr::paren(e8);
    assert(plain_text(e9) == "("@ + ((l + " != "@ + "0"@) + " ? "@ + ("__rustc_ctz64"@ + "("@ + l
        + ")"@) + " : "@ + ("64"@ + " + "@ + ("("@ + ((h + " == "@ + "0"@) + " ? "@ + "64"@ + " : "@
        + ("__rustc_ctz64"@ + "("@ + h + ")"@)) + ")"@))) + ")"@);
}

#[verifier::spinoff_prover]
#[verifier::rlimit(60)]
proof fn wide_ones_is_grouped(h: Text, l: Text)
    ensures
        "(__rustc_popcount64("@ + l + ") + __rustc_popcount64("@ + h + "))"@ == "("@
            + (("__rustc_popcount64"@ + "("@ + l + ")"@) + " + "@ + ("__rustc_popcount64"@ + "("@
            + h + ")"@)) + ")"@,
{
    reveal_strlit("(__rustc_popcount64(");
    reveal_strlit(") + __rustc_popcount64(");
    reveal_strlit("))");
    reveal_strlit("(");
    reveal_strlit("__rustc_popcount64");
    reveal_strlit(")");
    reveal_strlit(" + ");
    assert("(__rustc_popcount64("@ + l + ") + __rustc_popcount64("@ + h + "))"@ =~= "("@
        + (("__rustc_popcount64"@ + "("@ + l + ")"@) + " + "@ + ("__rustc_popcount64"@ + "("@ + h
        + ")"@)) + ")"@);
}

#[verifier::spinoff_prover]
#[verifier::rlimit(60)]
proof fn wide_ones_has_halves(v: Text)
    ensures
        "(__rustc_popcount64((uint64_t)("@ + v + ")) + __rustc_popcount64((uint64_t)((uint128_t)("@
            + v + ") >> 64)))"@ == "(__rustc_popcount64("@ + ("(uint64_t)("@ + v + ")"@)
            + ") + __rustc_popcount64("@ + ("(uint64_t)((uint128_t)("@ + v + ") >> 64)"@) + "))"@,
{
    reveal_strlit("(__rustc_popcount64((uint64_t)(");
    reveal_strlit(")) + __rustc_popcount64((uint64_t)((uint128_t)(");
    reveal_strlit(") >> 64)))");
    reveal_strlit("(__rustc_popcount64(");
    reveal_strlit("(uint64_t)(");
    reveal_strlit(")");
    reveal_strlit(") + __rustc_popcount64(");
    reveal_strlit("(uint64_t)((uint128_t)(");
    reveal_strlit(") >> 64)");
    reveal_strlit("))");
    assert("(__rustc_popcount64((uint64_t)("@ + v
        + ")) + __rustc_popcount64((uint64_t)((uint128_t)("@ + v + ") >> 64)))"@
        =~= "(__rustc_popcount64("@ + ("(uint64_t)("@ + v + ")"@) + ") + __rustc_popcount64("@
        + ("(uint64_t)((uint128_t)("@ + v + ") >> 64)"@) + "))"@);
}

proof fn wide_ones_is_written(v: Text)
    ensures
        "(__rustc_popcount64((uint64_t)("@ + v + ")) + __rustc_popcount64((uint64_t)((uint128_t)("@
            + v + ") >> 64)))"@
            == plain_text(Expr::paren(Expr::binop(Expr::call("__rustc_popcount64"@,
            seq![low_half(v)]), CBinOp::Add, Expr::call("__rustc_popcount64"@,
            seq![high_half(v)])))),
{
    high_half_is_written(v);
    low_half_is_written(v);
    wide_ones_has_halves(v);
    let (h, l) = (plain_text(high_half(v)), plain_text(low_half(v)));
    wide_ones_is_grouped(h, l);
    assert(plain_text(Expr::Var("__rustc_popcount64"@)) == "__rustc_popcount64"@);
    let e1 = Expr::call("__rustc_popcount64"@, seq![low_half(v)]);
    assert(plain_text(e1) == "__rustc_popcount64"@ + "("@ + l + ")"@);
    assert(plain_text(Expr::Var("__rustc_popcount64"@)) == "__rustc_popcount64"@);
    let e2 = Expr::call("__rustc_popcount64"@, seq![high_half(v)]);
    assert(plain_text(e2) == "__rustc_popcount64"@ + "("@ + h + ")"@);
    let e3 = Expr::binop(e1, CBinOp::Add, e2);
    assert(plain_text(e3) == ("__rustc_popcount64"@ + "("@ + l + ")"@) + " + "@
        + ("__rustc_popcount64"@ + "("@ + h + ")"@));
    let e4 = Expr::paren(e3);
    assert(plain_text(e4) == "("@ + (("__rustc_popcount64"@ + "("@ + l + ")"@) + " + "@
        + ("__rustc_popcount64"@ + "("@ + h + ")"@)) + ")"@);
}

#[verifier::spinoff_prover]
#[verifier::rlimit(60)]
proof fn wide_swap_is_grouped(h: Text, l: Text)
    ensures
        "((uint128_t)__rustc_bswap64("@ + l + ") << 64 | (uint128_t)__rustc_bswap64("@ + h + "))"@
            == "("@ + ((("("@ + "uint128_t"@ + ")"@ + ("__rustc_bswap64"@ + "("@ + l + ")"@))
            + " << "@ + "64"@) + " | "@ + ("("@ + "uint128_t"@ + ")"@ + ("__rustc_bswap64"@ + "("@
            + h + ")"@))) + ")"@,
{
    reveal_strlit("((uint128_t)__rustc_bswap64(");
    reveal_strlit(") << 64 | (uint128_t)__rustc_bswap64(");
    reveal_strlit("))");
    reveal_strlit("(");
    reveal_strlit("uint128_t");
    reveal_strlit(")");
    reveal_strlit("__rustc_bswap64");
    reveal_strlit(" << ");
    reveal_strlit("64");
    reveal_strlit(" | ");
    assert("((uint128_t)__rustc_bswap64("@ + l + ") << 64 | (uint128_t)__rustc_bswap64("@ + h
        + "))"@ =~= "("@ + ((("("@ + "uint128_t"@ + ")"@ + ("__rustc_bswap64"@ + "("@ + l + ")"@))
        + " << "@ + "64"@) + " | "@ + ("("@ + "uint128_t"@ + ")"@ + ("__rustc_bswap64"@ + "("@ + h
        + ")"@))) + ")"@);
}

#[verifier::spinoff_prover]
#[verifier::rlimit(60)]
proof fn wide_swap_has_halves(v: Text)
    ensures
        "((uint128_t)__rustc_bswap64((uint64_t)("@ + v
            + ")) << 64 | (uint128_t)__rustc_bswap64((uint64_t)((uint128_t)("@ + v + ") >> 64)))"@
            == "((uint128_t)__rustc_bswap64("@ + ("(uint64_t)("@ + v + ")"@)
            + ") << 64 | (uint128_t)__rustc_bswap64("@ + ("(uint64_t)((uint128_t)("@ + v
            + ") >> 64)"@) + "))"@,
{
    reveal_strlit("((uint128_t)__rustc_bswap64((uint64_t)(");
    reveal_strlit(")) << 64 | (uint128_t)__rustc_bswap64((uint64_t)((uint128_t)(");
    reveal_strlit(") >> 64)))");
    reveal_strlit("((uint128_t)__rustc_bswap64(");
    reveal_strlit("(uint64_t)(");
    reveal_strlit(")");
    reveal_strlit(") << 64 | (uint128_t)__rustc_bswap64(");
    reveal_strlit("(uint64_t)((uint128_t)(");
    reveal_strlit(") >> 64)");
    reveal_strlit("))");
    assert("((uint128_t)__rustc_bswap64((uint64_t)("@ + v
        + ")) << 64 | (uint128_t)__rustc_bswap64((uint64_t)((uint128_t)("@ + v + ") >> 64)))"@
        =~= "((uint128_t)__rustc_bswap64("@ + ("(uint64_t)("@ + v + ")"@)
        + ") << 64 | (uint128_t)__rustc_bswap64("@ + ("(uint64_t)((uint128_t)("@ + v + ") >> 64)"@)
        + "))"@);
}

proof fn wide_swap_is_written(v: Text)
    ensures
        "((uint128_t)__rustc_bswap64((uint64_t)("@ + v
            + ")) << 64 | (uint128_t)__rustc_bswap64((uint64_t)((uint128_t)("@ + v + ") >> 64)))"@
            == plain_text(Expr::paren(Expr::binop(Expr::binop(Expr::cast("uint128_t"@,
            Expr::call("__rustc_bswap64"@, seq![low_half(v)])), CBinOp::Shl, Expr::Lit("64"@)),
            CBinOp::BitOr, Expr::cast("uint128_t"@, Expr::call("__rustc_bswap64"@,
            seq![high_half(v)]))))),
{
    high_half_is_written(v);
    low_half_is_written(v);
    wide_swap_has_halves(v);
    let (h, l) = (plain_text(high_half(v)), plain_text(low_half(v)));
    wide_swap_is_grouped(h, l);
    assert(plain_text(Expr::Var("__rustc_bswap64"@)) == "__rustc_bswap64"@);
    let e1 = Expr::call("__rustc_bswap64"@, seq![low_half(v)]);
    assert(plain_text(e1) == "__rustc_bswap64"@ + "("@ + l + ")"@);
    let e2 = Expr::cast("uint128_t"@, e1);
    assert(plain_text(e2) == "("@ + "uint128_t"@ + ")"@ + ("__rustc_bswap64"@ + "("@ + l + ")"@));
    assert(plain_text(Expr::Lit("64"@)) == "64"@);
    let e3 = Expr::binop(e2, CBinOp::Shl, Expr::Lit("64"@));
    assert(plain_text(e3) == ("("@ + "uint128_t"@ + ")"@ + ("__rustc_bswap64"@ + "("@ + l + ")"@))
        + " << "@ + "64"@);
    assert(plain_text(Expr::Var("__rustc_bswap64"@)) == "__rustc_bswap64"@);
    let e4 = Expr::call("__rustc_bswap64"@, seq![high_half(v)]);
    assert(plain_text(e4) == "__rustc_bswap64"@ + "("@ + h + ")"@);
    let e5 = Expr::cast("uint128_t"@, e4);
    assert(plain_text(e5) == "("@ + "uint128_t"@ + ")"@ + ("__rustc_bswap64"@ + "("@ + h + ")"@));
    let e6 = Expr::binop(e3, CBinOp::BitOr, e5);
    assert(plain_text(e6) == (("("@ + "uint128_t"@ + ")"@ + ("__rustc_bswap64"@ + "("@ + l + ")"@))
        + " << "@ + "64"@) + " | "@ + ("("@ + "uint128_t"@ + ")"@ + ("__rustc_bswap64"@ + "("@ + h
        + ")"@)));
    let e7 = Expr::paren(e6);
    assert(plain_text(e7) == "("@ + ((("("@ + "uint128_t"@ + ")"@ + ("__rustc_bswap64"@ + "("@ + l
        + ")"@)) + " << "@ + "64"@) + " | "@ + ("("@ + "uint128_t"@ + ")"@ + ("__rustc_bswap64"@
        + "("@ + h + ")"@))) + ")"@);
}

// --- What is stored ---

proof fn rotation_is_written(left: bool, v: Text, s: Text, bits: u64, t: Text, ut: Text)
    ensures
        crate::bits::rotate_text(left, v, s, bits, t, ut) == plain_text(
            rotation(left, v, s, bits as nat, t, ut),
        ),
{
    if left {
        left_rotation_is_written(v, s, dec(bits as nat), t, ut);
    } else {
        right_rotation_is_written(v, s, dec(bits as nat), t, ut);
    }
}

/// A rotation is stored at the destination, at the type of the operand and with
/// shifts of its unsigned counterpart.
pub proof fn rotations_are_stored(b: Bx, left: bool, val: ValueRef, shift: ValueRef, dest: ValueRef)
    requires
        cx_ok(b.cx),
        b.at_block(),
        b.has(val),
        b.has(dest),
        b.width_of(val) is Some,
        assigned_whole(b.kind_of(val)),
        b.cx.values.len() < usize::MAX,
        b.cx.types.len() < usize::MAX,
    ensures
        ({
            let t = b.type_str(b.type_of(val));
            let (bits, signed) = b.width_of(val)->0;
            stores(
                b,
                b.codegen_rotate(left, val, shift, dest),
                t,
                Expr::Raw(
                    plain_text(
                        rotation(
                            left,
                            b.cx.text(val),
                            b.cx.text(shift),
                            bits,
                            t,
                            unsigned_word(b.kind_of(val)),
                        ),
                    ),
                ),
                dest,
            )
        }),
{
    let t = b.type_of(val);
    let (b1, ut) = b.unsigned_str(t);
    unsigned_word_is_used(b, val);
    let (v, s) = (b.cx.text(val), b.cx.text(shift));
    rotation_is_written(left, v, s, b.width(t), b.type_str(t), ut);
    let e = Expr::Raw(crate::bits::rotate_text(left, v, s, b.width(t), b.type_str(t), ut));
    expressions_are_stored(b1, t, e, dest);
}

/// The name of the unsigned integer type of the same width.
pub open spec fn unsigned_word(k: Kind) -> Text {
    match k {
        Kind::Int { bits, .. } => "uint"@ + dec(bits as nat) + "_t"@,
        _ => "__rustc_usize"@,
    }
}

proof fn unsigned_word_is_used(b: Bx, val: ValueRef)
    requires
        cx_ok(b.cx),
        b.has(val),
        b.width_of(val) is Some,
        b.cx.types.len() < usize::MAX,
    ensures
        ({
            let t = b.type_of(val);
            let (b1, ut) = b.unsigned_str(t);
            &&& ut == unsigned_word(b.kind_of(val))
            &&& b1.cx.values == b.cx.values
            &&& b1.type_str(t) == b.type_str(t)
            &&& b1.cx.kind(t) == b.cx.kind(t)
            &&& b1.at_block() == b.at_block()
            &&& b1.code() == b.code()
        }),
{
    let t = b.type_of(val);
    values_have_types(b.cx, val);
    match unsigned_kind(b.cx.kind(t)) {
        Some(k) => {
            interned_kind(b.cx, k);
        },
        None => {},
    }
}

// --- Funnel shifts ---

/// A funnel shift, of two values of `bits` bits, as an expression.
pub open spec fn funnel(left: bool, a: Text, b: Text, s: Text, bits: nat, t: Text,
    ut: Text) -> Expr {
    let (there, back) = if left {
        (CBinOp::Shl, CBinOp::Shr)
    } else {
        (CBinOp::Shr, CBinOp::Shl)
    };
    let rest = Expr::binop(Expr::Lit(dec(bits)), CBinOp::Sub, Expr::Var(s));
    Expr::cast(
        t,
        Expr::paren(
            Expr::binop(
                Expr::paren(Expr::binop(Expr::cast(ut, Expr::Var(a)), there, Expr::Var(s))),
                CBinOp::BitOr,
                Expr::paren(Expr::binop(Expr::cast(ut, Expr::Var(b)), back, Expr::paren(rest))),
            ),
        ),
    )
}

/// A funnel shift brings together what a shift keeps of the first operand and the
/// bits of the second that come in at the other end.
pub proof fn funnels_take_both(
    m: Meaning,
    left: bool,
    a: Text,
    b: Text,
    s: Text,
    bits: nat,
    t: Text,
    ut: Text,
)
    requires
        reads_literals(m),
        c_width(ut, m.ptr_bits) == Some((bits, false)),
        ut != "_Bool"@,
        0 <= (m.names)(s) < bits,
    ensures
        ({
            let x = wrapped_to((m.names)(a), bits, false);
            let y = wrapped_to((m.names)(b), bits, false);
            let n = (m.names)(s) as nat;
            let rest = (bits - n) as nat;
            let (kept, new) = if left {
                (x * pow2(n), y / (pow2(rest) as int))
            } else {
                (x / (pow2(n) as int), y * pow2(rest))
            };
            m.eval(funnel(left, a, b, s, bits, t, ut)) == crate::meaning::converted(
                t,
                (m.bits_or)(kept, new),
                m.ptr_bits,
            )
        }),
{
    reveal_with_fuel(Meaning::eval, 8);
    assert((m.names)(dec(bits)) == bits);
}

/// A funnel shift is stored at the destination.
pub proof fn funnels_are_stored(
    b: Bx,
    left: bool,
    x: ValueRef,
    y: ValueRef,
    shift: ValueRef,
    dest: ValueRef,
)
    requires
        cx_ok(b.cx),
        b.at_block(),
        b.has(x),
        b.has(dest),
        b.width_of(x) is Some,
        assigned_whole(b.kind_of(x)),
        b.cx.values.len() < usize::MAX,
        b.cx.types.len() < usize::MAX,
    ensures
        ({
            let t = b.type_str(b.type_of(x));
            let (bits, signed) = b.width_of(x)->0;
            stores(
                b,
                b.codegen_funnel_shift(left, x, y, shift, dest),
                t,
                Expr::Raw(
                    plain_text(
                        funnel(
                            left,
                            b.cx.text(x),
                            b.cx.text(y),
                            b.cx.text(shift),
                            bits,
                            t,
                            unsigned_word(b.kind_of(x)),
                        ),
                    ),
                ),
                dest,
            )
        }),
{
    let t = b.type_of(x);
    let (b1, ut) = b.unsigned_str(t);
    unsigned_word_is_used(b, x);
    let (p, q, s) = (b.cx.text(x), b.cx.text(y), b.cx.text(shift));
    let n = dec(b.width(t) as nat);
    if left {
        left_funnel_is_written(p, q, s, n, b.type_str(t), ut);
    } else {
        right_funnel_is_written(p, q, s, n, b.type_str(t), ut);
    }
    let e = funnel(left, p, q, s, b.width(t) as nat, b.type_str(t), ut);
    expressions_are_stored(b1, t, Expr::Raw(plain_text(e)), dest);
}

// --- Counting ---

/// The high half of a wide value, as an expression.
pub open spec fn high_half(v: Text) -> Expr {
    let wide = Expr::cast("uint128_t"@, Expr::paren(Expr::Var(v)));
    Expr::cast("uint64_t"@, Expr::paren(Expr::binop(wide, CBinOp::Shr, Expr::Lit("64"@))))
}

/// The low half of a wide value, as an expression.
pub open spec fn low_half(v: Text) -> Expr {
    Expr::cast("uint64_t"@, Expr::paren(Expr::Var(v)))
}

/// The bits of a narrow value, as an expression.
pub open spec fn masked(v: Text, bits: nat) -> Expr {
    let mask = Expr::Lit(dec((pow2(bits) - 1) as nat) + "U"@);
    Expr::binop(Expr::cast("uint32_t"@, Expr::paren(Expr::Var(v))), CBinOp::BitAnd, mask)
}

/// Whether an expression is zero, as an expression.
pub open spec fn is_zero(e: Expr) -> Expr {
    Expr::binop(e, CBinOp::Eq, Expr::Lit("0"@))
}

/// The number of zero bits above the highest bit that is set, as an expression.
pub open spec fn leading_zeros(v: Text, bits: nat) -> Expr {
    let n = Expr::Lit(dec(bits));
    if bits <= 64 {
        let (f, arg, width) = if bits < 32 {
            ("__rustc_clz32"@, masked(v, bits), "32"@)
        } else if bits <= 32 {
            ("__rustc_clz32"@, Expr::cast("uint32_t"@, Expr::Var(v)), "32"@)
        } else {
            ("__rustc_clz64"@, Expr::cast("uint64_t"@, Expr::Var(v)), "64"@)
        };
        let more = Expr::paren(Expr::binop(Expr::Lit(width), CBinOp::Sub, n));
        let count = Expr::binop(Expr::call(f, seq![arg]), CBinOp::Sub, more);
        Expr::paren(Expr::ternary(is_zero(Expr::Var(v)), n, count))
    } else {
        let all = Expr::Lit("64"@);
        let low = Expr::ternary(
            is_zero(low_half(v)),
            all,
            Expr::call("__rustc_clz64"@, seq![low_half(v)]),
        );
        Expr::paren(
            Expr::ternary(
                Expr::binop(high_half(v), CBinOp::Ne, Expr::Lit("0"@)),
                Expr::call("__rustc_clz64"@, seq![high_half(v)]),
                Expr::binop(all, CBinOp::Add, Expr::paren(low)),
            ),
        )
    }
}

/// The number of zero bits below the lowest bit that is set, as an expression.
pub open spec fn trailing_zeros(v: Text, bits: nat) -> Expr {
    if bits <= 64 {
        let count = if bits <= 32 {
            Expr::call("__rustc_ctz32"@, seq![Expr::cast("uint32_t"@, Expr::Var(v))])
        } else {
            Expr::call("__rustc_ctz64"@, seq![Expr::cast("uint64_t"@, Expr::Var(v))])
        };
        Expr::paren(Expr::ternary(is_zero(Expr::Var(v)), Expr::Lit(dec(bits)), count))
    } else {
        let all = Expr::Lit("64"@);
        let high = Expr::ternary(
            is_zero(high_half(v)),
            all,
            Expr::call("__rustc_ctz64"@, seq![high_half(v)]),
        );
        Expr::paren(
            Expr::ternary(
                Expr::binop(low_half(v), CBinOp::Ne, Expr::Lit("0"@)),
                Expr::call("__rustc_ctz64"@, seq![low_half(v)]),
                Expr::binop(all, CBinOp::Add, Expr::paren(high)),
            ),
        )
    }
}

/// The number of bits that are set, as an expression.
pub open spec fn ones_counted(v: Text, bits: nat) -> Expr {
    if bits < 32 {
        Expr::call("__rustc_popcount32"@, seq![masked(v, bits)])
    } else if bits <= 32 {
        Expr::call("__rustc_popcount32"@, seq![Expr::cast("uint32_t"@, Expr::Var(v))])
    } else if bits <= 64 {
        Expr::call("__rustc_popcount64"@, seq![Expr::cast("uint64_t"@, Expr::Var(v))])
    } else {
        Expr::paren(
            Expr::binop(
                Expr::call("__rustc_popcount64"@, seq![low_half(v)]),
                CBinOp::Add,
                Expr::call("__rustc_popcount64"@, seq![high_half(v)]),
            ),
        )
    }
}

/// A value of two, four, eight or sixteen bytes with its bytes in the other order, as
/// an expression.
pub open spec fn bytes_swapped(v: Text, bits: nat) -> Expr {
    if bits == 16 {
        Expr::call("__rustc_bswap16"@, seq![Expr::Var(v)])
    } else if bits == 32 {
        Expr::call("__rustc_bswap32"@, seq![Expr::Var(v)])
    } else if bits == 64 {
        Expr::call("__rustc_bswap64"@, seq![Expr::Var(v)])
    } else {
        let low = Expr::call("__rustc_bswap64"@, seq![low_half(v)]);
        let high = Expr::call("__rustc_bswap64"@, seq![high_half(v)]);
        Expr::paren(
            Expr::binop(
                Expr::binop(Expr::cast("uint128_t"@, low), CBinOp::Shl, Expr::Lit("64"@)),
                CBinOp::BitOr,
                Expr::cast("uint128_t"@, high),
            ),
        )
    }
}

proof fn leading_zeros_are_written(v: Text, bits: u64)
    ensures
        crate::bits::ctlz_text(v, bits) == plain_text(leading_zeros(v, bits as nat)),
{
    let d = dec(bits as nat);
    if bits < 32 {
        small_leading_is_written(v, d, dec((pow2(bits as nat) - 1) as nat));
    } else if bits <= 32 {
        word_leading_is_written(v, d);
    } else if bits <= 64 {
        long_leading_is_written(v, d);
    } else {
        wide_leading_is_written(v);
    }
}

proof fn trailing_zeros_are_written(v: Text, bits: u64)
    ensures
        crate::bits::cttz_text(v, bits) == plain_text(trailing_zeros(v, bits as nat)),
{
    let d = dec(bits as nat);
    if bits <= 32 {
        word_trailing_is_written(v, d);
    } else if bits <= 64 {
        long_trailing_is_written(v, d);
    } else {
        wide_trailing_is_written(v);
    }
}

proof fn ones_are_written(v: Text, bits: u64)
    ensures
        crate::bits::ctpop_text(v, bits) == plain_text(ones_counted(v, bits as nat)),
{
    if bits < 32 {
        small_ones_is_written(v, dec((pow2(bits as nat) - 1) as nat));
    } else if bits <= 32 {
        word_ones_is_written(v);
    } else if bits <= 64 {
        long_ones_is_written(v);
    } else {
        wide_ones_is_written(v);
    }
}

/// A value whose bytes are swapped is written as its expression.
pub proof fn swaps_are_written(v: Text, bits: u64)
    requires
        bits == 16 || bits == 32 || bits == 64 || bits == 128,
    ensures
        crate::bits::bswap_text(v, bits) == plain_text(bytes_swapped(v, bits as nat)),
{
    if bits == 128 {
        wide_swap_is_written(v);
    } else {
        reveal_strlit("(");
        reveal_strlit("__rustc_bswap16");
        reveal_strlit("__rustc_bswap32");
        reveal_strlit("__rustc_bswap64");
        reveal_strlit("__rustc_bswap16(");
        reveal_strlit("__rustc_bswap32(");
        reveal_strlit("__rustc_bswap64(");
        assert("__rustc_bswap16("@ =~= "__rustc_bswap16"@ + "("@);
        assert("__rustc_bswap32("@ =~= "__rustc_bswap32"@ + "("@);
        assert("__rustc_bswap64("@ =~= "__rustc_bswap64"@ + "("@);
        reveal_with_fuel(plain_text, 2);
    }
}

/// The counts of leading zeros, trailing zeros and ones of a value are stored at the
/// destination as 32-bit integers.
pub proof fn counts_are_stored(b: Bx, val: ValueRef, dest: ValueRef)
    requires
        cx_ok(b.cx),
        b.at_block(),
        b.has(val),
        b.has(dest),
        b.width_of(val) is Some,
        b.cx.values.len() < usize::MAX,
        b.cx.types.len() < usize::MAX,
    ensures
        ({
            let (bits, signed) = b.width_of(val)->0;
            let v = b.cx.text(val);
            let (lead, trail, ones) = (
                Expr::Raw(plain_text(leading_zeros(v, bits))),
                Expr::Raw(plain_text(trailing_zeros(v, bits))),
                Expr::Raw(plain_text(ones_counted(v, bits))),
            );
            &&& stores(b, b.codegen_ctlz(val, dest), "int32_t"@, lead, dest)
            &&& stores(b, b.codegen_cttz(val, dest), "int32_t"@, trail, dest)
            &&& stores(b, b.codegen_ctpop(val, dest), "int32_t"@, ones, dest)
        }),
{
    let k = Kind::Int { bits: 32, signed: true };
    let (v, n) = (b.cx.text(val), b.width(b.type_of(val)));
    interned_kind(b.cx, k);
    crate::meaning::word_name();
    let b1 = b.intern(k);
    let t = b.cx.ty(k);
    leading_zeros_are_written(v, n);
    trailing_zeros_are_written(v, n);
    ones_are_written(v, n);
    expressions_are_stored(b1, t, Expr::Raw(crate::bits::ctlz_text(v, n)), dest);
    expressions_are_stored(b1, t, Expr::Raw(crate::bits::cttz_text(v, n)), dest);
    expressions_are_stored(b1, t, Expr::Raw(crate::bits::ctpop_text(v, n)), dest);
}

/// A value whose bytes are swapped is stored at the destination; a single byte is
/// stored as it is.
pub proof fn swapped_bytes_are_stored(b: Bx, val: ValueRef, dest: ValueRef)
    requires
        b.at_block(),
        b.has(dest),
        b.width_of(val) matches Some((bits, _)) && (bits == 8 || bits == 16 || bits == 32 || bits
            == 64),
        assigned_whole(b.kind_of(val)),
        b.cx.values.len() < usize::MAX,
    ensures
        ({
            let (bits, signed) = b.width_of(val)->0;
            let v = b.cx.text(val);
            stores(
                b,
                b.codegen_bswap(val, dest),
                b.type_str(b.type_of(val)),
                Expr::Raw(
                    if bits == 8 {
                        v
                    } else {
                        plain_text(bytes_swapped(v, bits))
                    },
                ),
                dest,
            )
        }),
{
    let t = b.type_of(val);
    let (v, n) = (b.cx.text(val), b.width(t));
    if n != 8 {
        swaps_are_written(v, n);
    }
    expressions_are_stored(b, t, Expr::Raw(crate::bits::bswap_text(v, n)), dest);
}

// --- What is counted ---

/// The number of bits that are set in a number.
pub open spec fn ones(x: nat) -> nat
    decreases x,
{
    if x == 0 {
        0
    } else {
        (x % 2) + ones(x / 2)
    }
}

/// A number of `n` bytes with its bytes in the other order.
pub open spec fn mirrored(x: nat, n: nat) -> nat
    decreases n,
{
    if n == 0 {
        0
    } else {
        (x % 256) * pow2(8 * (n - 1) as nat) + mirrored(x / 256, (n - 1) as nat)
    }
}

/// Whether the helpers of a width count the leading zeros, the trailing zeros and the
/// ones of the numbers of that width.
pub open spec fn helpers_count(m: Meaning, clz: Text, ctz: Text, pop: Text, width: nat) -> bool {
    &&& forall|x: int|
        0 < x < pow2(width) ==> {
            let c = #[trigger] (m.calls)(clz, seq![x]);
            0 <= c < width && pow2((width - 1 - c) as nat) <= x < pow2((width - c) as nat)
        }
    &&& forall|x: int|
        0 < x < pow2(width) ==> {
            let c = #[trigger] (m.calls)(ctz, seq![x]);
            0 <= c < width && x % (pow2(c as nat) as int) == 0 && x % (pow2((c + 1) as nat) as int)
                != 0
        }
    &&& forall|x: int|
        0 <= x < pow2(width) ==> #[trigger] (m.calls)(pop, seq![x]) == ones(x as nat)
}

/// Whether the helpers and the operators on bits do what their names say.
pub open spec fn counts_bits(m: Meaning) -> bool {
    &&& reads_literals(m)
    &&& (m.names)("32"@) == 32
    &&& (m.names)("64"@) == 64
    &&& forall|n: nat| (m.names)(#[trigger] (dec(n) + "U"@)) == n
    &&& helpers_count(m, "__rustc_clz32"@, "__rustc_ctz32"@, "__rustc_popcount32"@, 32)
    &&& helpers_count(m, "__rustc_clz64"@, "__rustc_ctz64"@, "__rustc_popcount64"@, 64)
    &&& forall|x: int, k: nat|
        0 <= x ==> #[trigger] (m.bits_and)(x, pow2(k) - 1) == x % (pow2(k) as int)
}

/// Whether a number is one of a value of `bits` bits, signed or not.
pub open spec fn in_width(n: int, bits: nat) -> bool {
    fits(n, bits, true) || fits(n, bits, false)
}

/// The halves of a number of 128 bits.
pub proof fn halves_of(x: int)
    requires
        0 <= x < pow2(128),
    ensures
        pow2(128) == pow2(64) * pow2(64),
        0 <= x / (pow2(64) as int) < pow2(64),
        0 <= x % (pow2(64) as int) < pow2(64),
        x == (x / (pow2(64) as int)) * pow2(64) + x % (pow2(64) as int),
        x / (pow2(64) as int) == 0 ==> x == x % (pow2(64) as int),
        x == 0 ==> x / (pow2(64) as int) == 0 && x % (pow2(64) as int) == 0,
{
    let p = pow2(64) as int;
    vstd::arithmetic::power2::lemma_pow2_adds(64, 64);
    vstd::arithmetic::power2::lemma_pow2_pos(64);
    vstd::arithmetic::div_mod::lemma_fundamental_div_mod(x, p);
    vstd::arithmetic::div_mod::lemma_mod_bound(x, p);
    vstd::arithmetic::div_mod::lemma_div_pos_is_pos(x, p);
    vstd::arithmetic::mul::lemma_mul_is_commutative(p, x / p);
    if x / p >= p {
        vstd::arithmetic::mul::lemma_mul_inequality(p, x / p, p);
    }
    vstd::arithmetic::mul::lemma_mul_basics(p);
    if x == 0 {
        vstd::arithmetic::div_mod::lemma_basic_div(0, p);
        vstd::arithmetic::div_mod::lemma_small_mod(0, p as nat);
    }
}

proof fn low_bits_of_low_bits(n: int, wide: nat, narrow: nat)
    requires
        narrow <= wide,
    ensures
        (n % (pow2(wide) as int)) % (pow2(narrow) as int) == n % (pow2(narrow) as int),
{
    vstd::arithmetic::power2::lemma_pow2_adds(narrow, (wide - narrow) as nat);
    vstd::arithmetic::power2::lemma_pow2_pos(narrow);
    vstd::arithmetic::power2::lemma_pow2_pos((wide - narrow) as nat);
    vstd::arithmetic::div_mod::lemma_mod_mod(
        n,
        pow2(narrow) as int,
        pow2((wide - narrow) as nat) as int,
    );
}

proof fn unsigned_words(ptr_bits: nat)
    ensures
        c_width("uint32_t"@, ptr_bits) == Some((32nat, false)),
        c_width("uint64_t"@, ptr_bits) == Some((64nat, false)),
        c_width("uint128_t"@, ptr_bits) == Some((128nat, false)),
        "uint32_t"@ != "_Bool"@,
        "uint64_t"@ != "_Bool"@,
        "uint128_t"@ != "_Bool"@,
{
    crate::meaning::unsigned_words_have_widths(ptr_bits);
}

proof fn halves_give(m: Meaning, v: Text)
    requires
        counts_bits(m),
    ensures
        ({
            let x = wrapped_to((m.names)(v), 128, false);
            &&& m.eval(high_half(v)) == x / (pow2(64) as int)
            &&& m.eval(low_half(v)) == x % (pow2(64) as int)
        }),
{
    let n = (m.names)(v);
    let x = wrapped_to(n, 128, false);
    unsigned_words(m.ptr_bits);
    wrapping_keeps_low_bits(n, 128, false, false);
    halves_of(x);
    low_bits_of_low_bits(n, 128, 64);
    reveal_with_fuel(Meaning::eval, 7);
    wrapping_keeps_low_bits(x / (pow2(64) as int), 64, false, false);
}

proof fn masks_give(m: Meaning, v: Text, bits: nat)
    requires
        counts_bits(m),
        bits <= 32,
    ensures
        m.eval(masked(v, bits)) == wrapped_to((m.names)(v), bits, false),
{
    let n = (m.names)(v);
    unsigned_words(m.ptr_bits);
    wrapping_keeps_low_bits(n, 32, false, false);
    low_bits_of_low_bits(n, 32, bits);
    vstd::arithmetic::power2::lemma_pow2_pos(bits);
    reveal_with_fuel(Meaning::eval, 5);
    let mask = (pow2(bits) - 1) as nat;
    assert((m.names)(dec(mask) + "U"@) == mask);
}

proof fn zero_has_no_bits(n: int, bits: nat)
    requires
        in_width(n, bits),
        bits > 0,
    ensures
        (n == 0) == (wrapped_to(n, bits, false) == 0),
        0 <= wrapped_to(n, bits, false) < pow2(bits),
{
    wrapping_keeps_low_bits(n, bits, true, false);
    wrapping_keeps_low_bits(n, bits, false, true);
    vstd::arithmetic::power2::lemma_pow2_pos(bits);
    vstd::arithmetic::div_mod::lemma_small_mod(0, pow2(bits));
}

proof fn one_argument(m: Meaning, f: Text, e: Expr)
    ensures
        m.eval(Expr::call(f, seq![e])) == (m.calls)(f, seq![m.eval(e)]),
{
    reveal_with_fuel(Meaning::eval, 2);
    reveal_with_fuel(Meaning::eval_all, 2);
    assert(seq![e].drop_last() =~= Seq::empty());
    assert(m.eval_all(seq![e]) =~= seq![m.eval(e)]);
}

proof fn guards_choose(m: Meaning, e: Expr, x: Expr, y: Expr)
    requires
        counts_bits(m),
    ensures
        m.eval(Expr::paren(Expr::ternary(is_zero(e), x, y))) == if m.eval(e) == 0 {
            m.eval(x)
        } else {
            m.eval(y)
        },
        m.eval(
            Expr::paren(Expr::ternary(Expr::binop(e, CBinOp::Ne, Expr::Lit("0"@)), x, y)),
        ) == if m.eval(e) != 0 {
            m.eval(x)
        } else {
            m.eval(y)
        },
{
    let zero = Expr::Lit("0"@);
    assert(m.eval(zero) == 0);
    assert(m.eval(Expr::binop(e, CBinOp::Eq, zero)) == crate::meaning::truth(m.eval(e) == 0));
    assert(m.eval(Expr::binop(e, CBinOp::Ne, zero)) == crate::meaning::truth(m.eval(e) != 0));
    let same = Expr::ternary(is_zero(e), x, y);
    let other = Expr::ternary(Expr::binop(e, CBinOp::Ne, zero), x, y);
    assert(m.eval(Expr::paren(same)) == m.eval(same));
    assert(m.eval(Expr::paren(other)) == m.eval(other));
}

proof fn sums_add(m: Meaning, x: Expr, y: Expr)
    ensures
        m.eval(Expr::binop(x, CBinOp::Add, y)) == m.eval(x) + m.eval(y),
        m.eval(Expr::binop(x, CBinOp::Sub, y)) == m.eval(x) - m.eval(y),
        m.eval(Expr::paren(x)) == m.eval(x),
{
}

/// The count of leading zeros says where the highest bit is that is set: there are that
/// many places above it. Where none is set, it is the width.
pub proof fn leading_zeros_find_the_highest_bit(m: Meaning, v: Text, bits: nat)
    requires
        counts_bits(m),
        bits == 8 || bits == 16 || bits == 32 || bits == 64 || bits == 128,
        in_width((m.names)(v), bits),
    ensures
        ({
            let x = wrapped_to((m.names)(v), bits, false);
            let c = m.eval(leading_zeros(v, bits));
            &&& x == 0 ==> c == bits
            &&& x != 0 ==> 0 <= c < bits && pow2((bits - 1 - c) as nat) <= x < pow2(
                (bits - c) as nat,
            )
        }),
{
    let n = (m.names)(v);
    let x = wrapped_to(n, bits, false);
    zero_has_no_bits(n, bits);
    unsigned_words(m.ptr_bits);
    let size = Expr::Lit(dec(bits));
    assert(m.eval(size) == bits);
    assert(m.eval(Expr::Var(v)) == n);
    if bits <= 64 {
        let (f, arg, width, w): (Text, Expr, Text, int) = if bits < 32 {
            ("__rustc_clz32"@, masked(v, bits), "32"@, 32)
        } else if bits <= 32 {
            ("__rustc_clz32"@, Expr::cast("uint32_t"@, Expr::Var(v)), "32"@, 32)
        } else {
            ("__rustc_clz64"@, Expr::cast("uint64_t"@, Expr::Var(v)), "64"@, 64)
        };
        if bits < 32 {
            masks_give(m, v, bits);
            vstd::arithmetic::power2::lemma_pow2_strictly_increases(bits, 32);
        }
        assert(m.eval(arg) == x);
        assert(m.eval(Expr::Lit(width)) == w);
        one_argument(m, f, arg);
        let difference = Expr::binop(Expr::Lit(width), CBinOp::Sub, size);
        sums_add(m, Expr::Lit(width), size);
        sums_add(m, difference, difference);
        let count = Expr::binop(Expr::call(f, seq![arg]), CBinOp::Sub, Expr::paren(difference));
        sums_add(m, Expr::call(f, seq![arg]), Expr::paren(difference));
        guards_choose(m, Expr::Var(v), size, count);
        if x != 0 {
            let c = (m.calls)(f, seq![x]);
            assert(m.eval(leading_zeros(v, bits)) == c - (w - bits));
            if c < w - bits {
                pow2_grows(bits, (w - 1 - c) as nat);
            }
        }
    } else {
        assert(bits == 128);
        halves_give(m, v);
        halves_of(x);
        let (h, l) = (x / (pow2(64) as int), x % (pow2(64) as int));
        one_argument(m, "__rustc_clz64"@, high_half(v));
        one_argument(m, "__rustc_clz64"@, low_half(v));
        let all = Expr::Lit("64"@);
        assert(m.eval(all) == 64);
        let (high, low) = (
            Expr::call("__rustc_clz64"@, seq![high_half(v)]),
            Expr::call("__rustc_clz64"@, seq![low_half(v)]),
        );
        let in_low = Expr::paren(Expr::ternary(is_zero(low_half(v)), all, low));
        guards_choose(m, low_half(v), all, low);
        sums_add(m, all, in_low);
        guards_choose(m, high_half(v), high, Expr::binop(all, CBinOp::Add, in_low));
        if h != 0 {
            let c = (m.calls)("__rustc_clz64"@, seq![h]);
            assert(m.eval(leading_zeros(v, bits)) == c);
            vstd::arithmetic::power2::lemma_pow2_adds((63 - c) as nat, 64);
            vstd::arithmetic::power2::lemma_pow2_adds((64 - c) as nat, 64);
            vstd::arithmetic::mul::lemma_mul_inequality(
                pow2((63 - c) as nat) as int,
                h,
                pow2(64) as int,
            );
            vstd::arithmetic::mul::lemma_mul_inequality(
                h + 1,
                pow2((64 - c) as nat) as int,
                pow2(64) as int,
            );
            vstd::arithmetic::mul::lemma_mul_is_distributive_add_other_way(
                pow2(64) as int,
                h,
                1,
            );
        }
    }
}

proof fn pow2_grows(a: nat, b: nat)
    requires
        a <= b,
    ensures
        pow2(a) <= pow2(b),
{
    if a < b {
        vstd::arithmetic::power2::lemma_pow2_strictly_increases(a, b);
    }
}

proof fn lowest_bit_of_low_bits(y: int, c: nat, bits: nat)
    requires
        0 <= y,
        y % (pow2(c) as int) == 0,
        y % (pow2(c + 1) as int) != 0,
        y % (pow2(bits) as int) != 0,
    ensures
        c < bits,
        (y % (pow2(bits) as int)) % (pow2(c) as int) == 0,
        (y % (pow2(bits) as int)) % (pow2(c + 1) as int) != 0,
{
    if c >= bits {
        low_bits_of_low_bits(y, c, bits);
        vstd::arithmetic::power2::lemma_pow2_pos(bits);
        vstd::arithmetic::div_mod::lemma_small_mod(0, pow2(bits));
    } else {
        low_bits_of_low_bits(y, bits, c);
        low_bits_of_low_bits(y, bits, c + 1);
    }
}

/// The count of trailing zeros says where the lowest bit is that is set: the number is
/// a multiple of the power of two with that exponent, and of no higher one. Where none
/// is set, it is the width.
pub proof fn trailing_zeros_find_the_lowest_bit(m: Meaning, v: Text, bits: nat)
    requires
        counts_bits(m),
        bits == 8 || bits == 16 || bits == 32 || bits == 64 || bits == 128,
        in_width((m.names)(v), bits),
    ensures
        ({
            let x = wrapped_to((m.names)(v), bits, false);
            let c = m.eval(trailing_zeros(v, bits));
            &&& x == 0 ==> c == bits
            &&& x != 0 ==> 0 <= c < bits && x % (pow2(c as nat) as int) == 0 && x % (pow2(
                (c + 1) as nat,
            ) as int) != 0
        }),
{
    let n = (m.names)(v);
    let x = wrapped_to(n, bits, false);
    zero_has_no_bits(n, bits);
    assert((m.names)(dec(bits)) == bits);
    unsigned_words(m.ptr_bits);
    if bits <= 64 {
        let (width, t, f): (nat, Text, Text) = if bits <= 32 {
            (32, "uint32_t"@, "__rustc_ctz32"@)
        } else {
            (64, "uint64_t"@, "__rustc_ctz64"@)
        };
        let arg = Expr::cast(t, Expr::Var(v));
        let y = wrapped_to(n, width, false);
        assert(m.eval(arg) == y) by {
            reveal_with_fuel(Meaning::eval, 3);
        }
        one_argument(m, f, arg);
        wrapping_keeps_low_bits(n, width, false, false);
        low_bits_of_low_bits(n, width, bits);
        if x != 0 {
            if y == 0 {
                vstd::arithmetic::power2::lemma_pow2_pos(bits);
                vstd::arithmetic::div_mod::lemma_small_mod(0, pow2(bits));
            }
            let c = (m.calls)(f, seq![y]);
            lowest_bit_of_low_bits(y, c as nat, bits);
        }
        assert(m.eval(Expr::Var(v)) == n);
        assert(m.eval(Expr::Lit(dec(bits))) == bits);
        guards_choose(m, Expr::Var(v), Expr::Lit(dec(bits)), Expr::call(f, seq![arg]));
    } else {
        halves_give(m, v);
        halves_of(x);
        let p = pow2(64) as int;
        let (h, l) = (x / p, x % p);
        one_argument(m, "__rustc_ctz64"@, high_half(v));
        one_argument(m, "__rustc_ctz64"@, low_half(v));
        if l != 0 {
            let c = (m.calls)("__rustc_ctz64"@, seq![l]);
            low_bits_of_low_bits(x, 64, c as nat);
            low_bits_of_low_bits(x, 64, (c + 1) as nat);
        } else if h != 0 {
            let c = (m.calls)("__rustc_ctz64"@, seq![h]) as nat;
            vstd::arithmetic::mul::lemma_mul_is_commutative(h, p);
            multiples_have_zeros(h, c);
            multiples_have_zeros(h, c + 1);
        }
        let all = Expr::Lit("64"@);
        assert(m.eval(all) == 64);
        let (high, low) = (
            Expr::call("__rustc_ctz64"@, seq![high_half(v)]),
            Expr::call("__rustc_ctz64"@, seq![low_half(v)]),
        );
        let in_high = Expr::paren(Expr::ternary(is_zero(high_half(v)), all, high));
        guards_choose(m, high_half(v), all, high);
        sums_add(m, all, in_high);
        guards_choose(m, low_half(v), low, Expr::binop(all, CBinOp::Add, in_high));
    }
}

proof fn multiples_have_zeros(h: int, c: nat)
    requires
        0 <= h,
    ensures
        (pow2(64) * h) % (pow2(64 + c) as int) == pow2(64) * (h % (pow2(c) as int)),
        (h % (pow2(c) as int) == 0) == ((pow2(64) * h) % (pow2(64 + c) as int) == 0),
{
    vstd::arithmetic::power2::lemma_pow2_pos(64);
    vstd::arithmetic::power2::lemma_pow2_pos(c);
    vstd::arithmetic::power2::lemma_pow2_adds(64, c);
    vstd::arithmetic::div_mod::lemma_truncate_middle(h, pow2(64) as int, pow2(c) as int);
    let r = h % (pow2(c) as int);
    if r != 0 {
        vstd::arithmetic::mul::lemma_mul_nonzero(pow2(64) as int, r);
    }
}

proof fn ones_of_halves(h: nat, l: nat, k: nat)
    requires
        l < pow2(k),
    ensures
        ones(h * pow2(k) + l) == ones(h) + ones(l),
    decreases k,
{
    if k == 0 {
        vstd::arithmetic::power2::lemma2_to64();
        assert(h * pow2(0) == h) by (nonlinear_arith)
            requires
                pow2(0) == 1,
        ;
    } else {
        let j = (k - 1) as nat;
        vstd::arithmetic::power2::lemma_pow2_unfold(k);
        let x = h * pow2(k) + l;
        assert(h * pow2(k) == 2 * (h * pow2(j))) by (nonlinear_arith)
            requires
                pow2(k) == 2 * pow2(j),
        ;
        assert(x % 2 == l % 2);
        assert(x / 2 == h * pow2(j) + l / 2);
        ones_of_halves(h, l / 2, j);
        if x == 0 {
            vstd::arithmetic::power2::lemma_pow2_pos(k);
            assert(h == 0) by (nonlinear_arith)
                requires
                    h * pow2(k) == 0,
                    pow2(k) > 0,
            ;
        }
    }
}

/// The count of ones is the number of bits that are set.
pub proof fn ones_are_counted(m: Meaning, v: Text, bits: nat)
    requires
        counts_bits(m),
        bits == 8 || bits == 16 || bits == 32 || bits == 64 || bits == 128,
    ensures
        m.eval(ones_counted(v, bits)) == ones(wrapped_to((m.names)(v), bits, false) as nat),
{
    let n = (m.names)(v);
    let x = wrapped_to(n, bits, false);
    wrapping_keeps_low_bits(n, bits, false, false);
    unsigned_words(m.ptr_bits);
    if bits < 32 {
        masks_give(m, v, bits);
        one_argument(m, "__rustc_popcount32"@, masked(v, bits));
        vstd::arithmetic::power2::lemma_pow2_strictly_increases(bits, 32);
    } else if bits <= 32 {
        let arg = Expr::cast("uint32_t"@, Expr::Var(v));
        assert(m.eval(arg) == x) by {
            reveal_with_fuel(Meaning::eval, 3);
        }
        one_argument(m, "__rustc_popcount32"@, arg);
    } else if bits <= 64 {
        let arg = Expr::cast("uint64_t"@, Expr::Var(v));
        assert(m.eval(arg) == x) by {
            reveal_with_fuel(Meaning::eval, 3);
        }
        one_argument(m, "__rustc_popcount64"@, arg);
    } else {
        halves_give(m, v);
        halves_of(x);
        let (h, l) = (x / (pow2(64) as int), x % (pow2(64) as int));
        one_argument(m, "__rustc_popcount64"@, high_half(v));
        one_argument(m, "__rustc_popcount64"@, low_half(v));
        ones_of_halves(h as nat, l as nat, 64);
        let (a, b) = (
            Expr::call("__rustc_popcount64"@, seq![low_half(v)]),
            Expr::call("__rustc_popcount64"@, seq![high_half(v)]),
        );
        reveal_with_fuel(Meaning::eval, 3);
        assert(m.eval(ones_counted(v, bits)) == m.eval(a) + m.eval(b));
    }
}

/// Swapped bytes are the bytes in the other order. Of a wide value the low half comes
/// first.
pub proof fn swapped_bytes_are_mirrored(m: Meaning, v: Text, bits: nat)
    requires
        counts_bits(m),
        bits == 16 || bits == 32 || bits == 64 || bits == 128,
        forall|x: int| #[trigger]
            (m.calls)("__rustc_bswap16"@, seq![x]) == mirrored(wrapped_to(x, 16, false) as nat, 2),
        forall|x: int| #[trigger]
            (m.calls)("__rustc_bswap32"@, seq![x]) == mirrored(wrapped_to(x, 32, false) as nat, 4),
        forall|x: int| #[trigger]
            (m.calls)("__rustc_bswap64"@, seq![x]) == mirrored(wrapped_to(x, 64, false) as nat, 8),
    ensures
        ({
            let x = wrapped_to((m.names)(v), bits, false);
            let (h, l) = (x / (pow2(64) as int), x % (pow2(64) as int));
            m.eval(bytes_swapped(v, bits)) == if bits < 128 {
                mirrored(x as nat, bits / 8) as int
            } else {
                (m.bits_or)(
                    wrapped_to(mirrored(l as nat, 8) as int, 128, false) * pow2(64),
                    wrapped_to(mirrored(h as nat, 8) as int, 128, false),
                )
            }
        }),
{
    let n = (m.names)(v);
    let x = wrapped_to(n, bits, false);
    wrapping_keeps_low_bits(n, bits, false, false);
    unsigned_words(m.ptr_bits);
    reveal_with_fuel(Meaning::eval, 2);
    if bits == 128 {
        halves_give(m, v);
        halves_of(x);
        let (h, l) = (x / (pow2(64) as int), x % (pow2(64) as int));
        wrapping_keeps_low_bits(h, 64, false, false);
        wrapping_keeps_low_bits(l, 64, false, false);
        one_argument(m, "__rustc_bswap64"@, high_half(v));
        one_argument(m, "__rustc_bswap64"@, low_half(v));
        let low = Expr::call("__rustc_bswap64"@, seq![low_half(v)]);
        let high = Expr::call("__rustc_bswap64"@, seq![high_half(v)]);
        assert(m.eval(low) == mirrored(l as nat, 8));
        assert(m.eval(high) == mirrored(h as nat, 8));
        let shifted = Expr::binop(Expr::cast("uint128_t"@, low), CBinOp::Shl, Expr::Lit("64"@));
        assert(m.eval(shifted) == wrapped_to(mirrored(l as nat, 8) as int, 128, false) * pow2(64))
            by {
            reveal_with_fuel(Meaning::eval, 3);
        }
        assert(m.eval(Expr::cast("uint128_t"@, high)) == wrapped_to(
            mirrored(h as nat, 8) as int,
            128,
            false,
        ));
        assert(bytes_swapped(v, bits) == Expr::paren(
            Expr::binop(shifted, CBinOp::BitOr, Expr::cast("uint128_t"@, high)),
        ));
    } else {
        one_argument(m, "__rustc_bswap16"@, Expr::Var(v));
        one_argument(m, "__rustc_bswap32"@, Expr::Var(v));
        one_argument(m, "__rustc_bswap64"@, Expr::Var(v));
    }
}

// --- Reversed bits ---

/// One step of reversing bits, as an expression: the result is shifted up and the next
/// bit of the value comes in below.
pub open spec fn reversing_step(r: Text, i: Text, v: Text, t: Text, ut: Text) -> Expr {
    let one = Expr::Lit("1"@);
    let bit = Expr::binop(
        Expr::paren(Expr::binop(Expr::cast(ut, Expr::Var(v)), CBinOp::Shr, Expr::Var(i))),
        CBinOp::BitAnd,
        one,
    );
    Expr::cast(
        t,
        Expr::paren(
            Expr::binop(
                Expr::paren(Expr::binop(Expr::cast(ut, Expr::Var(r)), CBinOp::Shl, one)),
                CBinOp::BitOr,
                Expr::paren(bit),
            ),
        ),
    )
}

/// A step doubles the result and adds the bit of the value at the position.
pub proof fn steps_take_the_next_bit(
    m: Meaning,
    r: Text,
    i: Text,
    v: Text,
    t: Text,
    ut: Text,
    bits: nat,
)
    requires
        reads_literals(m),
        c_width(ut, m.ptr_bits) == Some((bits, false)),
        ut != "_Bool"@,
        0 <= (m.names)(i) < bits,
        forall|x: int| #[trigger] (m.bits_and)(x, 1) == x % 2,
        forall|x: int, y: int| 0 <= y < 2 ==> #[trigger] (m.bits_or)(2 * x, y) == 2 * x + y,
    ensures
        ({
            let x = wrapped_to((m.names)(v), bits, false);
            let so_far = wrapped_to((m.names)(r), bits, false);
            let bit = (x / (pow2((m.names)(i) as nat) as int)) % 2;
            m.eval(reversing_step(r, i, v, t, ut)) == crate::meaning::converted(
                t,
                2 * so_far + bit,
                m.ptr_bits,
            )
        }),
{
    let x = wrapped_to((m.names)(v), bits, false);
    let so_far = wrapped_to((m.names)(r), bits, false);
    let one = Expr::Lit("1"@);
    vstd::arithmetic::power2::lemma2_to64();
    assert(m.eval(one) == 1);
    assert(m.eval(Expr::Var(v)) == (m.names)(v) && m.eval(Expr::Var(r)) == (m.names)(r));
    assert(m.eval(Expr::Var(i)) == (m.names)(i));
    assert(m.eval(Expr::cast(ut, Expr::Var(v))) == x);
    assert(m.eval(Expr::cast(ut, Expr::Var(r))) == so_far);
    let shifted = Expr::binop(Expr::cast(ut, Expr::Var(v)), CBinOp::Shr, Expr::Var(i));
    let q = x / (pow2((m.names)(i) as nat) as int);
    assert(m.eval(shifted) == q);
    assert(m.eval(Expr::paren(shifted)) == q);
    let bit = Expr::binop(Expr::paren(shifted), CBinOp::BitAnd, one);
    assert(m.eval(bit) == q % 2);
    assert(m.eval(Expr::paren(bit)) == q % 2);
    let doubled = Expr::binop(Expr::cast(ut, Expr::Var(r)), CBinOp::Shl, one);
    assert(m.eval(doubled) == so_far * pow2(1));
    assert(so_far * pow2(1) == 2 * so_far);
    assert(m.eval(Expr::paren(doubled)) == 2 * so_far);
    let both = Expr::binop(Expr::paren(doubled), CBinOp::BitOr, Expr::paren(bit));
    assert(m.eval(both) == 2 * so_far + q % 2);
    assert(m.eval(Expr::paren(both)) == 2 * so_far + q % 2);
}

proof fn loops_are_grouped(r: Text, i: Text, n: Text, t: Text, ut: Text, v: Text)
    ensures
        "for ("@ + i + " = 0; "@ + i + " < "@ + n + "; "@ + i + "++) { "@ + r + " = ("@ + t
            + ")((("@ + ut + ")"@ + r + " << 1) | ((("@ + ut + ")"@ + v + " >> "@ + i
            + ") & 1)); }"@ == "for ("@ + i + " = 0; "@ + i + " < "@ + n + "; "@ + i + "++) { "@
                + (r
            + " = "@ + ("("@ + t + ")((("@ + ut + ")"@ + r + " << 1) | ((("@ + ut + ")"@ + v
            + " >> "@ + i + ") & 1))"@) + ";"@) + " }"@,
{
    reveal_strlit(" = (");
    reveal_strlit(" = ");
    reveal_strlit("(");
    reveal_strlit(") & 1)); }");
    reveal_strlit(") & 1))");
    reveal_strlit(";");
    reveal_strlit(" }");
    assert(" = ("@ =~= " = "@ + "("@);
    assert(") & 1)); }"@ =~= ") & 1))"@ + ";"@ + " }"@);
    let head = "for ("@ + i + " = 0; "@ + i + " < "@ + n + "; "@ + i + "++) { "@;
    let body = t + ")((("@ + ut + ")"@ + r + " << 1) | ((("@ + ut + ")"@ + v + " >> "@ + i;
    assert(head + r + " = ("@ + t + ")((("@ + ut + ")"@ + r + " << 1) | ((("@ + ut + ")"@ + v
        + " >> "@ + i =~= head + r + (" = "@ + "("@) + body);
    assert("("@ + t + ")((("@ + ut + ")"@ + r + " << 1) | ((("@ + ut + ")"@ + v + " >> "@ + i
        =~= "("@ + body);
    let end = ") & 1))"@;
    assert(head + r + (" = "@ + "("@) + body + (end + ";"@ + " }"@) =~= head + (r + " = "@ + ("("@
        + body + end) + ";"@) + " }"@);
}

proof fn loops_are_written(r: Text, i: Text, bits: u64, t: Text, ut: Text, v: Text)
    ensures
        crate::bits::reverse_text(r, i, bits, t, ut, v) == "for ("@ + i + " = 0; "@ + i + " < "@
            + dec(bits as nat) + "; "@ + i + "++) { "@ + (r + " = "@ + plain_text(
            reversing_step(r, i, v, t, ut),
        ) + ";"@) + " }"@,
{
    loops_are_grouped(r, i, dec(bits as nat), t, ut, v);
    reversing_step_is_written(r, i, v, t, ut);
}

/// Bits are reversed one by one: from nothing, one step is made for each position from
/// the lowest up, and the result is stored at the destination.
pub proof fn bits_are_reversed(b: Bx, val: ValueRef, dest: ValueRef)
    requires
        cx_ok(b.cx),
        b.at_block(),
        b.has(val),
        b.has(dest),
        b.width_of(val) is Some,
        assigned_whole(b.kind_of(val)),
        b.cx.values.len() + 1 < usize::MAX,
        b.cx.types.len() + 1 < usize::MAX,
    ensures
        ({
            let (bits, signed) = b.width_of(val)->0;
            let t = b.type_str(b.type_of(val));
            let r = "_t"@ + dec(b.cx.values.len());
            let i = "_t"@ + dec(b.cx.values.len() + 1);
            let step = reversing_step(r, i, b.cx.text(val), t, unsigned_word(b.kind_of(val)));
            b.codegen_bitreverse(val, dest).code() == b.code() + seq![
                Stmt::Raw(r + " = 0;"@),
                Stmt::Raw(
                    "for ("@ + i + " = 0; "@ + i + " < "@ + dec(bits) + "; "@ + i + "++) { "@ + (r
                        + " = "@ + plain_text(step) + ";"@) + " }"@,
                ),
                Stmt::Assign(Expr::deref(t + " *"@, b.var(dest)), Expr::Var(r)),
            ]
        }),
{
    let t = b.type_of(val);
    values_have_types(b.cx, val);
    let k = Kind::Int { bits: 32, signed: true };
    crate::lowered::temporaries_are_declared(b, t);
    let (b1, result) = b.typed_temp(t);
    interned_kind(b1.cx, k);
    let (b2, iter) = b1.intern(k).value(ValKind::Temp, b1.cx.ty(k));
    let decl = "int32_t "@ + b2.cx.text(iter) + ";"@;
    crate::meaning::locals_run_nothing(b2, decl);
    let b2l = b2.local(decl);
    let (b3, ut) = b2l.unsigned_str(t);
    match unsigned_kind(b.cx.kind(t)) {
        Some(u) => {
            interned_kind(b2l.cx, u);
        },
        None => {},
    }
    assert(b2l.cx.kind(t) == b.cx.kind(t));
    assert(b3.cx.kind(t) == b.cx.kind(t));
    value_text_is_stable(b.cx.values, b3.cx.values, val.0 as nat);
    value_text_is_stable(b.cx.values, b3.cx.values, dest.0 as nat);
    value_text_is_stable(b1.cx.values, b3.cx.values, result.0 as nat);
    let (rn, itn, ts) = (b3.cx.text(result), b2.cx.text(iter), b3.type_str(t));
    let (n, v) = (b.width(t), b3.cx.text(val));
    loops_are_written(rn, itn, n, ts, ut, v);
    let s1 = Stmt::Raw(rn + " = 0;"@);
    let s2 = Stmt::Raw(crate::bits::reverse_text(rn, itn, n, ts, ut, v));
    emitted_is_last(b3, s1);
    emitted_is_last(b3.emit(s1), s2);
    let b4 = b3.emit(s1).emit(s2);
    let s3 = Stmt::Assign(Expr::deref(b4.type_str(t) + " *"@, b4.var(dest)), b4.var(result));
    emitted_is_last(b4, s3);
    assert(b4.store(result, dest).0 == b4.emit(s3));
    assert(b4.emit(s3).code() =~= b.code() + seq![s1, s2, s3]);
}

} // verus!
