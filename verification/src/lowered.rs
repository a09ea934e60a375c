//! What intrinsics compute: the C code that stands for each is read back and
//! evaluated.
use vstd::arithmetic::power2::pow2;
use vstd::prelude::*;

use crate::builder::Bx;
use crate::c_ast::{CBinOp, CUnaryOp, Expr, Stmt};
use crate::context::{cx_ok, extends};
use crate::meaning::{
    emitted_is_last, fits, kind_width, locals_run_nothing, plain_text, reads_literals,
    temporaries_are_assigned, wrapped_to, wrapping_keeps_low_bits, Meaning,
};
use crate::numbers::held_within;
use crate::places::assigned_whole;
use crate::text::{dec, sdec, Text};
use crate::types::{Kind, TypeRef};
use crate::values::{value_text_is_stable, ValKind, ValueRef};

verus! {

// --- Saturating arithmetic ---

/// The value that a saturating operation takes where it overflows, as an expression.
pub open spec fn limit_taken(is_add: bool, t: Text, bits: nat, signed: bool, r: Text) -> Expr {
    let max = (pow2((bits - 1) as nat) - 1) as int;
    let upper = Expr::cast(t, Expr::Lit(sdec(max) + "LL"@));
    let lower = Expr::cast(t, Expr::Lit(sdec(-max - 1) + "LL"@));
    if signed {
        Expr::paren(
            Expr::ternary(
                Expr::binop(Expr::Var(r), CBinOp::Gt, Expr::Lit("0"@)),
                if is_add {
                    upper
                } else {
                    lower
                },
                if is_add {
                    lower
                } else {
                    upper
                },
            ),
        )
    } else if !is_add {
        Expr::cast(t, Expr::Lit("0"@))
    } else if bits == 128 {
        Expr::cast(t, Expr::unary(CUnaryOp::Neg, Expr::Lit("1"@)))
    } else {
        Expr::cast(t, Expr::Lit(dec((pow2(bits) - 1) as nat) + "ULL"@))
    }
}

proof fn regroup(a: Text, b: Text, c: Text)
    ensures
        a + b + c == a + (b + c),
{
    assert(a + b + c =~= a + (b + c));
}

proof fn choice_is_written(r: Text, x: Text, y: Text)
    ensures
        "("@ + r + " > 0 ? "@ + x + " : "@ + y + ")"@ == "("@ + (r + " > "@ + "0"@ + " ? "@ + x
            + " : "@ + y) + ")"@,
{
    reveal_strlit(" > ");
    reveal_strlit("0");
    reveal_strlit(" ? ");
    reveal_strlit(" > 0 ? ");
    assert(" > 0 ? "@ =~= " > "@ + "0"@ + " ? "@);
    let (a, b, c) = (" > "@, "0"@, " ? "@);
    assert(r + (a + b + c) =~= r + a + b + c);
    let body = r + " > 0 ? "@ + x + " : "@ + y;
    assert("("@ + r + " > 0 ? "@ + x + " : "@ + y =~= "("@ + body);
}

proof fn limit_is_written(is_add: bool, k: Kind, bits: nat, signed: bool, t: Text, r: Text,
    ptr_bits: nat)
    requires
        kind_width(k, ptr_bits) == Some((bits, signed)),
        0 < bits <= 128,
        signed ==> bits <= 64,
    ensures
        crate::bits::clamp_text(is_add, k, bits as u64, t, r) == plain_text(
            limit_taken(is_add, t, bits, signed, r),
        ),
{
    reveal_with_fuel(plain_text, 5);
    let max = (pow2((bits - 1) as nat) - 1) as int;
    let open = "("@ + t + ")"@;
    if signed {
        let (x, y) = (open + (sdec(max) + "LL"@), open + (sdec(-max - 1) + "LL"@));
        regroup(open, sdec(max), "LL"@);
        regroup(open, sdec(-max - 1), "LL"@);
        choice_is_written(r, x, y);
        choice_is_written(r, y, x);
    } else if !is_add {
        reveal_strlit(")0");
        reveal_strlit("0");
        reveal_strlit(")");
        assert(")0"@ =~= ")"@ + "0"@);
        regroup("("@ + t, ")"@, "0"@);
    } else if bits == 128 {
        reveal_strlit(")-1");
        reveal_strlit("-");
        reveal_strlit("1");
        reveal_strlit(")");
        assert(")-1"@ =~= ")"@ + ("-"@ + "1"@));
        regroup("("@ + t, ")"@, "-"@ + "1"@);
    } else {
        regroup(open, dec((pow2(bits) - 1) as nat), "ULL"@);
    }
}

/// Where the sum or the difference of two numbers of a width is not one of it, the
/// limit that is taken is the nearest number of the width.
pub proof fn limits_are_nearest(
    m: Meaning,
    is_add: bool,
    t: Text,
    bits: nat,
    signed: bool,
    r: Text,
    x: int,
)
    requires
        reads_literals(m),
        crate::meaning::c_width(t, m.ptr_bits) == Some((bits, signed)),
        t != "_Bool"@,
        bits == 8 || bits == 16 || bits == 32 || bits == 64 || bits == 128,
        signed ==> bits <= 64,
        fits(x, bits, signed),
        fits((m.names)(r), bits, signed),
        !fits(
            if is_add {
                x + (m.names)(r)
            } else {
                x - (m.names)(r)
            },
            bits,
            signed,
        ),
    ensures
        ({
            let n = if is_add {
                x + (m.names)(r)
            } else {
                x - (m.names)(r)
            };
            let (min, max) = if signed {
                (-(pow2((bits - 1) as nat) as int), pow2((bits - 1) as nat) - 1)
            } else {
                (0, pow2(bits) - 1)
            };
            m.eval(limit_taken(is_add, t, bits, signed, r)) == held_within(n, min, max)
        }),
{
    reveal_with_fuel(Meaning::eval, 5);
    let h = pow2((bits - 1) as nat) as int;
    let max = h - 1;
    vstd::arithmetic::power2::lemma_pow2_unfold(bits);
    vstd::arithmetic::power2::lemma_pow2_pos((bits - 1) as nat);
    wrapping_keeps_low_bits(0, bits, signed, signed);
    if signed {
        assert((m.names)(sdec(max) + "LL"@) == max);
        assert((m.names)(sdec(-max - 1) + "LL"@) == -max - 1);
        wrapping_keeps_low_bits(max, bits, true, true);
        wrapping_keeps_low_bits(-max - 1, bits, true, true);
    } else if is_add {
        let top = (pow2(bits) - 1) as nat;
        assert((m.names)(dec(top) + "ULL"@) == top);
        wrapping_keeps_low_bits(top as int, bits, false, false);
        if bits == 128 {
            let p = pow2(bits) as int;
            vstd::arithmetic::div_mod::lemma_mod_multiples_vanish(1, -1, p);
            vstd::arithmetic::div_mod::lemma_small_mod((p - 1) as nat, p as nat);
        }
    }
}

/// The name of a type in the names of the helpers.
pub open spec fn type_word(k: Kind) -> Text {
    match k {
        Kind::Int { bits, signed: true } => "i"@ + dec(bits as nat),
        Kind::Int { bits, signed: false } => "u"@ + dec(bits as nat),
        Kind::PtrWidth { signed: true } => "isize"@,
        _ => "usize"@,
    }
}

proof fn helpers_are_named(op: Text, k: Kind, ptr_bits: nat)
    requires
        kind_width(k, ptr_bits) is Some,
    ensures
        op == "add"@ ==> crate::arith::overflow_helper(op, k) == "__rustc_add_overflow_"@
            + type_word(k),
        op == "sub"@ ==> crate::arith::overflow_helper(op, k) == "__rustc_sub_overflow_"@
            + type_word(k),
        op == "mul"@ ==> crate::arith::overflow_helper(op, k) == "__rustc_mul_overflow_"@
            + type_word(k),
{
    reveal_strlit("__rustc_");
    reveal_strlit("_overflow_");
    reveal_strlit("add");
    reveal_strlit("sub");
    reveal_strlit("mul");
    reveal_strlit("__rustc_add_overflow_");
    reveal_strlit("__rustc_sub_overflow_");
    reveal_strlit("__rustc_mul_overflow_");
    assert("__rustc_"@ + "add"@ + "_overflow_"@ =~= "__rustc_add_overflow_"@);
    assert("__rustc_"@ + "sub"@ + "_overflow_"@ =~= "__rustc_sub_overflow_"@);
    assert("__rustc_"@ + "mul"@ + "_overflow_"@ =~= "__rustc_mul_overflow_"@);
}

/// A temporary with its declaration.
/// A temporary that is declared runs nothing and gets the next name.
pub proof fn temporaries_are_declared(b: Bx, t: TypeRef)
    requires
        b.cx.values.len() <= usize::MAX,
    ensures
        ({
            let (later, v) = b.typed_temp(t);
            &&& later.code() == b.code()
            &&& later.at_block() == b.at_block()
            &&& later.cx.types == b.cx.types
            &&& later.cx.ptr_bytes == b.cx.ptr_bytes
            &&& later.func == b.func && later.bb == b.bb
            &&& later.cx.values == b.cx.values.push(
                crate::values::Value { kind: ValKind::Temp, ty: t },
            )
            &&& v.0 == b.cx.values.len()
            &&& later.cx.text(v) == "_t"@ + dec(b.cx.values.len())
        }),
{
    let (v0, v) = b.value(ValKind::Temp, t);
    locals_run_nothing(v0, v0.type_str(t) + " "@ + v0.cx.text(v) + ";"@);
}

/// A checked operation calls the helper of its own name and type with the operands in
/// order; the first value that it gives is the result, the second says whether it
/// overflowed.
pub proof fn checked_operations_call_their_helper(
    b: Bx,
    op: crate::arith::OverflowOp,
    l: ValueRef,
    r: ValueRef,
)
    requires
        b.at_block(),
        b.has(l),
        b.has(r),
        b.width_of(l) is Some,
        b.cx.values.len() + 2 < usize::MAX,
    ensures
        ({
            let (later, (result, overflow)) = b.checked_binop(op, l, r);
            let helper = (match op {
                crate::arith::OverflowOp::Add => "__rustc_add_overflow_"@,
                crate::arith::OverflowOp::Sub => "__rustc_sub_overflow_"@,
                crate::arith::OverflowOp::Mul => "__rustc_mul_overflow_"@,
            }) + type_word(b.kind_of(l));
            &&& later.code() == b.code().push(
                Stmt::Assign(
                    later.var(overflow),
                    Expr::Call(
                        Box::new(Expr::Var(helper)),
                        seq![b.var(l), b.var(r), Expr::addr_of(later.var(result))],
                    ),
                ),
            )
            &&& later.type_of(result) == b.type_of(l)
            &&& result != overflow
        }),
{
    let t = b.type_of(l);
    let ptr_bits = (b.cx.ptr_bytes * 8) as nat;
    helpers_are_named(crate::arith::overflow_name(op), b.cx.kind(t), ptr_bits);
    temporaries_are_declared(b, t);
    let (b1, result) = b.typed_temp(t);
    let b2 = b1.intern(Kind::Bool);
    let (b3, overflow) = b2.value(ValKind::Temp, b1.cx.ty(Kind::Bool));
    let decl = "_Bool "@ + b3.cx.text(overflow) + ";"@;
    locals_run_nothing(b3, decl);
    let b4 = b3.local(decl);
    assert(extends(b.cx.values, b4.cx.values));
    value_text_is_stable(b.cx.values, b4.cx.values, l.0 as nat);
    value_text_is_stable(b.cx.values, b4.cx.values, r.0 as nat);
    let call = Expr::call(
        crate::arith::overflow_helper(crate::arith::overflow_name(op), b.cx.kind(t)),
        seq![b4.var(l), b4.var(r), Expr::addr_of(b4.var(result))],
    );
    emitted_is_last(b4, Stmt::Assign(b4.var(overflow), call));
}

/// A saturating operation computes the sum or the difference by the helper that says
/// whether it overflowed; where it did, the result is the limit that is nearest. The
/// result is stored at the destination.
pub proof fn saturating_operations_take_the_limit(
    b: Bx,
    is_add: bool,
    l: ValueRef,
    r: ValueRef,
    dest: ValueRef,
)
    requires
        cx_ok(b.cx),
        b.at_block(),
        b.has(l),
        b.has(r),
        b.has(dest),
        b.width_of(l) matches Some((bits, signed)) && (signed ==> bits <= 64),
        assigned_whole(b.kind_of(l)),
        b.cx.values.len() + 2 < usize::MAX,
    ensures
        ({
            let later = b.codegen_saturating(is_add, l, r, dest);
            let (bits, signed) = b.width_of(l)->0;
            let n = b.code().len() as int;
            let res = "_t"@ + dec(b.cx.values.len());
            let over = "_t"@ + dec(b.cx.values.len() + 1);
            let helper = (if is_add {
                "__rustc_add_overflow_"@
            } else {
                "__rustc_sub_overflow_"@
            }) + type_word(b.kind_of(l));
            let t = b.type_str(b.type_of(l));
            let limit = limit_taken(is_add, t, bits, signed, b.cx.text(r));
            &&& later.code().len() == n + 3
            &&& extends(b.code(), later.code())
            &&& later.code()[n] == Stmt::Raw(
                over + " = "@ + helper + "("@ + b.cx.text(l) + ", "@ + b.cx.text(r) + ", &"@ + res
                    + ");"@,
            )
            &&& later.code()[n + 1] == Stmt::Raw(
                "if ("@ + over + ") "@ + res + " = "@ + plain_text(limit) + ";"@,
            )
            &&& later.code()[n + 2] == Stmt::Assign(
                Expr::deref(t + " *"@, b.var(dest)),
                Expr::Var(res),
            )
        }),
{
    let t = b.type_of(l);
    let k = b.cx.kind(t);
    let (bits, signed) = b.width_of(l)->0;
    let ptr_bits = (b.cx.ptr_bytes * 8) as nat;
    helpers_are_named("add"@, k, ptr_bits);
    helpers_are_named("sub"@, k, ptr_bits);
    limit_is_written(is_add, k, bits, signed, b.type_str(t), b.cx.text(r), ptr_bits);
    temporaries_are_declared(b, t);
    let (b1, result) = b.typed_temp(t);
    temporaries_are_declared(b1, t);
    let (b2, overflow) = b1.typed_temp(t);
    assert(extends(b.cx.values, b2.cx.values));
    value_text_is_stable(b1.cx.values, b2.cx.values, result.0 as nat);
    value_text_is_stable(b.cx.values, b2.cx.values, dest.0 as nat);
    let helper = crate::arith::overflow_helper(
        if is_add {
            "add"@
        } else {
            "sub"@
        },
        k,
    );
    let rn = b2.cx.text(result);
    let on = b2.cx.text(overflow);
    let clamp = crate::bits::clamp_text(is_add, k, b.width(t), b.type_str(t), b.cx.text(r));
    assert(b.width(t) == bits);
    let s1 = Stmt::Raw(
        crate::bits::overflow_call_text(on, helper, b.cx.text(l), b.cx.text(r), rn),
    );
    let s2 = Stmt::Raw(crate::bits::clamp_stmt_text(on, rn, clamp));
    emitted_is_last(b2, s1);
    emitted_is_last(b2.emit(s1), s2);
    let b3 = b2.emit(s1).emit(s2);
    let s3 = Stmt::Assign(
        Expr::deref(b3.type_str(b3.type_of(result)) + " *"@, b3.var(dest)),
        b3.var(result),
    );
    emitted_is_last(b3, s3);
}

// --- Multiplication with carries ---

#[verifier::spinoff_prover]
proof fn product_is_grouped(w: Text, a: Text, b: Text, c: Text, d: Text)
    ensures
        "("@ + w + ")"@ + a + " * ("@ + w + ")"@ + b + " + ("@ + w + ")"@ + c + " + ("@ + w + ")"@
            + d == ((("("@ + w + ")"@ + a) + " * "@ + ("("@ + w + ")"@ + b)) + " + "@ + ("("@ + w
            + ")"@ + c)) + " + "@ + ("("@ + w + ")"@ + d),
{
    reveal_strlit("(");
    reveal_strlit(")");
    reveal_strlit(" * (");
    reveal_strlit(" + (");
    reveal_strlit(" * ");
    reveal_strlit(" + ");
    assert("("@ + w + ")"@ + a + " * ("@ + w + ")"@ + b + " + ("@ + w + ")"@ + c + " + ("@ + w
        + ")"@ + d =~= ((("("@ + w + ")"@ + a) + " * "@ + ("("@ + w + ")"@ + b)) + " + "@ + ("("@
        + w + ")"@ + c)) + " + "@ + ("("@ + w + ")"@ + d));
}

#[verifier::spinoff_prover]
proof fn high_part_is_grouped(n: Text, w: Text, v: Text, d: Text)
    ensures
        "("@ + n + ")(("@ + w + ")"@ + v + " >> "@ + d + ")"@ == "("@ + n + ")"@ + ("("@ + (("("@
            + w + ")"@ + v) + " >> "@ + d) + ")"@),
{
    reveal_strlit("(");
    reveal_strlit(")((");
    reveal_strlit(")");
    reveal_strlit(" >> ");
    assert("("@ + n + ")(("@ + w + ")"@ + v + " >> "@ + d + ")"@ =~= "("@ + n + ")"@ + ("("@
        + (("("@ + w + ")"@ + v) + " >> "@ + d) + ")"@));
}

/// A product with two numbers added to it, in a wider type, as an expression.
pub open spec fn carried_product(w: Text, a: Text, b: Text, c: Text, d: Text) -> Expr {
    let wide = |v: Text| Expr::cast(w, Expr::Var(v));
    let product = Expr::binop(wide(a), CBinOp::Mul, wide(b));
    Expr::binop(Expr::binop(product, CBinOp::Add, wide(c)), CBinOp::Add, wide(d))
}

/// The upper part of a number of a wider type, as an expression.
pub open spec fn upper_part(n: Text, w: Text, v: Text, bits: nat) -> Expr {
    Expr::cast(
        n,
        Expr::paren(
            Expr::binop(Expr::cast(w, Expr::Var(v)), CBinOp::Shr, Expr::Lit(dec(bits))),
        ),
    )
}

/// The product of two unsigned numbers with two others added fits in twice the width,
/// and its two parts together are that number.
pub proof fn products_carry_over(
    m: Meaning,
    n: Text,
    w: Text,
    a: Text,
    b: Text,
    c: Text,
    d: Text,
    v: Text,
    bits: nat,
)
    requires
        reads_literals(m),
        bits > 0,
        crate::meaning::c_width(n, m.ptr_bits) == Some((bits, false)),
        crate::meaning::c_width(w, m.ptr_bits) == Some((2 * bits, false)),
        n != "_Bool"@,
        w != "_Bool"@,
        fits((m.names)(a), bits, false),
        fits((m.names)(b), bits, false),
        fits((m.names)(c), bits, false),
        fits((m.names)(d), bits, false),
        (m.names)(v) == m.eval(carried_product(w, a, b, c, d)),
    ensures
        (m.names)(v) == (m.names)(a) * (m.names)(b) + (m.names)(c) + (m.names)(d),
        fits((m.names)(v), 2 * bits, false),
        m.eval(upper_part(n, w, v, bits)) * pow2(bits) + m.eval(Expr::cast(n, Expr::Var(v)))
            == (m.names)(v),
{
    let (x, y, z, t) = ((m.names)(a), (m.names)(b), (m.names)(c), (m.names)(d));
    let p = pow2(bits) as int;
    let all = (m.names)(v);
    vstd::arithmetic::power2::lemma_pow2_pos(bits);
    vstd::arithmetic::power2::lemma_pow2_adds(bits, bits);
    assert(p <= p * p) by (nonlinear_arith)
        requires
            p >= 1,
    ;
    wrapping_keeps_low_bits(x, 2 * bits, false, false);
    wrapping_keeps_low_bits(y, 2 * bits, false, false);
    wrapping_keeps_low_bits(z, 2 * bits, false, false);
    wrapping_keeps_low_bits(t, 2 * bits, false, false);
    assert(m.eval(Expr::Var(a)) == x && m.eval(Expr::Var(b)) == y);
    assert(m.eval(Expr::Var(c)) == z && m.eval(Expr::Var(d)) == t && m.eval(Expr::Var(v)) == all);
    assert(m.eval(Expr::cast(w, Expr::Var(a))) == x);
    assert(m.eval(Expr::cast(w, Expr::Var(b))) == y);
    assert(m.eval(Expr::cast(w, Expr::Var(c))) == z);
    assert(m.eval(Expr::cast(w, Expr::Var(d))) == t);
    let product = Expr::binop(
        Expr::cast(w, Expr::Var(a)),
        CBinOp::Mul,
        Expr::cast(w, Expr::Var(b)),
    );
    assert(m.eval(product) == x * y);
    let sum = Expr::binop(product, CBinOp::Add, Expr::cast(w, Expr::Var(c)));
    assert(m.eval(sum) == x * y + z);
    assert(all == x * y + z + t);
    assert(0 <= x * y + z + t < p * p) by (nonlinear_arith)
        requires
            0 <= x < p,
            0 <= y < p,
            0 <= z < p,
            0 <= t < p,
    {
        assert(x * y <= (p - 1) * (p - 1));
    }
    wrapping_keeps_low_bits(all, 2 * bits, false, false);
    vstd::arithmetic::div_mod::lemma_fundamental_div_mod(all, p);
    vstd::arithmetic::div_mod::lemma_div_pos_is_pos(all, p);
    let (h, l) = (all / p, all % p);
    vstd::arithmetic::mul::lemma_mul_is_commutative(p, h);
    if h >= p {
        vstd::arithmetic::mul::lemma_mul_inequality(p, h, p);
        vstd::arithmetic::div_mod::lemma_mod_bound(all, p);
    }
    wrapping_keeps_low_bits(h, bits, false, false);
    let size = Expr::Lit(dec(bits));
    assert(m.eval(size) == bits);
    assert(m.eval(Expr::cast(w, Expr::Var(v))) == all);
    let shifted = Expr::binop(Expr::cast(w, Expr::Var(v)), CBinOp::Shr, size);
    assert(m.eval(shifted) == h);
    assert(m.eval(Expr::paren(shifted)) == h);
    assert(m.eval(Expr::cast(n, Expr::Var(v))) == l);
}

proof fn signs_are_first(bits: nat, signed: bool)
    ensures
        crate::types::int_name(bits, signed) == (if signed {
            ""@
        } else {
            "u"@
        }) + ("int"@ + dec(bits) + "_t"@),
{
    reveal_strlit("");
    reveal_strlit("u");
    reveal_strlit("int");
    reveal_strlit("uint");
    assert("uint"@ =~= "u"@ + "int"@);
    let n = dec(bits);
    assert("u"@ + "int"@ + n + "_t"@ =~= "u"@ + ("int"@ + n + "_t"@));
    assert(""@ + ("int"@ + n + "_t"@) =~= "int"@ + n + "_t"@);
}

proof fn product_is_written(w: Text, a: Text, b: Text, c: Text, d: Text)
    ensures
        crate::intrinsic::wide_mul_text(w, a, b, c, d) == plain_text(
            carried_product(w, a, b, c, d),
        ),
{
    product_is_grouped(w, a, b, c, d);
    assert(plain_text(Expr::Var(a)) == a && plain_text(Expr::Var(b)) == b);
    assert(plain_text(Expr::Var(c)) == c && plain_text(Expr::Var(d)) == d);
    let (x, y) = (Expr::cast(w, Expr::Var(a)), Expr::cast(w, Expr::Var(b)));
    let (z, t) = (Expr::cast(w, Expr::Var(c)), Expr::cast(w, Expr::Var(d)));
    assert(plain_text(x) == "("@ + w + ")"@ + a && plain_text(y) == "("@ + w + ")"@ + b);
    assert(plain_text(z) == "("@ + w + ")"@ + c && plain_text(t) == "("@ + w + ")"@ + d);
    let product = Expr::binop(x, CBinOp::Mul, y);
    assert(plain_text(product) == plain_text(x) + " * "@ + plain_text(y));
    let sum = Expr::binop(product, CBinOp::Add, z);
    assert(plain_text(sum) == plain_text(product) + " + "@ + plain_text(z));
}

proof fn upper_part_is_written(n: Text, w: Text, v: Text, bits: u64)
    ensures
        crate::intrinsic::high_half_text(n, w, v, bits) == plain_text(
            upper_part(n, w, v, bits as nat),
        ),
{
    let d = dec(bits as nat);
    high_part_is_grouped(n, w, v, d);
    assert(plain_text(Expr::Var(v)) == v && plain_text(Expr::Lit(d)) == d);
    let wide = Expr::cast(w, Expr::Var(v));
    assert(plain_text(wide) == "("@ + w + ")"@ + v);
    let shifted = Expr::binop(wide, CBinOp::Shr, Expr::Lit(d));
    assert(plain_text(shifted) == plain_text(wide) + " >> "@ + d);
    assert(plain_text(Expr::paren(shifted)) == "("@ + plain_text(shifted) + ")"@);
}

/// A multiplication with carries of up to 64 bits computes the whole number in the
/// type of twice the width, and writes its lower part at the destination and its
/// upper part behind it.
#[verifier::spinoff_prover]
#[verifier::rlimit(60)]
pub proof fn carried_products_are_stored(
    b: Bx,
    x: ValueRef,
    y: ValueRef,
    c: ValueRef,
    d: ValueRef,
    dest: ValueRef,
    size: u64,
    signed: bool,
)
    requires
        b.at_block(),
        b.has(dest),
        0 < size <= 8,
        b.cx.values.len() + 3 < usize::MAX,
    ensures
        ({
            let bits = (size * 8) as nat;
            let sign = if signed {
                ""@
            } else {
                "u"@
            };
            let narrow = sign + ("int"@ + dec(bits) + "_t"@);
            let wide = sign + ("int"@ + dec(2 * bits) + "_t"@);
            let temp = |i: nat| "_t"@ + dec(b.cx.values.len() + i);
            b.codegen_carrying_mul_add(x, y, c, d, dest, size, signed).code() == b.code() + seq![
                Stmt::Assign(
                    Expr::Var(temp(0)),
                    Expr::Raw(
                        plain_text(
                            carried_product(
                                wide,
                                b.cx.text(x),
                                b.cx.text(y),
                                b.cx.text(c),
                                b.cx.text(d),
                            ),
                        ),
                    ),
                ),
                Stmt::Assign(Expr::Var(temp(1)), Expr::cast(narrow, Expr::Var(temp(0)))),
                Stmt::Assign(
                    Expr::Var(temp(2)),
                    Expr::Raw(plain_text(upper_part(narrow, wide, temp(0), bits))),
                ),
                Stmt::Assign(Expr::deref(narrow + " *"@, b.var(dest)), Expr::Var(temp(1))),
                Stmt::Assign(
                    Expr::deref(
                        narrow + " *"@,
                        Expr::paren(
                            Expr::binop(
                                Expr::cast("char *"@, b.var(dest)),
                                CBinOp::Add,
                                Expr::Lit(dec(size as nat)),
                            ),
                        ),
                    ),
                    Expr::Var(temp(2)),
                ),
            ]
        }),
{
    let bits = (size * 8) as u64;
    let narrow = crate::types::int_name(bits as nat, signed);
    let wide = crate::types::int_name((bits * 2) as nat, signed);
    signs_are_first(bits as nat, signed);
    signs_are_first((bits * 2) as nat, signed);
    let (xs, ys, cs, ds) = (b.cx.text(x), b.cx.text(y), b.cx.text(c), b.cx.text(d));
    let nk = Kind::Int { bits, signed };
    let wk = Kind::Int { bits: (bits * 2) as u64, signed };
    let b0 = b.intern(nk).intern(wk);
    let nt = b.cx.ty(nk);
    let wt = b.intern(nk).cx.ty(wk);
    let e1 = Expr::Raw(crate::intrinsic::wide_mul_text(wide, xs, ys, cs, ds));
    temporaries_are_assigned(b0, wt, e1);
    let (b1, v1) = b0.temp_stmt(wt, e1);
    let e2 = Expr::cast(narrow, b1.var(v1));
    temporaries_are_assigned(b1, nt, e2);
    let (b2, v2) = b1.temp_stmt(nt, e2);
    let e3 = Expr::Raw(crate::intrinsic::high_half_text(narrow, wide, b1.cx.text(v1), bits));
    temporaries_are_assigned(b2, nt, e3);
    let (b3, v3) = b2.temp_stmt(nt, e3);
    value_text_is_stable(b2.cx.values, b3.cx.values, v2.0 as nat);
    product_is_written(wide, xs, ys, cs, ds);
    upper_part_is_written(narrow, wide, b1.cx.text(v1), bits);
    let place = b.var(dest);
    let s4 = Stmt::Assign(Expr::deref(narrow + " *"@, place), b3.var(v2));
    let behind = Expr::paren(
        Expr::binop(Expr::cast("char *"@, place), CBinOp::Add, Expr::Lit(dec(size as nat))),
    );
    let s5 = Stmt::Assign(Expr::deref(narrow + " *"@, behind), b3.var(v3));
    emitted_is_last(b3, s4);
    emitted_is_last(b3.emit(s4), s5);
    assert(b3.emit(s4).emit(s5).code() =~= b.code() + seq![
        Stmt::Assign(b1.var(v1), e1),
        Stmt::Assign(b2.var(v2), e2),
        Stmt::Assign(b3.var(v3), e3),
        s4,
        s5,
    ]);
}

// --- Products of wide numbers ---

/// What the lines of a product of wide numbers define, as expressions: the halves of
/// both numbers, the products of halves, and their sums with carries.
pub open spec fn product_steps(a: Text, b: Text) -> Seq<Expr> {
    seq![
        Expr::cast("uint64_t"@, Expr::Var(a)),
        Expr::cast("uint64_t"@, Expr::paren(Expr::binop(Expr::cast("uint128_t"@, Expr::Var(a)),
            CBinOp::Shr, Expr::Lit("64"@)))),
        Expr::cast("uint64_t"@, Expr::Var(b)),
        Expr::cast("uint64_t"@, Expr::paren(Expr::binop(Expr::cast("uint128_t"@, Expr::Var(b)),
            CBinOp::Shr, Expr::Lit("64"@)))),
        Expr::binop(Expr::cast("uint128_t"@, Expr::Var("_a_lo"@)), CBinOp::Mul,
            Expr::Var("_b_lo"@)),
        Expr::binop(Expr::cast("uint128_t"@, Expr::Var("_a_hi"@)), CBinOp::Mul,
            Expr::Var("_b_lo"@)),
        Expr::binop(Expr::cast("uint128_t"@, Expr::Var("_a_lo"@)), CBinOp::Mul,
            Expr::Var("_b_hi"@)),
        Expr::binop(Expr::cast("uint128_t"@, Expr::Var("_a_hi"@)), CBinOp::Mul,
            Expr::Var("_b_hi"@)),
        Expr::binop(Expr::Var("_hi_lo"@), CBinOp::Add, Expr::Var("_lo_hi"@)),
        Expr::ternary(Expr::paren(Expr::binop(Expr::Var("_mid"@), CBinOp::Lt, Expr::Var("_hi_lo"@))),
            Expr::paren(Expr::binop(Expr::cast("uint128_t"@, Expr::Lit("1"@)), CBinOp::Shl,
            Expr::Lit("64"@))), Expr::Lit("0"@)),
        Expr::binop(Expr::Var("_lo_lo"@), CBinOp::Add, Expr::paren(Expr::binop(Expr::Var("_mid"@),
            CBinOp::Shl, Expr::Lit("64"@)))),
        Expr::ternary(Expr::paren(Expr::binop(Expr::Var("_low"@), CBinOp::Lt, Expr::Var("_lo_lo"@))),
            Expr::Lit("1"@), Expr::Lit("0"@)),
        Expr::binop(Expr::binop(Expr::binop(Expr::Var("_hi_hi"@), CBinOp::Add,
            Expr::paren(Expr::binop(Expr::Var("_mid"@), CBinOp::Shr, Expr::Lit("64"@)))),
            CBinOp::Add, Expr::Var("_carry_mid"@)), CBinOp::Add, Expr::Var("_carry_low"@)),
    ]
}

#[verifier::spinoff_prover]
#[verifier::rlimit(60)]
proof fn grouped_a_lo(a: Text)
    ensures
        "  uint64_t _a_lo = (uint64_t)"@ + a + ";"@ == "  uint64_t _a_lo = "@ + ("("@ + "uint64_t"@
            + ")"@ + a) + ";"@,
{
    reveal_strlit("  uint64_t _a_lo = (uint64_t)");
    reveal_strlit(";");
    reveal_strlit("  uint64_t _a_lo = ");
    reveal_strlit("(");
    reveal_strlit("uint64_t");
    reveal_strlit(")");
    assert("  uint64_t _a_lo = (uint64_t)"@ + a + ";"@ =~= "  uint64_t _a_lo = "@ + ("("@
        + "uint64_t"@ + ")"@ + a) + ";"@);
}

proof fn line_a_lo(a: Text, b: Text)
    ensures
        "  uint64_t _a_lo = (uint64_t)"@ + a + ";"@ == "  uint64_t _a_lo = "@
            + plain_text(product_steps(a, b)[0]) + ";"@,
{
    grouped_a_lo(a);
    assert(plain_text(Expr::Var(a)) == a);
    let e1 = Expr::cast("uint64_t"@, Expr::Var(a));
    assert(plain_text(e1) == "("@ + "uint64_t"@ + ")"@ + a);
}

#[verifier::spinoff_prover]
#[verifier::rlimit(60)]
proof fn grouped_a_hi(a: Text)
    ensures
        "  uint64_t _a_hi = (uint64_t)((uint128_t)"@ + a + " >> 64);"@ == "  uint64_t _a_hi = "@
            + ("("@ + "uint64_t"@ + ")"@ + ("("@ + (("("@ + "uint128_t"@ + ")"@ + a) + " >> "@
            + "64"@) + ")"@)) + ";"@,
{
    reveal_strlit("  uint64_t _a_hi = (uint64_t)((uint128_t)");
    reveal_strlit(" >> 64);");
    reveal_strlit("  uint64_t _a_hi = ");
    reveal_strlit("(");
    reveal_strlit("uint64_t");
    reveal_strlit(")");
    reveal_strlit("uint128_t");
    reveal_strlit(" >> ");
    reveal_strlit("64");
    reveal_strlit(";");
    assert("  uint64_t _a_hi = (uint64_t)((uint128_t)"@ + a + " >> 64);"@ =~= "  uint64_t _a_hi = "@
        + ("("@ + "uint64_t"@ + ")"@ + ("("@ + (("("@ + "uint128_t"@ + ")"@ + a) + " >> "@ + "64"@)
        + ")"@)) + ";"@);
}

proof fn line_a_hi(a: Text, b: Text)
    ensures
        "  uint64_t _a_hi = (uint64_t)((uint128_t)"@ + a + " >> 64);"@ == "  uint64_t _a_hi = "@
            + plain_text(product_steps(a, b)[1]) + ";"@,
{
    grouped_a_hi(a);
    assert(plain_text(Expr::Var(a)) == a);
    let e1 = Expr::cast("uint128_t"@, Expr::Var(a));
    assert(plain_text(e1) == "("@ + "uint128_t"@ + ")"@ + a);
    assert(plain_text(Expr::Lit("64"@)) == "64"@);
    let e2 = Expr::binop(e1, CBinOp::Shr, Expr::Lit("64"@));
    assert(plain_text(e2) == ("("@ + "uint128_t"@ + ")"@ + a) + " >> "@ + "64"@);
    let e3 = Expr::paren(e2);
    assert(plain_text(e3) == "("@ + (("("@ + "uint128_t"@ + ")"@ + a) + " >> "@ + "64"@) + ")"@);
    let e4 = Expr::cast("uint64_t"@, e3);
    assert(plain_text(e4) == "("@ + "uint64_t"@ + ")"@ + ("("@ + (("("@ + "uint128_t"@ + ")"@ + a)
        + " >> "@ + "64"@) + ")"@));
}

#[verifier::spinoff_prover]
#[verifier::rlimit(60)]
proof fn grouped_b_lo(b: Text)
    ensures
        "  uint64_t _b_lo = (uint64_t)"@ + b + ";"@ == "  uint64_t _b_lo = "@ + ("("@ + "uint64_t"@
            + ")"@ + b) + ";"@,
{
    reveal_strlit("  uint64_t _b_lo = (uint64_t)");
    reveal_strlit(";");
    reveal_strlit("  uint64_t _b_lo = ");
    reveal_strlit("(");
    reveal_strlit("uint64_t");
    reveal_strlit(")");
    assert("  uint64_t _b_lo = (uint64_t)"@ + b + ";"@ =~= "  uint64_t _b_lo = "@ + ("("@
        + "uint64_t"@ + ")"@ + b) + ";"@);
}

proof fn line_b_lo(a: Text, b: Text)
    ensures
        "  uint64_t _b_lo = (uint64_t)"@ + b + ";"@ == "  uint64_t _b_lo = "@
            + plain_text(product_steps(a, b)[2]) + ";"@,
{
    grouped_b_lo(b);
    assert(plain_text(Expr::Var(b)) == b);
    let e1 = Expr::cast("uint64_t"@, Expr::Var(b));
    assert(plain_text(e1) == "("@ + "uint64_t"@ + ")"@ + b);
}

#[verifier::spinoff_prover]
#[verifier::rlimit(60)]
proof fn grouped_b_hi(b: Text)
    ensures
        "  uint64_t _b_hi = (uint64_t)((uint128_t)"@ + b + " >> 64);"@ == "  uint64_t _b_hi = "@
            + ("("@ + "uint64_t"@ + ")"@ + ("("@ + (("("@ + "uint128_t"@ + ")"@ + b) + " >> "@
            + "64"@) + ")"@)) + ";"@,
{
    reveal_strlit("  uint64_t _b_hi = (uint64_t)((uint128_t)");
    reveal_strlit(" >> 64);");
    reveal_strlit("  uint64_t _b_hi = ");
    reveal_strlit("(");
    reveal_strlit("uint64_t");
    reveal_strlit(")");
    reveal_strlit("uint128_t");
    reveal_strlit(" >> ");
    reveal_strlit("64");
    reveal_strlit(";");
    assert("  uint64_t _b_hi = (uint64_t)((uint128_t)"@ + b + " >> 64);"@ =~= "  uint64_t _b_hi = "@
        + ("("@ + "uint64_t"@ + ")"@ + ("("@ + (("("@ + "uint128_t"@ + ")"@ + b) + " >> "@ + "64"@)
        + ")"@)) + ";"@);
}

proof fn line_b_hi(a: Text, b: Text)
    ensures
        "  uint64_t _b_hi = (uint64_t)((uint128_t)"@ + b + " >> 64);"@ == "  uint64_t _b_hi = "@
            + plain_text(product_steps(a, b)[3]) + ";"@,
{
    grouped_b_hi(b);
    assert(plain_text(Expr::Var(b)) == b);
    let e1 = Expr::cast("uint128_t"@, Expr::Var(b));
    assert(plain_text(e1) == "("@ + "uint128_t"@ + ")"@ + b);
    assert(plain_text(Expr::Lit("64"@)) == "64"@);
    let e2 = Expr::binop(e1, CBinOp::Shr, Expr::Lit("64"@));
    assert(plain_text(e2) == ("("@ + "uint128_t"@ + ")"@ + b) + " >> "@ + "64"@);
    let e3 = Expr::paren(e2);
    assert(plain_text(e3) == "("@ + (("("@ + "uint128_t"@ + ")"@ + b) + " >> "@ + "64"@) + ")"@);
    let e4 = Expr::cast("uint64_t"@, e3);
    assert(plain_text(e4) == "("@ + "uint64_t"@ + ")"@ + ("("@ + (("("@ + "uint128_t"@ + ")"@ + b)
        + " >> "@ + "64"@) + ")"@));
}

#[verifier::spinoff_prover]
#[verifier::rlimit(60)]
proof fn grouped_lo_lo()
    ensures
        "  uint128_t _lo_lo = (uint128_t)_a_lo * _b_lo;"@ == "  uint128_t _lo_lo = "@ + (("("@
            + "uint128_t"@ + ")"@ + "_a_lo"@) + " * "@ + "_b_lo"@) + ";"@,
{
    reveal_strlit("  uint128_t _lo_lo = (uint128_t)_a_lo * _b_lo;");
    reveal_strlit("  uint128_t _lo_lo = ");
    reveal_strlit("(");
    reveal_strlit("uint128_t");
    reveal_strlit(")");
    reveal_strlit("_a_lo");
    reveal_strlit(" * ");
    reveal_strlit("_b_lo");
    reveal_strlit(";");
    assert("  uint128_t _lo_lo = (uint128_t)_a_lo * _b_lo;"@ =~= "  uint128_t _lo_lo = "@ + (("("@
        + "uint128_t"@ + ")"@ + "_a_lo"@) + " * "@ + "_b_lo"@) + ";"@);
}

proof fn line_lo_lo(a: Text, b: Text)
    ensures
        "  uint128_t _lo_lo = (uint128_t)_a_lo * _b_lo;"@ == "  uint128_t _lo_lo = "@
            + plain_text(product_steps(a, b)[4]) + ";"@,
{
    grouped_lo_lo();
    assert(plain_text(Expr::Var("_a_lo"@)) == "_a_lo"@);
    let e1 = Expr::cast("uint128_t"@, Expr::Var("_a_lo"@));
    assert(plain_text(e1) == "("@ + "uint128_t"@ + ")"@ + "_a_lo"@);
    assert(plain_text(Expr::Var("_b_lo"@)) == "_b_lo"@);
    let e2 = Expr::binop(e1, CBinOp::Mul, Expr::Var("_b_lo"@));
    assert(plain_text(e2) == ("("@ + "uint128_t"@ + ")"@ + "_a_lo"@) + " * "@ + "_b_lo"@);
}

#[verifier::spinoff_prover]
#[verifier::rlimit(60)]
proof fn grouped_hi_lo()
    ensures
        "  uint128_t _hi_lo = (uint128_t)_a_hi * _b_lo;"@ == "  uint128_t _hi_lo = "@ + (("("@
            + "uint128_t"@ + ")"@ + "_a_hi"@) + " * "@ + "_b_lo"@) + ";"@,
{
    reveal_strlit("  uint128_t _hi_lo = (uint128_t)_a_hi * _b_lo;");
    reveal_strlit("  uint128_t _hi_lo = ");
    reveal_strlit("(");
    reveal_strlit("uint128_t");
    reveal_strlit(")");
    reveal_strlit("_a_hi");
    reveal_strlit(" * ");
    reveal_strlit("_b_lo");
    reveal_strlit(";");
    assert("  uint128_t _hi_lo = (uint128_t)_a_hi * _b_lo;"@ =~= "  uint128_t _hi_lo = "@ + (("("@
        + "uint128_t"@ + ")"@ + "_a_hi"@) + " * "@ + "_b_lo"@) + ";"@);
}

proof fn line_hi_lo(a: Text, b: Text)
    ensures
        "  uint128_t _hi_lo = (uint128_t)_a_hi * _b_lo;"@ == "  uint128_t _hi_lo = "@
            + plain_text(product_steps(a, b)[5]) + ";"@,
{
    grouped_hi_lo();
    assert(plain_text(Expr::Var("_a_hi"@)) == "_a_hi"@);
    let e1 = Expr::cast("uint128_t"@, Expr::Var("_a_hi"@));
    assert(plain_text(e1) == "("@ + "uint128_t"@ + ")"@ + "_a_hi"@);
    assert(plain_text(Expr::Var("_b_lo"@)) == "_b_lo"@);
    let e2 = Expr::binop(e1, CBinOp::Mul, Expr::Var("_b_lo"@));
    assert(plain_text(e2) == ("("@ + "uint128_t"@ + ")"@ + "_a_hi"@) + " * "@ + "_b_lo"@);
}

#[verifier::spinoff_prover]
#[verifier::rlimit(60)]
proof fn grouped_lo_hi()
    ensures
        "  uint128_t _lo_hi = (uint128_t)_a_lo * _b_hi;"@ == "  uint128_t _lo_hi = "@ + (("("@
            + "uint128_t"@ + ")"@ + "_a_lo"@) + " * "@ + "_b_hi"@) + ";"@,
{
    reveal_strlit("  uint128_t _lo_hi = (uint128_t)_a_lo * _b_hi;");
    reveal_strlit("  uint128_t _lo_hi = ");
    reveal_strlit("(");
    reveal_strlit("uint128_t");
    reveal_strlit(")");
    reveal_strlit("_a_lo");
    reveal_strlit(" * ");
    reveal_strlit("_b_hi");
    reveal_strlit(";");
    assert("  uint128_t _lo_hi = (uint128_t)_a_lo * _b_hi;"@ =~= "  uint128_t _lo_hi = "@ + (("("@
        + "uint128_t"@ + ")"@ + "_a_lo"@) + " * "@ + "_b_hi"@) + ";"@);
}

proof fn line_lo_hi(a: Text, b: Text)
    ensures
        "  uint128_t _lo_hi = (uint128_t)_a_lo * _b_hi;"@ == "  uint128_t _lo_hi = "@
            + plain_text(product_steps(a, b)[6]) + ";"@,
{
    grouped_lo_hi();
    assert(plain_text(Expr::Var("_a_lo"@)) == "_a_lo"@);
    let e1 = Expr::cast("uint128_t"@, Expr::Var("_a_lo"@));
    assert(plain_text(e1) == "("@ + "uint128_t"@ + ")"@ + "_a_lo"@);
    assert(plain_text(Expr::Var("_b_hi"@)) == "_b_hi"@);
    let e2 = Expr::binop(e1, CBinOp::Mul, Expr::Var("_b_hi"@));
    assert(plain_text(e2) == ("("@ + "uint128_t"@ + ")"@ + "_a_lo"@) + " * "@ + "_b_hi"@);
}

#[verifier::spinoff_prover]
#[verifier::rlimit(60)]
proof fn grouped_hi_hi()
    ensures
        "  uint128_t _hi_hi = (uint128_t)_a_hi * _b_hi;"@ == "  uint128_t _hi_hi = "@ + (("("@
            + "uint128_t"@ + ")"@ + "_a_hi"@) + " * "@ + "_b_hi"@) + ";"@,
{
    reveal_strlit("  uint128_t _hi_hi = (uint128_t)_a_hi * _b_hi;");
    reveal_strlit("  uint128_t _hi_hi = ");
    reveal_strlit("(");
    reveal_strlit("uint128_t");
    reveal_strlit(")");
    reveal_strlit("_a_hi");
    reveal_strlit(" * ");
    reveal_strlit("_b_hi");
    reveal_strlit(";");
    assert("  uint128_t _hi_hi = (uint128_t)_a_hi * _b_hi;"@ =~= "  uint128_t _hi_hi = "@ + (("("@
        + "uint128_t"@ + ")"@ + "_a_hi"@) + " * "@ + "_b_hi"@) + ";"@);
}

proof fn line_hi_hi(a: Text, b: Text)
    ensures
        "  uint128_t _hi_hi = (uint128_t)_a_hi * _b_hi;"@ == "  uint128_t _hi_hi = "@
            + plain_text(product_steps(a, b)[7]) + ";"@,
{
    grouped_hi_hi();
    assert(plain_text(Expr::Var("_a_hi"@)) == "_a_hi"@);
    let e1 = Expr::cast("uint128_t"@, Expr::Var("_a_hi"@));
    assert(plain_text(e1) == "("@ + "uint128_t"@ + ")"@ + "_a_hi"@);
    assert(plain_text(Expr::Var("_b_hi"@)) == "_b_hi"@);
    let e2 = Expr::binop(e1, CBinOp::Mul, Expr::Var("_b_hi"@));
    assert(plain_text(e2) == ("("@ + "uint128_t"@ + ")"@ + "_a_hi"@) + " * "@ + "_b_hi"@);
}

#[verifier::spinoff_prover]
#[verifier::rlimit(60)]
proof fn grouped_mid()
    ensures
        "  uint128_t _mid = _hi_lo + _lo_hi;"@ == "  uint128_t _mid = "@ + ("_hi_lo"@ + " + "@
            + "_lo_hi"@) + ";"@,
{
    reveal_strlit("  uint128_t _mid = _hi_lo + _lo_hi;");
    reveal_strlit("  uint128_t _mid = ");
    reveal_strlit("_hi_lo");
    reveal_strlit(" + ");
    reveal_strlit("_lo_hi");
    reveal_strlit(";");
    assert("  uint128_t _mid = _hi_lo + _lo_hi;"@ =~= "  uint128_t _mid = "@ + ("_hi_lo"@ + " + "@
        + "_lo_hi"@) + ";"@);
}

proof fn line_mid(a: Text, b: Text)
    ensures
        "  uint128_t _mid = _hi_lo + _lo_hi;"@ == "  uint128_t _mid = "@
            + plain_text(product_steps(a, b)[8]) + ";"@,
{
    grouped_mid();
    assert(plain_text(Expr::Var("_hi_lo"@)) == "_hi_lo"@);
    assert(plain_text(Expr::Var("_lo_hi"@)) == "_lo_hi"@);
    let e1 = Expr::binop(Expr::Var("_hi_lo"@), CBinOp::Add, Expr::Var("_lo_hi"@));
    assert(plain_text(e1) == "_hi_lo"@ + " + "@ + "_lo_hi"@);
}

#[verifier::spinoff_prover]
#[verifier::rlimit(60)]
proof fn grouped_carry_mid()
    ensures
        "  uint128_t _carry_mid = (_mid < _hi_lo) ? ((uint128_t)1 << 64) : 0;"@
            == "  uint128_t _carry_mid = "@ + (("("@ + ("_mid"@ + " < "@ + "_hi_lo"@) + ")"@)
            + " ? "@ + ("("@ + (("("@ + "uint128_t"@ + ")"@ + "1"@) + " << "@ + "64"@) + ")"@)
            + " : "@ + "0"@) + ";"@,
{
    reveal_strlit("  uint128_t _carry_mid = (_mid < _hi_lo) ? ((uint128_t)1 << 64) : 0;");
    reveal_strlit("  uint128_t _carry_mid = ");
    reveal_strlit("(");
    reveal_strlit("_mid");
    reveal_strlit(" < ");
    reveal_strlit("_hi_lo");
    reveal_strlit(")");
    reveal_strlit(" ? ");
    reveal_strlit("uint128_t");
    reveal_strlit("1");
    reveal_strlit(" << ");
    reveal_strlit("64");
    reveal_strlit(" : ");
    reveal_strlit("0");
    reveal_strlit(";");
    assert("  uint128_t _carry_mid = (_mid < _hi_lo) ? ((uint128_t)1 << 64) : 0;"@
        =~= "  uint128_t _carry_mid = "@ + (("("@ + ("_mid"@ + " < "@ + "_hi_lo"@) + ")"@) + " ? "@
        + ("("@ + (("("@ + "uint128_t"@ + ")"@ + "1"@) + " << "@ + "64"@) + ")"@) + " : "@ + "0"@)
        + ";"@);
}

proof fn line_carry_mid(a: Text, b: Text)
    ensures
        "  uint128_t _carry_mid = (_mid < _hi_lo) ? ((uint128_t)1 << 64) : 0;"@
            == "  uint128_t _carry_mid = "@ + plain_text(product_steps(a, b)[9]) + ";"@,
{
    grouped_carry_mid();
    assert(plain_text(Expr::Var("_mid"@)) == "_mid"@);
    assert(plain_text(Expr::Var("_hi_lo"@)) == "_hi_lo"@);
    let e1 = Expr::binop(Expr::Var("_mid"@), CBinOp::Lt, Expr::Var("_hi_lo"@));
    assert(plain_text(e1) == "_mid"@ + " < "@ + "_hi_lo"@);
    let e2 = Expr::paren(e1);
    assert(plain_text(e2) == "("@ + ("_mid"@ + " < "@ + "_hi_lo"@) + ")"@);
    assert(plain_text(Expr::Lit("1"@)) == "1"@);
    let e3 = Expr::cast("uint128_t"@, Expr::Lit("1"@));
    assert(plain_text(e3) == "("@ + "uint128_t"@ + ")"@ + "1"@);
    assert(plain_text(Expr::Lit("64"@)) == "64"@);
    let e4 = Expr::binop(e3, CBinOp::Shl, Expr::Lit("64"@));
    assert(plain_text(e4) == ("("@ + "uint128_t"@ + ")"@ + "1"@) + " << "@ + "64"@);
    let e5 = Expr::paren(e4);
    assert(plain_text(e5) == "("@ + (("("@ + "uint128_t"@ + ")"@ + "1"@) + " << "@ + "64"@) + ")"@);
    assert(plain_text(Expr::Lit("0"@)) == "0"@);
    let e6 = Expr::ternary(e2, e5, Expr::Lit("0"@));
    assert(plain_text(e6) == ("("@ + ("_mid"@ + " < "@ + "_hi_lo"@) + ")"@) + " ? "@ + ("("@
        + (("("@ + "uint128_t"@ + ")"@ + "1"@) + " << "@ + "64"@) + ")"@) + " : "@ + "0"@);
}

#[verifier::spinoff_prover]
#[verifier::rlimit(60)]
proof fn grouped_low()
    ensures
        "  uint128_t _low = _lo_lo + (_mid << 64);"@ == "  uint128_t _low = "@ + ("_lo_lo"@ + " + "@
            + ("("@ + ("_mid"@ + " << "@ + "64"@) + ")"@)) + ";"@,
{
    reveal_strlit("  uint128_t _low = _lo_lo + (_mid << 64);");
    reveal_strlit("  uint128_t _low = ");
    reveal_strlit("_lo_lo");
    reveal_strlit(" + ");
    reveal_strlit("(");
    reveal_strlit("_mid");
    reveal_strlit(" << ");
    reveal_strlit("64");
    reveal_strlit(")");
    reveal_strlit(";");
    assert("  uint128_t _low = _lo_lo + (_mid << 64);"@ =~= "  uint128_t _low = "@ + ("_lo_lo"@
        + " + "@ + ("("@ + ("_mid"@ + " << "@ + "64"@) + ")"@)) + ";"@);
}

proof fn line_low(a: Text, b: Text)
    ensures
        "  uint128_t _low = _lo_lo + (_mid << 64);"@ == "  uint128_t _low = "@
            + plain_text(product_steps(a, b)[10]) + ";"@,
{
    grouped_low();
    assert(plain_text(Expr::Var("_lo_lo"@)) == "_lo_lo"@);
    assert(plain_text(Expr::Var("_mid"@)) == "_mid"@);
    assert(plain_text(Expr::Lit("64"@)) == "64"@);
    let e1 = Expr::binop(Expr::Var("_mid"@), CBinOp::Shl, Expr::Lit("64"@));
    assert(plain_text(e1) == "_mid"@ + " << "@ + "64"@);
    let e2 = Expr::paren(e1);
    assert(plain_text(e2) == "("@ + ("_mid"@ + " << "@ + "64"@) + ")"@);
    let e3 = Expr::binop(Expr::Var("_lo_lo"@), CBinOp::Add, e2);
    assert(plain_text(e3) == "_lo_lo"@ + " + "@ + ("("@ + ("_mid"@ + " << "@ + "64"@) + ")"@));
}

#[verifier::spinoff_prover]
#[verifier::rlimit(60)]
proof fn grouped_carry_low()
    ensures
        "  uint128_t _carry_low = (_low < _lo_lo) ? 1 : 0;"@ == "  uint128_t _carry_low = "@
            + (("("@ + ("_low"@ + " < "@ + "_lo_lo"@) + ")"@) + " ? "@ + "1"@ + " : "@ + "0"@)
            + ";"@,
{
    reveal_strlit("  uint128_t _carry_low = (_low < _lo_lo) ? 1 : 0;");
    reveal_strlit("  uint128_t _carry_low = ");
    reveal_strlit("(");
    reveal_strlit("_low");
    reveal_strlit(" < ");
    reveal_strlit("_lo_lo");
    reveal_strlit(")");
    reveal_strlit(" ? ");
    reveal_strlit("1");
    reveal_strlit(" : ");
    reveal_strlit("0");
    reveal_strlit(";");
    assert("  uint128_t _carry_low = (_low < _lo_lo) ? 1 : 0;"@ =~= "  uint128_t _carry_low = "@
        + (("("@ + ("_low"@ + " < "@ + "_lo_lo"@) + ")"@) + " ? "@ + "1"@ + " : "@ + "0"@) + ";"@);
}

proof fn line_carry_low(a: Text, b: Text)
    ensures
        "  uint128_t _carry_low = (_low < _lo_lo) ? 1 : 0;"@ == "  uint128_t _carry_low = "@
            + plain_text(product_steps(a, b)[11]) + ";"@,
{
    grouped_carry_low();
    assert(plain_text(Expr::Var("_low"@)) == "_low"@);
    assert(plain_text(Expr::Var("_lo_lo"@)) == "_lo_lo"@);
    let e1 = Expr::binop(Expr::Var("_low"@), CBinOp::Lt, Expr::Var("_lo_lo"@));
    assert(plain_text(e1) == "_low"@ + " < "@ + "_lo_lo"@);
    let e2 = Expr::paren(e1);
    assert(plain_text(e2) == "("@ + ("_low"@ + " < "@ + "_lo_lo"@) + ")"@);
    assert(plain_text(Expr::Lit("1"@)) == "1"@);
    assert(plain_text(Expr::Lit("0"@)) == "0"@);
    let e3 = Expr::ternary(e2, Expr::Lit("1"@), Expr::Lit("0"@));
    assert(plain_text(e3) == ("("@ + ("_low"@ + " < "@ + "_lo_lo"@) + ")"@) + " ? "@ + "1"@ + " : "@
        + "0"@);
}

#[verifier::spinoff_prover]
#[verifier::rlimit(60)]
proof fn grouped_high()
    ensures
        "  uint128_t _high = _hi_hi + (_mid >> 64) + _carry_mid + _carry_low;"@
            == "  uint128_t _high = "@ + ((("_hi_hi"@ + " + "@ + ("("@ + ("_mid"@ + " >> "@ + "64"@)
            + ")"@)) + " + "@ + "_carry_mid"@) + " + "@ + "_carry_low"@) + ";"@,
{
    reveal_strlit("  uint128_t _high = _hi_hi + (_mid >> 64) + _carry_mid + _carry_low;");
    reveal_strlit("  uint128_t _high = ");
    reveal_strlit("_hi_hi");
    reveal_strlit(" + ");
    reveal_strlit("(");
    reveal_strlit("_mid");
    reveal_strlit(" >> ");
    reveal_strlit("64");
    reveal_strlit(")");
    reveal_strlit("_carry_mid");
    reveal_strlit("_carry_low");
    reveal_strlit(";");
    assert("  uint128_t _high = _hi_hi + (_mid >> 64) + _carry_mid + _carry_low;"@
        =~= "  uint128_t _high = "@ + ((("_hi_hi"@ + " + "@ + ("("@ + ("_mid"@ + " >> "@ + "64"@)
        + ")"@)) + " + "@ + "_carry_mid"@) + " + "@ + "_carry_low"@) + ";"@);
}

proof fn line_high(a: Text, b: Text)
    ensures
        "  uint128_t _high = _hi_hi + (_mid >> 64) + _carry_mid + _carry_low;"@
            == "  uint128_t _high = "@ + plain_text(product_steps(a, b)[12]) + ";"@,
{
    grouped_high();
    assert(plain_text(Expr::Var("_hi_hi"@)) == "_hi_hi"@);
    assert(plain_text(Expr::Var("_mid"@)) == "_mid"@);
    assert(plain_text(Expr::Lit("64"@)) == "64"@);
    let e1 = Expr::binop(Expr::Var("_mid"@), CBinOp::Shr, Expr::Lit("64"@));
    assert(plain_text(e1) == "_mid"@ + " >> "@ + "64"@);
    let e2 = Expr::paren(e1);
    assert(plain_text(e2) == "("@ + ("_mid"@ + " >> "@ + "64"@) + ")"@);
    let e3 = Expr::binop(Expr::Var("_hi_hi"@), CBinOp::Add, e2);
    assert(plain_text(e3) == "_hi_hi"@ + " + "@ + ("("@ + ("_mid"@ + " >> "@ + "64"@) + ")"@));
    assert(plain_text(Expr::Var("_carry_mid"@)) == "_carry_mid"@);
    let e4 = Expr::binop(e3, CBinOp::Add, Expr::Var("_carry_mid"@));
    assert(plain_text(e4) == ("_hi_hi"@ + " + "@ + ("("@ + ("_mid"@ + " >> "@ + "64"@) + ")"@))
        + " + "@ + "_carry_mid"@);
    assert(plain_text(Expr::Var("_carry_low"@)) == "_carry_low"@);
    let e5 = Expr::binop(e4, CBinOp::Add, Expr::Var("_carry_low"@));
    assert(plain_text(e5) == (("_hi_hi"@ + " + "@ + ("("@ + ("_mid"@ + " >> "@ + "64"@) + ")"@))
        + " + "@ + "_carry_mid"@) + " + "@ + "_carry_low"@);
}

/// The lines of a product of wide numbers define its steps, in order; then both added
/// numbers are added with their carries, and the lower part is written at the
/// destination and the upper part behind it.
pub proof fn wide_products_are_written(
    a: Text,
    b: Text,
    c: Text,
    d: Text,
    t: Text,
    dest: Text,
    n: Text,
)
    ensures
        ({
            let lines = crate::intrinsic::wide_mul_lines(a, b, c, d, t, dest, n);
            let heads = seq![
                "  uint64_t _a_lo = "@,
                "  uint64_t _a_hi = "@,
                "  uint64_t _b_lo = "@,
                "  uint64_t _b_hi = "@,
                "  uint128_t _lo_lo = "@,
                "  uint128_t _hi_lo = "@,
                "  uint128_t _lo_hi = "@,
                "  uint128_t _hi_hi = "@,
                "  uint128_t _mid = "@,
                "  uint128_t _carry_mid = "@,
                "  uint128_t _low = "@,
                "  uint128_t _carry_low = "@,
                "  uint128_t _high = "@,
            ];
            let carry = |v: Text|
                (
                    "  _low += (uint128_t)"@ + v + ";"@,
                    "  if (_low < (uint128_t)"@ + v + ") _high += 1;"@,
                );
            &&& lines.len() == 21
            &&& forall|i: int|
                1 <= i <= 13 ==> #[trigger] lines[i] == heads[i - 1] + plain_text(
                    product_steps(a, b)[i - 1],
                ) + ";"@
            &&& (lines[14], lines[15]) == carry(c)
            &&& (lines[16], lines[17]) == carry(d)
            &&& lines[18] == "  *(("@ + t + " *)"@ + dest + ") = ("@ + t + ")_low;"@
            &&& lines[19] == "  *(("@ + t + " *)((char *)"@ + dest + " + "@ + n + ")) = ("@ + t
                + ")_high;"@
            &&& lines[20] == "}"@
        }),
{
    line_a_lo(a, b);
    line_a_hi(a, b);
    line_b_lo(a, b);
    line_b_hi(a, b);
    line_lo_lo(a, b);
    line_hi_lo(a, b);
    line_lo_hi(a, b);
    line_hi_hi(a, b);
    line_mid(a, b);
    line_carry_mid(a, b);
    line_low(a, b);
    line_carry_low(a, b);
    line_high(a, b);
}

/// The names that the lines of a product of wide numbers define.
pub open spec fn step_names() -> Seq<Text> {
    seq![
        "_a_lo"@,
        "_a_hi"@,
        "_b_lo"@,
        "_b_hi"@,
        "_lo_lo"@,
        "_hi_lo"@,
        "_lo_hi"@,
        "_hi_hi"@,
        "_mid"@,
        "_carry_mid"@,
        "_low"@,
        "_carry_low"@,
        "_high"@,
    ]
}

/// Whether the names of a product stand for what the lines define, in the width of
/// their types.
pub open spec fn steps_are_taken(m: Meaning, a: Text, b: Text) -> bool {
    forall|i: int|
        0 <= i < 13 ==> (m.names)(#[trigger] step_names()[i]) == wrapped_to(
            m.eval(product_steps(a, b)[i]),
            if i < 4 {
                64
            } else {
                128
            },
            false,
        )
}

proof fn long_multiplication(
    x: int,
    y: int,
    p: int,
    xl: int,
    xh: int,
    yl: int,
    yh: int,
    mid: int,
    q: int,
    mh: int,
    ml: int,
    low: int,
    r: int,
)
    requires
        x == xh * p + xl,
        y == yh * p + yl,
        xh * yl + xl * yh == mid + q * (p * p),
        mid == mh * p + ml,
        xl * yl + ml * p == low + r * (p * p),
    ensures
        (xh * yh + mh + q * p + r) * (p * p) + low == x * y,
{
    let (hh, hl, lh, ll) = (xh * yh, xh * yl, xl * yh, xl * yl);
    let (u, v) = (xh * p, yh * p);
    vstd::arithmetic::mul::lemma_mul_is_distributive_add_other_way(y, u, xl);
    vstd::arithmetic::mul::lemma_mul_is_distributive_add(u, v, yl);
    vstd::arithmetic::mul::lemma_mul_is_distributive_add(xl, v, yl);
    assert(u * v == hh * (p * p)) by (nonlinear_arith)
        requires
            u == xh * p,
            v == yh * p,
            hh == xh * yh,
    ;
    assert(u * yl == hl * p) by (nonlinear_arith)
        requires
            u == xh * p,
            hl == xh * yl,
    ;
    assert(xl * v == lh * p) by (nonlinear_arith)
        requires
            v == yh * p,
            lh == xl * yh,
    ;
    vstd::arithmetic::mul::lemma_mul_is_distributive_add_other_way(p, hl, lh);
    assert(x * y == hh * (p * p) + (hl + lh) * p + ll);
    let s = hl + lh;
    assert(s * p == (mh * p + ml + q * (p * p)) * p);
    assert((mh * p + ml + q * (p * p)) * p == (mh + q * p) * (p * p) + ml * p) by (nonlinear_arith);
    assert((hh + mh + q * p + r) * (p * p) == hh * (p * p) + (mh + q * p) * (p * p) + r * (p * p))
        by (nonlinear_arith);
}

/// What a sum leaves of its modulus: it was exceeded once where less is left than one
/// of its parts was, and not at all where not.
proof fn sums_exceed_once(x: int, y: int, n: int)
    requires
        0 <= x < n,
        0 <= y < n,
    ensures
        (x + y) % n < x ==> x + y == (x + y) % n + n,
        (x + y) % n >= x ==> x + y == (x + y) % n,
{
    if x + y < n {
        vstd::arithmetic::div_mod::lemma_small_mod((x + y) as nat, n as nat);
    } else {
        vstd::arithmetic::div_mod::lemma_mod_multiples_vanish(-1, x + y, n);
        vstd::arithmetic::div_mod::lemma_small_mod((x + y - n) as nat, n as nat);
    }
}

proof fn small_products(x: int, y: int, p: int)
    requires
        0 <= x < p,
        0 <= y < p,
    ensures
        0 <= x * y <= (p - 1) * (p - 1),
        (p - 1) * (p - 1) + 2 * (p - 1) < p * p,
        p <= p * p,
{
    assert(0 <= x * y <= (p - 1) * (p - 1)) by (nonlinear_arith)
        requires
            0 <= x < p,
            0 <= y < p,
    ;
    assert((p - 1) * (p - 1) + 2 * (p - 1) < p * p) by (nonlinear_arith);
    assert(p <= p * p) by (nonlinear_arith)
        requires
            p >= 1,
    ;
}

/// The steps of a product of wide numbers give the product: the upper part counts how
/// often the lower part exceeded its width.
#[verifier::rlimit(60)]
pub proof fn wide_products_carry_over(m: Meaning, a: Text, b: Text)
    requires
        crate::counting::counts_bits(m),
        steps_are_taken(m, a, b),
        fits((m.names)(a), 128, false),
        fits((m.names)(b), 128, false),
    ensures
        (m.names)("_high"@) * pow2(128) + (m.names)("_low"@) == (m.names)(a) * (m.names)(b),
{
    let (x, y) = ((m.names)(a), (m.names)(b));
    let p = pow2(64) as int;
    let pp = pow2(128) as int;
    vstd::arithmetic::power2::lemma_pow2_adds(64, 64);
    vstd::arithmetic::power2::lemma_pow2_pos(64);
    assert(pp == p * p);
    let n = step_names();
    let e = product_steps(a, b);
    halves_are_taken(m, a, e[0], e[1]);
    halves_are_taken(m, b, e[2], e[3]);
    assert((m.names)(n[0]) == x % p && (m.names)(n[1]) == x / p);
    assert((m.names)(n[2]) == y % p && (m.names)(n[3]) == y / p);
    let (xl, xh, yl, yh) = (x % p, x / p, y % p, y / p);
    crate::counting::halves_of(x);
    crate::counting::halves_of(y);
    small_products(xl, yl, p);
    small_products(xh, yl, p);
    small_products(xl, yh, p);
    small_products(xh, yh, p);
    products_are_taken(m, "_a_lo"@, "_b_lo"@, e[4]);
    products_are_taken(m, "_a_hi"@, "_b_lo"@, e[5]);
    products_are_taken(m, "_a_lo"@, "_b_hi"@, e[6]);
    products_are_taken(m, "_a_hi"@, "_b_hi"@, e[7]);
    let (ll, hl, lh, hh) = (xl * yl, xh * yl, xl * yh, xh * yh);
    assert((m.names)(n[4]) == ll);
    assert((m.names)(n[5]) == hl);
    assert((m.names)(n[6]) == lh);
    assert((m.names)(n[7]) == hh);
    // The sum of the middle products.
    reveal_with_fuel(Meaning::eval, 2);
    assert(m.eval(e[8]) == hl + lh);
    let mid = (hl + lh) % pp;
    assert((m.names)(n[8]) == mid);
    sums_exceed_once(hl, lh, pp);
    let q: int = if mid < hl {
        1
    } else {
        0
    };
    carries_are_taken(m);
    let more = Expr::paren(Expr::binop(Expr::Var("_mid"@), CBinOp::Lt, Expr::Var("_hi_lo"@)));
    let one = Expr::paren(
        Expr::binop(
            Expr::cast("uint128_t"@, Expr::Lit("1"@)),
            CBinOp::Shl,
            Expr::Lit("64"@),
        ),
    );
    assert(m.eval(one) == p);
    assert(m.eval(more) == q) by {
        assert(m.eval(Expr::Var("_mid"@)) == mid && m.eval(Expr::Var("_hi_lo"@)) == hl);
    }
    assert(m.eval(Expr::Lit("0"@)) == 0);
    assert(m.eval(e[9]) == q * p);
    wrapping_keeps_low_bits(q * p, 128, false, false);
    assert((m.names)(n[9]) == q * p);
    // The lower part.
    vstd::arithmetic::div_mod::lemma_fundamental_div_mod(mid, p);
    vstd::arithmetic::div_mod::lemma_mod_bound(mid, p);
    vstd::arithmetic::div_mod::lemma_div_pos_is_pos(mid, p);
    let (mh, ml) = (mid / p, mid % p);
    assert(mid == mh * p + ml) by {
        vstd::arithmetic::mul::lemma_mul_is_commutative(p, mh);
    }
    let shifted = Expr::paren(Expr::binop(Expr::Var("_mid"@), CBinOp::Shl, Expr::Lit("64"@)));
    assert(m.eval(shifted) == mid * p) by {
        assert(m.eval(Expr::Var("_mid"@)) == mid && m.eval(Expr::Lit("64"@)) == 64);
        assert(m.eval(Expr::binop(Expr::Var("_mid"@), CBinOp::Shl, Expr::Lit("64"@))) == mid * p);
    }
    assert(m.eval(Expr::Var("_lo_lo"@)) == ll);
    assert(m.eval(e[10]) == ll + mid * p);
    let low = (ll + ml * p) % pp;
    assert((ll + mid * p) % pp == low) by {
        assert(ll + mid * p == pp * mh + (ll + ml * p)) by (nonlinear_arith)
            requires
                mid == mh * p + ml,
                pp == p * p,
        ;
        vstd::arithmetic::div_mod::lemma_mod_multiples_vanish(mh, ll + ml * p, pp);
    }
    assert((m.names)(n[10]) == low);
    assert(0 <= ml * p < pp) by (nonlinear_arith)
        requires
            0 <= ml < p,
            pp == p * p,
    ;
    sums_exceed_once(ll, ml * p, pp);
    let r: int = if low < ll {
        1
    } else {
        0
    };
    let less = Expr::paren(Expr::binop(Expr::Var("_low"@), CBinOp::Lt, Expr::Var("_lo_lo"@)));
    assert(m.eval(less) == r) by {
        assert(m.eval(Expr::Var("_low"@)) == low && m.eval(Expr::Var("_lo_lo"@)) == ll);
    }
    assert(m.eval(Expr::Lit("1"@)) == 1);
    assert(m.eval(e[11]) == r);
    wrapping_keeps_low_bits(r, 128, false, false);
    assert((m.names)(n[11]) == r);
    // The upper part.
    let upper = Expr::paren(Expr::binop(Expr::Var("_mid"@), CBinOp::Shr, Expr::Lit("64"@)));
    assert(m.eval(upper) == mh) by {
        assert(m.eval(Expr::Var("_mid"@)) == mid && m.eval(Expr::Lit("64"@)) == 64);
        assert(m.eval(Expr::binop(Expr::Var("_mid"@), CBinOp::Shr, Expr::Lit("64"@))) == mh);
    }
    let s1 = Expr::binop(Expr::Var("_hi_hi"@), CBinOp::Add, upper);
    assert(m.eval(Expr::Var("_hi_hi"@)) == hh);
    assert(m.eval(s1) == hh + mh);
    let s2 = Expr::binop(s1, CBinOp::Add, Expr::Var("_carry_mid"@));
    assert(m.eval(Expr::Var("_carry_mid"@)) == q * p);
    assert(m.eval(s2) == hh + mh + q * p);
    assert(m.eval(Expr::Var("_carry_low"@)) == r);
    assert(m.eval(e[12]) == hh + mh + q * p + r);
    let high = hh + mh + q * p + r;
    long_multiplication(x, y, p, xl, xh, yl, yh, mid, q, mh, ml, low, r);
    assert(0 <= high < pp) by {
        small_products_of_wide(x, y, pp, high, low);
    }
    wrapping_keeps_low_bits(high, 128, false, false);
    assert((m.names)(n[12]) == high);
}

proof fn small_products_of_wide(x: int, y: int, n: int, high: int, low: int)
    requires
        0 <= x < n,
        0 <= y < n,
        0 <= low < n,
        high * n + low == x * y,
    ensures
        0 <= high < n,
{
    assert(0 <= high < n) by (nonlinear_arith)
        requires
            0 <= x < n,
            0 <= y < n,
            0 <= low < n,
            high * n + low == x * y,
    {
        assert(x * y <= (n - 1) * (n - 1));
        assert(0 <= x * y);
        if high < 0 {
            assert(high * n <= -n);
        }
        if high >= n {
            assert(high * n >= n * n);
        }
    }
}

proof fn carries_are_taken(m: Meaning)
    requires
        crate::counting::counts_bits(m),
    ensures
        m.eval(
            Expr::paren(
                Expr::binop(
                    Expr::cast("uint128_t"@, Expr::Lit("1"@)),
                    CBinOp::Shl,
                    Expr::Lit("64"@),
                ),
            ),
        ) == pow2(64),
{
    crate::meaning::unsigned_words_have_widths(m.ptr_bits);
    vstd::arithmetic::power2::lemma_pow2_pos(128);
    vstd::arithmetic::power2::lemma_pow2_strictly_increases(0, 128);
    vstd::arithmetic::power2::lemma2_to64();
    wrapping_keeps_low_bits(1, 128, false, false);
    let one = Expr::cast("uint128_t"@, Expr::Lit("1"@));
    assert(m.eval(Expr::Lit("1"@)) == 1 && m.eval(Expr::Lit("64"@)) == 64);
    assert(m.eval(one) == 1);
    let shifted = Expr::binop(one, CBinOp::Shl, Expr::Lit("64"@));
    assert(m.eval(shifted) == 1 * pow2(64));
}

proof fn halves_are_taken(m: Meaning, a: Text, l: Expr, h: Expr)
    requires
        crate::counting::counts_bits(m),
        fits((m.names)(a), 128, false),
        l == Expr::cast("uint64_t"@, Expr::Var(a)),
        h == Expr::cast(
            "uint64_t"@,
            Expr::paren(
                Expr::binop(
                    Expr::cast("uint128_t"@, Expr::Var(a)),
                    CBinOp::Shr,
                    Expr::Lit("64"@),
                ),
            ),
        ),
    ensures
        wrapped_to(m.eval(l), 64, false) == (m.names)(a) % (pow2(64) as int),
        wrapped_to(m.eval(h), 64, false) == (m.names)(a) / (pow2(64) as int),
{
    let x = (m.names)(a);
    crate::meaning::unsigned_words_have_widths(m.ptr_bits);
    crate::counting::halves_of(x);
    wrapping_keeps_low_bits(x, 128, false, false);
    wrapping_keeps_low_bits(x, 64, false, false);
    wrapping_keeps_low_bits(x / (pow2(64) as int), 64, false, false);
    assert(m.eval(Expr::Var(a)) == x && m.eval(Expr::Lit("64"@)) == 64);
    let wide = Expr::cast("uint128_t"@, Expr::Var(a));
    assert(m.eval(wide) == x);
    let shifted = Expr::binop(wide, CBinOp::Shr, Expr::Lit("64"@));
    assert(m.eval(shifted) == x / (pow2(64) as int));
    assert(m.eval(Expr::paren(shifted)) == x / (pow2(64) as int));
}

proof fn products_are_taken(m: Meaning, v: Text, w: Text, e: Expr)
    requires
        0 <= (m.names)(v) < pow2(64),
        0 <= (m.names)(w) < pow2(64),
        e == Expr::binop(Expr::cast("uint128_t"@, Expr::Var(v)), CBinOp::Mul, Expr::Var(w)),
    ensures
        wrapped_to(m.eval(e), 128, false) == (m.names)(v) * (m.names)(w),
{
    let (x, y) = ((m.names)(v), (m.names)(w));
    vstd::arithmetic::power2::lemma_pow2_adds(64, 64);
    vstd::arithmetic::power2::lemma_pow2_pos(64);
    crate::meaning::unsigned_words_have_widths(m.ptr_bits);
    small_products(x, y, pow2(64) as int);
    wrapping_keeps_low_bits(x, 128, false, false);
    wrapping_keeps_low_bits(x * y, 128, false, false);
    assert(m.eval(Expr::Var(v)) == x && m.eval(Expr::Var(w)) == y);
    assert(m.eval(Expr::cast("uint128_t"@, Expr::Var(v))) == x);
    assert(m.eval(e) == x * y);
}

/// A number that is added carries over where the lower part becomes less than it.
pub proof fn added_numbers_carry_over(low: int, high: int, c: int)
    requires
        0 <= low < pow2(128),
        0 <= c < pow2(128),
    ensures
        ({
            let sum = wrapped_to(low + c, 128, false);
            let carried = if sum < c {
                high + 1
            } else {
                high
            };
            carried * pow2(128) + sum == high * pow2(128) + low + c
        }),
{
    sums_exceed_once(c, low, pow2(128) as int);
    assert((high + 1) * pow2(128) == high * pow2(128) + pow2(128)) by (nonlinear_arith);
}

proof fn lines_are_emitted(b: Bx, lines: Seq<Text>, n: nat)
    requires
        b.at_block(),
        n <= lines.len(),
    ensures
        b.emit_lines(lines, n).at_block(),
        b.emit_lines(lines, n).code() == b.code() + Seq::new(n, |i: int| Stmt::Raw(lines[i])),
    decreases n,
{
    if n == 0 {
        assert(b.code() =~= b.code() + Seq::new(0, |i: int| Stmt::Raw(lines[i])));
    } else {
        let k = (n - 1) as nat;
        lines_are_emitted(b, lines, k);
        emitted_is_last(b.emit_lines(lines, k), Stmt::Raw(lines[n - 1]));
        assert(b.emit_lines(lines, n).code() =~= b.code() + Seq::new(
            n,
            |i: int| Stmt::Raw(lines[i]),
        ));
    }
}

/// A multiplication with carries of more than 64 bits is the lines of a product of wide
/// numbers, of its operands in order.
pub proof fn wide_products_are_emitted(
    b: Bx,
    x: ValueRef,
    y: ValueRef,
    c: ValueRef,
    d: ValueRef,
    dest: ValueRef,
    size: u64,
    signed: bool,
)
    requires
        b.at_block(),
        8 < size <= 16,
    ensures
        ({
            let lines = crate::intrinsic::wide_mul_lines(
                b.cx.text(x),
                b.cx.text(y),
                b.cx.text(c),
                b.cx.text(d),
                if signed {
                    "int128_t"@
                } else {
                    "uint128_t"@
                },
                b.cx.text(dest),
                dec(size as nat),
            );
            b.codegen_carrying_mul_add(x, y, c, d, dest, size, signed).code() == b.code()
                + Seq::new(21, |i: int| Stmt::Raw(lines[i]))
        }),
{
    let b1 = b.intern(Kind::Int { bits: (size * 8) as u64, signed });
    let lines = crate::intrinsic::wide_mul_lines(
        b.cx.text(x),
        b.cx.text(y),
        b.cx.text(c),
        b.cx.text(d),
        if signed {
            "int128_t"@
        } else {
            "uint128_t"@
        },
        b.cx.text(dest),
        dec(size as nat),
    );
    lines_are_emitted(b1, lines, lines.len());
    assert(lines.len() == 21);
}

} // verus!
