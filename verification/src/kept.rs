//! What conversions and copies keep: bits, truth values, and what is repeated.
use vstd::prelude::*;

use crate::builder::{unsigned_kind, Bx};
use crate::c_ast::{CBinOp, Expr, Stmt};
use crate::context::{cx_ok, Cx};
use crate::data::{digits_value, hexadecimal_is_read_back};
use crate::layout::Scalar;
use crate::meaning::{
    assigned_is_given, emitted_is_last, fits, interned_kind, locals_run_nothing, plain_text,
    reads_literals, temporaries_are_assigned, truth, type_names_say_the_width,
    unsigned_names_say_the_width, wrapped_to, wrapping_keeps_low_bits, Meaning,
};
use crate::numbers::{cast_gives, cast_result, type_width};
use crate::params::{memset_text, repeat_text};
use crate::text::{dec, hex_fixed, join, sdec, Text};
use crate::types::{Kind, TypeRef};
use crate::values::{float_text, value_text, value_text_is_stable, ValKind, Value, ValueRef};

verus! {

// --- Conversions ---

/// A floating-point number that an unsigned integer holds is converted to the bits of
/// that integer, whatever the sign of the type.
pub open spec fn unsigned_bits(b: Bx, v: ValueRef, t: TypeRef, m: Meaning, n: int) -> bool {
    m.ptr_bits == b.cx.ptr_bytes * 8 ==> match type_width(b.cx, t) {
        Some((bits, signed)) => bits > 0 && fits(m.of(b, v), bits, false) ==> n == wrapped_to(
            m.of(b, v),
            bits,
            signed,
        ) && wrapped_to(n, bits, false) == m.of(b, v),
        None => true,
    }
}

/// A conversion to an unsigned integer gives its bits.
pub proof fn conversions_give_unsigned_bits(b: Bx, v: ValueRef, t: TypeRef)
    requires
        cx_ok(b.cx),
        b.has_type(t),
        b.cx.types.len() < usize::MAX,
    ensures
        b.then_gives(
            b.fptoui(v, t).0,
            b.fptoui(v, t).1,
            |m: Meaning, n: int| unsigned_bits(b, v, t, m, n),
        ),
{
    let p = |m: Meaning, n: int| unsigned_bits(b, v, t, m, n);
    let (b1, u) = b.unsigned(t);
    let e = match u {
        Some(u) => Expr::cast(b1.type_str(t), Expr::cast(b1.type_str(u), b1.var(v))),
        None => Expr::cast(b.type_str(t), b.var(v)),
    };
    assert forall|m: Meaning| p(m, #[trigger] m.eval(e)) by {
        if m.ptr_bits == b.cx.ptr_bytes * 8 && type_width(b.cx, t) is Some {
            let x = m.of(b, v);
            let (bits, signed) = type_width(b.cx, t)->0;
            wrapping_keeps_low_bits(x, bits, false, signed);
            wrapping_keeps_low_bits(x, bits, signed, false);
            assert(m.eval(b1.var(v)) == x);
            if u is Some {
                interned_kind(b.cx, unsigned_kind(b.cx.kind(t))->0);
                type_names_say_the_width(b1.cx, u->0, m.ptr_bits, x);
                assert(m.eval(Expr::cast(b1.type_str(u->0), b1.var(v))) == wrapped_to(
                    x,
                    bits,
                    false,
                ));
                type_names_say_the_width(b1.cx, t, m.ptr_bits, wrapped_to(x, bits, false));
            } else {
                type_names_say_the_width(b.cx, t, m.ptr_bits, x);
            }
        }
    }
    if u is Some {
        assigned_is_given(b1, t, e, p);
    } else {
        assigned_is_given(b, t, e, p);
    }
}

/// The bits of a value are kept where it is read as another type: the same type needs
/// nothing; integers of one width, and pointers, are cast, which keeps them; anything
/// else is copied, as many bytes as the result has.
pub proof fn bits_are_read_as_another_type(b: Bx, v: ValueRef, t: TypeRef)
    requires
        b.at_block(),
        b.has(v),
        b.cx.values.len() + 1 < usize::MAX,
    ensures
        ({
            let (later, r) = b.bitcast(v, t);
            let (from, to) = (b.width_of(v), type_width(b.cx, t));
            let result = Expr::Var("_t"@ + dec(b.cx.values.len()));
            let source = Expr::Var("_t"@ + dec(b.cx.values.len() + 1));
            let copied = later.code() == b.code() + seq![
                Stmt::Assign(source, b.var(v)),
                Stmt::Expr(
                    Expr::call(
                        "memcpy"@,
                        seq![
                            Expr::addr_of(result),
                            Expr::addr_of(source),
                            Expr::sizeof_expr(result),
                        ],
                    ),
                ),
            ] && later.var(r) == result;
            let cast = b.then_gives(
                later,
                r,
                |m: Meaning, n: int| cast_result(b, v, t, m, n),
            );
            if b.type_of(v) == t {
                (later, r) == (b, v)
            } else {
                &&& cast || copied
                &&& b.kind_of(v) is Float || b.cx.kind(t) is Float || b.kind_of(v) is Struct
                    || b.cx.kind(t) is Struct || b.kind_of(v) is Vector || b.cx.kind(t) is Vector
                    ==> copied
                &&& from is Some && to is Some && (from->0).0 != (to->0).0 ==> copied
            }
        }),
{
    let src = b.type_of(v);
    if src != t {
        if crate::casts::cast_keeps_bits(b.cx.kind(src), b.cx.kind(t), b.cx.ptr_bytes) {
            cast_gives(b, v, t);
        } else {
            let (b1, result) = b.value(ValKind::Temp, t);
            let (b2, source) = b1.value(ValKind::Temp, src);
            let d1 = b2.type_str(t) + " "@ + b2.cx.text(result) + ";"@;
            let d2 = b2.type_str(src) + " "@ + b2.cx.text(source) + ";"@;
            locals_run_nothing(b2, d1);
            locals_run_nothing(b2.local(d1), d2);
            let b3 = b2.local(d1).local(d2);
            value_text_is_stable(b.cx.values, b3.cx.values, v.0 as nat);
            let s1 = Stmt::Assign(b3.var(source), b3.var(v));
            let s2 = Stmt::Expr(
                Expr::call(
                    "memcpy"@,
                    seq![
                        Expr::addr_of(b3.var(result)),
                        Expr::addr_of(b3.var(source)),
                        Expr::sizeof_expr(b3.var(result)),
                    ],
                ),
            );
            emitted_is_last(b3, s1);
            emitted_is_last(b3.emit(s1), s2);
            assert(b3.emit(s1).emit(s2).code() =~= b.code() + seq![s1, s2]);
        }
    }
}

/// A truth value in memory is a byte that is 0 or 1, and any other value is itself. A
/// byte that is read as a truth value asks whether it is not zero.
pub proof fn truth_values_are_bytes(b: Bx, v: ValueRef, s: Scalar)
    requires
        b.has(v),
        s.is_bool,
    ensures
        !(b.kind_of(v) is Bool) ==> b.from_immediate(v) == (b, v),
        b.kind_of(v) is Bool ==> b.then_gives(
            b.from_immediate(v).0,
            b.from_immediate(v).1,
            |m: Meaning, n: int| 0 <= m.of(b, v) <= 1 ==> n == m.of(b, v),
        ),
        b.type_of(v) != b.cx.ty(Kind::Bool) ==> b.then_gives(
            b.to_immediate_scalar(v, s).0,
            b.to_immediate_scalar(v, s).1,
            |m: Meaning, n: int| n == truth(m.of(b, v) != 0),
        ),
{
    let p = |m: Meaning, n: int| 0 <= m.of(b, v) <= 1 ==> n == m.of(b, v);
    let e = Expr::cast("int8_t"@, Expr::paren(b.var(v)));
    let byte = Kind::Int { bits: 8, signed: true };
    vstd::arithmetic::power2::lemma2_to64();
    assert forall|m: Meaning| p(m, #[trigger] m.eval(e)) by {
        let x = m.of(b, v);
        assert(m.eval(b.var(v)) == x);
        assert(m.eval(Expr::paren(b.var(v))) == x);
        crate::meaning::standard_names_have_widths(m.ptr_bits);
        crate::meaning::byte_width(m.ptr_bits);
        wrapping_keeps_low_bits(x, 8, true, true);
    }
    assigned_is_given(b.intern(byte), b.cx.ty(byte), e, p);
    let q = |m: Meaning, n: int| n == truth(m.of(b, v) != 0);
    let f = Expr::cast("_Bool"@, Expr::paren(b.var(v)));
    assert forall|m: Meaning| q(m, #[trigger] m.eval(f)) by {
        let x = m.of(b, v);
        assert(m.eval(b.var(v)) == x);
        assert(m.eval(Expr::paren(b.var(v))) == x);
    }
    assigned_is_given(b.intern(Kind::Bool), b.cx.ty(Kind::Bool), f, q);
}

/// A value that is no truth value is read as a scalar by its own text, at the type of
/// the scalar, and nothing is computed.
pub proof fn other_scalars_are_themselves(b: Bx, v: ValueRef, s: Scalar)
    requires
        !s.is_bool,
        b.has(v),
        b.cx.values.len() < usize::MAX,
    ensures
        ({
            let (later, r) = b.to_immediate_scalar(v, s);
            &&& later.code() == b.code()
            &&& later.cx.text(r) == b.cx.text(v)
            &&& later.type_of(r) == b.cx.ty(crate::type_of::scalar_kind(s))
        }),
{
}

/// The remainder of floating-point numbers is what `fmod` gives of them in order.
pub proof fn remainders_call_fmod(b: Bx, l: ValueRef, r: ValueRef)
    requires
        b.at_block(),
    ensures
        ({
            let (later, v) = b.frem(l, r);
            later.code() == b.code().push(
                Stmt::Assign(later.var(v), Expr::call("fmod"@, seq![b.var(l), b.var(r)])),
            )
        }),
{
    temporaries_are_assigned(
        b,
        b.type_of(l),
        Expr::call("fmod"@, seq![b.var(l), b.var(r)]),
    );
}

/// A value is coerced only between pointers and integers, and the cast keeps it there;
/// any other is passed as it is.
pub proof fn only_pointers_are_coerced(b: Bx, v: ValueRef, t: TypeRef)
    ensures
        ({
            let (from, to) = (b.kind_of(v), b.cx.kind(t));
            let number = |k: Kind| k is Int || k is PtrWidth;
            if b.type_of(v) != t && ((from is Ptr && number(to)) || (number(from) && to is Ptr)) {
                b.then_gives(
                    b.coerce(v, t).0,
                    b.coerce(v, t).1,
                    |m: Meaning, n: int| cast_result(b, v, t, m, n),
                )
            } else {
                b.coerce(v, t) == (b, v)
            }
        }),
{
    cast_gives(b, v, t);
}

/// A structure that is passed by value is what its pointer points to; any other
/// argument is coerced.
pub proof fn structures_are_passed_by_value(b: Bx, v: ValueRef, t: TypeRef)
    requires
        b.cx.values.len() < usize::MAX,
    ensures
        ({
            let (later, r) = b.coerce_arg(v, t);
            if b.cx.kind(t) is Struct && b.kind_of(v) is Ptr {
                &&& later.cx.text(r) == "*"@ + ("("@ + b.type_str(t) + " *)"@ + b.cx.text(v))
                &&& later.type_of(r) == t
                &&& later.code() == b.code()
            } else {
                (later, r) == b.coerce(v, t)
            }
        }),
{
    reveal_strlit("*(");
    reveal_strlit("*");
    reveal_strlit("(");
    assert("*("@ =~= "*"@ + "("@);
    let (t1, t2) = (b.type_str(t), b.cx.text(v));
    assert("*"@ + "("@ + t1 + " *)"@ + t2 =~= "*"@ + ("("@ + t1 + " *)"@ + t2));
}

// --- Memory ---

/// Memory is copied and filled by the function of that name with its operands in
/// order.
pub proof fn memory_calls_take_their_operands(b: Bx, f: Text, x: ValueRef, y: ValueRef, z: ValueRef)
    requires
        b.at_block(),
    ensures
        b.mem_call(f, x, y, z).code() == b.code().push(
            Stmt::Expr(
                Expr::Call(Box::new(Expr::Var(f)), seq![b.var(x), b.var(y), b.var(z)]),
            ),
        ),
{
    emitted_is_last(
        b,
        Stmt::Expr(Expr::call(f, seq![b.var(x), b.var(y), b.var(z)])),
    );
}

/// A pointer that is moved by an offset points as many bytes further.
pub proof fn pointers_move_by_bytes(b: Bx, ptr: ValueRef, offset: ValueRef)
    requires
        b.cx.ptr_bytes > 0,
        b.cx.types.len() < usize::MAX,
    ensures
        b.then_gives(
            b.ptradd(ptr, offset).0,
            b.ptradd(ptr, offset).1,
            |m: Meaning, n: int|
                m.ptr_bits == b.cx.ptr_bytes * 8 && m.ptr_bits >= 8 && fits(
                    m.of(b, ptr),
                    m.ptr_bits,
                    false,
                ) && fits(m.of(b, offset), m.ptr_bits, true) && (m.size)("int8_t"@) == 1 ==> n
                    == m.of(b, ptr) + m.of(b, offset),
        ),
{
    let byte = Kind::Int { bits: 8, signed: true };
    let b1 = b.intern(byte);
    let t = b.cx.ty(byte);
    interned_kind(b.cx, byte);
    crate::meaning::byte_name(b1.cx, t);
    crate::shapes::interned_types_are_there(b.cx, byte);
    crate::places::elements_are_found_by_number(b1, t, ptr, seq![offset]);
    let (later, r) = b1.gep(t, ptr, seq![offset]);
    let p = |m: Meaning, n: int| crate::places::element_address(b1, t, ptr, seq![offset], m, n);
    let q = |m: Meaning, n: int|
        m.ptr_bits == b.cx.ptr_bytes * 8 && m.ptr_bits >= 8 && fits(
            m.of(b, ptr),
            m.ptr_bits,
            false,
        ) && fits(m.of(b, offset), m.ptr_bits, true) && (m.size)("int8_t"@) == 1 ==> n == m.of(
            b,
            ptr,
        ) + m.of(b, offset);
    if b.at_block() {
        assert(b1.then_gives(later, r, p));
        let e = later.code().last()->Assign_1;
        assert forall|m: Meaning| q(m, #[trigger] m.eval(e)) by {
            assert(p(m, m.eval(e)));
            if m.ptr_bits >= 8 {
                vstd::arithmetic::power2::lemma2_to64();
                if m.ptr_bits > 8 {
                    vstd::arithmetic::power2::lemma_pow2_strictly_increases(8, m.ptr_bits);
                }
                assert(fits(1, m.ptr_bits, true));
                assert(m.of(b, offset) * 1 == m.of(b, offset));
            }
        }
    }
}

/// A value that fills a vector is every element of it.
pub proof fn filled_vectors_repeat_the_value(b: Bx, n: usize, elt: ValueRef)
    requires
        b.at_block(),
        b.cx.types.len() < usize::MAX,
        b.cx.values.len() < usize::MAX,
    ensures
        ({
            let (later, v) = b.vector_splat(n, elt);
            &&& later.kind_of(v) == (Kind::Vector { element: b.type_of(elt), len: n as u64 })
            &&& later.code().drop_last() == b.code()
            &&& later.code().last() matches Stmt::Assign(place, Expr::CompoundLiteral(t, list))
                && place == later.var(v) && t == later.type_str(later.type_of(v)) && list.len()
                == n && forall|i: int| 0 <= i < n ==> list[i] == b.var(elt)
        }),
{
    let k = Kind::Vector { element: b.type_of(elt), len: n as u64 };
    interned_kind(b.cx, k);
    let b1 = b.intern(k);
    let t = b.cx.ty(k);
    let x = b1.var(elt);
    let e = Expr::CompoundLiteral(b1.type_str(t), Seq::new(n as nat, |i: int| x));
    temporaries_are_assigned(b1, t, e);
    let (later, v) = b1.temp_stmt(t, e);
    assert(later.code().drop_last() =~= b.code());
}

// --- Repetition ---

/// The address of a repetition, as an expression.
pub open spec fn repetition(d: Text, stride: nat) -> Expr {
    let far = Expr::binop(Expr::Var("_rep"@), CBinOp::Mul, Expr::Lit(dec(stride) + "ULL"@));
    Expr::cast(
        "void *"@,
        Expr::paren(Expr::binop(Expr::cast("__rustc_usize"@, Expr::Var(d)), CBinOp::Add, far)),
    )
}

/// A repetition begins as many strides behind the first as its number says.
pub proof fn repetitions_are_a_stride_apart(m: Meaning, d: Text, stride: nat)
    requires
        reads_literals(m),
        m.ptr_bits > 0,
        fits((m.names)(d), m.ptr_bits, false),
    ensures
        m.eval(repetition(d, stride)) == (m.names)(d) + (m.names)("_rep"@) * stride,
{
    let x = (m.names)(d);
    let size = Expr::Lit(dec(stride) + "ULL"@);
    unsigned_names_say_the_width(m.ptr_bits, x);
    wrapping_keeps_low_bits(x, m.ptr_bits, false, false);
    assert(m.eval(size) == stride);
    assert(m.eval(Expr::Var("_rep"@)) == (m.names)("_rep"@));
    assert(m.eval(Expr::Var(d)) == x);
    let far = Expr::binop(Expr::Var("_rep"@), CBinOp::Mul, size);
    assert(m.eval(far) == (m.names)("_rep"@) * stride);
    let base = Expr::cast("__rustc_usize"@, Expr::Var(d));
    assert(m.eval(base) == x);
    let sum = Expr::binop(base, CBinOp::Add, far);
    assert(m.eval(sum) == x + (m.names)("_rep"@) * stride);
    assert(m.eval(Expr::paren(sum)) == x + (m.names)("_rep"@) * stride);
    crate::meaning::pointer_casts_keep_the_number(m.ptr_bits, m.eval(sum));
}

#[verifier::spinoff_prover]
#[verifier::rlimit(60)]
proof fn repetition_is_grouped(d: Text, k: Text)
    ensures
        "(void *)((__rustc_usize)"@ + d + " + _rep * "@ + k + "ULL)"@ == "("@ + "void *"@ + ")"@ + (
        "("@ + (("("@ + "__rustc_usize"@ + ")"@ + d) + " + "@ + ("_rep"@ + " * "@ + (k + "ULL"@)))
            + ")"@),
{
    reveal_strlit("(void *)((__rustc_usize)");
    reveal_strlit("(");
    reveal_strlit("void *");
    reveal_strlit(")");
    reveal_strlit("__rustc_usize");
    reveal_strlit(" + _rep * ");
    reveal_strlit(" + ");
    reveal_strlit("_rep");
    reveal_strlit(" * ");
    reveal_strlit("ULL)");
    reveal_strlit("ULL");
    assert("(void *)((__rustc_usize)"@ + d + " + _rep * "@ + k + "ULL)"@ =~= "("@ + "void *"@
        + ")"@ + ("("@ + (("("@ + "__rustc_usize"@ + ")"@ + d) + " + "@ + ("_rep"@ + " * "@ + (k
        + "ULL"@))) + ")"@));
}

proof fn repetition_is_written(d: Text, stride: nat)
    ensures
        plain_text(repetition(d, stride)) == "(void *)((__rustc_usize)"@ + d + " + _rep * "@ + dec(
            stride,
        ) + "ULL)"@,
{
    let k = dec(stride);
    repetition_is_grouped(d, k);
    let far = Expr::binop(Expr::Var("_rep"@), CBinOp::Mul, Expr::Lit(k + "ULL"@));
    assert(plain_text(Expr::Var("_rep"@)) == "_rep"@);
    assert(plain_text(Expr::Lit(k + "ULL"@)) == k + "ULL"@);
    assert(plain_text(Expr::Var(d)) == d);
    assert(plain_text(far) == "_rep"@ + " * "@ + (k + "ULL"@));
    let base = Expr::cast("__rustc_usize"@, Expr::Var(d));
    assert(plain_text(base) == "("@ + "__rustc_usize"@ + ")"@ + d);
    let sum = Expr::binop(base, CBinOp::Add, far);
    assert(plain_text(sum) == ("("@ + "__rustc_usize"@ + ")"@ + d) + " + "@ + ("_rep"@ + " * "@ + (k
        + "ULL"@)));
    assert(plain_text(Expr::paren(sum)) == "("@ + (("("@ + "__rustc_usize"@ + ")"@ + d) + " + "@ + (
    "_rep"@ + " * "@ + (k + "ULL"@))) + ")"@);
}

/// What is repeated is copied from the first place to each of the others, a stride at a
/// time; a byte that is repeated fills the memory.
pub proof fn repetitions_are_copied(d: Text, v: Text, count: u64, stride: u64)
    ensures
        repeat_text(d, count, stride) == "for (uint64_t _rep = 1; _rep < "@ + (dec(count as nat)
            + "ULL"@) + "; _rep++) { memcpy("@ + plain_text(repetition(d, stride as nat)) + ", "@
                + (
        "(void *)"@ + d) + ", "@ + (dec(stride as nat) + "ULL"@) + "); }"@,
        memset_text(d, v, count) == "memset("@ + d + ", "@ + ("(int)"@ + v) + ", "@ + (dec(
            count as nat,
        ) + "ULL"@) + ");"@,
{
    repetition_is_written(d, stride as nat);
    let (n, k) = (dec(count as nat), dec(stride as nat));
    loop_is_grouped(d, n, k);
    fill_is_grouped(d, v, n);
}

#[verifier::spinoff_prover]
#[verifier::rlimit(60)]
proof fn fill_is_grouped(d: Text, v: Text, n: Text)
    ensures
        "memset("@ + d + ", (int)"@ + v + ", "@ + n + "ULL);"@ == "memset("@ + d + ", "@ + (
        "(int)"@ + v) + ", "@ + (n + "ULL"@) + ");"@,
{
    reveal_strlit(", (int)");
    reveal_strlit(", ");
    reveal_strlit("(int)");
    reveal_strlit("ULL);");
    reveal_strlit("ULL");
    reveal_strlit(");");
    assert(", (int)"@ =~= ", "@ + "(int)"@);
    assert("ULL);"@ =~= "ULL"@ + ");"@);
    let head = "memset("@ + d;
    assert(head + (", "@ + "(int)"@) + v + ", "@ + n + ("ULL"@ + ");"@) =~= head + ", "@ + (
    "(int)"@ + v) + ", "@ + (n + "ULL"@) + ");"@);
}

#[verifier::spinoff_prover]
#[verifier::rlimit(60)]
proof fn loop_is_grouped(d: Text, n: Text, k: Text)
    ensures
        "for (uint64_t _rep = 1; _rep < "@ + n
            + "ULL; _rep++) { memcpy((void *)((__rustc_usize)"@ + d + " + _rep * "@ + k
            + "ULL), (void *)"@ + d + ", "@ + k + "ULL); }"@ == "for (uint64_t _rep = 1; _rep < "@
                + (
        n + "ULL"@) + "; _rep++) { memcpy("@ + ("(void *)((__rustc_usize)"@ + d + " + _rep * "@ + k
            + "ULL)"@) + ", "@ + ("(void *)"@ + d) + ", "@ + (k + "ULL"@) + "); }"@,
{
    reveal_strlit("ULL; _rep++) { memcpy((void *)((__rustc_usize)");
    reveal_strlit("ULL");
    reveal_strlit("; _rep++) { memcpy(");
    reveal_strlit("(void *)((__rustc_usize)");
    reveal_strlit("ULL), (void *)");
    reveal_strlit("ULL)");
    reveal_strlit(", ");
    reveal_strlit("(void *)");
    reveal_strlit("ULL); }");
    reveal_strlit("); }");
    let (a, b, c) = ("ULL"@, "; _rep++) { memcpy("@, "(void *)((__rustc_usize)"@);
    assert("ULL; _rep++) { memcpy((void *)((__rustc_usize)"@ =~= a + b + c);
    let (x, y, z) = ("ULL)"@, ", "@, "(void *)"@);
    assert("ULL), (void *)"@ =~= x + y + z);
    let e = "); }"@;
    assert("ULL); }"@ =~= a + e);
    let head = "for (uint64_t _rep = 1; _rep < "@;
    let r = " + _rep * "@;
    assert(head + n + (a + b + c) + d + r + k + (x + y + z) + d + y + k + (a + e) =~= head + (n + a)
        + b + (c + d + r + k + x) + y + (z + d) + y + (k + a) + e);
}

// --- Buffers of returns ---

/// A buffer for an indirect return is declared once, with at least the alignment of its
/// type and at least sixteen bytes; every later address is that of the same buffer.
pub proof fn return_buffers_are_declared_once(b: Bx)
    requires
        b.is_open(),
        b.open_func().retbuf_name is None,
        b.cx.values.len() + 1 < usize::MAX,
        b.open_func().name == b.func,
    ensures
        ({
            let (first, v) = b.retbuf_addr();
            let (second, w) = first.retbuf_addr();
            &&& first.open_func().retbuf_name == Some("_retbuf"@)
            &&& first.cx.text(v) == "(void *)&"@ + "_retbuf"@
            &&& second.cx.text(w) == first.cx.text(v)
            &&& second.open_func().locals == first.open_func().locals
            &&& first.open_func().locals.len() == b.open_func().locals.len() + 1
        }),
{
    reveal_strlit("(void *)&_retbuf");
    reveal_strlit("(void *)&");
    reveal_strlit("_retbuf");
    assert("(void *)&_retbuf"@ =~= "(void *)&"@ + "_retbuf"@);
}

// --- Constants ---

/// A floating-point constant says its sign, its leading digit, its fraction in
/// hexadecimal digits and its exponent; together they are its bits.
pub proof fn floats_say_their_bits(bits: u64)
    ensures
        ({
            let negative = bits >= 0x8000_0000_0000_0000;
            let exp = (bits / 0x10_0000_0000_0000) % 0x800;
            let sign = if negative {
                "-"@
            } else {
                ""@
            };
            exists|lead: Text, fraction: Text, e: int|
                {
                    &&& exp != 0x7ff ==> float_text(bits) == sign + ("0x"@ + lead + "."@)
                        + fraction + "p"@ + #[trigger] sdec(e)
                    &&& #[trigger] digits_value(lead, 10) == (if exp == 0 {
                        0int
                    } else {
                        1
                    })
                    &&& #[trigger] digits_value(fraction, 16) == bits % 0x10_0000_0000_0000
                    &&& fraction.len() == 13
                    &&& e == if exp == 0 {
                        -1022
                    } else {
                        exp - 1023
                    }
                }
        }),
        (bits / 0x10_0000_0000_0000) % 0x800 == 0x7ff ==> float_text(bits) == (if bits
            >= 0x8000_0000_0000_0000 {
            "-"@
        } else {
            ""@
        }) + (if bits % 0x10_0000_0000_0000 == 0 {
            "__builtin_inf()"@
        } else {
            "__builtin_nan(\"\")"@
        }),
{
    reveal_strlit("");
    assert(""@ =~= Seq::<char>::empty());
    let exp = (bits / 0x10_0000_0000_0000) % 0x800;
    let mant = bits % 0x10_0000_0000_0000;
    let sign = if bits >= 0x8000_0000_0000_0000 {
        "-"@
    } else {
        ""@
    };
    let lead = if exp == 0 {
        "0"@
    } else {
        "1"@
    };
    let e: int = if exp == 0 {
        -1022
    } else {
        exp - 1023
    };
    let fraction = hex_fixed(mant as nat, 13);
    hexadecimal_is_read_back(mant as nat, 13);
    thirteen_digits();
    vstd::arithmetic::div_mod::lemma_small_mod(mant as nat, 0x10_0000_0000_0000);
    crate::data::single_digits_are_read();
    leads_are_written(sign, fraction, e);
    assert(digits_value(lead, 10) == (if exp == 0 {
        0int
    } else {
        1
    }));
    assert(digits_value(fraction, 16) == mant);
    assert(exp != 0x7ff ==> float_text(bits) == sign + ("0x"@ + lead + "."@) + fraction + "p"@
        + sdec(e));
}

proof fn thirteen_digits()
    ensures
        vstd::arithmetic::power::pow(16, 13) == 0x10_0000_0000_0000,
{
    reveal(vstd::arithmetic::power::pow);
    reveal_with_fuel(vstd::arithmetic::power::pow, 14);
}

proof fn leads_are_written(sign: Text, fraction: Text, e: int)
    ensures
        sign + "0x0."@ + fraction + "p-1022"@ == sign + ("0x"@ + "0"@ + "."@) + fraction + "p"@
            + sdec(-1022),
        sign + "0x1."@ + fraction + "p"@ + sdec(e) == sign + ("0x"@ + "1"@ + "."@) + fraction
            + "p"@ + sdec(e),
{
    reveal_strlit("0x0.");
    reveal_strlit("0x1.");
    reveal_strlit("0x");
    reveal_strlit("0");
    reveal_strlit("1");
    reveal_strlit(".");
    reveal_strlit("p");
    reveal_strlit("p-1022");
    reveal_strlit("-");
    assert("0x0."@ =~= "0x"@ + "0"@ + "."@);
    assert("0x1."@ =~= "0x"@ + "1"@ + "."@);
    reveal_with_fuel(dec, 5);
    assert(sdec(-1022) =~= seq!['-', '1', '0', '2', '2']);
    assert("p-1022"@ =~= "p"@ + sdec(-1022));
    let head = sign + "0x0."@ + fraction;
    assert(head + ("p"@ + sdec(-1022)) =~= head + "p"@ + sdec(-1022));
}

/// Names and constants that are no numbers are written as they are, and the parts of a
/// constant stand in order.
pub proof fn values_are_written(values: Seq<Value>, v: nat, i: int)
    requires
        v < values.len(),
    ensures
        match values[v as int].kind {
            ValKind::NullPtr => value_text(values, v) == "NULL"@,
            ValKind::Undef => value_text(values, v) == "0"@,
            ValKind::Poison => value_text(values, v) == "0"@,
            ValKind::BoolConst(b) => value_text(values, v) == dec(
                if b {
                    1
                } else {
                    0
                },
            ),
            ValKind::Param { index } => value_text(values, v) == "_arg"@ + dec(index as nat),
            ValKind::Function { name, .. } => value_text(values, v) == name,
            ValKind::Global { name } => value_text(values, v) == name,
            ValKind::InlineExpr(e) => value_text(values, v) == e,
            ValKind::StructConst { fields } => {
                let parts = crate::values::part_texts(values, fields, v);
                &&& value_text(values, v) == "{ "@ + join(parts, ", "@) + " }"@
                &&& parts.len() == fields.len()
                &&& 0 <= i < fields.len() && fields[i].0 < v ==> parts[i] == value_text(
                    values,
                    fields[i].0 as nat,
                )
            },
            ValKind::VectorConst { elements, type_str } => {
                let parts = crate::values::part_texts(values, elements, v);
                &&& value_text(values, v) == "("@ + type_str + ")"@ + ("{ "@ + join(parts, ", "@)
                    + " }"@)
                &&& parts.len() == elements.len()
                &&& 0 <= i < elements.len() && elements[i].0 < v ==> parts[i] == value_text(
                    values,
                    elements[i].0 as nat,
                )
            },
            _ => true,
        },
{
    reveal_strlit("1");
    reveal_strlit("0");
    assert(dec(0) =~= "0"@);
    assert(dec(1) =~= "1"@);
    match values[v as int].kind {
        ValKind::VectorConst { elements, type_str } => {
            let all = join(crate::values::part_texts(values, elements, v), ", "@);
            reveal_strlit("){ ");
            reveal_strlit(")");
            reveal_strlit("{ ");
            assert("){ "@ =~= ")"@ + "{ "@);
            let head = "("@ + type_str;
            assert(head + (")"@ + "{ "@) + all + " }"@ =~= head + ")"@ + ("{ "@ + all + " }"@));
        },
        _ => {},
    }
}

/// A constant of parts has the types of its parts, in order; the elements of a vector
/// have the type of the first.
pub proof fn constants_have_the_types_of_their_parts(
    c: Cx,
    elts: Seq<ValueRef>,
    packed: bool,
    i: int,
)
    requires
        c.types.len() + 1 < usize::MAX,
        c.values.len() < usize::MAX,
    ensures
        ({
            let (later, v) = c.struct_const(elts, packed);
            let k = later.kind(later.type_of(v));
            &&& k matches Kind::Struct { fields, packed: p, name: None } && p == packed
                && fields.len() == elts.len() && (0 <= i < elts.len() ==> fields[i] == c.type_of(
                elts[i],
            ))
            &&& later.values[v.0 as int].kind == (ValKind::StructConst { fields: elts })
        }),
        ({
            let (later, v) = c.vector_const(elts);
            let k = later.kind(later.type_of(v));
            &&& k matches Kind::Vector { element, len } && len == elts.len() as u64 && (elts.len()
                > 0 ==> element == c.type_of(elts[0]))
            &&& later.values[v.0 as int].kind matches ValKind::VectorConst { elements, type_str }
                && elements == elts && type_str == later.type_str(later.type_of(v))
        }),
{
    interned_kind(
        c,
        Kind::Struct { fields: crate::consts::types_of(c, elts), packed, name: None },
    );
    let byte = Kind::Int { bits: 8, signed: true };
    let (c1, element) = if elts.len() == 0 {
        c.interns(byte)
    } else {
        (c, c.type_of(elts[0]))
    };
    crate::shapes::interned_types_are_there(c, byte);
    interned_kind(c1, Kind::Vector { element, len: elts.len() as u64 });
}

// --- Volatile memory and further arguments ---

/// A volatile load reads the memory through a volatile pointer of its type; of a wide
/// number each of the sixteen bytes is read once, in order.
pub proof fn volatile_memory_is_read(b: Bx, t: TypeRef, ptr: ValueRef)
    requires
        b.at_block(),
        b.cx.values.len() < usize::MAX,
    ensures
        ({
            let (later, v) = b.volatile_load(t, ptr);
            let r = "_t"@ + dec(b.cx.values.len());
            &&& later.var(v) == Expr::Var(r)
            &&& later.code() == b.code().push(
                if b.cx.kind(t) matches Kind::Int { bits, .. } && bits == 128 {
                    Stmt::Raw(
                        "{ "@ + ("volatile char *__src = (volatile char *)"@ + b.cx.text(ptr) + ";"@)
                            + " "@ + ("char *__dst = (char *)&"@ + r + ";"@)
                            + " for (int __i = 0; __i < 16; __i++) __dst[__i] = __src[__i]; }"@,
                    )
                } else {
                    Stmt::Assign(
                        Expr::Var(r),
                        Expr::deref("volatile "@ + b.type_str(t) + " *"@, b.var(ptr)),
                    )
                },
            )
        }),
{
    crate::lowered::temporaries_are_declared(b, t);
    let (b1, v) = b.typed_temp(t);
    let text = "{ volatile char *__src = (volatile char *)"@ + b.cx.text(ptr)
        + "; char *__dst = (char *)&"@ + b1.cx.text(v)
        + "; for (int __i = 0; __i < 16; __i++) __dst[__i] = __src[__i]; }"@;
    emitted_is_last(b1, Stmt::Raw(text));
    byte_copies_are_grouped(b.cx.text(ptr), b1.cx.text(v));
    temporaries_are_assigned(
        b,
        t,
        Expr::deref("volatile "@ + b.type_str(t) + " *"@, b.var(ptr)),
    );
}

#[verifier::spinoff_prover]
#[verifier::rlimit(60)]
proof fn byte_copies_are_grouped(p: Text, r: Text)
    ensures
        "{ volatile char *__src = (volatile char *)"@ + p + "; char *__dst = (char *)&"@ + r
            + "; for (int __i = 0; __i < 16; __i++) __dst[__i] = __src[__i]; }"@ == "{ "@ + (
        "volatile char *__src = (volatile char *)"@ + p + ";"@) + " "@ + ("char *__dst = (char *)&"@
            + r + ";"@) + " for (int __i = 0; __i < 16; __i++) __dst[__i] = __src[__i]; }"@,
{
    reveal_strlit("{ volatile char *__src = (volatile char *)");
    reveal_strlit("{ ");
    reveal_strlit("volatile char *__src = (volatile char *)");
    reveal_strlit("; char *__dst = (char *)&");
    reveal_strlit(";");
    reveal_strlit(" ");
    reveal_strlit("char *__dst = (char *)&");
    reveal_strlit("; for (int __i = 0; __i < 16; __i++) __dst[__i] = __src[__i]; }");
    reveal_strlit(" for (int __i = 0; __i < 16; __i++) __dst[__i] = __src[__i]; }");
    let (a, b) = ("{ "@, "volatile char *__src = (volatile char *)"@);
    let (c, d, e) = (";"@, " "@, "char *__dst = (char *)&"@);
    let f = " for (int __i = 0; __i < 16; __i++) __dst[__i] = __src[__i]; }"@;
    assert("{ volatile char *__src = (volatile char *)"@ =~= a + b);
    assert("; char *__dst = (char *)&"@ =~= c + d + e);
    assert("; for (int __i = 0; __i < 16; __i++) __dst[__i] = __src[__i]; }"@ =~= c + f);
    assert(a + b + p + (c + d + e) + r + (c + f) =~= a + (b + p + c) + d + (e + r + c) + f);
}

/// The next of further arguments is taken from its list, as the type that is asked for.
pub proof fn further_arguments_are_taken(b: Bx, list: ValueRef, t: TypeRef)
    requires
        b.at_block(),
    ensures
        ({
            let (later, v) = b.va_arg(list, t);
            later.code() == b.code().push(
                Stmt::Assign(
                    later.var(v),
                    Expr::Call(
                        Box::new(Expr::Var("va_arg"@)),
                        seq![b.var(list), Expr::Raw(b.type_str(t))],
                    ),
                ),
            )
        }),
{
    temporaries_are_assigned(
        b,
        t,
        Expr::call("va_arg"@, seq![b.var(list), Expr::Raw(b.type_str(t))]),
    );
}

/// An exception that is raised again is handed to the innermost handler, which is
/// jumped to; without one the program ends.
pub proof fn exceptions_are_handed_on(exn: Text)
    ensures
        crate::control::resume_text(exn) == "if (__rustc_unwind_chain) { "@ + (
        "__rustc_unwind_chain->exception_ptr = "@ + exn + ";"@)
            + " __rustc_longjmp(__rustc_unwind_chain->buf, 1); } else { abort(); }"@,
{
    reveal_strlit("if (__rustc_unwind_chain) { __rustc_unwind_chain->exception_ptr = ");
    reveal_strlit("if (__rustc_unwind_chain) { ");
    reveal_strlit("__rustc_unwind_chain->exception_ptr = ");
    reveal_strlit("; __rustc_longjmp(__rustc_unwind_chain->buf, 1); } else { abort(); }");
    reveal_strlit(";");
    reveal_strlit(" __rustc_longjmp(__rustc_unwind_chain->buf, 1); } else { abort(); }");
    let (a, b) = ("if (__rustc_unwind_chain) { "@, "__rustc_unwind_chain->exception_ptr = "@);
    let (c, d) = (";"@, " __rustc_longjmp(__rustc_unwind_chain->buf, 1); } else { abort(); }"@);
    assert("if (__rustc_unwind_chain) { __rustc_unwind_chain->exception_ptr = "@ =~= a + b);
    assert("; __rustc_longjmp(__rustc_unwind_chain->buf, 1); } else { abort(); }"@ =~= c + d);
    assert(a + b + exn + (c + d) =~= a + (b + exn + c) + d);
}

// --- Locals ---

/// The locals that the current function declares.
pub open spec fn locals_of(b: Bx) -> Seq<Text> {
    b.cx.module.open[b.func].locals
}

/// Whether the current function is open under its own name.
pub open spec fn in_function(b: Bx) -> bool {
    b.cx.module.open.contains_key(b.func) && b.cx.module.open[b.func].name == b.func
}

proof fn locals_are_added(b: Bx, decl: Text)
    requires
        in_function(b),
    ensures
        in_function(b.local(decl)),
        locals_of(b.local(decl)) == locals_of(b).push(decl),
{
}

proof fn statements_leave_the_locals(b: Bx, s: Stmt)
    requires
        in_function(b),
    ensures
        in_function(b.emit(s)),
        locals_of(b.emit(s)) == locals_of(b),
{
}

/// A temporary is declared once, with its own type and name.
pub proof fn temporaries_are_declared_with_their_type(b: Bx, t: TypeRef, e: Expr)
    requires
        in_function(b),
        b.cx.values.len() < usize::MAX,
    ensures
        ({
            let name = "_t"@ + dec(b.cx.values.len());
            &&& locals_of(b.typed_temp(t).0) == locals_of(b).push(
                b.type_str(t) + " "@ + name + ";"@,
            )
            &&& locals_of(b.declared_temp(t).0) == locals_of(b).push(
                b.cx.decl_str(t, name) + ";"@,
            )
            &&& locals_of(b.temp_stmt(t, e).0) == locals_of(b).push(b.cx.decl_str(t, name) + ";"@)
        }),
{
    let (b1, v) = b.value(ValKind::Temp, t);
    let name = b1.cx.text(v);
    assert(name == "_t"@ + dec(b.cx.values.len()));
    locals_are_added(b1, b1.type_str(t) + " "@ + name + ";"@);
    let decl = b1.cx.decl_str(t, name) + ";"@;
    locals_are_added(b1, decl);
    statements_leave_the_locals(b1.local(decl), Stmt::Assign(b1.local(decl).var(v), e));
}

/// A checked operation declares its result with the type of its operands, and whether
/// it overflowed as a truth value.
pub proof fn checked_results_are_declared(
    b: Bx,
    op: crate::arith::OverflowOp,
    l: ValueRef,
    r: ValueRef,
)
    requires
        in_function(b),
        b.cx.values.len() + 1 < usize::MAX,
    ensures
        locals_of(b.checked_binop(op, l, r).0) == locals_of(b).push(
            b.type_str(b.type_of(l)) + " "@ + ("_t"@ + dec(b.cx.values.len())) + ";"@,
        ).push("_Bool "@ + ("_t"@ + dec(b.cx.values.len() + 1)) + ";"@),
{
    let t = b.type_of(l);
    temporaries_are_declared_with_their_type(b, t, Expr::Lit("0"@));
    let (b1, result) = b.typed_temp(t);
    let b2 = b1.intern(Kind::Bool);
    let (b3, overflow) = b2.value(ValKind::Temp, b1.cx.ty(Kind::Bool));
    let decl = "_Bool "@ + b3.cx.text(overflow) + ";"@;
    locals_are_added(b1, decl);
    locals_are_added(b3, decl);
}

/// A copy of bits declares the result and the source with their types.
pub proof fn copies_are_declared(b: Bx, v: ValueRef, t: TypeRef)
    requires
        in_function(b),
        b.cx.values.len() + 1 < usize::MAX,
        b.type_of(v) != t,
        b.cx.kind(t) is Float || b.kind_of(v) is Float,
    ensures
        locals_of(b.bitcast(v, t).0) == locals_of(b).push(
            b.type_str(t) + " "@ + ("_t"@ + dec(b.cx.values.len())) + ";"@,
        ).push(
            b.type_str(b.type_of(v)) + " "@ + ("_t"@ + dec(b.cx.values.len() + 1)) + ";"@,
        ),
{
    let src = b.type_of(v);
    let (b1, result) = b.value(ValKind::Temp, t);
    let (b2, source) = b1.value(ValKind::Temp, src);
    let d1 = b2.type_str(t) + " "@ + b2.cx.text(result) + ";"@;
    let d2 = b2.type_str(src) + " "@ + b2.cx.text(source) + ";"@;
    locals_are_added(b2, d1);
    locals_are_added(b2.local(d1), d2);
    let b3 = b2.local(d1).local(d2);
    let s1 = Stmt::Assign(b3.var(source), b3.var(v));
    statements_leave_the_locals(b3, s1);
    let s2 = Stmt::Expr(
        Expr::call(
            "memcpy"@,
            seq![
                Expr::addr_of(b3.var(result)),
                Expr::addr_of(b3.var(source)),
                Expr::sizeof_expr(b3.var(result)),
            ],
        ),
    );
    statements_leave_the_locals(b3.emit(s1), s2);
}

/// Reversing bits declares the result with its type and the position as an integer.
pub proof fn reversing_is_declared(b: Bx, val: ValueRef, dest: ValueRef)
    requires
        in_function(b),
        b.cx.values.len() + 1 < usize::MAX,
        crate::places::assigned_whole(b.kind_of(val)),
        cx_ok(b.cx),
        b.has(val),
        b.cx.types.len() + 1 < usize::MAX,
    ensures
        locals_of(b.codegen_bitreverse(val, dest)) == locals_of(b).push(
            b.type_str(b.type_of(val)) + " "@ + ("_t"@ + dec(b.cx.values.len())) + ";"@,
        ).push("int32_t "@ + ("_t"@ + dec(b.cx.values.len() + 1)) + ";"@),
{
    let t = b.type_of(val);
    crate::meaning::values_have_types(b.cx, val);
    temporaries_are_declared_with_their_type(b, t, Expr::Lit("0"@));
    let (b1, result) = b.typed_temp(t);
    let k = Kind::Int { bits: 32, signed: true };
    interned_kind(b1.cx, k);
    let (b2, iter) = b1.intern(k).value(ValKind::Temp, b1.cx.ty(k));
    let decl = "int32_t "@ + b2.cx.text(iter) + ";"@;
    locals_are_added(b2, decl);
    let b2l = b2.local(decl);
    match unsigned_kind(b.cx.kind(t)) {
        Some(u) => {
            interned_kind(b2l.cx, u);
        },
        None => {},
    }
    assert(b2l.cx.kind(t) == b.cx.kind(t));
    let (b3, ut) = b2l.unsigned_str(t);
    assert(b3.cx.kind(t) == b.cx.kind(t));
    let rn = b3.cx.text(result);
    let s1 = Stmt::Raw(rn + " = 0;"@);
    let s2 = Stmt::Raw(
        crate::bits::reverse_text(
            rn,
            b2.cx.text(iter),
            b.width(t),
            b3.type_str(t),
            ut,
            b3.cx.text(val),
        ),
    );
    statements_leave_the_locals(b3, s1);
    statements_leave_the_locals(b3.emit(s1), s2);
    let b4 = b3.emit(s1).emit(s2);
    assert(b4.type_of(result) == t);
    let s3 = Stmt::Assign(Expr::deref(b4.type_str(t) + " *"@, b4.var(dest)), b4.var(result));
    assert(b4.store(result, dest).0 == b4.emit(s3));
    statements_leave_the_locals(b4, s3);
}

// --- Names ---

/// A name that is made an identifier has as many characters, and keeps those that an
/// identifier can have; any other is an underscore.
pub proof fn identifiers_keep_their_characters(name: Text, i: int)
    requires
        0 <= i < name.len(),
    ensures
        crate::context::sanitized(name).len() == name.len(),
        crate::context::sanitized(name)[i] == if 'a' <= name[i] <= 'z' || 'A' <= name[i] <= 'Z' || '0'
            <= name[i] <= '9' || name[i] == '_' {
            name[i]
        } else {
            '_'
        },
{
}

/// A constant is read as its number where the width holds it.
pub proof fn integer_constants_are_read(k: ValKind, n: Kind, ptr_bytes: u64)
    requires
        ptr_bytes == 4 || ptr_bytes == 8,
    ensures
        match k {
            ValKind::BoolConst(b) => crate::values::const_u64(k) == Some(
                if b {
                    1u64
                } else {
                    0u64
                },
            ) && (crate::values::const_u128(k) matches Some(u) && u == truth(b)),
            ValKind::IntConst(i) => 0 <= i <= u64::MAX ==> (crate::values::const_u64(k) matches Some(
                u,
            ) && u == i) && (crate::values::const_u128(k) matches Some(w) && w == i),
            ValKind::UintConst(u) => crate::values::const_u128(k) == Some(u) && (u <= u64::MAX ==> (
            crate::values::const_u64(k) matches Some(w) && w == u)),
            _ => crate::values::const_u64(k) is None && crate::values::const_u128(k) is None,
        },
        crate::meaning::kind_width(n, (ptr_bytes * 8) as nat) matches Some((w, _))
            ==> crate::consts::number_bits(n, ptr_bytes) == w,
{
}

} // verus!
