//! Which code stands for an intrinsic: by its name, and in order of its arguments.
use vstd::prelude::*;

use crate::builder::Bx;
use crate::c_ast::{CBinOp, Expr, Stmt};
use crate::counting::{expressions_are_stored, stores};
use crate::intrinsic::{
    binary_text, intrinsic_named, math_name, unary_text, Intrinsic, LaneSign, TypeArg,
};
use crate::layout::Layout;
use crate::meaning::{emitted_is_last, interned_kind, temporaries_are_assigned, word_name, Meaning};
use crate::places::assigned_whole;
use crate::text::{dec, has_prefix, Text};
use crate::types::Kind;
use crate::values::{value_text_is_stable, ValKind, ValueRef};

verus! {

// --- Names ---

/// Whether an intrinsic of one operand on floating-point numbers is a function of C.
pub open spec fn unary_function(name: Text, function: Text) -> bool {
    ||| name == "fabsf32"@ && function == "fabsf"@
    ||| name == "sqrtf32"@ && function == "sqrtf"@
    ||| name == "sinf32"@ && function == "sinf"@
    ||| name == "cosf32"@ && function == "cosf"@
    ||| name == "expf32"@ && function == "expf"@
    ||| name == "exp2f32"@ && function == "exp2f"@
    ||| name == "logf32"@ && function == "logf"@
    ||| name == "log10f32"@ && function == "log10f"@
    ||| name == "log2f32"@ && function == "log2f"@
    ||| name == "floorf32"@ && function == "floorf"@
    ||| name == "ceilf32"@ && function == "ceilf"@
    ||| name == "truncf32"@ && function == "truncf"@
    ||| name == "roundf32"@ && function == "roundf"@
    ||| name == "round_ties_even_f32"@ && function == "rintf"@
    ||| name == "fabsf64"@ && function == "fabs"@
    ||| name == "sqrtf64"@ && function == "sqrt"@
    ||| name == "sinf64"@ && function == "sin"@
    ||| name == "cosf64"@ && function == "cos"@
    ||| name == "expf64"@ && function == "exp"@
    ||| name == "exp2f64"@ && function == "exp2"@
    ||| name == "logf64"@ && function == "log"@
    ||| name == "log10f64"@ && function == "log10"@
    ||| name == "log2f64"@ && function == "log2"@
    ||| name == "floorf64"@ && function == "floor"@
    ||| name == "ceilf64"@ && function == "ceil"@
    ||| name == "truncf64"@ && function == "trunc"@
    ||| name == "roundf64"@ && function == "round"@
    ||| name == "round_ties_even_f64"@ && function == "rint"@
}

/// Whether an intrinsic of two operands on floating-point numbers is a function of C.
pub open spec fn binary_function(name: Text, function: Text) -> bool {
    ||| name == "copysignf32"@ && function == "copysignf"@
    ||| name == "powf32"@ && function == "powf"@
    ||| name == "minnumf32"@ && function == "fminf"@
    ||| name == "maxnumf32"@ && function == "fmaxf"@
    ||| name == "copysignf64"@ && function == "copysign"@
    ||| name == "powf64"@ && function == "pow"@
    ||| name == "minnumf64"@ && function == "fmin"@
    ||| name == "maxnumf64"@ && function == "fmax"@
}

/// Whether a power of a floating-point number to an integer is a function of C.
pub open spec fn power_function(name: Text, function: Text) -> bool {
    ||| name == "powif32"@ && function == "powf"@
    ||| name == "powif64"@ && function == "pow"@
}

/// Whether a product and a sum in one are a function of C.
pub open spec fn fused_function(name: Text, function: Text) -> bool {
    ||| name == "fmaf32"@ && function == "fmaf"@
    ||| name == "fmuladdf32"@ && function == "fmaf"@
    ||| name == "fmaf64"@ && function == "fma"@
    ||| name == "fmuladdf64"@ && function == "fma"@
}

/// Whether an intrinsic has a name.
pub open spec fn called_by(i: Intrinsic, name: Text) -> bool {
    match i {
        Intrinsic::BlackBox => name == "black_box"@,
        Intrinsic::VolatileLoad => name == "volatile_load"@ || name == "unaligned_volatile_load"@,
        Intrinsic::VolatileStore => name == "volatile_store"@,
        Intrinsic::Prefetch => name == "prefetch_read_data"@ || name
            == "prefetch_write_data"@ || name == "prefetch_read_instruction"@ || name
            == "prefetch_write_instruction"@,
        Intrinsic::VaCopy => name == "va_copy"@,
        Intrinsic::VaArg => name == "va_arg"@,
        Intrinsic::CatchUnwind => name == "catch_unwind"@,
        Intrinsic::IsValStaticallyKnown => name == "is_val_statically_known"@,
        Intrinsic::SelectUnpredictable => name == "select_unpredictable"@,
        Intrinsic::CompareBytes => name == "compare_bytes"@,
        Intrinsic::Ctlz => name == "ctlz"@ || name == "ctlz_nonzero"@,
        Intrinsic::Cttz => name == "cttz"@ || name == "cttz_nonzero"@,
        Intrinsic::Ctpop => name == "ctpop"@,
        Intrinsic::Bswap => name == "bswap"@,
        Intrinsic::Bitreverse => name == "bitreverse"@,
        Intrinsic::RawEq => name == "raw_eq"@,
        Intrinsic::TypedSwap => name == "typed_swap_nonoverlapping"@,
        Intrinsic::CarryingMulAdd => name == "carrying_mul_add"@,
        Intrinsic::SimdExtract => name == "simd_extract"@,
        Intrinsic::SimdInsert => name == "simd_insert"@,
        Intrinsic::SimdCast => name == "simd_cast"@ || name == "simd_as"@,
        Intrinsic::SimdShuffle => name == "simd_shuffle"@ || name == "simd_shuffle_const_generic"@,
        Intrinsic::Saturating { is_add } => name == if is_add {
            "saturating_add"@
        } else {
            "saturating_sub"@
        },
        Intrinsic::Rotate { left } => name == if left {
            "rotate_left"@
        } else {
            "rotate_right"@
        },
        Intrinsic::FunnelShift { left } => name == if left {
            "unchecked_funnel_shl"@
        } else {
            "unchecked_funnel_shr"@
        },
        Intrinsic::SimdCompare { op: LaneSign::Eq } => name == "simd_eq"@,
        Intrinsic::SimdCompare { op: LaneSign::Ne } => name == "simd_ne"@,
        Intrinsic::SimdCompare { op: LaneSign::Lt } => name == "simd_lt"@,
        Intrinsic::SimdCompare { op: LaneSign::Le } => name == "simd_le"@,
        Intrinsic::SimdCompare { op: LaneSign::Gt } => name == "simd_gt"@,
        Intrinsic::SimdCompare { op: LaneSign::Ge } => name == "simd_ge"@,
        Intrinsic::SimdBinary { op: LaneSign::And } => name == "simd_and"@,
        Intrinsic::SimdBinary { op: LaneSign::Or } => name == "simd_or"@,
        Intrinsic::SimdBinary { op: LaneSign::Xor } => name == "simd_xor"@,
        Intrinsic::SimdBinary { op: LaneSign::Shl } => name == "simd_shl"@,
        Intrinsic::SimdBinary { op: LaneSign::Shr } => name == "simd_shr"@,
        Intrinsic::UnaryMath { f, width } => unary_function(name, math_name(unary_text(f), width)),
        Intrinsic::BinaryMath { func, width } => binary_function(
            name,
            math_name(binary_text(func), width),
        ),
        Intrinsic::Powi { width } => power_function(name, math_name("pow"@, width)),
        Intrinsic::Fma { width } => fused_function(name, math_name("fma"@, width)),
        Intrinsic::SimdOther => has_prefix(name, "simd_"@),
        _ => false,
    }
}

proof fn single_precision_ends_in_f()
    ensures
        "fabsf"@ == "fabs"@ + "f"@,
        "sqrtf"@ == "sqrt"@ + "f"@,
        "sinf"@ == "sin"@ + "f"@,
        "cosf"@ == "cos"@ + "f"@,
        "expf"@ == "exp"@ + "f"@,
        "exp2f"@ == "exp2"@ + "f"@,
        "logf"@ == "log"@ + "f"@,
        "log10f"@ == "log10"@ + "f"@,
        "log2f"@ == "log2"@ + "f"@,
        "floorf"@ == "floor"@ + "f"@,
        "ceilf"@ == "ceil"@ + "f"@,
        "truncf"@ == "trunc"@ + "f"@,
        "roundf"@ == "round"@ + "f"@,
        "rintf"@ == "rint"@ + "f"@,
        "copysignf"@ == "copysign"@ + "f"@,
        "powf"@ == "pow"@ + "f"@,
        "fminf"@ == "fmin"@ + "f"@,
        "fmaxf"@ == "fmax"@ + "f"@,
        "fmaf"@ == "fma"@ + "f"@,
{
    reveal_strlit("f");
    reveal_strlit("fabs");
    reveal_strlit("fabsf");
    assert("fabsf"@ =~= "fabs"@ + "f"@);
    reveal_strlit("sqrt");
    reveal_strlit("sqrtf");
    assert("sqrtf"@ =~= "sqrt"@ + "f"@);
    reveal_strlit("sin");
    reveal_strlit("sinf");
    assert("sinf"@ =~= "sin"@ + "f"@);
    reveal_strlit("cos");
    reveal_strlit("cosf");
    assert("cosf"@ =~= "cos"@ + "f"@);
    reveal_strlit("exp");
    reveal_strlit("expf");
    assert("expf"@ =~= "exp"@ + "f"@);
    reveal_strlit("exp2");
    reveal_strlit("exp2f");
    assert("exp2f"@ =~= "exp2"@ + "f"@);
    reveal_strlit("log");
    reveal_strlit("logf");
    assert("logf"@ =~= "log"@ + "f"@);
    reveal_strlit("log10");
    reveal_strlit("log10f");
    assert("log10f"@ =~= "log10"@ + "f"@);
    reveal_strlit("log2");
    reveal_strlit("log2f");
    assert("log2f"@ =~= "log2"@ + "f"@);
    reveal_strlit("floor");
    reveal_strlit("floorf");
    assert("floorf"@ =~= "floor"@ + "f"@);
    reveal_strlit("ceil");
    reveal_strlit("ceilf");
    assert("ceilf"@ =~= "ceil"@ + "f"@);
    reveal_strlit("trunc");
    reveal_strlit("truncf");
    assert("truncf"@ =~= "trunc"@ + "f"@);
    reveal_strlit("round");
    reveal_strlit("roundf");
    assert("roundf"@ =~= "round"@ + "f"@);
    reveal_strlit("rint");
    reveal_strlit("rintf");
    assert("rintf"@ =~= "rint"@ + "f"@);
    reveal_strlit("copysign");
    reveal_strlit("copysignf");
    assert("copysignf"@ =~= "copysign"@ + "f"@);
    reveal_strlit("pow");
    reveal_strlit("powf");
    assert("powf"@ =~= "pow"@ + "f"@);
    reveal_strlit("fmin");
    reveal_strlit("fminf");
    assert("fminf"@ =~= "fmin"@ + "f"@);
    reveal_strlit("fmax");
    reveal_strlit("fmaxf");
    assert("fmaxf"@ =~= "fmax"@ + "f"@);
    reveal_strlit("fma");
    reveal_strlit("fmaf");
    assert("fmaf"@ =~= "fma"@ + "f"@);
}

/// An intrinsic is found by its own name only, and a function of C stands for one on
/// floating-point numbers by the name and by the width. Every name is found.
pub proof fn intrinsics_are_found_by_their_names(name: Text, i: Intrinsic)
    ensures
        intrinsic_named(name) == Some(i) ==> called_by(i, name),
        called_by(i, name) ==> intrinsic_named(name) is Some,
{
    single_precision_ends_in_f();
}

// --- Calls of C functions ---

/// An intrinsic on floating-point numbers calls its function with its arguments in
/// order and stores what it gives; a power to an integer takes the exponent as a
/// number of the same type.
pub proof fn math_intrinsics_call_their_function(
    b: Bx,
    i: Intrinsic,
    args: Seq<ValueRef>,
    dest: ValueRef,
    l: Layout,
    tp: TypeArg,
)
    requires
        b.at_block(),
        b.has(dest),
        assigned_whole(b.kind_of(args[0])),
        b.cx.values.len() < usize::MAX,
    ensures
        ({
            let later = b.intrinsic(i, args, dest, l, tp);
            let t = b.type_str(b.type_of(args[0]));
            let (x, y, z) = (b.var(args[0]), b.var(args[1]), b.var(args[2]));
            match i {
                Intrinsic::UnaryMath { f, width } => stores(
                    b,
                    later,
                    t,
                    Expr::call(math_name(unary_text(f), width), seq![x]),
                    dest,
                ),
                Intrinsic::BinaryMath { func, width } => stores(
                    b,
                    later,
                    t,
                    Expr::call(math_name(binary_text(func), width), seq![x, y]),
                    dest,
                ),
                Intrinsic::Powi { width } => stores(
                    b,
                    later,
                    t,
                    Expr::call(
                        math_name("pow"@, width),
                        seq![
                            x,
                            Expr::cast(
                                if width is F32 {
                                    "float"@
                                } else {
                                    "double"@
                                },
                                y,
                            ),
                        ],
                    ),
                    dest,
                ),
                Intrinsic::Fma { width } => stores(
                    b,
                    later,
                    t,
                    Expr::call(math_name("fma"@, width), seq![x, y, z]),
                    dest,
                ),
                _ => true,
            }
        }),
{
    let t = b.type_of(args[0]);
    let (x, y, z) = (b.var(args[0]), b.var(args[1]), b.var(args[2]));
    match i {
        Intrinsic::UnaryMath { f, width } => {
            let e = Expr::call(math_name(unary_text(f), width), seq![x]);
            expressions_are_stored(b, t, e, dest);
        },
        Intrinsic::BinaryMath { func, width } => {
            let e = Expr::call(math_name(binary_text(func), width), seq![x, y]);
            expressions_are_stored(b, t, e, dest);
        },
        Intrinsic::Powi { width } => {
            let exponent = Expr::cast(crate::intrinsic::float_text_of(width), y);
            let e = Expr::call(math_name("pow"@, width), seq![x, exponent]);
            expressions_are_stored(b, t, e, dest);
        },
        Intrinsic::Fma { width } => {
            let e = Expr::call(math_name("fma"@, width), seq![x, y, z]);
            expressions_are_stored(b, t, e, dest);
        },
        _ => {},
    }
}

/// Bytes are compared by `memcmp`, of both operands in order: with a length that is
/// given, the result is what it gives; of two values of a type, over the size of the
/// type, the result says whether it gives zero.
pub proof fn bytes_are_compared(
    b: Bx,
    args: Seq<ValueRef>,
    dest: ValueRef,
    l: Layout,
    tp: TypeArg,
)
    requires
        b.at_block(),
        b.has(dest),
        b.cx.values.len() < usize::MAX,
        b.cx.types.len() < usize::MAX,
    ensures
        ({
            let (x, y, n) = (b.var(args[0]), b.var(args[1]), b.var(args[2]));
            let size = Expr::Lit(dec(tp.layout.size as nat));
            &&& stores(
                b,
                b.intrinsic(Intrinsic::CompareBytes, args, dest, l, tp),
                "int32_t"@,
                Expr::call("memcmp"@, seq![x, y, n]),
                dest,
            )
            &&& stores(
                b,
                b.intrinsic(Intrinsic::RawEq, args, dest, l, tp),
                "int8_t"@,
                Expr::binop(
                    Expr::call("memcmp"@, seq![x, y, size]),
                    CBinOp::Eq,
                    Expr::Lit("0"@),
                ),
                dest,
            )
        }),
{
    word_name();
    let (word, byte) = (
        Kind::Int { bits: 32, signed: true },
        Kind::Int { bits: 8, signed: true },
    );
    interned_kind(b.cx, word);
    interned_kind(b.cx, byte);
    crate::meaning::byte_name(b.cx.intern(byte), b.cx.ty(byte));
    let (x, y, n) = (b.var(args[0]), b.var(args[1]), b.var(args[2]));
    let size = Expr::Lit(dec(tp.layout.size as nat));
    expressions_are_stored(
        b.intern(word),
        b.cx.ty(word),
        Expr::call("memcmp"@, seq![x, y, n]),
        dest,
    );
    expressions_are_stored(
        b.intern(byte),
        b.cx.ty(byte),
        Expr::binop(Expr::call("memcmp"@, seq![x, y, size]), CBinOp::Eq, Expr::Lit("0"@)),
        dest,
    );
}

/// A call that may unwind is run by `__rust_try`, which takes the function, its data
/// and the function that is called when it unwinds, in this order.
pub proof fn unwinding_is_caught(
    b: Bx,
    args: Seq<ValueRef>,
    dest: ValueRef,
    l: Layout,
    tp: TypeArg,
)
    requires
        b.at_block(),
        b.has(dest),
        b.cx.values.len() < usize::MAX,
        b.cx.types.len() < usize::MAX,
    ensures
        stores(
            b,
            b.intrinsic(Intrinsic::CatchUnwind, args, dest, l, tp),
            "int32_t"@,
            Expr::call(
                "__rust_try"@,
                seq![
                    Expr::cast("void (*)(void *)"@, b.var(args[0])),
                    b.var(args[1]),
                    Expr::cast("void (*)(void *, void *)"@, b.var(args[2])),
                ],
            ),
            dest,
        ),
{
    word_name();
    let word = Kind::Int { bits: 32, signed: true };
    interned_kind(b.cx, word);
    expressions_are_stored(
        b.intern(word),
        b.cx.ty(word),
        Expr::call(
            "__rust_try"@,
            seq![
                Expr::cast("void (*)(void *)"@, b.var(args[0])),
                b.var(args[1]),
                Expr::cast("void (*)(void *, void *)"@, b.var(args[2])),
            ],
        ),
        dest,
    );
}

proof fn truth_pointers_are_written()
    ensures
        "_Bool"@ + " *"@ == "_Bool *"@,
{
    reveal_strlit("_Bool");
    reveal_strlit(" *");
    reveal_strlit("_Bool *");
    assert("_Bool"@ + " *"@ =~= "_Bool *"@);
}

/// Nothing is known at compile time: what is stored is false.
pub proof fn nothing_is_known_at_compile_time(
    b: Bx,
    args: Seq<ValueRef>,
    dest: ValueRef,
    l: Layout,
    tp: TypeArg,
)
    requires
        b.at_block(),
        b.has(dest),
        b.cx.values.len() < usize::MAX,
        b.cx.types.len() < usize::MAX,
    ensures
        b.intrinsic(Intrinsic::IsValStaticallyKnown, args, dest, l, tp).code() == b.code().push(
            Stmt::Assign(Expr::deref("_Bool *"@, b.var(dest)), Expr::Var("0"@)),
        ),
{
    let (c, v) = b.cx.adds(ValKind::BoolConst(false), Kind::Bool);
    let b1 = b.with_cx(c);
    interned_kind(b.cx, Kind::Bool);
    value_text_is_stable(b.cx.values, c.values, dest.0 as nat);
    truth_pointers_are_written();
    assert(c.type_of(v) == b.cx.ty(Kind::Bool));
    assert(c.kind(c.type_of(v)) is Bool);
    assert(c.type_str(c.type_of(v)) == "_Bool"@);
    assert(c.text(v) == "0"@);
    let s = Stmt::Assign(Expr::deref("_Bool *"@, b1.var(dest)), b1.var(v));
    assert(b1.store(v, dest).0 == b1.emit(s));
    emitted_is_last(b1, s);
}

/// Of two values the one is stored that the condition chooses.
pub proof fn chosen_values_are_stored(
    b: Bx,
    args: Seq<ValueRef>,
    dest: ValueRef,
    l: Layout,
    tp: TypeArg,
)
    requires
        b.at_block(),
        b.has(dest),
        assigned_whole(b.kind_of(args[1])),
        b.cx.values.len() < usize::MAX,
    ensures
        stores(
            b,
            b.intrinsic(Intrinsic::SelectUnpredictable, args, dest, l, tp),
            b.type_str(b.type_of(args[1])),
            Expr::ternary(b.var(args[0]), b.var(args[1]), b.var(args[2])),
            dest,
        ),
{
    expressions_are_stored(
        b,
        b.type_of(args[1]),
        Expr::ternary(b.var(args[0]), b.var(args[1]), b.var(args[2])),
        dest,
    );
}

proof fn fences_are_written(v: Text)
    ensures
        "atomic_signal_fence(memory_order_acq_rel); (void)"@ + v + ";"@
            == "atomic_signal_fence(memory_order_acq_rel);"@ + (" (void)"@ + v + ";"@),
{
    reveal_strlit("atomic_signal_fence(memory_order_acq_rel);");
    reveal_strlit("atomic_signal_fence(memory_order_acq_rel); (void)");
    reveal_strlit(" (void)");
    let fence = "atomic_signal_fence(memory_order_acq_rel);"@;
    assert("atomic_signal_fence(memory_order_acq_rel); (void)"@ =~= fence + " (void)"@);
    assert(fence + " (void)"@ + v + ";"@ =~= fence + (" (void)"@ + v + ";"@));
}

/// What has no result: a value that is kept from being optimised away stands behind a
/// fence, a prefetch is nothing, a list of arguments is copied to the first operand
/// from the second, and a volatile store writes the second operand where the first
/// points.
pub proof fn effects_are_emitted(
    b: Bx,
    args: Seq<ValueRef>,
    dest: ValueRef,
    l: Layout,
    tp: TypeArg,
)
    requires
        b.at_block(),
    ensures
        b.intrinsic(Intrinsic::Prefetch, args, dest, l, tp) == b,
        ({
            let fence = "atomic_signal_fence(memory_order_acq_rel);"@;
            b.intrinsic(Intrinsic::BlackBox, args, dest, l, tp).code() == b.code().push(
                Stmt::Raw(
                    if l.is_zst {
                        fence
                    } else {
                        fence + (" (void)"@ + b.cx.text(dest) + ";"@)
                    },
                ),
            )
        }),
        b.intrinsic(Intrinsic::VaCopy, args, dest, l, tp).code() == b.code().push(
            Stmt::Expr(
                Expr::call(
                    "va_copy"@,
                    seq![
                        Expr::deref("va_list *"@, b.var(args[0])),
                        Expr::deref("va_list *"@, b.var(args[1])),
                    ],
                ),
            ),
        ),
        b.intrinsic(Intrinsic::VolatileStore, args, dest, l, tp).code() == b.code().push(
            Stmt::Assign(
                Expr::deref(
                    "volatile "@ + b.type_str(b.type_of(args[1])) + " *"@,
                    b.var(args[0]),
                ),
                b.var(args[1]),
            ),
        ),
        b.intrinsic(Intrinsic::SimdOther, args, dest, l, tp).code() == b.code().push(
            Stmt::Expr(
                Expr::call(
                    "memset"@,
                    seq![b.var(dest), Expr::Lit("0"@), Expr::Lit(dec(l.size as nat))],
                ),
            ),
        ),
{
    let fence = "atomic_signal_fence(memory_order_acq_rel);"@;
    fences_are_written(b.cx.text(dest));
    emitted_is_last(b, Stmt::Raw(fence));
    emitted_is_last(b, Stmt::Raw(fence + (" (void)"@ + b.cx.text(dest) + ";"@)));
    emitted_is_last(
        b,
        Stmt::Expr(
            Expr::call(
                "va_copy"@,
                seq![
                    Expr::deref("va_list *"@, b.var(args[0])),
                    Expr::deref("va_list *"@, b.var(args[1])),
                ],
            ),
        ),
    );
    emitted_is_last(
        b,
        Stmt::Assign(
            Expr::deref("volatile "@ + b.type_str(b.type_of(args[1])) + " *"@, b.var(args[0])),
            b.var(args[1]),
        ),
    );
    emitted_is_last(
        b,
        Stmt::Expr(
            Expr::call(
                "memset"@,
                seq![b.var(dest), Expr::Lit("0"@), Expr::Lit(dec(l.size as nat))],
            ),
        ),
    );
}

proof fn exchanges_are_written(x: Text, y: Text, n: Text, align: Text)
    ensures
        "{ _Alignas("@ + align + ") unsigned char _swap_tmp["@ + n + "];"@ == "{ "@ + ("_Alignas("@
            + align + ") unsigned char _swap_tmp["@ + n + "];"@),
        "  memcpy(_swap_tmp, "@ + x + ", "@ + n + ");"@ == "  memcpy("@ + "_swap_tmp"@ + ", "@ + x
            + ", "@ + n + ");"@,
        "  memcpy("@ + y + ", _swap_tmp, "@ + n + "); }"@ == "  memcpy("@ + y + ", "@
            + "_swap_tmp"@ + ", "@ + n + ");"@ + " }"@,
{
    reveal_strlit("{ _Alignas(");
    reveal_strlit("{ ");
    reveal_strlit("_Alignas(");
    reveal_strlit("  memcpy(_swap_tmp, ");
    reveal_strlit("  memcpy(");
    reveal_strlit("_swap_tmp");
    reveal_strlit(", ");
    reveal_strlit(", _swap_tmp, ");
    reveal_strlit("); }");
    reveal_strlit(");");
    reveal_strlit(" }");
    let rest = ") unsigned char _swap_tmp["@;
    assert("{ _Alignas("@ =~= "{ "@ + "_Alignas("@);
    assert("{ "@ + "_Alignas("@ + align + rest + n + "];"@ =~= "{ "@ + ("_Alignas("@ + align + rest
        + n + "];"@));
    assert("  memcpy(_swap_tmp, "@ =~= "  memcpy("@ + "_swap_tmp"@ + ", "@);
    assert(", _swap_tmp, "@ =~= ", "@ + "_swap_tmp"@ + ", "@);
    assert("); }"@ =~= ");"@ + " }"@);
    let head = "  memcpy("@ + y;
    assert(head + (", "@ + "_swap_tmp"@ + ", "@) =~= head + ", "@ + "_swap_tmp"@ + ", "@);
    let all = head + ", "@ + "_swap_tmp"@ + ", "@ + n;
    assert(all + (");"@ + " }"@) =~= all + ");"@ + " }"@);
}

/// Two values of a type are exchanged: the first goes to a place that is as large and
/// as aligned, the second to the first, and from there to the second.
pub proof fn values_are_exchanged(
    b: Bx,
    args: Seq<ValueRef>,
    dest: ValueRef,
    l: Layout,
    tp: TypeArg,
)
    requires
        b.at_block(),
    ensures
        ({
            let (x, y, n) = (
                b.cx.text(args[0]),
                b.cx.text(args[1]),
                dec(tp.layout.size as nat),
            );
            let place = "_Alignas("@ + dec(tp.layout.align as nat) + ") unsigned char _swap_tmp["@
                + n + "];"@;
            let copy = |to: Text, from: Text|
                "  memcpy("@ + to + ", "@ + from + ", "@ + n + ");"@;
            b.intrinsic(Intrinsic::TypedSwap, args, dest, l, tp).code() == b.code() + seq![
                Stmt::Raw("{ "@ + place),
                Stmt::Raw(copy("_swap_tmp"@, x)),
                Stmt::Raw(copy(x, y)),
                Stmt::Raw(copy(y, "_swap_tmp"@) + " }"@),
            ]
        }),
{
    let (x, y, n) = (b.cx.text(args[0]), b.cx.text(args[1]), dec(tp.layout.size as nat));
    let align = dec(tp.layout.align as nat);
    exchanges_are_written(x, y, n, align);
    let s1 = "{ _Alignas("@ + align + ") unsigned char _swap_tmp["@ + n + "];"@;
    let s2 = "  memcpy(_swap_tmp, "@ + x + ", "@ + n + ");"@;
    let s3 = "  memcpy("@ + x + ", "@ + y + ", "@ + n + ");"@;
    let s4 = "  memcpy("@ + y + ", _swap_tmp, "@ + n + "); }"@;
    emitted_is_last(b, Stmt::Raw(s1));
    let b1 = b.emit(Stmt::Raw(s1));
    emitted_is_last(b1, Stmt::Raw(s2));
    let b2 = b1.emit(Stmt::Raw(s2));
    emitted_is_last(b2, Stmt::Raw(s3));
    let b3 = b2.emit(Stmt::Raw(s3));
    emitted_is_last(b3, Stmt::Raw(s4));
    let added = seq![Stmt::Raw(s1), Stmt::Raw(s2), Stmt::Raw(s3), Stmt::Raw(s4)];
    assert(b3.emit(Stmt::Raw(s4)).code() =~= b.code() + added);
}

// --- What is read as a type ---

/// An argument that is read from a list, and a value that is read through a volatile
/// pointer, are read as the type of the layout and stored.
pub proof fn typed_values_are_read(
    b: Bx,
    args: Seq<ValueRef>,
    dest: ValueRef,
    l: Layout,
    tp: TypeArg,
)
    requires
        b.at_block(),
        b.has(dest),
        b.has(args[0]),
        assigned_whole(b.cx.layout_type(tp.layout).0.kind(b.cx.layout_type(tp.layout).1)),
        b.cx.values.len() < usize::MAX,
    ensures
        ({
            let (c, t) = b.cx.layout_type(tp.layout);
            let name = c.type_str(t);
            &&& stores(
                b,
                b.intrinsic(Intrinsic::VaArg, args, dest, l, tp),
                name,
                Expr::Raw(
                    "va_arg(*(va_list *)"@ + b.cx.text(args[0]) + ", "@ + name + ")"@,
                ),
                dest,
            )
            &&& stores(
                b,
                b.intrinsic(Intrinsic::VolatileLoad, args, dest, l, tp),
                name,
                Expr::deref("volatile "@ + name + " *"@, b.var(args[0])),
                dest,
            )
        }),
{
    let (c, t) = b.cx.layout_type(tp.layout);
    crate::order::layout_only_adds_types(b.cx, tp.layout);
    let b1 = b.with_cx(c);
    let name = c.type_str(t);
    let e = Expr::Raw(crate::intrinsic::va_arg_expr_text(b.cx.text(args[0]), name));
    expressions_are_stored(b1, t, e, dest);
    let r = Expr::deref("volatile "@ + name + " *"@, b.var(args[0]));
    expressions_are_stored(b1, t, r, dest);
    assert(b1.volatile_load(t, args[0]) == b1.temp_stmt(t, r));
}

/// A checked load reads the pointer that stands at the offset in the table.
pub proof fn tables_are_read_at_the_offset(b: Bx, table: ValueRef, offset: u64, m: Meaning)
    requires
        b.at_block(),
        b.cx.ptr_bytes > 0,
        offset % b.cx.ptr_bytes == 0,
        (m.names)(dec((offset / b.cx.ptr_bytes) as nat) + " * sizeof(void *)"@) == (offset
            / b.cx.ptr_bytes) * b.cx.ptr_bytes,
        crate::meaning::converted("char *"@, m.of(b, table), m.ptr_bits) == m.of(b, table),
    ensures
        ({
            let (later, v) = b.type_checked_load(table, offset);
            &&& later.code().drop_last() == b.code()
            &&& later.code().last() matches Stmt::Assign(place, e) && place == later.var(v)
                && m.eval(e) == (m.memory)("void **"@, m.of(b, table) + offset)
        }),
{
    let b1 = b.intern(Kind::Ptr);
    let index = Expr::Raw(dec((offset / b.cx.ptr_bytes) as nat) + " * sizeof(void *)"@);
    let base = Expr::cast("char *"@, b1.var(table));
    let sum = Expr::binop(base, CBinOp::Add, index);
    let e = Expr::deref("void **"@, Expr::paren(sum));
    temporaries_are_assigned(b1, b.cx.ty(Kind::Ptr), e);
    let (later, v) = b1.temp_stmt(b.cx.ty(Kind::Ptr), e);
    assert(later.code().drop_last() =~= b.code());
    let (o, p) = (offset as int, b.cx.ptr_bytes as int);
    vstd::arithmetic::div_mod::lemma_fundamental_div_mod(o, p);
    vstd::arithmetic::mul::lemma_mul_is_commutative(p, o / p);
    assert(m.eval(b1.var(table)) == m.of(b, table));
    assert(m.eval(base) == m.of(b, table));
    assert(m.eval(index) == offset);
    assert(m.eval(sum) == m.of(b, table) + offset);
    assert(m.eval(Expr::paren(sum)) == m.of(b, table) + offset);
}

// --- Operations on bits and on vectors ---

/// An intrinsic on bits or on vectors is the operation of its own, on its arguments in
/// order.
pub proof fn operations_take_their_arguments(
    b: Bx,
    args: Seq<ValueRef>,
    dest: ValueRef,
    l: Layout,
    tp: TypeArg,
    side: bool,
    op: LaneSign,
)
    ensures
        b.intrinsic(Intrinsic::Ctlz, args, dest, l, tp) == b.codegen_ctlz(args[0], dest),
        b.intrinsic(Intrinsic::Cttz, args, dest, l, tp) == b.codegen_cttz(args[0], dest),
        b.intrinsic(Intrinsic::Ctpop, args, dest, l, tp) == b.codegen_ctpop(args[0], dest),
        b.intrinsic(Intrinsic::Bswap, args, dest, l, tp) == b.codegen_bswap(args[0], dest),
        b.intrinsic(Intrinsic::Bitreverse, args, dest, l, tp) == b.codegen_bitreverse(
            args[0],
            dest,
        ),
        b.intrinsic(Intrinsic::Saturating { is_add: side }, args, dest, l, tp)
            == b.codegen_saturating(side, args[0], args[1], dest),
        b.intrinsic(Intrinsic::Rotate { left: side }, args, dest, l, tp) == b.codegen_rotate(
            side,
            args[0],
            args[1],
            dest,
        ),
        b.intrinsic(Intrinsic::FunnelShift { left: side }, args, dest, l, tp)
            == b.codegen_funnel_shift(side, args[0], args[1], args[2], dest),
        b.intrinsic(Intrinsic::CarryingMulAdd, args, dest, l, tp) == b.codegen_carrying_mul_add(
            args[0],
            args[1],
            args[2],
            args[3],
            dest,
            tp.int_size,
            tp.signed,
        ),
        b.intrinsic(Intrinsic::SimdExtract, args, dest, l, tp) == b.codegen_simd_extract(
            args[0],
            args[1],
            dest,
        ),
        b.intrinsic(Intrinsic::SimdInsert, args, dest, l, tp) == b.codegen_simd_insert(
            args[0],
            args[1],
            args[2],
            dest,
        ),
        b.intrinsic(Intrinsic::SimdCast, args, dest, l, tp) == b.codegen_simd_cast(
            args[0],
            dest,
            l,
        ),
        b.intrinsic(Intrinsic::SimdShuffle, args, dest, l, tp) == b.codegen_simd_shuffle(
            args[0],
            args[1],
            args[2],
            dest,
            l,
        ),
        exists|sign: Text|
            b.intrinsic(Intrinsic::SimdCompare { op }, args, dest, l, tp)
                == #[trigger] b.codegen_simd_compare(sign, args[0], args[1], dest, l)
                && b.intrinsic(Intrinsic::SimdBinary { op }, args, dest, l, tp)
                == b.codegen_simd_binary(sign, args[0], args[1], dest) && " "@ + sign + " "@
                == crate::meaning::sign_of(lane_operator(op)),
{
    signs_are_between_spaces(op);
    assert(b.intrinsic(Intrinsic::SimdCompare { op }, args, dest, l, tp) == b.codegen_simd_compare(
        crate::intrinsic::sign_text(op),
        args[0],
        args[1],
        dest,
        l,
    ));
}

/// The operator that an operation on lanes applies.
pub open spec fn lane_operator(op: LaneSign) -> CBinOp {
    match op {
        LaneSign::Eq => CBinOp::Eq,
        LaneSign::Ne => CBinOp::Ne,
        LaneSign::Lt => CBinOp::Lt,
        LaneSign::Le => CBinOp::Le,
        LaneSign::Gt => CBinOp::Gt,
        LaneSign::Ge => CBinOp::Ge,
        LaneSign::And => CBinOp::BitAnd,
        LaneSign::Or => CBinOp::BitOr,
        LaneSign::Xor => CBinOp::BitXor,
        LaneSign::Shl => CBinOp::Shl,
        LaneSign::Shr => CBinOp::Shr,
    }
}

proof fn signs_are_between_spaces(op: LaneSign)
    ensures
        " "@ + crate::intrinsic::sign_text(op) + " "@ == crate::meaning::sign_of(
            lane_operator(op),
        ),
{
    reveal_strlit(" ");
    reveal_strlit("==");
    reveal_strlit(" == ");
    reveal_strlit("!=");
    reveal_strlit(" != ");
    reveal_strlit("<");
    reveal_strlit(" < ");
    reveal_strlit("<=");
    reveal_strlit(" <= ");
    reveal_strlit(">");
    reveal_strlit(" > ");
    reveal_strlit(">=");
    reveal_strlit(" >= ");
    reveal_strlit("&");
    reveal_strlit(" & ");
    reveal_strlit("|");
    reveal_strlit(" | ");
    reveal_strlit("^");
    reveal_strlit(" ^ ");
    reveal_strlit("<<");
    reveal_strlit(" << ");
    reveal_strlit(">>");
    reveal_strlit(" >> ");
    assert(" "@ + crate::intrinsic::sign_text(op) + " "@ =~= crate::meaning::sign_of(
        lane_operator(op),
    ));
}

} // verus!
