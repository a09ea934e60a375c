//! Intrinsics: which of them have C code, and what it is.
use vstd::prelude::*;

use crate::builder::{Builder, Bx};
use crate::c_ast::{CBinOp, CExpr, CStmt, Expr, Stmt};
use crate::layout::{BackendRepr, Layout, TyTag};
use crate::simd::vec_len;
use crate::text::{dec, dec_u64, has_prefix, same_text, starts_with, texts, Text};
use crate::type_of::layout_to_c_type;
use crate::types::{int_name, CTypeKind, Kind};
use crate::values::{ValKind, ValueRef};

verus! {

/// The precision of a mathematical function.
#[derive(Clone, Copy, PartialEq, Eq, Structural, Debug)]
pub enum MathWidth {
    F32,
    F64,
}

/// The mathematical functions of one number.
#[derive(Clone, Copy, PartialEq, Eq, Structural, Debug)]
pub enum UnaryFn {
    Fabs,
    Sqrt,
    Sin,
    Cos,
    Exp,
    Exp2,
    Log,
    Log10,
    Log2,
    Floor,
    Ceil,
    Trunc,
    Round,
    Rint,
}

/// The mathematical functions of two numbers.
#[derive(Clone, Copy, PartialEq, Eq, Structural, Debug)]
pub enum BinaryFn {
    Copysign,
    Pow,
    Fmin,
    Fmax,
}

/// The operators that are applied to the elements of vectors.
#[derive(Clone, Copy, PartialEq, Eq, Structural, Debug)]
pub enum LaneSign {
    Eq,
    Ne,
    Lt,
    Le,
    Gt,
    Ge,
    And,
    Or,
    Xor,
    Shl,
    Shr,
}

/// The intrinsics that have C code.
#[derive(Clone, Copy, PartialEq, Eq, Structural, Debug)]
pub enum Intrinsic {
    BlackBox,
    VolatileLoad,
    VolatileStore,
    Prefetch,
    VaCopy,
    VaArg,
    CatchUnwind,
    IsValStaticallyKnown,
    SelectUnpredictable,
    CompareBytes,
    Ctlz,
    Cttz,
    Ctpop,
    Bswap,
    Bitreverse,
    Saturating { is_add: bool },
    RawEq,
    Rotate { left: bool },
    FunnelShift { left: bool },
    TypedSwap,
    CarryingMulAdd,
    UnaryMath { f: UnaryFn, width: MathWidth },
    BinaryMath { func: BinaryFn, width: MathWidth },
    Powi { width: MathWidth },
    Fma { width: MathWidth },
    SimdExtract,
    SimdCompare { op: LaneSign },
    SimdBinary { op: LaneSign },
    SimdInsert,
    SimdCast,
    SimdShuffle,
    /// Any other intrinsic on vectors.
    SimdOther,
}

/// The first type argument of an intrinsic.
#[derive(Debug)]
pub struct TypeArg {
    pub layout: Layout,
    /// The size in bytes of an integer type.
    pub int_size: u64,
    /// Whether an integer type is signed.
    pub signed: bool,
}

/// The intrinsics on memory, variable arguments and unwinding.
pub open spec fn general_intrinsic(name: Text) -> Option<Intrinsic> {
    if name == "black_box"@ {
        Some(Intrinsic::BlackBox)
    } else if name == "volatile_load"@ {
        Some(Intrinsic::VolatileLoad)
    } else if name == "unaligned_volatile_load"@ {
        Some(Intrinsic::VolatileLoad)
    } else if name == "volatile_store"@ {
        Some(Intrinsic::VolatileStore)
    } else if name == "prefetch_read_data"@ {
        Some(Intrinsic::Prefetch)
    } else if name == "prefetch_write_data"@ {
        Some(Intrinsic::Prefetch)
    } else if name == "prefetch_read_instruction"@ {
        Some(Intrinsic::Prefetch)
    } else if name == "prefetch_write_instruction"@ {
        Some(Intrinsic::Prefetch)
    } else if name == "va_copy"@ {
        Some(Intrinsic::VaCopy)
    } else if name == "va_arg"@ {
        Some(Intrinsic::VaArg)
    } else if name == "catch_unwind"@ {
        Some(Intrinsic::CatchUnwind)
    } else if name == "is_val_statically_known"@ {
        Some(Intrinsic::IsValStaticallyKnown)
    } else if name == "select_unpredictable"@ {
        Some(Intrinsic::SelectUnpredictable)
    } else if name == "compare_bytes"@ {
        Some(Intrinsic::CompareBytes)
    } else {
        None
    }
}

/// The intrinsics on the bits of integers.
pub open spec fn bit_intrinsic(name: Text) -> Option<Intrinsic> {
    if name == "ctlz"@ {
        Some(Intrinsic::Ctlz)
    } else if name == "ctlz_nonzero"@ {
        Some(Intrinsic::Ctlz)
    } else if name == "cttz"@ {
        Some(Intrinsic::Cttz)
    } else if name == "cttz_nonzero"@ {
        Some(Intrinsic::Cttz)
    } else if name == "ctpop"@ {
        Some(Intrinsic::Ctpop)
    } else if name == "bswap"@ {
        Some(Intrinsic::Bswap)
    } else if name == "bitreverse"@ {
        Some(Intrinsic::Bitreverse)
    } else if name == "saturating_add"@ {
        Some(Intrinsic::Saturating { is_add: true })
    } else if name == "saturating_sub"@ {
        Some(Intrinsic::Saturating { is_add: false })
    } else if name == "raw_eq"@ {
        Some(Intrinsic::RawEq)
    } else if name == "rotate_left"@ {
        Some(Intrinsic::Rotate { left: true })
    } else if name == "rotate_right"@ {
        Some(Intrinsic::Rotate { left: false })
    } else if name == "unchecked_funnel_shl"@ {
        Some(Intrinsic::FunnelShift { left: true })
    } else if name == "unchecked_funnel_shr"@ {
        Some(Intrinsic::FunnelShift { left: false })
    } else if name == "typed_swap_nonoverlapping"@ {
        Some(Intrinsic::TypedSwap)
    } else if name == "carrying_mul_add"@ {
        Some(Intrinsic::CarryingMulAdd)
    } else {
        None
    }
}

/// The mathematical functions of one single-precision number.
pub open spec fn float_intrinsic(name: Text) -> Option<Intrinsic> {
    if name == "fabsf32"@ {
        Some(Intrinsic::UnaryMath { f: UnaryFn::Fabs, width: MathWidth::F32 })
    } else if name == "sqrtf32"@ {
        Some(Intrinsic::UnaryMath { f: UnaryFn::Sqrt, width: MathWidth::F32 })
    } else if name == "sinf32"@ {
        Some(Intrinsic::UnaryMath { f: UnaryFn::Sin, width: MathWidth::F32 })
    } else if name == "cosf32"@ {
        Some(Intrinsic::UnaryMath { f: UnaryFn::Cos, width: MathWidth::F32 })
    } else if name == "expf32"@ {
        Some(Intrinsic::UnaryMath { f: UnaryFn::Exp, width: MathWidth::F32 })
    } else if name == "exp2f32"@ {
        Some(Intrinsic::UnaryMath { f: UnaryFn::Exp2, width: MathWidth::F32 })
    } else if name == "logf32"@ {
        Some(Intrinsic::UnaryMath { f: UnaryFn::Log, width: MathWidth::F32 })
    } else if name == "log10f32"@ {
        Some(Intrinsic::UnaryMath { f: UnaryFn::Log10, width: MathWidth::F32 })
    } else if name == "log2f32"@ {
        Some(Intrinsic::UnaryMath { f: UnaryFn::Log2, width: MathWidth::F32 })
    } else if name == "floorf32"@ {
        Some(Intrinsic::UnaryMath { f: UnaryFn::Floor, width: MathWidth::F32 })
    } else if name == "ceilf32"@ {
        Some(Intrinsic::UnaryMath { f: UnaryFn::Ceil, width: MathWidth::F32 })
    } else if name == "truncf32"@ {
        Some(Intrinsic::UnaryMath { f: UnaryFn::Trunc, width: MathWidth::F32 })
    } else if name == "roundf32"@ {
        Some(Intrinsic::UnaryMath { f: UnaryFn::Round, width: MathWidth::F32 })
    } else if name == "round_ties_even_f32"@ {
        Some(Intrinsic::UnaryMath { f: UnaryFn::Rint, width: MathWidth::F32 })
    } else {
        None
    }
}

/// The mathematical functions of one double-precision number.
pub open spec fn double_intrinsic(name: Text) -> Option<Intrinsic> {
    if name == "fabsf64"@ {
        Some(Intrinsic::UnaryMath { f: UnaryFn::Fabs, width: MathWidth::F64 })
    } else if name == "sqrtf64"@ {
        Some(Intrinsic::UnaryMath { f: UnaryFn::Sqrt, width: MathWidth::F64 })
    } else if name == "sinf64"@ {
        Some(Intrinsic::UnaryMath { f: UnaryFn::Sin, width: MathWidth::F64 })
    } else if name == "cosf64"@ {
        Some(Intrinsic::UnaryMath { f: UnaryFn::Cos, width: MathWidth::F64 })
    } else if name == "expf64"@ {
        Some(Intrinsic::UnaryMath { f: UnaryFn::Exp, width: MathWidth::F64 })
    } else if name == "exp2f64"@ {
        Some(Intrinsic::UnaryMath { f: UnaryFn::Exp2, width: MathWidth::F64 })
    } else if name == "logf64"@ {
        Some(Intrinsic::UnaryMath { f: UnaryFn::Log, width: MathWidth::F64 })
    } else if name == "log10f64"@ {
        Some(Intrinsic::UnaryMath { f: UnaryFn::Log10, width: MathWidth::F64 })
    } else if name == "log2f64"@ {
        Some(Intrinsic::UnaryMath { f: UnaryFn::Log2, width: MathWidth::F64 })
    } else if name == "floorf64"@ {
        Some(Intrinsic::UnaryMath { f: UnaryFn::Floor, width: MathWidth::F64 })
    } else if name == "ceilf64"@ {
        Some(Intrinsic::UnaryMath { f: UnaryFn::Ceil, width: MathWidth::F64 })
    } else if name == "truncf64"@ {
        Some(Intrinsic::UnaryMath { f: UnaryFn::Trunc, width: MathWidth::F64 })
    } else if name == "roundf64"@ {
        Some(Intrinsic::UnaryMath { f: UnaryFn::Round, width: MathWidth::F64 })
    } else if name == "round_ties_even_f64"@ {
        Some(Intrinsic::UnaryMath { f: UnaryFn::Rint, width: MathWidth::F64 })
    } else {
        None
    }
}

/// The mathematical functions of two or three numbers.
pub open spec fn math_intrinsic(name: Text) -> Option<Intrinsic> {
    if name == "copysignf32"@ {
        Some(Intrinsic::BinaryMath { func: BinaryFn::Copysign, width: MathWidth::F32 })
    } else if name == "powf32"@ {
        Some(Intrinsic::BinaryMath { func: BinaryFn::Pow, width: MathWidth::F32 })
    } else if name == "minnumf32"@ {
        Some(Intrinsic::BinaryMath { func: BinaryFn::Fmin, width: MathWidth::F32 })
    } else if name == "maxnumf32"@ {
        Some(Intrinsic::BinaryMath { func: BinaryFn::Fmax, width: MathWidth::F32 })
    } else if name == "powif32"@ {
        Some(Intrinsic::Powi { width: MathWidth::F32 })
    } else if name == "fmaf32"@ {
        Some(Intrinsic::Fma { width: MathWidth::F32 })
    } else if name == "fmuladdf32"@ {
        Some(Intrinsic::Fma { width: MathWidth::F32 })
    } else if name == "copysignf64"@ {
        Some(Intrinsic::BinaryMath { func: BinaryFn::Copysign, width: MathWidth::F64 })
    } else if name == "powf64"@ {
        Some(Intrinsic::BinaryMath { func: BinaryFn::Pow, width: MathWidth::F64 })
    } else if name == "minnumf64"@ {
        Some(Intrinsic::BinaryMath { func: BinaryFn::Fmin, width: MathWidth::F64 })
    } else if name == "maxnumf64"@ {
        Some(Intrinsic::BinaryMath { func: BinaryFn::Fmax, width: MathWidth::F64 })
    } else if name == "powif64"@ {
        Some(Intrinsic::Powi { width: MathWidth::F64 })
    } else if name == "fmaf64"@ {
        Some(Intrinsic::Fma { width: MathWidth::F64 })
    } else if name == "fmuladdf64"@ {
        Some(Intrinsic::Fma { width: MathWidth::F64 })
    } else {
        None
    }
}

/// The intrinsics on vectors.
pub open spec fn simd_intrinsic(name: Text) -> Option<Intrinsic> {
    if name == "simd_extract"@ {
        Some(Intrinsic::SimdExtract)
    } else if name == "simd_eq"@ {
        Some(Intrinsic::SimdCompare { op: LaneSign::Eq })
    } else if name == "simd_ne"@ {
        Some(Intrinsic::SimdCompare { op: LaneSign::Ne })
    } else if name == "simd_lt"@ {
        Some(Intrinsic::SimdCompare { op: LaneSign::Lt })
    } else if name == "simd_le"@ {
        Some(Intrinsic::SimdCompare { op: LaneSign::Le })
    } else if name == "simd_gt"@ {
        Some(Intrinsic::SimdCompare { op: LaneSign::Gt })
    } else if name == "simd_ge"@ {
        Some(Intrinsic::SimdCompare { op: LaneSign::Ge })
    } else if name == "simd_and"@ {
        Some(Intrinsic::SimdBinary { op: LaneSign::And })
    } else if name == "simd_or"@ {
        Some(Intrinsic::SimdBinary { op: LaneSign::Or })
    } else if name == "simd_xor"@ {
        Some(Intrinsic::SimdBinary { op: LaneSign::Xor })
    } else if name == "simd_shl"@ {
        Some(Intrinsic::SimdBinary { op: LaneSign::Shl })
    } else if name == "simd_shr"@ {
        Some(Intrinsic::SimdBinary { op: LaneSign::Shr })
    } else if name == "simd_insert"@ {
        Some(Intrinsic::SimdInsert)
    } else if name == "simd_cast"@ {
        Some(Intrinsic::SimdCast)
    } else if name == "simd_as"@ {
        Some(Intrinsic::SimdCast)
    } else if name == "simd_shuffle"@ {
        Some(Intrinsic::SimdShuffle)
    } else if name == "simd_shuffle_const_generic"@ {
        Some(Intrinsic::SimdShuffle)
    } else {
        None
    }
}

/// The intrinsic of a name.
pub open spec fn intrinsic_named(name: Text) -> Option<Intrinsic> {
    if general_intrinsic(name) is Some {
        general_intrinsic(name)
    } else if bit_intrinsic(name) is Some {
        bit_intrinsic(name)
    } else if float_intrinsic(name) is Some {
        float_intrinsic(name)
    } else if double_intrinsic(name) is Some {
        double_intrinsic(name)
    } else if math_intrinsic(name) is Some {
        math_intrinsic(name)
    } else if simd_intrinsic(name) is Some {
        simd_intrinsic(name)
    } else if has_prefix(name, "simd_"@) {
        Some(Intrinsic::SimdOther)
    } else {
        None
    }
}

/// The C name of a mathematical function: single precision has a suffix.
pub open spec fn math_name(base: Text, width: MathWidth) -> Text {
    match width {
        MathWidth::F32 => base + "f"@,
        MathWidth::F64 => base,
    }
}

/// The C name of a function of one number, in double precision.
pub open spec fn unary_text(f: UnaryFn) -> Text {
    match f {
        UnaryFn::Fabs => "fabs"@,
        UnaryFn::Sqrt => "sqrt"@,
        UnaryFn::Sin => "sin"@,
        UnaryFn::Cos => "cos"@,
        UnaryFn::Exp => "exp"@,
        UnaryFn::Exp2 => "exp2"@,
        UnaryFn::Log => "log"@,
        UnaryFn::Log10 => "log10"@,
        UnaryFn::Log2 => "log2"@,
        UnaryFn::Floor => "floor"@,
        UnaryFn::Ceil => "ceil"@,
        UnaryFn::Trunc => "trunc"@,
        UnaryFn::Round => "round"@,
        UnaryFn::Rint => "rint"@,
    }
}

/// The C name of a function of two numbers, in double precision.
pub open spec fn binary_text(f: BinaryFn) -> Text {
    match f {
        BinaryFn::Copysign => "copysign"@,
        BinaryFn::Pow => "pow"@,
        BinaryFn::Fmin => "fmin"@,
        BinaryFn::Fmax => "fmax"@,
    }
}

/// The C type of a precision.
pub open spec fn float_text_of(width: MathWidth) -> Text {
    match width {
        MathWidth::F32 => "float"@,
        MathWidth::F64 => "double"@,
    }
}

/// The C operator on elements of vectors.
pub open spec fn sign_text(op: LaneSign) -> Text {
    match op {
        LaneSign::Eq => "=="@,
        LaneSign::Ne => "!="@,
        LaneSign::Lt => "<"@,
        LaneSign::Le => "<="@,
        LaneSign::Gt => ">"@,
        LaneSign::Ge => ">="@,
        LaneSign::And => "&"@,
        LaneSign::Or => "|"@,
        LaneSign::Xor => "^"@,
        LaneSign::Shl => "<<"@,
        LaneSign::Shr => ">>"@,
    }
}

/// How many operands an intrinsic reads.
pub open spec fn arity(i: Intrinsic) -> nat {
    match i {
        Intrinsic::BlackBox => 0,
        Intrinsic::VolatileLoad => 1,
        Intrinsic::VolatileStore => 2,
        Intrinsic::Prefetch => 0,
        Intrinsic::VaCopy => 2,
        Intrinsic::VaArg => 1,
        Intrinsic::CatchUnwind => 3,
        Intrinsic::IsValStaticallyKnown => 0,
        Intrinsic::SelectUnpredictable => 3,
        Intrinsic::CompareBytes => 3,
        Intrinsic::Ctlz => 1,
        Intrinsic::Cttz => 1,
        Intrinsic::Ctpop => 1,
        Intrinsic::Bswap => 1,
        Intrinsic::Bitreverse => 1,
        Intrinsic::Saturating { .. } => 2,
        Intrinsic::RawEq => 2,
        Intrinsic::Rotate { .. } => 2,
        Intrinsic::FunnelShift { .. } => 3,
        Intrinsic::TypedSwap => 2,
        Intrinsic::CarryingMulAdd => 4,
        Intrinsic::UnaryMath { .. } => 1,
        Intrinsic::BinaryMath { .. } => 2,
        Intrinsic::Powi { .. } => 2,
        Intrinsic::Fma { .. } => 3,
        Intrinsic::SimdExtract => 2,
        Intrinsic::SimdCompare { .. } => 2,
        Intrinsic::SimdBinary { .. } => 2,
        Intrinsic::SimdInsert => 3,
        Intrinsic::SimdCast => 1,
        Intrinsic::SimdShuffle => 3,
        Intrinsic::SimdOther => 0,
    }
}

/// Whether an intrinsic depends on its type argument.
pub open spec fn needs_type(i: Intrinsic) -> bool {
    i is VolatileLoad || i is VaArg || i is RawEq || i is TypedSwap || i is CarryingMulAdd
}

/// The statements that multiply two 128-bit numbers and add two others, by
/// halves.
pub open spec fn wide_mul_lines(a: Text, b: Text, c: Text, d: Text, t: Text, dest: Text, n: Text) -> Seq<Text> {
    seq![
        "{ /* carrying_mul_add u128 */"@,
        "  uint64_t _a_lo = (uint64_t)"@ + a + ";"@,
        "  uint64_t _a_hi = (uint64_t)((uint128_t)"@ + a + " >> 64);"@,
        "  uint64_t _b_lo = (uint64_t)"@ + b + ";"@,
        "  uint64_t _b_hi = (uint64_t)((uint128_t)"@ + b + " >> 64);"@,
        "  uint128_t _lo_lo = (uint128_t)_a_lo * _b_lo;"@,
        "  uint128_t _hi_lo = (uint128_t)_a_hi * _b_lo;"@,
        "  uint128_t _lo_hi = (uint128_t)_a_lo * _b_hi;"@,
        "  uint128_t _hi_hi = (uint128_t)_a_hi * _b_hi;"@,
        "  uint128_t _mid = _hi_lo + _lo_hi;"@,
        "  uint128_t _carry_mid = (_mid < _hi_lo) ? ((uint128_t)1 << 64) : 0;"@,
        "  uint128_t _low = _lo_lo + (_mid << 64);"@,
        "  uint128_t _carry_low = (_low < _lo_lo) ? 1 : 0;"@,
        "  uint128_t _high = _hi_hi + (_mid >> 64) + _carry_mid + _carry_low;"@,
        "  _low += (uint128_t)"@ + c + ";"@,
        "  if (_low < (uint128_t)"@ + c + ") _high += 1;"@,
        "  _low += (uint128_t)"@ + d + ";"@,
        "  if (_low < (uint128_t)"@ + d + ") _high += 1;"@,
        "  *(("@ + t + " *)"@ + dest + ") = ("@ + t + ")_low;"@,
        "  *(("@ + t + " *)((char *)"@ + dest + " + "@ + n + ")) = ("@ + t + ")_high;"@,
        "}"@,
    ]
}

/// The next variable argument of a list given by its address.
pub open spec fn va_arg_expr_text(l: Text, t: Text) -> Text {
    "va_arg(*(va_list *)"@ + l + ", "@ + t + ")"@
}

/// The product of two numbers plus two others, at twice the width.
pub open spec fn wide_mul_text(w: Text, a: Text, b: Text, c: Text, d: Text) -> Text {
    "("@ + w + ")"@ + a + " * ("@ + w + ")"@ + b + " + ("@ + w + ")"@ + c + " + ("@ + w + ")"@ + d
}

/// The upper half of a number of twice the width.
pub open spec fn high_half_text(n: Text, w: Text, v: Text, bits: u64) -> Text {
    "("@ + n + ")(("@ + w + ")"@ + v + " >> "@ + dec(bits as nat) + ")"@
}

/// What the intrinsics do.
impl Bx {
    pub open spec fn null_ptr(self) -> (Bx, ValueRef) {
        self.intern(Kind::Ptr).value(ValKind::NullPtr, self.cx.ty(Kind::Ptr))
    }

    pub open spec fn black_box_fence(self, dest: ValueRef, is_zst: bool) -> Bx {
        if is_zst {
            self.emit(Stmt::Raw("atomic_signal_fence(memory_order_acq_rel);"@))
        } else {
            self.emit(
                Stmt::Raw(
                    "atomic_signal_fence(memory_order_acq_rel); (void)"@ + self.cx.text(dest)
                        + ";"@,
                ),
            )
        }
    }

    pub open spec fn codegen_volatile_load(self, ptr: ValueRef, dest: ValueRef, l: Layout) -> Bx {
        let (c, t) = self.cx.layout_type(l);
        let (b, v) = self.with_cx(c).volatile_load(t, ptr);
        b.store(v, dest).0
    }

    pub open spec fn codegen_volatile_store(self, dst: ValueRef, val: ValueRef) -> Bx {
        self.emit(
            Stmt::Assign(
                Expr::deref(
                    "volatile "@ + self.type_str(self.type_of(val)) + " *"@,
                    self.var(dst),
                ),
                self.var(val),
            ),
        )
    }

    pub open spec fn codegen_va_copy(self, dst: ValueRef, src: ValueRef) -> Bx {
        self.emit(
            Stmt::Expr(
                Expr::call(
                    "va_copy"@,
                    seq![
                        Expr::deref("va_list *"@, self.var(dst)),
                        Expr::deref("va_list *"@, self.var(src)),
                    ],
                ),
            ),
        )
    }

    pub open spec fn codegen_va_arg(self, list: ValueRef, dest: ValueRef, l: Layout) -> Bx {
        let (c, t) = self.cx.layout_type(l);
        let b = self.with_cx(c);
        b.store_expr(t, Expr::Raw(va_arg_expr_text(b.cx.text(list), b.type_str(t))), dest)
    }

    pub open spec fn codegen_catch_unwind(
        self,
        f: ValueRef,
        data: ValueRef,
        catch_fn: ValueRef,
        dest: ValueRef,
    ) -> Bx {
        let k = Kind::Int { bits: 32, signed: true };
        self.intern(k).store_expr(
            self.cx.ty(k),
            Expr::call(
                "__rust_try"@,
                seq![
                    Expr::cast("void (*)(void *)"@, self.var(f)),
                    self.var(data),
                    Expr::cast("void (*)(void *, void *)"@, self.var(catch_fn)),
                ],
            ),
            dest,
        )
    }

    pub open spec fn codegen_statically_known(self, dest: ValueRef) -> Bx {
        let (c, v) = self.cx.adds(ValKind::BoolConst(false), Kind::Bool);
        self.with_cx(c).store(v, dest).0
    }

    pub open spec fn codegen_select(
        self,
        cond: ValueRef,
        x: ValueRef,
        y: ValueRef,
        dest: ValueRef,
    ) -> Bx {
        let (b, v) = self.select(cond, x, y);
        b.store(v, dest).0
    }

    pub open spec fn codegen_compare_bytes(
        self,
        l: ValueRef,
        r: ValueRef,
        len: ValueRef,
        dest: ValueRef,
    ) -> Bx {
        let k = Kind::Int { bits: 32, signed: true };
        self.intern(k).store_expr(
            self.cx.ty(k),
            Expr::call("memcmp"@, seq![self.var(l), self.var(r), self.var(len)]),
            dest,
        )
    }

    pub open spec fn codegen_raw_eq(
        self,
        l: ValueRef,
        r: ValueRef,
        dest: ValueRef,
        size: u64,
    ) -> Bx {
        let k = Kind::Int { bits: 8, signed: true };
        let len = Expr::Lit(dec(size as nat));
        self.intern(k).store_expr(
            self.cx.ty(k),
            Expr::binop(
                Expr::call("memcmp"@, seq![self.var(l), self.var(r), len]),
                CBinOp::Eq,
                Expr::Lit("0"@),
            ),
            dest,
        )
    }

    pub open spec fn codegen_unary_math(
        self,
        f: UnaryFn,
        width: MathWidth,
        x: ValueRef,
        dest: ValueRef,
    ) -> Bx {
        self.store_expr(
            self.type_of(x),
            Expr::call(math_name(unary_text(f), width), seq![self.var(x)]),
            dest,
        )
    }

    pub open spec fn codegen_binary_math(
        self,
        f: BinaryFn,
        width: MathWidth,
        x: ValueRef,
        y: ValueRef,
        dest: ValueRef,
    ) -> Bx {
        self.store_expr(
            self.type_of(x),
            Expr::call(math_name(binary_text(f), width), seq![self.var(x), self.var(y)]),
            dest,
        )
    }

    pub open spec fn codegen_powi(
        self,
        width: MathWidth,
        x: ValueRef,
        y: ValueRef,
        dest: ValueRef,
    ) -> Bx {
        self.store_expr(
            self.type_of(x),
            Expr::call(
                math_name("pow"@, width),
                seq![self.var(x), Expr::cast(float_text_of(width), self.var(y))],
            ),
            dest,
        )
    }

    pub open spec fn codegen_fma(
        self,
        width: MathWidth,
        x: ValueRef,
        y: ValueRef,
        z: ValueRef,
        dest: ValueRef,
    ) -> Bx {
        self.store_expr(
            self.type_of(x),
            Expr::call(math_name("fma"@, width), seq![self.var(x), self.var(y), self.var(z)]),
            dest,
        )
    }

    pub open spec fn codegen_simd_other(self, dest: ValueRef, size: u64) -> Bx {
        let len = Expr::Lit(dec(size as nat));
        self.emit(
            Stmt::Expr(Expr::call("memset"@, seq![self.var(dest), Expr::Lit("0"@), len])),
        )
    }

    pub open spec fn codegen_typed_swap(
        self,
        x: ValueRef,
        y: ValueRef,
        size: u64,
        align: u64,
    ) -> Bx {
        let xs = self.cx.text(x);
        let ys = self.cx.text(y);
        let n = dec(size as nat);
        self.emit(
            Stmt::Raw(
                "{ _Alignas("@ + dec(align as nat) + ") unsigned char _swap_tmp["@ + n + "];"@,
            ),
        ).emit(Stmt::Raw("  memcpy(_swap_tmp, "@ + xs + ", "@ + n + ");"@)).emit(
            Stmt::Raw("  memcpy("@ + xs + ", "@ + ys + ", "@ + n + ");"@),
        ).emit(Stmt::Raw("  memcpy("@ + ys + ", _swap_tmp, "@ + n + "); }"@))
    }

    /// Emits the first `n` of a list of statements.
    pub open spec fn emit_lines(self, lines: Seq<Text>, n: nat) -> Bx
        decreases n,
    {
        if n == 0 {
            self
        } else {
            self.emit_lines(lines, (n - 1) as nat).emit(Stmt::Raw(lines[n - 1]))
        }
    }

    pub open spec fn codegen_carrying_mul_add(
        self,
        x: ValueRef,
        y: ValueRef,
        c: ValueRef,
        d: ValueRef,
        dest: ValueRef,
        size: u64,
        signed: bool,
    ) -> Bx {
        let bits = (size * 8) as u64;
        let narrow = Kind::Int { bits, signed };
        let b = self.intern(narrow);
        let narrow_ty = self.cx.ty(narrow);
        let (xs, ys, cs, ds) = (
            self.cx.text(x),
            self.cx.text(y),
            self.cx.text(c),
            self.cx.text(d),
        );
        let place = b.cx.text(dest);
        if bits <= 64 {
            let wide = Kind::Int { bits: (bits * 2) as u64, signed };
            let wide_t = int_name((bits * 2) as nat, signed);
            let narrow_t = int_name(bits as nat, signed);
            let (b1, w) = b.intern(wide).temp_stmt(
                b.cx.ty(wide),
                Expr::Raw(wide_mul_text(wide_t, xs, ys, cs, ds)),
            );
            let (b2, low) = b1.temp_stmt(narrow_ty, Expr::cast(narrow_t, b1.var(w)));
            let (b3, high) = b2.temp_stmt(
                narrow_ty,
                Expr::Raw(high_half_text(narrow_t, wide_t, b1.cx.text(w), bits)),
            );
            b3.emit(
                Stmt::Assign(
                    Expr::deref(narrow_t + " *"@, Expr::Var(place)),
                    b3.var(low),
                ),
            ).emit(
                Stmt::Assign(
                    Expr::deref(
                        narrow_t + " *"@,
                        Expr::paren(
                            Expr::binop(
                                Expr::cast("char *"@, Expr::Var(place)),
                                CBinOp::Add,
                                Expr::Lit(dec(size as nat)),
                            ),
                        ),
                    ),
                    b3.var(high),
                ),
            )
        } else {
            let lines = wide_mul_lines(
                xs,
                ys,
                cs,
                ds,
                if signed {
                    "int128_t"@
                } else {
                    "uint128_t"@
                },
                place,
                dec(size as nat),
            );
            b.emit_lines(lines, lines.len())
        }
    }

    pub open spec fn type_checked_load(self, table: ValueRef, offset: u64) -> (Bx, ValueRef) {
        let b = self.intern(Kind::Ptr);
        b.temp_stmt(
            self.cx.ty(Kind::Ptr),
            Expr::deref(
                "void **"@,
                Expr::paren(
                    Expr::binop(
                        Expr::cast("char *"@, b.var(table)),
                        CBinOp::Add,
                        Expr::Raw(
                            dec((offset / self.cx.ptr_bytes) as nat) + " * sizeof(void *)"@,
                        ),
                    ),
                ),
            ),
        )
    }

    /// What an intrinsic does, given its operands, the place for its result
    /// with the layout of that, and its type argument.
    pub open spec fn intrinsic(
        self,
        i: Intrinsic,
        args: Seq<ValueRef>,
        dest: ValueRef,
        l: Layout,
        tp: TypeArg,
    ) -> Bx {
        match i {
            Intrinsic::BlackBox => self.black_box_fence(dest, l.is_zst),
            Intrinsic::VolatileLoad => self.codegen_volatile_load(args[0], dest, tp.layout),
            Intrinsic::VolatileStore => self.codegen_volatile_store(args[0], args[1]),
            Intrinsic::Prefetch => self,
            Intrinsic::VaCopy => self.codegen_va_copy(args[0], args[1]),
            Intrinsic::VaArg => self.codegen_va_arg(args[0], dest, tp.layout),
            Intrinsic::CatchUnwind => self.codegen_catch_unwind(args[0], args[1], args[2], dest),
            Intrinsic::IsValStaticallyKnown => self.codegen_statically_known(dest),
            Intrinsic::SelectUnpredictable => self.codegen_select(args[0], args[1], args[2], dest),
            Intrinsic::CompareBytes => self.codegen_compare_bytes(args[0], args[1], args[2], dest),
            Intrinsic::Ctlz => self.codegen_ctlz(args[0], dest),
            Intrinsic::Cttz => self.codegen_cttz(args[0], dest),
            Intrinsic::Ctpop => self.codegen_ctpop(args[0], dest),
            Intrinsic::Bswap => self.codegen_bswap(args[0], dest),
            Intrinsic::Bitreverse => self.codegen_bitreverse(args[0], dest),
            Intrinsic::Saturating { is_add } => self.codegen_saturating(is_add, args[0], args[1], dest),
            Intrinsic::RawEq => self.codegen_raw_eq(args[0], args[1], dest, tp.layout.size),
            Intrinsic::Rotate { left } => self.codegen_rotate(left, args[0], args[1], dest),
            Intrinsic::FunnelShift { left } => self.codegen_funnel_shift(left, args[0], args[1], args[2], dest),
            Intrinsic::TypedSwap => self.codegen_typed_swap(args[0], args[1], tp.layout.size, tp.layout.align),
            Intrinsic::CarryingMulAdd => self.codegen_carrying_mul_add(args[0], args[1], args[2], args[3], dest, tp.int_size, tp.signed),
            Intrinsic::UnaryMath { f, width } => self.codegen_unary_math(f, width, args[0], dest),
            Intrinsic::BinaryMath { func, width } => self.codegen_binary_math(func, width, args[0], args[1], dest),
            Intrinsic::Powi { width } => self.codegen_powi(width, args[0], args[1], dest),
            Intrinsic::Fma { width } => self.codegen_fma(width, args[0], args[1], args[2], dest),
            Intrinsic::SimdExtract => self.codegen_simd_extract(args[0], args[1], dest),
            Intrinsic::SimdCompare { op } => self.codegen_simd_compare(sign_text(op), args[0], args[1], dest, l),
            Intrinsic::SimdBinary { op } => self.codegen_simd_binary(sign_text(op), args[0], args[1], dest),
            Intrinsic::SimdInsert => self.codegen_simd_insert(args[0], args[1], args[2], dest),
            Intrinsic::SimdCast => self.codegen_simd_cast(args[0], dest, l),
            Intrinsic::SimdShuffle => self.codegen_simd_shuffle(args[0], args[1], args[2], dest, l),
            Intrinsic::SimdOther => self.codegen_simd_other(dest, l.size),
        }
    }

    /// Whether an intrinsic can be called: its operands are there, and its types
    /// are ones that it is for.
    pub open spec fn intrinsic_ok(
        self,
        i: Intrinsic,
        args: Seq<ValueRef>,
        tp: Option<TypeArg>,
    ) -> bool {
        &&& args.len() >= arity(i)
        &&& needs_type(i) ==> tp is Some
        &&& i is CarryingMulAdd ==> tp->0.int_size <= 16
        &&& i is SimdShuffle ==> vec_len(self.kind_of(args[0])) * 2 <= u64::MAX
        &&& i is Saturating ==> (self.kind_of(args[0]) matches Kind::Int { bits, signed: true }
            ==> bits > 0)
    }
}

/// A type argument, as contracts speak of it.
pub open spec fn opt_type(tp: Option<&TypeArg>) -> Option<TypeArg> {
    match tp {
        Some(t) => Some(*t),
        None => None,
    }
}

/// How many arguments an intrinsic reads.
pub fn intrinsic_arity(i: Intrinsic) -> (r: usize)
    ensures
        r == arity(i),
{
    match i {
        Intrinsic::BlackBox => 0,
        Intrinsic::VolatileLoad => 1,
        Intrinsic::VolatileStore => 2,
        Intrinsic::Prefetch => 0,
        Intrinsic::VaCopy => 2,
        Intrinsic::VaArg => 1,
        Intrinsic::CatchUnwind => 3,
        Intrinsic::IsValStaticallyKnown => 0,
        Intrinsic::SelectUnpredictable => 3,
        Intrinsic::CompareBytes => 3,
        Intrinsic::Ctlz => 1,
        Intrinsic::Cttz => 1,
        Intrinsic::Ctpop => 1,
        Intrinsic::Bswap => 1,
        Intrinsic::Bitreverse => 1,
        Intrinsic::Saturating { .. } => 2,
        Intrinsic::RawEq => 2,
        Intrinsic::Rotate { .. } => 2,
        Intrinsic::FunnelShift { .. } => 3,
        Intrinsic::TypedSwap => 2,
        Intrinsic::CarryingMulAdd => 4,
        Intrinsic::UnaryMath { .. } => 1,
        Intrinsic::BinaryMath { .. } => 2,
        Intrinsic::Powi { .. } => 2,
        Intrinsic::Fma { .. } => 3,
        Intrinsic::SimdExtract => 2,
        Intrinsic::SimdCompare { .. } => 2,
        Intrinsic::SimdBinary { .. } => 2,
        Intrinsic::SimdInsert => 3,
        Intrinsic::SimdCast => 1,
        Intrinsic::SimdShuffle => 3,
        Intrinsic::SimdOther => 0,
    }
}

/// Whether an intrinsic reads its type argument.
pub fn reads_type(i: Intrinsic) -> (r: bool)
    ensures
        r == needs_type(i),
{
    match i {
        Intrinsic::VolatileLoad => true,
        Intrinsic::VaArg => true,
        Intrinsic::RawEq => true,
        Intrinsic::TypedSwap => true,
        Intrinsic::CarryingMulAdd => true,
        _ => false,
    }
}

/// The intrinsics on memory, variable arguments and unwinding.
fn find_general_intrinsic(name: &str) -> (r: Option<Intrinsic>)
    ensures
        r == general_intrinsic(name@),
{
    if same_text(name, "black_box") {
        Some(Intrinsic::BlackBox)
    } else if same_text(name, "volatile_load") {
        Some(Intrinsic::VolatileLoad)
    } else if same_text(name, "unaligned_volatile_load") {
        Some(Intrinsic::VolatileLoad)
    } else if same_text(name, "volatile_store") {
        Some(Intrinsic::VolatileStore)
    } else if same_text(name, "prefetch_read_data") {
        Some(Intrinsic::Prefetch)
    } else if same_text(name, "prefetch_write_data") {
        Some(Intrinsic::Prefetch)
    } else if same_text(name, "prefetch_read_instruction") {
        Some(Intrinsic::Prefetch)
    } else if same_text(name, "prefetch_write_instruction") {
        Some(Intrinsic::Prefetch)
    } else if same_text(name, "va_copy") {
        Some(Intrinsic::VaCopy)
    } else if same_text(name, "va_arg") {
        Some(Intrinsic::VaArg)
    } else if same_text(name, "catch_unwind") {
        Some(Intrinsic::CatchUnwind)
    } else if same_text(name, "is_val_statically_known") {
        Some(Intrinsic::IsValStaticallyKnown)
    } else if same_text(name, "select_unpredictable") {
        Some(Intrinsic::SelectUnpredictable)
    } else if same_text(name, "compare_bytes") {
        Some(Intrinsic::CompareBytes)
    } else {
        None
    }
}

/// The intrinsics on the bits of integers.
fn find_bit_intrinsic(name: &str) -> (r: Option<Intrinsic>)
    ensures
        r == bit_intrinsic(name@),
{
    if same_text(name, "ctlz") {
        Some(Intrinsic::Ctlz)
    } else if same_text(name, "ctlz_nonzero") {
        Some(Intrinsic::Ctlz)
    } else if same_text(name, "cttz") {
        Some(Intrinsic::Cttz)
    } else if same_text(name, "cttz_nonzero") {
        Some(Intrinsic::Cttz)
    } else if same_text(name, "ctpop") {
        Some(Intrinsic::Ctpop)
    } else if same_text(name, "bswap") {
        Some(Intrinsic::Bswap)
    } else if same_text(name, "bitreverse") {
        Some(Intrinsic::Bitreverse)
    } else if same_text(name, "saturating_add") {
        Some(Intrinsic::Saturating { is_add: true })
    } else if same_text(name, "saturating_sub") {
        Some(Intrinsic::Saturating { is_add: false })
    } else if same_text(name, "raw_eq") {
        Some(Intrinsic::RawEq)
    } else if same_text(name, "rotate_left") {
        Some(Intrinsic::Rotate { left: true })
    } else if same_text(name, "rotate_right") {
        Some(Intrinsic::Rotate { left: false })
    } else if same_text(name, "unchecked_funnel_shl") {
        Some(Intrinsic::FunnelShift { left: true })
    } else if same_text(name, "unchecked_funnel_shr") {
        Some(Intrinsic::FunnelShift { left: false })
    } else if same_text(name, "typed_swap_nonoverlapping") {
        Some(Intrinsic::TypedSwap)
    } else if same_text(name, "carrying_mul_add") {
        Some(Intrinsic::CarryingMulAdd)
    } else {
        None
    }
}

/// The mathematical functions of one single-precision number.
fn find_float_intrinsic(name: &str) -> (r: Option<Intrinsic>)
    ensures
        r == float_intrinsic(name@),
{
    if same_text(name, "fabsf32") {
        Some(Intrinsic::UnaryMath { f: UnaryFn::Fabs, width: MathWidth::F32 })
    } else if same_text(name, "sqrtf32") {
        Some(Intrinsic::UnaryMath { f: UnaryFn::Sqrt, width: MathWidth::F32 })
    } else if same_text(name, "sinf32") {
        Some(Intrinsic::UnaryMath { f: UnaryFn::Sin, width: MathWidth::F32 })
    } else if same_text(name, "cosf32") {
        Some(Intrinsic::UnaryMath { f: UnaryFn::Cos, width: MathWidth::F32 })
    } else if same_text(name, "expf32") {
        Some(Intrinsic::UnaryMath { f: UnaryFn::Exp, width: MathWidth::F32 })
    } else if same_text(name, "exp2f32") {
        Some(Intrinsic::UnaryMath { f: UnaryFn::Exp2, width: MathWidth::F32 })
    } else if same_text(name, "logf32") {
        Some(Intrinsic::UnaryMath { f: UnaryFn::Log, width: MathWidth::F32 })
    } else if same_text(name, "log10f32") {
        Some(Intrinsic::UnaryMath { f: UnaryFn::Log10, width: MathWidth::F32 })
    } else if same_text(name, "log2f32") {
        Some(Intrinsic::UnaryMath { f: UnaryFn::Log2, width: MathWidth::F32 })
    } else if same_text(name, "floorf32") {
        Some(Intrinsic::UnaryMath { f: UnaryFn::Floor, width: MathWidth::F32 })
    } else if same_text(name, "ceilf32") {
        Some(Intrinsic::UnaryMath { f: UnaryFn::Ceil, width: MathWidth::F32 })
    } else if same_text(name, "truncf32") {
        Some(Intrinsic::UnaryMath { f: UnaryFn::Trunc, width: MathWidth::F32 })
    } else if same_text(name, "roundf32") {
        Some(Intrinsic::UnaryMath { f: UnaryFn::Round, width: MathWidth::F32 })
    } else if same_text(name, "round_ties_even_f32") {
        Some(Intrinsic::UnaryMath { f: UnaryFn::Rint, width: MathWidth::F32 })
    } else {
        None
    }
}

/// The mathematical functions of one double-precision number.
fn find_double_intrinsic(name: &str) -> (r: Option<Intrinsic>)
    ensures
        r == double_intrinsic(name@),
{
    if same_text(name, "fabsf64") {
        Some(Intrinsic::UnaryMath { f: UnaryFn::Fabs, width: MathWidth::F64 })
    } else if same_text(name, "sqrtf64") {
        Some(Intrinsic::UnaryMath { f: UnaryFn::Sqrt, width: MathWidth::F64 })
    } else if same_text(name, "sinf64") {
        Some(Intrinsic::UnaryMath { f: UnaryFn::Sin, width: MathWidth::F64 })
    } else if same_text(name, "cosf64") {
        Some(Intrinsic::UnaryMath { f: UnaryFn::Cos, width: MathWidth::F64 })
    } else if same_text(name, "expf64") {
        Some(Intrinsic::UnaryMath { f: UnaryFn::Exp, width: MathWidth::F64 })
    } else if same_text(name, "exp2f64") {
        Some(Intrinsic::UnaryMath { f: UnaryFn::Exp2, width: MathWidth::F64 })
    } else if same_text(name, "logf64") {
        Some(Intrinsic::UnaryMath { f: UnaryFn::Log, width: MathWidth::F64 })
    } else if same_text(name, "log10f64") {
        Some(Intrinsic::UnaryMath { f: UnaryFn::Log10, width: MathWidth::F64 })
    } else if same_text(name, "log2f64") {
        Some(Intrinsic::UnaryMath { f: UnaryFn::Log2, width: MathWidth::F64 })
    } else if same_text(name, "floorf64") {
        Some(Intrinsic::UnaryMath { f: UnaryFn::Floor, width: MathWidth::F64 })
    } else if same_text(name, "ceilf64") {
        Some(Intrinsic::UnaryMath { f: UnaryFn::Ceil, width: MathWidth::F64 })
    } else if same_text(name, "truncf64") {
        Some(Intrinsic::UnaryMath { f: UnaryFn::Trunc, width: MathWidth::F64 })
    } else if same_text(name, "roundf64") {
        Some(Intrinsic::UnaryMath { f: UnaryFn::Round, width: MathWidth::F64 })
    } else if same_text(name, "round_ties_even_f64") {
        Some(Intrinsic::UnaryMath { f: UnaryFn::Rint, width: MathWidth::F64 })
    } else {
        None
    }
}

/// The mathematical functions of two or three numbers.
fn find_math_intrinsic(name: &str) -> (r: Option<Intrinsic>)
    ensures
        r == math_intrinsic(name@),
{
    if same_text(name, "copysignf32") {
        Some(Intrinsic::BinaryMath { func: BinaryFn::Copysign, width: MathWidth::F32 })
    } else if same_text(name, "powf32") {
        Some(Intrinsic::BinaryMath { func: BinaryFn::Pow, width: MathWidth::F32 })
    } else if same_text(name, "minnumf32") {
        Some(Intrinsic::BinaryMath { func: BinaryFn::Fmin, width: MathWidth::F32 })
    } else if same_text(name, "maxnumf32") {
        Some(Intrinsic::BinaryMath { func: BinaryFn::Fmax, width: MathWidth::F32 })
    } else if same_text(name, "powif32") {
        Some(Intrinsic::Powi { width: MathWidth::F32 })
    } else if same_text(name, "fmaf32") {
        Some(Intrinsic::Fma { width: MathWidth::F32 })
    } else if same_text(name, "fmuladdf32") {
        Some(Intrinsic::Fma { width: MathWidth::F32 })
    } else if same_text(name, "copysignf64") {
        Some(Intrinsic::BinaryMath { func: BinaryFn::Copysign, width: MathWidth::F64 })
    } else if same_text(name, "powf64") {
        Some(Intrinsic::BinaryMath { func: BinaryFn::Pow, width: MathWidth::F64 })
    } else if same_text(name, "minnumf64") {
        Some(Intrinsic::BinaryMath { func: BinaryFn::Fmin, width: MathWidth::F64 })
    } else if same_text(name, "maxnumf64") {
        Some(Intrinsic::BinaryMath { func: BinaryFn::Fmax, width: MathWidth::F64 })
    } else if same_text(name, "powif64") {
        Some(Intrinsic::Powi { width: MathWidth::F64 })
    } else if same_text(name, "fmaf64") {
        Some(Intrinsic::Fma { width: MathWidth::F64 })
    } else if same_text(name, "fmuladdf64") {
        Some(Intrinsic::Fma { width: MathWidth::F64 })
    } else {
        None
    }
}

/// The intrinsics on vectors.
fn find_simd_intrinsic(name: &str) -> (r: Option<Intrinsic>)
    ensures
        r == simd_intrinsic(name@),
{
    if same_text(name, "simd_extract") {
        Some(Intrinsic::SimdExtract)
    } else if same_text(name, "simd_eq") {
        Some(Intrinsic::SimdCompare { op: LaneSign::Eq })
    } else if same_text(name, "simd_ne") {
        Some(Intrinsic::SimdCompare { op: LaneSign::Ne })
    } else if same_text(name, "simd_lt") {
        Some(Intrinsic::SimdCompare { op: LaneSign::Lt })
    } else if same_text(name, "simd_le") {
        Some(Intrinsic::SimdCompare { op: LaneSign::Le })
    } else if same_text(name, "simd_gt") {
        Some(Intrinsic::SimdCompare { op: LaneSign::Gt })
    } else if same_text(name, "simd_ge") {
        Some(Intrinsic::SimdCompare { op: LaneSign::Ge })
    } else if same_text(name, "simd_and") {
        Some(Intrinsic::SimdBinary { op: LaneSign::And })
    } else if same_text(name, "simd_or") {
        Some(Intrinsic::SimdBinary { op: LaneSign::Or })
    } else if same_text(name, "simd_xor") {
        Some(Intrinsic::SimdBinary { op: LaneSign::Xor })
    } else if same_text(name, "simd_shl") {
        Some(Intrinsic::SimdBinary { op: LaneSign::Shl })
    } else if same_text(name, "simd_shr") {
        Some(Intrinsic::SimdBinary { op: LaneSign::Shr })
    } else if same_text(name, "simd_insert") {
        Some(Intrinsic::SimdInsert)
    } else if same_text(name, "simd_cast") {
        Some(Intrinsic::SimdCast)
    } else if same_text(name, "simd_as") {
        Some(Intrinsic::SimdCast)
    } else if same_text(name, "simd_shuffle") {
        Some(Intrinsic::SimdShuffle)
    } else if same_text(name, "simd_shuffle_const_generic") {
        Some(Intrinsic::SimdShuffle)
    } else {
        None
    }
}

/// The intrinsic of a name.
pub fn find_intrinsic(name: &str) -> (r: Option<Intrinsic>)
    ensures
        r == intrinsic_named(name@),
{
    let r = find_general_intrinsic(name);
    if r.is_some() {
        return r;
    }
    let r = find_bit_intrinsic(name);
    if r.is_some() {
        return r;
    }
    let r = find_float_intrinsic(name);
    if r.is_some() {
        return r;
    }
    let r = find_double_intrinsic(name);
    if r.is_some() {
        return r;
    }
    let r = find_math_intrinsic(name);
    if r.is_some() {
        return r;
    }
    let r = find_simd_intrinsic(name);
    if r.is_some() {
        return r;
    }
    if starts_with(name, "simd_") {
        Some(Intrinsic::SimdOther)
    } else {
        None
    }
}

/// The C name of a mathematical function.
fn with_width(base: &str, width: MathWidth) -> (r: String)
    ensures
        r@ == math_name(base@, width),
{
    match width {
        MathWidth::F32 => base.to_owned().concat("f"),
        MathWidth::F64 => base.to_owned(),
    }
}

/// The C name of a function of one number, in double precision.
fn unary_base(f: UnaryFn) -> (r: &'static str)
    ensures
        r@ == unary_text(f),
{
    match f {
        UnaryFn::Fabs => "fabs",
        UnaryFn::Sqrt => "sqrt",
        UnaryFn::Sin => "sin",
        UnaryFn::Cos => "cos",
        UnaryFn::Exp => "exp",
        UnaryFn::Exp2 => "exp2",
        UnaryFn::Log => "log",
        UnaryFn::Log10 => "log10",
        UnaryFn::Log2 => "log2",
        UnaryFn::Floor => "floor",
        UnaryFn::Ceil => "ceil",
        UnaryFn::Trunc => "trunc",
        UnaryFn::Round => "round",
        UnaryFn::Rint => "rint",
    }
}

/// The C name of a function of two numbers, in double precision.
fn binary_base(f: BinaryFn) -> (r: &'static str)
    ensures
        r@ == binary_text(f),
{
    match f {
        BinaryFn::Copysign => "copysign",
        BinaryFn::Pow => "pow",
        BinaryFn::Fmin => "fmin",
        BinaryFn::Fmax => "fmax",
    }
}

/// The C operator on elements of vectors.
fn sign_str(op: LaneSign) -> (r: &'static str)
    ensures
        r@ == sign_text(op),
{
    match op {
        LaneSign::Eq => "==",
        LaneSign::Ne => "!=",
        LaneSign::Lt => "<",
        LaneSign::Le => "<=",
        LaneSign::Gt => ">",
        LaneSign::Ge => ">=",
        LaneSign::And => "&",
        LaneSign::Or => "|",
        LaneSign::Xor => "^",
        LaneSign::Shl => "<<",
        LaneSign::Shr => ">>",
    }
}

/// Writes the name of an integer type.
fn render_int_name(bits: u64, signed: bool) -> (r: String)
    ensures
        r@ == int_name(bits as nat, signed),
{
    if signed {
        "int".to_owned().concat(&dec_u64(bits)).concat("_t")
    } else {
        "uint".to_owned().concat(&dec_u64(bits)).concat("_t")
    }
}

/// Writes a statement that copies memory.
fn render_copy(head: &str, x: &str, mid: &str, n: &str, tail: &str) -> (r: String)
    ensures
        r@ == head@ + x@ + mid@ + n@ + tail@,
{
    head.to_owned().concat(x).concat(mid).concat(n).concat(tail)
}

/// Writes the statements that multiply two 128-bit numbers and add two others.
fn render_wide_mul_lines(a: &str, b: &str, c: &str, d: &str, t: &str, dest: &str, n: &str) -> (r: Vec<String>)
    ensures
        texts(r@) == wide_mul_lines(a@, b@, c@, d@, t@, dest@, n@),
{
    let mut out: Vec<String> = Vec::new();
    out.push("{ /* carrying_mul_add u128 */".to_owned());
    out.push("  uint64_t _a_lo = (uint64_t)".to_owned().concat(a).concat(";"));
    out.push("  uint64_t _a_hi = (uint64_t)((uint128_t)".to_owned().concat(a).concat(" >> 64);"));
    out.push("  uint64_t _b_lo = (uint64_t)".to_owned().concat(b).concat(";"));
    out.push("  uint64_t _b_hi = (uint64_t)((uint128_t)".to_owned().concat(b).concat(" >> 64);"));
    out.push("  uint128_t _lo_lo = (uint128_t)_a_lo * _b_lo;".to_owned());
    out.push("  uint128_t _hi_lo = (uint128_t)_a_hi * _b_lo;".to_owned());
    out.push("  uint128_t _lo_hi = (uint128_t)_a_lo * _b_hi;".to_owned());
    out.push("  uint128_t _hi_hi = (uint128_t)_a_hi * _b_hi;".to_owned());
    out.push("  uint128_t _mid = _hi_lo + _lo_hi;".to_owned());
    out.push("  uint128_t _carry_mid = (_mid < _hi_lo) ? ((uint128_t)1 << 64) : 0;".to_owned());
    out.push("  uint128_t _low = _lo_lo + (_mid << 64);".to_owned());
    out.push("  uint128_t _carry_low = (_low < _lo_lo) ? 1 : 0;".to_owned());
    out.push("  uint128_t _high = _hi_hi + (_mid >> 64) + _carry_mid + _carry_low;".to_owned());
    out.push("  _low += (uint128_t)".to_owned().concat(c).concat(";"));
    out.push("  if (_low < (uint128_t)".to_owned().concat(c).concat(") _high += 1;"));
    out.push("  _low += (uint128_t)".to_owned().concat(d).concat(";"));
    out.push("  if (_low < (uint128_t)".to_owned().concat(d).concat(") _high += 1;"));
    out.push("  *((".to_owned().concat(t).concat(" *)").concat(dest).concat(") = (").concat(t).concat(")_low;"));
    out.push("  *((".to_owned().concat(t).concat(" *)((char *)").concat(dest).concat(" + ").concat(n).concat(")) = (").concat(t).concat(")_high;"));
    out.push("}".to_owned());
    assert(texts(out@) =~= wide_mul_lines(a@, b@, c@, d@, t@, dest@, n@));
    out
}

/// Writes the next variable argument of a list given by its address.
fn render_va_arg_expr(l: &str, t: &str) -> (r: String)
    ensures
        r@ == va_arg_expr_text(l@, t@),
{
    "va_arg(*(va_list *)".to_owned().concat(l).concat(", ").concat(t).concat(")")
}

/// Writes the product of two numbers plus two others, at twice the width.
fn render_wide_mul(w: &str, a: &str, b: &str, c: &str, d: &str) -> (r: String)
    ensures
        r@ == wide_mul_text(w@, a@, b@, c@, d@),
{
    "(".to_owned().concat(w).concat(")").concat(a).concat(" * (").concat(w).concat(")").concat(b).concat(" + (").concat(w).concat(")").concat(c).concat(" + (").concat(w).concat(")").concat(d)
}

/// Writes the upper half of a number of twice the width.
fn render_high_half(n: &str, w: &str, v: &str, bits: u64) -> (r: String)
    ensures
        r@ == high_half_text(n@, w@, v@, bits),
{
    "(".to_owned().concat(n).concat(")((").concat(w).concat(")").concat(v).concat(" >> ").concat(&dec_u64(bits)).concat(")")
}

impl Builder {
    /// Keeps the C compiler from seeing through a value that was stored.
    pub fn black_box_fence(&mut self, dest: ValueRef, is_zst: bool)
        requires
            old(self).wf(),
            old(self)@.has(dest),
        ensures
            final(self).wf(),
            final(self)@ == old(self)@.black_box_fence(dest, is_zst),
            old(self)@.within(final(self)@),
    {
        if is_zst {
            self.emit(CStmt::raw("atomic_signal_fence(memory_order_acq_rel);"));
        } else {
            let text = "atomic_signal_fence(memory_order_acq_rel); (void)".to_owned().concat(
                &self.render(dest),
            ).concat(";");
            self.emit(CStmt::Raw(text));
        }
    }

    /// Loads a value that may change at any time.
    pub fn codegen_volatile_load(&mut self, ptr: ValueRef, dest: ValueRef, layout: &Layout)
        requires
            old(self).wf(),
            old(self)@.has(ptr),
            old(self)@.has(dest),
        ensures
            final(self).wf(),
            final(self)@ == old(self)@.codegen_volatile_load(ptr, dest, *layout),
            old(self)@.within(final(self)@),
    {
        let t = layout_to_c_type(&mut self.cx, layout);
        let v = self.volatile_load(t, ptr);
        self.store(v, dest);
    }

    /// Stores a value that may be read at any time.
    pub fn codegen_volatile_store(&mut self, dst: ValueRef, val: ValueRef)
        requires
            old(self).wf(),
            old(self)@.has(dst),
            old(self)@.has(val),
        ensures
            final(self).wf(),
            final(self)@ == old(self)@.codegen_volatile_store(dst, val),
            old(self)@.within(final(self)@),
    {
        let t = self.get_type(val);
        let pointer = "volatile ".to_owned().concat(&self.render_type(t)).concat(" *");
        let stmt = CStmt::assign(CExpr::deref(&pointer, self.var(dst)), self.var(val));
        self.emit(stmt);
    }

    /// Copies a list of variable arguments.
    pub fn codegen_va_copy(&mut self, dst: ValueRef, src: ValueRef)
        requires
            old(self).wf(),
            old(self)@.has(dst),
            old(self)@.has(src),
        ensures
            final(self).wf(),
            final(self)@ == old(self)@.codegen_va_copy(dst, src),
            old(self)@.within(final(self)@),
    {
        let e = CExpr::call2(
            "va_copy",
            CExpr::deref("va_list *", self.var(dst)),
            CExpr::deref("va_list *", self.var(src)),
        );
        self.emit(CStmt::expr(e));
    }

    /// Takes the next variable argument.
    pub fn codegen_va_arg(&mut self, list: ValueRef, dest: ValueRef, layout: &Layout)
        requires
            old(self).wf(),
            old(self)@.has(list),
            old(self)@.has(dest),
        ensures
            final(self).wf(),
            final(self)@ == old(self)@.codegen_va_arg(list, dest, *layout),
            old(self)@.within(final(self)@),
    {
        let t = layout_to_c_type(&mut self.cx, layout);
        let text = render_va_arg_expr(&self.render(list), &self.render_type(t));
        let v = self.new_temp_with_stmt(t, CExpr::Raw(text));
        self.store(v, dest);
    }

    /// Calls a function, and a handler where it unwinds.
    pub fn codegen_catch_unwind(&mut self, try_fn: ValueRef, data: ValueRef, catch_fn: ValueRef, dest: ValueRef)
        requires
            old(self).wf(),
            old(self)@.has(try_fn),
            old(self)@.has(data),
            old(self)@.has(catch_fn),
            old(self)@.has(dest),
        ensures
            final(self).wf(),
            final(self)@ == old(self)@.codegen_catch_unwind(try_fn, data, catch_fn, dest),
            old(self)@.within(final(self)@),
    {
        let i32_ty = self.cx.type_int(32);
        let e = CExpr::call3(
            "__rust_try",
            CExpr::cast("void (*)(void *)", self.var(try_fn)),
            self.var(data),
            CExpr::cast("void (*)(void *, void *)", self.var(catch_fn)),
        );
        let v = self.new_temp_with_stmt(i32_ty, e);
        self.store(v, dest);
    }

    /// Answers that a value is not known at compile time.
    pub fn codegen_statically_known(&mut self, dest: ValueRef)
        requires
            old(self).wf(),
            old(self)@.has(dest),
        ensures
            final(self).wf(),
            final(self)@ == old(self)@.codegen_statically_known(dest),
            old(self)@.within(final(self)@),
    {
        let v = self.cx.const_bool(false);
        self.store(v, dest);
    }

    /// Stores one of two values.
    pub fn codegen_select(&mut self, cond: ValueRef, a: ValueRef, b: ValueRef, dest: ValueRef)
        requires
            old(self).wf(),
            old(self)@.has(cond),
            old(self)@.has(a),
            old(self)@.has(b),
            old(self)@.has(dest),
        ensures
            final(self).wf(),
            final(self)@ == old(self)@.codegen_select(cond, a, b, dest),
            old(self)@.within(final(self)@),
    {
        let v = self.select(cond, a, b);
        self.store(v, dest);
    }

    /// Compares memory.
    pub fn codegen_compare_bytes(&mut self, lhs: ValueRef, rhs: ValueRef, len: ValueRef, dest: ValueRef)
        requires
            old(self).wf(),
            old(self)@.has(lhs),
            old(self)@.has(rhs),
            old(self)@.has(len),
            old(self)@.has(dest),
        ensures
            final(self).wf(),
            final(self)@ == old(self)@.codegen_compare_bytes(lhs, rhs, len, dest),
            old(self)@.within(final(self)@),
    {
        let i32_ty = self.cx.type_int(32);
        let e = CExpr::call3("memcmp", self.var(lhs), self.var(rhs), self.var(len));
        let v = self.new_temp_with_stmt(i32_ty, e);
        self.store(v, dest);
    }

    /// Tells whether two values have the same bytes.
    pub fn codegen_raw_eq(&mut self, lhs: ValueRef, rhs: ValueRef, dest: ValueRef, size: u64)
        requires
            old(self).wf(),
            old(self)@.has(lhs),
            old(self)@.has(rhs),
            old(self)@.has(dest),
        ensures
            final(self).wf(),
            final(self)@ == old(self)@.codegen_raw_eq(lhs, rhs, dest, size),
            old(self)@.within(final(self)@),
    {
        let i8_ty = self.cx.type_int(8);
        let e = CExpr::binop(
            CExpr::call3("memcmp", self.var(lhs), self.var(rhs), CExpr::Lit(dec_u64(size))),
            CBinOp::Eq,
            CExpr::lit("0"),
        );
        let v = self.new_temp_with_stmt(i8_ty, e);
        self.store(v, dest);
    }

    /// Applies a mathematical function to one number.
    pub fn codegen_unary_math(&mut self, f: UnaryFn, width: MathWidth, x: ValueRef, dest: ValueRef)
        requires
            old(self).wf(),
            old(self)@.has(x),
            old(self)@.has(dest),
        ensures
            final(self).wf(),
            final(self)@ == old(self)@.codegen_unary_math(f, width, x, dest),
            old(self)@.within(final(self)@),
    {
        let t = self.get_type(x);
        let e = CExpr::call1(&with_width(unary_base(f), width), self.var(x));
        let v = self.new_temp_with_stmt(t, e);
        self.store(v, dest);
    }

    /// Applies a mathematical function to two numbers.
    pub fn codegen_binary_math(&mut self, f: BinaryFn, width: MathWidth, x: ValueRef, y: ValueRef, dest: ValueRef)
        requires
            old(self).wf(),
            old(self)@.has(x),
            old(self)@.has(y),
            old(self)@.has(dest),
        ensures
            final(self).wf(),
            final(self)@ == old(self)@.codegen_binary_math(f, width, x, y, dest),
            old(self)@.within(final(self)@),
    {
        let t = self.get_type(x);
        let e = CExpr::call2(&with_width(binary_base(f), width), self.var(x), self.var(y));
        let v = self.new_temp_with_stmt(t, e);
        self.store(v, dest);
    }

    /// Raises a number to the power of an integer.
    pub fn codegen_powi(&mut self, width: MathWidth, x: ValueRef, y: ValueRef, dest: ValueRef)
        requires
            old(self).wf(),
            old(self)@.has(x),
            old(self)@.has(y),
            old(self)@.has(dest),
        ensures
            final(self).wf(),
            final(self)@ == old(self)@.codegen_powi(width, x, y, dest),
            old(self)@.within(final(self)@),
    {
        let t = self.get_type(x);
        let float_name = match width {
            MathWidth::F32 => "float",
            MathWidth::F64 => "double",
        };
        let e = CExpr::call2(
            &with_width("pow", width),
            self.var(x),
            CExpr::cast(float_name, self.var(y)),
        );
        let v = self.new_temp_with_stmt(t, e);
        self.store(v, dest);
    }

    /// Multiplies two numbers and adds a third, rounding once.
    pub fn codegen_fma(&mut self, width: MathWidth, x: ValueRef, y: ValueRef, z: ValueRef, dest: ValueRef)
        requires
            old(self).wf(),
            old(self)@.has(x),
            old(self)@.has(y),
            old(self)@.has(z),
            old(self)@.has(dest),
        ensures
            final(self).wf(),
            final(self)@ == old(self)@.codegen_fma(width, x, y, z, dest),
            old(self)@.within(final(self)@),
    {
        let t = self.get_type(x);
        let e = CExpr::call3(&with_width("fma", width), self.var(x), self.var(y), self.var(z));
        let v = self.new_temp_with_stmt(t, e);
        self.store(v, dest);
    }

    /// Fills the result of an intrinsic on vectors that has no C code with zeros.
    pub fn codegen_simd_other(&mut self, dest: ValueRef, size: u64)
        requires
            old(self).wf(),
            old(self)@.has(dest),
        ensures
            final(self).wf(),
            final(self)@ == old(self)@.codegen_simd_other(dest, size),
            old(self)@.within(final(self)@),
    {
        let e = CExpr::call3("memset", self.var(dest), CExpr::lit("0"), CExpr::Lit(dec_u64(size)));
        self.emit(CStmt::expr(e));
    }

    /// Swaps two values in memory.
    pub fn codegen_typed_swap(&mut self, x: ValueRef, y: ValueRef, size: u64, align: u64)
        requires
            old(self).wf(),
            old(self)@.has(x),
            old(self)@.has(y),
        ensures
            final(self).wf(),
            final(self)@ == old(self)@.codegen_typed_swap(x, y, size, align),
            old(self)@.within(final(self)@),
    {
        let xs = self.render(x);
        let ys = self.render(y);
        let n = dec_u64(size);
        let first = "{ _Alignas(".to_owned().concat(&dec_u64(align)).concat(
            ") unsigned char _swap_tmp[",
        ).concat(&n).concat("];");
        self.emit(CStmt::Raw(first));
        self.emit(CStmt::Raw(render_copy("  memcpy(_swap_tmp, ", &xs, ", ", &n, ");")));
        let second = "  memcpy(".to_owned().concat(&xs).concat(", ");
        self.emit(CStmt::Raw(render_copy(&second, &ys, ", ", &n, ");")));
        self.emit(CStmt::Raw(render_copy("  memcpy(", &ys, ", _swap_tmp, ", &n, "); }")));
    }

    /// Emits a list of statements.
    fn emit_lines(&mut self, lines: &Vec<String>)
        requires
            old(self).wf(),
        ensures
            final(self).wf(),
            final(self)@ == old(self)@.emit_lines(texts(lines@), lines@.len()),
            old(self)@.within(final(self)@),
    {
        let ghost start = self@;
        let mut i: usize = 0;
        while i < lines.len()
            invariant
                i <= lines@.len(),
                self.wf(),
                self@ == start.emit_lines(texts(lines@), i as nat),
                start.within(self@),
            decreases lines@.len() - i,
        {
            self.emit(CStmt::raw(&lines[i]));
            i = i + 1;
        }
    }

    /// Multiplies two integers and adds two others; the result is stored in two
    /// halves, the lower one first.
    pub fn codegen_carrying_mul_add(&mut self, a: ValueRef, b: ValueRef, c: ValueRef, d: ValueRef, dest: ValueRef, size: u64, signed: bool)
        requires
            old(self).wf(),
            old(self)@.has(a),
            old(self)@.has(b),
            old(self)@.has(c),
            old(self)@.has(d),
            old(self)@.has(dest),
            size <= 16,
        ensures
            final(self).wf(),
            final(self)@ == old(self)@.codegen_carrying_mul_add(a, b, c, d, dest, size, signed),
            old(self)@.within(final(self)@),
    {
        let bits = size * 8;
        let av = self.render(a);
        let bv = self.render(b);
        let cv = self.render(c);
        let dv = self.render(d);
        let narrow_ty = self.intern_type(CTypeKind::Int { bits, signed });
        let dv_dest = self.render(dest);
        if bits <= 64 {
            let wide_t = render_int_name(bits * 2, signed);
            let narrow_t = render_int_name(bits, signed);
            let wide_ty = self.intern_type(CTypeKind::Int { bits: bits * 2, signed });
            let wide = self.new_temp_with_stmt(
                wide_ty,
                CExpr::Raw(render_wide_mul(&wide_t, &av, &bv, &cv, &dv)),
            );
            let wide_v = self.render(wide);
            let low = self.new_temp_with_stmt(
                narrow_ty,
                CExpr::cast(&narrow_t, CExpr::var(&wide_v)),
            );
            let high = self.new_temp_with_stmt(
                narrow_ty,
                CExpr::Raw(render_high_half(&narrow_t, &wide_t, &wide_v, bits)),
            );
            let pointer = narrow_t.concat(" *");
            let first = CStmt::assign(
                CExpr::deref(&pointer, CExpr::var(&dv_dest)),
                self.var(low),
            );
            self.emit(first);
            let second = CStmt::assign(
                CExpr::deref(
                    &pointer,
                    CExpr::paren(
                        CExpr::binop(
                            CExpr::cast("char *", CExpr::var(&dv_dest)),
                            CBinOp::Add,
                            CExpr::Lit(dec_u64(size)),
                        ),
                    ),
                ),
                self.var(high),
            );
            self.emit(second);
        } else {
            let t = if signed {
                "int128_t"
            } else {
                "uint128_t"
            };
            let lines = render_wide_mul_lines(&av, &bv, &cv, &dv, t, &dv_dest, &dec_u64(size));
            self.emit_lines(&lines);
        }
    }

    /// Stands for a call of an intrinsic of another backend: the null pointer.
    pub fn codegen_llvm_intrinsic_call(&mut self) -> (r: ValueRef)
        requires
            old(self).wf(),
        ensures
            final(self).wf(),
            (final(self)@, r) == old(self)@.null_ptr(),
            final(self)@.has(r),
            old(self)@.within(final(self)@),
    {
        let ptr_ty = self.cx.type_ptr();
        self.cx.const_null(ptr_ty)
    }

    /// Emits a call that ends the program.
    pub fn abort(&mut self)
        requires
            old(self).wf(),
        ensures
            final(self).wf(),
            final(self)@ == old(self)@.emit(Stmt::Expr(Expr::call("abort"@, Seq::empty()))),
            old(self)@.within(final(self)@),
    {
        let none: Vec<CExpr> = Vec::new();
        assert(crate::c_ast::exprs(none@) =~= Seq::empty());
        self.emit(CStmt::expr(CExpr::call("abort", none)));
    }

    /// Loads a pointer from a table, by the number of its slot.
    pub fn type_checked_load(&mut self, llvtable: ValueRef, vtable_byte_offset: u64) -> (r: ValueRef)
        requires
            old(self).wf(),
            old(self)@.has(llvtable),
        ensures
            final(self).wf(),
            (final(self)@, r) == old(self)@.type_checked_load(llvtable, vtable_byte_offset),
            final(self)@.has(r),
            old(self)@.within(final(self)@),
    {
        let ptr_ty = self.cx.type_ptr();
        let slot = vtable_byte_offset / self.cx.pointer_size();
        let e = CExpr::deref(
            "void **",
            CExpr::paren(
                CExpr::binop(
                    CExpr::cast("char *", self.var(llvtable)),
                    CBinOp::Add,
                    CExpr::Raw(dec_u64(slot).concat(" * sizeof(void *)")),
                ),
            ),
        );
        self.new_temp_with_stmt(ptr_ty, e)
    }

    /// Begins to read variable arguments.
    pub fn va_start(&mut self, val: ValueRef) -> (r: ValueRef)
        requires
            old(self).wf(),
            old(self)@.has(val),
        ensures
            final(self).wf(),
            final(self)@ == old(self)@.emit(Stmt::Raw("va_start(*(va_list *)"@ + old(self)@.cx.text(val) + ", 0);"@)),
            r == val,
            old(self)@.within(final(self)@),
    {
        let text = "va_start(*(va_list *)".to_owned().concat(&self.render(val)).concat(", 0);");
        self.emit(CStmt::Raw(text));
        val
    }

    /// Ends the reading of variable arguments.
    pub fn va_end(&mut self, val: ValueRef) -> (r: ValueRef)
        requires
            old(self).wf(),
            old(self)@.has(val),
        ensures
            final(self).wf(),
            final(self)@ == old(self)@.emit(Stmt::Raw("va_end(*(va_list *)"@ + old(self)@.cx.text(val) + ");"@)),
            r == val,
            old(self)@.within(final(self)@),
    {
        let text = "va_end(*(va_list *)".to_owned().concat(&self.render(val)).concat(");");
        self.emit(CStmt::Raw(text));
        val
    }

    /// Emits an intrinsic of which it is known that it has C code.
    fn emit_intrinsic(
        &mut self,
        i: Intrinsic,
        args: &Vec<ValueRef>,
        dest: ValueRef,
        dest_layout: &Layout,
        tp: &TypeArg,
    )
        requires
            old(self).wf(),
            old(self)@.cx.has_all(args@),
            old(self)@.has(dest),
            old(self)@.intrinsic_ok(i, args@, Some(*tp)),
        ensures
            final(self).wf(),
            final(self)@ == old(self)@.intrinsic(i, args@, dest, *dest_layout, *tp),
            old(self)@.within(final(self)@),
    {
        match i {
            Intrinsic::BlackBox => {
                self.black_box_fence(dest, dest_layout.is_zst);
            },
            Intrinsic::VolatileLoad => {
                self.codegen_volatile_load(args[0], dest, &tp.layout);
            },
            Intrinsic::VolatileStore => {
                self.codegen_volatile_store(args[0], args[1]);
            },
            Intrinsic::Prefetch => {},
            Intrinsic::VaCopy => {
                self.codegen_va_copy(args[0], args[1]);
            },
            Intrinsic::VaArg => {
                self.codegen_va_arg(args[0], dest, &tp.layout);
            },
            Intrinsic::CatchUnwind => {
                self.codegen_catch_unwind(args[0], args[1], args[2], dest);
            },
            Intrinsic::IsValStaticallyKnown => {
                self.codegen_statically_known(dest);
            },
            Intrinsic::SelectUnpredictable => {
                self.codegen_select(args[0], args[1], args[2], dest);
            },
            Intrinsic::CompareBytes => {
                self.codegen_compare_bytes(args[0], args[1], args[2], dest);
            },
            Intrinsic::Ctlz => {
                self.codegen_ctlz(args[0], dest);
            },
            Intrinsic::Cttz => {
                self.codegen_cttz(args[0], dest);
            },
            Intrinsic::Ctpop => {
                self.codegen_ctpop(args[0], dest);
            },
            Intrinsic::Bswap => {
                self.codegen_bswap(args[0], dest);
            },
            Intrinsic::Bitreverse => {
                self.codegen_bitreverse(args[0], dest);
            },
            Intrinsic::Saturating { is_add } => {
                self.codegen_saturating(is_add, args[0], args[1], dest);
            },
            Intrinsic::RawEq => {
                self.codegen_raw_eq(args[0], args[1], dest, tp.layout.size);
            },
            Intrinsic::Rotate { left } => {
                self.codegen_rotate(left, args[0], args[1], dest);
            },
            Intrinsic::FunnelShift { left } => {
                self.codegen_funnel_shift(left, args[0], args[1], args[2], dest);
            },
            Intrinsic::TypedSwap => {
                self.codegen_typed_swap(args[0], args[1], tp.layout.size, tp.layout.align);
            },
            Intrinsic::CarryingMulAdd => {
                self.codegen_carrying_mul_add(args[0], args[1], args[2], args[3], dest, tp.int_size, tp.signed);
            },
            Intrinsic::UnaryMath { f, width } => {
                self.codegen_unary_math(f, width, args[0], dest);
            },
            Intrinsic::BinaryMath { func, width } => {
                self.codegen_binary_math(func, width, args[0], args[1], dest);
            },
            Intrinsic::Powi { width } => {
                self.codegen_powi(width, args[0], args[1], dest);
            },
            Intrinsic::Fma { width } => {
                self.codegen_fma(width, args[0], args[1], args[2], dest);
            },
            Intrinsic::SimdExtract => {
                self.codegen_simd_extract(args[0], args[1], dest);
            },
            Intrinsic::SimdCompare { op } => {
                self.codegen_simd_compare(sign_str(op), args[0], args[1], dest, dest_layout);
            },
            Intrinsic::SimdBinary { op } => {
                self.codegen_simd_binary(sign_str(op), args[0], args[1], dest);
            },
            Intrinsic::SimdInsert => {
                self.codegen_simd_insert(args[0], args[1], args[2], dest);
            },
            Intrinsic::SimdCast => {
                self.codegen_simd_cast(args[0], dest, dest_layout);
            },
            Intrinsic::SimdShuffle => {
                self.codegen_simd_shuffle(args[0], args[1], args[2], dest, dest_layout);
            },
            Intrinsic::SimdOther => {
                self.codegen_simd_other(dest, dest_layout.size);
            },
        }
    }

    /// Emits an intrinsic. An intrinsic of an unknown name has no C code: nothing
    /// is emitted, and the result is false. What goes into a black box is stored
    /// before the call. Only intrinsics that depend on a type need one.
    pub fn codegen_intrinsic_call(
        &mut self,
        name: &str,
        args: &Vec<ValueRef>,
        dest: ValueRef,
        dest_layout: &Layout,
        tp: Option<&TypeArg>,
    ) -> (r: bool)
        requires
            old(self).wf(),
            old(self)@.cx.has_all(args@),
            old(self)@.has(dest),
            intrinsic_named(name@) matches Some(i) ==> old(self)@.intrinsic_ok(
                i,
                args@,
                opt_type(tp),
            ),
        ensures
            final(self).wf(),
            r == (intrinsic_named(name@) is Some),
            r ==> final(self)@ == old(self)@.intrinsic(
                intrinsic_named(name@)->0,
                args@,
                dest,
                *dest_layout,
                opt_type(tp)->0,
            ),
            !r ==> final(self)@ == old(self)@,
            old(self)@.within(final(self)@),
    {
        match find_intrinsic(name) {
            Some(i) => {
                match tp {
                    Some(t) => self.emit_intrinsic(i, args, dest, dest_layout, t),
                    None => {
                        let none = TypeArg {
                            layout: Layout {
                                repr: BackendRepr::Memory,
                                ty: TyTag::Other,
                                is_zst: true,
                                size: 0,
                                align: 1,
                                single_variant: true,
                                fields: Vec::new(),
                            },
                            int_size: 0,
                            signed: false,
                        };
                        self.emit_intrinsic(i, args, dest, dest_layout, &none)
                    },
                }
                true
            },
            None => false,
        }
    }
}

} // verus!
