#![allow(dead_code)]
use codegen_c::arith::OverflowOp;
use codegen_c::builder::Builder;
use codegen_c::casts::{IntPredicate, RealPredicate};
use codegen_c::context::{CodegenCx, Linkage};
use codegen_c::declare::FnRef;
use codegen_c::layout::{ArgAbi, BackendRepr, FnAbi, Layout, PassMode, Primitive, Scalar, TyTag};
use codegen_c::render::render_stmt;
use codegen_c::types::CTypeKind;
use codegen_c::values::ValueRef;

fn int_scalar(bits: u64, signed: bool) -> Scalar {
    let bytes = (bits / 8) as u64;
    Scalar { primitive: Primitive::Int { bits, signed }, is_bool: false, size: bytes, align: bytes }
}

fn scalar_layout(s: Scalar) -> Layout {
    Layout {
        repr: BackendRepr::Scalar(s),
        ty: TyTag::Other,
        is_zst: false,
        size: s.size,
        align: s.align,
        single_variant: true,
        fields: vec![],
    }
}

fn int_layout(bits: u64, signed: bool) -> Layout {
    scalar_layout(int_scalar(bits, signed))
}

fn direct(layout: Layout) -> ArgAbi {
    ArgAbi { layout, mode: PassMode::Direct }
}

/// A builder in the first block of `int32_t f(int32_t, int32_t)`, with pointers of
/// 64 bits.
fn start() -> Builder {
    let mut cx = CodegenCx::new("unit", 8);
    let f = FnRef {
        id: 1,
        sym: "f".to_string(),
        abi: FnAbi {
            args: vec![direct(int_layout(32, true)), direct(int_layout(32, true))],
            ret: direct(int_layout(32, true)),
            c_variadic: false,
        },
    };
    cx.predefine_fn(&f, Linkage::External);
    let v = cx.get_fn(&f);
    let bb = Builder::append_block(&mut cx, v, "start");
    Builder::build(cx, bb)
}

/// The statements of the current block.
fn lines(b: &Builder) -> Vec<String> {
    b.cx.module.blocks[b.current_bb.0 as usize].stmts.iter().map(|s| render_stmt(s)).collect()
}

/// The last statement of the current block.
fn last(b: &Builder) -> String {
    lines(b).pop().unwrap()
}

/// The locals of the current function.
fn locals(b: &Builder) -> Vec<String> {
    b.cx.get_open(&b.current_fn).unwrap().locals.clone()
}

/// An expression of an integer type.
fn int_value(b: &mut Builder, text: &str, bits: u64, signed: bool) -> ValueRef {
    let t = b.intern_type(CTypeKind::Int { bits, signed });
    b.inline_expr(text.to_string(), t)
}

/// An expression of a pointer type.
fn ptr_value(b: &mut Builder, text: &str) -> ValueRef {
    let t = b.intern_type(CTypeKind::Ptr);
    b.inline_expr(text.to_string(), t)
}

#[test]
fn operators_are_written_between_their_operands() {
    let mut b = start();
    let x = int_value(&mut b, "x", 32, true);
    let y = int_value(&mut b, "y", 32, true);
    let r = b.add(x, y);
    let n = b.render(r);
    assert_eq!(last(&b), format!("{} = x + y;", n));
    assert_eq!(locals(&b), vec![format!("int32_t {};", n)]);
    let r = b.sub(x, y);
    assert_eq!(last(&b), format!("{} = x - y;", b.render(r)));
    let r = b.mul(x, y);
    assert_eq!(last(&b), format!("{} = x * y;", b.render(r)));
    let r = b.sdiv(x, y);
    assert_eq!(last(&b), format!("{} = x / y;", b.render(r)));
    let r = b.srem(x, y);
    assert_eq!(last(&b), format!("{} = x % y;", b.render(r)));
    let r = b.and(x, y);
    assert_eq!(last(&b), format!("{} = x & y;", b.render(r)));
    let r = b.or(x, y);
    assert_eq!(last(&b), format!("{} = x | y;", b.render(r)));
    let r = b.xor(x, y);
    assert_eq!(last(&b), format!("{} = x ^ y;", b.render(r)));
}

#[test]
fn unsigned_division_casts_signed_operands() {
    let mut b = start();
    let x = int_value(&mut b, "x", 32, true);
    let y = int_value(&mut b, "y", 32, true);
    let r = b.udiv(x, y);
    assert_eq!(
        last(&b),
        format!("{} = (int32_t)((uint32_t)x / (uint32_t)y);", b.render(r))
    );
    let p = int_value(&mut b, "p", 64, false);
    let q = int_value(&mut b, "q", 64, false);
    let r = b.urem(p, q);
    assert_eq!(last(&b), format!("{} = p % q;", b.render(r)));
}

#[test]
fn shifts_cast_the_left_operand() {
    let mut b = start();
    let x = int_value(&mut b, "x", 64, true);
    let s = int_value(&mut b, "s", 32, true);
    let r = b.shl(x, s);
    assert_eq!(last(&b), format!("{} = (int64_t)(x) << (s);", b.render(r)));
    let r = b.ashr(x, s);
    assert_eq!(last(&b), format!("{} = (int64_t)(x) >> (s);", b.render(r)));
    let r = b.lshr(x, s);
    assert_eq!(
        last(&b),
        format!("{} = (int64_t)((uint64_t)(x) >> (s));", b.render(r))
    );
    let u = int_value(&mut b, "u", 16, false);
    let r = b.lshr(u, s);
    assert_eq!(last(&b), format!("{} = (uint16_t)(u) >> (s);", b.render(r)));
}

#[test]
fn truth_values_are_negated_logically() {
    let mut b = start();
    let t = b.intern_type(CTypeKind::Bool);
    let c = b.inline_expr("c".to_string(), t);
    let r = b.not(c);
    assert_eq!(last(&b), format!("{} = !c;", b.render(r)));
    let x = int_value(&mut b, "x", 8, true);
    let r = b.not(x);
    assert_eq!(last(&b), format!("{} = ~x;", b.render(r)));
    let r = b.neg(x);
    assert_eq!(last(&b), format!("{} = -x;", b.render(r)));
}

#[test]
fn float_remainder_calls_fmod() {
    let mut b = start();
    let t = b.intern_type(CTypeKind::Float { bits: 64 });
    let x = b.inline_expr("x".to_string(), t);
    let y = b.inline_expr("y".to_string(), t);
    let r = b.frem(x, y);
    assert_eq!(last(&b), format!("{} = fmod(x, y);", b.render(r)));
    assert_eq!(locals(&b), vec![format!("double {};", b.render(r))]);
}

#[test]
fn checked_operations_call_the_helper_of_the_type() {
    let mut b = start();
    let x = int_value(&mut b, "x", 32, false);
    let y = int_value(&mut b, "y", 32, false);
    let (r, o) = b.checked_binop(OverflowOp::Add, x, y);
    let (rn, on) = (b.render(r), b.render(o));
    assert_eq!(last(&b), format!("{} = __rustc_add_overflow_u32(x, y, &{});", on, rn));
    assert_eq!(
        locals(&b),
        vec![format!("uint32_t {};", rn), format!("_Bool {};", on)]
    );
    let t = b.intern_type(CTypeKind::PtrWidth { signed: true });
    let p = b.inline_expr("p".to_string(), t);
    let (r, o) = b.checked_binop(OverflowOp::Mul, p, p);
    assert_eq!(
        last(&b),
        format!("{} = __rustc_mul_overflow_isize(p, p, &{});", b.render(o), b.render(r))
    );
}

#[test]
fn immediates_change_between_bool_and_byte() {
    let mut b = start();
    let t = b.intern_type(CTypeKind::Bool);
    let c = b.inline_expr("c".to_string(), t);
    let r = b.from_immediate(c);
    assert_eq!(last(&b), format!("{} = (int8_t)(c);", b.render(r)));
    let x = int_value(&mut b, "x", 8, true);
    assert_eq!(b.from_immediate(x), x);
    let s = Scalar { is_bool: true, ..int_scalar(8, false) };
    let r = b.to_immediate_scalar(x, s);
    assert_eq!(last(&b), format!("{} = (_Bool)(x);", b.render(r)));
    assert_eq!(b.to_immediate_scalar(c, s), c);
    let before = lines(&b).len();
    let r = b.to_immediate_scalar(x, int_scalar(32, true));
    assert_ne!(r, x);
    assert_eq!(b.render(r), "x");
    assert_eq!(lines(&b).len(), before);
}

#[test]
fn comparisons_cast_to_the_wider_operand() {
    let mut b = start();
    let x = int_value(&mut b, "x", 32, true);
    let y = int_value(&mut b, "y", 64, false);
    let r = b.icmp(IntPredicate::IntULT, x, y);
    assert_eq!(last(&b), format!("{} = (uint64_t)x < (uint64_t)y;", b.render(r)));
    let r = b.icmp(IntPredicate::IntSGE, x, y);
    assert_eq!(last(&b), format!("{} = (int64_t)x >= (int64_t)y;", b.render(r)));
    let r = b.icmp(IntPredicate::IntEQ, x, x);
    assert_eq!(last(&b), format!("{} = (int32_t)x == (int32_t)x;", b.render(r)));
    let t = b.intern_type(CTypeKind::PtrWidth { signed: false });
    let p = b.inline_expr("p".to_string(), t);
    let r = b.icmp(IntPredicate::IntUGT, p, x);
    assert_eq!(
        last(&b),
        format!("{} = (__rustc_usize)p > (__rustc_usize)x;", b.render(r))
    );
    let r = b.icmp(IntPredicate::IntNE, x, p);
    assert_eq!(
        last(&b),
        format!("{} = (__rustc_isize)x != (__rustc_isize)p;", b.render(r))
    );
    let t = b.intern_type(CTypeKind::Float { bits: 32 });
    let v = b.inline_expr("v".to_string(), t);
    let r = b.icmp(IntPredicate::IntEQ, v, v);
    assert_eq!(last(&b), format!("{} = v == v;", b.render(r)));
}

#[test]
fn float_comparisons_know_of_nan() {
    let mut b = start();
    let t = b.intern_type(CTypeKind::Float { bits: 64 });
    let x = b.inline_expr("x".to_string(), t);
    let y = b.inline_expr("y".to_string(), t);
    let r = b.fcmp(RealPredicate::RealOLT, x, y);
    assert_eq!(last(&b), format!("{} = x < y;", b.render(r)));
    let r = b.fcmp(RealPredicate::RealUNO, x, y);
    assert_eq!(last(&b), format!("{} = (x != x) || (y != y);", b.render(r)));
    let r = b.fcmp(RealPredicate::RealORD, x, y);
    assert_eq!(last(&b), format!("{} = !(x != x) && !(y != y);", b.render(r)));
    let before = lines(&b).len();
    let r = b.fcmp(RealPredicate::RealPredicateTrue, x, y);
    assert_eq!(b.render(r), "1");
    let r = b.fcmp(RealPredicate::RealPredicateFalse, x, y);
    assert_eq!(b.render(r), "0");
    assert_eq!(lines(&b).len(), before);
}

#[test]
fn casts_name_the_destination() {
    let mut b = start();
    let x = int_value(&mut b, "x", 32, true);
    let i64_ty = b.intern_type(CTypeKind::Int { bits: 64, signed: true });
    let r = b.sext(x, i64_ty);
    assert_eq!(last(&b), format!("{} = (int64_t)x;", b.render(r)));
    let r = b.zext(x, i64_ty);
    assert_eq!(last(&b), format!("{} = (int64_t)(uint32_t)x;", b.render(r)));
    let u = int_value(&mut b, "u", 32, false);
    let r = b.zext(u, i64_ty);
    assert_eq!(last(&b), format!("{} = (int64_t)u;", b.render(r)));
    let r = b.intcast(u, i64_ty, true);
    assert_eq!(last(&b), format!("{} = (int64_t)(int32_t)u;", b.render(r)));
    let r = b.intcast(x, i64_ty, false);
    assert_eq!(last(&b), format!("{} = (int64_t)(uint32_t)x;", b.render(r)));
    let f64_ty = b.intern_type(CTypeKind::Float { bits: 64 });
    let r = b.uitofp(x, f64_ty);
    assert_eq!(last(&b), format!("{} = (double)(uint32_t)x;", b.render(r)));
    let d = b.inline_expr("d".to_string(), f64_ty);
    let r = b.fptoui(d, i64_ty);
    assert_eq!(last(&b), format!("{} = (int64_t)(uint64_t)d;", b.render(r)));
}

#[test]
fn saturating_conversions_clamp() {
    let mut b = start();
    let f = b.intern_type(CTypeKind::Float { bits: 64 });
    let d = b.inline_expr("d".to_string(), f);
    let u8_ty = b.intern_type(CTypeKind::Int { bits: 8, signed: false });
    let r = b.fptoui_sat(d, u8_ty);
    assert_eq!(
        last(&b),
        format!(
            "{} = d != d ? (uint8_t)0 : d < 0.0 ? (uint8_t)0 : d >= 256.0 ? (uint8_t)255ULL : (uint8_t)d;",
            b.render(r)
        )
    );
    let i8_ty = b.intern_type(CTypeKind::Int { bits: 8, signed: true });
    let r = b.fptosi_sat(d, i8_ty);
    assert_eq!(
        last(&b),
        format!(
            "{} = d != d ? (int8_t)0 : d < -128.0 ? (int8_t)(-127LL - 1) : d >= 128.0 ? (int8_t)127LL : (int8_t)d;",
            b.render(r)
        )
    );
    let u64_ty = b.intern_type(CTypeKind::Int { bits: 64, signed: false });
    let r = b.fptoui_sat(d, u64_ty);
    assert_eq!(
        last(&b),
        format!(
            "{} = d != d ? (uint64_t)0 : d < 0.0 ? (uint64_t)0 : d >= 18446744073709551616.0 ? (uint64_t)18446744073709551615ULL : (uint64_t)d;",
            b.render(r)
        )
    );
    let size = b.intern_type(CTypeKind::PtrWidth { signed: true });
    let r = b.fptosi_sat(d, size);
    assert_eq!(
        last(&b),
        format!(
            "{} = d != d ? (__rustc_isize)0 : d < (double)INTPTR_MIN ? (__rustc_isize)INTPTR_MIN : d >= -(double)INTPTR_MIN ? (__rustc_isize)INTPTR_MAX : (__rustc_isize)d;",
            b.render(r)
        )
    );
    let i64_ty = b.intern_type(CTypeKind::Int { bits: 64, signed: true });
    let r = b.fptosi_sat(d, i64_ty);
    assert_eq!(
        last(&b),
        format!(
            "{} = d != d ? (int64_t)0 : d < -9223372036854775808.0 ? (int64_t)(-9223372036854775807LL - 1) : d >= 9223372036854775808.0 ? (int64_t)9223372036854775807LL : (int64_t)d;",
            b.render(r)
        )
    );
    let size = b.intern_type(CTypeKind::PtrWidth { signed: false });
    let r = b.fptoui_sat(d, size);
    assert_eq!(
        last(&b),
        format!(
            "{} = d != d ? (__rustc_usize)0 : d < 0.0 ? (__rustc_usize)0 : d >= ((double)(UINTPTR_MAX / 2 + 1) * 2.0) ? (__rustc_usize)UINTPTR_MAX : (__rustc_usize)d;",
            b.render(r)
        )
    );
    let wide = b.intern_type(CTypeKind::Int { bits: 256, signed: false });
    let r = b.fptoui_sat(d, wide);
    assert_eq!(last(&b), format!("{} = (unsigned _BitInt(256))d;", b.render(r)));
}

#[test]
fn limits_of_conversions_are_powers_of_two() {
    let mut b = start();
    let f = b.intern_type(CTypeKind::Float { bits: 64 });
    let d = b.inline_expr("d".to_string(), f);
    for bits in [8u64, 16, 32, 64] {
        let t = b.intern_type(CTypeKind::Int { bits, signed: false });
        b.fptoui_sat(d, t);
        let limit = 1u128 << bits;
        assert!(last(&b).contains(&format!("d >= {}.0 ? (uint{}_t){}ULL : ", limit, bits, limit - 1)));
        let t = b.intern_type(CTypeKind::Int { bits, signed: true });
        b.fptosi_sat(d, t);
        let limit = 1u128 << (bits - 1);
        assert!(last(&b).contains(&format!("d >= {}.0 ? (int{}_t){}LL : ", limit, bits, limit - 1)));
        assert!(last(&b).contains(&format!("d < -{}.0 ? (int{}_t)(-{}LL - 1) : ", limit, bits, limit - 1)));
    }
    let t = b.intern_type(CTypeKind::Int { bits: 128, signed: false });
    b.fptoui_sat(d, t);
    assert!(last(&b).contains("d >= 340282366920938463463374607431768211456.0 ? "));
}

#[test]
fn bitcasts_copy_the_bits() {
    let mut b = start();
    let x = int_value(&mut b, "x", 32, true);
    let i32_ty = b.get_type(x);
    assert_eq!(b.bitcast(x, i32_ty), x);
    let u32_ty = b.intern_type(CTypeKind::Int { bits: 32, signed: false });
    let r = b.bitcast(x, u32_ty);
    assert_eq!(last(&b), format!("{} = (uint32_t)x;", b.render(r)));
    let f32_ty = b.intern_type(CTypeKind::Float { bits: 32 });
    let r = b.bitcast(x, f32_ty);
    let n = b.render(r);
    let all = lines(&b);
    let copy = &all[all.len() - 1];
    let save = &all[all.len() - 2];
    let src = save.split(" = ").next().unwrap();
    assert_eq!(*save, format!("{} = x;", src));
    assert_eq!(*copy, format!("memcpy(&{}, &{}, sizeof({}));", n, src, n));
    let q = int_value(&mut b, "q", 64, true);
    let size = b.intern_type(CTypeKind::PtrWidth { signed: false });
    let r = b.bitcast(q, size);
    assert_eq!(last(&b), format!("{} = (__rustc_usize)q;", b.render(r)));
}
