#![allow(dead_code)]
use codegen_c::builder::Builder;
use codegen_c::context::{CodegenCx, Linkage};
use codegen_c::declare::FnRef;
use codegen_c::intrinsic::{Intrinsic, MathWidth, TypeArg, find_intrinsic};
use codegen_c::layout::{ArgAbi, BackendRepr, FnAbi, Layout, PassMode, Primitive, Scalar, TyTag};
use codegen_c::render::render_stmt;
use codegen_c::types::CTypeKind;
use codegen_c::values::ValueRef;

fn int_scalar(bits: u64, signed: bool) -> Scalar {
    let bytes = (bits / 8) as u64;
    Scalar { primitive: Primitive::Int { bits, signed }, is_bool: false, size: bytes, align: bytes }
}

fn scalar_layout(s: Scalar) -> Layout {
    Layout {
        repr: BackendRepr::Scalar(s),
        ty: TyTag::Other,
        is_zst: false,
        size: s.size,
        align: s.align,
        single_variant: true,
        fields: vec![],
    }
}

fn int_layout(bits: u64, signed: bool) -> Layout {
    scalar_layout(int_scalar(bits, signed))
}

fn direct(layout: Layout) -> ArgAbi {
    ArgAbi { layout, mode: PassMode::Direct }
}

/// A builder in the first block of `int32_t f(int32_t, int32_t)`, with pointers of
/// 64 bits.
fn start() -> Builder {
    let mut cx = CodegenCx::new("unit", 8);
    let f = FnRef {
        id: 1,
        sym: "f".to_string(),
        abi: FnAbi {
            args: vec![direct(int_layout(32, true)), direct(int_layout(32, true))],
            ret: direct(int_layout(32, true)),
            c_variadic: false,
        },
    };
    cx.predefine_fn(&f, Linkage::External);
    let v = cx.get_fn(&f);
    let bb = Builder::append_block(&mut cx, v, "start");
    Builder::build(cx, bb)
}

/// The statements of the current block.
fn lines(b: &Builder) -> Vec<String> {
    b.cx.module.blocks[b.current_bb.0 as usize].stmts.iter().map(|s| render_stmt(s)).collect()
}

/// The last statement of the current block.
fn last(b: &Builder) -> String {
    lines(b).pop().unwrap()
}

/// The locals of the current function.
fn locals(b: &Builder) -> Vec<String> {
    b.cx.get_open(&b.current_fn).unwrap().locals.clone()
}

/// An expression of an integer type.
fn int_value(b: &mut Builder, text: &str, bits: u64, signed: bool) -> ValueRef {
    let t = b.intern_type(CTypeKind::Int { bits, signed });
    b.inline_expr(text.to_string(), t)
}

/// An expression of a pointer type.
fn ptr_value(b: &mut Builder, text: &str) -> ValueRef {
    let t = b.intern_type(CTypeKind::Ptr);
    b.inline_expr(text.to_string(), t)
}

fn type_arg(layout: Layout, int_size: u64, signed: bool) -> TypeArg {
    TypeArg { layout, int_size, signed }
}

/// Calls an intrinsic whose result goes to `d`, and gives what it emits.
fn emitted(b: &mut Builder, name: &str, args: Vec<ValueRef>, layout: &Layout, tp: Option<&TypeArg>) -> Vec<String> {
    let before = lines(b).len();
    let d = ptr_value(b, "d");
    assert!(b.codegen_intrinsic_call(name, &args, d, layout, tp));
    lines(b)[before..].to_vec()
}

/// The expression that an intrinsic on integers computes, which is then stored.
fn computed(b: &mut Builder, name: &str, args: Vec<ValueRef>, stored: &str) -> String {
    let out = emitted(b, name, args, &int_layout(32, true), None);
    assert_eq!(out.len(), 2);
    let tmp = out[0].split(" = ").next().unwrap().to_string();
    assert_eq!(out[1], format!("*({} *)d = {};", stored, tmp));
    out[0].strip_prefix(&format!("{} = ", tmp)).unwrap().strip_suffix(";").unwrap().to_string()
}

#[test]
fn unknown_intrinsics_are_refused() {
    let mut b = start();
    let d = ptr_value(&mut b, "d");
    assert!(!b.codegen_intrinsic_call("size_of", &vec![], d, &int_layout(32, true), None));
    assert!(lines(&b).is_empty());
    assert_eq!(find_intrinsic("size_of"), None);
    assert_eq!(find_intrinsic("ctlz_nonzero"), Some(Intrinsic::Ctlz));
    assert_eq!(find_intrinsic("simd_anything"), Some(Intrinsic::SimdOther));
    assert_eq!(find_intrinsic("fmuladdf64"), Some(Intrinsic::Fma { width: MathWidth::F64 }));
}

#[test]
fn leading_zeros_are_counted_by_width() {
    let mut b = start();
    let x = int_value(&mut b, "x", 8, true);
    assert_eq!(
        computed(&mut b, "ctlz", vec![x], "int32_t"),
        "(x == 0 ? 8 : __rustc_clz32((uint32_t)(x) & 255U) - (32 - 8))"
    );
    let x = int_value(&mut b, "x", 32, false);
    assert_eq!(
        computed(&mut b, "ctlz", vec![x], "int32_t"),
        "(x == 0 ? 32 : __rustc_clz32((uint32_t)x) - (32 - 32))"
    );
    let x = int_value(&mut b, "x", 64, false);
    assert_eq!(
        computed(&mut b, "ctlz_nonzero", vec![x], "int32_t"),
        "(x == 0 ? 64 : __rustc_clz64((uint64_t)x) - (64 - 64))"
    );
    let x = int_value(&mut b, "x", 128, false);
    assert_eq!(
        computed(&mut b, "ctlz", vec![x], "int32_t"),
        "((uint64_t)((uint128_t)(x) >> 64) != 0 ? __rustc_clz64((uint64_t)((uint128_t)(x) >> 64)) : 64 + ((uint64_t)(x) == 0 ? 64 : __rustc_clz64((uint64_t)(x))))"
    );
}

#[test]
fn trailing_zeros_and_ones_are_counted() {
    let mut b = start();
    let x = int_value(&mut b, "x", 16, false);
    assert_eq!(
        computed(&mut b, "cttz", vec![x], "int32_t"),
        "(x == 0 ? 16 : __rustc_ctz32((uint32_t)x))"
    );
    assert_eq!(
        computed(&mut b, "ctpop", vec![x], "int32_t"),
        "__rustc_popcount32((uint32_t)(x) & 65535U)"
    );
    let x = int_value(&mut b, "x", 64, false);
    assert_eq!(
        computed(&mut b, "cttz", vec![x], "int32_t"),
        "(x == 0 ? 64 : __rustc_ctz64((uint64_t)x))"
    );
    assert_eq!(
        computed(&mut b, "ctpop", vec![x], "int32_t"),
        "__rustc_popcount64((uint64_t)x)"
    );
}

#[test]
fn bytes_are_swapped() {
    let mut b = start();
    let x = int_value(&mut b, "x", 8, false);
    assert_eq!(computed(&mut b, "bswap", vec![x], "uint8_t"), "x");
    let x = int_value(&mut b, "x", 32, false);
    assert_eq!(computed(&mut b, "bswap", vec![x], "uint32_t"), "__rustc_bswap32(x)");
    let x = int_value(&mut b, "x", 24, false);
    assert_eq!(
        computed(&mut b, "bswap", vec![x], "uint32_t"),
        "x /* bswap unsupported for 24-bit */"
    );
}

#[test]
fn bits_are_reversed_in_a_loop() {
    let mut b = start();
    let x = int_value(&mut b, "x", 8, true);
    let out = emitted(&mut b, "bitreverse", vec![x], &int_layout(8, true), None);
    let r = out[0].strip_suffix(" = 0;").unwrap().to_string();
    let i = locals(&b).pop().unwrap().replace("int32_t ", "").replace(";", "");
    assert_eq!(
        out[1],
        format!(
            "for ({i} = 0; {i} < 8; {i}++) {{ {r} = (int8_t)(((uint8_t){r} << 1) | (((uint8_t)x >> {i}) & 1)); }}",
            i = i,
            r = r
        )
    );
    assert_eq!(out[2], format!("*(int8_t *)d = {};", r));
}

#[test]
fn saturation_clamps_on_overflow() {
    let mut b = start();
    let x = int_value(&mut b, "x", 8, true);
    let y = int_value(&mut b, "y", 8, true);
    let out = emitted(&mut b, "saturating_add", vec![x, y], &int_layout(8, true), None);
    let r = out[2].strip_prefix("*(int8_t *)d = ").unwrap().strip_suffix(";").unwrap().to_string();
    let o = out[0].split(" = ").next().unwrap().to_string();
    assert_eq!(out[0], format!("{} = __rustc_add_overflow_i8(x, y, &{});", o, r));
    assert_eq!(out[1], format!("if ({}) {} = (y > 0 ? (int8_t)127LL : (int8_t)-128LL);", o, r));
    let p = int_value(&mut b, "p", 64, false);
    let out = emitted(&mut b, "saturating_sub", vec![p, p], &int_layout(64, false), None);
    assert!(out[1].ends_with(" = (uint64_t)0;"));
    let out = emitted(&mut b, "saturating_add", vec![p, p], &int_layout(64, false), None);
    assert!(out[1].ends_with(" = (uint64_t)18446744073709551615ULL;"));
    let w = int_value(&mut b, "w", 128, false);
    let out = emitted(&mut b, "saturating_add", vec![w, w], &int_layout(128, false), None);
    assert!(out[1].ends_with(" = (uint128_t)-1;"));
}

#[test]
fn rotations_and_funnel_shifts() {
    let mut b = start();
    let x = int_value(&mut b, "x", 32, true);
    let s = int_value(&mut b, "s", 32, false);
    assert_eq!(
        computed(&mut b, "rotate_left", vec![x, s], "int32_t"),
        "(int32_t)((uint32_t)x << (s % 32) | (uint32_t)x >> ((32 - s) % 32))"
    );
    assert_eq!(
        computed(&mut b, "rotate_right", vec![x, s], "int32_t"),
        "(int32_t)((uint32_t)x >> (s % 32) | (uint32_t)x << ((32 - s) % 32))"
    );
    let y = int_value(&mut b, "y", 32, true);
    assert_eq!(
        computed(&mut b, "unchecked_funnel_shl", vec![x, y, s], "int32_t"),
        "(int32_t)(((uint32_t)x << s) | ((uint32_t)y >> (32 - s)))"
    );
    assert_eq!(
        computed(&mut b, "unchecked_funnel_shr", vec![x, y, s], "int32_t"),
        "(int32_t)(((uint32_t)x >> s) | ((uint32_t)y << (32 - s)))"
    );
}

#[test]
fn mathematical_functions_have_a_width() {
    let mut b = start();
    let t = b.intern_type(CTypeKind::Float { bits: 32 });
    let x = b.inline_expr("x".to_string(), t);
    let y = b.inline_expr("y".to_string(), t);
    let n = int_value(&mut b, "n", 32, true);
    assert_eq!(computed(&mut b, "sqrtf32", vec![x], "float"), "sqrtf(x)");
    assert_eq!(computed(&mut b, "round_ties_even_f32", vec![x], "float"), "rintf(x)");
    assert_eq!(computed(&mut b, "round_ties_even_f64", vec![x], "float"), "rint(x)");
    assert_eq!(computed(&mut b, "minnumf32", vec![x, y], "float"), "fminf(x, y)");
    assert_eq!(computed(&mut b, "maxnumf64", vec![x, y], "float"), "fmax(x, y)");
    assert_eq!(computed(&mut b, "powif32", vec![x, n], "float"), "powf(x, (float)n)");
    assert_eq!(computed(&mut b, "powif64", vec![x, n], "float"), "pow(x, (double)n)");
    assert_eq!(computed(&mut b, "fmaf32", vec![x, y, x], "float"), "fmaf(x, y, x)");
    assert_eq!(computed(&mut b, "fmuladdf64", vec![x, y, x], "float"), "fma(x, y, x)");
}

#[test]
fn memory_is_compared() {
    let mut b = start();
    let p = ptr_value(&mut b, "p");
    let q = ptr_value(&mut b, "q");
    let n = int_value(&mut b, "n", 64, false);
    assert_eq!(computed(&mut b, "compare_bytes", vec![p, q, n], "int32_t"), "memcmp(p, q, n)");
    let tp = type_arg(int_layout(64, false), 8, false);
    let out = emitted(&mut b, "raw_eq", vec![p, q], &int_layout(8, true), Some(&tp));
    assert!(out[0].ends_with(" = memcmp(p, q, 8) == 0;"));
}

#[test]
fn volatile_and_variable_arguments() {
    let mut b = start();
    let p = ptr_value(&mut b, "p");
    let tp = type_arg(int_layout(32, true), 4, true);
    let out = emitted(&mut b, "volatile_load", vec![p], &int_layout(32, true), Some(&tp));
    assert!(out[0].ends_with(" = *(volatile int32_t *)p;"));
    let x = int_value(&mut b, "x", 32, true);
    let out = emitted(&mut b, "volatile_store", vec![p, x], &int_layout(32, true), None);
    assert_eq!(out, vec!["*(volatile int32_t *)p = x;"]);
    let out = emitted(&mut b, "va_copy", vec![p, p], &int_layout(32, true), None);
    assert_eq!(out, vec!["va_copy(*(va_list *)p, *(va_list *)p);"]);
    let out = emitted(&mut b, "va_arg", vec![p], &int_layout(32, true), Some(&tp));
    assert!(out[0].ends_with(" = va_arg(*(va_list *)p, int32_t);"));
    assert_eq!(b.va_start(p), p);
    assert_eq!(last(&b), "va_start(*(va_list *)p, 0);");
    assert_eq!(b.va_end(p), p);
    assert_eq!(last(&b), "va_end(*(va_list *)p);");
    let out = emitted(&mut b, "prefetch_read_data", vec![p, x], &int_layout(32, true), None);
    assert!(out.is_empty());
}

#[test]
fn unwinding_is_caught() {
    let mut b = start();
    let f = ptr_value(&mut b, "f");
    let p = ptr_value(&mut b, "p");
    let c = ptr_value(&mut b, "c");
    assert_eq!(
        computed(&mut b, "catch_unwind", vec![f, p, c], "int32_t"),
        "__rust_try((void (*)(void *))f, p, (void (*)(void *, void *))c)"
    );
    b.abort();
    assert_eq!(last(&b), "abort();");
}

#[test]
fn choices_and_constants_are_stored() {
    let mut b = start();
    let c = int_value(&mut b, "c", 8, true);
    let x = int_value(&mut b, "x", 32, true);
    assert_eq!(computed(&mut b, "select_unpredictable", vec![c, x, x], "int32_t"), "c ? x : x");
    let out = emitted(&mut b, "is_val_statically_known", vec![x], &int_layout(8, true), None);
    assert_eq!(out, vec!["*(_Bool *)d = 0;"]);
}

#[test]
fn values_are_swapped_through_a_buffer() {
    let mut b = start();
    let p = ptr_value(&mut b, "p");
    let q = ptr_value(&mut b, "q");
    let tp = type_arg(int_layout(64, false), 8, false);
    let out = emitted(&mut b, "typed_swap_nonoverlapping", vec![p, q], &int_layout(8, true), Some(&tp));
    assert_eq!(
        out,
        vec![
            "{ _Alignas(8) unsigned char _swap_tmp[8];",
            "  memcpy(_swap_tmp, p, 8);",
            "  memcpy(p, q, 8);",
            "  memcpy(q, _swap_tmp, 8); }",
        ]
    );
}

#[test]
fn carrying_multiplication_keeps_both_halves() {
    let mut b = start();
    let x = int_value(&mut b, "x", 32, false);
    let tp = type_arg(int_layout(32, false), 4, false);
    let out = emitted(&mut b, "carrying_mul_add", vec![x, x, x, x], &int_layout(64, false), Some(&tp));
    let w = out[0].split(" = ").next().unwrap().to_string();
    let l = out[1].split(" = ").next().unwrap().to_string();
    let h = out[2].split(" = ").next().unwrap().to_string();
    assert_eq!(
        out,
        vec![
            format!("{} = (uint64_t)x * (uint64_t)x + (uint64_t)x + (uint64_t)x;", w),
            format!("{} = (uint32_t){};", l, w),
            format!("{} = (uint32_t)((uint64_t){} >> 32);", h, w),
            format!("*(uint32_t *)d = {};", l),
            format!("*(uint32_t *)((char *)d + 4) = {};", h),
        ]
    );
    let y = int_value(&mut b, "y", 128, false);
    let tp = type_arg(int_layout(128, false), 16, false);
    let out = emitted(&mut b, "carrying_mul_add", vec![y, y, y, y], &int_layout(128, false), Some(&tp));
    assert_eq!(out.len(), 21);
    assert_eq!(out[0], "{ /* carrying_mul_add u128 */");
    assert_eq!(out[2], "  uint64_t _a_hi = (uint64_t)((uint128_t)y >> 64);");
    assert_eq!(out[19], "  *((uint128_t *)((char *)d + 16)) = (uint128_t)_high;");
    assert_eq!(out[20], "}");
}

#[test]
fn tables_of_functions_are_read_by_slot() {
    let mut b = start();
    let p = ptr_value(&mut b, "p");
    let r = b.type_checked_load(p, 24);
    assert_eq!(
        last(&b),
        format!("{} = *(void **)((char *)p + 3 * sizeof(void *));", b.render(r))
    );
    let r = b.codegen_llvm_intrinsic_call();
    assert_eq!(b.render(r), "NULL");
}

fn vector_layout(bits: u64, count: u64) -> Layout {
    let s = int_scalar(bits, true);
    Layout {
        repr: BackendRepr::SimdVector { element: s, count },
        size: s.size * count,
        ..scalar_layout(s)
    }
}

fn vector_value(b: &mut Builder, text: &str, len: u64) -> ValueRef {
    let element = b.intern_type(CTypeKind::Int { bits: 32, signed: true });
    let t = b.intern_type(CTypeKind::Vector { element, len });
    b.inline_expr(text.to_string(), t)
}

#[test]
fn vectors_are_handled_element_by_element() {
    let mut b = start();
    let x = vector_value(&mut b, "x", 2);
    let y = vector_value(&mut b, "y", 2);
    let out = emitted(&mut b, "simd_lt", vec![x, y], &vector_layout(32, 2), None);
    let r = out[0].split(".v[0]").next().unwrap().to_string();
    assert_eq!(out[0], format!("{}.v[0] = (x.v[0] < y.v[0]) ? -1 : 0;", r));
    assert_eq!(out[1], format!("{}.v[1] = (x.v[1] < y.v[1]) ? -1 : 0;", r));
    assert_eq!(out.len(), 3);
    let out = emitted(&mut b, "simd_xor", vec![x, y], &vector_layout(32, 2), None);
    assert!(out[1].ends_with(".v[1] = x.v[1] ^ y.v[1];"));
    let out = emitted(&mut b, "simd_shl", vec![x, y], &vector_layout(32, 2), None);
    assert!(out[0].ends_with(".v[0] = x.v[0] << y.v[0];"));
    let out = emitted(&mut b, "simd_cast", vec![x], &vector_layout(16, 2), None);
    assert!(out[1].ends_with(".v[1] = (int16_t)x.v[1];"));
    let i = int_value(&mut b, "i", 32, false);
    let out = emitted(&mut b, "simd_extract", vec![x, i], &int_layout(32, true), None);
    assert!(out[0].ends_with(" = x.v[i];"));
    let e = int_value(&mut b, "e", 32, true);
    let out = emitted(&mut b, "simd_insert", vec![x, i, e], &vector_layout(32, 2), None);
    assert!(out[0].ends_with(" = x;"));
    assert!(out[1].ends_with(".v[i] = e;"));
    let out = emitted(&mut b, "simd_reduce_add", vec![x], &int_layout(32, true), None);
    assert_eq!(out, vec!["memset(d, 0, 4);"]);
}

#[test]
fn vectors_are_shuffled_by_constant_indices() {
    let mut b = start();
    let x = vector_value(&mut b, "x", 2);
    let y = vector_value(&mut b, "y", 2);
    let i0 = b.cx.const_u32(3);
    let i1 = b.cx.const_u32(0);
    let idx = b.cx.const_vector(&vec![i0, i1]);
    let out = emitted(&mut b, "simd_shuffle", vec![x, y, idx], &vector_layout(32, 2), None);
    let a = out[0].strip_prefix("memcpy(&").unwrap().split("[0]").next().unwrap().to_string();
    assert_eq!(out[0], format!("memcpy(&{}[0], &x.v[0], 2 * sizeof(int32_t));", a));
    assert_eq!(out[1], format!("memcpy(&{}[2], &y.v[0], 2 * sizeof(int32_t));", a));
    assert!(out[2].ends_with(&format!(".v[0] = {}[3];", a)));
    assert!(out[3].ends_with(&format!(".v[1] = {}[0];", a)));
    assert!(locals(&b).contains(&format!("int32_t {}[4];", a)));
}

#[test]
fn black_boxes_are_fences() {
    let mut b = start();
    let d = ptr_value(&mut b, "d");
    b.black_box_fence(d, true);
    assert_eq!(last(&b), "atomic_signal_fence(memory_order_acq_rel);");
}
