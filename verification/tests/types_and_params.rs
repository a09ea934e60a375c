#![allow(dead_code)]
use codegen_c::builder::Builder;
use codegen_c::context::{CodegenCx, Linkage};
use codegen_c::declare::FnRef;
use codegen_c::layout::{ArgAbi, BackendRepr, CastTarget, FnAbi, Layout, PassMode, Primitive, Scalar, TyTag};
use codegen_c::params::{ArgStep, Operand, RepeatPlan, align_up, repeat_plan};
use codegen_c::render::render_stmt;
use codegen_c::type_of::{cast_target_to_c_type, fn_abi_arg_type, fn_abi_param_types, fn_abi_ret_type, fn_abi_to_c_type, layout_to_c_type, round_bits, scalar_to_c_type};
use codegen_c::types::{CTypeKind, TypeRef};
use codegen_c::values::ValueRef;

fn int_scalar(bits: u64, signed: bool) -> Scalar {
    let bytes = (bits / 8) as u64;
    Scalar { primitive: Primitive::Int { bits, signed }, is_bool: false, size: bytes, align: bytes }
}

fn scalar_layout(s: Scalar) -> Layout {
    Layout {
        repr: BackendRepr::Scalar(s),
        ty: TyTag::Other,
        is_zst: false,
        size: s.size,
        align: s.align,
        single_variant: true,
        fields: vec![],
    }
}

fn int_layout(bits: u64, signed: bool) -> Layout {
    scalar_layout(int_scalar(bits, signed))
}

fn direct(layout: Layout) -> ArgAbi {
    ArgAbi { layout, mode: PassMode::Direct }
}

/// A builder in the first block of `int32_t f(int32_t, int32_t)`, with pointers of
/// 64 bits.
fn start() -> Builder {
    let mut cx = CodegenCx::new("unit", 8);
    let f = FnRef {
        id: 1,
        sym: "f".to_string(),
        abi: FnAbi {
            args: vec![direct(int_layout(32, true)), direct(int_layout(32, true))],
            ret: direct(int_layout(32, true)),
            c_variadic: false,
        },
    };
    cx.predefine_fn(&f, Linkage::External);
    let v = cx.get_fn(&f);
    let bb = Builder::append_block(&mut cx, v, "start");
    Builder::build(cx, bb)
}

/// The statements of the current block.
fn lines(b: &Builder) -> Vec<String> {
    b.cx.module.blocks[b.current_bb.0 as usize].stmts.iter().map(|s| render_stmt(s)).collect()
}

/// The last statement of the current block.
fn last(b: &Builder) -> String {
    lines(b).pop().unwrap()
}

/// The locals of the current function.
fn locals(b: &Builder) -> Vec<String> {
    b.cx.get_open(&b.current_fn).unwrap().locals.clone()
}

/// An expression of an integer type.
fn int_value(b: &mut Builder, text: &str, bits: u64, signed: bool) -> ValueRef {
    let t = b.intern_type(CTypeKind::Int { bits, signed });
    b.inline_expr(text.to_string(), t)
}

/// An expression of a pointer type.
fn ptr_value(b: &mut Builder, text: &str) -> ValueRef {
    let t = b.intern_type(CTypeKind::Ptr);
    b.inline_expr(text.to_string(), t)
}

fn cx() -> CodegenCx {
    CodegenCx::new("unit", 8)
}

fn text(c: &CodegenCx, t: TypeRef) -> String {
    c.render_type(t)
}

fn block(size: u64) -> Layout {
    Layout { repr: BackendRepr::Memory, size, is_zst: size == 0, ..int_layout(64, true) }
}

fn pair(a: Scalar, b: Scalar) -> Layout {
    Layout { repr: BackendRepr::ScalarPair(a, b), size: 16, ..int_layout(64, true) }
}

fn cast(prefix: Vec<u64>, rest_unit: u64, rest_total: u64, size: u64) -> CastTarget {
    CastTarget { prefix, rest_unit, rest_total, size, align: 8, unaligned_size: size - 2 }
}

#[test]
fn types_are_interned_once() {
    let mut c = cx();
    let a = c.type_int(32);
    let b = c.intern_type(CTypeKind::Int { bits: 32, signed: true });
    assert_eq!(a, b);
    let s = c.intern_type(CTypeKind::Struct { fields: vec![a], packed: false, name: None });
    let n = c.types.kinds.len();
    assert_eq!(c.intern_type(CTypeKind::Struct { fields: vec![a], packed: false, name: None }), s);
    assert_eq!(c.types.kinds.len(), n);
    assert_ne!(c.intern_type(CTypeKind::Struct { fields: vec![a], packed: true, name: None }), s);
    assert_eq!(c.render_type(TypeRef(0)), "void");
}

#[test]
fn texts_stay_as_things_are_added() {
    let mut b = start();
    let i = b.intern_type(CTypeKind::Int { bits: 32, signed: true });
    let s = b.intern_type(CTypeKind::Struct { fields: vec![i], packed: false, name: None });
    let x = b.new_temp(s);
    let (type_text, value_text) = (b.render_type(s), b.render(x));
    let y = b.new_temp(s);
    b.intern_type(CTypeKind::Array { element: s, len: 5 });
    b.alloca(8, 8);
    assert_eq!(b.render_type(s), type_text);
    assert_eq!(b.render(x), value_text);
    assert_ne!(b.render(y), value_text);
}

#[test]
fn declarations_put_the_name_in_its_place() {
    let mut c = cx();
    let i = c.type_int(32);
    assert_eq!(c.render_type_decl(i, "x"), "int32_t x");
    let a = c.intern_type(CTypeKind::Array { element: i, len: 3 });
    assert_eq!(c.render_type_decl(a, "x"), "int32_t x[3]");
    let aa = c.intern_type(CTypeKind::Array { element: a, len: 2 });
    assert_eq!(c.render_type_decl(aa, "x"), "int32_t x[2][3]");
    let p = c.type_ptr();
    let f = c.intern_type(CTypeKind::Function { ret: i, args: vec![p, i], variadic: true });
    assert_eq!(c.render_type_decl(f, "x"), "int32_t (*x)(void *, int32_t, ...)");
    assert_eq!(text(&c, f), "int32_t (*)(void *, int32_t, ...)");
    let n = c.intern_type(CTypeKind::Struct {
        fields: vec![],
        packed: false,
        name: Some("named".to_string()),
    });
    assert_eq!(text(&c, n), "struct named");
    let h = c.intern_type(CTypeKind::Float { bits: 16 });
    assert_eq!(text(&c, h), "_Float16");
    let q = c.intern_type(CTypeKind::Float { bits: 128 });
    assert_eq!(text(&c, q), "__float128");
}

#[test]
fn alignment_is_that_of_the_largest_field() {
    let mut c = cx();
    let b = c.type_bool();
    let i = c.type_int(64);
    let p = c.type_ptr();
    let s = c.intern_type(CTypeKind::Struct { fields: vec![b, i], packed: false, name: None });
    assert_eq!(c.natural_align_bytes(b), 1);
    assert_eq!(c.natural_align_bytes(s), 8);
    let packed = c.intern_type(CTypeKind::Struct { fields: vec![b, i], packed: true, name: None });
    assert_eq!(c.natural_align_bytes(packed), 1);
    let a = c.intern_type(CTypeKind::Array { element: s, len: 9 });
    assert_eq!(c.natural_align_bytes(a), 8);
    let mut small = CodegenCx::new("unit", 4);
    let q = small.type_ptr();
    assert_eq!(small.natural_align_bytes(q), 4);
    assert_eq!(c.natural_align_bytes(p), 8);
}

#[test]
fn scalars_have_standard_widths() {
    let mut c = cx();
    let t = scalar_to_c_type(&mut c, Scalar { is_bool: true, ..int_scalar(8, false) });
    assert_eq!(text(&c, t), "_Bool");
    let odd = Scalar {
        primitive: Primitive::Int { bits: 24, signed: false },
        is_bool: false,
        size: 3,
        align: 1,
    };
    let t = scalar_to_c_type(&mut c, odd);
    assert_eq!(text(&c, t), "uint32_t");
    let f = Scalar { primitive: Primitive::Float { bits: 64 }, is_bool: false, size: 8, align: 8 };
    let t = scalar_to_c_type(&mut c, f);
    assert_eq!(text(&c, t), "double");
    assert_eq!(round_bits(0), 8);
    assert_eq!(round_bits(9), 16);
    assert_eq!(round_bits(33), 64);
    assert_eq!(round_bits(65), 128);
}

#[test]
fn layouts_become_types() {
    let mut c = cx();
    let t = layout_to_c_type(&mut c, &Layout { ty: TyTag::Usize, ..int_layout(64, false) });
    assert_eq!(text(&c, t), "__rustc_usize");
    let t = layout_to_c_type(&mut c, &Layout { ty: TyTag::Isize, ..int_layout(64, true) });
    assert_eq!(text(&c, t), "__rustc_isize");
    let t = layout_to_c_type(&mut c, &int_layout(64, false));
    assert_eq!(text(&c, t), "uint64_t");
    let t = layout_to_c_type(&mut c, &block(0));
    assert!(matches!(c.get_kind(t), CTypeKind::Struct { fields, .. } if fields.is_empty()));
    let t = layout_to_c_type(&mut c, &block(40));
    let bytes = match c.get_kind(t) {
        CTypeKind::Struct { fields, packed: false, name: None } => fields[0],
        _ => panic!("not a structure"),
    };
    assert_eq!(text(&c, bytes), "int8_t[40]");
    let ptr = Scalar { primitive: Primitive::Pointer, is_bool: false, size: 8, align: 8 };
    let slice = Layout {
        fields: vec![TyTag::Other, TyTag::Usize],
        ..pair(ptr, int_scalar(64, false))
    };
    let t = layout_to_c_type(&mut c, &slice);
    let second = match c.get_kind(t) {
        CTypeKind::Struct { fields, .. } => fields[1],
        _ => panic!("not a structure"),
    };
    assert_eq!(text(&c, second), "__rustc_usize");
    let t = layout_to_c_type(&mut c, &Layout { single_variant: false, ..slice });
    let second = match c.get_kind(t) {
        CTypeKind::Struct { fields, .. } => fields[1],
        _ => panic!("not a structure"),
    };
    assert_eq!(text(&c, second), "uint64_t");
}

#[test]
fn cast_targets_are_integers_or_structures() {
    let mut c = cx();
    let t = cast_target_to_c_type(&mut c, &cast(vec![], 8, 16, 16));
    assert_eq!(text(&c, t), "int128_t");
    let t = cast_target_to_c_type(&mut c, &cast(vec![], 4, 4, 4));
    assert_eq!(text(&c, t), "int32_t");
    let t = cast_target_to_c_type(&mut c, &cast(vec![], 8, 24, 24));
    assert_eq!(text(&c, t), "_BitInt(192)");
    let t = cast_target_to_c_type(&mut c, &cast(vec![], 8, 32, 32));
    assert_eq!(text(&c, t), "_BitInt(256)");
    let t = cast_target_to_c_type(&mut c, &cast(vec![], 8, 1 << 30, 1 << 30));
    assert!(matches!(c.get_kind(t), CTypeKind::Int { bits: 0x2_0000_0000, signed: true }));
    let none = CastTarget { unaligned_size: 0, ..cast(vec![], 8, 0, 8) };
    let t = cast_target_to_c_type(&mut c, &CastTarget { size: 0, ..none });
    assert_eq!(text(&c, t), "void");
    let t = cast_target_to_c_type(&mut c, &cast(vec![8], 4, 6, 16));
    let fields = match c.get_kind(t) {
        CTypeKind::Struct { fields, .. } => fields.clone(),
        _ => panic!("not a structure"),
    };
    let names: Vec<String> = fields.iter().map(|f| text(&c, *f)).collect();
    assert_eq!(names, vec!["int64_t", "int32_t", "int32_t"]);
}

#[test]
fn signatures_follow_the_calling_convention() {
    let mut c = cx();
    let abi = FnAbi {
        args: vec![
            ArgAbi { layout: block(0), mode: PassMode::Ignore },
            ArgAbi {
                layout: pair(int_scalar(64, true), int_scalar(32, false)),
                mode: PassMode::Pair,
            },
            ArgAbi {
                layout: block(64),
                mode: PassMode::Indirect { on_stack: false, has_meta: true, pointee_align: None },
            },
            ArgAbi {
                layout: block(64),
                mode: PassMode::Indirect { on_stack: false, has_meta: false, pointee_align: None },
            },
            ArgAbi { layout: block(12), mode: PassMode::Cast(cast(vec![], 8, 16, 16)) },
        ],
        ret: ArgAbi { layout: int_layout(16, true), mode: PassMode::Direct },
        c_variadic: false,
    };
    let t = fn_abi_to_c_type(&mut c, &abi);
    assert_eq!(
        text(&c, t),
        "int16_t (*)(int64_t, uint32_t, void *, void *, void *, int128_t)"
    );
    let t = fn_abi_ret_type(&mut c, &abi);
    assert_eq!(text(&c, t), "int16_t");
    let t = fn_abi_arg_type(&mut c, &abi.args[0]);
    assert_eq!(text(&c, t), "void");
    let t = fn_abi_arg_type(&mut c, &abi.args[3]);
    assert_eq!(text(&c, t), "void *");
    assert_eq!(fn_abi_param_types(&mut c, &abi.args[0]).len(), 0);
    assert_eq!(fn_abi_param_types(&mut c, &abi.args[2]).len(), 2);
}

#[test]
fn sizes_are_rounded_up() {
    assert_eq!(align_up(0, 8), 0);
    assert_eq!(align_up(1, 8), 8);
    assert_eq!(align_up(8, 8), 8);
    assert_eq!(align_up(9, 4), 12);
}

#[test]
fn pairs_are_stored_in_two_parts() {
    let mut b = start();
    let d = ptr_value(&mut b, "d");
    let layout = pair(int_scalar(8, false), int_scalar(32, true));
    let arg = ArgAbi { layout: pair(int_scalar(8, false), int_scalar(32, true)), mode: PassMode::Pair };
    let (next, step) = b.store_fn_arg(&arg, 0, d, &layout);
    assert_eq!(next, 2);
    assert_eq!(step, ArgStep::Done);
    let all = lines(&b);
    assert_eq!(all[0], "*(int32_t *)d = _arg0;");
    let p = all[1].split(" = ").next().unwrap().to_string();
    assert_eq!(all[2], format!("*(int32_t *){} = _arg1;", p));
    assert!(all[1].contains("4ULL"));
}

#[test]
fn arguments_are_stored_by_their_mode() {
    let mut b = start();
    let d = ptr_value(&mut b, "d");
    let plain = direct(int_layout(32, true));
    assert_eq!(b.store_fn_arg(&plain, 1, d, &int_layout(32, true)), (2, ArgStep::Done));
    assert_eq!(last(&b), "*(int32_t *)d = _arg1;");
    let none = ArgAbi { layout: block(0), mode: PassMode::Ignore };
    assert_eq!(b.store_fn_arg(&none, 1, d, &block(0)), (1, ArgStep::Done));
    let mem = ArgAbi {
        layout: block(24),
        mode: PassMode::Indirect { on_stack: false, has_meta: false, pointee_align: Some(4) },
    };
    assert_eq!(b.store_fn_arg(&mem, 0, d, &block(24)), (1, ArgStep::Done));
    assert_eq!(last(&b), "memcpy(d, _arg0, 24ULL);");
    let x = ptr_value(&mut b, "x");
    assert_eq!(b.store_arg(&mem, x, d), ArgStep::Copy { val: x, align: 4 });
    let regs = ArgAbi { layout: block(12), mode: PassMode::Cast(cast(vec![], 8, 16, 16)) };
    let (next, step) = b.store_fn_arg(&regs, 0, d, &block(12));
    assert_eq!(next, 1);
    match step {
        ArgStep::Cast { val, scratch, copy_bytes } => {
            assert_eq!(b.render(val), "_arg0");
            assert_eq!(copy_bytes, 12);
            b.copy_bytes(d, scratch, copy_bytes);
            assert_eq!(last(&b), format!("memcpy(d, {}, 12ULL);", b.render(scratch)));
        }
        _ => panic!("not cast"),
    }
}

#[test]
fn operands_are_loaded_by_their_layout() {
    let mut b = start();
    let p = ptr_value(&mut b, "p");
    assert_eq!(b.load_operand(&block(0), p), Operand::ZeroSized);
    assert_eq!(b.load_operand(&block(40), p), Operand::Ref);
    match b.load_operand(&int_layout(32, true), p) {
        Operand::Immediate(v) => {
            assert_eq!(last(&b), format!("{} = *(int32_t *)p;", b.render(v)));
        }
        _ => panic!("not immediate"),
    }
    match b.load_operand(&pair(int_scalar(64, true), int_scalar(64, true)), p) {
        Operand::Pair(x, y) => {
            let all = lines(&b);
            assert_eq!(all[all.len() - 3], format!("{} = *(int64_t *)p;", b.render(x)));
            let q = all[all.len() - 2].split(" = ").next().unwrap().to_string();
            assert_eq!(all[all.len() - 1], format!("{} = *(int64_t *){};", b.render(y), q));
        }
        _ => panic!("not a pair"),
    }
}

#[test]
fn long_repetitions_are_loops() {
    assert_eq!(repeat_plan(16, 1), RepeatPlan::StoreEach);
    assert_eq!(repeat_plan(17, 1), RepeatPlan::Memset);
    assert_eq!(repeat_plan(17, 4), RepeatPlan::StoreAndCopy);
    assert_eq!(repeat_plan(17, 0), RepeatPlan::StoreEach);
    let mut b = start();
    let d = ptr_value(&mut b, "d");
    let v = int_value(&mut b, "v", 8, true);
    b.repeat_memset(d, v, 100);
    assert_eq!(last(&b), "memset(d, (int)v, 100ULL);");
    b.repeat_copy(d, 100, 8);
    assert_eq!(
        last(&b),
        "for (uint64_t _rep = 1; _rep < 100ULL; _rep++) { memcpy((void *)((__rustc_usize)d + _rep * 8ULL), (void *)d, 8ULL); }"
    );
    assert_eq!(b.repeat_dest(d, 8, 0), d);
    assert_ne!(b.repeat_dest(d, 8, 2), d);
}
