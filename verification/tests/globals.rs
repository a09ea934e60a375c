#![allow(dead_code)]
use codegen_c::builder::Builder;
use codegen_c::consts::{sign_extend_to_i128, widen_float};
use codegen_c::context::{CodegenCx, Linkage};
use codegen_c::declare::FnRef;
use codegen_c::layout::{ArgAbi, BackendRepr, FnAbi, Layout, PassMode, Primitive, Scalar, TyTag};
use codegen_c::memory::{Alloc, ConstScalar, GlobalRef, Reloc, StaticDef};
use codegen_c::render::render_stmt;
use codegen_c::statics::{InitShape, Piece, StaticRef, cut_pieces};
use codegen_c::types::CTypeKind;
use codegen_c::values::ValueRef;

fn int_scalar(bits: u64, signed: bool) -> Scalar {
    let bytes = (bits / 8) as u64;
    Scalar { primitive: Primitive::Int { bits, signed }, is_bool: false, size: bytes, align: bytes }
}

fn scalar_layout(s: Scalar) -> Layout {
    Layout {
        repr: BackendRepr::Scalar(s),
        ty: TyTag::Other,
        is_zst: false,
        size: s.size,
        align: s.align,
        single_variant: true,
        fields: vec![],
    }
}

fn int_layout(bits: u64, signed: bool) -> Layout {
    scalar_layout(int_scalar(bits, signed))
}

fn direct(layout: Layout) -> ArgAbi {
    ArgAbi { layout, mode: PassMode::Direct }
}

/// A builder in the first block of `int32_t f(int32_t, int32_t)`, with pointers of
/// 64 bits.
fn start() -> Builder {
    let mut cx = CodegenCx::new("unit", 8);
    let f = FnRef {
        id: 1,
        sym: "f".to_string(),
        abi: FnAbi {
            args: vec![direct(int_layout(32, true)), direct(int_layout(32, true))],
            ret: direct(int_layout(32, true)),
            c_variadic: false,
        },
    };
    cx.predefine_fn(&f, Linkage::External);
    let v = cx.get_fn(&f);
    let bb = Builder::append_block(&mut cx, v, "start");
    Builder::build(cx, bb)
}

/// The statements of the current block.
fn lines(b: &Builder) -> Vec<String> {
    b.cx.module.blocks[b.current_bb.0 as usize].stmts.iter().map(|s| render_stmt(s)).collect()
}

/// The last statement of the current block.
fn last(b: &Builder) -> String {
    lines(b).pop().unwrap()
}

/// The locals of the current function.
fn locals(b: &Builder) -> Vec<String> {
    b.cx.get_open(&b.current_fn).unwrap().locals.clone()
}

/// An expression of an integer type.
fn int_value(b: &mut Builder, text: &str, bits: u64, signed: bool) -> ValueRef {
    let t = b.intern_type(CTypeKind::Int { bits, signed });
    b.inline_expr(text.to_string(), t)
}

/// An expression of a pointer type.
fn ptr_value(b: &mut Builder, text: &str) -> ValueRef {
    let t = b.intern_type(CTypeKind::Ptr);
    b.inline_expr(text.to_string(), t)
}

fn cx() -> CodegenCx {
    CodegenCx::new("unit", 8)
}

fn static_ref(id: u64, sym: &str) -> StaticRef {
    StaticRef {
        id,
        sym: sym.to_string(),
        import_linkage: None,
        thread_local: false,
        foreign: false,
        shape: None,
    }
}

fn fn_ref(id: u64, sym: &str) -> FnRef {
    FnRef {
        id,
        sym: sym.to_string(),
        abi: FnAbi {
            args: vec![direct(int_layout(32, true))],
            ret: ArgAbi { layout: int_layout(32, true), mode: PassMode::Ignore },
            c_variadic: false,
        },
    }
}

fn bytes(data: Vec<u8>, align: u64) -> Alloc {
    Alloc { bytes: data, align, relocs: vec![] }
}

fn static_def(id: u64, sym: &str, init: Option<Alloc>) -> StaticDef {
    StaticDef {
        id,
        sym: sym.to_string(),
        thread_local: false,
        init,
        layout: int_layout(32, true),
        link_section: None,
        alignment: None,
        used: false,
    }
}

#[test]
fn functions_are_declared_with_their_parameters() {
    let mut c = cx();
    let f = fn_ref(1, "_ZN3foo$bar");
    let v = c.get_fn(&f);
    assert_eq!(c.render_value(v), "_ZN3foo_bar");
    assert_eq!(
        c.module.function_decls,
        vec!["void _ZN3foo_bar(int32_t) __asm__(\"_ZN3foo$bar\");"]
    );
    assert_eq!(c.get_fn(&f), v);
    assert_eq!(c.get_fn_addr(&f), v);
    assert_eq!(c.module.function_decls.len(), 1);
    let again = fn_ref(2, "_ZN3foo$bar");
    assert_ne!(c.get_fn(&again), v);
    assert_eq!(c.module.function_decls.len(), 1);
}

#[test]
fn variadic_functions_end_in_dots() {
    let mut c = cx();
    let mut f = fn_ref(1, "printf");
    f.abi.c_variadic = true;
    c.get_fn(&f);
    let mut g = fn_ref(2, "any");
    g.abi.args = vec![];
    g.abi.c_variadic = true;
    c.get_fn(&g);
    let mut h = fn_ref(3, "none");
    h.abi.args = vec![];
    c.get_fn(&h);
    assert_eq!(
        c.module.function_decls,
        vec!["void printf(int32_t, ...);", "void any(...);", "void none(void);"]
    );
}

#[test]
fn internal_functions_are_static() {
    let mut c = cx();
    c.predefine_fn(&fn_ref(1, "a"), Linkage::Internal);
    c.predefine_fn(&fn_ref(2, "b"), Linkage::AvailableExternally);
    c.predefine_fn(&fn_ref(3, "c"), Linkage::WeakAny);
    assert_eq!(
        c.module.function_decls,
        vec!["static void a(int32_t);", "static void b(int32_t);", "void c(int32_t);"]
    );
    assert_eq!(c.get_open("a").unwrap().linkage_prefix, "static ");
    assert_eq!(c.get_open("c").unwrap().linkage_prefix, "");
    assert!(c.get_open("d").is_none());
}

#[test]
fn arguments_on_the_stack_are_marked() {
    let mut c = cx();
    let mut f = fn_ref(1, "f");
    let pair = Layout {
        repr: BackendRepr::ScalarPair(int_scalar(64, true), int_scalar(64, true)),
        ..int_layout(64, true)
    };
    let block = || Layout { repr: BackendRepr::Memory, size: 32, ..int_layout(64, true) };
    f.abi.args = vec![
        ArgAbi { layout: pair, mode: PassMode::Pair },
        ArgAbi { layout: block(), mode: PassMode::Ignore },
        ArgAbi {
            layout: block(),
            mode: PassMode::Indirect { on_stack: true, has_meta: false, pointee_align: None },
        },
        ArgAbi {
            layout: block(),
            mode: PassMode::Indirect { on_stack: false, has_meta: true, pointee_align: None },
        },
    ];
    c.predefine_fn(&f, Linkage::External);
    let open = c.get_open("f").unwrap();
    assert_eq!(open.on_stack_params, vec![2]);
    assert_eq!(open.params.len(), 5);
    assert_eq!(open.params[4].1, "_arg4");
}

#[test]
fn the_personality_is_one_value() {
    let mut c = cx();
    let v = c.eh_personality();
    assert_eq!(c.render_value(v), "__rust_eh_personality");
    assert_eq!(c.eh_personality(), v);
}

#[test]
fn names_become_identifiers() {
    assert_eq!(CodegenCx::sanitize_name("a.b$c-d_9\u{e9}"), "a_b_c_d_9_");
    assert_eq!(CodegenCx::sanitize_name("a_b_9"), "a_b_9");
    assert_eq!(CodegenCx::asm_label("a", "a"), "");
    assert_eq!(CodegenCx::asm_label("a.b", "a_b"), " __asm__(\"a.b\")");
    assert!(CodegenCx::is_extern_weak(Some(Linkage::ExternalWeak)));
    assert!(!CodegenCx::is_extern_weak(Some(Linkage::WeakAny)));
    assert!(!CodegenCx::is_extern_weak(None));
}

#[test]
fn statics_are_declared_once_as_bytes() {
    let mut c = cx();
    let s = static_ref(1, "S.x");
    let v = c.get_static(&s);
    assert_eq!(c.render_value(v), "&S_x");
    assert_eq!(c.module.global_decls, vec!["extern uint8_t S_x[] __asm__(\"S.x\");"]);
    assert_eq!(c.get_static(&s), v);
    c.emit_extern_static_decl("S_x", "S.x", &s);
    assert_eq!(c.module.global_decls.len(), 1);
    let t = StaticRef { thread_local: true, ..static_ref(2, "T") };
    c.get_static(&t);
    assert_eq!(c.module.global_decls[1], "extern _Thread_local uint8_t T[];");
}

#[test]
fn weak_statics_are_weak_functions() {
    let mut c = cx();
    let s = StaticRef { import_linkage: Some(Linkage::ExternalWeak), ..static_ref(1, "w") };
    let v = c.get_static(&s);
    assert_eq!(c.render_value(v), "(void *)&(void *){w}");
    assert_eq!(c.module.global_decls, vec!["#pragma weak w\nvoid w(void);"]);
}

#[test]
fn predefined_statics_with_pointers_have_a_structure() {
    let mut c = cx();
    c.predefine_static(1, "p.q");
    let s = StaticRef {
        shape: Some(InitShape { len: 20, relocs: vec![4] }),
        ..static_ref(2, "p.q")
    };
    c.emit_extern_static_decl("p_q", "p.q", &s);
    assert_eq!(
        c.module.struct_defs,
        vec!["#pragma pack(push, 1)\nstruct _gs_p_q { unsigned char f0[4]; void *f1; unsigned char f2[8]; };\n#pragma pack(pop)"]
    );
    assert_eq!(
        c.module.global_decls,
        vec!["extern struct _gs_p_q p_q __asm__(\"p.q\");"]
    );
    let found = StaticRef { id: 1, ..s };
    let v = c.get_static(&found);
    assert_eq!(c.render_value(v), "&p_q");
    assert_eq!(c.module.global_decls.len(), 1);
}

#[test]
fn foreign_statics_are_bytes() {
    let mut c = cx();
    c.predefine_static(1, "e");
    let s = StaticRef {
        foreign: true,
        shape: Some(InitShape { len: 8, relocs: vec![0] }),
        ..static_ref(2, "e")
    };
    c.emit_extern_static_decl("e", "e", &s);
    assert_eq!(c.module.global_decls, vec!["extern uint8_t e[];"]);
    assert!(c.module.struct_defs.is_empty());
}

#[test]
fn memory_is_cut_at_its_pointers() {
    assert_eq!(cut_pieces(3, &vec![], 8), vec![Piece::Bytes { from: 0, to: 3 }]);
    assert_eq!(cut_pieces(8, &vec![0], 8), vec![Piece::Ptr { index: 0 }]);
    assert_eq!(
        cut_pieces(26, &vec![0, 16], 8),
        vec![
            Piece::Ptr { index: 0 },
            Piece::Bytes { from: 8, to: 16 },
            Piece::Ptr { index: 1 },
            Piece::Bytes { from: 24, to: 26 },
        ]
    );
    assert_eq!(cut_pieces(0, &vec![], 8), vec![]);
}

#[test]
fn statics_are_defined_by_their_bytes() {
    let mut c = cx();
    c.codegen_static(&static_def(1, "a", Some(bytes(vec![1, 0xff], 2))));
    c.codegen_static(&static_def(2, "z", Some(bytes(vec![], 1))));
    let d = StaticDef {
        link_section: Some(".init".to_string()),
        alignment: Some(32),
        used: true,
        thread_local: true,
        ..static_def(3, "t.u", Some(bytes(vec![7], 16)))
    };
    c.codegen_static(&d);
    c.codegen_static(&static_def(4, "n", None));
    assert_eq!(
        c.module.global_decls,
        vec![
            "_Alignas(8) uint8_t a[2] = { 0x01, 0xff };",
            "uint8_t z[0];",
            "__attribute__((used)) _Alignas(32) __attribute__((section(\".init\"))) _Alignas(16) _Thread_local uint8_t t_u[1] __asm__(\"t.u\") = { 0x07 };",
            "int32_t n;",
        ]
    );
    let v = c.get_static(&static_ref(1, "a"));
    assert_eq!(c.render_value(v), "&a");
    assert_eq!(c.module.global_decls.len(), 4);
}

#[test]
fn statics_with_pointers_are_structures() {
    let mut c = cx();
    let inner = bytes(vec![5], 1);
    let a = Alloc {
        bytes: vec![9, 9, 9, 9, 9, 9, 9, 9, 3, 0, 0, 0, 0, 0, 0, 0, 0, 0, 0, 0, 0, 0, 0, 0],
        align: 8,
        relocs: vec![
            Reloc { offset: 8, target: GlobalRef::Memory(inner) },
            Reloc { offset: 16, target: GlobalRef::Function(fn_ref(7, "g")) },
        ],
    };
    c.codegen_static(&static_def(1, "s", Some(a)));
    assert_eq!(c.module.data_sections, vec!["static const unsigned char _bytes0[] = { 0x05 };"]);
    assert_eq!(
        c.module.struct_defs,
        vec!["#pragma pack(push, 1)\nstruct _gs_s { unsigned char f0[8]; void *f1; void *f2; };\n#pragma pack(pop)"]
    );
    assert_eq!(
        c.module.global_decls,
        vec![
            "extern struct _gs_s s;",
            "_Alignas(8) struct _gs_s s = { .f0 = { 0x09, 0x09, 0x09, 0x09, 0x09, 0x09, 0x09, 0x09 }, .f1 = (void *)((char *)_bytes0 + 3), .f2 = (void *)(void (*)(void))g };",
        ]
    );
    assert_eq!(c.module.function_decls, vec!["void g(int32_t);"]);
}

#[test]
fn statics_with_pointers_keep_their_alignment() {
    let mut c = cx();
    let a = Alloc {
        bytes: vec![0; 64],
        align: 64,
        relocs: vec![Reloc { offset: 0, target: GlobalRef::Memory(bytes(vec![1], 1)) }],
    };
    let d = StaticDef { thread_local: true, ..static_def(1, "wide", Some(a)) };
    c.codegen_static(&d);
    assert!(c.module.global_decls[1].starts_with("_Alignas(64) _Thread_local struct _gs_wide wide = { "));
    let b = Alloc {
        bytes: vec![0; 8],
        align: 1,
        relocs: vec![Reloc { offset: 0, target: GlobalRef::Memory(bytes(vec![1], 1)) }],
    };
    c.codegen_static(&static_def(2, "narrow", Some(b)));
    assert!(c.module.global_decls[3].starts_with("_Alignas(8) struct _gs_narrow narrow = { "));
}

#[test]
fn what_is_named_is_declared_before() {
    let mut c = cx();
    let inner = Alloc {
        bytes: vec![0; 8],
        align: 8,
        relocs: vec![Reloc { offset: 0, target: GlobalRef::Static(static_ref(9, "other")) }],
    };
    let outer = Alloc {
        bytes: vec![0; 16],
        align: 8,
        relocs: vec![
            Reloc { offset: 0, target: GlobalRef::Memory(inner) },
            Reloc { offset: 8, target: GlobalRef::Function(fn_ref(7, "g")) },
        ],
    };
    c.codegen_static(&static_def(1, "s", Some(outer)));
    c.codegen_static(&static_def(2, "t", Some(bytes(vec![3], 1))));
    assert_eq!(c.module.defined, vec![false, false, true, true]);
    assert_eq!(
        c.to_c_source(),
        "\
#pragma pack(push, 1)
struct _gs_s { void *f0; void *f1; };
#pragma pack(pop)
void g(int32_t);
extern uint8_t other[];
extern struct _gs_s s;
#pragma pack(push, 1)
static const struct {   void *f0; } _bytes0 = {   .f0 = (void *)&other };
#pragma pack(pop)
_Alignas(8) struct _gs_s s = { .f0 = (void *)&_bytes0, .f1 = (void *)(void (*)(void))g };
_Alignas(8) uint8_t t[1] = { 0x03 };
"
    );
}

#[test]
fn constant_memory_is_data() {
    let mut c = cx();
    let v = c.const_data_from_alloc(&bytes(vec![1, 2], 4));
    assert_eq!(c.render_value(v), "_bytes0");
    let a = Alloc {
        bytes: vec![0, 0, 0, 0, 0, 0, 0, 0, 0xaa],
        align: 8,
        relocs: vec![Reloc { offset: 0, target: GlobalRef::Static(static_ref(3, "st")) }],
    };
    let w = c.const_data_from_alloc(&a);
    assert_eq!(c.render_value(w), "&_bytes1");
    let b = Alloc {
        bytes: vec![42, 0, 0, 0, 0, 0, 0, 0],
        align: 8,
        relocs: vec![Reloc { offset: 0, target: GlobalRef::TypeId }],
    };
    c.const_data_from_alloc(&b);
    assert_eq!(
        c.module.data_sections,
        vec![
            "_Alignas(4) static const unsigned char _bytes0[] = { 0x01, 0x02 };",
            "#pragma pack(push, 1)\nstatic const struct {   void *f0;   unsigned char f1[1]; } _bytes1 = {   .f0 = (void *)&st,   .f1 = { 0xaa } };\n#pragma pack(pop)",
            "#pragma pack(push, 1)\nstatic const struct {   void *f0; } _bytes2 = {   .f0 = (void *)(__rustc_usize)42ULL };\n#pragma pack(pop)",
        ]
    );
    assert_eq!(c.module.global_decls, vec!["extern uint8_t st[];"]);
}

#[test]
fn scalars_become_constants() {
    let mut c = cx();
    let i32_ty = c.type_int(32);
    let v = c.scalar_to_backend(&ConstScalar::Int(0xffff_ffbf), int_scalar(32, true), i32_ty);
    assert_eq!(c.render_value(v), "-65LL");
    let v = c.scalar_to_backend(&ConstScalar::Int(0xffff_ffbf), int_scalar(32, false), i32_ty);
    assert_eq!(c.render_value(v), "4294967231ULL");
    let ptr = c.type_ptr();
    let p = Scalar { primitive: Primitive::Pointer, is_bool: false, size: 8, align: 8 };
    let v = c.scalar_to_backend(&ConstScalar::Int(16), p, ptr);
    assert_eq!(c.render_value(v), "(void *)(__rustc_usize)16ULL");
    let f = Scalar { primitive: Primitive::Float { bits: 32 }, is_bool: false, size: 4, align: 4 };
    let t = c.intern_type(CTypeKind::Float { bits: 32 });
    let v = c.scalar_to_backend(&ConstScalar::Int(0x3fc0_0000), f, t);
    assert_eq!(c.render_value(v), "0x1.8000000000000p0");
    let f = Scalar { primitive: Primitive::Float { bits: 64 }, is_bool: false, size: 8, align: 8 };
    let t = c.intern_type(CTypeKind::Float { bits: 64 });
    let v = c.scalar_to_backend(&ConstScalar::Int(0xbff0_0000_0000_0000), f, t);
    assert_eq!(c.render_value(v), "-0x1.0000000000000p0");
    let f = Scalar { primitive: Primitive::Float { bits: 16 }, is_bool: false, size: 2, align: 2 };
    let t = c.intern_type(CTypeKind::Float { bits: 16 });
    let v = c.scalar_to_backend(&ConstScalar::Int(7), f, t);
    assert_eq!(c.render_value(v), "7ULL");
}

#[test]
fn addresses_become_constants() {
    let mut c = cx();
    let ptr = c.type_ptr();
    let p = Scalar { primitive: Primitive::Pointer, is_bool: false, size: 8, align: 8 };
    let at = |target: GlobalRef, offset: u64| ConstScalar::Ptr { target, offset };
    let v = c.scalar_to_backend(&at(GlobalRef::Function(fn_ref(1, "f")), 4), p, ptr);
    assert_eq!(c.render_value(v), "f");
    let v = c.scalar_to_backend(&at(GlobalRef::Static(static_ref(2, "s")), 4), p, ptr);
    assert_eq!(c.render_value(v), "(void *)((char *)&s + 4)");
    let w = StaticRef { import_linkage: Some(Linkage::ExternalWeak), ..static_ref(3, "w") };
    let v = c.scalar_to_backend(&at(GlobalRef::Static(w), 0), p, ptr);
    assert_eq!(c.render_value(v), "&(void *){(void *)w}");
    let v = c.scalar_to_backend(&at(GlobalRef::Memory(bytes(vec![1], 1)), 0), p, ptr);
    assert_eq!(c.render_value(v), "_bytes0");
    let v = c.scalar_to_backend(&at(GlobalRef::TypeId, 99), p, ptr);
    assert_eq!(c.render_value(v), "(void *)(__rustc_usize)99ULL");
    let size = c.type_usize();
    let v = c.scalar_to_backend(&at(GlobalRef::Static(static_ref(2, "s")), 0), p, size);
    assert_eq!(c.render_value(v), "(__rustc_usize)&s");
}

#[test]
fn integer_constants_follow_the_type() {
    let mut c = cx();
    let i8_ty = c.type_int(8);
    let v = c.const_uint(i8_ty, 0xf0);
    assert_eq!(c.render_value(v), "-16LL");
    let size = c.type_usize();
    let v = c.const_uint(size, u64::MAX);
    assert_eq!(c.render_value(v), "18446744073709551615ULL");
    let ssize = c.intern_type(CTypeKind::PtrWidth { signed: true });
    let v = c.const_uint(ssize, u64::MAX);
    assert_eq!(c.render_value(v), "-1LL");
    let wide = c.intern_type(CTypeKind::Int { bits: 128, signed: false });
    let v = c.const_uint_big(wide, (3u128 << 64) | 5);
    assert_eq!(c.render_value(v), "((uint128_t)3ULL << 64 | 5ULL)");
    assert_eq!(c.const_to_opt_u128(v, false), Some((3u128 << 64) | 5));
    let v = c.const_int(i8_ty, -2);
    assert_eq!(c.const_to_opt_u128(v, false), Some(0xfe));
    assert_eq!(c.const_to_opt_u128(v, true), Some(u128::MAX - 1));
    let v = c.const_usize(12);
    assert_eq!(c.const_to_opt_uint(v), Some(12));
    let v = c.const_i32(-3);
    assert_eq!(c.render_value(v), "-3LL");
    let v = c.const_bool(true);
    assert_eq!(c.const_to_opt_uint(v), Some(1));
    let v = c.const_null(size);
    assert_eq!(c.const_to_opt_uint(v), None);
    assert_eq!(c.render_value(v), "NULL");
}

#[test]
fn sign_extension_reads_the_top_bit() {
    assert_eq!(sign_extend_to_i128(0x7f, 8), 127);
    assert_eq!(sign_extend_to_i128(0x80, 8), -128);
    assert_eq!(sign_extend_to_i128(0x1_80, 8), -128);
    assert_eq!(sign_extend_to_i128(u128::MAX, 128), -1);
    assert_eq!(sign_extend_to_i128(1u128 << 127, 128), i128::MIN);
    assert_eq!(sign_extend_to_i128(1, 1), -1);
}

#[test]
fn sign_extension_ignores_the_bits_above() {
    for (val, bits) in [(0xabcdu128, 8u32), (0xff7f, 8), (u128::MAX, 13), (1 << 64, 64), (3, 1), (5, 128)] {
        let mask = if bits == 128 { u128::MAX } else { (1u128 << bits) - 1 };
        let s = sign_extend_to_i128(val, bits);
        assert_eq!(sign_extend_to_i128(val & mask, bits), s);
        assert_eq!(sign_extend_to_i128(s as u128, bits), s);
        assert_eq!(s as u128 & mask, val & mask);
    }
    assert_eq!(sign_extend_to_i128(0xabcd, 8), -51);
}

#[test]
fn floats_are_widened_exactly() {
    for bits in [
        0u32,
        1,
        2,
        3,
        0x007f_ffff,
        0x0080_0000,
        0x3f80_0000,
        0x4049_0fdb,
        0x7f7f_ffff,
        0x7f80_0000,
        0x8000_0000,
        0x8000_0001,
        0xff80_0000,
        0xc2f6_e979,
    ] {
        assert_eq!(widen_float(bits), (f32::from_bits(bits) as f64).to_bits());
    }
    assert!(f64::from_bits(widen_float(0x7fc0_0000)).is_nan());
}

#[test]
fn strings_are_bytes_with_a_length() {
    let mut c = cx();
    let (p, n) = c.const_str("a\0\u{e9}");
    assert_eq!(c.render_value(p), "_str0");
    assert_eq!(c.render_value(n), "4ULL");
    assert_eq!(
        c.module.data_sections,
        vec!["static const unsigned char _str0[] = { 0x61, 0x00, 0xc3, 0xa9 };"]
    );
}

#[test]
fn aggregates_list_their_parts() {
    let mut c = cx();
    let a = c.const_i32(1);
    let b = c.const_u8(2);
    let s = c.const_struct(&vec![a, b], false);
    assert_eq!(c.render_value(s), "{ 1LL, 2ULL }");
    let v = c.const_vector(&vec![a, a]);
    let t = c.get_type(v);
    assert_eq!(c.render_value(v), format!("({}){{ 1LL, 1LL }}", c.render_type(t)));
    let e = c.const_vector(&vec![]);
    let t = c.get_type(e);
    assert!(matches!(c.get_kind(t), CTypeKind::Vector { len: 0, .. }));
    assert_eq!(c.const_ptr_byte_offset(a, 0), a);
    let o = c.const_ptr_byte_offset(a, 8);
    assert_eq!(c.render_value(o), "(void *)((char *)1LL + 8)");
    assert_eq!(c.static_addr_of(a), a);
}
