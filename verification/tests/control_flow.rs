#![allow(dead_code)]
use codegen_c::builder::Builder;
use codegen_c::context::{CodegenCx, Linkage};
use codegen_c::declare::FnRef;
use codegen_c::layout::{ArgAbi, BackendRepr, FnAbi, Layout, PassMode, Primitive, Scalar, TyTag};
use codegen_c::module::BasicBlockId;
use codegen_c::render::render_stmt;
use codegen_c::types::CTypeKind;
use codegen_c::values::ValueRef;

fn int_scalar(bits: u64, signed: bool) -> Scalar {
    let bytes = (bits / 8) as u64;
    Scalar { primitive: Primitive::Int { bits, signed }, is_bool: false, size: bytes, align: bytes }
}

fn scalar_layout(s: Scalar) -> Layout {
    Layout {
        repr: BackendRepr::Scalar(s),
        ty: TyTag::Other,
        is_zst: false,
        size: s.size,
        align: s.align,
        single_variant: true,
        fields: vec![],
    }
}

fn int_layout(bits: u64, signed: bool) -> Layout {
    scalar_layout(int_scalar(bits, signed))
}

fn direct(layout: Layout) -> ArgAbi {
    ArgAbi { layout, mode: PassMode::Direct }
}

/// A builder in the first block of `int32_t f(int32_t, int32_t)`, with pointers of
/// 64 bits.
fn start() -> Builder {
    let mut cx = CodegenCx::new("unit", 8);
    let f = FnRef {
        id: 1,
        sym: "f".to_string(),
        abi: FnAbi {
            args: vec![direct(int_layout(32, true)), direct(int_layout(32, true))],
            ret: direct(int_layout(32, true)),
            c_variadic: false,
        },
    };
    cx.predefine_fn(&f, Linkage::External);
    let v = cx.get_fn(&f);
    let bb = Builder::append_block(&mut cx, v, "start");
    Builder::build(cx, bb)
}

/// The statements of the current block.
fn lines(b: &Builder) -> Vec<String> {
    b.cx.module.blocks[b.current_bb.0 as usize].stmts.iter().map(|s| render_stmt(s)).collect()
}

/// The last statement of the current block.
fn last(b: &Builder) -> String {
    lines(b).pop().unwrap()
}

/// The locals of the current function.
fn locals(b: &Builder) -> Vec<String> {
    b.cx.get_open(&b.current_fn).unwrap().locals.clone()
}

/// An expression of an integer type.
fn int_value(b: &mut Builder, text: &str, bits: u64, signed: bool) -> ValueRef {
    let t = b.intern_type(CTypeKind::Int { bits, signed });
    b.inline_expr(text.to_string(), t)
}

/// An expression of a pointer type.
fn ptr_value(b: &mut Builder, text: &str) -> ValueRef {
    let t = b.intern_type(CTypeKind::Ptr);
    b.inline_expr(text.to_string(), t)
}

/// A function of no arguments that returns an `int32_t`, or nothing.
fn callee(id: u64, sym: &str, ret: PassMode) -> FnRef {
    FnRef {
        id,
        sym: sym.to_string(),
        abi: FnAbi {
            args: vec![],
            ret: ArgAbi { layout: int_layout(32, true), mode: ret },
            c_variadic: false,
        },
    }
}

fn memory_layout(size: u64) -> Layout {
    Layout {
        repr: BackendRepr::Memory,
        ty: TyTag::Other,
        is_zst: size == 0,
        size,
        align: 8,
        single_variant: true,
        fields: vec![],
    }
}

fn indirect() -> PassMode {
    PassMode::Indirect { on_stack: false, has_meta: false, pointee_align: None }
}

/// A builder in the first block of a function that returns 24 bytes indirectly.
fn start_indirect() -> Builder {
    let mut cx = CodegenCx::new("unit", 8);
    let f = FnRef {
        id: 1,
        sym: "g".to_string(),
        abi: FnAbi {
            args: vec![
                direct(int_layout(32, true)),
                ArgAbi {
                    layout: memory_layout(16),
                    mode: PassMode::Indirect { on_stack: true, has_meta: false, pointee_align: None },
                },
            ],
            ret: ArgAbi { layout: memory_layout(24), mode: indirect() },
            c_variadic: false,
        },
    };
    cx.predefine_fn(&f, Linkage::Internal);
    let v = cx.get_fn(&f);
    let bb = Builder::append_block(&mut cx, v, "");
    Builder::build(cx, bb)
}

fn terminated(b: &Builder) -> bool {
    b.cx.module.blocks[b.current_bb.0 as usize].terminated
}

#[test]
fn blocks_are_labelled_by_number_and_name() {
    let mut b = start();
    assert_eq!(b.block_label(b.llbb()), "bb_0_start");
    let c = b.append_sibling_block("loop.body");
    assert_eq!(b.block_label(c), "bb_1_loop_body");
    assert_eq!(b.block_label(BasicBlockId(77)), "bb77");
    let f = b.inline_expr("f".to_string(), codegen_c::types::TypeRef(0));
    let mut cx = b.into_cx();
    let d = Builder::append_block(&mut cx, f, "");
    let b = Builder::build(cx, d);
    assert_eq!(b.block_label(d), "bb2");
}

#[test]
fn blocks_need_an_open_function() {
    let mut cx = CodegenCx::new("unit", 8);
    let v = cx.get_fn(&callee(9, "other", PassMode::Ignore));
    assert_eq!(Builder::append_block(&mut cx, v, "x"), BasicBlockId(u32::MAX));
    let mut b = Builder::build(cx, BasicBlockId(u32::MAX));
    assert_eq!(b.current_fn, "");
    assert_eq!(b.append_sibling_block("x"), BasicBlockId(u32::MAX));
    b.unreachable();
    assert!(b.cx.module.blocks.is_empty());
}

#[test]
fn opening_a_function_again_drops_its_blocks() {
    let mut cx = CodegenCx::new("unit", 8);
    let f = callee(1, "f", PassMode::Ignore);
    let g = callee(2, "g", PassMode::Ignore);
    cx.predefine_fn(&f, Linkage::External);
    cx.predefine_fn(&g, Linkage::External);
    let fv = cx.get_fn(&f);
    let gv = cx.get_fn(&g);
    let old = Builder::append_block(&mut cx, fv, "start");
    let kept = Builder::append_block(&mut cx, gv, "start");
    let mut b = Builder::build(cx, old);
    b.ret_void();
    let mut cx = b.into_cx();
    cx.predefine_fn(&f, Linkage::External);
    let mut b = Builder::build(cx, old);
    assert_eq!(b.current_fn, "f");
    assert_eq!(b.block_label(old), "bb0");
    b.unreachable();
    let new = b.append_sibling_block("again");
    assert_eq!(b.block_label(new), "bb_0_again");
    b.switch_to_block(new);
    b.ret_void();
    let b = Builder::build(b.into_cx(), kept);
    assert_eq!(b.block_label(kept), "bb_0_start");
    let source = b.into_cx().to_c_source();
    assert!(source.contains("void f(void) {\nbb_0_again:;\n    return;\n}\n"));
    assert!(source.contains("void g(void) {\nbb_0_start:;\n}\n"));
}

#[test]
fn branches_end_the_block() {
    let mut b = start();
    let c = b.append_sibling_block("a");
    let d = b.append_sibling_block("b");
    b.br(c);
    assert_eq!(last(&b), "goto bb_1_a;");
    assert!(terminated(&b));
    b.switch_to_block(c);
    assert!(!terminated(&b));
    let x = int_value(&mut b, "x", 8, true);
    b.cond_br(x, c, d);
    assert_eq!(last(&b), "if (x) goto bb_1_a; else goto bb_2_b;");
    assert!(terminated(&b));
    b.switch_to_block(d);
    b.unreachable();
    assert_eq!(last(&b), "__builtin_unreachable();");
    assert!(terminated(&b));
}

#[test]
fn switches_compare_unsigned_numbers() {
    let mut b = start();
    let c = b.append_sibling_block("a");
    let d = b.append_sibling_block("b");
    let x = int_value(&mut b, "x", 8, true);
    b.switch(x, d, &vec![(240, c), (1u128 << 64, d)]);
    assert_eq!(
        last(&b),
        "switch ((uint8_t)x) { case 240ULL: goto bb_1_a; case ((uint128_t)1ULL << 64 | 0ULL): goto bb_2_b; default: goto bb_2_b; }"
    );
    assert!(terminated(&b));
    b.switch_to_block(c);
    let t = b.intern_type(CTypeKind::PtrWidth { signed: true });
    let s = b.inline_expr("s".to_string(), t);
    b.switch(s, d, &vec![(18446744073709551615, c)]);
    assert_eq!(
        last(&b),
        "switch ((__rustc_usize)s) { case 18446744073709551615ULL: goto bb_1_a; default: goto bb_2_b; }"
    );
    b.switch_to_block(d);
    let u = int_value(&mut b, "u", 32, false);
    b.switch(u, d, &vec![]);
    assert_eq!(last(&b), "switch (u) { default: goto bb_2_b; }");
}

#[test]
fn returns_give_the_value() {
    let mut b = start();
    let x = int_value(&mut b, "x", 32, true);
    b.ret(x);
    assert_eq!(last(&b), "return x;");
    assert!(terminated(&b));
    b.ret_void();
    assert_eq!(last(&b), "return;");
}

#[test]
fn indirect_returns_go_through_a_local() {
    let mut b = start_indirect();
    let p = b.get_param(0);
    assert_eq!(b.render(p), "(void *)&_retbuf");
    let t = b.cx.get_open("g").unwrap().ret_data_type.unwrap();
    let declared = format!("_Alignas(16) {} _retbuf;", b.render_type(t));
    assert_eq!(locals(&b), vec![declared.clone()]);
    let q = b.get_param(0);
    assert_eq!(b.render(q), "(void *)&_retbuf");
    assert_eq!(locals(&b), vec![declared]);
    b.ret_void();
    assert_eq!(last(&b), "return _retbuf;");
}

#[test]
fn parameters_skip_the_place_of_the_return_value() {
    let mut b = start_indirect();
    let p = b.get_param(1);
    assert_eq!(b.render(p), "_arg0");
    let q = b.get_param(2);
    assert_eq!(b.render(q), "(void *)&_arg1");
    for _ in 0..3 {
        let r = b.get_param(0);
        assert_eq!(b.render(r), "(void *)&_retbuf");
    }
    assert_eq!(locals(&b).iter().filter(|l| l.contains("_retbuf")).count(), 1);
    let mut c = start();
    let p = c.get_param(1);
    assert_eq!(c.render(p), "_arg1");
    let q = c.get_param(9);
    let t = c.get_type(q);
    assert!(matches!(c.get_kind(t), CTypeKind::Ptr));
}

#[test]
fn unwinding_goes_up_the_chain() {
    let mut b = start();
    let (exn, sel) = b.cleanup_landing_pad();
    assert_eq!(b.render(exn), "__exn_ptr");
    assert_eq!(b.render(sel), "0LL");
    let e = ptr_value(&mut b, "e");
    b.resume(e);
    assert_eq!(
        last(&b),
        "if (__rustc_unwind_chain) { __rustc_unwind_chain->exception_ptr = (void *)e; __rustc_longjmp(__rustc_unwind_chain->buf, 1); } else { abort(); }"
    );
    assert!(terminated(&b));
    let c = b.append_sibling_block("c");
    b.switch_to_block(c);
    b.cleanup_ret(None);
    assert_eq!(
        last(&b),
        "if (__rustc_unwind_chain) { __rustc_unwind_chain->exception_ptr = __exn_ptr; __rustc_longjmp(__rustc_unwind_chain->buf, 1); } else { abort(); }"
    );
    let d = b.append_sibling_block("d");
    b.switch_to_block(d);
    b.cleanup_ret(Some(c));
    assert_eq!(last(&b), "goto bb_1_c;");
    let n = b.catch_switch();
    assert_eq!(b.render(n), "NULL");
}

#[test]
fn inline_assembly_is_left_out() {
    let mut b = start();
    b.codegen_inline_asm(None);
    assert_eq!(lines(&b), vec!["/* inline asm not supported */"]);
    let c = b.append_sibling_block("c");
    b.codegen_inline_asm(Some(c));
    assert_eq!(last(&b), "goto bb_1_c;");
    assert!(!terminated(&b));
}

#[test]
fn calls_assign_the_result() {
    let mut b = start();
    let f = callee(2, "h", PassMode::Direct);
    let v = b.cx.get_fn(&f);
    let sig = b.cx.get_fn_sig(v).unwrap();
    let r = b.call(sig, Some(&f.abi), v, &vec![]);
    assert_eq!(last(&b), format!("{} = h();", b.render(r)));
    let g = callee(3, "nothing", PassMode::Ignore);
    let v = b.cx.get_fn(&g);
    let sig = b.cx.get_fn_sig(v).unwrap();
    let r = b.call(sig, Some(&g.abi), v, &vec![]);
    assert_eq!(last(&b), "nothing();");
    assert_eq!(b.render(r), "NULL");
}

#[test]
fn calls_through_pointers_cast_the_callee() {
    let mut b = start();
    let ret = b.intern_type(CTypeKind::Int { bits: 32, signed: true });
    let size = b.intern_type(CTypeKind::PtrWidth { signed: false });
    let sig = b.intern_type(CTypeKind::Function { ret, args: vec![size], variadic: false });
    let p = ptr_value(&mut b, "p");
    let a = ptr_value(&mut b, "a");
    let r = b.call(sig, None, p, &vec![a]);
    let all = lines(&b);
    let cast = all[all.len() - 2].split(" = ").next().unwrap().to_string();
    assert_eq!(all[all.len() - 2], format!("{} = (__rustc_usize)a;", cast));
    assert_eq!(
        all[all.len() - 1],
        format!("{} = ((int32_t (*)(__rustc_usize))p)({});", b.render(r), cast)
    );
}

#[test]
fn indirect_results_are_copied_to_their_place() {
    let mut b = start();
    let f = FnRef {
        id: 4,
        sym: "big".to_string(),
        abi: FnAbi {
            args: vec![direct(int_layout(32, true))],
            ret: ArgAbi { layout: memory_layout(24), mode: indirect() },
            c_variadic: false,
        },
    };
    let v = b.cx.get_fn(&f);
    let sig = b.cx.get_fn_sig(v).unwrap();
    let place = ptr_value(&mut b, "place");
    let x = int_value(&mut b, "x", 32, true);
    let r = b.call(sig, Some(&f.abi), v, &vec![place, x]);
    assert_eq!(r, place);
    let all = lines(&b);
    let tmp = all[all.len() - 2].split(" = ").next().unwrap().to_string();
    assert_eq!(all[all.len() - 2], format!("{} = big(x);", tmp));
    let decl = locals(&b).pop().unwrap();
    let t = decl.strip_suffix(&format!(" {};", tmp)).unwrap();
    assert_eq!(all[all.len() - 1], format!("*({} *)place = {};", t, tmp));
}

#[test]
fn arguments_on_the_stack_are_passed_by_value() {
    let mut b = start();
    let f = FnRef {
        id: 5,
        sym: "byval".to_string(),
        abi: FnAbi {
            args: vec![ArgAbi {
                layout: memory_layout(16),
                mode: PassMode::Indirect { on_stack: true, has_meta: false, pointee_align: None },
            }],
            ret: ArgAbi { layout: memory_layout(0), mode: PassMode::Ignore },
            c_variadic: false,
        },
    };
    let v = b.cx.get_fn(&f);
    let sig = b.cx.get_fn_sig(v).unwrap();
    let p = ptr_value(&mut b, "p");
    b.call(sig, Some(&f.abi), v, &vec![p]);
    let decl = b.cx.module.function_decls.last().unwrap().clone();
    let t = decl.strip_prefix("void byval(").unwrap().strip_suffix(");").unwrap().to_string();
    assert_eq!(last(&b), format!("byval(*({} *)p);", t));
}

#[test]
fn boolean_results_become_bool() {
    let mut b = start();
    let mut f = callee(6, "test", PassMode::Direct);
    f.abi.ret.layout = scalar_layout(Scalar { is_bool: true, ..int_scalar(8, false) });
    let v = b.cx.get_fn(&f);
    let sig = b.cx.get_fn_sig(v).unwrap();
    let r = b.call(sig, Some(&f.abi), v, &vec![]);
    let all = lines(&b);
    let tmp = all[all.len() - 2].split(" = ").next().unwrap().to_string();
    assert_eq!(all[all.len() - 2], format!("{} = test();", tmp));
    assert_eq!(all[all.len() - 1], format!("{} = (_Bool)({});", b.render(r), tmp));
}

#[test]
fn tail_calls_return() {
    let mut b = start();
    let f = callee(2, "h", PassMode::Direct);
    let v = b.cx.get_fn(&f);
    let sig = b.cx.get_fn_sig(v).unwrap();
    b.tail_call(sig, &f.abi, v, &vec![]);
    let all = lines(&b);
    let tmp = all[0].split(" = ").next().unwrap().to_string();
    assert_eq!(all, vec![format!("{} = h();", tmp), format!("return {};", tmp)]);
    assert!(terminated(&b));
    let mut b = start();
    let g = callee(3, "nothing", PassMode::Ignore);
    let v = b.cx.get_fn(&g);
    let sig = b.cx.get_fn_sig(v).unwrap();
    b.tail_call(sig, &g.abi, v, &vec![]);
    assert_eq!(lines(&b), vec!["nothing();", "return;"]);
}

#[test]
fn invokes_catch_what_unwinds() {
    let mut b = start();
    let c = b.append_sibling_block("ok");
    let d = b.append_sibling_block("bad");
    let g = callee(3, "nothing", PassMode::Ignore);
    let v = b.cx.get_fn(&g);
    let sig = b.cx.get_fn_sig(v).unwrap();
    b.invoke(sig, Some(&g.abi), v, &vec![], c, d);
    assert_eq!(
        lines(&b),
        vec![
            "__unwind_ctx.prev = __rustc_unwind_chain;",
            "__unwind_ctx.exception_ptr = (void *)0;",
            "__rustc_unwind_chain = &__unwind_ctx;",
            "if (__rustc_setjmp(__unwind_ctx.buf) != 0) { __exn_ptr = __unwind_ctx.exception_ptr; __rustc_unwind_chain = __unwind_ctx.prev; goto bb_2_bad; }",
            "nothing();",
            "__rustc_unwind_chain = __unwind_ctx.prev;",
            "goto bb_1_ok;",
        ]
    );
    assert!(terminated(&b));
    b.switch_to_block(c);
    b.invoke(sig, Some(&g.abi), v, &vec![], d, d);
    assert_eq!(
        locals(&b),
        vec!["void *__exn_ptr;", "struct __rustc_unwind_context __unwind_ctx;"]
    );
}

#[test]
fn a_module_is_written_in_order() {
    let mut b = start();
    let x = b.get_param(0);
    let y = b.get_param(1);
    let r = b.add(x, y);
    b.ret(r);
    let n = b.render(r);
    let cx = b.into_cx();
    assert_eq!(
        cx.to_c_source(),
        format!(
            "int32_t f(int32_t, int32_t);\nint32_t f(int32_t _arg0, int32_t _arg1) {{\n    int32_t {};\nbb_0_start:;\n    {} = _arg0 + _arg1;\n    return {};\n}}\n",
            n, n, n
        )
    );
}

#[test]
fn types_are_defined_before_they_are_used() {
    let mut cx = CodegenCx::new("unit", 8);
    let byte = cx.type_int(8);
    let array = cx.intern_type(CTypeKind::Array { element: byte, len: 4 });
    let s = cx.intern_type(CTypeKind::Struct { fields: vec![array, byte], packed: true, name: None });
    let v = cx.intern_type(CTypeKind::Vector { element: byte, len: 16 });
    assert_eq!(
        cx.to_c_source(),
        format!(
            "struct __attribute__((packed)) _s{} {{ int8_t f0[4]; int8_t f1; }};\nstruct _vec{} {{ int8_t v[16]; }};\n",
            s.0, v.0
        )
    );
    cx.module.precompiled_source = Some("/* done */\n".to_string());
    assert_eq!(cx.to_c_source(), "/* done */\n");
}

#[test]
fn the_entry_point_takes_the_arguments_of_a_program() {
    let mut cx = CodegenCx::new("unit", 8);
    let v = cx.declare_c_main().unwrap();
    assert_eq!(cx.render_value(v), "main");
    assert_eq!(cx.to_c_source(), "int32_t main(int32_t _arg0, char **_arg1) {\n}\n");
}
