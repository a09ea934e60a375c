#![allow(dead_code)]
use codegen_c::atomics::{AtomicRmwBinOp, SynchronizationScope};
use codegen_c::builder::{AtomicOrder, Builder};
use codegen_c::context::{CodegenCx, Linkage};
use codegen_c::declare::FnRef;
use codegen_c::layout::{ArgAbi, BackendRepr, FnAbi, Layout, PassMode, Primitive, Scalar, TyTag};
use codegen_c::render::render_stmt;
use codegen_c::types::CTypeKind;
use codegen_c::values::ValueRef;

fn int_scalar(bits: u64, signed: bool) -> Scalar {
    let bytes = (bits / 8) as u64;
    Scalar { primitive: Primitive::Int { bits, signed }, is_bool: false, size: bytes, align: bytes }
}

fn scalar_layout(s: Scalar) -> Layout {
    Layout {
        repr: BackendRepr::Scalar(s),
        ty: TyTag::Other,
        is_zst: false,
        size: s.size,
        align: s.align,
        single_variant: true,
        fields: vec![],
    }
}

fn int_layout(bits: u64, signed: bool) -> Layout {
    scalar_layout(int_scalar(bits, signed))
}

fn direct(layout: Layout) -> ArgAbi {
    ArgAbi { layout, mode: PassMode::Direct }
}

/// A builder in the first block of `int32_t f(int32_t, int32_t)`, with pointers of
/// 64 bits.
fn start() -> Builder {
    let mut cx = CodegenCx::new("unit", 8);
    let f = FnRef {
        id: 1,
        sym: "f".to_string(),
        abi: FnAbi {
            args: vec![direct(int_layout(32, true)), direct(int_layout(32, true))],
            ret: direct(int_layout(32, true)),
            c_variadic: false,
        },
    };
    cx.predefine_fn(&f, Linkage::External);
    let v = cx.get_fn(&f);
    let bb = Builder::append_block(&mut cx, v, "start");
    Builder::build(cx, bb)
}

/// The statements of the current block.
fn lines(b: &Builder) -> Vec<String> {
    b.cx.module.blocks[b.current_bb.0 as usize].stmts.iter().map(|s| render_stmt(s)).collect()
}

/// The last statement of the current block.
fn last(b: &Builder) -> String {
    lines(b).pop().unwrap()
}

/// The locals of the current function.
fn locals(b: &Builder) -> Vec<String> {
    b.cx.get_open(&b.current_fn).unwrap().locals.clone()
}

/// An expression of an integer type.
fn int_value(b: &mut Builder, text: &str, bits: u64, signed: bool) -> ValueRef {
    let t = b.intern_type(CTypeKind::Int { bits, signed });
    b.inline_expr(text.to_string(), t)
}

/// An expression of a pointer type.
fn ptr_value(b: &mut Builder, text: &str) -> ValueRef {
    let t = b.intern_type(CTypeKind::Ptr);
    b.inline_expr(text.to_string(), t)
}

#[test]
fn allocas_have_storage_and_a_pointer() {
    let mut b = start();
    let p = b.alloca(24, 8);
    let n = b.render(p);
    let q = b.alloca(0, 1);
    assert_eq!(
        locals(&b),
        vec![
            format!("uint8_t {}_storage[24] __attribute__((aligned(8)));", n),
            format!("void *{} = (void *){}_storage;", n, n),
            format!("void *{} = NULL;", b.render(q)),
        ]
    );
    assert!(lines(&b).is_empty());
}

#[test]
fn loads_and_stores_go_through_typed_pointers() {
    let mut b = start();
    let p = ptr_value(&mut b, "p");
    let t = b.intern_type(CTypeKind::Int { bits: 16, signed: false });
    let r = b.load(t, p);
    assert_eq!(last(&b), format!("{} = *(uint16_t *)p;", b.render(r)));
    let r = b.volatile_load(t, p);
    assert_eq!(last(&b), format!("{} = *(volatile uint16_t *)p;", b.render(r)));
    let x = int_value(&mut b, "x", 16, false);
    assert_eq!(b.store(x, p), x);
    assert_eq!(last(&b), "*(uint16_t *)p = x;");
}

#[test]
fn wide_numbers_and_arrays_are_copied() {
    let mut b = start();
    let p = ptr_value(&mut b, "p");
    let wide = b.intern_type(CTypeKind::Int { bits: 128, signed: false });
    let r = b.load(wide, p);
    let n = b.render(r);
    assert_eq!(last(&b), format!("memcpy(&{}, p, sizeof({}));", n, n));
    let r = b.volatile_load(wide, p);
    assert_eq!(
        last(&b),
        format!(
            "{{ volatile char *__src = (volatile char *)p; char *__dst = (char *)&{}; for (int __i = 0; __i < 16; __i++) __dst[__i] = __src[__i]; }}",
            b.render(r)
        )
    );
    let x = b.inline_expr("1ULL".to_string(), wide);
    b.store(x, p);
    let all = lines(&b);
    let src = all[all.len() - 2].split(" = ").next().unwrap().to_string();
    assert_eq!(all[all.len() - 2], format!("{} = 1ULL;", src));
    assert_eq!(all[all.len() - 1], format!("memcpy(p, &{}, 16);", src));
    let element = b.intern_type(CTypeKind::Int { bits: 8, signed: true });
    let array = b.intern_type(CTypeKind::Array { element, len: 3 });
    let r = b.load(array, p);
    let n = b.render(r);
    assert_eq!(last(&b), format!("memcpy({}, p, sizeof({}));", n, n));
    assert!(locals(&b).contains(&format!("int8_t {}[3];", n)));
    b.store(r, p);
    assert_eq!(last(&b), format!("memcpy(p, &{}, sizeof({}));", n, n));
}

#[test]
fn function_pointers_are_loaded() {
    let mut b = start();
    let p = ptr_value(&mut b, "p");
    let ret = b.intern_type(CTypeKind::Void);
    let arg = b.intern_type(CTypeKind::Int { bits: 32, signed: true });
    let t = b.intern_type(CTypeKind::Function { ret, args: vec![arg], variadic: false });
    let r = b.load(t, p);
    assert_eq!(last(&b), format!("{} = *(void (**)(int32_t))p;", b.render(r)));
    assert_eq!(locals(&b), vec![format!("void (*{})(int32_t);", b.render(r))]);
}

#[test]
fn pointers_are_offset_as_integers() {
    let mut b = start();
    let p = ptr_value(&mut b, "p");
    let i = int_value(&mut b, "i", 64, true);
    let t = b.intern_type(CTypeKind::Int { bits: 32, signed: true });
    let r = b.gep(t, p, &vec![i]);
    assert_eq!(
        last(&b),
        format!(
            "{} = (void *)((__rustc_usize)p + ((__rustc_isize)(i) * (__rustc_isize)sizeof(int32_t)));",
            b.render(r)
        )
    );
    let r = b.gep(t, p, &vec![i, i]);
    assert_eq!(
        last(&b),
        format!(
            "{} = (void *)(((__rustc_usize)p + ((__rustc_isize)(i) * (__rustc_isize)sizeof(int32_t))) + (__rustc_isize)(i));",
            b.render(r)
        )
    );
}

#[test]
fn blocks_of_memory_are_copied_and_filled() {
    let mut b = start();
    let p = ptr_value(&mut b, "p");
    let q = ptr_value(&mut b, "q");
    let n = int_value(&mut b, "n", 64, false);
    b.memcpy(p, q, n);
    assert_eq!(last(&b), "memcpy(p, q, n);");
    b.memmove(p, q, n);
    assert_eq!(last(&b), "memmove(p, q, n);");
    let z = int_value(&mut b, "0", 8, true);
    b.memset(p, z, n);
    assert_eq!(last(&b), "memset(p, 0, n);");
}

#[test]
fn fields_are_taken_and_set() {
    let mut b = start();
    let i32_ty = b.intern_type(CTypeKind::Int { bits: 32, signed: true });
    let size = b.intern_type(CTypeKind::PtrWidth { signed: false });
    let s = b.intern_type(CTypeKind::Struct { fields: vec![i32_ty, size], packed: false, name: None });
    let v = b.inline_expr("v".to_string(), s);
    let r = b.extract_value(v, 1);
    assert_eq!(last(&b), format!("{} = v.f1;", b.render(r)));
    assert_eq!(b.get_type(r), size);
    let x = int_value(&mut b, "x", 32, true);
    let r = b.insert_value(v, x, 0);
    let n = b.render(r);
    let all = lines(&b);
    assert_eq!(all[all.len() - 2], format!("{} = v;", n));
    assert_eq!(all[all.len() - 1], format!("{}.f0 = x;", n));
    let u = b.cx.const_undef(s);
    let p = ptr_value(&mut b, "p");
    let r = b.insert_value(u, p, 1);
    let n = b.render(r);
    let all = lines(&b);
    let cast = all[all.len() - 3].split(" = ").next().unwrap().to_string();
    assert_eq!(all[all.len() - 3], format!("{} = (__rustc_usize)p;", cast));
    assert_eq!(all[all.len() - 2], format!("memset(&{}, 0, sizeof({}));", n, n));
    assert_eq!(all[all.len() - 1], format!("{}.f1 = {};", n, cast));
}

#[test]
fn choices_and_vectors() {
    let mut b = start();
    let c = int_value(&mut b, "c", 8, true);
    let x = int_value(&mut b, "x", 32, true);
    let y = int_value(&mut b, "y", 32, true);
    let r = b.select(c, x, y);
    assert_eq!(last(&b), format!("{} = c ? x : y;", b.render(r)));
    let r = b.vector_splat(3, x);
    let n = b.render(r);
    let t = b.get_type(r);
    assert_eq!(last(&b), format!("{} = ({}){{ x, x, x }};", n, b.render_type(t)));
    let r = b.extract_element(r, y);
    assert_eq!(last(&b), format!("{} = {}[y];", b.render(r), n));
    let list = ptr_value(&mut b, "list");
    let t = b.get_type(x);
    let r = b.va_arg(list, t);
    assert_eq!(last(&b), format!("{} = va_arg(list, int32_t);", b.render(r)));
}

#[test]
fn narrow_atomics_use_the_library_and_wide_ones_builtins() {
    let mut b = start();
    let p = ptr_value(&mut b, "p");
    let x = int_value(&mut b, "x", 32, true);
    let t = b.get_type(x);
    let r = b.atomic_load(t, p, 4);
    assert_eq!(last(&b), format!("{} = atomic_load((_Atomic(int32_t) *)p);", b.render(r)));
    b.atomic_store(x, p, 4);
    assert_eq!(last(&b), "atomic_store((_Atomic(int32_t) *)p, x);");
    let w = int_value(&mut b, "w", 128, false);
    let wt = b.get_type(w);
    let r = b.atomic_load(wt, p, 16);
    assert_eq!(
        last(&b),
        format!("{} = __sync_val_compare_and_swap((uint128_t *)p, 0, 0);", b.render(r))
    );
    b.atomic_store(w, p, 16);
    let old = locals(&b).pop().unwrap().replace("uint128_t ", "").replace(";", "");
    assert_eq!(
        last(&b),
        format!(
            "do {{ {} = *(uint128_t *)p; }} while (!__sync_bool_compare_and_swap((uint128_t *)p, {}, w));",
            old, old
        )
    );
}

#[test]
fn exchanges_and_updates_are_atomic() {
    let mut b = start();
    let p = ptr_value(&mut b, "p");
    let x = int_value(&mut b, "x", 32, true);
    let y = int_value(&mut b, "y", 32, true);
    let (old, ok) = b.atomic_cmpxchg(p, x, y);
    let on = b.render(old);
    let all = lines(&b);
    assert_eq!(all[all.len() - 2], format!("{} = x;", on));
    assert_eq!(
        all[all.len() - 1],
        format!(
            "{} = atomic_compare_exchange_strong((_Atomic(int32_t) *)p, &{}, y);",
            b.render(ok),
            on
        )
    );
    for (op, f) in [
        (AtomicRmwBinOp::AtomicXchg, "atomic_exchange"),
        (AtomicRmwBinOp::AtomicAdd, "atomic_fetch_add"),
        (AtomicRmwBinOp::AtomicSub, "atomic_fetch_sub"),
        (AtomicRmwBinOp::AtomicAnd, "atomic_fetch_and"),
        (AtomicRmwBinOp::AtomicOr, "atomic_fetch_or"),
        (AtomicRmwBinOp::AtomicXor, "atomic_fetch_xor"),
    ] {
        let r = b.atomic_rmw(op, p, x);
        assert_eq!(last(&b), format!("{} = {}((_Atomic(int32_t) *)p, x);", b.render(r), f));
    }
}

#[test]
fn other_updates_are_loops() {
    let mut b = start();
    let p = ptr_value(&mut b, "p");
    let x = int_value(&mut b, "x", 32, true);
    for (op, value) in [
        (AtomicRmwBinOp::AtomicNand, "~(OLD & x)"),
        (AtomicRmwBinOp::AtomicMin, "OLD < x ? OLD : x"),
        (AtomicRmwBinOp::AtomicMax, "OLD > x ? OLD : x"),
        (
            AtomicRmwBinOp::AtomicUMin,
            "(int32_t)((uint32_t)OLD < (uint32_t)x ? (uint32_t)OLD : (uint32_t)x)",
        ),
        (
            AtomicRmwBinOp::AtomicUMax,
            "(int32_t)((uint32_t)OLD > (uint32_t)x ? (uint32_t)OLD : (uint32_t)x)",
        ),
    ] {
        let r = b.atomic_rmw(op, p, x);
        let old = b.render(r);
        let new = locals(&b).pop().unwrap().replace("int32_t ", "").replace(";", "");
        let all = lines(&b);
        assert_eq!(
            all[all.len() - 2],
            format!("{} = atomic_load((_Atomic(int32_t) *)p);", old)
        );
        assert_eq!(
            all[all.len() - 1],
            format!(
                "do {{ {} = {}; }} while (!atomic_compare_exchange_weak((_Atomic(int32_t) *)p, &{}, {}));",
                new,
                value.replace("OLD", &old),
                old,
                new
            )
        );
    }
}

#[test]
fn fences_have_an_order_and_a_scope() {
    let mut b = start();
    b.atomic_fence(AtomicOrder::SeqCst, SynchronizationScope::CrossThread);
    assert_eq!(last(&b), "atomic_thread_fence(memory_order_seq_cst);");
    b.atomic_fence(AtomicOrder::Acquire, SynchronizationScope::SingleThread);
    assert_eq!(last(&b), "atomic_signal_fence(memory_order_acquire);");
    assert_eq!(Builder::atomic_ordering_to_c(AtomicOrder::Relaxed), "memory_order_relaxed");
    assert_eq!(Builder::atomic_ordering_to_c(AtomicOrder::Release), "memory_order_release");
    assert_eq!(Builder::atomic_ordering_to_c(AtomicOrder::AcqRel), "memory_order_acq_rel");
}
