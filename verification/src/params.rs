//! Parameters and operands: how arguments get into memory and back.
use vstd::prelude::*;

use crate::builder::{Builder, Bx};
use crate::c_ast::{CStmt, Expr, Stmt};
use crate::context::{cx_ok, func_types_ok};
use crate::layout::{ArgAbi, BackendRepr, CastTarget, Layout, PassMode};
use crate::meaning::Meaning;
use crate::module::Func;
use crate::places::{addresses_ok, offsets_are_added};
use crate::statics::StaticRef;
use crate::text::{dec, dec_u64, dec_usize, Text};
use crate::type_of::{field_kind, layout_to_c_type, scalar_field_to_c_type};
use crate::types::{natural_align, Kind};
use crate::values::{CValueKind, ValKind, ValueRef};

verus! {

/// What is left to do after an argument was stored.
#[derive(Clone, Copy, PartialEq, Eq, Structural, Debug)]
pub enum ArgStep {
    /// Nothing.
    Done,
    /// The value is stored by registers into `scratch`, and `copy_bytes` bytes
    /// are copied from there.
    Cast { val: ValueRef, scratch: ValueRef, copy_bytes: u64 },
    /// The memory at `val` is copied.
    Copy { val: ValueRef, align: u64 },
}

/// An operand that was loaded.
#[derive(Clone, Copy, PartialEq, Eq, Structural, Debug)]
pub enum Operand {
    ZeroSized,
    Immediate(ValueRef),
    Pair(ValueRef, ValueRef),
    /// Left in memory.
    Ref,
}

/// How many elements are stored one by one.
pub const UNROLL_LIMIT: u64 = 16;

/// How a value is written many times.
#[derive(Clone, Copy, PartialEq, Eq, Structural, Debug)]
pub enum RepeatPlan {
    /// Fill with one byte.
    Memset,
    /// Store the first element and copy it in a loop.
    StoreAndCopy,
    /// Store each element.
    StoreEach,
}

/// Whether a step speaks of values of the context.
pub open spec fn step_ok(b: Bx, s: ArgStep) -> bool {
    match s {
        ArgStep::Done => true,
        ArgStep::Cast { val, scratch, .. } => b.has(val) && b.has(scratch),
        ArgStep::Copy { val, .. } => b.has(val),
    }
}

/// Whether a layout is a pair whose second scalar has an alignment and a place.
pub open spec fn pair_ok(l: Layout) -> bool {
    l.repr matches BackendRepr::ScalarPair(a, b) && b.align > 0 && a.size + b.align <= u64::MAX
}

/// A size rounded up to a multiple of an alignment.
pub open spec fn aligned(size: u64, align: u64) -> u64 {
    ((size + align - 1) / (align as int) * align) as u64
}

/// Where the second scalar of a pair is.
pub open spec fn second_offset(l: Layout) -> u64 {
    match l.repr {
        BackendRepr::ScalarPair(a, b) => aligned(a.size, b.align),
        _ => 0,
    }
}

/// How many parameters an argument uses up.
pub open spec fn params_used(mode: PassMode) -> int {
    match mode {
        PassMode::Ignore => 0,
        PassMode::Pair => 2,
        _ => 1,
    }
}

/// The statement that fills memory.
pub open spec fn memset_text(d: Text, v: Text, count: u64) -> Text {
    "memset("@ + d + ", (int)"@ + v + ", "@ + dec(count as nat) + "ULL);"@
}

/// The statement that copies the first element to the others.
pub open spec fn repeat_text(d: Text, count: u64, stride: u64) -> Text {
    "for (uint64_t _rep = 1; _rep < "@ + dec(count as nat)
        + "ULL; _rep++) { memcpy((void *)((__rustc_usize)"@ + d + " + _rep * "@ + dec(
        stride as nat,
    ) + "ULL), (void *)"@ + d + ", "@ + dec(stride as nat) + "ULL); }"@
}

/// How a value is written `count` times.
pub open spec fn plan_of(count: u64, stride: u64) -> RepeatPlan {
    if count > UNROLL_LIMIT && stride > 0 {
        if stride == 1 {
            RepeatPlan::Memset
        } else {
            RepeatPlan::StoreAndCopy
        }
    } else {
        RepeatPlan::StoreEach
    }
}

/// What the operations on parameters and operands do.
impl Bx {
    /// The open function that is being built.
    pub open spec fn open_func(self) -> Func {
        self.cx.module.open[self.func]
    }

    /// Whether the function returns its value indirectly.
    pub open spec fn indirect_ret(self) -> bool {
        self.is_open() && self.open_func().has_indirect_ret
    }

    /// The address of the local for the value of an indirect return.
    pub open spec fn retbuf_addr(self) -> (Bx, ValueRef) {
        let b = self.intern(Kind::Ptr);
        let ptr = self.cx.ty(Kind::Ptr);
        match self.open_func().retbuf_name {
            Some(name) => b.value(ValKind::InlineExpr("(void *)&"@ + name), ptr),
            None => {
                let t = match self.open_func().ret_data_type {
                    Some(t) => t,
                    None => ptr,
                };
                let natural = natural_align(b.cx.types, t.0 as nat, b.cx.ptr_bytes);
                let align = if natural > 16 {
                    natural
                } else {
                    16
                };
                let b1 = b.local(
                    "_Alignas("@ + dec(align as nat) + ") "@ + b.cx.decl_str(t, "_retbuf"@) + ";"@,
                );
                let b2 = b1.with_cx(
                    b1.cx.with_module(
                        b1.cx.module.with_func(
                            Func { retbuf_name: Some("_retbuf"@), ..b1.open_func() },
                        ),
                    ),
                );
                b2.value(ValKind::InlineExpr("(void *)&_retbuf"@), ptr)
            },
        }
    }

    pub open spec fn get_param(self, index: usize) -> (Bx, ValueRef) {
        if self.indirect_ret() && index == 0 {
            self.retbuf_addr()
        } else {
            let c_index = if self.indirect_ret() {
                (index - 1) as usize
            } else {
                index
            };
            let b = self.intern(Kind::Ptr);
            let ptr = self.cx.ty(Kind::Ptr);
            if self.is_open() && self.open_func().on_stack_params.contains(c_index) {
                b.value(ValKind::InlineExpr("(void *)&_arg"@ + dec(c_index as nat)), ptr)
            } else {
                let t = if self.is_open() && c_index < self.open_func().params.len() {
                    self.open_func().params[c_index as int].0
                } else {
                    ptr
                };
                b.value(ValKind::Param { index: c_index }, t)
            }
        }
    }

    pub open spec fn store_pair(self, a: ValueRef, b: ValueRef, dst: ValueRef, off: u64) -> Bx {
        let (b1, p) = self.store(a, dst).0.offset_ptr(dst, off);
        b1.store(b, p).0
    }

    pub open spec fn copy_bytes(self, dst: ValueRef, src: ValueRef, bytes: u64) -> Bx {
        let (c, size) = self.cx.usize_const(bytes);
        self.with_cx(c).mem_call("memcpy"@, dst, src, size)
    }

    pub open spec fn begin_cast(self, cast: CastTarget, layout_size: u64, val: ValueRef) -> (
        Bx,
        ArgStep,
    ) {
        let (b, scratch) = self.alloca(cast.size, cast.align);
        let copy_bytes = if cast.unaligned_size <= layout_size {
            cast.unaligned_size
        } else {
            layout_size
        };
        (b, ArgStep::Cast { val, scratch, copy_bytes })
    }

    pub open spec fn store_fn_arg(self, arg: ArgAbi, idx: usize, dst: ValueRef, l: Layout) -> (
        Bx,
        ArgStep,
    ) {
        match arg.mode {
            PassMode::Ignore => (self, ArgStep::Done),
            PassMode::Pair => {
                let (b1, x) = self.get_param(idx);
                let (b2, y) = b1.get_param((idx + 1) as usize);
                (b2.store_pair(x, y, dst, second_offset(l)), ArgStep::Done)
            },
            PassMode::Indirect { .. } => {
                let (b1, x) = self.get_param(idx);
                (b1.copy_bytes(dst, x, l.size), ArgStep::Done)
            },
            PassMode::Cast(cast) => {
                let (b1, x) = self.get_param(idx);
                b1.begin_cast(cast, l.size, x)
            },
            PassMode::Direct => {
                let (b1, x) = self.get_param(idx);
                (b1.store(x, dst).0, ArgStep::Done)
            },
        }
    }

    pub open spec fn store_arg(self, arg: ArgAbi, val: ValueRef, dst: ValueRef) -> (Bx, ArgStep) {
        match arg.mode {
            PassMode::Cast(cast) => self.begin_cast(cast, arg.layout.size, val),
            PassMode::Indirect { has_meta: false, pointee_align, .. } => (
                self,
                ArgStep::Copy {
                    val,
                    align: match pointee_align {
                        Some(a) => a,
                        None => arg.layout.align,
                    },
                },
            ),
            _ => (self.store(val, dst).0, ArgStep::Done),
        }
    }

    pub open spec fn load_operand(self, l: Layout, ptr: ValueRef) -> (Bx, Operand) {
        if l.is_zst {
            (self, Operand::ZeroSized)
        } else {
            match l.repr {
                BackendRepr::Scalar(s) => {
                    let (c, t) = self.cx.layout_type(l);
                    let (b1, v) = self.with_cx(c).load(t, ptr);
                    let (b2, r) = b1.to_immediate_scalar(v, s);
                    (b2, Operand::Immediate(r))
                },
                BackendRepr::SimdVector { .. } => {
                    let (c, t) = self.cx.layout_type(l);
                    let (b1, v) = self.with_cx(c).load(t, ptr);
                    (b1, Operand::Immediate(v))
                },
                BackendRepr::ScalarPair(a, b) => {
                    let (c1, ta) = self.cx.interns(field_kind(a, l, 0));
                    let (c2, tb) = c1.interns(field_kind(b, l, 1));
                    let (b1, x) = self.with_cx(c2).load(ta, ptr);
                    let (b2, p) = b1.offset_ptr(ptr, second_offset(l));
                    let (b3, y) = b2.load(tb, p);
                    (b3, Operand::Pair(x, y))
                },
                BackendRepr::Memory => (self, Operand::Ref),
            }
        }
    }

    pub open spec fn get_static(self, s: StaticRef) -> (Bx, ValueRef) {
        let (c, v) = self.cx.get_static(s);
        (self.with_cx(c), v)
    }
}

/// Rounds a size up to a multiple of an alignment.
pub fn align_up(size: u64, align: u64) -> (r: u64)
    requires
        align > 0,
        size + align <= u64::MAX,
    ensures
        r == aligned(size, align),
        r >= size,
        r < size + align,
        r % align == 0,
{
    let q = (size + align - 1) / align;
    proof {
        let n = size + align - 1;
        vstd::arithmetic::div_mod::lemma_fundamental_div_mod(n, align as int);
        vstd::arithmetic::div_mod::lemma_mod_bound(n, align as int);
        vstd::arithmetic::mul::lemma_mul_is_commutative(align as int, n / (align as int));
        vstd::arithmetic::div_mod::lemma_mod_multiples_basic(n / (align as int), align as int);
    }
    q * align
}

/// How a value is written `count` times: memory of one-byte elements is filled,
/// other elements are copied in a loop, and few elements are stored one by one.
pub fn repeat_plan(count: u64, stride: u64) -> (r: RepeatPlan)
    ensures
        r == plan_of(count, stride),
{
    if count > UNROLL_LIMIT && stride > 0 {
        if stride == 1 {
            RepeatPlan::Memset
        } else {
            RepeatPlan::StoreAndCopy
        }
    } else {
        RepeatPlan::StoreEach
    }
}

/// Whether a number is in a list.
fn contains_index(list: &Vec<usize>, n: usize) -> (r: bool)
    ensures
        r == list@.contains(n),
{
    let mut i: usize = 0;
    while i < list.len()
        invariant
            i <= list@.len(),
            forall|k: int| 0 <= k < i ==> list@[k] != n,
        decreases list@.len() - i,
    {
        if list[i] == n {
            assert(list@[i as int] == n);
            return true;
        }
        i = i + 1;
    }
    false
}

impl Builder {
    /// The value of a parameter. The first of a function that returns indirectly is the
    /// address of a local for the value, which is made the first time; the C function
    /// has no such parameter.
    pub fn get_param(&mut self, index: usize) -> (r: ValueRef)
        requires
            old(self).wf(),
        ensures
            final(self).wf(),
            (final(self)@, r) == old(self)@.get_param(index),
            final(self)@.has(r),
            old(self)@.within(final(self)@),
    {
        let (indirect, name, data, on_stack, param_ty) = match self.cx.get_open(&self.current_fn) {
            Some(f) => {
                let c_index = if f.has_indirect_ret && index > 0 {
                    index - 1
                } else {
                    index
                };
                let name = match &f.retbuf_name {
                    Some(n) => Some(n.clone()),
                    None => None,
                };
                let ty = if c_index < f.params.len() {
                    assert(f@.params[c_index as int].0 == f.params@[c_index as int].0);
                    Some(f.params[c_index].0)
                } else {
                    None
                };
                let on_stack = contains_index(&f.on_stack_params, c_index);
                (f.has_indirect_ret, name, f.ret_data_type, on_stack, ty)
            },
            None => (false, None, None, false, None),
        };
        let ptr_ty = self.cx.type_ptr();
        if indirect && index == 0 {
            if let Some(name) = name {
                let text = "(void *)&".to_owned().concat(&name);
                return self.inline_expr(text, ptr_ty);
            }
            let ret_ty = match data {
                Some(t) => t,
                None => ptr_ty,
            };
            let decl = self.cx.render_type_decl(ret_ty, "_retbuf");
            let natural = self.cx.natural_align_bytes(ret_ty);
            let align = if natural > 16 {
                natural
            } else {
                16
            };
            let local = "_Alignas(".to_owned().concat(&dec_u64(align)).concat(") ").concat(
                &decl,
            ).concat(";");
            self.add_local_decl(local);
            self.cx.set_retbuf(&self.current_fn);
            self.inline_expr("(void *)&_retbuf".to_owned(), ptr_ty)
        } else {
            let c_index = if indirect {
                index - 1
            } else {
                index
            };
            if on_stack {
                let text = "(void *)&_arg".to_owned().concat(&dec_usize(c_index));
                self.inline_expr(text, ptr_ty)
            } else {
                let t = match param_ty {
                    Some(t) => t,
                    None => ptr_ty,
                };
                self.cx.intern_value(CValueKind::Param { index: c_index }, t)
            }
        }
    }

    /// Stores the two scalars of a pair.
    fn store_pair(&mut self, a: ValueRef, b: ValueRef, dst: ValueRef, b_offset: u64)
        requires
            old(self).wf(),
            old(self)@.has(a),
            old(self)@.has(b),
            old(self)@.has(dst),
        ensures
            final(self).wf(),
            final(self)@ == old(self)@.store_pair(a, b, dst, b_offset),
            old(self)@.within(final(self)@),
    {
        self.store(a, dst);
        let b_ptr = self.offset_ptr(dst, b_offset);
        self.store(b, b_ptr);
    }

    /// Copies a number of bytes.
    pub fn copy_bytes(&mut self, dst: ValueRef, src: ValueRef, bytes: u64)
        requires
            old(self).wf(),
            old(self)@.has(dst),
            old(self)@.has(src),
        ensures
            final(self).wf(),
            final(self)@ == old(self)@.copy_bytes(dst, src, bytes),
            old(self)@.within(final(self)@),
    {
        let size = self.cx.const_usize(bytes);
        self.memcpy(dst, src, size);
    }

    /// Reserves the place into which a value is stored that was cast for the call.
    fn begin_cast(&mut self, cast: &CastTarget, layout_size: u64, val: ValueRef) -> (r: ArgStep)
        requires
            old(self).wf(),
            old(self)@.has(val),
        ensures
            final(self).wf(),
            (final(self)@, r) == old(self)@.begin_cast(*cast, layout_size, val),
            step_ok(final(self)@, r),
            old(self)@.within(final(self)@),
    {
        let scratch = self.alloca(cast.size, cast.align);
        let copy_bytes = if cast.unaligned_size <= layout_size {
            cast.unaligned_size
        } else {
            layout_size
        };
        ArgStep::Cast { val, scratch, copy_bytes }
    }

    /// Stores the parameters of an argument into memory, from the parameter of
    /// number `idx` on. The number of the next parameter is returned, and what
    /// is left to do: a value that was cast for the call is stored by registers
    /// into the scratch memory, from which `copy_bytes` takes it.
    pub fn store_fn_arg(
        &mut self,
        arg_abi: &ArgAbi,
        idx: usize,
        dst: ValueRef,
        dst_layout: &Layout,
    ) -> (r: (usize, ArgStep))
        requires
            old(self).wf(),
            old(self)@.has(dst),
            idx + 2 <= usize::MAX,
            arg_abi.mode is Pair ==> pair_ok(*dst_layout),
        ensures
            final(self).wf(),
            (final(self)@, r.1) == old(self)@.store_fn_arg(*arg_abi, idx, dst, *dst_layout),
            r.0 == idx + params_used(arg_abi.mode),
            step_ok(final(self)@, r.1),
            old(self)@.within(final(self)@),
    {
        match &arg_abi.mode {
            PassMode::Ignore => (idx, ArgStep::Done),
            PassMode::Pair => {
                let a = self.get_param(idx);
                let b = self.get_param(idx + 1);
                let b_offset = match dst_layout.repr {
                    BackendRepr::ScalarPair(sa, sb) => align_up(sa.size, sb.align),
                    _ => 0,
                };
                self.store_pair(a, b, dst, b_offset);
                (idx + 2, ArgStep::Done)
            },
            PassMode::Indirect { .. } => {
                let val = self.get_param(idx);
                self.copy_bytes(dst, val, dst_layout.size);
                (idx + 1, ArgStep::Done)
            },
            PassMode::Cast(cast) => {
                let val = self.get_param(idx);
                let step = self.begin_cast(cast, dst_layout.size, val);
                (idx + 1, step)
            },
            PassMode::Direct => {
                let val = self.get_param(idx);
                self.store(val, dst);
                (idx + 1, ArgStep::Done)
            },
        }
    }

    /// Stores a value that was passed or returned, and says what is left to do.
    pub fn store_arg(&mut self, arg_abi: &ArgAbi, val: ValueRef, dst: ValueRef) -> (r: ArgStep)
        requires
            old(self).wf(),
            old(self)@.has(val),
            old(self)@.has(dst),
        ensures
            final(self).wf(),
            (final(self)@, r) == old(self)@.store_arg(*arg_abi, val, dst),
            step_ok(final(self)@, r),
            old(self)@.within(final(self)@),
    {
        match &arg_abi.mode {
            PassMode::Cast(cast) => self.begin_cast(cast, arg_abi.layout.size, val),
            PassMode::Indirect { has_meta: false, pointee_align, .. } => ArgStep::Copy {
                val,
                align: match *pointee_align {
                    Some(a) => a,
                    None => arg_abi.layout.align,
                },
            },
            _ => {
                self.store(val, dst);
                ArgStep::Done
            },
        }
    }

    /// Loads an operand: nothing, one value, two values, or memory that is left
    /// where it is.
    pub fn load_operand(&mut self, layout: &Layout, ptr: ValueRef) -> (r: Operand)
        requires
            old(self).wf(),
            old(self)@.has(ptr),
            layout.repr is ScalarPair ==> pair_ok(*layout),
        ensures
            final(self).wf(),
            (final(self)@, r) == old(self)@.load_operand(*layout, ptr),
            old(self)@.within(final(self)@),
    {
        if layout.is_zst {
            return Operand::ZeroSized;
        }
        match layout.repr {
            BackendRepr::Scalar(s) => {
                let t = layout_to_c_type(&mut self.cx, layout);
                let v = self.load(t, ptr);
                Operand::Immediate(self.to_immediate_scalar(v, s))
            },
            BackendRepr::SimdVector { .. } => {
                let t = layout_to_c_type(&mut self.cx, layout);
                Operand::Immediate(self.load(t, ptr))
            },
            BackendRepr::ScalarPair(a, b) => {
                let a_ty = scalar_field_to_c_type(&mut self.cx, a, layout, 0);
                let b_ty = scalar_field_to_c_type(&mut self.cx, b, layout, 1);
                let a_val = self.load(a_ty, ptr);
                let b_ptr = self.offset_ptr(ptr, align_up(a.size, b.align));
                let b_val = self.load(b_ty, b_ptr);
                Operand::Pair(a_val, b_val)
            },
            BackendRepr::Memory => Operand::Ref,
        }
    }

    /// Fills memory with one byte, many times.
    pub fn repeat_memset(&mut self, dst: ValueRef, val: ValueRef, count: u64)
        requires
            old(self).wf(),
            old(self)@.has(dst),
            old(self)@.has(val),
        ensures
            final(self).wf(),
            final(self)@ == old(self)@.emit(Stmt::Raw(memset_text(old(self)@.cx.text(dst), old(self)@.cx.text(val), count))),
            old(self)@.within(final(self)@),
    {
        let text = "memset(".to_owned().concat(&self.render(dst)).concat(", (int)").concat(
            &self.render(val),
        ).concat(", ").concat(&dec_u64(count)).concat("ULL);");
        self.emit(CStmt::Raw(text));
    }

    /// Copies the first element to the others, in a loop.
    pub fn repeat_copy(&mut self, dst: ValueRef, count: u64, stride: u64)
        requires
            old(self).wf(),
            old(self)@.has(dst),
        ensures
            final(self).wf(),
            final(self)@ == old(self)@.emit(Stmt::Raw(repeat_text(old(self)@.cx.text(dst), count, stride))),
            old(self)@.within(final(self)@),
    {
        let d = self.render(dst);
        let sb = dec_u64(stride);
        let text = "for (uint64_t _rep = 1; _rep < ".to_owned().concat(&dec_u64(count)).concat(
            "ULL; _rep++) { memcpy((void *)((__rustc_usize)",
        ).concat(&d).concat(" + _rep * ").concat(&sb).concat("ULL), (void *)").concat(&d).concat(
            ", ",
        ).concat(&sb).concat("ULL); }");
        self.emit(CStmt::Raw(text));
    }

    /// The address of an element of an array.
    pub fn repeat_dest(&mut self, dst: ValueRef, stride: u64, i: u64) -> (r: ValueRef)
        requires
            old(self).wf(),
            old(self)@.has(dst),
            stride * i <= u64::MAX,
        ensures
            final(self).wf(),
            (final(self)@, r) == old(self)@.offset_ptr(dst, (stride * i) as u64),
            final(self)@.has(r),
            old(self)@.within(final(self)@),
            stride * i == 0 ==> r == dst && final(self)@ == old(self)@,
            stride * i > 0 && old(self)@.cx.types.len() + 2 < usize::MAX
                && old(self)@.cx.values.len() < usize::MAX ==> old(self)@.then_gives(
                final(self)@,
                r,
                |m: Meaning, n: int|
                    addresses_ok(old(self)@, m, dst, stride * i) ==> n == m.of(old(self)@, dst)
                        + stride * i,
            ),
    {
        proof {
            self.cx.wf_is_consistent();
            if self@.cx.types.len() + 2 < usize::MAX && self@.cx.values.len() < usize::MAX {
                offsets_are_added(self@, dst, (stride * i) as u64);
            }
        }
        self.offset_ptr(dst, stride * i)
    }

    /// The address of a static.
    pub fn get_static(&mut self, s: &StaticRef) -> (r: ValueRef)
        requires
            old(self).wf(),
            s.wf(old(self)@.cx.ptr_bytes),
        ensures
            final(self).wf(),
            (final(self)@, r) == old(self)@.get_static(*s),
            final(self)@.has(r),
            old(self)@.within(final(self)@),
    {
        self.cx.get_static(s)
    }
}

// --- Laws ---

/// What asking `n` times for the first parameter leaves behind.
pub open spec fn asked_for_first(b: Bx, n: nat) -> Bx
    decreases n,
{
    if n == 0 {
        b
    } else {
        asked_for_first(b, (n - 1) as nat).get_param(0).0
    }
}

/// However often a function that returns indirectly is asked for its first
/// parameter, it gives the address of the local `_retbuf`, which is declared the
/// first time and never again.
pub proof fn first_parameter_is_the_local(b: Bx, n: nat)
    requires
        cx_ok(b.cx),
        b.indirect_ret(),
    ensures
        ({
            let b1 = asked_for_first(b, n);
            let (b2, v) = b1.get_param(0);
            &&& b1.indirect_ret()
            &&& b2.indirect_ret()
            &&& b1.cx.values.len() <= usize::MAX ==> b2.cx.text(v) == "(void *)&_retbuf"@
            &&& b2.open_func().retbuf_name == Some("_retbuf"@)
            &&& b2.open_func().locals == b.get_param(0).0.open_func().locals
            &&& b.open_func().retbuf_name is Some ==> b2.open_func().locals
                == b.open_func().locals
            &&& b.open_func().retbuf_name is None ==> b2.open_func().locals.len()
                == b.open_func().locals.len() + 1
        }),
    decreases n,
{
    assert(func_types_ok(b.cx.module.open[b.func], b.cx.types.len() as int));
    reveal_strlit("(void *)&_retbuf");
    reveal_strlit("(void *)&");
    reveal_strlit("_retbuf");
    assert("(void *)&"@ + "_retbuf"@ =~= "(void *)&_retbuf"@);
    if n > 0 {
        first_parameter_is_the_local(b, (n - 1) as nat);
    }
}

/// Every other parameter is the one before it in the C function, of that
/// parameter's type; one that is passed by value on the stack is its address.
pub proof fn later_parameters_are_shifted(b: Bx, k: usize)
    requires
        cx_ok(b.cx),
        b.indirect_ret(),
        0 < k,
        b.cx.values.len() <= usize::MAX,
    ensures
        ({
            let (b1, v) = b.get_param(k);
            let c_index = (k - 1) as usize;
            let f = b.open_func();
            if f.on_stack_params.contains(c_index) {
                &&& b1.cx.text(v) == "(void *)&_arg"@ + dec(c_index as nat)
                &&& b1.cx.type_of(v) == b.cx.ty(Kind::Ptr)
            } else {
                &&& b1.cx.values[v.0 as int].kind == (ValKind::Param { index: c_index })
                &&& c_index < f.params.len() ==> b1.cx.type_of(v) == f.params[
                    c_index as int
                ].0
            }
        }),
{
}

/// A function that returns indirectly returns the local whose address its first
/// parameter gave.
pub proof fn indirect_returns_give_the_local(b: Bx)
    requires
        cx_ok(b.cx),
        b.indirect_ret(),
    ensures
        ({
            let b1 = b.get_param(0).0;
            b1.ret_void() == b1.ends(Stmt::RetVal(Expr::Var("_retbuf"@)))
        }),
{
    first_parameter_is_the_local(b, 0);
}

} // verus!
