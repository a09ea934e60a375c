//! Calls, and calls that can unwind.
use vstd::prelude::*;

use crate::builder::{Builder, Bx};
use crate::c_ast::{exprs, CExpr, CStmt, Expr, Stmt};
use crate::layout::{BackendRepr, FnAbi, PassMode};
use crate::module::{BasicBlockId, Func};
use crate::text::Text;
use crate::type_of::layout_to_c_type;
use crate::types::{CTypeKind, Kind, TypeRef};
use crate::values::{ValKind, ValueRef};

verus! {

/// Whether a function returns its value through a pointer that the caller
/// passes.
pub open spec fn returns_indirectly(abi: Option<FnAbi>) -> bool {
    abi matches Some(abi) && abi.ret.mode is Indirect
}

/// Whether a function returns a truth value.
pub open spec fn returns_bool(abi: Option<FnAbi>) -> bool {
    abi matches Some(abi) && (abi.ret.layout.repr matches BackendRepr::Scalar(s) && s.is_bool)
}

/// The arguments of a call without the pointer to the return value.
pub open spec fn actual_args(abi: Option<FnAbi>, args: Seq<ValueRef>) -> Seq<ValueRef> {
    if returns_indirectly(abi) && args.len() > 0 {
        args.skip(1)
    } else {
        args
    }
}

/// The parameter types of a function type.
pub open spec fn fn_params(k: Kind) -> Seq<TypeRef> {
    match k {
        Kind::Function { args, .. } => args,
        _ => Seq::empty(),
    }
}

/// The return type of a function type.
pub open spec fn fn_ret(k: Kind) -> TypeRef {
    match k {
        Kind::Function { ret, .. } => ret,
        _ => arbitrary(),
    }
}

/// The statement that catches an exception.
pub open spec fn setjmp_text(catch_label: Text) -> Text {
    "if (__rustc_setjmp(__unwind_ctx.buf) != 0) { __exn_ptr = __unwind_ctx.exception_ptr; __rustc_unwind_chain = __unwind_ctx.prev; goto "@
        + catch_label + "; }"@
}

/// What calls do.
impl Bx {
    /// The signature of a function value.
    pub open spec fn fn_sig(self, f: ValueRef) -> Option<TypeRef> {
        match self.cx.values[f.0 as int].kind {
            ValKind::Function { sig, .. } => Some(sig),
            _ => None,
        }
    }

    /// The type at which a function is called: its own, or `llty` where it is a
    /// pointer.
    pub open spec fn callee_type(self, f: ValueRef, llty: TypeRef) -> TypeRef {
        match self.fn_sig(f) {
            Some(sig) => sig,
            None => llty,
        }
    }

    /// The function of a call: its name, or a pointer cast to the type.
    pub open spec fn callee_text(self, f: ValueRef, llty: TypeRef) -> Text {
        match self.fn_sig(f) {
            Some(_) => self.cx.text(f),
            None => "(("@ + self.type_str(llty) + ")"@ + self.cx.text(f) + ")"@,
        }
    }

    /// An argument at a parameter's type. A structure that is given by a
    /// pointer is passed by value.
    pub open spec fn coerce_arg(self, a: ValueRef, t: TypeRef) -> (Bx, ValueRef) {
        if self.cx.kind(t) is Struct && self.kind_of(a) is Ptr {
            self.value(
                ValKind::InlineExpr("*("@ + self.type_str(t) + " *)"@ + self.cx.text(a)),
                t,
            )
        } else {
            self.coerce(a, t)
        }
    }

    /// The first `n` arguments at the parameters' types.
    pub open spec fn coerce_args(self, args: Seq<ValueRef>, params: Seq<TypeRef>, n: nat) -> (
        Bx,
        Seq<ValueRef>,
    )
        decreases n,
    {
        if n == 0 {
            (self, Seq::empty())
        } else {
            let (b, list) = self.coerce_args(args, params, (n - 1) as nat);
            let a = args[n - 1];
            if n - 1 < params.len() {
                let (b1, v) = b.coerce_arg(a, params[n - 1]);
                (b1, list.push(v))
            } else {
                (b, list.push(a))
            }
        }
    }

    /// Values as expressions.
    pub open spec fn vars(self, list: Seq<ValueRef>) -> Seq<Expr> {
        list.map_values(|v: ValueRef| self.var(v))
    }

    /// Calls a function.
    pub open spec fn call(
        self,
        llty: TypeRef,
        abi: Option<FnAbi>,
        f: ValueRef,
        args: Seq<ValueRef>,
    ) -> (Bx, ValueRef) {
        let kind = self.cx.kind(self.callee_type(f, llty));
        let actual = actual_args(abi, args);
        let (b, list) = self.coerce_args(actual, fn_params(kind), actual.len());
        let call = Expr::call(b.callee_text(f, llty), b.vars(list));
        let ret = fn_ret(kind);
        if b.cx.kind(ret) is Void {
            let b1 = b.emit(Stmt::Expr(call));
            if returns_indirectly(abi) {
                let (c, t) = b1.cx.layout_type(abi->0.ret.layout);
                b1.with_cx(c).value(ValKind::Undef, t)
            } else {
                b1.intern(Kind::Ptr).value(ValKind::NullPtr, b1.cx.ty(Kind::Ptr))
            }
        } else {
            let (b1, v) = b.temp_stmt(ret, call);
            if returns_indirectly(abi) && args.len() > 0 {
                (
                    b1.emit(
                        Stmt::Assign(
                            Expr::deref(b1.type_str(ret) + " *"@, b1.var(args[0])),
                            b1.var(v),
                        ),
                    ),
                    args[0],
                )
            } else if returns_bool(abi) {
                b1.intern(Kind::Bool).temp_stmt(
                    b1.cx.ty(Kind::Bool),
                    Expr::cast("_Bool"@, Expr::paren(b1.var(v))),
                )
            } else {
                (b1, v)
            }
        }
    }

    /// Whether a call can be made: the function has a function type, and every
    /// argument is a value of the context.
    pub open spec fn can_call(self, llty: TypeRef, f: ValueRef, args: Seq<ValueRef>) -> bool {
        &&& self.has_type(llty)
        &&& self.has(f)
        &&& self.cx.has_all(args)
        &&& self.cx.kind(self.callee_type(f, llty)) is Function
    }

    /// Calls a function and returns what it returns.
    pub open spec fn tail_call(
        self,
        llty: TypeRef,
        abi: FnAbi,
        f: ValueRef,
        args: Seq<ValueRef>,
    ) -> Bx {
        let (b, result) = self.call(llty, Some(abi), f, args);
        if b.retbuf() is Some {
            b.ret_void()
        } else {
            match b.fn_sig(f) {
                Some(sig) => if b.cx.kind(fn_ret(b.cx.kind(sig))) is Void {
                    b.ret_void()
                } else {
                    b.ret(result)
                },
                None => b.intern(Kind::Void).ret_void(),
            }
        }
    }

    /// Declares what a function with calls that can unwind needs, the first
    /// time.
    pub open spec fn begin_invoke(self) -> Bx {
        let b = if self.cx.module.open[self.func].has_invoke {
            self
        } else {
            self.local("void *__exn_ptr;"@).local(
                "struct __rustc_unwind_context __unwind_ctx;"@,
            )
        };
        b.with_cx(
            b.cx.with_module(
                b.cx.module.with_func(Func { has_invoke: true, ..b.cx.module.open[b.func] }),
            ),
        )
    }

    /// Puts the function's handler first in the chain of handlers.
    pub open spec fn push_handler(self, catch_label: Text) -> Bx {
        self.emit(
            Stmt::Assign(
                Expr::field(Expr::Var("__unwind_ctx"@), "prev"@),
                Expr::Var("__rustc_unwind_chain"@),
            ),
        ).emit(
            Stmt::Assign(
                Expr::field(Expr::Var("__unwind_ctx"@), "exception_ptr"@),
                Expr::cast("void *"@, Expr::Lit("0"@)),
            ),
        ).emit(
            Stmt::Assign(
                Expr::Var("__rustc_unwind_chain"@),
                Expr::addr_of(Expr::Var("__unwind_ctx"@)),
            ),
        ).emit(Stmt::Raw(setjmp_text(catch_label)))
    }

    /// Calls a function that can unwind.
    pub open spec fn invoke(
        self,
        llty: TypeRef,
        abi: Option<FnAbi>,
        f: ValueRef,
        args: Seq<ValueRef>,
        then: BasicBlockId,
        catch: BasicBlockId,
    ) -> (Bx, ValueRef) {
        let b1 = self.begin_invoke();
        let (b2, v) = b1.push_handler(b1.label(catch)).call(llty, abi, f, args);
        (
            b2.emit(
                Stmt::Assign(
                    Expr::Var("__rustc_unwind_chain"@),
                    Expr::field(Expr::Var("__unwind_ctx"@), "prev"@),
                ),
            ).emit(Stmt::Goto(b1.label(then))).terminate(),
            v,
        )
    }
}

/// The convention of a call, as contracts speak of it.
pub open spec fn opt_abi(abi: Option<&FnAbi>) -> Option<FnAbi> {
    match abi {
        Some(a) => Some(*a),
        None => None,
    }
}

/// Whether a function returns its value through a pointer that the caller
/// passes.
fn is_indirect(abi: Option<&FnAbi>) -> (r: bool)
    ensures
        r == returns_indirectly(opt_abi(abi)),
{
    match abi {
        Some(abi) => match &abi.ret.mode {
            PassMode::Indirect { .. } => true,
            _ => false,
        },
        None => false,
    }
}

/// Whether a function returns a truth value.
fn is_bool_ret(abi: Option<&FnAbi>) -> (r: bool)
    ensures
        r == returns_bool(opt_abi(abi)),
{
    match abi {
        Some(abi) => match abi.ret.layout.repr {
            BackendRepr::Scalar(s) => s.is_bool,
            _ => false,
        },
        None => false,
    }
}

/// Copies a list of types.
fn copy_types(list: &Vec<TypeRef>) -> (r: Vec<TypeRef>)
    ensures
        r@ == list@,
{
    let mut out: Vec<TypeRef> = Vec::new();
    let mut i: usize = 0;
    while i < list.len()
        invariant
            i <= list@.len(),
            out@ == list@.take(i as int),
        decreases list@.len() - i,
    {
        out.push(list[i]);
        i = i + 1;
        assert(out@ =~= list@.take(i as int));
    }
    assert(list@.take(list@.len() as int) =~= list@);
    out
}

impl Builder {
    /// An argument at a parameter's type.
    fn coerce_arg(&mut self, a: ValueRef, t: TypeRef) -> (r: ValueRef)
        requires
            old(self).wf(),
            old(self)@.has(a),
            old(self)@.has_type(t),
        ensures
            final(self).wf(),
            (final(self)@, r) == old(self)@.coerce_arg(a, t),
            final(self)@.has(r),
            old(self)@.within(final(self)@),
    {
        let is_struct = match self.get_kind(t) {
            CTypeKind::Struct { .. } => true,
            _ => false,
        };
        let val_ty = self.get_type(a);
        let is_ptr = match self.get_kind(val_ty) {
            CTypeKind::Ptr => true,
            _ => false,
        };
        if is_struct && is_ptr {
            let text = "*(".to_owned().concat(&self.render_type(t)).concat(" *)").concat(
                &self.render(a),
            );
            self.inline_expr(text, t)
        } else {
            self.coerce_ptr_int(a, t)
        }
    }

    /// The arguments from `from` on at the parameters' types.
    fn coerce_args(&mut self, args: &Vec<ValueRef>, from: usize, params: &Vec<TypeRef>) -> (r: Vec<
        ValueRef,
    >)
        requires
            old(self).wf(),
            from <= args@.len(),
            old(self)@.cx.has_all(args@),
            old(self)@.cx.has_types(params@),
        ensures
            final(self).wf(),
            (final(self)@, r@) == old(self)@.coerce_args(
                args@.skip(from as int),
                params@,
                (args@.len() - from) as nat,
            ),
            final(self)@.cx.has_all(r@),
            old(self)@.within(final(self)@),
    {
        let ghost start = self@;
        let ghost actual = args@.skip(from as int);
        let mut out: Vec<ValueRef> = Vec::new();
        let mut i: usize = 0;
        let total = args.len();
        let count = total - from;
        while i < count
            invariant
                i <= count,
                count == total - from,
                total == args@.len(),
                from <= args@.len(),
                actual == args@.skip(from as int),
                self.wf(),
                start.within(self@),
                start.cx.has_all(args@),
                start.cx.has_types(params@),
                (self@, out@) == start.coerce_args(actual, params@, i as nat),
                self@.cx.has_all(out@),
            decreases count - i,
        {
            let a = args[from + i];
            assert(a == actual[i as int]);
            if i < params.len() {
                let v = self.coerce_arg(a, params[i]);
                out.push(v);
            } else {
                out.push(a);
            }
            i = i + 1;
        }
        out
    }

    /// Values as expressions.
    fn vars(&self, list: &Vec<ValueRef>) -> (r: Vec<CExpr>)
        requires
            self.wf(),
            self@.cx.has_all(list@),
        ensures
            exprs(r@) == self@.vars(list@),
    {
        let mut out: Vec<CExpr> = Vec::new();
        let mut i: usize = 0;
        while i < list.len()
            invariant
                i <= list@.len(),
                self.wf(),
                self@.cx.has_all(list@),
                out@.len() == i,
                forall|k: int| 0 <= k < i ==> (#[trigger] out@[k])@ == self@.var(list@[k]),
            decreases list@.len() - i,
        {
            out.push(self.var(list[i]));
            i = i + 1;
        }
        assert(exprs(out@) =~= self@.vars(list@));
        out
    }

    /// Calls a function. Where its value is returned indirectly, the first
    /// argument is the place for it: the C function returns the value, which is
    /// then stored there.
    pub fn call(
        &mut self,
        llty: TypeRef,
        fn_abi: Option<&FnAbi>,
        fn_val: ValueRef,
        args: &Vec<ValueRef>,
    ) -> (r: ValueRef)
        requires
            old(self).wf(),
            old(self)@.can_call(llty, fn_val, args@),
        ensures
            final(self).wf(),
            (final(self)@, r) == old(self)@.call(llty, opt_abi(fn_abi), fn_val, args@),
            final(self)@.has(r),
            old(self)@.within(final(self)@),
    {
        let indirect = is_indirect(fn_abi);
        let from: usize = if indirect && args.len() > 0 {
            1
        } else {
            0
        };
        proof {
            assert(args@.skip(0) =~= args@);
        }
        let sig = self.cx.get_fn_sig(fn_val);
        let sig_ty = match sig {
            Some(t) => t,
            None => llty,
        };
        let ghost kind = self@.cx.kind(sig_ty);
        let (ret_ty, params) = match self.get_kind(sig_ty) {
            CTypeKind::Function { ret, args: params, .. } => (*ret, copy_types(params)),
            _ => (llty, Vec::new()),
        };
        assert(ret_ty == fn_ret(kind) && params@ == fn_params(kind));
        assert(self@.cx.has_types(params@) && self@.has_type(ret_ty));
        let coerced = self.coerce_args(args, from, &params);
        let arg_exprs = self.vars(&coerced);
        let f_raw = self.render(fn_val);
        let f = match sig {
            Some(_) => f_raw,
            None => "((".to_owned().concat(&self.render_type(llty)).concat(")").concat(
                &f_raw,
            ).concat(")"),
        };
        proof {
            assert(f@ == self@.callee_text(fn_val, llty));
        }
        let call = CExpr::call(&f, arg_exprs);
        let is_void = match self.get_kind(ret_ty) {
            CTypeKind::Void => true,
            _ => false,
        };
        if is_void {
            self.emit(CStmt::expr(call));
            match fn_abi {
                Some(abi) => {
                    if indirect {
                        let t = layout_to_c_type(&mut self.cx, &abi.ret.layout);
                        return self.cx.const_undef(t);
                    }
                },
                None => {},
            }
            let ptr_ty = self.cx.type_ptr();
            return self.cx.const_null(ptr_ty);
        }
        let result = self.new_temp_with_stmt(ret_ty, call);
        if indirect && args.len() > 0 {
            let sret = args[0];
            let pointer = self.render_type(ret_ty).concat(" *");
            let fill = CStmt::assign(CExpr::deref(&pointer, self.var(sret)), self.var(result));
            self.emit(fill);
            return sret;
        }
        if is_bool_ret(fn_abi) {
            let bool_ty = self.cx.type_bool();
            let e = CExpr::cast("_Bool", CExpr::paren(self.var(result)));
            return self.new_temp_with_stmt(bool_ty, e);
        }
        result
    }

    /// Calls a function and returns what it returns.
    pub fn tail_call(&mut self, llty: TypeRef, fn_abi: &FnAbi, llfn: ValueRef, args: &Vec<ValueRef>)
        requires
            old(self).wf(),
            old(self)@.can_call(llty, llfn, args@),
        ensures
            final(self).wf(),
            final(self)@ == old(self)@.tail_call(llty, *fn_abi, llfn, args@),
            old(self)@.within(final(self)@),
    {
        let old_sig = self.cx.get_fn_sig(llfn);
        let result = self.call(llty, Some(fn_abi), llfn, args);
        if self.retbuf_name().is_some() {
            self.ret_void();
            return;
        }
        match old_sig {
            Some(sig) => {
                assert(self@.fn_sig(llfn) == old(self)@.fn_sig(llfn));
                assert(self@.cx.kind(sig) is Function);
                let ret_ty = match self.get_kind(sig) {
                    CTypeKind::Function { ret, .. } => *ret,
                    _ => sig,
                };
                let is_void = match self.get_kind(ret_ty) {
                    CTypeKind::Void => true,
                    _ => false,
                };
                if is_void {
                    self.ret_void();
                } else {
                    self.ret(result);
                }
            },
            None => {
                let _void = self.intern_type(CTypeKind::Void);
                self.ret_void();
            },
        }
    }

    /// Puts the function's handler first in the chain of handlers.
    fn push_handler(&mut self, catch_label: &str)
        requires
            old(self).wf(),
        ensures
            final(self).wf(),
            final(self)@ == old(self)@.push_handler(catch_label@),
    {
        self.emit(
            CStmt::assign(
                CExpr::field(CExpr::var("__unwind_ctx"), "prev"),
                CExpr::var("__rustc_unwind_chain"),
            ),
        );
        self.emit(
            CStmt::assign(
                CExpr::field(CExpr::var("__unwind_ctx"), "exception_ptr"),
                CExpr::cast("void *", CExpr::lit("0")),
            ),
        );
        self.emit(
            CStmt::assign(
                CExpr::var("__rustc_unwind_chain"),
                CExpr::addr_of(CExpr::var("__unwind_ctx")),
            ),
        );
        let text =
            "if (__rustc_setjmp(__unwind_ctx.buf) != 0) { __exn_ptr = __unwind_ctx.exception_ptr; __rustc_unwind_chain = __unwind_ctx.prev; goto ".to_owned().concat(
        catch_label).concat("; }");
        self.emit(CStmt::Raw(text));
    }

    /// Declares what a function with calls that can unwind needs, the first
    /// time.
    fn begin_invoke(&mut self)
        requires
            old(self).wf(),
            old(self)@.is_open(),
        ensures
            final(self).wf(),
            final(self)@ == old(self)@.begin_invoke(),
            old(self)@.within(final(self)@),
    {
        let has_invoke = match self.cx.get_open(&self.current_fn) {
            Some(f) => f.has_invoke,
            None => true,
        };
        if !has_invoke {
            self.add_local_decl("void *__exn_ptr;".to_owned());
            self.add_local_decl("struct __rustc_unwind_context __unwind_ctx;".to_owned());
        }
        self.cx.set_has_invoke(&self.current_fn);
    }

    /// Calls a function that can unwind: goes on at `then`, or at `catch` with
    /// the exception.
    pub fn invoke(
        &mut self,
        llty: TypeRef,
        fn_abi: Option<&FnAbi>,
        llfn: ValueRef,
        args: &Vec<ValueRef>,
        then: BasicBlockId,
        catch: BasicBlockId,
    ) -> (r: ValueRef)
        requires
            old(self).wf(),
            old(self)@.is_open(),
            old(self)@.can_call(llty, llfn, args@),
        ensures
            final(self).wf(),
            (final(self)@, r) == old(self)@.invoke(
                llty,
                opt_abi(fn_abi),
                llfn,
                args@,
                then,
                catch,
            ),
            final(self)@.has(r),
            old(self)@.within(final(self)@),
    {
        self.begin_invoke();
        let catch_label = self.block_label(catch);
        let then_label = self.block_label(then);
        self.push_handler(&catch_label);
        let result = self.call(llty, fn_abi, llfn, args);
        self.emit(
            CStmt::assign(
                CExpr::var("__rustc_unwind_chain"),
                CExpr::field(CExpr::var("__unwind_ctx"), "prev"),
            ),
        );
        self.emit(CStmt::goto(&then_label));
        self.terminate();
        result
    }
}

// --- Laws ---

/// What a function with calls that can unwind needs is declared once.
pub proof fn unwinding_is_set_up_once(b: Bx)
    requires
        b.is_open(),
        b.cx.module.open[b.func].name == b.func,
    ensures
        b.begin_invoke().begin_invoke() == b.begin_invoke(),
{
    let b1 = b.begin_invoke();
    assert(b1.cx.module.open[b.func].has_invoke);
    assert(b1.begin_invoke().cx.module.open =~= b1.cx.module.open);
}

/// A call passes as many arguments as it is given, but for the place of a value
/// that is returned indirectly.
pub proof fn calls_pass_every_argument(
    b: Bx,
    abi: Option<FnAbi>,
    args: Seq<ValueRef>,
    params: Seq<TypeRef>,
)
    ensures
        ({
            let actual = actual_args(abi, args);
            &&& b.coerce_args(actual, params, actual.len()).1.len() == actual.len()
            &&& actual.len() == (if returns_indirectly(abi) && args.len() > 0 {
                args.len() - 1
            } else {
                args.len() as int
            })
        }),
{
    let actual = actual_args(abi, args);
    coerced_len(b, actual, params, actual.len());
}

proof fn coerced_len(b: Bx, args: Seq<ValueRef>, params: Seq<TypeRef>, n: nat)
    ensures
        b.coerce_args(args, params, n).1.len() == n,
    decreases n,
{
    if n > 0 {
        coerced_len(b, args, params, (n - 1) as nat);
    }
}

} // verus!
