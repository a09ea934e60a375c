//! The builder: emits C statements into the current basic block, and keeps
//! intermediate results in temporaries.
use vstd::prelude::*;

use crate::c_ast::{CBinOp, CExpr, CStmt, Expr, Stmt};
use crate::context::{CodegenCx, Cx};
use crate::meaning::{unsigned_binop_gives, unsigned_result, Meaning};
use crate::module::BasicBlockId;
use crate::text::Text;
use crate::types::{kind_ok, CTypeKind, Kind, TypeRef};
use crate::values::{CValueKind, ValKind, ValueRef};

verus! {

/// The state of a builder, as contracts speak of it.
#[verifier::ext_equal]
pub struct Bx {
    pub cx: Cx,
    /// The current block.
    pub bb: BasicBlockId,
    /// The function of the current block.
    pub func: Text,
}

/// The kind of the unsigned type of the width of a signed one.
pub open spec fn unsigned_kind(k: Kind) -> Option<Kind> {
    match k {
        Kind::Int { bits, signed: true } => Some(Kind::Int { bits, signed: false }),
        Kind::PtrWidth { signed: true } => Some(Kind::PtrWidth { signed: false }),
        _ => None,
    }
}

/// Whether a C cast is needed between a value of kind `src` and a place of kind
/// `dst`: one is a pointer and the other an integer.
pub open spec fn needs_ptr_cast(src: Kind, dst: Kind) -> bool {
    ||| src is Ptr && (dst is PtrWidth || dst is Int)
    ||| (src is PtrWidth || src is Int) && dst is Ptr
}

/// What the basic operations of a builder do.
impl Bx {
    /// Whether a value is one of the context.
    pub open spec fn has(self, v: ValueRef) -> bool {
        self.cx.has(v)
    }

    /// Whether a type is one of the context.
    pub open spec fn has_type(self, t: TypeRef) -> bool {
        self.cx.has_type(t)
    }

    /// Whether every type and every value of `self` is one of `later` too, and
    /// both are at the same place.
    pub open spec fn within(self, later: Bx) -> bool {
        &&& self.cx.within(later.cx)
        &&& self.bb == later.bb
        &&& self.func == later.func
    }

    /// Changes the context.
    pub open spec fn with_cx(self, cx: Cx) -> Bx {
        Bx { cx, ..self }
    }

    /// A value as an expression.
    pub open spec fn var(self, v: ValueRef) -> Expr {
        Expr::Var(self.cx.text(v))
    }

    /// The text of a type.
    pub open spec fn type_str(self, t: TypeRef) -> Text {
        self.cx.type_str(t)
    }

    /// The type of a value.
    pub open spec fn type_of(self, v: ValueRef) -> TypeRef {
        self.cx.type_of(v)
    }

    /// The kind of the type of a value.
    pub open spec fn kind_of(self, v: ValueRef) -> Kind {
        self.cx.kind_of(v)
    }

    /// Interns a type.
    pub open spec fn intern(self, k: Kind) -> Bx {
        self.with_cx(self.cx.intern(k))
    }

    /// Appends a statement to the current block.
    pub open spec fn emit(self, s: Stmt) -> Bx {
        self.with_cx(self.cx.with_module(self.cx.module.emit(self.func, self.bb, s)))
    }

    /// Declares a local of the current function.
    pub open spec fn local(self, decl: Text) -> Bx {
        self.with_cx(self.cx.with_module(self.cx.module.local(self.func, decl)))
    }

    /// Marks the current block as terminated.
    pub open spec fn terminate(self) -> Bx {
        self.with_cx(self.cx.with_module(self.cx.module.terminate(self.func, self.bb)))
    }

    /// The label of a block.
    pub open spec fn label(self, bb: BasicBlockId) -> Text {
        self.cx.module.label(self.func, bb)
    }

    /// Adds a value.
    pub open spec fn value(self, kind: ValKind, t: TypeRef) -> (Bx, ValueRef) {
        (self.with_cx(self.cx.value(kind, t)), self.cx.next())
    }

    /// Adds a temporary and declares it as a local, written by its type.
    pub open spec fn typed_temp(self, t: TypeRef) -> (Bx, ValueRef) {
        let (b1, v) = self.value(ValKind::Temp, t);
        (b1.local(b1.type_str(t) + " "@ + b1.cx.text(v) + ";"@), v)
    }

    /// Adds a temporary and declares it as a local.
    pub open spec fn declared_temp(self, t: TypeRef) -> (Bx, ValueRef) {
        let (b1, v) = self.value(ValKind::Temp, t);
        (b1.local(b1.cx.decl_str(t, b1.cx.text(v)) + ";"@), v)
    }

    /// Adds a temporary that holds an expression.
    pub open spec fn temp_stmt(self, t: TypeRef, e: Expr) -> (Bx, ValueRef) {
        let (b1, v) = self.declared_temp(t);
        (b1.emit(Stmt::Assign(b1.var(v), e)), v)
    }

    /// A binary operation, at the type of the left operand.
    pub open spec fn binop(self, op: CBinOp, l: ValueRef, r: ValueRef) -> (Bx, ValueRef) {
        self.temp_stmt(self.type_of(l), Expr::binop(self.var(l), op, self.var(r)))
    }

    /// A cast.
    pub open spec fn cast(self, v: ValueRef, t: TypeRef) -> (Bx, ValueRef) {
        self.temp_stmt(t, Expr::cast(self.type_str(t), self.var(v)))
    }

    /// A cast between a pointer and an integer, where one is needed.
    pub open spec fn coerce(self, v: ValueRef, t: TypeRef) -> (Bx, ValueRef) {
        if self.type_of(v) != t && needs_ptr_cast(self.kind_of(v), self.cx.kind(t)) {
            self.cast(v, t)
        } else {
            (self, v)
        }
    }

    /// Interns the unsigned type of the width of a signed one.
    pub open spec fn unsigned(self, t: TypeRef) -> (Bx, Option<TypeRef>) {
        match unsigned_kind(self.cx.kind(t)) {
            Some(k) => (self.intern(k), Some(self.cx.ty(k))),
            None => (self, None),
        }
    }

    /// A binary operation on the operands as unsigned numbers.
    pub open spec fn unsigned_binop(self, op: CBinOp, l: ValueRef, r: ValueRef) -> (Bx, ValueRef) {
        let t = self.type_of(l);
        let (b, u) = self.unsigned(t);
        match u {
            Some(u) => b.temp_stmt(
                t,
                Expr::cast(
                    b.type_str(t),
                    Expr::paren(
                        Expr::binop(
                            Expr::cast(b.type_str(u), b.var(l)),
                            op,
                            Expr::cast(b.type_str(u), b.var(r)),
                        ),
                    ),
                ),
            ),
            None => self.binop(op, l, r),
        }
    }
}

/// The C code builder.
pub struct Builder {
    pub cx: CodegenCx,
    pub current_bb: BasicBlockId,
    pub current_fn: String,
}

impl View for Builder {
    type V = Bx;

    open spec fn view(&self) -> Bx {
        Bx { cx: self.cx@, bb: self.current_bb, func: self.current_fn@ }
    }
}

/// The kinds of memory ordering.
#[derive(Clone, Copy, PartialEq, Eq, Structural, Debug)]
pub enum AtomicOrder {
    Relaxed,
    Acquire,
    Release,
    AcqRel,
    SeqCst,
}

/// The name of a memory ordering in C.
pub open spec fn order_text(order: AtomicOrder) -> Text {
    match order {
        AtomicOrder::Relaxed => "memory_order_relaxed"@,
        AtomicOrder::Acquire => "memory_order_acquire"@,
        AtomicOrder::Release => "memory_order_release"@,
        AtomicOrder::AcqRel => "memory_order_acq_rel"@,
        AtomicOrder::SeqCst => "memory_order_seq_cst"@,
    }
}

impl Builder {
    /// The invariant of a builder.
    pub open spec fn wf(&self) -> bool {
        self.cx.wf()
    }

    /// A builder at a block.
    pub fn build(cx: CodegenCx, llbb: BasicBlockId) -> (r: Builder)
        requires
            cx.wf(),
        ensures
            r.wf(),
            r@ == (Bx {
                cx: cx@,
                bb: llbb,
                func: if llbb.0 < cx@.module.blocks.len() {
                    cx@.module.blocks[llbb.0 as int].func
                } else {
                    Seq::empty()
                },
            }),
    {
        let current_fn = cx.module.block_function(llbb);
        Builder { cx, current_bb: llbb, current_fn }
    }

    /// Gives the context back.
    pub fn into_cx(self) -> (r: CodegenCx)
        requires
            self.wf(),
        ensures
            r.wf(),
            r@ == self@.cx,
    {
        self.cx
    }

    /// The current block.
    pub fn llbb(&self) -> (r: BasicBlockId)
        ensures
            r == self@.bb,
    {
        self.current_bb
    }

    /// Goes on in another block of the same function.
    pub fn switch_to_block(&mut self, llbb: BasicBlockId)
        requires
            old(self).wf(),
        ensures
            final(self).wf(),
            final(self)@ == (Bx { bb: llbb, ..old(self)@ }),
    {
        self.current_bb = llbb;
    }

    /// Emits a statement into the current block.
    pub fn emit(&mut self, stmt: CStmt)
        requires
            old(self).wf(),
        ensures
            final(self).wf(),
            final(self)@ == old(self)@.emit(stmt@),
    {
        self.cx.emit(&self.current_fn, self.current_bb, stmt);
    }

    /// Declares a local of the current function.
    pub fn add_local_decl(&mut self, decl: String)
        requires
            old(self).wf(),
        ensures
            final(self).wf(),
            final(self)@ == old(self)@.local(decl@),
    {
        self.cx.add_local_decl(&self.current_fn, decl);
    }

    /// Marks the current block as terminated.
    pub fn terminate(&mut self)
        requires
            old(self).wf(),
        ensures
            final(self).wf(),
            final(self)@ == old(self)@.terminate(),
    {
        self.cx.set_terminated(&self.current_fn, self.current_bb);
    }

    /// Writes a value.
    pub fn render(&self, v: ValueRef) -> (r: String)
        requires
            self.wf(),
            self@.has(v),
        ensures
            r@ == self@.cx.text(v),
    {
        self.cx.render_value(v)
    }

    /// A value as an expression.
    pub fn var(&self, v: ValueRef) -> (r: CExpr)
        requires
            self.wf(),
            self@.has(v),
        ensures
            r@ == self@.var(v),
    {
        CExpr::Var(self.cx.render_value(v))
    }

    /// Writes a type.
    pub fn render_type(&self, t: TypeRef) -> (r: String)
        requires
            self.wf(),
            self@.has_type(t),
        ensures
            r@ == self@.type_str(t),
    {
        self.cx.render_type(t)
    }

    /// The type of a value.
    pub fn get_type(&self, v: ValueRef) -> (r: TypeRef)
        requires
            self.wf(),
            self@.has(v),
        ensures
            r == self@.type_of(v),
            self@.has_type(r),
    {
        self.cx.get_type(v)
    }

    /// The kind of a type.
    pub fn get_kind(&self, t: TypeRef) -> (r: &CTypeKind)
        requires
            self.wf(),
            self@.has_type(t),
        ensures
            r@ == self@.cx.kind(t),
            kind_ok(r@, t.0 as int),
    {
        self.cx.get_kind(t)
    }

    /// Interns a type.
    pub fn intern_type(&mut self, kind: CTypeKind) -> (r: TypeRef)
        requires
            old(self).wf(),
            kind_ok(kind@, old(self)@.cx.types.len() as int),
        ensures
            final(self).wf(),
            final(self)@ == old(self)@.intern(kind@),
            r == old(self)@.cx.ty(kind@),
            final(self)@.has_type(r),
            final(self)@.cx.kind(r) == kind@,
            old(self)@.within(final(self)@),
    {
        self.cx.intern_type(kind)
    }

    /// Adds a temporary.
    pub fn new_temp(&mut self, t: TypeRef) -> (r: ValueRef)
        requires
            old(self).wf(),
            old(self)@.has_type(t),
        ensures
            final(self).wf(),
            (final(self)@, r) == old(self)@.value(ValKind::Temp, t),
            final(self)@.has(r),
            old(self)@.within(final(self)@),
    {
        self.cx.new_temp(t)
    }

    /// Adds an expression that is written where it is used.
    pub fn inline_expr(&mut self, text: String, t: TypeRef) -> (r: ValueRef)
        requires
            old(self).wf(),
            old(self)@.has_type(t),
        ensures
            final(self).wf(),
            (final(self)@, r) == old(self)@.value(ValKind::InlineExpr(text@), t),
            final(self)@.has(r),
            old(self)@.within(final(self)@),
    {
        self.cx.intern_value(CValueKind::InlineExpr(text), t)
    }

    /// Adds a temporary and declares it as a local, written by its type.
    pub fn typed_temp(&mut self, t: TypeRef) -> (r: ValueRef)
        requires
            old(self).wf(),
            old(self)@.has_type(t),
        ensures
            final(self).wf(),
            (final(self)@, r) == old(self)@.typed_temp(t),
            final(self)@.has(r),
            old(self)@.within(final(self)@),
    {
        let v = self.new_temp(t);
        let decl = self.render_type(t).concat(" ").concat(&self.render(v)).concat(";");
        self.add_local_decl(decl);
        v
    }

    /// Adds a temporary and declares it as a local.
    pub fn declared_temp(&mut self, t: TypeRef) -> (r: ValueRef)
        requires
            old(self).wf(),
            old(self)@.has_type(t),
        ensures
            final(self).wf(),
            (final(self)@, r) == old(self)@.declared_temp(t),
            final(self)@.has(r),
            old(self)@.within(final(self)@),
    {
        let v = self.new_temp(t);
        let name = self.render(v);
        let decl = self.cx.render_type_decl(t, &name).concat(";");
        self.add_local_decl(decl);
        v
    }

    /// Adds a temporary that holds an expression.
    pub fn new_temp_with_stmt(&mut self, t: TypeRef, expr: CExpr) -> (r: ValueRef)
        requires
            old(self).wf(),
            old(self)@.has_type(t),
        ensures
            final(self).wf(),
            (final(self)@, r) == old(self)@.temp_stmt(t, expr@),
            final(self)@.has(r),
            old(self)@.within(final(self)@),
    {
        let v = self.declared_temp(t);
        let target = self.var(v);
        self.emit(CStmt::assign(target, expr));
        v
    }

    /// Emits a binary operation, at the type of the left operand.
    pub fn binop(&mut self, op: CBinOp, lhs: ValueRef, rhs: ValueRef) -> (r: ValueRef)
        requires
            old(self).wf(),
            old(self)@.has(lhs),
            old(self)@.has(rhs),
        ensures
            final(self).wf(),
            (final(self)@, r) == old(self)@.binop(op, lhs, rhs),
            final(self)@.has(r),
            old(self)@.within(final(self)@),
    {
        let t = self.get_type(lhs);
        let e = CExpr::binop(self.var(lhs), op, self.var(rhs));
        self.new_temp_with_stmt(t, e)
    }

    /// Emits a cast.
    pub fn cast(&mut self, val: ValueRef, dest_ty: TypeRef) -> (r: ValueRef)
        requires
            old(self).wf(),
            old(self)@.has(val),
            old(self)@.has_type(dest_ty),
        ensures
            final(self).wf(),
            (final(self)@, r) == old(self)@.cast(val, dest_ty),
            final(self)@.has(r),
            old(self)@.within(final(self)@),
    {
        let e = CExpr::cast(&self.render_type(dest_ty), self.var(val));
        self.new_temp_with_stmt(dest_ty, e)
    }

    /// Casts a value where one of its type and `dest_ty` is a pointer and the
    /// other an integer. Any other value is returned as it is.
    pub fn coerce_ptr_int(&mut self, val: ValueRef, dest_ty: TypeRef) -> (r: ValueRef)
        requires
            old(self).wf(),
            old(self)@.has(val),
            old(self)@.has_type(dest_ty),
        ensures
            final(self).wf(),
            (final(self)@, r) == old(self)@.coerce(val, dest_ty),
            final(self)@.has(r),
            old(self)@.within(final(self)@),
    {
        let src_ty = self.get_type(val);
        if src_ty.0 == dest_ty.0 {
            return val;
        }
        let needs_cast = match (self.get_kind(src_ty), self.get_kind(dest_ty)) {
            (CTypeKind::Ptr, CTypeKind::PtrWidth { .. }) => true,
            (CTypeKind::Ptr, CTypeKind::Int { .. }) => true,
            (CTypeKind::PtrWidth { .. }, CTypeKind::Ptr) => true,
            (CTypeKind::Int { .. }, CTypeKind::Ptr) => true,
            _ => false,
        };
        if needs_cast {
            self.cast(val, dest_ty)
        } else {
            val
        }
    }

    /// The unsigned type of the width of a signed integer type.
    pub fn unsigned_type(&mut self, t: TypeRef) -> (r: Option<TypeRef>)
        requires
            old(self).wf(),
            old(self)@.has_type(t),
        ensures
            final(self).wf(),
            (final(self)@, r) == old(self)@.unsigned(t),
            r matches Some(u) ==> final(self)@.has_type(u) && final(self)@.cx.kind(u)
                == unsigned_kind(old(self)@.cx.kind(t))->0,
            old(self)@.within(final(self)@),
    {
        let kind = match self.get_kind(t) {
            CTypeKind::Int { bits, signed: true } => CTypeKind::Int { bits: *bits, signed: false },
            CTypeKind::PtrWidth { signed: true } => CTypeKind::PtrWidth { signed: false },
            _ => {
                return None;
            },
        };
        Some(self.intern_type(kind))
    }

    /// Emits a binary operation on the operands as unsigned numbers.
    pub fn unsigned_binop(&mut self, op: CBinOp, lhs: ValueRef, rhs: ValueRef) -> (r: ValueRef)
        requires
            old(self).wf(),
            old(self)@.has(lhs),
            old(self)@.has(rhs),
        ensures
            final(self).wf(),
            (final(self)@, r) == old(self)@.unsigned_binop(op, lhs, rhs),
            final(self)@.has(r),
            old(self)@.within(final(self)@),
            old(self)@.then_gives(
                final(self)@,
                r,
                |m: Meaning, n: int| unsigned_result(old(self)@, op, lhs, rhs, m, n),
            ),
    {
        let ghost before = self@;
        proof {
            self.cx.wf_is_consistent();
        }
        let t = self.get_type(lhs);
        if let Some(u) = self.unsigned_type(t) {
            proof {
                unsigned_binop_gives(before, op, lhs, rhs);
            }
            let ut = self.render_type(u);
            let e = CExpr::cast(
                &self.render_type(t),
                CExpr::paren(
                    CExpr::binop(
                        CExpr::cast(&ut, self.var(lhs)),
                        op,
                        CExpr::cast(&ut, self.var(rhs)),
                    ),
                ),
            );
            self.new_temp_with_stmt(t, e)
        } else {
            proof {
                unsigned_binop_gives(before, op, lhs, rhs);
            }
            self.binop(op, lhs, rhs)
        }
    }

    /// The name of a memory ordering in C.
    pub fn atomic_ordering_to_c(order: AtomicOrder) -> (r: &'static str)
        ensures
            r@ == order_text(order),
    {
        match order {
            AtomicOrder::Relaxed => "memory_order_relaxed",
            AtomicOrder::Acquire => "memory_order_acquire",
            AtomicOrder::Release => "memory_order_release",
            AtomicOrder::AcqRel => "memory_order_acq_rel",
            AtomicOrder::SeqCst => "memory_order_seq_cst",
        }
    }

    /// The label of a block.
    pub fn block_label(&self, bb: BasicBlockId) -> (r: String)
        requires
            self.wf(),
        ensures
            r@ == self@.label(bb),
    {
        self.cx.block_label(&self.current_fn, bb)
    }
}

} // verus!
