//! Atomic operations.
use vstd::prelude::*;

use crate::builder::{order_text, AtomicOrder, Builder, Bx};
use crate::c_ast::{CBinOp, CExpr, CStmt, CUnaryOp, Expr, Stmt};
use crate::text::Text;
use crate::types::{Kind, TypeRef};
use crate::values::ValueRef;

verus! {

/// How a value is changed atomically.
#[derive(Clone, Copy, PartialEq, Eq, Structural, Debug)]
pub enum AtomicRmwBinOp {
    AtomicXchg,
    AtomicAdd,
    AtomicSub,
    AtomicAnd,
    AtomicNand,
    AtomicOr,
    AtomicXor,
    AtomicMax,
    AtomicMin,
    AtomicUMax,
    AtomicUMin,
}

/// Which threads a fence is for.
#[derive(Clone, Copy, PartialEq, Eq, Structural, Debug)]
pub enum SynchronizationScope {
    SingleThread,
    CrossThread,
}

/// The function of a fence.
pub open spec fn fence_name(scope: SynchronizationScope) -> Text {
    match scope {
        SynchronizationScope::SingleThread => "atomic_signal_fence"@,
        SynchronizationScope::CrossThread => "atomic_thread_fence"@,
    }
}

/// A pointer to an atomic value of a type.
pub open spec fn atomic_ptr(t: Text, p: Expr) -> Expr {
    Expr::cast("_Atomic("@ + t + ") *"@, p)
}

/// The C function of an atomic change, where there is one.
pub open spec fn rmw_function(op: AtomicRmwBinOp) -> Option<Text> {
    match op {
        AtomicRmwBinOp::AtomicXchg => Some("atomic_exchange"@),
        AtomicRmwBinOp::AtomicAdd => Some("atomic_fetch_add"@),
        AtomicRmwBinOp::AtomicSub => Some("atomic_fetch_sub"@),
        AtomicRmwBinOp::AtomicAnd => Some("atomic_fetch_and"@),
        AtomicRmwBinOp::AtomicOr => Some("atomic_fetch_or"@),
        AtomicRmwBinOp::AtomicXor => Some("atomic_fetch_xor"@),
        _ => None,
    }
}

/// One of two expressions, by how they compare.
pub open spec fn pick_text(a: Text, sign: Text, b: Text) -> Text {
    a + sign + b + " ? "@ + a + " : "@ + b
}

/// The sign by which a minimum or a maximum picks.
pub open spec fn pick_sign(op: AtomicRmwBinOp) -> Text {
    if op is AtomicMin || op is AtomicUMin {
        " < "@
    } else {
        " > "@
    }
}

/// The value that a loop writes, given the value before and the operand. An
/// unsigned minimum or maximum of a signed type compares at the unsigned type.
pub open spec fn rmw_value(op: AtomicRmwBinOp, o: Text, s: Text, t: Text, ut: Option<Text>) -> Expr {
    if op is AtomicNand {
        Expr::unary(
            CUnaryOp::BitNot,
            Expr::paren(Expr::binop(Expr::Var(o), CBinOp::BitAnd, Expr::Var(s))),
        )
    } else {
        match ut {
            Some(ut) => {
                let cast = "("@ + ut + ")"@;
                Expr::Raw(
                    "("@ + t + ")("@ + pick_text(cast + o, pick_sign(op), cast + s) + ")"@,
                )
            },
            None => Expr::Raw(pick_text(o, pick_sign(op), s)),
        }
    }
}

/// What the atomic operations do.
impl Bx {
    pub open spec fn atomic_load(self, t: TypeRef, ptr: ValueRef, size: u64) -> (Bx, ValueRef) {
        let ts = self.type_str(t);
        self.temp_stmt(
            t,
            if size > 8 {
                Expr::call(
                    "__sync_val_compare_and_swap"@,
                    seq![
                        Expr::cast(ts + " *"@, self.var(ptr)),
                        Expr::Lit("0"@),
                        Expr::Lit("0"@),
                    ],
                )
            } else {
                Expr::call("atomic_load"@, seq![atomic_ptr(ts, self.var(ptr))])
            },
        )
    }

    pub open spec fn atomic_store(self, val: ValueRef, ptr: ValueRef, size: u64) -> Bx {
        let t = self.type_of(val);
        let ts = self.type_str(t);
        let p = self.var(ptr);
        let v = self.var(val);
        if size > 8 {
            let (b, o) = self.typed_temp(t);
            b.emit(
                Stmt::DoWhile {
                    body: seq![Stmt::Assign(b.var(o), Expr::deref(ts + " *"@, p))],
                    cond: Expr::unary(
                        CUnaryOp::LogNot,
                        Expr::call(
                            "__sync_bool_compare_and_swap"@,
                            seq![Expr::cast(ts + " *"@, p), b.var(o), v],
                        ),
                    ),
                },
            )
        } else {
            self.emit(Stmt::Expr(Expr::call("atomic_store"@, seq![atomic_ptr(ts, p), v])))
        }
    }

    pub open spec fn compare_exchange(self, dst: ValueRef, expected: ValueRef, src: ValueRef) -> (
        Bx,
        (ValueRef, ValueRef),
    ) {
        let t = self.type_of(expected);
        let b1 = self.intern(Kind::Bool);
        let (b2, o) = b1.temp_stmt(t, b1.var(expected));
        let (b3, ok) = b2.temp_stmt(
            self.cx.ty(Kind::Bool),
            Expr::call(
                "atomic_compare_exchange_strong"@,
                seq![
                    atomic_ptr(b1.type_str(t), b1.var(dst)),
                    Expr::addr_of(b2.var(o)),
                    b1.var(src),
                ],
            ),
        );
        (b3, (o, ok))
    }

    /// A loop that swaps until no other write came between.
    pub open spec fn retry_swap(
        self,
        t: TypeRef,
        dst: ValueRef,
        old_val: ValueRef,
        desired: ValueRef,
        new_val: Expr,
    ) -> Bx {
        let p = atomic_ptr(self.type_str(t), self.var(dst));
        self.emit(
            Stmt::Assign(self.var(old_val), Expr::call("atomic_load"@, seq![p])),
        ).emit(
            Stmt::DoWhile {
                body: seq![Stmt::Assign(self.var(desired), new_val)],
                cond: Expr::unary(
                    CUnaryOp::LogNot,
                    Expr::call(
                        "atomic_compare_exchange_weak"@,
                        seq![p, Expr::addr_of(self.var(old_val)), self.var(desired)],
                    ),
                ),
            },
        )
    }

    pub open spec fn atomic_rmw(self, op: AtomicRmwBinOp, dst: ValueRef, src: ValueRef) -> (
        Bx,
        ValueRef,
    ) {
        let t = self.type_of(src);
        let ts = self.type_str(t);
        match rmw_function(op) {
            Some(f) => self.temp_stmt(
                t,
                Expr::call(f, seq![atomic_ptr(ts, self.var(dst)), self.var(src)]),
            ),
            None => {
                let (b1, old_val) = self.typed_temp(t);
                let (b2, desired) = b1.typed_temp(t);
                let (b3, u) = if op is AtomicUMin || op is AtomicUMax {
                    b2.unsigned(t)
                } else {
                    (b2, None)
                };
                let ut = match u {
                    Some(u) => Some(b3.type_str(u)),
                    None => None,
                };
                let new_val = rmw_value(op, b3.cx.text(old_val), b3.cx.text(src), ts, ut);
                (b3.retry_swap(t, dst, old_val, desired, new_val), old_val)
            },
        }
    }
}

/// Writes a pointer to an atomic value of a type.
fn atomic_cast(t: &str, p: CExpr) -> (r: CExpr)
    ensures
        r@ == atomic_ptr(t@, p@),
{
    CExpr::cast(&"_Atomic(".to_owned().concat(t).concat(") *"), p)
}

/// Writes one of two expressions, by how they compare.
fn render_pick(a: &str, sign: &str, b: &str) -> (r: String)
    ensures
        r@ == pick_text(a@, sign@, b@),
{
    a.to_owned().concat(sign).concat(b).concat(" ? ").concat(a).concat(" : ").concat(b)
}

impl Builder {
    /// Loads a value atomically. More than 8 bytes are read by a comparison that
    /// changes nothing, which needs no library.
    pub fn atomic_load(&mut self, ty: TypeRef, ptr: ValueRef, size: u64) -> (r: ValueRef)
        requires
            old(self).wf(),
            old(self)@.has_type(ty),
            old(self)@.has(ptr),
        ensures
            final(self).wf(),
            (final(self)@, r) == old(self)@.atomic_load(ty, ptr, size),
            final(self)@.has(r),
            old(self)@.within(final(self)@),
    {
        let t = self.render_type(ty);
        let p = self.var(ptr);
        let e = if size > 8 {
            CExpr::call3(
                "__sync_val_compare_and_swap",
                CExpr::cast(&t.concat(" *"), p),
                CExpr::lit("0"),
                CExpr::lit("0"),
            )
        } else {
            CExpr::call1("atomic_load", atomic_cast(&t, p))
        };
        self.new_temp_with_stmt(ty, e)
    }

    /// Stores a value atomically. More than 8 bytes are written by a loop that
    /// compares and swaps, which needs no library.
    pub fn atomic_store(&mut self, val: ValueRef, ptr: ValueRef, size: u64)
        requires
            old(self).wf(),
            old(self)@.has(val),
            old(self)@.has(ptr),
        ensures
            final(self).wf(),
            final(self)@ == old(self)@.atomic_store(val, ptr, size),
            old(self)@.within(final(self)@),
    {
        let ty = self.get_type(val);
        let t = self.render_type(ty);
        let p = self.render(ptr);
        let v = self.var(val);
        if size > 8 {
            let old_val = self.typed_temp(ty);
            let pointer = t.concat(" *");
            let body = CStmt::assign(
                self.var(old_val),
                CExpr::deref(&pointer, CExpr::var(&p)),
            );
            let cond = CExpr::unary(
                CUnaryOp::LogNot,
                CExpr::call3(
                    "__sync_bool_compare_and_swap",
                    CExpr::cast(&pointer, CExpr::var(&p)),
                    self.var(old_val),
                    v,
                ),
            );
            self.emit(CStmt::do_while(body, cond));
        } else {
            let e = CExpr::call2("atomic_store", atomic_cast(&t, CExpr::Var(p)), v);
            self.emit(CStmt::expr(e));
        }
    }

    /// Compares and swaps atomically: the value before, and whether it was swapped.
    pub fn atomic_cmpxchg(&mut self, dst: ValueRef, expected: ValueRef, src: ValueRef) -> (r: (ValueRef, ValueRef))
        requires
            old(self).wf(),
            old(self)@.has(dst),
            old(self)@.has(expected),
            old(self)@.has(src),
        ensures
            final(self).wf(),
            (final(self)@, r) == old(self)@.compare_exchange(dst, expected, src),
            final(self)@.has(r.0),
            final(self)@.has(r.1),
            old(self)@.within(final(self)@),
    {
        let ty = self.get_type(expected);
        let bool_ty = self.cx.type_bool();
        let t = self.render_type(ty);
        let d = self.var(dst);
        let s = self.var(src);
        let start = self.var(expected);
        let old_val = self.new_temp_with_stmt(ty, start);
        let e = CExpr::call3(
            "atomic_compare_exchange_strong",
            atomic_cast(&t, d),
            CExpr::addr_of(self.var(old_val)),
            s,
        );
        let success = self.new_temp_with_stmt(bool_ty, e);
        (old_val, success)
    }

    /// Swaps in a loop until no other write came between. Gives the value before.
    fn retry_swap(&mut self, ty: TypeRef, dst: ValueRef, old_val: ValueRef, desired: ValueRef, new_val: CExpr)
        requires
            old(self).wf(),
            old(self)@.has_type(ty),
            old(self)@.has(dst),
            old(self)@.has(old_val),
            old(self)@.has(desired),
        ensures
            final(self).wf(),
            final(self)@ == old(self)@.retry_swap(ty, dst, old_val, desired, new_val@),
            old(self)@.within(final(self)@),
    {
        let t = self.render_type(ty);
        let first = CStmt::assign(
            self.var(old_val),
            CExpr::call1("atomic_load", atomic_cast(&t, self.var(dst))),
        );
        let cond = CExpr::unary(
            CUnaryOp::LogNot,
            CExpr::call3(
                "atomic_compare_exchange_weak",
                atomic_cast(&t, self.var(dst)),
                CExpr::addr_of(self.var(old_val)),
                self.var(desired),
            ),
        );
        let body = CStmt::assign(self.var(desired), new_val);
        self.emit(first);
        self.emit(CStmt::do_while(body, cond));
    }

    /// Changes a value atomically and gives the value before. What C has no function
    /// for is done in a loop.
    pub fn atomic_rmw(&mut self, op: AtomicRmwBinOp, dst: ValueRef, src: ValueRef) -> (r: ValueRef)
        requires
            old(self).wf(),
            old(self)@.has(dst),
            old(self)@.has(src),
        ensures
            final(self).wf(),
            (final(self)@, r) == old(self)@.atomic_rmw(op, dst, src),
            final(self)@.has(r),
            old(self)@.within(final(self)@),
    {
        let ty = self.get_type(src);
        let t = self.render_type(ty);
        let function = match op {
            AtomicRmwBinOp::AtomicXchg => Some("atomic_exchange"),
            AtomicRmwBinOp::AtomicAdd => Some("atomic_fetch_add"),
            AtomicRmwBinOp::AtomicSub => Some("atomic_fetch_sub"),
            AtomicRmwBinOp::AtomicAnd => Some("atomic_fetch_and"),
            AtomicRmwBinOp::AtomicOr => Some("atomic_fetch_or"),
            AtomicRmwBinOp::AtomicXor => Some("atomic_fetch_xor"),
            _ => None,
        };
        if let Some(f) = function {
            let e = CExpr::call2(f, atomic_cast(&t, self.var(dst)), self.var(src));
            return self.new_temp_with_stmt(ty, e);
        }
        let old_val = self.typed_temp(ty);
        let desired = self.typed_temp(ty);
        let unsigned = match op {
            AtomicRmwBinOp::AtomicUMin => self.unsigned_type(ty),
            AtomicRmwBinOp::AtomicUMax => self.unsigned_type(ty),
            _ => None,
        };
        let ut = match unsigned {
            Some(u) => Some(self.render_type(u)),
            None => None,
        };
        let o = self.render(old_val);
        let s = self.render(src);
        let new_val = match op {
            AtomicRmwBinOp::AtomicNand => CExpr::unary(
                CUnaryOp::BitNot,
                CExpr::paren(CExpr::binop(CExpr::var(&o), CBinOp::BitAnd, CExpr::var(&s))),
            ),
            _ => {
                let less = match op {
                    AtomicRmwBinOp::AtomicMin => true,
                    AtomicRmwBinOp::AtomicUMin => true,
                    _ => false,
                };
                let sign = if less {
                    " < "
                } else {
                    " > "
                };
                match ut {
                    Some(ut) => {
                        let cast = "(".to_owned().concat(&ut).concat(")");
                        let a = cast.clone().concat(&o);
                        let b = cast.concat(&s);
                        CExpr::Raw(
                            "(".to_owned().concat(&t).concat(")(").concat(
                                &render_pick(&a, sign, &b),
                            ).concat(")"),
                        )
                    },
                    None => CExpr::Raw(render_pick(&o, sign, &s)),
                }
            },
        };
        self.retry_swap(ty, dst, old_val, desired, new_val);
        old_val
    }

    /// Orders memory accesses.
    pub fn atomic_fence(&mut self, order: AtomicOrder, scope: SynchronizationScope)
        requires
            old(self).wf(),
        ensures
            final(self).wf(),
            final(self)@ == old(self)@.emit(Stmt::Expr(Expr::call(fence_name(scope), seq![Expr::Var(order_text(order))]))),
            old(self)@.within(final(self)@),
    {
        let fence_fn = match scope {
            SynchronizationScope::SingleThread => "atomic_signal_fence",
            SynchronizationScope::CrossThread => "atomic_thread_fence",
        };
        let e = CExpr::call1(fence_fn, CExpr::var(Builder::atomic_ordering_to_c(order)));
        self.emit(CStmt::expr(e));
    }
}

} // verus!
