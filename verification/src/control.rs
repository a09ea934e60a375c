//! Control flow: basic blocks, branches and returns.
use vstd::prelude::*;

use crate::builder::{Builder, Bx};
use crate::c_ast::{cases_model, CExpr, CStmt, Expr, Stmt};
use crate::context::{sanitized, CodegenCx, Cx};
use crate::meaning::Meaning;
use crate::module::BasicBlockId;
use crate::text::{dec_is_injective, dec, dec_u32, dec_u64, decimal, same_text, Text};
use crate::transfers::{
    block_for, branches_follow_the_condition, jumps_go_to_the_block, switched_number,
    switches_find_the_case,
};
use crate::types::{int_name, CTypeKind, Kind};
use crate::values::{render_wide, wide_text, ValKind, ValueRef};

verus! {

/// The label of a block with a name.
pub open spec fn named_label(counter: u32, name: Text) -> Text {
    "bb_"@ + dec(counter as nat) + "_"@ + sanitized(name)
}

/// The label of a block.
pub open spec fn block_label_text(counter: u32, name: Text) -> Text {
    if name.len() == 0 {
        "bb"@ + dec(counter as nat)
    } else {
        named_label(counter, name)
    }
}

/// What a switch tests: a signed value is compared by its bits.
pub open spec fn switch_expr(k: Kind, v: Expr) -> Expr {
    match k {
        Kind::Int { bits, signed: true } => Expr::cast(int_name(bits as nat, false), v),
        Kind::PtrWidth { signed: true } => Expr::cast("__rustc_usize"@, v),
        _ => v,
    }
}

/// The constant of a case.
pub open spec fn case_expr(c: u128) -> Expr {
    if c > u64::MAX {
        Expr::Raw(wide_text(c as nat))
    } else {
        Expr::Lit(dec(c as nat) + "ULL"@)
    }
}

/// The statement that hands an exception on to the next handler.
pub open spec fn resume_text(exn: Text) -> Text {
    "if (__rustc_unwind_chain) { __rustc_unwind_chain->exception_ptr = "@ + exn
        + "; __rustc_longjmp(__rustc_unwind_chain->buf, 1); } else { abort(); }"@
}

/// The number of the block that stands for none.
pub open spec fn no_block() -> BasicBlockId {
    BasicBlockId(u32::MAX)
}

impl Cx {
    /// Adds a block to an open function.
    pub open spec fn add_block(self, func: Text, label: Text) -> (Cx, BasicBlockId) {
        if self.module.open.contains_key(func) {
            (
                self.with_module(self.module.new_block(func, label)),
                BasicBlockId(self.module.blocks.len() as u32),
            )
        } else {
            (self, no_block())
        }
    }

    /// Adds a block to the function that a value names.
    pub open spec fn append_block(self, f: ValueRef, name: Text) -> (Cx, BasicBlockId) {
        let func = self.text(f);
        self.add_block(func, block_label_text(self.module.open[func].block_counter, name))
    }
}

/// What the operations on control flow do.
impl Bx {
    /// Whether the current function is open.
    pub open spec fn is_open(self) -> bool {
        self.cx.module.open.contains_key(self.func)
    }

    /// The local that holds the value of an indirect return.
    pub open spec fn retbuf(self) -> Option<Text> {
        if self.is_open() {
            self.cx.module.open[self.func].retbuf_name
        } else {
            None
        }
    }

    /// Whether the current function is open and returns nothing.
    pub open spec fn returns_void(self) -> bool {
        self.is_open() && self.cx.kind(self.cx.module.open[self.func].return_type) is Void
    }

    /// Ends the block with a statement.
    pub open spec fn ends(self, s: Stmt) -> Bx {
        self.emit(s).terminate()
    }

    /// Returns without a value, or with the value of an indirect return.
    pub open spec fn ret_void(self) -> Bx {
        match self.retbuf() {
            Some(name) => self.ends(Stmt::RetVal(Expr::Var(name))),
            None => self.ends(Stmt::RetVoid),
        }
    }

    /// Returns a value.
    pub open spec fn ret(self, v: ValueRef) -> Bx {
        if self.returns_void() {
            self.ends(Stmt::RetVoid)
        } else {
            self.ends(Stmt::RetVal(self.var(v)))
        }
    }

    /// The cases of a switch.
    pub open spec fn cases(self, cases: Seq<(u128, BasicBlockId)>) -> Seq<(Expr, Text)> {
        cases.map_values(|c: (u128, BasicBlockId)| (case_expr(c.0), self.label(c.1)))
    }
}

impl Builder {
    /// Adds a block to the function that a value names. Where that function is
    /// not open no block is added, and the result stands for none.
    pub fn append_block(cx: &mut CodegenCx, llfn: ValueRef, name: &str) -> (r: BasicBlockId)
        requires
            old(cx).wf(),
            old(cx)@.has(llfn),
            old(cx)@.module.blocks.len() < u32::MAX,
        ensures
            final(cx).wf(),
            (final(cx)@, r) == old(cx)@.append_block(llfn, name@),
    {
        let fn_name = cx.render_value(llfn);
        let counter = match cx.get_open(&fn_name) {
            Some(f) => f.block_counter,
            None => {
                return BasicBlockId(0xffff_ffff);
            },
        };
        let empty = same_text(name, "");
        proof {
            reveal_strlit("");
            assert(name@.len() == 0 ==> name@ =~= ""@);
        }
        let label = if empty {
            "bb".to_owned().concat(&dec_u32(counter))
        } else {
            "bb_".to_owned().concat(&dec_u32(counter)).concat("_").concat(
                &CodegenCx::sanitize_name(name),
            )
        };
        cx.new_block(&fn_name, label)
    }

    /// Adds a block to the current function.
    pub fn append_sibling_block(&mut self, name: &str) -> (r: BasicBlockId)
        requires
            old(self).wf(),
            old(self)@.cx.module.blocks.len() < u32::MAX,
        ensures
            final(self).wf(),
            ({
                let (c, bb) = old(self)@.cx.add_block(
                    old(self)@.func,
                    named_label(
                        old(self)@.cx.module.open[old(self)@.func].block_counter,
                        name@,
                    ),
                );
                final(self)@ == old(self)@.with_cx(c) && r == bb
            }),
    {
        let counter = match self.cx.get_open(&self.current_fn) {
            Some(f) => f.block_counter,
            None => {
                return BasicBlockId(0xffff_ffff);
            },
        };
        let label = "bb_".to_owned().concat(&dec_u32(counter)).concat("_").concat(
            &CodegenCx::sanitize_name(name),
        );
        self.cx.new_block(&self.current_fn, label)
    }

    /// Ends the current block with a statement.
    fn end_with(&mut self, stmt: CStmt)
        requires
            old(self).wf(),
        ensures
            final(self).wf(),
            final(self)@ == old(self)@.ends(stmt@),
    {
        self.emit(stmt);
        self.terminate();
    }

    /// The local that holds the value of an indirect return.
    pub fn retbuf_name(&self) -> (r: Option<String>)
        requires
            self.wf(),
        ensures
            crate::types::opt_text(r) == self@.retbuf(),
    {
        match self.cx.get_open(&self.current_fn) {
            Some(f) => match &f.retbuf_name {
                Some(name) => Some(name.clone()),
                None => None,
            },
            None => None,
        }
    }

    /// Returns without a value, or with the value of an indirect return.
    pub fn ret_void(&mut self)
        requires
            old(self).wf(),
        ensures
            final(self).wf(),
            final(self)@ == old(self)@.ret_void(),
            old(self)@.within(final(self)@),
    {
        match self.retbuf_name() {
            Some(name) => self.end_with(CStmt::ret_val(CExpr::Var(name))),
            None => self.end_with(CStmt::ret_void()),
        }
    }

    /// Returns a value, unless the function returns nothing.
    pub fn ret(&mut self, v: ValueRef)
        requires
            old(self).wf(),
            old(self)@.has(v),
        ensures
            final(self).wf(),
            final(self)@ == old(self)@.ret(v),
            old(self)@.within(final(self)@),
    {
        let is_void = match self.cx.get_open(&self.current_fn) {
            Some(f) => match self.get_kind(f.return_type) {
                CTypeKind::Void => true,
                _ => false,
            },
            None => false,
        };
        if is_void {
            self.end_with(CStmt::ret_void());
        } else {
            let e = self.var(v);
            self.end_with(CStmt::ret_val(e));
        }
    }

    /// Jumps to a block.
    pub fn br(&mut self, dest: BasicBlockId)
        requires
            old(self).wf(),
        ensures
            final(self).wf(),
            final(self)@ == old(self)@.ends(Stmt::Goto(old(self)@.label(dest))),
            old(self)@.within(final(self)@),
            old(self)@.then_jumps(final(self)@, |m: Meaning| old(self)@.label(dest)),
    {
        proof {
            jumps_go_to_the_block(self@, dest);
        }
        let label = self.block_label(dest);
        self.end_with(CStmt::goto(&label));
    }

    /// Jumps to one of two blocks.
    pub fn cond_br(&mut self, cond: ValueRef, then_llbb: BasicBlockId, else_llbb: BasicBlockId)
        requires
            old(self).wf(),
            old(self)@.has(cond),
        ensures
            final(self).wf(),
            final(self)@ == old(self)@.ends(
                (Stmt::CondGoto {
                    cond: old(self)@.var(cond),
                    then_label: old(self)@.label(then_llbb),
                    else_label: old(self)@.label(else_llbb),
                }),
            ),
            old(self)@.within(final(self)@),
            old(self)@.then_jumps(
                final(self)@,
                |m: Meaning|
                    if m.of(old(self)@, cond) != 0 {
                        old(self)@.label(then_llbb)
                    } else {
                        old(self)@.label(else_llbb)
                    },
            ),
    {
        proof {
            branches_follow_the_condition(self@, cond, then_llbb, else_llbb);
        }
        let c = self.var(cond);
        let then_label = self.block_label(then_llbb);
        let else_label = self.block_label(else_llbb);
        self.end_with(CStmt::CondGoto { cond: c, then_label, else_label });
    }

    /// Jumps by the value of a number, whose bits are compared with the cases.
    pub fn switch(
        &mut self,
        v: ValueRef,
        else_llbb: BasicBlockId,
        cases: &Vec<(u128, BasicBlockId)>,
    )
        requires
            old(self).wf(),
            old(self)@.has(v),
        ensures
            final(self).wf(),
            final(self)@ == old(self)@.ends(
                (Stmt::Switch {
                    expr: switch_expr(old(self)@.kind_of(v), old(self)@.var(v)),
                    cases: old(self)@.cases(cases@),
                    default: old(self)@.label(else_llbb),
                }),
            ),
            old(self)@.within(final(self)@),
            old(self)@.width_of(v) is Some || !(old(self)@.kind_of(v) is Int)
                ==> old(self)@.then_switches(
                final(self)@,
                |m: Meaning|
                    old(self)@.label(
                        block_for(switched_number(old(self)@, v, m), cases@, else_llbb, 0),
                    ),
            ),
    {
        proof {
            switches_find_the_case(self@, v, else_llbb, cases@);
        }
        let val = self.var(v);
        let default = self.block_label(else_llbb);
        let t = self.get_type(v);
        let expr = match self.get_kind(t) {
            CTypeKind::Int { bits, signed: true } => CExpr::cast(
                &"uint".to_owned().concat(&dec_u64(*bits)).concat("_t"),
                val,
            ),
            CTypeKind::PtrWidth { signed: true } => CExpr::cast("__rustc_usize", val),
            _ => val,
        };
        let mut list: Vec<(CExpr, String)> = Vec::new();
        let mut i: usize = 0;
        while i < cases.len()
            invariant
                i <= cases@.len(),
                self.wf(),
                self@ == old(self)@,
                list@.len() == i,
                forall|k: int|
                    0 <= k < i ==> (#[trigger] list@[k]).0@ == case_expr(cases@[k].0)
                        && list@[k].1@ == self@.label(cases@[k].1),
            decreases cases@.len() - i,
        {
            let (constant, bb) = cases[i];
            let label = self.block_label(bb);
            let e = if constant > 0xffff_ffff_ffff_ffffu128 {
                CExpr::Raw(render_wide(constant))
            } else {
                CExpr::Lit(decimal(constant).concat("ULL"))
            };
            list.push((e, label));
            i = i + 1;
        }
        assert(cases_model(list@) =~= self@.cases(cases@));
        self.end_with(CStmt::Switch { expr, cases: list, default });
    }

    /// Ends the block: control never gets here.
    pub fn unreachable(&mut self)
        requires
            old(self).wf(),
        ensures
            final(self).wf(),
            final(self)@ == old(self)@.ends(Stmt::Unreachable),
            old(self)@.within(final(self)@),
    {
        self.end_with(CStmt::Unreachable);
    }

    /// The exception that a landing pad gets: what the last call that could
    /// unwind has stored, and a selector that is always zero.
    pub fn cleanup_landing_pad(&mut self) -> (r: (ValueRef, ValueRef))
        requires
            old(self).wf(),
        ensures
            final(self).wf(),
            ({
                let (c1, ptr) = old(self)@.cx.interns(Kind::Ptr);
                let (c2, exn) = c1.adds_at(ValKind::InlineExpr("__exn_ptr"@), ptr);
                let (c3, sel) = c2.adds(ValKind::IntConst(0), Kind::Int { bits: 32, signed: true });
                final(self)@ == old(self)@.with_cx(c3) && r == (exn, sel)
            }),
            final(self)@.has(r.0),
            final(self)@.has(r.1),
            old(self)@.within(final(self)@),
    {
        let ptr_ty = self.cx.type_ptr();
        let exn = self.inline_expr("__exn_ptr".to_owned(), ptr_ty);
        let sel = self.cx.const_i32(0);
        (exn, sel)
    }

    /// Hands an exception on to the next handler, or aborts where there is none.
    pub fn resume(&mut self, exn0: ValueRef)
        requires
            old(self).wf(),
            old(self)@.has(exn0),
        ensures
            final(self).wf(),
            final(self)@ == old(self)@.ends(
                Stmt::Raw(resume_text("(void *)"@ + old(self)@.cx.text(exn0))),
            ),
            old(self)@.within(final(self)@),
    {
        let e = "(void *)".to_owned().concat(&self.render(exn0));
        let text =
            "if (__rustc_unwind_chain) { __rustc_unwind_chain->exception_ptr = ".to_owned().concat(
            &e,
        ).concat("; __rustc_longjmp(__rustc_unwind_chain->buf, 1); } else { abort(); }");
        self.end_with(CStmt::Raw(text));
    }

    /// Leaves a cleanup: to a block, or to the next handler.
    pub fn cleanup_ret(&mut self, unwind: Option<BasicBlockId>)
        requires
            old(self).wf(),
        ensures
            final(self).wf(),
            final(self)@ == old(self)@.ends(
                match unwind {
                    Some(target) => Stmt::Goto(old(self)@.label(target)),
                    None => Stmt::Raw(resume_text("__exn_ptr"@)),
                },
            ),
            old(self)@.within(final(self)@),
            unwind matches Some(target) ==> old(self)@.then_jumps(
                final(self)@,
                |m: Meaning| old(self)@.label(target),
            ),
    {
        proof {
            if unwind is Some {
                jumps_go_to_the_block(self@, unwind->0);
            }
        }
        match unwind {
            Some(target) => {
                let label = self.block_label(target);
                self.end_with(CStmt::goto(&label));
            },
            None => {
                let text =
                    "if (__rustc_unwind_chain) { __rustc_unwind_chain->exception_ptr = ".to_owned().concat(
                "__exn_ptr").concat(
                "; __rustc_longjmp(__rustc_unwind_chain->buf, 1); } else { abort(); }");
                self.end_with(CStmt::Raw(text));
            },
        }
    }

    /// Stands for a switch over handlers, which C does not have.
    pub fn catch_switch(&mut self) -> (r: ValueRef)
        requires
            old(self).wf(),
        ensures
            final(self).wf(),
            ({
                let (c1, ptr) = old(self)@.cx.interns(Kind::Ptr);
                let (c2, v) = c1.adds_at(ValKind::NullPtr, ptr);
                final(self)@ == old(self)@.with_cx(c2) && r == v
            }),
            final(self)@.has(r),
            old(self)@.within(final(self)@),
    {
        let ptr_ty = self.cx.type_ptr();
        self.cx.const_null(ptr_ty)
    }

    /// Stands for inline assembly, which is not supported. Control goes on to
    /// the destination, where there is one.
    pub fn codegen_inline_asm(&mut self, dest: Option<BasicBlockId>)
        requires
            old(self).wf(),
        ensures
            final(self).wf(),
            ({
                let b = old(self)@.emit(Stmt::Raw("/* inline asm not supported */"@));
                final(self)@ == match dest {
                    Some(bb) => b.emit(Stmt::Goto(b.label(bb))),
                    None => b,
                }
            }),
            old(self)@.within(final(self)@),
    {
        self.emit(CStmt::raw("/* inline asm not supported */"));
        if let Some(bb) = dest {
            let label = self.block_label(bb);
            self.emit(CStmt::goto(&label));
        }
    }
}

// --- Laws ---

/// Where the current block is one of the function, a terminator is its last
/// statement and marks it as terminated; no other block changes.
pub proof fn terminators_end_the_block(b: Bx, s: Stmt)
    requires
        b.cx.module.has_block(b.func, b.bb),
    ensures
        ({
            let before = b.cx.module.blocks;
            let after = b.ends(s).cx.module.blocks;
            let i = b.bb.0 as int;
            &&& after.len() == before.len()
            &&& after[i].terminated
            &&& after[i].stmts == before[i].stmts.push(s)
            &&& after[i].label == before[i].label
            &&& forall|k: int| 0 <= k < before.len() && k != i ==> #[trigger] after[k] == before[k]
        }),
{
}

/// The labels of two blocks that were added to a function at different times
/// are different.
pub proof fn labels_are_different(m: u32, a: Text, n: u32, b: Text)
    requires
        m != n,
    ensures
        block_label_text(m, a) != block_label_text(n, b),
        named_label(m, a) != named_label(n, b),
        block_label_text(m, a) != named_label(n, b),
{
    named_labels_are_different(m, a, n, b);
    plain_and_named_differ(m, n, b);
    plain_and_named_differ(n, m, a);
    plain_labels_are_different(m, n);
}

proof fn plain_labels_are_different(m: u32, n: u32)
    requires
        m != n,
    ensures
        "bb"@ + dec(m as nat) != "bb"@ + dec(n as nat),
{
    reveal_strlit("bb");
    if "bb"@ + dec(m as nat) == "bb"@ + dec(n as nat) {
        assert(("bb"@ + dec(m as nat)).skip(2) =~= dec(m as nat));
        assert(("bb"@ + dec(n as nat)).skip(2) =~= dec(n as nat));
        dec_is_injective(m as nat, n as nat);
    }
}

/// A digit is no underscore.
proof fn dec_has_no_underscore(n: nat)
    ensures
        dec(n).len() > 0,
        forall|i: int| 0 <= i < dec(n).len() ==> #[trigger] dec(n)[i] != '_',
    decreases n,
{
    if n >= 10 {
        dec_has_no_underscore(n / 10);
    }
}

proof fn plain_and_named_differ(m: u32, n: u32, b: Text)
    ensures
        "bb"@ + dec(m as nat) != named_label(n, b),
{
    reveal_strlit("bb");
    reveal_strlit("bb_");
    reveal_strlit("_");
    dec_has_no_underscore(m as nat);
    let x = "bb"@ + dec(m as nat);
    let y = named_label(n, b);
    assert(x[2] == dec(m as nat)[0]);
    assert(y[2] == '_');
}

proof fn named_labels_are_different(m: u32, a: Text, n: u32, b: Text)
    requires
        m != n,
    ensures
        named_label(m, a) != named_label(n, b),
{
    reveal_strlit("bb_");
    reveal_strlit("_");
    let x = named_label(m, a);
    let y = named_label(n, b);
    let p = dec(m as nat);
    let q = dec(n as nat);
    if x == y {
        dec_has_no_underscore(m as nat);
        dec_has_no_underscore(n as nat);
        assert(x[3 + p.len() as int] == '_');
        assert(y[3 + q.len() as int] == '_');
        if p.len() < q.len() {
            assert(y[3 + p.len() as int] == q[p.len() as int]);
        } else if q.len() < p.len() {
            assert(x[3 + q.len() as int] == p[q.len() as int]);
        } else {
            assert forall|i: int| 0 <= i < p.len() implies p[i] == q[i] by {
                assert(x[3 + i] == p[i]);
                assert(y[3 + i] == q[i]);
            }
            assert(p =~= q);
            dec_is_injective(m as nat, n as nat);
        }
    }
}

} // verus!
