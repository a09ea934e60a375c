//! Where control goes and what calls pass: jumps, returns, calls and their
//! arguments.
use vstd::prelude::*;

use crate::builder::Bx;
use crate::c_ast::{Expr, Stmt};
use crate::calls::{fn_params, fn_ret, returns_indirectly};
use crate::context::{cx_ok, extends, Cx};
use crate::layout::{BackendRepr, FnAbi};
use crate::meaning::{
    emitted_is_last, locals_run_nothing, reads_literals, temporaries_are_assigned, wrapped_to,
    Meaning,
};
use crate::module::BasicBlockId;
use crate::text::{dec, Text};
use crate::types::{Kind, TypeRef};
use crate::values::{value_text_is_stable, ValKind, ValueRef};

verus! {

// --- Jumps ---

/// The label to which a statement jumps, where it does.
pub open spec fn jumps_to(s: Stmt, m: Meaning) -> Option<Text> {
    match s {
        Stmt::Goto(label) => Some(label),
        Stmt::CondGoto { cond, then_label, else_label } => Some(
            if m.eval(cond) != 0 {
                then_label
            } else {
                else_label
            },
        ),
        Stmt::Switch { expr, cases, default } => Some(
            case_taken(m.eval(expr), cases, default, m, 0),
        ),
        _ => None,
    }
}

/// The label of the first case from `from` on whose number is `n`.
pub open spec fn case_taken(n: int, cases: Seq<(Expr, Text)>, default: Text, m: Meaning,
    from: nat) -> Text
    decreases cases.len() - from,
{
    if from >= cases.len() {
        default
    } else if m.eval(cases[from as int].0) == n {
        cases[from as int].1
    } else {
        case_taken(n, cases, default, m, from + 1)
    }
}

impl Bx {
    /// Whether `later` ends the current block with one statement, which jumps to
    /// where `f` says, whatever names stand for.
    pub open spec fn then_jumps(self, later: Bx, f: spec_fn(Meaning) -> Text) -> bool {
        self.at_block() ==> {
            &&& later.code().len() == self.code().len() + 1
            &&& later.code().drop_last() == self.code()
            &&& later.cx.module.blocks[self.bb.0 as int].terminated
            &&& forall|m: Meaning|
                #![trigger jumps_to(later.code().last(), m)]
                jumps_to(later.code().last(), m) == Some(f(m))
        }
    }

    /// The same where literals stand for the numbers that they write.
    pub open spec fn then_switches(self, later: Bx, f: spec_fn(Meaning) -> Text) -> bool {
        self.at_block() ==> {
            &&& later.code().len() == self.code().len() + 1
            &&& later.code().drop_last() == self.code()
            &&& later.cx.module.blocks[self.bb.0 as int].terminated
            &&& forall|m: Meaning|
                #![trigger jumps_to(later.code().last(), m)]
                reads_literals(m) && m.ptr_bits == self.cx.ptr_bytes * 8 ==> jumps_to(
                    later.code().last(),
                    m,
                ) == Some(f(m))
        }
    }
}

/// A block that ends has the statement as its last.
pub proof fn ended_is_last(b: Bx, s: Stmt)
    ensures
        b.at_block() ==> b.ends(s).code() == b.code().push(s)
            && b.ends(s).cx.module.blocks[b.bb.0 as int].terminated,
{
    emitted_is_last(b, s);
}

/// A jump goes to the block.
pub proof fn jumps_go_to_the_block(b: Bx, dest: BasicBlockId)
    ensures
        b.then_jumps(b.ends(Stmt::Goto(b.label(dest))), |m: Meaning| b.label(dest)),
{
    ended_is_last(b, Stmt::Goto(b.label(dest)));
    let later = b.ends(Stmt::Goto(b.label(dest)));
    if b.at_block() {
        assert(later.code().drop_last() =~= b.code());
    }
}

/// A conditional jump goes to the first block where the condition is not zero, else
/// to the second.
pub proof fn branches_follow_the_condition(b: Bx, cond: ValueRef, x: BasicBlockId, y: BasicBlockId)
    ensures
        ({
            let s = Stmt::CondGoto {
                cond: b.var(cond),
                then_label: b.label(x),
                else_label: b.label(y),
            };
            b.then_jumps(
                b.ends(s),
                |m: Meaning|
                    if m.of(b, cond) != 0 {
                        b.label(x)
                    } else {
                        b.label(y)
                    },
            )
        }),
{
    let s = Stmt::CondGoto {
        cond: b.var(cond),
        then_label: b.label(x),
        else_label: b.label(y),
    };
    ended_is_last(b, s);
    let later = b.ends(s);
    reveal_with_fuel(Meaning::eval, 2);
    if b.at_block() {
        assert(later.code().drop_last() =~= b.code());
    }
}

/// The block of the first case that has the number, from `from` on.
pub open spec fn block_for(n: int, cases: Seq<(u128, BasicBlockId)>, default: BasicBlockId,
    from: nat) -> BasicBlockId
    decreases cases.len() - from,
{
    if from >= cases.len() {
        default
    } else if cases[from as int].0 == n {
        cases[from as int].1
    } else {
        block_for(n, cases, default, from + 1)
    }
}

/// The number that a switch compares: what the bits of an integer stand for without a
/// sign.
pub open spec fn switched_number(b: Bx, v: ValueRef, m: Meaning) -> int {
    match b.width_of(v) {
        Some((bits, true)) => wrapped_to(m.of(b, v), bits, false),
        _ => m.of(b, v),
    }
}

proof fn case_numbers_are_read(c: u128, m: Meaning)
    requires
        reads_literals(m),
    ensures
        m.eval(crate::control::case_expr(c)) == c,
{
    let n = c as nat;
    if c > u64::MAX {
        let d = 0x1_0000_0000_0000_0000nat;
        vstd::arithmetic::div_mod::lemma_fundamental_div_mod(n as int, d as int);
        assert((m.names)(
            "((uint128_t)"@ + crate::text::dec(n / d) + "ULL << 64 | "@ + crate::text::dec(n % d)
                + "ULL)"@,
        ) == (n / d) * 0x1_0000_0000_0000_0000 + n % d);
    } else {
        assert((m.names)(crate::text::dec(n) + "ULL"@) == n);
    }
}

proof fn cases_are_taken(
    b: Bx,
    n: int,
    cases: Seq<(u128, BasicBlockId)>,
    default: BasicBlockId,
    m: Meaning,
    from: nat,
)
    requires
        reads_literals(m),
    ensures
        case_taken(n, b.cases(cases), b.label(default), m, from) == b.label(
            block_for(n, cases, default, from),
        ),
    decreases cases.len() - from,
{
    if from < cases.len() {
        case_numbers_are_read(cases[from as int].0, m);
        cases_are_taken(b, n, cases, default, m, from + 1);
    }
}

/// The statement of a switch.
pub open spec fn switch_stmt(b: Bx, v: ValueRef, default: BasicBlockId, cases: Seq<(u128,
    BasicBlockId)>) -> Stmt {
    Stmt::Switch {
        expr: crate::control::switch_expr(b.kind_of(v), b.var(v)),
        cases: b.cases(cases),
        default: b.label(default),
    }
}

/// A switch goes to the block of the first case that has the number, else to the
/// default.
pub proof fn switches_find_the_case(
    b: Bx,
    v: ValueRef,
    default: BasicBlockId,
    cases: Seq<(u128, BasicBlockId)>,
)
    ensures
        b.then_switches(
            b.ends(switch_stmt(b, v, default, cases)),
            |m: Meaning|
                b.label(
                    if b.kind_of(v) is Int && b.width_of(v) is None {
                        block_for(m.eval(crate::control::switch_expr(b.kind_of(v), b.var(v))), cases,
                            default, 0)
                    } else {
                        block_for(switched_number(b, v, m), cases, default, 0)
                    },
                ),
        ),
{
    let s = switch_stmt(b, v, default, cases);
    ended_is_last(b, s);
    let later = b.ends(s);
    if b.at_block() {
        assert(later.code().drop_last() =~= b.code());
        assert forall|m: Meaning|
            #![trigger jumps_to(later.code().last(), m)]
            reads_literals(m) && m.ptr_bits == b.cx.ptr_bytes * 8 implies jumps_to(
            later.code().last(),
            m,
        ) == Some(
            b.label(
                if b.kind_of(v) is Int && b.width_of(v) is None {
                    block_for(m.eval(crate::control::switch_expr(b.kind_of(v), b.var(v))), cases,
                        default, 0)
                } else {
                    block_for(switched_number(b, v, m), cases, default, 0)
                },
            ),
        ) by {
            reveal_with_fuel(Meaning::eval, 3);
            let e = crate::control::switch_expr(b.kind_of(v), b.var(v));
            cases_are_taken(b, m.eval(e), cases, default, m, 0);
            crate::meaning::unsigned_names_say_the_width(m.ptr_bits, m.of(b, v));
        }
    }
}

/// A block that is added is found under its label, and the labels of the others stay.
pub proof fn added_blocks_have_their_labels(c: Cx, func: Text, label: Text, other: BasicBlockId)
    requires
        cx_ok(c),
        c.module.open.contains_key(func),
        c.module.blocks.len() < u32::MAX,
        other.0 < c.module.blocks.len(),
    ensures
        ({
            let (c1, bb) = c.add_block(func, label);
            &&& c1.module.label(func, bb) == label
            &&& c1.module.label(func, other) == c.module.label(func, other)
            &&& c1.module.blocks[bb.0 as int].stmts.len() == 0
            &&& !c1.module.blocks[bb.0 as int].terminated
            &&& bb != other
        }),
{
}

/// A function that returns nothing returns without a value, another one with the
/// value that is given.
pub proof fn returns_give_the_value(b: Bx, v: ValueRef)
    ensures
        b.at_block() ==> b.ret(v).code().drop_last() == b.code() && b.ret(v).code().last() == (
        if b.cx.kind(b.cx.module.open[b.func].return_type) is Void {
            Stmt::RetVoid
        } else {
            Stmt::RetVal(Expr::Var(b.cx.text(v)))
        }),
{
    ended_is_last(b, Stmt::RetVoid);
    ended_is_last(b, Stmt::RetVal(b.var(v)));
    if b.at_block() {
        assert(b.ret(v).code().drop_last() =~= b.code());
    }
}

// --- Arguments ---

/// Whether an argument is passed at a parameter's type: as it is, through a pointer
/// to it, or converted to the type by a statement.
pub open spec fn passed_as(b: Bx, later: Bx, v: ValueRef, a: ValueRef, t: Option<TypeRef>) -> bool {
    ||| v == a
    ||| t matches Some(t) && b.cx.kind(t) is Struct && b.kind_of(a) is Ptr && later.cx.text(v)
        == "*("@ + b.type_str(t) + " *)"@ + b.cx.text(a)
    ||| t matches Some(t) && later.type_of(v) == t && (b.at_block() ==> later.code().contains(
        Stmt::Assign(later.var(v), Expr::cast(b.type_str(t), b.var(a))),
    ))
}

/// The parameter at a place, where there is one.
pub open spec fn param_at(params: Seq<TypeRef>, i: int) -> Option<TypeRef> {
    if i < params.len() {
        Some(params[i])
    } else {
        None
    }
}

/// What holds of the arguments of a call after they were brought to the types of the
/// parameters.
pub open spec fn args_passed(b: Bx, later: Bx, args: Seq<ValueRef>, params: Seq<TypeRef>,
    list: Seq<ValueRef>) -> bool {
    &&& later.at_block() == b.at_block()
    &&& later.cx.types == b.cx.types
    &&& later.cx.ptr_bytes == b.cx.ptr_bytes
    &&& extends(b.cx.values, later.cx.values)
    &&& later.func == b.func
    &&& later.bb == b.bb
    &&& b.at_block() ==> extends(b.code(), later.code())
    &&& forall|i: int|
        0 <= i < list.len() ==> passed_as(b, later, #[trigger] list[i], args[i], param_at(params,
            i))
            && list[i].0 < later.cx.values.len()
}

proof fn passed_stays(
    b: Bx,
    mid: Bx,
    later: Bx,
    v: ValueRef,
    a: ValueRef,
    t: Option<TypeRef>,
)
    requires
        passed_as(b, mid, v, a, t),
        mid.at_block() == b.at_block(),
        later.cx.types == mid.cx.types,
        extends(mid.cx.values, later.cx.values),
        b.at_block() ==> extends(mid.code(), later.code()),
        v.0 < mid.cx.values.len(),
    ensures
        passed_as(b, later, v, a, t),
{
    value_text_is_stable(mid.cx.values, later.cx.values, v.0 as nat);
    assert(later.cx.values[v.0 as int] == mid.cx.values[v.0 as int]);
    if b.at_block() && t is Some {
        let s = Stmt::Assign(mid.var(v), Expr::cast(b.type_str(t->0), b.var(a)));
        if mid.code().contains(s) {
            let k = choose|k: int| 0 <= k < mid.code().len() && mid.code()[k] == s;
            assert(later.code()[k] == s);
        }
    }
}

/// Every argument is passed at its own place, at its parameter's type.
pub proof fn arguments_keep_their_places(b: Bx, args: Seq<ValueRef>, params: Seq<TypeRef>, n: nat)
    requires
        b.cx.has_all(args),
        n <= args.len(),
        b.coerce_args(args, params, n).0.cx.values.len() <= usize::MAX,
    ensures
        b.coerce_args(args, params, n).1.len() == n,
        args_passed(
            b,
            b.coerce_args(args, params, n).0,
            args,
            params,
            b.coerce_args(args, params, n).1,
        ),
    decreases n,
{
    if n > 0 {
        let (mid, list) = b.coerce_args(args, params, (n - 1) as nat);
        let (later, out) = b.coerce_args(args, params, n);
        let a = args[n - 1];
        assert(a.0 < b.cx.values.len());
        if n - 1 < params.len() {
            let t = params[n - 1];
            temporaries_are_assigned(mid, t, Expr::cast(mid.type_str(t), mid.var(a)));
        }
        arguments_keep_their_places(b, args, params, (n - 1) as nat);
        assert(mid.cx.values[a.0 as int] == b.cx.values[a.0 as int]);
        value_text_is_stable(b.cx.values, mid.cx.values, a.0 as nat);
        assert forall|i: int| 0 <= i < out.len() implies passed_as(
            b,
            later,
            #[trigger] out[i],
            args[i],
            param_at(params, i),
        ) && out[i].0 < later.cx.values.len() by {
            if i < n - 1 {
                assert(out[i] == list[i]);
                passed_stays(b, mid, later, list[i], args[i], param_at(params, i));
            } else if n - 1 < params.len() {
                let t = params[n - 1];
                let v = out[i];
                if b.at_block() && v != a && !(b.cx.kind(t) is Struct && b.kind_of(a) is Ptr) {
                    assert(later.code()[mid.code().len() as int] == later.code().last());
                }
            }
        }
    }
}

/// Whether every argument already has its parameter's type.
pub open spec fn types_match(b: Bx, args: Seq<ValueRef>, params: Seq<TypeRef>) -> bool {
    forall|i: int|
        0 <= i < args.len() && i < params.len() ==> b.type_of(#[trigger] args[i]) == params[i]
}

/// Arguments that have their parameters' types are passed as they are, in order.
pub proof fn matching_arguments_are_passed(b: Bx, args: Seq<ValueRef>, params: Seq<TypeRef>, n: nat)
    requires
        types_match(b, args, params),
        n <= args.len(),
    ensures
        b.coerce_args(args, params, n).0 == b,
        b.coerce_args(args, params, n).1 == args.take(n as int),
    decreases n,
{
    if n > 0 {
        matching_arguments_are_passed(b, args, params, (n - 1) as nat);
        assert(args.take(n as int) =~= args.take(n - 1).push(args[n - 1]));
    } else {
        assert(args.take(0) =~= Seq::empty());
    }
}

/// Whether a function writes its value to a place that the caller passes.
pub open spec fn gives_place(abi: Option<FnAbi>) -> bool {
    abi matches Some(a) && a.ret.mode is Indirect
}

/// The expressions of arguments, from one on.
pub open spec fn arg_exprs(b: Bx, args: Seq<ValueRef>, from: int) -> Seq<Expr> {
    Seq::new((args.len() - from) as nat, |i: int| Expr::Var(b.cx.text(args[from + i])))
}

/// A call of a function by its name, with arguments of its parameters' types, passes
/// them in order. Its value is what the call gives; where the function is one that
/// writes to a place, the place is the first argument, is not passed, and gets the
/// value.
pub proof fn calls_pass_their_arguments(
    b: Bx,
    llty: TypeRef,
    abi: Option<FnAbi>,
    f: ValueRef,
    args: Seq<ValueRef>,
)
    requires
        b.cx.values[f.0 as int].kind matches ValKind::Function { sig, .. } && b.cx.kind(sig)
            is Function,
        gives_place(abi) ==> args.len() > 0,
        types_match(
            b,
            if gives_place(abi) {
                args.skip(1)
            } else {
                args
            },
            fn_params(b.cx.kind(b.cx.values[f.0 as int].kind->sig)),
        ),
        f.0 < b.cx.values.len() < usize::MAX,
        b.cx.has_all(args),
    ensures
        ({
            let (later, r) = b.call(llty, abi, f, args);
            let ret = fn_ret(b.cx.kind(b.cx.values[f.0 as int].kind->sig));
            let call = Expr::Call(
                Box::new(Expr::Var(b.cx.text(f))),
                if gives_place(abi) {
                    arg_exprs(b, args, 1)
                } else {
                    arg_exprs(b, args, 0)
                },
            );
            b.at_block() ==> if b.cx.kind(ret) is Void {
                later.code() == b.code().push(Stmt::Expr(call))
            } else if gives_place(abi) {
                &&& r == args[0]
                &&& later.code().len() == b.code().len() + 2
                &&& later.code().drop_last().drop_last() == b.code()
                &&& later.code()[b.code().len() as int] matches Stmt::Assign(tmp, e) && e == call
                    && later.code().last() == Stmt::Assign(
                    Expr::deref(b.type_str(ret) + " *"@, Expr::Var(b.cx.text(args[0]))),
                    tmp,
                )
            } else {
                &&& later.code().len() > b.code().len()
                &&& extends(b.code(), later.code())
                &&& later.code()[b.code().len() as int] matches Stmt::Assign(tmp, e) && e == call
                    && (if abi is Some && (abi->0.ret.layout.repr matches BackendRepr::Scalar(s)
                    && s.is_bool) {
                    later.code().len() == b.code().len() + 2 && later.code().last()
                        == Stmt::Assign(
                        later.var(r),
                        Expr::cast("_Bool"@, Expr::paren(tmp)),
                    )
                } else {
                    later.code().len() == b.code().len() + 1 && tmp == later.var(r)
                })
            }
        }),
{
    let sig = b.cx.values[f.0 as int].kind->sig;
    let kind = b.cx.kind(sig);
    let actual = if gives_place(abi) {
        args.skip(1)
    } else {
        args
    };
    matching_arguments_are_passed(b, actual, fn_params(kind), actual.len());
    assert(actual.take(actual.len() as int) =~= actual);
    let from = if gives_place(abi) {
        1int
    } else {
        0int
    };
    assert(b.vars(actual) =~= arg_exprs(b, args, from));
    let call = Expr::call(b.cx.text(f), b.vars(actual));
    let ret = fn_ret(kind);
    let (later, r) = b.call(llty, abi, f, args);
    if b.cx.kind(ret) is Void {
        emitted_is_last(b, Stmt::Expr(call));
        let b1 = b.emit(Stmt::Expr(call));
        if gives_place(abi) {
            crate::order::layout_only_adds_types(b1.cx, abi->0.ret.layout);
        }
    } else {
        temporaries_are_assigned(b, ret, call);
        let (b1, v) = b.temp_stmt(ret, call);
        if b.at_block() {
            assert(b1.code() =~= b.code().push(Stmt::Assign(b1.var(v), call)));
            assert(b1.code()[b.code().len() as int] == Stmt::Assign(b1.var(v), call));
        }
        assert(extends(b.cx.values, b1.cx.values));
        if gives_place(abi) {
            assert(args[0].0 < b.cx.values.len());
            value_text_is_stable(b.cx.values, b1.cx.values, args[0].0 as nat);
            let s = Stmt::Assign(
                Expr::deref(b1.type_str(ret) + " *"@, b1.var(args[0])),
                b1.var(v),
            );
            emitted_is_last(b1, s);
            if b.at_block() {
                assert(later.code() =~= b1.code().push(s));
                assert(later.code().drop_last().drop_last() =~= b.code());
                assert(later.code()[b.code().len() as int] == Stmt::Assign(b1.var(v), call));
            }
        } else if crate::calls::returns_bool(abi) {
            let b2 = b1.intern(Kind::Bool);
            let e = Expr::cast("_Bool"@, Expr::paren(b1.var(v)));
            temporaries_are_assigned(b2, b1.cx.ty(Kind::Bool), e);
            if b.at_block() {
                assert(later.code() =~= b1.code().push(Stmt::Assign(later.var(r), e)));
                assert(later.code()[b.code().len() as int] == Stmt::Assign(b1.var(v), call));
            }
        }
    }
}

/// A call only adds statements after those that are there.
proof fn calls_only_add(b: Bx, llty: TypeRef, abi: Option<FnAbi>, f: ValueRef, args: Seq<ValueRef>)
    requires
        b.cx.has_all(args),
        b.call(llty, abi, f, args).0.cx.values.len() <= usize::MAX,
    ensures
        ({
            let later = b.call(llty, abi, f, args).0;
            &&& later.at_block() == b.at_block()
            &&& later.func == b.func && later.bb == b.bb
            &&& b.at_block() ==> extends(b.code(), later.code())
        }),
{
    let kind = b.cx.kind(b.callee_type(f, llty));
    let actual = crate::calls::actual_args(abi, args);
    let (b1, list) = b.coerce_args(actual, fn_params(kind), actual.len());
    let call = Expr::call(b1.callee_text(f, llty), b1.vars(list));
    let ret = fn_ret(kind);
    emitted_is_last(b1, Stmt::Expr(call));
    temporaries_are_assigned(b1, ret, call);
    let (b2, v) = b1.temp_stmt(ret, call);
    let place = Stmt::Assign(Expr::deref(b2.type_str(ret) + " *"@, b2.var(args[0])), b2.var(v));
    emitted_is_last(b2, place);
    let b3 = b2.intern(Kind::Bool);
    let e = Expr::cast("_Bool"@, Expr::paren(b2.var(v)));
    temporaries_are_assigned(b3, b2.cx.ty(Kind::Bool), e);
    if abi is Some {
        crate::order::layout_only_adds_types(
            b1.emit(Stmt::Expr(call)).cx,
            abi->0.ret.layout,
        );
    }
    assert(b.cx.has_all(actual)) by {
        assert forall|i: int| 0 <= i < actual.len() implies (#[trigger] actual[i]).0
            < b.cx.values.len() by {
            if crate::calls::returns_indirectly(abi) && args.len() > 0 {
                assert(actual[i] == args[i + 1]);
            }
        }
    }
    arguments_keep_their_places(b, actual, fn_params(kind), actual.len());
}

/// A call that can unwind is surrounded by its handler: the handler is put first in
/// the chain and jumps to the block that catches; after the call the chain is what it
/// was, and control goes on in the other block.
pub proof fn invokes_are_surrounded_by_the_handler(
    b: Bx,
    llty: TypeRef,
    abi: Option<FnAbi>,
    f: ValueRef,
    args: Seq<ValueRef>,
    then: BasicBlockId,
    catch: BasicBlockId,
)
    requires
        cx_ok(b.cx),
        b.cx.has_all(args),
        b.at_block(),
        b.invoke(llty, abi, f, args, then, catch).0.cx.values.len() <= usize::MAX,
    ensures
        ({
            let later = b.invoke(llty, abi, f, args, then, catch).0;
            let n = b.code().len() as int;
            let k = later.code().len() as int;
            let context = Expr::Var("__unwind_ctx"@);
            let chain = Expr::Var("__rustc_unwind_chain"@);
            &&& extends(b.code(), later.code())
            &&& k >= n + 6
            &&& later.code()[n] == Stmt::Assign(Expr::field(context, "prev"@), chain)
            &&& later.code()[n + 1] == Stmt::Assign(
                Expr::field(context, "exception_ptr"@),
                Expr::cast("void *"@, Expr::Lit("0"@)),
            )
            &&& later.code()[n + 2] == Stmt::Assign(chain, Expr::addr_of(context))
            &&& later.code()[n + 3] == Stmt::Raw(
                "if (__rustc_setjmp(__unwind_ctx.buf) != 0) { __exn_ptr = __unwind_ctx.exception_ptr; __rustc_unwind_chain = __unwind_ctx.prev; goto "@
                    + b.label(catch) + "; }"@,
            )
            &&& later.code()[k - 2] == Stmt::Assign(chain, Expr::field(context, "prev"@))
            &&& later.code()[k - 1] == Stmt::Goto(b.label(then))
            &&& later.cx.module.blocks[b.bb.0 as int].terminated
        }),
{
    let b1 = b.begin_invoke();
    locals_run_nothing(b, "void *__exn_ptr;"@);
    let b0 = b.local("void *__exn_ptr;"@);
    locals_run_nothing(b0, "struct __rustc_unwind_context __unwind_ctx;"@);
    assert(b1.code() == b.code());
    assert(b1.at_block());
    assert(b1.label(catch) == b.label(catch));
    assert(b1.label(then) == b.label(then));
    let context = Expr::Var("__unwind_ctx"@);
    let chain = Expr::Var("__rustc_unwind_chain"@);
    let s1 = Stmt::Assign(Expr::field(context, "prev"@), chain);
    let s2 = Stmt::Assign(
        Expr::field(context, "exception_ptr"@),
        Expr::cast("void *"@, Expr::Lit("0"@)),
    );
    let s3 = Stmt::Assign(chain, Expr::addr_of(context));
    let s4 = Stmt::Raw(crate::calls::setjmp_text(b1.label(catch)));
    emitted_is_last(b1, s1);
    emitted_is_last(b1.emit(s1), s2);
    emitted_is_last(b1.emit(s1).emit(s2), s3);
    emitted_is_last(b1.emit(s1).emit(s2).emit(s3), s4);
    let b2 = b1.emit(s1).emit(s2).emit(s3).emit(s4);
    let b3 = b2.call(llty, abi, f, args).0;
    let s5 = Stmt::Assign(chain, Expr::field(context, "prev"@));
    let s6 = Stmt::Goto(b1.label(then));
    calls_only_add(b2, llty, abi, f, args);
    emitted_is_last(b3, s5);
    emitted_is_last(b3.emit(s5), s6);
    let n = b.code().len() as int;
    assert(b2.code()[n] == s1 && b2.code()[n + 1] == s2 && b2.code()[n + 2] == s3
        && b2.code()[n + 3] == s4);
    assert(b3.code()[n] == s1 && b3.code()[n + 1] == s2 && b3.code()[n + 2] == s3
        && b3.code()[n + 3] == s4);
    assert forall|i: int| 0 <= i < n implies #[trigger] b3.code()[i] == b.code()[i] by {
        assert(b2.code()[i] == b.code()[i]);
    }
}

/// A tail call returns what the call gives: the local of an indirect return, nothing
/// where the function that is called gives nothing, else the value of the call.
pub proof fn tail_calls_return_the_value(
    b: Bx,
    llty: TypeRef,
    abi: FnAbi,
    f: ValueRef,
    args: Seq<ValueRef>,
)
    requires
        b.cx.has_all(args),
        b.at_block(),
        b.call(llty, Some(abi), f, args).0.cx.values.len() <= usize::MAX,
    ensures
        ({
            let (called, v) = b.call(llty, Some(abi), f, args);
            let later = b.tail_call(llty, abi, f, args);
            &&& later.code().drop_last() == called.code()
            &&& later.cx.module.blocks[b.bb.0 as int].terminated
            &&& called.cx.module.open[b.func].retbuf_name matches Some(n) ==> later.code().last()
                == Stmt::RetVal(Expr::Var(n))
            &&& called.cx.module.open[b.func].retbuf_name is None && (
            called.cx.values[f.0 as int].kind matches ValKind::Function { sig, .. } && !(
            called.cx.kind(fn_ret(called.cx.kind(sig))) is Void)) && !(called.cx.kind(
                called.cx.module.open[b.func].return_type,
            ) is Void) ==> later.code().last() == Stmt::RetVal(Expr::Var(called.cx.text(v)))
        }),
{
    let (called, v) = b.call(llty, Some(abi), f, args);
    calls_only_add(b, llty, Some(abi), f, args);
    let later = b.tail_call(llty, abi, f, args);
    let c2 = called.intern(Kind::Void);
    ended_is_last(called, Stmt::RetVoid);
    ended_is_last(called, Stmt::RetVal(called.var(v)));
    ended_is_last(c2, Stmt::RetVoid);
    if let Some(n) = called.cx.module.open[b.func].retbuf_name {
        ended_is_last(called, Stmt::RetVal(Expr::Var(n)));
        ended_is_last(c2, Stmt::RetVal(Expr::Var(n)));
    }
    assert(later.code().drop_last() =~= called.code());
}

// --- Parameters and results ---

/// A parameter is found by its number, one less where the first stands for the place of
/// an indirect return: by its name with its own type, or by its address where it is
/// passed on the stack.
pub proof fn parameters_are_found_by_their_number(b: Bx, index: usize)
    requires
        b.is_open(),
        b.indirect_ret() ==> index > 0,
        b.cx.values.len() < usize::MAX,
        b.cx.types.len() < usize::MAX,
    ensures
        ({
            let (later, v) = b.get_param(index);
            let n = if b.indirect_ret() {
                index - 1
            } else {
                index as int
            };
            let f = b.open_func();
            if f.on_stack_params.contains(n as usize) {
                later.cx.text(v) == "(void *)&"@ + ("_arg"@ + dec(n as nat)) && later.kind_of(v)
                    is Ptr
            } else {
                &&& later.cx.text(v) == "_arg"@ + dec(n as nat)
                &&& n < f.params.len() ==> later.type_of(v) == f.params[n].0
            }
        }),
        b.get_param(index).0.code() == b.code(),
{
    crate::meaning::interned_kind(b.cx, Kind::Ptr);
    reveal_strlit("(void *)&_arg");
    reveal_strlit("(void *)&");
    reveal_strlit("_arg");
    assert("(void *)&_arg"@ =~= "(void *)&"@ + "_arg"@);
    let n = if b.indirect_ret() {
        index - 1
    } else {
        index as int
    };
    let d = dec(n as nat);
    assert("(void *)&"@ + "_arg"@ + d =~= "(void *)&"@ + ("_arg"@ + d));
}

/// A return without a value gives the buffer of an indirect return where there is one.
pub proof fn returns_give_the_buffer(b: Bx)
    requires
        b.at_block(),
    ensures
        b.ret_void().code() == b.code().push(
            match b.cx.module.open[b.func].retbuf_name {
                Some(name) => Stmt::RetVal(Expr::Var(name)),
                None => Stmt::RetVoid,
            },
        ),
{
    ended_is_last(b, Stmt::RetVoid);
    if let Some(name) = b.retbuf() {
        ended_is_last(b, Stmt::RetVal(Expr::Var(name)));
    }
}

/// A function is called by its name, and a pointer as the type of function that it is
/// called as.
pub proof fn callees_are_written(b: Bx, f: ValueRef, llty: TypeRef)
    ensures
        b.callee_text(f, llty) == match b.cx.values[f.0 as int].kind {
            ValKind::Function { name, .. } => name,
            _ => "("@ + ("("@ + b.type_str(llty) + ")"@ + b.cx.text(f)) + ")"@,
        },
        b.callee_type(f, llty) == match b.cx.values[f.0 as int].kind {
            ValKind::Function { sig, .. } => sig,
            _ => llty,
        },
{
    reveal_strlit("((");
    reveal_strlit("(");
    assert("(("@ =~= "("@ + "("@);
    let (t, v) = (b.type_str(llty), b.cx.text(f));
    assert("("@ + "("@ + t + ")"@ + v + ")"@ =~= "("@ + ("("@ + t + ")"@ + v) + ")"@);
}

/// A call that gives nothing stands for a null pointer, or, where the value is returned
/// indirectly, for a value of its type.
pub proof fn calls_of_procedures_give_nothing(
    b: Bx,
    llty: TypeRef,
    abi: Option<FnAbi>,
    f: ValueRef,
)
    requires
        b.cx.kind(b.callee_type(f, llty)) matches Kind::Function { ret, .. } && b.cx.kind(ret)
            is Void,
        b.cx.values.len() < usize::MAX,
        b.cx.types.len() < usize::MAX,
    ensures
        ({
            let (later, v) = b.call(llty, abi, f, Seq::empty());
            let k = later.cx.values[v.0 as int].kind;
            if abi matches Some(a) && a.ret.mode is Indirect {
                k is Undef && later.type_of(v) == b.cx.layout_type(abi->0.ret.layout).1
            } else {
                k is NullPtr && later.kind_of(v) is Ptr
            }
        }),
{
    crate::meaning::interned_kind(b.cx, Kind::Ptr);
    let call = Expr::call(b.callee_text(f, llty), b.vars(Seq::empty()));
    let b1 = b.emit(Stmt::Expr(call));
    if returns_indirectly(abi) {
        crate::order::layout_only_adds_types(b1.cx, abi->0.ret.layout);
        crate::order::same_types_same_layout(b.cx, b1.cx, abi->0.ret.layout);
    }
    assert(b.coerce_args(Seq::empty(), fn_params(b.cx.kind(b.callee_type(f, llty))), 0).0 == b);
    assert(crate::calls::actual_args(abi, Seq::<ValueRef>::empty()) =~= Seq::empty());
}

/// The number of a case is a literal where 64 bits hold it.
pub proof fn cases_are_literals(c: u128)
    ensures
        c <= u64::MAX ==> crate::control::case_expr(c) == Expr::Lit(dec(c as nat) + "ULL"@),
        c > u64::MAX ==> crate::control::case_expr(c) is Raw,
{
}

} // verus!
