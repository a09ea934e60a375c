//! What atomic operations do to the memory that they share.
use vstd::prelude::*;

use crate::atomics::{fence_name, rmw_function, rmw_value, AtomicRmwBinOp, SynchronizationScope};
use crate::builder::{order_text, AtomicOrder, Bx};
use crate::c_ast::{CBinOp, CUnaryOp, Expr, Stmt};
use crate::context::{cx_ok, extends};
use crate::lowered::temporaries_are_declared;
use crate::meaning::{
    c_width, converted, emitted_is_last, interned_kind, plain_text, temporaries_are_assigned,
    values_have_types, wrapped_to, Meaning,
};
use crate::text::{dec, Text};
use crate::types::{Kind, TypeRef};
use crate::values::{value_text_is_stable, ValueRef};

verus! {

/// The new value of memory that held `x` after an operation with `y`. Operations on
/// unsigned numbers compare what the bits stand for without a sign.
pub open spec fn new_number(m: Meaning, op: AtomicRmwBinOp, x: int, y: int, bits: nat) -> int {
    let (ux, uy) = (wrapped_to(x, bits, false), wrapped_to(y, bits, false));
    match op {
        AtomicRmwBinOp::AtomicXchg => y,
        AtomicRmwBinOp::AtomicAdd => x + y,
        AtomicRmwBinOp::AtomicSub => x - y,
        AtomicRmwBinOp::AtomicAnd => (m.bits_and)(x, y),
        AtomicRmwBinOp::AtomicNand => -(m.bits_and)(x, y) - 1,
        AtomicRmwBinOp::AtomicOr => (m.bits_or)(x, y),
        AtomicRmwBinOp::AtomicXor => (m.bits_xor)(x, y),
        AtomicRmwBinOp::AtomicMax => if x > y {
            x
        } else {
            y
        },
        AtomicRmwBinOp::AtomicMin => if x < y {
            x
        } else {
            y
        },
        AtomicRmwBinOp::AtomicUMax => if ux > uy {
            ux
        } else {
            uy
        },
        AtomicRmwBinOp::AtomicUMin => if ux < uy {
            ux
        } else {
            uy
        },
    }
}

/// The new value that a function of C leaves in memory that held `x`.
pub open spec fn left_by(m: Meaning, function: Text, x: int, y: int) -> Option<int> {
    if function == "atomic_exchange"@ {
        Some(y)
    } else if function == "atomic_fetch_add"@ {
        Some(x + y)
    } else if function == "atomic_fetch_sub"@ {
        Some(x - y)
    } else if function == "atomic_fetch_and"@ {
        Some((m.bits_and)(x, y))
    } else if function == "atomic_fetch_or"@ {
        Some((m.bits_or)(x, y))
    } else if function == "atomic_fetch_xor"@ {
        Some((m.bits_xor)(x, y))
    } else {
        None
    }
}

/// The new value where no function of C computes it, as an expression.
pub open spec fn new_value(op: AtomicRmwBinOp, o: Text, s: Text, t: Text,
    ut: Option<Text>) -> Expr {
    let sign = if op is AtomicMin || op is AtomicUMin {
        CBinOp::Lt
    } else {
        CBinOp::Gt
    };
    if op is AtomicNand {
        Expr::unary(
            CUnaryOp::BitNot,
            Expr::paren(Expr::binop(Expr::Var(o), CBinOp::BitAnd, Expr::Var(s))),
        )
    } else {
        match ut {
            Some(ut) => {
                let (x, y) = (Expr::cast(ut, Expr::Var(o)), Expr::cast(ut, Expr::Var(s)));
                Expr::cast(t, Expr::paren(Expr::ternary(Expr::binop(x, sign, y), x, y)))
            },
            None => {
                let (x, y) = (Expr::Var(o), Expr::Var(s));
                Expr::ternary(Expr::binop(x, sign, y), x, y)
            },
        }
    }
}

proof fn new_value_is_written(op: AtomicRmwBinOp, o: Text, s: Text, t: Text, ut: Option<Text>)
    requires
        rmw_function(op) is None,
    ensures
        rmw_value(op, o, s, t, ut) == if op is AtomicNand {
            new_value(op, o, s, t, ut)
        } else {
            Expr::Raw(plain_text(new_value(op, o, s, t, ut)))
        },
{
    reveal_with_fuel(plain_text, 6);
    reveal_strlit(")(");
    reveal_strlit(")");
    reveal_strlit("(");
    assert(")("@ =~= ")"@ + "("@);
    match ut {
        Some(ut) => {
            let cast = "("@ + ut + ")"@;
            let pick = crate::atomics::pick_text(
                cast + o,
                crate::atomics::pick_sign(op),
                cast + s,
            );
            let head = "("@ + t;
            assert(head + (")"@ + "("@) + pick + ")"@ =~= head + ")"@ + ("("@ + pick + ")"@));
        },
        None => {},
    }
}

/// An operation leaves the new value that its name says, whether a function of C or an
/// expression computes it.
pub proof fn operations_leave_the_new_value(
    m: Meaning,
    op: AtomicRmwBinOp,
    o: Text,
    s: Text,
    t: Text,
    ut: Text,
    bits: nat,
)
    requires
        c_width(ut, m.ptr_bits) == Some((bits, false)),
        ut != "_Bool"@,
    ensures
        ({
            let (x, y) = ((m.names)(o), (m.names)(s));
            let unsigned = op is AtomicUMin || op is AtomicUMax;
            match rmw_function(op) {
                Some(f) => left_by(m, f, x, y) == Some(new_number(m, op, x, y, bits)),
                None => {
                    let e = new_value(
                        op,
                        o,
                        s,
                        t,
                        if unsigned {
                            Some(ut)
                        } else {
                            None
                        },
                    );
                    m.eval(e) == if unsigned {
                        converted(t, new_number(m, op, x, y, bits), m.ptr_bits)
                    } else {
                        new_number(m, op, x, y, bits)
                    }
                },
            }
        }),
{
    let (x, y) = ((m.names)(o), (m.names)(s));
    functions_are_different();
    reveal_with_fuel(Meaning::eval, 6);
}

proof fn functions_are_different()
    ensures
        "atomic_fetch_add"@ != "atomic_exchange"@,
        "atomic_fetch_sub"@ != "atomic_exchange"@,
        "atomic_fetch_and"@ != "atomic_exchange"@,
        "atomic_fetch_or"@ != "atomic_exchange"@,
        "atomic_fetch_xor"@ != "atomic_exchange"@,
        "atomic_fetch_sub"@ != "atomic_fetch_add"@,
        "atomic_fetch_and"@ != "atomic_fetch_add"@,
        "atomic_fetch_and"@ != "atomic_fetch_sub"@,
        "atomic_fetch_or"@ != "atomic_fetch_add"@,
        "atomic_fetch_or"@ != "atomic_fetch_sub"@,
        "atomic_fetch_or"@ != "atomic_fetch_and"@,
        "atomic_fetch_xor"@ != "atomic_fetch_add"@,
        "atomic_fetch_xor"@ != "atomic_fetch_sub"@,
        "atomic_fetch_xor"@ != "atomic_fetch_and"@,
        "atomic_fetch_xor"@ != "atomic_fetch_or"@,
{
    reveal_strlit("atomic_exchange");
    reveal_strlit("atomic_fetch_add");
    reveal_strlit("atomic_fetch_sub");
    reveal_strlit("atomic_fetch_and");
    reveal_strlit("atomic_fetch_or");
    reveal_strlit("atomic_fetch_xor");
    assert("atomic_exchange"@[7] == 'e' && "atomic_fetch_add"@[7] == 'f' && "atomic_fetch_sub"@[7]
        == 'f' && "atomic_fetch_and"@[7] == 'f' && "atomic_fetch_or"@[7] == 'f'
        && "atomic_fetch_xor"@[7] == 'f');
    assert("atomic_fetch_add"@[13] == 'a' && "atomic_fetch_sub"@[13] == 's'
        && "atomic_fetch_and"@[13] == 'a' && "atomic_fetch_or"@[13] == 'o'
        && "atomic_fetch_xor"@[13] == 'x');
    assert("atomic_fetch_add"@[14] == 'd' && "atomic_fetch_and"@[14] == 'n');
}

/// A pointer to atomic memory of a type, as an expression.
pub open spec fn shared(t: Text, p: Expr) -> Expr {
    Expr::cast("_Atomic("@ + t + ") *"@, p)
}

/// An operation that a function of C does calls it on the destination and the operand
/// and gives what the memory held. Another one reads the memory and tries, until
/// nothing came between, to put the new value in place of what was read, and gives what
/// was read.
pub proof fn operations_give_the_old_value(b: Bx, op: AtomicRmwBinOp, dst: ValueRef, src: ValueRef)
    requires
        cx_ok(b.cx),
        b.at_block(),
        b.has(dst),
        b.has(src),
        b.width_of(src) is Some,
        b.cx.values.len() + 2 < usize::MAX,
        b.cx.types.len() < usize::MAX,
    ensures
        ({
            let (later, r) = b.atomic_rmw(op, dst, src);
            let t = b.type_str(b.type_of(src));
            let p = shared(t, b.var(dst));
            let old_value = "_t"@ + dec(b.cx.values.len());
            let desired = "_t"@ + dec(b.cx.values.len() + 1);
            let ut = if op is AtomicUMin || op is AtomicUMax {
                match crate::builder::unsigned_kind(b.kind_of(src)) {
                    Some(_) => Some(crate::counting::unsigned_word(b.kind_of(src))),
                    None => None,
                }
            } else {
                None
            };
            &&& later.var(r) == Expr::Var(old_value)
            &&& later.code() == match rmw_function(op) {
                Some(f) => b.code().push(
                    Stmt::Assign(Expr::Var(old_value), Expr::call(f, seq![p, b.var(src)])),
                ),
                None => b.code().push(
                    Stmt::Assign(Expr::Var(old_value), Expr::call("atomic_load"@, seq![p])),
                ).push(
                    Stmt::DoWhile {
                        body: seq![
                            Stmt::Assign(
                                Expr::Var(desired),
                                rmw_value(op, old_value, b.cx.text(src), t, ut),
                            ),
                        ],
                        cond: Expr::unary(
                            CUnaryOp::LogNot,
                            Expr::call(
                                "atomic_compare_exchange_weak"@,
                                seq![
                                    p,
                                    Expr::addr_of(Expr::Var(old_value)),
                                    Expr::Var(desired),
                                ],
                            ),
                        ),
                    },
                ),
            }
        }),
{
    let t = b.type_of(src);
    values_have_types(b.cx, src);
    match rmw_function(op) {
        Some(f) => {
            let e = Expr::call(f, seq![shared(b.type_str(t), b.var(dst)), b.var(src)]);
            temporaries_are_assigned(b, t, e);
        },
        None => {
            temporaries_are_declared(b, t);
            let (b1, old_val) = b.typed_temp(t);
            temporaries_are_declared(b1, t);
            let (b2, desired) = b1.typed_temp(t);
            match crate::builder::unsigned_kind(b.cx.kind(t)) {
                Some(k) => {
                    interned_kind(b2.cx, k);
                },
                None => {},
            }
            let (b3, u) = if op is AtomicUMin || op is AtomicUMax {
                b2.unsigned(t)
            } else {
                (b2, None)
            };
            assert(extends(b.cx.values, b3.cx.values));
            value_text_is_stable(b.cx.values, b3.cx.values, src.0 as nat);
            value_text_is_stable(b.cx.values, b3.cx.values, dst.0 as nat);
            value_text_is_stable(b1.cx.values, b3.cx.values, old_val.0 as nat);
            assert(b3.type_str(t) == b.type_str(t));
            let ut = match u {
                Some(u) => Some(b3.type_str(u)),
                None => None,
            };
            let new_val = rmw_value(
                op,
                b3.cx.text(old_val),
                b3.cx.text(src),
                b.type_str(t),
                ut,
            );
            let p = shared(b3.type_str(t), b3.var(dst));
            let s1 = Stmt::Assign(b3.var(old_val), Expr::call("atomic_load"@, seq![p]));
            let s2 = Stmt::DoWhile {
                body: seq![Stmt::Assign(b3.var(desired), new_val)],
                cond: Expr::unary(
                    CUnaryOp::LogNot,
                    Expr::call(
                        "atomic_compare_exchange_weak"@,
                        seq![p, Expr::addr_of(b3.var(old_val)), b3.var(desired)],
                    ),
                ),
            };
            emitted_is_last(b3, s1);
            emitted_is_last(b3.emit(s1), s2);
        },
    }
}

/// A compare and exchange gives what the memory held and whether it was what was
/// expected: the first value starts as the expected one and is passed by its address,
/// so that it is what was found where the exchange fails.
pub proof fn exchanges_give_what_was_found(
    b: Bx,
    dst: ValueRef,
    expected: ValueRef,
    src: ValueRef,
)
    requires
        cx_ok(b.cx),
        b.at_block(),
        b.has(dst),
        b.has(expected),
        b.has(src),
        b.cx.values.len() + 2 < usize::MAX,
        b.cx.types.len() < usize::MAX,
    ensures
        ({
            let (later, (found, done)) = b.compare_exchange(dst, expected, src);
            let t = b.type_str(b.type_of(expected));
            let f = Expr::Var("_t"@ + dec(b.cx.values.len()));
            let d = Expr::Var("_t"@ + dec(b.cx.values.len() + 1));
            &&& later.code() == b.code().push(Stmt::Assign(f, b.var(expected))).push(
                Stmt::Assign(
                    d,
                    Expr::call(
                        "atomic_compare_exchange_strong"@,
                        seq![shared(t, b.var(dst)), Expr::addr_of(f), b.var(src)],
                    ),
                ),
            )
            &&& later.var(found) == f
            &&& later.var(done) == d
            &&& later.kind_of(done) is Bool
            &&& later.type_of(found) == b.type_of(expected)
        }),
{
    let t = b.type_of(expected);
    values_have_types(b.cx, expected);
    let b1 = b.intern(Kind::Bool);
    interned_kind(b.cx, Kind::Bool);
    crate::types::type_text_is_stable(b.cx.types, b1.cx.types, t.0 as nat);
    temporaries_are_assigned(b1, t, b1.var(expected));
    let (b2, o) = b1.temp_stmt(t, b1.var(expected));
    let e = Expr::call(
        "atomic_compare_exchange_strong"@,
        seq![
            shared(b1.type_str(t), b1.var(dst)),
            Expr::addr_of(b2.var(o)),
            b1.var(src),
        ],
    );
    temporaries_are_assigned(b2, b.cx.ty(Kind::Bool), e);
    let (b3, ok) = b2.temp_stmt(b.cx.ty(Kind::Bool), e);
    value_text_is_stable(b2.cx.values, b3.cx.values, o.0 as nat);
}

/// An atomic load reads the memory through an atomic pointer and an atomic store
/// writes the value there. What is wider than the machine writes at once is exchanged:
/// a load exchanges zero for zero, a store tries until nothing came between.
pub proof fn loads_and_stores_are_atomic(b: Bx, t: TypeRef, val: ValueRef, ptr: ValueRef, size: u64)
    requires
        b.at_block(),
        b.has(ptr),
        b.has(val),
        b.cx.values.len() + 1 < usize::MAX,
    ensures
        ({
            let (later, r) = b.atomic_load(t, ptr, size);
            let name = b.type_str(t);
            later.code() == b.code().push(
                Stmt::Assign(
                    later.var(r),
                    if size <= 8 {
                        Expr::call("atomic_load"@, seq![shared(name, b.var(ptr))])
                    } else {
                        Expr::call(
                            "__sync_val_compare_and_swap"@,
                            seq![
                                Expr::cast(name + " *"@, b.var(ptr)),
                                Expr::Lit("0"@),
                                Expr::Lit("0"@),
                            ],
                        )
                    },
                ),
            )
        }),
        ({
            let later = b.atomic_store(val, ptr, size);
            let name = b.type_str(b.type_of(val));
            let found = Expr::Var("_t"@ + dec(b.cx.values.len()));
            later.code() == b.code().push(
                if size <= 8 {
                    Stmt::Expr(
                        Expr::call("atomic_store"@, seq![shared(name, b.var(ptr)), b.var(val)]),
                    )
                } else {
                    Stmt::DoWhile {
                        body: seq![
                            Stmt::Assign(found, Expr::deref(name + " *"@, b.var(ptr))),
                        ],
                        cond: Expr::unary(
                            CUnaryOp::LogNot,
                            Expr::call(
                                "__sync_bool_compare_and_swap"@,
                                seq![Expr::cast(name + " *"@, b.var(ptr)), found, b.var(val)],
                            ),
                        ),
                    }
                },
            )
        }),
{
    let name = b.type_str(t);
    let e = if size > 8 {
        Expr::call(
            "__sync_val_compare_and_swap"@,
            seq![Expr::cast(name + " *"@, b.var(ptr)), Expr::Lit("0"@), Expr::Lit("0"@)],
        )
    } else {
        Expr::call("atomic_load"@, seq![shared(name, b.var(ptr))])
    };
    temporaries_are_assigned(b, t, e);
    let vt = b.type_of(val);
    let vn = b.type_str(vt);
    if size > 8 {
        temporaries_are_declared(b, vt);
        let (b1, o) = b.typed_temp(vt);
        let s = Stmt::DoWhile {
            body: seq![Stmt::Assign(b1.var(o), Expr::deref(vn + " *"@, b.var(ptr)))],
            cond: Expr::unary(
                CUnaryOp::LogNot,
                Expr::call(
                    "__sync_bool_compare_and_swap"@,
                    seq![Expr::cast(vn + " *"@, b.var(ptr)), b1.var(o), b.var(val)],
                ),
            ),
        };
        emitted_is_last(b1, s);
    } else {
        emitted_is_last(
            b,
            Stmt::Expr(Expr::call("atomic_store"@, seq![shared(vn, b.var(ptr)), b.var(val)])),
        );
    }
}

/// A fence is named by whether it is for one thread or for all, and a memory order by
/// what it is called; different orders have different names.
pub proof fn orders_have_names(order: AtomicOrder, scope: SynchronizationScope)
    ensures
        order_text(order) == "memory_order_"@ + (match order {
            AtomicOrder::Relaxed => "relaxed"@,
            AtomicOrder::Acquire => "acquire"@,
            AtomicOrder::Release => "release"@,
            AtomicOrder::AcqRel => "acq_rel"@,
            AtomicOrder::SeqCst => "seq_cst"@,
        }),
        fence_name(scope) == "atomic_"@ + (if scope is SingleThread {
            "signal"@
        } else {
            "thread"@
        }) + "_fence"@,
{
    reveal_strlit("memory_order_");
    reveal_strlit("relaxed");
    reveal_strlit("acquire");
    reveal_strlit("release");
    reveal_strlit("acq_rel");
    reveal_strlit("seq_cst");
    reveal_strlit("memory_order_relaxed");
    reveal_strlit("memory_order_acquire");
    reveal_strlit("memory_order_release");
    reveal_strlit("memory_order_acq_rel");
    reveal_strlit("memory_order_seq_cst");
    assert("memory_order_relaxed"@ =~= "memory_order_"@ + "relaxed"@);
    assert("memory_order_acquire"@ =~= "memory_order_"@ + "acquire"@);
    assert("memory_order_release"@ =~= "memory_order_"@ + "release"@);
    assert("memory_order_acq_rel"@ =~= "memory_order_"@ + "acq_rel"@);
    assert("memory_order_seq_cst"@ =~= "memory_order_"@ + "seq_cst"@);
    reveal_strlit("atomic_");
    reveal_strlit("signal");
    reveal_strlit("thread");
    reveal_strlit("_fence");
    reveal_strlit("atomic_signal_fence");
    reveal_strlit("atomic_thread_fence");
    assert("atomic_signal_fence"@ =~= "atomic_"@ + "signal"@ + "_fence"@);
    assert("atomic_thread_fence"@ =~= "atomic_"@ + "thread"@ + "_fence"@);
}

} // verus!
