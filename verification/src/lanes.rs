//! What operations on vectors do, lane by lane.
use vstd::prelude::*;

use crate::builder::Bx;
use crate::c_ast::{Expr, Stmt};
use crate::context::extends;
use crate::counting::{expressions_are_stored, stores};
use crate::layout::Layout;
use crate::meaning::{emitted_is_last, locals_run_nothing, temporaries_are_assigned};
use crate::places::assigned_whole;
use crate::simd::{lane_stmt, Lane};
use crate::text::{dec, Text};
use crate::types::TypeRef;
use crate::values::{value_text_is_stable, ValKind, ValueRef};

verus! {

/// A lane of a vector.
pub open spec fn at(v: Text, i: Text) -> Text {
    v + ".v["@ + i + "]"@
}

proof fn lanes_are_emitted(b: Bx, n: nat, op: Lane)
    requires
        b.at_block(),
    ensures
        ({
            let later = b.emit_lanes(n, op);
            &&& later.at_block()
            &&& later.code() == b.code() + Seq::new(n, |i: int| lane_stmt(op, i as nat))
            &&& later.cx.values == b.cx.values
            &&& later.cx.types == b.cx.types
            &&& later.cx.ptr_bytes == b.cx.ptr_bytes
        }),
    decreases n,
{
    if n == 0 {
        assert(b.code() =~= b.code() + Seq::new(0, |i: int| lane_stmt(op, i as nat)));
    } else {
        let m = (n - 1) as nat;
        lanes_are_emitted(b, m, op);
        let before = b.emit_lanes(m, op);
        emitted_is_last(before, lane_stmt(op, m));
        assert(b.emit_lanes(n, op).code() =~= b.code() + Seq::new(
            n,
            |i: int| lane_stmt(op, i as nat),
        ));
    }
}

proof fn declared_temporaries(b: Bx, t: TypeRef)
    requires
        b.at_block(),
        b.cx.values.len() < usize::MAX,
    ensures
        ({
            let (later, v) = b.declared_temp(t);
            &&& later.at_block()
            &&& later.code() == b.code()
            &&& later.cx.types == b.cx.types
            &&& later.cx.ptr_bytes == b.cx.ptr_bytes
            &&& extends(b.cx.values, later.cx.values)
            &&& later.type_of(v) == t
            &&& later.cx.text(v) == "_t"@ + dec(b.cx.values.len())
            &&& later.cx.values.len() == b.cx.values.len() + 1
            &&& v.0 == b.cx.values.len()
        }),
{
    let (v0, v) = b.value(ValKind::Temp, t);
    locals_run_nothing(v0, v0.cx.decl_str(t, v0.cx.text(v)) + ";"@);
}

/// An operation on two vectors applies the operator to each pair of lanes with the
/// same number, and stores the vector of the results.
pub proof fn lanes_are_combined(b: Bx, sign: Text, x: ValueRef, y: ValueRef, dest: ValueRef)
    requires
        b.at_block(),
        b.has(dest),
        b.kind_of(x) is Vector,
        b.cx.values.len() < usize::MAX,
    ensures
        ({
            let n = b.kind_of(x)->Vector_len as nat;
            let r = "_t"@ + dec(b.cx.values.len());
            b.codegen_simd_binary(sign, x, y, dest).code() == (b.code() + Seq::new(
                n,
                |i: int|
                    Stmt::Assign(
                        Expr::Raw(at(r, dec(i as nat))),
                        Expr::Raw(
                            at(b.cx.text(x), dec(i as nat)) + " "@ + sign + " "@ + at(
                                b.cx.text(y),
                                dec(i as nat),
                            ),
                        ),
                    ),
            )).push(
                Stmt::Assign(
                    Expr::deref(b.type_str(b.type_of(x)) + " *"@, b.var(dest)),
                    Expr::Var(r),
                ),
            )
        }),
{
    let t = b.type_of(x);
    declared_temporaries(b, t);
    let (b1, result) = b.declared_temp(t);
    let r = b1.cx.text(result);
    let lanes = Lane::Binary { rn: r, va: b.cx.text(x), op: sign, vb: b.cx.text(y) };
    let n = b.kind_of(x)->Vector_len as nat;
    lanes_are_emitted(b1, n, lanes);
    let b2 = b1.emit_lanes(n, lanes);
    value_text_is_stable(b.cx.values, b2.cx.values, dest.0 as nat);
    let s = Stmt::Assign(Expr::deref(b2.type_str(t) + " *"@, b2.var(dest)), b2.var(result));
    emitted_is_last(b2, s);
    assert(b2.store(result, dest).0 == b2.emit(s));
    assert(Seq::new(n, |i: int| lane_stmt(lanes, i as nat)) =~= Seq::new(
        n,
        |i: int|
            Stmt::Assign(
                Expr::Raw(at(r, dec(i as nat))),
                Expr::Raw(
                    at(b.cx.text(x), dec(i as nat)) + " "@ + sign + " "@ + at(
                        b.cx.text(y),
                        dec(i as nat),
                    ),
                ),
            ),
    ));
}

/// A comparison of two vectors sets every bit of a lane where the operator holds of the
/// two lanes with the same number, and none where it does not.
pub proof fn lanes_are_compared(
    b: Bx,
    sign: Text,
    x: ValueRef,
    y: ValueRef,
    dest: ValueRef,
    l: Layout,
)
    requires
        b.at_block(),
        b.has(dest),
        b.kind_of(x) is Vector,
        assigned_whole(b.cx.layout_type(l).0.kind(b.cx.layout_type(l).1)),
        b.cx.values.len() < usize::MAX,
    ensures
        ({
            let n = b.kind_of(x)->Vector_len as nat;
            let r = "_t"@ + dec(b.cx.values.len());
            let (c, t) = b.cx.layout_type(l);
            b.codegen_simd_compare(sign, x, y, dest, l).code() == (b.code() + Seq::new(
                n,
                |i: int|
                    Stmt::Raw(
                        at(r, dec(i as nat)) + " = ("@ + at(b.cx.text(x), dec(i as nat)) + " "@
                            + sign + " "@ + at(b.cx.text(y), dec(i as nat)) + ") ? -1 : 0;"@,
                    ),
            )).push(
                Stmt::Assign(Expr::deref(c.type_str(t) + " *"@, b.var(dest)), Expr::Var(r)),
            )
        }),
{
    let (c, t) = b.cx.layout_type(l);
    crate::order::layout_only_adds_types(b.cx, l);
    let b0 = b.with_cx(c);
    declared_temporaries(b0, t);
    let (b1, result) = b0.declared_temp(t);
    let r = b1.cx.text(result);
    let lanes = Lane::Compare { rn: r, va: b.cx.text(x), op: sign, vb: b.cx.text(y) };
    let n = b.kind_of(x)->Vector_len as nat;
    lanes_are_emitted(b1, n, lanes);
    let b2 = b1.emit_lanes(n, lanes);
    value_text_is_stable(b.cx.values, b2.cx.values, dest.0 as nat);
    let s = Stmt::Assign(Expr::deref(b2.type_str(t) + " *"@, b2.var(dest)), b2.var(result));
    emitted_is_last(b2, s);
    assert(b2.store(result, dest).0 == b2.emit(s));
    assert(Seq::new(n, |i: int| lane_stmt(lanes, i as nat)) =~= Seq::new(
        n,
        |i: int|
            Stmt::Raw(
                at(r, dec(i as nat)) + " = ("@ + at(b.cx.text(x), dec(i as nat)) + " "@ + sign
                    + " "@ + at(b.cx.text(y), dec(i as nat)) + ") ? -1 : 0;"@,
            ),
    ));
}

/// A conversion of a vector converts each lane to the type of the lanes of the result.
pub proof fn lanes_are_converted(b: Bx, x: ValueRef, dest: ValueRef, l: Layout)
    requires
        b.at_block(),
        b.has(dest),
        b.cx.layout_type(l).0.kind(b.cx.layout_type(l).1) is Vector,
        b.cx.values.len() < usize::MAX,
    ensures
        ({
            let (c, t) = b.cx.layout_type(l);
            let n = c.kind(t)->Vector_len as nat;
            let element = c.type_str(c.kind(t)->Vector_element);
            let r = "_t"@ + dec(b.cx.values.len());
            b.codegen_simd_cast(x, dest, l).code() == (b.code() + Seq::new(
                n,
                |i: int|
                    Stmt::Assign(
                        Expr::Raw(at(r, dec(i as nat))),
                        Expr::Raw("("@ + element + ")"@ + at(b.cx.text(x), dec(i as nat))),
                    ),
            )).push(
                Stmt::Assign(Expr::deref(c.type_str(t) + " *"@, b.var(dest)), Expr::Var(r)),
            )
        }),
{
    let (c, t) = b.cx.layout_type(l);
    crate::order::layout_only_adds_types(b.cx, l);
    let b0 = b.with_cx(c);
    declared_temporaries(b0, t);
    let (b1, result) = b0.declared_temp(t);
    let r = b1.cx.text(result);
    let element = c.type_str(c.kind(t)->Vector_element);
    let lanes = Lane::Cast { rn: r, t: element, va: b.cx.text(x) };
    let n = c.kind(t)->Vector_len as nat;
    lanes_are_emitted(b1, n, lanes);
    let b2 = b1.emit_lanes(n, lanes);
    value_text_is_stable(b.cx.values, b2.cx.values, dest.0 as nat);
    let s = Stmt::Assign(Expr::deref(b2.type_str(t) + " *"@, b2.var(dest)), b2.var(result));
    emitted_is_last(b2, s);
    assert(b2.store(result, dest).0 == b2.emit(s));
    assert(Seq::new(n, |i: int| lane_stmt(lanes, i as nat)) =~= Seq::new(
        n,
        |i: int|
            Stmt::Assign(
                Expr::Raw(at(r, dec(i as nat))),
                Expr::Raw("("@ + element + ")"@ + at(b.cx.text(x), dec(i as nat))),
            ),
    ));
}

/// A lane that is extracted is the one at the index, as the type of the lanes. One that
/// is inserted changes the lane at the index of a copy of the vector.
pub proof fn single_lanes_are_found_by_the_index(
    b: Bx,
    vec: ValueRef,
    idx: ValueRef,
    val: ValueRef,
    dest: ValueRef,
)
    requires
        b.at_block(),
        b.has(dest),
        b.kind_of(vec) is Vector,
        assigned_whole(b.cx.kind(b.kind_of(vec)->Vector_element)),
        b.cx.values.len() < usize::MAX,
    ensures
        stores(
            b,
            b.codegen_simd_extract(vec, idx, dest),
            b.type_str(b.kind_of(vec)->Vector_element),
            Expr::Raw(at(b.cx.text(vec), b.cx.text(idx))),
            dest,
        ),
        ({
            let r = "_t"@ + dec(b.cx.values.len());
            b.codegen_simd_insert(vec, idx, val, dest).code() == b.code() + seq![
                Stmt::Assign(Expr::Var(r), Expr::Raw(b.cx.text(vec))),
                Stmt::Assign(Expr::Raw(at(r, b.cx.text(idx))), b.var(val)),
                Stmt::Assign(
                    Expr::deref(b.type_str(b.type_of(vec)) + " *"@, b.var(dest)),
                    Expr::Var(r),
                ),
            ]
        }),
{
    let t = b.type_of(vec);
    expressions_are_stored(
        b,
        b.kind_of(vec)->Vector_element,
        Expr::Raw(at(b.cx.text(vec), b.cx.text(idx))),
        dest,
    );
    let e = Expr::Raw(b.cx.text(vec));
    temporaries_are_assigned(b, t, e);
    let (b1, result) = b.temp_stmt(t, e);
    let s1 = Stmt::Assign(Expr::Raw(at(b1.cx.text(result), b.cx.text(idx))), b.var(val));
    emitted_is_last(b1, s1);
    let b2 = b1.emit(s1);
    value_text_is_stable(b.cx.values, b2.cx.values, dest.0 as nat);
    let s2 = Stmt::Assign(Expr::deref(b2.type_str(t) + " *"@, b2.var(dest)), b2.var(result));
    emitted_is_last(b2, s2);
    assert(b2.store(result, dest).0 == b2.emit(s2));
    assert(b2.emit(s2).code() =~= b.code() + seq![Stmt::Assign(b1.var(result), e), s1, s2]);
}

proof fn picks_are_emitted(b: Bx, rn: Text, array: Text, indices: Seq<u64>, n: nat)
    requires
        b.at_block(),
    ensures
        ({
            let later = b.emit_picks(rn, array, indices, n);
            &&& later.at_block()
            &&& later.code() == b.code() + Seq::new(
                n,
                |i: int|
                    Stmt::Assign(
                        Expr::Raw(at(rn, dec(i as nat))),
                        Expr::index(Expr::Var(array), Expr::Lit(dec(indices[i] as nat))),
                    ),
            )
            &&& later.cx.values == b.cx.values
            &&& later.cx.types == b.cx.types
            &&& later.cx.ptr_bytes == b.cx.ptr_bytes
        }),
    decreases n,
{
    let pick = |i: int|
        Stmt::Assign(
            Expr::Raw(at(rn, dec(i as nat))),
            Expr::index(Expr::Var(array), Expr::Lit(dec(indices[i] as nat))),
        );
    if n == 0 {
        assert(b.code() =~= b.code() + Seq::new(0, pick));
    } else {
        let m = (n - 1) as nat;
        picks_are_emitted(b, rn, array, indices, m);
        let before = b.emit_picks(rn, array, indices, m);
        emitted_is_last(before, pick(m as int));
        assert(b.emit_picks(rn, array, indices, n).code() =~= b.code() + Seq::new(n, pick));
    }
}

/// A shuffle puts the lanes of both vectors in one array, the first before the second,
/// and takes for each lane of the result the one that its index says.
pub proof fn lanes_are_shuffled(
    b: Bx,
    x: ValueRef,
    y: ValueRef,
    indices: ValueRef,
    dest: ValueRef,
    l: Layout,
)
    requires
        b.at_block(),
        b.has(dest),
        b.kind_of(x) is Vector,
        assigned_whole(b.cx.layout_type(l).0.kind(b.cx.layout_type(l).1)),
        b.cx.values.len() + 1 < usize::MAX,
    ensures
        ({
            let (c, t) = b.cx.layout_type(l);
            let n = dec(b.kind_of(x)->Vector_len as nat);
            let element = c.type_str(b.kind_of(x)->Vector_element);
            let array = "_t"@ + dec(b.cx.values.len()) + "_shuf"@;
            let r = "_t"@ + dec(b.cx.values.len() + 1);
            let picks = b.with_cx(c).shuffle_indices(
                indices,
                crate::simd::vec_len(c.kind(t)),
            );
            let gather = |at: Text, v: Text|
                Stmt::Raw(
                    "memcpy(&"@ + array + "["@ + at + "], &"@ + v + ".v[0], "@ + n + " * sizeof("@
                        + element + "));"@,
                );
            b.codegen_simd_shuffle(x, y, indices, dest, l).code() == (b.code().push(
                gather("0"@, b.cx.text(x)),
            ).push(gather(n, b.cx.text(y))) + Seq::new(
                picks.len(),
                |i: int|
                    Stmt::Assign(
                        Expr::Raw(at(r, dec(i as nat))),
                        Expr::index(Expr::Var(array), Expr::Lit(dec(picks[i] as nat))),
                    ),
            )).push(
                Stmt::Assign(Expr::deref(c.type_str(t) + " *"@, b.var(dest)), Expr::Var(r)),
            )
        }),
{
    let (c, t) = b.cx.layout_type(l);
    crate::order::layout_only_adds_types(b.cx, l);
    let b0 = b.with_cx(c);
    let elem = b.kind_of(x)->Vector_element;
    let in_len = b.kind_of(x)->Vector_len;
    let n = dec(in_len as nat);
    let name = b0.type_str(elem);
    let (b1, arr) = b0.value(ValKind::Temp, elem);
    let array = b1.cx.text(arr) + "_shuf"@;
    let decl = name + " "@ + array + "["@ + dec((in_len * 2) as nat) + "];"@;
    locals_run_nothing(b1, decl);
    let s1 = Stmt::Raw(crate::simd::gather_text(array, "0"@, b0.cx.text(x), n, name));
    let s2 = Stmt::Raw(crate::simd::gather_text(array, n, b0.cx.text(y), n, name));
    let bl = b1.local(decl);
    emitted_is_last(bl, s1);
    emitted_is_last(bl.emit(s1), s2);
    let b2 = bl.emit(s1).emit(s2);
    declared_temporaries(b2, t);
    let (b3, result) = b2.declared_temp(t);
    let picks = b0.shuffle_indices(indices, crate::simd::vec_len(c.kind(t)));
    let r = b3.cx.text(result);
    picks_are_emitted(b3, r, array, picks, picks.len());
    let b4 = b3.emit_picks(r, array, picks, picks.len());
    value_text_is_stable(b.cx.values, b4.cx.values, dest.0 as nat);
    let s = Stmt::Assign(Expr::deref(b4.type_str(t) + " *"@, b4.var(dest)), b4.var(result));
    emitted_is_last(b4, s);
    assert(b4.store(result, dest).0 == b4.emit(s));
}

/// The indices of a shuffle are the numbers of the constant vector, in order; other
/// indices leave the lanes where they are.
pub proof fn indices_are_the_constants(b: Bx, indices: ValueRef, len: u64, i: int)
    requires
        0 <= i < b.shuffle_indices(indices, len).len(),
    ensures
        match b.cx.values[indices.0 as int].kind {
            ValKind::VectorConst { elements, .. } => {
                &&& b.shuffle_indices(indices, len).len() == elements.len()
                &&& crate::values::const_u64(b.cx.values[elements[i].0 as int].kind) matches Some(n)
                    ==> b.shuffle_indices(indices, len)[i] == n
            },
            _ => b.shuffle_indices(indices, len).len() == len && b.shuffle_indices(
                indices,
                len,
            )[i] == i,
        },
{
}

} // verus!
