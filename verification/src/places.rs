//! Which memory operations read and write: loads and stores, addresses, the parts
//! of structures, and operands by their layout.
use vstd::prelude::*;

use crate::builder::Bx;
use crate::c_ast::{CBinOp, Expr, Stmt};
use crate::context::{cx_ok, extends};
use crate::layout::{ArgAbi, BackendRepr, Layout, PassMode, Scalar};
use crate::meaning::{
    assigned_is_given, emitted_is_last, fits, interned_kind, locals_run_nothing, reads_literals,
    temporaries_are_assigned, unsigned_names_say_the_width, wrapping_keeps_low_bits, Meaning,
};
use crate::params::{ArgStep, Operand, RepeatPlan};
use crate::text::{dec, dec_is_injective};
use crate::types::{Kind, TypeRef};
use crate::values::{value_text_is_stable, ValKind, ValueRef};

verus! {

// --- Loads and stores ---

/// The types of which a value is read and written by one assignment.
pub open spec fn assigned_whole(k: Kind) -> bool {
    !(k is Array) && !(k is Function) && !(k matches Kind::Int { bits: 128, .. })
}

/// A load reads the memory at the address, as the type that is asked for.
pub proof fn loads_read_the_address(b: Bx, t: TypeRef, ptr: ValueRef)
    requires
        assigned_whole(b.cx.kind(t)),
    ensures
        b.then_gives(
            b.load(t, ptr).0,
            b.load(t, ptr).1,
            |m: Meaning, n: int| n == (m.memory)(b.type_str(t) + " *"@, m.of(b, ptr)),
        ),
        b.cx.values.len() <= usize::MAX ==> b.load(t, ptr).0.type_of(b.load(t, ptr).1) == t,
{
    let e = Expr::deref(b.type_str(t) + " *"@, b.var(ptr));
    let p = |m: Meaning, n: int| n == (m.memory)(b.type_str(t) + " *"@, m.of(b, ptr));
    assert forall|m: Meaning| p(m, #[trigger] m.eval(e)) by {
        reveal_with_fuel(Meaning::eval, 3);
    }
    assigned_is_given(b, t, e, p);
    temporaries_are_assigned(b, t, e);
}

/// A store writes the value to the place from which a load of its type at the same
/// address reads.
pub proof fn stores_write_where_loads_read(b: Bx, val: ValueRef, ptr: ValueRef)
    requires
        assigned_whole(b.kind_of(val)),
        b.at_block(),
    ensures
        ({
            let stored = b.store(val, ptr).0;
            let (loaded, v) = b.load(b.type_of(val), ptr);
            &&& stored.code().drop_last() == b.code()
            &&& stored.code().last() matches Stmt::Assign(place, what) && what == b.var(val)
                && loaded.code().last() == Stmt::Assign(loaded.var(v), place) && (place
                matches Expr::Deref(_, address) && *address == b.var(ptr))
        }),
{
    let t = b.type_of(val);
    let place = Expr::deref(b.type_str(t) + " *"@, b.var(ptr));
    emitted_is_last(b, Stmt::Assign(place, b.var(val)));
    temporaries_are_assigned(b, t, place);
    assert(b.store(val, ptr).0.code().drop_last() =~= b.code());
    let (loaded, v) = b.load(t, ptr);
    assert(loaded.code().last() == Stmt::Assign(loaded.var(v), place));
}

/// Numbers of 128 bits are copied byte by byte, from the address to the value that is
/// loaded, and from a copy of the value that is stored to the address.
pub proof fn wide_numbers_are_copied(b: Bx, t: TypeRef, val: ValueRef, ptr: ValueRef)
    requires
        b.cx.kind(t) matches Kind::Int { bits: 128, .. },
        b.type_of(val) == t,
        b.at_block(),
    ensures
        ({
            let (loaded, v) = b.load(t, ptr);
            let stored = b.store(val, ptr).0;
            let n = b.code().len() as int;
            let memcpy = Box::new(Expr::Var("memcpy"@));
            &&& loaded.code() == b.code().push(
                Stmt::Expr(
                    Expr::Call(
                        memcpy,
                        seq![
                            Expr::addr_of(loaded.var(v)),
                            b.var(ptr),
                            Expr::sizeof_expr(loaded.var(v)),
                        ],
                    ),
                ),
            )
            &&& stored.code().len() == n + 2
            &&& extends(b.code(), stored.code())
            &&& stored.code()[n] matches Stmt::Assign(copy, what) && what == b.var(val)
                && stored.code()[n + 1] == Stmt::Expr(
                Expr::Call(memcpy, seq![b.var(ptr), Expr::addr_of(copy), Expr::Lit("16"@)]),
            )
        }),
{
    let (v0, v) = b.value(ValKind::Temp, t);
    let decl = v0.type_str(t) + " "@ + v0.cx.text(v) + ";"@;
    locals_run_nothing(v0, decl);
    let b1 = v0.local(decl);
    let s = Stmt::Expr(
        Expr::call(
            "memcpy"@,
            seq![Expr::addr_of(b1.var(v)), b.var(ptr), Expr::sizeof_expr(b1.var(v))],
        ),
    );
    emitted_is_last(b1, s);
    let s1 = Stmt::Assign(b1.var(v), b.var(val));
    let s2 = Stmt::Expr(
        Expr::call("memcpy"@, seq![b.var(ptr), Expr::addr_of(b1.var(v)), Expr::Lit("16"@)]),
    );
    emitted_is_last(b1, s1);
    emitted_is_last(b1.emit(s1), s2);
    assert(b.store(val, ptr).0 == b1.emit(s1).emit(s2));
}

// --- Addresses ---

/// An address that is an element away: the number of the element times its size is
/// added, and to that the second index where there is one.
pub open spec fn element_address(b: Bx, t: TypeRef, ptr: ValueRef, indices: Seq<ValueRef>,
    m: Meaning, n: int) -> bool {
    let size = (m.size)(b.type_str(t));
    m.ptr_bits == b.cx.ptr_bytes * 8 && fits(m.of(b, ptr), m.ptr_bits, false) && fits(
        m.of(b, indices[0]),
        m.ptr_bits,
        true,
    ) && fits(size, m.ptr_bits, true) && (indices.len() == 2 ==> fits(
        m.of(b, indices[1]),
        m.ptr_bits,
        true,
    )) ==> n == m.of(b, ptr) + m.of(b, indices[0]) * size + (if indices.len() == 2 {
        m.of(b, indices[1])
    } else {
        0
    })
}

/// Elements are found by their number and their size.
pub proof fn elements_are_found_by_number(b: Bx, t: TypeRef, ptr: ValueRef, indices: Seq<ValueRef>)
    requires
        b.cx.ptr_bytes > 0,
        b.has_type(t),
        0 < indices.len() <= 2,
    ensures
        b.then_gives(
            b.gep(t, ptr, indices).0,
            b.gep(t, ptr, indices).1,
            |m: Meaning, n: int| element_address(b, t, ptr, indices, m, n),
        ),
{
    let b1 = b.intern(Kind::Ptr);
    let p = |m: Meaning, n: int| element_address(b, t, ptr, indices, m, n);
    let base = Expr::cast("__rustc_usize"@, b1.var(ptr));
    let count = Expr::cast("__rustc_isize"@, Expr::paren(b1.var(indices[0])));
    let unit = Expr::cast("__rustc_isize"@, Expr::SizeofTy(b1.type_str(t)));
    let far = Expr::binop(count, CBinOp::Mul, unit);
    let first = Expr::binop(base, CBinOp::Add, far);
    let more = Expr::cast("__rustc_isize"@, Expr::paren(b1.var(indices[1])));
    let sum = if indices.len() == 2 {
        Expr::binop(first, CBinOp::Add, more)
    } else {
        first
    };
    let e = Expr::cast("void *"@, Expr::paren(sum));
    crate::types::type_text_is_stable(b.cx.types, b1.cx.types, t.0 as nat);
    assert forall|m: Meaning| p(m, #[trigger] m.eval(e)) by {
        let size = (m.size)(b.type_str(t));
        let (x, i) = (m.of(b, ptr), m.of(b, indices[0]));
        if m.ptr_bits == b.cx.ptr_bytes * 8 && fits(x, m.ptr_bits, false) && fits(
            i,
            m.ptr_bits,
            true,
        ) && fits(size, m.ptr_bits, true) && (indices.len() == 2 ==> fits(
            m.of(b, indices[1]),
            m.ptr_bits,
            true,
        )) {
            assert(m.eval(base) == x) by {
                reveal_with_fuel(Meaning::eval, 3);
                unsigned_names_say_the_width(m.ptr_bits, x);
                wrapping_keeps_low_bits(x, m.ptr_bits, false, false);
            }
            assert(m.eval(count) == i) by {
                reveal_with_fuel(Meaning::eval, 4);
                unsigned_names_say_the_width(m.ptr_bits, i);
                wrapping_keeps_low_bits(i, m.ptr_bits, true, true);
            }
            assert(m.eval(unit) == size) by {
                reveal_with_fuel(Meaning::eval, 3);
                unsigned_names_say_the_width(m.ptr_bits, size);
                wrapping_keeps_low_bits(size, m.ptr_bits, true, true);
            }
            assert(m.eval(far) == i * size);
            assert(m.eval(first) == x + i * size);
            if indices.len() == 2 {
                let j = m.of(b, indices[1]);
                assert(m.eval(more) == j) by {
                    reveal_with_fuel(Meaning::eval, 4);
                    unsigned_names_say_the_width(m.ptr_bits, j);
                    wrapping_keeps_low_bits(j, m.ptr_bits, true, true);
                }
                assert(m.eval(sum) == x + i * size + j);
            }
            assert(m.eval(Expr::paren(sum)) == m.eval(sum));
            crate::meaning::pointer_casts_keep_the_number(m.ptr_bits, m.eval(sum));
        }
    }
    assigned_is_given(b1, b.cx.ty(Kind::Ptr), e, p);
}

/// Whether the numbers of an address computation are ones that a target has: an
/// address, an offset below half of the address space, and bytes of size one.
pub open spec fn addresses_ok(b: Bx, m: Meaning, ptr: ValueRef, off: int) -> bool {
    &&& reads_literals(m)
    &&& m.ptr_bits == b.cx.ptr_bytes * 8
    &&& fits(m.of(b, ptr), m.ptr_bits, false)
    &&& fits(off, m.ptr_bits, true)
    &&& (m.size)("int8_t"@) == 1
}

/// An address at a number of bytes from another is that many bytes away: the pointer
/// itself where the number is zero, else the sum.
pub proof fn offsets_are_added(b: Bx, ptr: ValueRef, bytes: u64)
    requires
        cx_ok(b.cx),
        b.has(ptr),
        b.cx.types.len() + 2 < usize::MAX,
        b.cx.values.len() < usize::MAX,
    ensures
        ({
            let (later, q) = b.offset_ptr(ptr, bytes);
            if bytes == 0 {
                later == b && q == ptr
            } else {
                b.then_gives(
                    later,
                    q,
                    |m: Meaning, n: int|
                        addresses_ok(b, m, ptr, bytes as int) ==> n == m.of(b, ptr) + bytes,
                )
            }
        }),
{
    if bytes > 0 {
        let (c, off) = b.cx.usize_const(bytes);
        let b0 = b.with_cx(c);
        let byte = Kind::Int { bits: 8, signed: true };
        let b1 = b0.intern(byte);
        let t = b0.cx.ty(byte);
        interned_kind(b0.cx, byte);
        let b2 = b1.intern(Kind::Ptr);
        let (later, q) = b.offset_ptr(ptr, bytes);
        value_text_is_stable(b.cx.values, c.values, ptr.0 as nat);
        assert(c.text(off) == dec(bytes as nat) + "ULL"@);
        let p = |m: Meaning, n: int|
            addresses_ok(b, m, ptr, bytes as int) ==> n == m.of(b, ptr) + bytes;
        let base = Expr::cast("__rustc_usize"@, b2.var(ptr));
        let count = Expr::cast("__rustc_isize"@, Expr::paren(b2.var(off)));
        let size = Expr::cast("__rustc_isize"@, Expr::SizeofTy(b2.type_str(t)));
        let far = Expr::binop(count, CBinOp::Mul, size);
        let sum = Expr::binop(base, CBinOp::Add, far);
        let e = Expr::cast("void *"@, Expr::paren(sum));
        assert(b1.cx.kind(t) == byte);
        assert(b2.cx.kind(t) == byte);
        assert(b2.var(ptr) == b.var(ptr));
        assert(b2.var(off) == Expr::Var(dec(bytes as nat) + "ULL"@));
        crate::meaning::byte_name(b2.cx, t);
        assert forall|m: Meaning| p(m, #[trigger] m.eval(e)) by {
            if addresses_ok(b, m, ptr, bytes as int) {
                let x = m.of(b, ptr);
                assert((m.names)(dec(bytes as nat) + "ULL"@) == bytes as nat);
                assert(m.eval(base) == x) by {
                    reveal_with_fuel(Meaning::eval, 3);
                    unsigned_names_say_the_width(m.ptr_bits, x);
                    wrapping_keeps_low_bits(x, m.ptr_bits, false, false);
                }
                assert(m.eval(count) == bytes as int) by {
                    reveal_with_fuel(Meaning::eval, 4);
                    unsigned_names_say_the_width(m.ptr_bits, bytes as int);
                    wrapping_keeps_low_bits(bytes as int, m.ptr_bits, true, true);
                }
                assert(m.eval(size) == 1) by {
                    reveal_with_fuel(Meaning::eval, 3);
                    unsigned_names_say_the_width(m.ptr_bits, 1);
                    vstd::arithmetic::power2::lemma_pow2_strictly_increases(2, m.ptr_bits);
                    vstd::arithmetic::power2::lemma2_to64();
                    wrapping_keeps_low_bits(1, m.ptr_bits, true, true);
                }
                assert(m.eval(far) == m.eval(count) * m.eval(size));
                assert(m.eval(sum) == x + bytes);
                crate::meaning::pointer_casts_keep_the_number(m.ptr_bits, x + bytes);
                assert(m.eval(Expr::paren(sum)) == x + bytes);
            }
        }
        assigned_is_given(b2, b1.cx.ty(Kind::Ptr), e, p);
    }
}

// --- Parts ---

/// A field is read from the structure that is given; what was put there is read back:
/// setting a field writes the place that reading it reads, of the copy that it gives.
pub proof fn fields_are_read_where_they_are_set(b: Bx, agg: ValueRef, elt: ValueRef, idx: u64)
    requires
        b.at_block(),
    ensures
        b.then_gives(
            b.extract_value(agg, idx).0,
            b.extract_value(agg, idx).1,
            |m: Meaning, n: int| n == (m.part)(m.of(b, agg), "f"@ + dec(idx as nat)),
        ),
        ({
            let (later, copy) = b.insert_value(agg, elt, idx);
            &&& later.code().last() matches Stmt::Assign(place, _) && place == Expr::field(
                later.var(copy),
                "f"@ + dec(idx as nat),
            )
        }),
{
    let t = match crate::memops::field_type(b.kind_of(agg), idx) {
        Some(ft) => ft,
        None => b.type_of(agg),
    };
    let e = Expr::field(b.var(agg), "f"@ + dec(idx as nat));
    let p = |m: Meaning, n: int| n == (m.part)(m.of(b, agg), "f"@ + dec(idx as nat));
    assert forall|m: Meaning| p(m, #[trigger] m.eval(e)) by {
        reveal_with_fuel(Meaning::eval, 3);
    }
    assigned_is_given(b, t, e, p);
    let (b1, x) = match crate::memops::field_type(b.kind_of(agg), idx) {
        Some(ft) => b.coerce(elt, ft),
        None => (b, elt),
    };
    if let Some(ft) = crate::memops::field_type(b.kind_of(agg), idx) {
        temporaries_are_assigned(b, ft, Expr::cast(b.type_str(ft), b.var(elt)));
    }
    let (v0, copy) = b1.value(ValKind::Temp, b.type_of(agg));
    let decl = v0.type_str(b.type_of(agg)) + " "@ + v0.cx.text(copy) + ";"@;
    locals_run_nothing(v0, decl);
    let b2 = v0.local(decl);
    let whole = if b.cx.values[agg.0 as int].kind is Undef
        || b.cx.values[agg.0 as int].kind is Poison {
        Stmt::Expr(
            Expr::call(
                "memset"@,
                seq![
                    Expr::addr_of(b2.var(copy)),
                    Expr::Lit("0"@),
                    Expr::sizeof_expr(b2.var(copy)),
                ],
            ),
        )
    } else {
        Stmt::Assign(b2.var(copy), b2.var(agg))
    };
    emitted_is_last(b2, whole);
    emitted_is_last(
        b2.emit(whole),
        Stmt::Assign(Expr::field(b2.var(copy), "f"@ + dec(idx as nat)), b2.var(x)),
    );
}

/// Setting a field starts from the whole structure and gives the field the value:
/// the statement before the last copies the structure, and the last assigns the value.
pub proof fn other_fields_are_kept(b: Bx, agg: ValueRef, elt: ValueRef, idx: u64)
    requires
        cx_ok(b.cx),
        b.at_block(),
        b.has(agg),
        b.has(elt),
        b.cx.values.len() + 2 < usize::MAX,
        !(b.cx.values[agg.0 as int].kind is Undef),
        !(b.cx.values[agg.0 as int].kind is Poison),
        b.kind_of(agg) matches Kind::Struct { fields, .. } && idx < fields.len() && b.type_of(elt)
            == fields[idx as int],
    ensures
        ({
            let (later, copy) = b.insert_value(agg, elt, idx);
            &&& later.code() == b.code().push(
                Stmt::Assign(later.var(copy), b.var(agg)),
            ).push(Stmt::Assign(Expr::field(later.var(copy), "f"@ + dec(idx as nat)), b.var(elt)))
        }),
{
    let t = b.type_of(agg);
    let (v0, copy) = b.value(ValKind::Temp, t);
    let decl = v0.type_str(t) + " "@ + v0.cx.text(copy) + ";"@;
    locals_run_nothing(v0, decl);
    let b2 = v0.local(decl);
    value_text_is_stable(b.cx.values, b2.cx.values, agg.0 as nat);
    value_text_is_stable(b.cx.values, b2.cx.values, elt.0 as nat);
    let s1 = Stmt::Assign(b2.var(copy), b2.var(agg));
    let s2 = Stmt::Assign(Expr::field(b2.var(copy), "f"@ + dec(idx as nat)), b2.var(elt));
    emitted_is_last(b2, s1);
    emitted_is_last(b2.emit(s1), s2);
}

/// Different fields have different names.
pub proof fn fields_have_different_names(i: u64, j: u64)
    requires
        i != j,
    ensures
        "f"@ + dec(i as nat) != "f"@ + dec(j as nat),
{
    if "f"@ + dec(i as nat) == "f"@ + dec(j as nat) {
        reveal_strlit("f");
        assert(("f"@ + dec(i as nat)).skip(1) =~= dec(i as nat));
        assert(("f"@ + dec(j as nat)).skip(1) =~= dec(j as nat));
        dec_is_injective(i as nat, j as nat);
    }
}

/// An element of a vector or an array is found by its number.
pub proof fn elements_are_read_by_number(b: Bx, vec: ValueRef, idx: ValueRef)
    ensures
        b.then_gives(
            b.extract_element(vec, idx).0,
            b.extract_element(vec, idx).1,
            |m: Meaning, n: int| n == (m.element)(m.of(b, vec), m.of(b, idx)),
        ),
{
    let t = match b.kind_of(vec) {
        Kind::Array { element, .. } => element,
        Kind::Vector { element, .. } => element,
        _ => b.type_of(vec),
    };
    let e = Expr::index(b.var(vec), b.var(idx));
    let p = |m: Meaning, n: int| n == (m.element)(m.of(b, vec), m.of(b, idx));
    assert forall|m: Meaning| p(m, #[trigger] m.eval(e)) by {
        reveal_with_fuel(Meaning::eval, 3);
    }
    assigned_is_given(b, t, e, p);
}

// --- Operands ---

/// Whether `off` is the least multiple of an alignment that is not below a size.
pub open spec fn least_multiple(off: u64, size: u64, align: u64) -> bool {
    &&& off % align == 0
    &&& off >= size
    &&& forall|k: int| size <= #[trigger] (k * align) ==> off <= k * align
}

/// Where the second scalar of a pair is: at the least multiple of its alignment that
/// is not below the size of the first.
pub proof fn second_scalar_is_aligned(l: Layout, x: Scalar, y: Scalar)
    requires
        crate::params::pair_ok(l),
        l.repr == BackendRepr::ScalarPair(x, y),
    ensures
        least_multiple(crate::params::second_offset(l), x.size, y.align),
        forall|off: u64|
            least_multiple(off, x.size, y.align) ==> off == crate::params::second_offset(l),
{
    let (s, a) = (x.size as int, y.align as int);
    let q = (s + a - 1) / a;
    vstd::arithmetic::div_mod::lemma_fundamental_div_mod(s + a - 1, a);
    vstd::arithmetic::div_mod::lemma_mod_bound(s + a - 1, a);
    assert(a * q == q * a) by (nonlinear_arith);
    assert(s <= q * a <= s + a - 1);
    let off = crate::params::second_offset(l);
    assert(off == q * a);
    vstd::arithmetic::div_mod::lemma_mod_multiples_basic(q, a);
    assert forall|k: int| s <= #[trigger] (k * a) implies off <= k * a by {
        assert(k >= q) by (nonlinear_arith)
            requires
                s <= k * a,
                q * a <= s + a - 1,
                a > 0,
        ;
        assert(k * a >= q * a) by (nonlinear_arith)
            requires
                k >= q,
                a > 0,
        ;
    }
    assert forall|o: u64| least_multiple(o, x.size, y.align) implies o == off by {
        let k = (o as int) / a;
        vstd::arithmetic::div_mod::lemma_fundamental_div_mod(o as int, a);
        assert(a * k == k * a) by (nonlinear_arith);
        assert(o == k * a);
        assert(s <= q * a);
    }
}

/// Loading a pair reads the first scalar at the address and the second one at the
/// place `off` bytes further, the least multiple of the second's alignment that is not
/// below the first's size.
pub proof fn pairs_are_loaded_from_their_places(
    b: Bx,
    l: Layout,
    x: Scalar,
    y: Scalar,
    ptr: ValueRef,
    off: u64,
)
    requires
        crate::params::pair_ok(l),
        !l.is_zst,
        l.repr == BackendRepr::ScalarPair(x, y),
        least_multiple(off, x.size, y.align),
    ensures
        ({
            let (later, op) = b.load_operand(l, ptr);
            let (c1, tx) = b.cx.interns(crate::type_of::field_kind(x, l, 0));
            let (c2, ty) = c1.interns(crate::type_of::field_kind(y, l, 1));
            let (b1, first) = b.with_cx(c2).load(tx, ptr);
            let (b2, place) = b1.offset_ptr(ptr, off);
            let (b3, second) = b2.load(ty, place);
            later == b3 && op == Operand::Pair(first, second)
        }),
{
    second_scalar_is_aligned(l, x, y);
}

/// Storing a pair of parameters puts the first at the address and the second one at
/// the place from which loading the pair reads it.
pub proof fn pairs_are_stored_to_their_places(
    b: Bx,
    arg: ArgAbi,
    idx: usize,
    dst: ValueRef,
    l: Layout,
    x: Scalar,
    y: Scalar,
    off: u64,
)
    requires
        crate::params::pair_ok(l),
        l.repr == BackendRepr::ScalarPair(x, y),
        arg.mode is Pair,
        idx < usize::MAX,
        least_multiple(off, x.size, y.align),
    ensures
        ({
            let (later, step) = b.store_fn_arg(arg, idx, dst, l);
            let (b1, first) = b.get_param(idx);
            let (b2, second) = b1.get_param((idx + 1) as usize);
            let (b3, place) = b2.store(first, dst).0.offset_ptr(dst, off);
            later == b3.store(second, place).0 && step == ArgStep::Done
        }),
{
    second_scalar_is_aligned(l, x, y);
}

/// A parameter that is passed directly is stored; one that is passed by a pointer is
/// copied whole; one that is cast is left to be copied, as many bytes of it as both
/// the cast and the layout have; one that is ignored leaves everything as it is.
pub proof fn parameters_are_stored(b: Bx, arg: ArgAbi, idx: usize, dst: ValueRef, l: Layout)
    requires
        cx_ok(b.cx),
        !(arg.mode is Pair),
    ensures
        ({
            let (later, step) = b.store_fn_arg(arg, idx, dst, l);
            let (b1, x) = b.get_param(idx);
            match arg.mode {
                PassMode::Ignore => later == b && step == ArgStep::Done,
                PassMode::Direct => later == b1.store(x, dst).0 && step == ArgStep::Done,
                PassMode::Indirect { .. } => {
                    let (c, n) = b1.cx.usize_const(l.size);
                    let b2 = b1.with_cx(c);
                    step == ArgStep::Done && b2.then_runs(
                        later,
                        seq![
                            Stmt::Expr(
                                Expr::Call(
                                    Box::new(Expr::Var("memcpy"@)),
                                    seq![b2.var(dst), b2.var(x), b2.var(n)],
                                ),
                            ),
                        ],
                    )
                },
                PassMode::Cast(cast) => step matches ArgStep::Cast { val, scratch, copy_bytes }
                    && val == x && later == b1.alloca(cast.size, cast.align).0 && scratch
                    == b1.alloca(cast.size, cast.align).1 && copy_bytes <= l.size && copy_bytes
                    <= cast.unaligned_size && (copy_bytes == l.size || copy_bytes
                    == cast.unaligned_size),
                PassMode::Pair => true,
            }
        }),
{
    let (b1, x) = b.get_param(idx);
    let (c, n) = b1.cx.usize_const(l.size);
    let b2 = b1.with_cx(c);
    emitted_is_last(
        b2,
        Stmt::Expr(Expr::call("memcpy"@, seq![b2.var(dst), b2.var(x), b2.var(n)])),
    );
}

/// A value that comes out of a call is stored in the same ways; what is passed by a
/// pointer is copied with the alignment of what it points to.
pub proof fn arguments_are_stored(b: Bx, arg: ArgAbi, val: ValueRef, dst: ValueRef)
    ensures
        ({
            let (later, step) = b.store_arg(arg, val, dst);
            match arg.mode {
                PassMode::Cast(cast) => step matches ArgStep::Cast { val: v, scratch, copy_bytes }
                    && v == val && (later, scratch) == b.alloca(cast.size, cast.align)
                    && copy_bytes <= arg.layout.size && copy_bytes <= cast.unaligned_size && (
                copy_bytes == arg.layout.size || copy_bytes == cast.unaligned_size),
                PassMode::Indirect { has_meta: false, pointee_align: Some(a), .. } => later == b
                    && step == (ArgStep::Copy { val, align: a }),
                PassMode::Indirect { has_meta: false, pointee_align: None, .. } => later == b
                    && step == (ArgStep::Copy { val, align: arg.layout.align }),
                _ => later == b.store(val, dst).0 && step == ArgStep::Done,
            }
        }),
{
}

/// Memory on the stack has the size and the alignment that are asked for, and the
/// pointer is set to it where it is declared.
pub proof fn stack_memory_has_its_size(b: Bx, size: u64, align: u64)
    requires
        cx_ok(b.cx),
        b.is_open(),
        b.cx.values.len() < usize::MAX,
        b.cx.types.len() + 3 < usize::MAX,
    ensures
        ({
            let (later, p) = b.alloca(size, align);
            let name = later.cx.text(p);
            let before = b.cx.module.open[b.func].locals;
            &&& later.cx.kind(later.type_of(p)) is Ptr
            &&& later.code() == b.code()
            &&& later.cx.module.open[b.func].locals == (if size > 0 {
                before.push(
                    "uint8_t "@ + name + "_storage"@ + "["@ + dec(size as nat)
                        + "] __attribute__((aligned("@ + dec(align as nat) + ")));"@,
                ).push("void *"@ + name + " = (void *)"@ + (name + "_storage"@) + ";"@)
            } else {
                before.push("void *"@ + name + " = NULL;"@)
            })
        }),
{
    let byte = Kind::Int { bits: 8, signed: true };
    let b1 = b.intern(byte);
    let arr = Kind::Array { element: b.cx.ty(byte), len: size };
    let b2 = b1.intern(arr);
    let b3 = b2.intern(Kind::Ptr);
    interned_kind(b2.cx, Kind::Ptr);
    let name = "_t"@ + dec(b3.cx.values.len());
    assert("uint8_t "@ + (name + "_storage"@) =~= "uint8_t "@ + name + "_storage"@);
}

// --- Repetition ---

/// The `i`th of equal elements is that many strides away, and how they are stored
/// depends on how many there are: few, or those without a size, one by one, many of one
/// byte by one call, many others by copying the first.
pub proof fn repetitions_are_planned(count: u64, stride: u64)
    ensures
        ({
            let p = crate::params::plan_of(count, stride);
            &&& count <= 16 || stride == 0 <==> p == RepeatPlan::StoreEach
            &&& count > 16 && stride == 1 <==> p == RepeatPlan::Memset
            &&& count > 16 && stride > 1 <==> p == RepeatPlan::StoreAndCopy
        }),
{
}

} // verus!
