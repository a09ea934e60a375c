//! Which C types stand for layouts, and how functions are declared by them.
use vstd::prelude::*;

use crate::context::{sanitized, Cx, Linkage};
use crate::declare::{linkage_prefix, named_params, param_count, params_before, stack_params, FnRef};
use crate::layout::{
    ArgAbi, BackendRepr, CastTarget, FnAbi, Layout, PassMode, Primitive, Scalar, TyTag,
};
use crate::meaning::{c_width, interned_kind};
use crate::text::{dec, join, Text};
use crate::type_of::{cast_bits, scalar_kind, units};
use crate::types::{
    decl_text, int_bytes, int_type_text, natural_align, params_text, type_text, Kind, TypeRef,
};
use crate::values::ValKind;

verus! {

// --- Widths ---

/// Whether a width is the least of the standard widths that hold a number of bits.
pub open spec fn least_width(bits: u64, width: nat) -> bool {
    &&& width == 8 || width == 16 || width == 32 || width == 64 || width == 128
    &&& bits <= width
    &&& width == 8 || 2 * bits > width
}

/// An integer is written as the standard type of the least width that holds it, with
/// its sign, or as a type of its exact width where none does.
pub proof fn integers_have_the_least_width(bits: u64, signed: bool, ptr_bits: nat)
    ensures
        bits <= 128 ==> (c_width(int_type_text(bits, signed), ptr_bits) matches Some((w, s))
            && s == signed && least_width(bits, w)),
        bits > 128 ==> int_type_text(bits, signed) == (if signed {
            Seq::empty()
        } else {
            "unsigned "@
        }) + ("_BitInt("@ + dec(bits as nat) + ")"@),
{
    crate::meaning::standard_names_have_widths(ptr_bits);
    reveal_strlit("unsigned _BitInt(");
    reveal_strlit("unsigned ");
    reveal_strlit("_BitInt(");
    assert("unsigned _BitInt("@ =~= "unsigned "@ + "_BitInt("@);
    let n = dec(bits as nat);
    assert("unsigned "@ + "_BitInt("@ + n + ")"@ =~= "unsigned "@ + ("_BitInt("@ + n + ")"@));
    assert(Seq::<char>::empty() + ("_BitInt("@ + n + ")"@) =~= "_BitInt("@ + n + ")"@);
}

/// A number of bytes that an integer takes holds its bits and is a power of two.
pub proof fn integers_take_whole_bytes(bits: u64)
    ensures
        bits <= 128 ==> least_width(bits, (int_bytes(bits) * 8) as nat),
        bits > 128 ==> int_bytes(bits) == 16,
{
}

/// A floating-point type is named by its width.
pub proof fn floats_are_named_by_their_width(types: Seq<Kind>, t: nat)
    requires
        t < types.len(),
    ensures
        types[t as int] == (Kind::Float { bits: 16 }) ==> type_text(types, t) == "_Float16"@,
        types[t as int] == (Kind::Float { bits: 32 }) ==> type_text(types, t) == "float"@,
        types[t as int] == (Kind::Float { bits: 64 }) ==> type_text(types, t) == "double"@,
        types[t as int] == (Kind::Float { bits: 128 }) ==> type_text(types, t) == "__float128"@,
        types[t as int] is Ptr ==> type_text(types, t) == "void *"@,
        types[t as int] is Void ==> type_text(types, t) == "void"@,
        types[t as int] is Bool ==> type_text(types, t) == "_Bool"@,
{
}

// --- Declarations ---

/// A name of an array type is declared as an array of its elements with the length
/// behind the name, so that of nested arrays the outer length comes first. A name of a
/// function type is declared as a pointer; any other stands behind its type.
pub proof fn names_are_declared(types: Seq<Kind>, t: nat, name: Text, i: int)
    requires
        t < types.len(),
        crate::types::kinds_ok(types),
    ensures
        match types[t as int] {
            Kind::Array { element, len } => decl_text(types, t, name) == decl_text(
                types,
                element.0 as nat,
                name + ("["@ + dec(len as nat) + "]"@),
            ),
            Kind::Function { ret, args, variadic } => {
                let params = crate::types::type_texts(types, args);
                &&& decl_text(types, t, name) == type_text(types, ret.0 as nat) + " (*"@ + name
                    + ")("@ + params_text(params, variadic) + ")"@
                &&& params.len() == args.len()
                &&& 0 <= i < args.len() ==> params[i] == type_text(types, args[i].0 as nat)
            },
            _ => decl_text(types, t, name) == type_text(types, t) + " "@ + name,
        },
{
    match types[t as int] {
        Kind::Array { element, len } => {
            let n = dec(len as nat);
            assert(crate::types::kind_ok(types[t as int], t as int));
            assert(name + "["@ + n + "]"@ =~= name + ("["@ + n + "]"@));
        },
        _ => {},
    }
}

/// A list of parameters stands in order with commas between; an empty one says so, and
/// one that takes more arguments ends in dots.
pub proof fn parameters_stand_in_order(params: Seq<Text>, a: Text, b: Text)
    ensures
        params_text(Seq::empty(), false) == "void"@,
        params_text(Seq::empty(), true) == "..."@,
        params_text(seq![a], false) == a,
        params_text(seq![a, b], false) == a + ", "@ + b,
        params.len() > 0 ==> params_text(params, true) == params_text(params, false) + ", ..."@,
        params.len() > 0 ==> params_text(params.push(a), false) == params_text(params, false)
            + ", "@ + a,
{
    reveal_with_fuel(join, 3);
    assert(seq![a].drop_last() =~= Seq::empty());
    assert(seq![a, b].drop_last() =~= seq![a]);
    assert(join(seq![a], ", "@) =~= a);
    assert(join(seq![a, b], ", "@) =~= a + ", "@ + b);
    assert(params.push(a).drop_last() =~= params);
}

// --- Alignment ---

/// The alignment of a structure is the largest of those of its fields; a packed one has
/// none. An array and a vector are aligned as their elements.
pub proof fn structures_are_aligned_for_their_fields(
    types: Seq<Kind>,
    t: nat,
    ptr_bytes: u64,
    i: int,
)
    requires
        t < types.len(),
        crate::types::kinds_ok(types),
        ptr_bytes >= 1,
    ensures
        match types[t as int] {
            Kind::Struct { fields, packed, .. } => if packed || fields.len() > u64::MAX {
                natural_align(types, t, ptr_bytes) == 1
            } else {
                let a = natural_align(types, t, ptr_bytes);
                &&& 0 <= i < fields.len() ==> natural_align(types, fields[i].0 as nat, ptr_bytes)
                    <= a
                &&& a == 1 || exists|j: int|
                    0 <= j < fields.len() && #[trigger] natural_align(
                        types,
                        fields[j].0 as nat,
                        ptr_bytes,
                    ) == a
            },
            Kind::Array { element, .. } => natural_align(types, t, ptr_bytes) == natural_align(
                types,
                element.0 as nat,
                ptr_bytes,
            ),
            Kind::Vector { element, .. } => natural_align(types, t, ptr_bytes) == natural_align(
                types,
                element.0 as nat,
                ptr_bytes,
            ),
            Kind::Int { bits, .. } => natural_align(types, t, ptr_bytes) == int_bytes(bits),
            Kind::Float { bits } => natural_align(types, t, ptr_bytes) == int_bytes(bits),
            Kind::Bool => natural_align(types, t, ptr_bytes) == 1,
            Kind::Void => natural_align(types, t, ptr_bytes) == 1,
            _ => natural_align(types, t, ptr_bytes) == ptr_bytes,
        },
{
    assert(crate::types::kind_ok(types[t as int], t as int));
    match types[t as int] {
        Kind::Struct { fields, packed, .. } => {
            if !packed && fields.len() <= u64::MAX {
                largest_is_taken(types, t, fields, fields.len(), ptr_bytes, i);
            }
        },
        _ => {},
    }
}

proof fn largest_is_taken(
    types: Seq<Kind>,
    t: nat,
    fields: Seq<TypeRef>,
    n: nat,
    ptr_bytes: u64,
    i: int,
)
    requires
        n <= fields.len(),
        forall|j: int| 0 <= j < fields.len() ==> (#[trigger] fields[j]).0 < t,
    ensures
        ({
            let a = crate::types::fields_align(types, t, fields, n, ptr_bytes);
            &&& 0 <= i < n ==> natural_align(types, fields[i].0 as nat, ptr_bytes) <= a
            &&& a == 1 || exists|j: int|
                0 <= j < n && #[trigger] natural_align(types, fields[j].0 as nat, ptr_bytes) == a
        }),
    decreases n,
{
    if n > 0 {
        let m = (n - 1) as nat;
        largest_is_taken(types, t, fields, m, ptr_bytes, i);
        let before = crate::types::fields_align(types, t, fields, m, ptr_bytes);
        let last = natural_align(types, fields[n - 1].0 as nat, ptr_bytes);
        let a = crate::types::fields_align(types, t, fields, n, ptr_bytes);
        if before >= last {
            if before != 1 {
                let j = choose|j: int|
                    0 <= j < m && #[trigger] natural_align(types, fields[j].0 as nat, ptr_bytes)
                        == before;
                assert(natural_align(types, fields[j].0 as nat, ptr_bytes) == a);
            }
        } else {
            assert(natural_align(types, fields[n - 1].0 as nat, ptr_bytes) == a);
        }
    }
}

// --- Layouts ---

/// Whether a kind stands for a scalar.
pub open spec fn stands_for(k: Kind, s: Scalar) -> bool {
    if s.is_bool {
        k is Bool
    } else {
        match s.primitive {
            Primitive::Int { bits, signed } => k matches Kind::Int { bits: w, signed: g } && g
                == signed && (bits <= 128 ==> least_width(bits, w as nat)),
            Primitive::Float { bits } => k == (Kind::Float { bits }),
            Primitive::Pointer => k is Ptr,
        }
    }
}

/// A scalar gets the type of its primitive.
pub proof fn scalars_get_their_primitive(s: Scalar)
    ensures
        stands_for(scalar_kind(s), s),
{
}

/// Whether a kind stands for a part of a pair: a part of pointer width keeps that, and
/// any other is the scalar.
pub open spec fn part_stands_for(k: Kind, s: Scalar, l: Layout, idx: int) -> bool {
    if l.single_variant && idx < l.fields@.len() && l.fields@[idx] is Usize {
        k == (Kind::PtrWidth { signed: false })
    } else if l.single_variant && idx < l.fields@.len() && l.fields@[idx] is Isize {
        k == (Kind::PtrWidth { signed: true })
    } else {
        stands_for(k, s)
    }
}

/// The type of a layout: nothing is an empty structure, a scalar is itself, a pair is a
/// structure of its two parts in order, a vector has as many elements as lanes, and
/// memory is a structure of as many bytes.
pub proof fn layouts_get_their_shape(c: Cx, l: Layout)
    requires
        c.types.len() + 3 < usize::MAX,
    ensures
        ({
            let (later, t) = c.layout_type(l);
            let k = later.kind(t);
            let parts = k->Struct_fields;
            if l.is_zst {
                k is Struct && parts.len() == 0
            } else {
                match l.repr {
                    BackendRepr::Scalar(s) => match l.ty {
                        TyTag::Usize => k == (Kind::PtrWidth { signed: false }),
                        TyTag::Isize => k == (Kind::PtrWidth { signed: true }),
                        TyTag::Other => stands_for(k, s),
                    },
                    BackendRepr::ScalarPair(a, b) => {
                        &&& k == (Kind::Struct { fields: parts, packed: false, name: None })
                        &&& parts.len() == 2
                        &&& part_stands_for(later.kind(parts[0]), a, l, 0)
                        &&& part_stands_for(later.kind(parts[1]), b, l, 1)
                    },
                    BackendRepr::SimdVector { element, count } => {
                        &&& k matches Kind::Vector { element: e, len } && len == count
                            && stands_for(later.kind(e), element)
                    },
                    BackendRepr::Memory => if l.size == 0 {
                        k is Struct && parts.len() == 0
                    } else {
                        &&& k == (Kind::Struct { fields: parts, packed: false, name: None })
                        &&& parts.len() == 1
                        &&& later.kind(parts[0]) matches Kind::Array { element, len } && len
                            == l.size && later.kind(element) == (Kind::Int {
                            bits: 8,
                            signed: true,
                        })
                    },
                }
            }
        }),
{
    if !l.is_zst {
        match l.repr {
            BackendRepr::ScalarPair(a, b) => {
                let (ka, kb) = (
                    crate::type_of::field_kind(a, l, 0),
                    crate::type_of::field_kind(b, l, 1),
                );
                interned_kind(c, ka);
                let (c1, ta) = c.interns(ka);
                interned_kind(c1, kb);
                let (c2, tb) = c1.interns(kb);
                let k = crate::type_of::struct_kind(seq![ta, tb]);
                interned_kind(c2, k);
                interned_types_are_there(c, ka);
                interned_types_are_there(c1, kb);
            },
            BackendRepr::SimdVector { element, count } => {
                let ke = scalar_kind(element);
                interned_kind(c, ke);
                interned_types_are_there(c, ke);
                let (c1, te) = c.interns(ke);
                interned_kind(c1, Kind::Vector { element: te, len: count });
            },
            BackendRepr::Memory => {
                if l.size == 0 {
                    interned_kind(c, crate::type_of::struct_kind(Seq::empty()));
                } else {
                    let byte = Kind::Int { bits: 8, signed: true };
                    interned_kind(c, byte);
                    interned_types_are_there(c, byte);
                    let (c1, tb) = c.interns(byte);
                    let array = Kind::Array { element: tb, len: l.size };
                    interned_kind(c1, array);
                    interned_types_are_there(c1, array);
                    let (c2, ta) = c1.interns(array);
                    interned_kind(c2, crate::type_of::struct_kind(seq![ta]));
                }
            },
            BackendRepr::Scalar(s) => {
                interned_kind(c, scalar_kind(s));
                interned_kind(c, Kind::PtrWidth { signed: false });
                interned_kind(c, Kind::PtrWidth { signed: true });
            },
        }
    } else {
        interned_kind(c, crate::type_of::struct_kind(Seq::empty()));
    }
}

/// A type that is interned is one of the context.
pub proof fn interned_types_are_there(c: Cx, k: Kind)
    requires
        c.types.len() < usize::MAX,
    ensures
        c.ty(k).0 < c.intern(k).types.len(),
        c.intern(k).types.len() <= c.types.len() + 1,
{
    if c.types.contains(k) {
        assert(c.types[c.types.index_of(k)] == k);
    }
}

// --- Parameters ---

/// An argument takes as many parameters as it has types: none where it is ignored, two
/// where it is a pair of scalars or a pointer with what belongs to it, and one else.
pub proof fn arguments_take_their_parameters(c: Cx, arg: ArgAbi)
    ensures
        c.param_types(arg).1.len() == param_count(arg),
        arg.mode is Ignore ==> param_count(arg) == 0,
        arg.mode is Direct || arg.mode is Cast ==> param_count(arg) == 1,
        arg.mode is Pair ==> param_count(arg) == if arg.layout.repr is ScalarPair {
            2nat
        } else {
            1
        },
        arg.mode matches PassMode::Indirect { has_meta, .. } ==> param_count(arg) == if has_meta {
            2nat
        } else {
            1
        },
{
}

/// The types of the parameters of one argument.
pub proof fn parameters_have_the_types_of_the_argument(c: Cx, arg: ArgAbi)
    requires
        c.types.len() + 1 < usize::MAX,
    ensures
        ({
            let (later, list) = c.param_types(arg);
            match arg.mode {
                PassMode::Direct => (later, list[0]) == c.layout_type(arg.layout),
                PassMode::Cast(cast) => (later, list[0]) == c.cast_type(cast),
                PassMode::Pair => match arg.layout.repr {
                    BackendRepr::ScalarPair(a, b) => {
                        &&& part_stands_for(later.kind(list[0]), a, arg.layout, 0)
                        &&& part_stands_for(later.kind(list[1]), b, arg.layout, 1)
                    },
                    _ => (later, list[0]) == c.layout_type(arg.layout),
                },
                PassMode::Indirect { on_stack, has_meta, .. } => if has_meta {
                    later.kind(list[0]) is Ptr && later.kind(list[1]) is Ptr
                } else if on_stack {
                    (later, list[0]) == c.layout_type(arg.layout)
                } else {
                    later.kind(list[0]) is Ptr
                },
                PassMode::Ignore => later == c,
            }
        }),
{
    interned_kind(c, Kind::Ptr);
    match arg.mode {
        PassMode::Pair => match arg.layout.repr {
            BackendRepr::ScalarPair(a, b) => {
                let (ka, kb) = (
                    crate::type_of::field_kind(a, arg.layout, 0),
                    crate::type_of::field_kind(b, arg.layout, 1),
                );
                interned_kind(c, ka);
                interned_types_are_there(c, ka);
                let (c1, ta) = c.interns(ka);
                interned_kind(c1, kb);
            },
            _ => {},
        },
        _ => {},
    }
}

/// The parameters of a function are those of its arguments in order, and each argument
/// begins where the ones before it end.
pub proof fn parameters_follow_the_arguments(c: Cx, args: Seq<ArgAbi>, n: nat)
    requires
        n < args.len(),
    ensures
        ({
            let (before, list) = c.all_param_types(args, n);
            let (after, more) = before.param_types(args[n as int]);
            &&& c.all_param_types(args, n + 1) == (after, list + more)
            &&& list.len() == params_before(args, n)
            &&& params_before(args, n + 1) == params_before(args, n) + more.len()
        }),
    decreases n,
{
    if n > 0 {
        parameters_follow_the_arguments(c, args, (n - 1) as nat);
    }
    arguments_take_their_parameters(c.all_param_types(args, n).0, args[n as int]);
}

/// Whether an argument is passed on the stack, with nothing that belongs to it.
pub open spec fn on_the_stack(arg: ArgAbi) -> bool {
    arg.mode matches PassMode::Indirect { on_stack, has_meta, .. } && on_stack && !has_meta
}

/// The parameters that are passed on the stack are those of the arguments that are,
/// each at the place where the argument begins.
pub proof fn stack_parameters_are_found(args: Seq<ArgAbi>, n: nat, p: usize)
    requires
        n <= args.len(),
        params_before(args, n) <= usize::MAX,
    ensures
        stack_params(args, n).contains(p) <==> exists|i: int|
            0 <= i < n && on_the_stack(#[trigger] args[i]) && params_before(args, i as nat) == p,
    decreases n,
{
    if n > 0 {
        let m = (n - 1) as nat;
        stack_parameters_are_found(args, m, p);
        let before = stack_params(args, m);
        let at = params_before(args, m);
        if crate::declare::is_on_stack(args[n - 1]) {
            assert(stack_params(args, n) == before.push(at as usize));
            if before.contains(p) {
                let k = before.index_of(p);
                assert(stack_params(args, n)[k] == p);
            }
            if p == at {
                assert(stack_params(args, n)[before.len() as int] == p);
            }
            if stack_params(args, n).contains(p) && !before.contains(p) {
                let k = stack_params(args, n).index_of(p);
                if k < before.len() {
                    assert(before[k] == p);
                }
                assert(args[n - 1].mode is Indirect);
            }
        }
    }
}

/// The parameters of a function are named by their numbers.
pub proof fn parameters_are_numbered(types: Seq<TypeRef>, i: int)
    requires
        0 <= i < types.len(),
    ensures
        named_params(types).len() == types.len(),
        named_params(types)[i] == (types[i], "_arg"@ + dec(i as nat)),
{
}

/// The type of a function has its result, its parameters in order, and whether it takes
/// more arguments.
pub proof fn functions_have_their_signature(c: Cx, abi: FnAbi)
    requires
        ({
            let c1 = c.ret_type(abi).0;
            c1.all_param_types(abi.args@, abi.args@.len()).0.types.len() < usize::MAX
        }),
    ensures
        ({
            let (later, t) = c.fn_type(abi);
            let (c1, ret) = c.ret_type(abi);
            let list = c1.all_param_types(abi.args@, abi.args@.len()).1;
            later.kind(t) == (Kind::Function { ret, args: list, variadic: abi.c_variadic })
        }),
        match abi.ret.mode {
            PassMode::Ignore => c.types.len() < usize::MAX ==> c.ret_type(abi).0.kind(
                c.ret_type(abi).1,
            ) is Void,
            PassMode::Cast(cast) => c.ret_type(abi) == c.cast_type(cast),
            _ => c.ret_type(abi) == c.layout_type(abi.ret.layout),
        },
{
    let (c1, ret) = c.ret_type(abi);
    let (c2, list) = c1.all_param_types(abi.args@, abi.args@.len());
    interned_kind(c2, Kind::Function { ret, args: list, variadic: abi.c_variadic });
    if c.types.len() < usize::MAX {
        interned_kind(c, Kind::Void);
    }
}

/// A cast without a prefix is one integer of the least width that holds its bytes, or
/// of its exact width; a rest is as many units as hold it.
pub proof fn casts_hold_their_bytes(c: Cx, t: CastTarget)
    requires
        t.wf(),
        c.types.len() < usize::MAX,
    ensures
        t.prefix@.len() == 0 && t.size == 0 ==> c.cast_type(t).0.kind(c.cast_type(t).1) is Void,
        t.prefix@.len() == 0 && t.size > 0 ==> (c.cast_type(t).0.kind(c.cast_type(t).1)
            matches Kind::Int { bits, signed: true } && (if t.size <= 16 {
            least_width((t.size * 8) as u64, bits as nat)
        } else {
            bits == t.size * 8
        })),
        t.rest_total > 0 ==> units(t) * t.rest_unit >= t.rest_total && (units(t) - 1) * t.rest_unit
            < t.rest_total,
        t.rest_total == 0 ==> units(t) == 0,
{
    interned_kind(c, Kind::Void);
    interned_kind(c, Kind::Int { bits: cast_bits(t.size), signed: true });
    if t.rest_total > 0 {
        let (a, u) = (t.rest_total - 1, t.rest_unit as int);
        vstd::arithmetic::div_mod::lemma_fundamental_div_mod(a, u);
        vstd::arithmetic::div_mod::lemma_mod_bound(a, u);
        vstd::arithmetic::div_mod::lemma_div_pos_is_pos(a, u);
        let q = a / u;
        assert((q + 1) * u == u * q + u) by (nonlinear_arith);
        assert(q * u == u * q) by (nonlinear_arith);
    }
}

// --- Linkage ---

/// Only what is internal to a module, or repeated from another, is static.
pub proof fn internal_functions_are_static(linkage: Linkage)
    ensures
        linkage_prefix(linkage) == if linkage is Internal || linkage is AvailableExternally {
            "static "@
        } else {
            Seq::empty()
        },
{
}

/// A declaration names the result, the function and its parameters in this order, and
/// ends in the label where the symbol has another name.
pub proof fn declarations_are_written(
    prefix: Text,
    ret: Text,
    sym: Text,
    params: Seq<Text>,
    variadic: bool,
)
    ensures
        ({
            let name = crate::context::sanitized(sym);
            let label = if name == sym {
                Seq::empty()
            } else {
                " __asm__(\""@ + sym + "\")"@
            };
            crate::declare::fn_decl_text(prefix, ret, sym, params, variadic) == prefix + ret + " "@
                + name + ("("@ + params_text(params, variadic) + ")"@) + label + ";"@
        }),
{
    let name = crate::context::sanitized(sym);
    let p = params_text(params, variadic);
    let head = prefix + ret + " "@ + name;
    assert(head + "("@ + p + ")"@ =~= head + ("("@ + p + ")"@));
}

// --- Functions ---

/// A function that is referred to for the first time stands for its name, with the type
/// of its signature, and is found again under its number.
pub proof fn functions_are_found_by_their_name(c: Cx, f: FnRef)
    requires
        !c.instances.contains_key(f.id),
        c.fn_type(f.abi).0.values.len() < usize::MAX,
    ensures
        ({
            let (later, v) = c.get_fn(f);
            &&& later.values[v.0 as int].kind == (ValKind::Function {
                name: sanitized(f.sym@),
                sig: c.fn_type(f.abi).1,
            })
            &&& later.instances[f.id] == v
            &&& later.text(v) == sanitized(f.sym@)
        }),
{
    crate::order::functions_only_add_types(c, f.abi);
    let (c1, v) = c.fn_value(f);
    crate::order::returns_only_add_types(c1, f.abi);
}

/// A function that is to be defined is opened with its name, its result, its
/// parameters by their numbers, its linkage, whether it takes more arguments, and which
/// of its parameters are on the stack; one that returns its value indirectly keeps the
/// type of that value.
pub proof fn predefined_functions_are_opened(c: Cx, f: FnRef, linkage: Linkage)
    ensures
        ({
            let later = c.predefine_fn(f, linkage);
            let name = sanitized(f.sym@);
            let func = later.module.open[name];
            let (c1, ret) = c.fn_value(f).0.ret_type(f.abi);
            let (c2, params) = c1.all_param_types(f.abi.args@, f.abi.args@.len());
            &&& later.module.open.contains_key(name)
            &&& func.name == name
            &&& func.return_type == ret
            &&& func.params == named_params(params)
            &&& func.linkage_prefix == linkage_prefix(linkage)
            &&& func.is_variadic == f.abi.c_variadic
            &&& func.on_stack_params == stack_params(f.abi.args@, f.abi.args@.len())
            &&& func.has_indirect_ret == (f.abi.ret.mode is Indirect)
            &&& func.locals.len() == 0
            &&& func.block_counter == 0
            &&& func.retbuf_name is None
            &&& !func.has_invoke
            &&& f.abi.ret.mode is Indirect ==> func.ret_data_type == Some(
                c2.layout_type(f.abi.ret.layout).1,
            )
        }),
{
    let ret = c.fn_value(f).0.ret_type(f.abi).1;
    let (c3, params) = c.predefined_params(f);
    let c4 = c3.with_module(
        c3.module.declare_fn(sanitized(f.sym@), c.definition_decl(f, linkage)),
    );
    crate::order::layout_only_adds_types(c4, f.abi.ret.layout);
    crate::order::layout_only_adds_types(c3, f.abi.ret.layout);
    crate::order::same_types_same_layout(c3, c4, f.abi.ret.layout);
}

/// The entry of a program is `main` of C: it gives an integer and takes a number of
/// arguments and a list of texts.
pub proof fn the_entry_is_main(c: Cx)
    requires
        c.types.len() + 2 < usize::MAX,
        c.values.len() < usize::MAX,
    ensures
        ({
            let (later, v) = c.declare_c_main();
            let func = later.module.open["main"@];
            let word = Kind::Int { bits: 32, signed: true };
            &&& later.text(v) == "main"@
            &&& later.module.open.contains_key("main"@)
            &&& func.name == "main"@
            &&& later.kind(func.return_type) == word
            &&& func.params.len() == 2
            &&& later.kind(func.params[0].0) == word
            &&& func.params[0].1 == "_arg"@ + dec(0)
            &&& later.kind(func.params[1].0) is Ptr
            &&& func.params[1].1 == "_arg"@ + dec(1)
            &&& func.param_type_overrides == seq![(1usize, "char **"@)]
        }),
{
    let word = Kind::Int { bits: 32, signed: true };
    interned_kind(c, word);
    interned_types_are_there(c, word);
    let (c1, t) = c.interns(word);
    let sig = Kind::Function { ret: t, args: Seq::empty(), variadic: false };
    interned_kind(c1, sig);
    interned_types_are_there(c1, sig);
    let (c2, s) = c1.interns(sig);
    interned_kind(c2, Kind::Ptr);
    reveal_strlit("_arg0");
    reveal_strlit("_arg1");
    reveal_strlit("_arg");
    assert("_arg0"@ =~= "_arg"@ + dec(0));
    assert("_arg1"@ =~= "_arg"@ + dec(1));
}

/// A label says the number of its block, and its name where it has one.
pub proof fn labels_say_the_number(counter: u32, name: Text)
    ensures
        crate::control::block_label_text(counter, Seq::empty()) == "bb"@ + dec(counter as nat),
        name.len() > 0 ==> crate::control::block_label_text(counter, name) == "bb"@ + (
        "_"@ + dec(counter as nat) + "_"@ + sanitized(name)),
{
    reveal_strlit("bb_");
    reveal_strlit("bb");
    reveal_strlit("_");
    assert("bb_"@ =~= "bb"@ + "_"@);
    let (n, s) = (dec(counter as nat), sanitized(name));
    assert("bb"@ + "_"@ + n + "_"@ + s =~= "bb"@ + ("_"@ + n + "_"@ + s));
}

/// A buffer for an indirect return has the type of the value and an alignment that is
/// at least that of the type and at least sixteen, and one of these.
pub proof fn return_buffers_are_aligned(b: crate::builder::Bx, t: TypeRef)
    requires
        b.is_open(),
        b.open_func().name == b.func,
        b.open_func().retbuf_name is None,
        b.open_func().ret_data_type == Some(t),
    ensures
        exists|align: nat|
            {
                let c = b.cx.intern(Kind::Ptr);
                let natural = natural_align(c.types, t.0 as nat, c.ptr_bytes);
                &&& b.retbuf_addr().0.open_func().locals.last() == "_Alignas("@ + #[trigger] dec(
                    align,
                ) + ") "@ + c.decl_str(t, "_retbuf"@) + ";"@
                &&& align >= natural
                &&& align >= 16
                &&& align == natural || align == 16
            },
{
    let c = b.cx.intern(Kind::Ptr);
    let natural = natural_align(c.types, t.0 as nat, c.ptr_bytes);
    let align: nat = if natural > 16 {
        natural as nat
    } else {
        16
    };
    assert(b.retbuf_addr().0.open_func().locals.last() == "_Alignas("@ + dec(align) + ") "@
        + c.decl_str(t, "_retbuf"@) + ";"@);
}

/// Parameters are taken one by one: none for an argument that is ignored, two for a
/// pair, and one else.
pub proof fn parameters_are_taken_one_by_one(mode: PassMode)
    ensures
        crate::params::params_used(mode) == if mode is Ignore {
            0int
        } else if mode is Pair {
            2
        } else {
            1
        },
{
}

/// The type of an argument as a whole: nothing where it is ignored, what it is cast to,
/// a pointer where it is passed indirectly but not on the stack, and its layout else.
pub proof fn arguments_have_one_type(c: Cx, arg: ArgAbi)
    requires
        c.types.len() < usize::MAX,
    ensures
        match arg.mode {
            PassMode::Ignore => c.arg_type(arg).0.kind(c.arg_type(arg).1) is Void,
            PassMode::Cast(cast) => c.arg_type(arg) == c.cast_type(cast),
            PassMode::Indirect { on_stack, .. } => if on_stack {
                c.arg_type(arg) == c.layout_type(arg.layout)
            } else {
                c.arg_type(arg).0.kind(c.arg_type(arg).1) is Ptr
            },
            _ => c.arg_type(arg) == c.layout_type(arg.layout),
        },
{
    interned_kind(c, Kind::Void);
    interned_kind(c, Kind::Ptr);
}

/// A cast with a prefix is a structure: an integer for each part of the prefix, in
/// order, and as many units behind them as hold the rest.
pub proof fn prefixes_come_first(c: Cx, t: CastTarget)
    requires
        t.prefix@.len() > 0,
        ({
            let unit = Kind::Int { bits: (t.rest_unit * 8) as u64, signed: true };
            c.interns(unit).0.prefix_types(t.prefix@, t.prefix@.len()).0.types.len() < usize::MAX
        }),
    ensures
        ({
            let unit = Kind::Int { bits: (t.rest_unit * 8) as u64, signed: true };
            let (c1, u) = c.interns(unit);
            let (c2, list) = c1.prefix_types(t.prefix@, t.prefix@.len());
            let (later, r) = c.cast_type(t);
            let fields = later.kind(r)->Struct_fields;
            &&& later.kind(r) is Struct
            &&& fields.len() == t.prefix@.len() + units(t)
            &&& forall|i: int| 0 <= i < t.prefix@.len() ==> fields[i] == list[i]
            &&& forall|i: int| t.prefix@.len() <= i < fields.len() ==> fields[i] == u
        }),
{
    let unit = Kind::Int { bits: (t.rest_unit * 8) as u64, signed: true };
    let (c1, u) = c.interns(unit);
    let (c2, list) = c1.prefix_types(t.prefix@, t.prefix@.len());
    prefixes_are_listed(c1, t.prefix@, t.prefix@.len());
    let all = list + Seq::new(units(t), |i: int| u);
    interned_kind(c2, crate::type_of::struct_kind(all));
}

proof fn prefixes_are_listed(c: Cx, prefix: Seq<u64>, n: nat)
    ensures
        c.prefix_types(prefix, n).1.len() == n,
    decreases n,
{
    if n > 0 {
        prefixes_are_listed(c, prefix, (n - 1) as nat);
    }
}

/// Each part of a prefix is an integer of its own size.
pub proof fn prefixes_have_their_size(c: Cx, prefix: Seq<u64>, n: nat)
    requires
        n < prefix.len(),
        c.prefix_types(prefix, n).0.types.len() < usize::MAX,
    ensures
        ({
            let (before, list) = c.prefix_types(prefix, n);
            let (later, more) = c.prefix_types(prefix, n + 1);
            &&& more.drop_last() == list
            &&& later.kind(more.last()) == (Kind::Int {
                bits: (prefix[n as int] * 8) as u64,
                signed: true,
            })
        }),
{
    let (before, list) = c.prefix_types(prefix, n);
    interned_kind(before, Kind::Int { bits: (prefix[n as int] * 8) as u64, signed: true });
    let (later, more) = c.prefix_types(prefix, n + 1);
    assert(more.drop_last() =~= list);
}

/// The function that tells what to do with an exception has its own name.
pub proof fn the_personality_has_a_name(c: Cx)
    requires
        c.personality is None,
        c.values.len() < usize::MAX,
    ensures
        c.eh_personality().0.text(c.eh_personality().1) == "__rust_eh_personality"@,
        c.eh_personality().0.personality == Some(c.eh_personality().1),
{
}

} // verus!
