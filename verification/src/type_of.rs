//! The C types of layouts, scalars and function signatures.
use vstd::prelude::*;

use crate::context::{extends, CodegenCx, Cx};
use crate::layout::{
    ArgAbi, BackendRepr, CastTarget, FnAbi, Layout, PassMode, Primitive, Scalar, TyTag,
};
use crate::types::{kinds_ok, refs_below, CTypeKind, Kind, TypeRef};

verus! {

/// The narrowest C integer width that holds `bits` bits.
pub open spec fn rounded(bits: u64) -> u64 {
    if bits <= 8 {
        8
    } else if bits <= 16 {
        16
    } else if bits <= 32 {
        32
    } else if bits <= 64 {
        64
    } else {
        128
    }
}

/// The kind of the C type of a scalar. A truth value has its own type, so that
/// it is negated by `!` and not by `~`.
pub open spec fn scalar_kind(s: Scalar) -> Kind {
    if s.is_bool {
        Kind::Bool
    } else {
        match s.primitive {
            Primitive::Int { bits, signed } => Kind::Int { bits: rounded(bits), signed },
            Primitive::Float { bits } => Kind::Float { bits },
            Primitive::Pointer => Kind::Ptr,
        }
    }
}

/// The kind of a type by its tag, where the tag decides.
pub open spec fn tag_kind(tag: TyTag) -> Option<Kind> {
    match tag {
        TyTag::Usize => Some(Kind::PtrWidth { signed: false }),
        TyTag::Isize => Some(Kind::PtrWidth { signed: true }),
        TyTag::Other => None,
    }
}

/// The kind of the C type of a scalar that is a field of a pair.
pub open spec fn field_kind(s: Scalar, pair: Layout, idx: int) -> Kind {
    if pair.single_variant && idx < pair.fields@.len() {
        match tag_kind(pair.fields@[idx]) {
            Some(k) => k,
            None => scalar_kind(s),
        }
    } else {
        scalar_kind(s)
    }
}

/// The kind of a structure without a name.
pub open spec fn struct_kind(fields: Seq<TypeRef>) -> Kind {
    Kind::Struct { fields, packed: false, name: None }
}

impl Cx {
    /// Interns a type: the state afterwards and the type.
    pub open spec fn interns(self, k: Kind) -> (Cx, TypeRef) {
        (self.intern(k), self.ty(k))
    }

    /// Interns the C type of a layout.
    pub open spec fn layout_type(self, l: Layout) -> (Cx, TypeRef) {
        if l.is_zst {
            self.interns(struct_kind(Seq::empty()))
        } else {
            match l.repr {
                BackendRepr::Scalar(s) => match tag_kind(l.ty) {
                    Some(k) => self.interns(k),
                    None => self.interns(scalar_kind(s)),
                },
                BackendRepr::ScalarPair(a, b) => {
                    let (c1, ta) = self.interns(field_kind(a, l, 0));
                    let (c2, tb) = c1.interns(field_kind(b, l, 1));
                    c2.interns(struct_kind(seq![ta, tb]))
                },
                BackendRepr::SimdVector { element, count } => {
                    let (c1, te) = self.interns(scalar_kind(element));
                    c1.interns(Kind::Vector { element: te, len: count })
                },
                BackendRepr::Memory => if l.size == 0 {
                    self.interns(struct_kind(Seq::empty()))
                } else {
                    let (c1, byte) = self.interns(Kind::Int { bits: 8, signed: true });
                    let (c2, arr) = c1.interns(Kind::Array { element: byte, len: l.size });
                    c2.interns(struct_kind(seq![arr]))
                },
            }
        }
    }

    /// Interns the integer types of the leading registers of a cast.
    pub open spec fn prefix_types(self, prefix: Seq<u64>, n: nat) -> (Cx, Seq<TypeRef>)
        decreases n,
    {
        if n == 0 {
            (self, Seq::empty())
        } else {
            let (c1, list) = self.prefix_types(prefix, (n - 1) as nat);
            let (c2, t) = c1.interns(Kind::Int { bits: bits_of(prefix[n - 1]), signed: true });
            (c2, list.push(t))
        }
    }

    /// Interns the C type of a cast: one integer where there are no leading
    /// registers, else a structure with a field for each register.
    pub open spec fn cast_type(self, t: CastTarget) -> (Cx, TypeRef) {
        if t.prefix@.len() == 0 {
            if t.size == 0 {
                self.interns(Kind::Void)
            } else {
                self.interns(Kind::Int { bits: cast_bits(t.size), signed: true })
            }
        } else {
            let (c1, unit) = self.interns(Kind::Int { bits: bits_of(t.rest_unit), signed: true });
            let (c2, list) = c1.prefix_types(t.prefix@, t.prefix@.len());
            c2.interns(struct_kind(list + Seq::new(units(t), |i: int| unit)))
        }
    }

    /// Interns the C return type of a function.
    pub open spec fn ret_type(self, abi: FnAbi) -> (Cx, TypeRef) {
        match abi.ret.mode {
            PassMode::Ignore => self.interns(Kind::Void),
            PassMode::Cast(cast) => self.cast_type(cast),
            _ => self.layout_type(abi.ret.layout),
        }
    }

    /// Interns the C type of an argument that is one parameter.
    pub open spec fn arg_type(self, arg: ArgAbi) -> (Cx, TypeRef) {
        match arg.mode {
            PassMode::Ignore => self.interns(Kind::Void),
            PassMode::Direct => self.layout_type(arg.layout),
            PassMode::Pair => self.layout_type(arg.layout),
            PassMode::Cast(cast) => self.cast_type(cast),
            PassMode::Indirect { on_stack, .. } => if on_stack {
                self.layout_type(arg.layout)
            } else {
                self.interns(Kind::Ptr)
            },
        }
    }

    /// Interns the C types of the parameters that one argument becomes.
    pub open spec fn param_types(self, arg: ArgAbi) -> (Cx, Seq<TypeRef>) {
        match arg.mode {
            PassMode::Ignore => (self, Seq::empty()),
            PassMode::Pair => match arg.layout.repr {
                BackendRepr::ScalarPair(a, b) => {
                    let (c1, ta) = self.interns(field_kind(a, arg.layout, 0));
                    let (c2, tb) = c1.interns(field_kind(b, arg.layout, 1));
                    (c2, seq![ta, tb])
                },
                _ => {
                    let (c1, t) = self.layout_type(arg.layout);
                    (c1, seq![t])
                },
            },
            PassMode::Indirect { has_meta: true, .. } => {
                let (c1, p) = self.interns(Kind::Ptr);
                (c1, seq![p, p])
            },
            _ => {
                let (c1, t) = self.arg_type(arg);
                (c1, seq![t])
            },
        }
    }

    /// Interns the C types of the parameters of the first `n` arguments.
    pub open spec fn all_param_types(self, args: Seq<ArgAbi>, n: nat) -> (Cx, Seq<TypeRef>)
        decreases n,
    {
        if n == 0 {
            (self, Seq::empty())
        } else {
            let (c1, list) = self.all_param_types(args, (n - 1) as nat);
            let (c2, more) = c1.param_types(args[n - 1]);
            (c2, list + more)
        }
    }

    /// Interns the C type of a function.
    pub open spec fn fn_type(self, abi: FnAbi) -> (Cx, TypeRef) {
        let (c1, ret) = self.ret_type(abi);
        let (c2, args) = c1.all_param_types(abi.args@, abi.args@.len());
        c2.interns(Kind::Function { ret, args, variadic: abi.c_variadic })
    }
}

/// The number of bits of a register of `size` bytes.
pub open spec fn bits_of(size: u64) -> u64 {
    (size * 8) as u64
}

/// The width of the integer in which a cast of `size` bytes is passed: the
/// narrowest named one that holds it, and beyond those its own.
pub open spec fn cast_bits(size: u64) -> u64 {
    if bits_of(size) > 128 {
        bits_of(size)
    } else {
        rounded(bits_of(size))
    }
}

/// The number of registers that follow the leading ones.
pub open spec fn units(t: CastTarget) -> nat {
    if t.rest_total == 0 {
        0
    } else {
        ((t.rest_total - 1) / (t.rest_unit as int) + 1) as nat
    }
}

/// The narrowest C integer width that holds `bits` bits.
pub fn round_bits(bits: u64) -> (r: u64)
    ensures
        r == rounded(bits),
{
    if bits <= 8 {
        8
    } else if bits <= 16 {
        16
    } else if bits <= 32 {
        32
    } else if bits <= 64 {
        64
    } else {
        128
    }
}

/// The C type of a scalar.
pub fn scalar_to_c_type(cx: &mut CodegenCx, scalar: Scalar) -> (r: TypeRef)
    requires
        old(cx).wf(),
    ensures
        final(cx).wf(),
        (final(cx)@, r) == old(cx)@.interns(scalar_kind(scalar)),
        final(cx)@.has_type(r),
        old(cx)@.within(final(cx)@),
{
    if scalar.is_bool {
        return cx.intern_type(CTypeKind::Bool);
    }
    match scalar.primitive {
        Primitive::Int { bits, signed } => cx.intern_type(
            CTypeKind::Int { bits: round_bits(bits), signed },
        ),
        Primitive::Float { bits } => cx.intern_type(CTypeKind::Float { bits }),
        Primitive::Pointer => cx.intern_type(CTypeKind::Ptr),
    }
}

/// The C type of a scalar that is a field of a pair: an integer as wide as a
/// pointer where the field's own type is one.
pub fn scalar_field_to_c_type(
    cx: &mut CodegenCx,
    scalar: Scalar,
    pair_layout: &Layout,
    field_idx: usize,
) -> (r: TypeRef)
    requires
        old(cx).wf(),
    ensures
        final(cx).wf(),
        (final(cx)@, r) == old(cx)@.interns(field_kind(scalar, *pair_layout, field_idx as int)),
        final(cx)@.has_type(r),
        old(cx)@.within(final(cx)@),
{
    if pair_layout.single_variant && field_idx < pair_layout.fields.len() {
        match pair_layout.fields[field_idx] {
            TyTag::Usize => {
                return cx.intern_type(CTypeKind::PtrWidth { signed: false });
            },
            TyTag::Isize => {
                return cx.intern_type(CTypeKind::PtrWidth { signed: true });
            },
            TyTag::Other => {},
        }
    }
    scalar_to_c_type(cx, scalar)
}

/// Interns a structure without a name.
fn intern_struct(cx: &mut CodegenCx, fields: Vec<TypeRef>) -> (r: TypeRef)
    requires
        old(cx).wf(),
        old(cx)@.has_types(fields@),
    ensures
        final(cx).wf(),
        (final(cx)@, r) == old(cx)@.interns(struct_kind(fields@)),
        final(cx)@.has_type(r),
        old(cx)@.within(final(cx)@),
{
    cx.intern_type(CTypeKind::Struct { fields, packed: false, name: None })
}

/// The C type of a layout.
pub fn layout_to_c_type(cx: &mut CodegenCx, layout: &Layout) -> (r: TypeRef)
    requires
        old(cx).wf(),
    ensures
        final(cx).wf(),
        (final(cx)@, r) == old(cx)@.layout_type(*layout),
        final(cx)@.has_type(r),
        old(cx)@.within(final(cx)@),
{
    if layout.is_zst {
        let none: Vec<TypeRef> = Vec::new();
        return intern_struct(cx, none);
    }
    match layout.repr {
        BackendRepr::Scalar(scalar) => match layout.ty {
            TyTag::Usize => cx.intern_type(CTypeKind::PtrWidth { signed: false }),
            TyTag::Isize => cx.intern_type(CTypeKind::PtrWidth { signed: true }),
            TyTag::Other => scalar_to_c_type(cx, scalar),
        },
        BackendRepr::ScalarPair(a, b) => {
            let a_ty = scalar_field_to_c_type(cx, a, layout, 0);
            let b_ty = scalar_field_to_c_type(cx, b, layout, 1);
            let fields = vec![a_ty, b_ty];
            assert(fields@ =~= seq![a_ty, b_ty]);
            intern_struct(cx, fields)
        },
        BackendRepr::SimdVector { element, count } => {
            let elem_ty = scalar_to_c_type(cx, element);
            cx.intern_type(CTypeKind::Vector { element: elem_ty, len: count })
        },
        BackendRepr::Memory => {
            if layout.size == 0 {
                let none: Vec<TypeRef> = Vec::new();
                return intern_struct(cx, none);
            }
            let byte_ty = cx.type_int(8);
            let arr_ty = cx.intern_type(CTypeKind::Array { element: byte_ty, len: layout.size });
            let fields = vec![arr_ty];
            assert(fields@ =~= seq![arr_ty]);
            intern_struct(cx, fields)
        },
    }
}

/// The C type of a cast.
pub fn cast_target_to_c_type(cx: &mut CodegenCx, target: &CastTarget) -> (r: TypeRef)
    requires
        old(cx).wf(),
        target.wf(),
    ensures
        final(cx).wf(),
        (final(cx)@, r) == old(cx)@.cast_type(*target),
        final(cx)@.has_type(r),
        old(cx)@.within(final(cx)@),
{
    if target.prefix.len() == 0 {
        if target.size == 0 {
            return cx.intern_type(CTypeKind::Void);
        }
        let bits: u64 = target.size * 8;
        return cx.type_int(
            if bits > 128 {
                bits
            } else {
                round_bits(bits)
            },
        );
    }
    let rest_unit_ty = cx.type_int(target.rest_unit * 8);
    let ghost c1 = cx@;
    let rest_count: u64 = if target.rest_total == 0 {
        0
    } else {
        (target.rest_total - 1) / target.rest_unit + 1
    };
    assert(rest_count == units(*target));
    let mut fields: Vec<TypeRef> = Vec::new();
    let mut i: usize = 0;
    while i < target.prefix.len()
        invariant
            i <= target.prefix@.len(),
            target.wf(),
            cx.wf(),
            (cx@, fields@) == c1.prefix_types(target.prefix@, i as nat),
            cx@.has_types(fields@),
            c1.within(cx@),
        decreases target.prefix@.len() - i,
    {
        let size = target.prefix[i];
        fields.push(cx.type_int(size * 8));
        i = i + 1;
    }
    let ghost prefix = fields@;
    let ghost c2 = cx@;
    let mut j: u64 = 0;
    while j < rest_count
        invariant
            j <= rest_count,
            cx.wf(),
            cx@ == c2,
            cx@.has_type(rest_unit_ty),
            cx@.has_types(fields@),
            fields@ == prefix + Seq::new(j as nat, |i: int| rest_unit_ty),
        decreases rest_count - j,
    {
        fields.push(rest_unit_ty);
        j = j + 1;
        assert(fields@ =~= prefix + Seq::new(j as nat, |i: int| rest_unit_ty));
    }
    intern_struct(cx, fields)
}

/// The C return type of a function. A value that is returned indirectly has
/// its own type too: the C compiler passes the hidden pointer.
pub fn fn_abi_ret_type(cx: &mut CodegenCx, fn_abi: &FnAbi) -> (r: TypeRef)
    requires
        old(cx).wf(),
        fn_abi.wf(),
    ensures
        final(cx).wf(),
        (final(cx)@, r) == old(cx)@.ret_type(*fn_abi),
        final(cx)@.has_type(r),
        old(cx)@.within(final(cx)@),
{
    match &fn_abi.ret.mode {
        PassMode::Ignore => cx.intern_type(CTypeKind::Void),
        PassMode::Cast(cast) => cast_target_to_c_type(cx, cast),
        _ => layout_to_c_type(cx, &fn_abi.ret.layout),
    }
}

/// The C type of an argument that is one parameter.
pub fn fn_abi_arg_type(cx: &mut CodegenCx, arg: &ArgAbi) -> (r: TypeRef)
    requires
        old(cx).wf(),
        arg.wf(),
    ensures
        final(cx).wf(),
        (final(cx)@, r) == old(cx)@.arg_type(*arg),
        final(cx)@.has_type(r),
        old(cx)@.within(final(cx)@),
{
    match &arg.mode {
        PassMode::Ignore => cx.intern_type(CTypeKind::Void),
        PassMode::Direct => layout_to_c_type(cx, &arg.layout),
        PassMode::Pair => layout_to_c_type(cx, &arg.layout),
        PassMode::Cast(cast) => cast_target_to_c_type(cx, cast),
        PassMode::Indirect { on_stack, .. } => {
            if *on_stack {
                layout_to_c_type(cx, &arg.layout)
            } else {
                cx.intern_type(CTypeKind::Ptr)
            }
        },
    }
}

/// The C types of the parameters that one argument becomes: none where it is
/// ignored, two for a pair and for a pointer with metadata, else one.
pub fn fn_abi_param_types(cx: &mut CodegenCx, arg: &ArgAbi) -> (r: Vec<TypeRef>)
    requires
        old(cx).wf(),
        arg.wf(),
    ensures
        final(cx).wf(),
        (final(cx)@, r@) == old(cx)@.param_types(*arg),
        final(cx)@.has_types(r@),
        old(cx)@.within(final(cx)@),
{
    match &arg.mode {
        PassMode::Ignore => {
            let none: Vec<TypeRef> = Vec::new();
            none
        },
        PassMode::Pair => match arg.layout.repr {
            BackendRepr::ScalarPair(a, b) => {
                let a_ty = scalar_field_to_c_type(cx, a, &arg.layout, 0);
                let b_ty = scalar_field_to_c_type(cx, b, &arg.layout, 1);
                let r = vec![a_ty, b_ty];
                assert(r@ =~= seq![a_ty, b_ty]);
                r
            },
            _ => {
                let t = layout_to_c_type(cx, &arg.layout);
                let r = vec![t];
                assert(r@ =~= seq![t]);
                r
            },
        },
        PassMode::Indirect { has_meta: true, .. } => {
            let p = cx.type_ptr();
            let r = vec![p, p];
            assert(r@ =~= seq![p, p]);
            r
        },
        _ => {
            let t = fn_abi_arg_type(cx, arg);
            let r = vec![t];
            assert(r@ =~= seq![t]);
            r
        },
    }
}

/// The C types of all parameters of a function.
pub fn fn_abi_all_param_types(cx: &mut CodegenCx, fn_abi: &FnAbi) -> (r: Vec<TypeRef>)
    requires
        old(cx).wf(),
        fn_abi.wf(),
    ensures
        final(cx).wf(),
        (final(cx)@, r@) == old(cx)@.all_param_types(fn_abi.args@, fn_abi.args@.len()),
        final(cx)@.has_types(r@),
        old(cx)@.within(final(cx)@),
{
    let ghost start = cx@;
    let mut args: Vec<TypeRef> = Vec::new();
    let mut i: usize = 0;
    while i < fn_abi.args.len()
        invariant
            i <= fn_abi.args@.len(),
            fn_abi.wf(),
            cx.wf(),
            (cx@, args@) == start.all_param_types(fn_abi.args@, i as nat),
            cx@.has_types(args@),
            start.within(cx@),
        decreases fn_abi.args@.len() - i,
    {
        let mut more = fn_abi_param_types(cx, &fn_abi.args[i]);
        let ghost before = args@;
        let ghost extra = more@;
        args.append(&mut more);
        i = i + 1;
        proof {
            assert forall|k: int| 0 <= k < args@.len() implies (#[trigger] args@[k]).0
                < cx@.types.len() by {
                if k < before.len() {
                    assert(args@[k] == before[k]);
                } else {
                    assert(args@[k] == extra[k - before.len()]);
                }
            }
            assert(refs_below(args@, cx@.types.len() as int));
        }
    }
    args
}

/// The C type of a function.
pub fn fn_abi_to_c_type(cx: &mut CodegenCx, fn_abi: &FnAbi) -> (r: TypeRef)
    requires
        old(cx).wf(),
        fn_abi.wf(),
    ensures
        final(cx).wf(),
        (final(cx)@, r) == old(cx)@.fn_type(*fn_abi),
        final(cx)@.has_type(r),
        final(cx)@.kind(r) is Function,
        old(cx)@.within(final(cx)@),
{
    let ret = fn_abi_ret_type(cx, fn_abi);
    let args = fn_abi_all_param_types(cx, fn_abi);
    cx.intern_type(CTypeKind::Function { ret, args, variadic: fn_abi.c_variadic })
}

// --- Conversions are stable ---

/// Whether the types of a state are in order and can all be referred to.
pub open spec fn types_ok(c: Cx) -> bool {
    kinds_ok(c.types) && c.types.len() <= usize::MAX
}

/// Interning a kind again, at any later time, gives the same type and changes
/// nothing.
pub proof fn interning_is_stable(c: Cx, k: Kind, later: Cx)
    requires
        types_ok(later),
        extends(c.interns(k).0.types, later.types),
    ensures
        later.interns(k) == (later, c.interns(k).1),
{
    let r = if c.types.contains(k) {
        c.types.index_of(k)
    } else {
        c.types.len() as int
    };
    assert(c.intern(k).types[r] == k);
    assert(later.types[r] == k);
    assert(later.types.contains(k));
    assert(later.types.index_of(k) == r);
    assert(later.intern(k) =~= later);
}

proof fn interning_extends(c: Cx, k: Kind)
    ensures
        extends(c.types, c.intern(k).types),
{
}

/// Converting a layout again, at any later time, gives the same type and
/// changes nothing.
pub proof fn layout_type_is_stable(c: Cx, l: Layout, later: Cx)
    requires
        types_ok(later),
        extends(c.layout_type(l).0.types, later.types),
    ensures
        later.layout_type(l) == (later, c.layout_type(l).1),
        extends(c.types, c.layout_type(l).0.types),
{
    if l.is_zst {
        interning_is_stable(c, struct_kind(Seq::empty()), later);
    } else {
        match l.repr {
            BackendRepr::Scalar(s) => match tag_kind(l.ty) {
                Some(k) => interning_is_stable(c, k, later),
                None => interning_is_stable(c, scalar_kind(s), later),
            },
            BackendRepr::ScalarPair(a, b) => {
                let (c1, ta) = c.interns(field_kind(a, l, 0));
                let (c2, tb) = c1.interns(field_kind(b, l, 1));
                interning_is_stable(c, field_kind(a, l, 0), later);
                interning_is_stable(c1, field_kind(b, l, 1), later);
                interning_is_stable(c2, struct_kind(seq![ta, tb]), later);
            },
            BackendRepr::SimdVector { element, count } => {
                let (c1, te) = c.interns(scalar_kind(element));
                interning_is_stable(c, scalar_kind(element), later);
                interning_is_stable(c1, Kind::Vector { element: te, len: count }, later);
            },
            BackendRepr::Memory => if l.size == 0 {
                interning_is_stable(c, struct_kind(Seq::empty()), later);
            } else {
                let byte = Kind::Int { bits: 8, signed: true };
                let (c1, tb) = c.interns(byte);
                let (c2, ta) = c1.interns(Kind::Array { element: tb, len: l.size });
                interning_is_stable(c, byte, later);
                interning_is_stable(c1, Kind::Array { element: tb, len: l.size }, later);
                interning_is_stable(c2, struct_kind(seq![ta]), later);
            },
        }
    }
}

proof fn prefix_types_are_stable(c: Cx, prefix: Seq<u64>, n: nat, later: Cx)
    requires
        types_ok(later),
        extends(c.prefix_types(prefix, n).0.types, later.types),
    ensures
        later.prefix_types(prefix, n) == (later, c.prefix_types(prefix, n).1),
        extends(c.types, c.prefix_types(prefix, n).0.types),
    decreases n,
{
    if n > 0 {
        let (c1, list) = c.prefix_types(prefix, (n - 1) as nat);
        let k = Kind::Int { bits: bits_of(prefix[n - 1]), signed: true };
        interning_is_stable(c1, k, later);
        interning_extends(c1, k);
        prefix_types_are_stable(c, prefix, (n - 1) as nat, later);
    }
}

/// Converting a cast again, at any later time, gives the same type and changes
/// nothing.
pub proof fn cast_type_is_stable(c: Cx, t: CastTarget, later: Cx)
    requires
        types_ok(later),
        extends(c.cast_type(t).0.types, later.types),
    ensures
        later.cast_type(t) == (later, c.cast_type(t).1),
        extends(c.types, c.cast_type(t).0.types),
{
    if t.prefix@.len() == 0 {
        if t.size == 0 {
            interning_is_stable(c, Kind::Void, later);
        } else {
            interning_is_stable(
                c,
                Kind::Int { bits: cast_bits(t.size), signed: true },
                later,
            );
        }
    } else {
        let k = Kind::Int { bits: bits_of(t.rest_unit), signed: true };
        let (c1, unit) = c.interns(k);
        let n = t.prefix@.len();
        let (c2, list) = c1.prefix_types(t.prefix@, n);
        let fields = struct_kind(list + Seq::new(units(t), |i: int| unit));
        interning_is_stable(c2, fields, later);
        interning_extends(c2, fields);
        prefix_types_are_stable(c1, t.prefix@, n, later);
        interning_is_stable(c, k, later);
    }
}

/// Converting a return value again, at any later time, gives the same type and
/// changes nothing.
pub proof fn ret_type_is_stable(c: Cx, abi: FnAbi, later: Cx)
    requires
        types_ok(later),
        extends(c.ret_type(abi).0.types, later.types),
    ensures
        later.ret_type(abi) == (later, c.ret_type(abi).1),
        extends(c.types, c.ret_type(abi).0.types),
{
    match abi.ret.mode {
        PassMode::Ignore => interning_is_stable(c, Kind::Void, later),
        PassMode::Cast(cast) => cast_type_is_stable(c, cast, later),
        _ => layout_type_is_stable(c, abi.ret.layout, later),
    }
}

proof fn param_types_are_stable(c: Cx, arg: ArgAbi, later: Cx)
    requires
        types_ok(later),
        extends(c.param_types(arg).0.types, later.types),
    ensures
        later.param_types(arg) == (later, c.param_types(arg).1),
        extends(c.types, c.param_types(arg).0.types),
{
    match arg.mode {
        PassMode::Ignore => {},
        PassMode::Pair => match arg.layout.repr {
            BackendRepr::ScalarPair(a, b) => {
                let (c1, ta) = c.interns(field_kind(a, arg.layout, 0));
                interning_is_stable(c, field_kind(a, arg.layout, 0), later);
                interning_is_stable(c1, field_kind(b, arg.layout, 1), later);
            },
            _ => layout_type_is_stable(c, arg.layout, later),
        },
        PassMode::Indirect { has_meta: true, .. } => interning_is_stable(c, Kind::Ptr, later),
        PassMode::Indirect { on_stack, .. } => if on_stack {
            layout_type_is_stable(c, arg.layout, later);
        } else {
            interning_is_stable(c, Kind::Ptr, later);
        },
        PassMode::Cast(cast) => cast_type_is_stable(c, cast, later),
        PassMode::Direct => layout_type_is_stable(c, arg.layout, later),
    }
}

/// Converting parameters again, at any later time, gives the same types and
/// changes nothing.
pub proof fn all_param_types_are_stable(c: Cx, args: Seq<ArgAbi>, n: nat, later: Cx)
    requires
        types_ok(later),
        extends(c.all_param_types(args, n).0.types, later.types),
    ensures
        later.all_param_types(args, n) == (later, c.all_param_types(args, n).1),
        extends(c.types, c.all_param_types(args, n).0.types),
    decreases n,
{
    if n > 0 {
        let c1 = c.all_param_types(args, (n - 1) as nat).0;
        param_types_are_stable(c1, args[n - 1], later);
        all_param_types_are_stable(c, args, (n - 1) as nat, later);
    }
}

/// Converting a function's calling convention again, at any later time, gives
/// the same type and changes nothing.
pub proof fn fn_type_is_stable(c: Cx, abi: FnAbi, later: Cx)
    requires
        types_ok(later),
        extends(c.fn_type(abi).0.types, later.types),
    ensures
        later.fn_type(abi) == (later, c.fn_type(abi).1),
        extends(c.types, c.fn_type(abi).0.types),
{
    let (c1, ret) = c.ret_type(abi);
    let (c2, args) = c1.all_param_types(abi.args@, abi.args@.len());
    let k = Kind::Function { ret, args, variadic: abi.c_variadic };
    interning_is_stable(c2, k, later);
    interning_extends(c2, k);
    all_param_types_are_stable(c1, abi.args@, abi.args@.len(), later);
    ret_type_is_stable(c, abi, later);
}

/// A cast without leading registers is an integer that holds all of it, whatever
/// its size, and less than twice as much where it is more than a byte.
pub proof fn casts_are_held_whole(c: Cx, t: CastTarget)
    requires
        t.wf(),
        c.types.len() < usize::MAX,
        t.prefix@.len() == 0,
        t.size > 0,
    ensures
        ({
            let (c1, r) = c.cast_type(t);
            &&& c1.kind(r) matches Kind::Int { bits, signed: true } && bits >= 8 * t.size && (
            t.size > 1 ==> bits < 16 * t.size)
        }),
{
    let k = Kind::Int { bits: cast_bits(t.size), signed: true };
    if c.types.contains(k) {
        assert(c.types[c.types.index_of(k)] == k);
    }
}

/// The width that a scalar is rounded up to holds it, is one that C has, and is
/// no wider than needed.
pub proof fn rounded_width_fits(bits: u64)
    requires
        bits <= 128,
    ensures
        rounded(bits) >= bits,
        rounded(bits) == 8 || rounded(bits) == 16 || rounded(bits) == 32 || rounded(bits) == 64
            || rounded(bits) == 128,
        bits > 8 ==> rounded(bits) < 2 * bits,
        rounded(rounded(bits)) == rounded(bits),
{
}

} // verus!
