//! C types: the kinds of type that are generated, the store that interns them,
//! and how a type and a declaration are written.
use vstd::prelude::*;

use crate::context::extends;
use crate::text::{dec, dec_u64, dec_usize, join, join_strings, same_text, texts, Text};

verus! {

/// A reference to a type in a [`TypeStore`].
#[derive(Clone, Copy, PartialEq, Eq, Structural, Debug)]
pub struct TypeRef(pub usize);

/// The kinds of C type.
#[derive(Debug)]
pub enum CTypeKind {
    Void,
    Bool,
    Int { bits: u64, signed: bool },
    /// An integer as wide as a pointer.
    PtrWidth { signed: bool },
    Float { bits: u64 },
    Ptr,
    Array { element: TypeRef, len: u64 },
    Vector { element: TypeRef, len: u64 },
    Struct { fields: Vec<TypeRef>, packed: bool, name: Option<String> },
    Function { ret: TypeRef, args: Vec<TypeRef>, variadic: bool },
}

/// The kinds of C type, as contracts speak of them.
pub enum Kind {
    Void,
    Bool,
    Int { bits: u64, signed: bool },
    PtrWidth { signed: bool },
    Float { bits: u64 },
    Ptr,
    Array { element: TypeRef, len: u64 },
    Vector { element: TypeRef, len: u64 },
    Struct { fields: Seq<TypeRef>, packed: bool, name: Option<Text> },
    Function { ret: TypeRef, args: Seq<TypeRef>, variadic: bool },
}

/// The text of an optional string.
pub open spec fn opt_text(s: Option<String>) -> Option<Text> {
    match s {
        Some(s) => Some(s@),
        None => None,
    }
}

impl View for CTypeKind {
    type V = Kind;

    open spec fn view(&self) -> Kind {
        match *self {
            CTypeKind::Void => Kind::Void,
            CTypeKind::Bool => Kind::Bool,
            CTypeKind::Int { bits, signed } => Kind::Int { bits, signed },
            CTypeKind::PtrWidth { signed } => Kind::PtrWidth { signed },
            CTypeKind::Float { bits } => Kind::Float { bits },
            CTypeKind::Ptr => Kind::Ptr,
            CTypeKind::Array { element, len } => Kind::Array { element, len },
            CTypeKind::Vector { element, len } => Kind::Vector { element, len },
            CTypeKind::Struct { fields, packed, name } => Kind::Struct {
                fields: fields@,
                packed,
                name: opt_text(name),
            },
            CTypeKind::Function { ret, args, variadic } => Kind::Function {
                ret,
                args: args@,
                variadic,
            },
        }
    }
}

// --- The store ---

/// Whether every reference of a list comes before the position `n`.
pub open spec fn refs_below(list: Seq<TypeRef>, n: int) -> bool {
    forall|i: int| 0 <= i < list.len() ==> (#[trigger] list[i]).0 < n
}

/// Whether every type that a kind refers to comes before the position `n`.
pub open spec fn kind_ok(k: Kind, n: int) -> bool {
    match k {
        Kind::Array { element, .. } => element.0 < n,
        Kind::Vector { element, .. } => element.0 < n,
        Kind::Struct { fields, .. } => refs_below(fields, n),
        Kind::Function { ret, args, .. } => ret.0 < n && refs_below(args, n),
        _ => true,
    }
}

/// A list of kinds is well formed when each refers to earlier ones only and no
/// kind is there twice.
pub open spec fn kinds_ok(types: Seq<Kind>) -> bool {
    &&& forall|i: int| 0 <= i < types.len() ==> kind_ok(#[trigger] types[i], i)
    &&& types.no_duplicates()
}

/// The kinds after `k` was interned.
pub open spec fn interned(types: Seq<Kind>, k: Kind) -> Seq<Kind> {
    if types.contains(k) {
        types
    } else {
        types.push(k)
    }
}

/// The reference that interning `k` gives.
pub open spec fn ref_of(types: Seq<Kind>, k: Kind) -> TypeRef {
    if types.contains(k) {
        TypeRef(types.index_of(k) as usize)
    } else {
        TypeRef(types.len() as usize)
    }
}

// --- Text ---

/// The names of the C integer types.
pub open spec fn int_name(bits: nat, signed: bool) -> Text {
    if signed {
        "int"@ + dec(bits) + "_t"@
    } else {
        "uint"@ + dec(bits) + "_t"@
    }
}

/// The text of an integer type: the smallest of the named types that has room for
/// `bits` bits, and beyond those the bit-precise type of that width.
pub open spec fn int_type_text(bits: u64, signed: bool) -> Text {
    if bits <= 128 {
        int_name((int_bytes(bits) * 8) as nat, signed)
    } else if signed {
        "_BitInt("@ + dec(bits as nat) + ")"@
    } else {
        "unsigned _BitInt("@ + dec(bits as nat) + ")"@
    }
}

/// The names of the C floating-point types.
pub open spec fn float_name(bits: u64) -> Text {
    if bits == 16 {
        "_Float16"@
    } else if bits == 32 {
        "float"@
    } else if bits == 64 {
        "double"@
    } else {
        "__float128"@
    }
}

/// A parameter list: `void` where there is nothing to list, and `...` at the
/// end where the function is variadic.
pub open spec fn params_text(params: Seq<Text>, variadic: bool) -> Text {
    if params.len() == 0 {
        if variadic {
            "..."@
        } else {
            "void"@
        }
    } else if variadic {
        join(params, ", "@) + ", ..."@
    } else {
        join(params, ", "@)
    }
}

/// The texts of the parameter types of the function type at `t`.
pub open spec fn texts_below(types: Seq<Kind>, list: Seq<TypeRef>, t: nat) -> Seq<Text>
    decreases t, 0nat,
{
    Seq::new(
        list.len(),
        |i: int|
            if 0 <= i < list.len() && list[i].0 < t {
                type_text(types, list[i].0 as nat)
            } else {
                Seq::empty()
            },
    )
}

/// The text of a type, as in a cast.
pub open spec fn type_text(types: Seq<Kind>, t: nat) -> Text
    decreases t, 1nat,
{
    match types[t as int] {
        Kind::Void => "void"@,
        Kind::Bool => "_Bool"@,
        Kind::Int { bits, signed } => int_type_text(bits, signed),
        Kind::PtrWidth { signed } => if signed {
            "__rustc_isize"@
        } else {
            "__rustc_usize"@
        },
        Kind::Float { bits } => float_name(bits),
        Kind::Ptr => "void *"@,
        Kind::Array { element, len } => if element.0 < t {
            type_text(types, element.0 as nat) + "["@ + dec(len as nat) + "]"@
        } else {
            Seq::empty()
        },
        Kind::Vector { .. } => "struct _vec"@ + dec(t),
        Kind::Struct { name, .. } => match name {
            Some(n) => "struct "@ + n,
            None => "struct _s"@ + dec(t),
        },
        Kind::Function { ret, args, variadic } => if ret.0 < t {
            type_text(types, ret.0 as nat) + " (*)("@ + params_text(
                texts_below(types, args, t),
                variadic,
            ) + ")"@
        } else {
            Seq::empty()
        },
    }
}

/// The texts of a list of types.
pub open spec fn type_texts(types: Seq<Kind>, list: Seq<TypeRef>) -> Seq<Text> {
    list.map_values(|t: TypeRef| type_text(types, t.0 as nat))
}

/// The text of a declaration of `name` with a type.
pub open spec fn decl_text(types: Seq<Kind>, t: nat, name: Text) -> Text
    decreases t,
{
    match types[t as int] {
        Kind::Array { element, len } => if element.0 < t {
            decl_text(types, element.0 as nat, name + "["@ + dec(len as nat) + "]"@)
        } else {
            Seq::empty()
        },
        Kind::Function { ret, args, variadic } => type_text(types, ret.0 as nat) + " (*"@ + name
            + ")("@ + params_text(type_texts(types, args), variadic) + ")"@,
        _ => type_text(types, t) + " "@ + name,
    }
}

/// The number of bytes of the smallest named C type with at least `bits` bits, and
/// 16 where none is that wide: also the alignment of the type of that width.
pub open spec fn int_bytes(bits: u64) -> u64 {
    if bits <= 8 {
        1
    } else if bits <= 16 {
        2
    } else if bits <= 32 {
        4
    } else if bits <= 64 {
        8
    } else {
        16
    }
}

/// The larger of two alignments.
pub open spec fn max_align(a: u64, b: u64) -> u64 {
    if a >= b {
        a
    } else {
        b
    }
}

/// The largest alignment among the first `n` fields of the structure at `t`, at
/// least 1.
pub open spec fn fields_align(
    types: Seq<Kind>,
    t: nat,
    fields: Seq<TypeRef>,
    n: nat,
    ptr_bytes: u64,
) -> u64
    decreases t, n,
{
    if n == 0 || n > fields.len() {
        1
    } else {
        let f = fields[n - 1].0 as nat;
        max_align(
            fields_align(types, t, fields, (n - 1) as nat, ptr_bytes),
            if f < t {
                natural_align(types, f, ptr_bytes)
            } else {
                1
            },
        )
    }
}

/// The alignment in bytes that C gives a type.
pub open spec fn natural_align(types: Seq<Kind>, t: nat, ptr_bytes: u64) -> u64
    decreases t, u64::MAX as nat + 1 + types.len(),
{
    match types[t as int] {
        Kind::Void => 1,
        Kind::Bool => 1,
        Kind::Int { bits, .. } => int_bytes(bits),
        Kind::PtrWidth { .. } => ptr_bytes,
        Kind::Float { bits } => int_bytes(bits),
        Kind::Ptr => ptr_bytes,
        Kind::Array { element, .. } => if element.0 < t {
            natural_align(types, element.0 as nat, ptr_bytes)
        } else {
            1
        },
        Kind::Vector { element, .. } => if element.0 < t {
            natural_align(types, element.0 as nat, ptr_bytes)
        } else {
            1
        },
        Kind::Struct { fields, packed, .. } => if packed || fields.len() > u64::MAX {
            1
        } else {
            fields_align(types, t, fields, fields.len(), ptr_bytes)
        },
        Kind::Function { .. } => ptr_bytes,
    }
}

/// Interns C types: each kind is there once, and keeps its reference.
#[derive(Debug)]
pub struct TypeStore {
    pub kinds: Vec<CTypeKind>,
}

impl View for TypeStore {
    type V = Seq<Kind>;

    open spec fn view(&self) -> Seq<Kind> {
        self.kinds@.map_values(|k: CTypeKind| k@)
    }
}

/// Whether two lists of references are the same.
fn same_refs(a: &Vec<TypeRef>, b: &Vec<TypeRef>) -> (r: bool)
    ensures
        r == (a@ == b@),
{
    if a.len() != b.len() {
        return false;
    }
    let mut i: usize = 0;
    while i < a.len()
        invariant
            i <= a@.len(),
            a@.len() == b@.len(),
            forall|k: int| 0 <= k < i ==> a@[k] == b@[k],
        decreases a@.len() - i,
    {
        if a[i].0 != b[i].0 {
            return false;
        }
        i = i + 1;
    }
    assert(a@ =~= b@);
    true
}

impl CTypeKind {
    /// Whether two kinds are the same.
    pub fn same(&self, other: &CTypeKind) -> (r: bool)
        ensures
            r == (self@ == other@),
    {
        match (self, other) {
            (CTypeKind::Void, CTypeKind::Void) => true,
            (CTypeKind::Bool, CTypeKind::Bool) => true,
            (
                CTypeKind::Int { bits: a, signed: s },
                CTypeKind::Int { bits: b, signed: u },
            ) => *a == *b && *s == *u,
            (CTypeKind::PtrWidth { signed: s }, CTypeKind::PtrWidth { signed: u }) => *s == *u,
            (CTypeKind::Float { bits: a }, CTypeKind::Float { bits: b }) => *a == *b,
            (CTypeKind::Ptr, CTypeKind::Ptr) => true,
            (
                CTypeKind::Array { element: a, len: n },
                CTypeKind::Array { element: b, len: m },
            ) => a.0 == b.0 && *n == *m,
            (
                CTypeKind::Vector { element: a, len: n },
                CTypeKind::Vector { element: b, len: m },
            ) => a.0 == b.0 && *n == *m,
            (
                CTypeKind::Struct { fields: a, packed: p, name: n },
                CTypeKind::Struct { fields: b, packed: q, name: m },
            ) => {
                let same_name = match (n, m) {
                    (Some(x), Some(y)) => same_text(x, y),
                    (None, None) => true,
                    _ => false,
                };
                *p == *q && same_refs(a, b) && same_name
            },
            (
                CTypeKind::Function { ret: a, args: x, variadic: v },
                CTypeKind::Function { ret: b, args: y, variadic: w },
            ) => a.0 == b.0 && *v == *w && same_refs(x, y),
            _ => false,
        }
    }
}

impl TypeStore {
    /// The invariant of the store.
    pub open spec fn wf(&self) -> bool {
        kinds_ok(self@)
    }

    /// An empty store.
    pub fn new() -> (r: TypeStore)
        ensures
            r.wf(),
            r@ == Seq::<Kind>::empty(),
    {
        let r = TypeStore { kinds: Vec::new() };
        assert(r@ =~= Seq::<Kind>::empty());
        r
    }

    /// Interns a kind: the reference that it has, or a new one.
    pub fn intern(&mut self, kind: CTypeKind) -> (r: TypeRef)
        requires
            old(self).wf(),
            kind_ok(kind@, old(self)@.len() as int),
        ensures
            final(self).wf(),
            final(self)@ == interned(old(self)@, kind@),
            r == ref_of(old(self)@, kind@),
            r.0 < final(self)@.len(),
            final(self)@[r.0 as int] == kind@,
    {
        let mut i: usize = 0;
        while i < self.kinds.len()
            invariant
                i <= self.kinds@.len(),
                self.wf(),
                *self == *old(self),
                forall|j: int| 0 <= j < i ==> self@[j] != kind@,
            decreases self.kinds@.len() - i,
        {
            if self.kinds[i].same(&kind) {
                assert(self@[i as int] == kind@);
                assert(self@.contains(kind@));
                return TypeRef(i);
            }
            i = i + 1;
        }
        let n = self.kinds.len();
        let ghost before = self@;
        self.kinds.push(kind);
        assert(self@ =~= before.push(kind@));
        assert(!before.contains(kind@));
        TypeRef(n)
    }

    /// The kind of a type.
    pub fn get(&self, ty: TypeRef) -> (r: &CTypeKind)
        requires
            ty.0 < self@.len(),
        ensures
            r@ == self@[ty.0 as int],
    {
        &self.kinds[ty.0]
    }

    /// The texts of a list of types.
    pub fn render_all(&self, list: &Vec<TypeRef>) -> (r: Vec<String>)
        requires
            self.wf(),
            refs_below(list@, self@.len() as int),
        ensures
            texts(r@) == type_texts(self@, list@),
    {
        self.render_below(list, Ghost(self@.len()))
    }

    /// The texts of a list of types that all come before `bound`.
    fn render_below(&self, list: &Vec<TypeRef>, Ghost(bound): Ghost<nat>) -> (r: Vec<String>)
        requires
            self.wf(),
            bound <= self@.len(),
            refs_below(list@, bound as int),
        ensures
            texts(r@) == type_texts(self@, list@),
        decreases bound, 1nat,
    {
        let mut out: Vec<String> = Vec::new();
        let mut i: usize = 0;
        while i < list.len()
            invariant
                i <= list@.len(),
                self.wf(),
                bound <= self@.len(),
                refs_below(list@, bound as int),
                out@.len() == i,
                forall|k: int|
                    0 <= k < i ==> (#[trigger] out@[k])@ == type_text(self@, list@[k].0 as nat),
            decreases list@.len() - i,
        {
            out.push(self.render(list[i]));
            i = i + 1;
        }
        assert(texts(out@) =~= type_texts(self@, list@));
        out
    }

    /// Writes a type, as in a cast.
    pub fn render(&self, ty: TypeRef) -> (r: String)
        requires
            self.wf(),
            ty.0 < self@.len(),
        ensures
            r@ == type_text(self@, ty.0 as nat),
        decreases ty.0 as nat, 2nat,
    {
        match &self.kinds[ty.0] {
            CTypeKind::Void => "void".to_owned(),
            CTypeKind::Bool => "_Bool".to_owned(),
            CTypeKind::Int { bits, signed } => {
                if *bits <= 128 {
                    let width: u64 = bytes_of_bits(*bits) * 8;
                    if *signed {
                        "int".to_owned().concat(&dec_u64(width)).concat("_t")
                    } else {
                        "uint".to_owned().concat(&dec_u64(width)).concat("_t")
                    }
                } else if *signed {
                    "_BitInt(".to_owned().concat(&dec_u64(*bits)).concat(")")
                } else {
                    "unsigned _BitInt(".to_owned().concat(&dec_u64(*bits)).concat(")")
                }
            },
            CTypeKind::PtrWidth { signed } => {
                if *signed {
                    "__rustc_isize".to_owned()
                } else {
                    "__rustc_usize".to_owned()
                }
            },
            CTypeKind::Float { bits } => {
                if *bits == 16 {
                    "_Float16".to_owned()
                } else if *bits == 32 {
                    "float".to_owned()
                } else if *bits == 64 {
                    "double".to_owned()
                } else {
                    "__float128".to_owned()
                }
            },
            CTypeKind::Ptr => "void *".to_owned(),
            CTypeKind::Array { element, len } => {
                assert(kind_ok(self@[ty.0 as int], ty.0 as int));
                self.render(*element).concat("[").concat(&dec_u64(*len)).concat("]")
            },
            CTypeKind::Vector { .. } => "struct _vec".to_owned().concat(&dec_usize(ty.0)),
            CTypeKind::Struct { name, .. } => match name {
                Some(n) => "struct ".to_owned().concat(n),
                None => "struct _s".to_owned().concat(&dec_usize(ty.0)),
            },
            CTypeKind::Function { ret, args, variadic } => {
                assert(kind_ok(self@[ty.0 as int], ty.0 as int));
                let list = self.render_below(args, Ghost(ty.0 as nat));
                let params = render_params(&list, *variadic);
                assert(type_texts(self@, args@) =~= texts_below(self@, args@, ty.0 as nat));
                self.render(*ret).concat(" (*)(").concat(&params).concat(")")
            },
        }
    }

    /// Writes a declaration of `name` with a type.
    pub fn render_decl(&self, ty: TypeRef, name: &str) -> (r: String)
        requires
            self.wf(),
            ty.0 < self@.len(),
        ensures
            r@ == decl_text(self@, ty.0 as nat, name@),
        decreases ty.0 as nat,
    {
        proof {
            assert(kind_ok(self@[ty.0 as int], ty.0 as int));
        }
        match &self.kinds[ty.0] {
            CTypeKind::Array { element, len } => {
                let inner = name.to_owned().concat("[").concat(&dec_u64(*len)).concat("]");
                self.render_decl(*element, &inner)
            },
            CTypeKind::Function { ret, args, variadic } => {
                assert(kind_ok(self@[ty.0 as int], ty.0 as int));
                let list = self.render_below(args, Ghost(ty.0 as nat));
                let params = render_params(&list, *variadic);
                self.render(*ret).concat(" (*").concat(name).concat(")(").concat(&params).concat(
                    ")",
                )
            },
            _ => self.render(ty).concat(" ").concat(name),
        }
    }

    /// The alignment in bytes that C gives a type.
    pub fn natural_align_bytes(&self, ty: TypeRef, ptr_bytes: u64) -> (r: u64)
        requires
            self.wf(),
            ty.0 < self@.len(),
        ensures
            r == natural_align(self@, ty.0 as nat, ptr_bytes),
        decreases ty.0,
    {
        proof {
            assert(kind_ok(self@[ty.0 as int], ty.0 as int));
        }
        match &self.kinds[ty.0] {
            CTypeKind::Void => 1,
            CTypeKind::Bool => 1,
            CTypeKind::Int { bits, .. } => bytes_of_bits(*bits),
            CTypeKind::PtrWidth { .. } => ptr_bytes,
            CTypeKind::Float { bits } => bytes_of_bits(*bits),
            CTypeKind::Ptr => ptr_bytes,
            CTypeKind::Array { element, .. } => self.natural_align_bytes(*element, ptr_bytes),
            CTypeKind::Vector { element, .. } => self.natural_align_bytes(*element, ptr_bytes),
            CTypeKind::Struct { fields, packed, .. } => {
                if *packed {
                    return 1;
                }
                let mut best: u64 = 1;
                let mut i: usize = 0;
                while i < fields.len()
                    invariant
                        i <= fields@.len(),
                        self.wf(),
                        ty.0 < self@.len(),
                        refs_below(fields@, ty.0 as int),
                        best == fields_align(self@, ty.0 as nat, fields@, i as nat, ptr_bytes),
                    decreases fields@.len() - i,
                {
                    let a = self.natural_align_bytes(fields[i], ptr_bytes);
                    if a > best {
                        best = a;
                    }
                    i = i + 1;
                }
                best
            },
            CTypeKind::Function { .. } => ptr_bytes,
        }
    }
}

/// The number of bytes of the smallest named C type with at least `bits` bits, and
/// 16 where none is that wide: also the alignment of the type of that width.
pub fn bytes_of_bits(bits: u64) -> (r: u64)
    ensures
        r == int_bytes(bits),
{
    if bits <= 8 {
        1
    } else if bits <= 16 {
        2
    } else if bits <= 32 {
        4
    } else if bits <= 64 {
        8
    } else {
        16
    }
}

/// Writes a parameter list.
pub fn render_params(params: &Vec<String>, variadic: bool) -> (r: String)
    ensures
        r@ == params_text(texts(params@), variadic),
{
    if params.len() == 0 {
        if variadic {
            "...".to_owned()
        } else {
            "void".to_owned()
        }
    } else if variadic {
        join_strings(params, ", ").concat(", ...")
    } else {
        join_strings(params, ", ")
    }
}

// --- Laws ---

/// Interning a kind twice gives the same type, and the second time changes
/// nothing.
pub proof fn interning_twice_changes_nothing(types: Seq<Kind>, k: Kind)
    requires
        kinds_ok(types),
        types.len() < usize::MAX,
    ensures
        interned(interned(types, k), k) == interned(types, k),
        ref_of(interned(types, k), k) == ref_of(types, k),
{
    let after = interned(types, k);
    if !types.contains(k) {
        assert(after[types.len() as int] == k);
        assert(after.contains(k));
        let i = after.index_of(k);
        if i < types.len() {
            assert(types[i] == k);
        }
    }
}

/// Two kinds have the same type only if they are the same kind.
pub proof fn equal_types_have_equal_kinds(types: Seq<Kind>, j: Kind, k: Kind)
    requires
        kinds_ok(types),
        types.len() <= usize::MAX,
        types.contains(j),
        types.contains(k),
    ensures
        ref_of(types, j) == ref_of(types, k) <==> j == k,
{
    assert(types[types.index_of(j)] == j);
    assert(types[types.index_of(k)] == k);
}

/// A type is written in the same way at any later time.
pub proof fn type_text_is_stable(types: Seq<Kind>, later: Seq<Kind>, t: nat)
    requires
        extends(types, later),
        t < types.len(),
    ensures
        type_text(later, t) == type_text(types, t),
    decreases t,
{
    assert(later[t as int] == types[t as int]);
    match types[t as int] {
        Kind::Array { element, .. } => if element.0 < t {
            type_text_is_stable(types, later, element.0 as nat);
        },
        Kind::Function { ret, args, .. } => {
            if ret.0 < t {
                type_text_is_stable(types, later, ret.0 as nat);
            }
            assert forall|i: int| 0 <= i < args.len() implies #[trigger] texts_below(
                later,
                args,
                t,
            )[i] == texts_below(types, args, t)[i] by {
                if args[i].0 < t {
                    type_text_is_stable(types, later, args[i].0 as nat);
                }
            }
            assert(texts_below(later, args, t) =~= texts_below(types, args, t));
        },
        _ => {},
    }
}

/// A declaration is written in the same way at any later time.
pub proof fn decl_text_is_stable(types: Seq<Kind>, later: Seq<Kind>, t: nat, name: Text)
    requires
        kinds_ok(types),
        extends(types, later),
        t < types.len(),
    ensures
        decl_text(later, t, name) == decl_text(types, t, name),
    decreases t,
{
    assert(later[t as int] == types[t as int]);
    assert(kind_ok(types[t as int], t as int));
    match types[t as int] {
        Kind::Array { element, len } => decl_text_is_stable(
            types,
            later,
            element.0 as nat,
            name + "["@ + dec(len as nat) + "]"@,
        ),
        Kind::Function { ret, args, .. } => {
            type_text_is_stable(types, later, ret.0 as nat);
            assert forall|i: int| 0 <= i < args.len() implies #[trigger] type_texts(
                later,
                args,
            )[i] == type_texts(types, args)[i] by {
                type_text_is_stable(types, later, args[i].0 as nat);
            }
            assert(type_texts(later, args) =~= type_texts(types, args));
        },
        _ => type_text_is_stable(types, later, t),
    }
}

} // verus!
