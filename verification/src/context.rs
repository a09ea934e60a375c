//! The context of one codegen unit: its types, its values, the module under
//! construction and the caches of functions and statics.
use std::collections::HashMap;
use vstd::prelude::*;

use crate::c_ast::CStmt;
use crate::module::{open_map_at, funcs_ok, BasicBlockId, CModule, Func, FunctionDef, Module};
use crate::text::{same_text, Text};
use crate::types::{
    decl_text, interned, kind_ok, kinds_ok, natural_align, ref_of, refs_below, type_text,
    type_texts, CTypeKind, Kind, TypeRef, TypeStore,
};
use crate::values::{
    const_u64, val_kind_ok, vals_below, value_text, value_types_ok, values_ok, CValue, CValueKind,
    ValKind, Value, ValueRef, ValueStore,
};

verus! {

broadcast use vstd::std_specs::hash::group_hash_axioms;

/// The state of a codegen unit, as contracts speak of it.
#[verifier::ext_equal]
pub struct Cx {
    pub types: Seq<Kind>,
    pub values: Seq<Value>,
    /// How many string literals there are.
    pub strings: usize,
    /// How many byte arrays there are.
    pub bytes: usize,
    pub module: Module,
    /// The functions that were asked for, by the number of the instance.
    pub instances: Map<u64, ValueRef>,
    /// The statics that were asked for, by the number of the definition.
    pub statics: Map<u64, ValueRef>,
    pub personality: Option<ValueRef>,
    /// The size of a pointer in bytes.
    pub ptr_bytes: u64,
}

/// Whether a list begins with another.
pub open spec fn extends<A>(a: Seq<A>, b: Seq<A>) -> bool {
    &&& a.len() <= b.len()
    &&& forall|i: int| 0 <= i < a.len() ==> #[trigger] b[i] == a[i]
}

/// What the basic operations on a context do.
impl Cx {
    /// Whether a type is one of this context.
    pub open spec fn has_type(self, t: TypeRef) -> bool {
        t.0 < self.types.len()
    }

    /// Whether a value is one of this context.
    pub open spec fn has(self, v: ValueRef) -> bool {
        v.0 < self.values.len()
    }

    /// Whether all values of a list are of this context.
    pub open spec fn has_all(self, list: Seq<ValueRef>) -> bool {
        vals_below(list, self.values.len() as int)
    }

    /// Whether all types of a list are of this context.
    pub open spec fn has_types(self, list: Seq<TypeRef>) -> bool {
        refs_below(list, self.types.len() as int)
    }

    /// Whether `later` is a state that comes after `self`: every type and every
    /// value of `self` is the same there, and the target is.
    pub open spec fn within(self, later: Cx) -> bool {
        &&& self.ptr_bytes == later.ptr_bytes
        &&& extends(self.types, later.types)
        &&& extends(self.values, later.values)
    }

    /// The kind of a type.
    pub open spec fn kind(self, t: TypeRef) -> Kind {
        self.types[t.0 as int]
    }

    /// The text of a type.
    pub open spec fn type_str(self, t: TypeRef) -> Text {
        type_text(self.types, t.0 as nat)
    }

    /// The text of a declaration.
    pub open spec fn decl_str(self, t: TypeRef, name: Text) -> Text {
        decl_text(self.types, t.0 as nat, name)
    }

    /// The type of a value.
    pub open spec fn type_of(self, v: ValueRef) -> TypeRef {
        self.values[v.0 as int].ty
    }

    /// The kind of the type of a value.
    pub open spec fn kind_of(self, v: ValueRef) -> Kind {
        self.kind(self.type_of(v))
    }

    /// The text of a value.
    pub open spec fn text(self, v: ValueRef) -> Text {
        value_text(self.values, v.0 as nat)
    }

    /// Interns a type.
    pub open spec fn intern(self, k: Kind) -> Cx {
        Cx { types: interned(self.types, k), ..self }
    }

    /// The reference that interning a type gives.
    pub open spec fn ty(self, k: Kind) -> TypeRef {
        ref_of(self.types, k)
    }

    /// The value that is added next.
    pub open spec fn next(self) -> ValueRef {
        ValueRef(self.values.len() as usize)
    }

    /// Adds a value.
    pub open spec fn value(self, kind: ValKind, ty: TypeRef) -> Cx {
        Cx { values: self.values.push(Value { kind, ty }), ..self }
    }

    /// Adds a value whose type is interned first.
    pub open spec fn value_of(self, kind: ValKind, k: Kind) -> Cx {
        self.intern(k).value(kind, self.ty(k))
    }

    /// Changes the module.
    pub open spec fn with_module(self, module: Module) -> Cx {
        Cx { module, ..self }
    }

    /// Adds a definition to the data section.
    pub open spec fn data(self, decl: Text) -> Cx {
        self.with_module(
            Module { data_sections: self.module.data_sections.push(decl), ..self.module },
        )
    }

    /// Adds a global's definition.
    pub open spec fn global(self, decl: Text) -> Cx {
        self.with_module(
            Module {
                global_decls: self.module.global_decls.push(decl),
                defined: self.module.defined.push(true),
                ..self.module
            },
        )
    }

    /// Adds the definition of a structure.
    pub open spec fn struct_def(self, def: Text) -> Cx {
        self.with_module(Module { struct_defs: self.module.struct_defs.push(def), ..self.module })
    }

    /// Records that this unit defines a static.
    pub open spec fn mark(self, name: Text) -> Cx {
        self.with_module(
            Module { declared_globals: self.module.declared_globals.insert(name), ..self.module },
        )
    }

    /// Caches the value of a function.
    pub open spec fn instance(self, id: u64, v: ValueRef) -> Cx {
        Cx { instances: self.instances.insert(id, v), ..self }
    }

    /// Caches the value of a static.
    pub open spec fn static_value(self, id: u64, v: ValueRef) -> Cx {
        Cx { statics: self.statics.insert(id, v), ..self }
    }
}

/// Whether the types that an open function refers to are below `ntypes`, and
/// the local of an indirect return, once it has a name, is `_retbuf`.
pub open spec fn func_types_ok(f: Func, ntypes: int) -> bool {
    &&& f.return_type.0 < ntypes
    &&& forall|i: int| 0 <= i < f.params.len() ==> (#[trigger] f.params[i]).0.0 < ntypes
    &&& f.ret_data_type matches Some(t) ==> t.0 < ntypes
    &&& f.retbuf_name matches Some(n) ==> n == "_retbuf"@
}

/// Whether every cached value is below `nvalues`.
pub open spec fn cache_ok(cache: Map<u64, ValueRef>, nvalues: int) -> bool {
    forall|k: u64| #[trigger] cache.contains_key(k) ==> cache[k].0 < nvalues
}

/// Whether a state is consistent: every reference in it points into it.
pub open spec fn cx_ok(c: Cx) -> bool {
    &&& kinds_ok(c.types)
    &&& values_ok(c.values)
    &&& forall|i: int|
        0 <= i < c.values.len() ==> value_types_ok(#[trigger] c.values[i], c.types.len() as int)
    &&& c.strings <= c.values.len()
    &&& c.bytes <= c.values.len()
    &&& funcs_ok(c.module.open, c.module.blocks.len())
    &&& c.module.blocks.len() <= u32::MAX
    &&& forall|n: Text| #[trigger]
        c.module.open.contains_key(n) ==> func_types_ok(c.module.open[n], c.types.len() as int)
    &&& cache_ok(c.instances, c.values.len() as int)
    &&& cache_ok(c.statics, c.values.len() as int)
    &&& c.personality matches Some(v) ==> v.0 < c.values.len()
    &&& c.ptr_bytes == 4 || c.ptr_bytes == 8
}

/// The codegen context for a single codegen unit.
pub struct CodegenCx {
    pub types: TypeStore,
    pub values: ValueStore,
    pub module: CModule,
    pub instances: HashMap<u64, ValueRef>,
    pub statics_cache: HashMap<u64, ValueRef>,
    pub personality: Option<ValueRef>,
    pub ptr_bytes: u64,
}

impl View for CodegenCx {
    type V = Cx;

    open spec fn view(&self) -> Cx {
        Cx {
            types: self.types@,
            values: self.values@,
            strings: self.values.strings,
            bytes: self.values.bytes,
            module: self.module@,
            instances: self.instances@,
            statics: self.statics_cache@,
            personality: self.personality,
            ptr_bytes: self.ptr_bytes,
        }
    }
}

/// Whether a character may stand in a C identifier.
pub open spec fn ident_char(c: char) -> bool {
    ('a' <= c && c <= 'z') || ('A' <= c && c <= 'Z') || ('0' <= c && c <= '9') || c == '_'
}

/// A symbol name as a C identifier: every other character becomes `_`.
pub open spec fn sanitized(name: Text) -> Text {
    name.map_values(
        |c: char|
            if ident_char(c) {
                c
            } else {
                '_'
            },
    )
}

/// The suffix that gives a C declaration its symbol name.
pub open spec fn asm_text(original: Text, sanitized: Text) -> Text {
    if original == sanitized {
        Seq::empty()
    } else {
        " __asm__(\""@ + original + "\")"@
    }
}

/// The linkage of an item.
#[derive(Clone, Copy, PartialEq, Eq, Structural, Debug)]
pub enum Linkage {
    External,
    AvailableExternally,
    LinkOnceAny,
    LinkOnceOdr,
    WeakAny,
    WeakOdr,
    Internal,
    ExternalWeak,
    Common,
}

impl CodegenCx {
    /// The invariant of a context.
    pub closed spec fn wf(&self) -> bool {
        &&& self.types.wf()
        &&& self.values.wf()
        &&& self.module.wf()
        &&& cx_ok(self@)
    }

    /// A context has a consistent state.
    pub proof fn wf_is_consistent(&self)
        requires
            self.wf(),
        ensures
            cx_ok(self@),
    {
    }

    /// The types of a context are well formed.
    pub proof fn types_are_wf(&self)
        requires
            self.wf(),
        ensures
            self.types.wf(),
    {
    }

    /// Each global of a context is marked as declared or defined.
    pub proof fn globals_are_marked(&self)
        requires
            self.wf(),
        ensures
            self.module.defined@.len() == self.module.global_decls@.len(),
    {
    }

    /// The types that an open function mentions are types of the context.
    pub proof fn open_types_ok(&self, i: int)
        requires
            self.wf(),
            0 <= i < self.module.open@.len(),
        ensures
            func_types_ok(self.module.open@[i]@, self@.types.len() as int),
    {
        open_map_at(self.module.open@, i);
    }

    /// A context for a unit, in which only `void` is interned.
    pub fn new(name: &str, ptr_bytes: u64) -> (r: CodegenCx)
        requires
            ptr_bytes == 4 || ptr_bytes == 8,
        ensures
            r.wf(),
            r@ == (Cx {
                types: seq![Kind::Void],
                values: Seq::empty(),
                strings: 0,
                bytes: 0,
                module: Module {
                    name: name@,
                    struct_defs: Seq::empty(),
                    function_decls: Seq::empty(),
                    global_decls: Seq::empty(),
                    defined: Seq::empty(),
                    data_sections: Seq::empty(),
                    declared_fns: Set::empty(),
                    declared_globals: Set::empty(),
                    declared_extern_globals: Set::empty(),
                    open: Map::empty(),
                    blocks: Seq::empty(),
                    precompiled_source: None,
                },
                instances: Map::empty(),
                statics: Map::empty(),
                personality: None,
                ptr_bytes,
            }),
    {
        let mut types = TypeStore::new();
        types.intern(CTypeKind::Void);
        let r = CodegenCx {
            types,
            values: ValueStore::new(),
            module: CModule::new(name.to_owned()),
            instances: HashMap::new(),
            statics_cache: HashMap::new(),
            personality: None,
            ptr_bytes,
        };
        assert(r@.types =~= seq![Kind::Void]);
        r
    }

    /// Interns a type.
    pub fn intern_type(&mut self, kind: CTypeKind) -> (r: TypeRef)
        requires
            old(self).wf(),
            kind_ok(kind@, old(self)@.types.len() as int),
        ensures
            final(self).wf(),
            final(self)@ == old(self)@.intern(kind@),
            r == old(self)@.ty(kind@),
            final(self)@.has_type(r),
            final(self)@.kind(r) == kind@,
            old(self)@.within(final(self)@),
    {
        let ghost before = self@;
        let r = self.types.intern(kind);
        proof {
            self.lemma_types_grown(before);
        }
        r
    }

    proof fn lemma_types_grown(&self, before: Cx)
        requires
            cx_ok(before),
            kinds_ok(self@.types),
            before.types.len() <= self@.types.len(),
            self@ == (Cx { types: self@.types, ..before }),
        ensures
            cx_ok(self@),
    {
        assert forall|i: int| 0 <= i < self@.values.len() implies value_types_ok(
            #[trigger] self@.values[i],
            self@.types.len() as int,
        ) by {
            assert(value_types_ok(before.values[i], before.types.len() as int));
        }
        assert forall|n: Text| #[trigger]
            self@.module.open.contains_key(n) implies func_types_ok(
            self@.module.open[n],
            self@.types.len() as int,
        ) by {
            assert(func_types_ok(before.module.open[n], before.types.len() as int));
        }
    }

    /// The unsigned integer type as wide as a pointer.
    pub fn type_usize(&mut self) -> (r: TypeRef)
        requires
            old(self).wf(),
        ensures
            final(self).wf(),
            final(self)@ == old(self)@.intern(Kind::PtrWidth { signed: false }),
            r == old(self)@.ty(Kind::PtrWidth { signed: false }),
            final(self)@.has_type(r),
            old(self)@.within(final(self)@),
    {
        self.intern_type(CTypeKind::PtrWidth { signed: false })
    }

    /// The pointer type.
    pub fn type_ptr(&mut self) -> (r: TypeRef)
        requires
            old(self).wf(),
        ensures
            final(self).wf(),
            final(self)@ == old(self)@.intern(Kind::Ptr),
            r == old(self)@.ty(Kind::Ptr),
            final(self)@.has_type(r),
            old(self)@.within(final(self)@),
    {
        self.intern_type(CTypeKind::Ptr)
    }

    /// The signed integer type of a width.
    pub fn type_int(&mut self, bits: u64) -> (r: TypeRef)
        requires
            old(self).wf(),
        ensures
            final(self).wf(),
            final(self)@ == old(self)@.intern(Kind::Int { bits, signed: true }),
            r == old(self)@.ty(Kind::Int { bits, signed: true }),
            final(self)@.has_type(r),
            old(self)@.within(final(self)@),
    {
        self.intern_type(CTypeKind::Int { bits, signed: true })
    }

    /// The type of truth values.
    pub fn type_bool(&mut self) -> (r: TypeRef)
        requires
            old(self).wf(),
        ensures
            final(self).wf(),
            final(self)@ == old(self)@.intern(Kind::Bool),
            r == old(self)@.ty(Kind::Bool),
            final(self)@.has_type(r),
            old(self)@.within(final(self)@),
    {
        self.intern_type(CTypeKind::Bool)
    }

    /// Adds a value.
    pub fn intern_value(&mut self, kind: CValueKind, ty: TypeRef) -> (r: ValueRef)
        requires
            old(self).wf(),
            old(self)@.has_type(ty),
            val_kind_ok(kind@, old(self)@.values.len() as int),
            value_types_ok(Value { kind: kind@, ty }, old(self)@.types.len() as int),
        ensures
            final(self).wf(),
            final(self)@ == old(self)@.value(kind@, ty),
            r == old(self)@.next(),
            final(self)@.has(r),
            old(self)@.within(final(self)@),
            final(self)@.values[r.0 as int] == (Value { kind: kind@, ty }),
    {
        self.values.add_value(kind, ty)
    }

    /// Adds a temporary.
    pub fn new_temp(&mut self, ty: TypeRef) -> (r: ValueRef)
        requires
            old(self).wf(),
            old(self)@.has_type(ty),
        ensures
            final(self).wf(),
            final(self)@ == old(self)@.value(ValKind::Temp, ty),
            r == old(self)@.next(),
            final(self)@.has(r),
            old(self)@.within(final(self)@),
    {
        self.intern_value(CValueKind::Temp, ty)
    }

    /// Adds a string literal, with the next number of its kind.
    pub fn next_string_literal(&mut self, ty: TypeRef) -> (r: ValueRef)
        requires
            old(self).wf(),
            old(self)@.has_type(ty),
        ensures
            final(self).wf(),
            final(self)@ == (Cx {
                strings: (old(self)@.strings + 1) as usize,
                ..old(self)@.value(ValKind::StringLit { id: old(self)@.strings }, ty)
            }),
            r == old(self)@.next(),
            final(self)@.has(r),
            old(self)@.within(final(self)@),
    {
        self.values.next_string_literal(ty)
    }

    /// Adds a byte array, with the next number of its kind.
    pub fn next_byte_string(&mut self, ty: TypeRef) -> (r: ValueRef)
        requires
            old(self).wf(),
            old(self)@.has_type(ty),
        ensures
            final(self).wf(),
            final(self)@ == (Cx {
                bytes: (old(self)@.bytes + 1) as usize,
                ..old(self)@.value(ValKind::ByteString { id: old(self)@.bytes }, ty)
            }),
            r == old(self)@.next(),
            final(self)@.has(r),
            old(self)@.within(final(self)@),
    {
        self.values.next_byte_string(ty)
    }

    /// Writes a value as a C expression.
    pub fn render_value(&self, v: ValueRef) -> (r: String)
        requires
            self.wf(),
            self@.has(v),
        ensures
            r@ == self@.text(v),
    {
        self.values.render(v)
    }

    /// Writes a type.
    pub fn render_type(&self, ty: TypeRef) -> (r: String)
        requires
            self.wf(),
            self@.has_type(ty),
        ensures
            r@ == self@.type_str(ty),
    {
        self.types.render(ty)
    }

    /// Writes a declaration.
    pub fn render_type_decl(&self, ty: TypeRef, name: &str) -> (r: String)
        requires
            self.wf(),
            self@.has_type(ty),
        ensures
            r@ == self@.decl_str(ty, name@),
    {
        self.types.render_decl(ty, name)
    }

    /// The texts of a list of types.
    pub fn render_types(&self, list: &Vec<TypeRef>) -> (r: Vec<String>)
        requires
            self.wf(),
            self@.has_types(list@),
        ensures
            crate::text::texts(r@) == type_texts(self@.types, list@),
    {
        self.types.render_all(list)
    }

    /// The kind of a type.
    pub fn get_kind(&self, ty: TypeRef) -> (r: &CTypeKind)
        requires
            self.wf(),
            self@.has_type(ty),
        ensures
            r@ == self@.kind(ty),
            kind_ok(r@, ty.0 as int),
    {
        self.types.get(ty)
    }

    /// The type of a value.
    pub fn get_type(&self, v: ValueRef) -> (r: TypeRef)
        requires
            self.wf(),
            self@.has(v),
        ensures
            r == self@.type_of(v),
            self@.has_type(r),
    {
        let r = self.values.get_type(v);
        assert(value_types_ok(self@.values[v.0 as int], self@.types.len() as int));
        r
    }

    /// A value with its type.
    pub fn get_value(&self, v: ValueRef) -> (r: &CValue)
        requires
            self.wf(),
            self@.has(v),
        ensures
            r@ == self@.values[v.0 as int],
            val_kind_ok(r@.kind, v.0 as int),
    {
        self.values.get(v)
    }

    /// The signature of a function value.
    pub fn get_fn_sig(&self, v: ValueRef) -> (r: Option<TypeRef>)
        requires
            self.wf(),
            self@.has(v),
        ensures
            r == match self@.values[v.0 as int].kind {
                ValKind::Function { sig, .. } => Some(sig),
                _ => None,
            },
            r matches Some(t) ==> self@.has_type(t),
    {
        assert(value_types_ok(self@.values[v.0 as int], self@.types.len() as int));
        self.values.get_fn_sig(v)
    }

    /// The number that a constant stands for, in 64 bits.
    pub fn const_to_opt_uint(&self, v: ValueRef) -> (r: Option<u64>)
        requires
            self.wf(),
            self@.has(v),
        ensures
            r == const_u64(self@.values[v.0 as int].kind),
    {
        self.values.as_u64(v)
    }

    /// The alignment in bytes that C gives a type.
    pub fn natural_align_bytes(&self, ty: TypeRef) -> (r: u64)
        requires
            self.wf(),
            self@.has_type(ty),
        ensures
            r == natural_align(self@.types, ty.0 as nat, self@.ptr_bytes),
    {
        self.types.natural_align_bytes(ty, self.ptr_bytes)
    }

    /// The size of a pointer in bytes.
    pub fn pointer_size(&self) -> (r: u64)
        requires
            self.wf(),
        ensures
            r == self@.ptr_bytes,
            r == 4 || r == 8,
    {
        self.ptr_bytes
    }

    /// A symbol name as a C identifier.
    pub fn sanitize_name(name: &str) -> (r: String)
        ensures
            r@ == sanitized(name@),
    {
        let mut out = String::new();
        for c in it: name.chars()
            invariant
                it.seq() == name@,
                out@ == sanitized(name@.take(it.index() as int)),
        {
            let ok = ('a' <= c && c <= 'z') || ('A' <= c && c <= 'Z') || ('0' <= c && c <= '9')
                || c == '_';
            out.push(
                if ok {
                    c
                } else {
                    '_'
                },
            );
            assert(out@ =~= sanitized(name@.take(it.index() + 1)));
        }
        assert(name@.take(name@.len() as int) =~= name@);
        out
    }

    /// The suffix that gives a C declaration its symbol name, empty where the
    /// identifier is the symbol name already.
    pub fn asm_label(original: &str, sanitized: &str) -> (r: String)
        ensures
            r@ == asm_text(original@, sanitized@),
    {
        if same_text(original, sanitized) {
            String::new()
        } else {
            " __asm__(\"".to_owned().concat(original).concat("\")")
        }
    }

    /// Whether a static is imported weakly.
    pub fn is_extern_weak(import_linkage: Option<Linkage>) -> (r: bool)
        ensures
            r == (import_linkage == Some(Linkage::ExternalWeak)),
    {
        match import_linkage {
            Some(Linkage::ExternalWeak) => true,
            _ => false,
        }
    }
}

/// Changes to the module and the caches.
impl CodegenCx {
    /// Adds a definition to the data section.
    pub fn push_data(&mut self, decl: String)
        requires
            old(self).wf(),
        ensures
            final(self).wf(),
            final(self)@ == old(self)@.data(decl@),
    {
        self.module.push_data(decl);
    }

    /// Adds a global's definition.
    pub fn push_global(&mut self, decl: String)
        requires
            old(self).wf(),
        ensures
            final(self).wf(),
            final(self)@ == old(self)@.global(decl@),
    {
        self.module.push_global(decl);
    }

    /// Adds the definition of a structure.
    pub fn push_struct(&mut self, def: String)
        requires
            old(self).wf(),
        ensures
            final(self).wf(),
            final(self)@ == old(self)@.struct_def(def@),
    {
        self.module.push_struct(def);
    }

    /// Declares a global, unless a declaration of that name was added before.
    pub fn add_global_decl(&mut self, name: &str, decl: String)
        requires
            old(self).wf(),
        ensures
            final(self).wf(),
            final(self)@ == old(self)@.with_module(old(self)@.module.global_decl(name@, decl@)),
    {
        self.module.add_global_decl(name, decl);
    }

    /// Whether a declaration of a global was added.
    pub fn has_global_decl(&self, name: &str) -> (r: bool)
        ensures
            r == self@.module.declared_extern_globals.contains(name@),
    {
        self.module.declared_extern_globals.contains(name)
    }

    /// Whether a static is one that this unit defines.
    pub fn defines_global(&self, name: &str) -> (r: bool)
        ensures
            r == self@.module.declared_globals.contains(name@),
    {
        self.module.declared_globals.contains(name)
    }

    /// Records that this unit defines a static.
    pub fn mark_global(&mut self, name: &str)
        requires
            old(self).wf(),
        ensures
            final(self).wf(),
            final(self)@ == old(self)@.mark(name@),
    {
        self.module.declared_globals.insert(name.to_owned());
    }

    /// Declares a function, unless that name was declared before.
    pub fn declare_fn(&mut self, name: &str, decl: String)
        requires
            old(self).wf(),
        ensures
            final(self).wf(),
            final(self)@ == old(self)@.with_module(old(self)@.module.declare_fn(name@, decl@)),
    {
        self.module.declare_fn(name, decl);
    }

    /// Opens a function, in place of one of the same name if there is one.
    pub fn open_function(&mut self, def: FunctionDef)
        requires
            old(self).wf(),
            def@.block_counter == 0,
            func_types_ok(def@, old(self)@.types.len() as int),
        ensures
            final(self).wf(),
            final(self)@ == old(self)@.with_module(old(self)@.module.opened(def@)),
    {
        self.module.open_function(def);
    }

    /// The open function of a name.
    pub fn get_open(&self, func: &str) -> (r: Option<&FunctionDef>)
        requires
            self.wf(),
        ensures
            match r {
                Some(f) => self@.module.open.contains_key(func@) && f@
                    == self@.module.open[func@] && func_types_ok(f@, self@.types.len() as int),
                None => !self@.module.open.contains_key(func@),
            },
    {
        self.module.get_open(func)
    }

    /// Adds a local declaration to an open function.
    pub fn add_local_decl(&mut self, func: &str, decl: String)
        requires
            old(self).wf(),
        ensures
            final(self).wf(),
            final(self)@ == old(self)@.with_module(old(self)@.module.local(func@, decl@)),
    {
        let ghost before = self@;
        self.module.add_local_decl(func, decl);
        proof {
            if before.module.open.contains_key(func@) {
                assert(func_types_ok(before.module.open[func@], before.types.len() as int));
            }
        }
    }

    /// Appends a statement to a block of an open function.
    pub fn emit(&mut self, func: &str, bb: BasicBlockId, stmt: CStmt)
        requires
            old(self).wf(),
        ensures
            final(self).wf(),
            final(self)@ == old(self)@.with_module(old(self)@.module.emit(func@, bb, stmt@)),
    {
        self.module.emit(func, bb, stmt);
    }

    /// Marks a block of an open function as terminated.
    pub fn set_terminated(&mut self, func: &str, bb: BasicBlockId)
        requires
            old(self).wf(),
        ensures
            final(self).wf(),
            final(self)@ == old(self)@.with_module(old(self)@.module.terminate(func@, bb)),
    {
        self.module.set_terminated(func, bb);
    }

    /// Adds a block to an open function.
    pub fn new_block(&mut self, func: &str, label: String) -> (r: BasicBlockId)
        requires
            old(self).wf(),
            old(self)@.module.open.contains_key(func@),
            old(self)@.module.blocks.len() < u32::MAX,
        ensures
            final(self).wf(),
            final(self)@ == old(self)@.with_module(old(self)@.module.new_block(func@, label@)),
            r.0 == old(self)@.module.blocks.len(),
    {
        let ghost before = self@;
        let r = self.module.new_block(func, label);
        proof {
            assert(func_types_ok(before.module.open[func@], before.types.len() as int));
        }
        r
    }

    /// The label of a block, seen from a function.
    pub fn block_label(&self, func: &str, bb: BasicBlockId) -> (r: String)
        requires
            self.wf(),
        ensures
            r@ == self@.module.label(func@, bb),
    {
        self.module.block_label(func, bb)
    }

    /// Records that an open function has a call that can unwind.
    pub fn set_has_invoke(&mut self, func: &str)
        requires
            old(self).wf(),
            old(self)@.module.open.contains_key(func@),
        ensures
            final(self).wf(),
            final(self)@ == old(self)@.with_module(
                old(self)@.module.with_func(
                    Func { has_invoke: true, ..old(self)@.module.open[func@] },
                ),
            ),
    {
        let ghost before = self@;
        self.module.set_has_invoke(func);
        proof {
            assert(func_types_ok(before.module.open[func@], before.types.len() as int));
        }
    }

    /// Names the local that holds the value of an indirect return.
    pub fn set_retbuf(&mut self, func: &str)
        requires
            old(self).wf(),
            old(self)@.module.open.contains_key(func@),
        ensures
            final(self).wf(),
            final(self)@ == old(self)@.with_module(
                old(self)@.module.with_func(
                    Func { retbuf_name: Some("_retbuf"@), ..old(self)@.module.open[func@] },
                ),
            ),
    {
        let ghost before = self@;
        self.module.set_retbuf(func);
        proof {
            assert(func_types_ok(before.module.open[func@], before.types.len() as int));
        }
    }

    /// The cached value of a function.
    pub fn cached_instance(&self, id: u64) -> (r: Option<ValueRef>)
        requires
            self.wf(),
        ensures
            r == (if self@.instances.contains_key(id) {
                Some(self@.instances[id])
            } else {
                None
            }),
            r matches Some(v) ==> self@.has(v),
    {
        match self.instances.get(&id) {
            Some(v) => Some(*v),
            None => None,
        }
    }

    /// Caches the value of a function.
    pub fn cache_instance(&mut self, id: u64, v: ValueRef)
        requires
            old(self).wf(),
            old(self)@.has(v),
        ensures
            final(self).wf(),
            final(self)@ == old(self)@.instance(id, v),
    {
        self.instances.insert(id, v);
    }

    /// The cached value of a static.
    pub fn cached_static(&self, id: u64) -> (r: Option<ValueRef>)
        requires
            self.wf(),
        ensures
            r == (if self@.statics.contains_key(id) {
                Some(self@.statics[id])
            } else {
                None
            }),
            r matches Some(v) ==> self@.has(v),
    {
        match self.statics_cache.get(&id) {
            Some(v) => Some(*v),
            None => None,
        }
    }

    /// Caches the value of a static.
    pub fn cache_static(&mut self, id: u64, v: ValueRef)
        requires
            old(self).wf(),
            old(self)@.has(v),
        ensures
            final(self).wf(),
            final(self)@ == old(self)@.static_value(id, v),
    {
        self.statics_cache.insert(id, v);
    }

    /// The cached personality function.
    pub fn cached_personality(&self) -> (r: Option<ValueRef>)
        requires
            self.wf(),
        ensures
            r == self@.personality,
            r matches Some(v) ==> self@.has(v),
    {
        self.personality
    }

    /// Caches the personality function.
    pub fn cache_personality(&mut self, v: ValueRef)
        requires
            old(self).wf(),
            old(self)@.has(v),
        ensures
            final(self).wf(),
            final(self)@ == (Cx { personality: Some(v), ..old(self)@ }),
    {
        self.personality = Some(v);
    }
}

// --- Laws ---

/// A sanitized name is a C identifier but perhaps for its first character: it
/// has only letters, digits and `_`, and as many characters as the name.
pub proof fn sanitized_names_are_identifiers(name: Text)
    ensures
        sanitized(name).len() == name.len(),
        forall|i: int| 0 <= i < name.len() ==> ident_char(#[trigger] sanitized(name)[i]),
{
}

/// Sanitizing a name twice is the same as once.
pub proof fn sanitizing_twice_changes_nothing(name: Text)
    ensures
        sanitized(sanitized(name)) == sanitized(name),
{
    assert(sanitized(sanitized(name)) =~= sanitized(name));
}

/// A declaration names its symbol exactly when the symbol is not a C
/// identifier.
pub proof fn label_only_where_needed(name: Text)
    ensures
        asm_text(name, sanitized(name)).len() == 0 <==> forall|i: int|
            0 <= i < name.len() ==> ident_char(#[trigger] name[i]),
{
    reveal_strlit(" __asm__(\"");
    if asm_text(name, sanitized(name)).len() == 0 {
        assert(name == sanitized(name));
        assert forall|i: int| 0 <= i < name.len() implies ident_char(#[trigger] name[i]) by {
            assert(sanitized(name)[i] == name[i]);
        }
    }
    if forall|i: int| 0 <= i < name.len() ==> ident_char(#[trigger] name[i]) {
        assert(sanitized(name) =~= name);
    }
}

} // verus!
