//! The order of a module's source: whatever constant memory and definitions
//! name is declared before them.
use vstd::prelude::*;

use crate::context::{extends, sanitized, Cx, Linkage};
use crate::declare::{fn_decl_text, FnRef};
use crate::layout::{ArgAbi, CastTarget, FnAbi, Layout, PassMode};
use crate::memory::{
    le_number, memory_target, offsets, plain_data, struct_data, with_attrs, Alloc, GlobalRef,
    StaticDef,
};
use crate::module::Module;
use crate::render::{marked, module_lines, type_defs};
use crate::statics::{bytes_decl, shaped_decl, tls_text, weak_decl, StaticRef};
use crate::text::{dec, Text};
use crate::type_of::bits_of;
use crate::types::{type_texts, Kind};
use crate::values::ValKind;

verus! {

// --- What declares a name ---

/// Whether a line declares the function of this C name.
pub open spec fn declares_fn(line: Text, name: Text) -> bool {
    exists|prefix: Text, ret: Text, sym: Text, params: Seq<Text>, variadic: bool|
        sanitized(sym) == name && line == #[trigger] fn_decl_text(
            prefix,
            ret,
            sym,
            params,
            variadic,
        )
}

/// Whether a line is one of the declarations of a static.
pub open spec fn is_static_decl(line: Text, name: Text, original: Text, tls: Text) -> bool {
    line == weak_decl(name, original) || line == bytes_decl(name, original, tls) || line
        == shaped_decl(name, original, tls)
}

/// Whether a line declares the static of this C name.
pub open spec fn declares_static(line: Text, name: Text) -> bool {
    exists|original: Text, tls: Text| is_static_decl(line, name, original, tls)
}

/// Whether a line defines the constant memory of this name.
pub open spec fn defines_data(line: Text, name: Text) -> bool {
    ||| exists|bytes: Seq<u8>, align: u64| line == #[trigger] plain_data(name, bytes, align)
    ||| exists|a: Alloc, targets: Seq<Text>, ptr: u64|
        line == #[trigger] struct_data(name, a, targets, ptr)
}

/// Whether a module declares a function.
pub open spec fn has_fn(m: Module, name: Text) -> bool {
    exists|i: int|
        0 <= i < m.function_decls.len() && declares_fn(#[trigger] m.function_decls[i], name)
}

/// Whether a module declares a static.
pub open spec fn has_static(m: Module, name: Text) -> bool {
    exists|i: int|
        0 <= i < m.global_decls.len() && !m.defined[i] && declares_static(
            #[trigger] m.global_decls[i],
            name,
        )
}

/// Whether a module defines constant memory.
pub open spec fn has_data(m: Module, name: Text) -> bool {
    exists|i: int|
        0 <= i < m.data_sections.len() && defines_data(#[trigger] m.data_sections[i], name)
}

/// Whether what a pointer's text names is declared or, for constant memory,
/// defined in the data section.
pub open spec fn is_declared(m: Module, g: GlobalRef, off: nat, text: Text) -> bool {
    match g {
        GlobalRef::Function(f) => has_fn(m, sanitized(f.sym@)),
        GlobalRef::Static(s) => has_static(m, sanitized(s.sym@)),
        GlobalRef::Memory(_) => exists|name: Text| #[trigger]
            has_data(m, name) && (text == memory_target(name, off) || text == memory_target(
                "&"@ + name,
                off,
            )),
        GlobalRef::TypeId => true,
    }
}

/// Whether every pointer of a piece of memory names something that is declared.
pub open spec fn all_declared(m: Module, a: Alloc, n: nat, ptr: u64, list: Seq<Text>) -> bool {
    &&& list.len() == n
    &&& forall|i: int|
        0 <= i < n ==> is_declared(
            m,
            (#[trigger] a.relocs@[i]).target,
            le_number(a.bytes@, a.relocs@[i].offset as int, ptr as nat),
            list[i],
        )
}

/// Whether the last data of a module is that of a piece of memory with pointers,
/// and what they name is declared before it.
pub open spec fn follows_what_it_names(m: Module, a: Alloc, ptr: u64) -> bool {
    let before = Module { data_sections: m.data_sections.drop_last(), ..m };
    exists|name: Text, list: Seq<Text>|
        m.data_sections.last() == #[trigger] struct_data(name, a, list, ptr) && all_declared(
            before,
            a,
            a.relocs@.len(),
            ptr,
            list,
        )
}

/// Whether the functions that memory points to have the C names that `names`
/// gives their numbers.
pub open spec fn numbered(g: GlobalRef, names: Map<u64, Text>) -> bool
    decreases g, 0nat,
{
    match g {
        GlobalRef::Function(f) => names.contains_key(f.id) && names[f.id] == sanitized(f.sym@),
        GlobalRef::Memory(a) => all_numbered(a, names),
        _ => true,
    }
}

/// The same for every pointer of a piece of memory.
pub open spec fn all_numbered(a: Alloc, names: Map<u64, Text>) -> bool
    decreases a, 1nat,
{
    forall|i: int| 0 <= i < a.relocs@.len() ==> numbered((#[trigger] a.relocs@[i]).target, names)
}

/// Whether every name that a context takes for declared is declared. `names`
/// gives the C names of functions by their numbers.
pub open spec fn names_are_declared(c: Cx, names: Map<u64, Text>) -> bool {
    &&& c.module.defined.len() == c.module.global_decls.len()
    &&& forall|n: Text| #[trigger] c.module.declared_fns.contains(n) ==> has_fn(c.module, n)
    &&& forall|n: Text| #[trigger]
        c.module.declared_extern_globals.contains(n) ==> has_static(c.module, n)
    &&& forall|id: u64| #[trigger]
        c.instances.contains_key(id) ==> names.contains_key(id)
            && c.module.declared_fns.contains(names[id])
}

/// Whether a context can be numbered: its types and values are as many as a
/// machine can count.
pub open spec fn countable(c: Cx) -> bool {
    c.types.len() <= usize::MAX && c.values.len() <= usize::MAX
}

/// Whether a state comes after another and keeps everything that was written.
pub open spec fn keeps(a: Cx, b: Cx) -> bool {
    &&& a.ptr_bytes == b.ptr_bytes
    &&& extends(a.types, b.types)
    &&& extends(a.values, b.values)
    &&& extends(a.module.function_decls, b.module.function_decls)
    &&& extends(a.module.global_decls, b.module.global_decls)
    &&& extends(a.module.defined, b.module.defined)
    &&& extends(a.module.data_sections, b.module.data_sections)
}

// --- What is kept ---

proof fn keeps_is_transitive(a: Cx, b: Cx, c: Cx)
    requires
        keeps(a, b),
        keeps(b, c),
    ensures
        keeps(a, c),
{
    assert forall|i: int| 0 <= i < a.types.len() implies #[trigger] c.types[i] == a.types[i] by {
        assert(b.types[i] == a.types[i]);
    }
    assert forall|i: int| 0 <= i < a.values.len() implies #[trigger] c.values[i]
        == a.values[i] by {
        assert(b.values[i] == a.values[i]);
    }
    let (m, n, o) = (a.module, b.module, c.module);
    assert forall|i: int| 0 <= i < m.function_decls.len() implies #[trigger] o.function_decls[i]
        == m.function_decls[i] by {
        assert(n.function_decls[i] == m.function_decls[i]);
    }
    assert forall|i: int| 0 <= i < m.global_decls.len() implies #[trigger] o.global_decls[i]
        == m.global_decls[i] by {
        assert(n.global_decls[i] == m.global_decls[i]);
    }
    assert forall|i: int| 0 <= i < m.defined.len() implies #[trigger] o.defined[i]
        == m.defined[i] by {
        assert(n.defined[i] == m.defined[i]);
    }
    assert forall|i: int| 0 <= i < m.data_sections.len() implies #[trigger] o.data_sections[i]
        == m.data_sections[i] by {
        assert(n.data_sections[i] == m.data_sections[i]);
    }
}

proof fn has_fn_is_kept(a: Cx, b: Cx, name: Text)
    requires
        keeps(a, b),
        has_fn(a.module, name),
    ensures
        has_fn(b.module, name),
{
    let i = choose|i: int|
        0 <= i < a.module.function_decls.len() && declares_fn(
            #[trigger] a.module.function_decls[i],
            name,
        );
    assert(b.module.function_decls[i] == a.module.function_decls[i]);
}

proof fn has_static_is_kept(a: Cx, b: Cx, name: Text)
    requires
        keeps(a, b),
        a.module.defined.len() == a.module.global_decls.len(),
        has_static(a.module, name),
    ensures
        has_static(b.module, name),
{
    let i = choose|i: int|
        0 <= i < a.module.global_decls.len() && !a.module.defined[i] && declares_static(
            #[trigger] a.module.global_decls[i],
            name,
        );
    assert(b.module.global_decls[i] == a.module.global_decls[i]);
    assert(b.module.defined[i] == a.module.defined[i]);
}

proof fn has_data_is_kept(a: Cx, b: Cx, name: Text)
    requires
        keeps(a, b),
        has_data(a.module, name),
    ensures
        has_data(b.module, name),
{
    let i = choose|i: int|
        0 <= i < a.module.data_sections.len() && defines_data(
            #[trigger] a.module.data_sections[i],
            name,
        );
    assert(b.module.data_sections[i] == a.module.data_sections[i]);
}

proof fn is_declared_is_kept(a: Cx, b: Cx, g: GlobalRef, off: nat, text: Text)
    requires
        keeps(a, b),
        a.module.defined.len() == a.module.global_decls.len(),
        is_declared(a.module, g, off, text),
    ensures
        is_declared(b.module, g, off, text),
{
    match g {
        GlobalRef::Function(f) => has_fn_is_kept(a, b, sanitized(f.sym@)),
        GlobalRef::Static(s) => has_static_is_kept(a, b, sanitized(s.sym@)),
        GlobalRef::Memory(_) => {
            let name = choose|name: Text| #[trigger]
                has_data(a.module, name) && (text == memory_target(name, off) || text
                    == memory_target("&"@ + name, off));
            has_data_is_kept(a, b, name);
        },
        GlobalRef::TypeId => {},
    }
}

/// Whether a state differs from another only in types that were added.
spec fn only_types(a: Cx, b: Cx) -> bool {
    b == (Cx { types: b.types, ..a }) && extends(a.types, b.types)
}

proof fn layout_adds_types(c: Cx, l: Layout)
    ensures
        only_types(c, c.layout_type(l).0),
{
}

/// The C type of a layout only adds types to a context.
pub proof fn layout_only_adds_types(c: Cx, l: Layout)
    ensures
        c.layout_type(l).0 == (Cx { types: c.layout_type(l).0.types, ..c }),
        extends(c.types, c.layout_type(l).0.types),
{
}

proof fn prefix_adds_types(c: Cx, prefix: Seq<u64>, n: nat)
    ensures
        only_types(c, c.prefix_types(prefix, n).0),
    decreases n,
{
    if n > 0 {
        prefix_adds_types(c, prefix, (n - 1) as nat);
    }
}

proof fn cast_adds_types(c: Cx, t: CastTarget)
    ensures
        only_types(c, c.cast_type(t).0),
{
    if t.prefix@.len() > 0 {
        let c1 = c.interns(Kind::Int { bits: bits_of(t.rest_unit), signed: true }).0;
        prefix_adds_types(c1, t.prefix@, t.prefix@.len());
    }
}

proof fn ret_adds_types(c: Cx, abi: FnAbi)
    ensures
        only_types(c, c.ret_type(abi).0),
{
    layout_adds_types(c, abi.ret.layout);
    if let PassMode::Cast(cast) = abi.ret.mode {
        cast_adds_types(c, cast);
    }
}

proof fn param_adds_types(c: Cx, arg: ArgAbi)
    ensures
        only_types(c, c.param_types(arg).0),
{
    layout_adds_types(c, arg.layout);
    if let PassMode::Cast(cast) = arg.mode {
        cast_adds_types(c, cast);
    }
}

proof fn params_add_types(c: Cx, args: Seq<ArgAbi>, n: nat)
    ensures
        only_types(c, c.all_param_types(args, n).0),
    decreases n,
{
    if n > 0 {
        params_add_types(c, args, (n - 1) as nat);
        param_adds_types(c.all_param_types(args, (n - 1) as nat).0, args[n - 1]);
    }
}

proof fn fn_type_adds_types(c: Cx, abi: FnAbi)
    ensures
        only_types(c, c.fn_type(abi).0),
        c.fn_type(abi).0.types.len() <= usize::MAX ==> c.fn_type(abi).0.kind(
            c.fn_type(abi).1,
        ) is Function,
{
    ret_adds_types(c, abi);
    let c1 = c.ret_type(abi).0;
    params_add_types(c1, abi.args@, abi.args@.len());
}

/// The type of a function only adds types to a context.
pub proof fn functions_only_add_types(c: Cx, abi: FnAbi)
    ensures
        c.fn_type(abi).0 == (Cx { types: c.fn_type(abi).0.types, ..c }),
        extends(c.types, c.fn_type(abi).0.types),
{
    fn_type_adds_types(c, abi);
}

/// The type of a result only adds types to a context.
pub proof fn returns_only_add_types(c: Cx, abi: FnAbi)
    ensures
        c.ret_type(abi).0 == (Cx { types: c.ret_type(abi).0.types, ..c }),
        extends(c.types, c.ret_type(abi).0.types),
{
    ret_adds_types(c, abi);
}

/// The type of a layout depends on the types of the context alone.
pub proof fn same_types_same_layout(c: Cx, d: Cx, l: Layout)
    requires
        c.types == d.types,
    ensures
        c.layout_type(l).1 == d.layout_type(l).1,
        c.layout_type(l).0.types == d.layout_type(l).0.types,
{
}

/// Making a pointer's text only adds types and values.
proof fn target_grows(c: Cx, g: GlobalRef, off: nat)
    ensures
        c.types.len() <= c.target(g, off).0.types.len(),
        c.values.len() <= c.target(g, off).0.values.len(),
    decreases g, 0nat, 0nat,
{
    match g {
        GlobalRef::Function(f) => {
            fn_type_adds_types(c, f.abi);
            ret_adds_types(c.fn_value(f).0, f.abi);
        },
        GlobalRef::Static(_) => {},
        GlobalRef::Memory(a) => memory_grows(c, a),
        GlobalRef::TypeId => {},
    }
}

proof fn pointers_grow(c: Cx, a: Alloc, n: nat)
    ensures
        c.types.len() <= c.targets(a, n).0.types.len(),
        c.values.len() <= c.targets(a, n).0.values.len(),
    decreases a, 1nat, n,
{
    if 0 < n <= a.relocs@.len() {
        pointers_grow(c, a, (n - 1) as nat);
        let c1 = c.targets(a, (n - 1) as nat).0;
        let r = a.relocs@[n - 1];
        target_grows(c1, r.target, le_number(a.bytes@, r.offset as int, c1.ptr_bytes as nat));
    }
}

proof fn memory_grows(c: Cx, a: Alloc)
    ensures
        c.types.len() <= c.alloc_data(a).0.types.len(),
        c.values.len() <= c.alloc_data(a).0.values.len(),
    decreases a, 2nat, 0nat,
{
    let (c1, ptr) = c.interns(Kind::Ptr);
    let c2 = Cx {
        bytes: (c1.bytes + 1) as usize,
        ..c1.value(ValKind::ByteString { id: c1.bytes }, ptr)
    };
    if a.relocs@.len() > 0 {
        let name = "_bytes"@ + dec(c1.bytes as nat);
        let c3 = c2.adds_at(ValKind::Global { name: "&"@ + name }, ptr).0;
        pointers_grow(c3, a, a.relocs@.len());
    }
}

proof fn names_stay_declared(a: Cx, b: Cx, names: Map<u64, Text>)
    requires
        names_are_declared(a, names),
        keeps(a, b),
        b.module.defined.len() == b.module.global_decls.len(),
        a.module.declared_fns.subset_of(b.module.declared_fns),
        forall|n: Text| #[trigger]
            b.module.declared_fns.contains(n) ==> a.module.declared_fns.contains(n) || has_fn(
                b.module,
                n,
            ),
        forall|n: Text| #[trigger]
            b.module.declared_extern_globals.contains(n)
                ==> a.module.declared_extern_globals.contains(n) || has_static(b.module, n),
        forall|id: u64| #[trigger]
            b.instances.contains_key(id) ==> a.instances.contains_key(id) || (names.contains_key(
                id,
            ) && b.module.declared_fns.contains(names[id])),
    ensures
        names_are_declared(b, names),
{
    assert forall|n: Text| #[trigger] b.module.declared_fns.contains(n) implies has_fn(
        b.module,
        n,
    ) by {
        if a.module.declared_fns.contains(n) {
            has_fn_is_kept(a, b, n);
        }
    }
    assert forall|n: Text| #[trigger]
        b.module.declared_extern_globals.contains(n) implies has_static(b.module, n) by {
        if a.module.declared_extern_globals.contains(n) {
            has_static_is_kept(a, b, n);
        }
    }
}

// --- Laws ---

/// A unit takes no name for declared before anything was asked for.
pub proof fn nothing_is_declared_at_first(c: Cx, names: Map<u64, Text>)
    requires
        c.module.declared_fns.is_empty(),
        c.module.declared_extern_globals.is_empty(),
        c.module.global_decls.len() == 0,
        c.module.defined.len() == 0,
        c.instances.dom().is_empty(),
    ensures
        names_are_declared(c, names),
{
}

/// A function that is looked up is declared afterwards, and every name that was
/// declared still is.
pub proof fn functions_are_declared(c: Cx, f: FnRef, names: Map<u64, Text>)
    requires
        names_are_declared(c, names),
        names.contains_key(f.id),
        names[f.id] == sanitized(f.sym@),
        countable(c.get_fn(f).0),
    ensures
        names_are_declared(c.get_fn(f).0, names),
        has_fn(c.get_fn(f).0.module, sanitized(f.sym@)),
        keeps(c, c.get_fn(f).0),
{
    if !c.instances.contains_key(f.id) {
        let name = sanitized(f.sym@);
        let (c1, sig) = c.fn_type(f.abi);
        let c3 = c.fn_value(f).0;
        let c4 = c3.ret_type(f.abi).0;
        let c5 = c.get_fn(f).0;
        fn_type_adds_types(c, f.abi);
        ret_adds_types(c3, f.abi);
        assert(c1.kind(sig) is Function);
        assert(c3.types[sig.0 as int] == c1.types[sig.0 as int]);
        assert(c4.types[sig.0 as int] == c3.types[sig.0 as int]);
        let decl = c.reference_decl(f);
        assert(declares_fn(decl, name)) by {
            let k = c4.kind(sig);
            assert(decl == fn_decl_text(
                Seq::empty(),
                c4.type_str(c3.ret_type(f.abi).1),
                f.sym@,
                type_texts(c4.types, k->args),
                k->variadic,
            ));
        }
        assert(keeps(c, c5));
        if !c.module.declared_fns.contains(name) {
            let n = c.module.function_decls.len() as int;
            assert(c5.module.function_decls[n] == decl);
            assert(has_fn(c5.module, name));
        }
        assert(c5.module.declared_fns.contains(name));
        names_stay_declared(c, c5, names);
    }
}

/// A function that is predefined is declared afterwards, and every name that was
/// declared still is.
pub proof fn predefined_functions_are_declared(
    c: Cx,
    f: FnRef,
    linkage: Linkage,
    names: Map<u64, Text>,
)
    requires
        names_are_declared(c, names),
        names.contains_key(f.id),
        names[f.id] == sanitized(f.sym@),
    ensures
        names_are_declared(c.predefine_fn(f, linkage), names),
        has_fn(c.predefine_fn(f, linkage).module, sanitized(f.sym@)),
        keeps(c, c.predefine_fn(f, linkage)),
{
    let name = sanitized(f.sym@);
    let c3 = c.fn_value(f).0;
    let c4 = c3.ret_type(f.abi).0;
    let c5 = c.predefined_params(f).0;
    let last = c.predefine_fn(f, linkage);
    fn_type_adds_types(c, f.abi);
    ret_adds_types(c3, f.abi);
    params_add_types(c4, f.abi.args@, f.abi.args@.len());
    let decl = c.definition_decl(f, linkage);
    let c6 = c5.with_module(c5.module.declare_fn(name, decl));
    layout_adds_types(c6, f.abi.ret.layout);
    assert(declares_fn(decl, name));
    assert(keeps(c, last));
    if !c.module.declared_fns.contains(name) {
        let n = c.module.function_decls.len() as int;
        assert(last.module.function_decls[n] == decl);
        assert(has_fn(last.module, name));
    }
    assert(last.module.declared_fns.contains(name));
    names_stay_declared(c, last, names);
}

/// A static that is referred to is declared afterwards, and every name that was
/// declared still is.
pub proof fn statics_are_declared(c: Cx, original: Text, s: StaticRef, names: Map<u64, Text>)
    requires
        names_are_declared(c, names),
    ensures
        ({
            let name = sanitized(original);
            let c1 = c.extern_static_decl(name, original, s);
            &&& names_are_declared(c1, names)
            &&& has_static(c1.module, name)
            &&& keeps(c, c1)
        }),
{
    let name = sanitized(original);
    let c1 = c.extern_static_decl(name, original, s);
    if !c.module.declared_extern_globals.contains(name) {
        let n = c.module.global_decls.len() as int;
        let tls = tls_text(s.thread_local);
        assert(is_static_decl(c1.module.global_decls[n], name, original, tls));
        assert(has_static(c1.module, name));
    }
    assert(keeps(c, c1));
    names_stay_declared(c, c1, names);
}

/// A static that is looked up keeps every name that was declared.
pub proof fn looked_up_statics_keep_names(c: Cx, s: StaticRef, names: Map<u64, Text>)
    requires
        names_are_declared(c, names),
    ensures
        names_are_declared(c.get_static(s).0, names),
        !c.statics.contains_key(s.id) ==> has_static(
            c.get_static(s).0.module,
            sanitized(s.sym@),
        ),
        keeps(c, c.get_static(s).0),
{
    if !c.statics.contains_key(s.id) {
        let name = sanitized(s.sym@);
        let c1 = c.interns(Kind::Ptr).0;
        let c2 = c1.extern_static_decl(name, s.sym@, s);
        let last = c.get_static(s).0;
        assert(keeps(c, c1));
        names_stay_declared(c, c1, names);
        statics_are_declared(c1, s.sym@, s, names);
        assert(keeps(c2, last));
        names_stay_declared(c2, last, names);
        has_static_is_kept(c2, last, name);
        keeps_is_transitive(c, c1, c2);
        keeps_is_transitive(c, c2, last);
    }
}

/// What a pointer points to is declared, or defined as data, once the pointer's
/// text is made; every name that was declared still is.
pub proof fn targets_are_declared(c: Cx, g: GlobalRef, off: nat, names: Map<u64, Text>)
    requires
        names_are_declared(c, names),
        numbered(g, names),
        countable(c.target(g, off).0),
    ensures
        names_are_declared(c.target(g, off).0, names),
        is_declared(c.target(g, off).0.module, g, off, c.target(g, off).1),
        keeps(c, c.target(g, off).0),
    decreases g, 0nat, 0nat,
{
    match g {
        GlobalRef::Function(f) => functions_are_declared(c, f, names),
        GlobalRef::Static(s) => statics_are_declared(c, s.sym@, s, names),
        GlobalRef::Memory(a) => {
            memory_is_defined(c, a, names);
            let (c1, v) = c.alloc_data(a);
            let name = choose|name: Text| #[trigger]
                has_data(c1.module, name) && (c1.text(v) == name || c1.text(v) == "&"@ + name);
            assert(has_data(c1.module, name));
        },
        GlobalRef::TypeId => {},
    }
}

/// The same for the first `n` pointers of a piece of memory.
pub proof fn pointers_are_declared(c: Cx, a: Alloc, n: nat, names: Map<u64, Text>)
    requires
        names_are_declared(c, names),
        all_numbered(a, names),
        n <= a.relocs@.len(),
        countable(c.targets(a, n).0),
    ensures
        names_are_declared(c.targets(a, n).0, names),
        all_declared(c.targets(a, n).0.module, a, n, c.ptr_bytes, c.targets(a, n).1),
        keeps(c, c.targets(a, n).0),
    decreases a, 1nat, n,
{
    if n > 0 {
        let (c1, list) = c.targets(a, (n - 1) as nat);
        let r = a.relocs@[n - 1];
        let off = le_number(a.bytes@, r.offset as int, c1.ptr_bytes as nat);
        let c2 = c1.target(r.target, off).0;
        target_grows(c1, r.target, off);
        pointers_are_declared(c, a, (n - 1) as nat, names);
        targets_are_declared(c1, r.target, off, names);
        keeps_is_transitive(c, c1, c2);
        assert forall|i: int| 0 <= i < n implies is_declared(
            c2.module,
            (#[trigger] a.relocs@[i]).target,
            le_number(a.bytes@, a.relocs@[i].offset as int, c.ptr_bytes as nat),
            c.targets(a, n).1[i],
        ) by {
            if i < n - 1 {
                is_declared_is_kept(
                    c1,
                    c2,
                    a.relocs@[i].target,
                    le_number(a.bytes@, a.relocs@[i].offset as int, c.ptr_bytes as nat),
                    list[i],
                );
            }
        }
    }
}

/// Constant memory is defined as data under the name that its value has, after
/// everything that it points to; every name that was declared still is.
pub proof fn memory_is_defined(c: Cx, a: Alloc, names: Map<u64, Text>)
    requires
        names_are_declared(c, names),
        all_numbered(a, names),
        countable(c.alloc_data(a).0),
    ensures
        ({
            let (c1, v) = c.alloc_data(a);
            &&& names_are_declared(c1, names)
            &&& keeps(c, c1)
            &&& exists|name: Text| #[trigger]
                has_data(c1.module, name) && (c1.text(v) == name || c1.text(v) == "&"@ + name)
            &&& a.relocs@.len() > 0 ==> follows_what_it_names(c1.module, a, c.ptr_bytes)
        }),
    decreases a, 2nat, 0nat,
{
    let (c1, ptr) = c.interns(Kind::Ptr);
    let name = "_bytes"@ + dec(c1.bytes as nat);
    let c2 = Cx {
        bytes: (c1.bytes + 1) as usize,
        ..c1.value(ValKind::ByteString { id: c1.bytes }, ptr)
    };
    let (last, v) = c.alloc_data(a);
    if a.relocs@.len() == 0 {
        let n = c.module.data_sections.len() as int;
        assert(last.module.data_sections[n] == plain_data(name, a.bytes@, a.align));
        assert(has_data(last.module, name));
        assert(keeps(c, last));
        names_stay_declared(c, last, names);
        assert(last.values[v.0 as int].kind == (ValKind::ByteString { id: c1.bytes }));
        assert(last.text(v) == name);
    } else {
        let c3 = c2.adds_at(ValKind::Global { name: "&"@ + name }, ptr).0;
        let (c4, list) = c3.targets(a, a.relocs@.len());
        assert(keeps(c, c3));
        names_stay_declared(c, c3, names);
        pointers_are_declared(c3, a, a.relocs@.len(), names);
        keeps_is_transitive(c, c3, c4);
        assert(keeps(c4, last));
        keeps_is_transitive(c, c4, last);
        names_stay_declared(c4, last, names);
        let n = c4.module.data_sections.len() as int;
        assert(last.module.data_sections[n] == struct_data(name, a, list, c4.ptr_bytes));
        assert(has_data(last.module, name));
        assert(c3.values[v.0 as int].kind == (ValKind::Global { name: "&"@ + name }));
        assert(c4.values[v.0 as int] == c3.values[v.0 as int]);
        assert(last.text(v) == "&"@ + name);
        assert(last.module.data_sections.drop_last() =~= c4.module.data_sections);
        assert(last.module.data_sections.last() == struct_data(name, a, list, c.ptr_bytes));
    }
}

/// Whatever the definition of a static names is declared, or defined as data,
/// once the static is defined: what its pointers point to, and the static itself.
/// The definition is marked as one; every name that was declared still is.
pub proof fn definitions_name_what_is_declared(c: Cx, d: StaticDef, names: Map<u64, Text>)
    requires
        names_are_declared(c, names),
        d.init is Some,
        d.init->0.bytes@.len() > 0,
        d.init->0.relocs@.len() > 0,
        all_numbered(d.init->0, names),
        countable(c.define_static(d)),
    ensures
        ({
            let a = d.init->0;
            let c1 = c.define_static(d);
            &&& names_are_declared(c1, names)
            &&& all_declared(
                c1.module,
                a,
                a.relocs@.len(),
                c.ptr_bytes,
                c.targets(a, a.relocs@.len()).1,
            )
            &&& has_static(c1.module, sanitized(d.sym@))
            &&& c1.module.global_decls.last() == with_attrs(c.static_text(d).1, d)
            &&& c1.module.defined.last()
            &&& keeps(c, c1)
        }),
{
    let a = d.init->0;
    let name = sanitized(d.sym@);
    let n = a.relocs@.len();
    let c1 = c.targets(a, n).0;
    let tls = tls_text(d.thread_local);
    let c2 = c1.struct_decl(name, d.sym@, a.bytes@.len() as usize, offsets(a.relocs@), tls);
    let last = c.define_static(d);
    pointers_are_declared(c, a, n, names);
    if !c1.module.declared_extern_globals.contains(name) {
        let k = c1.module.global_decls.len() as int;
        assert(is_static_decl(c2.module.global_decls[k], name, d.sym@, tls));
        assert(has_static(c2.module, name));
    }
    assert(keeps(c1, c2));
    names_stay_declared(c1, c2, names);
    assert(keeps(c2, last));
    names_stay_declared(c2, last, names);
    keeps_is_transitive(c1, c2, last);
    keeps_is_transitive(c, c1, last);
    has_static_is_kept(c2, last, name);
    let list = c.targets(a, n).1;
    assert forall|i: int| 0 <= i < n implies is_declared(
        last.module,
        (#[trigger] a.relocs@[i]).target,
        le_number(a.bytes@, a.relocs@[i].offset as int, c.ptr_bytes as nat),
        list[i],
    ) by {
        is_declared_is_kept(
            c1,
            last,
            a.relocs@[i].target,
            le_number(a.bytes@, a.relocs@[i].offset as int, c.ptr_bytes as nat),
            list[i],
        );
    }
}

/// Whether one line stands before another.
pub open spec fn stands_before(lines: Seq<Text>, first: Text, second: Text) -> bool {
    exists|p: int, q: int|
        0 <= p < q < lines.len() && #[trigger] lines[p] == first && #[trigger] lines[q] == second
}

proof fn marked_lines_are_found(lines: Seq<Text>, marks: Seq<bool>, want: bool, n: nat, i: int)
    requires
        0 <= i < n <= lines.len() == marks.len(),
        marks[i] == want,
    ensures
        marked(lines, marks, want, n).contains(lines[i]),
    decreases n,
{
    let before = marked(lines, marks, want, (n - 1) as nat);
    let all = marked(lines, marks, want, n);
    if i == n - 1 {
        assert(all[before.len() as int] == lines[i]);
    } else {
        marked_lines_are_found(lines, marks, want, (n - 1) as nat, i);
        let k = choose|k: int| 0 <= k < before.len() && before[k] == lines[i];
        assert(all[k] == lines[i]);
    }
}

proof fn parts_stand_in_order(a: Seq<Text>, b: Seq<Text>, c: Seq<Text>, x: Text, y: Text)
    requires
        a.contains(x),
        b.contains(y),
    ensures
        stands_before(a + b + c, x, y),
{
    let p = choose|p: int| 0 <= p < a.len() && a[p] == x;
    let q = choose|q: int| 0 <= q < b.len() && b[q] == y;
    let all = a + b + c;
    assert(all[p] == x);
    assert(all[a.len() + q] == y);
}

proof fn found_in_sum(a: Seq<Text>, b: Seq<Text>, x: Text)
    requires
        a.contains(x) || b.contains(x),
    ensures
        (a + b).contains(x),
{
    if a.contains(x) {
        let k = choose|k: int| 0 <= k < a.len() && a[k] == x;
        assert((a + b)[k] == x);
    } else {
        let k = choose|k: int| 0 <= k < b.len() && b[k] == x;
        assert((a + b)[a.len() + k] == x);
    }
}

/// In a module's source every declaration of a function or a global stands before
/// all data and all definitions of globals, all data before the definitions, and
/// data in the order in which it was added.
pub proof fn declarations_stand_first(types: Seq<Kind>, m: Module)
    requires
        m.defined.len() == m.global_decls.len(),
    ensures
        ({
            let lines = module_lines(types, m);
            let (fns, data, globals) = (m.function_decls, m.data_sections, m.global_decls);
            &&& forall|f: int, k: int|
                #![trigger fns[f], data[k]]
                0 <= f < fns.len() && 0 <= k < data.len() ==> stands_before(
                    lines,
                    fns[f],
                    data[k],
                )
            &&& forall|f: int, d: int|
                #![trigger fns[f], globals[d]]
                0 <= f < fns.len() && 0 <= d < globals.len() && m.defined[d] ==> stands_before(
                    lines,
                    fns[f],
                    globals[d],
                )
            &&& forall|e: int, k: int|
                #![trigger globals[e], data[k]]
                0 <= e < globals.len() && !m.defined[e] && 0 <= k < data.len() ==> stands_before(
                    lines,
                    globals[e],
                    data[k],
                )
            &&& forall|e: int, d: int|
                #![trigger globals[e], globals[d]]
                0 <= e < globals.len() && !m.defined[e] && 0 <= d < globals.len() && m.defined[d]
                    ==> stands_before(lines, globals[e], globals[d])
            &&& forall|k: int, d: int|
                #![trigger data[k], globals[d]]
                0 <= k < data.len() && 0 <= d < globals.len() && m.defined[d] ==> stands_before(
                    lines,
                    data[k],
                    globals[d],
                )
            &&& forall|k: int, l: int|
                #![trigger data[k], data[l]]
                0 <= k < l < data.len() ==> stands_before(lines, data[k], data[l])
        }),
{
    let n = m.global_decls.len();
    let (fns, data, globals) = (m.function_decls, m.data_sections, m.global_decls);
    let head = type_defs(types, types.len()) + m.struct_defs;
    let decls = marked(globals, m.defined, false, n);
    let defs = marked(globals, m.defined, true, n);
    let first = head + fns + decls;
    let second = first + data;
    let none = Seq::<Text>::empty();
    let lines = module_lines(types, m);
    assert(first + data + defs =~= lines);
    assert(second + defs + none =~= lines);
    assert forall|f: int| 0 <= f < fns.len() implies first.contains(#[trigger] fns[f]) by {
        assert(fns.contains(fns[f]));
        found_in_sum(head, fns, fns[f]);
        found_in_sum(head + fns, decls, fns[f]);
    }
    assert forall|e: int| 0 <= e < n && !m.defined[e] implies first.contains(
        #[trigger] globals[e],
    ) by {
        marked_lines_are_found(globals, m.defined, false, n, e);
        found_in_sum(head + fns, decls, globals[e]);
    }
    assert forall|d: int| 0 <= d < n && m.defined[d] implies defs.contains(
        #[trigger] globals[d],
    ) by {
        marked_lines_are_found(globals, m.defined, true, n, d);
    }
    assert forall|x: Text, k: int| #[trigger]
        first.contains(x) && 0 <= k < data.len() implies stands_before(
        lines,
        x,
        #[trigger] data[k],
    ) by {
        assert(data.contains(data[k]));
        parts_stand_in_order(first, data, defs, x, data[k]);
    }
    assert forall|x: Text, z: Text| #[trigger]
        first.contains(x) && #[trigger] defs.contains(z) implies stands_before(
        lines,
        x,
        z,
    ) by {
        found_in_sum(first, data, x);
        parts_stand_in_order(second, defs, none, x, z);
    }
    assert forall|k: int, z: Text|
        0 <= k < data.len() && #[trigger] defs.contains(z) implies stands_before(
        lines,
        #[trigger] data[k],
        z,
    ) by {
        assert(data.contains(data[k]));
        found_in_sum(first, data, data[k]);
        parts_stand_in_order(second, defs, none, data[k], z);
    }
    assert forall|k: int, l: int| 0 <= k < l < data.len() implies stands_before(
        lines,
        #[trigger] data[k],
        #[trigger] data[l],
    ) by {
        assert(lines[first.len() + k] == data[k]);
        assert(lines[first.len() + l] == data[l]);
    }
}

} // verus!
