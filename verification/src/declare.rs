//! Functions: how they are declared, looked up and opened for their bodies.
use vstd::prelude::*;

use crate::context::{asm_text, extends, func_types_ok, sanitized, CodegenCx, Cx, Linkage};
use crate::layout::{ArgAbi, BackendRepr, FnAbi, PassMode};
use crate::module::{new_func, params_model, CModule, Func, Module};
use crate::text::{dec, dec_usize, texts, Text};
use crate::type_of::{
    all_param_types_are_stable, bits_of, fn_abi_param_types, fn_abi_ret_type, fn_abi_to_c_type,
    interning_is_stable, layout_to_c_type, ret_type_is_stable, types_ok,
};
use crate::types::{params_text, render_params, type_texts, CTypeKind, Kind, TypeRef};
use crate::values::{CValueKind, ValKind, ValueRef};

verus! {

/// A function of the program: the number of the instance, its symbol name and
/// its calling convention.
#[derive(Debug)]
pub struct FnRef {
    pub id: u64,
    pub sym: String,
    pub abi: FnAbi,
}

/// The declaration of a function.
pub open spec fn fn_decl_text(
    prefix: Text,
    ret: Text,
    sym: Text,
    params: Seq<Text>,
    variadic: bool,
) -> Text {
    prefix + ret + " "@ + sanitized(sym) + "("@ + params_text(params, variadic) + ")"@ + asm_text(
        sym,
        sanitized(sym),
    ) + ";"@
}

/// How many C parameters one argument becomes.
pub open spec fn param_count(arg: ArgAbi) -> nat {
    match arg.mode {
        PassMode::Ignore => 0,
        PassMode::Pair => match arg.layout.repr {
            BackendRepr::ScalarPair(_, _) => 2,
            _ => 1,
        },
        PassMode::Indirect { has_meta: true, .. } => 2,
        _ => 1,
    }
}

/// How many C parameters the first `n` arguments become.
pub open spec fn params_before(args: Seq<ArgAbi>, n: nat) -> nat
    decreases n,
{
    if n == 0 {
        0
    } else {
        params_before(args, (n - 1) as nat) + param_count(args[n - 1])
    }
}

/// Whether an argument is passed by value on the stack.
pub open spec fn is_on_stack(arg: ArgAbi) -> bool {
    match arg.mode {
        PassMode::Indirect { on_stack: true, has_meta: false, .. } => true,
        _ => false,
    }
}

/// The places among the C parameters of those of the first `n` arguments that
/// are passed by value on the stack.
pub open spec fn stack_params(args: Seq<ArgAbi>, n: nat) -> Seq<usize>
    decreases n,
{
    if n == 0 {
        Seq::empty()
    } else {
        let before = stack_params(args, (n - 1) as nat);
        if is_on_stack(args[n - 1]) {
            before.push(params_before(args, (n - 1) as nat) as usize)
        } else {
            before
        }
    }
}

/// The parameters of a function with their names.
pub open spec fn named_params(types: Seq<TypeRef>) -> Seq<(TypeRef, Text)> {
    types.map(|i: int, t: TypeRef| (t, "_arg"@ + dec(i as nat)))
}

/// Whether a function of this linkage is local to its unit.
pub open spec fn is_internal(linkage: Linkage) -> bool {
    linkage == Linkage::Internal || linkage == Linkage::AvailableExternally
}

/// The keyword before a function of this linkage.
pub open spec fn linkage_prefix(linkage: Linkage) -> Text {
    if is_internal(linkage) {
        "static "@
    } else {
        Seq::empty()
    }
}

/// What the operations on functions do.
impl Cx {
    /// Adds the value of a function.
    pub open spec fn fn_value(self, f: FnRef) -> (Cx, ValueRef) {
        let (c1, sig) = self.fn_type(f.abi);
        let (c2, ptr) = c1.interns(Kind::Ptr);
        let v = c2.next();
        (
            c2.value(ValKind::Function { name: sanitized(f.sym@), sig }, ptr).instance(f.id, v),
            v,
        )
    }

    /// How a function is declared that is looked up: by the signature of its
    /// value.
    pub open spec fn reference_decl(self, f: FnRef) -> Text {
        let sig = self.fn_type(f.abi).1;
        let (c, ret) = self.fn_value(f).0.ret_type(f.abi);
        match c.kind(sig) {
            Kind::Function { args, variadic, .. } => fn_decl_text(
                Seq::empty(),
                c.type_str(ret),
                f.sym@,
                type_texts(c.types, args),
                variadic,
            ),
            _ => Seq::empty(),
        }
    }

    /// The parameters of a function that is predefined.
    pub open spec fn predefined_params(self, f: FnRef) -> (Cx, Seq<TypeRef>) {
        self.fn_value(f).0.ret_type(f.abi).0.all_param_types(f.abi.args@, f.abi.args@.len())
    }

    /// How a function is declared that is predefined: by its parameters.
    pub open spec fn definition_decl(self, f: FnRef, linkage: Linkage) -> Text {
        let ret = self.fn_value(f).0.ret_type(f.abi).1;
        let (c, params) = self.predefined_params(f);
        fn_decl_text(
            linkage_prefix(linkage),
            c.type_str(ret),
            f.sym@,
            type_texts(c.types, params),
            f.abi.c_variadic,
        )
    }

    /// Looks a function up. The first time its value is added and it is
    /// declared.
    pub open spec fn get_fn(self, f: FnRef) -> (Cx, ValueRef) {
        if self.instances.contains_key(f.id) {
            (self, self.instances[f.id])
        } else {
            let (c1, v) = self.fn_value(f);
            let c2 = c1.ret_type(f.abi).0;
            (
                c2.with_module(c2.module.declare_fn(sanitized(f.sym@), self.reference_decl(f))),
                v,
            )
        }
    }

    /// Predefines a function: its value is added, it is declared, and it is
    /// opened for its body.
    pub open spec fn predefine_fn(self, f: FnRef, linkage: Linkage) -> Cx {
        let ret = self.fn_value(f).0.ret_type(f.abi).1;
        let (c3, params) = self.predefined_params(f);
        let c4 = c3.with_module(
            c3.module.declare_fn(sanitized(f.sym@), self.definition_decl(f, linkage)),
        );
        let func = Func {
            linkage_prefix: linkage_prefix(linkage),
            is_variadic: f.abi.c_variadic,
            on_stack_params: stack_params(f.abi.args@, f.abi.args@.len()),
            ..new_func(sanitized(f.sym@), ret, named_params(params))
        };
        if f.abi.ret.mode is Indirect {
            let (c5, data) = c4.layout_type(f.abi.ret.layout);
            c5.with_module(
                c5.module.opened(
                    Func { has_indirect_ret: true, ret_data_type: Some(data), ..func },
                ),
            )
        } else {
            c4.with_module(c4.module.opened(func))
        }
    }

    /// The function that handles exceptions: its value is added the first time.
    pub open spec fn eh_personality(self) -> (Cx, ValueRef) {
        match self.personality {
            Some(v) => (self, v),
            None => {
                let (c1, ret) = self.interns(Kind::Int { bits: 32, signed: true });
                let (c2, sig) = c1.interns(
                    Kind::Function { ret, args: Seq::empty(), variadic: false },
                );
                let (c3, ptr) = c2.interns(Kind::Ptr);
                let v = c3.next();
                (
                    Cx {
                        personality: Some(v),
                        ..c3.value(
                            ValKind::Function { name: "__rust_eh_personality"@, sig },
                            ptr,
                        )
                    },
                    v,
                )
            },
        }
    }

    /// Opens the entry point of a program.
    pub open spec fn declare_c_main(self) -> (Cx, ValueRef) {
        let (c1, i32_ty) = self.interns(Kind::Int { bits: 32, signed: true });
        let (c2, sig) = c1.interns(
            Kind::Function { ret: i32_ty, args: Seq::empty(), variadic: false },
        );
        let (c3, ptr) = c2.interns(Kind::Ptr);
        let v = c3.next();
        let c4 = c3.value(ValKind::Function { name: "main"@, sig }, ptr);
        let f = Func {
            param_type_overrides: seq![(1usize, "char **"@)],
            ..new_func("main"@, i32_ty, seq![(i32_ty, "_arg0"@), (ptr, "_arg1"@)])
        };
        (c4.with_module(c4.module.opened(f)), v)
    }
}

/// Writes the declaration of a function.
fn render_fn_decl(prefix: &str, ret: &str, sym: &str, params: &Vec<String>, variadic: bool) -> (r:
    String)
    ensures
        r@ == fn_decl_text(prefix@, ret@, sym@, texts(params@), variadic),
{
    let c_name = CodegenCx::sanitize_name(sym);
    let suffix = CodegenCx::asm_label(sym, &c_name);
    let list = render_params(params, variadic);
    prefix.to_owned().concat(ret).concat(" ").concat(&c_name).concat("(").concat(&list).concat(
        ")",
    ).concat(&suffix).concat(";")
}

proof fn param_types_len(c: Cx, arg: ArgAbi)
    ensures
        c.param_types(arg).1.len() == param_count(arg),
{
}

proof fn all_param_types_len(c: Cx, args: Seq<ArgAbi>, n: nat)
    ensures
        c.all_param_types(args, n).1.len() == params_before(args, n),
    decreases n,
{
    if n > 0 {
        all_param_types_len(c, args, (n - 1) as nat);
        param_types_len(c.all_param_types(args, (n - 1) as nat).0, args[n - 1]);
    }
}

/// Whether an argument is passed by value on the stack.
fn arg_on_stack(arg: &ArgAbi) -> (r: bool)
    ensures
        r == is_on_stack(*arg),
{
    match &arg.mode {
        PassMode::Indirect { on_stack: true, has_meta: false, .. } => true,
        _ => false,
    }
}

/// Gives the parameters of a function their names.
fn name_params(types: &Vec<TypeRef>) -> (r: Vec<(TypeRef, String)>)
    ensures
        params_model(r@) == named_params(types@),
{
    let mut out: Vec<(TypeRef, String)> = Vec::new();
    let mut i: usize = 0;
    while i < types.len()
        invariant
            i <= types@.len(),
            out@.len() == i,
            forall|k: int|
                0 <= k < i ==> (#[trigger] out@[k]).0 == types@[k] && out@[k].1@ == "_arg"@ + dec(
                    k as nat,
                ),
        decreases types@.len() - i,
    {
        out.push((types[i], "_arg".to_owned().concat(&dec_usize(i))));
        i = i + 1;
    }
    assert(params_model(out@) =~= named_params(types@));
    out
}

impl CodegenCx {
    /// Adds the value of a function.
    fn fn_value(&mut self, f: &FnRef) -> (r: (TypeRef, ValueRef))
        requires
            old(self).wf(),
            f.abi.wf(),
        ensures
            final(self).wf(),
            (final(self)@, r.1) == old(self)@.fn_value(*f),
            r.0 == old(self)@.fn_type(f.abi).1,
            final(self)@.has_type(r.0),
            final(self)@.has(r.1),
            old(self)@.within(final(self)@),
    {
        let sig = fn_abi_to_c_type(self, &f.abi);
        let ptr_ty = self.type_ptr();
        let name = CodegenCx::sanitize_name(&f.sym);
        let v = self.intern_value(CValueKind::Function { name, sig }, ptr_ty);
        self.cache_instance(f.id, v);
        (sig, v)
    }

    /// The value of a function, which is declared the first time it is asked
    /// for.
    pub fn get_fn(&mut self, f: &FnRef) -> (r: ValueRef)
        requires
            old(self).wf(),
            f.abi.wf(),
        ensures
            final(self).wf(),
            (final(self)@, r) == old(self)@.get_fn(*f),
            final(self)@.has(r),
            old(self)@.within(final(self)@),
    {
        if let Some(v) = self.cached_instance(f.id) {
            return v;
        }
        let (sig, v) = self.fn_value(f);
        let ret_ty = fn_abi_ret_type(self, &f.abi);
        let ret_str = self.render_type(ret_ty);
        let decl = match self.get_kind(sig) {
            CTypeKind::Function { args, variadic, .. } => {
                let params = self.render_types(args);
                render_fn_decl("", &ret_str, &f.sym, &params, *variadic)
            },
            _ => String::new(),
        };
        proof {
            reveal_strlit("");
            assert(""@ =~= Seq::<char>::empty());
        }
        let name = CodegenCx::sanitize_name(&f.sym);
        self.declare_fn(&name, decl);
        v
    }

    /// The address of a function.
    pub fn get_fn_addr(&mut self, f: &FnRef) -> (r: ValueRef)
        requires
            old(self).wf(),
            f.abi.wf(),
        ensures
            final(self).wf(),
            (final(self)@, r) == old(self)@.get_fn(*f),
            final(self)@.has(r),
            old(self)@.within(final(self)@),
    {
        self.get_fn(f)
    }

    /// The function that handles exceptions.
    pub fn eh_personality(&mut self) -> (r: ValueRef)
        requires
            old(self).wf(),
        ensures
            final(self).wf(),
            (final(self)@, r) == old(self)@.eh_personality(),
            final(self)@.has(r),
            old(self)@.within(final(self)@),
    {
        if let Some(v) = self.cached_personality() {
            return v;
        }
        let ret = self.type_int(32);
        let none: Vec<TypeRef> = Vec::new();
        let sig = self.intern_type(CTypeKind::Function { ret, args: none, variadic: false });
        let ptr_ty = self.type_ptr();
        let v = self.intern_value(
            CValueKind::Function { name: "__rust_eh_personality".to_owned(), sig },
            ptr_ty,
        );
        self.cache_personality(v);
        v
    }

    /// Opens the entry point of a program, with the standard signature
    /// `int main(int, char **)`.
    pub fn declare_c_main(&mut self) -> (r: Option<ValueRef>)
        requires
            old(self).wf(),
        ensures
            final(self).wf(),
            r is Some,
            (final(self)@, r->0) == old(self)@.declare_c_main(),
            final(self)@.has(r->0),
            old(self)@.within(final(self)@),
    {
        let ret_ty = self.type_int(32);
        let none: Vec<TypeRef> = Vec::new();
        let sig = self.intern_type(
            CTypeKind::Function { ret: ret_ty, args: none, variadic: false },
        );
        let ptr_ty = self.type_ptr();
        let v = self.intern_value(CValueKind::Function { name: "main".to_owned(), sig }, ptr_ty);
        let params = vec![(ret_ty, "_arg0".to_owned()), (ptr_ty, "_arg1".to_owned())];
        assert(params_model(params@) =~= seq![(ret_ty, "_arg0"@), (ptr_ty, "_arg1"@)]);
        let mut def = CModule::new_function_def("main".to_owned(), ret_ty, params);
        def.param_type_overrides.push((1, "char **".to_owned()));
        assert(def@.param_type_overrides =~= seq![(1usize, "char **"@)]);
        self.open_function(def);
        Some(v)
    }

    /// Predefines a function: declares it and opens it for its body.
    pub fn predefine_fn(&mut self, f: &FnRef, linkage: Linkage)
        requires
            old(self).wf(),
            f.abi.wf(),
        ensures
            final(self).wf(),
            final(self)@ == old(self)@.predefine_fn(*f, linkage),
            old(self)@.within(final(self)@),
    {
        self.fn_value(f);
        let ret_ty = fn_abi_ret_type(self, &f.abi);
        let ghost c2 = self@;

        let mut param_types: Vec<TypeRef> = Vec::new();
        let mut on_stack_params: Vec<usize> = Vec::new();
        let mut i: usize = 0;
        while i < f.abi.args.len()
            invariant
                i <= f.abi.args@.len(),
                f.abi.wf(),
                self.wf(),
                (self@, param_types@) == c2.all_param_types(f.abi.args@, i as nat),
                self@.has_types(param_types@),
                c2.within(self@),
                on_stack_params@ == stack_params(f.abi.args@, i as nat),
            decreases f.abi.args@.len() - i,
        {
            if arg_on_stack(&f.abi.args[i]) {
                on_stack_params.push(param_types.len());
                proof {
                    all_param_types_len(c2, f.abi.args@, i as nat);
                }
            }
            let mut more = fn_abi_param_types(self, &f.abi.args[i]);
            let ghost before = param_types@;
            let ghost extra = more@;
            param_types.append(&mut more);
            i = i + 1;
            proof {
                assert forall|k: int| 0 <= k < param_types@.len() implies (
                #[trigger] param_types@[k]).0 < self@.types.len() by {
                    if k < before.len() {
                        assert(param_types@[k] == before[k]);
                    } else {
                        assert(param_types@[k] == extra[k - before.len()]);
                    }
                }
            }
        }

        let params = self.render_types(&param_types);
        let ret_str = self.render_type(ret_ty);
        let prefix = match linkage {
            Linkage::Internal => "static ",
            Linkage::AvailableExternally => "static ",
            _ => "",
        };
        proof {
            reveal_strlit("");
            assert(""@ =~= Seq::<char>::empty());
            assert(prefix@ == linkage_prefix(linkage));
        }
        let c_name = CodegenCx::sanitize_name(&f.sym);
        let decl = render_fn_decl(prefix, &ret_str, &f.sym, &params, f.abi.c_variadic);
        self.declare_fn(&c_name, decl);

        let named = name_params(&param_types);
        let mut def = CModule::new_function_def(c_name, ret_ty, named);
        def.linkage_prefix = prefix.to_owned();
        def.is_variadic = f.abi.c_variadic;
        def.on_stack_params = on_stack_params;
        match &f.abi.ret.mode {
            PassMode::Indirect { .. } => {
                let data = layout_to_c_type(self, &f.abi.ret.layout);
                def.has_indirect_ret = true;
                def.ret_data_type = Some(data);
            },
            _ => {},
        }
        proof {
            assert forall|k: int| 0 <= k < def@.params.len() implies (#[trigger] def@.params[k]).0.0
                < self@.types.len() by {
                assert(def@.params[k] == named_params(param_types@)[k]);
                assert(param_types@[k].0 < self@.types.len());
            }
            assert(func_types_ok(def@, self@.types.len() as int));
        }
        self.open_function(def);
    }
}

// --- Laws ---

/// A function that was looked up is found again: the second time the same value
/// is given and nothing is added or declared.
pub proof fn get_fn_is_cached(c: Cx, f: FnRef)
    ensures
        ({
            let (c1, v) = c.get_fn(f);
            c1.get_fn(f) == (c1, v)
        }),
{
    let (c1, v) = c.get_fn(f);
    if !c.instances.contains_key(f.id) {
        fn_value_is_cached(c, f);
        ret_type_keeps_caches(c.fn_value(f).0, f.abi);
    }
}

proof fn fn_value_is_cached(c: Cx, f: FnRef)
    ensures
        c.fn_value(f).0.instances.contains_key(f.id),
        c.fn_value(f).0.instances[f.id] == c.fn_value(f).1,
{
}

proof fn ret_type_keeps_caches(c: Cx, abi: FnAbi)
    ensures
        c.ret_type(abi).0.instances == c.instances,
{
    if let PassMode::Cast(cast) = abi.ret.mode {
        let (c1, unit) = c.interns(Kind::Int { bits: bits_of(cast.rest_unit), signed: true });
        prefix_types_keep_caches(c1, cast.prefix@, cast.prefix@.len());
    }
}

proof fn prefix_types_keep_caches(c: Cx, prefix: Seq<u64>, n: nat)
    ensures
        c.prefix_types(prefix, n).0.instances == c.instances,
    decreases n,
{
    if n > 0 {
        prefix_types_keep_caches(c, prefix, (n - 1) as nat);
    }
}

/// The function that handles exceptions is made once: the second time the same
/// value is given and nothing is added.
pub proof fn eh_personality_is_cached(c: Cx)
    ensures
        ({
            let (c1, v) = c.eh_personality();
            c1.eh_personality() == (c1, v)
        }),
{
}

/// A name is declared once: a second declaration of a function changes nothing.
pub proof fn functions_are_declared_once(m: Module, name: Text, first: Text, second: Text)
    ensures
        m.declare_fn(name, first).declare_fn(name, second) == m.declare_fn(name, first),
{
}

/// The parameters with which a function is opened are those of the signature of
/// its value, and converting them once more adds no type.
pub proof fn predefined_params_match_signature(c: Cx, f: FnRef)
    requires
        types_ok(c.fn_type(f.abi).0.intern(Kind::Ptr)),
    ensures
        ({
            let (c1, sig) = c.fn_type(f.abi);
            let (c2, ret) = c.fn_value(f).0.ret_type(f.abi);
            let (c3, params) = c.predefined_params(f);
            &&& c2 == c.fn_value(f).0
            &&& c3 == c2
            &&& c3.kind(sig) == Kind::Function { ret, args: params, variadic: f.abi.c_variadic }
        }),
{
    let (r1, ret) = c.ret_type(f.abi);
    let (r2, args) = r1.all_param_types(f.abi.args@, f.abi.args@.len());
    let k = Kind::Function { ret, args, variadic: f.abi.c_variadic };
    let (c1, sig) = r2.interns(k);
    let later = c.fn_value(f).0;
    assert(later.types == c1.intern(Kind::Ptr).types);
    assert(extends(c1.types, later.types));
    all_param_types_are_stable(r1, f.abi.args@, f.abi.args@.len(), later);
    ret_type_is_stable(c, f.abi, later);
    interning_is_stable(r2, k, c1.intern(Kind::Ptr));
    assert(c1.intern(Kind::Ptr).types.contains(k));
}

/// A function is declared in the same way whether it is predefined or only
/// looked up, but for the keyword of its linkage.
pub proof fn declarations_agree(c: Cx, f: FnRef, linkage: Linkage)
    requires
        types_ok(c.fn_type(f.abi).0.intern(Kind::Ptr)),
    ensures
        c.definition_decl(f, linkage) == linkage_prefix(linkage) + c.reference_decl(f),
{
    predefined_params_match_signature(c, f);
    let (c3, params) = c.predefined_params(f);
    prefix_comes_first(
        linkage_prefix(linkage),
        c3.type_str(c.fn_value(f).0.ret_type(f.abi).1),
        f.sym@,
        type_texts(c3.types, params),
        f.abi.c_variadic,
    );
}

proof fn concat_assoc(a: Text, b: Text, c: Text)
    ensures
        (a + b) + c == a + (b + c),
{
    assert((a + b) + c =~= a + (b + c));
}

proof fn prefix_comes_first(p: Text, ret: Text, sym: Text, list: Seq<Text>, variadic: bool)
    ensures
        fn_decl_text(p, ret, sym, list, variadic) == p + fn_decl_text(
            Seq::empty(),
            ret,
            sym,
            list,
            variadic,
        ),
{
    let e = Seq::<char>::empty();
    let params = params_text(list, variadic);
    let label = asm_text(sym, sanitized(sym));
    let t1 = e + ret;
    let t2 = t1 + " "@;
    let t3 = t2 + sanitized(sym);
    let t4 = t3 + "("@;
    let t5 = t4 + params;
    let t6 = t5 + ")"@;
    let t7 = t6 + label;
    assert(p + e =~= p);
    concat_assoc(p, e, ret);
    concat_assoc(p, t1, " "@);
    concat_assoc(p, t2, sanitized(sym));
    concat_assoc(p, t3, "("@);
    concat_assoc(p, t4, params);
    concat_assoc(p, t5, ")"@);
    concat_assoc(p, t6, label);
    concat_assoc(p, t7, ";"@);
}

} // verus!
