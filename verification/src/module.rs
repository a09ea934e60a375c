//! The C module under construction: its declarations, the functions whose
//! bodies are open, and their basic blocks.
use vstd::hash_set::StringHashSet;
use vstd::prelude::*;

use crate::c_ast::{stmts, CStmt, Stmt};
use crate::text::{dec, dec_u32, same_text, texts, Text};
use crate::types::{opt_text, TypeRef};

verus! {

/// A basic block. The number `u32::MAX` stands for a block that could not be
/// made because its function is not open.
#[derive(Clone, Copy, PartialEq, Eq, Structural, Debug)]
pub struct BasicBlockId(pub u32);

/// A basic block of an open function.
pub struct CBlock {
    /// The function that the block belongs to.
    pub func: String,
    pub label: String,
    pub stmts: Vec<CStmt>,
    /// Whether the block ends in a terminator.
    pub terminated: bool,
}

/// A basic block, as contracts speak of it.
pub struct Block {
    pub func: Text,
    pub label: Text,
    pub stmts: Seq<Stmt>,
    pub terminated: bool,
}

impl View for CBlock {
    type V = Block;

    open spec fn view(&self) -> Block {
        Block {
            func: self.func@,
            label: self.label@,
            stmts: stmts(self.stmts@),
            terminated: self.terminated,
        }
    }
}

/// A function whose body is being built.
pub struct FunctionDef {
    pub name: String,
    pub return_type: TypeRef,
    pub params: Vec<(TypeRef, String)>,
    pub locals: Vec<String>,
    /// How many blocks the function has.
    pub block_counter: u32,
    /// The number from which on blocks can be the function's.
    pub first_block: u32,
    /// Whether the function has a call that can unwind.
    pub has_invoke: bool,
    /// The local that holds the value of an indirect return.
    pub retbuf_name: Option<String>,
    pub has_indirect_ret: bool,
    pub ret_data_type: Option<TypeRef>,
    /// The parameters that are passed by value on the stack.
    pub on_stack_params: Vec<usize>,
    pub linkage_prefix: String,
    pub is_variadic: bool,
    /// Parameters whose type is written in another way.
    pub param_type_overrides: Vec<(usize, String)>,
}

/// A function whose body is being built, as contracts speak of it.
pub struct Func {
    pub name: Text,
    pub return_type: TypeRef,
    pub params: Seq<(TypeRef, Text)>,
    pub locals: Seq<Text>,
    pub block_counter: u32,
    pub first_block: u32,
    pub has_invoke: bool,
    pub retbuf_name: Option<Text>,
    pub has_indirect_ret: bool,
    pub ret_data_type: Option<TypeRef>,
    pub on_stack_params: Seq<usize>,
    pub linkage_prefix: Text,
    pub is_variadic: bool,
    pub param_type_overrides: Seq<(usize, Text)>,
}

/// The model of a parameter list.
pub open spec fn params_model(v: Seq<(TypeRef, String)>) -> Seq<(TypeRef, Text)> {
    v.map_values(|p: (TypeRef, String)| (p.0, p.1@))
}

/// The model of a list of parameter overrides.
pub open spec fn overrides_model(v: Seq<(usize, String)>) -> Seq<(usize, Text)> {
    v.map_values(|p: (usize, String)| (p.0, p.1@))
}

impl View for FunctionDef {
    type V = Func;

    open spec fn view(&self) -> Func {
        Func {
            name: self.name@,
            return_type: self.return_type,
            params: params_model(self.params@),
            locals: texts(self.locals@),
            block_counter: self.block_counter,
            first_block: self.first_block,
            has_invoke: self.has_invoke,
            retbuf_name: opt_text(self.retbuf_name),
            has_indirect_ret: self.has_indirect_ret,
            ret_data_type: self.ret_data_type,
            on_stack_params: self.on_stack_params@,
            linkage_prefix: self.linkage_prefix@,
            is_variadic: self.is_variadic,
            param_type_overrides: overrides_model(self.param_type_overrides@),
        }
    }
}

/// A function without a body, in the state in which it is opened.
pub open spec fn new_func(name: Text, ret: TypeRef, params: Seq<(TypeRef, Text)>) -> Func {
    Func {
        name,
        return_type: ret,
        params,
        locals: Seq::empty(),
        block_counter: 0,
        first_block: 0,
        has_invoke: false,
        retbuf_name: None,
        has_indirect_ret: false,
        ret_data_type: None,
        on_stack_params: Seq::empty(),
        linkage_prefix: Seq::empty(),
        is_variadic: false,
        param_type_overrides: Seq::empty(),
    }
}

/// A C module under construction, as contracts speak of it.
#[verifier::ext_equal]
pub struct Module {
    pub name: Text,
    pub struct_defs: Seq<Text>,
    pub function_decls: Seq<Text>,
    /// The declarations and definitions of globals.
    pub global_decls: Seq<Text>,
    /// Which of those are definitions.
    pub defined: Seq<bool>,
    pub data_sections: Seq<Text>,
    pub declared_fns: Set<Text>,
    pub declared_globals: Set<Text>,
    pub declared_extern_globals: Set<Text>,
    pub open: Map<Text, Func>,
    pub blocks: Seq<Block>,
    pub precompiled_source: Option<Text>,
}

/// What the operations on a module do.
impl Module {
    /// The module with an open function replaced.
    pub open spec fn with_func(self, f: Func) -> Module {
        Module { open: self.open.insert(f.name, f), ..self }
    }

    /// Opens a function, in place of one of the same name if there is one. The
    /// blocks of that one are not blocks of the new one.
    pub open spec fn opened(self, f: Func) -> Module {
        self.with_func(Func { first_block: self.blocks.len() as u32, ..f })
    }

    /// Adds a local declaration to an open function.
    pub open spec fn local(self, func: Text, decl: Text) -> Module {
        if self.open.contains_key(func) {
            let f = self.open[func];
            self.with_func(Func { locals: f.locals.push(decl), ..f })
        } else {
            self
        }
    }

    /// Whether `bb` is a block of the open function `func`.
    pub open spec fn has_block(self, func: Text, bb: BasicBlockId) -> bool {
        &&& self.open.contains_key(func)
        &&& self.open[func].first_block <= bb.0 < self.blocks.len()
        &&& self.blocks[bb.0 as int].func == func
    }

    /// Appends a statement to a block of an open function.
    pub open spec fn emit(self, func: Text, bb: BasicBlockId, s: Stmt) -> Module {
        if self.has_block(func, bb) {
            let b = self.blocks[bb.0 as int];
            Module {
                blocks: self.blocks.update(bb.0 as int, Block { stmts: b.stmts.push(s), ..b }),
                ..self
            }
        } else {
            self
        }
    }

    /// Marks a block of an open function as terminated.
    pub open spec fn terminate(self, func: Text, bb: BasicBlockId) -> Module {
        if self.has_block(func, bb) {
            let b = self.blocks[bb.0 as int];
            Module {
                blocks: self.blocks.update(bb.0 as int, Block { terminated: true, ..b }),
                ..self
            }
        } else {
            self
        }
    }

    /// Adds a block to an open function.
    pub open spec fn new_block(self, func: Text, label: Text) -> Module {
        let f = self.open[func];
        Module {
            blocks: self.blocks.push(
                Block { func, label, stmts: Seq::empty(), terminated: false },
            ),
            ..self.with_func(Func { block_counter: (f.block_counter + 1) as u32, ..f })
        }
    }

    /// The label of a block, seen from a function.
    pub open spec fn label(self, func: Text, bb: BasicBlockId) -> Text {
        if self.has_block(func, bb) {
            self.blocks[bb.0 as int].label
        } else {
            "bb"@ + dec(bb.0 as nat)
        }
    }

    /// Declares a global, unless a declaration of that name was added before.
    pub open spec fn global_decl(self, name: Text, decl: Text) -> Module {
        if self.declared_extern_globals.contains(name) {
            self
        } else {
            Module {
                declared_extern_globals: self.declared_extern_globals.insert(name),
                global_decls: self.global_decls.push(decl),
                defined: self.defined.push(false),
                ..self
            }
        }
    }

    /// Declares a function, unless that name was declared before.
    pub open spec fn declare_fn(self, name: Text, decl: Text) -> Module {
        if self.declared_fns.contains(name) {
            self
        } else {
            Module {
                declared_fns: self.declared_fns.insert(name),
                function_decls: self.function_decls.push(decl),
                ..self
            }
        }
    }
}

/// The name by which an open function is found is its own, and it has no more
/// blocks than there are from its first on.
pub open spec fn funcs_ok(open: Map<Text, Func>, nblocks: nat) -> bool {
    forall|n: Text| #[trigger]
        open.contains_key(n) ==> open[n].name == n && open[n].first_block
            + open[n].block_counter <= nblocks
}

// --- The open functions as a map ---

/// Whether no two functions of a list have the same name.
pub open spec fn unique_names(fns: Seq<FunctionDef>) -> bool {
    forall|i: int, j: int|
        0 <= i < j < fns.len() ==> (#[trigger] fns[i]).name@ != (#[trigger] fns[j]).name@
}

/// Whether the function at `i` has a name.
pub open spec fn named(fns: Seq<FunctionDef>, name: Text, i: int) -> bool {
    0 <= i < fns.len() && fns[i].name@ == name
}

/// The functions of a list by their names.
pub open spec fn open_map(fns: Seq<FunctionDef>) -> Map<Text, Func> {
    Map::new(
        |n: Text| exists|i: int| named(fns, n, i),
        |n: Text| fns[choose|i: int| named(fns, n, i)]@,
    )
}

/// A function of a list is found by its name.
pub proof fn open_map_at(fns: Seq<FunctionDef>, i: int)
    requires
        unique_names(fns),
        0 <= i < fns.len(),
    ensures
        open_map(fns).contains_key(fns[i].name@),
        open_map(fns)[fns[i].name@] == fns[i]@,
{
    let n = fns[i].name@;
    assert(named(fns, n, i));
    let j = choose|j: int| named(fns, n, j);
    assert(named(fns, n, j));
    if i < j {
        assert(fns[i].name@ != fns[j].name@);
    } else if j < i {
        assert(fns[j].name@ != fns[i].name@);
    }
}

proof fn open_map_update(fns: Seq<FunctionDef>, i: int, f: FunctionDef)
    requires
        unique_names(fns),
        0 <= i < fns.len(),
        f.name@ == fns[i].name@,
    ensures
        unique_names(fns.update(i, f)),
        open_map(fns.update(i, f)) == open_map(fns).insert(f.name@, f@),
{
    let after = fns.update(i, f);
    assert forall|n: Text| #[trigger]
        open_map(after).contains_key(n) <==> open_map(fns).insert(f.name@, f@).contains_key(n) by {
        if open_map(after).contains_key(n) {
            let j = choose|j: int| named(after, n, j);
            assert(named(fns, n, j));
        }
        if open_map(fns).contains_key(n) {
            let j = choose|j: int| named(fns, n, j);
            assert(named(after, n, j));
        }
        assert(named(after, f.name@, i));
    }
    assert forall|n: Text| #[trigger]
        open_map(after).contains_key(n) implies open_map(after)[n] == open_map(fns).insert(
        f.name@,
        f@,
    )[n] by {
        let j = choose|j: int| named(after, n, j);
        open_map_at(after, j);
        open_map_at(fns, j);
        if n == f.name@ && j != i {
            if i < j {
                assert(after[i].name@ != after[j].name@);
            } else {
                assert(after[j].name@ != after[i].name@);
            }
        }
    }
    assert(open_map(after) =~= open_map(fns).insert(f.name@, f@));
}

proof fn open_map_push(fns: Seq<FunctionDef>, f: FunctionDef)
    requires
        unique_names(fns),
        !open_map(fns).contains_key(f.name@),
    ensures
        unique_names(fns.push(f)),
        open_map(fns.push(f)) == open_map(fns).insert(f.name@, f@),
{
    let after = fns.push(f);
    assert forall|i: int, j: int| 0 <= i < j < after.len() implies (#[trigger] after[i]).name@ != (
    #[trigger] after[j]).name@ by {
        if j == fns.len() {
            assert(named(fns, fns[i].name@, i));
        } else {
            assert(fns[i].name@ != fns[j].name@);
        }
    }
    assert forall|n: Text| #[trigger]
        open_map(after).contains_key(n) <==> open_map(fns).insert(f.name@, f@).contains_key(n) by {
        if open_map(after).contains_key(n) {
            let j = choose|j: int| named(after, n, j);
            if j < fns.len() {
                assert(named(fns, n, j));
            }
        }
        if open_map(fns).contains_key(n) {
            let j = choose|j: int| named(fns, n, j);
            assert(named(after, n, j));
        }
        assert(named(after, f.name@, fns.len() as int));
    }
    assert forall|n: Text| #[trigger]
        open_map(after).contains_key(n) implies open_map(after)[n] == open_map(fns).insert(
        f.name@,
        f@,
    )[n] by {
        let j = choose|j: int| named(after, n, j);
        open_map_at(after, j);
        if j < fns.len() {
            open_map_at(fns, j);
            assert(after[j].name@ != after[fns.len() as int].name@);
        }
    }
    assert(open_map(after) =~= open_map(fns).insert(f.name@, f@));
}

/// A C module under construction.
pub struct CModule {
    pub name: String,
    pub struct_defs: Vec<String>,
    pub function_decls: Vec<String>,
    /// The declarations and definitions of globals.
    pub global_decls: Vec<String>,
    /// Which of those are definitions.
    pub defined: Vec<bool>,
    pub data_sections: Vec<String>,
    /// The functions that have a declaration.
    pub declared_fns: StringHashSet,
    /// The statics that this module defines.
    pub declared_globals: StringHashSet,
    /// The statics that have a declaration.
    pub declared_extern_globals: StringHashSet,
    pub open: Vec<FunctionDef>,
    pub blocks: Vec<CBlock>,
    /// Finished source that stands for the whole module.
    pub precompiled_source: Option<String>,
}

impl View for CModule {
    type V = Module;

    open spec fn view(&self) -> Module {
        Module {
            name: self.name@,
            struct_defs: texts(self.struct_defs@),
            function_decls: texts(self.function_decls@),
            global_decls: texts(self.global_decls@),
            defined: self.defined@,
            data_sections: texts(self.data_sections@),
            declared_fns: self.declared_fns@,
            declared_globals: self.declared_globals@,
            declared_extern_globals: self.declared_extern_globals@,
            open: open_map(self.open@),
            blocks: self.blocks@.map_values(|b: CBlock| b@),
            precompiled_source: opt_text(self.precompiled_source),
        }
    }
}

impl CModule {
    /// The invariant of a module.
    pub open spec fn wf(&self) -> bool {
        &&& unique_names(self.open@)
        &&& funcs_ok(self@.open, self@.blocks.len())
        &&& self@.blocks.len() <= u32::MAX
        &&& self.defined@.len() == self.global_decls@.len()
    }

    /// An empty module.
    pub fn new(name: String) -> (r: CModule)
        ensures
            r.wf(),
            r@ == (Module {
                name: name@,
                struct_defs: Seq::empty(),
                function_decls: Seq::empty(),
                global_decls: Seq::empty(),
                defined: Seq::empty(),
                data_sections: Seq::empty(),
                declared_fns: Set::empty(),
                declared_globals: Set::empty(),
                declared_extern_globals: Set::empty(),
                open: Map::empty(),
                blocks: Seq::empty(),
                precompiled_source: None,
            }),
    {
        let r = CModule {
            name,
            struct_defs: Vec::new(),
            function_decls: Vec::new(),
            global_decls: Vec::new(),
            defined: Vec::new(),
            data_sections: Vec::new(),
            declared_fns: StringHashSet::new(),
            declared_globals: StringHashSet::new(),
            declared_extern_globals: StringHashSet::new(),
            open: Vec::new(),
            blocks: Vec::new(),
            precompiled_source: None,
        };
        assert(r@.open =~= Map::empty());
        assert(r@.struct_defs =~= Seq::empty());
        assert(r@.blocks =~= Seq::empty());
        assert(r@.defined =~= Seq::empty());
        r
    }

    /// A function in the state in which it is opened.
    pub fn new_function_def(name: String, ret: TypeRef, params: Vec<(TypeRef, String)>) -> (r:
        FunctionDef)
        ensures
            r@ == new_func(name@, ret, params_model(params@)),
    {
        let r = FunctionDef {
            name,
            return_type: ret,
            params,
            locals: Vec::new(),
            block_counter: 0,
            first_block: 0,
            has_invoke: false,
            retbuf_name: None,
            has_indirect_ret: false,
            ret_data_type: None,
            on_stack_params: Vec::new(),
            linkage_prefix: String::new(),
            is_variadic: false,
            param_type_overrides: Vec::new(),
        };
        assert(r@.locals =~= Seq::empty());
        assert(r@.param_type_overrides =~= Seq::empty());
        assert(r@.on_stack_params =~= Seq::empty());
        assert(r@.linkage_prefix =~= Seq::empty());
        r
    }

    /// The place of an open function.
    fn fn_index(&self, func: &str) -> (r: Option<usize>)
        requires
            unique_names(self.open@),
        ensures
            match r {
                Some(i) => i < self.open@.len() && self.open@[i as int].name@ == func@
                    && self@.open.contains_key(func@) && self@.open[func@] == self.open@[i as int]@,
                None => !self@.open.contains_key(func@),
            },
    {
        let mut i: usize = 0;
        while i < self.open.len()
            invariant
                i <= self.open@.len(),
                unique_names(self.open@),
                forall|k: int| 0 <= k < i ==> !#[trigger] named(self.open@, func@, k),
            decreases self.open@.len() - i,
        {
            if same_text(&self.open[i].name, func) {
                proof {
                    open_map_at(self.open@, i as int);
                }
                return Some(i);
            }
            assert(!named(self.open@, func@, i as int));
            i = i + 1;
        }
        assert forall|k: int| !#[trigger] named(self.open@, func@, k) by {}
        None
    }

    /// The open function of a name.
    pub fn get_open(&self, func: &str) -> (r: Option<&FunctionDef>)
        requires
            self.wf(),
        ensures
            match r {
                Some(f) => self@.open.contains_key(func@) && f@ == self@.open[func@],
                None => !self@.open.contains_key(func@),
            },
    {
        match self.fn_index(func) {
            Some(i) => Some(&self.open[i]),
            None => None,
        }
    }

    /// Opens a function, in place of one of the same name if there is one. The
    /// blocks of that one are not blocks of the new one.
    pub fn open_function(&mut self, def: FunctionDef)
        requires
            old(self).wf(),
            def@.block_counter == 0,
        ensures
            final(self).wf(),
            final(self)@ == old(self)@.opened(def@),
    {
        let mut def = def;
        def.first_block = self.blocks.len() as u32;
        match self.fn_index(&def.name) {
            Some(i) => {
                proof {
                    open_map_update(self.open@, i as int, def);
                }
                self.open.set(i, def);
            },
            None => {
                proof {
                    open_map_push(self.open@, def);
                }
                self.open.push(def);
            },
        }
    }

    /// Adds a local declaration to an open function.
    pub fn add_local_decl(&mut self, func: &str, decl: String)
        requires
            old(self).wf(),
        ensures
            final(self).wf(),
            final(self)@ == old(self)@.local(func@, decl@),
    {
        if let Some(i) = self.fn_index(func) {
            let ghost before = self.open@;
            self.open[i].locals.push(decl);
            proof {
                let f = self.open@[i as int];
                assert(self.open@ =~= before.update(i as int, f));
                open_map_update(before, i as int, f);
                assert(f@.locals =~= before[i as int]@.locals.push(decl@));
            }
        }
    }

    /// Records that an open function has a call that can unwind.
    pub fn set_has_invoke(&mut self, func: &str)
        requires
            old(self).wf(),
            old(self)@.open.contains_key(func@),
        ensures
            final(self).wf(),
            final(self)@ == old(self)@.with_func(
                Func { has_invoke: true, ..old(self)@.open[func@] },
            ),
    {
        if let Some(i) = self.fn_index(func) {
            let ghost before = self.open@;
            self.open[i].has_invoke = true;
            proof {
                let f = self.open@[i as int];
                assert(self.open@ =~= before.update(i as int, f));
                open_map_update(before, i as int, f);
            }
        }
    }

    /// Names the local that holds the value of an indirect return.
    pub fn set_retbuf(&mut self, func: &str)
        requires
            old(self).wf(),
        ensures
            final(self).wf(),
            final(self)@ == (if old(self)@.open.contains_key(func@) {
                old(self)@.with_func(
                    Func { retbuf_name: Some("_retbuf"@), ..old(self)@.open[func@] },
                )
            } else {
                old(self)@
            }),
    {
        if let Some(i) = self.fn_index(func) {
            let ghost before = self.open@;
            self.open[i].retbuf_name = Some("_retbuf".to_owned());
            proof {
                let f = self.open@[i as int];
                assert(self.open@ =~= before.update(i as int, f));
                open_map_update(before, i as int, f);
            }
        }
    }

    /// Whether a block is one of an open function.
    fn owns_block(&self, func: &str, bb: BasicBlockId) -> (r: bool)
        requires
            self.wf(),
        ensures
            r == self@.has_block(func@, bb),
    {
        match self.fn_index(func) {
            Some(i) => self.open[i].first_block <= bb.0 && (bb.0 as usize) < self.blocks.len()
                && same_text(&self.blocks[bb.0 as usize].func, func),
            None => false,
        }
    }

    /// Appends a statement to a block of an open function.
    pub fn emit(&mut self, func: &str, bb: BasicBlockId, stmt: CStmt)
        requires
            old(self).wf(),
        ensures
            final(self).wf(),
            final(self)@ == old(self)@.emit(func@, bb, stmt@),
    {
        if self.owns_block(func, bb) {
            let i = bb.0 as usize;
            let ghost before = self@;
            self.blocks[i].stmts.push(stmt);
            proof {
                assert(self@.blocks[i as int].stmts =~= before.blocks[i as int].stmts.push(stmt@));
                assert(self@.blocks =~= before.emit(func@, bb, stmt@).blocks);
            }
        }
    }

    /// Marks a block of an open function as terminated.
    pub fn set_terminated(&mut self, func: &str, bb: BasicBlockId)
        requires
            old(self).wf(),
        ensures
            final(self).wf(),
            final(self)@ == old(self)@.terminate(func@, bb),
    {
        if self.owns_block(func, bb) {
            let i = bb.0 as usize;
            let ghost before = self@;
            self.blocks[i].terminated = true;
            proof {
                assert(self@.blocks =~= before.terminate(func@, bb).blocks);
            }
        }
    }

    /// Adds a block to an open function.
    pub fn new_block(&mut self, func: &str, label: String) -> (r: BasicBlockId)
        requires
            old(self).wf(),
            old(self)@.open.contains_key(func@),
            old(self)@.blocks.len() < u32::MAX,
        ensures
            final(self).wf(),
            final(self)@ == old(self)@.new_block(func@, label@),
            r.0 == old(self)@.blocks.len(),
    {
        let id = self.blocks.len() as u32;
        let ghost start = self@;
        if let Some(i) = self.fn_index(func) {
            let ghost before = self.open@;
            let n = self.open[i].block_counter;
            assert(start.open.contains_key(func@));
            self.open[i].block_counter = n + 1;
            proof {
                let f = self.open@[i as int];
                assert(self.open@ =~= before.update(i as int, f));
                open_map_update(before, i as int, f);
            }
        }
        self.blocks.push(
            CBlock { func: func.to_owned(), label, stmts: Vec::new(), terminated: false },
        );
        proof {
            let b = self.blocks@.last()@;
            assert(b.stmts =~= Seq::empty());
            assert(self@.blocks =~= start.new_block(func@, label@).blocks);
        }
        BasicBlockId(id)
    }

    /// The label of a block, seen from a function.
    pub fn block_label(&self, func: &str, bb: BasicBlockId) -> (r: String)
        requires
            self.wf(),
        ensures
            r@ == self@.label(func@, bb),
    {
        if self.owns_block(func, bb) {
            self.blocks[bb.0 as usize].label.clone()
        } else {
            "bb".to_owned().concat(&dec_u32(bb.0))
        }
    }

    /// The name of the function that a block belongs to, empty where the block
    /// is none of this module.
    pub fn block_function(&self, bb: BasicBlockId) -> (r: String)
        ensures
            r@ == (if bb.0 < self@.blocks.len() {
                self@.blocks[bb.0 as int].func
            } else {
                Seq::empty()
            }),
    {
        if (bb.0 as usize) < self.blocks.len() {
            self.blocks[bb.0 as usize].func.clone()
        } else {
            String::new()
        }
    }

    /// Declares a global, unless a declaration of that name was added before.
    pub fn add_global_decl(&mut self, name: &str, decl: String)
        requires
            old(self).wf(),
        ensures
            final(self).wf(),
            final(self)@ == old(self)@.global_decl(name@, decl@),
    {
        if !self.declared_extern_globals.contains(name) {
            let ghost before = self@;
            self.declared_extern_globals.insert(name.to_owned());
            self.global_decls.push(decl);
            self.defined.push(false);
            assert(self@.global_decls =~= before.global_decls.push(decl@));
        }
    }

    /// Declares a function, unless that name was declared before.
    pub fn declare_fn(&mut self, name: &str, decl: String)
        requires
            old(self).wf(),
        ensures
            final(self).wf(),
            final(self)@ == old(self)@.declare_fn(name@, decl@),
    {
        if self.declared_fns.insert(name.to_owned()) {
            let ghost before = self@;
            self.function_decls.push(decl);
            assert(self@.function_decls =~= before.function_decls.push(decl@));
        } else {
            assert(self@.declared_fns =~= old(self)@.declared_fns);
        }
    }

    /// Adds a global's definition.
    pub fn push_global(&mut self, decl: String)
        requires
            old(self).wf(),
        ensures
            final(self).wf(),
            final(self)@ == (Module {
                global_decls: old(self)@.global_decls.push(decl@),
                defined: old(self)@.defined.push(true),
                ..old(self)@
            }),
    {
        let ghost before = self@;
        self.global_decls.push(decl);
        self.defined.push(true);
        assert(self@.global_decls =~= before.global_decls.push(decl@));
    }

    /// Adds a definition to the data section.
    pub fn push_data(&mut self, decl: String)
        requires
            old(self).wf(),
        ensures
            final(self).wf(),
            final(self)@ == (Module {
                data_sections: old(self)@.data_sections.push(decl@),
                ..old(self)@
            }),
    {
        let ghost before = self@;
        self.data_sections.push(decl);
        assert(self@.data_sections =~= before.data_sections.push(decl@));
    }

    /// Adds the definition of a structure.
    pub fn push_struct(&mut self, def: String)
        requires
            old(self).wf(),
        ensures
            final(self).wf(),
            final(self)@ == (Module {
                struct_defs: old(self)@.struct_defs.push(def@),
                ..old(self)@
            }),
    {
        let ghost before = self@;
        self.struct_defs.push(def);
        assert(self@.struct_defs =~= before.struct_defs.push(def@));
    }
}

} // verus!
