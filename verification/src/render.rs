//! The text of C code: expressions, statements, functions and modules.
use vstd::prelude::*;

use crate::c_ast::{CBinOp, CExpr, CStmt, CUnaryOp, Expr, Stmt};
use crate::context::{func_types_ok, CodegenCx};
use crate::module::{BasicBlockId, Block, CBlock, CModule, Func, FunctionDef, Module};
use crate::text::{dec, dec_u64, dec_usize, join, join_strings, same_text, texts, Text};
use crate::types::{
    decl_text, params_text, render_params, type_text, CTypeKind, Kind, TypeRef, TypeStore,
};

verus! {

/// The sign of a binary operator.
pub open spec fn binop_text(op: CBinOp) -> Text {
    match op {
        CBinOp::Add => "+"@,
        CBinOp::Sub => "-"@,
        CBinOp::Mul => "*"@,
        CBinOp::Div => "/"@,
        CBinOp::Rem => "%"@,
        CBinOp::Shl => "<<"@,
        CBinOp::Shr => ">>"@,
        CBinOp::BitAnd => "&"@,
        CBinOp::BitOr => "|"@,
        CBinOp::BitXor => "^"@,
        CBinOp::Eq => "=="@,
        CBinOp::Ne => "!="@,
        CBinOp::Lt => "<"@,
        CBinOp::Le => "<="@,
        CBinOp::Gt => ">"@,
        CBinOp::Ge => ">="@,
        CBinOp::LogAnd => "&&"@,
        CBinOp::LogOr => "||"@,
    }
}

/// The sign of a unary operator.
pub open spec fn unary_text(op: CUnaryOp) -> Text {
    match op {
        CUnaryOp::Neg => "-"@,
        CUnaryOp::BitNot => "~"@,
        CUnaryOp::LogNot => "!"@,
    }
}

/// Whether an expression needs brackets where it is an operand.
pub open spec fn is_compound(e: Expr) -> bool {
    e is Binop || e is Ternary
}

/// Whether an expression begins with an operator.
pub open spec fn is_prefixed(e: Expr) -> bool {
    e is Unary || e is Cast || e is AddrOf || e is Deref
}

/// Text in brackets, where they are needed.
pub open spec fn bracketed(t: Text, needed: bool) -> Text {
    if needed {
        "("@ + t + ")"@
    } else {
        t
    }
}

/// The text of an expression. An operand stands in brackets where C would take it
/// apart otherwise.
pub open spec fn expr_text(e: Expr) -> Text
    decreases e,
{
    match e {
        Expr::Var(s) => s,
        Expr::Lit(s) => s,
        Expr::Raw(s) => s,
        Expr::Binop(l, op, r) => bracketed(expr_text(*l), is_compound(*l)) + " "@ + binop_text(op)
            + " "@ + bracketed(expr_text(*r), is_compound(*r)),
        Expr::Unary(op, x) => unary_text(op) + bracketed(expr_text(*x), is_compound(*x)),
        Expr::Cast(t, x) => "("@ + t + ")"@ + bracketed(expr_text(*x), is_compound(*x)),
        Expr::Paren(x) => "("@ + expr_text(*x) + ")"@,
        Expr::Call(f, args) => bracketed(expr_text(*f), is_compound(*f) || is_prefixed(*f)) + "("@
            + join(expr_texts(args), ", "@) + ")"@,
        Expr::AddrOf(x) => "&"@ + bracketed(expr_text(*x), is_compound(*x)),
        Expr::Deref(t, x) => "*("@ + t + ")"@ + bracketed(expr_text(*x), is_compound(*x)),
        Expr::Field(x, f) => bracketed(expr_text(*x), is_compound(*x) || is_prefixed(*x)) + "."@
            + f,
        Expr::Index(x, i) => bracketed(expr_text(*x), is_compound(*x) || is_prefixed(*x)) + "["@
            + expr_text(*i) + "]"@,
        Expr::Ternary(c, a, b) => bracketed(expr_text(*c), *c is Ternary) + " ? "@ + expr_text(*a)
            + " : "@ + expr_text(*b),
        Expr::SizeofExpr(x) => "sizeof("@ + expr_text(*x) + ")"@,
        Expr::SizeofTy(t) => "sizeof("@ + t + ")"@,
        Expr::CompoundLiteral(t, elems) => "("@ + t + "){ "@ + join(expr_texts(elems), ", "@)
            + " }"@,
    }
}

/// The texts of expressions.
pub open spec fn expr_texts(list: Seq<Expr>) -> Seq<Text>
    decreases list,
{
    Seq::new(
        list.len(),
        |i: int|
            if 0 <= i < list.len() {
                expr_text(list[i])
            } else {
                arbitrary()
            },
    )
}

/// One case of a switch.
pub open spec fn case_text(c: (Expr, Text)) -> Text {
    "case "@ + expr_text(c.0) + ": goto "@ + c.1 + "; "@
}

/// The text of a statement.
pub open spec fn stmt_text(s: Stmt) -> Text
    decreases s,
{
    match s {
        Stmt::Assign(l, r) => expr_text(l) + " = "@ + expr_text(r) + ";"@,
        Stmt::Expr(e) => expr_text(e) + ";"@,
        Stmt::Raw(t) => t,
        Stmt::RetVal(e) => "return "@ + expr_text(e) + ";"@,
        Stmt::RetVoid => "return;"@,
        Stmt::Goto(label) => "goto "@ + label + ";"@,
        Stmt::CondGoto { cond, then_label, else_label } => "if ("@ + expr_text(cond) + ") goto "@
            + then_label + "; else goto "@ + else_label + ";"@,
        Stmt::Switch { expr, cases, default } => "switch ("@ + expr_text(expr) + ") { "@ + join(
            cases.map_values(|c: (Expr, Text)| case_text(c)),
            ""@,
        ) + "default: goto "@ + default + "; }"@,
        Stmt::DoWhile { body, cond } => "do { "@ + join(
            stmt_texts(body),
            " "@,
        ) + " } while ("@ + expr_text(cond) + ");"@,
        Stmt::Unreachable => "__builtin_unreachable();"@,
    }
}

/// The texts of statements.
pub open spec fn stmt_texts(list: Seq<Stmt>) -> Seq<Text>
    decreases list,
{
    Seq::new(
        list.len(),
        |i: int|
            if 0 <= i < list.len() {
                stmt_text(list[i])
            } else {
                arbitrary()
            },
    )
}

/// Each part on a line of its own, behind an indent.
pub open spec fn lines_text(parts: Seq<Text>, indent: Text) -> Text
    decreases parts.len(),
{
    if parts.len() == 0 {
        Seq::empty()
    } else {
        lines_text(parts.drop_last(), indent) + indent + parts.last() + "\n"@
    }
}

/// The text of a block: its label and its statements.
pub open spec fn block_text(b: Block) -> Text {
    b.label + ":;\n"@ + lines_text(b.stmts.map_values(|s: Stmt| stmt_text(s)), "    "@)
}

/// The text of those of the first `n` blocks that are blocks of a function, which
/// has none before `first`.
pub open spec fn blocks_text(blocks: Seq<Block>, func: Text, first: u32, n: nat) -> Text
    decreases n,
{
    if n == 0 {
        Seq::empty()
    } else {
        let before = blocks_text(blocks, func, first, (n - 1) as nat);
        if first <= n - 1 && blocks[n - 1].func == func {
            before + block_text(blocks[n - 1])
        } else {
            before
        }
    }
}

/// The type that is written for a parameter in place of its own, by the first of
/// the entries from `from` on that names it.
pub open spec fn override_of(list: Seq<(usize, Text)>, i: int, from: nat) -> Option<Text>
    decreases list.len() - from,
{
    if from >= list.len() {
        None
    } else if list[from as int].0 == i {
        Some(list[from as int].1)
    } else {
        override_of(list, i, from + 1)
    }
}

/// The declaration of a parameter.
pub open spec fn param_text(types: Seq<Kind>, f: Func, i: int) -> Text {
    let p = f.params[i];
    match override_of(f.param_type_overrides, i, 0) {
        Some(t) => t + p.1,
        None => decl_text(types, p.0.0 as nat, p.1),
    }
}

/// The declarations of the parameters.
pub open spec fn param_decls(types: Seq<Kind>, f: Func) -> Seq<Text> {
    Seq::new(f.params.len(), |i: int| param_text(types, f, i))
}

/// The definition of a function.
pub open spec fn function_text(types: Seq<Kind>, f: Func, blocks: Seq<Block>) -> Text {
    f.linkage_prefix + type_text(types, f.return_type.0 as nat) + " "@ + f.name + "("@
        + params_text(param_decls(types, f), f.is_variadic) + ") {\n"@ + lines_text(
        f.locals,
        "    "@,
    ) + blocks_text(blocks, f.name, f.first_block, blocks.len()) + "}\n"@
}

/// The declarations of the fields of a structure.
pub open spec fn field_decls(types: Seq<Kind>, fields: Seq<TypeRef>) -> Seq<Text> {
    fields.map(|i: int, t: TypeRef| decl_text(types, t.0 as nat, "f"@ + dec(i as nat)) + ";"@)
}

/// The definition of the type at `t`, where C needs one.
pub open spec fn type_def_text(types: Seq<Kind>, t: nat) -> Option<Text> {
    match types[t as int] {
        Kind::Struct { fields, packed, name: None } => Some(
            "struct "@ + (if packed {
                "__attribute__((packed)) "@
            } else {
                Seq::empty()
            }) + "_s"@ + dec(t) + " { "@ + join(field_decls(types, fields), " "@) + " };"@,
        ),
        Kind::Vector { element, len } => Some(
            "struct _vec"@ + dec(t) + " { "@ + decl_text(
                types,
                element.0 as nat,
                "v["@ + dec(len as nat) + "]"@,
            ) + "; };"@,
        ),
        _ => None,
    }
}

/// The definitions of the first `n` types.
pub open spec fn type_defs(types: Seq<Kind>, n: nat) -> Seq<Text>
    decreases n,
{
    if n == 0 {
        Seq::empty()
    } else {
        let before = type_defs(types, (n - 1) as nat);
        match type_def_text(types, (n - 1) as nat) {
            Some(d) => before.push(d),
            None => before,
        }
    }
}

/// The definitions of functions.
pub open spec fn function_texts(types: Seq<Kind>, fns: Seq<FunctionDef>, blocks: Seq<Block>) -> Seq<
    Text,
> {
    fns.map_values(|f: FunctionDef| function_text(types, f@, blocks))
}

/// Those of the first `n` lines that are marked, or those that are not.
pub open spec fn marked(lines: Seq<Text>, marks: Seq<bool>, want: bool, n: nat) -> Seq<Text>
    decreases n,
{
    if n == 0 {
        Seq::empty()
    } else {
        let before = marked(lines, marks, want, (n - 1) as nat);
        if marks[n - 1] == want {
            before.push(lines[n - 1])
        } else {
            before
        }
    }
}

/// What stands in a module before its functions: the types, the declarations of
/// functions and globals, the data, and the definitions of globals. Data may name
/// functions and globals, and definitions also data.
pub open spec fn module_lines(types: Seq<Kind>, m: Module) -> Seq<Text> {
    type_defs(types, types.len()) + m.struct_defs + m.function_decls + marked(
        m.global_decls,
        m.defined,
        false,
        m.global_decls.len(),
    ) + m.data_sections + marked(m.global_decls, m.defined, true, m.global_decls.len())
}

/// The source of a module: the finished source where there is one, else the
/// types, the declarations, the data, the definitions and the functions.
pub open spec fn module_text(types: Seq<Kind>, m: CModule) -> Text {
    match m.precompiled_source {
        Some(s) => s@,
        None => lines_text(module_lines(types, m@), Seq::empty()) + join(
            function_texts(types, m.open@, m@.blocks),
            ""@,
        ),
    }
}

// --- Writing ---

/// Writes the sign of a binary operator.
pub fn render_binop(op: CBinOp) -> (r: &'static str)
    ensures
        r@ == binop_text(op),
{
    match op {
        CBinOp::Add => "+",
        CBinOp::Sub => "-",
        CBinOp::Mul => "*",
        CBinOp::Div => "/",
        CBinOp::Rem => "%",
        CBinOp::Shl => "<<",
        CBinOp::Shr => ">>",
        CBinOp::BitAnd => "&",
        CBinOp::BitOr => "|",
        CBinOp::BitXor => "^",
        CBinOp::Eq => "==",
        CBinOp::Ne => "!=",
        CBinOp::Lt => "<",
        CBinOp::Le => "<=",
        CBinOp::Gt => ">",
        CBinOp::Ge => ">=",
        CBinOp::LogAnd => "&&",
        CBinOp::LogOr => "||",
    }
}

/// Writes the sign of a unary operator.
pub fn render_unary(op: CUnaryOp) -> (r: &'static str)
    ensures
        r@ == unary_text(op),
{
    match op {
        CUnaryOp::Neg => "-",
        CUnaryOp::BitNot => "~",
        CUnaryOp::LogNot => "!",
    }
}

/// Writes expressions with commas between them.
fn render_list(list: &Vec<CExpr>) -> (r: String)
    ensures
        r@ == join(Seq::new(list@.len(), |i: int| expr_text(list@[i]@)), ", "@),
    decreases list, 0nat,
{
    let mut parts: Vec<String> = Vec::new();
    let mut i: usize = 0;
    while i < list.len()
        invariant
            i <= list@.len(),
            parts@.len() == i,
            forall|k: int| 0 <= k < i ==> (#[trigger] parts@[k])@ == expr_text(list@[k]@),
        decreases list@.len() - i,
    {
        assert(decreases_to!(list => list@));
        assert(decreases_to!(list@ => list@[i as int]));
        parts.push(render_expr(&list[i]));
        i = i + 1;
    }
    assert(texts(parts@) =~= Seq::new(list@.len(), |i: int| expr_text(list@[i]@)));
    join_strings(&parts, ", ")
}

/// Writes an operand, in brackets where it needs them.
fn render_operand(e: &CExpr) -> (r: String)
    ensures
        r@ == bracketed(expr_text(e@), is_compound(e@)),
    decreases e, 1nat,
{
    let text = render_expr(e);
    match e {
        CExpr::Binop(..) => "(".to_owned().concat(&text).concat(")"),
        CExpr::Ternary(..) => "(".to_owned().concat(&text).concat(")"),
        _ => text,
    }
}

/// Writes what something is taken from, in brackets where it needs them.
fn render_base(e: &CExpr) -> (r: String)
    ensures
        r@ == bracketed(expr_text(e@), is_compound(e@) || is_prefixed(e@)),
    decreases e, 1nat,
{
    let text = render_expr(e);
    match e {
        CExpr::Binop(..) => "(".to_owned().concat(&text).concat(")"),
        CExpr::Ternary(..) => "(".to_owned().concat(&text).concat(")"),
        CExpr::Unary(..) => "(".to_owned().concat(&text).concat(")"),
        CExpr::Cast(..) => "(".to_owned().concat(&text).concat(")"),
        CExpr::AddrOf(..) => "(".to_owned().concat(&text).concat(")"),
        CExpr::Deref(..) => "(".to_owned().concat(&text).concat(")"),
        _ => text,
    }
}

/// Writes the condition of a choice, in brackets where it needs them.
fn render_cond(e: &CExpr) -> (r: String)
    ensures
        r@ == bracketed(expr_text(e@), e@ is Ternary),
    decreases e, 1nat,
{
    let text = render_expr(e);
    match e {
        CExpr::Ternary(..) => "(".to_owned().concat(&text).concat(")"),
        _ => text,
    }
}

/// Writes an expression.
pub fn render_expr(e: &CExpr) -> (r: String)
    ensures
        r@ == expr_text(e@),
    decreases e, 0nat,
{
    match e {
        CExpr::Var(s) => s.clone(),
        CExpr::Lit(s) => s.clone(),
        CExpr::Raw(s) => s.clone(),
        CExpr::Binop(l, op, x) => render_operand(l).concat(" ").concat(render_binop(*op)).concat(
            " ",
        ).concat(&render_operand(x)),
        CExpr::Unary(op, x) => render_unary(*op).to_owned().concat(&render_operand(x)),
        CExpr::Cast(t, x) => "(".to_owned().concat(t).concat(")").concat(&render_operand(x)),
        CExpr::Paren(x) => "(".to_owned().concat(&render_expr(x)).concat(")"),
        CExpr::Call(f, args) => {
            let list = render_list(args);
            proof {
                if let Expr::Call(_, m) = e@ {
                    assert(Seq::new(args@.len(), |i: int| expr_text(args@[i]@)) =~= expr_texts(m));
                }
            }
            render_base(f).concat("(").concat(&list).concat(")")
        },
        CExpr::AddrOf(x) => "&".to_owned().concat(&render_operand(x)),
        CExpr::Deref(t, x) => "*(".to_owned().concat(t).concat(")").concat(&render_operand(x)),
        CExpr::Field(x, f) => render_base(x).concat(".").concat(f),
        CExpr::Index(x, i) => render_base(x).concat("[").concat(&render_expr(i)).concat("]"),
        CExpr::Ternary(c, a, b) => render_cond(c).concat(" ? ").concat(&render_expr(a)).concat(
            " : ",
        ).concat(&render_expr(b)),
        CExpr::SizeofExpr(x) => "sizeof(".to_owned().concat(&render_expr(x)).concat(")"),
        CExpr::SizeofTy(t) => "sizeof(".to_owned().concat(t).concat(")"),
        CExpr::CompoundLiteral(t, elems) => {
            let list = render_list(elems);
            proof {
                if let Expr::CompoundLiteral(_, m) = e@ {
                    assert(Seq::new(elems@.len(), |i: int| expr_text(elems@[i]@)) =~= expr_texts(
                        m,
                    ));
                }
            }
            "(".to_owned().concat(t).concat("){ ").concat(&list).concat(" }")
        },
    }
}

/// Writes the cases of a switch.
fn render_cases(cases: &Vec<(CExpr, String)>) -> (r: String)
    ensures
        r@ == join(
            crate::c_ast::cases_model(cases@).map_values(|c: (Expr, Text)| case_text(c)),
            ""@,
        ),
{
    let mut parts: Vec<String> = Vec::new();
    let mut i: usize = 0;
    while i < cases.len()
        invariant
            i <= cases@.len(),
            parts@.len() == i,
            forall|k: int|
                0 <= k < i ==> (#[trigger] parts@[k])@ == case_text(
                    (cases@[k].0@, cases@[k].1@),
                ),
        decreases cases@.len() - i,
    {
        let c = "case ".to_owned().concat(&render_expr(&cases[i].0)).concat(": goto ").concat(
            &cases[i].1,
        ).concat("; ");
        parts.push(c);
        i = i + 1;
    }
    assert(texts(parts@) =~= crate::c_ast::cases_model(cases@).map_values(
        |c: (Expr, Text)| case_text(c),
    ));
    join_strings(&parts, "")
}

/// Writes statements, each as a part of its own.
fn render_stmts(list: &Vec<CStmt>) -> (r: Vec<String>)
    ensures
        texts(r@) == Seq::new(list@.len(), |i: int| stmt_text(list@[i]@)),
    decreases list,
{
    let mut parts: Vec<String> = Vec::new();
    let mut i: usize = 0;
    while i < list.len()
        invariant
            i <= list@.len(),
            parts@.len() == i,
            forall|k: int| 0 <= k < i ==> (#[trigger] parts@[k])@ == stmt_text(list@[k]@),
        decreases list@.len() - i,
    {
        assert(decreases_to!(list => list@));
        assert(decreases_to!(list@ => list@[i as int]));
        parts.push(render_stmt(&list[i]));
        i = i + 1;
    }
    assert(texts(parts@) =~= Seq::new(list@.len(), |i: int| stmt_text(list@[i]@)));
    parts
}

/// Writes a statement.
pub fn render_stmt(s: &CStmt) -> (r: String)
    ensures
        r@ == stmt_text(s@),
    decreases s,
{
    match s {
        CStmt::Assign(l, x) => render_expr(l).concat(" = ").concat(&render_expr(x)).concat(";"),
        CStmt::Expr(e) => render_expr(e).concat(";"),
        CStmt::Raw(t) => t.clone(),
        CStmt::RetVal(e) => "return ".to_owned().concat(&render_expr(e)).concat(";"),
        CStmt::RetVoid => "return;".to_owned(),
        CStmt::Goto(label) => "goto ".to_owned().concat(label).concat(";"),
        CStmt::CondGoto { cond, then_label, else_label } => "if (".to_owned().concat(
            &render_expr(cond),
        ).concat(") goto ").concat(then_label).concat("; else goto ").concat(else_label).concat(
            ";",
        ),
        CStmt::Switch { expr, cases, default } => "switch (".to_owned().concat(
            &render_expr(expr),
        ).concat(") { ").concat(&render_cases(cases)).concat("default: goto ").concat(
            default,
        ).concat("; }"),
        CStmt::DoWhile { body, cond } => {
            let parts = render_stmts(body);
            proof {
                if let Stmt::DoWhile { body: m, .. } = s@ {
                    assert(texts(parts@) =~= stmt_texts(m));
                }
            }
            "do { ".to_owned().concat(&join_strings(&parts, " ")).concat(" } while (").concat(
                &render_expr(cond),
            ).concat(");")
        },
        CStmt::Unreachable => "__builtin_unreachable();".to_owned(),
    }
}

/// Writes each part on a line of its own.
pub fn render_lines(parts: &Vec<String>, indent: &str) -> (r: String)
    ensures
        r@ == lines_text(texts(parts@), indent@),
{
    let mut r = String::new();
    let mut i: usize = 0;
    while i < parts.len()
        invariant
            i <= parts@.len(),
            r@ == lines_text(texts(parts@).take(i as int), indent@),
        decreases parts@.len() - i,
    {
        proof {
            let next = texts(parts@).take(i + 1);
            assert(next.drop_last() =~= texts(parts@).take(i as int));
            assert(next.last() == parts@[i as int]@);
        }
        r = r.concat(indent).concat(&parts[i]).concat("\n");
        i = i + 1;
    }
    assert(texts(parts@).take(i as int) =~= texts(parts@));
    r
}

proof fn lines_text_add(a: Seq<Text>, b: Seq<Text>, indent: Text)
    ensures
        lines_text(a + b, indent) == lines_text(a, indent) + lines_text(b, indent),
    decreases b.len(),
{
    if b.len() == 0 {
        assert(a + b =~= a);
        assert(lines_text(a, indent) + Seq::empty() =~= lines_text(a, indent));
    } else {
        lines_text_add(a, b.drop_last(), indent);
        assert((a + b).drop_last() =~= a + b.drop_last());
        let (x, y) = (lines_text(a, indent), lines_text(b.drop_last(), indent));
        assert(x + y + indent + b.last() + "\n"@ =~= x + (y + indent + b.last() + "\n"@));
    }
}

/// Writes the lines that are marked, or those that are not.
fn render_marked(lines: &Vec<String>, marks: &Vec<bool>, want: bool) -> (r: String)
    requires
        lines@.len() == marks@.len(),
    ensures
        r@ == lines_text(marked(texts(lines@), marks@, want, lines@.len()), Seq::empty()),
{
    let mut parts: Vec<String> = Vec::new();
    let mut i: usize = 0;
    assert(texts(parts@) =~= Seq::empty());
    while i < lines.len()
        invariant
            i <= lines@.len() == marks@.len(),
            texts(parts@) == marked(texts(lines@), marks@, want, i as nat),
        decreases lines@.len() - i,
    {
        if marks[i] == want {
            let ghost before = texts(parts@);
            parts.push(lines[i].clone());
            assert(texts(parts@) =~= before.push(texts(lines@)[i as int]));
        }
        i = i + 1;
    }
    proof {
        reveal_strlit("");
        assert(""@ =~= Seq::empty());
    }
    render_lines(&parts, "")
}

/// Writes a block.
fn render_block(b: &CBlock) -> (r: String)
    ensures
        r@ == block_text(b@),
{
    let parts = render_stmts(&b.stmts);
    assert(texts(parts@) =~= b@.stmts.map_values(|s: Stmt| stmt_text(s)));
    b.label.clone().concat(":;\n").concat(&render_lines(&parts, "    "))
}

/// Writes the type of a parameter that is written in place of its own.
fn find_override(list: &Vec<(usize, String)>, i: usize) -> (r: Option<String>)
    ensures
        crate::types::opt_text(r) == override_of(
            crate::module::overrides_model(list@),
            i as int,
            0,
        ),
{
    let ghost m = crate::module::overrides_model(list@);
    let mut k: usize = 0;
    while k < list.len()
        invariant
            k <= list@.len(),
            m == crate::module::overrides_model(list@),
            override_of(m, i as int, 0) == override_of(m, i as int, k as nat),
        decreases list@.len() - k,
    {
        if list[k].0 == i {
            return Some(list[k].1.clone());
        }
        k = k + 1;
    }
    None
}

impl TypeStore {
    /// Writes the declarations of the parameters of a function.
    fn render_param_decls(&self, f: &FunctionDef) -> (r: Vec<String>)
        requires
            self.wf(),
            func_types_ok(f@, self@.len() as int),
        ensures
            texts(r@) == param_decls(self@, f@),
    {
        let mut parts: Vec<String> = Vec::new();
        let mut i: usize = 0;
        while i < f.params.len()
            invariant
                self.wf(),
                func_types_ok(f@, self@.len() as int),
                i <= f.params@.len(),
                parts@.len() == i,
                forall|k: int| 0 <= k < i ==> (#[trigger] parts@[k])@ == param_text(self@, f@, k),
            decreases f.params@.len() - i,
        {
            assert(f@.params[i as int] == (f.params@[i as int].0, f.params@[i as int].1@));
            let part = match find_override(&f.param_type_overrides, i) {
                Some(t) => t.concat(&f.params[i].1),
                None => self.render_decl(f.params[i].0, &f.params[i].1),
            };
            parts.push(part);
            i = i + 1;
        }
        assert(texts(parts@) =~= param_decls(self@, f@));
        parts
    }

    /// Writes the definition of a function.
    pub fn render_function(&self, f: &FunctionDef, blocks: &Vec<CBlock>) -> (r: String)
        requires
            self.wf(),
            func_types_ok(f@, self@.len() as int),
        ensures
            r@ == function_text(self@, f@, blocks@.map_values(|b: CBlock| b@)),
    {
        let ghost model = blocks@.map_values(|b: CBlock| b@);
        let mut body = String::new();
        let mut i: usize = 0;
        while i < blocks.len()
            invariant
                i <= blocks@.len(),
                model == blocks@.map_values(|b: CBlock| b@),
                body@ == blocks_text(model, f.name@, f.first_block, i as nat),
            decreases blocks@.len() - i,
        {
            assert(model[i as int] == blocks@[i as int]@);
            if f.first_block as usize <= i && same_text(&blocks[i].func, &f.name) {
                body = body.concat(&render_block(&blocks[i]));
            }
            i = i + 1;
        }
        let params = render_params(&self.render_param_decls(f), f.is_variadic);
        f.linkage_prefix.clone().concat(&self.render(f.return_type)).concat(" ").concat(
            &f.name,
        ).concat("(").concat(&params).concat(") {\n").concat(
            &render_lines(&f.locals, "    "),
        ).concat(&body).concat("}\n")
    }

    /// Writes the declarations of the fields of a structure.
    fn render_field_decls(&self, fields: &Vec<TypeRef>) -> (r: Vec<String>)
        requires
            self.wf(),
            crate::types::refs_below(fields@, self@.len() as int),
        ensures
            texts(r@) == field_decls(self@, fields@),
    {
        let mut parts: Vec<String> = Vec::new();
        let mut i: usize = 0;
        while i < fields.len()
            invariant
                self.wf(),
                crate::types::refs_below(fields@, self@.len() as int),
                i <= fields@.len(),
                parts@.len() == i,
                forall|k: int|
                    0 <= k < i ==> (#[trigger] parts@[k])@ == decl_text(
                        self@,
                        fields@[k].0 as nat,
                        "f"@ + dec(k as nat),
                    ) + ";"@,
            decreases fields@.len() - i,
        {
            let name = "f".to_owned().concat(&dec_usize(i));
            parts.push(self.render_decl(fields[i], &name).concat(";"));
            i = i + 1;
        }
        assert(texts(parts@) =~= field_decls(self@, fields@));
        parts
    }

    /// Writes the definition of a type, where C needs one.
    pub fn render_type_def(&self, t: TypeRef) -> (r: Option<String>)
        requires
            self.wf(),
            t.0 < self@.len(),
        ensures
            crate::types::opt_text(r) == type_def_text(self@, t.0 as nat),
    {
        assert(crate::types::kind_ok(self@[t.0 as int], t.0 as int));
        match self.get(t) {
            CTypeKind::Struct { fields, packed, name: None } => {
                let head = if *packed { "__attribute__((packed)) " } else { "" };
                proof {
                    reveal_strlit("");
                    assert(""@ =~= Seq::empty());
                }
                Some(
                    "struct ".to_owned().concat(head).concat("_s").concat(
                        &dec_usize(t.0),
                    ).concat(" { ").concat(
                        &join_strings(&self.render_field_decls(fields), " "),
                    ).concat(" };"),
                )
            },
            CTypeKind::Vector { element, len } => {
                let name = "v[".to_owned().concat(&dec_u64(*len)).concat("]");
                Some(
                    "struct _vec".to_owned().concat(&dec_usize(t.0)).concat(" { ").concat(
                        &self.render_decl(*element, &name),
                    ).concat("; };"),
                )
            },
            _ => None,
        }
    }

    /// Writes the definitions of the types.
    pub fn render_type_defs(&self) -> (r: Vec<String>)
        requires
            self.wf(),
        ensures
            texts(r@) == type_defs(self@, self@.len()),
    {
        let mut parts: Vec<String> = Vec::new();
        let mut i: usize = 0;
        assert(texts(parts@) =~= Seq::empty());
        while i < self.kinds.len()
            invariant
                self.wf(),
                i <= self.kinds@.len() == self@.len(),
                texts(parts@) == type_defs(self@, i as nat),
            decreases self.kinds@.len() - i,
        {
            if let Some(d) = self.render_type_def(TypeRef(i)) {
                let ghost before = texts(parts@);
                let ghost text = d@;
                parts.push(d);
                assert(texts(parts@) =~= before.push(text));
            }
            i = i + 1;
        }
        parts
    }
}

impl CodegenCx {
    /// Writes the source of the module.
    pub fn to_c_source(&self) -> (r: String)
        requires
            self.wf(),
        ensures
            r@ == module_text(self@.types, self.module),
    {
        proof {
            self.types_are_wf();
            self.globals_are_marked();
            reveal_strlit("");
            assert(""@ =~= Seq::empty());
        }
        match &self.module.precompiled_source {
            Some(s) => s.clone(),
            None => {
                let mut parts: Vec<String> = Vec::new();
                let mut i: usize = 0;
                while i < self.module.open.len()
                    invariant
                        self.wf(),
                        i <= self.module.open@.len(),
                        parts@.len() == i,
                        forall|k: int|
                            0 <= k < i ==> (#[trigger] parts@[k])@ == function_text(
                                self@.types,
                                self.module.open@[k]@,
                                self@.module.blocks,
                            ),
                    decreases self.module.open@.len() - i,
                {
                    proof {
                        self.types_are_wf();
                        self.open_types_ok(i as int);
                    }
                    parts.push(
                        self.types.render_function(&self.module.open[i], &self.module.blocks),
                    );
                    i = i + 1;
                }
                assert(texts(parts@) =~= function_texts(
                    self@.types,
                    self.module.open@,
                    self@.module.blocks,
                ));
                let globals = &self.module.global_decls;
                let defined = &self.module.defined;
                proof {
                    let m = self@.module;
                    let t = type_defs(self@.types, self@.types.len());
                    let decls = marked(m.global_decls, m.defined, false, m.global_decls.len());
                    let defs = marked(m.global_decls, m.defined, true, m.global_decls.len());
                    let none = Seq::<char>::empty();
                    lines_text_add(t, m.struct_defs, none);
                    lines_text_add(t + m.struct_defs, m.function_decls, none);
                    lines_text_add(t + m.struct_defs + m.function_decls, decls, none);
                    lines_text_add(
                        t + m.struct_defs + m.function_decls + decls,
                        m.data_sections,
                        none,
                    );
                    lines_text_add(
                        t + m.struct_defs + m.function_decls + decls + m.data_sections,
                        defs,
                        none,
                    );
                }
                render_lines(&self.types.render_type_defs(), "").concat(
                    &render_lines(&self.module.struct_defs, ""),
                ).concat(&render_lines(&self.module.function_decls, "")).concat(
                    &render_marked(globals, defined, false),
                ).concat(&render_lines(&self.module.data_sections, "")).concat(
                    &render_marked(globals, defined, true),
                ).concat(&join_strings(&parts, ""))
            },
        }
    }
}

// --- Laws ---

proof fn no_block_is_written(blocks: Seq<Block>, func: Text, first: u32, n: nat)
    requires
        n <= first,
    ensures
        blocks_text(blocks, func, first, n) == Seq::<char>::empty(),
    decreases n,
{
    if n > 0 {
        no_block_is_written(blocks, func, first, (n - 1) as nat);
    }
}

/// A function that is opened has no block, whatever was open under its name: no
/// block is written for it, and one that was there before is labelled by its
/// number alone. The blocks of other functions stay what they were.
pub proof fn opened_functions_have_no_blocks(m: Module, f: Func, bb: BasicBlockId, other: Text)
    requires
        m.blocks.len() <= u32::MAX,
        other != f.name,
    ensures
        ({
            let after = m.opened(f);
            let g = after.open[f.name];
            &&& blocks_text(after.blocks, g.name, g.first_block, after.blocks.len())
                == Seq::<char>::empty()
            &&& !after.has_block(f.name, bb)
            &&& after.label(f.name, bb) == "bb"@ + dec(bb.0 as nat)
            &&& after.has_block(other, bb) == m.has_block(other, bb)
            &&& after.label(other, bb) == m.label(other, bb)
        }),
{
    no_block_is_written(m.blocks, f.name, m.blocks.len() as u32, m.blocks.len());
}

} // verus!
