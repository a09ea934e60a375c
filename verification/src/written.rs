//! How C code is written: operators and operands, statements, blocks and functions.
use vstd::prelude::*;

use crate::c_ast::{CBinOp, CUnaryOp, Expr, Stmt};
use crate::meaning::sign_of;
use crate::module::{Block, CModule, Func};
use crate::render::{
    block_text, blocks_text, expr_text, expr_texts, function_text, lines_text, module_text,
    override_of, param_text, stmt_text, stmt_texts, type_def_text, type_defs,
};
use crate::text::{dec, join, Text};
use crate::types::{decl_text, params_text, type_text, Kind};

verus! {

// --- Expressions ---

/// An operand of an operator: one that holds an operator of its own stands in brackets.
pub open spec fn operand(e: Expr) -> Text {
    if e is Binop || e is Ternary {
        "("@ + expr_text(e) + ")"@
    } else {
        expr_text(e)
    }
}

/// What a call, a field or an element is taken of: whatever binds less tightly stands
/// in brackets.
pub open spec fn primary(e: Expr) -> Text {
    if e is Binop || e is Ternary || e is Unary || e is Cast || e is AddrOf || e is Deref {
        "("@ + expr_text(e) + ")"@
    } else {
        expr_text(e)
    }
}

proof fn spaces_are_around(op: CBinOp, l: Text, r: Text)
    ensures
        l + " "@ + crate::render::binop_text(op) + " "@ + r == l + sign_of(op) + r,
{
    reveal_strlit(" ");
    reveal_strlit("+");
    reveal_strlit(" + ");
    reveal_strlit("-");
    reveal_strlit(" - ");
    reveal_strlit("*");
    reveal_strlit(" * ");
    reveal_strlit("/");
    reveal_strlit(" / ");
    reveal_strlit("%");
    reveal_strlit(" % ");
    reveal_strlit("<<");
    reveal_strlit(" << ");
    reveal_strlit(">>");
    reveal_strlit(" >> ");
    reveal_strlit("&");
    reveal_strlit(" & ");
    reveal_strlit("|");
    reveal_strlit(" | ");
    reveal_strlit("^");
    reveal_strlit(" ^ ");
    reveal_strlit("==");
    reveal_strlit(" == ");
    reveal_strlit("!=");
    reveal_strlit(" != ");
    reveal_strlit("<");
    reveal_strlit(" < ");
    reveal_strlit("<=");
    reveal_strlit(" <= ");
    reveal_strlit(">");
    reveal_strlit(" > ");
    reveal_strlit(">=");
    reveal_strlit(" >= ");
    reveal_strlit("&&");
    reveal_strlit(" && ");
    reveal_strlit("||");
    reveal_strlit(" || ");
    assert(" "@ + crate::render::binop_text(op) + " "@ =~= sign_of(op));
    let sign = crate::render::binop_text(op);
    assert(l + " "@ + sign + " "@ + r =~= l + (" "@ + sign + " "@) + r);
}

/// An operator stands between its operands, the left one first.
pub proof fn operators_stand_between_operands(l: Expr, op: CBinOp, r: Expr)
    ensures
        expr_text(Expr::binop(l, op, r)) == operand(l) + sign_of(op) + operand(r),
{
    spaces_are_around(op, operand(l), operand(r));
}

/// A prefix stands before its operand.
pub proof fn prefixes_stand_first(x: Expr, t: Text)
    ensures
        expr_text(Expr::unary(CUnaryOp::Neg, x)) == "-"@ + operand(x),
        expr_text(Expr::unary(CUnaryOp::BitNot, x)) == "~"@ + operand(x),
        expr_text(Expr::unary(CUnaryOp::LogNot, x)) == "!"@ + operand(x),
        expr_text(Expr::cast(t, x)) == "("@ + t + ")"@ + operand(x),
        expr_text(Expr::addr_of(x)) == "&"@ + operand(x),
        expr_text(Expr::deref(t, x)) == "*"@ + ("("@ + t + ")"@ + operand(x)),
        expr_text(Expr::paren(x)) == "("@ + expr_text(x) + ")"@,
        expr_text(Expr::sizeof_expr(x)) == "sizeof"@ + ("("@ + expr_text(x) + ")"@),
        expr_text(Expr::SizeofTy(t)) == "sizeof"@ + ("("@ + t + ")"@),
        expr_text(Expr::Var(t)) == t,
        expr_text(Expr::Lit(t)) == t,
        expr_text(Expr::Raw(t)) == t,
{
    reveal_strlit("*(");
    reveal_strlit("*");
    reveal_strlit("(");
    reveal_strlit("sizeof(");
    reveal_strlit("sizeof");
    assert("*("@ =~= "*"@ + "("@);
    assert("sizeof("@ =~= "sizeof"@ + "("@);
    let o = operand(x);
    assert("*"@ + "("@ + t + ")"@ + o =~= "*"@ + ("("@ + t + ")"@ + o));
    assert("sizeof"@ + "("@ + expr_text(x) + ")"@ =~= "sizeof"@ + ("("@ + expr_text(x) + ")"@));
    assert("sizeof"@ + "("@ + t + ")"@ =~= "sizeof"@ + ("("@ + t + ")"@));
}

/// A field, an element and a choice.
pub proof fn parts_stand_behind(x: Expr, f: Text, i: Expr, c: Expr, y: Expr)
    ensures
        expr_text(Expr::field(x, f)) == primary(x) + "."@ + f,
        expr_text(Expr::index(x, i)) == primary(x) + "["@ + expr_text(i) + "]"@,
        expr_text(Expr::ternary(c, x, y)) == (if c is Ternary {
            "("@ + expr_text(c) + ")"@
        } else {
            expr_text(c)
        }) + " ? "@ + expr_text(x) + " : "@ + expr_text(y),
{
}

/// A list of expressions is written in order.
pub proof fn lists_of_expressions_are_written_in_order(list: Seq<Expr>, i: int)
    requires
        0 <= i < list.len(),
    ensures
        expr_texts(list).len() == list.len(),
        expr_texts(list)[i] == expr_text(list[i]),
{
}

/// The arguments of a call, and the elements of a literal, stand in brackets in order
/// with commas between them.
pub proof fn arguments_stand_in_brackets(f: Expr, t: Text, args: Seq<Expr>)
    ensures
        expr_text(Expr::Call(Box::new(f), args)) == primary(f) + "("@ + join(
            expr_texts(args),
            ", "@,
        ) + ")"@,
        expr_text(Expr::CompoundLiteral(t, args)) == "("@ + t + ")"@ + ("{ "@ + join(
            expr_texts(args),
            ", "@,
        ) + " }"@),
        args.len() == 0 ==> expr_text(Expr::Call(Box::new(f), args)) == primary(f) + "()"@,
        args.len() == 1 ==> expr_text(Expr::Call(Box::new(f), args)) == primary(f) + "("@
            + expr_text(args[0]) + ")"@,
        args.len() == 2 ==> expr_text(Expr::Call(Box::new(f), args)) == primary(f) + "("@ + (
        expr_text(args[0]) + ", "@ + expr_text(args[1])) + ")"@,
{
    reveal_strlit("){ ");
    reveal_strlit(")");
    reveal_strlit("{ ");
    reveal_strlit("()");
    reveal_strlit("(");
    assert("){ "@ =~= ")"@ + "{ "@);
    let all = join(expr_texts(args), ", "@);
    let head = "("@ + t;
    assert(head + (")"@ + "{ "@) + all + " }"@ =~= head + ")"@ + ("{ "@ + all + " }"@));
    reveal_with_fuel(join, 3);
    let texts = expr_texts(args);
    if args.len() == 0 {
        assert(all =~= Seq::<char>::empty());
        assert(primary(f) + "("@ + all + ")"@ =~= primary(f) + "()"@);
    } else if args.len() == 1 {
        assert(all =~= expr_text(args[0]));
    } else if args.len() == 2 {
        assert(texts.drop_last() =~= seq![expr_text(args[0])]);
        assert(all =~= expr_text(args[0]) + ", "@ + expr_text(args[1]));
    }
}

// --- Statements ---

/// What a statement looks like.
pub proof fn statements_are_written(
    l: Expr,
    r: Expr,
    t: Text,
    u: Text,
    cases: Seq<(Expr, Text)>,
    body: Seq<Stmt>,
)
    ensures
        stmt_text(Stmt::Assign(l, r)) == expr_text(l) + " = "@ + expr_text(r) + ";"@,
        stmt_text(Stmt::Expr(r)) == expr_text(r) + ";"@,
        stmt_text(Stmt::Raw(t)) == t,
        stmt_text(Stmt::RetVal(r)) == "return "@ + expr_text(r) + ";"@,
        stmt_text(Stmt::RetVoid) == "return;"@,
        stmt_text(Stmt::Goto(t)) == "goto "@ + t + ";"@,
        stmt_text(Stmt::Unreachable) == "__builtin_unreachable();"@,
        stmt_text(Stmt::CondGoto { cond: r, then_label: t, else_label: u }) == "if ("@ + expr_text(
            r,
        ) + ") "@ + stmt_text(Stmt::Goto(t)) + " else "@ + stmt_text(Stmt::Goto(u)),
        stmt_text(Stmt::DoWhile { body, cond: r }) == "do { "@ + join(stmt_texts(body), " "@)
            + " } while ("@ + expr_text(r) + ");"@,
        body.len() == 1 ==> stmt_text(Stmt::DoWhile { body, cond: r }) == "do { "@ + stmt_text(
            body[0],
        ) + " } while ("@ + expr_text(r) + ");"@,
{
    branches_are_grouped(expr_text(r), t, u);
    reveal_with_fuel(join, 2);
    if body.len() == 1 {
        assert(join(stmt_texts(body), " "@) =~= stmt_text(body[0]));
    }
}

proof fn branches_are_grouped(c: Text, t: Text, u: Text)
    ensures
        "if ("@ + c + ") goto "@ + t + "; else goto "@ + u + ";"@ == "if ("@ + c + ") "@ + ("goto "@
            + t + ";"@) + " else "@ + ("goto "@ + u + ";"@),
{
    reveal_strlit(") goto ");
    reveal_strlit(") ");
    reveal_strlit("goto ");
    reveal_strlit("; else goto ");
    reveal_strlit(";");
    reveal_strlit(" else ");
    assert(") goto "@ =~= ") "@ + "goto "@);
    assert("; else goto "@ =~= ";"@ + " else "@ + "goto "@);
    let a = "if ("@ + c;
    assert(a + (") "@ + "goto "@) + t + (";"@ + " else "@ + "goto "@) + u + ";"@ =~= a + ") "@ + (
    "goto "@ + t + ";"@) + " else "@ + ("goto "@ + u + ";"@));
}

/// A switch names every case with the label that it goes to, in order, and what it
/// goes to otherwise at the end.
pub proof fn switches_are_written(e: Expr, cases: Seq<(Expr, Text)>, default: Text)
    ensures
        ({
            let arms = cases.map_values(
                |c: (Expr, Text)| "case "@ + expr_text(c.0) + ": "@ + ("goto "@ + c.1 + "; "@),
            );
            stmt_text(Stmt::Switch { expr: e, cases, default }) == "switch ("@ + expr_text(e)
                + ") { "@ + join(arms, ""@) + "default: goto "@ + default + "; }"@
        }),
{
    let arms = cases.map_values(
        |c: (Expr, Text)| "case "@ + expr_text(c.0) + ": "@ + ("goto "@ + c.1 + "; "@),
    );
    let texts = cases.map_values(|c: (Expr, Text)| crate::render::case_text(c));
    assert forall|i: int| 0 <= i < cases.len() implies texts[i] == arms[i] by {
        let (x, l) = (expr_text(cases[i].0), cases[i].1);
        reveal_strlit(": goto ");
        reveal_strlit(": ");
        reveal_strlit("goto ");
        assert(": goto "@ =~= ": "@ + "goto "@);
        assert("case "@ + x + (": "@ + "goto "@) + l + "; "@ =~= "case "@ + x + ": "@ + ("goto "@
            + l + "; "@));
    }
    assert(texts =~= arms);
}

// --- Lines, blocks and functions ---

/// Lines stand in order, each behind the indentation and with a line break at its end.
pub proof fn lines_stand_in_order(a: Seq<Text>, b: Seq<Text>, line: Text, indent: Text)
    ensures
        lines_text(a + b, indent) == lines_text(a, indent) + lines_text(b, indent),
        lines_text(seq![line], indent) == indent + line + "\n"@,
        lines_text(Seq::empty(), indent).len() == 0,
    decreases b.len(),
{
    assert(lines_text(Seq::empty(), indent) =~= Seq::empty());
    assert(seq![line].drop_last() =~= Seq::empty());
    assert(Seq::<char>::empty() + indent =~= indent);
    assert(lines_text(seq![line], indent) == indent + line + "\n"@);
    if b.len() == 0 {
        assert(a + b =~= a);
        assert(lines_text(a, indent) + lines_text(b, indent) =~= lines_text(a, indent));
    } else {
        lines_stand_in_order(a, b.drop_last(), line, indent);
        assert((a + b).drop_last() =~= a + b.drop_last());
        let (x, y) = (lines_text(a, indent), lines_text(b.drop_last(), indent));
        assert(x + y + indent + b.last() + "\n"@ =~= x + (y + indent + b.last() + "\n"@));
    }
}

/// A block is its label, as a statement of its own, and its statements below it.
pub proof fn blocks_start_with_their_label(b: Block, s: Stmt)
    ensures
        b.stmts.len() == 0 ==> block_text(b) == b.label + ":;\n"@,
        block_text(Block { stmts: b.stmts.push(s), ..b }) == block_text(b) + ("    "@ + stmt_text(s)
            + "\n"@),
{
    let texts = b.stmts.map_values(|s: Stmt| stmt_text(s));
    let more = b.stmts.push(s).map_values(|s: Stmt| stmt_text(s));
    lines_stand_in_order(texts, seq![stmt_text(s)], stmt_text(s), "    "@);
    assert(more =~= texts + seq![stmt_text(s)]);
    let head = b.label + ":;\n"@;
    let (x, y) = (lines_text(texts, "    "@), "    "@ + stmt_text(s) + "\n"@);
    assert(head + (x + y) =~= head + x + y);
    if b.stmts.len() == 0 {
        assert(head + lines_text(texts, "    "@) =~= head);
    }
}

/// A function holds its own blocks, in order, and no block of another.
pub proof fn functions_hold_their_blocks(blocks: Seq<Block>, b: Block, func: Text, first: u32)
    ensures
        blocks_text(blocks.push(b), func, first, blocks.len() + 1) == if b.func == func && first
            <= blocks.len() {
            blocks_text(blocks, func, first, blocks.len()) + block_text(b)
        } else {
            blocks_text(blocks, func, first, blocks.len())
        },
        blocks_text(blocks, func, first, 0).len() == 0,
{
    earlier_blocks_stay(blocks, b, func, first, blocks.len());
}

proof fn earlier_blocks_stay(blocks: Seq<Block>, b: Block, func: Text, first: u32, n: nat)
    requires
        n <= blocks.len(),
    ensures
        blocks_text(blocks.push(b), func, first, n) == blocks_text(blocks, func, first, n),
    decreases n,
{
    if n > 0 {
        earlier_blocks_stay(blocks, b, func, first, (n - 1) as nat);
    }
}

/// A function is written with its linkage, its type, its name and its parameters; its
/// locals stand before its blocks.
pub proof fn functions_are_written(types: Seq<Kind>, f: Func, blocks: Seq<Block>)
    ensures
        ({
            let head = f.linkage_prefix + type_text(types, f.return_type.0 as nat) + " "@ + f.name
                + "("@ + params_text(crate::render::param_decls(types, f), f.is_variadic)
                + ") {\n"@;
            let locals = lines_text(f.locals, "    "@);
            let body = blocks_text(blocks, f.name, f.first_block, blocks.len());
            function_text(types, f, blocks) == head + locals + body + "}\n"@
        }),
        forall|i: int|
            0 <= i < f.params.len() ==> #[trigger] crate::render::param_decls(types, f)[i]
                == param_text(types, f, i),
        crate::render::param_decls(types, f).len() == f.params.len(),
{
}

/// A parameter is declared with its own type and name; a text that was given for its
/// type stands instead of the type.
pub proof fn parameters_are_declared(types: Seq<Kind>, f: Func, i: int, j: int)
    requires
        0 <= i < f.params.len(),
    ensures
        (forall|k: int|
            0 <= k < f.param_type_overrides.len() ==> (
            #[trigger] f.param_type_overrides[k]).0 != i) ==> param_text(types, f, i) == decl_text(
            types,
            f.params[i].0.0 as nat,
            f.params[i].1,
        ),
        0 <= j < f.param_type_overrides.len() && f.param_type_overrides[j].0 == i && (forall|k: int|
            0 <= k < j ==> (#[trigger] f.param_type_overrides[k]).0 != i) ==> param_text(
            types,
            f,
            i,
        ) == f.param_type_overrides[j].1 + f.params[i].1,
{
    if forall|k: int|
        0 <= k < f.param_type_overrides.len() ==> (#[trigger] f.param_type_overrides[k]).0 != i {
        nothing_is_found(f.param_type_overrides, i, 0);
    }
    if 0 <= j < f.param_type_overrides.len() && f.param_type_overrides[j].0 == i && (forall|k: int|
        0 <= k < j ==> (#[trigger] f.param_type_overrides[k]).0 != i) {
        first_is_found(f.param_type_overrides, i, j, 0);
    }
}

proof fn nothing_is_found(list: Seq<(usize, Text)>, i: int, from: nat)
    requires
        forall|k: int| 0 <= k < list.len() ==> (#[trigger] list[k]).0 != i,
    ensures
        override_of(list, i, from) is None,
    decreases list.len() - from,
{
    if from < list.len() {
        nothing_is_found(list, i, from + 1);
    }
}

proof fn first_is_found(list: Seq<(usize, Text)>, i: int, j: int, from: nat)
    requires
        from <= j < list.len(),
        list[j].0 == i,
        forall|k: int| 0 <= k < j ==> (#[trigger] list[k]).0 != i,
    ensures
        override_of(list, i, from) == Some(list[j].1),
    decreases list.len() - from,
{
    if from < j {
        first_is_found(list, i, j, from + 1);
    }
}

// --- Definitions of types ---

/// A structure without a name is defined under its number with a field for each of its
/// types, and a vector with an array of its elements; other types need no definition.
pub proof fn structures_are_defined(types: Seq<Kind>, t: nat, i: int)
    requires
        t < types.len(),
    ensures
        match types[t as int] {
            Kind::Struct { fields, packed, name: None } => {
                let decls = crate::render::field_decls(types, fields);
                &&& type_def_text(types, t) == Some(
                    "struct "@ + (if packed {
                        "__attribute__((packed)) "@
                    } else {
                        Seq::empty()
                    }) + "_s"@ + dec(t) + " { "@ + join(decls, " "@) + " };"@,
                )
                &&& decls.len() == fields.len()
                &&& 0 <= i < fields.len() ==> decls[i] == decl_text(
                    types,
                    fields[i].0 as nat,
                    "f"@ + dec(i as nat),
                ) + ";"@
                &&& type_text(types, t) == "struct _s"@ + dec(t)
            },
            Kind::Vector { element, len } => {
                &&& type_def_text(types, t) == Some(
                    "struct _vec"@ + dec(t) + " { "@ + decl_text(
                        types,
                        element.0 as nat,
                        "v["@ + dec(len as nat) + "]"@,
                    ) + "; };"@,
                )
                &&& type_text(types, t) == "struct _vec"@ + dec(t)
            },
            _ => type_def_text(types, t) is None,
        },
{
}

/// The definitions of types stand in order of their numbers, and every type that needs
/// one has one.
pub proof fn types_are_defined_in_order(types: Seq<Kind>, n: nat)
    requires
        n < types.len(),
    ensures
        type_defs(types, 0).len() == 0,
        match type_def_text(types, n) {
            Some(d) => type_defs(types, n + 1) == type_defs(types, n) + seq![d],
            None => type_defs(types, n + 1) == type_defs(types, n),
        },
{
    if let Some(d) = type_def_text(types, n) {
        assert(type_defs(types, n).push(d) =~= type_defs(types, n) + seq![d]);
    }
}

/// The source of a module is its declarations, a line each, and its functions after
/// them; a module that has a source already is that source.
pub proof fn modules_are_written(types: Seq<Kind>, m: CModule)
    ensures
        match m.precompiled_source {
            Some(s) => module_text(types, m) == s@,
            None => module_text(types, m) == lines_text(
                crate::render::module_lines(types, m@),
                ""@,
            ) + join(
                Seq::new(m.open@.len(), |i: int| function_text(types, m.open@[i]@, m@.blocks)),
                ""@,
            ),
        },
{
    reveal_strlit("");
    assert(""@ =~= Seq::<char>::empty());
    assert(crate::render::function_texts(types, m.open@, m@.blocks) =~= Seq::new(
        m.open@.len(),
        |i: int| function_text(types, m.open@[i]@, m@.blocks),
    ));
}

} // verus!
