//! The C syntax that the builder emits: expressions and statements, each with
//! the mathematical tree that contracts speak of.
use vstd::prelude::*;

use crate::text::Text;

verus! {

/// The binary operators of C that are emitted.
#[derive(Clone, Copy, PartialEq, Eq, Structural, Debug)]
pub enum CBinOp {
    Add,
    Sub,
    Mul,
    Div,
    Rem,
    Shl,
    Shr,
    BitAnd,
    BitOr,
    BitXor,
    Eq,
    Ne,
    Lt,
    Le,
    Gt,
    Ge,
    LogAnd,
    LogOr,
}

/// The unary operators of C that are emitted.
#[derive(Clone, Copy, PartialEq, Eq, Structural, Debug)]
pub enum CUnaryOp {
    Neg,
    BitNot,
    LogNot,
}

/// A C expression.
pub enum CExpr {
    /// A name, or the text of a value that is already an expression.
    Var(String),
    /// A literal.
    Lit(String),
    /// Text that is passed through as it is.
    Raw(String),
    Binop(Box<CExpr>, CBinOp, Box<CExpr>),
    Unary(CUnaryOp, Box<CExpr>),
    /// `(type)expr`
    Cast(String, Box<CExpr>),
    Paren(Box<CExpr>),
    Call(Box<CExpr>, Vec<CExpr>),
    /// `&expr`
    AddrOf(Box<CExpr>),
    /// `*(pointer type)expr`
    Deref(String, Box<CExpr>),
    /// `expr.field`
    Field(Box<CExpr>, String),
    /// `expr[index]`
    Index(Box<CExpr>, Box<CExpr>),
    /// `cond ? a : b`
    Ternary(Box<CExpr>, Box<CExpr>, Box<CExpr>),
    SizeofExpr(Box<CExpr>),
    SizeofTy(String),
    /// `(type){ elements }`
    CompoundLiteral(String, Vec<CExpr>),
}

/// A C statement.
pub enum CStmt {
    Assign(CExpr, CExpr),
    Expr(CExpr),
    /// Text that is passed through as it is.
    Raw(String),
    RetVal(CExpr),
    RetVoid,
    Goto(String),
    CondGoto { cond: CExpr, then_label: String, else_label: String },
    Switch { expr: CExpr, cases: Vec<(CExpr, String)>, default: String },
    DoWhile { body: Vec<CStmt>, cond: CExpr },
    Unreachable,
}

/// The tree of a C expression.
pub enum Expr {
    Var(Text),
    Lit(Text),
    Raw(Text),
    Binop(Box<Expr>, CBinOp, Box<Expr>),
    Unary(CUnaryOp, Box<Expr>),
    Cast(Text, Box<Expr>),
    Paren(Box<Expr>),
    Call(Box<Expr>, Seq<Expr>),
    AddrOf(Box<Expr>),
    Deref(Text, Box<Expr>),
    Field(Box<Expr>, Text),
    Index(Box<Expr>, Box<Expr>),
    Ternary(Box<Expr>, Box<Expr>, Box<Expr>),
    SizeofExpr(Box<Expr>),
    SizeofTy(Text),
    CompoundLiteral(Text, Seq<Expr>),
}

/// The tree of a C statement.
pub enum Stmt {
    Assign(Expr, Expr),
    Expr(Expr),
    Raw(Text),
    RetVal(Expr),
    RetVoid,
    Goto(Text),
    CondGoto { cond: Expr, then_label: Text, else_label: Text },
    Switch { expr: Expr, cases: Seq<(Expr, Text)>, default: Text },
    DoWhile { body: Seq<Stmt>, cond: Expr },
    Unreachable,
}

/// Builders of expression trees, named as their executable counterparts.
impl Expr {
    pub open spec fn binop(l: Expr, op: CBinOp, r: Expr) -> Expr {
        Expr::Binop(Box::new(l), op, Box::new(r))
    }

    pub open spec fn unary(op: CUnaryOp, e: Expr) -> Expr {
        Expr::Unary(op, Box::new(e))
    }

    pub open spec fn cast(ty: Text, e: Expr) -> Expr {
        Expr::Cast(ty, Box::new(e))
    }

    pub open spec fn paren(e: Expr) -> Expr {
        Expr::Paren(Box::new(e))
    }

    /// A call of a function by its name.
    pub open spec fn call(f: Text, args: Seq<Expr>) -> Expr {
        Expr::Call(Box::new(Expr::Var(f)), args)
    }

    pub open spec fn addr_of(e: Expr) -> Expr {
        Expr::AddrOf(Box::new(e))
    }

    pub open spec fn deref(ty: Text, e: Expr) -> Expr {
        Expr::Deref(ty, Box::new(e))
    }

    pub open spec fn field(e: Expr, name: Text) -> Expr {
        Expr::Field(Box::new(e), name)
    }

    pub open spec fn index(e: Expr, i: Expr) -> Expr {
        Expr::Index(Box::new(e), Box::new(i))
    }

    pub open spec fn ternary(c: Expr, a: Expr, b: Expr) -> Expr {
        Expr::Ternary(Box::new(c), Box::new(a), Box::new(b))
    }

    pub open spec fn sizeof_expr(e: Expr) -> Expr {
        Expr::SizeofExpr(Box::new(e))
    }
}

/// The trees of a list of expressions.
pub open spec fn exprs(v: Seq<CExpr>) -> Seq<Expr> {
    v.map_values(|e: CExpr| e@)
}

/// The trees of the cases of a switch.
pub open spec fn cases_model(v: Seq<(CExpr, String)>) -> Seq<(Expr, Text)> {
    v.map_values(|c: (CExpr, String)| (c.0@, c.1@))
}

/// The trees of a list of statements.
pub open spec fn stmts(v: Seq<CStmt>) -> Seq<Stmt> {
    v.map_values(|s: CStmt| s@)
}

impl CExpr {
    /// The tree of this expression.
    pub open spec fn model(self) -> Expr
        decreases self,
    {
        match self {
            CExpr::Var(s) => Expr::Var(s@),
            CExpr::Lit(s) => Expr::Lit(s@),
            CExpr::Raw(s) => Expr::Raw(s@),
            CExpr::Binop(l, op, r) => Expr::binop((*l).model(), op, (*r).model()),
            CExpr::Unary(op, e) => Expr::unary(op, (*e).model()),
            CExpr::Cast(t, e) => Expr::cast(t@, (*e).model()),
            CExpr::Paren(e) => Expr::paren((*e).model()),
            CExpr::Call(f, args) => Expr::Call(
                Box::new((*f).model()),
                Seq::new(
                    args@.len(),
                    |i: int|
                        if 0 <= i < args@.len() {
                            args@[i].model()
                        } else {
                            arbitrary()
                        },
                ),
            ),
            CExpr::AddrOf(e) => Expr::addr_of((*e).model()),
            CExpr::Deref(t, e) => Expr::deref(t@, (*e).model()),
            CExpr::Field(e, f) => Expr::field((*e).model(), f@),
            CExpr::Index(e, i) => Expr::index((*e).model(), (*i).model()),
            CExpr::Ternary(c, a, b) => Expr::ternary((*c).model(), (*a).model(), (*b).model()),
            CExpr::SizeofExpr(e) => Expr::sizeof_expr((*e).model()),
            CExpr::SizeofTy(t) => Expr::SizeofTy(t@),
            CExpr::CompoundLiteral(t, elems) => Expr::CompoundLiteral(
                t@,
                Seq::new(
                    elems@.len(),
                    |i: int|
                        if 0 <= i < elems@.len() {
                            elems@[i].model()
                        } else {
                            arbitrary()
                        },
                ),
            ),
        }
    }

    pub fn var(s: &str) -> (e: CExpr)
        ensures
            e@ == Expr::Var(s@),
    {
        CExpr::Var(s.to_owned())
    }

    pub fn lit(s: &str) -> (e: CExpr)
        ensures
            e@ == Expr::Lit(s@),
    {
        CExpr::Lit(s.to_owned())
    }

    pub fn raw(s: &str) -> (e: CExpr)
        ensures
            e@ == Expr::Raw(s@),
    {
        CExpr::Raw(s.to_owned())
    }

    pub fn binop(l: CExpr, op: CBinOp, r: CExpr) -> (e: CExpr)
        ensures
            e@ == Expr::binop(l@, op, r@),
    {
        CExpr::Binop(Box::new(l), op, Box::new(r))
    }

    pub fn unary(op: CUnaryOp, e: CExpr) -> (r: CExpr)
        ensures
            r@ == Expr::unary(op, e@),
    {
        CExpr::Unary(op, Box::new(e))
    }

    pub fn cast(ty: &str, e: CExpr) -> (r: CExpr)
        ensures
            r@ == Expr::cast(ty@, e@),
    {
        CExpr::Cast(ty.to_owned(), Box::new(e))
    }

    pub fn paren(e: CExpr) -> (r: CExpr)
        ensures
            r@ == Expr::paren(e@),
    {
        CExpr::Paren(Box::new(e))
    }

    /// A call of a function by its name.
    pub fn call(f: &str, args: Vec<CExpr>) -> (r: CExpr)
        ensures
            r@ == Expr::call(f@, exprs(args@)),
    {
        let r = CExpr::Call(Box::new(CExpr::var(f)), args);
        assert(r@->Call_1 =~= exprs(args@));
        r
    }

    /// A call with one argument.
    pub fn call1(f: &str, a: CExpr) -> (r: CExpr)
        ensures
            r@ == Expr::call(f@, seq![a@]),
    {
        let args = vec![a];
        assert(exprs(args@) =~= seq![a@]);
        CExpr::call(f, args)
    }

    /// A call with two arguments.
    pub fn call2(f: &str, a: CExpr, b: CExpr) -> (r: CExpr)
        ensures
            r@ == Expr::call(f@, seq![a@, b@]),
    {
        let args = vec![a, b];
        assert(exprs(args@) =~= seq![a@, b@]);
        CExpr::call(f, args)
    }

    /// A call with three arguments.
    pub fn call3(f: &str, a: CExpr, b: CExpr, c: CExpr) -> (r: CExpr)
        ensures
            r@ == Expr::call(f@, seq![a@, b@, c@]),
    {
        let args = vec![a, b, c];
        assert(exprs(args@) =~= seq![a@, b@, c@]);
        CExpr::call(f, args)
    }

    pub fn addr_of(e: CExpr) -> (r: CExpr)
        ensures
            r@ == Expr::addr_of(e@),
    {
        CExpr::AddrOf(Box::new(e))
    }

    pub fn deref(ty: &str, e: CExpr) -> (r: CExpr)
        ensures
            r@ == Expr::deref(ty@, e@),
    {
        CExpr::Deref(ty.to_owned(), Box::new(e))
    }

    pub fn field(e: CExpr, name: &str) -> (r: CExpr)
        ensures
            r@ == Expr::field(e@, name@),
    {
        CExpr::Field(Box::new(e), name.to_owned())
    }

    pub fn index(e: CExpr, i: CExpr) -> (r: CExpr)
        ensures
            r@ == Expr::index(e@, i@),
    {
        CExpr::Index(Box::new(e), Box::new(i))
    }

    pub fn ternary(c: CExpr, a: CExpr, b: CExpr) -> (r: CExpr)
        ensures
            r@ == Expr::ternary(c@, a@, b@),
    {
        CExpr::Ternary(Box::new(c), Box::new(a), Box::new(b))
    }

    pub fn sizeof_expr(e: CExpr) -> (r: CExpr)
        ensures
            r@ == Expr::sizeof_expr(e@),
    {
        CExpr::SizeofExpr(Box::new(e))
    }

    pub fn sizeof_ty(ty: &str) -> (r: CExpr)
        ensures
            r@ == Expr::SizeofTy(ty@),
    {
        CExpr::SizeofTy(ty.to_owned())
    }

    pub fn compound(ty: &str, elems: Vec<CExpr>) -> (r: CExpr)
        ensures
            r@ == Expr::CompoundLiteral(ty@, exprs(elems@)),
    {
        let r = CExpr::CompoundLiteral(ty.to_owned(), elems);
        assert(r@->CompoundLiteral_1 =~= exprs(elems@));
        r
    }
}

impl View for CExpr {
    type V = Expr;

    open spec fn view(&self) -> Expr {
        self.model()
    }
}

impl CStmt {
    /// The tree of this statement.
    pub open spec fn model(self) -> Stmt
        decreases self,
    {
        match self {
            CStmt::Assign(l, r) => Stmt::Assign(l@, r@),
            CStmt::Expr(e) => Stmt::Expr(e@),
            CStmt::Raw(s) => Stmt::Raw(s@),
            CStmt::RetVal(e) => Stmt::RetVal(e@),
            CStmt::RetVoid => Stmt::RetVoid,
            CStmt::Goto(l) => Stmt::Goto(l@),
            CStmt::CondGoto { cond, then_label, else_label } => Stmt::CondGoto {
                cond: cond@,
                then_label: then_label@,
                else_label: else_label@,
            },
            CStmt::Switch { expr, cases, default } => Stmt::Switch {
                expr: expr@,
                cases: cases_model(cases@),
                default: default@,
            },
            CStmt::DoWhile { body, cond } => Stmt::DoWhile {
                body: Seq::new(
                    body@.len(),
                    |i: int|
                        if 0 <= i < body@.len() {
                            body@[i].model()
                        } else {
                            arbitrary()
                        },
                ),
                cond: cond@,
            },
            CStmt::Unreachable => Stmt::Unreachable,
        }
    }

    pub fn assign(l: CExpr, r: CExpr) -> (s: CStmt)
        ensures
            s@ == Stmt::Assign(l@, r@),
    {
        CStmt::Assign(l, r)
    }

    pub fn expr(e: CExpr) -> (s: CStmt)
        ensures
            s@ == Stmt::Expr(e@),
    {
        CStmt::Expr(e)
    }

    pub fn raw(t: &str) -> (s: CStmt)
        ensures
            s@ == Stmt::Raw(t@),
    {
        CStmt::Raw(t.to_owned())
    }

    pub fn ret_val(e: CExpr) -> (s: CStmt)
        ensures
            s@ == Stmt::RetVal(e@),
    {
        CStmt::RetVal(e)
    }

    pub fn ret_void() -> (s: CStmt)
        ensures
            s@ == Stmt::RetVoid,
    {
        CStmt::RetVoid
    }

    pub fn goto(label: &str) -> (s: CStmt)
        ensures
            s@ == Stmt::Goto(label@),
    {
        CStmt::Goto(label.to_owned())
    }

    /// A loop whose body is one statement, tested after the body.
    pub fn do_while(body: CStmt, cond: CExpr) -> (s: CStmt)
        ensures
            s@ == (Stmt::DoWhile { body: seq![body@], cond: cond@ }),
    {
        let s = CStmt::DoWhile { body: vec![body], cond };
        assert(s@->body =~= seq![body@]);
        s
    }
}

impl View for CStmt {
    type V = Stmt;

    open spec fn view(&self) -> Stmt {
        self.model()
    }
}

} // verus!
