//! What C code means: what the emitted expressions compute, and which
//! statements an operation adds to the current block.
use vstd::arithmetic::power2::pow2;
use vstd::prelude::*;

use crate::builder::{unsigned_kind, Bx};
use crate::c_ast::{CBinOp, CUnaryOp, Expr, Stmt};
use crate::context::{cx_ok, extends, Cx};
use crate::text::{dec, digit, sdec, Text};
use crate::types::{int_name, Kind, TypeRef};
use crate::values::{value_types_ok, ValKind, Value, ValueRef};

verus! {

/// What C code refers to while it runs: the numbers that names, literals and
/// other given texts stand for, and what functions and memory give.
pub struct Meaning {
    /// The number that a name, a literal or a given text stands for.
    pub names: spec_fn(Text) -> int,
    /// What a function returns for arguments.
    pub calls: spec_fn(Text, Seq<int>) -> int,
    /// What memory at an address holds, read through a pointer type.
    pub memory: spec_fn(Text, int) -> int,
    /// The address of a variable.
    pub address: spec_fn(Text) -> int,
    /// A field of a structure.
    pub part: spec_fn(int, Text) -> int,
    /// An element of an array.
    pub element: spec_fn(int, int) -> int,
    /// The size of a type or a variable.
    pub size: spec_fn(Text) -> int,
    pub bits_and: spec_fn(int, int) -> int,
    pub bits_or: spec_fn(int, int) -> int,
    pub bits_xor: spec_fn(int, int) -> int,
    /// The width of a pointer.
    pub ptr_bits: nat,
}

/// A truth value in C.
pub open spec fn truth(b: bool) -> int {
    if b {
        1
    } else {
        0
    }
}

/// Division without remainder, rounded towards zero.
pub open spec fn quotient(a: int, b: int) -> int {
    if (a >= 0) == (b > 0) {
        (if a >= 0 { a } else { -a }) / (if b > 0 { b } else { -b })
    } else {
        -((if a >= 0 { a } else { -a }) / (if b > 0 { b } else { -b }))
    }
}

/// The number of a width that has the same low bits.
pub open spec fn wrapped_to(n: int, bits: nat, signed: bool) -> int {
    let m = n % (pow2(bits) as int);
    if signed && 2 * m >= pow2(bits) {
        m - pow2(bits)
    } else {
        m
    }
}

/// Whether a number is one of a width.
pub open spec fn fits(n: int, bits: nat, signed: bool) -> bool {
    if signed {
        -(pow2(bits) as int) <= 2 * n < pow2(bits)
    } else {
        0 <= n < pow2(bits)
    }
}

/// The width of a C integer type and whether it is signed.
pub open spec fn c_width(t: Text, ptr_bits: nat) -> Option<(nat, bool)> {
    if t == "int8_t"@ {
        Some((8, true))
    } else if t == "int16_t"@ {
        Some((16, true))
    } else if t == "int32_t"@ {
        Some((32, true))
    } else if t == "int64_t"@ {
        Some((64, true))
    } else if t == "int128_t"@ {
        Some((128, true))
    } else if t == "uint8_t"@ {
        Some((8, false))
    } else if t == "uint16_t"@ {
        Some((16, false))
    } else if t == "uint32_t"@ {
        Some((32, false))
    } else if t == "uint64_t"@ {
        Some((64, false))
    } else if t == "uint128_t"@ {
        Some((128, false))
    } else if t == "__rustc_isize"@ {
        Some((ptr_bits, true))
    } else if t == "__rustc_usize"@ {
        Some((ptr_bits, false))
    } else {
        None
    }
}

/// A number converted to a C type.
pub open spec fn converted(t: Text, n: int, ptr_bits: nat) -> int {
    if t == "_Bool"@ {
        truth(n != 0)
    } else {
        match c_width(t, ptr_bits) {
            Some((bits, signed)) => wrapped_to(n, bits, signed),
            None => n,
        }
    }
}

impl Meaning {
    /// What a binary operator computes.
    pub open spec fn apply(self, op: CBinOp, a: int, b: int) -> int {
        match op {
            CBinOp::Add => a + b,
            CBinOp::Sub => a - b,
            CBinOp::Mul => a * b,
            CBinOp::Div => quotient(a, b),
            CBinOp::Rem => a - b * quotient(a, b),
            CBinOp::Shl => a * pow2(b as nat),
            CBinOp::Shr => a / (pow2(b as nat) as int),
            CBinOp::BitAnd => (self.bits_and)(a, b),
            CBinOp::BitOr => (self.bits_or)(a, b),
            CBinOp::BitXor => (self.bits_xor)(a, b),
            CBinOp::Eq => truth(a == b),
            CBinOp::Ne => truth(a != b),
            CBinOp::Lt => truth(a < b),
            CBinOp::Le => truth(a <= b),
            CBinOp::Gt => truth(a > b),
            CBinOp::Ge => truth(a >= b),
            CBinOp::LogAnd => truth(a != 0 && b != 0),
            CBinOp::LogOr => truth(a != 0 || b != 0),
        }
    }

    /// The number that an expression gives.
    pub open spec fn eval(self, e: Expr) -> int
        decreases e,
    {
        match e {
            Expr::Var(t) => (self.names)(t),
            Expr::Lit(t) => (self.names)(t),
            Expr::Raw(t) => (self.names)(t),
            Expr::Binop(l, op, r) => self.apply(op, self.eval(*l), self.eval(*r)),
            Expr::Unary(op, x) => match op {
                CUnaryOp::Neg => -self.eval(*x),
                CUnaryOp::BitNot => -self.eval(*x) - 1,
                CUnaryOp::LogNot => truth(self.eval(*x) == 0),
            },
            Expr::Cast(t, x) => converted(t, self.eval(*x), self.ptr_bits),
            Expr::Paren(x) => self.eval(*x),
            Expr::Call(f, args) => match *f {
                Expr::Var(name) => (self.calls)(name, self.eval_all(args)),
                _ => 0,
            },
            Expr::AddrOf(x) => match *x {
                Expr::Var(name) => (self.address)(name),
                _ => 0,
            },
            Expr::Deref(t, x) => (self.memory)(t, self.eval(*x)),
            Expr::Field(x, f) => (self.part)(self.eval(*x), f),
            Expr::Index(x, i) => (self.element)(self.eval(*x), self.eval(*i)),
            Expr::Ternary(c, a, b) => if self.eval(*c) != 0 {
                self.eval(*a)
            } else {
                self.eval(*b)
            },
            Expr::SizeofExpr(x) => match *x {
                Expr::Var(name) => (self.size)(name),
                _ => 0,
            },
            Expr::SizeofTy(t) => (self.size)(t),
            Expr::CompoundLiteral(_, _) => 0,
        }
    }

    /// The numbers that expressions give, in order.
    pub open spec fn eval_all(self, list: Seq<Expr>) -> Seq<int>
        decreases list,
    {
        if list.len() == 0 {
            Seq::empty()
        } else {
            self.eval_all(list.drop_last()).push(self.eval(list.last()))
        }
    }

    /// The number that a value stands for.
    pub open spec fn of(self, b: Bx, v: ValueRef) -> int {
        (self.names)(b.cx.text(v))
    }
}

impl Bx {
    /// Whether the current block is one of the current function.
    pub open spec fn at_block(self) -> bool {
        self.cx.module.has_block(self.func, self.bb)
    }

    /// The statements of the current block.
    pub open spec fn code(self) -> Seq<Stmt> {
        self.cx.module.blocks[self.bb.0 as int].stmts
    }

    /// Whether `later` has these statements more than `self` in the current block.
    pub open spec fn then_runs(self, later: Bx, list: Seq<Stmt>) -> bool {
        self.at_block() ==> later.at_block() && later.code() == self.code() + list
    }

    /// Whether what `later` has more than `self` is one statement, which gives `r` a
    /// number of which `p` holds, whatever names stand for.
    pub open spec fn then_gives(
        self,
        later: Bx,
        r: ValueRef,
        p: spec_fn(Meaning, int) -> bool,
    ) -> bool {
        self.at_block() ==> {
            &&& later.at_block()
            &&& later.code().len() == self.code().len() + 1
            &&& later.code().drop_last() == self.code()
            &&& later.code().last() matches Stmt::Assign(place, e) && place == later.var(r)
                && forall|m: Meaning| p(m, #[trigger] m.eval(e))
        }
    }

    /// The width and the sign of an integer value.
    pub open spec fn width_of(self, v: ValueRef) -> Option<(nat, bool)> {
        kind_width(self.kind_of(v), (self.cx.ptr_bytes * 8) as nat)
    }

    /// Whether names stand for numbers that their values can hold, on this target.
    pub open spec fn holds_numbers(self, m: Meaning, v: ValueRef) -> bool {
        &&& m.ptr_bits == self.cx.ptr_bytes * 8
        &&& self.width_of(v) matches Some((bits, signed)) && fits(m.of(self, v), bits, signed)
    }
}

/// The sign of a binary operator in C.
pub open spec fn sign_of(op: CBinOp) -> Text {
    match op {
        CBinOp::Add => " + "@,
        CBinOp::Sub => " - "@,
        CBinOp::Mul => " * "@,
        CBinOp::Div => " / "@,
        CBinOp::Rem => " % "@,
        CBinOp::Shl => " << "@,
        CBinOp::Shr => " >> "@,
        CBinOp::BitAnd => " & "@,
        CBinOp::BitOr => " | "@,
        CBinOp::BitXor => " ^ "@,
        CBinOp::Eq => " == "@,
        CBinOp::Ne => " != "@,
        CBinOp::Lt => " < "@,
        CBinOp::Le => " <= "@,
        CBinOp::Gt => " > "@,
        CBinOp::Ge => " >= "@,
        CBinOp::LogAnd => " && "@,
        CBinOp::LogOr => " || "@,
    }
}

/// The text of an expression in which every bracket stands as a node of its own. Other
/// operators are brought together as C does it.
pub open spec fn plain_text(e: Expr) -> Text
    decreases e,
{
    match e {
        Expr::Var(t) => t,
        Expr::Lit(t) => t,
        Expr::Raw(t) => t,
        Expr::Binop(l, op, r) => plain_text(*l) + sign_of(op) + plain_text(*r),
        Expr::Unary(op, x) => (match op {
            CUnaryOp::Neg => "-"@,
            CUnaryOp::BitNot => "~"@,
            CUnaryOp::LogNot => "!"@,
        }) + plain_text(*x),
        Expr::Cast(t, x) => "("@ + t + ")"@ + plain_text(*x),
        Expr::Paren(x) => "("@ + plain_text(*x) + ")"@,
        Expr::Call(f, args) => if args.len() == 1 {
            plain_text(*f) + "("@ + plain_text(args[0]) + ")"@
        } else {
            Seq::empty()
        },
        Expr::Ternary(c, a, b) => plain_text(*c) + " ? "@ + plain_text(*a) + " : "@ + plain_text(
            *b,
        ),
        _ => Seq::empty(),
    }
}

// --- Names of types ---

proof fn signed_names()
    ensures
        int_name(8, true) == "int8_t"@,
        int_name(16, true) == "int16_t"@,
        int_name(32, true) == "int32_t"@,
        int_name(64, true) == "int64_t"@,
        int_name(128, true) == "int128_t"@,
{
    reveal_with_fuel(dec, 4);
    reveal_strlit("int");
    reveal_strlit("_t");
    reveal_strlit("int8_t");
    reveal_strlit("int16_t");
    reveal_strlit("int32_t");
    reveal_strlit("int64_t");
    reveal_strlit("int128_t");
    assert(int_name(8, true) =~= "int8_t"@);
    assert(int_name(16, true) =~= "int16_t"@);
    assert(int_name(32, true) =~= "int32_t"@);
    assert(int_name(64, true) =~= "int64_t"@);
    assert(dec(128) == seq![digit(1), digit(2), digit(8)]);
    assert(int_name(128, true) =~= "int128_t"@);
}

proof fn unsigned_names()
    ensures
        int_name(8, false) == "uint8_t"@,
        int_name(16, false) == "uint16_t"@,
        int_name(32, false) == "uint32_t"@,
        int_name(64, false) == "uint64_t"@,
        int_name(128, false) == "uint128_t"@,
{
    reveal_with_fuel(dec, 4);
    reveal_strlit("uint");
    reveal_strlit("_t");
    reveal_strlit("uint8_t");
    reveal_strlit("uint16_t");
    reveal_strlit("uint32_t");
    reveal_strlit("uint64_t");
    reveal_strlit("uint128_t");
    assert(int_name(8, false) =~= "uint8_t"@);
    assert(int_name(16, false) =~= "uint16_t"@);
    assert(int_name(32, false) =~= "uint32_t"@);
    assert(int_name(64, false) =~= "uint64_t"@);
    assert(dec(128) == seq![digit(1), digit(2), digit(8)]);
    assert(int_name(128, false) =~= "uint128_t"@);
}

/// The names of the C types are different from each other, so each has its own
/// width and sign.
proof fn widths_are_named(ptr_bits: nat)
    ensures
        c_width("int8_t"@, ptr_bits) == Some((8nat, true)),
        c_width("int16_t"@, ptr_bits) == Some((16nat, true)),
        c_width("int32_t"@, ptr_bits) == Some((32nat, true)),
        c_width("int64_t"@, ptr_bits) == Some((64nat, true)),
        c_width("int128_t"@, ptr_bits) == Some((128nat, true)),
        c_width("uint8_t"@, ptr_bits) == Some((8nat, false)),
        c_width("uint16_t"@, ptr_bits) == Some((16nat, false)),
        c_width("uint32_t"@, ptr_bits) == Some((32nat, false)),
        c_width("uint64_t"@, ptr_bits) == Some((64nat, false)),
        c_width("uint128_t"@, ptr_bits) == Some((128nat, false)),
        c_width("__rustc_isize"@, ptr_bits) == Some((ptr_bits, true)),
        c_width("__rustc_usize"@, ptr_bits) == Some((ptr_bits, false)),
        forall|t: Text| #[trigger] c_width(t, ptr_bits) is Some ==> t != "_Bool"@,
{
    reveal_strlit("int8_t");
    reveal_strlit("int16_t");
    reveal_strlit("int32_t");
    reveal_strlit("int64_t");
    reveal_strlit("int128_t");
    reveal_strlit("uint8_t");
    reveal_strlit("uint16_t");
    reveal_strlit("uint32_t");
    reveal_strlit("uint64_t");
    reveal_strlit("uint128_t");
    reveal_strlit("__rustc_isize");
    reveal_strlit("__rustc_usize");
    reveal_strlit("_Bool");
    assert("int8_t"@.len() == 6 && "int16_t"@.len() == 7 && "int32_t"@.len() == 7
        && "int64_t"@.len() == 7 && "int128_t"@.len() == 8);
    assert("uint8_t"@.len() == 7 && "uint16_t"@.len() == 8 && "uint32_t"@.len() == 8
        && "uint64_t"@.len() == 8 && "uint128_t"@.len() == 9);
    assert("__rustc_isize"@.len() == 13 && "__rustc_usize"@.len() == 13 && "_Bool"@.len() == 5);
    assert("int16_t"@[3] == '1' && "int32_t"@[3] == '3' && "int64_t"@[3] == '6');
    assert("uint8_t"@[0] == 'u' && "int16_t"@[0] == 'i' && "int32_t"@[0] == 'i' && "int64_t"@[0]
        == 'i');
    assert("uint16_t"@[0] == 'u' && "uint32_t"@[0] == 'u' && "uint64_t"@[0] == 'u'
        && "int128_t"@[0] == 'i');
    assert("uint16_t"@[4] == '1' && "uint32_t"@[4] == '3' && "uint64_t"@[4] == '6');
    assert("__rustc_isize"@[8] == 'i' && "__rustc_usize"@[8] == 'u');
}

/// The widths that C has names for.
pub open spec fn standard(bits: u64) -> bool {
    bits == 8 || bits == 16 || bits == 32 || bits == 64 || bits == 128
}

/// The width of an integer kind and whether it is signed.
pub open spec fn kind_width(k: Kind, ptr_bits: nat) -> Option<(nat, bool)> {
    match k {
        Kind::Int { bits, signed } => if standard(bits) {
            Some((bits as nat, signed))
        } else {
            None
        },
        Kind::PtrWidth { signed } => Some((ptr_bits, signed)),
        _ => None,
    }
}

/// The name of an integer type says its width and its sign, so a conversion to it
/// keeps the low bits of the width.
pub proof fn type_names_say_the_width(c: Cx, t: TypeRef, ptr_bits: nat, n: int)
    requires
        kind_width(c.kind(t), ptr_bits) is Some,
    ensures
        c_width(c.type_str(t), ptr_bits) == kind_width(c.kind(t), ptr_bits),
        ({
            let (bits, signed) = kind_width(c.kind(t), ptr_bits)->0;
            converted(c.type_str(t), n, ptr_bits) == wrapped_to(n, bits, signed)
        }),
{
    signed_names();
    unsigned_names();
    widths_are_named(ptr_bits);
}

/// The unsigned types by their names.
pub proof fn unsigned_names_say_the_width(ptr_bits: nat, n: int)
    ensures
        forall|bits: u64|
            standard(bits) ==> converted(#[trigger] int_name(bits as nat, false), n, ptr_bits)
                == wrapped_to(n, bits as nat, false),
        converted("__rustc_usize"@, n, ptr_bits) == wrapped_to(n, ptr_bits, false),
        converted("__rustc_isize"@, n, ptr_bits) == wrapped_to(n, ptr_bits, true),
{
    unsigned_names();
    widths_are_named(ptr_bits);
}

/// A truth value is 1 exactly where the number is not zero.
pub proof fn bool_names_say_truth(c: Cx, t: TypeRef, ptr_bits: nat, n: int)
    requires
        c.kind(t) is Bool,
    ensures
        converted(c.type_str(t), n, ptr_bits) == truth(n != 0),
{
}

/// A conversion to a floating-point type or to a pointer keeps the number, as far
/// as the type holds it.
pub proof fn other_names_keep_the_number(c: Cx, t: TypeRef, ptr_bits: nat, n: int)
    requires
        c.kind(t) is Float || c.kind(t) is Ptr,
    ensures
        converted(c.type_str(t), n, ptr_bits) == n,
{
    reveal_strlit("float");
    reveal_strlit("double");
    reveal_strlit("_Float16");
    reveal_strlit("__float128");
    reveal_strlit("void *");
    reveal_strlit("int8_t");
    reveal_strlit("int16_t");
    reveal_strlit("int32_t");
    reveal_strlit("int64_t");
    reveal_strlit("int128_t");
    reveal_strlit("uint8_t");
    reveal_strlit("uint16_t");
    reveal_strlit("uint32_t");
    reveal_strlit("uint64_t");
    reveal_strlit("uint128_t");
    reveal_strlit("__rustc_isize");
    reveal_strlit("__rustc_usize");
    reveal_strlit("_Bool");
    let s = c.type_str(t);
    assert("float"@[0] == 'f' && "double"@[0] == 'd' && "_Float16"@[0] == '_' && "__float128"@[2]
        == 'f' && "void *"@[0] == 'v');
    assert("int8_t"@[0] == 'i' && "int16_t"@[0] == 'i' && "int32_t"@[0] == 'i' && "int64_t"@[0]
        == 'i' && "int128_t"@[0] == 'i');
    assert("uint8_t"@[0] == 'u' && "uint16_t"@[0] == 'u' && "uint32_t"@[0] == 'u'
        && "uint64_t"@[0] == 'u' && "uint128_t"@[0] == 'u');
    assert("__rustc_isize"@[2] == 'r' && "__rustc_usize"@[2] == 'r' && "_Bool"@.len() == 5
        && "float"@.len() == 5 && "_Bool"@[0] == '_');
    assert("__rustc_isize"@.len() == 13 && "__rustc_usize"@.len() == 13 && "_Float16"@.len() == 8
        && "__float128"@.len() == 10);
}

/// A cast to a pointer keeps the number.
pub proof fn pointer_casts_keep_the_number(ptr_bits: nat, n: int)
    ensures
        converted("void *"@, n, ptr_bits) == n,
{
    reveal_strlit("void *");
    reveal_strlit("int8_t");
    reveal_strlit("int16_t");
    reveal_strlit("int32_t");
    reveal_strlit("int64_t");
    reveal_strlit("int128_t");
    reveal_strlit("uint8_t");
    reveal_strlit("uint16_t");
    reveal_strlit("uint32_t");
    reveal_strlit("uint64_t");
    reveal_strlit("uint128_t");
    reveal_strlit("__rustc_isize");
    reveal_strlit("__rustc_usize");
    reveal_strlit("_Bool");
    assert("void *"@.len() == 6 && "int8_t"@.len() == 6 && "void *"@[0] == 'v' && "int8_t"@[0]
        == 'i');
}

/// The name of the type of bytes.
pub proof fn byte_name(c: Cx, t: TypeRef)
    requires
        c.kind(t) == (Kind::Int { bits: 8, signed: true }),
    ensures
        c.type_str(t) == "int8_t"@,
{
    signed_names();
}

/// The widths of the standard integer types.
pub proof fn standard_names_have_widths(ptr_bits: nat)
    ensures
        forall|bits: u64, signed: bool|
            standard(bits) ==> #[trigger] c_width(int_name(bits as nat, signed), ptr_bits) == Some(
                (bits as nat, signed),
            ),
{
    signed_names();
    unsigned_names();
    widths_are_named(ptr_bits);
}

/// The widths of the unsigned types that helpers take.
pub proof fn unsigned_words_have_widths(ptr_bits: nat)
    ensures
        c_width("uint32_t"@, ptr_bits) == Some((32nat, false)),
        c_width("uint64_t"@, ptr_bits) == Some((64nat, false)),
        c_width("uint128_t"@, ptr_bits) == Some((128nat, false)),
        "uint32_t"@ != "_Bool"@,
        "uint64_t"@ != "_Bool"@,
        "uint128_t"@ != "_Bool"@,
{
    widths_are_named(ptr_bits);
}

/// The width of the type of bytes.
pub proof fn byte_width(ptr_bits: nat)
    ensures
        c_width("int8_t"@, ptr_bits) == Some((8nat, true)),
        "int8_t"@ != "_Bool"@,
{
    widths_are_named(ptr_bits);
}

/// The name of the type of 32-bit integers.
pub proof fn word_name()
    ensures
        int_name(32, true) == "int32_t"@,
{
    signed_names();
}

/// Whether literals stand for the numbers that they write.
pub open spec fn reads_literals(m: Meaning) -> bool {
    &&& forall|n: nat| (m.names)(#[trigger] dec(n)) == n
    &&& forall|n: nat| (m.names)(#[trigger] (dec(n) + "ULL"@)) == n
    &&& forall|i: int| (m.names)(#[trigger] (sdec(i) + "LL"@)) == i
    &&& forall|i: int| (m.names)(#[trigger] ("(-"@ + (sdec(i) + "LL"@) + " - 1)"@)) == -i - 1
    &&& forall|n: nat| (m.names)(#[trigger] (dec(n) + ".0"@)) == n
    &&& forall|n: nat| (m.names)(#[trigger] ("-"@ + (dec(n) + ".0"@))) == -n
    &&& forall|a: nat, b: nat|
        (m.names)(
            #[trigger] ("((uint128_t)"@ + dec(a) + "ULL << 64 | "@ + dec(b) + "ULL)"@),
        ) == a * 0x1_0000_0000_0000_0000 + b
    &&& (m.names)("0"@) == 0
    &&& (m.names)("1"@) == 1
    &&& (m.names)("0.0"@) == 0
}

/// Whether the limits of pointer-wide integers stand for what they are.
pub open spec fn reads_limits(m: Meaning) -> bool {
    &&& (m.names)("UINTPTR_MAX"@) == pow2(m.ptr_bits) - 1
    &&& (m.names)("((double)(UINTPTR_MAX / 2 + 1) * 2.0)"@) == pow2(m.ptr_bits)
    &&& 2 * (m.names)("INTPTR_MIN"@) == -pow2(m.ptr_bits)
    &&& 2 * (m.names)("(double)INTPTR_MIN"@) == -pow2(m.ptr_bits)
    &&& 2 * (m.names)("-(double)INTPTR_MIN"@) == pow2(m.ptr_bits)
    &&& 2 * (m.names)("INTPTR_MAX"@) == pow2(m.ptr_bits) - 2
}

// --- What basic operations emit ---

/// A statement that is emitted is the last of the current block.
pub proof fn emitted_is_last(b: Bx, s: Stmt)
    ensures
        b.then_runs(b.emit(s), seq![s]),
        b.at_block() ==> b.emit(s).code() == b.code().push(s),
        b.emit(s).at_block() == b.at_block(),
{
    if b.at_block() {
        assert(b.code().push(s) =~= b.code() + seq![s]);
    }
}

/// A local declaration changes no statement.
pub proof fn locals_run_nothing(b: Bx, decl: Text)
    ensures
        b.local(decl).at_block() == b.at_block(),
        b.local(decl).code() == b.code(),
        b.local(decl).cx.values == b.cx.values,
        b.local(decl).cx.types == b.cx.types,
        b.local(decl).cx.ptr_bytes == b.cx.ptr_bytes,
{
}

/// A temporary that is declared gets its number by the statement that is added.
pub proof fn temporaries_are_assigned(b: Bx, t: TypeRef, e: Expr)
    ensures
        ({
            let (b1, v) = b.temp_stmt(t, e);
            &&& b.then_runs(b1, seq![Stmt::Assign(b1.var(v), e)])
            &&& b1.at_block() == b.at_block()
            &&& b1.cx.values == b.cx.values.push(Value { kind: ValKind::Temp, ty: t })
            &&& b1.cx.types == b.cx.types
            &&& b1.cx.ptr_bytes == b.cx.ptr_bytes
            &&& b1.func == b.func && b1.bb == b.bb
            &&& v == b.cx.next()
        }),
{
    let (b0, v) = b.value(ValKind::Temp, t);
    let decl = b0.cx.decl_str(t, b0.cx.text(v)) + ";"@;
    locals_run_nothing(b0, decl);
    emitted_is_last(b0.local(decl), Stmt::Assign(b0.local(decl).var(v), e));
}

/// A statement that assigns a temporary gives it what the expression gives.
pub proof fn assigned_is_given(b: Bx, t: TypeRef, e: Expr, p: spec_fn(Meaning, int) -> bool)
    requires
        forall|m: Meaning| p(m, #[trigger] m.eval(e)),
    ensures
        b.then_gives(b.temp_stmt(t, e).0, b.temp_stmt(t, e).1, p),
{
    temporaries_are_assigned(b, t, e);
    let (b1, v) = b.temp_stmt(t, e);
    if b.at_block() {
        assert(b1.code().drop_last() =~= b.code());
        assert(b1.code().last() == Stmt::Assign(b1.var(v), e));
    }
}

// --- Numbers of a width ---

/// Wrapping keeps what already fits, gives what fits, and does nothing twice.
pub proof fn wrapping_keeps_low_bits(n: int, bits: nat, signed: bool, again: bool)
    ensures
        fits(n, bits, signed) && bits > 0 ==> wrapped_to(n, bits, signed) == n,
        bits > 0 ==> fits(wrapped_to(n, bits, signed), bits, signed),
        wrapped_to(wrapped_to(n, bits, signed), bits, again) == wrapped_to(n, bits, again),
        0 <= wrapped_to(n, bits, false) < pow2(bits),
{
    let p = pow2(bits) as int;
    vstd::arithmetic::power2::lemma_pow2_pos(bits);
    vstd::arithmetic::div_mod::lemma_mod_bound(n, p);
    vstd::arithmetic::div_mod::lemma_mod_twice(n, p);
    let m = n % p;
    vstd::arithmetic::div_mod::lemma_mod_multiples_vanish(-1, m, p);
    assert((m - p) % p == m % p);
    if fits(n, bits, signed) {
        if n >= 0 {
            vstd::arithmetic::div_mod::lemma_small_mod(n as nat, p as nat);
        } else {
            vstd::arithmetic::div_mod::lemma_mod_multiples_vanish(1, n, p);
            vstd::arithmetic::div_mod::lemma_small_mod((n + p) as nat, p as nat);
        }
    }
}

// --- Operators ---

/// A binary operator gives what the operator computes of its operands.
pub proof fn binop_gives(b: Bx, op: CBinOp, l: ValueRef, r: ValueRef)
    ensures
        b.then_gives(
            b.binop(op, l, r).0,
            b.binop(op, l, r).1,
            |m: Meaning, n: int| n == m.apply(op, m.of(b, l), m.of(b, r)),
        ),
{
    let e = Expr::binop(b.var(l), op, b.var(r));
    let p = |m: Meaning, n: int| n == m.apply(op, m.of(b, l), m.of(b, r));
    assert forall|m: Meaning| p(m, #[trigger] m.eval(e)) by {
        reveal_with_fuel(Meaning::eval, 3);
    }
    assigned_is_given(b, b.type_of(l), e, p);
}

/// A unary operator gives what the operator computes of its operand.
pub proof fn unary_gives(b: Bx, op: CUnaryOp, v: ValueRef)
    ensures
        b.then_gives(
            b.unary(op, v).0,
            b.unary(op, v).1,
            |m: Meaning, n: int|
                n == (match op {
                    CUnaryOp::Neg => -m.of(b, v),
                    CUnaryOp::BitNot => -m.of(b, v) - 1,
                    CUnaryOp::LogNot => truth(m.of(b, v) == 0),
                }),
        ),
{
    let e = Expr::unary(op, b.var(v));
    let p = |m: Meaning, n: int|
        n == (match op {
            CUnaryOp::Neg => -m.of(b, v),
            CUnaryOp::BitNot => -m.of(b, v) - 1,
            CUnaryOp::LogNot => truth(m.of(b, v) == 0),
        });
    assert forall|m: Meaning| p(m, #[trigger] m.eval(e)) by {
        reveal_with_fuel(Meaning::eval, 3);
    }
    assigned_is_given(b, b.type_of(v), e, p);
}

/// Division of numbers that are not negative is the same in C as elsewhere.
proof fn quotient_of_naturals(a: int, b: int)
    requires
        a >= 0,
        b > 0,
    ensures
        quotient(a, b) == a / b,
        0 <= a / b <= a,
        a - b * quotient(a, b) == a % b,
{
    vstd::arithmetic::div_mod::lemma_fundamental_div_mod(a, b);
    vstd::arithmetic::div_mod::lemma_div_pos_is_pos(a, b);
    vstd::arithmetic::div_mod::lemma_div_is_ordered_by_denominator(a, 1, b);
    vstd::arithmetic::div_mod::lemma_div_basics(a);
}

/// What an unsigned operation on integers of one type gives: what the operator
/// computes of the numbers that the bits stand for without a sign.
pub open spec fn unsigned_result(b: Bx, op: CBinOp, l: ValueRef, r: ValueRef, m: Meaning,
    n: int) -> bool {
    b.holds_numbers(m, l) && b.holds_numbers(m, r) && b.type_of(l) == b.type_of(r) ==> {
        let (bits, _) = b.width_of(l)->0;
        let (x, y) = (
            wrapped_to(m.of(b, l), bits, false),
            wrapped_to(m.of(b, r), bits, false),
        );
        &&& op is Div && y != 0 ==> wrapped_to(n, bits, false) == x / y
        &&& op is Rem && y != 0 ==> wrapped_to(n, bits, false) == x % y
    }
}

/// Division and remainder of unsigned integers are those of the numbers that the
/// bits stand for without a sign, whatever the sign of the type.
pub proof fn unsigned_binop_gives(b: Bx, op: CBinOp, l: ValueRef, r: ValueRef)
    requires
        cx_ok(b.cx),
        b.has(l),
        unsigned_kind(b.kind_of(l)) matches Some(k) ==> b.cx.can_intern(k),
    ensures
        b.then_gives(
            b.unsigned_binop(op, l, r).0,
            b.unsigned_binop(op, l, r).1,
            |m: Meaning, n: int| unsigned_result(b, op, l, r, m, n),
        ),
{
    let t = b.type_of(l);
    let p = |m: Meaning, n: int| unsigned_result(b, op, l, r, m, n);
    let (b1, u) = b.unsigned(t);
    values_have_types(b.cx, l);
    let e = match u {
        Some(u) => Expr::cast(
            b1.type_str(t),
            Expr::paren(
                Expr::binop(
                    Expr::cast(b1.type_str(u), b1.var(l)),
                    op,
                    Expr::cast(b1.type_str(u), b1.var(r)),
                ),
            ),
        ),
        None => Expr::binop(b.var(l), op, b.var(r)),
    };
    assert forall|m: Meaning| p(m, #[trigger] m.eval(e)) by {
        if b.holds_numbers(m, l) && b.holds_numbers(m, r) && b.type_of(l) == b.type_of(r) {
            let (bits, signed) = b.width_of(l)->0;
            let (x, y) = (m.of(b, l), m.of(b, r));
            let (ux, uy) = (wrapped_to(x, bits, false), wrapped_to(y, bits, false));
            wrapping_keeps_low_bits(x, bits, signed, false);
            wrapping_keeps_low_bits(y, bits, signed, false);
            reveal_with_fuel(Meaning::eval, 6);
            if u is Some {
                let k = unsigned_kind(b.cx.kind(t))->0;
                assert(b1.cx.kind(u->0) == k);
                assert(b1.cx.kind(t) == b.cx.kind(t));
                type_names_say_the_width(b1.cx, u->0, m.ptr_bits, x);
                type_names_say_the_width(b1.cx, u->0, m.ptr_bits, y);
                let q = m.apply(op, ux, uy);
                type_names_say_the_width(b1.cx, t, m.ptr_bits, q);
                wrapping_keeps_low_bits(q, bits, signed, false);
            }
            let q = m.apply(op, ux, uy);
            if uy != 0 && (op is Div || op is Rem) {
                quotient_of_naturals(ux, uy);
                vstd::arithmetic::div_mod::lemma_mod_bound(ux, uy);
                wrapping_keeps_low_bits(q, bits, false, false);
            }
        }
    }
    if u is Some {
        assigned_is_given(b1, t, e, p);
    } else {
        assigned_is_given(b, t, e, p);
    }
}

/// Every value of a context has a type of the context.
pub proof fn values_have_types(c: Cx, v: ValueRef)
    requires
        cx_ok(c),
        c.has(v),
    ensures
        c.has_type(c.type_of(v)),
{
    assert(value_types_ok(c.values[v.0 as int], c.types.len() as int));
}

impl Cx {
    /// Whether a kind that is interned is found again.
    pub open spec fn can_intern(self, k: Kind) -> bool {
        self.intern(k).kind(self.ty(k)) == k
    }
}

/// Interning a kind gives a type of that kind.
pub proof fn interned_kind(c: Cx, k: Kind)
    requires
        c.types.len() < usize::MAX,
    ensures
        c.can_intern(k),
        extends(c.types, c.intern(k).types),
{
    if c.types.contains(k) {
        assert(c.types[c.types.index_of(k)] == k);
    }
}

} // verus!
