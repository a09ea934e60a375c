//! Memory: locals, loads and stores, addresses, and the parts of aggregates.
use vstd::prelude::*;

use crate::builder::{Builder, Bx};
use crate::c_ast::{exprs, CBinOp, CExpr, CStmt, Expr, Stmt};
use crate::meaning::Meaning;
use crate::numbers::choices_follow_the_condition;
use crate::places::{assigned_whole, loads_read_the_address};
use crate::text::{dec, dec_u64, Text};
use crate::types::{CTypeKind, Kind, TypeRef};
use crate::values::{CValueKind, ValKind, ValueRef};

verus! {

/// How values of a type are loaded and stored.
#[derive(Clone, Copy, PartialEq, Eq, Structural, Debug)]
enum Access {
    Array,
    Function,
    Wide,
    Plain,
}

/// Whether a structure has a field of this number. Other types are taken whole.
pub open spec fn field_exists(k: Kind, idx: u64) -> bool {
    k matches Kind::Struct { fields, .. } ==> idx < fields.len() && idx <= usize::MAX
}

/// The type of a field of a structure.
pub open spec fn field_type(k: Kind, idx: u64) -> Option<TypeRef> {
    match k {
        Kind::Struct { fields, .. } => Some(fields[idx as int]),
        _ => None,
    }
}

/// The name of a field.
pub open spec fn field_name(idx: u64) -> Text {
    "f"@ + dec(idx as nat)
}

/// What the operations on memory do.
impl Bx {
    pub open spec fn alloca(self, size: u64, align: u64) -> (Bx, ValueRef) {
        let byte = Kind::Int { bits: 8, signed: true };
        let b1 = self.intern(byte);
        let b2 = b1.intern(Kind::Array { element: self.cx.ty(byte), len: size });
        let b3 = b2.intern(Kind::Ptr);
        let (b4, v) = b3.value(ValKind::Temp, b2.cx.ty(Kind::Ptr));
        let name = b4.cx.text(v);
        let storage = name + "_storage"@;
        if size > 0 {
            (
                b4.local(
                    "uint8_t "@ + storage + "["@ + dec(size as nat) + "] __attribute__((aligned("@
                        + dec(align as nat) + ")));"@,
                ).local("void *"@ + name + " = (void *)"@ + storage + ";"@),
                v,
            )
        } else {
            (b4.local("void *"@ + name + " = NULL;"@), v)
        }
    }

    pub open spec fn load(self, t: TypeRef, ptr: ValueRef) -> (Bx, ValueRef) {
        let p = self.var(ptr);
        match self.cx.kind(t) {
            Kind::Array { .. } => {
                let (b1, v) = self.declared_temp(t);
                (
                    b1.emit(
                        Stmt::Expr(
                            Expr::call(
                                "memcpy"@,
                                seq![b1.var(v), p, Expr::sizeof_expr(b1.var(v))],
                            ),
                        ),
                    ),
                    v,
                )
            },
            Kind::Function { .. } => self.temp_stmt(t, Expr::deref(self.cx.decl_str(t, "*"@), p)),
            Kind::Int { bits: 128, .. } => {
                let (b1, v) = self.typed_temp(t);
                (
                    b1.emit(
                        Stmt::Expr(
                            Expr::call(
                                "memcpy"@,
                                seq![
                                    Expr::addr_of(b1.var(v)),
                                    p,
                                    Expr::sizeof_expr(b1.var(v)),
                                ],
                            ),
                        ),
                    ),
                    v,
                )
            },
            _ => self.temp_stmt(t, Expr::deref(self.type_str(t) + " *"@, p)),
        }
    }

    pub open spec fn volatile_load(self, t: TypeRef, ptr: ValueRef) -> (Bx, ValueRef) {
        match self.cx.kind(t) {
            Kind::Int { bits: 128, .. } => {
                let (b1, v) = self.typed_temp(t);
                (
                    b1.emit(
                        Stmt::Raw(
                            "{ volatile char *__src = (volatile char *)"@ + self.cx.text(ptr)
                                + "; char *__dst = (char *)&"@ + b1.cx.text(v)
                                + "; for (int __i = 0; __i < 16; __i++) __dst[__i] = __src[__i]; }"@,
                        ),
                    ),
                    v,
                )
            },
            _ => self.temp_stmt(
                t,
                Expr::deref("volatile "@ + self.type_str(t) + " *"@, self.var(ptr)),
            ),
        }
    }

    pub open spec fn store(self, val: ValueRef, ptr: ValueRef) -> (Bx, ValueRef) {
        let t = self.type_of(val);
        let v = self.var(val);
        let p = self.var(ptr);
        let b = match self.cx.kind(t) {
            Kind::Array { .. } => self.emit(
                Stmt::Expr(
                    Expr::call("memcpy"@, seq![p, Expr::addr_of(v), Expr::sizeof_expr(v)]),
                ),
            ),
            Kind::Int { bits: 128, .. } => {
                let (b1, src) = self.typed_temp(t);
                b1.emit(Stmt::Assign(b1.var(src), v)).emit(
                    Stmt::Expr(
                        Expr::call(
                            "memcpy"@,
                            seq![p, Expr::addr_of(b1.var(src)), Expr::Lit("16"@)],
                        ),
                    ),
                )
            },
            _ => self.emit(Stmt::Assign(Expr::deref(self.type_str(t) + " *"@, p), v)),
        };
        (b, val)
    }

    pub open spec fn gep(self, t: TypeRef, ptr: ValueRef, indices: Seq<ValueRef>) -> (
        Bx,
        ValueRef,
    ) {
        let b = self.intern(Kind::Ptr);
        let first = Expr::binop(
            Expr::cast("__rustc_usize"@, b.var(ptr)),
            CBinOp::Add,
            Expr::binop(
                Expr::cast("__rustc_isize"@, Expr::paren(b.var(indices[0]))),
                CBinOp::Mul,
                Expr::cast("__rustc_isize"@, Expr::SizeofTy(b.type_str(t))),
            ),
        );
        let sum = if indices.len() == 2 {
            Expr::binop(
                first,
                CBinOp::Add,
                Expr::cast("__rustc_isize"@, Expr::paren(b.var(indices[1]))),
            )
        } else {
            first
        };
        b.temp_stmt(self.cx.ty(Kind::Ptr), Expr::cast("void *"@, Expr::paren(sum)))
    }

    pub open spec fn ptradd(self, ptr: ValueRef, offset: ValueRef) -> (Bx, ValueRef) {
        let byte = Kind::Int { bits: 8, signed: true };
        self.intern(byte).gep(self.cx.ty(byte), ptr, seq![offset])
    }

    pub open spec fn offset_ptr(self, ptr: ValueRef, bytes: u64) -> (Bx, ValueRef) {
        if bytes > 0 {
            let (c, off) = self.cx.usize_const(bytes);
            self.with_cx(c).ptradd(ptr, off)
        } else {
            (self, ptr)
        }
    }

    /// A call of one of the functions on memory.
    pub open spec fn mem_call(self, f: Text, a: ValueRef, b: ValueRef, c: ValueRef) -> Bx {
        self.emit(Stmt::Expr(Expr::call(f, seq![self.var(a), self.var(b), self.var(c)])))
    }

    pub open spec fn select(self, c: ValueRef, a: ValueRef, b: ValueRef) -> (Bx, ValueRef) {
        self.temp_stmt(
            self.type_of(a),
            Expr::ternary(self.var(c), self.var(a), self.var(b)),
        )
    }

    pub open spec fn va_arg(self, list: ValueRef, t: TypeRef) -> (Bx, ValueRef) {
        self.temp_stmt(
            t,
            Expr::call("va_arg"@, seq![self.var(list), Expr::Raw(self.type_str(t))]),
        )
    }

    pub open spec fn extract_element(self, vec: ValueRef, idx: ValueRef) -> (Bx, ValueRef) {
        let t = match self.kind_of(vec) {
            Kind::Array { element, .. } => element,
            Kind::Vector { element, .. } => element,
            _ => self.type_of(vec),
        };
        self.temp_stmt(t, Expr::index(self.var(vec), self.var(idx)))
    }

    pub open spec fn vector_splat(self, n: usize, elt: ValueRef) -> (Bx, ValueRef) {
        let k = Kind::Vector { element: self.type_of(elt), len: n as u64 };
        let b = self.intern(k);
        let t = self.cx.ty(k);
        let e = b.var(elt);
        b.temp_stmt(
            t,
            Expr::CompoundLiteral(b.type_str(t), Seq::new(n as nat, |i: int| e)),
        )
    }

    pub open spec fn extract_value(self, agg: ValueRef, idx: u64) -> (Bx, ValueRef) {
        let t = match field_type(self.kind_of(agg), idx) {
            Some(ft) => ft,
            None => self.type_of(agg),
        };
        self.temp_stmt(t, Expr::field(self.var(agg), field_name(idx)))
    }

    pub open spec fn insert_value(self, agg: ValueRef, elt: ValueRef, idx: u64) -> (
        Bx,
        ValueRef,
    ) {
        let (b1, e) = match field_type(self.kind_of(agg), idx) {
            Some(ft) => self.coerce(elt, ft),
            None => (self, elt),
        };
        let (b2, result) = b1.typed_temp(self.type_of(agg));
        let whole = if self.cx.values[agg.0 as int].kind is Undef
            || self.cx.values[agg.0 as int].kind is Poison {
            Stmt::Expr(
                Expr::call(
                    "memset"@,
                    seq![
                        Expr::addr_of(b2.var(result)),
                        Expr::Lit("0"@),
                        Expr::sizeof_expr(b2.var(result)),
                    ],
                ),
            )
        } else {
            Stmt::Assign(b2.var(result), b2.var(agg))
        };
        (
            b2.emit(whole).emit(
                Stmt::Assign(Expr::field(b2.var(result), field_name(idx)), b2.var(e)),
            ),
            result,
        )
    }
}

impl Builder {
    /// Reserves memory for a local: an array of bytes and a pointer to it. The
    /// pointer is set where it is declared, so that it is valid in every block.
    pub fn alloca(&mut self, size: u64, align: u64) -> (r: ValueRef)
        requires
            old(self).wf(),
        ensures
            final(self).wf(),
            (final(self)@, r) == old(self)@.alloca(size, align),
            final(self)@.has(r),
            old(self)@.within(final(self)@),
    {
        let byte_ty = self.cx.type_int(8);
        let _arr_ty = self.intern_type(CTypeKind::Array { element: byte_ty, len: size });
        let ptr_ty = self.cx.type_ptr();
        let val = self.new_temp(ptr_ty);
        let name = self.render(val);
        if size > 0 {
            let storage = name.clone().concat("_storage");
            let array = "uint8_t ".to_owned().concat(&storage).concat("[").concat(
                &dec_u64(size),
            ).concat("] __attribute__((aligned(").concat(&dec_u64(align)).concat(")));");
            self.add_local_decl(array);
            let pointer = "void *".to_owned().concat(&name).concat(" = (void *)").concat(
                &storage,
            ).concat(";");
            self.add_local_decl(pointer);
        } else {
            let pointer = "void *".to_owned().concat(&name).concat(" = NULL;");
            self.add_local_decl(pointer);
        }
        val
    }

    /// Reserves memory for a vector whose length is known at run time only: for its
    /// smallest length.
    pub fn scalable_alloca(&mut self, elt: u64, align: u64) -> (r: ValueRef)
        requires
            old(self).wf(),
        ensures
            final(self).wf(),
            (final(self)@, r) == old(self)@.alloca(elt, align),
            final(self)@.has(r),
            old(self)@.within(final(self)@),
    {
        self.alloca(elt, align)
    }

    /// Loads a value. An array and a 128-bit integer are copied, the integer since C
    /// aligns it more strictly than Rust does.
    pub fn load(&mut self, ty: TypeRef, ptr: ValueRef) -> (r: ValueRef)
        requires
            old(self).wf(),
            old(self)@.has_type(ty),
            old(self)@.has(ptr),
        ensures
            final(self).wf(),
            (final(self)@, r) == old(self)@.load(ty, ptr),
            final(self)@.has(r),
            old(self)@.within(final(self)@),
            assigned_whole(old(self)@.cx.kind(ty)) ==> old(self)@.then_gives(
                final(self)@,
                r,
                |m: Meaning, n: int|
                    n == (m.memory)(old(self)@.type_str(ty) + " *"@, m.of(old(self)@, ptr)),
            ),
    {
        proof {
            if assigned_whole(self@.cx.kind(ty)) {
                loads_read_the_address(self@, ty, ptr);
            }
        }
        let p = self.var(ptr);
        let how = match self.get_kind(ty) {
            CTypeKind::Array { .. } => Access::Array,
            CTypeKind::Function { .. } => Access::Function,
            CTypeKind::Int { bits, .. } => if *bits == 128 {
                Access::Wide
            } else {
                Access::Plain
            },
            _ => Access::Plain,
        };
        match how {
            Access::Array => {
                let result = self.declared_temp(ty);
                let e = CExpr::call3(
                    "memcpy",
                    self.var(result),
                    p,
                    CExpr::sizeof_expr(self.var(result)),
                );
                self.emit(CStmt::expr(e));
                result
            },
            Access::Function => {
                let e = CExpr::deref(&self.cx.render_type_decl(ty, "*"), p);
                self.new_temp_with_stmt(ty, e)
            },
            Access::Wide => {
                let result = self.typed_temp(ty);
                let e = CExpr::call3(
                    "memcpy",
                    CExpr::addr_of(self.var(result)),
                    p,
                    CExpr::sizeof_expr(self.var(result)),
                );
                self.emit(CStmt::expr(e));
                result
            },
            Access::Plain => {
                let e = CExpr::deref(&self.render_type(ty).concat(" *"), p);
                self.new_temp_with_stmt(ty, e)
            },
        }
    }

    /// Loads a value that may change at any time.
    pub fn volatile_load(&mut self, ty: TypeRef, ptr: ValueRef) -> (r: ValueRef)
        requires
            old(self).wf(),
            old(self)@.has_type(ty),
            old(self)@.has(ptr),
        ensures
            final(self).wf(),
            (final(self)@, r) == old(self)@.volatile_load(ty, ptr),
            final(self)@.has(r),
            old(self)@.within(final(self)@),
    {
        let is_wide = match self.get_kind(ty) {
            CTypeKind::Int { bits, .. } => *bits == 128,
            _ => false,
        };
        if is_wide {
            let p = self.render(ptr);
            let result = self.typed_temp(ty);
            let text = "{ volatile char *__src = (volatile char *)".to_owned().concat(&p).concat(
                "; char *__dst = (char *)&",
            ).concat(&self.render(result)).concat(
                "; for (int __i = 0; __i < 16; __i++) __dst[__i] = __src[__i]; }",
            );
            self.emit(CStmt::Raw(text));
            result
        } else {
            let pointer = "volatile ".to_owned().concat(&self.render_type(ty)).concat(" *");
            let e = CExpr::deref(&pointer, self.var(ptr));
            self.new_temp_with_stmt(ty, e)
        }
    }

    /// Stores a value.
    pub fn store(&mut self, val: ValueRef, ptr: ValueRef) -> (r: ValueRef)
        requires
            old(self).wf(),
            old(self)@.has(val),
            old(self)@.has(ptr),
        ensures
            final(self).wf(),
            (final(self)@, r) == old(self)@.store(val, ptr),
            final(self)@.has(r),
            old(self)@.within(final(self)@),
    {
        let v = self.var(val);
        let p = self.var(ptr);
        let ty = self.get_type(val);
        let how = match self.get_kind(ty) {
            CTypeKind::Array { .. } => Access::Array,
            CTypeKind::Int { bits, .. } => if *bits == 128 {
                Access::Wide
            } else {
                Access::Plain
            },
            _ => Access::Plain,
        };
        match how {
            Access::Array => {
                let size = CExpr::sizeof_expr(self.var(val));
                self.emit(CStmt::expr(CExpr::call3("memcpy", p, CExpr::addr_of(v), size)));
            },
            Access::Wide => {
                let src = self.typed_temp(ty);
                let target = self.var(src);
                self.emit(CStmt::assign(target, v));
                let from = CExpr::addr_of(self.var(src));
                self.emit(CStmt::expr(CExpr::call3("memcpy", p, from, CExpr::lit("16"))));
            },
            _ => {
                let pointer = self.render_type(ty).concat(" *");
                self.emit(CStmt::assign(CExpr::deref(&pointer, p), v));
            },
        }
        val
    }

    /// Stores a value; the flags have no meaning in C.
    pub fn store_with_flags(&mut self, val: ValueRef, ptr: ValueRef) -> (r: ValueRef)
        requires
            old(self).wf(),
            old(self)@.has(val),
            old(self)@.has(ptr),
        ensures
            final(self).wf(),
            (final(self)@, r) == old(self)@.store(val, ptr),
            final(self)@.has(r),
            old(self)@.within(final(self)@),
    {
        self.store(val, ptr)
    }

    /// Computes an address by integer arithmetic: the first index counts elements of
    /// `ty`, a second one bytes.
    pub fn gep(&mut self, ty: TypeRef, ptr: ValueRef, indices: &Vec<ValueRef>) -> (r: ValueRef)
        requires
            old(self).wf(),
            old(self)@.has_type(ty),
            old(self)@.has(ptr),
            old(self)@.cx.has_all(indices@),
            indices@.len() > 0,
        ensures
            final(self).wf(),
            (final(self)@, r) == old(self)@.gep(ty, ptr, indices@),
            final(self)@.has(r),
            old(self)@.within(final(self)@),
    {
        let ptr_ty = self.cx.type_ptr();
        let base = CExpr::cast("__rustc_usize", self.var(ptr));
        let scaled = CExpr::binop(
            CExpr::cast("__rustc_isize", CExpr::paren(self.var(indices[0]))),
            CBinOp::Mul,
            CExpr::cast("__rustc_isize", CExpr::sizeof_ty(&self.render_type(ty))),
        );
        let first = CExpr::binop(base, CBinOp::Add, scaled);
        let sum = if indices.len() == 2 {
            CExpr::binop(
                first,
                CBinOp::Add,
                CExpr::cast("__rustc_isize", CExpr::paren(self.var(indices[1]))),
            )
        } else {
            first
        };
        self.new_temp_with_stmt(ptr_ty, CExpr::cast("void *", CExpr::paren(sum)))
    }

    /// Computes an address within an object; C code is emitted as for any other.
    pub fn inbounds_gep(&mut self, ty: TypeRef, ptr: ValueRef, indices: &Vec<ValueRef>) -> (r: ValueRef)
        requires
            old(self).wf(),
            old(self)@.has_type(ty),
            old(self)@.has(ptr),
            old(self)@.cx.has_all(indices@),
            indices@.len() > 0,
        ensures
            final(self).wf(),
            (final(self)@, r) == old(self)@.gep(ty, ptr, indices@),
            final(self)@.has(r),
            old(self)@.within(final(self)@),
    {
        self.gep(ty, ptr, indices)
    }

    /// Adds a number of bytes to an address.
    pub fn ptradd(&mut self, ptr: ValueRef, offset: ValueRef) -> (r: ValueRef)
        requires
            old(self).wf(),
            old(self)@.has(ptr),
            old(self)@.has(offset),
        ensures
            final(self).wf(),
            (final(self)@, r) == old(self)@.ptradd(ptr, offset),
            final(self)@.has(r),
            old(self)@.within(final(self)@),
    {
        let i8_ty = self.cx.type_int(8);
        let indices = vec![offset];
        assert(indices@ =~= seq![offset]);
        self.gep(i8_ty, ptr, &indices)
    }

    /// The address at a number of bytes from another.
    pub fn offset_ptr(&mut self, ptr: ValueRef, bytes: u64) -> (r: ValueRef)
        requires
            old(self).wf(),
            old(self)@.has(ptr),
        ensures
            final(self).wf(),
            (final(self)@, r) == old(self)@.offset_ptr(ptr, bytes),
            final(self)@.has(r),
            old(self)@.within(final(self)@),
    {
        if bytes > 0 {
            let off = self.cx.const_usize(bytes);
            self.ptradd(ptr, off)
        } else {
            ptr
        }
    }

    /// Copies memory that does not overlap.
    pub fn memcpy(&mut self, dst: ValueRef, src: ValueRef, size: ValueRef)
        requires
            old(self).wf(),
            old(self)@.has(dst),
            old(self)@.has(src),
            old(self)@.has(size),
        ensures
            final(self).wf(),
            final(self)@ == old(self)@.mem_call("memcpy"@, dst, src, size),
            old(self)@.within(final(self)@),
    {
        let e = CExpr::call3("memcpy", self.var(dst), self.var(src), self.var(size));
        self.emit(CStmt::expr(e));
    }

    /// Copies memory that may overlap.
    pub fn memmove(&mut self, dst: ValueRef, src: ValueRef, size: ValueRef)
        requires
            old(self).wf(),
            old(self)@.has(dst),
            old(self)@.has(src),
            old(self)@.has(size),
        ensures
            final(self).wf(),
            final(self)@ == old(self)@.mem_call("memmove"@, dst, src, size),
            old(self)@.within(final(self)@),
    {
        let e = CExpr::call3("memmove", self.var(dst), self.var(src), self.var(size));
        self.emit(CStmt::expr(e));
    }

    /// Fills memory with a byte.
    pub fn memset(&mut self, ptr: ValueRef, fill_byte: ValueRef, size: ValueRef)
        requires
            old(self).wf(),
            old(self)@.has(ptr),
            old(self)@.has(fill_byte),
            old(self)@.has(size),
        ensures
            final(self).wf(),
            final(self)@ == old(self)@.mem_call("memset"@, ptr, fill_byte, size),
            old(self)@.within(final(self)@),
    {
        let e = CExpr::call3("memset", self.var(ptr), self.var(fill_byte), self.var(size));
        self.emit(CStmt::expr(e));
    }

    /// One of two values, by a condition.
    pub fn select(&mut self, cond: ValueRef, then_val: ValueRef, else_val: ValueRef) -> (r: ValueRef)
        requires
            old(self).wf(),
            old(self)@.has(cond),
            old(self)@.has(then_val),
            old(self)@.has(else_val),
        ensures
            final(self).wf(),
            (final(self)@, r) == old(self)@.select(cond, then_val, else_val),
            final(self)@.has(r),
            old(self)@.within(final(self)@),
            old(self)@.then_gives(
                final(self)@,
                r,
                |m: Meaning, n: int|
                    n == (if m.of(old(self)@, cond) != 0 {
                        m.of(old(self)@, then_val)
                    } else {
                        m.of(old(self)@, else_val)
                    }),
            ),
    {
        proof {
            choices_follow_the_condition(self@, cond, then_val, else_val);
        }
        let ty = self.get_type(then_val);
        let e = CExpr::ternary(self.var(cond), self.var(then_val), self.var(else_val));
        self.new_temp_with_stmt(ty, e)
    }

    /// The next variable argument.
    pub fn va_arg(&mut self, list: ValueRef, ty: TypeRef) -> (r: ValueRef)
        requires
            old(self).wf(),
            old(self)@.has(list),
            old(self)@.has_type(ty),
        ensures
            final(self).wf(),
            (final(self)@, r) == old(self)@.va_arg(list, ty),
            final(self)@.has(r),
            old(self)@.within(final(self)@),
    {
        let e = CExpr::call2("va_arg", self.var(list), CExpr::Raw(self.render_type(ty)));
        self.new_temp_with_stmt(ty, e)
    }

    /// An element of a vector.
    pub fn extract_element(&mut self, vec: ValueRef, idx: ValueRef) -> (r: ValueRef)
        requires
            old(self).wf(),
            old(self)@.has(vec),
            old(self)@.has(idx),
        ensures
            final(self).wf(),
            (final(self)@, r) == old(self)@.extract_element(vec, idx),
            final(self)@.has(r),
            old(self)@.within(final(self)@),
    {
        let vec_ty = self.get_type(vec);
        let ty = match self.get_kind(vec_ty) {
            CTypeKind::Array { element, .. } => *element,
            CTypeKind::Vector { element, .. } => *element,
            _ => vec_ty,
        };
        let e = CExpr::index(self.var(vec), self.var(idx));
        self.new_temp_with_stmt(ty, e)
    }

    /// A vector with the same value in each place.
    pub fn vector_splat(&mut self, num_elts: usize, elt: ValueRef) -> (r: ValueRef)
        requires
            old(self).wf(),
            old(self)@.has(elt),
        ensures
            final(self).wf(),
            (final(self)@, r) == old(self)@.vector_splat(num_elts, elt),
            final(self)@.has(r),
            old(self)@.within(final(self)@),
    {
        let element = self.get_type(elt);
        let vec_ty = self.intern_type(CTypeKind::Vector { element, len: num_elts as u64 });
        let type_str = self.render_type(vec_ty);
        let ghost e = self@.var(elt);
        let mut elems: Vec<CExpr> = Vec::new();
        let mut i: usize = 0;
        while i < num_elts
            invariant
                i <= num_elts,
                self.wf(),
                self@.has(elt),
                e == self@.var(elt),
                elems@.len() == i,
                forall|k: int| 0 <= k < i ==> (#[trigger] elems@[k])@ == e,
            decreases num_elts - i,
        {
            elems.push(self.var(elt));
            i = i + 1;
        }
        assert(exprs(elems@) =~= Seq::new(num_elts as nat, |i: int| e));
        self.new_temp_with_stmt(vec_ty, CExpr::compound(&type_str, elems))
    }

    /// A field of a structure.
    pub fn extract_value(&mut self, agg_val: ValueRef, idx: u64) -> (r: ValueRef)
        requires
            old(self).wf(),
            old(self)@.has(agg_val),
            field_exists(old(self)@.kind_of(agg_val), idx),
        ensures
            final(self).wf(),
            (final(self)@, r) == old(self)@.extract_value(agg_val, idx),
            final(self)@.has(r),
            old(self)@.within(final(self)@),
    {
        let agg_ty = self.get_type(agg_val);
        let field_ty = match self.get_kind(agg_ty) {
            CTypeKind::Struct { fields, .. } => fields[idx as usize],
            _ => agg_ty,
        };
        let e = CExpr::field(self.var(agg_val), &"f".to_owned().concat(&dec_u64(idx)));
        self.new_temp_with_stmt(field_ty, e)
    }

    /// A structure with one field changed.
    pub fn insert_value(&mut self, agg_val: ValueRef, elt: ValueRef, idx: u64) -> (r: ValueRef)
        requires
            old(self).wf(),
            old(self)@.has(agg_val),
            old(self)@.has(elt),
            field_exists(old(self)@.kind_of(agg_val), idx),
        ensures
            final(self).wf(),
            (final(self)@, r) == old(self)@.insert_value(agg_val, elt, idx),
            final(self)@.has(r),
            old(self)@.within(final(self)@),
    {
        let agg_ty = self.get_type(agg_val);
        let field_ty = match self.get_kind(agg_ty) {
            CTypeKind::Struct { fields, .. } => Some(fields[idx as usize]),
            _ => None,
        };
        let is_undef = match &self.cx.get_value(agg_val).kind {
            CValueKind::Undef => true,
            CValueKind::Poison => true,
            _ => false,
        };
        let elt = match field_ty {
            Some(ft) => self.coerce_ptr_int(elt, ft),
            None => elt,
        };
        let result = self.typed_temp(agg_ty);
        if is_undef {
            let e = CExpr::call3(
                "memset",
                CExpr::addr_of(self.var(result)),
                CExpr::lit("0"),
                CExpr::sizeof_expr(self.var(result)),
            );
            self.emit(CStmt::expr(e));
        } else {
            let whole = CStmt::assign(self.var(result), self.var(agg_val));
            self.emit(whole);
        }
        let part = CStmt::assign(
            CExpr::field(self.var(result), &"f".to_owned().concat(&dec_u64(idx))),
            self.var(elt),
        );
        self.emit(part);
        result
    }
}

} // verus!
