//! Intrinsics on vectors.
use vstd::prelude::*;

use crate::builder::{Builder, Bx};
use crate::c_ast::{CExpr, CStmt, Expr, Stmt};
use crate::layout::Layout;
use crate::text::{dec, dec_u64, dec_usize, Text};
use crate::type_of::layout_to_c_type;
use crate::types::{CTypeKind, Kind, TypeRef};
use crate::values::{const_u64, vals_below, CValueKind, ValKind, ValueRef};

verus! {

/// What is done to each element of a vector, with the texts of the vectors.
#[derive(Debug)]
pub enum LaneOp {
    Compare { rn: String, va: String, op: String, vb: String },
    Binary { rn: String, va: String, op: String, vb: String },
    Cast { rn: String, t: String, va: String },
}

/// What is done to each element of a vector, as contracts speak of it.
pub enum Lane {
    Compare { rn: Text, va: Text, op: Text, vb: Text },
    Binary { rn: Text, va: Text, op: Text, vb: Text },
    Cast { rn: Text, t: Text, va: Text },
}

impl View for LaneOp {
    type V = Lane;

    open spec fn view(&self) -> Lane {
        match *self {
            LaneOp::Compare { rn, va, op, vb } => Lane::Compare {
                rn: rn@,
                va: va@,
                op: op@,
                vb: vb@,
            },
            LaneOp::Binary { rn, va, op, vb } => Lane::Binary {
                rn: rn@,
                va: va@,
                op: op@,
                vb: vb@,
            },
            LaneOp::Cast { rn, t, va } => Lane::Cast { rn: rn@, t: t@, va: va@ },
        }
    }
}

/// An element of a vector.
pub open spec fn lane(v: Text, i: nat) -> Text {
    v + ".v["@ + dec(i) + "]"@
}

/// The statement for one element.
pub open spec fn lane_stmt(op: Lane, i: nat) -> Stmt {
    match op {
        Lane::Compare { rn, va, op, vb } => Stmt::Raw(
            lane(rn, i) + " = ("@ + lane(va, i) + " "@ + op + " "@ + lane(vb, i) + ") ? -1 : 0;"@,
        ),
        Lane::Binary { rn, va, op, vb } => Stmt::Assign(
            Expr::Raw(lane(rn, i)),
            Expr::Raw(lane(va, i) + " "@ + op + " "@ + lane(vb, i)),
        ),
        Lane::Cast { rn, t, va } => Stmt::Assign(
            Expr::Raw(lane(rn, i)),
            Expr::Raw("("@ + t + ")"@ + lane(va, i)),
        ),
    }
}

impl LaneOp {
    /// The statement for one element.
    fn stmt(&self, i: u64) -> (r: CStmt)
        ensures
            r@ == lane_stmt(self@, i as nat),
    {
        match self {
            LaneOp::Compare { rn, va, op, vb } => CStmt::Raw(
                render_lane(rn, i).concat(" = (").concat(&render_lane(va, i)).concat(" ").concat(
                    op,
                ).concat(" ").concat(&render_lane(vb, i)).concat(") ? -1 : 0;"),
            ),
            LaneOp::Binary { rn, va, op, vb } => CStmt::assign(
                CExpr::Raw(render_lane(rn, i)),
                CExpr::Raw(
                    render_lane(va, i).concat(" ").concat(op).concat(" ").concat(
                        &render_lane(vb, i),
                    ),
                ),
            ),
            LaneOp::Cast { rn, t, va } => CStmt::assign(
                CExpr::Raw(render_lane(rn, i)),
                CExpr::Raw("(".to_owned().concat(t).concat(")").concat(&render_lane(va, i))),
            ),
        }
    }
}

/// Writes an element of a vector.
fn render_lane(v: &str, i: u64) -> (r: String)
    ensures
        r@ == lane(v@, i as nat),
{
    v.to_owned().concat(".v[").concat(&dec_u64(i)).concat("]")
}

/// The length of a vector type, 1 for other types.
pub open spec fn vec_len(k: Kind) -> u64 {
    match k {
        Kind::Vector { len, .. } => len,
        _ => 1,
    }
}

/// The type of the elements of a vector type, else the type itself.
pub open spec fn vec_elem(k: Kind, t: TypeRef) -> TypeRef {
    match k {
        Kind::Vector { element, .. } => element,
        _ => t,
    }
}

/// The number that a constant stands for, 0 for other values.
pub open spec fn index_of_const(k: ValKind) -> u64 {
    match const_u64(k) {
        Some(n) => n,
        None => 0,
    }
}

/// The statement that copies a vector into a part of an array.
pub open spec fn gather_text(array: Text, at: Text, v: Text, n: Text, t: Text) -> Text {
    "memcpy(&"@ + array + "["@ + at + "], &"@ + v + ".v[0], "@ + n + " * sizeof("@ + t + "));"@
}

/// Writes the statement that copies a vector into a part of an array.
fn render_gather(array: &str, at: &str, v: &str, n: &str, t: &str) -> (r: String)
    ensures
        r@ == gather_text(array@, at@, v@, n@, t@),
{
    "memcpy(&".to_owned().concat(array).concat("[").concat(at).concat("], &").concat(v).concat(
        ".v[0], ",
    ).concat(n).concat(" * sizeof(").concat(t).concat("));")
}

/// What these intrinsics do.
impl Bx {
    pub open spec fn codegen_simd_extract(self, vec: ValueRef, idx: ValueRef, dest: ValueRef) -> Bx {
        let t = self.type_of(vec);
        self.store_expr(
            vec_elem(self.cx.kind(t), t),
            Expr::Raw(self.cx.text(vec) + ".v["@ + self.cx.text(idx) + "]"@),
            dest,
        )
    }

    pub open spec fn codegen_simd_insert(
        self,
        vec: ValueRef,
        idx: ValueRef,
        val: ValueRef,
        dest: ValueRef,
    ) -> Bx {
        let (b, result) = self.temp_stmt(self.type_of(vec), Expr::Raw(self.cx.text(vec)));
        b.emit(
            Stmt::Assign(
                Expr::Raw(b.cx.text(result) + ".v["@ + self.cx.text(idx) + "]"@),
                self.var(val),
            ),
        ).store(result, dest).0
    }

    /// Emits one statement for each of the first `n` elements.
    pub open spec fn emit_lanes(self, n: nat, op: Lane) -> Bx
        decreases n,
    {
        if n == 0 {
            self
        } else {
            self.emit_lanes((n - 1) as nat, op).emit(lane_stmt(op, (n - 1) as nat))
        }
    }

    pub open spec fn codegen_simd_compare(
        self,
        op: Text,
        x: ValueRef,
        y: ValueRef,
        dest: ValueRef,
        l: Layout,
    ) -> Bx {
        let (c, t) = self.cx.layout_type(l);
        let (b, result) = self.with_cx(c).declared_temp(t);
        let lanes = Lane::Compare {
            rn: b.cx.text(result),
            va: self.cx.text(x),
            op,
            vb: self.cx.text(y),
        };
        b.emit_lanes(vec_len(self.kind_of(x)) as nat, lanes).store(result, dest).0
    }

    pub open spec fn codegen_simd_binary(
        self,
        op: Text,
        x: ValueRef,
        y: ValueRef,
        dest: ValueRef,
    ) -> Bx {
        let (b, result) = self.declared_temp(self.type_of(x));
        let lanes = Lane::Binary {
            rn: b.cx.text(result),
            va: self.cx.text(x),
            op,
            vb: self.cx.text(y),
        };
        b.emit_lanes(vec_len(self.kind_of(x)) as nat, lanes).store(result, dest).0
    }

    pub open spec fn codegen_simd_cast(self, x: ValueRef, dest: ValueRef, l: Layout) -> Bx {
        let (c, t) = self.cx.layout_type(l);
        let b = self.with_cx(c);
        let elem = b.type_str(vec_elem(c.kind(t), t));
        let (b1, result) = b.declared_temp(t);
        let lanes = Lane::Cast { rn: b1.cx.text(result), t: elem, va: self.cx.text(x) };
        b1.emit_lanes(vec_len(c.kind(t)) as nat, lanes).store(result, dest).0
    }

    /// The numbers by which a shuffle picks.
    pub open spec fn shuffle_indices(self, indices: ValueRef, len: u64) -> Seq<u64> {
        match self.cx.values[indices.0 as int].kind {
            ValKind::VectorConst { elements, .. } => elements.map_values(
                |v: ValueRef| index_of_const(self.cx.values[v.0 as int].kind),
            ),
            _ => Seq::new(len as nat, |k: int| k as u64),
        }
    }

    /// Emits the statements for the first `n` elements of a shuffle.
    pub open spec fn emit_picks(self, rn: Text, array: Text, indices: Seq<u64>, n: nat) -> Bx
        decreases n,
    {
        if n == 0 {
            self
        } else {
            let i = (n - 1) as nat;
            self.emit_picks(rn, array, indices, i).emit(
                Stmt::Assign(
                    Expr::Raw(lane(rn, i)),
                    Expr::index(Expr::Var(array), Expr::Lit(dec(indices[i as int] as nat))),
                ),
            )
        }
    }

    pub open spec fn codegen_simd_shuffle(
        self,
        x: ValueRef,
        y: ValueRef,
        indices: ValueRef,
        dest: ValueRef,
        l: Layout,
    ) -> Bx {
        let in_ty = self.type_of(x);
        let in_len = vec_len(self.cx.kind(in_ty));
        let elem = vec_elem(self.cx.kind(in_ty), in_ty);
        let (c, ret_ty) = self.cx.layout_type(l);
        let b = self.with_cx(c);
        let n = dec(in_len as nat);
        let t = b.type_str(elem);
        let (b1, arr) = b.value(ValKind::Temp, elem);
        let array = b1.cx.text(arr) + "_shuf"@;
        let b2 = b1.local(t + " "@ + array + "["@ + dec((in_len * 2) as nat) + "];"@).emit(
            Stmt::Raw(gather_text(array, "0"@, b.cx.text(x), n, t)),
        ).emit(Stmt::Raw(gather_text(array, n, b.cx.text(y), n, t)));
        let (b3, result) = b2.declared_temp(ret_ty);
        let picks = b.shuffle_indices(indices, vec_len(c.kind(ret_ty)));
        b3.emit_picks(b3.cx.text(result), array, picks, picks.len()).store(result, dest).0
    }
}

impl Builder {
    /// Takes an element out of a vector.
    pub fn codegen_simd_extract(&mut self, vec: ValueRef, idx: ValueRef, dest: ValueRef)
        requires
            old(self).wf(),
            old(self)@.has(vec),
            old(self)@.has(idx),
            old(self)@.has(dest),
        ensures
            final(self).wf(),
            final(self)@ == old(self)@.codegen_simd_extract(vec, idx, dest),
            old(self)@.within(final(self)@),
    {
        let vec_ty = self.get_type(vec);
        let elem_ty = match self.get_kind(vec_ty) {
            CTypeKind::Vector { element, .. } => *element,
            _ => vec_ty,
        };
        let text = self.render(vec).concat(".v[").concat(&self.render(idx)).concat("]");
        let result = self.new_temp_with_stmt(elem_ty, CExpr::Raw(text));
        self.store(result, dest);
    }

    /// Puts an element into a vector.
    pub fn codegen_simd_insert(&mut self, vec: ValueRef, idx: ValueRef, val: ValueRef, dest: ValueRef)
        requires
            old(self).wf(),
            old(self)@.has(vec),
            old(self)@.has(idx),
            old(self)@.has(val),
            old(self)@.has(dest),
        ensures
            final(self).wf(),
            final(self)@ == old(self)@.codegen_simd_insert(vec, idx, val, dest),
            old(self)@.within(final(self)@),
    {
        let vec_ty = self.get_type(vec);
        let v = self.render(vec);
        let i = self.render(idx);
        let e = self.var(val);
        let result = self.new_temp_with_stmt(vec_ty, CExpr::Raw(v));
        let place = self.render(result).concat(".v[").concat(&i).concat("]");
        self.emit(CStmt::assign(CExpr::Raw(place), e));
        self.store(result, dest);
    }

    /// Emits one statement for each of the first `n` elements of a vector.
    fn emit_lanes(&mut self, n: u64, op: &LaneOp)
        requires
            old(self).wf(),
        ensures
            final(self).wf(),
            final(self)@ == old(self)@.emit_lanes(n as nat, op@),
            old(self)@.within(final(self)@),
    {
        let ghost start = self@;
        let mut i: u64 = 0;
        while i < n
            invariant
                i <= n,
                self.wf(),
                self@ == start.emit_lanes(i as nat, op@),
                start.within(self@),
            decreases n - i,
        {
            let stmt = op.stmt(i);
            self.emit(stmt);
            i = i + 1;
        }
    }

    /// The length of a vector type, 1 for other types.
    fn vector_len(&self, t: TypeRef) -> (r: u64)
        requires
            self.wf(),
            self@.has_type(t),
        ensures
            r == vec_len(self@.cx.kind(t)),
    {
        match self.get_kind(t) {
            CTypeKind::Vector { len, .. } => *len,
            _ => 1,
        }
    }

    /// Compares vectors: each element of the result has all bits set where the
    /// comparison holds, and none where it does not.
    pub fn codegen_simd_compare(&mut self, op: &str, a: ValueRef, b: ValueRef, dest: ValueRef, dest_layout: &Layout)
        requires
            old(self).wf(),
            old(self)@.has(a),
            old(self)@.has(b),
            old(self)@.has(dest),
        ensures
            final(self).wf(),
            final(self)@ == old(self)@.codegen_simd_compare(op@, a, b, dest, *dest_layout),
            old(self)@.within(final(self)@),
    {
        let a_ty = self.get_type(a);
        let len = self.vector_len(a_ty);
        let va = self.render(a);
        let vb = self.render(b);
        let ret_ty = layout_to_c_type(&mut self.cx, dest_layout);
        let result = self.declared_temp(ret_ty);
        let lane = LaneOp::Compare { rn: self.render(result), va, op: op.to_owned(), vb };
        self.emit_lanes(len, &lane);
        self.store(result, dest);
    }

    /// Applies an operator to the elements of two vectors.
    pub fn codegen_simd_binary(&mut self, op: &str, a: ValueRef, b: ValueRef, dest: ValueRef)
        requires
            old(self).wf(),
            old(self)@.has(a),
            old(self)@.has(b),
            old(self)@.has(dest),
        ensures
            final(self).wf(),
            final(self)@ == old(self)@.codegen_simd_binary(op@, a, b, dest),
            old(self)@.within(final(self)@),
    {
        let a_ty = self.get_type(a);
        let len = self.vector_len(a_ty);
        let va = self.render(a);
        let vb = self.render(b);
        let result = self.declared_temp(a_ty);
        let lane = LaneOp::Binary { rn: self.render(result), va, op: op.to_owned(), vb };
        self.emit_lanes(len, &lane);
        self.store(result, dest);
    }

    /// Casts the elements of a vector.
    pub fn codegen_simd_cast(&mut self, a: ValueRef, dest: ValueRef, dest_layout: &Layout)
        requires
            old(self).wf(),
            old(self)@.has(a),
            old(self)@.has(dest),
        ensures
            final(self).wf(),
            final(self)@ == old(self)@.codegen_simd_cast(a, dest, *dest_layout),
            old(self)@.within(final(self)@),
    {
        let va = self.render(a);
        let ret_ty = layout_to_c_type(&mut self.cx, dest_layout);
        let len = self.vector_len(ret_ty);
        let elem_ty = match self.get_kind(ret_ty) {
            CTypeKind::Vector { element, .. } => *element,
            _ => ret_ty,
        };
        let t = self.render_type(elem_ty);
        let result = self.declared_temp(ret_ty);
        let lane = LaneOp::Cast { rn: self.render(result), t, va };
        self.emit_lanes(len, &lane);
        self.store(result, dest);
    }

    /// The numbers that the elements of a constant vector stand for; for any
    /// other value the numbers from 0 up to `len`.
    fn shuffle_indices(&self, indices: ValueRef, len: u64) -> (r: Vec<u64>)
        requires
            self.wf(),
            self@.has(indices),
        ensures
            r@ == self@.shuffle_indices(indices, len),
    {
        let mut out: Vec<u64> = Vec::new();
        match &self.cx.get_value(indices).kind {
            CValueKind::VectorConst { elements, .. } => {
                let ghost want = self@.shuffle_indices(indices, len);
                let mut i: usize = 0;
                while i < elements.len()
                    invariant
                        i <= elements@.len(),
                        self.wf(),
                        self@.has(indices),
                        vals_below(elements@, indices.0 as int),
                        want.len() == elements@.len(),
                        forall|k: int|
                            0 <= k < elements@.len() ==> #[trigger] want[k] == index_of_const(
                                self@.cx.values[elements@[k].0 as int].kind,
                            ),
                        out@ == want.take(i as int),
                    decreases elements@.len() - i,
                {
                    let n = match self.cx.const_to_opt_uint(elements[i]) {
                        Some(n) => n,
                        None => 0,
                    };
                    out.push(n);
                    i = i + 1;
                    assert(out@ =~= want.take(i as int));
                }
                assert(out@ =~= want);
            },
            _ => {
                let mut i: u64 = 0;
                while i < len
                    invariant
                        i <= len,
                        out@ == Seq::new(i as nat, |k: int| k as u64),
                    decreases len - i,
                {
                    out.push(i);
                    i = i + 1;
                    assert(out@ =~= Seq::new(i as nat, |k: int| k as u64));
                }
            },
        }
        out
    }

    /// Emits the statements that pick the elements of a shuffle.
    fn emit_picks(&mut self, rn: &str, array: &str, indices: &Vec<u64>)
        requires
            old(self).wf(),
        ensures
            final(self).wf(),
            final(self)@ == old(self)@.emit_picks(rn@, array@, indices@, indices@.len()),
            old(self)@.within(final(self)@),
    {
        let ghost start = self@;
        let mut i: usize = 0;
        while i < indices.len()
            invariant
                i <= indices@.len(),
                self.wf(),
                self@ == start.emit_picks(rn@, array@, indices@, i as nat),
                start.within(self@),
            decreases indices@.len() - i,
        {
            let place = CExpr::Raw(
                rn.to_owned().concat(".v[").concat(&dec_usize(i)).concat("]"),
            );
            let from = CExpr::index(CExpr::var(array), CExpr::Lit(dec_u64(indices[i])));
            self.emit(CStmt::assign(place, from));
            i = i + 1;
        }
    }

    /// Picks elements of two vectors by constant numbers: both are copied into one
    /// array.
    pub fn codegen_simd_shuffle(&mut self, in_vec: ValueRef, in_vec2: ValueRef, indices: ValueRef, dest: ValueRef, dest_layout: &Layout)
        requires
            old(self).wf(),
            old(self)@.has(in_vec),
            old(self)@.has(in_vec2),
            old(self)@.has(indices),
            old(self)@.has(dest),
            vec_len(old(self)@.kind_of(in_vec)) * 2 <= u64::MAX,
        ensures
            final(self).wf(),
            final(self)@ == old(self)@.codegen_simd_shuffle(in_vec, in_vec2, indices, dest, *dest_layout),
            old(self)@.within(final(self)@),
    {
        let in_ty = self.get_type(in_vec);
        let in_len = self.vector_len(in_ty);
        let elem_ty = match self.get_kind(in_ty) {
            CTypeKind::Vector { element, .. } => *element,
            _ => in_ty,
        };
        let ret_ty = layout_to_c_type(&mut self.cx, dest_layout);
        let out_len = self.vector_len(ret_ty);
        let total = dec_u64(in_len * 2);
        let n = dec_u64(in_len);
        let v1 = self.render(in_vec);
        let v2 = self.render(in_vec2);
        let t = self.render_type(elem_ty);
        let picks = self.shuffle_indices(indices, out_len);
        let arr_temp = self.new_temp(elem_ty);
        let array = self.render(arr_temp).concat("_shuf");
        let decl = t.clone().concat(" ").concat(&array).concat("[").concat(&total).concat("];");
        self.add_local_decl(decl);
        self.emit(CStmt::Raw(render_gather(&array, "0", &v1, &n, &t)));
        self.emit(CStmt::Raw(render_gather(&array, &n, &v2, &n, &t)));
        let result = self.declared_temp(ret_ty);
        let rn = self.render(result);
        self.emit_picks(&rn, &array, &picks);
        self.store(result, dest);
    }
}

} // verus!
