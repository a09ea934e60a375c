//! Statics: how they are declared, and how memory with pointers in it is cut
//! into the fields of a C structure.
use vstd::prelude::*;

use crate::context::{asm_text, sanitized, CodegenCx, Cx, Linkage};
use crate::text::{dec, has_prefix, dec_usize, hex_bytes, hex_list, join, join_strings, texts, Text};
use crate::types::Kind;
use crate::values::{CValueKind, ValKind, ValueRef};

verus! {

/// Where the pointers of a static's initial value are.
#[derive(Debug)]
pub struct InitShape {
    /// The size in bytes.
    pub len: usize,
    /// The offsets of the pointers.
    pub relocs: Vec<usize>,
}

/// A static of the program.
#[derive(Debug)]
pub struct StaticRef {
    /// The number of the definition.
    pub id: u64,
    pub sym: String,
    pub import_linkage: Option<Linkage>,
    pub thread_local: bool,
    /// Whether the static is declared in a foreign block.
    pub foreign: bool,
    /// The shape of the initial value, where it can be evaluated.
    pub shape: Option<InitShape>,
}

/// Whether a static is imported weakly.
pub open spec fn is_weak(s: StaticRef) -> bool {
    s.import_linkage == Some(Linkage::ExternalWeak)
}

/// Whether a pointer at each of these offsets ends within the address space.
pub open spec fn offsets_ok(relocs: Seq<usize>, ptr: u64) -> bool {
    forall|i: int| 0 <= i < relocs.len() ==> #[trigger] relocs[i] + ptr <= usize::MAX
}

impl StaticRef {
    pub open spec fn wf(&self, ptr: u64) -> bool {
        self.shape matches Some(shape) ==> offsets_ok(shape.relocs@, ptr)
    }
}

// --- Memory as the fields of a structure ---

/// A part of a piece of memory.
#[derive(Clone, Copy, PartialEq, Eq, Structural, Debug)]
pub enum Piece {
    /// Plain bytes.
    Bytes { from: usize, to: usize },
    /// A pointer, by its place in the list of pointers.
    Ptr { index: usize },
}

/// Where the first `n` pointers end.
pub open spec fn end_of(relocs: Seq<usize>, n: nat, ptr: u64) -> int {
    if n == 0 {
        0
    } else {
        relocs[n - 1] + ptr
    }
}

/// The parts up to the end of the first `n` pointers.
pub open spec fn pieces_upto(relocs: Seq<usize>, n: nat, ptr: u64) -> Seq<Piece>
    decreases n,
{
    if n == 0 {
        Seq::empty()
    } else {
        let before = pieces_upto(relocs, (n - 1) as nat, ptr);
        let pos = end_of(relocs, (n - 1) as nat, ptr);
        let at = Piece::Ptr { index: (n - 1) as usize };
        if relocs[n - 1] > pos {
            before.push(Piece::Bytes { from: pos as usize, to: relocs[n - 1] }).push(at)
        } else {
            before.push(at)
        }
    }
}

/// The parts of `len` bytes of memory.
pub open spec fn pieces(len: usize, relocs: Seq<usize>, ptr: u64) -> Seq<Piece> {
    let upto = pieces_upto(relocs, relocs.len(), ptr);
    let pos = end_of(relocs, relocs.len(), ptr);
    if pos < len {
        upto.push(Piece::Bytes { from: pos as usize, to: len })
    } else {
        upto
    }
}

/// The field of a part.
pub open spec fn field_text(i: int, p: Piece) -> Text {
    match p {
        Piece::Bytes { from, to } => "unsigned char f"@ + dec(i as nat) + "["@ + dec(
            (to - from) as nat,
        ) + "]"@,
        Piece::Ptr { .. } => "void *f"@ + dec(i as nat),
    }
}

/// The fields of a list of parts.
pub open spec fn field_texts(ps: Seq<Piece>) -> Seq<Text> {
    ps.map(|i: int, p: Piece| field_text(i, p))
}

/// The initialiser of a part, given the bytes and what the pointers point to.
pub open spec fn init_text(i: int, p: Piece, bytes: Seq<u8>, targets: Seq<Text>) -> Text {
    match p {
        Piece::Bytes { from, to } => ".f"@ + dec(i as nat) + " = { "@ + hex_list(
            bytes.subrange(from as int, to as int),
        ) + " }"@,
        Piece::Ptr { index } => ".f"@ + dec(i as nat) + " = "@ + targets[index as int],
    }
}

/// The initialisers of a list of parts.
pub open spec fn init_texts(ps: Seq<Piece>, bytes: Seq<u8>, targets: Seq<Text>) -> Seq<Text> {
    ps.map(|i: int, p: Piece| init_text(i, p, bytes, targets))
}

/// The storage class of a static.
pub open spec fn tls_text(thread_local: bool) -> Text {
    if thread_local {
        "_Thread_local "@
    } else {
        Seq::empty()
    }
}

/// The declaration of a static that is imported weakly.
pub open spec fn weak_decl(c_name: Text, original: Text) -> Text {
    "#pragma weak "@ + c_name + "\nvoid "@ + c_name + "(void)"@ + asm_text(original, c_name)
        + ";"@
}

/// The declaration of a static as bytes.
pub open spec fn bytes_decl(c_name: Text, original: Text, tls: Text) -> Text {
    "extern "@ + tls + "uint8_t "@ + c_name + "[]"@ + asm_text(original, c_name) + ";"@
}

/// The declaration of a static as a structure of bytes and pointers.
pub open spec fn shaped_decl(c_name: Text, original: Text, tls: Text) -> Text {
    "extern "@ + tls + "struct _gs_"@ + c_name + " "@ + c_name + asm_text(original, c_name)
        + ";"@
}

/// A list of texts, each with something before and after it.
pub open spec fn wrapped(list: Seq<Text>, before: Text, after: Text) -> Seq<Text> {
    list.map_values(|t: Text| before + t + after)
}

/// What the operations on statics do.
impl Cx {
    /// Defines the structure of a static with pointers in it and declares the
    /// static, unless it was declared before.
    pub open spec fn struct_decl(
        self,
        c_name: Text,
        original: Text,
        len: usize,
        relocs: Seq<usize>,
        tls: Text,
    ) -> Cx {
        if self.module.declared_extern_globals.contains(c_name) {
            self
        } else {
            let fields = field_texts(pieces(len, relocs, self.ptr_bytes));
            let c1 = self.struct_def(
                "#pragma pack(push, 1)\nstruct _gs_"@ + c_name + " { "@ + join(
                    wrapped(fields, Seq::empty(), ";"@),
                    " "@,
                ) + " };\n#pragma pack(pop)"@,
            );
            c1.with_module(c1.module.global_decl(c_name, shaped_decl(c_name, original, tls)))
        }
    }

    /// The same for an initial value that may be missing: nothing is declared
    /// for it.
    pub open spec fn struct_fwd_decl(
        self,
        c_name: Text,
        original: Text,
        shape: Option<InitShape>,
        tls: Text,
    ) -> Cx {
        match shape {
            Some(s) => self.struct_decl(c_name, original, s.len, s.relocs@, tls),
            None => self,
        }
    }

    /// Declares a static.
    pub open spec fn extern_static_decl(self, c_name: Text, original: Text, s: StaticRef) -> Cx {
        let tls = tls_text(s.thread_local);
        if is_weak(s) {
            self.with_module(self.module.global_decl(c_name, weak_decl(c_name, original)))
        } else if self.module.declared_globals.contains(c_name) && !s.foreign && (s.shape matches
            Some(shape) && shape.relocs@.len() > 0) {
            self.struct_fwd_decl(c_name, original, s.shape, tls)
        } else {
            self.with_module(self.module.global_decl(c_name, bytes_decl(c_name, original, tls)))
        }
    }

    /// Adds the address of a static and caches it.
    pub open spec fn static_addr(self, id: u64, c_name: Text) -> (Cx, ValueRef) {
        let (c1, ptr) = self.interns(Kind::Ptr);
        let v = c1.next();
        (c1.value(ValKind::Global { name: "&"@ + c_name }, ptr).static_value(id, v), v)
    }

    /// Looks a static up. The first time it is declared and its address added.
    pub open spec fn get_static(self, s: StaticRef) -> (Cx, ValueRef) {
        if self.statics.contains_key(s.id) {
            (self, self.statics[s.id])
        } else {
            let c_name = sanitized(s.sym@);
            let (c1, ptr) = self.interns(Kind::Ptr);
            let c2 = c1.extern_static_decl(c_name, s.sym@, s);
            let v = c2.next();
            let kind = if is_weak(s) {
                ValKind::InlineExpr("(void *)&(void *){"@ + c_name + "}"@)
            } else {
                ValKind::Global { name: "&"@ + c_name }
            };
            (c2.value(kind, ptr).static_value(s.id, v), v)
        }
    }
}

/// Cuts memory into its parts.
pub fn cut_pieces(len: usize, relocs: &Vec<usize>, ptr: u64) -> (r: Vec<Piece>)
    requires
        offsets_ok(relocs@, ptr),
        ptr == 4 || ptr == 8,
    ensures
        r@ == pieces(len, relocs@, ptr),
        bytes_ordered(r@),
{
    let mut out: Vec<Piece> = Vec::new();
    let mut pos: usize = 0;
    let mut i: usize = 0;
    while i < relocs.len()
        invariant
            i <= relocs@.len(),
            offsets_ok(relocs@, ptr),
            ptr == 4 || ptr == 8,
            pos == end_of(relocs@, i as nat, ptr),
            out@ == pieces_upto(relocs@, i as nat, ptr),
            bytes_ordered(out@),
        decreases relocs@.len() - i,
    {
        let off = relocs[i];
        assert(relocs@[i as int] + ptr <= usize::MAX);
        if off > pos {
            out.push(Piece::Bytes { from: pos, to: off });
        }
        out.push(Piece::Ptr { index: i });
        pos = off + ptr as usize;
        i = i + 1;
    }
    if pos < len {
        out.push(Piece::Bytes { from: pos, to: len });
    }
    out
}

/// Whether every part of plain bytes is in order.
pub open spec fn bytes_ordered(ps: Seq<Piece>) -> bool {
    forall|i: int|
        0 <= i < ps.len() ==> (#[trigger] ps[i] matches Piece::Bytes { from, to } ==> from < to)
}

/// Whether every part is within `len` bytes and `n` pointers.
pub open spec fn pieces_within(ps: Seq<Piece>, len: int, n: int) -> bool {
    forall|i: int|
        0 <= i < ps.len() ==> (match #[trigger] ps[i] {
            Piece::Bytes { from, to } => to <= len,
            Piece::Ptr { index } => index < n,
        })
}

proof fn upto_is_within(relocs: Seq<usize>, n: nat, ptr: u64, len: int)
    requires
        n <= relocs.len() <= usize::MAX,
        offsets_ok(relocs, ptr),
        forall|i: int| 0 <= i < relocs.len() ==> #[trigger] relocs[i] + ptr <= len,
    ensures
        bytes_ordered(pieces_upto(relocs, n, ptr)),
        pieces_within(pieces_upto(relocs, n, ptr), len, relocs.len() as int),
    decreases n,
{
    if n > 0 {
        upto_is_within(relocs, (n - 1) as nat, ptr, len);
        assert(relocs[n - 1] + ptr <= len);
        if n > 1 {
            assert(relocs[n - 2] + ptr <= usize::MAX);
        }
    }
}

/// The parts of memory lie within it: every part of plain bytes is not empty
/// and ends within the memory, and every pointer is one of the list.
pub proof fn pieces_are_within(len: usize, relocs: Seq<usize>, ptr: u64)
    requires
        relocs.len() <= usize::MAX,
        forall|i: int| 0 <= i < relocs.len() ==> #[trigger] relocs[i] + ptr <= len,
    ensures
        bytes_ordered(pieces(len, relocs, ptr)),
        pieces_within(pieces(len, relocs, ptr), len as int, relocs.len() as int),
{
    upto_is_within(relocs, relocs.len(), ptr, len as int);
    if relocs.len() > 0 {
        assert(relocs[relocs.len() - 1] + ptr <= len);
    }
}

/// Writes the fields of a list of parts.
pub fn render_fields(ps: &Vec<Piece>) -> (r: Vec<String>)
    requires
        bytes_ordered(ps@),
    ensures
        texts(r@) == field_texts(ps@),
{
    let mut out: Vec<String> = Vec::new();
    let mut i: usize = 0;
    while i < ps.len()
        invariant
            i <= ps@.len(),
            bytes_ordered(ps@),
            out@.len() == i,
            forall|k: int| 0 <= k < i ==> (#[trigger] out@[k])@ == field_text(k, ps@[k]),
        decreases ps@.len() - i,
    {
        let n = dec_usize(i);
        let text = match ps[i] {
            Piece::Bytes { from, to } => {
                assert(ps@[i as int] is Bytes);
                "unsigned char f".to_owned().concat(&n).concat("[").concat(
                    &dec_usize(to - from),
                ).concat("]")
            },
            Piece::Ptr { .. } => "void *f".to_owned().concat(&n),
        };
        out.push(text);
        i = i + 1;
    }
    assert(texts(out@) =~= field_texts(ps@));
    out
}

/// Writes the initialisers of a list of parts.
pub fn render_inits(ps: &Vec<Piece>, bytes: &Vec<u8>, targets: &Vec<String>) -> (r: Vec<String>)
    requires
        bytes_ordered(ps@),
        pieces_within(ps@, bytes@.len() as int, targets@.len() as int),
    ensures
        texts(r@) == init_texts(ps@, bytes@, texts(targets@)),
{
    let mut out: Vec<String> = Vec::new();
    let mut i: usize = 0;
    while i < ps.len()
        invariant
            i <= ps@.len(),
            bytes_ordered(ps@),
            pieces_within(ps@, bytes@.len() as int, targets@.len() as int),
            out@.len() == i,
            forall|k: int|
                0 <= k < i ==> (#[trigger] out@[k])@ == init_text(
                    k,
                    ps@[k],
                    bytes@,
                    texts(targets@),
                ),
        decreases ps@.len() - i,
    {
        let n = dec_usize(i);
        assert(pieces_within(ps@, bytes@.len() as int, targets@.len() as int));
        let text = match ps[i] {
            Piece::Bytes { from, to } => {
                assert(ps@[i as int] is Bytes);
                ".f".to_owned().concat(&n).concat(" = { ").concat(
                    &hex_bytes(bytes, from, to),
                ).concat(" }")
            },
            Piece::Ptr { index } => {
                assert(ps@[i as int] is Ptr);
                ".f".to_owned().concat(&n).concat(" = ").concat(&targets[index])
            },
        };
        out.push(text);
        i = i + 1;
    }
    assert(texts(out@) =~= init_texts(ps@, bytes@, texts(targets@)));
    out
}

/// Puts something before and after each text of a list.
pub fn wrap_all(list: &Vec<String>, before: &str, after: &str) -> (r: Vec<String>)
    ensures
        texts(r@) == wrapped(texts(list@), before@, after@),
{
    let mut out: Vec<String> = Vec::new();
    let mut i: usize = 0;
    while i < list.len()
        invariant
            i <= list@.len(),
            out@.len() == i,
            forall|k: int|
                0 <= k < i ==> (#[trigger] out@[k])@ == before@ + list@[k]@ + after@,
        decreases list@.len() - i,
    {
        out.push(before.to_owned().concat(&list[i]).concat(after));
        i = i + 1;
    }
    assert(texts(out@) =~= wrapped(texts(list@), before@, after@));
    out
}

/// Writes the storage class of a static.
pub fn render_tls(thread_local: bool) -> (r: String)
    ensures
        r@ == tls_text(thread_local),
{
    if thread_local {
        "_Thread_local ".to_owned()
    } else {
        String::new()
    }
}

impl CodegenCx {
    /// Defines the structure of a static with pointers in it and declares the
    /// static, unless it was declared before. The definition of the static uses
    /// the same structure.
    pub fn emit_static_struct_fwd_decl(
        &mut self,
        c_name: &str,
        original_name: &str,
        shape: &Option<InitShape>,
        tls: &str,
    )
        requires
            old(self).wf(),
            shape matches Some(s) ==> offsets_ok(s.relocs@, old(self)@.ptr_bytes),
        ensures
            final(self).wf(),
            final(self)@ == old(self)@.struct_fwd_decl(c_name@, original_name@, *shape, tls@),
            old(self)@.within(final(self)@),
    {
        if let Some(shape) = shape {
            if self.has_global_decl(c_name) {
                return;
            }
            let ptr = self.pointer_size();
            let ps = cut_pieces(shape.len, &shape.relocs, ptr);
            let fields = render_fields(&ps);
            let closed = wrap_all(&fields, "", ";");
            proof {
                reveal_strlit("");
                assert(""@ =~= Seq::<char>::empty());
            }
            let fields_str = join_strings(&closed, " ");
            let def = "#pragma pack(push, 1)\nstruct _gs_".to_owned().concat(c_name).concat(
                " { ",
            ).concat(&fields_str).concat(" };\n#pragma pack(pop)");
            self.push_struct(def);
            let suffix = CodegenCx::asm_label(original_name, c_name);
            let decl = "extern ".to_owned().concat(tls).concat("struct _gs_").concat(
                c_name,
            ).concat(" ").concat(c_name).concat(&suffix).concat(";");
            self.add_global_decl(c_name, decl);
        }
    }

    /// Declares a static: as a weak function where it is imported weakly, as
    /// the structure of its definition where this unit defines it with pointers
    /// in it, else as an array of bytes.
    pub fn emit_extern_static_decl(&mut self, c_name: &str, original_name: &str, s: &StaticRef)
        requires
            old(self).wf(),
            s.wf(old(self)@.ptr_bytes),
        ensures
            final(self).wf(),
            final(self)@ == old(self)@.extern_static_decl(c_name@, original_name@, *s),
            old(self)@.within(final(self)@),
    {
        let suffix = CodegenCx::asm_label(original_name, c_name);
        if CodegenCx::is_extern_weak(s.import_linkage) {
            let decl = "#pragma weak ".to_owned().concat(c_name).concat("\nvoid ").concat(
                c_name,
            ).concat("(void)").concat(&suffix).concat(";");
            self.add_global_decl(c_name, decl);
            return;
        }
        let tls = render_tls(s.thread_local);
        let has_relocs = match &s.shape {
            Some(shape) => shape.relocs.len() > 0,
            None => false,
        };
        if self.defines_global(c_name) && !s.foreign && has_relocs {
            self.emit_static_struct_fwd_decl(c_name, original_name, &s.shape, &tls);
        } else {
            let decl = "extern ".to_owned().concat(&tls).concat("uint8_t ").concat(c_name).concat(
                "[]",
            ).concat(&suffix).concat(";");
            self.add_global_decl(c_name, decl);
        }
    }

    /// Adds the address of a static that this unit defines and caches it.
    pub fn add_static_addr(&mut self, id: u64, c_name: &str) -> (r: ValueRef)
        requires
            old(self).wf(),
        ensures
            final(self).wf(),
            (final(self)@, r) == old(self)@.static_addr(id, c_name@),
            final(self)@.has(r),
            old(self)@.within(final(self)@),
    {
        let ptr_ty = self.type_ptr();
        let name = "&".to_owned().concat(c_name);
        let v = self.intern_value(CValueKind::Global { name }, ptr_ty);
        self.cache_static(id, v);
        v
    }

    /// Predefines a static: its address is cached, and the name is taken so
    /// that no conflicting declaration is made.
    pub fn predefine_static(&mut self, id: u64, symbol_name: &str)
        requires
            old(self).wf(),
        ensures
            final(self).wf(),
            final(self)@ == old(self)@.static_addr(id, sanitized(symbol_name@)).0.mark(
                sanitized(symbol_name@),
            ),
            old(self)@.within(final(self)@),
    {
        let c_name = CodegenCx::sanitize_name(symbol_name);
        self.add_static_addr(id, &c_name);
        self.mark_global(&c_name);
    }

    /// The address of a static, which is declared the first time it is asked
    /// for. A weakly imported static is declared as a function: its value is
    /// the address of a place that holds the function's address.
    pub fn get_static(&mut self, s: &StaticRef) -> (r: ValueRef)
        requires
            old(self).wf(),
            s.wf(old(self)@.ptr_bytes),
        ensures
            final(self).wf(),
            (final(self)@, r) == old(self)@.get_static(*s),
            final(self)@.has(r),
            old(self)@.within(final(self)@),
    {
        if let Some(v) = self.cached_static(s.id) {
            return v;
        }
        let c_name = CodegenCx::sanitize_name(&s.sym);
        let ptr_ty = self.type_ptr();
        self.emit_extern_static_decl(&c_name, &s.sym, s);
        let kind = if CodegenCx::is_extern_weak(s.import_linkage) {
            CValueKind::InlineExpr(
                "(void *)&(void *){".to_owned().concat(&c_name).concat("}"),
            )
        } else {
            CValueKind::Global { name: "&".to_owned().concat(&c_name) }
        };
        let v = self.intern_value(kind, ptr_ty);
        self.cache_static(s.id, v);
        v
    }
}

// --- Laws ---

/// Where a part begins.
pub open spec fn piece_start(p: Piece, relocs: Seq<usize>) -> int {
    match p {
        Piece::Bytes { from, .. } => from as int,
        Piece::Ptr { index } => relocs[index as int] as int,
    }
}

/// Where a part ends.
pub open spec fn piece_end(p: Piece, relocs: Seq<usize>, ptr: u64) -> int {
    match p {
        Piece::Bytes { to, .. } => to as int,
        Piece::Ptr { index } => relocs[index as int] + ptr,
    }
}

/// Whether parts lie one after the other, from the beginning up to `end`.
pub open spec fn tiles(ps: Seq<Piece>, relocs: Seq<usize>, ptr: u64, end: int) -> bool {
    &&& ps.len() == 0 ==> end == 0
    &&& ps.len() > 0 ==> piece_start(ps[0], relocs) == 0 && piece_end(
        ps.last(),
        relocs,
        ptr,
    ) == end
    &&& forall|i: int, j: int|
        0 <= i && j == i + 1 && j < ps.len() ==> piece_end(#[trigger] ps[i], relocs, ptr)
            == piece_start(#[trigger] ps[j], relocs)
}

/// Whether pointers lie one behind the other in memory.
pub open spec fn pointers_in_order(relocs: Seq<usize>, ptr: u64) -> bool {
    forall|i: int, j: int|
        0 <= i && j == i + 1 && j < relocs.len() ==> #[trigger] relocs[i] + ptr
            <= #[trigger] relocs[j]
}

proof fn tiles_push(ps: Seq<Piece>, p: Piece, relocs: Seq<usize>, ptr: u64, at: int)
    requires
        tiles(ps, relocs, ptr, at),
        piece_start(p, relocs) == at,
    ensures
        tiles(ps.push(p), relocs, ptr, piece_end(p, relocs, ptr)),
{
    let after = ps.push(p);
    assert forall|i: int, j: int| 0 <= i && j == i + 1 && j < after.len() implies piece_end(
        #[trigger] after[i],
        relocs,
        ptr,
    ) == piece_start(#[trigger] after[j], relocs) by {
        if j < ps.len() {
            assert(piece_end(ps[i], relocs, ptr) == piece_start(ps[j], relocs));
        }
    }
}

proof fn upto_tiles(relocs: Seq<usize>, n: nat, ptr: u64)
    requires
        n <= relocs.len() <= usize::MAX,
        offsets_ok(relocs, ptr),
        pointers_in_order(relocs, ptr),
    ensures
        tiles(pieces_upto(relocs, n, ptr), relocs, ptr, end_of(relocs, n, ptr)),
    decreases n,
{
    if n > 0 {
        upto_tiles(relocs, (n - 1) as nat, ptr);
        let before = pieces_upto(relocs, (n - 1) as nat, ptr);
        let pos = end_of(relocs, (n - 1) as nat, ptr);
        let at = Piece::Ptr { index: (n - 1) as usize };
        if n > 1 {
            assert(relocs[n - 2] + ptr <= relocs[n - 1]);
        }
        if relocs[n - 1] > pos {
            let pad = Piece::Bytes { from: pos as usize, to: relocs[n - 1] };
            tiles_push(before, pad, relocs, ptr, pos);
            tiles_push(before.push(pad), at, relocs, ptr, relocs[n - 1] as int);
        } else {
            tiles_push(before, at, relocs, ptr, pos);
        }
    }
}

/// The fields of a structure that stands for memory cover the memory: they lie
/// one after the other without a gap, from its beginning to its end.
pub proof fn pieces_tile_the_memory(len: usize, relocs: Seq<usize>, ptr: u64)
    requires
        relocs.len() <= usize::MAX,
        forall|i: int| 0 <= i < relocs.len() ==> #[trigger] relocs[i] + ptr <= len,
        pointers_in_order(relocs, ptr),
    ensures
        tiles(pieces(len, relocs, ptr), relocs, ptr, len as int),
{
    upto_tiles(relocs, relocs.len(), ptr);
    let upto = pieces_upto(relocs, relocs.len(), ptr);
    let pos = end_of(relocs, relocs.len(), ptr);
    if relocs.len() > 0 {
        assert(relocs[relocs.len() - 1] + ptr <= len);
    }
    if pos < len {
        tiles_push(upto, Piece::Bytes { from: pos as usize, to: len }, relocs, ptr, pos);
    }
}

/// The structure by which a static is declared has a field for each initialiser
/// of its definition, with the same name.
pub proof fn fields_match_initialisers(
    len: usize,
    relocs: Seq<usize>,
    ptr: u64,
    bytes: Seq<u8>,
    targets: Seq<Text>,
)
    ensures
        ({
            let ps = pieces(len, relocs, ptr);
            let fields = field_texts(ps);
            let inits = init_texts(ps, bytes, targets);
            &&& fields.len() == inits.len()
            &&& forall|i: int| #![trigger inits[i]]
                0 <= i < fields.len() ==> has_prefix(inits[i], ".f"@ + dec(i as nat) + " = "@) && (
                has_prefix(fields[i], "unsigned char f"@ + dec(i as nat)) || fields[i]
                    == "void *f"@ + dec(i as nat))
        }),
{
    let ps = pieces(len, relocs, ptr);
    let fields = field_texts(ps);
    let inits = init_texts(ps, bytes, targets);
    reveal_strlit(" = { ");
    reveal_strlit(" = ");
    assert(" = { "@ =~= " = "@ + "{ "@) by {
        reveal_strlit("{ ");
    }
    assert forall|i: int| #![trigger inits[i]] 0 <= i < fields.len() implies has_prefix(
        inits[i],
        ".f"@ + dec(i as nat) + " = "@,
    ) && (has_prefix(fields[i], "unsigned char f"@ + dec(i as nat)) || fields[i] == "void *f"@
        + dec(i as nat)) by {
        let head = ".f"@ + dec(i as nat) + " = "@;
        match ps[i] {
            Piece::Bytes { from, to } => {
                let list = hex_list(bytes.subrange(from as int, to as int));
                assert(inits[i] =~= head + ("{ "@ + list + " }"@));
                assert(inits[i].take(head.len() as int) =~= head);
                let name = "unsigned char f"@ + dec(i as nat);
                assert(fields[i].take(name.len() as int) =~= name);
            },
            Piece::Ptr { index } => {
                assert(inits[i].take(head.len() as int) =~= head);
            },
        }
    }
}

/// A static is declared once: a second declaration changes nothing.
pub proof fn statics_are_declared_once(c: Cx, c_name: Text, original: Text, s: StaticRef)
    ensures
        ({
            let c1 = c.extern_static_decl(c_name, original, s);
            c1.extern_static_decl(c_name, original, s) == c1
        }),
{
}

/// A static that was looked up is found again: the second time the same value
/// is given and nothing is added or declared.
pub proof fn get_static_is_cached(c: Cx, s: StaticRef)
    ensures
        ({
            let (c1, v) = c.get_static(s);
            c1.get_static(s) == (c1, v)
        }),
{
}

/// A static that this unit predefined is found without being declared.
pub proof fn predefined_statics_are_found(c: Cx, s: StaticRef)
    ensures
        ({
            let (c1, v) = c.static_addr(s.id, sanitized(s.sym@));
            let c2 = c1.mark(sanitized(s.sym@));
            c2.get_static(s) == (c2, v)
        }),
{
}

} // verus!
