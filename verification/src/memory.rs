//! Constant memory: how allocations, scalars and statics are written as C data.
use vstd::prelude::*;

use crate::consts::{sign_extend_to_i128, signed_value, widen_float, widened};
use crate::context::{asm_text, sanitized, CodegenCx, Cx};
use crate::declare::FnRef;
use crate::layout::{Layout, Primitive, Scalar};
use crate::statics::{
    cut_pieces, field_texts, init_texts, is_weak, pieces, pieces_are_within, render_fields,
    render_inits, render_tls, tls_text, wrap_all, wrapped, InitShape, StaticRef,
};
use crate::text::{
    dec, dec_u64, dec_usize, decimal, hex_bytes, hex_list, join, join_strings, texts, Text,
};
use crate::type_of::layout_to_c_type;
use crate::types::{CTypeKind, Kind, TypeRef};
use crate::values::{CValueKind, ValKind, ValueRef};

verus! {

/// What a pointer in constant memory points to.
#[derive(Debug)]
pub enum GlobalRef {
    Function(FnRef),
    Static(StaticRef),
    /// Other constant memory; also a table of a trait's functions.
    Memory(Alloc),
    /// A number that identifies a type, held in the pointer's offset.
    TypeId,
}

/// A pointer in constant memory.
#[derive(Debug)]
pub struct Reloc {
    /// Where in the memory the pointer is.
    pub offset: usize,
    pub target: GlobalRef,
}

/// Constant memory.
#[derive(Debug)]
pub struct Alloc {
    /// The bytes. Where a pointer is, they hold the offset from its target.
    pub bytes: Vec<u8>,
    /// The alignment in bytes.
    pub align: u64,
    pub relocs: Vec<Reloc>,
}

/// A constant scalar.
#[derive(Debug)]
pub enum ConstScalar {
    /// Given by its bits.
    Int(u128),
    /// An address at an offset.
    Ptr { target: GlobalRef, offset: u64 },
}

/// The offsets of the pointers of a piece of memory.
pub open spec fn offsets(relocs: Seq<Reloc>) -> Seq<usize> {
    relocs.map_values(|r: Reloc| r.offset)
}

/// Whether what a pointer points to is well formed.
pub open spec fn global_ok(g: GlobalRef, ptr: u64) -> bool
    decreases g, 0nat,
{
    match g {
        GlobalRef::Function(f) => f.abi.wf(),
        GlobalRef::Static(s) => s.wf(ptr),
        GlobalRef::Memory(a) => alloc_ok(a, ptr),
        GlobalRef::TypeId => true,
    }
}

/// Whether every pointer of a piece of memory lies in it and points to
/// something well formed.
pub open spec fn alloc_ok(a: Alloc, ptr: u64) -> bool
    decreases a, 1nat,
{
    forall|i: int|
        0 <= i < a.relocs@.len() ==> (#[trigger] a.relocs@[i]).offset + ptr <= a.bytes@.len()
            && global_ok(a.relocs@[i].target, ptr)
}

/// The number that `n` bytes from `at` hold, lowest byte first.
pub open spec fn le_number(bytes: Seq<u8>, at: int, n: nat) -> nat
    decreases n,
{
    if n == 0 {
        0
    } else {
        bytes[at] as nat + 256 * le_number(bytes, at + 1, (n - 1) as nat)
    }
}

/// The address of a function, at an offset.
pub open spec fn fn_target(name: Text, off: nat) -> Text {
    if off != 0 {
        "(void *)((char *)(void (*)(void))"@ + name + " + "@ + dec(off) + ")"@
    } else {
        "(void *)(void (*)(void))"@ + name
    }
}

/// The address of a static, at an offset.
pub open spec fn static_target(name: Text, weak: bool, off: nat) -> Text {
    if weak {
        "(void *)"@ + name
    } else if off != 0 {
        "(void *)((char *)&"@ + name + " + "@ + dec(off) + ")"@
    } else {
        "(void *)&"@ + name
    }
}

/// The address of constant memory, at an offset.
pub open spec fn memory_target(name: Text, off: nat) -> Text {
    if off != 0 {
        "(void *)((char *)"@ + name + " + "@ + dec(off) + ")"@
    } else {
        "(void *)"@ + name
    }
}

/// A number as an address.
pub open spec fn number_target(n: nat) -> Text {
    "(void *)(__rustc_usize)"@ + dec(n) + "ULL"@
}

/// The alignment of a definition, where it is more than one byte.
pub open spec fn align_text(align: u64) -> Text {
    if align > 1 {
        "_Alignas("@ + dec(align as nat) + ") "@
    } else {
        Seq::empty()
    }
}

/// The definition of constant memory without pointers.
pub open spec fn plain_data(name: Text, bytes: Seq<u8>, align: u64) -> Text {
    align_text(align) + "static const unsigned char "@ + name + "[] = { "@ + hex_list(bytes)
        + " };"@
}

/// The definition of constant memory with pointers.
pub open spec fn struct_data(name: Text, a: Alloc, targets: Seq<Text>, ptr: u64) -> Text {
    let ps = pieces(a.bytes@.len() as usize, offsets(a.relocs@), ptr);
    "#pragma pack(push, 1)\nstatic const struct { "@ + join(
        wrapped(field_texts(ps), "  "@, ";"@),
        " "@,
    ) + " } "@ + name + " = { "@ + join(
        wrapped(init_texts(ps, a.bytes@, targets), "  "@, Seq::empty()),
        ", "@,
    ) + " };\n#pragma pack(pop)"@
}

/// What the operations on constant memory do.
impl Cx {
    /// Makes what a pointer points to known, and gives the pointer's text.
    pub open spec fn target(self, g: GlobalRef, off: nat) -> (Cx, Text)
        decreases g, 0nat, 0nat,
    {
        match g {
            GlobalRef::Function(f) => (self.get_fn(f).0, fn_target(sanitized(f.sym@), off)),
            GlobalRef::Static(s) => (
                self.extern_static_decl(sanitized(s.sym@), s.sym@, s),
                static_target(sanitized(s.sym@), is_weak(s), off),
            ),
            GlobalRef::Memory(a) => {
                let (c1, v) = self.alloc_data(a);
                (c1, memory_target(c1.text(v), off))
            },
            GlobalRef::TypeId => (self, number_target(off)),
        }
    }

    /// Makes what the first `n` pointers of a piece of memory point to known,
    /// and gives the pointers' texts.
    pub open spec fn targets(self, a: Alloc, n: nat) -> (Cx, Seq<Text>)
        decreases a, 1nat, n,
    {
        if n == 0 || n > a.relocs@.len() {
            (self, Seq::empty())
        } else {
            let (c1, list) = self.targets(a, (n - 1) as nat);
            let r = a.relocs@[n - 1];
            let (c2, t) = c1.target(
                r.target,
                le_number(a.bytes@, r.offset as int, c1.ptr_bytes as nat),
            );
            (c2, list.push(t))
        }
    }

    /// Defines constant memory and adds its address.
    pub open spec fn alloc_data(self, a: Alloc) -> (Cx, ValueRef)
        decreases a, 2nat, 0nat,
    {
        let (c1, ptr) = self.interns(Kind::Ptr);
        let name = "_bytes"@ + dec(c1.bytes as nat);
        let c2 = Cx {
            bytes: (c1.bytes + 1) as usize,
            ..c1.value(ValKind::ByteString { id: c1.bytes }, ptr)
        };
        if a.relocs@.len() == 0 {
            (c2.data(plain_data(name, a.bytes@, a.align)), c1.next())
        } else {
            let (c3, v) = c2.adds_at(ValKind::Global { name: "&"@ + name }, ptr);
            let (c4, list) = c3.targets(a, a.relocs@.len());
            (c4.data(struct_data(name, a, list, c4.ptr_bytes)), v)
        }
    }

    /// Adds an address in constant memory, at an offset.
    pub open spec fn global_addr(self, g: GlobalRef, offset: u64) -> (Cx, ValueRef) {
        match g {
            GlobalRef::Function(f) => self.get_fn(f),
            GlobalRef::Static(s) => {
                let name = sanitized(s.sym@);
                let addr = if is_weak(s) {
                    "&(void *){(void *)"@ + name + "}"@
                } else {
                    "&"@ + name
                };
                let (c1, v) = self.extern_static_decl(name, s.sym@, s).adds(
                    ValKind::Global { name: addr },
                    Kind::Ptr,
                );
                c1.ptr_offset(v, offset)
            },
            GlobalRef::Memory(a) => {
                let (c1, v) = self.alloc_data(a);
                c1.ptr_offset(v, offset)
            },
            GlobalRef::TypeId => (self, arbitrary()),
        }
    }

    /// Adds a constant scalar.
    pub open spec fn scalar_const(self, cv: ConstScalar, layout: Scalar, llty: TypeRef) -> (
        Cx,
        ValueRef,
    ) {
        match cv {
            ConstScalar::Int(data) => self.adds_at(
                scalar_value(self.kind(llty), layout, data),
                llty,
            ),
            ConstScalar::Ptr { target: GlobalRef::TypeId, offset } => self.adds_at(
                ValKind::InlineExpr(number_target(offset as nat)),
                llty,
            ),
            ConstScalar::Ptr { target, offset } => {
                let (c1, v) = self.global_addr(target, offset);
                let (c2, ptr) = c1.interns(Kind::Ptr);
                if llty != ptr {
                    c2.adds_at(
                        ValKind::InlineExpr("("@ + c2.type_str(llty) + ")"@ + c2.text(v)),
                        llty,
                    )
                } else {
                    (c2, v)
                }
            },
        }
    }
}

/// The number of bits of a scalar of `size` bytes, at most 128.
pub open spec fn size_bits(size: u64) -> nat {
    if size >= 16 {
        128
    } else {
        (size * 8) as nat
    }
}

/// How a scalar given by its bits is held. A pointer is written as a cast of the
/// number, a float by its value, a signed integer with its sign.
pub open spec fn scalar_value(k: Kind, layout: Scalar, data: u128) -> ValKind {
    if k is Ptr {
        if data <= u64::MAX {
            ValKind::InlineExpr(number_target(data as nat))
        } else {
            ValKind::InlineExpr(
                "(void *)(__rustc_usize)((unsigned __int128)"@ + dec(
                    data as nat / 0x1_0000_0000_0000_0000,
                ) + "ULL << 64 | "@ + dec(data as nat % 0x1_0000_0000_0000_0000) + "ULL)"@,
            )
        }
    } else {
        match layout.primitive {
            Primitive::Float { bits } => if bits == 32 {
                ValKind::FloatConst(widened(data as u32))
            } else if bits == 64 {
                ValKind::FloatConst(data as u64)
            } else {
                ValKind::UintConst(data)
            },
            Primitive::Int { signed: true, .. } => ValKind::IntConst(
                signed_value(data, size_bits(layout.size)) as i128,
            ),
            _ => ValKind::UintConst(data),
        }
    }
}

// --- The executable side ---

/// Reads a number, lowest byte first.
fn read_le(bytes: &Vec<u8>, at: usize, n: usize) -> (r: u64)
    requires
        n <= 8,
        at + n <= bytes@.len(),
    ensures
        r == le_number(bytes@, at as int, n as nat),
    decreases n,
{
    proof {
        le_bound(bytes@, at as int, n as nat);
    }
    if n == 0 {
        0
    } else {
        proof {
            le_bound(bytes@, at + 1, (n - 1) as nat);
            assert(at < bytes.len());
        }
        let rest = read_le(bytes, at + 1, n - 1);
        bytes[at] as u64 + 256 * rest
    }
}

/// A number of `n` bytes is below 256 to the `n`th.
proof fn le_bound(bytes: Seq<u8>, at: int, n: nat)
    requires
        n <= 8,
    ensures
        n <= 0 ==> le_number(bytes, at, n) < 1,
        n <= 1 ==> le_number(bytes, at, n) < 0x100,
        n <= 2 ==> le_number(bytes, at, n) < 0x1_0000,
        n <= 3 ==> le_number(bytes, at, n) < 0x100_0000,
        n <= 4 ==> le_number(bytes, at, n) < 0x1_0000_0000,
        n <= 5 ==> le_number(bytes, at, n) < 0x100_0000_0000,
        n <= 6 ==> le_number(bytes, at, n) < 0x1_0000_0000_0000,
        n <= 7 ==> le_number(bytes, at, n) < 0x100_0000_0000_0000,
        le_number(bytes, at, n) < 0x1_0000_0000_0000_0000,
    decreases n,
{
    if n > 0 {
        le_bound(bytes, at + 1, (n - 1) as nat);
    }
}

fn render_fn_target(name: &str, off: u64) -> (r: String)
    ensures
        r@ == fn_target(name@, off as nat),
{
    if off != 0 {
        "(void *)((char *)(void (*)(void))".to_owned().concat(name).concat(" + ").concat(
            &dec_u64(off),
        ).concat(")")
    } else {
        "(void *)(void (*)(void))".to_owned().concat(name)
    }
}

fn render_static_target(name: &str, weak: bool, off: u64) -> (r: String)
    ensures
        r@ == static_target(name@, weak, off as nat),
{
    if weak {
        "(void *)".to_owned().concat(name)
    } else if off != 0 {
        "(void *)((char *)&".to_owned().concat(name).concat(" + ").concat(&dec_u64(off)).concat(
            ")",
        )
    } else {
        "(void *)&".to_owned().concat(name)
    }
}

fn render_memory_target(name: &str, off: u64) -> (r: String)
    ensures
        r@ == memory_target(name@, off as nat),
{
    if off != 0 {
        "(void *)((char *)".to_owned().concat(name).concat(" + ").concat(&dec_u64(off)).concat(
            ")",
        )
    } else {
        "(void *)".to_owned().concat(name)
    }
}

fn render_number_target(n: u64) -> (r: String)
    ensures
        r@ == number_target(n as nat),
{
    "(void *)(__rustc_usize)".to_owned().concat(&dec_u64(n)).concat("ULL")
}

/// The offsets of the pointers of a piece of memory.
fn reloc_offsets(relocs: &Vec<Reloc>) -> (r: Vec<usize>)
    ensures
        r@ == offsets(relocs@),
{
    let mut out: Vec<usize> = Vec::new();
    let mut i: usize = 0;
    while i < relocs.len()
        invariant
            i <= relocs@.len(),
            out@ == offsets(relocs@).take(i as int),
        decreases relocs@.len() - i,
    {
        out.push(relocs[i].offset);
        i = i + 1;
        assert(out@ =~= offsets(relocs@).take(i as int));
    }
    assert(out@ =~= offsets(relocs@));
    out
}

/// Writes the definition of constant memory with pointers.
fn render_struct_data(name: &str, a: &Alloc, targets: &Vec<String>, ptr: u64) -> (r: String)
    requires
        alloc_ok(*a, ptr),
        ptr == 4 || ptr == 8,
        targets@.len() == a.relocs@.len(),
    ensures
        r@ == struct_data(name@, *a, texts(targets@), ptr),
{
    let offs = reloc_offsets(&a.relocs);
    let len = a.bytes.len();
    let count: usize = offs.len();
    proof {
        assert(offs@.len() == count);
        assert forall|i: int| 0 <= i < offs@.len() implies #[trigger] offs@[i] + ptr <= len by {
            assert(a.relocs@[i].offset + ptr <= a.bytes@.len());
        }
        pieces_are_within(len, offs@, ptr);
    }
    let ps = cut_pieces(len, &offs, ptr);
    let fields = wrap_all(&render_fields(&ps), "  ", ";");
    let inits = wrap_all(&render_inits(&ps, &a.bytes, targets), "  ", "");
    proof {
        reveal_strlit("");
        assert(""@ =~= Seq::<char>::empty());
    }
    "#pragma pack(push, 1)\nstatic const struct { ".to_owned().concat(
        &join_strings(&fields, " "),
    ).concat(" } ").concat(name).concat(" = { ").concat(&join_strings(&inits, ", ")).concat(
        " };\n#pragma pack(pop)",
    )
}

impl CodegenCx {
    /// Makes what a pointer points to known, and writes the pointer.
    fn resolve_target(&mut self, g: &GlobalRef, off: u64) -> (r: String)
        requires
            old(self).wf(),
            global_ok(*g, old(self)@.ptr_bytes),
        ensures
            final(self).wf(),
            (final(self)@, r@) == old(self)@.target(*g, off as nat),
            old(self)@.within(final(self)@),
        decreases *g, 0nat, 0nat,
    {
        match g {
            GlobalRef::Function(f) => {
                let c_name = CodegenCx::sanitize_name(&f.sym);
                let _v = self.get_fn(f);
                render_fn_target(&c_name, off)
            },
            GlobalRef::Static(s) => {
                let c_name = CodegenCx::sanitize_name(&s.sym);
                self.emit_extern_static_decl(&c_name, &s.sym, s);
                render_static_target(&c_name, CodegenCx::is_extern_weak(s.import_linkage), off)
            },
            GlobalRef::Memory(a) => {
                let inner = self.const_data_from_alloc(a);
                let inner_name = self.render_value(inner);
                render_memory_target(&inner_name, off)
            },
            GlobalRef::TypeId => render_number_target(off),
        }
    }

    /// Makes what the pointers of a piece of memory point to known, and writes
    /// the pointers.
    fn resolve_targets(&mut self, a: &Alloc) -> (r: Vec<String>)
        requires
            old(self).wf(),
            alloc_ok(*a, old(self)@.ptr_bytes),
        ensures
            final(self).wf(),
            (final(self)@, texts(r@)) == old(self)@.targets(*a, a.relocs@.len()),
            r@.len() == a.relocs@.len(),
            old(self)@.within(final(self)@),
        decreases *a, 1nat, 0nat,
    {
        let ghost start = self@;
        let ptr = self.pointer_size();
        let mut out: Vec<String> = Vec::new();
        let mut i: usize = 0;
        assert(texts(out@) =~= Seq::<Text>::empty());
        while i < a.relocs.len()
            invariant
                i <= a.relocs@.len(),
                self.wf(),
                alloc_ok(*a, ptr),
                ptr == 4 || ptr == 8,
                self@.ptr_bytes == ptr,
                start.ptr_bytes == ptr,
                (self@, texts(out@)) == start.targets(*a, i as nat),
                out@.len() == i,
                start.within(self@),
            decreases a.relocs@.len() - i,
        {
            assert(a.relocs@[i as int].offset + ptr <= a.bytes@.len());
            let off = read_le(&a.bytes, a.relocs[i].offset, ptr as usize);
            let ghost before = out@;
            let text = self.resolve_target(&a.relocs[i].target, off);
            out.push(text);
            i = i + 1;
            assert(texts(out@) =~= texts(before).push(text@));
        }
        out
    }

    /// Defines constant memory in the data section: as an array of bytes, or
    /// where there are pointers in it as a packed structure of bytes and
    /// pointers. The result is its address.
    pub fn const_data_from_alloc(&mut self, a: &Alloc) -> (r: ValueRef)
        requires
            old(self).wf(),
            alloc_ok(*a, old(self)@.ptr_bytes),
        ensures
            final(self).wf(),
            (final(self)@, r) == old(self)@.alloc_data(*a),
            final(self)@.has(r),
            old(self)@.within(final(self)@),
        decreases *a, 2nat, 0nat,
    {
        let ptr_ty = self.type_ptr();
        let name = "_bytes".to_owned().concat(&dec_usize(self.values.byte_string_counter()));
        let bytes_val = self.next_byte_string(ptr_ty);
        if a.relocs.len() == 0 {
            let n = a.bytes.len();
            let hex = hex_bytes(&a.bytes, 0, n);
            assert(a.bytes@.subrange(0, n as int) =~= a.bytes@);
            let align = if a.align > 1 {
                "_Alignas(".to_owned().concat(&dec_u64(a.align)).concat(") ")
            } else {
                String::new()
            };
            let decl = align.concat("static const unsigned char ").concat(&name).concat(
                "[] = { ",
            ).concat(&hex).concat(" };");
            self.push_data(decl);
            bytes_val
        } else {
            let val = self.intern_value(
                CValueKind::Global { name: "&".to_owned().concat(&name) },
                ptr_ty,
            );
            let targets = self.resolve_targets(a);
            let ptr = self.pointer_size();
            let decl = render_struct_data(&name, a, &targets, ptr);
            self.push_data(decl);
            val
        }
    }

    /// Adds an address in constant memory, at an offset.
    fn global_addr(&mut self, g: &GlobalRef, offset: u64) -> (r: ValueRef)
        requires
            old(self).wf(),
            global_ok(*g, old(self)@.ptr_bytes),
            !(g is TypeId),
        ensures
            final(self).wf(),
            (final(self)@, r) == old(self)@.global_addr(*g, offset),
            final(self)@.has(r),
            old(self)@.within(final(self)@),
    {
        match g {
            GlobalRef::Function(f) => self.get_fn_addr(f),
            GlobalRef::Static(s) => {
                let c_name = CodegenCx::sanitize_name(&s.sym);
                self.emit_extern_static_decl(&c_name, &s.sym, s);
                let addr = if CodegenCx::is_extern_weak(s.import_linkage) {
                    "&(void *){(void *)".to_owned().concat(&c_name).concat("}")
                } else {
                    "&".to_owned().concat(&c_name)
                };
                let ptr_ty = self.type_ptr();
                let v = self.intern_value(CValueKind::Global { name: addr }, ptr_ty);
                self.const_ptr_byte_offset(v, offset)
            },
            GlobalRef::Memory(a) => {
                let v = self.const_data_from_alloc(a);
                self.const_ptr_byte_offset(v, offset)
            },
            GlobalRef::TypeId => ValueRef(0),
        }
    }

    /// Adds a constant scalar of a layout, at a C type.
    pub fn scalar_to_backend(&mut self, cv: &ConstScalar, layout: Scalar, llty: TypeRef) -> (r:
        ValueRef)
        requires
            old(self).wf(),
            old(self)@.has_type(llty),
            layout.primitive matches Primitive::Int { signed: true, .. } ==> layout.size > 0,
            *cv matches ConstScalar::Ptr { target, .. } ==> global_ok(
                target,
                old(self)@.ptr_bytes,
            ),
        ensures
            final(self).wf(),
            (final(self)@, r) == old(self)@.scalar_const(*cv, layout, llty),
            final(self)@.has(r),
            old(self)@.within(final(self)@),
    {
        match cv {
            ConstScalar::Int(data) => {
                let data = *data;
                let is_ptr = match self.get_kind(llty) {
                    CTypeKind::Ptr => true,
                    _ => false,
                };
                let kind = if is_ptr {
                    let expr = if data <= 0xffff_ffff_ffff_ffffu128 {
                        render_number_target(data as u64)
                    } else {
                        let hi = data / 0x1_0000_0000_0000_0000u128;
                        let lo = data % 0x1_0000_0000_0000_0000u128;
                        "(void *)(__rustc_usize)((unsigned __int128)".to_owned().concat(
                            &decimal(hi),
                        ).concat("ULL << 64 | ").concat(&decimal(lo)).concat("ULL)")
                    };
                    CValueKind::InlineExpr(expr)
                } else {
                    match layout.primitive {
                        Primitive::Float { bits } => {
                            if bits == 32 {
                                CValueKind::FloatConst(widen_float(data as u32))
                            } else if bits == 64 {
                                CValueKind::FloatConst(data as u64)
                            } else {
                                CValueKind::UintConst(data)
                            }
                        },
                        Primitive::Int { signed: true, .. } => {
                            let bits: u32 = if layout.size >= 16 {
                                128
                            } else {
                                (layout.size * 8) as u32
                            };
                            CValueKind::IntConst(sign_extend_to_i128(data, bits))
                        },
                        _ => CValueKind::UintConst(data),
                    }
                };
                self.intern_value(kind, llty)
            },
            ConstScalar::Ptr { target: GlobalRef::TypeId, offset } => {
                let expr = render_number_target(*offset);
                self.intern_value(CValueKind::InlineExpr(expr), llty)
            },
            ConstScalar::Ptr { target, offset } => {
                let ptr_val = self.global_addr(target, *offset);
                let ptr_ty = self.type_ptr();
                if llty.0 != ptr_ty.0 {
                    let expr = self.render_value(ptr_val);
                    let t = self.render_type(llty);
                    let cast = "(".to_owned().concat(&t).concat(")").concat(&expr);
                    self.intern_value(CValueKind::InlineExpr(cast), llty)
                } else {
                    ptr_val
                }
            },
        }
    }
}

// --- Definitions of statics ---

/// A static that this unit defines.
#[derive(Debug)]
pub struct StaticDef {
    /// The number of the definition.
    pub id: u64,
    pub sym: String,
    pub thread_local: bool,
    /// The initial value, where it can be evaluated.
    pub init: Option<Alloc>,
    /// The layout of the type.
    pub layout: Layout,
    pub link_section: Option<String>,
    /// An alignment that was asked for, in bytes.
    pub alignment: Option<u64>,
    /// Whether the static must be kept though nothing refers to it.
    pub used: bool,
}

/// The larger of an allocation's alignment and that of a pointer.
pub open spec fn static_align(align: u64, ptr: u64) -> u64 {
    if align >= ptr {
        align
    } else {
        ptr
    }
}

/// A definition with its attributes.
pub open spec fn with_attrs(decl: Text, d: StaticDef) -> Text {
    let d1 = match d.link_section {
        Some(s) => "__attribute__((section(\""@ + s@ + "\"))) "@ + decl,
        None => decl,
    };
    let d2 = match d.alignment {
        Some(a) => "_Alignas("@ + dec(a as nat) + ") "@ + d1,
        None => d1,
    };
    if d.used {
        "__attribute__((used)) "@ + d2
    } else {
        d2
    }
}

impl Cx {
    /// Writes the definition of a static, without its attributes.
    pub open spec fn static_text(self, d: StaticDef) -> (Cx, Text) {
        let name = sanitized(d.sym@);
        let suffix = asm_text(d.sym@, name);
        let tls = tls_text(d.thread_local);
        match d.init {
            Some(a) => if a.bytes@.len() == 0 {
                (self, tls + "uint8_t "@ + name + "[0]"@ + suffix + ";"@)
            } else if a.relocs@.len() == 0 {
                (
                    self,
                    "_Alignas("@ + dec(static_align(a.align, self.ptr_bytes) as nat) + ") "@ + tls
                        + "uint8_t "@ + name + "["@ + dec(a.bytes@.len()) + "]"@ + suffix
                        + " = { "@ + hex_list(a.bytes@) + " };"@,
                )
            } else {
                let (c1, list) = self.targets(a, a.relocs@.len());
                let len = a.bytes@.len() as usize;
                let offs = offsets(a.relocs@);
                let c2 = c1.struct_decl(name, d.sym@, len, offs, tls);
                let inits = init_texts(pieces(len, offs, self.ptr_bytes), a.bytes@, list);
                (
                    c2,
                    "_Alignas("@ + dec(static_align(a.align, self.ptr_bytes) as nat) + ") "@ + tls
                        + "struct _gs_"@ + name + " "@ + name + suffix + " = { "@ + join(
                        inits,
                        ", "@,
                    ) + " };"@,
                )
            },
            None => {
                let (c1, t) = self.layout_type(d.layout);
                (c1, tls + c1.decl_str(t, name) + suffix + ";"@)
            },
        }
    }

    /// Defines a static.
    pub open spec fn define_static(self, d: StaticDef) -> Cx {
        let name = sanitized(d.sym@);
        let (c1, decl) = self.static_text(d);
        c1.mark(name).global(with_attrs(decl, d)).static_addr(d.id, name).0
    }
}

impl StaticDef {
    pub open spec fn wf(&self, ptr: u64) -> bool {
        self.init matches Some(a) ==> alloc_ok(a, ptr)
    }

    /// Puts the attributes before a definition.
    fn add_attrs(&self, decl: String) -> (r: String)
        ensures
            r@ == with_attrs(decl@, *self),
    {
        let d1 = match &self.link_section {
            Some(s) => "__attribute__((section(\"".to_owned().concat(s).concat("\"))) ").concat(
                &decl,
            ),
            None => decl,
        };
        let d2 = match self.alignment {
            Some(a) => "_Alignas(".to_owned().concat(&dec_u64(a)).concat(") ").concat(&d1),
            None => d1,
        };
        if self.used {
            "__attribute__((used)) ".to_owned().concat(&d2)
        } else {
            d2
        }
    }
}

impl CodegenCx {
    /// Writes the definition of a static with pointers in its initial value.
    fn render_reloc_static(&mut self, d: &StaticDef, a: &Alloc) -> (r: String)
        requires
            old(self).wf(),
            d.init == Some(*a),
            d.wf(old(self)@.ptr_bytes),
            a.bytes@.len() > 0,
            a.relocs@.len() > 0,
        ensures
            final(self).wf(),
            (final(self)@, r@) == old(self)@.static_text(*d),
            old(self)@.within(final(self)@),
    {
        let c_name = CodegenCx::sanitize_name(&d.sym);
        let suffix = CodegenCx::asm_label(&d.sym, &c_name);
        let tls = render_tls(d.thread_local);
        let ptr = self.pointer_size();
        let targets = self.resolve_targets(a);
        let len = a.bytes.len();
        let offs = reloc_offsets(&a.relocs);
        let count: usize = offs.len();
        proof {
            assert(offs@.len() == count);
            assert forall|i: int| 0 <= i < offs@.len() implies #[trigger] offs@[i] + ptr
                <= len by {
                assert(a.relocs@[i].offset + ptr <= a.bytes@.len());
            }
            pieces_are_within(len, offs@, ptr);
        }
        let ps = cut_pieces(len, &offs, ptr);
        let inits = render_inits(&ps, &a.bytes, &targets);
        let inits_str = join_strings(&inits, ", ");
        let shape = Some(InitShape { len, relocs: offs });
        self.emit_static_struct_fwd_decl(&c_name, &d.sym, &shape, &tls);
        let align = if a.align >= ptr {
            a.align
        } else {
            ptr
        };
        "_Alignas(".to_owned().concat(&dec_u64(align)).concat(") ").concat(&tls).concat(
            "struct _gs_",
        ).concat(&c_name).concat(" ").concat(&c_name).concat(&suffix).concat(" = { ").concat(
            &inits_str,
        ).concat(" };")
    }

    /// Writes the definition of a static, without its attributes.
    fn render_static(&mut self, d: &StaticDef) -> (r: String)
        requires
            old(self).wf(),
            d.wf(old(self)@.ptr_bytes),
        ensures
            final(self).wf(),
            (final(self)@, r@) == old(self)@.static_text(*d),
            old(self)@.within(final(self)@),
    {
        let c_name = CodegenCx::sanitize_name(&d.sym);
        let suffix = CodegenCx::asm_label(&d.sym, &c_name);
        let tls = render_tls(d.thread_local);
        match &d.init {
            Some(a) => {
                let n = a.bytes.len();
                if n == 0 {
                    tls.concat("uint8_t ").concat(&c_name).concat("[0]").concat(&suffix).concat(
                        ";",
                    )
                } else if a.relocs.len() == 0 {
                    let ptr = self.pointer_size();
                    let align = if a.align >= ptr {
                        a.align
                    } else {
                        ptr
                    };
                    let hex = hex_bytes(&a.bytes, 0, n);
                    assert(a.bytes@.subrange(0, n as int) =~= a.bytes@);
                    "_Alignas(".to_owned().concat(&dec_u64(align)).concat(") ").concat(
                        &tls,
                    ).concat("uint8_t ").concat(&c_name).concat("[").concat(
                        &dec_usize(n),
                    ).concat("]").concat(&suffix).concat(" = { ").concat(&hex).concat(" };")
                } else {
                    self.render_reloc_static(d, a)
                }
            },
            None => {
                let ty = layout_to_c_type(self, &d.layout);
                let decl = self.render_type_decl(ty, &c_name);
                tls.concat(&decl).concat(&suffix).concat(";")
            },
        }
    }

    /// Defines a static: as an array of bytes, or where there are pointers in
    /// its initial value as a structure of bytes and pointers that is declared
    /// first. Without an initial value it is defined at its own type.
    pub fn codegen_static(&mut self, d: &StaticDef)
        requires
            old(self).wf(),
            d.wf(old(self)@.ptr_bytes),
        ensures
            final(self).wf(),
            final(self)@ == old(self)@.define_static(*d),
            old(self)@.within(final(self)@),
    {
        let c_name = CodegenCx::sanitize_name(&d.sym);
        let text = self.render_static(d);
        let decl = d.add_attrs(text);
        self.mark_global(&c_name);
        self.push_global(decl);
        self.add_static_addr(d.id, &c_name);
    }
}

// --- Laws ---

/// A static with pointers is declared in the same way where it is referred to
/// and where it is defined: by the structure of its initial value.
pub proof fn references_match_the_definition(c: Cx, d: StaticDef, s: StaticRef)
    requires
        d.init is Some,
        d.init->0.relocs@.len() > 0,
        d.init->0.bytes@.len() <= usize::MAX,
        !is_weak(s),
        !s.foreign,
        s.thread_local == d.thread_local,
        s.shape is Some,
        s.shape->0.len == d.init->0.bytes@.len(),
        s.shape->0.relocs@ == offsets(d.init->0.relocs@),
        c.module.declared_globals.contains(sanitized(d.sym@)),
    ensures
        ({
            let name = sanitized(d.sym@);
            let a = d.init->0;
            c.extern_static_decl(name, d.sym@, s) == c.struct_decl(
                name,
                d.sym@,
                a.bytes@.len() as usize,
                offsets(a.relocs@),
                tls_text(d.thread_local),
            )
        }),
{
}

/// A static that is defined is found afterwards without being declared.
pub proof fn defined_statics_are_found(c: Cx, d: StaticDef, s: StaticRef)
    requires
        s.id == d.id,
    ensures
        ({
            let c1 = c.define_static(d);
            c1.get_static(s).0 == c1
        }),
{
}

} // verus!
