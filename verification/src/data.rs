//! What constant memory and constants hold: every byte, pointer and number is
//! written so that it can be read back.
use vstd::arithmetic::power::pow;
use vstd::arithmetic::power2::pow2;
use vstd::prelude::*;

use crate::consts::{uint_kind, utf8};
use crate::context::{asm_text, extends, sanitized, Cx, Linkage};
use crate::layout::{Primitive, Scalar};
use crate::meaning::{reads_literals, wrapped_to, Meaning};
use crate::memory::{le_number, offsets, Alloc, ConstScalar, GlobalRef, StaticDef};
use crate::statics::{
    field_texts, init_texts, is_weak, pieces, pieces_upto, tls_text, Piece, StaticRef,
};
use crate::text::{dec, dec_is_injective, digit, hex_byte, hex_digit, hex_fixed, join, sdec, Text};
use crate::types::{Kind, TypeRef};
use crate::values::{int_text, uint_text, value_text_is_stable, ValKind, ValueRef};

verus! {

// --- Numbers as text ---

/// The number that a character stands for as a digit.
pub open spec fn digit_value(c: char) -> int {
    if '0' <= c <= '9' {
        c as int - '0' as int
    } else if 'a' <= c <= 'f' {
        c as int - 'a' as int + 10
    } else {
        -1
    }
}

/// The number that digits stand for in a base.
pub open spec fn digits_value(s: Text, base: int) -> int
    decreases s.len(),
{
    if s.len() == 0 {
        0
    } else {
        digits_value(s.drop_last(), base) * base + digit_value(s.last())
    }
}

/// The digits 0 and 1 are read as these numbers.
pub proof fn single_digits_are_read()
    ensures
        digits_value("0"@, 10) == 0,
        digits_value("1"@, 10) == 1,
{
    reveal_strlit("0");
    reveal_strlit("1");
    reveal_with_fuel(digits_value, 2);
    assert("0"@.drop_last() =~= Seq::empty());
    assert("1"@.drop_last() =~= Seq::empty());
}

/// Decimal text is read as the number that it was written from.
pub proof fn decimal_is_read_back(n: nat)
    ensures
        digits_value(dec(n), 10) == n,
    decreases n,
{
    if n >= 10 {
        decimal_is_read_back(n / 10);
        assert(dec(n).drop_last() =~= dec(n / 10));
        assert(dec(n).last() == digit(n % 10));
    } else {
        assert(dec(n).drop_last() =~= Seq::empty());
        assert(digits_value(dec(n).drop_last(), 10) == 0);
        assert(dec(n).last() == digit(n));
    }
}

/// A signed number is written as its size, behind a minus where it is negative.
pub proof fn signed_decimal_is_read_back(i: int)
    ensures
        i >= 0 ==> digits_value(sdec(i), 10) == i,
        i < 0 ==> sdec(i).len() > 1 && sdec(i)[0] == '-' && digits_value(sdec(i).skip(1), 10)
            == -i,
{
    reveal_strlit("-");
    if i >= 0 {
        decimal_is_read_back(i as nat);
    } else {
        let n = (-i) as nat;
        decimal_is_read_back(n);
        crate::text::dec_is_digits(n);
        assert(sdec(i).skip(1) =~= dec(n));
    }
}

/// A byte is written as two hexadecimal digits that stand for it.
pub proof fn bytes_are_read_back(b: u8)
    ensures
        hex_byte(b).len() == 4,
        hex_byte(b).take(2) == "0x"@,
        digits_value(hex_byte(b).skip(2), 16) == b,
{
    reveal_strlit("0x");
    let s = hex_byte(b);
    assert(s.take(2) =~= "0x"@);
    let d = s.skip(2);
    assert(d =~= seq![hex_digit((b / 16) as nat), hex_digit((b % 16) as nat)]);
    assert(d.drop_last() =~= seq![hex_digit((b / 16) as nat)]);
    assert(d.drop_last().drop_last() =~= Seq::empty());
    reveal_with_fuel(digits_value, 3);
}

/// A number of fixed length is written in hexadecimal digits that stand for it.
pub proof fn hexadecimal_is_read_back(n: nat, digits: nat)
    ensures
        hex_fixed(n, digits).len() == digits,
        digits_value(hex_fixed(n, digits), 16) == n as int % pow(16, digits),
    decreases digits,
{
    vstd::arithmetic::power::lemma_pow_positive(16, digits);
    if digits == 0 {
        reveal(pow);
    } else {
        let k = (digits - 1) as nat;
        hexadecimal_is_read_back(n / 16, k);
        let s = hex_fixed(n, digits);
        assert(s.drop_last() =~= hex_fixed(n / 16, k));
        assert(s.last() == hex_digit(n % 16));
        vstd::arithmetic::power::lemma_pow_positive(16, k);
        reveal(pow);
        assert(pow(16, digits) == 16 * pow(16, k));
        vstd::arithmetic::div_mod::lemma_mod_breakdown(n as int, 16, pow(16, k));
    }
}

/// A list is written in order, with what separates its parts between them.
pub proof fn lists_are_written_in_order(parts: Seq<Text>, last: Text, sep: Text)
    ensures
        join(Seq::empty(), sep) == Seq::<char>::empty(),
        join(seq![last], sep) == last,
        parts.len() > 0 ==> join(parts.push(last), sep) == join(parts, sep) + sep + last,
{
    assert(parts.push(last).drop_last() =~= parts);
}

// --- Numbers in memory ---

/// Each byte of a number in memory is a digit of it in base 256, the lowest first.
pub proof fn numbers_are_lowest_byte_first(bytes: Seq<u8>, at: int, n: nat, k: nat)
    requires
        k < n,
    ensures
        (le_number(bytes, at, n) as int / pow(256, k)) % 256 == bytes[at + k],
        0 <= le_number(bytes, at, n) < pow(256, n),
    decreases n,
{
    reveal(pow);
    let rest = le_number(bytes, at + 1, (n - 1) as nat) as int;
    let first = bytes[at] as int;
    vstd::arithmetic::power::lemma_pow_positive(256, (n - 1) as nat);
    if n > 1 {
        numbers_are_lowest_byte_first(
            bytes,
            at + 1,
            (n - 1) as nat,
            if k == 0 {
                0
            } else {
                (k - 1) as nat
            },
        );
    }
    assert(pow(256, n) == 256 * pow(256, (n - 1) as nat));
    if k == 0 {
        assert((first + 256 * rest) % 256 == first);
    } else {
        let p = pow(256, (k - 1) as nat);
        vstd::arithmetic::power::lemma_pow_positive(256, (k - 1) as nat);
        assert(pow(256, k) == 256 * p);
        vstd::arithmetic::div_mod::lemma_div_denominator(first + 256 * rest, 256, p);
        assert((first + 256 * rest) / 256 == rest);
    }
}

// --- Pointers in memory ---

/// The text of a pointer to a static says which static and how many bytes from its
/// start; one that is imported weakly is a function and has no offset.
pub proof fn static_pointers_say_their_offset(c: Cx, s: StaticRef, off: nat)
    ensures
        ({
            let t = c.target(GlobalRef::Static(s), off).1;
            let name = sanitized(s.sym@);
            if is_weak(s) {
                t == "(void *)"@ + name
            } else if off == 0 {
                t == "(void *)&"@ + name
            } else {
                t == "(void *)((char *)&"@ + name + " + "@ + dec(off) + ")"@
            }
        }),
{
}

/// Two pointers to one static at different offsets are written differently.
pub proof fn static_pointers_differ(c: Cx, s: StaticRef, m: nat, n: nat)
    requires
        !is_weak(s),
        m != n,
    ensures
        c.target(GlobalRef::Static(s), m).1 != c.target(GlobalRef::Static(s), n).1,
{
    static_pointers_say_their_offset(c, s, m);
    static_pointers_say_their_offset(c, s, n);
    let name = sanitized(s.sym@);
    offset_texts_differ("(void *)((char *)&"@ + name + " + "@, ")"@, m, n);
    reveal_strlit("(void *)&");
    reveal_strlit("(void *)((char *)&");
    assert(("(void *)&"@ + name)[8] == '&');
    assert(("(void *)((char *)&"@ + name + " + "@ + dec(m) + ")"@)[8] == '(');
    assert(("(void *)((char *)&"@ + name + " + "@ + dec(n) + ")"@)[8] == '(');
}

proof fn offset_texts_differ(head: Text, tail: Text, m: nat, n: nat)
    requires
        m != n,
    ensures
        head + dec(m) + tail != head + dec(n) + tail,
{
    let (x, y) = (head + dec(m) + tail, head + dec(n) + tail);
    if x == y {
        assert(x.len() == head.len() + dec(m).len() + tail.len());
        assert(y.len() == head.len() + dec(n).len() + tail.len());
        assert forall|i: int| 0 <= i < dec(m).len() implies dec(m)[i] == dec(n)[i] by {
            assert(x[head.len() + i] == dec(m)[i]);
            assert(y[head.len() + i] == dec(n)[i]);
        }
        assert(dec(m) =~= dec(n));
        dec_is_injective(m, n);
    }
}

/// The text of a pointer to a function says which function and how many bytes from its
/// start.
pub proof fn function_pointers_say_their_offset(c: Cx, f: crate::declare::FnRef, off: nat)
    ensures
        ({
            let t = c.target(GlobalRef::Function(f), off).1;
            let name = sanitized(f.sym@);
            if off == 0 {
                t == "(void *)(void (*)(void))"@ + name
            } else {
                t == "(void *)((char *)(void (*)(void))"@ + name + " + "@ + dec(off) + ")"@
            }
        }),
{
}

/// The text of a pointer to constant memory says where that memory is defined and how
/// many bytes from its start.
pub proof fn memory_pointers_say_their_offset(c: Cx, a: Alloc, off: nat)
    ensures
        ({
            let (c1, v) = c.alloc_data(a);
            let (c2, t) = c.target(GlobalRef::Memory(a), off);
            &&& c2 == c1
            &&& if off == 0 {
                t == "(void *)"@ + c1.text(v)
            } else {
                t == "(void *)((char *)"@ + c1.text(v) + " + "@ + dec(off) + ")"@
            }
        }),
{
}

/// A number that identifies a type is written as the number itself.
pub proof fn type_numbers_are_written(c: Cx, off: nat)
    ensures
        c.target(GlobalRef::TypeId, off) == (
            c,
            "(void *)(__rustc_usize)"@ + dec(off) + "ULL"@,
        ),
{
}

/// Each pointer of a piece of memory is written for its own target, at the offset that
/// the bytes at its own place hold.
pub proof fn pointers_are_written_for_their_targets(c: Cx, a: Alloc, n: nat, i: int)
    requires
        0 <= i < n <= a.relocs@.len(),
    ensures
        c.targets(a, n).1.len() == n,
        ({
            let before = c.targets(a, i as nat).0;
            c.targets(a, n).1[i] == before.target(
                a.relocs@[i].target,
                le_number(a.bytes@, a.relocs@[i].offset as int, before.ptr_bytes as nat),
            ).1
        }),
    decreases n,
{
    if i < n - 1 {
        pointers_are_written_for_their_targets(c, a, (n - 1) as nat, i);
    } else if n > 1 {
        pointers_are_written_for_their_targets(c, a, (n - 1) as nat, i - 1);
    }
}

/// Each part of memory is written with its own contents: a pointer with the text of its
/// target, plain bytes with the bytes between its ends, in a field of as many bytes.
pub proof fn parts_are_written_with_their_contents(
    ps: Seq<Piece>,
    bytes: Seq<u8>,
    targets: Seq<Text>,
    k: int,
)
    requires
        0 <= k < ps.len(),
    ensures
        init_texts(ps, bytes, targets).len() == ps.len(),
        field_texts(ps).len() == ps.len(),
        match ps[k] {
            Piece::Ptr { index } => init_texts(ps, bytes, targets)[k] == ".f"@ + dec(k as nat)
                + " = "@ + targets[index as int] && field_texts(ps)[k] == "void *f"@ + dec(
                k as nat,
            ),
            Piece::Bytes { from, to } => init_texts(ps, bytes, targets)[k] == ".f"@ + dec(
                k as nat,
            ) + " = { "@ + join(
                Seq::new((to - from) as nat, |j: int| hex_byte(bytes[from + j])),
                ", "@,
            ) + " }"@ && field_texts(ps)[k] == "unsigned char f"@ + dec(k as nat) + "["@ + dec(
                (to - from) as nat,
            ) + "]"@ || to < from || to > bytes.len(),
        },
{
    if let Piece::Bytes { from, to } = ps[k] {
        if from <= to <= bytes.len() {
            assert(bytes.subrange(from as int, to as int).map_values(|b: u8| hex_byte(b))
                =~= Seq::new((to - from) as nat, |j: int| hex_byte(bytes[from + j])));
        }
    }
}

/// Every pointer has a part of its own.
pub proof fn every_pointer_has_a_part(len: usize, relocs: Seq<usize>, ptr: u64, i: int)
    requires
        0 <= i < relocs.len() <= usize::MAX,
    ensures
        pieces(len, relocs, ptr).contains(Piece::Ptr { index: i as usize }),
{
    pointer_among_parts(relocs, relocs.len(), ptr, i);
    let upto = pieces_upto(relocs, relocs.len(), ptr);
    let p = Piece::Ptr { index: i as usize };
    let k = choose|k: int| 0 <= k < upto.len() && upto[k] == p;
    assert(pieces(len, relocs, ptr)[k] == p);
}

proof fn pointer_among_parts(relocs: Seq<usize>, n: nat, ptr: u64, i: int)
    requires
        0 <= i < n <= relocs.len() <= usize::MAX,
    ensures
        pieces_upto(relocs, n, ptr).contains(Piece::Ptr { index: i as usize }),
    decreases n,
{
    let p = Piece::Ptr { index: i as usize };
    let all = pieces_upto(relocs, n, ptr);
    if i == n - 1 {
        assert(all.last() == p);
        assert(all[all.len() - 1] == p);
    } else {
        pointer_among_parts(relocs, (n - 1) as nat, ptr, i);
        let before = pieces_upto(relocs, (n - 1) as nat, ptr);
        let k = choose|k: int| 0 <= k < before.len() && before[k] == p;
        assert(all[k] == p);
    }
}

// --- Definitions ---

/// The larger of two numbers is not below either and is one of them.
pub open spec fn is_larger(n: u64, a: u64, b: u64) -> bool {
    n >= a && n >= b && (n == a || n == b)
}

/// Constant memory without pointers is defined by its bytes in order, under a name of
/// its own, with its alignment where that is more than one byte.
pub proof fn plain_memory_is_its_bytes(c: Cx, a: Alloc)
    requires
        a.relocs@.len() == 0,
        c.values.len() <= usize::MAX,
    ensures
        ({
            let (c1, v) = c.alloc_data(a);
            let list = Seq::new(a.bytes@.len(), |i: int| hex_byte(a.bytes@[i]));
            let line = "static const unsigned char "@ + c1.text(v) + "[] = { "@ + join(
                list,
                ", "@,
            ) + " };"@;
            &&& c1.text(v) == "_bytes"@ + dec(c.bytes as nat)
            &&& c1.module.data_sections == c.module.data_sections.push(
                if a.align > 1 {
                    "_Alignas("@ + dec(a.align as nat) + ") "@ + line
                } else {
                    line
                },
            )
        }),
{
    let (c1, v) = c.alloc_data(a);
    let list = Seq::new(a.bytes@.len(), |i: int| hex_byte(a.bytes@[i]));
    assert(a.bytes@.map_values(|b: u8| hex_byte(b)) =~= list);
    let name = "_bytes"@ + dec(c.bytes as nat);
    assert(c1.values[v.0 as int].kind == (ValKind::ByteString { id: c.bytes }));
    let line = "static const unsigned char "@ + name + "[] = { "@ + join(list, ", "@) + " };"@;
    let head = crate::memory::align_text(a.align);
    assert(head + "static const unsigned char "@ + name + "[] = { "@ + join(list, ", "@) + " };"@
        =~= head + line);
    assert(Seq::<char>::empty() + line =~= line);
}

/// A static without pointers is defined by its bytes in order, at the larger of its
/// own alignment and that of a pointer; one without bytes has none.
pub proof fn plain_statics_are_their_bytes(c: Cx, d: StaticDef, a: Alloc, align: u64)
    requires
        d.init == Some(a),
        a.relocs@.len() == 0,
        is_larger(align, a.align, c.ptr_bytes),
    ensures
        ({
            let (c1, t) = c.static_text(d);
            let name = sanitized(d.sym@);
            let list = Seq::new(a.bytes@.len(), |i: int| hex_byte(a.bytes@[i]));
            let suffix = asm_text(d.sym@, name);
            let tls = tls_text(d.thread_local);
            &&& c1 == c
            &&& if a.bytes@.len() == 0 {
                t == tls + "uint8_t "@ + name + "[0]"@ + suffix + ";"@
            } else {
                t == "_Alignas("@ + dec(align as nat) + ") "@ + tls + "uint8_t "@ + name + "["@
                    + dec(a.bytes@.len()) + "]"@ + suffix + " = { "@ + join(list, ", "@) + " };"@
            }
        }),
{
    let list = Seq::new(a.bytes@.len(), |i: int| hex_byte(a.bytes@[i]));
    assert(a.bytes@.map_values(|b: u8| hex_byte(b)) =~= list);
}

/// A static with pointers is defined as its structure, at the larger of its own
/// alignment and that of a pointer, with the contents of its parts in order.
pub proof fn statics_with_pointers_are_their_parts(c: Cx, d: StaticDef, a: Alloc, align: u64)
    requires
        d.init == Some(a),
        a.bytes@.len() > 0,
        a.relocs@.len() > 0,
        is_larger(align, a.align, c.ptr_bytes),
    ensures
        ({
            let t = c.static_text(d).1;
            let name = sanitized(d.sym@);
            let ps = pieces(a.bytes@.len() as usize, offsets(a.relocs@), c.ptr_bytes);
            let targets = c.targets(a, a.relocs@.len()).1;
            t == "_Alignas("@ + dec(align as nat) + ") "@ + tls_text(d.thread_local)
                + "struct _gs_"@ + name + " "@ + name + asm_text(d.sym@, name) + " = { "@ + join(
                init_texts(ps, a.bytes@, targets),
                ", "@,
            ) + " };"@
        }),
{
}

/// A definition is what is added last, marked as one, behind its attributes: the
/// section, the alignment that was asked for, and that it must be kept.
pub proof fn definitions_have_their_attributes(c: Cx, d: StaticDef)
    ensures
        ({
            let c1 = c.define_static(d);
            let text = c.static_text(d).1;
            let placed = match d.link_section {
                Some(s) => "__attribute__((section(\""@ + s@ + "\"))) "@ + text,
                None => text,
            };
            let aligned = match d.alignment {
                Some(n) => "_Alignas("@ + dec(n as nat) + ") "@ + placed,
                None => placed,
            };
            &&& c1.module.global_decls.last() == (if d.used {
                "__attribute__((used)) "@ + aligned
            } else {
                aligned
            })
            &&& c1.module.defined.last()
            &&& c1.module.declared_globals.contains(sanitized(d.sym@))
        }),
{
}

// --- Constants ---

/// An unsigned constant is written as its number.
pub proof fn unsigned_constants_are_read_back(m: Meaning, u: u128)
    requires
        reads_literals(m),
    ensures
        (m.names)(uint_text(u)) == u,
{
    let n = u as nat;
    if u > u64::MAX {
        let d = 0x1_0000_0000_0000_0000nat;
        vstd::arithmetic::div_mod::lemma_fundamental_div_mod(n as int, d as int);
        assert((m.names)("((uint128_t)"@ + dec(n / d) + "ULL << 64 | "@ + dec(n % d) + "ULL)"@)
            == (n / d) * 0x1_0000_0000_0000_0000 + n % d);
    } else {
        assert((m.names)(dec(n) + "ULL"@) == n);
    }
}

/// A signed constant of 64 bits is written as its number, and a wider one as a cast of
/// the number that its bits stand for.
pub proof fn signed_constants_are_read_back(m: Meaning, i: i128)
    requires
        reads_literals(m),
    ensures
        i64::MIN < i <= i64::MAX ==> (m.names)(int_text(i)) == i,
        !(i64::MIN < i <= i64::MAX) ==> int_text(i) == "(int128_t)"@ + (
            "((uint128_t)"@ + dec((i as u128) as nat / 0x1_0000_0000_0000_0000) + "ULL << 64 | "@
                + dec((i as u128) as nat % 0x1_0000_0000_0000_0000) + "ULL)"@
        ),
{
    if i64::MIN < i <= i64::MAX {
        assert((m.names)(sdec(i as int) + "LL"@) == i as int);
    }
}

/// A constant of a signed type is the number of its width with the same low bits; one
/// of another type is the number itself.
pub proof fn constants_keep_their_bits(k: Kind, u: u128, ptr_bytes: u64)
    requires
        ptr_bytes == 4 || ptr_bytes == 8,
    ensures
        match k {
            Kind::Int { bits, signed: true } => 0 < bits <= 128 ==> uint_kind(k, u, ptr_bytes)
                == ValKind::IntConst(wrapped_to(u as int, bits as nat, true) as i128),
            Kind::PtrWidth { signed: true } => uint_kind(k, u, ptr_bytes) == ValKind::IntConst(
                wrapped_to(u as int, (ptr_bytes * 8) as nat, true) as i128,
            ),
            _ => uint_kind(k, u, ptr_bytes) == ValKind::UintConst(u),
        },
{
    match k {
        Kind::Int { bits, signed: true } => if 0 < bits <= 128 {
            vstd::arithmetic::power2::lemma_pow2_unfold(bits as nat);
        },
        Kind::PtrWidth { signed: true } => {
            vstd::arithmetic::power2::lemma_pow2_unfold((ptr_bytes * 8) as nat);
        },
        _ => {},
    }
}

/// A constant that is read keeps its low bits; where its sign is asked for, a number
/// whose sign is not set is the same, and any other is the number below zero with these
/// bits.
pub proof fn constants_are_extended(u: u128, bits: nat)
    ensures
        bits == 0 || bits >= 128 ==> crate::consts::extended(u, bits, true) == u
            && crate::consts::extended(u, bits, false) == u,
        0 < bits < 128 ==> crate::consts::extended(u, bits, false) == wrapped_to(
            u as int,
            bits,
            false,
        ),
        0 < bits < 128 ==> crate::consts::extended(u, bits, true) == wrapped_to(
            u as int,
            bits,
            true,
        ) as u128,
{
    if 0 < bits < 128 {
        vstd::arithmetic::power2::lemma_pow2_unfold(bits);
        vstd::arithmetic::power2::lemma_pow2_pos(bits);
        vstd::arithmetic::div_mod::lemma_mod_bound(u as int, pow2(bits) as int);
        vstd::arithmetic::div_mod::lemma_mod_decreases(u as nat, pow2(bits));
    }
}

/// A scalar that is given by its bits: a signed integer is the number of its width with
/// these low bits, a number of 64 bits in floating point has these bits, a pointer is a
/// cast of the number, and what is left is the number itself.
pub proof fn scalars_keep_their_bits(k: Kind, s: Scalar, data: u128)
    requires
        0 < s.size <= 16,
    ensures
        ({
            let v = crate::memory::scalar_value(k, s, data);
            if k is Ptr {
                data <= u64::MAX ==> v == ValKind::InlineExpr(
                    "(void *)(__rustc_usize)"@ + dec(data as nat) + "ULL"@,
                )
            } else {
                match s.primitive {
                    Primitive::Int { signed: true, .. } => v == ValKind::IntConst(
                        wrapped_to(data as int, (s.size * 8) as nat, true) as i128,
                    ),
                    Primitive::Float { bits: 64 } => data <= u64::MAX ==> (v
                        matches ValKind::FloatConst(f) && f == data),
                    Primitive::Float { bits: 32 } => data <= u32::MAX ==> (v
                        matches ValKind::FloatConst(f) && f == crate::consts::widened(data as u32)),
                    _ => v == ValKind::UintConst(data),
                }
            }
        }),
{
    vstd::arithmetic::power2::lemma_pow2_unfold((s.size * 8) as nat);
}

/// A string is its bytes, as data of its own, and their number.
pub proof fn strings_are_their_bytes(c: Cx, s: Text)
    requires
        c.values.len() + 1 < usize::MAX,
        utf8(s).len() <= u64::MAX,
    ensures
        ({
            let (c1, (v, n)) = c.str_const(s);
            let list = Seq::new(utf8(s).len(), |i: int| hex_byte(utf8(s)[i]));
            &&& c1.text(v) == "_str"@ + dec(c.strings as nat)
            &&& c1.text(n) == dec(utf8(s).len()) + "ULL"@
            &&& c1.module.data_sections == c.module.data_sections.push(
                "static const unsigned char "@ + c1.text(v) + "[] = { "@ + join(list, ", "@)
                    + " };"@,
            )
        }),
{
    let (c1, (v, n)) = c.str_const(s);
    let list = Seq::new(utf8(s).len(), |i: int| hex_byte(utf8(s)[i]));
    assert(utf8(s).map_values(|b: u8| hex_byte(b)) =~= list);
    assert(c1.values[v.0 as int].kind == (ValKind::StringLit { id: c.strings }));
    assert(c1.values[n.0 as int].kind == ValKind::UintConst(utf8(s).len() as u128));
}

/// A pointer at an offset is written with the offset; at none it is the pointer.
pub proof fn offsets_of_constants_are_written(c: Cx, v: ValueRef, offset: u64)
    requires
        c.has(v),
        c.values.len() < usize::MAX,
    ensures
        ({
            let (c1, r) = c.ptr_offset(v, offset);
            if offset == 0 {
                c1 == c && r == v
            } else {
                c1.text(r) == "(void *)((char *)"@ + c.text(v) + " + "@ + dec(offset as nat)
                    + ")"@
            }
        }),
{
    let (c1, r) = c.ptr_offset(v, offset);
    if offset != 0 {
        assert(extends(c.values, c1.values));
        value_text_is_stable(c.values, c1.values, v.0 as nat);
        assert(c1.values[r.0 as int].kind == (ValKind::PtrOffset { base: v, offset }));
    }
}

/// A constant address is that of its own target: a function by its value, a static by
/// its name, other memory by its data, each at the offset that is asked for.
pub proof fn addresses_are_of_their_targets(c: Cx, g: GlobalRef, offset: u64)
    requires
        !(g is TypeId),
    ensures
        ({
            let (c1, r) = c.global_addr(g, offset);
            match g {
                GlobalRef::Function(f) => (c1, r) == c.get_fn(f),
                GlobalRef::Static(s) => {
                    let name = sanitized(s.sym@);
                    let c0 = c.extern_static_decl(name, s.sym@, s);
                    let (c2, v) = c0.adds(
                        ValKind::Global {
                            name: if is_weak(s) {
                                "&(void *){(void *)"@ + name + "}"@
                            } else {
                                "&"@ + name
                            },
                        },
                        Kind::Ptr,
                    );
                    (c1, r) == c2.ptr_offset(v, offset)
                },
                GlobalRef::Memory(a) => (c1, r) == c.alloc_data(a).0.ptr_offset(
                    c.alloc_data(a).1,
                    offset,
                ),
                GlobalRef::TypeId => true,
            }
        }),
{
}

// --- Declarations ---

/// Only what belongs to a thread says so.
pub proof fn thread_locals_say_so(thread_local: bool)
    ensures
        tls_text(thread_local) == if thread_local {
            "_Thread_local "@
        } else {
            Seq::empty()
        },
{
}

/// A static that is not declared yet is declared by its linkage and its shape: a weak
/// one as a weak function, one of this crate that is to be defined and holds pointers
/// by the structure of its parts, and any other as bytes of a length that is left open.
pub proof fn statics_are_declared_by_their_shape(c: Cx, name: Text, sym: Text, s: StaticRef)
    requires
        !c.module.declared_extern_globals.contains(name),
    ensures
        ({
            let later = c.extern_static_decl(name, sym, s);
            let label = asm_text(sym, name);
            let tls = tls_text(s.thread_local);
            let decl = later.module.global_decls.last();
            let shaped = c.module.declared_globals.contains(name) && !s.foreign && (s.shape
                matches Some(shape) && shape.relocs@.len() > 0);
            &&& later.module.global_decls.drop_last() == c.module.global_decls
            &&& !later.module.defined.last()
            &&& later.module.declared_extern_globals.contains(name)
            &&& if s.import_linkage == Some(Linkage::ExternalWeak) {
                &&& decl == "#pragma weak "@ + name + "\n"@ + ("void "@ + name + "(void)"@ + label
                    + ";"@)
                &&& later.module.struct_defs == c.module.struct_defs
            } else if shaped {
                let fields = field_texts(
                    pieces((s.shape->0).len, (s.shape->0).relocs@, c.ptr_bytes),
                );
                &&& decl == "extern "@ + tls + "struct _gs_"@ + name + " "@ + name + label + ";"@
                &&& later.module.struct_defs == c.module.struct_defs.push(
                    "#pragma pack(push, 1)\nstruct _gs_"@ + name + " { "@ + join(
                        fields.map_values(|t: Text| t + ";"@),
                        " "@,
                    ) + " };\n#pragma pack(pop)"@,
                )
            } else {
                &&& decl == "extern "@ + tls + "uint8_t "@ + name + "[]"@ + label + ";"@
                &&& later.module.struct_defs == c.module.struct_defs
            }
        }),
{
    let later = c.extern_static_decl(name, sym, s);
    assert(later.module.global_decls.drop_last() =~= c.module.global_decls);
    let label = asm_text(sym, name);
    weak_declarations_are_grouped(name, label);
    if s.shape is Some {
        let fields = field_texts(pieces((s.shape->0).len, (s.shape->0).relocs@, c.ptr_bytes));
        assert forall|i: int| 0 <= i < fields.len() implies Seq::<char>::empty()
            + #[trigger] fields[i]
            + ";"@ == fields[i] + ";"@ by {
            assert(Seq::<char>::empty() + fields[i] =~= fields[i]);
        }
        assert(crate::statics::wrapped(fields, Seq::empty(), ";"@) =~= fields.map_values(
            |t: Text| t + ";"@,
        ));
    }
}

proof fn weak_declarations_are_grouped(name: Text, label: Text)
    ensures
        "#pragma weak "@ + name + "\nvoid "@ + name + "(void)"@ + label + ";"@ == "#pragma weak "@
            + name + "\n"@ + ("void "@ + name + "(void)"@ + label + ";"@),
{
    reveal_strlit("\nvoid ");
    reveal_strlit("\n");
    reveal_strlit("void ");
    assert("\nvoid "@ =~= "\n"@ + "void "@);
    let head = "#pragma weak "@ + name;
    assert(head + ("\n"@ + "void "@) + name + "(void)"@ + label + ";"@ =~= head + "\n"@ + ("void "@
        + name + "(void)"@ + label + ";"@));
}

/// A static that is declared stays as it is declared.
pub proof fn declared_statics_stay(c: Cx, name: Text, sym: Text, s: StaticRef)
    requires
        c.module.declared_extern_globals.contains(name),
    ensures
        c.extern_static_decl(name, sym, s).module.global_decls == c.module.global_decls,
        c.extern_static_decl(name, sym, s).module.struct_defs == c.module.struct_defs,
{
}

/// A static is found at its own address; a weak one at a place that holds its address.
pub proof fn statics_are_found_at_their_address(c: Cx, s: StaticRef)
    requires
        !c.statics.contains_key(s.id),
        c.values.len() < usize::MAX,
    ensures
        ({
            let (later, v) = c.get_static(s);
            let name = sanitized(s.sym@);
            &&& later.text(v) == if s.import_linkage == Some(Linkage::ExternalWeak) {
                "(void *)&"@ + ("(void *){"@ + name + "}"@)
            } else {
                "&"@ + name
            }
            &&& later.statics == c.statics.insert(s.id, v)
        }),
{
    reveal_strlit("(void *)&(void *){");
    reveal_strlit("(void *)&");
    reveal_strlit("(void *){");
    assert("(void *)&(void *){"@ =~= "(void *)&"@ + "(void *){"@);
    let name = sanitized(s.sym@);
    assert("(void *)&"@ + "(void *){"@ + name + "}"@ =~= "(void *)&"@ + ("(void *){"@ + name
        + "}"@));
}

/// A static without contents is declared with the type of its layout.
pub proof fn empty_statics_have_the_type_of_their_layout(c: Cx, d: StaticDef)
    requires
        d.init is None,
    ensures
        ({
            let (later, t) = c.static_text(d);
            let (c1, ty) = c.layout_type(d.layout);
            let name = sanitized(d.sym@);
            later == c1 && t == tls_text(d.thread_local) + c1.decl_str(ty, name) + asm_text(
                d.sym@,
                name,
            ) + ";"@
        }),
{
}

/// Constant memory with pointers is a structure of its parts, under a name of its own,
/// and what stands for it is its address.
pub proof fn memory_with_pointers_is_its_parts(c: Cx, a: Alloc)
    requires
        a.relocs@.len() > 0,
    ensures
        ({
            let (later, v) = c.alloc_data(a);
            let name = "_bytes"@ + dec(c.bytes as nat);
            let ps = pieces(a.bytes@.len() as usize, offsets(a.relocs@), later.ptr_bytes);
            let (c1, ptr) = c.interns(Kind::Ptr);
            let c2 = Cx {
                bytes: (c1.bytes + 1) as usize,
                ..c1.value(ValKind::ByteString { id: c1.bytes }, ptr)
            };
            let (c3, w) = c2.adds_at(ValKind::Global { name: "&"@ + name }, ptr);
            let targets = c3.targets(a, a.relocs@.len()).1;
            &&& v == w
            &&& later.module.data_sections.last() == "#pragma pack(push, 1)\n"@ + (
            "static const struct { "@ + join(
                field_texts(ps).map_values(|t: Text| "  "@ + t + ";"@),
                " "@,
            ) + " } "@ + name + " = { "@ + join(
                init_texts(ps, a.bytes@, targets).map_values(|t: Text| "  "@ + t),
                ", "@,
            ) + " };"@) + "\n#pragma pack(pop)"@
        }),
{
    let (later, v) = c.alloc_data(a);
    let name = "_bytes"@ + dec(c.bytes as nat);
    let (c1, ptr) = c.interns(Kind::Ptr);
    let c2 = Cx {
        bytes: (c1.bytes + 1) as usize,
        ..c1.value(ValKind::ByteString { id: c1.bytes }, ptr)
    };
    let (c3, w) = c2.adds_at(ValKind::Global { name: "&"@ + name }, ptr);
    let (c4, targets) = c3.targets(a, a.relocs@.len());
    let ps = pieces(a.bytes@.len() as usize, offsets(a.relocs@), c4.ptr_bytes);
    let fields = crate::statics::wrapped(field_texts(ps), "  "@, ";"@);
    let raw = init_texts(ps, a.bytes@, targets);
    let inits = crate::statics::wrapped(raw, "  "@, Seq::empty());
    assert(fields =~= field_texts(ps).map_values(|t: Text| "  "@ + t + ";"@));
    assert forall|i: int| 0 <= i < raw.len() implies "  "@ + #[trigger] raw[i]
        + Seq::<char>::empty()
        == "  "@ + raw[i] by {
        assert("  "@ + raw[i] + Seq::<char>::empty() =~= "  "@ + raw[i]);
    }
    assert(inits =~= raw.map_values(|t: Text| "  "@ + t));
    packed_data_is_grouped(join(fields, " "@), name, join(inits, ", "@));
}

proof fn packed_data_is_grouped(fields: Text, name: Text, inits: Text)
    ensures
        "#pragma pack(push, 1)\nstatic const struct { "@ + fields + " } "@ + name + " = { "@ + inits
            + " };\n#pragma pack(pop)"@ == "#pragma pack(push, 1)\n"@ + ("static const struct { "@
            + fields + " } "@ + name + " = { "@ + inits + " };"@) + "\n#pragma pack(pop)"@,
{
    reveal_strlit("#pragma pack(push, 1)\nstatic const struct { ");
    reveal_strlit("#pragma pack(push, 1)\n");
    reveal_strlit("static const struct { ");
    reveal_strlit(" };\n#pragma pack(pop)");
    reveal_strlit(" };");
    reveal_strlit("\n#pragma pack(pop)");
    let (a, b) = ("#pragma pack(push, 1)\n"@, "static const struct { "@);
    let (x, y) = (" };"@, "\n#pragma pack(pop)"@);
    assert("#pragma pack(push, 1)\nstatic const struct { "@ =~= a + b);
    assert(" };\n#pragma pack(pop)"@ =~= x + y);
    assert(a + b + fields + " } "@ + name + " = { "@ + inits + (x + y) =~= a + (b + fields + " } "@
        + name + " = { "@ + inits + x) + y);
}

/// A constant pointer is the address of its target at the offset, cast where another
/// type is asked for; a number that identifies a type is itself.
pub proof fn constant_pointers_are_addresses(
    c: Cx,
    target: GlobalRef,
    offset: u64,
    layout: Scalar,
    llty: TypeRef,
)
    requires
        c.values.len() < usize::MAX,
    ensures
        ({
            let (later, v) = c.scalar_const(ConstScalar::Ptr { target, offset }, layout, llty);
            let (c1, w) = c.global_addr(target, offset);
            let (c2, ptr) = c1.interns(Kind::Ptr);
            if target is TypeId {
                later.text(v) == "(void *)(__rustc_usize)"@ + dec(offset as nat) + "ULL"@
            } else if llty == ptr {
                (later, v) == (c2, w)
            } else {
                c2.values.len() < usize::MAX ==> later.text(v) == "("@ + c2.type_str(llty) + ")"@
                    + c2.text(w)
            }
        }),
{
}

/// A pointer of more than 64 bits is written by its two halves.
pub proof fn wide_pointers_are_written_by_their_halves(s: Scalar, data: u128)
    requires
        data > u64::MAX,
    ensures
        crate::memory::scalar_value(Kind::Ptr, s, data) == ValKind::InlineExpr(
            "(void *)(__rustc_usize)((unsigned __int128)"@ + dec((data >> 64) as nat)
                + "ULL << 64 | "@ + dec((data & 0xffff_ffff_ffff_ffff) as nat) + "ULL)"@,
        ),
{
    assert(data >> 64 == data / 0x1_0000_0000_0000_0000u128) by (bit_vector);
    assert(data & 0xffff_ffff_ffff_ffffu128 == data % 0x1_0000_0000_0000_0000u128) by (bit_vector);
}

} // verus!
