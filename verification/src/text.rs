//! Text as the generator builds it: decimal and hexadecimal numbers, joined
//! lists, and the few string operations that everything else is made of.
use vstd::prelude::*;

verus! {

/// A piece of text, as contracts speak of it.
pub type Text = Seq<char>;

/// Specifies `String::push`: the character is appended at the end.
pub assume_specification[ String::push ](s: &mut String, c: char)
    ensures
        final(s)@ == old(s)@.push(c),
;

/// Whether two strings have the same characters. Texts are the same exactly
/// where their bytes in UTF-8 are.
pub(crate) fn same_text(a: &str, b: &str) -> (r: bool)
    ensures
        r == (a@ == b@),
{
    let x = a.as_bytes();
    let y = b.as_bytes();
    if x.len() != y.len() {
        return false;
    }
    let mut i: usize = 0;
    while i < x.len()
        invariant
            i <= x@.len(),
            x@.len() == y@.len(),
            x@ == vstd::utf8::encode_utf8(a@),
            y@ == vstd::utf8::encode_utf8(b@),
            x@.take(i as int) == y@.take(i as int),
        decreases x@.len() - i,
    {
        if x[i] != y[i] {
            return false;
        }
        assert(x@.take(i + 1) =~= x@.take(i as int).push(x@[i as int]));
        assert(y@.take(i + 1) =~= y@.take(i as int).push(y@[i as int]));
        i = i + 1;
    }
    proof {
        assert(x@.take(x@.len() as int) =~= x@);
        assert(y@.take(y@.len() as int) =~= y@);
        vstd::utf8::encode_utf8_decode_utf8(a@);
        vstd::utf8::encode_utf8_decode_utf8(b@);
    }
    true
}

// --- Numbers ---

/// The character of one decimal digit.
pub open spec fn digit(d: nat) -> char {
    ((48 + d) as u8) as char
}

/// A natural number in decimal, without leading zeros.
pub open spec fn dec(n: nat) -> Text
    decreases n,
{
    if n < 10 {
        seq![digit(n)]
    } else {
        dec(n / 10).push(digit(n % 10))
    }
}

/// An integer in decimal, with a minus sign where it is negative.
pub open spec fn sdec(i: int) -> Text {
    if i < 0 {
        "-"@ + dec((-i) as nat)
    } else {
        dec(i as nat)
    }
}

/// The character of one lower-case hexadecimal digit.
pub open spec fn hex_digit(d: nat) -> char {
    if d < 10 {
        ((48 + d) as u8) as char
    } else {
        ((87 + d) as u8) as char
    }
}

/// A byte as two hexadecimal digits.
pub open spec fn hex2(b: u8) -> Text {
    seq![hex_digit((b / 16) as nat), hex_digit((b % 16) as nat)]
}

/// A byte as a C literal: `0x` and two digits.
pub open spec fn hex_byte(b: u8) -> Text {
    "0x"@ + hex2(b)
}

/// Writes a number in decimal.
pub fn decimal(n: u128) -> (r: String)
    ensures
        r@ == dec(n as nat),
    decreases n,
{
    let last: u8 = (n % 10) as u8;
    let c = (48u8 + last) as char;
    if n < 10 {
        let mut r = String::new();
        r.push(c);
        assert(r@ =~= seq![digit(n as nat)]);
        r
    } else {
        let mut r = decimal(n / 10);
        r.push(c);
        r
    }
}

/// Writes a `usize` in decimal.
pub fn dec_usize(n: usize) -> (r: String)
    ensures
        r@ == dec(n as nat),
{
    decimal(n as u128)
}

/// Writes a `u64` in decimal.
pub fn dec_u64(n: u64) -> (r: String)
    ensures
        r@ == dec(n as nat),
{
    decimal(n as u128)
}

/// Writes a `u32` in decimal.
pub fn dec_u32(n: u32) -> (r: String)
    ensures
        r@ == dec(n as nat),
{
    decimal(n as u128)
}

/// Writes a signed number in decimal.
pub fn signed_decimal(i: i128) -> (r: String)
    ensures
        r@ == sdec(i as int),
{
    if i >= 0 {
        decimal(i as u128)
    } else if i == i128::MIN {
        "-".to_owned().concat(&decimal(0x8000_0000_0000_0000_0000_0000_0000_0000u128))
    } else {
        "-".to_owned().concat(&decimal((-i) as u128))
    }
}

/// Writes a byte as a C literal.
pub fn hex_literal(b: u8) -> (r: String)
    ensures
        r@ == hex_byte(b),
{
    let hi = b / 16;
    let lo = b % 16;
    let h = if hi < 10 { (48u8 + hi) as char } else { (87u8 + hi) as char };
    let l = if lo < 10 { (48u8 + lo) as char } else { (87u8 + lo) as char };
    let mut r = "0x".to_owned();
    r.push(h);
    r.push(l);
    assert(r@ =~= hex_byte(b));
    r
}

/// The last `digits` hexadecimal digits of a number.
pub open spec fn hex_fixed(n: nat, digits: nat) -> Text
    decreases digits,
{
    if digits == 0 {
        Seq::empty()
    } else {
        hex_fixed(n / 16, (digits - 1) as nat).push(hex_digit(n % 16))
    }
}

/// Writes the last `digits` hexadecimal digits of a number.
pub fn hex_digits(n: u64, digits: u32) -> (r: String)
    ensures
        r@ == hex_fixed(n as nat, digits as nat),
    decreases digits,
{
    if digits == 0 {
        String::new()
    } else {
        let low: u8 = (n % 16) as u8;
        let c = if low < 10 { (48u8 + low) as char } else { (87u8 + low) as char };
        let mut r = hex_digits(n / 16, digits - 1);
        r.push(c);
        r
    }
}

// --- Lists ---

/// The texts of a list of strings.
pub open spec fn texts(v: Seq<String>) -> Seq<Text> {
    v.map_values(|s: String| s@)
}

/// The parts one after another with a separator between neighbours.
pub open spec fn join(parts: Seq<Text>, sep: Text) -> Text
    decreases parts.len(),
{
    if parts.len() == 0 {
        Seq::empty()
    } else if parts.len() == 1 {
        parts[0]
    } else {
        join(parts.drop_last(), sep) + sep + parts.last()
    }
}

/// Joins strings with a separator.
pub fn join_strings(parts: &Vec<String>, sep: &str) -> (r: String)
    ensures
        r@ == join(texts(parts@), sep@),
{
    let mut r = String::new();
    let mut i: usize = 0;
    while i < parts.len()
        invariant
            i <= parts@.len(),
            r@ == join(texts(parts@).take(i as int), sep@),
        decreases parts@.len() - i,
    {
        proof {
            let now = texts(parts@).take(i as int);
            let next = texts(parts@).take(i + 1);
            assert(next.drop_last() =~= now);
            assert(next.last() == parts@[i as int]@);
            assert(next.len() == 1 ==> next[0] == parts@[i as int]@);
            assert(Seq::<char>::empty() + parts@[i as int]@ =~= parts@[i as int]@);
        }
        if i > 0 {
            r.append(sep);
        }
        r.append(&parts[i]);
        i = i + 1;
    }
    assert(texts(parts@).take(i as int) =~= texts(parts@));
    r
}

/// The bytes as C literals, separated by commas.
pub open spec fn hex_list(bytes: Seq<u8>) -> Text {
    join(bytes.map_values(|b: u8| hex_byte(b)), ", "@)
}

/// Writes the bytes from `from` up to `to` as a list of C literals.
pub fn hex_bytes(bytes: &Vec<u8>, from: usize, to: usize) -> (r: String)
    requires
        from <= to <= bytes@.len(),
    ensures
        r@ == hex_list(bytes@.subrange(from as int, to as int)),
{
    let mut parts: Vec<String> = Vec::new();
    let mut i: usize = from;
    while i < to
        invariant
            from <= i <= to <= bytes@.len(),
            parts@.len() == i - from,
            forall|k: int| 0 <= k < parts@.len() ==> (#[trigger] parts@[k])@ == hex_byte(bytes@[from + k]),
        decreases to - i,
    {
        parts.push(hex_literal(bytes[i]));
        i = i + 1;
    }
    assert(texts(parts@) =~= bytes@.subrange(from as int, to as int).map_values(|b: u8| hex_byte(b)));
    join_strings(&parts, ", ")
}

// --- Laws ---

/// Decimal text is never empty and holds digits alone.
pub proof fn dec_is_digits(n: nat)
    ensures
        dec(n).len() > 0,
        forall|i: int| 0 <= i < dec(n).len() ==> '0' <= #[trigger] dec(n)[i] <= '9',
    decreases n,
{
    if n >= 10 {
        dec_is_digits(n / 10);
    }
}

/// Two different numbers never have the same decimal text.
pub proof fn dec_is_injective(a: nat, b: nat)
    requires
        dec(a) == dec(b),
    ensures
        a == b,
    decreases a,
{
    dec_is_digits(a);
    dec_is_digits(b);
    if a < 10 && b < 10 {
        assert(dec(a)[0] == dec(b)[0]);
    } else if a < 10 {
        dec_is_digits(b / 10);
        assert(dec(b).len() > 1);
    } else if b < 10 {
        dec_is_digits(a / 10);
        assert(dec(a).len() > 1);
    } else {
        assert(dec(a).drop_last() =~= dec(a / 10));
        assert(dec(b).drop_last() =~= dec(b / 10));
        assert(dec(a).last() == digit(a % 10));
        assert(dec(b).last() == digit(b % 10));
        dec_is_injective(a / 10, b / 10);
    }
}

// --- Parts of texts ---

/// Whether a text begins with another.
pub open spec fn has_prefix(s: Text, prefix: Text) -> bool {
    prefix.len() <= s.len() && s.take(prefix.len() as int) == prefix
}

/// The characters of a string.
pub fn chars_of(s: &str) -> (r: Vec<char>)
    ensures
        r@ == s@,
{
    let mut out: Vec<char> = Vec::new();
    for c in it: s.chars()
        invariant
            it.seq() == s@,
            out@ == s@.take(it.index() as int),
    {
        out.push(c);
        assert(out@ =~= s@.take(it.index() + 1));
    }
    assert(s@.take(s@.len() as int) =~= s@);
    out
}

/// Whether a string begins with another.
pub fn starts_with(s: &str, prefix: &str) -> (r: bool)
    ensures
        r == has_prefix(s@, prefix@),
{
    let a = chars_of(s);
    let b = chars_of(prefix);
    if b.len() > a.len() {
        return false;
    }
    let mut i: usize = 0;
    while i < b.len()
        invariant
            i <= b@.len() <= a@.len(),
            a@ == s@,
            b@ == prefix@,
            forall|k: int| 0 <= k < i ==> a@[k] == b@[k],
        decreases b@.len() - i,
    {
        if a[i] != b[i] {
            assert(s@.take(prefix@.len() as int)[i as int] != prefix@[i as int]);
            return false;
        }
        i = i + 1;
    }
    assert(s@.take(prefix@.len() as int) =~= prefix@);
    true
}

/// Whether a text contains another.
pub open spec fn has_part(s: Text, part: Text) -> bool {
    exists|i: int| part_at(s, part, i)
}

/// Whether a text contains another at a place.
pub open spec fn part_at(s: Text, part: Text, i: int) -> bool {
    0 <= i && i + part.len() <= s.len() && s.subrange(i, i + part.len()) == part
}

/// Whether a text ends with another.
pub open spec fn has_suffix(s: Text, suffix: Text) -> bool {
    suffix.len() <= s.len() && s.skip(s.len() - suffix.len()) == suffix
}

/// Whether a list of characters holds another at a place.
fn chars_at(a: &Vec<char>, b: &Vec<char>, at: usize) -> (r: bool)
    requires
        at + b@.len() <= a@.len(),
    ensures
        r == (a@.subrange(at as int, at + b@.len()) == b@),
{
    let total = a.len();
    let mut i: usize = 0;
    while i < b.len()
        invariant
            i <= b@.len(),
            at + b@.len() <= a@.len(),
            a@.len() == total,
            forall|k: int| 0 <= k < i ==> a@[at + k] == b@[k],
        decreases b@.len() - i,
    {
        if a[at + i] != b[i] {
            assert(a@.subrange(at as int, at + b@.len())[i as int] != b@[i as int]);
            return false;
        }
        i = i + 1;
    }
    assert(a@.subrange(at as int, at + b@.len()) =~= b@);
    true
}

/// Whether a string contains another.
pub fn contains_str(s: &str, part: &str) -> (r: bool)
    ensures
        r == has_part(s@, part@),
{
    let a = chars_of(s);
    let b = chars_of(part);
    if b.len() > a.len() {
        return false;
    }
    let last = a.len() - b.len();
    let mut i: usize = 0;
    loop
        invariant
            i <= last,
            last + b@.len() == a@.len(),
            a@ == s@,
            b@ == part@,
            forall|k: int| 0 <= k < i ==> !part_at(s@, part@, k),
        decreases last - i,
    {
        if chars_at(&a, &b, i) {
            assert(part_at(s@, part@, i as int));
            return true;
        }
        assert(!part_at(s@, part@, i as int));
        if i == last {
            assert forall|k: int| !part_at(s@, part@, k) by {
                if k > last {
                    assert(k + part@.len() > s@.len());
                }
            }
            return false;
        }
        i = i + 1;
    }
}

/// Whether a string ends with another.
pub fn ends_with(s: &str, suffix: &str) -> (r: bool)
    ensures
        r == has_suffix(s@, suffix@),
{
    let a = chars_of(s);
    let b = chars_of(suffix);
    if b.len() > a.len() {
        return false;
    }
    let at = a.len() - b.len();
    assert(a@.subrange(at as int, at + b@.len()) =~= s@.skip(at as int));
    chars_at(&a, &b, at)
}

/// The order of texts, by their characters.
pub open spec fn text_lt(a: Text, b: Text) -> bool
    decreases a.len(),
{
    if b.len() == 0 {
        false
    } else if a.len() == 0 {
        true
    } else if a[0] != b[0] {
        a[0] < b[0]
    } else {
        text_lt(a.skip(1), b.skip(1))
    }
}

/// Whether a list of characters from a place on comes before another.
fn chars_less(a: &Vec<char>, b: &Vec<char>, at: usize) -> (r: bool)
    requires
        at <= a@.len(),
        at <= b@.len(),
    ensures
        r == text_lt(a@.skip(at as int), b@.skip(at as int)),
    decreases a@.len() - at,
{
    let ghost x = a@.skip(at as int);
    let ghost y = b@.skip(at as int);
    if at == b.len() {
        return false;
    }
    if at == a.len() {
        return true;
    }
    assert(x[0] == a@[at as int] && y[0] == b@[at as int]);
    if a[at] != b[at] {
        return a[at] < b[at];
    }
    assert(x.skip(1) =~= a@.skip(at + 1));
    assert(y.skip(1) =~= b@.skip(at + 1));
    chars_less(a, b, at + 1)
}

/// Whether a string comes before another.
pub fn text_less(a: &str, b: &str) -> (r: bool)
    ensures
        r == text_lt(a@, b@),
{
    let x = chars_of(a);
    let y = chars_of(b);
    assert(x@.skip(0) =~= a@);
    assert(y@.skip(0) =~= b@);
    chars_less(&x, &y, 0)
}

/// No text comes before itself, and of two different texts exactly one comes
/// before the other.
pub proof fn text_order_is_total(a: Text, b: Text)
    ensures
        !text_lt(a, a),
        !(text_lt(a, b) && text_lt(b, a)),
        a == b || text_lt(a, b) || text_lt(b, a),
    decreases a.len(),
{
    if a.len() > 0 {
        text_order_is_total(a.skip(1), a.skip(1));
        if b.len() > 0 {
            text_order_is_total(a.skip(1), b.skip(1));
            if a[0] == b[0] && a.skip(1) == b.skip(1) {
                assert(a =~= seq![a[0]] + a.skip(1));
                assert(b =~= seq![b[0]] + b.skip(1));
            }
        }
    } else if b.len() == 0 {
        assert(a =~= b);
    }
}

/// The order of texts is transitive.
pub proof fn text_order_is_transitive(a: Text, b: Text, c: Text)
    requires
        text_lt(a, b),
        text_lt(b, c),
    ensures
        text_lt(a, c),
    decreases a.len(),
{
    if a.len() > 0 && a[0] == b[0] && b[0] == c[0] {
        text_order_is_transitive(a.skip(1), b.skip(1), c.skip(1));
    }
}

} // verus!
