//! The backend as a whole: target features, exported symbols, and link-time
//! optimisation, which passes the sources through.
use vstd::prelude::*;

use crate::consts::{string_bytes, utf8};
use crate::context::extends;
use crate::module::{CModule, Module};
use crate::text::{chars_of, join, join_strings, same_text, texts, Text};

verus! {

/// The codegen backend that emits C. It has no state.
#[derive(Clone, Copy, Debug)]
pub struct CCodegenBackend {}

impl CCodegenBackend {
    /// The backend.
    pub fn new() -> (r: CCodegenBackend)
        ensures
            r == (CCodegenBackend {  }),
    {
        CCodegenBackend {  }
    }

    /// The name of the backend.
    pub fn name(&self) -> (r: &'static str)
        ensures
            r@ == "c"@,
    {
        "c"
    }
}

// --- Target features ---

/// Whether a feature is one of vector instructions, for which there is no
/// correct C code.
pub open spec fn is_simd_feature(name: Text) -> bool {
    name == "neon"@ || name == "sve"@ || name == "sve2"@ || name == "sse"@ || name == "sse2"@
        || name == "sse3"@ || name == "ssse3"@ || name == "sse4.1"@ || name == "sse4.2"@ || name
        == "avx"@ || name == "avx2"@ || name == "avx512f"@ || name == "simd128"@
}

/// Whether a feature is on: it is among those that the target has, and is not
/// one of vector instructions.
pub open spec fn feature_on(base: Seq<Text>, name: Text) -> bool {
    base.contains(name) && !is_simd_feature(name)
}

/// Whether a string is in a list.
pub fn contains_text(list: &Vec<String>, t: &str) -> (r: bool)
    ensures
        r == texts(list@).contains(t@),
{
    let mut i: usize = 0;
    while i < list.len()
        invariant
            i <= list@.len(),
            forall|k: int| 0 <= k < i ==> texts(list@)[k] != t@,
        decreases list@.len() - i,
    {
        if same_text(&list[i], t) {
            assert(texts(list@)[i as int] == t@);
            return true;
        }
        i = i + 1;
    }
    false
}

/// Whether a feature is on.
pub fn feature_enabled(base: &Vec<String>, name: &str) -> (r: bool)
    ensures
        r == feature_on(texts(base@), name@),
{
    let simd = same_text(name, "neon") || same_text(name, "sve") || same_text(name, "sve2")
        || same_text(name, "sse") || same_text(name, "sse2") || same_text(name, "sse3")
        || same_text(name, "ssse3") || same_text(name, "sse4.1") || same_text(name, "sse4.2")
        || same_text(name, "avx") || same_text(name, "avx2") || same_text(name, "avx512f")
        || same_text(name, "simd128");
    contains_text(base, name) && !simd
}

/// A list of features with the first `n` that the calling convention needs added
/// where they are missing.
pub open spec fn with_required(features: Seq<Text>, required: Seq<Text>, n: nat) -> Seq<Text>
    decreases n,
{
    if n == 0 {
        features
    } else {
        let before = with_required(features, required, (n - 1) as nat);
        if before.contains(required[n - 1]) {
            before
        } else {
            before.push(required[n - 1])
        }
    }
}

/// Adds the features that the calling convention needs where they are missing.
pub fn add_required_features(features: Vec<String>, required: &Vec<String>) -> (r: Vec<String>)
    ensures
        texts(r@) == with_required(texts(features@), texts(required@), required@.len()),
{
    let ghost start = texts(features@);
    let mut out = features;
    let mut i: usize = 0;
    while i < required.len()
        invariant
            i <= required@.len(),
            texts(out@) == with_required(start, texts(required@), i as nat),
        decreases required@.len() - i,
    {
        let ghost before = texts(out@);
        if !contains_text(&out, &required[i]) {
            out.push(required[i].clone());
            assert(texts(out@) =~= before.push(required@[i as int]@));
        }
        assert(texts(required@)[i as int] == required@[i as int]@);
        i = i + 1;
    }
    out
}

/// Whether a character has the property `White_Space` of Unicode.
pub open spec fn whitespace(c: char) -> bool {
    let n = c as u32;
    ||| 0x9 <= n <= 0xd
    ||| n == 0x20
    ||| n == 0x85
    ||| n == 0xa0
    ||| n == 0x1680
    ||| 0x2000 <= n <= 0x200a
    ||| n == 0x2028
    ||| n == 0x2029
    ||| n == 0x202f
    ||| n == 0x205f
    ||| n == 0x3000
}

/// Whether a character has the property `White_Space` of Unicode.
fn is_whitespace(c: char) -> (r: bool)
    ensures
        r == whitespace(c),
{
    let n: u32 = c as u32;
    (0x9 <= n && n <= 0xd) || n == 0x20 || n == 0x85 || n == 0xa0 || n == 0x1680 || (0x2000 <= n
        && n <= 0x200a) || n == 0x2028 || n == 0x2029 || n == 0x202f || n == 0x205f || n == 0x3000
}

/// Where a text ends without the white space at its end, given which of its
/// characters are white space.
pub open spec fn trimmed_end(blank: Seq<bool>, n: nat) -> nat
    decreases n,
{
    if n > 0 && n <= blank.len() && blank[n - 1] {
        trimmed_end(blank, (n - 1) as nat)
    } else {
        n
    }
}

/// Where a text begins without the white space at its beginning, given the same.
pub open spec fn trimmed_start(blank: Seq<bool>, at: nat, end: nat) -> nat
    decreases end - at,
{
    if at < end && at < blank.len() && blank[at as int] {
        trimmed_start(blank, at + 1, end)
    } else {
        at
    }
}

/// The name of the feature that an entry of a feature list turns on: what
/// follows a `+`, given which of its characters are white space.
pub open spec fn entry_name(s: Seq<char>, blank: Seq<bool>) -> Option<Text> {
    let end = trimmed_end(blank, s.len());
    let start = trimmed_start(blank, 0, end);
    if start < end && s[start as int] == '+' {
        Some(s.subrange((start + 1) as int, end as int))
    } else {
        None
    }
}

/// The name of the feature that an entry of a feature list turns on.
pub fn feature_entry(s: &Vec<char>, blank: &Vec<bool>) -> (r: Option<String>)
    requires
        s@.len() == blank@.len(),
    ensures
        crate::types::opt_text(r) == entry_name(s@, blank@),
{
    let n = s.len();
    let mut end: usize = n;
    while end > 0 && blank[end - 1]
        invariant
            end <= n,
            n == s@.len(),
            n == blank@.len(),
            trimmed_end(blank@, end as nat) == trimmed_end(blank@, n as nat),
        decreases end,
    {
        end = end - 1;
    }
    let mut start: usize = 0;
    while start < end && blank[start]
        invariant
            start <= end <= n,
            n == blank@.len(),
            trimmed_start(blank@, start as nat, end as nat) == trimmed_start(
                blank@,
                0,
                end as nat,
            ),
        decreases end - start,
    {
        start = start + 1;
    }
    if start < end && s[start] == '+' {
        let mut name = String::new();
        let mut i: usize = start + 1;
        while i < end
            invariant
                start + 1 <= i <= end,
                end <= s@.len(),
                name@ == s@.subrange(start + 1, i as int),
            decreases end - i,
        {
            name.push(s[i]);
            i = i + 1;
            assert(name@ =~= s@.subrange(start + 1, i as int));
        }
        Some(name)
    } else {
        None
    }
}

/// The characters of an entry that are white space.
pub open spec fn blanks(s: Seq<char>) -> Seq<bool> {
    s.map_values(|c: char| whitespace(c))
}

/// The entries of a comma-separated list, from the first `n` characters: those
/// that are finished, and the one that is not.
pub open spec fn split_commas(s: Seq<char>, n: nat) -> (Seq<Text>, Text)
    decreases n,
{
    if n == 0 {
        (Seq::empty(), Seq::empty())
    } else {
        let (done, rest) = split_commas(s, (n - 1) as nat);
        if s[n - 1] == ',' {
            (done.push(rest), Seq::empty())
        } else {
            (done, rest.push(s[n - 1]))
        }
    }
}

/// The entries of a comma-separated list.
pub open spec fn entries(s: Text) -> Seq<Text> {
    let (done, rest) = split_commas(s, s.len());
    done.push(rest)
}

/// The names of the features that the first `n` of a list of entries turn on.
pub open spec fn entry_names(list: Seq<Text>, n: nat) -> Seq<Text>
    decreases n,
{
    if n == 0 {
        Seq::empty()
    } else {
        let before = entry_names(list, (n - 1) as nat);
        match entry_name(list[n - 1], blanks(list[n - 1])) {
            Some(name) => before.push(name),
            None => before,
        }
    }
}

/// Splits a comma-separated list.
pub fn split_entries(s: &str) -> (r: Vec<String>)
    ensures
        texts(r@) == entries(s@),
{
    let chars = chars_of(s);
    let mut done: Vec<String> = Vec::new();
    let mut rest = String::new();
    let mut i: usize = 0;
    assert(texts(done@) =~= Seq::empty());
    while i < chars.len()
        invariant
            i <= chars@.len(),
            chars@ == s@,
            (texts(done@), rest@) == split_commas(s@, i as nat),
        decreases chars@.len() - i,
    {
        let ghost before = texts(done@);
        let c = chars[i];
        if c == ',' {
            done.push(rest);
            assert(texts(done@) =~= before.push(rest@));
            rest = String::new();
        } else {
            rest.push(c);
        }
        i = i + 1;
    }
    let ghost before = texts(done@);
    done.push(rest);
    assert(texts(done@) =~= before.push(rest@));
    done
}

/// The names of the features that a list such as `+a,-b` turns on.
pub fn enabled_features(source: &str) -> (r: Vec<String>)
    ensures
        texts(r@) == entry_names(entries(source@), entries(source@).len()),
{
    let list = split_entries(source);
    let mut out: Vec<String> = Vec::new();
    let mut i: usize = 0;
    assert(texts(out@) =~= Seq::empty());
    while i < list.len()
        invariant
            i <= list@.len(),
            texts(list@) == entries(source@),
            texts(out@) == entry_names(entries(source@), i as nat),
        decreases list@.len() - i,
    {
        let chars = chars_of(&list[i]);
        let mut blank: Vec<bool> = Vec::new();
        let mut k: usize = 0;
        while k < chars.len()
            invariant
                k <= chars@.len(),
                blank@ == blanks(chars@).take(k as int),
            decreases chars@.len() - k,
        {
            blank.push(is_whitespace(chars[k]));
            k = k + 1;
            assert(blank@ =~= blanks(chars@).take(k as int));
        }
        assert(blank@ =~= blanks(chars@));
        assert(texts(list@)[i as int] == list@[i as int]@);
        let ghost before = texts(out@);
        if let Some(name) = feature_entry(&chars, &blank) {
            out.push(name);
            assert(texts(out@) =~= before.push(name@));
        }
        i = i + 1;
    }
    assert(texts(list@).len() == list@.len());
    out
}

/// The symbols of the unwinding mechanism, which the program and its dynamic
/// libraries share and therefore export.
pub fn unwind_exports() -> (r: Vec<String>)
    ensures
        texts(r@) == seq![
            "__rustc_unwind_chain"@,
            "_Unwind_RaiseException"@,
            "__rust_try"@,
        ],
{
    let r = vec![
        "__rustc_unwind_chain".to_owned(),
        "_Unwind_RaiseException".to_owned(),
        "__rust_try".to_owned(),
    ];
    assert(texts(r@) =~= seq![
        "__rustc_unwind_chain"@,
        "_Unwind_RaiseException"@,
        "__rust_try"@,
    ]);
    r
}

// --- Link-time optimisation ---

/// Calls `String::from_utf8`, which gives the string of which the bytes are the
/// UTF-8 form, and fails where they are not UTF-8.
#[verifier::external_body]
fn string_from_utf8(bytes: Vec<u8>) -> (r: Option<String>)
    ensures
        match r {
            Some(s) => vstd::utf8::valid_utf8(bytes@) && utf8(s@) == bytes@,
            None => !vstd::utf8::valid_utf8(bytes@),
        },
{
    String::from_utf8(bytes).ok()
}

/// The text of bytes in UTF-8, or another text where they are not UTF-8.
pub open spec fn decoded(bytes: Seq<u8>, otherwise: Text) -> Text {
    if vstd::utf8::valid_utf8(bytes) {
        vstd::utf8::decode_utf8(bytes)
    } else {
        otherwise
    }
}

/// The string of bytes in UTF-8, or another where they are not UTF-8.
fn decode_or(bytes: Vec<u8>, otherwise: &str) -> (r: String)
    ensures
        r@ == decoded(bytes@, otherwise@),
{
    match string_from_utf8(bytes) {
        Some(s) => {
            proof {
                vstd::utf8::encode_utf8_decode_utf8(s@);
            }
            s
        },
        None => otherwise.to_owned(),
    }
}

/// A module that takes part in link-time optimisation over the whole program.
#[derive(Debug)]
pub enum LtoInput {
    /// Its source.
    InMemory(String),
    /// Its source in UTF-8.
    Serialized(Vec<u8>),
}

/// The source of a module.
pub open spec fn lto_source(m: LtoInput) -> Text {
    match m {
        LtoInput::InMemory(s) => s@,
        LtoInput::Serialized(bytes) => decoded(bytes@, "/* invalid UTF-8 */"@),
    }
}

/// The sources of modules as one.
pub open spec fn fat_source(modules: Seq<LtoInput>) -> Text {
    join(
        modules.map_values(|m: LtoInput| lto_source(m)),
        "\n/* --- fat LTO module boundary --- */\n"@,
    )
}

/// Whether the module at `i` is the first one in memory.
pub open spec fn first_in_memory(modules: Seq<LtoInput>, i: int) -> bool {
    &&& 0 <= i < modules.len()
    &&& modules[i] is InMemory
    &&& forall|k: int| 0 <= k < i ==> !((#[trigger] modules[k]) is InMemory)
}

/// Puts the sources of modules together, and finds the first module in memory,
/// which stands for them all from then on.
pub fn run_and_optimize_fat_lto(modules: Vec<LtoInput>) -> (r: (usize, String))
    requires
        exists|i: int| 0 <= i < modules@.len() && (#[trigger] modules@[i]) is InMemory,
    ensures
        first_in_memory(modules@, r.0 as int),
        r.1@ == fat_source(modules@),
{
    let mut sources: Vec<String> = Vec::new();
    let mut base: Option<usize> = None;
    let mut i: usize = 0;
    while i < modules.len()
        invariant
            i <= modules@.len(),
            sources@.len() == i,
            forall|k: int| 0 <= k < i ==> (#[trigger] sources@[k])@ == lto_source(modules@[k]),
            match base {
                Some(b) => b < i && first_in_memory(modules@, b as int),
                None => forall|k: int| 0 <= k < i ==> !((#[trigger] modules@[k]) is InMemory),
            },
        decreases modules@.len() - i,
    {
        match &modules[i] {
            LtoInput::InMemory(s) => {
                sources.push(s.clone());
                if base.is_none() {
                    base = Some(i);
                }
            },
            LtoInput::Serialized(bytes) => {
                let copy = copy_bytes_of(bytes);
                sources.push(decode_or(copy, "/* invalid UTF-8 */"));
            },
        }
        i = i + 1;
    }
    assert(texts(sources@) =~= modules@.map_values(|m: LtoInput| lto_source(m)));
    let first = match base {
        Some(b) => b,
        None => 0,
    };
    (first, join_strings(&sources, "\n/* --- fat LTO module boundary --- */\n"))
}

/// Copies bytes.
fn copy_bytes_of(bytes: &Vec<u8>) -> (r: Vec<u8>)
    ensures
        r@ == bytes@,
{
    let mut out: Vec<u8> = Vec::new();
    let mut i: usize = 0;
    while i < bytes.len()
        invariant
            i <= bytes@.len(),
            out@ == bytes@.take(i as int),
        decreases bytes@.len() - i,
    {
        out.push(bytes[i]);
        i = i + 1;
        assert(out@ =~= bytes@.take(i as int));
    }
    assert(bytes@.take(bytes@.len() as int) =~= bytes@);
    out
}

/// The source of a module while it passes through link-time optimisation by
/// modules.
#[derive(Debug)]
pub struct CThinBuffer(pub Vec<u8>);

impl CThinBuffer {
    /// The bytes of the source.
    pub fn data(&self) -> (r: &Vec<u8>)
        ensures
            r@ == self.0@,
    {
        &self.0
    }
}

/// Takes the source of a module into a buffer.
pub fn prepare_thin(source: &str) -> (r: CThinBuffer)
    ensures
        r.0@ == utf8(source@),
{
    CThinBuffer(string_bytes(source))
}

/// Makes a module of a buffer: one that has nothing but the source. Bytes that
/// are not UTF-8 give an empty source.
pub fn optimize_thin(name: &str, thin: CThinBuffer) -> (r: CModule)
    ensures
        r.wf(),
        r@ == (Module {
            name: name@,
            struct_defs: Seq::empty(),
            function_decls: Seq::empty(),
            global_decls: Seq::empty(),
            defined: Seq::empty(),
            data_sections: Seq::empty(),
            declared_fns: Set::empty(),
            declared_globals: Set::empty(),
            declared_extern_globals: Set::empty(),
            open: Map::empty(),
            blocks: Seq::empty(),
            precompiled_source: Some(decoded(thin.0@, Seq::empty())),
        }),
{
    let mut module = CModule::new(name.to_owned());
    proof {
        reveal_strlit("");
        assert(""@ =~= Seq::<char>::empty());
    }
    module.precompiled_source = Some(decode_or(thin.0, ""));
    module
}

/// A source that passes through a buffer comes out as it went in.
pub proof fn thin_buffer_keeps_source(source: Text)
    ensures
        decoded(utf8(source), Seq::empty()) == source,
{
    vstd::utf8::encode_utf8_valid_utf8(source);
    vstd::utf8::encode_utf8_decode_utf8(source);
}

/// No feature of vector instructions is on.
pub proof fn no_simd_feature_is_on(base: Seq<Text>, name: Text)
    requires
        feature_on(base, name),
    ensures
        !is_simd_feature(name),
        base.contains(name),
{
}

/// Every feature that the calling convention needs is there in the end, and
/// those that were there stay in their places.
pub proof fn required_features_are_there(features: Seq<Text>, required: Seq<Text>, n: nat)
    requires
        n <= required.len(),
    ensures
        forall|i: int|
            0 <= i < n ==> with_required(features, required, n).contains(#[trigger] required[i]),
        extends(features, with_required(features, required, n)),
    decreases n,
{
    if n > 0 {
        let before = with_required(features, required, (n - 1) as nat);
        let after = with_required(features, required, n);
        required_features_are_there(features, required, (n - 1) as nat);
        assert forall|i: int| 0 <= i < n implies after.contains(#[trigger] required[i]) by {
            if i < n - 1 {
                assert(before.contains(required[i]));
                let k = choose|k: int| 0 <= k < before.len() && before[k] == required[i];
                assert(after[k] == required[i]);
            } else if !before.contains(required[i]) {
                assert(after[before.len() as int] == required[i]);
            }
        }
    }
}

} // verus!
