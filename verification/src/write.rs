//! Building: the flags of the C compiler, the native libraries, and the makefile
//! that builds the C sources.
use vstd::prelude::*;

use crate::text::{
    chars_of, contains_str, ends_with, has_part, has_prefix, has_suffix, same_text, text_less,
    text_lt, text_order_is_total, text_order_is_transitive, texts, Text,
};

verus! {

// --- Native libraries ---

/// A native library that a crate asks for.
#[derive(Debug)]
pub struct NativeLib {
    pub name: String,
    /// Whether it is linked dynamically.
    pub dylib: bool,
}

/// Whether the C compiler links a library without being asked.
pub open spec fn is_implicit(name: Text) -> bool {
    name == "c"@ || name == "gcc"@ || name == "gcc_s"@ || name == "gcc_eh"@ || name
        == "compiler-rt"@
}

/// Whether a library is one of the system's that are always linked.
pub open spec fn is_core(name: Text) -> bool {
    name == "pthread"@ || name == "dl"@ || name == "m"@
}

/// Whether a library is one that a list asks for: linked dynamically, and not
/// linked anyway.
pub open spec fn asked_for(libs: Seq<NativeLib>, name: Text) -> bool {
    exists|i: int| 0 <= i < libs.len() && (#[trigger] libs[i]).dylib && libs[i].name@ == name
        && !is_implicit(name)
}

/// Whether texts are in order, without one there twice.
pub open spec fn sorted(list: Seq<Text>) -> bool {
    forall|i: int, j: int|
        0 <= i < j < list.len() ==> text_lt(#[trigger] list[i], #[trigger] list[j])
}

/// A set of library names, in order.
#[derive(Debug)]
pub struct NativeLibs {
    pub names: Vec<String>,
}

impl View for NativeLibs {
    type V = Seq<Text>;

    open spec fn view(&self) -> Seq<Text> {
        texts(self.names@)
    }
}

impl NativeLibs {
    /// The names are in order, and none is there twice.
    pub open spec fn wf(&self) -> bool {
        sorted(self@)
    }

    /// An empty set.
    pub fn new() -> (r: NativeLibs)
        ensures
            r.wf(),
            r@ == Seq::<Text>::empty(),
    {
        let r = NativeLibs { names: Vec::new() };
        assert(r@ =~= Seq::empty());
        r
    }

    /// Adds a name, unless it is there.
    pub fn insert(&mut self, name: &str)
        requires
            old(self).wf(),
        ensures
            final(self).wf(),
            forall|t: Text| #[trigger]
                final(self)@.contains(t) <==> old(self)@.contains(t) || t == name@,
    {
        let ghost before = self@;
        let mut at: usize = 0;
        while at < self.names.len() && text_less(&self.names[at], name)
            invariant
                at <= self.names@.len(),
                self@ == before,
                sorted(before),
                forall|k: int| 0 <= k < at ==> text_lt(#[trigger] before[k], name@),
            decreases self.names@.len() - at,
        {
            assert(before[at as int] == self.names@[at as int]@);
            at = at + 1;
        }
        if at < self.names.len() && same_text(&self.names[at], name) {
            assert(before[at as int] == name@);
            assert forall|t: Text| #[trigger]
                self@.contains(t) <==> before.contains(t) || t == name@ by {}
            return;
        }
        self.names.insert(at, name.to_owned());
        proof {
            let after = self@;
            assert(after =~= before.insert(at as int, name@));
            inserted_is_sorted(before, at as int, name@);
            assert forall|t: Text| #[trigger]
                after.contains(t) <==> before.contains(t) || t == name@ by {
                if after.contains(t) {
                    let i = choose|i: int| 0 <= i < after.len() && after[i] == t;
                    if i < at {
                        assert(before[i] == t);
                    } else if i > at {
                        assert(before[i - 1] == t);
                    }
                }
                if before.contains(t) {
                    let i = choose|i: int| 0 <= i < before.len() && before[i] == t;
                    if i < at {
                        assert(after[i] == t);
                    } else {
                        assert(after[i + 1] == t);
                    }
                }
                assert(after[at as int] == name@);
            }
        }
    }
}

proof fn inserted_is_sorted(list: Seq<Text>, at: int, t: Text)
    requires
        sorted(list),
        0 <= at <= list.len(),
        forall|k: int| 0 <= k < at ==> text_lt(#[trigger] list[k], t),
        at < list.len() ==> !text_lt(list[at], t) && list[at] != t,
    ensures
        sorted(list.insert(at, t)),
{
    let after = list.insert(at, t);
    assert forall|i: int, j: int| 0 <= i < j < after.len() implies text_lt(
        #[trigger] after[i],
        #[trigger] after[j],
    ) by {
        if at < list.len() {
            text_order_is_total(t, list[at]);
        }
        if i == at {
            if j - 1 > at {
                assert(text_lt(list[at], list[j - 1]));
                text_order_is_transitive(t, list[at], list[j - 1]);
            }
        } else if j == at {
            assert(text_lt(list[i], t));
        } else {
            let p = if i < at {
                i
            } else {
                i - 1
            };
            let q = if j < at {
                j
            } else {
                j - 1
            };
            assert(text_lt(list[p], list[q]));
        }
    }
}

/// Two ordered lists with the same members are the same list.
pub proof fn sorted_lists_with_equal_members_are_equal(a: Seq<Text>, b: Seq<Text>)
    requires
        sorted(a),
        sorted(b),
        forall|t: Text| #[trigger] a.contains(t) <==> b.contains(t),
    ensures
        a == b,
    decreases a.len() + b.len(),
{
    if a.len() == 0 {
        if b.len() > 0 {
            assert(b.contains(b[0]));
            assert(a.contains(b[0]));
        }
        assert(a =~= b);
    } else if b.len() == 0 {
        assert(a.contains(a[0]));
        assert(b.contains(a[0]));
    } else {
        let x = a.last();
        let y = b.last();
        assert(a.contains(x) && b.contains(y));
        assert(b.contains(x) && a.contains(y));
        let i = choose|i: int| 0 <= i < b.len() && b[i] == x;
        let j = choose|j: int| 0 <= j < a.len() && a[j] == y;
        text_order_is_total(x, y);
        if x != y {
            assert(text_lt(b[i], b[b.len() - 1]));
            assert(text_lt(a[j], a[a.len() - 1]));
        }
        let p = a.drop_last();
        let q = b.drop_last();
        assert forall|t: Text| #[trigger] p.contains(t) <==> q.contains(t) by {
            if p.contains(t) {
                let k = choose|k: int| 0 <= k < p.len() && p[k] == t;
                assert(a[k] == t);
                assert(text_lt(a[k], a[a.len() - 1]));
                text_order_is_total(t, x);
                assert(a.contains(t));
                assert(b.contains(t));
                let m = choose|m: int| 0 <= m < b.len() && b[m] == t;
                assert(q[m] == t);
            }
            if q.contains(t) {
                let k = choose|k: int| 0 <= k < q.len() && q[k] == t;
                assert(b[k] == t);
                assert(text_lt(b[k], b[b.len() - 1]));
                text_order_is_total(t, y);
                assert(b.contains(t));
                assert(a.contains(t));
                let m = choose|m: int| 0 <= m < a.len() && a[m] == t;
                assert(p[m] == t);
            }
        }
        assert(sorted(p)) by {
            assert forall|k: int, m: int| 0 <= k < m < p.len() implies text_lt(
                #[trigger] p[k],
                #[trigger] p[m],
            ) by {
                assert(text_lt(a[k], a[m]));
            }
        }
        assert(sorted(q)) by {
            assert forall|k: int, m: int| 0 <= k < m < q.len() implies text_lt(
                #[trigger] q[k],
                #[trigger] q[m],
            ) by {
                assert(text_lt(b[k], b[m]));
            }
        }
        sorted_lists_with_equal_members_are_equal(p, q);
        assert(a =~= p.push(x));
        assert(b =~= q.push(y));
    }
}

/// Whether the C compiler links a library without being asked.
fn implicit(name: &str) -> (r: bool)
    ensures
        r == is_implicit(name@),
{
    same_text(name, "c") || same_text(name, "gcc") || same_text(name, "gcc_s") || same_text(
        name,
        "gcc_eh",
    ) || same_text(name, "compiler-rt")
}

/// The libraries that the final program is linked with: those that are linked
/// dynamically and not anyway, and the system's core libraries.
pub fn select_native_libs(libs: &Vec<NativeLib>) -> (r: NativeLibs)
    ensures
        r.wf(),
        forall|t: Text| #[trigger] r@.contains(t) <==> asked_for(libs@, t) || is_core(t),
{
    let mut out = NativeLibs::new();
    let mut i: usize = 0;
    while i < libs.len()
        invariant
            i <= libs@.len(),
            out.wf(),
            forall|t: Text| #[trigger] out@.contains(t) <==> asked_for(libs@.take(i as int), t),
        decreases libs@.len() - i,
    {
        let lib = &libs[i];
        if lib.dylib && !implicit(&lib.name) {
            out.insert(&lib.name);
        }
        i = i + 1;
        proof {
            let now = libs@.take(i as int);
            let prev = libs@.take(i - 1);
            assert forall|t: Text| #[trigger] out@.contains(t) <==> asked_for(now, t) by {
                if asked_for(prev, t) {
                    let k = choose|k: int|
                        0 <= k < prev.len() && (#[trigger] prev[k]).dylib && prev[k].name@ == t
                            && !is_implicit(t);
                    assert(now[k] == prev[k]);
                }
                if asked_for(now, t) {
                    let k = choose|k: int|
                        0 <= k < now.len() && (#[trigger] now[k]).dylib && now[k].name@ == t
                            && !is_implicit(t);
                    if k < i - 1 {
                        assert(prev[k] == now[k]);
                    }
                }
                assert(now[i - 1] == libs@[i - 1]);
            }
        }
    }
    assert(libs@.take(libs@.len() as int) =~= libs@);
    out.insert("pthread");
    out.insert("dl");
    out.insert("m");
    out
}

// --- The makefile ---

/// The linker's flags for a list of libraries.
pub open spec fn lib_flags(libs: Seq<Text>) -> Text
    decreases libs.len(),
{
    if libs.len() == 0 {
        Seq::empty()
    } else {
        lib_flags(libs.drop_last()) + " -l"@ + libs.last()
    }
}

/// The makefile up to the linker's flags.
pub open spec fn makefile_head() -> Text {
    "\
# Generated by rustc_codegen_c
# Makefile for building from transpiled C sources

CC ?= cc

CFLAGS := -std=c11 -fwrapv -fno-strict-aliasing -funwind-tables \\
          -fno-stack-protector -ffunction-sections -fdata-sections -fPIC -O1

UNAME_S := $(shell uname -s)
ifeq ($(UNAME_S),Darwin)"@
}

/// The makefile between the linker's flags and the name of the program.
pub open spec fn makefile_middle() -> Text {
    "\
endif

SRCDIR := csources
SRCS := $(wildcard $(SRCDIR)/*.c)
OBJS := $(SRCS:.c=.o)"@
}

/// The makefile after the name of the program.
pub open spec fn makefile_end() -> Text {
    "\
TARBALL := csources.tar.gz

.PHONY: build tarball clean

build: $(OBJS)
\t$(CC) $(OBJS) $(LDFLAGS) -o $(OUTPUT)

tarball:
\ttar czf $(TARBALL) Makefile $(SRCDIR)

$(SRCDIR)/%.o: $(SRCDIR)/%.c
\t$(CC) $(CFLAGS) -c -o $@ $<

clean:
\trm -f $(OBJS) $(OUTPUT) $(TARBALL)
"@
}

/// The makefile that builds a program from its C sources.
pub open spec fn makefile_text(crate_name: Text, libs: Seq<Text>) -> Text {
    makefile_head() + "\n  LDFLAGS := -Wl,-dead_strip"@ + lib_flags(libs) + "\nelse"@
        + "\n  LDFLAGS := -Wl,--gc-sections -Wl,--allow-multiple-definition"@ + lib_flags(libs)
        + "\n"@ + makefile_middle() + "\nOUTPUT := "@ + crate_name + "\n"@ + makefile_end()
}

/// Writes the linker's flags for a list of libraries.
fn render_flags(libs: &Vec<String>) -> (r: String)
    ensures
        r@ == lib_flags(texts(libs@)),
{
    let mut out = String::new();
    let mut i: usize = 0;
    assert(texts(libs@).take(0) =~= Seq::empty());
    while i < libs.len()
        invariant
            i <= libs@.len(),
            out@ == lib_flags(texts(libs@).take(i as int)),
        decreases libs@.len() - i,
    {
        let ghost now = texts(libs@).take(i + 1);
        assert(now.drop_last() =~= texts(libs@).take(i as int));
        out = out.concat(" -l").concat(&libs[i]);
        i = i + 1;
    }
    assert(texts(libs@).take(libs@.len() as int) =~= texts(libs@));
    out
}

/// Writes the makefile. It works on Linux and macOS: the linker's flags are
/// chosen when `make` runs.
pub fn generate_makefile(crate_name: &str, native_libs: &NativeLibs) -> (r: String)
    ensures
        r@ == makefile_text(crate_name@, native_libs@),
{
    let libs = render_flags(&native_libs.names);
    "\
# Generated by rustc_codegen_c
# Makefile for building from transpiled C sources

CC ?= cc

CFLAGS := -std=c11 -fwrapv -fno-strict-aliasing -funwind-tables \\
          -fno-stack-protector -ffunction-sections -fdata-sections -fPIC -O1

UNAME_S := $(shell uname -s)
ifeq ($(UNAME_S),Darwin)".to_owned().concat(
        "\n  LDFLAGS := -Wl,-dead_strip",
    ).concat(&libs).concat("\nelse").concat(
        "\n  LDFLAGS := -Wl,--gc-sections -Wl,--allow-multiple-definition",
    ).concat(&libs).concat("\n").concat("\
endif

SRCDIR := csources
SRCS := $(wildcard $(SRCDIR)/*.c)
OBJS := $(SRCS:.c=.o)").concat("\nOUTPUT := ").concat(crate_name).concat("\n").concat("\
TARBALL := csources.tar.gz

.PHONY: build tarball clean

build: $(OBJS)
\t$(CC) $(OBJS) $(LDFLAGS) -o $(OUTPUT)

tarball:
\ttar czf $(TARBALL) Makefile $(SRCDIR)

$(SRCDIR)/%.o: $(SRCDIR)/%.c
\t$(CC) $(CFLAGS) -c -o $@ $<

clean:
\trm -f $(OBJS) $(OUTPUT) $(TARBALL)
")
}

// --- The C compiler ---

/// The lower-case form of a text.
pub uninterp spec fn lowercase(s: Text) -> Text;

/// Calls `str::to_lowercase`, which maps a string to its lower-case form by the
/// tables of Unicode. The result depends on the string alone.
#[verifier::external_body]
fn to_lowercase(s: &str) -> (r: String)
    ensures
        r@ == lowercase(s@),
{
    s.to_lowercase()
}

/// Whether a compiler, by its name in lower case, is one that has no flag for
/// position-independent code.
pub open spec fn is_msvc_like(cc_lower: Text) -> bool {
    has_part(cc_lower, "cl.exe"@) || has_suffix(cc_lower, "\\cl"@)
}

/// The flags that every compilation has.
pub open spec fn common_flags() -> Seq<Text> {
    seq![
        "-std=c11"@,
        "-w"@,
        "-Werror=implicit-function-declaration"@,
        "-fwrapv"@,
        "-fno-strict-aliasing"@,
        "-funwind-tables"@,
        "-fno-stack-protector"@,
        "-ffunction-sections"@,
        "-fdata-sections"@,
        "-fno-optimize-sibling-calls"@,
    ]
}

/// The flags of the C compiler, given its name in lower case and the target.
pub open spec fn flags_for(cc_lower: Text, target_arch: Text) -> Seq<Text> {
    let pic = if is_msvc_like(cc_lower) {
        common_flags()
    } else {
        common_flags().push("-fPIC"@)
    };
    let arch = if target_arch == "aarch64"@ {
        pic.push("-mno-outline-atomics"@)
    } else {
        pic
    };
    arch.push("-O1"@)
}

/// The flags of the C compiler, given its name in lower case and the target.
/// Overflow wraps, pointers may alias, and functions can be unwound and are not
/// turned into loops.
pub fn compiler_flags_for(cc_lower: &str, target_arch: &str) -> (r: Vec<String>)
    ensures
        texts(r@) == flags_for(cc_lower@, target_arch@),
{
    let mut out: Vec<String> = Vec::new();
    out.push("-std=c11".to_owned());
    out.push("-w".to_owned());
    out.push("-Werror=implicit-function-declaration".to_owned());
    out.push("-fwrapv".to_owned());
    out.push("-fno-strict-aliasing".to_owned());
    out.push("-funwind-tables".to_owned());
    out.push("-fno-stack-protector".to_owned());
    out.push("-ffunction-sections".to_owned());
    out.push("-fdata-sections".to_owned());
    out.push("-fno-optimize-sibling-calls".to_owned());
    if !contains_str(cc_lower, "cl.exe") && !ends_with(cc_lower, "\\cl") {
        out.push("-fPIC".to_owned());
    }
    if same_text(target_arch, "aarch64") {
        out.push("-mno-outline-atomics".to_owned());
    }
    out.push("-O1".to_owned());
    assert(texts(out@) =~= flags_for(cc_lower@, target_arch@));
    out
}

/// The flags of the C compiler, given its name and the target.
pub fn compiler_flags(cc: &str, target_arch: &str) -> (r: Vec<String>)
    ensures
        texts(r@) == flags_for(lowercase(cc@), target_arch@),
{
    compiler_flags_for(&to_lowercase(cc), target_arch)
}

// --- Files ---

/// Whether a character is a letter or a number.
pub uninterp spec fn alphanumeric(c: char) -> bool;

/// Calls `char::is_alphanumeric`, which tells by the tables of Unicode whether a
/// character is a letter or a number. The result depends on the character alone.
#[verifier::external_body]
fn is_alphanumeric(c: char) -> (r: bool)
    ensures
        r == alphanumeric(c),
{
    c.is_alphanumeric()
}

/// Whether a character may stand in the name of a source file.
pub open spec fn safe_char(c: char) -> bool {
    alphanumeric(c) || c == '_' || c == '-'
}

/// A name with every character that may not stand in it replaced.
pub open spec fn masked(name: Text, keep: Seq<bool>) -> Text {
    name.map(
        |i: int, c: char|
            if keep[i] {
                c
            } else {
                '_'
            },
    )
}

/// The name of the source file of a module.
pub open spec fn safe_name(name: Text) -> Text {
    masked(name, name.map_values(|c: char| safe_char(c)))
}

/// Replaces the characters of a name that are not to be kept by `_`.
pub fn mask_name(name: &Vec<char>, keep: &Vec<bool>) -> (r: String)
    requires
        name@.len() == keep@.len(),
    ensures
        r@ == masked(name@, keep@),
{
    let mut out = String::new();
    let mut i: usize = 0;
    while i < name.len()
        invariant
            i <= name@.len(),
            name@.len() == keep@.len(),
            out@ == masked(name@, keep@).take(i as int),
        decreases name@.len() - i,
    {
        out.push(
            if keep[i] {
                name[i]
            } else {
                '_'
            },
        );
        i = i + 1;
        assert(out@ =~= masked(name@, keep@).take(i as int));
    }
    assert(out@ =~= masked(name@, keep@));
    out
}

/// The name of the source file of a module: letters, numbers, `_` and `-` are
/// kept, and `.c` follows.
pub fn csource_name(module_name: &str) -> (r: String)
    ensures
        r@ == safe_name(module_name@) + ".c"@,
{
    let name = chars_of(module_name);
    let mut keep: Vec<bool> = Vec::new();
    let mut i: usize = 0;
    while i < name.len()
        invariant
            i <= name@.len(),
            keep@ == name@.map_values(|c: char| safe_char(c)).take(i as int),
        decreases name@.len() - i,
    {
        let c = name[i];
        keep.push(is_alphanumeric(c) || c == '_' || c == '-');
        i = i + 1;
        assert(keep@ =~= name@.map_values(|c: char| safe_char(c)).take(i as int));
    }
    assert(keep@ =~= name@.map_values(|c: char| safe_char(c)));
    mask_name(&name, &keep).concat(".c")
}

/// Whether the sources go one directory up: out of the directory in which
/// intermediate files are kept, where there is one above.
pub fn leaves_deps_dir(dir_name: Option<&str>, has_parent: bool) -> (r: bool)
    ensures
        r == ((dir_name matches Some(n) && n@ == "deps"@) && has_parent),
{
    match dir_name {
        Some(n) => same_text(n, "deps") && has_parent,
        None => false,
    }
}

/// The directory of the makefile where the sources go to a directory of their
/// own: the one above that.
pub fn makefile_dir(parent: Option<&str>) -> (r: String)
    ensures
        r@ == match parent {
            Some(p) => if p@.len() == 0 {
                "."@
            } else {
                p@
            },
            None => "."@,
        },
{
    match parent {
        Some(p) => {
            let empty = same_text(p, "");
            proof {
                reveal_strlit("");
                assert(p@.len() == 0 ==> p@ =~= ""@);
            }
            if empty {
                ".".to_owned()
            } else {
                p.to_owned()
            }
        },
        None => ".".to_owned(),
    }
}

// --- Laws ---

/// The name of a module is made safe character by character: it keeps its length,
/// only safe characters are left, and doing it again changes nothing.
pub proof fn safe_names_are_safe(name: Text)
    ensures
        safe_name(name).len() == name.len(),
        forall|i: int| 0 <= i < name.len() ==> safe_char(#[trigger] safe_name(name)[i]),
        safe_name(safe_name(name)) == safe_name(name),
{
    let once = safe_name(name);
    assert forall|i: int| 0 <= i < name.len() implies safe_char(#[trigger] once[i]) by {}
    assert(safe_name(once) =~= once);
}

/// A core library of the system is always linked, and one that is linked anyway
/// never asked for, unless it is a core library.
pub proof fn core_libraries_are_linked(libs: Seq<NativeLib>, linked: Seq<Text>, name: Text)
    requires
        forall|t: Text| #[trigger] linked.contains(t) <==> asked_for(libs, t) || is_core(t),
    ensures
        is_core(name) ==> linked.contains(name),
        is_implicit(name) && !is_core(name) ==> !linked.contains(name),
{
}

/// Whether a text has no line break.
pub open spec fn one_line(s: Text) -> bool {
    forall|i: int| 0 <= i < s.len() ==> #[trigger] s[i] != '\n'
}

/// The lines of a text.
pub open spec fn lines_of(s: Text) -> Seq<Text>
    decreases s.len(),
{
    if s.len() == 0 {
        seq![Seq::empty()]
    } else {
        let rest = lines_of(s.drop_first());
        if s[0] == '\n' {
            seq![Seq::empty()] + rest
        } else {
            rest.update(0, seq![s[0]] + rest[0])
        }
    }
}

proof fn lines_are_some(s: Text)
    ensures
        lines_of(s).len() > 0,
    decreases s.len(),
{
    if s.len() > 0 {
        lines_are_some(s.drop_first());
    }
}

/// The last line of a text and the first of what follows it are one line.
proof fn lines_of_sum(a: Text, b: Text)
    ensures
        lines_of(a + b) == lines_of(a).drop_last() + seq![lines_of(a).last() + lines_of(b)[0]]
            + lines_of(b).drop_first(),
    decreases a.len(),
{
    lines_are_some(a);
    lines_are_some(b);
    if a.len() == 0 {
        assert(a + b =~= b);
        assert(lines_of(a).last() + lines_of(b)[0] =~= lines_of(b)[0]);
        assert(lines_of(b) =~= seq![lines_of(b)[0]] + lines_of(b).drop_first());
        assert(lines_of(a).drop_last() =~= Seq::empty());
        assert(lines_of(a + b) =~= lines_of(a).drop_last() + seq![
            lines_of(a).last() + lines_of(b)[0],
        ] + lines_of(b).drop_first());
    } else {
        let rest = a.drop_first();
        lines_are_some(rest);
        lines_of_sum(rest, b);
        assert((a + b).drop_first() =~= rest + b);
        assert((a + b)[0] == a[0]);
        let (x, y) = (lines_of(rest), lines_of(b));
        let sum = lines_of(rest + b);
        let want = lines_of(a).drop_last() + seq![lines_of(a).last() + y[0]] + y.drop_first();
        if a[0] == '\n' {
            assert(seq![Seq::<char>::empty()] + sum =~= want);
        } else if x.len() == 1 {
            assert(seq![a[0]] + (x[0] + y[0]) =~= seq![a[0]] + x[0] + y[0]);
            assert(sum.update(0, seq![a[0]] + sum[0]) =~= want);
        } else {
            assert(sum.update(0, seq![a[0]] + sum[0]) =~= want);
        }
    }
}

proof fn one_line_is_its_line(s: Text)
    requires
        one_line(s),
    ensures
        lines_of(s) == seq![s],
    decreases s.len(),
{
    if s.len() > 0 {
        let rest = s.drop_first();
        assert(one_line(rest)) by {
            assert forall|i: int| 0 <= i < rest.len() implies #[trigger] rest[i] != '\n' by {
                assert(rest[i] == s[i + 1]);
            }
        }
        one_line_is_its_line(rest);
        assert(seq![s[0]] + rest =~= s);
        assert(lines_of(s) =~= seq![s]);
    } else {
        assert(s =~= Seq::empty());
    }
}

/// A text of one line that is put between two others, after which the next line
/// begins, stands in the last line of what is before it.
proof fn lines_round(a: Text, mid: Text, z: Text)
    requires
        one_line(mid),
        z.len() > 0,
        z[0] == '\n',
    ensures
        lines_of(a + mid + z) == lines_of(a).drop_last() + seq![lines_of(a).last() + mid]
            + lines_of(z).drop_first(),
        lines_of(a).len() > 0,
{
    lines_are_some(a);
    lines_are_some(z);
    one_line_is_its_line(mid);
    lines_of_sum(a, mid);
    lines_of_sum(a + mid, z);
    let before = lines_of(a).drop_last();
    let line = lines_of(a).last() + mid;
    assert(lines_of(mid).drop_first() =~= Seq::empty());
    assert(lines_of(a + mid) =~= before.push(line));
    assert(lines_of(a + mid).drop_last() =~= before);
    assert(line + lines_of(z)[0] =~= line);
}

/// A line that begins with a line break ends what is before it.
proof fn last_line(a: Text, line: Text)
    requires
        one_line(line),
    ensures
        lines_of(a + ("\n"@ + line)).last() == line,
{
    reveal_strlit("\n");
    let s = "\n"@ + line;
    assert(s.drop_first() =~= line);
    one_line_is_its_line(line);
    assert(lines_of(s) =~= seq![Seq::empty(), line]);
    lines_of_sum(a, s);
    lines_are_some(a);
    assert(lines_of(s).drop_first() =~= seq![line]);
}

/// Whether two lists of lines have the same length and differ only in lines that
/// begin with a text in both.
pub open spec fn differ_only_in(a: Seq<Text>, b: Seq<Text>, prefix: Text) -> bool {
    &&& a.len() == b.len()
    &&& forall|i: int|
        0 <= i < a.len() && #[trigger] a[i] != #[trigger] b[i] ==> has_prefix(a[i], prefix)
            && has_prefix(b[i], prefix)
}

/// Putting another text into a line changes that line alone.
proof fn rounds_differ(a: Text, x: Text, y: Text, z: Text, prefix: Text)
    requires
        one_line(x),
        one_line(y),
        z.len() > 0,
        z[0] == '\n',
        has_prefix(lines_of(a).last(), prefix),
    ensures
        differ_only_in(lines_of(a + x + z), lines_of(a + y + z), prefix),
{
    lines_round(a, x, z);
    lines_round(a, y, z);
    let (p, q) = (lines_of(a + x + z), lines_of(a + y + z));
    let line = lines_of(a).last();
    let at = lines_of(a).len() - 1;
    assert((line + x).take(prefix.len() as int) =~= line.take(prefix.len() as int));
    assert((line + y).take(prefix.len() as int) =~= line.take(prefix.len() as int));
    assert forall|i: int|
        0 <= i < p.len() && #[trigger] p[i] != #[trigger] q[i] implies has_prefix(p[i], prefix)
        && has_prefix(q[i], prefix) by {
        assert(i == at);
    }
}

proof fn flags_are_one_line(libs: Seq<Text>)
    requires
        forall|i: int| 0 <= i < libs.len() ==> one_line(#[trigger] libs[i]),
    ensures
        one_line(lib_flags(libs)),
    decreases libs.len(),
{
    if libs.len() > 0 {
        let rest = libs.drop_last();
        assert forall|i: int| 0 <= i < rest.len() implies one_line(#[trigger] rest[i]) by {
            assert(rest[i] == libs[i]);
        }
        flags_are_one_line(rest);
        reveal_strlit(" -l");
        let (a, b) = (lib_flags(rest), libs.last());
        assert(one_line(b));
        let s = a + " -l"@ + b;
        assert forall|i: int| 0 <= i < s.len() implies #[trigger] s[i] != '\n' by {
            if i < a.len() {
                assert(s[i] == a[i]);
            } else if i >= a.len() + 3 {
                assert(s[i] == b[i - a.len() - 3]);
            }
        }
    }
}

/// The name of the program changes the makefile only in the line that begins with
/// `OUTPUT := `.
pub proof fn name_is_in_its_line(a: Text, b: Text, libs: Seq<Text>)
    requires
        one_line(a),
        one_line(b),
    ensures
        differ_only_in(
            lines_of(makefile_text(a, libs)),
            lines_of(makefile_text(b, libs)),
            "OUTPUT := "@,
        ),
{
    let before = makefile_head() + "\n  LDFLAGS := -Wl,-dead_strip"@ + lib_flags(libs)
        + "\nelse"@ + "\n  LDFLAGS := -Wl,--gc-sections -Wl,--allow-multiple-definition"@
        + lib_flags(libs) + "\n"@ + makefile_middle();
    let z = "\n"@ + makefile_end();
    reveal_strlit("\n");
    reveal_strlit("OUTPUT := ");
    reveal_strlit("\nOUTPUT := ");
    assert("\nOUTPUT := "@ =~= "\n"@ + "OUTPUT := "@);
    last_line(before, "OUTPUT := "@);
    let head = before + "\nOUTPUT := "@;
    assert(makefile_text(a, libs) =~= head + a + z);
    assert(makefile_text(b, libs) =~= head + b + z);
    assert("OUTPUT := "@.take("OUTPUT := "@.len() as int) =~= "OUTPUT := "@);
    rounds_differ(head, a, b, z, "OUTPUT := "@);
}

/// The libraries change the makefile only in the lines that begin with
/// `  LDFLAGS := `.
pub proof fn libraries_are_in_their_lines(name: Text, a: Seq<Text>, b: Seq<Text>)
    requires
        forall|i: int| 0 <= i < a.len() ==> one_line(#[trigger] a[i]),
        forall|i: int| 0 <= i < b.len() ==> one_line(#[trigger] b[i]),
    ensures
        differ_only_in(
            lines_of(makefile_text(name, a)),
            lines_of(makefile_text(name, b)),
            "  LDFLAGS := "@,
        ),
{
    let (x, y) = (lib_flags(a), lib_flags(b));
    flags_are_one_line(a);
    flags_are_one_line(b);
    let strip = "  LDFLAGS := -Wl,-dead_strip"@;
    let sections = "  LDFLAGS := -Wl,--gc-sections -Wl,--allow-multiple-definition"@;
    let prefix = "  LDFLAGS := "@;
    reveal_strlit("\n");
    reveal_strlit("\nelse");
    reveal_strlit("  LDFLAGS := ");
    reveal_strlit("  LDFLAGS := -Wl,-dead_strip");
    reveal_strlit("\n  LDFLAGS := -Wl,-dead_strip");
    reveal_strlit("  LDFLAGS := -Wl,--gc-sections -Wl,--allow-multiple-definition");
    reveal_strlit("\n  LDFLAGS := -Wl,--gc-sections -Wl,--allow-multiple-definition");
    assert("\n  LDFLAGS := -Wl,-dead_strip"@ =~= "\n"@ + strip);
    assert("\n  LDFLAGS := -Wl,--gc-sections -Wl,--allow-multiple-definition"@ =~= "\n"@
        + sections);
    assert(strip.take(prefix.len() as int) =~= prefix);
    assert(sections.take(prefix.len() as int) =~= prefix);
    let head = makefile_head() + ("\n"@ + strip);
    last_line(makefile_head(), strip);
    let middle = "\nelse"@ + ("\n"@ + sections);
    let tail = "\n"@ + makefile_middle() + "\nOUTPUT := "@ + name + "\n"@ + makefile_end();
    let (p, q, r) = (
        lines_of(makefile_text(name, a)),
        lines_of(head + y + (middle + x + tail)),
        lines_of(makefile_text(name, b)),
    );
    assert(makefile_text(name, a) =~= head + x + (middle + x + tail));
    rounds_differ(head, x, y, middle + x + tail, prefix);
    let upto = head + y + "\nelse"@;
    last_line(upto, sections);
    let second = upto + ("\n"@ + sections);
    assert(head + y + (middle + x + tail) =~= second + x + tail);
    assert(makefile_text(name, b) =~= second + y + tail);
    rounds_differ(second, x, y, tail, prefix);
    assert forall|i: int|
        0 <= i < p.len() && #[trigger] p[i] != #[trigger] r[i] implies has_prefix(p[i], prefix)
        && has_prefix(r[i], prefix) by {
        assert(p[i] != q[i] || q[i] != r[i]);
    }
}

} // verus!
