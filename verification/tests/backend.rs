use codegen_c::backend::{
    add_required_features, contains_text, enabled_features, feature_enabled, optimize_thin,
    prepare_thin, run_and_optimize_fat_lto, split_entries, unwind_exports, CCodegenBackend,
    LtoInput,
};
use codegen_c::text::{
    contains_str, decimal, ends_with, hex_literal, join_strings, signed_decimal, starts_with,
    text_less,
};
use codegen_c::values::{render_float, render_int, render_uint};
use codegen_c::write::{
    compiler_flags, csource_name, generate_makefile, leaves_deps_dir, makefile_dir,
    select_native_libs, NativeLib,
};

fn strings(list: &[&str]) -> Vec<String> {
    list.iter().map(|s| s.to_string()).collect()
}

fn lib(name: &str, dylib: bool) -> NativeLib {
    NativeLib { name: name.to_string(), dylib }
}

#[test]
fn the_backend_has_a_name() {
    assert_eq!(CCodegenBackend::new().name(), "c");
}

#[test]
fn vector_features_are_off() {
    let base = strings(&["neon", "sse4.2", "simd128", "crc"]);
    assert!(!feature_enabled(&base, "neon"));
    assert!(!feature_enabled(&base, "sse4.2"));
    assert!(!feature_enabled(&base, "simd128"));
    assert!(feature_enabled(&base, "crc"));
    assert!(!feature_enabled(&base, "aes"));
}

#[test]
fn required_features_are_added_once() {
    let all = add_required_features(strings(&["crc", "neon"]), &strings(&["neon", "fp", "fp"]));
    assert_eq!(all, strings(&["crc", "neon", "fp"]));
    assert!(contains_text(&all, "fp"));
}

#[test]
fn features_are_read_from_a_list() {
    assert_eq!(split_entries("a,b,,c"), strings(&["a", "b", "", "c"]));
    assert_eq!(split_entries(""), strings(&[""]));
    assert_eq!(
        enabled_features("+v8a, +crc ,-aes,\t+\u{2003}x,lse,"),
        strings(&["v8a", "crc", "\u{2003}x"])
    );
    assert!(enabled_features("").is_empty());
}

#[test]
fn white_space_round_features_is_dropped() {
    let blanks = "\t\n\u{b}\u{c}\r \u{85}\u{a0}\u{1680}\u{2000}\u{2001}\u{2002}\u{2003}\u{2004}\u{2005}\u{2006}\u{2007}\u{2008}\u{2009}\u{200a}\u{2028}\u{2029}\u{202f}\u{205f}\u{3000}";
    assert_eq!(blanks.chars().count(), 25);
    for c in blanks.chars() {
        assert_eq!(enabled_features(&format!("{}+crc{}", c, c)), strings(&["crc"]));
    }
    for c in "\u{8}\u{e}\u{1f}\u{180e}\u{200b}\u{feff}x".chars() {
        assert!(enabled_features(&format!("{}+crc", c)).is_empty());
    }
}

#[test]
fn symbols_of_unwinding_are_exported() {
    assert_eq!(
        unwind_exports(),
        strings(&["__rustc_unwind_chain", "_Unwind_RaiseException", "__rust_try"])
    );
}

#[test]
fn modules_are_joined_for_optimization() {
    let (base, text) = run_and_optimize_fat_lto(vec![
        LtoInput::Serialized(b"int a;".to_vec()),
        LtoInput::InMemory("int b;".to_string()),
        LtoInput::Serialized(vec![0xff, 0xfe]),
        LtoInput::InMemory("int c;".to_string()),
    ]);
    assert_eq!(base, 1);
    assert_eq!(
        text,
        "int a;\n/* --- fat LTO module boundary --- */\nint b;\n/* --- fat LTO module boundary --- */\n/* invalid UTF-8 */\n/* --- fat LTO module boundary --- */\nint c;"
    );
}

#[test]
fn thin_buffers_keep_the_source() {
    let thin = prepare_thin("int \u{e9};");
    assert_eq!(thin.data().as_slice(), "int \u{e9};".as_bytes());
    let m = optimize_thin("unit", thin);
    assert_eq!(m.name, "unit");
    assert_eq!(m.precompiled_source, Some("int \u{e9};".to_string()));
    let bad = codegen_c::backend::CThinBuffer(vec![0xc3]);
    assert_eq!(optimize_thin("unit", bad).precompiled_source, Some(String::new()));
}

#[test]
fn shared_libraries_are_selected() {
    let libs = select_native_libs(&vec![
        lib("z", true),
        lib("c", true),
        lib("static_one", false),
        lib("gcc_s", true),
        lib("z", true),
        lib("curl", true),
        lib("m", true),
    ]);
    assert_eq!(libs.names, strings(&["curl", "dl", "m", "pthread", "z"]));
    assert_eq!(select_native_libs(&vec![]).names, strings(&["dl", "m", "pthread"]));
}

#[test]
fn makefile_is_complete() {
    let text = generate_makefile("demo", &select_native_libs(&vec![]));
    assert_eq!(
        text,
        "\
# Generated by rustc_codegen_c
# Makefile for building from transpiled C sources

CC ?= cc

CFLAGS := -std=c11 -fwrapv -fno-strict-aliasing -funwind-tables \\
          -fno-stack-protector -ffunction-sections -fdata-sections -fPIC -O1

UNAME_S := $(shell uname -s)
ifeq ($(UNAME_S),Darwin)
  LDFLAGS := -Wl,-dead_strip -ldl -lm -lpthread
else
  LDFLAGS := -Wl,--gc-sections -Wl,--allow-multiple-definition -ldl -lm -lpthread
endif

SRCDIR := csources
SRCS := $(wildcard $(SRCDIR)/*.c)
OBJS := $(SRCS:.c=.o)
OUTPUT := demo
TARBALL := csources.tar.gz

.PHONY: build tarball clean

build: $(OBJS)
\t$(CC) $(OBJS) $(LDFLAGS) -o $(OUTPUT)

tarball:
\ttar czf $(TARBALL) Makefile $(SRCDIR)

$(SRCDIR)/%.o: $(SRCDIR)/%.c
\t$(CC) $(CFLAGS) -c -o $@ $<

clean:
\trm -f $(OBJS) $(OUTPUT) $(TARBALL)
"
    );
}

#[test]
fn flags_depend_on_the_compiler_and_the_machine() {
    let plain = compiler_flags("cc", "x86_64");
    assert_eq!(
        plain,
        strings(&[
            "-std=c11",
            "-w",
            "-Werror=implicit-function-declaration",
            "-fwrapv",
            "-fno-strict-aliasing",
            "-funwind-tables",
            "-fno-stack-protector",
            "-ffunction-sections",
            "-fdata-sections",
            "-fno-optimize-sibling-calls",
            "-fPIC",
            "-O1",
        ])
    );
    assert!(!compiler_flags("C:\\VC\\CL.EXE", "x86_64").contains(&"-fPIC".to_string()));
    assert!(!compiler_flags("C:\\vc\\Cl", "x86_64").contains(&"-fPIC".to_string()));
    assert!(compiler_flags("clang", "x86_64").contains(&"-fPIC".to_string()));
    let arm = compiler_flags("cc", "aarch64");
    assert_eq!(arm[11], "-mno-outline-atomics");
    assert_eq!(arm[12], "-O1");
}

#[test]
fn source_files_have_safe_names() {
    assert_eq!(csource_name("a.b/c-d_1"), "a_b_c-d_1.c");
    assert_eq!(csource_name("gr\u{fc}n\u{2713}"), "gr\u{fc}n_.c");
}

#[test]
fn outputs_leave_the_deps_directory() {
    assert!(leaves_deps_dir(Some("deps"), true));
    assert!(!leaves_deps_dir(Some("deps"), false));
    assert!(!leaves_deps_dir(Some("out"), true));
    assert!(!leaves_deps_dir(None, true));
    assert_eq!(makefile_dir(Some("")), ".");
    assert_eq!(makefile_dir(None), ".");
    assert_eq!(makefile_dir(Some("/x")), "/x");
}

#[test]
fn numbers_are_written() {
    assert_eq!(decimal(0), "0");
    assert_eq!(decimal(u128::MAX), u128::MAX.to_string());
    assert_eq!(signed_decimal(i128::MIN), i128::MIN.to_string());
    assert_eq!(signed_decimal(-7), "-7");
    assert_eq!(hex_literal(0x0a), "0x0a");
    assert_eq!(hex_literal(0xff), "0xff");
    assert_eq!(render_int(-5), "-5LL");
    assert_eq!(render_uint(5), "5ULL");
    assert_eq!(render_uint(1 << 64), "((uint128_t)1ULL << 64 | 0ULL)");
    assert_eq!(render_float(0x3ff8_0000_0000_0000), "0x1.8000000000000p0");
    assert_eq!(render_float(0xfff0_0000_0000_0000), "-__builtin_inf()");
    assert_eq!(render_float(1), "0x0.0000000000001p-1022");
    assert_eq!(render_float(0x7ff8_0000_0000_0000), "__builtin_nan(\"\")");
}

#[test]
fn text_is_searched() {
    assert!(starts_with("simd_eq", "simd_"));
    assert!(!starts_with("sim", "simd_"));
    assert!(ends_with("x\\cl", "\\cl"));
    assert!(!ends_with("l", "\\cl"));
    assert!(contains_str("a cl.exe b", "cl.exe"));
    assert!(!contains_str("cl.ex", "cl.exe"));
    assert!(contains_str("", ""));
    assert!(text_less("a", "b"));
    assert!(text_less("a", "aa"));
    assert!(!text_less("a", "a"));
    assert!(!text_less("b", "aa"));
    assert_eq!(join_strings(&strings(&["a", "b", "c"]), ", "), "a, b, c");
    assert_eq!(join_strings(&vec![], ", "), "");
}
