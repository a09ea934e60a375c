use codegen_c::write::{generate_makefile, NativeLibs};

#[test]
fn makefile_names_the_program_and_its_libraries() {
    let mut libs = NativeLibs::new();
    libs.insert("pthread");
    libs.insert("dl");
    let text = generate_makefile("demo", &libs);
    assert!(text.contains("OUTPUT := demo\n"));
    assert!(text.contains("LDFLAGS := -Wl,-dead_strip -ldl -lpthread\n"));
}

#[test]
fn names_and_libraries_stay_in_their_lines() {
    let mut few = NativeLibs::new();
    few.insert("m");
    let mut many = NativeLibs::new();
    many.insert("m");
    many.insert("z");
    let changed = |a: &str, b: &str| -> Vec<String> {
        assert_eq!(a.lines().count(), b.lines().count());
        a.lines().zip(b.lines()).filter(|(x, y)| x != y).map(|(x, _)| x.to_string()).collect()
    };
    let first = generate_makefile("one", &few);
    assert_eq!(changed(&first, &generate_makefile("another", &few)), vec!["OUTPUT := one"]);
    assert_eq!(
        changed(&first, &generate_makefile("one", &many)),
        vec![
            "  LDFLAGS := -Wl,-dead_strip -lm",
            "  LDFLAGS := -Wl,--gc-sections -Wl,--allow-multiple-definition -lm",
        ]
    );
}
