//! What is read from and written for the build: lists of features, modules that are
//! joined, flags and libraries.
use vstd::prelude::*;

use crate::backend::{
    blanks, entries, entry_name, entry_names, fat_source, feature_on, is_simd_feature, lto_source,
    split_commas, trimmed_end, trimmed_start, with_required, LtoInput,
};
use crate::text::{has_part, has_suffix, join, Text};
use crate::write::{common_flags, flags_for, is_core, is_implicit, lib_flags, safe_name};

verus! {

// --- Lists of features ---

proof fn pieces_are_put_together(s: Seq<char>, n: nat)
    requires
        n <= s.len(),
    ensures
        ({
            let (done, rest) = split_commas(s, n);
            &&& join(done.push(rest), ","@) == s.take(n as int)
            &&& forall|i: int| 0 <= i < done.len() ==> !(#[trigger] done[i]).contains(',')
            &&& !rest.contains(',')
        }),
    decreases n,
{
    reveal_strlit(",");
    if n == 0 {
        let (done, rest) = split_commas(s, n);
        assert(done.push(rest) =~= seq![rest]);
        assert(join(seq![rest], ","@) =~= s.take(0));
    } else {
        let m = (n - 1) as nat;
        pieces_are_put_together(s, m);
        let (done, rest) = split_commas(s, m);
        let (done1, rest1) = split_commas(s, n);
        assert(s.take(n as int) =~= s.take(m as int).push(s[m as int]));
        if s[n - 1] == ',' {
            assert(done1.push(rest1).drop_last() =~= done1);
            assert(done1 =~= done.push(rest));
            assert(join(done1.push(rest1), ","@) =~= join(done1, ","@) + ","@ + rest1);
            assert(join(done1, ","@) + ","@ + rest1 =~= s.take(n as int));
            assert forall|i: int| 0 <= i < done1.len() implies !(#[trigger] done1[i]).contains(
                ',',
            ) by {
                if i == done.len() {
                    assert(done1[i] == rest);
                } else {
                    assert(done1[i] == done[i]);
                }
            }
        } else {
            let c = s[n - 1];
            assert forall|i: int| 0 <= i < rest1.len() implies rest1[i] != ',' by {
                if i < rest.len() {
                    assert(rest1[i] == rest[i]);
                    assert(rest.contains(rest[i]));
                }
            }
            if done.len() == 0 {
                assert(done.push(rest) =~= seq![rest]);
                assert(done.push(rest1) =~= seq![rest1]);
                assert(join(seq![rest1], ","@) =~= s.take(n as int));
            } else {
                assert(done.push(rest).drop_last() =~= done);
                assert(done.push(rest1).drop_last() =~= done);
                assert(join(done.push(rest1), ","@) =~= join(done, ","@) + ","@ + rest1);
                assert(join(done.push(rest), ","@) =~= join(done, ","@) + ","@ + rest);
                let head = join(done, ","@) + ","@;
                assert(head + rest1 =~= (head + rest).push(c));
                assert((head + rest).push(c) =~= s.take(n as int));
            }
        }
    }
}

/// A list is divided at its commas and nowhere else: the entries hold none, and with
/// commas between them they are the list again.
pub proof fn entries_are_put_together_again(s: Text)
    ensures
        join(entries(s), ","@) == s,
        forall|i: int| 0 <= i < entries(s).len() ==> !(#[trigger] entries(s)[i]).contains(','),
{
    pieces_are_put_together(s, s.len());
    let (done, rest) = split_commas(s, s.len());
    assert(s.take(s.len() as int) =~= s);
    assert forall|i: int| 0 <= i < entries(s).len() implies !(#[trigger] entries(s)[i]).contains(
        ',',
    ) by {
        if i < done.len() {
            assert(entries(s)[i] == done[i]);
        } else {
            assert(entries(s)[i] == rest);
        }
    }
}

proof fn end_is_trimmed(blank: Seq<bool>, n: nat)
    requires
        n <= blank.len(),
    ensures
        trimmed_end(blank, n) <= n,
        forall|i: int| trimmed_end(blank, n) <= i < n ==> blank[i],
        trimmed_end(blank, n) > 0 ==> !blank[trimmed_end(blank, n) - 1],
    decreases n,
{
    if n > 0 && blank[n - 1] {
        end_is_trimmed(blank, (n - 1) as nat);
    }
}

proof fn start_is_trimmed(blank: Seq<bool>, at: nat, end: nat)
    requires
        at <= end <= blank.len(),
    ensures
        at <= trimmed_start(blank, at, end) <= end,
        forall|i: int| at <= i < trimmed_start(blank, at, end) ==> blank[i],
        trimmed_start(blank, at, end) < end ==> !blank[trimmed_start(blank, at, end) as int],
    decreases end - at,
{
    if at < end && blank[at as int] {
        start_is_trimmed(blank, at + 1, end);
    }
}

/// An entry names a feature where it starts with a plus sign, white space around it
/// aside; the name is what stands behind the sign.
pub proof fn entries_name_features(before: Text, name: Text, after: Text)
    requires
        forall|i: int| 0 <= i < before.len() ==> crate::backend::whitespace(#[trigger] before[i]),
        forall|i: int| 0 <= i < after.len() ==> crate::backend::whitespace(#[trigger] after[i]),
        name.len() > 0,
        !crate::backend::whitespace(name[0]),
        !crate::backend::whitespace(name.last()),
    ensures
        ({
            let s = before + name + after;
            entry_name(s, blanks(s)) == if name[0] == '+' {
                Some(name.skip(1))
            } else {
                None
            }
        }),
{
    let s = before + name + after;
    let blank = blanks(s);
    let (a, z) = (before.len() as int, (before.len() + name.len()) as int);
    assert forall|i: int| 0 <= i < s.len() implies blank[i] == crate::backend::whitespace(
        #[trigger] s[i],
    ) by {}
    end_is_trimmed(blank, s.len());
    let end = trimmed_end(blank, s.len());
    assert(s[z - 1] == name.last());
    assert(!blank[z - 1]);
    if end < z {
        assert(blank[z - 1]);
    }
    if end > z {
        assert(s[end - 1] == after[end - 1 - z]);
        assert(blank[end - 1]);
    }
    assert(end == z);
    start_is_trimmed(blank, 0, end);
    let start = trimmed_start(blank, 0, end);
    assert(s[a] == name[0]);
    assert(!blank[a]);
    if start > a {
        assert(blank[a]);
    }
    if start < a {
        assert(s[start as int] == before[start as int]);
        assert(blank[start as int]);
    }
    assert(start == a);
    assert(s.subrange(a + 1, z) =~= name.skip(1));
}

/// What only has white space names nothing.
pub proof fn blank_entries_name_nothing(s: Text)
    requires
        forall|i: int| 0 <= i < s.len() ==> crate::backend::whitespace(#[trigger] s[i]),
    ensures
        entry_name(s, blanks(s)) is None,
{
    let blank = blanks(s);
    end_is_trimmed(blank, s.len());
    let end = trimmed_end(blank, s.len());
    if end > 0 {
        assert(crate::backend::whitespace(s[end - 1]));
    }
    start_is_trimmed(blank, 0, end);
}

/// The features of a list are those that its entries name, in order.
pub proof fn features_are_in_order(list: Seq<Text>, last: Text)
    ensures
        entry_names(list.push(last), list.len() + 1) == match entry_name(last, blanks(last)) {
            Some(name) => entry_names(list, list.len()).push(name),
            None => entry_names(list, list.len()),
        },
        entry_names(Seq::empty(), 0).len() == 0,
{
    earlier_names_stay(list, last, list.len());
}

proof fn earlier_names_stay(list: Seq<Text>, last: Text, n: nat)
    requires
        n <= list.len(),
    ensures
        entry_names(list.push(last), n) == entry_names(list, n),
    decreases n,
{
    if n > 0 {
        earlier_names_stay(list, last, (n - 1) as nat);
    }
}

/// Required features are added behind those that are there; nothing else is added and
/// nothing is taken away.
pub proof fn only_required_features_are_added(
    features: Seq<Text>,
    required: Seq<Text>,
    n: nat,
    name: Text,
)
    requires
        n <= required.len(),
    ensures
        features.is_prefix_of(with_required(features, required, n)),
        with_required(features, required, n).contains(name) <==> features.contains(name)
            || required.take(n as int).contains(name),
    decreases n,
{
    if n == 0 {
        assert(required.take(0) =~= Seq::empty());
    } else {
        let m = (n - 1) as nat;
        only_required_features_are_added(features, required, m, name);
        let before = with_required(features, required, m);
        let r = required[m as int];
        assert(required.take(n as int) =~= required.take(m as int).push(r));
        let all = required.take(n as int);
        if name == r {
            assert(all[m as int] == name);
            if !before.contains(r) {
                assert(before.push(r)[before.len() as int] == name);
            }
        } else {
            if before.contains(name) && !before.contains(r) {
                let k = before.index_of(name);
                assert(before.push(r)[k] == name);
            }
            if !before.contains(r) && before.push(r).contains(name) {
                let k = before.push(r).index_of(name);
                assert(before[k] == name);
            }
            if required.take(m as int).contains(name) {
                let k = required.take(m as int).index_of(name);
                assert(all[k] == name);
            }
            if all.contains(name) {
                let k = all.index_of(name);
                assert(required.take(m as int)[k] == name);
            }
        }
    }
}

/// A feature that is on is one of the base features, and of those only the ones on
/// vectors are off.
pub proof fn base_features_are_on(base: Seq<Text>, name: Text)
    ensures
        feature_on(base, name) ==> base.contains(name),
        base.contains(name) && !feature_on(base, name) ==> is_simd_feature(name),
{
}

// --- Modules that are joined ---

/// Modules that are joined stand in order with a line between them that says where one
/// ends; a single one is unchanged.
pub proof fn modules_stand_in_order(modules: Seq<LtoInput>, m: LtoInput)
    ensures
        fat_source(seq![m]) == lto_source(m),
        modules.len() > 0 ==> fat_source(modules.push(m)) == fat_source(modules)
            + "\n/* --- fat LTO module boundary --- */\n"@ + lto_source(m),
{
    let f = |m: LtoInput| lto_source(m);
    assert(seq![m].map_values(f) =~= seq![lto_source(m)]);
    assert(modules.push(m).map_values(f) =~= modules.map_values(f).push(lto_source(m)));
    assert(modules.map_values(f).push(lto_source(m)).drop_last() =~= modules.map_values(f));
}

// --- Flags ---

/// Every compiler gets the common flags and the level of optimisation; position
/// independent code is for those that know it, and one flag is for one machine.
pub proof fn flags_are_for_the_compiler_and_the_machine(cc: Text, arch: Text, flag: Text)
    ensures
        flags_for(cc, arch).contains(flag) <==> common_flags().contains(flag) || flag == "-O1"@ || (
        flag == "-fPIC"@ && !(has_part(cc, "cl.exe"@) || has_suffix(cc, "\\cl"@))) || (flag
            == "-mno-outline-atomics"@ && arch == "aarch64"@),
        flags_for(cc, arch).last() == "-O1"@,
        common_flags().is_prefix_of(flags_for(cc, arch)),
{
    let all = flags_for(cc, arch);
    let common = common_flags();
    assert(all.take(common.len() as int) =~= common);
    if common.contains(flag) {
        let k = common.index_of(flag);
        assert(all[k] == flag);
    }
    assert(all[all.len() - 1] == "-O1"@);
    if !crate::write::is_msvc_like(cc) {
        assert(all[common.len() as int] == "-fPIC"@);
    }
    if arch == "aarch64"@ {
        assert(all[all.len() - 2] == "-mno-outline-atomics"@);
    }
    if all.contains(flag) {
        let k = all.index_of(flag);
        if k < common.len() {
            assert(common[k] == flag);
        }
    }
}

/// Signed arithmetic wraps, memory may be read as any type, functions and data can be
/// left out one by one, and no call is turned into a jump: the meaning of the emitted
/// code rests on these flags.
pub proof fn needed_flags_are_given(cc: Text, arch: Text)
    ensures
        flags_for(cc, arch).contains("-std=c11"@),
        flags_for(cc, arch).contains("-fwrapv"@),
        flags_for(cc, arch).contains("-fno-strict-aliasing"@),
        flags_for(cc, arch).contains("-funwind-tables"@),
        flags_for(cc, arch).contains("-ffunction-sections"@),
        flags_for(cc, arch).contains("-fdata-sections"@),
        flags_for(cc, arch).contains("-fno-stack-protector"@),
        flags_for(cc, arch).contains("-fno-optimize-sibling-calls"@),
        flags_for(cc, arch).contains("-Werror=implicit-function-declaration"@),
        flags_for(cc, arch).contains("-w"@),
{
    let all = flags_for(cc, arch);
    assert(all[0] == "-std=c11"@ && all[1] == "-w"@ && all[3] == "-fwrapv"@);
    assert(all[2] == "-Werror=implicit-function-declaration"@);
    assert(all[4] == "-fno-strict-aliasing"@ && all[5] == "-funwind-tables"@);
    assert(all[6] == "-fno-stack-protector"@ && all[7] == "-ffunction-sections"@);
    assert(all[8] == "-fdata-sections"@ && all[9] == "-fno-optimize-sibling-calls"@);
}

/// Each library is one flag, in order.
pub proof fn libraries_are_flags(a: Seq<Text>, b: Seq<Text>, name: Text)
    ensures
        lib_flags(a + b) == lib_flags(a) + lib_flags(b),
        lib_flags(seq![name]) == " -l"@ + name,
        lib_flags(Seq::empty()).len() == 0,
    decreases b.len(),
{
    assert(seq![name].drop_last() =~= Seq::empty());
    assert(lib_flags(Seq::empty()) =~= Seq::empty());
    assert(Seq::<char>::empty() + " -l"@ =~= " -l"@);
    assert(lib_flags(seq![name]) == " -l"@ + name);
    if b.len() == 0 {
        assert(a + b =~= a);
        assert(lib_flags(a) + lib_flags(b) =~= lib_flags(a));
    } else {
        libraries_are_flags(a, b.drop_last(), name);
        assert((a + b).drop_last() =~= a + b.drop_last());
        let (x, y) = (lib_flags(a), lib_flags(b.drop_last()));
        assert(x + y + " -l"@ + b.last() =~= x + (y + " -l"@ + b.last()));
    }
}

/// What the compiler links by itself is not asked for, and what is always linked is.
pub proof fn libraries_are_known(name: Text)
    ensures
        is_implicit(name) <==> seq![
            "c"@,
            "gcc"@,
            "gcc_s"@,
            "gcc_eh"@,
            "compiler-rt"@,
        ].contains(name),
        is_core(name) <==> seq!["pthread"@, "dl"@, "m"@].contains(name),
{
    let implicit = seq!["c"@, "gcc"@, "gcc_s"@, "gcc_eh"@, "compiler-rt"@];
    let core = seq!["pthread"@, "dl"@, "m"@];
    assert(implicit[0] == "c"@ && implicit[1] == "gcc"@ && implicit[2] == "gcc_s"@ && implicit[3]
        == "gcc_eh"@ && implicit[4] == "compiler-rt"@);
    assert(core[0] == "pthread"@ && core[1] == "dl"@ && core[2] == "m"@);
}

/// A safe name has as many characters as the name, and keeps those that are letters,
/// digits, underscores or hyphens; any other is an underscore.
pub proof fn safe_names_keep_what_is_safe(name: Text, i: int)
    requires
        0 <= i < name.len(),
    ensures
        safe_name(name).len() == name.len(),
        safe_name(name)[i] == if crate::write::alphanumeric(name[i]) || name[i] == '_' || name[i]
            == '-' {
            name[i]
        } else {
            '_'
        },
{
}

} // verus!
