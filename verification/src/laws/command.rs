//! What holds of command lines.

use vstd::prelude::*;
use crate::cli::{Meaning, MemoryModel, ParsedArgs};

verus! {

/// Different memory models have different marker bytes.
pub proof fn markers_are_distinct(a: MemoryModel, b: MemoryModel)
    requires
        a.marker_byte() == b.marker_byte(),
    ensures
        a == b,
{
}

/// The arguments of two command lines in a row: source files and
/// definitions come one after the other, and a flag is asked for if either
/// asks for it.
pub proof fn lines_in_a_row(a: Seq<Seq<char>>, b: Seq<Seq<char>>, wanted: Meaning)
    ensures
        crate::cli::source_files(a + b) == crate::cli::source_files(a) + crate::cli::source_files(
            b,
        ),
        crate::cli::definitions(a + b) == crate::cli::definitions(a) + crate::cli::definitions(b),
        crate::cli::asks_for(a + b, wanted) == (crate::cli::asks_for(a, wanted)
            || crate::cli::asks_for(b, wanted)),
    decreases b.len(),
{
    let whole = a + b;
    if b.len() == 0 {
        assert(whole =~= a);
        assert(crate::cli::source_files(a) + crate::cli::source_files(b)
            =~= crate::cli::source_files(a));
        assert(crate::cli::definitions(a) + crate::cli::definitions(b) =~= crate::cli::definitions(
            a,
        ));
    } else {
        lines_in_a_row(a, b.drop_last(), wanted);
        assert(whole.drop_last() =~= a + b.drop_last());
        assert(whole.last() == b.last());
        assert(crate::cli::source_files(whole) =~= crate::cli::source_files(a)
            + crate::cli::source_files(b));
        assert(crate::cli::definitions(whole) =~= crate::cli::definitions(a)
            + crate::cli::definitions(b));
    }
    if crate::cli::asks_for(a, wanted) {
        let i = choose|i: int|
            0 <= i < a.len() && crate::cli::meaning(#[trigger] a[i]) == wanted;
        assert(whole[i] == a[i]);
    }
    if crate::cli::asks_for(b, wanted) {
        let i = choose|i: int|
            0 <= i < b.len() && crate::cli::meaning(#[trigger] b[i]) == wanted;
        assert(whole[a.len() + i] == b[i]);
    }
    if crate::cli::asks_for(whole, wanted) {
        let i = choose|i: int|
            0 <= i < whole.len() && crate::cli::meaning(#[trigger] whole[i]) == wanted;
        if i < a.len() {
            assert(a[i] == whole[i]);
        } else {
            assert(b[i - a.len()] == whole[i]);
        }
    }
}

/// Of two modes or two models the later counts; without a later one the
/// earlier does. An unknown flag that comes first is the one that is named.
pub proof fn later_counts(a: Seq<Seq<char>>, b: Seq<Seq<char>>)
    ensures
        crate::cli::last_mode(a + b) == (if crate::cli::last_mode(b) is Some {
            crate::cli::last_mode(b)
        } else {
            crate::cli::last_mode(a)
        }),
        crate::cli::last_model(a + b) == (if crate::cli::last_model(b) is Some {
            crate::cli::last_model(b)
        } else {
            crate::cli::last_model(a)
        }),
        crate::cli::first_unknown(a + b) == (if crate::cli::first_unknown(a) is Some {
            crate::cli::first_unknown(a)
        } else {
            crate::cli::first_unknown(b)
        }),
    decreases b.len(),
{
    let whole = a + b;
    if b.len() == 0 {
        assert(whole =~= a);
    } else {
        later_counts(a, b.drop_last());
        assert(whole.drop_last() =~= a + b.drop_last());
        assert(whole.last() == b.last());
    }
}

/// A flag without effect changes nothing that a command line asks for,
/// wherever it stands.
pub proof fn ignored_changes_nothing(
    a: Seq<Seq<char>>,
    flag: Seq<char>,
    b: Seq<Seq<char>>,
    args: ParsedArgs,
)
    requires
        crate::cli::meaning(flag) == Meaning::Ignored,
    ensures
        args.answers(a + seq![flag] + b) == args.answers(a + b),
        crate::cli::first_unknown(a + seq![flag] + b) == crate::cli::first_unknown(a + b),
{
    let one = seq![flag];
    reveal_with_fuel(crate::cli::source_files, 2);
    reveal_with_fuel(crate::cli::definitions, 2);
    reveal_with_fuel(crate::cli::last_mode, 2);
    reveal_with_fuel(crate::cli::last_model, 2);
    reveal_with_fuel(crate::cli::first_unknown, 2);
    assert(one.drop_last() =~= seq![]);
    assert(one.last() == flag);
    assert(crate::cli::source_files(one) =~= seq![]);
    assert(crate::cli::definitions(one) =~= seq![]);
    assert(crate::cli::source_files(a) + crate::cli::source_files(one) =~= crate::cli::source_files(
        a,
    ));
    assert(crate::cli::definitions(a) + crate::cli::definitions(one) =~= crate::cli::definitions(
        a,
    ));
    later_counts(a, one);
    later_counts(a + one, b);
    later_counts(a, b);
    assert forall|wanted: Meaning| wanted != Meaning::Ignored implies #[trigger]
        crate::cli::asks_for(a + one + b, wanted) == crate::cli::asks_for(a + b, wanted) by {
        lines_in_a_row(a, one, wanted);
        lines_in_a_row(a + one, b, wanted);
        lines_in_a_row(a, b, wanted);
        if crate::cli::asks_for(one, wanted) {
            let i = choose|i: int|
                0 <= i < one.len() && crate::cli::meaning(#[trigger] one[i]) == wanted;
            assert(one[i] == flag);
        }
    }
    lines_in_a_row(a, one, Meaning::MergeStrings);
    lines_in_a_row(a + one, b, Meaning::MergeStrings);
    lines_in_a_row(a, b, Meaning::MergeStrings);
}

/// A definition is put together again from its name and its body: with `=`
/// between them, or without a body as the name alone.
pub proof fn definition_parts(arg: Seq<char>)
    requires
        arg.len() >= 2,
    ensures
        ({
            let eq = crate::cli::equals_sign(arg, 2);
            let (name, body) = crate::cli::definition(arg);
            &&& 2 <= eq <= arg.len()
            &&& !name.contains('=')
            &&& eq < arg.len() ==> arg =~= arg.take(2) + name + seq!['='] + body
            &&& eq == arg.len() ==> arg =~= arg.take(2) + name && body.len() == 0
        }),
{
    equals_sign_is_first(arg, 2);
}

/// The first `=` has no other before it.
proof fn equals_sign_is_first(s: Seq<char>, from: int)
    requires
        0 <= from <= s.len(),
    ensures
        from <= crate::cli::equals_sign(s, from) <= s.len(),
        crate::cli::equals_sign(s, from) < s.len() ==> s[crate::cli::equals_sign(s, from)] == '=',
        forall|i: int| from <= i < crate::cli::equals_sign(s, from) ==> s[i] != '=',
    decreases s.len() - from,
{
    if from < s.len() && s[from] != '=' {
        equals_sign_is_first(s, from + 1);
    }
}

} // verus!
