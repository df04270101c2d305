//! What holds of the text of instructions and of the list of steps.

use vstd::prelude::*;
use crate::codegen::emitter::{FunctionEmitter, Plan, Step};

verus! {

/// The number that one decimal digit stands for.
pub open spec fn digit_value(c: char) -> int {
    c as int - '0' as int
}

/// The number that decimal digits stand for.
pub open spec fn decimal_value(s: Seq<char>) -> int
    decreases s.len(),
{
    if s.len() == 0 {
        0
    } else {
        10 * decimal_value(s.drop_last()) + digit_value(s.last())
    }
}

/// One digit is written for each number below ten.
proof fn digit_reads_back(d: u64)
    requires
        d < 10,
    ensures
        crate::render::digit(d)@.len() == 1,
        digit_value(crate::render::digit(d)@[0]) == d,
{
    reveal_strlit("0");
    reveal_strlit("1");
    reveal_strlit("2");
    reveal_strlit("3");
    reveal_strlit("4");
    reveal_strlit("5");
    reveal_strlit("6");
    reveal_strlit("7");
    reveal_strlit("8");
    reveal_strlit("9");
}

/// A number that is written in decimal reads back as itself.
pub proof fn decimal_reads_back(n: nat)
    ensures
        decimal_value(crate::render::decimal(n)) == n,
        crate::render::decimal(n).len() >= 1,
    decreases n,
{
    let s = crate::render::decimal(n);
    if n < 10 {
        digit_reads_back(n as u64);
        assert(s.drop_last() =~= seq![]);
        assert(decimal_value(s.drop_last()) == 0);
    } else {
        let d = (n % 10) as u64;
        decimal_reads_back(n / 10);
        digit_reads_back(d);
        assert(s.drop_last() =~= crate::render::decimal(n / 10));
        assert(s.last() == crate::render::digit(d)@[0]);
    }
}

/// Every line starts with a tab and ends with a carriage return and a line
/// feed.
pub proof fn lines_are_delimited<'a>(s: Step<'a>)
    ensures
        s.line() matches Some(text) ==> text.len() >= 3 && text[0] == '\t' && text[text.len() - 2]
            == '\r' && text[text.len() - 1] == '\n',
{
    reveal_strlit("\t");
    reveal_strlit("\r\n");
    reveal_strlit("\t\r\n");
    reveal_strlit("\tcall\tnear ptr ");
}

/// An emission keeps what was emitted before it, and the surroundings.
pub proof fn emission_appends<'a>(
    before: FunctionEmitter<'a>,
    after: FunctionEmitter<'a>,
    plan: Plan<'a>,
)
    requires
        after.wrote(before, plan),
    ensures
        before.out@.is_prefix_of(after.out@),
        after.cx == before.cx,
{
}

/// Two emissions in a row are the emission of one plan after the other.
pub proof fn emissions_follow<'a>(
    before: FunctionEmitter<'a>,
    middle: FunctionEmitter<'a>,
    after: FunctionEmitter<'a>,
    first: Plan<'a>,
    second: Plan<'a>,
)
    requires
        middle.wrote(before, first),
        after.wrote(middle, second),
    ensures
        after.wrote(before, first.followed_by(second)),
{
}

/// The text of some steps and then others is the text of the first and then
/// that of the others.
pub proof fn texts_follow<'a>(a: Seq<Step<'a>>, b: Seq<Step<'a>>)
    ensures
        crate::render::lines(a + b) == (match (crate::render::lines(a), crate::render::lines(b)) {
            (Some(x), Some(y)) => Some(x + y),
            _ => None,
        }),
    decreases b.len(),
{
    if b.len() == 0 {
        assert(a + b =~= a);
        if let Some(x) = crate::render::lines(a) {
            assert(x + Seq::<char>::empty() =~= x);
        }
    } else {
        assert((a + b).drop_last() =~= a + b.drop_last());
        texts_follow(a, b.drop_last());
        match (crate::render::lines(a), crate::render::lines(b.drop_last()), b.last().line()) {
            (Some(x), Some(y), Some(z)) => {
                assert((x + y) + z =~= x + (y + z));
            },
            _ => {},
        }
    }
}

/// A rule that does not apply changes nothing.
pub proof fn skipped_rule_is_silent<'a>(
    before: FunctionEmitter<'a>,
    after: FunctionEmitter<'a>,
    plan: Plan<'a>,
)
    requires
        after.ran(before, plan, false),
    ensures
        !(plan is Emit),
        after.out@ == before.out@,
        after.cx == before.cx,
{
}

} // verus!
