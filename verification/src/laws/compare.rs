//! Comparisons and tests tell what they say.

use vstd::prelude::*;
use crate::ast::{BinOp, Expr, ExprKind, UnaryOp};
use crate::codegen::emitter::{Cx, Plan, Probe, Step};
use crate::codegen::env::Env;
use crate::isa::{Jcc, Mnemonic};
use crate::machine::{Machine, Outcome, World};

verus! {

/// The jump on the opposite condition is taken exactly when the jump itself
/// is not.
pub proof fn inverse_jump(m: Machine, j: Jcc)
    ensures
        m.holds(j.inverse()) == (match m.holds(j) {
            Some(b) => Some(!b),
            None => None,
        }),
        j.inverse().inverse() == j,
{
}

/// The jump taken if a comparison holds and the jump taken if it does not
/// are opposites, and there is one exactly for the comparisons.
pub proof fn jumps_are_opposite(op: BinOp, unsigned: bool)
    ensures
        crate::isa::jcc_if_true(op, unsigned) is Some == op.is_comparison(),
        crate::isa::jcc_if_false(op, unsigned) is Some == op.is_comparison(),
        op.is_comparison() ==> crate::isa::jcc_if_false(op, unsigned)->0
            == crate::isa::jcc_if_true(op, unsigned)->0.inverse(),
{
}

/// A number as a comparison takes it, with or without sign.
pub open spec fn as_compared(x: int, byte: bool, unsigned: bool) -> int {
    if unsigned { x } else { crate::machine::with_sign(x, byte) }
}

/// Behind `cmp a,b` the jump for a comparison is taken exactly if it holds
/// of `a` and `b`, read with or without sign, and the opposite jump exactly
/// if it does not.
pub proof fn compare_tells(m: Machine, op: BinOp, a: int, b: int, byte: bool, unsigned: bool)
    requires
        op.is_comparison(),
        0 <= a < crate::machine::limit(byte),
        0 <= b < crate::machine::limit(byte),
    ensures
        crate::machine::combine(m, Mnemonic::Cmp, a, b, byte) matches Some((_, after))
            && after.holds(crate::isa::jcc_if_true(op, unsigned)->0) == Some(
            crate::machine::compares(
                op,
                as_compared(a, byte, unsigned),
                as_compared(b, byte, unsigned),
            ),
        ) && after.holds(crate::isa::jcc_if_false(op, unsigned)->0) == Some(
            !crate::machine::compares(
                op,
                as_compared(a, byte, unsigned),
                as_compared(b, byte, unsigned),
            ),
        ) && crate::laws::steps::same_regs(after, m) && after.mem == m.mem,
{
    reveal(crate::machine::combine);
    let size = crate::machine::limit(byte);
    assert((a - b) % size == (if a >= b { a - b } else { a - b + size }));
}

/// A comparison holds of two numbers exactly if the flipped comparison holds
/// of them in the other order; flipping twice changes nothing.
pub proof fn flipped_compares(op: BinOp, a: int, b: int)
    requires
        op.is_comparison(),
    ensures
        crate::machine::compares(crate::isa::flipped(op), b, a) == crate::machine::compares(
            op,
            a,
            b,
        ),
        crate::isa::flipped(crate::isa::flipped(op)) == op,
{
}

/// Whether a test goes through to a given machine and its jumps then tell a
/// value.
pub open spec fn tells<'a>(
    w: World<'a>,
    m: Machine,
    probe: Probe<'a>,
    value: bool,
    after: Machine,
) -> bool {
    &&& probe matches Probe::Emit(steps, t)
    &&& !t.mirror
    &&& crate::machine::run(w, m, steps, 0) == Outcome::Through(after)
    &&& after.holds(t.yes) == Some(value)
    &&& after.holds(t.no) == Some(!value)
}

/// `!c` tells the opposite of `c` and does nothing else. Characters on the
/// stack, which are tested in their own way, are left out.
pub proof fn not_tells<'a>(
    w: World<'a>,
    m: Machine,
    cx: Cx<'a>,
    cond: &'a Expr,
    operand: &'a Box<Expr>,
    value: bool,
    after: Machine,
)
    requires
        cond.kind == (ExprKind::Unary { op: UnaryOp::Not, operand: *operand }),
        crate::codegen::conditions::plan_test_not_char(cx, &**operand) is Skip,
        tells(
            w,
            m,
            crate::codegen::conditions::plan_emit_cond_test(cx, &**operand),
            value,
            after,
        ),
    ensures
        tells(w, m, crate::codegen::conditions::plan_emit_cond_test(cx, cond), !value, after),
{
}

/// A condition without `&&` and `||` branches on what its test tells.
pub proof fn test_decides<'a>(
    w: World<'a>,
    m: Machine,
    cx: Cx<'a>,
    cond: &'a Expr,
    yes: Option<u32>,
    no: Option<u32>,
    value: bool,
    after: Machine,
)
    requires
        cond.kind !is Logical,
        crate::codegen::conditions::plan_branch_special(cx, cond, yes, no) is Skip,
        yes is Some || no is Some,
        tells(w, m, crate::codegen::conditions::plan_emit_cond_test(cx, cond), value, after),
    ensures
        crate::laws::flow::decides(
            w,
            m,
            crate::codegen::conditions::plan_emit_cond_branch(cx, cond, yes, no),
            value,
            after,
            yes,
            no,
        ),
{
    let probe = crate::codegen::conditions::plan_emit_cond_test(cx, cond);
    let a = probe->Emit_0;
    let t = probe->Emit_1;
    let b = crate::codegen::conditions::plan_branch_after::<'a>(t, yes, no)->Emit_0;
    assert(crate::codegen::conditions::plan_emit_cond_branch(cx, cond, yes, no) == Plan::Emit(
        a + b,
    ));
    crate::laws::flow::run_parts(w, m, a, b, 0);
    crate::laws::flow::run_second(w, after, a, b, 0);
    let slot = if no is Some { no->0 } else { yes->0 };
    let jump = if no is Some { t.no } else { t.yes };
    assert(b =~= seq![Step::<'a>::Jump(jump, slot)]);
    if after.holds(jump) == Some(true) {
        crate::machine::step_jump(w, after, b, 0, slot);
        reveal_with_fuel(crate::machine::behind_label, 2);
    } else {
        crate::machine::step_past(w, after, b, 0);
        crate::machine::step_end(w, after, b, 1);
    }
}

/// Whether the jump behind a test is taken.
pub open spec fn jump_shows(after: Machine, mirror: bool, j: Jcc) -> Option<bool> {
    if mirror { after.holds_of_comparison(j) } else { after.holds(j) }
}

/// Whether a test goes through to a given machine and its jumps then show a
/// value, whichever way round the operands were compared.
pub open spec fn shows<'a>(
    w: World<'a>,
    m: Machine,
    probe: Probe<'a>,
    value: bool,
    after: Machine,
) -> bool {
    &&& probe matches Probe::Emit(steps, t)
    &&& crate::machine::run(w, m, steps, 0) == Outcome::Through(after)
    &&& jump_shows(after, t.mirror, t.yes) == Some(value)
    &&& jump_shows(after, t.mirror, t.no) == Some(!value)
}

/// `!c` shows the opposite of `c` and does nothing else. Characters on the
/// stack, which are tested in their own way, are left out.
pub proof fn not_shows<'a>(
    w: World<'a>,
    m: Machine,
    cx: Cx<'a>,
    cond: &'a Expr,
    operand: &'a Box<Expr>,
    value: bool,
    after: Machine,
)
    requires
        cond.kind == (ExprKind::Unary { op: UnaryOp::Not, operand: *operand }),
        operand.kind !is Ident,
        shows(
            w,
            m,
            crate::codegen::conditions::plan_emit_cond_test(cx, &**operand),
            value,
            after,
        ),
    ensures
        shows(w, m, crate::codegen::conditions::plan_emit_cond_test(cx, cond), !value, after),
{
}

/// A condition without `&&` and `||` branches on what its test shows.
pub proof fn shown_decides<'a>(
    w: World<'a>,
    m: Machine,
    cx: Cx<'a>,
    cond: &'a Expr,
    yes: Option<u32>,
    no: Option<u32>,
    value: bool,
    after: Machine,
)
    requires
        cond.kind !is Logical,
        crate::codegen::conditions::plan_branch_special(cx, cond, yes, no) is Skip,
        yes is Some || no is Some,
        shows(w, m, crate::codegen::conditions::plan_emit_cond_test(cx, cond), value, after),
    ensures
        crate::laws::flow::decides(
            w,
            m,
            crate::codegen::conditions::plan_emit_cond_branch(cx, cond, yes, no),
            value,
            after,
            yes,
            no,
        ),
{
    let probe = crate::codegen::conditions::plan_emit_cond_test(cx, cond);
    let a = probe->Emit_0;
    let t = probe->Emit_1;
    let b = crate::codegen::conditions::plan_branch_after::<'a>(t, yes, no)->Emit_0;
    assert(crate::codegen::conditions::plan_emit_cond_branch(cx, cond, yes, no) == Plan::Emit(
        a + b,
    ));
    crate::laws::flow::run_parts(w, m, a, b, 0);
    crate::laws::flow::run_second(w, after, a, b, 0);
    let slot = if no is Some { no->0 } else { yes->0 };
    let jump = if no is Some { t.no } else { t.yes };
    assert(b =~= seq![crate::codegen::conditions::jump_after::<'a>(t, jump, slot)]);
    if jump_shows(after, t.mirror, jump) == Some(true) {
        crate::machine::step_jump(w, after, b, 0, slot);
        reveal_with_fuel(crate::machine::behind_label, 2);
    } else {
        crate::machine::step_past(w, after, b, 0);
        crate::machine::step_end(w, after, b, 1);
    }
}

/// The machine behind the step that compares two expressions.
pub open spec fn behind_compare<'a>(
    w: World<'a>,
    m: Machine,
    left: &'a Expr,
    right: &'a Expr,
) -> Machine {
    (w.work)(Step::Compare(left, right), m)
}

/// Whether the flags are those that `cmp a,b` sets.
pub open spec fn has_flags_of(after: Machine, a: int, b: int, byte: bool) -> bool {
    let set = (crate::machine::combine(after, Mnemonic::Cmp, a, b, byte)->0).1;
    &&& after.carry == set.carry
    &&& after.zero == set.zero
    &&& after.negative == set.negative
    &&& after.overflow == set.overflow
}

/// Whether the step that compares two expressions sets the flags as `cmp`
/// does of their values or, with a note of it, as `cmp` does of the values
/// the other way round.
pub open spec fn compares_values<'a>(
    w: World<'a>,
    m: Machine,
    left: &'a Expr,
    right: &'a Expr,
    a: int,
    b: int,
    byte: bool,
) -> bool {
    let after = behind_compare(w, m, left, right);
    &&& 0 <= a < crate::machine::limit(byte)
    &&& 0 <= b < crate::machine::limit(byte)
    &&& if after.swapped {
        has_flags_of(after, b, a, byte)
    } else {
        has_flags_of(after, a, b, byte)
    }
}

/// The jump for a comparison tells the same of exchanged operands if it is
/// mirrored.
proof fn mirrored_tells(op: BinOp, unsigned: bool)
    requires
        op.is_comparison(),
    ensures
        crate::machine::mirrored(crate::isa::jcc_if_true(op, unsigned)->0)
            == crate::isa::jcc_if_true(crate::isa::flipped(op), unsigned)->0,
        crate::machine::mirrored(crate::isa::jcc_if_false(op, unsigned)->0)
            == crate::isa::jcc_if_false(crate::isa::flipped(op), unsigned)->0,
        crate::isa::flipped(op).is_comparison(),
{
}

/// Whether nothing is known of the operands of a comparison that has it
/// tested in a way of its own: neither is a floating-point number, a 32-bit
/// integer or a far pointer, the left one is not constant and no register
/// that the source names, the right one is no call, and only a variable is
/// compared with zero.
pub open spec fn is_general(env: Env, cond: Expr, left: Expr, right: Expr) -> bool {
    &&& env.const_of(&cond) is None
    &&& env.const_of(&left) is None
    &&& !env.facts(&left).is_float && !env.facts(&right).is_float
    &&& env.facts(&left).far_offset is None
    &&& env.facts(&left).long_addrs is None
    &&& env.facts(&left).chain is None
    &&& left.kind !is PseudoReg
    &&& right.kind !is Call
    &&& env.const_of(&right) == Some(0u32) || right.kind == ExprKind::IntLit(0) ==> left.kind is Ident
    &&& left.kind matches ExprKind::Ident(name) ==> !names_wide(env, name)
}

/// Whether a name stands for a 32-bit integer.
pub open spec fn names_wide(env: Env, name: String) -> bool {
    env.is_long_global(&name) || env.is_long_local(&name)
}

/// The code for a comparison of two operands that are compared in no way of
/// their own.
proof fn general_compare_plan<'a>(
    cx: Cx<'a>,
    cond: &'a Expr,
    op: BinOp,
    left: &'a Box<Expr>,
    right: &'a Box<Expr>,
    yes: Option<u32>,
    no: Option<u32>,
)
    requires
        cond.kind == (ExprKind::BinOp { op, left: *left, right: *right }),
        op.is_comparison(),
        is_general(*cx.env, *cond, **left, **right),
    ensures
        crate::codegen::conditions::plan_branch_special(cx, cond, yes, no) is Skip,
        crate::codegen::conditions::plan_emit_cond_test(cx, cond)
            == crate::codegen::conditions::plan_test_operands(
            cx,
            cond,
            op,
            &**left,
            &**right,
        ),
{
}

/// `a < b` and the other comparisons of two operands that are compared in no
/// way of their own branch on the values that are compared, with or without
/// sign: to the true target exactly if the comparison holds, and to the
/// false target otherwise, whichever way round the operands are taken.
pub proof fn comparison_branches<'a>(
    w: World<'a>,
    m: Machine,
    cx: Cx<'a>,
    cond: &'a Expr,
    op: BinOp,
    left: &'a Box<Expr>,
    right: &'a Box<Expr>,
    a: int,
    b: int,
    byte: bool,
    yes: Option<u32>,
    no: Option<u32>,
)
    requires
        cond.kind == (ExprKind::BinOp { op, left: *left, right: *right }),
        op.is_comparison(),
        is_general(*cx.env, *cond, **left, **right),
        compares_values(w, m, &**left, &**right, a, b, byte),
        yes is Some || no is Some,
    ensures
        crate::laws::flow::decides(
            w,
            m,
            crate::codegen::conditions::plan_emit_cond_branch(cx, cond, yes, no),
            crate::machine::compares(
                op,
                as_compared(a, byte, cx.env.facts(cond).unsigned_compare),
                as_compared(b, byte, cx.env.facts(cond).unsigned_compare),
            ),
            behind_compare(w, m, &**left, &**right),
            yes,
            no,
        ),
        shows(
            w,
            m,
            crate::codegen::conditions::plan_emit_cond_test(cx, cond),
            crate::machine::compares(
                op,
                as_compared(a, byte, cx.env.facts(cond).unsigned_compare),
                as_compared(b, byte, cx.env.facts(cond).unsigned_compare),
            ),
            behind_compare(w, m, &**left, &**right),
        ),
{
    let unsigned = cx.env.facts(cond).unsigned_compare;
    let after = behind_compare(w, m, &**left, &**right);
    let x = as_compared(a, byte, unsigned);
    let y = as_compared(b, byte, unsigned);
    let value = crate::machine::compares(op, x, y);
    general_compare_plan(cx, cond, op, left, right, yes, no);
    let probe = crate::codegen::conditions::plan_emit_cond_test(cx, cond);
    let steps = probe->Emit_0;
    assert(steps =~= seq![Step::Compare(&**left, &**right)]);
    crate::machine::step_on(w, m, steps, 0, after);
    crate::machine::step_end(w, after, steps, 1);
    mirrored_tells(op, unsigned);
    flipped_compares(op, x, y);
    if after.swapped {
        compare_tells(after, crate::isa::flipped(op), b, a, byte, unsigned);
    } else {
        compare_tells(after, op, a, b, byte, unsigned);
    }
    assert(shows(w, m, probe, value, after));
    shown_decides(w, m, cx, cond, yes, no, value, after);
}

} // verus!
