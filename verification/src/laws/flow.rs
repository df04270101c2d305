//! Conditions branch where they should.

use vstd::prelude::*;
use crate::ast::{Expr, ExprKind, LogicalOp};
use crate::codegen::emitter::{Cx, Plan, Step};
use crate::machine::{Machine, Outcome, World};

verus! {

/// A label that is not found in the first part of some code is looked for in
/// the second.
proof fn label_in_parts<'a>(a: Seq<Step<'a>>, b: Seq<Step<'a>>, label: u32, i: int)
    requires
        0 <= i <= a.len(),
    ensures
        crate::machine::behind_label(a, label, i) matches Some(j) ==> i < j <= a.len()
            && crate::machine::behind_label(a + b, label, i) == Some(j),
        crate::machine::behind_label(a, label, i) is None ==> crate::machine::behind_label(
            a + b,
            label,
            i,
        ) == crate::machine::behind_label(a + b, label, a.len() as int),
    decreases a.len() - i,
{
    if i < a.len() {
        assert((a + b)[i] == a[i]);
        label_in_parts(a, b, label, i + 1);
    }
}

/// Code runs its first part, and goes on in the second from where the first
/// leads.
pub proof fn run_parts<'a>(
    w: World<'a>,
    m: Machine,
    a: Seq<Step<'a>>,
    b: Seq<Step<'a>>,
    i: int,
)
    requires
        0 <= i <= a.len(),
    ensures
        crate::machine::run(w, m, a + b, i) == (match crate::machine::run(w, m, a, i) {
            Outcome::Through(n) => crate::machine::run(w, n, a + b, a.len() as int),
            Outcome::To(label, n) => crate::machine::jump_to(w, n, a + b, a.len() as int, label),
            Outcome::Lost => Outcome::Lost,
        }),
    decreases a.len() - i,
{
    if i < a.len() {
        assert((a + b)[i] == a[i]);
        match a[i] {
            Step::Label(_) => {
                crate::machine::step_past(w, m, a, i);
                crate::machine::step_past(w, m, a + b, i);
                run_parts(w, m, a, b, i + 1);
            },
            Step::Goto(label) => {
                crate::machine::step_jump(w, m, a, i, label);
                crate::machine::step_jump(w, m, a + b, i, label);
                jump_parts(w, m, a, b, i + 1, label);
            },
            Step::Jump(j, label) => {
                match m.holds(j) {
                    Some(true) => {
                        crate::machine::step_jump(w, m, a, i, label);
                        crate::machine::step_jump(w, m, a + b, i, label);
                        jump_parts(w, m, a, b, i + 1, label);
                    },
                    Some(false) => {
                        crate::machine::step_past(w, m, a, i);
                        crate::machine::step_past(w, m, a + b, i);
                        run_parts(w, m, a, b, i + 1);
                    },
                    None => {
                        reveal(crate::machine::run);
                    },
                }
            },
            Step::JumpMirrored(j, label) => {
                match m.holds_of_comparison(j) {
                    Some(true) => {
                        crate::machine::step_jump(w, m, a, i, label);
                        crate::machine::step_jump(w, m, a + b, i, label);
                        jump_parts(w, m, a, b, i + 1, label);
                    },
                    Some(false) => {
                        crate::machine::step_past(w, m, a, i);
                        crate::machine::step_past(w, m, a + b, i);
                        run_parts(w, m, a, b, i + 1);
                    },
                    None => {
                        reveal(crate::machine::run);
                    },
                }
            },
            s => {
                match crate::machine::run_step(w, m, s) {
                    Some(after) => {
                        crate::machine::step_on(w, m, a, i, after);
                        crate::machine::step_on(w, m, a + b, i, after);
                        run_parts(w, after, a, b, i + 1);
                    },
                    None => {
                        reveal(crate::machine::run);
                    },
                }
            },
        }
    } else {
        crate::machine::step_end(w, m, a, i);
    }
}

/// A jump within the first part of some code stays there, and any other is
/// looked for in the second.
proof fn jump_parts<'a>(
    w: World<'a>,
    m: Machine,
    a: Seq<Step<'a>>,
    b: Seq<Step<'a>>,
    i: int,
    label: u32,
)
    requires
        0 <= i <= a.len(),
    ensures
        crate::machine::jump_to(w, m, a + b, i, label) == (match crate::machine::jump_to(
            w,
            m,
            a,
            i,
            label,
        ) {
            Outcome::Through(n) => crate::machine::run(w, n, a + b, a.len() as int),
            Outcome::To(l, n) => crate::machine::jump_to(w, n, a + b, a.len() as int, l),
            Outcome::Lost => Outcome::Lost,
        }),
    decreases a.len() - i,
{
    label_in_parts(a, b, label, i);
    match crate::machine::behind_label(a, label, i) {
        Some(j) => {
            run_parts(w, m, a, b, j);
        },
        None => {
        },
    }
}

/// The second part of some code runs as it does alone.
pub proof fn run_second<'a>(w: World<'a>, m: Machine, a: Seq<Step<'a>>, b: Seq<Step<'a>>, i: int)
    requires
        0 <= i <= b.len(),
    ensures
        crate::machine::run(w, m, a + b, a.len() + i) == crate::machine::run(w, m, b, i),
    decreases b.len() - i,
{
    if i < b.len() {
        assert((a + b)[a.len() + i] == b[i]);
        match b[i] {
            Step::Label(_) => {
                crate::machine::step_past(w, m, b, i);
                crate::machine::step_past(w, m, a + b, a.len() + i);
                run_second(w, m, a, b, i + 1);
            },
            Step::Goto(label) => {
                crate::machine::step_jump(w, m, b, i, label);
                crate::machine::step_jump(w, m, a + b, a.len() + i, label);
                jump_second(w, m, a, b, i + 1, label);
            },
            Step::Jump(j, label) => {
                match m.holds(j) {
                    Some(true) => {
                        crate::machine::step_jump(w, m, b, i, label);
                        crate::machine::step_jump(w, m, a + b, a.len() + i, label);
                        jump_second(w, m, a, b, i + 1, label);
                    },
                    Some(false) => {
                        crate::machine::step_past(w, m, b, i);
                        crate::machine::step_past(w, m, a + b, a.len() + i);
                        run_second(w, m, a, b, i + 1);
                    },
                    None => {
                        reveal(crate::machine::run);
                    },
                }
            },
            Step::JumpMirrored(j, label) => {
                match m.holds_of_comparison(j) {
                    Some(true) => {
                        crate::machine::step_jump(w, m, b, i, label);
                        crate::machine::step_jump(w, m, a + b, a.len() + i, label);
                        jump_second(w, m, a, b, i + 1, label);
                    },
                    Some(false) => {
                        crate::machine::step_past(w, m, b, i);
                        crate::machine::step_past(w, m, a + b, a.len() + i);
                        run_second(w, m, a, b, i + 1);
                    },
                    None => {
                        reveal(crate::machine::run);
                    },
                }
            },
            s => {
                match crate::machine::run_step(w, m, s) {
                    Some(after) => {
                        crate::machine::step_on(w, m, b, i, after);
                        crate::machine::step_on(w, m, a + b, a.len() + i, after);
                        run_second(w, after, a, b, i + 1);
                    },
                    None => {
                        reveal(crate::machine::run);
                    },
                }
            },
        }
    } else {
        crate::machine::step_end(w, m, b, i);
        crate::machine::step_end(w, m, a + b, a.len() + i);
    }
}

/// A label in the second part of some code is found as it is alone.
proof fn label_in_second<'a>(a: Seq<Step<'a>>, b: Seq<Step<'a>>, label: u32, i: int)
    requires
        0 <= i <= b.len(),
    ensures
        crate::machine::behind_label(a + b, label, a.len() + i) == (
        match crate::machine::behind_label(b, label, i) {
            Some(j) => Some(a.len() + j),
            None => None,
        }),
    decreases b.len() - i,
{
    if i < b.len() {
        assert((a + b)[a.len() + i] == b[i]);
        label_in_second(a, b, label, i + 1);
    }
}

/// A jump in the second part of some code goes where it goes alone.
pub proof fn jump_second<'a>(
    w: World<'a>,
    m: Machine,
    a: Seq<Step<'a>>,
    b: Seq<Step<'a>>,
    i: int,
    label: u32,
)
    requires
        0 <= i <= b.len(),
    ensures
        crate::machine::jump_to(w, m, a + b, a.len() + i, label) == crate::machine::jump_to(
            w,
            m,
            b,
            i,
            label,
        ),
    decreases b.len() - i,
{
    label_in_second(a, b, label, i);
    crate::machine::label_found_ahead(b, label, i);
    match crate::machine::behind_label(b, label, i) {
        Some(j) => {
            run_second(w, m, a, b, j);
        },
        None => {},
    }
}

/// Whether code holds a label.
pub open spec fn holds_label<'a>(steps: Seq<Step<'a>>, label: u32) -> bool {
    crate::machine::behind_label(steps, label, 0) is Some
}

/// Whether code that branches on a value goes to the right place and hands
/// on a given machine. With a false target, falling through means true;
/// with a true target alone, it means false.
pub open spec fn decides<'a>(
    w: World<'a>,
    m: Machine,
    plan: Plan<'a>,
    value: bool,
    after: Machine,
    yes: Option<u32>,
    no: Option<u32>,
) -> bool {
    &&& plan matches Plan::Emit(steps)
    &&& match crate::machine::run(w, m, steps, 0) {
        Outcome::To(label, n) => {
            &&& n == after
            &&& (if value { yes == Some(label) } else { no == Some(label) })
        },
        Outcome::Through(n) => {
            &&& n == after
            &&& value == no is Some
        },
        Outcome::Lost => false,
    }
}

/// `a && b` branches on both: if `a` decides for false, `b` is not run; if
/// `a` decides for true, `b` decides. The targets lie outside the code of
/// `b`, and a label that the operator has for itself is no target.
pub proof fn and_decides<'a>(
    w: World<'a>,
    m: Machine,
    cx: Cx<'a>,
    cond: &'a Expr,
    left: &'a Box<Expr>,
    right: &'a Box<Expr>,
    yes: Option<u32>,
    no: Option<u32>,
    left_value: bool,
    left_after: Machine,
    right_value: bool,
    right_after: Machine,
)
    requires
        cond.kind == (ExprKind::Logical { op: LogicalOp::And, left: *left, right: *right }),
        crate::codegen::conditions::plan_branch_special(cx, cond, yes, no) is Skip,
        yes is Some || no is Some,
        ({
            let out = if no is None { cx.env.facts(cond).label_base } else { no };
            let second = crate::codegen::conditions::plan_emit_cond_branch(
                cx,
                &**right,
                yes,
                no,
            );
            &&& out matches Some(label) && (no is None ==> yes != Some(label))
            &&& second matches Plan::Emit(b) && !holds_label(b, out->0)
            &&& decides(
                w,
                m,
                crate::codegen::conditions::plan_emit_cond_branch(cx, &**left, None, out),
                left_value,
                left_after,
                None,
                out,
            )
            &&& (left_value ==> decides(
                w,
                left_after,
                second,
                right_value,
                right_after,
                yes,
                no,
            ))
        }),
    ensures
        decides(
            w,
            m,
            crate::codegen::conditions::plan_emit_cond_branch(cx, cond, yes, no),
            left_value && right_value,
            if left_value { right_after } else { left_after },
            yes,
            no,
        ),
{
    let own = no is None;
    let out = if own { cx.env.facts(cond).label_base } else { no };
    let a = crate::codegen::conditions::plan_emit_cond_branch(cx, &**left, None, out)->Emit_0;
    let b = crate::codegen::conditions::plan_emit_cond_branch(cx, &**right, yes, no)->Emit_0;
    let c = crate::codegen::conditions::plan_label::<'a>(own, out)->Emit_0;
    assert(crate::codegen::conditions::plan_emit_cond_branch(cx, cond, yes, no) == Plan::Emit(
        a + b + c,
    ));
    parts_decide(w, m, a, b, c, out->0, left_after, own);
}

/// Where two parts of code lead that are followed by a label or by nothing,
/// if the first falls through or leaves for that label.
proof fn parts_decide<'a>(
    w: World<'a>,
    m: Machine,
    a: Seq<Step<'a>>,
    b: Seq<Step<'a>>,
    c: Seq<Step<'a>>,
    out: u32,
    middle: Machine,
    own: bool,
)
    requires
        c == (if own { seq![Step::<'a>::Label(out)] } else { seq![] }),
        !holds_label(b, out),
        crate::machine::run(w, m, a, 0) == Outcome::Through(middle) || crate::machine::run(
            w,
            m,
            a,
            0,
        ) == Outcome::To(out, middle),
    ensures
        crate::machine::run(w, m, a, 0) == Outcome::To(out, middle) ==> crate::machine::run(
            w,
            m,
            a + b + c,
            0,
        ) == (if own { Outcome::Through(middle) } else { Outcome::To(out, middle) }),
        crate::machine::run(w, m, a, 0) is Through ==> crate::machine::run(w, m, a + b + c, 0)
            == (match crate::machine::run(w, middle, b, 0) {
            Outcome::To(label, n) => if own && label == out {
                Outcome::Through(n)
            } else {
                Outcome::To(label, n)
            },
            other => other,
        }),
{
    assert(a + b + c =~= a + (b + c));
    run_parts(w, m, a, b + c, 0);
    if crate::machine::run(w, m, a, 0) is Through {
        run_second(w, middle, a, b + c, 0);
        run_parts(w, middle, b, c, 0);
        match crate::machine::run(w, middle, b, 0) {
            Outcome::Through(n) => {
                run_second(w, n, b, c, 0);
                label_alone(w, n, c, out, own, out);
            },
            Outcome::To(label, n) => {
                jump_second(w, n, b, c, 0, label);
                label_alone(w, n, c, out, own, label);
            },
            Outcome::Lost => {},
        }
    } else {
        jump_second(w, middle, a, b + c, 0, out);
        jump_parts(w, middle, b, c, 0, out);
        jump_second(w, middle, b, c, 0, out);
        label_alone(w, middle, c, out, own, out);
    }
}

/// Code that is a label or nothing falls through.
proof fn label_alone<'a>(
    w: World<'a>,
    m: Machine,
    c: Seq<Step<'a>>,
    out: u32,
    own: bool,
    label: u32,
)
    requires
        c == (if own { seq![Step::<'a>::Label(out)] } else { seq![] }),
    ensures
        crate::machine::run(w, m, c, 0) == Outcome::Through(m),
        crate::machine::jump_to(w, m, c, 0, label) == (if own && label == out {
            Outcome::Through(m)
        } else {
            Outcome::To(label, m)
        }),
{
    reveal_with_fuel(crate::machine::behind_label, 2);
    if own {
        crate::machine::step_past(w, m, c, 0);
        crate::machine::step_end(w, m, c, 1);
    } else {
        crate::machine::step_end(w, m, c, 0);
    }
}

/// `a || b` branches on both: if `a` decides for true, `b` is not run; if
/// `a` decides for false, `b` decides. The targets lie outside the code of
/// `b`, and a label that the operator has for itself is no target.
pub proof fn or_decides<'a>(
    w: World<'a>,
    m: Machine,
    cx: Cx<'a>,
    cond: &'a Expr,
    left: &'a Box<Expr>,
    right: &'a Box<Expr>,
    yes: Option<u32>,
    no: Option<u32>,
    left_value: bool,
    left_after: Machine,
    right_value: bool,
    right_after: Machine,
)
    requires
        cond.kind == (ExprKind::Logical { op: LogicalOp::Or, left: *left, right: *right }),
        crate::codegen::conditions::plan_branch_special(cx, cond, yes, no) is Skip,
        yes is Some || no is Some,
        ({
            let out = if yes is None { cx.env.facts(cond).label_base } else { yes };
            let last = if no is Some { None } else { yes };
            let second = crate::codegen::conditions::plan_emit_cond_branch(
                cx,
                &**right,
                last,
                no,
            );
            &&& out matches Some(label) && (yes is None ==> no != Some(label))
            &&& second matches Plan::Emit(b) && !holds_label(b, out->0)
            &&& decides(
                w,
                m,
                crate::codegen::conditions::plan_emit_cond_branch(cx, &**left, out, None),
                left_value,
                left_after,
                out,
                None,
            )
            &&& (!left_value ==> decides(
                w,
                left_after,
                second,
                right_value,
                right_after,
                last,
                no,
            ))
        }),
    ensures
        decides(
            w,
            m,
            crate::codegen::conditions::plan_emit_cond_branch(cx, cond, yes, no),
            left_value || right_value,
            if left_value { left_after } else { right_after },
            yes,
            no,
        ),
{
    let own = yes is None;
    let out = if own { cx.env.facts(cond).label_base } else { yes };
    let last = if no is Some { None } else { yes };
    let a = crate::codegen::conditions::plan_emit_cond_branch(cx, &**left, out, None)->Emit_0;
    let b = crate::codegen::conditions::plan_emit_cond_branch(cx, &**right, last, no)->Emit_0;
    let c = crate::codegen::conditions::plan_label::<'a>(own, out)->Emit_0;
    assert(crate::codegen::conditions::plan_emit_cond_branch(cx, cond, yes, no) == Plan::Emit(
        a + b + c,
    ));
    parts_decide(w, m, a, b, c, out->0, left_after, own);
}

} // verus!
