//! Compound assignments to 32-bit variables compute what they say.

use vstd::prelude::*;
use crate::ast::{BinOp, Expr, ExprKind};
use crate::codegen::emitter::{Cx, Plan, Step};
use crate::codegen::env::Env;
use crate::isa::{Operand, Reg};
use crate::machine::{Machine, Outcome, World};

verus! {

/// Whether a name stands for one variable only: a file-scope variable that
/// no local hides, or a local in the stack frame.
pub open spec fn is_plain_name(env: Env, name: String) -> bool {
    if env.is_global(&name) {
        !env.has(&name)
    } else {
        env.stack_of(&name) is Some
    }
}

/// Whether a name stands for a 32-bit integer in memory.
pub open spec fn names_long(env: Env, name: String) -> bool {
    &&& is_plain_name(env, name)
    &&& env.var_type(&name) matches Some(t) && t.is_long_like()
}

/// Where a variable in memory lies.
pub open spec fn home<'a>(w: World<'a>, m: Machine, env: Env, name: &'a String) -> int {
    m.locate(w, env.memory_of(name)->0)->0
}

/// Whether an expression is a constant `k`.
pub open spec fn is_const(env: Env, e: Expr, k: u32) -> bool {
    &&& env.const_of(&e) == Some(k)
    &&& e.kind !is Comma
}

/// Whether the code of a plan goes through and leaves a 32-bit number at a
/// place, with no other memory changed since an earlier moment.
pub open spec fn leaves_long_since<'a>(
    w: World<'a>,
    m: Machine,
    since: Machine,
    plan: Plan<'a>,
    at: int,
    value: int,
) -> bool {
    &&& plan matches Plan::Emit(steps)
    &&& crate::machine::run(w, m, steps, 0) matches Outcome::Through(after)
    &&& after.long_at(at) == value
    &&& crate::machine::same_but(after.mem, since.mem, at, 4)
}

/// Whether the code of a plan goes through and leaves a 32-bit number at a
/// place, with no other memory changed.
pub open spec fn leaves_long<'a>(
    w: World<'a>,
    m: Machine,
    plan: Plan<'a>,
    at: int,
    value: int,
) -> bool {
    leaves_long_since(w, m, m, plan, at, value)
}

/// The machine behind the evaluation of an expression into `ax`.
pub open spec fn evaluated<'a>(w: World<'a>, m: Machine, cx: Cx<'a>, e: &'a Expr) -> Machine {
    (w.work)(Step::ToAx(e, cx.skip_widen), m)
}

/// Whether the evaluation of an expression leaves a machine in order, with
/// the same stack frame.
pub open spec fn evaluates<'a>(w: World<'a>, m: Machine, cx: Cx<'a>, e: &'a Expr) -> bool {
    &&& evaluated(w, m, cx, e).wf()
    &&& evaluated(w, m, cx, e).bp == m.bp
}

/// `x op= k` for a 32-bit variable and a direct operator leaves the 32-bit
/// result in `x` and changes nothing else in memory.
pub proof fn long_const_compound<'a>(
    w: World<'a>,
    m: Machine,
    cx: Cx<'a>,
    name: &'a String,
    op: BinOp,
    value: &'a Expr,
    k: u32,
)
    requires
        m.wf(),
        names_long(*cx.env, *name),
        is_const(*cx.env, *value, k),
        crate::isa::is_direct(op),
    ensures
        leaves_long(
            w,
            m,
            crate::codegen::compound_local::plan_emit_compound_assign(cx, name, op, value),
            home(w, m, *cx.env, name),
            crate::machine::long_result(op, m.long_at(home(w, m, *cx.env, name)), k as int),
        ),
{
    let (lo, hi) = cx.env.long_halves_of(name)->0;
    let plan = crate::codegen::compound_long::plan_wide_const(cx, lo, hi, op, value);
    assert(crate::codegen::compound_local::plan_emit_compound_assign(cx, name, op, value) == plan);
    let steps = plan->Emit_0;
    let after = crate::laws::steps::direct_to_halves(
        w,
        m,
        steps,
        0,
        op,
        lo,
        hi,
        Operand::Imm(crate::isa::lo16(k)),
        Operand::Imm(crate::isa::hi16(k)),
    );
    crate::machine::step_end(w, after, steps, 2);
}

/// `x op= y` for two 32-bit variables and a direct operator leaves the
/// 32-bit result in `x` and changes nothing else in memory.
#[verifier::rlimit(60)]
pub proof fn long_pair_compound<'a>(
    w: World<'a>,
    m: Machine,
    cx: Cx<'a>,
    name: &'a String,
    op: BinOp,
    value: &'a Expr,
    other: &'a String,
)
    requires
        m.wf(),
        names_long(*cx.env, *name),
        value.kind == ExprKind::Ident(*other),
        names_long(*cx.env, *other),
        cx.env.const_of(value) is None,
        cx.env.facts(value).compound_type is None,
        cx.env.facts(value).widening_type is None,
        crate::isa::is_direct(op),
    ensures
        leaves_long(
            w,
            m,
            crate::codegen::compound_local::plan_emit_compound_assign(cx, name, op, value),
            home(w, m, *cx.env, name),
            crate::machine::long_result(
                op,
                m.long_at(home(w, m, *cx.env, name)),
                m.long_at(home(w, m, *cx.env, other)),
            ),
        ),
{
    let (lo, hi) = cx.env.long_halves_of(name)->0;
    let (rhs_lo, rhs_hi) = cx.env.long_halves_of(other)->0;
    let plan = crate::codegen::compound_long::plan_pair_direct(cx, lo, hi, rhs_lo, rhs_hi, op);
    assert(crate::codegen::compound_local::plan_emit_compound_assign(cx, name, op, value) == plan);
    let steps = plan->Emit_0;
    let m1 = crate::laws::steps::load_word(w, m, steps, 0, Reg::Ax, rhs_hi);
    let m2 = crate::laws::steps::load_word(w, m1, steps, 1, Reg::Dx, rhs_lo);
    let after = crate::laws::steps::direct_to_halves(
        w,
        m2,
        steps,
        2,
        op,
        lo,
        hi,
        Operand::Reg(Reg::Dx),
        Operand::Reg(Reg::Ax),
    );
    crate::machine::step_end(w, after, steps, 4);
}

/// `x op= e` for a 32-bit variable, a direct operator and a smaller integer
/// leaves the 32-bit result with the widened value in `x`. Since the value
/// was computed nothing else in memory changes.
#[verifier::rlimit(60)]
pub proof fn long_small_compound<'a>(
    w: World<'a>,
    m: Machine,
    cx: Cx<'a>,
    name: &'a String,
    op: BinOp,
    value: &'a Expr,
)
    requires
        evaluates(w, m, cx, value),
        names_long(*cx.env, *name),
        value.kind !is Comma,
        cx.env.const_of(value) is None,
        cx.env.facts(value).compound_type matches Some(t) && (
        crate::codegen::env::widens_signed(&t) || crate::codegen::env::widens_unsigned(&t)),
        crate::isa::is_direct(op),
    ensures
        ({
            let then_on = evaluated(w, m, cx, value);
            let widened = if crate::codegen::env::widens_signed(
                &cx.env.facts(value).compound_type->0,
            ) {
                crate::machine::with_sign(then_on.ax, false) % 0x1_0000_0000
            } else {
                then_on.ax
            };
            leaves_long_since(
                w,
                m,
                then_on,
                crate::codegen::compound_local::plan_emit_compound_assign(cx, name, op, value),
                home(w, m, *cx.env, name),
                crate::machine::long_result(
                    op,
                    then_on.long_at(home(w, m, *cx.env, name)),
                    widened,
                ),
            )
        }),
{
    let (lo, hi) = cx.env.long_halves_of(name)->0;
    let m1 = evaluated(w, m, cx, value);
    if crate::codegen::env::widens_signed(&cx.env.facts(value).compound_type->0) {
        let plan = crate::codegen::compound_long::plan_wide_signed(cx, lo, hi, op, value);
        assert(crate::codegen::compound_local::plan_emit_compound_assign(cx, name, op, value)
            == plan);
        let steps = plan->Emit_0;
        crate::machine::step_on(w, m, steps, 0, m1);
        let m2 = Machine { dx: if m1.ax >= 0x8000 { 0xFFFF } else { 0 }, ..m1 };
        crate::machine::step_on(w, m1, steps, 1, m2);
        let after = crate::laws::steps::direct_to_halves(
            w,
            m2,
            steps,
            2,
            op,
            lo,
            hi,
            Operand::Reg(Reg::Ax),
            Operand::Reg(Reg::Dx),
        );
        crate::machine::step_end(w, after, steps, 4);
        assert(crate::machine::pair(m2.dx, m2.ax) == crate::machine::with_sign(m1.ax, false)
            % 0x1_0000_0000);
    } else {
        let plan = crate::codegen::compound_long::plan_wide_unsigned(cx, lo, hi, op, value);
        assert(crate::codegen::compound_local::plan_emit_compound_assign(cx, name, op, value)
            == plan);
        let steps = plan->Emit_0;
        crate::machine::step_on(w, m, steps, 0, m1);
        let after = crate::laws::steps::direct_to_halves(
            w,
            m1,
            steps,
            1,
            op,
            lo,
            hi,
            Operand::Reg(Reg::Ax),
            Operand::Imm(0),
        );
        crate::machine::step_end(w, after, steps, 3);
    }
}

/// What a shift by one place makes of a 32-bit number.
pub open spec fn shifted_by_one(op: BinOp, x: int, unsigned: bool) -> int {
    if op == BinOp::Shl {
        (2 * x) % 0x1_0000_0000
    } else {
        crate::laws::steps::halved(x, unsigned)
    }
}

/// `x <<= 1` doubles a 32-bit variable, and `x >>= 1` halves it, with its
/// sign unless it is unsigned; nothing else in memory changes.
pub proof fn long_shift_compound<'a>(
    w: World<'a>,
    m: Machine,
    cx: Cx<'a>,
    name: &'a String,
    op: BinOp,
    value: &'a Expr,
)
    requires
        m.wf(),
        names_long(*cx.env, *name),
        is_const(*cx.env, *value, 1),
        value.kind is IntLit,
        cx.env.facts(value).widening_type is None,
        cx.env.facts(value).long_halves is None,
        crate::isa::is_shift(op),
    ensures
        leaves_long(
            w,
            m,
            crate::codegen::compound_local::plan_emit_compound_assign(cx, name, op, value),
            home(w, m, *cx.env, name),
            shifted_by_one(
                op,
                m.long_at(home(w, m, *cx.env, name)),
                cx.env.var_type(name)->0.is_unsigned(),
            ),
        ),
{
    let (lo, hi) = cx.env.long_halves_of(name)->0;
    let unsigned = cx.env.var_type(name)->0.is_unsigned();
    let plan = crate::codegen::compound_long::plan_wide_shift_const(cx, lo, hi, unsigned, op, 1);
    assert(crate::codegen::compound_local::plan_emit_compound_assign(cx, name, op, value) == plan);
    let steps = plan->Emit_0;
    let m1 = crate::laws::steps::load_word(w, m, steps, 0, Reg::Ax, hi);
    let m2 = crate::laws::steps::load_word(w, m1, steps, 1, Reg::Dx, lo);
    let m3 = if op == BinOp::Shl {
        crate::laws::steps::double_pair(w, m2, steps, 2)
    } else {
        crate::laws::steps::halve_pair(w, m2, steps, 2, unsigned)
    };
    let after = crate::laws::steps::store_pair(
        w,
        m3,
        steps,
        4,
        lo,
        hi,
        Operand::Reg(Reg::Dx),
        Operand::Reg(Reg::Ax),
    );
    crate::machine::step_end(w, after, steps, 6);
}

} // verus!
