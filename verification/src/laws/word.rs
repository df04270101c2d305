//! Constants applied to integers and characters compute what they say.

use vstd::prelude::*;
use crate::ast::{BinOp, Expr};
use crate::codegen::emitter::{Cx, Plan, Step};
use crate::codegen::env::{Env, LocalLocation};
use crate::isa::{Addr, Mnemonic, Operand, Reg, Width};
use crate::machine::{Machine, Outcome, World};

verus! {

/// Whether a name stands for an `int` or an `unsigned int` in memory.
pub open spec fn names_int(env: Env, name: String) -> bool {
    &&& crate::laws::long::is_plain_name(env, name)
    &&& env.var_type(&name) matches Some(t) && crate::codegen::env::is_plain_int(t)
}

/// Whether a name stands for a character in memory.
pub open spec fn names_char(env: Env, name: String) -> bool {
    &&& crate::laws::long::is_plain_name(env, name)
    &&& env.var_type(&name) matches Some(t) && t.is_char_like()
}

/// Whether a plan goes through and leaves a word at a place, with no other
/// memory changed.
pub open spec fn leaves_word<'a>(
    w: World<'a>,
    m: Machine,
    plan: Plan<'a>,
    at: int,
    value: int,
) -> bool {
    &&& plan matches Plan::Emit(steps)
    &&& crate::machine::run(w, m, steps, 0) matches Outcome::Through(after)
    &&& after.word_at(at) == value
    &&& crate::machine::same_but(after.mem, m.mem, at, 2)
}

/// A word in memory stepped by one.
proof fn step_in_memory<'a>(
    w: World<'a>,
    m: Machine,
    steps: Seq<Step<'a>>,
    op: BinOp,
    a: Addr<'a>,
)
    requires
        m.wf(),
        steps == seq![
            Step::Op1(crate::isa::step_by_one(op), Operand::Mem(Width::Word, a)),
        ],
        crate::isa::is_additive(op),
        m.locate(w, a) is Some,
    ensures
        leaves_word(
            w,
            m,
            Plan::Emit(steps),
            m.locate(w, a)->0,
            crate::machine::word_result(op, m.word_at(m.locate(w, a)->0), 1),
        ),
{
    let at = m.locate(w, a)->0;
    let old = m.word_at(at);
    let v = crate::machine::word_result(op, old, 1);
    crate::machine::word_range(m.mem, at);
    crate::machine::word_written(m.mem, at, v);
    let after = crate::machine::run_step(w, m, steps[0])->0;
    assert(crate::machine::run_step(w, m, steps[0]) is Some);
    assert(after.mem == crate::machine::put_word(m.mem, at, v));
    crate::machine::step_on(w, m, steps, 0, after);
    crate::machine::step_end(w, after, steps, 1);
}

/// A constant applied to a word in memory, by its own instruction or, for
/// one added or taken, by a step.
pub proof fn const_applied<'a>(
    w: World<'a>,
    m: Machine,
    steps: Seq<Step<'a>>,
    op: BinOp,
    a: Addr<'a>,
    k: u32,
)
    requires
        m.wf(),
        crate::isa::is_direct(op),
        m.locate(w, a) is Some,
        steps =~= seq![
            Step::Op2(
                crate::isa::direct(op),
                Operand::Mem(Width::Word, a),
                Operand::Imm(crate::isa::lo16(k)),
            ),
        ] || (steps =~= seq![
            Step::Op1(crate::isa::step_by_one(op), Operand::Mem(Width::Word, a)),
        ] && crate::isa::is_additive(op) && crate::isa::lo16(k) == 1),
    ensures
        leaves_word(
            w,
            m,
            Plan::Emit(steps),
            m.locate(w, a)->0,
            crate::machine::word_result(
                op,
                m.word_at(m.locate(w, a)->0),
                k as int % 0x1_0000,
            ),
        ),
{
    let at = m.locate(w, a)->0;
    let imm = Operand::<'a>::Imm(crate::isa::lo16(k));
    if steps[0] is Op1 {
        step_in_memory(w, m, steps, op, a);
    } else {
        let after = crate::laws::steps::direct_to_memory(w, m, steps, 0, op, a, imm);
        crate::machine::step_end(w, after, steps, 1);
        crate::machine::word_range(m.mem, at);
        crate::laws::steps::halves_make_long(op, 0, m.word_at(at), 0, k as int % 0x1_0000);
        crate::machine::word_written(
            m.mem,
            at,
            crate::machine::word_result(op, m.word_at(at), k as int % 0x1_0000),
        );
    }
}

/// `x op= k` for an integer in memory and a direct operator leaves the
/// 16-bit result in `x`, and nothing else in memory changes.
pub proof fn word_const_compound<'a>(
    w: World<'a>,
    m: Machine,
    cx: Cx<'a>,
    name: &'a String,
    op: BinOp,
    value: &'a Expr,
    k: u32,
)
    requires
        m.wf(),
        names_int(*cx.env, *name),
        crate::laws::long::is_const(*cx.env, *value, k),
        value.kind is IntLit,
        crate::isa::is_direct(op),
    ensures
        leaves_word(
            w,
            m,
            crate::codegen::compound_local::plan_emit_compound_assign(cx, name, op, value),
            crate::laws::long::home(w, m, *cx.env, name),
            crate::machine::word_result(
                op,
                m.word_at(crate::laws::long::home(w, m, *cx.env, name)),
                k as int % 0x1_0000,
            ),
        ),
{
    let plan = crate::codegen::compound_local::plan_emit_compound_assign(cx, name, op, value);
    let a = cx.env.memory_of(name)->0;
    let steps = plan->Emit_0;
    if cx.env.is_global(name) {
        assert(plan == crate::codegen::compound_global::plan_int_const(cx, name, op, value));
    } else {
        assert(plan == crate::codegen::compound_local::plan_stack_word(
            cx,
            cx.env.local(name)->0,
            op,
            value,
        ));
    }
    const_applied(w, m, steps, op, a, k);
}

/// What a constant adds to or takes from a variable that may point at
/// something.
pub open spec fn moved(op: BinOp, old: int, k: u32, stride: int) -> int {
    if op == BinOp::Add {
        crate::machine::wrap(old + k * stride)
    } else {
        crate::machine::wrap(old - k * stride)
    }
}

/// `x += k` and `x -= k` for an integer or a pointer in a register move it
/// by `k` times the size of what it points at, or by `k`; memory and the
/// other registers keep what they hold.
pub proof fn register_const_moves<'a>(
    w: World<'a>,
    m: Machine,
    cx: Cx<'a>,
    name: &'a String,
    op: BinOp,
    value: &'a Expr,
    k: u32,
    r: Reg,
)
    requires
        m.wf(),
        !cx.env.is_global(name),
        cx.env.local(name) matches Some(l) && l.loc == LocalLocation::Reg(r) && !l.ty.is_float_like()
            && !l.ty.is_long_like(),
        m.reg(r) is Some,
        !r.is_byte(),
        crate::laws::long::is_const(*cx.env, *value, k),
        value.kind is IntLit,
        crate::isa::is_additive(op),
    ensures
        ({
            let plan = crate::codegen::compound_local::plan_emit_compound_assign(
                cx,
                name,
                op,
                value,
            );
            let stride = crate::codegen::compound_local::spec_stride_of(
                &cx.env.local(name)->0.ty,
            ) as int;
            &&& plan matches Plan::Emit(steps)
            &&& crate::machine::run(w, m, steps, 0) matches Outcome::Through(after)
            &&& crate::laws::steps::same_regs(
                after,
                m.with_reg(r, moved(op, m.reg(r)->0, k, stride))->0,
            )
            &&& after.mem == m.mem
        }),
{
    let plan = crate::codegen::compound_local::plan_emit_compound_assign(cx, name, op, value);
    let ty = &cx.env.local(name)->0.ty;
    let stride = crate::codegen::compound_local::spec_stride_of(ty);
    let n = crate::codegen::compound_local::spec_moved_by(k, stride);
    register_sum_plan(cx, name, op, value, r);
    moved_in_words(op, m.reg(r)->0, k, stride);
    sum_in_register(w, m, plan->Emit_0, op, r, n);
}

/// The code for a distance that a register moves.
pub open spec fn sum_steps<'a>(op: BinOp, r: Reg, n: i64) -> Seq<Step<'a>> {
    if n == 1 {
        seq![Step::Op1(crate::isa::step_by_one(op), Operand::Reg(r))]
    } else if n == 2 && op == BinOp::Add {
        seq![
            Step::Op1(Mnemonic::Inc, Operand::Reg(r)),
            Step::Op1(Mnemonic::Inc, Operand::Reg(r)),
        ]
    } else {
        seq![Step::Op2(crate::isa::direct(op), Operand::Reg(r), Operand::Imm(n))]
    }
}

/// A register that is set twice holds what it was set to last.
pub proof fn register_set_again(m: Machine, m1: Machine, m2: Machine, r: Reg, v: int, u: int)
    requires
        m.reg(r) is Some,
        !r.is_byte(),
        crate::laws::steps::same_regs(m1, m.with_reg(r, v)->0),
    ensures
        m1.reg(r) == Some(v),
        crate::laws::steps::same_regs(m2, m1.with_reg(r, u)->0) ==> crate::laws::steps::same_regs(
            m2,
            m.with_reg(r, u)->0,
        ),
{
}

/// A distance added to a register.
#[verifier::rlimit(60)]
proof fn sum_in_register<'a>(
    w: World<'a>,
    m: Machine,
    steps: Seq<Step<'a>>,
    op: BinOp,
    r: Reg,
    n: i64,
)
    requires
        m.wf(),
        steps == sum_steps::<'a>(op, r, n),
        crate::isa::is_additive(op),
        0 <= n < 0x1_0000,
        !r.is_byte(),
        m.reg(r) is Some,
    ensures
        crate::machine::run(w, m, steps, 0) matches Outcome::Through(after)
            && crate::laws::steps::same_regs(
            after,
            m.with_reg(r, crate::machine::word_result(op, m.reg(r)->0, n as int))->0,
        ) && after.mem == m.mem,
{
    let old = m.reg(r)->0;
    if n == 1 {
        let after = step_register(w, m, steps, 0, op, r);
        crate::machine::step_end(w, after, steps, 1);
    } else if n == 2 && op == BinOp::Add {
        let once = crate::machine::word_result(op, old, 1);
        let twice = crate::machine::word_result(op, old, 2);
        assert(crate::machine::word_result(op, once, 1) == twice);
        let m1 = step_register(w, m, steps, 0, op, r);
        register_set_again(m, m1, m1, r, once, twice);
        let after = step_register(w, m1, steps, 1, op, r);
        register_set_again(m, m1, after, r, once, twice);
        crate::machine::step_end(w, after, steps, 2);
    } else {
        let after = crate::laws::steps::direct_to_register(
            w,
            m,
            steps,
            0,
            op,
            r,
            Operand::Imm(n),
        );
        crate::machine::step_end(w, after, steps, 1);
    }
}

/// The code for a constant added to a register is chosen by how far it
/// moves.
proof fn register_sum_plan<'a>(
    cx: Cx<'a>,
    name: &'a String,
    op: BinOp,
    value: &'a Expr,
    r: Reg,
)
    requires
        !cx.env.is_global(name),
        cx.env.local(name) matches Some(l) && l.loc == LocalLocation::Reg(r) && !l.ty.is_float_like()
            && !l.ty.is_long_like(),
        !r.is_byte(),
        cx.env.const_of(value) is Some,
        value.kind is IntLit,
        crate::isa::is_additive(op),
    ensures
        crate::codegen::compound_local::plan_emit_compound_assign(cx, name, op, value)
            == crate::codegen::compound_local::plan_word_sum_const(
            cx,
            r,
            &cx.env.local(name)->0.ty,
            op,
            value,
        ),
        crate::codegen::compound_local::plan_emit_compound_assign(cx, name, op, value)
            == Plan::Emit(
            sum_steps::<'a>(
                op,
                r,
                crate::codegen::compound_local::spec_moved_by(
                    cx.env.const_of(value)->0,
                    crate::codegen::compound_local::spec_stride_of(&cx.env.local(name)->0.ty),
                ),
            ),
        ),
{
}

/// A register stepped by one.
pub proof fn step_register<'a>(
    w: World<'a>,
    m: Machine,
    steps: Seq<Step<'a>>,
    i: int,
    op: BinOp,
    r: Reg,
) -> (after: Machine)
    requires
        m.wf(),
        0 <= i < steps.len(),
        steps[i] == Step::Op1(crate::isa::step_by_one(op), Operand::<'a>::Reg(r)),
        crate::isa::is_additive(op),
        !r.is_byte(),
        m.reg(r) is Some,
    ensures
        crate::machine::run(w, m, steps, i) == crate::machine::run(w, after, steps, i + 1),
        after.wf(),
        crate::laws::steps::same_regs(
            after,
            m.with_reg(r, crate::machine::word_result(op, m.reg(r)->0, 1))->0,
        ),
        after.mem == m.mem,
{
    let a = m.reg(r)->0;
    let v = crate::machine::word_result(op, a, 1);
    let d: int = if op == BinOp::Add { 1 } else { -1 };
    let flags = m.flagged(
        v,
        false,
        m.carry,
        crate::machine::overflows(crate::machine::with_sign(a, false) + d, false),
    );
    let after = flags.with_reg(r, v)->0;
    assert(crate::machine::run_op1(w, m, crate::isa::step_by_one(op), Operand::Reg(r)) == Some(
        after,
    ));
    crate::machine::step_on(w, m, steps, i, after);
    after
}

/// Moving by the low 16 bits of a distance is moving by the distance.
proof fn moved_in_words(op: BinOp, old: int, k: u32, stride: u16)
    requires
        0 <= old < 0x1_0000,
        crate::isa::is_additive(op),
    ensures
        ({
            let n = crate::codegen::compound_local::spec_moved_by(k, stride) as int;
            &&& 0 <= n < 0x1_0000
            &&& moved(op, old, k, stride as int) == crate::machine::word_result(op, old, n)
        }),
{
    let low = k % 65536;
    let high = k / 65536;
    assert(k == high * 65536 + low);
    let x = low * stride;
    let y = high * stride;
    assert(k * stride == 65536 * y + x) by (nonlinear_arith)
        requires
            k == high * 65536 + low,
            x == low * stride,
            y == high * stride,
    ;
    assert(0 <= x) by (nonlinear_arith)
        requires
            x == low * stride,
            low >= 0,
            stride >= 0,
    ;
    let n = x % 65536;
    assert((65536 * y + x) % 65536 == n);
}

} // verus!
