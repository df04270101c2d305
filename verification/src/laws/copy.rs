//! Words move between registers and memory as assignments say, and the
//! updates folded into an assignment take place.

use vstd::prelude::*;
use crate::ast::{BinOp, Expr, ExprKind, Type, UpdateOp, UpdatePosition};
use crate::codegen::emitter::{Cx, Plan, Step};
use crate::codegen::env::{Env, LocalLocation};
use crate::isa::{Addr, Disp, Mnemonic, Operand, Reg, Width};
use crate::machine::{Machine, Outcome, World};

verus! {

/// Whether a name stands for a variable in a word register that the machine
/// models.
pub open spec fn names_register(m: Machine, env: Env, name: String, r: Reg) -> bool {
    &&& env.word_reg_of(&name) == Some(r)
    &&& m.reg(r) is Some
}

/// Whether a plan goes through and leaves a word in a register, with memory
/// and the other registers as they were.
pub open spec fn leaves_register<'a>(
    w: World<'a>,
    m: Machine,
    plan: Plan<'a>,
    r: Reg,
    value: int,
) -> bool {
    &&& plan matches Plan::Emit(steps)
    &&& crate::machine::run(w, m, steps, 0) matches Outcome::Through(after)
    &&& Some(after) == m.with_reg(r, value)
}

/// A register or an address stored as a word.
proof fn word_stored<'a>(
    w: World<'a>,
    m: Machine,
    steps: Seq<Step<'a>>,
    a: Addr<'a>,
    s: Operand<'a>,
)
    requires
        m.wf(),
        m.locate(w, a) is Some,
        m.read(w, s, false) matches Some(v) && 0 <= v < 0x1_0000,
        steps == seq![Step::Op2(Mnemonic::Mov, Operand::Mem(Width::Word, a), s)],
    ensures
        crate::laws::word::leaves_word(
            w,
            m,
            Plan::Emit(steps),
            m.locate(w, a)->0,
            m.read(w, s, false)->0,
        ),
{
    let after = crate::laws::steps::store_word(w, m, steps, 0, a, s);
    crate::machine::step_end(w, after, steps, 1);
    crate::machine::word_written(m.mem, m.locate(w, a)->0, m.read(w, s, false)->0);
}

/// `x = y` for a file-scope integer or pointer and a variable in a register
/// leaves the register's word in `x`, and nothing else in memory changes.
pub proof fn register_assign_global<'a>(
    w: World<'a>,
    m: Machine,
    cx: Cx<'a>,
    name: &'a String,
    value: &'a Expr,
    source: &'a String,
    r: Reg,
)
    requires
        m.wf(),
        cx.env.global_type(name) matches Some(t) && t.is_int_like(),
        value.kind == ExprKind::Ident(*source),
        cx.env.const_of(value) is None,
        names_register(m, *cx.env, *source, r),
    ensures
        crate::laws::word::leaves_word(
            w,
            m,
            crate::codegen::assign_global::plan_emit_assign_global(cx, name, value),
            (w.symbol)(name@),
            m.reg(r)->0,
        ),
{
    let ty = cx.env.global_type(name)->0;
    let plan = crate::codegen::assign_global::plan_emit_assign_global(cx, name, value);
    assert(plan == crate::codegen::assign_global::plan_global_register(cx, name, ty, value));
    word_stored(w, m, plan->Emit_0, crate::isa::global(name), Operand::Reg(r));
}

/// `x = y` for a local `int` in the stack frame and one in a register leaves
/// the register's word in `x`, and nothing else in memory changes.
pub proof fn register_assign_local<'a>(
    w: World<'a>,
    m: Machine,
    cx: Cx<'a>,
    off: i16,
    value: &'a Expr,
    source: &'a String,
    r: Reg,
)
    requires
        m.wf(),
        value.kind == ExprKind::Ident(*source),
        cx.env.const_of(value) is None,
        cx.env.local_type(source) == Some(&Type::Int),
        names_register(m, *cx.env, *source, r),
    ensures
        crate::laws::word::leaves_word(
            w,
            m,
            crate::codegen::assign_local::plan_emit_assign_local(
                cx,
                LocalLocation::Stack(off),
                &Type::Int,
                value,
            ),
            m.bp + off,
            m.reg(r)->0,
        ),
{
    let plan = crate::codegen::assign_local::plan_emit_assign_local(
        cx,
        LocalLocation::Stack(off),
        &Type::Int,
        value,
    );
    assert(plan == crate::codegen::assign_local::plan_local_int_register(
        cx,
        off,
        &Type::Int,
        value,
    ));
    word_stored(w, m, plan->Emit_0, crate::isa::bp(off), Operand::Reg(r));
}

/// `x = y` for a variable in a register and an integer in memory, or a
/// variable in another register, leaves the word of `y` in the register of
/// `x`; memory and the other registers keep what they hold.
pub proof fn word_assign_register<'a>(
    w: World<'a>,
    m: Machine,
    cx: Cx<'a>,
    r: Reg,
    value: &'a Expr,
    source: &'a String,
)
    requires
        m.wf(),
        m.reg(r) is Some,
        !r.is_byte(),
        value.kind == ExprKind::Ident(*source),
        cx.env.const_of(value) is None,
        crate::laws::word::names_int(*cx.env, *source) || (!cx.env.is_global(source) && (
        cx.env.word_reg_of(source) matches Some(from) && m.reg(from) is Some)),
    ensures
        leaves_register(
            w,
            m,
            crate::codegen::store_reg::plan_emit_store_reg(cx, r, value),
            r,
            match cx.env.word_reg_of(source) {
                Some(from) => m.reg(from)->0,
                None => m.word_at(crate::laws::long::home(w, m, *cx.env, source)),
            },
        ),
{
    let plan = crate::codegen::store_reg::plan_emit_store_reg(cx, r, value);
    let steps = plan->Emit_0;
    match cx.env.word_reg_of(source) {
        Some(from) => {
            assert(plan == crate::codegen::store_reg::plan_reg_copy(cx, r, value));
            let after = crate::laws::steps::move_to_register(
                w,
                m,
                steps,
                0,
                r,
                Operand::Reg(from),
            );
            crate::machine::step_end(w, after, steps, 1);
        },
        None => {
            let a = cx.env.memory_of(source)->0;
            if cx.env.is_global(source) {
                assert(plan == crate::codegen::store_reg::plan_reg_global_word(cx, r, value));
            } else {
                assert(plan == crate::codegen::store_reg::plan_reg_stack_word(cx, r, value));
            }
            let after = crate::laws::steps::load_word(w, m, steps, 0, r, a);
            crate::machine::step_end(w, after, steps, 1);
        },
    }
}

/// `p = &g` for a file-scope integer or pointer `p` leaves the offset of
/// `g` in `p`, and nothing else in memory changes.
pub proof fn address_assign_global<'a>(
    w: World<'a>,
    m: Machine,
    cx: Cx<'a>,
    name: &'a String,
    value: &'a Expr,
    target: &'a String,
)
    requires
        m.wf(),
        cx.env.global_type(name) matches Some(t) && t.is_int_like(),
        value.kind == ExprKind::AddressOf(*target),
        cx.env.const_of(value) is None,
        cx.env.is_global(target),
    ensures
        crate::laws::word::leaves_word(
            w,
            m,
            crate::codegen::assign_global::plan_emit_assign_global(cx, name, value),
            (w.symbol)(name@),
            crate::machine::wrap((w.symbol)(target@)),
        ),
{
    let ty = cx.env.global_type(name)->0;
    let plan = crate::codegen::assign_global::plan_emit_assign_global(cx, name, value);
    assert(plan == crate::codegen::assign_global::plan_global_address(cx, name, ty, value));
    word_stored(
        w,
        m,
        plan->Emit_0,
        crate::isa::global(name),
        Operand::OffsetOf(target, Disp::Zero),
    );
}

/// `p = &g` for a local integer or near pointer `p` in the stack frame
/// leaves the offset of `g` in `p`, and nothing else in memory changes.
pub proof fn address_assign_local<'a>(
    w: World<'a>,
    m: Machine,
    cx: Cx<'a>,
    off: i16,
    ty: &'a Type,
    value: &'a Expr,
    target: &'a String,
)
    requires
        m.wf(),
        ty.is_int_like(),
        value.kind == ExprKind::AddressOf(*target),
        cx.env.const_of(value) is None,
        cx.env.is_global(target),
    ensures
        crate::laws::word::leaves_word(
            w,
            m,
            crate::codegen::assign_local::plan_emit_assign_local(
                cx,
                LocalLocation::Stack(off),
                ty,
                value,
            ),
            m.bp + off,
            crate::machine::wrap((w.symbol)(target@)),
        ),
{
    let plan = crate::codegen::assign_local::plan_emit_assign_local(
        cx,
        LocalLocation::Stack(off),
        ty,
        value,
    );
    assert(plan == crate::codegen::assign_local::plan_local_address(cx, off, ty, value));
    word_stored(w, m, plan->Emit_0, crate::isa::bp(off), Operand::OffsetOf(target, Disp::Zero));
}

/// `p = &g` for a variable in a word register leaves the offset of `g`
/// there; memory and the other registers keep what they hold.
pub proof fn address_assign_register<'a>(
    w: World<'a>,
    m: Machine,
    cx: Cx<'a>,
    r: Reg,
    value: &'a Expr,
    target: &'a String,
)
    requires
        m.wf(),
        m.reg(r) is Some,
        !r.is_byte(),
        value.kind == ExprKind::AddressOf(*target),
        cx.env.const_of(value) is None,
        cx.env.is_global(target),
    ensures
        leaves_register(
            w,
            m,
            crate::codegen::store_reg::plan_emit_store_reg(cx, r, value),
            r,
            crate::machine::wrap((w.symbol)(target@)),
        ),
{
    let plan = crate::codegen::store_reg::plan_emit_store_reg(cx, r, value);
    assert(plan == crate::codegen::store_reg::plan_reg_address(cx, r, value));
    let steps = plan->Emit_0;
    let after = crate::laws::steps::move_to_register(
        w,
        m,
        steps,
        0,
        r,
        Operand::OffsetOf(target, Disp::Zero),
    );
    crate::machine::step_end(w, after, steps, 1);
}

/// The operator that an update applies with one.
pub open spec fn update_op(op: UpdateOp) -> BinOp {
    match op {
        UpdateOp::Inc => BinOp::Add,
        UpdateOp::Dec => BinOp::Sub,
    }
}

/// `y = x++` and the other updates of a word in a register that move it by
/// one, assigned to a local integer in the stack frame, leave in `y` the old value, or the new
/// one for an update in front, and the new value in the register. Nothing
/// else in memory changes.
#[verifier::rlimit(60)]
pub proof fn update_assign<'a>(
    w: World<'a>,
    m: Machine,
    cx: Cx<'a>,
    off: i16,
    ty: &'a Type,
    value: &'a Expr,
    target: &'a String,
    op: UpdateOp,
    position: UpdatePosition,
    r: Reg,
)
    requires
        m.wf(),
        crate::codegen::env::is_plain_int(ty),
        value.kind == (ExprKind::Update { target: *target, op, position }),
        cx.env.const_of(value) is None,
        cx.env.is_int_local(target),
        crate::codegen::assign_local::local_moves_by_one(cx.env, target),
        names_register(m, *cx.env, *target, r),
        r != Reg::Bp,
    ensures
        ({
            let plan = crate::codegen::assign_local::plan_emit_assign_local(
                cx,
                LocalLocation::Stack(off),
                ty,
                value,
            );
            let old_value = m.reg(r)->0;
            let new_value = crate::machine::word_result(update_op(op), old_value, 1);
            &&& plan matches Plan::Emit(steps)
            &&& crate::machine::run(w, m, steps, 0) matches Outcome::Through(after)
            &&& after.word_at(m.bp + off) == (if position == UpdatePosition::Pre {
                new_value
            } else {
                old_value
            })
            &&& crate::machine::same_but(after.mem, m.mem, m.bp + off, 2)
            &&& crate::laws::steps::same_regs(after, m.with_reg(r, new_value)->0)
        }),
{
    let plan = crate::codegen::assign_local::plan_emit_assign_local(
        cx,
        LocalLocation::Stack(off),
        ty,
        value,
    );
    let steps = plan->Emit_0;
    let old_value = m.reg(r)->0;
    let new_value = crate::machine::word_result(update_op(op), old_value, 1);
    let at = m.bp + off;
    if position == UpdatePosition::Pre {
        assert(plan == crate::codegen::assign_local::plan_local_pre_register(cx, off, value));
        let m1 = crate::laws::word::step_register(w, m, steps, 0, update_op(op), r);
        let after = crate::laws::steps::store_word(
            w,
            m1,
            steps,
            1,
            crate::isa::bp(off),
            Operand::Reg(r),
        );
        crate::machine::step_end(w, after, steps, 2);
        crate::machine::word_written(m1.mem, at, new_value);
    } else {
        assert(plan == crate::codegen::assign_local::plan_local_post_tail(cx, off, ty, value));
        assert(steps =~= seq![
            crate::codegen::emitter::mov(
                crate::isa::word(crate::isa::bp(off)),
                Operand::Reg(r),
            ),
            Step::Op1(crate::isa::update(op), Operand::Reg(r)),
        ]);
        let m1 = crate::laws::steps::store_word(
            w,
            m,
            steps,
            0,
            crate::isa::bp(off),
            Operand::Reg(r),
        );
        crate::machine::word_written(m.mem, at, old_value);
        let after = crate::laws::word::step_register(w, m1, steps, 1, update_op(op), r);
        crate::machine::step_end(w, after, steps, 2);
    }
}

/// Two steps by one are a step by two.
proof fn two_steps(op: UpdateOp, x: int)
    ensures
        ({
            let once = crate::machine::word_result(update_op(op), x, 1);
            crate::machine::word_result(update_op(op), once, 1) == crate::machine::word_result(
                update_op(op),
                x,
                2,
            )
        }),
{
}

/// A register stepped twice in the same direction.
#[verifier::rlimit(60)]
pub proof fn stepped_twice<'a>(
    w: World<'a>,
    m: Machine,
    steps: Seq<Step<'a>>,
    i: int,
    op: UpdateOp,
    r: Reg,
) -> (after: Machine)
    requires
        m.wf(),
        0 <= i,
        i + 1 < steps.len(),
        steps[i] == Step::Op1(crate::isa::update(op), Operand::<'a>::Reg(r)),
        steps[i + 1] == Step::Op1(crate::isa::update(op), Operand::<'a>::Reg(r)),
        !r.is_byte(),
        m.reg(r) is Some,
    ensures
        crate::machine::run(w, m, steps, i) == crate::machine::run(w, after, steps, i + 2),
        after.wf(),
        after.mem == m.mem,
        crate::laws::steps::same_regs(
            after,
            m.with_reg(r, crate::machine::word_result(update_op(op), m.reg(r)->0, 2))->0,
        ),
{
    let once = crate::machine::word_result(update_op(op), m.reg(r)->0, 1);
    let twice = crate::machine::word_result(update_op(op), m.reg(r)->0, 2);
    two_steps(op, m.reg(r)->0);
    let m1 = crate::laws::word::step_register(w, m, steps, i, update_op(op), r);
    crate::laws::word::register_set_again(m, m1, m1, r, once, twice);
    let after = crate::laws::word::step_register(w, m1, steps, i + 1, update_op(op), r);
    crate::laws::word::register_set_again(m, m1, after, r, once, twice);
    after
}

/// Whether a name stands for a near pointer to integers in a register that
/// forms addresses, other than the one of the stack frame.
pub open spec fn steps_over_ints(m: Machine, env: Env, name: String, r: Reg) -> bool {
    &&& env.local(&name) matches Some(l) && l.loc == LocalLocation::Reg(r)
    &&& env.local_pointee(&name) matches Some(t) && crate::codegen::env::is_plain_int(t)
    &&& !r.is_byte()
    &&& m.reg(r) is Some
    &&& r != Reg::Bp
}

/// `y = *p++` and `y = *p--` for an integer in the stack frame and a pointer
/// to integers in a register leave in `y` the word at the address that `p`
/// held, and move `p` by the size of an integer. Nothing else in memory
/// changes.
pub proof fn pointer_step_read<'a>(
    w: World<'a>,
    m: Machine,
    cx: Cx<'a>,
    off: i16,
    ty: &'a Type,
    value: &'a Expr,
    inner: &'a Box<Expr>,
    p: &'a String,
    op: UpdateOp,
    r: Reg,
)
    requires
        m.wf(),
        crate::codegen::env::is_plain_int(ty),
        value.kind == ExprKind::Deref(*inner),
        inner.kind == (ExprKind::Update { target: *p, op, position: UpdatePosition::Post }),
        cx.env.const_of(value) is None,
        steps_over_ints(m, *cx.env, *p, r),
        r != Reg::Ax,
    ensures
        ({
            let plan = crate::codegen::assign_local::plan_emit_assign_local(
                cx,
                LocalLocation::Stack(off),
                ty,
                value,
            );
            &&& plan matches Plan::Emit(steps)
            &&& crate::machine::run(w, m, steps, 0) matches Outcome::Through(after)
            &&& after.word_at(m.bp + off) == m.word_at(m.reg(r)->0)
            &&& crate::machine::same_but(after.mem, m.mem, m.bp + off, 2)
            &&& after.reg(r) == Some(
                crate::machine::word_result(update_op(op), m.reg(r)->0, 2),
            )
        }),
{
    let plan = crate::codegen::assign_local::plan_emit_assign_local(
        cx,
        LocalLocation::Stack(off),
        ty,
        value,
    );
    assert(plan == crate::codegen::assign_local::plan_local_word_deref(cx, off, ty, value));
    let steps = plan->Emit_0;
    let step = Step::Op1(crate::isa::update(op), Operand::<'a>::Reg(r));
    assert(steps =~= seq![
        crate::codegen::emitter::mov(crate::isa::ax(), crate::isa::word(crate::isa::at(r))),
        crate::codegen::emitter::mov(crate::isa::word(crate::isa::bp(off)), crate::isa::ax()),
        step,
        step,
    ]);
    let at = m.bp + off;
    let m1 = crate::laws::steps::load_word(w, m, steps, 0, Reg::Ax, crate::isa::at(r));
    let m2 = crate::laws::steps::store_word(
        w,
        m1,
        steps,
        1,
        crate::isa::bp(off),
        crate::isa::ax(),
    );
    crate::machine::word_written(m1.mem, at, m1.ax);
    let after = stepped_twice(w, m2, steps, 2, op, r);
    crate::machine::step_end(w, after, steps, 4);
}

/// `*p++ = k` for a pointer to integers in a register writes the constant at
/// the address that `p` held, and moves `p` on by the size of an integer.
/// Nothing else in memory changes.
pub proof fn pointer_step_write<'a>(
    w: World<'a>,
    m: Machine,
    cx: Cx<'a>,
    target: &'a Expr,
    p: &'a String,
    value: &'a Expr,
    k: u32,
    r: Reg,
)
    requires
        m.wf(),
        target.kind == (ExprKind::Update {
            target: *p,
            op: UpdateOp::Inc,
            position: UpdatePosition::Post,
        }),
        steps_over_ints(m, *cx.env, *p, r),
        cx.env.const_of(value) == Some(k),
        value.kind is IntLit,
    ensures
        ({
            let plan = crate::codegen::deref_write::plan_emit_deref_assign(cx, target, value);
            &&& plan matches Plan::Emit(steps)
            &&& crate::machine::run(w, m, steps, 0) matches Outcome::Through(after)
            &&& after.word_at(m.reg(r)->0) == k as int % 0x1_0000
            &&& crate::machine::same_but(after.mem, m.mem, m.reg(r)->0, 2)
            &&& crate::laws::steps::same_regs(
                after,
                m.with_reg(r, crate::machine::wrap(m.reg(r)->0 + 2))->0,
            )
        }),
{
    let plan = crate::codegen::deref_write::plan_emit_deref_assign(cx, target, value);
    assert(plan == crate::codegen::deref_write::plan_deref_assign_post(cx, target, value));
    let steps = plan->Emit_0;
    let step = Step::Op1(crate::isa::update(UpdateOp::Inc), Operand::<'a>::Reg(r));
    let imm = Operand::<'a>::Imm(crate::isa::masked(k, false));
    assert(steps =~= seq![
        crate::codegen::emitter::mov(crate::isa::word(crate::isa::at(r)), imm),
        step,
        step,
    ]);
    let m1 = crate::laws::steps::store_word(w, m, steps, 0, crate::isa::at(r), imm);
    crate::machine::word_written(m.mem, m.reg(r)->0, k as int % 0x1_0000);
    let after = stepped_twice(w, m1, steps, 1, UpdateOp::Inc, r);
    crate::machine::step_end(w, after, steps, 3);
}

} // verus!
