//! Subscripts with operations in them arrive in `bx` scaled, and are
//! evaluated once.

use vstd::prelude::*;
use crate::ast::{BinOp, Expr, ExprKind, Type, UpdateOp, UpdatePosition};
use crate::codegen::emitter::{Cx, Plan, Step};
use crate::isa::{Addr, Operand, Reg, Width};
use crate::machine::{Machine, Outcome, World};

verus! {

/// An operand taken into `bx` and doubled so many times.
proof fn taken_and_doubled<'a>(
    w: World<'a>,
    m: Machine,
    o: Operand<'a>,
    v: int,
    n: nat,
) -> (r: (Seq<Step<'a>>, Machine))
    requires
        m.wf(),
        m.read(w, o, false) == Some(v),
        0 <= v < 0x1_0000,
    ensures
        r.0 == seq![crate::codegen::emitter::mov(crate::isa::bx::<'a>(), o)]
            + crate::codegen::emitter::shl1(Operand::<'a>::Reg(Reg::Bx)).times(n),
        crate::machine::run(w, m, r.0, 0) == Outcome::Through(r.1),
        r.1.wf(),
        r.1.bx == crate::machine::wrap(v * vstd::arithmetic::power2::pow2(n)),
        crate::laws::address::same_variables(r.1, m),
{
    let a = seq![crate::codegen::emitter::mov(crate::isa::bx::<'a>(), o)];
    let b = crate::codegen::emitter::shl1(Operand::<'a>::Reg(Reg::Bx)).times(n);
    let m1 = crate::laws::steps::move_to_register(w, m, a, 0, Reg::Bx, o);
    crate::machine::step_end(w, m1, a, 1);
    let m2 = crate::laws::address::doublings(w, m1, Reg::Bx, n);
    crate::laws::address::first_part(w, m, a, b, m1);
    (a + b, m2)
}

/// The doublings for an element of one, two or four bytes make its size.
proof fn doublings_make_size(t: &Type)
    requires
        t.is_countable(),
        crate::codegen::array_addr::index_shifts(t.size() as u16) is Some,
    ensures
        vstd::arithmetic::power2::pow2(
            crate::codegen::array_addr::index_shifts(t.size() as u16)->0 as nat,
        ) == t.size(),
{
    vstd::arithmetic::power2::lemma2_to64();
}

/// A subscript `i << k` with `i` in memory arrives in `bx` shifted and scaled
/// by the size of an element. No variable changes.
pub proof fn shifted_subscript<'a>(
    w: World<'a>,
    m: Machine,
    cx: Cx<'a>,
    idx: &'a Expr,
    t: &'a Type,
    left: &'a Box<Expr>,
    right: &'a Box<Expr>,
    addr: &'a String,
    k: u32,
)
    requires
        m.wf(),
        t.is_countable(),
        crate::codegen::array_addr::index_shifts(t.size() as u16) is Some,
        idx.kind == (ExprKind::BinOp { op: BinOp::Shl, left: *left, right: *right }),
        cx.env.const_of(&**right) == Some(k),
        k <= 16,
        cx.env.facts(&**left).int_addr == Some(*addr),
    ensures
        ({
            let plan = crate::codegen::array_addr::plan_emit_index_into_bx(cx, idx, t);
            &&& plan matches Plan::Emit(steps)
            &&& crate::machine::run(w, m, steps, 0) matches Outcome::Through(after)
            &&& after.wf()
            &&& after.bx == crate::machine::wrap(
                m.word_at((w.place)(addr@)) * (vstd::arithmetic::power2::pow2(k as nat)
                    * t.size()),
            )
            &&& crate::laws::address::same_variables(after, m)
        }),
{
    let plan = crate::codegen::array_addr::plan_emit_index_into_bx(cx, idx, t);
    let n = crate::codegen::array_addr::index_shifts(t.size() as u16)->0;
    assert(plan == crate::codegen::array_addr::plan_index_shifted(cx, idx, n));
    let text = &cx.env.facts(&**left).int_addr->0;
    let o = Operand::Mem(Width::Word, Addr::Text(text));
    let v = m.word_at((w.place)(addr@));
    crate::machine::word_range(m.mem, (w.place)(addr@));
    let (a, after) = taken_and_doubled(w, m, o, v, (k + n) as nat);
    assert(plan->Emit_0 =~= a);
    doublings_make_size(t);
    vstd::arithmetic::power2::lemma_pow2_adds(k as nat, n as nat);
}

/// A subscript `*p` with `p` in a register arrives in `bx` as the word that
/// `p` points at, scaled by the size of an element. No variable changes.
pub proof fn pointed_subscript<'a>(
    w: World<'a>,
    m: Machine,
    cx: Cx<'a>,
    idx: &'a Expr,
    t: &'a Type,
    inner: &'a Box<Expr>,
    p: &'a String,
    r: Reg,
)
    requires
        m.wf(),
        t.is_countable(),
        crate::codegen::array_addr::index_shifts(t.size() as u16) is Some,
        idx.kind == ExprKind::Deref(*inner),
        inner.kind == ExprKind::Ident(*p),
        cx.env.facts(idx).int_addr is None,
        cx.env.word_reg_of(p) == Some(r),
        m.reg(r) is Some,
        cx.env.local_pointee(p) matches Some(e) && e.is_int_like(),
    ensures
        ({
            let plan = crate::codegen::array_addr::plan_emit_index_into_bx(cx, idx, t);
            &&& plan matches Plan::Emit(steps)
            &&& crate::machine::run(w, m, steps, 0) matches Outcome::Through(after)
            &&& after.wf()
            &&& after.bx == crate::machine::wrap(m.word_at(m.reg(r)->0) * t.size())
            &&& crate::laws::address::same_variables(after, m)
        }),
{
    let plan = crate::codegen::array_addr::plan_emit_index_into_bx(cx, idx, t);
    let n = crate::codegen::array_addr::index_shifts(t.size() as u16)->0;
    assert(plan == crate::codegen::array_addr::plan_index_deref(cx, idx, n));
    let o = Operand::<'a>::Mem(Width::Word, crate::isa::at(r));
    let v = m.word_at(m.reg(r)->0);
    crate::machine::word_range(m.mem, m.reg(r)->0);
    let (a, after) = taken_and_doubled(w, m, o, v, n as nat);
    assert(plan->Emit_0 =~= a);
    doublings_make_size(t);
}

/// A subscript `++i` or `--i` of an integer in a register steps it and
/// arrives in `bx` as the new value, scaled by the size of an element.
pub proof fn stepped_subscript<'a>(
    w: World<'a>,
    m: Machine,
    cx: Cx<'a>,
    idx: &'a Expr,
    t: &'a Type,
    i: &'a String,
    op: UpdateOp,
    r: Reg,
)
    requires
        m.wf(),
        t.is_countable(),
        crate::codegen::array_addr::index_shifts(t.size() as u16) is Some,
        idx.kind == (ExprKind::Update { target: *i, op, position: UpdatePosition::Pre }),
        cx.env.facts(idx).int_addr is None,
        cx.env.is_int_local(i),
        cx.env.reg_of(i) == Some(r),
        r == Reg::Si || r == Reg::Di,
    ensures
        ({
            let plan = crate::codegen::array_addr::plan_emit_index_into_bx(cx, idx, t);
            let stepped = crate::machine::word_result(
                crate::laws::copy::update_op(op),
                m.reg(r)->0,
                1,
            );
            &&& plan matches Plan::Emit(steps)
            &&& crate::machine::run(w, m, steps, 0) matches Outcome::Through(after)
            &&& after.wf()
            &&& after.bx == crate::machine::wrap(stepped * t.size())
            &&& crate::laws::address::same_variables(after, m.with_reg(r, stepped)->0)
        }),
{
    let plan = crate::codegen::array_addr::plan_emit_index_into_bx(cx, idx, t);
    let n = crate::codegen::array_addr::index_shifts(t.size() as u16)->0;
    assert(plan == crate::codegen::array_addr::plan_index_pre(cx, idx, n));
    let by = crate::laws::copy::update_op(op);
    let a = seq![Step::Op1(crate::isa::update(op), Operand::<'a>::Reg(r))];
    let m1 = crate::laws::word::step_register(w, m, a, 0, by, r);
    crate::machine::step_end(w, m1, a, 1);
    let (b, after) = taken_and_doubled(w, m1, Operand::Reg(r), m1.reg(r)->0, n as nat);
    crate::laws::address::first_part(w, m, a, b, m1);
    assert(plan->Emit_0 =~= a + b);
    doublings_make_size(t);
}

/// A subscript `i++` or `i--` of an integer in a register into bytes arrives
/// in `bx` as the old value, and the register is stepped.
pub proof fn counted_subscript<'a>(
    w: World<'a>,
    m: Machine,
    cx: Cx<'a>,
    idx: &'a Expr,
    t: &'a Type,
    i: &'a String,
    op: UpdateOp,
    r: Reg,
)
    requires
        m.wf(),
        t.is_countable(),
        t.size() == 1,
        idx.kind == (ExprKind::Update { target: *i, op, position: UpdatePosition::Post }),
        cx.env.facts(idx).int_addr is None,
        cx.env.is_int_local(i),
        cx.env.word_reg_of(i) == Some(r),
        r == Reg::Si || r == Reg::Di,
    ensures
        ({
            let plan = crate::codegen::array_addr::plan_emit_index_into_bx(cx, idx, t);
            let stepped = crate::machine::word_result(
                crate::laws::copy::update_op(op),
                m.reg(r)->0,
                1,
            );
            &&& plan matches Plan::Emit(steps)
            &&& crate::machine::run(w, m, steps, 0) matches Outcome::Through(after)
            &&& after.bx == m.reg(r)->0
            &&& crate::laws::address::same_variables(after, m.with_reg(r, stepped)->0)
        }),
{
    let plan = crate::codegen::array_addr::plan_emit_index_into_bx(cx, idx, t);
    assert(plan == crate::codegen::array_addr::plan_index_post(cx, idx, 0));
    let steps = plan->Emit_0;
    let by = crate::laws::copy::update_op(op);
    let m1 = crate::laws::steps::move_to_register(w, m, steps, 0, Reg::Bx, Operand::Reg(r));
    let after = crate::laws::word::step_register(w, m1, steps, 1, by, r);
    crate::machine::step_end(w, after, steps, 2);
}

} // verus!
