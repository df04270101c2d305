//! Constants applied to characters compute what they say.

use vstd::prelude::*;
use crate::ast::{BinOp, Expr};
use crate::codegen::emitter::{Cx, Plan, Step};
use crate::isa::{Addr, Mnemonic, Operand, Reg, Width};
use crate::machine::{Machine, Outcome, World};

verus! {

/// What a direct operator makes of two bytes.
pub open spec fn byte_result(op: BinOp, a: int, b: int) -> int {
    match op {
        BinOp::Add => (a + b) % 0x100,
        BinOp::Sub => (a - b) % 0x100,
        BinOp::BitAnd => crate::machine::both_bits(a, b),
        BinOp::BitOr => crate::machine::either_bits(a, b),
        _ => crate::machine::other_bits(a, b),
    }
}

/// A character as a number: with its sign, unless it is unsigned.
pub open spec fn char_value(b: int, unsigned: bool) -> int {
    if unsigned { b } else { crate::machine::with_sign(b, true) }
}

/// The character in `al` widened into `ax`.
#[verifier::rlimit(60)]
pub proof fn widen_al<'a>(
    w: World<'a>,
    m: Machine,
    steps: Seq<Step<'a>>,
    i: int,
    unsigned: bool,
) -> (after: Machine)
    requires
        m.wf(),
        0 <= i < steps.len(),
        steps[i] == crate::codegen::emitter::widen(unsigned),
    ensures
        crate::machine::run(w, m, steps, i) == crate::machine::run(w, after, steps, i + 1),
        after.wf(),
        after == (Machine {
            ax: crate::machine::wrap(char_value(m.ax % 0x100, unsigned)),
            ..m
        }),
{
    let after = Machine { ax: crate::machine::wrap(char_value(m.ax % 0x100, unsigned)), ..m };
    if unsigned {
        assert(crate::machine::wrap(m.ax % 0x100) == m.ax % 0x100);
        assert(crate::machine::run_op2(
            w,
            m,
            Mnemonic::Mov,
            Operand::Reg(Reg::Ah),
            Operand::Imm(0),
        ) == Some(after));
    } else {
        assert(crate::machine::run_op0(m, Mnemonic::Cbw) == Some(after));
    }
    crate::machine::step_on(w, m, steps, i, after);
    after
}

/// Whether a plan goes through and leaves a byte at a place, with no other
/// memory changed.
pub open spec fn leaves_byte<'a>(
    w: World<'a>,
    m: Machine,
    plan: Plan<'a>,
    at: int,
    value: int,
) -> bool {
    &&& plan matches Plan::Emit(steps)
    &&& crate::machine::run(w, m, steps, 0) matches Outcome::Through(after)
    &&& after.byte_at(at) == value
    &&& crate::machine::same_but(after.mem, m.mem, at, 1)
}

/// Bitwise operators on bytes make bytes.
proof fn bits_of_bytes(a: int, b: int)
    requires
        0 <= a < 0x100,
        0 <= b < 0x100,
    ensures
        0 <= crate::machine::both_bits(a, b) < 0x100,
        0 <= crate::machine::either_bits(a, b) < 0x100,
        0 <= crate::machine::other_bits(a, b) < 0x100,
{
    let x = a as u16;
    let y = b as u16;
    assert(x & y < 0x100u16) by (bit_vector)
        requires
            x < 0x100u16,
    ;
    assert(x | y < 0x100u16) by (bit_vector)
        requires
            x < 0x100u16,
            y < 0x100u16,
    ;
    assert(x ^ y < 0x100u16) by (bit_vector)
        requires
            x < 0x100u16,
            y < 0x100u16,
    ;
}

/// What a direct operator does to two bytes.
pub proof fn combine_byte(m: Machine, op: BinOp, a: int, b: int)
    requires
        crate::isa::is_direct(op),
        0 <= a < 0x100,
        0 <= b < 0x100,
    ensures
        crate::machine::combine(m, crate::isa::direct(op), a, b, true) matches Some((r, after))
            && r == byte_result(op, a, b) && 0 <= r < 0x100 && crate::laws::steps::same_regs(
            after,
            m,
        ) && after.mem == m.mem,
{
    reveal(crate::machine::combine);
    bits_of_bytes(a, b);
    match op {
        BinOp::Add => {},
        BinOp::Sub => {},
        BinOp::BitAnd => {},
        BinOp::BitOr => {},
        _ => {},
    }
}

/// Whether two machines agree in memory and in every general register but
/// `ax`, of which the high half is the same.
pub open spec fn same_but_al(m: Machine, n: Machine) -> bool {
    &&& crate::laws::steps::same_regs(m, Machine { ax: m.ax, ..n })
    &&& m.ax / 0x100 == n.ax / 0x100
    &&& m.mem == n.mem
}

/// A word with another low byte.
pub proof fn low_byte_replaced(x: int, r: int)
    requires
        0 <= x < 0x1_0000,
        0 <= r < 0x100,
    ensures
        0 <= x / 0x100 * 0x100 + r < 0x1_0000,
        (x / 0x100 * 0x100 + r) % 0x100 == r,
        (x / 0x100 * 0x100 + r) / 0x100 == x / 0x100,
{
}

/// Whether an address names the same place whatever `ax` holds.
pub open spec fn is_beside_ax(a: Addr) -> bool {
    match a {
        Addr::Bp(_) | Addr::Global(_, _) | Addr::Text(_) => true,
        Addr::At(r, _) => r.is_base(),
        Addr::GlobalAt(_, _, r, _) => r.is_base(),
        _ => false,
    }
}

/// A byte loaded into `al`.
pub proof fn load_al<'a>(
    w: World<'a>,
    m: Machine,
    steps: Seq<Step<'a>>,
    i: int,
    a: Addr<'a>,
) -> (after: Machine)
    requires
        m.wf(),
        0 <= i < steps.len(),
        steps[i] == Step::Op2(
            Mnemonic::Mov,
            Operand::Reg(Reg::Al),
            Operand::Mem(Width::Byte, a),
        ),
        m.locate(w, a) is Some,
    ensures
        crate::machine::run(w, m, steps, i) == crate::machine::run(w, after, steps, i + 1),
        after.wf(),
        same_but_al(after, m),
        after.ax % 0x100 == m.byte_at(m.locate(w, a)->0),
{
    low_byte_replaced(m.ax, m.byte_at(m.locate(w, a)->0));
    let after = Machine { ax: m.ax / 0x100 * 0x100 + m.byte_at(m.locate(w, a)->0), ..m };
    assert(crate::machine::run_step(w, m, steps[i]) == Some(after));
    crate::machine::step_on(w, m, steps, i, after);
    after
}

/// A direct operator applied to `al` and a number.
#[verifier::rlimit(60)]
proof fn direct_to_al<'a>(
    w: World<'a>,
    m: Machine,
    steps: Seq<Step<'a>>,
    i: int,
    op: BinOp,
    n: i64,
) -> (after: Machine)
    requires
        m.wf(),
        0 <= i < steps.len(),
        crate::isa::is_direct(op),
        steps[i] == Step::<'a>::Op2(
            crate::isa::direct(op),
            Operand::Reg(Reg::Al),
            Operand::Imm(n),
        ),
        0 <= n < 0x100,
    ensures
        crate::machine::run(w, m, steps, i) == crate::machine::run(w, after, steps, i + 1),
        after.wf(),
        same_but_al(after, m),
        after.ax % 0x100 == byte_result(op, m.ax % 0x100, n as int),
{
    combine_byte(m, op, m.ax % 0x100, n as int);
    let (r, flags) = crate::machine::combine(
        m,
        crate::isa::direct(op),
        m.ax % 0x100,
        n as int,
        true,
    )->0;
    low_byte_replaced(m.ax, r);
    let after = Machine { ax: flags.ax / 0x100 * 0x100 + r, ..flags };
    assert(crate::machine::run_step(w, m, steps[i]) == Some(after));
    crate::machine::step_on(w, m, steps, i, after);
    after
}

/// `al` stepped by one.
pub proof fn step_al<'a>(w: World<'a>, m: Machine, steps: Seq<Step<'a>>, i: int, op: BinOp) -> (after:
    Machine)
    requires
        m.wf(),
        0 <= i < steps.len(),
        crate::isa::is_additive(op),
        steps[i] == Step::<'a>::Op1(crate::isa::step_by_one(op), Operand::Reg(Reg::Al)),
    ensures
        crate::machine::run(w, m, steps, i) == crate::machine::run(w, after, steps, i + 1),
        after.wf(),
        same_but_al(after, m),
        after.ax % 0x100 == byte_result(op, m.ax % 0x100, 1),
{
    let a = m.ax % 0x100;
    let r = byte_result(op, a, 1);
    let d: int = if op == BinOp::Add { 1 } else { -1 };
    let flags = m.flagged(
        r,
        true,
        m.carry,
        crate::machine::overflows(crate::machine::with_sign(a, true) + d, true),
    );
    low_byte_replaced(m.ax, r);
    let after = Machine { ax: m.ax / 0x100 * 0x100 + r, ..flags };
    assert(crate::machine::run_step(w, m, steps[i]) == Some(after));
    crate::machine::step_on(w, m, steps, i, after);
    after
}

/// `al` stored as the last step of some code.
proof fn store_al<'a>(
    w: World<'a>,
    m: Machine,
    now: Machine,
    steps: Seq<Step<'a>>,
    i: int,
    a: Addr<'a>,
)
    requires
        now.wf(),
        same_but_al(now, m),
        0 <= i,
        steps.len() == i + 1,
        crate::machine::run(w, m, steps, 0) == crate::machine::run(w, now, steps, i),
        is_beside_ax(a),
        steps[i] == Step::Op2(
            Mnemonic::Mov,
            Operand::Mem(Width::Byte, a),
            Operand::Reg(Reg::Al),
        ),
    ensures
        leaves_byte(w, m, Plan::Emit(steps), m.locate(w, a)->0, now.ax % 0x100),
{
    let at = m.locate(w, a)->0;
    let after = now.with_byte(at, now.ax % 0x100);
    assert(crate::machine::run_step(w, now, steps[i]) == Some(after));
    crate::machine::step_on(w, now, steps, i, after);
    crate::machine::step_end(w, after, steps, i + 1);
    byte_written(m.mem, at, now.ax % 0x100);
}

/// A byte that is written changes no other memory.
pub proof fn byte_written(mem: Map<int, int>, at: int, v: int)
    ensures
        crate::machine::same_but(mem.insert(crate::machine::wrap(at), v), mem, at, 1),
{
    reveal(crate::machine::same_but);
}

/// A direct operator applied to a byte in memory and a number.
pub proof fn direct_to_byte<'a>(
    w: World<'a>,
    m: Machine,
    steps: Seq<Step<'a>>,
    op: BinOp,
    a: Addr<'a>,
    n: i64,
)
    requires
        m.wf(),
        crate::isa::is_direct(op),
        steps == seq![
            Step::Op2(crate::isa::direct(op), Operand::Mem(Width::Byte, a), Operand::Imm(n)),
        ],
        is_beside_ax(a),
        0 <= n < 0x100,
    ensures
        leaves_byte(
            w,
            m,
            Plan::Emit(steps),
            m.locate(w, a)->0,
            byte_result(op, m.byte_at(m.locate(w, a)->0), n as int),
        ),
{
    let at = m.locate(w, a)->0;
    let old = m.byte_at(at);
    combine_byte(m, op, old, n as int);
    let (r, flags) = crate::machine::combine(m, crate::isa::direct(op), old, n as int, true)->0;
    let after = flags.with_byte(at, r);
    assert(crate::machine::run_step(w, m, steps[0]) == Some(after));
    crate::machine::step_on(w, m, steps, 0, after);
    crate::machine::step_end(w, after, steps, 1);
    byte_written(m.mem, at, r);
}

/// Adding the byte that stands for a distance adds or takes the distance,
/// and adding all ones takes one.
proof fn delta_adds(op: BinOp, k: u32, old: int)
    requires
        crate::isa::is_additive(op),
        0 <= old < 0x100,
    ensures
        ({
            let d = crate::codegen::compound_global::byte_delta(op, k);
            &&& 0 <= d < 0x100
            &&& byte_result(BinOp::Add, old, d as int) == byte_result(op, old, k as int % 0x100)
            &&& d == 255 ==> byte_result(BinOp::Sub, old, 1) == byte_result(
                op,
                old,
                k as int % 0x100,
            )
        }),
{
}

/// A sum or a difference made in `al`: adding the byte that stands for the
/// distance, or stepping by one.
#[verifier::rlimit(60)]
pub proof fn sum_by_al<'a>(
    w: World<'a>,
    m: Machine,
    steps: Seq<Step<'a>>,
    a: Addr<'a>,
    op: BinOp,
    k: u32,
)
    requires
        m.wf(),
        crate::isa::is_additive(op),
        is_beside_ax(a),
        steps.len() == 3,
        steps[0] == Step::Op2(
            Mnemonic::Mov,
            Operand::Reg(Reg::Al),
            Operand::Mem(Width::Byte, a),
        ),
        ({
            let d = crate::codegen::compound_global::byte_delta(op, k);
            ||| steps[1] == Step::<'a>::Op2(
                Mnemonic::Add,
                Operand::Reg(Reg::Al),
                Operand::Imm(d),
            )
            ||| d == 1 && steps[1] == Step::<'a>::Op1(Mnemonic::Inc, Operand::Reg(Reg::Al))
            ||| d == 255 && steps[1] == Step::<'a>::Op1(Mnemonic::Dec, Operand::Reg(Reg::Al))
        }),
        steps[2] == Step::Op2(
            Mnemonic::Mov,
            Operand::Mem(Width::Byte, a),
            Operand::Reg(Reg::Al),
        ),
    ensures
        leaves_byte(
            w,
            m,
            Plan::Emit(steps),
            m.locate(w, a)->0,
            byte_result(op, m.byte_at(m.locate(w, a)->0), k as int % 0x100),
        ),
{
    let d = crate::codegen::compound_global::byte_delta(op, k);
    let old = m.byte_at(m.locate(w, a)->0);
    delta_adds(op, k, old);
    let m1 = load_al(w, m, steps, 0, a);
    if let Step::Op1(op1, _) = steps[1] {
        let one = if d == 1 { BinOp::Add } else { BinOp::Sub };
        let m2 = step_al(w, m1, steps, 1, one);
        store_al(w, m, m2, steps, 2, a);
    } else {
        let m2 = direct_to_al(w, m1, steps, 1, BinOp::Add, d);
        store_al(w, m, m2, steps, 2, a);
    }
}

/// `c op= k` for a character in memory and a direct operator leaves the
/// 8-bit result in `c`, and nothing else in memory changes.
pub proof fn char_const_compound<'a>(
    w: World<'a>,
    m: Machine,
    cx: Cx<'a>,
    name: &'a String,
    op: BinOp,
    value: &'a Expr,
    k: u32,
)
    requires
        m.wf(),
        crate::laws::word::names_char(*cx.env, *name),
        crate::laws::long::is_const(*cx.env, *value, k),
        value.kind is IntLit,
        crate::isa::is_direct(op),
    ensures
        leaves_byte(
            w,
            m,
            crate::codegen::compound_local::plan_emit_compound_assign(cx, name, op, value),
            crate::laws::long::home(w, m, *cx.env, name),
            byte_result(
                op,
                m.byte_at(crate::laws::long::home(w, m, *cx.env, name)),
                k as int % 0x100,
            ),
        ),
{
    let plan = crate::codegen::compound_local::plan_emit_compound_assign(cx, name, op, value);
    let a = cx.env.memory_of(name)->0;
    let steps = plan->Emit_0;
    char_const_plan(cx, name, op, value);
    if crate::isa::is_additive(op) {
        sum_by_al(w, m, steps, a, op, k);
    } else if cx.env.is_global(name) {
        direct_to_byte(w, m, steps, op, a, crate::isa::lo8(k));
    } else {
        let m1 = load_al(w, m, steps, 0, a);
        let m2 = direct_to_al(w, m1, steps, 1, op, crate::isa::lo8(k));
        store_al(w, m, m2, steps, 2, a);
    }
}

/// The code for a constant applied to a character is that for a file-scope
/// or for a local variable.
proof fn char_const_plan<'a>(cx: Cx<'a>, name: &'a String, op: BinOp, value: &'a Expr)
    requires
        crate::laws::word::names_char(*cx.env, *name),
        cx.env.const_of(value) is Some,
        value.kind is IntLit,
        crate::isa::is_direct(op),
    ensures
        crate::codegen::compound_local::plan_emit_compound_assign(cx, name, op, value) == (
        if cx.env.is_global(name) {
            crate::codegen::compound_global::plan_char_const(cx, name, op, value)
        } else {
            crate::codegen::compound_local::plan_stack_char(
                cx,
                cx.env.local(name)->0,
                op,
                value,
            )
        }),
{
}

} // verus!
