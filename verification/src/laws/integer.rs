//! Products, quotients and shifts of integers compute what they say.

use vstd::prelude::*;
use crate::ast::{BinOp, Expr, ExprKind};
use crate::codegen::emitter::{Cx, Plan, Step};
use crate::codegen::env::{Env, LocalLocation};
use crate::isa::{Addr, Mnemonic, Operand, Reg, Width};
use crate::machine::{Machine, Outcome, World};

verus! {

/// The low word of a product is the same with and without signs.
proof fn product_without_sign(a: int, b: int)
    requires
        0 <= a < 0x1_0000,
        0 <= b < 0x1_0000,
    ensures
        ({
            let full = (crate::machine::with_sign(a, false) * crate::machine::with_sign(b, false))
                % 0x1_0000_0000;
            full % 0x1_0000 == crate::machine::wrap(a * b) && 0 <= full / 0x1_0000 < 0x1_0000
        }),
{
    let c: int = if a >= 0x8000 { 1 } else { 0 };
    let d: int = if b >= 0x8000 { 1 } else { 0 };
    let x = crate::machine::with_sign(a, false) * crate::machine::with_sign(b, false);
    assert(x == a * b + 0x1_0000 * (0x1_0000 * (c * d) - a * d - c * b)) by (nonlinear_arith)
        requires
            x == (a - 0x1_0000 * c) * (b - 0x1_0000 * d),
    ;
    let y = 0x1_0000 * (c * d) - a * d - c * b;
    assert((a * b + 0x1_0000 * y) % 0x1_0000 == (a * b) % 0x1_0000);
    let full = x % 0x1_0000_0000;
    assert(full % 0x1_0000 == x % 0x1_0000);
}

/// `ax` multiplied by a word register.
pub proof fn multiplied<'a>(
    w: World<'a>,
    m: Machine,
    steps: Seq<Step<'a>>,
    i: int,
    by: Operand<'a>,
) -> (after: Machine)
    requires
        m.wf(),
        0 <= i < steps.len(),
        steps[i] == Step::Op1(Mnemonic::Imul, by),
        !crate::machine::is_byte_operand(by),
        m.read(w, by, false) matches Some(b) && 0 <= b < 0x1_0000,
    ensures
        crate::machine::run(w, m, steps, i) == crate::machine::run(w, after, steps, i + 1),
        after.wf(),
        after == (Machine { ax: after.ax, dx: after.dx, ..m }),
        after.ax == crate::machine::wrap(m.ax * m.read(w, by, false)->0),
{
    let b = m.read(w, by, false)->0;
    product_without_sign(m.ax, b);
    let full = (crate::machine::with_sign(m.ax, false) * crate::machine::with_sign(b, false))
        % 0x1_0000_0000;
    let after = Machine { ax: full % 0x1_0000, dx: full / 0x1_0000, ..m };
    assert(crate::machine::run_step(w, m, steps[i]) == Some(after));
    crate::machine::step_on(w, m, steps, i, after);
    after
}

/// `x *= k` for a file-scope integer leaves the low 16 bits of the product
/// in `x`, and nothing else in memory changes.
pub proof fn const_product_global<'a>(
    w: World<'a>,
    m: Machine,
    cx: Cx<'a>,
    name: &'a String,
    value: &'a Expr,
    k: u32,
)
    requires
        m.wf(),
        cx.env.global_type(name) matches Some(t) && crate::codegen::env::is_plain_int(t),
        !cx.env.has(name),
        crate::laws::long::is_const(*cx.env, *value, k),
        value.kind is IntLit,
        cx.env.facts(value).widening_type is None,
    ensures
        crate::laws::word::leaves_word(
            w,
            m,
            crate::codegen::compound_local::plan_emit_compound_assign(
                cx,
                name,
                BinOp::Mul,
                value,
            ),
            (w.symbol)(name@),
            crate::machine::wrap(m.word_at((w.symbol)(name@)) * (k as int % 0x1_0000)),
        ),
{
    let ty = cx.env.global_type(name)->0;
    let at = (w.symbol)(name@);
    let plan = crate::codegen::compound_local::plan_emit_compound_assign(
        cx,
        name,
        BinOp::Mul,
        value,
    );
    assert(plan == crate::codegen::compound_global::plan_int_mul_const(
        cx,
        name,
        ty,
        BinOp::Mul,
        value,
    ));
    let steps = plan->Emit_0;
    let imm = Operand::<'a>::Imm(crate::isa::lo16(k));
    let m1 = crate::laws::steps::move_to_register(w, m, steps, 0, Reg::Dx, imm);
    let m2 = crate::laws::steps::load_word(w, m1, steps, 1, Reg::Ax, crate::isa::global(name));
    let m3 = multiplied(w, m2, steps, 2, Operand::Reg(Reg::Dx));
    let after = crate::laws::steps::store_word(
        w,
        m3,
        steps,
        3,
        crate::isa::global(name),
        Operand::Reg(Reg::Ax),
    );
    crate::machine::step_end(w, after, steps, 4);
    crate::machine::word_written(m.mem, at, m3.ax);
}

/// What a division or a remainder makes of two words.
pub open spec fn word_divided(op: BinOp, a: int, b: int, unsigned: bool) -> int {
    let x = crate::laws::compare::as_compared(a, false, unsigned);
    let y = crate::laws::compare::as_compared(b, false, unsigned);
    if op == BinOp::Div {
        crate::machine::wrap(crate::machine::truncated(x, y))
    } else {
        crate::machine::wrap(x - y * crate::machine::truncated(x, y))
    }
}

/// A quotient of words fits a word, but for the least signed word divided by
/// minus one.
pub proof fn quotient_fits(x: int, y: int)
    requires
        y != 0,
        -0x8000 <= x < 0x1_0000,
    ensures
        x >= 0 ==> -x <= crate::machine::truncated(x, y) <= x,
        x < 0 && y != -1 ==> x <= crate::machine::truncated(x, y) < -x,
        x < 0 && y == -1 ==> crate::machine::truncated(x, y) == -x,
        x >= 0 && y > 0 ==> crate::machine::truncated(x, y) >= 0,
{
    let a = if x >= 0 { x } else { -x };
    let b = if y >= 0 { y } else { -y };
    let q = a / b;
    vstd::arithmetic::div_mod::lemma_fundamental_div_mod(a, b);
    let r = a % b;
    assert(0 <= q <= a) by (nonlinear_arith)
        requires
            a == b * q + r,
            0 <= r < b,
            0 <= a,
    ;
    if b > 1 && a > 0 {
        assert(q < a) by (nonlinear_arith)
            requires
                a == b * q + r,
                0 <= r < b,
                0 < a,
                b > 1,
                0 <= q,
        ;
    }
    if b == 1 {
        assert(a / 1 == a);
    }
}

/// `ax` widened and divided by a word.
proof fn widened_and_divided<'a>(
    w: World<'a>,
    m: Machine,
    steps: Seq<Step<'a>>,
    i: int,
    by: Reg,
    unsigned: bool,
) -> (after: Machine)
    requires
        m.wf(),
        0 <= i,
        i + 1 < steps.len(),
        steps[i] == crate::codegen::emitter::widen_long::<'a>(unsigned),
        steps[i + 1] == Step::<'a>::Op1(
            crate::codegen::compound_global::division(unsigned),
            Operand::Reg(by),
        ),
        by == Reg::Bx,
        m.bx != 0,
        !unsigned ==> !(m.ax == 0x8000 && m.bx == 0xFFFF),
    ensures
        crate::machine::run(w, m, steps, i) == crate::machine::run(w, after, steps, i + 2),
        after.wf(),
        after.mem == m.mem,
        after.bp == m.bp,
        after.ax == word_divided(BinOp::Div, m.ax, m.bx, unsigned),
        after.dx == word_divided(BinOp::Mod, m.ax, m.bx, unsigned),
{
    let x = crate::laws::compare::as_compared(m.ax, false, unsigned);
    let y = crate::laws::compare::as_compared(m.bx, false, unsigned);
    quotient_fits(x, y);
    let m1 = ax_widened(w, m, steps, i, unsigned);
    let after = Machine {
        ax: crate::machine::wrap(crate::machine::truncated(x, y)),
        dx: crate::machine::wrap(x - y * crate::machine::truncated(x, y)),
        ..m1
    };
    assert(crate::machine::run_step(w, m1, steps[i + 1]) == Some(after)) by {
        reveal(crate::machine::divide);
        if !unsigned {
            assert(crate::machine::signed_pair(crate::machine::pair(m1.dx, m1.ax)) == x);
        }
    }
    crate::machine::step_on(w, m1, steps, i + 1, after);
    after
}

/// `ax` widened to `dx:ax`.
pub proof fn ax_widened<'a>(w: World<'a>, m: Machine, steps: Seq<Step<'a>>, i: int, unsigned: bool) -> (
    after: Machine)
    requires
        m.wf(),
        0 <= i < steps.len(),
        steps[i] == crate::codegen::emitter::widen_long::<'a>(unsigned),
    ensures
        crate::machine::run(w, m, steps, i) == crate::machine::run(w, after, steps, i + 1),
        after.wf(),
        after.mem == m.mem,
        crate::laws::steps::same_regs(after, Machine { dx: after.dx, ..m }),
        after.dx == (if !unsigned && m.ax >= 0x8000 { 0xFFFFint } else { 0int }),
{
    if unsigned {
        let d = m.dx as u16;
        assert(d ^ d == 0u16) by (bit_vector);
        crate::laws::steps::direct_to_register(
            w,
            m,
            steps,
            i,
            BinOp::BitXor,
            Reg::Dx,
            Operand::Reg(Reg::Dx),
        )
    } else {
        let after = Machine { dx: if m.ax >= 0x8000 { 0xFFFF } else { 0 }, ..m };
        assert(crate::machine::run_step(w, m, steps[i]) == Some(after));
        crate::machine::step_on(w, m, steps, i, after);
        after
    }
}

/// `x /= k` and `x %= k` for a file-scope integer and a constant of which
/// the low 16 bits are not zero leave the quotient or the remainder in `x`,
/// with its sign unless `x` is unsigned, and nothing else in memory changes.
/// The least signed number divided by minus one, which the processor
/// refuses, is left out.
#[verifier::rlimit(60)]
pub proof fn const_quotient_global<'a>(
    w: World<'a>,
    m: Machine,
    cx: Cx<'a>,
    name: &'a String,
    op: BinOp,
    value: &'a Expr,
    k: u32,
)
    requires
        m.wf(),
        cx.env.global_type(name) matches Some(t) && crate::codegen::env::is_plain_int(t),
        !cx.env.has(name),
        crate::isa::is_division(op),
        crate::laws::long::is_const(*cx.env, *value, k),
        value.kind is IntLit,
        k as int % 0x1_0000 != 0,
        cx.env.is_unsigned_global(name) || !(m.word_at((w.symbol)(name@)) == 0x8000 && k as int
            % 0x1_0000 == 0xFFFF),
    ensures
        crate::laws::word::leaves_word(
            w,
            m,
            crate::codegen::compound_local::plan_emit_compound_assign(cx, name, op, value),
            (w.symbol)(name@),
            word_divided(
                op,
                m.word_at((w.symbol)(name@)),
                k as int % 0x1_0000,
                cx.env.is_unsigned_global(name),
            ),
        ),
{
    let ty = cx.env.global_type(name)->0;
    let at = (w.symbol)(name@);
    let unsigned = ty.is_unsigned();
    let plan = crate::codegen::compound_local::plan_emit_compound_assign(cx, name, op, value);
    assert(plan == crate::codegen::compound_global::plan_int_mul_const(cx, name, ty, op, value));
    let steps = plan->Emit_0;
    let imm = Operand::<'a>::Imm(crate::isa::lo16(k));
    let m1 = crate::laws::steps::move_to_register(w, m, steps, 0, Reg::Bx, imm);
    let m2 = crate::laws::steps::load_word(w, m1, steps, 1, Reg::Ax, crate::isa::global(name));
    let m3 = widened_and_divided(w, m2, steps, 2, Reg::Bx, unsigned);
    let after = crate::laws::steps::store_word(
        w,
        m3,
        steps,
        4,
        crate::isa::global(name),
        crate::isa::quotient(op),
    );
    crate::machine::step_end(w, after, steps, 5);
    crate::machine::word_written(m.mem, at, word_divided(op, m2.ax, m2.bx, unsigned));
}

/// A word in memory shifted by one place so many times.
proof fn shifted_in_memory<'a>(
    w: World<'a>,
    m: Machine,
    op: Mnemonic,
    a: Addr<'a>,
    n: nat,
) -> (after: Machine)
    requires
        m.wf(),
        op == Mnemonic::Shl || op == Mnemonic::Shr || op == Mnemonic::Sar,
        crate::laws::steps::is_fixed(a),
    ensures
        crate::machine::run(
            w,
            m,
            crate::codegen::emitter::op2(
                op,
                Operand::Mem(Width::Word, a),
                Operand::Imm(1),
            ).times(n),
            0,
        ) == Outcome::Through(after),
        after.wf(),
        after.bp == m.bp,
        after.word_at(m.locate(w, a)->0) == crate::laws::bitfield::shifted(
            op,
            m.word_at(m.locate(w, a)->0),
            n,
        ),
        crate::machine::same_but(after.mem, m.mem, m.locate(w, a)->0, 2),
    decreases n,
{
    let at = m.locate(w, a)->0;
    let s = crate::codegen::emitter::op2(op, Operand::Mem(Width::Word, a), Operand::Imm(1));
    crate::machine::word_range(m.mem, at);
    if n == 0 {
        crate::laws::bitfield::shift_word(m, op, m.word_at(at), 0);
        crate::machine::step_end(w, m, s.times(0), 0);
        reveal(crate::machine::same_but);
        m
    } else {
        let k = (n - 1) as nat;
        let middle = shifted_in_memory(w, m, op, a, k);
        let b = middle.word_at(at);
        crate::machine::word_range(middle.mem, at);
        let one = seq![s];
        assert(s.times(n) =~= s.times(k) + one);
        crate::laws::flow::run_parts(w, m, s.times(k), one, 0);
        crate::laws::flow::run_second(w, middle, s.times(k), one, 0);
        crate::laws::steps::shift_word_once(middle, op, b);
        let (r, flags) = crate::machine::shift_once(middle, op, b, false)->0;
        crate::laws::bitfield::shifted_again(op, m.word_at(at), k, middle.carry);
        crate::machine::word_written(middle.mem, at, r);
        let after = flags.with_word(at, r);
        assert(crate::machine::run_step(w, middle, s) == Some(after));
        crate::machine::step_on(w, middle, one, 0, after);
        crate::machine::step_end(w, after, one, 1);
        same_but_again(m.mem, middle.mem, after.mem, at, 2);
        after
    }
}

/// What changes twice in the same region changes in it alone.
proof fn same_but_again(
    one: Map<int, int>,
    two: Map<int, int>,
    three: Map<int, int>,
    a: int,
    n: int,
)
    requires
        crate::machine::same_but(two, one, a, n),
        crate::machine::same_but(three, two, a, n),
    ensures
        crate::machine::same_but(three, one, a, n),
{
    reveal(crate::machine::same_but);
}

/// `x <<= k` and `x >>= k` for a file-scope integer and from 1 to 255 places
/// leave in `x` the number shifted, to the right with its sign unless `x` is
/// unsigned. Nothing else in memory changes.
pub proof fn const_shift_global<'a>(
    w: World<'a>,
    m: Machine,
    cx: Cx<'a>,
    name: &'a String,
    op: BinOp,
    value: &'a Expr,
    k: u32,
)
    requires
        m.wf(),
        cx.env.global_type(name) matches Some(t) && crate::codegen::env::is_plain_int(t),
        !cx.env.has(name),
        crate::isa::is_shift(op),
        crate::laws::long::is_const(*cx.env, *value, k),
        1 <= k <= 255,
    ensures
        crate::laws::word::leaves_word(
            w,
            m,
            crate::codegen::compound_local::plan_emit_compound_assign(cx, name, op, value),
            (w.symbol)(name@),
            crate::laws::bitfield::shifted(
                crate::isa::shift(op, cx.env.is_unsigned_global(name)),
                m.word_at((w.symbol)(name@)),
                k as nat,
            ),
        ),
{
    let ty = cx.env.global_type(name)->0;
    let at = (w.symbol)(name@);
    let by = crate::isa::shift(op, ty.is_unsigned());
    let a = crate::isa::global(name);
    let plan = crate::codegen::compound_local::plan_emit_compound_assign(cx, name, op, value);
    assert(plan == crate::codegen::compound_global::plan_int_shift_const(
        cx,
        name,
        ty,
        op,
        value,
    ));
    let steps = plan->Emit_0;
    if k <= 3 {
        let s = crate::codegen::emitter::op2(by, Operand::Mem(Width::Word, a), Operand::Imm(1));
        assert(steps =~= s.times(k as nat));
        let after = shifted_in_memory(w, m, by, a, k as nat);
    } else {
        let old_value = m.word_at(at);
        crate::machine::word_range(m.mem, at);
        let m1 = crate::laws::bitfield::count_in_cl(w, m, steps, 0, k as i64);
        crate::laws::bitfield::shift_word(m1, by, old_value, k as nat);
        let (r, flags) = crate::machine::shift_times(m1, by, old_value, false, k as nat)->0;
        let after = flags.with_word(at, r);
        crate::machine::word_written(m.mem, at, r);
        assert(crate::machine::run_step(w, m1, steps[1]) == Some(after));
        crate::machine::step_on(w, m1, steps, 1, after);
        crate::machine::step_end(w, after, steps, 2);
    }
}

/// `x += y` and `x -= y` for two file-scope integers leave the 16-bit result
/// in `x`, and nothing else in memory changes.
pub proof fn sum_global<'a>(
    w: World<'a>,
    m: Machine,
    cx: Cx<'a>,
    name: &'a String,
    op: BinOp,
    value: &'a Expr,
    other: &'a String,
)
    requires
        m.wf(),
        cx.env.global_type(name) matches Some(t) && crate::codegen::env::is_plain_int(t),
        !cx.env.has(name),
        value.kind == ExprKind::Ident(*other),
        cx.env.global_type(other) matches Some(t) && crate::codegen::env::is_plain_int(t),
        crate::isa::is_additive(op),
    ensures
        crate::laws::word::leaves_word(
            w,
            m,
            crate::codegen::compound_local::plan_emit_compound_assign(cx, name, op, value),
            (w.symbol)(name@),
            crate::machine::word_result(
                op,
                m.word_at((w.symbol)(name@)),
                m.word_at((w.symbol)(other@)),
            ),
        ),
{
    let at = (w.symbol)(name@);
    let plan = crate::codegen::compound_local::plan_emit_compound_assign(cx, name, op, value);
    assert(plan == crate::codegen::compound_global::plan_int_sum_global(cx, name, op, value));
    let steps = plan->Emit_0;
    let m1 = crate::laws::steps::load_word(w, m, steps, 0, Reg::Ax, crate::isa::global(other));
    let after = crate::laws::steps::direct_to_memory(
        w,
        m1,
        steps,
        1,
        op,
        crate::isa::global(name),
        Operand::Reg(Reg::Ax),
    );
    crate::machine::step_end(w, after, steps, 2);
    crate::machine::word_range(m.mem, at);
    crate::laws::steps::halves_make_long(op, 0, m.word_at(at), 0, m1.ax);
    crate::machine::word_written(
        m.mem,
        at,
        crate::machine::word_result(op, m.word_at(at), m1.ax),
    );
}

/// Whether a name stands for a local integer or pointer in a word register
/// that the machine models.
pub open spec fn is_in_register(m: Machine, env: Env, name: String, r: Reg) -> bool {
    &&& !env.is_global(&name)
    &&& env.local(&name) matches Some(l) && l.loc == LocalLocation::Reg(r) && l.ty.is_int_like()
    &&& !r.is_byte()
    &&& m.reg(r) is Some
}

/// Whether a plan goes through and leaves a word in a register, with memory
/// unchanged.
pub open spec fn leaves_in_register<'a>(
    w: World<'a>,
    m: Machine,
    plan: Plan<'a>,
    r: Reg,
    value: int,
) -> bool {
    &&& plan matches Plan::Emit(steps)
    &&& crate::machine::run(w, m, steps, 0) matches Outcome::Through(after)
    &&& after.reg(r) == Some(value)
    &&& after.mem == m.mem
}

/// `x *= k` for an integer in a register leaves the low 16 bits of the
/// product there, with memory unchanged. The registers of the product itself
/// hold no variable.
pub proof fn const_product_register<'a>(
    w: World<'a>,
    m: Machine,
    cx: Cx<'a>,
    name: &'a String,
    value: &'a Expr,
    k: u32,
    r: Reg,
)
    requires
        m.wf(),
        is_in_register(m, *cx.env, *name, r),
        r != Reg::Ax,
        r != Reg::Dx,
        crate::laws::long::is_const(*cx.env, *value, k),
        value.kind is IntLit,
    ensures
        leaves_in_register(
            w,
            m,
            crate::codegen::compound_local::plan_emit_compound_assign(
                cx,
                name,
                BinOp::Mul,
                value,
            ),
            r,
            crate::machine::wrap(m.reg(r)->0 * (k as int % 0x1_0000)),
        ),
{
    let plan = crate::codegen::compound_local::plan_emit_compound_assign(
        cx,
        name,
        BinOp::Mul,
        value,
    );
    assert(plan == crate::codegen::compound_local::plan_word_mul(cx, r, BinOp::Mul, value));
    let steps = plan->Emit_0;
    let imm = Operand::<'a>::Imm(crate::isa::lo16(k));
    let m1 = crate::laws::steps::move_to_register(w, m, steps, 0, Reg::Dx, imm);
    let m2 = crate::laws::steps::move_to_register(w, m1, steps, 1, Reg::Ax, Operand::Reg(r));
    let m3 = multiplied(w, m2, steps, 2, Operand::Reg(Reg::Dx));
    let after = crate::laws::steps::move_to_register(w, m3, steps, 3, r, Operand::Reg(Reg::Ax));
    crate::machine::step_end(w, after, steps, 4);
}

/// `x /= k` and `x %= k` for a signed integer in a register and a constant
/// of which the low 16 bits are not zero leave the quotient or the remainder
/// there, with memory unchanged. The registers of the division itself hold
/// no variable, and the least number divided by minus one, which the
/// processor refuses, is left out.
pub proof fn const_quotient_register<'a>(
    w: World<'a>,
    m: Machine,
    cx: Cx<'a>,
    name: &'a String,
    op: BinOp,
    value: &'a Expr,
    k: u32,
    r: Reg,
)
    requires
        m.wf(),
        is_in_register(m, *cx.env, *name, r),
        !cx.env.is_unsigned_local(name),
        r != Reg::Ax,
        r != Reg::Bx,
        r != Reg::Dx,
        crate::isa::is_division(op),
        crate::laws::long::is_const(*cx.env, *value, k),
        value.kind is IntLit,
        k as int % 0x1_0000 != 0,
        !(m.reg(r)->0 == 0x8000 && k as int % 0x1_0000 == 0xFFFF),
    ensures
        leaves_in_register(
            w,
            m,
            crate::codegen::compound_local::plan_emit_compound_assign(cx, name, op, value),
            r,
            word_divided(op, m.reg(r)->0, k as int % 0x1_0000, false),
        ),
{
    let plan = crate::codegen::compound_local::plan_emit_compound_assign(cx, name, op, value);
    assert(plan == crate::codegen::compound_local::plan_word_div(cx, r, op, value));
    let steps = plan->Emit_0;
    let imm = Operand::<'a>::Imm(crate::isa::lo16(k));
    let m1 = crate::laws::steps::move_to_register(w, m, steps, 0, Reg::Bx, imm);
    let m2 = crate::laws::steps::move_to_register(w, m1, steps, 1, Reg::Ax, Operand::Reg(r));
    let m3 = widened_and_divided(w, m2, steps, 2, Reg::Bx, false);
    let after = crate::laws::steps::move_to_register(
        w,
        m3,
        steps,
        4,
        r,
        crate::isa::quotient(op),
    );
    crate::machine::step_end(w, after, steps, 5);
}

/// A register shifted by one place so many times.
proof fn shifted_in_register<'a>(
    w: World<'a>,
    m: Machine,
    op: Mnemonic,
    r: Reg,
    n: nat,
) -> (after: Machine)
    requires
        m.wf(),
        op == Mnemonic::Shl || op == Mnemonic::Shr || op == Mnemonic::Sar,
        !r.is_byte(),
        m.reg(r) is Some,
    ensures
        crate::machine::run(
            w,
            m,
            crate::codegen::emitter::op2(op, Operand::Reg(r), Operand::Imm(1)).times(n),
            0,
        ) == Outcome::Through(after),
        after.wf(),
        after.reg(r) == Some(crate::laws::bitfield::shifted(op, m.reg(r)->0, n)),
        after.mem == m.mem,
    decreases n,
{
    let s = crate::codegen::emitter::op2(op, Operand::Reg(r), Operand::Imm(1));
    if n == 0 {
        crate::laws::bitfield::shift_word(m, op, m.reg(r)->0, 0);
        crate::machine::step_end(w, m, s.times(0), 0);
        m
    } else {
        let k = (n - 1) as nat;
        let middle = shifted_in_register(w, m, op, r, k);
        let one = seq![s];
        assert(s.times(n) =~= s.times(k) + one);
        crate::laws::flow::run_parts(w, m, s.times(k), one, 0);
        crate::laws::flow::run_second(w, middle, s.times(k), one, 0);
        crate::laws::bitfield::shifted_again(op, m.reg(r)->0, k, middle.carry);
        let after = crate::laws::steps::shift_register(w, middle, one, 0, op, r);
        crate::machine::step_end(w, after, one, 1);
        after
    }
}

/// `x <<= k` and `x >>= k` for an integer in a register and from 1 to 255
/// places leave there the number shifted, to the right with its sign unless
/// `x` is unsigned, with memory unchanged. The register of the count holds
/// no variable.
#[verifier::rlimit(60)]
pub proof fn const_shift_register<'a>(
    w: World<'a>,
    m: Machine,
    cx: Cx<'a>,
    name: &'a String,
    op: BinOp,
    value: &'a Expr,
    k: u32,
    r: Reg,
)
    requires
        m.wf(),
        is_in_register(m, *cx.env, *name, r),
        r != Reg::Cx,
        crate::isa::is_shift(op),
        crate::laws::long::is_const(*cx.env, *value, k),
        value.kind is IntLit,
        1 <= k <= 255,
    ensures
        leaves_in_register(
            w,
            m,
            crate::codegen::compound_local::plan_emit_compound_assign(cx, name, op, value),
            r,
            crate::laws::bitfield::shifted(
                crate::isa::shift(op, cx.env.is_unsigned_local(name)),
                m.reg(r)->0,
                k as nat,
            ),
        ),
{
    let ty = &cx.env.local(name)->0.ty;
    let by = crate::isa::shift(op, ty.is_unsigned());
    let plan = crate::codegen::compound_local::plan_emit_compound_assign(cx, name, op, value);
    assert(plan == crate::codegen::compound_local::plan_word_shift(cx, r, ty, op, value));
    let steps = plan->Emit_0;
    if k <= 3 {
        let s = crate::codegen::emitter::op2(by, Operand::Reg(r), Operand::Imm(1));
        assert(steps =~= s.times(k as nat));
        let after = shifted_in_register(w, m, by, r, k as nat);
    } else {
        let m1 = crate::laws::bitfield::count_in_cl(w, m, steps, 0, k as i64);
        let old_value = m.reg(r)->0;
        crate::laws::bitfield::shift_word(m1, by, old_value, k as nat);
        let (v, flags) = crate::machine::shift_times(m1, by, old_value, false, k as nat)->0;
        let after = flags.with_reg(r, v)->0;
        assert(crate::machine::run_step(w, m1, steps[1]) == Some(after));
        crate::machine::step_on(w, m1, steps, 1, after);
        crate::machine::step_end(w, after, steps, 2);
    }
}

} // verus!
