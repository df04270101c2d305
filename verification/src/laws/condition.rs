//! Conditions with a test of their own branch on what they say.

use vstd::prelude::*;
use crate::ast::{BinOp, Expr, ExprKind, Type, UnaryOp, UpdateOp, UpdatePosition};
use crate::codegen::emitter::{Cx, Plan, Probe, Step};
use crate::codegen::env::Env;
use crate::isa::{Addr, Mnemonic, Operand, Reg, Width};
use crate::laws::branch::tests;
use crate::laws::compare::{as_compared, behind_compare, has_flags_of, tells};
use crate::machine::{Machine, Outcome, World};

verus! {

/// An operand compared with another, as bytes or as words.
pub proof fn compared_by<'a>(
    w: World<'a>,
    m: Machine,
    steps: Seq<Step<'a>>,
    i: int,
    d: Operand<'a>,
    s: Operand<'a>,
    a: int,
    b: int,
    op: BinOp,
    unsigned: bool,
) -> (after: Machine)
    requires
        0 <= i < steps.len(),
        steps[i] == Step::Op2(Mnemonic::Cmp, d, s),
        m.read(w, d, crate::machine::is_byte_operand(d)) == Some(a),
        m.read(w, s, crate::machine::is_byte_operand(d)) == Some(b),
        0 <= a < crate::machine::limit(crate::machine::is_byte_operand(d)),
        0 <= b < crate::machine::limit(crate::machine::is_byte_operand(d)),
        op.is_comparison(),
    ensures
        crate::machine::run(w, m, steps, i) == crate::machine::run(w, after, steps, i + 1),
        after.mem == m.mem,
        crate::laws::steps::same_regs(after, m),
        after.holds(crate::codegen::conditions::test_for(op, unsigned).yes) == Some(
            crate::machine::compares(
                op,
                as_compared(a, crate::machine::is_byte_operand(d), unsigned),
                as_compared(b, crate::machine::is_byte_operand(d), unsigned),
            ),
        ),
        after.holds(crate::codegen::conditions::test_for(op, unsigned).no) == Some(
            !crate::machine::compares(
                op,
                as_compared(a, crate::machine::is_byte_operand(d), unsigned),
                as_compared(b, crate::machine::is_byte_operand(d), unsigned),
            ),
        ),
{
    let byte = crate::machine::is_byte_operand(d);
    crate::laws::compare::compare_tells(m, op, a, b, byte, unsigned);
    let after = (crate::machine::combine(m, Mnemonic::Cmp, a, b, byte)->0).1;
    assert(crate::machine::run_step(w, m, steps[i]) == Some(after));
    crate::machine::step_on(w, m, steps, i, after);
    after
}

/// `k < x` and the other comparisons with a constant on the left branch on
/// the values that are compared: the step compares `x` with `k`, and its
/// jumps are those of the comparison the other way round.
#[verifier::rlimit(60)]
pub proof fn const_left_tells<'a>(
    w: World<'a>,
    m: Machine,
    cx: Cx<'a>,
    cond: &'a Expr,
    op: BinOp,
    left: &'a Box<Expr>,
    right: &'a Box<Expr>,
    a: int,
    b: int,
    byte: bool,
)
    requires
        cond.kind == (ExprKind::BinOp { op, left: *left, right: *right }),
        op.is_comparison(),
        cx.env.const_of(&**left) is Some,
        cx.env.const_of(&**right) is None,
        left.kind !is BinOp,
        left.kind !is Ident,
        left.kind !is Update,
        0 <= a < crate::machine::limit(byte),
        0 <= b < crate::machine::limit(byte),
        has_flags_of(behind_compare(w, m, &**right, &**left), b, a, byte),
    ensures
        tells(
            w,
            m,
            crate::codegen::conditions::plan_emit_cond_test(cx, cond),
            crate::machine::compares(
                op,
                as_compared(a, byte, cx.env.facts(cond).unsigned_compare),
                as_compared(b, byte, cx.env.facts(cond).unsigned_compare),
            ),
            behind_compare(w, m, &**right, &**left),
        ),
{
    let unsigned = cx.env.facts(cond).unsigned_compare;
    let after = behind_compare(w, m, &**right, &**left);
    let probe = crate::codegen::conditions::plan_emit_cond_test(cx, cond);
    assert(probe == crate::codegen::conditions::plan_test_const_left(
        cx,
        cond,
        op,
        &**left,
        &**right,
    ));
    let steps = probe->Emit_0;
    assert(steps =~= seq![Step::Compare(&**right, &**left)]);
    crate::machine::step_on(w, m, steps, 0, after);
    crate::machine::step_end(w, after, steps, 1);
    crate::laws::compare::flipped_compares(
        op,
        as_compared(a, byte, unsigned),
        as_compared(b, byte, unsigned),
    );
    crate::laws::compare::compare_tells(
        after,
        crate::isa::flipped(op),
        b,
        a,
        byte,
        unsigned,
    );
}

/// `++i == 0`, `--i != 0` and the like for an integer in a register step it
/// and test the new value, as an equality. The other comparisons do so with
/// sign, unless the step leaves the range of signed numbers.
#[verifier::rlimit(60)]
pub proof fn update_zero_tells<'a>(
    w: World<'a>,
    m: Machine,
    cx: Cx<'a>,
    cond: &'a Expr,
    op: BinOp,
    left: &'a Box<Expr>,
    right: &'a Box<Expr>,
    name: &'a String,
    up: UpdateOp,
    r: Reg,
)
    requires
        m.wf(),
        cond.kind == (ExprKind::BinOp { op, left: *left, right: *right }),
        op.is_comparison(),
        cx.env.const_of(&**right) == Some(0u32),
        left.kind == (ExprKind::Update { target: *name, op: up, position: UpdatePosition::Pre }),
        cx.env.reg_of(name) == Some(r),
        cx.env.is_int_local(name),
        !r.is_byte(),
        m.reg(r) is Some,
        crate::isa::is_equality(op) || (!cx.env.facts(cond).unsigned_compare && m.reg(r)->0 != (
        if up == UpdateOp::Inc { 0x7FFFint } else { 0x8000int })),
    ensures
        ({
            let stepped = crate::machine::word_result(
                crate::laws::copy::update_op(up),
                m.reg(r)->0,
                1,
            );
            let value = crate::machine::compares(op, as_compared(stepped, false, false), 0);
            exists|after: Machine|
                #[trigger] tells(
                    w,
                    m,
                    crate::codegen::conditions::plan_emit_cond_test(cx, cond),
                    value,
                    after,
                ) && after.mem == m.mem && crate::laws::steps::same_regs(
                    after,
                    m.with_reg(r, stepped)->0,
                )
        }),
{
    let probe = crate::codegen::conditions::plan_emit_cond_test(cx, cond);
    assert(probe == crate::codegen::conditions::plan_test_update_zero(
        cx,
        cond,
        op,
        &**left,
        &**right,
    ));
    let steps = probe->Emit_0;
    let a = m.reg(r)->0;
    let by = crate::laws::copy::update_op(up);
    let v = crate::machine::word_result(by, a, 1);
    let d: int = if up == UpdateOp::Inc { 1 } else { -1 };
    let flags = m.flagged(
        v,
        false,
        m.carry,
        crate::machine::overflows(crate::machine::with_sign(a, false) + d, false),
    );
    let after = flags.with_reg(r, v)->0;
    assert(crate::machine::run_step(w, m, steps[0]) == Some(after));
    crate::machine::step_on(w, m, steps, 0, after);
    crate::machine::step_end(w, after, steps, 1);
    let value = crate::machine::compares(op, as_compared(v, false, false), 0);
    assert(tells(w, m, probe, value, after));
}

/// `y < f()` and the other comparisons of an integer in memory with what a
/// call returns branch on the two values, behind the call.
#[verifier::rlimit(60)]
pub proof fn call_right_tells<'a>(
    w: World<'a>,
    m: Machine,
    cx: Cx<'a>,
    cond: &'a Expr,
    op: BinOp,
    left: &'a Box<Expr>,
    right: &'a Box<Expr>,
    name: &'a String,
    args: &'a Vec<Expr>,
    addr: &'a String,
)
    requires
        cond.kind == (ExprKind::BinOp { op, left: *left, right: *right }),
        op.is_comparison(),
        right.kind == (ExprKind::Call { name: *name, args: *args }),
        cx.env.const_of(&**left) is None,
        cx.env.const_of(&**right) is None,
        cx.env.ret_ty_of(name) matches Some(ret) && ret.is_int_like(),
        cx.env.facts(&**left).int_addr == Some(*addr),
        left.kind matches ExprKind::Ident(n) ==> !crate::laws::compare::names_wide(*cx.env, n),
        (w.work)(Step::CallFn(name, args), m).wf(),
    ensures
        ({
            let called = (w.work)(Step::CallFn(name, args), m);
            let unsigned = cx.env.facts(cond).unsigned_compare;
            let value = crate::machine::compares(
                op,
                as_compared(called.word_at((w.place)(addr@)), false, unsigned),
                as_compared(called.ax, false, unsigned),
            );
            exists|after: Machine|
                #[trigger] tells(
                    w,
                    m,
                    crate::codegen::conditions::plan_emit_cond_test(cx, cond),
                    value,
                    after,
                ) && after.mem == called.mem && crate::laws::steps::same_regs(after, called)
        }),
{
    let probe = crate::codegen::conditions::plan_emit_cond_test(cx, cond);
    assert(probe == crate::codegen::conditions::plan_test_call_right(
        cx,
        cond,
        op,
        &**left,
        &**right,
    ));
    let unsigned = cx.env.facts(cond).unsigned_compare;
    let steps = probe->Emit_0;
    let called = (w.work)(Step::CallFn(name, args), m);
    let text = &cx.env.facts(&**left).int_addr->0;
    let y = called.word_at((w.place)(addr@));
    crate::machine::word_range(called.mem, (w.place)(addr@));
    crate::machine::step_on(w, m, steps, 0, called);
    let by = crate::isa::flipped(op);
    crate::laws::compare::flipped_compares(
        op,
        as_compared(y, false, unsigned),
        as_compared(called.ax, false, unsigned),
    );
    assert(by.is_comparison());
    let s = Operand::Mem(Width::Word, Addr::Text(text));
    let ax = Operand::<'a>::Reg(Reg::Ax);
    let after = compared_by(w, called, steps, 1, ax, s, called.ax, y, by, unsigned);
    crate::machine::step_end(w, after, steps, 2);
    let value = crate::machine::compares(
        op,
        as_compared(y, false, unsigned),
        as_compared(called.ax, false, unsigned),
    );
    assert(tells(w, m, probe, value, after));
}

/// `!c` for a character on the stack tests whether its byte is zero.
pub proof fn not_char_tells<'a>(
    w: World<'a>,
    m: Machine,
    cx: Cx<'a>,
    cond: &'a Expr,
    operand: &'a Box<Expr>,
    name: &'a String,
    off: i16,
)
    requires
        m.wf(),
        cond.kind == (ExprKind::Unary { op: UnaryOp::Not, operand: *operand }),
        operand.kind == ExprKind::Ident(*name),
        cx.env.is_char_local(name),
        cx.env.stack_of(name) == Some(off),
    ensures
        tests(
            w,
            m,
            crate::codegen::conditions::plan_emit_cond_test(cx, cond),
            m.byte_at(m.bp + off) == 0,
        ),
{
    let probe = crate::codegen::conditions::plan_emit_cond_test(cx, cond);
    assert(probe == crate::codegen::conditions::plan_test_not_char(cx, &**operand));
    let steps = probe->Emit_0;
    let unsigned = cx.env.is_unsigned_local(name);
    let m1 = crate::laws::byte::load_al(w, m, steps, 0, crate::isa::bp(off));
    let m2 = crate::laws::byte::widen_al(w, m1, steps, 1, unsigned);
    let x = m2.ax as u16;
    assert(x | x == x) by (bit_vector);
    let after = crate::machine::run_step(w, m2, steps[2])->0;
    assert(crate::machine::run_step(w, m2, steps[2]) is Some && after.mem == m.mem && after.zero
        == (m2.ax == 0)) by {
        reveal(crate::machine::combine);
    }
    crate::machine::step_on(w, m2, steps, 2, after);
    crate::machine::step_end(w, after, steps, 3);
    assert((m2.ax == 0) == (m.byte_at(m.bp + off) == 0));
    assert(tells(w, m, probe, m.byte_at(m.bp + off) == 0, after));
}

/// Whether the step that tests an expression against zero sets the zero flag
/// exactly if its value is zero.
pub open spec fn tests_zero<'a>(w: World<'a>, m: Machine, e: &'a Expr, v: int) -> bool {
    (w.work)(Step::ZeroTest(e), m).zero == (v == 0)
}

/// A condition that is no operation of its own tests whether its value is
/// not zero.
pub proof fn value_tells<'a>(
    w: World<'a>,
    m: Machine,
    cx: Cx<'a>,
    cond: &'a Expr,
    v: int,
)
    requires
        cond.kind !is BinOp,
        cond.kind !is Unary,
        cond.kind matches ExprKind::Ident(n) ==> !crate::laws::compare::names_wide(*cx.env, n),
        tests_zero(w, m, cond, v),
    ensures
        tells(
            w,
            m,
            crate::codegen::conditions::plan_emit_cond_test(cx, cond),
            v != 0,
            (w.work)(Step::ZeroTest(cond), m),
        ),
{
    let probe = crate::codegen::conditions::plan_emit_cond_test(cx, cond);
    let after = (w.work)(Step::ZeroTest(cond), m);
    let steps = probe->Emit_0;
    assert(steps =~= seq![Step::ZeroTest(cond)]);
    crate::machine::step_on(w, m, steps, 0, after);
    crate::machine::step_end(w, after, steps, 1);
}

/// Whether an expression is an operation whose flags show its value: the
/// zero flag if it is zero, and, where they are read, those of a comparison
/// of the value with zero.
pub open spec fn leaves_flags_of<'a>(
    w: World<'a>,
    m: Machine,
    cx: Cx<'a>,
    e: &'a Expr,
    v: int,
) -> bool {
    &&& 0 <= v < 0x1_0000
    &&& has_flags_of(crate::laws::long::evaluated(w, m, cx, e), v, 0, false)
}

/// `a + b == 0` and the other comparisons of a direct operation with zero
/// branch on the value of the operation, if its flags show it.
pub proof fn arithmetic_zero_tells<'a>(
    w: World<'a>,
    m: Machine,
    cx: Cx<'a>,
    cond: &'a Expr,
    op: BinOp,
    left: &'a Box<Expr>,
    right: &'a Box<Expr>,
    inner: BinOp,
    v: int,
)
    requires
        cond.kind == (ExprKind::BinOp { op, left: *left, right: *right }),
        op.is_comparison(),
        cx.env.const_of(&**right) == Some(0u32),
        left.kind matches ExprKind::BinOp { op: o, left: _, right: _ } && o == inner,
        crate::isa::is_direct(inner),
        inner != BinOp::BitAnd,
        leaves_flags_of(w, m, cx, &**left, v),
    ensures
        tells(
            w,
            m,
            crate::codegen::conditions::plan_emit_cond_test(cx, cond),
            crate::machine::compares(
                op,
                as_compared(v, false, cx.env.facts(cond).unsigned_compare),
                0,
            ),
            crate::laws::long::evaluated(w, m, cx, &**left),
        ),
{
    let probe = crate::codegen::conditions::plan_emit_cond_test(cx, cond);
    assert(probe == crate::codegen::conditions::plan_test_arith_zero(
        cx,
        cond,
        op,
        &**left,
        &**right,
    ));
    let unsigned = cx.env.facts(cond).unsigned_compare;
    let steps = probe->Emit_0;
    let after = crate::laws::long::evaluated(w, m, cx, &**left);
    assert(steps =~= seq![crate::codegen::emitter::to_ax(cx, &**left)]);
    crate::machine::step_on(w, m, steps, 0, after);
    crate::machine::step_end(w, after, steps, 1);
    crate::laws::compare::compare_tells(after, op, v, 0, false, unsigned);
}

/// Jumps on a test that has been made go to whichever target there is, the
/// true one first.
#[verifier::rlimit(60)]
proof fn jumps_follow<'a>(
    w: World<'a>,
    m: Machine,
    steps: Seq<Step<'a>>,
    i: int,
    yes_if: crate::isa::Jcc,
    no_if: crate::isa::Jcc,
    value: bool,
    yes: Option<u32>,
    no: Option<u32>,
    true_first: bool,
)
    requires
        0 <= i <= steps.len(),
        yes is Some || no is Some,
        m.holds(yes_if) == Some(value),
        m.holds(no_if) == Some(!value),
        ({
            let a = match yes {
                Some(slot) => seq![crate::codegen::emitter::jump::<'a>(yes_if, slot)],
                None => seq![],
            };
            let b = match no {
                Some(slot) => seq![crate::codegen::emitter::jump::<'a>(no_if, slot)],
                None => seq![],
            };
            steps.skip(i) == if true_first { a + b } else { b + a }
        }),
    ensures
        match crate::machine::run(w, m, steps, i) {
            Outcome::To(label, n) => n == m && (if value {
                yes == Some(label)
            } else {
                no == Some(label)
            }),
            Outcome::Through(n) => n == m && value == no is Some,
            Outcome::Lost => false,
        },
{
    reveal_with_fuel(crate::machine::behind_label, 3);
    let rest = steps.skip(i);
    assert(forall|j: int| 0 <= j < rest.len() ==> rest[j] == #[trigger] steps[i + j]);
    if yes is Some && no is Some {
        assert(steps.len() == i + 2);
        assert(steps[i + 0] == rest[0]);
        assert(steps[i + 1] == rest[1]);
        if value == true_first {
            crate::machine::step_jump(w, m, steps, i, if value { yes->0 } else { no->0 });
        } else {
            crate::machine::step_past(w, m, steps, i);
            crate::machine::step_jump(w, m, steps, i + 1, if value { yes->0 } else { no->0 });
        }
    } else {
        assert(steps.len() == i + 1);
        assert(steps[i + 0] == rest[0]);
        if value == yes is Some {
            crate::machine::step_jump(w, m, steps, i, if value { yes->0 } else { no->0 });
        } else {
            crate::machine::step_past(w, m, steps, i);
            crate::machine::step_end(w, m, steps, i + 1);
        }
    }
}

/// What a bit of the flags register says; `None` for one that the machine
/// does not model.
pub open spec fn flag_bit(m: Machine, bit: u32) -> Option<bool> {
    if bit == 0x1 {
        Some(m.carry)
    } else if bit == 0x40 {
        Some(m.zero)
    } else if bit == 0x80 {
        Some(m.negative)
    } else if bit == 0x800 {
        Some(m.overflow)
    } else {
        None
    }
}

/// `_FLAGS & bit` branches on the flag itself, and `!(_FLAGS & bit)` on its
/// opposite. Nothing changes.
pub proof fn flags_branch<'a>(
    w: World<'a>,
    m: Machine,
    cx: Cx<'a>,
    cond: &'a Expr,
    masked: &'a Expr,
    left: &'a Box<Expr>,
    right: &'a Box<Expr>,
    name: &'a String,
    bit: u32,
    yes: Option<u32>,
    no: Option<u32>,
)
    requires
        masked.kind == (ExprKind::BinOp { op: BinOp::BitAnd, left: *left, right: *right }),
        left.kind == ExprKind::PseudoReg(*name),
        name@ == "_FLAGS"@,
        cx.env.const_of(&**right) == Some(bit),
        flag_bit(m, bit) is Some,
        cond == masked || (cond.kind matches ExprKind::Unary { op: UnaryOp::Not, operand }
            && *operand == *masked),
        yes is Some || no is Some,
    ensures
        crate::laws::flow::decides(
            w,
            m,
            crate::codegen::conditions::plan_emit_cond_branch(cx, cond, yes, no),
            flag_bit(m, bit)->0 == (cond.kind is BinOp),
            m,
            yes,
            no,
        ),
{
    let plan = crate::codegen::conditions::plan_emit_cond_branch(cx, cond, yes, no);
    assert(plan == crate::codegen::conditions::plan_branch_flags(cx, cond, yes, no));
    let value = flag_bit(m, bit)->0 == (cond.kind is BinOp);
    let jumps = crate::codegen::conditions::flags_bit_test_mnemonics(cx.env, cond)->0;
    let (no_if, yes_if) = (jumps.0, jumps.1);
    let steps = plan->Emit_0;
    let a = match yes {
        Some(slot) => seq![crate::codegen::emitter::jump::<'a>(yes_if, slot)],
        None => seq![],
    };
    let b = match no {
        Some(slot) => seq![crate::codegen::emitter::jump::<'a>(no_if, slot)],
        None => seq![],
    };
    assert(steps.skip(0) =~= b + a);
    jumps_follow(w, m, steps, 0, yes_if, no_if, value, yes, no, false);
}

/// A byte compared with a number, and the jumps behind it to whichever
/// targets there are.
proof fn byte_jumps<'a>(
    w: World<'a>,
    m: Machine,
    cx: Cx<'a>,
    steps: Seq<Step<'a>>,
    d: Operand<'a>,
    n: i64,
    a: int,
    op: BinOp,
    yes: Option<u32>,
    no: Option<u32>,
)
    requires
        crate::machine::is_byte_operand(d),
        m.read(w, d, true) == Some(a),
        0 <= a < 0x100,
        0 <= n < 0x100,
        crate::isa::is_equality(op),
        yes is Some || no is Some,
        steps == seq![crate::codegen::emitter::compare(d, Operand::Imm(n))]
            + crate::codegen::conditions::plan_branch_on(
            cx,
            crate::codegen::conditions::test_for(op, false).yes,
            crate::codegen::conditions::test_for(op, false).no,
            yes,
            no,
        )->Emit_0,
    ensures
        crate::laws::branch::branches(
            w,
            m,
            Plan::Emit(steps),
            crate::machine::compares(op, a, n as int),
            yes,
            no,
        ),
{
    let t = crate::codegen::conditions::test_for(op, false);
    let s = Operand::<'a>::Imm(n);
    let after = compared_by(w, m, steps, 0, d, s, a, n as int, op, false);
    let value = crate::machine::compares(op, a, n as int);
    let b = match yes {
        Some(slot) => seq![crate::codegen::emitter::jump::<'a>(t.yes, slot)],
        None => seq![],
    };
    let c = match no {
        Some(slot) => seq![crate::codegen::emitter::jump::<'a>(t.no, slot)],
        None => seq![],
    };
    assert(steps.skip(1) =~= b + c);
    jumps_follow(w, after, steps, 1, t.yes, t.no, value, yes, no, true);
    assert(crate::laws::flow::decides(w, m, Plan::Emit(steps), value, after, yes, no));
}

/// A byte register that the source names, compared with a constant for
/// equality, branches on the register and the low byte of the constant.
pub proof fn pseudo_branches<'a>(
    w: World<'a>,
    m: Machine,
    cx: Cx<'a>,
    cond: &'a Expr,
    op: BinOp,
    left: &'a Box<Expr>,
    right: &'a Box<Expr>,
    name: &'a String,
    r: Reg,
    k: u32,
    yes: Option<u32>,
    no: Option<u32>,
)
    requires
        m.wf(),
        cond.kind == (ExprKind::BinOp { op, left: *left, right: *right }),
        crate::isa::is_equality(op),
        left.kind == ExprKind::PseudoReg(*name),
        cx.env.pseudo(name) == Some(r),
        r.is_byte(),
        cx.env.const_of(&**right) == Some(k),
        yes is Some || no is Some,
    ensures
        crate::laws::branch::branches(
            w,
            m,
            crate::codegen::conditions::plan_emit_cond_branch(cx, cond, yes, no),
            crate::machine::compares(op, m.reg(r)->0, k as int % 0x100),
            yes,
            no,
        ),
{
    let plan = crate::codegen::conditions::plan_emit_cond_branch(cx, cond, yes, no);
    assert(plan == crate::codegen::conditions::plan_branch_pseudo(cx, cond, yes, no));
    let d = Operand::<'a>::Reg(r);
    byte_jumps(
        w,
        m,
        cx,
        plan->Emit_0,
        d,
        crate::isa::lo8(k),
        m.reg(r)->0,
        op,
        yes,
        no,
    );
}

/// A character of an array on the stack, subscripted by a variable in `si`
/// and compared with zero, branches on the byte that many bytes behind the
/// displacement of the array.
pub proof fn frame_char_branches<'a>(
    w: World<'a>,
    m: Machine,
    cx: Cx<'a>,
    cond: &'a Expr,
    op: BinOp,
    left: &'a Box<Expr>,
    right: &'a Box<Expr>,
    array: &'a Box<Expr>,
    index: &'a Box<Expr>,
    d: i16,
    yes: Option<u32>,
    no: Option<u32>,
)
    requires
        m.wf(),
        cond.kind == (ExprKind::BinOp { op, left: *left, right: *right }),
        crate::isa::is_equality(op),
        right.kind == ExprKind::IntLit(0),
        left.kind == (ExprKind::ArrayIndex { array: *array, index: *index }),
        cx.env.facts(&**index).frame_disp == Some(d),
        yes is Some || no is Some,
    ensures
        crate::laws::branch::branches(
            w,
            m,
            crate::codegen::conditions::plan_emit_cond_branch(cx, cond, yes, no),
            crate::machine::compares(op, m.byte_at(m.bp + m.si + d), 0),
            yes,
            no,
        ),
{
    let plan = crate::codegen::conditions::plan_emit_cond_branch(cx, cond, yes, no);
    assert(plan == crate::codegen::conditions::plan_branch_frame_char(cx, cond, yes, no));
    let a = Addr::<'a>::Indexed(Reg::Bp, Reg::Si, crate::isa::signed(d as i64));
    let o = Operand::<'a>::Mem(Width::Byte, a);
    byte_jumps(w, m, cx, plan->Emit_0, o, 0, m.byte_at(m.bp + m.si + d), op, yes, no);
}

/// An array negated an odd number of times is false: its address is never
/// zero.
pub proof fn not_array_branches<'a>(
    w: World<'a>,
    m: Machine,
    cx: Cx<'a>,
    cond: &'a Expr,
    operand: &'a Box<Expr>,
    name: &'a String,
    yes: Option<u32>,
    no: u32,
)
    requires
        cond.kind == (ExprKind::Unary { op: UnaryOp::Not, operand: *operand }),
        operand.kind == ExprKind::Ident(*name),
        cx.env.global_elem(name) is Some || cx.env.local_elem(name) is Some,
        cx.env.const_of(cond) is None,
    ensures
        crate::laws::flow::decides(
            w,
            m,
            crate::codegen::conditions::plan_emit_cond_branch(cx, cond, yes, Some(no)),
            false,
            m,
            yes,
            Some(no),
        ),
{
    reveal_with_fuel(crate::codegen::conditions::spec_under_nots, 3);
    reveal_with_fuel(crate::machine::behind_label, 2);
    let plan = crate::codegen::conditions::plan_emit_cond_branch(cx, cond, yes, Some(no));
    assert(plan == crate::codegen::conditions::plan_branch_not_array(cx, cond, yes, Some(no)));
    crate::machine::step_jump(w, m, plan->Emit_0, 0, no);
}

/// What a byte or a word in memory is, without regard to its sign.
pub open spec fn stored_value(m: Machine, at: int, byte: bool) -> int {
    if byte { m.byte_at(at) } else { m.word_at(at) }
}

/// A value in memory compared with zero behind code that changes no memory.
proof fn zero_compared<'a>(
    w: World<'a>,
    m: Machine,
    first: Seq<Step<'a>>,
    middle: Machine,
    byte: bool,
    a: Addr<'a>,
    at: int,
    op: BinOp,
) -> (after: Machine)
    requires
        crate::machine::run(w, m, first, 0) == Outcome::Through(middle),
        middle.wf(),
        middle.mem == m.mem,
        middle.locate(w, a) matches Some(near) && crate::machine::wrap(near)
            == crate::machine::wrap(at),
        crate::isa::is_equality(op),
    ensures
        tells(
            w,
            m,
            Probe::Emit(
                first + seq![
                    crate::codegen::emitter::compare(
                        crate::isa::sized(byte, a),
                        Operand::<'a>::Imm(0),
                    ),
                ],
                crate::codegen::conditions::test_for(op, false),
            ),
            crate::machine::compares(op, stored_value(m, at, byte), 0),
            after,
        ),
        after.mem == m.mem,
{
    let near = middle.locate(w, a)->0;
    let d = crate::isa::sized(byte, a);
    let last = seq![crate::codegen::emitter::compare(d, Operand::<'a>::Imm(0))];
    let v = stored_value(m, at, byte);
    if !byte {
        crate::machine::word_range(m.mem, near);
        crate::laws::element::word_place_wraps(m.mem, near);
        crate::laws::element::word_place_wraps(m.mem, at);
    }
    assert(middle.read(w, d, byte) == Some(v));
    let after = compared_by(w, middle, last, 0, d, Operand::Imm(0), v, 0, op, false);
    crate::machine::step_end(w, after, last, 1);
    crate::laws::address::first_part(w, m, first, last, middle);
    after
}

/// `a[k] == 0` and `a[i] != 0` for a file-scope array test the element.
#[verifier::rlimit(60)]
pub proof fn global_element_tells<'a>(
    w: World<'a>,
    m: Machine,
    cx: Cx<'a>,
    cond: &'a Expr,
    op: BinOp,
    left: &'a Box<Expr>,
    right: &'a Box<Expr>,
    array: &'a Box<Expr>,
    index: &'a Box<Expr>,
    name: &'a String,
    t: &'a Type,
)
    requires
        m.wf(),
        cond.kind == (ExprKind::BinOp { op, left: *left, right: *right }),
        crate::isa::is_equality(op),
        cx.env.const_of(&**right) == Some(0u32),
        right.kind !is Call,
        left.kind == (ExprKind::ArrayIndex { array: *array, index: *index }),
        array.kind == ExprKind::Ident(*name),
        cx.env.const_of(&**left) is None,
        cx.env.facts(&**left).chain is None,
        !cx.env.has(name),
        cx.env.global_elem(name) == Some(t),
        t.is_countable(),
        match cx.env.const_of(&**index) {
            Some(k) => k * t.size() <= 0x7FFF,
            None => crate::codegen::array_addr::index_shifts(t.size() as u16) is Some
                && crate::laws::address::subscript_value(w, m, *cx.env, &**index) is Some,
        },
    ensures
        tests(
            w,
            m,
            crate::codegen::conditions::plan_emit_cond_test(cx, cond),
            crate::machine::compares(
                op,
                stored_value(
                    m,
                    (w.symbol)(name@) + t.size() * match cx.env.const_of(&**index) {
                        Some(k) => k as int,
                        None => crate::laws::address::subscript_value(
                            w,
                            m,
                            *cx.env,
                            &**index,
                        )->0,
                    },
                    t.is_char_like(),
                ),
                0,
            ),
        ),
{
    let probe = crate::codegen::conditions::plan_emit_cond_test(cx, cond);
    assert(probe == crate::codegen::conditions::plan_test_global_elem(cx, op, &**left, &**right));
    let byte = t.is_char_like();
    match cx.env.const_of(&**index) {
        Some(k) => {
            let d = crate::isa::disp(crate::isa::scaled(k, t.size() as u16));
            let a = crate::isa::global_at(name, d);
            let at = (w.symbol)(name@) + t.size() * (k as int);
            assert(k * t.size() == t.size() * (k as int)) by (nonlinear_arith);
            assert(crate::machine::distance(d) == k * t.size());
            let first = Seq::<Step<'a>>::empty();
            crate::machine::step_end(w, m, first, 0);
            let after = zero_compared(w, m, first, m, byte, a, at, op);
            assert(probe->Emit_0 =~= first + seq![
                crate::codegen::emitter::compare(crate::isa::sized(byte, a), Operand::<'a>::Imm(0)),
            ]);
            let value = crate::machine::compares(op, stored_value(m, at, byte), 0);
            assert(tells(w, m, probe, value, after));
        },
        None => {
            let i = crate::laws::address::subscript_value(w, m, *cx.env, &**index)->0;
            let at = (w.symbol)(name@) + t.size() * i;
            assert(i * t.size() == t.size() * i) by (nonlinear_arith);
            crate::laws::address::subscript_scales(w, m, cx, &**index, t);
            let first = crate::codegen::array_addr::plan_emit_index_into_bx(
                cx,
                &**index,
                t,
            )->Emit_0;
            let m1 = crate::machine::run(w, m, first, 0)->Through_0;
            let a = crate::isa::elem(name, Reg::Bx);
            crate::laws::address::sum_wraps((w.symbol)(name@), i * t.size());
            let after = zero_compared(w, m, first, m1, byte, a, at, op);
            let value = crate::machine::compares(op, stored_value(m, at, byte), 0);
            assert(tells(w, m, probe, value, after));
        },
    }
}

/// A character in memory compared with an integer in memory for equality,
/// whichever stands on the left, is widened as its type has it and compared
/// with the whole integer.
#[verifier::rlimit(60)]
pub proof fn int_and_char_tell<'a>(
    w: World<'a>,
    m: Machine,
    cx: Cx<'a>,
    cond: &'a Expr,
    op: BinOp,
    left: &'a Box<Expr>,
    right: &'a Box<Expr>,
    a: Addr<'a>,
    b: Addr<'a>,
)
    requires
        m.wf(),
        cond.kind == (ExprKind::BinOp { op, left: *left, right: *right }),
        crate::isa::is_equality(op),
        cx.env.const_of(&**left) is None,
        cx.env.const_of(&**right) is None,
        left.kind !is BinOp,
        left.kind !is Update,
        right.kind !is Call,
        left.kind matches ExprKind::Ident(n) ==> !crate::laws::compare::names_wide(*cx.env, n),
        is_small_chain(*cx.env, **left, a),
        is_small_chain(*cx.env, **right, b),
        (cx.env.facts(&**left).chain->0).ty.is_char_like() != (cx.env.facts(
            &**right,
        ).chain->0).ty.is_char_like(),
    ensures
        tests(
            w,
            m,
            crate::codegen::conditions::plan_emit_cond_test(cx, cond),
            crate::machine::compares(
                op,
                crate::laws::variable::typed_value(
                    m,
                    m.locate(w, a)->0,
                    (cx.env.facts(&**left).chain->0).ty,
                ),
                crate::laws::variable::typed_value(
                    m,
                    m.locate(w, b)->0,
                    (cx.env.facts(&**right).chain->0).ty,
                ),
            ),
        ),
{
    let probe = crate::codegen::conditions::plan_emit_cond_test(cx, cond);
    assert(probe == crate::codegen::conditions::plan_test_int_char(
        cx,
        cond,
        op,
        &**left,
        &**right,
    ));
    let unsigned = cx.env.facts(cond).unsigned_compare;
    let steps = probe->Emit_0;
    let first = (cx.env.facts(&**left).chain->0).ty.is_char_like();
    let (small, large) = if first { (a, b) } else { (b, a) };
    let t = if first { &(cx.env.facts(&**left).chain->0).ty } else {
        &(cx.env.facts(&**right).chain->0).ty
    };
    let o = Operand::<'a>::Mem(Width::Word, large);
    assert(steps =~= seq![
        crate::codegen::emitter::mov(crate::isa::al(), crate::isa::byte(small)),
        crate::codegen::emitter::widen(t.is_unsigned()),
        crate::codegen::emitter::compare(crate::isa::ax(), o),
    ]);
    let y = m.word_at(m.locate(w, large)->0);
    crate::machine::word_range(m.mem, m.locate(w, large)->0);
    let m1 = crate::laws::byte::load_al(w, m, steps, 0, small);
    let m2 = crate::laws::byte::widen_al(w, m1, steps, 1, t.is_unsigned());
    let ax = Operand::<'a>::Reg(Reg::Ax);
    let after = compared_by(w, m2, steps, 2, ax, o, m2.ax, y, op, unsigned);
    crate::machine::step_end(w, after, steps, 3);
    assert(crate::machine::compares(
        op,
        as_compared(m2.ax, false, unsigned),
        as_compared(y, false, unsigned),
    ) == crate::machine::compares(op, m2.ax, y));
    let value = if first {
        crate::machine::compares(op, m2.ax, y)
    } else {
        crate::machine::compares(op, y, m2.ax)
    };
    assert(tells(w, m, probe, value, after));
}

/// Whether an expression is a character or an integer in memory at an
/// address.
pub open spec fn is_small_chain<'a>(env: Env, e: Expr, a: Addr<'a>) -> bool {
    &&& env.facts(&e).chain matches Some(chain) && crate::codegen::env::is_small_int(&chain.ty)
        && env.resolve_chain_addr(&chain.name, chain.off) == Some(a)
}

/// `p[e] == 0` and `p[e] != 0` for a local near pointer to characters or
/// words and a computed subscript test the element.
#[verifier::rlimit(60)]
pub proof fn pointer_element_tells<'a>(
    w: World<'a>,
    m: Machine,
    cx: Cx<'a>,
    cond: &'a Expr,
    op: BinOp,
    left: &'a Box<Expr>,
    right: &'a Box<Expr>,
    array: &'a Box<Expr>,
    index: &'a Box<Expr>,
    name: &'a String,
    t: &'a Type,
    off: i16,
    i: int,
)
    requires
        m.wf(),
        cond.kind == (ExprKind::BinOp { op, left: *left, right: *right }),
        crate::isa::is_equality(op),
        cx.env.const_of(&**right) == Some(0u32),
        right.kind !is Call,
        left.kind == (ExprKind::ArrayIndex { array: *array, index: *index }),
        array.kind == ExprKind::Ident(*name),
        cx.env.const_of(&**left) is None,
        cx.env.facts(&**left).chain is None,
        cx.env.local(name) matches Some(l) && l.ty.pointee() == Some(t) && l.loc
            == crate::codegen::env::LocalLocation::Stack(off),
        t.size() == 1 || t.size() == 2,
        crate::laws::rows::is_computed_as(w, m, cx, &**index, i),
    ensures
        tests(
            w,
            m,
            crate::codegen::conditions::plan_emit_cond_test(cx, cond),
            crate::machine::compares(
                op,
                stored_value(m, m.word_at(m.bp + off) + i * t.size(), t.is_char_like()),
                0,
            ),
        ),
{
    let probe = crate::codegen::conditions::plan_emit_cond_test(cx, cond);
    assert(probe == crate::codegen::conditions::plan_test_pointer_elem(
        cx,
        op,
        &**left,
        &**right,
    ));
    let byte = t.is_char_like();
    let size = t.size() as u16;
    let at = m.word_at(m.bp + off) + i * t.size();
    let a = seq![crate::codegen::emitter::to_ax(cx, &**index)];
    assert(crate::laws::address::same_variables(m, m));
    let m1 = crate::laws::long::evaluated(w, m, cx, &**index);
    crate::machine::step_on(w, m, a, 0, m1);
    crate::machine::step_end(w, m1, a, 1);
    let (b, m2) = crate::laws::pointed::scaled_in_ax(w, m1, size);
    crate::laws::address::first_part(w, m, a, b, m1);
    let (c, m3) = crate::laws::pointed::word_in_bx(w, m2, crate::isa::bp(off));
    crate::laws::address::first_part(w, m, a + b, c, m2);
    let d = seq![crate::codegen::emitter::add_to(crate::isa::bx::<'a>(), crate::isa::ax())];
    let ax = Operand::<'a>::Reg(Reg::Ax);
    let m4 = crate::laws::steps::direct_to_register(w, m3, d, 0, BinOp::Add, Reg::Bx, ax);
    crate::machine::step_end(w, m4, d, 1);
    crate::laws::address::first_part(w, m, a + b + c, d, m3);
    crate::laws::address::sum_wraps(m.word_at(m.bp + off), i * size);
    let from = crate::isa::at::<'a>(Reg::Bx);
    let after = zero_compared(w, m, a + b + c + d, m4, byte, from, at, op);
    reveal_with_fuel(crate::isa::spec_halvings, 4);
    let last = seq![
        crate::codegen::emitter::compare(crate::isa::sized(byte, from), Operand::<'a>::Imm(0)),
    ];
    let s = crate::codegen::emitter::shl1(crate::isa::ax::<'a>());
    assert(s.times(crate::isa::spec_halvings(size as u32) as nat) =~= b);
    assert(probe->Emit_0 =~= a + b + c + d + last);
    let value = crate::machine::compares(op, stored_value(m, at, byte), 0);
    assert(tells(w, m, probe, value, after));
}

} // verus!
