//! Conditions on 32-bit variables branch on the 32-bit values.

use vstd::prelude::*;
use crate::ast::{BinOp, Expr, ExprKind};
use crate::codegen::emitter::{Cx, Plan, Probe, Step};
use crate::codegen::env::Env;
use crate::isa::{Addr, Jcc, Mnemonic, Operand, Reg, Width};
use crate::machine::{Machine, Outcome, World};

verus! {

/// A 32-bit number as a comparison takes it, with or without sign.
pub open spec fn long_as_compared(x: int, unsigned: bool) -> int {
    if unsigned { x } else { crate::machine::signed_pair(x) }
}

/// What the flags say behind `cmp a,b` on words.
pub open spec fn compared(m: Machine, a: int, b: int) -> Machine {
    (crate::machine::combine(m, Mnemonic::Cmp, a, b, false)->0).1
}

/// Behind `cmp` only the flags have changed.
proof fn compared_keeps(m: Machine, a: int, b: int)
    ensures
        crate::laws::steps::same_regs(compared(m, a, b), m),
        compared(m, a, b).mem == m.mem,
        m.wf() ==> compared(m, a, b).wf(),
{
    reveal(crate::machine::combine);
}

/// Two words compared.
proof fn compare_words<'a>(
    w: World<'a>,
    m: Machine,
    steps: Seq<Step<'a>>,
    i: int,
    d: Operand<'a>,
    s: Operand<'a>,
    a: int,
    b: int,
)
    requires
        0 <= i < steps.len(),
        steps[i] == Step::Op2(Mnemonic::Cmp, d, s),
        !crate::machine::is_byte_operand(d),
        m.read(w, d, false) == Some(a),
        m.read(w, s, false) == Some(b),
    ensures
        crate::machine::run(w, m, steps, i) == crate::machine::run(
            w,
            compared(m, a, b),
            steps,
            i + 1,
        ),
{
    assert(crate::machine::run_step(w, m, steps[i]) == Some(compared(m, a, b))) by {
        reveal(crate::machine::combine);
    }
    crate::machine::step_on(w, m, steps, i, compared(m, a, b));
}

/// The jumps of a 32-bit comparison by halves settle it: the high halves
/// prove it false, the high halves prove it true, or the low halves decide.
pub proof fn order_by_halves(
    m: Machine,
    n: Machine,
    op: BinOp,
    unsigned: bool,
    ah: int,
    al: int,
    bh: int,
    bl: int,
)
    requires
        crate::isa::is_relational(op),
        0 <= ah < 0x1_0000,
        0 <= al < 0x1_0000,
        0 <= bh < 0x1_0000,
        0 <= bl < 0x1_0000,
    ensures
        ({
            let jumps = crate::codegen::common::long_jumps(op, unsigned);
            let value = crate::machine::compares(
                op,
                long_as_compared(crate::machine::pair(ah, al), unsigned),
                long_as_compared(crate::machine::pair(bh, bl), unsigned),
            );
            let high = compared(m, ah, bh);
            let low = compared(n, al, bl);
            &&& high.holds(jumps.0) is Some
            &&& high.holds(jumps.1) is Some
            &&& low.holds(jumps.2) is Some
            &&& high.holds(jumps.0) == Some(true) ==> !value
            &&& high.holds(jumps.0) == Some(false) && high.holds(jumps.1) == Some(true) ==> value
            &&& high.holds(jumps.0) == Some(false) && high.holds(jumps.1) == Some(false) ==> value
                == (low.holds(jumps.2) == Some(false))
        }),
{
    crate::laws::compare::compare_tells(m, BinOp::Lt, ah, bh, false, unsigned);
    crate::laws::compare::compare_tells(m, BinOp::Gt, ah, bh, false, unsigned);
    crate::laws::compare::compare_tells(m, BinOp::Ne, ah, bh, false, unsigned);
    crate::laws::compare::compare_tells(n, BinOp::Lt, al, bl, false, true);
    crate::laws::compare::compare_tells(n, BinOp::Le, al, bl, false, true);
    crate::laws::compare::compare_tells(n, BinOp::Gt, al, bl, false, true);
    crate::laws::compare::compare_tells(n, BinOp::Ge, al, bl, false, true);
    match op {
        BinOp::Lt => {},
        BinOp::Le => {},
        BinOp::Gt => {},
        _ => {},
    }
}

/// Where the five steps of a 32-bit comparison by halves lead: two
/// comparisons and the jumps behind them.
proof fn halves_decide<'a>(
    w: World<'a>,
    m: Machine,
    steps: Seq<Step<'a>>,
    i: int,
    op: BinOp,
    unsigned: bool,
    hi: (Operand<'a>, Operand<'a>),
    lo: (Operand<'a>, Operand<'a>),
    high: (int, int),
    low: (int, int),
    yes: u32,
    no: u32,
) -> (after: Machine)
    requires
        0 <= i,
        steps.len() == i + 5,
        crate::isa::is_relational(op),
        steps[i] == Step::Op2(Mnemonic::Cmp, hi.0, hi.1),
        steps[i + 1] == Step::<'a>::Jump(crate::codegen::common::long_jumps(op, unsigned).0, no),
        steps[i + 2] == Step::<'a>::Jump(crate::codegen::common::long_jumps(op, unsigned).1, yes),
        steps[i + 3] == Step::Op2(Mnemonic::Cmp, lo.0, lo.1),
        steps[i + 4] == Step::<'a>::Jump(crate::codegen::common::long_jumps(op, unsigned).2, no),
        !crate::machine::is_byte_operand(hi.0),
        !crate::machine::is_byte_operand(lo.0),
        m.read(w, hi.0, false) == Some(high.0),
        m.read(w, hi.1, false) == Some(high.1),
        compared(m, high.0, high.1).read(w, lo.0, false) == Some(low.0),
        compared(m, high.0, high.1).read(w, lo.1, false) == Some(low.1),
        0 <= high.0 < 0x1_0000,
        0 <= high.1 < 0x1_0000,
        0 <= low.0 < 0x1_0000,
        0 <= low.1 < 0x1_0000,
    ensures
        after.mem == m.mem,
        crate::laws::steps::same_regs(after, m),
        ({
            let value = crate::machine::compares(
                op,
                long_as_compared(crate::machine::pair(high.0, low.0), unsigned),
                long_as_compared(crate::machine::pair(high.1, low.1), unsigned),
            );
            match crate::machine::run(w, m, steps, i) {
                Outcome::To(label, n) => n == after && label == (if value { yes } else { no }),
                Outcome::Through(n) => n == after && value,
                Outcome::Lost => false,
            }
        }),
{
    let jumps = crate::codegen::common::long_jumps(op, unsigned);
    let m1 = compared(m, high.0, high.1);
    let m2 = compared(m1, low.0, low.1);
    compared_keeps(m, high.0, high.1);
    compared_keeps(m1, low.0, low.1);
    order_by_halves(m, m1, op, unsigned, high.0, low.0, high.1, low.1);
    compare_words(w, m, steps, i, hi.0, hi.1, high.0, high.1);
    reveal_with_fuel(crate::machine::behind_label, 5);
    if m1.holds(jumps.0) == Some(true) {
        crate::machine::step_jump(w, m1, steps, i + 1, no);
        m1
    } else {
        crate::machine::step_past(w, m1, steps, i + 1);
        if m1.holds(jumps.1) == Some(true) {
            crate::machine::step_jump(w, m1, steps, i + 2, yes);
            m1
        } else {
            crate::machine::step_past(w, m1, steps, i + 2);
            compare_words(w, m1, steps, i + 3, lo.0, lo.1, low.0, low.1);
            if m2.holds(jumps.2) == Some(true) {
                crate::machine::step_jump(w, m2, steps, i + 4, no);
            } else {
                crate::machine::step_past(w, m2, steps, i + 4);
                crate::machine::step_end(w, m2, steps, i + 5);
            }
            m2
        }
    }
}

/// Whether code that branches on a value goes to the right place with
/// memory unchanged.
pub open spec fn branches<'a>(
    w: World<'a>,
    m: Machine,
    plan: Plan<'a>,
    value: bool,
    yes: Option<u32>,
    no: Option<u32>,
) -> bool {
    exists|after: Machine|
        #![trigger crate::laws::flow::decides(w, m, plan, value, after, yes, no)]
        crate::laws::flow::decides(w, m, plan, value, after, yes, no) && after.mem == m.mem
}

/// Whether a test tells a value with memory unchanged.
pub open spec fn tests<'a>(w: World<'a>, m: Machine, probe: Probe<'a>, value: bool) -> bool {
    exists|after: Machine|
        #![trigger crate::laws::compare::tells(w, m, probe, value, after)]
        crate::laws::compare::tells(w, m, probe, value, after) && after.mem == m.mem
}

/// Whether nothing but its shape is known of a condition and its operands
/// that would have it tested in another way: it is not constant, and no
/// operand is a floating-point number.
pub open spec fn is_ordinary(env: Env, cond: Expr, left: Expr, right: Expr) -> bool {
    &&& env.const_of(&cond) is None
    &&& !env.facts(&left).is_float
    &&& !env.facts(&right).is_float
}

/// `a < b` and the other orderings of two 32-bit variables branch on their
/// 32-bit values, compared with or without sign.
pub proof fn long_order_branches<'a>(
    w: World<'a>,
    m: Machine,
    cx: Cx<'a>,
    cond: &'a Expr,
    op: BinOp,
    left: &'a Box<Expr>,
    right: &'a Box<Expr>,
    a: &'a String,
    b: &'a String,
    yes: u32,
    no: u32,
)
    requires
        m.wf(),
        cond.kind == (ExprKind::BinOp { op, left: *left, right: *right }),
        left.kind == ExprKind::Ident(*a),
        right.kind == ExprKind::Ident(*b),
        crate::laws::long::names_long(*cx.env, *a),
        crate::laws::long::names_long(*cx.env, *b),
        crate::isa::is_relational(op),
        is_ordinary(*cx.env, *cond, **left, **right),
    ensures
        branches(
            w,
            m,
            crate::codegen::conditions::plan_emit_cond_branch(cx, cond, Some(yes), Some(no)),
            crate::machine::compares(
                op,
                long_as_compared(
                    m.long_at(crate::laws::long::home(w, m, *cx.env, a)),
                    cx.env.facts(cond).unsigned_compare,
                ),
                long_as_compared(
                    m.long_at(crate::laws::long::home(w, m, *cx.env, b)),
                    cx.env.facts(cond).unsigned_compare,
                ),
            ),
            Some(yes),
            Some(no),
        ),
{
    let unsigned = cx.env.facts(cond).unsigned_compare;
    let plan = crate::codegen::conditions::plan_emit_cond_branch(cx, cond, Some(yes), Some(no));
    assert(plan == crate::codegen::conditions::plan_branch_long_order(
        cx,
        cond,
        Some(yes),
        Some(no),
    ));
    let steps = plan->Emit_0;
    let (a_lo, a_hi) = cx.env.long_halves_of(a)->0;
    let (b_lo, b_hi) = cx.env.long_halves_of(b)->0;
    let m1 = crate::laws::steps::load_word(w, m, steps, 0, Reg::Ax, a_hi);
    let m2 = crate::laws::steps::load_word(w, m1, steps, 1, Reg::Dx, a_lo);
    let at = m.locate(w, b_lo)->0;
    crate::machine::word_range(m.mem, at);
    crate::machine::word_range(m.mem, at + 2);
    compared_keeps(m2, m2.ax, m.word_at(at + 2));
    let after = halves_decide(
        w,
        m2,
        steps,
        2,
        op,
        unsigned,
        (Operand::Reg(Reg::Ax), Operand::Mem(Width::Word, b_hi)),
        (Operand::Reg(Reg::Dx), Operand::Mem(Width::Word, b_lo)),
        (m2.ax, m.word_at(at + 2)),
        (m2.dx, m.word_at(at)),
        yes,
        no,
    );
    let value = crate::machine::compares(
        op,
        long_as_compared(m.long_at(crate::laws::long::home(w, m, *cx.env, a)), unsigned),
        long_as_compared(m.long_at(crate::laws::long::home(w, m, *cx.env, b)), unsigned),
    );
    assert(crate::laws::flow::decides(w, m, plan, value, after, Some(yes), Some(no)));
}

/// `a < k` and the other orderings of a 32-bit variable and a constant
/// branch on the 32-bit values, compared without sign for an unsigned
/// variable.
pub proof fn long_const_branches<'a>(
    w: World<'a>,
    m: Machine,
    cx: Cx<'a>,
    cond: &'a Expr,
    op: BinOp,
    left: &'a Box<Expr>,
    right: &'a Box<Expr>,
    a: &'a String,
    k: u32,
    yes: u32,
    no: u32,
)
    requires
        m.wf(),
        cond.kind == (ExprKind::BinOp { op, left: *left, right: *right }),
        left.kind == ExprKind::Ident(*a),
        right.kind !is Ident,
        cx.env.const_of(&**right) == Some(k),
        crate::laws::long::names_long(*cx.env, *a),
        crate::isa::is_relational(op),
        is_ordinary(*cx.env, *cond, **left, **right),
    ensures
        branches(
            w,
            m,
            crate::codegen::conditions::plan_emit_cond_branch(cx, cond, Some(yes), Some(no)),
            crate::machine::compares(
                op,
                long_as_compared(
                    m.long_at(crate::laws::long::home(w, m, *cx.env, a)),
                    cx.env.var_type(a)->0.is_unsigned(),
                ),
                long_as_compared(k as int, cx.env.var_type(a)->0.is_unsigned()),
            ),
            Some(yes),
            Some(no),
        ),
{
    let unsigned = cx.env.var_type(a)->0.is_unsigned();
    let plan = crate::codegen::conditions::plan_emit_cond_branch(cx, cond, Some(yes), Some(no));
    assert(plan == crate::codegen::conditions::plan_branch_long_const(
        cx,
        cond,
        Some(yes),
        Some(no),
    ));
    let steps = plan->Emit_0;
    let (a_lo, a_hi) = cx.env.long_halves_of(a)->0;
    let at = m.locate(w, a_lo)->0;
    crate::machine::word_range(m.mem, at);
    crate::machine::word_range(m.mem, at + 2);
    compared_keeps(m, m.word_at(at + 2), crate::isa::hi16(k) as int);
    let after = halves_decide(
        w,
        m,
        steps,
        0,
        op,
        unsigned,
        (Operand::Mem(Width::Word, a_hi), Operand::Imm(crate::isa::hi16(k))),
        (Operand::Mem(Width::Word, a_lo), Operand::Imm(crate::isa::lo16(k))),
        (m.word_at(at + 2), crate::isa::hi16(k) as int),
        (m.word_at(at), crate::isa::lo16(k) as int),
        yes,
        no,
    );
    let value = crate::machine::compares(
        op,
        long_as_compared(m.long_at(at), unsigned),
        long_as_compared(k as int, unsigned),
    );
    assert(crate::laws::flow::decides(w, m, plan, value, after, Some(yes), Some(no)));
}

/// Where the steps of a 32-bit equality by halves lead: two comparisons, of
/// which the first settles the matter if the high halves differ.
proof fn equality_decides<'a>(
    w: World<'a>,
    m: Machine,
    steps: Seq<Step<'a>>,
    i: int,
    first: Jcc,
    first_to: u32,
    second: Jcc,
    second_to: u32,
    hi: (Operand<'a>, Operand<'a>),
    lo: (Operand<'a>, Operand<'a>),
    high: (int, int),
    low: (int, int),
) -> (after: Machine)
    requires
        0 <= i,
        i + 4 <= steps.len(),
        steps[i] == Step::Op2(Mnemonic::Cmp, hi.0, hi.1),
        steps[i + 1] == Step::<'a>::Jump(first, first_to),
        steps[i + 2] == Step::Op2(Mnemonic::Cmp, lo.0, lo.1),
        steps[i + 3] == Step::<'a>::Jump(second, second_to),
        first == Jcc::Jne,
        second == Jcc::Jne || second == Jcc::Je,
        !crate::machine::is_byte_operand(hi.0),
        !crate::machine::is_byte_operand(lo.0),
        m.read(w, hi.0, false) == Some(high.0),
        m.read(w, hi.1, false) == Some(high.1),
        compared(m, high.0, high.1).read(w, lo.0, false) == Some(low.0),
        compared(m, high.0, high.1).read(w, lo.1, false) == Some(low.1),
        0 <= high.0 < 0x1_0000,
        0 <= high.1 < 0x1_0000,
        0 <= low.0 < 0x1_0000,
        0 <= low.1 < 0x1_0000,
    ensures
        after.mem == m.mem,
        high.0 != high.1 ==> crate::machine::run(w, m, steps, i) == crate::machine::jump_to(
            w,
            after,
            steps,
            i + 2,
            first_to,
        ),
        high.0 == high.1 && (low.0 != low.1) == (second == Jcc::Jne) ==> crate::machine::run(
            w,
            m,
            steps,
            i,
        ) == crate::machine::jump_to(w, after, steps, i + 4, second_to),
        high.0 == high.1 && (low.0 != low.1) != (second == Jcc::Jne) ==> crate::machine::run(
            w,
            m,
            steps,
            i,
        ) == crate::machine::run(w, after, steps, i + 4),
{
    let m1 = compared(m, high.0, high.1);
    let m2 = compared(m1, low.0, low.1);
    compared_keeps(m, high.0, high.1);
    compared_keeps(m1, low.0, low.1);
    crate::laws::compare::compare_tells(m, BinOp::Ne, high.0, high.1, false, true);
    crate::laws::compare::compare_tells(m1, BinOp::Ne, low.0, low.1, false, true);
    compare_words(w, m, steps, i, hi.0, hi.1, high.0, high.1);
    if high.0 != high.1 {
        crate::machine::step_jump(w, m1, steps, i + 1, first_to);
        m1
    } else {
        crate::machine::step_past(w, m1, steps, i + 1);
        compare_words(w, m1, steps, i + 2, lo.0, lo.1, low.0, low.1);
        if (low.0 != low.1) == (second == Jcc::Jne) {
            crate::machine::step_jump(w, m2, steps, i + 3, second_to);
        } else {
            crate::machine::step_past(w, m2, steps, i + 3);
        }
        m2
    }
}

/// `a == b` and `a != b` for two 32-bit variables branch on whether all 32
/// bits agree. A label that the condition has for itself is no target.
pub proof fn long_equality_branches<'a>(
    w: World<'a>,
    m: Machine,
    cx: Cx<'a>,
    cond: &'a Expr,
    op: BinOp,
    left: &'a Box<Expr>,
    right: &'a Box<Expr>,
    yes: Option<u32>,
    no: u32,
)
    requires
        m.wf(),
        cond.kind == (ExprKind::BinOp { op, left: *left, right: *right }),
        crate::isa::is_equality(op),
        crate::laws::assign::is_located(w, m, *cx.env, &**left),
        crate::laws::assign::is_located(w, m, *cx.env, &**right),
        cx.env.facts(&**left).far_offset is None,
        is_ordinary(*cx.env, *cond, **left, **right),
        !cx.env.is_long_vs_int_ne(cond),
        op == BinOp::Ne && yes is None ==> (cx.env.facts(cond).label_base matches Some(own) && own
            != no),
    ensures
        branches(
            w,
            m,
            crate::codegen::conditions::plan_emit_cond_branch(cx, cond, yes, Some(no)),
            crate::machine::compares(
                op,
                crate::laws::assign::held(w, m, *cx.env, &**left),
                crate::laws::assign::held(w, m, *cx.env, &**right),
            ),
            yes,
            Some(no),
        ),
{
    let plan = crate::codegen::conditions::plan_emit_cond_branch(cx, cond, yes, Some(no));
    assert(plan == crate::codegen::conditions::plan_branch_long_equal(cx, cond, yes, Some(no)));
    let steps = plan->Emit_0;
    let (a_hi, a_lo) = cx.env.facts(&**left).long_addrs->0;
    let (b_hi, b_lo) = cx.env.facts(&**right).long_addrs->0;
    let m1 = crate::laws::steps::load_word(w, m, steps, 0, Reg::Ax, Addr::Text(&a_hi));
    let m2 = crate::laws::steps::load_word(w, m1, steps, 1, Reg::Dx, Addr::Text(&a_lo));
    let at = (w.place)(b_lo@);
    crate::machine::word_range(m.mem, at);
    crate::machine::word_range(m.mem, at + 2);
    compared_keeps(m2, m2.ax, m.word_at(at + 2));
    let own = op == BinOp::Ne && yes is None;
    let differ_to = if op == BinOp::Eq {
        no
    } else if own {
        cx.env.facts(cond).label_base->0
    } else {
        yes->0
    };
    let after = equality_decides(
        w,
        m2,
        steps,
        2,
        Jcc::Jne,
        differ_to,
        if op == BinOp::Eq { Jcc::Jne } else { Jcc::Je },
        no,
        (Operand::Reg(Reg::Ax), Operand::Mem(Width::Word, Addr::Text(&b_hi))),
        (Operand::Reg(Reg::Dx), Operand::Mem(Width::Word, Addr::Text(&b_lo))),
        (m2.ax, m.word_at(at + 2)),
        (m2.dx, m.word_at(at)),
    );
    reveal_with_fuel(crate::machine::behind_label, 5);
    if own {
        assert(steps.len() == 7);
        crate::machine::step_past(w, after, steps, 6);
        crate::machine::step_end(w, after, steps, 7);
    } else {
        assert(steps.len() == 6);
        crate::machine::step_end(w, after, steps, 6);
    }
    let value = crate::machine::compares(
        op,
        crate::laws::assign::held(w, m, *cx.env, &**left),
        crate::laws::assign::held(w, m, *cx.env, &**right),
    );
    assert(crate::laws::flow::decides(w, m, plan, value, after, yes, Some(no)));
}

/// An `int` as a 32-bit number with its sign.
pub open spec fn widened(x: int) -> int {
    crate::machine::with_sign(x, false) % 0x1_0000_0000
}

/// An `int` loaded and widened with its sign into `dx:ax`.
proof fn word_widened<'a>(
    w: World<'a>,
    m: Machine,
    steps: Seq<Step<'a>>,
    a: Addr<'a>,
) -> (after: Machine)
    requires
        m.wf(),
        steps.len() >= 2,
        steps[0] == Step::Op2(Mnemonic::Mov, Operand::Reg(Reg::Ax), Operand::Mem(Width::Word, a)),
        steps[1] == Step::<'a>::Op0(Mnemonic::Cwd),
        m.locate(w, a) is Some,
    ensures
        crate::machine::run(w, m, steps, 0) == crate::machine::run(w, after, steps, 2),
        after.wf(),
        after.mem == m.mem,
        crate::machine::pair(after.dx, after.ax) == widened(m.word_at(m.locate(w, a)->0)),
{
    let m1 = crate::laws::steps::load_word(w, m, steps, 0, Reg::Ax, a);
    let m2 = Machine { dx: if m1.ax >= 0x8000 { 0xFFFF } else { 0 }, ..m1 };
    crate::machine::step_on(w, m1, steps, 1, m2);
    m2
}

/// `g < i` and the other orderings of a 32-bit variable and an `int`, both
/// at file scope, branch on the 32-bit value and the `int` widened with its
/// sign, compared without sign if one of the two is unsigned.
pub proof fn long_int_branches<'a>(
    w: World<'a>,
    m: Machine,
    cx: Cx<'a>,
    cond: &'a Expr,
    op: BinOp,
    left: &'a Box<Expr>,
    right: &'a Box<Expr>,
    g: &'a String,
    i: &'a String,
    yes: u32,
    no: u32,
)
    requires
        m.wf(),
        cond.kind == (ExprKind::BinOp { op, left: *left, right: *right }),
        left.kind == ExprKind::Ident(*g),
        right.kind == ExprKind::Ident(*i),
        cx.env.is_long_global(g),
        cx.env.is_int_global(i),
        crate::isa::is_relational(op),
        is_ordinary(*cx.env, *cond, **left, **right),
    ensures
        ({
            let unsigned = cx.env.is_unsigned_global(g) || cx.env.is_unsigned_global(i);
            branches(
                w,
                m,
                crate::codegen::conditions::plan_emit_cond_branch(cx, cond, Some(yes), Some(no)),
                crate::machine::compares(
                    op,
                    long_as_compared(m.long_at((w.symbol)(g@)), unsigned),
                    long_as_compared(widened(m.word_at((w.symbol)(i@))), unsigned),
                ),
                Some(yes),
                Some(no),
            )
        }),
{
    let unsigned = cx.env.is_unsigned_global(g) || cx.env.is_unsigned_global(i);
    let plan = crate::codegen::conditions::plan_emit_cond_branch(cx, cond, Some(yes), Some(no));
    assert(plan == crate::codegen::conditions::plan_branch_long_int(
        cx,
        cond,
        Some(yes),
        Some(no),
    ));
    let steps = plan->Emit_0;
    let at = (w.symbol)(g@);
    let m1 = word_widened(w, m, steps, crate::isa::global(i));
    crate::machine::word_range(m.mem, at);
    crate::machine::word_range(m.mem, at + 2);
    compared_keeps(m1, m1.dx, m.word_at(at + 2));
    let after = halves_decide(
        w,
        m1,
        steps,
        2,
        crate::isa::flipped(op),
        unsigned,
        (Operand::Reg(Reg::Dx), Operand::Mem(Width::Word, crate::isa::global2(g))),
        (Operand::Reg(Reg::Ax), Operand::Mem(Width::Word, crate::isa::global(g))),
        (m1.dx, m.word_at(at + 2)),
        (m1.ax, m.word_at(at)),
        yes,
        no,
    );
    let x = long_as_compared(m.long_at(at), unsigned);
    let y = long_as_compared(widened(m.word_at((w.symbol)(i@))), unsigned);
    crate::laws::compare::flipped_compares(op, x, y);
    let value = crate::machine::compares(op, x, y);
    assert(crate::laws::flow::decides(w, m, plan, value, after, Some(yes), Some(no)));
}

/// `g != i` for a 32-bit variable and an `int`, both at file scope, branches
/// on whether the 32-bit value is other than the `int` widened with its
/// sign.
pub proof fn long_int_differs<'a>(
    w: World<'a>,
    m: Machine,
    cx: Cx<'a>,
    cond: &'a Expr,
    left: &'a Box<Expr>,
    right: &'a Box<Expr>,
    g: &'a String,
    i: &'a String,
    yes: u32,
    no: u32,
)
    requires
        m.wf(),
        cond.kind == (ExprKind::BinOp { op: BinOp::Ne, left: *left, right: *right }),
        left.kind == ExprKind::Ident(*g),
        right.kind == ExprKind::Ident(*i),
        cx.env.is_long_global(g),
        cx.env.is_int_global(i),
        is_ordinary(*cx.env, *cond, **left, **right),
    ensures
        branches(
            w,
            m,
            crate::codegen::conditions::plan_emit_cond_branch(cx, cond, Some(yes), Some(no)),
            m.long_at((w.symbol)(g@)) != widened(m.word_at((w.symbol)(i@))),
            Some(yes),
            Some(no),
        ),
{
    let plan = crate::codegen::conditions::plan_emit_cond_branch(cx, cond, Some(yes), Some(no));
    assert(plan == crate::codegen::conditions::plan_branch_long_int_ne(
        cx,
        cond,
        Some(yes),
        Some(no),
    ));
    let steps = plan->Emit_0;
    let at = (w.symbol)(g@);
    let m1 = word_widened(w, m, steps, crate::isa::global(i));
    crate::machine::word_range(m.mem, at);
    crate::machine::word_range(m.mem, at + 2);
    compared_keeps(m1, m1.dx, m.word_at(at + 2));
    let after = equality_decides(
        w,
        m1,
        steps,
        2,
        Jcc::Jne,
        yes,
        Jcc::Je,
        no,
        (Operand::Reg(Reg::Dx), Operand::Mem(Width::Word, crate::isa::global2(g))),
        (Operand::Reg(Reg::Ax), Operand::Mem(Width::Word, crate::isa::global(g))),
        (m1.dx, m.word_at(at + 2)),
        (m1.ax, m.word_at(at)),
    );
    reveal_with_fuel(crate::machine::behind_label, 5);
    assert(steps.len() == 6);
    crate::machine::step_end(w, after, steps, 6);
    let value = m.long_at(at) != widened(m.word_at((w.symbol)(i@)));
    assert(crate::laws::flow::decides(w, m, plan, value, after, Some(yes), Some(no)));
}

/// `g == k` and `g != k` for a 32-bit file-scope variable and a constant
/// other than zero, whose halves are both at most 127, branch on whether all
/// 32 bits agree. The equality falls through if it holds.
pub proof fn long_const_equality_branches<'a>(
    w: World<'a>,
    m: Machine,
    cx: Cx<'a>,
    cond: &'a Expr,
    op: BinOp,
    left: &'a Box<Expr>,
    right: &'a Box<Expr>,
    g: &'a String,
    k: u32,
    yes: Option<u32>,
    no: u32,
)
    requires
        m.wf(),
        cond.kind == (ExprKind::BinOp { op, left: *left, right: *right }),
        crate::isa::is_equality(op),
        left.kind == ExprKind::Ident(*g),
        right.kind !is Ident,
        cx.env.const_of(&**right) == Some(k),
        cx.env.facts(&**right).long_addrs is None,
        cx.env.facts(&**right).far_offset is None,
        cx.env.is_long_global(g),
        k != 0,
        crate::isa::fits_i8(crate::isa::hi16(k)),
        crate::isa::fits_i8(crate::isa::lo16(k)),
        yes is Some == (op == BinOp::Ne),
        is_ordinary(*cx.env, *cond, **left, **right),
    ensures
        branches(
            w,
            m,
            crate::codegen::conditions::plan_emit_cond_branch(cx, cond, yes, Some(no)),
            crate::machine::compares(op, m.long_at((w.symbol)(g@)), k as int),
            yes,
            Some(no),
        ),
{
    let plan = crate::codegen::conditions::plan_emit_cond_branch(cx, cond, yes, Some(no));
    if op == BinOp::Ne {
        assert(plan == crate::codegen::conditions::plan_branch_long_ne_const(
            cx,
            cond,
            yes,
            Some(no),
        ));
    } else {
        assert(plan == crate::codegen::conditions::plan_branch_long_eq_const(
            cx,
            cond,
            yes,
            Some(no),
        ));
    }
    let steps = plan->Emit_0;
    let at = (w.symbol)(g@);
    crate::machine::word_range(m.mem, at);
    crate::machine::word_range(m.mem, at + 2);
    compared_keeps(m, m.word_at(at + 2), crate::isa::hi16(k) as int);
    let after = equality_decides(
        w,
        m,
        steps,
        0,
        Jcc::Jne,
        if op == BinOp::Ne { yes->0 } else { no },
        if op == BinOp::Ne { Jcc::Je } else { Jcc::Jne },
        no,
        (
            Operand::Mem(Width::Word, crate::isa::global2(g)),
            Operand::Imm(crate::isa::hi16(k)),
        ),
        (
            Operand::Mem(Width::Word, crate::isa::global(g)),
            Operand::Imm(crate::isa::lo16(k)),
        ),
        (m.word_at(at + 2), crate::isa::hi16(k) as int),
        (m.word_at(at), crate::isa::lo16(k) as int),
    );
    reveal_with_fuel(crate::machine::behind_label, 5);
    assert(steps.len() == 4);
    crate::machine::step_end(w, after, steps, 4);
    let value = crate::machine::compares(op, m.long_at(at), k as int);
    assert(crate::laws::flow::decides(w, m, plan, value, after, yes, Some(no)));
}

/// `p == q` and `p != q` for two far pointers in the stack frame branch on
/// whether both the segments and the offsets agree. A label that the
/// condition has for itself is no target.
pub proof fn far_equality_branches<'a>(
    w: World<'a>,
    m: Machine,
    cx: Cx<'a>,
    cond: &'a Expr,
    op: BinOp,
    left: &'a Box<Expr>,
    right: &'a Box<Expr>,
    p: i16,
    q: i16,
    yes: Option<u32>,
    no: u32,
)
    requires
        m.wf(),
        cond.kind == (ExprKind::BinOp { op, left: *left, right: *right }),
        crate::isa::is_equality(op),
        left.kind !is PseudoReg,
        left.kind !is ArrayIndex,
        cx.env.facts(&**left).far_offset == Some(p),
        cx.env.facts(&**right).far_offset == Some(q),
        is_ordinary(*cx.env, *cond, **left, **right),
        !cx.env.is_long_vs_int_ne(cond),
        op == BinOp::Ne && yes is None ==> (cx.env.facts(cond).label_base matches Some(own) && own
            != no),
    ensures
        branches(
            w,
            m,
            crate::codegen::conditions::plan_emit_cond_branch(cx, cond, yes, Some(no)),
            crate::machine::compares(op, m.long_at(m.bp + p), m.long_at(m.bp + q)),
            yes,
            Some(no),
        ),
{
    let plan = crate::codegen::conditions::plan_emit_cond_branch(cx, cond, yes, Some(no));
    assert(plan == crate::codegen::conditions::plan_branch_far(cx, cond, yes, Some(no)));
    let steps = plan->Emit_0;
    let m1 = crate::laws::steps::load_word(w, m, steps, 0, Reg::Ax, crate::isa::bp2(p));
    let m2 = crate::laws::steps::load_word(w, m1, steps, 1, Reg::Dx, crate::isa::bp(p));
    let at = m.bp + q;
    crate::machine::word_range(m.mem, at);
    crate::machine::word_range(m.mem, at + 2);
    compared_keeps(m2, m2.ax, m.word_at(at + 2));
    let own = op == BinOp::Ne && yes is None;
    let differ_to = if op == BinOp::Eq {
        no
    } else if own {
        cx.env.facts(cond).label_base->0
    } else {
        yes->0
    };
    let after = equality_decides(
        w,
        m2,
        steps,
        2,
        Jcc::Jne,
        differ_to,
        if op == BinOp::Eq { Jcc::Jne } else { Jcc::Je },
        no,
        (Operand::Reg(Reg::Ax), Operand::Mem(Width::Word, crate::isa::bp2(q))),
        (Operand::Reg(Reg::Dx), Operand::Mem(Width::Word, crate::isa::bp(q))),
        (m2.ax, m.word_at(at + 2)),
        (m2.dx, m.word_at(at)),
    );
    reveal_with_fuel(crate::machine::behind_label, 5);
    if own {
        assert(steps.len() == 7);
        crate::machine::step_past(w, after, steps, 6);
        crate::machine::step_end(w, after, steps, 7);
    } else {
        assert(steps.len() == 6);
        crate::machine::step_end(w, after, steps, 6);
    }
    let value = crate::machine::compares(op, m.long_at(m.bp + p), m.long_at(m.bp + q));
    assert(crate::laws::flow::decides(w, m, plan, value, after, yes, Some(no)));
}

/// A condition that is a constant goes where its value says, without a test
/// and with nothing changed.
pub proof fn const_branches<'a>(
    w: World<'a>,
    m: Machine,
    cx: Cx<'a>,
    cond: &'a Expr,
    k: u32,
    yes: Option<u32>,
    no: Option<u32>,
)
    requires
        cx.env.const_of(cond) == Some(k),
        cond.kind is IntLit,
        k == 0 ==> no is Some,
        k != 0 && yes is None ==> no is Some,
    ensures
        crate::laws::flow::decides(
            w,
            m,
            crate::codegen::conditions::plan_emit_cond_branch(cx, cond, yes, no),
            k != 0,
            m,
            yes,
            no,
        ),
{
    let plan = crate::codegen::conditions::plan_emit_cond_branch(cx, cond, yes, no);
    let steps = plan->Emit_0;
    reveal_with_fuel(crate::machine::behind_label, 2);
    if k == 0 {
        assert(plan == crate::codegen::conditions::plan_branch_never(cx, cond, yes, no));
        crate::machine::step_jump(w, m, steps, 0, no->0);
    } else {
        assert(plan == crate::codegen::conditions::plan_branch_always(cx, cond, yes, no));
        if yes is Some {
            crate::machine::step_jump(w, m, steps, 0, yes->0);
        } else {
            crate::machine::step_end(w, m, steps, 0);
        }
    }
}

/// A 32-bit variable by itself, and one that is compared with zero, test
/// whether any of its 32 bits is set.
pub proof fn long_zero_tells<'a>(
    w: World<'a>,
    m: Machine,
    cx: Cx<'a>,
    cond: &'a Expr,
    name: &'a String,
)
    requires
        m.wf(),
        crate::laws::long::names_long(*cx.env, *name),
        cond.kind == ExprKind::Ident(*name) || (cond.kind matches ExprKind::BinOp {
            op,
            left,
            right,
        } && crate::isa::is_equality(op) && left.kind == ExprKind::Ident(*name)
            && cx.env.const_of(&*right) == Some(0u32)),
    ensures
        ({
            let zero = m.long_at(crate::laws::long::home(w, m, *cx.env, name)) == 0;
            let value = match cond.kind {
                ExprKind::BinOp { op: BinOp::Eq, .. } => zero,
                _ => !zero,
            };
            tests(w, m, crate::codegen::conditions::plan_emit_cond_test(cx, cond), value)
        }),
{
    let probe = crate::codegen::conditions::plan_emit_cond_test(cx, cond);
    let (lo, hi) = cx.env.long_halves_of(name)->0;
    assert(probe == crate::codegen::conditions::plan_test_value(cx, cond));
    let steps = probe->Emit_0;
    assert(steps =~= seq![
        crate::codegen::emitter::mov(crate::isa::ax(), crate::isa::word(lo)),
        crate::codegen::emitter::or_to(crate::isa::ax(), crate::isa::word(hi)),
    ]);
    let m1 = crate::laws::steps::load_word(w, m, steps, 0, Reg::Ax, lo);
    let at = m.locate(w, lo)->0;
    crate::machine::word_range(m.mem, at);
    crate::machine::word_range(m.mem, at + 2);
    let a = m.word_at(at);
    let b = m.word_at(at + 2);
    let r = crate::machine::either_bits(a, b);
    either_zero(a, b);
    let after = crate::machine::run_step(w, m1, steps[1])->0;
    assert(crate::machine::run_step(w, m1, steps[1]) is Some && after.mem == m.mem && after.zero
        == (r == 0)) by {
        reveal(crate::machine::combine);
    }
    crate::machine::step_on(w, m1, steps, 1, after);
    crate::machine::step_end(w, after, steps, 2);
    let zero = m.long_at(at) == 0;
    let value = match cond.kind {
        ExprKind::BinOp { op: BinOp::Eq, .. } => zero,
        _ => !zero,
    };
    assert(crate::laws::compare::tells(w, m, probe, value, after));
}

/// `x & k` for an integer in memory, by itself or compared with zero, tests
/// whether the two have a bit in common.
pub proof fn mask_tells<'a>(
    w: World<'a>,
    m: Machine,
    cx: Cx<'a>,
    cond: &'a Expr,
    masked: &'a Expr,
    left: &'a Box<Expr>,
    right: &'a Box<Expr>,
    name: &'a String,
    k: u32,
)
    requires
        m.wf(),
        crate::laws::word::names_int(*cx.env, *name),
        masked.kind == (ExprKind::BinOp { op: BinOp::BitAnd, left: *left, right: *right }),
        left.kind == ExprKind::Ident(*name),
        right.kind !is Ident,
        cx.env.const_of(&**right) == Some(k),
        cond == masked || (cond.kind matches ExprKind::BinOp { op, left: inner, right: zero }
            && crate::isa::is_equality(op) && *inner == *masked && cx.env.const_of(&*zero) == Some(
            0u32,
        )),
    ensures
        ({
            let common = crate::machine::both_bits(
                m.word_at(crate::laws::long::home(w, m, *cx.env, name)),
                k as int % 0x1_0000,
            );
            let value = match cond.kind {
                ExprKind::BinOp { op: BinOp::Eq, .. } => common == 0,
                _ => common != 0,
            };
            tests(w, m, crate::codegen::conditions::plan_emit_cond_test(cx, cond), value)
        }),
{
    let probe = crate::codegen::conditions::plan_emit_cond_test(cx, cond);
    let a = cx.env.memory_of(name)->0;
    let at = m.locate(w, a)->0;
    let steps = probe->Emit_0;
    assert(steps =~= seq![
        Step::Op2(
            Mnemonic::Test,
            Operand::Mem(Width::Word, a),
            Operand::Imm(crate::isa::lo16(k)),
        ),
    ]);
    let common = crate::machine::both_bits(m.word_at(at), k as int % 0x1_0000);
    let after = crate::machine::run_step(w, m, steps[0])->0;
    assert(crate::machine::run_step(w, m, steps[0]) is Some && after.mem == m.mem && after.zero
        == (common == 0)) by {
        reveal(crate::machine::combine);
    }
    crate::machine::step_on(w, m, steps, 0, after);
    crate::machine::step_end(w, after, steps, 1);
    let value = match cond.kind {
        ExprKind::BinOp { op: BinOp::Eq, .. } => common == 0,
        _ => common != 0,
    };
    assert(crate::laws::compare::tells(w, m, probe, value, after));
}

/// `(x & y) == 0` and `(x & y) != 0` for two integers in the stack frame
/// test whether they have a bit in common.
pub proof fn common_bits_tell<'a>(
    w: World<'a>,
    m: Machine,
    cx: Cx<'a>,
    cond: &'a Expr,
    op: BinOp,
    masked: &'a Box<Expr>,
    zero: &'a Box<Expr>,
    left: &'a Box<Expr>,
    right: &'a Box<Expr>,
    x: &'a String,
    y: &'a String,
    x_off: i16,
    y_off: i16,
)
    requires
        m.wf(),
        cond.kind == (ExprKind::BinOp { op, left: *masked, right: *zero }),
        crate::isa::is_equality(op),
        cx.env.const_of(&**zero) == Some(0u32),
        masked.kind == (ExprKind::BinOp { op: BinOp::BitAnd, left: *left, right: *right }),
        left.kind == ExprKind::Ident(*x),
        right.kind == ExprKind::Ident(*y),
        cx.env.is_int_local(x),
        cx.env.is_int_local(y),
        cx.env.stack_of(x) == Some(x_off),
        cx.env.stack_of(y) == Some(y_off),
    ensures
        tests(
            w,
            m,
            crate::codegen::conditions::plan_emit_cond_test(cx, cond),
            crate::machine::compares(
                op,
                crate::machine::both_bits(m.word_at(m.bp + x_off), m.word_at(m.bp + y_off)),
                0,
            ),
        ),
{
    let probe = crate::codegen::conditions::plan_emit_cond_test(cx, cond);
    let steps = probe->Emit_0;
    assert(steps =~= seq![
        crate::codegen::emitter::mov(crate::isa::ax(), crate::isa::word(crate::isa::bp(y_off))),
        Step::Op2(
            Mnemonic::Test,
            crate::isa::word(crate::isa::bp(x_off)),
            crate::isa::ax(),
        ),
    ]);
    let m1 = crate::laws::steps::load_word(w, m, steps, 0, Reg::Ax, crate::isa::bp(y_off));
    let common = crate::machine::both_bits(m.word_at(m.bp + x_off), m.word_at(m.bp + y_off));
    let after = crate::machine::run_step(w, m1, steps[1])->0;
    assert(crate::machine::run_step(w, m1, steps[1]) is Some && after.mem == m.mem && after.zero
        == (common == 0)) by {
        reveal(crate::machine::combine);
    }
    crate::machine::step_on(w, m1, steps, 1, after);
    crate::machine::step_end(w, after, steps, 2);
    let value = crate::machine::compares(op, common, 0);
    assert(crate::laws::compare::tells(w, m, probe, value, after));
}

/// Two words joined are zero exactly if both are.
proof fn either_zero(a: int, b: int)
    requires
        0 <= a < 0x1_0000,
        0 <= b < 0x1_0000,
    ensures
        crate::machine::either_bits(a, b) == 0 <==> a == 0 && b == 0,
{
    let x = a as u16;
    let y = b as u16;
    assert(x | y == 0u16 <==> x == 0u16 && y == 0u16) by (bit_vector);
}

} // verus!
