//! Assignments to 32-bit variables store what they say.

use vstd::prelude::*;
use crate::ast::{BinOp, Expr, ExprKind, Type, UnaryOp};
use crate::codegen::emitter::{Cx, Step};
use crate::codegen::env::{Env, LocalLocation};
use crate::isa::{Addr, Mnemonic, Operand, Reg, Width};
use crate::machine::{Machine, Outcome, World};

verus! {

/// Whether an expression names a 32-bit variable in file scope or, else, in
/// the stack frame.
pub open spec fn is_long_name(env: Env, e: Expr, in_file: bool) -> bool {
    &&& e.kind matches ExprKind::Ident(name) && crate::laws::long::names_long(env, name)
        && env.is_global(&name) == in_file
}

/// What a variable that an expression names holds.
pub open spec fn held<'a>(w: World<'a>, m: Machine, env: Env, e: &'a Expr) -> int {
    match &e.kind {
        ExprKind::Ident(name) => m.long_at(crate::laws::long::home(w, m, env, name)),
        _ => 0,
    }
}

/// Whether the addresses that are known of an expression are those of the
/// variable it names.
pub open spec fn is_located<'a>(w: World<'a>, m: Machine, env: Env, e: &'a Expr) -> bool {
    &&& env.facts(e).long_addrs matches Some((hi, lo))
    &&& e.kind matches ExprKind::Ident(name)
    &&& (w.place)(lo@) == crate::laws::long::home(w, m, env, &name)
    &&& (w.place)(hi@) == (w.place)(lo@) + 2
}

/// The 32-bit value of the expressions that are computed in line without a
/// run-time routine: constants, variables, and one operator on variables.
/// `None` for any other expression.
pub open spec fn long_value<'a>(
    w: World<'a>,
    m: Machine,
    env: Env,
    e: &'a Expr,
    in_file: bool,
) -> Option<int> {
    if env.const_of(e) is Some {
        if crate::codegen::assign_local::designated(e) is None {
            Some(env.const_of(e)->0 as int)
        } else {
            None
        }
    } else {
        match &e.kind {
            ExprKind::Ident(name) => if crate::laws::long::names_long(env, *name) {
                Some(held(w, m, env, e))
            } else {
                None
            },
            ExprKind::Unary { op: UnaryOp::Neg, operand } => if is_long_name(
                env,
                **operand,
                in_file,
            ) {
                Some((-held(w, m, env, &**operand)) % 0x1_0000_0000)
            } else {
                None
            },
            ExprKind::Unary { op: UnaryOp::BitNot, operand } => if is_long_name(
                env,
                **operand,
                in_file,
            ) {
                Some(0xFFFF_FFFF - held(w, m, env, &**operand))
            } else {
                None
            },
            ExprKind::BinOp { op, left, right } => if crate::isa::is_direct(*op) && is_long_name(
                env,
                **left,
                in_file,
            ) && is_long_name(env, **right, in_file) && env.const_of(&**right) is None && (in_file
                ==> is_located(w, m, env, &**left) && is_located(w, m, env, &**right)) {
                Some(
                    crate::machine::long_result(
                        *op,
                        held(w, m, env, &**left),
                        held(w, m, env, &**right),
                    ),
                )
            } else {
                None
            },
            _ => None,
        }
    }
}

/// A constant stored as a pair of words.
pub proof fn const_stored<'a>(
    w: World<'a>,
    m: Machine,
    steps: Seq<Step<'a>>,
    lo: Addr<'a>,
    hi: Addr<'a>,
    k: u32,
)
    requires
        m.wf(),
        crate::laws::steps::are_halves(w, m, lo, hi),
        steps.len() == 2,
        steps[0] == Step::Op2(
            Mnemonic::Mov,
            Operand::Mem(Width::Word, hi),
            Operand::Imm(crate::isa::hi16(k)),
        ),
        steps[1] == Step::Op2(
            Mnemonic::Mov,
            Operand::Mem(Width::Word, lo),
            Operand::Imm(crate::isa::lo16(k)),
        ),
    ensures
        stored(w, m, steps, lo, k as int),
{
    let after = crate::laws::steps::store_pair(
        w,
        m,
        steps,
        0,
        lo,
        hi,
        Operand::Imm(crate::isa::lo16(k)),
        Operand::Imm(crate::isa::hi16(k)),
    );
    crate::machine::step_end(w, after, steps, 2);
}

/// Whether code goes through and leaves a 32-bit number at an address, with
/// no other memory changed.
pub open spec fn stored<'a>(
    w: World<'a>,
    m: Machine,
    steps: Seq<Step<'a>>,
    lo: Addr<'a>,
    value: int,
) -> bool {
    &&& crate::machine::run(w, m, steps, 0) matches Outcome::Through(after)
    &&& after.long_at(m.locate(w, lo)->0) == value
    &&& crate::machine::same_but(after.mem, m.mem, m.locate(w, lo)->0, 4)
}

/// The pair in `ax:dx` stored at the end of some code.
proof fn pair_stored<'a>(
    w: World<'a>,
    m: Machine,
    now: Machine,
    steps: Seq<Step<'a>>,
    i: int,
    lo: Addr<'a>,
    hi: Addr<'a>,
)
    requires
        now.wf(),
        now.mem == m.mem,
        now.bp == m.bp,
        0 <= i,
        crate::machine::run(w, m, steps, 0) == crate::machine::run(w, now, steps, i),
        crate::laws::steps::are_halves(w, m, lo, hi),
        steps.len() == i + 2,
        steps[i] == Step::Op2(
            Mnemonic::Mov,
            Operand::Mem(Width::Word, hi),
            Operand::Reg(Reg::Ax),
        ),
        steps[i + 1] == Step::Op2(
            Mnemonic::Mov,
            Operand::Mem(Width::Word, lo),
            Operand::Reg(Reg::Dx),
        ),
    ensures
        stored(w, m, steps, lo, crate::machine::pair(now.ax, now.dx)),
{
    let after = crate::laws::steps::store_pair(
        w,
        now,
        steps,
        i,
        lo,
        hi,
        Operand::Reg(Reg::Dx),
        Operand::Reg(Reg::Ax),
    );
    crate::machine::step_end(w, after, steps, i + 2);
}

/// A pair of words in registers, or numbers, stored at the end of some code.
pub proof fn halves_stored<'a>(
    w: World<'a>,
    m: Machine,
    now: Machine,
    steps: Seq<Step<'a>>,
    i: int,
    lo: Addr<'a>,
    hi: Addr<'a>,
    s_lo: Operand<'a>,
    s_hi: Operand<'a>,
)
    requires
        now.wf(),
        now.mem == m.mem,
        now.bp == m.bp,
        0 <= i,
        crate::machine::run(w, m, steps, 0) == crate::machine::run(w, now, steps, i),
        crate::laws::steps::are_halves(w, m, lo, hi),
        steps.len() == i + 2,
        steps[i] == Step::Op2(Mnemonic::Mov, Operand::Mem(Width::Word, hi), s_hi),
        steps[i + 1] == Step::Op2(Mnemonic::Mov, Operand::Mem(Width::Word, lo), s_lo),
        crate::laws::steps::is_steady(s_lo),
        crate::laws::steps::is_steady(s_hi),
        now.read(w, s_lo, false) matches Some(b) && 0 <= b < 0x1_0000,
        now.read(w, s_hi, false) matches Some(b) && 0 <= b < 0x1_0000,
    ensures
        stored(
            w,
            m,
            steps,
            lo,
            crate::machine::pair(now.read(w, s_hi, false)->0, now.read(w, s_lo, false)->0),
        ),
{
    let after = crate::laws::steps::store_pair(w, now, steps, i, lo, hi, s_lo, s_hi);
    crate::machine::step_end(w, after, steps, i + 2);
}

/// A pair of words loaded into `ax:dx`.
proof fn pair_loaded<'a>(
    w: World<'a>,
    m: Machine,
    steps: Seq<Step<'a>>,
    lo: Addr<'a>,
    hi: Addr<'a>,
) -> (now: Machine)
    requires
        m.wf(),
        crate::laws::steps::are_halves(w, m, lo, hi),
        steps.len() >= 2,
        steps[0] == Step::Op2(
            Mnemonic::Mov,
            Operand::Reg(Reg::Ax),
            Operand::Mem(Width::Word, hi),
        ),
        steps[1] == Step::Op2(
            Mnemonic::Mov,
            Operand::Reg(Reg::Dx),
            Operand::Mem(Width::Word, lo),
        ),
    ensures
        now.wf(),
        now.mem == m.mem,
        now.bp == m.bp,
        crate::machine::run(w, m, steps, 0) == crate::machine::run(w, now, steps, 2),
        crate::machine::pair(now.ax, now.dx) == m.long_at(m.locate(w, lo)->0),
{
    let m1 = crate::laws::steps::load_word(w, m, steps, 0, Reg::Ax, hi);
    crate::laws::steps::load_word(w, m1, steps, 1, Reg::Dx, lo)
}

/// `x = e` for a 32-bit file-scope variable and a constant, a variable, or
/// an operator on variables leaves the 32-bit value of `e` in `x`, and
/// nothing else in memory changes.
#[verifier::rlimit(60)]
pub proof fn long_assign_global<'a>(
    w: World<'a>,
    m: Machine,
    cx: Cx<'a>,
    name: &'a String,
    value: &'a Expr,
)
    requires
        m.wf(),
        cx.env.is_long_global(name),
        long_value(w, m, *cx.env, value, true) is Some,
    ensures
        crate::laws::long::leaves_long(
            w,
            m,
            crate::codegen::assign_global::plan_emit_assign_global(cx, name, value),
            (w.symbol)(name@),
            long_value(w, m, *cx.env, value, true)->0,
        ),
{
    let env = cx.env;
    let lo = crate::isa::global(name);
    let hi = crate::isa::global2(name);
    let plan = crate::codegen::assign_global::plan_emit_assign_global(cx, name, value);
    assert(plan == crate::codegen::assign_global::plan_assign_global_long(cx, name, value));
    if let Some(k) = env.const_of(value) {
        assert(plan == crate::codegen::assign_global::plan_global_long_const(cx, name, value));
        const_stored(w, m, plan->Emit_0, lo, hi, k);
    } else {
        match &value.kind {
            ExprKind::Ident(src) => {
                let (from_lo, from_hi) = env.long_halves_of(src)->0;
                if env.is_global(src) {
                    assert(plan == crate::codegen::assign_global::plan_global_long_global(
                        cx,
                        name,
                        value,
                    ));
                } else {
                    assert(plan == crate::codegen::assign_global::plan_global_long_local(
                        cx,
                        name,
                        value,
                    ));
                }
                let now = pair_loaded(w, m, plan->Emit_0, from_lo, from_hi);
                pair_stored(w, m, now, plan->Emit_0, 2, lo, hi);
            },
            ExprKind::Unary { op: UnaryOp::Neg, operand } => {
                assert(plan == crate::codegen::assign_global::plan_global_long_neg(
                    cx,
                    name,
                    value,
                ));
                if let ExprKind::Ident(a) = &operand.kind {
                    let steps = plan->Emit_0;
                    let now = pair_loaded(
                        w,
                        m,
                        steps,
                        crate::isa::global(a),
                        crate::isa::global2(a),
                    );
                    let then_on = crate::laws::steps::negate_pair(w, now, steps, 2);
                    pair_stored(w, m, then_on, steps, 5, lo, hi);
                }
            },
            ExprKind::Unary { op: UnaryOp::BitNot, operand } => {
                assert(plan == crate::codegen::assign_global::plan_global_long_not(
                    cx,
                    name,
                    value,
                ));
                if let ExprKind::Ident(a) = &operand.kind {
                    let steps = plan->Emit_0;
                    let now = pair_loaded(
                        w,
                        m,
                        steps,
                        crate::isa::global(a),
                        crate::isa::global2(a),
                    );
                    let then_on = crate::laws::steps::complement_pair(w, now, steps, 2);
                    pair_stored(w, m, then_on, steps, 4, lo, hi);
                }
            },
            ExprKind::BinOp { op, left, right } => {
                assert(plan == crate::codegen::assign_global::plan_global_long_pair(
                    cx,
                    name,
                    value,
                ));
                let steps = plan->Emit_0;
                let (a_hi, a_lo) = env.facts(&**left).long_addrs->0;
                let (b_hi, b_lo) = env.facts(&**right).long_addrs->0;
                let now = pair_loaded(w, m, steps, Addr::Text(&a_lo), Addr::Text(&a_hi));
                let at = (w.place)(b_lo@);
                crate::machine::word_range(m.mem, at);
                crate::machine::word_range(m.mem, at + 2);
                let then_on = crate::laws::steps::direct_to_pair(
                    w,
                    now,
                    steps,
                    2,
                    *op,
                    Operand::Mem(Width::Word, Addr::Text(&b_lo)),
                    Operand::Mem(Width::Word, Addr::Text(&b_hi)),
                );
                pair_stored(w, m, then_on, steps, 4, lo, hi);
            },
            _ => {},
        }
    }
}

/// `x = e` for a 32-bit local variable in the stack frame and a constant, a
/// variable, or an operator on local variables leaves the 32-bit value of
/// `e` in `x`, and nothing else in memory changes.
#[verifier::rlimit(60)]
pub proof fn long_assign_local<'a>(
    w: World<'a>,
    m: Machine,
    cx: Cx<'a>,
    off: i16,
    ty: &'a Type,
    value: &'a Expr,
)
    requires
        m.wf(),
        ty.is_long_like(),
        long_value(w, m, *cx.env, value, false) is Some,
    ensures
        crate::laws::long::leaves_long(
            w,
            m,
            crate::codegen::assign_local::plan_emit_assign_local(
                cx,
                LocalLocation::Stack(off),
                ty,
                value,
            ),
            m.bp + off,
            long_value(w, m, *cx.env, value, false)->0,
        ),
{
    let env = cx.env;
    let lo = crate::isa::bp(off);
    let hi = crate::isa::bp2(off);
    let plan = crate::codegen::assign_local::plan_emit_assign_local(
        cx,
        LocalLocation::Stack(off),
        ty,
        value,
    );
    assert(plan == crate::codegen::assign_local::plan_assign_local_long(cx, off, value));
    if let Some(k) = env.const_of(value) {
        assert(plan == crate::codegen::assign_local::plan_local_long_const(cx, off, value));
        const_stored(w, m, plan->Emit_0, lo, hi, k);
    } else {
        match &value.kind {
            ExprKind::Ident(src) => {
                let (from_lo, from_hi) = env.long_halves_of(src)->0;
                if env.is_global(src) {
                    assert(plan == crate::codegen::assign_local::plan_local_long_global(
                        cx,
                        off,
                        value,
                    ));
                } else {
                    assert(plan == crate::codegen::assign_local::plan_local_long_local(
                        cx,
                        off,
                        value,
                    ));
                }
                let now = pair_loaded(w, m, plan->Emit_0, from_lo, from_hi);
                pair_stored(w, m, now, plan->Emit_0, 2, lo, hi);
            },
            ExprKind::Unary { op: UnaryOp::Neg, operand } => {
                assert(plan == crate::codegen::assign_local::plan_local_long_neg(cx, off, value));
                if let ExprKind::Ident(a) = &operand.kind {
                    let steps = plan->Emit_0;
                    let (from_lo, from_hi) = env.long_halves_of(a)->0;
                    let now = pair_loaded(w, m, steps, from_lo, from_hi);
                    let then_on = crate::laws::steps::negate_pair(w, now, steps, 2);
                    pair_stored(w, m, then_on, steps, 5, lo, hi);
                }
            },
            ExprKind::Unary { op: UnaryOp::BitNot, operand } => {
                assert(plan == crate::codegen::assign_local::plan_local_long_not(cx, off, value));
                if let ExprKind::Ident(a) = &operand.kind {
                    let steps = plan->Emit_0;
                    let (from_lo, from_hi) = env.long_halves_of(a)->0;
                    let now = pair_loaded(w, m, steps, from_lo, from_hi);
                    let then_on = crate::laws::steps::complement_pair(w, now, steps, 2);
                    pair_stored(w, m, then_on, steps, 4, lo, hi);
                }
            },
            ExprKind::BinOp { op, left, right } => {
                assert(plan == crate::codegen::assign_local::plan_local_long_pair(cx, off, value));
                if let ExprKind::Ident(a) = &left.kind {
                    if let ExprKind::Ident(b) = &right.kind {
                        let steps = plan->Emit_0;
                        let (a_lo, a_hi) = env.long_halves_of(a)->0;
                        let (b_lo, b_hi) = env.long_halves_of(b)->0;
                        let now = pair_loaded(w, m, steps, a_lo, a_hi);
                        let at = m.locate(w, b_lo)->0;
                        crate::machine::word_range(m.mem, at);
                        crate::machine::word_range(m.mem, at + 2);
                        let then_on = crate::laws::steps::direct_to_pair(
                            w,
                            now,
                            steps,
                            2,
                            *op,
                            Operand::Mem(Width::Word, b_lo),
                            Operand::Mem(Width::Word, b_hi),
                        );
                        pair_stored(w, m, then_on, steps, 4, lo, hi);
                    }
                }
            },
            _ => {},
        }
    }
}

/// `x = y << 1` and `x = y * 2` double, and `x = y >> 1` halves, a 32-bit
/// file-scope variable; nothing else in memory changes.
pub proof fn long_shift_assign<'a>(
    w: World<'a>,
    m: Machine,
    cx: Cx<'a>,
    name: &'a String,
    value: &'a Expr,
    op: BinOp,
    left: &'a Box<Expr>,
    right: &'a Box<Expr>,
    from: &'a String,
)
    requires
        m.wf(),
        cx.env.is_long_global(name),
        cx.env.const_of(value) is None,
        value.kind == (ExprKind::BinOp { op, left: *left, right: *right }),
        left.kind == ExprKind::Ident(*from),
        cx.env.is_long_global(from),
        op == BinOp::Mul && cx.env.const_of(&**right) == Some(2u32) || crate::isa::is_shift(op)
            && cx.env.const_of(&**right) == Some(1u32),
        right.kind !is Ident,
    ensures
        crate::laws::long::leaves_long(
            w,
            m,
            crate::codegen::assign_global::plan_emit_assign_global(cx, name, value),
            (w.symbol)(name@),
            crate::laws::long::shifted_by_one(
                if op == BinOp::Mul { BinOp::Shl } else { op },
                m.long_at((w.symbol)(from@)),
                cx.env.is_unsigned_global(from),
            ),
        ),
{
    let lo = crate::isa::global(name);
    let hi = crate::isa::global2(name);
    let plan = crate::codegen::assign_global::plan_emit_assign_global(cx, name, value);
    let steps = plan->Emit_0;
    if op == BinOp::Shr {
        assert(plan == crate::codegen::assign_global::plan_global_long_halve(cx, name, value));
        let now = pair_loaded(w, m, steps, crate::isa::global(from), crate::isa::global2(from));
        let then_on = crate::laws::steps::halve_pair(
            w,
            now,
            steps,
            2,
            cx.env.is_unsigned_global(from),
        );
        pair_stored(w, m, then_on, steps, 4, lo, hi);
    } else {
        assert(plan == crate::codegen::assign_global::plan_global_long_double(cx, name, value));
        let now = pair_loaded(w, m, steps, crate::isa::global(from), crate::isa::global2(from));
        let then_on = crate::laws::steps::double_pair(w, now, steps, 2);
        pair_stored(w, m, then_on, steps, 4, lo, hi);
    }
}

/// `x = y + k` and `x = y - k` for a 32-bit file-scope variable leave the
/// sum or the difference in `x`, with nothing else in memory changed, for a
/// constant of which the low half says all: a sum with one below 65536, and
/// a difference, which is the sum with a negative number, from 1 to 65536.
#[verifier::rlimit(60)]
pub proof fn long_sum_assign<'a>(
    w: World<'a>,
    m: Machine,
    cx: Cx<'a>,
    name: &'a String,
    value: &'a Expr,
    op: BinOp,
    left: &'a Box<Expr>,
    right: &'a Box<Expr>,
    k: u32,
)
    requires
        m.wf(),
        cx.env.is_long_global(name),
        cx.env.const_of(value) is None,
        value.kind == (ExprKind::BinOp { op, left: *left, right: *right }),
        is_long_name(*cx.env, **left, true),
        is_located(w, m, *cx.env, &**left),
        cx.env.const_of(&**right) == Some(k),
        cx.env.facts(&**right).long_addrs is None,
        right.kind !is Ident,
        op == BinOp::Add && k <= 0xFFFF || op == BinOp::Sub && 1 <= k <= 0x1_0000,
    ensures
        crate::laws::long::leaves_long(
            w,
            m,
            crate::codegen::assign_global::plan_emit_assign_global(cx, name, value),
            (w.symbol)(name@),
            crate::machine::long_result(op, held(w, m, *cx.env, &**left), k as int),
        ),
{
    let lo = crate::isa::global(name);
    let hi = crate::isa::global2(name);
    let plan = crate::codegen::assign_global::plan_emit_assign_global(cx, name, value);
    assert(plan == crate::codegen::assign_global::plan_global_long_add_const(cx, name, value));
    let steps = plan->Emit_0;
    let (a_hi, a_lo) = cx.env.facts(&**left).long_addrs->0;
    let now = pair_loaded(w, m, steps, Addr::Text(&a_lo), Addr::Text(&a_hi));
    let then_on = crate::laws::steps::direct_to_pair(
        w,
        now,
        steps,
        2,
        BinOp::Add,
        Operand::Imm(crate::codegen::assign_global::spec_long_delta(op, k)),
        Operand::Imm(if op == BinOp::Add { 0i64 } else { -1i64 }),
    );
    pair_stored(w, m, then_on, steps, 4, lo, hi);
}

} // verus!
