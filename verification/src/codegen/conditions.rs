//! Conditions: tests and the jumps that follow them.

use vstd::prelude::*;
use crate::ast::{BinOp, Expr, ExprKind, LogicalOp, UnaryOp, UpdatePosition};
use crate::codegen::common::long_jumps;
use crate::codegen::emitter::{
    add_to, clear, compare, cwd, jump, mov, op1, op2, or_to, shl1, to_ax, widen, Cx,
    FunctionEmitter, Plan, Probe, Step, Test,
};
use crate::codegen::env::{is_plain_int, is_small_int, Chain, Env, LocalLocation};
use crate::isa::{
    al, at, ax, bp, bp2, bx, byte, disp, dx, elem, fits_i8, flipped, global, global2, global_at,
    halvings, hi16, imm, is_direct, is_equality, jcc_if_false, jcc_if_true, lo16, lo8, named, r,
    scaled, signed, sized, update, word, Addr, Jcc, Mnemonic, Reg,
};

verus! {

/// Whether a name is that of the flags register.
pub open spec fn spec_is_flags(name: &String) -> bool {
    name@ == "_FLAGS"@
}

/// Whether a name is that of the flags register.
#[verifier::when_used_as_spec(spec_is_flags)]
pub fn is_flags(name: &String) -> (r: bool)
    ensures
        r == spec_is_flags(name),
{
    *name == "_FLAGS".to_owned()
}

/// The jumps on a bit of the flags register: taken if the bit is clear, taken
/// if it is set.
#[verifier::allow_in_spec]
pub fn bit_jumps(bit: u32) -> Option<(Jcc, Jcc)>
    returns
        (match bit {
            0x1 => Some((Jcc::Jnc, Jcc::Jc)),
            0x4 => Some((Jcc::Jnp, Jcc::Jp)),
            0x40 => Some((Jcc::Jne, Jcc::Je)),
            0x80 => Some((Jcc::Jns, Jcc::Js)),
            0x800 => Some((Jcc::Jno, Jcc::Jo)),
            _ => None,
        }),
{
    match bit {
        0x1 => Some((Jcc::Jnc, Jcc::Jc)),
        0x4 => Some((Jcc::Jnp, Jcc::Jp)),
        0x40 => Some((Jcc::Jne, Jcc::Je)),
        0x80 => Some((Jcc::Jns, Jcc::Js)),
        0x800 => Some((Jcc::Jno, Jcc::Jo)),
        _ => None,
    }
}

/// The jumps for `_FLAGS & bit`: on false, on true.
#[verifier::allow_in_spec]
pub fn flags_bit_jumps(env: &Env, e: &Expr) -> Option<(Jcc, Jcc)>
    returns
        (match &e.kind {
            ExprKind::BinOp { op: BinOp::BitAnd, left, right } => match (
                &left.kind,
                env.const_of(&**right),
            ) {
                (ExprKind::PseudoReg(name), Some(k)) => if is_flags(name) {
                    bit_jumps(k)
                } else {
                    None
                },
                _ => None,
            },
            _ => None,
        }),
{
    match &e.kind {
        ExprKind::BinOp { op: BinOp::BitAnd, left, right } => match (
            &left.kind,
            env.const_of(&**right),
        ) {
            (ExprKind::PseudoReg(name), Some(k)) => if is_flags(name) {
                bit_jumps(k)
            } else {
                None
            },
            _ => None,
        },
        _ => None,
    }
}

/// The jumps for a test of a flag bit, which may be negated: on false, on
/// true.
#[verifier::allow_in_spec]
pub fn flags_bit_test_mnemonics(env: &Env, cond: &Expr) -> Option<(Jcc, Jcc)>
    returns
        (match &cond.kind {
            ExprKind::Unary { op: UnaryOp::Not, operand } => match flags_bit_jumps(env, &**operand) {
                Some((clear, set)) => Some((set, clear)),
                None => None,
            },
            _ => flags_bit_jumps(env, cond),
        }),
{
    match &cond.kind {
        ExprKind::Unary { op: UnaryOp::Not, operand } => match flags_bit_jumps(env, &**operand) {
            Some((clear, set)) => Some((set, clear)),
            None => None,
        },
        _ => flags_bit_jumps(env, cond),
    }
}

/// Jumps to whichever targets there are, the true one first.
pub open spec fn plan_branch_on<'a>(
    cx: Cx<'a>,
    yes: Jcc,
    no: Jcc,
    true_slot: Option<u32>,
    false_slot: Option<u32>,
) -> Plan<'a> {
    (match true_slot {
        Some(slot) => {
            Plan::Emit(seq![jump(yes, slot)])
        },
        None => {
            Plan::Emit(seq![])
        },
    }).followed_by(
        match false_slot {
            Some(slot) => {
                Plan::Emit(seq![jump(no, slot)])
            },
            None => {
                Plan::Emit(seq![])
            },
        },
    )
}

/// `_FLAGS & bit`: the jump tests the flag itself.
pub open spec fn plan_branch_flags<'a>(
    cx: Cx<'a>,
    cond: &'a Expr,
    true_slot: Option<u32>,
    false_slot: Option<u32>,
) -> Plan<'a> {
    if let Some((clear, set)) = flags_bit_test_mnemonics(cx.env, cond) {
        (match false_slot {
            Some(slot) => {
                Plan::Emit(seq![jump(clear, slot)])
            },
            None => {
                Plan::Emit(seq![])
            },
        }).followed_by(
            match true_slot {
                Some(slot) => {
                    Plan::Emit(seq![jump(set, slot)])
                },
                None => {
                    Plan::Emit(seq![])
                },
            },
        )
    } else {
        Plan::Skip
    }
}

/// A byte register that the source names, compared with a constant.
pub open spec fn plan_branch_pseudo<'a>(
    cx: Cx<'a>,
    cond: &'a Expr,
    true_slot: Option<u32>,
    false_slot: Option<u32>,
) -> Plan<'a> {
    if let ExprKind::BinOp { op, left, right } = &cond.kind {
        if is_equality(*op) {
            if let ExprKind::PseudoReg(name) = &left.kind {
                if let Some(reg) = cx.env.pseudo(name) {
                    if reg.is_byte() {
                        if let Some(k) = cx.env.const_of(&**right) {
                            Plan::Emit(seq![compare(r(reg), imm(lo8(k)))]).followed_by(
                                plan_branch_on(cx, test_for(*op, false).yes, test_for(*op, false).no, true_slot, false_slot),
                            )
                        } else {
                            Plan::Skip
                        }
                    } else {
                        Plan::Skip
                    }
                } else {
                    Plan::Skip
                }
            } else {
                Plan::Skip
            }
        } else {
            Plan::Skip
        }
    } else {
        Plan::Skip
    }
}

/// A character of an array on the stack, subscripted by `si`, compared with
/// zero.
pub open spec fn plan_branch_frame_char<'a>(
    cx: Cx<'a>,
    cond: &'a Expr,
    true_slot: Option<u32>,
    false_slot: Option<u32>,
) -> Plan<'a> {
    if let ExprKind::BinOp { op, left, right } = &cond.kind {
        if is_equality(*op) {
            if let ExprKind::IntLit(zero) = &right.kind {
                if *zero == 0 {
                    if let ExprKind::ArrayIndex { array: _, index } = &left.kind {
                        if let Some(d) = cx.env.facts(&**index).frame_disp {
                            Plan::Emit(seq![
                                compare(byte(Addr::Indexed(Reg::Bp, Reg::Si, signed(d as i64))), imm(0)),
                            ]).followed_by(
                                plan_branch_on(cx, test_for(*op, false).yes, test_for(*op, false).no, true_slot, false_slot),
                            )
                        } else {
                            Plan::Skip
                        }
                    } else {
                        Plan::Skip
                    }
                } else {
                    Plan::Skip
                }
            } else {
                Plan::Skip
            }
        } else {
            Plan::Skip
        }
    } else {
        Plan::Skip
    }
}

/// A comparison of floating-point numbers.
pub open spec fn plan_branch_float<'a>(
    cx: Cx<'a>,
    cond: &'a Expr,
    true_slot: Option<u32>,
    false_slot: Option<u32>,
) -> Plan<'a> {
    if let ExprKind::BinOp { op, left, right } = &cond.kind {
        if op.is_comparison() {
            if cx.env.facts(&**left).is_float || cx.env.facts(&**right).is_float {
                Plan::Emit(seq![
                    Step::FloatBranch(*op, &**left, &**right, true_slot, false_slot),
                ])
            } else {
                Plan::Skip
            }
        } else {
            Plan::Skip
        }
    } else {
        Plan::Skip
    }
}

/// A condition that is always false.
pub open spec fn plan_branch_never<'a>(
    cx: Cx<'a>,
    cond: &'a Expr,
    true_slot: Option<u32>,
    false_slot: Option<u32>,
) -> Plan<'a> {
    if let Some(v) = cx.env.const_of(cond) {
        if v == 0 {
            if let Some(slot) = false_slot {
                Plan::Emit(seq![Step::Goto(slot)])
            } else {
                Plan::Skip
            }
        } else {
            Plan::Skip
        }
    } else {
        Plan::Skip
    }
}

/// A condition that is always true; without a target it falls through.
pub open spec fn plan_branch_always<'a>(
    cx: Cx<'a>,
    cond: &'a Expr,
    true_slot: Option<u32>,
    false_slot: Option<u32>,
) -> Plan<'a> {
    if let Some(v) = cx.env.const_of(cond) {
        if v != 0 {
            match true_slot {
                Some(slot) => {
                    Plan::Emit(seq![Step::Goto(slot)])
                },
                None => {
                    Plan::Emit(seq![])
                },
            }
        } else {
            Plan::Skip
        }
    } else {
        Plan::Skip
    }
}

/// What lies under the negations of an expression, and whether their number
/// is odd.
pub open spec fn spec_under_nots<'a>(e: &'a Expr) -> (&'a Expr, bool)
    decreases e,
{
    match &e.kind {
        ExprKind::Unary { op: UnaryOp::Not, operand } => {
            let inner = spec_under_nots(&**operand);
            (inner.0, !inner.1)
        },
        _ => (e, false),
    }
}

/// What lies under the negations of an expression, and whether their number
/// is odd.
#[verifier::when_used_as_spec(spec_under_nots)]
pub fn under_nots<'a>(e: &'a Expr) -> (r: (&'a Expr, bool))
    ensures
        r == spec_under_nots(e),
    decreases e,
{
    match &e.kind {
        ExprKind::Unary { op: UnaryOp::Not, operand } => {
            let inner: (&'a Expr, bool) = under_nots(&**operand);
            (inner.0, !inner.1)
        },
        _ => (e, false),
    }
}

/// Whether an expression names an array.
#[verifier::allow_in_spec]
pub fn names_array(env: &Env, e: &Expr) -> bool
    returns
        (match &e.kind {
            ExprKind::Ident(name) => env.global_elem(name).is_some() || env.local_elem(name).is_some(),
            _ => false,
        }),
{
    match &e.kind {
        ExprKind::Ident(name) => env.global_elem(name).is_some() || env.local_elem(name).is_some(),
        _ => false,
    }
}

/// An array negated an odd number of times: its address is never zero.
pub open spec fn plan_branch_not_array<'a>(
    cx: Cx<'a>,
    cond: &'a Expr,
    true_slot: Option<u32>,
    false_slot: Option<u32>,
) -> Plan<'a> {
    if under_nots(cond).1 {
        if names_array(cx.env, under_nots(cond).0) {
            if let Some(slot) = false_slot {
                Plan::Emit(seq![Step::Goto(slot)])
            } else {
                Plan::Skip
            }
        } else {
            Plan::Skip
        }
    } else {
        Plan::Skip
    }
}

/// A 32-bit integer ordered against an `int`: the `int` is widened and
/// stands on the left.
pub open spec fn plan_branch_long_int<'a>(
    cx: Cx<'a>,
    cond: &'a Expr,
    true_slot: Option<u32>,
    false_slot: Option<u32>,
) -> Plan<'a> {
    if cx.env.is_long_vs_int_cmp(cond) {
        if let ExprKind::BinOp { op, left, right } = &cond.kind {
            if let ExprKind::Ident(g) = &left.kind {
                if let ExprKind::Ident(i) = &right.kind {
                    if let (Some(yes), Some(no)) = (true_slot, false_slot) {
                        let jumps = long_jumps( flipped(*op), cx.env.is_unsigned_global(g) || cx.env.is_unsigned_global(i));
                        Plan::Emit(seq![
                            mov(ax(), word(global(i))),
                            cwd(),
                            compare(dx(), word(global2(g))),
                            jump(jumps.0, no),
                            jump(jumps.1, yes),
                            compare(ax(), word(global(g))),
                            jump(jumps.2, no),
                        ])
                    } else {
                        Plan::Skip
                    }
                } else {
                    Plan::Skip
                }
            } else {
                Plan::Skip
            }
        } else {
            Plan::Skip
        }
    } else {
        Plan::Skip
    }
}

/// A 32-bit integer that differs from an `int`.
pub open spec fn plan_branch_long_int_ne<'a>(
    cx: Cx<'a>,
    cond: &'a Expr,
    true_slot: Option<u32>,
    false_slot: Option<u32>,
) -> Plan<'a> {
    if cx.env.is_long_vs_int_ne(cond) {
        if let ExprKind::BinOp { op: _, left, right } = &cond.kind {
            if let ExprKind::Ident(g) = &left.kind {
                if let ExprKind::Ident(i) = &right.kind {
                    if let (Some(yes), Some(no)) = (true_slot, false_slot) {
                        Plan::Emit(seq![
                            mov(ax(), word(global(i))),
                            cwd(),
                            compare(dx(), word(global2(g))),
                            jump(Jcc::Jne, yes),
                            compare(ax(), word(global(g))),
                            jump(Jcc::Je, no),
                        ])
                    } else {
                        Plan::Skip
                    }
                } else {
                    Plan::Skip
                }
            } else {
                Plan::Skip
            }
        } else {
            Plan::Skip
        }
    } else {
        Plan::Skip
    }
}

/// The low halves of two pairs, after the high halves were compared: unequal
/// halves settle the matter. A difference that is to fall through needs a
/// label of its own.
pub open spec fn plan_equality_by_halves<'a>(
    cx: Cx<'a>,
    cond: &'a Expr,
    op: BinOp,
    low: Addr<'a>,
    true_slot: Option<u32>,
    no: u32,
) -> Plan<'a> {
    if op == BinOp::Eq {
        Plan::Emit(seq![
            jump(Jcc::Jne, no),
            compare(dx(), word(low)),
            jump(Jcc::Jne, no),
        ])
    } else {
        match true_slot {
            Some(yes) => {
                Plan::Emit(seq![
                    jump(Jcc::Jne, yes),
                    compare(dx(), word(low)),
                    jump(Jcc::Je, no),
                ])
            },
            None => {
                if let Some(here) = cx.env.facts(cond).label_base {
                    Plan::Emit(seq![
                        jump(Jcc::Jne, here),
                        compare(dx(), word(low)),
                        jump(Jcc::Je, no),
                        Step::Label(here),
                    ])
                } else {
                    Plan::Stuck
                }
            },
        }
    }
}

/// Two far pointers compared for equality, the segments first.
pub open spec fn plan_branch_far<'a>(
    cx: Cx<'a>,
    cond: &'a Expr,
    true_slot: Option<u32>,
    false_slot: Option<u32>,
) -> Plan<'a> {
    if let ExprKind::BinOp { op, left, right } = &cond.kind {
        if is_equality(*op) {
            if let Some(a) = cx.env.facts(&**left).far_offset {
                if let Some(b) = cx.env.facts(&**right).far_offset {
                    if let Some(no) = false_slot {
                        crate::codegen::assign_global::plan_load_halves(cx, bp2(a), bp(a)).followed_by(
                            Plan::Emit(seq![compare(ax(), word(bp2(b)))]),
                        ).followed_by(
                            plan_equality_by_halves(cx, cond, *op, bp(b), true_slot, no),
                        )
                    } else {
                        Plan::Skip
                    }
                } else {
                    Plan::Skip
                }
            } else {
                Plan::Skip
            }
        } else {
            Plan::Skip
        }
    } else {
        Plan::Skip
    }
}

/// Two 32-bit variables compared for equality, the high halves first.
pub open spec fn plan_branch_long_equal<'a>(
    cx: Cx<'a>,
    cond: &'a Expr,
    true_slot: Option<u32>,
    false_slot: Option<u32>,
) -> Plan<'a> {
    if let ExprKind::BinOp { op, left, right } = &cond.kind {
        if is_equality(*op) {
            if let Some((a_hi, a_lo)) = &cx.env.facts(&**left).long_addrs {
                if let Some((b_hi, b_lo)) = &cx.env.facts(&**right).long_addrs {
                    if let Some(no) = false_slot {
                        crate::codegen::assign_global::plan_load_halves(cx, named(a_hi), named(a_lo)).followed_by(
                            Plan::Emit(seq![compare(ax(), word(named(b_hi)))]),
                        ).followed_by(
                            plan_equality_by_halves(cx, cond, *op, named(b_lo), true_slot, no),
                        )
                    } else {
                        Plan::Skip
                    }
                } else {
                    Plan::Skip
                }
            } else {
                Plan::Skip
            }
        } else {
            Plan::Skip
        }
    } else {
        Plan::Skip
    }
}

/// Two 32-bit variables ordered: the high halves settle it unless they are
/// equal, and the low halves compare without sign.
pub open spec fn plan_branch_long_order<'a>(
    cx: Cx<'a>,
    cond: &'a Expr,
    true_slot: Option<u32>,
    false_slot: Option<u32>,
) -> Plan<'a> {
    if cx.env.is_long_signed_globals_cmp(cond) {
        if let ExprKind::BinOp { op, left, right } = &cond.kind {
            if let ExprKind::Ident(a) = &left.kind {
                if let ExprKind::Ident(b) = &right.kind {
                    if let (Some(yes), Some(no)) = (true_slot, false_slot) {
                        if let Some((a_lo, a_hi)) = cx.env.long_halves_of(a) {
                            if let Some((b_lo, b_hi)) = cx.env.long_halves_of(b) {
                                let jumps = long_jumps(*op, cx.env.facts(cond).unsigned_compare);
                                crate::codegen::assign_global::plan_load_halves(cx, a_hi, a_lo).followed_by(
                                    Plan::Emit(seq![
                                        compare(ax(), word(b_hi)),
                                        jump(jumps.0, no),
                                        jump(jumps.1, yes),
                                        compare(dx(), word(b_lo)),
                                        jump(jumps.2, no),
                                    ]),
                                )
                            } else {
                                Plan::Stuck
                            }
                        } else {
                            Plan::Stuck
                        }
                    } else {
                        Plan::Skip
                    }
                } else {
                    Plan::Skip
                }
            } else {
                Plan::Skip
            }
        } else {
            Plan::Skip
        }
    } else {
        Plan::Skip
    }
}

/// A 32-bit variable ordered against a constant.
pub open spec fn plan_branch_long_const<'a>(
    cx: Cx<'a>,
    cond: &'a Expr,
    true_slot: Option<u32>,
    false_slot: Option<u32>,
) -> Plan<'a> {
    if cx.env.is_long_signed_const_cmp(cond) {
        if let ExprKind::BinOp { op, left, right } = &cond.kind {
            if let ExprKind::Ident(name) = &left.kind {
                if let Some(k) = cx.env.const_of(&**right) {
                    if let (Some(yes), Some(no)) = (true_slot, false_slot) {
                        if let Some(ty) = cx.env.var_type(name) {
                            if let Some((lo, hi)) = cx.env.long_halves_of(name) {
                                let jumps = long_jumps(*op, ty.is_unsigned());
                                Plan::Emit(seq![
                                    compare(word(hi), imm(hi16(k))),
                                    jump(jumps.0, no),
                                    jump(jumps.1, yes),
                                    compare(word(lo), imm(lo16(k))),
                                    jump(jumps.2, no),
                                ])
                            } else {
                                Plan::Stuck
                            }
                        } else {
                            Plan::Stuck
                        }
                    } else {
                        Plan::Skip
                    }
                } else {
                    Plan::Skip
                }
            } else {
                Plan::Skip
            }
        } else {
            Plan::Skip
        }
    } else {
        Plan::Skip
    }
}

/// A 32-bit file-scope variable that differs from a constant.
pub open spec fn plan_branch_long_ne_const<'a>(
    cx: Cx<'a>,
    cond: &'a Expr,
    true_slot: Option<u32>,
    false_slot: Option<u32>,
) -> Plan<'a> {
    if cx.env.is_long_ne_const(cond) {
        if let ExprKind::BinOp { op: BinOp::Ne, left, right } = &cond.kind {
            if let ExprKind::Ident(name) = &left.kind {
                if let Some(k) = cx.env.const_of(&**right) {
                    if let (Some(yes), Some(no)) = (true_slot, false_slot) {
                        Plan::Emit(seq![
                            compare(word(global2(name)), imm(hi16(k))),
                            jump(Jcc::Jne, yes),
                            compare(word(global(name)), imm(lo16(k))),
                            jump(Jcc::Je, no),
                        ])
                    } else {
                        Plan::Skip
                    }
                } else {
                    Plan::Skip
                }
            } else {
                Plan::Skip
            }
        } else {
            Plan::Skip
        }
    } else {
        Plan::Skip
    }
}

/// A 32-bit file-scope variable equal to a constant.
pub open spec fn plan_branch_long_eq_const<'a>(
    cx: Cx<'a>,
    cond: &'a Expr,
    true_slot: Option<u32>,
    false_slot: Option<u32>,
) -> Plan<'a> {
    if let ExprKind::BinOp { op: BinOp::Eq, left, right } = &cond.kind {
        if let ExprKind::Ident(name) = &left.kind {
            if cx.env.is_long_global(name) {
                if let Some(k) = cx.env.const_of(&**right) {
                    if k != 0 && true_slot.is_none() {
                        if let Some(no) = false_slot {
                            if fits_i8(hi16(k)) && fits_i8(lo16(k)) {
                                Plan::Emit(seq![
                                    compare(word(global2(name)), imm(hi16(k))),
                                    jump(Jcc::Jne, no),
                                    compare(word(global(name)), imm(lo16(k))),
                                    jump(Jcc::Jne, no),
                                ])
                            } else {
                                Plan::Skip
                            }
                        } else {
                            Plan::Skip
                        }
                    } else {
                        Plan::Skip
                    }
                } else {
                    Plan::Skip
                }
            } else {
                Plan::Skip
            }
        } else {
            Plan::Skip
        }
    } else {
        Plan::Skip
    }
}

/// The conditions that have a branch of their own.
pub open spec fn plan_branch_special<'a>(
    cx: Cx<'a>,
    cond: &'a Expr,
    true_slot: Option<u32>,
    false_slot: Option<u32>,
) -> Plan<'a> {
    match plan_branch_flags(cx, cond, true_slot, false_slot) {
        Plan::Skip => {
            match plan_branch_pseudo(cx, cond, true_slot, false_slot) {
                Plan::Skip => {
                    match plan_branch_frame_char(cx, cond, true_slot, false_slot) {
                        Plan::Skip => {
                            match plan_branch_float(cx, cond, true_slot, false_slot) {
                                Plan::Skip => {
                                    match plan_branch_never(cx, cond, true_slot, false_slot) {
                                        Plan::Skip => {
                                            match plan_branch_always(cx, cond, true_slot, false_slot) {
                                                Plan::Skip => {
                                                    match plan_branch_not_array(cx, cond, true_slot, false_slot) {
                                                        Plan::Skip => {
                                                            match plan_branch_long_int(cx, cond, true_slot, false_slot) {
                                                                Plan::Skip => {
                                                                    match plan_branch_long_int_ne(cx, cond, true_slot, false_slot) {
                                                                        Plan::Skip => {
                                                                            match plan_branch_far(cx, cond, true_slot, false_slot) {
                                                                                Plan::Skip => {
                                                                                    match plan_branch_long_equal(cx, cond, true_slot, false_slot) {
                                                                                        Plan::Skip => {
                                                                                            match plan_branch_long_order(cx, cond, true_slot, false_slot) {
                                                                                                Plan::Skip => {
                                                                                                    match plan_branch_long_const(cx, cond, true_slot, false_slot) {
                                                                                                        Plan::Skip => {
                                                                                                            match plan_branch_long_ne_const(cx, cond, true_slot, false_slot) {
                                                                                                                Plan::Skip => {
                                                                                                                    plan_branch_long_eq_const(cx, cond, true_slot, false_slot)
                                                                                                                },
                                                                                                                taken => taken,
                                                                                                            }
                                                                                                        },
                                                                                                        taken => taken,
                                                                                                    }
                                                                                                },
                                                                                                taken => taken,
                                                                                            }
                                                                                        },
                                                                                        taken => taken,
                                                                                    }
                                                                                },
                                                                                taken => taken,
                                                                            }
                                                                        },
                                                                        taken => taken,
                                                                    }
                                                                },
                                                                taken => taken,
                                                            }
                                                        },
                                                        taken => taken,
                                                    }
                                                },
                                                taken => taken,
                                            }
                                        },
                                        taken => taken,
                                    }
                                },
                                taken => taken,
                            }
                        },
                        taken => taken,
                    }
                },
                taken => taken,
            }
        },
        taken => taken,
    }
}

/// The jumps that tell whether a comparison holds.
#[verifier::allow_in_spec]
pub fn test_for(op: BinOp, unsigned: bool) -> Test
    returns
        (match (jcc_if_true(op, unsigned), jcc_if_false(op, unsigned)) {
            (Some(yes), Some(no)) => Test { yes, no, mirror: false },
            _ => Test { yes: Jcc::Jne, no: Jcc::Je, mirror: false },
        }),
{
    match (jcc_if_true(op, unsigned), jcc_if_false(op, unsigned)) {
        (Some(yes), Some(no)) => Test { yes, no, mirror: false },
        _ => Test { yes: Jcc::Jne, no: Jcc::Je, mirror: false },
    }
}

/// The jumps that tell whether a value is not zero.
#[verifier::allow_in_spec]
pub fn nonzero() -> Test
    returns
        (Test { yes: Jcc::Jne, no: Jcc::Je, mirror: false }),
{
    Test { yes: Jcc::Jne, no: Jcc::Je, mirror: false }
}

/// The same test with its outcomes exchanged.
#[verifier::allow_in_spec]
pub fn negated(t: Test) -> Test
    returns
        (Test { yes: t.no, no: t.yes, mirror: t.mirror }),
{
    Test { yes: t.no, no: t.yes, mirror: t.mirror }
}

/// The jump to a target behind a test.
#[verifier::allow_in_spec]
pub fn jump_after<'a>(t: Test, jcc: Jcc, slot: u32) -> Step<'a>
    returns
        (if t.mirror { Step::JumpMirrored(jcc, slot) } else { Step::Jump(jcc, slot) }),
{
    if t.mirror { Step::JumpMirrored(jcc, slot) } else { Step::Jump(jcc, slot) }
}

/// `!c` for a character on the stack, which is widened.
pub open spec fn plan_test_not_char<'a>(cx: Cx<'a>, operand: &'a Expr) -> Probe<'a> {
    if let ExprKind::Ident(name) = &operand.kind {
        if cx.env.is_char_local(name) {
            if let Some(off) = cx.env.stack_of(name) {
                Probe::Emit(seq![
                    mov(al(), byte(bp(off))),
                    widen(cx.env.is_unsigned_local(name)),
                    or_to(ax(), ax()),
                ], negated(nonzero()))
            } else {
                Probe::Skip
            }
        } else {
            Probe::Skip
        }
    } else {
        Probe::Skip
    }
}

/// `g & k` at file scope.
pub open spec fn plan_test_mask_global<'a>(cx: Cx<'a>, cond: &'a Expr) -> Probe<'a> {
    if let ExprKind::BinOp { op: BinOp::BitAnd, left, right } = &cond.kind {
        if let ExprKind::Ident(name) = &left.kind {
            if let Some(gty) = cx.env.global_type(name) {
                if is_plain_int(gty) {
                    if let Some(k) = cx.env.const_of(&**right) {
                        Probe::Emit(seq![op2(Mnemonic::Test, word(global(name)), imm(lo16(k)))], nonzero())
                    } else {
                        Probe::Skip
                    }
                } else {
                    Probe::Skip
                }
            } else {
                Probe::Skip
            }
        } else {
            Probe::Skip
        }
    } else {
        Probe::Skip
    }
}

/// `x & k` on the stack.
pub open spec fn plan_test_mask_local<'a>(cx: Cx<'a>, cond: &'a Expr) -> Probe<'a> {
    if let ExprKind::BinOp { op: BinOp::BitAnd, left, right } = &cond.kind {
        if let ExprKind::Ident(name) = &left.kind {
            if cx.env.is_int_local(name) {
                if let Some(off) = cx.env.stack_of(name) {
                    if let Some(k) = cx.env.const_of(&**right) {
                        Probe::Emit(seq![op2(Mnemonic::Test, word(bp(off)), imm(lo16(k)))], nonzero())
                    } else {
                        Probe::Skip
                    }
                } else {
                    Probe::Skip
                }
            } else {
                Probe::Skip
            }
        } else {
            Probe::Skip
        }
    } else {
        Probe::Skip
    }
}

/// Whether an expression is the constant zero.
#[verifier::allow_in_spec]
pub fn is_zero(env: &Env, e: &Expr) -> bool
    returns
        (match env.const_of(e) {
            Some(v) => v == 0,
            None => false,
        }),
{
    match env.const_of(e) {
        Some(v) => v == 0,
        None => false,
    }
}

/// `(x & y) == 0` and `!= 0` with both on the stack.
pub open spec fn plan_test_two_locals<'a>(cx: Cx<'a>, cond: &'a Expr) -> Probe<'a> {
    if let ExprKind::BinOp { op, left: outer, right: zero } = &cond.kind {
        if is_equality(*op) && is_zero(cx.env, &**zero) {
            if let ExprKind::BinOp { op: BinOp::BitAnd, left, right } = &outer.kind {
                if let ExprKind::Ident(a) = &left.kind {
                    if let ExprKind::Ident(b) = &right.kind {
                        if cx.env.is_int_local(a) && cx.env.is_int_local(b) {
                            if let Some(a_off) = cx.env.stack_of(a) {
                                if let Some(b_off) = cx.env.stack_of(b) {
                                    Probe::Emit(seq![
                                        mov(ax(), word(bp(b_off))),
                                        op2(Mnemonic::Test, word(bp(a_off)), ax()),
                                    ], test_for(*op, false))
                                } else {
                                    Probe::Skip
                                }
                            } else {
                                Probe::Skip
                            }
                        } else {
                            Probe::Skip
                        }
                    } else {
                        Probe::Skip
                    }
                } else {
                    Probe::Skip
                }
            } else {
                Probe::Skip
            }
        } else {
            Probe::Skip
        }
    } else {
        Probe::Skip
    }
}

/// `(x & k) == 0` and `!= 0`.
pub open spec fn plan_test_mask_zero<'a>(cx: Cx<'a>, cond: &'a Expr) -> Probe<'a> {
    if let ExprKind::BinOp { op, left: outer, right: zero } = &cond.kind {
        if is_equality(*op) && is_zero(cx.env, &**zero) {
            if let ExprKind::BinOp { op: BinOp::BitAnd, left, right } = &outer.kind {
                if let ExprKind::Ident(name) = &left.kind {
                    if let Some(k) = cx.env.const_of(&**right) {
                        if is_int_like_global(cx.env, name) {
                            Probe::Emit(seq![op2(Mnemonic::Test, word(global(name)), imm(lo16(k)))], test_for(*op, false))
                        } else {
                            if cx.env.is_int_local(name) {
                                if let Some(off) = cx.env.stack_of(name) {
                                    Probe::Emit(seq![op2(Mnemonic::Test, word(bp(off)), imm(lo16(k)))], test_for(*op, false))
                                } else {
                                    Probe::Skip
                                }
                            } else {
                                Probe::Skip
                            }
                        }
                    } else {
                        Probe::Skip
                    }
                } else {
                    Probe::Skip
                }
            } else {
                Probe::Skip
            }
        } else {
            Probe::Skip
        }
    } else {
        Probe::Skip
    }
}

/// Whether a file-scope variable is a 16-bit integer or pointer.
#[verifier::allow_in_spec]
pub fn is_int_like_global(env: &Env, name: &String) -> bool
    returns
        (match env.global_type(name) {
            Some(t) => t.is_int_like(),
            None => false,
        }),
{
    match env.global_type(name) {
        Some(t) => t.is_int_like(),
        None => false,
    }
}

/// A 32-bit file-scope variable against zero: both halves are joined.
pub open spec fn plan_test_long_global_zero<'a>(cx: Cx<'a>, cond: &'a Expr) -> Probe<'a> {
    if let ExprKind::BinOp { op, left, right } = &cond.kind {
        if is_equality(*op) {
            if let ExprKind::Ident(name) = &left.kind {
                if cx.env.is_long_global(name) && is_zero(cx.env, &**right) {
                    Probe::Emit(seq![
                        mov(ax(), word(global(name))),
                        or_to(ax(), word(global2(name))),
                    ], test_for(*op, false))
                } else {
                    Probe::Skip
                }
            } else {
                Probe::Skip
            }
        } else {
            Probe::Skip
        }
    } else {
        Probe::Skip
    }
}

/// A 32-bit local variable against zero.
pub open spec fn plan_test_long_local_zero<'a>(cx: Cx<'a>, cond: &'a Expr) -> Probe<'a> {
    if let ExprKind::BinOp { op, left, right } = &cond.kind {
        if is_equality(*op) {
            if let ExprKind::Ident(name) = &left.kind {
                if cx.env.is_long_local(name) && is_zero(cx.env, &**right) {
                    if let Some(off) = cx.env.stack_of(name) {
                        Probe::Emit(seq![
                            mov(ax(), word(bp(off))),
                            or_to(ax(), word(bp2(off))),
                        ], test_for(*op, false))
                    } else {
                        Probe::Stuck
                    }
                } else {
                    Probe::Skip
                }
            } else {
                Probe::Skip
            }
        } else {
            Probe::Skip
        }
    } else {
        Probe::Skip
    }
}

/// Arithmetic against zero: the operation has set the flags.
pub open spec fn plan_test_arith_zero<'a>(
    cx: Cx<'a>,
    cond: &'a Expr,
    op: BinOp,
    left: &'a Expr,
    right: &'a Expr,
) -> Probe<'a> {
    if is_zero(cx.env, right) {
        if let ExprKind::BinOp { op: inner, left: _, right: _ } = &left.kind {
            if is_direct(*inner) {
                Probe::Emit(seq![to_ax(cx, left)], test_for(op, cx.env.facts(cond).unsigned_compare))
            } else {
                Probe::Skip
            }
        } else {
            Probe::Skip
        }
    } else {
        Probe::Skip
    }
}

/// `++i` or `--i` of a register against zero.
pub open spec fn plan_test_update_zero<'a>(
    cx: Cx<'a>,
    cond: &'a Expr,
    op: BinOp,
    left: &'a Expr,
    right: &'a Expr,
) -> Probe<'a> {
    if is_zero(cx.env, right) {
        if let ExprKind::Update { target, op: up, position: UpdatePosition::Pre } = &left.kind {
            if let Some(reg) = cx.env.reg_of(target) {
                if cx.env.is_int_local(target) {
                    Probe::Emit(seq![op1(update(*up), r(reg))], test_for(op, cx.env.facts(cond).unsigned_compare))
                } else {
                    Probe::Skip
                }
            } else {
                Probe::Skip
            }
        } else {
            Probe::Skip
        }
    } else {
        Probe::Skip
    }
}

/// A constant on the left changes places with the right side.
pub open spec fn plan_test_const_left<'a>(
    cx: Cx<'a>,
    cond: &'a Expr,
    op: BinOp,
    left: &'a Expr,
    right: &'a Expr,
) -> Probe<'a> {
    if cx.env.const_of(left).is_some() && cx.env.const_of(right).is_none() {
        Probe::Emit(seq![Step::Compare(right, left)], test_for(flipped(op), cx.env.facts(cond).unsigned_compare))
    } else {
        Probe::Skip
    }
}

/// A call on the right is made first and compared with the left side.
pub open spec fn plan_test_call_right<'a>(
    cx: Cx<'a>,
    cond: &'a Expr,
    op: BinOp,
    left: &'a Expr,
    right: &'a Expr,
) -> Probe<'a> {
    if let ExprKind::Call { name, args } = &right.kind {
        if let Some(ret) = cx.env.ret_ty_of(name) {
            if ret.is_int_like() {
                if let Some(addr) = &cx.env.facts(left).int_addr {
                    Probe::Emit(seq![
                        Step::CallFn(name, args),
                        compare(ax(), word(named(addr))),
                    ], test_for(flipped(op), cx.env.facts(cond).unsigned_compare))
                } else {
                    Probe::Skip
                }
            } else {
                Probe::Skip
            }
        } else {
            Probe::Skip
        }
    } else {
        Probe::Skip
    }
}

/// A character is loaded and widened before it is compared with an integer
/// in memory.
pub open spec fn plan_int_vs_char<'a>(
    cx: Cx<'a>,
    small: &'a Chain,
    large: &'a Chain,
) -> Plan<'a> {
    if let Some(small_addr) = cx.env.resolve_chain_addr(&small.name, small.off) {
        if let Some(large_addr) = cx.env.resolve_chain_addr(&large.name, large.off) {
            Plan::Emit(seq![
                mov(al(), byte(small_addr)),
                widen(small.ty.is_unsigned()),
                compare(ax(), word(large_addr)),
            ])
        } else {
            Plan::Skip
        }
    } else {
        Plan::Skip
    }
}

/// Compares a character and an integer, both in memory, for equality,
/// whichever stands on the left.
pub open spec fn plan_emit_int_vs_char_cmp<'a>(
    cx: Cx<'a>,
    left: &'a Expr,
    right: &'a Expr,
) -> Plan<'a> {
    if let Some(a) = &cx.env.facts(left).chain {
        if let Some(b) = &cx.env.facts(right).chain {
            if a.ty.is_char_like() != b.ty.is_char_like() {
                if is_small_int(&a.ty) && is_small_int(&b.ty) {
                    if a.ty.is_char_like() {
                        plan_int_vs_char(cx, a, b)
                    } else {
                        plan_int_vs_char(cx, b, a)
                    }
                } else {
                    Plan::Skip
                }
            } else {
                Plan::Skip
            }
        } else {
            Plan::Skip
        }
    } else {
        Plan::Skip
    }
}

/// A character and an integer in memory compared for equality.
pub open spec fn plan_test_int_char<'a>(
    cx: Cx<'a>,
    cond: &'a Expr,
    op: BinOp,
    left: &'a Expr,
    right: &'a Expr,
) -> Probe<'a> {
    if is_equality(op) {
        match plan_emit_int_vs_char_cmp(cx, left, right) {
            Plan::Skip => Probe::Skip,
            Plan::Stuck => Probe::Stuck,
            Plan::Emit(steps) => Probe::Emit(
                steps,
                test_for(op, cx.env.facts(cond).unsigned_compare),
            ),
        }
    } else {
        Probe::Skip
    }
}

/// An element behind a local pointer against zero.
pub open spec fn plan_test_pointer_elem<'a>(
    cx: Cx<'a>,
    op: BinOp,
    left: &'a Expr,
    right: &'a Expr,
) -> Probe<'a> {
    if is_equality(op) && is_zero(cx.env, right) {
        if let ExprKind::ArrayIndex { array, index } = &left.kind {
            if let ExprKind::Ident(name) = &array.kind {
                if let Some(l) = cx.env.local(name) {
                    if let Some(t) = l.ty.pointee() {
                        Plan::Emit(seq![to_ax(cx, &**index)]).followed_by(
                            Plan::Emit(shl1(ax()).times(halvings((t.size() as u16) as u32) as nat)),
                        ).followed_by(
                            match l.loc {
                                LocalLocation::Reg(reg) => {
                                    Plan::Emit(seq![
                                        add_to(ax(), r(reg)),
                                        mov(bx(), ax()),
                                    ])
                                },
                                LocalLocation::Stack(off) => {
                                    Plan::Emit(seq![
                                        mov(bx(), word(bp(off))),
                                        add_to(bx(), ax()),
                                    ])
                                },
                            },
                        ).followed_by_test(
                            Probe::Emit(seq![compare(sized(t.is_char_like(), at(Reg::Bx)), imm(0))], test_for(op, false)),
                        )
                    } else {
                        Probe::Skip
                    }
                } else {
                    Probe::Skip
                }
            } else {
                Probe::Skip
            }
        } else {
            Probe::Skip
        }
    } else {
        Probe::Skip
    }
}

/// An element of a file-scope array against zero.
pub open spec fn plan_test_global_elem<'a>(
    cx: Cx<'a>,
    op: BinOp,
    left: &'a Expr,
    right: &'a Expr,
) -> Probe<'a> {
    if is_equality(op) && is_zero(cx.env, right) {
        if let ExprKind::ArrayIndex { array, index } = &left.kind {
            if let ExprKind::Ident(name) = &array.kind {
                if let Some(t) = cx.env.global_elem(name) {
                    (match cx.env.const_of(&**index) {
                        Some(k) => {
                            Plan::Emit(seq![
                                compare( sized(t.is_char_like(), global_at(name, disp(scaled(k, (t.size() as u16))))), imm(0)),
                            ])
                        },
                        None => {
                            crate::codegen::array_addr::plan_emit_index_into_bx(cx, &**index, t).followed_by(
                                Plan::Emit(seq![
                                    compare(sized(t.is_char_like(), elem(name, Reg::Bx)), imm(0)),
                                ]),
                            )
                        },
                    }).followed_by_test(Probe::Emit(seq![], test_for(op, false)))
                } else {
                    Probe::Skip
                }
            } else {
                Probe::Skip
            }
        } else {
            Probe::Skip
        }
    } else {
        Probe::Skip
    }
}

/// A comparison.
pub open spec fn plan_test_comparison<'a>(cx: Cx<'a>, cond: &'a Expr) -> Probe<'a> {
    if let ExprKind::BinOp { op, left, right } = &cond.kind {
        if op.is_comparison() {
            match plan_test_arith_zero(cx, cond, *op, &**left, &**right) {
                Probe::Skip => match plan_test_update_zero(cx, cond, *op, &**left, &**right) {
                    Probe::Skip => match plan_test_const_left(cx, cond, *op, &**left, &**right) {
                        Probe::Skip => plan_test_operands(cx, cond, *op, &**left, &**right),
                        taken => taken,
                    },
                    taken => taken,
                },
                taken => taken,
            }
        } else {
            Probe::Skip
        }
    } else {
        Probe::Skip
    }
}

/// A comparison of two operands, neither of which is a rule of its own. In
/// the general case the operands may change places.
pub open spec fn plan_test_operands<'a>(
    cx: Cx<'a>,
    cond: &'a Expr,
    op: BinOp,
    left: &'a Expr,
    right: &'a Expr,
) -> Probe<'a> {
    match plan_test_call_right(cx, cond, op, left, right) {
        Probe::Skip => match plan_test_int_char(cx, cond, op, left, right) {
            Probe::Skip => match plan_test_pointer_elem(cx, op, left, right) {
                Probe::Skip => match plan_test_global_elem(cx, op, left, right) {
                    Probe::Skip => {
                        let t = test_for(op, cx.env.facts(cond).unsigned_compare);
                        Probe::Emit(
                            seq![Step::Compare(left, right)],
                            Test { yes: t.yes, no: t.no, mirror: true },
                        )
                    },
                    taken => taken,
                },
                taken => taken,
            },
            taken => taken,
        },
        taken => taken,
    }
}

/// A 32-bit variable by itself.
pub open spec fn plan_test_long_name<'a>(cx: Cx<'a>, cond: &'a Expr) -> Probe<'a> {
    if let ExprKind::Ident(name) = &cond.kind {
        if cx.env.is_long_global(name) {
            Probe::Emit(seq![
                mov(ax(), word(global(name))),
                or_to(ax(), word(global2(name))),
            ], nonzero())
        } else {
            if cx.env.is_long_local(name) {
                if let Some(off) = cx.env.stack_of(name) {
                    Probe::Emit(seq![
                        mov(ax(), word(bp(off))),
                        or_to(ax(), word(bp2(off))),
                    ], nonzero())
                } else {
                    Probe::Stuck
                }
            } else {
                Probe::Skip
            }
        }
    } else {
        Probe::Skip
    }
}

/// A condition that is no negation.
pub open spec fn plan_test_plain<'a>(cx: Cx<'a>, cond: &'a Expr) -> Probe<'a> {
    match plan_test_mask_global(cx, cond) {
        Probe::Skip => match plan_test_mask_local(cx, cond) {
            Probe::Skip => match plan_test_two_locals(cx, cond) {
                Probe::Skip => match plan_test_mask_zero(cx, cond) {
                    Probe::Skip => plan_test_value(cx, cond),
                    taken => taken,
                },
                taken => taken,
            },
            taken => taken,
        },
        taken => taken,
    }
}

/// A condition that tests no bits. In the general case the value is compared
/// with zero.
pub open spec fn plan_test_value<'a>(cx: Cx<'a>, cond: &'a Expr) -> Probe<'a> {
    match plan_test_long_global_zero(cx, cond) {
        Probe::Skip => match plan_test_long_local_zero(cx, cond) {
            Probe::Skip => match plan_test_comparison(cx, cond) {
                Probe::Skip => match plan_test_long_name(cx, cond) {
                    Probe::Skip => Probe::Emit(seq![Step::ZeroTest(cond)], nonzero()),
                    taken => taken,
                },
                taken => taken,
            },
            taken => taken,
        },
        taken => taken,
    }
}

/// A condition without `&&` or `||`: the steps that set the flags, and the
/// jumps that read them. A negation exchanges the jumps of its operand.
pub open spec fn plan_emit_cond_test<'a>(cx: Cx<'a>, cond: &'a Expr) -> Probe<'a>
    decreases cond,
{
    match &cond.kind {
        ExprKind::Unary { op: UnaryOp::Not, operand } => match plan_test_not_char(cx, &**operand) {
            Probe::Skip => match plan_emit_cond_test(cx, &**operand) {
                Probe::Emit(steps, t) => Probe::Emit(steps, negated(t)),
                other => other,
            },
            taken => taken,
        },
        _ => plan_test_plain(cx, cond),
    }
}

/// The jump behind a test: to the false target if there is one, else to the
/// true target.
pub open spec fn plan_branch_after<'a>(
    t: Test,
    true_slot: Option<u32>,
    false_slot: Option<u32>,
) -> Plan<'a> {
    match (true_slot, false_slot) {
        (_, Some(slot)) => Plan::Emit(seq![jump_after(t, t.no, slot)]),
        (Some(slot), None) => Plan::Emit(seq![jump_after(t, t.yes, slot)]),
        (None, None) => Plan::Stuck,
    }
}

/// A label, if it is needed.
pub open spec fn plan_label<'a>(needed: bool, slot: Option<u32>) -> Plan<'a> {
    match slot {
        Some(s) => Plan::Emit(if needed {
            seq![Step::Label(s)]
        } else {
            seq![]
        }),
        None => Plan::Emit(seq![]),
    }
}

/// The branch on a condition: control goes to `true_slot` if it holds and to
/// `false_slot` if not; a target that is `None` is fallen through to.
///
/// `a && b` leaves for the false target as soon as `a` fails, and `a || b`
/// for the true target as soon as `a` holds. Where that target is the code
/// behind the condition, the operator has a label of its own there.
pub open spec fn plan_emit_cond_branch<'a>(
    cx: Cx<'a>,
    cond: &'a Expr,
    true_slot: Option<u32>,
    false_slot: Option<u32>,
) -> Plan<'a>
    decreases cond,
{
    match plan_branch_special(cx, cond, true_slot, false_slot) {
        Plan::Skip => match &cond.kind {
            ExprKind::Logical { op: LogicalOp::And, left, right } => {
                let own = false_slot.is_none() && true_slot.is_some();
                if own && cx.env.facts(cond).label_base.is_none() {
                    Plan::Stuck
                } else {
                    let out = if own { cx.env.facts(cond).label_base } else { false_slot };
                    plan_emit_cond_branch(cx, &**left, None, out).followed_by(
                        plan_emit_cond_branch(cx, &**right, true_slot, false_slot),
                    ).followed_by(plan_label(own, out))
                }
            },
            ExprKind::Logical { op: LogicalOp::Or, left, right } => {
                let own = true_slot.is_none() && false_slot.is_some();
                if own && cx.env.facts(cond).label_base.is_none() {
                    Plan::Stuck
                } else {
                    let out = if own { cx.env.facts(cond).label_base } else { true_slot };
                    let right_true = if false_slot.is_some() { None } else { true_slot };
                    plan_emit_cond_branch(cx, &**left, out, None).followed_by(
                        plan_emit_cond_branch(cx, &**right, right_true, false_slot),
                    ).followed_by(plan_label(own, out))
                }
            },
            _ => match plan_emit_cond_test(cx, cond) {
                Probe::Emit(steps, t) => Plan::Emit(steps).followed_by(
                    plan_branch_after(t, true_slot, false_slot),
                ),
                _ => Plan::Stuck,
            },
        },
        taken => taken,
    }
}

impl<'a> FunctionEmitter<'a> {
    /// Jumps to whichever targets there are, the true one first.
    pub fn branch_on(
        &mut self,
        yes: Jcc,
        no: Jcc,
        true_slot: Option<u32>,
        false_slot: Option<u32>,
    )
        requires
            old(self).cx.env.wf(),
            plan_branch_on(old(self).cx, yes, no, true_slot, false_slot) is Emit,
        ensures
            final(self).wrote(
                *old(self),
                plan_branch_on(old(self).cx, yes, no, true_slot, false_slot),
            ),
    {
        match true_slot {
            Some(slot) => {
                self.put(jump(yes, slot));
            },
            None => {
            },
        }
        match false_slot {
            Some(slot) => {
                self.put(jump(no, slot));
            },
            None => {
            },
        }
    }

    /// Emits what [`plan_branch_flags`] says, if it applies.
    pub fn try_branch_flags(
        &mut self,
        cond: &'a Expr,
        true_slot: Option<u32>,
        false_slot: Option<u32>,
    ) -> (done: bool)
        requires
            old(self).cx.env.wf(),
            !(plan_branch_flags(old(self).cx, cond, true_slot, false_slot) is Stuck),
        ensures
            final(self).ran(
                *old(self),
                plan_branch_flags(old(self).cx, cond, true_slot, false_slot),
                done,
            ),
    {
        let cx: Cx<'a> = self.cx;
        let Some((clear, set)) = flags_bit_test_mnemonics(cx.env, cond) else { return false; };
        match false_slot {
            Some(slot) => {
                self.put(jump(clear, slot));
            },
            None => {
            },
        }
        match true_slot {
            Some(slot) => {
                self.put(jump(set, slot));
                return true;
            },
            None => {
                return true;
            },
        }
    }

    /// Emits what [`plan_branch_pseudo`] says, if it applies.
    pub fn try_branch_pseudo(
        &mut self,
        cond: &'a Expr,
        true_slot: Option<u32>,
        false_slot: Option<u32>,
    ) -> (done: bool)
        requires
            old(self).cx.env.wf(),
            !(plan_branch_pseudo(old(self).cx, cond, true_slot, false_slot) is Stuck),
        ensures
            final(self).ran(
                *old(self),
                plan_branch_pseudo(old(self).cx, cond, true_slot, false_slot),
                done,
            ),
    {
        let cx: Cx<'a> = self.cx;
        let ExprKind::BinOp { op, left, right } = &cond.kind else { return false; };
        if !is_equality(*op) {
            return false;
        }
        let ExprKind::PseudoReg(name) = &left.kind else { return false; };
        let Some(reg) = cx.env.pseudo(name) else { return false; };
        if !reg.is_byte() {
            return false;
        }
        let Some(k) = cx.env.const_of(&**right) else { return false; };
        self.put(compare(r(reg), imm(lo8(k))));
        self.branch_on(test_for(*op, false).yes, test_for(*op, false).no, true_slot, false_slot);
        true
    }

    /// Emits what [`plan_branch_frame_char`] says, if it applies.
    pub fn try_branch_frame_char(
        &mut self,
        cond: &'a Expr,
        true_slot: Option<u32>,
        false_slot: Option<u32>,
    ) -> (done: bool)
        requires
            old(self).cx.env.wf(),
            !(plan_branch_frame_char(old(self).cx, cond, true_slot, false_slot) is Stuck),
        ensures
            final(self).ran(
                *old(self),
                plan_branch_frame_char(old(self).cx, cond, true_slot, false_slot),
                done,
            ),
    {
        let cx: Cx<'a> = self.cx;
        let ExprKind::BinOp { op, left, right } = &cond.kind else { return false; };
        if !is_equality(*op) {
            return false;
        }
        let ExprKind::IntLit(zero) = &right.kind else { return false; };
        if !(*zero == 0) {
            return false;
        }
        let ExprKind::ArrayIndex { array: _, index } = &left.kind else { return false; };
        let Some(d) = cx.env.facts(&**index).frame_disp else { return false; };
        self.put(compare(byte(Addr::Indexed(Reg::Bp, Reg::Si, signed(d as i64))), imm(0)));
        self.branch_on(test_for(*op, false).yes, test_for(*op, false).no, true_slot, false_slot);
        true
    }

    /// Emits what [`plan_branch_float`] says, if it applies.
    pub fn try_branch_float(
        &mut self,
        cond: &'a Expr,
        true_slot: Option<u32>,
        false_slot: Option<u32>,
    ) -> (done: bool)
        requires
            old(self).cx.env.wf(),
            !(plan_branch_float(old(self).cx, cond, true_slot, false_slot) is Stuck),
        ensures
            final(self).ran(
                *old(self),
                plan_branch_float(old(self).cx, cond, true_slot, false_slot),
                done,
            ),
    {
        let cx: Cx<'a> = self.cx;
        let ExprKind::BinOp { op, left, right } = &cond.kind else { return false; };
        if !op.is_comparison() {
            return false;
        }
        if !(cx.env.facts(&**left).is_float || cx.env.facts(&**right).is_float) {
            return false;
        }
        self.put(Step::FloatBranch(*op, &**left, &**right, true_slot, false_slot));
        true
    }

    /// Emits what [`plan_branch_never`] says, if it applies.
    pub fn try_branch_never(
        &mut self,
        cond: &'a Expr,
        true_slot: Option<u32>,
        false_slot: Option<u32>,
    ) -> (done: bool)
        requires
            old(self).cx.env.wf(),
            !(plan_branch_never(old(self).cx, cond, true_slot, false_slot) is Stuck),
        ensures
            final(self).ran(
                *old(self),
                plan_branch_never(old(self).cx, cond, true_slot, false_slot),
                done,
            ),
    {
        let cx: Cx<'a> = self.cx;
        let Some(v) = cx.env.const_of(cond) else { return false; };
        if !(v == 0) {
            return false;
        }
        let Some(slot) = false_slot else { return false; };
        self.put(Step::Goto(slot));
        true
    }

    /// Emits what [`plan_branch_always`] says, if it applies.
    pub fn try_branch_always(
        &mut self,
        cond: &'a Expr,
        true_slot: Option<u32>,
        false_slot: Option<u32>,
    ) -> (done: bool)
        requires
            old(self).cx.env.wf(),
            !(plan_branch_always(old(self).cx, cond, true_slot, false_slot) is Stuck),
        ensures
            final(self).ran(
                *old(self),
                plan_branch_always(old(self).cx, cond, true_slot, false_slot),
                done,
            ),
    {
        let cx: Cx<'a> = self.cx;
        let Some(v) = cx.env.const_of(cond) else { return false; };
        if !(v != 0) {
            return false;
        }
        match true_slot {
            Some(slot) => {
                self.put(Step::Goto(slot));
                return true;
            },
            None => {
                return true;
            },
        }
    }

    /// Emits what [`plan_branch_not_array`] says, if it applies.
    pub fn try_branch_not_array(
        &mut self,
        cond: &'a Expr,
        true_slot: Option<u32>,
        false_slot: Option<u32>,
    ) -> (done: bool)
        requires
            old(self).cx.env.wf(),
            !(plan_branch_not_array(old(self).cx, cond, true_slot, false_slot) is Stuck),
        ensures
            final(self).ran(
                *old(self),
                plan_branch_not_array(old(self).cx, cond, true_slot, false_slot),
                done,
            ),
    {
        let cx: Cx<'a> = self.cx;
        if !under_nots(cond).1 {
            return false;
        }
        if !(names_array(cx.env, under_nots(cond).0)) {
            return false;
        }
        let Some(slot) = false_slot else { return false; };
        self.put(Step::Goto(slot));
        true
    }

    /// Emits what [`plan_branch_long_int`] says, if it applies.
    pub fn try_branch_long_int(
        &mut self,
        cond: &'a Expr,
        true_slot: Option<u32>,
        false_slot: Option<u32>,
    ) -> (done: bool)
        requires
            old(self).cx.env.wf(),
            !(plan_branch_long_int(old(self).cx, cond, true_slot, false_slot) is Stuck),
        ensures
            final(self).ran(
                *old(self),
                plan_branch_long_int(old(self).cx, cond, true_slot, false_slot),
                done,
            ),
    {
        let cx: Cx<'a> = self.cx;
        if !cx.env.is_long_vs_int_cmp(cond) {
            return false;
        }
        let ExprKind::BinOp { op, left, right } = &cond.kind else { return false; };
        let ExprKind::Ident(g) = &left.kind else { return false; };
        let ExprKind::Ident(i) = &right.kind else { return false; };
        let (Some(yes), Some(no)) = (true_slot, false_slot) else { return false; };
        let jumps: (Jcc, Jcc, Jcc) = long_jumps( flipped(*op), cx.env.is_unsigned_global(g) || cx.env.is_unsigned_global(i));
        self.put(mov(ax(), word(global(i))));
        self.put(cwd());
        self.put(compare(dx(), word(global2(g))));
        self.put(jump(jumps.0, no));
        self.put(jump(jumps.1, yes));
        self.put(compare(ax(), word(global(g))));
        self.put(jump(jumps.2, no));
        true
    }

    /// Emits what [`plan_branch_long_int_ne`] says, if it applies.
    pub fn try_branch_long_int_ne(
        &mut self,
        cond: &'a Expr,
        true_slot: Option<u32>,
        false_slot: Option<u32>,
    ) -> (done: bool)
        requires
            old(self).cx.env.wf(),
            !(plan_branch_long_int_ne(old(self).cx, cond, true_slot, false_slot) is Stuck),
        ensures
            final(self).ran(
                *old(self),
                plan_branch_long_int_ne(old(self).cx, cond, true_slot, false_slot),
                done,
            ),
    {
        let cx: Cx<'a> = self.cx;
        if !cx.env.is_long_vs_int_ne(cond) {
            return false;
        }
        let ExprKind::BinOp { op: _, left, right } = &cond.kind else { return false; };
        let ExprKind::Ident(g) = &left.kind else { return false; };
        let ExprKind::Ident(i) = &right.kind else { return false; };
        let (Some(yes), Some(no)) = (true_slot, false_slot) else { return false; };
        self.put(mov(ax(), word(global(i))));
        self.put(cwd());
        self.put(compare(dx(), word(global2(g))));
        self.put(jump(Jcc::Jne, yes));
        self.put(compare(ax(), word(global(g))));
        self.put(jump(Jcc::Je, no));
        true
    }

    /// The low halves of two pairs, after the high halves were compared: unequal
    /// halves settle the matter. A difference that is to fall through needs a
    /// label of its own.
    pub fn equality_by_halves(
        &mut self,
        cond: &'a Expr,
        op: BinOp,
        low: Addr<'a>,
        true_slot: Option<u32>,
        no: u32,
    )
        requires
            old(self).cx.env.wf(),
            plan_equality_by_halves(old(self).cx, cond, op, low, true_slot, no) is Emit,
        ensures
            final(self).wrote(
                *old(self),
                plan_equality_by_halves(old(self).cx, cond, op, low, true_slot, no),
            ),
    {
        let cx: Cx<'a> = self.cx;
        if op == BinOp::Eq {
            self.put(jump(Jcc::Jne, no));
            self.put(compare(dx(), word(low)));
            self.put(jump(Jcc::Jne, no));
        } else {
            match true_slot {
                Some(yes) => {
                    self.put(jump(Jcc::Jne, yes));
                    self.put(compare(dx(), word(low)));
                    self.put(jump(Jcc::Je, no));
                },
                None => {
                    let Some(here) = cx.env.facts(cond).label_base else { return; };
                    self.put(jump(Jcc::Jne, here));
                    self.put(compare(dx(), word(low)));
                    self.put(jump(Jcc::Je, no));
                    self.put(Step::Label(here));
                },
            }
        }
    }

    /// Emits what [`plan_branch_far`] says, if it applies.
    pub fn try_branch_far(
        &mut self,
        cond: &'a Expr,
        true_slot: Option<u32>,
        false_slot: Option<u32>,
    ) -> (done: bool)
        requires
            old(self).cx.env.wf(),
            !(plan_branch_far(old(self).cx, cond, true_slot, false_slot) is Stuck),
        ensures
            final(self).ran(
                *old(self),
                plan_branch_far(old(self).cx, cond, true_slot, false_slot),
                done,
            ),
    {
        let cx: Cx<'a> = self.cx;
        let ExprKind::BinOp { op, left, right } = &cond.kind else { return false; };
        if !is_equality(*op) {
            return false;
        }
        let Some(a) = cx.env.facts(&**left).far_offset else { return false; };
        let Some(b) = cx.env.facts(&**right).far_offset else { return false; };
        let Some(no) = false_slot else { return false; };
        self.load_halves(bp2(a), bp(a));
        self.put(compare(ax(), word(bp2(b))));
        self.equality_by_halves(cond, *op, bp(b), true_slot, no);
        true
    }

    /// Emits what [`plan_branch_long_equal`] says, if it applies.
    pub fn try_branch_long_equal(
        &mut self,
        cond: &'a Expr,
        true_slot: Option<u32>,
        false_slot: Option<u32>,
    ) -> (done: bool)
        requires
            old(self).cx.env.wf(),
            !(plan_branch_long_equal(old(self).cx, cond, true_slot, false_slot) is Stuck),
        ensures
            final(self).ran(
                *old(self),
                plan_branch_long_equal(old(self).cx, cond, true_slot, false_slot),
                done,
            ),
    {
        let cx: Cx<'a> = self.cx;
        let ExprKind::BinOp { op, left, right } = &cond.kind else { return false; };
        if !is_equality(*op) {
            return false;
        }
        let Some((a_hi, a_lo)) = &cx.env.facts(&**left).long_addrs else { return false; };
        let Some((b_hi, b_lo)) = &cx.env.facts(&**right).long_addrs else { return false; };
        let Some(no) = false_slot else { return false; };
        self.load_halves(named(a_hi), named(a_lo));
        self.put(compare(ax(), word(named(b_hi))));
        self.equality_by_halves(cond, *op, named(b_lo), true_slot, no);
        true
    }

    /// Emits what [`plan_branch_long_order`] says, if it applies.
    pub fn try_branch_long_order(
        &mut self,
        cond: &'a Expr,
        true_slot: Option<u32>,
        false_slot: Option<u32>,
    ) -> (done: bool)
        requires
            old(self).cx.env.wf(),
            !(plan_branch_long_order(old(self).cx, cond, true_slot, false_slot) is Stuck),
        ensures
            final(self).ran(
                *old(self),
                plan_branch_long_order(old(self).cx, cond, true_slot, false_slot),
                done,
            ),
    {
        let cx: Cx<'a> = self.cx;
        if !cx.env.is_long_signed_globals_cmp(cond) {
            return false;
        }
        let ExprKind::BinOp { op, left, right } = &cond.kind else { return false; };
        let ExprKind::Ident(a) = &left.kind else { return false; };
        let ExprKind::Ident(b) = &right.kind else { return false; };
        let (Some(yes), Some(no)) = (true_slot, false_slot) else { return false; };
        let Some((a_lo, a_hi)) = cx.env.long_halves_of(a) else { return false; };
        let Some((b_lo, b_hi)) = cx.env.long_halves_of(b) else { return false; };
        let jumps: (Jcc, Jcc, Jcc) = long_jumps(*op, cx.env.facts(cond).unsigned_compare);
        self.load_halves(a_hi, a_lo);
        self.put(compare(ax(), word(b_hi)));
        self.put(jump(jumps.0, no));
        self.put(jump(jumps.1, yes));
        self.put(compare(dx(), word(b_lo)));
        self.put(jump(jumps.2, no));
        true
    }

    /// Emits what [`plan_branch_long_const`] says, if it applies.
    pub fn try_branch_long_const(
        &mut self,
        cond: &'a Expr,
        true_slot: Option<u32>,
        false_slot: Option<u32>,
    ) -> (done: bool)
        requires
            old(self).cx.env.wf(),
            !(plan_branch_long_const(old(self).cx, cond, true_slot, false_slot) is Stuck),
        ensures
            final(self).ran(
                *old(self),
                plan_branch_long_const(old(self).cx, cond, true_slot, false_slot),
                done,
            ),
    {
        let cx: Cx<'a> = self.cx;
        if !cx.env.is_long_signed_const_cmp(cond) {
            return false;
        }
        let ExprKind::BinOp { op, left, right } = &cond.kind else { return false; };
        let ExprKind::Ident(name) = &left.kind else { return false; };
        let Some(k) = cx.env.const_of(&**right) else { return false; };
        let (Some(yes), Some(no)) = (true_slot, false_slot) else { return false; };
        let Some(ty) = cx.env.var_type(name) else { return false; };
        let Some((lo, hi)) = cx.env.long_halves_of(name) else { return false; };
        let jumps: (Jcc, Jcc, Jcc) = long_jumps(*op, ty.is_unsigned());
        self.put(compare(word(hi), imm(hi16(k))));
        self.put(jump(jumps.0, no));
        self.put(jump(jumps.1, yes));
        self.put(compare(word(lo), imm(lo16(k))));
        self.put(jump(jumps.2, no));
        true
    }

    /// Emits what [`plan_branch_long_ne_const`] says, if it applies.
    pub fn try_branch_long_ne_const(
        &mut self,
        cond: &'a Expr,
        true_slot: Option<u32>,
        false_slot: Option<u32>,
    ) -> (done: bool)
        requires
            old(self).cx.env.wf(),
            !(plan_branch_long_ne_const(old(self).cx, cond, true_slot, false_slot) is Stuck),
        ensures
            final(self).ran(
                *old(self),
                plan_branch_long_ne_const(old(self).cx, cond, true_slot, false_slot),
                done,
            ),
    {
        let cx: Cx<'a> = self.cx;
        if !cx.env.is_long_ne_const(cond) {
            return false;
        }
        let ExprKind::BinOp { op: BinOp::Ne, left, right } = &cond.kind else { return false; };
        let ExprKind::Ident(name) = &left.kind else { return false; };
        let Some(k) = cx.env.const_of(&**right) else { return false; };
        let (Some(yes), Some(no)) = (true_slot, false_slot) else { return false; };
        self.put(compare(word(global2(name)), imm(hi16(k))));
        self.put(jump(Jcc::Jne, yes));
        self.put(compare(word(global(name)), imm(lo16(k))));
        self.put(jump(Jcc::Je, no));
        true
    }

    /// Emits what [`plan_branch_long_eq_const`] says, if it applies.
    pub fn try_branch_long_eq_const(
        &mut self,
        cond: &'a Expr,
        true_slot: Option<u32>,
        false_slot: Option<u32>,
    ) -> (done: bool)
        requires
            old(self).cx.env.wf(),
            !(plan_branch_long_eq_const(old(self).cx, cond, true_slot, false_slot) is Stuck),
        ensures
            final(self).ran(
                *old(self),
                plan_branch_long_eq_const(old(self).cx, cond, true_slot, false_slot),
                done,
            ),
    {
        let cx: Cx<'a> = self.cx;
        let ExprKind::BinOp { op: BinOp::Eq, left, right } = &cond.kind else { return false; };
        let ExprKind::Ident(name) = &left.kind else { return false; };
        if !cx.env.is_long_global(name) {
            return false;
        }
        let Some(k) = cx.env.const_of(&**right) else { return false; };
        if !(k != 0 && true_slot.is_none()) {
            return false;
        }
        let Some(no) = false_slot else { return false; };
        if !(fits_i8(hi16(k)) && fits_i8(lo16(k))) {
            return false;
        }
        self.put(compare(word(global2(name)), imm(hi16(k))));
        self.put(jump(Jcc::Jne, no));
        self.put(compare(word(global(name)), imm(lo16(k))));
        self.put(jump(Jcc::Jne, no));
        true
    }

    /// Emits what [`plan_branch_special`] says, if it applies.
    pub fn try_branch_special(
        &mut self,
        cond: &'a Expr,
        true_slot: Option<u32>,
        false_slot: Option<u32>,
    ) -> (done: bool)
        requires
            old(self).cx.env.wf(),
            !(plan_branch_special(old(self).cx, cond, true_slot, false_slot) is Stuck),
        ensures
            final(self).ran(
                *old(self),
                plan_branch_special(old(self).cx, cond, true_slot, false_slot),
                done,
            ),
    {
        if self.try_branch_flags(cond, true_slot, false_slot) {
            return true;
        }
        if self.try_branch_pseudo(cond, true_slot, false_slot) {
            return true;
        }
        if self.try_branch_frame_char(cond, true_slot, false_slot) {
            return true;
        }
        if self.try_branch_float(cond, true_slot, false_slot) {
            return true;
        }
        if self.try_branch_never(cond, true_slot, false_slot) {
            return true;
        }
        if self.try_branch_always(cond, true_slot, false_slot) {
            return true;
        }
        if self.try_branch_not_array(cond, true_slot, false_slot) {
            return true;
        }
        if self.try_branch_long_int(cond, true_slot, false_slot) {
            return true;
        }
        if self.try_branch_long_int_ne(cond, true_slot, false_slot) {
            return true;
        }
        if self.try_branch_far(cond, true_slot, false_slot) {
            return true;
        }
        if self.try_branch_long_equal(cond, true_slot, false_slot) {
            return true;
        }
        if self.try_branch_long_order(cond, true_slot, false_slot) {
            return true;
        }
        if self.try_branch_long_const(cond, true_slot, false_slot) {
            return true;
        }
        if self.try_branch_long_ne_const(cond, true_slot, false_slot) {
            return true;
        }
        if self.try_branch_long_eq_const(cond, true_slot, false_slot) {
            return true;
        }
        false
    }

    /// Emits what [`plan_test_not_char`] says, if it applies.
    pub fn try_test_not_char(&mut self, operand: &'a Expr) -> (test: Option<Test>)
        requires
            old(self).cx.env.wf(),
            !(plan_test_not_char(old(self).cx, operand) is Stuck),
        ensures
            final(self).probed(*old(self), plan_test_not_char(old(self).cx, operand), test),
    {
        let cx: Cx<'a> = self.cx;
        let ExprKind::Ident(name) = &operand.kind else { return None; };
        if !cx.env.is_char_local(name) {
            return None;
        }
        let Some(off) = cx.env.stack_of(name) else { return None; };
        self.put(mov(al(), byte(bp(off))));
        self.put(widen(cx.env.is_unsigned_local(name)));
        self.put(or_to(ax(), ax()));
        return Some(negated(nonzero()));
    }

    /// Emits what [`plan_test_mask_global`] says, if it applies.
    pub fn try_test_mask_global(&mut self, cond: &'a Expr) -> (test: Option<Test>)
        requires
            old(self).cx.env.wf(),
            !(plan_test_mask_global(old(self).cx, cond) is Stuck),
        ensures
            final(self).probed(*old(self), plan_test_mask_global(old(self).cx, cond), test),
    {
        let cx: Cx<'a> = self.cx;
        let ExprKind::BinOp { op: BinOp::BitAnd, left, right } = &cond.kind else { return None; };
        let ExprKind::Ident(name) = &left.kind else { return None; };
        let Some(gty) = cx.env.global_type(name) else { return None; };
        if !is_plain_int(gty) {
            return None;
        }
        let Some(k) = cx.env.const_of(&**right) else { return None; };
        self.put(op2(Mnemonic::Test, word(global(name)), imm(lo16(k))));
        return Some(nonzero());
    }

    /// Emits what [`plan_test_mask_local`] says, if it applies.
    pub fn try_test_mask_local(&mut self, cond: &'a Expr) -> (test: Option<Test>)
        requires
            old(self).cx.env.wf(),
            !(plan_test_mask_local(old(self).cx, cond) is Stuck),
        ensures
            final(self).probed(*old(self), plan_test_mask_local(old(self).cx, cond), test),
    {
        let cx: Cx<'a> = self.cx;
        let ExprKind::BinOp { op: BinOp::BitAnd, left, right } = &cond.kind else { return None; };
        let ExprKind::Ident(name) = &left.kind else { return None; };
        if !cx.env.is_int_local(name) {
            return None;
        }
        let Some(off) = cx.env.stack_of(name) else { return None; };
        let Some(k) = cx.env.const_of(&**right) else { return None; };
        self.put(op2(Mnemonic::Test, word(bp(off)), imm(lo16(k))));
        return Some(nonzero());
    }

    /// Emits what [`plan_test_two_locals`] says, if it applies.
    pub fn try_test_two_locals(&mut self, cond: &'a Expr) -> (test: Option<Test>)
        requires
            old(self).cx.env.wf(),
            !(plan_test_two_locals(old(self).cx, cond) is Stuck),
        ensures
            final(self).probed(*old(self), plan_test_two_locals(old(self).cx, cond), test),
    {
        let cx: Cx<'a> = self.cx;
        let ExprKind::BinOp { op, left: outer, right: zero } = &cond.kind else { return None; };
        if !(is_equality(*op) && is_zero(cx.env, &**zero)) {
            return None;
        }
        let ExprKind::BinOp { op: BinOp::BitAnd, left, right } = &outer.kind else { return None; };
        let ExprKind::Ident(a) = &left.kind else { return None; };
        let ExprKind::Ident(b) = &right.kind else { return None; };
        if !(cx.env.is_int_local(a) && cx.env.is_int_local(b)) {
            return None;
        }
        let Some(a_off) = cx.env.stack_of(a) else { return None; };
        let Some(b_off) = cx.env.stack_of(b) else { return None; };
        self.put(mov(ax(), word(bp(b_off))));
        self.put(op2(Mnemonic::Test, word(bp(a_off)), ax()));
        return Some(test_for(*op, false));
    }

    /// Emits what [`plan_test_mask_zero`] says, if it applies.
    pub fn try_test_mask_zero(&mut self, cond: &'a Expr) -> (test: Option<Test>)
        requires
            old(self).cx.env.wf(),
            !(plan_test_mask_zero(old(self).cx, cond) is Stuck),
        ensures
            final(self).probed(*old(self), plan_test_mask_zero(old(self).cx, cond), test),
    {
        let cx: Cx<'a> = self.cx;
        let ExprKind::BinOp { op, left: outer, right: zero } = &cond.kind else { return None; };
        if !(is_equality(*op) && is_zero(cx.env, &**zero)) {
            return None;
        }
        let ExprKind::BinOp { op: BinOp::BitAnd, left, right } = &outer.kind else { return None; };
        let ExprKind::Ident(name) = &left.kind else { return None; };
        let Some(k) = cx.env.const_of(&**right) else { return None; };
        if is_int_like_global(cx.env, name) {
            self.put(op2(Mnemonic::Test, word(global(name)), imm(lo16(k))));
            return Some(test_for(*op, false));
        } else {
            if !cx.env.is_int_local(name) {
                return None;
            }
            let Some(off) = cx.env.stack_of(name) else { return None; };
            self.put(op2(Mnemonic::Test, word(bp(off)), imm(lo16(k))));
            return Some(test_for(*op, false));
        }
    }

    /// Emits what [`plan_test_long_global_zero`] says, if it applies.
    pub fn try_test_long_global_zero(&mut self, cond: &'a Expr) -> (test: Option<Test>)
        requires
            old(self).cx.env.wf(),
            !(plan_test_long_global_zero(old(self).cx, cond) is Stuck),
        ensures
            final(self).probed(*old(self), plan_test_long_global_zero(old(self).cx, cond), test),
    {
        let cx: Cx<'a> = self.cx;
        let ExprKind::BinOp { op, left, right } = &cond.kind else { return None; };
        if !is_equality(*op) {
            return None;
        }
        let ExprKind::Ident(name) = &left.kind else { return None; };
        if !(cx.env.is_long_global(name) && is_zero(cx.env, &**right)) {
            return None;
        }
        self.put(mov(ax(), word(global(name))));
        self.put(or_to(ax(), word(global2(name))));
        return Some(test_for(*op, false));
    }

    /// Emits what [`plan_test_long_local_zero`] says, if it applies.
    pub fn try_test_long_local_zero(&mut self, cond: &'a Expr) -> (test: Option<Test>)
        requires
            old(self).cx.env.wf(),
            !(plan_test_long_local_zero(old(self).cx, cond) is Stuck),
        ensures
            final(self).probed(*old(self), plan_test_long_local_zero(old(self).cx, cond), test),
    {
        let cx: Cx<'a> = self.cx;
        let ExprKind::BinOp { op, left, right } = &cond.kind else { return None; };
        if !is_equality(*op) {
            return None;
        }
        let ExprKind::Ident(name) = &left.kind else { return None; };
        if !(cx.env.is_long_local(name) && is_zero(cx.env, &**right)) {
            return None;
        }
        let Some(off) = cx.env.stack_of(name) else { return None; };
        self.put(mov(ax(), word(bp(off))));
        self.put(or_to(ax(), word(bp2(off))));
        return Some(test_for(*op, false));
    }

    /// Emits what [`plan_test_arith_zero`] says, if it applies.
    pub fn try_test_arith_zero(
        &mut self,
        cond: &'a Expr,
        op: BinOp,
        left: &'a Expr,
        right: &'a Expr,
    ) -> (test: Option<Test>)
        requires
            old(self).cx.env.wf(),
            !(plan_test_arith_zero(old(self).cx, cond, op, left, right) is Stuck),
        ensures
            final(self).probed(
                *old(self),
                plan_test_arith_zero(old(self).cx, cond, op, left, right),
                test,
            ),
    {
        let cx: Cx<'a> = self.cx;
        if !(is_zero(cx.env, right)) {
            return None;
        }
        let ExprKind::BinOp { op: inner, left: _, right: _ } = &left.kind else { return None; };
        if !is_direct(*inner) {
            return None;
        }
        self.put(to_ax(cx, left));
        return Some(test_for(op, cx.env.facts(cond).unsigned_compare));
    }

    /// Emits what [`plan_test_update_zero`] says, if it applies.
    pub fn try_test_update_zero(
        &mut self,
        cond: &'a Expr,
        op: BinOp,
        left: &'a Expr,
        right: &'a Expr,
    ) -> (test: Option<Test>)
        requires
            old(self).cx.env.wf(),
            !(plan_test_update_zero(old(self).cx, cond, op, left, right) is Stuck),
        ensures
            final(self).probed(
                *old(self),
                plan_test_update_zero(old(self).cx, cond, op, left, right),
                test,
            ),
    {
        let cx: Cx<'a> = self.cx;
        if !(is_zero(cx.env, right)) {
            return None;
        }
        let ExprKind::Update { target, op: up, position: UpdatePosition::Pre } = &left.kind else { return None; };
        let Some(reg) = cx.env.reg_of(target) else { return None; };
        if !cx.env.is_int_local(target) {
            return None;
        }
        self.put(op1(update(*up), r(reg)));
        return Some(test_for(op, cx.env.facts(cond).unsigned_compare));
    }

    /// Emits what [`plan_test_const_left`] says, if it applies.
    pub fn try_test_const_left(
        &mut self,
        cond: &'a Expr,
        op: BinOp,
        left: &'a Expr,
        right: &'a Expr,
    ) -> (test: Option<Test>)
        requires
            old(self).cx.env.wf(),
            !(plan_test_const_left(old(self).cx, cond, op, left, right) is Stuck),
        ensures
            final(self).probed(
                *old(self),
                plan_test_const_left(old(self).cx, cond, op, left, right),
                test,
            ),
    {
        let cx: Cx<'a> = self.cx;
        if !(cx.env.const_of(left).is_some() && cx.env.const_of(right).is_none()) {
            return None;
        }
        self.put(Step::Compare(right, left));
        return Some(test_for(flipped(op), cx.env.facts(cond).unsigned_compare));
    }

    /// Emits what [`plan_test_call_right`] says, if it applies.
    pub fn try_test_call_right(
        &mut self,
        cond: &'a Expr,
        op: BinOp,
        left: &'a Expr,
        right: &'a Expr,
    ) -> (test: Option<Test>)
        requires
            old(self).cx.env.wf(),
            !(plan_test_call_right(old(self).cx, cond, op, left, right) is Stuck),
        ensures
            final(self).probed(
                *old(self),
                plan_test_call_right(old(self).cx, cond, op, left, right),
                test,
            ),
    {
        let cx: Cx<'a> = self.cx;
        let ExprKind::Call { name, args } = &right.kind else { return None; };
        let Some(ret) = cx.env.ret_ty_of(name) else { return None; };
        if !ret.is_int_like() {
            return None;
        }
        let Some(addr) = &cx.env.facts(left).int_addr else { return None; };
        self.put(Step::CallFn(name, args));
        self.put(compare(ax(), word(named(addr))));
        return Some(test_for(flipped(op), cx.env.facts(cond).unsigned_compare));
    }

    /// Emits what [`plan_int_vs_char`] says, if it applies.
    pub fn try_int_vs_char(&mut self, small: &'a Chain, large: &'a Chain) -> (done: bool)
        requires
            old(self).cx.env.wf(),
            !(plan_int_vs_char(old(self).cx, small, large) is Stuck),
        ensures
            final(self).ran(*old(self), plan_int_vs_char(old(self).cx, small, large), done),
    {
        let cx: Cx<'a> = self.cx;
        let Some(small_addr) = cx.env.resolve_chain_addr(&small.name, small.off) else { return false; };
        let Some(large_addr) = cx.env.resolve_chain_addr(&large.name, large.off) else { return false; };
        self.put(mov(al(), byte(small_addr)));
        self.put(widen(small.ty.is_unsigned()));
        self.put(compare(ax(), word(large_addr)));
        true
    }

    /// Emits what [`plan_emit_int_vs_char_cmp`] says, if it applies.
    pub fn try_emit_int_vs_char_cmp(&mut self, left: &'a Expr, right: &'a Expr) -> (done: bool)
        requires
            old(self).cx.env.wf(),
            !(plan_emit_int_vs_char_cmp(old(self).cx, left, right) is Stuck),
        ensures
            final(self).ran(
                *old(self),
                plan_emit_int_vs_char_cmp(old(self).cx, left, right),
                done,
            ),
    {
        let cx: Cx<'a> = self.cx;
        let Some(a) = &cx.env.facts(left).chain else { return false; };
        let Some(b) = &cx.env.facts(right).chain else { return false; };
        if !(a.ty.is_char_like() != b.ty.is_char_like()) {
            return false;
        }
        if !(is_small_int(&a.ty) && is_small_int(&b.ty)) {
            return false;
        }
        if a.ty.is_char_like() {
            return self.try_int_vs_char(a, b);
        } else {
            return self.try_int_vs_char(b, a);
        }
    }

    /// Emits what [`plan_test_pointer_elem`] says, if it applies.
    pub fn try_test_pointer_elem(
        &mut self,
        op: BinOp,
        left: &'a Expr,
        right: &'a Expr,
    ) -> (test: Option<Test>)
        requires
            old(self).cx.env.wf(),
            !(plan_test_pointer_elem(old(self).cx, op, left, right) is Stuck),
        ensures
            final(self).probed(
                *old(self),
                plan_test_pointer_elem(old(self).cx, op, left, right),
                test,
            ),
    {
        let cx: Cx<'a> = self.cx;
        if !(is_equality(op) && is_zero(cx.env, right)) {
            return None;
        }
        let ExprKind::ArrayIndex { array, index } = &left.kind else { return None; };
        let ExprKind::Ident(name) = &array.kind else { return None; };
        let Some(l) = cx.env.local(name) else { return None; };
        let Some(t) = l.ty.pointee() else { return None; };
        self.put(to_ax(cx, &**index));
        self.put_times(shl1(ax()), halvings(t.size_bytes() as u32) as u64);
        match l.loc {
            LocalLocation::Reg(reg) => {
                self.put(add_to(ax(), r(reg)));
                self.put(mov(bx(), ax()));
            },
            LocalLocation::Stack(off) => {
                self.put(mov(bx(), word(bp(off))));
                self.put(add_to(bx(), ax()));
            },
        }
        self.put(compare(sized(t.is_char_like(), at(Reg::Bx)), imm(0)));
        return Some(test_for(op, false));
    }

    /// Emits what [`plan_test_global_elem`] says, if it applies.
    pub fn try_test_global_elem(
        &mut self,
        op: BinOp,
        left: &'a Expr,
        right: &'a Expr,
    ) -> (test: Option<Test>)
        requires
            old(self).cx.env.wf(),
            !(plan_test_global_elem(old(self).cx, op, left, right) is Stuck),
        ensures
            final(self).probed(
                *old(self),
                plan_test_global_elem(old(self).cx, op, left, right),
                test,
            ),
    {
        let cx: Cx<'a> = self.cx;
        if !(is_equality(op) && is_zero(cx.env, right)) {
            return None;
        }
        let ExprKind::ArrayIndex { array, index } = &left.kind else { return None; };
        let ExprKind::Ident(name) = &array.kind else { return None; };
        let Some(t) = cx.env.global_elem(name) else { return None; };
        match cx.env.const_of(&**index) {
            Some(k) => {
                self.put(compare( sized(t.is_char_like(), global_at(name, disp(scaled(k, t.size_bytes())))), imm(0)));
            },
            None => {
                self.emit_index_into_bx(&**index, t);
                self.put(compare(sized(t.is_char_like(), elem(name, Reg::Bx)), imm(0)));
            },
        }
        return Some(test_for(op, false));
    }

    /// Emits what [`plan_test_long_name`] says, if it applies.
    pub fn try_test_long_name(&mut self, cond: &'a Expr) -> (test: Option<Test>)
        requires
            old(self).cx.env.wf(),
            !(plan_test_long_name(old(self).cx, cond) is Stuck),
        ensures
            final(self).probed(*old(self), plan_test_long_name(old(self).cx, cond), test),
    {
        let cx: Cx<'a> = self.cx;
        let ExprKind::Ident(name) = &cond.kind else { return None; };
        if cx.env.is_long_global(name) {
            self.put(mov(ax(), word(global(name))));
            self.put(or_to(ax(), word(global2(name))));
            return Some(nonzero());
        } else {
            if !cx.env.is_long_local(name) {
                return None;
            }
            let Some(off) = cx.env.stack_of(name) else { return None; };
            self.put(mov(ax(), word(bp(off))));
            self.put(or_to(ax(), word(bp2(off))));
            return Some(nonzero());
        }
    }
}

impl<'a> FunctionEmitter<'a> {
    /// Emits what [`plan_test_int_char`] says, if it applies.
    pub fn try_test_int_char(
        &mut self,
        cond: &'a Expr,
        op: BinOp,
        left: &'a Expr,
        right: &'a Expr,
    ) -> (test: Option<Test>)
        requires
            old(self).cx.env.wf(),
            !(plan_test_int_char(old(self).cx, cond, op, left, right) is Stuck),
        ensures
            final(self).probed(
                *old(self),
                plan_test_int_char(old(self).cx, cond, op, left, right),
                test,
            ),
    {
        if is_equality(op) && self.try_emit_int_vs_char_cmp(left, right) {
            Some(test_for(op, self.cx.env.facts(cond).unsigned_compare))
        } else {
            None
        }
    }

    /// Emits what [`plan_test_operands`] says.
    pub fn try_test_operands(
        &mut self,
        cond: &'a Expr,
        op: BinOp,
        left: &'a Expr,
        right: &'a Expr,
    ) -> (test: Option<Test>)
        requires
            old(self).cx.env.wf(),
            !(plan_test_operands(old(self).cx, cond, op, left, right) is Stuck),
        ensures
            final(self).probed(
                *old(self),
                plan_test_operands(old(self).cx, cond, op, left, right),
                test,
            ),
    {
        if let Some(t) = self.try_test_call_right(cond, op, left, right) {
            return Some(t);
        }
        if let Some(t) = self.try_test_int_char(cond, op, left, right) {
            return Some(t);
        }
        if let Some(t) = self.try_test_pointer_elem(op, left, right) {
            return Some(t);
        }
        if let Some(t) = self.try_test_global_elem(op, left, right) {
            return Some(t);
        }
        let t: Test = test_for(op, self.cx.env.facts(cond).unsigned_compare);
        self.put(Step::Compare(left, right));
        Some(Test { yes: t.yes, no: t.no, mirror: true })
    }

    /// Emits what [`plan_test_comparison`] says, if it applies.
    pub fn try_test_comparison(&mut self, cond: &'a Expr) -> (test: Option<Test>)
        requires
            old(self).cx.env.wf(),
            !(plan_test_comparison(old(self).cx, cond) is Stuck),
        ensures
            final(self).probed(*old(self), plan_test_comparison(old(self).cx, cond), test),
    {
        let ExprKind::BinOp { op, left, right } = &cond.kind else { return None; };
        if !op.is_comparison() {
            return None;
        }
        if let Some(t) = self.try_test_arith_zero(cond, *op, &**left, &**right) {
            return Some(t);
        }
        if let Some(t) = self.try_test_update_zero(cond, *op, &**left, &**right) {
            return Some(t);
        }
        if let Some(t) = self.try_test_const_left(cond, *op, &**left, &**right) {
            return Some(t);
        }
        self.try_test_operands(cond, *op, &**left, &**right)
    }

    /// Emits what [`plan_test_value`] says.
    pub fn try_test_value(&mut self, cond: &'a Expr) -> (test: Option<Test>)
        requires
            old(self).cx.env.wf(),
            !(plan_test_value(old(self).cx, cond) is Stuck),
        ensures
            final(self).probed(*old(self), plan_test_value(old(self).cx, cond), test),
    {
        if let Some(t) = self.try_test_long_global_zero(cond) {
            return Some(t);
        }
        if let Some(t) = self.try_test_long_local_zero(cond) {
            return Some(t);
        }
        if let Some(t) = self.try_test_comparison(cond) {
            return Some(t);
        }
        if let Some(t) = self.try_test_long_name(cond) {
            return Some(t);
        }
        self.put(Step::ZeroTest(cond));
        Some(nonzero())
    }

    /// Emits what [`plan_test_plain`] says.
    pub fn try_test_plain(&mut self, cond: &'a Expr) -> (test: Option<Test>)
        requires
            old(self).cx.env.wf(),
            !(plan_test_plain(old(self).cx, cond) is Stuck),
        ensures
            final(self).probed(*old(self), plan_test_plain(old(self).cx, cond), test),
    {
        if let Some(t) = self.try_test_mask_global(cond) {
            return Some(t);
        }
        if let Some(t) = self.try_test_mask_local(cond) {
            return Some(t);
        }
        if let Some(t) = self.try_test_two_locals(cond) {
            return Some(t);
        }
        if let Some(t) = self.try_test_mask_zero(cond) {
            return Some(t);
        }
        self.try_test_value(cond)
    }

    /// Emits the test of a condition without `&&` or `||`, and returns the
    /// jumps that tell its outcome.
    pub fn emit_cond_test(&mut self, cond: &'a Expr) -> (test: Test)
        requires
            old(self).cx.env.wf(),
            plan_emit_cond_test(old(self).cx, cond) is Emit,
        ensures
            final(self).probed(*old(self), plan_emit_cond_test(old(self).cx, cond), Some(test)),
        decreases cond,
    {
        match &cond.kind {
            ExprKind::Unary { op: UnaryOp::Not, operand } => {
                if let Some(t) = self.try_test_not_char(&**operand) {
                    return t;
                }
                negated(self.emit_cond_test(&**operand))
            },
            _ => match self.try_test_plain(cond) {
                Some(t) => t,
                None => nonzero(),
            },
        }
    }

    /// Emits a branch on a condition: to `true_slot` if it holds, to
    /// `false_slot` if not; a missing target is fallen through to.
    #[verifier::rlimit(60)]
    pub fn emit_cond_branch(
        &mut self,
        cond: &'a Expr,
        true_slot: Option<u32>,
        false_slot: Option<u32>,
    )
        requires
            old(self).cx.env.wf(),
            plan_emit_cond_branch(old(self).cx, cond, true_slot, false_slot) is Emit,
        ensures
            final(self).wrote(
                *old(self),
                plan_emit_cond_branch(old(self).cx, cond, true_slot, false_slot),
            ),
        decreases cond,
    {
        if self.try_branch_special(cond, true_slot, false_slot) {
            return;
        }
        match &cond.kind {
            ExprKind::Logical { op: LogicalOp::And, left, right } => {
                let own: bool = false_slot.is_none() && true_slot.is_some();
                let out: Option<u32> = if own {
                    self.cx.env.facts(cond).label_base
                } else {
                    false_slot
                };
                self.emit_cond_branch(&**left, None, out);
                self.emit_cond_branch(&**right, true_slot, false_slot);
                if own {
                    if let Some(slot) = out {
                        self.put(Step::Label(slot));
                    }
                }
            },
            ExprKind::Logical { op: LogicalOp::Or, left, right } => {
                let own: bool = true_slot.is_none() && false_slot.is_some();
                let out: Option<u32> = if own {
                    self.cx.env.facts(cond).label_base
                } else {
                    true_slot
                };
                let right_true: Option<u32> = if false_slot.is_some() { None } else { true_slot };
                self.emit_cond_branch(&**left, out, None);
                self.emit_cond_branch(&**right, right_true, false_slot);
                if own {
                    if let Some(slot) = out {
                        self.put(Step::Label(slot));
                    }
                }
            },
            _ => {
                let t: Test = self.emit_cond_test(cond);
                if let Some(slot) = false_slot {
                    self.put(jump_after(t, t.no, slot));
                } else if let Some(slot) = true_slot {
                    self.put(jump_after(t, t.yes, slot));
                }
            },
        }
    }
}

} // verus!
