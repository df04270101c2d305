//! Compound assignment to 32-bit variables.

use vstd::prelude::*;
use crate::ast::{BinOp, Expr, ExprKind, Type};
use crate::codegen::emitter::{
    call, clear, cwd, mov, op2, pop, push, to_ax, widen_long, Cx, FunctionEmitter, Plan,
};
use crate::codegen::env::{is_small_int, widens_signed, widens_unsigned, Env};
use crate::isa::{
    ax, bp, bp2, bx, byte, cl, cx_, direct, direct_high, divider, dx, global, global2, hi16, imm,
    is_additive, is_bitwise, is_direct, is_division, is_multiplicative, is_shift, lo16, lo8,
    named, shifter, word, Addr, Helper, Operand, Reg,
};

verus! {

/// A constant, applied to both halves in memory.
pub open spec fn plan_wide_const<'a>(
    cx: Cx<'a>,
    lo: Addr<'a>,
    hi: Addr<'a>,
    op: BinOp,
    value: &'a Expr,
) -> Plan<'a> {
    if is_direct(op) {
        if let Some(k) = cx.env.const_of(value) {
            Plan::Emit(seq![
                op2(direct(op), word(lo), imm(lo16(k))),
                op2(direct_high(op), word(hi), imm(hi16(k))),
            ])
        } else {
            Plan::Skip
        }
    } else {
        Plan::Skip
    }
}

/// A smaller signed integer, widened and applied to both halves.
pub open spec fn plan_wide_signed<'a>(
    cx: Cx<'a>,
    lo: Addr<'a>,
    hi: Addr<'a>,
    op: BinOp,
    value: &'a Expr,
) -> Plan<'a> {
    if let Some(t) = &cx.env.facts(value).compound_type {
        if widens_signed(t) && is_direct(op) {
            Plan::Emit(seq![
                to_ax(cx, value),
                cwd(),
                op2(direct(op), word(lo), ax()),
                op2(direct_high(op), word(hi), dx()),
            ])
        } else {
            Plan::Skip
        }
    } else {
        Plan::Skip
    }
}

/// A smaller unsigned integer, whose high half is zero.
pub open spec fn plan_wide_unsigned<'a>(
    cx: Cx<'a>,
    lo: Addr<'a>,
    hi: Addr<'a>,
    op: BinOp,
    value: &'a Expr,
) -> Plan<'a> {
    if let Some(t) = &cx.env.facts(value).compound_type {
        if widens_unsigned(t) && is_direct(op) {
            Plan::Emit(seq![
                to_ax(cx, value),
                op2(direct(op), word(lo), ax()),
                op2(direct_high(op), word(hi), imm(0)),
            ])
        } else {
            Plan::Skip
        }
    } else {
        Plan::Skip
    }
}

/// A product with a smaller signed integer: widening takes `dx:ax`, so the
/// factor goes by way of the stack.
pub open spec fn plan_wide_mul_signed<'a>(
    cx: Cx<'a>,
    lo: Addr<'a>,
    hi: Addr<'a>,
    op: BinOp,
    value: &'a Expr,
) -> Plan<'a> {
    if let Some(t) = &cx.env.facts(value).widening_type {
        if widens_signed(t) && op == BinOp::Mul {
            Plan::Emit(seq![
                to_ax(cx, value),
                cwd(),
                push(ax()),
                push(dx()),
                mov(dx(), word(hi)),
                mov(ax(), word(lo)),
                pop(cx_()),
                pop(bx()),
                call(Helper::LongMul),
            ]).followed_by(crate::codegen::common::plan_store_result(cx, hi, lo))
        } else {
            Plan::Skip
        }
    } else {
        Plan::Skip
    }
}

/// Whether a type is `unsigned char`.
#[verifier::allow_in_spec]
pub fn is_uchar(t: &Type) -> bool
    returns
        (match t {
            Type::UChar => true,
            _ => false,
        }),
{
    match t {
        Type::UChar => true,
        _ => false,
    }
}

/// Whether a type is `unsigned int`.
#[verifier::allow_in_spec]
pub fn is_uint(t: &Type) -> bool
    returns
        (match t {
            Type::UInt => true,
            _ => false,
        }),
{
    match t {
        Type::UInt => true,
        _ => false,
    }
}

/// A product with an unsigned character.
pub open spec fn plan_wide_mul_uchar<'a>(
    cx: Cx<'a>,
    lo: Addr<'a>,
    hi: Addr<'a>,
    op: BinOp,
    value: &'a Expr,
) -> Plan<'a> {
    if let Some(t) = &cx.env.facts(value).widening_type {
        if is_uchar(t) && op == BinOp::Mul {
            Plan::Emit(seq![
                to_ax(cx, value),
                clear(Reg::Cx),
                mov(dx(), word(hi)),
                push(ax()),
                mov(ax(), word(lo)),
                pop(bx()),
                call(Helper::LongMul),
            ]).followed_by(crate::codegen::common::plan_store_result(cx, hi, lo))
        } else {
            Plan::Skip
        }
    } else {
        Plan::Skip
    }
}

/// A product with an unsigned integer variable, which is loaded in place.
pub open spec fn plan_wide_mul_uint<'a>(
    cx: Cx<'a>,
    lo: Addr<'a>,
    hi: Addr<'a>,
    op: BinOp,
    value: &'a Expr,
) -> Plan<'a> {
    if let ExprKind::Ident(b) = &value.kind {
        if let Some(t) = &cx.env.facts(value).widening_type {
            if is_uint(t) && op == BinOp::Mul {
                if let Some(rhs) = cx.env.memory_of(b) {
                    Plan::Emit(seq![
                        mov(bx(), word(rhs)),
                        clear(Reg::Cx),
                        mov(dx(), word(hi)),
                        mov(ax(), word(lo)),
                        call(Helper::LongMul),
                    ]).followed_by(crate::codegen::common::plan_store_result(cx, hi, lo))
                } else {
                    Plan::Stuck
                }
            } else {
                Plan::Skip
            }
        } else {
            Plan::Skip
        }
    } else {
        Plan::Skip
    }
}

/// A quotient or remainder by a smaller integer that is computed in `ax`.
pub open spec fn plan_wide_div<'a>(
    cx: Cx<'a>,
    lo: Addr<'a>,
    hi: Addr<'a>,
    unsigned: bool,
    op: BinOp,
    value: &'a Expr,
) -> Plan<'a> {
    if let Some(t) = &cx.env.facts(value).widening_type {
        if widens_signed(t) || is_uchar(t) {
            if is_division(op) {
                Plan::Emit(seq![
                    to_ax(cx, value),
                    widen_long(is_uchar(t)),
                    push(dx()),
                    push(ax()),
                ]).followed_by(crate::codegen::assign_global::plan_push_long(cx, hi, lo)).followed_by(
                    Plan::Emit(seq![call(divider(op, unsigned))]),
                ).followed_by(crate::codegen::common::plan_store_result(cx, hi, lo))
            } else {
                Plan::Skip
            }
        } else {
            Plan::Skip
        }
    } else {
        Plan::Skip
    }
}

/// A quotient or remainder by an unsigned integer variable, which is pushed
/// from its place.
pub open spec fn plan_wide_div_uint<'a>(
    cx: Cx<'a>,
    lo: Addr<'a>,
    hi: Addr<'a>,
    unsigned: bool,
    op: BinOp,
    value: &'a Expr,
) -> Plan<'a> {
    if let ExprKind::Ident(b) = &value.kind {
        if let Some(t) = &cx.env.facts(value).widening_type {
            if is_uint(t) && is_division(op) {
                if let Some(rhs) = cx.env.memory_of(b) {
                    Plan::Emit(seq![
                        clear(Reg::Ax),
                        push(ax()),
                        push(word(rhs)),
                    ]).followed_by(crate::codegen::assign_global::plan_push_long(cx, hi, lo)).followed_by(
                        Plan::Emit(seq![call(divider(op, unsigned))]),
                    ).followed_by(crate::codegen::common::plan_store_result(cx, hi, lo))
                } else {
                    Plan::Stuck
                }
            } else {
                Plan::Skip
            }
        } else {
            Plan::Skip
        }
    } else {
        Plan::Skip
    }
}

/// Shifts a pair of words by the run-time routine, with the count in a byte.
pub open spec fn plan_wide_shift_by<'a>(
    cx: Cx<'a>,
    lo: Addr<'a>,
    hi: Addr<'a>,
    unsigned: bool,
    op: BinOp,
    count: Operand<'a>,
) -> Plan<'a> {
    Plan::Emit(seq![
        mov(cl(), count),
        mov(dx(), word(hi)),
        mov(ax(), word(lo)),
        call(shifter(op, unsigned)),
    ]).followed_by(crate::codegen::common::plan_store_result(cx, hi, lo))
}

/// A shift by a smaller integer variable.
pub open spec fn plan_wide_shift_small<'a>(
    cx: Cx<'a>,
    lo: Addr<'a>,
    hi: Addr<'a>,
    unsigned: bool,
    op: BinOp,
    value: &'a Expr,
) -> Plan<'a> {
    if let ExprKind::Ident(b) = &value.kind {
        if let Some(t) = &cx.env.facts(value).widening_type {
            if is_small_int(t) && is_shift(op) {
                if let Some(rhs) = cx.env.memory_of(b) {
                    plan_wide_shift_by(cx, lo, hi, unsigned, op, byte(rhs))
                } else {
                    Plan::Stuck
                }
            } else {
                Plan::Skip
            }
        } else {
            Plan::Skip
        }
    } else {
        Plan::Skip
    }
}

/// A direct operator on two pairs of words.
pub open spec fn plan_pair_direct<'a>(
    cx: Cx<'a>,
    lo: Addr<'a>,
    hi: Addr<'a>,
    rhs_lo: Addr<'a>,
    rhs_hi: Addr<'a>,
    op: BinOp,
) -> Plan<'a> {
    if is_direct(op) {
        crate::codegen::assign_global::plan_load_halves(cx, rhs_hi, rhs_lo).followed_by(
            Plan::Emit(seq![
                op2(direct(op), word(lo), dx()),
                op2(direct_high(op), word(hi), ax()),
            ]),
        )
    } else {
        Plan::Skip
    }
}

/// A product of two pairs of words.
pub open spec fn plan_pair_mul<'a>(
    cx: Cx<'a>,
    lo: Addr<'a>,
    hi: Addr<'a>,
    rhs_lo: Addr<'a>,
    rhs_hi: Addr<'a>,
    op: BinOp,
) -> Plan<'a> {
    if op == BinOp::Mul {
        crate::codegen::assign_global::plan_multiply_long(cx, rhs_hi, rhs_lo, hi, lo).followed_by(
            crate::codegen::common::plan_store_result(cx, hi, lo),
        )
    } else {
        Plan::Skip
    }
}

/// A quotient or remainder of two pairs of words.
pub open spec fn plan_pair_div<'a>(
    cx: Cx<'a>,
    lo: Addr<'a>,
    hi: Addr<'a>,
    rhs_lo: Addr<'a>,
    rhs_hi: Addr<'a>,
    op: BinOp,
    unsigned: bool,
) -> Plan<'a> {
    if is_division(op) {
        crate::codegen::assign_global::plan_push_long(cx, rhs_hi, rhs_lo).followed_by(
            crate::codegen::assign_global::plan_push_long(cx, hi, lo),
        ).followed_by(Plan::Emit(seq![call(divider(op, unsigned))])).followed_by(
            crate::codegen::common::plan_store_result(cx, hi, lo),
        )
    } else {
        Plan::Skip
    }
}

/// An operator other than a shift on two pairs of words.
pub open spec fn plan_pair_arith<'a>(
    cx: Cx<'a>,
    lo: Addr<'a>,
    hi: Addr<'a>,
    rhs_lo: Addr<'a>,
    rhs_hi: Addr<'a>,
    op: BinOp,
    unsigned: bool,
) -> Plan<'a> {
    match plan_pair_direct(cx, lo, hi, rhs_lo, rhs_hi, op) {
        Plan::Skip => {
            match plan_pair_mul(cx, lo, hi, rhs_lo, rhs_hi, op) {
                Plan::Skip => {
                    plan_pair_div(cx, lo, hi, rhs_lo, rhs_hi, op, unsigned)
                },
                taken => taken,
            }
        },
        taken => taken,
    }
}

/// A shift of a pair of words by the low byte of another.
pub open spec fn plan_pair_shift<'a>(
    cx: Cx<'a>,
    lo: Addr<'a>,
    hi: Addr<'a>,
    rhs_lo: Addr<'a>,
    op: BinOp,
    unsigned: bool,
) -> Plan<'a> {
    if is_shift(op) {
        plan_wide_shift_by(cx, lo, hi, unsigned, op, byte(rhs_lo))
    } else {
        Plan::Skip
    }
}

/// Another 32-bit variable on the right.
pub open spec fn plan_wide_variable<'a>(
    cx: Cx<'a>,
    lo: Addr<'a>,
    hi: Addr<'a>,
    ty: &'a Type,
    op: BinOp,
    value: &'a Expr,
) -> Plan<'a> {
    if let ExprKind::Ident(b) = &value.kind {
        if let Some(rty) = cx.env.var_type(b) {
            if rty.is_long_like() {
                if let Some((rhs_lo, rhs_hi)) = cx.env.long_halves_of(b) {
                    match plan_pair_arith(cx, lo, hi, rhs_lo, rhs_hi, op, ty.is_unsigned() || rty.is_unsigned()) {
                        Plan::Skip => {
                            plan_pair_shift(cx, lo, hi, rhs_lo, op, ty.is_unsigned() || rty.is_unsigned())
                        },
                        taken => taken,
                    }
                } else {
                    Plan::Stuck
                }
            } else {
                Plan::Skip
            }
        } else {
            Plan::Skip
        }
    } else {
        Plan::Skip
    }
}

/// Whether an expression names a file-scope variable.
#[verifier::allow_in_spec]
pub fn names_global(env: &Env, e: &Expr) -> bool
    returns
        (match &e.kind {
            ExprKind::Ident(b) => env.is_global(b),
            _ => false,
        }),
{
    match &e.kind {
        ExprKind::Ident(b) => env.is_global(b),
        _ => false,
    }
}

/// A 32-bit element or member on the right, for a file-scope variable.
pub open spec fn plan_wide_element<'a>(
    cx: Cx<'a>,
    name: &'a String,
    ty: &'a Type,
    op: BinOp,
    value: &'a Expr,
) -> Plan<'a> {
    if cx.env.is_global(name) {
        if let Some(rhs) = &cx.env.facts(value).long_halves {
            if rhs.ty.is_long_like() && !names_global(cx.env, value) {
                plan_pair_arith(cx, global(name), global2(name), named(&rhs.lo), named(&rhs.hi), op, ty.is_unsigned() || rhs.ty.is_unsigned())
            } else {
                Plan::Skip
            }
        } else {
            Plan::Skip
        }
    } else {
        Plan::Skip
    }
}

/// Shifts a pair of words by a constant: by one in line, otherwise by the
/// run-time routine.
pub open spec fn plan_wide_shift_const<'a>(
    cx: Cx<'a>,
    lo: Addr<'a>,
    hi: Addr<'a>,
    unsigned: bool,
    op: BinOp,
    k: u32,
) -> Plan<'a> {
    if k == 1 {
        crate::codegen::assign_global::plan_load_halves(cx, hi, lo).followed_by(
            if op == BinOp::Shl {
                crate::codegen::assign_global::plan_double_halves(cx)
            } else {
                crate::codegen::assign_global::plan_halve_halves(cx, unsigned)
            },
        ).followed_by(crate::codegen::assign_global::plan_store_halves(cx, hi, lo))
    } else {
        plan_wide_shift_by(cx, lo, hi, unsigned, op, imm(lo8(k)))
    }
}

/// A file-scope variable shifted by a constant.
pub open spec fn plan_wide_global_shift<'a>(
    cx: Cx<'a>,
    name: &'a String,
    ty: &'a Type,
    op: BinOp,
    value: &'a Expr,
) -> Plan<'a> {
    if cx.env.is_global(name) && is_shift(op) {
        if let Some(k) = cx.env.const_of(value) {
            if 1 <= k && k <= 255 {
                plan_wide_shift_const(cx, global(name), global2(name), ty.is_unsigned(), op, k)
            } else {
                Plan::Skip
            }
        } else {
            Plan::Skip
        }
    } else {
        Plan::Skip
    }
}

/// A variable that is 32 bits wide, file-scope variables first.
pub open spec fn plan_compound_wide<'a>(
    cx: Cx<'a>,
    name: &'a String,
    op: BinOp,
    value: &'a Expr,
) -> Plan<'a> {
    if let Some(ty) = cx.env.var_type(name) {
        if ty.is_long_like() {
            if let Some((lo, hi)) = cx.env.long_halves_of(name) {
                match plan_wide_const(cx, lo, hi, op, value) {
                    Plan::Skip => {
                        match plan_wide_signed(cx, lo, hi, op, value) {
                            Plan::Skip => {
                                match plan_wide_unsigned(cx, lo, hi, op, value) {
                                    Plan::Skip => {
                                        match plan_wide_mul_signed(cx, lo, hi, op, value) {
                                            Plan::Skip => {
                                                match plan_wide_mul_uchar(cx, lo, hi, op, value) {
                                                    Plan::Skip => {
                                                        match plan_wide_mul_uint(cx, lo, hi, op, value) {
                                                            Plan::Skip => {
                                                                match plan_wide_div(cx, lo, hi, ty.is_unsigned(), op, value) {
                                                                    Plan::Skip => {
                                                                        match plan_wide_div_uint(cx, lo, hi, ty.is_unsigned(), op, value) {
                                                                            Plan::Skip => {
                                                                                match plan_wide_shift_small(cx, lo, hi, ty.is_unsigned(), op, value) {
                                                                                    Plan::Skip => {
                                                                                        match plan_wide_variable(cx, lo, hi, ty, op, value) {
                                                                                            Plan::Skip => {
                                                                                                match plan_wide_element(cx, name, ty, op, value) {
                                                                                                    Plan::Skip => {
                                                                                                        plan_wide_global_shift(cx, name, ty, op, value)
                                                                                                    },
                                                                                                    taken => taken,
                                                                                                }
                                                                                            },
                                                                                            taken => taken,
                                                                                        }
                                                                                    },
                                                                                    taken => taken,
                                                                                }
                                                                            },
                                                                            taken => taken,
                                                                        }
                                                                    },
                                                                    taken => taken,
                                                                }
                                                            },
                                                            taken => taken,
                                                        }
                                                    },
                                                    taken => taken,
                                                }
                                            },
                                            taken => taken,
                                        }
                                    },
                                    taken => taken,
                                }
                            },
                            taken => taken,
                        }
                    },
                    taken => taken,
                }
            } else {
                Plan::Stuck
            }
        } else {
            Plan::Skip
        }
    } else {
        Plan::Skip
    }
}

/// A constant added to or subtracted from a 32-bit local variable: the high
/// half takes in the carry alone.
pub open spec fn plan_wide_local_sum<'a>(cx: Cx<'a>, off: i16, op: BinOp, k: u32) -> Plan<'a> {
    if is_additive(op) {
        Plan::Emit(seq![
            op2(direct(op), word(bp(off)), imm(lo16(k))),
            op2(direct_high(op), word(bp2(off)), imm(0)),
        ])
    } else {
        Plan::Skip
    }
}

/// A bitwise operator with a constant on a 32-bit local variable.
pub open spec fn plan_wide_local_bits<'a>(cx: Cx<'a>, off: i16, op: BinOp, k: u32) -> Plan<'a> {
    if is_bitwise(op) {
        Plan::Emit(seq![
            op2(direct(op), word(bp(off)), imm(lo16(k))),
            op2(direct(op), word(bp2(off)), imm(hi16(k))),
        ])
    } else {
        Plan::Skip
    }
}

/// A 32-bit local variable shifted by a constant.
pub open spec fn plan_wide_local_shift<'a>(
    cx: Cx<'a>,
    off: i16,
    unsigned: bool,
    op: BinOp,
    k: u32,
) -> Plan<'a> {
    if is_shift(op) && 1 <= k && k <= 255 {
        plan_wide_shift_const(cx, bp(off), bp2(off), unsigned, op, k)
    } else {
        Plan::Skip
    }
}

/// A constant applied to a 32-bit local variable.
pub open spec fn plan_wide_local_const<'a>(
    cx: Cx<'a>,
    name: &'a String,
    op: BinOp,
    value: &'a Expr,
) -> Plan<'a> {
    if let Some(ty) = cx.env.local_type(name) {
        if ty.is_long_like() {
            if let Some(k) = cx.env.const_of(value) {
                if let Some(off) = cx.env.stack_of(name) {
                    match plan_wide_local_sum(cx, off, op, k) {
                        Plan::Skip => {
                            match plan_wide_local_bits(cx, off, op, k) {
                                Plan::Skip => {
                                    plan_wide_local_shift(cx, off, ty.is_unsigned(), op, k)
                                },
                                taken => taken,
                            }
                        },
                        taken => taken,
                    }
                } else {
                    Plan::Stuck
                }
            } else {
                Plan::Skip
            }
        } else {
            Plan::Skip
        }
    } else {
        Plan::Skip
    }
}

/// An operator other than a shift on two 32-bit local variables.
pub open spec fn plan_wide_local_pair<'a>(
    cx: Cx<'a>,
    name: &'a String,
    op: BinOp,
    value: &'a Expr,
) -> Plan<'a> {
    if cx.env.is_long_local(name) {
        if let ExprKind::Ident(b) = &value.kind {
            if cx.env.is_long_local(b) {
                if is_direct(op) || is_multiplicative(op) {
                    if let Some(x) = cx.env.stack_of(name) {
                        if let Some(y) = cx.env.stack_of(b) {
                            plan_pair_arith(cx, bp(x), bp2(x), bp(y), bp2(y), op, cx.env.is_unsigned_local(name) || cx.env.is_unsigned_local(b))
                        } else {
                            Plan::Stuck
                        }
                    } else {
                        Plan::Stuck
                    }
                } else {
                    Plan::Skip
                }
            } else {
                Plan::Skip
            }
        } else {
            Plan::Skip
        }
    } else {
        Plan::Skip
    }
}

/// A 32-bit variable as the target of a compound assignment. A local
/// variable that a file-scope variable of another type shadows is tried
/// last.
pub open spec fn plan_compound_long<'a>(
    cx: Cx<'a>,
    name: &'a String,
    op: BinOp,
    value: &'a Expr,
) -> Plan<'a> {
    match plan_compound_wide(cx, name, op, value) {
        Plan::Skip => {
            match plan_wide_local_const(cx, name, op, value) {
                Plan::Skip => {
                    plan_wide_local_pair(cx, name, op, value)
                },
                taken => taken,
            }
        },
        taken => taken,
    }
}

impl<'a> FunctionEmitter<'a> {
    /// Emits what [`plan_wide_const`] says, if it applies.
    pub fn try_wide_const(
        &mut self,
        lo: Addr<'a>,
        hi: Addr<'a>,
        op: BinOp,
        value: &'a Expr,
    ) -> (done: bool)
        requires
            old(self).cx.env.wf(),
            !(plan_wide_const(old(self).cx, lo, hi, op, value) is Stuck),
        ensures
            final(self).ran(*old(self), plan_wide_const(old(self).cx, lo, hi, op, value), done),
    {
        let cx: Cx<'a> = self.cx;
        if !is_direct(op) {
            return false;
        }
        let Some(k) = cx.env.const_of(value) else { return false; };
        self.put(op2(direct(op), word(lo), imm(lo16(k))));
        self.put(op2(direct_high(op), word(hi), imm(hi16(k))));
        true
    }

    /// Emits what [`plan_wide_signed`] says, if it applies.
    pub fn try_wide_signed(
        &mut self,
        lo: Addr<'a>,
        hi: Addr<'a>,
        op: BinOp,
        value: &'a Expr,
    ) -> (done: bool)
        requires
            old(self).cx.env.wf(),
            !(plan_wide_signed(old(self).cx, lo, hi, op, value) is Stuck),
        ensures
            final(self).ran(*old(self), plan_wide_signed(old(self).cx, lo, hi, op, value), done),
    {
        let cx: Cx<'a> = self.cx;
        let Some(t) = &cx.env.facts(value).compound_type else { return false; };
        if !(widens_signed(t) && is_direct(op)) {
            return false;
        }
        self.put(to_ax(cx, value));
        self.put(cwd());
        self.put(op2(direct(op), word(lo), ax()));
        self.put(op2(direct_high(op), word(hi), dx()));
        true
    }

    /// Emits what [`plan_wide_unsigned`] says, if it applies.
    pub fn try_wide_unsigned(
        &mut self,
        lo: Addr<'a>,
        hi: Addr<'a>,
        op: BinOp,
        value: &'a Expr,
    ) -> (done: bool)
        requires
            old(self).cx.env.wf(),
            !(plan_wide_unsigned(old(self).cx, lo, hi, op, value) is Stuck),
        ensures
            final(self).ran(
                *old(self),
                plan_wide_unsigned(old(self).cx, lo, hi, op, value),
                done,
            ),
    {
        let cx: Cx<'a> = self.cx;
        let Some(t) = &cx.env.facts(value).compound_type else { return false; };
        if !(widens_unsigned(t) && is_direct(op)) {
            return false;
        }
        self.put(to_ax(cx, value));
        self.put(op2(direct(op), word(lo), ax()));
        self.put(op2(direct_high(op), word(hi), imm(0)));
        true
    }

    /// Emits what [`plan_wide_mul_signed`] says, if it applies.
    pub fn try_wide_mul_signed(
        &mut self,
        lo: Addr<'a>,
        hi: Addr<'a>,
        op: BinOp,
        value: &'a Expr,
    ) -> (done: bool)
        requires
            old(self).cx.env.wf(),
            !(plan_wide_mul_signed(old(self).cx, lo, hi, op, value) is Stuck),
        ensures
            final(self).ran(
                *old(self),
                plan_wide_mul_signed(old(self).cx, lo, hi, op, value),
                done,
            ),
    {
        let cx: Cx<'a> = self.cx;
        let Some(t) = &cx.env.facts(value).widening_type else { return false; };
        if !(widens_signed(t) && op == BinOp::Mul) {
            return false;
        }
        self.put(to_ax(cx, value));
        self.put(cwd());
        self.put(push(ax()));
        self.put(push(dx()));
        self.put(mov(dx(), word(hi)));
        self.put(mov(ax(), word(lo)));
        self.put(pop(cx_()));
        self.put(pop(bx()));
        self.put(call(Helper::LongMul));
        self.store_result(hi, lo);
        true
    }

    /// Emits what [`plan_wide_mul_uchar`] says, if it applies.
    pub fn try_wide_mul_uchar(
        &mut self,
        lo: Addr<'a>,
        hi: Addr<'a>,
        op: BinOp,
        value: &'a Expr,
    ) -> (done: bool)
        requires
            old(self).cx.env.wf(),
            !(plan_wide_mul_uchar(old(self).cx, lo, hi, op, value) is Stuck),
        ensures
            final(self).ran(
                *old(self),
                plan_wide_mul_uchar(old(self).cx, lo, hi, op, value),
                done,
            ),
    {
        let cx: Cx<'a> = self.cx;
        let Some(t) = &cx.env.facts(value).widening_type else { return false; };
        if !(is_uchar(t) && op == BinOp::Mul) {
            return false;
        }
        self.put(to_ax(cx, value));
        self.put(clear(Reg::Cx));
        self.put(mov(dx(), word(hi)));
        self.put(push(ax()));
        self.put(mov(ax(), word(lo)));
        self.put(pop(bx()));
        self.put(call(Helper::LongMul));
        self.store_result(hi, lo);
        true
    }

    /// Emits what [`plan_wide_mul_uint`] says, if it applies.
    pub fn try_wide_mul_uint(
        &mut self,
        lo: Addr<'a>,
        hi: Addr<'a>,
        op: BinOp,
        value: &'a Expr,
    ) -> (done: bool)
        requires
            old(self).cx.env.wf(),
            !(plan_wide_mul_uint(old(self).cx, lo, hi, op, value) is Stuck),
        ensures
            final(self).ran(
                *old(self),
                plan_wide_mul_uint(old(self).cx, lo, hi, op, value),
                done,
            ),
    {
        let cx: Cx<'a> = self.cx;
        let ExprKind::Ident(b) = &value.kind else { return false; };
        let Some(t) = &cx.env.facts(value).widening_type else { return false; };
        if !(is_uint(t) && op == BinOp::Mul) {
            return false;
        }
        let Some(rhs) = cx.env.memory_of(b) else { return false; };
        self.put(mov(bx(), word(rhs)));
        self.put(clear(Reg::Cx));
        self.put(mov(dx(), word(hi)));
        self.put(mov(ax(), word(lo)));
        self.put(call(Helper::LongMul));
        self.store_result(hi, lo);
        true
    }

    /// Emits what [`plan_wide_div`] says, if it applies.
    pub fn try_wide_div(
        &mut self,
        lo: Addr<'a>,
        hi: Addr<'a>,
        unsigned: bool,
        op: BinOp,
        value: &'a Expr,
    ) -> (done: bool)
        requires
            old(self).cx.env.wf(),
            !(plan_wide_div(old(self).cx, lo, hi, unsigned, op, value) is Stuck),
        ensures
            final(self).ran(
                *old(self),
                plan_wide_div(old(self).cx, lo, hi, unsigned, op, value),
                done,
            ),
    {
        let cx: Cx<'a> = self.cx;
        let Some(t) = &cx.env.facts(value).widening_type else { return false; };
        if !(widens_signed(t) || is_uchar(t)) {
            return false;
        }
        if !is_division(op) {
            return false;
        }
        self.put(to_ax(cx, value));
        self.put(widen_long(is_uchar(t)));
        self.put(push(dx()));
        self.put(push(ax()));
        self.push_long(hi, lo);
        self.put(call(divider(op, unsigned)));
        self.store_result(hi, lo);
        true
    }

    /// Emits what [`plan_wide_div_uint`] says, if it applies.
    pub fn try_wide_div_uint(
        &mut self,
        lo: Addr<'a>,
        hi: Addr<'a>,
        unsigned: bool,
        op: BinOp,
        value: &'a Expr,
    ) -> (done: bool)
        requires
            old(self).cx.env.wf(),
            !(plan_wide_div_uint(old(self).cx, lo, hi, unsigned, op, value) is Stuck),
        ensures
            final(self).ran(
                *old(self),
                plan_wide_div_uint(old(self).cx, lo, hi, unsigned, op, value),
                done,
            ),
    {
        let cx: Cx<'a> = self.cx;
        let ExprKind::Ident(b) = &value.kind else { return false; };
        let Some(t) = &cx.env.facts(value).widening_type else { return false; };
        if !(is_uint(t) && is_division(op)) {
            return false;
        }
        let Some(rhs) = cx.env.memory_of(b) else { return false; };
        self.put(clear(Reg::Ax));
        self.put(push(ax()));
        self.put(push(word(rhs)));
        self.push_long(hi, lo);
        self.put(call(divider(op, unsigned)));
        self.store_result(hi, lo);
        true
    }

    /// Shifts a pair of words by the run-time routine, with the count in a byte.
    pub fn wide_shift_by(
        &mut self,
        lo: Addr<'a>,
        hi: Addr<'a>,
        unsigned: bool,
        op: BinOp,
        count: Operand<'a>,
    )
        requires
            old(self).cx.env.wf(),
            plan_wide_shift_by(old(self).cx, lo, hi, unsigned, op, count) is Emit,
        ensures
            final(self).wrote(
                *old(self),
                plan_wide_shift_by(old(self).cx, lo, hi, unsigned, op, count),
            ),
    {
        self.put(mov(cl(), count));
        self.put(mov(dx(), word(hi)));
        self.put(mov(ax(), word(lo)));
        self.put(call(shifter(op, unsigned)));
        self.store_result(hi, lo);
    }

    /// Emits what [`plan_wide_shift_small`] says, if it applies.
    pub fn try_wide_shift_small(
        &mut self,
        lo: Addr<'a>,
        hi: Addr<'a>,
        unsigned: bool,
        op: BinOp,
        value: &'a Expr,
    ) -> (done: bool)
        requires
            old(self).cx.env.wf(),
            !(plan_wide_shift_small(old(self).cx, lo, hi, unsigned, op, value) is Stuck),
        ensures
            final(self).ran(
                *old(self),
                plan_wide_shift_small(old(self).cx, lo, hi, unsigned, op, value),
                done,
            ),
    {
        let cx: Cx<'a> = self.cx;
        let ExprKind::Ident(b) = &value.kind else { return false; };
        let Some(t) = &cx.env.facts(value).widening_type else { return false; };
        if !(is_small_int(t) && is_shift(op)) {
            return false;
        }
        let Some(rhs) = cx.env.memory_of(b) else { return false; };
        self.wide_shift_by(lo, hi, unsigned, op, byte(rhs));
        true
    }

    /// Emits what [`plan_pair_direct`] says, if it applies.
    pub fn try_pair_direct(
        &mut self,
        lo: Addr<'a>,
        hi: Addr<'a>,
        rhs_lo: Addr<'a>,
        rhs_hi: Addr<'a>,
        op: BinOp,
    ) -> (done: bool)
        requires
            old(self).cx.env.wf(),
            !(plan_pair_direct(old(self).cx, lo, hi, rhs_lo, rhs_hi, op) is Stuck),
        ensures
            final(self).ran(
                *old(self),
                plan_pair_direct(old(self).cx, lo, hi, rhs_lo, rhs_hi, op),
                done,
            ),
    {
        if !is_direct(op) {
            return false;
        }
        self.load_halves(rhs_hi, rhs_lo);
        self.put(op2(direct(op), word(lo), dx()));
        self.put(op2(direct_high(op), word(hi), ax()));
        true
    }

    /// Emits what [`plan_pair_mul`] says, if it applies.
    pub fn try_pair_mul(
        &mut self,
        lo: Addr<'a>,
        hi: Addr<'a>,
        rhs_lo: Addr<'a>,
        rhs_hi: Addr<'a>,
        op: BinOp,
    ) -> (done: bool)
        requires
            old(self).cx.env.wf(),
            !(plan_pair_mul(old(self).cx, lo, hi, rhs_lo, rhs_hi, op) is Stuck),
        ensures
            final(self).ran(
                *old(self),
                plan_pair_mul(old(self).cx, lo, hi, rhs_lo, rhs_hi, op),
                done,
            ),
    {
        if !(op == BinOp::Mul) {
            return false;
        }
        self.multiply_long(rhs_hi, rhs_lo, hi, lo);
        self.store_result(hi, lo);
        true
    }

    /// Emits what [`plan_pair_div`] says, if it applies.
    pub fn try_pair_div(
        &mut self,
        lo: Addr<'a>,
        hi: Addr<'a>,
        rhs_lo: Addr<'a>,
        rhs_hi: Addr<'a>,
        op: BinOp,
        unsigned: bool,
    ) -> (done: bool)
        requires
            old(self).cx.env.wf(),
            !(plan_pair_div(old(self).cx, lo, hi, rhs_lo, rhs_hi, op, unsigned) is Stuck),
        ensures
            final(self).ran(
                *old(self),
                plan_pair_div(old(self).cx, lo, hi, rhs_lo, rhs_hi, op, unsigned),
                done,
            ),
    {
        if !is_division(op) {
            return false;
        }
        self.push_long(rhs_hi, rhs_lo);
        self.push_long(hi, lo);
        self.put(call(divider(op, unsigned)));
        self.store_result(hi, lo);
        true
    }

    /// Emits what [`plan_pair_arith`] says, if it applies.
    pub fn try_pair_arith(
        &mut self,
        lo: Addr<'a>,
        hi: Addr<'a>,
        rhs_lo: Addr<'a>,
        rhs_hi: Addr<'a>,
        op: BinOp,
        unsigned: bool,
    ) -> (done: bool)
        requires
            old(self).cx.env.wf(),
            !(plan_pair_arith(old(self).cx, lo, hi, rhs_lo, rhs_hi, op, unsigned) is Stuck),
        ensures
            final(self).ran(
                *old(self),
                plan_pair_arith(old(self).cx, lo, hi, rhs_lo, rhs_hi, op, unsigned),
                done,
            ),
    {
        if self.try_pair_direct(lo, hi, rhs_lo, rhs_hi, op) {
            return true;
        }
        if self.try_pair_mul(lo, hi, rhs_lo, rhs_hi, op) {
            return true;
        }
        if self.try_pair_div(lo, hi, rhs_lo, rhs_hi, op, unsigned) {
            return true;
        }
        false
    }

    /// Emits what [`plan_pair_shift`] says, if it applies.
    pub fn try_pair_shift(
        &mut self,
        lo: Addr<'a>,
        hi: Addr<'a>,
        rhs_lo: Addr<'a>,
        op: BinOp,
        unsigned: bool,
    ) -> (done: bool)
        requires
            old(self).cx.env.wf(),
            !(plan_pair_shift(old(self).cx, lo, hi, rhs_lo, op, unsigned) is Stuck),
        ensures
            final(self).ran(
                *old(self),
                plan_pair_shift(old(self).cx, lo, hi, rhs_lo, op, unsigned),
                done,
            ),
    {
        if !is_shift(op) {
            return false;
        }
        self.wide_shift_by(lo, hi, unsigned, op, byte(rhs_lo));
        true
    }

    /// Emits what [`plan_wide_variable`] says, if it applies.
    pub fn try_wide_variable(
        &mut self,
        lo: Addr<'a>,
        hi: Addr<'a>,
        ty: &'a Type,
        op: BinOp,
        value: &'a Expr,
    ) -> (done: bool)
        requires
            old(self).cx.env.wf(),
            !(plan_wide_variable(old(self).cx, lo, hi, ty, op, value) is Stuck),
        ensures
            final(self).ran(
                *old(self),
                plan_wide_variable(old(self).cx, lo, hi, ty, op, value),
                done,
            ),
    {
        let cx: Cx<'a> = self.cx;
        let ExprKind::Ident(b) = &value.kind else { return false; };
        let Some(rty) = cx.env.var_type(b) else { return false; };
        if !rty.is_long_like() {
            return false;
        }
        let Some((rhs_lo, rhs_hi)) = cx.env.long_halves_of(b) else { return false; };
        if self.try_pair_arith(lo, hi, rhs_lo, rhs_hi, op, ty.is_unsigned() || rty.is_unsigned()) {
            return true;
        }
        if self.try_pair_shift(lo, hi, rhs_lo, op, ty.is_unsigned() || rty.is_unsigned()) {
            return true;
        }
        false
    }

    /// Emits what [`plan_wide_element`] says, if it applies.
    pub fn try_wide_element(
        &mut self,
        name: &'a String,
        ty: &'a Type,
        op: BinOp,
        value: &'a Expr,
    ) -> (done: bool)
        requires
            old(self).cx.env.wf(),
            !(plan_wide_element(old(self).cx, name, ty, op, value) is Stuck),
        ensures
            final(self).ran(
                *old(self),
                plan_wide_element(old(self).cx, name, ty, op, value),
                done,
            ),
    {
        let cx: Cx<'a> = self.cx;
        if !cx.env.is_global(name) {
            return false;
        }
        let Some(rhs) = &cx.env.facts(value).long_halves else { return false; };
        if !(rhs.ty.is_long_like() && !names_global(cx.env, value)) {
            return false;
        }
        if self.try_pair_arith(global(name), global2(name), named(&rhs.lo), named(&rhs.hi), op, ty.is_unsigned() || rhs.ty.is_unsigned()) {
            return true;
        }
        false
    }

    /// Shifts a pair of words by a constant: by one in line, otherwise by the
    /// run-time routine.
    pub fn wide_shift_const(
        &mut self,
        lo: Addr<'a>,
        hi: Addr<'a>,
        unsigned: bool,
        op: BinOp,
        k: u32,
    )
        requires
            old(self).cx.env.wf(),
            plan_wide_shift_const(old(self).cx, lo, hi, unsigned, op, k) is Emit,
        ensures
            final(self).wrote(
                *old(self),
                plan_wide_shift_const(old(self).cx, lo, hi, unsigned, op, k),
            ),
    {
        if k == 1 {
            self.load_halves(hi, lo);
            if op == BinOp::Shl {
                self.double_halves();
            } else {
                self.halve_halves(unsigned);
            }
            self.store_halves(hi, lo);
        } else {
            self.wide_shift_by(lo, hi, unsigned, op, imm(lo8(k)));
        }
    }

    /// Emits what [`plan_wide_global_shift`] says, if it applies.
    pub fn try_wide_global_shift(
        &mut self,
        name: &'a String,
        ty: &'a Type,
        op: BinOp,
        value: &'a Expr,
    ) -> (done: bool)
        requires
            old(self).cx.env.wf(),
            !(plan_wide_global_shift(old(self).cx, name, ty, op, value) is Stuck),
        ensures
            final(self).ran(
                *old(self),
                plan_wide_global_shift(old(self).cx, name, ty, op, value),
                done,
            ),
    {
        let cx: Cx<'a> = self.cx;
        if !(cx.env.is_global(name) && is_shift(op)) {
            return false;
        }
        let Some(k) = cx.env.const_of(value) else { return false; };
        if !(1 <= k && k <= 255) {
            return false;
        }
        self.wide_shift_const(global(name), global2(name), ty.is_unsigned(), op, k);
        true
    }

    /// Emits what [`plan_compound_wide`] says, if it applies.
    pub fn try_compound_wide(
        &mut self,
        name: &'a String,
        op: BinOp,
        value: &'a Expr,
    ) -> (done: bool)
        requires
            old(self).cx.env.wf(),
            !(plan_compound_wide(old(self).cx, name, op, value) is Stuck),
        ensures
            final(self).ran(*old(self), plan_compound_wide(old(self).cx, name, op, value), done),
    {
        let cx: Cx<'a> = self.cx;
        let Some(ty) = cx.env.var_type(name) else { return false; };
        if !ty.is_long_like() {
            return false;
        }
        let Some((lo, hi)) = cx.env.long_halves_of(name) else { return false; };
        if self.try_wide_const(lo, hi, op, value) {
            return true;
        }
        if self.try_wide_signed(lo, hi, op, value) {
            return true;
        }
        if self.try_wide_unsigned(lo, hi, op, value) {
            return true;
        }
        if self.try_wide_mul_signed(lo, hi, op, value) {
            return true;
        }
        if self.try_wide_mul_uchar(lo, hi, op, value) {
            return true;
        }
        if self.try_wide_mul_uint(lo, hi, op, value) {
            return true;
        }
        if self.try_wide_div(lo, hi, ty.is_unsigned(), op, value) {
            return true;
        }
        if self.try_wide_div_uint(lo, hi, ty.is_unsigned(), op, value) {
            return true;
        }
        if self.try_wide_shift_small(lo, hi, ty.is_unsigned(), op, value) {
            return true;
        }
        if self.try_wide_variable(lo, hi, ty, op, value) {
            return true;
        }
        if self.try_wide_element(name, ty, op, value) {
            return true;
        }
        if self.try_wide_global_shift(name, ty, op, value) {
            return true;
        }
        false
    }

    /// Emits what [`plan_wide_local_sum`] says, if it applies.
    pub fn try_wide_local_sum(&mut self, off: i16, op: BinOp, k: u32) -> (done: bool)
        requires
            old(self).cx.env.wf(),
            !(plan_wide_local_sum(old(self).cx, off, op, k) is Stuck),
        ensures
            final(self).ran(*old(self), plan_wide_local_sum(old(self).cx, off, op, k), done),
    {
        if !is_additive(op) {
            return false;
        }
        self.put(op2(direct(op), word(bp(off)), imm(lo16(k))));
        self.put(op2(direct_high(op), word(bp2(off)), imm(0)));
        true
    }

    /// Emits what [`plan_wide_local_bits`] says, if it applies.
    pub fn try_wide_local_bits(&mut self, off: i16, op: BinOp, k: u32) -> (done: bool)
        requires
            old(self).cx.env.wf(),
            !(plan_wide_local_bits(old(self).cx, off, op, k) is Stuck),
        ensures
            final(self).ran(*old(self), plan_wide_local_bits(old(self).cx, off, op, k), done),
    {
        if !is_bitwise(op) {
            return false;
        }
        self.put(op2(direct(op), word(bp(off)), imm(lo16(k))));
        self.put(op2(direct(op), word(bp2(off)), imm(hi16(k))));
        true
    }

    /// Emits what [`plan_wide_local_shift`] says, if it applies.
    pub fn try_wide_local_shift(
        &mut self,
        off: i16,
        unsigned: bool,
        op: BinOp,
        k: u32,
    ) -> (done: bool)
        requires
            old(self).cx.env.wf(),
            !(plan_wide_local_shift(old(self).cx, off, unsigned, op, k) is Stuck),
        ensures
            final(self).ran(
                *old(self),
                plan_wide_local_shift(old(self).cx, off, unsigned, op, k),
                done,
            ),
    {
        if !(is_shift(op) && 1 <= k && k <= 255) {
            return false;
        }
        self.wide_shift_const(bp(off), bp2(off), unsigned, op, k);
        true
    }

    /// Emits what [`plan_wide_local_const`] says, if it applies.
    pub fn try_wide_local_const(
        &mut self,
        name: &'a String,
        op: BinOp,
        value: &'a Expr,
    ) -> (done: bool)
        requires
            old(self).cx.env.wf(),
            !(plan_wide_local_const(old(self).cx, name, op, value) is Stuck),
        ensures
            final(self).ran(
                *old(self),
                plan_wide_local_const(old(self).cx, name, op, value),
                done,
            ),
    {
        let cx: Cx<'a> = self.cx;
        let Some(ty) = cx.env.local_type(name) else { return false; };
        if !ty.is_long_like() {
            return false;
        }
        let Some(k) = cx.env.const_of(value) else { return false; };
        let Some(off) = cx.env.stack_of(name) else { return false; };
        if self.try_wide_local_sum(off, op, k) {
            return true;
        }
        if self.try_wide_local_bits(off, op, k) {
            return true;
        }
        if self.try_wide_local_shift(off, ty.is_unsigned(), op, k) {
            return true;
        }
        false
    }

    /// Emits what [`plan_wide_local_pair`] says, if it applies.
    pub fn try_wide_local_pair(
        &mut self,
        name: &'a String,
        op: BinOp,
        value: &'a Expr,
    ) -> (done: bool)
        requires
            old(self).cx.env.wf(),
            !(plan_wide_local_pair(old(self).cx, name, op, value) is Stuck),
        ensures
            final(self).ran(
                *old(self),
                plan_wide_local_pair(old(self).cx, name, op, value),
                done,
            ),
    {
        let cx: Cx<'a> = self.cx;
        if !cx.env.is_long_local(name) {
            return false;
        }
        let ExprKind::Ident(b) = &value.kind else { return false; };
        if !cx.env.is_long_local(b) {
            return false;
        }
        if !(is_direct(op) || is_multiplicative(op)) {
            return false;
        }
        let Some(x) = cx.env.stack_of(name) else { return false; };
        let Some(y) = cx.env.stack_of(b) else { return false; };
        return self.try_pair_arith(bp(x), bp2(x), bp(y), bp2(y), op, cx.env.is_unsigned_local(name) || cx.env.is_unsigned_local(b));
    }

    /// Emits what [`plan_compound_long`] says, if it applies.
    pub fn try_compound_long(
        &mut self,
        name: &'a String,
        op: BinOp,
        value: &'a Expr,
    ) -> (done: bool)
        requires
            old(self).cx.env.wf(),
            !(plan_compound_long(old(self).cx, name, op, value) is Stuck),
        ensures
            final(self).ran(*old(self), plan_compound_long(old(self).cx, name, op, value), done),
    {
        if self.try_compound_wide(name, op, value) {
            return true;
        }
        if self.try_wide_local_const(name, op, value) {
            return true;
        }
        if self.try_wide_local_pair(name, op, value) {
            return true;
        }
        false
    }
}

} // verus!
