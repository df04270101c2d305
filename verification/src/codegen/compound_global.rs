//! Compound assignment to file-scope integers and characters.

use vstd::prelude::*;
use crate::ast::{BinOp, Expr, ExprKind, Type};
use crate::codegen::emitter::{
    add_to, cbw, cwd, idiv, imul, mov, op1, op2, pop, push, shl1, to_ax, widen, widen_long, Cx,
    FunctionEmitter, Plan,
};
use crate::codegen::env::{is_plain_int, is_small_int, Env};
use crate::isa::{
    al, at, ax, bp, bx, byte, cl, direct, dl, dx, given, global, halvings, imm, is_additive,
    is_direct, is_division, is_multiplicative, is_pow2, is_shift, lo16, lo8, named, neg8,
    quotient, r, shift, step_by_one, word, Mnemonic, Operand, Reg,
};

verus! {

/// A shift by a constant, one place at a time up to three.
pub open spec fn plan_int_shift_const<'a>(
    cx: Cx<'a>,
    name: &'a String,
    ty: &'a Type,
    op: BinOp,
    value: &'a Expr,
) -> Plan<'a> {
    if is_shift(op) {
        if let Some(k) = cx.env.const_of(value) {
            if k >= 1 {
                if k <= 3 {
                    Plan::Emit(op2(shift(op, ty.is_unsigned()), word(global(name)), imm(1)).times(k as nat))
                } else {
                    Plan::Emit(seq![
                        mov(cl(), imm(lo8(k))),
                        op2(shift(op, ty.is_unsigned()), word(global(name)), cl()),
                    ])
                }
            } else {
                Plan::Skip
            }
        } else {
            Plan::Skip
        }
    } else {
        Plan::Skip
    }
}

/// Whether a file-scope variable is an `int` or an `unsigned int`.
#[verifier::allow_in_spec]
pub fn is_plain_int_global(env: &Env, name: &String) -> bool
    returns
        (match env.global_type(name) {
            Some(t) => is_plain_int(t),
            None => false,
        }),
{
    match env.global_type(name) {
        Some(t) => is_plain_int(t),
        None => false,
    }
}

/// Another file-scope integer added or subtracted.
pub open spec fn plan_int_sum_global<'a>(
    cx: Cx<'a>,
    name: &'a String,
    op: BinOp,
    value: &'a Expr,
) -> Plan<'a> {
    if is_additive(op) {
        if let ExprKind::Ident(rhs) = &value.kind {
            if is_plain_int_global(cx.env, rhs) {
                Plan::Emit(seq![
                    mov(ax(), word(global(rhs))),
                    op2(direct(op), word(global(name)), ax()),
                ])
            } else {
                Plan::Skip
            }
        } else {
            Plan::Skip
        }
    } else {
        Plan::Skip
    }
}

/// A constant, applied in memory; one is added by `inc`.
pub open spec fn plan_int_const<'a>(
    cx: Cx<'a>,
    name: &'a String,
    op: BinOp,
    value: &'a Expr,
) -> Plan<'a> {
    if is_direct(op) {
        if let Some(v) = cx.env.const_of(value) {
            if is_additive(op) && lo16(v) == 1 {
                Plan::Emit(seq![op1(step_by_one(op), word(global(name)))])
            } else {
                Plan::Emit(seq![op2(direct(op), word(global(name)), imm(lo16(v)))])
            }
        } else {
            Plan::Skip
        }
    } else {
        Plan::Skip
    }
}

/// A right side that is computed in `ax`.
pub open spec fn plan_int_direct<'a>(
    cx: Cx<'a>,
    name: &'a String,
    op: BinOp,
    value: &'a Expr,
) -> Plan<'a> {
    if is_direct(op) {
        if let Some(t) = &cx.env.facts(value).compound_type {
            if is_small_int(t) {
                Plan::Emit(seq![
                    to_ax(cx, value),
                    op2(direct(op), word(global(name)), ax()),
                ])
            } else {
                Plan::Skip
            }
        } else {
            Plan::Skip
        }
    } else {
        Plan::Skip
    }
}

/// Whether the right side widens from an integer.
#[verifier::allow_in_spec]
pub fn widens_from_int(env: &Env, e: &Expr) -> bool
    returns
        (match &env.facts(e).widening_type {
            Some(t) => is_plain_int(t),
            None => false,
        }),
{
    match &env.facts(e).widening_type {
        Some(t) => is_plain_int(t),
        None => false,
    }
}

/// Whether the right side widens from a character.
#[verifier::allow_in_spec]
pub fn widens_from_char(env: &Env, e: &Expr) -> bool
    returns
        (match &env.facts(e).widening_type {
            Some(t) => t.is_char_like(),
            None => false,
        }),
{
    match &env.facts(e).widening_type {
        Some(t) => t.is_char_like(),
        None => false,
    }
}

/// A product with a local integer on the stack.
pub open spec fn plan_int_mul_local<'a>(
    cx: Cx<'a>,
    name: &'a String,
    op: BinOp,
    value: &'a Expr,
) -> Plan<'a> {
    if op == BinOp::Mul && widens_from_int(cx.env, value) {
        if let ExprKind::Ident(b) = &value.kind {
            if !cx.env.is_global(b) {
                if let Some(off) = cx.env.stack_of(b) {
                    Plan::Emit(seq![
                        mov(ax(), word(global(name))),
                        imul(word(bp(off))),
                        mov(word(global(name)), ax()),
                    ])
                } else {
                    Plan::Stuck
                }
            } else {
                Plan::Skip
            }
        } else {
            Plan::Skip
        }
    } else {
        Plan::Skip
    }
}

/// The division instruction.
#[verifier::allow_in_spec]
pub fn division(unsigned: bool) -> Mnemonic
    returns
        (if unsigned { Mnemonic::Div } else { Mnemonic::Idiv }),
{
    if unsigned { Mnemonic::Div } else { Mnemonic::Idiv }
}

/// Divides `ax` by an operand, with or without sign.
pub open spec fn plan_divide_by<'a>(cx: Cx<'a>, unsigned: bool, by: Operand<'a>) -> Plan<'a> {
    Plan::Emit(seq![
        widen_long(unsigned),
        op1(division(unsigned), by),
    ])
}

/// A product, quotient or remainder with a constant: a factor is taken in
/// `dx`, a divisor in `bx`.
pub open spec fn plan_int_mul_const<'a>(
    cx: Cx<'a>,
    name: &'a String,
    ty: &'a Type,
    op: BinOp,
    value: &'a Expr,
) -> Plan<'a> {
    if is_multiplicative(op) {
        if let Some(k) = cx.env.const_of(value) {
            if op == BinOp::Mul {
                Plan::Emit(seq![
                    mov(dx(), imm(lo16(k))),
                    mov(ax(), word(global(name))),
                    imul(dx()),
                    mov(word(global(name)), ax()),
                ])
            } else {
                Plan::Emit(seq![
                    mov(bx(), imm(lo16(k))),
                    mov(ax(), word(global(name))),
                ]).followed_by(plan_divide_by(cx, ty.is_unsigned(), bx())).followed_by(
                    Plan::Emit(seq![mov(word(global(name)), quotient(op))]),
                )
            }
        } else {
            Plan::Skip
        }
    } else {
        Plan::Skip
    }
}

/// A product, quotient or remainder with an integer behind a register.
pub open spec fn plan_int_mul_deref<'a>(
    cx: Cx<'a>,
    name: &'a String,
    op: BinOp,
    value: &'a Expr,
) -> Plan<'a> {
    if is_multiplicative(op) {
        if let ExprKind::Deref(inner) = &value.kind {
            if let ExprKind::Ident(p) = &inner.kind {
                if !cx.env.is_global(p) {
                    if let Some(l) = cx.env.local(p) {
                        if let Some(reg) = cx.env.word_reg_of(p) {
                            if let Some(t) = l.ty.pointee() {
                                if is_plain_int(t) {
                                    Plan::Emit(seq![mov(ax(), word(global(name)))]).followed_by(
                                        crate::codegen::deref_write::plan_multiply_or_divide(cx, op, word(at(reg))),
                                    ).followed_by(
                                        Plan::Emit(seq![mov(word(global(name)), quotient(op))]),
                                    )
                                } else {
                                    Plan::Skip
                                }
                            } else {
                                Plan::Skip
                            }
                        } else {
                            Plan::Skip
                        }
                    } else {
                        Plan::Stuck
                    }
                } else {
                    Plan::Skip
                }
            } else {
                Plan::Skip
            }
        } else {
            Plan::Skip
        }
    } else {
        Plan::Skip
    }
}

/// A product, quotient or remainder with an integer in file-scope storage.
pub open spec fn plan_int_mul_global<'a>(
    cx: Cx<'a>,
    name: &'a String,
    ty: &'a Type,
    op: BinOp,
    value: &'a Expr,
) -> Plan<'a> {
    if is_multiplicative(op) {
        if let Some(rhs) = &cx.env.facts(value).global_int {
            if is_plain_int(&rhs.ty) {
                Plan::Emit(seq![mov(ax(), word(global(name)))]).followed_by(
                    if op == BinOp::Mul {
                        Plan::Emit(seq![imul(word(named(&rhs.addr)))])
                    } else {
                        plan_divide_by(cx, ty.is_unsigned(), word(named(&rhs.addr)))
                    },
                ).followed_by(Plan::Emit(seq![mov(word(global(name)), quotient(op))]))
            } else {
                Plan::Skip
            }
        } else {
            Plan::Skip
        }
    } else {
        Plan::Skip
    }
}

/// A shift with the count in `cl`.
pub open spec fn plan_int_shift<'a>(
    cx: Cx<'a>,
    name: &'a String,
    ty: &'a Type,
    op: BinOp,
    value: &'a Expr,
) -> Plan<'a> {
    if is_shift(op) {
        if let Some(t) = &cx.env.facts(value).compound_type {
            if is_small_int(t) {
                if let Some(count) = &cx.env.facts(value).byte_operand {
                    Plan::Emit(seq![
                        mov(cl(), given(count)),
                        op2(shift(op, ty.is_unsigned()), word(global(name)), cl()),
                    ])
                } else {
                    Plan::Skip
                }
            } else {
                Plan::Skip
            }
        } else {
            Plan::Skip
        }
    } else {
        Plan::Skip
    }
}

/// A quotient or remainder by a local integer on the stack.
pub open spec fn plan_int_div_local<'a>(
    cx: Cx<'a>,
    name: &'a String,
    ty: &'a Type,
    op: BinOp,
    value: &'a Expr,
) -> Plan<'a> {
    if is_division(op) && widens_from_int(cx.env, value) {
        if let ExprKind::Ident(b) = &value.kind {
            if !cx.env.is_global(b) {
                if let Some(off) = cx.env.stack_of(b) {
                    Plan::Emit(seq![mov(ax(), word(global(name)))]).followed_by(
                        plan_divide_by(cx, ty.is_unsigned(), word(bp(off))),
                    ).followed_by(Plan::Emit(seq![mov(word(global(name)), quotient(op))]))
                } else {
                    Plan::Stuck
                }
            } else {
                Plan::Skip
            }
        } else {
            Plan::Skip
        }
    } else {
        Plan::Skip
    }
}

/// A product with a character variable, which is widened first.
pub open spec fn plan_int_mul_char<'a>(
    cx: Cx<'a>,
    name: &'a String,
    op: BinOp,
    value: &'a Expr,
) -> Plan<'a> {
    if op == BinOp::Mul && widens_from_char(cx.env, value) {
        if let ExprKind::Ident(_) = &value.kind {
            Plan::Emit(seq![
                to_ax(cx, value),
                push(ax()),
                mov(ax(), word(global(name))),
                pop(dx()),
                imul(dx()),
                mov(word(global(name)), ax()),
            ])
        } else {
            Plan::Skip
        }
    } else {
        Plan::Skip
    }
}

/// A quotient or remainder by a character variable, which is widened first.
pub open spec fn plan_int_div_char<'a>(
    cx: Cx<'a>,
    name: &'a String,
    op: BinOp,
    value: &'a Expr,
) -> Plan<'a> {
    if is_division(op) && widens_from_char(cx.env, value) {
        if let ExprKind::Ident(_) = &value.kind {
            Plan::Emit(seq![
                to_ax(cx, value),
                push(ax()),
                mov(ax(), word(global(name))),
                cwd(),
                pop(bx()),
                idiv(bx()),
                mov(word(global(name)), quotient(op)),
            ])
        } else {
            Plan::Skip
        }
    } else {
        Plan::Skip
    }
}

/// A file-scope `int` or `unsigned int`.
pub open spec fn plan_compound_global_int<'a>(
    cx: Cx<'a>,
    name: &'a String,
    ty: &'a Type,
    op: BinOp,
    value: &'a Expr,
) -> Plan<'a> {
    if is_plain_int(ty) {
        match plan_int_shift_const(cx, name, ty, op, value) {
            Plan::Skip => {
                match plan_int_sum_global(cx, name, op, value) {
                    Plan::Skip => {
                        match plan_int_const(cx, name, op, value) {
                            Plan::Skip => {
                                match plan_int_direct(cx, name, op, value) {
                                    Plan::Skip => {
                                        match plan_int_mul_local(cx, name, op, value) {
                                            Plan::Skip => {
                                                match plan_int_mul_const(cx, name, ty, op, value) {
                                                    Plan::Skip => {
                                                        match plan_int_mul_deref(cx, name, op, value) {
                                                            Plan::Skip => {
                                                                match plan_int_mul_global(cx, name, ty, op, value) {
                                                                    Plan::Skip => {
                                                                        match plan_int_shift(cx, name, ty, op, value) {
                                                                            Plan::Skip => {
                                                                                match plan_int_div_local(cx, name, ty, op, value) {
                                                                                    Plan::Skip => {
                                                                                        match plan_int_mul_char(cx, name, op, value) {
                                                                                            Plan::Skip => {
                                                                                                plan_int_div_char(cx, name, op, value)
                                                                                            },
                                                                                            taken => taken,
                                                                                        }
                                                                                    },
                                                                                    taken => taken,
                                                                                }
                                                                            },
                                                                            taken => taken,
                                                                        }
                                                                    },
                                                                    taken => taken,
                                                                }
                                                            },
                                                            taken => taken,
                                                        }
                                                    },
                                                    taken => taken,
                                                }
                                            },
                                            taken => taken,
                                        }
                                    },
                                    taken => taken,
                                }
                            },
                            taken => taken,
                        }
                    },
                    taken => taken,
                }
            },
            taken => taken,
        }
    } else {
        Plan::Skip
    }
}

/// Multiplies `al` by a power of two, one place at a time up to three.
pub open spec fn plan_shift_al<'a>(cx: Cx<'a>, shifts: u32) -> Plan<'a> {
    if shifts <= 3 {
        Plan::Emit(shl1(al()).times(shifts as nat))
    } else {
        Plan::Emit(seq![
            mov(cl(), imm(shifts as i64)),
            op2(Mnemonic::Shl, al(), cl()),
        ])
    }
}

/// Whether a factor is a power of two that a byte can be shifted by.
#[verifier::allow_in_spec]
pub fn is_byte_shift(k: u32) -> bool
    returns
        (is_pow2(k) && k <= 256),
{
    is_pow2(k) && k <= 256
}

/// Multiplies the character in `al` by a constant.
pub open spec fn plan_multiply_al<'a>(cx: Cx<'a>, k: u32) -> Plan<'a> {
    if is_byte_shift(k) {
        plan_shift_al(cx, halvings(k))
    } else {
        Plan::Emit(seq![
            cbw(),
            mov(dx(), imm(lo16(k))),
            imul(dx()),
        ])
    }
}

/// A character multiplied by a constant.
pub open spec fn plan_char_mul_const<'a>(
    cx: Cx<'a>,
    name: &'a String,
    op: BinOp,
    value: &'a Expr,
) -> Plan<'a> {
    if op == BinOp::Mul {
        if let Some(k) = cx.env.const_of(value) {
            Plan::Emit(seq![mov(al(), byte(global(name)))]).followed_by(plan_multiply_al(cx, k)).followed_by(
                Plan::Emit(seq![mov(byte(global(name)), al())]),
            )
        } else {
            Plan::Skip
        }
    } else {
        Plan::Skip
    }
}

/// Where a 16-bit division leaves the low byte of its result.
#[verifier::allow_in_spec]
pub fn low_quotient<'b>(op: BinOp) -> Operand<'b>
    returns
        (if op == BinOp::Div { al() } else { dl() }),
{
    if op == BinOp::Div { al() } else { dl() }
}

/// Where an 8-bit division leaves its result.
#[verifier::allow_in_spec]
pub fn byte_quotient<'b>(op: BinOp) -> Operand<'b>
    returns
        (if op == BinOp::Div { al() } else { r(Reg::Ah) }),
{
    if op == BinOp::Div { al() } else { r(Reg::Ah) }
}

/// A character divided by a constant.
pub open spec fn plan_char_div_const<'a>(
    cx: Cx<'a>,
    name: &'a String,
    ty: &'a Type,
    op: BinOp,
    value: &'a Expr,
) -> Plan<'a> {
    if is_division(op) {
        if let Some(v) = cx.env.const_of(value) {
            Plan::Emit(seq![
                mov(al(), byte(global(name))),
                widen(ty.is_unsigned()),
                mov(bx(), imm(lo16(v))),
                cwd(),
                idiv(bx()),
                mov(byte(global(name)), low_quotient(op)),
            ])
        } else {
            Plan::Skip
        }
    } else {
        Plan::Skip
    }
}

/// A character shifted by a small constant, one place at a time.
pub open spec fn plan_char_shift_const<'a>(
    cx: Cx<'a>,
    name: &'a String,
    ty: &'a Type,
    op: BinOp,
    value: &'a Expr,
) -> Plan<'a> {
    if is_shift(op) {
        if let Some(k) = cx.env.const_of(value) {
            if 1 <= k && k <= 8 {
                Plan::Emit(op2(shift(op, ty.is_unsigned()), byte(global(name)), imm(1)).times(k as nat))
            } else {
                Plan::Skip
            }
        } else {
            Plan::Skip
        }
    } else {
        Plan::Skip
    }
}

/// What is added to a byte for `+ v` or `- v`.
#[verifier::allow_in_spec]
pub fn byte_delta(op: BinOp, v: u32) -> i64
    returns
        (if op == BinOp::Add { lo8(v) } else { neg8(v) }),
{
    if op == BinOp::Add { lo8(v) } else { neg8(v) }
}

/// A constant applied to a character: sums are made in `al`, bits are
/// changed in memory.
pub open spec fn plan_char_const<'a>(
    cx: Cx<'a>,
    name: &'a String,
    op: BinOp,
    value: &'a Expr,
) -> Plan<'a> {
    if is_direct(op) {
        if let Some(v) = cx.env.const_of(value) {
            if is_additive(op) {
                Plan::Emit(seq![mov(al(), byte(global(name)))]).followed_by(
                    if byte_delta(op, v) == 1 {
                        Plan::Emit(seq![op1(Mnemonic::Inc, al())])
                    } else if byte_delta(op, v) == 255 {
                        Plan::Emit(seq![op1(Mnemonic::Dec, al())])
                    } else {
                        Plan::Emit(seq![add_to(al(), imm(byte_delta(op, v)))])
                    },
                ).followed_by(Plan::Emit(seq![mov(byte(global(name)), al())]))
            } else {
                Plan::Emit(seq![op2(direct(op), byte(global(name)), imm(lo8(v)))])
            }
        } else {
            Plan::Skip
        }
    } else {
        Plan::Skip
    }
}

/// A product of characters.
pub open spec fn plan_char_mul<'a>(
    cx: Cx<'a>,
    name: &'a String,
    op: BinOp,
    value: &'a Expr,
) -> Plan<'a> {
    if op == BinOp::Mul && cx.env.const_of(value).is_none() {
        if let Some(src) = &cx.env.facts(value).source {
            Plan::Emit(seq![
                mov(al(), byte(global(name))),
                imul(given(&src.byte)),
                mov(byte(global(name)), al()),
            ])
        } else {
            Plan::Stuck
        }
    } else {
        Plan::Skip
    }
}

/// Divides the character in `al` by a byte, with or without sign.
pub open spec fn plan_divide_al<'a>(cx: Cx<'a>, unsigned: bool, by: Operand<'a>) -> Plan<'a> {
    Plan::Emit(seq![widen(unsigned)]).followed_by(
        if unsigned {
            Plan::Emit(seq![op2(Mnemonic::Div, al(), by)])
        } else {
            Plan::Emit(seq![idiv(by)])
        },
    )
}

/// A quotient or remainder of characters.
pub open spec fn plan_char_div<'a>(
    cx: Cx<'a>,
    name: &'a String,
    ty: &'a Type,
    op: BinOp,
    value: &'a Expr,
) -> Plan<'a> {
    if is_division(op) && cx.env.const_of(value).is_none() {
        if let Some(src) = &cx.env.facts(value).source {
            Plan::Emit(seq![mov(al(), byte(global(name)))]).followed_by(
                plan_divide_al(cx, ty.is_unsigned(), given(&src.byte)),
            ).followed_by(Plan::Emit(seq![mov(byte(global(name)), byte_quotient(op))]))
        } else {
            Plan::Stuck
        }
    } else {
        Plan::Skip
    }
}

/// A character shifted by a byte.
pub open spec fn plan_char_shift<'a>(
    cx: Cx<'a>,
    name: &'a String,
    ty: &'a Type,
    op: BinOp,
    value: &'a Expr,
) -> Plan<'a> {
    if is_shift(op) && cx.env.const_of(value).is_none() {
        if let Some(src) = &cx.env.facts(value).source {
            Plan::Emit(seq![
                mov(cl(), given(&src.byte)),
                op2(shift(op, ty.is_unsigned()), byte(global(name)), cl()),
            ])
        } else {
            Plan::Stuck
        }
    } else {
        Plan::Skip
    }
}

/// A direct operator on characters.
pub open spec fn plan_char_direct<'a>(
    cx: Cx<'a>,
    name: &'a String,
    op: BinOp,
    value: &'a Expr,
) -> Plan<'a> {
    if is_direct(op) && cx.env.const_of(value).is_none() {
        if let Some(src) = &cx.env.facts(value).source {
            Plan::Emit(seq![
                mov(al(), given(&src.byte)),
                op2(direct(op), byte(global(name)), al()),
            ])
        } else {
            Plan::Stuck
        }
    } else {
        Plan::Skip
    }
}

/// A file-scope character.
pub open spec fn plan_compound_global_char<'a>(
    cx: Cx<'a>,
    name: &'a String,
    ty: &'a Type,
    op: BinOp,
    value: &'a Expr,
) -> Plan<'a> {
    if ty.is_char_like() {
        match plan_char_mul_const(cx, name, op, value) {
            Plan::Skip => {
                match plan_char_div_const(cx, name, ty, op, value) {
                    Plan::Skip => {
                        match plan_char_shift_const(cx, name, ty, op, value) {
                            Plan::Skip => {
                                match plan_char_const(cx, name, op, value) {
                                    Plan::Skip => {
                                        match plan_char_mul(cx, name, op, value) {
                                            Plan::Skip => {
                                                match plan_char_div(cx, name, ty, op, value) {
                                                    Plan::Skip => {
                                                        match plan_char_shift(cx, name, ty, op, value) {
                                                            Plan::Skip => {
                                                                plan_char_direct(cx, name, op, value)
                                                            },
                                                            taken => taken,
                                                        }
                                                    },
                                                    taken => taken,
                                                }
                                            },
                                            taken => taken,
                                        }
                                    },
                                    taken => taken,
                                }
                            },
                            taken => taken,
                        }
                    },
                    taken => taken,
                }
            },
            taken => taken,
        }
    } else {
        Plan::Skip
    }
}

/// A file-scope integer or character as the target of a compound
/// assignment.
pub open spec fn plan_compound_global<'a>(
    cx: Cx<'a>,
    name: &'a String,
    op: BinOp,
    value: &'a Expr,
) -> Plan<'a> {
    if let Some(ty) = cx.env.global_type(name) {
        match plan_compound_global_int(cx, name, ty, op, value) {
            Plan::Skip => {
                plan_compound_global_char(cx, name, ty, op, value)
            },
            taken => taken,
        }
    } else {
        Plan::Skip
    }
}

impl<'a> FunctionEmitter<'a> {
    /// Emits what [`plan_int_shift_const`] says, if it applies.
    pub fn try_int_shift_const(
        &mut self,
        name: &'a String,
        ty: &'a Type,
        op: BinOp,
        value: &'a Expr,
    ) -> (done: bool)
        requires
            old(self).cx.env.wf(),
            !(plan_int_shift_const(old(self).cx, name, ty, op, value) is Stuck),
        ensures
            final(self).ran(
                *old(self),
                plan_int_shift_const(old(self).cx, name, ty, op, value),
                done,
            ),
    {
        let cx: Cx<'a> = self.cx;
        if !is_shift(op) {
            return false;
        }
        let Some(k) = cx.env.const_of(value) else { return false; };
        if !(k >= 1) {
            return false;
        }
        if k <= 3 {
            self.put_times(op2(shift(op, ty.is_unsigned()), word(global(name)), imm(1)), k as u64);
            return true;
        } else {
            self.put(mov(cl(), imm(lo8(k))));
            self.put(op2(shift(op, ty.is_unsigned()), word(global(name)), cl()));
            return true;
        }
    }

    /// Emits what [`plan_int_sum_global`] says, if it applies.
    pub fn try_int_sum_global(
        &mut self,
        name: &'a String,
        op: BinOp,
        value: &'a Expr,
    ) -> (done: bool)
        requires
            old(self).cx.env.wf(),
            !(plan_int_sum_global(old(self).cx, name, op, value) is Stuck),
        ensures
            final(self).ran(*old(self), plan_int_sum_global(old(self).cx, name, op, value), done),
    {
        let cx: Cx<'a> = self.cx;
        if !is_additive(op) {
            return false;
        }
        let ExprKind::Ident(rhs) = &value.kind else { return false; };
        if !(is_plain_int_global(cx.env, rhs)) {
            return false;
        }
        self.put(mov(ax(), word(global(rhs))));
        self.put(op2(direct(op), word(global(name)), ax()));
        true
    }

    /// Emits what [`plan_int_const`] says, if it applies.
    pub fn try_int_const(&mut self, name: &'a String, op: BinOp, value: &'a Expr) -> (done: bool)
        requires
            old(self).cx.env.wf(),
            !(plan_int_const(old(self).cx, name, op, value) is Stuck),
        ensures
            final(self).ran(*old(self), plan_int_const(old(self).cx, name, op, value), done),
    {
        let cx: Cx<'a> = self.cx;
        if !is_direct(op) {
            return false;
        }
        let Some(v) = cx.env.const_of(value) else { return false; };
        if is_additive(op) && lo16(v) == 1 {
            self.put(op1(step_by_one(op), word(global(name))));
            return true;
        } else {
            self.put(op2(direct(op), word(global(name)), imm(lo16(v))));
            return true;
        }
    }

    /// Emits what [`plan_int_direct`] says, if it applies.
    pub fn try_int_direct(&mut self, name: &'a String, op: BinOp, value: &'a Expr) -> (done: bool)
        requires
            old(self).cx.env.wf(),
            !(plan_int_direct(old(self).cx, name, op, value) is Stuck),
        ensures
            final(self).ran(*old(self), plan_int_direct(old(self).cx, name, op, value), done),
    {
        let cx: Cx<'a> = self.cx;
        if !is_direct(op) {
            return false;
        }
        let Some(t) = &cx.env.facts(value).compound_type else { return false; };
        if !is_small_int(t) {
            return false;
        }
        self.put(to_ax(cx, value));
        self.put(op2(direct(op), word(global(name)), ax()));
        true
    }

    /// Emits what [`plan_int_mul_local`] says, if it applies.
    pub fn try_int_mul_local(
        &mut self,
        name: &'a String,
        op: BinOp,
        value: &'a Expr,
    ) -> (done: bool)
        requires
            old(self).cx.env.wf(),
            !(plan_int_mul_local(old(self).cx, name, op, value) is Stuck),
        ensures
            final(self).ran(*old(self), plan_int_mul_local(old(self).cx, name, op, value), done),
    {
        let cx: Cx<'a> = self.cx;
        if !(op == BinOp::Mul && widens_from_int(cx.env, value)) {
            return false;
        }
        let ExprKind::Ident(b) = &value.kind else { return false; };
        if !(!cx.env.is_global(b)) {
            return false;
        }
        let Some(off) = cx.env.stack_of(b) else { return false; };
        self.put(mov(ax(), word(global(name))));
        self.put(imul(word(bp(off))));
        self.put(mov(word(global(name)), ax()));
        true
    }

    /// Divides `ax` by an operand, with or without sign.
    pub fn divide_by(&mut self, unsigned: bool, by: Operand<'a>)
        requires
            old(self).cx.env.wf(),
            plan_divide_by(old(self).cx, unsigned, by) is Emit,
        ensures
            final(self).wrote(*old(self), plan_divide_by(old(self).cx, unsigned, by)),
    {
        self.put(widen_long(unsigned));
        self.put(op1(division(unsigned), by));
    }

    /// Emits what [`plan_int_mul_const`] says, if it applies.
    pub fn try_int_mul_const(
        &mut self,
        name: &'a String,
        ty: &'a Type,
        op: BinOp,
        value: &'a Expr,
    ) -> (done: bool)
        requires
            old(self).cx.env.wf(),
            !(plan_int_mul_const(old(self).cx, name, ty, op, value) is Stuck),
        ensures
            final(self).ran(
                *old(self),
                plan_int_mul_const(old(self).cx, name, ty, op, value),
                done,
            ),
    {
        let cx: Cx<'a> = self.cx;
        if !is_multiplicative(op) {
            return false;
        }
        let Some(k) = cx.env.const_of(value) else { return false; };
        if op == BinOp::Mul {
            self.put(mov(dx(), imm(lo16(k))));
            self.put(mov(ax(), word(global(name))));
            self.put(imul(dx()));
            self.put(mov(word(global(name)), ax()));
            return true;
        } else {
            self.put(mov(bx(), imm(lo16(k))));
            self.put(mov(ax(), word(global(name))));
            self.divide_by(ty.is_unsigned(), bx());
            self.put(mov(word(global(name)), quotient(op)));
            return true;
        }
    }

    /// Emits what [`plan_int_mul_deref`] says, if it applies.
    pub fn try_int_mul_deref(
        &mut self,
        name: &'a String,
        op: BinOp,
        value: &'a Expr,
    ) -> (done: bool)
        requires
            old(self).cx.env.wf(),
            !(plan_int_mul_deref(old(self).cx, name, op, value) is Stuck),
        ensures
            final(self).ran(*old(self), plan_int_mul_deref(old(self).cx, name, op, value), done),
    {
        let cx: Cx<'a> = self.cx;
        if !is_multiplicative(op) {
            return false;
        }
        let ExprKind::Deref(inner) = &value.kind else { return false; };
        let ExprKind::Ident(p) = &inner.kind else { return false; };
        if !(!cx.env.is_global(p)) {
            return false;
        }
        let Some(l) = cx.env.local(p) else { return false; };
        let Some(reg) = cx.env.word_reg_of(p) else { return false; };
        let Some(t) = l.ty.pointee() else { return false; };
        if !is_plain_int(t) {
            return false;
        }
        self.put(mov(ax(), word(global(name))));
        self.multiply_or_divide(op, word(at(reg)));
        self.put(mov(word(global(name)), quotient(op)));
        true
    }

    /// Emits what [`plan_int_mul_global`] says, if it applies.
    pub fn try_int_mul_global(
        &mut self,
        name: &'a String,
        ty: &'a Type,
        op: BinOp,
        value: &'a Expr,
    ) -> (done: bool)
        requires
            old(self).cx.env.wf(),
            !(plan_int_mul_global(old(self).cx, name, ty, op, value) is Stuck),
        ensures
            final(self).ran(
                *old(self),
                plan_int_mul_global(old(self).cx, name, ty, op, value),
                done,
            ),
    {
        let cx: Cx<'a> = self.cx;
        if !is_multiplicative(op) {
            return false;
        }
        let Some(rhs) = &cx.env.facts(value).global_int else { return false; };
        if !is_plain_int(&rhs.ty) {
            return false;
        }
        self.put(mov(ax(), word(global(name))));
        if op == BinOp::Mul {
            self.put(imul(word(named(&rhs.addr))));
        } else {
            self.divide_by(ty.is_unsigned(), word(named(&rhs.addr)));
        }
        self.put(mov(word(global(name)), quotient(op)));
        true
    }

    /// Emits what [`plan_int_shift`] says, if it applies.
    pub fn try_int_shift(
        &mut self,
        name: &'a String,
        ty: &'a Type,
        op: BinOp,
        value: &'a Expr,
    ) -> (done: bool)
        requires
            old(self).cx.env.wf(),
            !(plan_int_shift(old(self).cx, name, ty, op, value) is Stuck),
        ensures
            final(self).ran(*old(self), plan_int_shift(old(self).cx, name, ty, op, value), done),
    {
        let cx: Cx<'a> = self.cx;
        if !is_shift(op) {
            return false;
        }
        let Some(t) = &cx.env.facts(value).compound_type else { return false; };
        if !is_small_int(t) {
            return false;
        }
        let Some(count) = &cx.env.facts(value).byte_operand else { return false; };
        self.put(mov(cl(), given(count)));
        self.put(op2(shift(op, ty.is_unsigned()), word(global(name)), cl()));
        true
    }

    /// Emits what [`plan_int_div_local`] says, if it applies.
    pub fn try_int_div_local(
        &mut self,
        name: &'a String,
        ty: &'a Type,
        op: BinOp,
        value: &'a Expr,
    ) -> (done: bool)
        requires
            old(self).cx.env.wf(),
            !(plan_int_div_local(old(self).cx, name, ty, op, value) is Stuck),
        ensures
            final(self).ran(
                *old(self),
                plan_int_div_local(old(self).cx, name, ty, op, value),
                done,
            ),
    {
        let cx: Cx<'a> = self.cx;
        if !(is_division(op) && widens_from_int(cx.env, value)) {
            return false;
        }
        let ExprKind::Ident(b) = &value.kind else { return false; };
        if !(!cx.env.is_global(b)) {
            return false;
        }
        let Some(off) = cx.env.stack_of(b) else { return false; };
        self.put(mov(ax(), word(global(name))));
        self.divide_by(ty.is_unsigned(), word(bp(off)));
        self.put(mov(word(global(name)), quotient(op)));
        true
    }

    /// Emits what [`plan_int_mul_char`] says, if it applies.
    pub fn try_int_mul_char(
        &mut self,
        name: &'a String,
        op: BinOp,
        value: &'a Expr,
    ) -> (done: bool)
        requires
            old(self).cx.env.wf(),
            !(plan_int_mul_char(old(self).cx, name, op, value) is Stuck),
        ensures
            final(self).ran(*old(self), plan_int_mul_char(old(self).cx, name, op, value), done),
    {
        let cx: Cx<'a> = self.cx;
        if !(op == BinOp::Mul && widens_from_char(cx.env, value)) {
            return false;
        }
        let ExprKind::Ident(_) = &value.kind else { return false; };
        self.put(to_ax(cx, value));
        self.put(push(ax()));
        self.put(mov(ax(), word(global(name))));
        self.put(pop(dx()));
        self.put(imul(dx()));
        self.put(mov(word(global(name)), ax()));
        true
    }

    /// Emits what [`plan_int_div_char`] says, if it applies.
    pub fn try_int_div_char(
        &mut self,
        name: &'a String,
        op: BinOp,
        value: &'a Expr,
    ) -> (done: bool)
        requires
            old(self).cx.env.wf(),
            !(plan_int_div_char(old(self).cx, name, op, value) is Stuck),
        ensures
            final(self).ran(*old(self), plan_int_div_char(old(self).cx, name, op, value), done),
    {
        let cx: Cx<'a> = self.cx;
        if !(is_division(op) && widens_from_char(cx.env, value)) {
            return false;
        }
        let ExprKind::Ident(_) = &value.kind else { return false; };
        self.put(to_ax(cx, value));
        self.put(push(ax()));
        self.put(mov(ax(), word(global(name))));
        self.put(cwd());
        self.put(pop(bx()));
        self.put(idiv(bx()));
        self.put(mov(word(global(name)), quotient(op)));
        true
    }

    /// Emits what [`plan_compound_global_int`] says, if it applies.
    pub fn try_compound_global_int(
        &mut self,
        name: &'a String,
        ty: &'a Type,
        op: BinOp,
        value: &'a Expr,
    ) -> (done: bool)
        requires
            old(self).cx.env.wf(),
            !(plan_compound_global_int(old(self).cx, name, ty, op, value) is Stuck),
        ensures
            final(self).ran(
                *old(self),
                plan_compound_global_int(old(self).cx, name, ty, op, value),
                done,
            ),
    {
        if !is_plain_int(ty) {
            return false;
        }
        if self.try_int_shift_const(name, ty, op, value) {
            return true;
        }
        if self.try_int_sum_global(name, op, value) {
            return true;
        }
        if self.try_int_const(name, op, value) {
            return true;
        }
        if self.try_int_direct(name, op, value) {
            return true;
        }
        if self.try_int_mul_local(name, op, value) {
            return true;
        }
        if self.try_int_mul_const(name, ty, op, value) {
            return true;
        }
        if self.try_int_mul_deref(name, op, value) {
            return true;
        }
        if self.try_int_mul_global(name, ty, op, value) {
            return true;
        }
        if self.try_int_shift(name, ty, op, value) {
            return true;
        }
        if self.try_int_div_local(name, ty, op, value) {
            return true;
        }
        if self.try_int_mul_char(name, op, value) {
            return true;
        }
        if self.try_int_div_char(name, op, value) {
            return true;
        }
        false
    }

    /// Multiplies `al` by a power of two, one place at a time up to three.
    pub fn shift_al(&mut self, shifts: u32)
        requires
            old(self).cx.env.wf(),
            plan_shift_al(old(self).cx, shifts) is Emit,
        ensures
            final(self).wrote(*old(self), plan_shift_al(old(self).cx, shifts)),
    {
        if shifts <= 3 {
            self.put_times(shl1(al()), shifts as u64);
        } else {
            self.put(mov(cl(), imm(shifts as i64)));
            self.put(op2(Mnemonic::Shl, al(), cl()));
        }
    }

    /// Multiplies the character in `al` by a constant.
    pub fn multiply_al(&mut self, k: u32)
        requires
            old(self).cx.env.wf(),
            plan_multiply_al(old(self).cx, k) is Emit,
        ensures
            final(self).wrote(*old(self), plan_multiply_al(old(self).cx, k)),
    {
        if is_byte_shift(k) {
            self.shift_al(halvings(k));
        } else {
            self.put(cbw());
            self.put(mov(dx(), imm(lo16(k))));
            self.put(imul(dx()));
        }
    }

    /// Emits what [`plan_char_mul_const`] says, if it applies.
    pub fn try_char_mul_const(
        &mut self,
        name: &'a String,
        op: BinOp,
        value: &'a Expr,
    ) -> (done: bool)
        requires
            old(self).cx.env.wf(),
            !(plan_char_mul_const(old(self).cx, name, op, value) is Stuck),
        ensures
            final(self).ran(*old(self), plan_char_mul_const(old(self).cx, name, op, value), done),
    {
        let cx: Cx<'a> = self.cx;
        if !(op == BinOp::Mul) {
            return false;
        }
        let Some(k) = cx.env.const_of(value) else { return false; };
        self.put(mov(al(), byte(global(name))));
        self.multiply_al(k);
        self.put(mov(byte(global(name)), al()));
        true
    }

    /// Emits what [`plan_char_div_const`] says, if it applies.
    pub fn try_char_div_const(
        &mut self,
        name: &'a String,
        ty: &'a Type,
        op: BinOp,
        value: &'a Expr,
    ) -> (done: bool)
        requires
            old(self).cx.env.wf(),
            !(plan_char_div_const(old(self).cx, name, ty, op, value) is Stuck),
        ensures
            final(self).ran(
                *old(self),
                plan_char_div_const(old(self).cx, name, ty, op, value),
                done,
            ),
    {
        let cx: Cx<'a> = self.cx;
        if !is_division(op) {
            return false;
        }
        let Some(v) = cx.env.const_of(value) else { return false; };
        self.put(mov(al(), byte(global(name))));
        self.put(widen(ty.is_unsigned()));
        self.put(mov(bx(), imm(lo16(v))));
        self.put(cwd());
        self.put(idiv(bx()));
        self.put(mov(byte(global(name)), low_quotient(op)));
        true
    }

    /// Emits what [`plan_char_shift_const`] says, if it applies.
    pub fn try_char_shift_const(
        &mut self,
        name: &'a String,
        ty: &'a Type,
        op: BinOp,
        value: &'a Expr,
    ) -> (done: bool)
        requires
            old(self).cx.env.wf(),
            !(plan_char_shift_const(old(self).cx, name, ty, op, value) is Stuck),
        ensures
            final(self).ran(
                *old(self),
                plan_char_shift_const(old(self).cx, name, ty, op, value),
                done,
            ),
    {
        let cx: Cx<'a> = self.cx;
        if !is_shift(op) {
            return false;
        }
        let Some(k) = cx.env.const_of(value) else { return false; };
        if !(1 <= k && k <= 8) {
            return false;
        }
        self.put_times(op2(shift(op, ty.is_unsigned()), byte(global(name)), imm(1)), k as u64);
        true
    }

    /// Emits what [`plan_char_const`] says, if it applies.
    pub fn try_char_const(&mut self, name: &'a String, op: BinOp, value: &'a Expr) -> (done: bool)
        requires
            old(self).cx.env.wf(),
            !(plan_char_const(old(self).cx, name, op, value) is Stuck),
        ensures
            final(self).ran(*old(self), plan_char_const(old(self).cx, name, op, value), done),
    {
        let cx: Cx<'a> = self.cx;
        if !is_direct(op) {
            return false;
        }
        let Some(v) = cx.env.const_of(value) else { return false; };
        if is_additive(op) {
            self.put(mov(al(), byte(global(name))));
            if byte_delta(op, v) == 1 {
                self.put(op1(Mnemonic::Inc, al()));
            } else if byte_delta(op, v) == 255 {
                self.put(op1(Mnemonic::Dec, al()));
            } else {
                self.put(add_to(al(), imm(byte_delta(op, v))));
            }
            self.put(mov(byte(global(name)), al()));
            return true;
        } else {
            self.put(op2(direct(op), byte(global(name)), imm(lo8(v))));
            return true;
        }
    }

    /// Emits what [`plan_char_mul`] says, if it applies.
    pub fn try_char_mul(&mut self, name: &'a String, op: BinOp, value: &'a Expr) -> (done: bool)
        requires
            old(self).cx.env.wf(),
            !(plan_char_mul(old(self).cx, name, op, value) is Stuck),
        ensures
            final(self).ran(*old(self), plan_char_mul(old(self).cx, name, op, value), done),
    {
        let cx: Cx<'a> = self.cx;
        if !(op == BinOp::Mul && cx.env.const_of(value).is_none()) {
            return false;
        }
        let Some(src) = &cx.env.facts(value).source else { return false; };
        self.put(mov(al(), byte(global(name))));
        self.put(imul(given(&src.byte)));
        self.put(mov(byte(global(name)), al()));
        true
    }

    /// Divides the character in `al` by a byte, with or without sign.
    pub fn divide_al(&mut self, unsigned: bool, by: Operand<'a>)
        requires
            old(self).cx.env.wf(),
            plan_divide_al(old(self).cx, unsigned, by) is Emit,
        ensures
            final(self).wrote(*old(self), plan_divide_al(old(self).cx, unsigned, by)),
    {
        self.put(widen(unsigned));
        if unsigned {
            self.put(op2(Mnemonic::Div, al(), by));
        } else {
            self.put(idiv(by));
        }
    }

    /// Emits what [`plan_char_div`] says, if it applies.
    pub fn try_char_div(
        &mut self,
        name: &'a String,
        ty: &'a Type,
        op: BinOp,
        value: &'a Expr,
    ) -> (done: bool)
        requires
            old(self).cx.env.wf(),
            !(plan_char_div(old(self).cx, name, ty, op, value) is Stuck),
        ensures
            final(self).ran(*old(self), plan_char_div(old(self).cx, name, ty, op, value), done),
    {
        let cx: Cx<'a> = self.cx;
        if !(is_division(op) && cx.env.const_of(value).is_none()) {
            return false;
        }
        let Some(src) = &cx.env.facts(value).source else { return false; };
        self.put(mov(al(), byte(global(name))));
        self.divide_al(ty.is_unsigned(), given(&src.byte));
        self.put(mov(byte(global(name)), byte_quotient(op)));
        true
    }

    /// Emits what [`plan_char_shift`] says, if it applies.
    pub fn try_char_shift(
        &mut self,
        name: &'a String,
        ty: &'a Type,
        op: BinOp,
        value: &'a Expr,
    ) -> (done: bool)
        requires
            old(self).cx.env.wf(),
            !(plan_char_shift(old(self).cx, name, ty, op, value) is Stuck),
        ensures
            final(self).ran(*old(self), plan_char_shift(old(self).cx, name, ty, op, value), done),
    {
        let cx: Cx<'a> = self.cx;
        if !(is_shift(op) && cx.env.const_of(value).is_none()) {
            return false;
        }
        let Some(src) = &cx.env.facts(value).source else { return false; };
        self.put(mov(cl(), given(&src.byte)));
        self.put(op2(shift(op, ty.is_unsigned()), byte(global(name)), cl()));
        true
    }

    /// Emits what [`plan_char_direct`] says, if it applies.
    pub fn try_char_direct(
        &mut self,
        name: &'a String,
        op: BinOp,
        value: &'a Expr,
    ) -> (done: bool)
        requires
            old(self).cx.env.wf(),
            !(plan_char_direct(old(self).cx, name, op, value) is Stuck),
        ensures
            final(self).ran(*old(self), plan_char_direct(old(self).cx, name, op, value), done),
    {
        let cx: Cx<'a> = self.cx;
        if !(is_direct(op) && cx.env.const_of(value).is_none()) {
            return false;
        }
        let Some(src) = &cx.env.facts(value).source else { return false; };
        self.put(mov(al(), given(&src.byte)));
        self.put(op2(direct(op), byte(global(name)), al()));
        true
    }

    /// Emits what [`plan_compound_global_char`] says, if it applies.
    pub fn try_compound_global_char(
        &mut self,
        name: &'a String,
        ty: &'a Type,
        op: BinOp,
        value: &'a Expr,
    ) -> (done: bool)
        requires
            old(self).cx.env.wf(),
            !(plan_compound_global_char(old(self).cx, name, ty, op, value) is Stuck),
        ensures
            final(self).ran(
                *old(self),
                plan_compound_global_char(old(self).cx, name, ty, op, value),
                done,
            ),
    {
        if !ty.is_char_like() {
            return false;
        }
        if self.try_char_mul_const(name, op, value) {
            return true;
        }
        if self.try_char_div_const(name, ty, op, value) {
            return true;
        }
        if self.try_char_shift_const(name, ty, op, value) {
            return true;
        }
        if self.try_char_const(name, op, value) {
            return true;
        }
        if self.try_char_mul(name, op, value) {
            return true;
        }
        if self.try_char_div(name, ty, op, value) {
            return true;
        }
        if self.try_char_shift(name, ty, op, value) {
            return true;
        }
        if self.try_char_direct(name, op, value) {
            return true;
        }
        false
    }

    /// Emits what [`plan_compound_global`] says, if it applies.
    pub fn try_compound_global(
        &mut self,
        name: &'a String,
        op: BinOp,
        value: &'a Expr,
    ) -> (done: bool)
        requires
            old(self).cx.env.wf(),
            !(plan_compound_global(old(self).cx, name, op, value) is Stuck),
        ensures
            final(self).ran(
                *old(self),
                plan_compound_global(old(self).cx, name, op, value),
                done,
            ),
    {
        let cx: Cx<'a> = self.cx;
        let Some(ty) = cx.env.global_type(name) else { return false; };
        if self.try_compound_global_int(name, ty, op, value) {
            return true;
        }
        if self.try_compound_global_char(name, ty, op, value) {
            return true;
        }
        false
    }
}

} // verus!
