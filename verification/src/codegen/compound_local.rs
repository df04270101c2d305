//! Compound assignment to local integers and characters, and the choice
//! between all targets.

use vstd::prelude::*;
use crate::ast::{BinOp, Expr, ExprKind, MemberKind, Type, UpdatePosition};
use crate::codegen::array_addr::names_char_local;
use crate::codegen::assign_global::float_width;
use crate::codegen::compound_global::{byte_quotient, division, low_quotient};
use crate::codegen::emitter::{
    add_to, cwd, idiv, imul, mov, op1, op2, pop, push, shl1, to_ax, widen, widen_long, Cx,
    FunctionEmitter, Plan, Step,
};
use crate::codegen::env::{is_plain_int, Env, Local, LocalLocation, Source, SourceKind};
use crate::isa::{
    al, at, ax, bp, bx, byte, cl, direct, dl, dx, elem, elem_at, frame_elem, given, halvings, imm,
    is_additive, is_bitwise, is_direct, is_division, is_multiplicative, is_pow2, is_shift, lo16,
    lo8, named, neg8, plus, quotient, r, shift, signed8, step_by_one, update, wide, word,
    Mnemonic, Reg,
};

verus! {

/// A direct operator on a word on the stack. Constants and registers are
/// operands by themselves; an integer in memory, and anything else, goes by
/// way of `ax`.
pub open spec fn plan_stack_word<'a>(
    cx: Cx<'a>,
    l: &'a Local,
    op: BinOp,
    value: &'a Expr,
) -> Plan<'a> {
    if l.ty.is_int_like() && is_direct(op) {
        if let LocalLocation::Stack(off) = l.loc {
            match (cx.env.const_of(value), &cx.env.facts(value).int_addr, int_register(cx.env, value)) {
                (Some(v), _, _) => {
                    Plan::Emit(seq![op2(direct(op), word(bp(off)), imm(lo16(v)))])
                },
                (None, Some(addr), _) => {
                    Plan::Emit(seq![
                        mov(ax(), word(named(addr))),
                        op2(direct(op), word(bp(off)), ax()),
                    ])
                },
                (None, None, Some(reg)) => {
                    Plan::Emit(seq![op2(direct(op), word(bp(off)), r(reg))])
                },
                (None, None, None) => {
                    Plan::Emit(seq![
                        to_ax(cx, value),
                        op2(direct(op), word(bp(off)), ax()),
                    ])
                },
            }
        } else {
            Plan::Skip
        }
    } else {
        Plan::Skip
    }
}

/// The register of an integer variable.
#[verifier::allow_in_spec]
pub fn int_register(env: &Env, e: &Expr) -> Option<Reg>
    returns
        (match &e.kind {
            ExprKind::Ident(n) => if env.is_int_local(n) { env.word_reg_of(n) } else { None },
            _ => None,
        }),
{
    match &e.kind {
        ExprKind::Ident(n) => if env.is_int_local(n) { env.word_reg_of(n) } else { None },
        _ => None,
    }
}

/// A constant applied to a character on the stack, by way of `al`.
pub open spec fn plan_stack_char<'a>(
    cx: Cx<'a>,
    l: &'a Local,
    op: BinOp,
    value: &'a Expr,
) -> Plan<'a> {
    if l.ty.is_char_like() && is_direct(op) {
        if let LocalLocation::Stack(off) = l.loc {
            if let Some(v) = cx.env.const_of(value) {
                if is_additive(op) {
                    crate::codegen::deref_write::plan_byte_arith(cx, op, bp(off), v)
                } else {
                    Plan::Emit(seq![
                        mov(al(), byte(bp(off))),
                        op2(direct(op), al(), imm(lo8(v))),
                        mov(byte(bp(off)), al()),
                    ])
                }
            } else {
                Plan::Skip
            }
        } else {
            Plan::Skip
        }
    } else {
        Plan::Skip
    }
}

/// A constant added to a character in a register, by way of `al`.
pub open spec fn plan_byte_sum_const<'a>(
    cx: Cx<'a>,
    reg: Reg,
    op: BinOp,
    value: &'a Expr,
) -> Plan<'a> {
    if is_additive(op) {
        if let Some(v) = cx.env.const_of(value) {
            Plan::Emit(seq![mov(al(), r(reg))]).followed_by(
                if lo8(v) == 1 {
                    Plan::Emit(seq![op1(step_by_one(op), al())])
                } else if op == BinOp::Sub {
                    Plan::Emit(seq![add_to(al(), imm(signed8(neg8(v))))])
                } else {
                    Plan::Emit(seq![add_to(al(), imm(lo8(v)))])
                },
            ).followed_by(Plan::Emit(seq![mov(r(reg), al())]))
        } else {
            Plan::Skip
        }
    } else {
        Plan::Skip
    }
}

/// A bitwise operator with a constant on a character in a register.
pub open spec fn plan_byte_bits_const<'a>(
    cx: Cx<'a>,
    reg: Reg,
    op: BinOp,
    value: &'a Expr,
) -> Plan<'a> {
    if is_bitwise(op) {
        if let Some(v) = cx.env.const_of(value) {
            Plan::Emit(seq![op2(direct(op), r(reg), imm(lo8(v)))])
        } else {
            Plan::Skip
        }
    } else {
        Plan::Skip
    }
}

/// A character in a register shifted by a small constant, one place at a
/// time.
pub open spec fn plan_byte_shift_const<'a>(
    cx: Cx<'a>,
    reg: Reg,
    ty: &'a Type,
    op: BinOp,
    value: &'a Expr,
) -> Plan<'a> {
    if is_shift(op) {
        if let Some(k) = cx.env.const_of(value) {
            if 1 <= k && k <= 8 {
                Plan::Emit(op2(shift(op, ty.is_unsigned()), r(reg), imm(1)).times(k as nat))
            } else {
                Plan::Skip
            }
        } else {
            Plan::Skip
        }
    } else {
        Plan::Skip
    }
}

/// A character in a register multiplied by a constant.
pub open spec fn plan_byte_mul_const<'a>(
    cx: Cx<'a>,
    reg: Reg,
    op: BinOp,
    value: &'a Expr,
) -> Plan<'a> {
    if op == BinOp::Mul {
        if let Some(k) = cx.env.const_of(value) {
            Plan::Emit(seq![mov(al(), r(reg))]).followed_by(
                crate::codegen::compound_global::plan_multiply_al(cx, k),
            ).followed_by(Plan::Emit(seq![mov(r(reg), al())]))
        } else {
            Plan::Skip
        }
    } else {
        Plan::Skip
    }
}

/// A character in a register divided by a constant.
pub open spec fn plan_byte_div_const<'a>(
    cx: Cx<'a>,
    reg: Reg,
    ty: &'a Type,
    op: BinOp,
    value: &'a Expr,
) -> Plan<'a> {
    if is_division(op) {
        if let Some(v) = cx.env.const_of(value) {
            Plan::Emit(seq![
                mov(al(), r(reg)),
                widen(ty.is_unsigned()),
                mov(bx(), imm(lo16(v))),
                cwd(),
                idiv(bx()),
                mov(r(reg), low_quotient(op)),
            ])
        } else {
            Plan::Skip
        }
    } else {
        Plan::Skip
    }
}

/// A product of characters.
pub open spec fn plan_byte_mul<'a>(cx: Cx<'a>, reg: Reg, op: BinOp, value: &'a Expr) -> Plan<'a> {
    if op == BinOp::Mul {
        if let Some(src) = &cx.env.facts(value).source {
            Plan::Emit(seq![
                mov(al(), r(reg)),
                imul(given(&src.byte)),
                mov(r(reg), al()),
            ])
        } else {
            Plan::Stuck
        }
    } else {
        Plan::Skip
    }
}

/// A quotient or remainder of characters.
pub open spec fn plan_byte_div<'a>(
    cx: Cx<'a>,
    reg: Reg,
    ty: &'a Type,
    op: BinOp,
    value: &'a Expr,
) -> Plan<'a> {
    if is_division(op) {
        if let Some(src) = &cx.env.facts(value).source {
            Plan::Emit(seq![mov(al(), r(reg))]).followed_by(
                crate::codegen::compound_global::plan_divide_al(cx, ty.is_unsigned(), given(&src.byte)),
            ).followed_by(Plan::Emit(seq![mov(r(reg), byte_quotient(op))]))
        } else {
            Plan::Stuck
        }
    } else {
        Plan::Skip
    }
}

/// A character in a register shifted by a byte.
pub open spec fn plan_byte_shift<'a>(
    cx: Cx<'a>,
    reg: Reg,
    ty: &'a Type,
    op: BinOp,
    value: &'a Expr,
) -> Plan<'a> {
    if is_shift(op) {
        if let Some(src) = &cx.env.facts(value).source {
            Plan::Emit(seq![
                mov(cl(), given(&src.byte)),
                op2(shift(op, ty.is_unsigned()), r(reg), cl()),
            ])
        } else {
            Plan::Stuck
        }
    } else {
        Plan::Skip
    }
}

/// Whether an expression has two operands.
#[verifier::allow_in_spec]
pub fn is_binop(e: &Expr) -> bool
    returns
        (match &e.kind {
            ExprKind::BinOp { op: _, left: _, right: _ } => true,
            _ => false,
        }),
{
    match &e.kind {
        ExprKind::BinOp { op: _, left: _, right: _ } => true,
        _ => false,
    }
}

/// Whether an expression names a local integer.
#[verifier::allow_in_spec]
pub fn names_int_local(env: &Env, e: &Expr) -> bool
    returns
        (match &e.kind {
            ExprKind::Ident(n) => env.is_int_local(n),
            _ => false,
        }),
{
    match &e.kind {
        ExprKind::Ident(n) => env.is_int_local(n),
        _ => false,
    }
}

/// An operand applied to a character in a register: the low byte of an
/// integer is added in `al`, and any other byte is loaded there first.
pub open spec fn plan_byte_direct<'a>(
    cx: Cx<'a>,
    reg: Reg,
    op: BinOp,
    value: &'a Expr,
) -> Plan<'a> {
    if is_direct(op) && !is_binop(value) {
        if let Some(src) = &cx.env.facts(value).source {
            if names_int_local(cx.env, value) && is_additive(op) {
                Plan::Emit(seq![
                    mov(al(), r(reg)),
                    op2(direct(op), al(), given(&src.byte)),
                    mov(r(reg), al()),
                ])
            } else {
                Plan::Emit(seq![
                    mov(al(), given(&src.byte)),
                    op2(direct(op), r(reg), al()),
                ])
            }
        } else {
            Plan::Stuck
        }
    } else {
        Plan::Skip
    }
}

/// How often a byte is doubled for a product or a shift by a small constant.
#[verifier::allow_in_spec]
pub fn narrow_shifts(op: BinOp, k: u32) -> Option<u32>
    returns
        (if k < 1 || k > 7 {
            None
        } else if op == BinOp::Shl {
            if k <= 3 { Some(k) } else { None }
        } else if op == BinOp::Mul && is_pow2(k) && k >= 2 {
            Some(halvings(k))
        } else {
            None
        }),
{
    if k < 1 || k > 7 {
        None
    } else if op == BinOp::Shl {
        if k <= 3 { Some(k) } else { None }
    } else if op == BinOp::Mul && is_pow2(k) && k >= 2 {
        Some(halvings(k))
    } else {
        None
    }
}

/// A shift or a product of a variable by a small constant, made on its low
/// byte.
pub open spec fn plan_narrow_to_al<'a>(cx: Cx<'a>, value: &'a Expr) -> Plan<'a> {
    if let ExprKind::BinOp { op, left, right } = &value.kind {
        if let Some(chain) = &cx.env.facts(&**left).chain {
            if let Some(addr) = cx.env.resolve_chain_addr(&chain.name, chain.off) {
                if let Some(k) = cx.env.const_of(&**right) {
                    if let Some(shifts) = narrow_shifts(*op, k) {
                        Plan::Emit(seq![mov(al(), byte(addr))]).followed_by(
                            Plan::Emit(shl1(al()).times(shifts as nat)),
                        )
                    } else {
                        Plan::Skip
                    }
                } else {
                    Plan::Skip
                }
            } else {
                Plan::Skip
            }
        } else {
            Plan::Skip
        }
    } else {
        Plan::Skip
    }
}

/// Computes a value of which only the low byte is wanted.
pub open spec fn plan_low_byte_to_al<'a>(cx: Cx<'a>, value: &'a Expr) -> Plan<'a> {
    match plan_narrow_to_al(cx, value) {
        Plan::Skip => {
            Plan::Emit(seq![to_ax(cx, value)])
        },
        taken => taken,
    }
}

/// A computed value applied to a character in a register, by way of `dl`.
pub open spec fn plan_byte_computed<'a>(
    cx: Cx<'a>,
    reg: Reg,
    op: BinOp,
    value: &'a Expr,
) -> Plan<'a> {
    if is_direct(op) && is_binop(value) {
        plan_low_byte_to_al(cx, value).followed_by(
            Plan::Emit(seq![
                mov(dl(), r(reg)),
                op2(direct(op), dl(), al()),
                mov(r(reg), dl()),
            ]),
        )
    } else {
        Plan::Skip
    }
}

/// A character in a register.
pub open spec fn plan_compound_byte_reg<'a>(
    cx: Cx<'a>,
    reg: Reg,
    ty: &'a Type,
    op: BinOp,
    value: &'a Expr,
) -> Plan<'a> {
    match plan_byte_sum_const(cx, reg, op, value) {
        Plan::Skip => {
            match plan_byte_bits_const(cx, reg, op, value) {
                Plan::Skip => {
                    match plan_byte_shift_const(cx, reg, ty, op, value) {
                        Plan::Skip => {
                            match plan_byte_mul_const(cx, reg, op, value) {
                                Plan::Skip => {
                                    match plan_byte_div_const(cx, reg, ty, op, value) {
                                        Plan::Skip => {
                                            match plan_byte_mul(cx, reg, op, value) {
                                                Plan::Skip => {
                                                    match plan_byte_div(cx, reg, ty, op, value) {
                                                        Plan::Skip => {
                                                            match plan_byte_shift(cx, reg, ty, op, value) {
                                                                Plan::Skip => {
                                                                    match plan_byte_direct(cx, reg, op, value) {
                                                                        Plan::Skip => {
                                                                            match plan_byte_computed(cx, reg, op, value) {
                                                                                Plan::Skip => {
                                                                                    Plan::Stuck
                                                                                },
                                                                                taken => taken,
                                                                            }
                                                                        },
                                                                        taken => taken,
                                                                    }
                                                                },
                                                                taken => taken,
                                                            }
                                                        },
                                                        taken => taken,
                                                    }
                                                },
                                                taken => taken,
                                            }
                                        },
                                        taken => taken,
                                    }
                                },
                                taken => taken,
                            }
                        },
                        taken => taken,
                    }
                },
                taken => taken,
            }
        },
        taken => taken,
    }
}

/// A word of a file-scope array, added from memory.
pub open spec fn plan_word_global_elem<'a>(
    cx: Cx<'a>,
    reg: Reg,
    op: BinOp,
    value: &'a Expr,
) -> Plan<'a> {
    if op == BinOp::Add {
        if let ExprKind::ArrayIndex { array, index } = &value.kind {
            if let ExprKind::Ident(arr) = &array.kind {
                if let Some(t) = cx.env.global_elem(arr) {
                    if t.is_int_like() {
                        crate::codegen::array_addr::plan_emit_index_into_bx(cx, &**index, t).followed_by(
                            Plan::Emit(seq![add_to(r(reg), word(elem(arr, Reg::Bx)))]),
                        )
                    } else {
                        Plan::Skip
                    }
                } else {
                    Plan::Skip
                }
            } else {
                Plan::Skip
            }
        } else {
            Plan::Skip
        }
    } else {
        Plan::Skip
    }
}

/// A word member of an element of a file-scope array of structs, added from
/// memory.
pub open spec fn plan_word_global_member<'a>(
    cx: Cx<'a>,
    reg: Reg,
    op: BinOp,
    value: &'a Expr,
) -> Plan<'a> {
    if op == BinOp::Add {
        if let ExprKind::Member { base, field, kind: MemberKind::Dot } = &value.kind {
            if let ExprKind::ArrayIndex { array, index } = &base.kind {
                if let ExprKind::Ident(arr) = &array.kind {
                    if !cx.env.has(arr) {
                        if let Some(t) = cx.env.global_elem(arr) {
                            if let Some(f) = t.struct_field_info(field) {
                                if f.ty.is_int_like() && cx.env.const_of(&**index).is_none() {
                                    crate::codegen::array_addr::plan_emit_index_into_bx(cx, &**index, t).followed_by(
                                        Plan::Emit(seq![
                                            add_to(r(reg), word(elem_at(arr, plus(f.offset as i64), Reg::Bx))),
                                        ]),
                                    )
                                } else {
                                    Plan::Skip
                                }
                            } else {
                                Plan::Skip
                            }
                        } else {
                            Plan::Skip
                        }
                    } else {
                        Plan::Skip
                    }
                } else {
                    Plan::Skip
                }
            } else {
                Plan::Skip
            }
        } else {
            Plan::Skip
        }
    } else {
        Plan::Skip
    }
}

/// A word at a constant place in an array on the stack, added from memory.
pub open spec fn plan_word_frame_const<'a>(
    cx: Cx<'a>,
    reg: Reg,
    op: BinOp,
    value: &'a Expr,
) -> Plan<'a> {
    if op == BinOp::Add {
        if let ExprKind::ArrayIndex { array, index } = &value.kind {
            if let ExprKind::Ident(arr) = &array.kind {
                if let Some(t) = cx.env.local_elem(arr) {
                    if t.is_int_like() {
                        if let Some(base) = cx.env.stack_of(arr) {
                            if let Some(k) = cx.env.const_of(&**index) {
                                if let Some(slot) = frame_elem(base, k, (t.size() as u16)) {
                                    Plan::Emit(seq![add_to(r(reg), word(slot))])
                                } else {
                                    Plan::Stuck
                                }
                            } else {
                                Plan::Skip
                            }
                        } else {
                            Plan::Skip
                        }
                    } else {
                        Plan::Skip
                    }
                } else {
                    Plan::Skip
                }
            } else {
                Plan::Skip
            }
        } else {
            Plan::Skip
        }
    } else {
        Plan::Skip
    }
}

/// A word behind a pointer on the stack, added from memory.
pub open spec fn plan_word_pointer_elem<'a>(
    cx: Cx<'a>,
    reg: Reg,
    op: BinOp,
    value: &'a Expr,
) -> Plan<'a> {
    if op == BinOp::Add {
        if let ExprKind::ArrayIndex { array, index } = &value.kind {
            if let ExprKind::Ident(p) = &array.kind {
                if let Some(t) = cx.env.local_pointee(p) {
                    if t.is_int_like() {
                        if let Some(off) = cx.env.stack_of(p) {
                            Plan::Emit(seq![
                                to_ax(cx, &**index),
                                shl1(ax()),
                                mov(bx(), word(bp(off))),
                                add_to(bx(), ax()),
                                add_to(r(reg), word(at(Reg::Bx))),
                            ])
                        } else {
                            Plan::Skip
                        }
                    } else {
                        Plan::Skip
                    }
                } else {
                    Plan::Skip
                }
            } else {
                Plan::Skip
            }
        } else {
            Plan::Skip
        }
    } else {
        Plan::Skip
    }
}

/// A word of an array on the stack, added from memory.
pub open spec fn plan_word_frame_elem<'a>(
    cx: Cx<'a>,
    reg: Reg,
    op: BinOp,
    value: &'a Expr,
) -> Plan<'a> {
    if op == BinOp::Add {
        if let ExprKind::ArrayIndex { array, index } = &value.kind {
            if let ExprKind::Ident(arr) = &array.kind {
                if let Some(t) = cx.env.local_elem(arr) {
                    if t.is_int_like() {
                        if let Some(base) = cx.env.stack_of(arr) {
                            crate::codegen::array_addr::plan_emit_array_addr_to_bx(cx, &**index, base, (t.size() as u16)).followed_by(
                                Plan::Emit(seq![add_to(r(reg), word(at(Reg::Bx)))]),
                            )
                        } else {
                            Plan::Skip
                        }
                    } else {
                        Plan::Skip
                    }
                } else {
                    Plan::Skip
                }
            } else {
                Plan::Skip
            }
        } else {
            Plan::Skip
        }
    } else {
        Plan::Skip
    }
}

/// `*p++` or `*p--` through a pointer in a register.
pub open spec fn plan_word_deref_post<'a>(
    cx: Cx<'a>,
    reg: Reg,
    op: BinOp,
    value: &'a Expr,
) -> Plan<'a> {
    if is_direct(op) {
        if let ExprKind::Deref(inner) = &value.kind {
            if let ExprKind::Update { target, op: up, position: UpdatePosition::Post } = &inner.kind {
                if let Some(from) = cx.env.word_reg_of(target) {
                    if let Some(t) = cx.env.local_pointee(target) {
                        if t.is_int_like() {
                            Plan::Emit(seq![op2(direct(op), r(reg), word(at(from)))]).followed_by(
                                Plan::Emit(op1(update(*up), r(from)).times((t.size() as u16) as nat)),
                            )
                        } else {
                            Plan::Skip
                        }
                    } else {
                        Plan::Skip
                    }
                } else {
                    Plan::Skip
                }
            } else {
                Plan::Skip
            }
        } else {
            Plan::Skip
        }
    } else {
        Plan::Skip
    }
}

/// `++i`, `i++` and the like of an integer in a register.
pub open spec fn plan_word_update<'a>(
    cx: Cx<'a>,
    reg: Reg,
    op: BinOp,
    value: &'a Expr,
) -> Plan<'a> {
    if is_direct(op) {
        if let ExprKind::Update { target, op: up, position } = &value.kind {
            if let Some(from) = cx.env.word_reg_of(target) {
                if cx.env.is_int_local(target) {
                    if *position == UpdatePosition::Pre {
                        Plan::Emit(seq![
                            op1(update(*up), r(from)),
                            op2(direct(op), r(reg), r(from)),
                        ])
                    } else {
                        Plan::Emit(seq![
                            op2(direct(op), r(reg), r(from)),
                            op1(update(*up), r(from)),
                        ])
                    }
                } else {
                    Plan::Skip
                }
            } else {
                Plan::Skip
            }
        } else {
            Plan::Skip
        }
    } else {
        Plan::Skip
    }
}

/// The low word of a 32-bit variable.
pub open spec fn plan_word_low_half<'a>(
    cx: Cx<'a>,
    reg: Reg,
    op: BinOp,
    value: &'a Expr,
) -> Plan<'a> {
    if is_direct(op) {
        if let ExprKind::Cast { ty, operand } = &value.kind {
            if is_plain_int(ty) {
                if let Some((_, lo)) = &cx.env.facts(&**operand).long_addrs {
                    Plan::Emit(seq![op2(direct(op), r(reg), word(named(lo)))])
                } else {
                    Plan::Skip
                }
            } else {
                Plan::Skip
            }
        } else {
            Plan::Skip
        }
    } else {
        Plan::Skip
    }
}

/// A right side that has to be computed in `ax`.
pub open spec fn plan_word_computed<'a>(
    cx: Cx<'a>,
    reg: Reg,
    op: BinOp,
    value: &'a Expr,
) -> Plan<'a> {
    if is_direct(op) && cx.env.const_of(value).is_none() && cx.env.facts(value).needs_ax {
        Plan::Emit(seq![
            to_ax(cx, value),
            Step::ApplyCollapsed(direct(op), reg, op == BinOp::Add && !cx.env.facts(value).has_call),
        ])
    } else {
        Plan::Skip
    }
}

/// A product with a direct operator on two integers in memory, which is
/// computed in `dx`.
pub open spec fn plan_word_mul_pair<'a>(
    cx: Cx<'a>,
    reg: Reg,
    op: BinOp,
    value: &'a Expr,
) -> Plan<'a> {
    if op == BinOp::Mul {
        if let ExprKind::BinOp { op: inner, left, right } = &value.kind {
            if is_direct(*inner) {
                if let Some(a) = &cx.env.facts(&**left).int_addr {
                    if let Some(b) = &cx.env.facts(&**right).int_addr {
                        Plan::Emit(seq![
                            mov(dx(), word(named(a))),
                            op2(direct(*inner), dx(), word(named(b))),
                            mov(ax(), r(reg)),
                            imul(dx()),
                            mov(r(reg), ax()),
                        ])
                    } else {
                        Plan::Skip
                    }
                } else {
                    Plan::Skip
                }
            } else {
                Plan::Skip
            }
        } else {
            Plan::Skip
        }
    } else {
        Plan::Skip
    }
}

/// A product, quotient or remainder with a right side that has to be
/// computed in `ax`.
pub open spec fn plan_word_mul_computed<'a>(
    cx: Cx<'a>,
    reg: Reg,
    ty: &'a Type,
    op: BinOp,
    value: &'a Expr,
) -> Plan<'a> {
    if is_multiplicative(op) && cx.env.const_of(value).is_none() {
        if cx.env.facts(value).needs_ax {
            Plan::Emit(seq![to_ax(cx, value)]).followed_by(
                if op == BinOp::Mul {
                    Plan::Emit(seq![
                        mov(dx(), ax()),
                        mov(ax(), r(reg)),
                        imul(dx()),
                    ])
                } else {
                    Plan::Emit(seq![
                        push(ax()),
                        mov(ax(), r(reg)),
                        widen_long(ty.is_unsigned()),
                        pop(bx()),
                        op1(division(ty.is_unsigned()), bx()),
                    ])
                },
            ).followed_by(Plan::Emit(seq![mov(r(reg), quotient(op))]))
        } else {
            Plan::Skip
        }
    } else {
        Plan::Skip
    }
}

/// The bytes that a constant moves a variable by: so many elements of what
/// it points at, in 16 bits.
pub open spec fn spec_moved_by(v: u32, size: u16) -> i64 {
    (((v % 65536) * size) % 65536) as i64
}

/// The bytes that a constant moves a variable by.
#[verifier::when_used_as_spec(spec_moved_by)]
pub fn moved_by(v: u32, size: u16) -> (r: i64)
    ensures
        r == spec_moved_by(v, size),
{
    let low: i64 = (v % 65536) as i64;
    proof {
        assert(0 <= low * size <= 0xFFFF * 0xFFFF) by (nonlinear_arith)
            requires
                0 <= low <= 0xFFFF,
                0 <= size <= 0xFFFF,
        ;
    }
    (low * size as i64) % 65536
}

/// The size of what a variable points at; one for any other variable.
pub open spec fn spec_stride_of(ty: &Type) -> u16 {
    match ty.pointee() {
        Some(t) => t.size() as u16,
        None => 1u16,
    }
}

/// The size of what a variable points at; one for any other variable.
#[verifier::when_used_as_spec(spec_stride_of)]
pub fn stride_of(ty: &Type) -> (r: u16)
    requires
        ty.fits(),
    ensures
        r == spec_stride_of(ty),
{
    match ty.pointee() {
        Some(t) => t.size_bytes(),
        None => 1,
    }
}

/// A constant added to an integer or a pointer: one and two are added by
/// `inc`, one is subtracted by `dec`.
pub open spec fn plan_word_sum_const<'a>(
    cx: Cx<'a>,
    reg: Reg,
    ty: &'a Type,
    op: BinOp,
    value: &'a Expr,
) -> Plan<'a> {
    if is_additive(op) {
        if let Some(v) = cx.env.const_of(value) {
            let n = moved_by(v, stride_of(ty));
            if n == 1 {
                Plan::Emit(seq![op1(step_by_one(op), r(reg))])
            } else if n == 2 && op == BinOp::Add {
                Plan::Emit(seq![
                    op1(Mnemonic::Inc, r(reg)),
                    op1(Mnemonic::Inc, r(reg)),
                ])
            } else {
                Plan::Emit(seq![op2(direct(op), r(reg), imm(n))])
            }
        } else {
            Plan::Skip
        }
    } else {
        Plan::Skip
    }
}

/// Whether an expression is a local character, or one behind a local
/// pointer.
#[verifier::allow_in_spec]
pub fn is_char_lvalue(env: &Env, e: &Expr) -> bool
    returns
        (match &e.kind {
            ExprKind::Ident(n) => env.is_char_local(n),
            ExprKind::Deref(inner) => match &inner.kind {
                ExprKind::Ident(p) => match env.local_pointee(p) {
                    Some(t) => t.is_char_like(),
                    None => false,
                },
                _ => false,
            },
            _ => false,
        }),
{
    match &e.kind {
        ExprKind::Ident(n) => env.is_char_local(n),
        ExprKind::Deref(inner) => match &inner.kind {
            ExprKind::Ident(p) => match env.local_pointee(p) {
                Some(t) => t.is_char_like(),
                None => false,
            },
            _ => false,
        },
        _ => false,
    }
}

/// A character on the right is widened in `ax`.
pub open spec fn plan_word_direct_char<'a>(
    cx: Cx<'a>,
    reg: Reg,
    op: BinOp,
    value: &'a Expr,
) -> Plan<'a> {
    if is_direct(op) {
        if if is_additive(op) { is_char_lvalue(cx.env, value) } else { names_char_local(cx.env, value) } {
            Plan::Emit(seq![
                to_ax(cx, value),
                op2(direct(op), r(reg), ax()),
            ])
        } else {
            Plan::Skip
        }
    } else {
        Plan::Skip
    }
}

/// Any other operand on the right.
pub open spec fn plan_word_direct<'a>(
    cx: Cx<'a>,
    reg: Reg,
    op: BinOp,
    value: &'a Expr,
) -> Plan<'a> {
    if is_direct(op) {
        if let Some(src) = &cx.env.facts(value).source {
            Plan::Emit(seq![op2(direct(op), r(reg), given(&src.word))])
        } else {
            Plan::Stuck
        }
    } else {
        Plan::Skip
    }
}

/// Multiplies `ax` by an operand: memory and registers as they are, anything
/// else by way of `dx`.
pub open spec fn plan_multiply_by_source<'a>(cx: Cx<'a>, src: &'a Source) -> Plan<'a> {
    match src.kind {
        SourceKind::Memory => {
            Plan::Emit(seq![imul(given(&src.word))])
        },
        SourceKind::Reg(by) => {
            Plan::Emit(seq![imul(r(by))])
        },
        _ => {
            Plan::Emit(seq![
                mov(dx(), given(&src.word)),
                imul(dx()),
            ])
        },
    }
}

/// A product in a register.
pub open spec fn plan_word_mul<'a>(cx: Cx<'a>, reg: Reg, op: BinOp, value: &'a Expr) -> Plan<'a> {
    if op == BinOp::Mul {
        match cx.env.const_of(value) {
            Some(v) => {
                Plan::Emit(seq![
                    mov(dx(), imm(lo16(v))),
                    mov(ax(), r(reg)),
                    imul(dx()),
                    mov(r(reg), ax()),
                ])
            },
            None => {
                if is_char_lvalue(cx.env, value) {
                    Plan::Emit(seq![
                        to_ax(cx, value),
                        push(ax()),
                        mov(ax(), r(reg)),
                        pop(dx()),
                        imul(dx()),
                        mov(r(reg), ax()),
                    ])
                } else {
                    if let Some(src) = &cx.env.facts(value).source {
                        Plan::Emit(seq![mov(ax(), r(reg))]).followed_by(
                            plan_multiply_by_source(cx, src),
                        ).followed_by(Plan::Emit(seq![mov(r(reg), ax())]))
                    } else {
                        Plan::Stuck
                    }
                }
            },
        }
    } else {
        Plan::Skip
    }
}

/// A shift in a register: by one, two or three one place at a time,
/// otherwise with the count in `cl`.
pub open spec fn plan_word_shift<'a>(
    cx: Cx<'a>,
    reg: Reg,
    ty: &'a Type,
    op: BinOp,
    value: &'a Expr,
) -> Plan<'a> {
    if is_shift(op) {
        match cx.env.const_of(value) {
            Some(k) => {
                if 1 <= lo16(k) && lo16(k) <= 3 {
                    Plan::Emit(op2(shift(op, ty.is_unsigned()), r(reg), imm(1)).times(lo16(k) as nat))
                } else {
                    Plan::Emit(seq![
                        mov(cl(), imm(lo8(k))),
                        op2(shift(op, ty.is_unsigned()), r(reg), cl()),
                    ])
                }
            },
            None => {
                if let Some(src) = &cx.env.facts(value).source {
                    Plan::Emit(seq![
                        mov(cl(), given(&src.byte)),
                        op2(shift(op, ty.is_unsigned()), r(reg), cl()),
                    ])
                } else {
                    Plan::Stuck
                }
            },
        }
    } else {
        Plan::Skip
    }
}

/// Divides `dx:ax` by an operand: memory as it is, anything else by way of
/// `bx`.
pub open spec fn plan_divide_by_source<'a>(cx: Cx<'a>, src: &'a Source) -> Plan<'a> {
    match src.kind {
        SourceKind::Memory => {
            Plan::Emit(seq![idiv(given(&src.word))])
        },
        _ => {
            Plan::Emit(seq![
                mov(bx(), given(&src.word)),
                idiv(bx()),
            ])
        },
    }
}

/// A quotient or remainder in a register.
pub open spec fn plan_word_div<'a>(cx: Cx<'a>, reg: Reg, op: BinOp, value: &'a Expr) -> Plan<'a> {
    if is_division(op) {
        match cx.env.const_of(value) {
            Some(v) => {
                Plan::Emit(seq![
                    mov(bx(), imm(lo16(v))),
                    mov(ax(), r(reg)),
                    cwd(),
                    idiv(bx()),
                    mov(r(reg), quotient(op)),
                ])
            },
            None => {
                if let Some(src) = &cx.env.facts(value).source {
                    Plan::Emit(seq![
                        mov(ax(), r(reg)),
                        cwd(),
                    ]).followed_by(plan_divide_by_source(cx, src)).followed_by(
                        Plan::Emit(seq![mov(r(reg), quotient(op))]),
                    )
                } else {
                    Plan::Stuck
                }
            },
        }
    } else {
        Plan::Skip
    }
}

/// Elements that are added to a register from memory.
pub open spec fn plan_word_elements<'a>(
    cx: Cx<'a>,
    reg: Reg,
    op: BinOp,
    value: &'a Expr,
) -> Plan<'a> {
    match plan_word_global_elem(cx, reg, op, value) {
        Plan::Skip => {
            match plan_word_global_member(cx, reg, op, value) {
                Plan::Skip => {
                    match plan_word_frame_const(cx, reg, op, value) {
                        Plan::Skip => {
                            match plan_word_pointer_elem(cx, reg, op, value) {
                                Plan::Skip => {
                                    plan_word_frame_elem(cx, reg, op, value)
                                },
                                taken => taken,
                            }
                        },
                        taken => taken,
                    }
                },
                taken => taken,
            }
        },
        taken => taken,
    }
}

/// A word in a register.
pub open spec fn plan_compound_word_reg<'a>(
    cx: Cx<'a>,
    reg: Reg,
    ty: &'a Type,
    op: BinOp,
    value: &'a Expr,
) -> Plan<'a> {
    match plan_word_elements(cx, reg, op, value) {
        Plan::Skip => {
            match plan_word_deref_post(cx, reg, op, value) {
                Plan::Skip => {
                    match plan_word_update(cx, reg, op, value) {
                        Plan::Skip => {
                            match plan_word_low_half(cx, reg, op, value) {
                                Plan::Skip => {
                                    match plan_word_computed(cx, reg, op, value) {
                                        Plan::Skip => {
                                            match plan_word_mul_pair(cx, reg, op, value) {
                                                Plan::Skip => {
                                                    match plan_word_mul_computed(cx, reg, ty, op, value) {
                                                        Plan::Skip => {
                                                            match plan_word_sum_const(cx, reg, ty, op, value) {
                                                                Plan::Skip => {
                                                                    match plan_word_direct_char(cx, reg, op, value) {
                                                                        Plan::Skip => {
                                                                            match plan_word_direct(cx, reg, op, value) {
                                                                                Plan::Skip => {
                                                                                    match plan_word_mul(cx, reg, op, value) {
                                                                                        Plan::Skip => {
                                                                                            match plan_word_shift(cx, reg, ty, op, value) {
                                                                                                Plan::Skip => {
                                                                                                    match plan_word_div(cx, reg, op, value) {
                                                                                                        Plan::Skip => {
                                                                                                            Plan::Stuck
                                                                                                        },
                                                                                                        taken => taken,
                                                                                                    }
                                                                                                },
                                                                                                taken => taken,
                                                                                            }
                                                                                        },
                                                                                        taken => taken,
                                                                                    }
                                                                                },
                                                                                taken => taken,
                                                                            }
                                                                        },
                                                                        taken => taken,
                                                                    }
                                                                },
                                                                taken => taken,
                                                            }
                                                        },
                                                        taken => taken,
                                                    }
                                                },
                                                taken => taken,
                                            }
                                        },
                                        taken => taken,
                                    }
                                },
                                taken => taken,
                            }
                        },
                        taken => taken,
                    }
                },
                taken => taken,
            }
        },
        taken => taken,
    }
}

/// A local integer or character.
pub open spec fn plan_compound_local<'a>(
    cx: Cx<'a>,
    name: &'a String,
    op: BinOp,
    value: &'a Expr,
) -> Plan<'a> {
    if let Some(l) = cx.env.local(name) {
        match plan_stack_word(cx, l, op, value) {
            Plan::Skip => {
                match plan_stack_char(cx, l, op, value) {
                    Plan::Skip => {
                        if let LocalLocation::Reg(reg) = l.loc {
                            if reg.is_byte() {
                                plan_compound_byte_reg(cx, reg, &l.ty, op, value)
                            } else {
                                plan_compound_word_reg(cx, reg, &l.ty, op, value)
                            }
                        } else {
                            Plan::Stuck
                        }
                    },
                    taken => taken,
                }
            },
            taken => taken,
        }
    } else {
        Plan::Stuck
    }
}

/// The coprocessor instruction of an operator; of any other than `+`, `-`
/// and `*`, the division.
#[verifier::allow_in_spec]
pub fn float_op(op: BinOp) -> Mnemonic
    returns
        (match op {
            BinOp::Add => Mnemonic::Fadd,
            BinOp::Sub => Mnemonic::Fsub,
            BinOp::Mul => Mnemonic::Fmul,
            _ => Mnemonic::Fdiv,
        }),
{
    match op {
        BinOp::Add => Mnemonic::Fadd,
        BinOp::Sub => Mnemonic::Fsub,
        BinOp::Mul => Mnemonic::Fmul,
        _ => Mnemonic::Fdiv,
    }
}

/// A floating-point variable on the stack.
pub open spec fn plan_compound_float<'a>(
    cx: Cx<'a>,
    name: &'a String,
    op: BinOp,
    value: &'a Expr,
) -> Plan<'a> {
    if let Some(l) = cx.env.local(name) {
        if l.ty.is_float_like() {
            if is_additive(op) || op == BinOp::Mul || op == BinOp::Div {
                if let LocalLocation::Stack(off) = l.loc {
                    Plan::Emit(seq![
                        Step::FloatLoad(value),
                        op1(float_op(op), wide(float_width(&l.ty), bp(off))),
                        op1(Mnemonic::Fstp, wide(float_width(&l.ty), bp(off))),
                        Step::PendingWait,
                    ])
                } else {
                    Plan::Skip
                }
            } else {
                Plan::Skip
            }
        } else {
            Plan::Skip
        }
    } else {
        Plan::Skip
    }
}

/// `name op= value` for a value that is no comma.
pub open spec fn plan_compound_plain<'a>(
    cx: Cx<'a>,
    name: &'a String,
    op: BinOp,
    value: &'a Expr,
) -> Plan<'a> {
    match plan_compound_float(cx, name, op, value) {
        Plan::Skip => {
            match crate::codegen::compound_long::plan_compound_long(cx, name, op, value) {
                Plan::Skip => {
                    match crate::codegen::compound_global::plan_compound_global(cx, name, op, value) {
                        Plan::Skip => {
                            plan_compound_local(cx, name, op, value)
                        },
                        taken => taken,
                    }
                },
                taken => taken,
            }
        },
        taken => taken,
    }
}

/// `name op= value`. The operands of a comma before the last are evaluated
/// for their effects.
pub open spec fn plan_emit_compound_assign<'a>(
    cx: Cx<'a>,
    name: &'a String,
    op: BinOp,
    value: &'a Expr,
) -> Plan<'a>
    decreases value,
{
    match &value.kind {
        ExprKind::Comma { left, right } => Plan::Emit(seq![Step::Discard(&**left)]).followed_by(
            plan_emit_compound_assign(cx, name, op, &**right),
        ),
        _ => plan_compound_plain(cx, name, op, value),
    }
}

impl<'a> FunctionEmitter<'a> {
    /// Emits what [`plan_stack_word`] says, if it applies.
    pub fn try_stack_word(&mut self, l: &'a Local, op: BinOp, value: &'a Expr) -> (done: bool)
        requires
            old(self).cx.env.wf(),
            !(plan_stack_word(old(self).cx, l, op, value) is Stuck),
        ensures
            final(self).ran(*old(self), plan_stack_word(old(self).cx, l, op, value), done),
    {
        let cx: Cx<'a> = self.cx;
        if !(l.ty.is_int_like() && is_direct(op)) {
            return false;
        }
        let LocalLocation::Stack(off) = l.loc else { return false; };
        match (cx.env.const_of(value), &cx.env.facts(value).int_addr, int_register(cx.env, value)) {
            (Some(v), _, _) => {
                self.put(op2(direct(op), word(bp(off)), imm(lo16(v))));
                return true;
            },
            (None, Some(addr), _) => {
                self.put(mov(ax(), word(named(addr))));
                self.put(op2(direct(op), word(bp(off)), ax()));
                return true;
            },
            (None, None, Some(reg)) => {
                self.put(op2(direct(op), word(bp(off)), r(reg)));
                return true;
            },
            (None, None, None) => {
                self.put(to_ax(cx, value));
                self.put(op2(direct(op), word(bp(off)), ax()));
                return true;
            },
        }
    }

    /// Emits what [`plan_stack_char`] says, if it applies.
    pub fn try_stack_char(&mut self, l: &'a Local, op: BinOp, value: &'a Expr) -> (done: bool)
        requires
            old(self).cx.env.wf(),
            !(plan_stack_char(old(self).cx, l, op, value) is Stuck),
        ensures
            final(self).ran(*old(self), plan_stack_char(old(self).cx, l, op, value), done),
    {
        let cx: Cx<'a> = self.cx;
        if !(l.ty.is_char_like() && is_direct(op)) {
            return false;
        }
        let LocalLocation::Stack(off) = l.loc else { return false; };
        let Some(v) = cx.env.const_of(value) else { return false; };
        if is_additive(op) {
            self.byte_arith(op, bp(off), v);
            return true;
        } else {
            self.put(mov(al(), byte(bp(off))));
            self.put(op2(direct(op), al(), imm(lo8(v))));
            self.put(mov(byte(bp(off)), al()));
            return true;
        }
    }

    /// Emits what [`plan_byte_sum_const`] says, if it applies.
    pub fn try_byte_sum_const(&mut self, reg: Reg, op: BinOp, value: &'a Expr) -> (done: bool)
        requires
            old(self).cx.env.wf(),
            !(plan_byte_sum_const(old(self).cx, reg, op, value) is Stuck),
        ensures
            final(self).ran(*old(self), plan_byte_sum_const(old(self).cx, reg, op, value), done),
    {
        let cx: Cx<'a> = self.cx;
        if !is_additive(op) {
            return false;
        }
        let Some(v) = cx.env.const_of(value) else { return false; };
        self.put(mov(al(), r(reg)));
        if lo8(v) == 1 {
            self.put(op1(step_by_one(op), al()));
        } else if op == BinOp::Sub {
            self.put(add_to(al(), imm(signed8(neg8(v)))));
        } else {
            self.put(add_to(al(), imm(lo8(v))));
        }
        self.put(mov(r(reg), al()));
        true
    }

    /// Emits what [`plan_byte_bits_const`] says, if it applies.
    pub fn try_byte_bits_const(&mut self, reg: Reg, op: BinOp, value: &'a Expr) -> (done: bool)
        requires
            old(self).cx.env.wf(),
            !(plan_byte_bits_const(old(self).cx, reg, op, value) is Stuck),
        ensures
            final(self).ran(*old(self), plan_byte_bits_const(old(self).cx, reg, op, value), done),
    {
        let cx: Cx<'a> = self.cx;
        if !is_bitwise(op) {
            return false;
        }
        let Some(v) = cx.env.const_of(value) else { return false; };
        self.put(op2(direct(op), r(reg), imm(lo8(v))));
        true
    }

    /// Emits what [`plan_byte_shift_const`] says, if it applies.
    pub fn try_byte_shift_const(
        &mut self,
        reg: Reg,
        ty: &'a Type,
        op: BinOp,
        value: &'a Expr,
    ) -> (done: bool)
        requires
            old(self).cx.env.wf(),
            !(plan_byte_shift_const(old(self).cx, reg, ty, op, value) is Stuck),
        ensures
            final(self).ran(
                *old(self),
                plan_byte_shift_const(old(self).cx, reg, ty, op, value),
                done,
            ),
    {
        let cx: Cx<'a> = self.cx;
        if !is_shift(op) {
            return false;
        }
        let Some(k) = cx.env.const_of(value) else { return false; };
        if !(1 <= k && k <= 8) {
            return false;
        }
        self.put_times(op2(shift(op, ty.is_unsigned()), r(reg), imm(1)), k as u64);
        true
    }

    /// Emits what [`plan_byte_mul_const`] says, if it applies.
    pub fn try_byte_mul_const(&mut self, reg: Reg, op: BinOp, value: &'a Expr) -> (done: bool)
        requires
            old(self).cx.env.wf(),
            !(plan_byte_mul_const(old(self).cx, reg, op, value) is Stuck),
        ensures
            final(self).ran(*old(self), plan_byte_mul_const(old(self).cx, reg, op, value), done),
    {
        let cx: Cx<'a> = self.cx;
        if !(op == BinOp::Mul) {
            return false;
        }
        let Some(k) = cx.env.const_of(value) else { return false; };
        self.put(mov(al(), r(reg)));
        self.multiply_al(k);
        self.put(mov(r(reg), al()));
        true
    }

    /// Emits what [`plan_byte_div_const`] says, if it applies.
    pub fn try_byte_div_const(
        &mut self,
        reg: Reg,
        ty: &'a Type,
        op: BinOp,
        value: &'a Expr,
    ) -> (done: bool)
        requires
            old(self).cx.env.wf(),
            !(plan_byte_div_const(old(self).cx, reg, ty, op, value) is Stuck),
        ensures
            final(self).ran(
                *old(self),
                plan_byte_div_const(old(self).cx, reg, ty, op, value),
                done,
            ),
    {
        let cx: Cx<'a> = self.cx;
        if !is_division(op) {
            return false;
        }
        let Some(v) = cx.env.const_of(value) else { return false; };
        self.put(mov(al(), r(reg)));
        self.put(widen(ty.is_unsigned()));
        self.put(mov(bx(), imm(lo16(v))));
        self.put(cwd());
        self.put(idiv(bx()));
        self.put(mov(r(reg), low_quotient(op)));
        true
    }

    /// Emits what [`plan_byte_mul`] says, if it applies.
    pub fn try_byte_mul(&mut self, reg: Reg, op: BinOp, value: &'a Expr) -> (done: bool)
        requires
            old(self).cx.env.wf(),
            !(plan_byte_mul(old(self).cx, reg, op, value) is Stuck),
        ensures
            final(self).ran(*old(self), plan_byte_mul(old(self).cx, reg, op, value), done),
    {
        let cx: Cx<'a> = self.cx;
        if !(op == BinOp::Mul) {
            return false;
        }
        let Some(src) = &cx.env.facts(value).source else { return false; };
        self.put(mov(al(), r(reg)));
        self.put(imul(given(&src.byte)));
        self.put(mov(r(reg), al()));
        true
    }

    /// Emits what [`plan_byte_div`] says, if it applies.
    pub fn try_byte_div(
        &mut self,
        reg: Reg,
        ty: &'a Type,
        op: BinOp,
        value: &'a Expr,
    ) -> (done: bool)
        requires
            old(self).cx.env.wf(),
            !(plan_byte_div(old(self).cx, reg, ty, op, value) is Stuck),
        ensures
            final(self).ran(*old(self), plan_byte_div(old(self).cx, reg, ty, op, value), done),
    {
        let cx: Cx<'a> = self.cx;
        if !is_division(op) {
            return false;
        }
        let Some(src) = &cx.env.facts(value).source else { return false; };
        self.put(mov(al(), r(reg)));
        self.divide_al(ty.is_unsigned(), given(&src.byte));
        self.put(mov(r(reg), byte_quotient(op)));
        true
    }

    /// Emits what [`plan_byte_shift`] says, if it applies.
    pub fn try_byte_shift(
        &mut self,
        reg: Reg,
        ty: &'a Type,
        op: BinOp,
        value: &'a Expr,
    ) -> (done: bool)
        requires
            old(self).cx.env.wf(),
            !(plan_byte_shift(old(self).cx, reg, ty, op, value) is Stuck),
        ensures
            final(self).ran(*old(self), plan_byte_shift(old(self).cx, reg, ty, op, value), done),
    {
        let cx: Cx<'a> = self.cx;
        if !is_shift(op) {
            return false;
        }
        let Some(src) = &cx.env.facts(value).source else { return false; };
        self.put(mov(cl(), given(&src.byte)));
        self.put(op2(shift(op, ty.is_unsigned()), r(reg), cl()));
        true
    }

    /// Emits what [`plan_byte_direct`] says, if it applies.
    pub fn try_byte_direct(&mut self, reg: Reg, op: BinOp, value: &'a Expr) -> (done: bool)
        requires
            old(self).cx.env.wf(),
            !(plan_byte_direct(old(self).cx, reg, op, value) is Stuck),
        ensures
            final(self).ran(*old(self), plan_byte_direct(old(self).cx, reg, op, value), done),
    {
        let cx: Cx<'a> = self.cx;
        if !(is_direct(op) && !is_binop(value)) {
            return false;
        }
        let Some(src) = &cx.env.facts(value).source else { return false; };
        if names_int_local(cx.env, value) && is_additive(op) {
            self.put(mov(al(), r(reg)));
            self.put(op2(direct(op), al(), given(&src.byte)));
            self.put(mov(r(reg), al()));
            return true;
        } else {
            self.put(mov(al(), given(&src.byte)));
            self.put(op2(direct(op), r(reg), al()));
            return true;
        }
    }

    /// Emits what [`plan_narrow_to_al`] says, if it applies.
    pub fn try_narrow_to_al(&mut self, value: &'a Expr) -> (done: bool)
        requires
            old(self).cx.env.wf(),
            !(plan_narrow_to_al(old(self).cx, value) is Stuck),
        ensures
            final(self).ran(*old(self), plan_narrow_to_al(old(self).cx, value), done),
    {
        let cx: Cx<'a> = self.cx;
        let ExprKind::BinOp { op, left, right } = &value.kind else { return false; };
        let Some(chain) = &cx.env.facts(&**left).chain else { return false; };
        let Some(addr) = cx.env.resolve_chain_addr(&chain.name, chain.off) else { return false; };
        let Some(k) = cx.env.const_of(&**right) else { return false; };
        let Some(shifts) = narrow_shifts(*op, k) else { return false; };
        self.put(mov(al(), byte(addr)));
        self.put_times(shl1(al()), shifts as u64);
        true
    }

    /// Computes a value of which only the low byte is wanted.
    pub fn low_byte_to_al(&mut self, value: &'a Expr)
        requires
            old(self).cx.env.wf(),
            plan_low_byte_to_al(old(self).cx, value) is Emit,
        ensures
            final(self).wrote(*old(self), plan_low_byte_to_al(old(self).cx, value)),
    {
        let cx: Cx<'a> = self.cx;
        if self.try_narrow_to_al(value) {
            return;
        }
        self.put(to_ax(cx, value));
    }

    /// Emits what [`plan_byte_computed`] says, if it applies.
    pub fn try_byte_computed(&mut self, reg: Reg, op: BinOp, value: &'a Expr) -> (done: bool)
        requires
            old(self).cx.env.wf(),
            !(plan_byte_computed(old(self).cx, reg, op, value) is Stuck),
        ensures
            final(self).ran(*old(self), plan_byte_computed(old(self).cx, reg, op, value), done),
    {
        if !(is_direct(op) && is_binop(value)) {
            return false;
        }
        self.low_byte_to_al(value);
        self.put(mov(dl(), r(reg)));
        self.put(op2(direct(op), dl(), al()));
        self.put(mov(r(reg), dl()));
        true
    }

    /// A character in a register.
    pub fn compound_byte_reg(&mut self, reg: Reg, ty: &'a Type, op: BinOp, value: &'a Expr)
        requires
            old(self).cx.env.wf(),
            plan_compound_byte_reg(old(self).cx, reg, ty, op, value) is Emit,
        ensures
            final(self).wrote(
                *old(self),
                plan_compound_byte_reg(old(self).cx, reg, ty, op, value),
            ),
    {
        if self.try_byte_sum_const(reg, op, value) {
            return;
        }
        if self.try_byte_bits_const(reg, op, value) {
            return;
        }
        if self.try_byte_shift_const(reg, ty, op, value) {
            return;
        }
        if self.try_byte_mul_const(reg, op, value) {
            return;
        }
        if self.try_byte_div_const(reg, ty, op, value) {
            return;
        }
        if self.try_byte_mul(reg, op, value) {
            return;
        }
        if self.try_byte_div(reg, ty, op, value) {
            return;
        }
        if self.try_byte_shift(reg, ty, op, value) {
            return;
        }
        if self.try_byte_direct(reg, op, value) {
            return;
        }
        if self.try_byte_computed(reg, op, value) {
            return;
        }
        return;
    }

    /// Emits what [`plan_word_global_elem`] says, if it applies.
    pub fn try_word_global_elem(&mut self, reg: Reg, op: BinOp, value: &'a Expr) -> (done: bool)
        requires
            old(self).cx.env.wf(),
            !(plan_word_global_elem(old(self).cx, reg, op, value) is Stuck),
        ensures
            final(self).ran(
                *old(self),
                plan_word_global_elem(old(self).cx, reg, op, value),
                done,
            ),
    {
        let cx: Cx<'a> = self.cx;
        if !(op == BinOp::Add) {
            return false;
        }
        let ExprKind::ArrayIndex { array, index } = &value.kind else { return false; };
        let ExprKind::Ident(arr) = &array.kind else { return false; };
        let Some(t) = cx.env.global_elem(arr) else { return false; };
        if !t.is_int_like() {
            return false;
        }
        self.emit_index_into_bx(&**index, t);
        self.put(add_to(r(reg), word(elem(arr, Reg::Bx))));
        true
    }

    /// Emits what [`plan_word_global_member`] says, if it applies.
    pub fn try_word_global_member(&mut self, reg: Reg, op: BinOp, value: &'a Expr) -> (done: bool)
        requires
            old(self).cx.env.wf(),
            !(plan_word_global_member(old(self).cx, reg, op, value) is Stuck),
        ensures
            final(self).ran(
                *old(self),
                plan_word_global_member(old(self).cx, reg, op, value),
                done,
            ),
    {
        let cx: Cx<'a> = self.cx;
        if !(op == BinOp::Add) {
            return false;
        }
        let ExprKind::Member { base, field, kind: MemberKind::Dot } = &value.kind else { return false; };
        let ExprKind::ArrayIndex { array, index } = &base.kind else { return false; };
        let ExprKind::Ident(arr) = &array.kind else { return false; };
        if !(!cx.env.has(arr)) {
            return false;
        }
        let Some(t) = cx.env.global_elem(arr) else { return false; };
        let Some(f) = t.struct_field_info(field) else { return false; };
        if !(f.ty.is_int_like() && cx.env.const_of(&**index).is_none()) {
            return false;
        }
        self.emit_index_into_bx(&**index, t);
        self.put(add_to(r(reg), word(elem_at(arr, plus(f.offset as i64), Reg::Bx))));
        true
    }

    /// Emits what [`plan_word_frame_const`] says, if it applies.
    pub fn try_word_frame_const(&mut self, reg: Reg, op: BinOp, value: &'a Expr) -> (done: bool)
        requires
            old(self).cx.env.wf(),
            !(plan_word_frame_const(old(self).cx, reg, op, value) is Stuck),
        ensures
            final(self).ran(
                *old(self),
                plan_word_frame_const(old(self).cx, reg, op, value),
                done,
            ),
    {
        let cx: Cx<'a> = self.cx;
        if !(op == BinOp::Add) {
            return false;
        }
        let ExprKind::ArrayIndex { array, index } = &value.kind else { return false; };
        let ExprKind::Ident(arr) = &array.kind else { return false; };
        let Some(t) = cx.env.local_elem(arr) else { return false; };
        if !t.is_int_like() {
            return false;
        }
        let Some(base) = cx.env.stack_of(arr) else { return false; };
        let Some(k) = cx.env.const_of(&**index) else { return false; };
        let Some(slot) = frame_elem(base, k, t.size_bytes()) else { return false; };
        self.put(add_to(r(reg), word(slot)));
        true
    }

    /// Emits what [`plan_word_pointer_elem`] says, if it applies.
    pub fn try_word_pointer_elem(&mut self, reg: Reg, op: BinOp, value: &'a Expr) -> (done: bool)
        requires
            old(self).cx.env.wf(),
            !(plan_word_pointer_elem(old(self).cx, reg, op, value) is Stuck),
        ensures
            final(self).ran(
                *old(self),
                plan_word_pointer_elem(old(self).cx, reg, op, value),
                done,
            ),
    {
        let cx: Cx<'a> = self.cx;
        if !(op == BinOp::Add) {
            return false;
        }
        let ExprKind::ArrayIndex { array, index } = &value.kind else { return false; };
        let ExprKind::Ident(p) = &array.kind else { return false; };
        let Some(t) = cx.env.local_pointee(p) else { return false; };
        if !t.is_int_like() {
            return false;
        }
        let Some(off) = cx.env.stack_of(p) else { return false; };
        self.put(to_ax(cx, &**index));
        self.put(shl1(ax()));
        self.put(mov(bx(), word(bp(off))));
        self.put(add_to(bx(), ax()));
        self.put(add_to(r(reg), word(at(Reg::Bx))));
        true
    }

    /// Emits what [`plan_word_frame_elem`] says, if it applies.
    pub fn try_word_frame_elem(&mut self, reg: Reg, op: BinOp, value: &'a Expr) -> (done: bool)
        requires
            old(self).cx.env.wf(),
            !(plan_word_frame_elem(old(self).cx, reg, op, value) is Stuck),
        ensures
            final(self).ran(*old(self), plan_word_frame_elem(old(self).cx, reg, op, value), done),
    {
        let cx: Cx<'a> = self.cx;
        if !(op == BinOp::Add) {
            return false;
        }
        let ExprKind::ArrayIndex { array, index } = &value.kind else { return false; };
        let ExprKind::Ident(arr) = &array.kind else { return false; };
        let Some(t) = cx.env.local_elem(arr) else { return false; };
        if !t.is_int_like() {
            return false;
        }
        let Some(base) = cx.env.stack_of(arr) else { return false; };
        self.emit_array_addr_to_bx(&**index, base, t.size_bytes());
        self.put(add_to(r(reg), word(at(Reg::Bx))));
        true
    }

    /// Emits what [`plan_word_deref_post`] says, if it applies.
    pub fn try_word_deref_post(&mut self, reg: Reg, op: BinOp, value: &'a Expr) -> (done: bool)
        requires
            old(self).cx.env.wf(),
            !(plan_word_deref_post(old(self).cx, reg, op, value) is Stuck),
        ensures
            final(self).ran(*old(self), plan_word_deref_post(old(self).cx, reg, op, value), done),
    {
        let cx: Cx<'a> = self.cx;
        if !is_direct(op) {
            return false;
        }
        let ExprKind::Deref(inner) = &value.kind else { return false; };
        let ExprKind::Update { target, op: up, position: UpdatePosition::Post } = &inner.kind else { return false; };
        let Some(from) = cx.env.word_reg_of(target) else { return false; };
        let Some(t) = cx.env.local_pointee(target) else { return false; };
        if !t.is_int_like() {
            return false;
        }
        self.put(op2(direct(op), r(reg), word(at(from))));
        self.put_times(op1(update(*up), r(from)), t.size_bytes() as u64);
        true
    }

    /// Emits what [`plan_word_update`] says, if it applies.
    pub fn try_word_update(&mut self, reg: Reg, op: BinOp, value: &'a Expr) -> (done: bool)
        requires
            old(self).cx.env.wf(),
            !(plan_word_update(old(self).cx, reg, op, value) is Stuck),
        ensures
            final(self).ran(*old(self), plan_word_update(old(self).cx, reg, op, value), done),
    {
        let cx: Cx<'a> = self.cx;
        if !is_direct(op) {
            return false;
        }
        let ExprKind::Update { target, op: up, position } = &value.kind else { return false; };
        let Some(from) = cx.env.word_reg_of(target) else { return false; };
        if !cx.env.is_int_local(target) {
            return false;
        }
        if *position == UpdatePosition::Pre {
            self.put(op1(update(*up), r(from)));
            self.put(op2(direct(op), r(reg), r(from)));
            return true;
        } else {
            self.put(op2(direct(op), r(reg), r(from)));
            self.put(op1(update(*up), r(from)));
            return true;
        }
    }

    /// Emits what [`plan_word_low_half`] says, if it applies.
    pub fn try_word_low_half(&mut self, reg: Reg, op: BinOp, value: &'a Expr) -> (done: bool)
        requires
            old(self).cx.env.wf(),
            !(plan_word_low_half(old(self).cx, reg, op, value) is Stuck),
        ensures
            final(self).ran(*old(self), plan_word_low_half(old(self).cx, reg, op, value), done),
    {
        let cx: Cx<'a> = self.cx;
        if !is_direct(op) {
            return false;
        }
        let ExprKind::Cast { ty, operand } = &value.kind else { return false; };
        if !is_plain_int(ty) {
            return false;
        }
        let Some((_, lo)) = &cx.env.facts(&**operand).long_addrs else { return false; };
        self.put(op2(direct(op), r(reg), word(named(lo))));
        true
    }

    /// Emits what [`plan_word_computed`] says, if it applies.
    pub fn try_word_computed(&mut self, reg: Reg, op: BinOp, value: &'a Expr) -> (done: bool)
        requires
            old(self).cx.env.wf(),
            !(plan_word_computed(old(self).cx, reg, op, value) is Stuck),
        ensures
            final(self).ran(*old(self), plan_word_computed(old(self).cx, reg, op, value), done),
    {
        let cx: Cx<'a> = self.cx;
        if !(is_direct(op) && cx.env.const_of(value).is_none() && cx.env.facts(value).needs_ax) {
            return false;
        }
        self.put(to_ax(cx, value));
        self.put(Step::ApplyCollapsed(direct(op), reg, op == BinOp::Add && !cx.env.facts(value).has_call));
        true
    }

    /// Emits what [`plan_word_mul_pair`] says, if it applies.
    pub fn try_word_mul_pair(&mut self, reg: Reg, op: BinOp, value: &'a Expr) -> (done: bool)
        requires
            old(self).cx.env.wf(),
            !(plan_word_mul_pair(old(self).cx, reg, op, value) is Stuck),
        ensures
            final(self).ran(*old(self), plan_word_mul_pair(old(self).cx, reg, op, value), done),
    {
        let cx: Cx<'a> = self.cx;
        if !(op == BinOp::Mul) {
            return false;
        }
        let ExprKind::BinOp { op: inner, left, right } = &value.kind else { return false; };
        if !is_direct(*inner) {
            return false;
        }
        let Some(a) = &cx.env.facts(&**left).int_addr else { return false; };
        let Some(b) = &cx.env.facts(&**right).int_addr else { return false; };
        self.put(mov(dx(), word(named(a))));
        self.put(op2(direct(*inner), dx(), word(named(b))));
        self.put(mov(ax(), r(reg)));
        self.put(imul(dx()));
        self.put(mov(r(reg), ax()));
        true
    }

    /// Emits what [`plan_word_mul_computed`] says, if it applies.
    pub fn try_word_mul_computed(
        &mut self,
        reg: Reg,
        ty: &'a Type,
        op: BinOp,
        value: &'a Expr,
    ) -> (done: bool)
        requires
            old(self).cx.env.wf(),
            !(plan_word_mul_computed(old(self).cx, reg, ty, op, value) is Stuck),
        ensures
            final(self).ran(
                *old(self),
                plan_word_mul_computed(old(self).cx, reg, ty, op, value),
                done,
            ),
    {
        let cx: Cx<'a> = self.cx;
        if !(is_multiplicative(op) && cx.env.const_of(value).is_none()) {
            return false;
        }
        if !cx.env.facts(value).needs_ax {
            return false;
        }
        self.put(to_ax(cx, value));
        if op == BinOp::Mul {
            self.put(mov(dx(), ax()));
            self.put(mov(ax(), r(reg)));
            self.put(imul(dx()));
        } else {
            self.put(push(ax()));
            self.put(mov(ax(), r(reg)));
            self.put(widen_long(ty.is_unsigned()));
            self.put(pop(bx()));
            self.put(op1(division(ty.is_unsigned()), bx()));
        }
        self.put(mov(r(reg), quotient(op)));
        true
    }

    /// Emits what [`plan_word_sum_const`] says, if it applies.
    pub fn try_word_sum_const(
        &mut self,
        reg: Reg,
        ty: &'a Type,
        op: BinOp,
        value: &'a Expr,
    ) -> (done: bool)
        requires
            old(self).cx.env.wf(),
            ty.fits(),
            !(plan_word_sum_const(old(self).cx, reg, ty, op, value) is Stuck),
        ensures
            final(self).ran(
                *old(self),
                plan_word_sum_const(old(self).cx, reg, ty, op, value),
                done,
            ),
    {
        let cx: Cx<'a> = self.cx;
        if !is_additive(op) {
            return false;
        }
        let Some(v) = cx.env.const_of(value) else { return false; };
        let n: i64 = moved_by(v, stride_of(ty));
        if n == 1 {
            self.put(op1(step_by_one(op), r(reg)));
            return true;
        } else if n == 2 && op == BinOp::Add {
            self.put(op1(Mnemonic::Inc, r(reg)));
            self.put(op1(Mnemonic::Inc, r(reg)));
            return true;
        } else {
            self.put(op2(direct(op), r(reg), imm(n)));
            return true;
        }
    }

    /// Emits what [`plan_word_direct_char`] says, if it applies.
    pub fn try_word_direct_char(&mut self, reg: Reg, op: BinOp, value: &'a Expr) -> (done: bool)
        requires
            old(self).cx.env.wf(),
            !(plan_word_direct_char(old(self).cx, reg, op, value) is Stuck),
        ensures
            final(self).ran(
                *old(self),
                plan_word_direct_char(old(self).cx, reg, op, value),
                done,
            ),
    {
        let cx: Cx<'a> = self.cx;
        if !is_direct(op) {
            return false;
        }
        if !(if is_additive(op) { is_char_lvalue(cx.env, value) } else { names_char_local(cx.env, value) }) {
            return false;
        }
        self.put(to_ax(cx, value));
        self.put(op2(direct(op), r(reg), ax()));
        true
    }

    /// Emits what [`plan_word_direct`] says, if it applies.
    pub fn try_word_direct(&mut self, reg: Reg, op: BinOp, value: &'a Expr) -> (done: bool)
        requires
            old(self).cx.env.wf(),
            !(plan_word_direct(old(self).cx, reg, op, value) is Stuck),
        ensures
            final(self).ran(*old(self), plan_word_direct(old(self).cx, reg, op, value), done),
    {
        let cx: Cx<'a> = self.cx;
        if !is_direct(op) {
            return false;
        }
        let Some(src) = &cx.env.facts(value).source else { return false; };
        self.put(op2(direct(op), r(reg), given(&src.word)));
        true
    }

    /// Multiplies `ax` by an operand: memory and registers as they are, anything
    /// else by way of `dx`.
    pub fn multiply_by_source(&mut self, src: &'a Source)
        requires
            old(self).cx.env.wf(),
            plan_multiply_by_source(old(self).cx, src) is Emit,
        ensures
            final(self).wrote(*old(self), plan_multiply_by_source(old(self).cx, src)),
    {
        match src.kind {
            SourceKind::Memory => {
                self.put(imul(given(&src.word)));
            },
            SourceKind::Reg(by) => {
                self.put(imul(r(by)));
            },
            _ => {
                self.put(mov(dx(), given(&src.word)));
                self.put(imul(dx()));
            },
        }
    }

    /// Emits what [`plan_word_mul`] says, if it applies.
    pub fn try_word_mul(&mut self, reg: Reg, op: BinOp, value: &'a Expr) -> (done: bool)
        requires
            old(self).cx.env.wf(),
            !(plan_word_mul(old(self).cx, reg, op, value) is Stuck),
        ensures
            final(self).ran(*old(self), plan_word_mul(old(self).cx, reg, op, value), done),
    {
        let cx: Cx<'a> = self.cx;
        if !(op == BinOp::Mul) {
            return false;
        }
        match cx.env.const_of(value) {
            Some(v) => {
                self.put(mov(dx(), imm(lo16(v))));
                self.put(mov(ax(), r(reg)));
                self.put(imul(dx()));
                self.put(mov(r(reg), ax()));
                return true;
            },
            None => {
                if is_char_lvalue(cx.env, value) {
                    self.put(to_ax(cx, value));
                    self.put(push(ax()));
                    self.put(mov(ax(), r(reg)));
                    self.put(pop(dx()));
                    self.put(imul(dx()));
                    self.put(mov(r(reg), ax()));
                    return true;
                } else {
                    let Some(src) = &cx.env.facts(value).source else { return false; };
                    self.put(mov(ax(), r(reg)));
                    self.multiply_by_source(src);
                    self.put(mov(r(reg), ax()));
                    return true;
                }
            },
        }
    }

    /// Emits what [`plan_word_shift`] says, if it applies.
    pub fn try_word_shift(
        &mut self,
        reg: Reg,
        ty: &'a Type,
        op: BinOp,
        value: &'a Expr,
    ) -> (done: bool)
        requires
            old(self).cx.env.wf(),
            !(plan_word_shift(old(self).cx, reg, ty, op, value) is Stuck),
        ensures
            final(self).ran(*old(self), plan_word_shift(old(self).cx, reg, ty, op, value), done),
    {
        let cx: Cx<'a> = self.cx;
        if !is_shift(op) {
            return false;
        }
        match cx.env.const_of(value) {
            Some(k) => {
                if 1 <= lo16(k) && lo16(k) <= 3 {
                    self.put_times(op2(shift(op, ty.is_unsigned()), r(reg), imm(1)), lo16(k) as u64);
                    return true;
                } else {
                    self.put(mov(cl(), imm(lo8(k))));
                    self.put(op2(shift(op, ty.is_unsigned()), r(reg), cl()));
                    return true;
                }
            },
            None => {
                let Some(src) = &cx.env.facts(value).source else { return false; };
                self.put(mov(cl(), given(&src.byte)));
                self.put(op2(shift(op, ty.is_unsigned()), r(reg), cl()));
                return true;
            },
        }
    }

    /// Divides `dx:ax` by an operand: memory as it is, anything else by way of
    /// `bx`.
    pub fn divide_by_source(&mut self, src: &'a Source)
        requires
            old(self).cx.env.wf(),
            plan_divide_by_source(old(self).cx, src) is Emit,
        ensures
            final(self).wrote(*old(self), plan_divide_by_source(old(self).cx, src)),
    {
        match src.kind {
            SourceKind::Memory => {
                self.put(idiv(given(&src.word)));
            },
            _ => {
                self.put(mov(bx(), given(&src.word)));
                self.put(idiv(bx()));
            },
        }
    }

    /// Emits what [`plan_word_div`] says, if it applies.
    pub fn try_word_div(&mut self, reg: Reg, op: BinOp, value: &'a Expr) -> (done: bool)
        requires
            old(self).cx.env.wf(),
            !(plan_word_div(old(self).cx, reg, op, value) is Stuck),
        ensures
            final(self).ran(*old(self), plan_word_div(old(self).cx, reg, op, value), done),
    {
        let cx: Cx<'a> = self.cx;
        if !is_division(op) {
            return false;
        }
        match cx.env.const_of(value) {
            Some(v) => {
                self.put(mov(bx(), imm(lo16(v))));
                self.put(mov(ax(), r(reg)));
                self.put(cwd());
                self.put(idiv(bx()));
                self.put(mov(r(reg), quotient(op)));
                return true;
            },
            None => {
                let Some(src) = &cx.env.facts(value).source else { return false; };
                self.put(mov(ax(), r(reg)));
                self.put(cwd());
                self.divide_by_source(src);
                self.put(mov(r(reg), quotient(op)));
                return true;
            },
        }
    }

    /// Emits what [`plan_word_elements`] says, if it applies.
    pub fn try_word_elements(&mut self, reg: Reg, op: BinOp, value: &'a Expr) -> (done: bool)
        requires
            old(self).cx.env.wf(),
            !(plan_word_elements(old(self).cx, reg, op, value) is Stuck),
        ensures
            final(self).ran(*old(self), plan_word_elements(old(self).cx, reg, op, value), done),
    {
        if self.try_word_global_elem(reg, op, value) {
            return true;
        }
        if self.try_word_global_member(reg, op, value) {
            return true;
        }
        if self.try_word_frame_const(reg, op, value) {
            return true;
        }
        if self.try_word_pointer_elem(reg, op, value) {
            return true;
        }
        if self.try_word_frame_elem(reg, op, value) {
            return true;
        }
        false
    }

    /// A word in a register.
    pub fn compound_word_reg(&mut self, reg: Reg, ty: &'a Type, op: BinOp, value: &'a Expr)
        requires
            old(self).cx.env.wf(),
            ty.fits(),
            plan_compound_word_reg(old(self).cx, reg, ty, op, value) is Emit,
        ensures
            final(self).wrote(
                *old(self),
                plan_compound_word_reg(old(self).cx, reg, ty, op, value),
            ),
    {
        if self.try_word_elements(reg, op, value) {
            return;
        }
        if self.try_word_deref_post(reg, op, value) {
            return;
        }
        if self.try_word_update(reg, op, value) {
            return;
        }
        if self.try_word_low_half(reg, op, value) {
            return;
        }
        if self.try_word_computed(reg, op, value) {
            return;
        }
        if self.try_word_mul_pair(reg, op, value) {
            return;
        }
        if self.try_word_mul_computed(reg, ty, op, value) {
            return;
        }
        if self.try_word_sum_const(reg, ty, op, value) {
            return;
        }
        if self.try_word_direct_char(reg, op, value) {
            return;
        }
        if self.try_word_direct(reg, op, value) {
            return;
        }
        if self.try_word_mul(reg, op, value) {
            return;
        }
        if self.try_word_shift(reg, ty, op, value) {
            return;
        }
        if self.try_word_div(reg, op, value) {
            return;
        }
        return;
    }

    /// A local integer or character.
    pub fn compound_local(&mut self, name: &'a String, op: BinOp, value: &'a Expr)
        requires
            old(self).cx.env.wf(),
            plan_compound_local(old(self).cx, name, op, value) is Emit,
        ensures
            final(self).wrote(*old(self), plan_compound_local(old(self).cx, name, op, value)),
    {
        let cx: Cx<'a> = self.cx;
        let Some(l) = cx.env.local(name) else { return; };
        if self.try_stack_word(l, op, value) {
            return;
        }
        if self.try_stack_char(l, op, value) {
            return;
        }
        let LocalLocation::Reg(reg) = l.loc else { return; };
        if reg.is_byte() {
            self.compound_byte_reg(reg, &l.ty, op, value);
        } else {
            self.compound_word_reg(reg, &l.ty, op, value);
        }
    }

    /// Emits what [`plan_compound_float`] says, if it applies.
    pub fn try_compound_float(
        &mut self,
        name: &'a String,
        op: BinOp,
        value: &'a Expr,
    ) -> (done: bool)
        requires
            old(self).cx.env.wf(),
            !(plan_compound_float(old(self).cx, name, op, value) is Stuck),
        ensures
            final(self).ran(*old(self), plan_compound_float(old(self).cx, name, op, value), done),
    {
        let cx: Cx<'a> = self.cx;
        let Some(l) = cx.env.local(name) else { return false; };
        if !l.ty.is_float_like() {
            return false;
        }
        if !(is_additive(op) || op == BinOp::Mul || op == BinOp::Div) {
            return false;
        }
        let LocalLocation::Stack(off) = l.loc else { return false; };
        self.put(Step::FloatLoad(value));
        self.put(op1(float_op(op), wide(float_width(&l.ty), bp(off))));
        self.put(op1(Mnemonic::Fstp, wide(float_width(&l.ty), bp(off))));
        self.put(Step::PendingWait);
        true
    }

    /// `name op= value` for a value that is no comma.
    pub fn compound_plain(&mut self, name: &'a String, op: BinOp, value: &'a Expr)
        requires
            old(self).cx.env.wf(),
            plan_compound_plain(old(self).cx, name, op, value) is Emit,
        ensures
            final(self).wrote(*old(self), plan_compound_plain(old(self).cx, name, op, value)),
    {
        if self.try_compound_float(name, op, value) {
            return;
        }
        if self.try_compound_long(name, op, value) {
            return;
        }
        if self.try_compound_global(name, op, value) {
            return;
        }
        self.compound_local(name, op, value);
    }
}

impl<'a> FunctionEmitter<'a> {
    /// Applies a compound assignment to a variable.
    #[verifier::rlimit(60)]
    #[verifier::spinoff_prover]
    pub fn emit_compound_assign(&mut self, name: &'a String, op: BinOp, value: &'a Expr)
        requires
            old(self).cx.env.wf(),
            plan_emit_compound_assign(old(self).cx, name, op, value) is Emit,
        ensures
            final(self).wrote(
                *old(self),
                plan_emit_compound_assign(old(self).cx, name, op, value),
            ),
        decreases value,
    {
        match &value.kind {
            ExprKind::Comma { left, right } => {
                self.put(Step::Discard(&**left));
                self.emit_compound_assign(name, op, &**right);
            },
            _ => self.compound_plain(name, op, value),
        }
    }
}

} // verus!
