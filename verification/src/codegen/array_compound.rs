//! Compound assignment to array elements.

use vstd::prelude::*;
use crate::ast::{BinOp, Expr, ExprKind, Type};
use crate::codegen::array_assign::{char_chain, each_of, index_reg_of};
use crate::codegen::emitter::{cbw, imul, mov, op1, op2, to_ax, Cx, FunctionEmitter, Plan, Step};
use crate::codegen::env::{is_plain_int, Env, LocalLocation};
use crate::isa::{
    al, at_disp, ax, bp, bp_plus, bp_plus2, bx, byte, cl, direct, disp, disp2, dx, elem, given,
    global, global_at, imm, is_additive, is_bitwise, is_direct, is_multiplicative, is_shift, lo16,
    lo8, masked, quotient, sat16, scaled, shift, sized, step_by_one, word, Addr, Operand, Reg,
};

verus! {

/// A 32-bit element at a constant place in a file-scope array.
pub open spec fn plan_each_long_const<'a>(
    cx: Cx<'a>,
    array: &'a String,
    gty: &'a Type,
    indices: Seq<&'a Expr>,
    op: BinOp,
    value: &'a Expr,
) -> Plan<'a> {
    if let Some((off, leaf)) = cx.env.spec_const_array_offset(gty, indices) {
        if leaf.is_long_like() {
            Plan::Emit(seq![
                Step::LongCompound( global_at(array, disp(off)), global_at(array, disp2(off)), op, value, leaf.is_unsigned()),
            ])
        } else {
            Plan::Skip
        }
    } else {
        Plan::Skip
    }
}

/// Whether an expression is the constant one.
#[verifier::allow_in_spec]
pub fn is_one(env: &Env, e: &Expr) -> bool
    returns
        (match env.const_of(e) {
            Some(v) => v == 1,
            None => false,
        }),
{
    match env.const_of(e) {
        Some(v) => v == 1,
        None => false,
    }
}

/// A 32-bit element behind a file-scope pointer, shifted by one: the pointer
/// is loaded again for the store.
pub open spec fn plan_shift_through_global<'a>(
    cx: Cx<'a>,
    array: &'a String,
    hi: Addr<'a>,
    lo: Addr<'a>,
    op: BinOp,
    unsigned: bool,
) -> Plan<'a> {
    crate::codegen::assign_global::plan_load_halves(cx, hi, lo).followed_by(
        if op == BinOp::Shl {
            crate::codegen::assign_global::plan_double_halves(cx)
        } else {
            crate::codegen::assign_global::plan_halve_halves(cx, unsigned)
        },
    ).followed_by(Plan::Emit(seq![mov(bx(), word(global(array)))])).followed_by(
        crate::codegen::assign_global::plan_store_halves(cx, hi, lo),
    )
}

/// A 32-bit element behind a file-scope pointer.
pub open spec fn plan_each_long_pointer<'a>(
    cx: Cx<'a>,
    array: &'a String,
    gty: &'a Type,
    indices: Seq<&'a Expr>,
    op: BinOp,
    value: &'a Expr,
) -> Plan<'a> {
    if let Some(t) = gty.pointee() {
        if t.is_long_like() && indices.len() == 1 {
            if let Some(k) = cx.env.const_of(indices[0]) {
                let lo = at_disp(Reg::Bx, disp(scaled(k, (t.size() as u16))));
                let hi = at_disp(Reg::Bx, disp2(scaled(k, (t.size() as u16))));
                Plan::Emit(seq![mov(bx(), word(global(array)))]).followed_by(
                    if is_shift(op) && is_one(cx.env, value) {
                        plan_shift_through_global(cx, array, hi, lo, op, t.is_unsigned())
                    } else {
                        Plan::Emit(seq![Step::LongCompound(lo, hi, op, value, t.is_unsigned())])
                    },
                )
            } else {
                Plan::Skip
            }
        } else {
            Plan::Skip
        }
    } else {
        Plan::Skip
    }
}

/// The index register of an integer variable.
#[verifier::allow_in_spec]
pub fn int_index_reg(env: &Env, e: &Expr) -> Option<Reg>
    returns
        (match &e.kind {
            ExprKind::Ident(n) => if env.is_int_local(n) {
                index_reg_of(env, e)
            } else {
                None
            },
            _ => None,
        }),
{
    match &e.kind {
        ExprKind::Ident(n) => if env.is_int_local(n) {
            index_reg_of(env, e)
        } else {
            None
        },
        _ => None,
    }
}

/// `a[i]++` and `a[i]--` in a file-scope array, as statements.
pub open spec fn plan_each_step<'a>(
    cx: Cx<'a>,
    array: &'a String,
    gty: &'a Type,
    indices: Seq<&'a Expr>,
    op: BinOp,
    value: &'a Expr,
    from_postfix: bool,
) -> Plan<'a> {
    if let Some(t) = gty.array_elem() {
        if t.is_int_like() || t.is_char_like() {
            if indices.len() == 1 {
                if cx.env.const_of(indices[0]).is_none() {
                    if from_postfix && is_additive(op) && is_one(cx.env, value) {
                        if t.is_char_like() && int_index_reg(cx.env, indices[0]).is_some() {
                            if let Some(reg) = int_index_reg(cx.env, indices[0]) {
                                Plan::Emit(seq![op1(step_by_one(op), byte(elem(array, reg)))])
                            } else {
                                Plan::Stuck
                            }
                        } else {
                            crate::codegen::array_addr::plan_emit_index_into_bx(cx, indices[0], t).followed_by(
                                Plan::Emit(seq![
                                    op1(step_by_one(op), sized(t.is_char_like(), elem(array, Reg::Bx))),
                                ]),
                            )
                        }
                    } else {
                        Plan::Skip
                    }
                } else {
                    Plan::Skip
                }
            } else {
                Plan::Skip
            }
        } else {
            Plan::Skip
        }
    } else {
        Plan::Skip
    }
}

/// A constant applied to a character of a file-scope array with a variable
/// subscript, by way of `al`.
pub open spec fn plan_each_char_const<'a>(
    cx: Cx<'a>,
    array: &'a String,
    gty: &'a Type,
    indices: Seq<&'a Expr>,
    op: BinOp,
    value: &'a Expr,
) -> Plan<'a> {
    if let Some(t) = gty.array_elem() {
        if t.is_char_like() {
            if indices.len() == 1 {
                if cx.env.const_of(indices[0]).is_none() {
                    if is_direct(op) {
                        if let Some(v) = cx.env.const_of(value) {
                            match int_index_reg(cx.env, indices[0]) {
                                Some(reg) => {
                                    Plan::Emit(seq![mov(al(), byte(elem(array, reg)))]).followed_by(
                                        if lo8(v) == 1 && is_additive(op) {
                                            Plan::Emit(seq![op1(step_by_one(op), al())])
                                        } else {
                                            Plan::Emit(seq![op2(direct(op), al(), imm(lo8(v)))])
                                        },
                                    ).followed_by(
                                        Plan::Emit(seq![mov(byte(elem(array, reg)), al())]),
                                    )
                                },
                                None => {
                                    crate::codegen::array_addr::plan_emit_index_into_bx(cx, indices[0], t).followed_by(
                                        Plan::Emit(seq![
                                            mov(al(), byte(elem(array, Reg::Bx))),
                                            op2(direct(op), al(), imm(lo8(v))),
                                            mov(byte(elem(array, Reg::Bx)), al()),
                                        ]),
                                    )
                                },
                            }
                        } else {
                            Plan::Skip
                        }
                    } else {
                        Plan::Skip
                    }
                } else {
                    Plan::Skip
                }
            } else {
                Plan::Skip
            }
        } else {
            Plan::Skip
        }
    } else {
        Plan::Skip
    }
}

/// A direct operator on an integer in memory, with the right side in `ax`.
pub open spec fn plan_place_int_direct<'a>(
    cx: Cx<'a>,
    dest: Addr<'a>,
    leaf: &'a Type,
    op: BinOp,
    value: &'a Expr,
) -> Plan<'a> {
    if is_plain_int(leaf) && is_direct(op) && cx.env.const_of(value).is_none() {
        Plan::Emit(seq![
            to_ax(cx, value),
            op2(direct(op), word(dest), ax()),
        ])
    } else {
        Plan::Skip
    }
}

/// A product, quotient or remainder of an integer in memory and a local
/// variable on the stack.
pub open spec fn plan_place_int_mul<'a>(
    cx: Cx<'a>,
    dest: Addr<'a>,
    leaf: &'a Type,
    op: BinOp,
    value: &'a Expr,
) -> Plan<'a> {
    if is_plain_int(leaf) && is_multiplicative(op) && cx.env.const_of(value).is_none() {
        if let ExprKind::Ident(b) = &value.kind {
            if !cx.env.is_global(b) {
                if let Some(off) = cx.env.stack_of(b) {
                    Plan::Emit(seq![mov(ax(), word(dest))]).followed_by(
                        crate::codegen::deref_write::plan_multiply_or_divide(cx, op, word(bp(off))),
                    ).followed_by(Plan::Emit(seq![mov(word(dest), quotient(op))]))
                } else {
                    Plan::Stuck
                }
            } else {
                Plan::Skip
            }
        } else {
            Plan::Skip
        }
    } else {
        Plan::Skip
    }
}

/// A shift of an integer in memory, with the count in `cl`.
pub open spec fn plan_place_int_shift<'a>(
    cx: Cx<'a>,
    dest: Addr<'a>,
    leaf: &'a Type,
    op: BinOp,
    value: &'a Expr,
) -> Plan<'a> {
    if is_plain_int(leaf) && is_shift(op) && cx.env.const_of(value).is_none() {
        if let Some(count) = &cx.env.facts(value).byte_operand {
            Plan::Emit(seq![
                mov(cl(), given(count)),
                op2(shift(op, leaf.is_unsigned()), word(dest), cl()),
            ])
        } else {
            Plan::Skip
        }
    } else {
        Plan::Skip
    }
}

/// A sum or difference of characters, made in `al`.
pub open spec fn plan_place_char_sum<'a>(
    cx: Cx<'a>,
    dest: Addr<'a>,
    leaf: &'a Type,
    op: BinOp,
    value: &'a Expr,
) -> Plan<'a> {
    if leaf.is_char_like() && is_additive(op) && cx.env.const_of(value).is_none() {
        if let Some(rhs) = &cx.env.facts(value).byte_operand {
            Plan::Emit(seq![
                mov(al(), byte(dest)),
                op2(direct(op), al(), given(rhs)),
                mov(byte(dest), al()),
            ])
        } else {
            Plan::Skip
        }
    } else {
        Plan::Skip
    }
}

/// A bitwise operator on characters, applied in memory.
pub open spec fn plan_place_char_bits<'a>(
    cx: Cx<'a>,
    dest: Addr<'a>,
    leaf: &'a Type,
    op: BinOp,
    value: &'a Expr,
) -> Plan<'a> {
    if leaf.is_char_like() && is_bitwise(op) && cx.env.const_of(value).is_none() {
        if let Some(rhs) = &cx.env.facts(value).byte_operand {
            Plan::Emit(seq![
                mov(al(), given(rhs)),
                op2(direct(op), byte(dest), al()),
            ])
        } else {
            Plan::Skip
        }
    } else {
        Plan::Skip
    }
}

/// A constant applied to a byte or a word in memory.
pub open spec fn plan_place_const<'a>(
    cx: Cx<'a>,
    dest: Addr<'a>,
    leaf: &'a Type,
    op: BinOp,
    v: u32,
    from_postfix: bool,
) -> Plan<'a> {
    if leaf.is_char_like() && from_postfix && lo8(v) == 1 && is_additive(op) {
        Plan::Emit(seq![op1(step_by_one(op), byte(dest))])
    } else if leaf.is_char_like() && is_additive(op) {
        crate::codegen::deref_write::plan_byte_arith(cx, op, dest, v)
    } else {
        if is_direct(op) {
            Plan::Emit(seq![
                op2(direct(op), sized(leaf.is_char_like(), dest), imm(masked(v, leaf.is_char_like()))),
            ])
        } else {
            Plan::Stuck
        }
    }
}

/// An element at a constant place in a file-scope array.
pub open spec fn plan_each_global_const<'a>(
    cx: Cx<'a>,
    array: &'a String,
    gty: &'a Type,
    indices: Seq<&'a Expr>,
    op: BinOp,
    value: &'a Expr,
    from_postfix: bool,
) -> Plan<'a> {
    if let Some((off, leaf)) = cx.env.spec_const_array_offset(gty, indices) {
        let dest = global_at(array, disp(off));
        match plan_place_int_direct(cx, dest, leaf, op, value) {
            Plan::Skip => {
                match plan_place_int_mul(cx, dest, leaf, op, value) {
                    Plan::Skip => {
                        match plan_place_int_shift(cx, dest, leaf, op, value) {
                            Plan::Skip => {
                                match plan_place_char_sum(cx, dest, leaf, op, value) {
                                    Plan::Skip => {
                                        match plan_place_char_bits(cx, dest, leaf, op, value) {
                                            Plan::Skip => {
                                                if let Some(v) = cx.env.const_of(value) {
                                                    plan_place_const(cx, dest, leaf, op, v, from_postfix)
                                                } else {
                                                    Plan::Stuck
                                                }
                                            },
                                            taken => taken,
                                        }
                                    },
                                    taken => taken,
                                }
                            },
                            taken => taken,
                        }
                    },
                    taken => taken,
                }
            },
            taken => taken,
        }
    } else {
        Plan::Skip
    }
}

/// A direct operator on an integer behind a file-scope pointer.
pub open spec fn plan_behind_int_direct<'a>(
    cx: Cx<'a>,
    array: &'a String,
    place: Addr<'a>,
    op: BinOp,
    value: &'a Expr,
) -> Plan<'a> {
    if is_direct(op) {
        Plan::Emit(seq![mov(bx(), word(global(array)))]).followed_by(
            match cx.env.const_of(value) {
                Some(v) => {
                    if lo16(v) == 1 && is_additive(op) {
                        Plan::Emit(seq![op1(step_by_one(op), word(place))])
                    } else {
                        Plan::Emit(seq![op2(direct(op), word(place), imm(lo16(v)))])
                    }
                },
                None => {
                    Plan::Emit(seq![
                        to_ax(cx, value),
                        op2(direct(op), word(place), ax()),
                    ])
                },
            },
        )
    } else {
        Plan::Skip
    }
}

/// A shift of an integer behind a file-scope pointer by a small constant,
/// one place at a time.
pub open spec fn plan_behind_int_shift_const<'a>(
    cx: Cx<'a>,
    array: &'a String,
    place: Addr<'a>,
    t: &'a Type,
    op: BinOp,
    value: &'a Expr,
) -> Plan<'a> {
    if is_shift(op) {
        if let Some(n) = cx.env.const_of(value) {
            if 1 <= n && n <= 8 {
                Plan::Emit(seq![mov(bx(), word(global(array)))]).followed_by(
                    Plan::Emit(op2(shift(op, t.is_unsigned()), word(place), imm(1)).times(n as nat)),
                )
            } else {
                Plan::Skip
            }
        } else {
            Plan::Skip
        }
    } else {
        Plan::Skip
    }
}

/// A shift of an integer behind a file-scope pointer, with the count in
/// `cl`.
pub open spec fn plan_behind_int_shift<'a>(
    cx: Cx<'a>,
    array: &'a String,
    place: Addr<'a>,
    t: &'a Type,
    op: BinOp,
    value: &'a Expr,
) -> Plan<'a> {
    if is_shift(op) && cx.env.const_of(value).is_none() {
        if let Some(count) = &cx.env.facts(value).byte_operand {
            Plan::Emit(seq![
                mov(bx(), word(global(array))),
                mov(cl(), given(count)),
                op2(shift(op, t.is_unsigned()), word(place), cl()),
            ])
        } else {
            Plan::Skip
        }
    } else {
        Plan::Skip
    }
}

/// A product, quotient or remainder of an integer behind a file-scope
/// pointer; after a division the pointer is loaded again.
pub open spec fn plan_behind_int_mul<'a>(
    cx: Cx<'a>,
    array: &'a String,
    place: Addr<'a>,
    op: BinOp,
    value: &'a Expr,
) -> Plan<'a> {
    if is_multiplicative(op) {
        if let ExprKind::Ident(b) = &value.kind {
            if !cx.env.is_global(b) {
                if let Some(off) = cx.env.stack_of(b) {
                    Plan::Emit(seq![
                        mov(bx(), word(global(array))),
                        mov(ax(), word(place)),
                    ]).followed_by(
                        crate::codegen::deref_write::plan_multiply_or_divide(cx, op, word(bp(off))),
                    ).followed_by(
                        Plan::Emit(if op != BinOp::Mul {
                            seq![mov(bx(), word(global(array)))]
                        } else {
                            seq![]
                        }),
                    ).followed_by(Plan::Emit(seq![mov(word(place), quotient(op))]))
                } else {
                    Plan::Stuck
                }
            } else {
                Plan::Skip
            }
        } else {
            Plan::Skip
        }
    } else {
        Plan::Skip
    }
}

/// An integer behind a file-scope pointer.
pub open spec fn plan_each_pointer_int<'a>(
    cx: Cx<'a>,
    array: &'a String,
    gty: &'a Type,
    indices: Seq<&'a Expr>,
    op: BinOp,
    value: &'a Expr,
) -> Plan<'a> {
    if let Some(t) = gty.pointee() {
        if indices.len() == 1 {
            if let Some(k) = cx.env.const_of(indices[0]) {
                if is_plain_int(t) {
                    let place = at_disp(Reg::Bx, disp(scaled(k, (t.size() as u16))));
                    match plan_behind_int_direct(cx, array, place, op, value) {
                        Plan::Skip => {
                            match plan_behind_int_shift_const(cx, array, place, t, op, value) {
                                Plan::Skip => {
                                    match plan_behind_int_shift(cx, array, place, t, op, value) {
                                        Plan::Skip => {
                                            plan_behind_int_mul(cx, array, place, op, value)
                                        },
                                        taken => taken,
                                    }
                                },
                                taken => taken,
                            }
                        },
                        taken => taken,
                    }
                } else {
                    Plan::Skip
                }
            } else {
                Plan::Skip
            }
        } else {
            Plan::Skip
        }
    } else {
        Plan::Skip
    }
}

/// The right side of a byte operation: a constant or a byte in place.
#[verifier::allow_in_spec]
pub fn byte_rhs<'b>(env: &'b Env, e: &Expr) -> Option<Operand<'b>>
    returns
        (match env.const_of(e) {
            Some(v) => Some(imm(lo8(v))),
            None => match &env.facts(e).byte_operand {
                Some(text) => Some(given(text)),
                None => None,
            },
        }),
{
    match env.const_of(e) {
        Some(v) => Some(imm(lo8(v))),
        None => match &env.facts(e).byte_operand {
            Some(text) => Some(given(text)),
            None => None,
        },
    }
}

/// Whether an expression is a constant with a low byte of one.
#[verifier::allow_in_spec]
pub fn is_byte_one(env: &Env, e: &Expr) -> bool
    returns
        (match env.const_of(e) {
            Some(v) => lo8(v) == 1,
            None => false,
        }),
{
    match env.const_of(e) {
        Some(v) => lo8(v) == 1,
        None => false,
    }
}

/// A sum or difference of a character behind a file-scope pointer: the
/// pointer is loaded again for the store.
pub open spec fn plan_behind_char_sum<'a>(
    cx: Cx<'a>,
    array: &'a String,
    place: Addr<'a>,
    op: BinOp,
    value: &'a Expr,
) -> Plan<'a> {
    if is_additive(op) {
        if let Some(rhs) = byte_rhs(cx.env, value) {
            if is_byte_one(cx.env, value) {
                Plan::Emit(seq![
                    mov(bx(), word(global(array))),
                    op1(step_by_one(op), byte(place)),
                ])
            } else {
                Plan::Emit(seq![
                    mov(bx(), word(global(array))),
                    mov(al(), byte(place)),
                    op2(direct(op), al(), rhs),
                    mov(bx(), word(global(array))),
                    mov(byte(place), al()),
                ])
            }
        } else {
            Plan::Skip
        }
    } else {
        Plan::Skip
    }
}

/// A bitwise operator on a character behind a file-scope pointer.
pub open spec fn plan_behind_char_bits<'a>(
    cx: Cx<'a>,
    array: &'a String,
    place: Addr<'a>,
    op: BinOp,
    value: &'a Expr,
) -> Plan<'a> {
    if is_bitwise(op) && cx.env.const_of(value).is_none() {
        if let Some(rhs) = &cx.env.facts(value).byte_operand {
            Plan::Emit(seq![
                mov(bx(), word(global(array))),
                mov(al(), given(rhs)),
                op2(direct(op), byte(place), al()),
            ])
        } else {
            Plan::Skip
        }
    } else {
        Plan::Skip
    }
}

/// A character behind a file-scope pointer.
pub open spec fn plan_each_pointer_char<'a>(
    cx: Cx<'a>,
    array: &'a String,
    gty: &'a Type,
    indices: Seq<&'a Expr>,
    op: BinOp,
    value: &'a Expr,
) -> Plan<'a> {
    if let Some(t) = gty.pointee() {
        if indices.len() == 1 {
            if let Some(k) = cx.env.const_of(indices[0]) {
                if t.is_char_like() {
                    let place = at_disp(Reg::Bx, disp(scaled(k, (t.size() as u16))));
                    match plan_behind_char_sum(cx, array, place, op, value) {
                        Plan::Skip => {
                            plan_behind_char_bits(cx, array, place, op, value)
                        },
                        taken => taken,
                    }
                } else {
                    Plan::Skip
                }
            } else {
                Plan::Skip
            }
        } else {
            Plan::Skip
        }
    } else {
        Plan::Skip
    }
}

/// An integer behind a local pointer, with the right side in `ax`. A pointer
/// on the stack is loaded first.
pub open spec fn plan_each_local_pointer<'a>(
    cx: Cx<'a>,
    array: &'a String,
    indices: Seq<&'a Expr>,
    op: BinOp,
    value: &'a Expr,
) -> Plan<'a> {
    if let Some(l) = cx.env.local(array) {
        if let Some(t) = l.ty.pointee() {
            if indices.len() == 1 {
                if let Some(k) = cx.env.const_of(indices[0]) {
                    if is_plain_int(t) && is_direct(op) && cx.env.const_of(value).is_none() {
                        match l.loc {
                            LocalLocation::Reg(reg) => {
                                Plan::Emit(seq![
                                    to_ax(cx, value),
                                    op2( direct(op), word(at_disp(reg, disp(scaled(k, (t.size() as u16))))), ax()),
                                ])
                            },
                            LocalLocation::Stack(off) => {
                                Plan::Emit(seq![
                                    mov(bx(), word(bp(off))),
                                    to_ax(cx, value),
                                    op2( direct(op), word(at_disp(Reg::Bx, disp(scaled(k, (t.size() as u16))))), ax()),
                                ])
                            },
                        }
                    } else {
                        Plan::Skip
                    }
                } else {
                    Plan::Skip
                }
            } else {
                Plan::Skip
            }
        } else {
            Plan::Skip
        }
    } else {
        Plan::Skip
    }
}

/// A word of a file-scope array with a variable subscript.
pub open spec fn plan_each_global_word<'a>(
    cx: Cx<'a>,
    array: &'a String,
    gty: &'a Type,
    indices: Seq<&'a Expr>,
    op: BinOp,
    value: &'a Expr,
) -> Plan<'a> {
    if let Some(t) = gty.array_elem() {
        if t.is_int_like() && indices.len() == 1 && is_direct(op) {
            match cx.env.const_of(value) {
                Some(v) => {
                    crate::codegen::array_addr::plan_emit_index_into_bx(cx, indices[0], t).followed_by(
                        if lo16(v) == 1 && is_additive(op) {
                            Plan::Emit(seq![op1(step_by_one(op), word(elem(array, Reg::Bx)))])
                        } else {
                            Plan::Emit(seq![op2(direct(op), word(elem(array, Reg::Bx)), imm(lo16(v)))])
                        },
                    )
                },
                None => {
                    Plan::Emit(seq![to_ax(cx, value)]).followed_by(
                        crate::codegen::array_addr::plan_emit_index_into_bx(cx, indices[0], t),
                    ).followed_by(
                        Plan::Emit(seq![op2(direct(op), word(elem(array, Reg::Bx)), ax())]),
                    )
                },
            }
        } else {
            Plan::Skip
        }
    } else {
        Plan::Skip
    }
}

/// A character of a file-scope array with a variable subscript and a right
/// side in place.
pub open spec fn plan_each_global_char<'a>(
    cx: Cx<'a>,
    array: &'a String,
    gty: &'a Type,
    indices: Seq<&'a Expr>,
    op: BinOp,
    value: &'a Expr,
) -> Plan<'a> {
    if let Some(t) = gty.array_elem() {
        if t.is_char_like() && indices.len() == 1 && is_direct(op) {
            if cx.env.const_of(value).is_none() {
                if let Some(rhs) = &cx.env.facts(value).byte_operand {
                    Plan::Emit(seq![mov(al(), given(rhs))]).followed_by(
                        match int_index_reg(cx.env, indices[0]) {
                            Some(reg) => {
                                Plan::Emit(seq![op2(direct(op), byte(elem(array, reg)), al())])
                            },
                            None => {
                                crate::codegen::array_addr::plan_emit_index_into_bx(cx, indices[0], t).followed_by(
                                    Plan::Emit(seq![op2(direct(op), byte(elem(array, Reg::Bx)), al())]),
                                )
                            },
                        },
                    )
                } else {
                    Plan::Skip
                }
            } else {
                Plan::Skip
            }
        } else {
            Plan::Skip
        }
    } else {
        Plan::Skip
    }
}

/// A right side that is no constant, applied to a word on the stack.
pub open spec fn plan_frame_word_direct<'a>(
    cx: Cx<'a>,
    dest: Addr<'a>,
    leaf: &'a Type,
    op: BinOp,
    value: &'a Expr,
) -> Plan<'a> {
    if cx.env.const_of(value).is_none() && !leaf.is_char_like() && is_direct(op) {
        Plan::Emit(seq![
            to_ax(cx, value),
            op2(direct(op), word(dest), ax()),
        ])
    } else {
        Plan::Skip
    }
}

/// A character in memory applied to a character on the stack.
pub open spec fn plan_frame_char_direct<'a>(
    cx: Cx<'a>,
    dest: Addr<'a>,
    leaf: &'a Type,
    op: BinOp,
    value: &'a Expr,
) -> Plan<'a> {
    if cx.env.const_of(value).is_none() && leaf.is_char_like() && is_direct(op) {
        if let Some(addr) = char_chain(cx.env, value) {
            Plan::Emit(seq![
                mov(al(), byte(addr)),
                op2(direct(op), byte(dest), al()),
            ])
        } else {
            Plan::Skip
        }
    } else {
        Plan::Skip
    }
}

/// A product with a constant, made in `ax`.
pub open spec fn plan_frame_mul<'a>(
    cx: Cx<'a>,
    dest: Addr<'a>,
    leaf: &'a Type,
    op: BinOp,
    v: u32,
) -> Plan<'a> {
    if op == BinOp::Mul {
        if leaf.is_char_like() {
            Plan::Emit(seq![
                mov(al(), byte(dest)),
                cbw(),
                mov(dx(), imm(lo8(v))),
                imul(dx()),
                mov(byte(dest), al()),
            ])
        } else {
            Plan::Emit(seq![
                mov(dx(), imm(lo16(v))),
                mov(ax(), word(dest)),
                imul(dx()),
                mov(word(dest), ax()),
            ])
        }
    } else {
        Plan::Skip
    }
}

/// A constant applied to an element on the stack.
pub open spec fn plan_frame_const<'a>(
    cx: Cx<'a>,
    dest: Addr<'a>,
    leaf: &'a Type,
    op: BinOp,
    v: u32,
    from_postfix: bool,
) -> Plan<'a> {
    match plan_frame_mul(cx, dest, leaf, op, v) {
        Plan::Skip => {
            if !leaf.is_char_like() && lo16(v) == 1 && is_additive(op) {
                Plan::Emit(seq![op1(step_by_one(op), word(dest))])
            } else {
                plan_place_const(cx, dest, leaf, op, v, from_postfix)
            }
        },
        taken => taken,
    }
}

/// A 32-bit element at a constant place in an array on the stack.
pub open spec fn plan_frame_long<'a>(
    cx: Cx<'a>,
    base: i16,
    off: i32,
    leaf: &'a Type,
    op: BinOp,
    value: &'a Expr,
) -> Plan<'a> {
    if leaf.is_long_like() {
        Plan::Emit(seq![
            Step::LongCompound( bp_plus(base, sat16(off)), bp_plus2(base, sat16(off)), op, value, leaf.is_unsigned()),
        ])
    } else {
        Plan::Skip
    }
}

/// An element at a constant place in an array on the stack.
pub open spec fn plan_compound_frame_elem<'a>(
    cx: Cx<'a>,
    array: &'a String,
    indices: Seq<&'a Expr>,
    op: BinOp,
    value: &'a Expr,
    from_postfix: bool,
) -> Plan<'a> {
    if let Some(l) = cx.env.local(array) {
        if let LocalLocation::Stack(base) = l.loc {
            if let Some((off, leaf)) = cx.env.spec_const_array_offset(&l.ty, indices) {
                let dest = bp_plus(base, sat16(off));
                match plan_frame_long(cx, base, off, leaf, op, value) {
                    Plan::Skip => {
                        match plan_frame_word_direct(cx, dest, leaf, op, value) {
                            Plan::Skip => {
                                match plan_frame_char_direct(cx, dest, leaf, op, value) {
                                    Plan::Skip => {
                                        if let Some(v) = cx.env.const_of(value) {
                                            plan_frame_const(cx, dest, leaf, op, v, from_postfix)
                                        } else {
                                            Plan::Stuck
                                        }
                                    },
                                    taken => taken,
                                }
                            },
                            taken => taken,
                        }
                    },
                    taken => taken,
                }
            } else {
                Plan::Stuck
            }
        } else {
            Plan::Stuck
        }
    } else {
        Plan::Stuck
    }
}

/// Elements of a file-scope array or behind a file-scope pointer.
pub open spec fn plan_each_global<'a>(
    cx: Cx<'a>,
    array: &'a String,
    indices: Seq<&'a Expr>,
    op: BinOp,
    value: &'a Expr,
    from_postfix: bool,
) -> Plan<'a> {
    if let Some(gty) = cx.env.global_type(array) {
        match plan_each_long_const(cx, array, gty, indices, op, value) {
            Plan::Skip => {
                match plan_each_long_pointer(cx, array, gty, indices, op, value) {
                    Plan::Skip => {
                        match plan_each_step(cx, array, gty, indices, op, value, from_postfix) {
                            Plan::Skip => {
                                match plan_each_char_const(cx, array, gty, indices, op, value) {
                                    Plan::Skip => {
                                        match plan_each_global_const(cx, array, gty, indices, op, value, from_postfix) {
                                            Plan::Skip => {
                                                match plan_each_pointer_int(cx, array, gty, indices, op, value) {
                                                    Plan::Skip => {
                                                        plan_each_pointer_char(cx, array, gty, indices, op, value)
                                                    },
                                                    taken => taken,
                                                }
                                            },
                                            taken => taken,
                                        }
                                    },
                                    taken => taken,
                                }
                            },
                            taken => taken,
                        }
                    },
                    taken => taken,
                }
            },
            taken => taken,
        }
    } else {
        Plan::Skip
    }
}

/// Elements of a file-scope array with a variable subscript.
pub open spec fn plan_each_global_variable<'a>(
    cx: Cx<'a>,
    array: &'a String,
    indices: Seq<&'a Expr>,
    op: BinOp,
    value: &'a Expr,
) -> Plan<'a> {
    if let Some(gty) = cx.env.global_type(array) {
        match plan_each_global_word(cx, array, gty, indices, op, value) {
            Plan::Skip => {
                plan_each_global_char(cx, array, gty, indices, op, value)
            },
            taken => taken,
        }
    } else {
        Plan::Skip
    }
}

/// `array[i]... op= value`.
pub open spec fn plan_compound_elem<'a>(
    cx: Cx<'a>,
    array: &'a String,
    indices: Seq<&'a Expr>,
    op: BinOp,
    value: &'a Expr,
    from_postfix: bool,
) -> Plan<'a> {
    match plan_each_global(cx, array, indices, op, value, from_postfix) {
        Plan::Skip => {
            match plan_each_local_pointer(cx, array, indices, op, value) {
                Plan::Skip => {
                    match plan_each_global_variable(cx, array, indices, op, value) {
                        Plan::Skip => {
                            plan_compound_frame_elem(cx, array, indices, op, value, from_postfix)
                        },
                        taken => taken,
                    }
                },
                taken => taken,
            }
        },
        taken => taken,
    }
}

/// `array[i]... op= value`, with the subscripts as they stand in the syntax
/// tree.
pub open spec fn plan_emit_array_compound_assign<'a>(
    cx: Cx<'a>,
    array: &'a String,
    indices: &'a Vec<Expr>,
    op: BinOp,
    value: &'a Expr,
    from_postfix: bool,
) -> Plan<'a> {
    plan_compound_elem(
        cx,
        array,
        crate::codegen::array_assign::each(indices),
        op,
        value,
        from_postfix,
    )
}

impl<'a> FunctionEmitter<'a> {
    /// Emits what [`plan_each_long_const`] says, if it applies.
    pub fn try_each_long_const(
        &mut self,
        array: &'a String,
        gty: &'a Type,
        indices: &Vec<&'a Expr>,
        op: BinOp,
        value: &'a Expr,
    ) -> (done: bool)
        requires
            old(self).cx.env.wf(),
            gty.fits(),
            !(plan_each_long_const(old(self).cx, array, gty, indices@, op, value) is Stuck),
        ensures
            final(self).ran(
                *old(self),
                plan_each_long_const(old(self).cx, array, gty, indices@, op, value),
                done,
            ),
    {
        let cx: Cx<'a> = self.cx;
        let Some((off, leaf)) = cx.env.const_array_offset(gty, indices) else { return false; };
        if !leaf.is_long_like() {
            return false;
        }
        self.put(Step::LongCompound( global_at(array, disp(off)), global_at(array, disp2(off)), op, value, leaf.is_unsigned()));
        true
    }

    /// A 32-bit element behind a file-scope pointer, shifted by one: the pointer
    /// is loaded again for the store.
    pub fn shift_through_global(
        &mut self,
        array: &'a String,
        hi: Addr<'a>,
        lo: Addr<'a>,
        op: BinOp,
        unsigned: bool,
    )
        requires
            old(self).cx.env.wf(),
            plan_shift_through_global(old(self).cx, array, hi, lo, op, unsigned) is Emit,
        ensures
            final(self).wrote(
                *old(self),
                plan_shift_through_global(old(self).cx, array, hi, lo, op, unsigned),
            ),
    {
        self.load_halves(hi, lo);
        if op == BinOp::Shl {
            self.double_halves();
        } else {
            self.halve_halves(unsigned);
        }
        self.put(mov(bx(), word(global(array))));
        self.store_halves(hi, lo);
    }

    /// Emits what [`plan_each_long_pointer`] says, if it applies.
    pub fn try_each_long_pointer(
        &mut self,
        array: &'a String,
        gty: &'a Type,
        indices: &Vec<&'a Expr>,
        op: BinOp,
        value: &'a Expr,
    ) -> (done: bool)
        requires
            old(self).cx.env.wf(),
            gty.fits(),
            !(plan_each_long_pointer(old(self).cx, array, gty, indices@, op, value) is Stuck),
        ensures
            final(self).ran(
                *old(self),
                plan_each_long_pointer(old(self).cx, array, gty, indices@, op, value),
                done,
            ),
    {
        let cx: Cx<'a> = self.cx;
        let Some(t) = gty.pointee() else { return false; };
        if !(t.is_long_like() && indices.len() == 1) {
            return false;
        }
        let Some(k) = cx.env.const_of(indices[0]) else { return false; };
        let lo: Addr<'a> = at_disp(Reg::Bx, disp(scaled(k, t.size_bytes())));
        let hi: Addr<'a> = at_disp(Reg::Bx, disp2(scaled(k, t.size_bytes())));
        self.put(mov(bx(), word(global(array))));
        if is_shift(op) && is_one(cx.env, value) {
            self.shift_through_global(array, hi, lo, op, t.is_unsigned());
            return true;
        } else {
            self.put(Step::LongCompound(lo, hi, op, value, t.is_unsigned()));
            return true;
        }
    }

    /// Emits what [`plan_each_step`] says, if it applies.
    pub fn try_each_step(
        &mut self,
        array: &'a String,
        gty: &'a Type,
        indices: &Vec<&'a Expr>,
        op: BinOp,
        value: &'a Expr,
        from_postfix: bool,
    ) -> (done: bool)
        requires
            old(self).cx.env.wf(),
            gty.fits(),
            !(plan_each_step(
                old(self).cx,
                array,
                gty,
                indices@,
                op,
                value,
                from_postfix,
            ) is Stuck),
        ensures
            final(self).ran(
                *old(self),
                plan_each_step(old(self).cx, array, gty, indices@, op, value, from_postfix),
                done,
            ),
    {
        let cx: Cx<'a> = self.cx;
        let Some(t) = gty.array_elem() else { return false; };
        if !(t.is_int_like() || t.is_char_like()) {
            return false;
        }
        if !(indices.len() == 1) {
            return false;
        }
        if !(cx.env.const_of(indices[0]).is_none()) {
            return false;
        }
        if !(from_postfix && is_additive(op) && is_one(cx.env, value)) {
            return false;
        }
        if t.is_char_like() && int_index_reg(cx.env, indices[0]).is_some() {
            let Some(reg) = int_index_reg(cx.env, indices[0]) else { return false; };
            self.put(op1(step_by_one(op), byte(elem(array, reg))));
            return true;
        } else {
            self.emit_index_into_bx(indices[0], t);
            self.put(op1(step_by_one(op), sized(t.is_char_like(), elem(array, Reg::Bx))));
            return true;
        }
    }

    /// Emits what [`plan_each_char_const`] says, if it applies.
    pub fn try_each_char_const(
        &mut self,
        array: &'a String,
        gty: &'a Type,
        indices: &Vec<&'a Expr>,
        op: BinOp,
        value: &'a Expr,
    ) -> (done: bool)
        requires
            old(self).cx.env.wf(),
            gty.fits(),
            !(plan_each_char_const(old(self).cx, array, gty, indices@, op, value) is Stuck),
        ensures
            final(self).ran(
                *old(self),
                plan_each_char_const(old(self).cx, array, gty, indices@, op, value),
                done,
            ),
    {
        let cx: Cx<'a> = self.cx;
        let Some(t) = gty.array_elem() else { return false; };
        if !t.is_char_like() {
            return false;
        }
        if !(indices.len() == 1) {
            return false;
        }
        if !(cx.env.const_of(indices[0]).is_none()) {
            return false;
        }
        if !is_direct(op) {
            return false;
        }
        let Some(v) = cx.env.const_of(value) else { return false; };
        match int_index_reg(cx.env, indices[0]) {
            Some(reg) => {
                self.put(mov(al(), byte(elem(array, reg))));
                if lo8(v) == 1 && is_additive(op) {
                    self.put(op1(step_by_one(op), al()));
                } else {
                    self.put(op2(direct(op), al(), imm(lo8(v))));
                }
                self.put(mov(byte(elem(array, reg)), al()));
                return true;
            },
            None => {
                self.emit_index_into_bx(indices[0], t);
                self.put(mov(al(), byte(elem(array, Reg::Bx))));
                self.put(op2(direct(op), al(), imm(lo8(v))));
                self.put(mov(byte(elem(array, Reg::Bx)), al()));
                return true;
            },
        }
    }

    /// Emits what [`plan_place_int_direct`] says, if it applies.
    pub fn try_place_int_direct(
        &mut self,
        dest: Addr<'a>,
        leaf: &'a Type,
        op: BinOp,
        value: &'a Expr,
    ) -> (done: bool)
        requires
            old(self).cx.env.wf(),
            !(plan_place_int_direct(old(self).cx, dest, leaf, op, value) is Stuck),
        ensures
            final(self).ran(
                *old(self),
                plan_place_int_direct(old(self).cx, dest, leaf, op, value),
                done,
            ),
    {
        let cx: Cx<'a> = self.cx;
        if !(is_plain_int(leaf) && is_direct(op) && cx.env.const_of(value).is_none()) {
            return false;
        }
        self.put(to_ax(cx, value));
        self.put(op2(direct(op), word(dest), ax()));
        true
    }

    /// Emits what [`plan_place_int_mul`] says, if it applies.
    pub fn try_place_int_mul(
        &mut self,
        dest: Addr<'a>,
        leaf: &'a Type,
        op: BinOp,
        value: &'a Expr,
    ) -> (done: bool)
        requires
            old(self).cx.env.wf(),
            !(plan_place_int_mul(old(self).cx, dest, leaf, op, value) is Stuck),
        ensures
            final(self).ran(
                *old(self),
                plan_place_int_mul(old(self).cx, dest, leaf, op, value),
                done,
            ),
    {
        let cx: Cx<'a> = self.cx;
        if !(is_plain_int(leaf) && is_multiplicative(op) && cx.env.const_of(value).is_none()) {
            return false;
        }
        let ExprKind::Ident(b) = &value.kind else { return false; };
        if !(!cx.env.is_global(b)) {
            return false;
        }
        let Some(off) = cx.env.stack_of(b) else { return false; };
        self.put(mov(ax(), word(dest)));
        self.multiply_or_divide(op, word(bp(off)));
        self.put(mov(word(dest), quotient(op)));
        true
    }

    /// Emits what [`plan_place_int_shift`] says, if it applies.
    pub fn try_place_int_shift(
        &mut self,
        dest: Addr<'a>,
        leaf: &'a Type,
        op: BinOp,
        value: &'a Expr,
    ) -> (done: bool)
        requires
            old(self).cx.env.wf(),
            !(plan_place_int_shift(old(self).cx, dest, leaf, op, value) is Stuck),
        ensures
            final(self).ran(
                *old(self),
                plan_place_int_shift(old(self).cx, dest, leaf, op, value),
                done,
            ),
    {
        let cx: Cx<'a> = self.cx;
        if !(is_plain_int(leaf) && is_shift(op) && cx.env.const_of(value).is_none()) {
            return false;
        }
        let Some(count) = &cx.env.facts(value).byte_operand else { return false; };
        self.put(mov(cl(), given(count)));
        self.put(op2(shift(op, leaf.is_unsigned()), word(dest), cl()));
        true
    }

    /// Emits what [`plan_place_char_sum`] says, if it applies.
    pub fn try_place_char_sum(
        &mut self,
        dest: Addr<'a>,
        leaf: &'a Type,
        op: BinOp,
        value: &'a Expr,
    ) -> (done: bool)
        requires
            old(self).cx.env.wf(),
            !(plan_place_char_sum(old(self).cx, dest, leaf, op, value) is Stuck),
        ensures
            final(self).ran(
                *old(self),
                plan_place_char_sum(old(self).cx, dest, leaf, op, value),
                done,
            ),
    {
        let cx: Cx<'a> = self.cx;
        if !(leaf.is_char_like() && is_additive(op) && cx.env.const_of(value).is_none()) {
            return false;
        }
        let Some(rhs) = &cx.env.facts(value).byte_operand else { return false; };
        self.put(mov(al(), byte(dest)));
        self.put(op2(direct(op), al(), given(rhs)));
        self.put(mov(byte(dest), al()));
        true
    }

    /// Emits what [`plan_place_char_bits`] says, if it applies.
    pub fn try_place_char_bits(
        &mut self,
        dest: Addr<'a>,
        leaf: &'a Type,
        op: BinOp,
        value: &'a Expr,
    ) -> (done: bool)
        requires
            old(self).cx.env.wf(),
            !(plan_place_char_bits(old(self).cx, dest, leaf, op, value) is Stuck),
        ensures
            final(self).ran(
                *old(self),
                plan_place_char_bits(old(self).cx, dest, leaf, op, value),
                done,
            ),
    {
        let cx: Cx<'a> = self.cx;
        if !(leaf.is_char_like() && is_bitwise(op) && cx.env.const_of(value).is_none()) {
            return false;
        }
        let Some(rhs) = &cx.env.facts(value).byte_operand else { return false; };
        self.put(mov(al(), given(rhs)));
        self.put(op2(direct(op), byte(dest), al()));
        true
    }

    /// A constant applied to a byte or a word in memory.
    pub fn place_const(
        &mut self,
        dest: Addr<'a>,
        leaf: &'a Type,
        op: BinOp,
        v: u32,
        from_postfix: bool,
    )
        requires
            old(self).cx.env.wf(),
            plan_place_const(old(self).cx, dest, leaf, op, v, from_postfix) is Emit,
        ensures
            final(self).wrote(
                *old(self),
                plan_place_const(old(self).cx, dest, leaf, op, v, from_postfix),
            ),
    {
        if leaf.is_char_like() && from_postfix && lo8(v) == 1 && is_additive(op) {
            self.put(op1(step_by_one(op), byte(dest)));
        } else if leaf.is_char_like() && is_additive(op) {
            self.byte_arith(op, dest, v);
        } else {
            if !is_direct(op) {
                return;
            }
            self.put(op2(direct(op), sized(leaf.is_char_like(), dest), imm(masked(v, leaf.is_char_like()))));
        }
    }

    /// Emits what [`plan_each_global_const`] says, if it applies.
    pub fn try_each_global_const(
        &mut self,
        array: &'a String,
        gty: &'a Type,
        indices: &Vec<&'a Expr>,
        op: BinOp,
        value: &'a Expr,
        from_postfix: bool,
    ) -> (done: bool)
        requires
            old(self).cx.env.wf(),
            gty.fits(),
            !(plan_each_global_const(
                old(self).cx,
                array,
                gty,
                indices@,
                op,
                value,
                from_postfix,
            ) is Stuck),
        ensures
            final(self).ran(
                *old(self),
                plan_each_global_const(
                    old(self).cx,
                    array,
                    gty,
                    indices@,
                    op,
                    value,
                    from_postfix,
                ),
                done,
            ),
    {
        let cx: Cx<'a> = self.cx;
        let Some((off, leaf)) = cx.env.const_array_offset(gty, indices) else { return false; };
        let dest: Addr<'a> = global_at(array, disp(off));
        if self.try_place_int_direct(dest, leaf, op, value) {
            return true;
        }
        if self.try_place_int_mul(dest, leaf, op, value) {
            return true;
        }
        if self.try_place_int_shift(dest, leaf, op, value) {
            return true;
        }
        if self.try_place_char_sum(dest, leaf, op, value) {
            return true;
        }
        if self.try_place_char_bits(dest, leaf, op, value) {
            return true;
        }
        let Some(v) = cx.env.const_of(value) else { return false; };
        self.place_const(dest, leaf, op, v, from_postfix);
        true
    }

    /// Emits what [`plan_behind_int_direct`] says, if it applies.
    pub fn try_behind_int_direct(
        &mut self,
        array: &'a String,
        place: Addr<'a>,
        op: BinOp,
        value: &'a Expr,
    ) -> (done: bool)
        requires
            old(self).cx.env.wf(),
            !(plan_behind_int_direct(old(self).cx, array, place, op, value) is Stuck),
        ensures
            final(self).ran(
                *old(self),
                plan_behind_int_direct(old(self).cx, array, place, op, value),
                done,
            ),
    {
        let cx: Cx<'a> = self.cx;
        if !is_direct(op) {
            return false;
        }
        self.put(mov(bx(), word(global(array))));
        match cx.env.const_of(value) {
            Some(v) => {
                if lo16(v) == 1 && is_additive(op) {
                    self.put(op1(step_by_one(op), word(place)));
                    return true;
                } else {
                    self.put(op2(direct(op), word(place), imm(lo16(v))));
                    return true;
                }
            },
            None => {
                self.put(to_ax(cx, value));
                self.put(op2(direct(op), word(place), ax()));
                return true;
            },
        }
    }

    /// Emits what [`plan_behind_int_shift_const`] says, if it applies.
    pub fn try_behind_int_shift_const(
        &mut self,
        array: &'a String,
        place: Addr<'a>,
        t: &'a Type,
        op: BinOp,
        value: &'a Expr,
    ) -> (done: bool)
        requires
            old(self).cx.env.wf(),
            !(plan_behind_int_shift_const(old(self).cx, array, place, t, op, value) is Stuck),
        ensures
            final(self).ran(
                *old(self),
                plan_behind_int_shift_const(old(self).cx, array, place, t, op, value),
                done,
            ),
    {
        let cx: Cx<'a> = self.cx;
        if !is_shift(op) {
            return false;
        }
        let Some(n) = cx.env.const_of(value) else { return false; };
        if !(1 <= n && n <= 8) {
            return false;
        }
        self.put(mov(bx(), word(global(array))));
        self.put_times(op2(shift(op, t.is_unsigned()), word(place), imm(1)), n as u64);
        true
    }

    /// Emits what [`plan_behind_int_shift`] says, if it applies.
    pub fn try_behind_int_shift(
        &mut self,
        array: &'a String,
        place: Addr<'a>,
        t: &'a Type,
        op: BinOp,
        value: &'a Expr,
    ) -> (done: bool)
        requires
            old(self).cx.env.wf(),
            !(plan_behind_int_shift(old(self).cx, array, place, t, op, value) is Stuck),
        ensures
            final(self).ran(
                *old(self),
                plan_behind_int_shift(old(self).cx, array, place, t, op, value),
                done,
            ),
    {
        let cx: Cx<'a> = self.cx;
        if !(is_shift(op) && cx.env.const_of(value).is_none()) {
            return false;
        }
        let Some(count) = &cx.env.facts(value).byte_operand else { return false; };
        self.put(mov(bx(), word(global(array))));
        self.put(mov(cl(), given(count)));
        self.put(op2(shift(op, t.is_unsigned()), word(place), cl()));
        true
    }

    /// Emits what [`plan_behind_int_mul`] says, if it applies.
    pub fn try_behind_int_mul(
        &mut self,
        array: &'a String,
        place: Addr<'a>,
        op: BinOp,
        value: &'a Expr,
    ) -> (done: bool)
        requires
            old(self).cx.env.wf(),
            !(plan_behind_int_mul(old(self).cx, array, place, op, value) is Stuck),
        ensures
            final(self).ran(
                *old(self),
                plan_behind_int_mul(old(self).cx, array, place, op, value),
                done,
            ),
    {
        let cx: Cx<'a> = self.cx;
        if !is_multiplicative(op) {
            return false;
        }
        let ExprKind::Ident(b) = &value.kind else { return false; };
        if !(!cx.env.is_global(b)) {
            return false;
        }
        let Some(off) = cx.env.stack_of(b) else { return false; };
        self.put(mov(bx(), word(global(array))));
        self.put(mov(ax(), word(place)));
        self.multiply_or_divide(op, word(bp(off)));
        if op != BinOp::Mul {
            self.put(mov(bx(), word(global(array))));
        }
        self.put(mov(word(place), quotient(op)));
        true
    }

    /// Emits what [`plan_each_pointer_int`] says, if it applies.
    pub fn try_each_pointer_int(
        &mut self,
        array: &'a String,
        gty: &'a Type,
        indices: &Vec<&'a Expr>,
        op: BinOp,
        value: &'a Expr,
    ) -> (done: bool)
        requires
            old(self).cx.env.wf(),
            gty.fits(),
            !(plan_each_pointer_int(old(self).cx, array, gty, indices@, op, value) is Stuck),
        ensures
            final(self).ran(
                *old(self),
                plan_each_pointer_int(old(self).cx, array, gty, indices@, op, value),
                done,
            ),
    {
        let cx: Cx<'a> = self.cx;
        let Some(t) = gty.pointee() else { return false; };
        if !(indices.len() == 1) {
            return false;
        }
        let Some(k) = cx.env.const_of(indices[0]) else { return false; };
        if !is_plain_int(t) {
            return false;
        }
        let place: Addr<'a> = at_disp(Reg::Bx, disp(scaled(k, t.size_bytes())));
        if self.try_behind_int_direct(array, place, op, value) {
            return true;
        }
        if self.try_behind_int_shift_const(array, place, t, op, value) {
            return true;
        }
        if self.try_behind_int_shift(array, place, t, op, value) {
            return true;
        }
        if self.try_behind_int_mul(array, place, op, value) {
            return true;
        }
        false
    }

    /// Emits what [`plan_behind_char_sum`] says, if it applies.
    pub fn try_behind_char_sum(
        &mut self,
        array: &'a String,
        place: Addr<'a>,
        op: BinOp,
        value: &'a Expr,
    ) -> (done: bool)
        requires
            old(self).cx.env.wf(),
            !(plan_behind_char_sum(old(self).cx, array, place, op, value) is Stuck),
        ensures
            final(self).ran(
                *old(self),
                plan_behind_char_sum(old(self).cx, array, place, op, value),
                done,
            ),
    {
        let cx: Cx<'a> = self.cx;
        if !is_additive(op) {
            return false;
        }
        let Some(rhs) = byte_rhs(cx.env, value) else { return false; };
        if is_byte_one(cx.env, value) {
            self.put(mov(bx(), word(global(array))));
            self.put(op1(step_by_one(op), byte(place)));
            return true;
        } else {
            self.put(mov(bx(), word(global(array))));
            self.put(mov(al(), byte(place)));
            self.put(op2(direct(op), al(), rhs));
            self.put(mov(bx(), word(global(array))));
            self.put(mov(byte(place), al()));
            return true;
        }
    }

    /// Emits what [`plan_behind_char_bits`] says, if it applies.
    pub fn try_behind_char_bits(
        &mut self,
        array: &'a String,
        place: Addr<'a>,
        op: BinOp,
        value: &'a Expr,
    ) -> (done: bool)
        requires
            old(self).cx.env.wf(),
            !(plan_behind_char_bits(old(self).cx, array, place, op, value) is Stuck),
        ensures
            final(self).ran(
                *old(self),
                plan_behind_char_bits(old(self).cx, array, place, op, value),
                done,
            ),
    {
        let cx: Cx<'a> = self.cx;
        if !(is_bitwise(op) && cx.env.const_of(value).is_none()) {
            return false;
        }
        let Some(rhs) = &cx.env.facts(value).byte_operand else { return false; };
        self.put(mov(bx(), word(global(array))));
        self.put(mov(al(), given(rhs)));
        self.put(op2(direct(op), byte(place), al()));
        true
    }

    /// Emits what [`plan_each_pointer_char`] says, if it applies.
    pub fn try_each_pointer_char(
        &mut self,
        array: &'a String,
        gty: &'a Type,
        indices: &Vec<&'a Expr>,
        op: BinOp,
        value: &'a Expr,
    ) -> (done: bool)
        requires
            old(self).cx.env.wf(),
            gty.fits(),
            !(plan_each_pointer_char(old(self).cx, array, gty, indices@, op, value) is Stuck),
        ensures
            final(self).ran(
                *old(self),
                plan_each_pointer_char(old(self).cx, array, gty, indices@, op, value),
                done,
            ),
    {
        let cx: Cx<'a> = self.cx;
        let Some(t) = gty.pointee() else { return false; };
        if !(indices.len() == 1) {
            return false;
        }
        let Some(k) = cx.env.const_of(indices[0]) else { return false; };
        if !t.is_char_like() {
            return false;
        }
        let place: Addr<'a> = at_disp(Reg::Bx, disp(scaled(k, t.size_bytes())));
        if self.try_behind_char_sum(array, place, op, value) {
            return true;
        }
        if self.try_behind_char_bits(array, place, op, value) {
            return true;
        }
        false
    }

    /// Emits what [`plan_each_local_pointer`] says, if it applies.
    pub fn try_each_local_pointer(
        &mut self,
        array: &'a String,
        indices: &Vec<&'a Expr>,
        op: BinOp,
        value: &'a Expr,
    ) -> (done: bool)
        requires
            old(self).cx.env.wf(),
            !(plan_each_local_pointer(old(self).cx, array, indices@, op, value) is Stuck),
        ensures
            final(self).ran(
                *old(self),
                plan_each_local_pointer(old(self).cx, array, indices@, op, value),
                done,
            ),
    {
        let cx: Cx<'a> = self.cx;
        let Some(l) = cx.env.local(array) else { return false; };
        let Some(t) = l.ty.pointee() else { return false; };
        if !(indices.len() == 1) {
            return false;
        }
        let Some(k) = cx.env.const_of(indices[0]) else { return false; };
        if !(is_plain_int(t) && is_direct(op) && cx.env.const_of(value).is_none()) {
            return false;
        }
        match l.loc {
            LocalLocation::Reg(reg) => {
                self.put(to_ax(cx, value));
                self.put(op2( direct(op), word(at_disp(reg, disp(scaled(k, t.size_bytes())))), ax()));
                return true;
            },
            LocalLocation::Stack(off) => {
                self.put(mov(bx(), word(bp(off))));
                self.put(to_ax(cx, value));
                self.put(op2( direct(op), word(at_disp(Reg::Bx, disp(scaled(k, t.size_bytes())))), ax()));
                return true;
            },
        }
    }

    /// Emits what [`plan_each_global_word`] says, if it applies.
    pub fn try_each_global_word(
        &mut self,
        array: &'a String,
        gty: &'a Type,
        indices: &Vec<&'a Expr>,
        op: BinOp,
        value: &'a Expr,
    ) -> (done: bool)
        requires
            old(self).cx.env.wf(),
            gty.fits(),
            !(plan_each_global_word(old(self).cx, array, gty, indices@, op, value) is Stuck),
        ensures
            final(self).ran(
                *old(self),
                plan_each_global_word(old(self).cx, array, gty, indices@, op, value),
                done,
            ),
    {
        let cx: Cx<'a> = self.cx;
        let Some(t) = gty.array_elem() else { return false; };
        if !(t.is_int_like() && indices.len() == 1 && is_direct(op)) {
            return false;
        }
        match cx.env.const_of(value) {
            Some(v) => {
                self.emit_index_into_bx(indices[0], t);
                if lo16(v) == 1 && is_additive(op) {
                    self.put(op1(step_by_one(op), word(elem(array, Reg::Bx))));
                    return true;
                } else {
                    self.put(op2(direct(op), word(elem(array, Reg::Bx)), imm(lo16(v))));
                    return true;
                }
            },
            None => {
                self.put(to_ax(cx, value));
                self.emit_index_into_bx(indices[0], t);
                self.put(op2(direct(op), word(elem(array, Reg::Bx)), ax()));
                return true;
            },
        }
    }

    /// Emits what [`plan_each_global_char`] says, if it applies.
    pub fn try_each_global_char(
        &mut self,
        array: &'a String,
        gty: &'a Type,
        indices: &Vec<&'a Expr>,
        op: BinOp,
        value: &'a Expr,
    ) -> (done: bool)
        requires
            old(self).cx.env.wf(),
            gty.fits(),
            !(plan_each_global_char(old(self).cx, array, gty, indices@, op, value) is Stuck),
        ensures
            final(self).ran(
                *old(self),
                plan_each_global_char(old(self).cx, array, gty, indices@, op, value),
                done,
            ),
    {
        let cx: Cx<'a> = self.cx;
        let Some(t) = gty.array_elem() else { return false; };
        if !(t.is_char_like() && indices.len() == 1 && is_direct(op)) {
            return false;
        }
        if !cx.env.const_of(value).is_none() {
            return false;
        }
        let Some(rhs) = &cx.env.facts(value).byte_operand else { return false; };
        self.put(mov(al(), given(rhs)));
        match int_index_reg(cx.env, indices[0]) {
            Some(reg) => {
                self.put(op2(direct(op), byte(elem(array, reg)), al()));
                return true;
            },
            None => {
                self.emit_index_into_bx(indices[0], t);
                self.put(op2(direct(op), byte(elem(array, Reg::Bx)), al()));
                return true;
            },
        }
    }

    /// Emits what [`plan_frame_word_direct`] says, if it applies.
    pub fn try_frame_word_direct(
        &mut self,
        dest: Addr<'a>,
        leaf: &'a Type,
        op: BinOp,
        value: &'a Expr,
    ) -> (done: bool)
        requires
            old(self).cx.env.wf(),
            !(plan_frame_word_direct(old(self).cx, dest, leaf, op, value) is Stuck),
        ensures
            final(self).ran(
                *old(self),
                plan_frame_word_direct(old(self).cx, dest, leaf, op, value),
                done,
            ),
    {
        let cx: Cx<'a> = self.cx;
        if !(cx.env.const_of(value).is_none() && !leaf.is_char_like() && is_direct(op)) {
            return false;
        }
        self.put(to_ax(cx, value));
        self.put(op2(direct(op), word(dest), ax()));
        true
    }

    /// Emits what [`plan_frame_char_direct`] says, if it applies.
    pub fn try_frame_char_direct(
        &mut self,
        dest: Addr<'a>,
        leaf: &'a Type,
        op: BinOp,
        value: &'a Expr,
    ) -> (done: bool)
        requires
            old(self).cx.env.wf(),
            !(plan_frame_char_direct(old(self).cx, dest, leaf, op, value) is Stuck),
        ensures
            final(self).ran(
                *old(self),
                plan_frame_char_direct(old(self).cx, dest, leaf, op, value),
                done,
            ),
    {
        let cx: Cx<'a> = self.cx;
        if !(cx.env.const_of(value).is_none() && leaf.is_char_like() && is_direct(op)) {
            return false;
        }
        let Some(addr) = char_chain(cx.env, value) else { return false; };
        self.put(mov(al(), byte(addr)));
        self.put(op2(direct(op), byte(dest), al()));
        true
    }

    /// Emits what [`plan_frame_mul`] says, if it applies.
    pub fn try_frame_mul(
        &mut self,
        dest: Addr<'a>,
        leaf: &'a Type,
        op: BinOp,
        v: u32,
    ) -> (done: bool)
        requires
            old(self).cx.env.wf(),
            !(plan_frame_mul(old(self).cx, dest, leaf, op, v) is Stuck),
        ensures
            final(self).ran(*old(self), plan_frame_mul(old(self).cx, dest, leaf, op, v), done),
    {
        if !(op == BinOp::Mul) {
            return false;
        }
        if leaf.is_char_like() {
            self.put(mov(al(), byte(dest)));
            self.put(cbw());
            self.put(mov(dx(), imm(lo8(v))));
            self.put(imul(dx()));
            self.put(mov(byte(dest), al()));
            return true;
        } else {
            self.put(mov(dx(), imm(lo16(v))));
            self.put(mov(ax(), word(dest)));
            self.put(imul(dx()));
            self.put(mov(word(dest), ax()));
            return true;
        }
    }

    /// A constant applied to an element on the stack.
    pub fn frame_const(
        &mut self,
        dest: Addr<'a>,
        leaf: &'a Type,
        op: BinOp,
        v: u32,
        from_postfix: bool,
    )
        requires
            old(self).cx.env.wf(),
            plan_frame_const(old(self).cx, dest, leaf, op, v, from_postfix) is Emit,
        ensures
            final(self).wrote(
                *old(self),
                plan_frame_const(old(self).cx, dest, leaf, op, v, from_postfix),
            ),
    {
        if self.try_frame_mul(dest, leaf, op, v) {
            return;
        }
        if !leaf.is_char_like() && lo16(v) == 1 && is_additive(op) {
            self.put(op1(step_by_one(op), word(dest)));
        } else {
            self.place_const(dest, leaf, op, v, from_postfix);
        }
    }

    /// Emits what [`plan_frame_long`] says, if it applies.
    pub fn try_frame_long(
        &mut self,
        base: i16,
        off: i32,
        leaf: &'a Type,
        op: BinOp,
        value: &'a Expr,
    ) -> (done: bool)
        requires
            old(self).cx.env.wf(),
            !(plan_frame_long(old(self).cx, base, off, leaf, op, value) is Stuck),
        ensures
            final(self).ran(
                *old(self),
                plan_frame_long(old(self).cx, base, off, leaf, op, value),
                done,
            ),
    {
        if !leaf.is_long_like() {
            return false;
        }
        self.put(Step::LongCompound( bp_plus(base, sat16(off)), bp_plus2(base, sat16(off)), op, value, leaf.is_unsigned()));
        true
    }

    /// An element at a constant place in an array on the stack.
    pub fn compound_frame_elem(
        &mut self,
        array: &'a String,
        indices: &Vec<&'a Expr>,
        op: BinOp,
        value: &'a Expr,
        from_postfix: bool,
    )
        requires
            old(self).cx.env.wf(),
            plan_compound_frame_elem(
                old(self).cx,
                array,
                indices@,
                op,
                value,
                from_postfix,
            ) is Emit,
        ensures
            final(self).wrote(
                *old(self),
                plan_compound_frame_elem(old(self).cx, array, indices@, op, value, from_postfix),
            ),
    {
        let cx: Cx<'a> = self.cx;
        let Some(l) = cx.env.local(array) else { return; };
        let LocalLocation::Stack(base) = l.loc else { return; };
        let Some((off, leaf)) = cx.env.const_array_offset(&l.ty, indices) else { return; };
        let dest: Addr<'a> = bp_plus(base, sat16(off));
        if self.try_frame_long(base, off, leaf, op, value) {
            return;
        }
        if self.try_frame_word_direct(dest, leaf, op, value) {
            return;
        }
        if self.try_frame_char_direct(dest, leaf, op, value) {
            return;
        }
        let Some(v) = cx.env.const_of(value) else { return; };
        self.frame_const(dest, leaf, op, v, from_postfix);
    }

    /// Emits what [`plan_each_global`] says, if it applies.
    pub fn try_each_global(
        &mut self,
        array: &'a String,
        indices: &Vec<&'a Expr>,
        op: BinOp,
        value: &'a Expr,
        from_postfix: bool,
    ) -> (done: bool)
        requires
            old(self).cx.env.wf(),
            !(plan_each_global(old(self).cx, array, indices@, op, value, from_postfix) is Stuck),
        ensures
            final(self).ran(
                *old(self),
                plan_each_global(old(self).cx, array, indices@, op, value, from_postfix),
                done,
            ),
    {
        let cx: Cx<'a> = self.cx;
        let Some(gty) = cx.env.global_type(array) else { return false; };
        if self.try_each_long_const(array, gty, indices, op, value) {
            return true;
        }
        if self.try_each_long_pointer(array, gty, indices, op, value) {
            return true;
        }
        if self.try_each_step(array, gty, indices, op, value, from_postfix) {
            return true;
        }
        if self.try_each_char_const(array, gty, indices, op, value) {
            return true;
        }
        if self.try_each_global_const(array, gty, indices, op, value, from_postfix) {
            return true;
        }
        if self.try_each_pointer_int(array, gty, indices, op, value) {
            return true;
        }
        if self.try_each_pointer_char(array, gty, indices, op, value) {
            return true;
        }
        false
    }

    /// Emits what [`plan_each_global_variable`] says, if it applies.
    pub fn try_each_global_variable(
        &mut self,
        array: &'a String,
        indices: &Vec<&'a Expr>,
        op: BinOp,
        value: &'a Expr,
    ) -> (done: bool)
        requires
            old(self).cx.env.wf(),
            !(plan_each_global_variable(old(self).cx, array, indices@, op, value) is Stuck),
        ensures
            final(self).ran(
                *old(self),
                plan_each_global_variable(old(self).cx, array, indices@, op, value),
                done,
            ),
    {
        let cx: Cx<'a> = self.cx;
        let Some(gty) = cx.env.global_type(array) else { return false; };
        if self.try_each_global_word(array, gty, indices, op, value) {
            return true;
        }
        if self.try_each_global_char(array, gty, indices, op, value) {
            return true;
        }
        false
    }

    /// `array[i]... op= value`.
    pub fn compound_elem(
        &mut self,
        array: &'a String,
        indices: &Vec<&'a Expr>,
        op: BinOp,
        value: &'a Expr,
        from_postfix: bool,
    )
        requires
            old(self).cx.env.wf(),
            plan_compound_elem(old(self).cx, array, indices@, op, value, from_postfix) is Emit,
        ensures
            final(self).wrote(
                *old(self),
                plan_compound_elem(old(self).cx, array, indices@, op, value, from_postfix),
            ),
    {
        if self.try_each_global(array, indices, op, value, from_postfix) {
            return;
        }
        if self.try_each_local_pointer(array, indices, op, value) {
            return;
        }
        if self.try_each_global_variable(array, indices, op, value) {
            return;
        }
        self.compound_frame_elem(array, indices, op, value, from_postfix);
    }
}

impl<'a> FunctionEmitter<'a> {
    /// Applies a compound assignment to an array element.
    pub fn emit_array_compound_assign(
        &mut self,
        array: &'a String,
        indices: &'a Vec<Expr>,
        op: BinOp,
        value: &'a Expr,
        from_postfix: bool,
    )
        requires
            old(self).cx.env.wf(),
            plan_emit_array_compound_assign(
                old(self).cx,
                array,
                indices,
                op,
                value,
                from_postfix,
            ) is Emit,
        ensures
            final(self).wrote(
                *old(self),
                plan_emit_array_compound_assign(
                    old(self).cx,
                    array,
                    indices,
                    op,
                    value,
                    from_postfix,
                ),
            ),
    {
        let list: Vec<&'a Expr> = each_of(indices);
        self.compound_elem(array, &list, op, value, from_postfix);
    }
}

} // verus!
