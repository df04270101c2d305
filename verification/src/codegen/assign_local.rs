//! Assignment to local variables.

use vstd::prelude::*;
use crate::ast::{
    BinOp, Expr, ExprKind, LogicalOp, MemberKind, Type, UnaryOp, UpdateOp, UpdatePosition,
};
use crate::codegen::common::label_after;
use crate::codegen::emitter::{
    add_to, call, clear, cwd, lea, mov, op1, op2, or_to, push, to_ax, widen, widen_long, Cx,
    FunctionEmitter, Plan, Step,
};
use crate::codegen::env::{is_plain_int, Env, LocalLocation};
use crate::isa::{
    al, at, at2, ax, bp, bp2, bp_plus, byte, cl, cx_, direct, direct_high, divider, dx, fits_i16,
    global, global2, global_at, imm, is_direct, is_division, is_shift, lo16, lo8, masked, named,
    offset_of, offset_of_code, plus, r, sat16, scaled, shifter, sized, update, uscaled, word,
    Addr, Disp, Helper, Mnemonic, Reg,
};

verus! {

/// The name of a function that an expression designates, with or without
/// `&`.
#[verifier::allow_in_spec]
pub fn designated<'b>(e: &'b Expr) -> Option<&'b String>
    returns
        (match &e.kind {
            ExprKind::Ident(n) => Some(n),
            ExprKind::AddressOf(n) => Some(n),
            _ => None,
        }),
{
    match &e.kind {
        ExprKind::Ident(n) => Some(n),
        ExprKind::AddressOf(n) => Some(n),
        _ => None,
    }
}

/// The address of a function.
pub open spec fn plan_local_function<'a>(cx: Cx<'a>, off: i16, value: &'a Expr) -> Plan<'a> {
    if let Some(f) = designated(value) {
        if !cx.env.has(f) && !cx.env.is_global(f) && cx.env.ret_ty_of(f).is_some() {
            Plan::Emit(seq![mov(word(bp(off)), offset_of_code(f))])
        } else {
            Plan::Skip
        }
    } else {
        Plan::Skip
    }
}

/// A far pointer to a file-scope variable, in the data segment.
pub open spec fn plan_local_far_global<'a>(
    cx: Cx<'a>,
    off: i16,
    ty: &'a Type,
    value: &'a Expr,
) -> Plan<'a> {
    if let Type::FarPointer { pointee: _, is_huge: _ } = ty {
        if let ExprKind::AddressOf(sym) = &value.kind {
            if cx.env.is_global(sym) {
                Plan::Emit(seq![
                    mov(word(bp2(off)), r(Reg::Ds)),
                    mov(word(bp(off)), offset_of(sym, Disp::Zero)),
                ])
            } else {
                Plan::Skip
            }
        } else {
            Plan::Skip
        }
    } else {
        Plan::Skip
    }
}

/// The local variable whose address an expression is, with the distance from
/// its start.
#[verifier::allow_in_spec]
pub fn frame_source<'b>(env: &Env, e: &'b Expr) -> Option<(&'b String, i32)>
    returns
        (match &e.kind {
            ExprKind::AddressOf(n) => Some((n, 0i32)),
            ExprKind::Ident(n) => if env.local_elem(n).is_some() { Some((n, 0i32)) } else { None },
            ExprKind::AddressOfArrayElem { array, byte_offset } => if env.has(array) {
                Some((array, *byte_offset))
            } else {
                None
            },
            _ => None,
        }),
{
    match &e.kind {
        ExprKind::AddressOf(n) => Some((n, 0i32)),
        ExprKind::Ident(n) => if env.local_elem(n).is_some() { Some((n, 0i32)) } else { None },
        ExprKind::AddressOfArrayElem { array, byte_offset } => if env.has(array) {
            Some((array, *byte_offset))
        } else {
            None
        },
        _ => None,
    }
}

/// A far pointer to a local variable, in the stack segment.
pub open spec fn plan_local_far_local<'a>(
    cx: Cx<'a>,
    off: i16,
    ty: &'a Type,
    value: &'a Expr,
) -> Plan<'a> {
    if let Type::FarPointer { pointee: _, is_huge: _ } = ty {
        if let ExprKind::Cast { ty: _, operand } = &value.kind {
            if let Some((name, distance)) = frame_source(cx.env, &**operand) {
                if let Some(from) = cx.env.stack_of(name) {
                    if fits_i16((from as i64 + distance as i64) as i64) {
                        Plan::Emit(seq![
                            lea(ax(), bp_plus(from, distance)),
                            mov(word(bp2(off)), r(Reg::Ss)),
                            mov(word(bp(off)), ax()),
                        ])
                    } else {
                        Plan::Stuck
                    }
                } else {
                    Plan::Skip
                }
            } else {
                Plan::Skip
            }
        } else {
            Plan::Skip
        }
    } else {
        Plan::Skip
    }
}

/// Whether a file-scope variable has a given type.
#[verifier::allow_in_spec]
pub fn is_global_of(env: &Env, name: &String, ty: &Type) -> bool
    returns
        (match env.global_type(name) {
            Some(t) => t.same_as(ty),
            None => false,
        }),
{
    match env.global_type(name) {
        Some(t) => t.same_as(ty),
        None => false,
    }
}

/// Whether a local variable has a given type.
#[verifier::allow_in_spec]
pub fn is_local_of(env: &Env, name: &String, ty: &Type) -> bool
    returns
        (match env.local_type(name) {
            Some(t) => t.same_as(ty),
            None => false,
        }),
{
    match env.local_type(name) {
        Some(t) => t.same_as(ty),
        None => false,
    }
}

/// A struct copied from a variable: four bytes in line, a larger one by the
/// run-time routine.
pub open spec fn plan_local_struct_copy<'a>(
    cx: Cx<'a>,
    off: i16,
    ty: &'a Type,
    value: &'a Expr,
) -> Plan<'a> {
    if let Type::Struct { name: _, fields: _, size: _ } = ty {
        if let ExprKind::Ident(src) = &value.kind {
            if is_global_of(cx.env, src, ty) || is_local_of(cx.env, src, ty) {
                if (ty.size() as u16) >= 4 {
                    if is_global_of(cx.env, src, ty) {
                        if (ty.size() as u16) == 4 {
                            crate::codegen::common::plan_copy_long(cx, bp2(off), bp(off), global2(src), global(src))
                        } else {
                            Plan::Emit(seq![
                                lea(ax(), bp(off)),
                                push(r(Reg::Ss)),
                                push(ax()),
                                mov(ax(), offset_of(src, Disp::Zero)),
                                push(r(Reg::Ds)),
                                push(ax()),
                                mov(cx_(), imm((ty.size() as u16) as i64)),
                                call(Helper::StructCopy),
                            ])
                        }
                    } else {
                        if let Some(from) = cx.env.stack_of(src) {
                            if (ty.size() as u16) == 4 {
                                crate::codegen::common::plan_copy_long(cx, bp2(off), bp(off), bp2(from), bp(from))
                            } else {
                                Plan::Emit(seq![
                                    lea(ax(), bp(off)),
                                    push(r(Reg::Ss)),
                                    push(ax()),
                                    lea(ax(), bp(from)),
                                    push(r(Reg::Ss)),
                                    push(ax()),
                                    mov(cx_(), imm((ty.size() as u16) as i64)),
                                    call(Helper::StructCopy),
                                ])
                            }
                        } else {
                            Plan::Stuck
                        }
                    }
                } else {
                    Plan::Skip
                }
            } else {
                Plan::Skip
            }
        } else {
            Plan::Skip
        }
    } else {
        Plan::Skip
    }
}

/// A four-byte struct that a call returns in `dx:ax`.
pub open spec fn plan_local_struct_call<'a>(
    cx: Cx<'a>,
    off: i16,
    ty: &'a Type,
    value: &'a Expr,
) -> Plan<'a> {
    if let Type::Struct { name: _, fields: _, size: _ } = ty {
        if (ty.size() as u16) == 4 {
            if let ExprKind::Call { name: f, args } = &value.kind {
                if let Some(ret) = cx.env.ret_ty_of(f) {
                    if let Type::Struct { name: _, fields: _, size: _ } = ret {
                        if (ret.size() as u16) == 4 {
                            Plan::Emit(seq![Step::CallFn(f, args)]).followed_by(
                                crate::codegen::common::plan_store_result(cx, bp2(off), bp(off)),
                            )
                        } else {
                            Plan::Skip
                        }
                    } else {
                        Plan::Skip
                    }
                } else {
                    Plan::Skip
                }
            } else {
                Plan::Skip
            }
        } else {
            Plan::Skip
        }
    } else {
        Plan::Skip
    }
}

/// A struct that does not fit in registers: the call stores it through a
/// hidden pointer, and it is copied from there.
pub open spec fn plan_local_struct_hidden<'a>(
    cx: Cx<'a>,
    off: i16,
    ty: &'a Type,
    value: &'a Expr,
) -> Plan<'a> {
    if let Type::Struct { name: _, fields: _, size: _ } = ty {
        if let ExprKind::Call { name: f, args } = &value.kind {
            if let Some(ret) = cx.env.ret_ty_of(f) {
                if ret.same_as(ty) {
                    if (ty.size() as u16) != 1 && (ty.size() as u16) != 2 && (ty.size() as u16) != 4 {
                        Plan::Emit(seq![
                            lea(ax(), bp(off)),
                            push(r(Reg::Ss)),
                            push(ax()),
                            Step::CallFnInto(f, args, cx.env.struct_tmp),
                            lea(ax(), bp(cx.env.struct_tmp)),
                            push(r(Reg::Ss)),
                            push(ax()),
                            mov(cx_(), imm((ty.size() as u16) as i64)),
                            call(Helper::StructCopy),
                        ])
                    } else {
                        Plan::Skip
                    }
                } else {
                    Plan::Skip
                }
            } else {
                Plan::Skip
            }
        } else {
            Plan::Skip
        }
    } else {
        Plan::Skip
    }
}

/// A 32-bit constant.
pub open spec fn plan_local_long_const<'a>(cx: Cx<'a>, off: i16, value: &'a Expr) -> Plan<'a> {
    if let Some(v) = cx.env.const_of(value) {
        crate::codegen::common::plan_store_long_const(cx, bp2(off), bp(off), v)
    } else {
        Plan::Skip
    }
}

/// A copy of a 32-bit file-scope variable.
pub open spec fn plan_local_long_global<'a>(cx: Cx<'a>, off: i16, value: &'a Expr) -> Plan<'a> {
    if let ExprKind::Ident(src) = &value.kind {
        if cx.env.is_long_global(src) {
            crate::codegen::common::plan_copy_long(cx, bp2(off), bp(off), global2(src), global(src))
        } else {
            Plan::Skip
        }
    } else {
        Plan::Skip
    }
}

/// The result of a call.
pub open spec fn plan_local_long_call<'a>(cx: Cx<'a>, off: i16, value: &'a Expr) -> Plan<'a> {
    if let ExprKind::Call { name: _, args: _ } = &value.kind {
        Plan::Emit(seq![to_ax(cx, value)]).followed_by(
            crate::codegen::common::plan_store_result(cx, bp2(off), bp(off)),
        )
    } else {
        Plan::Skip
    }
}

/// A direct operator applied to two 32-bit local variables.
pub open spec fn plan_local_long_pair<'a>(cx: Cx<'a>, off: i16, value: &'a Expr) -> Plan<'a> {
    if let ExprKind::BinOp { op, left, right } = &value.kind {
        if is_direct(*op) {
            if let ExprKind::Ident(a) = &left.kind {
                if let ExprKind::Ident(b) = &right.kind {
                    if cx.env.is_long_local(a) && cx.env.is_long_local(b) {
                        if let Some(a_off) = cx.env.stack_of(a) {
                            if let Some(b_off) = cx.env.stack_of(b) {
                                crate::codegen::assign_global::plan_load_halves(cx, bp2(a_off), bp(a_off)).followed_by(
                                    Plan::Emit(seq![
                                        op2(direct(*op), dx(), word(bp(b_off))),
                                        op2(direct_high(*op), ax(), word(bp2(b_off))),
                                    ]),
                                ).followed_by(
                                    crate::codegen::assign_global::plan_store_halves(cx, bp2(off), bp(off)),
                                )
                            } else {
                                Plan::Stuck
                            }
                        } else {
                            Plan::Stuck
                        }
                    } else {
                        Plan::Skip
                    }
                } else {
                    Plan::Skip
                }
            } else {
                Plan::Skip
            }
        } else {
            Plan::Skip
        }
    } else {
        Plan::Skip
    }
}

/// A copy of a 32-bit local variable.
pub open spec fn plan_local_long_local<'a>(cx: Cx<'a>, off: i16, value: &'a Expr) -> Plan<'a> {
    if let ExprKind::Ident(src) = &value.kind {
        if cx.env.is_long_local(src) {
            if let Some(from) = cx.env.stack_of(src) {
                crate::codegen::common::plan_copy_long(cx, bp2(off), bp(off), bp2(from), bp(from))
            } else {
                Plan::Stuck
            }
        } else {
            Plan::Skip
        }
    } else {
        Plan::Skip
    }
}

/// A product of two 32-bit local variables.
pub open spec fn plan_local_long_mul<'a>(cx: Cx<'a>, off: i16, value: &'a Expr) -> Plan<'a> {
    if let ExprKind::BinOp { op: BinOp::Mul, left, right } = &value.kind {
        if let ExprKind::Ident(a) = &left.kind {
            if let ExprKind::Ident(b) = &right.kind {
                if cx.env.is_long_local(a) && cx.env.is_long_local(b) {
                    if let Some(a_off) = cx.env.stack_of(a) {
                        if let Some(b_off) = cx.env.stack_of(b) {
                            crate::codegen::assign_global::plan_multiply_long(cx, bp2(a_off), bp(a_off), bp2(b_off), bp(b_off)).followed_by(
                                crate::codegen::common::plan_store_result(cx, bp2(off), bp(off)),
                            )
                        } else {
                            Plan::Stuck
                        }
                    } else {
                        Plan::Stuck
                    }
                } else {
                    Plan::Skip
                }
            } else {
                Plan::Skip
            }
        } else {
            Plan::Skip
        }
    } else {
        Plan::Skip
    }
}

/// A quotient or a remainder of two 32-bit local variables.
pub open spec fn plan_local_long_div<'a>(cx: Cx<'a>, off: i16, value: &'a Expr) -> Plan<'a> {
    if let ExprKind::BinOp { op, left, right } = &value.kind {
        if is_division(*op) {
            if let ExprKind::Ident(a) = &left.kind {
                if let ExprKind::Ident(b) = &right.kind {
                    if cx.env.is_long_local(a) && cx.env.is_long_local(b) {
                        if let Some(a_off) = cx.env.stack_of(a) {
                            if let Some(b_off) = cx.env.stack_of(b) {
                                crate::codegen::assign_global::plan_push_long(cx, bp2(b_off), bp(b_off)).followed_by(
                                    crate::codegen::assign_global::plan_push_long(cx, bp2(a_off), bp(a_off)),
                                ).followed_by(
                                    Plan::Emit(seq![
                                        call(divider(*op, cx.env.is_unsigned_local(a) || cx.env.is_unsigned_local(b))),
                                    ]),
                                ).followed_by(
                                    crate::codegen::common::plan_store_result(cx, bp2(off), bp(off)),
                                )
                            } else {
                                Plan::Stuck
                            }
                        } else {
                            Plan::Stuck
                        }
                    } else {
                        Plan::Skip
                    }
                } else {
                    Plan::Skip
                }
            } else {
                Plan::Skip
            }
        } else {
            Plan::Skip
        }
    } else {
        Plan::Skip
    }
}

/// A 32-bit local variable shifted by another local variable.
pub open spec fn plan_local_long_shift_by<'a>(cx: Cx<'a>, off: i16, value: &'a Expr) -> Plan<'a> {
    if let ExprKind::BinOp { op, left, right } = &value.kind {
        if is_shift(*op) {
            if let ExprKind::Ident(a) = &left.kind {
                if let ExprKind::Ident(n) = &right.kind {
                    if cx.env.is_long_local(a) && cx.env.has(n) {
                        if let Some(a_off) = cx.env.stack_of(a) {
                            if let Some(n_off) = cx.env.stack_of(n) {
                                Plan::Emit(seq![
                                    mov(dx(), word(bp2(a_off))),
                                    mov(ax(), word(bp(a_off))),
                                    mov(cl(), byte(bp(n_off))),
                                    call(shifter(*op, cx.env.is_unsigned_local(a))),
                                ]).followed_by(
                                    crate::codegen::common::plan_store_result(cx, bp2(off), bp(off)),
                                )
                            } else {
                                Plan::Stuck
                            }
                        } else {
                            Plan::Stuck
                        }
                    } else {
                        Plan::Skip
                    }
                } else {
                    Plan::Skip
                }
            } else {
                Plan::Skip
            }
        } else {
            Plan::Skip
        }
    } else {
        Plan::Skip
    }
}

/// The negative of a 32-bit local variable.
pub open spec fn plan_local_long_neg<'a>(cx: Cx<'a>, off: i16, value: &'a Expr) -> Plan<'a> {
    if let ExprKind::Unary { op: UnaryOp::Neg, operand } = &value.kind {
        if let ExprKind::Ident(a) = &operand.kind {
            if cx.env.is_long_local(a) {
                if let Some(from) = cx.env.stack_of(a) {
                    crate::codegen::assign_global::plan_load_halves(cx, bp2(from), bp(from)).followed_by(
                        crate::codegen::assign_global::plan_negate_halves(cx),
                    ).followed_by(
                        crate::codegen::assign_global::plan_store_halves(cx, bp2(off), bp(off)),
                    )
                } else {
                    Plan::Stuck
                }
            } else {
                Plan::Skip
            }
        } else {
            Plan::Skip
        }
    } else {
        Plan::Skip
    }
}

/// The complement of a 32-bit local variable.
pub open spec fn plan_local_long_not<'a>(cx: Cx<'a>, off: i16, value: &'a Expr) -> Plan<'a> {
    if let ExprKind::Unary { op: UnaryOp::BitNot, operand } = &value.kind {
        if let ExprKind::Ident(a) = &operand.kind {
            if cx.env.is_long_local(a) {
                if let Some(from) = cx.env.stack_of(a) {
                    crate::codegen::assign_global::plan_load_halves(cx, bp2(from), bp(from)).followed_by(
                        Plan::Emit(seq![
                            op1(Mnemonic::Not, dx()),
                            op1(Mnemonic::Not, ax()),
                        ]),
                    ).followed_by(
                        crate::codegen::assign_global::plan_store_halves(cx, bp2(off), bp(off)),
                    )
                } else {
                    Plan::Stuck
                }
            } else {
                Plan::Skip
            }
        } else {
            Plan::Skip
        }
    } else {
        Plan::Skip
    }
}

/// A left shift by 16 moves the low word up.
pub open spec fn plan_local_long_shift_word<'a>(
    cx: Cx<'a>,
    off: i16,
    value: &'a Expr,
) -> Plan<'a> {
    if let ExprKind::BinOp { op: BinOp::Shl, left, right } = &value.kind {
        if let Some((_, lo)) = &cx.env.facts(&**left).long_addrs {
            if let Some(k) = cx.env.const_of(&**right) {
                if k == 16 {
                    Plan::Emit(seq![
                        mov(ax(), word(named(lo))),
                        mov(word(bp2(off)), ax()),
                        mov(word(bp(off)), imm(0)),
                    ])
                } else {
                    Plan::Skip
                }
            } else {
                Plan::Skip
            }
        } else {
            Plan::Skip
        }
    } else {
        Plan::Skip
    }
}

/// A 32-bit variable shifted by a constant.
pub open spec fn plan_local_long_shift_const<'a>(
    cx: Cx<'a>,
    off: i16,
    value: &'a Expr,
) -> Plan<'a> {
    if let ExprKind::BinOp { op, left, right } = &value.kind {
        if is_shift(*op) {
            if let Some((hi, lo)) = &cx.env.facts(&**left).long_addrs {
                if let Some(k) = cx.env.const_of(&**right) {
                    if cx.env.knows_ident(&**left) {
                        Plan::Emit(seq![
                            mov(dx(), word(named(hi))),
                            mov(ax(), word(named(lo))),
                            mov(cl(), imm(lo8(k))),
                            call(shifter(*op, cx.env.expr_is_unsigned(&**left))),
                        ]).followed_by(
                            crate::codegen::common::plan_store_result(cx, bp2(off), bp(off)),
                        )
                    } else {
                        Plan::Stuck
                    }
                } else {
                    Plan::Skip
                }
            } else {
                Plan::Skip
            }
        } else {
            Plan::Skip
        }
    } else {
        Plan::Skip
    }
}

/// `*p++` through a pointer in a register.
pub open spec fn plan_local_long_deref<'a>(cx: Cx<'a>, off: i16, value: &'a Expr) -> Plan<'a> {
    if let ExprKind::Deref(inner) = &value.kind {
        if let ExprKind::Update { target, op: UpdateOp::Inc, position: UpdatePosition::Post } = &inner.kind {
            if let Some(t) = cx.env.local_pointee(target) {
                if t.is_long_like() {
                    if let Some(reg) = cx.env.reg_of(target) {
                        crate::codegen::common::plan_copy_long(cx, bp2(off), bp(off), at2(reg), at(reg)).followed_by(
                            Plan::Emit(seq![add_to(r(reg), imm(4))]),
                        )
                    } else {
                        Plan::Skip
                    }
                } else {
                    Plan::Skip
                }
            } else {
                Plan::Skip
            }
        } else {
            Plan::Skip
        }
    } else {
        Plan::Skip
    }
}

/// A smaller integer is computed in `ax` and widened.
pub open spec fn plan_local_long_widen<'a>(cx: Cx<'a>, off: i16, value: &'a Expr) -> Plan<'a> {
    if !cx.env.expr_is_long_like(value) {
        Plan::Emit(seq![
            to_ax(cx, value),
            widen_long(cx.env.facts(value).unsigned_int),
        ]).followed_by(crate::codegen::common::plan_store_result(cx, bp2(off), bp(off)))
    } else {
        Plan::Skip
    }
}

/// Two integers put together as the high and the low word.
pub open spec fn plan_local_long_combined<'a>(cx: Cx<'a>, off: i16, value: &'a Expr) -> Plan<'a> {
    if let Some((hi, lo)) = &cx.env.facts(value).combined {
        Plan::Emit(seq![
            mov(ax(), word(named(hi))),
            cwd(),
            clear(Reg::Dx),
            or_to(dx(), word(named(lo))),
            or_to(ax(), imm(0)),
        ]).followed_by(crate::codegen::assign_global::plan_store_halves(cx, bp2(off), bp(off)))
    } else {
        Plan::Skip
    }
}

/// A 32-bit local variable.
pub open spec fn plan_assign_local_long<'a>(cx: Cx<'a>, off: i16, value: &'a Expr) -> Plan<'a> {
    match plan_local_long_const(cx, off, value) {
        Plan::Skip => {
            match plan_local_long_global(cx, off, value) {
                Plan::Skip => {
                    match plan_local_long_call(cx, off, value) {
                        Plan::Skip => {
                            match plan_local_long_pair(cx, off, value) {
                                Plan::Skip => {
                                    match plan_local_long_local(cx, off, value) {
                                        Plan::Skip => {
                                            match plan_local_long_mul(cx, off, value) {
                                                Plan::Skip => {
                                                    match plan_local_long_div(cx, off, value) {
                                                        Plan::Skip => {
                                                            match plan_local_long_shift_by(cx, off, value) {
                                                                Plan::Skip => {
                                                                    match plan_local_long_neg(cx, off, value) {
                                                                        Plan::Skip => {
                                                                            match plan_local_long_not(cx, off, value) {
                                                                                Plan::Skip => {
                                                                                    match plan_local_long_shift_word(cx, off, value) {
                                                                                        Plan::Skip => {
                                                                                            match plan_local_long_shift_const(cx, off, value) {
                                                                                                Plan::Skip => {
                                                                                                    match plan_local_long_deref(cx, off, value) {
                                                                                                        Plan::Skip => {
                                                                                                            match plan_local_long_widen(cx, off, value) {
                                                                                                                Plan::Skip => {
                                                                                                                    match plan_local_long_combined(cx, off, value) {
                                                                                                                        Plan::Skip => {
                                                                                                                            Plan::Stuck
                                                                                                                        },
                                                                                                                        taken => taken,
                                                                                                                    }
                                                                                                                },
                                                                                                                taken => taken,
                                                                                                            }
                                                                                                        },
                                                                                                        taken => taken,
                                                                                                    }
                                                                                                },
                                                                                                taken => taken,
                                                                                            }
                                                                                        },
                                                                                        taken => taken,
                                                                                    }
                                                                                },
                                                                                taken => taken,
                                                                            }
                                                                        },
                                                                        taken => taken,
                                                                    }
                                                                },
                                                                taken => taken,
                                                            }
                                                        },
                                                        taken => taken,
                                                    }
                                                },
                                                taken => taken,
                                            }
                                        },
                                        taken => taken,
                                    }
                                },
                                taken => taken,
                            }
                        },
                        taken => taken,
                    }
                },
                taken => taken,
            }
        },
        taken => taken,
    }
}

/// A constant.
pub open spec fn plan_local_const<'a>(
    cx: Cx<'a>,
    off: i16,
    ty: &'a Type,
    value: &'a Expr,
) -> Plan<'a> {
    if let Some(v) = cx.env.const_of(value) {
        Plan::Emit(seq![
            mov(sized(ty.is_char_like(), bp(off)), imm(masked(v, ty.is_char_like()))),
        ])
    } else {
        Plan::Skip
    }
}

/// The label for a condition that holds, which only `||` at the top needs.
#[verifier::allow_in_spec]
pub fn top_or_label(cond: &Expr, base: u32) -> Option<u32>
    returns
        (match &cond.kind {
            ExprKind::Logical { op: LogicalOp::Or, left: _, right: _ } => Some(base),
            _ => None,
        }),
{
    match &cond.kind {
        ExprKind::Logical { op: LogicalOp::Or, left: _, right: _ } => Some(base),
        _ => None,
    }
}

/// A character chosen from two constants by a condition.
pub open spec fn plan_local_char_choice<'a>(
    cx: Cx<'a>,
    off: i16,
    ty: &'a Type,
    value: &'a Expr,
) -> Plan<'a> {
    if ty.is_char_like() {
        if let ExprKind::Ternary { cond, then_value, else_value } = &value.kind {
            if let Some(yes) = cx.env.const_of(&**then_value) {
                if let Some(no) = cx.env.const_of(&**else_value) {
                    if let Some(base) = cx.env.facts(value).label_base {
                        if base <= 0xFFFF_FFFD {
                            crate::codegen::conditions::plan_emit_cond_branch(cx, &**cond, top_or_label(&**cond, base), Some(label_after(base, 1))).followed_by(
                                Plan::Emit(if top_or_label(&**cond, base).is_some() {
                                    seq![Step::Label(base)]
                                } else {
                                    seq![]
                                }),
                            ).followed_by(
                                Plan::Emit(seq![
                                    mov(al(), imm(lo8(yes))),
                                    Step::Goto(label_after(base, 2)),
                                    Step::Label(label_after(base, 1)),
                                    mov(al(), imm(lo8(no))),
                                    Step::Label(label_after(base, 2)),
                                    mov(byte(bp(off)), al()),
                                ]),
                            )
                        } else {
                            Plan::Stuck
                        }
                    } else {
                        Plan::Stuck
                    }
                } else {
                    Plan::Skip
                }
            } else {
                Plan::Skip
            }
        } else {
            Plan::Skip
        }
    } else {
        Plan::Skip
    }
}

/// `*p++` or `*p--` through a pointer to words in a register.
pub open spec fn plan_local_word_deref<'a>(
    cx: Cx<'a>,
    off: i16,
    ty: &'a Type,
    value: &'a Expr,
) -> Plan<'a> {
    if !ty.is_char_like() {
        if let ExprKind::Deref(inner) = &value.kind {
            if let ExprKind::Update { target, op, position: UpdatePosition::Post } = &inner.kind {
                if let Some(reg) = cx.env.reg_of(target) {
                    if let Some(t) = cx.env.local_pointee(target) {
                        if t.is_int_like() {
                            Plan::Emit(seq![
                                mov(ax(), word(at(reg))),
                                mov(word(bp(off)), ax()),
                            ]).followed_by(
                                Plan::Emit(op1(update(*op), r(reg)).times((t.size() as u16) as nat)),
                            )
                        } else {
                            Plan::Skip
                        }
                    } else {
                        Plan::Skip
                    }
                } else {
                    Plan::Skip
                }
            } else {
                Plan::Skip
            }
        } else {
            Plan::Skip
        }
    } else {
        Plan::Skip
    }
}

/// `*p++` or `*p--` through a pointer to characters in a register.
pub open spec fn plan_local_char_deref<'a>(
    cx: Cx<'a>,
    off: i16,
    ty: &'a Type,
    value: &'a Expr,
) -> Plan<'a> {
    if ty.is_char_like() {
        if let ExprKind::Deref(inner) = &value.kind {
            if let ExprKind::Update { target, op, position: UpdatePosition::Post } = &inner.kind {
                if let Some(reg) = cx.env.reg_of(target) {
                    if let Some(t) = cx.env.local_pointee(target) {
                        if t.is_char_like() {
                            Plan::Emit(seq![
                                mov(al(), byte(at(reg))),
                                mov(byte(bp(off)), al()),
                                op1(update(*op), r(reg)),
                            ])
                        } else {
                            Plan::Skip
                        }
                    } else {
                        Plan::Skip
                    }
                } else {
                    Plan::Skip
                }
            } else {
                Plan::Skip
            }
        } else {
            Plan::Skip
        }
    } else {
        Plan::Skip
    }
}

/// `++x` or `--x` in a register, which is then stored.
pub open spec fn plan_local_pre_register<'a>(cx: Cx<'a>, off: i16, value: &'a Expr) -> Plan<'a> {
    if let ExprKind::Update { target, op, position: UpdatePosition::Pre } = &value.kind {
        if let Some(reg) = cx.env.word_reg_of(target) {
            Plan::Emit(seq![
                op1(update(*op), r(reg)),
                mov(word(bp(off)), r(reg)),
            ])
        } else {
            Plan::Skip
        }
    } else {
        Plan::Skip
    }
}

/// The last operand of a chain of commas.
pub open spec fn spec_comma_tail<'a>(e: &'a Expr) -> &'a Expr
    decreases e,
{
    match &e.kind {
        ExprKind::Comma { left: _, right } => spec_comma_tail(&**right),
        _ => e,
    }
}

/// The last operand of a chain of commas.
#[verifier::when_used_as_spec(spec_comma_tail)]
pub fn comma_tail<'a>(e: &'a Expr) -> (r: &'a Expr)
    ensures
        r == spec_comma_tail(e),
    decreases e,
{
    match &e.kind {
        ExprKind::Comma { left: _, right } => comma_tail(&**right),
        _ => e,
    }
}

/// All operands of a chain of commas but the last, evaluated for their
/// effects.
pub open spec fn plan_discard_heads<'a>(cx: Cx<'a>, e: &'a Expr) -> Plan<'a>
    decreases e,
{
    match &e.kind {
        ExprKind::Comma { left, right } => Plan::Emit(seq![Step::Discard(&**left)]).followed_by(
            plan_discard_heads(cx, &**right),
        ),
        _ => Plan::Emit(seq![]),
    }
}

/// Whether an update moves a variable by one: not if it is a pointer to
/// something larger than a character.
#[verifier::allow_in_spec]
pub fn moves_by_one(ty: &Type) -> bool
    returns
        (match ty.pointee() {
            Some(t) => t.is_char_like(),
            None => true,
        }),
{
    match ty.pointee() {
        Some(t) => t.is_char_like(),
        None => true,
    }
}

/// Whether an update moves a local variable by one.
#[verifier::allow_in_spec]
pub fn local_moves_by_one(env: &Env, name: &String) -> bool
    returns
        (match env.local_type(name) {
            Some(t) => moves_by_one(t),
            None => true,
        }),
{
    match env.local_type(name) {
        Some(t) => moves_by_one(t),
        None => true,
    }
}

/// `x++` or `x--` in a register, behind other operands of a comma: the old
/// value is stored before the update.
pub open spec fn plan_local_post_tail<'a>(
    cx: Cx<'a>,
    off: i16,
    ty: &'a Type,
    value: &'a Expr,
) -> Plan<'a> {
    if !ty.is_char_like() {
        if let ExprKind::Update { target, op, position: UpdatePosition::Post } = &comma_tail(value).kind {
            if let Some(reg) = cx.env.word_reg_of(target) {
                if cx.env.is_int_local(target) && local_moves_by_one(cx.env, target) {
                    plan_discard_heads(cx, value).followed_by(
                        Plan::Emit(seq![
                            mov(word(bp(off)), r(reg)),
                            op1(update(*op), r(reg)),
                        ]),
                    )
                } else {
                    Plan::Skip
                }
            } else {
                Plan::Skip
            }
        } else {
            Plan::Skip
        }
    } else {
        Plan::Skip
    }
}

/// A remainder is stored from `dx`.
pub open spec fn plan_local_mod<'a>(
    cx: Cx<'a>,
    off: i16,
    ty: &'a Type,
    value: &'a Expr,
) -> Plan<'a> {
    if let ExprKind::BinOp { op: BinOp::Mod, left, right } = &value.kind {
        if !ty.is_char_like() {
            Plan::Emit(seq![
                Step::Remainder(&**left, &**right),
                mov(word(bp(off)), dx()),
            ])
        } else {
            Plan::Skip
        }
    } else {
        Plan::Skip
    }
}

/// Copies one byte by way of `al`.
pub open spec fn plan_copy_byte<'a>(cx: Cx<'a>, to: Addr<'a>, from: Addr<'a>) -> Plan<'a> {
    Plan::Emit(seq![
        mov(al(), byte(from)),
        mov(byte(to), al()),
    ])
}

/// A character at a constant place in a file-scope array.
pub open spec fn plan_local_char_global_elem<'a>(
    cx: Cx<'a>,
    off: i16,
    ty: &'a Type,
    value: &'a Expr,
) -> Plan<'a> {
    if ty.is_char_like() {
        if let ExprKind::ArrayIndex { array, index } = &value.kind {
            if let ExprKind::Ident(arr) = &array.kind {
                if let Some(t) = cx.env.global_elem(arr) {
                    if t.is_char_like() {
                        if let Some(k) = cx.env.const_of(&**index) {
                            plan_copy_byte(cx, bp(off), global_at(arr, plus(scaled(k, 1) as i64)))
                        } else {
                            Plan::Skip
                        }
                    } else {
                        Plan::Skip
                    }
                } else {
                    Plan::Skip
                }
            } else {
                Plan::Skip
            }
        } else {
            Plan::Skip
        }
    } else {
        Plan::Skip
    }
}

/// A character at a constant place in an array on the stack.
pub open spec fn plan_local_char_local_elem<'a>(
    cx: Cx<'a>,
    off: i16,
    ty: &'a Type,
    value: &'a Expr,
) -> Plan<'a> {
    if ty.is_char_like() {
        if let ExprKind::ArrayIndex { array, index } = &value.kind {
            if let ExprKind::Ident(arr) = &array.kind {
                if let Some(t) = cx.env.local_elem(arr) {
                    if t.is_char_like() {
                        if let Some(k) = cx.env.const_of(&**index) {
                            if let Some(base) = cx.env.stack_of(arr) {
                                plan_copy_byte(cx, bp(off), bp_plus(base, sat16(scaled(k, 1))))
                            } else {
                                Plan::Skip
                            }
                        } else {
                            Plan::Skip
                        }
                    } else {
                        Plan::Skip
                    }
                } else {
                    Plan::Skip
                }
            } else {
                Plan::Skip
            }
        } else {
            Plan::Skip
        }
    } else {
        Plan::Skip
    }
}

/// A character member at a constant address.
pub open spec fn plan_local_char_member<'a>(
    cx: Cx<'a>,
    off: i16,
    ty: &'a Type,
    value: &'a Expr,
) -> Plan<'a> {
    if ty.is_char_like() {
        if let ExprKind::Member { base: _, field: _, kind: MemberKind::Dot } = &value.kind {
            if let Some(chain) = &cx.env.facts(value).dot_chain {
                if chain.ty.is_char_like() {
                    if cx.env.is_global(&chain.name) {
                        plan_copy_byte(cx, bp(off), global_at(&chain.name, plus(chain.off as i64)))
                    } else {
                        if cx.env.has(&chain.name) {
                            if let Some(base) = cx.env.stack_of(&chain.name) {
                                plan_copy_byte(cx, bp(off), bp_plus(base, sat16(chain.off)))
                            } else {
                                Plan::Skip
                            }
                        } else {
                            Plan::Stuck
                        }
                    }
                } else {
                    Plan::Skip
                }
            } else {
                Plan::Skip
            }
        } else {
            Plan::Skip
        }
    } else {
        Plan::Skip
    }
}

/// A character that a function returns.
pub open spec fn plan_local_char_call<'a>(
    cx: Cx<'a>,
    off: i16,
    ty: &'a Type,
    value: &'a Expr,
) -> Plan<'a> {
    if ty.is_char_like() {
        if let ExprKind::Call { name: f, args } = &value.kind {
            if let Some(ret) = cx.env.ret_ty_of(f) {
                if ret.is_char_like() {
                    Plan::Emit(seq![
                        Step::CallFn(f, args),
                        mov(byte(bp(off)), al()),
                    ])
                } else {
                    Plan::Skip
                }
            } else {
                Plan::Skip
            }
        } else {
            Plan::Skip
        }
    } else {
        Plan::Skip
    }
}

/// The memory of a variable, locals on the stack first.
#[verifier::allow_in_spec]
pub fn frame_or_global<'b>(env: &Env, name: &'b String) -> Option<Addr<'b>>
    returns
        (match env.stack_of(name) {
            Some(off) => Some(bp(off)),
            None => if env.is_global(name) { Some(global(name)) } else { None },
        }),
{
    match env.stack_of(name) {
        Some(off) => Some(bp(off)),
        None => if env.is_global(name) { Some(global(name)) } else { None },
    }
}

/// A variable narrowed to a character by a cast.
pub open spec fn plan_local_char_narrow<'a>(
    cx: Cx<'a>,
    off: i16,
    ty: &'a Type,
    value: &'a Expr,
) -> Plan<'a> {
    if ty.is_char_like() {
        if let ExprKind::Cast { ty: to, operand } = &value.kind {
            if to.is_char_like() {
                if let ExprKind::Ident(src) = &operand.kind {
                    if let Some(addr) = frame_or_global(cx.env, src) {
                        plan_copy_byte(cx, bp(off), addr)
                    } else {
                        Plan::Skip
                    }
                } else {
                    Plan::Skip
                }
            } else {
                Plan::Skip
            }
        } else {
            Plan::Skip
        }
    } else {
        Plan::Skip
    }
}

/// A direct operator on a variable and a constant, narrowed to a character
/// by a cast: the arithmetic is made on bytes.
pub open spec fn plan_local_char_arith<'a>(
    cx: Cx<'a>,
    off: i16,
    ty: &'a Type,
    value: &'a Expr,
) -> Plan<'a> {
    if ty.is_char_like() {
        if let ExprKind::Cast { ty: to, operand } = &value.kind {
            if to.is_char_like() {
                if let ExprKind::BinOp { op, left, right } = &operand.kind {
                    if is_direct(*op) {
                        if let ExprKind::Ident(src) = &left.kind {
                            if let Some(k) = cx.env.const_of(&**right) {
                                if let Some(addr) = frame_or_global(cx.env, src) {
                                    Plan::Emit(seq![
                                        mov(al(), byte(addr)),
                                        op2(direct(*op), al(), imm(lo8(k))),
                                        mov(byte(bp(off)), al()),
                                    ])
                                } else {
                                    Plan::Skip
                                }
                            } else {
                                Plan::Skip
                            }
                        } else {
                            Plan::Skip
                        }
                    } else {
                        Plan::Skip
                    }
                } else {
                    Plan::Skip
                }
            } else {
                Plan::Skip
            }
        } else {
            Plan::Skip
        }
    } else {
        Plan::Skip
    }
}

/// Whether a name is a character variable, locals first.
#[verifier::allow_in_spec]
pub fn is_char_variable(env: &Env, name: &String) -> bool
    returns
        (match env.local_type(name) {
            Some(t) => t.is_char_like(),
            None => match env.global_type(name) {
                Some(t) => t.is_char_like(),
                None => false,
            },
        }),
{
    match env.local_type(name) {
        Some(t) => t.is_char_like(),
        None => match env.global_type(name) {
            Some(t) => t.is_char_like(),
            None => false,
        },
    }
}

/// A copy of a character variable.
pub open spec fn plan_local_char_copy<'a>(
    cx: Cx<'a>,
    off: i16,
    ty: &'a Type,
    value: &'a Expr,
) -> Plan<'a> {
    if ty.is_char_like() {
        if let ExprKind::Ident(src) = &value.kind {
            if is_char_variable(cx.env, src) {
                if let Some(addr) = frame_or_global(cx.env, src) {
                    plan_copy_byte(cx, bp(off), addr)
                } else {
                    Plan::Skip
                }
            } else {
                Plan::Skip
            }
        } else {
            Plan::Skip
        }
    } else {
        Plan::Skip
    }
}

/// The address of a file-scope variable.
pub open spec fn plan_local_address<'a>(
    cx: Cx<'a>,
    off: i16,
    ty: &'a Type,
    value: &'a Expr,
) -> Plan<'a> {
    if !ty.is_char_like() {
        if let ExprKind::AddressOf(sym) = &value.kind {
            if cx.env.is_global(sym) {
                Plan::Emit(seq![mov(word(bp(off)), offset_of(sym, Disp::Zero))])
            } else {
                Plan::Skip
            }
        } else {
            Plan::Skip
        }
    } else {
        Plan::Skip
    }
}

/// A file-scope array, which stands for its address.
pub open spec fn plan_local_array<'a>(
    cx: Cx<'a>,
    off: i16,
    ty: &'a Type,
    value: &'a Expr,
) -> Plan<'a> {
    if ty.pointee().is_some() {
        if let ExprKind::Ident(sym) = &value.kind {
            if cx.env.global_elem(sym).is_some() {
                Plan::Emit(seq![mov(word(bp(off)), offset_of(sym, Disp::Zero))])
            } else {
                Plan::Skip
            }
        } else {
            Plan::Skip
        }
    } else {
        Plan::Skip
    }
}

/// `g++` or `g--` of a word at file scope: the old value is stored before
/// the update.
pub open spec fn plan_local_post_global_word<'a>(
    cx: Cx<'a>,
    off: i16,
    ty: &'a Type,
    value: &'a Expr,
) -> Plan<'a> {
    if !ty.is_char_like() {
        if let ExprKind::Update { target, op, position: UpdatePosition::Post } = &value.kind {
            if let Some(gty) = cx.env.global_type(target) {
                if is_plain_int(gty) || gty.pointee().is_some() {
                    if moves_by_one(gty) {
                        Plan::Emit(seq![
                            mov(ax(), word(global(target))),
                            mov(word(bp(off)), ax()),
                            op1(update(*op), word(global(target))),
                        ])
                    } else {
                        Plan::Skip
                    }
                } else {
                    Plan::Skip
                }
            } else {
                Plan::Skip
            }
        } else {
            Plan::Skip
        }
    } else {
        Plan::Skip
    }
}

/// `g++` or `g--` of a character at file scope, widened.
pub open spec fn plan_local_post_global_char<'a>(
    cx: Cx<'a>,
    off: i16,
    ty: &'a Type,
    value: &'a Expr,
) -> Plan<'a> {
    if !ty.is_char_like() {
        if let ExprKind::Update { target, op, position: UpdatePosition::Post } = &value.kind {
            if let Some(gty) = cx.env.global_type(target) {
                if gty.is_char_like() {
                    Plan::Emit(seq![
                        mov(al(), byte(global(target))),
                        widen(gty.is_unsigned()),
                        mov(word(bp(off)), ax()),
                        op1(update(*op), byte(global(target))),
                    ])
                } else {
                    Plan::Skip
                }
            } else {
                Plan::Skip
            }
        } else {
            Plan::Skip
        }
    } else {
        Plan::Skip
    }
}

/// `x++` or `x--` of a word in a register.
pub open spec fn plan_local_post_register<'a>(
    cx: Cx<'a>,
    off: i16,
    ty: &'a Type,
    value: &'a Expr,
) -> Plan<'a> {
    if !ty.is_char_like() {
        if let ExprKind::Update { target, op, position: UpdatePosition::Post } = &value.kind {
            if let Some(reg) = cx.env.word_reg_of(target) {
                if local_moves_by_one(cx.env, target) {
                    Plan::Emit(seq![
                        mov(word(bp(off)), r(reg)),
                        op1(update(*op), r(reg)),
                    ])
                } else {
                    Plan::Skip
                }
            } else {
                Plan::Skip
            }
        } else {
            Plan::Skip
        }
    } else {
        Plan::Skip
    }
}

/// The byte register of a local variable.
#[verifier::allow_in_spec]
pub fn byte_reg_of(env: &Env, name: &String) -> Option<Reg>
    returns
        (match env.reg_of(name) {
            Some(reg) => if reg.is_byte() { Some(reg) } else { None },
            None => None,
        }),
{
    match env.reg_of(name) {
        Some(reg) => if reg.is_byte() { Some(reg) } else { None },
        None => None,
    }
}

/// `c++` or `c--` of a character in a register, widened.
pub open spec fn plan_local_post_byte_widen<'a>(
    cx: Cx<'a>,
    off: i16,
    ty: &'a Type,
    value: &'a Expr,
) -> Plan<'a> {
    if !ty.is_char_like() {
        if let ExprKind::Update { target, op, position: UpdatePosition::Post } = &value.kind {
            if let Some(reg) = byte_reg_of(cx.env, target) {
                Plan::Emit(seq![
                    mov(al(), r(reg)),
                    widen(cx.env.is_unsigned_local(target)),
                    mov(word(bp(off)), ax()),
                    op1(update(*op), r(reg)),
                ])
            } else {
                Plan::Skip
            }
        } else {
            Plan::Skip
        }
    } else {
        Plan::Skip
    }
}

/// `++c` or `--c` of a character in a register, widened.
pub open spec fn plan_local_pre_byte_widen<'a>(
    cx: Cx<'a>,
    off: i16,
    ty: &'a Type,
    value: &'a Expr,
) -> Plan<'a> {
    if !ty.is_char_like() {
        if let ExprKind::Update { target, op, position: UpdatePosition::Pre } = &value.kind {
            if let Some(reg) = byte_reg_of(cx.env, target) {
                Plan::Emit(seq![
                    mov(al(), r(reg)),
                    op1(update(*op), al()),
                    mov(r(reg), al()),
                    widen(cx.env.is_unsigned_local(target)),
                    mov(word(bp(off)), ax()),
                ])
            } else {
                Plan::Skip
            }
        } else {
            Plan::Skip
        }
    } else {
        Plan::Skip
    }
}

/// `c++` or `c--` of a character in a register, stored as a byte.
pub open spec fn plan_local_post_byte<'a>(
    cx: Cx<'a>,
    off: i16,
    ty: &'a Type,
    value: &'a Expr,
) -> Plan<'a> {
    if ty.is_char_like() {
        if let ExprKind::Update { target, op, position: UpdatePosition::Post } = &value.kind {
            if let Some(reg) = byte_reg_of(cx.env, target) {
                Plan::Emit(seq![
                    mov(al(), r(reg)),
                    mov(byte(bp(off)), al()),
                    op1(update(*op), r(reg)),
                ])
            } else {
                Plan::Skip
            }
        } else {
            Plan::Skip
        }
    } else {
        Plan::Skip
    }
}

/// `++c` or `--c` of a character in a register, stored as a byte.
pub open spec fn plan_local_pre_byte<'a>(
    cx: Cx<'a>,
    off: i16,
    ty: &'a Type,
    value: &'a Expr,
) -> Plan<'a> {
    if ty.is_char_like() {
        if let ExprKind::Update { target, op, position: UpdatePosition::Pre } = &value.kind {
            if let Some(reg) = byte_reg_of(cx.env, target) {
                Plan::Emit(seq![
                    mov(al(), r(reg)),
                    op1(update(*op), al()),
                    mov(r(reg), al()),
                    mov(byte(bp(off)), al()),
                ])
            } else {
                Plan::Skip
            }
        } else {
            Plan::Skip
        }
    } else {
        Plan::Skip
    }
}

/// Whether a type is `int`.
#[verifier::allow_in_spec]
pub fn is_int(t: &Type) -> bool
    returns
        (match t {
            Type::Int => true,
            _ => false,
        }),
{
    match t {
        Type::Int => true,
        _ => false,
    }
}

/// An `int` that is already in a register.
pub open spec fn plan_local_int_register<'a>(
    cx: Cx<'a>,
    off: i16,
    ty: &'a Type,
    value: &'a Expr,
) -> Plan<'a> {
    if is_int(ty) {
        if let ExprKind::Ident(src) = &value.kind {
            if let Some(reg) = cx.env.word_reg_of(src) {
                if let Some(sty) = cx.env.local_type(src) {
                    if is_int(sty) {
                        Plan::Emit(seq![mov(word(bp(off)), r(reg))])
                    } else {
                        Plan::Skip
                    }
                } else {
                    Plan::Skip
                }
            } else {
                Plan::Skip
            }
        } else {
            Plan::Skip
        }
    } else {
        Plan::Skip
    }
}

/// The address of an element of a file-scope array.
pub open spec fn plan_local_elem_address<'a>(
    cx: Cx<'a>,
    off: i16,
    ty: &'a Type,
    value: &'a Expr,
) -> Plan<'a> {
    if ty.pointee().is_some() {
        if let ExprKind::AddressOfArrayElem { array, byte_offset } = &value.kind {
            if cx.env.is_global(array) {
                Plan::Emit(seq![
                    mov(word(bp(off)), offset_of(array, plus(*byte_offset as i64))),
                ])
            } else {
                Plan::Skip
            }
        } else {
            Plan::Skip
        }
    } else {
        Plan::Skip
    }
}

/// A file-scope array plus a constant.
pub open spec fn plan_local_array_plus<'a>(
    cx: Cx<'a>,
    off: i16,
    ty: &'a Type,
    value: &'a Expr,
) -> Plan<'a> {
    if ty.pointee().is_some() {
        if let ExprKind::BinOp { op: BinOp::Add, left, right } = &value.kind {
            if let ExprKind::Ident(arr) = &left.kind {
                if let Some(t) = cx.env.global_elem(arr) {
                    if let Some(k) = cx.env.const_of(&**right) {
                        Plan::Emit(seq![
                            mov(word(bp(off)), offset_of(arr, plus(lo16(uscaled(k, (t.size() as u16)))))),
                        ])
                    } else {
                        Plan::Skip
                    }
                } else {
                    Plan::Skip
                }
            } else {
                Plan::Skip
            }
        } else {
            Plan::Skip
        }
    } else {
        Plan::Skip
    }
}

/// Any other value is computed in `ax`.
pub open spec fn plan_local_general<'a>(
    cx: Cx<'a>,
    off: i16,
    ty: &'a Type,
    value: &'a Expr,
) -> Plan<'a> {
    if ty.is_char_like() {
        Plan::Emit(seq![
            to_ax(cx, value),
            mov(byte(bp(off)), al()),
        ])
    } else {
        Plan::Emit(seq![
            to_ax(cx, value),
            Step::StoreCollapsed(word(bp(off))),
        ])
    }
}

/// Structs.
pub open spec fn plan_local_struct<'a>(
    cx: Cx<'a>,
    off: i16,
    ty: &'a Type,
    value: &'a Expr,
) -> Plan<'a> {
    match plan_local_struct_copy(cx, off, ty, value) {
        Plan::Skip => {
            match plan_local_struct_call(cx, off, ty, value) {
                Plan::Skip => {
                    plan_local_struct_hidden(cx, off, ty, value)
                },
                taken => taken,
            }
        },
        taken => taken,
    }
}

/// Constants, and updates that the assignment is folded into.
pub open spec fn plan_local_updates<'a>(
    cx: Cx<'a>,
    off: i16,
    ty: &'a Type,
    value: &'a Expr,
) -> Plan<'a> {
    match plan_local_const(cx, off, ty, value) {
        Plan::Skip => {
            match plan_local_char_choice(cx, off, ty, value) {
                Plan::Skip => {
                    match plan_local_word_deref(cx, off, ty, value) {
                        Plan::Skip => {
                            match plan_local_char_deref(cx, off, ty, value) {
                                Plan::Skip => {
                                    match plan_local_pre_register(cx, off, value) {
                                        Plan::Skip => {
                                            match plan_local_post_tail(cx, off, ty, value) {
                                                Plan::Skip => {
                                                    plan_local_mod(cx, off, ty, value)
                                                },
                                                taken => taken,
                                            }
                                        },
                                        taken => taken,
                                    }
                                },
                                taken => taken,
                            }
                        },
                        taken => taken,
                    }
                },
                taken => taken,
            }
        },
        taken => taken,
    }
}

/// Characters.
pub open spec fn plan_local_chars<'a>(
    cx: Cx<'a>,
    off: i16,
    ty: &'a Type,
    value: &'a Expr,
) -> Plan<'a> {
    match plan_local_char_global_elem(cx, off, ty, value) {
        Plan::Skip => {
            match plan_local_char_local_elem(cx, off, ty, value) {
                Plan::Skip => {
                    match plan_local_char_member(cx, off, ty, value) {
                        Plan::Skip => {
                            match plan_local_char_call(cx, off, ty, value) {
                                Plan::Skip => {
                                    match plan_local_char_narrow(cx, off, ty, value) {
                                        Plan::Skip => {
                                            match plan_local_char_arith(cx, off, ty, value) {
                                                Plan::Skip => {
                                                    plan_local_char_copy(cx, off, ty, value)
                                                },
                                                taken => taken,
                                            }
                                        },
                                        taken => taken,
                                    }
                                },
                                taken => taken,
                            }
                        },
                        taken => taken,
                    }
                },
                taken => taken,
            }
        },
        taken => taken,
    }
}

/// Addresses, and updates of other variables.
pub open spec fn plan_local_words<'a>(
    cx: Cx<'a>,
    off: i16,
    ty: &'a Type,
    value: &'a Expr,
) -> Plan<'a> {
    match plan_local_address(cx, off, ty, value) {
        Plan::Skip => {
            match plan_local_array(cx, off, ty, value) {
                Plan::Skip => {
                    match plan_local_post_global_word(cx, off, ty, value) {
                        Plan::Skip => {
                            match plan_local_post_global_char(cx, off, ty, value) {
                                Plan::Skip => {
                                    match plan_local_post_register(cx, off, ty, value) {
                                        Plan::Skip => {
                                            match plan_local_post_byte_widen(cx, off, ty, value) {
                                                Plan::Skip => {
                                                    match plan_local_pre_byte_widen(cx, off, ty, value) {
                                                        Plan::Skip => {
                                                            match plan_local_post_byte(cx, off, ty, value) {
                                                                Plan::Skip => {
                                                                    match plan_local_pre_byte(cx, off, ty, value) {
                                                                        Plan::Skip => {
                                                                            match plan_local_int_register(cx, off, ty, value) {
                                                                                Plan::Skip => {
                                                                                    match plan_local_elem_address(cx, off, ty, value) {
                                                                                        Plan::Skip => {
                                                                                            plan_local_array_plus(cx, off, ty, value)
                                                                                        },
                                                                                        taken => taken,
                                                                                    }
                                                                                },
                                                                                taken => taken,
                                                                            }
                                                                        },
                                                                        taken => taken,
                                                                    }
                                                                },
                                                                taken => taken,
                                                            }
                                                        },
                                                        taken => taken,
                                                    }
                                                },
                                                taken => taken,
                                            }
                                        },
                                        taken => taken,
                                    }
                                },
                                taken => taken,
                            }
                        },
                        taken => taken,
                    }
                },
                taken => taken,
            }
        },
        taken => taken,
    }
}

/// A variable on the stack.
pub open spec fn plan_assign_stack_local<'a>(
    cx: Cx<'a>,
    off: i16,
    ty: &'a Type,
    value: &'a Expr,
) -> Plan<'a> {
    match plan_local_function(cx, off, value) {
        Plan::Skip => {
            match plan_local_far_global(cx, off, ty, value) {
                Plan::Skip => {
                    match plan_local_far_local(cx, off, ty, value) {
                        Plan::Skip => {
                            match plan_local_struct(cx, off, ty, value) {
                                Plan::Skip => {
                                    if ty.is_long_like() {
                                        plan_assign_local_long(cx, off, value)
                                    } else {
                                        match plan_local_updates(cx, off, ty, value) {
                                            Plan::Skip => {
                                                match plan_local_chars(cx, off, ty, value) {
                                                    Plan::Skip => {
                                                        match plan_local_words(cx, off, ty, value) {
                                                            Plan::Skip => {
                                                                plan_local_general(cx, off, ty, value)
                                                            },
                                                            taken => taken,
                                                        }
                                                    },
                                                    taken => taken,
                                                }
                                            },
                                            taken => taken,
                                        }
                                    }
                                },
                                taken => taken,
                            }
                        },
                        taken => taken,
                    }
                },
                taken => taken,
            }
        },
        taken => taken,
    }
}

/// Assigns a value to a local variable of a given place and type.
pub open spec fn plan_emit_assign_local<'a>(
    cx: Cx<'a>,
    loc: LocalLocation,
    ty: &'a Type,
    value: &'a Expr,
) -> Plan<'a> {
    match loc {
        LocalLocation::Stack(off) => {
            plan_assign_stack_local(cx, off, ty, value)
        },
        LocalLocation::Reg(reg) => {
            crate::codegen::store_reg::plan_emit_store_reg(cx, reg, value)
        },
    }
}

impl<'a> FunctionEmitter<'a> {
    /// Emits what [`plan_local_function`] says, if it applies.
    pub fn try_local_function(&mut self, off: i16, value: &'a Expr) -> (done: bool)
        requires
            old(self).cx.env.wf(),
            !(plan_local_function(old(self).cx, off, value) is Stuck),
        ensures
            final(self).ran(*old(self), plan_local_function(old(self).cx, off, value), done),
    {
        let cx: Cx<'a> = self.cx;
        let Some(f) = designated(value) else { return false; };
        if !(!cx.env.has(f) && !cx.env.is_global(f) && cx.env.ret_ty_of(f).is_some()) {
            return false;
        }
        self.put(mov(word(bp(off)), offset_of_code(f)));
        true
    }

    /// Emits what [`plan_local_far_global`] says, if it applies.
    pub fn try_local_far_global(
        &mut self,
        off: i16,
        ty: &'a Type,
        value: &'a Expr,
    ) -> (done: bool)
        requires
            old(self).cx.env.wf(),
            !(plan_local_far_global(old(self).cx, off, ty, value) is Stuck),
        ensures
            final(self).ran(
                *old(self),
                plan_local_far_global(old(self).cx, off, ty, value),
                done,
            ),
    {
        let cx: Cx<'a> = self.cx;
        let Type::FarPointer { pointee: _, is_huge: _ } = ty else { return false; };
        let ExprKind::AddressOf(sym) = &value.kind else { return false; };
        if !cx.env.is_global(sym) {
            return false;
        }
        self.put(mov(word(bp2(off)), r(Reg::Ds)));
        self.put(mov(word(bp(off)), offset_of(sym, Disp::Zero)));
        true
    }

    /// Emits what [`plan_local_far_local`] says, if it applies.
    pub fn try_local_far_local(&mut self, off: i16, ty: &'a Type, value: &'a Expr) -> (done: bool)
        requires
            old(self).cx.env.wf(),
            !(plan_local_far_local(old(self).cx, off, ty, value) is Stuck),
        ensures
            final(self).ran(*old(self), plan_local_far_local(old(self).cx, off, ty, value), done),
    {
        let cx: Cx<'a> = self.cx;
        let Type::FarPointer { pointee: _, is_huge: _ } = ty else { return false; };
        let ExprKind::Cast { ty: _, operand } = &value.kind else { return false; };
        let Some((name, distance)) = frame_source(cx.env, &**operand) else { return false; };
        let Some(from) = cx.env.stack_of(name) else { return false; };
        if !(fits_i16((from as i64 + distance as i64) as i64)) {
            return false;
        }
        self.put(lea(ax(), bp_plus(from, distance)));
        self.put(mov(word(bp2(off)), r(Reg::Ss)));
        self.put(mov(word(bp(off)), ax()));
        true
    }

    /// Emits what [`plan_local_struct_copy`] says, if it applies.
    pub fn try_local_struct_copy(
        &mut self,
        off: i16,
        ty: &'a Type,
        value: &'a Expr,
    ) -> (done: bool)
        requires
            old(self).cx.env.wf(),
            ty.is_countable(),
            !(plan_local_struct_copy(old(self).cx, off, ty, value) is Stuck),
        ensures
            final(self).ran(
                *old(self),
                plan_local_struct_copy(old(self).cx, off, ty, value),
                done,
            ),
    {
        let cx: Cx<'a> = self.cx;
        let Type::Struct { name: _, fields: _, size: _ } = ty else { return false; };
        let ExprKind::Ident(src) = &value.kind else { return false; };
        if !(is_global_of(cx.env, src, ty) || is_local_of(cx.env, src, ty)) {
            return false;
        }
        if !(ty.size_bytes() >= 4) {
            return false;
        }
        if is_global_of(cx.env, src, ty) {
            if ty.size_bytes() == 4 {
                self.copy_long(bp2(off), bp(off), global2(src), global(src));
                return true;
            } else {
                self.put(lea(ax(), bp(off)));
                self.put(push(r(Reg::Ss)));
                self.put(push(ax()));
                self.put(mov(ax(), offset_of(src, Disp::Zero)));
                self.put(push(r(Reg::Ds)));
                self.put(push(ax()));
                self.put(mov(cx_(), imm(ty.size_bytes() as i64)));
                self.put(call(Helper::StructCopy));
                return true;
            }
        } else {
            let Some(from) = cx.env.stack_of(src) else { return false; };
            if ty.size_bytes() == 4 {
                self.copy_long(bp2(off), bp(off), bp2(from), bp(from));
                return true;
            } else {
                self.put(lea(ax(), bp(off)));
                self.put(push(r(Reg::Ss)));
                self.put(push(ax()));
                self.put(lea(ax(), bp(from)));
                self.put(push(r(Reg::Ss)));
                self.put(push(ax()));
                self.put(mov(cx_(), imm(ty.size_bytes() as i64)));
                self.put(call(Helper::StructCopy));
                return true;
            }
        }
    }

    /// Emits what [`plan_local_struct_call`] says, if it applies.
    pub fn try_local_struct_call(
        &mut self,
        off: i16,
        ty: &'a Type,
        value: &'a Expr,
    ) -> (done: bool)
        requires
            old(self).cx.env.wf(),
            ty.is_countable(),
            !(plan_local_struct_call(old(self).cx, off, ty, value) is Stuck),
        ensures
            final(self).ran(
                *old(self),
                plan_local_struct_call(old(self).cx, off, ty, value),
                done,
            ),
    {
        let cx: Cx<'a> = self.cx;
        let Type::Struct { name: _, fields: _, size: _ } = ty else { return false; };
        if !(ty.size_bytes() == 4) {
            return false;
        }
        let ExprKind::Call { name: f, args } = &value.kind else { return false; };
        let Some(ret) = cx.env.ret_ty_of(f) else { return false; };
        let Type::Struct { name: _, fields: _, size: _ } = ret else { return false; };
        if !(ret.size_bytes() == 4) {
            return false;
        }
        self.put(Step::CallFn(f, args));
        self.store_result(bp2(off), bp(off));
        true
    }

    /// Emits what [`plan_local_struct_hidden`] says, if it applies.
    pub fn try_local_struct_hidden(
        &mut self,
        off: i16,
        ty: &'a Type,
        value: &'a Expr,
    ) -> (done: bool)
        requires
            old(self).cx.env.wf(),
            ty.is_countable(),
            !(plan_local_struct_hidden(old(self).cx, off, ty, value) is Stuck),
        ensures
            final(self).ran(
                *old(self),
                plan_local_struct_hidden(old(self).cx, off, ty, value),
                done,
            ),
    {
        let cx: Cx<'a> = self.cx;
        let Type::Struct { name: _, fields: _, size: _ } = ty else { return false; };
        let ExprKind::Call { name: f, args } = &value.kind else { return false; };
        let Some(ret) = cx.env.ret_ty_of(f) else { return false; };
        if !ret.same_as(ty) {
            return false;
        }
        if !(ty.size_bytes() != 1 && ty.size_bytes() != 2 && ty.size_bytes() != 4) {
            return false;
        }
        self.put(lea(ax(), bp(off)));
        self.put(push(r(Reg::Ss)));
        self.put(push(ax()));
        self.put(Step::CallFnInto(f, args, cx.env.struct_tmp));
        self.put(lea(ax(), bp(cx.env.struct_tmp)));
        self.put(push(r(Reg::Ss)));
        self.put(push(ax()));
        self.put(mov(cx_(), imm(ty.size_bytes() as i64)));
        self.put(call(Helper::StructCopy));
        true
    }

    /// Emits what [`plan_local_long_const`] says, if it applies.
    pub fn try_local_long_const(&mut self, off: i16, value: &'a Expr) -> (done: bool)
        requires
            old(self).cx.env.wf(),
            !(plan_local_long_const(old(self).cx, off, value) is Stuck),
        ensures
            final(self).ran(*old(self), plan_local_long_const(old(self).cx, off, value), done),
    {
        let cx: Cx<'a> = self.cx;
        let Some(v) = cx.env.const_of(value) else { return false; };
        self.store_long_const(bp2(off), bp(off), v);
        true
    }

    /// Emits what [`plan_local_long_global`] says, if it applies.
    pub fn try_local_long_global(&mut self, off: i16, value: &'a Expr) -> (done: bool)
        requires
            old(self).cx.env.wf(),
            !(plan_local_long_global(old(self).cx, off, value) is Stuck),
        ensures
            final(self).ran(*old(self), plan_local_long_global(old(self).cx, off, value), done),
    {
        let cx: Cx<'a> = self.cx;
        let ExprKind::Ident(src) = &value.kind else { return false; };
        if !cx.env.is_long_global(src) {
            return false;
        }
        self.copy_long(bp2(off), bp(off), global2(src), global(src));
        true
    }

    /// Emits what [`plan_local_long_call`] says, if it applies.
    pub fn try_local_long_call(&mut self, off: i16, value: &'a Expr) -> (done: bool)
        requires
            old(self).cx.env.wf(),
            !(plan_local_long_call(old(self).cx, off, value) is Stuck),
        ensures
            final(self).ran(*old(self), plan_local_long_call(old(self).cx, off, value), done),
    {
        let cx: Cx<'a> = self.cx;
        let ExprKind::Call { name: _, args: _ } = &value.kind else { return false; };
        self.put(to_ax(cx, value));
        self.store_result(bp2(off), bp(off));
        true
    }

    /// Emits what [`plan_local_long_pair`] says, if it applies.
    pub fn try_local_long_pair(&mut self, off: i16, value: &'a Expr) -> (done: bool)
        requires
            old(self).cx.env.wf(),
            !(plan_local_long_pair(old(self).cx, off, value) is Stuck),
        ensures
            final(self).ran(*old(self), plan_local_long_pair(old(self).cx, off, value), done),
    {
        let cx: Cx<'a> = self.cx;
        let ExprKind::BinOp { op, left, right } = &value.kind else { return false; };
        if !is_direct(*op) {
            return false;
        }
        let ExprKind::Ident(a) = &left.kind else { return false; };
        let ExprKind::Ident(b) = &right.kind else { return false; };
        if !(cx.env.is_long_local(a) && cx.env.is_long_local(b)) {
            return false;
        }
        let Some(a_off) = cx.env.stack_of(a) else { return false; };
        let Some(b_off) = cx.env.stack_of(b) else { return false; };
        self.load_halves(bp2(a_off), bp(a_off));
        self.put(op2(direct(*op), dx(), word(bp(b_off))));
        self.put(op2(direct_high(*op), ax(), word(bp2(b_off))));
        self.store_halves(bp2(off), bp(off));
        true
    }

    /// Emits what [`plan_local_long_local`] says, if it applies.
    pub fn try_local_long_local(&mut self, off: i16, value: &'a Expr) -> (done: bool)
        requires
            old(self).cx.env.wf(),
            !(plan_local_long_local(old(self).cx, off, value) is Stuck),
        ensures
            final(self).ran(*old(self), plan_local_long_local(old(self).cx, off, value), done),
    {
        let cx: Cx<'a> = self.cx;
        let ExprKind::Ident(src) = &value.kind else { return false; };
        if !cx.env.is_long_local(src) {
            return false;
        }
        let Some(from) = cx.env.stack_of(src) else { return false; };
        self.copy_long(bp2(off), bp(off), bp2(from), bp(from));
        true
    }

    /// Emits what [`plan_local_long_mul`] says, if it applies.
    pub fn try_local_long_mul(&mut self, off: i16, value: &'a Expr) -> (done: bool)
        requires
            old(self).cx.env.wf(),
            !(plan_local_long_mul(old(self).cx, off, value) is Stuck),
        ensures
            final(self).ran(*old(self), plan_local_long_mul(old(self).cx, off, value), done),
    {
        let cx: Cx<'a> = self.cx;
        let ExprKind::BinOp { op: BinOp::Mul, left, right } = &value.kind else { return false; };
        let ExprKind::Ident(a) = &left.kind else { return false; };
        let ExprKind::Ident(b) = &right.kind else { return false; };
        if !(cx.env.is_long_local(a) && cx.env.is_long_local(b)) {
            return false;
        }
        let Some(a_off) = cx.env.stack_of(a) else { return false; };
        let Some(b_off) = cx.env.stack_of(b) else { return false; };
        self.multiply_long(bp2(a_off), bp(a_off), bp2(b_off), bp(b_off));
        self.store_result(bp2(off), bp(off));
        true
    }

    /// Emits what [`plan_local_long_div`] says, if it applies.
    pub fn try_local_long_div(&mut self, off: i16, value: &'a Expr) -> (done: bool)
        requires
            old(self).cx.env.wf(),
            !(plan_local_long_div(old(self).cx, off, value) is Stuck),
        ensures
            final(self).ran(*old(self), plan_local_long_div(old(self).cx, off, value), done),
    {
        let cx: Cx<'a> = self.cx;
        let ExprKind::BinOp { op, left, right } = &value.kind else { return false; };
        if !is_division(*op) {
            return false;
        }
        let ExprKind::Ident(a) = &left.kind else { return false; };
        let ExprKind::Ident(b) = &right.kind else { return false; };
        if !(cx.env.is_long_local(a) && cx.env.is_long_local(b)) {
            return false;
        }
        let Some(a_off) = cx.env.stack_of(a) else { return false; };
        let Some(b_off) = cx.env.stack_of(b) else { return false; };
        self.push_long(bp2(b_off), bp(b_off));
        self.push_long(bp2(a_off), bp(a_off));
        self.put(call(divider(*op, cx.env.is_unsigned_local(a) || cx.env.is_unsigned_local(b))));
        self.store_result(bp2(off), bp(off));
        true
    }

    /// Emits what [`plan_local_long_shift_by`] says, if it applies.
    pub fn try_local_long_shift_by(&mut self, off: i16, value: &'a Expr) -> (done: bool)
        requires
            old(self).cx.env.wf(),
            !(plan_local_long_shift_by(old(self).cx, off, value) is Stuck),
        ensures
            final(self).ran(*old(self), plan_local_long_shift_by(old(self).cx, off, value), done),
    {
        let cx: Cx<'a> = self.cx;
        let ExprKind::BinOp { op, left, right } = &value.kind else { return false; };
        if !is_shift(*op) {
            return false;
        }
        let ExprKind::Ident(a) = &left.kind else { return false; };
        let ExprKind::Ident(n) = &right.kind else { return false; };
        if !(cx.env.is_long_local(a) && cx.env.has(n)) {
            return false;
        }
        let Some(a_off) = cx.env.stack_of(a) else { return false; };
        let Some(n_off) = cx.env.stack_of(n) else { return false; };
        self.put(mov(dx(), word(bp2(a_off))));
        self.put(mov(ax(), word(bp(a_off))));
        self.put(mov(cl(), byte(bp(n_off))));
        self.put(call(shifter(*op, cx.env.is_unsigned_local(a))));
        self.store_result(bp2(off), bp(off));
        true
    }

    /// Emits what [`plan_local_long_neg`] says, if it applies.
    pub fn try_local_long_neg(&mut self, off: i16, value: &'a Expr) -> (done: bool)
        requires
            old(self).cx.env.wf(),
            !(plan_local_long_neg(old(self).cx, off, value) is Stuck),
        ensures
            final(self).ran(*old(self), plan_local_long_neg(old(self).cx, off, value), done),
    {
        let cx: Cx<'a> = self.cx;
        let ExprKind::Unary { op: UnaryOp::Neg, operand } = &value.kind else { return false; };
        let ExprKind::Ident(a) = &operand.kind else { return false; };
        if !cx.env.is_long_local(a) {
            return false;
        }
        let Some(from) = cx.env.stack_of(a) else { return false; };
        self.load_halves(bp2(from), bp(from));
        self.negate_halves();
        self.store_halves(bp2(off), bp(off));
        true
    }

    /// Emits what [`plan_local_long_not`] says, if it applies.
    pub fn try_local_long_not(&mut self, off: i16, value: &'a Expr) -> (done: bool)
        requires
            old(self).cx.env.wf(),
            !(plan_local_long_not(old(self).cx, off, value) is Stuck),
        ensures
            final(self).ran(*old(self), plan_local_long_not(old(self).cx, off, value), done),
    {
        let cx: Cx<'a> = self.cx;
        let ExprKind::Unary { op: UnaryOp::BitNot, operand } = &value.kind else { return false; };
        let ExprKind::Ident(a) = &operand.kind else { return false; };
        if !cx.env.is_long_local(a) {
            return false;
        }
        let Some(from) = cx.env.stack_of(a) else { return false; };
        self.load_halves(bp2(from), bp(from));
        self.put(op1(Mnemonic::Not, dx()));
        self.put(op1(Mnemonic::Not, ax()));
        self.store_halves(bp2(off), bp(off));
        true
    }

    /// Emits what [`plan_local_long_shift_word`] says, if it applies.
    pub fn try_local_long_shift_word(&mut self, off: i16, value: &'a Expr) -> (done: bool)
        requires
            old(self).cx.env.wf(),
            !(plan_local_long_shift_word(old(self).cx, off, value) is Stuck),
        ensures
            final(self).ran(
                *old(self),
                plan_local_long_shift_word(old(self).cx, off, value),
                done,
            ),
    {
        let cx: Cx<'a> = self.cx;
        let ExprKind::BinOp { op: BinOp::Shl, left, right } = &value.kind else { return false; };
        let Some((_, lo)) = &cx.env.facts(&**left).long_addrs else { return false; };
        let Some(k) = cx.env.const_of(&**right) else { return false; };
        if !(k == 16) {
            return false;
        }
        self.put(mov(ax(), word(named(lo))));
        self.put(mov(word(bp2(off)), ax()));
        self.put(mov(word(bp(off)), imm(0)));
        true
    }

    /// Emits what [`plan_local_long_shift_const`] says, if it applies.
    pub fn try_local_long_shift_const(&mut self, off: i16, value: &'a Expr) -> (done: bool)
        requires
            old(self).cx.env.wf(),
            !(plan_local_long_shift_const(old(self).cx, off, value) is Stuck),
        ensures
            final(self).ran(
                *old(self),
                plan_local_long_shift_const(old(self).cx, off, value),
                done,
            ),
    {
        let cx: Cx<'a> = self.cx;
        let ExprKind::BinOp { op, left, right } = &value.kind else { return false; };
        if !is_shift(*op) {
            return false;
        }
        let Some((hi, lo)) = &cx.env.facts(&**left).long_addrs else { return false; };
        let Some(k) = cx.env.const_of(&**right) else { return false; };
        if !(cx.env.knows_ident(&**left)) {
            return false;
        }
        self.put(mov(dx(), word(named(hi))));
        self.put(mov(ax(), word(named(lo))));
        self.put(mov(cl(), imm(lo8(k))));
        self.put(call(shifter(*op, cx.env.expr_is_unsigned(&**left))));
        self.store_result(bp2(off), bp(off));
        true
    }

    /// Emits what [`plan_local_long_deref`] says, if it applies.
    pub fn try_local_long_deref(&mut self, off: i16, value: &'a Expr) -> (done: bool)
        requires
            old(self).cx.env.wf(),
            !(plan_local_long_deref(old(self).cx, off, value) is Stuck),
        ensures
            final(self).ran(*old(self), plan_local_long_deref(old(self).cx, off, value), done),
    {
        let cx: Cx<'a> = self.cx;
        let ExprKind::Deref(inner) = &value.kind else { return false; };
        let ExprKind::Update { target, op: UpdateOp::Inc, position: UpdatePosition::Post } = &inner.kind else { return false; };
        let Some(t) = cx.env.local_pointee(target) else { return false; };
        if !t.is_long_like() {
            return false;
        }
        let Some(reg) = cx.env.reg_of(target) else { return false; };
        self.copy_long(bp2(off), bp(off), at2(reg), at(reg));
        self.put(add_to(r(reg), imm(4)));
        true
    }

    /// Emits what [`plan_local_long_widen`] says, if it applies.
    pub fn try_local_long_widen(&mut self, off: i16, value: &'a Expr) -> (done: bool)
        requires
            old(self).cx.env.wf(),
            !(plan_local_long_widen(old(self).cx, off, value) is Stuck),
        ensures
            final(self).ran(*old(self), plan_local_long_widen(old(self).cx, off, value), done),
    {
        let cx: Cx<'a> = self.cx;
        if !(!cx.env.expr_is_long_like(value)) {
            return false;
        }
        self.put(to_ax(cx, value));
        self.put(widen_long(cx.env.facts(value).unsigned_int));
        self.store_result(bp2(off), bp(off));
        true
    }

    /// Emits what [`plan_local_long_combined`] says, if it applies.
    pub fn try_local_long_combined(&mut self, off: i16, value: &'a Expr) -> (done: bool)
        requires
            old(self).cx.env.wf(),
            !(plan_local_long_combined(old(self).cx, off, value) is Stuck),
        ensures
            final(self).ran(*old(self), plan_local_long_combined(old(self).cx, off, value), done),
    {
        let cx: Cx<'a> = self.cx;
        let Some((hi, lo)) = &cx.env.facts(value).combined else { return false; };
        self.put(mov(ax(), word(named(hi))));
        self.put(cwd());
        self.put(clear(Reg::Dx));
        self.put(or_to(dx(), word(named(lo))));
        self.put(or_to(ax(), imm(0)));
        self.store_halves(bp2(off), bp(off));
        true
    }

    /// A 32-bit local variable.
    pub fn assign_local_long(&mut self, off: i16, value: &'a Expr)
        requires
            old(self).cx.env.wf(),
            plan_assign_local_long(old(self).cx, off, value) is Emit,
        ensures
            final(self).wrote(*old(self), plan_assign_local_long(old(self).cx, off, value)),
    {
        if self.try_local_long_const(off, value) {
            return;
        }
        if self.try_local_long_global(off, value) {
            return;
        }
        if self.try_local_long_call(off, value) {
            return;
        }
        if self.try_local_long_pair(off, value) {
            return;
        }
        if self.try_local_long_local(off, value) {
            return;
        }
        if self.try_local_long_mul(off, value) {
            return;
        }
        if self.try_local_long_div(off, value) {
            return;
        }
        if self.try_local_long_shift_by(off, value) {
            return;
        }
        if self.try_local_long_neg(off, value) {
            return;
        }
        if self.try_local_long_not(off, value) {
            return;
        }
        if self.try_local_long_shift_word(off, value) {
            return;
        }
        if self.try_local_long_shift_const(off, value) {
            return;
        }
        if self.try_local_long_deref(off, value) {
            return;
        }
        if self.try_local_long_widen(off, value) {
            return;
        }
        if self.try_local_long_combined(off, value) {
            return;
        }
        return;
    }

    /// Emits what [`plan_local_const`] says, if it applies.
    pub fn try_local_const(&mut self, off: i16, ty: &'a Type, value: &'a Expr) -> (done: bool)
        requires
            old(self).cx.env.wf(),
            !(plan_local_const(old(self).cx, off, ty, value) is Stuck),
        ensures
            final(self).ran(*old(self), plan_local_const(old(self).cx, off, ty, value), done),
    {
        let cx: Cx<'a> = self.cx;
        let Some(v) = cx.env.const_of(value) else { return false; };
        self.put(mov(sized(ty.is_char_like(), bp(off)), imm(masked(v, ty.is_char_like()))));
        true
    }

    /// Emits what [`plan_local_char_choice`] says, if it applies.
    pub fn try_local_char_choice(
        &mut self,
        off: i16,
        ty: &'a Type,
        value: &'a Expr,
    ) -> (done: bool)
        requires
            old(self).cx.env.wf(),
            !(plan_local_char_choice(old(self).cx, off, ty, value) is Stuck),
        ensures
            final(self).ran(
                *old(self),
                plan_local_char_choice(old(self).cx, off, ty, value),
                done,
            ),
    {
        let cx: Cx<'a> = self.cx;
        if !ty.is_char_like() {
            return false;
        }
        let ExprKind::Ternary { cond, then_value, else_value } = &value.kind else { return false; };
        let Some(yes) = cx.env.const_of(&**then_value) else { return false; };
        let Some(no) = cx.env.const_of(&**else_value) else { return false; };
        let Some(base) = cx.env.facts(value).label_base else { return false; };
        if !(base <= 0xFFFF_FFFD) {
            return false;
        }
        self.emit_cond_branch(&**cond, top_or_label(&**cond, base), Some(label_after(base, 1)));
        if top_or_label(&**cond, base).is_some() {
            self.put(Step::Label(base));
        }
        self.put(mov(al(), imm(lo8(yes))));
        self.put(Step::Goto(label_after(base, 2)));
        self.put(Step::Label(label_after(base, 1)));
        self.put(mov(al(), imm(lo8(no))));
        self.put(Step::Label(label_after(base, 2)));
        self.put(mov(byte(bp(off)), al()));
        true
    }

    /// Emits what [`plan_local_word_deref`] says, if it applies.
    pub fn try_local_word_deref(
        &mut self,
        off: i16,
        ty: &'a Type,
        value: &'a Expr,
    ) -> (done: bool)
        requires
            old(self).cx.env.wf(),
            !(plan_local_word_deref(old(self).cx, off, ty, value) is Stuck),
        ensures
            final(self).ran(
                *old(self),
                plan_local_word_deref(old(self).cx, off, ty, value),
                done,
            ),
    {
        let cx: Cx<'a> = self.cx;
        if !(!ty.is_char_like()) {
            return false;
        }
        let ExprKind::Deref(inner) = &value.kind else { return false; };
        let ExprKind::Update { target, op, position: UpdatePosition::Post } = &inner.kind else { return false; };
        let Some(reg) = cx.env.reg_of(target) else { return false; };
        let Some(t) = cx.env.local_pointee(target) else { return false; };
        if !t.is_int_like() {
            return false;
        }
        self.put(mov(ax(), word(at(reg))));
        self.put(mov(word(bp(off)), ax()));
        self.put_times(op1(update(*op), r(reg)), t.size_bytes() as u64);
        true
    }

    /// Emits what [`plan_local_char_deref`] says, if it applies.
    pub fn try_local_char_deref(
        &mut self,
        off: i16,
        ty: &'a Type,
        value: &'a Expr,
    ) -> (done: bool)
        requires
            old(self).cx.env.wf(),
            !(plan_local_char_deref(old(self).cx, off, ty, value) is Stuck),
        ensures
            final(self).ran(
                *old(self),
                plan_local_char_deref(old(self).cx, off, ty, value),
                done,
            ),
    {
        let cx: Cx<'a> = self.cx;
        if !ty.is_char_like() {
            return false;
        }
        let ExprKind::Deref(inner) = &value.kind else { return false; };
        let ExprKind::Update { target, op, position: UpdatePosition::Post } = &inner.kind else { return false; };
        let Some(reg) = cx.env.reg_of(target) else { return false; };
        let Some(t) = cx.env.local_pointee(target) else { return false; };
        if !t.is_char_like() {
            return false;
        }
        self.put(mov(al(), byte(at(reg))));
        self.put(mov(byte(bp(off)), al()));
        self.put(op1(update(*op), r(reg)));
        true
    }

    /// Emits what [`plan_local_pre_register`] says, if it applies.
    pub fn try_local_pre_register(&mut self, off: i16, value: &'a Expr) -> (done: bool)
        requires
            old(self).cx.env.wf(),
            !(plan_local_pre_register(old(self).cx, off, value) is Stuck),
        ensures
            final(self).ran(*old(self), plan_local_pre_register(old(self).cx, off, value), done),
    {
        let cx: Cx<'a> = self.cx;
        let ExprKind::Update { target, op, position: UpdatePosition::Pre } = &value.kind else { return false; };
        let Some(reg) = cx.env.word_reg_of(target) else { return false; };
        self.put(op1(update(*op), r(reg)));
        self.put(mov(word(bp(off)), r(reg)));
        true
    }

    /// Emits what [`plan_local_post_tail`] says, if it applies.
    pub fn try_local_post_tail(&mut self, off: i16, ty: &'a Type, value: &'a Expr) -> (done: bool)
        requires
            old(self).cx.env.wf(),
            !(plan_local_post_tail(old(self).cx, off, ty, value) is Stuck),
        ensures
            final(self).ran(*old(self), plan_local_post_tail(old(self).cx, off, ty, value), done),
    {
        let cx: Cx<'a> = self.cx;
        if !(!ty.is_char_like()) {
            return false;
        }
        let ExprKind::Update { target, op, position: UpdatePosition::Post } = &comma_tail(value).kind else { return false; };
        let Some(reg) = cx.env.word_reg_of(target) else { return false; };
        if !(cx.env.is_int_local(target) && local_moves_by_one(cx.env, target)) {
            return false;
        }
        self.discard_heads(value);
        self.put(mov(word(bp(off)), r(reg)));
        self.put(op1(update(*op), r(reg)));
        true
    }

    /// Emits what [`plan_local_mod`] says, if it applies.
    pub fn try_local_mod(&mut self, off: i16, ty: &'a Type, value: &'a Expr) -> (done: bool)
        requires
            old(self).cx.env.wf(),
            !(plan_local_mod(old(self).cx, off, ty, value) is Stuck),
        ensures
            final(self).ran(*old(self), plan_local_mod(old(self).cx, off, ty, value), done),
    {
        let ExprKind::BinOp { op: BinOp::Mod, left, right } = &value.kind else { return false; };
        if !(!ty.is_char_like()) {
            return false;
        }
        self.put(Step::Remainder(&**left, &**right));
        self.put(mov(word(bp(off)), dx()));
        true
    }

    /// Copies one byte by way of `al`.
    pub fn copy_byte(&mut self, to: Addr<'a>, from: Addr<'a>)
        requires
            old(self).cx.env.wf(),
            plan_copy_byte(old(self).cx, to, from) is Emit,
        ensures
            final(self).wrote(*old(self), plan_copy_byte(old(self).cx, to, from)),
    {
        self.put(mov(al(), byte(from)));
        self.put(mov(byte(to), al()));
    }

    /// Emits what [`plan_local_char_global_elem`] says, if it applies.
    pub fn try_local_char_global_elem(
        &mut self,
        off: i16,
        ty: &'a Type,
        value: &'a Expr,
    ) -> (done: bool)
        requires
            old(self).cx.env.wf(),
            !(plan_local_char_global_elem(old(self).cx, off, ty, value) is Stuck),
        ensures
            final(self).ran(
                *old(self),
                plan_local_char_global_elem(old(self).cx, off, ty, value),
                done,
            ),
    {
        let cx: Cx<'a> = self.cx;
        if !ty.is_char_like() {
            return false;
        }
        let ExprKind::ArrayIndex { array, index } = &value.kind else { return false; };
        let ExprKind::Ident(arr) = &array.kind else { return false; };
        let Some(t) = cx.env.global_elem(arr) else { return false; };
        if !t.is_char_like() {
            return false;
        }
        let Some(k) = cx.env.const_of(&**index) else { return false; };
        self.copy_byte(bp(off), global_at(arr, plus(scaled(k, 1) as i64)));
        true
    }

    /// Emits what [`plan_local_char_local_elem`] says, if it applies.
    pub fn try_local_char_local_elem(
        &mut self,
        off: i16,
        ty: &'a Type,
        value: &'a Expr,
    ) -> (done: bool)
        requires
            old(self).cx.env.wf(),
            !(plan_local_char_local_elem(old(self).cx, off, ty, value) is Stuck),
        ensures
            final(self).ran(
                *old(self),
                plan_local_char_local_elem(old(self).cx, off, ty, value),
                done,
            ),
    {
        let cx: Cx<'a> = self.cx;
        if !ty.is_char_like() {
            return false;
        }
        let ExprKind::ArrayIndex { array, index } = &value.kind else { return false; };
        let ExprKind::Ident(arr) = &array.kind else { return false; };
        let Some(t) = cx.env.local_elem(arr) else { return false; };
        if !t.is_char_like() {
            return false;
        }
        let Some(k) = cx.env.const_of(&**index) else { return false; };
        let Some(base) = cx.env.stack_of(arr) else { return false; };
        self.copy_byte(bp(off), bp_plus(base, sat16(scaled(k, 1))));
        true
    }

    /// Emits what [`plan_local_char_member`] says, if it applies.
    pub fn try_local_char_member(
        &mut self,
        off: i16,
        ty: &'a Type,
        value: &'a Expr,
    ) -> (done: bool)
        requires
            old(self).cx.env.wf(),
            !(plan_local_char_member(old(self).cx, off, ty, value) is Stuck),
        ensures
            final(self).ran(
                *old(self),
                plan_local_char_member(old(self).cx, off, ty, value),
                done,
            ),
    {
        let cx: Cx<'a> = self.cx;
        if !ty.is_char_like() {
            return false;
        }
        let ExprKind::Member { base: _, field: _, kind: MemberKind::Dot } = &value.kind else { return false; };
        let Some(chain) = &cx.env.facts(value).dot_chain else { return false; };
        if !chain.ty.is_char_like() {
            return false;
        }
        if cx.env.is_global(&chain.name) {
            self.copy_byte(bp(off), global_at(&chain.name, plus(chain.off as i64)));
            return true;
        } else {
            if !cx.env.has(&chain.name) {
                return false;
            }
            let Some(base) = cx.env.stack_of(&chain.name) else { return false; };
            self.copy_byte(bp(off), bp_plus(base, sat16(chain.off)));
            return true;
        }
    }

    /// Emits what [`plan_local_char_call`] says, if it applies.
    pub fn try_local_char_call(&mut self, off: i16, ty: &'a Type, value: &'a Expr) -> (done: bool)
        requires
            old(self).cx.env.wf(),
            !(plan_local_char_call(old(self).cx, off, ty, value) is Stuck),
        ensures
            final(self).ran(*old(self), plan_local_char_call(old(self).cx, off, ty, value), done),
    {
        let cx: Cx<'a> = self.cx;
        if !ty.is_char_like() {
            return false;
        }
        let ExprKind::Call { name: f, args } = &value.kind else { return false; };
        let Some(ret) = cx.env.ret_ty_of(f) else { return false; };
        if !ret.is_char_like() {
            return false;
        }
        self.put(Step::CallFn(f, args));
        self.put(mov(byte(bp(off)), al()));
        true
    }

    /// Emits what [`plan_local_char_narrow`] says, if it applies.
    pub fn try_local_char_narrow(
        &mut self,
        off: i16,
        ty: &'a Type,
        value: &'a Expr,
    ) -> (done: bool)
        requires
            old(self).cx.env.wf(),
            !(plan_local_char_narrow(old(self).cx, off, ty, value) is Stuck),
        ensures
            final(self).ran(
                *old(self),
                plan_local_char_narrow(old(self).cx, off, ty, value),
                done,
            ),
    {
        let cx: Cx<'a> = self.cx;
        if !ty.is_char_like() {
            return false;
        }
        let ExprKind::Cast { ty: to, operand } = &value.kind else { return false; };
        if !to.is_char_like() {
            return false;
        }
        let ExprKind::Ident(src) = &operand.kind else { return false; };
        let Some(addr) = frame_or_global(cx.env, src) else { return false; };
        self.copy_byte(bp(off), addr);
        true
    }

    /// Emits what [`plan_local_char_arith`] says, if it applies.
    pub fn try_local_char_arith(
        &mut self,
        off: i16,
        ty: &'a Type,
        value: &'a Expr,
    ) -> (done: bool)
        requires
            old(self).cx.env.wf(),
            !(plan_local_char_arith(old(self).cx, off, ty, value) is Stuck),
        ensures
            final(self).ran(
                *old(self),
                plan_local_char_arith(old(self).cx, off, ty, value),
                done,
            ),
    {
        let cx: Cx<'a> = self.cx;
        if !ty.is_char_like() {
            return false;
        }
        let ExprKind::Cast { ty: to, operand } = &value.kind else { return false; };
        if !to.is_char_like() {
            return false;
        }
        let ExprKind::BinOp { op, left, right } = &operand.kind else { return false; };
        if !is_direct(*op) {
            return false;
        }
        let ExprKind::Ident(src) = &left.kind else { return false; };
        let Some(k) = cx.env.const_of(&**right) else { return false; };
        let Some(addr) = frame_or_global(cx.env, src) else { return false; };
        self.put(mov(al(), byte(addr)));
        self.put(op2(direct(*op), al(), imm(lo8(k))));
        self.put(mov(byte(bp(off)), al()));
        true
    }

    /// Emits what [`plan_local_char_copy`] says, if it applies.
    pub fn try_local_char_copy(&mut self, off: i16, ty: &'a Type, value: &'a Expr) -> (done: bool)
        requires
            old(self).cx.env.wf(),
            !(plan_local_char_copy(old(self).cx, off, ty, value) is Stuck),
        ensures
            final(self).ran(*old(self), plan_local_char_copy(old(self).cx, off, ty, value), done),
    {
        let cx: Cx<'a> = self.cx;
        if !ty.is_char_like() {
            return false;
        }
        let ExprKind::Ident(src) = &value.kind else { return false; };
        if !(is_char_variable(cx.env, src)) {
            return false;
        }
        let Some(addr) = frame_or_global(cx.env, src) else { return false; };
        self.copy_byte(bp(off), addr);
        true
    }

    /// Emits what [`plan_local_address`] says, if it applies.
    pub fn try_local_address(&mut self, off: i16, ty: &'a Type, value: &'a Expr) -> (done: bool)
        requires
            old(self).cx.env.wf(),
            !(plan_local_address(old(self).cx, off, ty, value) is Stuck),
        ensures
            final(self).ran(*old(self), plan_local_address(old(self).cx, off, ty, value), done),
    {
        let cx: Cx<'a> = self.cx;
        if !(!ty.is_char_like()) {
            return false;
        }
        let ExprKind::AddressOf(sym) = &value.kind else { return false; };
        if !cx.env.is_global(sym) {
            return false;
        }
        self.put(mov(word(bp(off)), offset_of(sym, Disp::Zero)));
        true
    }

    /// Emits what [`plan_local_array`] says, if it applies.
    pub fn try_local_array(&mut self, off: i16, ty: &'a Type, value: &'a Expr) -> (done: bool)
        requires
            old(self).cx.env.wf(),
            !(plan_local_array(old(self).cx, off, ty, value) is Stuck),
        ensures
            final(self).ran(*old(self), plan_local_array(old(self).cx, off, ty, value), done),
    {
        let cx: Cx<'a> = self.cx;
        if !ty.pointee().is_some() {
            return false;
        }
        let ExprKind::Ident(sym) = &value.kind else { return false; };
        if !cx.env.global_elem(sym).is_some() {
            return false;
        }
        self.put(mov(word(bp(off)), offset_of(sym, Disp::Zero)));
        true
    }

    /// Emits what [`plan_local_post_global_word`] says, if it applies.
    pub fn try_local_post_global_word(
        &mut self,
        off: i16,
        ty: &'a Type,
        value: &'a Expr,
    ) -> (done: bool)
        requires
            old(self).cx.env.wf(),
            !(plan_local_post_global_word(old(self).cx, off, ty, value) is Stuck),
        ensures
            final(self).ran(
                *old(self),
                plan_local_post_global_word(old(self).cx, off, ty, value),
                done,
            ),
    {
        let cx: Cx<'a> = self.cx;
        if !(!ty.is_char_like()) {
            return false;
        }
        let ExprKind::Update { target, op, position: UpdatePosition::Post } = &value.kind else { return false; };
        let Some(gty) = cx.env.global_type(target) else { return false; };
        if !(is_plain_int(gty) || gty.pointee().is_some()) {
            return false;
        }
        if !moves_by_one(gty) {
            return false;
        }
        self.put(mov(ax(), word(global(target))));
        self.put(mov(word(bp(off)), ax()));
        self.put(op1(update(*op), word(global(target))));
        true
    }

    /// Emits what [`plan_local_post_global_char`] says, if it applies.
    pub fn try_local_post_global_char(
        &mut self,
        off: i16,
        ty: &'a Type,
        value: &'a Expr,
    ) -> (done: bool)
        requires
            old(self).cx.env.wf(),
            !(plan_local_post_global_char(old(self).cx, off, ty, value) is Stuck),
        ensures
            final(self).ran(
                *old(self),
                plan_local_post_global_char(old(self).cx, off, ty, value),
                done,
            ),
    {
        let cx: Cx<'a> = self.cx;
        if !(!ty.is_char_like()) {
            return false;
        }
        let ExprKind::Update { target, op, position: UpdatePosition::Post } = &value.kind else { return false; };
        let Some(gty) = cx.env.global_type(target) else { return false; };
        if !gty.is_char_like() {
            return false;
        }
        self.put(mov(al(), byte(global(target))));
        self.put(widen(gty.is_unsigned()));
        self.put(mov(word(bp(off)), ax()));
        self.put(op1(update(*op), byte(global(target))));
        true
    }

    /// Emits what [`plan_local_post_register`] says, if it applies.
    pub fn try_local_post_register(
        &mut self,
        off: i16,
        ty: &'a Type,
        value: &'a Expr,
    ) -> (done: bool)
        requires
            old(self).cx.env.wf(),
            !(plan_local_post_register(old(self).cx, off, ty, value) is Stuck),
        ensures
            final(self).ran(
                *old(self),
                plan_local_post_register(old(self).cx, off, ty, value),
                done,
            ),
    {
        let cx: Cx<'a> = self.cx;
        if !(!ty.is_char_like()) {
            return false;
        }
        let ExprKind::Update { target, op, position: UpdatePosition::Post } = &value.kind else { return false; };
        let Some(reg) = cx.env.word_reg_of(target) else { return false; };
        if !(local_moves_by_one(cx.env, target)) {
            return false;
        }
        self.put(mov(word(bp(off)), r(reg)));
        self.put(op1(update(*op), r(reg)));
        true
    }

    /// Emits what [`plan_local_post_byte_widen`] says, if it applies.
    pub fn try_local_post_byte_widen(
        &mut self,
        off: i16,
        ty: &'a Type,
        value: &'a Expr,
    ) -> (done: bool)
        requires
            old(self).cx.env.wf(),
            !(plan_local_post_byte_widen(old(self).cx, off, ty, value) is Stuck),
        ensures
            final(self).ran(
                *old(self),
                plan_local_post_byte_widen(old(self).cx, off, ty, value),
                done,
            ),
    {
        let cx: Cx<'a> = self.cx;
        if !(!ty.is_char_like()) {
            return false;
        }
        let ExprKind::Update { target, op, position: UpdatePosition::Post } = &value.kind else { return false; };
        let Some(reg) = byte_reg_of(cx.env, target) else { return false; };
        self.put(mov(al(), r(reg)));
        self.put(widen(cx.env.is_unsigned_local(target)));
        self.put(mov(word(bp(off)), ax()));
        self.put(op1(update(*op), r(reg)));
        true
    }

    /// Emits what [`plan_local_pre_byte_widen`] says, if it applies.
    pub fn try_local_pre_byte_widen(
        &mut self,
        off: i16,
        ty: &'a Type,
        value: &'a Expr,
    ) -> (done: bool)
        requires
            old(self).cx.env.wf(),
            !(plan_local_pre_byte_widen(old(self).cx, off, ty, value) is Stuck),
        ensures
            final(self).ran(
                *old(self),
                plan_local_pre_byte_widen(old(self).cx, off, ty, value),
                done,
            ),
    {
        let cx: Cx<'a> = self.cx;
        if !(!ty.is_char_like()) {
            return false;
        }
        let ExprKind::Update { target, op, position: UpdatePosition::Pre } = &value.kind else { return false; };
        let Some(reg) = byte_reg_of(cx.env, target) else { return false; };
        self.put(mov(al(), r(reg)));
        self.put(op1(update(*op), al()));
        self.put(mov(r(reg), al()));
        self.put(widen(cx.env.is_unsigned_local(target)));
        self.put(mov(word(bp(off)), ax()));
        true
    }

    /// Emits what [`plan_local_post_byte`] says, if it applies.
    pub fn try_local_post_byte(&mut self, off: i16, ty: &'a Type, value: &'a Expr) -> (done: bool)
        requires
            old(self).cx.env.wf(),
            !(plan_local_post_byte(old(self).cx, off, ty, value) is Stuck),
        ensures
            final(self).ran(*old(self), plan_local_post_byte(old(self).cx, off, ty, value), done),
    {
        let cx: Cx<'a> = self.cx;
        if !ty.is_char_like() {
            return false;
        }
        let ExprKind::Update { target, op, position: UpdatePosition::Post } = &value.kind else { return false; };
        let Some(reg) = byte_reg_of(cx.env, target) else { return false; };
        self.put(mov(al(), r(reg)));
        self.put(mov(byte(bp(off)), al()));
        self.put(op1(update(*op), r(reg)));
        true
    }

    /// Emits what [`plan_local_pre_byte`] says, if it applies.
    pub fn try_local_pre_byte(&mut self, off: i16, ty: &'a Type, value: &'a Expr) -> (done: bool)
        requires
            old(self).cx.env.wf(),
            !(plan_local_pre_byte(old(self).cx, off, ty, value) is Stuck),
        ensures
            final(self).ran(*old(self), plan_local_pre_byte(old(self).cx, off, ty, value), done),
    {
        let cx: Cx<'a> = self.cx;
        if !ty.is_char_like() {
            return false;
        }
        let ExprKind::Update { target, op, position: UpdatePosition::Pre } = &value.kind else { return false; };
        let Some(reg) = byte_reg_of(cx.env, target) else { return false; };
        self.put(mov(al(), r(reg)));
        self.put(op1(update(*op), al()));
        self.put(mov(r(reg), al()));
        self.put(mov(byte(bp(off)), al()));
        true
    }

    /// Emits what [`plan_local_int_register`] says, if it applies.
    pub fn try_local_int_register(
        &mut self,
        off: i16,
        ty: &'a Type,
        value: &'a Expr,
    ) -> (done: bool)
        requires
            old(self).cx.env.wf(),
            !(plan_local_int_register(old(self).cx, off, ty, value) is Stuck),
        ensures
            final(self).ran(
                *old(self),
                plan_local_int_register(old(self).cx, off, ty, value),
                done,
            ),
    {
        let cx: Cx<'a> = self.cx;
        if !is_int(ty) {
            return false;
        }
        let ExprKind::Ident(src) = &value.kind else { return false; };
        let Some(reg) = cx.env.word_reg_of(src) else { return false; };
        let Some(sty) = cx.env.local_type(src) else { return false; };
        if !is_int(sty) {
            return false;
        }
        self.put(mov(word(bp(off)), r(reg)));
        true
    }

    /// Emits what [`plan_local_elem_address`] says, if it applies.
    pub fn try_local_elem_address(
        &mut self,
        off: i16,
        ty: &'a Type,
        value: &'a Expr,
    ) -> (done: bool)
        requires
            old(self).cx.env.wf(),
            !(plan_local_elem_address(old(self).cx, off, ty, value) is Stuck),
        ensures
            final(self).ran(
                *old(self),
                plan_local_elem_address(old(self).cx, off, ty, value),
                done,
            ),
    {
        let cx: Cx<'a> = self.cx;
        if !ty.pointee().is_some() {
            return false;
        }
        let ExprKind::AddressOfArrayElem { array, byte_offset } = &value.kind else { return false; };
        if !cx.env.is_global(array) {
            return false;
        }
        self.put(mov(word(bp(off)), offset_of(array, plus(*byte_offset as i64))));
        true
    }

    /// Emits what [`plan_local_array_plus`] says, if it applies.
    pub fn try_local_array_plus(
        &mut self,
        off: i16,
        ty: &'a Type,
        value: &'a Expr,
    ) -> (done: bool)
        requires
            old(self).cx.env.wf(),
            !(plan_local_array_plus(old(self).cx, off, ty, value) is Stuck),
        ensures
            final(self).ran(
                *old(self),
                plan_local_array_plus(old(self).cx, off, ty, value),
                done,
            ),
    {
        let cx: Cx<'a> = self.cx;
        if !ty.pointee().is_some() {
            return false;
        }
        let ExprKind::BinOp { op: BinOp::Add, left, right } = &value.kind else { return false; };
        let ExprKind::Ident(arr) = &left.kind else { return false; };
        let Some(t) = cx.env.global_elem(arr) else { return false; };
        let Some(k) = cx.env.const_of(&**right) else { return false; };
        self.put(mov(word(bp(off)), offset_of(arr, plus(lo16(uscaled(k, t.size_bytes()))))));
        true
    }

    /// Emits what [`plan_local_general`] says, if it applies.
    pub fn try_local_general(&mut self, off: i16, ty: &'a Type, value: &'a Expr) -> (done: bool)
        requires
            old(self).cx.env.wf(),
            !(plan_local_general(old(self).cx, off, ty, value) is Stuck),
        ensures
            final(self).ran(*old(self), plan_local_general(old(self).cx, off, ty, value), done),
    {
        let cx: Cx<'a> = self.cx;
        if ty.is_char_like() {
            self.put(to_ax(cx, value));
            self.put(mov(byte(bp(off)), al()));
            return true;
        } else {
            self.put(to_ax(cx, value));
            self.put(Step::StoreCollapsed(word(bp(off))));
            return true;
        }
    }

    /// Emits what [`plan_local_struct`] says, if it applies.
    pub fn try_local_struct(&mut self, off: i16, ty: &'a Type, value: &'a Expr) -> (done: bool)
        requires
            old(self).cx.env.wf(),
            ty.is_countable(),
            !(plan_local_struct(old(self).cx, off, ty, value) is Stuck),
        ensures
            final(self).ran(*old(self), plan_local_struct(old(self).cx, off, ty, value), done),
    {
        if self.try_local_struct_copy(off, ty, value) {
            return true;
        }
        if self.try_local_struct_call(off, ty, value) {
            return true;
        }
        if self.try_local_struct_hidden(off, ty, value) {
            return true;
        }
        false
    }

    /// Emits what [`plan_local_updates`] says, if it applies.
    pub fn try_local_updates(&mut self, off: i16, ty: &'a Type, value: &'a Expr) -> (done: bool)
        requires
            old(self).cx.env.wf(),
            !(plan_local_updates(old(self).cx, off, ty, value) is Stuck),
        ensures
            final(self).ran(*old(self), plan_local_updates(old(self).cx, off, ty, value), done),
    {
        if self.try_local_const(off, ty, value) {
            return true;
        }
        if self.try_local_char_choice(off, ty, value) {
            return true;
        }
        if self.try_local_word_deref(off, ty, value) {
            return true;
        }
        if self.try_local_char_deref(off, ty, value) {
            return true;
        }
        if self.try_local_pre_register(off, value) {
            return true;
        }
        if self.try_local_post_tail(off, ty, value) {
            return true;
        }
        if self.try_local_mod(off, ty, value) {
            return true;
        }
        false
    }

    /// Emits what [`plan_local_chars`] says, if it applies.
    pub fn try_local_chars(&mut self, off: i16, ty: &'a Type, value: &'a Expr) -> (done: bool)
        requires
            old(self).cx.env.wf(),
            !(plan_local_chars(old(self).cx, off, ty, value) is Stuck),
        ensures
            final(self).ran(*old(self), plan_local_chars(old(self).cx, off, ty, value), done),
    {
        if self.try_local_char_global_elem(off, ty, value) {
            return true;
        }
        if self.try_local_char_local_elem(off, ty, value) {
            return true;
        }
        if self.try_local_char_member(off, ty, value) {
            return true;
        }
        if self.try_local_char_call(off, ty, value) {
            return true;
        }
        if self.try_local_char_narrow(off, ty, value) {
            return true;
        }
        if self.try_local_char_arith(off, ty, value) {
            return true;
        }
        if self.try_local_char_copy(off, ty, value) {
            return true;
        }
        false
    }

    /// Emits what [`plan_local_words`] says, if it applies.
    pub fn try_local_words(&mut self, off: i16, ty: &'a Type, value: &'a Expr) -> (done: bool)
        requires
            old(self).cx.env.wf(),
            !(plan_local_words(old(self).cx, off, ty, value) is Stuck),
        ensures
            final(self).ran(*old(self), plan_local_words(old(self).cx, off, ty, value), done),
    {
        if self.try_local_address(off, ty, value) {
            return true;
        }
        if self.try_local_array(off, ty, value) {
            return true;
        }
        if self.try_local_post_global_word(off, ty, value) {
            return true;
        }
        if self.try_local_post_global_char(off, ty, value) {
            return true;
        }
        if self.try_local_post_register(off, ty, value) {
            return true;
        }
        if self.try_local_post_byte_widen(off, ty, value) {
            return true;
        }
        if self.try_local_pre_byte_widen(off, ty, value) {
            return true;
        }
        if self.try_local_post_byte(off, ty, value) {
            return true;
        }
        if self.try_local_pre_byte(off, ty, value) {
            return true;
        }
        if self.try_local_int_register(off, ty, value) {
            return true;
        }
        if self.try_local_elem_address(off, ty, value) {
            return true;
        }
        if self.try_local_array_plus(off, ty, value) {
            return true;
        }
        false
    }

    /// A variable on the stack.
    pub fn assign_stack_local(&mut self, off: i16, ty: &'a Type, value: &'a Expr)
        requires
            old(self).cx.env.wf(),
            ty.is_countable(),
            plan_assign_stack_local(old(self).cx, off, ty, value) is Emit,
        ensures
            final(self).wrote(*old(self), plan_assign_stack_local(old(self).cx, off, ty, value)),
    {
        if self.try_local_function(off, value) {
            return;
        }
        if self.try_local_far_global(off, ty, value) {
            return;
        }
        if self.try_local_far_local(off, ty, value) {
            return;
        }
        if self.try_local_struct(off, ty, value) {
            return;
        }
        if ty.is_long_like() {
            self.assign_local_long(off, value);
        } else {
            if self.try_local_updates(off, ty, value) {
                return;
            }
            if self.try_local_chars(off, ty, value) {
                return;
            }
            if self.try_local_words(off, ty, value) {
                return;
            }
            self.try_local_general(off, ty, value);
            return;
        }
    }

    /// Assigns a value to a local variable of a given place and type.
    pub fn emit_assign_local(&mut self, loc: LocalLocation, ty: &'a Type, value: &'a Expr)
        requires
            old(self).cx.env.wf(),
            ty.is_countable(),
            plan_emit_assign_local(old(self).cx, loc, ty, value) is Emit,
        ensures
            final(self).wrote(*old(self), plan_emit_assign_local(old(self).cx, loc, ty, value)),
    {
        match loc {
            LocalLocation::Stack(off) => {
                self.assign_stack_local(off, ty, value);
            },
            LocalLocation::Reg(reg) => {
                self.emit_store_reg(reg, value);
            },
        }
    }
}

impl<'a> FunctionEmitter<'a> {
    /// Evaluates all operands of a chain of commas but the last for their
    /// effects.
    pub fn discard_heads(&mut self, e: &'a Expr)
        ensures
            final(self).wrote(*old(self), plan_discard_heads(old(self).cx, e)),
        decreases e,
    {
        match &e.kind {
            ExprKind::Comma { left, right } => {
                self.put(Step::Discard(&**left));
                self.discard_heads(&**right);
            },
            _ => {},
        }
    }
}

} // verus!
