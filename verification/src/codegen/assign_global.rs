//! Assignment to file-scope variables.

use vstd::prelude::*;
use crate::ast::{BinOp, Expr, ExprKind, MemberKind, Type, UnaryOp};
use crate::codegen::emitter::{
    add_to, call, cbw, cwd, mov, op1, op2, push, shl1, to_ax, Cx, FunctionEmitter, Plan, Step,
};
use crate::codegen::env::same_name;
use crate::isa::{
    al, at, at2, ax, bp, bp2, bp_plus, bp_plus2, bx, byte, cl, cx_, direct, direct_high, disp,
    disp2, divider, dx, elem, elem2, global, global2, global_at, imm, is_additive, is_direct,
    is_division, is_shift, masked, named, offset_of, plus, r, sat16, scaled, shift, shifter,
    sized, wide, word, Addr, Disp, Helper, Mnemonic, Reg, Width,
};

verus! {

/// The width of a floating-point variable.
#[verifier::allow_in_spec]
pub fn float_width(ty: &Type) -> Width
    returns
        (match ty {
            Type::Float => Width::Dword,
            _ => Width::Qword,
        }),
{
    match ty {
        Type::Float => Width::Dword,
        _ => Width::Qword,
    }
}

/// A floating-point variable is stored from the coprocessor stack.
pub open spec fn plan_global_float<'a>(
    cx: Cx<'a>,
    name: &'a String,
    ty: &'a Type,
    value: &'a Expr,
) -> Plan<'a> {
    if ty.is_float_like() {
        Plan::Emit(seq![
            Step::FloatLoad(value),
            op1(Mnemonic::Fstp, wide(float_width(ty), global(name))),
            Step::PendingWait,
        ])
    } else {
        Plan::Skip
    }
}

/// A struct copied from another file-scope variable: four bytes in line, a
/// larger one by the run-time routine.
pub open spec fn plan_global_struct_copy<'a>(
    cx: Cx<'a>,
    name: &'a String,
    ty: &'a Type,
    value: &'a Expr,
) -> Plan<'a> {
    if let Type::Struct { name: _, fields: _, size: _ } = ty {
        if let ExprKind::Ident(src) = &value.kind {
            if let Some(sty) = cx.env.global_type(src) {
                if sty.same_as(ty) {
                    if (ty.size() as u16) >= 4 {
                        if (ty.size() as u16) == 4 {
                            crate::codegen::common::plan_copy_long(cx, global2(name), global(name), global2(src), global(src))
                        } else {
                            Plan::Emit(seq![
                                mov(ax(), offset_of(name, Disp::Zero)),
                                push(r(Reg::Ds)),
                                push(ax()),
                                mov(ax(), offset_of(src, Disp::Zero)),
                                push(r(Reg::Ds)),
                                push(ax()),
                                mov(cx_(), imm((ty.size() as u16) as i64)),
                                call(Helper::StructCopy),
                            ])
                        }
                    } else {
                        Plan::Skip
                    }
                } else {
                    Plan::Skip
                }
            } else {
                Plan::Skip
            }
        } else {
            Plan::Skip
        }
    } else {
        Plan::Skip
    }
}

/// A four-byte struct that a call returns in `dx:ax`.
pub open spec fn plan_global_struct_call<'a>(
    cx: Cx<'a>,
    name: &'a String,
    ty: &'a Type,
    value: &'a Expr,
) -> Plan<'a> {
    if let Type::Struct { name: _, fields: _, size: _ } = ty {
        if (ty.size() as u16) == 4 {
            if let ExprKind::Call { name: f, args } = &value.kind {
                if let Some(ret) = cx.env.ret_ty_of(f) {
                    if ret.same_as(ty) {
                        Plan::Emit(seq![Step::CallFn(f, args)]).followed_by(
                            crate::codegen::common::plan_store_result(cx, global2(name), global(name)),
                        )
                    } else {
                        Plan::Skip
                    }
                } else {
                    Plan::Skip
                }
            } else {
                Plan::Skip
            }
        } else {
            Plan::Skip
        }
    } else {
        Plan::Skip
    }
}

/// A 32-bit constant.
pub open spec fn plan_global_long_const<'a>(
    cx: Cx<'a>,
    name: &'a String,
    value: &'a Expr,
) -> Plan<'a> {
    if let Some(v) = cx.env.const_of(value) {
        crate::codegen::common::plan_store_long_const(cx, global2(name), global(name), v)
    } else {
        Plan::Skip
    }
}

/// A copy of another 32-bit file-scope variable.
pub open spec fn plan_global_long_global<'a>(
    cx: Cx<'a>,
    name: &'a String,
    value: &'a Expr,
) -> Plan<'a> {
    if let ExprKind::Ident(src) = &value.kind {
        if cx.env.is_long_global(src) {
            crate::codegen::common::plan_copy_long(cx, global2(name), global(name), global2(src), global(src))
        } else {
            Plan::Skip
        }
    } else {
        Plan::Skip
    }
}

/// A copy of a 32-bit local variable.
pub open spec fn plan_global_long_local<'a>(
    cx: Cx<'a>,
    name: &'a String,
    value: &'a Expr,
) -> Plan<'a> {
    if let ExprKind::Ident(src) = &value.kind {
        if cx.env.is_long_local(src) {
            if let Some(off) = cx.env.stack_of(src) {
                crate::codegen::common::plan_copy_long(cx, global2(name), global(name), bp2(off), bp(off))
            } else {
                Plan::Stuck
            }
        } else {
            Plan::Skip
        }
    } else {
        Plan::Skip
    }
}

/// The result of a function that returns 32 bits.
pub open spec fn plan_global_long_call<'a>(
    cx: Cx<'a>,
    name: &'a String,
    value: &'a Expr,
) -> Plan<'a> {
    if let ExprKind::Call { name: f, args } = &value.kind {
        if let Some(ret) = cx.env.ret_ty_of(f) {
            if ret.is_long_like() {
                Plan::Emit(seq![Step::CallFn(f, args)]).followed_by(
                    crate::codegen::common::plan_store_result(cx, global2(name), global(name)),
                )
            } else {
                Plan::Skip
            }
        } else {
            Plan::Skip
        }
    } else {
        Plan::Skip
    }
}

/// Loads the halves of a pair of words, the high one into `ax` and the low
/// one into `dx`.
pub open spec fn plan_load_halves<'a>(cx: Cx<'a>, hi: Addr<'a>, lo: Addr<'a>) -> Plan<'a> {
    Plan::Emit(seq![
        mov(ax(), word(hi)),
        mov(dx(), word(lo)),
    ])
}

/// Stores `ax` as the high word and `dx` as the low word.
pub open spec fn plan_store_halves<'a>(cx: Cx<'a>, hi: Addr<'a>, lo: Addr<'a>) -> Plan<'a> {
    Plan::Emit(seq![
        mov(word(hi), ax()),
        mov(word(lo), dx()),
    ])
}

/// The complement of a 32-bit variable, half by half.
pub open spec fn plan_global_long_not<'a>(
    cx: Cx<'a>,
    name: &'a String,
    value: &'a Expr,
) -> Plan<'a> {
    if let ExprKind::Unary { op: UnaryOp::BitNot, operand } = &value.kind {
        if let ExprKind::Ident(a) = &operand.kind {
            if cx.env.is_long_global(a) {
                plan_load_halves(cx, global2(a), global(a)).followed_by(
                    Plan::Emit(seq![
                        op1(Mnemonic::Not, dx()),
                        op1(Mnemonic::Not, ax()),
                    ]),
                ).followed_by(plan_store_halves(cx, global2(name), global(name)))
            } else {
                Plan::Skip
            }
        } else {
            Plan::Skip
        }
    } else {
        Plan::Skip
    }
}

/// Doubles the pair `ax:dx`: the carry of the low half goes into the high
/// half.
pub open spec fn plan_double_halves<'a>(cx: Cx<'a>) -> Plan<'a> {
    Plan::Emit(seq![
        shl1(dx()),
        op2(Mnemonic::Rcl, ax(), imm(1)),
    ])
}

/// Halves the pair `ax:dx`: the carry of the high half goes into the low
/// half.
pub open spec fn plan_halve_halves<'a>(cx: Cx<'a>, unsigned: bool) -> Plan<'a> {
    Plan::Emit(seq![
        op2(shift(BinOp::Shr, unsigned), ax(), imm(1)),
        op2(Mnemonic::Rcr, dx(), imm(1)),
    ])
}

/// Twice a 32-bit variable, written as a product or as a shift.
pub open spec fn plan_global_long_double<'a>(
    cx: Cx<'a>,
    name: &'a String,
    value: &'a Expr,
) -> Plan<'a> {
    if let ExprKind::BinOp { op, left, right } = &value.kind {
        if let ExprKind::Ident(a) = &left.kind {
            if cx.env.is_long_global(a) {
                if let Some(k) = cx.env.const_of(&**right) {
                    if (*op == BinOp::Mul && k == 2) || (*op == BinOp::Shl && k == 1) {
                        plan_load_halves(cx, global2(a), global(a)).followed_by(
                            plan_double_halves(cx),
                        ).followed_by(plan_store_halves(cx, global2(name), global(name)))
                    } else {
                        Plan::Skip
                    }
                } else {
                    Plan::Skip
                }
            } else {
                Plan::Skip
            }
        } else {
            Plan::Skip
        }
    } else {
        Plan::Skip
    }
}

/// A 32-bit variable shifted right by one.
pub open spec fn plan_global_long_halve<'a>(
    cx: Cx<'a>,
    name: &'a String,
    value: &'a Expr,
) -> Plan<'a> {
    if let ExprKind::BinOp { op: BinOp::Shr, left, right } = &value.kind {
        if let ExprKind::Ident(a) = &left.kind {
            if cx.env.is_long_global(a) {
                if let Some(k) = cx.env.const_of(&**right) {
                    if k == 1 {
                        plan_load_halves(cx, global2(a), global(a)).followed_by(
                            plan_halve_halves(cx, cx.env.is_unsigned_global(a)),
                        ).followed_by(plan_store_halves(cx, global2(name), global(name)))
                    } else {
                        Plan::Skip
                    }
                } else {
                    Plan::Skip
                }
            } else {
                Plan::Skip
            }
        } else {
            Plan::Skip
        }
    } else {
        Plan::Skip
    }
}

/// Pushes a pair of words, the high one first.
pub open spec fn plan_push_long<'a>(cx: Cx<'a>, hi: Addr<'a>, lo: Addr<'a>) -> Plan<'a> {
    Plan::Emit(seq![
        push(word(hi)),
        push(word(lo)),
    ])
}

/// A quotient or a remainder of two 32-bit variables.
pub open spec fn plan_global_long_div<'a>(
    cx: Cx<'a>,
    name: &'a String,
    value: &'a Expr,
) -> Plan<'a> {
    if let ExprKind::BinOp { op, left, right } = &value.kind {
        if is_division(*op) {
            if let ExprKind::Ident(a) = &left.kind {
                if let ExprKind::Ident(b) = &right.kind {
                    if cx.env.is_long_global(a) && cx.env.is_long_global(b) {
                        plan_push_long(cx, global2(b), global(b)).followed_by(
                            plan_push_long(cx, global2(a), global(a)),
                        ).followed_by(
                            Plan::Emit(seq![
                                call(divider(*op, cx.env.is_unsigned_global(a) || cx.env.is_unsigned_global(b))),
                            ]),
                        ).followed_by(
                            crate::codegen::common::plan_store_result(cx, global2(name), global(name)),
                        )
                    } else {
                        Plan::Skip
                    }
                } else {
                    Plan::Skip
                }
            } else {
                Plan::Skip
            }
        } else {
            Plan::Skip
        }
    } else {
        Plan::Skip
    }
}

/// Multiplies the pair at one place, taken in `cx:bx`, by the pair at
/// another, taken in `dx:ax`.
pub open spec fn plan_multiply_long<'a>(
    cx: Cx<'a>,
    a_hi: Addr<'a>,
    a_lo: Addr<'a>,
    b_hi: Addr<'a>,
    b_lo: Addr<'a>,
) -> Plan<'a> {
    Plan::Emit(seq![
        mov(cx_(), word(a_hi)),
        mov(bx(), word(a_lo)),
        mov(dx(), word(b_hi)),
        mov(ax(), word(b_lo)),
        call(Helper::LongMul),
    ])
}

/// A product of two 32-bit variables.
pub open spec fn plan_global_long_mul<'a>(
    cx: Cx<'a>,
    name: &'a String,
    value: &'a Expr,
) -> Plan<'a> {
    if let ExprKind::BinOp { op: BinOp::Mul, left, right } = &value.kind {
        if let ExprKind::Ident(a) = &left.kind {
            if let ExprKind::Ident(b) = &right.kind {
                if cx.env.is_long_global(a) && cx.env.is_long_global(b) {
                    plan_multiply_long(cx, global2(a), global(a), global2(b), global(b)).followed_by(
                        crate::codegen::common::plan_store_result(cx, global2(name), global(name)),
                    )
                } else {
                    Plan::Skip
                }
            } else {
                Plan::Skip
            }
        } else {
            Plan::Skip
        }
    } else {
        Plan::Skip
    }
}

/// A 32-bit variable shifted by a constant other than one.
pub open spec fn plan_global_long_shift<'a>(
    cx: Cx<'a>,
    name: &'a String,
    value: &'a Expr,
) -> Plan<'a> {
    if let ExprKind::BinOp { op, left, right } = &value.kind {
        if is_shift(*op) {
            if let ExprKind::Ident(a) = &left.kind {
                if cx.env.is_long_global(a) {
                    if let Some(k) = cx.env.const_of(&**right) {
                        if k > 1 && k <= 255 {
                            Plan::Emit(seq![
                                mov(dx(), word(global2(a))),
                                mov(ax(), word(global(a))),
                                mov(cl(), imm(k as i64)),
                                call(shifter(*op, cx.env.is_unsigned_global(a))),
                            ]).followed_by(
                                crate::codegen::common::plan_store_result(cx, global2(name), global(name)),
                            )
                        } else {
                            Plan::Skip
                        }
                    } else {
                        Plan::Skip
                    }
                } else {
                    Plan::Skip
                }
            } else {
                Plan::Skip
            }
        } else {
            Plan::Skip
        }
    } else {
        Plan::Skip
    }
}

/// Negates the pair `ax:dx`: the high half goes first, so that the borrow of
/// the low half is at hand.
pub open spec fn plan_negate_halves<'a>(cx: Cx<'a>) -> Plan<'a> {
    Plan::Emit(seq![
        op1(Mnemonic::Neg, ax()),
        op1(Mnemonic::Neg, dx()),
        op2(Mnemonic::Sbb, ax(), imm(0)),
    ])
}

/// The negative of a 32-bit variable.
pub open spec fn plan_global_long_neg<'a>(
    cx: Cx<'a>,
    name: &'a String,
    value: &'a Expr,
) -> Plan<'a> {
    if let ExprKind::Unary { op: UnaryOp::Neg, operand } = &value.kind {
        if let ExprKind::Ident(a) = &operand.kind {
            if cx.env.is_long_global(a) {
                plan_load_halves(cx, global2(a), global(a)).followed_by(plan_negate_halves(cx)).followed_by(
                    plan_store_halves(cx, global2(name), global(name)),
                )
            } else {
                Plan::Skip
            }
        } else {
            Plan::Skip
        }
    } else {
        Plan::Skip
    }
}

/// A direct operator applied to two 32-bit variables.
pub open spec fn plan_global_long_pair<'a>(
    cx: Cx<'a>,
    name: &'a String,
    value: &'a Expr,
) -> Plan<'a> {
    if let ExprKind::BinOp { op, left, right } = &value.kind {
        if is_direct(*op) {
            if let Some((a_hi, a_lo)) = &cx.env.facts(&**left).long_addrs {
                if let Some((b_hi, b_lo)) = &cx.env.facts(&**right).long_addrs {
                    plan_load_halves(cx, named(a_hi), named(a_lo)).followed_by(
                        Plan::Emit(seq![
                            op2(direct(*op), dx(), word(named(b_lo))),
                            op2(direct_high(*op), ax(), word(named(b_hi))),
                        ]),
                    ).followed_by(plan_store_halves(cx, global2(name), global(name)))
                } else {
                    Plan::Skip
                }
            } else {
                Plan::Skip
            }
        } else {
            Plan::Skip
        }
    } else {
        Plan::Skip
    }
}

/// What an addition to the low word adds for `+ k` or `- k`: a signed byte
/// where it fits, else the low word.
pub open spec fn spec_long_delta(op: BinOp, k: u32) -> i64 {
    let d = if op == BinOp::Add { crate::isa::signed32(k as int) } else { -crate::isa::signed32(k as int) };
    (if -128 <= d <= 127 { d } else { d % 65536 }) as i64
}

/// What an addition to the low word adds for `+ k` or `- k`.
#[verifier::rlimit(60)]
#[verifier::when_used_as_spec(spec_long_delta)]
pub fn long_delta(op: BinOp, k: u32) -> (r: i64)
    ensures
        r == spec_long_delta(op, k),
{
    let s: i64 = if k < 0x8000_0000 { k as i64 } else { k as i64 - 0x1_0000_0000 };
    let d: i64 = if op == BinOp::Add { s } else { -s };
    proof {
        vstd::arithmetic::div_mod::lemma_mod_multiples_vanish(65536, d as int, 65536);
        assert(s == crate::isa::signed32(k as int));
    }
    if -128 <= d && d <= 127 {
        d
    } else if d >= 0 {
        d % 65536
    } else {
        (d + 0x1_0000_0000) % 65536
    }
}

/// A 32-bit variable plus or minus a constant; a difference is the sum with
/// the negative, whose high word is all ones.
pub open spec fn plan_global_long_add_const<'a>(
    cx: Cx<'a>,
    name: &'a String,
    value: &'a Expr,
) -> Plan<'a> {
    if let ExprKind::BinOp { op, left, right } = &value.kind {
        if is_additive(*op) {
            if let Some((hi, lo)) = &cx.env.facts(&**left).long_addrs {
                if let Some(k) = cx.env.const_of(&**right) {
                    if *op == BinOp::Add || k != 0x8000_0000 {
                        plan_load_halves(cx, named(hi), named(lo)).followed_by(
                            Plan::Emit(seq![
                                add_to(dx(), imm(long_delta(*op, k))),
                                op2(Mnemonic::Adc, ax(), imm(if *op == BinOp::Add { 0i64 } else { -1i64 })),
                            ]),
                        ).followed_by(plan_store_halves(cx, global2(name), global(name)))
                    } else {
                        Plan::Stuck
                    }
                } else {
                    Plan::Skip
                }
            } else {
                Plan::Skip
            }
        } else {
            Plan::Skip
        }
    } else {
        Plan::Skip
    }
}

/// `g = i + g` with an `int` on the left: the sum is made in `dx:ax`.
pub open spec fn plan_global_long_int_plus<'a>(
    cx: Cx<'a>,
    name: &'a String,
    value: &'a Expr,
) -> Plan<'a> {
    if let ExprKind::BinOp { op: BinOp::Add, left, right } = &value.kind {
        if let ExprKind::Ident(i) = &left.kind {
            if cx.env.is_int_global(i) {
                if let ExprKind::Ident(g) = &right.kind {
                    if same_name(g, name) {
                        Plan::Emit(seq![
                            mov(ax(), word(global(i))),
                            cwd(),
                            add_to(ax(), word(global(name))),
                            op2(Mnemonic::Adc, dx(), word(global2(name))),
                        ]).followed_by(
                            crate::codegen::common::plan_store_result(cx, global2(name), global(name)),
                        )
                    } else {
                        Plan::Skip
                    }
                } else {
                    Plan::Skip
                }
            } else {
                Plan::Skip
            }
        } else {
            Plan::Skip
        }
    } else {
        Plan::Skip
    }
}

/// `g = g op i` with an `int` on the right: the variable is taken in
/// `bx:cx`.
pub open spec fn plan_global_long_op_int<'a>(
    cx: Cx<'a>,
    name: &'a String,
    value: &'a Expr,
) -> Plan<'a> {
    if let ExprKind::BinOp { op, left, right } = &value.kind {
        if let ExprKind::Ident(g) = &left.kind {
            if same_name(g, name) {
                if let ExprKind::Ident(i) = &right.kind {
                    if cx.env.is_int_global(i) {
                        if is_direct(*op) {
                            Plan::Emit(seq![
                                mov(ax(), word(global(i))),
                                cwd(),
                                mov(bx(), word(global2(name))),
                                mov(cx_(), word(global(name))),
                                op2(direct(*op), cx_(), ax()),
                                op2(direct_high(*op), bx(), dx()),
                                mov(word(global2(name)), bx()),
                                mov(word(global(name)), cx_()),
                            ])
                        } else {
                            Plan::Skip
                        }
                    } else {
                        Plan::Skip
                    }
                } else {
                    Plan::Skip
                }
            } else {
                Plan::Skip
            }
        } else {
            Plan::Skip
        }
    } else {
        Plan::Skip
    }
}

/// The variable that an expression widens to `long`, with or without a cast.
#[verifier::allow_in_spec]
pub fn widened_name<'b>(e: &'b Expr) -> Option<&'b String>
    returns
        (match &e.kind {
            ExprKind::Ident(n) => Some(n),
            ExprKind::Cast { ty: Type::Long, operand } => match &operand.kind {
                ExprKind::Ident(n) => Some(n),
                _ => None,
            },
            _ => None,
        }),
{
    match &e.kind {
        ExprKind::Ident(n) => Some(n),
        ExprKind::Cast { ty: Type::Long, operand } => match &operand.kind {
            ExprKind::Ident(n) => Some(n),
            _ => None,
        },
        _ => None,
    }
}

/// A smaller file-scope integer widened to 32 bits.
pub open spec fn plan_global_long_widen<'a>(
    cx: Cx<'a>,
    name: &'a String,
    value: &'a Expr,
) -> Plan<'a> {
    if let Some(src) = widened_name(value) {
        if let Some(sty) = cx.env.global_type(src) {
            match sty {
                Type::Char => {
                    Plan::Emit(seq![
                        mov(al(), byte(global(src))),
                        cbw(),
                        cwd(),
                        mov(word(global2(name)), dx()),
                        mov(word(global(name)), ax()),
                    ])
                },
                Type::UInt => {
                    Plan::Emit(seq![
                        mov(ax(), word(global(src))),
                        mov(word(global2(name)), imm(0)),
                        mov(word(global(name)), ax()),
                    ])
                },
                Type::Int => {
                    Plan::Emit(seq![
                        mov(ax(), word(global(src))),
                        cwd(),
                        mov(word(global2(name)), dx()),
                        mov(word(global(name)), ax()),
                    ])
                },
                _ => {
                    Plan::Skip
                },
            }
        } else {
            Plan::Skip
        }
    } else {
        Plan::Skip
    }
}

/// A constant element of a 32-bit array on the stack.
pub open spec fn plan_global_long_local_elem<'a>(
    cx: Cx<'a>,
    name: &'a String,
    value: &'a Expr,
) -> Plan<'a> {
    if let ExprKind::ArrayIndex { array, index } = &value.kind {
        if let ExprKind::Ident(arr) = &array.kind {
            if let Some(elem_ty) = cx.env.local_elem(arr) {
                if elem_ty.is_long_like() {
                    if let Some(k) = cx.env.const_of(&**index) {
                        if let Some(base) = cx.env.stack_of(arr) {
                            if k <= 8191 || k >= 0xFFFF_E000 {
                                crate::codegen::common::plan_copy_long(cx, global2(name), global(name), bp_plus2(base, scaled(k, 4)), bp_plus(base, scaled(k, 4)))
                            } else {
                                Plan::Stuck
                            }
                        } else {
                            Plan::Stuck
                        }
                    } else {
                        Plan::Skip
                    }
                } else {
                    Plan::Skip
                }
            } else {
                Plan::Skip
            }
        } else {
            Plan::Skip
        }
    } else {
        Plan::Skip
    }
}

/// An element of a 32-bit array at file scope.
pub open spec fn plan_global_long_global_elem<'a>(
    cx: Cx<'a>,
    name: &'a String,
    value: &'a Expr,
) -> Plan<'a> {
    if let ExprKind::ArrayIndex { array, index } = &value.kind {
        if let ExprKind::Ident(arr) = &array.kind {
            if let Some(elem_ty) = cx.env.global_elem(arr) {
                if elem_ty.is_long_like() {
                    match cx.env.const_of(&**index) {
                        Some(k) => {
                            if k < 0x2000_0000 || k >= 0xE000_0000 {
                                crate::codegen::common::plan_copy_long(cx, global2(name), global(name), global_at(arr, disp2(scaled(k, 4))), global_at(arr, disp(scaled(k, 4))))
                            } else {
                                Plan::Stuck
                            }
                        },
                        None => {
                            crate::codegen::array_addr::plan_emit_index_into_bx_long_stride(cx, &**index).followed_by(
                                crate::codegen::common::plan_copy_long(cx, global2(name), global(name), elem2(arr, Reg::Bx), elem(arr, Reg::Bx)),
                            )
                        },
                    }
                } else {
                    Plan::Skip
                }
            } else {
                Plan::Skip
            }
        } else {
            Plan::Skip
        }
    } else {
        Plan::Skip
    }
}

/// A 32-bit integer behind a pointer in a register.
pub open spec fn plan_global_long_deref<'a>(
    cx: Cx<'a>,
    name: &'a String,
    value: &'a Expr,
) -> Plan<'a> {
    if let ExprKind::Deref(inner) = &value.kind {
        if let ExprKind::Ident(p) = &inner.kind {
            if let Some(t) = cx.env.local_pointee(p) {
                if t.is_long_like() {
                    if let Some(reg) = cx.env.reg_of(p) {
                        crate::codegen::common::plan_copy_long(cx, global2(name), global(name), at2(reg), at(reg))
                    } else {
                        Plan::Skip
                    }
                } else {
                    Plan::Skip
                }
            } else {
                Plan::Skip
            }
        } else {
            Plan::Skip
        }
    } else {
        Plan::Skip
    }
}

/// A 32-bit member at a constant address.
pub open spec fn plan_global_long_member<'a>(
    cx: Cx<'a>,
    name: &'a String,
    value: &'a Expr,
) -> Plan<'a> {
    if let ExprKind::Member { base: _, field: _, kind: MemberKind::Dot } = &value.kind {
        if let Some(chain) = &cx.env.facts(value).dot_chain {
            if chain.ty.is_long_like() {
                if cx.env.is_global(&chain.name) {
                    crate::codegen::common::plan_copy_long(cx, global2(name), global(name), global_at(&chain.name, disp2(chain.off)), global_at(&chain.name, disp(chain.off)))
                } else {
                    if let Some(base) = cx.env.stack_of(&chain.name) {
                        crate::codegen::common::plan_copy_long(cx, global2(name), global(name), bp_plus2(base, sat16(chain.off)), bp_plus(base, sat16(chain.off)))
                    } else {
                        Plan::Stuck
                    }
                }
            } else {
                Plan::Skip
            }
        } else {
            Plan::Skip
        }
    } else {
        Plan::Skip
    }
}

/// A 32-bit variable.
pub open spec fn plan_assign_global_long<'a>(
    cx: Cx<'a>,
    name: &'a String,
    value: &'a Expr,
) -> Plan<'a> {
    match plan_global_long_const(cx, name, value) {
        Plan::Skip => {
            match plan_global_long_global(cx, name, value) {
                Plan::Skip => {
                    match plan_global_long_local(cx, name, value) {
                        Plan::Skip => {
                            match plan_global_long_call(cx, name, value) {
                                Plan::Skip => {
                                    match plan_global_long_not(cx, name, value) {
                                        Plan::Skip => {
                                            match plan_global_long_double(cx, name, value) {
                                                Plan::Skip => {
                                                    match plan_global_long_halve(cx, name, value) {
                                                        Plan::Skip => {
                                                            match plan_global_long_div(cx, name, value) {
                                                                Plan::Skip => {
                                                                    match plan_global_long_mul(cx, name, value) {
                                                                        Plan::Skip => {
                                                                            match plan_global_long_shift(cx, name, value) {
                                                                                Plan::Skip => {
                                                                                    match plan_global_long_neg(cx, name, value) {
                                                                                        Plan::Skip => {
                                                                                            match plan_global_long_pair(cx, name, value) {
                                                                                                Plan::Skip => {
                                                                                                    match plan_global_long_add_const(cx, name, value) {
                                                                                                        Plan::Skip => {
                                                                                                            match plan_global_long_int_plus(cx, name, value) {
                                                                                                                Plan::Skip => {
                                                                                                                    match plan_global_long_op_int(cx, name, value) {
                                                                                                                        Plan::Skip => {
                                                                                                                            match plan_global_long_widen(cx, name, value) {
                                                                                                                                Plan::Skip => {
                                                                                                                                    match plan_global_long_local_elem(cx, name, value) {
                                                                                                                                        Plan::Skip => {
                                                                                                                                            match plan_global_long_global_elem(cx, name, value) {
                                                                                                                                                Plan::Skip => {
                                                                                                                                                    match plan_global_long_deref(cx, name, value) {
                                                                                                                                                        Plan::Skip => {
                                                                                                                                                            match plan_global_long_member(cx, name, value) {
                                                                                                                                                                Plan::Skip => {
                                                                                                                                                                    Plan::Stuck
                                                                                                                                                                },
                                                                                                                                                                taken => taken,
                                                                                                                                                            }
                                                                                                                                                        },
                                                                                                                                                        taken => taken,
                                                                                                                                                    }
                                                                                                                                                },
                                                                                                                                                taken => taken,
                                                                                                                                            }
                                                                                                                                        },
                                                                                                                                        taken => taken,
                                                                                                                                    }
                                                                                                                                },
                                                                                                                                taken => taken,
                                                                                                                            }
                                                                                                                        },
                                                                                                                        taken => taken,
                                                                                                                    }
                                                                                                                },
                                                                                                                taken => taken,
                                                                                                            }
                                                                                                        },
                                                                                                        taken => taken,
                                                                                                    }
                                                                                                },
                                                                                                taken => taken,
                                                                                            }
                                                                                        },
                                                                                        taken => taken,
                                                                                    }
                                                                                },
                                                                                taken => taken,
                                                                            }
                                                                        },
                                                                        taken => taken,
                                                                    }
                                                                },
                                                                taken => taken,
                                                            }
                                                        },
                                                        taken => taken,
                                                    }
                                                },
                                                taken => taken,
                                            }
                                        },
                                        taken => taken,
                                    }
                                },
                                taken => taken,
                            }
                        },
                        taken => taken,
                    }
                },
                taken => taken,
            }
        },
        taken => taken,
    }
}

/// A constant.
pub open spec fn plan_global_const<'a>(
    cx: Cx<'a>,
    name: &'a String,
    ty: &'a Type,
    value: &'a Expr,
) -> Plan<'a> {
    if let Some(v) = cx.env.const_of(value) {
        Plan::Emit(seq![
            mov(sized(ty.is_char_like(), global(name)), imm(masked(v, ty.is_char_like()))),
        ])
    } else {
        Plan::Skip
    }
}

/// A word that is already in a register.
pub open spec fn plan_global_register<'a>(
    cx: Cx<'a>,
    name: &'a String,
    ty: &'a Type,
    value: &'a Expr,
) -> Plan<'a> {
    if !ty.is_char_like() {
        if let ExprKind::Ident(src) = &value.kind {
            if let Some(reg) = cx.env.word_reg_of(src) {
                Plan::Emit(seq![mov(word(global(name)), r(reg))])
            } else {
                Plan::Skip
            }
        } else {
            Plan::Skip
        }
    } else {
        Plan::Skip
    }
}

/// The address of a file-scope variable.
pub open spec fn plan_global_address<'a>(
    cx: Cx<'a>,
    name: &'a String,
    ty: &'a Type,
    value: &'a Expr,
) -> Plan<'a> {
    if !ty.is_char_like() {
        if let ExprKind::AddressOf(src) = &value.kind {
            if cx.env.is_global(src) {
                Plan::Emit(seq![mov(word(global(name)), offset_of(src, Disp::Zero))])
            } else {
                Plan::Skip
            }
        } else {
            Plan::Skip
        }
    } else {
        Plan::Skip
    }
}

/// A file-scope array, which stands for its address.
pub open spec fn plan_global_array<'a>(
    cx: Cx<'a>,
    name: &'a String,
    ty: &'a Type,
    value: &'a Expr,
) -> Plan<'a> {
    if !ty.is_char_like() {
        if let ExprKind::Ident(src) = &value.kind {
            if cx.env.global_elem(src).is_some() {
                Plan::Emit(seq![mov(word(global(name)), offset_of(src, Disp::Zero))])
            } else {
                Plan::Skip
            }
        } else {
            Plan::Skip
        }
    } else {
        Plan::Skip
    }
}

/// The address of an element of a file-scope array.
pub open spec fn plan_global_elem_address<'a>(
    cx: Cx<'a>,
    name: &'a String,
    ty: &'a Type,
    value: &'a Expr,
) -> Plan<'a> {
    if !ty.is_char_like() {
        if let ExprKind::AddressOfArrayElem { array, byte_offset } = &value.kind {
            if cx.env.is_global(array) {
                Plan::Emit(seq![
                    mov(word(global(name)), offset_of(array, plus(*byte_offset as i64))),
                ])
            } else {
                Plan::Skip
            }
        } else {
            Plan::Skip
        }
    } else {
        Plan::Skip
    }
}

/// Any other value is computed in `ax`.
pub open spec fn plan_global_general<'a>(
    cx: Cx<'a>,
    name: &'a String,
    ty: &'a Type,
    value: &'a Expr,
) -> Plan<'a> {
    if ty.is_char_like() {
        Plan::Emit(seq![
            to_ax(cx, value),
            mov(byte(global(name)), al()),
        ])
    } else {
        Plan::Emit(seq![
            to_ax(cx, value),
            Step::StoreCollapsed(word(global(name))),
        ])
    }
}

/// Assigns a value to a file-scope variable.
pub open spec fn plan_emit_assign_global<'a>(
    cx: Cx<'a>,
    name: &'a String,
    value: &'a Expr,
) -> Plan<'a> {
    if let Some(ty) = cx.env.global_type(name) {
        match plan_global_float(cx, name, ty, value) {
            Plan::Skip => {
                match plan_global_struct_copy(cx, name, ty, value) {
                    Plan::Skip => {
                        match plan_global_struct_call(cx, name, ty, value) {
                            Plan::Skip => {
                                if ty.is_long_like() {
                                    plan_assign_global_long(cx, name, value)
                                } else {
                                    match plan_global_const(cx, name, ty, value) {
                                        Plan::Skip => {
                                            match plan_global_register(cx, name, ty, value) {
                                                Plan::Skip => {
                                                    match plan_global_address(cx, name, ty, value) {
                                                        Plan::Skip => {
                                                            match plan_global_array(cx, name, ty, value) {
                                                                Plan::Skip => {
                                                                    match plan_global_elem_address(cx, name, ty, value) {
                                                                        Plan::Skip => {
                                                                            plan_global_general(cx, name, ty, value)
                                                                        },
                                                                        taken => taken,
                                                                    }
                                                                },
                                                                taken => taken,
                                                            }
                                                        },
                                                        taken => taken,
                                                    }
                                                },
                                                taken => taken,
                                            }
                                        },
                                        taken => taken,
                                    }
                                }
                            },
                            taken => taken,
                        }
                    },
                    taken => taken,
                }
            },
            taken => taken,
        }
    } else {
        Plan::Stuck
    }
}

impl<'a> FunctionEmitter<'a> {
    /// Emits what [`plan_global_float`] says, if it applies.
    pub fn try_global_float(
        &mut self,
        name: &'a String,
        ty: &'a Type,
        value: &'a Expr,
    ) -> (done: bool)
        requires
            old(self).cx.env.wf(),
            !(plan_global_float(old(self).cx, name, ty, value) is Stuck),
        ensures
            final(self).ran(*old(self), plan_global_float(old(self).cx, name, ty, value), done),
    {
        if !ty.is_float_like() {
            return false;
        }
        self.put(Step::FloatLoad(value));
        self.put(op1(Mnemonic::Fstp, wide(float_width(ty), global(name))));
        self.put(Step::PendingWait);
        true
    }

    /// Emits what [`plan_global_struct_copy`] says, if it applies.
    pub fn try_global_struct_copy(
        &mut self,
        name: &'a String,
        ty: &'a Type,
        value: &'a Expr,
    ) -> (done: bool)
        requires
            old(self).cx.env.wf(),
            ty.is_countable(),
            !(plan_global_struct_copy(old(self).cx, name, ty, value) is Stuck),
        ensures
            final(self).ran(
                *old(self),
                plan_global_struct_copy(old(self).cx, name, ty, value),
                done,
            ),
    {
        let cx: Cx<'a> = self.cx;
        let Type::Struct { name: _, fields: _, size: _ } = ty else { return false; };
        let ExprKind::Ident(src) = &value.kind else { return false; };
        let Some(sty) = cx.env.global_type(src) else { return false; };
        if !sty.same_as(ty) {
            return false;
        }
        if !(ty.size_bytes() >= 4) {
            return false;
        }
        if ty.size_bytes() == 4 {
            self.copy_long(global2(name), global(name), global2(src), global(src));
            return true;
        } else {
            self.put(mov(ax(), offset_of(name, Disp::Zero)));
            self.put(push(r(Reg::Ds)));
            self.put(push(ax()));
            self.put(mov(ax(), offset_of(src, Disp::Zero)));
            self.put(push(r(Reg::Ds)));
            self.put(push(ax()));
            self.put(mov(cx_(), imm(ty.size_bytes() as i64)));
            self.put(call(Helper::StructCopy));
            return true;
        }
    }

    /// Emits what [`plan_global_struct_call`] says, if it applies.
    pub fn try_global_struct_call(
        &mut self,
        name: &'a String,
        ty: &'a Type,
        value: &'a Expr,
    ) -> (done: bool)
        requires
            old(self).cx.env.wf(),
            ty.is_countable(),
            !(plan_global_struct_call(old(self).cx, name, ty, value) is Stuck),
        ensures
            final(self).ran(
                *old(self),
                plan_global_struct_call(old(self).cx, name, ty, value),
                done,
            ),
    {
        let cx: Cx<'a> = self.cx;
        let Type::Struct { name: _, fields: _, size: _ } = ty else { return false; };
        if !(ty.size_bytes() == 4) {
            return false;
        }
        let ExprKind::Call { name: f, args } = &value.kind else { return false; };
        let Some(ret) = cx.env.ret_ty_of(f) else { return false; };
        if !ret.same_as(ty) {
            return false;
        }
        self.put(Step::CallFn(f, args));
        self.store_result(global2(name), global(name));
        true
    }

    /// Emits what [`plan_global_long_const`] says, if it applies.
    pub fn try_global_long_const(&mut self, name: &'a String, value: &'a Expr) -> (done: bool)
        requires
            old(self).cx.env.wf(),
            !(plan_global_long_const(old(self).cx, name, value) is Stuck),
        ensures
            final(self).ran(*old(self), plan_global_long_const(old(self).cx, name, value), done),
    {
        let cx: Cx<'a> = self.cx;
        let Some(v) = cx.env.const_of(value) else { return false; };
        self.store_long_const(global2(name), global(name), v);
        true
    }

    /// Emits what [`plan_global_long_global`] says, if it applies.
    pub fn try_global_long_global(&mut self, name: &'a String, value: &'a Expr) -> (done: bool)
        requires
            old(self).cx.env.wf(),
            !(plan_global_long_global(old(self).cx, name, value) is Stuck),
        ensures
            final(self).ran(*old(self), plan_global_long_global(old(self).cx, name, value), done),
    {
        let cx: Cx<'a> = self.cx;
        let ExprKind::Ident(src) = &value.kind else { return false; };
        if !cx.env.is_long_global(src) {
            return false;
        }
        self.copy_long(global2(name), global(name), global2(src), global(src));
        true
    }

    /// Emits what [`plan_global_long_local`] says, if it applies.
    pub fn try_global_long_local(&mut self, name: &'a String, value: &'a Expr) -> (done: bool)
        requires
            old(self).cx.env.wf(),
            !(plan_global_long_local(old(self).cx, name, value) is Stuck),
        ensures
            final(self).ran(*old(self), plan_global_long_local(old(self).cx, name, value), done),
    {
        let cx: Cx<'a> = self.cx;
        let ExprKind::Ident(src) = &value.kind else { return false; };
        if !cx.env.is_long_local(src) {
            return false;
        }
        let Some(off) = cx.env.stack_of(src) else { return false; };
        self.copy_long(global2(name), global(name), bp2(off), bp(off));
        true
    }

    /// Emits what [`plan_global_long_call`] says, if it applies.
    pub fn try_global_long_call(&mut self, name: &'a String, value: &'a Expr) -> (done: bool)
        requires
            old(self).cx.env.wf(),
            !(plan_global_long_call(old(self).cx, name, value) is Stuck),
        ensures
            final(self).ran(*old(self), plan_global_long_call(old(self).cx, name, value), done),
    {
        let cx: Cx<'a> = self.cx;
        let ExprKind::Call { name: f, args } = &value.kind else { return false; };
        let Some(ret) = cx.env.ret_ty_of(f) else { return false; };
        if !ret.is_long_like() {
            return false;
        }
        self.put(Step::CallFn(f, args));
        self.store_result(global2(name), global(name));
        true
    }

    /// Loads the halves of a pair of words, the high one into `ax` and the low
    /// one into `dx`.
    pub fn load_halves(&mut self, hi: Addr<'a>, lo: Addr<'a>)
        requires
            old(self).cx.env.wf(),
            plan_load_halves(old(self).cx, hi, lo) is Emit,
        ensures
            final(self).wrote(*old(self), plan_load_halves(old(self).cx, hi, lo)),
    {
        self.put(mov(ax(), word(hi)));
        self.put(mov(dx(), word(lo)));
    }

    /// Stores `ax` as the high word and `dx` as the low word.
    pub fn store_halves(&mut self, hi: Addr<'a>, lo: Addr<'a>)
        requires
            old(self).cx.env.wf(),
            plan_store_halves(old(self).cx, hi, lo) is Emit,
        ensures
            final(self).wrote(*old(self), plan_store_halves(old(self).cx, hi, lo)),
    {
        self.put(mov(word(hi), ax()));
        self.put(mov(word(lo), dx()));
    }

    /// Emits what [`plan_global_long_not`] says, if it applies.
    pub fn try_global_long_not(&mut self, name: &'a String, value: &'a Expr) -> (done: bool)
        requires
            old(self).cx.env.wf(),
            !(plan_global_long_not(old(self).cx, name, value) is Stuck),
        ensures
            final(self).ran(*old(self), plan_global_long_not(old(self).cx, name, value), done),
    {
        let cx: Cx<'a> = self.cx;
        let ExprKind::Unary { op: UnaryOp::BitNot, operand } = &value.kind else { return false; };
        let ExprKind::Ident(a) = &operand.kind else { return false; };
        if !cx.env.is_long_global(a) {
            return false;
        }
        self.load_halves(global2(a), global(a));
        self.put(op1(Mnemonic::Not, dx()));
        self.put(op1(Mnemonic::Not, ax()));
        self.store_halves(global2(name), global(name));
        true
    }

    /// Doubles the pair `ax:dx`: the carry of the low half goes into the high
    /// half.
    pub fn double_halves(&mut self)
        requires
            old(self).cx.env.wf(),
            plan_double_halves(old(self).cx) is Emit,
        ensures
            final(self).wrote(*old(self), plan_double_halves(old(self).cx)),
    {
        self.put(shl1(dx()));
        self.put(op2(Mnemonic::Rcl, ax(), imm(1)));
    }

    /// Halves the pair `ax:dx`: the carry of the high half goes into the low
    /// half.
    pub fn halve_halves(&mut self, unsigned: bool)
        requires
            old(self).cx.env.wf(),
            plan_halve_halves(old(self).cx, unsigned) is Emit,
        ensures
            final(self).wrote(*old(self), plan_halve_halves(old(self).cx, unsigned)),
    {
        self.put(op2(shift(BinOp::Shr, unsigned), ax(), imm(1)));
        self.put(op2(Mnemonic::Rcr, dx(), imm(1)));
    }

    /// Emits what [`plan_global_long_double`] says, if it applies.
    pub fn try_global_long_double(&mut self, name: &'a String, value: &'a Expr) -> (done: bool)
        requires
            old(self).cx.env.wf(),
            !(plan_global_long_double(old(self).cx, name, value) is Stuck),
        ensures
            final(self).ran(*old(self), plan_global_long_double(old(self).cx, name, value), done),
    {
        let cx: Cx<'a> = self.cx;
        let ExprKind::BinOp { op, left, right } = &value.kind else { return false; };
        let ExprKind::Ident(a) = &left.kind else { return false; };
        if !cx.env.is_long_global(a) {
            return false;
        }
        let Some(k) = cx.env.const_of(&**right) else { return false; };
        if !((*op == BinOp::Mul && k == 2) || (*op == BinOp::Shl && k == 1)) {
            return false;
        }
        self.load_halves(global2(a), global(a));
        self.double_halves();
        self.store_halves(global2(name), global(name));
        true
    }

    /// Emits what [`plan_global_long_halve`] says, if it applies.
    pub fn try_global_long_halve(&mut self, name: &'a String, value: &'a Expr) -> (done: bool)
        requires
            old(self).cx.env.wf(),
            !(plan_global_long_halve(old(self).cx, name, value) is Stuck),
        ensures
            final(self).ran(*old(self), plan_global_long_halve(old(self).cx, name, value), done),
    {
        let cx: Cx<'a> = self.cx;
        let ExprKind::BinOp { op: BinOp::Shr, left, right } = &value.kind else { return false; };
        let ExprKind::Ident(a) = &left.kind else { return false; };
        if !cx.env.is_long_global(a) {
            return false;
        }
        let Some(k) = cx.env.const_of(&**right) else { return false; };
        if !(k == 1) {
            return false;
        }
        self.load_halves(global2(a), global(a));
        self.halve_halves(cx.env.is_unsigned_global(a));
        self.store_halves(global2(name), global(name));
        true
    }

    /// Pushes a pair of words, the high one first.
    pub fn push_long(&mut self, hi: Addr<'a>, lo: Addr<'a>)
        requires
            old(self).cx.env.wf(),
            plan_push_long(old(self).cx, hi, lo) is Emit,
        ensures
            final(self).wrote(*old(self), plan_push_long(old(self).cx, hi, lo)),
    {
        self.put(push(word(hi)));
        self.put(push(word(lo)));
    }

    /// Emits what [`plan_global_long_div`] says, if it applies.
    pub fn try_global_long_div(&mut self, name: &'a String, value: &'a Expr) -> (done: bool)
        requires
            old(self).cx.env.wf(),
            !(plan_global_long_div(old(self).cx, name, value) is Stuck),
        ensures
            final(self).ran(*old(self), plan_global_long_div(old(self).cx, name, value), done),
    {
        let cx: Cx<'a> = self.cx;
        let ExprKind::BinOp { op, left, right } = &value.kind else { return false; };
        if !is_division(*op) {
            return false;
        }
        let ExprKind::Ident(a) = &left.kind else { return false; };
        let ExprKind::Ident(b) = &right.kind else { return false; };
        if !(cx.env.is_long_global(a) && cx.env.is_long_global(b)) {
            return false;
        }
        self.push_long(global2(b), global(b));
        self.push_long(global2(a), global(a));
        self.put(call(divider(*op, cx.env.is_unsigned_global(a) || cx.env.is_unsigned_global(b))));
        self.store_result(global2(name), global(name));
        true
    }

    /// Multiplies the pair at one place, taken in `cx:bx`, by the pair at
    /// another, taken in `dx:ax`.
    pub fn multiply_long(
        &mut self,
        a_hi: Addr<'a>,
        a_lo: Addr<'a>,
        b_hi: Addr<'a>,
        b_lo: Addr<'a>,
    )
        requires
            old(self).cx.env.wf(),
            plan_multiply_long(old(self).cx, a_hi, a_lo, b_hi, b_lo) is Emit,
        ensures
            final(self).wrote(
                *old(self),
                plan_multiply_long(old(self).cx, a_hi, a_lo, b_hi, b_lo),
            ),
    {
        self.put(mov(cx_(), word(a_hi)));
        self.put(mov(bx(), word(a_lo)));
        self.put(mov(dx(), word(b_hi)));
        self.put(mov(ax(), word(b_lo)));
        self.put(call(Helper::LongMul));
    }

    /// Emits what [`plan_global_long_mul`] says, if it applies.
    pub fn try_global_long_mul(&mut self, name: &'a String, value: &'a Expr) -> (done: bool)
        requires
            old(self).cx.env.wf(),
            !(plan_global_long_mul(old(self).cx, name, value) is Stuck),
        ensures
            final(self).ran(*old(self), plan_global_long_mul(old(self).cx, name, value), done),
    {
        let cx: Cx<'a> = self.cx;
        let ExprKind::BinOp { op: BinOp::Mul, left, right } = &value.kind else { return false; };
        let ExprKind::Ident(a) = &left.kind else { return false; };
        let ExprKind::Ident(b) = &right.kind else { return false; };
        if !(cx.env.is_long_global(a) && cx.env.is_long_global(b)) {
            return false;
        }
        self.multiply_long(global2(a), global(a), global2(b), global(b));
        self.store_result(global2(name), global(name));
        true
    }

    /// Emits what [`plan_global_long_shift`] says, if it applies.
    pub fn try_global_long_shift(&mut self, name: &'a String, value: &'a Expr) -> (done: bool)
        requires
            old(self).cx.env.wf(),
            !(plan_global_long_shift(old(self).cx, name, value) is Stuck),
        ensures
            final(self).ran(*old(self), plan_global_long_shift(old(self).cx, name, value), done),
    {
        let cx: Cx<'a> = self.cx;
        let ExprKind::BinOp { op, left, right } = &value.kind else { return false; };
        if !is_shift(*op) {
            return false;
        }
        let ExprKind::Ident(a) = &left.kind else { return false; };
        if !cx.env.is_long_global(a) {
            return false;
        }
        let Some(k) = cx.env.const_of(&**right) else { return false; };
        if !(k > 1 && k <= 255) {
            return false;
        }
        self.put(mov(dx(), word(global2(a))));
        self.put(mov(ax(), word(global(a))));
        self.put(mov(cl(), imm(k as i64)));
        self.put(call(shifter(*op, cx.env.is_unsigned_global(a))));
        self.store_result(global2(name), global(name));
        true
    }

    /// Negates the pair `ax:dx`: the high half goes first, so that the borrow of
    /// the low half is at hand.
    pub fn negate_halves(&mut self)
        requires
            old(self).cx.env.wf(),
            plan_negate_halves(old(self).cx) is Emit,
        ensures
            final(self).wrote(*old(self), plan_negate_halves(old(self).cx)),
    {
        self.put(op1(Mnemonic::Neg, ax()));
        self.put(op1(Mnemonic::Neg, dx()));
        self.put(op2(Mnemonic::Sbb, ax(), imm(0)));
    }

    /// Emits what [`plan_global_long_neg`] says, if it applies.
    pub fn try_global_long_neg(&mut self, name: &'a String, value: &'a Expr) -> (done: bool)
        requires
            old(self).cx.env.wf(),
            !(plan_global_long_neg(old(self).cx, name, value) is Stuck),
        ensures
            final(self).ran(*old(self), plan_global_long_neg(old(self).cx, name, value), done),
    {
        let cx: Cx<'a> = self.cx;
        let ExprKind::Unary { op: UnaryOp::Neg, operand } = &value.kind else { return false; };
        let ExprKind::Ident(a) = &operand.kind else { return false; };
        if !cx.env.is_long_global(a) {
            return false;
        }
        self.load_halves(global2(a), global(a));
        self.negate_halves();
        self.store_halves(global2(name), global(name));
        true
    }

    /// Emits what [`plan_global_long_pair`] says, if it applies.
    pub fn try_global_long_pair(&mut self, name: &'a String, value: &'a Expr) -> (done: bool)
        requires
            old(self).cx.env.wf(),
            !(plan_global_long_pair(old(self).cx, name, value) is Stuck),
        ensures
            final(self).ran(*old(self), plan_global_long_pair(old(self).cx, name, value), done),
    {
        let cx: Cx<'a> = self.cx;
        let ExprKind::BinOp { op, left, right } = &value.kind else { return false; };
        if !is_direct(*op) {
            return false;
        }
        let Some((a_hi, a_lo)) = &cx.env.facts(&**left).long_addrs else { return false; };
        let Some((b_hi, b_lo)) = &cx.env.facts(&**right).long_addrs else { return false; };
        self.load_halves(named(a_hi), named(a_lo));
        self.put(op2(direct(*op), dx(), word(named(b_lo))));
        self.put(op2(direct_high(*op), ax(), word(named(b_hi))));
        self.store_halves(global2(name), global(name));
        true
    }

    /// Emits what [`plan_global_long_add_const`] says, if it applies.
    pub fn try_global_long_add_const(&mut self, name: &'a String, value: &'a Expr) -> (done: bool)
        requires
            old(self).cx.env.wf(),
            !(plan_global_long_add_const(old(self).cx, name, value) is Stuck),
        ensures
            final(self).ran(
                *old(self),
                plan_global_long_add_const(old(self).cx, name, value),
                done,
            ),
    {
        let cx: Cx<'a> = self.cx;
        let ExprKind::BinOp { op, left, right } = &value.kind else { return false; };
        if !is_additive(*op) {
            return false;
        }
        let Some((hi, lo)) = &cx.env.facts(&**left).long_addrs else { return false; };
        let Some(k) = cx.env.const_of(&**right) else { return false; };
        if !(*op == BinOp::Add || k != 0x8000_0000) {
            return false;
        }
        self.load_halves(named(hi), named(lo));
        self.put(add_to(dx(), imm(long_delta(*op, k))));
        self.put(op2(Mnemonic::Adc, ax(), imm(if *op == BinOp::Add { 0i64 } else { -1i64 })));
        self.store_halves(global2(name), global(name));
        true
    }

    /// Emits what [`plan_global_long_int_plus`] says, if it applies.
    pub fn try_global_long_int_plus(&mut self, name: &'a String, value: &'a Expr) -> (done: bool)
        requires
            old(self).cx.env.wf(),
            !(plan_global_long_int_plus(old(self).cx, name, value) is Stuck),
        ensures
            final(self).ran(
                *old(self),
                plan_global_long_int_plus(old(self).cx, name, value),
                done,
            ),
    {
        let cx: Cx<'a> = self.cx;
        let ExprKind::BinOp { op: BinOp::Add, left, right } = &value.kind else { return false; };
        let ExprKind::Ident(i) = &left.kind else { return false; };
        if !cx.env.is_int_global(i) {
            return false;
        }
        let ExprKind::Ident(g) = &right.kind else { return false; };
        if !(same_name(g, name)) {
            return false;
        }
        self.put(mov(ax(), word(global(i))));
        self.put(cwd());
        self.put(add_to(ax(), word(global(name))));
        self.put(op2(Mnemonic::Adc, dx(), word(global2(name))));
        self.store_result(global2(name), global(name));
        true
    }

    /// Emits what [`plan_global_long_op_int`] says, if it applies.
    pub fn try_global_long_op_int(&mut self, name: &'a String, value: &'a Expr) -> (done: bool)
        requires
            old(self).cx.env.wf(),
            !(plan_global_long_op_int(old(self).cx, name, value) is Stuck),
        ensures
            final(self).ran(*old(self), plan_global_long_op_int(old(self).cx, name, value), done),
    {
        let cx: Cx<'a> = self.cx;
        let ExprKind::BinOp { op, left, right } = &value.kind else { return false; };
        let ExprKind::Ident(g) = &left.kind else { return false; };
        if !(same_name(g, name)) {
            return false;
        }
        let ExprKind::Ident(i) = &right.kind else { return false; };
        if !cx.env.is_int_global(i) {
            return false;
        }
        if !is_direct(*op) {
            return false;
        }
        self.put(mov(ax(), word(global(i))));
        self.put(cwd());
        self.put(mov(bx(), word(global2(name))));
        self.put(mov(cx_(), word(global(name))));
        self.put(op2(direct(*op), cx_(), ax()));
        self.put(op2(direct_high(*op), bx(), dx()));
        self.put(mov(word(global2(name)), bx()));
        self.put(mov(word(global(name)), cx_()));
        true
    }

    /// Emits what [`plan_global_long_widen`] says, if it applies.
    pub fn try_global_long_widen(&mut self, name: &'a String, value: &'a Expr) -> (done: bool)
        requires
            old(self).cx.env.wf(),
            !(plan_global_long_widen(old(self).cx, name, value) is Stuck),
        ensures
            final(self).ran(*old(self), plan_global_long_widen(old(self).cx, name, value), done),
    {
        let cx: Cx<'a> = self.cx;
        let Some(src) = widened_name(value) else { return false; };
        let Some(sty) = cx.env.global_type(src) else { return false; };
        match sty {
            Type::Char => {
                self.put(mov(al(), byte(global(src))));
                self.put(cbw());
                self.put(cwd());
                self.put(mov(word(global2(name)), dx()));
                self.put(mov(word(global(name)), ax()));
                return true;
            },
            Type::UInt => {
                self.put(mov(ax(), word(global(src))));
                self.put(mov(word(global2(name)), imm(0)));
                self.put(mov(word(global(name)), ax()));
                return true;
            },
            Type::Int => {
                self.put(mov(ax(), word(global(src))));
                self.put(cwd());
                self.put(mov(word(global2(name)), dx()));
                self.put(mov(word(global(name)), ax()));
                return true;
            },
            _ => {
                return false;
            },
        }
    }

    /// Emits what [`plan_global_long_local_elem`] says, if it applies.
    pub fn try_global_long_local_elem(
        &mut self,
        name: &'a String,
        value: &'a Expr,
    ) -> (done: bool)
        requires
            old(self).cx.env.wf(),
            !(plan_global_long_local_elem(old(self).cx, name, value) is Stuck),
        ensures
            final(self).ran(
                *old(self),
                plan_global_long_local_elem(old(self).cx, name, value),
                done,
            ),
    {
        let cx: Cx<'a> = self.cx;
        let ExprKind::ArrayIndex { array, index } = &value.kind else { return false; };
        let ExprKind::Ident(arr) = &array.kind else { return false; };
        let Some(elem_ty) = cx.env.local_elem(arr) else { return false; };
        if !elem_ty.is_long_like() {
            return false;
        }
        let Some(k) = cx.env.const_of(&**index) else { return false; };
        let Some(base) = cx.env.stack_of(arr) else { return false; };
        if !(k <= 8191 || k >= 0xFFFF_E000) {
            return false;
        }
        self.copy_long(global2(name), global(name), bp_plus2(base, scaled(k, 4)), bp_plus(base, scaled(k, 4)));
        true
    }

    /// Emits what [`plan_global_long_global_elem`] says, if it applies.
    pub fn try_global_long_global_elem(
        &mut self,
        name: &'a String,
        value: &'a Expr,
    ) -> (done: bool)
        requires
            old(self).cx.env.wf(),
            !(plan_global_long_global_elem(old(self).cx, name, value) is Stuck),
        ensures
            final(self).ran(
                *old(self),
                plan_global_long_global_elem(old(self).cx, name, value),
                done,
            ),
    {
        let cx: Cx<'a> = self.cx;
        let ExprKind::ArrayIndex { array, index } = &value.kind else { return false; };
        let ExprKind::Ident(arr) = &array.kind else { return false; };
        let Some(elem_ty) = cx.env.global_elem(arr) else { return false; };
        if !elem_ty.is_long_like() {
            return false;
        }
        match cx.env.const_of(&**index) {
            Some(k) => {
                if !(k < 0x2000_0000 || k >= 0xE000_0000) {
                    return false;
                }
                self.copy_long(global2(name), global(name), global_at(arr, disp2(scaled(k, 4))), global_at(arr, disp(scaled(k, 4))));
                return true;
            },
            None => {
                self.emit_index_into_bx_long_stride(&**index);
                self.copy_long(global2(name), global(name), elem2(arr, Reg::Bx), elem(arr, Reg::Bx));
                return true;
            },
        }
    }

    /// Emits what [`plan_global_long_deref`] says, if it applies.
    pub fn try_global_long_deref(&mut self, name: &'a String, value: &'a Expr) -> (done: bool)
        requires
            old(self).cx.env.wf(),
            !(plan_global_long_deref(old(self).cx, name, value) is Stuck),
        ensures
            final(self).ran(*old(self), plan_global_long_deref(old(self).cx, name, value), done),
    {
        let cx: Cx<'a> = self.cx;
        let ExprKind::Deref(inner) = &value.kind else { return false; };
        let ExprKind::Ident(p) = &inner.kind else { return false; };
        let Some(t) = cx.env.local_pointee(p) else { return false; };
        if !t.is_long_like() {
            return false;
        }
        let Some(reg) = cx.env.reg_of(p) else { return false; };
        self.copy_long(global2(name), global(name), at2(reg), at(reg));
        true
    }

    /// Emits what [`plan_global_long_member`] says, if it applies.
    pub fn try_global_long_member(&mut self, name: &'a String, value: &'a Expr) -> (done: bool)
        requires
            old(self).cx.env.wf(),
            !(plan_global_long_member(old(self).cx, name, value) is Stuck),
        ensures
            final(self).ran(*old(self), plan_global_long_member(old(self).cx, name, value), done),
    {
        let cx: Cx<'a> = self.cx;
        let ExprKind::Member { base: _, field: _, kind: MemberKind::Dot } = &value.kind else { return false; };
        let Some(chain) = &cx.env.facts(value).dot_chain else { return false; };
        if !chain.ty.is_long_like() {
            return false;
        }
        if cx.env.is_global(&chain.name) {
            self.copy_long(global2(name), global(name), global_at(&chain.name, disp2(chain.off)), global_at(&chain.name, disp(chain.off)));
            return true;
        } else {
            let Some(base) = cx.env.stack_of(&chain.name) else { return false; };
            self.copy_long(global2(name), global(name), bp_plus2(base, sat16(chain.off)), bp_plus(base, sat16(chain.off)));
            return true;
        }
    }

    /// A 32-bit variable.
    pub fn assign_global_long(&mut self, name: &'a String, value: &'a Expr)
        requires
            old(self).cx.env.wf(),
            plan_assign_global_long(old(self).cx, name, value) is Emit,
        ensures
            final(self).wrote(*old(self), plan_assign_global_long(old(self).cx, name, value)),
    {
        if self.try_global_long_const(name, value) {
            return;
        }
        if self.try_global_long_global(name, value) {
            return;
        }
        if self.try_global_long_local(name, value) {
            return;
        }
        if self.try_global_long_call(name, value) {
            return;
        }
        if self.try_global_long_not(name, value) {
            return;
        }
        if self.try_global_long_double(name, value) {
            return;
        }
        if self.try_global_long_halve(name, value) {
            return;
        }
        if self.try_global_long_div(name, value) {
            return;
        }
        if self.try_global_long_mul(name, value) {
            return;
        }
        if self.try_global_long_shift(name, value) {
            return;
        }
        if self.try_global_long_neg(name, value) {
            return;
        }
        if self.try_global_long_pair(name, value) {
            return;
        }
        if self.try_global_long_add_const(name, value) {
            return;
        }
        if self.try_global_long_int_plus(name, value) {
            return;
        }
        if self.try_global_long_op_int(name, value) {
            return;
        }
        if self.try_global_long_widen(name, value) {
            return;
        }
        if self.try_global_long_local_elem(name, value) {
            return;
        }
        if self.try_global_long_global_elem(name, value) {
            return;
        }
        if self.try_global_long_deref(name, value) {
            return;
        }
        if self.try_global_long_member(name, value) {
            return;
        }
        return;
    }

    /// Emits what [`plan_global_const`] says, if it applies.
    pub fn try_global_const(
        &mut self,
        name: &'a String,
        ty: &'a Type,
        value: &'a Expr,
    ) -> (done: bool)
        requires
            old(self).cx.env.wf(),
            !(plan_global_const(old(self).cx, name, ty, value) is Stuck),
        ensures
            final(self).ran(*old(self), plan_global_const(old(self).cx, name, ty, value), done),
    {
        let cx: Cx<'a> = self.cx;
        let Some(v) = cx.env.const_of(value) else { return false; };
        self.put(mov(sized(ty.is_char_like(), global(name)), imm(masked(v, ty.is_char_like()))));
        true
    }

    /// Emits what [`plan_global_register`] says, if it applies.
    pub fn try_global_register(
        &mut self,
        name: &'a String,
        ty: &'a Type,
        value: &'a Expr,
    ) -> (done: bool)
        requires
            old(self).cx.env.wf(),
            !(plan_global_register(old(self).cx, name, ty, value) is Stuck),
        ensures
            final(self).ran(
                *old(self),
                plan_global_register(old(self).cx, name, ty, value),
                done,
            ),
    {
        let cx: Cx<'a> = self.cx;
        if !(!ty.is_char_like()) {
            return false;
        }
        let ExprKind::Ident(src) = &value.kind else { return false; };
        let Some(reg) = cx.env.word_reg_of(src) else { return false; };
        self.put(mov(word(global(name)), r(reg)));
        true
    }

    /// Emits what [`plan_global_address`] says, if it applies.
    pub fn try_global_address(
        &mut self,
        name: &'a String,
        ty: &'a Type,
        value: &'a Expr,
    ) -> (done: bool)
        requires
            old(self).cx.env.wf(),
            !(plan_global_address(old(self).cx, name, ty, value) is Stuck),
        ensures
            final(self).ran(*old(self), plan_global_address(old(self).cx, name, ty, value), done),
    {
        let cx: Cx<'a> = self.cx;
        if !(!ty.is_char_like()) {
            return false;
        }
        let ExprKind::AddressOf(src) = &value.kind else { return false; };
        if !cx.env.is_global(src) {
            return false;
        }
        self.put(mov(word(global(name)), offset_of(src, Disp::Zero)));
        true
    }

    /// Emits what [`plan_global_array`] says, if it applies.
    pub fn try_global_array(
        &mut self,
        name: &'a String,
        ty: &'a Type,
        value: &'a Expr,
    ) -> (done: bool)
        requires
            old(self).cx.env.wf(),
            !(plan_global_array(old(self).cx, name, ty, value) is Stuck),
        ensures
            final(self).ran(*old(self), plan_global_array(old(self).cx, name, ty, value), done),
    {
        let cx: Cx<'a> = self.cx;
        if !(!ty.is_char_like()) {
            return false;
        }
        let ExprKind::Ident(src) = &value.kind else { return false; };
        if !cx.env.global_elem(src).is_some() {
            return false;
        }
        self.put(mov(word(global(name)), offset_of(src, Disp::Zero)));
        true
    }

    /// Emits what [`plan_global_elem_address`] says, if it applies.
    pub fn try_global_elem_address(
        &mut self,
        name: &'a String,
        ty: &'a Type,
        value: &'a Expr,
    ) -> (done: bool)
        requires
            old(self).cx.env.wf(),
            !(plan_global_elem_address(old(self).cx, name, ty, value) is Stuck),
        ensures
            final(self).ran(
                *old(self),
                plan_global_elem_address(old(self).cx, name, ty, value),
                done,
            ),
    {
        let cx: Cx<'a> = self.cx;
        if !(!ty.is_char_like()) {
            return false;
        }
        let ExprKind::AddressOfArrayElem { array, byte_offset } = &value.kind else { return false; };
        if !cx.env.is_global(array) {
            return false;
        }
        self.put(mov(word(global(name)), offset_of(array, plus(*byte_offset as i64))));
        true
    }

    /// Emits what [`plan_global_general`] says, if it applies.
    pub fn try_global_general(
        &mut self,
        name: &'a String,
        ty: &'a Type,
        value: &'a Expr,
    ) -> (done: bool)
        requires
            old(self).cx.env.wf(),
            !(plan_global_general(old(self).cx, name, ty, value) is Stuck),
        ensures
            final(self).ran(*old(self), plan_global_general(old(self).cx, name, ty, value), done),
    {
        let cx: Cx<'a> = self.cx;
        if ty.is_char_like() {
            self.put(to_ax(cx, value));
            self.put(mov(byte(global(name)), al()));
            return true;
        } else {
            self.put(to_ax(cx, value));
            self.put(Step::StoreCollapsed(word(global(name))));
            return true;
        }
    }

    /// Assigns a value to a file-scope variable.
    pub fn emit_assign_global(&mut self, name: &'a String, value: &'a Expr)
        requires
            old(self).cx.env.wf(),
            plan_emit_assign_global(old(self).cx, name, value) is Emit,
        ensures
            final(self).wrote(*old(self), plan_emit_assign_global(old(self).cx, name, value)),
    {
        let cx: Cx<'a> = self.cx;
        let Some(ty) = cx.env.global_type(name) else { return; };
        if self.try_global_float(name, ty, value) {
            return;
        }
        if self.try_global_struct_copy(name, ty, value) {
            return;
        }
        if self.try_global_struct_call(name, ty, value) {
            return;
        }
        if ty.is_long_like() {
            self.assign_global_long(name, value);
        } else {
            if self.try_global_const(name, ty, value) {
                return;
            }
            if self.try_global_register(name, ty, value) {
                return;
            }
            if self.try_global_address(name, ty, value) {
                return;
            }
            if self.try_global_array(name, ty, value) {
                return;
            }
            if self.try_global_elem_address(name, ty, value) {
                return;
            }
            self.try_global_general(name, ty, value);
            return;
        }
    }
}

} // verus!
