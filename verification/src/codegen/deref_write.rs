//! Writing through pointers.

use vstd::prelude::*;
use crate::ast::{BinOp, Expr, ExprKind, Type, UpdateOp, UpdatePosition};
use crate::codegen::emitter::{
    add_to, cwd, idiv, imul, lea, mov, op1, op2, shl1, to_ax, Cx, FunctionEmitter, Plan, Step,
};
use crate::codegen::env::{chain_type, deref_chain_root, is_plain_int, Env, LocalLocation};
use crate::isa::{
    acc, al, at, at2, at_disp, ax, bp, bx, byte, cl, direct, disp, given, imm, is_additive,
    is_direct, is_multiplicative, is_shift, lo16, lo8, masked, named, neg8, offset_of, quotient,
    r, scaled, seg_at, shift, sized, step_by_one, update, word, Addr, Disp, Mnemonic, Operand,
    Reg,
};

verus! {

/// An element of an `int` array on the stack with its subscript in a
/// register: the address is formed in `bx` before the value is computed.
pub open spec fn plan_emit_assign_lvalue_addr_first<'a>(
    cx: Cx<'a>,
    target: &'a Expr,
    value: &'a Expr,
) -> Plan<'a> {
    if let ExprKind::ArrayIndex { array, index } = &target.kind {
        if let ExprKind::Ident(name) = &array.kind {
            if let Some(elem_ty) = cx.env.local_elem(name) {
                if is_plain_int(elem_ty) {
                    if let Some(base) = cx.env.stack_of(name) {
                        if cx.env.const_of(&**index).is_none() {
                            if let ExprKind::Ident(i) = &index.kind {
                                if let Some(reg) = cx.env.reg_of(i) {
                                    Plan::Emit(seq![
                                        mov(bx(), r(reg)),
                                        shl1(bx()),
                                        lea(ax(), bp(base)),
                                        add_to(bx(), ax()),
                                        to_ax(cx, value),
                                        mov(word(at(Reg::Bx)), ax()),
                                    ])
                                } else {
                                    Plan::Skip
                                }
                            } else {
                                Plan::Skip
                            }
                        } else {
                            Plan::Skip
                        }
                    } else {
                        Plan::Skip
                    }
                } else {
                    Plan::Skip
                }
            } else {
                Plan::Skip
            }
        } else {
            Plan::Skip
        }
    } else {
        Plan::Skip
    }
}

/// `*p` as the target of a value in `ax`.
pub open spec fn plan_store_through_name<'a>(cx: Cx<'a>, target: &'a Expr) -> Plan<'a> {
    if let ExprKind::Deref(inner) = &target.kind {
        if let ExprKind::Ident(name) = &inner.kind {
            if let Some(l) = cx.env.local(name) {
                if let Some(t) = l.ty.pointee() {
                    match l.loc {
                        LocalLocation::Reg(reg) => {
                            Plan::Emit(seq![
                                mov(sized(t.is_char_like(), at(reg)), acc(t.is_char_like())),
                            ])
                        },
                        LocalLocation::Stack(off) => {
                            Plan::Emit(seq![
                                mov(bx(), word(bp(off))),
                                mov(sized(t.is_char_like(), at(Reg::Bx)), acc(t.is_char_like())),
                            ])
                        },
                    }
                } else {
                    Plan::Stuck
                }
            } else {
                Plan::Skip
            }
        } else {
            Plan::Skip
        }
    } else {
        Plan::Skip
    }
}

/// `*p++` as the target of a value in `ax`: the pointer moves on before the
/// store.
pub open spec fn plan_store_through_post<'a>(cx: Cx<'a>, target: &'a Expr) -> Plan<'a> {
    if let ExprKind::Deref(inner) = &target.kind {
        if let ExprKind::Update { target: p, op: UpdateOp::Inc, position: UpdatePosition::Post } = &inner.kind {
            if let Some(reg) = cx.env.reg_of(p) {
                if let Some(t) = cx.env.local_pointee(p) {
                    Plan::Emit(seq![mov(bx(), r(reg))]).followed_by(
                        crate::codegen::common::plan_advance(cx, UpdateOp::Inc, reg, (t.size() as u16)),
                    ).followed_by(
                        Plan::Emit(seq![
                            mov(sized(t.is_char_like(), at(Reg::Bx)), acc(t.is_char_like())),
                        ]),
                    )
                } else {
                    Plan::Skip
                }
            } else {
                Plan::Skip
            }
        } else {
            Plan::Skip
        }
    } else {
        Plan::Skip
    }
}

/// Stores `ax` through a pointer and leaves it intact.
pub open spec fn plan_emit_store_ax_to_lvalue<'a>(cx: Cx<'a>, target: &'a Expr) -> Plan<'a> {
    match plan_store_through_name(cx, target) {
        Plan::Skip => {
            match plan_store_through_post(cx, target) {
                Plan::Skip => {
                    Plan::Stuck
                },
                taken => taken,
            }
        },
        taken => taken,
    }
}

/// `*(s + x) = v` for a `_seg` pointer.
pub open spec fn plan_deref_assign_selector<'a>(
    cx: Cx<'a>,
    target: &'a Expr,
    value: &'a Expr,
) -> Plan<'a> {
    if let ExprKind::BinOp { op: BinOp::Add, left, right } = &target.kind {
        if let ExprKind::Ident(name) = &left.kind {
            if let Some(l) = cx.env.local(name) {
                if l.is_selector {
                    if let Some(t) = l.ty.pointee() {
                        Plan::Emit(seq![Step::SelectorWrite(name, t, &**right, value)])
                    } else {
                        Plan::Stuck
                    }
                } else {
                    Plan::Skip
                }
            } else {
                Plan::Skip
            }
        } else {
            Plan::Skip
        }
    } else {
        Plan::Skip
    }
}

/// `*p = v` for a pointer with a segment register of its own.
pub open spec fn plan_deref_assign_segment<'a>(
    cx: Cx<'a>,
    target: &'a Expr,
    value: &'a Expr,
) -> Plan<'a> {
    if let ExprKind::Ident(name) = &target.kind {
        if let Some(l) = cx.env.local(name) {
            if let Some(seg) = l.seg {
                if let LocalLocation::Reg(reg) = l.loc {
                    if let Some(t) = l.ty.pointee() {
                        crate::codegen::common::plan_store_value(cx, t.is_char_like(), seg_at(seg, reg), value)
                    } else {
                        Plan::Stuck
                    }
                } else {
                    Plan::Skip
                }
            } else {
                Plan::Skip
            }
        } else {
            Plan::Skip
        }
    } else {
        Plan::Skip
    }
}

/// `*(p + k) = v` with a constant offset.
pub open spec fn plan_deref_assign_offset<'a>(
    cx: Cx<'a>,
    target: &'a Expr,
    value: &'a Expr,
) -> Plan<'a> {
    if let ExprKind::BinOp { op: BinOp::Add, left, right } = &target.kind {
        if let ExprKind::Ident(name) = &left.kind {
            if let Some(l) = cx.env.local(name) {
                if let Some(t) = l.ty.pointee() {
                    if let Some(k) = cx.env.const_of(&**right) {
                        let d = disp(scaled(k, (t.size() as u16)));
                        match l.loc {
                            LocalLocation::Reg(reg) => {
                                crate::codegen::common::plan_store_value(cx, t.is_char_like(), at_disp(reg, d), value)
                            },
                            LocalLocation::Stack(off) => {
                                Plan::Emit(seq![mov(bx(), word(bp(off)))]).followed_by(
                                    crate::codegen::common::plan_store_value(cx, t.is_char_like(), at_disp(Reg::Bx, d), value),
                                )
                            },
                        }
                    } else {
                        Plan::Skip
                    }
                } else {
                    Plan::Skip
                }
            } else {
                Plan::Skip
            }
        } else {
            Plan::Skip
        }
    } else {
        Plan::Skip
    }
}

/// `*a[k] = v` for an array of pointers.
pub open spec fn plan_deref_assign_elem<'a>(
    cx: Cx<'a>,
    target: &'a Expr,
    value: &'a Expr,
) -> Plan<'a> {
    if let ExprKind::ArrayIndex { array, index } = &target.kind {
        if let ExprKind::Ident(name) = &array.kind {
            if let Some(elem_ty) = cx.env.array_elem_of(name) {
                if let Some(t) = elem_ty.pointee() {
                    if let Some(k) = cx.env.const_of(&**index) {
                        crate::codegen::deref_read::plan_pointer_elem_to_bx(cx, name, k, (elem_ty.size() as u16)).followed_by(
                            crate::codegen::common::plan_store_value(cx, t.is_char_like(), at(Reg::Bx), value),
                        )
                    } else {
                        Plan::Skip
                    }
                } else {
                    Plan::Skip
                }
            } else {
                Plan::Skip
            }
        } else {
            Plan::Skip
        }
    } else {
        Plan::Skip
    }
}

/// `*f() = v`.
pub open spec fn plan_deref_assign_call<'a>(
    cx: Cx<'a>,
    target: &'a Expr,
    value: &'a Expr,
) -> Plan<'a> {
    if let ExprKind::Call { name, args } = &target.kind {
        if let Some(ret) = cx.env.ret_ty_of(name) {
            if let Some(t) = ret.pointee() {
                Plan::Emit(seq![
                    Step::CallFn(name, args),
                    mov(bx(), ax()),
                ]).followed_by(
                    crate::codegen::common::plan_store_value(cx, t.is_char_like(), at(Reg::Bx), value),
                )
            } else {
                Plan::Skip
            }
        } else {
            Plan::Skip
        }
    } else {
        Plan::Skip
    }
}

/// `*d++ = *s++` between words, and the other updates of `s`.
pub open spec fn plan_post_copy_words<'a>(
    cx: Cx<'a>,
    reg: Reg,
    t: &'a Type,
    value: &'a Expr,
) -> Plan<'a> {
    if let ExprKind::Deref(inner) = &value.kind {
        if let ExprKind::Update { target: src, op, position } = &inner.kind {
            if let Some(from) = cx.env.word_reg_of(src) {
                if let Some(st) = cx.env.local_pointee(src) {
                    if st.is_int_like() && t.is_int_like() {
                        (if *position == UpdatePosition::Pre {
                            crate::codegen::common::plan_advance(cx, *op, from, (st.size() as u16)).followed_by(
                                Plan::Emit(seq![
                                    mov(ax(), word(at(from))),
                                    mov(word(at(reg)), ax()),
                                ]),
                            )
                        } else {
                            Plan::Emit(seq![
                                mov(ax(), word(at(from))),
                                mov(word(at(reg)), ax()),
                            ]).followed_by(
                                crate::codegen::common::plan_advance(cx, *op, from, (st.size() as u16)),
                            )
                        }).followed_by(
                            crate::codegen::common::plan_advance(cx, UpdateOp::Inc, reg, (t.size() as u16)),
                        )
                    } else {
                        Plan::Skip
                    }
                } else {
                    Plan::Skip
                }
            } else {
                Plan::Skip
            }
        } else {
            Plan::Skip
        }
    } else {
        Plan::Skip
    }
}

/// `*d++ = *s++` between characters, and the other updates of `s`.
pub open spec fn plan_post_copy_bytes<'a>(
    cx: Cx<'a>,
    reg: Reg,
    t: &'a Type,
    value: &'a Expr,
) -> Plan<'a> {
    if t.is_char_like() {
        if let ExprKind::Deref(inner) = &value.kind {
            if let ExprKind::Update { target: src, op, position } = &inner.kind {
                if let Some(from) = cx.env.word_reg_of(src) {
                    if let Some(st) = cx.env.local_pointee(src) {
                        if st.is_char_like() {
                            Plan::Emit(if *position == UpdatePosition::Pre {
                                seq![op1(update(*op), r(from))]
                            } else {
                                seq![]
                            }).followed_by(
                                Plan::Emit(seq![
                                    mov(al(), byte(at(from))),
                                    mov(byte(at(reg)), al()),
                                ]),
                            ).followed_by(
                                Plan::Emit(if *position == UpdatePosition::Post {
                                    seq![op1(update(*op), r(from))]
                                } else {
                                    seq![]
                                }),
                            ).followed_by(Plan::Emit(seq![op1(Mnemonic::Inc, r(reg))]))
                        } else {
                            Plan::Skip
                        }
                    } else {
                        Plan::Skip
                    }
                } else {
                    Plan::Skip
                }
            } else {
                Plan::Skip
            }
        } else {
            Plan::Skip
        }
    } else {
        Plan::Skip
    }
}

/// `*p++ = v`: the value is stored, and then the pointer moves on.
pub open spec fn plan_post_store<'a>(
    cx: Cx<'a>,
    reg: Reg,
    t: &'a Type,
    value: &'a Expr,
) -> Plan<'a> {
    match plan_post_copy_words(cx, reg, t, value) {
        Plan::Skip => {
            match plan_post_copy_bytes(cx, reg, t, value) {
                Plan::Skip => {
                    crate::codegen::common::plan_store_value(cx, t.is_char_like(), at(reg), value).followed_by(
                        crate::codegen::common::plan_advance(cx, UpdateOp::Inc, reg, (t.size() as u16)),
                    )
                },
                taken => taken,
            }
        },
        taken => taken,
    }
}

/// `*p++ = v` for a pointer in a register.
pub open spec fn plan_deref_assign_post<'a>(
    cx: Cx<'a>,
    target: &'a Expr,
    value: &'a Expr,
) -> Plan<'a> {
    if let ExprKind::Update { target: name, op: UpdateOp::Inc, position: UpdatePosition::Post } = &target.kind {
        if let Some(l) = cx.env.local(name) {
            if let Some(t) = l.ty.pointee() {
                if let LocalLocation::Reg(reg) = l.loc {
                    plan_post_store(cx, reg, t, value)
                } else {
                    Plan::Stuck
                }
            } else {
                Plan::Stuck
            }
        } else {
            Plan::Stuck
        }
    } else {
        Plan::Skip
    }
}

/// A 32-bit value through a register, the high word first.
pub open spec fn plan_through_long<'a>(
    cx: Cx<'a>,
    reg: Reg,
    t: &'a Type,
    value: &'a Expr,
) -> Plan<'a> {
    if t.is_long_like() {
        match cx.env.const_of(value) {
            Some(v) => {
                crate::codegen::common::plan_store_long_const(cx, at2(reg), at(reg), v)
            },
            None => {
                if let Some((hi, lo)) = &cx.env.facts(value).long_addrs {
                    crate::codegen::common::plan_copy_long(cx, at2(reg), at(reg), named(hi), named(lo))
                } else {
                    Plan::Stuck
                }
            },
        }
    } else {
        Plan::Skip
    }
}

/// A four-byte struct copied from behind another register.
pub open spec fn plan_through_struct<'a>(
    cx: Cx<'a>,
    reg: Reg,
    t: &'a Type,
    value: &'a Expr,
) -> Plan<'a> {
    if let Type::Struct { name: _, fields: _, size: _ } = t {
        if (t.size() as u16) == 4 {
            if let ExprKind::Deref(inner) = &value.kind {
                if let ExprKind::Ident(src) = &inner.kind {
                    if let Some(from) = cx.env.reg_of(src) {
                        if cx.env.local_pointee(src).is_some() {
                            crate::codegen::common::plan_copy_long(cx, at2(reg), at(reg), at2(from), at(from))
                        } else {
                            Plan::Skip
                        }
                    } else {
                        Plan::Skip
                    }
                } else {
                    Plan::Skip
                }
            } else {
                Plan::Skip
            }
        } else {
            Plan::Skip
        }
    } else {
        Plan::Skip
    }
}

/// A constant through a register.
pub open spec fn plan_through_const<'a>(
    cx: Cx<'a>,
    reg: Reg,
    t: &'a Type,
    value: &'a Expr,
) -> Plan<'a> {
    if let Some(v) = cx.env.const_of(value) {
        Plan::Emit(seq![
            mov(sized(t.is_char_like(), at(reg)), imm(masked(v, t.is_char_like()))),
        ])
    } else {
        Plan::Skip
    }
}

/// A word that is already in a register.
pub open spec fn plan_through_register<'a>(
    cx: Cx<'a>,
    reg: Reg,
    t: &'a Type,
    value: &'a Expr,
) -> Plan<'a> {
    if !t.is_char_like() {
        if let ExprKind::Ident(src) = &value.kind {
            if let Some(from) = cx.env.word_reg_of(src) {
                Plan::Emit(seq![mov(word(at(reg)), r(from))])
            } else {
                Plan::Skip
            }
        } else {
            Plan::Skip
        }
    } else {
        Plan::Skip
    }
}

/// The address of a file-scope variable.
pub open spec fn plan_through_address<'a>(
    cx: Cx<'a>,
    reg: Reg,
    t: &'a Type,
    value: &'a Expr,
) -> Plan<'a> {
    if !t.is_char_like() {
        if let ExprKind::AddressOf(name) = &value.kind {
            if cx.env.is_global(name) {
                Plan::Emit(seq![mov(word(at(reg)), offset_of(name, Disp::Zero))])
            } else {
                Plan::Skip
            }
        } else {
            Plan::Skip
        }
    } else {
        Plan::Skip
    }
}

/// A character copied from behind another register.
pub open spec fn plan_through_char_deref<'a>(
    cx: Cx<'a>,
    reg: Reg,
    t: &'a Type,
    value: &'a Expr,
) -> Plan<'a> {
    if t.is_char_like() {
        if let ExprKind::Deref(inner) = &value.kind {
            if let ExprKind::Ident(src) = &inner.kind {
                if let Some(st) = cx.env.local_pointee(src) {
                    if st.is_char_like() {
                        if let Some(from) = cx.env.word_reg_of(src) {
                            Plan::Emit(seq![
                                mov(al(), byte(at(from))),
                                mov(byte(at(reg)), al()),
                            ])
                        } else {
                            Plan::Skip
                        }
                    } else {
                        Plan::Skip
                    }
                } else {
                    Plan::Skip
                }
            } else {
                Plan::Skip
            }
        } else {
            Plan::Skip
        }
    } else {
        Plan::Skip
    }
}

/// A character copied from the stack.
pub open spec fn plan_through_char_local<'a>(
    cx: Cx<'a>,
    reg: Reg,
    t: &'a Type,
    value: &'a Expr,
) -> Plan<'a> {
    if t.is_char_like() {
        if let ExprKind::Ident(src) = &value.kind {
            if cx.env.is_char_local(src) {
                if let Some(off) = cx.env.stack_of(src) {
                    Plan::Emit(seq![
                        mov(al(), byte(bp(off))),
                        mov(byte(at(reg)), al()),
                    ])
                } else {
                    Plan::Skip
                }
            } else {
                Plan::Skip
            }
        } else {
            Plan::Skip
        }
    } else {
        Plan::Skip
    }
}

/// Stores a value of type `t` through a register.
pub open spec fn plan_store_through<'a>(
    cx: Cx<'a>,
    reg: Reg,
    t: &'a Type,
    value: &'a Expr,
) -> Plan<'a> {
    match plan_through_long(cx, reg, t, value) {
        Plan::Skip => {
            match plan_through_struct(cx, reg, t, value) {
                Plan::Skip => {
                    match plan_through_const(cx, reg, t, value) {
                        Plan::Skip => {
                            match plan_through_register(cx, reg, t, value) {
                                Plan::Skip => {
                                    match plan_through_address(cx, reg, t, value) {
                                        Plan::Skip => {
                                            match plan_through_char_deref(cx, reg, t, value) {
                                                Plan::Skip => {
                                                    match plan_through_char_local(cx, reg, t, value) {
                                                        Plan::Skip => {
                                                            Plan::Emit(seq![
                                                                to_ax(cx, value),
                                                                mov(sized(t.is_char_like(), at(reg)), acc(t.is_char_like())),
                                                            ])
                                                        },
                                                        taken => taken,
                                                    }
                                                },
                                                taken => taken,
                                            }
                                        },
                                        taken => taken,
                                    }
                                },
                                taken => taken,
                            }
                        },
                        taken => taken,
                    }
                },
                taken => taken,
            }
        },
        taken => taken,
    }
}

/// `*p = v` for a local pointer. A far pointer on the stack is loaded into
/// `es:bx`, a near one into `bx`.
pub open spec fn plan_deref_assign_local<'a>(
    cx: Cx<'a>,
    name: &'a String,
    depth: u32,
    value: &'a Expr,
) -> Plan<'a> {
    if depth == 0 && !cx.env.is_global(name) {
        if let Some(l) = cx.env.local(name) {
            if let Some(t) = l.ty.pointee() {
                match l.loc {
                    LocalLocation::Reg(reg) => {
                        plan_store_through(cx, reg, t, value)
                    },
                    LocalLocation::Stack(off) => {
                        match &l.ty {
                            Type::FarPointer { pointee: _, is_huge: _ } => {
                                Plan::Emit(seq![op2(Mnemonic::Les, bx(), word(bp(off)))]).followed_by(
                                    crate::codegen::common::plan_store_value(cx, t.is_char_like(), seg_at(Reg::Es, Reg::Bx), value),
                                )
                            },
                            _ => {
                                Plan::Emit(seq![mov(bx(), word(bp(off)))]).followed_by(
                                    plan_store_through(cx, Reg::Bx, t, value),
                                )
                            },
                        }
                    },
                }
            } else {
                Plan::Stuck
            }
        } else {
            Plan::Stuck
        }
    } else {
        Plan::Skip
    }
}

/// A value stored at the end of a chain of pointers.
pub open spec fn plan_deref_assign_chain<'a>(
    cx: Cx<'a>,
    name: &'a String,
    depth: u32,
    value: &'a Expr,
) -> Plan<'a> {
    if let Some(t) = chain_type(cx.env, name, depth) {
        Plan::Emit(seq![Step::ChainToBx(name, depth)]).followed_by(
            crate::codegen::common::plan_store_value(cx, t.is_char_like(), at(Reg::Bx), value),
        )
    } else {
        Plan::Stuck
    }
}

/// Stores a value through a pointer expression.
pub open spec fn plan_emit_deref_assign<'a>(
    cx: Cx<'a>,
    target: &'a Expr,
    value: &'a Expr,
) -> Plan<'a> {
    match plan_deref_assign_selector(cx, target, value) {
        Plan::Skip => {
            match plan_deref_assign_segment(cx, target, value) {
                Plan::Skip => {
                    match plan_deref_assign_offset(cx, target, value) {
                        Plan::Skip => {
                            match plan_deref_assign_elem(cx, target, value) {
                                Plan::Skip => {
                                    match plan_deref_assign_call(cx, target, value) {
                                        Plan::Skip => {
                                            match plan_deref_assign_post(cx, target, value) {
                                                Plan::Skip => {
                                                    if let Some((name, depth)) = deref_chain_root(target) {
                                                        match plan_deref_assign_local(cx, name, depth, value) {
                                                            Plan::Skip => {
                                                                plan_deref_assign_chain(cx, name, depth, value)
                                                            },
                                                            taken => taken,
                                                        }
                                                    } else {
                                                        Plan::Stuck
                                                    }
                                                },
                                                taken => taken,
                                            }
                                        },
                                        taken => taken,
                                    }
                                },
                                taken => taken,
                            }
                        },
                        taken => taken,
                    }
                },
                taken => taken,
            }
        },
        taken => taken,
    }
}

/// Whether a pointer variable is dereferenced once and is local.
#[verifier::allow_in_spec]
pub fn is_local_deref(env: &Env, name: &String, depth: u32) -> bool
    returns
        (depth == 0 && !env.is_global(name)),
{
    depth == 0 && !env.is_global(name)
}

/// `*p op= v` for a 32-bit integer behind a register.
pub open spec fn plan_deref_compound_long<'a>(
    cx: Cx<'a>,
    name: &'a String,
    depth: u32,
    op: BinOp,
    value: &'a Expr,
) -> Plan<'a> {
    if is_local_deref(cx.env, name, depth) {
        if let Some(l) = cx.env.local(name) {
            if let Some(t) = l.ty.pointee() {
                if t.is_long_like() {
                    if let LocalLocation::Reg(reg) = l.loc {
                        Plan::Emit(seq![
                            Step::LongCompound(at(reg), at2(reg), op, value, t.is_unsigned()),
                        ])
                    } else {
                        Plan::Skip
                    }
                } else {
                    Plan::Skip
                }
            } else {
                Plan::Skip
            }
        } else {
            Plan::Stuck
        }
    } else {
        Plan::Skip
    }
}

/// `(*p)++` and `(*p)--` of a character, as statements.
pub open spec fn plan_deref_compound_step<'a>(
    cx: Cx<'a>,
    name: &'a String,
    depth: u32,
    op: BinOp,
    value: &'a Expr,
    from_postfix: bool,
) -> Plan<'a> {
    if is_local_deref(cx.env, name, depth) {
        if from_postfix && is_additive(op) {
            if let Some(v) = cx.env.const_of(value) {
                if v == 1 {
                    if let Some(l) = cx.env.local(name) {
                        if let Some(t) = l.ty.pointee() {
                            if t.is_char_like() {
                                if let LocalLocation::Reg(reg) = l.loc {
                                    Plan::Emit(seq![op1(step_by_one(op), byte(at(reg)))])
                                } else {
                                    Plan::Skip
                                }
                            } else {
                                Plan::Skip
                            }
                        } else {
                            Plan::Skip
                        }
                    } else {
                        Plan::Stuck
                    }
                } else {
                    Plan::Skip
                }
            } else {
                Plan::Skip
            }
        } else {
            Plan::Skip
        }
    } else {
        Plan::Skip
    }
}

/// `*p op= d` of characters: the right side is loaded into `al`.
pub open spec fn plan_deref_compound_char<'a>(
    cx: Cx<'a>,
    name: &'a String,
    depth: u32,
    op: BinOp,
    value: &'a Expr,
) -> Plan<'a> {
    if is_local_deref(cx.env, name, depth) {
        if let Some(l) = cx.env.local(name) {
            if let Some(t) = l.ty.pointee() {
                if t.is_char_like() {
                    if let LocalLocation::Reg(reg) = l.loc {
                        if cx.env.const_of(value).is_none() {
                            if is_direct(op) {
                                if let Some(src) = &cx.env.facts(value).source {
                                    Plan::Emit(seq![
                                        mov(al(), given(&src.byte)),
                                        op2(direct(op), byte(at(reg)), al()),
                                    ])
                                } else {
                                    Plan::Stuck
                                }
                            } else {
                                Plan::Skip
                            }
                        } else {
                            Plan::Skip
                        }
                    } else {
                        Plan::Skip
                    }
                } else {
                    Plan::Skip
                }
            } else {
                Plan::Skip
            }
        } else {
            Plan::Stuck
        }
    } else {
        Plan::Skip
    }
}

/// `*p op= y` of integers: the right side is computed in `ax`.
pub open spec fn plan_deref_compound_int<'a>(
    cx: Cx<'a>,
    name: &'a String,
    depth: u32,
    op: BinOp,
    value: &'a Expr,
) -> Plan<'a> {
    if is_local_deref(cx.env, name, depth) {
        if let Some(l) = cx.env.local(name) {
            if let Some(t) = l.ty.pointee() {
                if is_plain_int(t) {
                    if let LocalLocation::Reg(reg) = l.loc {
                        if cx.env.const_of(value).is_none() {
                            if is_direct(op) {
                                Plan::Emit(seq![
                                    to_ax(cx, value),
                                    op2(direct(op), word(at(reg)), ax()),
                                ])
                            } else {
                                Plan::Skip
                            }
                        } else {
                            Plan::Skip
                        }
                    } else {
                        Plan::Skip
                    }
                } else {
                    Plan::Skip
                }
            } else {
                Plan::Skip
            }
        } else {
            Plan::Stuck
        }
    } else {
        Plan::Skip
    }
}

/// Multiplies or divides `ax` by an operand, signed.
pub open spec fn plan_multiply_or_divide<'a>(cx: Cx<'a>, op: BinOp, by: Operand<'a>) -> Plan<'a> {
    if op == BinOp::Mul {
        Plan::Emit(seq![imul(by)])
    } else {
        Plan::Emit(seq![
            cwd(),
            idiv(by),
        ])
    }
}

/// `*p *= y`, `*p /= y` and `*p %= y` with `y` on the stack.
pub open spec fn plan_deref_compound_mul<'a>(
    cx: Cx<'a>,
    name: &'a String,
    depth: u32,
    op: BinOp,
    value: &'a Expr,
) -> Plan<'a> {
    if is_local_deref(cx.env, name, depth) {
        if let Some(l) = cx.env.local(name) {
            if let Some(t) = l.ty.pointee() {
                if is_plain_int(t) {
                    if let LocalLocation::Reg(reg) = l.loc {
                        if cx.env.const_of(value).is_none() {
                            if is_multiplicative(op) {
                                if let ExprKind::Ident(b) = &value.kind {
                                    if !cx.env.is_global(b) {
                                        if let Some(off) = cx.env.stack_of(b) {
                                            Plan::Emit(seq![mov(ax(), word(at(reg)))]).followed_by(
                                                plan_multiply_or_divide(cx, op, word(bp(off))),
                                            ).followed_by(
                                                Plan::Emit(seq![mov(word(at(reg)), quotient(op))]),
                                            )
                                        } else {
                                            Plan::Stuck
                                        }
                                    } else {
                                        Plan::Skip
                                    }
                                } else {
                                    Plan::Skip
                                }
                            } else {
                                Plan::Skip
                            }
                        } else {
                            Plan::Skip
                        }
                    } else {
                        Plan::Skip
                    }
                } else {
                    Plan::Skip
                }
            } else {
                Plan::Skip
            }
        } else {
            Plan::Stuck
        }
    } else {
        Plan::Skip
    }
}

/// `*p <<= y` and `*p >>= y`: the count is loaded into `cl`.
pub open spec fn plan_deref_compound_shift<'a>(
    cx: Cx<'a>,
    name: &'a String,
    depth: u32,
    op: BinOp,
    value: &'a Expr,
) -> Plan<'a> {
    if is_local_deref(cx.env, name, depth) {
        if let Some(l) = cx.env.local(name) {
            if let Some(t) = l.ty.pointee() {
                if is_plain_int(t) {
                    if let LocalLocation::Reg(reg) = l.loc {
                        if cx.env.const_of(value).is_none() {
                            if is_shift(op) {
                                if let Some(count) = &cx.env.facts(value).byte_operand {
                                    Plan::Emit(seq![
                                        mov(cl(), given(count)),
                                        op2(shift(op, t.is_unsigned()), word(at(reg)), cl()),
                                    ])
                                } else {
                                    Plan::Skip
                                }
                            } else {
                                Plan::Skip
                            }
                        } else {
                            Plan::Skip
                        }
                    } else {
                        Plan::Skip
                    }
                } else {
                    Plan::Skip
                }
            } else {
                Plan::Skip
            }
        } else {
            Plan::Stuck
        }
    } else {
        Plan::Skip
    }
}

/// What adding or subtracting `v` elements of a given size adds to a 16-bit
/// pointer, read as a signed number.
pub open spec fn spec_pointer_step(op: BinOp, v: u32, size: u16) -> i64 {
    let up = ((v % 65536) * size) % 65536;
    let n = if op == BinOp::Add { up } else { (65536 - up) % 65536 };
    (if n >= 32768 { n - 65536 } else { n }) as i64
}

/// What adding or subtracting `v` elements of a given size adds to a 16-bit
/// pointer, read as a signed number.
#[verifier::when_used_as_spec(spec_pointer_step)]
pub fn pointer_step(op: BinOp, v: u32, size: u16) -> (r: i64)
    ensures
        r == spec_pointer_step(op, v, size),
{
    let low: i64 = (v % 65536) as i64;
    proof {
        assert(0 <= low * size <= 0xFFFF * 0xFFFF) by (nonlinear_arith)
            requires
                0 <= low <= 0xFFFF,
                0 <= size <= 0xFFFF,
        ;
    }
    let up: i64 = (low * size as i64) % 65536;
    let n: i64 = if op == BinOp::Add { up } else { (65536 - up) % 65536 };
    if n >= 32768 { n - 65536 } else { n }
}

/// Adds a constant to the byte at an address by way of `al`, or steps it by
/// one.
pub open spec fn plan_byte_arith<'a>(cx: Cx<'a>, op: BinOp, a: Addr<'a>, v: u32) -> Plan<'a> {
    Plan::Emit(seq![mov(al(), byte(a))]).followed_by(
        if lo8(v) == 1 {
            Plan::Emit(seq![op1(step_by_one(op), al())])
        } else {
            Plan::Emit(seq![
                add_to(al(), imm(if op == BinOp::Add { lo8(v) } else { neg8(v) })),
            ])
        },
    ).followed_by(Plan::Emit(seq![mov(byte(a), al())]))
}

/// `*pp += k` and `*pp -= k` of a pointer to something larger than a byte.
pub open spec fn plan_compound_const_pointer<'a>(
    cx: Cx<'a>,
    reg: Reg,
    t: &'a Type,
    op: BinOp,
    v: u32,
) -> Plan<'a> {
    if let Some(inner) = t.pointee() {
        if is_additive(op) {
            if (inner.size() as u16) > 1 {
                Plan::Emit(seq![
                    add_to(word(at(reg)), imm(pointer_step(op, v, (inner.size() as u16)))),
                ])
            } else {
                Plan::Skip
            }
        } else {
            Plan::Skip
        }
    } else {
        Plan::Skip
    }
}

/// `*p op= k` with a constant, through a register.
pub open spec fn plan_compound_const<'a>(
    cx: Cx<'a>,
    reg: Reg,
    t: &'a Type,
    op: BinOp,
    v: u32,
) -> Plan<'a> {
    if t.is_char_like() && is_additive(op) {
        plan_byte_arith(cx, op, at(reg), v)
    } else {
        match plan_compound_const_pointer(cx, reg, t, op, v) {
            Plan::Skip => {
                if !t.is_char_like() && lo16(v) == 1 && is_additive(op) {
                    Plan::Emit(seq![op1(step_by_one(op), word(at(reg)))])
                } else {
                    Plan::Emit(seq![
                        op2(direct(op), sized(t.is_char_like(), at(reg)), imm(masked(v, t.is_char_like()))),
                    ])
                }
            },
            taken => taken,
        }
    }
}

/// `*p op= k` for a local pointer in a register.
pub open spec fn plan_deref_compound_const<'a>(
    cx: Cx<'a>,
    name: &'a String,
    depth: u32,
    op: BinOp,
    v: u32,
) -> Plan<'a> {
    if is_local_deref(cx.env, name, depth) {
        if let Some(l) = cx.env.local(name) {
            if let Some(t) = l.ty.pointee() {
                if let LocalLocation::Reg(reg) = l.loc {
                    plan_compound_const(cx, reg, t, op, v)
                } else {
                    Plan::Stuck
                }
            } else {
                Plan::Stuck
            }
        } else {
            Plan::Stuck
        }
    } else {
        Plan::Skip
    }
}

/// A constant applied at the end of a chain of pointers.
pub open spec fn plan_deref_compound_chain<'a>(
    cx: Cx<'a>,
    name: &'a String,
    depth: u32,
    op: BinOp,
    v: u32,
) -> Plan<'a> {
    if let Some(t) = chain_type(cx.env, name, depth) {
        Plan::Emit(seq![
            Step::ChainToBx(name, depth),
            op2(direct(op), sized(t.is_char_like(), at(Reg::Bx)), imm(masked(v, t.is_char_like()))),
        ])
    } else {
        Plan::Stuck
    }
}

/// Applies a compound assignment through a pointer expression.
pub open spec fn plan_emit_deref_compound_assign<'a>(
    cx: Cx<'a>,
    target: &'a Expr,
    op: BinOp,
    value: &'a Expr,
    from_postfix: bool,
) -> Plan<'a> {
    if let Some((name, depth)) = deref_chain_root(target) {
        match plan_deref_compound_long(cx, name, depth, op, value) {
            Plan::Skip => {
                match plan_deref_compound_step(cx, name, depth, op, value, from_postfix) {
                    Plan::Skip => {
                        match plan_deref_compound_char(cx, name, depth, op, value) {
                            Plan::Skip => {
                                match plan_deref_compound_int(cx, name, depth, op, value) {
                                    Plan::Skip => {
                                        match plan_deref_compound_mul(cx, name, depth, op, value) {
                                            Plan::Skip => {
                                                match plan_deref_compound_shift(cx, name, depth, op, value) {
                                                    Plan::Skip => {
                                                        if let Some(v) = cx.env.const_of(value) {
                                                            if is_direct(op) {
                                                                match plan_deref_compound_const(cx, name, depth, op, v) {
                                                                    Plan::Skip => {
                                                                        plan_deref_compound_chain(cx, name, depth, op, v)
                                                                    },
                                                                    taken => taken,
                                                                }
                                                            } else {
                                                                Plan::Stuck
                                                            }
                                                        } else {
                                                            Plan::Stuck
                                                        }
                                                    },
                                                    taken => taken,
                                                }
                                            },
                                            taken => taken,
                                        }
                                    },
                                    taken => taken,
                                }
                            },
                            taken => taken,
                        }
                    },
                    taken => taken,
                }
            },
            taken => taken,
        }
    } else {
        Plan::Stuck
    }
}

/// Assigns a constant to a register that the source names.
pub open spec fn plan_emit_assign_pseudo_register<'a>(
    cx: Cx<'a>,
    name: &'a String,
    value: &'a Expr,
) -> Plan<'a> {
    if let Some(reg) = cx.env.pseudo(name) {
        if let Some(v) = cx.env.const_of(value) {
            Plan::Emit(seq![mov(r(reg), imm(masked(v, reg.is_byte())))])
        } else {
            Plan::Stuck
        }
    } else {
        Plan::Stuck
    }
}

impl<'a> FunctionEmitter<'a> {
    /// Emits what [`plan_emit_assign_lvalue_addr_first`] says, if it applies.
    pub fn try_emit_assign_lvalue_addr_first(
        &mut self,
        target: &'a Expr,
        value: &'a Expr,
    ) -> (done: bool)
        requires
            old(self).cx.env.wf(),
            !(plan_emit_assign_lvalue_addr_first(old(self).cx, target, value) is Stuck),
        ensures
            final(self).ran(
                *old(self),
                plan_emit_assign_lvalue_addr_first(old(self).cx, target, value),
                done,
            ),
    {
        let cx: Cx<'a> = self.cx;
        let ExprKind::ArrayIndex { array, index } = &target.kind else { return false; };
        let ExprKind::Ident(name) = &array.kind else { return false; };
        let Some(elem_ty) = cx.env.local_elem(name) else { return false; };
        if !is_plain_int(elem_ty) {
            return false;
        }
        let Some(base) = cx.env.stack_of(name) else { return false; };
        if !(cx.env.const_of(&**index).is_none()) {
            return false;
        }
        let ExprKind::Ident(i) = &index.kind else { return false; };
        let Some(reg) = cx.env.reg_of(i) else { return false; };
        self.put(mov(bx(), r(reg)));
        self.put(shl1(bx()));
        self.put(lea(ax(), bp(base)));
        self.put(add_to(bx(), ax()));
        self.put(to_ax(cx, value));
        self.put(mov(word(at(Reg::Bx)), ax()));
        true
    }

    /// Emits what [`plan_store_through_name`] says, if it applies.
    pub fn try_store_through_name(&mut self, target: &'a Expr) -> (done: bool)
        requires
            old(self).cx.env.wf(),
            !(plan_store_through_name(old(self).cx, target) is Stuck),
        ensures
            final(self).ran(*old(self), plan_store_through_name(old(self).cx, target), done),
    {
        let cx: Cx<'a> = self.cx;
        let ExprKind::Deref(inner) = &target.kind else { return false; };
        let ExprKind::Ident(name) = &inner.kind else { return false; };
        let Some(l) = cx.env.local(name) else { return false; };
        let Some(t) = l.ty.pointee() else { return false; };
        match l.loc {
            LocalLocation::Reg(reg) => {
                self.put(mov(sized(t.is_char_like(), at(reg)), acc(t.is_char_like())));
                return true;
            },
            LocalLocation::Stack(off) => {
                self.put(mov(bx(), word(bp(off))));
                self.put(mov(sized(t.is_char_like(), at(Reg::Bx)), acc(t.is_char_like())));
                return true;
            },
        }
    }

    /// Emits what [`plan_store_through_post`] says, if it applies.
    pub fn try_store_through_post(&mut self, target: &'a Expr) -> (done: bool)
        requires
            old(self).cx.env.wf(),
            !(plan_store_through_post(old(self).cx, target) is Stuck),
        ensures
            final(self).ran(*old(self), plan_store_through_post(old(self).cx, target), done),
    {
        let cx: Cx<'a> = self.cx;
        let ExprKind::Deref(inner) = &target.kind else { return false; };
        let ExprKind::Update { target: p, op: UpdateOp::Inc, position: UpdatePosition::Post } = &inner.kind else { return false; };
        let Some(reg) = cx.env.reg_of(p) else { return false; };
        let Some(t) = cx.env.local_pointee(p) else { return false; };
        self.put(mov(bx(), r(reg)));
        self.advance(UpdateOp::Inc, reg, t.size_bytes());
        self.put(mov(sized(t.is_char_like(), at(Reg::Bx)), acc(t.is_char_like())));
        true
    }

    /// Stores `ax` through a pointer and leaves it intact.
    pub fn emit_store_ax_to_lvalue(&mut self, target: &'a Expr)
        requires
            old(self).cx.env.wf(),
            plan_emit_store_ax_to_lvalue(old(self).cx, target) is Emit,
        ensures
            final(self).wrote(*old(self), plan_emit_store_ax_to_lvalue(old(self).cx, target)),
    {
        if self.try_store_through_name(target) {
            return;
        }
        if self.try_store_through_post(target) {
            return;
        }
        return;
    }

    /// Emits what [`plan_deref_assign_selector`] says, if it applies.
    pub fn try_deref_assign_selector(&mut self, target: &'a Expr, value: &'a Expr) -> (done: bool)
        requires
            old(self).cx.env.wf(),
            !(plan_deref_assign_selector(old(self).cx, target, value) is Stuck),
        ensures
            final(self).ran(
                *old(self),
                plan_deref_assign_selector(old(self).cx, target, value),
                done,
            ),
    {
        let cx: Cx<'a> = self.cx;
        let ExprKind::BinOp { op: BinOp::Add, left, right } = &target.kind else { return false; };
        let ExprKind::Ident(name) = &left.kind else { return false; };
        let Some(l) = cx.env.local(name) else { return false; };
        if !l.is_selector {
            return false;
        }
        let Some(t) = l.ty.pointee() else { return false; };
        self.put(Step::SelectorWrite(name, t, &**right, value));
        true
    }

    /// Emits what [`plan_deref_assign_segment`] says, if it applies.
    pub fn try_deref_assign_segment(&mut self, target: &'a Expr, value: &'a Expr) -> (done: bool)
        requires
            old(self).cx.env.wf(),
            !(plan_deref_assign_segment(old(self).cx, target, value) is Stuck),
        ensures
            final(self).ran(
                *old(self),
                plan_deref_assign_segment(old(self).cx, target, value),
                done,
            ),
    {
        let cx: Cx<'a> = self.cx;
        let ExprKind::Ident(name) = &target.kind else { return false; };
        let Some(l) = cx.env.local(name) else { return false; };
        let Some(seg) = l.seg else { return false; };
        let LocalLocation::Reg(reg) = l.loc else { return false; };
        let Some(t) = l.ty.pointee() else { return false; };
        self.store_value(t.is_char_like(), seg_at(seg, reg), value);
        true
    }

    /// Emits what [`plan_deref_assign_offset`] says, if it applies.
    pub fn try_deref_assign_offset(&mut self, target: &'a Expr, value: &'a Expr) -> (done: bool)
        requires
            old(self).cx.env.wf(),
            !(plan_deref_assign_offset(old(self).cx, target, value) is Stuck),
        ensures
            final(self).ran(
                *old(self),
                plan_deref_assign_offset(old(self).cx, target, value),
                done,
            ),
    {
        let cx: Cx<'a> = self.cx;
        let ExprKind::BinOp { op: BinOp::Add, left, right } = &target.kind else { return false; };
        let ExprKind::Ident(name) = &left.kind else { return false; };
        let Some(l) = cx.env.local(name) else { return false; };
        let Some(t) = l.ty.pointee() else { return false; };
        let Some(k) = cx.env.const_of(&**right) else { return false; };
        let d: Disp = disp(scaled(k, t.size_bytes()));
        match l.loc {
            LocalLocation::Reg(reg) => {
                self.store_value(t.is_char_like(), at_disp(reg, d), value);
                return true;
            },
            LocalLocation::Stack(off) => {
                self.put(mov(bx(), word(bp(off))));
                self.store_value(t.is_char_like(), at_disp(Reg::Bx, d), value);
                return true;
            },
        }
    }

    /// Emits what [`plan_deref_assign_elem`] says, if it applies.
    pub fn try_deref_assign_elem(&mut self, target: &'a Expr, value: &'a Expr) -> (done: bool)
        requires
            old(self).cx.env.wf(),
            !(plan_deref_assign_elem(old(self).cx, target, value) is Stuck),
        ensures
            final(self).ran(
                *old(self),
                plan_deref_assign_elem(old(self).cx, target, value),
                done,
            ),
    {
        let cx: Cx<'a> = self.cx;
        let ExprKind::ArrayIndex { array, index } = &target.kind else { return false; };
        let ExprKind::Ident(name) = &array.kind else { return false; };
        let Some(elem_ty) = cx.env.array_elem_of(name) else { return false; };
        let Some(t) = elem_ty.pointee() else { return false; };
        let Some(k) = cx.env.const_of(&**index) else { return false; };
        self.pointer_elem_to_bx(name, k, elem_ty.size_bytes());
        self.store_value(t.is_char_like(), at(Reg::Bx), value);
        true
    }

    /// Emits what [`plan_deref_assign_call`] says, if it applies.
    pub fn try_deref_assign_call(&mut self, target: &'a Expr, value: &'a Expr) -> (done: bool)
        requires
            old(self).cx.env.wf(),
            !(plan_deref_assign_call(old(self).cx, target, value) is Stuck),
        ensures
            final(self).ran(
                *old(self),
                plan_deref_assign_call(old(self).cx, target, value),
                done,
            ),
    {
        let cx: Cx<'a> = self.cx;
        let ExprKind::Call { name, args } = &target.kind else { return false; };
        let Some(ret) = cx.env.ret_ty_of(name) else { return false; };
        let Some(t) = ret.pointee() else { return false; };
        self.put(Step::CallFn(name, args));
        self.put(mov(bx(), ax()));
        self.store_value(t.is_char_like(), at(Reg::Bx), value);
        true
    }

    /// Emits what [`plan_post_copy_words`] says, if it applies.
    pub fn try_post_copy_words(&mut self, reg: Reg, t: &'a Type, value: &'a Expr) -> (done: bool)
        requires
            old(self).cx.env.wf(),
            t.is_countable(),
            !(plan_post_copy_words(old(self).cx, reg, t, value) is Stuck),
        ensures
            final(self).ran(*old(self), plan_post_copy_words(old(self).cx, reg, t, value), done),
    {
        let cx: Cx<'a> = self.cx;
        let ExprKind::Deref(inner) = &value.kind else { return false; };
        let ExprKind::Update { target: src, op, position } = &inner.kind else { return false; };
        let Some(from) = cx.env.word_reg_of(src) else { return false; };
        let Some(st) = cx.env.local_pointee(src) else { return false; };
        if !(st.is_int_like() && t.is_int_like()) {
            return false;
        }
        if *position == UpdatePosition::Pre {
            self.advance(*op, from, st.size_bytes());
            self.put(mov(ax(), word(at(from))));
            self.put(mov(word(at(reg)), ax()));
        } else {
            self.put(mov(ax(), word(at(from))));
            self.put(mov(word(at(reg)), ax()));
            self.advance(*op, from, st.size_bytes());
        }
        self.advance(UpdateOp::Inc, reg, t.size_bytes());
        true
    }

    /// Emits what [`plan_post_copy_bytes`] says, if it applies.
    pub fn try_post_copy_bytes(&mut self, reg: Reg, t: &'a Type, value: &'a Expr) -> (done: bool)
        requires
            old(self).cx.env.wf(),
            !(plan_post_copy_bytes(old(self).cx, reg, t, value) is Stuck),
        ensures
            final(self).ran(*old(self), plan_post_copy_bytes(old(self).cx, reg, t, value), done),
    {
        let cx: Cx<'a> = self.cx;
        if !t.is_char_like() {
            return false;
        }
        let ExprKind::Deref(inner) = &value.kind else { return false; };
        let ExprKind::Update { target: src, op, position } = &inner.kind else { return false; };
        let Some(from) = cx.env.word_reg_of(src) else { return false; };
        let Some(st) = cx.env.local_pointee(src) else { return false; };
        if !st.is_char_like() {
            return false;
        }
        if *position == UpdatePosition::Pre {
            self.put(op1(update(*op), r(from)));
        }
        self.put(mov(al(), byte(at(from))));
        self.put(mov(byte(at(reg)), al()));
        if *position == UpdatePosition::Post {
            self.put(op1(update(*op), r(from)));
        }
        self.put(op1(Mnemonic::Inc, r(reg)));
        true
    }

    /// `*p++ = v`: the value is stored, and then the pointer moves on.
    pub fn post_store(&mut self, reg: Reg, t: &'a Type, value: &'a Expr)
        requires
            old(self).cx.env.wf(),
            t.is_countable(),
            plan_post_store(old(self).cx, reg, t, value) is Emit,
        ensures
            final(self).wrote(*old(self), plan_post_store(old(self).cx, reg, t, value)),
    {
        if self.try_post_copy_words(reg, t, value) {
            return;
        }
        if self.try_post_copy_bytes(reg, t, value) {
            return;
        }
        self.store_value(t.is_char_like(), at(reg), value);
        self.advance(UpdateOp::Inc, reg, t.size_bytes());
    }

    /// Emits what [`plan_deref_assign_post`] says, if it applies.
    pub fn try_deref_assign_post(&mut self, target: &'a Expr, value: &'a Expr) -> (done: bool)
        requires
            old(self).cx.env.wf(),
            !(plan_deref_assign_post(old(self).cx, target, value) is Stuck),
        ensures
            final(self).ran(
                *old(self),
                plan_deref_assign_post(old(self).cx, target, value),
                done,
            ),
    {
        let cx: Cx<'a> = self.cx;
        let ExprKind::Update { target: name, op: UpdateOp::Inc, position: UpdatePosition::Post } = &target.kind else { return false; };
        let Some(l) = cx.env.local(name) else { return false; };
        let Some(t) = l.ty.pointee() else { return false; };
        let LocalLocation::Reg(reg) = l.loc else { return false; };
        self.post_store(reg, t, value);
        true
    }

    /// Emits what [`plan_through_long`] says, if it applies.
    pub fn try_through_long(&mut self, reg: Reg, t: &'a Type, value: &'a Expr) -> (done: bool)
        requires
            old(self).cx.env.wf(),
            !(plan_through_long(old(self).cx, reg, t, value) is Stuck),
        ensures
            final(self).ran(*old(self), plan_through_long(old(self).cx, reg, t, value), done),
    {
        let cx: Cx<'a> = self.cx;
        if !t.is_long_like() {
            return false;
        }
        match cx.env.const_of(value) {
            Some(v) => {
                self.store_long_const(at2(reg), at(reg), v);
                return true;
            },
            None => {
                let Some((hi, lo)) = &cx.env.facts(value).long_addrs else { return false; };
                self.copy_long(at2(reg), at(reg), named(hi), named(lo));
                return true;
            },
        }
    }

    /// Emits what [`plan_through_struct`] says, if it applies.
    pub fn try_through_struct(&mut self, reg: Reg, t: &'a Type, value: &'a Expr) -> (done: bool)
        requires
            old(self).cx.env.wf(),
            t.is_countable(),
            !(plan_through_struct(old(self).cx, reg, t, value) is Stuck),
        ensures
            final(self).ran(*old(self), plan_through_struct(old(self).cx, reg, t, value), done),
    {
        let cx: Cx<'a> = self.cx;
        let Type::Struct { name: _, fields: _, size: _ } = t else { return false; };
        if !(t.size_bytes() == 4) {
            return false;
        }
        let ExprKind::Deref(inner) = &value.kind else { return false; };
        let ExprKind::Ident(src) = &inner.kind else { return false; };
        let Some(from) = cx.env.reg_of(src) else { return false; };
        if !cx.env.local_pointee(src).is_some() {
            return false;
        }
        self.copy_long(at2(reg), at(reg), at2(from), at(from));
        true
    }

    /// Emits what [`plan_through_const`] says, if it applies.
    pub fn try_through_const(&mut self, reg: Reg, t: &'a Type, value: &'a Expr) -> (done: bool)
        requires
            old(self).cx.env.wf(),
            !(plan_through_const(old(self).cx, reg, t, value) is Stuck),
        ensures
            final(self).ran(*old(self), plan_through_const(old(self).cx, reg, t, value), done),
    {
        let cx: Cx<'a> = self.cx;
        let Some(v) = cx.env.const_of(value) else { return false; };
        self.put(mov(sized(t.is_char_like(), at(reg)), imm(masked(v, t.is_char_like()))));
        true
    }

    /// Emits what [`plan_through_register`] says, if it applies.
    pub fn try_through_register(&mut self, reg: Reg, t: &'a Type, value: &'a Expr) -> (done: bool)
        requires
            old(self).cx.env.wf(),
            !(plan_through_register(old(self).cx, reg, t, value) is Stuck),
        ensures
            final(self).ran(*old(self), plan_through_register(old(self).cx, reg, t, value), done),
    {
        let cx: Cx<'a> = self.cx;
        if !(!t.is_char_like()) {
            return false;
        }
        let ExprKind::Ident(src) = &value.kind else { return false; };
        let Some(from) = cx.env.word_reg_of(src) else { return false; };
        self.put(mov(word(at(reg)), r(from)));
        true
    }

    /// Emits what [`plan_through_address`] says, if it applies.
    pub fn try_through_address(&mut self, reg: Reg, t: &'a Type, value: &'a Expr) -> (done: bool)
        requires
            old(self).cx.env.wf(),
            !(plan_through_address(old(self).cx, reg, t, value) is Stuck),
        ensures
            final(self).ran(*old(self), plan_through_address(old(self).cx, reg, t, value), done),
    {
        let cx: Cx<'a> = self.cx;
        if !(!t.is_char_like()) {
            return false;
        }
        let ExprKind::AddressOf(name) = &value.kind else { return false; };
        if !cx.env.is_global(name) {
            return false;
        }
        self.put(mov(word(at(reg)), offset_of(name, Disp::Zero)));
        true
    }

    /// Emits what [`plan_through_char_deref`] says, if it applies.
    pub fn try_through_char_deref(
        &mut self,
        reg: Reg,
        t: &'a Type,
        value: &'a Expr,
    ) -> (done: bool)
        requires
            old(self).cx.env.wf(),
            !(plan_through_char_deref(old(self).cx, reg, t, value) is Stuck),
        ensures
            final(self).ran(
                *old(self),
                plan_through_char_deref(old(self).cx, reg, t, value),
                done,
            ),
    {
        let cx: Cx<'a> = self.cx;
        if !t.is_char_like() {
            return false;
        }
        let ExprKind::Deref(inner) = &value.kind else { return false; };
        let ExprKind::Ident(src) = &inner.kind else { return false; };
        let Some(st) = cx.env.local_pointee(src) else { return false; };
        if !st.is_char_like() {
            return false;
        }
        let Some(from) = cx.env.word_reg_of(src) else { return false; };
        self.put(mov(al(), byte(at(from))));
        self.put(mov(byte(at(reg)), al()));
        true
    }

    /// Emits what [`plan_through_char_local`] says, if it applies.
    pub fn try_through_char_local(
        &mut self,
        reg: Reg,
        t: &'a Type,
        value: &'a Expr,
    ) -> (done: bool)
        requires
            old(self).cx.env.wf(),
            !(plan_through_char_local(old(self).cx, reg, t, value) is Stuck),
        ensures
            final(self).ran(
                *old(self),
                plan_through_char_local(old(self).cx, reg, t, value),
                done,
            ),
    {
        let cx: Cx<'a> = self.cx;
        if !t.is_char_like() {
            return false;
        }
        let ExprKind::Ident(src) = &value.kind else { return false; };
        if !cx.env.is_char_local(src) {
            return false;
        }
        let Some(off) = cx.env.stack_of(src) else { return false; };
        self.put(mov(al(), byte(bp(off))));
        self.put(mov(byte(at(reg)), al()));
        true
    }

    /// Stores a value of type `t` through a register.
    pub fn store_through(&mut self, reg: Reg, t: &'a Type, value: &'a Expr)
        requires
            old(self).cx.env.wf(),
            t.is_countable(),
            plan_store_through(old(self).cx, reg, t, value) is Emit,
        ensures
            final(self).wrote(*old(self), plan_store_through(old(self).cx, reg, t, value)),
    {
        let cx: Cx<'a> = self.cx;
        if self.try_through_long(reg, t, value) {
            return;
        }
        if self.try_through_struct(reg, t, value) {
            return;
        }
        if self.try_through_const(reg, t, value) {
            return;
        }
        if self.try_through_register(reg, t, value) {
            return;
        }
        if self.try_through_address(reg, t, value) {
            return;
        }
        if self.try_through_char_deref(reg, t, value) {
            return;
        }
        if self.try_through_char_local(reg, t, value) {
            return;
        }
        self.put(to_ax(cx, value));
        self.put(mov(sized(t.is_char_like(), at(reg)), acc(t.is_char_like())));
    }

    /// Emits what [`plan_deref_assign_local`] says, if it applies.
    pub fn try_deref_assign_local(
        &mut self,
        name: &'a String,
        depth: u32,
        value: &'a Expr,
    ) -> (done: bool)
        requires
            old(self).cx.env.wf(),
            !(plan_deref_assign_local(old(self).cx, name, depth, value) is Stuck),
        ensures
            final(self).ran(
                *old(self),
                plan_deref_assign_local(old(self).cx, name, depth, value),
                done,
            ),
    {
        let cx: Cx<'a> = self.cx;
        if !(depth == 0 && !cx.env.is_global(name)) {
            return false;
        }
        let Some(l) = cx.env.local(name) else { return false; };
        let Some(t) = l.ty.pointee() else { return false; };
        match l.loc {
            LocalLocation::Reg(reg) => {
                self.store_through(reg, t, value);
                return true;
            },
            LocalLocation::Stack(off) => {
                match &l.ty {
                    Type::FarPointer { pointee: _, is_huge: _ } => {
                        self.put(op2(Mnemonic::Les, bx(), word(bp(off))));
                        self.store_value(t.is_char_like(), seg_at(Reg::Es, Reg::Bx), value);
                        return true;
                    },
                    _ => {
                        self.put(mov(bx(), word(bp(off))));
                        self.store_through(Reg::Bx, t, value);
                        return true;
                    },
                }
            },
        }
    }

    /// Emits what [`plan_deref_assign_chain`] says, if it applies.
    pub fn try_deref_assign_chain(
        &mut self,
        name: &'a String,
        depth: u32,
        value: &'a Expr,
    ) -> (done: bool)
        requires
            old(self).cx.env.wf(),
            !(plan_deref_assign_chain(old(self).cx, name, depth, value) is Stuck),
        ensures
            final(self).ran(
                *old(self),
                plan_deref_assign_chain(old(self).cx, name, depth, value),
                done,
            ),
    {
        let cx: Cx<'a> = self.cx;
        let Some(t) = chain_type(cx.env, name, depth) else { return false; };
        self.put(Step::ChainToBx(name, depth));
        self.store_value(t.is_char_like(), at(Reg::Bx), value);
        true
    }

    /// Stores a value through a pointer expression.
    pub fn emit_deref_assign(&mut self, target: &'a Expr, value: &'a Expr)
        requires
            old(self).cx.env.wf(),
            plan_emit_deref_assign(old(self).cx, target, value) is Emit,
        ensures
            final(self).wrote(*old(self), plan_emit_deref_assign(old(self).cx, target, value)),
    {
        if self.try_deref_assign_selector(target, value) {
            return;
        }
        if self.try_deref_assign_segment(target, value) {
            return;
        }
        if self.try_deref_assign_offset(target, value) {
            return;
        }
        if self.try_deref_assign_elem(target, value) {
            return;
        }
        if self.try_deref_assign_call(target, value) {
            return;
        }
        if self.try_deref_assign_post(target, value) {
            return;
        }
        let Some((name, depth)) = deref_chain_root(target) else { return; };
        if self.try_deref_assign_local(name, depth, value) {
            return;
        }
        self.try_deref_assign_chain(name, depth, value);
        return;
    }

    /// Emits what [`plan_deref_compound_long`] says, if it applies.
    pub fn try_deref_compound_long(
        &mut self,
        name: &'a String,
        depth: u32,
        op: BinOp,
        value: &'a Expr,
    ) -> (done: bool)
        requires
            old(self).cx.env.wf(),
            !(plan_deref_compound_long(old(self).cx, name, depth, op, value) is Stuck),
        ensures
            final(self).ran(
                *old(self),
                plan_deref_compound_long(old(self).cx, name, depth, op, value),
                done,
            ),
    {
        let cx: Cx<'a> = self.cx;
        if !(is_local_deref(cx.env, name, depth)) {
            return false;
        }
        let Some(l) = cx.env.local(name) else { return false; };
        let Some(t) = l.ty.pointee() else { return false; };
        if !t.is_long_like() {
            return false;
        }
        let LocalLocation::Reg(reg) = l.loc else { return false; };
        self.put(Step::LongCompound(at(reg), at2(reg), op, value, t.is_unsigned()));
        true
    }

    /// Emits what [`plan_deref_compound_step`] says, if it applies.
    pub fn try_deref_compound_step(
        &mut self,
        name: &'a String,
        depth: u32,
        op: BinOp,
        value: &'a Expr,
        from_postfix: bool,
    ) -> (done: bool)
        requires
            old(self).cx.env.wf(),
            !(plan_deref_compound_step(
                old(self).cx,
                name,
                depth,
                op,
                value,
                from_postfix,
            ) is Stuck),
        ensures
            final(self).ran(
                *old(self),
                plan_deref_compound_step(old(self).cx, name, depth, op, value, from_postfix),
                done,
            ),
    {
        let cx: Cx<'a> = self.cx;
        if !(is_local_deref(cx.env, name, depth)) {
            return false;
        }
        if !(from_postfix && is_additive(op)) {
            return false;
        }
        let Some(v) = cx.env.const_of(value) else { return false; };
        if !(v == 1) {
            return false;
        }
        let Some(l) = cx.env.local(name) else { return false; };
        let Some(t) = l.ty.pointee() else { return false; };
        if !t.is_char_like() {
            return false;
        }
        let LocalLocation::Reg(reg) = l.loc else { return false; };
        self.put(op1(step_by_one(op), byte(at(reg))));
        true
    }

    /// Emits what [`plan_deref_compound_char`] says, if it applies.
    pub fn try_deref_compound_char(
        &mut self,
        name: &'a String,
        depth: u32,
        op: BinOp,
        value: &'a Expr,
    ) -> (done: bool)
        requires
            old(self).cx.env.wf(),
            !(plan_deref_compound_char(old(self).cx, name, depth, op, value) is Stuck),
        ensures
            final(self).ran(
                *old(self),
                plan_deref_compound_char(old(self).cx, name, depth, op, value),
                done,
            ),
    {
        let cx: Cx<'a> = self.cx;
        if !(is_local_deref(cx.env, name, depth)) {
            return false;
        }
        let Some(l) = cx.env.local(name) else { return false; };
        let Some(t) = l.ty.pointee() else { return false; };
        if !t.is_char_like() {
            return false;
        }
        let LocalLocation::Reg(reg) = l.loc else { return false; };
        if !cx.env.const_of(value).is_none() {
            return false;
        }
        if !is_direct(op) {
            return false;
        }
        let Some(src) = &cx.env.facts(value).source else { return false; };
        self.put(mov(al(), given(&src.byte)));
        self.put(op2(direct(op), byte(at(reg)), al()));
        true
    }

    /// Emits what [`plan_deref_compound_int`] says, if it applies.
    pub fn try_deref_compound_int(
        &mut self,
        name: &'a String,
        depth: u32,
        op: BinOp,
        value: &'a Expr,
    ) -> (done: bool)
        requires
            old(self).cx.env.wf(),
            !(plan_deref_compound_int(old(self).cx, name, depth, op, value) is Stuck),
        ensures
            final(self).ran(
                *old(self),
                plan_deref_compound_int(old(self).cx, name, depth, op, value),
                done,
            ),
    {
        let cx: Cx<'a> = self.cx;
        if !(is_local_deref(cx.env, name, depth)) {
            return false;
        }
        let Some(l) = cx.env.local(name) else { return false; };
        let Some(t) = l.ty.pointee() else { return false; };
        if !is_plain_int(t) {
            return false;
        }
        let LocalLocation::Reg(reg) = l.loc else { return false; };
        if !cx.env.const_of(value).is_none() {
            return false;
        }
        if !is_direct(op) {
            return false;
        }
        self.put(to_ax(cx, value));
        self.put(op2(direct(op), word(at(reg)), ax()));
        true
    }

    /// Multiplies or divides `ax` by an operand, signed.
    pub fn multiply_or_divide(&mut self, op: BinOp, by: Operand<'a>)
        requires
            old(self).cx.env.wf(),
            plan_multiply_or_divide(old(self).cx, op, by) is Emit,
        ensures
            final(self).wrote(*old(self), plan_multiply_or_divide(old(self).cx, op, by)),
    {
        if op == BinOp::Mul {
            self.put(imul(by));
        } else {
            self.put(cwd());
            self.put(idiv(by));
        }
    }

    /// Emits what [`plan_deref_compound_mul`] says, if it applies.
    pub fn try_deref_compound_mul(
        &mut self,
        name: &'a String,
        depth: u32,
        op: BinOp,
        value: &'a Expr,
    ) -> (done: bool)
        requires
            old(self).cx.env.wf(),
            !(plan_deref_compound_mul(old(self).cx, name, depth, op, value) is Stuck),
        ensures
            final(self).ran(
                *old(self),
                plan_deref_compound_mul(old(self).cx, name, depth, op, value),
                done,
            ),
    {
        let cx: Cx<'a> = self.cx;
        if !(is_local_deref(cx.env, name, depth)) {
            return false;
        }
        let Some(l) = cx.env.local(name) else { return false; };
        let Some(t) = l.ty.pointee() else { return false; };
        if !is_plain_int(t) {
            return false;
        }
        let LocalLocation::Reg(reg) = l.loc else { return false; };
        if !cx.env.const_of(value).is_none() {
            return false;
        }
        if !is_multiplicative(op) {
            return false;
        }
        let ExprKind::Ident(b) = &value.kind else { return false; };
        if !(!cx.env.is_global(b)) {
            return false;
        }
        let Some(off) = cx.env.stack_of(b) else { return false; };
        self.put(mov(ax(), word(at(reg))));
        self.multiply_or_divide(op, word(bp(off)));
        self.put(mov(word(at(reg)), quotient(op)));
        true
    }

    /// Emits what [`plan_deref_compound_shift`] says, if it applies.
    pub fn try_deref_compound_shift(
        &mut self,
        name: &'a String,
        depth: u32,
        op: BinOp,
        value: &'a Expr,
    ) -> (done: bool)
        requires
            old(self).cx.env.wf(),
            !(plan_deref_compound_shift(old(self).cx, name, depth, op, value) is Stuck),
        ensures
            final(self).ran(
                *old(self),
                plan_deref_compound_shift(old(self).cx, name, depth, op, value),
                done,
            ),
    {
        let cx: Cx<'a> = self.cx;
        if !(is_local_deref(cx.env, name, depth)) {
            return false;
        }
        let Some(l) = cx.env.local(name) else { return false; };
        let Some(t) = l.ty.pointee() else { return false; };
        if !is_plain_int(t) {
            return false;
        }
        let LocalLocation::Reg(reg) = l.loc else { return false; };
        if !cx.env.const_of(value).is_none() {
            return false;
        }
        if !is_shift(op) {
            return false;
        }
        let Some(count) = &cx.env.facts(value).byte_operand else { return false; };
        self.put(mov(cl(), given(count)));
        self.put(op2(shift(op, t.is_unsigned()), word(at(reg)), cl()));
        true
    }

    /// Adds a constant to the byte at an address by way of `al`, or steps it by
    /// one.
    pub fn byte_arith(&mut self, op: BinOp, a: Addr<'a>, v: u32)
        requires
            old(self).cx.env.wf(),
            plan_byte_arith(old(self).cx, op, a, v) is Emit,
        ensures
            final(self).wrote(*old(self), plan_byte_arith(old(self).cx, op, a, v)),
    {
        self.put(mov(al(), byte(a)));
        if lo8(v) == 1 {
            self.put(op1(step_by_one(op), al()));
        } else {
            self.put(add_to(al(), imm(if op == BinOp::Add { lo8(v) } else { neg8(v) })));
        }
        self.put(mov(byte(a), al()));
    }

    /// Emits what [`plan_compound_const_pointer`] says, if it applies.
    pub fn try_compound_const_pointer(
        &mut self,
        reg: Reg,
        t: &'a Type,
        op: BinOp,
        v: u32,
    ) -> (done: bool)
        requires
            old(self).cx.env.wf(),
            t.fits(),
            !(plan_compound_const_pointer(old(self).cx, reg, t, op, v) is Stuck),
        ensures
            final(self).ran(
                *old(self),
                plan_compound_const_pointer(old(self).cx, reg, t, op, v),
                done,
            ),
    {
        let Some(inner) = t.pointee() else { return false; };
        if !is_additive(op) {
            return false;
        }
        if !(inner.size_bytes() > 1) {
            return false;
        }
        self.put(add_to(word(at(reg)), imm(pointer_step(op, v, inner.size_bytes()))));
        true
    }

    /// `*p op= k` with a constant, through a register.
    pub fn compound_const(&mut self, reg: Reg, t: &'a Type, op: BinOp, v: u32)
        requires
            old(self).cx.env.wf(),
            t.fits(),
            plan_compound_const(old(self).cx, reg, t, op, v) is Emit,
        ensures
            final(self).wrote(*old(self), plan_compound_const(old(self).cx, reg, t, op, v)),
    {
        if t.is_char_like() && is_additive(op) {
            self.byte_arith(op, at(reg), v);
        } else {
            if self.try_compound_const_pointer(reg, t, op, v) {
                return;
            }
            if !t.is_char_like() && lo16(v) == 1 && is_additive(op) {
                self.put(op1(step_by_one(op), word(at(reg))));
            } else {
                self.put(op2(direct(op), sized(t.is_char_like(), at(reg)), imm(masked(v, t.is_char_like()))));
            }
        }
    }

    /// Emits what [`plan_deref_compound_const`] says, if it applies.
    pub fn try_deref_compound_const(
        &mut self,
        name: &'a String,
        depth: u32,
        op: BinOp,
        v: u32,
    ) -> (done: bool)
        requires
            old(self).cx.env.wf(),
            !(plan_deref_compound_const(old(self).cx, name, depth, op, v) is Stuck),
        ensures
            final(self).ran(
                *old(self),
                plan_deref_compound_const(old(self).cx, name, depth, op, v),
                done,
            ),
    {
        let cx: Cx<'a> = self.cx;
        if !(is_local_deref(cx.env, name, depth)) {
            return false;
        }
        let Some(l) = cx.env.local(name) else { return false; };
        let Some(t) = l.ty.pointee() else { return false; };
        let LocalLocation::Reg(reg) = l.loc else { return false; };
        self.compound_const(reg, t, op, v);
        true
    }

    /// Emits what [`plan_deref_compound_chain`] says, if it applies.
    pub fn try_deref_compound_chain(
        &mut self,
        name: &'a String,
        depth: u32,
        op: BinOp,
        v: u32,
    ) -> (done: bool)
        requires
            old(self).cx.env.wf(),
            !(plan_deref_compound_chain(old(self).cx, name, depth, op, v) is Stuck),
        ensures
            final(self).ran(
                *old(self),
                plan_deref_compound_chain(old(self).cx, name, depth, op, v),
                done,
            ),
    {
        let cx: Cx<'a> = self.cx;
        let Some(t) = chain_type(cx.env, name, depth) else { return false; };
        self.put(Step::ChainToBx(name, depth));
        self.put(op2(direct(op), sized(t.is_char_like(), at(Reg::Bx)), imm(masked(v, t.is_char_like()))));
        true
    }

    /// Applies a compound assignment through a pointer expression.
    pub fn emit_deref_compound_assign(
        &mut self,
        target: &'a Expr,
        op: BinOp,
        value: &'a Expr,
        from_postfix: bool,
    )
        requires
            old(self).cx.env.wf(),
            plan_emit_deref_compound_assign(
                old(self).cx,
                target,
                op,
                value,
                from_postfix,
            ) is Emit,
        ensures
            final(self).wrote(
                *old(self),
                plan_emit_deref_compound_assign(old(self).cx, target, op, value, from_postfix),
            ),
    {
        let cx: Cx<'a> = self.cx;
        let Some((name, depth)) = deref_chain_root(target) else { return; };
        if self.try_deref_compound_long(name, depth, op, value) {
            return;
        }
        if self.try_deref_compound_step(name, depth, op, value, from_postfix) {
            return;
        }
        if self.try_deref_compound_char(name, depth, op, value) {
            return;
        }
        if self.try_deref_compound_int(name, depth, op, value) {
            return;
        }
        if self.try_deref_compound_mul(name, depth, op, value) {
            return;
        }
        if self.try_deref_compound_shift(name, depth, op, value) {
            return;
        }
        let Some(v) = cx.env.const_of(value) else { return; };
        if !is_direct(op) {
            return;
        }
        if self.try_deref_compound_const(name, depth, op, v) {
            return;
        }
        self.try_deref_compound_chain(name, depth, op, v);
        return;
    }

    /// Assigns a constant to a register that the source names.
    pub fn emit_assign_pseudo_register(&mut self, name: &'a String, value: &'a Expr)
        requires
            old(self).cx.env.wf(),
            plan_emit_assign_pseudo_register(old(self).cx, name, value) is Emit,
        ensures
            final(self).wrote(
                *old(self),
                plan_emit_assign_pseudo_register(old(self).cx, name, value),
            ),
    {
        let cx: Cx<'a> = self.cx;
        let Some(reg) = cx.env.pseudo(name) else { return; };
        let Some(v) = cx.env.const_of(value) else { return; };
        self.put(mov(r(reg), imm(masked(v, reg.is_byte()))));
    }
}

} // verus!
