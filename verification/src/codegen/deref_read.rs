//! Reading through pointers.

use vstd::prelude::*;
use crate::ast::{BinOp, Expr, ExprKind, Type, UpdatePosition};
use crate::codegen::emitter::{
    add_to, mov, op1, op2, shl1, to_ax, widen, widen_al, Cx, FunctionEmitter, Plan, Step,
};
use crate::codegen::env::{chain_type, deref_chain_root, Local, LocalLocation};
use crate::isa::{
    acc, al, at, at_disp, ax, bp, bp_sat, bx, byte, elem, global, global_at, named, plus, r,
    scaled, scales, seg_at, sized, update, uscaled, wide, word, Addr, Mnemonic, Reg, Width,
};

verus! {

/// The register of a pointer to characters.
#[verifier::allow_in_spec]
pub fn char_pointer_reg(l: &Local) -> Option<Reg>
    returns
        (match (l.ty.pointee(), l.loc) {
            (Some(t), LocalLocation::Reg(reg)) => if t.is_char_like() { Some(reg) } else { None },
            _ => None,
        }),
{
    match (l.ty.pointee(), l.loc) {
        (Some(t), LocalLocation::Reg(reg)) => if t.is_char_like() { Some(reg) } else { None },
        _ => None,
    }
}

/// `*++p` and `*--p`: the pointer is updated first. A character is then read
/// by way of `bx`.
pub open spec fn plan_deref_preupdate<'a>(cx: Cx<'a>, ptr: &'a Expr) -> Plan<'a> {
    if let ExprKind::Update { target, op, position: UpdatePosition::Pre } = &ptr.kind {
        if let Some(l) = cx.env.local(target) {
            Plan::Emit(seq![Step::UpdateInPlace(target, *op, UpdatePosition::Pre)]).followed_by(
                match char_pointer_reg(l) {
                    Some(reg) => {
                        if let Some(t) = l.ty.pointee() {
                            Plan::Emit(seq![
                                mov(bx(), r(reg)),
                                mov(al(), byte(at(Reg::Bx))),
                                widen_al(cx, t),
                            ])
                        } else {
                            Plan::Stuck
                        }
                    },
                    None => {
                        plan_deref_name(cx, target)
                    },
                },
            )
        } else {
            Plan::Stuck
        }
    } else {
        Plan::Skip
    }
}

/// `*p` for a pointer with a segment register of its own.
pub open spec fn plan_deref_segment<'a>(cx: Cx<'a>, name: &'a String) -> Plan<'a> {
    if let Some(l) = cx.env.local(name) {
        if let Some(seg) = l.seg {
            if let LocalLocation::Reg(reg) = l.loc {
                if let Some(t) = l.ty.pointee() {
                    crate::codegen::common::plan_load_value(cx, t, seg_at(seg, reg))
                } else {
                    Plan::Stuck
                }
            } else {
                Plan::Skip
            }
        } else {
            Plan::Skip
        }
    } else {
        Plan::Skip
    }
}

/// `*p` for a named pointer with a segment register of its own.
pub open spec fn plan_deref_segment_ident<'a>(cx: Cx<'a>, ptr: &'a Expr) -> Plan<'a> {
    if let ExprKind::Ident(name) = &ptr.kind {
        plan_deref_segment(cx, name)
    } else {
        Plan::Skip
    }
}

/// `*(T *)p` where the cast changes the size of what is read.
pub open spec fn plan_deref_cast_width<'a>(cx: Cx<'a>, ptr: &'a Expr) -> Plan<'a> {
    if let ExprKind::Cast { ty, operand } = &ptr.kind {
        if let Type::Pointer(to) = ty {
            if let ExprKind::Ident(name) = &operand.kind {
                if let Some(l) = cx.env.local(name) {
                    if let Some(from) = l.ty.pointee() {
                        if to.is_countable() {
                            if (from.size() as u16) != (to.size() as u16) {
                                match l.loc {
                                    LocalLocation::Reg(reg) => {
                                        crate::codegen::common::plan_load_value(cx, &**to, at(reg))
                                    },
                                    LocalLocation::Stack(off) => {
                                        Plan::Emit(seq![mov(bx(), word(bp(off)))]).followed_by(
                                            crate::codegen::common::plan_load_value(cx, &**to, at(Reg::Bx)),
                                        )
                                    },
                                }
                            } else {
                                Plan::Skip
                            }
                        } else {
                            Plan::Stuck
                        }
                    } else {
                        Plan::Skip
                    }
                } else {
                    Plan::Skip
                }
            } else {
                Plan::Skip
            }
        } else {
            Plan::Skip
        }
    } else {
        Plan::Skip
    }
}

/// `*f()`.
pub open spec fn plan_deref_call<'a>(cx: Cx<'a>, ptr: &'a Expr) -> Plan<'a> {
    if let ExprKind::Call { name, args } = &ptr.kind {
        if let Some(ret) = cx.env.ret_ty_of(name) {
            if let Some(t) = ret.pointee() {
                Plan::Emit(seq![
                    Step::CallFn(name, args),
                    mov(bx(), ax()),
                ]).followed_by(crate::codegen::common::plan_load_value(cx, t, at(Reg::Bx)))
            } else {
                Plan::Skip
            }
        } else {
            Plan::Skip
        }
    } else {
        Plan::Skip
    }
}

/// `*s.p`: the pointer lies at a constant address.
pub open spec fn plan_deref_member<'a>(cx: Cx<'a>, ptr: &'a Expr) -> Plan<'a> {
    if let ExprKind::Member { base: _, field: _, kind: _ } = &ptr.kind {
        if let Some(chain) = &cx.env.facts(ptr).chain {
            if let Some(addr) = cx.env.resolve_chain_addr(&chain.name, chain.off) {
                if let Some(t) = chain.ty.pointee() {
                    Plan::Emit(seq![mov(bx(), word(addr))]).followed_by(
                        crate::codegen::common::plan_load_value(cx, t, at(Reg::Bx)),
                    )
                } else {
                    Plan::Skip
                }
            } else {
                Plan::Skip
            }
        } else {
            Plan::Skip
        }
    } else {
        Plan::Skip
    }
}

/// Loads element `k` of an array of pointers into `bx`.
pub open spec fn plan_pointer_elem_to_bx<'a>(
    cx: Cx<'a>,
    name: &'a String,
    k: u32,
    size: u16,
) -> Plan<'a> {
    if cx.env.is_global(name) {
        Plan::Emit(seq![
            mov(bx(), word(global_at(name, plus(uscaled(k, size) as i64)))),
        ])
    } else {
        if let Some(base) = cx.env.stack_of(name) {
            Plan::Emit(seq![mov(bx(), word(bp_sat(base, scaled(k, size))))])
        } else {
            Plan::Stuck
        }
    }
}

/// `*a[i]` for an array of pointers; a variable subscript only at file
/// scope.
pub open spec fn plan_deref_array_elem<'a>(cx: Cx<'a>, ptr: &'a Expr) -> Plan<'a> {
    if let ExprKind::ArrayIndex { array, index } = &ptr.kind {
        if let ExprKind::Ident(name) = &array.kind {
            if let Some(elem_ty) = cx.env.array_elem_of(name) {
                if let Some(t) = elem_ty.pointee() {
                    match cx.env.const_of(&**index) {
                        Some(k) => {
                            plan_pointer_elem_to_bx(cx, name, k, (elem_ty.size() as u16)).followed_by(
                                crate::codegen::common::plan_load_value(cx, t, at(Reg::Bx)),
                            )
                        },
                        None => {
                            if cx.env.is_global(name) {
                                crate::codegen::array_addr::plan_emit_index_into_bx(cx, &**index, elem_ty).followed_by(
                                    Plan::Emit(seq![mov(bx(), word(elem(name, Reg::Bx)))]),
                                ).followed_by(
                                    crate::codegen::common::plan_load_value(cx, t, at(Reg::Bx)),
                                )
                            } else {
                                Plan::Skip
                            }
                        },
                    }
                } else {
                    Plan::Skip
                }
            } else {
                Plan::Skip
            }
        } else {
            Plan::Skip
        }
    } else {
        Plan::Skip
    }
}

/// `*(a + i)` for a file-scope array.
pub open spec fn plan_deref_global_sum<'a>(cx: Cx<'a>, ptr: &'a Expr) -> Plan<'a> {
    if let ExprKind::BinOp { op: BinOp::Add, left, right } = &ptr.kind {
        if let ExprKind::Ident(name) = &left.kind {
            if let Some(elem_ty) = cx.env.global_elem(name) {
                crate::codegen::array_addr::plan_emit_index_into_bx(cx, &**right, elem_ty).followed_by(
                    crate::codegen::common::plan_load_value(cx, elem_ty, elem(name, Reg::Bx)),
                )
            } else {
                Plan::Skip
            }
        } else {
            Plan::Skip
        }
    } else {
        Plan::Skip
    }
}

/// `*(T *)&x`: a read of the variable with the width of the cast, not
/// widened.
pub open spec fn plan_deref_cast_address<'a>(cx: Cx<'a>, ptr: &'a Expr) -> Plan<'a> {
    if let ExprKind::Cast { ty, operand } = &ptr.kind {
        if let Type::Pointer(to) = ty {
            if let ExprKind::AddressOf(name) = &operand.kind {
                if let Some(off) = cx.env.stack_of(name) {
                    Plan::Emit(seq![
                        mov(acc(to.is_char_like()), sized(to.is_char_like(), bp(off))),
                    ])
                } else {
                    Plan::Skip
                }
            } else {
                Plan::Skip
            }
        } else {
            Plan::Skip
        }
    } else {
        Plan::Skip
    }
}

/// `*(p + i + j)`: each subscript is scaled in `ax` and added in `bx`.
pub open spec fn plan_deref_double_sum<'a>(cx: Cx<'a>, ptr: &'a Expr) -> Plan<'a> {
    if let ExprKind::BinOp { op: BinOp::Add, left, right } = &ptr.kind {
        if let ExprKind::BinOp { op: BinOp::Add, left: base, right: inner } = &left.kind {
            if let ExprKind::Ident(name) = &base.kind {
                if let Some(t) = cx.env.local_pointee(name) {
                    if (t.size() as u16) == 1 || (t.size() as u16) == 2 {
                        Plan::Emit(seq![to_ax(cx, &**inner)]).followed_by(
                            Plan::Emit(if (t.size() as u16) == 2 {
                                seq![shl1(ax())]
                            } else {
                                seq![]
                            }),
                        ).followed_by(crate::codegen::array_addr::plan_name_into_bx(cx, name)).followed_by(
                            Plan::Emit(seq![
                                add_to(bx(), ax()),
                                to_ax(cx, &**right),
                            ]),
                        ).followed_by(
                            Plan::Emit(if (t.size() as u16) == 2 {
                                seq![shl1(ax())]
                            } else {
                                seq![]
                            }),
                        ).followed_by(Plan::Emit(seq![add_to(bx(), ax())])).followed_by(
                            crate::codegen::common::plan_load_value(cx, t, at(Reg::Bx)),
                        )
                    } else {
                        Plan::Skip
                    }
                } else {
                    Plan::Skip
                }
            } else {
                Plan::Skip
            }
        } else {
            Plan::Skip
        }
    } else {
        Plan::Skip
    }
}

/// `*(s + x)` for a `_seg` pointer.
pub open spec fn plan_deref_selector_sum<'a>(cx: Cx<'a>, ptr: &'a Expr) -> Plan<'a> {
    if let ExprKind::BinOp { op: BinOp::Add, left, right } = &ptr.kind {
        if let ExprKind::Ident(name) = &left.kind {
            if let Some(l) = cx.env.local(name) {
                if l.is_selector {
                    if let Some(t) = l.ty.pointee() {
                        Plan::Emit(seq![Step::SelectorRead(name, t, &**right)])
                    } else {
                        Plan::Stuck
                    }
                } else {
                    Plan::Skip
                }
            } else {
                Plan::Skip
            }
        } else {
            Plan::Skip
        }
    } else {
        Plan::Skip
    }
}

/// `*(p + x)` for a local pointer.
pub open spec fn plan_deref_local_sum<'a>(cx: Cx<'a>, ptr: &'a Expr) -> Plan<'a> {
    if let ExprKind::BinOp { op: BinOp::Add, left, right } = &ptr.kind {
        if let ExprKind::Ident(name) = &left.kind {
            if let Some(t) = cx.env.local_pointee(name) {
                plan_emit_deref_pointer_plus_offset(cx, name, t, &**right)
            } else {
                Plan::Skip
            }
        } else {
            Plan::Skip
        }
    } else {
        Plan::Skip
    }
}

/// `*p++` and `*p--` of a pointer in a register. A character is read first
/// and the update put off to the end of the statement, unless an argument is
/// being evaluated or the register forms no address; otherwise the old
/// pointer is kept in `bx`.
pub open spec fn plan_deref_postupdate<'a>(cx: Cx<'a>, ptr: &'a Expr) -> Plan<'a> {
    if let ExprKind::Update { target, op, position: UpdatePosition::Post } = &ptr.kind {
        if let Some(l) = cx.env.local(target) {
            if let Some(t) = l.ty.pointee() {
                if let LocalLocation::Reg(reg) = l.loc {
                    if (t.size() as u16) == 1 || (t.size() as u16) == 2 {
                        if t.is_char_like() && !cx.in_arg_expr && reg.is_base() {
                            Plan::Emit(seq![
                                mov(al(), byte(at(reg))),
                                widen(t.is_unsigned()),
                                Step::DeferUpdate(reg, (t.size() as u16), *op),
                            ])
                        } else {
                            Plan::Emit(seq![mov(bx(), r(reg))]).followed_by(
                                Plan::Emit(op1(update(*op), r(reg)).times((t.size() as u16) as nat)),
                            ).followed_by(
                                if t.is_char_like() {
                                    Plan::Emit(seq![
                                        mov(al(), byte(at(Reg::Bx))),
                                        widen(t.is_unsigned()),
                                    ])
                                } else {
                                    Plan::Emit(seq![mov(ax(), word(at(Reg::Bx)))])
                                },
                            )
                        }
                    } else {
                        Plan::Stuck
                    }
                } else {
                    Plan::Stuck
                }
            } else {
                Plan::Stuck
            }
        } else {
            Plan::Stuck
        }
    } else {
        Plan::Skip
    }
}

/// `*p` for a local pointer: through its register, or through `bx`. A far
/// pointer is loaded into `es:bx`.
pub open spec fn plan_deref_local<'a>(cx: Cx<'a>, name: &'a String) -> Plan<'a> {
    if !cx.env.is_global(name) {
        if let Some(l) = cx.env.local(name) {
            if let Some(t) = l.ty.pointee() {
                match l.loc {
                    LocalLocation::Reg(reg) => {
                        crate::codegen::common::plan_load_value(cx, t, at(reg))
                    },
                    LocalLocation::Stack(off) => {
                        match &l.ty {
                            Type::FarPointer { pointee: _, is_huge: _ } => {
                                Plan::Emit(seq![op2(Mnemonic::Les, bx(), word(bp(off)))]).followed_by(
                                    crate::codegen::common::plan_load_value(cx, t, seg_at(Reg::Es, Reg::Bx)),
                                )
                            },
                            _ => {
                                Plan::Emit(seq![mov(bx(), word(bp(off)))]).followed_by(
                                    crate::codegen::common::plan_load_value(cx, t, at(Reg::Bx)),
                                )
                            },
                        }
                    },
                }
            } else {
                Plan::Stuck
            }
        } else {
            Plan::Stuck
        }
    } else {
        Plan::Skip
    }
}

/// `*p` for a far pointer at file scope.
pub open spec fn plan_deref_far_global<'a>(cx: Cx<'a>, name: &'a String) -> Plan<'a> {
    if let Some(gty) = cx.env.global_type(name) {
        if let Type::FarPointer { pointee, is_huge: _ } = gty {
            Plan::Emit(seq![op2(Mnemonic::Les, bx(), wide(Width::Dword, global(name)))]).followed_by(
                crate::codegen::common::plan_load_value(cx, &**pointee, seg_at(Reg::Es, Reg::Bx)),
            )
        } else {
            Plan::Skip
        }
    } else {
        Plan::Skip
    }
}

/// Any other chain of dereferences: all but the last go through `bx`.
pub open spec fn plan_deref_chain<'a>(cx: Cx<'a>, name: &'a String, depth: u32) -> Plan<'a> {
    if let Some(t) = chain_type(cx.env, name, depth) {
        Plan::Emit(seq![Step::ChainToBx(name, depth)]).followed_by(
            crate::codegen::common::plan_load_value(cx, t, at(Reg::Bx)),
        )
    } else {
        Plan::Stuck
    }
}

/// A variable dereferenced `depth + 1` times.
pub open spec fn plan_deref_root<'a>(cx: Cx<'a>, name: &'a String, depth: u32) -> Plan<'a> {
    if depth == 0 {
        match plan_deref_local(cx, name) {
            Plan::Skip => {
                match plan_deref_far_global(cx, name) {
                    Plan::Skip => {
                        plan_deref_chain(cx, name, depth)
                    },
                    taken => taken,
                }
            },
            taken => taken,
        }
    } else {
        plan_deref_chain(cx, name, depth)
    }
}

/// `*p` for a variable.
pub open spec fn plan_deref_name<'a>(cx: Cx<'a>, name: &'a String) -> Plan<'a> {
    match plan_deref_segment(cx, name) {
        Plan::Skip => {
            plan_deref_root(cx, name, 0)
        },
        taken => taken,
    }
}

/// Reads what a pointer expression points at into `ax`.
pub open spec fn plan_emit_deref_to_ax<'a>(cx: Cx<'a>, ptr: &'a Expr) -> Plan<'a> {
    match plan_deref_preupdate(cx, ptr) {
        Plan::Skip => {
            match plan_deref_segment_ident(cx, ptr) {
                Plan::Skip => {
                    match plan_deref_cast_width(cx, ptr) {
                        Plan::Skip => {
                            match plan_deref_call(cx, ptr) {
                                Plan::Skip => {
                                    match plan_deref_member(cx, ptr) {
                                        Plan::Skip => {
                                            match plan_deref_array_elem(cx, ptr) {
                                                Plan::Skip => {
                                                    match plan_deref_global_sum(cx, ptr) {
                                                        Plan::Skip => {
                                                            match plan_deref_cast_address(cx, ptr) {
                                                                Plan::Skip => {
                                                                    match plan_deref_double_sum(cx, ptr) {
                                                                        Plan::Skip => {
                                                                            match plan_deref_selector_sum(cx, ptr) {
                                                                                Plan::Skip => {
                                                                                    match plan_deref_local_sum(cx, ptr) {
                                                                                        Plan::Skip => {
                                                                                            match plan_deref_postupdate(cx, ptr) {
                                                                                                Plan::Skip => {
                                                                                                    if let Some((name, depth)) = deref_chain_root(ptr) {
                                                                                                        plan_deref_root(cx, name, depth)
                                                                                                    } else {
                                                                                                        Plan::Stuck
                                                                                                    }
                                                                                                },
                                                                                                taken => taken,
                                                                                            }
                                                                                        },
                                                                                        taken => taken,
                                                                                    }
                                                                                },
                                                                                taken => taken,
                                                                            }
                                                                        },
                                                                        taken => taken,
                                                                    }
                                                                },
                                                                taken => taken,
                                                            }
                                                        },
                                                        taken => taken,
                                                    }
                                                },
                                                taken => taken,
                                            }
                                        },
                                        taken => taken,
                                    }
                                },
                                taken => taken,
                            }
                        },
                        taken => taken,
                    }
                },
                taken => taken,
            }
        },
        taken => taken,
    }
}

/// `*(p + k)` with a constant: the offset is part of the address.
pub open spec fn plan_pointer_plus_const<'a>(
    cx: Cx<'a>,
    name: &'a String,
    t: &'a Type,
    offset: &'a Expr,
) -> Plan<'a> {
    if let Some(k) = cx.env.const_of(offset) {
        if let Some(l) = cx.env.local(name) {
            if scales(k, (t.size() as u16)) {
                match l.loc {
                    LocalLocation::Reg(reg) => {
                        plan_load_widened(cx, t, at_disp(reg, plus(uscaled(k, (t.size() as u16)) as i64)))
                    },
                    LocalLocation::Stack(off) => {
                        Plan::Emit(seq![mov(bx(), word(bp(off)))]).followed_by(
                            plan_load_widened(cx, t, at_disp(Reg::Bx, plus(uscaled(k, (t.size() as u16)) as i64))),
                        )
                    },
                }
            } else {
                Plan::Stuck
            }
        } else {
            Plan::Stuck
        }
    } else {
        Plan::Skip
    }
}

/// Loads a character, widened with its sign or without as its type has it,
/// or a word, into `ax`.
pub open spec fn plan_load_widened<'a>(cx: Cx<'a>, t: &'a Type, a: Addr<'a>) -> Plan<'a> {
    if t.is_char_like() {
        Plan::Emit(seq![
            mov(al(), byte(a)),
            widen(t.is_unsigned()),
        ])
    } else {
        Plan::Emit(seq![mov(ax(), word(a))])
    }
}

/// `*(p + i)` into bytes with `i` in memory: the subscript is added to the
/// pointer in `bx`.
pub open spec fn plan_pointer_plus_memory<'a>(
    cx: Cx<'a>,
    name: &'a String,
    t: &'a Type,
    offset: &'a Expr,
) -> Plan<'a> {
    if (t.size() as u16) == 1 {
        if let Some(addr) = &cx.env.facts(offset).int_addr {
            crate::codegen::array_addr::plan_name_into_bx(cx, name).followed_by(
                Plan::Emit(seq![add_to(bx(), word(named(addr)))]),
            ).followed_by(
                if t.is_char_like() {
                    Plan::Emit(seq![mov(al(), byte(at(Reg::Bx)))]).followed_by(
                        Plan::Emit(if !cx.skip_widen {
                            seq![widen(t.is_unsigned())]
                        } else {
                            seq![]
                        }),
                    )
                } else {
                    Plan::Emit(seq![mov(ax(), word(at(Reg::Bx)))])
                },
            )
        } else {
            Plan::Skip
        }
    } else {
        Plan::Skip
    }
}

/// Any other `*(p + i)`: the subscript is scaled in `ax`.
pub open spec fn plan_pointer_plus_general<'a>(
    cx: Cx<'a>,
    name: &'a String,
    t: &'a Type,
    offset: &'a Expr,
) -> Plan<'a> {
    if (t.size() as u16) == 1 || (t.size() as u16) == 2 {
        Plan::Emit(seq![to_ax(cx, offset)]).followed_by(
            Plan::Emit(if (t.size() as u16) == 2 {
                seq![shl1(ax())]
            } else {
                seq![]
            }),
        ).followed_by(crate::codegen::array_addr::plan_name_into_bx(cx, name)).followed_by(
            Plan::Emit(seq![add_to(bx(), ax())]),
        ).followed_by(plan_load_widened(cx, t, at(Reg::Bx)))
    } else {
        Plan::Stuck
    }
}

/// Reads `*(p + offset)` for a local pointer to `t` into `ax`.
pub open spec fn plan_emit_deref_pointer_plus_offset<'a>(
    cx: Cx<'a>,
    name: &'a String,
    t: &'a Type,
    offset: &'a Expr,
) -> Plan<'a> {
    match plan_pointer_plus_const(cx, name, t, offset) {
        Plan::Skip => {
            match plan_pointer_plus_memory(cx, name, t, offset) {
                Plan::Skip => {
                    plan_pointer_plus_general(cx, name, t, offset)
                },
                taken => taken,
            }
        },
        taken => taken,
    }
}

impl<'a> FunctionEmitter<'a> {
    /// Emits what [`plan_deref_preupdate`] says, if it applies.
    pub fn try_deref_preupdate(&mut self, ptr: &'a Expr) -> (done: bool)
        requires
            old(self).cx.env.wf(),
            !(plan_deref_preupdate(old(self).cx, ptr) is Stuck),
        ensures
            final(self).ran(*old(self), plan_deref_preupdate(old(self).cx, ptr), done),
    {
        let cx: Cx<'a> = self.cx;
        let ExprKind::Update { target, op, position: UpdatePosition::Pre } = &ptr.kind else { return false; };
        let Some(l) = cx.env.local(target) else { return false; };
        self.put(Step::UpdateInPlace(target, *op, UpdatePosition::Pre));
        match char_pointer_reg(l) {
            Some(reg) => {
                let Some(t) = l.ty.pointee() else { return false; };
                self.put(mov(bx(), r(reg)));
                self.put(mov(al(), byte(at(Reg::Bx))));
                self.put(widen_al(cx, t));
                return true;
            },
            None => {
                self.deref_name(target);
                return true;
            },
        }
    }

    /// Emits what [`plan_deref_segment`] says, if it applies.
    pub fn try_deref_segment(&mut self, name: &'a String) -> (done: bool)
        requires
            old(self).cx.env.wf(),
            !(plan_deref_segment(old(self).cx, name) is Stuck),
        ensures
            final(self).ran(*old(self), plan_deref_segment(old(self).cx, name), done),
    {
        let cx: Cx<'a> = self.cx;
        let Some(l) = cx.env.local(name) else { return false; };
        let Some(seg) = l.seg else { return false; };
        let LocalLocation::Reg(reg) = l.loc else { return false; };
        let Some(t) = l.ty.pointee() else { return false; };
        self.load_value(t, seg_at(seg, reg));
        true
    }

    /// Emits what [`plan_deref_segment_ident`] says, if it applies.
    pub fn try_deref_segment_ident(&mut self, ptr: &'a Expr) -> (done: bool)
        requires
            old(self).cx.env.wf(),
            !(plan_deref_segment_ident(old(self).cx, ptr) is Stuck),
        ensures
            final(self).ran(*old(self), plan_deref_segment_ident(old(self).cx, ptr), done),
    {
        let ExprKind::Ident(name) = &ptr.kind else { return false; };
        return self.try_deref_segment(name);
    }

    /// Emits what [`plan_deref_cast_width`] says, if it applies.
    pub fn try_deref_cast_width(&mut self, ptr: &'a Expr) -> (done: bool)
        requires
            old(self).cx.env.wf(),
            !(plan_deref_cast_width(old(self).cx, ptr) is Stuck),
        ensures
            final(self).ran(*old(self), plan_deref_cast_width(old(self).cx, ptr), done),
    {
        let cx: Cx<'a> = self.cx;
        let ExprKind::Cast { ty, operand } = &ptr.kind else { return false; };
        let Type::Pointer(to) = ty else { return false; };
        let ExprKind::Ident(name) = &operand.kind else { return false; };
        let Some(l) = cx.env.local(name) else { return false; };
        let Some(from) = l.ty.pointee() else { return false; };
        if !to.is_countable() {
            return false;
        }
        if !(from.size_bytes() != to.size_bytes()) {
            return false;
        }
        match l.loc {
            LocalLocation::Reg(reg) => {
                self.load_value(&**to, at(reg));
                return true;
            },
            LocalLocation::Stack(off) => {
                self.put(mov(bx(), word(bp(off))));
                self.load_value(&**to, at(Reg::Bx));
                return true;
            },
        }
    }

    /// Emits what [`plan_deref_call`] says, if it applies.
    pub fn try_deref_call(&mut self, ptr: &'a Expr) -> (done: bool)
        requires
            old(self).cx.env.wf(),
            !(plan_deref_call(old(self).cx, ptr) is Stuck),
        ensures
            final(self).ran(*old(self), plan_deref_call(old(self).cx, ptr), done),
    {
        let cx: Cx<'a> = self.cx;
        let ExprKind::Call { name, args } = &ptr.kind else { return false; };
        let Some(ret) = cx.env.ret_ty_of(name) else { return false; };
        let Some(t) = ret.pointee() else { return false; };
        self.put(Step::CallFn(name, args));
        self.put(mov(bx(), ax()));
        self.load_value(t, at(Reg::Bx));
        true
    }

    /// Emits what [`plan_deref_member`] says, if it applies.
    pub fn try_deref_member(&mut self, ptr: &'a Expr) -> (done: bool)
        requires
            old(self).cx.env.wf(),
            !(plan_deref_member(old(self).cx, ptr) is Stuck),
        ensures
            final(self).ran(*old(self), plan_deref_member(old(self).cx, ptr), done),
    {
        let cx: Cx<'a> = self.cx;
        let ExprKind::Member { base: _, field: _, kind: _ } = &ptr.kind else { return false; };
        let Some(chain) = &cx.env.facts(ptr).chain else { return false; };
        let Some(addr) = cx.env.resolve_chain_addr(&chain.name, chain.off) else { return false; };
        let Some(t) = chain.ty.pointee() else { return false; };
        self.put(mov(bx(), word(addr)));
        self.load_value(t, at(Reg::Bx));
        true
    }

    /// Loads element `k` of an array of pointers into `bx`.
    pub fn pointer_elem_to_bx(&mut self, name: &'a String, k: u32, size: u16)
        requires
            old(self).cx.env.wf(),
            plan_pointer_elem_to_bx(old(self).cx, name, k, size) is Emit,
        ensures
            final(self).wrote(*old(self), plan_pointer_elem_to_bx(old(self).cx, name, k, size)),
    {
        let cx: Cx<'a> = self.cx;
        if cx.env.is_global(name) {
            self.put(mov(bx(), word(global_at(name, plus(uscaled(k, size) as i64)))));
        } else {
            let Some(base) = cx.env.stack_of(name) else { return; };
            self.put(mov(bx(), word(bp_sat(base, scaled(k, size)))));
        }
    }

    /// Emits what [`plan_deref_array_elem`] says, if it applies.
    pub fn try_deref_array_elem(&mut self, ptr: &'a Expr) -> (done: bool)
        requires
            old(self).cx.env.wf(),
            !(plan_deref_array_elem(old(self).cx, ptr) is Stuck),
        ensures
            final(self).ran(*old(self), plan_deref_array_elem(old(self).cx, ptr), done),
    {
        let cx: Cx<'a> = self.cx;
        let ExprKind::ArrayIndex { array, index } = &ptr.kind else { return false; };
        let ExprKind::Ident(name) = &array.kind else { return false; };
        let Some(elem_ty) = cx.env.array_elem_of(name) else { return false; };
        let Some(t) = elem_ty.pointee() else { return false; };
        match cx.env.const_of(&**index) {
            Some(k) => {
                self.pointer_elem_to_bx(name, k, elem_ty.size_bytes());
                self.load_value(t, at(Reg::Bx));
                return true;
            },
            None => {
                if !cx.env.is_global(name) {
                    return false;
                }
                self.emit_index_into_bx(&**index, elem_ty);
                self.put(mov(bx(), word(elem(name, Reg::Bx))));
                self.load_value(t, at(Reg::Bx));
                return true;
            },
        }
    }

    /// Emits what [`plan_deref_global_sum`] says, if it applies.
    pub fn try_deref_global_sum(&mut self, ptr: &'a Expr) -> (done: bool)
        requires
            old(self).cx.env.wf(),
            !(plan_deref_global_sum(old(self).cx, ptr) is Stuck),
        ensures
            final(self).ran(*old(self), plan_deref_global_sum(old(self).cx, ptr), done),
    {
        let cx: Cx<'a> = self.cx;
        let ExprKind::BinOp { op: BinOp::Add, left, right } = &ptr.kind else { return false; };
        let ExprKind::Ident(name) = &left.kind else { return false; };
        let Some(elem_ty) = cx.env.global_elem(name) else { return false; };
        self.emit_index_into_bx(&**right, elem_ty);
        self.load_value(elem_ty, elem(name, Reg::Bx));
        true
    }

    /// Emits what [`plan_deref_cast_address`] says, if it applies.
    pub fn try_deref_cast_address(&mut self, ptr: &'a Expr) -> (done: bool)
        requires
            old(self).cx.env.wf(),
            !(plan_deref_cast_address(old(self).cx, ptr) is Stuck),
        ensures
            final(self).ran(*old(self), plan_deref_cast_address(old(self).cx, ptr), done),
    {
        let cx: Cx<'a> = self.cx;
        let ExprKind::Cast { ty, operand } = &ptr.kind else { return false; };
        let Type::Pointer(to) = ty else { return false; };
        let ExprKind::AddressOf(name) = &operand.kind else { return false; };
        let Some(off) = cx.env.stack_of(name) else { return false; };
        self.put(mov(acc(to.is_char_like()), sized(to.is_char_like(), bp(off))));
        true
    }

    /// Emits what [`plan_deref_double_sum`] says, if it applies.
    pub fn try_deref_double_sum(&mut self, ptr: &'a Expr) -> (done: bool)
        requires
            old(self).cx.env.wf(),
            !(plan_deref_double_sum(old(self).cx, ptr) is Stuck),
        ensures
            final(self).ran(*old(self), plan_deref_double_sum(old(self).cx, ptr), done),
    {
        let cx: Cx<'a> = self.cx;
        let ExprKind::BinOp { op: BinOp::Add, left, right } = &ptr.kind else { return false; };
        let ExprKind::BinOp { op: BinOp::Add, left: base, right: inner } = &left.kind else { return false; };
        let ExprKind::Ident(name) = &base.kind else { return false; };
        let Some(t) = cx.env.local_pointee(name) else { return false; };
        if !(t.size_bytes() == 1 || t.size_bytes() == 2) {
            return false;
        }
        self.put(to_ax(cx, &**inner));
        if t.size_bytes() == 2 {
            self.put(shl1(ax()));
        }
        self.name_into_bx(name);
        self.put(add_to(bx(), ax()));
        self.put(to_ax(cx, &**right));
        if t.size_bytes() == 2 {
            self.put(shl1(ax()));
        }
        self.put(add_to(bx(), ax()));
        self.load_value(t, at(Reg::Bx));
        true
    }

    /// Emits what [`plan_deref_selector_sum`] says, if it applies.
    pub fn try_deref_selector_sum(&mut self, ptr: &'a Expr) -> (done: bool)
        requires
            old(self).cx.env.wf(),
            !(plan_deref_selector_sum(old(self).cx, ptr) is Stuck),
        ensures
            final(self).ran(*old(self), plan_deref_selector_sum(old(self).cx, ptr), done),
    {
        let cx: Cx<'a> = self.cx;
        let ExprKind::BinOp { op: BinOp::Add, left, right } = &ptr.kind else { return false; };
        let ExprKind::Ident(name) = &left.kind else { return false; };
        let Some(l) = cx.env.local(name) else { return false; };
        if !l.is_selector {
            return false;
        }
        let Some(t) = l.ty.pointee() else { return false; };
        self.put(Step::SelectorRead(name, t, &**right));
        true
    }

    /// Emits what [`plan_deref_local_sum`] says, if it applies.
    pub fn try_deref_local_sum(&mut self, ptr: &'a Expr) -> (done: bool)
        requires
            old(self).cx.env.wf(),
            !(plan_deref_local_sum(old(self).cx, ptr) is Stuck),
        ensures
            final(self).ran(*old(self), plan_deref_local_sum(old(self).cx, ptr), done),
    {
        let cx: Cx<'a> = self.cx;
        let ExprKind::BinOp { op: BinOp::Add, left, right } = &ptr.kind else { return false; };
        let ExprKind::Ident(name) = &left.kind else { return false; };
        let Some(t) = cx.env.local_pointee(name) else { return false; };
        self.emit_deref_pointer_plus_offset(name, t, &**right);
        true
    }

    /// Emits what [`plan_deref_postupdate`] says, if it applies.
    pub fn try_deref_postupdate(&mut self, ptr: &'a Expr) -> (done: bool)
        requires
            old(self).cx.env.wf(),
            !(plan_deref_postupdate(old(self).cx, ptr) is Stuck),
        ensures
            final(self).ran(*old(self), plan_deref_postupdate(old(self).cx, ptr), done),
    {
        let cx: Cx<'a> = self.cx;
        let ExprKind::Update { target, op, position: UpdatePosition::Post } = &ptr.kind else { return false; };
        let Some(l) = cx.env.local(target) else { return false; };
        let Some(t) = l.ty.pointee() else { return false; };
        let LocalLocation::Reg(reg) = l.loc else { return false; };
        if !(t.size_bytes() == 1 || t.size_bytes() == 2) {
            return false;
        }
        if t.is_char_like() && !cx.in_arg_expr && reg.is_base() {
            self.put(mov(al(), byte(at(reg))));
            self.put(widen(t.is_unsigned()));
            self.put(Step::DeferUpdate(reg, t.size_bytes(), *op));
            return true;
        } else {
            self.put(mov(bx(), r(reg)));
            self.put_times(op1(update(*op), r(reg)), t.size_bytes() as u64);
            if t.is_char_like() {
                self.put(mov(al(), byte(at(Reg::Bx))));
                self.put(widen(t.is_unsigned()));
                return true;
            } else {
                self.put(mov(ax(), word(at(Reg::Bx))));
                return true;
            }
        }
    }

    /// Emits what [`plan_deref_local`] says, if it applies.
    pub fn try_deref_local(&mut self, name: &'a String) -> (done: bool)
        requires
            old(self).cx.env.wf(),
            !(plan_deref_local(old(self).cx, name) is Stuck),
        ensures
            final(self).ran(*old(self), plan_deref_local(old(self).cx, name), done),
    {
        let cx: Cx<'a> = self.cx;
        if !(!cx.env.is_global(name)) {
            return false;
        }
        let Some(l) = cx.env.local(name) else { return false; };
        let Some(t) = l.ty.pointee() else { return false; };
        match l.loc {
            LocalLocation::Reg(reg) => {
                self.load_value(t, at(reg));
                return true;
            },
            LocalLocation::Stack(off) => {
                match &l.ty {
                    Type::FarPointer { pointee: _, is_huge: _ } => {
                        self.put(op2(Mnemonic::Les, bx(), word(bp(off))));
                        self.load_value(t, seg_at(Reg::Es, Reg::Bx));
                        return true;
                    },
                    _ => {
                        self.put(mov(bx(), word(bp(off))));
                        self.load_value(t, at(Reg::Bx));
                        return true;
                    },
                }
            },
        }
    }

    /// Emits what [`plan_deref_far_global`] says, if it applies.
    pub fn try_deref_far_global(&mut self, name: &'a String) -> (done: bool)
        requires
            old(self).cx.env.wf(),
            !(plan_deref_far_global(old(self).cx, name) is Stuck),
        ensures
            final(self).ran(*old(self), plan_deref_far_global(old(self).cx, name), done),
    {
        let cx: Cx<'a> = self.cx;
        let Some(gty) = cx.env.global_type(name) else { return false; };
        let Type::FarPointer { pointee, is_huge: _ } = gty else { return false; };
        self.put(op2(Mnemonic::Les, bx(), wide(Width::Dword, global(name))));
        self.load_value(&**pointee, seg_at(Reg::Es, Reg::Bx));
        true
    }

    /// Emits what [`plan_deref_chain`] says, if it applies.
    pub fn try_deref_chain(&mut self, name: &'a String, depth: u32) -> (done: bool)
        requires
            old(self).cx.env.wf(),
            !(plan_deref_chain(old(self).cx, name, depth) is Stuck),
        ensures
            final(self).ran(*old(self), plan_deref_chain(old(self).cx, name, depth), done),
    {
        let cx: Cx<'a> = self.cx;
        let Some(t) = chain_type(cx.env, name, depth) else { return false; };
        self.put(Step::ChainToBx(name, depth));
        self.load_value(t, at(Reg::Bx));
        true
    }

    /// A variable dereferenced `depth + 1` times.
    pub fn deref_root(&mut self, name: &'a String, depth: u32)
        requires
            old(self).cx.env.wf(),
            plan_deref_root(old(self).cx, name, depth) is Emit,
        ensures
            final(self).wrote(*old(self), plan_deref_root(old(self).cx, name, depth)),
    {
        if depth == 0 {
            if self.try_deref_local(name) {
                return;
            }
            if self.try_deref_far_global(name) {
                return;
            }
            self.try_deref_chain(name, depth);
            return;
        } else {
            self.try_deref_chain(name, depth);
            return;
        }
    }

    /// `*p` for a variable.
    pub fn deref_name(&mut self, name: &'a String)
        requires
            old(self).cx.env.wf(),
            plan_deref_name(old(self).cx, name) is Emit,
        ensures
            final(self).wrote(*old(self), plan_deref_name(old(self).cx, name)),
    {
        if self.try_deref_segment(name) {
            return;
        }
        self.deref_root(name, 0);
    }

    /// Reads what a pointer expression points at into `ax`.
    pub fn emit_deref_to_ax(&mut self, ptr: &'a Expr)
        requires
            old(self).cx.env.wf(),
            plan_emit_deref_to_ax(old(self).cx, ptr) is Emit,
        ensures
            final(self).wrote(*old(self), plan_emit_deref_to_ax(old(self).cx, ptr)),
    {
        if self.try_deref_preupdate(ptr) {
            return;
        }
        if self.try_deref_segment_ident(ptr) {
            return;
        }
        if self.try_deref_cast_width(ptr) {
            return;
        }
        if self.try_deref_call(ptr) {
            return;
        }
        if self.try_deref_member(ptr) {
            return;
        }
        if self.try_deref_array_elem(ptr) {
            return;
        }
        if self.try_deref_global_sum(ptr) {
            return;
        }
        if self.try_deref_cast_address(ptr) {
            return;
        }
        if self.try_deref_double_sum(ptr) {
            return;
        }
        if self.try_deref_selector_sum(ptr) {
            return;
        }
        if self.try_deref_local_sum(ptr) {
            return;
        }
        if self.try_deref_postupdate(ptr) {
            return;
        }
        let Some((name, depth)) = deref_chain_root(ptr) else { return; };
        self.deref_root(name, depth);
    }

    /// Emits what [`plan_pointer_plus_const`] says, if it applies.
    pub fn try_pointer_plus_const(
        &mut self,
        name: &'a String,
        t: &'a Type,
        offset: &'a Expr,
    ) -> (done: bool)
        requires
            old(self).cx.env.wf(),
            t.is_countable(),
            !(plan_pointer_plus_const(old(self).cx, name, t, offset) is Stuck),
        ensures
            final(self).ran(
                *old(self),
                plan_pointer_plus_const(old(self).cx, name, t, offset),
                done,
            ),
    {
        let cx: Cx<'a> = self.cx;
        let Some(k) = cx.env.const_of(offset) else { return false; };
        let Some(l) = cx.env.local(name) else { return false; };
        if !(scales(k, t.size_bytes())) {
            return false;
        }
        match l.loc {
            LocalLocation::Reg(reg) => {
                self.load_widened(t, at_disp(reg, plus(uscaled(k, t.size_bytes()) as i64)));
                return true;
            },
            LocalLocation::Stack(off) => {
                self.put(mov(bx(), word(bp(off))));
                self.load_widened(t, at_disp(Reg::Bx, plus(uscaled(k, t.size_bytes()) as i64)));
                return true;
            },
        }
    }

    /// Loads a character, widened with its sign or without as its type has it,
    /// or a word, into `ax`.
    pub fn load_widened(&mut self, t: &'a Type, a: Addr<'a>)
        requires
            old(self).cx.env.wf(),
            plan_load_widened(old(self).cx, t, a) is Emit,
        ensures
            final(self).wrote(*old(self), plan_load_widened(old(self).cx, t, a)),
    {
        if t.is_char_like() {
            self.put(mov(al(), byte(a)));
            self.put(widen(t.is_unsigned()));
        } else {
            self.put(mov(ax(), word(a)));
        }
    }

    /// Emits what [`plan_pointer_plus_memory`] says, if it applies.
    pub fn try_pointer_plus_memory(
        &mut self,
        name: &'a String,
        t: &'a Type,
        offset: &'a Expr,
    ) -> (done: bool)
        requires
            old(self).cx.env.wf(),
            t.is_countable(),
            !(plan_pointer_plus_memory(old(self).cx, name, t, offset) is Stuck),
        ensures
            final(self).ran(
                *old(self),
                plan_pointer_plus_memory(old(self).cx, name, t, offset),
                done,
            ),
    {
        let cx: Cx<'a> = self.cx;
        if !(t.size_bytes() == 1) {
            return false;
        }
        let Some(addr) = &cx.env.facts(offset).int_addr else { return false; };
        self.name_into_bx(name);
        self.put(add_to(bx(), word(named(addr))));
        if t.is_char_like() {
            self.put(mov(al(), byte(at(Reg::Bx))));
            if !cx.skip_widen {
                self.put(widen(t.is_unsigned()));
            }
            return true;
        } else {
            self.put(mov(ax(), word(at(Reg::Bx))));
            return true;
        }
    }

    /// Emits what [`plan_pointer_plus_general`] says, if it applies.
    pub fn try_pointer_plus_general(
        &mut self,
        name: &'a String,
        t: &'a Type,
        offset: &'a Expr,
    ) -> (done: bool)
        requires
            old(self).cx.env.wf(),
            t.is_countable(),
            !(plan_pointer_plus_general(old(self).cx, name, t, offset) is Stuck),
        ensures
            final(self).ran(
                *old(self),
                plan_pointer_plus_general(old(self).cx, name, t, offset),
                done,
            ),
    {
        let cx: Cx<'a> = self.cx;
        if !(t.size_bytes() == 1 || t.size_bytes() == 2) {
            return false;
        }
        self.put(to_ax(cx, offset));
        if t.size_bytes() == 2 {
            self.put(shl1(ax()));
        }
        self.name_into_bx(name);
        self.put(add_to(bx(), ax()));
        self.load_widened(t, at(Reg::Bx));
        true
    }

    /// Reads `*(p + offset)` for a local pointer to `t` into `ax`.
    pub fn emit_deref_pointer_plus_offset(
        &mut self,
        name: &'a String,
        t: &'a Type,
        offset: &'a Expr,
    )
        requires
            old(self).cx.env.wf(),
            t.is_countable(),
            plan_emit_deref_pointer_plus_offset(old(self).cx, name, t, offset) is Emit,
        ensures
            final(self).wrote(
                *old(self),
                plan_emit_deref_pointer_plus_offset(old(self).cx, name, t, offset),
            ),
    {
        if self.try_pointer_plus_const(name, t, offset) {
            return;
        }
        if self.try_pointer_plus_memory(name, t, offset) {
            return;
        }
        self.try_pointer_plus_general(name, t, offset);
        return;
    }
}

} // verus!
