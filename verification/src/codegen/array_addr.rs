//! Element addresses: subscripts scaled into `bx`.

use vstd::prelude::*;
use crate::ast::{BinOp, Expr, ExprKind, Type, UpdatePosition};
use crate::codegen::emitter::{
    add_to, imul, lea, mov, op1, shl1, to_ax, widen, Cx, FunctionEmitter, Plan,
};
use crate::codegen::env::{Env, LocalLocation};
use crate::isa::{
    al, at, ax, bp, bx, byte, dx, given, global, halvings, imm, is_pow2, named, r, update, word,
};

verus! {

/// How often a subscript is doubled for an element size; `None` for a size
/// that doubling does not reach.
#[verifier::allow_in_spec]
pub fn index_shifts(size: u16) -> Option<u32>
    returns
        (match size {
            1 => Some(0u32),
            2 => Some(1u32),
            4 => Some(2u32),
            _ => None,
        }),
{
    match size {
        1 => Some(0u32),
        2 => Some(1u32),
        4 => Some(2u32),
        _ => None,
    }
}

/// Whether an expression names a character variable.
#[verifier::allow_in_spec]
pub fn names_char(env: &Env, e: &Expr) -> bool
    returns
        (match &e.kind {
            ExprKind::Ident(n) => env.is_char_local(n) || (match env.global_type(n) {
                Some(t) => t.is_char_like(),
                None => false,
            }),
            _ => false,
        }),
{
    match &e.kind {
        ExprKind::Ident(n) => env.is_char_local(n) || (match env.global_type(n) {
            Some(t) => t.is_char_like(),
            None => false,
        }),
        _ => false,
    }
}

/// A character subscript is widened in `ax` before it is scaled.
pub open spec fn plan_index_char<'a>(cx: Cx<'a>, idx: &'a Expr, shifts: u32) -> Plan<'a> {
    if names_char(cx.env, idx) {
        if let ExprKind::Ident(name) = &idx.kind {
            (if cx.env.has(name) {
                if let Some(off) = cx.env.stack_of(name) {
                    Plan::Emit(seq![
                        mov(al(), byte(bp(off))),
                        widen(cx.env.is_unsigned_local(name)),
                    ])
                } else {
                    Plan::Stuck
                }
            } else {
                Plan::Emit(seq![
                    mov(al(), byte(global(name))),
                    widen(cx.env.is_unsigned_global(name)),
                ])
            }).followed_by(Plan::Emit(shl1(ax()).times(shifts as nat))).followed_by(
                Plan::Emit(seq![mov(bx(), ax())]),
            )
        } else {
            Plan::Skip
        }
    } else {
        Plan::Skip
    }
}

/// A subscript `i << k` with `i` in memory is shifted in `bx` altogether.
pub open spec fn plan_index_shifted<'a>(cx: Cx<'a>, idx: &'a Expr, shifts: u32) -> Plan<'a> {
    if let ExprKind::BinOp { op: BinOp::Shl, left, right } = &idx.kind {
        if let Some(k) = cx.env.const_of(&**right) {
            if let Some(addr) = &cx.env.facts(&**left).int_addr {
                if shifts <= 2 && k <= 0xFFFF_FFFF - shifts {
                    Plan::Emit(seq![mov(bx(), word(named(addr)))]).followed_by(
                        Plan::Emit(shl1(bx()).times((k + shifts) as nat)),
                    )
                } else {
                    Plan::Stuck
                }
            } else {
                Plan::Skip
            }
        } else {
            Plan::Skip
        }
    } else {
        Plan::Skip
    }
}

/// An integer subscript in memory is loaded into `bx` directly.
pub open spec fn plan_index_memory<'a>(cx: Cx<'a>, idx: &'a Expr, shifts: u32) -> Plan<'a> {
    if let Some(addr) = &cx.env.facts(idx).int_addr {
        Plan::Emit(seq![mov(bx(), word(named(addr)))]).followed_by(
            Plan::Emit(shl1(bx()).times(shifts as nat)),
        )
    } else {
        Plan::Skip
    }
}

/// An integer subscript in a register is copied into `bx`.
pub open spec fn plan_index_register<'a>(cx: Cx<'a>, idx: &'a Expr, shifts: u32) -> Plan<'a> {
    if let ExprKind::Ident(name) = &idx.kind {
        if cx.env.is_int_local(name) {
            if let Some(reg) = cx.env.word_reg_of(name) {
                Plan::Emit(seq![mov(bx(), r(reg))]).followed_by(
                    Plan::Emit(shl1(bx()).times(shifts as nat)),
                )
            } else {
                Plan::Skip
            }
        } else {
            Plan::Skip
        }
    } else {
        Plan::Skip
    }
}

/// A subscript `i++` or `i--` into bytes is copied before the update.
pub open spec fn plan_index_post<'a>(cx: Cx<'a>, idx: &'a Expr, shifts: u32) -> Plan<'a> {
    if shifts == 0 {
        if let ExprKind::Update { target, op, position: UpdatePosition::Post } = &idx.kind {
            if cx.env.is_int_local(target) {
                if let Some(reg) = cx.env.word_reg_of(target) {
                    Plan::Emit(seq![
                        mov(bx(), r(reg)),
                        op1(update(*op), r(reg)),
                    ])
                } else {
                    Plan::Skip
                }
            } else {
                Plan::Skip
            }
        } else {
            Plan::Skip
        }
    } else {
        Plan::Skip
    }
}

/// A subscript read through a pointer in a register.
pub open spec fn plan_index_deref<'a>(cx: Cx<'a>, idx: &'a Expr, shifts: u32) -> Plan<'a> {
    if let ExprKind::Deref(inner) = &idx.kind {
        if let ExprKind::Ident(p) = &inner.kind {
            if let Some(reg) = cx.env.word_reg_of(p) {
                if let Some(pointee) = cx.env.local_pointee(p) {
                    if pointee.is_int_like() {
                        Plan::Emit(seq![mov(bx(), word(at(reg)))]).followed_by(
                            Plan::Emit(shl1(bx()).times(shifts as nat)),
                        )
                    } else {
                        Plan::Skip
                    }
                } else {
                    Plan::Skip
                }
            } else {
                Plan::Skip
            }
        } else {
            Plan::Skip
        }
    } else {
        Plan::Skip
    }
}

/// A subscript `++i` or `--i` is copied after the update.
pub open spec fn plan_index_pre<'a>(cx: Cx<'a>, idx: &'a Expr, shifts: u32) -> Plan<'a> {
    if let ExprKind::Update { target, op, position: UpdatePosition::Pre } = &idx.kind {
        if cx.env.is_int_local(target) {
            if let Some(reg) = cx.env.reg_of(target) {
                Plan::Emit(seq![
                    op1(update(*op), r(reg)),
                    mov(bx(), r(reg)),
                ]).followed_by(Plan::Emit(shl1(bx()).times(shifts as nat)))
            } else {
                Plan::Skip
            }
        } else {
            Plan::Skip
        }
    } else {
        Plan::Skip
    }
}

/// Any other subscript is computed and scaled in `ax`.
pub open spec fn plan_index_general<'a>(cx: Cx<'a>, idx: &'a Expr, shifts: u32) -> Plan<'a> {
    Plan::Emit(seq![to_ax(cx, idx)]).followed_by(Plan::Emit(shl1(ax()).times(shifts as nat))).followed_by(
        Plan::Emit(seq![mov(bx(), ax())]),
    )
}

/// Loads a subscript into `bx`, scaled by the size of an element.
pub open spec fn plan_emit_index_into_bx<'a>(
    cx: Cx<'a>,
    idx: &'a Expr,
    elem_ty: &'a Type,
) -> Plan<'a> {
    if let Some(shifts) = index_shifts((elem_ty.size() as u16)) {
        plan_index_into_bx_by(cx, idx, shifts)
    } else {
        Plan::Stuck
    }
}

/// Loads a subscript into `bx`, doubled so many times.
pub open spec fn plan_index_into_bx_by<'a>(cx: Cx<'a>, idx: &'a Expr, shifts: u32) -> Plan<'a> {
    match plan_index_char(cx, idx, shifts) {
        Plan::Skip => {
            match plan_index_shifted(cx, idx, shifts) {
                Plan::Skip => {
                    match plan_index_memory(cx, idx, shifts) {
                        Plan::Skip => {
                            match plan_index_register(cx, idx, shifts) {
                                Plan::Skip => {
                                    match plan_index_post(cx, idx, shifts) {
                                        Plan::Skip => {
                                            match plan_index_deref(cx, idx, shifts) {
                                                Plan::Skip => {
                                                    match plan_index_pre(cx, idx, shifts) {
                                                        Plan::Skip => {
                                                            plan_index_general(cx, idx, shifts)
                                                        },
                                                        taken => taken,
                                                    }
                                                },
                                                taken => taken,
                                            }
                                        },
                                        taken => taken,
                                    }
                                },
                                taken => taken,
                            }
                        },
                        taken => taken,
                    }
                },
                taken => taken,
            }
        },
        taken => taken,
    }
}

/// Loads a local variable into `bx`.
pub open spec fn plan_name_into_bx<'a>(cx: Cx<'a>, name: &'a String) -> Plan<'a> {
    if let Some(l) = cx.env.local(name) {
        match l.loc {
            LocalLocation::Stack(off) => {
                Plan::Emit(seq![mov(bx(), word(bp(off)))])
            },
            LocalLocation::Reg(reg) => {
                Plan::Emit(seq![mov(bx(), r(reg))])
            },
        }
    } else {
        Plan::Stuck
    }
}

/// Whether an expression names a local variable.
#[verifier::allow_in_spec]
pub fn names_local(env: &Env, e: &Expr) -> bool
    returns
        (match &e.kind {
            ExprKind::Ident(n) => env.has(n),
            _ => false,
        }),
{
    match &e.kind {
        ExprKind::Ident(n) => env.has(n),
        _ => false,
    }
}

/// Loads a subscript into `bx`, a local variable without a detour. A
/// character, which has to be widened, is computed.
pub open spec fn plan_subscript_into_bx<'a>(cx: Cx<'a>, index: &'a Expr) -> Plan<'a> {
    if names_local(cx.env, index) && !names_char_local(cx.env, index) {
        if let ExprKind::Ident(n) = &index.kind {
            plan_name_into_bx(cx, n)
        } else {
            Plan::Stuck
        }
    } else {
        Plan::Emit(seq![
            to_ax(cx, index),
            mov(bx(), ax()),
        ])
    }
}

/// Loads a subscript into `bx`, scaled by four.
pub open spec fn plan_emit_index_into_bx_long_stride<'a>(
    cx: Cx<'a>,
    index: &'a Expr,
) -> Plan<'a> {
    plan_subscript_into_bx(cx, index).followed_by(
        Plan::Emit(seq![
            shl1(bx()),
            shl1(bx()),
        ]),
    )
}

/// Whether an expression names a local character variable.
#[verifier::allow_in_spec]
pub fn names_char_local(env: &Env, e: &Expr) -> bool
    returns
        (match &e.kind {
            ExprKind::Ident(n) => env.is_char_local(n),
            _ => false,
        }),
{
    match &e.kind {
        ExprKind::Ident(n) => env.is_char_local(n),
        _ => false,
    }
}

/// Bytes subscripted by a plain variable: the two loads may stand in either
/// order, and the base comes first.
pub open spec fn plan_byte_addr_simple<'a>(
    cx: Cx<'a>,
    index: &'a Expr,
    base_off: i16,
    elem_size: u16,
) -> Plan<'a> {
    if let ExprKind::Ident(n) = &index.kind {
        if elem_size == 1 {
            if !names_char_local(cx.env, index) {
                Plan::Emit(seq![lea(ax(), bp(base_off))]).followed_by(plan_name_into_bx(cx, n)).followed_by(
                    Plan::Emit(seq![add_to(bx(), ax())]),
                )
            } else {
                Plan::Skip
            }
        } else {
            Plan::Skip
        }
    } else {
        Plan::Skip
    }
}

/// Scales the subscript in `ax` by the size of an element: a power of two is
/// reached by doubling, and any other size needs a multiplication.
pub open spec fn plan_scale_ax<'a>(cx: Cx<'a>, elem_size: u16) -> Plan<'a> {
    if is_pow2(elem_size as u32) {
        Plan::Emit(shl1(ax()).times(halvings(elem_size as u32) as nat))
    } else {
        Plan::Emit(seq![
            mov(dx(), imm(elem_size as i64)),
            imul(dx()),
        ])
    }
}

/// Adds the base of an array on the stack to the scaled subscript in `ax`.
pub open spec fn plan_base_after_ax<'a>(cx: Cx<'a>, base_off: i16) -> Plan<'a> {
    Plan::Emit(seq![
        lea(dx(), bp(base_off)),
        add_to(ax(), dx()),
        mov(bx(), ax()),
    ])
}

/// A subscript that is a character variable is widened and scaled in `ax`.
pub open spec fn plan_elem_addr_char<'a>(
    cx: Cx<'a>,
    index: &'a Expr,
    base_off: i16,
    elem_size: u16,
) -> Plan<'a> {
    if names_char_local(cx.env, index) {
        if let ExprKind::Ident(n) = &index.kind {
            if let Some(l) = cx.env.local(n) {
                (match l.loc {
                    LocalLocation::Reg(reg) => {
                        if reg.is_byte() {
                            Plan::Emit(seq![mov(al(), r(reg))])
                        } else {
                            Plan::Stuck
                        }
                    },
                    LocalLocation::Stack(off) => {
                        Plan::Emit(seq![mov(al(), byte(bp(off)))])
                    },
                }).followed_by(Plan::Emit(seq![widen(l.ty.is_unsigned())])).followed_by(
                    plan_scale_ax(cx, elem_size),
                ).followed_by(plan_base_after_ax(cx, base_off))
            } else {
                Plan::Stuck
            }
        } else {
            Plan::Skip
        }
    } else {
        Plan::Skip
    }
}

/// A subscript that is a call leaves its value in `ax`, where it is scaled.
pub open spec fn plan_elem_addr_call<'a>(
    cx: Cx<'a>,
    index: &'a Expr,
    base_off: i16,
    elem_size: u16,
) -> Plan<'a> {
    if let ExprKind::Call { name: _, args: _ } = &index.kind {
        Plan::Emit(seq![to_ax(cx, index)]).followed_by(plan_scale_ax(cx, elem_size)).followed_by(
            plan_base_after_ax(cx, base_off),
        )
    } else {
        Plan::Skip
    }
}

/// Loads a subscript into `bx` without scaling it; a sum of two integers in
/// memory is added up there.
pub open spec fn plan_raw_subscript_into_bx<'a>(cx: Cx<'a>, index: &'a Expr) -> Plan<'a> {
    match &index.kind {
        ExprKind::Ident(n) => {
            plan_name_into_bx(cx, n)
        },
        ExprKind::BinOp { op: BinOp::Add, left, right } => {
            match (&cx.env.facts(&**left).int_addr, &cx.env.facts(&**right).int_addr) {
                (Some(a), Some(b)) => {
                    Plan::Emit(seq![
                        mov(bx(), word(named(a))),
                        add_to(bx(), word(named(b))),
                    ])
                },
                _ => {
                    Plan::Emit(seq![
                        to_ax(cx, index),
                        mov(bx(), ax()),
                    ])
                },
            }
        },
        _ => {
            Plan::Emit(seq![
                to_ax(cx, index),
                mov(bx(), ax()),
            ])
        },
    }
}

/// Scales the subscript in `bx` by the size of an element.
pub open spec fn plan_scale_bx<'a>(cx: Cx<'a>, elem_size: u16) -> Plan<'a> {
    if is_pow2(elem_size as u32) {
        Plan::Emit(shl1(bx()).times(halvings(elem_size as u32) as nat))
    } else {
        Plan::Emit(seq![
            mov(ax(), bx()),
            mov(dx(), imm(elem_size as i64)),
            imul(dx()),
            mov(bx(), ax()),
        ])
    }
}

/// Any other element of an array on the stack: the subscript is scaled in
/// `bx`, and the base is added from `ax`.
pub open spec fn plan_elem_addr_general<'a>(
    cx: Cx<'a>,
    index: &'a Expr,
    base_off: i16,
    elem_size: u16,
) -> Plan<'a> {
    plan_raw_subscript_into_bx(cx, index).followed_by(plan_scale_bx(cx, elem_size)).followed_by(
        Plan::Emit(seq![
            lea(ax(), bp(base_off)),
            add_to(bx(), ax()),
        ]),
    )
}

/// Computes the address of an element of an array on the stack into `bx`.
pub open spec fn plan_emit_array_addr_to_bx<'a>(
    cx: Cx<'a>,
    index: &'a Expr,
    base_off: i16,
    elem_size: u16,
) -> Plan<'a> {
    match plan_byte_addr_simple(cx, index, base_off, elem_size) {
        Plan::Skip => {
            match plan_elem_addr_char(cx, index, base_off, elem_size) {
                Plan::Skip => {
                    match plan_elem_addr_call(cx, index, base_off, elem_size) {
                        Plan::Skip => {
                            plan_elem_addr_general(cx, index, base_off, elem_size)
                        },
                        taken => taken,
                    }
                },
                taken => taken,
            }
        },
        taken => taken,
    }
}

/// Computes the address of `a[i][j]` on the stack into `bx`. A row size that
/// is a power of two is reached by doubling in `bx`; any other needs a
/// multiplication in `ax`.
pub open spec fn plan_emit_array_addr_2d_to_bx<'a>(
    cx: Cx<'a>,
    outer_idx: &'a Expr,
    inner_idx: &'a Expr,
    outer_stride: u16,
    inner_stride: u16,
    base_off: i16,
) -> Plan<'a> {
    if let Some(outer) = &cx.env.facts(outer_idx).index_operand {
        if let Some(inner) = &cx.env.facts(inner_idx).index_operand {
            if inner_stride == 1 || inner_stride == 2 {
                if outer_stride > 1 && is_pow2(outer_stride as u32) {
                    Plan::Emit(seq![mov(bx(), given(outer))]).followed_by(
                        Plan::Emit(shl1(bx()).times(halvings(outer_stride as u32) as nat)),
                    ).followed_by(Plan::Emit(seq![mov(ax(), given(inner))])).followed_by(
                        Plan::Emit(if inner_stride == 2 {
                            seq![shl1(ax())]
                        } else {
                            seq![]
                        }),
                    ).followed_by(
                        Plan::Emit(seq![
                            add_to(bx(), ax()),
                            lea(ax(), bp(base_off)),
                            add_to(bx(), ax()),
                        ]),
                    )
                } else {
                    Plan::Emit(seq![
                        mov(ax(), given(outer)),
                        mov(dx(), imm(outer_stride as i64)),
                        imul(dx()),
                        mov(dx(), given(inner)),
                    ]).followed_by(
                        Plan::Emit(if inner_stride == 2 {
                            seq![shl1(dx())]
                        } else {
                            seq![]
                        }),
                    ).followed_by(
                        Plan::Emit(seq![
                            add_to(ax(), dx()),
                            lea(dx(), bp(base_off)),
                            add_to(ax(), dx()),
                            mov(bx(), ax()),
                        ]),
                    )
                }
            } else {
                Plan::Stuck
            }
        } else {
            Plan::Stuck
        }
    } else {
        Plan::Stuck
    }
}

impl<'a> FunctionEmitter<'a> {
    /// Emits what [`plan_index_char`] says, if it applies.
    pub fn try_index_char(&mut self, idx: &'a Expr, shifts: u32) -> (done: bool)
        requires
            old(self).cx.env.wf(),
            !(plan_index_char(old(self).cx, idx, shifts) is Stuck),
        ensures
            final(self).ran(*old(self), plan_index_char(old(self).cx, idx, shifts), done),
    {
        let cx: Cx<'a> = self.cx;
        if !(names_char(cx.env, idx)) {
            return false;
        }
        let ExprKind::Ident(name) = &idx.kind else { return false; };
        if cx.env.has(name) {
            let Some(off) = cx.env.stack_of(name) else { return false; };
            self.put(mov(al(), byte(bp(off))));
            self.put(widen(cx.env.is_unsigned_local(name)));
        } else {
            self.put(mov(al(), byte(global(name))));
            self.put(widen(cx.env.is_unsigned_global(name)));
        }
        self.put_times(shl1(ax()), shifts as u64);
        self.put(mov(bx(), ax()));
        true
    }

    /// Emits what [`plan_index_shifted`] says, if it applies.
    pub fn try_index_shifted(&mut self, idx: &'a Expr, shifts: u32) -> (done: bool)
        requires
            old(self).cx.env.wf(),
            !(plan_index_shifted(old(self).cx, idx, shifts) is Stuck),
        ensures
            final(self).ran(*old(self), plan_index_shifted(old(self).cx, idx, shifts), done),
    {
        let cx: Cx<'a> = self.cx;
        let ExprKind::BinOp { op: BinOp::Shl, left, right } = &idx.kind else { return false; };
        let Some(k) = cx.env.const_of(&**right) else { return false; };
        let Some(addr) = &cx.env.facts(&**left).int_addr else { return false; };
        if !(shifts <= 2 && k <= 0xFFFF_FFFF - shifts) {
            return false;
        }
        self.put(mov(bx(), word(named(addr))));
        self.put_times(shl1(bx()), (k + shifts) as u64);
        true
    }

    /// Emits what [`plan_index_memory`] says, if it applies.
    pub fn try_index_memory(&mut self, idx: &'a Expr, shifts: u32) -> (done: bool)
        requires
            old(self).cx.env.wf(),
            !(plan_index_memory(old(self).cx, idx, shifts) is Stuck),
        ensures
            final(self).ran(*old(self), plan_index_memory(old(self).cx, idx, shifts), done),
    {
        let cx: Cx<'a> = self.cx;
        let Some(addr) = &cx.env.facts(idx).int_addr else { return false; };
        self.put(mov(bx(), word(named(addr))));
        self.put_times(shl1(bx()), shifts as u64);
        true
    }

    /// Emits what [`plan_index_register`] says, if it applies.
    pub fn try_index_register(&mut self, idx: &'a Expr, shifts: u32) -> (done: bool)
        requires
            old(self).cx.env.wf(),
            !(plan_index_register(old(self).cx, idx, shifts) is Stuck),
        ensures
            final(self).ran(*old(self), plan_index_register(old(self).cx, idx, shifts), done),
    {
        let cx: Cx<'a> = self.cx;
        let ExprKind::Ident(name) = &idx.kind else { return false; };
        if !cx.env.is_int_local(name) {
            return false;
        }
        let Some(reg) = cx.env.word_reg_of(name) else { return false; };
        self.put(mov(bx(), r(reg)));
        self.put_times(shl1(bx()), shifts as u64);
        true
    }

    /// Emits what [`plan_index_post`] says, if it applies.
    pub fn try_index_post(&mut self, idx: &'a Expr, shifts: u32) -> (done: bool)
        requires
            old(self).cx.env.wf(),
            !(plan_index_post(old(self).cx, idx, shifts) is Stuck),
        ensures
            final(self).ran(*old(self), plan_index_post(old(self).cx, idx, shifts), done),
    {
        let cx: Cx<'a> = self.cx;
        if !(shifts == 0) {
            return false;
        }
        let ExprKind::Update { target, op, position: UpdatePosition::Post } = &idx.kind else { return false; };
        if !cx.env.is_int_local(target) {
            return false;
        }
        let Some(reg) = cx.env.word_reg_of(target) else { return false; };
        self.put(mov(bx(), r(reg)));
        self.put(op1(update(*op), r(reg)));
        true
    }

    /// Emits what [`plan_index_deref`] says, if it applies.
    pub fn try_index_deref(&mut self, idx: &'a Expr, shifts: u32) -> (done: bool)
        requires
            old(self).cx.env.wf(),
            !(plan_index_deref(old(self).cx, idx, shifts) is Stuck),
        ensures
            final(self).ran(*old(self), plan_index_deref(old(self).cx, idx, shifts), done),
    {
        let cx: Cx<'a> = self.cx;
        let ExprKind::Deref(inner) = &idx.kind else { return false; };
        let ExprKind::Ident(p) = &inner.kind else { return false; };
        let Some(reg) = cx.env.word_reg_of(p) else { return false; };
        let Some(pointee) = cx.env.local_pointee(p) else { return false; };
        if !pointee.is_int_like() {
            return false;
        }
        self.put(mov(bx(), word(at(reg))));
        self.put_times(shl1(bx()), shifts as u64);
        true
    }

    /// Emits what [`plan_index_pre`] says, if it applies.
    pub fn try_index_pre(&mut self, idx: &'a Expr, shifts: u32) -> (done: bool)
        requires
            old(self).cx.env.wf(),
            !(plan_index_pre(old(self).cx, idx, shifts) is Stuck),
        ensures
            final(self).ran(*old(self), plan_index_pre(old(self).cx, idx, shifts), done),
    {
        let cx: Cx<'a> = self.cx;
        let ExprKind::Update { target, op, position: UpdatePosition::Pre } = &idx.kind else { return false; };
        if !cx.env.is_int_local(target) {
            return false;
        }
        let Some(reg) = cx.env.reg_of(target) else { return false; };
        self.put(op1(update(*op), r(reg)));
        self.put(mov(bx(), r(reg)));
        self.put_times(shl1(bx()), shifts as u64);
        true
    }

    /// Emits what [`plan_index_general`] says, if it applies.
    pub fn try_index_general(&mut self, idx: &'a Expr, shifts: u32) -> (done: bool)
        requires
            old(self).cx.env.wf(),
            !(plan_index_general(old(self).cx, idx, shifts) is Stuck),
        ensures
            final(self).ran(*old(self), plan_index_general(old(self).cx, idx, shifts), done),
    {
        let cx: Cx<'a> = self.cx;
        self.put(to_ax(cx, idx));
        self.put_times(shl1(ax()), shifts as u64);
        self.put(mov(bx(), ax()));
        true
    }

    /// Loads a subscript into `bx`, scaled by the size of an element.
    pub fn emit_index_into_bx(&mut self, idx: &'a Expr, elem_ty: &'a Type)
        requires
            old(self).cx.env.wf(),
            elem_ty.is_countable(),
            plan_emit_index_into_bx(old(self).cx, idx, elem_ty) is Emit,
        ensures
            final(self).wrote(*old(self), plan_emit_index_into_bx(old(self).cx, idx, elem_ty)),
    {
        let Some(shifts) = index_shifts(elem_ty.size_bytes()) else { return; };
        self.index_into_bx_by(idx, shifts);
        return;
    }

    /// Loads a subscript into `bx`, doubled so many times.
    pub fn index_into_bx_by(&mut self, idx: &'a Expr, shifts: u32)
        requires
            old(self).cx.env.wf(),
            plan_index_into_bx_by(old(self).cx, idx, shifts) is Emit,
        ensures
            final(self).wrote(*old(self), plan_index_into_bx_by(old(self).cx, idx, shifts)),
    {
        if self.try_index_char(idx, shifts) {
            return;
        }
        if self.try_index_shifted(idx, shifts) {
            return;
        }
        if self.try_index_memory(idx, shifts) {
            return;
        }
        if self.try_index_register(idx, shifts) {
            return;
        }
        if self.try_index_post(idx, shifts) {
            return;
        }
        if self.try_index_deref(idx, shifts) {
            return;
        }
        if self.try_index_pre(idx, shifts) {
            return;
        }
        self.try_index_general(idx, shifts);
        return;
    }

    /// Loads a local variable into `bx`.
    pub fn name_into_bx(&mut self, name: &'a String)
        requires
            old(self).cx.env.wf(),
            plan_name_into_bx(old(self).cx, name) is Emit,
        ensures
            final(self).wrote(*old(self), plan_name_into_bx(old(self).cx, name)),
    {
        let cx: Cx<'a> = self.cx;
        let Some(l) = cx.env.local(name) else { return; };
        match l.loc {
            LocalLocation::Stack(off) => {
                self.put(mov(bx(), word(bp(off))));
            },
            LocalLocation::Reg(reg) => {
                self.put(mov(bx(), r(reg)));
            },
        }
    }

    /// Loads a subscript into `bx`, a local variable without a detour. A
    /// character, which has to be widened, is computed.
    pub fn subscript_into_bx(&mut self, index: &'a Expr)
        requires
            old(self).cx.env.wf(),
            plan_subscript_into_bx(old(self).cx, index) is Emit,
        ensures
            final(self).wrote(*old(self), plan_subscript_into_bx(old(self).cx, index)),
    {
        let cx: Cx<'a> = self.cx;
        if names_local(cx.env, index) && !names_char_local(cx.env, index) {
            let ExprKind::Ident(n) = &index.kind else { return; };
            self.name_into_bx(n);
        } else {
            self.put(to_ax(cx, index));
            self.put(mov(bx(), ax()));
        }
    }

    /// Loads a subscript into `bx`, scaled by four.
    pub fn emit_index_into_bx_long_stride(&mut self, index: &'a Expr)
        requires
            old(self).cx.env.wf(),
            plan_emit_index_into_bx_long_stride(old(self).cx, index) is Emit,
        ensures
            final(self).wrote(
                *old(self),
                plan_emit_index_into_bx_long_stride(old(self).cx, index),
            ),
    {
        self.subscript_into_bx(index);
        self.put(shl1(bx()));
        self.put(shl1(bx()));
    }

    /// Emits what [`plan_byte_addr_simple`] says, if it applies.
    pub fn try_byte_addr_simple(
        &mut self,
        index: &'a Expr,
        base_off: i16,
        elem_size: u16,
    ) -> (done: bool)
        requires
            old(self).cx.env.wf(),
            !(plan_byte_addr_simple(old(self).cx, index, base_off, elem_size) is Stuck),
        ensures
            final(self).ran(
                *old(self),
                plan_byte_addr_simple(old(self).cx, index, base_off, elem_size),
                done,
            ),
    {
        let cx: Cx<'a> = self.cx;
        let ExprKind::Ident(n) = &index.kind else { return false; };
        if !(elem_size == 1) {
            return false;
        }
        if !(!names_char_local(cx.env, index)) {
            return false;
        }
        self.put(lea(ax(), bp(base_off)));
        self.name_into_bx(n);
        self.put(add_to(bx(), ax()));
        true
    }

    /// Scales the subscript in `ax` by the size of an element: a power of two is
    /// reached by doubling, and any other size needs a multiplication.
    pub fn scale_ax(&mut self, elem_size: u16)
        requires
            old(self).cx.env.wf(),
            plan_scale_ax(old(self).cx, elem_size) is Emit,
        ensures
            final(self).wrote(*old(self), plan_scale_ax(old(self).cx, elem_size)),
    {
        if is_pow2(elem_size as u32) {
            self.put_times(shl1(ax()), halvings(elem_size as u32) as u64);
        } else {
            self.put(mov(dx(), imm(elem_size as i64)));
            self.put(imul(dx()));
        }
    }

    /// Adds the base of an array on the stack to the scaled subscript in `ax`.
    pub fn base_after_ax(&mut self, base_off: i16)
        requires
            old(self).cx.env.wf(),
            plan_base_after_ax(old(self).cx, base_off) is Emit,
        ensures
            final(self).wrote(*old(self), plan_base_after_ax(old(self).cx, base_off)),
    {
        self.put(lea(dx(), bp(base_off)));
        self.put(add_to(ax(), dx()));
        self.put(mov(bx(), ax()));
    }

    /// Emits what [`plan_elem_addr_char`] says, if it applies.
    pub fn try_elem_addr_char(
        &mut self,
        index: &'a Expr,
        base_off: i16,
        elem_size: u16,
    ) -> (done: bool)
        requires
            old(self).cx.env.wf(),
            !(plan_elem_addr_char(old(self).cx, index, base_off, elem_size) is Stuck),
        ensures
            final(self).ran(
                *old(self),
                plan_elem_addr_char(old(self).cx, index, base_off, elem_size),
                done,
            ),
    {
        let cx: Cx<'a> = self.cx;
        if !(names_char_local(cx.env, index)) {
            return false;
        }
        let ExprKind::Ident(n) = &index.kind else { return false; };
        let Some(l) = cx.env.local(n) else { return false; };
        match l.loc {
            LocalLocation::Reg(reg) => {
                if !reg.is_byte() {
                    return false;
                }
                self.put(mov(al(), r(reg)));
            },
            LocalLocation::Stack(off) => {
                self.put(mov(al(), byte(bp(off))));
            },
        }
        self.put(widen(l.ty.is_unsigned()));
        self.scale_ax(elem_size);
        self.base_after_ax(base_off);
        true
    }

    /// Emits what [`plan_elem_addr_call`] says, if it applies.
    pub fn try_elem_addr_call(
        &mut self,
        index: &'a Expr,
        base_off: i16,
        elem_size: u16,
    ) -> (done: bool)
        requires
            old(self).cx.env.wf(),
            !(plan_elem_addr_call(old(self).cx, index, base_off, elem_size) is Stuck),
        ensures
            final(self).ran(
                *old(self),
                plan_elem_addr_call(old(self).cx, index, base_off, elem_size),
                done,
            ),
    {
        let cx: Cx<'a> = self.cx;
        let ExprKind::Call { name: _, args: _ } = &index.kind else { return false; };
        self.put(to_ax(cx, index));
        self.scale_ax(elem_size);
        self.base_after_ax(base_off);
        true
    }

    /// Loads a subscript into `bx` without scaling it; a sum of two integers in
    /// memory is added up there.
    pub fn raw_subscript_into_bx(&mut self, index: &'a Expr)
        requires
            old(self).cx.env.wf(),
            plan_raw_subscript_into_bx(old(self).cx, index) is Emit,
        ensures
            final(self).wrote(*old(self), plan_raw_subscript_into_bx(old(self).cx, index)),
    {
        let cx: Cx<'a> = self.cx;
        match &index.kind {
            ExprKind::Ident(n) => {
                self.name_into_bx(n);
            },
            ExprKind::BinOp { op: BinOp::Add, left, right } => {
                match (&cx.env.facts(&**left).int_addr, &cx.env.facts(&**right).int_addr) {
                    (Some(a), Some(b)) => {
                        self.put(mov(bx(), word(named(a))));
                        self.put(add_to(bx(), word(named(b))));
                    },
                    _ => {
                        self.put(to_ax(cx, index));
                        self.put(mov(bx(), ax()));
                    },
                }
            },
            _ => {
                self.put(to_ax(cx, index));
                self.put(mov(bx(), ax()));
            },
        }
    }

    /// Scales the subscript in `bx` by the size of an element.
    pub fn scale_bx(&mut self, elem_size: u16)
        requires
            old(self).cx.env.wf(),
            plan_scale_bx(old(self).cx, elem_size) is Emit,
        ensures
            final(self).wrote(*old(self), plan_scale_bx(old(self).cx, elem_size)),
    {
        if is_pow2(elem_size as u32) {
            self.put_times(shl1(bx()), halvings(elem_size as u32) as u64);
        } else {
            self.put(mov(ax(), bx()));
            self.put(mov(dx(), imm(elem_size as i64)));
            self.put(imul(dx()));
            self.put(mov(bx(), ax()));
        }
    }

    /// Emits what [`plan_elem_addr_general`] says, if it applies.
    pub fn try_elem_addr_general(
        &mut self,
        index: &'a Expr,
        base_off: i16,
        elem_size: u16,
    ) -> (done: bool)
        requires
            old(self).cx.env.wf(),
            !(plan_elem_addr_general(old(self).cx, index, base_off, elem_size) is Stuck),
        ensures
            final(self).ran(
                *old(self),
                plan_elem_addr_general(old(self).cx, index, base_off, elem_size),
                done,
            ),
    {
        self.raw_subscript_into_bx(index);
        self.scale_bx(elem_size);
        self.put(lea(ax(), bp(base_off)));
        self.put(add_to(bx(), ax()));
        true
    }

    /// Computes the address of an element of an array on the stack into `bx`.
    pub fn emit_array_addr_to_bx(&mut self, index: &'a Expr, base_off: i16, elem_size: u16)
        requires
            old(self).cx.env.wf(),
            plan_emit_array_addr_to_bx(old(self).cx, index, base_off, elem_size) is Emit,
        ensures
            final(self).wrote(
                *old(self),
                plan_emit_array_addr_to_bx(old(self).cx, index, base_off, elem_size),
            ),
    {
        if self.try_byte_addr_simple(index, base_off, elem_size) {
            return;
        }
        if self.try_elem_addr_char(index, base_off, elem_size) {
            return;
        }
        if self.try_elem_addr_call(index, base_off, elem_size) {
            return;
        }
        self.try_elem_addr_general(index, base_off, elem_size);
        return;
    }

    /// Computes the address of `a[i][j]` on the stack into `bx`. A row size that
    /// is a power of two is reached by doubling in `bx`; any other needs a
    /// multiplication in `ax`.
    pub fn emit_array_addr_2d_to_bx(
        &mut self,
        outer_idx: &'a Expr,
        inner_idx: &'a Expr,
        outer_stride: u16,
        inner_stride: u16,
        base_off: i16,
    )
        requires
            old(self).cx.env.wf(),
            plan_emit_array_addr_2d_to_bx(
                old(self).cx,
                outer_idx,
                inner_idx,
                outer_stride,
                inner_stride,
                base_off,
            ) is Emit,
        ensures
            final(self).wrote(
                *old(self),
                plan_emit_array_addr_2d_to_bx(
                    old(self).cx,
                    outer_idx,
                    inner_idx,
                    outer_stride,
                    inner_stride,
                    base_off,
                ),
            ),
    {
        let cx: Cx<'a> = self.cx;
        let Some(outer) = &cx.env.facts(outer_idx).index_operand else { return; };
        let Some(inner) = &cx.env.facts(inner_idx).index_operand else { return; };
        if !(inner_stride == 1 || inner_stride == 2) {
            return;
        }
        if outer_stride > 1 && is_pow2(outer_stride as u32) {
            self.put(mov(bx(), given(outer)));
            self.put_times(shl1(bx()), halvings(outer_stride as u32) as u64);
            self.put(mov(ax(), given(inner)));
            if inner_stride == 2 {
                self.put(shl1(ax()));
            }
            self.put(add_to(bx(), ax()));
            self.put(lea(ax(), bp(base_off)));
            self.put(add_to(bx(), ax()));
        } else {
            self.put(mov(ax(), given(outer)));
            self.put(mov(dx(), imm(outer_stride as i64)));
            self.put(imul(dx()));
            self.put(mov(dx(), given(inner)));
            if inner_stride == 2 {
                self.put(shl1(dx()));
            }
            self.put(add_to(ax(), dx()));
            self.put(lea(dx(), bp(base_off)));
            self.put(add_to(ax(), dx()));
            self.put(mov(bx(), ax()));
        }
    }
}

} // verus!
