//! Assignment to variables in registers.

use vstd::prelude::*;
use crate::ast::{BinOp, Expr, ExprKind, MemberKind, Type};
use crate::codegen::array_addr::index_shifts;
use crate::codegen::emitter::{
    add_to, clear, lea, mov, shl1, to_ax, Cx, FunctionEmitter, Plan, Step,
};
use crate::isa::{
    at_disp, ax, bp, dx, frame_elem, global, imm, lo16, lo8, named, offset_of, plus, r, word,
    Disp, Operand, Reg,
};

verus! {

/// A constant; a word register is cleared by `xor`.
pub open spec fn plan_reg_const<'a>(cx: Cx<'a>, reg: Reg, value: &'a Expr) -> Plan<'a> {
    if let Some(v) = cx.env.const_of(value) {
        if reg.is_byte() {
            Plan::Emit(seq![mov(r(reg), imm(lo8(v)))])
        } else if lo16(v) == 0 {
            Plan::Emit(seq![clear(reg)])
        } else {
            Plan::Emit(seq![mov(r(reg), imm(lo16(v)))])
        }
    } else {
        Plan::Skip
    }
}

/// The address of a string literal.
pub open spec fn plan_reg_string<'a>(cx: Cx<'a>, reg: Reg, value: &'a Expr) -> Plan<'a> {
    if let ExprKind::StringLit(bytes) = &value.kind {
        if !reg.is_byte() {
            Plan::Emit(seq![mov(r(reg), Operand::Pooled(bytes))])
        } else {
            Plan::Stuck
        }
    } else {
        Plan::Skip
    }
}

/// The address of a file-scope variable.
pub open spec fn plan_reg_address<'a>(cx: Cx<'a>, reg: Reg, value: &'a Expr) -> Plan<'a> {
    if let ExprKind::AddressOf(sym) = &value.kind {
        if cx.env.is_global(sym) {
            if !reg.is_byte() {
                Plan::Emit(seq![mov(r(reg), offset_of(sym, Disp::Zero))])
            } else {
                Plan::Stuck
            }
        } else {
            Plan::Skip
        }
    } else {
        Plan::Skip
    }
}

/// The address of an element of a file-scope array.
pub open spec fn plan_reg_elem_address<'a>(cx: Cx<'a>, reg: Reg, value: &'a Expr) -> Plan<'a> {
    if let ExprKind::AddressOfArrayElem { array, byte_offset } = &value.kind {
        if cx.env.is_global(array) {
            if !reg.is_byte() {
                Plan::Emit(seq![mov(r(reg), offset_of(array, plus(*byte_offset as i64)))])
            } else {
                Plan::Stuck
            }
        } else {
            Plan::Skip
        }
    } else {
        Plan::Skip
    }
}

/// A file-scope array, which stands for its address.
pub open spec fn plan_reg_array<'a>(cx: Cx<'a>, reg: Reg, value: &'a Expr) -> Plan<'a> {
    if let ExprKind::Ident(name) = &value.kind {
        if cx.env.global_elem(name).is_some() {
            if !reg.is_byte() {
                Plan::Emit(seq![mov(r(reg), offset_of(name, Disp::Zero))])
            } else {
                Plan::Stuck
            }
        } else {
            Plan::Skip
        }
    } else {
        Plan::Skip
    }
}

/// An array on the stack plus a constant.
pub open spec fn plan_reg_frame_const<'a>(cx: Cx<'a>, reg: Reg, value: &'a Expr) -> Plan<'a> {
    if let ExprKind::BinOp { op: BinOp::Add, left, right } = &value.kind {
        if let ExprKind::Ident(arr) = &left.kind {
            if let Some(t) = cx.env.local_elem(arr) {
                if let Some(k) = cx.env.const_of(&**right) {
                    if let Some(base) = cx.env.stack_of(arr) {
                        if !reg.is_byte() {
                            if let Some(slot) = frame_elem(base, k, (t.size() as u16)) {
                                Plan::Emit(seq![
                                    lea(ax(), slot),
                                    mov(r(reg), ax()),
                                ])
                            } else {
                                Plan::Stuck
                            }
                        } else {
                            Plan::Stuck
                        }
                    } else {
                        Plan::Skip
                    }
                } else {
                    Plan::Skip
                }
            } else {
                Plan::Skip
            }
        } else {
            Plan::Skip
        }
    } else {
        Plan::Skip
    }
}

/// An array on the stack plus an integer in memory, which is scaled.
pub open spec fn plan_reg_frame_index<'a>(cx: Cx<'a>, reg: Reg, value: &'a Expr) -> Plan<'a> {
    if let ExprKind::BinOp { op: BinOp::Add, left, right } = &value.kind {
        if let ExprKind::Ident(arr) = &left.kind {
            if let Some(t) = cx.env.local_elem(arr) {
                if let Some(addr) = &cx.env.facts(&**right).int_addr {
                    if let Some(base) = cx.env.stack_of(arr) {
                        if !reg.is_byte() {
                            if let Some(shifts) = index_shifts((t.size() as u16)) {
                                Plan::Emit(seq![mov(ax(), word(named(addr)))]).followed_by(
                                    Plan::Emit(shl1(ax()).times(shifts as nat)),
                                ).followed_by(
                                    Plan::Emit(seq![
                                        lea(dx(), bp(base)),
                                        add_to(ax(), dx()),
                                        mov(r(reg), ax()),
                                    ]),
                                )
                            } else {
                                Plan::Stuck
                            }
                        } else {
                            Plan::Stuck
                        }
                    } else {
                        Plan::Skip
                    }
                } else {
                    Plan::Skip
                }
            } else {
                Plan::Skip
            }
        } else {
            Plan::Skip
        }
    } else {
        Plan::Skip
    }
}

/// A word that is already in a register.
pub open spec fn plan_reg_copy<'a>(cx: Cx<'a>, reg: Reg, value: &'a Expr) -> Plan<'a> {
    if let ExprKind::Ident(name) = &value.kind {
        if let Some(src) = cx.env.word_reg_of(name) {
            if !reg.is_byte() {
                Plan::Emit(seq![mov(r(reg), r(src))])
            } else {
                Plan::Skip
            }
        } else {
            Plan::Skip
        }
    } else {
        Plan::Skip
    }
}

/// Whether a type is held in one word that can be moved as it is.
#[verifier::allow_in_spec]
pub fn is_word(t: &Type) -> bool
    returns
        (t.is_int_like() || t.pointee().is_some()),
{
    t.is_int_like() || t.pointee().is_some()
}

/// The variable that an expression is, under a cast that leaves a word as it
/// is.
#[verifier::allow_in_spec]
pub fn word_name<'b>(e: &'b Expr) -> Option<&'b String>
    returns
        (match &e.kind {
            ExprKind::Ident(n) => Some(n),
            ExprKind::Cast { ty, operand } => if is_word(ty) {
                match &operand.kind {
                    ExprKind::Ident(n) => Some(n),
                    _ => None,
                }
            } else {
                None
            },
            _ => None,
        }),
{
    match &e.kind {
        ExprKind::Ident(n) => Some(n),
        ExprKind::Cast { ty, operand } => if is_word(ty) {
            match &operand.kind {
                ExprKind::Ident(n) => Some(n),
                _ => None,
            }
        } else {
            None
        },
        _ => None,
    }
}

/// The variable that an expression is, under a cast to a pointer.
#[verifier::allow_in_spec]
pub fn pointer_name<'b>(e: &'b Expr) -> Option<&'b String>
    returns
        (match &e.kind {
            ExprKind::Ident(n) => Some(n),
            ExprKind::Cast { ty, operand } => if ty.pointee().is_some() {
                match &operand.kind {
                    ExprKind::Ident(n) => Some(n),
                    _ => None,
                }
            } else {
                None
            },
            _ => None,
        }),
{
    match &e.kind {
        ExprKind::Ident(n) => Some(n),
        ExprKind::Cast { ty, operand } => if ty.pointee().is_some() {
            match &operand.kind {
                ExprKind::Ident(n) => Some(n),
                _ => None,
            }
        } else {
            None
        },
        _ => None,
    }
}

/// A word on the stack.
pub open spec fn plan_reg_stack_word<'a>(cx: Cx<'a>, reg: Reg, value: &'a Expr) -> Plan<'a> {
    if let Some(name) = word_name(value) {
        if let Some(off) = cx.env.stack_of(name) {
            if let Some(ty) = cx.env.local_type(name) {
                if is_word(ty) {
                    if !reg.is_byte() {
                        Plan::Emit(seq![mov(r(reg), word(bp(off)))])
                    } else {
                        Plan::Skip
                    }
                } else {
                    Plan::Skip
                }
            } else {
                Plan::Skip
            }
        } else {
            Plan::Skip
        }
    } else {
        Plan::Skip
    }
}

/// A word at file scope.
pub open spec fn plan_reg_global_word<'a>(cx: Cx<'a>, reg: Reg, value: &'a Expr) -> Plan<'a> {
    if let Some(name) = pointer_name(value) {
        if let Some(ty) = cx.env.global_type(name) {
            if is_word(ty) {
                if !reg.is_byte() {
                    Plan::Emit(seq![mov(r(reg), word(global(name)))])
                } else {
                    Plan::Skip
                }
            } else {
                Plan::Skip
            }
        } else {
            Plan::Skip
        }
    } else {
        Plan::Skip
    }
}

/// A word member behind a pointer in a register.
pub open spec fn plan_reg_member<'a>(cx: Cx<'a>, reg: Reg, value: &'a Expr) -> Plan<'a> {
    if let ExprKind::Member { base, field, kind: MemberKind::Arrow } = &value.kind {
        if let ExprKind::Ident(name) = &base.kind {
            if let Some(base_reg) = cx.env.reg_of(name) {
                if let Some(t) = cx.env.local_pointee(name) {
                    if let Some(f) = t.struct_field_info(field) {
                        if is_word(&f.ty) {
                            if !reg.is_byte() {
                                Plan::Emit(seq![mov(r(reg), word(at_disp(base_reg, plus(f.offset as i64))))])
                            } else {
                                Plan::Skip
                            }
                        } else {
                            Plan::Skip
                        }
                    } else {
                        Plan::Skip
                    }
                } else {
                    Plan::Skip
                }
            } else {
                Plan::Skip
            }
        } else {
            Plan::Skip
        }
    } else {
        Plan::Skip
    }
}

/// Any other value is computed in `ax`.
pub open spec fn plan_reg_general<'a>(cx: Cx<'a>, reg: Reg, value: &'a Expr) -> Plan<'a> {
    if !reg.is_byte() {
        Plan::Emit(seq![
            to_ax(cx, value),
            Step::StoreCollapsed(r(reg)),
        ])
    } else {
        Plan::Stuck
    }
}

/// Stores the value of an expression into a register.
pub open spec fn plan_emit_store_reg<'a>(cx: Cx<'a>, reg: Reg, value: &'a Expr) -> Plan<'a> {
    match plan_reg_const(cx, reg, value) {
        Plan::Skip => {
            match plan_reg_string(cx, reg, value) {
                Plan::Skip => {
                    match plan_reg_address(cx, reg, value) {
                        Plan::Skip => {
                            match plan_reg_elem_address(cx, reg, value) {
                                Plan::Skip => {
                                    match plan_reg_array(cx, reg, value) {
                                        Plan::Skip => {
                                            match plan_reg_frame_const(cx, reg, value) {
                                                Plan::Skip => {
                                                    match plan_reg_frame_index(cx, reg, value) {
                                                        Plan::Skip => {
                                                            match plan_reg_copy(cx, reg, value) {
                                                                Plan::Skip => {
                                                                    match plan_reg_stack_word(cx, reg, value) {
                                                                        Plan::Skip => {
                                                                            match plan_reg_global_word(cx, reg, value) {
                                                                                Plan::Skip => {
                                                                                    match plan_reg_member(cx, reg, value) {
                                                                                        Plan::Skip => {
                                                                                            plan_reg_general(cx, reg, value)
                                                                                        },
                                                                                        taken => taken,
                                                                                    }
                                                                                },
                                                                                taken => taken,
                                                                            }
                                                                        },
                                                                        taken => taken,
                                                                    }
                                                                },
                                                                taken => taken,
                                                            }
                                                        },
                                                        taken => taken,
                                                    }
                                                },
                                                taken => taken,
                                            }
                                        },
                                        taken => taken,
                                    }
                                },
                                taken => taken,
                            }
                        },
                        taken => taken,
                    }
                },
                taken => taken,
            }
        },
        taken => taken,
    }
}

impl<'a> FunctionEmitter<'a> {
    /// Emits what [`plan_reg_const`] says, if it applies.
    pub fn try_reg_const(&mut self, reg: Reg, value: &'a Expr) -> (done: bool)
        requires
            old(self).cx.env.wf(),
            !(plan_reg_const(old(self).cx, reg, value) is Stuck),
        ensures
            final(self).ran(*old(self), plan_reg_const(old(self).cx, reg, value), done),
    {
        let cx: Cx<'a> = self.cx;
        let Some(v) = cx.env.const_of(value) else { return false; };
        if reg.is_byte() {
            self.put(mov(r(reg), imm(lo8(v))));
            return true;
        } else if lo16(v) == 0 {
            self.put(clear(reg));
            return true;
        } else {
            self.put(mov(r(reg), imm(lo16(v))));
            return true;
        }
    }

    /// Emits what [`plan_reg_string`] says, if it applies.
    pub fn try_reg_string(&mut self, reg: Reg, value: &'a Expr) -> (done: bool)
        requires
            old(self).cx.env.wf(),
            !(plan_reg_string(old(self).cx, reg, value) is Stuck),
        ensures
            final(self).ran(*old(self), plan_reg_string(old(self).cx, reg, value), done),
    {
        let ExprKind::StringLit(bytes) = &value.kind else { return false; };
        if !(!reg.is_byte()) {
            return false;
        }
        self.put(mov(r(reg), Operand::Pooled(bytes)));
        true
    }

    /// Emits what [`plan_reg_address`] says, if it applies.
    pub fn try_reg_address(&mut self, reg: Reg, value: &'a Expr) -> (done: bool)
        requires
            old(self).cx.env.wf(),
            !(plan_reg_address(old(self).cx, reg, value) is Stuck),
        ensures
            final(self).ran(*old(self), plan_reg_address(old(self).cx, reg, value), done),
    {
        let cx: Cx<'a> = self.cx;
        let ExprKind::AddressOf(sym) = &value.kind else { return false; };
        if !cx.env.is_global(sym) {
            return false;
        }
        if !(!reg.is_byte()) {
            return false;
        }
        self.put(mov(r(reg), offset_of(sym, Disp::Zero)));
        true
    }

    /// Emits what [`plan_reg_elem_address`] says, if it applies.
    pub fn try_reg_elem_address(&mut self, reg: Reg, value: &'a Expr) -> (done: bool)
        requires
            old(self).cx.env.wf(),
            !(plan_reg_elem_address(old(self).cx, reg, value) is Stuck),
        ensures
            final(self).ran(*old(self), plan_reg_elem_address(old(self).cx, reg, value), done),
    {
        let cx: Cx<'a> = self.cx;
        let ExprKind::AddressOfArrayElem { array, byte_offset } = &value.kind else { return false; };
        if !cx.env.is_global(array) {
            return false;
        }
        if !(!reg.is_byte()) {
            return false;
        }
        self.put(mov(r(reg), offset_of(array, plus(*byte_offset as i64))));
        true
    }

    /// Emits what [`plan_reg_array`] says, if it applies.
    pub fn try_reg_array(&mut self, reg: Reg, value: &'a Expr) -> (done: bool)
        requires
            old(self).cx.env.wf(),
            !(plan_reg_array(old(self).cx, reg, value) is Stuck),
        ensures
            final(self).ran(*old(self), plan_reg_array(old(self).cx, reg, value), done),
    {
        let cx: Cx<'a> = self.cx;
        let ExprKind::Ident(name) = &value.kind else { return false; };
        if !cx.env.global_elem(name).is_some() {
            return false;
        }
        if !(!reg.is_byte()) {
            return false;
        }
        self.put(mov(r(reg), offset_of(name, Disp::Zero)));
        true
    }

    /// Emits what [`plan_reg_frame_const`] says, if it applies.
    pub fn try_reg_frame_const(&mut self, reg: Reg, value: &'a Expr) -> (done: bool)
        requires
            old(self).cx.env.wf(),
            !(plan_reg_frame_const(old(self).cx, reg, value) is Stuck),
        ensures
            final(self).ran(*old(self), plan_reg_frame_const(old(self).cx, reg, value), done),
    {
        let cx: Cx<'a> = self.cx;
        let ExprKind::BinOp { op: BinOp::Add, left, right } = &value.kind else { return false; };
        let ExprKind::Ident(arr) = &left.kind else { return false; };
        let Some(t) = cx.env.local_elem(arr) else { return false; };
        let Some(k) = cx.env.const_of(&**right) else { return false; };
        let Some(base) = cx.env.stack_of(arr) else { return false; };
        if !(!reg.is_byte()) {
            return false;
        }
        let Some(slot) = frame_elem(base, k, t.size_bytes()) else { return false; };
        self.put(lea(ax(), slot));
        self.put(mov(r(reg), ax()));
        true
    }

    /// Emits what [`plan_reg_frame_index`] says, if it applies.
    pub fn try_reg_frame_index(&mut self, reg: Reg, value: &'a Expr) -> (done: bool)
        requires
            old(self).cx.env.wf(),
            !(plan_reg_frame_index(old(self).cx, reg, value) is Stuck),
        ensures
            final(self).ran(*old(self), plan_reg_frame_index(old(self).cx, reg, value), done),
    {
        let cx: Cx<'a> = self.cx;
        let ExprKind::BinOp { op: BinOp::Add, left, right } = &value.kind else { return false; };
        let ExprKind::Ident(arr) = &left.kind else { return false; };
        let Some(t) = cx.env.local_elem(arr) else { return false; };
        let Some(addr) = &cx.env.facts(&**right).int_addr else { return false; };
        let Some(base) = cx.env.stack_of(arr) else { return false; };
        if !(!reg.is_byte()) {
            return false;
        }
        let Some(shifts) = index_shifts(t.size_bytes()) else { return false; };
        self.put(mov(ax(), word(named(addr))));
        self.put_times(shl1(ax()), shifts as u64);
        self.put(lea(dx(), bp(base)));
        self.put(add_to(ax(), dx()));
        self.put(mov(r(reg), ax()));
        true
    }

    /// Emits what [`plan_reg_copy`] says, if it applies.
    pub fn try_reg_copy(&mut self, reg: Reg, value: &'a Expr) -> (done: bool)
        requires
            old(self).cx.env.wf(),
            !(plan_reg_copy(old(self).cx, reg, value) is Stuck),
        ensures
            final(self).ran(*old(self), plan_reg_copy(old(self).cx, reg, value), done),
    {
        let cx: Cx<'a> = self.cx;
        let ExprKind::Ident(name) = &value.kind else { return false; };
        let Some(src) = cx.env.word_reg_of(name) else { return false; };
        if !(!reg.is_byte()) {
            return false;
        }
        self.put(mov(r(reg), r(src)));
        true
    }

    /// Emits what [`plan_reg_stack_word`] says, if it applies.
    pub fn try_reg_stack_word(&mut self, reg: Reg, value: &'a Expr) -> (done: bool)
        requires
            old(self).cx.env.wf(),
            !(plan_reg_stack_word(old(self).cx, reg, value) is Stuck),
        ensures
            final(self).ran(*old(self), plan_reg_stack_word(old(self).cx, reg, value), done),
    {
        let cx: Cx<'a> = self.cx;
        let Some(name) = word_name(value) else { return false; };
        let Some(off) = cx.env.stack_of(name) else { return false; };
        let Some(ty) = cx.env.local_type(name) else { return false; };
        if !is_word(ty) {
            return false;
        }
        if !(!reg.is_byte()) {
            return false;
        }
        self.put(mov(r(reg), word(bp(off))));
        true
    }

    /// Emits what [`plan_reg_global_word`] says, if it applies.
    pub fn try_reg_global_word(&mut self, reg: Reg, value: &'a Expr) -> (done: bool)
        requires
            old(self).cx.env.wf(),
            !(plan_reg_global_word(old(self).cx, reg, value) is Stuck),
        ensures
            final(self).ran(*old(self), plan_reg_global_word(old(self).cx, reg, value), done),
    {
        let cx: Cx<'a> = self.cx;
        let Some(name) = pointer_name(value) else { return false; };
        let Some(ty) = cx.env.global_type(name) else { return false; };
        if !is_word(ty) {
            return false;
        }
        if !(!reg.is_byte()) {
            return false;
        }
        self.put(mov(r(reg), word(global(name))));
        true
    }

    /// Emits what [`plan_reg_member`] says, if it applies.
    pub fn try_reg_member(&mut self, reg: Reg, value: &'a Expr) -> (done: bool)
        requires
            old(self).cx.env.wf(),
            !(plan_reg_member(old(self).cx, reg, value) is Stuck),
        ensures
            final(self).ran(*old(self), plan_reg_member(old(self).cx, reg, value), done),
    {
        let cx: Cx<'a> = self.cx;
        let ExprKind::Member { base, field, kind: MemberKind::Arrow } = &value.kind else { return false; };
        let ExprKind::Ident(name) = &base.kind else { return false; };
        let Some(base_reg) = cx.env.reg_of(name) else { return false; };
        let Some(t) = cx.env.local_pointee(name) else { return false; };
        let Some(f) = t.struct_field_info(field) else { return false; };
        if !is_word(&f.ty) {
            return false;
        }
        if !(!reg.is_byte()) {
            return false;
        }
        self.put(mov(r(reg), word(at_disp(base_reg, plus(f.offset as i64)))));
        true
    }

    /// Emits what [`plan_reg_general`] says, if it applies.
    pub fn try_reg_general(&mut self, reg: Reg, value: &'a Expr) -> (done: bool)
        requires
            old(self).cx.env.wf(),
            !(plan_reg_general(old(self).cx, reg, value) is Stuck),
        ensures
            final(self).ran(*old(self), plan_reg_general(old(self).cx, reg, value), done),
    {
        let cx: Cx<'a> = self.cx;
        if !(!reg.is_byte()) {
            return false;
        }
        self.put(to_ax(cx, value));
        self.put(Step::StoreCollapsed(r(reg)));
        true
    }

    /// Stores the value of an expression into a register.
    pub fn emit_store_reg(&mut self, reg: Reg, value: &'a Expr)
        requires
            old(self).cx.env.wf(),
            plan_emit_store_reg(old(self).cx, reg, value) is Emit,
        ensures
            final(self).wrote(*old(self), plan_emit_store_reg(old(self).cx, reg, value)),
    {
        if self.try_reg_const(reg, value) {
            return;
        }
        if self.try_reg_string(reg, value) {
            return;
        }
        if self.try_reg_address(reg, value) {
            return;
        }
        if self.try_reg_elem_address(reg, value) {
            return;
        }
        if self.try_reg_array(reg, value) {
            return;
        }
        if self.try_reg_frame_const(reg, value) {
            return;
        }
        if self.try_reg_frame_index(reg, value) {
            return;
        }
        if self.try_reg_copy(reg, value) {
            return;
        }
        if self.try_reg_stack_word(reg, value) {
            return;
        }
        if self.try_reg_global_word(reg, value) {
            return;
        }
        if self.try_reg_member(reg, value) {
            return;
        }
        self.try_reg_general(reg, value);
        return;
    }
}

} // verus!
