//! Loads and stores that many rules share.

use vstd::prelude::*;
use crate::ast::{BinOp, Expr, Type, UpdateOp};
use crate::codegen::emitter::{mov, op1, to_ax, widen_al, Cx, FunctionEmitter, Plan};
use crate::isa::{
    acc, al, ax, byte, dx, hi16, imm, lo16, masked, named, r, sized, update, word, Addr, Jcc, Reg,
};

verus! {

/// Loads a value of a type into `ax`: a character through `al`, widened, and
/// anything else as a word.
pub open spec fn plan_load_value<'a>(cx: Cx<'a>, ty: &'a Type, a: Addr<'a>) -> Plan<'a> {
    if ty.is_char_like() {
        Plan::Emit(seq![
            mov(al(), byte(a)),
            widen_al(cx, ty),
        ])
    } else {
        Plan::Emit(seq![mov(ax(), word(a))])
    }
}

/// Stores a constant, or the value of an expression by way of `ax`.
pub open spec fn plan_store_value<'a>(
    cx: Cx<'a>,
    is_byte: bool,
    a: Addr<'a>,
    value: &'a Expr,
) -> Plan<'a> {
    match cx.env.const_of(value) {
        Some(v) => {
            Plan::Emit(seq![mov(sized(is_byte, a), imm(masked(v, is_byte)))])
        },
        None => {
            Plan::Emit(seq![
                to_ax(cx, value),
                mov(sized(is_byte, a), acc(is_byte)),
            ])
        },
    }
}

/// Stores a 32-bit constant, the high word first.
pub open spec fn plan_store_long_const<'a>(
    cx: Cx<'a>,
    hi: Addr<'a>,
    lo: Addr<'a>,
    v: u32,
) -> Plan<'a> {
    Plan::Emit(seq![
        mov(word(hi), imm(hi16(v))),
        mov(word(lo), imm(lo16(v))),
    ])
}

/// Stores a 32-bit value: a constant, or a variable in memory by way of `ax`
/// and `dx`.
pub open spec fn plan_store_long<'a>(
    cx: Cx<'a>,
    hi: Addr<'a>,
    lo: Addr<'a>,
    value: &'a Expr,
) -> Plan<'a> {
    match cx.env.const_of(value) {
        Some(v) => {
            plan_store_long_const(cx, hi, lo, v)
        },
        None => {
            if let Some((from_hi, from_lo)) = &cx.env.facts(value).long_addrs {
                plan_copy_long(cx, hi, lo, named(from_hi), named(from_lo))
            } else {
                Plan::Stuck
            }
        },
    }
}

/// Copies two words by way of `ax` and `dx`, the high word first.
pub open spec fn plan_copy_long<'a>(
    cx: Cx<'a>,
    to_hi: Addr<'a>,
    to_lo: Addr<'a>,
    from_hi: Addr<'a>,
    from_lo: Addr<'a>,
) -> Plan<'a> {
    Plan::Emit(seq![
        mov(ax(), word(from_hi)),
        mov(dx(), word(from_lo)),
        mov(word(to_hi), ax()),
        mov(word(to_lo), dx()),
    ])
}

/// Stores the pair that a call or a run-time routine leaves in `dx:ax`.
pub open spec fn plan_store_result<'a>(cx: Cx<'a>, hi: Addr<'a>, lo: Addr<'a>) -> Plan<'a> {
    Plan::Emit(seq![
        mov(word(hi), dx()),
        mov(word(lo), ax()),
    ])
}

/// The jump conditions of a 32-bit comparison by halves: the high halves
/// prove it false, the high halves prove it true, the low halves prove it
/// false.
#[verifier::allow_in_spec]
pub fn long_jumps(op: BinOp, unsigned: bool) -> (Jcc, Jcc, Jcc)
    returns
        (match (op, unsigned) {
            (BinOp::Lt, false) => (Jcc::Jg, Jcc::Jl, Jcc::Jae),
            (BinOp::Gt, false) => (Jcc::Jl, Jcc::Jg, Jcc::Jbe),
            (BinOp::Le, false) => (Jcc::Jg, Jcc::Jne, Jcc::Ja),
            (BinOp::Lt, true) => (Jcc::Ja, Jcc::Jb, Jcc::Jae),
            (BinOp::Gt, true) => (Jcc::Jb, Jcc::Ja, Jcc::Jbe),
            (BinOp::Le, true) => (Jcc::Ja, Jcc::Jne, Jcc::Ja),
            (_, false) => (Jcc::Jl, Jcc::Jne, Jcc::Jb),
            (_, true) => (Jcc::Jb, Jcc::Jne, Jcc::Jb),
        }),
{
    match (op, unsigned) {
        (BinOp::Lt, false) => (Jcc::Jg, Jcc::Jl, Jcc::Jae),
        (BinOp::Gt, false) => (Jcc::Jl, Jcc::Jg, Jcc::Jbe),
        (BinOp::Le, false) => (Jcc::Jg, Jcc::Jne, Jcc::Ja),
        (BinOp::Lt, true) => (Jcc::Ja, Jcc::Jb, Jcc::Jae),
        (BinOp::Gt, true) => (Jcc::Jb, Jcc::Ja, Jcc::Jbe),
        (BinOp::Le, true) => (Jcc::Ja, Jcc::Jne, Jcc::Ja),
        (_, false) => (Jcc::Jl, Jcc::Jne, Jcc::Jb),
        (_, true) => (Jcc::Jb, Jcc::Jne, Jcc::Jb),
    }
}

/// The label so many places behind the first label of an expression.
#[verifier::allow_in_spec]
pub fn label_after(base: u32, n: u32) -> u32
    returns
        (if base <= 0xFFFF_FFFF - n { (base + n) as u32 } else { base }),
{
    if base <= 0xFFFF_FFFF - n { (base + n) as u32 } else { base }
}

/// Moves past `n` bytes with a register, one at a time.
pub open spec fn plan_advance<'a>(cx: Cx<'a>, op: UpdateOp, reg: Reg, n: u16) -> Plan<'a> {
    Plan::Emit(op1(update(op), r(reg)).times(n as nat))
}

impl<'a> FunctionEmitter<'a> {
    /// Loads a value of a type into `ax`: a character through `al`, widened, and
    /// anything else as a word.
    pub fn load_value(&mut self, ty: &'a Type, a: Addr<'a>)
        requires
            old(self).cx.env.wf(),
            plan_load_value(old(self).cx, ty, a) is Emit,
        ensures
            final(self).wrote(*old(self), plan_load_value(old(self).cx, ty, a)),
    {
        let cx: Cx<'a> = self.cx;
        if ty.is_char_like() {
            self.put(mov(al(), byte(a)));
            self.put(widen_al(cx, ty));
        } else {
            self.put(mov(ax(), word(a)));
        }
    }

    /// Stores a constant, or the value of an expression by way of `ax`.
    pub fn store_value(&mut self, is_byte: bool, a: Addr<'a>, value: &'a Expr)
        requires
            old(self).cx.env.wf(),
            plan_store_value(old(self).cx, is_byte, a, value) is Emit,
        ensures
            final(self).wrote(*old(self), plan_store_value(old(self).cx, is_byte, a, value)),
    {
        let cx: Cx<'a> = self.cx;
        match cx.env.const_of(value) {
            Some(v) => {
                self.put(mov(sized(is_byte, a), imm(masked(v, is_byte))));
            },
            None => {
                self.put(to_ax(cx, value));
                self.put(mov(sized(is_byte, a), acc(is_byte)));
            },
        }
    }

    /// Stores a 32-bit constant, the high word first.
    pub fn store_long_const(&mut self, hi: Addr<'a>, lo: Addr<'a>, v: u32)
        requires
            old(self).cx.env.wf(),
            plan_store_long_const(old(self).cx, hi, lo, v) is Emit,
        ensures
            final(self).wrote(*old(self), plan_store_long_const(old(self).cx, hi, lo, v)),
    {
        self.put(mov(word(hi), imm(hi16(v))));
        self.put(mov(word(lo), imm(lo16(v))));
    }

    /// Stores a 32-bit value: a constant, or a variable in memory by way of `ax`
    /// and `dx`.
    pub fn store_long(&mut self, hi: Addr<'a>, lo: Addr<'a>, value: &'a Expr)
        requires
            old(self).cx.env.wf(),
            plan_store_long(old(self).cx, hi, lo, value) is Emit,
        ensures
            final(self).wrote(*old(self), plan_store_long(old(self).cx, hi, lo, value)),
    {
        let cx: Cx<'a> = self.cx;
        match cx.env.const_of(value) {
            Some(v) => {
                self.store_long_const(hi, lo, v);
            },
            None => {
                let Some((from_hi, from_lo)) = &cx.env.facts(value).long_addrs else { return; };
                self.copy_long(hi, lo, named(from_hi), named(from_lo));
            },
        }
    }

    /// Copies two words by way of `ax` and `dx`, the high word first.
    pub fn copy_long(
        &mut self,
        to_hi: Addr<'a>,
        to_lo: Addr<'a>,
        from_hi: Addr<'a>,
        from_lo: Addr<'a>,
    )
        requires
            old(self).cx.env.wf(),
            plan_copy_long(old(self).cx, to_hi, to_lo, from_hi, from_lo) is Emit,
        ensures
            final(self).wrote(
                *old(self),
                plan_copy_long(old(self).cx, to_hi, to_lo, from_hi, from_lo),
            ),
    {
        self.put(mov(ax(), word(from_hi)));
        self.put(mov(dx(), word(from_lo)));
        self.put(mov(word(to_hi), ax()));
        self.put(mov(word(to_lo), dx()));
    }

    /// Stores the pair that a call or a run-time routine leaves in `dx:ax`.
    pub fn store_result(&mut self, hi: Addr<'a>, lo: Addr<'a>)
        requires
            old(self).cx.env.wf(),
            plan_store_result(old(self).cx, hi, lo) is Emit,
        ensures
            final(self).wrote(*old(self), plan_store_result(old(self).cx, hi, lo)),
    {
        self.put(mov(word(hi), dx()));
        self.put(mov(word(lo), ax()));
    }

    /// Moves past `n` bytes with a register, one at a time.
    pub fn advance(&mut self, op: UpdateOp, reg: Reg, n: u16)
        requires
            old(self).cx.env.wf(),
            plan_advance(old(self).cx, op, reg, n) is Emit,
        ensures
            final(self).wrote(*old(self), plan_advance(old(self).cx, op, reg, n)),
    {
        self.put_times(op1(update(op), r(reg)), n as u64);
    }
}

} // verus!
