//! Bitfields.

use vstd::prelude::*;
use crate::ast::{BinOp, BitfieldInfo, Expr, ExprKind, MemberKind, StructField};
use crate::codegen::emitter::{add_to, mov, op2, pop, push, to_ax, Cx, FunctionEmitter, Plan};
use crate::codegen::env::{Env, LocalLocation};
use crate::isa::{
    at_disp, ax, bp_plus, byte, cl, direct, dx, global_at, imm, is_direct, plus, r, signed, word,
    Addr, Mnemonic, Reg,
};

verus! {

/// How much memory is read for a bitfield.
#[derive(Debug, Clone, Copy, PartialEq, Eq, Structural)]
pub enum BitfieldAccess {
    /// The field lies within the first byte of its unit.
    Byte,
    /// The field reaches into the second byte.
    Word,
}

/// A bitfield with the address of its unit.
#[derive(Debug, Clone, Copy)]
pub struct BitfieldRef<'a> {
    pub addr: Addr<'a>,
    pub access: BitfieldAccess,
    pub bit_offset: u8,
    pub bit_width: u8,
    pub signed: bool,
}

/// How much memory is read for a field of some bits at some place.
#[verifier::allow_in_spec]
pub fn access_of(bf: BitfieldInfo) -> BitfieldAccess
    returns
        (if bf.bit_offset as u32 + bf.bit_width as u32 <= 8 {
            BitfieldAccess::Byte
        } else {
            BitfieldAccess::Word
        }),
{
    if bf.bit_offset as u32 + bf.bit_width as u32 <= 8 {
        BitfieldAccess::Byte
    } else {
        BitfieldAccess::Word
    }
}

/// The bitfield that a member at an address is; `None` for a member that is
/// none.
#[verifier::allow_in_spec]
pub fn bitfield_at<'b>(addr: Addr<'b>, f: &StructField) -> Option<BitfieldRef<'b>>
    returns
        (match f.bitfield {
            Some(bf) => Some(
                BitfieldRef {
                    addr,
                    access: access_of(bf),
                    bit_offset: bf.bit_offset,
                    bit_width: bf.bit_width,
                    signed: !f.ty.is_unsigned(),
                },
            ),
            None => None,
        }),
{
    match f.bitfield {
        Some(bf) => Some(
            BitfieldRef {
                addr,
                access: access_of(bf),
                bit_offset: bf.bit_offset,
                bit_width: bf.bit_width,
                signed: !f.ty.is_unsigned(),
            },
        ),
        None => None,
    }
}

/// Whether the last bit of a bitfield can be counted in a byte.
#[verifier::allow_in_spec]
pub fn bits_in_reach(f: &StructField) -> bool
    returns
        (match f.bitfield {
            Some(bf) => bf.bit_offset as u32 + bf.bit_width as u32 <= 255,
            None => true,
        }),
{
    match f.bitfield {
        Some(bf) => bf.bit_offset as u32 + bf.bit_width as u32 <= 255,
        None => true,
    }
}

/// The expression under casts to words.
pub open spec fn spec_under_word_casts<'a>(e: &'a Expr) -> &'a Expr
    decreases e,
{
    match &e.kind {
        ExprKind::Cast { ty, operand } => if ty.is_int_like() {
            spec_under_word_casts(&**operand)
        } else {
            e
        },
        _ => e,
    }
}

/// The expression under casts to words.
#[verifier::when_used_as_spec(spec_under_word_casts)]
pub fn under_word_casts<'a>(e: &'a Expr) -> (r: &'a Expr)
    ensures
        r == spec_under_word_casts(e),
    decreases e,
{
    match &e.kind {
        ExprKind::Cast { ty, operand } => if ty.is_int_like() {
            under_word_casts(&**operand)
        } else {
            e
        },
        _ => e,
    }
}

impl Env {
    /// Whether a member of a struct variable lies where its bits can be
    /// addressed.
    #[verifier::allow_in_spec]
    pub fn named_in_reach(&self, name: &String, field: &String) -> bool
        returns
            (match self.local(name) {
                Some(l) => match (l.ty.struct_field_info(field), l.loc) {
                    (Some(f), LocalLocation::Stack(_)) => f.offset <= 32767 && bits_in_reach(f),
                    _ => true,
                },
                None => match self.global_type(name) {
                    Some(t) => match t.struct_field_info(field) {
                        Some(f) => bits_in_reach(f),
                        None => true,
                    },
                    None => true,
                },
            }),
    {
        match self.local(name) {
            Some(l) => match (l.ty.struct_field_info(field), l.loc) {
                (Some(f), LocalLocation::Stack(_)) => f.offset <= 32767 && bits_in_reach(f),
                _ => true,
            },
            None => match self.global_type(name) {
                Some(t) => match t.struct_field_info(field) {
                    Some(f) => bits_in_reach(f),
                    None => true,
                },
                None => true,
            },
        }
    }

    /// The bitfield `name.field`.
    pub open spec fn spec_resolve_bitfield_named<'b>(
        &self,
        name: &'b String,
        field: &String,
    ) -> Option<BitfieldRef<'b>> {
        match self.local(name) {
            Some(l) => match (l.ty.struct_field_info(field), l.loc) {
                (Some(f), LocalLocation::Stack(off)) => bitfield_at(
                    bp_plus(off, f.offset as i32),
                    f,
                ),
                _ => None,
            },
            None => match self.global_type(name) {
                Some(t) => match t.struct_field_info(field) {
                    Some(f) => bitfield_at(global_at(name, plus(f.offset as i64)), f),
                    None => None,
                },
                None => None,
            },
        }
    }

    /// The bitfield `name.field` of a struct variable, locals on the stack
    /// first; `None` for any other member.
    #[verifier::when_used_as_spec(spec_resolve_bitfield_named)]
    pub fn resolve_bitfield_named<'b>(
        &self,
        name: &'b String,
        field: &String,
    ) -> (r: Option<BitfieldRef<'b>>)
        requires
            self.named_in_reach(name, field),
        ensures
            r == self.spec_resolve_bitfield_named(name, field),
    {
        if let Some(l) = self.local(name) {
            let Some(f) = l.ty.struct_field_info(field) else { return None; };
            let LocalLocation::Stack(off) = l.loc else { return None; };
            return bitfield_at(bp_plus(off, f.offset as i32), f);
        }
        let Some(t) = self.global_type(name) else { return None; };
        let Some(f) = t.struct_field_info(field) else { return None; };
        bitfield_at(global_at(name, plus(f.offset as i64)), f)
    }

    /// Whether the bits of a member behind a pointer can be counted.
    #[verifier::allow_in_spec]
    pub fn pointed_in_reach(&self, ptr: &String, field: &String) -> bool
        returns
            (match self.local_pointee(ptr) {
                Some(t) => match t.struct_field_info(field) {
                    Some(f) => bits_in_reach(f),
                    None => true,
                },
                None => true,
            }),
    {
        match self.local_pointee(ptr) {
            Some(t) => match t.struct_field_info(field) {
                Some(f) => bits_in_reach(f),
                None => true,
            },
            None => true,
        }
    }

    /// The bitfield `ptr->field`.
    pub open spec fn spec_resolve_bitfield_through_ptr<'b>(
        &self,
        ptr: &String,
        field: &String,
    ) -> Option<BitfieldRef<'b>> {
        match (self.local_pointee(ptr), self.reg_of(ptr)) {
            (Some(t), Some(reg)) => match t.struct_field_info(field) {
                Some(f) => bitfield_at(at_disp(reg, plus(f.offset as i64)), f),
                None => None,
            },
            _ => None,
        }
    }

    /// The bitfield `ptr->field` behind a pointer in a register; `None` for
    /// any other member or pointer.
    #[verifier::when_used_as_spec(spec_resolve_bitfield_through_ptr)]
    pub fn resolve_bitfield_through_ptr<'b>(
        &self,
        ptr: &String,
        field: &String,
    ) -> (r: Option<BitfieldRef<'b>>)
        requires
            self.pointed_in_reach(ptr, field),
        ensures
            r == self.spec_resolve_bitfield_through_ptr(ptr, field),
    {
        let Some(t) = self.local_pointee(ptr) else { return None; };
        let Some(f) = t.struct_field_info(field) else { return None; };
        let Some(reg) = self.reg_of(ptr) else { return None; };
        bitfield_at(at_disp(reg, plus(f.offset as i64)), f)
    }

    /// Whether a member expression lies where its bits can be addressed.
    #[verifier::allow_in_spec]
    pub fn bitfield_in_reach(&self, e: &Expr) -> bool
        returns
            (match &under_word_casts(e).kind {
                ExprKind::Member { base, field, kind } => match &base.kind {
                    ExprKind::Ident(name) => match kind {
                        MemberKind::Dot => self.named_in_reach(name, field),
                        MemberKind::Arrow => self.pointed_in_reach(name, field),
                    },
                    _ => true,
                },
                _ => true,
            }),
    {
        match &under_word_casts(e).kind {
            ExprKind::Member { base, field, kind } => match &base.kind {
                ExprKind::Ident(name) => match kind {
                    MemberKind::Dot => self.named_in_reach(name, field),
                    MemberKind::Arrow => self.pointed_in_reach(name, field),
                },
                _ => true,
            },
            _ => true,
        }
    }

    /// The bitfield that an expression reads.
    pub open spec fn spec_resolve_bitfield<'b>(&self, e: &'b Expr) -> Option<BitfieldRef<'b>> {
        match &under_word_casts(e).kind {
            ExprKind::Member { base, field, kind } => match &base.kind {
                ExprKind::Ident(name) => match kind {
                    MemberKind::Dot => self.resolve_bitfield_named(name, field),
                    MemberKind::Arrow => self.resolve_bitfield_through_ptr(name, field),
                },
                _ => None,
            },
            _ => None,
        }
    }

    /// The bitfield that an expression reads, under casts to words; `None`
    /// for any other expression.
    #[verifier::when_used_as_spec(spec_resolve_bitfield)]
    pub fn resolve_bitfield<'b>(&self, e: &'b Expr) -> (r: Option<BitfieldRef<'b>>)
        requires
            self.bitfield_in_reach(e),
        ensures
            r == self.spec_resolve_bitfield(e),
    {
        let ExprKind::Member { base, field, kind } = &under_word_casts(e).kind else {
            return None;
        };
        let ExprKind::Ident(name) = &base.kind else { return None; };
        match kind {
            MemberKind::Dot => self.resolve_bitfield_named(name, field),
            MemberKind::Arrow => self.resolve_bitfield_through_ptr(name, field),
        }
    }
}

/// The number that has its lowest `width` bits set and no other.
pub open spec fn ones(width: u8) -> int
    decreases width,
{
    if width == 0 {
        0
    } else {
        2 * ones((width - 1) as u8) + 1
    }
}

/// The mask of a field of some bits.
pub open spec fn spec_field_mask(width: u8) -> i64 {
    ones(width) as i64
}

/// The mask of a field of some bits.
#[verifier::when_used_as_spec(spec_field_mask)]
pub fn field_mask(width: u8) -> (r: i64)
    requires
        width < 32,
    ensures
        r == spec_field_mask(width),
        r == ones(width),
{
    let mut n: u8 = 0;
    let mut mask: i64 = 0;
    while n < width
        invariant
            n <= width < 32,
            mask == ones(n),
        decreases width - n,
    {
        n += 1;
        proof {
            ones_bound(n);
        }
        mask = 2 * mask + 1;
    }
    mask
}

/// The lowest `width` bits make up one less than two to the power `width`.
pub proof fn ones_power(width: u8)
    ensures
        ones(width) == vstd::arithmetic::power2::pow2(width as nat) - 1,
    decreases width,
{
    if width == 0 {
        vstd::arithmetic::power2::lemma2_to64();
    } else {
        ones_power((width - 1) as u8);
        vstd::arithmetic::power2::lemma_pow2_unfold(width as nat);
    }
}

/// The mask of fewer than 32 bits fits 31 bits.
proof fn ones_bound(width: u8)
    requires
        width < 32,
    ensures
        0 <= ones(width) <= 0x7FFF_FFFF,
{
    ones_power(width);
    vstd::arithmetic::power2::lemma2_to64();
    if width < 31 {
        vstd::arithmetic::power2::lemma_pow2_strictly_increases(width as nat, 31);
    }
    vstd::arithmetic::power2::lemma_pow2_pos(width as nat);
}

/// Loads the bits of a field: its byte, or its whole unit.
pub open spec fn plan_load_unit<'a>(
    cx: Cx<'a>,
    bf: BitfieldRef<'a>,
    full: Reg,
    low: Reg,
) -> Plan<'a> {
    match bf.access {
        BitfieldAccess::Byte => {
            Plan::Emit(seq![mov(r(low), byte(bf.addr))])
        },
        BitfieldAccess::Word => {
            Plan::Emit(seq![mov(r(full), word(bf.addr))])
        },
    }
}

/// Moves a signed field to the top of the register and back, which fills
/// the register with its sign.
pub open spec fn plan_extend_field<'a>(cx: Cx<'a>, bf: BitfieldRef<'a>, full: Reg) -> Plan<'a> {
    if bf.bit_offset as u32 + bf.bit_width as u32 <= 16 {
        Plan::Emit(seq![
            mov(cl(), imm((16 - bf.bit_offset as i64 - bf.bit_width as i64) as i64)),
            op2(Mnemonic::Shl, r(full), cl()),
            mov(cl(), imm((16 - bf.bit_width as i64) as i64)),
            op2(Mnemonic::Sar, r(full), cl()),
        ])
    } else {
        Plan::Stuck
    }
}

/// Moves an unsigned field to the bottom of the register and clears what
/// lies above it.
pub open spec fn plan_mask_field<'a>(cx: Cx<'a>, bf: BitfieldRef<'a>, full: Reg) -> Plan<'a> {
    if bf.bit_width < 32 {
        (if bf.bit_offset >= 4 {
            Plan::Emit(seq![
                mov(cl(), imm(bf.bit_offset as i64)),
                op2(Mnemonic::Shr, r(full), cl()),
            ])
        } else {
            Plan::Emit(op2(Mnemonic::Shr, r(full), imm(1)).times(bf.bit_offset as nat))
        }).followed_by(
            Plan::Emit(seq![op2(Mnemonic::And, r(full), imm(field_mask(bf.bit_width)))]),
        )
    } else {
        Plan::Stuck
    }
}

/// Reads a bitfield into a register whose low half is given.
pub open spec fn plan_emit_bitfield_read_to_reg<'a>(
    cx: Cx<'a>,
    bf: BitfieldRef<'a>,
    full: Reg,
    low: Reg,
) -> Plan<'a> {
    plan_load_unit(cx, bf, full, low).followed_by(
        if bf.signed {
            plan_extend_field(cx, bf, full)
        } else {
            plan_mask_field(cx, bf, full)
        },
    )
}

/// The expression that starts a chain of bitfields: a bitfield of its own,
/// or any other value.
pub open spec fn plan_chain_head<'a>(cx: Cx<'a>, e: &'a Expr) -> Plan<'a> {
    if cx.env.bitfield_in_reach(e) {
        match cx.env.resolve_bitfield(e) {
            Some(bf) => {
                plan_emit_bitfield_read_to_reg(cx, bf, Reg::Ax, Reg::Al)
            },
            None => {
                Plan::Emit(seq![to_ax(cx, e)])
            },
        }
    } else {
        Plan::Stuck
    }
}

/// A chain of direct operators with bitfields on their right: each one is
/// read into `dx` and folded into `ax`.
pub open spec fn plan_bitfield_chain<'a>(cx: Cx<'a>, e: &'a Expr) -> Plan<'a>
    decreases e,
{
    match &e.kind {
        ExprKind::BinOp { op, left, right } => if is_direct(*op) {
            if !cx.env.bitfield_in_reach(&**right) {
                Plan::Stuck
            } else {
                match cx.env.resolve_bitfield(&**right) {
                    Some(bf) => plan_bitfield_chain(cx, &**left).followed_by(
                        plan_emit_bitfield_read_to_reg(cx, bf, Reg::Dx, Reg::Dl),
                    ).followed_by(Plan::Emit(seq![op2(direct(*op), ax(), dx())])),
                    None => plan_chain_head(cx, e),
                }
            }
        } else {
            plan_chain_head(cx, e)
        },
        _ => plan_chain_head(cx, e),
    }
}

/// A signed bitfield plus an unsigned one: the unsigned one is read first
/// and kept on the stack.
pub open spec fn plan_bitfield_sum_reversed<'a>(
    cx: Cx<'a>,
    left: &'a Expr,
    op: BinOp,
    bf: BitfieldRef<'a>,
) -> Plan<'a> {
    if op == BinOp::Add && !bf.signed {
        if cx.env.bitfield_in_reach(left) {
            if let Some(head) = cx.env.resolve_bitfield(left) {
                if head.signed {
                    plan_emit_bitfield_read_to_reg(cx, bf, Reg::Ax, Reg::Al).followed_by(
                        Plan::Emit(seq![push(ax())]),
                    ).followed_by(plan_emit_bitfield_read_to_reg(cx, head, Reg::Ax, Reg::Al)).followed_by(
                        Plan::Emit(seq![
                            pop(dx()),
                            add_to(ax(), dx()),
                        ]),
                    )
                } else {
                    Plan::Skip
                }
            } else {
                Plan::Skip
            }
        } else {
            Plan::Stuck
        }
    } else {
        Plan::Skip
    }
}

/// Arithmetic on bitfields, into `ax`.
pub open spec fn plan_emit_bitfield_chain_to_ax<'a>(cx: Cx<'a>, e: &'a Expr) -> Plan<'a> {
    if let ExprKind::BinOp { op, left, right } = &e.kind {
        if is_direct(*op) {
            if cx.env.bitfield_in_reach(&**right) {
                if let Some(bf) = cx.env.resolve_bitfield(&**right) {
                    match plan_bitfield_sum_reversed(cx, &**left, *op, bf) {
                        Plan::Skip => {
                            plan_bitfield_chain(cx, e)
                        },
                        taken => taken,
                    }
                } else {
                    Plan::Skip
                }
            } else {
                Plan::Stuck
            }
        } else {
            Plan::Skip
        }
    } else {
        Plan::Skip
    }
}

impl<'a> FunctionEmitter<'a> {
    /// Loads the bits of a field: its byte, or its whole unit.
    pub fn load_unit(&mut self, bf: BitfieldRef<'a>, full: Reg, low: Reg)
        requires
            old(self).cx.env.wf(),
            plan_load_unit(old(self).cx, bf, full, low) is Emit,
        ensures
            final(self).wrote(*old(self), plan_load_unit(old(self).cx, bf, full, low)),
    {
        match bf.access {
            BitfieldAccess::Byte => {
                self.put(mov(r(low), byte(bf.addr)));
            },
            BitfieldAccess::Word => {
                self.put(mov(r(full), word(bf.addr)));
            },
        }
    }

    /// Moves a signed field to the top of the register and back, which fills
    /// the register with its sign.
    pub fn extend_field(&mut self, bf: BitfieldRef<'a>, full: Reg)
        requires
            old(self).cx.env.wf(),
            plan_extend_field(old(self).cx, bf, full) is Emit,
        ensures
            final(self).wrote(*old(self), plan_extend_field(old(self).cx, bf, full)),
    {
        if !(bf.bit_offset as u32 + bf.bit_width as u32 <= 16) {
            return;
        }
        self.put(mov(cl(), imm((16 - bf.bit_offset as i64 - bf.bit_width as i64) as i64)));
        self.put(op2(Mnemonic::Shl, r(full), cl()));
        self.put(mov(cl(), imm((16 - bf.bit_width as i64) as i64)));
        self.put(op2(Mnemonic::Sar, r(full), cl()));
    }

    /// Moves an unsigned field to the bottom of the register and clears what
    /// lies above it.
    pub fn mask_field(&mut self, bf: BitfieldRef<'a>, full: Reg)
        requires
            old(self).cx.env.wf(),
            plan_mask_field(old(self).cx, bf, full) is Emit,
        ensures
            final(self).wrote(*old(self), plan_mask_field(old(self).cx, bf, full)),
    {
        if !(bf.bit_width < 32) {
            return;
        }
        if bf.bit_offset >= 4 {
            self.put(mov(cl(), imm(bf.bit_offset as i64)));
            self.put(op2(Mnemonic::Shr, r(full), cl()));
        } else {
            self.put_times(op2(Mnemonic::Shr, r(full), imm(1)), bf.bit_offset as u64);
        }
        self.put(op2(Mnemonic::And, r(full), imm(field_mask(bf.bit_width))));
    }

    /// Reads a bitfield into a register whose low half is given.
    pub fn emit_bitfield_read_to_reg(&mut self, bf: BitfieldRef<'a>, full: Reg, low: Reg)
        requires
            old(self).cx.env.wf(),
            plan_emit_bitfield_read_to_reg(old(self).cx, bf, full, low) is Emit,
        ensures
            final(self).wrote(
                *old(self),
                plan_emit_bitfield_read_to_reg(old(self).cx, bf, full, low),
            ),
    {
        self.load_unit(bf, full, low);
        if bf.signed {
            self.extend_field(bf, full);
        } else {
            self.mask_field(bf, full);
        }
    }

    /// The expression that starts a chain of bitfields: a bitfield of its own,
    /// or any other value.
    pub fn chain_head(&mut self, e: &'a Expr)
        requires
            old(self).cx.env.wf(),
            plan_chain_head(old(self).cx, e) is Emit,
        ensures
            final(self).wrote(*old(self), plan_chain_head(old(self).cx, e)),
    {
        let cx: Cx<'a> = self.cx;
        if !cx.env.bitfield_in_reach(e) {
            return;
        }
        match cx.env.resolve_bitfield(e) {
            Some(bf) => {
                self.emit_bitfield_read_to_reg(bf, Reg::Ax, Reg::Al);
            },
            None => {
                self.put(to_ax(cx, e));
            },
        }
    }

    /// Emits what [`plan_bitfield_sum_reversed`] says, if it applies.
    pub fn try_bitfield_sum_reversed(
        &mut self,
        left: &'a Expr,
        op: BinOp,
        bf: BitfieldRef<'a>,
    ) -> (done: bool)
        requires
            old(self).cx.env.wf(),
            !(plan_bitfield_sum_reversed(old(self).cx, left, op, bf) is Stuck),
        ensures
            final(self).ran(
                *old(self),
                plan_bitfield_sum_reversed(old(self).cx, left, op, bf),
                done,
            ),
    {
        let cx: Cx<'a> = self.cx;
        if !(op == BinOp::Add && !bf.signed) {
            return false;
        }
        if !cx.env.bitfield_in_reach(left) {
            return false;
        }
        let Some(head) = cx.env.resolve_bitfield(left) else { return false; };
        if !head.signed {
            return false;
        }
        self.emit_bitfield_read_to_reg(bf, Reg::Ax, Reg::Al);
        self.put(push(ax()));
        self.emit_bitfield_read_to_reg(head, Reg::Ax, Reg::Al);
        self.put(pop(dx()));
        self.put(add_to(ax(), dx()));
        true
    }

    /// Emits what [`plan_emit_bitfield_chain_to_ax`] says, if it applies.
    pub fn try_emit_bitfield_chain_to_ax(&mut self, e: &'a Expr) -> (done: bool)
        requires
            old(self).cx.env.wf(),
            !(plan_emit_bitfield_chain_to_ax(old(self).cx, e) is Stuck),
        ensures
            final(self).ran(*old(self), plan_emit_bitfield_chain_to_ax(old(self).cx, e), done),
    {
        let cx: Cx<'a> = self.cx;
        let ExprKind::BinOp { op, left, right } = &e.kind else { return false; };
        if !is_direct(*op) {
            return false;
        }
        if !(cx.env.bitfield_in_reach(&**right)) {
            return false;
        }
        let Some(bf) = cx.env.resolve_bitfield(&**right) else { return false; };
        if self.try_bitfield_sum_reversed(&**left, *op, bf) {
            return true;
        }
        self.bitfield_chain(e);
        true
    }
}

impl<'a> FunctionEmitter<'a> {
    /// Reads a chain of bitfields into `ax`.
    pub fn bitfield_chain(&mut self, e: &'a Expr)
        requires
            old(self).cx.env.wf(),
            plan_bitfield_chain(old(self).cx, e) is Emit,
        ensures
            final(self).wrote(*old(self), plan_bitfield_chain(old(self).cx, e)),
        decreases e,
    {
        let cx: Cx<'a> = self.cx;
        if let ExprKind::BinOp { op, left, right } = &e.kind {
            if is_direct(*op) {
                if let Some(bf) = cx.env.resolve_bitfield(&**right) {
                    self.bitfield_chain(&**left);
                    self.emit_bitfield_read_to_reg(bf, Reg::Dx, Reg::Dl);
                    self.put(op2(direct(*op), ax(), dx()));
                    return;
                }
            }
        }
        self.chain_head(e);
    }
}

} // verus!
