//! Assignments of constants, and pointers to integers and characters, reach
//! the place they name.

use vstd::prelude::*;
use crate::ast::{BinOp, Expr, ExprKind, Type};
use crate::codegen::emitter::{Cx, Plan, Step};
use crate::codegen::env::{Env, LocalLocation};
use crate::isa::{Addr, Operand, Reg};
use crate::machine::{Machine, Outcome, World};

verus! {

/// Whether a plan leaves a constant in a character or in a word at a place,
/// cut to its width, with no other memory changed.
pub open spec fn leaves_const<'a>(
    w: World<'a>,
    m: Machine,
    plan: Plan<'a>,
    at: int,
    ty: Type,
    k: u32,
) -> bool {
    if ty.is_char_like() {
        crate::laws::byte::leaves_byte(w, m, plan, at, k as int % 0x100)
    } else {
        crate::laws::word::leaves_word(w, m, plan, at, k as int % 0x1_0000)
    }
}

/// A constant stored at a fixed address or through a register.
pub proof fn const_in_memory<'a>(
    w: World<'a>,
    m: Machine,
    steps: Seq<Step<'a>>,
    byte: bool,
    a: Addr<'a>,
    k: u32,
)
    requires
        m.wf(),
        m.locate(w, a) is Some,
        steps == seq![
            crate::codegen::emitter::mov(
                crate::isa::sized(byte, a),
                Operand::Imm(crate::isa::masked(k, byte)),
            ),
        ],
    ensures
        byte ==> crate::laws::byte::leaves_byte(
            w,
            m,
            Plan::Emit(steps),
            m.locate(w, a)->0,
            k as int % 0x100,
        ),
        !byte ==> crate::laws::word::leaves_word(
            w,
            m,
            Plan::Emit(steps),
            m.locate(w, a)->0,
            k as int % 0x1_0000,
        ),
{
    let at = m.locate(w, a)->0;
    let imm = Operand::<'a>::Imm(crate::isa::masked(k, byte));
    if byte {
        let after = m.with_byte(at, k as int % 0x100);
        assert(crate::machine::run_step(w, m, steps[0]) == Some(after));
        crate::machine::step_on(w, m, steps, 0, after);
        crate::machine::step_end(w, after, steps, 1);
        crate::laws::byte::byte_written(m.mem, at, k as int % 0x100);
    } else {
        let after = crate::laws::steps::store_word(w, m, steps, 0, a, imm);
        crate::machine::step_end(w, after, steps, 1);
        crate::machine::word_written(m.mem, at, k as int % 0x1_0000);
    }
}

/// `x = k` for a file-scope character, integer or pointer leaves the
/// constant in `x`, cut to its width, and nothing else in memory changes.
pub proof fn const_assign_global<'a>(
    w: World<'a>,
    m: Machine,
    cx: Cx<'a>,
    name: &'a String,
    value: &'a Expr,
    k: u32,
)
    requires
        m.wf(),
        cx.env.global_type(name) matches Some(t) && (t.is_int_like() || t.is_char_like()),
        cx.env.const_of(value) == Some(k),
        value.kind is IntLit,
    ensures
        leaves_const(
            w,
            m,
            crate::codegen::assign_global::plan_emit_assign_global(cx, name, value),
            (w.symbol)(name@),
            *cx.env.global_type(name)->0,
            k,
        ),
{
    let ty = cx.env.global_type(name)->0;
    let plan = crate::codegen::assign_global::plan_emit_assign_global(cx, name, value);
    assert(plan == crate::codegen::assign_global::plan_global_const(cx, name, ty, value));
    const_in_memory(w, m, plan->Emit_0, ty.is_char_like(), crate::isa::global(name), k);
}

/// `x = k` for a local character, integer or pointer in the stack frame
/// leaves the constant in `x`, cut to its width, and nothing else in memory
/// changes.
pub proof fn const_assign_local<'a>(
    w: World<'a>,
    m: Machine,
    cx: Cx<'a>,
    off: i16,
    ty: &'a Type,
    value: &'a Expr,
    k: u32,
)
    requires
        m.wf(),
        ty.is_int_like() || ty.is_char_like(),
        cx.env.const_of(value) == Some(k),
        value.kind is IntLit,
    ensures
        leaves_const(
            w,
            m,
            crate::codegen::assign_local::plan_emit_assign_local(
                cx,
                LocalLocation::Stack(off),
                ty,
                value,
            ),
            m.bp + off,
            *ty,
            k,
        ),
{
    let plan = crate::codegen::assign_local::plan_emit_assign_local(
        cx,
        LocalLocation::Stack(off),
        ty,
        value,
    );
    assert(plan == crate::codegen::assign_local::plan_local_const(cx, off, ty, value));
    const_in_memory(w, m, plan->Emit_0, ty.is_char_like(), crate::isa::bp(off), k);
}

/// `x = k` for a variable in a register leaves the constant there, cut to
/// the width of the register; memory and the other registers keep what they
/// hold.
pub proof fn const_assign_register<'a>(
    w: World<'a>,
    m: Machine,
    cx: Cx<'a>,
    r: Reg,
    value: &'a Expr,
    k: u32,
)
    requires
        m.wf(),
        m.reg(r) is Some,
        cx.env.const_of(value) == Some(k),
    ensures
        ({
            let plan = crate::codegen::store_reg::plan_emit_store_reg(cx, r, value);
            &&& plan matches Plan::Emit(steps)
            &&& crate::machine::run(w, m, steps, 0) matches Outcome::Through(after)
            &&& crate::laws::steps::same_regs(
                after,
                m.with_reg(r, k as int % crate::machine::limit(r.is_byte()))->0,
            )
            &&& after.mem == m.mem
        }),
{
    let plan = crate::codegen::store_reg::plan_emit_store_reg(cx, r, value);
    assert(plan == crate::codegen::store_reg::plan_reg_const(cx, r, value));
    let steps = plan->Emit_0;
    if !r.is_byte() && k as int % 0x1_0000 == 0 {
        let a = m.reg(r)->0;
        let x = a as u16;
        assert(x ^ x == 0u16) by (bit_vector);
        let after = crate::laws::steps::direct_to_register(
            w,
            m,
            steps,
            0,
            BinOp::BitXor,
            r,
            Operand::Reg(r),
        );
        crate::machine::step_end(w, after, steps, 1);
    } else {
        let after = m.with_reg(r, k as int % crate::machine::limit(r.is_byte()))->0;
        assert(crate::machine::run_step(w, m, steps[0]) == Some(after));
        crate::machine::step_on(w, m, steps, 0, after);
        crate::machine::step_end(w, after, steps, 1);
    }
}

/// The value of a local near pointer: what its register or its slot in the
/// stack frame holds.
pub open spec fn pointer_value<'a>(w: World<'a>, m: Machine, env: Env, name: String) -> Option<
    int,
> {
    match env.local(&name) {
        Some(l) => if l.seg is Some || l.is_selector || l.ty is FarPointer {
            None
        } else {
            match l.loc {
                LocalLocation::Reg(r) => if r.is_base() { m.reg(r) } else { None },
                LocalLocation::Stack(off) => Some(m.word_at(m.bp + off)),
            }
        },
        None => None,
    }
}

/// Whether a name stands for a local near pointer to integers.
pub open spec fn points_at_int<'a>(w: World<'a>, m: Machine, env: Env, name: String) -> bool {
    &&& !env.is_global(&name)
    &&& pointer_value(w, m, env, name) is Some
    &&& env.local_pointee(&name) matches Some(t) && crate::codegen::env::is_plain_int(t)
}

/// `*p` for a local near pointer to integers reads the word at the address
/// that `p` holds.
pub proof fn pointer_read<'a>(
    w: World<'a>,
    m: Machine,
    cx: Cx<'a>,
    ptr: &'a Expr,
    name: &'a String,
)
    requires
        m.wf(),
        ptr.kind == ExprKind::Ident(*name),
        points_at_int(w, m, *cx.env, *name),
    ensures
        crate::laws::element::leaves_ax(
            w,
            m,
            crate::codegen::deref_read::plan_emit_deref_to_ax(cx, ptr),
            m.word_at(pointer_value(w, m, *cx.env, *name)->0),
        ),
{
    let plan = crate::codegen::deref_read::plan_emit_deref_to_ax(cx, ptr);
    assert(plan == crate::codegen::deref_read::plan_deref_local(cx, name));
    let steps = plan->Emit_0;
    match cx.env.local(name)->0.loc {
        LocalLocation::Reg(r) => {
            assert(steps =~= seq![
                crate::codegen::emitter::mov(
                    crate::isa::ax(),
                    crate::isa::word(crate::isa::at(r)),
                ),
            ]);
            let after = crate::laws::steps::load_word(
                w,
                m,
                steps,
                0,
                Reg::Ax,
                crate::isa::at(r),
            );
            crate::machine::step_end(w, after, steps, 1);
        },
        LocalLocation::Stack(off) => {
            assert(steps =~= seq![
                crate::codegen::emitter::mov(
                    crate::isa::bx(),
                    crate::isa::word(crate::isa::bp(off)),
                ),
                crate::codegen::emitter::mov(
                    crate::isa::ax(),
                    crate::isa::word(crate::isa::at(Reg::Bx)),
                ),
            ]);
            let m1 = crate::laws::steps::load_word(
                w,
                m,
                steps,
                0,
                Reg::Bx,
                crate::isa::bp(off),
            );
            let after = crate::laws::steps::load_word(
                w,
                m1,
                steps,
                1,
                Reg::Ax,
                crate::isa::at(Reg::Bx),
            );
            crate::machine::step_end(w, after, steps, 2);
        },
    }
}

/// `*p = k` for a local near pointer to integers writes the constant at the
/// address that `p` holds, and nothing else in memory changes.
pub proof fn pointer_write<'a>(
    w: World<'a>,
    m: Machine,
    cx: Cx<'a>,
    target: &'a Expr,
    name: &'a String,
    value: &'a Expr,
    k: u32,
)
    requires
        m.wf(),
        target.kind == ExprKind::Ident(*name),
        points_at_int(w, m, *cx.env, *name),
        cx.env.const_of(value) == Some(k),
        value.kind is IntLit,
    ensures
        crate::laws::word::leaves_word(
            w,
            m,
            crate::codegen::deref_write::plan_emit_deref_assign(cx, target, value),
            pointer_value(w, m, *cx.env, *name)->0,
            k as int % 0x1_0000,
        ),
{
    let plan = crate::codegen::deref_write::plan_emit_deref_assign(cx, target, value);
    assert(plan == crate::codegen::deref_write::plan_deref_assign_local(cx, name, 0, value));
    let steps = plan->Emit_0;
    let imm = Operand::<'a>::Imm(crate::isa::masked(k, false));
    match cx.env.local(name)->0.loc {
        LocalLocation::Reg(r) => {
            let store = crate::codegen::emitter::mov(crate::isa::word(crate::isa::at(r)), imm);
            assert(steps =~= seq![store]);
            const_in_memory(w, m, steps, false, crate::isa::at(r), k);
        },
        LocalLocation::Stack(off) => {
            let load = crate::codegen::emitter::mov(
                crate::isa::bx(),
                crate::isa::word(crate::isa::bp(off)),
            );
            let store = crate::codegen::emitter::mov(
                crate::isa::word(crate::isa::at(Reg::Bx)),
                imm,
            );
            assert(steps =~= seq![load, store]);
            let m1 = crate::laws::steps::load_word(
                w,
                m,
                steps,
                0,
                Reg::Bx,
                crate::isa::bp(off),
            );
            let after = crate::laws::steps::store_word(
                w,
                m1,
                steps,
                1,
                crate::isa::at(Reg::Bx),
                imm,
            );
            crate::machine::step_end(w, after, steps, 2);
            crate::machine::word_written(m.mem, m.word_at(m.bp + off), k as int % 0x1_0000);
        },
    }
}

/// `*p op= k` for a local near pointer to integers in a register and a
/// direct operator leaves the 16-bit result at the address that `p` holds,
/// and nothing else in memory changes.
pub proof fn pointer_const_compound<'a>(
    w: World<'a>,
    m: Machine,
    cx: Cx<'a>,
    target: &'a Expr,
    name: &'a String,
    op: BinOp,
    value: &'a Expr,
    k: u32,
    from_postfix: bool,
)
    requires
        m.wf(),
        target.kind == ExprKind::Ident(*name),
        points_at_int(w, m, *cx.env, *name),
        cx.env.local(name)->0.loc is Reg,
        cx.env.const_of(value) == Some(k),
        crate::isa::is_direct(op),
    ensures
        crate::laws::word::leaves_word(
            w,
            m,
            crate::codegen::deref_write::plan_emit_deref_compound_assign(
                cx,
                target,
                op,
                value,
                from_postfix,
            ),
            pointer_value(w, m, *cx.env, *name)->0,
            crate::machine::word_result(
                op,
                m.word_at(pointer_value(w, m, *cx.env, *name)->0),
                k as int % 0x1_0000,
            ),
        ),
{
    let plan = crate::codegen::deref_write::plan_emit_deref_compound_assign(
        cx,
        target,
        op,
        value,
        from_postfix,
    );
    let l = cx.env.local(name)->0;
    assert(plan == crate::codegen::deref_write::plan_deref_compound_const(cx, name, 0, op, k));
    crate::laws::word::const_applied(w, m, plan->Emit_0, op, crate::isa::at(l.loc->Reg_0), k);
}

/// Whether a name stands for a local near pointer to characters.
pub open spec fn points_at_char<'a>(w: World<'a>, m: Machine, env: Env, name: String) -> bool {
    &&& !env.is_global(&name)
    &&& pointer_value(w, m, env, name) is Some
    &&& env.local_pointee(&name) matches Some(t) && t.is_char_like()
}

/// `*p` for a local near pointer to characters is worth the byte at the
/// address that `p` holds: with its sign, unless it is unsigned.
pub proof fn char_pointer_read<'a>(
    w: World<'a>,
    m: Machine,
    cx: Cx<'a>,
    ptr: &'a Expr,
    name: &'a String,
)
    requires
        m.wf(),
        crate::laws::char_element::widens(w),
        !cx.skip_widen,
        ptr.kind == ExprKind::Ident(*name),
        points_at_char(w, m, *cx.env, *name),
    ensures
        crate::laws::char_element::leaves_char(
            w,
            m,
            m,
            crate::codegen::deref_read::plan_emit_deref_to_ax(cx, ptr),
            pointer_value(w, m, *cx.env, *name)->0,
            cx.env.local_pointee(name)->0.is_unsigned(),
        ),
{
    let plan = crate::codegen::deref_read::plan_emit_deref_to_ax(cx, ptr);
    assert(plan == crate::codegen::deref_read::plan_deref_local(cx, name));
    let t = cx.env.local_pointee(name)->0;
    let steps = plan->Emit_0;
    match cx.env.local(name)->0.loc {
        LocalLocation::Reg(r) => {
            crate::laws::char_element::char_loaded(w, m, cx, steps, t, crate::isa::at(r));
        },
        LocalLocation::Stack(off) => {
            let first = seq![
                crate::codegen::emitter::mov(
                    crate::isa::bx(),
                    crate::isa::word(crate::isa::bp(off)),
                ),
            ];
            let from = crate::isa::at(Reg::Bx);
            let rest = seq![
                crate::codegen::emitter::mov(crate::isa::al(), crate::isa::byte(from)),
                crate::codegen::emitter::widen_al(cx, t),
            ];
            assert(steps =~= first + rest);
            let m1 = crate::laws::steps::load_word(
                w,
                m,
                first,
                0,
                Reg::Bx,
                crate::isa::bp(off),
            );
            crate::machine::step_end(w, m1, first, 1);
            crate::laws::address::first_part(w, m, first, rest, m1);
            crate::laws::char_element::char_loaded(w, m1, cx, rest, t, from);
        },
    }
}

/// `*p = k` for a local near pointer to characters writes the low byte of
/// the constant at the address that `p` holds, and nothing else in memory
/// changes.
pub proof fn char_pointer_write<'a>(
    w: World<'a>,
    m: Machine,
    cx: Cx<'a>,
    target: &'a Expr,
    name: &'a String,
    value: &'a Expr,
    k: u32,
)
    requires
        m.wf(),
        target.kind == ExprKind::Ident(*name),
        points_at_char(w, m, *cx.env, *name),
        cx.env.const_of(value) == Some(k),
        value.kind is IntLit,
    ensures
        crate::laws::byte::leaves_byte(
            w,
            m,
            crate::codegen::deref_write::plan_emit_deref_assign(cx, target, value),
            pointer_value(w, m, *cx.env, *name)->0,
            k as int % 0x100,
        ),
{
    let plan = crate::codegen::deref_write::plan_emit_deref_assign(cx, target, value);
    assert(plan == crate::codegen::deref_write::plan_deref_assign_local(cx, name, 0, value));
    let steps = plan->Emit_0;
    let imm = Operand::<'a>::Imm(crate::isa::masked(k, true));
    match cx.env.local(name)->0.loc {
        LocalLocation::Reg(r) => {
            let store = crate::codegen::emitter::mov(crate::isa::byte(crate::isa::at(r)), imm);
            assert(steps =~= seq![store]);
            const_in_memory(w, m, steps, true, crate::isa::at(r), k);
        },
        LocalLocation::Stack(off) => {
            let first = seq![
                crate::codegen::emitter::mov(
                    crate::isa::bx(),
                    crate::isa::word(crate::isa::bp(off)),
                ),
            ];
            let to = crate::isa::at(Reg::Bx);
            let rest = seq![crate::codegen::emitter::mov(crate::isa::byte(to), imm)];
            assert(steps =~= first + rest);
            let m1 = crate::laws::steps::load_word(
                w,
                m,
                first,
                0,
                Reg::Bx,
                crate::isa::bp(off),
            );
            crate::machine::step_end(w, m1, first, 1);
            crate::laws::address::first_part(w, m, first, rest, m1);
            const_in_memory(w, m1, rest, true, to, k);
        },
    }
}

/// `*p op= k` for a local near pointer to characters in a register and a
/// direct operator leaves the 8-bit result at the address that `p` holds,
/// and nothing else in memory changes.
pub proof fn char_pointer_const_compound<'a>(
    w: World<'a>,
    m: Machine,
    cx: Cx<'a>,
    target: &'a Expr,
    name: &'a String,
    op: BinOp,
    value: &'a Expr,
    k: u32,
    from_postfix: bool,
)
    requires
        m.wf(),
        target.kind == ExprKind::Ident(*name),
        points_at_char(w, m, *cx.env, *name),
        cx.env.local(name)->0.loc is Reg,
        cx.env.const_of(value) == Some(k),
        crate::isa::is_direct(op),
    ensures
        crate::laws::byte::leaves_byte(
            w,
            m,
            crate::codegen::deref_write::plan_emit_deref_compound_assign(
                cx,
                target,
                op,
                value,
                from_postfix,
            ),
            pointer_value(w, m, *cx.env, *name)->0,
            crate::laws::byte::byte_result(
                op,
                m.byte_at(pointer_value(w, m, *cx.env, *name)->0),
                k as int % 0x100,
            ),
        ),
{
    let plan = crate::codegen::deref_write::plan_emit_deref_compound_assign(
        cx,
        target,
        op,
        value,
        from_postfix,
    );
    let steps = plan->Emit_0;
    let a = crate::isa::at(cx.env.local(name)->0.loc->Reg_0);
    if from_postfix && crate::isa::is_additive(op) && k == 1 {
        assert(plan == crate::codegen::deref_write::plan_deref_compound_step(
            cx,
            name,
            0,
            op,
            value,
            from_postfix,
        ));
        crate::laws::char_element::step_byte(w, m, steps, op, a);
    } else {
        assert(plan == crate::codegen::deref_write::plan_deref_compound_const(
            cx,
            name,
            0,
            op,
            k,
        ));
        if crate::isa::is_additive(op) {
            crate::laws::byte::sum_by_al(w, m, steps, a, op, k);
        } else {
            crate::laws::byte::direct_to_byte(w, m, steps, op, a, crate::isa::lo8(k));
        }
    }
}

} // verus!
