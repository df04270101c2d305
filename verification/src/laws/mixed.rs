//! Assignments to 32-bit file-scope variables from smaller integers, and
//! from 32-bit storage other than variables.

use vstd::prelude::*;
use crate::ast::{BinOp, Expr, ExprKind, Type};
use crate::codegen::emitter::{Cx, Step};
use crate::codegen::env::Env;
use crate::isa::{Addr, Mnemonic, Operand, Reg, Width};
use crate::machine::{Machine, World};

verus! {

/// The 32-bit number that a smaller file-scope integer is widened to: with
/// its sign, unless it is unsigned. `None` for any other type.
pub open spec fn widened_value<'a>(
    w: World<'a>,
    m: Machine,
    env: Env,
    name: &'a String,
) -> Option<int> {
    let at = (w.symbol)(name@);
    match env.global_type(name) {
        Some(Type::Char) => Some(
            crate::machine::with_sign(m.byte_at(at), true) % 0x1_0000_0000,
        ),
        Some(Type::UInt) => Some(m.word_at(at)),
        Some(Type::Int) => Some(crate::laws::branch::widened(m.word_at(at))),
        _ => None,
    }
}

/// A character loaded and widened with its sign into `dx:ax`.
proof fn char_widened<'a>(w: World<'a>, m: Machine, steps: Seq<Step<'a>>, a: Addr<'a>) -> (after:
    Machine)
    requires
        m.wf(),
        steps.len() >= 3,
        steps[0] == Step::Op2(Mnemonic::Mov, Operand::Reg(Reg::Al), Operand::Mem(Width::Byte, a)),
        steps[1] == Step::<'a>::Op0(Mnemonic::Cbw),
        steps[2] == Step::<'a>::Op0(Mnemonic::Cwd),
        m.locate(w, a) is Some,
    ensures
        crate::machine::run(w, m, steps, 0) == crate::machine::run(w, after, steps, 3),
        after.wf(),
        after.mem == m.mem,
        after.bp == m.bp,
        crate::machine::pair(after.dx, after.ax) == crate::machine::with_sign(
            m.byte_at(m.locate(w, a)->0),
            true,
        ) % 0x1_0000_0000,
{
    let b = m.byte_at(m.locate(w, a)->0);
    byte_in_word(m.ax, b);
    let m1 = Machine { ax: m.ax / 0x100 * 0x100 + b, ..m };
    assert(crate::machine::run_step(w, m, steps[0]) == Some(m1));
    crate::machine::step_on(w, m, steps, 0, m1);
    let m2 = Machine { ax: crate::machine::wrap(crate::machine::with_sign(b, true)), ..m1 };
    assert(crate::machine::run_step(w, m1, steps[1]) == Some(m2));
    crate::machine::step_on(w, m1, steps, 1, m2);
    let m3 = Machine { dx: if m2.ax >= 0x8000 { 0xFFFF } else { 0 }, ..m2 };
    assert(crate::machine::run_step(w, m2, steps[2]) == Some(m3));
    crate::machine::step_on(w, m2, steps, 2, m3);
    m3
}

/// A byte in the low half of a word, and its value with a sign as a word and
/// as a pair of words.
proof fn byte_in_word(x: int, b: int)
    requires
        0 <= x < 0x1_0000,
        0 <= b < 0x100,
    ensures
        0 <= x / 0x100 * 0x100 + b < 0x1_0000,
        (x / 0x100 * 0x100 + b) % 0x100 == b,
        ({
            let v = crate::machine::wrap(crate::machine::with_sign(b, true));
            &&& 0 <= v < 0x1_0000
            &&& crate::machine::pair(if v >= 0x8000 { 0xFFFF } else { 0 }, v)
                == crate::machine::with_sign(b, true) % 0x1_0000_0000
        }),
{
}

/// The code that widens a smaller file-scope integer.
#[verifier::rlimit(60)]
proof fn widening_plan<'a>(cx: Cx<'a>, name: &'a String, value: &'a Expr, source: &'a String)
    requires
        cx.env.is_long_global(name),
        cx.env.const_of(value) is None,
        crate::codegen::assign_global::widened_name(value) == Some(source),
        cx.env.global_type(source) matches Some(t) && (t is Char || t is UInt || t is Int),
        !cx.env.has(source),
    ensures
        crate::codegen::assign_global::plan_emit_assign_global(cx, name, value)
            == crate::codegen::assign_global::plan_global_long_widen(cx, name, value),
{
}

/// `x = i` and `x = (long)i` for a 32-bit and a smaller variable, both at
/// file scope, leave in `x` the smaller one widened, and nothing else in
/// memory changes.
#[verifier::rlimit(60)]
pub proof fn widening_assign<'a>(
    w: World<'a>,
    m: Machine,
    cx: Cx<'a>,
    name: &'a String,
    value: &'a Expr,
    source: &'a String,
)
    requires
        m.wf(),
        cx.env.is_long_global(name),
        cx.env.const_of(value) is None,
        crate::codegen::assign_global::widened_name(value) == Some(source),
        widened_value(w, m, *cx.env, source) is Some,
        !cx.env.has(source),
    ensures
        crate::laws::long::leaves_long(
            w,
            m,
            crate::codegen::assign_global::plan_emit_assign_global(cx, name, value),
            (w.symbol)(name@),
            widened_value(w, m, *cx.env, source)->0,
        ),
{
    let lo = crate::isa::global(name);
    let hi = crate::isa::global2(name);
    let from = crate::isa::global(source);
    let plan = crate::codegen::assign_global::plan_emit_assign_global(cx, name, value);
    widening_plan(cx, name, value, source);
    let steps = plan->Emit_0;
    match cx.env.global_type(source)->0 {
        Type::Char => {
            let now = char_widened(w, m, steps, from);
            crate::laws::assign::halves_stored(
                w,
                m,
                now,
                steps,
                3,
                lo,
                hi,
                Operand::Reg(Reg::Ax),
                Operand::Reg(Reg::Dx),
            );
        },
        Type::UInt => {
            let now = crate::laws::steps::load_word(w, m, steps, 0, Reg::Ax, from);
            crate::laws::assign::halves_stored(w, m, now, steps, 1, lo, hi, Operand::Reg(Reg::Ax), Operand::Imm(0));
        },
        _ => {
            let m1 = crate::laws::steps::load_word(w, m, steps, 0, Reg::Ax, from);
            let now = Machine { dx: if m1.ax >= 0x8000 { 0xFFFF } else { 0 }, ..m1 };
            crate::machine::step_on(w, m1, steps, 1, now);
            crate::laws::assign::halves_stored(
                w,
                m,
                now,
                steps,
                2,
                lo,
                hi,
                Operand::Reg(Reg::Ax),
                Operand::Reg(Reg::Dx),
            );
        },
    }
}

/// `g = g op i` for a 32-bit variable, an `int`, both at file scope, and a
/// direct operator leaves in `g` the 32-bit result with the `int` widened
/// with its sign. Nothing else in memory changes.
pub proof fn long_int_assign<'a>(
    w: World<'a>,
    m: Machine,
    cx: Cx<'a>,
    name: &'a String,
    value: &'a Expr,
    op: BinOp,
    left: &'a Box<Expr>,
    right: &'a Box<Expr>,
    i: &'a String,
)
    requires
        m.wf(),
        cx.env.is_long_global(name),
        cx.env.is_int_global(i),
        cx.env.const_of(value) is None,
        value.kind == (ExprKind::BinOp { op, left: *left, right: *right }),
        left.kind == ExprKind::Ident(*name),
        right.kind == ExprKind::Ident(*i),
        cx.env.const_of(&**right) is None,
        cx.env.facts(&**right).long_addrs is None,
        crate::isa::is_direct(op),
    ensures
        crate::laws::long::leaves_long(
            w,
            m,
            crate::codegen::assign_global::plan_emit_assign_global(cx, name, value),
            (w.symbol)(name@),
            crate::machine::long_result(
                op,
                m.long_at((w.symbol)(name@)),
                crate::laws::branch::widened(m.word_at((w.symbol)(i@))),
            ),
        ),
{
    let lo = crate::isa::global(name);
    let hi = crate::isa::global2(name);
    let plan = crate::codegen::assign_global::plan_emit_assign_global(cx, name, value);
    assert(plan == crate::codegen::assign_global::plan_global_long_op_int(cx, name, value));
    let steps = plan->Emit_0;
    let m1 = crate::laws::steps::load_word(w, m, steps, 0, Reg::Ax, crate::isa::global(i));
    let m2 = Machine { dx: if m1.ax >= 0x8000 { 0xFFFF } else { 0 }, ..m1 };
    crate::machine::step_on(w, m1, steps, 1, m2);
    assert(crate::machine::pair(m2.dx, m2.ax) == crate::laws::branch::widened(m1.ax));
    let m3 = crate::laws::steps::load_word(w, m2, steps, 2, Reg::Bx, hi);
    let m4 = crate::laws::steps::load_word(w, m3, steps, 3, Reg::Cx, lo);
    let m5 = crate::laws::steps::direct_to_registers(
        w,
        m4,
        steps,
        4,
        op,
        Reg::Cx,
        Reg::Bx,
        Operand::Reg(Reg::Ax),
        Operand::Reg(Reg::Dx),
    );
    crate::laws::assign::halves_stored(w, m, m5, steps, 6, lo, hi, Operand::Reg(Reg::Cx), Operand::Reg(Reg::Bx));
}

/// `g = i + g` for a 32-bit variable and an `int`, both at file scope,
/// leaves in `g` the 32-bit sum with the `int` widened with its sign.
/// Nothing else in memory changes.
pub proof fn int_long_sum<'a>(
    w: World<'a>,
    m: Machine,
    cx: Cx<'a>,
    name: &'a String,
    value: &'a Expr,
    left: &'a Box<Expr>,
    right: &'a Box<Expr>,
    i: &'a String,
)
    requires
        m.wf(),
        cx.env.is_long_global(name),
        cx.env.is_int_global(i),
        cx.env.const_of(value) is None,
        value.kind == (ExprKind::BinOp { op: BinOp::Add, left: *left, right: *right }),
        left.kind == ExprKind::Ident(*i),
        right.kind == ExprKind::Ident(*name),
        cx.env.const_of(&**right) is None,
        cx.env.facts(&**left).long_addrs is None,
    ensures
        crate::laws::long::leaves_long(
            w,
            m,
            crate::codegen::assign_global::plan_emit_assign_global(cx, name, value),
            (w.symbol)(name@),
            crate::machine::long_result(
                BinOp::Add,
                crate::laws::branch::widened(m.word_at((w.symbol)(i@))),
                m.long_at((w.symbol)(name@)),
            ),
        ),
{
    let lo = crate::isa::global(name);
    let hi = crate::isa::global2(name);
    let at = (w.symbol)(name@);
    let plan = crate::codegen::assign_global::plan_emit_assign_global(cx, name, value);
    assert(plan == crate::codegen::assign_global::plan_global_long_int_plus(cx, name, value));
    let steps = plan->Emit_0;
    let m1 = crate::laws::steps::load_word(w, m, steps, 0, Reg::Ax, crate::isa::global(i));
    let m2 = Machine { dx: if m1.ax >= 0x8000 { 0xFFFF } else { 0 }, ..m1 };
    crate::machine::step_on(w, m1, steps, 1, m2);
    assert(crate::machine::pair(m2.dx, m2.ax) == crate::laws::branch::widened(m1.ax));
    crate::machine::word_range(m.mem, at);
    crate::machine::word_range(m.mem, at + 2);
    let m3 = crate::laws::steps::direct_to_registers(
        w,
        m2,
        steps,
        2,
        BinOp::Add,
        Reg::Ax,
        Reg::Dx,
        Operand::Mem(Width::Word, lo),
        Operand::Mem(Width::Word, hi),
    );
    crate::laws::assign::halves_stored(w, m, m3, steps, 4, lo, hi, Operand::Reg(Reg::Ax), Operand::Reg(Reg::Dx));
}

/// `x = *p` for a 32-bit file-scope variable and a pointer to 32-bit
/// integers in a register that forms addresses leaves in `x` the 32-bit
/// number at the address that `p` holds, and nothing else in memory changes.
pub proof fn long_pointer_read<'a>(
    w: World<'a>,
    m: Machine,
    cx: Cx<'a>,
    name: &'a String,
    value: &'a Expr,
    inner: &'a Box<Expr>,
    p: &'a String,
    r: Reg,
)
    requires
        m.wf(),
        cx.env.is_long_global(name),
        cx.env.const_of(value) is None,
        value.kind == ExprKind::Deref(*inner),
        inner.kind == ExprKind::Ident(*p),
        cx.env.local_pointee(p) matches Some(t) && t.is_long_like(),
        cx.env.reg_of(p) == Some(r),
        r == Reg::Bx || r == Reg::Si || r == Reg::Di,
    ensures
        crate::laws::long::leaves_long(
            w,
            m,
            crate::codegen::assign_global::plan_emit_assign_global(cx, name, value),
            (w.symbol)(name@),
            m.long_at(m.reg(r)->0),
        ),
{
    let lo = crate::isa::global(name);
    let hi = crate::isa::global2(name);
    let plan = crate::codegen::assign_global::plan_emit_assign_global(cx, name, value);
    assert(plan == crate::codegen::assign_global::plan_global_long_deref(cx, name, value));
    let steps = plan->Emit_0;
    let m1 = crate::laws::steps::load_word(w, m, steps, 0, Reg::Ax, crate::isa::at2(r));
    let m2 = crate::laws::steps::load_word(w, m1, steps, 1, Reg::Dx, crate::isa::at(r));
    crate::laws::assign::halves_stored(w, m, m2, steps, 2, lo, hi, Operand::Reg(Reg::Dx), Operand::Reg(Reg::Ax));
}

/// `x = a[k]` for a 32-bit file-scope variable and a constant element of a
/// file-scope array of 32-bit integers leaves in `x` the number that lies
/// `k` elements behind the start of the array, and nothing else in memory
/// changes.
pub proof fn long_element_read<'a>(
    w: World<'a>,
    m: Machine,
    cx: Cx<'a>,
    name: &'a String,
    value: &'a Expr,
    array: &'a Box<Expr>,
    index: &'a Box<Expr>,
    a: &'a String,
    k: u32,
)
    requires
        m.wf(),
        cx.env.is_long_global(name),
        cx.env.const_of(value) is None,
        value.kind == (ExprKind::ArrayIndex { array: *array, index: *index }),
        array.kind == ExprKind::Ident(*a),
        cx.env.local_elem(a) is None,
        cx.env.global_elem(a) matches Some(t) && t.is_long_like(),
        cx.env.const_of(&**index) == Some(k),
        k < 0x2000_0000,
    ensures
        crate::laws::long::leaves_long(
            w,
            m,
            crate::codegen::assign_global::plan_emit_assign_global(cx, name, value),
            (w.symbol)(name@),
            m.long_at((w.symbol)(a@) + 4 * k),
        ),
{
    let lo = crate::isa::global(name);
    let hi = crate::isa::global2(name);
    let off = crate::isa::scaled(k, 4);
    let plan = crate::codegen::assign_global::plan_emit_assign_global(cx, name, value);
    assert(plan == crate::codegen::assign_global::plan_global_long_global_elem(cx, name, value));
    assert(off == 4 * k);
    let steps = plan->Emit_0;
    let from = crate::isa::global_at(a, crate::isa::disp(off));
    let from2 = crate::isa::global_at(a, crate::isa::disp2(off));
    let m1 = crate::laws::steps::load_word(w, m, steps, 0, Reg::Ax, from2);
    let m2 = crate::laws::steps::load_word(w, m1, steps, 1, Reg::Dx, from);
    crate::laws::assign::halves_stored(w, m, m2, steps, 2, lo, hi, Operand::Reg(Reg::Dx), Operand::Reg(Reg::Ax));
}

} // verus!
