//! Values of every form assigned to local variables.

use vstd::prelude::*;
use crate::ast::{BinOp, Expr, ExprKind, MemberKind, Type, UpdateOp, UpdatePosition};
use crate::codegen::emitter::{Cx, Plan, Step};
use crate::codegen::env::LocalLocation;
use crate::isa::{Addr, Operand, Reg, Width};
use crate::laws::line::{puts_byte, puts_word, sets_variable};
use crate::laws::target::put_at;
use crate::machine::{Machine, Outcome, World};

verus! {

/// `c = a[k]` for characters, `c` on the stack and `a` at file scope, copies
/// the byte `k` of the array. No other memory and no register changes that
/// holds a variable.
pub proof fn char_from_global_element<'a>(
    w: World<'a>,
    m: Machine,
    cx: Cx<'a>,
    off: i16,
    ty: &'a Type,
    value: &'a Expr,
    array: &'a Box<Expr>,
    index: &'a Box<Expr>,
    arr: &'a String,
    k: u32,
)
    requires
        m.wf(),
        ty.is_char_like(),
        cx.env.const_of(value) is None,
        value.kind == (ExprKind::ArrayIndex { array: *array, index: *index }),
        array.kind == ExprKind::Ident(*arr),
        cx.env.global_elem(arr) matches Some(t) && t.is_char_like(),
        cx.env.const_of(&**index) == Some(k),
        k <= 0x7FFF,
    ensures
        puts_byte(
            w,
            m,
            crate::codegen::assign_local::plan_emit_assign_local(
                cx,
                LocalLocation::Stack(off),
                ty,
                value,
            ),
            m.bp + off,
            m.byte_at(m.locate(w, crate::isa::global_at(arr, crate::isa::plus(k as i64)))->0),
        ),
{
    let plan = crate::codegen::assign_local::plan_emit_assign_local(
                cx,
                LocalLocation::Stack(off),
                ty,
                value,
            );
    assert(plan == crate::codegen::assign_local::plan_local_char_global_elem(cx, off, ty, value));
    let from = crate::isa::global_at(arr, crate::isa::plus(k as i64));
    let to = crate::isa::bp::<'a>(off);
    let steps = seq![
        crate::codegen::emitter::mov(crate::isa::al(), crate::isa::byte(from)),
        crate::codegen::emitter::mov(crate::isa::byte(to), crate::isa::al()),
    ];
    assert(plan->Emit_0 =~= steps);
    crate::laws::target::byte_moved(w, m, steps, from, to, m.bp + off);
}

/// `c = a[k]` for characters on the stack copies the byte `k` of the array.
/// No other memory and no register changes that holds a variable.
pub proof fn char_from_frame_element<'a>(
    w: World<'a>,
    m: Machine,
    cx: Cx<'a>,
    off: i16,
    ty: &'a Type,
    value: &'a Expr,
    array: &'a Box<Expr>,
    index: &'a Box<Expr>,
    arr: &'a String,
    base: i16,
    k: u32,
)
    requires
        m.wf(),
        ty.is_char_like(),
        cx.env.const_of(value) is None,
        value.kind == (ExprKind::ArrayIndex { array: *array, index: *index }),
        array.kind == ExprKind::Ident(*arr),
        cx.env.global_elem(arr) is None,
        cx.env.local_elem(arr) matches Some(t) && t.is_char_like(),
        cx.env.stack_of(arr) == Some(base),
        cx.env.const_of(&**index) == Some(k),
        k <= 0x7FFF,
    ensures
        puts_byte(
            w,
            m,
            crate::codegen::assign_local::plan_emit_assign_local(
                cx,
                LocalLocation::Stack(off),
                ty,
                value,
            ),
            m.bp + off,
            m.byte_at(m.locate(w, crate::isa::bp_plus::<'a>(base, k as i32))->0),
        ),
{
    let plan = crate::codegen::assign_local::plan_emit_assign_local(
                cx,
                LocalLocation::Stack(off),
                ty,
                value,
            );
    assert(plan == crate::codegen::assign_local::plan_local_char_local_elem(cx, off, ty, value));
    let from = crate::isa::bp_plus::<'a>(base, k as i32);
    let to = crate::isa::bp::<'a>(off);
    let steps = seq![
        crate::codegen::emitter::mov(crate::isa::al(), crate::isa::byte(from)),
        crate::codegen::emitter::mov(crate::isa::byte(to), crate::isa::al()),
    ];
    assert(plan->Emit_0 =~= steps);
    crate::laws::target::byte_moved(w, m, steps, from, to, m.bp + off);
}

/// `c = s.f` for characters, `c` on the stack and the member at a constant
/// place, copies the byte at the offset of the member in the struct.
pub proof fn char_from_member<'a>(
    w: World<'a>,
    m: Machine,
    cx: Cx<'a>,
    off: i16,
    ty: &'a Type,
    value: &'a Expr,
    base: &'a Box<Expr>,
    field: &'a String,
)
    requires
        m.wf(),
        ty.is_char_like(),
        cx.env.const_of(value) is None,
        value.kind == (ExprKind::Member { base: *base, field: *field, kind: MemberKind::Dot }),
        cx.env.facts(value).dot_chain matches Some(chain) && chain.ty.is_char_like()
            && cx.env.is_global(&chain.name),
    ensures
        puts_byte(
            w,
            m,
            crate::codegen::assign_local::plan_emit_assign_local(
                cx,
                LocalLocation::Stack(off),
                ty,
                value,
            ),
            m.bp + off,
            m.byte_at(m.locate(w, crate::isa::global_at(
                &(cx.env.facts(value).dot_chain->0).name,
                crate::isa::plus((cx.env.facts(value).dot_chain->0).off as i64),
            ))->0),
        ),
{
    let plan = crate::codegen::assign_local::plan_emit_assign_local(
                cx,
                LocalLocation::Stack(off),
                ty,
                value,
            );
    assert(plan == crate::codegen::assign_local::plan_local_char_member(cx, off, ty, value));
    let from = crate::isa::global_at(
                &(cx.env.facts(value).dot_chain->0).name,
                crate::isa::plus((cx.env.facts(value).dot_chain->0).off as i64),
            );
    let to = crate::isa::bp::<'a>(off);
    let steps = seq![
        crate::codegen::emitter::mov(crate::isa::al(), crate::isa::byte(from)),
        crate::codegen::emitter::mov(crate::isa::byte(to), crate::isa::al()),
    ];
    assert(plan->Emit_0 =~= steps);
    crate::laws::target::byte_moved(w, m, steps, from, to, m.bp + off);
}

/// `c = (char)x` for a variable in memory copies its low byte.
pub proof fn char_from_cast<'a>(
    w: World<'a>,
    m: Machine,
    cx: Cx<'a>,
    off: i16,
    ty: &'a Type,
    value: &'a Expr,
    to_ty: &'a Type,
    operand: &'a Box<Expr>,
    src: &'a String,
    from: Addr<'a>,
)
    requires
        m.wf(),
        ty.is_char_like(),
        cx.env.const_of(value) is None,
        value.kind == (ExprKind::Cast { ty: *to_ty, operand: *operand }),
        to_ty.is_char_like(),
        operand.kind == ExprKind::Ident(*src),
        crate::codegen::assign_local::frame_or_global(cx.env, src) == Some(from),
    ensures
        puts_byte(
            w,
            m,
            crate::codegen::assign_local::plan_emit_assign_local(
                cx,
                LocalLocation::Stack(off),
                ty,
                value,
            ),
            m.bp + off,
            m.byte_at(m.locate(w, from)->0),
        ),
{
    let plan = crate::codegen::assign_local::plan_emit_assign_local(
                cx,
                LocalLocation::Stack(off),
                ty,
                value,
            );
    assert(plan == crate::codegen::assign_local::plan_local_char_narrow(cx, off, ty, value));
    let from = from;
    let to = crate::isa::bp::<'a>(off);
    let steps = seq![
        crate::codegen::emitter::mov(crate::isa::al(), crate::isa::byte(from)),
        crate::codegen::emitter::mov(crate::isa::byte(to), crate::isa::al()),
    ];
    assert(plan->Emit_0 =~= steps);
    crate::laws::target::byte_moved(w, m, steps, from, to, m.bp + off);
}

/// `c = d` for characters in memory copies the byte.
pub proof fn char_from_char<'a>(
    w: World<'a>,
    m: Machine,
    cx: Cx<'a>,
    off: i16,
    ty: &'a Type,
    value: &'a Expr,
    src: &'a String,
    from: Addr<'a>,
)
    requires
        m.wf(),
        ty.is_char_like(),
        cx.env.const_of(value) is None,
        value.kind == ExprKind::Ident(*src),
        cx.env.has(src) || cx.env.is_global(src),
        crate::codegen::assign_local::is_char_variable(cx.env, src),
        crate::codegen::assign_local::frame_or_global(cx.env, src) == Some(from),
    ensures
        puts_byte(
            w,
            m,
            crate::codegen::assign_local::plan_emit_assign_local(
                cx,
                LocalLocation::Stack(off),
                ty,
                value,
            ),
            m.bp + off,
            m.byte_at(m.locate(w, from)->0),
        ),
{
    let plan = crate::codegen::assign_local::plan_emit_assign_local(
                cx,
                LocalLocation::Stack(off),
                ty,
                value,
            );
    assert(plan == crate::codegen::assign_local::plan_local_char_copy(cx, off, ty, value));
    let from = from;
    let to = crate::isa::bp::<'a>(off);
    let steps = seq![
        crate::codegen::emitter::mov(crate::isa::al(), crate::isa::byte(from)),
        crate::codegen::emitter::mov(crate::isa::byte(to), crate::isa::al()),
    ];
    assert(plan->Emit_0 =~= steps);
    crate::laws::target::byte_moved(w, m, steps, from, to, m.bp + off);
}

/// `c = (char)(x op k)` for a variable in memory, a constant and a direct
/// operator leaves the 8-bit result in `c`. No other memory and no register
/// changes that holds a variable.
pub proof fn char_from_arithmetic<'a>(
    w: World<'a>,
    m: Machine,
    cx: Cx<'a>,
    off: i16,
    ty: &'a Type,
    value: &'a Expr,
    to_ty: &'a Type,
    operand: &'a Box<Expr>,
    op: BinOp,
    left: &'a Box<Expr>,
    right: &'a Box<Expr>,
    src: &'a String,
    from: Addr<'a>,
    k: u32,
)
    requires
        m.wf(),
        ty.is_char_like(),
        cx.env.const_of(value) is None,
        value.kind == (ExprKind::Cast { ty: *to_ty, operand: *operand }),
        to_ty.is_char_like(),
        operand.kind == (ExprKind::BinOp { op, left: *left, right: *right }),
        crate::isa::is_direct(op),
        left.kind == ExprKind::Ident(*src),
        cx.env.const_of(&**right) == Some(k),
        crate::codegen::assign_local::frame_or_global(cx.env, src) == Some(from),
    ensures
        puts_byte(
            w,
            m,
            crate::codegen::assign_local::plan_emit_assign_local(
                cx,
                LocalLocation::Stack(off),
                ty,
                value,
            ),
            m.bp + off,
            crate::laws::byte::byte_result(
                op,
                m.byte_at(m.locate(w, from)->0),
                k as int % 0x100,
            ),
        ),
{
    let plan = crate::codegen::assign_local::plan_emit_assign_local(
                cx,
                LocalLocation::Stack(off),
                ty,
                value,
            );
    assert(plan == crate::codegen::assign_local::plan_local_char_arith(cx, off, ty, value));
    let steps = plan->Emit_0;
    let s = Operand::<'a>::Imm(crate::isa::lo8(k));
    let at = m.bp + off;
    let m1 = crate::laws::byte::load_al(w, m, steps, 0, from);
    let m2 = crate::laws::character::al_combined(w, m1, steps, 1, op, s, k as int % 0x100);
    let al = crate::isa::al::<'a>();
    let to = crate::isa::bp::<'a>(off);
    let after = put_at(w, m2, steps, 2, true, to, al, at, at, m2.ax);
    crate::machine::step_end(w, after, steps, 3);
}

/// `p = f` and `p = &f` for a function leave its address in `p`. No other
/// memory and no register changes.
pub proof fn function_assigned<'a>(
    w: World<'a>,
    m: Machine,
    cx: Cx<'a>,
    off: i16,
    ty: &'a Type,
    value: &'a Expr,
    f: &'a String,
)
    requires
        m.wf(),
        crate::codegen::assign_local::designated(value) == Some(f),
        !cx.env.has(f) && !cx.env.is_global(f) && cx.env.ret_ty_of(f) is Some,
    ensures
        puts_word(
            w,
            m,
            crate::codegen::assign_local::plan_emit_assign_local(
                cx,
                LocalLocation::Stack(off),
                ty,
                value,
            ),
            m.bp + off,
            crate::machine::wrap((w.symbol)(f@)),
        ),
{
    let plan = crate::codegen::assign_local::plan_emit_assign_local(
                cx,
                LocalLocation::Stack(off),
                ty,
                value,
            );
    assert(plan == crate::codegen::assign_local::plan_local_function(cx, off, value));
    let steps = plan->Emit_0;
    let to = crate::isa::bp::<'a>(off);
    let s = crate::isa::offset_of_code(f);
    let x = crate::machine::wrap((w.symbol)(f@));
    let at = m.bp + off;
    let after = put_at(w, m, steps, 0, false, to, s, at, at, x);
    crate::machine::step_end(w, after, steps, 1);
}

/// `p = a` for a file-scope array leaves its address in `p`. No other memory
/// and no register changes.
pub proof fn array_assigned<'a>(
    w: World<'a>,
    m: Machine,
    cx: Cx<'a>,
    off: i16,
    ty: &'a Type,
    value: &'a Expr,
    a: &'a String,
)
    requires
        m.wf(),
        ty is Pointer,
        cx.env.const_of(value) is None,
        value.kind == ExprKind::Ident(*a),
        cx.env.global_elem(a) is Some,
        cx.env.is_global(a),
    ensures
        puts_word(
            w,
            m,
            crate::codegen::assign_local::plan_emit_assign_local(
                cx,
                LocalLocation::Stack(off),
                ty,
                value,
            ),
            m.bp + off,
            crate::machine::wrap((w.symbol)(a@)),
        ),
{
    let plan = crate::codegen::assign_local::plan_emit_assign_local(
                cx,
                LocalLocation::Stack(off),
                ty,
                value,
            );
    assert(plan == crate::codegen::assign_local::plan_local_array(cx, off, ty, value));
    let steps = plan->Emit_0;
    let to = crate::isa::bp::<'a>(off);
    let s = crate::isa::offset_of(a, crate::isa::Disp::Zero);
    let x = crate::machine::wrap((w.symbol)(a@));
    let at = m.bp + off;
    let after = put_at(w, m, steps, 0, false, to, s, at, at, x);
    crate::machine::step_end(w, after, steps, 1);
}

/// `p = &a[k]` for a file-scope array leaves the address of the element in
/// `p`. No other memory and no register changes.
pub proof fn element_address_assigned<'a>(
    w: World<'a>,
    m: Machine,
    cx: Cx<'a>,
    off: i16,
    ty: &'a Type,
    value: &'a Expr,
    array: &'a String,
    d: i32,
)
    requires
        m.wf(),
        ty is Pointer,
        cx.env.const_of(value) is None,
        value.kind == (ExprKind::AddressOfArrayElem { array: *array, byte_offset: d }),
        cx.env.is_global(array),
    ensures
        puts_word(
            w,
            m,
            crate::codegen::assign_local::plan_emit_assign_local(
                cx,
                LocalLocation::Stack(off),
                ty,
                value,
            ),
            m.bp + off,
            crate::machine::wrap((w.symbol)(array@) + d),
        ),
{
    let plan = crate::codegen::assign_local::plan_emit_assign_local(
                cx,
                LocalLocation::Stack(off),
                ty,
                value,
            );
    assert(plan == crate::codegen::assign_local::plan_local_elem_address(cx, off, ty, value));
    let steps = plan->Emit_0;
    let to = crate::isa::bp::<'a>(off);
    let s = crate::isa::offset_of(array, crate::isa::plus(d as i64));
    let x = crate::machine::wrap((w.symbol)(array@) + d);
    let at = m.bp + off;
    let after = put_at(w, m, steps, 0, false, to, s, at, at, x);
    crate::machine::step_end(w, after, steps, 1);
}

/// `p = a + k` for a file-scope array leaves the address of its element `k`
/// in `p`. No other memory and no register changes.
pub proof fn array_sum_assigned<'a>(
    w: World<'a>,
    m: Machine,
    cx: Cx<'a>,
    off: i16,
    ty: &'a Type,
    value: &'a Expr,
    left: &'a Box<Expr>,
    right: &'a Box<Expr>,
    arr: &'a String,
    t: &'a Type,
    k: u32,
)
    requires
        m.wf(),
        ty is Pointer,
        cx.env.const_of(value) is None,
        value.kind == (ExprKind::BinOp { op: BinOp::Add, left: *left, right: *right }),
        left.kind == ExprKind::Ident(*arr),
        cx.env.global_elem(arr) == Some(t),
        t.is_countable(),
        cx.env.const_of(&**right) == Some(k),
        k * t.size() <= 0x7FFF,
    ensures
        puts_word(
            w,
            m,
            crate::codegen::assign_local::plan_emit_assign_local(
                cx,
                LocalLocation::Stack(off),
                ty,
                value,
            ),
            m.bp + off,
            crate::machine::wrap((w.symbol)(arr@) + k * t.size()),
        ),
{
    let plan = crate::codegen::assign_local::plan_emit_assign_local(
                cx,
                LocalLocation::Stack(off),
                ty,
                value,
            );
    assert(plan == crate::codegen::assign_local::plan_local_array_plus(cx, off, ty, value));
    let steps = plan->Emit_0;
    let to = crate::isa::bp::<'a>(off);
    let s = crate::isa::offset_of(
        arr,
        crate::isa::plus(crate::isa::lo16(crate::isa::uscaled(k, t.size() as u16))),
    );
    let x = crate::machine::wrap((w.symbol)(arr@) + k * t.size());
    let at = m.bp + off;
    let after = put_at(w, m, steps, 0, false, to, s, at, at, x);
    crate::machine::step_end(w, after, steps, 1);
}

/// `c = e` for a character on the stack and a right side that is computed
/// leaves the low byte of its value in `c`. No other memory and no register
/// changes that holds a variable.
pub proof fn char_computed<'a>(
    w: World<'a>,
    m: Machine,
    cx: Cx<'a>,
    off: i16,
    ty: &'a Type,
    value: &'a Expr,
    x: int,
)
    requires
        m.wf(),
        ty.is_char_like(),
        cx.env.const_of(value) is None,
        value.kind is BinOp || value.kind is Unary,
        crate::laws::rows::is_computed_as(w, m, cx, value, x),
    ensures
        puts_byte(
            w,
            m,
            crate::codegen::assign_local::plan_emit_assign_local(
                cx,
                LocalLocation::Stack(off),
                ty,
                value,
            ),
            m.bp + off,
            x % 0x100,
        ),
{
    let plan = crate::codegen::assign_local::plan_emit_assign_local(
                cx,
                LocalLocation::Stack(off),
                ty,
                value,
            );
    assert(plan == crate::codegen::assign_local::plan_local_general(cx, off, ty, value));
    let to = crate::isa::bp::<'a>(off);
    assert(plan->Emit_0 =~= crate::codegen::common::plan_store_value(
        cx,
        true,
        to,
        value,
    )->Emit_0);
    crate::laws::target::stored_at(w, m, cx, true, to, value, x, m.bp + off);
}

/// Whether the step that stores `ax` stores it as a word where it says,
/// however it is written in the end, and changes nothing else.
pub open spec fn stores_ax<'a>(w: World<'a>) -> bool {
    &&& forall|a: Addr<'a>, n: Machine|
        #![trigger (w.work)(Step::StoreCollapsed(Operand::Mem(Width::Word, a)), n)]
        n.wf() && n.locate(w, a) is Some ==> (w.work)(
            Step::StoreCollapsed(Operand::Mem(Width::Word, a)),
            n,
        ) == n.with_word(n.locate(w, a)->0, n.ax)
    &&& forall|r: Reg, n: Machine|
        #![trigger (w.work)(Step::StoreCollapsed(Operand::Reg(r)), n)]
        n.wf() && !r.is_byte() && n.reg(r) is Some ==> Some(
            (w.work)(Step::StoreCollapsed(Operand::Reg(r)), n),
        ) == n.with_reg(r, n.ax)
}

/// `x = e` for an integer on the stack and a right side that is computed
/// leaves its value in `x`. No other memory and no register changes that
/// holds a variable.
pub proof fn word_computed<'a>(
    w: World<'a>,
    m: Machine,
    cx: Cx<'a>,
    off: i16,
    ty: &'a Type,
    value: &'a Expr,
    x: int,
)
    requires
        m.wf(),
        stores_ax(w),
        crate::codegen::env::is_plain_int(ty),
        cx.env.const_of(value) is None,
        value.kind is BinOp || value.kind is Unary || value.kind is Call,
        value.kind matches ExprKind::BinOp { op, left: _, right: _ } ==> op != BinOp::Mod,
        crate::laws::rows::is_computed_as(w, m, cx, value, x),
    ensures
        puts_word(
            w,
            m,
            crate::codegen::assign_local::plan_emit_assign_local(
                cx,
                LocalLocation::Stack(off),
                ty,
                value,
            ),
            m.bp + off,
            x,
        ),
{
    let plan = crate::codegen::assign_local::plan_emit_assign_local(
                cx,
                LocalLocation::Stack(off),
                ty,
                value,
            );
    assert(plan == crate::codegen::assign_local::plan_local_general(cx, off, ty, value));
    let to = crate::isa::bp::<'a>(off);
    let steps = plan->Emit_0;
    assert(crate::laws::address::same_variables(m, m));
    let m1 = crate::laws::long::evaluated(w, m, cx, value);
    crate::machine::step_on(w, m, steps, 0, m1);
    let store = Step::StoreCollapsed(Operand::Mem(Width::Word, to));
    assert(steps =~= seq![crate::codegen::emitter::to_ax(cx, value), store]);
    let after = (w.work)(store, m1);
    crate::machine::step_on(w, m1, steps, 1, after);
    crate::machine::step_end(w, after, steps, 2);
    crate::machine::word_written(m.mem, m.bp + off, x);
}

/// A word in memory stepped by one.
proof fn word_stepped<'a>(
    w: World<'a>,
    m: Machine,
    steps: Seq<Step<'a>>,
    i: int,
    op: UpdateOp,
    a: Addr<'a>,
    at: int,
) -> (after: Machine)
    requires
        m.wf(),
        0 <= i < steps.len(),
        steps[i] == Step::Op1(crate::isa::update(op), Operand::Mem(Width::Word, a)),
        crate::laws::steps::is_fixed(a),
        m.locate(w, a) == Some(at),
    ensures
        crate::machine::run(w, m, steps, i) == crate::machine::run(w, after, steps, i + 1),
        crate::laws::steps::same_regs(after, m),
        after.mem == crate::machine::put_word(
            m.mem,
            at,
            crate::machine::word_result(crate::laws::copy::update_op(op), m.word_at(at), 1),
        ),
{
    let before = m.word_at(at);
    crate::machine::word_range(m.mem, at);
    let v = crate::machine::word_result(crate::laws::copy::update_op(op), before, 1);
    let d: int = if op == UpdateOp::Inc { 1 } else { -1 };
    let flags = m.flagged(
        v,
        false,
        m.carry,
        crate::machine::overflows(crate::machine::with_sign(before, false) + d, false),
    );
    let after = flags.with_word(at, v);
    assert(crate::machine::run_step(w, m, steps[i]) == Some(after));
    crate::machine::step_on(w, m, steps, i, after);
    after
}

/// `x = g++` and `x = g--` for an integer on the stack and one at file scope
/// leave the old value in `x` and step `g`. The two lie apart, and nothing
/// else in memory changes.
#[verifier::rlimit(60)]
pub proof fn global_update_assigned<'a>(
    w: World<'a>,
    m: Machine,
    cx: Cx<'a>,
    off: i16,
    ty: &'a Type,
    value: &'a Expr,
    name: &'a String,
    op: UpdateOp,
)
    requires
        m.wf(),
        crate::codegen::env::is_plain_int(ty),
        cx.env.const_of(value) is None,
        value.kind == (ExprKind::Update { target: *name, op, position: UpdatePosition::Post }),
        cx.env.word_reg_of(name) is None,
        cx.env.global_type(name) matches Some(gty) && crate::codegen::env::is_plain_int(gty),
        crate::machine::apart(m.bp + off, (w.symbol)(name@)),
        crate::machine::apart((w.symbol)(name@), m.bp + off),
    ensures
        ({
            let plan = crate::codegen::assign_local::plan_emit_assign_local(
                cx,
                LocalLocation::Stack(off),
                ty,
                value,
            );
            let g = (w.symbol)(name@);
            let stepped = crate::machine::word_result(
                crate::laws::copy::update_op(op),
                m.word_at(g),
                1,
            );
            let stored = crate::machine::put_word(m.mem, m.bp + off, m.word_at(g));
            &&& plan matches Plan::Emit(steps)
            &&& crate::machine::run(w, m, steps, 0) matches Outcome::Through(after)
            &&& after.mem == crate::machine::put_word(stored, g, stepped)
            &&& after.word_at(g) == stepped
            &&& after.word_at(m.bp + off) == m.word_at(g)
            &&& crate::laws::line::same_holders(after, m)
        }),
{
    let plan = crate::codegen::assign_local::plan_emit_assign_local(
                cx,
                LocalLocation::Stack(off),
                ty,
                value,
            );
    assert(plan == crate::codegen::assign_local::plan_local_post_global_word(
        cx,
        off,
        ty,
        value,
    ));
    let steps = plan->Emit_0;
    let g = (w.symbol)(name@);
    let a = crate::isa::global(name);
    let to = crate::isa::bp::<'a>(off);
    let before = m.word_at(g);
    crate::machine::word_range(m.mem, g);
    let m1 = crate::laws::steps::load_word(w, m, steps, 0, Reg::Ax, a);
    let m2 = crate::laws::steps::store_word(w, m1, steps, 1, to, crate::isa::ax());
    crate::machine::word_written(m.mem, m.bp + off, before);
    assert(m2.word_at(g) == before);
    let v = crate::machine::word_result(crate::laws::copy::update_op(op), before, 1);
    let after = word_stepped(w, m2, steps, 2, op, a, g);
    crate::machine::step_end(w, after, steps, 3);
    crate::machine::word_written(m2.mem, g, v);
}

/// `c = d++` and the other updates of a character in a register, assigned to
/// a character on the stack, leave there the old value, or the new one of a
/// prefix update, and step the register. No other memory changes.
#[verifier::rlimit(60)]
pub proof fn char_update_assigned<'a>(
    w: World<'a>,
    m: Machine,
    cx: Cx<'a>,
    off: i16,
    ty: &'a Type,
    value: &'a Expr,
    name: &'a String,
    op: UpdateOp,
    position: UpdatePosition,
    r: Reg,
)
    requires
        m.wf(),
        ty.is_char_like(),
        cx.env.const_of(value) is None,
        value.kind == (ExprKind::Update { target: *name, op, position }),
        cx.env.global_type(name) is None,
        cx.env.reg_of(name) == Some(r),
        crate::laws::character::is_low_holder(r),
    ensures
        ({
            let plan = crate::codegen::assign_local::plan_emit_assign_local(
                cx,
                LocalLocation::Stack(off),
                ty,
                value,
            );
            let stepped = crate::laws::byte::byte_result(
                crate::laws::copy::update_op(op),
                m.reg(r)->0,
                1,
            );
            let seen = if position == UpdatePosition::Pre { stepped } else { m.reg(r)->0 };
            &&& plan matches Plan::Emit(steps)
            &&& crate::machine::run(w, m, steps, 0) matches Outcome::Through(after)
            &&& after.byte_at(m.bp + off) == seen
            &&& crate::machine::same_but(after.mem, m.mem, m.bp + off, 1)
            &&& after.reg(r) == Some(stepped)
            &&& crate::laws::line::same_holders(after, m)
        }),
{
    let plan = crate::codegen::assign_local::plan_emit_assign_local(
                cx,
                LocalLocation::Stack(off),
                ty,
                value,
            );
    let steps = plan->Emit_0;
    let by = crate::laws::copy::update_op(op);
    let to = crate::isa::bp::<'a>(off);
    let al = crate::isa::al::<'a>();
    let at = m.bp + off;
    let from = Operand::<'a>::Reg(r);
    let m1 = crate::laws::stored::byte_in_al(w, m, steps, 0, from, m.reg(r)->0);
    if position == UpdatePosition::Pre {
        assert(plan == crate::codegen::assign_local::plan_local_pre_byte(cx, off, ty, value));
        let m2 = crate::laws::byte::step_al(w, m1, steps, 1, by);
        let m3 = crate::laws::character::low_moved(w, m2, steps, 2, r, al, m2.ax % 0x100);
        let after = put_at(w, m3, steps, 3, true, to, al, at, at, m3.ax);
        crate::machine::step_end(w, after, steps, 4);
    } else {
        assert(plan == crate::codegen::assign_local::plan_local_post_byte(cx, off, ty, value));
        let m2 = put_at(w, m1, steps, 1, true, to, al, at, at, m1.ax);
        let after = crate::laws::character::low_stepped(w, m2, steps, 2, by, r);
        crate::machine::step_end(w, after, steps, 3);
    }
}

/// `p = &a[k]` for a pointer in a register and a file-scope array leaves the
/// address of the element in `p`. No other variable and no memory changes.
pub proof fn register_element_address<'a>(
    w: World<'a>,
    m: Machine,
    cx: Cx<'a>,
    r: Reg,
    value: &'a Expr,
    array: &'a String,
    d: i32,
)
    requires
        m.wf(),
        crate::laws::register::is_holder(r),
        cx.env.const_of(value) is None,
        value.kind == (ExprKind::AddressOfArrayElem { array: *array, byte_offset: d }),
        cx.env.is_global(array),
    ensures
        sets_variable(w, m, crate::codegen::store_reg::plan_emit_store_reg(cx, r, value), r, crate::machine::wrap((w.symbol)(array@) + d)),
{
    let plan = crate::codegen::store_reg::plan_emit_store_reg(cx, r, value);
    let steps = plan->Emit_0;
    assert(plan == crate::codegen::store_reg::plan_reg_elem_address(cx, r, value));
    let s = crate::isa::offset_of(array, crate::isa::plus(d as i64));
    let after = crate::laws::steps::move_to_register(w, m, steps, 0, r, s);
    crate::machine::step_end(w, after, steps, 1);
}

/// `p = a` for a pointer in a register and a file-scope array leaves its
/// address in `p`. No other variable and no memory changes.
pub proof fn register_array_address<'a>(
    w: World<'a>,
    m: Machine,
    cx: Cx<'a>,
    r: Reg,
    value: &'a Expr,
    a: &'a String,
)
    requires
        m.wf(),
        crate::laws::register::is_holder(r),
        cx.env.const_of(value) is None,
        value.kind == ExprKind::Ident(*a),
        cx.env.global_elem(a) is Some,
    ensures
        sets_variable(w, m, crate::codegen::store_reg::plan_emit_store_reg(cx, r, value), r, crate::machine::wrap((w.symbol)(a@))),
{
    let plan = crate::codegen::store_reg::plan_emit_store_reg(cx, r, value);
    let steps = plan->Emit_0;
    assert(plan == crate::codegen::store_reg::plan_reg_array(cx, r, value));
    let s = crate::isa::offset_of(a, crate::isa::Disp::Zero);
    let after = crate::laws::steps::move_to_register(w, m, steps, 0, r, s);
    crate::machine::step_end(w, after, steps, 1);
}

/// `x = p->f` for an integer and a pointer to structs, both in registers,
/// leaves in `x` the word at the offset of the member behind `p`. No other
/// variable and no memory changes.
pub proof fn register_member<'a>(
    w: World<'a>,
    m: Machine,
    cx: Cx<'a>,
    r: Reg,
    value: &'a Expr,
    base: &'a Box<Expr>,
    field: &'a String,
    name: &'a String,
    from: Reg,
    offset: u16,
)
    requires
        m.wf(),
        crate::laws::register::is_holder(r),
        cx.env.const_of(value) is None,
        value.kind == (ExprKind::Member { base: *base, field: *field, kind: MemberKind::Arrow }),
        base.kind == ExprKind::Ident(*name),
        cx.env.reg_of(name) == Some(from),
        m.reg(from) is Some,
        cx.env.local_pointee(name) matches Some(t) && (t.struct_field_info(field) matches Some(f)
            && f.offset == offset && crate::codegen::store_reg::is_word(&f.ty)),
    ensures
        sets_variable(w, m, crate::codegen::store_reg::plan_emit_store_reg(cx, r, value), r, m.word_at(m.reg(from)->0 + offset)),
{
    let plan = crate::codegen::store_reg::plan_emit_store_reg(cx, r, value);
    let steps = plan->Emit_0;
    assert(plan == crate::codegen::store_reg::plan_reg_member(cx, r, value));
    let a = crate::isa::at_disp(from, crate::isa::plus(offset as i64));
    let after = crate::laws::steps::load_word(w, m, steps, 0, r, a);
    crate::machine::step_end(w, after, steps, 1);
}

/// `p = a + k` for a pointer in a register and an array on the stack leaves
/// the address of the element `k` in `p`. No other variable and no memory
/// changes.
pub proof fn register_frame_address<'a>(
    w: World<'a>,
    m: Machine,
    cx: Cx<'a>,
    r: Reg,
    value: &'a Expr,
    left: &'a Box<Expr>,
    right: &'a Box<Expr>,
    arr: &'a String,
    t: &'a Type,
    base: i16,
    k: u32,
)
    requires
        m.wf(),
        crate::laws::register::is_holder(r),
        cx.env.const_of(value) is None,
        value.kind == (ExprKind::BinOp { op: BinOp::Add, left: *left, right: *right }),
        left.kind == ExprKind::Ident(*arr),
        cx.env.local_elem(arr) == Some(t),
        t.size() == 1 || t.size() == 2,
        cx.env.stack_of(arr) == Some(base),
        cx.env.const_of(&**right) == Some(k),
        k < 0x4000,
        base + k * t.size() <= 0x7FFF,
    ensures
        sets_variable(w, m, crate::codegen::store_reg::plan_emit_store_reg(cx, r, value), r, crate::machine::wrap(m.bp + base + k * t.size())),
{
    let plan = crate::codegen::store_reg::plan_emit_store_reg(cx, r, value);
    let steps = plan->Emit_0;
    assert(plan == crate::codegen::store_reg::plan_reg_frame_const(cx, r, value));
    let slot = crate::isa::frame_elem::<'a>(base, k, t.size() as u16)->0;
    let m1 = crate::laws::steps::lea_to_register(w, m, steps, 0, Reg::Ax, slot);
    let after = crate::laws::steps::move_to_register(w, m1, steps, 1, r, crate::isa::ax());
    crate::machine::step_end(w, after, steps, 2);
}

/// `x = e` for an integer in a register and a right side that is computed
/// leaves its value in `x`. No other variable and no memory changes.
pub proof fn register_computed<'a>(
    w: World<'a>,
    m: Machine,
    cx: Cx<'a>,
    r: Reg,
    value: &'a Expr,
    x: int,
)
    requires
        m.wf(),
        crate::laws::register::is_holder(r),
        cx.env.const_of(value) is None,
        stores_ax(w),
        value.kind is Call || value.kind is Unary,
        crate::laws::rows::is_computed_as(w, m, cx, value, x),
    ensures
        sets_variable(w, m, crate::codegen::store_reg::plan_emit_store_reg(cx, r, value), r, x),
{
    let plan = crate::codegen::store_reg::plan_emit_store_reg(cx, r, value);
    let steps = plan->Emit_0;
    assert(plan == crate::codegen::store_reg::plan_reg_general(cx, r, value));
    assert(crate::laws::address::same_variables(m, m));
    let m1 = crate::laws::long::evaluated(w, m, cx, value);
    crate::machine::step_on(w, m, steps, 0, m1);
    let store = Step::<'a>::StoreCollapsed(Operand::Reg(r));
    let after = (w.work)(store, m1);
    crate::machine::step_on(w, m1, steps, 1, after);
    crate::machine::step_end(w, after, steps, 2);
}

/// `c = *p++` and `c = *p--` for a character on the stack and a pointer to
/// characters in a register copy the byte that `p` pointed at, and move `p`
/// by one. No other memory changes.
pub proof fn char_from_moved_pointer<'a>(
    w: World<'a>,
    m: Machine,
    cx: Cx<'a>,
    off: i16,
    ty: &'a Type,
    value: &'a Expr,
    inner: &'a Box<Expr>,
    name: &'a String,
    op: UpdateOp,
    r: Reg,
)
    requires
        m.wf(),
        ty.is_char_like(),
        cx.env.const_of(value) is None,
        value.kind == ExprKind::Deref(*inner),
        inner.kind == (ExprKind::Update { target: *name, op, position: UpdatePosition::Post }),
        cx.env.reg_of(name) == Some(r),
        r == Reg::Si || r == Reg::Di,
        cx.env.local_pointee(name) matches Some(t) && t.is_char_like(),
    ensures
        crate::laws::target::stores_and_moves(
            w,
            m,
            crate::codegen::assign_local::plan_emit_assign_local(
                cx,
                LocalLocation::Stack(off),
                ty,
                value,
            ),
            true,
            m.bp + off,
            m.byte_at(m.reg(r)->0),
            r,
            crate::machine::word_result(crate::laws::copy::update_op(op), m.reg(r)->0, 1),
        ),
{
    let plan = crate::codegen::assign_local::plan_emit_assign_local(
        cx,
        LocalLocation::Stack(off),
        ty,
        value,
    );
    assert(plan == crate::codegen::assign_local::plan_local_char_deref(cx, off, ty, value));
    let steps = plan->Emit_0;
    let at = m.bp + off;
    let to = crate::isa::bp::<'a>(off);
    let m1 = crate::laws::byte::load_al(w, m, steps, 0, crate::isa::at(r));
    let m2 = put_at(w, m1, steps, 1, true, to, crate::isa::al(), at, at, m1.ax);
    let by = crate::laws::copy::update_op(op);
    let after = crate::laws::word::step_register(w, m2, steps, 2, by, r);
    crate::machine::step_end(w, after, steps, 3);
}

/// `c = f()` for a character on the stack and a function that returns one
/// leaves there the byte that the call leaves in `al`, and changes no other
/// memory than the call.
pub proof fn char_call_assigned<'a>(
    w: World<'a>,
    m: Machine,
    cx: Cx<'a>,
    off: i16,
    ty: &'a Type,
    value: &'a Expr,
    f: &'a String,
    args: &'a Vec<Expr>,
)
    requires
        ty.is_char_like(),
        cx.env.const_of(value) is None,
        value.kind == (ExprKind::Call { name: *f, args: *args }),
        cx.env.ret_ty_of(f) matches Some(ret) && ret.is_char_like(),
        (w.work)(Step::CallFn(f, args), m).wf(),
    ensures
        ({
            let plan = crate::codegen::assign_local::plan_emit_assign_local(
                cx,
                LocalLocation::Stack(off),
                ty,
                value,
            );
            let called = (w.work)(Step::CallFn(f, args), m);
            &&& plan matches Plan::Emit(steps)
            &&& crate::machine::run(w, m, steps, 0) matches Outcome::Through(after)
            &&& after.byte_at(called.bp + off) == called.ax % 0x100
            &&& crate::machine::same_but(after.mem, called.mem, called.bp + off, 1)
            &&& crate::laws::steps::same_regs(after, called)
        }),
{
    let plan = crate::codegen::assign_local::plan_emit_assign_local(
        cx,
        LocalLocation::Stack(off),
        ty,
        value,
    );
    assert(plan == crate::codegen::assign_local::plan_local_char_call(cx, off, ty, value));
    let steps = plan->Emit_0;
    let called = (w.work)(Step::CallFn(f, args), m);
    crate::machine::step_on(w, m, steps, 0, called);
    let at = called.bp + off;
    let to = crate::isa::bp::<'a>(off);
    let after = put_at(w, called, steps, 1, true, to, crate::isa::al(), at, at, called.ax);
    crate::machine::step_end(w, after, steps, 2);
}

/// `x = a % b` for an integer on the stack stores what the step for a
/// remainder leaves in `dx`, and changes no other memory than that step.
pub proof fn remainder_assigned<'a>(
    w: World<'a>,
    m: Machine,
    cx: Cx<'a>,
    off: i16,
    ty: &'a Type,
    value: &'a Expr,
    left: &'a Box<Expr>,
    right: &'a Box<Expr>,
)
    requires
        crate::codegen::env::is_plain_int(ty),
        cx.env.const_of(value) is None,
        value.kind == (ExprKind::BinOp { op: BinOp::Mod, left: *left, right: *right }),
        (w.work)(Step::Remainder(&**left, &**right), m).wf(),
    ensures
        ({
            let plan = crate::codegen::assign_local::plan_emit_assign_local(
                cx,
                LocalLocation::Stack(off),
                ty,
                value,
            );
            let done = (w.work)(Step::Remainder(&**left, &**right), m);
            &&& plan matches Plan::Emit(steps)
            &&& crate::machine::run(w, m, steps, 0) matches Outcome::Through(after)
            &&& after.word_at(done.bp + off) == done.dx
            &&& crate::machine::same_but(after.mem, done.mem, done.bp + off, 2)
            &&& crate::laws::steps::same_regs(after, done)
        }),
{
    let plan = crate::codegen::assign_local::plan_emit_assign_local(
        cx,
        LocalLocation::Stack(off),
        ty,
        value,
    );
    assert(plan == crate::codegen::assign_local::plan_local_mod(cx, off, ty, value));
    let steps = plan->Emit_0;
    let done = (w.work)(Step::Remainder(&**left, &**right), m);
    crate::machine::step_on(w, m, steps, 0, done);
    let at = done.bp + off;
    let to = crate::isa::bp::<'a>(off);
    let after = put_at(w, done, steps, 1, false, to, crate::isa::dx(), at, at, done.dx);
    crate::machine::step_end(w, after, steps, 2);
}

} // verus!
