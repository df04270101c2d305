//! 32-bit values of every form assigned to variables, and words at file
//! scope.

use vstd::prelude::*;
use crate::ast::{BinOp, Expr, ExprKind, MemberKind, Type, UpdateOp, UpdatePosition};
use crate::codegen::emitter::{Cx, Step};
use crate::codegen::env::LocalLocation;
use crate::isa::{Addr, Operand, Reg, Width};
use crate::laws::line::{puts_byte, puts_word};
use crate::laws::long::{leaves_long, leaves_long_since};
use crate::laws::target::put_at;
use crate::machine::{Machine, World};

verus! {

/// Two words loaded, the high one first, and stored, the high one first.
pub proof fn pair_copied<'a>(
    w: World<'a>,
    m: Machine,
    steps: Seq<Step<'a>>,
    to_lo: Addr<'a>,
    to_hi: Addr<'a>,
    lo: Addr<'a>,
    hi: Addr<'a>,
) -> (after: Machine)
    requires
        m.wf(),
        crate::laws::steps::are_halves(w, m, to_lo, to_hi),
        crate::laws::target::is_kept_address(lo),
        crate::laws::target::is_kept_address(hi),
        m.locate(w, lo) is Some,
        m.locate(w, hi) == Some(m.locate(w, lo)->0 + 2),
        steps.len() >= 4,
        steps.take(4) =~= seq![
            crate::codegen::emitter::mov(crate::isa::ax::<'a>(), crate::isa::word(hi)),
            crate::codegen::emitter::mov(crate::isa::dx::<'a>(), crate::isa::word(lo)),
            crate::codegen::emitter::mov(crate::isa::word(to_hi), crate::isa::ax::<'a>()),
            crate::codegen::emitter::mov(crate::isa::word(to_lo), crate::isa::dx::<'a>()),
        ],
    ensures
        crate::machine::run(w, m, steps, 0) == crate::machine::run(w, after, steps, 4),
        after.wf(),
        after.long_at(m.locate(w, to_lo)->0) == m.long_at(m.locate(w, lo)->0),
        crate::machine::same_but(after.mem, m.mem, m.locate(w, to_lo)->0, 4),
        crate::laws::line::same_holders(after, m),
        after.bx == m.bx,
{
    assert(steps[0] == steps.take(4)[0]);
    assert(steps[1] == steps.take(4)[1]);
    assert(steps[2] == steps.take(4)[2]);
    assert(steps[3] == steps.take(4)[3]);
    let m1 = crate::laws::steps::load_word(w, m, steps, 0, Reg::Ax, hi);
    crate::laws::target::kept_place(w, m, m1, lo);
    let m2 = crate::laws::steps::load_word(w, m1, steps, 1, Reg::Dx, lo);
    crate::laws::steps::store_pair(
        w,
        m2,
        steps,
        2,
        to_lo,
        to_hi,
        crate::isa::dx(),
        crate::isa::ax(),
    )
}

/// `x = f()` for a 32-bit variable on the stack leaves there the pair that
/// the call leaves in `dx:ax`, and changes no other memory than the call.
pub proof fn long_call_assigned<'a>(
    w: World<'a>,
    m: Machine,
    cx: Cx<'a>,
    off: i16,
    ty: &'a Type,
    value: &'a Expr,
)
    requires
        ty.is_long_like(),
        value.kind is Call,
        cx.env.const_of(value) is None,
        crate::laws::long::evaluates(w, m, cx, value),
    ensures
        ({
            let called = crate::laws::long::evaluated(w, m, cx, value);
            leaves_long_since(
                w,
                m,
                called,
                crate::codegen::assign_local::plan_emit_assign_local(
                    cx,
                    LocalLocation::Stack(off),
                    ty,
                    value,
                ),
                m.bp + off,
                crate::machine::pair(called.dx, called.ax),
            )
        }),
{
    let plan = crate::codegen::assign_local::plan_emit_assign_local(
        cx,
        LocalLocation::Stack(off),
        ty,
        value,
    );
    assert(plan == crate::codegen::assign_local::plan_local_long_call(cx, off, value));
    let steps = plan->Emit_0;
    let called = crate::laws::long::evaluated(w, m, cx, value);
    crate::machine::step_on(w, m, steps, 0, called);
    let after = crate::laws::steps::store_pair(
        w,
        called,
        steps,
        1,
        crate::isa::bp(off),
        crate::isa::bp2(off),
        crate::isa::ax(),
        crate::isa::dx(),
    );
    crate::machine::step_end(w, after, steps, 3);
}

/// `x = e` for a 32-bit variable on the stack and a smaller integer leaves
/// there its value, widened with its sign unless it is unsigned. No other
/// memory changes.
#[verifier::rlimit(60)]
pub proof fn long_widened<'a>(
    w: World<'a>,
    m: Machine,
    cx: Cx<'a>,
    off: i16,
    ty: &'a Type,
    value: &'a Expr,
    x: int,
)
    requires
        m.wf(),
        ty.is_long_like(),
        cx.env.const_of(value) is None,
        value.kind matches ExprKind::Ident(n) && cx.env.has(&n) && !cx.env.is_long_global(&n)
            && !cx.env.is_long_local(&n),
        !cx.env.expr_is_long_like(value),
        crate::laws::rows::is_computed_as(w, m, cx, value, x),
    ensures
        leaves_long(
            w,
            m,
            crate::codegen::assign_local::plan_emit_assign_local(
                cx,
                LocalLocation::Stack(off),
                ty,
                value,
            ),
            m.bp + off,
            crate::machine::pair(
                if !cx.env.facts(value).unsigned_int && x >= 0x8000 { 0xFFFF } else { 0 },
                x,
            ),
        ),
{
    let plan = crate::codegen::assign_local::plan_emit_assign_local(
        cx,
        LocalLocation::Stack(off),
        ty,
        value,
    );
    assert(plan == crate::codegen::assign_local::plan_local_long_widen(cx, off, value));
    let steps = plan->Emit_0;
    assert(crate::laws::address::same_variables(m, m));
    let m1 = crate::laws::long::evaluated(w, m, cx, value);
    crate::machine::step_on(w, m, steps, 0, m1);
    let unsigned = cx.env.facts(value).unsigned_int;
    let m2 = crate::laws::integer::ax_widened(w, m1, steps, 1, unsigned);
    let after = crate::laws::steps::store_pair(
        w,
        m2,
        steps,
        2,
        crate::isa::bp(off),
        crate::isa::bp2(off),
        crate::isa::ax(),
        crate::isa::dx(),
    );
    crate::machine::step_end(w, after, steps, 4);
}

/// `x = y << 16` for a 32-bit variable on the stack and another one in memory
/// leaves the low word of `y` in the high word and zero in the low one. No
/// other memory changes.
pub proof fn long_shifted_by_word<'a>(
    w: World<'a>,
    m: Machine,
    cx: Cx<'a>,
    off: i16,
    ty: &'a Type,
    value: &'a Expr,
    left: &'a Box<Expr>,
    right: &'a Box<Expr>,
    hi: &'a String,
    lo: &'a String,
)
    requires
        m.wf(),
        ty.is_long_like(),
        cx.env.const_of(value) is None,
        value.kind == (ExprKind::BinOp { op: BinOp::Shl, left: *left, right: *right }),
        right.kind !is Ident,
        cx.env.const_of(&**right) == Some(16u32),
        cx.env.facts(&**left).long_addrs == Some((*hi, *lo)),
    ensures
        leaves_long(
            w,
            m,
            crate::codegen::assign_local::plan_emit_assign_local(
                cx,
                LocalLocation::Stack(off),
                ty,
                value,
            ),
            m.bp + off,
            crate::machine::pair(m.word_at((w.place)(lo@)), 0),
        ),
{
    let plan = crate::codegen::assign_local::plan_emit_assign_local(
        cx,
        LocalLocation::Stack(off),
        ty,
        value,
    );
    assert(plan == crate::codegen::assign_local::plan_local_long_shift_word(cx, off, value));
    let steps = plan->Emit_0;
    let halves = &cx.env.facts(&**left).long_addrs->0;
    let from = Addr::Text(&halves.1);
    let m1 = crate::laws::steps::load_word(w, m, steps, 0, Reg::Ax, from);
    let after = crate::laws::steps::store_pair(
        w,
        m1,
        steps,
        1,
        crate::isa::bp(off),
        crate::isa::bp2(off),
        Operand::Imm(0),
        crate::isa::ax(),
    );
    crate::machine::step_end(w, after, steps, 3);
}

/// `x = *p++` for a 32-bit variable on the stack and a pointer in a register
/// copies both words from where `p` pointed, and moves `p` on by four. No
/// other memory changes.
pub proof fn long_pointed_assigned<'a>(
    w: World<'a>,
    m: Machine,
    cx: Cx<'a>,
    off: i16,
    ty: &'a Type,
    value: &'a Expr,
    inner: &'a Box<Expr>,
    name: &'a String,
    r: Reg,
)
    requires
        m.wf(),
        ty.is_long_like(),
        cx.env.const_of(value) is None,
        value.kind == ExprKind::Deref(*inner),
        inner.kind == (ExprKind::Update {
            target: *name,
            op: UpdateOp::Inc,
            position: UpdatePosition::Post,
        }),
        cx.env.local_pointee(name) matches Some(t) && t.is_long_like(),
        cx.env.reg_of(name) == Some(r),
        r == Reg::Si || r == Reg::Di,
    ensures
        ({
            let plan = crate::codegen::assign_local::plan_emit_assign_local(
                cx,
                LocalLocation::Stack(off),
                ty,
                value,
            );
            &&& leaves_long(w, m, plan, m.bp + off, m.long_at(m.reg(r)->0))
            &&& crate::laws::line::same_holders(
                crate::machine::run(w, m, plan->Emit_0, 0)->Through_0,
                m.with_reg(r, crate::machine::wrap(m.reg(r)->0 + 4))->0,
            )
        }),
{
    let plan = crate::codegen::assign_local::plan_emit_assign_local(
        cx,
        LocalLocation::Stack(off),
        ty,
        value,
    );
    assert(plan == crate::codegen::assign_local::plan_local_long_deref(cx, off, value));
    let steps = plan->Emit_0;
    let m1 = pair_copied(
        w,
        m,
        steps,
        crate::isa::bp(off),
        crate::isa::bp2(off),
        crate::isa::at(r),
        crate::isa::at2(r),
    );
    let four = Operand::<'a>::Imm(4);
    let after = crate::laws::steps::direct_to_register(w, m1, steps, 4, BinOp::Add, r, four);
    crate::machine::step_end(w, after, steps, 5);
}

/// `g = f()` for a 32-bit variable at file scope leaves there the pair that
/// the call leaves in `dx:ax`, and changes no other memory than the call.
pub proof fn global_long_call_assigned<'a>(
    w: World<'a>,
    m: Machine,
    cx: Cx<'a>,
    name: &'a String,
    value: &'a Expr,
    f: &'a String,
    args: &'a Vec<Expr>,
)
    requires
        cx.env.global_type(name) matches Some(ty) && ty.is_long_like(),
        value.kind == (ExprKind::Call { name: *f, args: *args }),
        cx.env.const_of(value) is None,
        cx.env.ret_ty_of(f) matches Some(ret) && ret.is_long_like(),
        (w.work)(Step::CallFn(f, args), m).wf(),
    ensures
        ({
            let called = (w.work)(Step::CallFn(f, args), m);
            leaves_long_since(
                w,
                m,
                called,
                crate::codegen::assign_global::plan_emit_assign_global(cx, name, value),
                (w.symbol)(name@),
                crate::machine::pair(called.dx, called.ax),
            )
        }),
{
    let plan = crate::codegen::assign_global::plan_emit_assign_global(cx, name, value);
    assert(plan == crate::codegen::assign_global::plan_global_long_call(cx, name, value));
    let steps = plan->Emit_0;
    let called = (w.work)(Step::CallFn(f, args), m);
    crate::machine::step_on(w, m, steps, 0, called);
    let after = crate::laws::steps::store_pair(
        w,
        called,
        steps,
        1,
        crate::isa::global(name),
        crate::isa::global2(name),
        crate::isa::ax(),
        crate::isa::dx(),
    );
    crate::machine::step_end(w, after, steps, 3);
}

/// `g = s.f` for a 32-bit variable and a 32-bit member, both at file scope,
/// copies both words of the member. No other memory changes.
pub proof fn global_long_member_assigned<'a>(
    w: World<'a>,
    m: Machine,
    cx: Cx<'a>,
    name: &'a String,
    value: &'a Expr,
    base: &'a Box<Expr>,
    field: &'a String,
)
    requires
        m.wf(),
        cx.env.global_type(name) matches Some(ty) && ty.is_long_like(),
        value.kind == (ExprKind::Member { base: *base, field: *field, kind: MemberKind::Dot }),
        cx.env.const_of(value) is None,
        cx.env.facts(value).dot_chain matches Some(chain) && chain.ty.is_long_like()
            && cx.env.is_global(&chain.name),
    ensures
        leaves_long(
            w,
            m,
            crate::codegen::assign_global::plan_global_long_member(cx, name, value),
            (w.symbol)(name@),
            m.long_at(
                (w.symbol)((cx.env.facts(value).dot_chain->0).name@) + (cx.env.facts(
                    value,
                ).dot_chain->0).off,
            ),
        ),
{
    let plan = crate::codegen::assign_global::plan_global_long_member(cx, name, value);
    let chain = &cx.env.facts(value).dot_chain->0;
    let steps = plan->Emit_0;
    let after = pair_copied(
        w,
        m,
        steps,
        crate::isa::global(name),
        crate::isa::global2(name),
        crate::isa::global_at(&chain.name, crate::isa::disp(chain.off)),
        crate::isa::global_at(&chain.name, crate::isa::disp2(chain.off)),
    );
    crate::machine::step_end(w, after, steps, 4);
}

/// `g = a` and `g = &a[k]` for a pointer at file scope leave there the
/// address of the array or of its element. No other memory and no register
/// changes.
pub proof fn global_address_assigned<'a>(
    w: World<'a>,
    m: Machine,
    cx: Cx<'a>,
    name: &'a String,
    value: &'a Expr,
    array: &'a String,
    d: i32,
)
    requires
        m.wf(),
        cx.env.global_type(name) matches Some(ty) && ty is Pointer,
        cx.env.const_of(value) is None,
        (value.kind == ExprKind::Ident(*array) && d == 0 && cx.env.global_elem(array) is Some
            && cx.env.word_reg_of(array) is None) || (value.kind == (ExprKind::AddressOfArrayElem {
            array: *array,
            byte_offset: d,
        }) && cx.env.is_global(array)),
    ensures
        puts_word(
            w,
            m,
            crate::codegen::assign_global::plan_emit_assign_global(cx, name, value),
            (w.symbol)(name@),
            crate::machine::wrap((w.symbol)(array@) + d),
        ),
{
    let plan = crate::codegen::assign_global::plan_emit_assign_global(cx, name, value);
    let steps = plan->Emit_0;
    let s = crate::isa::offset_of(array, crate::isa::plus(d as i64));
    let to = crate::isa::global(name);
    let at = (w.symbol)(name@);
    assert(steps =~= seq![crate::codegen::emitter::mov(crate::isa::word(to), s)]);
    let x = crate::machine::wrap((w.symbol)(array@) + d);
    let after = put_at(w, m, steps, 0, false, to, s, at, at, x);
    crate::machine::step_end(w, after, steps, 1);
}

/// `g = e` for a character at file scope and a right side that is computed
/// leaves the low byte of its value there. No other memory and no register
/// changes that holds a variable.
pub proof fn global_char_computed<'a>(
    w: World<'a>,
    m: Machine,
    cx: Cx<'a>,
    name: &'a String,
    value: &'a Expr,
    x: int,
)
    requires
        m.wf(),
        cx.env.global_type(name) matches Some(ty) && ty.is_char_like(),
        cx.env.const_of(value) is None,
        value.kind is BinOp || value.kind is Call,
        crate::laws::rows::is_computed_as(w, m, cx, value, x),
    ensures
        puts_byte(
            w,
            m,
            crate::codegen::assign_global::plan_emit_assign_global(cx, name, value),
            (w.symbol)(name@),
            x % 0x100,
        ),
{
    let plan = crate::codegen::assign_global::plan_emit_assign_global(cx, name, value);
    let ty = cx.env.global_type(name)->0;
    assert(plan == crate::codegen::assign_global::plan_global_general(cx, name, ty, value));
    let to = crate::isa::global(name);
    assert(plan->Emit_0 =~= crate::codegen::common::plan_store_value(
        cx,
        true,
        to,
        value,
    )->Emit_0);
    crate::laws::target::stored_at(w, m, cx, true, to, value, x, (w.symbol)(name@));
}

/// `g = e` for an integer at file scope and a right side that is computed
/// leaves its value there. No other memory and no register changes that holds
/// a variable.
pub proof fn global_word_computed<'a>(
    w: World<'a>,
    m: Machine,
    cx: Cx<'a>,
    name: &'a String,
    value: &'a Expr,
    x: int,
)
    requires
        m.wf(),
        crate::laws::local::stores_ax(w),
        cx.env.global_type(name) matches Some(ty) && crate::codegen::env::is_plain_int(ty),
        cx.env.const_of(value) is None,
        value.kind is BinOp || value.kind is Call,
        crate::laws::rows::is_computed_as(w, m, cx, value, x),
    ensures
        puts_word(
            w,
            m,
            crate::codegen::assign_global::plan_emit_assign_global(cx, name, value),
            (w.symbol)(name@),
            x,
        ),
{
    let plan = crate::codegen::assign_global::plan_emit_assign_global(cx, name, value);
    let ty = cx.env.global_type(name)->0;
    assert(plan == crate::codegen::assign_global::plan_global_general(cx, name, ty, value));
    let to = crate::isa::global(name);
    let steps = plan->Emit_0;
    assert(crate::laws::address::same_variables(m, m));
    let m1 = crate::laws::long::evaluated(w, m, cx, value);
    crate::machine::step_on(w, m, steps, 0, m1);
    let store = Step::StoreCollapsed(Operand::Mem(Width::Word, to));
    assert(steps =~= seq![crate::codegen::emitter::to_ax(cx, value), store]);
    let after = (w.work)(store, m1);
    crate::machine::step_on(w, m1, steps, 1, after);
    crate::machine::step_end(w, after, steps, 2);
    crate::machine::word_written(m.mem, (w.symbol)(name@), x);
}

} // verus!
