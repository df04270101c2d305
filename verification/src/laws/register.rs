//! Compound assignment to integers in registers.

use vstd::prelude::*;
use crate::ast::{BinOp, Expr, ExprKind, MemberKind, Type, UpdateOp, UpdatePosition};
use crate::codegen::emitter::{Cx, Plan, Step};
use crate::codegen::env::{Env, SourceKind};
use crate::isa::{Addr, Mnemonic, Operand, Reg, Width};
use crate::laws::compound::{divides, is_steadily, work};
use crate::laws::integer::is_in_register;
use crate::laws::line::{sets_register, sets_variable};
use crate::machine::{Machine, Outcome, World};

verus! {

/// Whether a register is one that variables are kept in whatever is
/// computed.
pub open spec fn is_holder(r: Reg) -> bool {
    r == Reg::Si || r == Reg::Di
}

/// Whether a variable that stands in a register, by what is known of it as
/// an operand, is in that register.
pub open spec fn is_where_known<'a>(m: Machine, env: Env, value: Expr, v: int) -> bool {
    env.facts(&value).source matches Some(src) && (src.kind matches SourceKind::Reg(by) ==> (
    is_holder(by) || by == Reg::Bx) && m.reg(by) == Some(v))
}

/// An operand known as text is worth the same as long as no variable
/// changes.
proof fn text_is_steady<'a>(w: World<'a>, m: Machine, text: &'a String, v: int)
    requires
        crate::laws::address::is_worth(w, m, *text, v),
    ensures
        is_steadily(w, m, Operand::Text(text), v),
{
    assert forall|n: Machine| crate::laws::address::same_variables(n, m) implies #[trigger] n.read(
        w,
        Operand::Text(text),
        false,
    ) == Some(v) by {}
}

/// `x *= y` for integers, `x` in a register, leaves the low 16 bits of the
/// product in `x`. No other variable and no memory changes.
#[verifier::rlimit(60)]
pub proof fn register_multiplied<'a>(
    w: World<'a>,
    m: Machine,
    cx: Cx<'a>,
    name: &'a String,
    value: &'a Expr,
    r: Reg,
    v: int,
)
    requires
        m.wf(),
        is_in_register(m, *cx.env, *name, r),
        is_holder(r),
        crate::laws::variable::is_operand_worth(w, m, *cx.env, *value, v),
        is_where_known(m, *cx.env, *value, v),
    ensures
        sets_variable(
            w,
            m,
            crate::codegen::compound_local::plan_emit_compound_assign(
                cx,
                name,
                BinOp::Mul,
                value,
            ),
            r,
            crate::machine::wrap(m.reg(r)->0 * v),
        ),
{
    let op = BinOp::Mul;
    let plan = crate::codegen::compound_local::plan_emit_compound_assign(cx, name, op, value);
    assert(plan == crate::codegen::compound_local::plan_word_mul(cx, r, op, value));
    let src = &cx.env.facts(value).source->0;
    let text = &src.word;
    let t = Operand::Text(text);
    text_is_steady(w, m, text, v);
    let first = seq![crate::codegen::emitter::mov(crate::isa::ax::<'a>(), Operand::Reg(r))];
    let last = seq![crate::codegen::emitter::mov(Operand::Reg(r), crate::isa::ax::<'a>())];
    match src.kind {
        SourceKind::Memory => {
            let steps = first + work(op, t, false) + last;
            assert(plan->Emit_0 =~= steps);
            crate::laws::compound::worked_in_register(w, m, steps, r, op, t, v, false);
        },
        SourceKind::Reg(by) => {
            let o = Operand::<'a>::Reg(by);
            let steps = first + work(op, o, false) + last;
            assert(plan->Emit_0 =~= steps);
            assert(is_steadily(w, m, o, v));
            crate::laws::compound::worked_in_register(w, m, steps, r, op, o, v, false);
        },
        _ => {
            let dx = Operand::<'a>::Reg(Reg::Dx);
            let ax = Operand::<'a>::Reg(Reg::Ax);
            let steps = plan->Emit_0;
            assert(steps =~= seq![
                crate::codegen::emitter::mov(ax, Operand::Reg(r)),
                crate::codegen::emitter::mov(dx, t),
                crate::codegen::emitter::imul(dx),
                crate::codegen::emitter::mov(Operand::Reg(r), ax),
            ]);
            let m1 = crate::laws::steps::move_to_register(w, m, steps, 0, Reg::Ax, Operand::Reg(r));
            assert(m1.read(w, t, false) == Some(v));
            let m2 = crate::laws::steps::move_to_register(w, m1, steps, 1, Reg::Dx, t);
            let m3 = crate::laws::integer::multiplied(w, m2, steps, 2, dx);
            let after = crate::laws::steps::move_to_register(w, m3, steps, 3, r, ax);
            crate::machine::step_end(w, after, steps, 4);
        },
    }
}

/// `x /= y` and `x %= y` for signed integers, `x` in a register, leave the
/// quotient or the remainder in `x`. No other variable and no memory changes.
#[verifier::rlimit(60)]
pub proof fn register_divided<'a>(
    w: World<'a>,
    m: Machine,
    cx: Cx<'a>,
    name: &'a String,
    op: BinOp,
    value: &'a Expr,
    r: Reg,
    v: int,
)
    requires
        m.wf(),
        is_in_register(m, *cx.env, *name, r),
        is_holder(r),
        crate::isa::is_division(op),
        crate::laws::variable::is_operand_worth(w, m, *cx.env, *value, v),
        divides(m.reg(r)->0, v, false),
    ensures
        sets_variable(
            w,
            m,
            crate::codegen::compound_local::plan_emit_compound_assign(cx, name, op, value),
            r,
            crate::laws::integer::word_divided(op, m.reg(r)->0, v, false),
        ),
{
    let plan = crate::codegen::compound_local::plan_emit_compound_assign(cx, name, op, value);
    assert(plan == crate::codegen::compound_local::plan_word_div(cx, r, op, value));
    let src = &cx.env.facts(value).source->0;
    let text = &src.word;
    let t = Operand::Text(text);
    text_is_steady(w, m, text, v);
    let ax = Operand::<'a>::Reg(Reg::Ax);
    let bx = Operand::<'a>::Reg(Reg::Bx);
    if src.kind == SourceKind::Memory {
        let steps = seq![crate::codegen::emitter::mov(ax, Operand::Reg(r))] + work(op, t, false)
            + seq![crate::codegen::emitter::mov(Operand::Reg(r), crate::isa::quotient::<'a>(op))];
        assert(plan->Emit_0 =~= steps);
        crate::laws::compound::worked_in_register(w, m, steps, r, op, t, v, false);
    } else {
        let steps = plan->Emit_0;
        let s = crate::isa::quotient::<'a>(op);
        assert(steps =~= seq![
            crate::codegen::emitter::mov(ax, Operand::Reg(r)),
            crate::codegen::emitter::cwd(),
            crate::codegen::emitter::mov(bx, t),
            crate::codegen::emitter::idiv(bx),
            crate::codegen::emitter::mov(Operand::Reg(r), s),
        ]);
        let m1 = crate::laws::steps::move_to_register(w, m, steps, 0, Reg::Ax, Operand::Reg(r));
        let m2 = crate::laws::integer::ax_widened(w, m1, steps, 1, false);
        assert(m2.read(w, t, false) == Some(v));
        let m3 = crate::laws::steps::move_to_register(w, m2, steps, 2, Reg::Bx, t);
        let m4 = divided_by_bx(w, m3, steps, 3);
        let after = crate::laws::steps::move_to_register(w, m4, steps, 4, r, s);
        crate::machine::step_end(w, after, steps, 5);
    }
}

/// The pair in `dx:ax`, widened with sign, divided by `bx`.
proof fn divided_by_bx<'a>(w: World<'a>, m: Machine, steps: Seq<Step<'a>>, i: int) -> (after:
    Machine)
    requires
        m.wf(),
        0 <= i < steps.len(),
        steps[i] == Step::<'a>::Op1(Mnemonic::Idiv, Operand::Reg(Reg::Bx)),
        m.dx == (if m.ax >= 0x8000 { 0xFFFFint } else { 0int }),
        divides(m.ax, m.bx, false),
    ensures
        crate::machine::run(w, m, steps, i) == crate::machine::run(w, after, steps, i + 1),
        after.wf(),
        after == (Machine { ax: after.ax, dx: after.dx, ..m }),
        after.ax == crate::laws::integer::word_divided(BinOp::Div, m.ax, m.bx, false),
        after.dx == crate::laws::integer::word_divided(BinOp::Mod, m.ax, m.bx, false),
{
    let x = crate::laws::compare::as_compared(m.ax, false, false);
    let y = crate::laws::compare::as_compared(m.bx, false, false);
    crate::laws::integer::quotient_fits(x, y);
    let after = Machine {
        ax: crate::machine::wrap(crate::machine::truncated(x, y)),
        dx: crate::machine::wrap(x - y * crate::machine::truncated(x, y)),
        ..m
    };
    assert(crate::machine::run_step(w, m, steps[i]) == Some(after)) by {
        reveal(crate::machine::divide);
        assert(crate::machine::signed_pair(crate::machine::pair(m.dx, m.ax)) == x);
    }
    crate::machine::step_on(w, m, steps, i, after);
    after
}

/// A count known as text, taken into `cl`.
pub proof fn text_in_cl<'a>(
    w: World<'a>,
    m: Machine,
    steps: Seq<Step<'a>>,
    i: int,
    text: &'a String,
) -> (after: Machine)
    requires
        m.wf(),
        0 <= i < steps.len(),
        steps[i] == Step::<'a>::Op2(Mnemonic::Mov, Operand::Reg(Reg::Cl), Operand::Text(text)),
    ensures
        crate::machine::run(w, m, steps, i) == crate::machine::run(w, after, steps, i + 1),
        after.wf(),
        after == (Machine { cx: after.cx, ..m }),
        after.cx % 0x100 == (w.operand)(text@, m) % 0x100,
{
    let n = (w.operand)(text@, m) % 0x100;
    crate::laws::byte::low_byte_replaced(m.cx, n);
    let after = Machine { cx: m.cx / 0x100 * 0x100 + n, ..m };
    assert(crate::machine::run_step(w, m, steps[i]) == Some(after));
    crate::machine::step_on(w, m, steps, i, after);
    after
}

/// `x <<= y` and `x >>= y` for an integer in a register leave there the
/// number shifted by the low byte of `y`, to the right with its sign unless
/// `x` is unsigned. No other variable and no memory changes.
pub proof fn register_shifted<'a>(
    w: World<'a>,
    m: Machine,
    cx: Cx<'a>,
    name: &'a String,
    op: BinOp,
    value: &'a Expr,
    r: Reg,
)
    requires
        m.wf(),
        is_in_register(m, *cx.env, *name, r),
        is_holder(r),
        crate::isa::is_shift(op),
        value.kind is Ident,
        cx.env.const_of(value) is None,
        cx.env.facts(value).source is Some,
    ensures
        sets_variable(
            w,
            m,
            crate::codegen::compound_local::plan_emit_compound_assign(cx, name, op, value),
            r,
            crate::laws::bitfield::shifted(
                crate::isa::shift(op, cx.env.is_unsigned_local(name)),
                m.reg(r)->0,
                ((w.operand)((cx.env.facts(value).source->0).byte@, m) % 0x100) as nat,
            ),
        ),
{
    let ty = &cx.env.local(name)->0.ty;
    let by = crate::isa::shift(op, ty.is_unsigned());
    let plan = crate::codegen::compound_local::plan_emit_compound_assign(cx, name, op, value);
    assert(plan == crate::codegen::compound_local::plan_word_shift(cx, r, ty, op, value));
    let steps = plan->Emit_0;
    let text = &(cx.env.facts(value).source->0).byte;
    let n = ((w.operand)(text@, m) % 0x100) as nat;
    let m1 = text_in_cl(w, m, steps, 0, text);
    let old_value = m.reg(r)->0;
    crate::laws::bitfield::shift_word(m1, by, old_value, n);
    let (v, flags) = crate::machine::shift_times(m1, by, old_value, false, n)->0;
    let after = flags.with_reg(r, v)->0;
    assert(crate::machine::run_step(w, m1, steps[1]) == Some(after));
    crate::machine::step_on(w, m1, steps, 1, after);
    crate::machine::step_end(w, after, steps, 2);
}

/// `x op= c` for an integer in a register, a direct operator and a character
/// that is widened as it is computed leaves the 16-bit result in `x`. No
/// other variable and no memory changes.
pub proof fn register_char_applied<'a>(
    w: World<'a>,
    m: Machine,
    cx: Cx<'a>,
    name: &'a String,
    op: BinOp,
    value: &'a Expr,
    c: &'a String,
    r: Reg,
    x: int,
)
    requires
        m.wf(),
        is_in_register(m, *cx.env, *name, r),
        is_holder(r),
        crate::isa::is_direct(op),
        value.kind == ExprKind::Ident(*c),
        cx.env.is_char_local(c),
        cx.env.const_of(value) is None,
        !cx.env.facts(value).needs_ax,
        crate::laws::rows::is_computed_as(w, m, cx, value, x),
    ensures
        sets_variable(
            w,
            m,
            crate::codegen::compound_local::plan_emit_compound_assign(cx, name, op, value),
            r,
            crate::machine::word_result(op, m.reg(r)->0, x),
        ),
{
    let plan = crate::codegen::compound_local::plan_emit_compound_assign(cx, name, op, value);
    assert(plan == crate::codegen::compound_local::plan_word_direct_char(cx, r, op, value));
    let steps = plan->Emit_0;
    let ax = Operand::<'a>::Reg(Reg::Ax);
    assert(crate::laws::address::same_variables(m, m));
    let m1 = crate::laws::long::evaluated(w, m, cx, value);
    crate::machine::step_on(w, m, steps, 0, m1);
    let after = crate::laws::steps::direct_to_register(w, m1, steps, 1, op, r, ax);
    crate::machine::step_end(w, after, steps, 2);
}

/// Whether the step that applies `ax` to a register applies its operator,
/// however it is written in the end, and changes nothing else.
pub open spec fn applies<'a>(w: World<'a>) -> bool {
    forall|op: BinOp, r: Reg, b: bool, n: Machine|
        #![trigger (w.work)(Step::ApplyCollapsed(crate::isa::direct(op), r, b), n)]
        n.wf() && crate::isa::is_direct(op) && is_holder(r) ==> {
            let after = (w.work)(Step::ApplyCollapsed(crate::isa::direct(op), r, b), n);
            &&& after.wf()
            &&& crate::laws::address::same_variables(
                after,
                n.with_reg(r, crate::machine::word_result(op, n.reg(r)->0, n.ax))->0,
            )
        }
}

/// `x op= e` for an integer in a register, a direct operator and a right
/// side that has to be computed leaves the 16-bit result in `x`. No other
/// variable and no memory changes.
pub proof fn register_applied<'a>(
    w: World<'a>,
    m: Machine,
    cx: Cx<'a>,
    name: &'a String,
    op: BinOp,
    value: &'a Expr,
    r: Reg,
    x: int,
)
    requires
        m.wf(),
        applies(w),
        is_in_register(m, *cx.env, *name, r),
        is_holder(r),
        crate::isa::is_direct(op),
        value.kind is BinOp || value.kind is Call,
        cx.env.const_of(value) is None,
        cx.env.facts(value).needs_ax,
        crate::laws::rows::is_computed_as(w, m, cx, value, x),
    ensures
        sets_variable(
            w,
            m,
            crate::codegen::compound_local::plan_emit_compound_assign(cx, name, op, value),
            r,
            crate::machine::word_result(op, m.reg(r)->0, x),
        ),
{
    let plan = crate::codegen::compound_local::plan_emit_compound_assign(cx, name, op, value);
    assert(plan == crate::codegen::compound_local::plan_word_computed(cx, r, op, value));
    let steps = plan->Emit_0;
    assert(crate::laws::address::same_variables(m, m));
    let m1 = crate::laws::long::evaluated(w, m, cx, value);
    crate::machine::step_on(w, m, steps, 0, m1);
    let b = op == BinOp::Add && !cx.env.facts(value).has_call;
    let after = (w.work)(Step::ApplyCollapsed(crate::isa::direct(op), r, b), m1);
    crate::machine::step_on(w, m1, steps, 1, after);
    crate::machine::step_end(w, after, steps, 2);
}

/// `x op= (int)l` for an integer in a register, a direct operator and a
/// 32-bit variable applies the low word of the variable. No other register
/// and no memory changes.
pub proof fn register_low_half_applied<'a>(
    w: World<'a>,
    m: Machine,
    cx: Cx<'a>,
    name: &'a String,
    op: BinOp,
    value: &'a Expr,
    ty: &'a Type,
    operand: &'a Box<Expr>,
    r: Reg,
    hi: &'a String,
    lo: &'a String,
)
    requires
        m.wf(),
        is_in_register(m, *cx.env, *name, r),
        crate::isa::is_direct(op),
        value.kind == (ExprKind::Cast { ty: *ty, operand: *operand }),
        crate::codegen::env::is_plain_int(ty),
        cx.env.facts(&**operand).long_addrs == Some((*hi, *lo)),
    ensures
        sets_register(
            w,
            m,
            crate::codegen::compound_local::plan_emit_compound_assign(cx, name, op, value),
            r,
            crate::machine::word_result(op, m.reg(r)->0, m.word_at((w.place)(lo@))),
        ),
{
    let plan = crate::codegen::compound_local::plan_emit_compound_assign(cx, name, op, value);
    assert(plan == crate::codegen::compound_local::plan_word_low_half(cx, r, op, value));
    let steps = plan->Emit_0;
    let halves = &cx.env.facts(&**operand).long_addrs->0;
    let s = Operand::Mem(Width::Word, Addr::Text(&halves.1));
    assert(steps =~= seq![Step::Op2(crate::isa::direct(op), Operand::Reg(r), s)]);
    crate::machine::word_range(m.mem, (w.place)(lo@));
    let after = crate::laws::steps::direct_to_register(w, m, steps, 0, op, r, s);
    crate::machine::step_end(w, after, steps, 1);
}

/// `x op= ++i` and the like, for two integers in registers: a prefix update
/// counts before the operator reads `i`, a postfix one behind it. `i` is
/// stepped, `x` has the 16-bit result, and nothing else changes.
pub proof fn register_update_applied<'a>(
    w: World<'a>,
    m: Machine,
    cx: Cx<'a>,
    name: &'a String,
    op: BinOp,
    value: &'a Expr,
    i: &'a String,
    up: UpdateOp,
    position: UpdatePosition,
    r: Reg,
    from: Reg,
)
    requires
        m.wf(),
        is_in_register(m, *cx.env, *name, r),
        is_holder(r),
        is_holder(from),
        r != from,
        crate::isa::is_direct(op),
        value.kind == (ExprKind::Update { target: *i, op: up, position }),
        cx.env.is_int_local(i),
        cx.env.word_reg_of(i) == Some(from),
    ensures
        ({
            let plan = crate::codegen::compound_local::plan_emit_compound_assign(
                cx,
                name,
                op,
                value,
            );
            let stepped = crate::machine::word_result(
                crate::laws::copy::update_op(up),
                m.reg(from)->0,
                1,
            );
            let seen = if position == UpdatePosition::Pre { stepped } else { m.reg(from)->0 };
            &&& plan matches Plan::Emit(steps)
            &&& crate::machine::run(w, m, steps, 0) matches Outcome::Through(after)
            &&& after.reg(r) == Some(crate::machine::word_result(op, m.reg(r)->0, seen))
            &&& after.reg(from) == Some(stepped)
            &&& after.mem == m.mem
            &&& crate::laws::steps::same_regs(after, Machine { si: after.si, di: after.di, ..m })
        }),
{
    let plan = crate::codegen::compound_local::plan_emit_compound_assign(cx, name, op, value);
    assert(plan == crate::codegen::compound_local::plan_word_update(cx, r, op, value));
    let steps = plan->Emit_0;
    let s = Operand::<'a>::Reg(from);
    let by = crate::laws::copy::update_op(up);
    if position == UpdatePosition::Pre {
        let m1 = crate::laws::word::step_register(w, m, steps, 0, by, from);
        let after = crate::laws::steps::direct_to_register(w, m1, steps, 1, op, r, s);
        crate::machine::step_end(w, after, steps, 2);
    } else {
        let m1 = crate::laws::steps::direct_to_register(w, m, steps, 0, op, r, s);
        let after = crate::laws::word::step_register(w, m1, steps, 1, by, from);
        crate::machine::step_end(w, after, steps, 2);
    }
}

/// The value of a subscript, of the value and the machine behind it.
pub open spec fn first_of(p: (int, Machine)) -> int {
    let (v, _) = p;
    v
}

/// A word in memory added to a register behind code that changes no variable.
proof fn word_added_behind<'a>(
    w: World<'a>,
    m: Machine,
    first: Seq<Step<'a>>,
    middle: Machine,
    a: Addr<'a>,
    at: int,
    r: Reg,
)
    requires
        crate::machine::run(w, m, first, 0) == Outcome::Through(middle),
        middle.wf(),
        crate::laws::address::same_variables(middle, m),
        is_holder(r),
        middle.locate(w, a) matches Some(near) && crate::machine::wrap(near)
            == crate::machine::wrap(at),
    ensures
        sets_variable(
            w,
            m,
            Plan::Emit(
                first + seq![
                    crate::codegen::emitter::add_to(Operand::Reg(r), crate::isa::word(a)),
                ],
            ),
            r,
            crate::machine::wrap(m.reg(r)->0 + m.word_at(at)),
        ),
{
    let near = middle.locate(w, a)->0;
    let s = Operand::Mem(Width::Word, a);
    let last = seq![crate::codegen::emitter::add_to(Operand::Reg(r), crate::isa::word(a))];
    crate::machine::word_range(m.mem, near);
    crate::laws::element::word_place_wraps(m.mem, near);
    crate::laws::element::word_place_wraps(m.mem, at);
    let after = crate::laws::steps::direct_to_register(w, middle, last, 0, BinOp::Add, r, s);
    crate::machine::step_end(w, after, last, 1);
    crate::laws::address::first_part(w, m, first, last, middle);
}

/// `x += a[i]` for an integer in a register, a file-scope array of words and
/// a variable adds the element `i`. No other variable and no memory changes.
#[verifier::rlimit(60)]
pub proof fn register_plus_global_element<'a>(
    w: World<'a>,
    m: Machine,
    cx: Cx<'a>,
    name: &'a String,
    value: &'a Expr,
    array: &'a Box<Expr>,
    index: &'a Box<Expr>,
    arr: &'a String,
    r: Reg,
)
    requires
        m.wf(),
        is_in_register(m, *cx.env, *name, r),
        is_holder(r),
        value.kind == (ExprKind::ArrayIndex { array: *array, index: *index }),
        array.kind == ExprKind::Ident(*arr),
        cx.env.global_elem(arr) matches Some(t) && t.is_int_like() && t.is_countable() && t.size()
            == 2,
        crate::laws::address::subscript_value(w, m, *cx.env, &**index) is Some,
    ensures
        sets_variable(
            w,
            m,
            crate::codegen::compound_local::plan_emit_compound_assign(
                cx,
                name,
                BinOp::Add,
                value,
            ),
            r,
            crate::machine::wrap(m.reg(r)->0 + m.word_at((w.symbol)(arr@) + crate::laws::address::subscript_value(
                    w,
                    m,
                    *cx.env,
                    &**index,
                )->0 * 2)),
        ),
{
    let plan = crate::codegen::compound_local::plan_emit_compound_assign(
        cx,
        name,
        BinOp::Add,
        value,
    );
    let at = (w.symbol)(arr@) + crate::laws::address::subscript_value(
                    w,
                    m,
                    *cx.env,
                    &**index,
                )->0 * 2;
    assert(plan == crate::codegen::compound_local::plan_word_global_elem(
        cx,
        r,
        BinOp::Add,
        value,
    ));
    let t = cx.env.global_elem(arr)->0;
    crate::laws::address::subscript_scales(w, m, cx, &**index, t);
    let a = crate::codegen::array_addr::plan_emit_index_into_bx(cx, &**index, t)->Emit_0;
    let m1 = crate::machine::run(w, m, a, 0)->Through_0;
    let i = crate::laws::address::subscript_value(w, m, *cx.env, &**index)->0;
    let from = crate::isa::elem(arr, Reg::Bx);
    crate::laws::address::sum_wraps((w.symbol)(arr@), i * 2);
    word_added_behind(w, m, a, m1, from, at, r);
}

/// `x += a[i].f` for an integer in a register, a file-scope array of structs
/// and a variable adds the member of the element `i`. No other variable and
/// no memory changes.
#[verifier::rlimit(60)]
pub proof fn register_plus_global_member<'a>(
    w: World<'a>,
    m: Machine,
    cx: Cx<'a>,
    name: &'a String,
    value: &'a Expr,
    base: &'a Box<Expr>,
    field: &'a String,
    array: &'a Box<Expr>,
    index: &'a Box<Expr>,
    arr: &'a String,
    r: Reg,
)
    requires
        m.wf(),
        is_in_register(m, *cx.env, *name, r),
        is_holder(r),
        value.kind == (ExprKind::Member { base: *base, field: *field, kind: MemberKind::Dot }),
        base.kind == (ExprKind::ArrayIndex { array: *array, index: *index }),
        array.kind == ExprKind::Ident(*arr),
        !cx.env.has(arr),
        cx.env.const_of(&**index) is None,
        cx.env.global_elem(arr) matches Some(t) && t.is_countable()
            && crate::codegen::array_addr::index_shifts(t.size() as u16) is Some
            && (t.struct_field_info(field) matches Some(f) && f.ty.is_int_like()),
        crate::laws::address::subscript_value(w, m, *cx.env, &**index) is Some,
    ensures
        sets_variable(
            w,
            m,
            crate::codegen::compound_local::plan_emit_compound_assign(
                cx,
                name,
                BinOp::Add,
                value,
            ),
            r,
            crate::machine::wrap(m.reg(r)->0 + m.word_at((w.symbol)(arr@) + (cx.env.global_elem(arr)->0.struct_field_info(
                    field,
                )->0).offset + crate::laws::address::subscript_value(
                    w,
                    m,
                    *cx.env,
                    &**index,
                )->0 * cx.env.global_elem(arr)->0.size())),
        ),
{
    let plan = crate::codegen::compound_local::plan_emit_compound_assign(
        cx,
        name,
        BinOp::Add,
        value,
    );
    let at = (w.symbol)(arr@) + (cx.env.global_elem(arr)->0.struct_field_info(
                    field,
                )->0).offset + crate::laws::address::subscript_value(
                    w,
                    m,
                    *cx.env,
                    &**index,
                )->0 * cx.env.global_elem(arr)->0.size();
    assert(plan == crate::codegen::compound_local::plan_word_global_member(
        cx,
        r,
        BinOp::Add,
        value,
    ));
    let t = cx.env.global_elem(arr)->0;
    crate::laws::address::subscript_scales(w, m, cx, &**index, t);
    let a = crate::codegen::array_addr::plan_emit_index_into_bx(cx, &**index, t)->Emit_0;
    let m1 = crate::machine::run(w, m, a, 0)->Through_0;
    let i = crate::laws::address::subscript_value(w, m, *cx.env, &**index)->0;
    let f = t.struct_field_info(field)->0;
    let from = crate::isa::elem_at(arr, crate::isa::plus(f.offset as i64), Reg::Bx);
    crate::laws::address::sum_wraps((w.symbol)(arr@) + f.offset, i * t.size());
    word_added_behind(w, m, a, m1, from, at, r);
}

/// `x += a[k]` for an integer in a register, an array of words on the stack
/// and a constant adds the element `k`. No other variable and no memory
/// changes.
pub proof fn register_plus_frame_element<'a>(
    w: World<'a>,
    m: Machine,
    cx: Cx<'a>,
    name: &'a String,
    value: &'a Expr,
    array: &'a Box<Expr>,
    index: &'a Box<Expr>,
    arr: &'a String,
    base: i16,
    k: u32,
    r: Reg,
)
    requires
        m.wf(),
        is_in_register(m, *cx.env, *name, r),
        is_holder(r),
        value.kind == (ExprKind::ArrayIndex { array: *array, index: *index }),
        array.kind == ExprKind::Ident(*arr),
        cx.env.global_elem(arr) is None,
        cx.env.local_elem(arr) matches Some(t) && t.is_int_like() && t.size() == 2,
        cx.env.stack_of(arr) == Some(base),
        cx.env.const_of(&**index) == Some(k),
        k < 0x4000,
        base + 2 * k <= 0x7FFF,
    ensures
        sets_variable(
            w,
            m,
            crate::codegen::compound_local::plan_emit_compound_assign(
                cx,
                name,
                BinOp::Add,
                value,
            ),
            r,
            crate::machine::wrap(m.reg(r)->0 + m.word_at(m.bp + base + 2 * k)),
        ),
{
    let plan = crate::codegen::compound_local::plan_emit_compound_assign(
        cx,
        name,
        BinOp::Add,
        value,
    );
    let at = m.bp + base + 2 * k;
    let from = crate::isa::frame_elem::<'a>(base, k, 2)->0;
    assert(plan == crate::codegen::compound_local::plan_word_frame_const(
        cx,
        r,
        BinOp::Add,
        value,
    ));
    let a = Seq::<Step<'a>>::empty();
    crate::machine::step_end(w, m, a, 0);
    word_added_behind(w, m, a, m, from, at, r);
    assert(plan->Emit_0 =~= a + seq![
        crate::codegen::emitter::add_to(Operand::Reg(r), crate::isa::word(from)),
    ]);
}

/// `x += a[i]` for an integer in a register, an array of words on the stack
/// and a variable adds the element `i`. No other variable and no memory
/// changes.
#[verifier::rlimit(60)]
pub proof fn register_plus_frame_variable<'a>(
    w: World<'a>,
    m: Machine,
    cx: Cx<'a>,
    name: &'a String,
    value: &'a Expr,
    array: &'a Box<Expr>,
    index: &'a Box<Expr>,
    arr: &'a String,
    base: i16,
    r: Reg,
)
    requires
        m.wf(),
        is_in_register(m, *cx.env, *name, r),
        is_holder(r),
        value.kind == (ExprKind::ArrayIndex { array: *array, index: *index }),
        array.kind == ExprKind::Ident(*arr),
        cx.env.global_elem(arr) is None,
        cx.env.local_pointee(arr) is None,
        cx.env.local_elem(arr) matches Some(t) && t.is_int_like() && t.size() == 2,
        cx.env.stack_of(arr) == Some(base),
        cx.env.const_of(&**index) is None,
        crate::laws::address::frame_subscript(w, m, cx, &**index) matches Some((_, n)) && n == m,
    ensures
        sets_variable(
            w,
            m,
            crate::codegen::compound_local::plan_emit_compound_assign(
                cx,
                name,
                BinOp::Add,
                value,
            ),
            r,
            crate::machine::wrap(m.reg(r)->0 + m.word_at(m.bp + base + first_of(crate::laws::address::frame_subscript(w, m, cx, &**index)->0)
                    * 2)),
        ),
{
    let plan = crate::codegen::compound_local::plan_emit_compound_assign(
        cx,
        name,
        BinOp::Add,
        value,
    );
    let at = m.bp + base + first_of(crate::laws::address::frame_subscript(w, m, cx, &**index)->0)
                    * 2;
    assert(plan == crate::codegen::compound_local::plan_word_frame_elem(
        cx,
        r,
        BinOp::Add,
        value,
    ));
    crate::laws::address::frame_element_address(w, m, cx, &**index, base, 2);
    let a = crate::codegen::array_addr::plan_emit_array_addr_to_bx(
        cx,
        &**index,
        base,
        2,
    )->Emit_0;
    let m1 = crate::machine::run(w, m, a, 0)->Through_0;
    word_added_behind(w, m, a, m1, crate::isa::at(Reg::Bx), at, r);
}

/// `x += p[e]` for an integer in a register, a pointer to words on the stack
/// and a computed number adds the word that many words behind where `p`
/// points. No other variable and no memory changes.
#[verifier::rlimit(60)]
pub proof fn register_plus_pointed_element<'a>(
    w: World<'a>,
    m: Machine,
    cx: Cx<'a>,
    name: &'a String,
    value: &'a Expr,
    array: &'a Box<Expr>,
    index: &'a Box<Expr>,
    p: &'a String,
    off: i16,
    i: int,
    r: Reg,
)
    requires
        m.wf(),
        is_in_register(m, *cx.env, *name, r),
        is_holder(r),
        value.kind == (ExprKind::ArrayIndex { array: *array, index: *index }),
        array.kind == ExprKind::Ident(*p),
        cx.env.global_elem(p) is None,
        cx.env.local_elem(p) is None,
        cx.env.local_pointee(p) matches Some(t) && t.is_int_like(),
        cx.env.stack_of(p) == Some(off),
        crate::laws::rows::is_computed_as(w, m, cx, &**index, i),
    ensures
        sets_variable(
            w,
            m,
            crate::codegen::compound_local::plan_emit_compound_assign(
                cx,
                name,
                BinOp::Add,
                value,
            ),
            r,
            crate::machine::wrap(m.reg(r)->0 + m.word_at(m.word_at(m.bp + off) + i * 2)),
        ),
{
    let plan = crate::codegen::compound_local::plan_emit_compound_assign(
        cx,
        name,
        BinOp::Add,
        value,
    );
    let at = m.word_at(m.bp + off) + i * 2;
    assert(plan == crate::codegen::compound_local::plan_word_pointer_elem(
        cx,
        r,
        BinOp::Add,
        value,
    ));
    let a = seq![crate::codegen::emitter::to_ax(cx, &**index)];
    assert(crate::laws::address::same_variables(m, m));
    let m1 = crate::laws::long::evaluated(w, m, cx, &**index);
    crate::machine::step_on(w, m, a, 0, m1);
    crate::machine::step_end(w, m1, a, 1);
    let (b, m2) = crate::laws::pointed::scaled_in_ax(w, m1, 2);
    crate::laws::address::first_part(w, m, a, b, m1);
    let (c, m3) = crate::laws::pointed::word_in_bx(w, m2, crate::isa::bp(off));
    crate::laws::address::first_part(w, m, a + b, c, m2);
    let d = seq![crate::codegen::emitter::add_to(crate::isa::bx::<'a>(), crate::isa::ax())];
    let ax = Operand::<'a>::Reg(Reg::Ax);
    let m4 = crate::laws::steps::direct_to_register(w, m3, d, 0, BinOp::Add, Reg::Bx, ax);
    crate::machine::step_end(w, m4, d, 1);
    crate::laws::address::first_part(w, m, a + b + c, d, m3);
    crate::laws::address::sum_wraps(m.word_at(m.bp + off), i * 2);
    word_added_behind(w, m, a + b + c + d, m4, crate::isa::at(Reg::Bx), at, r);
    assert(plan->Emit_0 =~= a + b + c + d + seq![
        crate::codegen::emitter::add_to(
            Operand::Reg(r),
            crate::isa::word(crate::isa::at::<'a>(Reg::Bx)),
        ),
    ]);
}

/// `x op= *p++` and `x op= *p--` for an integer and a pointer to integers,
/// both in registers, apply the word at the address that `p` held, and move
/// `p` by the size of an integer. Nothing else changes.
pub proof fn register_pointed_applied<'a>(
    w: World<'a>,
    m: Machine,
    cx: Cx<'a>,
    name: &'a String,
    op: BinOp,
    value: &'a Expr,
    inner: &'a Box<Expr>,
    p: &'a String,
    up: UpdateOp,
    r: Reg,
    from: Reg,
)
    requires
        m.wf(),
        is_in_register(m, *cx.env, *name, r),
        is_holder(r),
        is_holder(from),
        r != from,
        crate::isa::is_direct(op),
        value.kind == ExprKind::Deref(*inner),
        inner.kind == (ExprKind::Update { target: *p, op: up, position: UpdatePosition::Post }),
        cx.env.word_reg_of(p) == Some(from),
        cx.env.local_pointee(p) matches Some(t) && t.is_int_like() && t.size() == 2,
    ensures
        ({
            let plan = crate::codegen::compound_local::plan_emit_compound_assign(
                cx,
                name,
                op,
                value,
            );
            &&& plan matches Plan::Emit(steps)
            &&& crate::machine::run(w, m, steps, 0) matches Outcome::Through(after)
            &&& after.reg(r) == Some(
                crate::machine::word_result(op, m.reg(r)->0, m.word_at(m.reg(from)->0)),
            )
            &&& after.reg(from) == Some(
                crate::machine::word_result(
                    crate::laws::copy::update_op(up),
                    m.reg(from)->0,
                    2,
                ),
            )
            &&& after.mem == m.mem
            &&& crate::laws::steps::same_regs(after, Machine { si: after.si, di: after.di, ..m })
        }),
{
    let plan = crate::codegen::compound_local::plan_emit_compound_assign(cx, name, op, value);
    assert(plan == crate::codegen::compound_local::plan_word_deref_post(cx, r, op, value));
    let steps = plan->Emit_0;
    let s = Operand::<'a>::Mem(Width::Word, crate::isa::at(from));
    let step = Step::Op1(crate::isa::update(up), Operand::<'a>::Reg(from));
    assert(steps =~= seq![Step::Op2(crate::isa::direct(op), Operand::Reg(r), s), step, step]);
    crate::machine::word_range(m.mem, m.reg(from)->0);
    let m1 = crate::laws::steps::direct_to_register(w, m, steps, 0, op, r, s);
    let after = crate::laws::copy::stepped_twice(w, m1, steps, 1, up, from);
    crate::machine::step_end(w, after, steps, 3);
}

/// `x *= y op z` for an integer in a register and two integers in memory
/// under a direct operator leaves the low 16 bits of the product in `x`. No
/// other variable and no memory changes.
pub proof fn register_multiplied_by_pair<'a>(
    w: World<'a>,
    m: Machine,
    cx: Cx<'a>,
    name: &'a String,
    value: &'a Expr,
    op: BinOp,
    left: &'a Box<Expr>,
    right: &'a Box<Expr>,
    r: Reg,
    y: &'a String,
    z: &'a String,
)
    requires
        m.wf(),
        is_in_register(m, *cx.env, *name, r),
        is_holder(r),
        crate::isa::is_direct(op),
        value.kind == (ExprKind::BinOp { op, left: *left, right: *right }),
        cx.env.facts(&**left).int_addr == Some(*y),
        cx.env.facts(&**right).int_addr == Some(*z),
    ensures
        sets_variable(
            w,
            m,
            crate::codegen::compound_local::plan_emit_compound_assign(
                cx,
                name,
                BinOp::Mul,
                value,
            ),
            r,
            crate::machine::wrap(
                m.reg(r)->0 * crate::machine::word_result(
                    op,
                    m.word_at((w.place)(y@)),
                    m.word_at((w.place)(z@)),
                ),
            ),
        ),
{
    let plan = crate::codegen::compound_local::plan_emit_compound_assign(
        cx,
        name,
        BinOp::Mul,
        value,
    );
    assert(plan == crate::codegen::compound_local::plan_word_mul_pair(cx, r, BinOp::Mul, value));
    let steps = plan->Emit_0;
    let a = &cx.env.facts(&**left).int_addr->0;
    let b = &cx.env.facts(&**right).int_addr->0;
    let dx = Operand::<'a>::Reg(Reg::Dx);
    let ax = Operand::<'a>::Reg(Reg::Ax);
    let s = Operand::Mem(Width::Word, Addr::Text(b));
    crate::machine::word_range(m.mem, (w.place)(y@));
    crate::machine::word_range(m.mem, (w.place)(z@));
    let m1 = crate::laws::steps::load_word(w, m, steps, 0, Reg::Dx, Addr::Text(a));
    let m2 = crate::laws::steps::direct_to_register(w, m1, steps, 1, op, Reg::Dx, s);
    let m3 = crate::laws::steps::move_to_register(w, m2, steps, 2, Reg::Ax, Operand::Reg(r));
    let m4 = crate::laws::integer::multiplied(w, m3, steps, 3, dx);
    let after = crate::laws::steps::move_to_register(w, m4, steps, 4, r, ax);
    crate::machine::step_end(w, after, steps, 5);
}

/// `x *= e` for an integer in a register and a right side that has to be
/// computed leaves the low 16 bits of the product in `x`. No other variable
/// and no memory changes.
#[verifier::rlimit(60)]
pub proof fn register_times_computed<'a>(
    w: World<'a>,
    m: Machine,
    cx: Cx<'a>,
    name: &'a String,
    value: &'a Expr,
    r: Reg,
    x: int,
)
    requires
        m.wf(),
        is_in_register(m, *cx.env, *name, r),
        is_holder(r),
        value.kind is Call,
        cx.env.const_of(value) is None,
        cx.env.facts(value).needs_ax,
        crate::laws::rows::is_computed_as(w, m, cx, value, x),
    ensures
        sets_variable(
            w,
            m,
            crate::codegen::compound_local::plan_emit_compound_assign(
                cx,
                name,
                BinOp::Mul,
                value,
            ),
            r,
            crate::machine::wrap(m.reg(r)->0 * x),
        ),
{
    let plan = crate::codegen::compound_local::plan_emit_compound_assign(
        cx,
        name,
        BinOp::Mul,
        value,
    );
    let ty = &cx.env.local(name)->0.ty;
    assert(plan == crate::codegen::compound_local::plan_word_mul_computed(
        cx,
        r,
        ty,
        BinOp::Mul,
        value,
    ));
    let steps = plan->Emit_0;
    let dx = Operand::<'a>::Reg(Reg::Dx);
    let ax = Operand::<'a>::Reg(Reg::Ax);
    assert(crate::laws::address::same_variables(m, m));
    let m1 = crate::laws::long::evaluated(w, m, cx, value);
    crate::machine::step_on(w, m, steps, 0, m1);
    let m2 = crate::laws::steps::move_to_register(w, m1, steps, 1, Reg::Dx, ax);
    let m3 = crate::laws::steps::move_to_register(w, m2, steps, 2, Reg::Ax, Operand::Reg(r));
    let m4 = crate::laws::integer::multiplied(w, m3, steps, 3, dx);
    let after = crate::laws::steps::move_to_register(w, m4, steps, 4, r, ax);
    crate::machine::step_end(w, after, steps, 5);
}

} // verus!
