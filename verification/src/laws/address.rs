//! Subscripts reach the element they name.

use vstd::prelude::*;
use crate::ast::{BinOp, Expr, ExprKind, Type};
use crate::codegen::emitter::{Cx, Plan, Step};
use crate::codegen::env::{Env, LocalLocation};
use crate::isa::{Addr, Mnemonic, Operand, Reg, Width};
use crate::machine::{Machine, Outcome, World};

verus! {

/// Whether two machines agree in memory, in `bp` and in every general
/// register that may hold a variable but `bx` and `dx`.
pub open spec fn same_variables(m: Machine, n: Machine) -> bool {
    &&& m.si == n.si
    &&& m.di == n.di
    &&& m.bp == n.bp
    &&& m.sp == n.sp
    &&& m.mem == n.mem
}

/// Doubling a word again after some doublings.
proof fn doubled_again(v: int, n: nat)
    requires
        0 <= v < 0x1_0000,
    ensures
        ({
            let a = crate::machine::wrap(v * vstd::arithmetic::power2::pow2(n));
            (if a >= 0x8000 { 2 * a - 0x1_0000 } else { 2 * a }) == crate::machine::wrap(
                v * vstd::arithmetic::power2::pow2(n + 1),
            )
        }),
{
    let p = vstd::arithmetic::power2::pow2(n) as int;
    vstd::arithmetic::power2::lemma_pow2_unfold(n + 1);
    let x = v * p;
    assert(v * (2 * p) == 2 * x) by (nonlinear_arith)
        requires
            x == v * p,
    ;
    assert((2 * x) % 0x1_0000 == (2 * (x % 0x1_0000)) % 0x1_0000);
}

/// Shifting a register left by one place so many times multiplies it by a
/// power of two.
pub proof fn doublings<'a>(w: World<'a>, m: Machine, r: Reg, n: nat) -> (after: Machine)
    requires
        m.wf(),
        r == Reg::Ax || r == Reg::Bx || r == Reg::Dx,
    ensures
        crate::machine::run(
            w,
            m,
            crate::codegen::emitter::shl1(Operand::<'a>::Reg(r)).times(n),
            0,
        ) == Outcome::Through(after),
        after.wf(),
        crate::laws::steps::same_regs(
            after,
            m.with_reg(
                r,
                crate::machine::wrap(m.reg(r)->0 * vstd::arithmetic::power2::pow2(n)),
            )->0,
        ),
        after.mem == m.mem,
    decreases n,
{
    let s = crate::codegen::emitter::shl1(Operand::<'a>::Reg(r));
    if n == 0 {
        vstd::arithmetic::power2::lemma2_to64();
        assert(m.reg(r)->0 * 1 == m.reg(r)->0);
        assert(crate::machine::wrap(m.reg(r)->0) == m.reg(r)->0);
        crate::machine::step_end(w, m, s.times(0), 0);
        m
    } else {
        let k = (n - 1) as nat;
        let middle = doublings(w, m, r, k);
        let one = seq![s];
        assert(s.times(n) =~= s.times(k) + one);
        crate::laws::flow::run_parts(w, m, s.times(k), one, 0);
        crate::laws::flow::run_second(w, middle, s.times(k), one, 0);
        let after = crate::laws::steps::shift_register(w, middle, one, 0, Mnemonic::Shl, r);
        crate::machine::step_end(w, after, one, 1);
        doubled_again(m.reg(r)->0, k);
        assert(crate::laws::steps::shifted_once(Mnemonic::Shl, middle.reg(r)->0, middle.carry)
            == crate::machine::wrap(m.reg(r)->0 * vstd::arithmetic::power2::pow2(n))) by {
            reveal(crate::laws::steps::shifted_once);
        }
        after
    }
}

/// A part of some code that is straight through, put before the rest.
pub proof fn first_part<'a>(
    w: World<'a>,
    m: Machine,
    a: Seq<Step<'a>>,
    b: Seq<Step<'a>>,
    middle: Machine,
)
    requires
        crate::machine::run(w, m, a, 0) == Outcome::Through(middle),
    ensures
        crate::machine::run(w, m, a + b, 0) == crate::machine::run(w, middle, b, 0),
{
    crate::laws::flow::run_parts(w, m, a, b, 0);
    crate::laws::flow::run_second(w, middle, a, b, 0);
}

/// The element sizes that doubling reaches are powers of two.
pub proof fn shifts_reach_size(size: u16)
    ensures
        crate::codegen::array_addr::index_shifts(size) matches Some(n) ==> size
            == vstd::arithmetic::power2::pow2(n as nat),
{
    vstd::arithmetic::power2::lemma2_to64();
}

/// The operand that a character subscript is loaded from, and whether it is
/// unsigned: a local in the stack frame, or a file-scope variable.
pub open spec fn char_operand<'a>(env: Env, idx: &'a Expr) -> Option<(Operand<'a>, bool)> {
    match &idx.kind {
        ExprKind::Ident(name) => if env.has(name) {
            match env.stack_of(name) {
                Some(off) => Some(
                    (crate::isa::byte(crate::isa::bp(off)), env.is_unsigned_local(name)),
                ),
                None => None,
            }
        } else {
            Some((crate::isa::byte(crate::isa::global(name)), env.is_unsigned_global(name)))
        },
        _ => None,
    }
}

/// The value of a subscript that is an integer in memory or in a register,
/// or a character in memory; `None` for any other subscript.
pub open spec fn subscript_value<'a>(
    w: World<'a>,
    m: Machine,
    env: Env,
    idx: &'a Expr,
) -> Option<int> {
    if crate::codegen::array_addr::names_char(&env, idx) {
        match char_operand(env, idx) {
            Some((from, unsigned)) => Some(
                crate::laws::byte::char_value(m.read(w, from, true)->0, unsigned),
            ),
            None => None,
        }
    } else {
        match (env.facts(idx).int_addr, &idx.kind) {
            (Some(addr), ExprKind::Ident(_)) => Some(m.word_at((w.place)(addr@))),
            (None, ExprKind::Ident(name)) => if env.is_int_local(name) {
                match env.word_reg_of(name) {
                    Some(r) => m.reg(r),
                    None => None,
                }
            } else {
                None
            },
            _ => None,
        }
    }
}

/// Whether a subscript is computed in `ax` before it is scaled: it is no
/// name, no update, no dereference, no shift and no integer in memory.
pub open spec fn is_computed<'a>(env: Env, idx: &'a Expr) -> bool {
    &&& env.facts(idx).int_addr is None
    &&& !(idx.kind is Ident || idx.kind is Update || idx.kind is Deref)
    &&& !(idx.kind matches ExprKind::BinOp { op, .. } && op == BinOp::Shl)
}

/// A number in `ax` doubled and copied into `bx`.
proof fn doubled_into_bx<'a>(w: World<'a>, m: Machine, n: nat, v: int) -> (after: Machine)
    requires
        m.wf(),
        m.ax == crate::machine::wrap(v),
    ensures
        crate::machine::run(
            w,
            m,
            crate::codegen::emitter::shl1(crate::isa::ax()).times(n) + seq![
                crate::codegen::emitter::mov(crate::isa::bx::<'a>(), crate::isa::ax::<'a>()),
            ],
            0,
        ) == Outcome::Through(after),
        after.wf(),
        after.bx == crate::machine::wrap(v * vstd::arithmetic::power2::pow2(n)),
        same_variables(after, m),
{
    let shifts = crate::codegen::emitter::shl1(crate::isa::ax::<'a>()).times(n);
    let last = seq![
        crate::codegen::emitter::mov(crate::isa::bx::<'a>(), crate::isa::ax::<'a>()),
    ];
    let m1 = doublings(w, m, Reg::Ax, n);
    first_part(w, m, shifts, last, m1);
    let ax = Operand::<'a>::Reg(Reg::Ax);
    let after = crate::laws::steps::move_to_register(w, m1, last, 0, Reg::Bx, ax);
    crate::machine::step_end(w, after, last, 1);
    product_wraps(v, vstd::arithmetic::power2::pow2(n) as int);
    after
}

/// A subscript that is a character variable, widened and scaled.
proof fn char_subscript_scales<'a>(
    w: World<'a>,
    m: Machine,
    cx: Cx<'a>,
    idx: &'a Expr,
    n: u32,
)
    requires
        m.wf(),
        crate::codegen::array_addr::names_char(cx.env, idx),
        subscript_value(w, m, *cx.env, idx) is Some,
    ensures
        ({
            let plan = crate::codegen::array_addr::plan_index_into_bx_by(cx, idx, n);
            &&& plan matches Plan::Emit(steps)
            &&& crate::machine::run(w, m, steps, 0) matches Outcome::Through(after)
            &&& after.wf()
            &&& after.bx == crate::machine::wrap(
                subscript_value(w, m, *cx.env, idx)->0 * vstd::arithmetic::power2::pow2(
                    n as nat,
                ),
            )
            &&& same_variables(after, m)
        }),
{
    let plan = crate::codegen::array_addr::plan_index_into_bx_by(cx, idx, n);
    assert(plan == crate::codegen::array_addr::plan_index_char(cx, idx, n));
    let (from, unsigned) = char_operand(*cx.env, idx)->0;
    let first = seq![
        crate::codegen::emitter::mov(crate::isa::al(), from),
        crate::codegen::emitter::widen(unsigned),
    ];
    let rest = crate::codegen::emitter::shl1(crate::isa::ax()).times(n as nat) + seq![
        crate::codegen::emitter::mov(crate::isa::bx::<'a>(), crate::isa::ax::<'a>()),
    ];
    assert(plan->Emit_0 =~= first + rest);
    let m1 = char_in_ax(w, m, from, m.read(w, from, true)->0, unsigned);
    first_part(w, m, first, rest, m1);
    let after = doubled_into_bx(w, m1, n as nat, subscript_value(w, m, *cx.env, idx)->0);
}

/// A subscript that is computed arrives in `bx` times the size of an
/// element, and no variable changes but by its evaluation.
pub proof fn computed_subscript_scales<'a>(
    w: World<'a>,
    m: Machine,
    cx: Cx<'a>,
    idx: &'a Expr,
    elem_ty: &'a Type,
)
    requires
        m.wf(),
        elem_ty.is_countable(),
        is_computed(*cx.env, idx),
        crate::laws::long::evaluates(w, m, cx, idx),
        crate::codegen::array_addr::index_shifts(elem_ty.size() as u16) is Some,
    ensures
        ({
            let plan = crate::codegen::array_addr::plan_emit_index_into_bx(cx, idx, elem_ty);
            let then_on = crate::laws::long::evaluated(w, m, cx, idx);
            &&& plan matches Plan::Emit(steps)
            &&& crate::machine::run(w, m, steps, 0) matches Outcome::Through(after)
            &&& after.wf()
            &&& after.bx == crate::machine::wrap(then_on.ax * elem_ty.size())
            &&& same_variables(after, then_on)
        }),
{
    let size = elem_ty.size() as u16;
    let n = crate::codegen::array_addr::index_shifts(size)->0;
    shifts_reach_size(size);
    let plan = crate::codegen::array_addr::plan_emit_index_into_bx(cx, idx, elem_ty);
    assert(plan == crate::codegen::array_addr::plan_index_general(cx, idx, n));
    let first = seq![crate::codegen::emitter::to_ax(cx, idx)];
    let rest = crate::codegen::emitter::shl1(crate::isa::ax()).times(n as nat) + seq![
        crate::codegen::emitter::mov(crate::isa::bx::<'a>(), crate::isa::ax::<'a>()),
    ];
    assert(plan->Emit_0 =~= first + rest);
    let m1 = crate::laws::long::evaluated(w, m, cx, idx);
    crate::machine::step_on(w, m, first, 0, m1);
    crate::machine::step_end(w, m1, first, 1);
    first_part(w, m, first, rest, m1);
    let after = doubled_into_bx(w, m1, n as nat, m1.ax);
}

/// A subscript that is an integer or a character variable arrives in `bx`
/// times the size of an element, and no variable changes.
pub proof fn subscript_scales<'a>(
    w: World<'a>,
    m: Machine,
    cx: Cx<'a>,
    idx: &'a Expr,
    elem_ty: &'a Type,
)
    requires
        m.wf(),
        elem_ty.is_countable(),
        subscript_value(w, m, *cx.env, idx) is Some,
        crate::codegen::array_addr::index_shifts(elem_ty.size() as u16) is Some,
    ensures
        ({
            let plan = crate::codegen::array_addr::plan_emit_index_into_bx(cx, idx, elem_ty);
            &&& plan matches Plan::Emit(steps)
            &&& crate::machine::run(w, m, steps, 0) matches Outcome::Through(after)
            &&& after.wf()
            &&& after.bx == crate::machine::wrap(
                subscript_value(w, m, *cx.env, idx)->0 * elem_ty.size(),
            )
            &&& same_variables(after, m)
        }),
{
    let size = elem_ty.size() as u16;
    let n = crate::codegen::array_addr::index_shifts(size)->0;
    shifts_reach_size(size);
    if crate::codegen::array_addr::names_char(cx.env, idx) {
        char_subscript_scales(w, m, cx, idx, n);
    } else {
        int_subscript_scales(w, m, cx, idx, n);
    }
}

/// A subscript that is an integer variable, scaled.
proof fn int_subscript_scales<'a>(
    w: World<'a>,
    m: Machine,
    cx: Cx<'a>,
    idx: &'a Expr,
    n: u32,
)
    requires
        m.wf(),
        !crate::codegen::array_addr::names_char(cx.env, idx),
        subscript_value(w, m, *cx.env, idx) is Some,
    ensures
        ({
            let plan = crate::codegen::array_addr::plan_index_into_bx_by(cx, idx, n);
            &&& plan matches Plan::Emit(steps)
            &&& crate::machine::run(w, m, steps, 0) matches Outcome::Through(after)
            &&& after.wf()
            &&& after.bx == crate::machine::wrap(
                subscript_value(w, m, *cx.env, idx)->0 * vstd::arithmetic::power2::pow2(
                    n as nat,
                ),
            )
            &&& same_variables(after, m)
        }),
{
    let plan = crate::codegen::array_addr::plan_index_into_bx_by(cx, idx, n);
    let steps = plan->Emit_0;
    let rest = crate::codegen::emitter::shl1(Operand::<'a>::Reg(Reg::Bx)).times(n as nat);
    if let Some(addr) = cx.env.facts(idx).int_addr {
        assert(plan == crate::codegen::array_addr::plan_index_memory(cx, idx, n));
        let load = seq![
            crate::codegen::emitter::mov(crate::isa::bx(), crate::isa::word(Addr::Text(&addr))),
        ];
        assert(steps =~= load + rest);
        let m1 = crate::laws::steps::load_word(w, m, load, 0, Reg::Bx, Addr::Text(&addr));
        crate::machine::step_end(w, m1, load, 1);
        first_part(w, m, load, rest, m1);
        let after = doublings(w, m1, Reg::Bx, n as nat);
    } else if let ExprKind::Ident(name) = &idx.kind {
        let r = cx.env.word_reg_of(name)->0;
        assert(plan == crate::codegen::array_addr::plan_index_register(cx, idx, n));
        let load = seq![crate::codegen::emitter::mov(crate::isa::bx(), Operand::<'a>::Reg(r))];
        assert(steps =~= load + rest);
        let m1 = Machine { bx: m.reg(r)->0, ..m };
        assert(crate::machine::run_step(w, m, load[0]) == Some(m1));
        crate::machine::step_on(w, m, load, 0, m1);
        crate::machine::step_end(w, m1, load, 1);
        first_part(w, m, load, rest, m1);
        let after = doublings(w, m1, Reg::Bx, n as nat);
    }
}

/// The value of a local integer variable; `None` for a character, and for a
/// variable in `ax`, which holds none for long.
pub open spec fn local_value<'a>(w: World<'a>, m: Machine, env: Env, name: String) -> Option<int> {
    match env.local(&name) {
        Some(l) => if l.ty.is_char_like() {
            None
        } else {
            match l.loc {
                LocalLocation::Stack(off) => Some(m.word_at(m.bp + off)),
                LocalLocation::Reg(r) => if r.is_byte() || r == Reg::Ax {
                    None
                } else {
                    m.reg(r)
                },
            }
        },
        None => None,
    }
}

/// A local variable loaded into `bx`, with other code before it that leaves
/// it alone.
pub proof fn variable_in_bx<'a>(
    w: World<'a>,
    m: Machine,
    now: Machine,
    cx: Cx<'a>,
    name: &'a String,
) -> (after: Machine)
    requires
        now.wf(),
        now == (Machine { ax: now.ax, ..m }),
        local_value(w, m, *cx.env, *name) is Some,
    ensures
        ({
            let plan = crate::codegen::array_addr::plan_name_into_bx(cx, name);
            &&& plan matches Plan::Emit(steps)
            &&& crate::machine::run(w, now, steps, 0) == Outcome::Through(after)
        }),
        after.wf(),
        after == (Machine { bx: local_value(w, m, *cx.env, *name)->0, ..now }),
{
    let steps = crate::codegen::array_addr::plan_name_into_bx(cx, name)->Emit_0;
    let l = cx.env.local(name)->0;
    match l.loc {
        LocalLocation::Stack(off) => {
            crate::machine::word_range(m.mem, m.bp + off);
        },
        LocalLocation::Reg(_) => {},
    }
    let after = Machine { bx: local_value(w, m, *cx.env, *name)->0, ..now };
    assert(crate::machine::run_step(w, now, steps[0]) == Some(after));
    crate::machine::step_on(w, now, steps, 0, after);
    crate::machine::step_end(w, after, steps, 1);
    after
}

/// `lea ax,[bp+base]` and `add bx,ax` add the start of an array to `bx`.
proof fn base_added<'a>(w: World<'a>, m: Machine, base: i16) -> (after: Machine)
    requires
        m.wf(),
    ensures
        crate::machine::run(
            w,
            m,
            seq![
                crate::codegen::emitter::lea(crate::isa::ax(), crate::isa::bp(base)),
                crate::codegen::emitter::add_to(crate::isa::bx(), crate::isa::ax()),
            ],
            0,
        ) == Outcome::Through(after),
        after.wf(),
        after.bx == crate::machine::wrap(m.bx + m.bp + base),
        same_variables(after, m),
{
    let steps = seq![
        crate::codegen::emitter::lea(crate::isa::ax(), crate::isa::bp(base)),
        crate::codegen::emitter::add_to(crate::isa::bx(), crate::isa::ax()),
    ];
    let m1 = crate::laws::steps::lea_to_register(
        w,
        m,
        steps,
        0,
        Reg::Ax,
        crate::isa::bp(base),
    );
    let after = crate::laws::steps::direct_to_register(
        w,
        m1,
        steps,
        1,
        BinOp::Add,
        Reg::Bx,
        Operand::Reg(Reg::Ax),
    );
    crate::machine::step_end(w, after, steps, 2);
    sum_wraps(m.bx, m.bp + base);
    after
}

/// Cutting a term of a sum to 16 bits makes no difference to the sum.
pub proof fn sum_wraps(a: int, b: int)
    ensures
        crate::machine::wrap(a + crate::machine::wrap(b)) == crate::machine::wrap(a + b),
{
}

/// The value of a local character variable; `None` for any other.
pub open spec fn local_char<'a>(w: World<'a>, m: Machine, env: Env, name: String) -> Option<int> {
    match env.local(&name) {
        Some(l) => if l.ty.is_char_like() {
            match l.loc {
                LocalLocation::Stack(off) => Some(
                    crate::laws::byte::char_value(m.byte_at(m.bp + off), l.ty.is_unsigned()),
                ),
                LocalLocation::Reg(r) => if r.is_byte() {
                    Some(crate::laws::byte::char_value(m.reg(r)->0, l.ty.is_unsigned()))
                } else {
                    None
                },
            }
        } else {
            None
        },
        None => None,
    }
}

/// What an expression that is computed into `ax` is worth, and the machine
/// behind its evaluation; `None` if that machine is not in order, or has
/// another stack frame.
pub open spec fn computed_worth<'a>(w: World<'a>, m: Machine, cx: Cx<'a>, e: &'a Expr) -> Option<
    (int, Machine),
> {
    if crate::laws::long::evaluates(w, m, cx, e) {
        let then_on = crate::laws::long::evaluated(w, m, cx, e);
        Some((then_on.ax, then_on))
    } else {
        None
    }
}

/// What a subscript of an array on the stack is worth, and the machine
/// behind its evaluation: a local variable, a sum of two integers in memory,
/// or an expression that is computed, a call among them.
pub open spec fn frame_subscript<'a>(
    w: World<'a>,
    m: Machine,
    cx: Cx<'a>,
    index: &'a Expr,
) -> Option<(int, Machine)> {
    match &index.kind {
        ExprKind::Ident(name) => match local_char(w, m, *cx.env, *name) {
            Some(v) => Some((v, m)),
            None => match local_value(w, m, *cx.env, *name) {
                Some(v) => Some((v, m)),
                None => None,
            },
        },
        ExprKind::BinOp { op: BinOp::Add, left, right } => match (
            cx.env.facts(&**left).int_addr,
            cx.env.facts(&**right).int_addr,
        ) {
            (Some(a), Some(b)) => Some(
                (m.word_at((w.place)(a@)) + m.word_at((w.place)(b@)), m),
            ),
            _ => computed_worth(w, m, cx, index),
        },
        _ => computed_worth(w, m, cx, index),
    }
}

/// The address of an element of an array on the stack arrives in `bx`: the
/// start of the array and the subscript times the size of an element. The
/// subscript may be a local integer or character, a sum, a call, or anything
/// else that is computed, and the element may have any size. No variable
/// changes but by the evaluation of the subscript.
pub proof fn frame_element_address<'a>(
    w: World<'a>,
    m: Machine,
    cx: Cx<'a>,
    index: &'a Expr,
    base: i16,
    size: u16,
)
    requires
        m.wf(),
        frame_subscript(w, m, cx, index) is Some,
    ensures
        ({
            let plan = crate::codegen::array_addr::plan_emit_array_addr_to_bx(
                cx,
                index,
                base,
                size,
            );
            let (v, then_on) = frame_subscript(w, m, cx, index)->0;
            &&& plan matches Plan::Emit(steps)
            &&& crate::machine::run(w, m, steps, 0) matches Outcome::Through(after)
            &&& after.wf()
            &&& after.bx == crate::machine::wrap(m.bp + base + v * size)
            &&& same_variables(after, then_on)
        }),
{
    let (v, _) = frame_subscript(w, m, cx, index)->0;
    if let ExprKind::Ident(name) = &index.kind {
        if local_char(w, m, *cx.env, *name) is Some {
            char_element_address(w, m, cx, index, name, base, size);
        } else if size == 1 {
            byte_element_address(w, m, cx, index, name, base);
            assert(v * 1 == v);
        } else {
            general_element_address(w, m, cx, index, base, size);
        }
    } else if index.kind is Call {
        call_element_address(w, m, cx, index, base, size);
    } else {
        general_element_address(w, m, cx, index, base, size);
    }
}

/// A factor may be cut to 16 bits before a product is.
pub proof fn product_wraps(v: int, size: int)
    ensures
        crate::machine::wrap(crate::machine::wrap(v) * size) == crate::machine::wrap(v * size),
{
    vstd::arithmetic::div_mod::lemma_mul_mod_noop_left(v, size, 0x1_0000);
}

/// The number in `ax` scaled by the size of an element.
pub proof fn ax_scaled<'a>(w: World<'a>, m: Machine, cx: Cx<'a>, size: u16) -> (after: Machine)
    requires
        m.wf(),
    ensures
        ({
            let plan = crate::codegen::array_addr::plan_scale_ax(cx, size);
            &&& plan matches Plan::Emit(steps)
            &&& crate::machine::run(w, m, steps, 0) == Outcome::Through(after)
        }),
        after.wf(),
        after.ax == crate::machine::wrap(m.ax * size),
        after.bx == m.bx,
        same_variables(after, m),
{
    let steps = crate::codegen::array_addr::plan_scale_ax(cx, size)->Emit_0;
    if crate::isa::spec_is_pow2(size as u32) {
        halvings_of_power(size as u32);
        doublings(w, m, Reg::Ax, crate::isa::spec_halvings(size as u32) as nat)
    } else {
        let by = Operand::<'a>::Imm(size as i64);
        let m1 = crate::laws::steps::move_to_register(w, m, steps, 0, Reg::Dx, by);
        let after = multiply_by_dx(w, m1, steps, 1);
        crate::machine::step_end(w, after, steps, 2);
        after
    }
}

/// The number in `bx` scaled by the size of an element.
proof fn bx_scaled<'a>(w: World<'a>, m: Machine, cx: Cx<'a>, size: u16) -> (after: Machine)
    requires
        m.wf(),
    ensures
        ({
            let plan = crate::codegen::array_addr::plan_scale_bx(cx, size);
            &&& plan matches Plan::Emit(steps)
            &&& crate::machine::run(w, m, steps, 0) == Outcome::Through(after)
        }),
        after.wf(),
        after.bx == crate::machine::wrap(m.bx * size),
        same_variables(after, m),
{
    let steps = crate::codegen::array_addr::plan_scale_bx(cx, size)->Emit_0;
    if crate::isa::spec_is_pow2(size as u32) {
        halvings_of_power(size as u32);
        doublings(w, m, Reg::Bx, crate::isa::spec_halvings(size as u32) as nat)
    } else {
        let by = Operand::<'a>::Imm(size as i64);
        let bx = Operand::<'a>::Reg(Reg::Bx);
        let m1 = crate::laws::steps::move_to_register(w, m, steps, 0, Reg::Ax, bx);
        let m2 = crate::laws::steps::move_to_register(w, m1, steps, 1, Reg::Dx, by);
        let m3 = multiply_by_dx(w, m2, steps, 2);
        let ax = Operand::<'a>::Reg(Reg::Ax);
        let after = crate::laws::steps::move_to_register(w, m3, steps, 3, Reg::Bx, ax);
        crate::machine::step_end(w, after, steps, 4);
        after
    }
}

/// The start of an array added to the number in `ax`, for `bx`.
proof fn based_ax<'a>(w: World<'a>, m: Machine, cx: Cx<'a>, base: i16) -> (after: Machine)
    requires
        m.wf(),
    ensures
        ({
            let plan = crate::codegen::array_addr::plan_base_after_ax(cx, base);
            &&& plan matches Plan::Emit(steps)
            &&& crate::machine::run(w, m, steps, 0) == Outcome::Through(after)
        }),
        after.wf(),
        after.bx == crate::machine::wrap(m.ax + m.bp + base),
        same_variables(after, m),
{
    let steps = crate::codegen::array_addr::plan_base_after_ax(cx, base)->Emit_0;
    let m1 = crate::laws::steps::lea_to_register(w, m, steps, 0, Reg::Dx, crate::isa::bp(base));
    let m2 = crate::laws::steps::direct_to_register(
        w,
        m1,
        steps,
        1,
        BinOp::Add,
        Reg::Ax,
        Operand::Reg(Reg::Dx),
    );
    let ax = Operand::<'a>::Reg(Reg::Ax);
    let after = crate::laws::steps::move_to_register(w, m2, steps, 2, Reg::Bx, ax);
    crate::machine::step_end(w, after, steps, 3);
    sum_wraps(m.ax, m.bp + base);
    after
}

/// Code that leaves a subscript in `ax`, scaled and added to the start of an
/// array.
proof fn scaled_and_based<'a>(
    w: World<'a>,
    m: Machine,
    cx: Cx<'a>,
    first: Seq<Step<'a>>,
    middle: Machine,
    v: int,
    base: i16,
    size: u16,
)
    requires
        crate::machine::run(w, m, first, 0) == Outcome::Through(middle),
        middle.wf(),
        middle.ax == crate::machine::wrap(v),
    ensures
        ({
            let plan = Plan::Emit(first).followed_by(
                crate::codegen::array_addr::plan_scale_ax(cx, size),
            ).followed_by(crate::codegen::array_addr::plan_base_after_ax(cx, base));
            &&& plan matches Plan::Emit(steps)
            &&& crate::machine::run(w, m, steps, 0) matches Outcome::Through(after)
            &&& after.wf()
            &&& after.bx == crate::machine::wrap(middle.bp + base + v * size)
            &&& same_variables(after, middle)
        }),
{
    let scale = crate::codegen::array_addr::plan_scale_ax(cx, size)->Emit_0;
    let last = crate::codegen::array_addr::plan_base_after_ax(cx, base)->Emit_0;
    let m1 = ax_scaled(w, middle, cx, size);
    let after = based_ax(w, m1, cx, base);
    first_part(w, m, first, scale, middle);
    first_part(w, m, first + scale, last, m1);
    product_wraps(v, size as int);
    sum_wraps(middle.bp + base, v * size);
}

/// A local character loaded into `al` and widened.
proof fn char_in_ax<'a>(
    w: World<'a>,
    m: Machine,
    from: Operand<'a>,
    b: int,
    unsigned: bool,
) -> (after: Machine)
    requires
        m.wf(),
        m.read(w, from, true) == Some(b),
        0 <= b < 0x100,
    ensures
        crate::machine::run(
            w,
            m,
            seq![
                crate::codegen::emitter::mov(crate::isa::al(), from),
                crate::codegen::emitter::widen(unsigned),
            ],
            0,
        ) == Outcome::Through(after),
        after.wf(),
        after == (Machine {
            ax: crate::machine::wrap(crate::laws::byte::char_value(b, unsigned)),
            ..m
        }),
{
    let steps = seq![
        crate::codegen::emitter::mov(crate::isa::al(), from),
        crate::codegen::emitter::widen(unsigned),
    ];
    crate::laws::byte::low_byte_replaced(m.ax, b);
    let m1 = Machine { ax: m.ax / 0x100 * 0x100 + b, ..m };
    assert(crate::machine::run_step(w, m, steps[0]) == Some(m1));
    crate::machine::step_on(w, m, steps, 0, m1);
    assert(m1.ax % 0x100 == b);
    let after = crate::laws::byte::widen_al(w, m1, steps, 1, unsigned);
    crate::machine::step_end(w, after, steps, 2);
    after
}

/// The operand that a local character is loaded from.
pub open spec fn char_source<'a>(env: Env, name: String) -> Operand<'a> {
    match env.local(&name)->0.loc {
        LocalLocation::Stack(off) => crate::isa::byte(crate::isa::bp(off)),
        LocalLocation::Reg(r) => Operand::Reg(r),
    }
}

/// The code for a subscript that is a local character.
proof fn char_element_plan<'a>(
    w: World<'a>,
    m: Machine,
    cx: Cx<'a>,
    index: &'a Expr,
    name: &'a String,
    base: i16,
    size: u16,
)
    requires
        index.kind == ExprKind::Ident(*name),
        local_char(w, m, *cx.env, *name) is Some,
    ensures
        crate::codegen::array_addr::plan_emit_array_addr_to_bx(cx, index, base, size)
            == Plan::Emit(
            seq![
                crate::codegen::emitter::mov(
                    crate::isa::al(),
                    char_source(*cx.env, *name),
                ),
                crate::codegen::emitter::widen(cx.env.local(name)->0.ty.is_unsigned()),
            ],
        ).followed_by(crate::codegen::array_addr::plan_scale_ax(cx, size)).followed_by(
            crate::codegen::array_addr::plan_base_after_ax(cx, base),
        ),
{
    let plan = crate::codegen::array_addr::plan_emit_array_addr_to_bx(cx, index, base, size);
    assert(plan == crate::codegen::array_addr::plan_elem_addr_char(cx, index, base, size));
    let load = crate::codegen::emitter::mov(crate::isa::al(), char_source(*cx.env, *name));
    let wide = crate::codegen::emitter::widen::<'a>(cx.env.local(name)->0.ty.is_unsigned());
    assert(seq![load] + seq![wide] =~= seq![load, wide]);
}

/// The address of an element that a local character subscripts.
proof fn char_element_address<'a>(
    w: World<'a>,
    m: Machine,
    cx: Cx<'a>,
    index: &'a Expr,
    name: &'a String,
    base: i16,
    size: u16,
)
    requires
        m.wf(),
        index.kind == ExprKind::Ident(*name),
        local_char(w, m, *cx.env, *name) is Some,
    ensures
        ({
            let plan = crate::codegen::array_addr::plan_emit_array_addr_to_bx(
                cx,
                index,
                base,
                size,
            );
            let v = local_char(w, m, *cx.env, *name)->0;
            &&& plan matches Plan::Emit(steps)
            &&& crate::machine::run(w, m, steps, 0) matches Outcome::Through(after)
            &&& after.wf()
            &&& after.bx == crate::machine::wrap(m.bp + base + v * size)
            &&& same_variables(after, m)
        }),
{
    char_element_plan(w, m, cx, index, name, base, size);
    let unsigned = cx.env.local(name)->0.ty.is_unsigned();
    let from = char_source(*cx.env, *name);
    let b = m.read(w, from, true)->0;
    let m2 = char_in_ax(w, m, from, b, unsigned);
    scaled_and_based(
        w,
        m,
        cx,
        seq![
            crate::codegen::emitter::mov(crate::isa::al(), from),
            crate::codegen::emitter::widen(unsigned),
        ],
        m2,
        local_char(w, m, *cx.env, *name)->0,
        base,
        size,
    );
}

/// The address of an element that a call subscripts.
proof fn call_element_address<'a>(
    w: World<'a>,
    m: Machine,
    cx: Cx<'a>,
    index: &'a Expr,
    base: i16,
    size: u16,
)
    requires
        m.wf(),
        index.kind is Call,
        crate::laws::long::evaluates(w, m, cx, index),
    ensures
        ({
            let plan = crate::codegen::array_addr::plan_emit_array_addr_to_bx(
                cx,
                index,
                base,
                size,
            );
            let then_on = crate::laws::long::evaluated(w, m, cx, index);
            &&& plan matches Plan::Emit(steps)
            &&& crate::machine::run(w, m, steps, 0) matches Outcome::Through(after)
            &&& after.wf()
            &&& after.bx == crate::machine::wrap(m.bp + base + then_on.ax * size)
            &&& same_variables(after, then_on)
        }),
{
    let plan = crate::codegen::array_addr::plan_emit_array_addr_to_bx(cx, index, base, size);
    assert(plan == crate::codegen::array_addr::plan_elem_addr_call(cx, index, base, size));
    let first = seq![crate::codegen::emitter::to_ax(cx, index)];
    let m1 = crate::laws::long::evaluated(w, m, cx, index);
    crate::machine::step_on(w, m, first, 0, m1);
    crate::machine::step_end(w, m1, first, 1);
    scaled_and_based(w, m, cx, first, m1, m1.ax, base, size);
}

/// The address of a byte that a local integer subscripts.
proof fn byte_element_address<'a>(
    w: World<'a>,
    m: Machine,
    cx: Cx<'a>,
    index: &'a Expr,
    name: &'a String,
    base: i16,
)
    requires
        m.wf(),
        index.kind == ExprKind::Ident(*name),
        local_value(w, m, *cx.env, *name) is Some,
    ensures
        ({
            let plan = crate::codegen::array_addr::plan_emit_array_addr_to_bx(cx, index, base, 1);
            &&& plan matches Plan::Emit(steps)
            &&& crate::machine::run(w, m, steps, 0) matches Outcome::Through(after)
            &&& after.wf()
            &&& after.bx == crate::machine::wrap(
                m.bp + base + local_value(w, m, *cx.env, *name)->0,
            )
            &&& same_variables(after, m)
        }),
{
    let v = local_value(w, m, *cx.env, *name)->0;
    let plan = crate::codegen::array_addr::plan_emit_array_addr_to_bx(cx, index, base, 1);
    let steps = plan->Emit_0;
    let name_steps = crate::codegen::array_addr::plan_name_into_bx(cx, name)->Emit_0;
    assert(plan == crate::codegen::array_addr::plan_byte_addr_simple(cx, index, base, 1));
    let first = seq![crate::codegen::emitter::lea(crate::isa::ax(), crate::isa::bp(base))];
    let last = seq![
        crate::codegen::emitter::add_to(crate::isa::bx::<'a>(), crate::isa::ax::<'a>()),
    ];
    assert(steps =~= first + (name_steps + last));
    let m1 = crate::laws::steps::lea_to_register(w, m, first, 0, Reg::Ax, crate::isa::bp(base));
    crate::machine::step_end(w, m1, first, 1);
    first_part(w, m, first, name_steps + last, m1);
    let m2 = variable_in_bx(w, m, m1, cx, name);
    first_part(w, m1, name_steps, last, m2);
    let after = crate::laws::steps::direct_to_register(
        w,
        m2,
        last,
        0,
        BinOp::Add,
        Reg::Bx,
        Operand::Reg(Reg::Ax),
    );
    crate::machine::step_end(w, after, last, 1);
    sum_wraps(v, m.bp + base);
}

/// A subscript that is no character variable loaded into `bx`.
proof fn raw_subscript<'a>(w: World<'a>, m: Machine, cx: Cx<'a>, index: &'a Expr) -> (after:
    Machine)
    requires
        m.wf(),
        frame_subscript(w, m, cx, index) is Some,
        index.kind matches ExprKind::Ident(name) ==> local_char(w, m, *cx.env, name) is None,
    ensures
        ({
            let plan = crate::codegen::array_addr::plan_raw_subscript_into_bx(cx, index);
            &&& plan matches Plan::Emit(steps)
            &&& crate::machine::run(w, m, steps, 0) == Outcome::Through(after)
        }),
        after.wf(),
        ({
            let (v, then_on) = frame_subscript(w, m, cx, index)->0;
            after.bx == crate::machine::wrap(v) && same_variables(after, then_on)
        }),
{
    let plan = crate::codegen::array_addr::plan_raw_subscript_into_bx(cx, index);
    let steps = plan->Emit_0;
    let sum = match &index.kind {
        ExprKind::BinOp { op: BinOp::Add, left, right } => match (
            cx.env.facts(&**left).int_addr,
            cx.env.facts(&**right).int_addr,
        ) {
            (Some(a), Some(b)) => Some((a, b)),
            _ => None,
        },
        _ => None,
    };
    if let ExprKind::Ident(name) = &index.kind {
        let after = variable_in_bx(w, m, m, cx, name);
        assert(0 <= after.bx < 0x1_0000);
        after
    } else if let Some((a, b)) = sum {
        let m1 = crate::laws::steps::load_word(w, m, steps, 0, Reg::Bx, Addr::Text(&a));
        crate::machine::word_range(m.mem, (w.place)(b@));
        let after = crate::laws::steps::direct_to_register(
            w,
            m1,
            steps,
            1,
            BinOp::Add,
            Reg::Bx,
            Operand::Mem(Width::Word, Addr::Text(&b)),
        );
        crate::machine::step_end(w, after, steps, 2);
        after
    } else {
        let m1 = crate::laws::long::evaluated(w, m, cx, index);
        crate::machine::step_on(w, m, steps, 0, m1);
        let ax = Operand::<'a>::Reg(Reg::Ax);
        let after = crate::laws::steps::move_to_register(w, m1, steps, 1, Reg::Bx, ax);
        crate::machine::step_end(w, after, steps, 2);
        after
    }
}

/// The address of an element whose subscript is scaled in `bx`.
proof fn general_element_address<'a>(
    w: World<'a>,
    m: Machine,
    cx: Cx<'a>,
    index: &'a Expr,
    base: i16,
    size: u16,
)
    requires
        m.wf(),
        frame_subscript(w, m, cx, index) is Some,
        index.kind matches ExprKind::Ident(name) ==> local_char(w, m, *cx.env, name) is None
            && size != 1,
        index.kind !is Call,
    ensures
        ({
            let plan = crate::codegen::array_addr::plan_emit_array_addr_to_bx(
                cx,
                index,
                base,
                size,
            );
            let (v, then_on) = frame_subscript(w, m, cx, index)->0;
            &&& plan matches Plan::Emit(steps)
            &&& crate::machine::run(w, m, steps, 0) matches Outcome::Through(after)
            &&& after.wf()
            &&& after.bx == crate::machine::wrap(m.bp + base + v * size)
            &&& same_variables(after, then_on)
        }),
{
    let plan = crate::codegen::array_addr::plan_emit_array_addr_to_bx(cx, index, base, size);
    assert(plan == crate::codegen::array_addr::plan_elem_addr_general(cx, index, base, size));
    let (v, _) = frame_subscript(w, m, cx, index)->0;
    let raw = crate::codegen::array_addr::plan_raw_subscript_into_bx(cx, index)->Emit_0;
    let scale = crate::codegen::array_addr::plan_scale_bx(cx, size)->Emit_0;
    let last = seq![
        crate::codegen::emitter::lea(crate::isa::ax(), crate::isa::bp(base)),
        crate::codegen::emitter::add_to(crate::isa::bx(), crate::isa::ax()),
    ];
    let m1 = raw_subscript(w, m, cx, index);
    let m2 = bx_scaled(w, m1, cx, size);
    let after = base_added(w, m2, base);
    assert(plan->Emit_0 == raw + scale + last);
    first_part(w, m, raw, scale, m1);
    first_part(w, m, raw + scale, last, m2);
    product_wraps(v, size as int);
    sum_wraps(m.bp + base, v * size);
}

/// A power of two is two to the power of how often it can be halved.
pub proof fn halvings_of_power(n: u32)
    requires
        crate::isa::spec_is_pow2(n),
    ensures
        n == vstd::arithmetic::power2::pow2(crate::isa::spec_halvings(n) as nat),
        crate::isa::spec_halvings(n) < 32,
    decreases n,
{
    if n == 1 {
        vstd::arithmetic::power2::lemma2_to64();
    } else {
        halvings_of_power(n / 2);
        let k = crate::isa::spec_halvings(n / 2) as nat;
        vstd::arithmetic::power2::lemma_pow2_unfold(k + 1);
        if k == 31 {
            vstd::arithmetic::power2::lemma2_to64();
        }
    }
}

/// The low word of a signed product is the product cut to 16 bits.
proof fn low_product(a: int, b: int)
    requires
        0 <= a < 0x1_0000,
        0 <= b < 0x1_0000,
    ensures
        crate::machine::with_sign(a, false) * crate::machine::with_sign(b, false) % 0x1_0000_0000
            % 0x1_0000 == crate::machine::wrap(a * b),
{
    let s: int = if a >= 0x8000 { 1 } else { 0 };
    let t: int = if b >= 0x8000 { 1 } else { 0 };
    let p = crate::machine::with_sign(a, false) * crate::machine::with_sign(b, false);
    let c = 0x1_0000 * s * t - a * t - b * s;
    assert(p == 0x1_0000 * c + a * b) by (nonlinear_arith)
        requires
            p == (a - 0x1_0000 * s) * (b - 0x1_0000 * t),
            c == 0x1_0000 * s * t - a * t - b * s,
    ;
    vstd::arithmetic::div_mod::lemma_mod_multiples_vanish(c, a * b, 0x1_0000);
    vstd::arithmetic::div_mod::lemma_mod_mod(p, 0x1_0000, 0x1_0000);
}

/// Whether an operand known as text is worth a number as long as no variable
/// changes.
pub open spec fn is_worth<'a>(w: World<'a>, m: Machine, text: String, v: int) -> bool {
    &&& 0 <= v < 0x1_0000
    &&& forall|n: Machine|
        #![trigger (w.operand)(text@, n)]
        same_variables(n, m) ==> (w.operand)(text@, n) == v
}

/// A register multiplied by a number that `dx` holds.
pub proof fn multiply_by_dx<'a>(w: World<'a>, m: Machine, steps: Seq<Step<'a>>, i: int) -> (after:
    Machine)
    requires
        m.wf(),
        0 <= i < steps.len(),
        steps[i] == Step::<'a>::Op1(Mnemonic::Imul, Operand::Reg(Reg::Dx)),
    ensures
        crate::machine::run(w, m, steps, i) == crate::machine::run(w, after, steps, i + 1),
        after.wf(),
        after.ax == crate::machine::wrap(m.ax * m.dx),
        after.bx == m.bx,
        same_variables(after, m),
{
    low_product(m.ax, m.dx);
    let after = crate::machine::run_step(w, m, steps[i])->0;
    assert(crate::machine::run_step(w, m, steps[i]) is Some);
    crate::machine::step_on(w, m, steps, i, after);
    after
}

/// The address of `a[i][j]` on the stack arrives in `bx`: the start of the
/// array, the first subscript times the size of a row, and the second times
/// the size of an element. No variable changes.
pub proof fn frame_element_2d_address<'a>(
    w: World<'a>,
    m: Machine,
    cx: Cx<'a>,
    outer_idx: &'a Expr,
    inner_idx: &'a Expr,
    outer_stride: u16,
    inner_stride: u16,
    base: i16,
    i: int,
    j: int,
)
    requires
        m.wf(),
        cx.env.facts(outer_idx).index_operand matches Some(text) && is_worth(w, m, text, i),
        cx.env.facts(inner_idx).index_operand matches Some(text) && is_worth(w, m, text, j),
        inner_stride == 1 || inner_stride == 2,
    ensures
        ({
            let plan = crate::codegen::array_addr::plan_emit_array_addr_2d_to_bx(
                cx,
                outer_idx,
                inner_idx,
                outer_stride,
                inner_stride,
                base,
            );
            &&& plan matches Plan::Emit(steps)
            &&& crate::machine::run(w, m, steps, 0) matches Outcome::Through(after)
            &&& after.wf()
            &&& after.bx == crate::machine::wrap(
                m.bp + base + i * outer_stride + j * inner_stride,
            )
            &&& same_variables(after, m)
        }),
{
    let plan = crate::codegen::array_addr::plan_emit_array_addr_2d_to_bx(
        cx,
        outer_idx,
        inner_idx,
        outer_stride,
        inner_stride,
        base,
    );
    let steps = plan->Emit_0;
    let outer = &cx.env.facts(outer_idx).index_operand->0;
    let inner = &cx.env.facts(inner_idx).index_operand->0;
    if outer_stride > 1 && crate::isa::spec_is_pow2(outer_stride as u32) {
        rows_by_doubling(w, m, steps, outer, inner, outer_stride, inner_stride, base, i, j);
    } else {
        rows_by_product(w, m, steps, outer, inner, outer_stride, inner_stride, base, i, j);
    }
}

/// A subscript taken into a register and scaled by one or two.
#[verifier::rlimit(60)]
proof fn inner_scaled<'a>(
    w: World<'a>,
    m: Machine,
    steps: Seq<Step<'a>>,
    i: int,
    r: Reg,
    text: &'a String,
    stride: u16,
    j: int,
) -> (after: Machine)
    requires
        m.wf(),
        r == Reg::Ax || r == Reg::Dx,
        0 <= i,
        i + stride <= steps.len(),
        stride == 1 || stride == 2,
        (w.operand)(text@, m) == j,
        0 <= j < 0x1_0000,
        steps[i] == crate::codegen::emitter::mov(Operand::Reg(r), Operand::Text(text)),
        stride == 2 ==> steps[i + 1] == crate::codegen::emitter::shl1(Operand::<'a>::Reg(r)),
    ensures
        crate::machine::run(w, m, steps, i) == crate::machine::run(w, after, steps, i + stride),
        after.wf(),
        crate::laws::steps::same_regs(
            after,
            m.with_reg(r, crate::machine::wrap(j * stride))->0,
        ),
        after.mem == m.mem,
{
    let m1 = crate::laws::steps::move_to_register(w, m, steps, i, r, Operand::Text(text));
    if stride == 2 {
        let m2 = crate::laws::steps::shift_register(w, m1, steps, i + 1, Mnemonic::Shl, r);
        assert(crate::laws::steps::shifted_once(Mnemonic::Shl, j, m1.carry)
            == crate::machine::wrap(j * 2)) by {
            reveal(crate::laws::steps::shifted_once);
        }
        m2
    } else {
        m1
    }
}

/// Row and element offsets added up, with rows reached by doubling.
proof fn rows_by_doubling<'a>(
    w: World<'a>,
    m: Machine,
    steps: Seq<Step<'a>>,
    outer: &'a String,
    inner: &'a String,
    outer_stride: u16,
    inner_stride: u16,
    base: i16,
    i: int,
    j: int,
)
    requires
        m.wf(),
        is_worth(w, m, *outer, i),
        is_worth(w, m, *inner, j),
        inner_stride == 1 || inner_stride == 2,
        crate::isa::spec_is_pow2(outer_stride as u32),
        steps =~= seq![
            crate::codegen::emitter::mov(crate::isa::bx(), crate::isa::given(outer)),
        ] + crate::codegen::emitter::shl1(crate::isa::bx()).times(
            crate::isa::spec_halvings(outer_stride as u32) as nat,
        ) + seq![crate::codegen::emitter::mov(crate::isa::ax(), crate::isa::given(inner))] + (
        if inner_stride == 2 {
            seq![crate::codegen::emitter::shl1(crate::isa::ax())]
        } else {
            seq![]
        }) + seq![
            crate::codegen::emitter::add_to(crate::isa::bx(), crate::isa::ax()),
            crate::codegen::emitter::lea(crate::isa::ax(), crate::isa::bp(base)),
            crate::codegen::emitter::add_to(crate::isa::bx(), crate::isa::ax()),
        ],
    ensures
        crate::machine::run(w, m, steps, 0) matches Outcome::Through(after) && after.wf()
            && after.bx == crate::machine::wrap(
            m.bp + base + i * outer_stride + j * inner_stride,
        ) && same_variables(after, m),
{
    let n = crate::isa::spec_halvings(outer_stride as u32) as nat;
    halvings_of_power(outer_stride as u32);
    let first = seq![crate::codegen::emitter::mov(crate::isa::bx(), crate::isa::given(outer))];
    let shifts = crate::codegen::emitter::shl1(crate::isa::bx()).times(n);
    let rest = seq![crate::codegen::emitter::mov(crate::isa::ax(), crate::isa::given(inner))] + (
    if inner_stride == 2 {
        seq![crate::codegen::emitter::shl1(crate::isa::ax())]
    } else {
        seq![]
    }) + seq![
        crate::codegen::emitter::add_to(crate::isa::bx(), crate::isa::ax()),
        crate::codegen::emitter::lea(crate::isa::ax(), crate::isa::bp(base)),
        crate::codegen::emitter::add_to(crate::isa::bx(), crate::isa::ax()),
    ];
    assert(steps =~= first + (shifts + rest));
    let m1 = crate::laws::steps::move_to_register(
        w,
        m,
        first,
        0,
        Reg::Bx,
        Operand::Text(outer),
    );
    crate::machine::step_end(w, m1, first, 1);
    first_part(w, m, first, shifts + rest, m1);
    let m2 = doublings(w, m1, Reg::Bx, n);
    first_part(w, m1, shifts, rest, m2);
    row_ends(w, m2, rest, inner, inner_stride, base, i * outer_stride, j);
}

/// The rest of the code with rows reached by doubling: the scaled second
/// subscript and the start of the array are added to `bx`.
proof fn row_ends<'a>(
    w: World<'a>,
    m: Machine,
    rest: Seq<Step<'a>>,
    inner: &'a String,
    stride: u16,
    base: i16,
    x: int,
    j: int,
)
    requires
        m.wf(),
        m.bx == crate::machine::wrap(x),
        is_worth(w, m, *inner, j),
        stride == 1 || stride == 2,
        rest.len() == stride + 3,
        rest[0] == crate::codegen::emitter::mov(crate::isa::ax(), crate::isa::given(inner)),
        stride == 2 ==> rest[1] == crate::codegen::emitter::shl1(crate::isa::ax()),
        rest[stride as int] == crate::codegen::emitter::add_to(
            crate::isa::bx(),
            crate::isa::ax(),
        ),
        rest[stride + 1] == crate::codegen::emitter::lea(crate::isa::ax(), crate::isa::bp(base)),
        rest[stride + 2] == crate::codegen::emitter::add_to(crate::isa::bx(), crate::isa::ax()),
    ensures
        crate::machine::run(w, m, rest, 0) matches Outcome::Through(after) && after.wf()
            && after.bx == crate::machine::wrap(m.bp + base + x + j * stride) && same_variables(
            after,
            m,
        ),
{
    let k = stride as int;
    let m4 = inner_scaled(w, m, rest, 0, Reg::Ax, inner, stride, j);
    let m5 = crate::laws::steps::direct_to_register(
        w,
        m4,
        rest,
        k,
        BinOp::Add,
        Reg::Bx,
        Operand::Reg(Reg::Ax),
    );
    let m6 = crate::laws::steps::lea_to_register(
        w,
        m5,
        rest,
        k + 1,
        Reg::Ax,
        crate::isa::bp(base),
    );
    let m7 = crate::laws::steps::direct_to_register(
        w,
        m6,
        rest,
        k + 2,
        BinOp::Add,
        Reg::Bx,
        Operand::Reg(Reg::Ax),
    );
    crate::machine::step_end(w, m7, rest, k + 3);
    three_wrap(x, j * stride, m.bp + base);
}

/// Three terms may each be cut to 16 bits before they are added.
proof fn three_wrap(a: int, b: int, c: int)
    ensures
        crate::machine::wrap(
            crate::machine::wrap(crate::machine::wrap(a) + crate::machine::wrap(b))
                + crate::machine::wrap(c),
        ) == crate::machine::wrap(c + a + b),
{
}

/// Row and element offsets added up, with rows reached by a product.
proof fn rows_by_product<'a>(
    w: World<'a>,
    m: Machine,
    steps: Seq<Step<'a>>,
    outer: &'a String,
    inner: &'a String,
    outer_stride: u16,
    inner_stride: u16,
    base: i16,
    i: int,
    j: int,
)
    requires
        m.wf(),
        is_worth(w, m, *outer, i),
        is_worth(w, m, *inner, j),
        inner_stride == 1 || inner_stride == 2,
        steps =~= seq![
            crate::codegen::emitter::mov(crate::isa::ax(), crate::isa::given(outer)),
            crate::codegen::emitter::mov(crate::isa::dx(), crate::isa::imm(outer_stride as i64)),
            crate::codegen::emitter::imul(crate::isa::dx()),
            crate::codegen::emitter::mov(crate::isa::dx(), crate::isa::given(inner)),
        ] + (if inner_stride == 2 {
            seq![crate::codegen::emitter::shl1(crate::isa::dx())]
        } else {
            seq![]
        }) + seq![
            crate::codegen::emitter::add_to(crate::isa::ax(), crate::isa::dx()),
            crate::codegen::emitter::lea(crate::isa::dx(), crate::isa::bp(base)),
            crate::codegen::emitter::add_to(crate::isa::ax(), crate::isa::dx()),
            crate::codegen::emitter::mov(crate::isa::bx(), crate::isa::ax()),
        ],
    ensures
        crate::machine::run(w, m, steps, 0) matches Outcome::Through(after) && after.wf()
            && after.bx == crate::machine::wrap(
            m.bp + base + i * outer_stride + j * inner_stride,
        ) && same_variables(after, m),
{
    let m1 = crate::laws::steps::move_to_register(w, m, steps, 0, Reg::Ax, Operand::Text(outer));
    let m2 = crate::laws::steps::move_to_register(
        w,
        m1,
        steps,
        1,
        Reg::Dx,
        Operand::Imm(outer_stride as i64),
    );
    let m3 = multiply_by_dx(w, m2, steps, 2);
    product_ends(w, m3, steps, inner, inner_stride, base, i * outer_stride, j);
}

/// The rest of the code with rows reached by a product: the scaled second
/// subscript and the start of the array are added to `ax`.
proof fn product_ends<'a>(
    w: World<'a>,
    m: Machine,
    steps: Seq<Step<'a>>,
    inner: &'a String,
    stride: u16,
    base: i16,
    x: int,
    j: int,
)
    requires
        m.wf(),
        m.ax == crate::machine::wrap(x),
        is_worth(w, m, *inner, j),
        stride == 1 || stride == 2,
        steps.len() == stride + 7,
        steps[3] == crate::codegen::emitter::mov(crate::isa::dx(), crate::isa::given(inner)),
        stride == 2 ==> steps[4] == crate::codegen::emitter::shl1(crate::isa::dx()),
        steps[stride + 3] == crate::codegen::emitter::add_to(crate::isa::ax(), crate::isa::dx()),
        steps[stride + 4] == crate::codegen::emitter::lea(crate::isa::dx(), crate::isa::bp(base)),
        steps[stride + 5] == crate::codegen::emitter::add_to(crate::isa::ax(), crate::isa::dx()),
        steps[stride + 6] == crate::codegen::emitter::mov(crate::isa::bx(), crate::isa::ax()),
    ensures
        crate::machine::run(w, m, steps, 3) matches Outcome::Through(after) && after.wf()
            && after.bx == crate::machine::wrap(m.bp + base + x + j * stride) && same_variables(
            after,
            m,
        ),
{
    let k = stride + 3;
    let m5 = inner_scaled(w, m, steps, 3, Reg::Dx, inner, stride, j);
    let m6 = crate::laws::steps::direct_to_register(
        w,
        m5,
        steps,
        k,
        BinOp::Add,
        Reg::Ax,
        Operand::Reg(Reg::Dx),
    );
    let m7 = crate::laws::steps::lea_to_register(
        w,
        m6,
        steps,
        k + 1,
        Reg::Dx,
        crate::isa::bp(base),
    );
    let m8 = crate::laws::steps::direct_to_register(
        w,
        m7,
        steps,
        k + 2,
        BinOp::Add,
        Reg::Ax,
        Operand::Reg(Reg::Dx),
    );
    let m9 = crate::laws::steps::move_to_register(
        w,
        m8,
        steps,
        k + 3,
        Reg::Bx,
        Operand::Reg(Reg::Ax),
    );
    crate::machine::step_end(w, m9, steps, k + 4);
    three_wrap(x, j * stride, m.bp + base);
}

} // verus!
