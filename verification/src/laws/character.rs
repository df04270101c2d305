//! Compound assignment to characters.

use vstd::prelude::*;
use crate::ast::{BinOp, Expr, ExprKind, Type};
use crate::codegen::emitter::{Cx, Plan, Step};
use crate::codegen::env::{Env, LocalLocation};
use crate::isa::{Addr, Mnemonic, Operand, Reg, Width};
use crate::laws::byte::{byte_result, same_but_al};
use crate::laws::line::puts_byte;
use crate::machine::{Machine, Outcome, World};

verus! {

/// What a byte operand known as text is worth.
pub open spec fn byte_worth<'a>(w: World<'a>, m: Machine, text: String) -> int {
    (w.operand)(text@, m) % 0x100
}

/// A direct operator applied to a byte in memory.
pub proof fn byte_combined<'a>(
    w: World<'a>,
    m: Machine,
    steps: Seq<Step<'a>>,
    i: int,
    op: BinOp,
    a: Addr<'a>,
    s: Operand<'a>,
    b: int,
    at: int,
) -> (after: Machine)
    requires
        m.wf(),
        0 <= i < steps.len(),
        crate::isa::is_direct(op),
        steps[i] == Step::Op2(crate::isa::direct(op), Operand::Mem(Width::Byte, a), s),
        crate::laws::target::is_kept_address(a),
        m.locate(w, a) matches Some(near) && crate::machine::wrap(near) == crate::machine::wrap(at),
        m.read(w, s, true) == Some(b),
        0 <= b < 0x100,
    ensures
        crate::machine::run(w, m, steps, i) == crate::machine::run(w, after, steps, i + 1),
        after.wf(),
        crate::laws::steps::same_regs(after, m),
        after.byte_at(at) == byte_result(op, m.byte_at(at), b),
        crate::machine::same_but(after.mem, m.mem, at, 1),
{
    let near = m.locate(w, a)->0;
    let before = m.byte_at(at);
    crate::laws::byte::combine_byte(m, op, before, b);
    let (r, flags) = crate::machine::combine(m, crate::isa::direct(op), before, b, true)->0;
    crate::laws::target::kept_place(w, m, flags, a);
    let after = flags.with_byte(near, r);
    assert(crate::machine::run_step(w, m, steps[i]) == Some(after));
    crate::machine::step_on(w, m, steps, i, after);
    crate::laws::byte::byte_written(m.mem, near, r);
    crate::laws::rows::byte_place_wraps(after.mem, m.mem, near, at);
    after
}

/// A direct operator applied to `al`.
pub proof fn al_combined<'a>(
    w: World<'a>,
    m: Machine,
    steps: Seq<Step<'a>>,
    i: int,
    op: BinOp,
    s: Operand<'a>,
    b: int,
) -> (after: Machine)
    requires
        m.wf(),
        0 <= i < steps.len(),
        crate::isa::is_direct(op),
        steps[i] == Step::Op2(crate::isa::direct(op), Operand::Reg(Reg::Al), s),
        m.read(w, s, true) == Some(b),
        0 <= b < 0x100,
    ensures
        crate::machine::run(w, m, steps, i) == crate::machine::run(w, after, steps, i + 1),
        after.wf(),
        same_but_al(after, m),
        after.ax % 0x100 == byte_result(op, m.ax % 0x100, b),
{
    crate::laws::byte::combine_byte(m, op, m.ax % 0x100, b);
    let (r, flags) = crate::machine::combine(m, crate::isa::direct(op), m.ax % 0x100, b, true)->0;
    crate::laws::byte::low_byte_replaced(m.ax, r);
    let after = Machine { ax: flags.ax / 0x100 * 0x100 + r, ..flags };
    assert(crate::machine::run_step(w, m, steps[i]) == Some(after));
    crate::machine::step_on(w, m, steps, i, after);
    after
}

/// A byte known as text goes into `al` and is applied to a byte in memory.
proof fn text_applied<'a>(
    w: World<'a>,
    m: Machine,
    steps: Seq<Step<'a>>,
    op: BinOp,
    a: Addr<'a>,
    text: &'a String,
    at: int,
)
    requires
        m.wf(),
        crate::isa::is_direct(op),
        crate::laws::target::is_kept_address(a),
        m.locate(w, a) matches Some(near) && crate::machine::wrap(near) == crate::machine::wrap(at),
        steps == seq![
            crate::codegen::emitter::mov(crate::isa::al::<'a>(), Operand::Text(text)),
            crate::codegen::emitter::op2(
                crate::isa::direct(op),
                crate::isa::byte(a),
                crate::isa::al(),
            ),
        ],
    ensures
        puts_byte(
            w,
            m,
            Plan::Emit(steps),
            at,
            byte_result(op, m.byte_at(at), byte_worth(w, m, *text)),
        ),
{
    let b = byte_worth(w, m, *text);
    let m1 = crate::laws::stored::byte_in_al(w, m, steps, 0, Operand::Text(text), b);
    crate::laws::target::kept_place(w, m, m1, a);
    let al = Operand::<'a>::Reg(Reg::Al);
    let after = byte_combined(w, m1, steps, 1, op, a, al, b, at);
    crate::machine::step_end(w, after, steps, 2);
}

/// A byte in memory goes into `al`, has an operand applied, and goes back.
proof fn summed_in_al<'a>(
    w: World<'a>,
    m: Machine,
    steps: Seq<Step<'a>>,
    op: BinOp,
    a: Addr<'a>,
    s: Operand<'a>,
    b: int,
    at: int,
)
    requires
        m.wf(),
        crate::isa::is_direct(op),
        crate::laws::target::is_kept_address(a),
        m.locate(w, a) matches Some(near) && crate::machine::wrap(near) == crate::machine::wrap(at),
        0 <= b < 0x100,
        forall|n: Machine|
            crate::laws::address::same_variables(n, m) ==> #[trigger] n.read(w, s, true) == Some(b),
        steps == seq![
            crate::codegen::emitter::mov(crate::isa::al::<'a>(), crate::isa::byte(a)),
            crate::codegen::emitter::op2(crate::isa::direct(op), crate::isa::al(), s),
            crate::codegen::emitter::mov(crate::isa::byte(a), crate::isa::al::<'a>()),
        ],
    ensures
        puts_byte(w, m, Plan::Emit(steps), at, byte_result(op, m.byte_at(at), b)),
{
    let near = m.locate(w, a)->0;
    let m1 = crate::laws::byte::load_al(w, m, steps, 0, a);
    assert(m1.read(w, s, true) == Some(b));
    let m2 = al_combined(w, m1, steps, 1, op, s, b);
    crate::laws::target::kept_place(w, m, m2, a);
    let al = crate::isa::al::<'a>();
    let after = crate::laws::target::put_at(w, m2, steps, 2, true, a, al, near, at, m2.ax);
    crate::machine::step_end(w, after, steps, 3);
}

/// `g op= c` for a file-scope character and a direct operator applies the low
/// byte of the right side. No other memory and no register changes that
/// holds a variable.
pub proof fn global_char_applied<'a>(
    w: World<'a>,
    m: Machine,
    cx: Cx<'a>,
    name: &'a String,
    op: BinOp,
    value: &'a Expr,
)
    requires
        m.wf(),
        cx.env.global_type(name) matches Some(t) && t.is_char_like(),
        !cx.env.has(name),
        crate::isa::is_direct(op),
        cx.env.const_of(value) is None,
        value.kind !is Comma,
        cx.env.facts(value).source is Some,
    ensures
        puts_byte(
            w,
            m,
            crate::codegen::compound_local::plan_emit_compound_assign(cx, name, op, value),
            (w.symbol)(name@),
            byte_result(
                op,
                m.byte_at((w.symbol)(name@)),
                byte_worth(w, m, (cx.env.facts(value).source->0).byte),
            ),
        ),
{
    let plan = crate::codegen::compound_local::plan_emit_compound_assign(cx, name, op, value);
    assert(plan == crate::codegen::compound_global::plan_char_direct(cx, name, op, value));
    let text = &(cx.env.facts(value).source->0).byte;
    let a = crate::isa::global(name);
    let steps = plan->Emit_0;
    assert(steps =~= seq![
        crate::codegen::emitter::mov(crate::isa::al::<'a>(), Operand::Text(text)),
        crate::codegen::emitter::op2(
            crate::isa::direct(op),
            crate::isa::byte(a),
            crate::isa::al(),
        ),
    ]);
    text_applied(w, m, steps, op, a, text, (w.symbol)(name@));
}

/// `*p op= c` for a pointer to characters in a register and a direct operator
/// applies the low byte of the right side. No other memory and no register
/// changes that holds a variable.
pub proof fn pointed_char_applied<'a>(
    w: World<'a>,
    m: Machine,
    cx: Cx<'a>,
    target: &'a Expr,
    name: &'a String,
    op: BinOp,
    value: &'a Expr,
    from_postfix: bool,
    r: Reg,
)
    requires
        m.wf(),
        target.kind == ExprKind::Ident(*name),
        !cx.env.is_global(name),
        cx.env.local(name) matches Some(l) && l.loc == LocalLocation::Reg(r),
        cx.env.local_pointee(name) matches Some(t) && t.is_char_like(),
        crate::laws::target::is_kept(r),
        crate::isa::is_direct(op),
        cx.env.const_of(value) is None,
        cx.env.facts(value).source is Some,
    ensures
        puts_byte(
            w,
            m,
            crate::codegen::deref_write::plan_emit_deref_compound_assign(
                cx,
                target,
                op,
                value,
                from_postfix,
            ),
            m.reg(r)->0,
            byte_result(
                op,
                m.byte_at(m.reg(r)->0),
                byte_worth(w, m, (cx.env.facts(value).source->0).byte),
            ),
        ),
{
    let plan = crate::codegen::deref_write::plan_emit_deref_compound_assign(
        cx,
        target,
        op,
        value,
        from_postfix,
    );
    assert(plan == crate::codegen::deref_write::plan_deref_compound_char(cx, name, 0, op, value));
    let text = &(cx.env.facts(value).source->0).byte;
    let a = crate::isa::at(r);
    let steps = plan->Emit_0;
    assert(steps =~= seq![
        crate::codegen::emitter::mov(crate::isa::al::<'a>(), Operand::Text(text)),
        crate::codegen::emitter::op2(
            crate::isa::direct(op),
            crate::isa::byte(a),
            crate::isa::al(),
        ),
    ]);
    text_applied(w, m, steps, op, a, text, m.reg(r)->0);
}

/// `(*p)++` and `(*p)--` for a pointer to characters in a register, as
/// statements, step the byte that `p` points at. No other memory and no
/// register changes.
#[verifier::rlimit(60)]
pub proof fn pointed_char_stepped<'a>(
    w: World<'a>,
    m: Machine,
    cx: Cx<'a>,
    target: &'a Expr,
    name: &'a String,
    op: BinOp,
    value: &'a Expr,
    r: Reg,
)
    requires
        m.wf(),
        target.kind == ExprKind::Ident(*name),
        !cx.env.is_global(name),
        cx.env.local(name) matches Some(l) && l.loc == LocalLocation::Reg(r),
        cx.env.local_pointee(name) matches Some(t) && t.is_char_like(),
        crate::laws::target::is_kept(r),
        crate::isa::is_additive(op),
        cx.env.const_of(value) == Some(1u32),
    ensures
        puts_byte(
            w,
            m,
            crate::codegen::deref_write::plan_emit_deref_compound_assign(
                cx,
                target,
                op,
                value,
                true,
            ),
            m.reg(r)->0,
            byte_result(op, m.byte_at(m.reg(r)->0), 1),
        ),
{
    let plan = crate::codegen::deref_write::plan_emit_deref_compound_assign(
        cx,
        target,
        op,
        value,
        true,
    );
    assert(plan == crate::codegen::deref_write::plan_deref_compound_step(
        cx,
        name,
        0,
        op,
        value,
        true,
    ));
    let steps = plan->Emit_0;
    let at = m.reg(r)->0;
    let before = m.byte_at(at);
    let v = byte_result(op, before, 1);
    let d: int = if op == BinOp::Add { 1 } else { -1 };
    let flags = m.flagged(
        v,
        true,
        m.carry,
        crate::machine::overflows(crate::machine::with_sign(before, true) + d, true),
    );
    let after = flags.with_byte(at, v);
    assert(crate::machine::run_step(w, m, steps[0]) == Some(after));
    crate::machine::step_on(w, m, steps, 0, after);
    crate::machine::step_end(w, after, steps, 1);
    crate::laws::byte::byte_written(m.mem, at, v);
}

/// `a[k] op= c` for a file-scope array of characters, constant subscripts and
/// a direct operator applies the low byte of the right side. No other memory
/// and no register changes that holds a variable.
#[verifier::rlimit(60)]
pub proof fn global_char_element_applied<'a>(
    w: World<'a>,
    m: Machine,
    cx: Cx<'a>,
    array: &'a String,
    indices: &'a Vec<Expr>,
    op: BinOp,
    value: &'a Expr,
    from_postfix: bool,
    leaf: &'a Type,
    off: i32,
    text: &'a String,
    b: int,
)
    requires
        m.wf(),
        !cx.env.has(array),
        cx.env.global_type(array) matches Some(gty) && gty.pointee() is None
            && crate::codegen::env::const_offset(
            cx.env,
            gty,
            crate::codegen::array_assign::each(indices),
            0,
        ) == Some((off, leaf)),
        leaf.is_char_like(),
        indices@.len() != 1 || cx.env.const_of(&indices@[0]) is Some,
        crate::isa::is_direct(op),
        cx.env.const_of(value) is None,
        cx.env.facts(value).byte_operand == Some(*text),
        crate::laws::address::is_worth(w, m, *text, b),
    ensures
        puts_byte(
            w,
            m,
            crate::codegen::array_compound::plan_emit_array_compound_assign(
                cx,
                array,
                indices,
                op,
                value,
                from_postfix,
            ),
            (w.symbol)(array@) + off,
            byte_result(op, m.byte_at((w.symbol)(array@) + off), b % 0x100),
        ),
{
    let plan = crate::codegen::array_compound::plan_emit_array_compound_assign(
        cx,
        array,
        indices,
        op,
        value,
        from_postfix,
    );
    let gty = cx.env.global_type(array)->0;
    let list = crate::codegen::array_assign::each(indices);
    assert(plan == crate::codegen::array_compound::plan_each_global_const(
        cx,
        array,
        gty,
        list,
        op,
        value,
        from_postfix,
    ));
    let t = &cx.env.facts(value).byte_operand->0;
    let a = crate::isa::global_at(array, crate::isa::disp(off));
    let at = (w.symbol)(array@) + off;
    let steps = plan->Emit_0;
    let s = Operand::Text(t);
    if crate::isa::is_additive(op) {
        assert(steps =~= seq![
            crate::codegen::emitter::mov(crate::isa::al::<'a>(), crate::isa::byte(a)),
            crate::codegen::emitter::op2(crate::isa::direct(op), crate::isa::al(), s),
            crate::codegen::emitter::mov(crate::isa::byte(a), crate::isa::al::<'a>()),
        ]);
        assert forall|n: Machine|
            crate::laws::address::same_variables(n, m) implies #[trigger] n.read(w, s, true)
            == Some(b % 0x100) by {}
        summed_in_al(w, m, steps, op, a, s, b % 0x100, at);
    } else {
        assert(steps =~= seq![
            crate::codegen::emitter::mov(crate::isa::al::<'a>(), s),
            crate::codegen::emitter::op2(
                crate::isa::direct(op),
                crate::isa::byte(a),
                crate::isa::al(),
            ),
        ]);
        assert(crate::laws::address::same_variables(m, m));
        text_applied(w, m, steps, op, a, t, at);
    }
}

/// `a[i] op= k` for a file-scope array of characters, a variable in `si` or
/// `di`, a constant and a direct operator leaves the 8-bit result in the
/// element. No other memory and no register changes that holds a variable.
#[verifier::rlimit(60)]
pub proof fn global_char_element_const<'a>(
    w: World<'a>,
    m: Machine,
    cx: Cx<'a>,
    array: &'a String,
    indices: &'a Vec<Expr>,
    op: BinOp,
    value: &'a Expr,
    r: Reg,
    c: u32,
)
    requires
        m.wf(),
        crate::laws::stored::is_global_chars(*cx.env, *array),
        indices@.len() == 1,
        cx.env.const_of(&indices@[0]) is None,
        crate::codegen::array_compound::int_index_reg(cx.env, &indices@[0]) == Some(r),
        r == Reg::Si || r == Reg::Di,
        crate::isa::is_direct(op),
        cx.env.const_of(value) == Some(c),
    ensures
        puts_byte(
            w,
            m,
            crate::codegen::array_compound::plan_emit_array_compound_assign(
                cx,
                array,
                indices,
                op,
                value,
                false,
            ),
            (w.symbol)(array@) + m.reg(r)->0,
            byte_result(op, m.byte_at((w.symbol)(array@) + m.reg(r)->0), c as int % 0x100),
        ),
{
    let plan = crate::codegen::array_compound::plan_emit_array_compound_assign(
        cx,
        array,
        indices,
        op,
        value,
        false,
    );
    let gty = cx.env.global_type(array)->0;
    let list = crate::codegen::array_assign::each(indices);
    assert(plan == crate::codegen::array_compound::plan_each_char_const(
        cx,
        array,
        gty,
        list,
        op,
        value,
    ));
    let a = crate::isa::elem(array, r);
    let at = (w.symbol)(array@) + m.reg(r)->0;
    let steps = plan->Emit_0;
    if crate::isa::lo8(c) == 1 && crate::isa::is_additive(op) {
        let m1 = crate::laws::byte::load_al(w, m, steps, 0, a);
        let m2 = crate::laws::byte::step_al(w, m1, steps, 1, op);
        let al = crate::isa::al::<'a>();
        let after = crate::laws::target::put_at(w, m2, steps, 2, true, a, al, at, at, m2.ax);
        crate::machine::step_end(w, after, steps, 3);
    } else {
        let s = Operand::<'a>::Imm(crate::isa::lo8(c));
        assert(steps =~= seq![
            crate::codegen::emitter::mov(crate::isa::al::<'a>(), crate::isa::byte(a)),
            crate::codegen::emitter::op2(crate::isa::direct(op), crate::isa::al(), s),
            crate::codegen::emitter::mov(crate::isa::byte(a), crate::isa::al::<'a>()),
        ]);
        summed_in_al(w, m, steps, op, a, s, c as int % 0x100, at);
    }
}

/// Whether a register is the low half of one that no result passes through.
pub open spec fn is_low_holder(r: Reg) -> bool {
    r == Reg::Bl || r == Reg::Cl || r == Reg::Dl
}

/// Whether a plan goes through, leaves a byte in half a register and keeps
/// the other half, every other register but `ax`, and memory.
pub open spec fn sets_low<'a>(
    w: World<'a>,
    m: Machine,
    plan: Plan<'a>,
    r: Reg,
    value: int,
) -> bool {
    &&& plan matches Plan::Emit(steps)
    &&& crate::machine::run(w, m, steps, 0) matches Outcome::Through(after)
    &&& m.with_reg(r, value) matches Some(wanted) && crate::laws::steps::same_regs(
        after,
        Machine { ax: after.ax, ..wanted },
    )
    &&& after.mem == m.mem
}

/// A byte operand moved into half a register.
pub proof fn low_moved<'a>(
    w: World<'a>,
    m: Machine,
    steps: Seq<Step<'a>>,
    i: int,
    r: Reg,
    s: Operand<'a>,
    b: int,
) -> (after: Machine)
    requires
        m.wf(),
        0 <= i < steps.len(),
        is_low_holder(r),
        steps[i] == Step::Op2(Mnemonic::Mov, Operand::Reg(r), s),
        m.read(w, s, true) == Some(b),
        0 <= b < 0x100,
    ensures
        crate::machine::run(w, m, steps, i) == crate::machine::run(w, after, steps, i + 1),
        Some(after) == m.with_reg(r, b),
        after.wf(),
{
    crate::laws::byte::low_byte_replaced(m.bx, b);
    crate::laws::byte::low_byte_replaced(m.cx, b);
    crate::laws::byte::low_byte_replaced(m.dx, b);
    let after = m.with_reg(r, b)->0;
    assert(crate::machine::run_step(w, m, steps[i]) == Some(after));
    crate::machine::step_on(w, m, steps, i, after);
    after
}

/// Half a register stepped by one.
pub proof fn low_stepped<'a>(
    w: World<'a>,
    m: Machine,
    steps: Seq<Step<'a>>,
    i: int,
    op: BinOp,
    r: Reg,
) -> (after: Machine)
    requires
        m.wf(),
        0 <= i < steps.len(),
        is_low_holder(r),
        crate::isa::is_additive(op),
        steps[i] == Step::<'a>::Op1(crate::isa::step_by_one(op), Operand::Reg(r)),
    ensures
        crate::machine::run(w, m, steps, i) == crate::machine::run(w, after, steps, i + 1),
        crate::laws::steps::same_regs(
            after,
            m.with_reg(r, byte_result(op, m.reg(r)->0, 1))->0,
        ),
        after.mem == m.mem,
{
    let a = m.reg(r)->0;
    let v = byte_result(op, a, 1);
    let d: int = if op == BinOp::Add { 1 } else { -1 };
    let flags = m.flagged(
        v,
        true,
        m.carry,
        crate::machine::overflows(crate::machine::with_sign(a, true) + d, true),
    );
    let after = flags.with_reg(r, v)->0;
    assert(crate::machine::run_step(w, m, steps[i]) == Some(after));
    crate::machine::step_on(w, m, steps, i, after);
    after
}

/// A direct operator applied to half a register.
proof fn low_combined<'a>(
    w: World<'a>,
    m: Machine,
    steps: Seq<Step<'a>>,
    i: int,
    op: BinOp,
    r: Reg,
    s: Operand<'a>,
    b: int,
) -> (after: Machine)
    requires
        m.wf(),
        0 <= i < steps.len(),
        is_low_holder(r),
        crate::isa::is_direct(op),
        steps[i] == Step::Op2(crate::isa::direct(op), Operand::Reg(r), s),
        m.read(w, s, true) == Some(b),
        0 <= b < 0x100,
    ensures
        crate::machine::run(w, m, steps, i) == crate::machine::run(w, after, steps, i + 1),
        crate::laws::steps::same_regs(
            after,
            m.with_reg(r, byte_result(op, m.reg(r)->0, b))->0,
        ),
        after.mem == m.mem,
{
    let a = m.reg(r)->0;
    crate::laws::byte::combine_byte(m, op, a, b);
    let (v, flags) = crate::machine::combine(m, crate::isa::direct(op), a, b, true)->0;
    let after = flags.with_reg(r, v)->0;
    assert(crate::machine::run_step(w, m, steps[i]) == Some(after));
    crate::machine::step_on(w, m, steps, i, after);
    after
}

/// Whether a name stands for a local character in half a register.
pub open spec fn is_char_in(env: Env, name: String, r: Reg) -> bool {
    &&& !env.is_global(&name)
    &&& env.local(&name) matches Some(l) && l.loc == LocalLocation::Reg(r) && l.ty.is_char_like()
    &&& is_low_holder(r)
}

/// What a number in the code is worth that stands for a byte to be taken
/// away.
proof fn negative_read<'a>(w: World<'a>, m: Machine, k: u32)
    ensures
        m.read(
            w,
            Operand::<'a>::Imm(crate::isa::signed8(crate::isa::neg8(k))),
            true,
        ) == Some((-(k as int)) % 0x100),
        m.read(w, Operand::<'a>::Imm(crate::isa::lo8(k)), true) == Some(k as int % 0x100),
{
}

/// Half a register goes into `al`, has a constant added or taken, and goes
/// back.
#[verifier::rlimit(60)]
proof fn low_summed<'a>(
    w: World<'a>,
    m: Machine,
    steps: Seq<Step<'a>>,
    op: BinOp,
    r: Reg,
    k: u32,
)
    requires
        m.wf(),
        is_low_holder(r),
        crate::isa::is_additive(op),
        steps =~= seq![
            crate::codegen::emitter::mov(crate::isa::al::<'a>(), Operand::Reg(r)),
            if crate::isa::lo8(k) == 1 {
                crate::codegen::emitter::op1(
                    crate::isa::step_by_one(op),
                    crate::isa::al::<'a>(),
                )
            } else if op == BinOp::Sub {
                crate::codegen::emitter::add_to(
                    crate::isa::al::<'a>(),
                    Operand::Imm(crate::isa::signed8(crate::isa::neg8(k))),
                )
            } else {
                crate::codegen::emitter::add_to(
                    crate::isa::al::<'a>(),
                    Operand::Imm(crate::isa::lo8(k)),
                )
            },
            crate::codegen::emitter::mov(Operand::Reg(r), crate::isa::al::<'a>()),
        ],
    ensures
        sets_low(
            w,
            m,
            Plan::Emit(steps),
            r,
            byte_result(op, m.reg(r)->0, k as int % 0x100),
        ),
{
    let al = Operand::<'a>::Reg(Reg::Al);
    let from = Operand::<'a>::Reg(r);
    let m1 = crate::laws::stored::byte_in_al(w, m, steps, 0, from, m.reg(r)->0);
    if crate::isa::lo8(k) == 1 {
        let m2 = crate::laws::byte::step_al(w, m1, steps, 1, op);
        let after = low_moved(w, m2, steps, 2, r, al, m2.ax % 0x100);
        crate::machine::step_end(w, after, steps, 3);
    } else {
        negative_read(w, m1, k);
        difference_adds(m.reg(r)->0, k as int);
        let b = if op == BinOp::Sub { (-(k as int)) % 0x100 } else { k as int % 0x100 };
        let s = if op == BinOp::Sub {
            Operand::<'a>::Imm(crate::isa::signed8(crate::isa::neg8(k)))
        } else {
            Operand::<'a>::Imm(crate::isa::lo8(k))
        };
        let m2 = al_combined(w, m1, steps, 1, BinOp::Add, s, b);
        let after = low_moved(w, m2, steps, 2, r, al, m2.ax % 0x100);
        crate::machine::step_end(w, after, steps, 3);
    }
}

/// `c op= k` for a character in a register, a constant and a direct operator
/// leaves the 8-bit result there. No other variable and no memory changes.
pub proof fn char_register_const<'a>(
    w: World<'a>,
    m: Machine,
    cx: Cx<'a>,
    name: &'a String,
    op: BinOp,
    value: &'a Expr,
    r: Reg,
    k: u32,
)
    requires
        m.wf(),
        is_char_in(*cx.env, *name, r),
        crate::isa::is_direct(op),
        cx.env.const_of(value) == Some(k),
        value.kind !is Comma,
    ensures
        sets_low(
            w,
            m,
            crate::codegen::compound_local::plan_emit_compound_assign(cx, name, op, value),
            r,
            byte_result(op, m.reg(r)->0, k as int % 0x100),
        ),
{
    let plan = crate::codegen::compound_local::plan_emit_compound_assign(cx, name, op, value);
    let steps = plan->Emit_0;
    if crate::isa::is_additive(op) {
        assert(plan == crate::codegen::compound_local::plan_byte_sum_const(cx, r, op, value));
        low_summed(w, m, steps, op, r, k);
    } else {
        assert(plan == crate::codegen::compound_local::plan_byte_bits_const(cx, r, op, value));
        let s = Operand::<'a>::Imm(crate::isa::lo8(k));
        let after = low_combined(w, m, steps, 0, op, r, s, k as int % 0x100);
        crate::machine::step_end(w, after, steps, 1);
    }
}

/// Adding what is left of 256 takes a byte away.
proof fn difference_adds(a: int, k: int)
    ensures
        (a + (-k) % 0x100) % 0x100 == (a - k % 0x100) % 0x100,
{
}

/// `c op= d` for a character in a register, a right side that is an operand
/// and a direct operator applies the low byte of the right side. No other
/// variable and no memory changes.
#[verifier::rlimit(60)]
pub proof fn char_register_applied<'a>(
    w: World<'a>,
    m: Machine,
    cx: Cx<'a>,
    name: &'a String,
    op: BinOp,
    value: &'a Expr,
    r: Reg,
    text: &'a String,
    b: int,
)
    requires
        m.wf(),
        is_char_in(*cx.env, *name, r),
        crate::isa::is_direct(op),
        cx.env.const_of(value) is None,
        value.kind !is Comma,
        value.kind !is BinOp,
        cx.env.facts(value).source matches Some(src) && src.byte == *text,
        crate::laws::address::is_worth(w, m, *text, b),
    ensures
        sets_low(
            w,
            m,
            crate::codegen::compound_local::plan_emit_compound_assign(cx, name, op, value),
            r,
            byte_result(op, m.reg(r)->0, b % 0x100),
        ),
{
    let plan = crate::codegen::compound_local::plan_emit_compound_assign(cx, name, op, value);
    assert(plan == crate::codegen::compound_local::plan_byte_direct(cx, r, op, value));
    let steps = plan->Emit_0;
    let t = &(cx.env.facts(value).source->0).byte;
    let s = Operand::Text(t);
    let al = Operand::<'a>::Reg(Reg::Al);
    assert(crate::laws::address::same_variables(m, m));
    if crate::codegen::compound_local::names_int_local(cx.env, value) && crate::isa::is_additive(
        op,
    ) {
        let m1 = crate::laws::stored::byte_in_al(
            w,
            m,
            steps,
            0,
            Operand::Reg(r),
            m.reg(r)->0,
        );
        assert(m1.read(w, s, true) == Some(b % 0x100));
        let m2 = al_combined(w, m1, steps, 1, op, s, b % 0x100);
        let after = low_moved(w, m2, steps, 2, r, al, m2.ax % 0x100);
        crate::machine::step_end(w, after, steps, 3);
    } else {
        let m1 = crate::laws::stored::byte_in_al(w, m, steps, 0, s, b % 0x100);
        let after = low_combined(w, m1, steps, 1, op, r, al, b % 0x100);
        crate::machine::step_end(w, after, steps, 2);
    }
}

/// `a[i] op= c` for a file-scope array of characters, a variable in `si` or
/// `di` and a direct operator applies the low byte of the right side. No
/// other memory and no register changes that holds a variable.
#[verifier::rlimit(60)]
pub proof fn global_char_by_register_applied<'a>(
    w: World<'a>,
    m: Machine,
    cx: Cx<'a>,
    array: &'a String,
    indices: &'a Vec<Expr>,
    op: BinOp,
    value: &'a Expr,
    r: Reg,
    text: &'a String,
)
    requires
        m.wf(),
        crate::laws::stored::is_global_chars(*cx.env, *array),
        indices@.len() == 1,
        cx.env.const_of(&indices@[0]) is None,
        crate::codegen::array_compound::int_index_reg(cx.env, &indices@[0]) == Some(r),
        r == Reg::Si || r == Reg::Di,
        crate::isa::is_direct(op),
        cx.env.const_of(value) is None,
        cx.env.facts(value).byte_operand == Some(*text),
    ensures
        puts_byte(
            w,
            m,
            crate::codegen::array_compound::plan_emit_array_compound_assign(
                cx,
                array,
                indices,
                op,
                value,
                false,
            ),
            (w.symbol)(array@) + m.reg(r)->0,
            byte_result(
                op,
                m.byte_at((w.symbol)(array@) + m.reg(r)->0),
                byte_worth(w, m, *text),
            ),
        ),
{
    let plan = crate::codegen::array_compound::plan_emit_array_compound_assign(
        cx,
        array,
        indices,
        op,
        value,
        false,
    );
    let gty = cx.env.global_type(array)->0;
    let list = crate::codegen::array_assign::each(indices);
    assert(plan == crate::codegen::array_compound::plan_each_global_char(
        cx,
        array,
        gty,
        list,
        op,
        value,
    ));
    let t = &cx.env.facts(value).byte_operand->0;
    let a = crate::isa::elem(array, r);
    let steps = plan->Emit_0;
    assert(steps =~= seq![
        crate::codegen::emitter::mov(crate::isa::al::<'a>(), Operand::Text(t)),
        crate::codegen::emitter::op2(
            crate::isa::direct(op),
            crate::isa::byte(a),
            crate::isa::al(),
        ),
    ]);
    text_applied(w, m, steps, op, a, t, (w.symbol)(array@) + m.reg(r)->0);
}

} // verus!
