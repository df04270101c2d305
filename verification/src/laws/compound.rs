//! Compound assignment with a right side that is a variable or has to be
//! computed.

use vstd::prelude::*;
use crate::ast::{BinOp, Expr, ExprKind};
use crate::codegen::emitter::{Cx, Plan, Step};
use crate::codegen::env::{Env, LocalLocation};
use crate::isa::{Addr, Mnemonic, Operand, Reg, Width};
use crate::laws::line::{puts_word, sets_variable};
use crate::machine::{Machine, World};

verus! {

/// Whether an operand is worth a word as long as no variable and not `bx`
/// changes.
pub open spec fn is_steadily<'a>(w: World<'a>, m: Machine, o: Operand<'a>, v: int) -> bool {
    &&& 0 <= v < 0x1_0000
    &&& forall|n: Machine|
        crate::laws::address::same_variables(n, m) && n.bx == m.bx ==> #[trigger] n.read(
            w,
            o,
            false,
        ) == Some(v)
}

/// Whether the processor divides one word by another: not by zero, and not
/// the least signed word by minus one.
pub open spec fn divides(a: int, b: int, unsigned: bool) -> bool {
    b != 0 && (!unsigned ==> !(a == 0x8000 && b == 0xFFFF))
}

/// What a product, quotient or remainder makes of two words.
pub open spec fn worked(op: BinOp, a: int, b: int, unsigned: bool) -> int {
    if op == BinOp::Mul {
        crate::machine::wrap(a * b)
    } else {
        crate::laws::integer::word_divided(op, a, b, unsigned)
    }
}

/// `ax` widened and divided by an operand.
#[verifier::rlimit(60)]
pub proof fn divided<'a>(
    w: World<'a>,
    m: Machine,
    steps: Seq<Step<'a>>,
    i: int,
    by: Operand<'a>,
    b: int,
    unsigned: bool,
) -> (after: Machine)
    requires
        m.wf(),
        0 <= i,
        i + 1 < steps.len(),
        steps[i] == crate::codegen::emitter::widen_long::<'a>(unsigned),
        steps[i + 1] == Step::<'a>::Op1(crate::codegen::compound_global::division(unsigned), by),
        !crate::machine::is_byte_operand(by),
        is_steadily(w, m, by, b),
        divides(m.ax, b, unsigned),
    ensures
        crate::machine::run(w, m, steps, i) == crate::machine::run(w, after, steps, i + 2),
        after.wf(),
        crate::laws::address::same_variables(after, m),
        after.bx == m.bx,
        after.cx == m.cx,
        after.ax == crate::laws::integer::word_divided(BinOp::Div, m.ax, b, unsigned),
        after.dx == crate::laws::integer::word_divided(BinOp::Mod, m.ax, b, unsigned),
{
    let x = crate::laws::compare::as_compared(m.ax, false, unsigned);
    let y = crate::laws::compare::as_compared(b, false, unsigned);
    crate::laws::integer::quotient_fits(x, y);
    let m1 = crate::laws::integer::ax_widened(w, m, steps, i, unsigned);
    let after = Machine {
        ax: crate::machine::wrap(crate::machine::truncated(x, y)),
        dx: crate::machine::wrap(x - y * crate::machine::truncated(x, y)),
        ..m1
    };
    assert(m1.read(w, by, false) == Some(b));
    assert(crate::machine::run_step(w, m1, steps[i + 1]) == Some(after)) by {
        reveal(crate::machine::divide);
        if !unsigned {
            assert(crate::machine::signed_pair(crate::machine::pair(m1.dx, m1.ax)) == x);
        }
    }
    crate::machine::step_on(w, m1, steps, i + 1, after);
    after
}

/// The steps that multiply `ax` by an operand, or widen and divide it.
pub open spec fn work<'a>(op: BinOp, by: Operand<'a>, unsigned: bool) -> Seq<Step<'a>> {
    if op == BinOp::Mul {
        seq![crate::codegen::emitter::imul(by)]
    } else {
        seq![
            crate::codegen::emitter::widen_long(unsigned),
            Step::Op1(crate::codegen::compound_global::division(unsigned), by),
        ]
    }
}

/// `ax` multiplied or divided by an operand.
pub proof fn worked_out<'a>(
    w: World<'a>,
    m: Machine,
    op: BinOp,
    by: Operand<'a>,
    b: int,
    unsigned: bool,
) -> (after: Machine)
    requires
        m.wf(),
        crate::isa::is_multiplicative(op),
        !crate::machine::is_byte_operand(by),
        is_steadily(w, m, by, b),
        op != BinOp::Mul ==> divides(m.ax, b, unsigned),
    ensures
        crate::machine::run(w, m, work(op, by, unsigned), 0) == crate::machine::Outcome::Through(
            after,
        ),
        after.wf(),
        crate::laws::address::same_variables(after, m),
        after.bx == m.bx,
        after.cx == m.cx,
        after.read(w, crate::isa::quotient(op), false) == Some(worked(op, m.ax, b, unsigned)),
        0 <= worked(op, m.ax, b, unsigned) < 0x1_0000,
{
    let steps = work(op, by, unsigned);
    if op == BinOp::Mul {
        assert(crate::laws::address::same_variables(m, m));
        assert(m.read(w, by, false) == Some(b));
        let after = crate::laws::integer::multiplied(w, m, steps, 0, by);
        crate::machine::step_end(w, after, steps, 1);
        after
    } else {
        let after = divided(w, m, steps, 0, by, b, unsigned);
        crate::machine::step_end(w, after, steps, 2);
        after
    }
}

/// A word in memory taken into `ax`, multiplied or divided there, and put
/// back.
#[verifier::rlimit(60)]
pub proof fn worked_in_memory<'a>(
    w: World<'a>,
    m: Machine,
    steps: Seq<Step<'a>>,
    a: Addr<'a>,
    at: int,
    op: BinOp,
    by: Operand<'a>,
    b: int,
    unsigned: bool,
)
    requires
        m.wf(),
        crate::isa::is_multiplicative(op),
        crate::laws::target::is_kept_address(a),
        m.locate(w, a) == Some(at),
        !crate::machine::is_byte_operand(by),
        is_steadily(w, m, by, b),
        op != BinOp::Mul ==> divides(m.word_at(at), b, unsigned),
        steps == seq![crate::codegen::emitter::mov(crate::isa::ax::<'a>(), crate::isa::word(a))]
            + work(op, by, unsigned) + seq![
            crate::codegen::emitter::mov(crate::isa::word(a), crate::isa::quotient::<'a>(op)),
        ],
    ensures
        puts_word(w, m, Plan::Emit(steps), at, worked(op, m.word_at(at), b, unsigned)),
{
    let first = seq![crate::codegen::emitter::mov(crate::isa::ax::<'a>(), crate::isa::word(a))];
    let second = work(op, by, unsigned);
    let s = crate::isa::quotient::<'a>(op);
    let last = seq![crate::codegen::emitter::mov(crate::isa::word(a), s)];
    let m1 = crate::laws::steps::load_word(w, m, first, 0, Reg::Ax, a);
    crate::machine::step_end(w, m1, first, 1);
    assert(is_steadily(w, m1, by, b));
    let m2 = worked_out(w, m1, op, by, b, unsigned);
    crate::laws::address::first_part(w, m, first, second, m1);
    crate::laws::target::kept_place(w, m, m2, a);
    let x = worked(op, m.word_at(at), b, unsigned);
    let after = crate::laws::target::put_at(w, m2, last, 0, false, a, s, at, at, x);
    crate::machine::step_end(w, after, last, 1);
    crate::laws::address::first_part(w, m, first + second, last, m2);
}

/// A word in a register taken into `ax`, multiplied or divided there, and
/// put back.
#[verifier::rlimit(60)]
pub proof fn worked_in_register<'a>(
    w: World<'a>,
    m: Machine,
    steps: Seq<Step<'a>>,
    r: Reg,
    op: BinOp,
    by: Operand<'a>,
    b: int,
    unsigned: bool,
)
    requires
        m.wf(),
        crate::isa::is_multiplicative(op),
        r == Reg::Si || r == Reg::Di,
        !crate::machine::is_byte_operand(by),
        is_steadily(w, m, by, b),
        op != BinOp::Mul ==> divides(m.reg(r)->0, b, unsigned),
        steps == seq![crate::codegen::emitter::mov(crate::isa::ax::<'a>(), Operand::Reg(r))]
            + work(op, by, unsigned) + seq![
            crate::codegen::emitter::mov(Operand::Reg(r), crate::isa::quotient::<'a>(op)),
        ],
    ensures
        sets_variable(w, m, Plan::Emit(steps), r, worked(op, m.reg(r)->0, b, unsigned)),
{
    let from = Operand::<'a>::Reg(r);
    let first = seq![crate::codegen::emitter::mov(crate::isa::ax::<'a>(), from)];
    let second = work(op, by, unsigned);
    let s = crate::isa::quotient::<'a>(op);
    let last = seq![crate::codegen::emitter::mov(Operand::Reg(r), s)];
    let m1 = crate::laws::steps::move_to_register(w, m, first, 0, Reg::Ax, from);
    crate::machine::step_end(w, m1, first, 1);
    assert(is_steadily(w, m1, by, b));
    let m2 = worked_out(w, m1, op, by, b, unsigned);
    crate::laws::address::first_part(w, m, first, second, m1);
    let after = crate::laws::steps::move_to_register(w, m2, last, 0, r, s);
    crate::machine::step_end(w, after, last, 1);
    crate::laws::address::first_part(w, m, first + second, last, m2);
}

/// Whether a name stands for a file-scope integer that no local hides.
pub open spec fn is_global_int(env: Env, name: String) -> bool {
    &&& env.global_type(&name) matches Some(t) && crate::codegen::env::is_plain_int(t)
    &&& !env.has(&name)
}

/// `g *= y`, `g /= y` and `g %= y` for a file-scope integer and a local one
/// on the stack leave the result in `g`. No other memory and no register
/// changes that holds a variable.
#[verifier::rlimit(60)]
pub proof fn global_worked_by_local<'a>(
    w: World<'a>,
    m: Machine,
    cx: Cx<'a>,
    name: &'a String,
    op: BinOp,
    value: &'a Expr,
    y: &'a String,
    off: i16,
)
    requires
        m.wf(),
        is_global_int(*cx.env, *name),
        crate::isa::is_multiplicative(op),
        value.kind == ExprKind::Ident(*y),
        !cx.env.is_global(y),
        cx.env.stack_of(y) == Some(off),
        crate::codegen::compound_global::widens_from_int(cx.env, value),
        cx.env.const_of(value) is None,
        op != BinOp::Mul ==> cx.env.facts(value).global_int is None && divides(
            m.word_at((w.symbol)(name@)),
            m.word_at(m.bp + off),
            cx.env.is_unsigned_global(name),
        ),
    ensures
        puts_word(
            w,
            m,
            crate::codegen::compound_local::plan_emit_compound_assign(cx, name, op, value),
            (w.symbol)(name@),
            worked(
                op,
                m.word_at((w.symbol)(name@)),
                m.word_at(m.bp + off),
                cx.env.is_unsigned_global(name),
            ),
        ),
{
    let ty = cx.env.global_type(name)->0;
    let plan = crate::codegen::compound_local::plan_emit_compound_assign(cx, name, op, value);
    let by = Operand::<'a>::Mem(Width::Word, crate::isa::bp(off));
    let a = crate::isa::global(name);
    let unsigned = ty.is_unsigned();
    if op == BinOp::Mul {
        assert(plan == crate::codegen::compound_global::plan_int_mul_local(cx, name, op, value));
    } else {
        assert(plan == crate::codegen::compound_global::plan_int_div_local(
            cx,
            name,
            ty,
            op,
            value,
        ));
    }
    let steps = seq![crate::codegen::emitter::mov(crate::isa::ax::<'a>(), crate::isa::word(a))]
        + work(op, by, unsigned) + seq![
        crate::codegen::emitter::mov(crate::isa::word(a), crate::isa::quotient::<'a>(op)),
    ];
    assert(plan->Emit_0 =~= steps);
    crate::machine::word_range(m.mem, m.bp + off);
    worked_in_memory(w, m, steps, a, (w.symbol)(name@), op, by, m.word_at(m.bp + off), unsigned);
}

/// `g *= h`, `g /= h` and `g %= h` for a file-scope integer and an integer
/// in file-scope storage leave the result in `g`. No other memory and no
/// register changes that holds a variable.
pub proof fn global_worked_by_global<'a>(
    w: World<'a>,
    m: Machine,
    cx: Cx<'a>,
    name: &'a String,
    op: BinOp,
    value: &'a Expr,
)
    requires
        m.wf(),
        is_global_int(*cx.env, *name),
        crate::isa::is_multiplicative(op),
        cx.env.facts(value).global_int matches Some(rhs) && crate::codegen::env::is_plain_int(
            &rhs.ty,
        ),
        !(value.kind is Deref),
        value.kind matches ExprKind::Ident(y) ==> cx.env.is_global(&y),
        value.kind !is Comma,
        cx.env.const_of(value) is None,
        op != BinOp::Mul ==> divides(
            m.word_at((w.symbol)(name@)),
            m.word_at((w.place)((cx.env.facts(value).global_int->0).addr@)),
            cx.env.is_unsigned_global(name),
        ),
    ensures
        puts_word(
            w,
            m,
            crate::codegen::compound_local::plan_emit_compound_assign(cx, name, op, value),
            (w.symbol)(name@),
            worked(
                op,
                m.word_at((w.symbol)(name@)),
                m.word_at((w.place)((cx.env.facts(value).global_int->0).addr@)),
                cx.env.is_unsigned_global(name),
            ),
        ),
{
    let ty = cx.env.global_type(name)->0;
    let plan = crate::codegen::compound_local::plan_emit_compound_assign(cx, name, op, value);
    let text = &(cx.env.facts(value).global_int->0).addr;
    let from = (w.place)(text@);
    let by = Operand::<'a>::Mem(Width::Word, Addr::Text(text));
    let a = crate::isa::global(name);
    let unsigned = ty.is_unsigned();
    let v = m.word_at((w.place)((cx.env.facts(value).global_int->0).addr@));
    assert(plan == crate::codegen::compound_global::plan_int_mul_global(
        cx,
        name,
        ty,
        op,
        value,
    ));
    let steps = seq![crate::codegen::emitter::mov(crate::isa::ax::<'a>(), crate::isa::word(a))]
        + work(op, by, unsigned) + seq![
        crate::codegen::emitter::mov(crate::isa::word(a), crate::isa::quotient::<'a>(op)),
    ];
    assert(plan->Emit_0 =~= steps);
    crate::machine::word_range(m.mem, from);
    worked_in_memory(w, m, steps, a, (w.symbol)(name@), op, by, v, unsigned);
}

/// `g *= *p`, and `g /= *p` and `g %= *p` with sign, for a file-scope
/// integer and a pointer to integers in a register leave the result in `g`.
/// No other memory and no register changes that holds a variable.
pub proof fn global_worked_by_pointed<'a>(
    w: World<'a>,
    m: Machine,
    cx: Cx<'a>,
    name: &'a String,
    op: BinOp,
    value: &'a Expr,
    inner: &'a Box<Expr>,
    p: &'a String,
    r: Reg,
)
    requires
        m.wf(),
        is_global_int(*cx.env, *name),
        crate::isa::is_multiplicative(op),
        value.kind == ExprKind::Deref(*inner),
        inner.kind == ExprKind::Ident(*p),
        !cx.env.is_global(p),
        cx.env.word_reg_of(p) == Some(r),
        crate::laws::target::is_kept(r),
        cx.env.local_pointee(p) matches Some(t) && crate::codegen::env::is_plain_int(t),
        cx.env.const_of(value) is None,
        op != BinOp::Mul ==> divides(
            m.word_at((w.symbol)(name@)),
            m.word_at(m.reg(r)->0),
            false,
        ),
    ensures
        puts_word(
            w,
            m,
            crate::codegen::compound_local::plan_emit_compound_assign(cx, name, op, value),
            (w.symbol)(name@),
            worked(
                op,
                m.word_at((w.symbol)(name@)),
                m.word_at(m.reg(r)->0),
                false,
            ),
        ),
{
    let ty = cx.env.global_type(name)->0;
    let plan = crate::codegen::compound_local::plan_emit_compound_assign(cx, name, op, value);
    let from = m.reg(r)->0;
    let by = Operand::<'a>::Mem(Width::Word, crate::isa::at(r));
    let a = crate::isa::global(name);
    let unsigned = false;
    let v = m.word_at(m.reg(r)->0);
    assert(plan == crate::codegen::compound_global::plan_int_mul_deref(cx, name, op, value));
    let steps = seq![crate::codegen::emitter::mov(crate::isa::ax::<'a>(), crate::isa::word(a))]
        + work(op, by, unsigned) + seq![
        crate::codegen::emitter::mov(crate::isa::word(a), crate::isa::quotient::<'a>(op)),
    ];
    assert(plan->Emit_0 =~= steps);
    crate::machine::word_range(m.mem, from);
    worked_in_memory(w, m, steps, a, (w.symbol)(name@), op, by, v, unsigned);
}

/// `g op= e` for a file-scope integer, a direct operator and a right side
/// that is computed leaves the 16-bit result in `g`. No other memory and no
/// register changes that holds a variable.
pub proof fn global_applied<'a>(
    w: World<'a>,
    m: Machine,
    cx: Cx<'a>,
    name: &'a String,
    op: BinOp,
    value: &'a Expr,
    x: int,
)
    requires
        m.wf(),
        is_global_int(*cx.env, *name),
        crate::isa::is_direct(op),
        cx.env.const_of(value) is None,
        value.kind !is Comma,
        value.kind matches ExprKind::Ident(y) ==> !cx.env.is_global(&y),
        cx.env.facts(value).compound_type matches Some(t) && crate::codegen::env::is_small_int(&t),
        crate::laws::rows::is_computed_as(w, m, cx, value, x),
    ensures
        puts_word(
            w,
            m,
            crate::codegen::compound_local::plan_emit_compound_assign(cx, name, op, value),
            (w.symbol)(name@),
            crate::machine::word_result(op, m.word_at((w.symbol)(name@)), x),
        ),
{
    let plan = crate::codegen::compound_local::plan_emit_compound_assign(cx, name, op, value);
    assert(plan == crate::codegen::compound_global::plan_int_direct(cx, name, op, value));
    let a = crate::isa::global(name);
    computed_applied(w, m, cx, plan->Emit_0, a, (w.symbol)(name@), op, value, x);
}

/// A computed value applied to a word in memory.
pub proof fn computed_applied<'a>(
    w: World<'a>,
    m: Machine,
    cx: Cx<'a>,
    steps: Seq<Step<'a>>,
    a: Addr<'a>,
    at: int,
    op: BinOp,
    value: &'a Expr,
    x: int,
)
    requires
        m.wf(),
        crate::isa::is_direct(op),
        crate::laws::target::is_kept_address(a),
        m.locate(w, a) == Some(at),
        crate::laws::rows::is_computed_as(w, m, cx, value, x),
        steps == seq![
            crate::codegen::emitter::to_ax(cx, value),
            crate::codegen::emitter::op2(
                crate::isa::direct(op),
                crate::isa::word(a),
                crate::isa::ax(),
            ),
        ],
    ensures
        puts_word(
            w,
            m,
            Plan::Emit(steps),
            at,
            crate::machine::word_result(op, m.word_at(at), x),
        ),
{
    assert(crate::laws::address::same_variables(m, m));
    let m1 = crate::laws::long::evaluated(w, m, cx, value);
    crate::machine::step_on(w, m, steps, 0, m1);
    crate::laws::target::kept_place(w, m, m1, a);
    let ax = Operand::<'a>::Reg(Reg::Ax);
    crate::machine::word_range(m.mem, at);
    let after = crate::laws::steps::direct_to_memory(w, m1, steps, 1, op, a, ax);
    crate::laws::steps::direct_in_range(op, m.word_at(at), x);
    crate::machine::word_written(
        m.mem,
        at,
        crate::machine::word_result(op, m.word_at(at), x),
    );
    crate::machine::step_end(w, after, steps, 2);
}

/// `*p op= e` for a pointer to integers in a register, a direct operator and
/// a right side that is computed leaves the 16-bit result where `p` points.
/// No other memory and no register changes that holds a variable.
pub proof fn pointed_applied<'a>(
    w: World<'a>,
    m: Machine,
    cx: Cx<'a>,
    target: &'a Expr,
    name: &'a String,
    op: BinOp,
    value: &'a Expr,
    from_postfix: bool,
    r: Reg,
    x: int,
)
    requires
        m.wf(),
        target.kind == ExprKind::Ident(*name),
        is_int_pointer_in(*cx.env, *name, r),
        crate::isa::is_direct(op),
        cx.env.const_of(value) is None,
        crate::laws::rows::is_computed_as(w, m, cx, value, x),
    ensures
        puts_word(
            w,
            m,
            crate::codegen::deref_write::plan_emit_deref_compound_assign(
                cx,
                target,
                op,
                value,
                from_postfix,
            ),
            m.reg(r)->0,
            crate::machine::word_result(op, m.word_at(m.reg(r)->0), x),
        ),
{
    let plan = crate::codegen::deref_write::plan_emit_deref_compound_assign(
        cx,
        target,
        op,
        value,
        from_postfix,
    );
    assert(plan == crate::codegen::deref_write::plan_deref_compound_int(cx, name, 0, op, value));
    let a = crate::isa::at(r);
    computed_applied(w, m, cx, plan->Emit_0, a, m.reg(r)->0, op, value, x);
}

/// Whether a name stands for a local near pointer to integers in a register
/// that is kept while a value is computed.
pub open spec fn is_int_pointer_in(env: Env, name: String, r: Reg) -> bool {
    &&& !env.is_global(&name)
    &&& env.local(&name) matches Some(l) && l.loc == LocalLocation::Reg(r)
    &&& env.local_pointee(&name) matches Some(t) && crate::codegen::env::is_plain_int(t)
    &&& crate::laws::target::is_kept(r)
}

/// `*p *= y`, `*p /= y` and `*p %= y` with sign for a pointer to integers in
/// a register and an integer on the stack leave the result where `p` points.
/// No other memory and no register changes that holds a variable.
pub proof fn pointed_worked<'a>(
    w: World<'a>,
    m: Machine,
    cx: Cx<'a>,
    target: &'a Expr,
    name: &'a String,
    op: BinOp,
    value: &'a Expr,
    from_postfix: bool,
    r: Reg,
    y: &'a String,
    off: i16,
)
    requires
        m.wf(),
        target.kind == ExprKind::Ident(*name),
        is_int_pointer_in(*cx.env, *name, r),
        crate::isa::is_multiplicative(op),
        value.kind == ExprKind::Ident(*y),
        !cx.env.is_global(y),
        cx.env.stack_of(y) == Some(off),
        cx.env.const_of(value) is None,
        op != BinOp::Mul ==> divides(
            m.word_at(m.reg(r)->0),
            m.word_at(m.bp + off),
            false,
        ),
    ensures
        puts_word(
            w,
            m,
            crate::codegen::deref_write::plan_emit_deref_compound_assign(
                cx,
                target,
                op,
                value,
                from_postfix,
            ),
            m.reg(r)->0,
            worked(op, m.word_at(m.reg(r)->0), m.word_at(m.bp + off), false),
        ),
{
    let plan = crate::codegen::deref_write::plan_emit_deref_compound_assign(
        cx,
        target,
        op,
        value,
        from_postfix,
    );
    assert(plan == crate::codegen::deref_write::plan_deref_compound_mul(cx, name, 0, op, value));
    let a = crate::isa::at(r);
    let by = Operand::<'a>::Mem(Width::Word, crate::isa::bp(off));
    let steps = seq![crate::codegen::emitter::mov(crate::isa::ax::<'a>(), crate::isa::word(a))]
        + work(op, by, false) + seq![
        crate::codegen::emitter::mov(crate::isa::word(a), crate::isa::quotient::<'a>(op)),
    ];
    assert(plan->Emit_0 =~= steps);
    crate::machine::word_range(m.mem, m.bp + off);
    worked_in_memory(w, m, steps, a, m.reg(r)->0, op, by, m.word_at(m.bp + off), false);
}

/// A word in memory shifted by a count that is known as text.
pub proof fn shifted_by_text<'a>(
    w: World<'a>,
    m: Machine,
    steps: Seq<Step<'a>>,
    a: Addr<'a>,
    at: int,
    by: Mnemonic,
    text: &'a String,
)
    requires
        m.wf(),
        by == Mnemonic::Shl || by == Mnemonic::Shr || by == Mnemonic::Sar,
        crate::laws::target::is_kept_address(a),
        m.locate(w, a) == Some(at),
        steps == seq![
            crate::codegen::emitter::mov(crate::isa::cl::<'a>(), Operand::Text(text)),
            crate::codegen::emitter::op2(by, crate::isa::word(a), crate::isa::cl()),
        ],
    ensures
        puts_word(
            w,
            m,
            Plan::Emit(steps),
            at,
            crate::laws::bitfield::shifted(
                by,
                m.word_at(at),
                ((w.operand)(text@, m) % 0x100) as nat,
            ),
        ),
{
    let n = ((w.operand)(text@, m) % 0x100) as nat;
    let old_value = m.word_at(at);
    crate::machine::word_range(m.mem, at);
    let m1 = crate::laws::register::text_in_cl(w, m, steps, 0, text);
    crate::laws::bitfield::shift_word(m1, by, old_value, n);
    let (r, flags) = crate::machine::shift_times(m1, by, old_value, false, n)->0;
    crate::laws::target::kept_place(w, m, m1, a);
    crate::laws::target::kept_place(w, m, flags, a);
    let after = flags.with_word(at, r);
    crate::machine::word_written(m.mem, at, r);
    assert(crate::machine::run_step(w, m1, steps[1]) == Some(after));
    crate::machine::step_on(w, m1, steps, 1, after);
    crate::machine::step_end(w, after, steps, 2);
}

/// `g <<= y` and `g >>= y` for a file-scope integer leave in `g` the number
/// shifted by the low byte of `y`, to the right with its sign unless `g` is
/// unsigned. No other memory and no register changes that holds a variable.
pub proof fn global_shifted<'a>(
    w: World<'a>,
    m: Machine,
    cx: Cx<'a>,
    name: &'a String,
    op: BinOp,
    value: &'a Expr,
)
    requires
        m.wf(),
        is_global_int(*cx.env, *name),
        crate::isa::is_shift(op),
        cx.env.const_of(value) is None,
        value.kind !is Comma,
        cx.env.facts(value).compound_type matches Some(t) && crate::codegen::env::is_small_int(&t),
        cx.env.facts(value).byte_operand is Some,
    ensures
        puts_word(
            w,
            m,
            crate::codegen::compound_local::plan_emit_compound_assign(cx, name, op, value),
            (w.symbol)(name@),
            crate::laws::bitfield::shifted(
                crate::isa::shift(op, cx.env.is_unsigned_global(name)),
                m.word_at((w.symbol)(name@)),
                ((w.operand)((cx.env.facts(value).byte_operand->0)@, m) % 0x100) as nat,
            ),
        ),
{
    let ty = cx.env.global_type(name)->0;
    let plan = crate::codegen::compound_local::plan_emit_compound_assign(cx, name, op, value);
    assert(plan == crate::codegen::compound_global::plan_int_shift(cx, name, ty, op, value));
    let a = crate::isa::global(name);
    let text = &cx.env.facts(value).byte_operand->0;
    let by = crate::isa::shift(op, ty.is_unsigned());
    let steps = seq![
        crate::codegen::emitter::mov(crate::isa::cl::<'a>(), Operand::Text(text)),
        crate::codegen::emitter::op2(by, crate::isa::word(a), crate::isa::cl()),
    ];
    assert(plan->Emit_0 =~= steps);
    shifted_by_text(w, m, steps, a, (w.symbol)(name@), by, text);
}

/// `*p <<= y` and `*p >>= y` for a pointer to integers in a register leave
/// where `p` points the number shifted by the low byte of `y`, to the right
/// with its sign unless it is unsigned. No other memory and no register
/// changes that holds a variable.
pub proof fn pointed_shifted<'a>(
    w: World<'a>,
    m: Machine,
    cx: Cx<'a>,
    target: &'a Expr,
    name: &'a String,
    op: BinOp,
    value: &'a Expr,
    from_postfix: bool,
    r: Reg,
)
    requires
        m.wf(),
        target.kind == ExprKind::Ident(*name),
        is_int_pointer_in(*cx.env, *name, r),
        crate::isa::is_shift(op),
        cx.env.const_of(value) is None,
        cx.env.facts(value).byte_operand is Some,
    ensures
        puts_word(
            w,
            m,
            crate::codegen::deref_write::plan_emit_deref_compound_assign(
                cx,
                target,
                op,
                value,
                from_postfix,
            ),
            m.reg(r)->0,
            crate::laws::bitfield::shifted(
                crate::isa::shift(op, (cx.env.local_pointee(name)->0).is_unsigned()),
                m.word_at(m.reg(r)->0),
                ((w.operand)((cx.env.facts(value).byte_operand->0)@, m) % 0x100) as nat,
            ),
        ),
{
    let t = cx.env.local_pointee(name)->0;
    let plan = crate::codegen::deref_write::plan_emit_deref_compound_assign(
        cx,
        target,
        op,
        value,
        from_postfix,
    );
    assert(plan == crate::codegen::deref_write::plan_deref_compound_shift(cx, name, 0, op, value));
    let a = crate::isa::at(r);
    let text = &cx.env.facts(value).byte_operand->0;
    let by = crate::isa::shift(op, t.is_unsigned());
    let steps = seq![
        crate::codegen::emitter::mov(crate::isa::cl::<'a>(), Operand::Text(text)),
        crate::codegen::emitter::op2(by, crate::isa::word(a), crate::isa::cl()),
    ];
    assert(plan->Emit_0 =~= steps);
    shifted_by_text(w, m, steps, a, m.reg(r)->0, by, text);
}

/// What a right side is worth for a word on the stack: an integer in memory,
/// one in a register, or anything else as it is computed.
pub open spec fn is_applied_as<'a>(
    w: World<'a>,
    m: Machine,
    cx: Cx<'a>,
    value: &'a Expr,
    x: int,
) -> bool {
    match cx.env.facts(value).int_addr {
        Some(addr) => x == m.word_at((w.place)(addr@)),
        None => match crate::codegen::compound_local::int_register(cx.env, value) {
            Some(r) => m.reg(r) == Some(x) && 0 <= x < 0x1_0000,
            None => crate::laws::rows::is_computed_as(w, m, cx, value, x),
        },
    }
}

/// `x op= y` for an integer on the stack, a direct operator and a right side
/// that is no constant leaves the 16-bit result in `x`. No other memory and
/// no register changes that holds a variable.
#[verifier::rlimit(60)]
pub proof fn frame_applied<'a>(
    w: World<'a>,
    m: Machine,
    cx: Cx<'a>,
    name: &'a String,
    op: BinOp,
    value: &'a Expr,
    off: i16,
    x: int,
)
    requires
        m.wf(),
        !cx.env.is_global(name),
        cx.env.local(name) matches Some(l) && l.loc == LocalLocation::Stack(off)
            && l.ty.is_int_like(),
        crate::isa::is_direct(op),
        cx.env.const_of(value) is None,
        value.kind !is Comma,
        is_applied_as(w, m, cx, value, x),
    ensures
        puts_word(
            w,
            m,
            crate::codegen::compound_local::plan_emit_compound_assign(cx, name, op, value),
            m.bp + off,
            crate::machine::word_result(op, m.word_at(m.bp + off), x),
        ),
{
    let l = cx.env.local(name)->0;
    let plan = crate::codegen::compound_local::plan_emit_compound_assign(cx, name, op, value);
    assert(plan == crate::codegen::compound_local::plan_stack_word(cx, l, op, value));
    let a = crate::isa::bp::<'a>(off);
    let at = m.bp + off;
    let steps = plan->Emit_0;
    crate::machine::word_range(m.mem, at);
    match &cx.env.facts(value).int_addr {
        Some(addr) => {
            crate::machine::word_range(m.mem, (w.place)(addr@));
            let m1 = crate::laws::steps::load_word(w, m, steps, 0, Reg::Ax, Addr::Text(addr));
            let ax = Operand::<'a>::Reg(Reg::Ax);
            let after = crate::laws::steps::direct_to_memory(w, m1, steps, 1, op, a, ax);
            crate::machine::step_end(w, after, steps, 2);
        },
        None => match crate::codegen::compound_local::int_register(cx.env, value) {
            Some(r) => {
                let s = Operand::<'a>::Reg(r);
                let after = crate::laws::steps::direct_to_memory(w, m, steps, 0, op, a, s);
                crate::machine::step_end(w, after, steps, 1);
            },
            None => {
                assert(crate::laws::address::same_variables(m, m));
                assert(crate::laws::long::evaluated(w, m, cx, value).ax == x);
                assert(steps =~= seq![
                    crate::codegen::emitter::to_ax(cx, value),
                    crate::codegen::emitter::op2(
                        crate::isa::direct(op),
                        crate::isa::word(a),
                        crate::isa::ax(),
                    ),
                ]);
                computed_applied(w, m, cx, steps, a, at, op, value, x);
            },
        },
    }
    crate::laws::steps::direct_in_range(op, m.word_at(at), x);
    crate::machine::word_written(m.mem, at, crate::machine::word_result(op, m.word_at(at), x));
}

} // verus!
