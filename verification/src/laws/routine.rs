//! Products, quotients and shifts of 32-bit variables hand the run-time
//! routines their operands and store what comes back.

use vstd::prelude::*;
use crate::ast::{BinOp, Expr, ExprKind, Type};
use crate::codegen::emitter::{Cx, Plan, Step};
use crate::codegen::env::LocalLocation;
use crate::isa::{Addr, Helper, Mnemonic, Operand, Reg, Width};
use crate::machine::{Machine, Outcome, World};

verus! {

/// The machine behind a run-time routine.
pub open spec fn behind<'a>(w: World<'a>, h: Helper, m: Machine) -> Machine {
    (w.work)(Step::<'a>::Call(h), m)
}

/// Whether the product routine multiplies the pairs in `cx:bx` and `dx:ax`
/// and returns the low 32 bits in `dx:ax`, with memory and the stack frame
/// as they were.
pub open spec fn multiplies<'a>(w: World<'a>) -> bool {
    forall|m: Machine|
        m.wf() ==> {
            let after = #[trigger] behind(w, Helper::LongMul, m);
            &&& after.wf()
            &&& after.mem == m.mem
            &&& after.bp == m.bp
            &&& crate::machine::pair(after.dx, after.ax) == (crate::machine::pair(m.cx, m.bx)
                * crate::machine::pair(m.dx, m.ax)) % 0x1_0000_0000
        }
}

/// What a shift by some places makes of a 32-bit number.
pub open spec fn shifted_by(op: BinOp, x: int, n: nat, unsigned: bool) -> int {
    let scale = vstd::arithmetic::power2::pow2(n) as int;
    if op == BinOp::Shl {
        (x * scale) % 0x1_0000_0000
    } else if unsigned {
        x / scale
    } else {
        (crate::machine::signed_pair(x) / scale) % 0x1_0000_0000
    }
}

/// Whether a shift routine shifts the pair in `dx:ax` by the number of
/// places in `cl`, with memory and the stack frame as they were.
pub open spec fn shifts<'a>(w: World<'a>, op: BinOp, unsigned: bool) -> bool {
    forall|m: Machine|
        m.wf() ==> {
            let after = #[trigger] behind(w, crate::isa::shifter(op, unsigned), m);
            &&& after.wf()
            &&& after.mem == m.mem
            &&& after.bp == m.bp
            &&& crate::machine::pair(after.dx, after.ax) == shifted_by(
                op,
                crate::machine::pair(m.dx, m.ax),
                (m.cx % 0x100) as nat,
                unsigned,
            )
        }
}

/// The code of a product leaves it where it says.
proof fn product_stored<'a>(
    w: World<'a>,
    m: Machine,
    steps: Seq<Step<'a>>,
    a: (Addr<'a>, Addr<'a>),
    b: (Addr<'a>, Addr<'a>),
    to: (Addr<'a>, Addr<'a>),
)
    requires
        m.wf(),
        multiplies(w),
        crate::laws::steps::are_halves(w, m, a.0, a.1),
        crate::laws::steps::are_halves(w, m, b.0, b.1),
        crate::laws::steps::are_halves(w, m, to.0, to.1),
        steps =~= seq![
            crate::codegen::emitter::mov(Operand::Reg(Reg::Cx), crate::isa::word(a.1)),
            crate::codegen::emitter::mov(Operand::Reg(Reg::Bx), crate::isa::word(a.0)),
            crate::codegen::emitter::mov(Operand::Reg(Reg::Dx), crate::isa::word(b.1)),
            crate::codegen::emitter::mov(Operand::Reg(Reg::Ax), crate::isa::word(b.0)),
            Step::Call(Helper::LongMul),
            crate::codegen::emitter::mov(crate::isa::word(to.1), Operand::Reg(Reg::Dx)),
            crate::codegen::emitter::mov(crate::isa::word(to.0), Operand::Reg(Reg::Ax)),
        ],
    ensures
        crate::laws::assign::stored(
            w,
            m,
            steps,
            to.0,
            (m.long_at(m.locate(w, a.0)->0) * m.long_at(m.locate(w, b.0)->0)) % 0x1_0000_0000,
        ),
{
    let m1 = crate::laws::steps::load_word(w, m, steps, 0, Reg::Cx, a.1);
    let m2 = crate::laws::steps::load_word(w, m1, steps, 1, Reg::Bx, a.0);
    let m3 = crate::laws::steps::load_word(w, m2, steps, 2, Reg::Dx, b.1);
    let m4 = crate::laws::steps::load_word(w, m3, steps, 3, Reg::Ax, b.0);
    let m5 = behind(w, Helper::LongMul, m4);
    crate::machine::step_on(w, m4, steps, 4, m5);
    crate::laws::assign::halves_stored(
        w,
        m,
        m5,
        steps,
        5,
        to.0,
        to.1,
        Operand::Reg(Reg::Ax),
        Operand::Reg(Reg::Dx),
    );
}

/// `x = y * z` for 32-bit file-scope variables leaves the low 32 bits of the
/// product in `x`, and nothing else in memory changes.
pub proof fn product_assign_global<'a>(
    w: World<'a>,
    m: Machine,
    cx: Cx<'a>,
    name: &'a String,
    value: &'a Expr,
    left: &'a Box<Expr>,
    right: &'a Box<Expr>,
    a: &'a String,
    b: &'a String,
)
    requires
        m.wf(),
        multiplies(w),
        cx.env.is_long_global(name),
        cx.env.is_long_global(a),
        cx.env.is_long_global(b),
        cx.env.const_of(value) is None,
        value.kind == (ExprKind::BinOp { op: BinOp::Mul, left: *left, right: *right }),
        left.kind == ExprKind::Ident(*a),
        right.kind == ExprKind::Ident(*b),
        cx.env.const_of(&**right) is None,
    ensures
        crate::laws::long::leaves_long(
            w,
            m,
            crate::codegen::assign_global::plan_emit_assign_global(cx, name, value),
            (w.symbol)(name@),
            (m.long_at((w.symbol)(a@)) * m.long_at((w.symbol)(b@))) % 0x1_0000_0000,
        ),
{
    let plan = crate::codegen::assign_global::plan_emit_assign_global(cx, name, value);
    assert(plan == crate::codegen::assign_global::plan_global_long_mul(cx, name, value));
    product_stored(
        w,
        m,
        plan->Emit_0,
        (crate::isa::global(a), crate::isa::global2(a)),
        (crate::isa::global(b), crate::isa::global2(b)),
        (crate::isa::global(name), crate::isa::global2(name)),
    );
}

/// `x = y * z` for 32-bit local variables in the stack frame leaves the low
/// 32 bits of the product in `x`, and nothing else in memory changes.
pub proof fn product_assign_local<'a>(
    w: World<'a>,
    m: Machine,
    cx: Cx<'a>,
    off: i16,
    ty: &'a Type,
    value: &'a Expr,
    left: &'a Box<Expr>,
    right: &'a Box<Expr>,
    a: &'a String,
    b: &'a String,
    a_off: i16,
    b_off: i16,
)
    requires
        m.wf(),
        multiplies(w),
        ty.is_long_like(),
        cx.env.is_long_local(a),
        cx.env.is_long_local(b),
        cx.env.stack_of(a) == Some(a_off),
        cx.env.stack_of(b) == Some(b_off),
        cx.env.const_of(value) is None,
        value.kind == (ExprKind::BinOp { op: BinOp::Mul, left: *left, right: *right }),
        left.kind == ExprKind::Ident(*a),
        right.kind == ExprKind::Ident(*b),
    ensures
        crate::laws::long::leaves_long(
            w,
            m,
            crate::codegen::assign_local::plan_emit_assign_local(
                cx,
                LocalLocation::Stack(off),
                ty,
                value,
            ),
            m.bp + off,
            (m.long_at(m.bp + a_off) * m.long_at(m.bp + b_off)) % 0x1_0000_0000,
        ),
{
    let plan = crate::codegen::assign_local::plan_emit_assign_local(
        cx,
        LocalLocation::Stack(off),
        ty,
        value,
    );
    assert(plan == crate::codegen::assign_local::plan_local_long_mul(cx, off, value));
    product_stored(
        w,
        m,
        plan->Emit_0,
        (crate::isa::bp(a_off), crate::isa::bp2(a_off)),
        (crate::isa::bp(b_off), crate::isa::bp2(b_off)),
        (crate::isa::bp(off), crate::isa::bp2(off)),
    );
}

/// `x *= y` for two 32-bit variables leaves the low 32 bits of the product
/// in `x`, and nothing else in memory changes.
pub proof fn product_compound<'a>(
    w: World<'a>,
    m: Machine,
    cx: Cx<'a>,
    name: &'a String,
    value: &'a Expr,
    other: &'a String,
)
    requires
        m.wf(),
        multiplies(w),
        crate::laws::long::names_long(*cx.env, *name),
        value.kind == ExprKind::Ident(*other),
        crate::laws::long::names_long(*cx.env, *other),
        cx.env.const_of(value) is None,
        cx.env.facts(value).compound_type is None,
        cx.env.facts(value).widening_type is None,
    ensures
        crate::laws::long::leaves_long(
            w,
            m,
            crate::codegen::compound_local::plan_emit_compound_assign(
                cx,
                name,
                BinOp::Mul,
                value,
            ),
            crate::laws::long::home(w, m, *cx.env, name),
            (m.long_at(crate::laws::long::home(w, m, *cx.env, other)) * m.long_at(
                crate::laws::long::home(w, m, *cx.env, name),
            )) % 0x1_0000_0000,
        ),
{
    let (lo, hi) = cx.env.long_halves_of(name)->0;
    let (rhs_lo, rhs_hi) = cx.env.long_halves_of(other)->0;
    let plan = crate::codegen::compound_local::plan_emit_compound_assign(
        cx,
        name,
        BinOp::Mul,
        value,
    );
    assert(plan == crate::codegen::compound_long::plan_pair_mul(
        cx,
        lo,
        hi,
        rhs_lo,
        rhs_hi,
        BinOp::Mul,
    ));
    product_stored(w, m, plan->Emit_0, (rhs_lo, rhs_hi), (lo, hi), (lo, hi));
}

/// `x = y << k` and `x = y >> k` for 32-bit file-scope variables and from 2
/// to 255 places leave in `x` the number shifted, to the right with its sign
/// unless `y` is unsigned. Nothing else in memory changes.
pub proof fn places_assign<'a>(
    w: World<'a>,
    m: Machine,
    cx: Cx<'a>,
    name: &'a String,
    value: &'a Expr,
    op: BinOp,
    left: &'a Box<Expr>,
    right: &'a Box<Expr>,
    from: &'a String,
    k: u32,
)
    requires
        m.wf(),
        shifts(w, op, cx.env.is_unsigned_global(from)),
        crate::isa::is_shift(op),
        cx.env.is_long_global(name),
        cx.env.is_long_global(from),
        cx.env.const_of(value) is None,
        value.kind == (ExprKind::BinOp { op, left: *left, right: *right }),
        left.kind == ExprKind::Ident(*from),
        cx.env.const_of(&**right) == Some(k),
        2 <= k <= 255,
    ensures
        crate::laws::long::leaves_long(
            w,
            m,
            crate::codegen::assign_global::plan_emit_assign_global(cx, name, value),
            (w.symbol)(name@),
            shifted_by(
                op,
                m.long_at((w.symbol)(from@)),
                k as nat,
                cx.env.is_unsigned_global(from),
            ),
        ),
{
    let unsigned = cx.env.is_unsigned_global(from);
    let plan = crate::codegen::assign_global::plan_emit_assign_global(cx, name, value);
    assert(plan == crate::codegen::assign_global::plan_global_long_shift(cx, name, value));
    let steps = plan->Emit_0;
    let m1 = crate::laws::steps::load_word(w, m, steps, 0, Reg::Dx, crate::isa::global2(from));
    let m2 = crate::laws::steps::load_word(w, m1, steps, 1, Reg::Ax, crate::isa::global(from));
    let m3 = crate::laws::bitfield::count_in_cl(w, m2, steps, 2, k as i64);
    let m4 = behind(w, crate::isa::shifter(op, unsigned), m3);
    crate::machine::step_on(w, m3, steps, 3, m4);
    crate::laws::assign::halves_stored(
        w,
        m,
        m4,
        steps,
        4,
        crate::isa::global(name),
        crate::isa::global2(name),
        Operand::Reg(Reg::Ax),
        Operand::Reg(Reg::Dx),
    );
}

/// `x <<= k` and `x >>= k` for a 32-bit variable and from 2 to 255 places
/// leave in `x` the number shifted, to the right with its sign unless `x` is
/// unsigned. Nothing else in memory changes.
pub proof fn places_compound<'a>(
    w: World<'a>,
    m: Machine,
    cx: Cx<'a>,
    name: &'a String,
    op: BinOp,
    value: &'a Expr,
    k: u32,
)
    requires
        m.wf(),
        crate::laws::long::names_long(*cx.env, *name),
        shifts(w, op, cx.env.var_type(name)->0.is_unsigned()),
        crate::isa::is_shift(op),
        crate::laws::long::is_const(*cx.env, *value, k),
        value.kind is IntLit,
        cx.env.facts(value).widening_type is None,
        cx.env.facts(value).long_halves is None,
        2 <= k <= 255,
    ensures
        crate::laws::long::leaves_long(
            w,
            m,
            crate::codegen::compound_local::plan_emit_compound_assign(cx, name, op, value),
            crate::laws::long::home(w, m, *cx.env, name),
            shifted_by(
                op,
                m.long_at(crate::laws::long::home(w, m, *cx.env, name)),
                k as nat,
                cx.env.var_type(name)->0.is_unsigned(),
            ),
        ),
{
    let (lo, hi) = cx.env.long_halves_of(name)->0;
    let unsigned = cx.env.var_type(name)->0.is_unsigned();
    let plan = crate::codegen::compound_local::plan_emit_compound_assign(cx, name, op, value);
    assert(plan == crate::codegen::compound_long::plan_wide_shift_const(
        cx,
        lo,
        hi,
        unsigned,
        op,
        k,
    ));
    let steps = plan->Emit_0;
    let m1 = crate::laws::bitfield::count_in_cl(w, m, steps, 0, k as i64);
    let m2 = crate::laws::steps::load_word(w, m1, steps, 1, Reg::Dx, hi);
    let m3 = crate::laws::steps::load_word(w, m2, steps, 2, Reg::Ax, lo);
    let m4 = behind(w, crate::isa::shifter(op, unsigned), m3);
    crate::machine::step_on(w, m3, steps, 3, m4);
    crate::laws::assign::halves_stored(
        w,
        m,
        m4,
        steps,
        4,
        lo,
        hi,
        Operand::Reg(Reg::Ax),
        Operand::Reg(Reg::Dx),
    );
}

/// What a division or a remainder makes of two 32-bit numbers.
pub open spec fn divided(op: BinOp, a: int, b: int, unsigned: bool) -> int {
    let x = crate::laws::branch::long_as_compared(a, unsigned);
    let y = crate::laws::branch::long_as_compared(b, unsigned);
    if op == BinOp::Div {
        crate::machine::truncated(x, y) % 0x1_0000_0000
    } else {
        (x - y * crate::machine::truncated(x, y)) % 0x1_0000_0000
    }
}

/// Whether a division routine divides the pair on top of the stack by the
/// pair below it and returns the result in `dx:ax`, with memory and the
/// stack frame as they were.
pub open spec fn divides<'a>(w: World<'a>, op: BinOp, unsigned: bool) -> bool {
    forall|m: Machine|
        m.wf() && m.long_at(m.sp + 4) != 0 ==> {
            let after = #[trigger] behind(w, crate::isa::divider(op, unsigned), m);
            &&& after.wf()
            &&& after.mem == m.mem
            &&& after.bp == m.bp
            &&& crate::machine::pair(after.dx, after.ax) == divided(
                op,
                m.long_at(m.sp),
                m.long_at(m.sp + 4),
                unsigned,
            )
        }
}

/// Whether the four bytes at a place are clear of the eight bytes below the
/// top of the stack, where the operands of a division are pushed.
pub open spec fn clear_of_stack(m: Machine, at: int) -> bool {
    8 <= crate::machine::wrap(at - (m.sp - 8)) <= 0x1_0000 - 4
}

/// Whether two memories agree outside four bytes and the eight bytes below
/// the top of the stack.
pub open spec fn same_but_pushed(one: Map<int, int>, m: Machine, at: int) -> bool {
    forall|b: int|
        0 <= b < 0x1_0000 && crate::machine::wrap(b - at) >= 4 && crate::machine::wrap(
            b - (m.sp - 8),
        ) >= 8 ==> #[trigger] one[b] == m.mem[b]
}

/// Whether the code of a plan goes through and leaves a 32-bit number at a
/// place, with no other memory changed but below the top of the stack.
pub open spec fn leaves_long_past_stack<'a>(
    w: World<'a>,
    m: Machine,
    plan: Plan<'a>,
    at: int,
    value: int,
) -> bool {
    &&& plan matches Plan::Emit(steps)
    &&& crate::machine::run(w, m, steps, 0) matches Outcome::Through(after)
    &&& after.long_at(at) == value
    &&& same_but_pushed(after.mem, m, at)
}

/// A word pushed.
proof fn word_pushed<'a>(w: World<'a>, m: Machine, steps: Seq<Step<'a>>, i: int, a: Addr<'a>) -> (
    after: Machine)
    requires
        m.wf(),
        0 <= i < steps.len(),
        steps[i] == Step::Op1(Mnemonic::Push, Operand::Mem(Width::Word, a)),
        m.locate(w, a) is Some,
    ensures
        crate::machine::run(w, m, steps, i) == crate::machine::run(w, after, steps, i + 1),
        after.wf(),
        after == (Machine {
            sp: crate::machine::wrap(m.sp - 2),
            mem: crate::machine::put_word(m.mem, m.sp - 2, m.word_at(m.locate(w, a)->0)),
            ..m
        }),
{
    let at = m.locate(w, a)->0;
    crate::machine::word_range(m.mem, at);
    crate::machine::word_written(m.mem, m.sp - 2, m.word_at(at));
    let after = Machine {
        sp: crate::machine::wrap(m.sp - 2),
        mem: crate::machine::put_word(m.mem, m.sp - 2, m.word_at(at)),
        ..m
    };
    assert(crate::machine::run_step(w, m, steps[i]) == Some(after));
    crate::machine::step_on(w, m, steps, i, after);
    after
}

/// Addresses that agree in 16 bits name the same word.
proof fn same_word(mem: Map<int, int>, a: int, b: int)
    requires
        crate::machine::wrap(a) == crate::machine::wrap(b),
    ensures
        crate::machine::word_in(mem, a) == crate::machine::word_in(mem, b),
{
    reveal(crate::machine::word_in);
    assert(crate::machine::wrap(a + 1) == crate::machine::wrap(b + 1));
}

/// Addresses that agree in 16 bits name the same word to write.
proof fn same_put(mem: Map<int, int>, a: int, b: int, v: int)
    requires
        crate::machine::wrap(a) == crate::machine::wrap(b),
    ensures
        crate::machine::put_word(mem, a, v) == crate::machine::put_word(mem, b, v),
{
    reveal(crate::machine::put_word);
    assert(crate::machine::wrap(a + 1) == crate::machine::wrap(b + 1));
}

/// A memory with two pairs of words pushed.
pub open spec fn pushed(
    mem: Map<int, int>,
    sp: int,
    b_hi: int,
    b_lo: int,
    a_hi: int,
    a_lo: int,
) -> Map<int, int> {
    let one = crate::machine::put_word(mem, sp - 2, b_hi);
    let two = crate::machine::put_word(one, sp - 4, b_lo);
    let three = crate::machine::put_word(two, sp - 6, a_hi);
    crate::machine::put_word(three, sp - 8, a_lo)
}

/// What is pushed lies below the top of the stack, and nothing else in
/// memory changes.
proof fn pushed_holds(
    mem: Map<int, int>,
    sp: int,
    b_hi: int,
    b_lo: int,
    a_hi: int,
    a_lo: int,
)
    requires
        0 <= b_hi < 0x1_0000,
        0 <= b_lo < 0x1_0000,
        0 <= a_hi < 0x1_0000,
        0 <= a_lo < 0x1_0000,
    ensures
        ({
            let after = pushed(mem, sp, b_hi, b_lo, a_hi, a_lo);
            &&& crate::machine::word_in(after, sp - 8) == a_lo
            &&& crate::machine::word_in(after, sp - 6) == a_hi
            &&& crate::machine::word_in(after, sp - 4) == b_lo
            &&& crate::machine::word_in(after, sp - 2) == b_hi
            &&& crate::machine::same_but(after, mem, sp - 8, 8)
        }),
{
    let one = crate::machine::put_word(mem, sp - 2, b_hi);
    let two = crate::machine::put_word(one, sp - 4, b_lo);
    let three = crate::machine::put_word(two, sp - 6, a_hi);
    let four = crate::machine::put_word(three, sp - 8, a_lo);
    crate::machine::word_written(mem, sp - 2, b_hi);
    crate::machine::word_written(one, sp - 4, b_lo);
    crate::machine::word_written(two, sp - 6, a_hi);
    crate::machine::word_written(three, sp - 8, a_lo);
    assert(crate::machine::apart(sp - 8, sp - 6));
    assert(crate::machine::apart(sp - 8, sp - 4));
    assert(crate::machine::apart(sp - 8, sp - 2));
    assert(crate::machine::apart(sp - 6, sp - 4));
    assert(crate::machine::apart(sp - 6, sp - 2));
    assert(crate::machine::apart(sp - 4, sp - 2));
    crate::machine::same_but_below(mem, one, two, sp - 4, 2, 2);
    crate::machine::same_but_below(mem, two, three, sp - 6, 2, 4);
    crate::machine::same_but_below(mem, three, four, sp - 8, 2, 6);
}

/// Four words pushed: two pairs, each with the high word first.
#[verifier::rlimit(60)]
proof fn pairs_pushed<'a>(
    w: World<'a>,
    m: Machine,
    steps: Seq<Step<'a>>,
    a: (Addr<'a>, Addr<'a>),
    b: (Addr<'a>, Addr<'a>),
) -> (after: Machine)
    requires
        m.wf(),
        crate::laws::steps::are_halves(w, m, a.0, a.1),
        crate::laws::steps::are_halves(w, m, b.0, b.1),
        clear_of_stack(m, m.locate(w, a.0)->0),
        clear_of_stack(m, m.locate(w, b.0)->0),
        steps.len() >= 4,
        steps[0] == Step::Op1(Mnemonic::Push, Operand::Mem(Width::Word, b.1)),
        steps[1] == Step::Op1(Mnemonic::Push, Operand::Mem(Width::Word, b.0)),
        steps[2] == Step::Op1(Mnemonic::Push, Operand::Mem(Width::Word, a.1)),
        steps[3] == Step::Op1(Mnemonic::Push, Operand::Mem(Width::Word, a.0)),
    ensures
        crate::machine::run(w, m, steps, 0) == crate::machine::run(w, after, steps, 4),
        after.wf(),
        after.bp == m.bp,
        after.long_at(after.sp) == m.long_at(m.locate(w, a.0)->0),
        after.long_at(after.sp + 4) == m.long_at(m.locate(w, b.0)->0),
        crate::machine::same_but(after.mem, m.mem, m.sp - 8, 8),
{
    let x = m.locate(w, a.0)->0;
    let y = m.locate(w, b.0)->0;
    let (a_lo, a_hi) = (m.word_at(x), m.word_at(x + 2));
    let (b_lo, b_hi) = (m.word_at(y), m.word_at(y + 2));
    crate::machine::word_range(m.mem, x);
    crate::machine::word_range(m.mem, x + 2);
    crate::machine::word_range(m.mem, y);
    crate::machine::word_range(m.mem, y + 2);
    let m1 = word_pushed(w, m, steps, 0, b.1);
    let one = m1.mem;
    crate::machine::word_written(m.mem, m.sp - 2, b_hi);
    stack_apart(m, x);
    stack_apart(m, y);
    assert(one == crate::machine::put_word(m.mem, m.sp - 2, b_hi));
    assert(crate::machine::word_in(one, y) == b_lo);
    assert(crate::machine::word_in(one, x) == a_lo);
    assert(crate::machine::word_in(one, x + 2) == a_hi);
    let m2 = word_pushed(w, m1, steps, 1, b.0);
    let two = crate::machine::put_word(one, m.sp - 4, b_lo);
    same_put(one, m1.sp - 2, m.sp - 4, b_lo);
    crate::machine::word_written(one, m.sp - 4, b_lo);
    assert(crate::machine::word_in(two, x) == a_lo);
    assert(crate::machine::word_in(two, x + 2) == a_hi);
    let m3 = word_pushed(w, m2, steps, 2, a.1);
    let three = crate::machine::put_word(two, m.sp - 6, a_hi);
    same_put(two, m2.sp - 2, m.sp - 6, a_hi);
    crate::machine::word_written(two, m.sp - 6, a_hi);
    assert(crate::machine::word_in(three, x) == a_lo);
    let m4 = word_pushed(w, m3, steps, 3, a.0);
    same_put(three, m3.sp - 2, m.sp - 8, a_lo);
    assert(m4.mem == pushed(m.mem, m.sp, b_hi, b_lo, a_hi, a_lo));
    pushed_holds(m.mem, m.sp, b_hi, b_lo, a_hi, a_lo);
    same_word(m4.mem, m4.sp, m.sp - 8);
    same_word(m4.mem, m4.sp + 2, m.sp - 6);
    same_word(m4.mem, m4.sp + 4, m.sp - 4);
    same_word(m4.mem, m4.sp + 6, m.sp - 2);
    m4
}

/// A place clear of the stack has both its words apart from what is pushed.
proof fn stack_apart(m: Machine, at: int)
    requires
        clear_of_stack(m, at),
    ensures
        crate::machine::apart(m.sp - 2, at),
        crate::machine::apart(m.sp - 2, at + 2),
        crate::machine::apart(m.sp - 4, at),
        crate::machine::apart(m.sp - 4, at + 2),
        crate::machine::apart(m.sp - 6, at),
        crate::machine::apart(m.sp - 6, at + 2),
{
}

/// The code of a division leaves its result where it says.
proof fn quotient_stored<'a>(
    w: World<'a>,
    m: Machine,
    steps: Seq<Step<'a>>,
    a: (Addr<'a>, Addr<'a>),
    b: (Addr<'a>, Addr<'a>),
    to: (Addr<'a>, Addr<'a>),
    op: BinOp,
    unsigned: bool,
)
    requires
        m.wf(),
        divides(w, op, unsigned),
        crate::laws::steps::are_halves(w, m, a.0, a.1),
        crate::laws::steps::are_halves(w, m, b.0, b.1),
        crate::laws::steps::are_halves(w, m, to.0, to.1),
        clear_of_stack(m, m.locate(w, a.0)->0),
        clear_of_stack(m, m.locate(w, b.0)->0),
        m.long_at(m.locate(w, b.0)->0) != 0,
        steps =~= seq![
            Step::Op1(Mnemonic::Push, crate::isa::word(b.1)),
            Step::Op1(Mnemonic::Push, crate::isa::word(b.0)),
            Step::Op1(Mnemonic::Push, crate::isa::word(a.1)),
            Step::Op1(Mnemonic::Push, crate::isa::word(a.0)),
            Step::Call(crate::isa::divider(op, unsigned)),
            crate::codegen::emitter::mov(crate::isa::word(to.1), Operand::Reg(Reg::Dx)),
            crate::codegen::emitter::mov(crate::isa::word(to.0), Operand::Reg(Reg::Ax)),
        ],
    ensures
        leaves_long_past_stack(
            w,
            m,
            Plan::Emit(steps),
            m.locate(w, to.0)->0,
            divided(
                op,
                m.long_at(m.locate(w, a.0)->0),
                m.long_at(m.locate(w, b.0)->0),
                unsigned,
            ),
        ),
{
    let m1 = pairs_pushed(w, m, steps, a, b);
    let m2 = behind(w, crate::isa::divider(op, unsigned), m1);
    crate::machine::step_on(w, m1, steps, 4, m2);
    let after = crate::laws::steps::store_pair(
        w,
        m2,
        steps,
        5,
        to.0,
        to.1,
        Operand::Reg(Reg::Ax),
        Operand::Reg(Reg::Dx),
    );
    crate::machine::step_end(w, after, steps, 7);
    assert(same_but_pushed(after.mem, m, m.locate(w, to.0)->0)) by {
        reveal(crate::machine::same_but);
    }
}

/// `x = y / z` and `x = y % z` for 32-bit file-scope variables leave the
/// quotient or the remainder in `x`, taken without sign if one of the two is
/// unsigned. The divisor is not zero, and `y` and `z` do not lie where the
/// stack grows.
pub proof fn quotient_assign_global<'a>(
    w: World<'a>,
    m: Machine,
    cx: Cx<'a>,
    name: &'a String,
    value: &'a Expr,
    op: BinOp,
    left: &'a Box<Expr>,
    right: &'a Box<Expr>,
    a: &'a String,
    b: &'a String,
)
    requires
        m.wf(),
        divides(w, op, cx.env.is_unsigned_global(a) || cx.env.is_unsigned_global(b)),
        crate::isa::is_division(op),
        cx.env.is_long_global(name),
        cx.env.is_long_global(a),
        cx.env.is_long_global(b),
        cx.env.const_of(value) is None,
        value.kind == (ExprKind::BinOp { op, left: *left, right: *right }),
        left.kind == ExprKind::Ident(*a),
        right.kind == ExprKind::Ident(*b),
        clear_of_stack(m, (w.symbol)(a@)),
        clear_of_stack(m, (w.symbol)(b@)),
        m.long_at((w.symbol)(b@)) != 0,
    ensures
        leaves_long_past_stack(
            w,
            m,
            crate::codegen::assign_global::plan_emit_assign_global(cx, name, value),
            (w.symbol)(name@),
            divided(
                op,
                m.long_at((w.symbol)(a@)),
                m.long_at((w.symbol)(b@)),
                cx.env.is_unsigned_global(a) || cx.env.is_unsigned_global(b),
            ),
        ),
{
    let plan = crate::codegen::assign_global::plan_emit_assign_global(cx, name, value);
    assert(plan == crate::codegen::assign_global::plan_global_long_div(cx, name, value));
    quotient_stored(
        w,
        m,
        plan->Emit_0,
        (crate::isa::global(a), crate::isa::global2(a)),
        (crate::isa::global(b), crate::isa::global2(b)),
        (crate::isa::global(name), crate::isa::global2(name)),
        op,
        cx.env.is_unsigned_global(a) || cx.env.is_unsigned_global(b),
    );
}

/// `x = y / z` and `x = y % z` for 32-bit local variables in the stack frame
/// leave the quotient or the remainder in `x`, taken without sign if one of
/// the two is unsigned. The divisor is not zero, and `y` and `z` do not lie
/// where the stack grows.
pub proof fn quotient_assign_local<'a>(
    w: World<'a>,
    m: Machine,
    cx: Cx<'a>,
    off: i16,
    ty: &'a Type,
    value: &'a Expr,
    op: BinOp,
    left: &'a Box<Expr>,
    right: &'a Box<Expr>,
    a: &'a String,
    b: &'a String,
    a_off: i16,
    b_off: i16,
)
    requires
        m.wf(),
        divides(w, op, cx.env.is_unsigned_local(a) || cx.env.is_unsigned_local(b)),
        crate::isa::is_division(op),
        ty.is_long_like(),
        cx.env.is_long_local(a),
        cx.env.is_long_local(b),
        cx.env.stack_of(a) == Some(a_off),
        cx.env.stack_of(b) == Some(b_off),
        cx.env.const_of(value) is None,
        value.kind == (ExprKind::BinOp { op, left: *left, right: *right }),
        left.kind == ExprKind::Ident(*a),
        right.kind == ExprKind::Ident(*b),
        clear_of_stack(m, m.bp + a_off),
        clear_of_stack(m, m.bp + b_off),
        m.long_at(m.bp + b_off) != 0,
    ensures
        leaves_long_past_stack(
            w,
            m,
            crate::codegen::assign_local::plan_emit_assign_local(
                cx,
                LocalLocation::Stack(off),
                ty,
                value,
            ),
            m.bp + off,
            divided(
                op,
                m.long_at(m.bp + a_off),
                m.long_at(m.bp + b_off),
                cx.env.is_unsigned_local(a) || cx.env.is_unsigned_local(b),
            ),
        ),
{
    let plan = crate::codegen::assign_local::plan_emit_assign_local(
        cx,
        LocalLocation::Stack(off),
        ty,
        value,
    );
    assert(plan == crate::codegen::assign_local::plan_local_long_div(cx, off, value));
    quotient_stored(
        w,
        m,
        plan->Emit_0,
        (crate::isa::bp(a_off), crate::isa::bp2(a_off)),
        (crate::isa::bp(b_off), crate::isa::bp2(b_off)),
        (crate::isa::bp(off), crate::isa::bp2(off)),
        op,
        cx.env.is_unsigned_local(a) || cx.env.is_unsigned_local(b),
    );
}

/// `x /= y` and `x %= y` for two 32-bit variables leave the quotient or the
/// remainder in `x`, taken without sign if one of the two is unsigned. The
/// divisor is not zero, and `x` and `y` do not lie where the stack grows.
#[verifier::rlimit(60)]
pub proof fn quotient_compound<'a>(
    w: World<'a>,
    m: Machine,
    cx: Cx<'a>,
    name: &'a String,
    op: BinOp,
    value: &'a Expr,
    other: &'a String,
)
    requires
        m.wf(),
        crate::laws::long::names_long(*cx.env, *name),
        value.kind == ExprKind::Ident(*other),
        crate::laws::long::names_long(*cx.env, *other),
        divides(
            w,
            op,
            cx.env.var_type(name)->0.is_unsigned() || cx.env.var_type(other)->0.is_unsigned(),
        ),
        crate::isa::is_division(op),
        cx.env.const_of(value) is None,
        cx.env.facts(value).compound_type is None,
        cx.env.facts(value).widening_type is None,
        clear_of_stack(m, crate::laws::long::home(w, m, *cx.env, name)),
        clear_of_stack(m, crate::laws::long::home(w, m, *cx.env, other)),
        m.long_at(crate::laws::long::home(w, m, *cx.env, other)) != 0,
    ensures
        leaves_long_past_stack(
            w,
            m,
            crate::codegen::compound_local::plan_emit_compound_assign(cx, name, op, value),
            crate::laws::long::home(w, m, *cx.env, name),
            divided(
                op,
                m.long_at(crate::laws::long::home(w, m, *cx.env, name)),
                m.long_at(crate::laws::long::home(w, m, *cx.env, other)),
                cx.env.var_type(name)->0.is_unsigned() || cx.env.var_type(
                    other,
                )->0.is_unsigned(),
            ),
        ),
{
    let (lo, hi) = cx.env.long_halves_of(name)->0;
    let (rhs_lo, rhs_hi) = cx.env.long_halves_of(other)->0;
    let unsigned = cx.env.var_type(name)->0.is_unsigned() || cx.env.var_type(
        other,
    )->0.is_unsigned();
    let plan = crate::codegen::compound_local::plan_emit_compound_assign(cx, name, op, value);
    assert(plan == crate::codegen::compound_long::plan_pair_div(
        cx,
        lo,
        hi,
        rhs_lo,
        rhs_hi,
        op,
        unsigned,
    ));
    quotient_stored(w, m, plan->Emit_0, (lo, hi), (rhs_lo, rhs_hi), (lo, hi), op, unsigned);
}

} // verus!
