//! Elements of two-dimensional file-scope arrays are read and written where
//! they lie.

use vstd::prelude::*;
use crate::ast::{BinOp, Expr, ExprKind, Type};
use crate::codegen::emitter::{Cx, Plan, Step};
use crate::codegen::env::{Env, IndexSource};
use crate::isa::{Addr, Operand, Reg};
use crate::machine::{Machine, Outcome, World};

verus! {

/// What a subscript in memory or in an index register is worth; `None` for
/// any other register.
pub open spec fn source_value<'a>(w: World<'a>, m: Machine, src: IndexSource) -> Option<int> {
    match src {
        IndexSource::Mem(addr) => Some(m.word_at((w.place)(addr@))),
        IndexSource::Reg(r) => if r == Reg::Si || r == Reg::Di { m.reg(r) } else { None },
    }
}

/// A subscript is worth the same as long as no variable changes.
proof fn source_read<'a>(w: World<'a>, m: Machine, now: Machine, src: &'a IndexSource)
    requires
        now.wf(),
        crate::laws::address::same_variables(now, m),
        source_value(w, m, *src) is Some,
    ensures
        now.read(w, crate::codegen::array_index::index_source(src), false) == source_value(
            w,
            m,
            *src,
        ),
        0 <= source_value(w, m, *src)->0 < 0x1_0000,
{
    if let IndexSource::Mem(addr) = src {
        crate::machine::word_range(now.mem, (w.place)(addr@));
    }
}

/// A number of which a multiple is a power of two is one itself.
proof fn factor_of_power(n: nat, size: u32)
    requires
        n * size <= 0xFFFF_FFFF,
        crate::isa::spec_is_pow2((n * size) as u32),
    ensures
        crate::isa::spec_is_pow2(size),
    decreases n + size,
{
    let p = n * size;
    if n == 0 || size == 0 {
        assert(p == 0) by (nonlinear_arith)
            requires
                p == n * size,
                n == 0 || size == 0,
        ;
    } else if n == 1 {
        assert(p == size) by (nonlinear_arith)
            requires
                p == n * size,
                n == 1,
        ;
    } else {
        assert(p > 1) by (nonlinear_arith)
            requires
                p == n * size,
                n >= 2,
                size >= 1,
        ;
        if n % 2 == 0 {
            assert((n / 2) * size == p / 2) by (nonlinear_arith)
                requires
                    p == n * size,
                    n % 2 == 0,
            ;
            factor_of_power(n / 2, size);
        } else {
            if size % 2 == 1 {
                let a = n / 2;
                let b = (size / 2) as nat;
                assert(p == 2 * (2 * (a * b) + a + b) + 1) by (nonlinear_arith)
                    requires
                        p == n * size,
                        n == 2 * a + 1,
                        size == 2 * b + 1,
                ;
            }
            assert(n * (size / 2) == p / 2) by (nonlinear_arith)
                requires
                    p == n * size,
                    size % 2 == 0,
            ;
            factor_of_power(n, size / 2);
        }
    }
}

/// Two terms may each be cut to 16 bits before they are added.
proof fn both_wrap(a: int, b: int)
    ensures
        crate::machine::wrap(crate::machine::wrap(a) + crate::machine::wrap(b))
            == crate::machine::wrap(a + b),
{
}

/// A second subscript scaled and added to the row offset in `ax`.
proof fn inner_added<'a>(
    w: World<'a>,
    m: Machine,
    now: Machine,
    cx: Cx<'a>,
    inner: &'a IndexSource,
    size: u16,
    x: int,
) -> (after: Machine)
    requires
        now.wf(),
        crate::laws::address::same_variables(now, m),
        now.ax == crate::machine::wrap(x),
        source_value(w, m, *inner) is Some,
    ensures
        ({
            let plan = crate::codegen::array_index::plan_add_inner_to_row(cx, inner, size);
            &&& plan matches Plan::Emit(steps)
            &&& crate::machine::run(w, now, steps, 0) == Outcome::Through(after)
        }),
        after.wf(),
        after.bx == crate::machine::wrap(x + source_value(w, m, *inner)->0 * size),
        crate::laws::address::same_variables(after, m),
{
    let plan = crate::codegen::array_index::plan_add_inner_to_row(cx, inner, size);
    let steps = plan->Emit_0;
    let from = crate::codegen::array_index::index_source(inner);
    let ax = Operand::<'a>::Reg(Reg::Ax);
    let dx = Operand::<'a>::Reg(Reg::Dx);
    let j = source_value(w, m, *inner)->0;
    source_read(w, m, now, inner);
    if size == 1 {
        let m1 = crate::laws::steps::direct_to_register(
            w,
            now,
            steps,
            0,
            BinOp::Add,
            Reg::Ax,
            from,
        );
        let after = crate::laws::steps::move_to_register(w, m1, steps, 1, Reg::Bx, ax);
        crate::machine::step_end(w, after, steps, 2);
        both_wrap(x, j);
        assert(crate::machine::wrap(j) == j);
        assert(j * 1 == j);
        after
    } else if crate::isa::spec_is_pow2(size as u32) {
        let n = crate::isa::spec_halvings(size as u32) as nat;
        let first = seq![crate::codegen::emitter::mov(crate::isa::dx(), from)];
        let shifts = crate::codegen::emitter::shl1(crate::isa::dx::<'a>()).times(n);
        let last = seq![
            crate::codegen::emitter::add_to(crate::isa::ax::<'a>(), crate::isa::dx::<'a>()),
            crate::codegen::emitter::mov(crate::isa::bx::<'a>(), crate::isa::ax::<'a>()),
        ];
        assert(steps =~= first + (shifts + last));
        let m1 = crate::laws::steps::move_to_register(w, now, first, 0, Reg::Dx, from);
        crate::machine::step_end(w, m1, first, 1);
        crate::laws::address::first_part(w, now, first, shifts + last, m1);
        let m2 = crate::laws::address::doublings(w, m1, Reg::Dx, n);
        crate::laws::address::halvings_of_power(size as u32);
        crate::laws::address::first_part(w, m1, shifts, last, m2);
        let m3 = crate::laws::steps::direct_to_register(w, m2, last, 0, BinOp::Add, Reg::Ax, dx);
        let after = crate::laws::steps::move_to_register(w, m3, last, 1, Reg::Bx, ax);
        crate::machine::step_end(w, after, last, 2);
        both_wrap(x, j * size);
        after
    } else {
        let m1 = crate::laws::steps::move_to_register(w, now, steps, 0, Reg::Bx, ax);
        source_read(w, m, m1, inner);
        let m2 = crate::laws::steps::move_to_register(w, m1, steps, 1, Reg::Ax, from);
        let by = Operand::<'a>::Imm(size as i64);
        let m3 = crate::laws::steps::move_to_register(w, m2, steps, 2, Reg::Dx, by);
        let m4 = crate::laws::address::multiply_by_dx(w, m3, steps, 3);
        let after = crate::laws::steps::direct_to_register(
            w,
            m4,
            steps,
            4,
            BinOp::Add,
            Reg::Bx,
            ax,
        );
        crate::machine::step_end(w, after, steps, 5);
        both_wrap(x, j * size);
        after
    }
}

/// The offset of `a[i][j]` in a two-dimensional file-scope array arrives in
/// `bx`: the first subscript times the size of a row, and the second times
/// the size of an element, whatever the two sizes are. No variable changes.
pub proof fn global_element_2d_offset<'a>(
    w: World<'a>,
    m: Machine,
    cx: Cx<'a>,
    outer: &'a IndexSource,
    inner: &'a IndexSource,
    len: nat,
    size: u16,
)
    requires
        m.wf(),
        source_value(w, m, *outer) is Some,
        source_value(w, m, *inner) is Some,
        size * len <= 0xFFFF,
    ensures
        ({
            let plan = crate::codegen::array_index::plan_index_2d_into_bx(
                cx,
                outer,
                inner,
                (size * len) as u16,
                size,
            );
            let i = source_value(w, m, *outer)->0;
            let j = source_value(w, m, *inner)->0;
            &&& plan matches Plan::Emit(steps)
            &&& crate::machine::run(w, m, steps, 0) matches Outcome::Through(after)
            &&& after.wf()
            &&& after.bx == crate::machine::wrap(i * (size * len) + j * size)
            &&& crate::laws::address::same_variables(after, m)
        }),
{
    let row = (size * len) as u16;
    if crate::isa::spec_is_pow2(row as u32) {
        assert(len * (size as u32) == size * len) by (nonlinear_arith);
        factor_of_power(len, size as u32);
        rows_doubled(w, m, cx, outer, inner, row, size);
    } else {
        rows_multiplied(w, m, cx, outer, inner, row, size);
    }
}

/// The offset with both sizes reached by doubling.
proof fn rows_doubled<'a>(
    w: World<'a>,
    m: Machine,
    cx: Cx<'a>,
    outer: &'a IndexSource,
    inner: &'a IndexSource,
    row: u16,
    size: u16,
)
    requires
        m.wf(),
        source_value(w, m, *outer) is Some,
        source_value(w, m, *inner) is Some,
        crate::isa::spec_is_pow2(row as u32),
        crate::isa::spec_is_pow2(size as u32),
    ensures
        ({
            let plan = crate::codegen::array_index::plan_index_2d_into_bx(
                cx,
                outer,
                inner,
                row,
                size,
            );
            let i = source_value(w, m, *outer)->0;
            let j = source_value(w, m, *inner)->0;
            &&& plan matches Plan::Emit(steps)
            &&& crate::machine::run(w, m, steps, 0) matches Outcome::Through(after)
            &&& after.wf()
            &&& after.bx == crate::machine::wrap(i * row + j * size)
            &&& crate::laws::address::same_variables(after, m)
        }),
{
    let plan = crate::codegen::array_index::plan_index_2d_into_bx(cx, outer, inner, row, size);
    let i = source_value(w, m, *outer)->0;
    let j = source_value(w, m, *inner)->0;
    let n = crate::isa::spec_halvings(row as u32) as nat;
    let k = crate::isa::spec_halvings(size as u32) as nat;
    crate::laws::address::halvings_of_power(row as u32);
    crate::laws::address::halvings_of_power(size as u32);
    let from = crate::codegen::array_index::index_source(outer);
    let next = crate::codegen::array_index::index_source(inner);
    let a = seq![crate::codegen::emitter::mov(crate::isa::bx(), from)];
    let b = crate::codegen::emitter::shl1(crate::isa::bx::<'a>()).times(n);
    let c = seq![crate::codegen::emitter::mov(crate::isa::ax(), next)];
    let d = crate::codegen::emitter::shl1(crate::isa::ax::<'a>()).times(k);
    let e = seq![
        crate::codegen::emitter::add_to(crate::isa::bx::<'a>(), crate::isa::ax::<'a>()),
    ];
    assert(plan->Emit_0 =~= a + (b + (c + (d + e))));
    source_read(w, m, m, outer);
    let m1 = crate::laws::steps::move_to_register(w, m, a, 0, Reg::Bx, from);
    crate::machine::step_end(w, m1, a, 1);
    crate::laws::address::first_part(w, m, a, b + (c + (d + e)), m1);
    let m2 = crate::laws::address::doublings(w, m1, Reg::Bx, n);
    crate::laws::address::first_part(w, m1, b, c + (d + e), m2);
    source_read(w, m, m2, inner);
    let m3 = crate::laws::steps::move_to_register(w, m2, c, 0, Reg::Ax, next);
    crate::machine::step_end(w, m3, c, 1);
    crate::laws::address::first_part(w, m2, c, d + e, m3);
    let m4 = crate::laws::address::doublings(w, m3, Reg::Ax, k);
    crate::laws::address::first_part(w, m3, d, e, m4);
    let ax = Operand::<'a>::Reg(Reg::Ax);
    let after = crate::laws::steps::direct_to_register(w, m4, e, 0, BinOp::Add, Reg::Bx, ax);
    crate::machine::step_end(w, after, e, 1);
    both_wrap(i * row, j * size);
}

/// The offset with the size of a row reached by a multiplication.
proof fn rows_multiplied<'a>(
    w: World<'a>,
    m: Machine,
    cx: Cx<'a>,
    outer: &'a IndexSource,
    inner: &'a IndexSource,
    row: u16,
    size: u16,
)
    requires
        m.wf(),
        source_value(w, m, *outer) is Some,
        source_value(w, m, *inner) is Some,
        !crate::isa::spec_is_pow2(row as u32),
    ensures
        ({
            let plan = crate::codegen::array_index::plan_index_2d_into_bx(
                cx,
                outer,
                inner,
                row,
                size,
            );
            let i = source_value(w, m, *outer)->0;
            let j = source_value(w, m, *inner)->0;
            &&& plan matches Plan::Emit(steps)
            &&& crate::machine::run(w, m, steps, 0) matches Outcome::Through(after)
            &&& after.wf()
            &&& after.bx == crate::machine::wrap(i * row + j * size)
            &&& crate::laws::address::same_variables(after, m)
        }),
{
    let plan = crate::codegen::array_index::plan_index_2d_into_bx(cx, outer, inner, row, size);
    let i = source_value(w, m, *outer)->0;
    let from = crate::codegen::array_index::index_source(outer);
    let first = seq![
        crate::codegen::emitter::mov(crate::isa::ax(), from),
        crate::codegen::emitter::mov(crate::isa::dx(), crate::isa::imm(row as i64)),
        crate::codegen::emitter::imul(crate::isa::dx()),
    ];
    let rest = crate::codegen::array_index::plan_add_inner_to_row(cx, inner, size)->Emit_0;
    source_read(w, m, m, outer);
    let m1 = crate::laws::steps::move_to_register(w, m, first, 0, Reg::Ax, from);
    let by = Operand::<'a>::Imm(row as i64);
    let m2 = crate::laws::steps::move_to_register(w, m1, first, 1, Reg::Dx, by);
    let m3 = crate::laws::address::multiply_by_dx(w, m2, first, 2);
    crate::machine::step_end(w, m3, first, 3);
    let after = inner_added(w, m, m3, cx, inner, size, i * row);
    assert(plan->Emit_0 == first + rest);
    crate::laws::address::first_part(w, m, first, rest, m3);
}

/// Whether a plan leaves a constant at a place, cut to the width of a
/// character or a word or, for a 32-bit type, in both words, with no other
/// memory changed.
pub open spec fn leaves_typed<'a>(
    w: World<'a>,
    m: Machine,
    plan: Plan<'a>,
    at: int,
    t: Type,
    c: u32,
) -> bool {
    if t.is_long_like() {
        crate::laws::long::leaves_long(w, m, plan, at, c as int)
    } else {
        crate::laws::store::leaves_const(w, m, plan, at, t, c)
    }
}

/// The steps that store a constant of a type at an address and, for a 32-bit
/// type, two bytes behind it.
pub open spec fn typed_store<'a>(t: Type, lo: Addr<'a>, hi: Addr<'a>, c: u32) -> Seq<Step<'a>> {
    if t.is_long_like() {
        seq![
            crate::codegen::emitter::mov(
                crate::isa::word(hi),
                Operand::<'a>::Imm(crate::isa::hi16(c)),
            ),
            crate::codegen::emitter::mov(
                crate::isa::word(lo),
                Operand::<'a>::Imm(crate::isa::lo16(c)),
            ),
        ]
    } else {
        seq![
            crate::codegen::emitter::mov(
                crate::isa::sized(t.is_char_like(), lo),
                Operand::<'a>::Imm(crate::isa::masked(c, t.is_char_like())),
            ),
        ]
    }
}

/// A byte that is written at one address is written at every address that
/// agrees with it in 16 bits.
pub proof fn byte_place_wraps(one: Map<int, int>, other: Map<int, int>, near: int, at: int)
    requires
        crate::machine::wrap(near) == crate::machine::wrap(at),
        crate::machine::same_but(one, other, near, 1),
    ensures
        crate::machine::same_but(one, other, at, 1),
{
    reveal(crate::machine::same_but);
    assert forall|b: int|
        crate::machine::wrap(b - at) >= 1 && 0 <= b < 0x1_0000 implies #[trigger] one[b]
        == other[b] by {
        vstd::arithmetic::div_mod::lemma_sub_mod_noop(b, near, 0x1_0000);
        vstd::arithmetic::div_mod::lemma_sub_mod_noop(b, at, 0x1_0000);
    }
}

/// Code that changes no memory, and then a constant stored through a
/// register, at an address that agrees with another in 16 bits.
pub proof fn typed_behind<'a>(
    w: World<'a>,
    m: Machine,
    a: Seq<Step<'a>>,
    middle: Machine,
    t: Type,
    lo: Addr<'a>,
    hi: Addr<'a>,
    c: u32,
    near: int,
    at: int,
)
    requires
        crate::machine::run(w, m, a, 0) == Outcome::Through(middle),
        middle.wf(),
        middle.mem == m.mem,
        lo is At || lo is GlobalAt || (lo is Indexed && t.is_char_like()),
        middle.locate(w, lo) == Some(near),
        t.is_long_like() ==> middle.locate(w, hi) == Some(near + 2),
        crate::machine::wrap(near) == crate::machine::wrap(at),
    ensures
        leaves_typed(w, m, Plan::Emit(a + typed_store(t, lo, hi, c)), at, t, c),
{
    let b = typed_store(t, lo, hi, c);
    crate::laws::address::first_part(w, m, a, b, middle);
    if t.is_long_like() {
        crate::laws::long_element::const_through(w, middle, b, lo, hi, c, near, at);
    } else {
        crate::laws::store::const_in_memory(w, middle, b, t.is_char_like(), lo, c);
        if t.is_char_like() {
            let after = crate::machine::run(w, middle, b, 0)->Through_0;
            byte_place_wraps(after.mem, middle.mem, near, at);
        } else {
            crate::laws::element::written_behind(
                w,
                m,
                a,
                b,
                middle,
                near,
                at,
                c as int % 0x1_0000,
            );
        }
    }
}

/// Whether an expression is computed into `ax` as a number, with every
/// variable and `bx` kept, as long as no variable changes.
pub open spec fn is_computed_as<'a>(
    w: World<'a>,
    m: Machine,
    cx: Cx<'a>,
    value: &'a Expr,
    x: int,
) -> bool {
    forall|n: Machine|
        n.wf() && crate::laws::address::same_variables(n, m) ==> {
            let after = #[trigger] crate::laws::long::evaluated(w, n, cx, value);
            &&& after.wf()
            &&& after.ax == x
            &&& after.bx == n.bx
            &&& crate::laws::address::same_variables(after, n)
        }
}

/// Whether a plan leaves a number at a place, as a character or as a word by
/// the type, with no other memory changed.
pub open spec fn leaves_narrowed<'a>(
    w: World<'a>,
    m: Machine,
    plan: Plan<'a>,
    at: int,
    t: Type,
    x: int,
) -> bool {
    if t.is_char_like() {
        crate::laws::byte::leaves_byte(w, m, plan, at, x % 0x100)
    } else {
        crate::laws::word::leaves_word(w, m, plan, at, x)
    }
}

/// The steps that compute a value and store it as a character or as a word.
pub open spec fn computed_store<'a>(cx: Cx<'a>, t: Type, a: Addr<'a>, value: &'a Expr) -> Seq<
    Step<'a>,
> {
    seq![
        crate::codegen::emitter::to_ax(cx, value),
        crate::codegen::emitter::mov(
            crate::isa::sized(t.is_char_like(), a),
            crate::isa::acc(t.is_char_like()),
        ),
    ]
}

/// Code that changes no variable, and then a computed value stored through a
/// register, at an address that agrees with another in 16 bits.
pub proof fn computed_behind<'a>(
    w: World<'a>,
    m: Machine,
    cx: Cx<'a>,
    a: Seq<Step<'a>>,
    middle: Machine,
    t: Type,
    to: Addr<'a>,
    value: &'a Expr,
    x: int,
    near: int,
    at: int,
)
    requires
        crate::machine::run(w, m, a, 0) == Outcome::Through(middle),
        middle.wf(),
        crate::laws::address::same_variables(middle, m),
        is_computed_as(w, m, cx, value, x),
        to == crate::isa::at(Reg::Bx) || (to matches Addr::GlobalAt(_, _, r, _) && r == Reg::Bx)
            || (to matches Addr::Indexed(b, r, _) && b == Reg::Bx && r.is_index()),
        middle.locate(w, to) == Some(near),
        crate::machine::wrap(near) == crate::machine::wrap(at),
    ensures
        leaves_narrowed(w, m, Plan::Emit(a + computed_store(cx, t, to, value)), at, t, x),
{
    let b = computed_store(cx, t, to, value);
    crate::laws::address::first_part(w, m, a, b, middle);
    let m1 = crate::laws::long::evaluated(w, middle, cx, value);
    crate::machine::step_on(w, middle, b, 0, m1);
    assert(m1.locate(w, to) == Some(near));
    if t.is_char_like() {
        let after = m1.with_byte(near, x % 0x100);
        assert(crate::machine::run_step(w, m1, b[1]) == Some(after));
        crate::machine::step_on(w, m1, b, 1, after);
        crate::machine::step_end(w, after, b, 2);
        crate::laws::byte::byte_written(m.mem, near, x % 0x100);
        byte_place_wraps(after.mem, m.mem, near, at);
    } else {
        let ax = Operand::<'a>::Reg(Reg::Ax);
        let after = crate::laws::steps::store_word(w, m1, b, 1, to, ax);
        crate::machine::step_end(w, after, b, 2);
        crate::machine::word_written(m.mem, near, x);
        assert(crate::laws::word::leaves_word(w, middle, Plan::Emit(b), near, x));
        crate::laws::element::written_behind(w, m, a, b, middle, near, at, x);
    }
}

/// The steps that copy a 32-bit integer in memory.
pub open spec fn pair_store<'a>(
    hi: Addr<'a>,
    lo: Addr<'a>,
    from_hi: Addr<'a>,
    from_lo: Addr<'a>,
) -> Seq<Step<'a>> {
    seq![
        crate::codegen::emitter::mov(crate::isa::ax(), crate::isa::word(from_hi)),
        crate::codegen::emitter::mov(crate::isa::dx(), crate::isa::word(from_lo)),
        crate::codegen::emitter::mov(crate::isa::word(hi), crate::isa::ax()),
        crate::codegen::emitter::mov(crate::isa::word(lo), crate::isa::dx()),
    ]
}

/// Code that changes no variable, and then a 32-bit integer copied through
/// `bx`, to an address that agrees with another in 16 bits.
pub proof fn pair_behind<'a>(
    w: World<'a>,
    m: Machine,
    a: Seq<Step<'a>>,
    middle: Machine,
    lo: Addr<'a>,
    hi: Addr<'a>,
    from_lo: &'a String,
    from_hi: &'a String,
    near: int,
    at: int,
)
    requires
        crate::machine::run(w, m, a, 0) == Outcome::Through(middle),
        middle.wf(),
        middle.mem == m.mem,
        lo == crate::isa::at(Reg::Bx) || (lo matches Addr::GlobalAt(_, _, r, _) && r == Reg::Bx),
        hi == crate::isa::at2(Reg::Bx) || (hi matches Addr::GlobalAt(_, _, r, _) && r == Reg::Bx),
        middle.locate(w, lo) == Some(near),
        middle.locate(w, hi) == Some(near + 2),
        crate::machine::wrap(near) == crate::machine::wrap(at),
    ensures
        crate::laws::long::leaves_long(
            w,
            m,
            Plan::Emit(a + pair_store(hi, lo, Addr::Text(from_hi), Addr::Text(from_lo))),
            at,
            crate::machine::pair(
                m.word_at((w.place)(from_hi@)),
                m.word_at((w.place)(from_lo@)),
            ),
        ),
{
    let b = pair_store(hi, lo, Addr::Text(from_hi), Addr::Text(from_lo));
    crate::laws::address::first_part(w, m, a, b, middle);
    let high = m.word_at((w.place)(from_hi@));
    let low = m.word_at((w.place)(from_lo@));
    let m1 = crate::laws::steps::load_word(w, middle, b, 0, Reg::Ax, Addr::Text(from_hi));
    let m2 = crate::laws::steps::load_word(w, m1, b, 1, Reg::Dx, Addr::Text(from_lo));
    assert(m2.locate(w, hi) == Some(near + 2));
    let m3 = crate::laws::steps::store_word(w, m2, b, 2, hi, Operand::<'a>::Reg(Reg::Ax));
    assert(m3.locate(w, lo) == Some(near));
    let m4 = crate::laws::steps::store_word(w, m3, b, 3, lo, Operand::<'a>::Reg(Reg::Dx));
    crate::machine::step_end(w, m4, b, 4);
    crate::laws::long_element::pair_written(m.mem, m3.mem, m4.mem, near, at, high, low);
}

/// Whether a name stands for a two-dimensional file-scope array.
pub open spec fn is_global_rows(env: Env, array: String) -> bool {
    &&& !env.has(&array)
    &&& env.global_type(&array) matches Some(t) && t.fits()
    &&& env.global_elem(&array) matches Some(row) && row.spec_array_elem() is Some
}

/// The type of the elements of a two-dimensional file-scope array.
pub open spec fn cell_type(env: Env, array: String) -> Type {
    *env.global_elem(&array)->0.spec_array_elem()->0
}

/// Whether two subscripts of a two-dimensional array are variables whose
/// values are known, and are not both constant.
pub open spec fn are_variable<'a>(
    w: World<'a>,
    m: Machine,
    env: Env,
    array: String,
    i: &'a Expr,
    j: &'a Expr,
) -> bool {
    &&& env.facts(i).int_src matches Some(src) && source_value(w, m, src) is Some
    &&& env.facts(j).int_src matches Some(src) && source_value(w, m, src) is Some
    &&& crate::codegen::env::const_offset(&env, env.global_type(&array)->0, seq![i, j], 0) is None
}

/// Where `a[i][j]` lies: behind the start of the array by the first
/// subscript times the size of a row and the second times that of an
/// element.
pub open spec fn cell_place<'a>(
    w: World<'a>,
    m: Machine,
    env: Env,
    array: String,
    i: &'a Expr,
    j: &'a Expr,
) -> int {
    (w.symbol)(array@) + source_value(w, m, env.facts(i).int_src->0)->0 * env.global_elem(
        &array,
    )->0.size() + source_value(w, m, env.facts(j).int_src->0)->0 * cell_type(env, array).size()
}

/// The offset of an element, by the types of an array.
proof fn cell_offset<'a>(
    w: World<'a>,
    m: Machine,
    cx: Cx<'a>,
    array: String,
    i: &'a Expr,
    j: &'a Expr,
) -> (middle: Machine)
    requires
        m.wf(),
        is_global_rows(*cx.env, array),
        are_variable(w, m, *cx.env, array, i, j),
    ensures
        ({
            let row = cx.env.global_elem(&array)->0;
            let t = cell_type(*cx.env, array);
            let plan = crate::codegen::array_index::plan_index_2d_into_bx(
                cx,
                &cx.env.facts(i).int_src->0,
                &cx.env.facts(j).int_src->0,
                row.size() as u16,
                t.size() as u16,
            );
            &&& plan matches Plan::Emit(steps)
            &&& crate::machine::run(w, m, steps, 0) == Outcome::Through(middle)
            &&& middle.wf()
            &&& crate::machine::wrap((w.symbol)(array@) + middle.bx) == crate::machine::wrap(
                cell_place(w, m, *cx.env, array, i, j),
            )
            &&& crate::laws::address::same_variables(middle, m)
        }),
{
    let row = cx.env.global_elem(&array)->0;
    let t = cell_type(*cx.env, array);
    let len = row->len as nat;
    assert(row.fits());
    assert(t.fits());
    assert(t.size() <= 0xFFFF) by {
        small_sizes(t);
    }
    let outer = &cx.env.facts(i).int_src->0;
    let inner = &cx.env.facts(j).int_src->0;
    global_element_2d_offset(w, m, cx, outer, inner, len, t.size() as u16);
    let plan = crate::codegen::array_index::plan_index_2d_into_bx(
        cx,
        outer,
        inner,
        row.size() as u16,
        t.size() as u16,
    );
    let middle = crate::machine::run(w, m, plan->Emit_0, 0)->Through_0;
    let p = source_value(w, m, *outer)->0;
    let q = source_value(w, m, *inner)->0;
    crate::laws::address::sum_wraps((w.symbol)(array@), p * row.size() + q * t.size());
    middle
}

/// A countable type is at most as large as 16 bits can say.
proof fn small_sizes(t: Type)
    requires
        t.is_countable(),
    ensures
        t.size() <= 0xFFFF,
{
}

/// The code for an element of a two-dimensional file-scope array: its offset
/// goes into `bx`, and it is loaded behind the name of the array.
proof fn cell_read_plan<'a>(
    w: World<'a>,
    m: Machine,
    cx: Cx<'a>,
    name: &'a String,
    array: &'a Expr,
    base: &'a Box<Expr>,
    i: &'a Box<Expr>,
    j: &'a Expr,
)
    requires
        is_global_rows(*cx.env, *name),
        array.kind == (ExprKind::ArrayIndex { array: *base, index: *i }),
        base.kind == ExprKind::Ident(*name),
        are_variable(w, m, *cx.env, *name, &**i, j),
        cx.env.facts(j).frame_disp is None,
    ensures
        ({
            let row = cx.env.global_elem(name)->0;
            let t = row.spec_array_elem()->0;
            crate::codegen::array_index::plan_emit_array_index_to_ax(cx, array, j)
                == crate::codegen::array_index::plan_index_2d_into_bx(
                cx,
                &cx.env.facts(&**i).int_src->0,
                &cx.env.facts(j).int_src->0,
                row.size() as u16,
                t.size() as u16,
            ).followed_by(
                crate::codegen::common::plan_load_value(
                    cx,
                    t,
                    crate::isa::elem(name, Reg::Bx),
                ),
            )
        }),
{
    reveal_with_fuel(crate::codegen::array_index::subscripts, 3);
    reveal_with_fuel(crate::codegen::array_index::spec_subscript_base, 3);
    let list = crate::codegen::array_index::subscripts(array).push(j);
    assert(list =~= seq![&**i, j]);
    let gty = cx.env.global_type(name)->0;
    let plan = crate::codegen::array_index::plan_emit_array_index_to_ax(cx, array, j);
    assert(plan == crate::codegen::array_index::plan_index_global(cx, name, gty, list));
    assert(plan == crate::codegen::array_index::plan_index_global_2d(cx, name, gty, list));
}

/// `a[i][j]` for a two-dimensional file-scope array of anything but
/// characters and two variables reads the word at the place of the element
/// into `ax`: all of it, or the low word of a 32-bit integer.
pub proof fn global_cell_read<'a>(
    w: World<'a>,
    m: Machine,
    cx: Cx<'a>,
    name: &'a String,
    array: &'a Expr,
    base: &'a Box<Expr>,
    i: &'a Box<Expr>,
    j: &'a Expr,
)
    requires
        m.wf(),
        is_global_rows(*cx.env, *name),
        !cell_type(*cx.env, *name).is_char_like(),
        array.kind == (ExprKind::ArrayIndex { array: *base, index: *i }),
        base.kind == ExprKind::Ident(*name),
        are_variable(w, m, *cx.env, *name, &**i, j),
        cx.env.facts(j).frame_disp is None,
    ensures
        crate::laws::element::leaves_word_in_ax(
            w,
            m,
            m,
            crate::codegen::array_index::plan_emit_array_index_to_ax(cx, array, j),
            cell_place(w, m, *cx.env, *name, &**i, j),
        ),
{
    cell_read_plan(w, m, cx, name, array, base, i, j);
    let row = cx.env.global_elem(name)->0;
    let t = row.spec_array_elem()->0;
    let middle = cell_offset(w, m, cx, *name, &**i, j);
    let a = crate::codegen::array_index::plan_index_2d_into_bx(
        cx,
        &cx.env.facts(&**i).int_src->0,
        &cx.env.facts(j).int_src->0,
        row.size() as u16,
        t.size() as u16,
    )->Emit_0;
    let from = crate::isa::elem(name, Reg::Bx);
    let b = seq![crate::codegen::emitter::mov(crate::isa::ax(), crate::isa::word(from))];
    crate::laws::address::first_part(w, m, a, b, middle);
    let after = crate::laws::steps::load_word(w, middle, b, 0, Reg::Ax, from);
    crate::machine::step_end(w, after, b, 1);
    let at = cell_place(w, m, *cx.env, *name, &**i, j);
    crate::laws::element::word_place_wraps(m.mem, at);
    crate::laws::element::word_place_wraps(m.mem, (w.symbol)(name@) + middle.bx);
}

/// `a[i][j]` for a two-dimensional file-scope array of characters and two
/// variables is worth the character at the place of the element: with its
/// sign, unless it is unsigned.
pub proof fn global_char_cell_read<'a>(
    w: World<'a>,
    m: Machine,
    cx: Cx<'a>,
    name: &'a String,
    array: &'a Expr,
    base: &'a Box<Expr>,
    i: &'a Box<Expr>,
    j: &'a Expr,
)
    requires
        m.wf(),
        crate::laws::char_element::widens(w),
        !cx.skip_widen,
        is_global_rows(*cx.env, *name),
        cell_type(*cx.env, *name).is_char_like(),
        array.kind == (ExprKind::ArrayIndex { array: *base, index: *i }),
        base.kind == ExprKind::Ident(*name),
        are_variable(w, m, *cx.env, *name, &**i, j),
        cx.env.facts(j).frame_disp is None,
    ensures
        crate::laws::char_element::leaves_char(
            w,
            m,
            m,
            crate::codegen::array_index::plan_emit_array_index_to_ax(cx, array, j),
            cell_place(w, m, *cx.env, *name, &**i, j),
            cell_type(*cx.env, *name).is_unsigned(),
        ),
{
    cell_read_plan(w, m, cx, name, array, base, i, j);
    let row = cx.env.global_elem(name)->0;
    let t = row.spec_array_elem()->0;
    let middle = cell_offset(w, m, cx, *name, &**i, j);
    let a = crate::codegen::array_index::plan_index_2d_into_bx(
        cx,
        &cx.env.facts(&**i).int_src->0,
        &cx.env.facts(j).int_src->0,
        row.size() as u16,
        t.size() as u16,
    )->Emit_0;
    let from = crate::isa::elem(name, Reg::Bx);
    let b = seq![
        crate::codegen::emitter::mov(crate::isa::al(), crate::isa::byte(from)),
        crate::codegen::emitter::widen_al(cx, t),
    ];
    crate::laws::address::first_part(w, m, a, b, middle);
    crate::laws::char_element::char_loaded(w, middle, cx, b, t, from);
}

/// The code for a constant stored in a two-dimensional file-scope array.
proof fn cell_store_plan<'a>(
    w: World<'a>,
    m: Machine,
    cx: Cx<'a>,
    array: &'a String,
    indices: &'a Vec<Expr>,
    value: &'a Expr,
    c: u32,
)
    requires
        is_global_rows(*cx.env, *array),
        indices@.len() == 2,
        are_variable(w, m, *cx.env, *array, &indices@[0], &indices@[1]),
        cx.env.const_of(value) == Some(c),
        value.kind is IntLit,
        cell_type(*cx.env, *array).is_long_like() || cell_type(*cx.env, *array).size() <= 2,
        crate::codegen::array_index::plan_index_2d_into_bx(
            cx,
            &cx.env.facts(&indices@[0]).int_src->0,
            &cx.env.facts(&indices@[1]).int_src->0,
            cx.env.global_elem(array)->0.size() as u16,
            cell_type(*cx.env, *array).size() as u16,
        ) is Emit,
    ensures
        crate::codegen::array_assign::plan_emit_array_assign(cx, array, indices, value)
            == Plan::Emit(
            crate::codegen::array_index::plan_index_2d_into_bx(
                cx,
                &cx.env.facts(&indices@[0]).int_src->0,
                &cx.env.facts(&indices@[1]).int_src->0,
                cx.env.global_elem(array)->0.size() as u16,
                cell_type(*cx.env, *array).size() as u16,
            )->Emit_0 + typed_store(
                cell_type(*cx.env, *array),
                crate::isa::elem(array, Reg::Bx),
                crate::isa::elem2(array, Reg::Bx),
                c,
            ),
        ),
{
    let list = crate::codegen::array_assign::each(indices);
    assert(list =~= seq![&indices@[0], &indices@[1]]);
    let gty = cx.env.global_type(array)->0;
    let plan = crate::codegen::array_assign::plan_emit_array_assign(cx, array, indices, value);
    assert(plan == crate::codegen::array_assign::plan_assign_global_elem(
        cx,
        array,
        gty,
        list,
        value,
    ));
    assert(plan == crate::codegen::array_assign::plan_elem_global_2d(
        cx,
        array,
        gty,
        list,
        value,
    ));
}

/// `a[i][j] = c` for a two-dimensional file-scope array of characters, words
/// or 32-bit integers, two variables and a constant leaves the constant in
/// the element, in both words of a 32-bit one, and nothing else in memory
/// changes.
pub proof fn global_cell_written<'a>(
    w: World<'a>,
    m: Machine,
    cx: Cx<'a>,
    array: &'a String,
    indices: &'a Vec<Expr>,
    value: &'a Expr,
    c: u32,
)
    requires
        m.wf(),
        is_global_rows(*cx.env, *array),
        indices@.len() == 2,
        are_variable(w, m, *cx.env, *array, &indices@[0], &indices@[1]),
        cx.env.const_of(value) == Some(c),
        value.kind is IntLit,
        cell_type(*cx.env, *array).is_long_like() || cell_type(*cx.env, *array).size() <= 2,
    ensures
        leaves_typed(
            w,
            m,
            crate::codegen::array_assign::plan_emit_array_assign(cx, array, indices, value),
            cell_place(w, m, *cx.env, *array, &indices@[0], &indices@[1]),
            cell_type(*cx.env, *array),
            c,
        ),
{
    let i = &indices@[0];
    let j = &indices@[1];
    let t = cell_type(*cx.env, *array);
    let middle = cell_offset(w, m, cx, *array, i, j);
    cell_store_plan(w, m, cx, array, indices, value, c);
    let a = crate::codegen::array_index::plan_index_2d_into_bx(
        cx,
        &cx.env.facts(i).int_src->0,
        &cx.env.facts(j).int_src->0,
        cx.env.global_elem(array)->0.size() as u16,
        t.size() as u16,
    )->Emit_0;
    typed_behind(
        w,
        m,
        a,
        middle,
        t,
        crate::isa::elem(array, Reg::Bx),
        crate::isa::elem2(array, Reg::Bx),
        c,
        (w.symbol)(array@) + middle.bx,
        cell_place(w, m, *cx.env, *array, i, j),
    );
}

/// The code for a computed value stored in a two-dimensional file-scope
/// array.
proof fn cell_computed_plan<'a>(
    w: World<'a>,
    m: Machine,
    cx: Cx<'a>,
    array: &'a String,
    indices: &'a Vec<Expr>,
    value: &'a Expr,
)
    requires
        is_global_rows(*cx.env, *array),
        indices@.len() == 2,
        are_variable(w, m, *cx.env, *array, &indices@[0], &indices@[1]),
        cx.env.const_of(value) is None,
        cell_type(*cx.env, *array).size() <= 2,
        crate::codegen::array_index::plan_index_2d_into_bx(
            cx,
            &cx.env.facts(&indices@[0]).int_src->0,
            &cx.env.facts(&indices@[1]).int_src->0,
            cx.env.global_elem(array)->0.size() as u16,
            cell_type(*cx.env, *array).size() as u16,
        ) is Emit,
    ensures
        crate::codegen::array_assign::plan_emit_array_assign(cx, array, indices, value)
            == Plan::Emit(
            crate::codegen::array_index::plan_index_2d_into_bx(
                cx,
                &cx.env.facts(&indices@[0]).int_src->0,
                &cx.env.facts(&indices@[1]).int_src->0,
                cx.env.global_elem(array)->0.size() as u16,
                cell_type(*cx.env, *array).size() as u16,
            )->Emit_0 + computed_store(
                cx,
                cell_type(*cx.env, *array),
                crate::isa::elem(array, Reg::Bx),
                value,
            ),
        ),
{
    let list = crate::codegen::array_assign::each(indices);
    assert(list =~= seq![&indices@[0], &indices@[1]]);
    let gty = cx.env.global_type(array)->0;
    let plan = crate::codegen::array_assign::plan_emit_array_assign(cx, array, indices, value);
    assert(plan == crate::codegen::array_assign::plan_assign_global_elem(
        cx,
        array,
        gty,
        list,
        value,
    ));
    assert(plan == crate::codegen::array_assign::plan_elem_global_2d(
        cx,
        array,
        gty,
        list,
        value,
    ));
}

/// `a[i][j] = v` for a two-dimensional file-scope array of characters or
/// words, two variables and a value that is computed leaves the value in the
/// element, and nothing else in memory changes.
pub proof fn global_cell_computed<'a>(
    w: World<'a>,
    m: Machine,
    cx: Cx<'a>,
    array: &'a String,
    indices: &'a Vec<Expr>,
    value: &'a Expr,
    x: int,
)
    requires
        m.wf(),
        is_global_rows(*cx.env, *array),
        indices@.len() == 2,
        are_variable(w, m, *cx.env, *array, &indices@[0], &indices@[1]),
        cx.env.const_of(value) is None,
        cell_type(*cx.env, *array).size() <= 2,
        is_computed_as(w, m, cx, value, x),
    ensures
        leaves_narrowed(
            w,
            m,
            crate::codegen::array_assign::plan_emit_array_assign(cx, array, indices, value),
            cell_place(w, m, *cx.env, *array, &indices@[0], &indices@[1]),
            cell_type(*cx.env, *array),
            x,
        ),
{
    let i = &indices@[0];
    let j = &indices@[1];
    let t = cell_type(*cx.env, *array);
    let middle = cell_offset(w, m, cx, *array, i, j);
    cell_computed_plan(w, m, cx, array, indices, value);
    let a = crate::codegen::array_index::plan_index_2d_into_bx(
        cx,
        &cx.env.facts(i).int_src->0,
        &cx.env.facts(j).int_src->0,
        cx.env.global_elem(array)->0.size() as u16,
        t.size() as u16,
    )->Emit_0;
    computed_behind(
        w,
        m,
        cx,
        a,
        middle,
        t,
        crate::isa::elem(array, Reg::Bx),
        value,
        x,
        (w.symbol)(array@) + middle.bx,
        cell_place(w, m, *cx.env, *array, i, j),
    );
}

/// The code for a 32-bit integer copied into a two-dimensional file-scope
/// array.
proof fn cell_copy_plan<'a>(
    w: World<'a>,
    m: Machine,
    cx: Cx<'a>,
    array: &'a String,
    indices: &'a Vec<Expr>,
    value: &'a Expr,
)
    requires
        is_global_rows(*cx.env, *array),
        indices@.len() == 2,
        are_variable(w, m, *cx.env, *array, &indices@[0], &indices@[1]),
        cx.env.const_of(value) is None,
        cx.env.facts(value).long_addrs is Some,
        cell_type(*cx.env, *array).is_long_like(),
        crate::codegen::array_index::plan_index_2d_into_bx(
            cx,
            &cx.env.facts(&indices@[0]).int_src->0,
            &cx.env.facts(&indices@[1]).int_src->0,
            cx.env.global_elem(array)->0.size() as u16,
            cell_type(*cx.env, *array).size() as u16,
        ) is Emit,
    ensures
        ({
            let halves = cx.env.facts(value).long_addrs->0;
            let (hi, lo) = (&halves.0, &halves.1);
            crate::codegen::array_assign::plan_emit_array_assign(cx, array, indices, value)
                == Plan::Emit(
                crate::codegen::array_index::plan_index_2d_into_bx(
                    cx,
                    &cx.env.facts(&indices@[0]).int_src->0,
                    &cx.env.facts(&indices@[1]).int_src->0,
                    cx.env.global_elem(array)->0.size() as u16,
                    cell_type(*cx.env, *array).size() as u16,
                )->Emit_0 + pair_store(
                    crate::isa::elem2(array, Reg::Bx),
                    crate::isa::elem(array, Reg::Bx),
                    Addr::Text(hi),
                    Addr::Text(lo),
                ),
            )
        }),
{
    let list = crate::codegen::array_assign::each(indices);
    assert(list =~= seq![&indices@[0], &indices@[1]]);
    let gty = cx.env.global_type(array)->0;
    let plan = crate::codegen::array_assign::plan_emit_array_assign(cx, array, indices, value);
    assert(plan == crate::codegen::array_assign::plan_assign_global_elem(
        cx,
        array,
        gty,
        list,
        value,
    ));
    assert(plan == crate::codegen::array_assign::plan_elem_global_2d(
        cx,
        array,
        gty,
        list,
        value,
    ));
}

/// `a[i][j] = x` for a two-dimensional file-scope array of 32-bit integers,
/// two variables and a 32-bit integer in memory leaves both words of `x` in
/// the element, and nothing else in memory changes.
pub proof fn global_long_cell_copied<'a>(
    w: World<'a>,
    m: Machine,
    cx: Cx<'a>,
    array: &'a String,
    indices: &'a Vec<Expr>,
    value: &'a Expr,
)
    requires
        m.wf(),
        is_global_rows(*cx.env, *array),
        indices@.len() == 2,
        are_variable(w, m, *cx.env, *array, &indices@[0], &indices@[1]),
        cx.env.const_of(value) is None,
        cx.env.facts(value).long_addrs is Some,
        cell_type(*cx.env, *array).is_long_like(),
    ensures
        ({
            let (hi, lo) = cx.env.facts(value).long_addrs->0;
            crate::laws::long::leaves_long(
                w,
                m,
                crate::codegen::array_assign::plan_emit_array_assign(cx, array, indices, value),
                cell_place(w, m, *cx.env, *array, &indices@[0], &indices@[1]),
                crate::machine::pair(m.word_at((w.place)(hi@)), m.word_at((w.place)(lo@))),
            )
        }),
{
    let i = &indices@[0];
    let j = &indices@[1];
    let t = cell_type(*cx.env, *array);
    let halves = cx.env.facts(value).long_addrs->0;
    let (hi, lo) = (&halves.0, &halves.1);
    let middle = cell_offset(w, m, cx, *array, i, j);
    cell_copy_plan(w, m, cx, array, indices, value);
    let a = crate::codegen::array_index::plan_index_2d_into_bx(
        cx,
        &cx.env.facts(i).int_src->0,
        &cx.env.facts(j).int_src->0,
        cx.env.global_elem(array)->0.size() as u16,
        t.size() as u16,
    )->Emit_0;
    pair_behind(
        w,
        m,
        a,
        middle,
        crate::isa::elem(array, Reg::Bx),
        crate::isa::elem2(array, Reg::Bx),
        lo,
        hi,
        (w.symbol)(array@) + middle.bx,
        cell_place(w, m, *cx.env, *array, i, j),
    );
}

} // verus!
