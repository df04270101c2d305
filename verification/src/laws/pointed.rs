//! What pointer expressions of every form read.

use vstd::prelude::*;
use crate::ast::{BinOp, Expr, ExprKind, Type, UpdateOp, UpdatePosition};
use crate::codegen::emitter::{Cx, Plan, Step};
use crate::codegen::env::{Env, LocalLocation};
use crate::isa::{Addr, Operand, Reg};
use crate::laws::variable::{reads_value, typed_value};
use crate::machine::{Machine, Outcome, World};

verus! {

/// Whether a character that is read is widened: the step that widens `al`
/// does so, and nothing puts it off.
pub open spec fn widens_if_char<'a>(w: World<'a>, cx: Cx<'a>, t: Type) -> bool {
    t.is_char_like() ==> crate::laws::char_element::widens(w) && !cx.skip_widen
}

/// A value of a type behind an address is loaded into `ax`.
pub proof fn value_loaded<'a>(
    w: World<'a>,
    m: Machine,
    cx: Cx<'a>,
    t: &'a Type,
    a: Addr<'a>,
    at: int,
)
    requires
        m.wf(),
        widens_if_char(w, cx, *t),
        m.locate(w, a) matches Some(near) && crate::machine::wrap(near) == crate::machine::wrap(at),
    ensures
        reads_value(
            w,
            m,
            crate::codegen::common::plan_load_value(cx, t, a),
            typed_value(m, at, *t),
        ),
{
    let plan = crate::codegen::common::plan_load_value(cx, t, a);
    let steps = plan->Emit_0;
    let near = m.locate(w, a)->0;
    if t.is_char_like() {
        let m1 = crate::laws::byte::load_al(w, m, steps, 0, a);
        let m2 = crate::laws::char_element::behind_widening(w, t, m1);
        crate::machine::step_on(w, m1, steps, 1, m2);
        crate::machine::step_end(w, m2, steps, 2);
    } else {
        crate::laws::element::word_place_wraps(m.mem, near);
        crate::laws::element::word_place_wraps(m.mem, at);
        let after = crate::laws::steps::load_word(w, m, steps, 0, Reg::Ax, a);
        crate::machine::step_end(w, after, steps, 1);
    }
}

/// Code that changes no variable, and then code that reads a value.
pub proof fn read_behind<'a>(
    w: World<'a>,
    m: Machine,
    first: Seq<Step<'a>>,
    middle: Machine,
    second: Plan<'a>,
    value: int,
)
    requires
        crate::machine::run(w, m, first, 0) == Outcome::Through(middle),
        crate::laws::address::same_variables(middle, m),
        reads_value(w, middle, second, value),
    ensures
        reads_value(w, m, Plan::Emit(first).followed_by(second), value),
{
    crate::laws::address::first_part(w, m, first, second->Emit_0, middle);
}

/// A word in memory is loaded into `bx`.
pub proof fn word_in_bx<'a>(w: World<'a>, m: Machine, a: Addr<'a>) -> (r: (Seq<Step<'a>>, Machine))
    requires
        m.wf(),
        m.locate(w, a) is Some,
    ensures
        r.0 == seq![
            crate::codegen::emitter::mov(crate::isa::bx::<'a>(), crate::isa::word(a)),
        ],
        crate::machine::run(w, m, r.0, 0) == Outcome::Through(r.1),
        r.1 == (Machine { bx: m.word_at(m.locate(w, a)->0), ..m }),
        r.1.wf(),
{
    let first = seq![crate::codegen::emitter::mov(crate::isa::bx::<'a>(), crate::isa::word(a))];
    let m1 = crate::laws::steps::load_word(w, m, first, 0, Reg::Bx, a);
    crate::machine::step_end(w, m1, first, 1);
    (first, m1)
}

/// Whether a name stands for an array of near pointers with an element so
/// far in that its offset fits 16 bits.
pub open spec fn is_pointer_table(env: Env, name: String, k: u32) -> bool {
    &&& env.array_elem_of(&name) matches Some(e) && e.pointee() is Some && e.size() == 2
    &&& k < 0x4000
    &&& !env.is_global(&name) ==> (env.stack_of(&name) matches Some(base) && base as int + 2 * k
        <= 0x7FFF)
}

/// The place of an element of an array of near pointers.
pub open spec fn table_place<'a>(w: World<'a>, m: Machine, env: Env, name: String, k: u32) -> int {
    if env.is_global(&name) {
        (w.symbol)(name@) + 2 * k
    } else {
        m.bp + env.stack_of(&name)->0 + 2 * k
    }
}

/// An element of an array of near pointers is loaded into `bx`.
pub proof fn table_pointer_loaded<'a>(
    w: World<'a>,
    m: Machine,
    cx: Cx<'a>,
    name: &'a String,
    k: u32,
) -> (r: (Seq<Step<'a>>, Machine))
    requires
        m.wf(),
        is_pointer_table(*cx.env, *name, k),
    ensures
        crate::codegen::deref_read::plan_pointer_elem_to_bx(cx, name, k, 2) == Plan::Emit(r.0),
        crate::machine::run(w, m, r.0, 0) == Outcome::Through(r.1),
        r.1 == (Machine { bx: m.word_at(table_place(w, m, *cx.env, *name, k)), ..m }),
        r.1.wf(),
{
    if cx.env.is_global(name) {
        let d = crate::isa::plus(crate::isa::uscaled(k, 2) as i64);
        assert(crate::machine::distance(d) == 2 * k);
        word_in_bx(w, m, crate::isa::global_at(name, d))
    } else {
        let base = cx.env.stack_of(name)->0;
        word_in_bx(w, m, crate::isa::bp_sat(base, crate::isa::scaled(k, 2)))
    }
}

/// `*(T *)p` for a local near pointer to something of another size reads a
/// `T` where `p` points.
pub proof fn cast_pointer_read<'a>(
    w: World<'a>,
    m: Machine,
    cx: Cx<'a>,
    ptr: &'a Expr,
    operand: &'a Box<Expr>,
    name: &'a String,
    to: &'a Box<Type>,
    from: Type,
)
    requires
        m.wf(),
        ptr.kind == (ExprKind::Cast { ty: Type::Pointer(*to), operand: *operand }),
        operand.kind == ExprKind::Ident(*name),
        crate::laws::target::points_at(w, m, *cx.env, *name, from),
        to.is_countable(),
        from.size() as u16 != to.size() as u16,
        widens_if_char(w, cx, **to),
    ensures
        reads_value(
            w,
            m,
            crate::codegen::deref_read::plan_emit_deref_to_ax(cx, ptr),
            typed_value(
                m,
                crate::laws::store::pointer_value(w, m, *cx.env, *name)->0,
                **to,
            ),
        ),
{
    let plan = crate::codegen::deref_read::plan_emit_deref_to_ax(cx, ptr);
    assert(plan == crate::codegen::deref_read::plan_deref_cast_width(cx, ptr));
    let at = crate::laws::store::pointer_value(w, m, *cx.env, *name)->0;
    match cx.env.local(name)->0.loc {
        LocalLocation::Reg(p) => {
            value_loaded(w, m, cx, &**to, crate::isa::at(p), at);
        },
        LocalLocation::Stack(off) => {
            let (first, m1) = word_in_bx(w, m, crate::isa::bp(off));
            let second = crate::codegen::common::plan_load_value(
                cx,
                &**to,
                crate::isa::at(Reg::Bx),
            );
            value_loaded(w, m1, cx, &**to, crate::isa::at(Reg::Bx), at);
            read_behind(w, m, first, m1, second, typed_value(m, at, **to));
        },
    }
}

/// `*s.p` for a pointer at a constant place reads where that pointer points.
pub proof fn member_pointer_read<'a>(
    w: World<'a>,
    m: Machine,
    cx: Cx<'a>,
    ptr: &'a Expr,
    from: Addr<'a>,
)
    requires
        m.wf(),
        ptr.kind is Member,
        cx.env.facts(ptr).chain matches Some(chain) && cx.env.resolve_chain_addr(
            &chain.name,
            chain.off,
        ) == Some(from) && chain.ty.pointee() is Some,
        widens_if_char(w, cx, *(cx.env.facts(ptr).chain->0).ty.pointee()->0),
    ensures
        reads_value(
            w,
            m,
            crate::codegen::deref_read::plan_emit_deref_to_ax(cx, ptr),
            typed_value(
                m,
                m.word_at(m.locate(w, from)->0),
                *(cx.env.facts(ptr).chain->0).ty.pointee()->0,
            ),
        ),
{
    let plan = crate::codegen::deref_read::plan_emit_deref_to_ax(cx, ptr);
    assert(plan == crate::codegen::deref_read::plan_deref_member(cx, ptr));
    let t = (&(cx.env.facts(ptr).chain->0).ty).pointee()->0;
    let at = m.word_at(m.locate(w, from)->0);
    let (first, m1) = word_in_bx(w, m, from);
    let second = crate::codegen::common::plan_load_value(cx, t, crate::isa::at(Reg::Bx));
    value_loaded(w, m1, cx, t, crate::isa::at(Reg::Bx), at);
    read_behind(w, m, first, m1, second, typed_value(m, at, *t));
}

/// `*a[k]` for an array of pointers reads where its element `k` points.
pub proof fn table_pointer_read<'a>(
    w: World<'a>,
    m: Machine,
    cx: Cx<'a>,
    ptr: &'a Expr,
    array: &'a Box<Expr>,
    index: &'a Box<Expr>,
    name: &'a String,
    k: u32,
)
    requires
        m.wf(),
        ptr.kind == (ExprKind::ArrayIndex { array: *array, index: *index }),
        array.kind == ExprKind::Ident(*name),
        cx.env.const_of(&**index) == Some(k),
        is_pointer_table(*cx.env, *name, k),
        widens_if_char(w, cx, *(cx.env.array_elem_of(name)->0).pointee()->0),
    ensures
        reads_value(
            w,
            m,
            crate::codegen::deref_read::plan_emit_deref_to_ax(cx, ptr),
            typed_value(
                m,
                m.word_at(table_place(w, m, *cx.env, *name, k)),
                *(cx.env.array_elem_of(name)->0).pointee()->0,
            ),
        ),
{
    let plan = crate::codegen::deref_read::plan_emit_deref_to_ax(cx, ptr);
    assert(plan == crate::codegen::deref_read::plan_deref_array_elem(cx, ptr));
    let t = (cx.env.array_elem_of(name)->0).pointee()->0;
    let at = m.word_at(table_place(w, m, *cx.env, *name, k));
    let (first, m1) = table_pointer_loaded(w, m, cx, name, k);
    let second = crate::codegen::common::plan_load_value(cx, t, crate::isa::at(Reg::Bx));
    value_loaded(w, m1, cx, t, crate::isa::at(Reg::Bx), at);
    read_behind(w, m, first, m1, second, typed_value(m, at, *t));
}

/// `*a[i]` for a file-scope array of pointers and a variable reads where the
/// element `i` points.
pub proof fn table_pointer_read_by_variable<'a>(
    w: World<'a>,
    m: Machine,
    cx: Cx<'a>,
    ptr: &'a Expr,
    array: &'a Box<Expr>,
    index: &'a Box<Expr>,
    name: &'a String,
)
    requires
        m.wf(),
        ptr.kind == (ExprKind::ArrayIndex { array: *array, index: *index }),
        array.kind == ExprKind::Ident(*name),
        cx.env.const_of(&**index) is None,
        cx.env.is_global(name),
        cx.env.array_elem_of(name) matches Some(e) && e.pointee() is Some && e.is_countable()
            && crate::codegen::array_addr::index_shifts(e.size() as u16) is Some,
        crate::laws::address::subscript_value(w, m, *cx.env, &**index) is Some,
        widens_if_char(w, cx, *(cx.env.array_elem_of(name)->0).pointee()->0),
    ensures
        reads_value(
            w,
            m,
            crate::codegen::deref_read::plan_emit_deref_to_ax(cx, ptr),
            typed_value(
                m,
                m.word_at(
                    (w.symbol)(name@) + crate::laws::address::subscript_value(
                        w,
                        m,
                        *cx.env,
                        &**index,
                    )->0 * (cx.env.array_elem_of(name)->0).size(),
                ),
                *(cx.env.array_elem_of(name)->0).pointee()->0,
            ),
        ),
{
    let plan = crate::codegen::deref_read::plan_emit_deref_to_ax(cx, ptr);
    assert(plan == crate::codegen::deref_read::plan_deref_array_elem(cx, ptr));
    let e = cx.env.array_elem_of(name)->0;
    let t = e.pointee()->0;
    let i = crate::laws::address::subscript_value(w, m, *cx.env, &**index)->0;
    let place = (w.symbol)(name@) + i * e.size();
    let at = m.word_at(place);
    crate::laws::address::subscript_scales(w, m, cx, &**index, e);
    let a = crate::codegen::array_addr::plan_emit_index_into_bx(cx, &**index, e)->Emit_0;
    let m1 = crate::machine::run(w, m, a, 0)->Through_0;
    let from = crate::isa::elem(name, Reg::Bx);
    let near = m1.locate(w, from)->0;
    assert(near == (w.symbol)(name@) + crate::machine::wrap(i * e.size()));
    crate::laws::address::sum_wraps((w.symbol)(name@), i * e.size());
    crate::laws::element::word_place_wraps(m.mem, near);
    crate::laws::element::word_place_wraps(m.mem, place);
    let (b, m2) = word_in_bx(w, m1, from);
    crate::laws::address::first_part(w, m, a, b, m1);
    let second = crate::codegen::common::plan_load_value(cx, t, crate::isa::at(Reg::Bx));
    value_loaded(w, m2, cx, t, crate::isa::at(Reg::Bx), at);
    read_behind(w, m, a + b, m2, second, typed_value(m, at, *t));
    assert(a + b + second->Emit_0 =~= plan->Emit_0);
}

/// `*(a + i)` for a file-scope array and a variable reads its element `i`.
pub proof fn global_sum_read<'a>(
    w: World<'a>,
    m: Machine,
    cx: Cx<'a>,
    ptr: &'a Expr,
    left: &'a Box<Expr>,
    right: &'a Box<Expr>,
    name: &'a String,
)
    requires
        m.wf(),
        ptr.kind == (ExprKind::BinOp { op: BinOp::Add, left: *left, right: *right }),
        left.kind == ExprKind::Ident(*name),
        cx.env.global_elem(name) matches Some(e) && e.is_countable()
            && crate::codegen::array_addr::index_shifts(e.size() as u16) is Some,
        crate::laws::address::subscript_value(w, m, *cx.env, &**right) is Some,
        widens_if_char(w, cx, *cx.env.global_elem(name)->0),
    ensures
        reads_value(
            w,
            m,
            crate::codegen::deref_read::plan_emit_deref_to_ax(cx, ptr),
            typed_value(
                m,
                (w.symbol)(name@) + crate::laws::address::subscript_value(
                    w,
                    m,
                    *cx.env,
                    &**right,
                )->0 * (cx.env.global_elem(name)->0).size(),
                *cx.env.global_elem(name)->0,
            ),
        ),
{
    let plan = crate::codegen::deref_read::plan_emit_deref_to_ax(cx, ptr);
    assert(plan == crate::codegen::deref_read::plan_deref_global_sum(cx, ptr));
    let e = cx.env.global_elem(name)->0;
    let i = crate::laws::address::subscript_value(w, m, *cx.env, &**right)->0;
    let at = (w.symbol)(name@) + i * e.size();
    crate::laws::address::subscript_scales(w, m, cx, &**right, e);
    let a = crate::codegen::array_addr::plan_emit_index_into_bx(cx, &**right, e)->Emit_0;
    let m1 = crate::machine::run(w, m, a, 0)->Through_0;
    let from = crate::isa::elem(name, Reg::Bx);
    crate::laws::address::sum_wraps((w.symbol)(name@), i * e.size());
    let second = crate::codegen::common::plan_load_value(cx, e, from);
    value_loaded(w, m1, cx, e, from, at);
    read_behind(w, m, a, m1, second, typed_value(m, at, *e));
}

/// `*(p + k)` for a local near pointer and a constant reads where `p` points,
/// `k` elements further on.
pub proof fn const_sum_read<'a>(
    w: World<'a>,
    m: Machine,
    cx: Cx<'a>,
    ptr: &'a Expr,
    left: &'a Box<Expr>,
    right: &'a Box<Expr>,
    name: &'a String,
    t: &'a Type,
    k: u32,
)
    requires
        m.wf(),
        ptr.kind == (ExprKind::BinOp { op: BinOp::Add, left: *left, right: *right }),
        left.kind == ExprKind::Ident(*name),
        cx.env.const_of(&**right) == Some(k),
        cx.env.global_elem(name) is None,
        t.is_countable(),
        k * t.size() <= 0x7FFF,
        crate::laws::target::points_at(w, m, *cx.env, *name, *t),
    ensures
        reads_value(
            w,
            m,
            crate::codegen::deref_read::plan_emit_deref_to_ax(cx, ptr),
            typed_value(
                m,
                crate::laws::store::pointer_value(w, m, *cx.env, *name)->0 + k * t.size(),
                *t,
            ),
        ),
{
    let plan = crate::codegen::deref_read::plan_emit_deref_to_ax(cx, ptr);
    let p = cx.env.local_pointee(name)->0;
    assert(plan == crate::codegen::deref_read::plan_pointer_plus_const(cx, name, p, &**right));
    let at = crate::laws::store::pointer_value(w, m, *cx.env, *name)->0 + k * t.size();
    let d = crate::isa::plus(crate::isa::uscaled(k, t.size() as u16) as i64);
    assert(crate::machine::distance(d) == k * t.size());
    match cx.env.local(name)->0.loc {
        LocalLocation::Reg(r) => {
            crate::laws::variable::widened_load(w, m, cx, p, crate::isa::at_disp(r, d), at);
        },
        LocalLocation::Stack(off) => {
            let (first, m1) = word_in_bx(w, m, crate::isa::bp(off));
            let to = crate::isa::at_disp(Reg::Bx, d);
            let second = crate::codegen::deref_read::plan_load_widened(cx, p, to);
            crate::laws::variable::widened_load(w, m1, cx, p, to, at);
            read_behind(w, m, first, m1, second, typed_value(m, at, *t));
        },
    }
}

/// `*(p + i)` for a local near pointer to bytes and an integer in memory
/// reads the byte that lies `i` further on than `p` points.
pub proof fn memory_sum_read<'a>(
    w: World<'a>,
    m: Machine,
    cx: Cx<'a>,
    ptr: &'a Expr,
    left: &'a Box<Expr>,
    right: &'a Box<Expr>,
    name: &'a String,
)
    requires
        m.wf(),
        !cx.skip_widen,
        ptr.kind == (ExprKind::BinOp { op: BinOp::Add, left: *left, right: *right }),
        left.kind == ExprKind::Ident(*name),
        cx.env.const_of(&**right) is None,
        cx.env.facts(&**right).int_addr is Some,
        cx.env.global_elem(name) is None,
        cx.env.local_pointee(name) matches Some(t) && t.is_char_like() && t.size() == 1
            && t.is_countable(),
        cx.env.local(name) matches Some(l) && !l.is_selector,
        crate::laws::address::local_value(w, m, *cx.env, *name) is Some,
    ensures
        reads_value(
            w,
            m,
            crate::codegen::deref_read::plan_emit_deref_to_ax(cx, ptr),
            typed_value(
                m,
                crate::laws::address::local_value(w, m, *cx.env, *name)->0 + m.word_at(
                    (w.place)((cx.env.facts(&**right).int_addr->0)@),
                ),
                *cx.env.local_pointee(name)->0,
            ),
        ),
{
    let plan = crate::codegen::deref_read::plan_emit_deref_to_ax(cx, ptr);
    let t = cx.env.local_pointee(name)->0;
    assert(plan == crate::codegen::deref_read::plan_pointer_plus_memory(cx, name, t, &**right));
    let addr = &cx.env.facts(&**right).int_addr->0;
    let p = crate::laws::address::local_value(w, m, *cx.env, *name)->0;
    let i = m.word_at((w.place)(addr@));
    let a = crate::codegen::array_addr::plan_name_into_bx(cx, name)->Emit_0;
    let m1 = crate::laws::address::variable_in_bx(w, m, m, cx, name);
    let from = Operand::Mem(crate::isa::Width::Word, Addr::Text(addr));
    let b = seq![crate::codegen::emitter::add_to(crate::isa::bx(), from)];
    crate::machine::word_range(m.mem, (w.place)(addr@));
    let m2 = crate::laws::steps::direct_to_register(w, m1, b, 0, BinOp::Add, Reg::Bx, from);
    crate::machine::step_end(w, m2, b, 1);
    crate::laws::address::first_part(w, m, a, b, m1);
    let second = crate::codegen::deref_read::plan_load_widened(cx, t, crate::isa::at(Reg::Bx));
    crate::laws::variable::widened_load(w, m2, cx, t, crate::isa::at(Reg::Bx), p + i);
    read_behind(w, m, a + b, m2, second, typed_value(m, p + i, *t));
    assert(a + b + second->Emit_0 =~= plan->Emit_0);
}

/// A number in `ax` that counts elements of one or two bytes is scaled.
#[verifier::rlimit(60)]
pub proof fn scaled_in_ax<'a>(w: World<'a>, m: Machine, size: u16) -> (r: (Seq<Step<'a>>, Machine))
    requires
        m.wf(),
        size == 1 || size == 2,
    ensures
        r.0 == (if size == 2 {
            seq![crate::codegen::emitter::shl1(crate::isa::ax::<'a>())]
        } else {
            Seq::empty()
        }),
        crate::machine::run(w, m, r.0, 0) == Outcome::Through(r.1),
        r.1.wf(),
        crate::laws::steps::same_regs(
            r.1,
            Machine { ax: crate::machine::wrap(m.ax * size), ..m },
        ),
        r.1.mem == m.mem,
{
    assert(m.ax * size == if size == 2 { 2 * m.ax } else { m.ax }) by (nonlinear_arith)
        requires
            size == 1 || size == 2,
    ;
    if size == 2 {
        let a = seq![crate::codegen::emitter::shl1(crate::isa::ax::<'a>())];
        let m1 = crate::laws::steps::shift_register(
            w,
            m,
            a,
            0,
            crate::isa::Mnemonic::Shl,
            Reg::Ax,
        );
        crate::machine::step_end(w, m1, a, 1);
        reveal(crate::laws::steps::shifted_once);
        assert(m1.ax == crate::machine::wrap(2 * m.ax));
        (a, m1)
    } else {
        let a = Seq::<Step<'a>>::empty();
        assert(crate::machine::wrap(m.ax) == m.ax);
        crate::machine::step_end(w, m, a, 0);
        (a, m)
    }
}

/// A computed number is scaled, and the pointer that it counts from is added
/// to it in `bx`.
proof fn pointer_plus_computed<'a>(
    w: World<'a>,
    m: Machine,
    cx: Cx<'a>,
    name: &'a String,
    offset: &'a Expr,
    size: u16,
    i: int,
) -> (r: (Seq<Step<'a>>, Machine))
    requires
        m.wf(),
        size == 1 || size == 2,
        crate::laws::rows::is_computed_as(w, m, cx, offset, i),
        crate::laws::address::local_value(w, m, *cx.env, *name) is Some,
        cx.env.local(name) matches Some(l) && (l.loc matches LocalLocation::Reg(p) ==> p == Reg::Si
            || p == Reg::Di),
    ensures
        r.0 == seq![crate::codegen::emitter::to_ax(cx, offset)] + (if size == 2 {
            seq![crate::codegen::emitter::shl1(crate::isa::ax::<'a>())]
        } else {
            Seq::empty()
        }) + crate::codegen::array_addr::plan_name_into_bx(cx, name)->Emit_0 + seq![
            crate::codegen::emitter::add_to(crate::isa::bx::<'a>(), crate::isa::ax()),
        ],
        crate::codegen::array_addr::plan_name_into_bx(cx, name) is Emit,
        crate::machine::run(w, m, r.0, 0) == Outcome::Through(r.1),
        r.1.wf(),
        crate::laws::address::same_variables(r.1, m),
        r.1.bx == crate::machine::wrap(
            crate::laws::address::local_value(w, m, *cx.env, *name)->0 + i * size,
        ),
{
    let p = crate::laws::address::local_value(w, m, *cx.env, *name)->0;
    let a = seq![crate::codegen::emitter::to_ax(cx, offset)];
    assert(crate::laws::address::same_variables(m, m));
    let m1 = crate::laws::long::evaluated(w, m, cx, offset);
    crate::machine::step_on(w, m, a, 0, m1);
    crate::machine::step_end(w, m1, a, 1);
    let (b, m2) = scaled_in_ax(w, m1, size);
    crate::laws::address::first_part(w, m, a, b, m1);
    let c = crate::codegen::array_addr::plan_name_into_bx(cx, name)->Emit_0;
    let m3 = crate::laws::address::variable_in_bx(w, m2, m2, cx, name);
    crate::laws::address::first_part(w, m, a + b, c, m2);
    let d = seq![crate::codegen::emitter::add_to(crate::isa::bx::<'a>(), crate::isa::ax())];
    let ax = Operand::<'a>::Reg(Reg::Ax);
    let m4 = crate::laws::steps::direct_to_register(w, m3, d, 0, BinOp::Add, Reg::Bx, ax);
    crate::machine::step_end(w, m4, d, 1);
    crate::laws::address::first_part(w, m, a + b + c, d, m3);
    crate::laws::address::sum_wraps(p, i * size);
    (a + b + c + d, m4)
}

/// Whether a name stands for a local near pointer to bytes or words, on the
/// stack or in `si` or `di`, and none of a segment of its own.
pub open spec fn is_sum_base<'a>(w: World<'a>, m: Machine, env: Env, name: String) -> bool {
    &&& env.global_elem(&name) is None
    &&& env.local(&name) matches Some(l) && !l.is_selector && (l.loc matches LocalLocation::Reg(p)
        ==> p == Reg::Si || p == Reg::Di)
    &&& env.local_pointee(&name) matches Some(t) && t.is_countable() && (t.size() == 1 || t.size()
        == 2)
    &&& crate::laws::address::local_value(w, m, env, name) is Some
}

/// `*(p + e)` for a local near pointer and a computed number reads where `p`
/// points, so many elements further on.
pub proof fn computed_sum_read<'a>(
    w: World<'a>,
    m: Machine,
    cx: Cx<'a>,
    ptr: &'a Expr,
    left: &'a Box<Expr>,
    right: &'a Box<Expr>,
    name: &'a String,
    i: int,
)
    requires
        m.wf(),
        ptr.kind == (ExprKind::BinOp { op: BinOp::Add, left: *left, right: *right }),
        left.kind == ExprKind::Ident(*name),
        cx.env.const_of(&**right) is None,
        cx.env.facts(&**right).int_addr is None,
        is_sum_base(w, m, *cx.env, *name),
        crate::laws::rows::is_computed_as(w, m, cx, &**right, i),
    ensures
        reads_value(
            w,
            m,
            crate::codegen::deref_read::plan_emit_deref_to_ax(cx, ptr),
            typed_value(
                m,
                crate::laws::address::local_value(w, m, *cx.env, *name)->0 + i * (
                cx.env.local_pointee(name)->0).size(),
                *cx.env.local_pointee(name)->0,
            ),
        ),
{
    let plan = crate::codegen::deref_read::plan_emit_deref_to_ax(cx, ptr);
    let t = cx.env.local_pointee(name)->0;
    let size = t.size() as u16;
    assert(plan == crate::codegen::deref_read::plan_pointer_plus_general(cx, name, t, &**right));
    let p = crate::laws::address::local_value(w, m, *cx.env, *name)->0;
    let at = p + i * t.size();
    let (a, m1) = pointer_plus_computed(w, m, cx, name, &**right, size, i);
    let second = crate::codegen::deref_read::plan_load_widened(cx, t, crate::isa::at(Reg::Bx));
    crate::laws::variable::widened_load(w, m1, cx, t, crate::isa::at(Reg::Bx), at);
    read_behind(w, m, a, m1, second, typed_value(m, at, *t));
    assert(a + second->Emit_0 =~= plan->Emit_0);
}

/// A computed number is scaled and added to the address in `bx`.
proof fn computed_added<'a>(
    w: World<'a>,
    m: Machine,
    cx: Cx<'a>,
    offset: &'a Expr,
    size: u16,
    i: int,
) -> (r: (Seq<Step<'a>>, Machine))
    requires
        m.wf(),
        size == 1 || size == 2,
        crate::laws::rows::is_computed_as(w, m, cx, offset, i),
    ensures
        r.0 == seq![crate::codegen::emitter::to_ax(cx, offset)] + (if size == 2 {
            seq![crate::codegen::emitter::shl1(crate::isa::ax::<'a>())]
        } else {
            Seq::empty()
        }) + seq![crate::codegen::emitter::add_to(crate::isa::bx::<'a>(), crate::isa::ax())],
        crate::machine::run(w, m, r.0, 0) == Outcome::Through(r.1),
        r.1.wf(),
        crate::laws::address::same_variables(r.1, m),
        r.1.bx == crate::machine::wrap(m.bx + i * size),
{
    let a = seq![crate::codegen::emitter::to_ax(cx, offset)];
    assert(crate::laws::address::same_variables(m, m));
    let m1 = crate::laws::long::evaluated(w, m, cx, offset);
    crate::machine::step_on(w, m, a, 0, m1);
    crate::machine::step_end(w, m1, a, 1);
    let (b, m2) = scaled_in_ax(w, m1, size);
    crate::laws::address::first_part(w, m, a, b, m1);
    let d = seq![crate::codegen::emitter::add_to(crate::isa::bx::<'a>(), crate::isa::ax())];
    let ax = Operand::<'a>::Reg(Reg::Ax);
    let m3 = crate::laws::steps::direct_to_register(w, m2, d, 0, BinOp::Add, Reg::Bx, ax);
    crate::machine::step_end(w, m3, d, 1);
    crate::laws::address::first_part(w, m, a + b, d, m2);
    crate::laws::address::sum_wraps(m.bx, i * size);
    (a + b + d, m3)
}

/// `*(p + e + f)` for a local near pointer and two computed numbers reads
/// where `p` points, as many elements further on as the two make together.
#[verifier::rlimit(60)]
pub proof fn double_sum_read<'a>(
    w: World<'a>,
    m: Machine,
    cx: Cx<'a>,
    ptr: &'a Expr,
    left: &'a Box<Expr>,
    right: &'a Box<Expr>,
    base: &'a Box<Expr>,
    inner: &'a Box<Expr>,
    name: &'a String,
    i: int,
    j: int,
)
    requires
        m.wf(),
        ptr.kind == (ExprKind::BinOp { op: BinOp::Add, left: *left, right: *right }),
        left.kind == (ExprKind::BinOp { op: BinOp::Add, left: *base, right: *inner }),
        base.kind == ExprKind::Ident(*name),
        is_sum_base(w, m, *cx.env, *name),
        widens_if_char(w, cx, *cx.env.local_pointee(name)->0),
        crate::laws::rows::is_computed_as(w, m, cx, &**inner, i),
        crate::laws::rows::is_computed_as(w, m, cx, &**right, j),
    ensures
        reads_value(
            w,
            m,
            crate::codegen::deref_read::plan_emit_deref_to_ax(cx, ptr),
            typed_value(
                m,
                crate::laws::address::local_value(w, m, *cx.env, *name)->0 + i * (
                cx.env.local_pointee(name)->0).size() + j * (cx.env.local_pointee(
                    name,
                )->0).size(),
                *cx.env.local_pointee(name)->0,
            ),
        ),
{
    let plan = crate::codegen::deref_read::plan_emit_deref_to_ax(cx, ptr);
    let t = cx.env.local_pointee(name)->0;
    let size = t.size() as u16;
    assert(plan == crate::codegen::deref_read::plan_deref_double_sum(cx, ptr));
    let p = crate::laws::address::local_value(w, m, *cx.env, *name)->0;
    let at = p + i * t.size() + j * t.size();
    let (a, m1) = pointer_plus_computed(w, m, cx, name, &**inner, size, i);
    let (b, m2) = computed_added(w, m1, cx, &**right, size, j);
    crate::laws::address::first_part(w, m, a, b, m1);
    crate::laws::address::sum_wraps(j * size, p + i * size);
    assert(crate::machine::wrap(m2.bx) == crate::machine::wrap(at));
    let second = crate::codegen::common::plan_load_value(cx, t, crate::isa::at(Reg::Bx));
    value_loaded(w, m2, cx, t, crate::isa::at(Reg::Bx), at);
    read_behind(w, m, a + b, m2, second, typed_value(m, at, *t));
    assert(a + b + second->Emit_0 =~= plan->Emit_0);
}

/// `*f()` reads where the pointer points that the function returns in `ax`,
/// in memory as the function leaves it.
pub proof fn call_pointer_read<'a>(
    w: World<'a>,
    m: Machine,
    cx: Cx<'a>,
    ptr: &'a Expr,
    name: &'a String,
    args: &'a Vec<Expr>,
)
    requires
        ptr.kind == (ExprKind::Call { name: *name, args: *args }),
        cx.env.ret_ty_of(name) matches Some(ret) && ret.pointee() is Some,
        widens_if_char(w, cx, *(cx.env.ret_ty_of(name)->0).pointee()->0),
        (w.work)(Step::CallFn(name, args), m).wf(),
    ensures
        ({
            let plan = crate::codegen::deref_read::plan_emit_deref_to_ax(cx, ptr);
            let called = (w.work)(Step::CallFn(name, args), m);
            let t = (cx.env.ret_ty_of(name)->0).pointee()->0;
            &&& plan matches Plan::Emit(steps)
            &&& crate::machine::run(w, m, steps, 0) matches Outcome::Through(after)
            &&& after.ax == typed_value(called, called.ax, *t)
            &&& crate::laws::address::same_variables(after, called)
        }),
{
    let plan = crate::codegen::deref_read::plan_emit_deref_to_ax(cx, ptr);
    let call = Step::CallFn(name, args);
    let called = (w.work)(call, m);
    let t = (cx.env.ret_ty_of(name)->0).pointee()->0;
    let first = seq![call];
    crate::machine::step_on(w, m, first, 0, called);
    crate::machine::step_end(w, called, first, 1);
    let copy = seq![crate::codegen::emitter::mov(crate::isa::bx::<'a>(), crate::isa::ax())];
    let ax = Operand::<'a>::Reg(Reg::Ax);
    let m1 = crate::laws::steps::move_to_register(w, called, copy, 0, Reg::Bx, ax);
    crate::machine::step_end(w, m1, copy, 1);
    let second = crate::codegen::common::plan_load_value(cx, t, crate::isa::at(Reg::Bx));
    value_loaded(w, m1, cx, t, crate::isa::at(Reg::Bx), called.ax);
    read_behind(w, called, copy, m1, second, typed_value(called, called.ax, *t));
    let rest = copy + second->Emit_0;
    crate::laws::address::first_part(w, m, first, rest, called);
    assert(first + rest =~= plan->Emit_0);
}

/// `**p` and deeper chains read where the last pointer of the chain points:
/// the one that the first steps leave in `bx`.
pub proof fn chain_read<'a>(
    w: World<'a>,
    m: Machine,
    cx: Cx<'a>,
    name: &'a String,
    depth: u32,
    t: &'a Type,
)
    requires
        crate::codegen::env::chain_type(cx.env, name, depth) == Some(t),
        widens_if_char(w, cx, *t),
        (w.work)(Step::ChainToBx(name, depth), m).wf(),
        crate::laws::address::same_variables((w.work)(Step::ChainToBx(name, depth), m), m),
        depth > 0,
    ensures
        reads_value(
            w,
            m,
            crate::codegen::deref_read::plan_deref_root(cx, name, depth),
            typed_value(m, (w.work)(Step::ChainToBx(name, depth), m).bx, *t),
        ),
{
    let chain = Step::ChainToBx(name, depth);
    let m1 = (w.work)(chain, m);
    let first = seq![chain];
    crate::machine::step_on(w, m, first, 0, m1);
    crate::machine::step_end(w, m1, first, 1);
    let second = crate::codegen::common::plan_load_value(cx, t, crate::isa::at(Reg::Bx));
    value_loaded(w, m1, cx, t, crate::isa::at(Reg::Bx), m1.bx);
    read_behind(w, m, first, m1, second, typed_value(m, m1.bx, *t));
}

/// `*p++` and `*p--` for a pointer to characters or integers in a register
/// read what `p` pointed at, where the old pointer is kept in `bx`, and move
/// `p` by the size of what it points at. No memory changes.
pub proof fn moved_pointer_read<'a>(
    w: World<'a>,
    m: Machine,
    cx: Cx<'a>,
    ptr: &'a Expr,
    name: &'a String,
    op: UpdateOp,
    t: Type,
    r: Reg,
)
    requires
        m.wf(),
        ptr.kind == (ExprKind::Update { target: *name, op, position: UpdatePosition::Post }),
        crate::laws::target::moves_over(*cx.env, *name, t, r),
        t.is_char_like() ==> cx.in_arg_expr,
    ensures
        ({
            let plan = crate::codegen::deref_read::plan_emit_deref_to_ax(cx, ptr);
            &&& plan matches Plan::Emit(steps)
            &&& crate::machine::run(w, m, steps, 0) matches Outcome::Through(after)
            &&& after.ax == typed_value(m, m.reg(r)->0, t)
            &&& crate::laws::address::same_variables(
                after,
                m.with_reg(
                    r,
                    crate::machine::word_result(
                        crate::laws::copy::update_op(op),
                        m.reg(r)->0,
                        t.size() as int,
                    ),
                )->0,
            )
        }),
{
    let plan = crate::codegen::deref_read::plan_emit_deref_to_ax(cx, ptr);
    assert(plan == crate::codegen::deref_read::plan_deref_postupdate(cx, ptr));
    let p = cx.env.local_pointee(name)->0;
    let size = t.size() as u16;
    let a = seq![crate::codegen::emitter::mov(crate::isa::bx::<'a>(), Operand::Reg(r))];
    let m1 = crate::laws::steps::move_to_register(w, m, a, 0, Reg::Bx, Operand::Reg(r));
    crate::machine::step_end(w, m1, a, 1);
    let b = Step::Op1(crate::isa::update(op), Operand::<'a>::Reg(r)).times(size as nat);
    let m2 = crate::laws::target::pointer_moved(w, m1, op, r, size);
    crate::laws::address::first_part(w, m, a, b, m1);
    let from = crate::isa::at::<'a>(Reg::Bx);
    let c = crate::codegen::deref_read::plan_load_widened(cx, p, from);
    crate::laws::variable::widened_load(w, m2, cx, p, from, m.reg(r)->0);
    crate::laws::address::first_part(w, m, a + b, c->Emit_0, m2);
    assert(plan->Emit_0 =~= a + b + c->Emit_0);
}

/// `*(T *)&x` for a variable on the stack reads a word of it, or a byte that
/// is not widened.
pub proof fn cast_address_read<'a>(
    w: World<'a>,
    m: Machine,
    cx: Cx<'a>,
    ptr: &'a Expr,
    operand: &'a Box<Expr>,
    to: &'a Box<Type>,
    name: &'a String,
    off: i16,
)
    requires
        m.wf(),
        ptr.kind == (ExprKind::Cast { ty: Type::Pointer(*to), operand: *operand }),
        operand.kind == ExprKind::AddressOf(*name),
        cx.env.stack_of(name) == Some(off),
    ensures
        ({
            let plan = crate::codegen::deref_read::plan_emit_deref_to_ax(cx, ptr);
            &&& plan matches Plan::Emit(steps)
            &&& crate::machine::run(w, m, steps, 0) matches Outcome::Through(after)
            &&& if to.is_char_like() {
                after.ax % 0x100 == m.byte_at(m.bp + off) && after.ax / 0x100 == m.ax / 0x100
            } else {
                after.ax == m.word_at(m.bp + off)
            }
            &&& crate::laws::address::same_variables(after, m)
        }),
{
    let plan = crate::codegen::deref_read::plan_emit_deref_to_ax(cx, ptr);
    assert(plan == crate::codegen::deref_read::plan_deref_cast_address(cx, ptr));
    let steps = plan->Emit_0;
    if to.is_char_like() {
        let after = crate::laws::byte::load_al(w, m, steps, 0, crate::isa::bp(off));
        crate::machine::step_end(w, after, steps, 1);
    } else {
        let after = crate::laws::steps::load_word(w, m, steps, 0, Reg::Ax, crate::isa::bp(off));
        crate::machine::step_end(w, after, steps, 1);
    }
}

} // verus!
