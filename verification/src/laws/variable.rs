//! Variables on the right side: what a store or a compound assignment makes
//! of the value of another variable.

use vstd::prelude::*;
use crate::ast::{BinOp, Expr, ExprKind, Type};
use crate::codegen::emitter::{Cx, Plan, Step};
use crate::codegen::env::{Env, LocalLocation};
use crate::isa::{Addr, Operand, Reg};
use crate::machine::{Machine, Outcome, World};

verus! {

/// Whether an expression is a variable, no character, that stands as an
/// operand of its own and is worth a number.
pub open spec fn is_operand_worth<'a>(
    w: World<'a>,
    m: Machine,
    env: Env,
    value: Expr,
    v: int,
) -> bool {
    &&& value.kind matches ExprKind::Ident(n) && !env.is_char_local(&n)
    &&& env.const_of(&value) is None
    &&& !env.facts(&value).needs_ax
    &&& env.facts(&value).source matches Some(src) && crate::laws::address::is_worth(
        w,
        m,
        src.word,
        v,
    )
}

/// `x op= y` for an integer in a register, another variable and a direct
/// operator leaves the 16-bit result in the register, with memory and every
/// other register unchanged.
pub proof fn variable_applied<'a>(
    w: World<'a>,
    m: Machine,
    cx: Cx<'a>,
    name: &'a String,
    op: BinOp,
    value: &'a Expr,
    r: Reg,
    v: int,
)
    requires
        m.wf(),
        crate::laws::integer::is_in_register(m, *cx.env, *name, r),
        crate::isa::is_direct(op),
        is_operand_worth(w, m, *cx.env, *value, v),
    ensures
        crate::laws::line::sets_register(
            w,
            m,
            crate::codegen::compound_local::plan_emit_compound_assign(cx, name, op, value),
            r,
            crate::machine::word_result(op, m.reg(r)->0, v),
        ),
{
    let plan = crate::codegen::compound_local::plan_emit_compound_assign(cx, name, op, value);
    assert(plan == crate::codegen::compound_local::plan_word_direct(cx, r, op, value));
    let steps = plan->Emit_0;
    let text = &(cx.env.facts(value).source->0).word;
    let s = Operand::Text(text);
    assert(steps =~= seq![Step::Op2(crate::isa::direct(op), Operand::Reg(r), s)]);
    assert(crate::laws::address::same_variables(m, m));
    assert(m.read(w, s, false) == Some(v));
    let after = crate::laws::steps::direct_to_register(w, m, steps, 0, op, r, s);
    crate::machine::step_end(w, after, steps, 1);
}

/// `a[k] = y` for a local array of words with constant subscripts and an
/// integer variable in a register leaves the value of the variable in the
/// element, with no other memory and no register changed.
pub proof fn element_from_register<'a>(
    w: World<'a>,
    m: Machine,
    cx: Cx<'a>,
    array: &'a String,
    indices: &'a Vec<Expr>,
    value: &'a Expr,
    name: &'a String,
    r: Reg,
)
    requires
        m.wf(),
        crate::laws::element::selects_word(
            *cx.env,
            array,
            crate::codegen::array_assign::each(indices),
        ),
        cx.env.global_type(array) is None,
        value.kind == ExprKind::Ident(*name),
        cx.env.const_of(value) is None,
        crate::laws::integer::is_in_register(m, *cx.env, *name, r),
        cx.env.is_int_local(name),
    ensures
        crate::laws::line::sets_word(
            w,
            m,
            crate::codegen::array_assign::plan_emit_array_assign(cx, array, indices, value),
            crate::laws::element::const_place(
                w,
                m,
                *cx.env,
                array,
                crate::codegen::array_assign::each(indices),
            ),
            m.reg(r)->0,
        ),
{
    let list = crate::codegen::array_assign::each(indices);
    let plan = crate::codegen::array_assign::plan_emit_array_assign(cx, array, indices, value);
    let steps = plan->Emit_0;
    let at = crate::laws::element::const_place(w, m, *cx.env, array, list);
    let l = cx.env.local(array)->0;
    let base = l.loc->Stack_0;
    let off = crate::laws::element::const_distance(*cx.env, l.ty, list);
    assert(plan == crate::codegen::array_assign::plan_elem_frame_const(
        cx,
        base,
        &l.ty,
        list,
        value,
    ));
    let to = crate::isa::bp_plus(base, crate::isa::sat16(off));
    let s = Operand::<'a>::Reg(r);
    assert(steps =~= seq![crate::codegen::emitter::mov(crate::isa::word(to), s)]);
    let after = crate::laws::steps::store_word(w, m, steps, 0, to, s);
    crate::machine::step_end(w, after, steps, 1);
    crate::machine::word_written(m.mem, at, m.reg(r)->0);
}

/// Whether an expression is a variable in a word register that is no base
/// for the pointer to be loaded.
pub open spec fn is_register_value(m: Machine, env: Env, value: Expr, r: Reg) -> bool {
    &&& value.kind matches ExprKind::Ident(n) && env.word_reg_of(&n) == Some(r)
    &&& env.const_of(&value) is None
    &&& r != Reg::Bx
    &&& m.reg(r) is Some
}

/// `*p = y` for a local near pointer to integers and a variable in a
/// register leaves the value of the variable in the word that `p` points at.
/// No other memory changes, and no register but `bx`, into which a pointer
/// on the stack is loaded.
#[verifier::rlimit(60)]
pub proof fn pointed_from_register<'a>(
    w: World<'a>,
    m: Machine,
    cx: Cx<'a>,
    target: &'a Expr,
    name: &'a String,
    value: &'a Expr,
    r: Reg,
)
    requires
        m.wf(),
        target.kind == ExprKind::Ident(*name),
        crate::laws::store::points_at_int(w, m, *cx.env, *name),
        is_register_value(m, *cx.env, *value, r),
    ensures
        ({
            let plan = crate::codegen::deref_write::plan_emit_deref_assign(cx, target, value);
            let at = crate::laws::store::pointer_value(w, m, *cx.env, *name)->0;
            &&& plan matches Plan::Emit(steps)
            &&& crate::machine::run(w, m, steps, 0) matches Outcome::Through(after)
            &&& after.word_at(at) == m.reg(r)->0
            &&& crate::machine::same_but(after.mem, m.mem, at, 2)
            &&& cx.env.reg_of(name) is Some ==> crate::laws::steps::same_regs(after, m)
            &&& crate::laws::steps::same_regs(after, Machine { bx: after.bx, ..m })
        }),
{
    let plan = crate::codegen::deref_write::plan_emit_deref_assign(cx, target, value);
    assert(plan == crate::codegen::deref_write::plan_deref_assign_local(cx, name, 0, value));
    let steps = plan->Emit_0;
    let s = Operand::<'a>::Reg(r);
    assert(0 <= m.reg(r)->0 < 0x1_0000);
    match cx.env.local(name)->0.loc {
        LocalLocation::Reg(p) => {
            let store = crate::codegen::emitter::mov(crate::isa::word(crate::isa::at(p)), s);
            assert(steps =~= seq![store]);
            let after = crate::laws::steps::store_word(w, m, steps, 0, crate::isa::at(p), s);
            crate::machine::step_end(w, after, steps, 1);
            crate::machine::word_written(m.mem, m.reg(p)->0, m.reg(r)->0);
        },
        LocalLocation::Stack(off) => {
            let load = crate::codegen::emitter::mov(
                crate::isa::bx(),
                crate::isa::word(crate::isa::bp(off)),
            );
            let to = crate::isa::at(Reg::Bx);
            let store = crate::codegen::emitter::mov(crate::isa::word(to), s);
            assert(steps =~= seq![load, store]);
            let m1 = crate::laws::steps::load_word(w, m, steps, 0, Reg::Bx, crate::isa::bp(off));
            let after = crate::laws::steps::store_word(w, m1, steps, 1, to, s);
            crate::machine::step_end(w, after, steps, 2);
            crate::machine::word_written(m.mem, m.word_at(m.bp + off), m.reg(r)->0);
        },
    }
}

/// Whether a name stands for a local array of arrays in the stack frame at
/// an offset, with elements of a byte or a word.
pub open spec fn is_frame_rows(env: Env, name: String, base: i16) -> bool {
    &&& env.global_type(&name) is None
    &&& env.local(&name) matches Some(l) && l.loc == LocalLocation::Stack(base)
    &&& env.local_elem(&name) matches Some(row) && row.spec_array_elem() matches Some(t) && (
    t.size() == 1 || t.size() == 2)
}

/// Whether two subscripts are variables that stand as operands and are worth
/// two numbers.
pub open spec fn are_worth<'a>(
    w: World<'a>,
    m: Machine,
    env: Env,
    i: Expr,
    j: Expr,
    p: int,
    q: int,
) -> bool {
    &&& env.const_of(&i) is None
    &&& env.const_of(&j) is None
    &&& env.facts(&i).index_operand matches Some(text) && crate::laws::address::is_worth(
        w,
        m,
        text,
        p,
    )
    &&& env.facts(&j).index_operand matches Some(text) && crate::laws::address::is_worth(
        w,
        m,
        text,
        q,
    )
}

/// The place of `a[i][j]` on the stack: the first subscript counts rows, the
/// second elements.
pub open spec fn frame_cell(m: Machine, env: Env, name: String, base: i16, p: int, q: int) -> int {
    let row = env.local_elem(&name)->0;
    let t = row.spec_array_elem()->0;
    m.bp + base + p * (row.size() as u16) + q * (t.size() as u16)
}

/// The code for `a[i][j]` on the stack.
proof fn frame_cell_plan<'a>(
    w: World<'a>,
    m: Machine,
    cx: Cx<'a>,
    name: &'a String,
    array: &'a Expr,
    base: &'a Box<Expr>,
    i: &'a Box<Expr>,
    j: &'a Expr,
    off: i16,
    p: int,
    q: int,
)
    requires
        is_frame_rows(*cx.env, *name, off),
        array.kind == (ExprKind::ArrayIndex { array: *base, index: *i }),
        base.kind == ExprKind::Ident(*name),
        are_worth(w, m, *cx.env, **i, *j, p, q),
        cx.env.facts(j).frame_disp is None,
    ensures
        ({
            let row = cx.env.local_elem(name)->0;
            let t = row.spec_array_elem()->0;
            crate::codegen::array_index::plan_emit_array_index_to_ax(cx, array, j)
                == crate::codegen::array_addr::plan_emit_array_addr_2d_to_bx(
                cx,
                &**i,
                j,
                row.size() as u16,
                t.size() as u16,
                off,
            ).followed_by(
                crate::codegen::deref_read::plan_load_widened(cx, t, crate::isa::at(Reg::Bx)),
            )
        }),
{
    reveal_with_fuel(crate::codegen::array_index::subscripts, 3);
    reveal_with_fuel(crate::codegen::array_index::spec_subscript_base, 3);
    let list = crate::codegen::array_index::subscripts(array).push(j);
    assert(list =~= seq![&**i, j]);
    let plan = crate::codegen::array_index::plan_emit_array_index_to_ax(cx, array, j);
    let l = cx.env.local(name)->0;
    assert(plan == crate::codegen::array_index::plan_index_frame_2d(cx, off, &l.ty, list));
}

/// What a byte or a word in memory is worth as a value of a type: a
/// character is widened by its sign or with zeros.
pub open spec fn typed_value(m: Machine, at: int, t: Type) -> int {
    if t.is_char_like() {
        crate::machine::wrap(crate::laws::byte::char_value(m.byte_at(at), t.is_unsigned()))
    } else {
        m.word_at(at)
    }
}

/// Whether a plan goes through and leaves a value in `ax`, with no variable
/// changed.
pub open spec fn reads_value<'a>(w: World<'a>, m: Machine, plan: Plan<'a>, value: int) -> bool {
    &&& plan matches Plan::Emit(steps)
    &&& crate::machine::run(w, m, steps, 0) matches Outcome::Through(after)
    &&& after.ax == value
    &&& crate::laws::address::same_variables(after, m)
}

/// A byte or a word behind an address is loaded and widened.
pub proof fn widened_load<'a>(
    w: World<'a>,
    m: Machine,
    cx: Cx<'a>,
    t: &'a Type,
    a: Addr<'a>,
    at: int,
)
    requires
        m.wf(),
        m.locate(w, a) matches Some(near) && crate::machine::wrap(near) == crate::machine::wrap(at),
    ensures
        reads_value(
            w,
            m,
            crate::codegen::deref_read::plan_load_widened(cx, t, a),
            typed_value(m, at, *t),
        ),
{
    let plan = crate::codegen::deref_read::plan_load_widened(cx, t, a);
    let steps = plan->Emit_0;
    let near = m.locate(w, a)->0;
    if t.is_char_like() {
        let m1 = crate::laws::byte::load_al(w, m, steps, 0, a);
        let after = crate::laws::byte::widen_al(w, m1, steps, 1, t.is_unsigned());
        crate::machine::step_end(w, after, steps, 2);
    } else {
        crate::laws::element::word_place_wraps(m.mem, near);
        crate::laws::element::word_place_wraps(m.mem, at);
        let after = crate::laws::steps::load_word(w, m, steps, 0, Reg::Ax, a);
        crate::machine::step_end(w, after, steps, 1);
    }
}

/// `a[i][j]` for a local array of arrays and two variables leaves in `ax`
/// what lies at the start of the array plus the first subscript times the
/// size of a row plus the second times the size of an element. No variable
/// changes.
#[verifier::rlimit(60)]
pub proof fn frame_cell_read<'a>(
    w: World<'a>,
    m: Machine,
    cx: Cx<'a>,
    name: &'a String,
    array: &'a Expr,
    base: &'a Box<Expr>,
    i: &'a Box<Expr>,
    j: &'a Expr,
    off: i16,
    p: int,
    q: int,
)
    requires
        m.wf(),
        is_frame_rows(*cx.env, *name, off),
        array.kind == (ExprKind::ArrayIndex { array: *base, index: *i }),
        base.kind == ExprKind::Ident(*name),
        are_worth(w, m, *cx.env, **i, *j, p, q),
        cx.env.facts(j).frame_disp is None,
    ensures
        reads_value(
            w,
            m,
            crate::codegen::array_index::plan_emit_array_index_to_ax(cx, array, j),
            typed_value(
                m,
                frame_cell(m, *cx.env, *name, off, p, q),
                *(cx.env.local_elem(name)->0).spec_array_elem()->0,
            ),
        ),
{
    let row = cx.env.local_elem(name)->0;
    let t = row.spec_array_elem()->0;
    let at = frame_cell(m, *cx.env, *name, off, p, q);
    frame_cell_plan(w, m, cx, name, array, base, i, j, off, p, q);
    let first = crate::codegen::array_addr::plan_emit_array_addr_2d_to_bx(
        cx,
        &**i,
        j,
        row.size() as u16,
        t.size() as u16,
        off,
    );
    crate::laws::address::frame_element_2d_address(
        w,
        m,
        cx,
        &**i,
        j,
        row.size() as u16,
        t.size() as u16,
        off,
        p,
        q,
    );
    let a = first->Emit_0;
    let middle = crate::machine::run(w, m, a, 0)->Through_0;
    let to = crate::isa::at::<'a>(Reg::Bx);
    assert(crate::machine::wrap(middle.bx) == crate::machine::wrap(at));
    widened_load(w, middle, cx, t, to, at);
    let second = crate::codegen::deref_read::plan_load_widened(cx, t, to);
    crate::laws::address::first_part(w, m, a, second->Emit_0, middle);
}

/// `a[i][j] = k` for a local array of arrays, two variables and a constant
/// leaves the constant in the element at the same place, and nothing else in
/// memory changes.
#[verifier::rlimit(60)]
pub proof fn frame_cell_written<'a>(
    w: World<'a>,
    m: Machine,
    cx: Cx<'a>,
    name: &'a String,
    indices: &'a Vec<Expr>,
    value: &'a Expr,
    off: i16,
    p: int,
    q: int,
    c: u32,
)
    requires
        m.wf(),
        is_frame_rows(*cx.env, *name, off),
        indices.len() == 2,
        are_worth(w, m, *cx.env, indices@[0], indices@[1], p, q),
        cx.env.const_of(value) == Some(c),
        value.kind is IntLit,
        !((cx.env.local_elem(name)->0).spec_array_elem()->0).is_long_like(),
    ensures
        crate::laws::rows::leaves_typed(
            w,
            m,
            crate::codegen::array_assign::plan_emit_array_assign(cx, name, indices, value),
            frame_cell(m, *cx.env, *name, off, p, q),
            *(cx.env.local_elem(name)->0).spec_array_elem()->0,
            c,
        ),
{
    let row = cx.env.local_elem(name)->0;
    let t = row.spec_array_elem()->0;
    let at = frame_cell(m, *cx.env, *name, off, p, q);
    let list = crate::codegen::array_assign::each(indices);
    let l = cx.env.local(name)->0;
    let plan = crate::codegen::array_assign::plan_emit_array_assign(cx, name, indices, value);
    assert(plan == crate::codegen::array_assign::plan_elem_frame_2d(cx, off, &l.ty, list, value));
    let first = crate::codegen::array_addr::plan_emit_array_addr_2d_to_bx(
        cx,
        list[0],
        list[1],
        row.size() as u16,
        t.size() as u16,
        off,
    );
    crate::laws::address::frame_element_2d_address(
        w,
        m,
        cx,
        list[0],
        list[1],
        row.size() as u16,
        t.size() as u16,
        off,
        p,
        q,
    );
    let a = first->Emit_0;
    let middle = crate::machine::run(w, m, a, 0)->Through_0;
    let to = crate::isa::at::<'a>(Reg::Bx);
    assert(crate::machine::wrap(middle.bx) == crate::machine::wrap(at));
    let b = crate::laws::rows::typed_store(*t, to, to, c);
    assert(plan->Emit_0 =~= a + b);
    crate::laws::rows::typed_behind(w, m, a, middle, *t, to, to, c, middle.bx, at);
}

} // verus!
