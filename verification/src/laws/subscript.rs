//! What subscripted members, calls and pointers read.

use vstd::prelude::*;
use crate::ast::{Expr, ExprKind, MemberKind};
use crate::codegen::emitter::{Cx, Plan, Step};
use crate::codegen::env::LocalLocation;
use crate::isa::{Addr, Operand, Reg};
use crate::laws::pointed::{read_behind, value_loaded, widens_if_char, word_in_bx};
use crate::laws::variable::{reads_value, typed_value};
use crate::machine::{Machine, Outcome, World};

verus! {

/// A pointer in memory loaded into `bx`, and what it points at, some bytes
/// further on, read.
proof fn read_through<'a>(
    w: World<'a>,
    m: Machine,
    cx: Cx<'a>,
    from: Addr<'a>,
    t: &'a crate::ast::Type,
    to: Addr<'a>,
    d: int,
)
    requires
        m.wf(),
        m.locate(w, from) is Some,
        widens_if_char(w, cx, *t),
        to matches Addr::At(r, e) && r == Reg::Bx && crate::machine::distance(e) == d,
    ensures
        reads_value(
            w,
            m,
            Plan::Emit(
                seq![crate::codegen::emitter::mov(crate::isa::bx::<'a>(), crate::isa::word(from))],
            ).followed_by(crate::codegen::common::plan_load_value(cx, t, to)),
            typed_value(m, m.word_at(m.locate(w, from)->0) + d, *t),
        ),
{
    let at = m.word_at(m.locate(w, from)->0) + d;
    let (first, m1) = word_in_bx(w, m, from);
    value_loaded(w, m1, cx, t, to, at);
    let second = crate::codegen::common::plan_load_value(cx, t, to);
    read_behind(w, m, first, m1, second, typed_value(m, at, *t));
}

/// `s.a[k]` for a struct variable and an array member reads the element `k`
/// of the member, at its offset in the struct.
pub proof fn member_element_read<'a>(
    w: World<'a>,
    m: Machine,
    cx: Cx<'a>,
    array: &'a Expr,
    index: &'a Expr,
    base: &'a Box<Expr>,
    field: &'a String,
    name: &'a String,
    t: &'a crate::ast::Type,
    offset: u16,
    k: u32,
)
    requires
        m.wf(),
        cx.env.facts(index).frame_disp is None,
        array.kind == (ExprKind::Member { base: *base, field: *field, kind: MemberKind::Dot }),
        base.kind == ExprKind::Ident(*name),
        cx.env.const_of(index) == Some(k),
        cx.env.var_type(name) matches Some(ty) && (ty.struct_field_info(field) matches Some(f)
            && f.offset == offset && f.ty.spec_array_elem() == Some(t)),
        t.is_countable(),
        offset + k * t.size() <= 0x7FFF,
        !cx.env.is_global(name) ==> cx.env.stack_of(name) is Some,
        widens_if_char(w, cx, *t),
    ensures
        reads_value(
            w,
            m,
            crate::codegen::array_index::plan_emit_array_index_to_ax(cx, array, index),
            typed_value(
                m,
                (if cx.env.is_global(name) {
                    (w.symbol)(name@)
                } else {
                    m.bp + cx.env.stack_of(name)->0
                }) + offset + k * t.size(),
                *t,
            ),
        ),
{
    let plan = crate::codegen::array_index::plan_emit_array_index_to_ax(cx, array, index);
    assert(plan == crate::codegen::array_index::plan_index_member(cx, array, index));
    let total = crate::codegen::array_index::member_elem(offset, k, t.size() as u16)->0;
    assert(total == offset + k * t.size());
    let to = if cx.env.is_global(name) {
        crate::isa::global_at(name, crate::isa::plus(total as i64))
    } else {
        crate::isa::bp_plus(cx.env.stack_of(name)->0, crate::isa::usat16(total))
    };
    value_loaded(w, m, cx, t, to, m.locate(w, to)->0);
}

/// `p->a[k]` for a pointer in a register to a struct with an array member
/// reads the element `k` of the member, at its offset behind `p`.
pub proof fn arrow_element_read<'a>(
    w: World<'a>,
    m: Machine,
    cx: Cx<'a>,
    array: &'a Expr,
    index: &'a Expr,
    base: &'a Box<Expr>,
    field: &'a String,
    name: &'a String,
    t: &'a crate::ast::Type,
    offset: u16,
    k: u32,
    r: Reg,
)
    requires
        m.wf(),
        cx.env.facts(index).frame_disp is None,
        array.kind == (ExprKind::Member { base: *base, field: *field, kind: MemberKind::Arrow }),
        base.kind == ExprKind::Ident(*name),
        cx.env.const_of(index) == Some(k),
        cx.env.reg_of(name) == Some(r),
        m.reg(r) is Some,
        cx.env.local_pointee(name) matches Some(st) && (st.struct_field_info(field) matches Some(f)
            && f.offset == offset && f.ty.spec_array_elem() == Some(t) && f.ty.pointee() is None),
        t.is_countable(),
        offset + k * t.size() <= 0x7FFF,
        widens_if_char(w, cx, *t),
    ensures
        reads_value(
            w,
            m,
            crate::codegen::array_index::plan_emit_array_index_to_ax(cx, array, index),
            typed_value(m, m.reg(r)->0 + offset + k * t.size(), *t),
        ),
{
    let plan = crate::codegen::array_index::plan_emit_array_index_to_ax(cx, array, index);
    assert(plan == crate::codegen::array_index::plan_index_arrow_array(cx, array, index));
    let total = crate::codegen::array_index::member_elem(offset, k, t.size() as u16)->0;
    assert(total == offset + k * t.size());
    let to = crate::isa::at_disp(r, crate::isa::plus(crate::isa::signed_of(total)));
    value_loaded(w, m, cx, t, to, m.locate(w, to)->0);
}

/// `p->q[k]` for a pointer in a register to a struct with a pointer member
/// reads the element `k` behind that member, which lies at its offset behind
/// `p`.
pub proof fn arrow_pointer_element_read<'a>(
    w: World<'a>,
    m: Machine,
    cx: Cx<'a>,
    array: &'a Expr,
    index: &'a Expr,
    base: &'a Box<Expr>,
    field: &'a String,
    name: &'a String,
    t: &'a crate::ast::Type,
    offset: u16,
    k: u32,
    r: Reg,
)
    requires
        m.wf(),
        cx.env.facts(index).frame_disp is None,
        array.kind == (ExprKind::Member { base: *base, field: *field, kind: MemberKind::Arrow }),
        base.kind == ExprKind::Ident(*name),
        cx.env.const_of(index) == Some(k),
        cx.env.reg_of(name) == Some(r),
        m.reg(r) is Some,
        cx.env.local_pointee(name) matches Some(st) && (st.struct_field_info(field) matches Some(f)
            && f.offset == offset && f.ty.pointee() == Some(t)),
        t.is_countable(),
        k * t.size() <= 0x7FFF,
        widens_if_char(w, cx, *t),
    ensures
        reads_value(
            w,
            m,
            crate::codegen::array_index::plan_emit_array_index_to_ax(cx, array, index),
            typed_value(m, m.word_at(m.reg(r)->0 + offset) + k * t.size(), *t),
        ),
{
    let plan = crate::codegen::array_index::plan_emit_array_index_to_ax(cx, array, index);
    assert(plan == crate::codegen::array_index::plan_index_arrow_pointer(cx, array, index));
    let from = crate::isa::at_disp(r, crate::isa::plus(offset as i64));
    let d = crate::isa::disp(crate::isa::scaled(k, t.size() as u16));
    assert(crate::machine::distance(d) == k * t.size());
    read_through(w, m, cx, from, t, crate::isa::at_disp(Reg::Bx, d), k * t.size() as int);
}

/// An element of an array within a file-scope struct, with a constant
/// subscript, is read at the offset of the array and so many elements
/// further on.
pub proof fn global_member_element_read<'a>(
    w: World<'a>,
    m: Machine,
    cx: Cx<'a>,
    array: &'a Expr,
    index: &'a Expr,
    t: &'a crate::ast::Type,
    k: u32,
)
    requires
        m.wf(),
        cx.env.facts(index).frame_disp is None,
        array.kind matches ExprKind::Member { base, field: _, kind } && kind == MemberKind::Dot
            && !(base.kind is Ident),
        cx.env.const_of(index) == Some(k),
        cx.env.facts(array).chain matches Some(chain) && !cx.env.has(&chain.name)
            && cx.env.is_global(&chain.name) && chain.ty.spec_array_elem() == Some(t) && 0
            <= chain.off && chain.off + k * t.size() <= 0x7FFF,
        t.is_countable(),
        widens_if_char(w, cx, *t),
    ensures
        reads_value(
            w,
            m,
            crate::codegen::array_index::plan_emit_array_index_to_ax(cx, array, index),
            typed_value(
                m,
                (w.symbol)((cx.env.facts(array).chain->0).name@) + (cx.env.facts(
                    array,
                ).chain->0).off + k * t.size(),
                *t,
            ),
        ),
{
    let plan = crate::codegen::array_index::plan_emit_array_index_to_ax(cx, array, index);
    let chain = &cx.env.facts(array).chain->0;
    assert(0 <= k * t.size()) by (nonlinear_arith);
    assert(plan == crate::codegen::array_index::plan_index_global_member(cx, array, index));
    let total = crate::codegen::array_index::member_elem(
        chain.off as u16,
        k,
        t.size() as u16,
    )->0;
    assert(total == chain.off + k * t.size());
    let to = crate::isa::global_at(&chain.name, crate::isa::plus(total as i64));
    value_loaded(w, m, cx, t, to, m.locate(w, to)->0);
}

/// An element of an array within a file-scope struct, with a variable
/// subscript, is read at the offset of the array and so many elements
/// further on.
pub proof fn global_member_read_by_variable<'a>(
    w: World<'a>,
    m: Machine,
    cx: Cx<'a>,
    array: &'a Expr,
    index: &'a Expr,
    t: &'a crate::ast::Type,
)
    requires
        m.wf(),
        cx.env.facts(index).frame_disp is None,
        array.kind matches ExprKind::Member { base, field: _, kind } && kind == MemberKind::Dot
            && !(base.kind is Ident),
        cx.env.const_of(index) is None,
        cx.env.facts(array).chain matches Some(chain) && !cx.env.has(&chain.name)
            && cx.env.is_global(&chain.name) && chain.ty.spec_array_elem() == Some(t) && 0
            <= chain.off <= 0xFFFF,
        t.is_countable(),
        crate::codegen::array_addr::index_shifts(t.size() as u16) is Some,
        crate::laws::address::subscript_value(w, m, *cx.env, index) is Some,
        widens_if_char(w, cx, *t),
    ensures
        reads_value(
            w,
            m,
            crate::codegen::array_index::plan_emit_array_index_to_ax(cx, array, index),
            typed_value(
                m,
                (w.symbol)((cx.env.facts(array).chain->0).name@) + (cx.env.facts(
                    array,
                ).chain->0).off + crate::laws::address::subscript_value(
                    w,
                    m,
                    *cx.env,
                    index,
                )->0 * t.size(),
                *t,
            ),
        ),
{
    let plan = crate::codegen::array_index::plan_emit_array_index_to_ax(cx, array, index);
    let chain = &cx.env.facts(array).chain->0;
    assert(plan == crate::codegen::array_index::plan_index_global_member(cx, array, index));
    let i = crate::laws::address::subscript_value(w, m, *cx.env, index)->0;
    let at = (w.symbol)(chain.name@) + chain.off + i * t.size();
    crate::laws::address::subscript_scales(w, m, cx, index, t);
    let a = crate::codegen::array_addr::plan_emit_index_into_bx(cx, index, t)->Emit_0;
    let m1 = crate::machine::run(w, m, a, 0)->Through_0;
    let from = crate::isa::elem_at(&chain.name, crate::isa::plus(chain.off as i64), Reg::Bx);
    crate::laws::address::sum_wraps((w.symbol)(chain.name@) + chain.off, i * t.size());
    let second = crate::codegen::common::plan_load_value(cx, t, from);
    value_loaded(w, m1, cx, t, from, at);
    read_behind(w, m, a, m1, second, typed_value(m, at, *t));
}

/// `(c ? a : b)[k]` reads the element `k` of the array whose address the
/// choice computes.
pub proof fn chosen_element_read<'a>(
    w: World<'a>,
    m: Machine,
    cx: Cx<'a>,
    array: &'a Expr,
    index: &'a Expr,
    cond: &'a Box<Expr>,
    then_value: &'a Box<Expr>,
    else_value: &'a Box<Expr>,
    name: &'a String,
    t: &'a crate::ast::Type,
    k: u32,
    p: int,
)
    requires
        m.wf(),
        cx.env.facts(index).frame_disp is None,
        array.kind == (ExprKind::Ternary {
            cond: *cond,
            then_value: *then_value,
            else_value: *else_value,
        }),
        then_value.kind == ExprKind::Ident(*name),
        cx.env.const_of(index) == Some(k),
        cx.env.local_elem(name) == Some(t),
        t.is_countable(),
        k * t.size() <= 0x7FFF,
        crate::laws::rows::is_computed_as(w, m, cx, array, p),
        widens_if_char(w, cx, *t),
    ensures
        reads_value(
            w,
            m,
            crate::codegen::array_index::plan_emit_array_index_to_ax(cx, array, index),
            typed_value(m, p + k * t.size(), *t),
        ),
{
    let plan = crate::codegen::array_index::plan_emit_array_index_to_ax(cx, array, index);
    assert(plan == crate::codegen::array_index::plan_index_choice(cx, array, index));
    let at = p + k * t.size();
    let first = seq![
        crate::codegen::emitter::to_ax(cx, array),
        crate::codegen::emitter::mov(crate::isa::bx::<'a>(), crate::isa::ax()),
    ];
    assert(crate::laws::address::same_variables(m, m));
    let m1 = crate::laws::long::evaluated(w, m, cx, array);
    crate::machine::step_on(w, m, first, 0, m1);
    let ax = Operand::<'a>::Reg(Reg::Ax);
    let m2 = crate::laws::steps::move_to_register(w, m1, first, 1, Reg::Bx, ax);
    crate::machine::step_end(w, m2, first, 2);
    let d = crate::isa::plus(crate::isa::scaled(k, t.size() as u16) as i64);
    assert(crate::machine::distance(d) == k * t.size());
    let to = crate::isa::at_disp(Reg::Bx, d);
    let second = crate::codegen::common::plan_load_value(cx, t, to);
    value_loaded(w, m2, cx, t, to, at);
    read_behind(w, m, first, m2, second, typed_value(m, at, *t));
    assert(first + second->Emit_0 =~= plan->Emit_0);
}

/// `a[k][j]` for a file-scope array of pointers reads the element `j` behind
/// the pointer `k`.
pub proof fn global_table_element_read<'a>(
    w: World<'a>,
    m: Machine,
    cx: Cx<'a>,
    array: &'a Expr,
    index: &'a Expr,
    base: &'a Box<Expr>,
    first: &'a Box<Expr>,
    name: &'a String,
    t: &'a crate::ast::Type,
    k: u32,
    j: u32,
)
    requires
        m.wf(),
        cx.env.facts(index).frame_disp is None,
        array.kind == (ExprKind::ArrayIndex { array: *base, index: *first }),
        base.kind == ExprKind::Ident(*name),
        cx.env.const_of(&**first) == Some(k),
        cx.env.const_of(index) == Some(j),
        t.is_countable(),
        j * t.size() <= 0x7FFF,
        widens_if_char(w, cx, *t),
        cx.env.global_elem(name) matches Some(e) && e.size() == 2 && e.pointee() == Some(t),
        k < 0x4000,
    ensures
        reads_value(
            w,
            m,
            crate::codegen::array_index::plan_emit_array_index_to_ax(cx, array, index),
            typed_value(m, m.word_at((w.symbol)(name@) + 2 * k) + j * t.size(), *t),
        ),
{
    let plan = crate::codegen::array_index::plan_emit_array_index_to_ax(cx, array, index);
    reveal_with_fuel(crate::codegen::array_index::subscripts, 3);
    reveal_with_fuel(crate::codegen::array_index::spec_subscript_base, 3);
    let list = crate::codegen::array_index::subscripts(array).push(index);
    assert(list =~= seq![&**first, index]);
    let gty = cx.env.global_type(name)->0;
    assert(plan == crate::codegen::array_index::plan_index_global_pointers(cx, name, gty, list));
    let from = crate::isa::global_at(name, crate::isa::plus(crate::isa::uscaled(k, 2) as i64));
    let d = crate::isa::disp(crate::isa::scaled(j, t.size() as u16));
    assert(crate::machine::distance(d) == j * t.size());
    read_through(w, m, cx, from, t, crate::isa::at_disp(Reg::Bx, d), j * t.size() as int);
}

/// `a[k][j]` for an array of pointers on the stack reads the element `j`
/// behind the pointer `k`.
pub proof fn frame_table_element_read<'a>(
    w: World<'a>,
    m: Machine,
    cx: Cx<'a>,
    array: &'a Expr,
    index: &'a Expr,
    base: &'a Box<Expr>,
    first: &'a Box<Expr>,
    name: &'a String,
    t: &'a crate::ast::Type,
    k: u32,
    j: u32,
    off: i16,
)
    requires
        m.wf(),
        cx.env.facts(index).frame_disp is None,
        array.kind == (ExprKind::ArrayIndex { array: *base, index: *first }),
        base.kind == ExprKind::Ident(*name),
        cx.env.const_of(&**first) == Some(k),
        cx.env.const_of(index) == Some(j),
        t.is_countable(),
        j * t.size() <= 0x7FFF,
        widens_if_char(w, cx, *t),
        cx.env.global_type(name) is None,
        cx.env.local(name) matches Some(l) && l.loc == LocalLocation::Stack(off),
        cx.env.local_elem(name) matches Some(e) && e.size() == 2 && e.pointee() == Some(t),
        k < 0x4000,
        off + 2 * k <= 0x7FFF,
        crate::codegen::env::const_offset(
            cx.env,
            &(cx.env.local(name)->0).ty,
            seq![&**first, index],
            0,
        ) is None,
    ensures
        reads_value(
            w,
            m,
            crate::codegen::array_index::plan_emit_array_index_to_ax(cx, array, index),
            typed_value(m, m.word_at(m.bp + off + 2 * k) + j * t.size(), *t),
        ),
{
    let plan = crate::codegen::array_index::plan_emit_array_index_to_ax(cx, array, index);
    reveal_with_fuel(crate::codegen::array_index::subscripts, 3);
    reveal_with_fuel(crate::codegen::array_index::spec_subscript_base, 3);
    let list = crate::codegen::array_index::subscripts(array).push(index);
    assert(list =~= seq![&**first, index]);
    let l = cx.env.local(name)->0;
    assert(plan == crate::codegen::array_index::plan_index_frame_pointers(cx, off, &l.ty, list));
    let from = crate::isa::bp_sat(off, crate::isa::scaled(k, 2));
    let d = crate::isa::disp(crate::isa::scaled(j, t.size() as u16));
    assert(crate::machine::distance(d) == j * t.size());
    read_through(w, m, cx, from, t, crate::isa::at_disp(Reg::Bx, d), j * t.size() as int);
}

/// `p[k][j]` for a pointer in a register to arrays reads the element `j` of
/// the array `k`, which lie in one piece.
pub proof fn pointed_row_element_read<'a>(
    w: World<'a>,
    m: Machine,
    cx: Cx<'a>,
    array: &'a Expr,
    index: &'a Expr,
    base: &'a Box<Expr>,
    first: &'a Box<Expr>,
    name: &'a String,
    t: &'a crate::ast::Type,
    k: u32,
    j: u32,
    r: Reg,
    row: &'a crate::ast::Type,
)
    requires
        m.wf(),
        cx.env.facts(index).frame_disp is None,
        array.kind == (ExprKind::ArrayIndex { array: *base, index: *first }),
        base.kind == ExprKind::Ident(*name),
        cx.env.const_of(&**first) == Some(k),
        cx.env.const_of(index) == Some(j),
        t.is_countable(),
        j * t.size() <= 0x7FFF,
        widens_if_char(w, cx, *t),
        cx.env.global_type(name) is None,
        cx.env.local(name) matches Some(l) && l.loc == LocalLocation::Reg(r) && l.ty.pointee()
            == Some(row),
        row.spec_array_elem() == Some(t),
        row.is_countable(),
        k * row.size() <= 0x7FFF,
        m.reg(r) is Some,
    ensures
        reads_value(
            w,
            m,
            crate::codegen::array_index::plan_emit_array_index_to_ax(cx, array, index),
            typed_value(m, m.reg(r)->0 + k * row.size() + j * t.size(), *t),
        ),
{
    let plan = crate::codegen::array_index::plan_emit_array_index_to_ax(cx, array, index);
    reveal_with_fuel(crate::codegen::array_index::subscripts, 3);
    reveal_with_fuel(crate::codegen::array_index::spec_subscript_base, 3);
    let list = crate::codegen::array_index::subscripts(array).push(index);
    assert(list =~= seq![&**first, index]);
    let l = cx.env.local(name)->0;
    assert(plan == crate::codegen::array_index::plan_index_local_rows(cx, l, row, list));
    let a = crate::isa::scaled(k, row.size() as u16) as i64;
    let b = crate::isa::scaled(j, t.size() as u16) as i64;
    assert(a == k * row.size() && b == j * t.size());
    let to = crate::isa::at_disp(r, crate::isa::signed((a + b) as i64));
    value_loaded(w, m, cx, t, to, m.locate(w, to)->0);
}

/// `p[k][j]` for a pointer in a register to pointers reads the element `j`
/// behind the pointer `k`.
pub proof fn pointed_table_element_read<'a>(
    w: World<'a>,
    m: Machine,
    cx: Cx<'a>,
    array: &'a Expr,
    index: &'a Expr,
    base: &'a Box<Expr>,
    first: &'a Box<Expr>,
    name: &'a String,
    t: &'a crate::ast::Type,
    k: u32,
    j: u32,
    r: Reg,
    q: &'a crate::ast::Type,
)
    requires
        m.wf(),
        cx.env.facts(index).frame_disp is None,
        array.kind == (ExprKind::ArrayIndex { array: *base, index: *first }),
        base.kind == ExprKind::Ident(*name),
        cx.env.const_of(&**first) == Some(k),
        cx.env.const_of(index) == Some(j),
        t.is_countable(),
        j * t.size() <= 0x7FFF,
        widens_if_char(w, cx, *t),
        cx.env.global_type(name) is None,
        cx.env.local(name) matches Some(l) && l.loc == LocalLocation::Reg(r) && l.ty.pointee()
            == Some(q),
        q.pointee() == Some(t),
        q.size() == 2,
        k < 0x4000,
        m.reg(r) is Some,
    ensures
        reads_value(
            w,
            m,
            crate::codegen::array_index::plan_emit_array_index_to_ax(cx, array, index),
            typed_value(m, m.word_at(m.reg(r)->0 + 2 * k) + j * t.size(), *t),
        ),
{
    let plan = crate::codegen::array_index::plan_emit_array_index_to_ax(cx, array, index);
    reveal_with_fuel(crate::codegen::array_index::subscripts, 3);
    reveal_with_fuel(crate::codegen::array_index::spec_subscript_base, 3);
    let list = crate::codegen::array_index::subscripts(array).push(index);
    assert(list =~= seq![&**first, index]);
    let l = cx.env.local(name)->0;
    assert(plan == crate::codegen::array_index::plan_index_local_pointers(cx, l, q, list));
    let from = crate::isa::at_disp(r, crate::isa::plus(crate::isa::scaled(k, 2) as i64));
    let d = crate::isa::disp(crate::isa::scaled(j, t.size() as u16));
    assert(crate::machine::distance(d) == j * t.size());
    read_through(w, m, cx, from, t, crate::isa::at_disp(Reg::Bx, d), j * t.size() as int);
}

/// A character of an array on the stack, subscripted by a variable in `si`,
/// is read at the displacement of the array and so many bytes further on,
/// and widened as its type has it.
pub proof fn frame_char_by_si<'a>(
    w: World<'a>,
    m: Machine,
    cx: Cx<'a>,
    array: &'a Expr,
    index: &'a Expr,
    name: &'a String,
    d: i16,
    t: &'a crate::ast::Type,
)
    requires
        m.wf(),
        cx.env.facts(index).frame_disp == Some(d),
        array.kind == ExprKind::Ident(*name),
        cx.env.local_elem(name) == Some(t),
        t.is_char_like(),
    ensures
        reads_value(
            w,
            m,
            crate::codegen::array_index::plan_emit_array_index_to_ax(cx, array, index),
            typed_value(m, m.bp + m.si + d, *t),
        ),
{
    let plan = crate::codegen::array_index::plan_emit_array_index_to_ax(cx, array, index);
    assert(plan == crate::codegen::array_index::plan_index_frame_char(cx, array, index));
    let from = Addr::<'a>::Indexed(Reg::Bp, Reg::Si, crate::isa::signed(d as i64));
    assert(plan->Emit_0 =~= crate::codegen::deref_read::plan_load_widened(cx, t, from)->Emit_0);
    crate::laws::variable::widened_load(w, m, cx, t, from, m.bp + m.si + d);
}

/// `f()[k]` reads the element `k` behind the pointer that the function
/// returns in `ax`, in memory as the function leaves it.
pub proof fn call_element_read<'a>(
    w: World<'a>,
    m: Machine,
    cx: Cx<'a>,
    array: &'a Expr,
    index: &'a Expr,
    name: &'a String,
    args: &'a Vec<Expr>,
    t: &'a crate::ast::Type,
    k: u32,
)
    requires
        cx.env.facts(index).frame_disp is None,
        array.kind == (ExprKind::Call { name: *name, args: *args }),
        cx.env.const_of(index) == Some(k),
        cx.env.ret_ty_of(name) matches Some(ret) && ret.pointee() == Some(t),
        t.is_countable(),
        k * t.size() <= 0x7FFF,
        widens_if_char(w, cx, *t),
        (w.work)(Step::CallFn(name, args), m).wf(),
    ensures
        ({
            let plan = crate::codegen::array_index::plan_emit_array_index_to_ax(
                cx,
                array,
                index,
            );
            let called = (w.work)(Step::CallFn(name, args), m);
            &&& plan matches Plan::Emit(steps)
            &&& crate::machine::run(w, m, steps, 0) matches Outcome::Through(after)
            &&& after.ax == typed_value(called, called.ax + k * t.size(), *t)
            &&& crate::laws::address::same_variables(after, called)
        }),
{
    let plan = crate::codegen::array_index::plan_emit_array_index_to_ax(cx, array, index);
    assert(plan == crate::codegen::array_index::plan_index_call(cx, array, index));
    let call = Step::CallFn(name, args);
    let called = (w.work)(call, m);
    let first = seq![call];
    crate::machine::step_on(w, m, first, 0, called);
    crate::machine::step_end(w, called, first, 1);
    let copy = seq![crate::codegen::emitter::mov(crate::isa::bx::<'a>(), crate::isa::ax())];
    let ax = Operand::<'a>::Reg(Reg::Ax);
    let m1 = crate::laws::steps::move_to_register(w, called, copy, 0, Reg::Bx, ax);
    crate::machine::step_end(w, m1, copy, 1);
    let d = crate::isa::disp(crate::isa::scaled(k, t.size() as u16));
    assert(crate::machine::distance(d) == k * t.size());
    let to = crate::isa::at_disp(Reg::Bx, d);
    let at = called.ax + k * t.size();
    let second = crate::codegen::common::plan_load_value(cx, t, to);
    value_loaded(w, m1, cx, t, to, at);
    read_behind(w, called, copy, m1, second, typed_value(called, at, *t));
    let rest = copy + second->Emit_0;
    crate::laws::address::first_part(w, m, first, rest, called);
    assert(first + rest =~= plan->Emit_0);
}

/// `a[i][j]` for a file-scope array of pointers, a variable and a constant
/// reads the element `j` behind the pointer `i`.
#[verifier::rlimit(60)]
pub proof fn global_table_read_by_variable<'a>(
    w: World<'a>,
    m: Machine,
    cx: Cx<'a>,
    array: &'a Expr,
    index: &'a Expr,
    base: &'a Box<Expr>,
    first: &'a Box<Expr>,
    name: &'a String,
    e: &'a crate::ast::Type,
    t: &'a crate::ast::Type,
    j: u32,
)
    requires
        m.wf(),
        cx.env.facts(index).frame_disp is None,
        array.kind == (ExprKind::ArrayIndex { array: *base, index: *first }),
        base.kind == ExprKind::Ident(*name),
        cx.env.global_elem(name) == Some(e),
        e is Pointer,
        e.size() == 2,
        e.is_countable(),
        e.pointee() == Some(t),
        t.is_countable(),
        j * t.size() <= 0x7FFF,
        cx.env.const_of(&**first) is None,
        cx.env.const_of(index) == Some(j),
        crate::laws::address::subscript_value(w, m, *cx.env, &**first) is Some,
        widens_if_char(w, cx, *t),
        crate::codegen::env::const_offset(
            cx.env,
            cx.env.global_type(name)->0,
            seq![&**first, index],
            0,
        ) is None,
    ensures
        reads_value(
            w,
            m,
            crate::codegen::array_index::plan_emit_array_index_to_ax(cx, array, index),
            typed_value(
                m,
                m.word_at(
                    (w.symbol)(name@) + crate::laws::address::subscript_value(
                        w,
                        m,
                        *cx.env,
                        &**first,
                    )->0 * 2,
                ) + j * t.size(),
                *t,
            ),
        ),
{
    reveal_with_fuel(crate::codegen::array_index::subscripts, 3);
    reveal_with_fuel(crate::codegen::array_index::spec_subscript_base, 3);
    let plan = crate::codegen::array_index::plan_emit_array_index_to_ax(cx, array, index);
    let list = crate::codegen::array_index::subscripts(array).push(index);
    assert(list =~= seq![&**first, index]);
    let gty = cx.env.global_type(name)->0;
    assert(plan == crate::codegen::array_index::plan_index_global_pointer_at(
        cx,
        name,
        gty,
        list,
    ));
    let i = crate::laws::address::subscript_value(w, m, *cx.env, &**first)->0;
    let place = (w.symbol)(name@) + i * 2;
    crate::laws::address::subscript_scales(w, m, cx, &**first, e);
    let a = crate::codegen::array_addr::plan_emit_index_into_bx(cx, &**first, e)->Emit_0;
    let m1 = crate::machine::run(w, m, a, 0)->Through_0;
    let from = crate::isa::elem(name, Reg::Bx);
    let near = m1.locate(w, from)->0;
    crate::laws::address::sum_wraps((w.symbol)(name@), i * 2);
    crate::laws::element::word_place_wraps(m.mem, near);
    crate::laws::element::word_place_wraps(m.mem, place);
    let d = crate::isa::disp(crate::isa::scaled(j, t.size() as u16));
    assert(crate::machine::distance(d) == j * t.size());
    let to = crate::isa::at_disp(Reg::Bx, d);
    read_through(w, m1, cx, from, t, to, j * t.size() as int);
    let rest = Plan::Emit(
        seq![crate::codegen::emitter::mov(crate::isa::bx::<'a>(), crate::isa::word(from))],
    ).followed_by(crate::codegen::common::plan_load_value(cx, t, to));
    let at = m.word_at(place) + j * t.size();
    read_behind(w, m, a, m1, rest, typed_value(m, at, *t));
    assert(a + rest->Emit_0 =~= plan->Emit_0);
}

} // verus!
