//! Characters in arrays are read and written where they lie.

use vstd::prelude::*;
use crate::ast::{BinOp, Expr, ExprKind, Type};
use crate::codegen::emitter::{Cx, Plan, Step};
use crate::codegen::env::{Env, LocalLocation};
use crate::isa::{Addr, Operand, Reg, Width};
use crate::machine::{Machine, Outcome, World};

verus! {

/// The machine behind the step that widens `al` as a value of a type.
pub open spec fn behind_widening<'a>(w: World<'a>, t: &'a Type, m: Machine) -> Machine {
    (w.work)(Step::WidenAl(t, false), m)
}

/// Whether the step that widens `al` extends a signed character with its
/// sign and an unsigned one with zeros, and does nothing else.
pub open spec fn widens<'a>(w: World<'a>) -> bool {
    forall|t: &'a Type, m: Machine|
        m.wf() ==> #[trigger] behind_widening(w, t, m) == (Machine {
            ax: crate::machine::wrap(
                crate::laws::byte::char_value(m.ax % 0x100, t.is_unsigned()),
            ),
            ..m
        })
}

/// The type of the element that constant subscripts select.
pub open spec fn const_leaf<'a>(env: Env, array: &'a String, indices: Seq<&'a Expr>) -> Type {
    match crate::codegen::env::const_offset(&env, env.var_type(array)->0, indices, 0) {
        Some((_, leaf)) => *leaf,
        None => Type::Int,
    }
}

/// Whether constant subscripts of a variable select a character: the
/// variable is an array, at file scope without a local that hides it or in
/// the stack frame, and the offset fits 16 bits.
pub open spec fn selects_char<'a>(env: Env, array: &'a String, indices: Seq<&'a Expr>) -> bool {
    let ty = env.var_type(array);
    &&& ty is Some
    &&& ty->0 is Array
    &&& crate::codegen::env::const_offset(&env, ty->0, indices, 0) matches Some((off, leaf))
        && leaf.is_char_like() && -32768 <= off <= 32767
    &&& crate::laws::long::is_plain_name(env, *array)
}

/// Whether a plan goes through and leaves in `ax` what a character is worth,
/// with memory as it was at an earlier moment.
pub open spec fn leaves_char<'a>(
    w: World<'a>,
    m: Machine,
    since: Machine,
    plan: Plan<'a>,
    at: int,
    unsigned: bool,
) -> bool {
    &&& plan matches Plan::Emit(steps)
    &&& crate::machine::run(w, m, steps, 0) matches Outcome::Through(after)
    &&& after.ax == crate::machine::wrap(
        crate::laws::byte::char_value(since.byte_at(at), unsigned),
    )
    &&& after.mem == since.mem
}

/// A character loaded and widened as its type has it.
pub proof fn char_loaded<'a>(
    w: World<'a>,
    m: Machine,
    cx: Cx<'a>,
    steps: Seq<Step<'a>>,
    t: &'a Type,
    a: Addr<'a>,
)
    requires
        m.wf(),
        widens(w),
        !cx.skip_widen,
        steps == seq![
            crate::codegen::emitter::mov(crate::isa::al(), crate::isa::byte(a)),
            crate::codegen::emitter::widen_al(cx, t),
        ],
        m.locate(w, a) is Some,
    ensures
        leaves_char(w, m, m, Plan::Emit(steps), m.locate(w, a)->0, t.is_unsigned()),
{
    let m1 = crate::laws::byte::load_al(w, m, steps, 0, a);
    let m2 = behind_widening(w, t, m1);
    crate::machine::step_on(w, m1, steps, 1, m2);
    crate::machine::step_end(w, m2, steps, 2);
}

/// `a[k] = c` for an array of characters, constant subscripts and a constant
/// leaves the low byte of the constant in the element, and nothing else in
/// memory changes.
pub proof fn const_char_written<'a>(
    w: World<'a>,
    m: Machine,
    cx: Cx<'a>,
    array: &'a String,
    indices: &'a Vec<Expr>,
    value: &'a Expr,
    c: u32,
)
    requires
        m.wf(),
        selects_char(*cx.env, array, crate::codegen::array_assign::each(indices)),
        cx.env.const_of(value) == Some(c),
        value.kind is IntLit,
    ensures
        crate::laws::byte::leaves_byte(
            w,
            m,
            crate::codegen::array_assign::plan_emit_array_assign(cx, array, indices, value),
            crate::laws::element::const_place(
                w,
                m,
                *cx.env,
                array,
                crate::codegen::array_assign::each(indices),
            ),
            c as int % 0x100,
        ),
{
    let list = crate::codegen::array_assign::each(indices);
    let plan = crate::codegen::array_assign::plan_emit_array_assign(cx, array, indices, value);
    let steps = plan->Emit_0;
    let imm = Operand::<'a>::Imm(crate::isa::masked(c, true));
    match cx.env.global_type(array) {
        Some(gty) => {
            let off = crate::laws::element::const_distance(*cx.env, *gty, list);
            assert(plan == crate::codegen::array_assign::plan_elem_global_const(
                cx,
                array,
                gty,
                list,
                value,
            ));
            let to = crate::isa::global_at(array, crate::isa::disp(off));
            assert(steps =~= seq![crate::codegen::emitter::mov(crate::isa::byte(to), imm)]);
            crate::laws::store::const_in_memory(w, m, steps, true, to, c);
        },
        None => {
            let l = cx.env.local(array)->0;
            let base = l.loc->Stack_0;
            let off = crate::laws::element::const_distance(*cx.env, l.ty, list);
            assert(plan == crate::codegen::array_assign::plan_elem_frame_const(
                cx,
                base,
                &l.ty,
                list,
                value,
            ));
            let to = crate::isa::bp_plus(base, crate::isa::sat16(off));
            assert(steps =~= seq![crate::codegen::emitter::mov(crate::isa::byte(to), imm)]);
            crate::laws::store::const_in_memory(w, m, steps, true, to, c);
        },
    }
}

/// `a[k]` for an array of characters and a constant subscript is worth the
/// element at the place that an assignment to `a[k]` writes: with its sign,
/// unless it is unsigned.
#[verifier::rlimit(60)]
pub proof fn const_char_read<'a>(
    w: World<'a>,
    m: Machine,
    cx: Cx<'a>,
    name: &'a String,
    array: &'a Expr,
    index: &'a Expr,
)
    requires
        m.wf(),
        widens(w),
        !cx.skip_widen,
        array.kind == ExprKind::Ident(*name),
        selects_char(*cx.env, name, seq![index]),
        cx.env.facts(index).frame_disp is None,
    ensures
        leaves_char(
            w,
            m,
            m,
            crate::codegen::array_index::plan_emit_array_index_to_ax(cx, array, index),
            crate::laws::element::const_place(w, m, *cx.env, name, seq![index]),
            const_leaf(*cx.env, name, seq![index]).is_unsigned(),
        ),
{
    let list = crate::codegen::array_index::subscripts(array).push(index);
    assert(list =~= seq![index]);
    let plan = crate::codegen::array_index::plan_emit_array_index_to_ax(cx, array, index);
    let ty = cx.env.var_type(name)->0;
    let (off, leaf) = crate::codegen::env::const_offset(cx.env, ty, list, 0)->0;
    match cx.env.global_type(name) {
        Some(gty) => {
            assert(plan == crate::codegen::array_index::plan_index_global_const(
                cx,
                name,
                gty,
                list,
            ));
            let from = crate::isa::global_at(name, crate::isa::plus(off as i64));
            char_loaded(w, m, cx, plan->Emit_0, leaf, from);
        },
        None => {
            let l = cx.env.local(name)->0;
            let base = l.loc->Stack_0;
            assert(plan == crate::codegen::array_index::plan_index_frame_const(
                cx,
                base,
                &l.ty,
                list,
            ));
            let from = crate::isa::bp_plus(base, crate::isa::sat16(off));
            char_loaded(w, m, cx, plan->Emit_0, leaf, from);
        },
    }
}

/// A byte in memory stepped by one.
pub proof fn step_byte<'a>(w: World<'a>, m: Machine, steps: Seq<Step<'a>>, op: BinOp, a: Addr<'a>)
    requires
        m.wf(),
        crate::isa::is_additive(op),
        steps == seq![Step::Op1(crate::isa::step_by_one(op), Operand::Mem(Width::Byte, a))],
        crate::laws::byte::is_beside_ax(a),
    ensures
        crate::laws::byte::leaves_byte(
            w,
            m,
            Plan::Emit(steps),
            m.locate(w, a)->0,
            crate::laws::byte::byte_result(op, m.byte_at(m.locate(w, a)->0), 1),
        ),
{
    let at = m.locate(w, a)->0;
    let v = crate::laws::byte::byte_result(op, m.byte_at(at), 1);
    let after = crate::machine::run_step(w, m, steps[0])->0;
    assert(crate::machine::run_step(w, m, steps[0]) is Some);
    assert(after.mem == m.mem.insert(crate::machine::wrap(at), v));
    crate::machine::step_on(w, m, steps, 0, after);
    crate::machine::step_end(w, after, steps, 1);
    crate::laws::byte::byte_written(m.mem, at, v);
}

/// A constant applied to a character at a fixed place.
proof fn char_applied<'a>(
    w: World<'a>,
    m: Machine,
    cx: Cx<'a>,
    dest: Addr<'a>,
    leaf: &'a Type,
    op: BinOp,
    c: u32,
    from_postfix: bool,
)
    requires
        m.wf(),
        leaf.is_char_like(),
        crate::isa::is_direct(op),
        crate::laws::steps::is_fixed(dest),
    ensures
        crate::laws::byte::leaves_byte(
            w,
            m,
            crate::codegen::array_compound::plan_place_const(
                cx,
                dest,
                leaf,
                op,
                c,
                from_postfix,
            ),
            m.locate(w, dest)->0,
            crate::laws::byte::byte_result(
                op,
                m.byte_at(m.locate(w, dest)->0),
                c as int % 0x100,
            ),
        ),
{
    let plan = crate::codegen::array_compound::plan_place_const(
        cx,
        dest,
        leaf,
        op,
        c,
        from_postfix,
    );
    let steps = plan->Emit_0;
    if from_postfix && crate::isa::lo8(c) == 1 && crate::isa::is_additive(op) {
        step_byte(w, m, steps, op, dest);
    } else if crate::isa::is_additive(op) {
        crate::laws::byte::sum_by_al(w, m, steps, dest, op, c);
    } else {
        crate::laws::byte::direct_to_byte(w, m, steps, op, dest, crate::isa::lo8(c));
    }
}

/// The code for a constant applied to a character at a constant place.
proof fn char_compound_plan<'a>(
    cx: Cx<'a>,
    array: &'a String,
    indices: &'a Vec<Expr>,
    op: BinOp,
    value: &'a Expr,
    c: u32,
    from_postfix: bool,
)
    requires
        selects_char(*cx.env, array, crate::codegen::array_assign::each(indices)),
        cx.env.const_of(value) == Some(c),
        crate::isa::is_direct(op),
    ensures
        ({
            let list = crate::codegen::array_assign::each(indices);
            let ty = cx.env.var_type(array)->0;
            let (off, leaf) = crate::codegen::env::const_offset(cx.env, ty, list, 0)->0;
            let dest = if cx.env.is_global(array) {
                crate::isa::global_at(array, crate::isa::disp(off))
            } else {
                crate::isa::bp_plus(
                    cx.env.local(array)->0.loc->Stack_0,
                    crate::isa::sat16(off),
                )
            };
            crate::codegen::array_compound::plan_emit_array_compound_assign(
                cx,
                array,
                indices,
                op,
                value,
                from_postfix,
            ) == crate::codegen::array_compound::plan_place_const(
                cx,
                dest,
                leaf,
                op,
                c,
                from_postfix,
            )
        }),
{
    let list = crate::codegen::array_assign::each(indices);
    let plan = crate::codegen::array_compound::plan_emit_array_compound_assign(
        cx,
        array,
        indices,
        op,
        value,
        from_postfix,
    );
    match cx.env.global_type(array) {
        Some(gty) => {
            assert(plan == crate::codegen::array_compound::plan_each_global_const(
                cx,
                array,
                gty,
                list,
                op,
                value,
                from_postfix,
            ));
        },
        None => {
            assert(plan == crate::codegen::array_compound::plan_compound_frame_elem(
                cx,
                array,
                list,
                op,
                value,
                from_postfix,
            ));
        },
    }
}

/// `a[k] op= c` for an array of characters, constant subscripts, a constant
/// and a direct operator leaves the 8-bit result in the element, and nothing
/// else in memory changes.
pub proof fn const_char_compound<'a>(
    w: World<'a>,
    m: Machine,
    cx: Cx<'a>,
    array: &'a String,
    indices: &'a Vec<Expr>,
    op: BinOp,
    value: &'a Expr,
    c: u32,
    from_postfix: bool,
)
    requires
        m.wf(),
        selects_char(*cx.env, array, crate::codegen::array_assign::each(indices)),
        cx.env.const_of(value) == Some(c),
        crate::isa::is_direct(op),
    ensures
        ({
            let at = crate::laws::element::const_place(
                w,
                m,
                *cx.env,
                array,
                crate::codegen::array_assign::each(indices),
            );
            crate::laws::byte::leaves_byte(
                w,
                m,
                crate::codegen::array_compound::plan_emit_array_compound_assign(
                    cx,
                    array,
                    indices,
                    op,
                    value,
                    from_postfix,
                ),
                at,
                crate::laws::byte::byte_result(op, m.byte_at(at), c as int % 0x100),
            )
        }),
{
    char_compound_plan(cx, array, indices, op, value, c, from_postfix);
    let list = crate::codegen::array_assign::each(indices);
    let ty = cx.env.var_type(array)->0;
    let (off, leaf) = crate::codegen::env::const_offset(cx.env, ty, list, 0)->0;
    let dest = if cx.env.is_global(array) {
        crate::isa::global_at(array, crate::isa::disp(off))
    } else {
        crate::isa::bp_plus(cx.env.local(array)->0.loc->Stack_0, crate::isa::sat16(off))
    };
    char_applied(w, m, cx, dest, leaf, op, c, from_postfix);
}

/// Whether a name stands for a local array of characters in the stack frame
/// at an offset.
pub open spec fn is_frame_chars(env: Env, array: String, base: i16) -> bool {
    &&& env.global_type(&array) is None
    &&& env.local(&array) matches Some(l) && l.loc == LocalLocation::Stack(base)
    &&& env.local_elem(&array) matches Some(t) && t.is_char_like()
}

/// `a[i]` for an array of characters on the stack and a variable, a sum, a
/// call or another computed subscript is worth the character that lies `i`
/// bytes behind the start of the array: with its sign, unless it is
/// unsigned.
#[verifier::rlimit(60)]
pub proof fn frame_char_read<'a>(
    w: World<'a>,
    m: Machine,
    cx: Cx<'a>,
    array: &'a Expr,
    index: &'a Expr,
    name: &'a String,
    base: i16,
)
    requires
        m.wf(),
        array.kind == ExprKind::Ident(*name),
        is_frame_chars(*cx.env, *name, base),
        crate::laws::address::frame_subscript(w, m, cx, index) is Some,
        cx.env.const_of(index) is None,
        cx.env.facts(index).frame_disp is None,
    ensures
        ({
            let (v, then_on) = crate::laws::address::frame_subscript(w, m, cx, index)->0;
            leaves_char(
                w,
                m,
                then_on,
                crate::codegen::array_index::plan_emit_array_index_to_ax(cx, array, index),
                m.bp + base + v,
                cx.env.local_elem(name)->0.is_unsigned(),
            )
        }),
{
    let (v, then_on) = crate::laws::address::frame_subscript(w, m, cx, index)->0;
    let plan = crate::codegen::array_index::plan_emit_array_index_to_ax(cx, array, index);
    let ty = &cx.env.local(name)->0.ty;
    let t = cx.env.local_elem(name)->0;
    let list = crate::codegen::array_index::subscripts(array).push(index);
    assert(list =~= seq![index]);
    assert(crate::codegen::env::const_offset(cx.env, ty, list, 0) is None);
    assert(plan == crate::codegen::array_index::plan_index_frame_variable(cx, base, ty, list));
    crate::laws::address::frame_element_address(w, m, cx, index, base, 1);
    assert(v * 1 == v);
    let a = crate::codegen::array_addr::plan_emit_array_addr_to_bx(cx, index, base, 1)->Emit_0;
    let middle = crate::machine::run(w, m, a, 0)->Through_0;
    let b = seq![
        crate::codegen::emitter::mov(
            crate::isa::al(),
            crate::isa::byte(crate::isa::at(Reg::Bx)),
        ),
        crate::codegen::emitter::widen(t.is_unsigned()),
    ];
    assert(plan->Emit_0 =~= a + b);
    crate::laws::address::first_part(w, m, a, b, middle);
    let m1 = crate::laws::byte::load_al(w, middle, b, 0, crate::isa::at(Reg::Bx));
    let m2 = crate::laws::byte::widen_al(w, m1, b, 1, t.is_unsigned());
    crate::machine::step_end(w, m2, b, 2);
}

/// `a[i] = c` for an array of characters on the stack, a variable, a sum, a
/// call or another computed subscript and a constant leaves the low byte of
/// the constant `i` bytes behind the start of the array. Nothing else in
/// memory changes but by the evaluation of the subscript.
#[verifier::rlimit(60)]
pub proof fn frame_char_written<'a>(
    w: World<'a>,
    m: Machine,
    cx: Cx<'a>,
    array: &'a String,
    indices: &'a Vec<Expr>,
    base: i16,
    value: &'a Expr,
    c: u32,
)
    requires
        m.wf(),
        is_frame_chars(*cx.env, *array, base),
        indices@.len() == 1,
        cx.env.const_of(&indices@[0]) is None,
        crate::laws::address::frame_subscript(w, m, cx, &indices@[0]) is Some,
        cx.env.const_of(value) == Some(c),
        value.kind is IntLit,
    ensures
        ({
            let plan = crate::codegen::array_assign::plan_emit_array_assign(
                cx,
                array,
                indices,
                value,
            );
            let (v, then_on) = crate::laws::address::frame_subscript(
                w,
                m,
                cx,
                &indices@[0],
            )->0;
            &&& plan matches Plan::Emit(steps)
            &&& crate::machine::run(w, m, steps, 0) matches Outcome::Through(after)
            &&& after.byte_at(m.bp + base + v) == c as int % 0x100
            &&& crate::machine::same_but(after.mem, then_on.mem, m.bp + base + v, 1)
        }),
{
    let list = crate::codegen::array_assign::each(indices);
    let index = &indices@[0];
    let (v, then_on) = crate::laws::address::frame_subscript(w, m, cx, index)->0;
    assert(list =~= seq![index]);
    let ty = &cx.env.local(array)->0.ty;
    let plan = crate::codegen::array_assign::plan_emit_array_assign(cx, array, indices, value);
    assert(crate::codegen::env::const_offset(cx.env, ty, list, 0) is None);
    assert(plan == crate::codegen::array_assign::plan_elem_frame_variable(
        cx,
        base,
        ty,
        list,
        value,
    ));
    crate::laws::address::frame_element_address(w, m, cx, index, base, 1);
    assert(v * 1 == v);
    let a = crate::codegen::array_addr::plan_emit_array_addr_to_bx(cx, index, base, 1)->Emit_0;
    let middle = crate::machine::run(w, m, a, 0)->Through_0;
    let to = crate::isa::at(Reg::Bx);
    let imm = Operand::<'a>::Imm(crate::isa::masked(c, true));
    let b = seq![crate::codegen::emitter::mov(crate::isa::byte(to), imm)];
    assert(plan->Emit_0 =~= a + b);
    crate::laws::address::first_part(w, m, a, b, middle);
    let after = middle.with_byte(middle.bx, c as int % 0x100);
    assert(crate::machine::run_step(w, middle, b[0]) == Some(after));
    crate::machine::step_on(w, middle, b, 0, after);
    crate::machine::step_end(w, after, b, 1);
    assert(crate::machine::wrap(middle.bx) == crate::machine::wrap(m.bp + base + v));
    crate::laws::byte::byte_written(middle.mem, m.bp + base + v, c as int % 0x100);
}

/// Whether a name stands for a file-scope array of characters.
pub open spec fn is_global_chars(env: Env, array: String) -> bool {
    &&& env.global_elem(&array) matches Some(t) && t.is_char_like()
    &&& !env.has(&array)
}

/// Whether a subscript is a variable that no register holds.
pub open spec fn is_memory_name<'a>(env: Env, index: &'a Expr) -> bool {
    index.kind matches ExprKind::Ident(i) && env.reg_of(&i) is None
}

/// The code for a character of a file-scope array: the subscript goes into
/// `bx`, and the character is loaded behind the name of the array.
proof fn global_char_plan<'a>(cx: Cx<'a>, array: &'a Expr, index: &'a Expr, name: &'a String)
    requires
        array.kind == ExprKind::Ident(*name),
        is_memory_name(*cx.env, index),
        is_global_chars(*cx.env, *name),
        cx.env.const_of(index) is None,
        cx.env.facts(index).frame_disp is None,
        crate::codegen::array_addr::plan_emit_index_into_bx(
            cx,
            index,
            cx.env.global_elem(name)->0,
        ) is Emit,
    ensures
        crate::codegen::array_index::plan_emit_array_index_to_ax(cx, array, index) == Plan::Emit(
            crate::codegen::array_addr::plan_emit_index_into_bx(
                cx,
                index,
                cx.env.global_elem(name)->0,
            )->Emit_0 + seq![
                crate::codegen::emitter::mov(
                    crate::isa::al(),
                    crate::isa::byte(
                        crate::isa::elem_at(name, crate::isa::Disp::Zero, Reg::Bx),
                    ),
                ),
                crate::codegen::emitter::widen_al(cx, cx.env.global_elem(name)->0),
            ],
        ),
{
    let gty = cx.env.global_type(name)->0;
    let list = crate::codegen::array_index::subscripts(array).push(index);
    assert(list =~= seq![index]);
    assert(crate::codegen::env::const_offset(cx.env, gty, list, 0) is None);
    assert(crate::codegen::array_index::plan_emit_array_index_to_ax(cx, array, index)
        == crate::codegen::array_index::plan_index_global(cx, name, gty, list));
    assert(crate::codegen::array_index::plan_index_global(cx, name, gty, list)
        == crate::codegen::array_index::plan_index_global_variable(cx, name, gty, list));
}

/// `a[i]` for a file-scope array of characters and a variable `i` in memory
/// is worth the character that lies `i` bytes behind the start of the array:
/// with its sign, unless it is unsigned.
pub proof fn global_char_read<'a>(
    w: World<'a>,
    m: Machine,
    cx: Cx<'a>,
    array: &'a Expr,
    index: &'a Expr,
    name: &'a String,
)
    requires
        m.wf(),
        widens(w),
        !cx.skip_widen,
        array.kind == ExprKind::Ident(*name),
        is_memory_name(*cx.env, index),
        is_global_chars(*cx.env, *name),
        crate::laws::address::subscript_value(w, m, *cx.env, index) is Some,
        cx.env.const_of(index) is None,
        cx.env.facts(index).frame_disp is None,
    ensures
        leaves_char(
            w,
            m,
            m,
            crate::codegen::array_index::plan_emit_array_index_to_ax(cx, array, index),
            (w.symbol)(name@) + crate::laws::address::subscript_value(w, m, *cx.env, index)->0,
            cx.env.global_elem(name)->0.is_unsigned(),
        ),
{
    let t = cx.env.global_elem(name)->0;
    let v = crate::laws::address::subscript_value(w, m, *cx.env, index)->0;
    assert(t.is_countable());
    crate::laws::address::subscript_scales(w, m, cx, index, t);
    assert(v * 1 == v);
    global_char_plan(cx, array, index, name);
    let a = crate::codegen::array_addr::plan_emit_index_into_bx(cx, index, t)->Emit_0;
    let middle = crate::machine::run(w, m, a, 0)->Through_0;
    let from = crate::isa::elem_at(name, crate::isa::Disp::Zero, Reg::Bx);
    let b = seq![
        crate::codegen::emitter::mov(crate::isa::al(), crate::isa::byte(from)),
        crate::codegen::emitter::widen_al(cx, t),
    ];
    crate::laws::address::first_part(w, m, a, b, middle);
    char_loaded(w, middle, cx, b, t, from);
    crate::laws::address::sum_wraps((w.symbol)(name@), v);
}

/// The code for a constant stored in a character of a file-scope array: the
/// subscript goes into `bx`, and the byte is stored behind the name.
proof fn global_char_store_plan<'a>(
    cx: Cx<'a>,
    array: &'a String,
    indices: &'a Vec<Expr>,
    value: &'a Expr,
    c: u32,
)
    requires
        is_global_chars(*cx.env, *array),
        indices@.len() == 1,
        is_memory_name(*cx.env, &indices@[0]),
        cx.env.const_of(&indices@[0]) is None,
        cx.env.const_of(value) == Some(c),
        value.kind is IntLit,
        crate::codegen::array_addr::plan_emit_index_into_bx(
            cx,
            &indices@[0],
            cx.env.global_elem(array)->0,
        ) is Emit,
    ensures
        crate::codegen::array_assign::plan_emit_array_assign(cx, array, indices, value)
            == Plan::Emit(
            crate::codegen::array_addr::plan_emit_index_into_bx(
                cx,
                &indices@[0],
                cx.env.global_elem(array)->0,
            )->Emit_0 + seq![
                crate::codegen::emitter::mov(
                    crate::isa::byte(crate::isa::elem(array, Reg::Bx)),
                    Operand::<'a>::Imm(crate::isa::masked(c, true)),
                ),
            ],
        ),
{
    let list = crate::codegen::array_assign::each(indices);
    let index = &indices@[0];
    assert(list =~= seq![index]);
    let gty = cx.env.global_type(array)->0;
    assert(crate::codegen::env::const_offset(cx.env, gty, list, 0) is None);
    assert(crate::codegen::array_assign::plan_emit_array_assign(cx, array, indices, value)
        == crate::codegen::array_assign::plan_assign_global_elem(cx, array, gty, list, value));
    assert(crate::codegen::array_assign::plan_assign_global_elem(cx, array, gty, list, value)
        == crate::codegen::array_assign::plan_elem_global_small(cx, array, gty, list, value));
}

/// `a[i] = c` for a file-scope array of characters, a variable `i` in memory
/// and a constant leaves the low byte of the constant `i` bytes behind the
/// start of the array, and nothing else in memory changes.
pub proof fn global_char_written<'a>(
    w: World<'a>,
    m: Machine,
    cx: Cx<'a>,
    array: &'a String,
    indices: &'a Vec<Expr>,
    value: &'a Expr,
    c: u32,
)
    requires
        m.wf(),
        is_global_chars(*cx.env, *array),
        indices@.len() == 1,
        is_memory_name(*cx.env, &indices@[0]),
        crate::laws::address::subscript_value(w, m, *cx.env, &indices@[0]) is Some,
        cx.env.const_of(&indices@[0]) is None,
        cx.env.const_of(value) == Some(c),
        value.kind is IntLit,
    ensures
        crate::laws::byte::leaves_byte(
            w,
            m,
            crate::codegen::array_assign::plan_emit_array_assign(cx, array, indices, value),
            (w.symbol)(array@) + crate::laws::address::subscript_value(
                w,
                m,
                *cx.env,
                &indices@[0],
            )->0,
            c as int % 0x100,
        ),
{
    let index = &indices@[0];
    let t = cx.env.global_elem(array)->0;
    let v = crate::laws::address::subscript_value(w, m, *cx.env, index)->0;
    let at = (w.symbol)(array@) + v;
    assert(t.is_countable());
    crate::laws::address::subscript_scales(w, m, cx, index, t);
    assert(v * 1 == v);
    global_char_store_plan(cx, array, indices, value, c);
    let a = crate::codegen::array_addr::plan_emit_index_into_bx(cx, index, t)->Emit_0;
    let middle = crate::machine::run(w, m, a, 0)->Through_0;
    let to = crate::isa::elem(array, Reg::Bx);
    let imm = Operand::<'a>::Imm(crate::isa::masked(c, true));
    let b = seq![crate::codegen::emitter::mov(crate::isa::byte(to), imm)];
    crate::laws::address::first_part(w, m, a, b, middle);
    crate::laws::address::sum_wraps((w.symbol)(array@), v);
    let after = middle.with_byte(at, c as int % 0x100);
    assert(crate::machine::run_step(w, middle, b[0]) == Some(after));
    crate::machine::step_on(w, middle, b, 0, after);
    crate::machine::step_end(w, after, b, 1);
    crate::laws::byte::byte_written(m.mem, at, c as int % 0x100);
}

} // verus!
