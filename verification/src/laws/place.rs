//! Compound assignment to array elements with a right side that is a
//! variable or has to be computed.

use vstd::prelude::*;
use crate::ast::{BinOp, Expr, ExprKind, Type};
use crate::codegen::emitter::{Cx, Plan, Step};
use crate::codegen::env::{Env, LocalLocation};
use crate::isa::{Operand, Reg, Width};
use crate::laws::compound::{divides, work, worked};
use crate::laws::line::puts_word;
use crate::machine::{Machine, Outcome, World};

verus! {

/// Whether constant subscripts select a word at a distance in a file-scope
/// array of integers.
pub open spec fn selects_global_int<'a>(
    env: &'a Env,
    array: &'a String,
    indices: Seq<&'a Expr>,
    off: i32,
) -> bool {
    &&& !env.has(array)
    &&& env.global_type(array) matches Some(gty) && gty.pointee() is None && (
    crate::codegen::env::const_offset(env, gty, indices, 0) matches Some((o, leaf)) && o == off
        && crate::codegen::env::is_plain_int(leaf))
    &&& indices.len() == 1 ==> env.const_of(indices[0]) is Some
}

/// Whether constant subscripts select a word at a distance in an array of
/// integers on the stack.
pub open spec fn selects_frame_int<'a>(
    env: &'a Env,
    array: &'a String,
    indices: Seq<&'a Expr>,
    base: i16,
    off: i32,
) -> bool {
    &&& env.global_type(array) is None
    &&& env.local(array) matches Some(l) && l.loc == LocalLocation::Stack(base) && l.ty.pointee()
        is None && (crate::codegen::env::const_offset(env, &l.ty, indices, 0) matches Some(
        (o, leaf),
    ) && o == off && crate::codegen::env::is_plain_int(leaf))
    &&& -0x8000 <= off <= 0x7FFF
}

/// `a[k] op= e` for a file-scope array of integers, constant subscripts, a
/// direct operator and a computed right side leaves the 16-bit result in the
/// element. No other memory and no register changes that holds a variable.
#[verifier::rlimit(60)]
pub proof fn global_element_applied<'a>(
    w: World<'a>,
    m: Machine,
    cx: Cx<'a>,
    array: &'a String,
    indices: &'a Vec<Expr>,
    op: BinOp,
    value: &'a Expr,
    from_postfix: bool,
    off: i32,
    x: int,
)
    requires
        m.wf(),
        cx.env.const_of(value) is None,
        selects_global_int(cx.env, array, crate::codegen::array_assign::each(indices), off),
        crate::isa::is_direct(op),
        crate::laws::rows::is_computed_as(w, m, cx, value, x),
    ensures
        puts_word(
            w,
            m,
            crate::codegen::array_compound::plan_emit_array_compound_assign(
                cx,
                array,
                indices,
                op,
                value,
                from_postfix,
            ),
            (w.symbol)(array@) + off,
            crate::machine::word_result(op, m.word_at((w.symbol)(array@) + off), x),
        ),
{
    let plan = crate::codegen::array_compound::plan_emit_array_compound_assign(
                cx,
                array,
                indices,
                op,
                value,
                from_postfix,
            );
    let list = crate::codegen::array_assign::each(indices);
    let gty = cx.env.global_type(array)->0;
    let leaf = crate::codegen::env::const_offset(cx.env, gty, list, 0)->0;
    let a = crate::isa::global_at(array, crate::isa::disp(off));
    let at = (w.symbol)(array@) + off;
    assert(plan == crate::codegen::array_compound::plan_each_global_const(
        cx,
        array,
        gty,
        list,
        op,
        value,
        from_postfix,
    ));
    crate::laws::compound::computed_applied(w, m, cx, plan->Emit_0, a, at, op, value, x);
}

/// `a[k] *= y`, `a[k] /= y` and `a[k] %= y` with sign for a file-scope array
/// of integers, constant subscripts and an integer on the stack leave the
/// result in the element. No other memory and no register changes that holds
/// a variable.
#[verifier::rlimit(60)]
pub proof fn global_element_worked<'a>(
    w: World<'a>,
    m: Machine,
    cx: Cx<'a>,
    array: &'a String,
    indices: &'a Vec<Expr>,
    op: BinOp,
    value: &'a Expr,
    from_postfix: bool,
    off: i32,
    y: &'a String,
    slot: i16,
)
    requires
        m.wf(),
        cx.env.const_of(value) is None,
        selects_global_int(cx.env, array, crate::codegen::array_assign::each(indices), off),
        crate::isa::is_multiplicative(op),
        value.kind == ExprKind::Ident(*y),
        !cx.env.is_global(y),
        cx.env.stack_of(y) == Some(slot),
        op != BinOp::Mul ==> divides(
            m.word_at((w.symbol)(array@) + off),
            m.word_at(m.bp + slot),
            false,
        ),
    ensures
        puts_word(
            w,
            m,
            crate::codegen::array_compound::plan_emit_array_compound_assign(
                cx,
                array,
                indices,
                op,
                value,
                from_postfix,
            ),
            (w.symbol)(array@) + off,
            worked(
                op,
                m.word_at((w.symbol)(array@) + off),
                m.word_at(m.bp + slot),
                false,
            ),
        ),
{
    let plan = crate::codegen::array_compound::plan_emit_array_compound_assign(
                cx,
                array,
                indices,
                op,
                value,
                from_postfix,
            );
    let list = crate::codegen::array_assign::each(indices);
    let gty = cx.env.global_type(array)->0;
    let leaf = crate::codegen::env::const_offset(cx.env, gty, list, 0)->0;
    let a = crate::isa::global_at(array, crate::isa::disp(off));
    let at = (w.symbol)(array@) + off;
    assert(plan == crate::codegen::array_compound::plan_each_global_const(
        cx,
        array,
        gty,
        list,
        op,
        value,
        from_postfix,
    ));
    let by = Operand::<'a>::Mem(Width::Word, crate::isa::bp(slot));
    let steps = seq![crate::codegen::emitter::mov(crate::isa::ax::<'a>(), crate::isa::word(a))]
        + work(op, by, false) + seq![
        crate::codegen::emitter::mov(crate::isa::word(a), crate::isa::quotient::<'a>(op)),
    ];
    assert(plan->Emit_0 =~= steps);
    crate::machine::word_range(m.mem, m.bp + slot);
    crate::laws::compound::worked_in_memory(
        w,
        m,
        steps,
        a,
        at,
        op,
        by,
        m.word_at(m.bp + slot),
        false,
    );
}

/// `a[k] <<= y` and `a[k] >>= y` for a file-scope array of integers and
/// constant subscripts shift the element by the low byte of `y`, to the right
/// with its sign unless it is unsigned. No other memory and no register
/// changes that holds a variable.
#[verifier::rlimit(60)]
pub proof fn global_element_shifted<'a>(
    w: World<'a>,
    m: Machine,
    cx: Cx<'a>,
    array: &'a String,
    indices: &'a Vec<Expr>,
    op: BinOp,
    value: &'a Expr,
    from_postfix: bool,
    off: i32,
    leaf: &'a Type,
)
    requires
        m.wf(),
        cx.env.const_of(value) is None,
        selects_global_int(cx.env, array, crate::codegen::array_assign::each(indices), off),
        crate::isa::is_shift(op),
        cx.env.facts(value).byte_operand is Some,
        crate::codegen::env::const_offset(
            cx.env,
            cx.env.global_type(array)->0,
            crate::codegen::array_assign::each(indices),
            0,
        ) == Some((off, leaf)),
    ensures
        puts_word(
            w,
            m,
            crate::codegen::array_compound::plan_emit_array_compound_assign(
                cx,
                array,
                indices,
                op,
                value,
                from_postfix,
            ),
            (w.symbol)(array@) + off,
            crate::laws::bitfield::shifted(
                crate::isa::shift(op, leaf.is_unsigned()),
                m.word_at((w.symbol)(array@) + off),
                ((w.operand)((cx.env.facts(value).byte_operand->0)@, m) % 0x100) as nat,
            ),
        ),
{
    let plan = crate::codegen::array_compound::plan_emit_array_compound_assign(
                cx,
                array,
                indices,
                op,
                value,
                from_postfix,
            );
    let list = crate::codegen::array_assign::each(indices);
    let gty = cx.env.global_type(array)->0;
    let a = crate::isa::global_at(array, crate::isa::disp(off));
    let at = (w.symbol)(array@) + off;
    assert(plan == crate::codegen::array_compound::plan_each_global_const(
        cx,
        array,
        gty,
        list,
        op,
        value,
        from_postfix,
    ));
    let text = &cx.env.facts(value).byte_operand->0;
    let by = crate::isa::shift(op, leaf.is_unsigned());
    let steps = seq![
        crate::codegen::emitter::mov(crate::isa::cl::<'a>(), Operand::Text(text)),
        crate::codegen::emitter::op2(by, crate::isa::word(a), crate::isa::cl()),
    ];
    assert(plan->Emit_0 =~= steps);
    crate::laws::compound::shifted_by_text(w, m, steps, a, at, by, text);
}

/// `a[k] op= e` for an array of integers on the stack, constant subscripts, a
/// direct operator and a computed right side leaves the 16-bit result in the
/// element. No other memory and no register changes that holds a variable.
pub proof fn frame_element_applied<'a>(
    w: World<'a>,
    m: Machine,
    cx: Cx<'a>,
    array: &'a String,
    indices: &'a Vec<Expr>,
    op: BinOp,
    value: &'a Expr,
    from_postfix: bool,
    base: i16,
    off: i32,
    x: int,
)
    requires
        m.wf(),
        cx.env.const_of(value) is None,
        selects_frame_int(cx.env, array, crate::codegen::array_assign::each(indices), base, off),
        crate::isa::is_direct(op),
        crate::laws::rows::is_computed_as(w, m, cx, value, x),
    ensures
        puts_word(
            w,
            m,
            crate::codegen::array_compound::plan_emit_array_compound_assign(
                cx,
                array,
                indices,
                op,
                value,
                from_postfix,
            ),
            m.bp + base + off,
            crate::machine::word_result(op, m.word_at(m.bp + base + off), x),
        ),
{
    let plan = crate::codegen::array_compound::plan_emit_array_compound_assign(
                cx,
                array,
                indices,
                op,
                value,
                from_postfix,
            );
    let list = crate::codegen::array_assign::each(indices);
    let a = crate::isa::bp_plus(base, crate::isa::sat16(off));
    let at = m.bp + base + off;
    assert(plan == crate::codegen::array_compound::plan_compound_frame_elem(
        cx,
        array,
        list,
        op,
        value,
        from_postfix,
    ));
    crate::laws::compound::computed_applied(w, m, cx, plan->Emit_0, a, at, op, value, x);
}

/// `p[k] op= e` for a local near pointer to integers in a register, a direct
/// operator and a computed right side leaves the 16-bit result where `p`
/// points, `k` words further on. No other memory and no register changes that
/// holds a variable.
pub proof fn near_element_applied<'a>(
    w: World<'a>,
    m: Machine,
    cx: Cx<'a>,
    array: &'a String,
    indices: &'a Vec<Expr>,
    op: BinOp,
    value: &'a Expr,
    from_postfix: bool,
    r: Reg,
    k: u32,
    x: int,
)
    requires
        m.wf(),
        cx.env.const_of(value) is None,
        crate::laws::compound::is_int_pointer_in(*cx.env, *array, r),
        cx.env.global_type(array) is None,
        indices@.len() == 1,
        cx.env.const_of(&indices@[0]) == Some(k),
        k < 0x4000,
        crate::isa::is_direct(op),
        crate::laws::rows::is_computed_as(w, m, cx, value, x),
    ensures
        puts_word(
            w,
            m,
            crate::codegen::array_compound::plan_emit_array_compound_assign(
                cx,
                array,
                indices,
                op,
                value,
                from_postfix,
            ),
            m.reg(r)->0 + 2 * k,
            crate::machine::word_result(op, m.word_at(m.reg(r)->0 + 2 * k), x),
        ),
{
    let plan = crate::codegen::array_compound::plan_emit_array_compound_assign(
                cx,
                array,
                indices,
                op,
                value,
                from_postfix,
            );
    let list = crate::codegen::array_assign::each(indices);
    let d = crate::isa::disp(crate::isa::scaled(k, 2));
    assert(crate::machine::distance(d) == 2 * k);
    let a = crate::isa::at_disp(r, d);
    let at = m.reg(r)->0 + 2 * k;
    assert(plan == crate::codegen::array_compound::plan_each_local_pointer(
        cx,
        array,
        list,
        op,
        value,
    ));
    crate::laws::compound::computed_applied(w, m, cx, plan->Emit_0, a, at, op, value, x);
}

/// `p[k] op= e` for a file-scope pointer to integers, a direct operator and a
/// computed right side leaves the 16-bit result where `p` points, `k` words
/// further on. No other memory and no register changes that holds a
/// variable.
#[verifier::rlimit(60)]
pub proof fn behind_element_applied<'a>(
    w: World<'a>,
    m: Machine,
    cx: Cx<'a>,
    array: &'a String,
    indices: &'a Vec<Expr>,
    op: BinOp,
    value: &'a Expr,
    from_postfix: bool,
    t: &'a Type,
    k: u32,
    x: int,
)
    requires
        m.wf(),
        cx.env.const_of(value) is None,
        !cx.env.has(array),
        cx.env.global_type(array) matches Some(gty) && gty.pointee() == Some(t)
            && gty.spec_array_elem() is None,
        crate::codegen::env::is_plain_int(t),
        indices@.len() == 1,
        cx.env.const_of(&indices@[0]) == Some(k),
        k < 0x4000,
        crate::isa::is_direct(op),
        crate::laws::rows::is_computed_as(w, m, cx, value, x),
    ensures
        puts_word(
            w,
            m,
            crate::codegen::array_compound::plan_emit_array_compound_assign(
                cx,
                array,
                indices,
                op,
                value,
                from_postfix,
            ),
            m.word_at((w.symbol)(array@)) + 2 * k,
            crate::machine::word_result(
                op,
                m.word_at(m.word_at((w.symbol)(array@)) + 2 * k),
                x,
            ),
        ),
{
    let plan = crate::codegen::array_compound::plan_emit_array_compound_assign(
                cx,
                array,
                indices,
                op,
                value,
                from_postfix,
            );
    let list = crate::codegen::array_assign::each(indices);
    let gty = cx.env.global_type(array)->0;
    let d = crate::isa::disp(crate::isa::scaled(k, 2));
    assert(crate::machine::distance(d) == 2 * k);
    let a = crate::isa::at_disp(Reg::Bx, d);
    let at = m.word_at((w.symbol)(array@)) + 2 * k;
    assert(plan == crate::codegen::array_compound::plan_behind_int_direct(
        cx,
        array,
        a,
        op,
        value,
    ));
    let (first, m1) = crate::laws::pointed::word_in_bx(w, m, crate::isa::global(array));
    let second = seq![
        crate::codegen::emitter::to_ax(cx, value),
        crate::codegen::emitter::op2(crate::isa::direct(op), crate::isa::word(a), crate::isa::ax()),
    ];
    assert(plan->Emit_0 =~= first + second);
    assert(crate::laws::rows::is_computed_as(w, m1, cx, value, x));
    crate::laws::compound::computed_applied(w, m1, cx, second, a, at, op, value, x);
    crate::laws::address::first_part(w, m, first, second, m1);
}

/// `p[k] <<= y` and `p[k] >>= y` for a file-scope pointer to integers shift
/// the word where `p` points, `k` words further on, by the low byte of `y`.
/// No other memory and no register changes that holds a variable.
#[verifier::rlimit(60)]
pub proof fn behind_element_shifted<'a>(
    w: World<'a>,
    m: Machine,
    cx: Cx<'a>,
    array: &'a String,
    indices: &'a Vec<Expr>,
    op: BinOp,
    value: &'a Expr,
    from_postfix: bool,
    t: &'a Type,
    k: u32,
    text: &'a String,
    n: int,
)
    requires
        m.wf(),
        cx.env.const_of(value) is None,
        !cx.env.has(array),
        cx.env.global_type(array) matches Some(gty) && gty.pointee() == Some(t)
            && gty.spec_array_elem() is None,
        crate::codegen::env::is_plain_int(t),
        indices@.len() == 1,
        cx.env.const_of(&indices@[0]) == Some(k),
        k < 0x4000,
        crate::isa::is_shift(op),
        cx.env.facts(value).byte_operand == Some(*text),
        crate::laws::address::is_worth(w, m, *text, n),
    ensures
        puts_word(
            w,
            m,
            crate::codegen::array_compound::plan_emit_array_compound_assign(
                cx,
                array,
                indices,
                op,
                value,
                from_postfix,
            ),
            m.word_at((w.symbol)(array@)) + 2 * k,
            crate::laws::bitfield::shifted(
                crate::isa::shift(op, t.is_unsigned()),
                m.word_at(m.word_at((w.symbol)(array@)) + 2 * k),
                (n % 0x100) as nat,
            ),
        ),
{
    let plan = crate::codegen::array_compound::plan_emit_array_compound_assign(
                cx,
                array,
                indices,
                op,
                value,
                from_postfix,
            );
    let list = crate::codegen::array_assign::each(indices);
    let gty = cx.env.global_type(array)->0;
    let d = crate::isa::disp(crate::isa::scaled(k, 2));
    assert(crate::machine::distance(d) == 2 * k);
    let a = crate::isa::at_disp(Reg::Bx, d);
    let at = m.word_at((w.symbol)(array@)) + 2 * k;
    assert(plan == crate::codegen::array_compound::plan_behind_int_shift(
        cx,
        array,
        a,
        t,
        op,
        value,
    ));
    let (first, m1) = crate::laws::pointed::word_in_bx(w, m, crate::isa::global(array));
    let count = &cx.env.facts(value).byte_operand->0;
    let by = crate::isa::shift(op, t.is_unsigned());
    let second = seq![
        crate::codegen::emitter::mov(crate::isa::cl::<'a>(), Operand::Text(count)),
        crate::codegen::emitter::op2(by, crate::isa::word(a), crate::isa::cl()),
    ];
    assert(plan->Emit_0 =~= first + second);
    crate::laws::compound::shifted_by_text(w, m1, second, a, at, by, count);
    crate::laws::address::first_part(w, m, first, second, m1);
}

/// `ax` applied to the element of a file-scope array of words whose offset
/// the code before has left in `bx`.
proof fn ax_applied_behind<'a>(
    w: World<'a>,
    m: Machine,
    first: Seq<Step<'a>>,
    middle: Machine,
    array: &'a String,
    op: BinOp,
    v: int,
    x: int,
)
    requires
        crate::machine::run(w, m, first, 0) == Outcome::Through(middle),
        middle.wf(),
        crate::laws::address::same_variables(middle, m),
        middle.ax == x,
        middle.bx == crate::machine::wrap(v * 2),
        crate::isa::is_direct(op),
    ensures
        ({
            let at = (w.symbol)(array@) + v * 2;
            let to = crate::isa::elem(array, Reg::Bx);
            puts_word(
                w,
                m,
                Plan::Emit(
                    first + seq![
                        crate::codegen::emitter::op2(
                            crate::isa::direct(op),
                            crate::isa::word(to),
                            Operand::<'a>::Reg(Reg::Ax),
                        ),
                    ],
                ),
                at,
                crate::machine::word_result(op, m.word_at(at), x),
            )
        }),
{
    let to = crate::isa::elem(array, Reg::Bx);
    let ax = Operand::<'a>::Reg(Reg::Ax);
    let c = seq![
        crate::codegen::emitter::op2(crate::isa::direct(op), crate::isa::word(to), ax),
    ];
    let at = (w.symbol)(array@) + v * 2;
    let near = (w.symbol)(array@) + middle.bx;
    crate::laws::address::sum_wraps((w.symbol)(array@), v * 2);
    crate::laws::element::word_place_wraps(m.mem, near);
    crate::laws::element::word_place_wraps(m.mem, at);
    crate::machine::word_range(m.mem, near);
    let after = crate::laws::steps::direct_to_memory(w, middle, c, 0, op, to, ax);
    crate::machine::step_end(w, after, c, 1);
    let y = crate::machine::word_result(op, m.word_at(at), x);
    crate::laws::steps::direct_in_range(op, m.word_at(at), x);
    crate::machine::word_written(m.mem, near, y);
    crate::laws::element::written_behind(w, m, first, c, middle, near, at, y);
    crate::laws::address::first_part(w, m, first, c, middle);
}

/// `a[i] op= e` for a file-scope array of words, a variable subscript, a
/// direct operator and a computed right side leaves the 16-bit result in the
/// element. No other memory and no register changes that holds a variable.
#[verifier::rlimit(60)]
pub proof fn global_word_applied<'a>(
    w: World<'a>,
    m: Machine,
    cx: Cx<'a>,
    array: &'a String,
    indices: &'a Vec<Expr>,
    op: BinOp,
    value: &'a Expr,
    t: &'a Type,
    x: int,
)
    requires
        m.wf(),
        cx.env.const_of(value) is None,
        !cx.env.has(array),
        cx.env.global_elem(array) == Some(t),
        t.is_int_like(),
        t.is_countable(),
        t.size() == 2,
        indices@.len() == 1,
        cx.env.const_of(&indices@[0]) is None,
        crate::isa::is_direct(op),
        crate::laws::rows::is_computed_as(w, m, cx, value, x),
        !crate::codegen::array_addr::names_char(cx.env, &indices@[0]),
        crate::laws::address::subscript_value(w, m, *cx.env, &indices@[0]) is Some,
        cx.env.facts(&indices@[0]).int_addr is None ==> (indices@[0].kind matches ExprKind::Ident(
            n,
        ) && (cx.env.word_reg_of(&n) == Some(Reg::Si) || cx.env.word_reg_of(&n) == Some(Reg::Di))),
    ensures
        ({
            let at = (w.symbol)(array@) + crate::laws::address::subscript_value(
                w,
                m,
                *cx.env,
                &indices@[0],
            )->0 * 2;
            puts_word(
                w,
                m,
                crate::codegen::array_compound::plan_emit_array_compound_assign(
                    cx,
                    array,
                    indices,
                    op,
                    value,
                    false,
                ),
                at,
                crate::machine::word_result(op, m.word_at(at), x),
            )
        }),
{
    let plan = crate::codegen::array_compound::plan_emit_array_compound_assign(
        cx,
        array,
        indices,
        op,
        value,
        false,
    );
    let list = crate::codegen::array_assign::each(indices);
    let gty = cx.env.global_type(array)->0;
    assert(plan == crate::codegen::array_compound::plan_each_global_word(
        cx,
        array,
        gty,
        list,
        op,
        value,
    ));
    let v = crate::laws::address::subscript_value(w, m, *cx.env, list[0])->0;
    let a = seq![crate::codegen::emitter::to_ax(cx, value)];
    assert(crate::laws::address::same_variables(m, m));
    let m1 = crate::laws::long::evaluated(w, m, cx, value);
    crate::machine::step_on(w, m, a, 0, m1);
    crate::machine::step_end(w, m1, a, 1);
    assert(crate::laws::address::subscript_value(w, m1, *cx.env, list[0]) == Some(v));
    let (b, m2) = crate::laws::stored::subscript_keeps_ax(w, m1, cx, list[0], t);
    crate::laws::address::first_part(w, m, a, b, m1);
    let to = crate::isa::elem(array, Reg::Bx);
    let ax = Operand::<'a>::Reg(Reg::Ax);
    let c = seq![
        crate::codegen::emitter::op2(crate::isa::direct(op), crate::isa::word(to), ax),
    ];
    ax_applied_behind(w, m, a + b, m2, array, op, v, x);
    assert(plan->Emit_0 =~= a + b + c);
}

/// `p[k] *= y` for a file-scope pointer to integers and an integer on the
/// stack leaves the low 16 bits of the product where `p` points, `k` words
/// further on. No other memory and no register changes that holds a variable.
#[verifier::rlimit(60)]
pub proof fn behind_element_multiplied<'a>(
    w: World<'a>,
    m: Machine,
    cx: Cx<'a>,
    array: &'a String,
    indices: &'a Vec<Expr>,
    value: &'a Expr,
    from_postfix: bool,
    t: &'a Type,
    k: u32,
    y: &'a String,
    slot: i16,
)
    requires
        m.wf(),
        !cx.env.has(array),
        cx.env.global_type(array) matches Some(gty) && gty.pointee() == Some(t)
            && gty.spec_array_elem() is None,
        crate::codegen::env::is_plain_int(t),
        indices@.len() == 1,
        cx.env.const_of(&indices@[0]) == Some(k),
        k < 0x4000,
        value.kind == ExprKind::Ident(*y),
        !cx.env.is_global(y),
        cx.env.stack_of(y) == Some(slot),
    ensures
        ({
            let at = m.word_at((w.symbol)(array@)) + 2 * k;
            puts_word(
                w,
                m,
                crate::codegen::array_compound::plan_emit_array_compound_assign(
                    cx,
                    array,
                    indices,
                    BinOp::Mul,
                    value,
                    from_postfix,
                ),
                at,
                crate::machine::wrap(m.word_at(at) * m.word_at(m.bp + slot)),
            )
        }),
{
    let op = BinOp::Mul;
    let plan = crate::codegen::array_compound::plan_emit_array_compound_assign(
        cx,
        array,
        indices,
        op,
        value,
        from_postfix,
    );
    let d = crate::isa::disp(crate::isa::scaled(k, 2));
    assert(crate::machine::distance(d) == 2 * k);
    let a = crate::isa::at_disp(Reg::Bx, d);
    let at = m.word_at((w.symbol)(array@)) + 2 * k;
    assert(plan == crate::codegen::array_compound::plan_behind_int_mul(cx, array, a, op, value));
    let (first, m1) = crate::laws::pointed::word_in_bx(w, m, crate::isa::global(array));
    let by = Operand::<'a>::Mem(Width::Word, crate::isa::bp(slot));
    let steps = seq![crate::codegen::emitter::mov(crate::isa::ax::<'a>(), crate::isa::word(a))]
        + work(op, by, false) + seq![
        crate::codegen::emitter::mov(crate::isa::word(a), crate::isa::quotient::<'a>(op)),
    ];
    assert(plan->Emit_0 =~= first + steps);
    let v = m.word_at(m.bp + slot);
    crate::machine::word_range(m.mem, m.bp + slot);
    crate::laws::compound::worked_in_memory(w, m1, steps, a, at, op, by, v, false);
    crate::laws::address::first_part(w, m, first, steps, m1);
}

/// `a[k] *= c` for an array of integers on the stack, constant subscripts and
/// a constant leaves the low 16 bits of the product in the element. No other
/// memory and no register changes that holds a variable.
#[verifier::rlimit(60)]
pub proof fn frame_element_multiplied<'a>(
    w: World<'a>,
    m: Machine,
    cx: Cx<'a>,
    array: &'a String,
    indices: &'a Vec<Expr>,
    value: &'a Expr,
    from_postfix: bool,
    base: i16,
    off: i32,
    c: u32,
)
    requires
        m.wf(),
        selects_frame_int(cx.env, array, crate::codegen::array_assign::each(indices), base, off),
        cx.env.const_of(value) == Some(c),
    ensures
        puts_word(
            w,
            m,
            crate::codegen::array_compound::plan_emit_array_compound_assign(
                cx,
                array,
                indices,
                BinOp::Mul,
                value,
                from_postfix,
            ),
            m.bp + base + off,
            crate::machine::wrap(m.word_at(m.bp + base + off) * (c as int % 0x1_0000)),
        ),
{
    let op = BinOp::Mul;
    let plan = crate::codegen::array_compound::plan_emit_array_compound_assign(
        cx,
        array,
        indices,
        op,
        value,
        from_postfix,
    );
    let list = crate::codegen::array_assign::each(indices);
    assert(plan == crate::codegen::array_compound::plan_compound_frame_elem(
        cx,
        array,
        list,
        op,
        value,
        from_postfix,
    ));
    let a = crate::isa::bp_plus::<'a>(base, crate::isa::sat16(off));
    let at = m.bp + base + off;
    let steps = plan->Emit_0;
    let dx = Operand::<'a>::Reg(Reg::Dx);
    let ax = Operand::<'a>::Reg(Reg::Ax);
    let imm = Operand::<'a>::Imm(crate::isa::lo16(c));
    assert(steps =~= seq![
        crate::codegen::emitter::mov(dx, imm),
        crate::codegen::emitter::mov(ax, crate::isa::word(a)),
        crate::codegen::emitter::imul(dx),
        crate::codegen::emitter::mov(crate::isa::word(a), ax),
    ]);
    let m1 = crate::laws::steps::move_to_register(w, m, steps, 0, Reg::Dx, imm);
    let m2 = crate::laws::steps::load_word(w, m1, steps, 1, Reg::Ax, a);
    let m3 = crate::laws::integer::multiplied(w, m2, steps, 2, dx);
    let after = crate::laws::target::put_at(w, m3, steps, 3, false, a, ax, at, at, m3.ax);
    crate::machine::step_end(w, after, steps, 4);
}

} // verus!
