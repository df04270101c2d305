//! 32-bit integers in arrays are read and written where they lie.

use vstd::prelude::*;
use crate::ast::{BinOp, Expr, ExprKind};
use crate::codegen::emitter::{Cx, Plan, Step};
use crate::codegen::env::{Env, LocalLocation};
use crate::isa::{Addr, Operand, Reg};
use crate::machine::{Machine, World};

verus! {

/// Whether constant subscripts of a variable select a 32-bit integer: the
/// variable is an array, at file scope without a local that hides it or in
/// the stack frame, and the offset fits 16 bits.
pub open spec fn selects_long<'a>(env: Env, array: &'a String, indices: Seq<&'a Expr>) -> bool {
    let ty = env.var_type(array);
    &&& ty is Some
    &&& ty->0 is Array
    &&& crate::codegen::env::const_offset(&env, ty->0, indices, 0) matches Some((off, leaf))
        && leaf.is_long_like() && -32768 <= off <= 32767
    &&& crate::laws::long::is_plain_name(env, *array)
}

/// The machine behind the step that applies a compound assignment to a pair
/// of words.
pub open spec fn behind_compound<'a>(
    w: World<'a>,
    m: Machine,
    lo: Addr<'a>,
    hi: Addr<'a>,
    op: BinOp,
    value: &'a Expr,
    unsigned: bool,
) -> Machine {
    (w.work)(Step::LongCompound(lo, hi, op, value, unsigned), m)
}

/// Whether the step that applies a compound assignment to a pair of words
/// leaves there what a direct operator makes of the pair and a constant, and
/// changes nothing else in memory.
pub open spec fn compounds<'a>(w: World<'a>, env: Env) -> bool {
    forall|m: Machine, lo: Addr<'a>, hi: Addr<'a>, op: BinOp, value: &'a Expr, unsigned: bool|
        m.wf() && crate::laws::steps::are_halves(w, m, lo, hi) && crate::isa::is_direct(op)
            && env.const_of(value) is Some ==> {
            let after = #[trigger] behind_compound(w, m, lo, hi, op, value, unsigned);
            let at = m.locate(w, lo)->0;
            &&& after.long_at(at) == crate::machine::long_result(
                op,
                m.long_at(at),
                env.const_of(value)->0 as int,
            )
            &&& crate::machine::same_but(after.mem, m.mem, at, 4)
        }
}

/// `a[k] = c` for an array of 32-bit integers, constant subscripts and a
/// constant leaves the constant in both words of the element, and nothing
/// else in memory changes.
pub proof fn const_long_written<'a>(
    w: World<'a>,
    m: Machine,
    cx: Cx<'a>,
    array: &'a String,
    indices: &'a Vec<Expr>,
    value: &'a Expr,
    c: u32,
)
    requires
        m.wf(),
        selects_long(*cx.env, array, crate::codegen::array_assign::each(indices)),
        cx.env.const_of(value) == Some(c),
        value.kind is IntLit,
    ensures
        crate::laws::long::leaves_long(
            w,
            m,
            crate::codegen::array_assign::plan_emit_array_assign(cx, array, indices, value),
            crate::laws::element::const_place(
                w,
                m,
                *cx.env,
                array,
                crate::codegen::array_assign::each(indices),
            ),
            c as int,
        ),
{
    let list = crate::codegen::array_assign::each(indices);
    let plan = crate::codegen::array_assign::plan_emit_array_assign(cx, array, indices, value);
    match cx.env.global_type(array) {
        Some(gty) => {
            let off = crate::laws::element::const_distance(*cx.env, *gty, list);
            assert(plan == crate::codegen::array_assign::plan_elem_global_const(
                cx,
                array,
                gty,
                list,
                value,
            ));
            let lo = crate::isa::global_at(array, crate::isa::disp(off));
            let hi = crate::isa::global_at(array, crate::isa::disp2(off));
            crate::laws::assign::const_stored(w, m, plan->Emit_0, lo, hi, c);
        },
        None => {
            let l = cx.env.local(array)->0;
            let base = l.loc->Stack_0;
            let off = crate::laws::element::const_distance(*cx.env, l.ty, list);
            assert(plan == crate::codegen::array_assign::plan_elem_frame_const(
                cx,
                base,
                &l.ty,
                list,
                value,
            ));
            let lo = crate::isa::bp_plus(base, crate::isa::sat16(off));
            let hi = crate::isa::bp_plus2(base, crate::isa::sat16(off));
            crate::laws::assign::const_stored(w, m, plan->Emit_0, lo, hi, c);
        },
    }
}

/// `a[k]` for an array of 32-bit integers and a constant subscript, read
/// into `ax`, is the low word at the place that an assignment to `a[k]`
/// writes.
#[verifier::rlimit(60)]
pub proof fn const_long_low_read<'a>(
    w: World<'a>,
    m: Machine,
    cx: Cx<'a>,
    name: &'a String,
    array: &'a Expr,
    index: &'a Expr,
)
    requires
        m.wf(),
        array.kind == ExprKind::Ident(*name),
        selects_long(*cx.env, name, seq![index]),
        cx.env.facts(index).frame_disp is None,
    ensures
        crate::laws::element::leaves_ax(
            w,
            m,
            crate::codegen::array_index::plan_emit_array_index_to_ax(cx, array, index),
            m.word_at(crate::laws::element::const_place(w, m, *cx.env, name, seq![index])),
        ),
{
    let list = crate::codegen::array_index::subscripts(array).push(index);
    assert(list =~= seq![index]);
    let plan = crate::codegen::array_index::plan_emit_array_index_to_ax(cx, array, index);
    let steps = plan->Emit_0;
    match cx.env.global_type(name) {
        Some(gty) => {
            let off = crate::laws::element::const_distance(*cx.env, *gty, list);
            assert(plan == crate::codegen::array_index::plan_index_global_const(
                cx,
                name,
                gty,
                list,
            ));
            let from = crate::isa::global_at(name, crate::isa::plus(off as i64));
            assert(steps =~= seq![
                crate::codegen::emitter::mov(crate::isa::ax(), crate::isa::word(from)),
            ]);
            let after = crate::laws::steps::load_word(w, m, steps, 0, Reg::Ax, from);
            crate::machine::step_end(w, after, steps, 1);
        },
        None => {
            let l = cx.env.local(name)->0;
            let base = l.loc->Stack_0;
            let off = crate::laws::element::const_distance(*cx.env, l.ty, list);
            assert(plan == crate::codegen::array_index::plan_index_frame_const(
                cx,
                base,
                &l.ty,
                list,
            ));
            let from = crate::isa::bp_plus(base, crate::isa::sat16(off));
            assert(steps =~= seq![
                crate::codegen::emitter::mov(crate::isa::ax(), crate::isa::word(from)),
            ]);
            let after = crate::laws::steps::load_word(w, m, steps, 0, Reg::Ax, from);
            crate::machine::step_end(w, after, steps, 1);
        },
    }
}

/// `x = a[k]` for a 32-bit file-scope variable and a constant element of an
/// array of 32-bit integers on the stack leaves in `x` both words that lie
/// `k` elements behind the start of the array, and nothing else in memory
/// changes.
pub proof fn frame_long_read<'a>(
    w: World<'a>,
    m: Machine,
    cx: Cx<'a>,
    name: &'a String,
    value: &'a Expr,
    array: &'a Box<Expr>,
    index: &'a Box<Expr>,
    a: &'a String,
    base: i16,
    k: u32,
)
    requires
        m.wf(),
        cx.env.is_long_global(name),
        cx.env.const_of(value) is None,
        value.kind == (ExprKind::ArrayIndex { array: *array, index: *index }),
        array.kind == ExprKind::Ident(*a),
        cx.env.local_elem(a) matches Some(t) && t.is_long_like(),
        cx.env.stack_of(a) == Some(base),
        cx.env.const_of(&**index) == Some(k),
        k <= 8191,
    ensures
        crate::laws::long::leaves_long(
            w,
            m,
            crate::codegen::assign_global::plan_emit_assign_global(cx, name, value),
            (w.symbol)(name@),
            m.long_at(m.bp + base + 4 * k),
        ),
{
    let lo = crate::isa::global(name);
    let hi = crate::isa::global2(name);
    let off = crate::isa::scaled(k, 4);
    let plan = crate::codegen::assign_global::plan_emit_assign_global(cx, name, value);
    assert(plan == crate::codegen::assign_global::plan_global_long_local_elem(cx, name, value));
    assert(off == 4 * k);
    let steps = plan->Emit_0;
    let from = crate::isa::bp_plus(base, off);
    let from2 = crate::isa::bp_plus2(base, off);
    let m1 = crate::laws::steps::load_word(w, m, steps, 0, Reg::Ax, from2);
    let m2 = crate::laws::steps::load_word(w, m1, steps, 1, Reg::Dx, from);
    crate::laws::assign::halves_stored(
        w,
        m,
        m2,
        steps,
        2,
        lo,
        hi,
        Operand::Reg(Reg::Dx),
        Operand::Reg(Reg::Ax),
    );
}

/// The code for a compound assignment to a 32-bit element at a constant
/// place is one step on both its words.
proof fn long_compound_plan<'a>(
    cx: Cx<'a>,
    array: &'a String,
    indices: &'a Vec<Expr>,
    op: BinOp,
    value: &'a Expr,
    from_postfix: bool,
) -> (halves: (Addr<'a>, Addr<'a>))
    requires
        selects_long(*cx.env, array, crate::codegen::array_assign::each(indices)),
    ensures
        ({
            let list = crate::codegen::array_assign::each(indices);
            let ty = cx.env.var_type(array)->0;
            let (off, leaf) = crate::codegen::env::const_offset(cx.env, ty, list, 0)->0;
            let base = cx.env.local(array)->0.loc->Stack_0;
            &&& halves == if cx.env.is_global(array) {
                (
                    crate::isa::global_at(array, crate::isa::disp(off)),
                    crate::isa::global_at(array, crate::isa::disp2(off)),
                )
            } else {
                (crate::isa::bp_plus(base, off), crate::isa::bp_plus2(base, off))
            }
            &&& crate::codegen::array_compound::plan_emit_array_compound_assign(
                cx,
                array,
                indices,
                op,
                value,
                from_postfix,
            ) == Plan::Emit(
                seq![Step::LongCompound(halves.0, halves.1, op, value, leaf.is_unsigned())],
            )
        }),
{
    let list = crate::codegen::array_assign::each(indices);
    let plan = crate::codegen::array_compound::plan_emit_array_compound_assign(
        cx,
        array,
        indices,
        op,
        value,
        from_postfix,
    );
    let ty = cx.env.var_type(array)->0;
    let (off, leaf) = crate::codegen::env::const_offset(cx.env, ty, list, 0)->0;
    match cx.env.global_type(array) {
        Some(gty) => {
            assert(plan == crate::codegen::array_compound::plan_each_long_const(
                cx,
                array,
                gty,
                list,
                op,
                value,
            ));
            (
                crate::isa::global_at(array, crate::isa::disp(off)),
                crate::isa::global_at(array, crate::isa::disp2(off)),
            )
        },
        None => {
            assert(plan == crate::codegen::array_compound::plan_compound_frame_elem(
                cx,
                array,
                list,
                op,
                value,
                from_postfix,
            ));
            let base = cx.env.local(array)->0.loc->Stack_0;
            (crate::isa::bp_plus(base, off), crate::isa::bp_plus2(base, off))
        },
    }
}

/// `a[k] op= c` for an array of 32-bit integers at file scope or on the
/// stack, constant subscripts, a constant and a direct operator leaves the
/// 32-bit result in the element, with the carry from one word to the other,
/// and nothing else in memory changes.
pub proof fn const_long_compound<'a>(
    w: World<'a>,
    m: Machine,
    cx: Cx<'a>,
    array: &'a String,
    indices: &'a Vec<Expr>,
    op: BinOp,
    value: &'a Expr,
    c: u32,
    from_postfix: bool,
)
    requires
        m.wf(),
        compounds(w, *cx.env),
        selects_long(*cx.env, array, crate::codegen::array_assign::each(indices)),
        cx.env.const_of(value) == Some(c),
        crate::isa::is_direct(op),
    ensures
        ({
            let at = crate::laws::element::const_place(
                w,
                m,
                *cx.env,
                array,
                crate::codegen::array_assign::each(indices),
            );
            crate::laws::long::leaves_long(
                w,
                m,
                crate::codegen::array_compound::plan_emit_array_compound_assign(
                    cx,
                    array,
                    indices,
                    op,
                    value,
                    from_postfix,
                ),
                at,
                crate::machine::long_result(op, m.long_at(at), c as int),
            )
        }),
{
    let (lo, hi) = long_compound_plan(cx, array, indices, op, value, from_postfix);
    let list = crate::codegen::array_assign::each(indices);
    let ty = cx.env.var_type(array)->0;
    let (off, leaf) = crate::codegen::env::const_offset(cx.env, ty, list, 0)->0;
    let unsigned = leaf.is_unsigned();
    let steps = seq![Step::LongCompound(lo, hi, op, value, unsigned)];
    assert(crate::laws::steps::are_halves(w, m, lo, hi));
    let after = behind_compound(w, m, lo, hi, op, value, unsigned);
    crate::machine::step_on(w, m, steps, 0, after);
    crate::machine::step_end(w, after, steps, 1);
}

/// Memory that agrees outside a pair of words does so wherever the address
/// of the pair is cut to 16 bits.
proof fn same_but_wraps(one: Map<int, int>, other: Map<int, int>, near: int, at: int)
    requires
        crate::machine::wrap(near) == crate::machine::wrap(at),
        crate::machine::same_but(one, other, near, 4),
    ensures
        crate::machine::same_but(one, other, at, 4),
{
    reveal(crate::machine::same_but);
    assert forall|b: int|
        crate::machine::wrap(b - at) >= 4 && 0 <= b < 0x1_0000 implies #[trigger] one[b]
        == other[b] by {
        vstd::arithmetic::div_mod::lemma_sub_mod_noop(b, near, 0x1_0000);
        vstd::arithmetic::div_mod::lemma_sub_mod_noop(b, at, 0x1_0000);
    }
}

/// A pair of words is found wherever its address is cut to 16 bits.
proof fn long_place_wraps(mem: Map<int, int>, near: int, at: int)
    requires
        crate::machine::wrap(near) == crate::machine::wrap(at),
    ensures
        crate::machine::word_in(mem, near) == crate::machine::word_in(mem, at),
        crate::machine::word_in(mem, near + 2) == crate::machine::word_in(mem, at + 2),
{
    crate::laws::element::word_place_wraps(mem, near);
    crate::laws::element::word_place_wraps(mem, at);
    crate::laws::element::word_place_wraps(mem, near + 2);
    crate::laws::element::word_place_wraps(mem, at + 2);
    vstd::arithmetic::div_mod::lemma_add_mod_noop(near, 2, 0x1_0000);
    vstd::arithmetic::div_mod::lemma_add_mod_noop(at, 2, 0x1_0000);
}

/// A pair of words written, the high word first, at an address that agrees
/// with another in 16 bits.
pub proof fn pair_written(
    one: Map<int, int>,
    two: Map<int, int>,
    three: Map<int, int>,
    near: int,
    at: int,
    high: int,
    low: int,
)
    requires
        0 <= high < 0x1_0000,
        0 <= low < 0x1_0000,
        two == crate::machine::put_word(one, near + 2, high),
        three == crate::machine::put_word(two, near, low),
        crate::machine::wrap(near) == crate::machine::wrap(at),
    ensures
        crate::machine::word_in(three, at) == low,
        crate::machine::word_in(three, at + 2) == high,
        crate::machine::same_but(three, one, at, 4),
{
    crate::machine::word_written(one, near + 2, high);
    crate::machine::word_written(two, near, low);
    assert(crate::machine::apart(near, near + 2));
    crate::machine::same_but_below(one, two, three, near, 2, 2);
    long_place_wraps(three, near, at);
    same_but_wraps(three, one, near, at);
}

/// A constant stored as a pair of words through a register.
pub proof fn const_through<'a>(
    w: World<'a>,
    m: Machine,
    steps: Seq<Step<'a>>,
    lo: Addr<'a>,
    hi: Addr<'a>,
    c: u32,
    near: int,
    at: int,
)
    requires
        m.wf(),
        steps == seq![
            crate::codegen::emitter::mov(
                crate::isa::word(hi),
                Operand::<'a>::Imm(crate::isa::hi16(c)),
            ),
            crate::codegen::emitter::mov(
                crate::isa::word(lo),
                Operand::<'a>::Imm(crate::isa::lo16(c)),
            ),
        ],
        lo is At || lo is GlobalAt,
        m.locate(w, lo) == Some(near),
        m.locate(w, hi) == Some(near + 2),
        crate::machine::wrap(near) == crate::machine::wrap(at),
    ensures
        crate::laws::long::leaves_long(w, m, Plan::Emit(steps), at, c as int),
{
    let high = Operand::<'a>::Imm(crate::isa::hi16(c));
    let low = Operand::<'a>::Imm(crate::isa::lo16(c));
    let m1 = crate::laws::steps::store_word(w, m, steps, 0, hi, high);
    assert(m1.locate(w, lo) == Some(near));
    let m2 = crate::laws::steps::store_word(w, m1, steps, 1, lo, low);
    crate::machine::step_end(w, m2, steps, 2);
    pair_written(
        m.mem,
        m1.mem,
        m2.mem,
        near,
        at,
        c as int / 0x1_0000,
        c as int % 0x1_0000,
    );
}

/// Whether a name stands for a local array of 32-bit integers in the stack
/// frame at an offset.
pub open spec fn is_frame_longs(env: Env, array: String, base: i16) -> bool {
    &&& env.global_type(&array) is None
    &&& env.local(&array) matches Some(l) && l.loc == LocalLocation::Stack(base)
    &&& env.local_elem(&array) matches Some(t) && t.is_long_like()
}

/// The code for a constant stored in a 32-bit element on the stack: the
/// address goes into `bx`, and both words are stored through it.
proof fn frame_long_plan<'a>(
    cx: Cx<'a>,
    array: &'a String,
    indices: &'a Vec<Expr>,
    base: i16,
    value: &'a Expr,
    c: u32,
)
    requires
        is_frame_longs(*cx.env, *array, base),
        indices@.len() == 1,
        cx.env.const_of(&indices@[0]) is None,
        cx.env.const_of(value) == Some(c),
        value.kind is IntLit,
        crate::codegen::array_addr::plan_emit_array_addr_to_bx(
            cx,
            &indices@[0],
            base,
            4,
        ) is Emit,
    ensures
        crate::codegen::array_assign::plan_emit_array_assign(cx, array, indices, value)
            == Plan::Emit(
            crate::codegen::array_addr::plan_emit_array_addr_to_bx(
                cx,
                &indices@[0],
                base,
                4,
            )->Emit_0 + seq![
                crate::codegen::emitter::mov(
                    crate::isa::word(crate::isa::at2(Reg::Bx)),
                    Operand::<'a>::Imm(crate::isa::hi16(c)),
                ),
                crate::codegen::emitter::mov(
                    crate::isa::word(crate::isa::at(Reg::Bx)),
                    Operand::<'a>::Imm(crate::isa::lo16(c)),
                ),
            ],
        ),
{
    let list = crate::codegen::array_assign::each(indices);
    let index = &indices@[0];
    assert(list =~= seq![index]);
    let ty = &cx.env.local(array)->0.ty;
    let plan = crate::codegen::array_assign::plan_emit_array_assign(cx, array, indices, value);
    assert(crate::codegen::env::const_offset(cx.env, ty, list, 0) is None);
    assert(plan == crate::codegen::array_assign::plan_elem_frame_variable(
        cx,
        base,
        ty,
        list,
        value,
    ));
}

/// `a[i] = c` for an array of 32-bit integers on the stack, a variable, a
/// sum, a call or another computed subscript and a constant leaves the
/// constant in both words that lie `i` elements behind the start of the
/// array. Nothing else in memory changes but by the evaluation of the
/// subscript.
pub proof fn frame_long_written<'a>(
    w: World<'a>,
    m: Machine,
    cx: Cx<'a>,
    array: &'a String,
    indices: &'a Vec<Expr>,
    base: i16,
    value: &'a Expr,
    c: u32,
)
    requires
        m.wf(),
        is_frame_longs(*cx.env, *array, base),
        indices@.len() == 1,
        cx.env.const_of(&indices@[0]) is None,
        crate::laws::address::frame_subscript(w, m, cx, &indices@[0]) is Some,
        cx.env.const_of(value) == Some(c),
        value.kind is IntLit,
    ensures
        ({
            let (v, then_on) = crate::laws::address::frame_subscript(
                w,
                m,
                cx,
                &indices@[0],
            )->0;
            crate::laws::long::leaves_long_since(
                w,
                m,
                then_on,
                crate::codegen::array_assign::plan_emit_array_assign(cx, array, indices, value),
                m.bp + base + 4 * v,
                c as int,
            )
        }),
{
    let index = &indices@[0];
    let (v, then_on) = crate::laws::address::frame_subscript(w, m, cx, index)->0;
    crate::laws::address::frame_element_address(w, m, cx, index, base, 4);
    frame_long_plan(cx, array, indices, base, value, c);
    let a = crate::codegen::array_addr::plan_emit_array_addr_to_bx(cx, index, base, 4)->Emit_0;
    let middle = crate::machine::run(w, m, a, 0)->Through_0;
    let lo = crate::isa::at(Reg::Bx);
    let hi = crate::isa::at2(Reg::Bx);
    let b = seq![
        crate::codegen::emitter::mov(
            crate::isa::word(hi),
            Operand::<'a>::Imm(crate::isa::hi16(c)),
        ),
        crate::codegen::emitter::mov(
            crate::isa::word(lo),
            Operand::<'a>::Imm(crate::isa::lo16(c)),
        ),
    ];
    crate::laws::address::first_part(w, m, a, b, middle);
    const_through(w, middle, b, lo, hi, c, middle.bx, m.bp + base + 4 * v);
}

/// Whether a name stands for a file-scope array of 32-bit integers.
pub open spec fn is_global_longs(env: Env, array: String) -> bool {
    &&& env.global_elem(&array) matches Some(t) && t.is_long_like()
    &&& !env.has(&array)
}

/// The code for a constant stored in a 32-bit element of a file-scope array:
/// the subscript is doubled twice in `bx`, and both words are stored.
proof fn global_long_plan<'a>(
    cx: Cx<'a>,
    array: &'a String,
    indices: &'a Vec<Expr>,
    i: &'a String,
    value: &'a Expr,
    c: u32,
)
    requires
        is_global_longs(*cx.env, *array),
        indices@.len() == 1,
        indices@[0].kind == ExprKind::Ident(*i),
        cx.env.local(i) matches Some(l) && !l.ty.is_char_like(),
        cx.env.const_of(&indices@[0]) is None,
        cx.env.const_of(value) == Some(c),
        value.kind is IntLit,
        crate::codegen::array_addr::plan_name_into_bx(cx, i) is Emit,
    ensures
        crate::codegen::array_assign::plan_emit_array_assign(cx, array, indices, value)
            == Plan::Emit(
            crate::codegen::array_addr::plan_name_into_bx(cx, i)->Emit_0 + (
            crate::codegen::emitter::shl1(crate::isa::bx()).times(2) + seq![
                crate::codegen::emitter::mov(
                    crate::isa::word(crate::isa::elem2(array, Reg::Bx)),
                    Operand::<'a>::Imm(crate::isa::hi16(c)),
                ),
                crate::codegen::emitter::mov(
                    crate::isa::word(crate::isa::elem(array, Reg::Bx)),
                    Operand::<'a>::Imm(crate::isa::lo16(c)),
                ),
            ]),
        ),
{
    let list = crate::codegen::array_assign::each(indices);
    let index = &indices@[0];
    assert(list =~= seq![index]);
    let gty = cx.env.global_type(array)->0;
    assert(crate::codegen::env::const_offset(cx.env, gty, list, 0) is None);
    let plan = crate::codegen::array_assign::plan_emit_array_assign(cx, array, indices, value);
    assert(plan == crate::codegen::array_assign::plan_assign_global_elem(
        cx,
        array,
        gty,
        list,
        value,
    ));
    assert(plan == crate::codegen::array_assign::plan_elem_global_long(
        cx,
        array,
        gty,
        list,
        value,
    ));
    assert(plan->Emit_0 =~= crate::codegen::array_addr::plan_name_into_bx(cx, i)->Emit_0 + (
    crate::codegen::emitter::shl1(crate::isa::bx()).times(2) + seq![
        crate::codegen::emitter::mov(
            crate::isa::word(crate::isa::elem2(array, Reg::Bx)),
            Operand::<'a>::Imm(crate::isa::hi16(c)),
        ),
        crate::codegen::emitter::mov(
            crate::isa::word(crate::isa::elem(array, Reg::Bx)),
            Operand::<'a>::Imm(crate::isa::lo16(c)),
        ),
    ]));
}

/// `a[i] = c` for a file-scope array of 32-bit integers, a local integer `i`
/// and a constant leaves the constant in both words that lie `i` elements
/// behind the start of the array, and nothing else in memory changes.
pub proof fn global_long_written<'a>(
    w: World<'a>,
    m: Machine,
    cx: Cx<'a>,
    array: &'a String,
    indices: &'a Vec<Expr>,
    i: &'a String,
    value: &'a Expr,
    c: u32,
)
    requires
        m.wf(),
        is_global_longs(*cx.env, *array),
        indices@.len() == 1,
        indices@[0].kind == ExprKind::Ident(*i),
        crate::laws::address::local_value(w, m, *cx.env, *i) is Some,
        cx.env.const_of(&indices@[0]) is None,
        cx.env.const_of(value) == Some(c),
        value.kind is IntLit,
    ensures
        crate::laws::long::leaves_long(
            w,
            m,
            crate::codegen::array_assign::plan_emit_array_assign(cx, array, indices, value),
            (w.symbol)(array@) + 4 * crate::laws::address::local_value(w, m, *cx.env, *i)->0,
            c as int,
        ),
{
    let v = crate::laws::address::local_value(w, m, *cx.env, *i)->0;
    let a = crate::codegen::array_addr::plan_name_into_bx(cx, i)->Emit_0;
    let m1 = crate::laws::address::variable_in_bx(w, m, m, cx, i);
    global_long_plan(cx, array, indices, i, value, c);
    let shifts = crate::codegen::emitter::shl1(crate::isa::bx::<'a>()).times(2);
    let m2 = crate::laws::address::doublings(w, m1, Reg::Bx, 2);
    vstd::arithmetic::power2::lemma2_to64();
    let lo = crate::isa::elem(array, Reg::Bx);
    let hi = crate::isa::elem2(array, Reg::Bx);
    let b = seq![
        crate::codegen::emitter::mov(
            crate::isa::word(hi),
            Operand::<'a>::Imm(crate::isa::hi16(c)),
        ),
        crate::codegen::emitter::mov(
            crate::isa::word(lo),
            Operand::<'a>::Imm(crate::isa::lo16(c)),
        ),
    ];
    crate::laws::address::first_part(w, m, a, shifts + b, m1);
    crate::laws::address::first_part(w, m1, shifts, b, m2);
    let at = (w.symbol)(array@);
    crate::laws::address::sum_wraps(at, 4 * v);
    const_through(w, m2, b, lo, hi, c, at + m2.bx, at + 4 * v);
}

} // verus!
