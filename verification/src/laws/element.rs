//! Array elements are read and written where they lie.

use vstd::prelude::*;
use crate::ast::{BinOp, Expr, ExprKind, Type};
use crate::codegen::emitter::{Cx, Plan, Step};
use crate::codegen::env::{Env, LocalLocation};
use crate::isa::{Addr, Operand, Reg, Width};
use crate::machine::{Machine, Outcome, World};

verus! {

/// Whether a name stands for a local array in the stack frame at an offset,
/// with words as elements.
pub open spec fn is_frame_words(env: Env, array: String, base: i16) -> bool {
    &&& env.global_type(&array) is None
    &&& env.local(&array) matches Some(l) && l.loc == LocalLocation::Stack(base)
    &&& env.local_elem(&array) matches Some(t) && t.is_int_like()
}

/// Whether a name stands for a file-scope array with words as elements.
pub open spec fn is_global_words(env: Env, array: String) -> bool {
    &&& env.global_elem(&array) matches Some(t) && t.is_int_like()
    &&& !env.has(&array)
}

/// Whether a plan goes through and leaves a word in `ax`, with memory
/// unchanged.
pub open spec fn leaves_ax<'a>(w: World<'a>, m: Machine, plan: Plan<'a>, value: int) -> bool {
    &&& plan matches Plan::Emit(steps)
    &&& crate::machine::run(w, m, steps, 0) matches Outcome::Through(after)
    &&& after.ax == value
    &&& after.mem == m.mem
}

/// Code, and then a word loaded into `ax` through `bx`.
proof fn load_behind<'a>(
    w: World<'a>,
    m: Machine,
    a: Seq<Step<'a>>,
    steps: Seq<Step<'a>>,
    middle: Machine,
    from: Addr<'a>,
)
    requires
        middle.wf(),
        crate::machine::run(w, m, a, 0) == Outcome::Through(middle),
        steps == a + seq![crate::codegen::emitter::mov(crate::isa::ax(), crate::isa::word(from))],
        middle.locate(w, from) is Some,
    ensures
        crate::machine::run(w, m, steps, 0) matches Outcome::Through(after) && after.ax
            == middle.word_at(middle.locate(w, from)->0) && after.mem == middle.mem,
{
    let b = seq![crate::codegen::emitter::mov(crate::isa::ax(), crate::isa::word(from))];
    crate::laws::flow::run_parts(w, m, a, b, 0);
    crate::laws::flow::run_second(w, middle, a, b, 0);
    let after = crate::laws::steps::load_word(w, middle, b, 0, Reg::Ax, from);
    crate::machine::step_end(w, after, b, 1);
}

/// Whether a plan goes through and leaves in `ax` the word at a place, with
/// memory as it was at an earlier moment.
pub open spec fn leaves_word_in_ax<'a>(
    w: World<'a>,
    m: Machine,
    since: Machine,
    plan: Plan<'a>,
    at: int,
) -> bool {
    &&& plan matches Plan::Emit(steps)
    &&& crate::machine::run(w, m, steps, 0) matches Outcome::Through(after)
    &&& after.ax == since.word_at(at)
    &&& after.mem == since.mem
}

/// `a[i]` for an array of words on the stack and a variable, a sum, a call
/// or another computed subscript reads the word that lies `i` words behind
/// the start of the array.
pub proof fn frame_element_read<'a>(
    w: World<'a>,
    m: Machine,
    cx: Cx<'a>,
    array: &'a Expr,
    index: &'a Expr,
    name: &'a String,
    base: i16,
)
    requires
        m.wf(),
        array.kind == ExprKind::Ident(*name),
        is_frame_words(*cx.env, *name, base),
        crate::laws::address::frame_subscript(w, m, cx, index) is Some,
        cx.env.const_of(index) is None,
        cx.env.facts(index).frame_disp is None,
    ensures
        ({
            let (v, then_on) = crate::laws::address::frame_subscript(w, m, cx, index)->0;
            leaves_word_in_ax(
                w,
                m,
                then_on,
                crate::codegen::array_index::plan_emit_array_index_to_ax(cx, array, index),
                m.bp + base + 2 * v,
            )
        }),
{
    let (v, then_on) = crate::laws::address::frame_subscript(w, m, cx, index)->0;
    let plan = crate::codegen::array_index::plan_emit_array_index_to_ax(cx, array, index);
    let ty = &cx.env.local(name)->0.ty;
    let list = crate::codegen::array_index::subscripts(array).push(index);
    assert(list =~= seq![index]);
    assert(crate::codegen::env::const_offset(cx.env, ty, list, 0) is None);
    assert(plan == crate::codegen::array_index::plan_index_frame_variable(cx, base, ty, list));
    crate::laws::address::frame_element_address(w, m, cx, index, base, 2);
    let a = crate::codegen::array_addr::plan_emit_array_addr_to_bx(cx, index, base, 2)->Emit_0;
    let middle = crate::machine::run(w, m, a, 0)->Through_0;
    load_behind(w, m, a, plan->Emit_0, middle, crate::isa::at(Reg::Bx));
    word_place_wraps(then_on.mem, m.bp + base + v * 2);
}

/// A word is found wherever its address is cut to 16 bits.
pub proof fn word_place_wraps(mem: Map<int, int>, a: int)
    ensures
        crate::machine::word_in(mem, crate::machine::wrap(a)) == crate::machine::word_in(mem, a),
{
    reveal(crate::machine::word_in);
    assert(crate::machine::wrap(crate::machine::wrap(a) + 1) == crate::machine::wrap(a + 1));
}

/// `a[i]` for a file-scope array of words and an integer or character
/// variable `i` reads the word that lies `i` words behind the start of the
/// array.
pub proof fn global_element_read<'a>(
    w: World<'a>,
    m: Machine,
    cx: Cx<'a>,
    array: &'a Expr,
    index: &'a Expr,
    name: &'a String,
)
    requires
        m.wf(),
        array.kind == ExprKind::Ident(*name),
        index.kind is Ident,
        is_global_words(*cx.env, *name),
        crate::laws::address::subscript_value(w, m, *cx.env, index) is Some,
        cx.env.const_of(index) is None,
        cx.env.facts(index).frame_disp is None,
    ensures
        leaves_ax(
            w,
            m,
            crate::codegen::array_index::plan_emit_array_index_to_ax(cx, array, index),
            m.word_at(
                (w.symbol)(name@) + 2 * crate::laws::address::subscript_value(
                    w,
                    m,
                    *cx.env,
                    index,
                )->0,
            ),
        ),
{
    let t = cx.env.global_elem(name)->0;
    assert(t.is_countable());
    crate::laws::address::subscript_scales(w, m, cx, index, t);
    global_read_plan(cx, array, index, name);
    let a = crate::codegen::array_addr::plan_emit_index_into_bx(cx, index, t);
    read_behind_symbol(
        w,
        m,
        name,
        a->Emit_0,
        crate::codegen::array_index::plan_emit_array_index_to_ax(cx, array, index),
        crate::laws::address::subscript_value(w, m, *cx.env, index)->0,
    );
}

/// A word read behind a symbol, with twice a number in `bx`.
proof fn read_behind_symbol<'a>(
    w: World<'a>,
    m: Machine,
    name: &'a String,
    a: Seq<Step<'a>>,
    plan: Plan<'a>,
    v: int,
)
    requires
        plan == Plan::Emit(
            a + seq![
                crate::codegen::emitter::mov(
                    crate::isa::ax(),
                    crate::isa::word(
                        crate::isa::elem_at(name, crate::isa::Disp::Zero, Reg::Bx),
                    ),
                ),
            ],
        ),
        crate::machine::run(w, m, a, 0) matches Outcome::Through(middle) && middle.wf()
            && middle.bx == crate::machine::wrap(v * 2) && middle.mem == m.mem,
    ensures
        leaves_ax(w, m, plan, m.word_at((w.symbol)(name@) + 2 * v)),
{
    let middle = crate::machine::run(w, m, a, 0)->Through_0;
    let from = crate::isa::elem_at(name, crate::isa::Disp::Zero, Reg::Bx);
    load_behind(w, m, a, plan->Emit_0, middle, from);
    let at = (w.symbol)(name@);
    word_place_wraps(m.mem, at + v * 2);
    word_place_wraps(m.mem, at + crate::machine::wrap(v * 2));
    assert(crate::machine::wrap(at + crate::machine::wrap(v * 2)) == crate::machine::wrap(
        at + v * 2,
    ));
}

/// The code for an element of a file-scope array: the subscript goes into
/// `bx`, and the element is loaded behind the name of the array.
proof fn global_read_plan<'a>(cx: Cx<'a>, array: &'a Expr, index: &'a Expr, name: &'a String)
    requires
        array.kind == ExprKind::Ident(*name),
        index.kind is Ident,
        is_global_words(*cx.env, *name),
        cx.env.const_of(index) is None,
        cx.env.facts(index).frame_disp is None,
        crate::codegen::array_addr::plan_emit_index_into_bx(
            cx,
            index,
            cx.env.global_elem(name)->0,
        ) is Emit,
    ensures
        crate::codegen::array_index::plan_emit_array_index_to_ax(cx, array, index) == Plan::Emit(
            crate::codegen::array_addr::plan_emit_index_into_bx(
                cx,
                index,
                cx.env.global_elem(name)->0,
            )->Emit_0 + seq![
                crate::codegen::emitter::mov(
                    crate::isa::ax(),
                    crate::isa::word(
                        crate::isa::elem_at(name, crate::isa::Disp::Zero, Reg::Bx),
                    ),
                ),
            ],
        ),
{
    let gty = cx.env.global_type(name)->0;
    let list = crate::codegen::array_index::subscripts(array).push(index);
    assert(list =~= seq![index]);
    assert(crate::codegen::env::const_offset(cx.env, gty, list, 0) is None);
    assert(crate::codegen::array_index::plan_emit_array_index_to_ax(cx, array, index)
        == crate::codegen::array_index::plan_index_global(cx, name, gty, list));
    assert(crate::codegen::array_index::plan_index_global(cx, name, gty, list)
        == crate::codegen::array_index::plan_index_global_variable(cx, name, gty, list));
}

/// The offset that constant subscripts select in a type.
pub open spec fn const_distance<'a>(env: Env, ty: Type, indices: Seq<&'a Expr>) -> i32 {
    match crate::codegen::env::const_offset(&env, &ty, indices, 0) {
        Some((off, _)) => off,
        None => 0i32,
    }
}

/// Where constant subscripts of a variable lead: the offset they select
/// behind the start of the variable.
pub open spec fn const_place<'a>(
    w: World<'a>,
    m: Machine,
    env: Env,
    array: &'a String,
    indices: Seq<&'a Expr>,
) -> int {
    match env.global_type(array) {
        Some(gty) => (w.symbol)(array@) + const_distance(env, *gty, indices),
        None => {
            let l = env.local(array)->0;
            m.bp + l.loc->Stack_0 + const_distance(env, l.ty, indices)
        },
    }
}

/// Whether constant subscripts of a variable select a word: the variable is
/// an array, at file scope without a local that hides it or in the stack
/// frame, and the offset fits 16 bits.
pub open spec fn selects_word<'a>(env: Env, array: &'a String, indices: Seq<&'a Expr>) -> bool {
    let ty = env.var_type(array);
    &&& ty is Some
    &&& ty->0 is Array
    &&& crate::codegen::env::const_offset(&env, ty->0, indices, 0) matches Some((off, leaf))
        && leaf.is_int_like() && -32768 <= off <= 32767
    &&& crate::laws::long::is_plain_name(env, *array)
}

/// `a[k] = c` with constant subscripts and a constant value leaves the value
/// in the element, and nothing else in memory changes.
pub proof fn const_element_written<'a>(
    w: World<'a>,
    m: Machine,
    cx: Cx<'a>,
    array: &'a String,
    indices: &'a Vec<Expr>,
    value: &'a Expr,
    c: u32,
)
    requires
        m.wf(),
        selects_word(*cx.env, array, crate::codegen::array_assign::each(indices)),
        cx.env.const_of(value) == Some(c),
        value.kind is IntLit,
    ensures
        ({
            let plan = crate::codegen::array_assign::plan_emit_array_assign(
                cx,
                array,
                indices,
                value,
            );
            let at = const_place(
                w,
                m,
                *cx.env,
                array,
                crate::codegen::array_assign::each(indices),
            );
            &&& plan matches Plan::Emit(steps)
            &&& crate::machine::run(w, m, steps, 0) matches Outcome::Through(after)
            &&& after.word_at(at) == c as int % 0x1_0000
            &&& crate::machine::same_but(after.mem, m.mem, at, 2)
            &&& after.wf()
            &&& after.bp == m.bp
        }),
{
    let list = crate::codegen::array_assign::each(indices);
    let plan = crate::codegen::array_assign::plan_emit_array_assign(cx, array, indices, value);
    let steps = plan->Emit_0;
    let imm = Operand::<'a>::Imm(crate::isa::masked(c, false));
    let at = const_place(w, m, *cx.env, array, list);
    match cx.env.global_type(array) {
        Some(gty) => {
            let off = const_distance(*cx.env, *gty, list);
            assert(plan == crate::codegen::array_assign::plan_elem_global_const(
                cx,
                array,
                gty,
                list,
                value,
            ));
            let to = crate::isa::global_at(array, crate::isa::disp(off));
            assert(steps =~= seq![crate::codegen::emitter::mov(crate::isa::word(to), imm)]);
            let after = crate::laws::steps::store_word(w, m, steps, 0, to, imm);
            crate::machine::step_end(w, after, steps, 1);
        },
        None => {
            let l = cx.env.local(array)->0;
            let base = l.loc->Stack_0;
            let off = const_distance(*cx.env, l.ty, list);
            assert(plan == crate::codegen::array_assign::plan_elem_frame_const(
                cx,
                base,
                &l.ty,
                list,
                value,
            ));
            let to = crate::isa::bp_plus(base, crate::isa::sat16(off));
            assert(steps =~= seq![crate::codegen::emitter::mov(crate::isa::word(to), imm)]);
            let after = crate::laws::steps::store_word(w, m, steps, 0, to, imm);
            crate::machine::step_end(w, after, steps, 1);
        },
    }
    crate::machine::word_written(m.mem, at, c as int % 0x1_0000);
}

/// `a[k]` with a constant subscript reads the element at the place that an
/// assignment to `a[k]` writes.
#[verifier::rlimit(60)]
pub proof fn const_element_read<'a>(
    w: World<'a>,
    m: Machine,
    cx: Cx<'a>,
    name: &'a String,
    array: &'a Expr,
    index: &'a Expr,
)
    requires
        m.wf(),
        array.kind == ExprKind::Ident(*name),
        selects_word(*cx.env, name, seq![index]),
        cx.env.facts(index).frame_disp is None,
    ensures
        leaves_ax(
            w,
            m,
            crate::codegen::array_index::plan_emit_array_index_to_ax(cx, array, index),
            m.word_at(const_place(w, m, *cx.env, name, seq![index])),
        ),
{
    let list = crate::codegen::array_index::subscripts(array).push(index);
    assert(list =~= seq![index]);
    let plan = crate::codegen::array_index::plan_emit_array_index_to_ax(cx, array, index);
    let steps = plan->Emit_0;
    match cx.env.global_type(name) {
        Some(gty) => {
            let off = const_distance(*cx.env, *gty, list);
            assert(plan == crate::codegen::array_index::plan_index_global_const(
                cx,
                name,
                gty,
                list,
            ));
            let from = crate::isa::global_at(name, crate::isa::plus(off as i64));
            assert(steps =~= seq![
                crate::codegen::emitter::mov(crate::isa::ax(), crate::isa::word(from)),
            ]);
            let after = crate::laws::steps::load_word(w, m, steps, 0, Reg::Ax, from);
            crate::machine::step_end(w, after, steps, 1);
        },
        None => {
            let l = cx.env.local(name)->0;
            let base = l.loc->Stack_0;
            let off = const_distance(*cx.env, l.ty, list);
            assert(plan == crate::codegen::array_index::plan_index_frame_const(
                cx,
                base,
                &l.ty,
                list,
            ));
            let from = crate::isa::bp_plus(base, crate::isa::sat16(off));
            assert(steps =~= seq![
                crate::codegen::emitter::mov(crate::isa::ax(), crate::isa::word(from)),
            ]);
            let after = crate::laws::steps::load_word(w, m, steps, 0, Reg::Ax, from);
            crate::machine::step_end(w, after, steps, 1);
        },
    }
}

/// `a[k] op= c` with constant subscripts, a constant value and a direct
/// operator leaves the 16-bit result in the element, and nothing else in
/// memory changes.
pub proof fn const_element_compound<'a>(
    w: World<'a>,
    m: Machine,
    cx: Cx<'a>,
    array: &'a String,
    indices: &'a Vec<Expr>,
    op: BinOp,
    value: &'a Expr,
    c: u32,
    from_postfix: bool,
)
    requires
        m.wf(),
        selects_word(*cx.env, array, crate::codegen::array_assign::each(indices)),
        cx.env.const_of(value) == Some(c),
        crate::isa::is_direct(op),
    ensures
        ({
            let at = const_place(
                w,
                m,
                *cx.env,
                array,
                crate::codegen::array_assign::each(indices),
            );
            crate::laws::word::leaves_word(
                w,
                m,
                crate::codegen::array_compound::plan_emit_array_compound_assign(
                    cx,
                    array,
                    indices,
                    op,
                    value,
                    from_postfix,
                ),
                at,
                crate::machine::word_result(op, m.word_at(at), c as int % 0x1_0000),
            )
        }),
{
    let list = crate::codegen::array_assign::each(indices);
    let plan = crate::codegen::array_compound::plan_emit_array_compound_assign(
        cx,
        array,
        indices,
        op,
        value,
        from_postfix,
    );
    match cx.env.global_type(array) {
        Some(gty) => {
            let off = const_distance(*cx.env, *gty, list);
            assert(plan == crate::codegen::array_compound::plan_each_global_const(
                cx,
                array,
                gty,
                list,
                op,
                value,
                from_postfix,
            ));
            let to = crate::isa::global_at(array, crate::isa::disp(off));
            crate::laws::word::const_applied(w, m, plan->Emit_0, op, to, c);
        },
        None => {
            let l = cx.env.local(array)->0;
            let base = l.loc->Stack_0;
            let off = const_distance(*cx.env, l.ty, list);
            assert(plan == crate::codegen::array_compound::plan_compound_frame_elem(
                cx,
                array,
                list,
                op,
                value,
                from_postfix,
            ));
            let to = crate::isa::bp_plus(base, crate::isa::sat16(off));
            crate::laws::word::const_applied(w, m, plan->Emit_0, op, to, c);
        },
    }
}

/// Code, and then code that leaves a word at a place whose address agrees
/// with another in 16 bits.
pub proof fn written_behind<'a>(
    w: World<'a>,
    m: Machine,
    a: Seq<Step<'a>>,
    b: Seq<Step<'a>>,
    middle: Machine,
    near: int,
    at: int,
    value: int,
)
    requires
        crate::machine::run(w, m, a, 0) == Outcome::Through(middle),
        crate::laws::word::leaves_word(w, middle, Plan::Emit(b), near, value),
        crate::machine::wrap(near) == crate::machine::wrap(at),
    ensures
        crate::machine::run(w, m, a + b, 0) matches Outcome::Through(after) && after.word_at(at)
            == value && crate::machine::same_but(after.mem, middle.mem, at, 2),
{
    crate::laws::flow::run_parts(w, m, a, b, 0);
    crate::laws::flow::run_second(w, middle, a, b, 0);
    let after = crate::machine::run(w, middle, b, 0)->Through_0;
    word_place_wraps(after.mem, near);
    word_place_wraps(after.mem, at);
    reveal(crate::machine::same_but);
    assert forall|c: int|
        crate::machine::wrap(c - at) >= 2 && 0 <= c < 0x1_0000 implies #[trigger] after.mem[c]
        == middle.mem[c] by {
        assert(crate::machine::wrap(c - near) == crate::machine::wrap(c - at));
    }
}

/// `a[i] = c` for an array of words on the stack, a variable, a sum, a call
/// or another computed subscript and a constant leaves the constant in the
/// word that lies `i` words behind the start of the array. Nothing else in
/// memory changes but by the evaluation of the subscript.
pub proof fn frame_element_written<'a>(
    w: World<'a>,
    m: Machine,
    cx: Cx<'a>,
    array: &'a String,
    indices: &'a Vec<Expr>,
    base: i16,
    value: &'a Expr,
    c: u32,
)
    requires
        m.wf(),
        is_frame_words(*cx.env, *array, base),
        indices@.len() == 1,
        cx.env.const_of(&indices@[0]) is None,
        crate::laws::address::frame_subscript(w, m, cx, &indices@[0]) is Some,
        cx.env.const_of(value) == Some(c),
        value.kind is IntLit,
    ensures
        ({
            let plan = crate::codegen::array_assign::plan_emit_array_assign(
                cx,
                array,
                indices,
                value,
            );
            let (v, then_on) = crate::laws::address::frame_subscript(
                w,
                m,
                cx,
                &indices@[0],
            )->0;
            let at = m.bp + base + 2 * v;
            &&& plan matches Plan::Emit(steps)
            &&& crate::machine::run(w, m, steps, 0) matches Outcome::Through(after)
            &&& after.word_at(at) == c as int % 0x1_0000
            &&& crate::machine::same_but(after.mem, then_on.mem, at, 2)
        }),
{
    let list = crate::codegen::array_assign::each(indices);
    let index = &indices@[0];
    let (v, then_on) = crate::laws::address::frame_subscript(w, m, cx, index)->0;
    assert(list =~= seq![index]);
    let ty = &cx.env.local(array)->0.ty;
    let plan = crate::codegen::array_assign::plan_emit_array_assign(cx, array, indices, value);
    assert(crate::codegen::env::const_offset(cx.env, ty, list, 0) is None);
    assert(plan == crate::codegen::array_assign::plan_elem_frame_variable(
        cx,
        base,
        ty,
        list,
        value,
    ));
    crate::laws::address::frame_element_address(w, m, cx, index, base, 2);
    let a = crate::codegen::array_addr::plan_emit_array_addr_to_bx(cx, index, base, 2)->Emit_0;
    let middle = crate::machine::run(w, m, a, 0)->Through_0;
    let to = crate::isa::at(Reg::Bx);
    let imm = Operand::<'a>::Imm(crate::isa::masked(c, false));
    let b = seq![crate::codegen::emitter::mov(crate::isa::word(to), imm)];
    assert(plan->Emit_0 =~= a + b);
    crate::laws::store::const_in_memory(w, middle, b, false, to, c);
    written_behind(
        w,
        m,
        a,
        b,
        middle,
        middle.bx,
        m.bp + base + 2 * v,
        c as int % 0x1_0000,
    );
}

/// `a[i] op= c` for a file-scope array of words, an integer variable `i`, a
/// constant and a direct operator leaves the 16-bit result in the word that
/// lies `i` words behind the start of the array, and nothing else in memory
/// changes.
pub proof fn global_element_compound<'a>(
    w: World<'a>,
    m: Machine,
    cx: Cx<'a>,
    array: &'a String,
    indices: &'a Vec<Expr>,
    op: BinOp,
    value: &'a Expr,
    c: u32,
    from_postfix: bool,
)
    requires
        m.wf(),
        is_global_words(*cx.env, *array),
        indices@.len() == 1,
        crate::laws::address::subscript_value(w, m, *cx.env, &indices@[0]) is Some,
        cx.env.const_of(&indices@[0]) is None,
        cx.env.const_of(value) == Some(c),
        crate::isa::is_direct(op),
    ensures
        ({
            let at = (w.symbol)(array@) + 2 * crate::laws::address::subscript_value(
                w,
                m,
                *cx.env,
                &indices@[0],
            )->0;
            crate::laws::word::leaves_word(
                w,
                m,
                crate::codegen::array_compound::plan_emit_array_compound_assign(
                    cx,
                    array,
                    indices,
                    op,
                    value,
                    from_postfix,
                ),
                at,
                crate::machine::word_result(op, m.word_at(at), c as int % 0x1_0000),
            )
        }),
{
    let index = &indices@[0];
    let v = crate::laws::address::subscript_value(w, m, *cx.env, index)->0;
    let at = (w.symbol)(array@) + 2 * v;
    let t = cx.env.global_elem(array)->0;
    crate::laws::address::subscript_scales(w, m, cx, index, t);
    let a = crate::codegen::array_addr::plan_emit_index_into_bx(cx, index, t)->Emit_0;
    let middle = crate::machine::run(w, m, a, 0)->Through_0;
    let to = crate::isa::elem(array, Reg::Bx);
    let b = element_compound_plan(cx, array, indices, op, value, c, from_postfix);
    let near = (w.symbol)(array@) + middle.bx;
    crate::laws::word::const_applied(w, middle, b, op, to, c);
    assert(middle.bx == crate::machine::wrap(v * 2));
    assert(crate::machine::wrap(near) == crate::machine::wrap(at));
    word_place_wraps(m.mem, near);
    word_place_wraps(m.mem, at);
    written_behind(
        w,
        m,
        a,
        b,
        middle,
        near,
        at,
        crate::machine::word_result(op, m.word_at(at), c as int % 0x1_0000),
    );
}

/// The code for a constant applied to an element of a file-scope array: the
/// subscript goes into `bx`, and one instruction applies the constant.
proof fn element_compound_plan<'a>(
    cx: Cx<'a>,
    array: &'a String,
    indices: &'a Vec<Expr>,
    op: BinOp,
    value: &'a Expr,
    c: u32,
    from_postfix: bool,
) -> (b: Seq<Step<'a>>)
    requires
        is_global_words(*cx.env, *array),
        indices@.len() == 1,
        cx.env.const_of(&indices@[0]) is None,
        cx.env.const_of(value) == Some(c),
        crate::isa::is_direct(op),
        crate::codegen::array_addr::plan_emit_index_into_bx(
            cx,
            &indices@[0],
            cx.env.global_elem(array)->0,
        ) is Emit,
    ensures
        crate::codegen::array_compound::plan_emit_array_compound_assign(
            cx,
            array,
            indices,
            op,
            value,
            from_postfix,
        ) == Plan::Emit(
            crate::codegen::array_addr::plan_emit_index_into_bx(
                cx,
                &indices@[0],
                cx.env.global_elem(array)->0,
            )->Emit_0 + b,
        ),
        b =~= seq![
            Step::Op2(
                crate::isa::direct(op),
                Operand::Mem(Width::Word, crate::isa::elem(array, Reg::Bx)),
                Operand::Imm(crate::isa::lo16(c)),
            ),
        ] || (b =~= seq![
            Step::Op1(
                crate::isa::step_by_one(op),
                Operand::Mem(Width::Word, crate::isa::elem(array, Reg::Bx)),
            ),
        ] && crate::isa::is_additive(op) && crate::isa::lo16(c) == 1),
{
    let gty = cx.env.global_type(array)->0;
    let list = crate::codegen::array_assign::each(indices);
    let index = &indices@[0];
    let t = cx.env.global_elem(array)->0;
    let a = crate::codegen::array_addr::plan_emit_index_into_bx(cx, index, t)->Emit_0;
    assert(list =~= seq![index]);
    assert(crate::codegen::env::const_offset(cx.env, gty, list, 0) is None);
    let plan = crate::codegen::array_compound::plan_emit_array_compound_assign(
        cx,
        array,
        indices,
        op,
        value,
        from_postfix,
    );
    let one = crate::isa::is_additive(op) && crate::isa::lo16(c) == 1;
    let b = if one {
        seq![
            Step::Op1(
                crate::isa::step_by_one(op),
                Operand::Mem(Width::Word, crate::isa::elem(array, Reg::Bx)),
            ),
        ]
    } else {
        seq![
            Step::Op2(
                crate::isa::direct(op),
                Operand::Mem(Width::Word, crate::isa::elem(array, Reg::Bx)),
                Operand::Imm(crate::isa::lo16(c)),
            ),
        ]
    };
    if from_postfix && crate::isa::is_additive(op) && c == 1 {
        assert(plan == crate::codegen::array_compound::plan_each_step(
            cx,
            array,
            gty,
            list,
            op,
            value,
            from_postfix,
        ));
    } else {
        assert(plan == crate::codegen::array_compound::plan_each_global_word(
            cx,
            array,
            gty,
            list,
            op,
            value,
        ));
    }
    assert(plan->Emit_0 =~= a + b);
    b
}

} // verus!
