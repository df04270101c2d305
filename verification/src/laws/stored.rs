//! Values of every form stored in array elements.

use vstd::prelude::*;
use crate::ast::{BinOp, Expr, ExprKind, Type, UpdateOp, UpdatePosition};
use crate::codegen::emitter::{Cx, Plan, Step};
use crate::codegen::env::{Env, LocalLocation};
use crate::isa::{Addr, Mnemonic, Operand, Reg, Width};
use crate::laws::line::{puts_byte, puts_word};
use crate::laws::target::{is_worth_when_stored, put_at, stored_at, stored_behind, stores};
use crate::machine::{Machine, Outcome, World};

verus! {

/// `a[k] = e` for a file-scope array with constant subscripts and a constant
/// or computed value leaves the value in the element, as a character or as a
/// word. No other memory and no register changes that holds a variable.
pub proof fn global_const_element_stored<'a>(
    w: World<'a>,
    m: Machine,
    cx: Cx<'a>,
    array: &'a String,
    indices: &'a Vec<Expr>,
    value: &'a Expr,
    leaf: &'a Type,
    off: i32,
    x: int,
)
    requires
        m.wf(),
        !cx.env.has(array),
        cx.env.global_type(array) matches Some(gty) && crate::codegen::env::const_offset(
            cx.env,
            gty,
            crate::codegen::array_assign::each(indices),
            0,
        ) == Some((off, leaf)),
        !leaf.is_long_like(),
        crate::codegen::array_assign::function_name(cx.env, value) is None,
        -0x8000 <= off <= 0x7FFF,
        is_worth_when_stored(w, m, cx, value, x),
    ensures
        stores(
            w,
            m,
            crate::codegen::array_assign::plan_emit_array_assign(cx, array, indices, value),
            leaf.is_char_like(),
            (w.symbol)(array@) + off,
            x,
        ),
{
    let plan = crate::codegen::array_assign::plan_emit_array_assign(cx, array, indices, value);
    let list = crate::codegen::array_assign::each(indices);
    let gty = cx.env.global_type(array)->0;
    assert(plan == crate::codegen::array_assign::plan_elem_global_const(
        cx,
        array,
        gty,
        list,
        value,
    ));
    let to = crate::isa::global_at(array, crate::isa::disp(off));
    stored_at(w, m, cx, leaf.is_char_like(), to, value, x, (w.symbol)(array@) + off);
}

/// `a[k] = e` for an array of words on the stack with constant subscripts and
/// a computed value leaves the value in the element. No other memory and no
/// register changes that holds a variable.
pub proof fn frame_const_element_computed<'a>(
    w: World<'a>,
    m: Machine,
    cx: Cx<'a>,
    array: &'a String,
    indices: &'a Vec<Expr>,
    value: &'a Expr,
    x: int,
)
    requires
        m.wf(),
        crate::laws::element::selects_word(
            *cx.env,
            array,
            crate::codegen::array_assign::each(indices),
        ),
        cx.env.global_type(array) is None,
        cx.env.const_of(value) is None,
        value.kind !is StringLit,
        value.kind matches ExprKind::Ident(n) ==> cx.env.word_reg_of(&n) is None && (
        cx.env.has(&n) || cx.env.is_global(&n)),
        is_worth_when_stored(w, m, cx, value, x),
    ensures
        puts_word(
            w,
            m,
            crate::codegen::array_assign::plan_emit_array_assign(cx, array, indices, value),
            crate::laws::element::const_place(
                w,
                m,
                *cx.env,
                array,
                crate::codegen::array_assign::each(indices),
            ),
            x,
        ),
{
    let plan = crate::codegen::array_assign::plan_emit_array_assign(cx, array, indices, value);
    let list = crate::codegen::array_assign::each(indices);
    let l = cx.env.local(array)->0;
    let base = l.loc->Stack_0;
    let off = crate::laws::element::const_distance(*cx.env, l.ty, list);
    assert(plan == crate::codegen::array_assign::plan_elem_frame_const(
        cx,
        base,
        &l.ty,
        list,
        value,
    ));
    let to = crate::isa::bp_plus(base, crate::isa::sat16(off));
    assert(plan->Emit_0 =~= crate::codegen::common::plan_store_value(
        cx,
        false,
        to,
        value,
    )->Emit_0);
    let at = crate::laws::element::const_place(w, m, *cx.env, array, list);
    stored_at(w, m, cx, false, to, value, x, at);
}

/// `t[k] = f` for a table of pointers on the stack and a function leaves the
/// address of the function in the element. No other memory and no register
/// changes that holds a variable.
pub proof fn frame_function_stored<'a>(
    w: World<'a>,
    m: Machine,
    cx: Cx<'a>,
    array: &'a String,
    indices: &'a Vec<Expr>,
    value: &'a Expr,
    f: &'a String,
    base: i16,
    k: u32,
)
    requires
        m.wf(),
        indices@.len() == 1,
        cx.env.const_of(&indices@[0]) == Some(k),
        crate::codegen::array_assign::function_name(cx.env, value) == Some(f),
        cx.env.local_elem(array) matches Some(t) && t.pointee() is Some && t.size() == 2,
        cx.env.stack_of(array) == Some(base),
        k < 0x4000,
        base + 2 * k <= 0x7FFF,
    ensures
        puts_word(
            w,
            m,
            crate::codegen::array_assign::plan_emit_array_assign(cx, array, indices, value),
            m.bp + base + 2 * k,
            crate::machine::wrap((w.symbol)(f@)),
        ),
{
    let plan = crate::codegen::array_assign::plan_emit_array_assign(cx, array, indices, value);
    let list = crate::codegen::array_assign::each(indices);
    assert(plan == crate::codegen::array_assign::plan_elem_function_local(
        cx,
        array,
        list,
        value,
    ));
    let to = crate::isa::bp_plus(base, crate::isa::sat16(crate::isa::scaled(k, 2)));
    let s = crate::isa::offset_of_code(f);
    let steps = plan->Emit_0;
    let at = m.bp + base + 2 * k;
    let x = crate::machine::wrap((w.symbol)(f@));
    let after = put_at(w, m, steps, 0, false, to, s, at, at, x);
    crate::machine::step_end(w, after, steps, 1);
}

/// `t[k] = f` for a file-scope table of pointers and a function leaves the
/// address of the function in the element. No other memory and no register
/// changes that holds a variable.
pub proof fn global_function_stored<'a>(
    w: World<'a>,
    m: Machine,
    cx: Cx<'a>,
    array: &'a String,
    indices: &'a Vec<Expr>,
    value: &'a Expr,
    f: &'a String,
    k: u32,
)
    requires
        m.wf(),
        indices@.len() == 1,
        cx.env.const_of(&indices@[0]) == Some(k),
        crate::codegen::array_assign::function_name(cx.env, value) == Some(f),
        !cx.env.has(array),
        cx.env.global_elem(array) matches Some(t) && t.pointee() is Some && t.size() == 2,
        k < 0x4000,
    ensures
        puts_word(
            w,
            m,
            crate::codegen::array_assign::plan_emit_array_assign(cx, array, indices, value),
            (w.symbol)(array@) + 2 * k,
            crate::machine::wrap((w.symbol)(f@)),
        ),
{
    let plan = crate::codegen::array_assign::plan_emit_array_assign(cx, array, indices, value);
    let list = crate::codegen::array_assign::each(indices);
    assert(plan == crate::codegen::array_assign::plan_elem_function_global(
        cx,
        array,
        list,
        value,
    ));
    let to = crate::isa::global_at(array, crate::isa::plus(crate::isa::uscaled(k, 2) as i64));
    let s = crate::isa::offset_of_code(f);
    let steps = plan->Emit_0;
    let at = (w.symbol)(array@) + 2 * k;
    let x = crate::machine::wrap((w.symbol)(f@));
    let after = put_at(w, m, steps, 0, false, to, s, at, at, x);
    crate::machine::step_end(w, after, steps, 1);
}

/// `p[k] = c` for a pointer in a register to characters, words or 32-bit
/// integers leaves the constant where `p` points, `k` elements further on,
/// and nothing else in memory changes.
pub proof fn near_element_written<'a>(
    w: World<'a>,
    m: Machine,
    cx: Cx<'a>,
    array: &'a String,
    indices: &'a Vec<Expr>,
    value: &'a Expr,
    t: &'a Type,
    r: Reg,
    k: u32,
    c: u32,
)
    requires
        m.wf(),
        indices@.len() == 1,
        cx.env.const_of(&indices@[0]) == Some(k),
        cx.env.const_of(value) == Some(c),
        crate::codegen::array_assign::function_name(cx.env, value) is None,
        cx.env.local(array) matches Some(l) && l.loc == LocalLocation::Reg(r) && l.ty.pointee()
            == Some(t) && !(l.ty is FarPointer),
        cx.env.local_elem(array) is None,
        t.is_countable(),
        k * t.size() <= 0x7FFF,
        m.reg(r) is Some,
    ensures
        crate::laws::rows::leaves_typed(
            w,
            m,
            crate::codegen::array_assign::plan_emit_array_assign(cx, array, indices, value),
            m.reg(r)->0 + k * t.size(),
            *t,
            c,
        ),
{
    let plan = crate::codegen::array_assign::plan_emit_array_assign(cx, array, indices, value);
    let list = crate::codegen::array_assign::each(indices);
    let l = cx.env.local(array)->0;
    assert(crate::isa::spec_scales(k, t.size() as u16));
    assert(plan == crate::codegen::array_assign::plan_elem_near(cx, l, t, k, value));
    let d = crate::isa::signed_of(crate::isa::uscaled(k, t.size() as u16));
    assert(d == k * t.size());
    let lo = crate::isa::at_disp::<'a>(r, crate::isa::plus(d));
    let hi = crate::isa::at_disp::<'a>(r, crate::isa::Disp::Plus((d + 2) as i64));
    let first = Seq::<Step<'a>>::empty();
    crate::machine::step_end(w, m, first, 0);
    let at = m.reg(r)->0 + k * t.size();
    crate::laws::rows::typed_behind(w, m, first, m, *t, lo, hi, c, at, at);
    assert(plan->Emit_0 =~= first + crate::laws::rows::typed_store(*t, lo, hi, c));
}

/// `p[k] = e` for a file-scope pointer to integers and a constant or computed
/// value leaves the value where `p` points, `k` words further on. No other
/// memory and no register changes that holds a variable.
pub proof fn global_pointer_element_stored<'a>(
    w: World<'a>,
    m: Machine,
    cx: Cx<'a>,
    array: &'a String,
    indices: &'a Vec<Expr>,
    value: &'a Expr,
    t: &'a Type,
    k: u32,
    x: int,
)
    requires
        m.wf(),
        indices@.len() == 1,
        cx.env.const_of(&indices@[0]) == Some(k),
        crate::codegen::array_assign::function_name(cx.env, value) is None,
        !cx.env.has(array),
        cx.env.global_type(array) matches Some(gty) && gty.pointee() == Some(t)
            && gty.spec_array_elem() is None,
        crate::codegen::env::is_plain_int(t),
        k < 0x4000,
        is_worth_when_stored(w, m, cx, value, x),
    ensures
        puts_word(
            w,
            m,
            crate::codegen::array_assign::plan_emit_array_assign(cx, array, indices, value),
            m.word_at((w.symbol)(array@)) + 2 * k,
            x,
        ),
{
    let plan = crate::codegen::array_assign::plan_emit_array_assign(cx, array, indices, value);
    let list = crate::codegen::array_assign::each(indices);
    let gty = cx.env.global_type(array)->0;
    assert(plan == crate::codegen::array_assign::plan_elem_global_pointer(
        cx,
        array,
        gty,
        list,
        value,
    ));
    let (first, m1) = crate::laws::pointed::word_in_bx(w, m, crate::isa::global(array));
    let d = crate::isa::disp(crate::isa::scaled(k, 2));
    assert(crate::machine::distance(d) == 2 * k);
    let to = crate::isa::at_disp(Reg::Bx, d);
    let at = m.word_at((w.symbol)(array@)) + 2 * k;
    stored_behind(w, m, cx, first, m1, false, to, value, x, at);
}

/// `p[k] = c` for a file-scope pointer to 32-bit integers and a constant
/// leaves both halves of the constant where `p` points, `k` elements further
/// on, and nothing else in memory changes.
pub proof fn global_pointer_long_written<'a>(
    w: World<'a>,
    m: Machine,
    cx: Cx<'a>,
    array: &'a String,
    indices: &'a Vec<Expr>,
    value: &'a Expr,
    t: &'a Type,
    k: u32,
    c: u32,
)
    requires
        m.wf(),
        indices@.len() == 1,
        cx.env.const_of(&indices@[0]) == Some(k),
        cx.env.const_of(value) == Some(c),
        crate::codegen::array_assign::function_name(cx.env, value) is None,
        !cx.env.has(array),
        cx.env.global_type(array) matches Some(gty) && gty.pointee() == Some(t)
            && gty.spec_array_elem() is None,
        t.is_long_like(),
        k < 0x1000,
    ensures
        crate::laws::long::leaves_long(
            w,
            m,
            crate::codegen::array_assign::plan_emit_array_assign(cx, array, indices, value),
            m.word_at((w.symbol)(array@)) + 4 * k,
            c as int,
        ),
{
    let plan = crate::codegen::array_assign::plan_emit_array_assign(cx, array, indices, value);
    let list = crate::codegen::array_assign::each(indices);
    let gty = cx.env.global_type(array)->0;
    assert(plan == crate::codegen::array_assign::plan_elem_global_pointer_long(
        cx,
        array,
        gty,
        list,
        value,
    ));
    let (first, m1) = crate::laws::pointed::word_in_bx(w, m, crate::isa::global(array));
    let d = crate::isa::disp(crate::isa::scaled(k, 4));
    assert(crate::machine::distance(d) == 4 * k);
    let lo = crate::isa::at_disp::<'a>(Reg::Bx, d);
    let hi = crate::isa::at_disp::<'a>(Reg::Bx, crate::isa::disp2(crate::isa::scaled(k, 4)));
    let near = m.word_at((w.symbol)(array@)) + 4 * k;
    crate::laws::rows::typed_behind(w, m, first, m1, *t, lo, hi, c, near, near);
    assert(plan->Emit_0 =~= first + crate::laws::rows::typed_store(*t, lo, hi, c));
}

/// What a value is worth where a character is stored: a constant, a local
/// character, or anything else as it is computed, widened or not.
pub open spec fn is_char_worth<'a>(
    w: World<'a>,
    m: Machine,
    cx: Cx<'a>,
    value: &'a Expr,
    narrow: bool,
    x: int,
) -> bool {
    match (cx.env.const_of(value), crate::codegen::array_assign::char_source(cx.env, value)) {
        (Some(c), _) => x == c as int % 0x1_0000,
        (None, Some(o)) => m.read(w, o, true) == Some(x) && 0 <= x < 0x100,
        (None, None) => crate::laws::rows::is_computed_as(
            w,
            m,
            Cx { skip_widen: narrow || cx.skip_widen, ..cx },
            value,
            x,
        ),
    }
}

/// A byte operand moved into `al`.
pub proof fn byte_in_al<'a>(
    w: World<'a>,
    m: Machine,
    steps: Seq<Step<'a>>,
    i: int,
    o: Operand<'a>,
    x: int,
) -> (after: Machine)
    requires
        m.wf(),
        0 <= i < steps.len(),
        steps[i] == Step::Op2(Mnemonic::Mov, Operand::Reg(Reg::Al), o),
        m.read(w, o, true) == Some(x),
        0 <= x < 0x100,
    ensures
        crate::machine::run(w, m, steps, i) == crate::machine::run(w, after, steps, i + 1),
        after.wf(),
        crate::laws::byte::same_but_al(after, m),
        after.ax % 0x100 == x,
{
    crate::laws::byte::low_byte_replaced(m.ax, x);
    let after = Machine { ax: m.ax / 0x100 * 0x100 + x, ..m };
    assert(crate::machine::run_step(w, m, steps[i]) == Some(after));
    crate::machine::step_on(w, m, steps, i, after);
    after
}

/// A character is stored at the address that the code names.
proof fn char_stored_at<'a>(
    w: World<'a>,
    m: Machine,
    cx: Cx<'a>,
    a: Addr<'a>,
    value: &'a Expr,
    narrow: bool,
    x: int,
    at: int,
)
    requires
        m.wf(),
        is_char_worth(w, m, cx, value, narrow, x),
        crate::laws::target::is_kept_address(a),
        m.locate(w, a) matches Some(near) && crate::machine::wrap(near) == crate::machine::wrap(at),
    ensures
        crate::laws::target::puts(
            w,
            m,
            crate::codegen::array_assign::plan_store_char(cx, a, value, narrow),
            true,
            at,
            x,
        ),
{
    let plan = crate::codegen::array_assign::plan_store_char(cx, a, value, narrow);
    match (cx.env.const_of(value), crate::codegen::array_assign::char_source(cx.env, value)) {
        (Some(_), _) => {
            assert(plan == crate::codegen::common::plan_store_value(cx, true, a, value));
            stored_at(w, m, cx, true, a, value, x, at);
        },
        (None, Some(o)) => {
            let steps = plan->Emit_0;
            let near = m.locate(w, a)->0;
            let m1 = byte_in_al(w, m, steps, 0, o, x);
            crate::laws::target::kept_place(w, m, m1, a);
            let after = put_at(w, m1, steps, 1, true, a, crate::isa::al(), near, at, x);
            crate::machine::step_end(w, after, steps, 2);
        },
        (None, None) => {
            let wide = Cx { skip_widen: narrow || cx.skip_widen, ..cx };
            assert(plan == crate::codegen::common::plan_store_value(wide, true, a, value));
            stored_at(w, m, wide, true, a, value, x, at);
        },
    }
}

/// Whether a name stands for a file-scope array of characters.
pub open spec fn is_global_chars(env: Env, array: String) -> bool {
    &&& env.global_elem(&array) matches Some(t) && t.is_char_like()
    &&& !env.has(&array)
}

/// Whether a name stands for a file-scope array of integers.
pub open spec fn is_global_ints(env: Env, array: String) -> bool {
    &&& env.global_elem(&array) matches Some(t) && crate::codegen::env::is_plain_int(t)
    &&& !env.has(&array)
}

/// `s[i] = c` for a file-scope array of characters and a subscript in `si`
/// leaves the low byte of the value in the element. No other memory and no
/// register changes that holds a variable.
pub proof fn global_char_by_si_stored<'a>(
    w: World<'a>,
    m: Machine,
    cx: Cx<'a>,
    array: &'a String,
    indices: &'a Vec<Expr>,
    value: &'a Expr,
    x: int,
)
    requires
        m.wf(),
        indices@.len() == 1,
        cx.env.const_of(&indices@[0]) is None,
        crate::codegen::array_assign::function_name(cx.env, value) is None,
        is_global_chars(*cx.env, *array),
        crate::codegen::array_index::is_in_si(cx.env, &indices@[0]),
        is_char_worth(w, m, cx, value, true, x),
    ensures
        puts_byte(
            w,
            m,
            crate::codegen::array_assign::plan_emit_array_assign(cx, array, indices, value),
            (w.symbol)(array@) + m.si,
            x % 0x100,
        ),
{
    let plan = crate::codegen::array_assign::plan_emit_array_assign(cx, array, indices, value);
    let list = crate::codegen::array_assign::each(indices);
    let gty = cx.env.global_type(array)->0;
    assert(plan == crate::codegen::array_assign::plan_elem_global_si(cx, array, gty, list, value));
    let to = crate::isa::elem(array, Reg::Si);
    char_stored_at(w, m, cx, to, value, true, x, (w.symbol)(array@) + m.si);
}

/// `s[i] = c` for a file-scope array of characters, a subscript in a register
/// that forms no address and a constant or computed value leaves the low byte
/// of the value in the element. No other memory and no register changes that
/// holds a variable.
#[verifier::rlimit(60)]
pub proof fn global_char_by_register_stored<'a>(
    w: World<'a>,
    m: Machine,
    cx: Cx<'a>,
    array: &'a String,
    indices: &'a Vec<Expr>,
    value: &'a Expr,
    i: &'a String,
    r: Reg,
    x: int,
)
    requires
        m.wf(),
        indices@.len() == 1,
        cx.env.const_of(&indices@[0]) is None,
        crate::codegen::array_assign::function_name(cx.env, value) is None,
        is_global_chars(*cx.env, *array),
        indices@[0].kind == ExprKind::Ident(*i),
        cx.env.word_reg_of(i) == Some(r),
        r == Reg::Di,
        is_worth_when_stored(w, m, cx, value, x),
        !crate::codegen::array_assign::is_name(value, i),
    ensures
        puts_byte(
            w,
            m,
            crate::codegen::array_assign::plan_emit_array_assign(cx, array, indices, value),
            (w.symbol)(array@) + m.di,
            x % 0x100,
        ),
{
    let plan = crate::codegen::array_assign::plan_emit_array_assign(cx, array, indices, value);
    let list = crate::codegen::array_assign::each(indices);
    let gty = cx.env.global_type(array)->0;
    assert(plan == crate::codegen::array_assign::plan_elem_global_register(
        cx,
        array,
        gty,
        list,
        value,
    ));
    let at = (w.symbol)(array@) + m.di;
    match cx.env.const_of(value) {
        Some(_) => {
            let first = seq![
                crate::codegen::emitter::mov(crate::isa::bx::<'a>(), Operand::Reg(r)),
            ];
            let di = Operand::<'a>::Reg(Reg::Di);
            let m1 = crate::laws::steps::move_to_register(w, m, first, 0, Reg::Bx, di);
            crate::machine::step_end(w, m1, first, 1);
            let to = crate::isa::elem(array, Reg::Bx);
            stored_behind(w, m, cx, first, m1, true, to, value, x, at);
            assert(plan->Emit_0 =~= first + crate::codegen::common::plan_store_value(
                cx,
                true,
                to,
                value,
            )->Emit_0);
        },
        None => {
            let steps = plan->Emit_0;
            assert(crate::laws::address::same_variables(m, m));
            let m1 = crate::laws::long::evaluated(w, m, cx, value);
            crate::machine::step_on(w, m, steps, 0, m1);
            let di = Operand::<'a>::Reg(Reg::Di);
            let m2 = crate::laws::steps::move_to_register(w, m1, steps, 1, Reg::Bx, di);
            let to = crate::isa::elem(array, Reg::Bx);
            let after = put_at(w, m2, steps, 2, true, to, crate::isa::al(), at, at, x);
            crate::machine::step_end(w, after, steps, 3);
        },
    }
}

/// `s[i] = i` for a file-scope array of characters and a variable in a
/// register with halves leaves the low byte of the variable in the element.
/// No other memory and no register changes that holds a variable.
pub proof fn global_char_from_subscript_stored<'a>(
    w: World<'a>,
    m: Machine,
    cx: Cx<'a>,
    array: &'a String,
    indices: &'a Vec<Expr>,
    value: &'a Expr,
    i: &'a String,
    r: Reg,
    low: Reg,
)
    requires
        m.wf(),
        indices@.len() == 1,
        cx.env.const_of(&indices@[0]) is None,
        crate::codegen::array_assign::function_name(cx.env, value) is None,
        is_global_chars(*cx.env, *array),
        indices@[0].kind == ExprKind::Ident(*i),
        cx.env.word_reg_of(i) == Some(r),
        crate::codegen::array_assign::is_name(value, i),
        r == Reg::Cx || r == Reg::Dx,
        r.low() == Some(low),
        cx.env.const_of(value) is None,
    ensures
        puts_byte(
            w,
            m,
            crate::codegen::array_assign::plan_emit_array_assign(cx, array, indices, value),
            (w.symbol)(array@) + m.reg(r)->0,
            m.reg(r)->0 % 0x100,
        ),
{
    let plan = crate::codegen::array_assign::plan_emit_array_assign(cx, array, indices, value);
    let list = crate::codegen::array_assign::each(indices);
    let gty = cx.env.global_type(array)->0;
    assert(plan == crate::codegen::array_assign::plan_elem_global_register(
        cx,
        array,
        gty,
        list,
        value,
    ));
    let steps = plan->Emit_0;
    let to = crate::isa::elem(array, Reg::Bx);
    let x = m.reg(r)->0;
    let at = (w.symbol)(array@) + x;
    let m1 = crate::laws::steps::move_to_register(w, m, steps, 0, Reg::Bx, Operand::Reg(r));
    let m2 = byte_in_al(w, m1, steps, 1, Operand::Reg(low), x % 0x100);
    let after = put_at(w, m2, steps, 2, true, to, crate::isa::al(), at, at, x);
    crate::machine::step_end(w, after, steps, 3);
}

/// `a[i] = y` for a file-scope array of integers, a local variable as the
/// subscript and an operand as the value leaves the value in the element `i`.
/// No other memory and no register changes that holds a variable.
#[verifier::rlimit(60)]
pub proof fn global_int_stored<'a>(
    w: World<'a>,
    m: Machine,
    cx: Cx<'a>,
    array: &'a String,
    indices: &'a Vec<Expr>,
    value: &'a Expr,
    i: &'a String,
    x: int,
)
    requires
        m.wf(),
        indices@.len() == 1,
        cx.env.const_of(&indices@[0]) is None,
        crate::codegen::array_assign::function_name(cx.env, value) is None,
        is_global_ints(*cx.env, *array),
        crate::codegen::array_assign::is_operand(cx.env, value),
        cx.env.facts(value).source matches Some(src) && crate::laws::address::is_worth(
            w,
            m,
            src.word,
            x,
        ),
        indices@[0].kind == ExprKind::Ident(*i),
        crate::laws::address::local_value(w, m, *cx.env, *i) is Some,
    ensures
        puts_word(
            w,
            m,
            crate::codegen::array_assign::plan_emit_array_assign(cx, array, indices, value),
            (w.symbol)(array@) + 2 * crate::laws::address::local_value(w, m, *cx.env, *i)->0,
            x,
        ),
{
    let plan = crate::codegen::array_assign::plan_emit_array_assign(cx, array, indices, value);
    let list = crate::codegen::array_assign::each(indices);
    let gty = cx.env.global_type(array)->0;
    let text = &(cx.env.facts(value).source->0).word;
    let s = Operand::Text(text);
    let to = crate::isa::elem(array, Reg::Bx);
    assert(plan == crate::codegen::array_assign::plan_elem_int_general(
        cx,
        array,
        list[0],
        &cx.env.facts(value).source->0,
    ));
    let v = crate::laws::address::local_value(w, m, *cx.env, *i)->0;
    let at = (w.symbol)(array@) + 2 * v;
    let a = crate::codegen::array_addr::plan_name_into_bx(cx, i)->Emit_0;
    let m1 = crate::laws::address::variable_in_bx(w, m, m, cx, i);
    let b = seq![
        crate::codegen::emitter::shl1(crate::isa::bx::<'a>()),
        crate::codegen::emitter::mov(crate::isa::word(to), s),
    ];
    assert(plan->Emit_0 =~= a + b);
    crate::laws::address::first_part(w, m, a, b, m1);
    doubled_and_stored(w, m, m1, b, to, array, s, v, x);
}

/// A subscript in `bx` doubled, and an operand stored in the element of a
/// file-scope array of words.
proof fn doubled_and_stored<'a>(
    w: World<'a>,
    m: Machine,
    now: Machine,
    steps: Seq<Step<'a>>,
    to: Addr<'a>,
    array: &'a String,
    s: Operand<'a>,
    v: int,
    x: int,
)
    requires
        now.wf(),
        crate::laws::address::same_variables(now, m),
        now.bx == v,
        to == crate::isa::elem(array, Reg::Bx),
        0 <= x < 0x1_0000,
        forall|n: Machine|
            crate::laws::address::same_variables(n, m) ==> #[trigger] n.read(w, s, false) == Some(
                x,
            ),
        steps == seq![
            crate::codegen::emitter::shl1(crate::isa::bx::<'a>()),
            crate::codegen::emitter::mov(crate::isa::word(to), s),
        ],
    ensures
        crate::machine::run(w, now, steps, 0) matches Outcome::Through(after) && after.word_at(
            (w.symbol)(array@) + 2 * v,
        ) == x && crate::machine::same_but(after.mem, m.mem, (w.symbol)(array@) + 2 * v, 2)
            && crate::laws::line::same_holders(after, m) && after.wf(),
{
    let at = (w.symbol)(array@) + 2 * v;
    let m1 = crate::laws::steps::shift_register(w, now, steps, 0, Mnemonic::Shl, Reg::Bx);
    reveal(crate::laws::steps::shifted_once);
    assert(m1.bx == crate::machine::wrap(2 * v));
    crate::laws::address::sum_wraps((w.symbol)(array@), 2 * v);
    assert(m1.read(w, s, false) == Some(x));
    let after = put_at(
        w,
        m1,
        steps,
        1,
        false,
        to,
        s,
        (w.symbol)(array@) + m1.bx,
        at,
        x,
    );
    crate::machine::step_end(w, after, steps, 2);
}

/// `a[e] = y` for a file-scope array of integers, a computed subscript and an
/// operand as the value leaves the value in the element. No other memory and
/// no register changes that holds a variable.
#[verifier::rlimit(60)]
pub proof fn global_int_stored_at_computed<'a>(
    w: World<'a>,
    m: Machine,
    cx: Cx<'a>,
    array: &'a String,
    indices: &'a Vec<Expr>,
    value: &'a Expr,
    i: int,
    x: int,
)
    requires
        m.wf(),
        indices@.len() == 1,
        cx.env.const_of(&indices@[0]) is None,
        crate::codegen::array_assign::function_name(cx.env, value) is None,
        is_global_ints(*cx.env, *array),
        crate::codegen::array_assign::is_operand(cx.env, value),
        cx.env.facts(value).source matches Some(src) && crate::laws::address::is_worth(
            w,
            m,
            src.word,
            x,
        ),
        indices@[0].kind is BinOp,
        crate::laws::rows::is_computed_as(w, m, cx, &indices@[0], i),
    ensures
        puts_word(
            w,
            m,
            crate::codegen::array_assign::plan_emit_array_assign(cx, array, indices, value),
            (w.symbol)(array@) + 2 * i,
            x,
        ),
{
    let plan = crate::codegen::array_assign::plan_emit_array_assign(cx, array, indices, value);
    let list = crate::codegen::array_assign::each(indices);
    let gty = cx.env.global_type(array)->0;
    let text = &(cx.env.facts(value).source->0).word;
    let s = Operand::Text(text);
    let to = crate::isa::elem(array, Reg::Bx);
    assert(plan == crate::codegen::array_assign::plan_elem_int_general(
        cx,
        array,
        list[0],
        &cx.env.facts(value).source->0,
    ));
    let a = seq![
        crate::codegen::emitter::to_ax(cx, list[0]),
        crate::codegen::emitter::mov(crate::isa::bx::<'a>(), crate::isa::ax()),
    ];
    assert(crate::laws::address::same_variables(m, m));
    let m1 = crate::laws::long::evaluated(w, m, cx, list[0]);
    crate::machine::step_on(w, m, a, 0, m1);
    let ax = Operand::<'a>::Reg(Reg::Ax);
    let m2 = crate::laws::steps::move_to_register(w, m1, a, 1, Reg::Bx, ax);
    crate::machine::step_end(w, m2, a, 2);
    let b = seq![
        crate::codegen::emitter::shl1(crate::isa::bx::<'a>()),
        crate::codegen::emitter::mov(crate::isa::word(to), s),
    ];
    assert(plan->Emit_0 =~= a + b);
    crate::laws::address::first_part(w, m, a, b, m2);
    doubled_and_stored(w, m, m2, b, to, array, s, i, x);
}

/// `a[i++] = y` and `a[i--] = y` for a file-scope array of integers, a
/// variable in a register and an operand as the value leave the value in the
/// element that `i` selects before it is stepped, and step it. No other
/// memory changes.
#[verifier::rlimit(60)]
pub proof fn global_int_stored_and_stepped<'a>(
    w: World<'a>,
    m: Machine,
    cx: Cx<'a>,
    array: &'a String,
    indices: &'a Vec<Expr>,
    value: &'a Expr,
    i: &'a String,
    op: UpdateOp,
    r: Reg,
    x: int,
)
    requires
        m.wf(),
        indices@.len() == 1,
        cx.env.const_of(&indices@[0]) is None,
        crate::codegen::array_assign::function_name(cx.env, value) is None,
        is_global_ints(*cx.env, *array),
        crate::codegen::array_assign::is_operand(cx.env, value),
        cx.env.facts(value).source matches Some(src) && crate::laws::address::is_worth(
            w,
            m,
            src.word,
            x,
        ),
        indices@[0].kind == (ExprKind::Update { target: *i, op, position: UpdatePosition::Post }),
        cx.env.word_reg_of(i) == Some(r),
        r == Reg::Si || r == Reg::Di,
    ensures
        ({
            let plan = crate::codegen::array_assign::plan_emit_array_assign(cx, array, indices, value);
            let at = (w.symbol)(array@) + 2 * m.reg(r)->0;
            &&& plan matches Plan::Emit(steps)
            &&& crate::machine::run(w, m, steps, 0) matches Outcome::Through(after)
            &&& after.word_at(at) == x
            &&& crate::machine::same_but(after.mem, m.mem, at, 2)
            &&& crate::laws::line::same_holders(
                after,
                m.with_reg(
                    r,
                    crate::machine::word_result(
                        crate::laws::copy::update_op(op),
                        m.reg(r)->0,
                        1,
                    ),
                )->0,
            )
        }),
{
    let plan = crate::codegen::array_assign::plan_emit_array_assign(cx, array, indices, value);
    let list = crate::codegen::array_assign::each(indices);
    let gty = cx.env.global_type(array)->0;
    let text = &(cx.env.facts(value).source->0).word;
    let s = Operand::Text(text);
    let to = crate::isa::elem(array, Reg::Bx);
    assert(plan == crate::codegen::array_assign::plan_elem_int_post(
        cx,
        array,
        list[0],
        &cx.env.facts(value).source->0,
    ));
    let a = seq![crate::codegen::emitter::mov(crate::isa::bx::<'a>(), Operand::Reg(r))];
    let b = seq![
        crate::codegen::emitter::shl1(crate::isa::bx::<'a>()),
        crate::codegen::emitter::mov(crate::isa::word(to), s),
    ];
    let c = seq![Step::Op1(crate::isa::update(op), Operand::<'a>::Reg(r))];
    assert(plan->Emit_0 =~= a + b + c);
    let m1 = crate::laws::steps::move_to_register(w, m, a, 0, Reg::Bx, Operand::Reg(r));
    crate::machine::step_end(w, m1, a, 1);
    crate::laws::address::first_part(w, m, a, b, m1);
    doubled_and_stored(w, m, m1, b, to, array, s, m.reg(r)->0, x);
    let m2 = crate::machine::run(w, m1, b, 0)->Through_0;
    crate::laws::address::first_part(w, m, a + b, c, m2);
    let by = crate::laws::copy::update_op(op);
    let after = crate::laws::word::step_register(w, m2, c, 0, by, r);
    crate::machine::step_end(w, after, c, 1);
}

/// A value in `ax` stored behind code that keeps `ax` and forms the offset of
/// an element in `bx`.
#[verifier::rlimit(60)]
pub proof fn subscript_keeps_ax<'a>(
    w: World<'a>,
    m: Machine,
    cx: Cx<'a>,
    i: &'a Expr,
    t: &'a Type,
) -> (r: (Seq<Step<'a>>, Machine))
    requires
        m.wf(),
        t.is_countable(),
        crate::codegen::array_addr::index_shifts(t.size() as u16) is Some,
        !crate::codegen::array_addr::names_char(cx.env, i),
        crate::laws::address::subscript_value(w, m, *cx.env, i) is Some,
    ensures
        crate::codegen::array_addr::plan_emit_index_into_bx(cx, i, t) == Plan::Emit(r.0),
        crate::machine::run(w, m, r.0, 0) == Outcome::Through(r.1),
        r.1.wf(),
        r.1.ax == m.ax,
        r.1.bx == crate::machine::wrap(
            crate::laws::address::subscript_value(w, m, *cx.env, i)->0 * t.size(),
        ),
        crate::laws::address::same_variables(r.1, m),
{
    let v = crate::laws::address::subscript_value(w, m, *cx.env, i)->0;
    let n = crate::codegen::array_addr::index_shifts(t.size() as u16)->0 as nat;
    let from = match &cx.env.facts(i).int_addr {
        Some(addr) => Operand::Mem(Width::Word, Addr::Text(addr)),
        None => match &i.kind {
            ExprKind::Ident(name) => Operand::Reg(cx.env.word_reg_of(name)->0),
            _ => Operand::Reg(Reg::Bx),
        },
    };
    let a = seq![crate::codegen::emitter::mov(crate::isa::bx::<'a>(), from)];
    let b = crate::codegen::emitter::shl1(Operand::<'a>::Reg(Reg::Bx)).times(n);
    let plan = crate::codegen::array_addr::plan_emit_index_into_bx(cx, i, t);
    assert(plan->Emit_0 =~= a + b);
    match &cx.env.facts(i).int_addr {
        Some(addr) => crate::machine::word_range(m.mem, (w.place)(addr@)),
        None => {},
    }
    let m1 = crate::laws::steps::move_to_register(w, m, a, 0, Reg::Bx, from);
    crate::machine::step_end(w, m1, a, 1);
    let m2 = crate::laws::address::doublings(w, m1, Reg::Bx, n);
    crate::laws::address::first_part(w, m, a, b, m1);
    vstd::arithmetic::power2::lemma2_to64();
    assert(vstd::arithmetic::power2::pow2(n) == t.size());
    (a + b, m2)
}

/// `a[i] = e` for a file-scope array of words, a variable subscript and a
/// computed value leaves the value in the element. No other memory and no
/// register changes that holds a variable.
#[verifier::rlimit(60)]
pub proof fn global_word_stored<'a>(
    w: World<'a>,
    m: Machine,
    cx: Cx<'a>,
    array: &'a String,
    indices: &'a Vec<Expr>,
    value: &'a Expr,
    t: &'a Type,
    x: int,
)
    requires
        m.wf(),
        indices@.len() == 1,
        cx.env.const_of(&indices@[0]) is None,
        crate::codegen::array_assign::function_name(cx.env, value) is None,
        !cx.env.has(array),
        cx.env.global_elem(array) == Some(t),
        t.is_countable(),
        t.is_int_like(),
        t.size() == 2,
        !crate::codegen::env::is_plain_int(t) || !crate::codegen::array_assign::is_operand(
            cx.env,
            value,
        ),
        cx.env.const_of(value) is None,
        crate::laws::rows::is_computed_as(w, m, cx, value, x),
        !crate::codegen::array_addr::names_char(cx.env, &indices@[0]),
        crate::laws::address::subscript_value(w, m, *cx.env, &indices@[0]) is Some,
        cx.env.facts(&indices@[0]).int_addr is None ==> (indices@[0].kind matches ExprKind::Ident(
            n,
        ) && (cx.env.word_reg_of(&n) == Some(Reg::Si) || cx.env.word_reg_of(&n) == Some(Reg::Di))),
    ensures
        puts_word(
            w,
            m,
            crate::codegen::array_assign::plan_emit_array_assign(cx, array, indices, value),
            (w.symbol)(array@) + crate::laws::address::subscript_value(
                w,
                m,
                *cx.env,
                &indices@[0],
            )->0 * 2,
            x,
        ),
{
    let plan = crate::codegen::array_assign::plan_emit_array_assign(cx, array, indices, value);
    let list = crate::codegen::array_assign::each(indices);
    let gty = cx.env.global_type(array)->0;
    assert(plan == crate::codegen::array_assign::plan_elem_global_small(
        cx,
        array,
        gty,
        list,
        value,
    ));
    let v = crate::laws::address::subscript_value(w, m, *cx.env, list[0])->0;
    let a = seq![crate::codegen::emitter::to_ax(cx, value)];
    assert(crate::laws::address::same_variables(m, m));
    let m1 = crate::laws::long::evaluated(w, m, cx, value);
    crate::machine::step_on(w, m, a, 0, m1);
    crate::machine::step_end(w, m1, a, 1);
    assert(crate::laws::address::subscript_value(w, m1, *cx.env, list[0]) == Some(v));
    let (b, m2) = subscript_keeps_ax(w, m1, cx, list[0], t);
    crate::laws::address::first_part(w, m, a, b, m1);
    let to = crate::isa::elem(array, Reg::Bx);
    let c = seq![crate::codegen::emitter::mov(crate::isa::word(to), crate::isa::ax::<'a>())];
    let at = (w.symbol)(array@) + v * 2;
    crate::laws::address::sum_wraps((w.symbol)(array@), v * 2);
    let near = (w.symbol)(array@) + m2.bx;
    let after = put_at(w, m2, c, 0, false, to, crate::isa::ax(), near, at, x);
    crate::machine::step_end(w, after, c, 1);
    crate::laws::address::first_part(w, m, a + b, c, m2);
    assert(plan->Emit_0 =~= a + b + c);
}

/// Whether a name stands for an array on the stack at an offset, with
/// characters or integers as elements.
pub open spec fn is_frame_array(env: Env, array: String, base: i16, t: Type) -> bool {
    &&& env.global_type(&array) is None
    &&& env.local(&array) matches Some(l) && l.loc == LocalLocation::Stack(base) && l.ty.pointee()
        is None
    &&& env.local_elem(&array) matches Some(e) && *e == t
    &&& t.is_char_like() || crate::codegen::env::is_plain_int(&t)
}

/// What a variable subscript of an array on the stack is worth that changes
/// nothing.
pub open spec fn steady_subscript<'a>(
    w: World<'a>,
    m: Machine,
    cx: Cx<'a>,
    index: &'a Expr,
) -> Option<int> {
    match crate::laws::address::frame_subscript(w, m, cx, index) {
        Some((v, n)) => if n == m { Some(v) } else { None },
        None => None,
    }
}

/// `a[i] = y` for an array of integers on the stack, a variable subscript and
/// a variable in a register leaves the value of the variable in the element.
/// No other memory and no register changes that holds a variable.
pub proof fn frame_element_from_register<'a>(
    w: World<'a>,
    m: Machine,
    cx: Cx<'a>,
    array: &'a String,
    indices: &'a Vec<Expr>,
    value: &'a Expr,
    y: &'a String,
    base: i16,
    t: Type,
    r: Reg,
)
    requires
        m.wf(),
        is_frame_array(*cx.env, *array, base, t),
        !t.is_char_like(),
        indices@.len() == 1,
        cx.env.const_of(&indices@[0]) is None,
        steady_subscript(w, m, cx, &indices@[0]) is Some,
        value.kind == ExprKind::Ident(*y),
        cx.env.word_reg_of(y) == Some(r),
        r == Reg::Si || r == Reg::Di,
        cx.env.const_of(value) is None,
    ensures
        puts_word(
            w,
            m,
            crate::codegen::array_assign::plan_emit_array_assign(cx, array, indices, value),
            m.bp + base + steady_subscript(w, m, cx, &indices@[0])->0 * 2,
            m.reg(r)->0,
        ),
{
    let plan = crate::codegen::array_assign::plan_emit_array_assign(cx, array, indices, value);
    let list = crate::codegen::array_assign::each(indices);
    let l = cx.env.local(array)->0;
    assert(plan == crate::codegen::array_assign::plan_elem_frame_variable(
        cx,
        base,
        &l.ty,
        list,
        value,
    ));
    let v = steady_subscript(w, m, cx, list[0])->0;
    let at = m.bp + base + v * 2;
    crate::laws::address::frame_element_address(w, m, cx, list[0], base, 2);
    let a = crate::codegen::array_addr::plan_emit_array_addr_to_bx(cx, list[0], base, 2)->Emit_0;
    let m1 = crate::machine::run(w, m, a, 0)->Through_0;
    let to = crate::isa::at(Reg::Bx);
    let from = Operand::<'a>::Reg(r);
    let b = seq![crate::codegen::emitter::mov(crate::isa::word(to), from)];
    assert(plan->Emit_0 =~= a + b);
    crate::laws::address::first_part(w, m, a, b, m1);
    let after = put_at(w, m1, b, 0, false, to, from, m1.bx, at, m.reg(r)->0);
    crate::machine::step_end(w, after, b, 1);
}

/// `a[i] = e` for an array of characters or integers on the stack, a variable
/// subscript and a computed value leaves the value in the element, as a
/// character or as a word; a character is not widened on the way. No other
/// memory and no register changes that holds a variable.
#[verifier::rlimit(60)]
pub proof fn frame_element_from_value<'a>(
    w: World<'a>,
    m: Machine,
    cx: Cx<'a>,
    array: &'a String,
    indices: &'a Vec<Expr>,
    value: &'a Expr,
    base: i16,
    t: Type,
    x: int,
)
    requires
        m.wf(),
        is_frame_array(*cx.env, *array, base, t),
        indices@.len() == 1,
        cx.env.const_of(&indices@[0]) is None,
        steady_subscript(w, m, cx, &indices@[0]) is Some,
        cx.env.const_of(value) is None,
        value.kind !is Ident,
        crate::codegen::array_assign::name_plus_const(cx.env, value) is None,
        crate::laws::rows::is_computed_as(
            w,
            m,
            Cx { skip_widen: t.is_char_like() || cx.skip_widen, ..cx },
            value,
            x,
        ),
    ensures
        stores(
            w,
            m,
            crate::codegen::array_assign::plan_emit_array_assign(cx, array, indices, value),
            t.is_char_like(),
            m.bp + base + steady_subscript(w, m, cx, &indices@[0])->0 * t.size(),
            x,
        ),
{
    let plan = crate::codegen::array_assign::plan_emit_array_assign(cx, array, indices, value);
    let list = crate::codegen::array_assign::each(indices);
    let l = cx.env.local(array)->0;
    assert(plan == crate::codegen::array_assign::plan_elem_frame_variable(
        cx,
        base,
        &l.ty,
        list,
        value,
    ));
    let byte = t.is_char_like();
    let size = t.size() as u16;
    let v = steady_subscript(w, m, cx, list[0])->0;
    let at = m.bp + base + v * t.size();
    crate::laws::address::frame_element_address(w, m, cx, list[0], base, size);
    let a = crate::codegen::array_addr::plan_emit_array_addr_to_bx(
        cx,
        list[0],
        base,
        size,
    )->Emit_0;
    let m1 = crate::machine::run(w, m, a, 0)->Through_0;
    let to = crate::isa::at(Reg::Bx);
    let wide = Cx { skip_widen: byte || cx.skip_widen, ..cx };
    let second = crate::codegen::common::plan_store_value(wide, byte, to, value);
    assert(plan->Emit_0 =~= a + second->Emit_0);
    stored_behind(w, m, wide, a, m1, byte, to, value, x, at);
}

} // verus!
