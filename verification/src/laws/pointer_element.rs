//! Elements behind local pointers are written where they lie.

use vstd::prelude::*;
use crate::ast::{BinOp, Expr, Type};
use crate::codegen::emitter::{Cx, Plan};
use crate::codegen::env::Env;
use crate::isa::{Addr, Disp, Operand, Reg, Width};
use crate::machine::{Machine, Outcome, World};

verus! {

/// Whether a name stands for a local near pointer to characters, words or
/// 32-bit integers whose value is known.
pub open spec fn points_near<'a>(w: World<'a>, m: Machine, env: Env, name: String) -> bool {
    &&& env.global_type(&name) is None
    &&& env.local(&name) matches Some(l) && l.ty.fits() && !(l.ty is FarPointer)
    &&& crate::laws::address::local_value(w, m, env, name) is Some
    &&& env.local_pointee(&name) matches Some(t) && (t.is_char_like() || t.is_int_like()
        || t.is_long_like())
}

/// Whether a subscript behind a pointer to a type is taken from an index
/// register as it is.
pub open spec fn is_indexed<'a>(env: Env, t: Type, index: &'a Expr) -> bool {
    t.size() == 1 && crate::codegen::array_assign::index_reg_of(&env, index) is Some
}

/// What a subscript behind a pointer to a type is worth: an index register
/// or an integer in memory for bytes, else the operand that it is read from;
/// `None` if that operand has no steady value.
pub open spec fn behind_value<'a>(
    w: World<'a>,
    m: Machine,
    env: Env,
    t: Type,
    index: &'a Expr,
) -> Option<int> {
    if is_indexed(env, t, index) {
        m.reg(crate::codegen::array_assign::index_reg_of(&env, index)->0)
    } else {
        match (env.facts(index).int_addr, env.facts(index).source) {
            (Some(addr), _) if t.size() == 1 => Some(m.word_at((w.place)(addr@))),
            (_, Some(src)) => if crate::laws::address::is_worth(
                w,
                m,
                src.word,
                (w.operand)(src.word@, m),
            ) {
                Some((w.operand)(src.word@, m))
            } else {
                None
            },
            _ => None,
        }
    }
}

/// The address of the element `i` behind a local pointer arrives in `bx`:
/// what the pointer holds and the subscript times the size of an element. No
/// variable changes.
pub proof fn pointer_element_address<'a>(
    w: World<'a>,
    m: Machine,
    cx: Cx<'a>,
    name: &'a String,
    t: &'a Type,
    index: &'a Expr,
)
    requires
        m.wf(),
        points_near(w, m, *cx.env, *name),
        cx.env.local_pointee(name) == Some(t),
        !is_indexed(*cx.env, *t, index),
        behind_value(w, m, *cx.env, *t, index) is Some,
    ensures
        ({
            let plan = crate::codegen::array_assign::plan_pointer_elem_addr(cx, name, t, index);
            let p = crate::laws::address::local_value(w, m, *cx.env, *name)->0;
            let i = behind_value(w, m, *cx.env, *t, index)->0;
            &&& plan matches Plan::Emit(steps)
            &&& crate::machine::run(w, m, steps, 0) matches Outcome::Through(after)
            &&& after.wf()
            &&& after.bx == crate::machine::wrap(p + i * t.size())
            &&& crate::laws::address::same_variables(after, m)
        }),
{
    let i = behind_value(w, m, *cx.env, *t, index)->0;
    if t.size() == 1 && cx.env.facts(index).int_addr is Some {
        byte_address(w, m, cx, name, t, index);
        assert(i * 1 == i);
    } else if t.size() == 2 && cx.env.stack_of(name) is Some {
        stack_address(w, m, cx, name, t, index);
    } else {
        general_address(w, m, cx, name, t, index);
    }
}

/// The address of a byte with its subscript in memory.
proof fn byte_address<'a>(
    w: World<'a>,
    m: Machine,
    cx: Cx<'a>,
    name: &'a String,
    t: &'a Type,
    index: &'a Expr,
)
    requires
        m.wf(),
        crate::laws::address::local_value(w, m, *cx.env, *name) is Some,
        t.size() == 1,
        cx.env.facts(index).int_addr is Some,
    ensures
        ({
            let plan = crate::codegen::array_assign::plan_pointer_elem_addr(cx, name, t, index);
            let p = crate::laws::address::local_value(w, m, *cx.env, *name)->0;
            let i = m.word_at((w.place)(cx.env.facts(index).int_addr->0@));
            &&& plan matches Plan::Emit(steps)
            &&& crate::machine::run(w, m, steps, 0) matches Outcome::Through(after)
            &&& after.wf()
            &&& after.bx == crate::machine::wrap(p + i)
            &&& crate::laws::address::same_variables(after, m)
        }),
{
    let addr = &cx.env.facts(index).int_addr->0;
    let plan = crate::codegen::array_assign::plan_pointer_elem_addr(cx, name, t, index);
    assert(plan == crate::codegen::array_assign::plan_elem_pointer_memory(cx, name, t, index));
    let a = crate::codegen::array_addr::plan_name_into_bx(cx, name)->Emit_0;
    let from = Operand::<'a>::Mem(Width::Word, Addr::Text(addr));
    let b = seq![crate::codegen::emitter::add_to(crate::isa::bx(), from)];
    let m1 = crate::laws::address::variable_in_bx(w, m, m, cx, name);
    assert(plan->Emit_0 == a + b);
    crate::laws::address::first_part(w, m, a, b, m1);
    crate::machine::word_range(m.mem, (w.place)(addr@));
    let after = crate::laws::steps::direct_to_register(w, m1, b, 0, BinOp::Add, Reg::Bx, from);
    crate::machine::step_end(w, after, b, 1);
}

/// The address of a word behind a pointer on the stack.
proof fn stack_address<'a>(
    w: World<'a>,
    m: Machine,
    cx: Cx<'a>,
    name: &'a String,
    t: &'a Type,
    index: &'a Expr,
)
    requires
        m.wf(),
        crate::laws::address::local_value(w, m, *cx.env, *name) is Some,
        t.size() == 2,
        cx.env.stack_of(name) is Some,
        cx.env.facts(index).source matches Some(src) && crate::laws::address::is_worth(
            w,
            m,
            src.word,
            (w.operand)(src.word@, m),
        ),
    ensures
        ({
            let plan = crate::codegen::array_assign::plan_pointer_elem_addr(cx, name, t, index);
            let p = crate::laws::address::local_value(w, m, *cx.env, *name)->0;
            let i = (w.operand)(cx.env.facts(index).source->0.word@, m);
            &&& plan matches Plan::Emit(steps)
            &&& crate::machine::run(w, m, steps, 0) matches Outcome::Through(after)
            &&& after.wf()
            &&& after.bx == crate::machine::wrap(p + i * 2)
            &&& crate::laws::address::same_variables(after, m)
        }),
{
    let plan = crate::codegen::array_assign::plan_pointer_elem_addr(cx, name, t, index);
    assert(plan == crate::codegen::array_assign::plan_elem_pointer_stack(cx, name, t, index));
    let steps = plan->Emit_0;
    let off = cx.env.stack_of(name)->0;
    let text = &cx.env.facts(index).source->0.word;
    let i = (w.operand)(text@, m);
    let p = crate::laws::address::local_value(w, m, *cx.env, *name)->0;
    let from = Operand::<'a>::Text(text);
    let ax = Operand::<'a>::Reg(Reg::Ax);
    let m1 = crate::laws::steps::move_to_register(w, m, steps, 0, Reg::Ax, from);
    let m2 = crate::laws::steps::shift_register(
        w,
        m1,
        steps,
        1,
        crate::isa::Mnemonic::Shl,
        Reg::Ax,
    );
    assert(m2.ax == crate::machine::wrap(i * 2)) by {
        reveal(crate::laws::steps::shifted_once);
    }
    let m3 = crate::laws::steps::load_word(w, m2, steps, 2, Reg::Bx, crate::isa::bp(off));
    let after = crate::laws::steps::direct_to_register(w, m3, steps, 3, BinOp::Add, Reg::Bx, ax);
    crate::machine::step_end(w, after, steps, 4);
    crate::laws::address::sum_wraps(p, i * 2);
}

/// The address of an element whose subscript is scaled in `ax`.
proof fn general_address<'a>(
    w: World<'a>,
    m: Machine,
    cx: Cx<'a>,
    name: &'a String,
    t: &'a Type,
    index: &'a Expr,
)
    requires
        m.wf(),
        crate::laws::address::local_value(w, m, *cx.env, *name) is Some,
        t.size() <= 0xFFFF,
        !(t.size() == 1 && cx.env.facts(index).int_addr is Some),
        !(t.size() == 2 && cx.env.stack_of(name) is Some),
        cx.env.facts(index).source matches Some(src) && crate::laws::address::is_worth(
            w,
            m,
            src.word,
            (w.operand)(src.word@, m),
        ),
    ensures
        ({
            let plan = crate::codegen::array_assign::plan_pointer_elem_addr(cx, name, t, index);
            let p = crate::laws::address::local_value(w, m, *cx.env, *name)->0;
            let i = (w.operand)(cx.env.facts(index).source->0.word@, m);
            &&& plan matches Plan::Emit(steps)
            &&& crate::machine::run(w, m, steps, 0) matches Outcome::Through(after)
            &&& after.wf()
            &&& after.bx == crate::machine::wrap(p + i * t.size())
            &&& crate::laws::address::same_variables(after, m)
        }),
{
    let plan = crate::codegen::array_assign::plan_pointer_elem_addr(cx, name, t, index);
    assert(plan == crate::codegen::array_assign::plan_elem_pointer_general(cx, name, t, index));
    let size = t.size() as u16;
    let text = &cx.env.facts(index).source->0.word;
    let i = (w.operand)(text@, m);
    let p = crate::laws::address::local_value(w, m, *cx.env, *name)->0;
    let from = Operand::<'a>::Text(text);
    let a = crate::codegen::array_addr::plan_name_into_bx(cx, name)->Emit_0;
    let b = seq![crate::codegen::emitter::mov(crate::isa::ax(), from)];
    let c = crate::codegen::array_addr::plan_scale_ax(cx, size)->Emit_0;
    let d = seq![
        crate::codegen::emitter::add_to(crate::isa::bx::<'a>(), crate::isa::ax::<'a>()),
    ];
    let m1 = crate::laws::address::variable_in_bx(w, m, m, cx, name);
    assert(crate::laws::address::same_variables(m1, m));
    let m2 = crate::laws::steps::move_to_register(w, m1, b, 0, Reg::Ax, from);
    crate::machine::step_end(w, m2, b, 1);
    let m3 = crate::laws::address::ax_scaled(w, m2, cx, size);
    let ax = Operand::<'a>::Reg(Reg::Ax);
    let after = crate::laws::steps::direct_to_register(w, m3, d, 0, BinOp::Add, Reg::Bx, ax);
    crate::machine::step_end(w, after, d, 1);
    assert(plan->Emit_0 =~= a + (b + (c + d)));
    crate::laws::address::first_part(w, m, a, b + (c + d), m1);
    crate::laws::address::first_part(w, m1, b, c + d, m2);
    crate::laws::address::first_part(w, m2, c, d, m3);
    crate::laws::address::sum_wraps(p, i * size);
}

/// Where the element `i` behind a local pointer lies: `i` times the size of
/// an element behind what the pointer holds.
pub open spec fn behind_place<'a>(
    w: World<'a>,
    m: Machine,
    env: Env,
    name: String,
    index: &'a Expr,
) -> int {
    let t = env.local_pointee(&name)->0;
    crate::laws::address::local_value(w, m, env, name)->0 + behind_value(w, m, env, *t, index)->0
        * t.size()
}

/// The address that an element behind a local pointer is stored through.
pub open spec fn behind_address<'a>(env: Env, name: String, index: &'a Expr) -> Addr<'a> {
    let t = env.local_pointee(&name)->0;
    if is_indexed(env, *t, index) {
        Addr::Indexed(
            Reg::Bx,
            crate::codegen::array_assign::index_reg_of(&env, index)->0,
            Disp::Zero,
        )
    } else {
        crate::isa::at(Reg::Bx)
    }
}

/// The code that forms the address of an element behind a local pointer.
pub open spec fn address_plan<'a>(cx: Cx<'a>, name: &'a String, index: &'a Expr) -> Plan<'a> {
    let t = cx.env.local_pointee(name)->0;
    if is_indexed(*cx.env, *t, index) {
        crate::codegen::array_addr::plan_name_into_bx(cx, name)
    } else {
        crate::codegen::array_assign::plan_pointer_elem_addr(cx, name, t, index)
    }
}

/// The address of an element behind a local pointer, formed in `bx` or in
/// `bx` and an index register.
proof fn address_formed<'a>(
    w: World<'a>,
    m: Machine,
    cx: Cx<'a>,
    name: &'a String,
    index: &'a Expr,
) -> (middle: Machine)
    requires
        m.wf(),
        points_near(w, m, *cx.env, *name),
        behind_value(w, m, *cx.env, *cx.env.local_pointee(name)->0, index) is Some,
    ensures
        address_plan(cx, name, index) matches Plan::Emit(steps) && crate::machine::run(
            w,
            m,
            steps,
            0,
        ) == Outcome::Through(middle),
        middle.wf(),
        crate::laws::address::same_variables(middle, m),
        middle.locate(w, behind_address(*cx.env, *name, index)) matches Some(near)
            && crate::machine::wrap(near) == crate::machine::wrap(
            behind_place(w, m, *cx.env, *name, index),
        ),
{
    let t = cx.env.local_pointee(name)->0;
    let i = behind_value(w, m, *cx.env, *t, index)->0;
    if is_indexed(*cx.env, *t, index) {
        let middle = crate::laws::address::variable_in_bx(w, m, m, cx, name);
        assert(i * 1 == i);
        middle
    } else {
        pointer_element_address(w, m, cx, name, t, index);
        crate::machine::run(w, m, address_plan(cx, name, index)->Emit_0, 0)->Through_0
    }
}

/// The code for a value stored behind a local pointer.
proof fn pointer_store_plan<'a>(
    w: World<'a>,
    m: Machine,
    cx: Cx<'a>,
    array: &'a String,
    indices: &'a Vec<Expr>,
    value: &'a Expr,
)
    requires
        points_near(w, m, *cx.env, *array),
        indices@.len() == 1,
        cx.env.const_of(&indices@[0]) is None,
        address_plan(cx, array, &indices@[0]) is Emit,
    ensures
        ({
            let index = &indices@[0];
            let t = cx.env.local_pointee(array)->0;
            let to = behind_address(*cx.env, *array, index);
            crate::codegen::array_assign::plan_emit_array_assign(cx, array, indices, value)
                == address_plan(cx, array, index).followed_by(
                if t.is_char_like() {
                    crate::codegen::array_assign::plan_store_char(cx, to, value, false)
                } else if t.is_long_like() {
                    crate::codegen::common::plan_store_long(
                        cx,
                        crate::isa::at2(Reg::Bx),
                        crate::isa::at(Reg::Bx),
                        value,
                    )
                } else {
                    crate::codegen::common::plan_store_value(
                        cx,
                        false,
                        crate::isa::at(Reg::Bx),
                        value,
                    )
                },
            )
        }),
{
    let list = crate::codegen::array_assign::each(indices);
    assert(list =~= seq![&indices@[0]]);
    let l = cx.env.local(array)->0;
    let plan = crate::codegen::array_assign::plan_emit_array_assign(cx, array, indices, value);
    assert(plan == crate::codegen::array_assign::plan_assign_local_elem(cx, array, list, value));
    assert(plan == crate::codegen::array_assign::plan_elem_pointer_variable(
        cx,
        array,
        l,
        list,
        value,
    ));
}

/// `p[i] = c` for a local near pointer, a variable subscript and a constant
/// leaves the constant in the element that lies `i` elements behind the
/// address that `p` holds, in both words of a 32-bit one, and nothing else
/// in memory changes.
pub proof fn pointer_element_written<'a>(
    w: World<'a>,
    m: Machine,
    cx: Cx<'a>,
    array: &'a String,
    indices: &'a Vec<Expr>,
    value: &'a Expr,
    c: u32,
)
    requires
        m.wf(),
        points_near(w, m, *cx.env, *array),
        indices@.len() == 1,
        cx.env.const_of(&indices@[0]) is None,
        behind_value(
            w,
            m,
            *cx.env,
            *cx.env.local_pointee(array)->0,
            &indices@[0],
        ) is Some,
        cx.env.const_of(value) == Some(c),
    ensures
        crate::laws::rows::leaves_typed(
            w,
            m,
            crate::codegen::array_assign::plan_emit_array_assign(cx, array, indices, value),
            behind_place(w, m, *cx.env, *array, &indices@[0]),
            *cx.env.local_pointee(array)->0,
            c,
        ),
{
    let index = &indices@[0];
    let t = cx.env.local_pointee(array)->0;
    let middle = address_formed(w, m, cx, array, index);
    pointer_store_plan(w, m, cx, array, indices, value);
    let a = address_plan(cx, array, index)->Emit_0;
    let to = behind_address(*cx.env, *array, index);
    let plan = crate::codegen::array_assign::plan_emit_array_assign(cx, array, indices, value);
    let high = crate::isa::at2(Reg::Bx);
    assert(plan == Plan::Emit(a + crate::laws::rows::typed_store(*t, to, high, c)));
    crate::laws::rows::typed_behind(
        w,
        m,
        a,
        middle,
        *t,
        to,
        high,
        c,
        middle.locate(w, to)->0,
        behind_place(w, m, *cx.env, *array, index),
    );
}

/// `p[i] = v` for a local near pointer to characters or words, a variable
/// subscript and a value that is computed leaves the value in the element
/// that lies `i` elements behind the address that `p` holds, and nothing
/// else in memory changes.
pub proof fn pointer_element_computed<'a>(
    w: World<'a>,
    m: Machine,
    cx: Cx<'a>,
    array: &'a String,
    indices: &'a Vec<Expr>,
    value: &'a Expr,
    x: int,
)
    requires
        m.wf(),
        points_near(w, m, *cx.env, *array),
        !cx.env.local_pointee(array)->0.is_long_like(),
        indices@.len() == 1,
        cx.env.const_of(&indices@[0]) is None,
        behind_value(
            w,
            m,
            *cx.env,
            *cx.env.local_pointee(array)->0,
            &indices@[0],
        ) is Some,
        cx.env.const_of(value) is None,
        crate::codegen::array_assign::char_source(cx.env, value) is None,
        crate::laws::rows::is_computed_as(w, m, cx, value, x),
    ensures
        crate::laws::rows::leaves_narrowed(
            w,
            m,
            crate::codegen::array_assign::plan_emit_array_assign(cx, array, indices, value),
            behind_place(w, m, *cx.env, *array, &indices@[0]),
            *cx.env.local_pointee(array)->0,
            x,
        ),
{
    let index = &indices@[0];
    let t = cx.env.local_pointee(array)->0;
    let middle = address_formed(w, m, cx, array, index);
    pointer_store_plan(w, m, cx, array, indices, value);
    let a = address_plan(cx, array, index)->Emit_0;
    let to = behind_address(*cx.env, *array, index);
    let plan = crate::codegen::array_assign::plan_emit_array_assign(cx, array, indices, value);
    assert(plan == Plan::Emit(a + crate::laws::rows::computed_store(cx, *t, to, value)));
    crate::laws::rows::computed_behind(
        w,
        m,
        cx,
        a,
        middle,
        *t,
        to,
        value,
        x,
        middle.locate(w, to)->0,
        behind_place(w, m, *cx.env, *array, index),
    );
}

/// `p[i] = x` for a local near pointer to 32-bit integers, a variable
/// subscript and a 32-bit integer in memory leaves both words of `x` in the
/// element that lies `i` elements behind the address that `p` holds, and
/// nothing else in memory changes.
pub proof fn pointer_element_copied<'a>(
    w: World<'a>,
    m: Machine,
    cx: Cx<'a>,
    array: &'a String,
    indices: &'a Vec<Expr>,
    value: &'a Expr,
)
    requires
        m.wf(),
        points_near(w, m, *cx.env, *array),
        cx.env.local_pointee(array)->0.is_long_like(),
        indices@.len() == 1,
        cx.env.const_of(&indices@[0]) is None,
        behind_value(
            w,
            m,
            *cx.env,
            *cx.env.local_pointee(array)->0,
            &indices@[0],
        ) is Some,
        cx.env.const_of(value) is None,
        cx.env.facts(value).long_addrs is Some,
    ensures
        ({
            let (hi, lo) = cx.env.facts(value).long_addrs->0;
            crate::laws::long::leaves_long(
                w,
                m,
                crate::codegen::array_assign::plan_emit_array_assign(cx, array, indices, value),
                behind_place(w, m, *cx.env, *array, &indices@[0]),
                crate::machine::pair(m.word_at((w.place)(hi@)), m.word_at((w.place)(lo@))),
            )
        }),
{
    let index = &indices@[0];
    let halves = cx.env.facts(value).long_addrs->0;
    let (hi, lo) = (&halves.0, &halves.1);
    let middle = address_formed(w, m, cx, array, index);
    pointer_store_plan(w, m, cx, array, indices, value);
    let a = address_plan(cx, array, index)->Emit_0;
    let to = crate::isa::at(Reg::Bx);
    let high = crate::isa::at2(Reg::Bx);
    let plan = crate::codegen::array_assign::plan_emit_array_assign(cx, array, indices, value);
    assert(plan == Plan::Emit(
        a + crate::laws::rows::pair_store(high, to, Addr::Text(hi), Addr::Text(lo)),
    ));
    crate::laws::rows::pair_behind(
        w,
        m,
        a,
        middle,
        to,
        high,
        lo,
        hi,
        middle.bx,
        behind_place(w, m, *cx.env, *array, index),
    );
}

/// `p[i] = c` for a local near pointer to characters, a variable subscript
/// and a local character `c` on the stack leaves `c` in the byte that lies
/// `i` bytes behind the address that `p` holds, and nothing else in memory
/// changes.
pub proof fn pointer_char_copied<'a>(
    w: World<'a>,
    m: Machine,
    cx: Cx<'a>,
    array: &'a String,
    indices: &'a Vec<Expr>,
    value: &'a Expr,
    from: Addr<'a>,
)
    requires
        m.wf(),
        points_near(w, m, *cx.env, *array),
        cx.env.local_pointee(array)->0.is_char_like(),
        indices@.len() == 1,
        cx.env.const_of(&indices@[0]) is None,
        behind_value(
            w,
            m,
            *cx.env,
            *cx.env.local_pointee(array)->0,
            &indices@[0],
        ) is Some,
        cx.env.const_of(value) is None,
        crate::codegen::array_assign::char_source(cx.env, value) == Some(
            Operand::<'a>::Mem(Width::Byte, from),
        ),
    ensures
        crate::laws::byte::leaves_byte(
            w,
            m,
            crate::codegen::array_assign::plan_emit_array_assign(cx, array, indices, value),
            behind_place(w, m, *cx.env, *array, &indices@[0]),
            m.byte_at(m.locate(w, from)->0),
        ),
{
    let index = &indices@[0];
    let middle = address_formed(w, m, cx, array, index);
    pointer_store_plan(w, m, cx, array, indices, value);
    let a = address_plan(cx, array, index)->Emit_0;
    let to = behind_address(*cx.env, *array, index);
    let near = middle.locate(w, to)->0;
    let at = behind_place(w, m, *cx.env, *array, index);
    let v = m.byte_at(m.locate(w, from)->0);
    let plan = crate::codegen::array_assign::plan_emit_array_assign(cx, array, indices, value);
    let b = seq![
        crate::codegen::emitter::mov(crate::isa::al(), crate::isa::byte(from)),
        crate::codegen::emitter::mov(crate::isa::byte(to), crate::isa::al()),
    ];
    assert(plan == Plan::Emit(a + b));
    crate::laws::address::first_part(w, m, a, b, middle);
    let m1 = crate::laws::byte::load_al(w, middle, b, 0, from);
    assert(m1.locate(w, to) == Some(near));
    let after = m1.with_byte(near, v);
    assert(crate::machine::run_step(w, m1, b[1]) == Some(after));
    crate::machine::step_on(w, m1, b, 1, after);
    crate::machine::step_end(w, after, b, 2);
    crate::laws::byte::byte_written(m.mem, near, v);
    crate::laws::rows::byte_place_wraps(after.mem, m.mem, near, at);
}

} // verus!
