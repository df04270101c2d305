//! Values stored where a target says: behind pointers of every form.

use vstd::prelude::*;
use crate::ast::{BinOp, Expr, ExprKind, Type, UpdateOp, UpdatePosition};
use crate::codegen::emitter::{Cx, Plan, Step};
use crate::codegen::env::{Env, LocalLocation};
use crate::isa::{Addr, Mnemonic, Operand, Reg};
use crate::machine::{Machine, Outcome, World};

verus! {

/// Whether a value is a constant with a number in its low 16 bits, or is
/// computed into `ax` as that number.
pub open spec fn is_worth_when_stored<'a>(
    w: World<'a>,
    m: Machine,
    cx: Cx<'a>,
    value: &'a Expr,
    x: int,
) -> bool {
    match cx.env.const_of(value) {
        Some(c) => x == c as int % 0x1_0000,
        None => crate::laws::rows::is_computed_as(w, m, cx, value, x),
    }
}

/// Whether a register keeps its value while another value is computed.
pub open spec fn is_kept(r: Reg) -> bool {
    r == Reg::Bx || r == Reg::Si || r == Reg::Di || r == Reg::Bp
}

/// Whether an address names the same place while a value is computed.
pub open spec fn is_kept_address(a: Addr) -> bool {
    match a {
        Addr::Bp(_) | Addr::Global(_, _) | Addr::Text(_) => true,
        Addr::At(r, _) => is_kept(r),
        Addr::Indexed(b, i, _) => is_kept(b) && is_kept(i),
        Addr::GlobalAt(_, _, r, _) => is_kept(r),
        Addr::Seg(_, _, _) => false,
    }
}

/// Whether code goes through and leaves a number at an address, as a byte or
/// as a word, with no other memory changed and no register but `ax`, `cx`
/// and `dx`.
pub open spec fn puts<'a>(
    w: World<'a>,
    m: Machine,
    plan: Plan<'a>,
    is_byte: bool,
    at: int,
    x: int,
) -> bool {
    &&& plan matches Plan::Emit(steps)
    &&& crate::machine::run(w, m, steps, 0) matches Outcome::Through(after)
    &&& after.wf()
    &&& if is_byte {
        after.byte_at(at) == x % 0x100 && crate::machine::same_but(after.mem, m.mem, at, 1)
    } else {
        after.word_at(at) == x && crate::machine::same_but(after.mem, m.mem, at, 2)
    }
    &&& crate::laws::line::same_holders(after, m)
    &&& after.bx == m.bx
}

/// A number in a register or in the code stored as a byte or as a word.
pub proof fn put_at<'a>(
    w: World<'a>,
    m: Machine,
    steps: Seq<Step<'a>>,
    i: int,
    is_byte: bool,
    a: Addr<'a>,
    s: Operand<'a>,
    near: int,
    at: int,
    x: int,
) -> (after: Machine)
    requires
        m.wf(),
        0 <= i < steps.len(),
        steps[i] == Step::Op2(Mnemonic::Mov, crate::isa::sized(is_byte, a), s),
        m.locate(w, a) == Some(near),
        crate::machine::wrap(near) == crate::machine::wrap(at),
        0 <= x < 0x1_0000,
        m.read(w, s, is_byte) == Some(if is_byte { x % 0x100 } else { x }),
    ensures
        crate::machine::run(w, m, steps, i) == crate::machine::run(w, after, steps, i + 1),
        after.wf(),
        is_byte ==> after.byte_at(at) == x % 0x100 && crate::machine::same_but(
            after.mem,
            m.mem,
            at,
            1,
        ),
        !is_byte ==> after.word_at(at) == x && crate::machine::same_but(after.mem, m.mem, at, 2),
        crate::laws::steps::same_regs(after, m),
{
    if is_byte {
        let v = x % 0x100;
        let after = m.with_byte(near, v);
        assert(crate::machine::run_step(w, m, steps[i]) == Some(after));
        crate::machine::step_on(w, m, steps, i, after);
        crate::laws::byte::byte_written(m.mem, near, v);
        crate::laws::rows::byte_place_wraps(after.mem, m.mem, near, at);
        after
    } else {
        let after = crate::laws::steps::store_word(w, m, steps, i, a, s);
        crate::machine::word_written(m.mem, near, x);
        crate::laws::element::word_place_wraps(after.mem, near);
        crate::laws::element::word_place_wraps(after.mem, at);
        reveal(crate::machine::same_but);
        assert forall|c: int|
            crate::machine::wrap(c - at) >= 2 && 0 <= c < 0x1_0000 implies #[trigger] after.mem[c]
            == m.mem[c] by {
            vstd::arithmetic::div_mod::lemma_sub_mod_noop(c, near, 0x1_0000);
            vstd::arithmetic::div_mod::lemma_sub_mod_noop(c, at, 0x1_0000);
        }
        after
    }
}

/// A constant is stored at the address that the code names.
proof fn const_stored_at<'a>(
    w: World<'a>,
    m: Machine,
    cx: Cx<'a>,
    is_byte: bool,
    a: Addr<'a>,
    value: &'a Expr,
    c: u32,
    at: int,
)
    requires
        m.wf(),
        cx.env.const_of(value) == Some(c),
        m.locate(w, a) matches Some(near) && crate::machine::wrap(near) == crate::machine::wrap(at),
    ensures
        puts(
            w,
            m,
            crate::codegen::common::plan_store_value(cx, is_byte, a, value),
            is_byte,
            at,
            c as int % 0x1_0000,
        ),
{
    let plan = crate::codegen::common::plan_store_value(cx, is_byte, a, value);
    let steps = plan->Emit_0;
    let near = m.locate(w, a)->0;
    let s = Operand::<'a>::Imm(crate::isa::masked(c, is_byte));
    let x = c as int % 0x1_0000;
    assert(steps =~= seq![crate::codegen::emitter::mov(crate::isa::sized(is_byte, a), s)]);
    assert(m.read(w, s, is_byte) == Some(if is_byte { x % 0x100 } else { x }));
    let after = put_at(w, m, steps, 0, is_byte, a, s, near, at, x);
    crate::machine::step_end(w, after, steps, 1);
}

/// An address that is kept names the same place when `bx` and the variables
/// are the same.
pub proof fn kept_place<'a>(w: World<'a>, m: Machine, n: Machine, a: Addr<'a>)
    requires
        is_kept_address(a),
        crate::laws::line::same_holders(n, m),
        n.bx == m.bx,
    ensures
        n.locate(w, a) == m.locate(w, a),
{
}

/// A computed value is stored at the address that the code names.
proof fn computed_stored_at<'a>(
    w: World<'a>,
    m: Machine,
    cx: Cx<'a>,
    is_byte: bool,
    a: Addr<'a>,
    value: &'a Expr,
    x: int,
    at: int,
)
    requires
        m.wf(),
        cx.env.const_of(value) is None,
        crate::laws::rows::is_computed_as(w, m, cx, value, x),
        is_kept_address(a),
        m.locate(w, a) matches Some(near) && crate::machine::wrap(near) == crate::machine::wrap(at),
    ensures
        puts(
            w,
            m,
            crate::codegen::common::plan_store_value(cx, is_byte, a, value),
            is_byte,
            at,
            x,
        ),
{
    let plan = crate::codegen::common::plan_store_value(cx, is_byte, a, value);
    let steps = plan->Emit_0;
    let near = m.locate(w, a)->0;
    let s = crate::isa::acc::<'a>(is_byte);
    assert(steps =~= seq![
        crate::codegen::emitter::to_ax(cx, value),
        crate::codegen::emitter::mov(crate::isa::sized(is_byte, a), s),
    ]);
    let m1 = crate::laws::long::evaluated(w, m, cx, value);
    assert(crate::laws::address::same_variables(m, m));
    crate::machine::step_on(w, m, steps, 0, m1);
    kept_place(w, m, m1, a);
    assert(m1.read(w, s, is_byte) == Some(if is_byte { x % 0x100 } else { x }));
    let after = put_at(w, m1, steps, 1, is_byte, a, s, near, at, x);
    crate::machine::step_end(w, after, steps, 2);
}

/// A constant or a computed value is stored at the address that the code
/// names.
pub proof fn stored_at<'a>(
    w: World<'a>,
    m: Machine,
    cx: Cx<'a>,
    is_byte: bool,
    a: Addr<'a>,
    value: &'a Expr,
    x: int,
    at: int,
)
    requires
        m.wf(),
        is_worth_when_stored(w, m, cx, value, x),
        is_kept_address(a),
        m.locate(w, a) matches Some(near) && crate::machine::wrap(near) == crate::machine::wrap(at),
    ensures
        puts(
            w,
            m,
            crate::codegen::common::plan_store_value(cx, is_byte, a, value),
            is_byte,
            at,
            x,
        ),
{
    match cx.env.const_of(value) {
        Some(c) => const_stored_at(w, m, cx, is_byte, a, value, c, at),
        None => computed_stored_at(w, m, cx, is_byte, a, value, x, at),
    }
}

/// Code that changes no variable, and then a value stored at the address
/// that the code names.
pub proof fn stored_behind<'a>(
    w: World<'a>,
    m: Machine,
    cx: Cx<'a>,
    first: Seq<Step<'a>>,
    middle: Machine,
    is_byte: bool,
    a: Addr<'a>,
    value: &'a Expr,
    x: int,
    at: int,
)
    requires
        crate::machine::run(w, m, first, 0) == Outcome::Through(middle),
        middle.wf(),
        crate::laws::address::same_variables(middle, m),
        is_worth_when_stored(w, m, cx, value, x),
        is_kept_address(a),
        middle.locate(w, a) matches Some(near) && crate::machine::wrap(near)
            == crate::machine::wrap(at),
    ensures
        ({
            let second = crate::codegen::common::plan_store_value(cx, is_byte, a, value);
            let plan = Plan::Emit(first).followed_by(second);
            &&& plan matches Plan::Emit(steps)
            &&& crate::machine::run(w, m, steps, 0) matches Outcome::Through(after)
            &&& after.wf()
            &&& if is_byte {
                after.byte_at(at) == x % 0x100 && crate::machine::same_but(after.mem, m.mem, at, 1)
            } else {
                after.word_at(at) == x && crate::machine::same_but(after.mem, m.mem, at, 2)
            }
            &&& crate::laws::line::same_holders(after, m)
        }),
{
    let second = crate::codegen::common::plan_store_value(cx, is_byte, a, value);
    assert(is_worth_when_stored(w, middle, cx, value, x));
    stored_at(w, middle, cx, is_byte, a, value, x, at);
    crate::laws::address::first_part(w, m, first, second->Emit_0, middle);
}

/// Whether a plan goes through and leaves a number at an address, as a byte
/// or as a word, with no other memory and no register changed that holds a
/// variable.
pub open spec fn stores<'a>(
    w: World<'a>,
    m: Machine,
    plan: Plan<'a>,
    is_byte: bool,
    at: int,
    x: int,
) -> bool {
    if is_byte {
        crate::laws::line::puts_byte(w, m, plan, at, x % 0x100)
    } else {
        crate::laws::line::puts_word(w, m, plan, at, x)
    }
}

/// Whether a name stands for a local near pointer to a value of a type.
pub open spec fn points_at<'a>(w: World<'a>, m: Machine, env: Env, name: String, t: Type) -> bool {
    &&& !env.is_global(&name)
    &&& crate::laws::store::pointer_value(w, m, env, name) is Some
    &&& env.local_pointee(&name) matches Some(p) && *p == t
    &&& env.local(&name) matches Some(l) && (l.loc matches LocalLocation::Reg(r) ==> is_kept(r))
}

/// A near pointer on the stack is loaded into `bx`.
proof fn pointer_loaded<'a>(w: World<'a>, m: Machine, off: i16) -> (r: (Seq<Step<'a>>, Machine))
    requires
        m.wf(),
    ensures
        r.0 == seq![
            crate::codegen::emitter::mov(
                crate::isa::bx::<'a>(),
                crate::isa::word(crate::isa::bp(off)),
            ),
        ],
        crate::machine::run(w, m, r.0, 0) == Outcome::Through(r.1),
        r.1 == (Machine { bx: m.word_at(m.bp + off), ..m }),
        r.1.wf(),
{
    let first = seq![
        crate::codegen::emitter::mov(crate::isa::bx::<'a>(), crate::isa::word(crate::isa::bp(off))),
    ];
    let m1 = crate::laws::steps::load_word(w, m, first, 0, Reg::Bx, crate::isa::bp(off));
    crate::machine::step_end(w, m1, first, 1);
    (first, m1)
}

/// `*(p + k) = v` for a local near pointer and a constant offset leaves the
/// value where `p` points, `k` elements further on, as a character or as a
/// word. No other memory and no register changes that holds a variable.
pub proof fn offset_written<'a>(
    w: World<'a>,
    m: Machine,
    cx: Cx<'a>,
    target: &'a Expr,
    left: &'a Box<Expr>,
    right: &'a Box<Expr>,
    name: &'a String,
    value: &'a Expr,
    t: Type,
    k: u32,
    x: int,
)
    requires
        m.wf(),
        target.kind == (ExprKind::BinOp { op: BinOp::Add, left: *left, right: *right }),
        left.kind == ExprKind::Ident(*name),
        cx.env.const_of(&**right) == Some(k),
        t.size() <= 0xFFFF,
        k * t.size() <= 0x7FFF,
        points_at(w, m, *cx.env, *name, t),
        is_worth_when_stored(w, m, cx, value, x),
    ensures
        stores(
            w,
            m,
            crate::codegen::deref_write::plan_emit_deref_assign(cx, target, value),
            t.is_char_like(),
            crate::laws::store::pointer_value(w, m, *cx.env, *name)->0 + k * t.size(),
            x,
        ),
{
    let plan = crate::codegen::deref_write::plan_emit_deref_assign(cx, target, value);
    assert(plan == crate::codegen::deref_write::plan_deref_assign_offset(cx, target, value));
    let at = crate::laws::store::pointer_value(w, m, *cx.env, *name)->0 + k * t.size();
    let d = crate::isa::disp(crate::isa::scaled(k, t.size() as u16));
    assert(crate::machine::distance(d) == k * t.size());
    match cx.env.local(name)->0.loc {
        LocalLocation::Reg(p) => {
            stored_at(w, m, cx, t.is_char_like(), crate::isa::at_disp(p, d), value, x, at);
        },
        LocalLocation::Stack(off) => {
            let (first, m1) = pointer_loaded(w, m, off);
            let to = crate::isa::at_disp(Reg::Bx, d);
            stored_behind(w, m, cx, first, m1, t.is_char_like(), to, value, x, at);
        },
    }
}

/// Whether a value is neither a constant nor one that is stored without a
/// detour: no variable in a register, no address, and no character on the
/// stack or behind a pointer.
pub open spec fn is_general(env: Env, value: Expr) -> bool {
    &&& env.const_of(&value) is None
    &&& !(value.kind is AddressOf)
    &&& !(value.kind is Deref)
    &&& value.kind matches ExprKind::Ident(n) ==> env.word_reg_of(&n) is None && !env.is_char_local(
        &n,
    )
}

/// `*p = e` for a local near pointer to characters or integers and a
/// computed value leaves the value where `p` points, as a character or as a
/// word. No other memory and no register changes that holds a variable.
pub proof fn pointed_from_value<'a>(
    w: World<'a>,
    m: Machine,
    cx: Cx<'a>,
    target: &'a Expr,
    name: &'a String,
    value: &'a Expr,
    t: Type,
    x: int,
)
    requires
        m.wf(),
        target.kind == ExprKind::Ident(*name),
        points_at(w, m, *cx.env, *name, t),
        t.is_char_like() || crate::codegen::env::is_plain_int(&t),
        is_general(*cx.env, *value),
        crate::laws::rows::is_computed_as(w, m, cx, value, x),
    ensures
        stores(
            w,
            m,
            crate::codegen::deref_write::plan_emit_deref_assign(cx, target, value),
            t.is_char_like(),
            crate::laws::store::pointer_value(w, m, *cx.env, *name)->0,
            x,
        ),
{
    let plan = crate::codegen::deref_write::plan_emit_deref_assign(cx, target, value);
    assert(plan == crate::codegen::deref_write::plan_deref_assign_local(cx, name, 0, value));
    let at = crate::laws::store::pointer_value(w, m, *cx.env, *name)->0;
    let byte = t.is_char_like();
    match cx.env.local(name)->0.loc {
        LocalLocation::Reg(p) => {
            let to = crate::isa::at(p);
            assert(plan == crate::codegen::common::plan_store_value(cx, byte, to, value));
            stored_at(w, m, cx, byte, to, value, x, at);
        },
        LocalLocation::Stack(off) => {
            let (first, m1) = pointer_loaded(w, m, off);
            let to = crate::isa::at(Reg::Bx);
            assert(plan == Plan::Emit(first).followed_by(
                crate::codegen::common::plan_store_value(cx, byte, to, value),
            ));
            stored_behind(w, m, cx, first, m1, byte, to, value, x, at);
        },
    }
}

/// A byte goes by way of `al` to the place that the code names.
pub proof fn byte_moved<'a>(
    w: World<'a>,
    m: Machine,
    steps: Seq<Step<'a>>,
    from: Addr<'a>,
    to: Addr<'a>,
    at: int,
)
    requires
        m.wf(),
        steps == seq![
            crate::codegen::emitter::mov(crate::isa::al(), crate::isa::byte(from)),
            crate::codegen::emitter::mov(crate::isa::byte(to), crate::isa::al()),
        ],
        is_kept_address(to),
        m.locate(w, from) is Some,
        m.locate(w, to) matches Some(near) && crate::machine::wrap(near) == crate::machine::wrap(
            at,
        ),
    ensures
        puts(w, m, Plan::Emit(steps), true, at, m.byte_at(m.locate(w, from)->0)),
{
    let b = m.byte_at(m.locate(w, from)->0);
    let near = m.locate(w, to)->0;
    let m1 = crate::laws::byte::load_al(w, m, steps, 0, from);
    kept_place(w, m, m1, to);
    let after = put_at(w, m1, steps, 1, true, to, crate::isa::al(), near, at, m1.ax);
    crate::machine::step_end(w, after, steps, 2);
}

/// The byte behind a character on the right side of a store: one on the
/// stack, or one behind a pointer in a register.
pub open spec fn char_place(m: Machine, env: Env, value: Expr) -> Option<int> {
    match value.kind {
        ExprKind::Ident(n) => if env.is_char_local(&n) {
            match env.stack_of(&n) {
                Some(off) => Some(m.bp + off),
                None => None,
            }
        } else {
            None
        },
        ExprKind::Deref(inner) => match inner.kind {
            ExprKind::Ident(q) => match (env.local_pointee(&q), env.word_reg_of(&q)) {
                (Some(t), Some(r)) => if t.is_char_like() && is_kept(r) && r != Reg::Bx {
                    m.reg(r)
                } else {
                    None
                },
                _ => None,
            },
            _ => None,
        },
        _ => None,
    }
}

/// `*p = c` and `*p = *q` for characters, with `c` on the stack and `q` in a
/// register, copy the byte to where `p` points. No other memory and no
/// register changes that holds a variable.
#[verifier::rlimit(60)]
pub proof fn pointed_char_copied<'a>(
    w: World<'a>,
    m: Machine,
    cx: Cx<'a>,
    target: &'a Expr,
    name: &'a String,
    value: &'a Expr,
    t: Type,
)
    requires
        m.wf(),
        target.kind == ExprKind::Ident(*name),
        points_at(w, m, *cx.env, *name, t),
        t.is_char_like(),
        cx.env.const_of(value) is None,
        char_place(m, *cx.env, *value) is Some,
    ensures
        crate::laws::line::puts_byte(
            w,
            m,
            crate::codegen::deref_write::plan_emit_deref_assign(cx, target, value),
            crate::laws::store::pointer_value(w, m, *cx.env, *name)->0,
            m.byte_at(char_place(m, *cx.env, *value)->0),
        ),
{
    let plan = crate::codegen::deref_write::plan_emit_deref_assign(cx, target, value);
    assert(plan == crate::codegen::deref_write::plan_deref_assign_local(cx, name, 0, value));
    let at = crate::laws::store::pointer_value(w, m, *cx.env, *name)->0;
    let from = match &value.kind {
        ExprKind::Ident(n) => crate::isa::bp::<'a>(cx.env.stack_of(n)->0),
        ExprKind::Deref(inner) => match &inner.kind {
            ExprKind::Ident(q) => crate::isa::at(cx.env.word_reg_of(q)->0),
            _ => crate::isa::bp(0),
        },
        _ => crate::isa::bp(0),
    };
    let p = match cx.env.local(name)->0.loc {
        LocalLocation::Reg(r) => r,
        LocalLocation::Stack(_) => Reg::Bx,
    };
    let to = crate::isa::at::<'a>(p);
    let steps = seq![
        crate::codegen::emitter::mov(crate::isa::al(), crate::isa::byte(from)),
        crate::codegen::emitter::mov(crate::isa::byte(to), crate::isa::al()),
    ];
    assert(m.locate(w, from) == char_place(m, *cx.env, *value));
    match cx.env.local(name)->0.loc {
        LocalLocation::Reg(_) => {
            assert(plan->Emit_0 =~= steps);
            byte_moved(w, m, steps, from, to, at);
        },
        LocalLocation::Stack(off) => {
            let (first, m1) = pointer_loaded(w, m, off);
            assert(m1.locate(w, from) == m.locate(w, from));
            byte_moved(w, m1, steps, from, to, at);
            crate::laws::address::first_part(w, m, first, steps, m1);
            assert(plan->Emit_0 =~= first + steps);
        },
    }
}

/// `*p = &g` for a local near pointer and a file-scope variable leaves the
/// address of the variable in the word that `p` points at.
#[verifier::rlimit(60)]
pub proof fn pointed_from_address<'a>(
    w: World<'a>,
    m: Machine,
    cx: Cx<'a>,
    target: &'a Expr,
    name: &'a String,
    value: &'a Expr,
    g: &'a String,
    t: Type,
)
    requires
        m.wf(),
        target.kind == ExprKind::Ident(*name),
        points_at(w, m, *cx.env, *name, t),
        !t.is_char_like() && !t.is_long_like(),
        value.kind == ExprKind::AddressOf(*g),
        cx.env.is_global(g),
        cx.env.const_of(value) is None,
    ensures
        crate::laws::line::puts_word(
            w,
            m,
            crate::codegen::deref_write::plan_emit_deref_assign(cx, target, value),
            crate::laws::store::pointer_value(w, m, *cx.env, *name)->0,
            crate::machine::wrap((w.symbol)(g@)),
        ),
{
    let plan = crate::codegen::deref_write::plan_emit_deref_assign(cx, target, value);
    assert(plan == crate::codegen::deref_write::plan_deref_assign_local(cx, name, 0, value));
    let at = crate::laws::store::pointer_value(w, m, *cx.env, *name)->0;
    let s = crate::isa::offset_of(g, crate::isa::Disp::Zero);
    let x = crate::machine::wrap((w.symbol)(g@));
    match cx.env.local(name)->0.loc {
        LocalLocation::Reg(p) => {
            let to = crate::isa::at(p);
            let steps = seq![crate::codegen::emitter::mov(crate::isa::word(to), s)];
            assert(plan->Emit_0 =~= steps);
            let after = put_at(w, m, steps, 0, false, to, s, at, at, x);
            crate::machine::step_end(w, after, steps, 1);
        },
        LocalLocation::Stack(off) => {
            let to = crate::isa::at(Reg::Bx);
            let steps = seq![crate::codegen::emitter::mov(crate::isa::word(to), s)];
            let (first, m1) = pointer_loaded(w, m, off);
            let after = put_at(w, m1, steps, 0, false, to, s, at, at, x);
            crate::machine::step_end(w, after, steps, 1);
            crate::laws::address::first_part(w, m, first, steps, m1);
            assert(plan->Emit_0 =~= first + steps);
        },
    }
}

/// `*a[k] = v` for an array of pointers leaves the value where element `k`
/// of the array points.
pub proof fn table_target_written<'a>(
    w: World<'a>,
    m: Machine,
    cx: Cx<'a>,
    target: &'a Expr,
    array: &'a Box<Expr>,
    index: &'a Box<Expr>,
    name: &'a String,
    value: &'a Expr,
    k: u32,
    x: int,
)
    requires
        m.wf(),
        target.kind == (ExprKind::ArrayIndex { array: *array, index: *index }),
        array.kind == ExprKind::Ident(*name),
        cx.env.const_of(&**index) == Some(k),
        crate::laws::pointed::is_pointer_table(*cx.env, *name, k),
        is_worth_when_stored(w, m, cx, value, x),
    ensures
        stores(
            w,
            m,
            crate::codegen::deref_write::plan_emit_deref_assign(cx, target, value),
            ((cx.env.array_elem_of(name)->0).pointee()->0).is_char_like(),
            m.word_at(crate::laws::pointed::table_place(w, m, *cx.env, *name, k)),
            x,
        ),
{
    let plan = crate::codegen::deref_write::plan_emit_deref_assign(cx, target, value);
    assert(plan == crate::codegen::deref_write::plan_deref_assign_elem(cx, target, value));
    let t = (cx.env.array_elem_of(name)->0).pointee()->0;
    let at = m.word_at(crate::laws::pointed::table_place(w, m, *cx.env, *name, k));
    let (first, m1) = crate::laws::pointed::table_pointer_loaded(w, m, cx, name, k);
    let to = crate::isa::at(Reg::Bx);
    stored_behind(w, m, cx, first, m1, t.is_char_like(), to, value, x, at);
}

/// `*f() = v` leaves the value where the pointer points that the function
/// returns in `ax`, in memory as the function leaves it.
pub proof fn call_target_written<'a>(
    w: World<'a>,
    m: Machine,
    cx: Cx<'a>,
    target: &'a Expr,
    name: &'a String,
    args: &'a Vec<Expr>,
    value: &'a Expr,
    x: int,
)
    requires
        target.kind == (ExprKind::Call { name: *name, args: *args }),
        cx.env.ret_ty_of(name) matches Some(ret) && ret.pointee() is Some,
        (w.work)(Step::CallFn(name, args), m).wf(),
        is_worth_when_stored(w, (w.work)(Step::CallFn(name, args), m), cx, value, x),
    ensures
        ({
            let plan = crate::codegen::deref_write::plan_emit_deref_assign(cx, target, value);
            let called = (w.work)(Step::CallFn(name, args), m);
            let byte = ((cx.env.ret_ty_of(name)->0).pointee()->0).is_char_like();
            let at = called.ax;
            &&& plan matches Plan::Emit(steps)
            &&& crate::machine::run(w, m, steps, 0) matches Outcome::Through(after)
            &&& if byte {
                after.byte_at(at) == x % 0x100 && crate::machine::same_but(
                    after.mem,
                    called.mem,
                    at,
                    1,
                )
            } else {
                after.word_at(at) == x && crate::machine::same_but(after.mem, called.mem, at, 2)
            }
            &&& crate::laws::line::same_holders(after, called)
        }),
{
    let plan = crate::codegen::deref_write::plan_emit_deref_assign(cx, target, value);
    assert(plan == crate::codegen::deref_write::plan_deref_assign_call(cx, target, value));
    let call = Step::CallFn(name, args);
    let called = (w.work)(call, m);
    let byte = ((cx.env.ret_ty_of(name)->0).pointee()->0).is_char_like();
    let first = seq![call];
    crate::machine::step_on(w, m, first, 0, called);
    crate::machine::step_end(w, called, first, 1);
    let copy = seq![crate::codegen::emitter::mov(crate::isa::bx::<'a>(), crate::isa::ax())];
    let ax = Operand::<'a>::Reg(Reg::Ax);
    let m1 = crate::laws::steps::move_to_register(w, called, copy, 0, Reg::Bx, ax);
    crate::machine::step_end(w, m1, copy, 1);
    let to = crate::isa::at(Reg::Bx);
    stored_behind(w, called, cx, copy, m1, byte, to, value, x, called.ax);
    let second = crate::codegen::common::plan_store_value(cx, byte, to, value);
    let rest = copy + second->Emit_0;
    crate::laws::address::first_part(w, m, first, rest, called);
    assert(first + rest =~= plan->Emit_0);
}

/// Whether a name stands for a near pointer to characters or integers in a
/// register that is kept while a value is computed, other than the one of
/// the stack frame.
pub open spec fn moves_over(env: Env, name: String, t: Type, r: Reg) -> bool {
    &&& env.local(&name) matches Some(l) && l.loc == LocalLocation::Reg(r) && !(l.seg is Some)
    &&& env.local_pointee(&name) matches Some(p) && *p == t
    &&& t.is_char_like() || crate::codegen::env::is_plain_int(&t)
    &&& r == Reg::Si || r == Reg::Di
}

/// A pointer in a register moves by the size of what it points at.
pub proof fn pointer_moved<'a>(
    w: World<'a>,
    m: Machine,
    op: UpdateOp,
    r: Reg,
    size: u16,
) -> (after: Machine)
    requires
        m.wf(),
        r == Reg::Si || r == Reg::Di,
        size == 1 || size == 2,
    ensures
        crate::machine::run(
            w,
            m,
            Step::Op1(crate::isa::update(op), Operand::<'a>::Reg(r)).times(size as nat),
            0,
        ) == Outcome::Through(after),
        after.wf(),
        after.mem == m.mem,
        crate::laws::steps::same_regs(
            after,
            m.with_reg(
                r,
                crate::machine::word_result(
                    crate::laws::copy::update_op(op),
                    m.reg(r)->0,
                    size as int,
                ),
            )->0,
        ),
{
    let s = Step::Op1(crate::isa::update(op), Operand::<'a>::Reg(r));
    let steps = s.times(size as nat);
    if size == 1 {
        assert(steps =~= seq![s]);
        let by = crate::laws::copy::update_op(op);
        let after = crate::laws::word::step_register(w, m, steps, 0, by, r);
        crate::machine::step_end(w, after, steps, 1);
        after
    } else {
        assert(steps =~= seq![s, s]);
        let after = crate::laws::copy::stepped_twice(w, m, steps, 0, op, r);
        crate::machine::step_end(w, after, steps, 2);
        after
    }
}

/// Whether a plan goes through, leaves a number at an address, as a byte or
/// as a word, moves a register, and changes nothing else.
pub open spec fn stores_and_moves<'a>(
    w: World<'a>,
    m: Machine,
    plan: Plan<'a>,
    is_byte: bool,
    at: int,
    x: int,
    r: Reg,
    to: int,
) -> bool {
    &&& plan matches Plan::Emit(steps)
    &&& crate::machine::run(w, m, steps, 0) matches Outcome::Through(after)
    &&& if is_byte {
        after.byte_at(at) == x % 0x100 && crate::machine::same_but(after.mem, m.mem, at, 1)
    } else {
        after.word_at(at) == x && crate::machine::same_but(after.mem, m.mem, at, 2)
    }
    &&& m.with_reg(r, to) matches Some(wanted) && crate::laws::line::same_holders(after, wanted)
}

/// `*p++ = e` for a pointer to characters or integers in a register leaves
/// the value at the address that `p` held, as a character or as a word, and
/// moves `p` on by the size of what it points at. Nothing else changes that
/// a program can name.
pub proof fn pointed_and_moved<'a>(
    w: World<'a>,
    m: Machine,
    cx: Cx<'a>,
    target: &'a Expr,
    name: &'a String,
    value: &'a Expr,
    t: Type,
    r: Reg,
    x: int,
)
    requires
        m.wf(),
        target.kind == (ExprKind::Update {
            target: *name,
            op: UpdateOp::Inc,
            position: UpdatePosition::Post,
        }),
        moves_over(*cx.env, *name, t, r),
        value.kind !is Deref,
        is_worth_when_stored(w, m, cx, value, x),
    ensures
        stores_and_moves(
            w,
            m,
            crate::codegen::deref_write::plan_emit_deref_assign(cx, target, value),
            t.is_char_like(),
            m.reg(r)->0,
            x,
            r,
            crate::machine::wrap(m.reg(r)->0 + t.size()),
        ),
{
    let plan = crate::codegen::deref_write::plan_emit_deref_assign(cx, target, value);
    assert(plan == crate::codegen::deref_write::plan_deref_assign_post(cx, target, value));
    let byte = t.is_char_like();
    let at = m.reg(r)->0;
    let to = crate::isa::at(r);
    stored_at(w, m, cx, byte, to, value, x, at);
    let a = crate::codegen::common::plan_store_value(cx, byte, to, value)->Emit_0;
    let m1 = crate::machine::run(w, m, a, 0)->Through_0;
    let size = t.size() as u16;
    let after = pointer_moved(w, m1, UpdateOp::Inc, r, size);
    let b = Step::Op1(crate::isa::update(UpdateOp::Inc), Operand::<'a>::Reg(r)).times(size as nat);
    crate::laws::address::first_part(w, m, a, b, m1);
    assert(plan->Emit_0 =~= a + b);
}

/// `*d++ = *s++` for two pointers to characters in registers copies the byte
/// at the address that `s` held to the address that `d` held, and moves both
/// on by one.
pub proof fn char_copied_and_moved<'a>(
    w: World<'a>,
    m: Machine,
    cx: Cx<'a>,
    target: &'a Expr,
    name: &'a String,
    value: &'a Expr,
    inner: &'a Box<Expr>,
    src: &'a String,
    t: Type,
    st: Type,
    r: Reg,
    from: Reg,
)
    requires
        m.wf(),
        target.kind == (ExprKind::Update {
            target: *name,
            op: UpdateOp::Inc,
            position: UpdatePosition::Post,
        }),
        moves_over(*cx.env, *name, t, r),
        t.is_char_like(),
        value.kind == ExprKind::Deref(*inner),
        inner.kind == (ExprKind::Update {
            target: *src,
            op: UpdateOp::Inc,
            position: UpdatePosition::Post,
        }),
        moves_over(*cx.env, *src, st, from),
        st.is_char_like(),
        r != from,
    ensures
        ({
            let plan = crate::codegen::deref_write::plan_emit_deref_assign(cx, target, value);
            &&& plan matches Plan::Emit(steps)
            &&& crate::machine::run(w, m, steps, 0) matches Outcome::Through(after)
            &&& after.byte_at(m.reg(r)->0) == m.byte_at(m.reg(from)->0)
            &&& crate::machine::same_but(after.mem, m.mem, m.reg(r)->0, 1)
            &&& after.reg(r) == Some(crate::machine::wrap(m.reg(r)->0 + 1))
            &&& after.reg(from) == Some(crate::machine::wrap(m.reg(from)->0 + 1))
            &&& after.bp == m.bp
            &&& after.sp == m.sp
        }),
{
    let plan = crate::codegen::deref_write::plan_emit_deref_assign(cx, target, value);
    assert(plan == crate::codegen::deref_write::plan_deref_assign_post(cx, target, value));
    let steps = plan->Emit_0;
    let at = m.reg(r)->0;
    let to = crate::isa::at::<'a>(r);
    let al = crate::isa::al::<'a>();
    let m1 = crate::laws::byte::load_al(w, m, steps, 0, crate::isa::at(from));
    let m2 = put_at(w, m1, steps, 1, true, to, al, at, at, m1.ax);
    let m3 = crate::laws::word::step_register(w, m2, steps, 2, BinOp::Add, from);
    let after = crate::laws::word::step_register(w, m3, steps, 3, BinOp::Add, r);
    crate::machine::step_end(w, after, steps, 4);
}

/// `**p = v` and stores through deeper chains leave the value where the last
/// pointer of the chain points: the one that the first steps leave in `bx`.
pub proof fn chain_written<'a>(
    w: World<'a>,
    m: Machine,
    cx: Cx<'a>,
    name: &'a String,
    depth: u32,
    value: &'a Expr,
    t: &'a Type,
    x: int,
)
    requires
        crate::codegen::env::chain_type(cx.env, name, depth) == Some(t),
        (w.work)(Step::ChainToBx(name, depth), m).wf(),
        crate::laws::address::same_variables((w.work)(Step::ChainToBx(name, depth), m), m),
        is_worth_when_stored(w, m, cx, value, x),
    ensures
        stores(
            w,
            m,
            crate::codegen::deref_write::plan_deref_assign_chain(cx, name, depth, value),
            t.is_char_like(),
            (w.work)(Step::ChainToBx(name, depth), m).bx,
            x,
        ),
{
    let chain = Step::ChainToBx(name, depth);
    let m1 = (w.work)(chain, m);
    let first = seq![chain];
    crate::machine::step_on(w, m, first, 0, m1);
    crate::machine::step_end(w, m1, first, 1);
    let to = crate::isa::at(Reg::Bx);
    stored_behind(w, m, cx, first, m1, t.is_char_like(), to, value, x, m1.bx);
}

/// `*p = v` with the value already in `ax` stores it where `p` points, as a
/// character or as a word, and leaves `ax` as it was.
pub proof fn ax_stored_through<'a>(
    w: World<'a>,
    m: Machine,
    cx: Cx<'a>,
    target: &'a Expr,
    inner: &'a Box<Expr>,
    name: &'a String,
    t: Type,
)
    requires
        m.wf(),
        target.kind == ExprKind::Deref(*inner),
        inner.kind == ExprKind::Ident(*name),
        points_at(w, m, *cx.env, *name, t),
    ensures
        ({
            let plan = crate::codegen::deref_write::plan_emit_store_ax_to_lvalue(cx, target);
            let at = crate::laws::store::pointer_value(w, m, *cx.env, *name)->0;
            &&& stores(w, m, plan, t.is_char_like(), at, m.ax)
            &&& crate::machine::run(w, m, plan->Emit_0, 0)->Through_0.ax == m.ax
        }),
{
    let plan = crate::codegen::deref_write::plan_emit_store_ax_to_lvalue(cx, target);
    assert(plan == crate::codegen::deref_write::plan_store_through_name(cx, target));
    let at = crate::laws::store::pointer_value(w, m, *cx.env, *name)->0;
    let byte = t.is_char_like();
    let s = crate::isa::acc::<'a>(byte);
    match cx.env.local(name)->0.loc {
        LocalLocation::Reg(p) => {
            let to = crate::isa::at(p);
            let steps = plan->Emit_0;
            let after = put_at(w, m, steps, 0, byte, to, s, at, at, m.ax);
            crate::machine::step_end(w, after, steps, 1);
        },
        LocalLocation::Stack(off) => {
            let (first, m1) = pointer_loaded(w, m, off);
            let to = crate::isa::at(Reg::Bx);
            let steps = seq![crate::codegen::emitter::mov(crate::isa::sized(byte, to), s)];
            let after = put_at(w, m1, steps, 0, byte, to, s, at, at, m.ax);
            crate::machine::step_end(w, after, steps, 1);
            crate::laws::address::first_part(w, m, first, steps, m1);
            assert(plan->Emit_0 =~= first + steps);
        },
    }
}

/// `*d++ = *s++` for two pointers to integers in registers copies the word at
/// the address that `s` held to the address that `d` held, and moves both on
/// by two.
#[verifier::rlimit(60)]
pub proof fn word_copied_and_moved<'a>(
    w: World<'a>,
    m: Machine,
    cx: Cx<'a>,
    target: &'a Expr,
    name: &'a String,
    value: &'a Expr,
    inner: &'a Box<Expr>,
    src: &'a String,
    t: Type,
    st: Type,
    r: Reg,
    from: Reg,
)
    requires
        m.wf(),
        target.kind == (ExprKind::Update {
            target: *name,
            op: UpdateOp::Inc,
            position: UpdatePosition::Post,
        }),
        moves_over(*cx.env, *name, t, r),
        !t.is_char_like(),
        value.kind == ExprKind::Deref(*inner),
        inner.kind == (ExprKind::Update {
            target: *src,
            op: UpdateOp::Inc,
            position: UpdatePosition::Post,
        }),
        moves_over(*cx.env, *src, st, from),
        !st.is_char_like(),
        r != from,
    ensures
        ({
            let plan = crate::codegen::deref_write::plan_emit_deref_assign(cx, target, value);
            &&& plan matches Plan::Emit(steps)
            &&& crate::machine::run(w, m, steps, 0) matches Outcome::Through(after)
            &&& after.word_at(m.reg(r)->0) == m.word_at(m.reg(from)->0)
            &&& crate::machine::same_but(after.mem, m.mem, m.reg(r)->0, 2)
            &&& after.reg(r) == Some(crate::machine::wrap(m.reg(r)->0 + 2))
            &&& after.reg(from) == Some(crate::machine::wrap(m.reg(from)->0 + 2))
            &&& after.bp == m.bp
            &&& after.sp == m.sp
        }),
{
    let plan = crate::codegen::deref_write::plan_emit_deref_assign(cx, target, value);
    assert(plan == crate::codegen::deref_write::plan_deref_assign_post(cx, target, value));
    let steps = plan->Emit_0;
    let s = Step::Op1(crate::isa::update(UpdateOp::Inc), Operand::<'a>::Reg(from));
    let d = Step::Op1(crate::isa::update(UpdateOp::Inc), Operand::<'a>::Reg(r));
    let to = crate::isa::at::<'a>(r);
    let ax = crate::isa::ax::<'a>();
    assert(steps =~= seq![
        crate::codegen::emitter::mov(ax, crate::isa::word(crate::isa::at(from))),
        crate::codegen::emitter::mov(crate::isa::word(to), ax),
        s,
        s,
        d,
        d,
    ]);
    let at = m.reg(r)->0;
    let m1 = crate::laws::steps::load_word(w, m, steps, 0, Reg::Ax, crate::isa::at(from));
    let m2 = put_at(w, m1, steps, 1, false, to, ax, at, at, m1.ax);
    let m3 = crate::laws::copy::stepped_twice(w, m2, steps, 2, UpdateOp::Inc, from);
    let after = crate::laws::copy::stepped_twice(w, m3, steps, 4, UpdateOp::Inc, r);
    crate::machine::step_end(w, after, steps, 6);
}

/// `*p = k` for a pointer in a register to 32-bit integers leaves both halves
/// of the constant where `p` points, and nothing else in memory changes.
pub proof fn pointed_long_written<'a>(
    w: World<'a>,
    m: Machine,
    cx: Cx<'a>,
    target: &'a Expr,
    name: &'a String,
    value: &'a Expr,
    t: Type,
    c: u32,
)
    requires
        m.wf(),
        target.kind == ExprKind::Ident(*name),
        points_at(w, m, *cx.env, *name, t),
        t.is_long_like(),
        cx.env.const_of(value) == Some(c),
        value.kind is IntLit,
    ensures
        crate::laws::long::leaves_long(
            w,
            m,
            crate::codegen::deref_write::plan_emit_deref_assign(cx, target, value),
            crate::laws::store::pointer_value(w, m, *cx.env, *name)->0,
            c as int,
        ),
{
    let plan = crate::codegen::deref_write::plan_emit_deref_assign(cx, target, value);
    assert(plan == crate::codegen::deref_write::plan_deref_assign_local(cx, name, 0, value));
    let at = crate::laws::store::pointer_value(w, m, *cx.env, *name)->0;
    match cx.env.local(name)->0.loc {
        LocalLocation::Reg(p) => {
            let lo = crate::isa::at::<'a>(p);
            let hi = crate::isa::at2::<'a>(p);
            let first = Seq::<Step<'a>>::empty();
            crate::machine::step_end(w, m, first, 0);
            crate::laws::rows::typed_behind(w, m, first, m, t, lo, hi, c, at, at);
            assert(plan->Emit_0 =~= first + crate::laws::rows::typed_store(t, lo, hi, c));
        },
        LocalLocation::Stack(off) => {
            let lo = crate::isa::at::<'a>(Reg::Bx);
            let hi = crate::isa::at2::<'a>(Reg::Bx);
            let (first, m1) = pointer_loaded(w, m, off);
            crate::laws::rows::typed_behind(w, m, first, m1, t, lo, hi, c, at, at);
            assert(plan->Emit_0 =~= first + crate::laws::rows::typed_store(t, lo, hi, c));
        },
    }
}

/// A register that the source names takes a constant: all of it, or the half
/// that is named. Nothing else changes.
pub proof fn pseudo_assigned<'a>(
    w: World<'a>,
    m: Machine,
    cx: Cx<'a>,
    name: &'a String,
    value: &'a Expr,
    r: Reg,
    k: u32,
)
    requires
        m.wf(),
        cx.env.pseudo(name) == Some(r),
        cx.env.const_of(value) == Some(k),
        m.reg(r) is Some,
    ensures
        crate::laws::line::sets_register(
            w,
            m,
            crate::codegen::deref_write::plan_emit_assign_pseudo_register(cx, name, value),
            r,
            k as int % crate::machine::limit(r.is_byte()),
        ),
{
    let plan = crate::codegen::deref_write::plan_emit_assign_pseudo_register(cx, name, value);
    let steps = plan->Emit_0;
    let after = m.with_reg(r, k as int % crate::machine::limit(r.is_byte()))->0;
    assert(crate::machine::run_step(w, m, steps[0]) == Some(after));
    crate::machine::step_on(w, m, steps, 0, after);
    crate::machine::step_end(w, after, steps, 1);
}

/// The address of an element of an array of words on the stack, subscripted
/// by a register, formed in `bx`.
#[verifier::rlimit(60)]
proof fn element_address_formed<'a>(
    w: World<'a>,
    m: Machine,
    steps: Seq<Step<'a>>,
    base: i16,
    r: Reg,
) -> (after: Machine)
    requires
        m.wf(),
        r == Reg::Si || r == Reg::Di,
        steps.len() >= 4,
        steps[0] == crate::codegen::emitter::mov(crate::isa::bx::<'a>(), Operand::Reg(r)),
        steps[1] == crate::codegen::emitter::shl1(crate::isa::bx::<'a>()),
        steps[2] == crate::codegen::emitter::lea(crate::isa::ax::<'a>(), crate::isa::bp(base)),
        steps[3] == crate::codegen::emitter::add_to(crate::isa::bx::<'a>(), crate::isa::ax()),
    ensures
        crate::machine::run(w, m, steps, 0) == crate::machine::run(w, after, steps, 4),
        after.wf(),
        crate::laws::address::same_variables(after, m),
        crate::machine::wrap(after.bx) == crate::machine::wrap(m.bp + base + 2 * m.reg(r)->0),
{
    let v = m.reg(r)->0;
    let ax = Operand::<'a>::Reg(Reg::Ax);
    let m1 = crate::laws::steps::move_to_register(w, m, steps, 0, Reg::Bx, Operand::Reg(r));
    let m2 = crate::laws::steps::shift_register(w, m1, steps, 1, Mnemonic::Shl, Reg::Bx);
    assert(m2.bx == crate::machine::wrap(2 * v)) by {
        reveal(crate::laws::steps::shifted_once);
    }
    let m3 = crate::laws::steps::lea_to_register(w, m2, steps, 2, Reg::Ax, crate::isa::bp(base));
    let m4 = crate::laws::steps::direct_to_register(w, m3, steps, 3, BinOp::Add, Reg::Bx, ax);
    wrapped_sum(2 * v, m.bp + base);
    m4
}

/// Two numbers cut to 16 bits add up to the same 16 bits.
proof fn wrapped_sum(a: int, b: int)
    ensures
        crate::machine::wrap(
            crate::machine::wrap(crate::machine::wrap(a) + crate::machine::wrap(b)),
        ) == crate::machine::wrap(b + a),
{
}

/// `a[i] = e` for an array of integers on the stack and a subscript in a
/// register, with the address formed first, leaves the computed value in the
/// element. No other memory and no register changes that holds a variable.
#[verifier::rlimit(60)]
pub proof fn address_first_written<'a>(
    w: World<'a>,
    m: Machine,
    cx: Cx<'a>,
    target: &'a Expr,
    value: &'a Expr,
    array: &'a Box<Expr>,
    index: &'a Box<Expr>,
    name: &'a String,
    i: &'a String,
    base: i16,
    r: Reg,
    x: int,
)
    requires
        m.wf(),
        target.kind == (ExprKind::ArrayIndex { array: *array, index: *index }),
        array.kind == ExprKind::Ident(*name),
        cx.env.local_elem(name) matches Some(t) && crate::codegen::env::is_plain_int(t),
        cx.env.stack_of(name) == Some(base),
        cx.env.const_of(&**index) is None,
        index.kind == ExprKind::Ident(*i),
        cx.env.reg_of(i) == Some(r),
        r == Reg::Si || r == Reg::Di,
        crate::laws::rows::is_computed_as(w, m, cx, value, x),
    ensures
        crate::laws::line::puts_word(
            w,
            m,
            crate::codegen::deref_write::plan_emit_assign_lvalue_addr_first(cx, target, value),
            m.bp + base + 2 * m.reg(r)->0,
            x,
        ),
{
    let plan = crate::codegen::deref_write::plan_emit_assign_lvalue_addr_first(
        cx,
        target,
        value,
    );
    let steps = plan->Emit_0;
    let v = m.reg(r)->0;
    let at = m.bp + base + 2 * v;
    let ax = Operand::<'a>::Reg(Reg::Ax);
    let m4 = element_address_formed(w, m, steps, base, r);
    let m5 = crate::laws::long::evaluated(w, m4, cx, value);
    crate::machine::step_on(w, m4, steps, 4, m5);
    let to = crate::isa::at(Reg::Bx);
    let after = put_at(w, m5, steps, 5, false, to, ax, m4.bx, at, x);
    crate::machine::step_end(w, after, steps, 6);
}

} // verus!
