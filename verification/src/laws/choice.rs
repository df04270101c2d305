//! A choice between two constants stores the one that its condition picks.

use vstd::prelude::*;
use crate::ast::{Expr, ExprKind, Type};
use crate::codegen::emitter::{Cx, Plan, Step};
use crate::codegen::env::LocalLocation;
use crate::isa::{Mnemonic, Operand, Reg, Width};
use crate::machine::{Machine, Outcome, World};

verus! {

/// The code behind the condition of a choice, with a label for `||` in front
/// if there is one.
pub open spec fn choice_steps<'a>(own: Option<u32>, base: u32, yes: u32, no: u32, off: i16) -> Seq<
    Step<'a>,
> {
    let front = match own {
        Some(label) => seq![Step::Label(label)],
        None => seq![],
    };
    front + seq![
        Step::Op2(Mnemonic::Mov, Operand::Reg(Reg::Al), Operand::Imm(crate::isa::lo8(yes))),
        Step::Goto((base + 2) as u32),
        Step::Label((base + 1) as u32),
        Step::Op2(Mnemonic::Mov, Operand::Reg(Reg::Al), Operand::Imm(crate::isa::lo8(no))),
        Step::Label((base + 2) as u32),
        Step::Op2(
            Mnemonic::Mov,
            Operand::Mem(Width::Byte, crate::isa::bp(off)),
            Operand::Reg(Reg::Al),
        ),
    ]
}

/// A constant moved into `al`.
proof fn byte_in_al<'a>(w: World<'a>, m: Machine, steps: Seq<Step<'a>>, i: int, k: u32) -> (after:
    Machine)
    requires
        m.wf(),
        0 <= i < steps.len(),
        steps[i] == Step::Op2(
            Mnemonic::Mov,
            Operand::Reg(Reg::Al),
            Operand::<'a>::Imm(crate::isa::lo8(k)),
        ),
    ensures
        crate::machine::run(w, m, steps, i) == crate::machine::run(w, after, steps, i + 1),
        after == (Machine { ax: after.ax, ..m }),
        after.ax % 0x100 == k as int % 0x100,
{
    let after = Machine { ax: m.ax / 0x100 * 0x100 + k as int % 0x100, ..m };
    assert(crate::machine::run_step(w, m, steps[i]) == Some(after));
    crate::machine::step_on(w, m, steps, i, after);
    after
}

/// `al` stored in the stack frame by the last step of some code.
proof fn al_stored<'a>(w: World<'a>, m: Machine, steps: Seq<Step<'a>>, i: int, off: i16, k: u32)
    requires
        0 <= i,
        steps.len() == i + 1,
        steps[i] == Step::Op2(
            Mnemonic::Mov,
            Operand::Mem(Width::Byte, crate::isa::bp(off)),
            Operand::Reg(Reg::Al),
        ),
        m.ax % 0x100 == k as int % 0x100,
    ensures
        crate::machine::run(w, m, steps, i) == Outcome::Through(
            m.with_byte(m.bp + off, k as int % 0x100),
        ),
{
    let after = m.with_byte(m.bp + off, k as int % 0x100);
    assert(crate::machine::run_step(w, m, steps[i]) == Some(after));
    crate::machine::step_on(w, m, steps, i, after);
    crate::machine::step_end(w, after, steps, i + 1);
}

/// Where the code behind the condition of a choice leads if it is fallen
/// through to.
proof fn first_chosen<'a>(
    w: World<'a>,
    m: Machine,
    own: Option<u32>,
    base: u32,
    yes: u32,
    no: u32,
    off: i16,
    i: int,
) -> (after: Machine)
    requires
        m.wf(),
        base <= 0xFFFF_FFFD,
        own is Some ==> own == Some(base),
        i == (if own is Some { 1int } else { 0 }),
    ensures
        crate::machine::run(w, m, choice_steps(own, base, yes, no, off), i) == Outcome::Through(
            after,
        ),
        after.mem == m.mem.insert(crate::machine::wrap(m.bp + off), yes as int % 0x100),
{
    let steps = choice_steps::<'a>(own, base, yes, no, off);
    let m1 = byte_in_al(w, m, steps, i, yes);
    let over = (base + 2) as u32;
    crate::machine::step_jump(w, m1, steps, i + 1, over);
    reveal_with_fuel(crate::machine::behind_label, 4);
    assert(crate::machine::behind_label(steps, over, i + 2) == Some(i + 5));
    al_stored(w, m1, steps, i + 5, off, yes);
    m1.with_byte(m1.bp + off, yes as int % 0x100)
}

/// Where the code behind the condition of a choice leads from its second
/// label on.
proof fn second_chosen<'a>(
    w: World<'a>,
    m: Machine,
    own: Option<u32>,
    base: u32,
    yes: u32,
    no: u32,
    off: i16,
) -> (after: Machine)
    requires
        m.wf(),
        base <= 0xFFFF_FFFD,
        own is Some ==> own == Some(base),
    ensures
        crate::machine::jump_to(
            w,
            m,
            choice_steps(own, base, yes, no, off),
            0,
            (base + 1) as u32,
        ) == Outcome::Through(after),
        after.mem == m.mem.insert(crate::machine::wrap(m.bp + off), no as int % 0x100),
{
    let steps = choice_steps::<'a>(own, base, yes, no, off);
    let i: int = if own is Some { 1 } else { 0 };
    reveal_with_fuel(crate::machine::behind_label, 5);
    assert(crate::machine::behind_label(steps, (base + 1) as u32, 0) == Some(i + 3));
    let m1 = byte_in_al(w, m, steps, i + 3, no);
    crate::machine::step_past(w, m1, steps, i + 4);
    al_stored(w, m1, steps, i + 5, off, no);
    m1.with_byte(m1.bp + off, no as int % 0x100)
}

/// `x = c ? a : b` for a character in the stack frame and two constants
/// stores `a` if the code of the condition decides for true, and `b` if it
/// decides for false, cut to a byte. Nothing else in memory changes.
pub proof fn choice_assign<'a>(
    w: World<'a>,
    m: Machine,
    cx: Cx<'a>,
    off: i16,
    ty: &'a Type,
    value: &'a Expr,
    cond: &'a Box<Expr>,
    then_value: &'a Box<Expr>,
    else_value: &'a Box<Expr>,
    yes: u32,
    no: u32,
    base: u32,
    truth: bool,
    middle: Machine,
)
    requires
        ty.is_char_like(),
        value.kind == (ExprKind::Ternary {
            cond: *cond,
            then_value: *then_value,
            else_value: *else_value,
        }),
        cx.env.const_of(value) is None,
        cx.env.const_of(&**then_value) == Some(yes),
        cx.env.const_of(&**else_value) == Some(no),
        cx.env.facts(value).label_base == Some(base),
        base <= 0xFFFF_FFFD,
        crate::laws::flow::decides(
            w,
            m,
            crate::codegen::conditions::plan_emit_cond_branch(
                cx,
                &**cond,
                crate::codegen::assign_local::top_or_label(&**cond, base),
                Some((base + 1) as u32),
            ),
            truth,
            middle,
            crate::codegen::assign_local::top_or_label(&**cond, base),
            Some((base + 1) as u32),
        ),
        middle.wf(),
        middle.mem == m.mem,
        middle.bp == m.bp,
    ensures
        crate::laws::byte::leaves_byte(
            w,
            m,
            crate::codegen::assign_local::plan_emit_assign_local(
                cx,
                LocalLocation::Stack(off),
                ty,
                value,
            ),
            m.bp + off,
            (if truth { yes } else { no }) as int % 0x100,
        ),
{
    let own = crate::codegen::assign_local::top_or_label(&**cond, base);
    let a = crate::codegen::conditions::plan_emit_cond_branch(
        cx,
        &**cond,
        own,
        Some((base + 1) as u32),
    )->Emit_0;
    let b = choice_steps::<'a>(own, base, yes, no, off);
    choice_plan(cx, off, ty, value, cond, then_value, else_value, yes, no, base);
    crate::laws::flow::run_parts(w, m, a, b, 0);
    let picked = (if truth { yes } else { no }) as int % 0x100;
    crate::laws::byte::byte_written(m.mem, m.bp + off, picked);
    if truth {
        let i: int = if own is Some { 1 } else { 0 };
        let after = first_chosen(w, middle, own, base, yes, no, off, i);
        match crate::machine::run(w, m, a, 0) {
            Outcome::To(label, n) => {
                crate::laws::flow::jump_second(w, middle, a, b, 0, label);
                reveal_with_fuel(crate::machine::behind_label, 2);
            },
            _ => {
                crate::laws::flow::run_second(w, middle, a, b, 0);
                if own is Some {
                    crate::machine::step_past(w, middle, b, 0);
                }
            },
        }
    } else {
        let after = second_chosen(w, middle, own, base, yes, no, off);
        crate::laws::flow::jump_second(w, middle, a, b, 0, (base + 1) as u32);
    }
}

/// The code of a choice: the condition, and what stands behind it.
proof fn choice_plan<'a>(
    cx: Cx<'a>,
    off: i16,
    ty: &'a Type,
    value: &'a Expr,
    cond: &'a Box<Expr>,
    then_value: &'a Box<Expr>,
    else_value: &'a Box<Expr>,
    yes: u32,
    no: u32,
    base: u32,
)
    requires
        ty.is_char_like(),
        value.kind == (ExprKind::Ternary {
            cond: *cond,
            then_value: *then_value,
            else_value: *else_value,
        }),
        cx.env.const_of(value) is None,
        cx.env.const_of(&**then_value) == Some(yes),
        cx.env.const_of(&**else_value) == Some(no),
        cx.env.facts(value).label_base == Some(base),
        base <= 0xFFFF_FFFD,
        crate::codegen::conditions::plan_emit_cond_branch(
            cx,
            &**cond,
            crate::codegen::assign_local::top_or_label(&**cond, base),
            Some((base + 1) as u32),
        ) is Emit,
    ensures
        crate::codegen::assign_local::plan_emit_assign_local(
            cx,
            LocalLocation::Stack(off),
            ty,
            value,
        ) == Plan::Emit(
            crate::codegen::conditions::plan_emit_cond_branch(
                cx,
                &**cond,
                crate::codegen::assign_local::top_or_label(&**cond, base),
                Some((base + 1) as u32),
            )->Emit_0 + choice_steps(
                crate::codegen::assign_local::top_or_label(&**cond, base),
                base,
                yes,
                no,
                off,
            ),
        ),
{
    let own = crate::codegen::assign_local::top_or_label(&**cond, base);
    let a = crate::codegen::conditions::plan_emit_cond_branch(
        cx,
        &**cond,
        own,
        Some((base + 1) as u32),
    )->Emit_0;
    let plan = crate::codegen::assign_local::plan_emit_assign_local(
        cx,
        LocalLocation::Stack(off),
        ty,
        value,
    );
    assert(plan == crate::codegen::assign_local::plan_local_char_choice(cx, off, ty, value));
    assert(plan is Emit);
    assert(plan->Emit_0 =~= a + choice_steps(own, base, yes, no, off));
}

} // verus!
