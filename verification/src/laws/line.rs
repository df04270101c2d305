//! What code leaves behind: one value in one place, and everything else as
//! it was.

use vstd::prelude::*;
use crate::codegen::emitter::Plan;
use crate::isa::Reg;
use crate::machine::{Machine, Outcome, World};

verus! {

/// Whether a plan goes through, leaves a value in a register and changes
/// nothing else that a program can name: no other register, and no memory.
pub open spec fn sets_register<'a>(
    w: World<'a>,
    m: Machine,
    plan: Plan<'a>,
    r: Reg,
    value: int,
) -> bool {
    &&& plan matches Plan::Emit(steps)
    &&& crate::machine::run(w, m, steps, 0) matches Outcome::Through(after)
    &&& m.with_reg(r, value) matches Some(wanted) && crate::laws::steps::same_regs(after, wanted)
    &&& after.mem == m.mem
}

/// Whether a plan goes through, leaves a value in a register that holds a
/// variable and changes no other variable: the general registers that
/// results pass through may change, memory may not.
pub open spec fn sets_variable<'a>(
    w: World<'a>,
    m: Machine,
    plan: Plan<'a>,
    r: Reg,
    value: int,
) -> bool {
    &&& plan matches Plan::Emit(steps)
    &&& crate::machine::run(w, m, steps, 0) matches Outcome::Through(after)
    &&& m.with_reg(r, value) matches Some(wanted) && crate::laws::address::same_variables(
        after,
        wanted,
    )
    &&& after.reg(r) == Some(value)
}

/// Whether a plan goes through, leaves a word at an address and changes no
/// other memory and no register.
pub open spec fn sets_word<'a>(
    w: World<'a>,
    m: Machine,
    plan: Plan<'a>,
    at: int,
    value: int,
) -> bool {
    &&& plan matches Plan::Emit(steps)
    &&& crate::machine::run(w, m, steps, 0) matches Outcome::Through(after)
    &&& after.word_at(at) == value
    &&& crate::machine::same_but(after.mem, m.mem, at, 2)
    &&& crate::laws::steps::same_regs(after, m)
}

/// Whether two machines agree in the registers that hold variables.
pub open spec fn same_holders(m: Machine, n: Machine) -> bool {
    &&& m.si == n.si
    &&& m.di == n.di
    &&& m.bp == n.bp
    &&& m.sp == n.sp
}

/// Whether a plan goes through, leaves a word at an address and changes no
/// other memory and no register that holds a variable.
pub open spec fn puts_word<'a>(
    w: World<'a>,
    m: Machine,
    plan: Plan<'a>,
    at: int,
    value: int,
) -> bool {
    &&& plan matches Plan::Emit(steps)
    &&& crate::machine::run(w, m, steps, 0) matches Outcome::Through(after)
    &&& after.word_at(at) == value
    &&& crate::machine::same_but(after.mem, m.mem, at, 2)
    &&& same_holders(after, m)
}

/// Whether a plan goes through, leaves a byte at an address and changes no
/// other memory and no register that holds a variable.
pub open spec fn puts_byte<'a>(
    w: World<'a>,
    m: Machine,
    plan: Plan<'a>,
    at: int,
    value: int,
) -> bool {
    &&& plan matches Plan::Emit(steps)
    &&& crate::machine::run(w, m, steps, 0) matches Outcome::Through(after)
    &&& after.byte_at(at) == value
    &&& crate::machine::same_but(after.mem, m.mem, at, 1)
    &&& same_holders(after, m)
}

} // verus!
