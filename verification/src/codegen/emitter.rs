//! The emitter: a list of steps that grows, and the plans that say what is
//! appended to it.

use vstd::prelude::*;
use crate::ast::{BinOp, Expr, Type, UpdateOp, UpdatePosition};
use crate::codegen::env::Env;
use crate::isa::{Addr, Helper, Jcc, Mnemonic, Operand, Reg};

verus! {

/// One step of the emitted code. A step is either an assembler line, or a
/// piece of work that another part of the code generator expands in its
/// place.
#[derive(Debug, Clone, Copy)]
pub enum Step<'a> {
    /// An instruction without operands.
    Op0(Mnemonic),
    /// An instruction with one operand.
    Op1(Mnemonic, Operand<'a>),
    /// An instruction with two operands.
    Op2(Mnemonic, Operand<'a>, Operand<'a>),
    /// A conditional jump to a label.
    Jump(Jcc, u32),
    /// A conditional jump to a label behind a comparison that may have
    /// exchanged its operands; if it did, the condition is mirrored.
    JumpMirrored(Jcc, u32),
    /// An unconditional jump to a label.
    Goto(u32),
    /// A label.
    Label(u32),
    /// A call of a run-time routine, which is also recorded as used.
    Call(Helper),
    /// Evaluate an expression into `ax`; with the flag, a byte that is
    /// loaded last need not be widened.
    ToAx(&'a Expr, bool),
    /// Evaluate an expression for its effects.
    Discard(&'a Expr),
    /// Call a function.
    CallFn(&'a String, &'a Vec<Expr>),
    /// Call a function that stores a struct through a hidden pointer to this
    /// frame slot.
    CallFnInto(&'a String, &'a Vec<Expr>, i16),
    /// Widen `al` to `ax` as a value of this type, unless the flag is set.
    WidenAl(&'a Type, bool),
    /// Compare two expressions.
    Compare(&'a Expr, &'a Expr),
    /// Compare an expression with zero.
    ZeroTest(&'a Expr),
    /// Compare two floating-point expressions and branch.
    FloatBranch(BinOp, &'a Expr, &'a Expr, Option<u32>, Option<u32>),
    /// Load a floating-point expression onto the coprocessor stack.
    FloatLoad(&'a Expr),
    /// A coprocessor store has to be waited for before its value is used.
    PendingWait,
    /// Follow a pointer variable this many times, leaving a pointer in `bx`.
    ChainToBx(&'a String, u32),
    /// Apply `++` or `--` to a variable.
    UpdateInPlace(&'a String, UpdateOp, UpdatePosition),
    /// Apply `inc` or `dec` to a register so many times at the end of the
    /// statement.
    DeferUpdate(Reg, u16, UpdateOp),
    /// Read through a `_seg` pointer and an offset into `ax`.
    SelectorRead(&'a String, &'a Type, &'a Expr),
    /// Write a value through a `_seg` pointer and an offset.
    SelectorWrite(&'a String, &'a Type, &'a Expr, &'a Expr),
    /// Read a character of a string literal into `ax`.
    IndexString(&'a Vec<u8>, &'a Expr),
    /// Read an element through a local pointer into `ax`.
    IndexPointer(&'a String, &'a Type, &'a Expr),
    /// Read an element through a file-scope pointer into `ax`.
    IndexGlobalPointer(&'a String, &'a Type, &'a Expr),
    /// Compute a 32-bit value into two words, the high one named first.
    LongTo(&'a Expr, Addr<'a>, Addr<'a>),
    /// Apply a compound assignment to a 32-bit integer whose low and high
    /// word are named; the flag says that it is unsigned.
    LongCompound(Addr<'a>, Addr<'a>, BinOp, &'a Expr, bool),
    /// Divide so that the remainder is left in `dx`.
    Remainder(&'a Expr, &'a Expr),
    /// Store what was just computed into an operand: from `dx` if the last
    /// instructions could be rewritten to leave it there, else from `ax`.
    StoreCollapsed(Operand<'a>),
    /// Apply an instruction to a register and what was just computed, taken
    /// from `dx` if the last instructions could be rewritten to leave it
    /// there, else from `ax`. With the flag, if they could not and the last
    /// one applied an immediate to `ax`, the sum is made in `dx`.
    ApplyCollapsed(Mnemonic, Reg, bool),
}

/// What the surroundings and the flags of the generator are at one point.
#[derive(Debug, Clone, Copy)]
pub struct Cx<'a> {
    pub env: &'a Env,
    /// Whether bytes that are loaded need not be widened.
    pub skip_widen: bool,
    /// Whether an argument of a call is being evaluated.
    pub in_arg_expr: bool,
}

/// What is emitted for a piece of syntax.
pub enum Plan<'a> {
    /// The rule does not apply.
    Skip,
    /// The rule applies, but the shape is not supported.
    Stuck,
    /// These steps are appended.
    Emit(Seq<Step<'a>>),
}

/// How to branch on a test that was emitted.
#[derive(Debug, Clone, Copy, PartialEq, Eq, Structural)]
pub struct Test {
    /// The jump taken if the condition is true.
    pub yes: Jcc,
    /// The jump taken if it is false.
    pub no: Jcc,
    /// Whether the jumps depend on the order in which the operands were
    /// compared.
    pub mirror: bool,
}

/// What is emitted for a condition, with the jumps to follow.
pub enum Probe<'a> {
    /// The rule does not apply.
    Skip,
    /// The rule applies, but the shape is not supported.
    Stuck,
    /// These steps are appended, and the condition is then told this way.
    Emit(Seq<Step<'a>>, Test),
}

impl<'a> Plan<'a> {
    /// One plan after another; both have to emit something.
    pub open spec fn followed_by(self, next: Plan<'a>) -> Plan<'a> {
        match (self, next) {
            (Plan::Emit(a), Plan::Emit(b)) => Plan::Emit(a + b),
            _ => Plan::Stuck,
        }
    }

    /// A plan, and then a test.
    pub open spec fn followed_by_test(self, next: Probe<'a>) -> Probe<'a> {
        match (self, next) {
            (Plan::Emit(a), Probe::Emit(b, t)) => Probe::Emit(a + b, t),
            _ => Probe::Stuck,
        }
    }
}

impl<'a> Step<'a> {
    /// The step so many times over.
    pub open spec fn times(self, n: nat) -> Seq<Step<'a>> {
        Seq::new(n, |i: int| self)
    }
}

/// A move.
#[verifier::allow_in_spec]
pub fn mov<'a>(d: Operand<'a>, s: Operand<'a>) -> Step<'a>
    returns
        (Step::Op2(Mnemonic::Mov, d, s)),
{
    Step::Op2(Mnemonic::Mov, d, s)
}

/// An instruction with a destination and a source.
#[verifier::allow_in_spec]
pub fn op2<'a>(m: Mnemonic, d: Operand<'a>, s: Operand<'a>) -> Step<'a>
    returns
        (Step::Op2(m, d, s)),
{
    Step::Op2(m, d, s)
}

/// An instruction with one operand.
#[verifier::allow_in_spec]
pub fn op1<'a>(m: Mnemonic, d: Operand<'a>) -> Step<'a>
    returns
        (Step::Op1(m, d)),
{
    Step::Op1(m, d)
}

/// An addition.
#[verifier::allow_in_spec]
pub fn add_to<'a>(d: Operand<'a>, s: Operand<'a>) -> Step<'a>
    returns
        (Step::Op2(Mnemonic::Add, d, s)),
{
    Step::Op2(Mnemonic::Add, d, s)
}

/// A comparison.
#[verifier::allow_in_spec]
pub fn compare<'a>(d: Operand<'a>, s: Operand<'a>) -> Step<'a>
    returns
        (Step::Op2(Mnemonic::Cmp, d, s)),
{
    Step::Op2(Mnemonic::Cmp, d, s)
}

/// An inclusive or.
#[verifier::allow_in_spec]
pub fn or_to<'a>(d: Operand<'a>, s: Operand<'a>) -> Step<'a>
    returns
        (Step::Op2(Mnemonic::Or, d, s)),
{
    Step::Op2(Mnemonic::Or, d, s)
}

/// An address computation.
#[verifier::allow_in_spec]
pub fn lea<'a>(d: Operand<'a>, a: Addr<'a>) -> Step<'a>
    returns
        (Step::Op2(Mnemonic::Lea, d, Operand::Mem(crate::isa::Width::Word, a))),
{
    Step::Op2(Mnemonic::Lea, d, Operand::Mem(crate::isa::Width::Word, a))
}

/// A left shift by one.
#[verifier::allow_in_spec]
pub fn shl1<'a>(d: Operand<'a>) -> Step<'a>
    returns
        (Step::Op2(Mnemonic::Shl, d, Operand::Imm(1))),
{
    Step::Op2(Mnemonic::Shl, d, Operand::Imm(1))
}

/// A push.
#[verifier::allow_in_spec]
pub fn push<'a>(d: Operand<'a>) -> Step<'a>
    returns
        (Step::Op1(Mnemonic::Push, d)),
{
    Step::Op1(Mnemonic::Push, d)
}

/// A pop.
#[verifier::allow_in_spec]
pub fn pop<'a>(d: Operand<'a>) -> Step<'a>
    returns
        (Step::Op1(Mnemonic::Pop, d)),
{
    Step::Op1(Mnemonic::Pop, d)
}

/// `cbw`: the sign of `al` fills `ah`.
#[verifier::allow_in_spec]
pub fn cbw<'a>() -> Step<'a>
    returns
        (Step::Op0(Mnemonic::Cbw)),
{
    Step::Op0(Mnemonic::Cbw)
}

/// `cwd`: the sign of `ax` fills `dx`.
#[verifier::allow_in_spec]
pub fn cwd<'a>() -> Step<'a>
    returns
        (Step::Op0(Mnemonic::Cwd)),
{
    Step::Op0(Mnemonic::Cwd)
}

/// Clearing a register.
#[verifier::allow_in_spec]
pub fn clear<'a>(reg: Reg) -> Step<'a>
    returns
        (Step::Op2(Mnemonic::Xor, Operand::Reg(reg), Operand::Reg(reg))),
{
    Step::Op2(Mnemonic::Xor, Operand::Reg(reg), Operand::Reg(reg))
}

/// Widening `al` to `ax` with or without sign.
#[verifier::allow_in_spec]
pub fn widen<'a>(unsigned: bool) -> Step<'a>
    returns
        (if unsigned {
            Step::Op2(Mnemonic::Mov, Operand::Reg(Reg::Ah), Operand::Imm(0))
        } else {
            Step::Op0(Mnemonic::Cbw)
        }),
{
    if unsigned {
        Step::Op2(Mnemonic::Mov, Operand::Reg(Reg::Ah), Operand::Imm(0))
    } else {
        Step::Op0(Mnemonic::Cbw)
    }
}

/// Widening `ax` to `dx:ax` with or without sign.
#[verifier::allow_in_spec]
pub fn widen_long<'a>(unsigned: bool) -> Step<'a>
    returns
        (if unsigned {
            Step::Op2(Mnemonic::Xor, Operand::Reg(Reg::Dx), Operand::Reg(Reg::Dx))
        } else {
            Step::Op0(Mnemonic::Cwd)
        }),
{
    if unsigned {
        Step::Op2(Mnemonic::Xor, Operand::Reg(Reg::Dx), Operand::Reg(Reg::Dx))
    } else {
        Step::Op0(Mnemonic::Cwd)
    }
}

/// A multiplication of the accumulator.
#[verifier::allow_in_spec]
pub fn imul<'a>(s: Operand<'a>) -> Step<'a>
    returns
        (Step::Op1(Mnemonic::Imul, s)),
{
    Step::Op1(Mnemonic::Imul, s)
}

/// A signed division of the accumulator.
#[verifier::allow_in_spec]
pub fn idiv<'a>(s: Operand<'a>) -> Step<'a>
    returns
        (Step::Op1(Mnemonic::Idiv, s)),
{
    Step::Op1(Mnemonic::Idiv, s)
}

/// Evaluating an expression into `ax`.
#[verifier::allow_in_spec]
pub fn to_ax<'a>(cx: Cx<'a>, e: &'a Expr) -> Step<'a>
    returns
        (Step::ToAx(e, cx.skip_widen)),
{
    Step::ToAx(e, cx.skip_widen)
}

/// Widening `al` to `ax` as a value of a type.
#[verifier::allow_in_spec]
pub fn widen_al<'a>(cx: Cx<'a>, ty: &'a Type) -> Step<'a>
    returns
        (Step::WidenAl(ty, cx.skip_widen)),
{
    Step::WidenAl(ty, cx.skip_widen)
}

/// A call of a run-time routine.
#[verifier::allow_in_spec]
pub fn call<'a>(helper: Helper) -> Step<'a>
    returns
        (Step::Call(helper)),
{
    Step::Call(helper)
}

/// A jump to a label.
#[verifier::allow_in_spec]
pub fn jump<'a>(jcc: Jcc, slot: u32) -> Step<'a>
    returns
        (Step::Jump(jcc, slot)),
{
    Step::Jump(jcc, slot)
}

/// The function emitter: the surroundings, and what was emitted so far.
#[derive(Debug)]
pub struct FunctionEmitter<'a> {
    pub cx: Cx<'a>,
    pub out: Vec<Step<'a>>,
}

impl<'a> FunctionEmitter<'a> {
    /// What a rule leaves behind: its steps if it applies, else nothing.
    pub open spec fn ran(self, before: FunctionEmitter<'a>, plan: Plan<'a>, done: bool) -> bool {
        &&& self.cx == before.cx
        &&& done == plan is Emit
        &&& self.out@ =~= (match plan {
            Plan::Emit(steps) => before.out@ + steps,
            _ => before.out@,
        })
    }

    /// What an emission leaves behind: its steps.
    pub open spec fn wrote(self, before: FunctionEmitter<'a>, plan: Plan<'a>) -> bool {
        &&& self.cx == before.cx
        &&& plan is Emit
        &&& self.out@ =~= before.out@ + plan->Emit_0
    }

    /// What a test leaves behind: its steps and how to branch on it, if it
    /// applies, else nothing.
    pub open spec fn probed(
        self,
        before: FunctionEmitter<'a>,
        plan: Probe<'a>,
        test: Option<Test>,
    ) -> bool {
        &&& self.cx == before.cx
        &&& self.out@ =~= (match plan {
            Probe::Emit(steps, _) => before.out@ + steps,
            _ => before.out@,
        })
        &&& test == (match plan {
            Probe::Emit(_, t) => Some(t),
            _ => None,
        })
    }

    /// An emitter that has emitted nothing.
    pub fn new(env: &'a Env) -> (r: Self)
        ensures
            r.cx == (Cx { env, skip_widen: false, in_arg_expr: false }),
            r.out@ == Seq::<Step<'a>>::empty(),
    {
        FunctionEmitter {
            cx: Cx { env, skip_widen: false, in_arg_expr: false },
            out: Vec::new(),
        }
    }

    /// Appends one step.
    pub fn put(&mut self, step: Step<'a>)
        ensures
            final(self).cx == old(self).cx,
            final(self).out@ == old(self).out@.push(step),
    {
        self.out.push(step);
    }

    /// Appends a step so many times.
    pub fn put_times(&mut self, step: Step<'a>, n: u64)
        ensures
            final(self).cx == old(self).cx,
            final(self).out@ == old(self).out@ + step.times(n as nat),
    {
        let mut i: u64 = 0;
        while i < n
            invariant
                i <= n,
                self.cx == old(self).cx,
                self.out@ =~= old(self).out@ + step.times(i as nat),
            decreases n - i,
        {
            self.out.push(step);
            i += 1;
        }
    }
}

} // verus!
