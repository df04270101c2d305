//! What emitted code does when it runs.
//!
//! A small model of the 8086 gives the steps of the emitter a meaning, so
//! that the code planned for a piece of syntax can be held against what the
//! syntax asks for. The model knows the general registers, the flags and
//! the bytes of the data segment. Addresses wrap around at 16 bits. Code
//! that goes through another segment, and the coprocessor, are left out.

use vstd::prelude::*;
use crate::ast::BinOp;
use crate::codegen::emitter::Step;
use crate::isa::{Addr, Disp, Jcc, Mnemonic, Operand, Reg, Width};

verus! {

/// The registers, the flags and the memory at one moment.
#[verifier::ext_equal]
pub ghost struct Machine {
    pub ax: int,
    pub bx: int,
    pub cx: int,
    pub dx: int,
    pub si: int,
    pub di: int,
    pub bp: int,
    pub sp: int,
    pub carry: bool,
    pub zero: bool,
    pub negative: bool,
    pub overflow: bool,
    /// Whether a comparison that another part of the generator expanded last
    /// took its operands in the other order.
    pub swapped: bool,
    /// The byte at each offset of the data segment.
    pub mem: Map<int, int>,
}

/// What the code runs in: where the linker has put the symbols, what the
/// addresses and operands known as text stand for, and what the steps do
/// that another part of the generator expands.
pub ghost struct World<'a> {
    pub symbol: spec_fn(Seq<char>) -> int,
    pub place: spec_fn(Seq<char>) -> int,
    pub operand: spec_fn(Seq<char>, Machine) -> int,
    pub work: spec_fn(Step<'a>, Machine) -> Machine,
}

/// Where a run of code ends.
pub ghost enum Outcome {
    /// Behind the last step.
    Through(Machine),
    /// At a label outside the code.
    To(u32, Machine),
    /// At a step that the model does not know.
    Lost,
}

/// A number cut to 16 bits.
pub open spec fn wrap(x: int) -> int {
    x % 0x1_0000
}

/// How many values a byte or a word has.
pub open spec fn limit(byte: bool) -> int {
    if byte { 0x100 } else { 0x1_0000 }
}

/// A byte or a word read as a signed number.
pub open spec fn with_sign(x: int, byte: bool) -> int {
    if x >= limit(byte) / 2 { x - limit(byte) } else { x }
}

/// A 32-bit number made of two words.
pub open spec fn pair(hi: int, lo: int) -> int {
    hi * 0x1_0000 + lo
}

/// A number read as a signed 32-bit number.
pub open spec fn signed_pair(x: int) -> int {
    if x >= 0x8000_0000 { x - 0x1_0000_0000 } else { x }
}

/// A displacement as a number.
pub open spec fn distance(d: Disp) -> int {
    match d {
        Disp::Zero => 0,
        Disp::Plus(n) => n as int,
        Disp::Minus(n) => -n,
    }
}

/// The word at an address of a memory, its low byte first.
#[verifier::opaque]
pub open spec fn word_in(mem: Map<int, int>, a: int) -> int {
    mem[wrap(a)] + 0x100 * mem[wrap(a + 1)]
}

/// A memory with another word at an address.
#[verifier::opaque]
pub open spec fn put_word(mem: Map<int, int>, a: int, v: int) -> Map<int, int> {
    mem.insert(wrap(a), v % 0x100).insert(wrap(a + 1), v / 0x100)
}

/// Whether two memories agree outside `n` bytes from an address on.
#[verifier::opaque]
pub open spec fn same_but(one: Map<int, int>, other: Map<int, int>, a: int, n: int) -> bool {
    forall|b: int| wrap(b - a) >= n && 0 <= b < 0x1_0000 ==> #[trigger] one[b] == other[b]
}

/// The jump that tells of `b` and `a` what a jump tells of `a` and `b`.
pub open spec fn mirrored(j: Jcc) -> Jcc {
    match j {
        Jcc::Jl => Jcc::Jg,
        Jcc::Jg => Jcc::Jl,
        Jcc::Jle => Jcc::Jge,
        Jcc::Jge => Jcc::Jle,
        Jcc::Jb => Jcc::Ja,
        Jcc::Ja => Jcc::Jb,
        Jcc::Jbe => Jcc::Jae,
        Jcc::Jae => Jcc::Jbe,
        other => other,
    }
}

impl Machine {
    /// Whether every register holds a word and every place in memory a
    /// byte.
    pub open spec fn wf(self) -> bool {
        &&& 0 <= self.ax < 0x1_0000
        &&& 0 <= self.bx < 0x1_0000
        &&& 0 <= self.cx < 0x1_0000
        &&& 0 <= self.dx < 0x1_0000
        &&& 0 <= self.si < 0x1_0000
        &&& 0 <= self.di < 0x1_0000
        &&& 0 <= self.bp < 0x1_0000
        &&& 0 <= self.sp < 0x1_0000
        &&& forall|a: int| 0 <= #[trigger] self.mem[a] < 0x100
    }

    /// The byte at an address.
    pub open spec fn byte_at(self, a: int) -> int {
        self.mem[wrap(a)]
    }

    /// The word at an address, its low byte first.
    pub open spec fn word_at(self, a: int) -> int {
        word_in(self.mem, a)
    }

    /// The pair of words at an address, its low word first.
    pub open spec fn long_at(self, a: int) -> int {
        pair(self.word_at(a + 2), self.word_at(a))
    }

    /// The machine with another byte at an address.
    pub open spec fn with_byte(self, a: int, v: int) -> Machine {
        Machine { mem: self.mem.insert(wrap(a), v), ..self }
    }

    /// The machine with another word at an address.
    pub open spec fn with_word(self, a: int, v: int) -> Machine {
        Machine { mem: put_word(self.mem, a, v), ..self }
    }

    /// What a register holds; `None` for a segment register.
    pub open spec fn reg(self, r: Reg) -> Option<int> {
        match r {
            Reg::Ax => Some(self.ax),
            Reg::Bx => Some(self.bx),
            Reg::Cx => Some(self.cx),
            Reg::Dx => Some(self.dx),
            Reg::Si => Some(self.si),
            Reg::Di => Some(self.di),
            Reg::Bp => Some(self.bp),
            Reg::Sp => Some(self.sp),
            Reg::Al => Some(self.ax % 0x100),
            Reg::Bl => Some(self.bx % 0x100),
            Reg::Cl => Some(self.cx % 0x100),
            Reg::Dl => Some(self.dx % 0x100),
            Reg::Ah => Some(self.ax / 0x100),
            Reg::Bh => Some(self.bx / 0x100),
            Reg::Ch => Some(self.cx / 0x100),
            Reg::Dh => Some(self.dx / 0x100),
            Reg::Cs | Reg::Ds | Reg::Es | Reg::Ss => None,
        }
    }

    /// The machine with another value in a register; half a register keeps
    /// its other half.
    pub open spec fn with_reg(self, r: Reg, v: int) -> Option<Machine> {
        match r {
            Reg::Ax => Some(Machine { ax: v, ..self }),
            Reg::Bx => Some(Machine { bx: v, ..self }),
            Reg::Cx => Some(Machine { cx: v, ..self }),
            Reg::Dx => Some(Machine { dx: v, ..self }),
            Reg::Si => Some(Machine { si: v, ..self }),
            Reg::Di => Some(Machine { di: v, ..self }),
            Reg::Bp => Some(Machine { bp: v, ..self }),
            Reg::Sp => Some(Machine { sp: v, ..self }),
            Reg::Al => Some(Machine { ax: self.ax / 0x100 * 0x100 + v, ..self }),
            Reg::Bl => Some(Machine { bx: self.bx / 0x100 * 0x100 + v, ..self }),
            Reg::Cl => Some(Machine { cx: self.cx / 0x100 * 0x100 + v, ..self }),
            Reg::Dl => Some(Machine { dx: self.dx / 0x100 * 0x100 + v, ..self }),
            Reg::Ah => Some(Machine { ax: v * 0x100 + self.ax % 0x100, ..self }),
            Reg::Bh => Some(Machine { bx: v * 0x100 + self.bx % 0x100, ..self }),
            Reg::Ch => Some(Machine { cx: v * 0x100 + self.cx % 0x100, ..self }),
            Reg::Dh => Some(Machine { dx: v * 0x100 + self.dx % 0x100, ..self }),
            Reg::Cs | Reg::Ds | Reg::Es | Reg::Ss => None,
        }
    }

    /// Where an address points; `None` for one through another segment.
    pub open spec fn locate<'a>(self, w: World<'a>, a: Addr<'a>) -> Option<int> {
        match a {
            Addr::Bp(n) => Some(self.bp + n),
            Addr::At(r, d) => match self.reg(r) {
                Some(v) => Some(v + distance(d)),
                None => None,
            },
            Addr::Indexed(b, i, d) => match (self.reg(b), self.reg(i)) {
                (Some(v), Some(u)) => Some(v + u + distance(d)),
                _ => None,
            },
            Addr::Global(name, d) => Some((w.symbol)(name@) + distance(d)),
            Addr::GlobalAt(name, d, r, e) => match self.reg(r) {
                Some(v) => Some((w.symbol)(name@) + distance(d) + v + distance(e)),
                None => None,
            },
            Addr::Text(text) => Some((w.place)(text@)),
            Addr::Seg(_, _, _) => None,
        }
    }

    /// What an operand is worth where a byte or a word is wanted.
    pub open spec fn read<'a>(self, w: World<'a>, o: Operand<'a>, byte: bool) -> Option<int> {
        match o {
            Operand::Reg(r) => self.reg(r),
            Operand::Imm(n) => Some(n as int % limit(byte)),
            Operand::Mem(_, a) => match self.locate(w, a) {
                Some(at) => Some(if byte { self.byte_at(at) } else { self.word_at(at) }),
                None => None,
            },
            Operand::OffsetOf(name, d) => Some(wrap((w.symbol)(name@) + distance(d))),
            Operand::OffsetOfCode(name) => Some(wrap((w.symbol)(name@))),
            Operand::Text(text) => Some((w.operand)(text@, self) % limit(byte)),
            Operand::Pooled(_) | Operand::PooledAt(_, _) => None,
        }
    }

    /// The machine with another value in the place an operand names.
    pub open spec fn write<'a>(self, w: World<'a>, o: Operand<'a>, v: int) -> Option<Machine> {
        match o {
            Operand::Reg(r) => self.with_reg(r, v),
            Operand::Mem(Width::Byte, a) => match self.locate(w, a) {
                Some(at) => Some(self.with_byte(at, v)),
                None => None,
            },
            Operand::Mem(Width::Word, a) => match self.locate(w, a) {
                Some(at) => Some(self.with_word(at, v)),
                None => None,
            },
            _ => None,
        }
    }

    /// The flags that a result sets, beside the carry and the overflow.
    pub open spec fn flagged(self, r: int, byte: bool, carry: bool, overflow: bool) -> Machine {
        Machine { carry, overflow, zero: r == 0, negative: r >= limit(byte) / 2, ..self }
    }

    /// Whether a conditional jump is taken; `None` for the parity, which is
    /// not modelled.
    pub open spec fn holds(self, j: Jcc) -> Option<bool> {
        match j {
            Jcc::Je => Some(self.zero),
            Jcc::Jne => Some(!self.zero),
            Jcc::Jl => Some(self.negative != self.overflow),
            Jcc::Jge => Some(self.negative == self.overflow),
            Jcc::Jle => Some(self.zero || self.negative != self.overflow),
            Jcc::Jg => Some(!self.zero && self.negative == self.overflow),
            Jcc::Jb | Jcc::Jc => Some(self.carry),
            Jcc::Jae | Jcc::Jnc => Some(!self.carry),
            Jcc::Jbe => Some(self.carry || self.zero),
            Jcc::Ja => Some(!self.carry && !self.zero),
            Jcc::Js => Some(self.negative),
            Jcc::Jns => Some(!self.negative),
            Jcc::Jo => Some(self.overflow),
            Jcc::Jno => Some(!self.overflow),
            Jcc::Jp | Jcc::Jnp => None,
        }
    }
}

impl Machine {
    /// Whether a conditional jump behind a comparison is taken: the jump
    /// itself, or the mirrored one if the operands were exchanged.
    pub open spec fn holds_of_comparison(self, j: Jcc) -> Option<bool> {
        self.holds(if self.swapped { mirrored(j) } else { j })
    }
}

/// Whether an operand is a byte.
pub open spec fn is_byte_operand(o: Operand) -> bool {
    match o {
        Operand::Reg(r) => r.is_byte(),
        Operand::Mem(Width::Byte, _) => true,
        _ => false,
    }
}

/// Whether a number is out of the range of a signed byte or word.
pub open spec fn overflows(x: int, byte: bool) -> bool {
    x < -(limit(byte) / 2) || x >= limit(byte) / 2
}

/// The bits that two words have in common.
pub open spec fn both_bits(a: int, b: int) -> int {
    ((a as u16) & (b as u16)) as int
}

/// The bits that either of two words has.
pub open spec fn either_bits(a: int, b: int) -> int {
    ((a as u16) | (b as u16)) as int
}

/// The bits in which two words differ.
pub open spec fn other_bits(a: int, b: int) -> int {
    ((a as u16) ^ (b as u16)) as int
}

/// The result of an instruction on a destination and a source, with the
/// flags it sets; `None` for an instruction of another kind.
#[verifier::opaque]
pub open spec fn combine(
    m: Machine,
    op: Mnemonic,
    a: int,
    b: int,
    byte: bool,
) -> Option<(int, Machine)> {
    let size = limit(byte);
    let c: int = if m.carry { 1 } else { 0 };
    let sa = with_sign(a, byte);
    let sb = with_sign(b, byte);
    match op {
        Mnemonic::Add => {
            let r = (a + b) % size;
            Some((r, m.flagged(r, byte, a + b >= size, overflows(sa + sb, byte))))
        },
        Mnemonic::Adc => {
            let r = (a + b + c) % size;
            Some((r, m.flagged(r, byte, a + b + c >= size, overflows(sa + sb + c, byte))))
        },
        Mnemonic::Sub | Mnemonic::Cmp => {
            let r = (a - b) % size;
            Some((r, m.flagged(r, byte, a < b, overflows(sa - sb, byte))))
        },
        Mnemonic::Sbb => {
            let r = (a - b - c) % size;
            Some((r, m.flagged(r, byte, a < b + c, overflows(sa - sb - c, byte))))
        },
        Mnemonic::And | Mnemonic::Test => {
            let r = both_bits(a, b);
            Some((r, m.flagged(r, byte, false, false)))
        },
        Mnemonic::Or => {
            let r = either_bits(a, b);
            Some((r, m.flagged(r, byte, false, false)))
        },
        Mnemonic::Xor => {
            let r = other_bits(a, b);
            Some((r, m.flagged(r, byte, false, false)))
        },
        _ => None,
    }
}

/// The result of a shift by one place, with the flags it sets; `None` for an
/// instruction of another kind. The overflow, which no code asks for behind
/// a shift, is left as it was.
#[verifier::opaque]
pub open spec fn shift_once(m: Machine, op: Mnemonic, a: int, byte: bool) -> Option<
    (int, Machine),
> {
    let size = limit(byte);
    let c: int = if m.carry { 1 } else { 0 };
    match op {
        Mnemonic::Shl => {
            let r = (2 * a) % size;
            Some((r, m.flagged(r, byte, 2 * a >= size, m.overflow)))
        },
        Mnemonic::Shr => {
            let r = a / 2;
            Some((r, m.flagged(r, byte, a % 2 == 1, m.overflow)))
        },
        Mnemonic::Sar => {
            let r = with_sign(a, byte) / 2 % size;
            Some((r, m.flagged(r, byte, a % 2 == 1, m.overflow)))
        },
        Mnemonic::Rcl => {
            let r = (2 * a + c) % size;
            Some((r, Machine { carry: 2 * a >= size, ..m }))
        },
        Mnemonic::Rcr => {
            let r = a / 2 + c * (size / 2);
            Some((r, Machine { carry: a % 2 == 1, ..m }))
        },
        _ => None,
    }
}

/// The result of a shift by some places.
pub open spec fn shift_times(
    m: Machine,
    op: Mnemonic,
    a: int,
    byte: bool,
    n: nat,
) -> Option<(int, Machine)>
    decreases n,
{
    if n == 0 {
        Some((a, m))
    } else {
        match shift_times(m, op, a, byte, (n - 1) as nat) {
            Some((b, after)) => shift_once(after, op, b, byte),
            None => None,
        }
    }
}

/// What an instruction without operands does.
pub open spec fn run_op0(m: Machine, op: Mnemonic) -> Option<Machine> {
    match op {
        Mnemonic::Cbw => Some(Machine { ax: wrap(with_sign(m.ax % 0x100, true)), ..m }),
        Mnemonic::Cwd => Some(Machine { dx: if m.ax >= 0x8000 { 0xFFFF } else { 0 }, ..m }),
        _ => None,
    }
}

/// A quotient cut off towards zero.
pub open spec fn truncated(a: int, b: int) -> int {
    if a >= 0 {
        if b > 0 { a / b } else { -(a / -b) }
    } else {
        if b > 0 { -(-a / b) } else { -a / -b }
    }
}

/// What a division of `dx:ax` leaves, the quotient in `ax` and the remainder
/// in `dx`; `None` if it traps, because the divisor is zero or the quotient
/// does not fit. The flags are left as they were.
#[verifier::opaque]
pub open spec fn divide(m: Machine, a: int, b: int, too_large: bool) -> Option<Machine> {
    if b == 0 || too_large {
        None
    } else {
        Some(Machine { ax: wrap(truncated(a, b)), dx: wrap(a - b * truncated(a, b)), ..m })
    }
}

/// What an instruction with one operand does.
pub open spec fn run_op1<'a>(
    w: World<'a>,
    m: Machine,
    op: Mnemonic,
    d: Operand<'a>,
) -> Option<Machine> {
    let byte = is_byte_operand(d);
    let size = limit(byte);
    match m.read(w, d, byte) {
        None => None,
        Some(a) => match op {
            Mnemonic::Inc => {
                let r = (a + 1) % size;
                m.flagged(r, byte, m.carry, overflows(with_sign(a, byte) + 1, byte)).write(w, d, r)
            },
            Mnemonic::Dec => {
                let r = (a - 1) % size;
                m.flagged(r, byte, m.carry, overflows(with_sign(a, byte) - 1, byte)).write(w, d, r)
            },
            Mnemonic::Neg => {
                let r = (-a) % size;
                m.flagged(r, byte, a != 0, overflows(-with_sign(a, byte), byte)).write(w, d, r)
            },
            Mnemonic::Not => m.write(w, d, size - 1 - a),
            Mnemonic::Imul => if byte {
                Some(
                    Machine { ax: wrap(with_sign(m.ax % 0x100, true) * with_sign(a, true)), ..m },
                )
            } else {
                let full = (with_sign(m.ax, false) * with_sign(a, false)) % 0x1_0000_0000;
                Some(Machine { ax: full % 0x1_0000, dx: full / 0x1_0000, ..m })
            },
            Mnemonic::Idiv => if byte {
                None
            } else {
                let x = signed_pair(pair(m.dx, m.ax));
                divide(m, x, with_sign(a, false), overflows(truncated(x, with_sign(a, false)), false))
            },
            Mnemonic::Div => if byte {
                None
            } else {
                let x = pair(m.dx, m.ax);
                divide(m, x, a, truncated(x, a) >= 0x1_0000)
            },
            Mnemonic::Push => if byte {
                None
            } else {
                Some(Machine { sp: wrap(m.sp - 2), ..m.with_word(m.sp - 2, a) })
            },
            Mnemonic::Pop => if byte {
                None
            } else {
                Machine { sp: wrap(m.sp + 2), ..m }.write(w, d, m.word_at(m.sp))
            },
            _ => None,
        },
    }
}

/// What an instruction with a destination and a source does.
pub open spec fn run_op2<'a>(
    w: World<'a>,
    m: Machine,
    op: Mnemonic,
    d: Operand<'a>,
    s: Operand<'a>,
) -> Option<Machine> {
    let byte = is_byte_operand(d);
    match op {
        Mnemonic::Mov => match m.read(w, s, byte) {
            Some(v) => m.write(w, d, v),
            None => None,
        },
        Mnemonic::Lea => match s {
            Operand::Mem(_, a) => match m.locate(w, a) {
                Some(at) => m.write(w, d, wrap(at)),
                None => None,
            },
            _ => None,
        },
        Mnemonic::Cmp | Mnemonic::Test => match (m.read(w, d, byte), m.read(w, s, byte)) {
            (Some(a), Some(b)) => match combine(m, op, a, b, byte) {
                Some((_, after)) => Some(after),
                None => None,
            },
            _ => None,
        },
        Mnemonic::Shl | Mnemonic::Shr | Mnemonic::Sar | Mnemonic::Rcl | Mnemonic::Rcr => match (
            m.read(w, d, byte),
            m.read(w, s, true),
        ) {
            (Some(a), Some(n)) => if n >= 0 {
                match shift_times(m, op, a, byte, n as nat) {
                    Some((r, after)) => after.write(w, d, r),
                    None => None,
                }
            } else {
                None
            },
            _ => None,
        },
        _ => match (m.read(w, d, byte), m.read(w, s, byte)) {
            (Some(a), Some(b)) => match combine(m, op, a, b, byte) {
                Some((r, after)) => after.write(w, d, r),
                None => None,
            },
            _ => None,
        },
    }
}

/// What a step does that neither jumps nor marks a place.
pub open spec fn run_step<'a>(w: World<'a>, m: Machine, s: Step<'a>) -> Option<Machine> {
    match s {
        Step::Op0(op) => run_op0(m, op),
        Step::Op1(op, d) => run_op1(w, m, op, d),
        Step::Op2(op, d, src) => run_op2(w, m, op, d, src),
        Step::Jump(_, _) | Step::JumpMirrored(_, _) | Step::Goto(_) | Step::Label(_) => None,
        _ => Some((w.work)(s, m)),
    }
}

/// The first position from `i` on behind a label.
pub open spec fn behind_label<'a>(steps: Seq<Step<'a>>, label: u32, i: int) -> Option<int>
    decreases steps.len() - i,
{
    if i < 0 || i >= steps.len() {
        None
    } else if steps[i] == Step::<'a>::Label(label) {
        Some(i + 1)
    } else {
        behind_label(steps, label, i + 1)
    }
}

/// Where the steps from position `i` on lead. Jumps go forward.
#[verifier::opaque]
pub open spec fn run<'a>(w: World<'a>, m: Machine, steps: Seq<Step<'a>>, i: int) -> Outcome
    decreases steps.len() - i,
{
    if i < 0 || i >= steps.len() {
        Outcome::Through(m)
    } else {
        match steps[i] {
            Step::Label(_) => run(w, m, steps, i + 1),
            Step::Goto(label) => match behind_label(steps, label, i + 1) {
                Some(j) => if i < j <= steps.len() {
                    run(w, m, steps, j)
                } else {
                    Outcome::Lost
                },
                None => Outcome::To(label, m),
            },
            Step::Jump(condition, label) => match m.holds(condition) {
                Some(true) => match behind_label(steps, label, i + 1) {
                    Some(j) => if i < j <= steps.len() {
                        run(w, m, steps, j)
                    } else {
                        Outcome::Lost
                    },
                    None => Outcome::To(label, m),
                },
                Some(false) => run(w, m, steps, i + 1),
                None => Outcome::Lost,
            },
            Step::JumpMirrored(condition, label) => match m.holds_of_comparison(condition) {
                Some(true) => match behind_label(steps, label, i + 1) {
                    Some(j) => if i < j <= steps.len() {
                        run(w, m, steps, j)
                    } else {
                        Outcome::Lost
                    },
                    None => Outcome::To(label, m),
                },
                Some(false) => run(w, m, steps, i + 1),
                None => Outcome::Lost,
            },
            s => match run_step(w, m, s) {
                Some(after) => run(w, after, steps, i + 1),
                None => Outcome::Lost,
            },
        }
    }
}

/// Where a jump to a label leads if it is looked for from position `i` on.
pub open spec fn jump_to<'a>(
    w: World<'a>,
    m: Machine,
    steps: Seq<Step<'a>>,
    i: int,
    label: u32,
) -> Outcome {
    match behind_label(steps, label, i) {
        Some(j) => run(w, m, steps, j),
        None => Outcome::To(label, m),
    }
}

/// A label is found ahead of where it is looked for.
pub proof fn label_found_ahead<'a>(steps: Seq<Step<'a>>, label: u32, i: int)
    requires
        0 <= i <= steps.len(),
    ensures
        behind_label(steps, label, i) matches Some(j) ==> i < j <= steps.len(),
    decreases steps.len() - i,
{
    if i < steps.len() {
        label_found_ahead(steps, label, i + 1);
    }
}

/// A jump that is taken leads to its label.
pub proof fn step_jump<'a>(w: World<'a>, m: Machine, steps: Seq<Step<'a>>, i: int, label: u32)
    requires
        0 <= i < steps.len(),
        steps[i] == Step::<'a>::Goto(label) || (steps[i] matches Step::Jump(j, l) && l == label
            && m.holds(j) == Some(true)) || (steps[i] matches Step::JumpMirrored(j, l) && l == label
            && m.holds_of_comparison(j) == Some(true)),
    ensures
        run(w, m, steps, i) == jump_to(w, m, steps, i + 1, label),
{
    reveal(run);
    label_found_ahead(steps, label, i + 1);
}

/// A jump that is not taken, and a label, lead to the next step.
pub proof fn step_past<'a>(w: World<'a>, m: Machine, steps: Seq<Step<'a>>, i: int)
    requires
        0 <= i < steps.len(),
        steps[i] is Label || (steps[i] matches Step::Jump(j, _) && m.holds(j) == Some(false)) || (
        steps[i] matches Step::JumpMirrored(j, _) && m.holds_of_comparison(j) == Some(false)),
    ensures
        run(w, m, steps, i) == run(w, m, steps, i + 1),
{
    reveal(run);
}

/// A step that does not jump hands the machine on to the next.
pub proof fn step_on<'a>(w: World<'a>, m: Machine, steps: Seq<Step<'a>>, i: int, after: Machine)
    requires
        0 <= i < steps.len(),
        run_step(w, m, steps[i]) == Some(after),
    ensures
        run(w, m, steps, i) == run(w, after, steps, i + 1),
{
    reveal(run);
}

/// Behind the last step a run is through.
pub proof fn step_end<'a>(w: World<'a>, m: Machine, steps: Seq<Step<'a>>, i: int)
    requires
        i >= steps.len(),
    ensures
        run(w, m, steps, i) == Outcome::Through(m),
{
    reveal(run);
}

/// Whether the words at two addresses have no byte in common.
pub open spec fn apart(a: int, b: int) -> bool {
    2 <= wrap(b - a) <= 0xFFFE
}

/// Whether every place of a memory holds a byte.
pub open spec fn holds_bytes(mem: Map<int, int>) -> bool {
    forall|a: int| 0 <= #[trigger] mem[a] < 0x100
}

/// A word that is written is read back, and no other memory changes.
pub proof fn word_written(mem: Map<int, int>, a: int, v: int)
    requires
        0 <= v < 0x1_0000,
    ensures
        word_in(put_word(mem, a, v), a) == v,
        same_but(put_word(mem, a, v), mem, a, 2),
        holds_bytes(mem) ==> holds_bytes(put_word(mem, a, v)),
        forall|b: int|
            apart(a, b) ==> #[trigger] word_in(put_word(mem, a, v), b) == word_in(mem, b),
{
    reveal(word_in);
    reveal(put_word);
    reveal(same_but);
    assert(wrap(a) != wrap(a + 1));
}

/// A word is made of two bytes.
pub proof fn word_range(mem: Map<int, int>, a: int)
    requires
        holds_bytes(mem),
    ensures
        0 <= word_in(mem, a) < 0x1_0000,
{
    reveal(word_in);
}

/// What changes in two regions that lie one behind the other changes in
/// both together.
pub proof fn same_but_chain(
    one: Map<int, int>,
    two: Map<int, int>,
    three: Map<int, int>,
    a: int,
    n: int,
    k: int,
)
    requires
        same_but(two, one, a, n),
        same_but(three, two, a + n, k),
        0 <= n,
        0 <= k,
        n + k <= 0x1_0000,
    ensures
        same_but(three, one, a, n + k),
{
    reveal(same_but);
}

/// What changes in a region, and then in one that ends where it begins,
/// changes in both together.
pub proof fn same_but_below(
    one: Map<int, int>,
    two: Map<int, int>,
    three: Map<int, int>,
    a: int,
    n: int,
    k: int,
)
    requires
        same_but(two, one, a + n, k),
        same_but(three, two, a, n),
        0 <= n,
        0 <= k,
        n + k <= 0x1_0000,
    ensures
        same_but(three, one, a, n + k),
{
    reveal(same_but);
}

/// What a direct operator makes of two words.
pub open spec fn word_result(op: BinOp, a: int, b: int) -> int {
    match op {
        BinOp::Add => wrap(a + b),
        BinOp::Sub => wrap(a - b),
        BinOp::BitAnd => both_bits(a, b),
        BinOp::BitOr => either_bits(a, b),
        _ => other_bits(a, b),
    }
}

/// What a direct operator makes of two 32-bit numbers.
pub open spec fn long_result(op: BinOp, a: int, b: int) -> int {
    match op {
        BinOp::Add => (a + b) % 0x1_0000_0000,
        BinOp::Sub => (a - b) % 0x1_0000_0000,
        BinOp::BitAnd => ((a as u32) & (b as u32)) as int,
        BinOp::BitOr => ((a as u32) | (b as u32)) as int,
        _ => ((a as u32) ^ (b as u32)) as int,
    }
}

/// What a comparison says of two numbers.
pub open spec fn compares(op: BinOp, a: int, b: int) -> bool {
    match op {
        BinOp::Eq => a == b,
        BinOp::Ne => a != b,
        BinOp::Lt => a < b,
        BinOp::Le => a <= b,
        BinOp::Gt => a > b,
        BinOp::Ge => a >= b,
        _ => a != b,
    }
}

} // verus!
