//! How single instructions and short runs of them act. The laws about whole
//! plans are put together from these.

use vstd::prelude::*;
use crate::ast::BinOp;
use crate::codegen::emitter::Step;
use crate::isa::{Addr, Mnemonic, Operand, Reg, Width};
use crate::machine::{Machine, World};

verus! {

/// Whether an address names the same place whatever the general registers
/// hold.
pub open spec fn is_fixed(a: Addr) -> bool {
    match a {
        Addr::Bp(_) | Addr::Global(_, _) | Addr::Text(_) => true,
        _ => false,
    }
}

/// Whether two fixed addresses name the low and the high half of a pair of
/// words.
pub open spec fn are_halves<'a>(w: World<'a>, m: Machine, lo: Addr<'a>, hi: Addr<'a>) -> bool {
    &&& is_fixed(lo)
    &&& is_fixed(hi)
    &&& m.locate(w, hi)->0 == m.locate(w, lo)->0 + 2
}

/// Whether an operand is a register or a number.
pub open spec fn is_steady(o: Operand) -> bool {
    match o {
        Operand::Reg(_) | Operand::Imm(_) => true,
        _ => false,
    }
}

/// Whether two machines agree in every general register.
pub open spec fn same_regs(m: Machine, n: Machine) -> bool {
    &&& m.ax == n.ax
    &&& m.bx == n.bx
    &&& m.cx == n.cx
    &&& m.dx == n.dx
    &&& m.si == n.si
    &&& m.di == n.di
    &&& m.bp == n.bp
    &&& m.sp == n.sp
}

/// Whether a direct operator on two words carries or borrows.
pub open spec fn carry_of(op: BinOp, a: int, b: int) -> bool {
    match op {
        BinOp::Add => a + b >= 0x1_0000,
        BinOp::Sub => a < b,
        _ => false,
    }
}

/// What a direct operator makes of two high words, with the carry of the low
/// ones.
pub open spec fn high_result(op: BinOp, a: int, b: int, carry: bool) -> int {
    let c: int = if carry { 1 } else { 0 };
    match op {
        BinOp::Add => crate::machine::wrap(a + b + c),
        BinOp::Sub => crate::machine::wrap(a - b - c),
        _ => crate::machine::word_result(op, a, b),
    }
}

/// Bitwise operators on 32 bits work on the halves.
proof fn bits_by_halves(ah: u16, al: u16, bh: u16, bl: u16)
    ensures
        ((ah as u32) * 0x1_0000 + al) as u32 & ((bh as u32) * 0x1_0000 + bl) as u32 == (
        (ah & bh) as u32) * 0x1_0000 + (al & bl),
        ((ah as u32) * 0x1_0000 + al) as u32 | ((bh as u32) * 0x1_0000 + bl) as u32 == (
        (ah | bh) as u32) * 0x1_0000 + (al | bl),
        ((ah as u32) * 0x1_0000 + al) as u32 ^ ((bh as u32) * 0x1_0000 + bl) as u32 == (
        (ah ^ bh) as u32) * 0x1_0000 + (al ^ bl),
{
    assert(((ah as u32) * 0x1_0000 + al) as u32 & ((bh as u32) * 0x1_0000 + bl) as u32 == ((ah
        & bh) as u32) * 0x1_0000 + (al & bl)) by (bit_vector);
    assert(((ah as u32) * 0x1_0000 + al) as u32 | ((bh as u32) * 0x1_0000 + bl) as u32 == ((ah
        | bh) as u32) * 0x1_0000 + (al | bl)) by (bit_vector);
    assert(((ah as u32) * 0x1_0000 + al) as u32 ^ ((bh as u32) * 0x1_0000 + bl) as u32 == ((ah
        ^ bh) as u32) * 0x1_0000 + (al ^ bl)) by (bit_vector);
}

/// A direct operator on two pairs of words, half by half, makes the 32-bit
/// result.
pub proof fn halves_make_long(op: BinOp, ah: int, al: int, bh: int, bl: int)
    requires
        crate::isa::is_direct(op),
        0 <= ah < 0x1_0000,
        0 <= al < 0x1_0000,
        0 <= bh < 0x1_0000,
        0 <= bl < 0x1_0000,
    ensures
        crate::machine::pair(
            high_result(op, ah, bh, carry_of(op, al, bl)),
            crate::machine::word_result(op, al, bl),
        ) == crate::machine::long_result(
            op,
            crate::machine::pair(ah, al),
            crate::machine::pair(bh, bl),
        ),
        0 <= high_result(op, ah, bh, carry_of(op, al, bl)) < 0x1_0000,
        0 <= crate::machine::word_result(op, al, bl) < 0x1_0000,
{
    match op {
        BinOp::Add => {
            let c: int = if carry_of(op, al, bl) { 1 } else { 0 };
            let lo = al + bl - 0x1_0000 * c;
            let high = ah + bh + c;
            let hi = if high >= 0x1_0000 { high - 0x1_0000 } else { high };
            assert(crate::machine::wrap(al + bl) == lo);
            assert(crate::machine::wrap(high) == hi);
            assert((crate::machine::pair(ah, al) + crate::machine::pair(bh, bl)) % 0x1_0000_0000
                == hi * 0x1_0000 + lo);
        },
        BinOp::Sub => {
            let c: int = if carry_of(op, al, bl) { 1 } else { 0 };
            let lo = al - bl + 0x1_0000 * c;
            let high = ah - bh - c;
            let hi = if high < 0 { high + 0x1_0000 } else { high };
            assert(crate::machine::wrap(al - bl) == lo);
            assert(crate::machine::wrap(high) == hi);
            assert((crate::machine::pair(ah, al) - crate::machine::pair(bh, bl)) % 0x1_0000_0000
                == hi * 0x1_0000 + lo);
        },
        _ => {
            bits_by_halves(ah as u16, al as u16, bh as u16, bl as u16);
            assert(ah as u16 as int == ah);
            assert(al as u16 as int == al);
            assert(bh as u16 as int == bh);
            assert(bl as u16 as int == bl);
        },
    }
}

/// What a direct operator does to two words and the carry.
proof fn combine_direct(m: Machine, op: BinOp, a: int, b: int)
    requires
        crate::isa::is_direct(op),
        0 <= a < 0x1_0000,
        0 <= b < 0x1_0000,
    ensures
        crate::machine::combine(m, crate::isa::direct(op), a, b, false) matches Some((r, after))
            && r == crate::machine::word_result(op, a, b) && 0 <= r < 0x1_0000 && same_regs(
            after,
            m,
        ) && after.mem == m.mem && after.carry == carry_of(op, a, b),
{
    reveal(crate::machine::combine);
    match op {
        BinOp::Add => {},
        BinOp::Sub => {},
        BinOp::BitAnd => {},
        BinOp::BitOr => {},
        _ => {},
    }
}

/// What a direct operator does to two high words.
proof fn combine_high(m: Machine, op: BinOp, a: int, b: int)
    requires
        crate::isa::is_direct(op),
        0 <= a < 0x1_0000,
        0 <= b < 0x1_0000,
    ensures
        crate::machine::combine(m, crate::isa::direct_high(op), a, b, false) matches Some(
            (r, after),
        ) && r == high_result(op, a, b, m.carry) && 0 <= r < 0x1_0000 && same_regs(after, m)
            && after.mem == m.mem,
{
    reveal(crate::machine::combine);
    match op {
        BinOp::Add => {},
        BinOp::Sub => {},
        BinOp::BitAnd => {},
        BinOp::BitOr => {},
        _ => {},
    }
}

/// A direct operator makes a word of two words.
pub proof fn direct_in_range(op: BinOp, a: int, b: int)
    requires
        crate::isa::is_direct(op),
        0 <= a < 0x1_0000,
        0 <= b < 0x1_0000,
    ensures
        0 <= crate::machine::word_result(op, a, b) < 0x1_0000,
{
}

/// A direct operator applied to a word in memory.
pub proof fn direct_to_memory<'a>(
    w: World<'a>,
    m: Machine,
    steps: Seq<Step<'a>>,
    i: int,
    op: BinOp,
    d: Addr<'a>,
    s: Operand<'a>,
) -> (after: Machine)
    requires
        m.wf(),
        0 <= i < steps.len(),
        crate::isa::is_direct(op),
        steps[i] == Step::Op2(crate::isa::direct(op), Operand::Mem(Width::Word, d), s),
        m.locate(w, d) is Some,
        m.read(w, s, false) matches Some(b) && 0 <= b < 0x1_0000,
    ensures
        crate::machine::run(w, m, steps, i) == crate::machine::run(w, after, steps, i + 1),
        after.wf(),
        same_regs(after, m),
        after.mem == crate::machine::put_word(
            m.mem,
            m.locate(w, d)->0,
            crate::machine::word_result(
                op,
                m.word_at(m.locate(w, d)->0),
                m.read(w, s, false)->0,
            ),
        ),
        after.carry == carry_of(op, m.word_at(m.locate(w, d)->0), m.read(w, s, false)->0),
{
    let at = m.locate(w, d)->0;
    let a = m.word_at(at);
    let b = m.read(w, s, false)->0;
    crate::machine::word_range(m.mem, at);
    combine_direct(m, op, a, b);
    let (r, flags) = crate::machine::combine(m, crate::isa::direct(op), a, b, false)->0;
    let after = flags.with_word(at, r);
    crate::machine::word_written(m.mem, at, r);
    assert(crate::machine::run_step(w, m, steps[i]) == Some(after));
    crate::machine::step_on(w, m, steps, i, after);
    after
}

/// A direct operator applied to the high word of a pair in memory, with the
/// carry of the low word.
pub proof fn direct_high_to_memory<'a>(
    w: World<'a>,
    m: Machine,
    steps: Seq<Step<'a>>,
    i: int,
    op: BinOp,
    d: Addr<'a>,
    s: Operand<'a>,
) -> (after: Machine)
    requires
        m.wf(),
        0 <= i < steps.len(),
        crate::isa::is_direct(op),
        steps[i] == Step::Op2(crate::isa::direct_high(op), Operand::Mem(Width::Word, d), s),
        m.locate(w, d) is Some,
        m.read(w, s, false) matches Some(b) && 0 <= b < 0x1_0000,
    ensures
        crate::machine::run(w, m, steps, i) == crate::machine::run(w, after, steps, i + 1),
        after.wf(),
        same_regs(after, m),
        after.mem == crate::machine::put_word(
            m.mem,
            m.locate(w, d)->0,
            high_result(
                op,
                m.word_at(m.locate(w, d)->0),
                m.read(w, s, false)->0,
                m.carry,
            ),
        ),
{
    let at = m.locate(w, d)->0;
    let a = m.word_at(at);
    let b = m.read(w, s, false)->0;
    crate::machine::word_range(m.mem, at);
    combine_high(m, op, a, b);
    let (r, flags) = crate::machine::combine(m, crate::isa::direct_high(op), a, b, false)->0;
    let after = flags.with_word(at, r);
    crate::machine::word_written(m.mem, at, r);
    assert(crate::machine::run_step(w, m, steps[i]) == Some(after));
    crate::machine::step_on(w, m, steps, i, after);
    after
}

/// A direct operator applied to a pair of words in memory, the low word
/// first.
pub proof fn direct_to_halves<'a>(
    w: World<'a>,
    m: Machine,
    steps: Seq<Step<'a>>,
    i: int,
    op: BinOp,
    lo: Addr<'a>,
    hi: Addr<'a>,
    s_lo: Operand<'a>,
    s_hi: Operand<'a>,
) -> (after: Machine)
    requires
        m.wf(),
        0 <= i,
        i + 1 < steps.len(),
        crate::isa::is_direct(op),
        steps[i] == Step::Op2(crate::isa::direct(op), Operand::Mem(Width::Word, lo), s_lo),
        steps[i + 1] == Step::Op2(
            crate::isa::direct_high(op),
            Operand::Mem(Width::Word, hi),
            s_hi,
        ),
        are_halves(w, m, lo, hi),
        is_steady(s_lo),
        is_steady(s_hi),
        m.read(w, s_lo, false) matches Some(b) && 0 <= b < 0x1_0000,
        m.read(w, s_hi, false) matches Some(b) && 0 <= b < 0x1_0000,
    ensures
        crate::machine::run(w, m, steps, i) == crate::machine::run(w, after, steps, i + 2),
        after.wf(),
        same_regs(after, m),
        after.long_at(m.locate(w, lo)->0) == crate::machine::long_result(
            op,
            m.long_at(m.locate(w, lo)->0),
            crate::machine::pair(m.read(w, s_hi, false)->0, m.read(w, s_lo, false)->0),
        ),
        crate::machine::same_but(after.mem, m.mem, m.locate(w, lo)->0, 4),
{
    let at = m.locate(w, lo)->0;
    let al = m.word_at(at);
    let ah = m.word_at(at + 2);
    let bl = m.read(w, s_lo, false)->0;
    let bh = m.read(w, s_hi, false)->0;
    crate::machine::word_range(m.mem, at);
    crate::machine::word_range(m.mem, at + 2);
    halves_make_long(op, ah, al, bh, bl);
    let m1 = direct_to_memory(w, m, steps, i, op, lo, s_lo);
    crate::machine::word_written(m.mem, at, crate::machine::word_result(op, al, bl));
    assert(crate::machine::apart(at, at + 2));
    assert(crate::machine::apart(at + 2, at));
    assert(m1.read(w, s_hi, false) == m.read(w, s_hi, false));
    let m2 = direct_high_to_memory(w, m1, steps, i + 1, op, hi, s_hi);
    crate::machine::word_written(
        m1.mem,
        at + 2,
        high_result(op, ah, bh, carry_of(op, al, bl)),
    );
    crate::machine::same_but_chain(m.mem, m1.mem, m2.mem, at, 2, 2);
    m2
}

/// A direct operator applied to a register.
pub proof fn direct_to_register<'a>(
    w: World<'a>,
    m: Machine,
    steps: Seq<Step<'a>>,
    i: int,
    op: BinOp,
    r: Reg,
    s: Operand<'a>,
) -> (after: Machine)
    requires
        m.wf(),
        0 <= i < steps.len(),
        crate::isa::is_direct(op),
        steps[i] == Step::Op2(crate::isa::direct(op), Operand::Reg(r), s),
        !r.is_byte(),
        m.reg(r) is Some,
        m.read(w, s, false) matches Some(b) && 0 <= b < 0x1_0000,
    ensures
        crate::machine::run(w, m, steps, i) == crate::machine::run(w, after, steps, i + 1),
        after.wf(),
        same_regs(
            after,
            m.with_reg(
                r,
                crate::machine::word_result(op, m.reg(r)->0, m.read(w, s, false)->0),
            )->0,
        ),
        after.mem == m.mem,
{
    let a = m.reg(r)->0;
    let b = m.read(w, s, false)->0;
    assert(0 <= a < 0x1_0000);
    combine_direct(m, op, a, b);
    let (v, flags) = crate::machine::combine(m, crate::isa::direct(op), a, b, false)->0;
    let after = flags.with_reg(r, v)->0;
    assert(crate::machine::run_op2(w, m, crate::isa::direct(op), Operand::Reg(r), s) == Some(
        after,
    ));
    crate::machine::step_on(w, m, steps, i, after);
    after
}

/// An address taken into a register.
pub proof fn lea_to_register<'a>(
    w: World<'a>,
    m: Machine,
    steps: Seq<Step<'a>>,
    i: int,
    r: Reg,
    a: Addr<'a>,
) -> (after: Machine)
    requires
        m.wf(),
        0 <= i < steps.len(),
        steps[i] == Step::Op2(Mnemonic::Lea, Operand::Reg(r), Operand::Mem(Width::Word, a)),
        !r.is_byte(),
        m.reg(r) is Some,
        m.locate(w, a) is Some,
    ensures
        crate::machine::run(w, m, steps, i) == crate::machine::run(w, after, steps, i + 1),
        Some(after) == m.with_reg(r, crate::machine::wrap(m.locate(w, a)->0)),
        after.wf(),
{
    let after = m.with_reg(r, crate::machine::wrap(m.locate(w, a)->0))->0;
    assert(crate::machine::run_step(w, m, steps[i]) == Some(after));
    crate::machine::step_on(w, m, steps, i, after);
    after
}

/// A register or a number moved into a register.
pub proof fn move_to_register<'a>(
    w: World<'a>,
    m: Machine,
    steps: Seq<Step<'a>>,
    i: int,
    r: Reg,
    s: Operand<'a>,
) -> (after: Machine)
    requires
        m.wf(),
        0 <= i < steps.len(),
        steps[i] == Step::Op2(Mnemonic::Mov, Operand::Reg(r), s),
        !r.is_byte(),
        m.reg(r) is Some,
        m.read(w, s, false) matches Some(v) && 0 <= v < 0x1_0000,
    ensures
        crate::machine::run(w, m, steps, i) == crate::machine::run(w, after, steps, i + 1),
        Some(after) == m.with_reg(r, m.read(w, s, false)->0),
        after.wf(),
{
    let after = m.with_reg(r, m.read(w, s, false)->0)->0;
    assert(crate::machine::run_step(w, m, steps[i]) == Some(after));
    crate::machine::step_on(w, m, steps, i, after);
    after
}

/// A word in memory loaded into a register.
pub proof fn load_word<'a>(
    w: World<'a>,
    m: Machine,
    steps: Seq<Step<'a>>,
    i: int,
    r: Reg,
    a: Addr<'a>,
) -> (after: Machine)
    requires
        m.wf(),
        0 <= i < steps.len(),
        steps[i] == Step::Op2(Mnemonic::Mov, Operand::Reg(r), Operand::Mem(Width::Word, a)),
        !r.is_byte(),
        m.reg(r) is Some,
        m.locate(w, a) is Some,
    ensures
        crate::machine::run(w, m, steps, i) == crate::machine::run(w, after, steps, i + 1),
        Some(after) == m.with_reg(r, m.word_at(m.locate(w, a)->0)),
        after.wf(),
{
    let at = m.locate(w, a)->0;
    crate::machine::word_range(m.mem, at);
    let after = m.with_reg(r, m.word_at(at))->0;
    assert(crate::machine::run_step(w, m, steps[i]) == Some(after));
    crate::machine::step_on(w, m, steps, i, after);
    after
}

/// A register or a number stored as a word in memory.
pub proof fn store_word<'a>(
    w: World<'a>,
    m: Machine,
    steps: Seq<Step<'a>>,
    i: int,
    a: Addr<'a>,
    s: Operand<'a>,
) -> (after: Machine)
    requires
        m.wf(),
        0 <= i < steps.len(),
        steps[i] == Step::Op2(Mnemonic::Mov, Operand::Mem(Width::Word, a), s),
        m.read(w, s, false) matches Some(v) && 0 <= v < 0x1_0000,
        m.locate(w, a) is Some,
    ensures
        crate::machine::run(w, m, steps, i) == crate::machine::run(w, after, steps, i + 1),
        after == m.with_word(m.locate(w, a)->0, m.read(w, s, false)->0),
        after.wf(),
{
    let at = m.locate(w, a)->0;
    let v = m.read(w, s, false)->0;
    crate::machine::word_written(m.mem, at, v);
    let after = m.with_word(at, v);
    assert(crate::machine::run_step(w, m, steps[i]) == Some(after));
    crate::machine::step_on(w, m, steps, i, after);
    after
}

/// Two registers or numbers stored as a pair of words, the high word first.
pub proof fn store_pair<'a>(
    w: World<'a>,
    m: Machine,
    steps: Seq<Step<'a>>,
    i: int,
    lo: Addr<'a>,
    hi: Addr<'a>,
    s_lo: Operand<'a>,
    s_hi: Operand<'a>,
) -> (after: Machine)
    requires
        m.wf(),
        0 <= i,
        i + 1 < steps.len(),
        steps[i] == Step::Op2(Mnemonic::Mov, Operand::Mem(Width::Word, hi), s_hi),
        steps[i + 1] == Step::Op2(Mnemonic::Mov, Operand::Mem(Width::Word, lo), s_lo),
        are_halves(w, m, lo, hi),
        is_steady(s_lo),
        is_steady(s_hi),
        m.read(w, s_lo, false) matches Some(b) && 0 <= b < 0x1_0000,
        m.read(w, s_hi, false) matches Some(b) && 0 <= b < 0x1_0000,
    ensures
        crate::machine::run(w, m, steps, i) == crate::machine::run(w, after, steps, i + 2),
        after.wf(),
        same_regs(after, m),
        after.long_at(m.locate(w, lo)->0) == crate::machine::pair(
            m.read(w, s_hi, false)->0,
            m.read(w, s_lo, false)->0,
        ),
        crate::machine::same_but(after.mem, m.mem, m.locate(w, lo)->0, 4),
{
    let at = m.locate(w, lo)->0;
    let m1 = store_word(w, m, steps, i, hi, s_hi);
    assert(m1.read(w, s_lo, false) == m.read(w, s_lo, false));
    let m2 = store_word(w, m1, steps, i + 1, lo, s_lo);
    crate::machine::word_written(m.mem, at + 2, m.read(w, s_hi, false)->0);
    crate::machine::word_written(m1.mem, at, m.read(w, s_lo, false)->0);
    assert(crate::machine::apart(at, at + 2));
    crate::machine::same_but_below(m.mem, m1.mem, m2.mem, at, 2, 2);
    m2
}

/// Whether two machines agree in memory and in every general register but
/// `ax` and `dx`.
pub open spec fn same_but_ax_dx(m: Machine, n: Machine) -> bool {
    &&& m.bx == n.bx
    &&& m.cx == n.cx
    &&& m.si == n.si
    &&& m.di == n.di
    &&& m.bp == n.bp
    &&& m.sp == n.sp
    &&& m.mem == n.mem
}

/// Whether an instruction shifts its operand.
pub open spec fn is_shifting(op: Mnemonic) -> bool {
    match op {
        Mnemonic::Shl | Mnemonic::Shr | Mnemonic::Sar | Mnemonic::Rcl | Mnemonic::Rcr => true,
        _ => false,
    }
}

/// What a shift by one place makes of a word, with the carry before it.
#[verifier::opaque]
pub open spec fn shifted_once(op: Mnemonic, a: int, carry: bool) -> int {
    let c: int = if carry { 1 } else { 0 };
    match op {
        Mnemonic::Shl => if a >= 0x8000 { 2 * a - 0x1_0000 } else { 2 * a },
        Mnemonic::Shr => a / 2,
        Mnemonic::Sar => if a >= 0x8000 { a / 2 + 0x8000 } else { a / 2 },
        Mnemonic::Rcl => if a >= 0x8000 { 2 * a + c - 0x1_0000 } else { 2 * a + c },
        _ => a / 2 + c * 0x8000,
    }
}

/// The carry behind a shift of a word by one place.
#[verifier::opaque]
pub open spec fn carried_once(op: Mnemonic, a: int) -> bool {
    match op {
        Mnemonic::Shl | Mnemonic::Rcl => a >= 0x8000,
        _ => a % 2 == 1,
    }
}

/// A shift of a word by one place.
#[verifier::rlimit(60)]
pub proof fn shift_word_once(m: Machine, op: Mnemonic, a: int)
    requires
        0 <= a < 0x1_0000,
        is_shifting(op),
    ensures
        crate::machine::shift_times(m, op, a, false, 1) == crate::machine::shift_once(
            m,
            op,
            a,
            false,
        ),
        crate::machine::shift_once(m, op, a, false) matches Some((r, after)) && same_regs(after, m)
            && after.mem == m.mem && 0 <= r < 0x1_0000 && r == shifted_once(op, a, m.carry)
            && after.carry == carried_once(op, a),
{
    reveal(crate::machine::shift_once);
    reveal_with_fuel(crate::machine::shift_times, 2);
    reveal(shifted_once);
    reveal(carried_once);
    if op == Mnemonic::Sar && a >= 0x8000 {
        assert((a - 0x1_0000) / 2 == a / 2 - 0x8000);
        assert((a / 2 - 0x8000) % 0x1_0000 == a / 2 + 0x8000);
    }
}

/// Doubling half by half doubles the number.
proof fn doubled_by_halves(h: int, l: int)
    requires
        0 <= h < 0x1_0000,
        0 <= l < 0x1_0000,
    ensures
        ({
            let c: int = if l >= 0x8000 { 1 } else { 0 };
            let lo = if l >= 0x8000 { 2 * l - 0x1_0000 } else { 2 * l };
            let hi = if h >= 0x8000 { 2 * h + c - 0x1_0000 } else { 2 * h + c };
            crate::machine::pair(hi, lo) == (2 * crate::machine::pair(h, l)) % 0x1_0000_0000
        }),
{
}

/// Halving half by half halves the number.
proof fn halved_by_halves(h: int, l: int, unsigned: bool)
    requires
        0 <= h < 0x1_0000,
        0 <= l < 0x1_0000,
    ensures
        ({
            let c: int = if h % 2 == 1 { 1 } else { 0 };
            let hi = if !unsigned && h >= 0x8000 { h / 2 + 0x8000 } else { h / 2 };
            let lo = l / 2 + c * 0x8000;
            crate::machine::pair(hi, lo) == halved(crate::machine::pair(h, l), unsigned)
        }),
{
    let x = crate::machine::pair(h, l);
    assert(h == 2 * (h / 2) + h % 2);
    assert(l == 2 * (l / 2) + l % 2);
    assert(x / 2 == (h / 2) * 0x1_0000 + (h % 2) * 0x8000 + l / 2);
    if !unsigned && h >= 0x8000 {
        assert((x - 0x1_0000_0000) / 2 == x / 2 - 0x8000_0000);
        assert((x / 2 - 0x8000_0000) % 0x1_0000_0000 == x / 2 + 0x8000_0000);
    } else if !unsigned {
        assert((x / 2) % 0x1_0000_0000 == x / 2);
    }
}

/// Negating half by half negates the number.
proof fn negated_by_halves(h: int, l: int)
    requires
        0 <= h < 0x1_0000,
        0 <= l < 0x1_0000,
    ensures
        ({
            let c: int = if l != 0 { 1 } else { 0 };
            crate::machine::pair(
                crate::machine::wrap(crate::machine::wrap(-h) - c),
                crate::machine::wrap(-l),
            ) == (-crate::machine::pair(h, l)) % 0x1_0000_0000
        }),
{
    let nh = if h == 0 { 0 } else { 0x1_0000 - h };
    let nl = if l == 0 { 0 } else { 0x1_0000 - l };
    assert(crate::machine::wrap(-h) == nh);
    assert(crate::machine::wrap(-l) == nl);
    if l != 0 {
        assert(crate::machine::wrap(nh - 1) == (if nh == 0 { 0xFFFF } else { nh - 1 }));
    }
}

/// `shl dx,1` and `rcl ax,1` double the number in `ax:dx`.
pub proof fn double_pair<'a>(w: World<'a>, m: Machine, steps: Seq<Step<'a>>, i: int) -> (after:
    Machine)
    requires
        m.wf(),
        0 <= i,
        i + 1 < steps.len(),
        steps[i] == Step::Op2(Mnemonic::Shl, Operand::Reg(Reg::Dx), Operand::Imm(1)),
        steps[i + 1] == Step::Op2(Mnemonic::Rcl, Operand::Reg(Reg::Ax), Operand::Imm(1)),
    ensures
        crate::machine::run(w, m, steps, i) == crate::machine::run(w, after, steps, i + 2),
        after.wf(),
        same_but_ax_dx(after, m),
        crate::machine::pair(after.ax, after.dx) == (2 * crate::machine::pair(m.ax, m.dx))
            % 0x1_0000_0000,
{
    let m1 = shift_register(w, m, steps, i, Mnemonic::Shl, Reg::Dx);
    let m2 = shift_register(w, m1, steps, i + 1, Mnemonic::Rcl, Reg::Ax);
    doubled_by_halves(m.ax, m.dx);
    reveal(shifted_once);
    reveal(carried_once);
    m2
}

/// A register shifted by one place.
pub proof fn shift_register<'a>(
    w: World<'a>,
    m: Machine,
    steps: Seq<Step<'a>>,
    i: int,
    op: Mnemonic,
    r: Reg,
) -> (after: Machine)
    requires
        m.wf(),
        0 <= i < steps.len(),
        steps[i] == Step::Op2(op, Operand::Reg(r), Operand::Imm(1)),
        is_shifting(op),
        !r.is_byte(),
        m.reg(r) is Some,
    ensures
        crate::machine::run(w, m, steps, i) == crate::machine::run(w, after, steps, i + 1),
        after.wf(),
        same_regs(after, m.with_reg(r, shifted_once(op, m.reg(r)->0, m.carry))->0),
        after.mem == m.mem,
        after.carry == carried_once(op, m.reg(r)->0),
{
    let a = m.reg(r)->0;
    assert(0 <= a < 0x1_0000);
    shift_word_once(m, op, a);
    let (v, flags) = crate::machine::shift_once(m, op, a, false)->0;
    let after = flags.with_reg(r, v)->0;
    assert(crate::machine::run_op2(w, m, op, Operand::Reg(r), Operand::Imm(1)) == Some(after));
    crate::machine::step_on(w, m, steps, i, after);
    after
}

/// What halving makes of a 32-bit number.
pub open spec fn halved(x: int, unsigned: bool) -> int {
    if unsigned {
        x / 2
    } else {
        crate::machine::signed_pair(x) / 2 % 0x1_0000_0000
    }
}

/// `shr ax,1` or `sar ax,1` and `rcr dx,1` halve the number in `ax:dx`.
pub proof fn halve_pair<'a>(
    w: World<'a>,
    m: Machine,
    steps: Seq<Step<'a>>,
    i: int,
    unsigned: bool,
) -> (after: Machine)
    requires
        m.wf(),
        0 <= i,
        i + 1 < steps.len(),
        steps[i] == Step::Op2(
            crate::isa::shift(BinOp::Shr, unsigned),
            Operand::Reg(Reg::Ax),
            Operand::Imm(1),
        ),
        steps[i + 1] == Step::Op2(Mnemonic::Rcr, Operand::Reg(Reg::Dx), Operand::Imm(1)),
    ensures
        crate::machine::run(w, m, steps, i) == crate::machine::run(w, after, steps, i + 2),
        after.wf(),
        same_but_ax_dx(after, m),
        crate::machine::pair(after.ax, after.dx) == halved(
            crate::machine::pair(m.ax, m.dx),
            unsigned,
        ),
{
    let m1 = shift_register(w, m, steps, i, crate::isa::shift(BinOp::Shr, unsigned), Reg::Ax);
    let m2 = shift_register(w, m1, steps, i + 1, Mnemonic::Rcr, Reg::Dx);
    halved_by_halves(m.ax, m.dx, unsigned);
    reveal(shifted_once);
    reveal(carried_once);
    m2
}

/// `neg ax`, `neg dx` and `sbb ax,0` negate the number in `ax:dx`.
pub proof fn negate_pair<'a>(w: World<'a>, m: Machine, steps: Seq<Step<'a>>, i: int) -> (after:
    Machine)
    requires
        m.wf(),
        0 <= i,
        i + 2 < steps.len(),
        steps[i] == Step::Op1(Mnemonic::Neg, Operand::Reg(Reg::Ax)),
        steps[i + 1] == Step::Op1(Mnemonic::Neg, Operand::Reg(Reg::Dx)),
        steps[i + 2] == Step::Op2(Mnemonic::Sbb, Operand::Reg(Reg::Ax), Operand::Imm(0)),
    ensures
        crate::machine::run(w, m, steps, i) == crate::machine::run(w, after, steps, i + 3),
        after.wf(),
        same_but_ax_dx(after, m),
        crate::machine::pair(after.ax, after.dx) == (-crate::machine::pair(m.ax, m.dx))
            % 0x1_0000_0000,
{
    let m1 = negate_register(w, m, steps, i, Reg::Ax);
    let m2 = negate_register(w, m1, steps, i + 1, Reg::Dx);
    combine_high(m2, BinOp::Sub, m2.ax, 0);
    let (hi, flags) = crate::machine::combine(m2, Mnemonic::Sbb, m2.ax, 0, false)->0;
    let m3 = Machine { ax: hi, ..flags };
    assert(crate::machine::run_step(w, m2, steps[i + 2]) == Some(m3));
    crate::machine::step_on(w, m2, steps, i + 2, m3);
    negated_by_halves(m.ax, m.dx);
    m3
}

/// A register negated.
pub proof fn negate_register<'a>(
    w: World<'a>,
    m: Machine,
    steps: Seq<Step<'a>>,
    i: int,
    r: Reg,
) -> (after: Machine)
    requires
        m.wf(),
        0 <= i < steps.len(),
        steps[i] == Step::Op1(Mnemonic::Neg, Operand::Reg(r)),
        !r.is_byte(),
        m.reg(r) is Some,
    ensures
        crate::machine::run(w, m, steps, i) == crate::machine::run(w, after, steps, i + 1),
        after.wf(),
        same_regs(after, m.with_reg(r, crate::machine::wrap(-m.reg(r)->0))->0),
        after.mem == m.mem,
        after.carry == (m.reg(r)->0 != 0),
{
    let a = m.reg(r)->0;
    let v = crate::machine::wrap(-a);
    let flags = m.flagged(
        v,
        false,
        a != 0,
        crate::machine::overflows(-crate::machine::with_sign(a, false), false),
    );
    let after = flags.with_reg(r, v)->0;
    assert(crate::machine::run_op1(w, m, Mnemonic::Neg, Operand::Reg(r)) == Some(after));
    crate::machine::step_on(w, m, steps, i, after);
    after
}

/// `not dx` and `not ax` complement the number in `ax:dx`.
pub proof fn complement_pair<'a>(w: World<'a>, m: Machine, steps: Seq<Step<'a>>, i: int) -> (after:
    Machine)
    requires
        m.wf(),
        0 <= i,
        i + 1 < steps.len(),
        steps[i] == Step::Op1(Mnemonic::Not, Operand::Reg(Reg::Dx)),
        steps[i + 1] == Step::Op1(Mnemonic::Not, Operand::Reg(Reg::Ax)),
    ensures
        crate::machine::run(w, m, steps, i) == crate::machine::run(w, after, steps, i + 2),
        after.wf(),
        same_but_ax_dx(after, m),
        crate::machine::pair(after.ax, after.dx) == 0xFFFF_FFFF - crate::machine::pair(
            m.ax,
            m.dx,
        ),
{
    let m1 = crate::machine::run_step(w, m, steps[i])->0;
    crate::machine::step_on(w, m, steps, i, m1);
    let m2 = crate::machine::run_step(w, m1, steps[i + 1])->0;
    crate::machine::step_on(w, m1, steps, i + 1, m2);
    m2
}

/// A direct operator on the number in `ax:dx` and a pair of words in memory,
/// half by half.
#[verifier::rlimit(60)]
pub proof fn direct_to_pair<'a>(
    w: World<'a>,
    m: Machine,
    steps: Seq<Step<'a>>,
    i: int,
    op: BinOp,
    s_lo: Operand<'a>,
    s_hi: Operand<'a>,
) -> (after: Machine)
    requires
        m.wf(),
        0 <= i,
        i + 1 < steps.len(),
        crate::isa::is_direct(op),
        steps[i] == Step::Op2(crate::isa::direct(op), Operand::Reg(Reg::Dx), s_lo),
        steps[i + 1] == Step::Op2(crate::isa::direct_high(op), Operand::Reg(Reg::Ax), s_hi),
        reads_memory(s_lo),
        reads_memory(s_hi),
        m.read(w, s_lo, false) matches Some(b) && 0 <= b < 0x1_0000,
        m.read(w, s_hi, false) matches Some(b) && 0 <= b < 0x1_0000,
    ensures
        crate::machine::run(w, m, steps, i) == crate::machine::run(w, after, steps, i + 2),
        after.wf(),
        same_but_ax_dx(after, m),
        crate::machine::pair(after.ax, after.dx) == crate::machine::long_result(
            op,
            crate::machine::pair(m.ax, m.dx),
            crate::machine::pair(m.read(w, s_hi, false)->0, m.read(w, s_lo, false)->0),
        ),
{
    let bl = m.read(w, s_lo, false)->0;
    let bh = m.read(w, s_hi, false)->0;
    halves_make_long(op, m.ax, m.dx, bh, bl);
    combine_direct(m, op, m.dx, bl);
    let (lo, flags) = crate::machine::combine(m, crate::isa::direct(op), m.dx, bl, false)->0;
    let m1 = Machine { dx: lo, ..flags };
    assert(crate::machine::run_step(w, m, steps[i]) == Some(m1));
    crate::machine::step_on(w, m, steps, i, m1);
    assert(m1.read(w, s_hi, false) == m.read(w, s_hi, false));
    combine_high(m1, op, m1.ax, bh);
    let (hi, flags1) = crate::machine::combine(
        m1,
        crate::isa::direct_high(op),
        m1.ax,
        bh,
        false,
    )->0;
    let m2 = Machine { ax: hi, ..flags1 };
    assert(crate::machine::run_step(w, m1, steps[i + 1]) == Some(m2));
    crate::machine::step_on(w, m1, steps, i + 1, m2);
    m2
}

/// A direct operator on a pair of registers and another pair, half by half.
/// The register of the low half does not name what the high half is combined
/// with.
pub proof fn direct_to_registers<'a>(
    w: World<'a>,
    m: Machine,
    steps: Seq<Step<'a>>,
    i: int,
    op: BinOp,
    lo: Reg,
    hi: Reg,
    s_lo: Operand<'a>,
    s_hi: Operand<'a>,
) -> (after: Machine)
    requires
        m.wf(),
        0 <= i,
        i + 1 < steps.len(),
        crate::isa::is_direct(op),
        steps[i] == Step::Op2(crate::isa::direct(op), Operand::Reg(lo), s_lo),
        steps[i + 1] == Step::Op2(crate::isa::direct_high(op), Operand::Reg(hi), s_hi),
        lo == Reg::Ax && hi == Reg::Dx || lo == Reg::Cx && hi == Reg::Bx,
        reads_memory(s_hi) || s_hi == Operand::<'a>::Reg(Reg::Dx) && lo == Reg::Cx,
        m.read(w, s_lo, false) matches Some(b) && 0 <= b < 0x1_0000,
        m.read(w, s_hi, false) matches Some(b) && 0 <= b < 0x1_0000,
    ensures
        crate::machine::run(w, m, steps, i) == crate::machine::run(w, after, steps, i + 2),
        after.wf(),
        after.mem == m.mem,
        after.bp == m.bp,
        crate::machine::pair(after.reg(hi)->0, after.reg(lo)->0) == crate::machine::long_result(
            op,
            crate::machine::pair(m.reg(hi)->0, m.reg(lo)->0),
            crate::machine::pair(m.read(w, s_hi, false)->0, m.read(w, s_lo, false)->0),
        ),
{
    let bl = m.read(w, s_lo, false)->0;
    let bh = m.read(w, s_hi, false)->0;
    let al = m.reg(lo)->0;
    let ah = m.reg(hi)->0;
    halves_make_long(op, ah, al, bh, bl);
    combine_direct(m, op, al, bl);
    let (r, flags) = crate::machine::combine(m, crate::isa::direct(op), al, bl, false)->0;
    let m1 = flags.with_reg(lo, r)->0;
    assert(crate::machine::run_op2(w, m, crate::isa::direct(op), Operand::Reg(lo), s_lo) == Some(
        m1,
    ));
    crate::machine::step_on(w, m, steps, i, m1);
    assert(m1.read(w, s_hi, false) == m.read(w, s_hi, false));
    combine_high(m1, op, ah, bh);
    let (q, flags1) = crate::machine::combine(
        m1,
        crate::isa::direct_high(op),
        ah,
        bh,
        false,
    )->0;
    let m2 = flags1.with_reg(hi, q)->0;
    assert(crate::machine::run_op2(w, m1, crate::isa::direct_high(op), Operand::Reg(hi), s_hi)
        == Some(m2));
    crate::machine::step_on(w, m1, steps, i + 1, m2);
    m2
}

/// Whether an operand is a number or lies at a fixed address.
pub open spec fn reads_memory(o: Operand) -> bool {
    match o {
        Operand::Imm(_) => true,
        Operand::Mem(_, a) => is_fixed(a),
        _ => false,
    }
}

} // verus!
