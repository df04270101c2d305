//! Bitfields are read with the value they hold.

use vstd::prelude::*;
use crate::ast::{BinOp, Expr, ExprKind};
use crate::codegen::bitfields::{BitfieldAccess, BitfieldRef};
use crate::codegen::emitter::{Cx, Plan, Step};
use crate::isa::{Addr, Mnemonic, Operand, Reg};
use crate::machine::{Machine, Outcome, World};

verus! {

/// The bits of a field within its unit, as a number without sign.
pub open spec fn field_bits(unit: int, offset: u8, width: u8) -> int {
    unit / (vstd::arithmetic::power2::pow2(offset as nat) as int) % (
    vstd::arithmetic::power2::pow2(width as nat) as int)
}

/// The bits of a field read with its top bit as a sign.
pub open spec fn signed_field(bits: int, width: u8) -> int {
    if 2 * bits >= vstd::arithmetic::power2::pow2(width as nat) {
        bits - vstd::arithmetic::power2::pow2(width as nat)
    } else {
        bits
    }
}

/// The unit of a bitfield: its byte or its word.
pub open spec fn unit_of<'a>(w: World<'a>, m: Machine, bf: BitfieldRef<'a>) -> int {
    let at = m.locate(w, bf.addr)->0;
    match bf.access {
        BitfieldAccess::Byte => m.byte_at(at),
        BitfieldAccess::Word => m.word_at(at),
    }
}

/// Whether a bitfield has an address that can be formed, lies within the
/// unit that is read for it and has at least one bit.
pub open spec fn is_within<'a>(w: World<'a>, m: Machine, bf: BitfieldRef<'a>) -> bool {
    &&& m.locate(w, bf.addr) is Some
    &&& 1 <= bf.bit_width
    &&& bf.bit_offset + bf.bit_width <= (match bf.access {
        BitfieldAccess::Byte => 8int,
        BitfieldAccess::Word => 16int,
    })
}

/// A bitfield that a struct describes is read through its byte exactly if it
/// lies within it.
pub proof fn access_reaches(bf: crate::ast::BitfieldInfo)
    ensures
        crate::codegen::bitfields::access_of(bf) == BitfieldAccess::Byte <==> bf.bit_offset
            + bf.bit_width <= 8,
{
}

/// What a shift by some places makes of a word.
pub open spec fn shifted(op: Mnemonic, a: int, n: nat) -> int {
    let p = vstd::arithmetic::power2::pow2(n) as int;
    match op {
        Mnemonic::Shl => crate::machine::wrap(a * p),
        Mnemonic::Shr => a / p,
        _ => crate::machine::wrap(crate::machine::with_sign(a, false) / p),
    }
}

/// Dividing again divides by the product.
proof fn divided_again(x: int, p: int)
    requires
        0 < p,
    ensures
        (x / p) / 2 == x / (2 * p),
{
    let y = x / p;
    let r = x % p;
    vstd::arithmetic::div_mod::lemma_fundamental_div_mod(x, p);
    let z = y / 2;
    let s = y % 2;
    assert(x == z * (2 * p) + (s * p + r)) by (nonlinear_arith)
        requires
            x == p * y + r,
            y == 2 * z + s,
    ;
    assert(0 <= s * p + r < 2 * p) by (nonlinear_arith)
        requires
            0 <= r < p,
            0 <= s <= 1,
    ;
    vstd::arithmetic::div_mod::lemma_fundamental_div_mod_converse(x, 2 * p, z, s * p + r);
}

/// A number between the least and the largest signed word stays so when it
/// is divided.
proof fn quotient_in_range(x: int, p: int)
    requires
        0 < p,
        -0x8000 <= x < 0x1_0000,
    ensures
        x >= 0 ==> 0 <= x / p <= x,
        x < 0 ==> x <= x / p < 0,
{
    vstd::arithmetic::div_mod::lemma_fundamental_div_mod(x, p);
    let q = x / p;
    let r = x % p;
    assert(x >= 0 ==> 0 <= q <= x) by (nonlinear_arith)
        requires
            x == p * q + r,
            0 <= r < p,
    ;
    assert(x < 0 ==> x <= q < 0) by (nonlinear_arith)
        requires
            x == p * q + r,
            0 <= r < p,
    ;
}

/// A shift of a word by some places.
pub proof fn shift_word(m: Machine, op: Mnemonic, a: int, n: nat)
    requires
        0 <= a < 0x1_0000,
        op == Mnemonic::Shl || op == Mnemonic::Shr || op == Mnemonic::Sar,
    ensures
        crate::machine::shift_times(m, op, a, false, n) matches Some((r, after))
            && crate::laws::steps::same_regs(after, m) && after.mem == m.mem && r == shifted(
            op,
            a,
            n,
        ) && 0 <= r < 0x1_0000,
    decreases n,
{
    let p = vstd::arithmetic::power2::pow2(n) as int;
    vstd::arithmetic::power2::lemma_pow2_pos(n);
    let sa = crate::machine::with_sign(a, false);
    quotient_in_range(a, p);
    quotient_in_range(sa, p);
    if n == 0 {
        vstd::arithmetic::power2::lemma2_to64();
        assert(a * 1 == a);
        assert(a / 1 == a);
        assert(sa / 1 == sa);
    } else {
        let k = (n - 1) as nat;
        shift_word(m, op, a, k);
        let (b, before) = crate::machine::shift_times(m, op, a, false, k)->0;
        crate::laws::steps::shift_word_once(before, op, b);
        shifted_again(op, a, k, before.carry);
    }
}

/// A shift by one more place.
pub proof fn shifted_again(op: Mnemonic, a: int, k: nat, carry: bool)
    requires
        0 <= a < 0x1_0000,
        op == Mnemonic::Shl || op == Mnemonic::Shr || op == Mnemonic::Sar,
    ensures
        crate::laws::steps::shifted_once(op, shifted(op, a, k), carry) == shifted(op, a, k + 1),
{
    reveal(crate::laws::steps::shifted_once);
    let sa = crate::machine::with_sign(a, false);
    let q = vstd::arithmetic::power2::pow2(k) as int;
    vstd::arithmetic::power2::lemma_pow2_pos(k);
    vstd::arithmetic::power2::lemma_pow2_unfold(k + 1);
    match op {
        Mnemonic::Shl => {
            let x = a * q;
            assert(a * (2 * q) == 2 * x) by (nonlinear_arith)
                requires
                    x == a * q,
            ;
            assert((2 * (x % 0x1_0000)) % 0x1_0000 == (2 * x) % 0x1_0000);
        },
        Mnemonic::Shr => {
            divided_again(a, q);
        },
        _ => {
            divided_again(sa, q);
            quotient_in_range(sa, q);
            let y = sa / q;
            let b = crate::machine::wrap(y);
            assert(b == (if y < 0 { y + 0x1_0000 } else { y }));
            if y < 0 {
                assert(b / 2 == (y + 0x1_0000) / 2);
                assert((y + 0x1_0000) / 2 == y / 2 + 0x8000);
                assert(crate::machine::wrap(y / 2) == y / 2 + 0x1_0000);
            }
        },
    }
}

/// A register shifted by the count in `cl`.
pub proof fn shift_by_cl<'a>(
    w: World<'a>,
    m: Machine,
    steps: Seq<Step<'a>>,
    i: int,
    op: Mnemonic,
    r: Reg,
    n: nat,
) -> (after: Machine)
    requires
        m.wf(),
        0 <= i < steps.len(),
        steps[i] == Step::<'a>::Op2(op, Operand::Reg(r), Operand::Reg(Reg::Cl)),
        op == Mnemonic::Shl || op == Mnemonic::Shr || op == Mnemonic::Sar,
        r == Reg::Ax || r == Reg::Dx,
        m.cx % 0x100 == n,
    ensures
        crate::machine::run(w, m, steps, i) == crate::machine::run(w, after, steps, i + 1),
        after.wf(),
        crate::laws::steps::same_regs(after, m.with_reg(r, shifted(op, m.reg(r)->0, n))->0),
        after.mem == m.mem,
{
    let a = m.reg(r)->0;
    shift_word(m, op, a, n);
    let (v, flags) = crate::machine::shift_times(m, op, a, false, n)->0;
    let after = flags.with_reg(r, v)->0;
    assert(crate::machine::run_op2(w, m, op, Operand::Reg(r), Operand::Reg(Reg::Cl)) == Some(
        after,
    ));
    crate::machine::step_on(w, m, steps, i, after);
    after
}

/// A small count moved into `cl`.
pub proof fn count_in_cl<'a>(
    w: World<'a>,
    m: Machine,
    steps: Seq<Step<'a>>,
    i: int,
    n: i64,
) -> (after: Machine)
    requires
        m.wf(),
        0 <= i < steps.len(),
        steps[i] == Step::<'a>::Op2(Mnemonic::Mov, Operand::Reg(Reg::Cl), Operand::Imm(n)),
        0 <= n < 0x100,
    ensures
        crate::machine::run(w, m, steps, i) == crate::machine::run(w, after, steps, i + 1),
        after.wf(),
        after == (Machine { cx: after.cx, ..m }),
        after.cx % 0x100 == n,
{
    let after = Machine { cx: m.cx / 0x100 * 0x100 + n, ..m };
    assert(crate::machine::run_step(w, m, steps[i]) == Some(after));
    crate::machine::step_on(w, m, steps, i, after);
    after
}

/// A register shifted right by one place so many times.
proof fn shiftings<'a>(w: World<'a>, m: Machine, r: Reg, n: nat) -> (after: Machine)
    requires
        m.wf(),
        r == Reg::Ax || r == Reg::Dx,
    ensures
        crate::machine::run(
            w,
            m,
            crate::codegen::emitter::op2(
                Mnemonic::Shr,
                Operand::<'a>::Reg(r),
                Operand::Imm(1),
            ).times(n),
            0,
        ) == Outcome::Through(after),
        after.wf(),
        crate::laws::steps::same_regs(
            after,
            m.with_reg(r, shifted(Mnemonic::Shr, m.reg(r)->0, n))->0,
        ),
        after.mem == m.mem,
    decreases n,
{
    let s = crate::codegen::emitter::op2(Mnemonic::Shr, Operand::<'a>::Reg(r), Operand::Imm(1));
    if n == 0 {
        vstd::arithmetic::power2::lemma2_to64();
        assert(m.reg(r)->0 / 1 == m.reg(r)->0);
        crate::machine::step_end(w, m, s.times(0), 0);
        m
    } else {
        let k = (n - 1) as nat;
        let middle = shiftings(w, m, r, k);
        let one = seq![s];
        assert(s.times(n) =~= s.times(k) + one);
        crate::laws::flow::run_parts(w, m, s.times(k), one, 0);
        crate::laws::flow::run_second(w, middle, s.times(k), one, 0);
        let after = crate::laws::steps::shift_register(w, middle, one, 0, Mnemonic::Shr, r);
        crate::machine::step_end(w, after, one, 1);
        vstd::arithmetic::power2::lemma_pow2_pos(k);
        vstd::arithmetic::power2::lemma_pow2_unfold(n);
        divided_again(m.reg(r)->0, vstd::arithmetic::power2::pow2(k) as int);
        assert(crate::laws::steps::shifted_once(Mnemonic::Shr, middle.reg(r)->0, middle.carry)
            == middle.reg(r)->0 / 2) by {
            reveal(crate::laws::steps::shifted_once);
        }
        after
    }
}

/// Masking a word keeps its lowest bits.
proof fn mask_keeps(x: int, width: u8)
    requires
        0 <= x < 0x1_0000,
        1 <= width <= 16,
    ensures
        crate::machine::both_bits(
            x,
            crate::codegen::bitfields::spec_field_mask(width) as int % 0x1_0000,
        ) == x % (vstd::arithmetic::power2::pow2(width as nat) as int),
        0 <= crate::codegen::bitfields::spec_field_mask(width) < 0x1_0000,
{
    crate::codegen::bitfields::ones_power(width);
    vstd::arithmetic::power2::lemma2_to64();
    let y = x as u16;
    if width == 16 {
        assert(y & 0xFFFFu16 == y) by (bit_vector);
    } else {
        vstd::arithmetic::power2::lemma_pow2_strictly_increases(width as nat, 16);
        vstd::arithmetic::power2::lemma_pow2_pos(width as nat);
        vstd::bits::lemma_u16_low_bits_mask_is_mod(y, width as nat);
    }
}

/// What lies above its byte does not change an unsigned field in it.
#[verifier::rlimit(60)]
proof fn above_byte_vanishes(h: int, b: int, offset: u8, width: u8)
    requires
        0 <= h,
        0 <= b < 0x100,
        offset + width <= 8,
    ensures
        field_bits(h * 0x100 + b, offset, width) == field_bits(b, offset, width),
{
    let q = vstd::arithmetic::power2::pow2(offset as nat) as int;
    let v = vstd::arithmetic::power2::pow2(width as nat) as int;
    let rest = (8 - offset - width) as nat;
    let t = vstd::arithmetic::power2::pow2(rest) as int;
    vstd::arithmetic::power2::lemma_pow2_pos(offset as nat);
    vstd::arithmetic::power2::lemma_pow2_pos(width as nat);
    vstd::arithmetic::power2::lemma_pow2_adds(offset as nat, width as nat);
    vstd::arithmetic::power2::lemma_pow2_adds((offset + width) as nat, rest);
    vstd::arithmetic::power2::lemma2_to64();
    assert(q * v * t == 0x100);
    let j = h * (v * t);
    assert(h * 0x100 == j * q) by (nonlinear_arith)
        requires
            q * v * t == 0x100,
            j == h * (v * t),
    ;
    vstd::arithmetic::div_mod::lemma_hoist_over_denominator(b, j, q as nat);
    assert(j == v * (h * t)) by (nonlinear_arith)
        requires
            j == h * (v * t),
    ;
    vstd::arithmetic::div_mod::lemma_mod_multiples_vanish(h * t, b / q, v);
}

/// Moving a field to the top of a word and back reads it with its sign.
#[verifier::rlimit(60)]
proof fn top_and_back(u: int, offset: u8, width: u8)
    requires
        0 <= u < 0x1_0000,
        1 <= width,
        offset + width <= 16,
    ensures
        shifted(
            Mnemonic::Sar,
            shifted(Mnemonic::Shl, u, (16 - offset - width) as nat),
            (16 - width) as nat,
        ) == crate::machine::wrap(signed_field(field_bits(u, offset, width), width)),
{
    let q = vstd::arithmetic::power2::pow2(offset as nat) as int;
    let v = vstd::arithmetic::power2::pow2(width as nat) as int;
    let s = vstd::arithmetic::power2::pow2((16 - offset - width) as nat) as int;
    let p = vstd::arithmetic::power2::pow2((16 - width) as nat) as int;
    vstd::arithmetic::power2::lemma_pow2_pos(offset as nat);
    vstd::arithmetic::power2::lemma_pow2_pos(width as nat);
    vstd::arithmetic::power2::lemma_pow2_pos((16 - offset - width) as nat);
    vstd::arithmetic::power2::lemma_pow2_pos((16 - width) as nat);
    vstd::arithmetic::power2::lemma_pow2_adds(offset as nat, (16 - offset - width) as nat);
    vstd::arithmetic::power2::lemma_pow2_adds(width as nat, (16 - width) as nat);
    vstd::arithmetic::power2::lemma2_to64();
    let low = u % q;
    let above = u / q;
    let f = above % v;
    let high = above / v;
    vstd::arithmetic::div_mod::lemma_fundamental_div_mod(u, q);
    vstd::arithmetic::div_mod::lemma_fundamental_div_mod(above, v);
    let rest = low * s;
    assert(u * s == 0x1_0000 * high + (f * p + rest)) by (nonlinear_arith)
        requires
            u == q * above + low,
            above == v * high + f,
            q * s == p,
            v * p == 0x1_0000,
            rest == low * s,
    ;
    assert(0 <= rest < p) by (nonlinear_arith)
        requires
            rest == low * s,
            0 <= low < q,
            q * s == p,
            0 < s,
    ;
    assert(0 <= f * p + rest < 0x1_0000) by (nonlinear_arith)
        requires
            0 <= f <= v - 1,
            0 <= rest < p,
            v * p == 0x1_0000,
            0 < p,
    ;
    let x = f * p + rest;
    vstd::arithmetic::div_mod::lemma_mod_multiples_vanish(high, x, 0x1_0000);
    assert(shifted(Mnemonic::Shl, u, (16 - offset - width) as nat) == x);
    let c = vstd::arithmetic::power2::pow2((width - 1) as nat) as int;
    vstd::arithmetic::power2::lemma_pow2_unfold(width as nat);
    assert(f >= c ==> x >= 0x8000) by (nonlinear_arith)
        requires
            x == f * p + rest,
            0 <= rest,
            2 * c * p == 0x1_0000,
            0 < p,
    ;
    assert(f <= c - 1 ==> x < 0x8000) by (nonlinear_arith)
        requires
            x == f * p + rest,
            rest < p,
            2 * c * p == 0x1_0000,
            0 < p,
    ;
    let g = if 2 * f >= v { f - v } else { f };
    assert(crate::machine::with_sign(x, false) == g * p + rest) by {
        assert((f - v) * p == f * p - v * p) by (nonlinear_arith);
    }
    vstd::arithmetic::div_mod::lemma_fundamental_div_mod_converse(
        crate::machine::with_sign(x, false),
        p,
        g,
        rest,
    );
}

/// Whether a register and its half are those that a bitfield is read into.
pub open spec fn is_reader(full: Reg, low: Reg) -> bool {
    full == Reg::Ax && low == Reg::Al || full == Reg::Dx && low == Reg::Dl
}

/// Whether two machines agree in every general register but a given one and
/// `cx`.
pub open spec fn keeps_others(after: Machine, m: Machine, full: Reg) -> bool {
    crate::laws::steps::same_regs(
        after,
        Machine { cx: after.cx, ..m.with_reg(full, after.reg(full)->0)->0 },
    )
}

/// The unit of a bitfield loaded: a byte leaves the high half of the
/// register as it was.
proof fn unit_loaded<'a>(
    w: World<'a>,
    m: Machine,
    cx: Cx<'a>,
    bf: BitfieldRef<'a>,
    full: Reg,
    low: Reg,
) -> (after: Machine)
    requires
        m.wf(),
        is_within(w, m, bf),
        is_reader(full, low),
    ensures
        ({
            let plan = crate::codegen::bitfields::plan_load_unit(cx, bf, full, low);
            &&& plan matches Plan::Emit(steps)
            &&& crate::machine::run(w, m, steps, 0) == Outcome::Through(after)
        }),
        after.wf(),
        after.mem == m.mem,
        crate::laws::steps::same_regs(after, m.with_reg(full, after.reg(full)->0)->0),
        ({
            let h = m.reg(full)->0 / 0x100;
            after.reg(full)->0 == (match bf.access {
                BitfieldAccess::Byte => h * 0x100 + unit_of(w, m, bf),
                BitfieldAccess::Word => unit_of(w, m, bf),
            })
        }),
{
    let steps = crate::codegen::bitfields::plan_load_unit(cx, bf, full, low)->Emit_0;
    let at = m.locate(w, bf.addr)->0;
    crate::machine::word_range(m.mem, at);
    let after = match bf.access {
        BitfieldAccess::Byte => m.with_reg(low, m.byte_at(at))->0,
        BitfieldAccess::Word => m.with_reg(full, m.word_at(at))->0,
    };
    assert(crate::machine::run_step(w, m, steps[0]) == Some(after));
    crate::machine::step_on(w, m, steps, 0, after);
    crate::machine::step_end(w, after, steps, 1);
    after
}

/// An unsigned field moved to the bottom of a register and masked.
proof fn field_masked<'a>(
    w: World<'a>,
    m: Machine,
    cx: Cx<'a>,
    bf: BitfieldRef<'a>,
    full: Reg,
) -> (after: Machine)
    requires
        m.wf(),
        full == Reg::Ax || full == Reg::Dx,
        1 <= bf.bit_width <= 16,
        bf.bit_offset <= 16,
    ensures
        ({
            let plan = crate::codegen::bitfields::plan_mask_field(cx, bf, full);
            &&& plan matches Plan::Emit(steps)
            &&& crate::machine::run(w, m, steps, 0) == Outcome::Through(after)
        }),
        after.reg(full) == Some(field_bits(m.reg(full)->0, bf.bit_offset, bf.bit_width)),
        after.mem == m.mem,
        after.wf(),
        keeps_others(after, m, full),
{
    let steps = crate::codegen::bitfields::plan_mask_field(cx, bf, full)->Emit_0;
    let n = bf.bit_offset as nat;
    let mask = Operand::<'a>::Imm(crate::codegen::bitfields::spec_field_mask(bf.bit_width));
    let last = seq![crate::codegen::emitter::op2(Mnemonic::And, Operand::<'a>::Reg(full), mask)];
    let a = if bf.bit_offset >= 4 {
        seq![
            crate::codegen::emitter::mov(
                crate::isa::cl(),
                Operand::<'a>::Imm(bf.bit_offset as i64),
            ),
            crate::codegen::emitter::op2(
                Mnemonic::Shr,
                Operand::<'a>::Reg(full),
                crate::isa::cl(),
            ),
        ]
    } else {
        crate::codegen::emitter::op2(
            Mnemonic::Shr,
            Operand::<'a>::Reg(full),
            Operand::Imm(1),
        ).times(n)
    };
    assert(steps =~= a + last);
    let middle = if bf.bit_offset >= 4 {
        let m1 = count_in_cl(w, m, a, 0, bf.bit_offset as i64);
        let m2 = shift_by_cl(w, m1, a, 1, Mnemonic::Shr, full, n);
        crate::machine::step_end(w, m2, a, 2);
        m2
    } else {
        shiftings(w, m, full, n)
    };
    crate::laws::flow::run_parts(w, m, a, last, 0);
    crate::laws::flow::run_second(w, middle, a, last, 0);
    mask_keeps(middle.reg(full)->0, bf.bit_width);
    let after = crate::laws::steps::direct_to_register(
        w,
        middle,
        last,
        0,
        BinOp::BitAnd,
        full,
        mask,
    );
    crate::machine::step_end(w, after, last, 1);
    after
}

/// A signed field moved to the top of a register and back.
proof fn field_extended<'a>(
    w: World<'a>,
    m: Machine,
    cx: Cx<'a>,
    bf: BitfieldRef<'a>,
    full: Reg,
) -> (after: Machine)
    requires
        m.wf(),
        full == Reg::Ax || full == Reg::Dx,
        1 <= bf.bit_width,
        bf.bit_offset + bf.bit_width <= 16,
    ensures
        ({
            let plan = crate::codegen::bitfields::plan_extend_field(cx, bf, full);
            &&& plan matches Plan::Emit(steps)
            &&& crate::machine::run(w, m, steps, 0) == Outcome::Through(after)
        }),
        after.reg(full) == Some(
            crate::machine::wrap(
                signed_field(
                    field_bits(m.reg(full)->0, bf.bit_offset, bf.bit_width),
                    bf.bit_width,
                ),
            ),
        ),
        after.mem == m.mem,
        after.wf(),
        keeps_others(after, m, full),
{
    let steps = crate::codegen::bitfields::plan_extend_field(cx, bf, full)->Emit_0;
    let up = (16 - bf.bit_offset - bf.bit_width) as nat;
    let down = (16 - bf.bit_width) as nat;
    let m1 = count_in_cl(w, m, steps, 0, up as i64);
    let m2 = shift_by_cl(w, m1, steps, 1, Mnemonic::Shl, full, up);
    let m3 = count_in_cl(w, m2, steps, 2, down as i64);
    let m4 = shift_by_cl(w, m3, steps, 3, Mnemonic::Sar, full, down);
    crate::machine::step_end(w, m4, steps, 4);
    top_and_back(m.reg(full)->0, bf.bit_offset, bf.bit_width);
    m4
}

/// The value of a bitfield as a word: its bits without sign, or with the
/// sign that the top bit of a signed field is.
pub open spec fn field_value<'a>(w: World<'a>, m: Machine, bf: BitfieldRef<'a>) -> int {
    let bits = field_bits(unit_of(w, m, bf), bf.bit_offset, bf.bit_width);
    if bf.signed {
        crate::machine::wrap(signed_field(bits, bf.bit_width))
    } else {
        bits
    }
}

/// Reading a bitfield leaves the value of its bits in the register: without
/// sign for an unsigned field, with the sign that its top bit is for a
/// signed one. Memory is unchanged, and so are the other registers but
/// `cx`.
pub proof fn bitfield_read<'a>(
    w: World<'a>,
    m: Machine,
    cx: Cx<'a>,
    bf: BitfieldRef<'a>,
    full: Reg,
    low: Reg,
)
    requires
        m.wf(),
        is_within(w, m, bf),
        is_reader(full, low),
    ensures
        ({
            let plan = crate::codegen::bitfields::plan_emit_bitfield_read_to_reg(
                cx,
                bf,
                full,
                low,
            );
            &&& plan matches Plan::Emit(steps)
            &&& crate::machine::run(w, m, steps, 0) matches Outcome::Through(after)
            &&& after.reg(full) == Some(field_value(w, m, bf))
            &&& after.mem == m.mem
            &&& after.wf()
            &&& keeps_others(after, m, full)
        }),
{
    let a = crate::codegen::bitfields::plan_load_unit(cx, bf, full, low)->Emit_0;
    let middle = unit_loaded(w, m, cx, bf, full, low);
    if bf.access == BitfieldAccess::Byte {
        above_byte_vanishes(
            m.reg(full)->0 / 0x100,
            unit_of(w, m, bf),
            bf.bit_offset,
            bf.bit_width,
        );
    }
    if bf.signed {
        let b = crate::codegen::bitfields::plan_extend_field(cx, bf, full)->Emit_0;
        let after = field_extended(w, middle, cx, bf, full);
        crate::laws::flow::run_parts(w, m, a, b, 0);
        crate::laws::flow::run_second(w, middle, a, b, 0);
    } else {
        let b = crate::codegen::bitfields::plan_mask_field(cx, bf, full)->Emit_0;
        let after = field_masked(w, middle, cx, bf, full);
        crate::laws::flow::run_parts(w, m, a, b, 0);
        crate::laws::flow::run_second(w, middle, a, b, 0);
    }
}

/// Whether an address names the same place whatever `ax`, `cx` and `dx`
/// hold.
pub open spec fn is_settled(a: Addr) -> bool {
    match a {
        Addr::At(r, _) => r == Reg::Bx || r == Reg::Si || r == Reg::Di || r == Reg::Bp,
        _ => crate::laws::steps::is_fixed(a),
    }
}

/// Whether an expression reads a bitfield that a chain can take in.
pub open spec fn reads_field<'a>(w: World<'a>, m: Machine, cx: Cx<'a>, e: &'a Expr) -> bool {
    &&& cx.env.bitfield_in_reach(e)
    &&& cx.env.resolve_bitfield(e) matches Some(bf)
    &&& is_within(w, m, bf)
    &&& is_settled(bf.addr)
}

/// The word that a chain of direct operators on bitfields is worth; `None`
/// if it holds anything else.
pub open spec fn chain_value<'a>(
    w: World<'a>,
    m: Machine,
    cx: Cx<'a>,
    e: &'a Expr,
) -> Option<int>
    decreases e,
{
    if reads_field(w, m, cx, e) {
        Some(field_value(w, m, cx.env.resolve_bitfield(e)->0))
    } else {
        match &e.kind {
            ExprKind::BinOp { op, left, right } => if crate::isa::is_direct(*op) && reads_field(
                w,
                m,
                cx,
                &**right,
            ) {
                match chain_value(w, m, cx, &**left) {
                    Some(v) => Some(
                        crate::machine::word_result(
                            *op,
                            v,
                            field_value(w, m, cx.env.resolve_bitfield(&**right)->0),
                        ),
                    ),
                    None => None,
                }
            } else {
                None
            },
            _ => None,
        }
    }
}

/// Whether two machines agree in memory and in the registers that a settled
/// address is formed with.
pub open spec fn same_places(after: Machine, m: Machine) -> bool {
    &&& after.mem == m.mem
    &&& after.bx == m.bx
    &&& after.si == m.si
    &&& after.di == m.di
    &&& after.bp == m.bp
    &&& after.sp == m.sp
}

/// A bitfield at a settled address is the same in machines that agree in
/// their places.
proof fn field_stays<'a>(
    w: World<'a>,
    m: Machine,
    after: Machine,
    cx: Cx<'a>,
    e: &'a Expr,
)
    requires
        same_places(after, m),
        reads_field(w, m, cx, e),
    ensures
        reads_field(w, after, cx, e),
        field_value(w, after, cx.env.resolve_bitfield(e)->0) == field_value(
            w,
            m,
            cx.env.resolve_bitfield(e)->0,
        ),
{
}

/// A chain of direct operators on bitfields leaves its value in `ax`, with
/// memory unchanged.
proof fn chain_computed<'a>(w: World<'a>, m: Machine, cx: Cx<'a>, e: &'a Expr) -> (after: Machine)
    requires
        m.wf(),
        chain_value(w, m, cx, e) is Some,
    ensures
        ({
            let plan = crate::codegen::bitfields::plan_bitfield_chain(cx, e);
            &&& plan matches Plan::Emit(steps)
            &&& crate::machine::run(w, m, steps, 0) == Outcome::Through(after)
        }),
        after.ax == chain_value(w, m, cx, e)->0,
        after.wf(),
        same_places(after, m),
    decreases e,
{
    let plan = crate::codegen::bitfields::plan_bitfield_chain(cx, e);
    if reads_field(w, m, cx, e) {
        let bf = cx.env.resolve_bitfield(e)->0;
        head_is_field(cx, e);
        bitfield_read(w, m, cx, bf, Reg::Ax, Reg::Al);
        crate::machine::run(w, m, plan->Emit_0, 0)->Through_0
    } else {
        match &e.kind {
            ExprKind::BinOp { op, left, right } => {
                let bf = cx.env.resolve_bitfield(&**right)->0;
                let a = crate::codegen::bitfields::plan_bitfield_chain(cx, &**left)->Emit_0;
                let m1 = chain_computed(w, m, cx, &**left);
                field_stays(w, m, m1, cx, &**right);
                bitfield_read(w, m1, cx, bf, Reg::Dx, Reg::Dl);
                let b = crate::codegen::bitfields::plan_emit_bitfield_read_to_reg(
                    cx,
                    bf,
                    Reg::Dx,
                    Reg::Dl,
                )->Emit_0;
                let m2 = crate::machine::run(w, m1, b, 0)->Through_0;
                let last = seq![
                    crate::codegen::emitter::op2(
                        crate::isa::direct(*op),
                        crate::isa::ax(),
                        crate::isa::dx(),
                    ),
                ];
                let after = crate::laws::steps::direct_to_register(
                    w,
                    m2,
                    last,
                    0,
                    *op,
                    Reg::Ax,
                    Operand::Reg(Reg::Dx),
                );
                crate::machine::step_end(w, after, last, 1);
                crate::laws::flow::run_parts(w, m, a, b, 0);
                crate::laws::flow::run_second(w, m1, a, b, 0);
                crate::laws::flow::run_parts(w, m, a + b, last, 0);
                crate::laws::flow::run_second(w, m2, a + b, last, 0);
                assert(plan == Plan::Emit((a + b) + last));
                after
            },
            _ => m,
        }
    }
}

/// An expression that reads a bitfield is the head of its chain.
proof fn head_is_field<'a>(cx: Cx<'a>, e: &'a Expr)
    requires
        cx.env.bitfield_in_reach(e),
        cx.env.resolve_bitfield(e) is Some,
    ensures
        crate::codegen::bitfields::plan_bitfield_chain(cx, e)
            == crate::codegen::bitfields::plan_emit_bitfield_read_to_reg(
            cx,
            cx.env.resolve_bitfield(e)->0,
            Reg::Ax,
            Reg::Al,
        ),
{
    assert(!(e.kind is BinOp));
}

/// Arithmetic on bitfields leaves its 16-bit value in `ax`, with memory
/// unchanged. A signed field plus an unsigned one goes by way of the stack:
/// see [`bitfield_sum_by_stack`].
pub proof fn bitfield_chain_computes<'a>(
    w: World<'a>,
    m: Machine,
    cx: Cx<'a>,
    e: &'a Expr,
)
    requires
        m.wf(),
        e.kind is BinOp,
        chain_value(w, m, cx, e) is Some,
        e.kind matches ExprKind::BinOp { op, left, right } ==> (cx.env.bitfield_in_reach(&*left)
            && crate::codegen::bitfields::plan_bitfield_sum_reversed(
            cx,
            &*left,
            op,
            cx.env.resolve_bitfield(&*right)->0,
        ) is Skip),
    ensures
        crate::laws::element::leaves_ax(
            w,
            m,
            crate::codegen::bitfields::plan_emit_bitfield_chain_to_ax(cx, e),
            chain_value(w, m, cx, e)->0,
        ),
{
    assert(!reads_field(w, m, cx, e));
    assert(crate::codegen::bitfields::plan_emit_bitfield_chain_to_ax(cx, e)
        == crate::codegen::bitfields::plan_bitfield_chain(cx, e));
    let after = chain_computed(w, m, cx, e);
}

/// Whether the unit of a bitfield lies clear of the word that is pushed
/// next.
pub open spec fn unit_stays<'a>(w: World<'a>, m: Machine, bf: BitfieldRef<'a>) -> bool {
    let d = crate::machine::wrap(m.locate(w, bf.addr)->0 - (m.sp - 2));
    2 <= d && (bf.access == BitfieldAccess::Word ==> d <= 0xFFFE)
}

/// A bitfield clear of the word that is pushed keeps its value.
proof fn field_survives_push<'a>(
    w: World<'a>,
    m: Machine,
    after: Machine,
    bf: BitfieldRef<'a>,
    v: int,
)
    requires
        unit_stays(w, m, bf),
        is_settled(bf.addr),
        0 <= v < 0x1_0000,
        after.mem == crate::machine::put_word(m.mem, m.sp - 2, v),
        after.bx == m.bx,
        after.si == m.si,
        after.di == m.di,
        after.bp == m.bp,
    ensures
        field_value(w, after, bf) == field_value(w, m, bf),
{
    let at = m.locate(w, bf.addr)->0;
    crate::machine::word_written(m.mem, m.sp - 2, v);
    match bf.access {
        BitfieldAccess::Byte => {
            reveal(crate::machine::same_but);
            assert(crate::machine::wrap(crate::machine::wrap(at) - (m.sp - 2))
                == crate::machine::wrap(at - (m.sp - 2)));
        },
        BitfieldAccess::Word => {
            assert(crate::machine::apart(m.sp - 2, at));
        },
    }
}

/// A signed bitfield plus an unsigned one leaves the 16-bit sum in `ax`. The
/// unsigned one waits on the stack, where nothing is left: no memory changes
/// but the word below its top, in which the signed field does not lie.
pub proof fn bitfield_sum_by_stack<'a>(
    w: World<'a>,
    m: Machine,
    cx: Cx<'a>,
    e: &'a Expr,
    left: &'a Box<Expr>,
    right: &'a Box<Expr>,
)
    requires
        m.wf(),
        e.kind == (ExprKind::BinOp { op: BinOp::Add, left: *left, right: *right }),
        reads_field(w, m, cx, &**left),
        reads_field(w, m, cx, &**right),
        cx.env.resolve_bitfield(&**left)->0.signed,
        !cx.env.resolve_bitfield(&**right)->0.signed,
        unit_stays(w, m, cx.env.resolve_bitfield(&**left)->0),
    ensures
        ({
            let plan = crate::codegen::bitfields::plan_emit_bitfield_chain_to_ax(cx, e);
            &&& plan matches Plan::Emit(steps)
            &&& crate::machine::run(w, m, steps, 0) matches Outcome::Through(after)
            &&& after.ax == crate::machine::wrap(
                field_value(w, m, cx.env.resolve_bitfield(&**left)->0) + field_value(
                    w,
                    m,
                    cx.env.resolve_bitfield(&**right)->0,
                ),
            )
            &&& after.sp == m.sp
            &&& crate::machine::same_but(after.mem, m.mem, m.sp - 2, 2)
        }),
{
    let one = cx.env.resolve_bitfield(&**left)->0;
    let two = cx.env.resolve_bitfield(&**right)->0;
    let a = crate::codegen::bitfields::plan_emit_bitfield_read_to_reg(
        cx,
        two,
        Reg::Ax,
        Reg::Al,
    )->Emit_0;
    bitfield_read(w, m, cx, two, Reg::Ax, Reg::Al);
    let m1 = crate::machine::run(w, m, a, 0)->Through_0;
    let m2 = ax_pushed(w, m1);
    field_survives_push(w, m, m2, one, m1.ax);
    let c = crate::codegen::bitfields::plan_emit_bitfield_read_to_reg(
        cx,
        one,
        Reg::Ax,
        Reg::Al,
    )->Emit_0;
    bitfield_read(w, m2, cx, one, Reg::Ax, Reg::Al);
    let m3 = crate::machine::run(w, m2, c, 0)->Through_0;
    pushed_on_top(m1.mem, m1.sp, m1.ax);
    let after = popped_and_added(w, m3);
    four_parts(w, m, a, push_step(), c, pop_steps(), m1, m2, m3);
    sum_by_stack_plan(cx, e, left, right);
}

/// The step that pushes `ax`.
spec fn push_step<'a>() -> Seq<Step<'a>> {
    seq![Step::Op1(Mnemonic::Push, Operand::Reg(Reg::Ax))]
}

/// The steps that pop a word and add it to `ax`.
spec fn pop_steps<'a>() -> Seq<Step<'a>> {
    seq![
        Step::Op1(Mnemonic::Pop, Operand::Reg(Reg::Dx)),
        Step::Op2(Mnemonic::Add, Operand::Reg(Reg::Ax), Operand::Reg(Reg::Dx)),
    ]
}

/// `ax` pushed.
proof fn ax_pushed<'a>(w: World<'a>, m: Machine) -> (after: Machine)
    requires
        m.wf(),
    ensures
        crate::machine::run(w, m, push_step(), 0) == Outcome::Through(after),
        after.wf(),
        after == (Machine {
            sp: crate::machine::wrap(m.sp - 2),
            mem: crate::machine::put_word(m.mem, m.sp - 2, m.ax),
            ..m
        }),
        crate::machine::same_but(after.mem, m.mem, m.sp - 2, 2),
{
    let after = Machine {
        sp: crate::machine::wrap(m.sp - 2),
        mem: crate::machine::put_word(m.mem, m.sp - 2, m.ax),
        ..m
    };
    crate::machine::word_written(m.mem, m.sp - 2, m.ax);
    assert(crate::machine::run_step(w, m, push_step::<'a>()[0]) == Some(after));
    crate::machine::step_on(w, m, push_step(), 0, after);
    crate::machine::step_end(w, after, push_step(), 1);
    after
}

/// A word that was pushed lies on top of the stack.
proof fn pushed_on_top(mem: Map<int, int>, sp: int, v: int)
    requires
        0 <= v < 0x1_0000,
    ensures
        crate::machine::word_in(
            crate::machine::put_word(mem, sp - 2, v),
            crate::machine::wrap(sp - 2),
        ) == v,
{
    crate::machine::word_written(mem, sp - 2, v);
    reveal(crate::machine::word_in);
    assert(crate::machine::wrap(crate::machine::wrap(sp - 2) + 1) == crate::machine::wrap(sp - 1));
}

/// The word on top of the stack popped and added to `ax`.
proof fn popped_and_added<'a>(w: World<'a>, m: Machine) -> (after: Machine)
    requires
        m.wf(),
    ensures
        crate::machine::run(w, m, pop_steps(), 0) == Outcome::Through(after),
        after.mem == m.mem,
        after.sp == crate::machine::wrap(m.sp + 2),
        after.ax == crate::machine::wrap(m.ax + m.word_at(m.sp)),
{
    crate::machine::word_range(m.mem, m.sp);
    let m1 = Machine { sp: crate::machine::wrap(m.sp + 2), dx: m.word_at(m.sp), ..m };
    assert(crate::machine::run_step(w, m, pop_steps::<'a>()[0]) == Some(m1));
    crate::machine::step_on(w, m, pop_steps(), 0, m1);
    let after = crate::laws::steps::direct_to_register(
        w,
        m1,
        pop_steps(),
        1,
        BinOp::Add,
        Reg::Ax,
        Operand::Reg(Reg::Dx),
    );
    crate::machine::step_end(w, after, pop_steps(), 2);
    after
}

/// Four pieces of code, of which the first three go through.
proof fn four_parts<'a>(
    w: World<'a>,
    m: Machine,
    a: Seq<Step<'a>>,
    b: Seq<Step<'a>>,
    c: Seq<Step<'a>>,
    d: Seq<Step<'a>>,
    m1: Machine,
    m2: Machine,
    m3: Machine,
)
    requires
        crate::machine::run(w, m, a, 0) == Outcome::Through(m1),
        crate::machine::run(w, m1, b, 0) == Outcome::Through(m2),
        crate::machine::run(w, m2, c, 0) == Outcome::Through(m3),
    ensures
        crate::machine::run(w, m, ((a + b) + c) + d, 0) == crate::machine::run(w, m3, d, 0),
{
    crate::laws::flow::run_parts(w, m, a, b, 0);
    crate::laws::flow::run_second(w, m1, a, b, 0);
    crate::laws::flow::run_parts(w, m, a + b, c, 0);
    crate::laws::flow::run_second(w, m2, a + b, c, 0);
    crate::laws::flow::run_parts(w, m, (a + b) + c, d, 0);
    crate::laws::flow::run_second(w, m3, (a + b) + c, d, 0);
}

/// The code for a signed bitfield plus an unsigned one.
proof fn sum_by_stack_plan<'a>(
    cx: Cx<'a>,
    e: &'a Expr,
    left: &'a Box<Expr>,
    right: &'a Box<Expr>,
)
    requires
        e.kind == (ExprKind::BinOp { op: BinOp::Add, left: *left, right: *right }),
        cx.env.bitfield_in_reach(&**left),
        cx.env.bitfield_in_reach(&**right),
        cx.env.resolve_bitfield(&**left) matches Some(one) && one.signed
            && crate::codegen::bitfields::plan_emit_bitfield_read_to_reg(
            cx,
            one,
            Reg::Ax,
            Reg::Al,
        ) is Emit,
        cx.env.resolve_bitfield(&**right) matches Some(two) && !two.signed
            && crate::codegen::bitfields::plan_emit_bitfield_read_to_reg(
            cx,
            two,
            Reg::Ax,
            Reg::Al,
        ) is Emit,
    ensures
        ({
            let a = crate::codegen::bitfields::plan_emit_bitfield_read_to_reg(
                cx,
                cx.env.resolve_bitfield(&**right)->0,
                Reg::Ax,
                Reg::Al,
            )->Emit_0;
            let c = crate::codegen::bitfields::plan_emit_bitfield_read_to_reg(
                cx,
                cx.env.resolve_bitfield(&**left)->0,
                Reg::Ax,
                Reg::Al,
            )->Emit_0;
            crate::codegen::bitfields::plan_emit_bitfield_chain_to_ax(cx, e) == Plan::Emit(
                ((a + push_step()) + c) + pop_steps(),
            )
        }),
{
    let one = cx.env.resolve_bitfield(&**left)->0;
    let two = cx.env.resolve_bitfield(&**right)->0;
    let a = crate::codegen::bitfields::plan_emit_bitfield_read_to_reg(
        cx,
        two,
        Reg::Ax,
        Reg::Al,
    )->Emit_0;
    let c = crate::codegen::bitfields::plan_emit_bitfield_read_to_reg(
        cx,
        one,
        Reg::Ax,
        Reg::Al,
    )->Emit_0;
    let plan = crate::codegen::bitfields::plan_bitfield_sum_reversed(
        cx,
        &**left,
        BinOp::Add,
        two,
    );
    assert(crate::codegen::bitfields::plan_emit_bitfield_chain_to_ax(cx, e) == plan);
    assert(plan is Emit);
    assert(plan->Emit_0 =~= ((a + push_step()) + c) + pop_steps());
}

} // verus!
