//! The text of instructions.

use vstd::prelude::*;
use vstd::string::*;
use crate::codegen::emitter::{FunctionEmitter, Step};
use crate::isa::{Addr, Disp, Operand};

verus! {

/// One decimal digit.
#[verifier::allow_in_spec]
pub fn digit(n: u64) -> &'static str
    returns
        (match n {
            0 => "0",
            1 => "1",
            2 => "2",
            3 => "3",
            4 => "4",
            5 => "5",
            6 => "6",
            7 => "7",
            8 => "8",
            _ => "9",
        }),
{
    match n {
        0 => "0",
        1 => "1",
        2 => "2",
        3 => "3",
        4 => "4",
        5 => "5",
        6 => "6",
        7 => "7",
        8 => "8",
        _ => "9",
    }
}

/// A natural number in decimal, without leading zeros.
pub open spec fn decimal(n: nat) -> Seq<char>
    decreases n,
{
    if n < 10 {
        digit(n as u64)@
    } else {
        decimal(n / 10) + digit((n % 10) as u64)@
    }
}

/// A natural number in decimal.
pub fn decimal_of(n: u64) -> (r: String)
    ensures
        r@ == decimal(n as nat),
    decreases n,
{
    if n < 10 {
        digit(n).to_owned()
    } else {
        decimal_of(n / 10).concat(digit(n % 10))
    }
}

/// An integer in decimal, with a sign if it is negative.
pub open spec fn integer(n: int) -> Seq<char> {
    if n < 0 {
        "-"@ + decimal((-n) as nat)
    } else {
        decimal(n as nat)
    }
}

/// An integer in decimal.
pub fn integer_of(n: i64) -> (r: String)
    ensures
        r@ == integer(n as int),
{
    if n < 0 {
        let size: u64 = (-(n + 1)) as u64 + 1;
        "-".to_owned().concat(decimal_of(size).as_str())
    } else {
        decimal_of(n as u64)
    }
}

impl Disp {
    /// The displacement as it stands behind a symbol or a register.
    pub open spec fn text(self) -> Seq<char> {
        match self {
            Disp::Zero => ""@,
            Disp::Plus(n) => "+"@ + integer(n as int),
            Disp::Minus(n) => "-"@ + integer(n as int),
        }
    }

    /// The displacement as it stands behind a symbol or a register.
    pub fn render(self) -> (r: String)
        ensures
            r@ == self.text(),
    {
        match self {
            Disp::Zero => "".to_owned(),
            Disp::Plus(n) => "+".to_owned().concat(integer_of(n).as_str()),
            Disp::Minus(n) => "-".to_owned().concat(integer_of(n).as_str()),
        }
    }
}

impl<'a> Addr<'a> {
    /// The address as an operand writes it.
    pub open spec fn text(self) -> Seq<char> {
        match self {
            Addr::Bp(n) => if n < 0 {
                "[bp"@ + integer(n as int) + "]"@
            } else {
                "[bp+"@ + integer(n as int) + "]"@
            },
            Addr::At(reg, d) => "["@ + reg.text()@ + d.text() + "]"@,
            Addr::Indexed(base, index, d) => "["@ + base.text()@ + "+"@ + index.text()@ + d.text()
                + "]"@,
            Addr::Seg(seg, reg, d) => seg.text()@ + ":["@ + reg.text()@ + d.text() + "]"@,
            Addr::Global(name, d) => "DGROUP:_"@ + name@ + d.text(),
            Addr::GlobalAt(name, d, reg, e) => "DGROUP:_"@ + name@ + d.text() + "["@ + reg.text()@
                + e.text() + "]"@,
            Addr::Text(text) => text@,
        }
    }

    /// The address as an operand writes it.
    pub fn render(self) -> (r: String)
        ensures
            r@ == self.text(),
    {
        match self {
            Addr::Bp(n) => {
                let open: &str = if n < 0 { "[bp" } else { "[bp+" };
                open.to_owned().concat(integer_of(n).as_str()).concat("]")
            },
            Addr::At(reg, d) => {
                "[".to_owned().concat(reg.text()).concat(d.render().as_str()).concat("]")
            },
            Addr::Indexed(base, index, d) => {
                "[".to_owned().concat(base.text()).concat("+").concat(index.text()).concat(
                    d.render().as_str(),
                ).concat("]")
            },
            Addr::Seg(seg, reg, d) => {
                seg.text().to_owned().concat(":[").concat(reg.text()).concat(
                    d.render().as_str(),
                ).concat("]")
            },
            Addr::Global(name, d) => {
                "DGROUP:_".to_owned().concat(name.as_str()).concat(d.render().as_str())
            },
            Addr::GlobalAt(name, d, reg, e) => {
                "DGROUP:_".to_owned().concat(name.as_str()).concat(d.render().as_str()).concat(
                    "[",
                ).concat(reg.text()).concat(e.render().as_str()).concat("]")
            },
            Addr::Text(text) => text.clone(),
        }
    }
}

impl<'a> Operand<'a> {
    /// The operand as an instruction writes it; `None` for an operand whose
    /// text depends on the string pool.
    pub open spec fn text(self) -> Option<Seq<char>> {
        match self {
            Operand::Reg(reg) => Some(reg.text()@),
            Operand::Imm(n) => Some(integer(n as int)),
            Operand::Mem(w, a) => Some(w.text()@ + " ptr "@ + a.text()),
            Operand::OffsetOf(name, d) => Some("offset DGROUP:_"@ + name@ + d.text()),
            Operand::OffsetOfCode(name) => Some("offset _"@ + name@),
            Operand::Text(text) => Some(text@),
            Operand::Pooled(_) | Operand::PooledAt(_, _) => None,
        }
    }

    /// The operand as an instruction writes it.
    pub fn render(self) -> (r: Option<String>)
        ensures
            r is Some == self.text() is Some,
            r matches Some(s) ==> Some(s@) == self.text(),
    {
        match self {
            Operand::Reg(reg) => Some(reg.text().to_owned()),
            Operand::Imm(n) => Some(integer_of(n)),
            Operand::Mem(w, a) => Some(
                w.text().to_owned().concat(" ptr ").concat(a.render().as_str()),
            ),
            Operand::OffsetOf(name, d) => Some(
                "offset DGROUP:_".to_owned().concat(name.as_str()).concat(d.render().as_str()),
            ),
            Operand::OffsetOfCode(name) => Some("offset _".to_owned().concat(name.as_str())),
            Operand::Text(text) => Some(text.clone()),
            Operand::Pooled(_) | Operand::PooledAt(_, _) => None,
        }
    }
}

impl<'a> Step<'a> {
    /// The assembler line of an instruction or of a call of the run-time
    /// library; `None` for a step that another part of the generator
    /// expands, for jumps and labels, whose text is made where labels are
    /// numbered, and for an operand from the string pool.
    pub open spec fn line(self) -> Option<Seq<char>> {
        match self {
            Step::Op0(m) => Some("\t"@ + m.text()@ + "\t\r\n"@),
            Step::Op1(m, d) => match d.text() {
                Some(a) => Some("\t"@ + m.text()@ + "\t"@ + a + "\r\n"@),
                None => None,
            },
            Step::Op2(m, d, s) => match (d.text(), s.text()) {
                (Some(a), Some(b)) => Some("\t"@ + m.text()@ + "\t"@ + a + ","@ + b + "\r\n"@),
                _ => None,
            },
            Step::Call(h) => Some("\tcall\tnear ptr "@ + h.text()@ + "\r\n"@),
            _ => None,
        }
    }

    /// The assembler line of an instruction or of a call of the run-time
    /// library.
    pub fn render(self) -> (r: Option<String>)
        ensures
            r is Some == self.line() is Some,
            r matches Some(s) ==> Some(s@) == self.line(),
    {
        match self {
            Step::Op0(m) => Some("\t".to_owned().concat(m.text()).concat("\t\r\n")),
            Step::Op1(m, d) => match d.render() {
                Some(a) => Some(
                    "\t".to_owned().concat(m.text()).concat("\t").concat(a.as_str()).concat("\r\n"),
                ),
                None => None,
            },
            Step::Op2(m, d, s) => match (d.render(), s.render()) {
                (Some(a), Some(b)) => Some(
                    "\t".to_owned().concat(m.text()).concat("\t").concat(a.as_str()).concat(
                        ",",
                    ).concat(b.as_str()).concat("\r\n"),
                ),
                _ => None,
            },
            Step::Call(h) => Some(
                "\tcall\tnear ptr ".to_owned().concat(h.text()).concat("\r\n"),
            ),
            _ => None,
        }
    }
}

impl<'a> Step<'a> {
    /// The line of a jump to a label whose text is known; `None` for a step
    /// that is no jump, and for one whose condition is settled elsewhere.
    pub open spec fn jump_line(self, label: Seq<char>) -> Option<Seq<char>> {
        match self {
            Step::Jump(jcc, _) => Some("\t"@ + jcc.text()@ + "\tshort "@ + label + "\r\n"@),
            Step::Goto(_) => Some("\tjmp\tshort "@ + label + "\r\n"@),
            _ => None,
        }
    }

    /// The line of a jump to a label whose text is known.
    pub fn render_jump(self, label: &str) -> (r: Option<String>)
        ensures
            r is Some == self.jump_line(label@) is Some,
            r matches Some(s) ==> Some(s@) == self.jump_line(label@),
    {
        match self {
            Step::Jump(jcc, _) => Some(
                "\t".to_owned().concat(jcc.text()).concat("\tshort ").concat(label).concat("\r\n"),
            ),
            Step::Goto(_) => Some("\tjmp\tshort ".to_owned().concat(label).concat("\r\n")),
            _ => None,
        }
    }
}

/// The lines of some steps, one behind the other; `None` if a step has no
/// line of its own.
pub open spec fn lines<'a>(steps: Seq<Step<'a>>) -> Option<Seq<char>>
    decreases steps.len(),
{
    if steps.len() == 0 {
        Some(seq![])
    } else {
        match (lines(steps.drop_last()), steps.last().line()) {
            (Some(before), Some(line)) => Some(before + line),
            _ => None,
        }
    }
}

/// Steps have no text as soon as the first of them have none.
proof fn lines_stay_away<'a>(steps: Seq<Step<'a>>, n: int)
    requires
        0 <= n <= steps.len(),
        lines(steps.take(n)) is None,
    ensures
        lines(steps) is None,
    decreases steps.len(),
{
    if n < steps.len() {
        assert(steps.drop_last().take(n) =~= steps.take(n));
        lines_stay_away(steps.drop_last(), n);
    } else {
        assert(steps.take(n) =~= steps);
    }
}

impl<'a> FunctionEmitter<'a> {
    /// The text of everything that was emitted; `None` if a step has no line
    /// of its own.
    #[must_use]
    pub fn text(&self) -> (r: Option<String>)
        ensures
            r is Some == lines(self.out@) is Some,
            r matches Some(s) ==> Some(s@) == lines(self.out@),
    {
        let mut all: String = String::new();
        let mut i: usize = 0;
        proof {
            assert(self.out@.take(0) =~= seq![]);
        }
        while i < self.out.len()
            invariant
                0 <= i <= self.out.len(),
                lines(self.out@.take(i as int)) == Some(all@),
            decreases self.out.len() - i,
        {
            proof {
                assert(self.out@.take(i + 1).drop_last() =~= self.out@.take(i as int));
            }
            match self.out[i].render() {
                Some(line) => {
                    all = all.concat(line.as_str());
                },
                None => {
                    proof {
                        lines_stay_away(self.out@, i + 1);
                    }
                    return None;
                },
            }
            i += 1;
        }
        proof {
            assert(self.out@.take(i as int) =~= self.out@);
        }
        Some(all)
    }
}

} // verus!
