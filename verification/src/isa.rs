//! Assembler instructions as data.
//!
//! The code generator works on operands and instructions; their text is made
//! in the module `render`.

use vstd::prelude::*;
use crate::ast::{BinOp, UpdateOp};

verus! {

/// The registers of the 8086.
#[derive(Debug, Clone, Copy, PartialEq, Eq, Structural)]
pub enum Reg {
    Ax,
    Bx,
    Cx,
    Dx,
    Si,
    Di,
    Bp,
    Sp,
    Al,
    Bl,
    Cl,
    Dl,
    Ah,
    Bh,
    Ch,
    Dh,
    Cs,
    Ds,
    Es,
    Ss,
}

impl Reg {
    /// Whether this names one half of a general register.
    #[verifier::allow_in_spec]
    pub fn is_byte(self) -> bool
        returns
            (match self {
                Reg::Al | Reg::Bl | Reg::Cl | Reg::Dl => true,
                Reg::Ah | Reg::Bh | Reg::Ch | Reg::Dh => true,
                _ => false,
            }),
    {
        match self {
            Reg::Al | Reg::Bl | Reg::Cl | Reg::Dl => true,
            Reg::Ah | Reg::Bh | Reg::Ch | Reg::Dh => true,
            _ => false,
        }
    }

    /// Whether an address may be formed from this register alone.
    #[verifier::allow_in_spec]
    pub fn is_base(self) -> bool
        returns
            (match self {
                Reg::Bx | Reg::Si | Reg::Di => true,
                _ => false,
            }),
    {
        match self {
            Reg::Bx | Reg::Si | Reg::Di => true,
            _ => false,
        }
    }

    /// Whether this is one of the two index registers.
    #[verifier::allow_in_spec]
    pub fn is_index(self) -> bool
        returns
            (match self {
                Reg::Si | Reg::Di => true,
                _ => false,
            }),
    {
        match self {
            Reg::Si | Reg::Di => true,
            _ => false,
        }
    }

    /// The low half of a register that may hold a local variable.
    #[verifier::allow_in_spec]
    pub fn low(self) -> Option<Reg>
        returns
            (match self {
                Reg::Dx => Some(Reg::Dl),
                Reg::Bx => Some(Reg::Bl),
                Reg::Cx => Some(Reg::Cl),
                _ => None,
            }),
    {
        match self {
            Reg::Dx => Some(Reg::Dl),
            Reg::Bx => Some(Reg::Bl),
            Reg::Cx => Some(Reg::Cl),
            _ => None,
        }
    }

    /// The assembler name.
    #[verifier::allow_in_spec]
    pub fn text(self) -> &'static str
        returns
            (match self {
                Reg::Ax => "ax",
                Reg::Bx => "bx",
                Reg::Cx => "cx",
                Reg::Dx => "dx",
                Reg::Si => "si",
                Reg::Di => "di",
                Reg::Bp => "bp",
                Reg::Sp => "sp",
                Reg::Al => "al",
                Reg::Bl => "bl",
                Reg::Cl => "cl",
                Reg::Dl => "dl",
                Reg::Ah => "ah",
                Reg::Bh => "bh",
                Reg::Ch => "ch",
                Reg::Dh => "dh",
                Reg::Cs => "cs",
                Reg::Ds => "ds",
                Reg::Es => "es",
                Reg::Ss => "ss",
            }),
    {
        match self {
            Reg::Ax => "ax",
            Reg::Bx => "bx",
            Reg::Cx => "cx",
            Reg::Dx => "dx",
            Reg::Si => "si",
            Reg::Di => "di",
            Reg::Bp => "bp",
            Reg::Sp => "sp",
            Reg::Al => "al",
            Reg::Bl => "bl",
            Reg::Cl => "cl",
            Reg::Dl => "dl",
            Reg::Ah => "ah",
            Reg::Bh => "bh",
            Reg::Ch => "ch",
            Reg::Dh => "dh",
            Reg::Cs => "cs",
            Reg::Ds => "ds",
            Reg::Es => "es",
            Reg::Ss => "ss",
        }
    }
}

/// How much of memory an operand covers.
#[derive(Debug, Clone, Copy, PartialEq, Eq, Structural)]
pub enum Width {
    Byte,
    Word,
    Dword,
    Qword,
}

impl Width {
    /// The assembler name.
    #[verifier::allow_in_spec]
    pub fn text(self) -> &'static str
        returns
            (match self {
                Width::Byte => "byte",
                Width::Word => "word",
                Width::Dword => "dword",
                Width::Qword => "qword",
            }),
    {
        match self {
            Width::Byte => "byte",
            Width::Word => "word",
            Width::Dword => "dword",
            Width::Qword => "qword",
        }
    }
}

/// A displacement behind a symbol or a register: left out, `+n` or `-n`.
#[derive(Debug, Clone, Copy, PartialEq, Eq, Structural)]
pub enum Disp {
    Zero,
    Plus(i64),
    Minus(i64),
}

/// The address of a memory operand.
#[derive(Debug, Clone, Copy)]
pub enum Addr<'a> {
    /// A slot of the stack frame: `[bp-4]`.
    Bp(i64),
    /// Through a register: `[si+2]`.
    At(Reg, Disp),
    /// Through a base and an index register: `[bp+si-4]`.
    Indexed(Reg, Reg, Disp),
    /// Through a register in a named segment: `es:[bx+2]`.
    Seg(Reg, Reg, Disp),
    /// A file-scope symbol: `DGROUP:_x+2`.
    Global(&'a String, Disp),
    /// A file-scope symbol indexed by a register: `DGROUP:_x+4[bx+2]`.
    GlobalAt(&'a String, Disp, Reg, Disp),
    /// An address that is known as text.
    Text(&'a String),
}

/// An operand of an instruction.
#[derive(Debug, Clone, Copy)]
pub enum Operand<'a> {
    Reg(Reg),
    Imm(i64),
    Mem(Width, Addr<'a>),
    /// The offset of a file-scope variable: `offset DGROUP:_x+2`.
    OffsetOf(&'a String, Disp),
    /// The offset of a function: `offset _f`.
    OffsetOfCode(&'a String),
    /// The offset in the string pool at which these bytes are interned.
    Pooled(&'a Vec<u8>),
    /// The offset in the string pool that belongs to the literal at a source
    /// position, or else at which its bytes are interned.
    PooledAt(u32, &'a Vec<u8>),
    /// An operand that is known as text.
    Text(&'a String),
}

/// The instructions that the generator writes itself, jumps and calls aside.
#[derive(Debug, Clone, Copy, PartialEq, Eq, Structural)]
pub enum Mnemonic {
    Mov,
    Add,
    Adc,
    Sub,
    Sbb,
    And,
    Or,
    Xor,
    Cmp,
    Test,
    Inc,
    Dec,
    Neg,
    Not,
    Shl,
    Shr,
    Sar,
    Rcl,
    Rcr,
    Imul,
    Idiv,
    Div,
    Push,
    Pop,
    Lea,
    Les,
    Cbw,
    Cwd,
    Fld1,
    Fstp,
    Fadd,
    Fsub,
    Fmul,
    Fdiv,
}

impl Mnemonic {
    /// The assembler name.
    #[verifier::allow_in_spec]
    pub fn text(self) -> &'static str
        returns
            (match self {
                Mnemonic::Mov => "mov",
                Mnemonic::Add => "add",
                Mnemonic::Adc => "adc",
                Mnemonic::Sub => "sub",
                Mnemonic::Sbb => "sbb",
                Mnemonic::And => "and",
                Mnemonic::Or => "or",
                Mnemonic::Xor => "xor",
                Mnemonic::Cmp => "cmp",
                Mnemonic::Test => "test",
                Mnemonic::Inc => "inc",
                Mnemonic::Dec => "dec",
                Mnemonic::Neg => "neg",
                Mnemonic::Not => "not",
                Mnemonic::Shl => "shl",
                Mnemonic::Shr => "shr",
                Mnemonic::Sar => "sar",
                Mnemonic::Rcl => "rcl",
                Mnemonic::Rcr => "rcr",
                Mnemonic::Imul => "imul",
                Mnemonic::Idiv => "idiv",
                Mnemonic::Div => "div",
                Mnemonic::Push => "push",
                Mnemonic::Pop => "pop",
                Mnemonic::Lea => "lea",
                Mnemonic::Les => "les",
                Mnemonic::Cbw => "cbw",
                Mnemonic::Cwd => "cwd",
                Mnemonic::Fld1 => "fld1",
                Mnemonic::Fstp => "fstp",
                Mnemonic::Fadd => "fadd",
                Mnemonic::Fsub => "fsub",
                Mnemonic::Fmul => "fmul",
                Mnemonic::Fdiv => "fdiv",
            }),
    {
        match self {
            Mnemonic::Mov => "mov",
            Mnemonic::Add => "add",
            Mnemonic::Adc => "adc",
            Mnemonic::Sub => "sub",
            Mnemonic::Sbb => "sbb",
            Mnemonic::And => "and",
            Mnemonic::Or => "or",
            Mnemonic::Xor => "xor",
            Mnemonic::Cmp => "cmp",
            Mnemonic::Test => "test",
            Mnemonic::Inc => "inc",
            Mnemonic::Dec => "dec",
            Mnemonic::Neg => "neg",
            Mnemonic::Not => "not",
            Mnemonic::Shl => "shl",
            Mnemonic::Shr => "shr",
            Mnemonic::Sar => "sar",
            Mnemonic::Rcl => "rcl",
            Mnemonic::Rcr => "rcr",
            Mnemonic::Imul => "imul",
            Mnemonic::Idiv => "idiv",
            Mnemonic::Div => "div",
            Mnemonic::Push => "push",
            Mnemonic::Pop => "pop",
            Mnemonic::Lea => "lea",
            Mnemonic::Les => "les",
            Mnemonic::Cbw => "cbw",
            Mnemonic::Cwd => "cwd",
            Mnemonic::Fld1 => "fld1",
            Mnemonic::Fstp => "fstp",
            Mnemonic::Fadd => "fadd",
            Mnemonic::Fsub => "fsub",
            Mnemonic::Fmul => "fmul",
            Mnemonic::Fdiv => "fdiv",
        }
    }
}

/// The routines of the run-time library for what the 8086 cannot do in line:
/// 32-bit multiplication, division and shifts, and copying a struct.
#[derive(Debug, Clone, Copy, PartialEq, Eq, Structural)]
pub enum Helper {
    LongMul,
    LongDiv,
    LongMod,
    ULongDiv,
    ULongMod,
    LongShl,
    LongShr,
    ULongShr,
    StructCopy,
}

impl Helper {
    /// The symbol of the routine.
    #[verifier::allow_in_spec]
    pub fn text(self) -> &'static str
        returns
            (match self {
                Helper::LongMul => "N_LXMUL@",
                Helper::LongDiv => "N_LDIV@",
                Helper::LongMod => "N_LMOD@",
                Helper::ULongDiv => "N_LUDIV@",
                Helper::ULongMod => "N_LUMOD@",
                Helper::LongShl => "N_LXLSH@",
                Helper::LongShr => "N_LXRSH@",
                Helper::ULongShr => "N_LXURSH@",
                Helper::StructCopy => "N_SCOPY@",
            }),
    {
        match self {
            Helper::LongMul => "N_LXMUL@",
            Helper::LongDiv => "N_LDIV@",
            Helper::LongMod => "N_LMOD@",
            Helper::ULongDiv => "N_LUDIV@",
            Helper::ULongMod => "N_LUMOD@",
            Helper::LongShl => "N_LXLSH@",
            Helper::LongShr => "N_LXRSH@",
            Helper::ULongShr => "N_LXURSH@",
            Helper::StructCopy => "N_SCOPY@",
        }
    }
}

/// The conditional jumps.
#[derive(Debug, Clone, Copy, PartialEq, Eq, Structural)]
pub enum Jcc {
    Je,
    Jne,
    Jl,
    Jle,
    Jg,
    Jge,
    Jb,
    Jbe,
    Ja,
    Jae,
    Jc,
    Jnc,
    Jp,
    Jnp,
    Js,
    Jns,
    Jo,
    Jno,
}

impl Jcc {
    /// The mnemonic.
    #[verifier::allow_in_spec]
    pub fn text(self) -> &'static str
        returns
            (match self {
                Jcc::Je => "je",
                Jcc::Jne => "jne",
                Jcc::Jl => "jl",
                Jcc::Jle => "jle",
                Jcc::Jg => "jg",
                Jcc::Jge => "jge",
                Jcc::Jb => "jb",
                Jcc::Jbe => "jbe",
                Jcc::Ja => "ja",
                Jcc::Jae => "jae",
                Jcc::Jc => "jc",
                Jcc::Jnc => "jnc",
                Jcc::Jp => "jp",
                Jcc::Jnp => "jnp",
                Jcc::Js => "js",
                Jcc::Jns => "jns",
                Jcc::Jo => "jo",
                Jcc::Jno => "jno",
            }),
    {
        match self {
            Jcc::Je => "je",
            Jcc::Jne => "jne",
            Jcc::Jl => "jl",
            Jcc::Jle => "jle",
            Jcc::Jg => "jg",
            Jcc::Jge => "jge",
            Jcc::Jb => "jb",
            Jcc::Jbe => "jbe",
            Jcc::Ja => "ja",
            Jcc::Jae => "jae",
            Jcc::Jc => "jc",
            Jcc::Jnc => "jnc",
            Jcc::Jp => "jp",
            Jcc::Jnp => "jnp",
            Jcc::Js => "js",
            Jcc::Jns => "jns",
            Jcc::Jo => "jo",
            Jcc::Jno => "jno",
        }
    }

    /// The jump on the opposite condition.
    pub open spec fn inverse(self) -> Jcc {
        match self {
            Jcc::Je => Jcc::Jne,
            Jcc::Jne => Jcc::Je,
            Jcc::Jl => Jcc::Jge,
            Jcc::Jge => Jcc::Jl,
            Jcc::Jg => Jcc::Jle,
            Jcc::Jle => Jcc::Jg,
            Jcc::Jb => Jcc::Jae,
            Jcc::Jae => Jcc::Jb,
            Jcc::Ja => Jcc::Jbe,
            Jcc::Jbe => Jcc::Ja,
            Jcc::Jc => Jcc::Jnc,
            Jcc::Jnc => Jcc::Jc,
            Jcc::Jp => Jcc::Jnp,
            Jcc::Jnp => Jcc::Jp,
            Jcc::Js => Jcc::Jns,
            Jcc::Jns => Jcc::Js,
            Jcc::Jo => Jcc::Jno,
            Jcc::Jno => Jcc::Jo,
        }
    }
}

/// The jump taken when a comparison holds.
#[verifier::allow_in_spec]
pub fn jcc_if_true(op: BinOp, unsigned: bool) -> Option<Jcc>
    returns
        (match (op, unsigned) {
            (BinOp::Eq, _) => Some(Jcc::Je),
            (BinOp::Ne, _) => Some(Jcc::Jne),
            (BinOp::Lt, false) => Some(Jcc::Jl),
            (BinOp::Le, false) => Some(Jcc::Jle),
            (BinOp::Gt, false) => Some(Jcc::Jg),
            (BinOp::Ge, false) => Some(Jcc::Jge),
            (BinOp::Lt, true) => Some(Jcc::Jb),
            (BinOp::Le, true) => Some(Jcc::Jbe),
            (BinOp::Gt, true) => Some(Jcc::Ja),
            (BinOp::Ge, true) => Some(Jcc::Jae),
            _ => None,
        }),
{
    match (op, unsigned) {
        (BinOp::Eq, _) => Some(Jcc::Je),
        (BinOp::Ne, _) => Some(Jcc::Jne),
        (BinOp::Lt, false) => Some(Jcc::Jl),
        (BinOp::Le, false) => Some(Jcc::Jle),
        (BinOp::Gt, false) => Some(Jcc::Jg),
        (BinOp::Ge, false) => Some(Jcc::Jge),
        (BinOp::Lt, true) => Some(Jcc::Jb),
        (BinOp::Le, true) => Some(Jcc::Jbe),
        (BinOp::Gt, true) => Some(Jcc::Ja),
        (BinOp::Ge, true) => Some(Jcc::Jae),
        _ => None,
    }
}

/// The jump taken when a comparison does not hold.
#[verifier::allow_in_spec]
pub fn jcc_if_false(op: BinOp, unsigned: bool) -> Option<Jcc>
    returns
        (match (op, unsigned) {
            (BinOp::Eq, _) => Some(Jcc::Jne),
            (BinOp::Ne, _) => Some(Jcc::Je),
            (BinOp::Lt, false) => Some(Jcc::Jge),
            (BinOp::Le, false) => Some(Jcc::Jg),
            (BinOp::Gt, false) => Some(Jcc::Jle),
            (BinOp::Ge, false) => Some(Jcc::Jl),
            (BinOp::Lt, true) => Some(Jcc::Jae),
            (BinOp::Le, true) => Some(Jcc::Ja),
            (BinOp::Gt, true) => Some(Jcc::Jbe),
            (BinOp::Ge, true) => Some(Jcc::Jb),
            _ => None,
        }),
{
    match (op, unsigned) {
        (BinOp::Eq, _) => Some(Jcc::Jne),
        (BinOp::Ne, _) => Some(Jcc::Je),
        (BinOp::Lt, false) => Some(Jcc::Jge),
        (BinOp::Le, false) => Some(Jcc::Jg),
        (BinOp::Gt, false) => Some(Jcc::Jle),
        (BinOp::Ge, false) => Some(Jcc::Jl),
        (BinOp::Lt, true) => Some(Jcc::Jae),
        (BinOp::Le, true) => Some(Jcc::Ja),
        (BinOp::Gt, true) => Some(Jcc::Jbe),
        (BinOp::Ge, true) => Some(Jcc::Jb),
        _ => None,
    }
}

/// The comparison that holds exactly when `op` holds of the exchanged
/// operands. Every other operator is left as it is.
#[verifier::allow_in_spec]
pub fn flipped(op: BinOp) -> BinOp
    returns
        (match op {
            BinOp::Lt => BinOp::Gt,
            BinOp::Gt => BinOp::Lt,
            BinOp::Le => BinOp::Ge,
            BinOp::Ge => BinOp::Le,
            _ => op,
        }),
{
    match op {
        BinOp::Lt => BinOp::Gt,
        BinOp::Gt => BinOp::Lt,
        BinOp::Le => BinOp::Ge,
        BinOp::Ge => BinOp::Le,
        _ => op,
    }
}

/// Whether `op` is `<`, `<=`, `>` or `>=`.
#[verifier::allow_in_spec]
pub fn is_relational(op: BinOp) -> bool
    returns
        (match op {
            BinOp::Lt | BinOp::Gt | BinOp::Le | BinOp::Ge => true,
            _ => false,
        }),
{
    match op {
        BinOp::Lt | BinOp::Gt | BinOp::Le | BinOp::Ge => true,
        _ => false,
    }
}

/// Whether `op` is `==` or `!=`.
#[verifier::allow_in_spec]
pub fn is_equality(op: BinOp) -> bool
    returns
        (match op {
            BinOp::Eq | BinOp::Ne => true,
            _ => false,
        }),
{
    match op {
        BinOp::Eq | BinOp::Ne => true,
        _ => false,
    }
}

/// Whether `op` is `+` or `-`.
#[verifier::allow_in_spec]
pub fn is_additive(op: BinOp) -> bool
    returns
        (match op {
            BinOp::Add | BinOp::Sub => true,
            _ => false,
        }),
{
    match op {
        BinOp::Add | BinOp::Sub => true,
        _ => false,
    }
}

/// Whether `op` is `&`, `|` or `^`.
#[verifier::allow_in_spec]
pub fn is_bitwise(op: BinOp) -> bool
    returns
        (match op {
            BinOp::BitAnd | BinOp::BitOr | BinOp::BitXor => true,
            _ => false,
        }),
{
    match op {
        BinOp::BitAnd | BinOp::BitOr | BinOp::BitXor => true,
        _ => false,
    }
}

/// Whether `op` has an instruction with a destination and a source operand:
/// `+`, `-`, `&`, `|` and `^`.
#[verifier::allow_in_spec]
pub fn is_direct(op: BinOp) -> bool
    returns
        (match op {
            BinOp::Add | BinOp::Sub | BinOp::BitAnd | BinOp::BitOr | BinOp::BitXor => true,
            _ => false,
        }),
{
    match op {
        BinOp::Add | BinOp::Sub | BinOp::BitAnd | BinOp::BitOr | BinOp::BitXor => true,
        _ => false,
    }
}

/// Whether `op` is `<<` or `>>`.
#[verifier::allow_in_spec]
pub fn is_shift(op: BinOp) -> bool
    returns
        (match op {
            BinOp::Shl | BinOp::Shr => true,
            _ => false,
        }),
{
    match op {
        BinOp::Shl | BinOp::Shr => true,
        _ => false,
    }
}

/// Whether `op` is `/` or `%`.
#[verifier::allow_in_spec]
pub fn is_division(op: BinOp) -> bool
    returns
        (match op {
            BinOp::Div | BinOp::Mod => true,
            _ => false,
        }),
{
    match op {
        BinOp::Div | BinOp::Mod => true,
        _ => false,
    }
}

/// Whether `op` is `*`, `/` or `%`.
#[verifier::allow_in_spec]
pub fn is_multiplicative(op: BinOp) -> bool
    returns
        (match op {
            BinOp::Mul | BinOp::Div | BinOp::Mod => true,
            _ => false,
        }),
{
    match op {
        BinOp::Mul | BinOp::Div | BinOp::Mod => true,
        _ => false,
    }
}

/// The instruction of a direct operator; of any other, `xor`.
#[verifier::allow_in_spec]
pub fn direct(op: BinOp) -> Mnemonic
    returns
        (match op {
            BinOp::Add => Mnemonic::Add,
            BinOp::Sub => Mnemonic::Sub,
            BinOp::BitAnd => Mnemonic::And,
            BinOp::BitOr => Mnemonic::Or,
            _ => Mnemonic::Xor,
        }),
{
    match op {
        BinOp::Add => Mnemonic::Add,
        BinOp::Sub => Mnemonic::Sub,
        BinOp::BitAnd => Mnemonic::And,
        BinOp::BitOr => Mnemonic::Or,
        _ => Mnemonic::Xor,
    }
}

/// The instruction for the high half of a 32-bit operand: additions and
/// subtractions take in the carry of the low half.
#[verifier::allow_in_spec]
pub fn direct_high(op: BinOp) -> Mnemonic
    returns
        (match op {
            BinOp::Add => Mnemonic::Adc,
            BinOp::Sub => Mnemonic::Sbb,
            BinOp::BitAnd => Mnemonic::And,
            BinOp::BitOr => Mnemonic::Or,
            _ => Mnemonic::Xor,
        }),
{
    match op {
        BinOp::Add => Mnemonic::Adc,
        BinOp::Sub => Mnemonic::Sbb,
        BinOp::BitAnd => Mnemonic::And,
        BinOp::BitOr => Mnemonic::Or,
        _ => Mnemonic::Xor,
    }
}

/// `inc` for an addition of one, `dec` for a subtraction.
#[verifier::allow_in_spec]
pub fn step_by_one(op: BinOp) -> Mnemonic
    returns
        (if op == BinOp::Add { Mnemonic::Inc } else { Mnemonic::Dec }),
{
    if op == BinOp::Add { Mnemonic::Inc } else { Mnemonic::Dec }
}

/// The shift instruction: a right shift keeps the sign of a signed operand.
#[verifier::allow_in_spec]
pub fn shift(op: BinOp, unsigned: bool) -> Mnemonic
    returns
        (if op == BinOp::Shl {
            Mnemonic::Shl
        } else if unsigned {
            Mnemonic::Shr
        } else {
            Mnemonic::Sar
        }),
{
    if op == BinOp::Shl {
        Mnemonic::Shl
    } else if unsigned {
        Mnemonic::Shr
    } else {
        Mnemonic::Sar
    }
}

/// The instruction of `++` or `--`.
#[verifier::allow_in_spec]
pub fn update(op: UpdateOp) -> Mnemonic
    returns
        (match op {
            UpdateOp::Inc => Mnemonic::Inc,
            UpdateOp::Dec => Mnemonic::Dec,
        }),
{
    match op {
        UpdateOp::Inc => Mnemonic::Inc,
        UpdateOp::Dec => Mnemonic::Dec,
    }
}

/// The 32-bit division or remainder routine.
#[verifier::allow_in_spec]
pub fn divider(op: BinOp, unsigned: bool) -> Helper
    returns
        (match (op, unsigned) {
            (BinOp::Div, false) => Helper::LongDiv,
            (BinOp::Div, true) => Helper::ULongDiv,
            (_, false) => Helper::LongMod,
            (_, true) => Helper::ULongMod,
        }),
{
    match (op, unsigned) {
        (BinOp::Div, false) => Helper::LongDiv,
        (BinOp::Div, true) => Helper::ULongDiv,
        (_, false) => Helper::LongMod,
        (_, true) => Helper::ULongMod,
    }
}

/// The 32-bit shift routine.
#[verifier::allow_in_spec]
pub fn shifter(op: BinOp, unsigned: bool) -> Helper
    returns
        (match (op, unsigned) {
            (BinOp::Shl, _) => Helper::LongShl,
            (_, false) => Helper::LongShr,
            (_, true) => Helper::ULongShr,
        }),
{
    match (op, unsigned) {
        (BinOp::Shl, _) => Helper::LongShl,
        (_, false) => Helper::LongShr,
        (_, true) => Helper::ULongShr,
    }
}

/// The low byte of a constant.
#[verifier::allow_in_spec]
pub fn lo8(v: u32) -> i64
    returns
        ((v % 256) as i64),
{
    (v % 256) as i64
}

/// The low word of a constant.
#[verifier::allow_in_spec]
pub fn lo16(v: u32) -> i64
    returns
        ((v % 65536) as i64),
{
    (v % 65536) as i64
}

/// The high word of a constant.
#[verifier::allow_in_spec]
pub fn hi16(v: u32) -> i64
    returns
        ((v / 65536) as i64),
{
    (v / 65536) as i64
}

/// A constant cut to the width of a store.
#[verifier::allow_in_spec]
pub fn masked(v: u32, byte: bool) -> i64
    returns
        (if byte { (v % 256) as i64 } else { (v % 65536) as i64 }),
{
    if byte { (v % 256) as i64 } else { (v % 65536) as i64 }
}

/// The byte that, added, subtracts the low byte of `v`.
#[verifier::allow_in_spec]
pub fn neg8(v: u32) -> i64
    returns
        (((256 - v % 256) % 256) as i64),
{
    ((256 - v % 256) % 256) as i64
}

/// A byte read as a signed number.
#[verifier::allow_in_spec]
pub fn signed8(v: i64) -> i64
    returns
        (if v >= 128 { (v - 256) as i64 } else { v }),
{
    if v >= 128 { (v - 256) as i64 } else { v }
}

/// Whether a 16-bit value fits a sign-extended byte.
#[verifier::allow_in_spec]
pub fn fits_i8(v: i64) -> bool
    returns
        (-128 <= v && v <= 127),
{
    -128 <= v && v <= 127
}

/// What a 32-bit register holds of an integer, read as a signed number.
pub open spec fn signed32(x: int) -> int {
    let low = x % 0x1_0000_0000;
    if low < 0x8000_0000 { low } else { low - 0x1_0000_0000 }
}

/// A constant read as a signed number.
#[verifier::allow_in_spec]
pub fn signed_of(v: u32) -> i64
    returns
        (if v < 0x8000_0000 { v as i64 } else { (v as i64 - 0x1_0000_0000) as i64 }),
{
    if v < 0x8000_0000 { v as i64 } else { (v as i64 - 0x1_0000_0000) as i64 }
}

/// The signed byte offset of element `k` of a given size.
pub open spec fn spec_scaled(k: u32, size: u16) -> i32 {
    signed32(k * size) as i32
}

/// The signed byte offset of element `k` of a given size, cut to 32 bits.
#[verifier::when_used_as_spec(spec_scaled)]
pub fn scaled(k: u32, size: u16) -> (r: i32)
    ensures
        r == spec_scaled(k, size),
        r == signed32(k * size),
{
    proof {
        assert(0 <= k * size <= 0xFFFF_FFFF * 0xFFFF) by (nonlinear_arith)
            requires
                0 <= k <= 0xFFFF_FFFF,
                0 <= size <= 0xFFFF,
        ;
    }
    let full: u64 = k as u64 * size as u64;
    let low: u64 = full % 0x1_0000_0000;
    if low < 0x8000_0000 {
        low as i32
    } else {
        (low as i64 - 0x1_0000_0000) as i32
    }
}

/// The byte offset of element `k` of a given size, cut to 32 bits.
pub open spec fn spec_uscaled(k: u32, size: u16) -> u32 {
    ((k * size) % 0x1_0000_0000) as u32
}

/// The byte offset of element `k` of a given size, cut to 32 bits.
#[verifier::when_used_as_spec(spec_uscaled)]
pub fn uscaled(k: u32, size: u16) -> (r: u32)
    ensures
        r == spec_uscaled(k, size),
        r == (k * size) % 0x1_0000_0000,
{
    proof {
        assert(0 <= k * size <= 0xFFFF_FFFF * 0xFFFF) by (nonlinear_arith)
            requires
                0 <= k <= 0xFFFF_FFFF,
                0 <= size <= 0xFFFF,
        ;
    }
    let full: u64 = k as u64 * size as u64;
    (full % 0x1_0000_0000) as u32
}

/// Whether the byte offset of element `k` is below two to the 32nd.
pub open spec fn spec_scales(k: u32, size: u16) -> bool {
    k * size <= 0xFFFF_FFFF
}

/// Whether the byte offset of element `k` is below two to the 32nd.
#[verifier::when_used_as_spec(spec_scales)]
pub fn scales(k: u32, size: u16) -> (r: bool)
    ensures
        r == spec_scales(k, size),
{
    proof {
        assert(0 <= k * size <= 0xFFFF_FFFF * 0xFFFF) by (nonlinear_arith)
            requires
                0 <= k <= 0xFFFF_FFFF,
                0 <= size <= 0xFFFF,
        ;
    }
    let full: u64 = k as u64 * size as u64;
    full <= 0xFFFF_FFFF
}

/// An offset held down to the largest 16-bit number where it does not fit.
#[verifier::allow_in_spec]
pub fn sat16(v: i32) -> i32
    returns
        (if -32768 <= v && v <= 32767 { v } else { 32767 }),
{
    if -32768 <= v && v <= 32767 { v } else { 32767 }
}

/// An unsigned offset held down to the largest 16-bit number where it does
/// not fit.
#[verifier::allow_in_spec]
pub fn usat16(v: u32) -> i32
    returns
        (if v <= 32767 { v as i32 } else { 32767 }),
{
    if v <= 32767 { v as i32 } else { 32767 }
}

/// Whether a number fits 16 bits with sign.
#[verifier::allow_in_spec]
pub fn fits_i16(v: i64) -> bool
    returns
        (-32768 <= v && v <= 32767),
{
    -32768 <= v && v <= 32767
}

/// How often `n` can be halved; 32 for zero.
pub open spec fn spec_halvings(n: u32) -> u32
    decreases n,
{
    if n == 0 {
        32
    } else if n % 2 == 1 {
        0
    } else {
        (1 + spec_halvings((n / 2) as u32)) as u32
    }
}

/// How often `n` can be halved; 32 for zero.
#[verifier::when_used_as_spec(spec_halvings)]
pub fn halvings(n: u32) -> (r: u32)
    ensures
        r == spec_halvings(n),
        r <= 32,
        n > 0 ==> r < 32,
    decreases n,
{
    if n == 0 {
        32
    } else if n % 2 == 1 {
        0
    } else {
        proof {
            halvings_bound(n);
            halvings_bound(n / 2);
        }
        1 + halvings(n / 2)
    }
}

/// A nonzero 32-bit number can be halved at most 31 times.
proof fn halvings_bound(n: u32)
    ensures
        n > 0 ==> spec_halvings(n) < 32,
        spec_halvings(n) <= 32,
        forall|b: u32| #![trigger power_above(n, b)] power_above(n, b) ==> spec_halvings(n) < b,
{
    assert forall|b: u32| #![trigger power_above(n, b)] power_above(n, b) implies spec_halvings(n)
        < b by {
        halvings_below(n, b);
    }
    assert(n > 0 ==> power_above(n, 32)) by {
        assert(vstd::arithmetic::power2::pow2(32) == 0x1_0000_0000) by {
            vstd::arithmetic::power2::lemma2_to64();
        }
    }
}

/// `n` is positive and below two to the power `b`, which is at most 32.
pub open spec fn power_above(n: u32, b: u32) -> bool {
    0 < n && b <= 32 && n < vstd::arithmetic::power2::pow2(b as nat)
}

proof fn halvings_below(n: u32, b: u32)
    requires
        power_above(n, b),
    ensures
        spec_halvings(n) < b,
    decreases n,
{
    if b == 0 {
        vstd::arithmetic::power2::lemma2_to64();
    } else if n % 2 == 0 {
        vstd::arithmetic::power2::lemma_pow2_unfold(b as nat);
        halvings_below(n / 2, (b - 1) as u32);
    }
}

/// Whether `n` is a power of two.
pub open spec fn spec_is_pow2(n: u32) -> bool
    decreases n,
{
    n == 1 || (n > 1 && n % 2 == 0 && spec_is_pow2((n / 2) as u32))
}

/// Whether `n` is a power of two.
#[verifier::when_used_as_spec(spec_is_pow2)]
pub fn is_pow2(n: u32) -> (r: bool)
    ensures
        r == spec_is_pow2(n),
    decreases n,
{
    n == 1 || (n > 1 && n % 2 == 0 && is_pow2(n / 2))
}

/// `+n`, or nothing for zero.
#[verifier::allow_in_spec]
pub fn plus(n: i64) -> Disp
    returns
        (if n == 0 { Disp::Zero } else { Disp::Plus(n) }),
{
    if n == 0 { Disp::Zero } else { Disp::Plus(n) }
}

/// `+n` or `-n`, or nothing for zero.
#[verifier::allow_in_spec]
pub fn signed(n: i64) -> Disp
    returns
        (if n == 0 {
            Disp::Zero
        } else if n > 0 {
            Disp::Plus(n)
        } else if n == -0x8000_0000_0000_0000 {
            Disp::Plus(n)
        } else {
            Disp::Minus((-n) as i64)
        }),
{
    if n == 0 {
        Disp::Zero
    } else if n > 0 {
        Disp::Plus(n)
    } else if n == -0x8000_0000_0000_0000 {
        Disp::Plus(n)
    } else {
        Disp::Minus((-n) as i64)
    }
}

/// The signed displacement of a 32-bit offset.
#[verifier::allow_in_spec]
pub fn disp(off: i32) -> Disp
    returns
        (signed(off as i64)),
{
    signed(off as i64)
}

/// The signed displacement two bytes behind a 32-bit offset.
#[verifier::allow_in_spec]
pub fn disp2(off: i32) -> Disp
    returns
        (signed((off as i64 + 2) as i64)),
{
    signed((off as i64 + 2) as i64)
}

/// The frame slot at an offset.
#[verifier::allow_in_spec]
pub fn bp<'a>(off: i16) -> Addr<'a>
    returns
        (Addr::Bp(off as i64)),
{
    Addr::Bp(off as i64)
}

/// The high half of the frame slot at an offset.
#[verifier::allow_in_spec]
pub fn bp2<'a>(off: i16) -> Addr<'a>
    returns
        (Addr::Bp((off as i64 + 2) as i64)),
{
    Addr::Bp((off as i64 + 2) as i64)
}

/// The frame slot `d` bytes behind an offset.
#[verifier::allow_in_spec]
pub fn bp_plus<'a>(off: i16, d: i32) -> Addr<'a>
    returns
        (Addr::Bp((off as i64 + d as i64) as i64)),
{
    Addr::Bp((off as i64 + d as i64) as i64)
}

/// The high half of the frame slot `d` bytes behind an offset.
#[verifier::allow_in_spec]
pub fn bp_plus2<'a>(off: i16, d: i32) -> Addr<'a>
    returns
        (Addr::Bp((off as i64 + d as i64 + 2) as i64)),
{
    Addr::Bp((off as i64 + d as i64 + 2) as i64)
}

/// The frame slot `d` bytes behind an offset, held down to 16 bits.
#[verifier::allow_in_spec]
pub fn bp_sat<'a>(off: i16, d: i32) -> Addr<'a>
    returns
        (if -32768 <= off as i64 + d as i64 && off as i64 + d as i64 <= 32767 {
            Addr::Bp((off as i64 + d as i64) as i64)
        } else {
            Addr::Bp(32767)
        }),
{
    if -32768 <= off as i64 + d as i64 && off as i64 + d as i64 <= 32767 {
        Addr::Bp((off as i64 + d as i64) as i64)
    } else {
        Addr::Bp(32767)
    }
}

/// The frame slot of element `k` behind an offset; `None` where it is out of
/// the reach of 16 bits.
pub open spec fn spec_frame_elem<'a>(off: i16, k: u32, size: u16) -> Option<Addr<'a>> {
    let at = off + signed_of(k) * size;
    if -32768 <= at <= 32767 { Some(Addr::Bp(at as i64)) } else { None }
}

/// The frame slot of element `k` behind an offset.
#[verifier::when_used_as_spec(spec_frame_elem)]
pub fn frame_elem<'a>(off: i16, k: u32, size: u16) -> (r: Option<Addr<'a>>)
    ensures
        r == spec_frame_elem::<'a>(off, k, size),
{
    let n: i64 = signed_of(k);
    proof {
        assert(-0x8000_0000 * 0xFFFF <= n * size <= 0x7FFF_FFFF * 0xFFFF) by (nonlinear_arith)
            requires
                -0x8000_0000 <= n <= 0x7FFF_FFFF,
                0 <= size <= 0xFFFF,
        ;
    }
    let at: i64 = off as i64 + n * size as i64;
    if -32768 <= at && at <= 32767 {
        Some(Addr::Bp(at))
    } else {
        None
    }
}

/// Through a register.
#[verifier::allow_in_spec]
pub fn at<'a>(r: Reg) -> Addr<'a>
    returns
        (Addr::At(r, Disp::Zero)),
{
    Addr::At(r, Disp::Zero)
}

/// Through a register, two bytes on.
#[verifier::allow_in_spec]
pub fn at2<'a>(r: Reg) -> Addr<'a>
    returns
        (Addr::At(r, Disp::Plus(2))),
{
    Addr::At(r, Disp::Plus(2))
}

/// Through a register with a displacement.
#[verifier::allow_in_spec]
pub fn at_disp<'a>(r: Reg, d: Disp) -> Addr<'a>
    returns
        (Addr::At(r, d)),
{
    Addr::At(r, d)
}

/// Through a register in a segment; the data segment is the default.
#[verifier::allow_in_spec]
pub fn seg_at<'a>(seg: Reg, r: Reg) -> Addr<'a>
    returns
        (if seg == Reg::Ds { Addr::At(r, Disp::Zero) } else { Addr::Seg(seg, r, Disp::Zero) }),
{
    if seg == Reg::Ds { Addr::At(r, Disp::Zero) } else { Addr::Seg(seg, r, Disp::Zero) }
}

/// A file-scope variable.
#[verifier::allow_in_spec]
pub fn global<'a>(name: &'a String) -> Addr<'a>
    returns
        (Addr::Global(name, Disp::Zero)),
{
    Addr::Global(name, Disp::Zero)
}

/// The high half of a file-scope variable.
#[verifier::allow_in_spec]
pub fn global2<'a>(name: &'a String) -> Addr<'a>
    returns
        (Addr::Global(name, Disp::Plus(2))),
{
    Addr::Global(name, Disp::Plus(2))
}

/// A file-scope variable with a displacement.
#[verifier::allow_in_spec]
pub fn global_at<'a>(name: &'a String, d: Disp) -> Addr<'a>
    returns
        (Addr::Global(name, d)),
{
    Addr::Global(name, d)
}

/// A file-scope array indexed by a register.
#[verifier::allow_in_spec]
pub fn elem<'a>(name: &'a String, r: Reg) -> Addr<'a>
    returns
        (Addr::GlobalAt(name, Disp::Zero, r, Disp::Zero)),
{
    Addr::GlobalAt(name, Disp::Zero, r, Disp::Zero)
}

/// The high half of an element of a file-scope array.
#[verifier::allow_in_spec]
pub fn elem2<'a>(name: &'a String, r: Reg) -> Addr<'a>
    returns
        (Addr::GlobalAt(name, Disp::Zero, r, Disp::Plus(2))),
{
    Addr::GlobalAt(name, Disp::Zero, r, Disp::Plus(2))
}

/// A file-scope array with a displacement, indexed by a register.
#[verifier::allow_in_spec]
pub fn elem_at<'a>(name: &'a String, d: Disp, r: Reg) -> Addr<'a>
    returns
        (Addr::GlobalAt(name, d, r, Disp::Zero)),
{
    Addr::GlobalAt(name, d, r, Disp::Zero)
}

/// An address known as text.
#[verifier::allow_in_spec]
pub fn named<'a>(text: &'a String) -> Addr<'a>
    returns
        (Addr::Text(text)),
{
    Addr::Text(text)
}

/// A register operand.
#[verifier::allow_in_spec]
pub fn r<'a>(reg: Reg) -> Operand<'a>
    returns
        (Operand::Reg(reg)),
{
    Operand::Reg(reg)
}

/// The register `ax`.
#[verifier::allow_in_spec]
pub fn ax<'a>() -> Operand<'a>
    returns
        (Operand::Reg(Reg::Ax)),
{
    Operand::Reg(Reg::Ax)
}

/// The register `bx`.
#[verifier::allow_in_spec]
pub fn bx<'a>() -> Operand<'a>
    returns
        (Operand::Reg(Reg::Bx)),
{
    Operand::Reg(Reg::Bx)
}

/// The register `cx`.
#[verifier::allow_in_spec]
pub fn cx_<'a>() -> Operand<'a>
    returns
        (Operand::Reg(Reg::Cx)),
{
    Operand::Reg(Reg::Cx)
}

/// The register `dx`.
#[verifier::allow_in_spec]
pub fn dx<'a>() -> Operand<'a>
    returns
        (Operand::Reg(Reg::Dx)),
{
    Operand::Reg(Reg::Dx)
}

/// The register `al`.
#[verifier::allow_in_spec]
pub fn al<'a>() -> Operand<'a>
    returns
        (Operand::Reg(Reg::Al)),
{
    Operand::Reg(Reg::Al)
}

/// The register `cl`.
#[verifier::allow_in_spec]
pub fn cl<'a>() -> Operand<'a>
    returns
        (Operand::Reg(Reg::Cl)),
{
    Operand::Reg(Reg::Cl)
}

/// The register `dl`.
#[verifier::allow_in_spec]
pub fn dl<'a>() -> Operand<'a>
    returns
        (Operand::Reg(Reg::Dl)),
{
    Operand::Reg(Reg::Dl)
}

/// An immediate operand.
#[verifier::allow_in_spec]
pub fn imm<'a>(n: i64) -> Operand<'a>
    returns
        (Operand::Imm(n)),
{
    Operand::Imm(n)
}

/// A word in memory.
#[verifier::allow_in_spec]
pub fn word<'a>(a: Addr<'a>) -> Operand<'a>
    returns
        (Operand::Mem(Width::Word, a)),
{
    Operand::Mem(Width::Word, a)
}

/// A byte in memory.
#[verifier::allow_in_spec]
pub fn byte<'a>(a: Addr<'a>) -> Operand<'a>
    returns
        (Operand::Mem(Width::Byte, a)),
{
    Operand::Mem(Width::Byte, a)
}

/// A byte or a word in memory.
#[verifier::allow_in_spec]
pub fn sized<'a>(is_byte: bool, a: Addr<'a>) -> Operand<'a>
    returns
        (if is_byte { Operand::Mem(Width::Byte, a) } else { Operand::Mem(Width::Word, a) }),
{
    if is_byte { Operand::Mem(Width::Byte, a) } else { Operand::Mem(Width::Word, a) }
}

/// An operand of a given width.
#[verifier::allow_in_spec]
pub fn wide<'a>(w: Width, a: Addr<'a>) -> Operand<'a>
    returns
        (Operand::Mem(w, a)),
{
    Operand::Mem(w, a)
}

/// The offset of a file-scope variable.
#[verifier::allow_in_spec]
pub fn offset_of<'a>(name: &'a String, d: Disp) -> Operand<'a>
    returns
        (Operand::OffsetOf(name, d)),
{
    Operand::OffsetOf(name, d)
}

/// The offset of a function.
#[verifier::allow_in_spec]
pub fn offset_of_code<'a>(name: &'a String) -> Operand<'a>
    returns
        (Operand::OffsetOfCode(name)),
{
    Operand::OffsetOfCode(name)
}

/// An operand known as text.
#[verifier::allow_in_spec]
pub fn given<'a>(text: &'a String) -> Operand<'a>
    returns
        (Operand::Text(text)),
{
    Operand::Text(text)
}

/// The half of the accumulator that a store of this width takes.
#[verifier::allow_in_spec]
pub fn acc<'a>(is_byte: bool) -> Operand<'a>
    returns
        (if is_byte { Operand::Reg(Reg::Al) } else { Operand::Reg(Reg::Ax) }),
{
    if is_byte { Operand::Reg(Reg::Al) } else { Operand::Reg(Reg::Ax) }
}

/// Where a 16-bit division leaves the quotient or the remainder.
#[verifier::allow_in_spec]
pub fn quotient<'a>(op: BinOp) -> Operand<'a>
    returns
        (if op == BinOp::Mod { Operand::Reg(Reg::Dx) } else { Operand::Reg(Reg::Ax) }),
{
    if op == BinOp::Mod { Operand::Reg(Reg::Dx) } else { Operand::Reg(Reg::Ax) }
}

} // verus!
