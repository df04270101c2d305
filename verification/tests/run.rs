//! Emitted code, executed: a small 8086 runs the steps, and the memory and
//! registers it leaves are held against what the C source asks for.

use bcc::ast::{
    BinOp, BitfieldInfo, Expr, ExprKind, LogicalOp, MemberKind, Span, StructField, Type, UnaryOp,
    UpdateOp, UpdatePosition,
};
use bcc::codegen::bitfields::{BitfieldAccess, BitfieldRef};
use bcc::codegen::emitter::{FunctionEmitter, Step};
use bcc::codegen::env::{
    Env, Facts, GlobalVar, IndexSource, Local, LocalLocation, LongHalves, Note, Source, SourceKind,
};
use bcc::isa::{Addr, Disp, Helper, Jcc, Mnemonic, Operand, Reg, Width};

/// Builds surroundings and expressions, each at a span of its own.
struct Build {
    env: Env,
    next: u32,
}

impl Build {
    fn new() -> Build {
        Build {
            env: Env {
                locals: vec![],
                globals: vec![],
                signatures: vec![],
                pseudo_registers: vec![],
                notes: vec![],
                no_facts: Facts::none(),
                struct_tmp: -40,
            },
            next: 0,
        }
    }

    fn local(&mut self, name: &str, ty: Type, loc: LocalLocation) {
        self.env.locals.push(Local {
            name: name.to_string(),
            ty,
            loc,
            seg: None,
            is_selector: false,
        });
    }

    fn global(&mut self, name: &str, ty: Type) {
        self.env.globals.push(GlobalVar { name: name.to_string(), ty });
    }

    fn expr(&mut self, kind: ExprKind, facts: Facts) -> Expr {
        self.next += 1;
        let span = Span { start: self.next, end: self.next + 1 };
        self.env.notes.push(Note { span, facts });
        Expr { kind, span }
    }

    fn num(&mut self, k: u32) -> Expr {
        let mut facts = Facts::none();
        facts.const_value = Some(k);
        self.expr(ExprKind::IntLit(k), facts)
    }

    fn name(&mut self, name: &str) -> Expr {
        self.expr(ExprKind::Ident(name.to_string()), Facts::none())
    }

    /// A 32-bit file-scope variable with its addresses known.
    fn long_name(&mut self, name: &str) -> Expr {
        let mut facts = Facts::none();
        facts.long_addrs =
            Some((format!("DGROUP:_{}+2", name), format!("DGROUP:_{}", name)));
        self.expr(ExprKind::Ident(name.to_string()), facts)
    }

    /// An integer variable at file scope with its address known.
    fn int_name(&mut self, name: &str) -> Expr {
        let mut facts = Facts::none();
        facts.int_addr = Some(format!("DGROUP:_{}", name));
        self.expr(ExprKind::Ident(name.to_string()), facts)
    }

    fn binop(&mut self, op: BinOp, left: Expr, right: Expr) -> Expr {
        let kind = ExprKind::BinOp { op, left: Box::new(left), right: Box::new(right) };
        self.expr(kind, Facts::none())
    }

    fn unary(&mut self, op: UnaryOp, operand: Expr) -> Expr {
        self.expr(ExprKind::Unary { op, operand: Box::new(operand) }, Facts::none())
    }
}

/// The registers, the flags and 64 KiB of memory.
struct Cpu {
    regs: [u16; 8],
    carry: bool,
    zero: bool,
    negative: bool,
    overflow: bool,
    mem: Vec<u8>,
    /// What an expression that another part of the generator computes is
    /// worth.
    computed: u16,
}

const BP: u16 = 0x8000;

fn slot(reg: Reg) -> (usize, u8) {
    match reg {
        Reg::Ax => (0, 2),
        Reg::Bx => (1, 2),
        Reg::Cx => (2, 2),
        Reg::Dx => (3, 2),
        Reg::Si => (4, 2),
        Reg::Di => (5, 2),
        Reg::Bp => (6, 2),
        Reg::Sp => (7, 2),
        Reg::Al => (0, 0),
        Reg::Bl => (1, 0),
        Reg::Cl => (2, 0),
        Reg::Dl => (3, 0),
        Reg::Ah => (0, 1),
        Reg::Bh => (1, 1),
        Reg::Ch => (2, 1),
        Reg::Dh => (3, 1),
        _ => panic!("segment register"),
    }
}

/// Where the linker has put a symbol: at its letter, times a page.
fn symbol(name: &str) -> u16 {
    (name.as_bytes()[0] as u16 - b'a' as u16 + 1) * 0x100
}

/// An address that is known as text: a symbol with an optional distance.
fn place(text: &str) -> u16 {
    let rest = text.strip_prefix("DGROUP:_").unwrap();
    match rest.find('+') {
        Some(i) => symbol(&rest[..i]) + rest[i + 1..].parse::<u16>().unwrap(),
        None => symbol(rest),
    }
}

fn distance(d: Disp) -> i64 {
    match d {
        Disp::Zero => 0,
        Disp::Plus(n) => n,
        Disp::Minus(n) => -n,
    }
}

impl Cpu {
    fn new() -> Cpu {
        let mut regs = [0x1234u16, 0x2345, 0x3456, 0x4567, 0x5678, 0x6789, 0, 0];
        regs[6] = BP;
        regs[7] = 0xF000;
        let mem = (0..0x1_0000u32).map(|i| (i * 7 + 3) as u8).collect();
        Cpu { regs, carry: true, zero: false, negative: false, overflow: false, mem, computed: 0 }
    }

    fn get(&self, reg: Reg) -> u16 {
        let (i, part) = slot(reg);
        match part {
            0 => self.regs[i] & 0xFF,
            1 => self.regs[i] >> 8,
            _ => self.regs[i],
        }
    }

    fn set(&mut self, reg: Reg, v: u16) {
        let (i, part) = slot(reg);
        self.regs[i] = match part {
            0 => (self.regs[i] & 0xFF00) | (v & 0xFF),
            1 => (self.regs[i] & 0x00FF) | (v << 8),
            _ => v,
        };
    }

    fn word(&self, a: u16) -> u16 {
        self.mem[a as usize] as u16 | (self.mem[a.wrapping_add(1) as usize] as u16) << 8
    }

    fn long(&self, a: u16) -> u32 {
        self.word(a) as u32 | (self.word(a.wrapping_add(2)) as u32) << 16
    }

    fn put_word(&mut self, a: u16, v: u16) {
        self.mem[a as usize] = v as u8;
        self.mem[a.wrapping_add(1) as usize] = (v >> 8) as u8;
    }

    fn put_long(&mut self, a: u16, v: u32) {
        self.put_word(a, v as u16);
        self.put_word(a.wrapping_add(2), (v >> 16) as u16);
    }

    fn locate(&self, a: Addr) -> u16 {
        let at = match a {
            Addr::Bp(n) => self.get(Reg::Bp) as i64 + n,
            Addr::At(r, d) => self.get(r) as i64 + distance(d),
            Addr::Indexed(b, i, d) => {
                self.get(b) as i64 + self.get(i) as i64 + distance(d)
            }
            Addr::Global(name, d) => symbol(name) as i64 + distance(d),
            Addr::GlobalAt(name, d, r, e) => {
                symbol(name) as i64 + distance(d) + self.get(r) as i64 + distance(e)
            }
            Addr::Text(text) => place(text) as i64,
            Addr::Seg(..) => panic!("another segment"),
        };
        at as u16
    }

    fn read(&self, o: Operand, byte: bool) -> u16 {
        let v = match o {
            Operand::Reg(r) => self.get(r),
            Operand::Imm(n) => n as u16,
            Operand::Mem(_, a) => {
                let at = self.locate(a);
                if byte {
                    self.mem[at as usize] as u16
                } else {
                    self.word(at)
                }
            }
            Operand::OffsetOf(name, d) => (symbol(name) as i64 + distance(d)) as u16,
            Operand::Text(text) => match text.as_str() {
                "si" => self.get(Reg::Si),
                "di" => self.get(Reg::Di),
                other => self.word(place(other.strip_prefix("word ptr ").unwrap())),
            },
            other => panic!("{:?}", other),
        };
        if byte {
            v & 0xFF
        } else {
            v
        }
    }

    fn write(&mut self, o: Operand, v: u16) {
        match o {
            Operand::Reg(r) => self.set(r, v),
            Operand::Mem(Width::Byte, a) => {
                let at = self.locate(a);
                self.mem[at as usize] = v as u8;
            }
            Operand::Mem(Width::Word, a) => {
                let at = self.locate(a);
                self.put_word(at, v);
            }
            other => panic!("{:?}", other),
        }
    }

    fn flags(&mut self, r: u16, byte: bool) {
        self.zero = r == 0;
        self.negative = if byte { r >= 0x80 } else { r >= 0x8000 };
    }

    fn sum(&mut self, a: u16, b: u16, c: u16, minus: bool, byte: bool) -> u16 {
        let size: i64 = if byte { 0x100 } else { 0x1_0000 };
        let sign = |x: u16| if x as i64 >= size / 2 { x as i64 - size } else { x as i64 };
        let (full, exact) = if minus {
            (a as i64 - b as i64 - c as i64, sign(a) - sign(b) - c as i64)
        } else {
            (a as i64 + b as i64 + c as i64, sign(a) + sign(b) + c as i64)
        };
        self.carry = full < 0 || full >= size;
        self.overflow = exact < -(size / 2) || exact >= size / 2;
        let r = full.rem_euclid(size) as u16;
        self.flags(r, byte);
        r
    }

    fn op2(&mut self, m: Mnemonic, d: Operand, s: Operand) {
        let byte = match d {
            Operand::Reg(r) => r.is_byte(),
            Operand::Mem(w, _) => w == Width::Byte,
            _ => false,
        };
        let c = self.carry as u16;
        match m {
            Mnemonic::Mov => {
                let v = self.read(s, byte);
                self.write(d, v);
            }
            Mnemonic::Lea => {
                if let Operand::Mem(_, a) = s {
                    let v = self.locate(a);
                    self.write(d, v);
                }
            }
            Mnemonic::Shl | Mnemonic::Shr | Mnemonic::Sar | Mnemonic::Rcl | Mnemonic::Rcr => {
                let n = self.read(s, true);
                let top = if byte { 0x80 } else { 0x8000 };
                let all = if byte { 0xFF } else { 0xFFFF };
                for _ in 0..n {
                    let a = self.read(d, byte);
                    let c = self.carry as u16;
                    let (r, out) = match m {
                        Mnemonic::Shl => ((a << 1) & all, a & top != 0),
                        Mnemonic::Shr => (a >> 1, a & 1 != 0),
                        Mnemonic::Sar => ((a >> 1) | (a & top), a & 1 != 0),
                        Mnemonic::Rcl => (((a << 1) & all) | c, a & top != 0),
                        _ => ((a >> 1) | (c * top), a & 1 != 0),
                    };
                    self.carry = out;
                    self.write(d, r);
                }
            }
            _ => {
                let a = self.read(d, byte);
                let b = self.read(s, byte);
                let r = match m {
                    Mnemonic::Add => self.sum(a, b, 0, false, byte),
                    Mnemonic::Adc => self.sum(a, b, c, false, byte),
                    Mnemonic::Sub | Mnemonic::Cmp => self.sum(a, b, 0, true, byte),
                    Mnemonic::Sbb => self.sum(a, b, c, true, byte),
                    Mnemonic::And | Mnemonic::Test => a & b,
                    Mnemonic::Or => a | b,
                    Mnemonic::Xor => a ^ b,
                    other => panic!("{:?}", other),
                };
                if matches!(
                    m,
                    Mnemonic::And | Mnemonic::Test | Mnemonic::Or | Mnemonic::Xor
                ) {
                    self.carry = false;
                    self.overflow = false;
                    self.flags(r, byte);
                }
                if m != Mnemonic::Cmp && m != Mnemonic::Test {
                    self.write(d, r);
                }
            }
        }
    }

    fn op1(&mut self, m: Mnemonic, d: Operand) {
        let byte = match d {
            Operand::Reg(r) => r.is_byte(),
            Operand::Mem(w, _) => w == Width::Byte,
            _ => false,
        };
        let a = self.read(d, byte);
        let keep = self.carry;
        match m {
            Mnemonic::Inc => {
                let r = self.sum(a, 1, 0, false, byte);
                self.carry = keep;
                self.write(d, r);
            }
            Mnemonic::Dec => {
                let r = self.sum(a, 1, 0, true, byte);
                self.carry = keep;
                self.write(d, r);
            }
            Mnemonic::Neg => {
                let r = self.sum(0, a, 0, true, byte);
                self.write(d, r);
            }
            Mnemonic::Not => self.write(d, !a),
            Mnemonic::Imul => {
                let p = self.get(Reg::Ax) as i16 as i32 * a as i16 as i32;
                self.set(Reg::Ax, p as u16);
                self.set(Reg::Dx, (p >> 16) as u16);
            }
            Mnemonic::Idiv => {
                let x = self.pair(Reg::Dx, Reg::Ax) as i32 as i64;
                let y = a as i16 as i64;
                assert!((-0x8000..0x8000).contains(&(x / y)));
                self.set(Reg::Ax, (x / y) as u16);
                self.set(Reg::Dx, (x % y) as u16);
            }
            Mnemonic::Div => {
                let x = self.pair(Reg::Dx, Reg::Ax);
                let y = a as u32;
                assert!(x / y < 0x1_0000);
                self.set(Reg::Ax, (x / y) as u16);
                self.set(Reg::Dx, (x % y) as u16);
            }
            Mnemonic::Push => {
                let sp = self.get(Reg::Sp).wrapping_sub(2);
                self.set(Reg::Sp, sp);
                self.put_word(sp, a);
            }
            Mnemonic::Pop => {
                let sp = self.get(Reg::Sp);
                self.set(Reg::Sp, sp.wrapping_add(2));
                let top = self.word(sp);
                self.write(d, top);
            }
            other => panic!("{:?}", other),
        }
    }

    fn pair(&self, hi: Reg, lo: Reg) -> u32 {
        (self.get(hi) as u32) << 16 | self.get(lo) as u32
    }

    /// What the run-time routines do.
    fn call(&mut self, h: Helper) {
        let x = self.pair(Reg::Dx, Reg::Ax);
        let n = (self.get(Reg::Cl) as u32).min(63);
        let sp = self.get(Reg::Sp);
        let (a, b) = (self.long(sp), self.long(sp.wrapping_add(4)));
        let v = match h {
            Helper::LongMul => self.pair(Reg::Cx, Reg::Bx).wrapping_mul(x),
            Helper::LongDiv => (a as i32).wrapping_div(b as i32) as u32,
            Helper::LongMod => (a as i32).wrapping_rem(b as i32) as u32,
            Helper::ULongDiv => a / b,
            Helper::ULongMod => a % b,
            Helper::LongShl => ((x as u64) << n) as u32,
            Helper::LongShr => ((x as i32 as i64) >> n) as u32,
            Helper::ULongShr => ((x as u64) >> n) as u32,
            Helper::StructCopy => panic!("{:?}", h),
        };
        if matches!(
            h,
            Helper::LongDiv | Helper::LongMod | Helper::ULongDiv | Helper::ULongMod
        ) {
            self.set(Reg::Sp, sp.wrapping_add(8));
        }
        self.set(Reg::Ax, v as u16);
        self.set(Reg::Dx, (v >> 16) as u16);
    }

    fn holds(&self, j: Jcc) -> bool {
        match j {
            Jcc::Je => self.zero,
            Jcc::Jne => !self.zero,
            Jcc::Jl => self.negative != self.overflow,
            Jcc::Jge => self.negative == self.overflow,
            Jcc::Jle => self.zero || self.negative != self.overflow,
            Jcc::Jg => !self.zero && self.negative == self.overflow,
            Jcc::Jb => self.carry,
            Jcc::Jae => !self.carry,
            Jcc::Jbe => self.carry || self.zero,
            Jcc::Ja => !self.carry && !self.zero,
            other => panic!("{:?}", other),
        }
    }

    /// Runs code and says at which label outside it ends, if at one.
    fn run(&mut self, steps: &[Step]) -> Option<u32> {
        let mut i = 0;
        while i < steps.len() {
            let mut target = None;
            match steps[i] {
                Step::Op0(Mnemonic::Cbw) => {
                    let v = self.get(Reg::Al) as u8 as i8 as i16 as u16;
                    self.set(Reg::Ax, v);
                }
                Step::Op0(Mnemonic::Cwd) => {
                    let v = if self.get(Reg::Ax) >= 0x8000 { 0xFFFF } else { 0 };
                    self.set(Reg::Dx, v);
                }
                Step::Op1(m, d) => self.op1(m, d),
                Step::Op2(m, d, s) => self.op2(m, d, s),
                Step::Call(h) => self.call(h),
                Step::ToAx(_, _) => self.set(Reg::Ax, self.computed),
                Step::WidenAl(ty, false) => {
                    let v = self.get(Reg::Al);
                    let wide = if ty.is_unsigned() { v } else { v as u8 as i8 as u16 };
                    self.set(Reg::Ax, wide);
                }
                Step::LongCompound(lo, hi, op, value, _) => {
                    let k = match value.kind {
                        ExprKind::IntLit(k) => k,
                        _ => panic!("{:?}", value),
                    };
                    let (lo, hi) = (self.locate(lo), self.locate(hi));
                    let old = self.word(lo) as u32 | (self.word(hi) as u32) << 16;
                    let v = apply(op, old, k);
                    self.put_word(lo, v as u16);
                    self.put_word(hi, (v >> 16) as u16);
                }
                Step::Label(_) => {}
                Step::Goto(l) => target = Some(l),
                Step::Jump(j, l) => {
                    if self.holds(j) {
                        target = Some(l);
                    }
                }
                other => panic!("{:?}", other),
            }
            i += 1;
            if let Some(l) = target {
                let found = (i..steps.len()).find(|&k| matches!(steps[k], Step::Label(x) if x == l));
                match found {
                    Some(k) => i = k + 1,
                    None => return Some(l),
                }
            }
        }
        None
    }
}

const LONGS: [u32; 10] = [
    0,
    1,
    0xFFFF,
    0x1_0000,
    0x7FFF_FFFF,
    0x8000_0000,
    0x8000_8000,
    0xFFFF_0000,
    0xFFFF_FFFE,
    0xFFFF_FFFF,
];

const DIRECT: [BinOp; 5] =
    [BinOp::Add, BinOp::Sub, BinOp::BitAnd, BinOp::BitOr, BinOp::BitXor];

fn apply(op: BinOp, a: u32, b: u32) -> u32 {
    match op {
        BinOp::Add => a.wrapping_add(b),
        BinOp::Sub => a.wrapping_sub(b),
        BinOp::BitAnd => a & b,
        BinOp::BitOr => a | b,
        _ => a ^ b,
    }
}

fn compare(op: BinOp, a: i64, b: i64) -> bool {
    match op {
        BinOp::Eq => a == b,
        BinOp::Ne => a != b,
        BinOp::Lt => a < b,
        BinOp::Le => a <= b,
        BinOp::Gt => a > b,
        _ => a >= b,
    }
}

/// Memory outside some bytes is as it was.
fn only_changed(before: &Cpu, after: &Cpu, at: u16, n: u16) {
    for a in 0..0x1_0000usize {
        if !((a as u16).wrapping_sub(at) < n) {
            assert_eq!(before.mem[a], after.mem[a], "at {}", a);
        }
    }
}

#[test]
fn constants_applied_to_longs() {
    for op in DIRECT {
        for k in LONGS {
            let mut b = Build::new();
            b.global("g", Type::Long);
            b.local("x", Type::ULong, LocalLocation::Stack(-8));
            let value = b.num(k);
            let (g, x) = ("g".to_string(), "x".to_string());
            for (name, at) in [(&g, symbol("g")), (&x, BP - 8)] {
                let mut e = FunctionEmitter::new(&b.env);
                e.emit_compound_assign(name, op, &value);
                for old in LONGS {
                    let mut cpu = Cpu::new();
                    cpu.put_long(at, old);
                    let mut before = Cpu::new();
                    before.put_long(at, old);
                    assert_eq!(cpu.run(&e.out), None);
                    assert_eq!(cpu.long(at), apply(op, old, k));
                    only_changed(&before, &cpu, at, 4);
                }
            }
        }
    }
}

#[test]
fn longs_applied_to_longs() {
    for op in DIRECT {
        let mut b = Build::new();
        b.global("g", Type::Long);
        b.global("h", Type::Long);
        let h = "h".to_string();
        let value = b.name("h");
        let g = "g".to_string();
        let mut e = FunctionEmitter::new(&b.env);
        e.emit_compound_assign(&g, op, &value);
        for a in LONGS {
            for c in LONGS {
                let mut cpu = Cpu::new();
                cpu.put_long(symbol(&g), a);
                cpu.put_long(symbol(&h), c);
                assert_eq!(cpu.run(&e.out), None);
                assert_eq!(cpu.long(symbol(&g)), apply(op, a, c));
                assert_eq!(cpu.long(symbol(&h)), c);
            }
        }
    }
}

#[test]
fn longs_shifted_by_one() {
    for (ty, unsigned) in [(Type::Long, false), (Type::ULong, true)] {
        let mut b = Build::new();
        b.global("g", ty);
        let one = b.num(1);
        let g = "g".to_string();
        for op in [BinOp::Shl, BinOp::Shr] {
            let mut e = FunctionEmitter::new(&b.env);
            e.emit_compound_assign(&g, op, &one);
            for old in LONGS {
                let mut cpu = Cpu::new();
                cpu.put_long(symbol(&g), old);
                assert_eq!(cpu.run(&e.out), None);
                let expected = match (op, unsigned) {
                    (BinOp::Shl, _) => old << 1,
                    (_, true) => old >> 1,
                    _ => ((old as i32) >> 1) as u32,
                };
                assert_eq!(cpu.long(symbol(&g)), expected);
            }
        }
    }
}

#[test]
fn longs_assigned_from_expressions() {
    for v in LONGS {
        for u in LONGS {
            let mut b = Build::new();
            for g in ["g", "h", "k"] {
                b.global(g, Type::Long);
            }
            let (h, k) = (b.long_name("h"), b.long_name("k"));
            let h2 = b.name("h");
            let neg = b.unary(UnaryOp::Neg, h2);
            let h3 = b.name("h");
            let not = b.unary(UnaryOp::BitNot, h3);
            let diff = b.binop(BinOp::Sub, h, k);
            let (h4, one) = (b.name("h"), b.num(1));
            let twice = b.binop(BinOp::Shl, h4, one);
            let (h5, small) = (b.long_name("h"), b.num(500));
            let less = b.binop(BinOp::Sub, h5, small);
            let (h6, most) = (b.long_name("h"), b.num(0x1_0000));
            let far_less = b.binop(BinOp::Sub, h6, most);
            let (h7, top) = (b.long_name("h"), b.num(0xFFFF));
            let more = b.binop(BinOp::Add, h7, top);
            let copy = b.name("h");
            let fixed = b.num(u);
            let g = "g".to_string();
            let cases: Vec<(&Expr, u32)> = vec![
                (&neg, v.wrapping_neg()),
                (&not, !v),
                (&diff, v.wrapping_sub(u)),
                (&twice, v << 1),
                (&less, v.wrapping_sub(500)),
                (&far_less, v.wrapping_sub(0x1_0000)),
                (&more, v.wrapping_add(0xFFFF)),
                (&copy, v),
                (&fixed, u),
            ];
            for (value, expected) in cases {
                let mut e = FunctionEmitter::new(&b.env);
                e.emit_assign_global(&g, value);
                let mut cpu = Cpu::new();
                cpu.put_long(symbol("h"), v);
                cpu.put_long(symbol("k"), u);
                assert_eq!(cpu.run(&e.out), None);
                assert_eq!(cpu.long(symbol("g")), expected);
                assert_eq!(cpu.long(symbol("h")), v);
            }
        }
    }
}

#[test]
fn local_longs_assigned_from_expressions() {
    for v in LONGS {
        let mut b = Build::new();
        b.local("x", Type::Long, LocalLocation::Stack(-4));
        b.local("y", Type::Long, LocalLocation::Stack(-8));
        let y = b.name("y");
        let neg = b.unary(UnaryOp::Neg, y);
        let y = b.name("y");
        let not = b.unary(UnaryOp::BitNot, y);
        let (y, z) = (b.name("y"), b.name("y"));
        let both = b.binop(BinOp::Add, y, z);
        let ty = Type::Long;
        for (value, expected) in
            [(&neg, v.wrapping_neg()), (&not, !v), (&both, v.wrapping_add(v))]
        {
            let mut e = FunctionEmitter::new(&b.env);
            e.emit_assign_local(LocalLocation::Stack(-4), &ty, value);
            let mut cpu = Cpu::new();
            cpu.put_long(BP - 8, v);
            assert_eq!(cpu.run(&e.out), None);
            assert_eq!(cpu.long(BP - 4), expected);
            assert_eq!(cpu.long(BP - 8), v);
        }
    }
}

#[test]
fn longs_ordered() {
    for unsigned in [false, true] {
        let mut b = Build::new();
        b.global("g", Type::Long);
        b.global("h", Type::Long);
        for op in [BinOp::Lt, BinOp::Le, BinOp::Gt, BinOp::Ge] {
            let (x, y) = (b.name("g"), b.name("h"));
            let mut facts = Facts::none();
            facts.unsigned_compare = unsigned;
            let kind = ExprKind::BinOp { op, left: Box::new(x), right: Box::new(y) };
            let cond = b.expr(kind, facts);
            let mut e = FunctionEmitter::new(&b.env);
            e.emit_cond_branch(&cond, Some(1), Some(2));
            for p in LONGS {
                for q in LONGS {
                    let mut cpu = Cpu::new();
                    cpu.put_long(symbol("g"), p);
                    cpu.put_long(symbol("h"), q);
                    let truth = if unsigned {
                        compare(op, p as i64, q as i64)
                    } else {
                        compare(op, p as i32 as i64, q as i32 as i64)
                    };
                    match cpu.run(&e.out) {
                        Some(1) | None => assert!(truth),
                        Some(2) => assert!(!truth),
                        other => panic!("{:?}", other),
                    }
                }
            }
        }
    }
}

#[test]
fn longs_compared_with_constants() {
    for (ty, unsigned) in [(Type::Long, false), (Type::ULong, true)] {
        let mut b = Build::new();
        b.global("g", ty);
        for op in [BinOp::Lt, BinOp::Le, BinOp::Gt, BinOp::Ge] {
            for k in LONGS {
                let (x, y) = (b.name("g"), b.num(k));
                let cond = b.binop(op, x, y);
                let mut e = FunctionEmitter::new(&b.env);
                e.emit_cond_branch(&cond, Some(1), Some(2));
                for p in LONGS {
                    let mut cpu = Cpu::new();
                    cpu.put_long(symbol("g"), p);
                    let truth = if unsigned {
                        compare(op, p as i64, k as i64)
                    } else {
                        compare(op, p as i32 as i64, k as i32 as i64)
                    };
                    assert_eq!(cpu.run(&e.out) != Some(2), truth);
                }
            }
        }
    }
}

#[test]
fn longs_equal_or_not() {
    let mut b = Build::new();
    b.global("g", Type::Long);
    b.global("h", Type::Long);
    for op in [BinOp::Eq, BinOp::Ne] {
        for yes in [Some(1), None] {
            let (x, y) = (b.long_name("g"), b.long_name("h"));
            let mut facts = Facts::none();
            facts.label_base = Some(9);
            let kind = ExprKind::BinOp { op, left: Box::new(x), right: Box::new(y) };
            let cond = b.expr(kind, facts);
            let mut e = FunctionEmitter::new(&b.env);
            e.emit_cond_branch(&cond, yes, Some(2));
            for p in LONGS {
                for q in LONGS {
                    let mut cpu = Cpu::new();
                    cpu.put_long(symbol("g"), p);
                    cpu.put_long(symbol("h"), q);
                    let out = cpu.run(&e.out);
                    assert_eq!(out != Some(2), compare(op, p as i64, q as i64));
                    assert!(out.is_none() || out == yes || out == Some(2));
                }
            }
        }
    }
}

#[test]
fn conditions_joined_and_negated() {
    let mut b = Build::new();
    for g in ["g", "h"] {
        b.global(g, Type::Long);
    }
    for op in [LogicalOp::And, LogicalOp::Or] {
        for (yes, no) in [(Some(1), Some(2)), (None, Some(2)), (Some(1), None)] {
            let (x, y) = (b.name("g"), b.name("h"));
            let y = b.unary(UnaryOp::Not, y);
            let mut facts = Facts::none();
            facts.label_base = Some(9);
            let kind = ExprKind::Logical { op, left: Box::new(x), right: Box::new(y) };
            let cond = b.expr(kind, facts);
            let mut e = FunctionEmitter::new(&b.env);
            e.emit_cond_branch(&cond, yes, no);
            for p in [0u32, 1, 0x1_0000] {
                for q in [0u32, 1, 0x1_0000] {
                    let mut cpu = Cpu::new();
                    cpu.put_long(symbol("g"), p);
                    cpu.put_long(symbol("h"), q);
                    let truth = match op {
                        LogicalOp::And => p != 0 && q == 0,
                        LogicalOp::Or => p != 0 || q == 0,
                    };
                    let got = match cpu.run(&e.out) {
                        Some(1) => true,
                        Some(2) => false,
                        None => no.is_some(),
                        other => panic!("{:?}", other),
                    };
                    assert_eq!(got, truth);
                }
            }
        }
    }
}

#[test]
fn constant_conditions_go_straight() {
    let mut b = Build::new();
    let (yes, no) = (b.num(5), b.num(0));
    let mut e = FunctionEmitter::new(&b.env);
    e.emit_cond_branch(&yes, Some(1), Some(2));
    assert_eq!(Cpu::new().run(&e.out), Some(1));
    let mut e = FunctionEmitter::new(&b.env);
    e.emit_cond_branch(&no, None, Some(2));
    assert_eq!(Cpu::new().run(&e.out), Some(2));
    let mut e = FunctionEmitter::new(&b.env);
    e.emit_cond_branch(&yes, None, Some(2));
    assert!(e.out.is_empty());
}

#[test]
fn constants_applied_to_integers_and_characters() {
    for op in DIRECT {
        for k in [0u32, 1, 2, 0x7F, 0x80, 0xFF, 0x1234, 0xFFFF_FFFF] {
            let mut b = Build::new();
            b.global("g", Type::Int);
            b.global("c", Type::Char);
            b.local("i", Type::UInt, LocalLocation::Stack(-2));
            b.local("d", Type::UChar, LocalLocation::Stack(-3));
            let value = b.num(k);
            let names: Vec<String> =
                ["g", "i", "c", "d"].iter().map(|n| n.to_string()).collect();
            let places = [symbol("g"), BP - 2, symbol("c"), BP - 3];
            for (n, name) in names.iter().enumerate() {
                let mut e = FunctionEmitter::new(&b.env);
                e.emit_compound_assign(name, op, &value);
                for old in [0u16, 1, 0x80, 0xFF, 0x8000, 0xFFFF] {
                    let mut cpu = Cpu::new();
                    cpu.put_word(places[n], old);
                    let mut before = Cpu::new();
                    before.put_word(places[n], old);
                    assert_eq!(cpu.run(&e.out), None);
                    let full = apply(op, old as u32, k);
                    if n < 2 {
                        assert_eq!(cpu.word(places[n]), full as u16);
                        only_changed(&before, &cpu, places[n], 2);
                    } else {
                        assert_eq!(cpu.mem[places[n] as usize], full as u8);
                        only_changed(&before, &cpu, places[n], 1);
                    }
                }
            }
        }
    }
}

#[test]
fn pointers_in_registers_move_by_elements() {
    for (ty, size) in [
        (Type::Int, 1u32),
        (Type::Pointer(Box::new(Type::Char)), 1),
        (Type::Pointer(Box::new(Type::Int)), 2),
        (Type::Pointer(Box::new(Type::Long)), 4),
    ] {
        for op in [BinOp::Add, BinOp::Sub] {
            for k in [1u32, 2, 3, 0x4000, 0xFFFF] {
                let mut b = Build::new();
                let copy = match &ty {
                    Type::Pointer(t) => Type::Pointer(Box::new(match **t {
                        Type::Char => Type::Char,
                        Type::Int => Type::Int,
                        _ => Type::Long,
                    })),
                    _ => Type::Int,
                };
                b.local("p", copy, LocalLocation::Reg(Reg::Si));
                let value = b.num(k);
                let p = "p".to_string();
                let mut e = FunctionEmitter::new(&b.env);
                e.emit_compound_assign(&p, op, &value);
                let mut cpu = Cpu::new();
                let old = cpu.get(Reg::Si) as u32;
                assert_eq!(cpu.run(&e.out), None);
                assert_eq!(cpu.get(Reg::Si), apply(op, old, k.wrapping_mul(size)) as u16);
            }
        }
    }
}

#[test]
fn subscripts_are_scaled() {
    for (ty, size) in [(Type::UChar, 1u16), (Type::Int, 2), (Type::Long, 4)] {
        let mut b = Build::new();
        b.global("i", Type::Int);
        b.local("j", Type::Int, LocalLocation::Reg(Reg::Di));
        let (i, j) = (b.int_name("i"), b.name("j"));
        for idx in [&i, &j] {
            let mut e = FunctionEmitter::new(&b.env);
            e.emit_index_into_bx(idx, &ty);
            for v in [0u16, 1, 7, 0x4001, 0xFFFF] {
                let mut cpu = Cpu::new();
                cpu.put_word(symbol("i"), v);
                cpu.set(Reg::Di, v);
                assert_eq!(cpu.run(&e.out), None);
                assert_eq!(cpu.get(Reg::Bx), v.wrapping_mul(size));
                assert_eq!(cpu.get(Reg::Di), v);
            }
        }
    }
}

#[test]
fn elements_on_the_stack_are_found() {
    let mut b = Build::new();
    b.local("i", Type::Int, LocalLocation::Stack(-2));
    b.local("j", Type::Int, LocalLocation::Reg(Reg::Si));
    let (i, j) = (b.name("i"), b.name("j"));
    for size in [1u16, 2, 4] {
        for idx in [&i, &j] {
            let mut e = FunctionEmitter::new(&b.env);
            e.emit_array_addr_to_bx(idx, -100, size);
            for v in [0u16, 1, 9, 0xFFFF] {
                let mut cpu = Cpu::new();
                cpu.put_word(BP - 2, v);
                cpu.set(Reg::Si, v);
                assert_eq!(cpu.run(&e.out), None);
                let expected = (BP - 100).wrapping_add(v.wrapping_mul(size));
                assert_eq!(cpu.get(Reg::Bx), expected);
            }
        }
    }
}

#[test]
fn elements_of_two_dimensions_are_found() {
    let mut b = Build::new();
    let mut outer = Facts::none();
    outer.index_operand = Some("si".to_string());
    let mut inner = Facts::none();
    inner.index_operand = Some("di".to_string());
    let i = b.expr(ExprKind::Ident("i".to_string()), outer);
    let j = b.expr(ExprKind::Ident("j".to_string()), inner);
    for (row, size) in [(8u16, 2u16), (4, 1), (6, 2), (10, 2), (3, 1), (1, 1)] {
        let mut e = FunctionEmitter::new(&b.env);
        e.emit_array_addr_2d_to_bx(&i, &j, row, size, -60);
        for (p, q) in [(0u16, 0u16), (1, 2), (3, 1), (0xFFFF, 1)] {
            let mut cpu = Cpu::new();
            cpu.set(Reg::Si, p);
            cpu.set(Reg::Di, q);
            assert_eq!(cpu.run(&e.out), None);
            let expected = (BP - 60)
                .wrapping_add(p.wrapping_mul(row))
                .wrapping_add(q.wrapping_mul(size));
            assert_eq!(cpu.get(Reg::Bx), expected);
        }
    }
}

fn int_array(len: u32) -> Type {
    Type::Array { elem: Box::new(Type::Int), len }
}

#[test]
fn elements_are_read() {
    let mut b = Build::new();
    b.global("a", int_array(8));
    b.global("i", Type::Int);
    b.local("t", int_array(8), LocalLocation::Stack(-20));
    b.local("j", Type::Int, LocalLocation::Stack(-2));
    let (a, i) = (b.name("a"), b.int_name("i"));
    let (t, j) = (b.name("t"), b.name("j"));
    for v in 0..8u16 {
        let mut e = FunctionEmitter::new(&b.env);
        e.emit_array_index_to_ax(&a, &i);
        let mut cpu = Cpu::new();
        cpu.put_word(symbol("i"), v);
        assert_eq!(cpu.run(&e.out), None);
        assert_eq!(cpu.get(Reg::Ax), cpu.word(symbol("a") + 2 * v));

        let mut e = FunctionEmitter::new(&b.env);
        e.emit_array_index_to_ax(&t, &j);
        let mut cpu = Cpu::new();
        cpu.put_word(BP - 2, v);
        assert_eq!(cpu.run(&e.out), None);
        assert_eq!(cpu.get(Reg::Ax), cpu.word(BP - 20 + 2 * v));
    }
}

#[test]
fn what_is_written_to_an_element_is_read_back() {
    let mut b = Build::new();
    b.global("a", int_array(8));
    b.local("t", int_array(8), LocalLocation::Stack(-20));
    let (name_a, name_t) = ("a".to_string(), "t".to_string());
    let (a, t) = (b.name("a"), b.name("t"));
    let indices: Vec<Vec<Expr>> = (0..8).map(|k| vec![b.num(k)]).collect();
    let value = b.num(0x1_2345);
    for (k, index) in indices.iter().enumerate() {
        for (name, array, at) in [(&name_a, &a, symbol("a")), (&name_t, &t, BP - 20)] {
            let mut e = FunctionEmitter::new(&b.env);
            e.emit_array_assign(name, index, &value);
            let mut cpu = Cpu::new();
            assert_eq!(cpu.run(&e.out), None);
            only_changed(&Cpu::new(), &cpu, at + 2 * k as u16, 2);
            let mut e = FunctionEmitter::new(&b.env);
            e.emit_array_index_to_ax(array, &index[0]);
            assert_eq!(cpu.run(&e.out), None);
            assert_eq!(cpu.get(Reg::Ax), 0x2345);
        }
    }
}

#[test]
fn constants_are_assigned() {
    for k in [0u32, 1, 0x80, 0x1234, 0xFFFF_8001] {
        let mut b = Build::new();
        b.global("g", Type::UInt);
        b.global("c", Type::Char);
        let value = b.num(k);
        let (g, c) = ("g".to_string(), "c".to_string());
        let mut e = FunctionEmitter::new(&b.env);
        e.emit_assign_global(&g, &value);
        e.emit_assign_global(&c, &value);
        e.emit_store_reg(Reg::Si, &value);
        e.emit_store_reg(Reg::Dl, &value);
        let (whole, chr) = (Type::Int, Type::UChar);
        e.emit_assign_local(LocalLocation::Stack(-4), &whole, &value);
        e.emit_assign_local(LocalLocation::Stack(-5), &chr, &value);
        let mut cpu = Cpu::new();
        assert_eq!(cpu.run(&e.out), None);
        assert_eq!(cpu.word(symbol("g")), k as u16);
        assert_eq!(cpu.mem[symbol("c") as usize], k as u8);
        assert_eq!(cpu.get(Reg::Si), k as u16);
        assert_eq!(cpu.get(Reg::Dl), k as u8 as u16);
        assert_eq!(cpu.get(Reg::Dh), 0x45);
        assert_eq!(cpu.word(BP - 4), k as u16);
        assert_eq!(cpu.mem[(BP - 5) as usize], k as u8);
    }
}

#[test]
fn pointers_reach_what_they_point_at() {
    for loc in [LocalLocation::Reg(Reg::Di), LocalLocation::Stack(-6)] {
        let mut b = Build::new();
        b.local("p", Type::Pointer(Box::new(Type::Int)), loc);
        let p = b.name("p");
        let value = b.num(0xBEEF);
        let mut e = FunctionEmitter::new(&b.env);
        e.emit_deref_assign(&p, &value);
        let mut cpu = Cpu::new();
        cpu.set(Reg::Di, 0x700);
        cpu.put_word(BP - 6, 0x700);
        assert_eq!(cpu.run(&e.out), None);
        assert_eq!(cpu.word(0x700), 0xBEEF);
        let mut e = FunctionEmitter::new(&b.env);
        e.emit_deref_to_ax(&p);
        assert_eq!(cpu.run(&e.out), None);
        assert_eq!(cpu.get(Reg::Ax), 0xBEEF);
    }
}

#[test]
fn bitfields_are_read() {
    let b = Build::new();
    let name = "s".to_string();
    for unit in [0u16, 0x1234, 0x8421, 0xFFFF, 0xA5C3] {
        for offset in 0..16u8 {
            for width in 1..=(16 - offset) {
                for signed in [false, true] {
                    let bf = BitfieldRef {
                        addr: Addr::Global(&name, Disp::Zero),
                        access: if offset + width <= 8 {
                            BitfieldAccess::Byte
                        } else {
                            BitfieldAccess::Word
                        },
                        bit_offset: offset,
                        bit_width: width,
                        signed,
                    };
                    for (full, low) in [(Reg::Ax, Reg::Al), (Reg::Dx, Reg::Dl)] {
                        let mut e = FunctionEmitter::new(&b.env);
                        e.emit_bitfield_read_to_reg(bf, full, low);
                        let mut cpu = Cpu::new();
                        cpu.put_word(symbol("s"), unit);
                        assert_eq!(cpu.run(&e.out), None);
                        let bits = ((unit as u32) >> offset) & ((1 << width) - 1);
                        let expected = if signed && bits >> (width - 1) == 1 {
                            (bits as i32 - (1 << width)) as u16
                        } else {
                            bits as u16
                        };
                        assert_eq!(cpu.get(full), expected);
                    }
                }
            }
        }
    }
}

#[test]
fn rows_of_a_file_scope_array_are_reached() {
    let mut b = Build::new();
    b.global(
        "a",
        Type::Array { elem: Box::new(int_array(3)), len: 4 },
    );
    let mut outer = Facts::none();
    outer.int_src = Some(IndexSource::Reg(Reg::Si));
    let mut inner = Facts::none();
    inner.int_src = Some(IndexSource::Mem("DGROUP:_j".to_string()));
    let a = b.name("a");
    let i = b.expr(ExprKind::Ident("i".to_string()), outer);
    let j = b.expr(ExprKind::Ident("j".to_string()), inner);
    let row = b.expr(
        ExprKind::ArrayIndex { array: Box::new(a), index: Box::new(i) },
        Facts::none(),
    );
    let mut e = FunctionEmitter::new(&b.env);
    e.emit_array_index_to_ax(&row, &j);
    for (p, q) in [(0u16, 0u16), (1, 2), (3, 1)] {
        let mut cpu = Cpu::new();
        cpu.set(Reg::Si, p);
        cpu.put_word(symbol("j"), q);
        assert_eq!(cpu.run(&e.out), None);
        assert_eq!(cpu.get(Reg::Ax), cpu.word(symbol("a") + 6 * p + 2 * q));
    }
}

#[test]
fn long_elements_take_part() {
    let mut b = Build::new();
    b.global("g", Type::Long);
    let mut facts = Facts::none();
    facts.long_halves = Some(LongHalves {
        lo: "DGROUP:_h+8".to_string(),
        hi: "DGROUP:_h+10".to_string(),
        ty: Type::Long,
    });
    let value = b.expr(
        ExprKind::Deref(Box::new(Expr {
            kind: ExprKind::IntLit(0),
            span: Span { start: 900, end: 901 },
        })),
        facts,
    );
    let g = "g".to_string();
    let mut e = FunctionEmitter::new(&b.env);
    e.emit_compound_assign(&g, BinOp::Sub, &value);
    let mut cpu = Cpu::new();
    cpu.put_long(symbol("g"), 5);
    cpu.put_long(symbol("h") + 8, 7);
    assert_eq!(cpu.run(&e.out), None);
    assert_eq!(cpu.long(symbol("g")), (-2i32) as u32);
}

#[test]
fn updates_count_in_subscripts() {
    let mut b = Build::new();
    b.local("i", Type::Int, LocalLocation::Reg(Reg::Si));
    let pre = b.expr(
        ExprKind::Update {
            target: "i".to_string(),
            op: UpdateOp::Inc,
            position: UpdatePosition::Pre,
        },
        Facts::none(),
    );
    let ty = Type::Int;
    let mut e = FunctionEmitter::new(&b.env);
    e.emit_index_into_bx(&pre, &ty);
    let mut cpu = Cpu::new();
    cpu.set(Reg::Si, 4);
    assert_eq!(cpu.run(&e.out), None);
    assert_eq!(cpu.get(Reg::Si), 5);
    assert_eq!(cpu.get(Reg::Bx), 10);
}

const WORDS: [u16; 7] = [0, 1, 2, 0x7FFF, 0x8000, 0xFFFE, 0xFFFF];

#[test]
fn longs_ordered_against_integers() {
    for (long, int_unsigned) in [(Type::Long, false), (Type::ULong, true)] {
        let mut b = Build::new();
        b.global("g", long);
        b.global("i", Type::Int);
        for op in [BinOp::Lt, BinOp::Le, BinOp::Gt, BinOp::Ge, BinOp::Ne] {
            let (x, y) = (b.name("g"), b.name("i"));
            let cond = b.binop(op, x, y);
            let mut e = FunctionEmitter::new(&b.env);
            e.emit_cond_branch(&cond, Some(1), Some(2));
            for p in LONGS {
                for q in WORDS {
                    let mut cpu = Cpu::new();
                    cpu.put_long(symbol("g"), p);
                    cpu.put_word(symbol("i"), q);
                    let wide = q as i16 as i32 as u32;
                    let truth = if int_unsigned {
                        compare(op, p as i64, wide as i64)
                    } else {
                        compare(op, p as i32 as i64, wide as i32 as i64)
                    };
                    assert_eq!(cpu.run(&e.out) != Some(2), truth);
                    only_changed_words(&cpu, &[(symbol("g"), 4), (symbol("i"), 2)]);
                }
            }
        }
    }
}

/// Memory outside some regions is as it is in the beginning.
fn only_changed_words(after: &Cpu, regions: &[(u16, u16)]) {
    let before = Cpu::new();
    for a in 0..0x1_0000usize {
        if !regions.iter().any(|&(at, n)| (a as u16).wrapping_sub(at) < n) {
            assert_eq!(before.mem[a], after.mem[a], "at {}", a);
        }
    }
}

#[test]
fn longs_equal_to_constants() {
    let mut b = Build::new();
    b.global("g", Type::Long);
    for (op, yes) in [(BinOp::Eq, None), (BinOp::Ne, Some(1))] {
        for k in [1u32, 0x7F, 0x10_0001, 0x7F_007F, 0x7F_0000] {
            let (x, y) = (b.name("g"), b.num(k));
            let cond = b.binop(op, x, y);
            let mut e = FunctionEmitter::new(&b.env);
            e.emit_cond_branch(&cond, yes, Some(2));
            for p in [k, 0, k ^ 1, k ^ 0x8000_0000, k ^ 0x1_0000] {
                let mut cpu = Cpu::new();
                cpu.put_long(symbol("g"), p);
                assert_eq!(cpu.run(&e.out) != Some(2), compare(op, p as i64, k as i64));
            }
        }
    }
}

#[test]
fn far_pointers_equal_or_not() {
    let mut b = Build::new();
    for op in [BinOp::Eq, BinOp::Ne] {
        for yes in [Some(1), None] {
            let mut left = Facts::none();
            left.far_offset = Some(-4);
            let mut right = Facts::none();
            right.far_offset = Some(-8);
            let x = b.expr(ExprKind::Ident("p".to_string()), left);
            let y = b.expr(ExprKind::Ident("q".to_string()), right);
            let mut facts = Facts::none();
            facts.label_base = Some(9);
            let kind = ExprKind::BinOp { op, left: Box::new(x), right: Box::new(y) };
            let cond = b.expr(kind, facts);
            let mut e = FunctionEmitter::new(&b.env);
            e.emit_cond_branch(&cond, yes, Some(2));
            for p in LONGS {
                for q in LONGS {
                    let mut cpu = Cpu::new();
                    cpu.put_long(BP - 4, p);
                    cpu.put_long(BP - 8, q);
                    assert_eq!(cpu.run(&e.out) != Some(2), compare(op, p as i64, q as i64));
                }
            }
        }
    }
}

#[test]
fn masks_are_tested() {
    let mut b = Build::new();
    b.global("g", Type::UInt);
    b.local("x", Type::Int, LocalLocation::Stack(-2));
    b.local("y", Type::Int, LocalLocation::Stack(-4));
    for k in [0u32, 1, 0x8000, 0xFF00, 0x1_0002] {
        for name in ["g", "x"] {
            let conditions: Vec<(Option<BinOp>, Expr)> = [None, Some(BinOp::Eq), Some(BinOp::Ne)]
                .into_iter()
                .map(|op| {
                    let (x, y) = (b.name(name), b.num(k));
                    let masked = b.binop(BinOp::BitAnd, x, y);
                    match op {
                        None => (op, masked),
                        Some(relation) => {
                            let zero = b.num(0);
                            (op, b.binop(relation, masked, zero))
                        }
                    }
                })
                .collect();
            for (op, cond) in &conditions {
                let mut e = FunctionEmitter::new(&b.env);
                e.emit_cond_branch(cond, None, Some(2));
                for v in WORDS {
                    let mut cpu = Cpu::new();
                    cpu.put_word(symbol("g"), v);
                    cpu.put_word(BP - 2, v);
                    let any = v & k as u16 != 0;
                    let truth = if *op == Some(BinOp::Eq) { !any } else { any };
                    assert_eq!(cpu.run(&e.out).is_none(), truth);
                }
            }
        }
    }
    for op in [BinOp::Eq, BinOp::Ne] {
        let (x, y, zero) = (b.name("x"), b.name("y"), b.num(0));
        let masked = b.binop(BinOp::BitAnd, x, y);
        let cond = b.binop(op, masked, zero);
        let mut e = FunctionEmitter::new(&b.env);
        e.emit_cond_branch(&cond, None, Some(2));
        for p in WORDS {
            for q in WORDS {
                let mut cpu = Cpu::new();
                cpu.put_word(BP - 2, p);
                cpu.put_word(BP - 4, q);
                assert_eq!(cpu.run(&e.out).is_none(), compare(op, (p & q) as i64, 0));
            }
        }
    }
}

#[test]
fn words_move_between_registers_and_memory() {
    let mut b = Build::new();
    b.global("g", Type::Int);
    b.global("h", Type::Int);
    b.local("r", Type::Int, LocalLocation::Reg(Reg::Si));
    b.local("s", Type::Int, LocalLocation::Reg(Reg::Di));
    b.local("x", Type::UInt, LocalLocation::Stack(-2));
    let (r, s, x, h) = (b.name("r"), b.name("s"), b.name("x"), b.name("h"));
    let whole = Type::Int;
    let g = "g".to_string();

    let mut e = FunctionEmitter::new(&b.env);
    e.emit_assign_global(&g, &r);
    e.emit_assign_local(LocalLocation::Stack(-6), &whole, &s);
    let mut cpu = Cpu::new();
    assert_eq!(cpu.run(&e.out), None);
    assert_eq!(cpu.word(symbol("g")), 0x5678);
    assert_eq!(cpu.word(BP - 6), 0x6789);
    only_changed_words(&cpu, &[(symbol("g"), 2), (BP - 6, 2)]);

    for (value, expected) in [(&s, 0x6789u16), (&x, 0x1111), (&h, 0x2222)] {
        let mut e = FunctionEmitter::new(&b.env);
        e.emit_store_reg(Reg::Si, value);
        let mut cpu = Cpu::new();
        cpu.put_word(BP - 2, 0x1111);
        cpu.put_word(symbol("h"), 0x2222);
        assert_eq!(cpu.run(&e.out), None);
        assert_eq!(cpu.get(Reg::Si), expected);
        assert_eq!(cpu.get(Reg::Di), 0x6789);
    }
}

#[test]
fn addresses_are_assigned() {
    let mut b = Build::new();
    b.global("g", Type::Pointer(Box::new(Type::Int)));
    b.global("h", Type::Int);
    let value = b.expr(ExprKind::AddressOf("h".to_string()), Facts::none());
    let g = "g".to_string();
    let near = Type::Pointer(Box::new(Type::Int));
    let mut e = FunctionEmitter::new(&b.env);
    e.emit_assign_global(&g, &value);
    e.emit_assign_local(LocalLocation::Stack(-2), &near, &value);
    e.emit_store_reg(Reg::Di, &value);
    let mut cpu = Cpu::new();
    assert_eq!(cpu.run(&e.out), None);
    assert_eq!(cpu.word(symbol("g")), symbol("h"));
    assert_eq!(cpu.word(BP - 2), symbol("h"));
    assert_eq!(cpu.get(Reg::Di), symbol("h"));
    only_changed_words(&cpu, &[(symbol("g"), 2), (BP - 2, 2)]);
}

#[test]
fn updates_are_folded_into_assignments() {
    let whole = Type::Int;
    for (op, step) in [(UpdateOp::Inc, 1u16), (UpdateOp::Dec, 0xFFFF)] {
        for position in [UpdatePosition::Pre, UpdatePosition::Post] {
            for old in [0u16, 7, 0xFFFF] {
                let mut b = Build::new();
                b.local("x", Type::Int, LocalLocation::Reg(Reg::Di));
                let kind = ExprKind::Update { target: "x".to_string(), op, position };
                let value = b.expr(kind, Facts::none());
                let mut e = FunctionEmitter::new(&b.env);
                e.emit_assign_local(LocalLocation::Stack(-2), &whole, &value);
                let mut cpu = Cpu::new();
                cpu.set(Reg::Di, old);
                assert_eq!(cpu.run(&e.out), None);
                let new = old.wrapping_add(step);
                let stored = if position == UpdatePosition::Pre { new } else { old };
                assert_eq!(cpu.word(BP - 2), stored);
                assert_eq!(cpu.get(Reg::Di), new);
                only_changed_words(&cpu, &[(BP - 2, 2)]);
            }
        }
    }
}

#[test]
fn pointers_step_over_what_they_reach() {
    let whole = Type::Int;
    for (op, step) in [(UpdateOp::Inc, 2u16), (UpdateOp::Dec, 0xFFFE)] {
        let mut b = Build::new();
        b.local("p", Type::Pointer(Box::new(Type::Int)), LocalLocation::Reg(Reg::Si));
        let kind = ExprKind::Update {
            target: "p".to_string(),
            op,
            position: UpdatePosition::Post,
        };
        let inner = b.expr(kind, Facts::none());
        let value = b.expr(ExprKind::Deref(Box::new(inner)), Facts::none());
        let mut e = FunctionEmitter::new(&b.env);
        e.emit_assign_local(LocalLocation::Stack(-2), &whole, &value);
        let mut cpu = Cpu::new();
        cpu.set(Reg::Si, 0x700);
        assert_eq!(cpu.run(&e.out), None);
        assert_eq!(cpu.word(BP - 2), cpu.word(0x700));
        assert_eq!(cpu.get(Reg::Si), 0x700u16.wrapping_add(step));
    }
    let mut b = Build::new();
    b.local("p", Type::Pointer(Box::new(Type::Int)), LocalLocation::Reg(Reg::Si));
    let kind = ExprKind::Update {
        target: "p".to_string(),
        op: UpdateOp::Inc,
        position: UpdatePosition::Post,
    };
    let target = b.expr(kind, Facts::none());
    let value = b.num(0xBEEF);
    let mut e = FunctionEmitter::new(&b.env);
    e.emit_deref_assign(&target, &value);
    let mut cpu = Cpu::new();
    cpu.set(Reg::Si, 0x700);
    assert_eq!(cpu.run(&e.out), None);
    assert_eq!(cpu.word(0x700), 0xBEEF);
    assert_eq!(cpu.get(Reg::Si), 0x702);
    only_changed_words(&cpu, &[(0x700, 2)]);
}

#[test]
fn constants_applied_behind_pointers_and_to_elements() {
    let name_a = "a".to_string();
    let name_t = "t".to_string();
    for op in DIRECT {
        for c in [0u32, 1, 2, 0x8001, 0x1_0001] {
            for from_postfix in [false, true] {
                let mut b = Build::new();
                b.global("a", int_array(8));
                b.global("i", Type::Int);
                b.local("t", int_array(8), LocalLocation::Stack(-20));
                b.local("p", Type::Pointer(Box::new(Type::UInt)), LocalLocation::Reg(Reg::Si));
                let (p, value) = (b.name("p"), b.num(c));
                let three = vec![b.num(3)];
                let subscript = vec![b.int_name("i")];
                for (place, at) in [
                    (0, 0x700u16),
                    (1, symbol("a") + 6),
                    (2, BP - 14),
                    (3, symbol("a") + 10),
                ] {
                    let mut e = FunctionEmitter::new(&b.env);
                    match place {
                        0 => e.emit_deref_compound_assign(&p, op, &value, from_postfix),
                        1 => {
                            e.emit_array_compound_assign(&name_a, &three, op, &value, from_postfix)
                        }
                        2 => {
                            e.emit_array_compound_assign(&name_t, &three, op, &value, from_postfix)
                        }
                        _ => e.emit_array_compound_assign(
                            &name_a,
                            &subscript,
                            op,
                            &value,
                            from_postfix,
                        ),
                    }
                    for old in WORDS {
                        let mut cpu = Cpu::new();
                        cpu.set(Reg::Si, 0x700);
                        cpu.put_word(symbol("i"), 5);
                        cpu.put_word(at, old);
                        assert_eq!(cpu.run(&e.out), None);
                        assert_eq!(cpu.word(at), apply(op, old as u32, c) as u16);
                        if old == 0x7FFF {
                            only_changed_words(&cpu, &[(symbol("i"), 2), (at, 2)]);
                        }
                    }
                }
            }
        }
    }
}

#[test]
fn constants_written_at_a_variable_subscript() {
    let mut b = Build::new();
    b.local("t", int_array(8), LocalLocation::Stack(-20));
    b.local("j", Type::Int, LocalLocation::Stack(-2));
    let name_t = "t".to_string();
    let subscript = vec![b.name("j")];
    let value = b.num(0x4321);
    let mut e = FunctionEmitter::new(&b.env);
    e.emit_array_assign(&name_t, &subscript, &value);
    for v in 0..8u16 {
        let mut cpu = Cpu::new();
        cpu.put_word(BP - 2, v);
        assert_eq!(cpu.run(&e.out), None);
        assert_eq!(cpu.word(BP - 20 + 2 * v), 0x4321);
        only_changed_words(&cpu, &[(BP - 2, 2), (BP - 20 + 2 * v, 2)]);
    }
}

/// What C makes of two 32-bit numbers.
fn divide(op: BinOp, a: u32, b: u32, unsigned: bool) -> u32 {
    match (op, unsigned) {
        (BinOp::Div, true) => a / b,
        (_, true) => a % b,
        (BinOp::Div, false) => (a as i32).wrapping_div(b as i32) as u32,
        _ => (a as i32).wrapping_rem(b as i32) as u32,
    }
}

#[test]
fn products_and_quotients_of_longs() {
    let g = "g".to_string();
    for unsigned in [false, true] {
        let ty = || if unsigned { Type::ULong } else { Type::Long };
        for op in [BinOp::Mul, BinOp::Div, BinOp::Mod] {
            let mut b = Build::new();
            for name in ["g", "h", "k"] {
                b.global(name, ty());
            }
            b.local("x", ty(), LocalLocation::Stack(-4));
            b.local("y", ty(), LocalLocation::Stack(-8));
            let (h, k) = (b.name("h"), b.name("k"));
            let files = b.binop(op, h, k);
            let (x, y) = (b.name("x"), b.name("y"));
            let frames = b.binop(op, x, y);
            let other = b.name("k");
            let local = ty();
            for p in LONGS {
                for q in LONGS {
                    if op != BinOp::Mul && q == 0 {
                        continue;
                    }
                    let expected = if op == BinOp::Mul {
                        p.wrapping_mul(q)
                    } else {
                        divide(op, p, q, unsigned)
                    };
                    for way in 0..3 {
                        let mut e = FunctionEmitter::new(&b.env);
                        match way {
                            0 => e.emit_assign_global(&g, &files),
                            1 => e.emit_assign_local(LocalLocation::Stack(-12), &local, &frames),
                            _ => e.emit_compound_assign(&g, op, &other),
                        }
                        let mut cpu = Cpu::new();
                        for (at, v) in [
                            (symbol("g"), p),
                            (symbol("h"), p),
                            (symbol("k"), q),
                            (BP - 4, p),
                            (BP - 8, q),
                        ] {
                            cpu.put_long(at, v);
                        }
                        assert_eq!(cpu.run(&e.out), None);
                        let at = if way == 1 { BP - 12 } else { symbol("g") };
                        assert_eq!(cpu.long(at), expected);
                        assert_eq!(cpu.get(Reg::Sp), 0xF000);
                        if p == q {
                            only_changed_words(
                                &cpu,
                                &[
                                    (symbol("g"), 4),
                                    (symbol("h"), 4),
                                    (symbol("k"), 4),
                                    (BP - 12, 12),
                                    (0xF000 - 8, 8),
                                ],
                            );
                        }
                    }
                }
            }
        }
    }
}

#[test]
fn longs_shifted_by_some_places() {
    let g = "g".to_string();
    for unsigned in [false, true] {
        let ty = || if unsigned { Type::ULong } else { Type::Long };
        for op in [BinOp::Shl, BinOp::Shr] {
            for k in [2u32, 5, 16, 31, 40] {
                let mut b = Build::new();
                b.global("g", ty());
                b.global("h", ty());
                let (h, places) = (b.name("h"), b.num(k));
                let value = b.binop(op, h, places);
                let count = b.num(k);
                for v in LONGS {
                    let expected = match (op, unsigned) {
                        (BinOp::Shl, _) => ((v as u64) << k) as u32,
                        (_, true) => ((v as u64) >> k) as u32,
                        _ => ((v as i32 as i64) >> k) as u32,
                    };
                    let mut e = FunctionEmitter::new(&b.env);
                    e.emit_assign_global(&g, &value);
                    let mut cpu = Cpu::new();
                    cpu.put_long(symbol("h"), v);
                    assert_eq!(cpu.run(&e.out), None);
                    assert_eq!(cpu.long(symbol("g")), expected);
                    let mut e = FunctionEmitter::new(&b.env);
                    e.emit_compound_assign(&g, op, &count);
                    let mut cpu = Cpu::new();
                    cpu.put_long(symbol("g"), v);
                    assert_eq!(cpu.run(&e.out), None);
                    assert_eq!(cpu.long(symbol("g")), expected);
                    only_changed_words(&cpu, &[(symbol("g"), 4)]);
                }
            }
        }
    }
}

fn bits(name: &str, ty: Type, bit_offset: u8, bit_width: u8) -> StructField {
    StructField {
        name: name.to_string(),
        bitfield: Some(BitfieldInfo { bit_offset, bit_width }),
        ty,
        offset: 0,
    }
}

/// `s.u` has bits 0 to 2, `s.i` bits 3 to 6, and `s.v` bits 7 to 12.
fn with_fields() -> Type {
    Type::Struct {
        name: None,
        fields: vec![
            bits("u", Type::UInt, 0, 3),
            bits("i", Type::Int, 3, 4),
            bits("v", Type::UInt, 7, 6),
        ],
        size: 2,
    }
}

#[test]
fn bitfields_are_added_up() {
    for through_pointer in [false, true] {
        let mut b = Build::new();
        if through_pointer {
            b.local("s", Type::Pointer(Box::new(with_fields())), LocalLocation::Reg(Reg::Si));
        } else {
            b.global("s", with_fields());
        }
        let kind = if through_pointer { MemberKind::Arrow } else { MemberKind::Dot };
        let mut member = |field: &str| {
            let base = b.name("s");
            let kind = ExprKind::Member { base: Box::new(base), field: field.to_string(), kind };
            b.expr(kind, Facts::none())
        };
        let (u, i, v) = (member("u"), member("i"), member("v"));
        let (u2, i2) = (member("u"), member("i"));
        let first = b.binop(BinOp::Add, u, v);
        let three = b.binop(BinOp::Sub, first, i);
        let mixed = b.binop(BinOp::Add, i2, u2);
        for unit in [0u16, 0x1FFF, 0x0555, 0x1234, 0xFFFF, 0x0048] {
            let u = unit & 7;
            let i = ((((unit >> 3) & 15) << 12) as i16 >> 12) as u16;
            let v = (unit >> 7) & 63;
            for (e, expected) in [
                (&three, u.wrapping_add(v).wrapping_sub(i)),
                (&mixed, i.wrapping_add(u)),
            ] {
                let mut out = FunctionEmitter::new(&b.env);
                assert!(out.try_emit_bitfield_chain_to_ax(e));
                let mut cpu = Cpu::new();
                cpu.set(Reg::Si, symbol("s"));
                cpu.put_word(symbol("s"), unit);
                assert_eq!(cpu.run(&out.out), None);
                assert_eq!(cpu.get(Reg::Ax), expected);
                assert_eq!(cpu.get(Reg::Sp), 0xF000);
                only_changed_words(&cpu, &[(symbol("s"), 2), (0xF000 - 2, 2)]);
            }
        }
    }
}

#[test]
fn products_quotients_and_shifts_of_integers() {
    let names = ["g".to_string(), "r".to_string()];
    for unsigned in [false, true] {
        let ty = || if unsigned { Type::UInt } else { Type::Int };
        for k in [1u32, 2, 3, 5, 10, 0x8000, 0xFFFF, 0x2_0007] {
            for op in [BinOp::Mul, BinOp::Div, BinOp::Mod, BinOp::Shl, BinOp::Shr] {
                if matches!(op, BinOp::Shl | BinOp::Shr) && k > 255 {
                    continue;
                }
                let mut b = Build::new();
                b.global("g", ty());
                b.local("r", ty(), LocalLocation::Reg(Reg::Si));
                let value = b.num(k);
                for (n, name) in names.iter().enumerate() {
                    if n == 1 && unsigned && matches!(op, BinOp::Div | BinOp::Mod) {
                        continue;
                    }
                    let mut e = FunctionEmitter::new(&b.env);
                    e.emit_compound_assign(name, op, &value);
                    for v in WORDS {
                        let low = k as u16;
                        if !unsigned && v == 0x8000 && low == 0xFFFF && op != BinOp::Mul {
                            continue;
                        }
                        let (x, y) = (v as i16 as i32, low as i16 as i32);
                        let expected = match (op, unsigned) {
                            (BinOp::Mul, _) => v.wrapping_mul(low),
                            (BinOp::Div, true) => v / low,
                            (BinOp::Mod, true) => v % low,
                            (BinOp::Div, false) => (x / y) as u16,
                            (BinOp::Mod, false) => (x % y) as u16,
                            (BinOp::Shl, _) => ((v as u64) << k.min(40)) as u16,
                            (_, true) => ((v as u64) >> k.min(40)) as u16,
                            _ => ((x as i64) >> k.min(40)) as u16,
                        };
                        let mut cpu = Cpu::new();
                        cpu.put_word(symbol("g"), v);
                        cpu.set(Reg::Si, v);
                        assert_eq!(cpu.run(&e.out), None);
                        let (changed, kept) =
                            (cpu.word(symbol("g")), cpu.get(Reg::Si));
                        if n == 0 {
                            assert_eq!((changed, kept), (expected, v));
                        } else {
                            assert_eq!((changed, kept), (v, expected));
                        }
                    }
                }
            }
        }
    }
}

#[test]
fn integers_added_to_integers() {
    let mut b = Build::new();
    b.global("g", Type::Int);
    b.global("h", Type::UInt);
    let h = b.name("h");
    let g = "g".to_string();
    for op in [BinOp::Add, BinOp::Sub] {
        let mut e = FunctionEmitter::new(&b.env);
        e.emit_compound_assign(&g, op, &h);
        for p in WORDS {
            for q in WORDS {
                let mut cpu = Cpu::new();
                cpu.put_word(symbol("g"), p);
                cpu.put_word(symbol("h"), q);
                assert_eq!(cpu.run(&e.out), None);
                assert_eq!(cpu.word(symbol("g")), apply(op, p as u32, q as u32) as u16);
                assert_eq!(cpu.word(symbol("h")), q);
            }
        }
    }
}

#[test]
fn smaller_integers_widen_to_longs() {
    let g = "g".to_string();
    let mut b = Build::new();
    b.global("g", Type::Long);
    b.global("c", Type::Char);
    b.global("i", Type::Int);
    b.global("u", Type::UInt);
    let (c, i, u) = (b.name("c"), b.name("i"), b.name("u"));
    let inner = b.name("i");
    let cast = b.expr(
        ExprKind::Cast { ty: Type::Long, operand: Box::new(inner) },
        Facts::none(),
    );
    for v in WORDS {
        let wide = v as i16 as i32 as u32;
        for (value, expected) in [
            (&c, v as u8 as i8 as i32 as u32),
            (&i, wide),
            (&u, v as u32),
            (&cast, wide),
        ] {
            let mut e = FunctionEmitter::new(&b.env);
            e.emit_assign_global(&g, value);
            let mut cpu = Cpu::new();
            for name in ["c", "i", "u"] {
                cpu.put_word(symbol(name), v);
            }
            assert_eq!(cpu.run(&e.out), None);
            assert_eq!(cpu.long(symbol("g")), expected);
        }
    }
}

#[test]
fn longs_take_in_integers() {
    let g = "g".to_string();
    for op in DIRECT {
        let mut b = Build::new();
        b.global("g", Type::Long);
        b.global("i", Type::Int);
        let (x, y) = (b.name("g"), b.name("i"));
        let right = b.binop(op, x, y);
        let (x, y) = (b.name("i"), b.name("g"));
        let left = b.binop(BinOp::Add, x, y);
        for p in LONGS {
            for q in WORDS {
                let wide = q as i16 as i32 as u32;
                for (value, expected) in [(&right, apply(op, p, wide)), (&left, p.wrapping_add(wide))]
                {
                    let mut e = FunctionEmitter::new(&b.env);
                    e.emit_assign_global(&g, value);
                    let mut cpu = Cpu::new();
                    cpu.put_long(symbol("g"), p);
                    cpu.put_word(symbol("i"), q);
                    assert_eq!(cpu.run(&e.out), None);
                    assert_eq!(cpu.long(symbol("g")), expected);
                    assert_eq!(cpu.word(symbol("i")), q);
                }
            }
        }
    }
}

#[test]
fn longs_are_read_from_storage() {
    let g = "g".to_string();
    let mut b = Build::new();
    b.global("g", Type::Long);
    b.global("a", Type::Array { elem: Box::new(Type::Long), len: 8 });
    b.local("p", Type::Pointer(Box::new(Type::Long)), LocalLocation::Reg(Reg::Di));
    let p = b.name("p");
    let behind = b.expr(ExprKind::Deref(Box::new(p)), Facts::none());
    let (a, k) = (b.name("a"), b.num(5));
    let element = b.expr(
        ExprKind::ArrayIndex { array: Box::new(a), index: Box::new(k) },
        Facts::none(),
    );
    for (value, from) in [(&behind, 0x700), (&element, symbol("a") + 20)] {
        let mut e = FunctionEmitter::new(&b.env);
        e.emit_assign_global(&g, value);
        let mut cpu = Cpu::new();
        cpu.set(Reg::Di, 0x700);
        let expected = cpu.long(from);
        assert_eq!(cpu.run(&e.out), None);
        assert_eq!(cpu.long(symbol("g")), expected);
        only_changed_words(&cpu, &[(symbol("g"), 4)]);
    }
}

#[test]
fn choices_between_constants() {
    let chr = Type::Char;
    for joined in [false, true] {
        let mut b = Build::new();
        b.global("g", Type::Long);
        b.global("h", Type::Long);
        let cond = if joined {
            let (x, y) = (b.name("g"), b.name("h"));
            let mut facts = Facts::none();
            facts.label_base = Some(50);
            let kind = ExprKind::Logical {
                op: LogicalOp::Or,
                left: Box::new(x),
                right: Box::new(y),
            };
            b.expr(kind, facts)
        } else {
            b.name("g")
        };
        let (yes, no) = (b.num(0x141), b.num(0x42));
        let mut facts = Facts::none();
        facts.label_base = Some(7);
        let kind = ExprKind::Ternary {
            cond: Box::new(cond),
            then_value: Box::new(yes),
            else_value: Box::new(no),
        };
        let value = b.expr(kind, facts);
        let mut e = FunctionEmitter::new(&b.env);
        e.emit_assign_local(LocalLocation::Stack(-3), &chr, &value);
        for p in [0u32, 1, 0x1_0000] {
            for q in [0u32, 2, 0x8000_0000] {
                let mut cpu = Cpu::new();
                cpu.put_long(symbol("g"), p);
                cpu.put_long(symbol("h"), q);
                assert_eq!(cpu.run(&e.out), None);
                let truth = p != 0 || joined && q != 0;
                assert_eq!(cpu.mem[(BP - 3) as usize], if truth { 0x41 } else { 0x42 });
                only_changed_words(&cpu, &[(symbol("g"), 4), (symbol("h"), 4), (BP - 3, 1)]);
            }
        }
    }
}

fn array_of(elem: Type, len: u32) -> Type {
    Type::Array { elem: Box::new(elem), len }
}

#[test]
fn elements_subscripted_by_calls_are_found() {
    let mut b = Build::new();
    let call = b.expr(
        ExprKind::Call { name: "f".to_string(), args: vec![] },
        Facts::none(),
    );
    let (x, y) = (b.name("x"), b.name("y"));
    let product = b.binop(BinOp::Mul, x, y);
    for size in [1u16, 2, 4, 6, 8] {
        for index in [&call, &product] {
            let mut e = FunctionEmitter::new(&b.env);
            e.emit_array_addr_to_bx(index, -100, size);
            for v in [0u16, 1, 9, 0x3333, 0xFFFF] {
                let mut cpu = Cpu::new();
                cpu.computed = v;
                assert_eq!(cpu.run(&e.out), None);
                let expected = (BP - 100).wrapping_add(v.wrapping_mul(size));
                assert_eq!(cpu.get(Reg::Bx), expected);
            }
        }
    }
}

#[test]
fn elements_subscripted_by_characters_and_sums_are_found() {
    let mut b = Build::new();
    b.local("c", Type::Char, LocalLocation::Stack(-1));
    b.local("u", Type::UChar, LocalLocation::Stack(-1));
    b.local("d", Type::Char, LocalLocation::Reg(Reg::Dl));
    b.global("i", Type::Int);
    b.global("j", Type::Int);
    let (c, u, d) = (b.name("c"), b.name("u"), b.name("d"));
    let (i, j) = (b.int_name("i"), b.int_name("j"));
    let sum = b.binop(BinOp::Add, i, j);
    for size in [1u16, 2, 4, 6] {
        for v in [0u8, 1, 9, 200, 255] {
            let cases = [
                (&c, v as i8 as u16),
                (&u, v as u16),
                (&d, v as i8 as u16),
                (&sum, (v as u16).wrapping_add(0xFFFE)),
            ];
            for (index, worth) in cases {
                let mut e = FunctionEmitter::new(&b.env);
                e.emit_array_addr_to_bx(index, -100, size);
                let mut cpu = Cpu::new();
                cpu.mem[(BP - 1) as usize] = v;
                cpu.set(Reg::Dl, v as u16);
                cpu.put_word(symbol("i"), v as u16);
                cpu.put_word(symbol("j"), 0xFFFE);
                assert_eq!(cpu.run(&e.out), None);
                let expected = (BP - 100).wrapping_add(worth.wrapping_mul(size));
                assert_eq!(cpu.get(Reg::Bx), expected);
            }
        }
    }
}

#[test]
fn subscripts_that_are_characters_or_computed_are_scaled() {
    let mut b = Build::new();
    b.local("c", Type::Char, LocalLocation::Stack(-1));
    b.global("u", Type::UChar);
    let (c, u) = (b.name("c"), b.name("u"));
    let call = b.expr(
        ExprKind::Call { name: "f".to_string(), args: vec![] },
        Facts::none(),
    );
    for (ty, size) in [(Type::UChar, 1u16), (Type::Int, 2), (Type::Long, 4)] {
        for v in [0u8, 3, 200] {
            for (idx, worth) in [(&c, v as i8 as u16), (&u, v as u16), (&call, v as u16)] {
                let mut e = FunctionEmitter::new(&b.env);
                e.emit_index_into_bx(idx, &ty);
                let mut cpu = Cpu::new();
                cpu.mem[(BP - 1) as usize] = v;
                cpu.mem[symbol("u") as usize] = v;
                cpu.computed = v as u16;
                assert_eq!(cpu.run(&e.out), None);
                assert_eq!(cpu.get(Reg::Bx), worth.wrapping_mul(size));
            }
        }
    }
}

#[test]
fn long_elements_carry_from_word_to_word() {
    let mut b = Build::new();
    b.global("a", array_of(Type::Long, 4));
    b.local("t", array_of(Type::ULong, 4), LocalLocation::Stack(-20));
    let (a, t) = ("a".to_string(), "t".to_string());
    let index = vec![b.num(2)];
    let values: Vec<Expr> = LONGS.iter().map(|&k| b.num(k)).collect();
    for (name, at) in [(&a, symbol("a") + 8), (&t, BP - 12)] {
        for op in DIRECT {
            for (value, k) in values.iter().zip(LONGS) {
                let mut e = FunctionEmitter::new(&b.env);
                e.emit_array_compound_assign(name, &index, op, value, false);
                for old in LONGS {
                    let mut before = Cpu::new();
                    before.put_long(at, old);
                    let mut cpu = Cpu::new();
                    cpu.put_long(at, old);
                    assert_eq!(cpu.run(&e.out), None);
                    assert_eq!(cpu.long(at), apply(op, old, k));
                    only_changed(&before, &cpu, at, 4);
                }
            }
        }
    }
    let one = b.num(1);
    let mut e = FunctionEmitter::new(&b.env);
    e.emit_array_compound_assign(&t, &index, BinOp::Add, &one, true);
    let mut cpu = Cpu::new();
    cpu.put_long(BP - 12, 0x0001_FFFF);
    assert_eq!(cpu.run(&e.out), None);
    assert_eq!(cpu.long(BP - 12), 0x0002_0000);
}

#[test]
fn long_elements_are_written_and_read() {
    let mut b = Build::new();
    b.global("a", array_of(Type::Long, 4));
    b.global("x", Type::Long);
    b.local("t", array_of(Type::Long, 4), LocalLocation::Stack(-20));
    b.local("i", Type::Int, LocalLocation::Stack(-2));
    let (a, t, x) = ("a".to_string(), "t".to_string(), "x".to_string());
    let fixed = vec![b.num(3)];
    let variable = vec![b.name("i")];
    let value = b.num(0x1234_5678);
    let cases = [
        (&a, &fixed, symbol("a") + 12),
        (&t, &fixed, BP - 8),
        (&a, &variable, symbol("a") + 12),
        (&t, &variable, BP - 8),
    ];
    for (name, index, at) in cases {
        let mut e = FunctionEmitter::new(&b.env);
        e.emit_array_assign(name, index, &value);
        let mut before = Cpu::new();
        before.put_word(BP - 2, 3);
        let mut cpu = Cpu::new();
        cpu.put_word(BP - 2, 3);
        assert_eq!(cpu.run(&e.out), None);
        assert_eq!(cpu.long(at), 0x1234_5678);
        only_changed(&before, &cpu, at, 4);
    }
    let whole = b.long_name("x");
    let mut e = FunctionEmitter::new(&b.env);
    e.emit_array_assign(&t, &variable, &whole);
    let mut cpu = Cpu::new();
    cpu.put_word(BP - 2, 1);
    cpu.put_long(symbol("x"), 0xDEAD_BEEF);
    assert_eq!(cpu.run(&e.out), None);
    assert_eq!(cpu.long(BP - 16), 0xDEAD_BEEF);
    for (name, at) in [("a", symbol("a") + 12), ("t", BP - 8)] {
        let array = Box::new(b.name(name));
        let index = Box::new(b.num(3));
        let elem = b.expr(ExprKind::ArrayIndex { array, index }, Facts::none());
        let mut e = FunctionEmitter::new(&b.env);
        e.emit_assign_global(&x, &elem);
        let mut cpu = Cpu::new();
        cpu.put_long(at, 0x8765_4321);
        assert_eq!(cpu.run(&e.out), None);
        assert_eq!(cpu.long(symbol("x")), 0x8765_4321);
    }
}

#[test]
fn characters_in_arrays_are_widened_by_their_type() {
    for unsigned in [false, true] {
        let elem = || if unsigned { Type::UChar } else { Type::Char };
        let mut b = Build::new();
        b.global("a", array_of(elem(), 8));
        b.local("t", array_of(elem(), 8), LocalLocation::Stack(-20));
        b.local("i", Type::Int, LocalLocation::Stack(-2));
        let (name_a, name_t) = ("a".to_string(), "t".to_string());
        let (a, t) = (b.name("a"), b.name("t"));
        let fixed = vec![b.num(5)];
        let variable = vec![b.name("i")];
        for v in [0u8, 1, 127, 128, 200, 255] {
            let value = b.num(0x300 + v as u32);
            let wide = if unsigned { v as u16 } else { v as i8 as u16 };
            let cases = [
                (&name_a, &a, &fixed, symbol("a") + 5),
                (&name_t, &t, &fixed, BP - 15),
                (&name_t, &t, &variable, BP - 15),
            ];
            for (name, array, index, at) in cases {
                let mut cpu = Cpu::new();
                cpu.put_word(BP - 2, 5);
                let mut before = Cpu::new();
                before.put_word(BP - 2, 5);
                let mut e = FunctionEmitter::new(&b.env);
                e.emit_array_assign(name, index, &value);
                assert_eq!(cpu.run(&e.out), None);
                assert_eq!(cpu.mem[at as usize], v);
                only_changed(&before, &cpu, at, 1);
                let mut e = FunctionEmitter::new(&b.env);
                e.emit_array_index_to_ax(array, &index[0]);
                assert_eq!(cpu.run(&e.out), None);
                assert_eq!(cpu.get(Reg::Ax), wide);
            }
        }
    }
}

#[test]
fn constants_applied_to_characters_in_arrays() {
    let mut b = Build::new();
    b.global("a", array_of(Type::UChar, 8));
    b.local("t", array_of(Type::Char, 8), LocalLocation::Stack(-20));
    let (a, t) = ("a".to_string(), "t".to_string());
    let index = vec![b.num(5)];
    let constants = [0u32, 1, 5, 0x80, 0xFF, 0x101];
    let values: Vec<Expr> = constants.iter().map(|&k| b.num(k)).collect();
    for (name, at) in [(&a, symbol("a") + 5), (&t, BP - 15)] {
        for op in DIRECT {
            for (value, k) in values.iter().zip(constants) {
                for postfix in [false, true] {
                    let mut e = FunctionEmitter::new(&b.env);
                    e.emit_array_compound_assign(name, &index, op, value, postfix);
                    for old in [0u8, 1, 200, 255] {
                        let mut before = Cpu::new();
                        before.mem[at as usize] = old;
                        let mut cpu = Cpu::new();
                        cpu.mem[at as usize] = old;
                        assert_eq!(cpu.run(&e.out), None);
                        assert_eq!(cpu.mem[at as usize], apply(op, old as u32, k) as u8);
                        only_changed(&before, &cpu, at, 1);
                    }
                }
            }
        }
    }
}

#[test]
fn pointers_to_characters_widen_by_their_type() {
    for unsigned in [false, true] {
        for loc in [LocalLocation::Reg(Reg::Di), LocalLocation::Stack(-6)] {
            let mut b = Build::new();
            let pointee = if unsigned { Type::UChar } else { Type::Char };
            b.local("p", Type::Pointer(Box::new(pointee)), loc);
            let p = b.name("p");
            let (q, k) = (b.name("p"), b.num(2));
            let ahead = b.binop(BinOp::Add, q, k);
            for v in [0u8, 127, 200, 255] {
                let value = b.num(0x500 + v as u32);
                let wide = if unsigned { v as u16 } else { v as i8 as u16 };
                let mut before = Cpu::new();
                before.set(Reg::Di, 0x700);
                before.put_word(BP - 6, 0x700);
                let mut cpu = Cpu::new();
                cpu.set(Reg::Di, 0x700);
                cpu.put_word(BP - 6, 0x700);
                let mut e = FunctionEmitter::new(&b.env);
                e.emit_deref_assign(&p, &value);
                assert_eq!(cpu.run(&e.out), None);
                assert_eq!(cpu.mem[0x700], v);
                only_changed(&before, &cpu, 0x700, 1);
                let mut e = FunctionEmitter::new(&b.env);
                e.emit_deref_to_ax(&p);
                assert_eq!(cpu.run(&e.out), None);
                assert_eq!(cpu.get(Reg::Ax), wide);
                cpu.mem[0x702] = v;
                let mut e = FunctionEmitter::new(&b.env);
                e.emit_deref_to_ax(&ahead);
                assert_eq!(cpu.run(&e.out), None);
                assert_eq!(cpu.get(Reg::Ax), wide);
            }
        }
    }
}

#[test]
fn characters_in_registers_divide_by_their_type() {
    for (ty, unsigned) in [(Type::Char, false), (Type::UChar, true)] {
        let mut b = Build::new();
        b.local("c", ty, LocalLocation::Reg(Reg::Dl));
        let seven = b.num(7);
        let c = "c".to_string();
        let mut e = FunctionEmitter::new(&b.env);
        e.emit_compound_assign(&c, BinOp::Div, &seven);
        for v in [0u8, 6, 100, 200, 255] {
            let mut cpu = Cpu::new();
            cpu.set(Reg::Dl, v as u16);
            assert_eq!(cpu.run(&e.out), None);
            let expected = if unsigned { v / 7 } else { (v as i8 / 7) as u8 };
            assert_eq!(cpu.get(Reg::Dl), expected as u16);
        }
    }
}

#[test]
fn literals_are_their_own_constants() {
    let mut b = Build::new();
    b.global("g", Type::Long);
    let bare = b.expr(ExprKind::IntLit(0x12_3456), Facts::none());
    let mut facts = Facts::none();
    facts.const_value = Some(9);
    let noted = b.expr(ExprKind::IntLit(0x65_4321), facts);
    let g = "g".to_string();
    for (value, expected) in [(&bare, 0x12_3456), (&noted, 0x65_4321)] {
        let mut e = FunctionEmitter::new(&b.env);
        e.emit_assign_global(&g, value);
        let mut cpu = Cpu::new();
        assert_eq!(cpu.run(&e.out), None);
        assert_eq!(cpu.long(symbol("g")), expected);
    }
}

#[test]
fn characters_at_file_scope_are_reached_by_variables() {
    for unsigned in [false, true] {
        let elem = if unsigned { Type::UChar } else { Type::Char };
        let mut b = Build::new();
        b.global("a", array_of(elem, 8));
        b.global("i", Type::Int);
        let name = "a".to_string();
        let a = b.name("a");
        let index = vec![b.int_name("i")];
        let value = b.num(0x7C8);
        let mut cpu = Cpu::new();
        cpu.put_word(symbol("i"), 6);
        let mut before = Cpu::new();
        before.put_word(symbol("i"), 6);
        let mut e = FunctionEmitter::new(&b.env);
        e.emit_array_assign(&name, &index, &value);
        assert_eq!(cpu.run(&e.out), None);
        assert_eq!(cpu.mem[symbol("a") as usize + 6], 200);
        only_changed(&before, &cpu, symbol("a") + 6, 1);
        let mut e = FunctionEmitter::new(&b.env);
        e.emit_array_index_to_ax(&a, &index[0]);
        assert_eq!(cpu.run(&e.out), None);
        assert_eq!(cpu.get(Reg::Ax), if unsigned { 200 } else { 0xFFC8 });
    }
}

#[test]
fn constants_applied_to_characters_behind_pointers() {
    let mut b = Build::new();
    b.local("p", Type::Pointer(Box::new(Type::UChar)), LocalLocation::Reg(Reg::Si));
    let p = b.name("p");
    let constants = [1u32, 2, 0xFF, 0x180];
    let values: Vec<Expr> = constants.iter().map(|&k| b.num(k)).collect();
    for op in DIRECT {
        for (value, k) in values.iter().zip(constants) {
            for postfix in [false, true] {
                let mut e = FunctionEmitter::new(&b.env);
                e.emit_deref_compound_assign(&p, op, value, postfix);
                for old in [0u8, 1, 200, 255] {
                    let mut before = Cpu::new();
                    before.mem[0x700] = old;
                    let mut cpu = Cpu::new();
                    cpu.mem[0x700] = old;
                    cpu.set(Reg::Si, 0x700);
                    assert_eq!(cpu.run(&e.out), None);
                    assert_eq!(cpu.mem[0x700], apply(op, old as u32, k) as u8);
                    only_changed(&before, &cpu, 0x700, 1);
                }
            }
        }
    }
}

/// The surroundings of `a[i][j]` with `i` in `si` and `j` in memory or, with
/// the flag, the other way round.
fn two_dimensions(elem: Type, columns: u32, swapped: bool) -> (Build, Expr, Expr) {
    let mut b = Build::new();
    b.global("a", array_of(array_of(elem, columns), 4));
    let mut reg = Facts::none();
    reg.int_src = Some(IndexSource::Reg(Reg::Si));
    let mut mem = Facts::none();
    mem.int_src = Some(IndexSource::Mem("DGROUP:_j".to_string()));
    let (outer, inner) = if swapped { (mem, reg) } else { (reg, mem) };
    let i = b.expr(ExprKind::Ident("i".to_string()), outer);
    let j = b.expr(ExprKind::Ident("j".to_string()), inner);
    (b, i, j)
}

/// A machine with the two subscripts in their places.
fn with_subscripts(p: u16, q: u16, swapped: bool) -> Cpu {
    let mut cpu = Cpu::new();
    let (reg, mem) = if swapped { (q, p) } else { (p, q) };
    cpu.set(Reg::Si, reg);
    cpu.put_word(symbol("j"), mem);
    cpu
}

fn element_of(size: u16, unsigned: bool) -> Type {
    match (size, unsigned) {
        (1, false) => Type::Char,
        (1, true) => Type::UChar,
        (2, _) => Type::Int,
        _ => Type::Long,
    }
}

#[test]
fn elements_of_two_dimensions_at_file_scope_are_written() {
    for size in [1u16, 2, 4] {
        for columns in [1u16, 2, 3, 4, 5] {
            for swapped in [false, true] {
                let (mut b, i, j) =
                    two_dimensions(element_of(size, false), columns as u32, swapped);
                let value = b.num(0x8765_43C8);
                let (a, indices) = ("a".to_string(), vec![i, j]);
                let mut e = FunctionEmitter::new(&b.env);
                e.emit_array_assign(&a, &indices, &value);
                for (p, q) in [(0u16, 0u16), (1, columns - 1), (3, columns / 2)] {
                    let mut cpu = with_subscripts(p, q, swapped);
                    assert_eq!(cpu.run(&e.out), None);
                    let at = symbol("a") + (p * columns + q) * size;
                    only_changed(&with_subscripts(p, q, swapped), &cpu, at, size);
                    match size {
                        1 => assert_eq!(cpu.mem[at as usize], 0xC8),
                        2 => assert_eq!(cpu.word(at), 0x43C8),
                        _ => assert_eq!(cpu.long(at), 0x8765_43C8),
                    }
                }
            }
        }
    }
}

#[test]
fn elements_of_two_dimensions_at_file_scope_are_read() {
    for (size, unsigned) in [(1u16, false), (1, true), (2, false), (4, false)] {
        for columns in [2u16, 3, 5] {
            for swapped in [false, true] {
                let (mut b, i, j) =
                    two_dimensions(element_of(size, unsigned), columns as u32, swapped);
                let a = b.name("a");
                let row = b.expr(
                    ExprKind::ArrayIndex { array: Box::new(a), index: Box::new(i) },
                    Facts::none(),
                );
                let mut e = FunctionEmitter::new(&b.env);
                e.emit_array_index_to_ax(&row, &j);
                for (p, q) in [(0u16, 1u16), (1, columns - 1), (3, 0)] {
                    let mut cpu = with_subscripts(p, q, swapped);
                    let at = symbol("a") + (p * columns + q) * size;
                    cpu.put_word(at, 0x43C8);
                    assert_eq!(cpu.run(&e.out), None);
                    let expected = match (size, unsigned) {
                        (1, true) => 0xC8,
                        (1, false) => 0xFFC8,
                        _ => 0x43C8,
                    };
                    assert_eq!(cpu.get(Reg::Ax), expected);
                }
            }
        }
    }
}

#[test]
fn elements_of_two_dimensions_take_variables() {
    let (mut b, i, j) = two_dimensions(Type::ULong, 3, false);
    let whole = b.long_name("x");
    let (a, indices) = ("a".to_string(), vec![i, j]);
    let mut e = FunctionEmitter::new(&b.env);
    e.emit_array_assign(&a, &indices, &whole);
    let mut cpu = with_subscripts(2, 1, false);
    cpu.put_long(symbol("x"), 0xDEAD_BEEF);
    assert_eq!(cpu.run(&e.out), None);
    assert_eq!(cpu.long(symbol("a") + 28), 0xDEAD_BEEF);

    let (mut b, i, j) = two_dimensions(Type::Int, 3, false);
    let other = b.name("x");
    let indices = vec![i, j];
    let mut e = FunctionEmitter::new(&b.env);
    e.emit_array_assign(&a, &indices, &other);
    let mut cpu = with_subscripts(2, 1, false);
    cpu.computed = 0xBEEF;
    assert_eq!(cpu.run(&e.out), None);
    assert_eq!(cpu.word(symbol("a") + 14), 0xBEEF);
}

#[test]
fn larger_elements_of_two_dimensions_are_found() {
    let cell = || Type::Struct { name: Some("s".to_string()), fields: vec![], size: 6 };
    let (mut b, i, j) = two_dimensions(cell(), 3, false);
    let a = b.name("a");
    let row = b.expr(
        ExprKind::ArrayIndex { array: Box::new(a), index: Box::new(i) },
        Facts::none(),
    );
    let mut e = FunctionEmitter::new(&b.env);
    e.emit_array_index_to_ax(&row, &j);
    let mut cpu = with_subscripts(2, 1, false);
    assert_eq!(cpu.run(&e.out), None);
    assert_eq!(cpu.get(Reg::Ax), cpu.word(symbol("a") + 2 * 18 + 6));
}

#[test]
fn elements_behind_pointers_are_written() {
    for size in [1u16, 2, 4] {
        for loc in [LocalLocation::Reg(Reg::Di), LocalLocation::Stack(-6)] {
            for direct in [true, false] {
                let mut b = Build::new();
                b.local("p", Type::Pointer(Box::new(element_of(size, false))), loc);
                let mut facts = Facts::none();
                if direct {
                    facts.int_addr = Some("DGROUP:_i".to_string());
                }
                facts.source = Some(Source {
                    kind: SourceKind::Memory,
                    word: "word ptr DGROUP:_i".to_string(),
                    byte: "byte ptr DGROUP:_i".to_string(),
                });
                let index = vec![b.expr(ExprKind::Ident("i".to_string()), facts)];
                let value = b.num(0x8765_43C8);
                let name = "p".to_string();
                let mut e = FunctionEmitter::new(&b.env);
                e.emit_array_assign(&name, &index, &value);
                for i in [0u16, 1, 5, 0xFFFF] {
                    let start = || {
                        let mut cpu = Cpu::new();
                        cpu.set(Reg::Di, 0x700);
                        cpu.put_word(BP - 6, 0x700);
                        cpu.put_word(symbol("i"), i);
                        cpu
                    };
                    let mut cpu = start();
                    assert_eq!(cpu.run(&e.out), None);
                    let at = 0x700u16.wrapping_add(i.wrapping_mul(size));
                    only_changed(&start(), &cpu, at, size);
                    match size {
                        1 => assert_eq!(cpu.mem[at as usize], 0xC8),
                        2 => assert_eq!(cpu.word(at), 0x43C8),
                        _ => assert_eq!(cpu.long(at), 0x8765_43C8),
                    }
                }
            }
        }
    }
}

#[test]
fn elements_behind_pointers_take_variables() {
    let mut b = Build::new();
    b.local("p", Type::Pointer(Box::new(Type::Long)), LocalLocation::Reg(Reg::Di));
    b.local("s", Type::Pointer(Box::new(Type::Char)), LocalLocation::Reg(Reg::Di));
    b.local("i", Type::Int, LocalLocation::Reg(Reg::Si));
    b.local("c", Type::Char, LocalLocation::Stack(-1));
    let mut facts = Facts::none();
    facts.source = Some(Source {
        kind: SourceKind::Reg(Reg::Si),
        word: "si".to_string(),
        byte: "al".to_string(),
    });
    let index = vec![b.expr(ExprKind::Ident("i".to_string()), facts)];
    let whole = b.long_name("x");
    let (p, s) = ("p".to_string(), "s".to_string());
    let mut e = FunctionEmitter::new(&b.env);
    e.emit_array_assign(&p, &index, &whole);
    let mut cpu = Cpu::new();
    cpu.set(Reg::Di, 0x700);
    cpu.set(Reg::Si, 3);
    cpu.put_long(symbol("x"), 0xDEAD_BEEF);
    assert_eq!(cpu.run(&e.out), None);
    assert_eq!(cpu.long(0x70C), 0xDEAD_BEEF);

    let c = b.name("c");
    let mut e = FunctionEmitter::new(&b.env);
    e.emit_array_assign(&s, &index, &c);
    let mut cpu = Cpu::new();
    cpu.set(Reg::Di, 0x700);
    cpu.set(Reg::Si, 3);
    cpu.mem[(BP - 1) as usize] = 200;
    assert_eq!(cpu.run(&e.out), None);
    assert_eq!(cpu.mem[0x703], 200);
}

#[test]
fn longs_behind_far_pointers_are_written_whole() {
    let mut b = Build::new();
    let far = Type::FarPointer { pointee: Box::new(Type::Long), is_huge: false };
    b.local("p", far, LocalLocation::Stack(-4));
    let index = vec![b.num(3)];
    let value = b.num(0x1234_5678);
    let name = "p".to_string();
    let mut e = FunctionEmitter::new(&b.env);
    e.emit_array_assign(&name, &index, &value);
    assert_eq!(e.out.len(), 3);
    let stores: Vec<(Disp, i64)> = e.out[1..]
        .iter()
        .map(|step| match step {
            Step::Op2(
                Mnemonic::Mov,
                Operand::Mem(Width::Word, Addr::Seg(Reg::Es, Reg::Bx, d)),
                Operand::Imm(n),
            ) => (*d, *n),
            other => panic!("{:?}", other),
        })
        .collect();
    assert!(stores == vec![(Disp::Plus(14), 0x1234), (Disp::Plus(12), 0x5678)]);
}
