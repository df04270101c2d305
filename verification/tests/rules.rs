//! What is emitted and what is found out, case by case.

use bcc::ast::{BinOp, Expr, ExprKind, Span, Type, UpdateOp, UpdatePosition};
use bcc::codegen::classify::VarIdxKind;
use bcc::codegen::emitter::{FunctionEmitter, Step};
use bcc::codegen::env::{Chain, Env, Facts, GlobalVar, Local, LocalLocation, Note, PseudoRegister};
use bcc::isa::Reg;

struct Build {
    env: Env,
    next: u32,
}

impl Build {
    fn new() -> Build {
        let mut b = Build {
            env: Env {
                locals: vec![],
                globals: vec![],
                signatures: vec![],
                pseudo_registers: vec![],
                notes: vec![],
                no_facts: Facts::none(),
                struct_tmp: -40,
            },
            next: 0,
        };
        b.local("p", Type::Pointer(Box::new(Type::Char)), LocalLocation::Reg(Reg::Si));
        b.local("q", Type::Pointer(Box::new(Type::Int)), LocalLocation::Stack(-2));
        b.local("r", Type::Pointer(Box::new(Type::Int)), LocalLocation::Reg(Reg::Di));
        b.local("i", Type::Int, LocalLocation::Reg(Reg::Dx));
        b.local("c", Type::Char, LocalLocation::Stack(-3));
        b.local("t", ints(4), LocalLocation::Stack(-12));
        b.global("u", Type::UChar);
        b.global("a", ints(8));
        b.global("names", Type::Array {
            elem: Box::new(Type::Pointer(Box::new(Type::Char))),
            len: 3,
        });
        for (name, reg) in [("_AX", Reg::Ax), ("_DL", Reg::Dl)] {
            b.env.pseudo_registers.push(PseudoRegister { name: name.to_string(), reg });
        }
        b
    }

    fn local(&mut self, name: &str, ty: Type, loc: LocalLocation) {
        self.env.locals.push(Local {
            name: name.to_string(),
            ty,
            loc,
            seg: None,
            is_selector: false,
        });
    }

    fn global(&mut self, name: &str, ty: Type) {
        self.env.globals.push(GlobalVar { name: name.to_string(), ty });
    }

    fn expr(&mut self, kind: ExprKind, facts: Facts) -> Expr {
        self.next += 1;
        let span = Span { start: self.next, end: self.next + 1 };
        self.env.notes.push(Note { span, facts });
        Expr { kind, span }
    }

    fn num(&mut self, k: u32) -> Expr {
        let mut facts = Facts::none();
        facts.const_value = Some(k);
        self.expr(ExprKind::IntLit(k), facts)
    }

    fn name(&mut self, name: &str) -> Expr {
        self.expr(ExprKind::Ident(name.to_string()), Facts::none())
    }

    fn deref(&mut self, inner: Expr) -> Expr {
        self.expr(ExprKind::Deref(Box::new(inner)), Facts::none())
    }

    fn index(&mut self, array: Expr, index: Expr) -> Expr {
        let kind = ExprKind::ArrayIndex { array: Box::new(array), index: Box::new(index) };
        self.expr(kind, Facts::none())
    }
}

fn ints(len: u32) -> Type {
    Type::Array { elem: Box::new(Type::Int), len }
}

/// The lines of the steps; a step that another part expands is named.
fn lines(out: &[Step]) -> Vec<String> {
    out.iter()
        .map(|s| match s.render() {
            Some(text) => text.trim().replace('\t', " "),
            None => match s {
                Step::ToAx(..) => "to ax".to_string(),
                other => format!("{:?}", other),
            },
        })
        .collect()
}

#[test]
fn registers_that_the_source_names() {
    let mut b = Build::new();
    let value = b.num(0x1_02FF);
    let (whole, half) = ("_AX".to_string(), "_DL".to_string());
    let mut e = FunctionEmitter::new(&b.env);
    e.emit_assign_pseudo_register(&whole, &value);
    e.emit_assign_pseudo_register(&half, &value);
    assert_eq!(lines(&e.out), ["mov ax,767", "mov dl,255"]);
}

#[test]
fn ax_is_stored_through_pointers() {
    let mut b = Build::new();
    let p = b.name("p");
    let through_register = b.deref(p);
    let q = b.name("q");
    let through_slot = b.deref(q);
    let kind = ExprKind::Update {
        target: "r".to_string(),
        op: UpdateOp::Inc,
        position: UpdatePosition::Post,
    };
    let step = b.expr(kind, Facts::none());
    let through_step = b.deref(step);

    let mut e = FunctionEmitter::new(&b.env);
    e.emit_store_ax_to_lvalue(&through_register);
    assert_eq!(lines(&e.out), ["mov byte ptr [si],al"]);

    let mut e = FunctionEmitter::new(&b.env);
    e.emit_store_ax_to_lvalue(&through_slot);
    assert_eq!(lines(&e.out), ["mov bx,word ptr [bp-2]", "mov word ptr [bx],ax"]);

    let mut e = FunctionEmitter::new(&b.env);
    e.emit_store_ax_to_lvalue(&through_step);
    assert_eq!(lines(&e.out), ["mov bx,di", "inc di", "inc di", "mov word ptr [bx],ax"]);
}

#[test]
fn the_address_may_come_before_the_value() {
    let mut b = Build::new();
    let (t, i) = (b.name("t"), b.name("i"));
    let target = b.index(t, i);
    let (t, k) = (b.name("t"), b.num(1));
    let fixed = b.index(t, k);
    let value = b.name("c");
    let mut e = FunctionEmitter::new(&b.env);
    assert!(e.try_emit_assign_lvalue_addr_first(&target, &value));
    assert_eq!(
        lines(&e.out),
        [
            "mov bx,dx",
            "shl bx,1",
            "lea ax,word ptr [bp-12]",
            "add bx,ax",
            "to ax",
            "mov word ptr [bx],ax",
        ],
    );
    let mut e = FunctionEmitter::new(&b.env);
    assert!(!e.try_emit_assign_lvalue_addr_first(&fixed, &value));
    assert!(e.out.is_empty());
}

#[test]
fn offsets_from_pointers() {
    let mut b = Build::new();
    let (p, q) = ("p".to_string(), "q".to_string());
    let three = b.num(3);
    let mut facts = Facts::none();
    facts.int_addr = Some("DGROUP:_n".to_string());
    let n = b.expr(ExprKind::Ident("n".to_string()), facts);
    let i = b.name("i");
    let (chr, whole) = (Type::Char, Type::Int);

    let mut e = FunctionEmitter::new(&b.env);
    e.emit_deref_pointer_plus_offset(&p, &chr, &three);
    assert_eq!(lines(&e.out), ["mov al,byte ptr [si+3]", "cbw"]);

    let mut e = FunctionEmitter::new(&b.env);
    e.emit_deref_pointer_plus_offset(&q, &whole, &three);
    assert_eq!(lines(&e.out), ["mov bx,word ptr [bp-2]", "mov ax,word ptr [bx+6]"]);

    let mut e = FunctionEmitter::new(&b.env);
    e.emit_deref_pointer_plus_offset(&p, &chr, &n);
    assert_eq!(
        lines(&e.out),
        ["mov bx,si", "add bx,word ptr DGROUP:_n", "mov al,byte ptr [bx]", "cbw"],
    );

    let mut e = FunctionEmitter::new(&b.env);
    e.emit_deref_pointer_plus_offset(&q, &whole, &i);
    assert_eq!(
        lines(&e.out),
        [
            "to ax",
            "shl ax,1",
            "mov bx,word ptr [bp-2]",
            "add bx,ax",
            "mov ax,word ptr [bx]",
        ],
    );
}

#[test]
fn variables_are_classified() {
    let b = Build::new();
    let name = |n: &str| n.to_string();
    assert!(b.env.ident_is_uchar(&name("u")));
    assert!(!b.env.ident_is_uchar(&name("c")));
    assert!(!b.env.ident_is_uchar(&name("missing")));
    assert!(matches!(
        b.env.classify_var_idx_array(&name("t")),
        Some((Type::Int, VarIdxKind::StackArr(-12, 2)))
    ));
    assert!(matches!(
        b.env.classify_var_idx_array(&name("q")),
        Some((Type::Int, VarIdxKind::PtrInt))
    ));
    assert!(matches!(
        b.env.classify_var_idx_array(&name("a")),
        Some((Type::Int, VarIdxKind::GlobalArr))
    ));
    assert!(b.env.classify_var_idx_array(&name("i")).is_none());
}

#[test]
fn characters_are_loaded() {
    let mut b = Build::new();
    let (c, i, u) = (b.name("c"), b.name("i"), b.name("u"));
    let p = b.name("p");
    let behind_p = b.deref(p);
    let q = b.name("q");
    let behind_q = b.deref(q);
    let (p, k) = (b.name("p"), b.num(2));
    let element = b.index(p, k);
    let (names, k) = (b.name("names"), b.num(1));
    let row = b.index(names, k);
    let k = b.num(0);
    let letter = b.index(row, k);
    let mut facts = Facts::none();
    facts.chain = Some(Chain { name: "s".to_string(), off: 2, ty: Type::UChar });
    let member = b.expr(ExprKind::IntLit(0), facts);
    for (e, expected) in [
        (&c, true),
        (&i, false),
        (&u, true),
        (&behind_p, true),
        (&behind_q, false),
        (&element, true),
        (&letter, true),
        (&member, true),
    ] {
        assert_eq!(b.env.expr_is_char_load(e), expected);
    }
}

#[test]
fn long_conditions_are_recognized() {
    let mut b = Build::new();
    b.global("g", Type::Long);
    b.global("n", Type::Int);
    let mut both = |op: BinOp, left: &str, right: &str| {
        let (x, y) = (b.name(left), b.name(right));
        b.expr(ExprKind::BinOp { op, left: Box::new(x), right: Box::new(y) }, Facts::none())
    };
    let (less, unlike, swapped) =
        (both(BinOp::Lt, "g", "n"), both(BinOp::Ne, "g", "n"), both(BinOp::Lt, "n", "g"));
    let longs = both(BinOp::Ge, "g", "g");
    let (g, small) = (b.name("g"), b.num(0x7F_0001));
    let near = b.expr(
        ExprKind::BinOp { op: BinOp::Ne, left: Box::new(g), right: Box::new(small) },
        Facts::none(),
    );
    let (g, large) = (b.name("g"), b.num(0x80));
    let wide = b.expr(
        ExprKind::BinOp { op: BinOp::Ne, left: Box::new(g), right: Box::new(large) },
        Facts::none(),
    );
    assert!(b.env.is_long_vs_int_cmp(&less));
    assert!(!b.env.is_long_vs_int_cmp(&unlike));
    assert!(!b.env.is_long_vs_int_cmp(&swapped));
    assert!(b.env.is_long_vs_int_ne(&unlike));
    assert!(b.env.is_long_signed_globals_cmp(&longs));
    assert!(!b.env.is_long_signed_globals_cmp(&less));
    assert!(b.env.is_long_ne_const(&near));
    assert!(!b.env.is_long_ne_const(&wide));
}

#[test]
fn updates_of_pointers_are_folded_only_by_one() {
    let mut b = Build::new();
    b.global("s", Type::Pointer(Box::new(Type::Char)));
    b.global("w", Type::Pointer(Box::new(Type::Int)));
    let ty = Type::Pointer(Box::new(Type::Int));
    let cases = [
        ("p", vec!["mov word ptr [bp-8],si", "inc si"]),
        ("i", vec!["mov word ptr [bp-8],dx", "inc dx"]),
        ("r", vec!["to ax"]),
        ("s", vec!["mov ax,word ptr DGROUP:_s", "mov word ptr [bp-8],ax"]),
        ("w", vec!["to ax"]),
    ];
    for (target, expected) in cases {
        let kind = ExprKind::Update {
            target: target.to_string(),
            op: UpdateOp::Inc,
            position: UpdatePosition::Post,
        };
        let value = b.expr(kind, Facts::none());
        let mut e = FunctionEmitter::new(&b.env);
        e.emit_assign_local(LocalLocation::Stack(-8), &ty, &value);
        assert_eq!(lines(&e.out)[..expected.len()], expected);
    }
}
