//! The text of instructions.

use bcc::codegen::emitter::{
    add_to, call, cbw, clear, cwd, lea, mov, op1, op2, push, widen, widen_long, FunctionEmitter,
    Step,
};
use bcc::codegen::env::{Env, Facts};
use bcc::isa::{
    acc, al, at, at_disp, ax, bp, bp2, bp_plus, byte, disp, elem, elem2, elem_at, given, global,
    global2, global_at, imm, named, offset_of, offset_of_code, plus, r, seg_at, signed, sized,
    wide, word, Addr, Disp, Helper, Jcc, Mnemonic, Operand, Reg, Width,
};
use bcc::render::{decimal_of, integer_of};

fn line(s: Step) -> String {
    s.render().unwrap()
}

#[test]
fn numbers_in_decimal() {
    assert_eq!(decimal_of(0), "0");
    assert_eq!(decimal_of(7), "7");
    assert_eq!(decimal_of(10), "10");
    assert_eq!(decimal_of(65535), "65535");
    assert_eq!(decimal_of(u64::MAX), u64::MAX.to_string());
    assert_eq!(integer_of(-1), "-1");
    assert_eq!(integer_of(i64::MIN), i64::MIN.to_string());
    for n in [1u64, 9, 99, 100, 1234567890] {
        assert_eq!(decimal_of(n).parse::<u64>().unwrap(), n);
    }
}

#[test]
fn displacements() {
    assert_eq!(plus(0).render(), "");
    assert_eq!(plus(4).render(), "+4");
    assert_eq!(plus(-4).render(), "+-4");
    assert_eq!(signed(-4).render(), "-4");
    assert_eq!(signed(4).render(), "+4");
    assert_eq!(disp(0).render(), "");
}

#[test]
fn addresses() {
    let g = "count".to_string();
    assert_eq!(bp(-4).render(), "[bp-4]");
    assert_eq!(bp(4).render(), "[bp+4]");
    assert_eq!(bp2(-4).render(), "[bp-2]");
    assert_eq!(bp_plus(-10, 6).render(), "[bp-4]");
    assert_eq!(at(Reg::Si).render(), "[si]");
    assert_eq!(at_disp(Reg::Bx, Disp::Plus(2)).render(), "[bx+2]");
    assert_eq!(Addr::Indexed(Reg::Bp, Reg::Si, signed(-8)).render(), "[bp+si-8]");
    assert_eq!(seg_at(Reg::Es, Reg::Bx).render(), "es:[bx]");
    assert_eq!(seg_at(Reg::Ds, Reg::Bx).render(), "[bx]");
    assert_eq!(global(&g).render(), "DGROUP:_count");
    assert_eq!(global2(&g).render(), "DGROUP:_count+2");
    assert_eq!(global_at(&g, signed(-2)).render(), "DGROUP:_count-2");
    assert_eq!(elem(&g, Reg::Bx).render(), "DGROUP:_count[bx]");
    assert_eq!(elem2(&g, Reg::Bx).render(), "DGROUP:_count[bx+2]");
    assert_eq!(elem_at(&g, Disp::Plus(4), Reg::Si).render(), "DGROUP:_count+4[si]");
    let t = "[di]".to_string();
    assert_eq!(named(&t).render(), "[di]");
}

#[test]
fn operands() {
    let g = "x".to_string();
    let bytes = vec![104u8, 105];
    assert_eq!(ax().render().unwrap(), "ax");
    assert_eq!(imm(-1).render().unwrap(), "-1");
    assert_eq!(word(bp(-2)).render().unwrap(), "word ptr [bp-2]");
    assert_eq!(byte(at(Reg::Di)).render().unwrap(), "byte ptr [di]");
    assert_eq!(sized(true, global(&g)).render().unwrap(), "byte ptr DGROUP:_x");
    assert_eq!(wide(Width::Qword, bp(-8)).render().unwrap(), "qword ptr [bp-8]");
    assert_eq!(wide(Width::Dword, bp(-8)).render().unwrap(), "dword ptr [bp-8]");
    assert_eq!(offset_of(&g, Disp::Plus(2)).render().unwrap(), "offset DGROUP:_x+2");
    assert_eq!(offset_of_code(&g).render().unwrap(), "offset _x");
    assert_eq!(given(&g).render().unwrap(), "x");
    assert!(Operand::Pooled(&bytes).render().is_none());
    assert_eq!(acc(true).render().unwrap(), "al");
}

#[test]
fn instruction_lines() {
    let g = "g".to_string();
    assert_eq!(line(mov(ax(), word(global(&g)))), "\tmov\tax,word ptr DGROUP:_g\r\n");
    assert_eq!(line(add_to(r(Reg::Si), imm(4))), "\tadd\tsi,4\r\n");
    assert_eq!(line(lea(ax(), bp(-6))), "\tlea\tax,word ptr [bp-6]\r\n");
    assert_eq!(line(push(word(global2(&g)))), "\tpush\tword ptr DGROUP:_g+2\r\n");
    assert_eq!(line(cbw()), "\tcbw\t\r\n");
    assert_eq!(line(cwd()), "\tcwd\t\r\n");
    assert_eq!(line(clear(Reg::Dx)), "\txor\tdx,dx\r\n");
    assert_eq!(line(widen(true)), "\tmov\tah,0\r\n");
    assert_eq!(line(widen(false)), "\tcbw\t\r\n");
    assert_eq!(line(widen_long(true)), "\txor\tdx,dx\r\n");
    assert_eq!(line(op1(Mnemonic::Neg, al())), "\tneg\tal\r\n");
    assert_eq!(line(op2(Mnemonic::Rcr, r(Reg::Dx), imm(1))), "\trcr\tdx,1\r\n");
    assert_eq!(line(call(Helper::LongMul)), "\tcall\tnear ptr N_LXMUL@\r\n");
    assert_eq!(line(call(Helper::ULongShr)), "\tcall\tnear ptr N_LXURSH@\r\n");
}

#[test]
fn jumps_take_the_text_of_their_label() {
    let j = Step::Jump(Jcc::Jae, 3);
    assert_eq!(j.render_jump("@1@98").unwrap(), "\tjae\tshort @1@98\r\n");
    assert_eq!(Step::Goto(3).render_jump("@1@98").unwrap(), "\tjmp\tshort @1@98\r\n");
    assert!(j.render().is_none());
    assert!(cbw().render_jump("@1@98").is_none());
    assert!(Step::Label(1).render().is_none());
}

#[test]
fn every_line_is_delimited() {
    for s in [cbw(), push(ax()), mov(ax(), imm(1)), call(Helper::StructCopy)] {
        let text = line(s);
        assert!(text.starts_with('\t') && text.ends_with("\r\n"));
    }
}

#[test]
fn the_text_of_an_emission() {
    let env = Env {
        locals: vec![],
        globals: vec![],
        signatures: vec![],
        pseudo_registers: vec![],
        notes: vec![],
        no_facts: Facts::none(),
        struct_tmp: 0,
    };
    let mut e = FunctionEmitter::new(&env);
    assert_eq!(e.text().unwrap(), "");
    e.put(mov(ax(), imm(7)));
    e.put_times(push(ax()), 2);
    assert_eq!(e.text().unwrap(), "\tmov\tax,7\r\n\tpush\tax\r\n\tpush\tax\r\n");
    e.put(Step::Goto(1));
    e.put(cbw());
    assert!(e.text().is_none());
}
