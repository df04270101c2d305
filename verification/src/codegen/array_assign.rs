//! Assignment to array elements.

use vstd::prelude::*;
use crate::ast::{BinOp, Expr, ExprKind, Type, UpdatePosition};
use crate::codegen::array_addr::names_char_local;
use crate::codegen::array_index::is_in_si;
use crate::codegen::assign_global::float_width;
use crate::codegen::emitter::{
    add_to, lea, mov, op1, op2, shl1, to_ax, Cx, FunctionEmitter, Plan, Step,
};
use crate::codegen::env::{is_plain_int, same_name, Env, Local, LocalLocation, Source, SourceKind};
use crate::isa::{
    acc, al, at, at2, at_disp, ax, bp, bp_plus, bp_plus2, bx, byte, disp, disp2, dx, elem, elem2,
    given, global, global_at, imm, lo8, masked, named, offset_of_code, plus, r, sat16, scaled,
    scales, signed8, signed_of, sized, update, uscaled, wide, word, Addr, Disp, Mnemonic, Operand,
    Reg,
};

verus! {

/// The name of a function that an expression is.
#[verifier::allow_in_spec]
pub fn function_name<'b>(env: &Env, e: &'b Expr) -> Option<&'b String>
    returns
        (match &e.kind {
            ExprKind::Ident(n) => if !env.has(n) && !env.is_global(n) && env.ret_ty_of(n).is_some() {
                Some(n)
            } else {
                None
            },
            _ => None,
        }),
{
    match &e.kind {
        ExprKind::Ident(n) => if !env.has(n) && !env.is_global(n) && env.ret_ty_of(n).is_some() {
            Some(n)
        } else {
            None
        },
        _ => None,
    }
}

/// The address of a function, into an array of pointers on the stack.
pub open spec fn plan_elem_function_local<'a>(
    cx: Cx<'a>,
    array: &'a String,
    indices: Seq<&'a Expr>,
    value: &'a Expr,
) -> Plan<'a> {
    if indices.len() == 1 {
        if let Some(k) = cx.env.const_of(indices[0]) {
            if let Some(f) = function_name(cx.env, value) {
                if let Some(t) = cx.env.local_elem(array) {
                    if t.pointee().is_some() {
                        if let Some(base) = cx.env.stack_of(array) {
                            Plan::Emit(seq![
                                mov(word(bp_plus(base, sat16(scaled(k, (t.size() as u16))))), offset_of_code(f)),
                            ])
                        } else {
                            Plan::Skip
                        }
                    } else {
                        Plan::Skip
                    }
                } else {
                    Plan::Skip
                }
            } else {
                Plan::Skip
            }
        } else {
            Plan::Skip
        }
    } else {
        Plan::Skip
    }
}

/// The address of a function, into a file-scope array of pointers.
pub open spec fn plan_elem_function_global<'a>(
    cx: Cx<'a>,
    array: &'a String,
    indices: Seq<&'a Expr>,
    value: &'a Expr,
) -> Plan<'a> {
    if indices.len() == 1 {
        if let Some(k) = cx.env.const_of(indices[0]) {
            if let Some(f) = function_name(cx.env, value) {
                if let Some(t) = cx.env.global_elem(array) {
                    if t.pointee().is_some() {
                        Plan::Emit(seq![
                            mov( word(global_at(array, plus(uscaled(k, (t.size() as u16)) as i64))), offset_of_code(f)),
                        ])
                    } else {
                        Plan::Skip
                    }
                } else {
                    Plan::Skip
                }
            } else {
                Plan::Skip
            }
        } else {
            Plan::Skip
        }
    } else {
        Plan::Skip
    }
}

/// An element behind a far pointer on the stack.
pub open spec fn plan_elem_far<'a>(
    cx: Cx<'a>,
    l: &'a Local,
    t: &'a Type,
    k: u32,
    value: &'a Expr,
) -> Plan<'a> {
    if let Type::FarPointer { pointee: _, is_huge: _ } = &l.ty {
        if let LocalLocation::Stack(off) = l.loc {
            if scales(k, (t.size() as u16)) {
                let d = signed_of(uscaled(k, (t.size() as u16)));
                Plan::Emit(seq![op2(Mnemonic::Les, bx(), word(bp(off)))]).followed_by(
                    if t.is_long_like() {
                        crate::codegen::common::plan_store_long(cx, Addr::Seg(Reg::Es, Reg::Bx, Disp::Plus((d + 2) as i64)), Addr::Seg(Reg::Es, Reg::Bx, plus(d)), value)
                    } else {
                        crate::codegen::common::plan_store_value(cx, t.is_char_like(), Addr::Seg(Reg::Es, Reg::Bx, plus(d)), value)
                    },
                )
            } else {
                Plan::Stuck
            }
        } else {
            Plan::Skip
        }
    } else {
        Plan::Skip
    }
}

/// A constant element behind a pointer in a register.
pub open spec fn plan_elem_near<'a>(
    cx: Cx<'a>,
    l: &'a Local,
    t: &'a Type,
    k: u32,
    value: &'a Expr,
) -> Plan<'a> {
    if let LocalLocation::Reg(reg) = l.loc {
        if scales(k, (t.size() as u16)) {
            if let Some(v) = cx.env.const_of(value) {
                let d = signed_of(uscaled(k, (t.size() as u16)));
                if t.is_long_like() {
                    crate::codegen::common::plan_store_long_const(cx, at_disp(reg, Disp::Plus((d + 2) as i64)), at_disp(reg, plus(d)), v)
                } else {
                    Plan::Emit(seq![
                        mov( sized(t.is_char_like(), at_disp(reg, plus(d))), imm(masked(v, t.is_char_like()))),
                    ])
                }
            } else {
                Plan::Stuck
            }
        } else {
            Plan::Stuck
        }
    } else {
        Plan::Stuck
    }
}

/// `p[k] = v` for a local pointer.
pub open spec fn plan_elem_pointer_const<'a>(
    cx: Cx<'a>,
    array: &'a String,
    indices: Seq<&'a Expr>,
    value: &'a Expr,
) -> Plan<'a> {
    if let Some(l) = cx.env.local(array) {
        if let Some(t) = l.ty.pointee() {
            if indices.len() == 1 {
                if let Some(k) = cx.env.const_of(indices[0]) {
                    match plan_elem_far(cx, l, t, k, value) {
                        Plan::Skip => {
                            plan_elem_near(cx, l, t, k, value)
                        },
                        taken => taken,
                    }
                } else {
                    Plan::Skip
                }
            } else {
                Plan::Skip
            }
        } else {
            Plan::Skip
        }
    } else {
        Plan::Skip
    }
}

/// A 32-bit element at a constant place in a file-scope array.
pub open spec fn plan_elem_global_const_long<'a>(
    cx: Cx<'a>,
    array: &'a String,
    off: i32,
    leaf: &'a Type,
    value: &'a Expr,
) -> Plan<'a> {
    if leaf.is_long_like() {
        match cx.env.const_of(value) {
            Some(v) => {
                crate::codegen::common::plan_store_long_const(cx, global_at(array, disp2(off)), global_at(array, disp(off)), v)
            },
            None => {
                if cx.env.facts(value).long_storable {
                    Plan::Emit(seq![
                        Step::LongTo(value, global_at(array, disp2(off)), global_at(array, disp(off))),
                    ])
                } else {
                    Plan::Stuck
                }
            },
        }
    } else {
        Plan::Skip
    }
}

/// An element at a constant place in a file-scope array.
pub open spec fn plan_elem_global_const<'a>(
    cx: Cx<'a>,
    array: &'a String,
    gty: &'a Type,
    indices: Seq<&'a Expr>,
    value: &'a Expr,
) -> Plan<'a> {
    if let Some((off, leaf)) = cx.env.spec_const_array_offset(gty, indices) {
        match plan_elem_global_const_long(cx, array, off, leaf, value) {
            Plan::Skip => {
                crate::codegen::common::plan_store_value(cx, leaf.is_char_like(), global_at(array, disp(off)), value)
            },
            taken => taken,
        }
    } else {
        Plan::Skip
    }
}

/// `p[k] = v` for a file-scope pointer to integers.
pub open spec fn plan_elem_global_pointer<'a>(
    cx: Cx<'a>,
    array: &'a String,
    gty: &'a Type,
    indices: Seq<&'a Expr>,
    value: &'a Expr,
) -> Plan<'a> {
    if let Some(t) = gty.pointee() {
        if indices.len() == 1 {
            if let Some(k) = cx.env.const_of(indices[0]) {
                if is_plain_int(t) {
                    Plan::Emit(seq![mov(bx(), word(global(array)))]).followed_by(
                        crate::codegen::common::plan_store_value(cx, false, at_disp(Reg::Bx, disp(scaled(k, (t.size() as u16)))), value),
                    )
                } else {
                    Plan::Skip
                }
            } else {
                Plan::Skip
            }
        } else {
            Plan::Skip
        }
    } else {
        Plan::Skip
    }
}

/// `p[k] = v` for a file-scope pointer to 32-bit integers.
pub open spec fn plan_elem_global_pointer_long<'a>(
    cx: Cx<'a>,
    array: &'a String,
    gty: &'a Type,
    indices: Seq<&'a Expr>,
    value: &'a Expr,
) -> Plan<'a> {
    if let Some(t) = gty.pointee() {
        if indices.len() == 1 {
            if let Some(k) = cx.env.const_of(indices[0]) {
                if t.is_long_like() {
                    if let Some(v) = cx.env.const_of(value) {
                        Plan::Emit(seq![mov(bx(), word(global(array)))]).followed_by(
                            crate::codegen::common::plan_store_long_const(cx, at_disp(Reg::Bx, disp2(scaled(k, (t.size() as u16)))), at_disp(Reg::Bx, disp(scaled(k, (t.size() as u16)))), v),
                        )
                    } else {
                        Plan::Stuck
                    }
                } else {
                    Plan::Skip
                }
            } else {
                Plan::Skip
            }
        } else {
            Plan::Skip
        }
    } else {
        Plan::Skip
    }
}

/// The byte operand of a local character variable.
#[verifier::allow_in_spec]
pub fn char_source<'b>(env: &Env, e: &'b Expr) -> Option<Operand<'b>>
    returns
        (match &e.kind {
            ExprKind::Ident(n) => match env.local(n) {
                Some(l) => if l.ty.is_char_like() {
                    match l.loc {
                        LocalLocation::Stack(off) => Some(byte(bp(off))),
                        LocalLocation::Reg(reg) => if reg.is_byte() { Some(r(reg)) } else { None },
                    }
                } else {
                    None
                },
                None => None,
            },
            _ => None,
        }),
{
    match &e.kind {
        ExprKind::Ident(n) => match env.local(n) {
            Some(l) => if l.ty.is_char_like() {
                match l.loc {
                    LocalLocation::Stack(off) => Some(byte(bp(off))),
                    LocalLocation::Reg(reg) => if reg.is_byte() { Some(r(reg)) } else { None },
                }
            } else {
                None
            },
            None => None,
        },
        _ => None,
    }
}

/// Stores a character; a local character variable is not widened on the
/// way, and with the flag no other character is.
pub open spec fn plan_store_char<'a>(
    cx: Cx<'a>,
    a: Addr<'a>,
    value: &'a Expr,
    narrow: bool,
) -> Plan<'a> {
    match (cx.env.const_of(value), char_source(cx.env, value)) {
        (Some(v), _) => {
            Plan::Emit(seq![mov(byte(a), imm(lo8(v)))])
        },
        (None, Some(src)) => {
            Plan::Emit(seq![
                mov(al(), src),
                mov(byte(a), al()),
            ])
        },
        (None, None) => {
            Plan::Emit(seq![
                Step::ToAx(value, narrow || cx.skip_widen),
                mov(byte(a), al()),
            ])
        },
    }
}

/// A character of a file-scope array, subscripted by `si`.
pub open spec fn plan_elem_global_si<'a>(
    cx: Cx<'a>,
    array: &'a String,
    gty: &'a Type,
    indices: Seq<&'a Expr>,
    value: &'a Expr,
) -> Plan<'a> {
    if indices.len() == 1 {
        if let Some(t) = gty.array_elem() {
            if t.is_char_like() {
                if is_in_si(cx.env, indices[0]) {
                    plan_store_char(cx, elem(array, Reg::Si), value, true)
                } else {
                    Plan::Skip
                }
            } else {
                Plan::Skip
            }
        } else {
            Plan::Skip
        }
    } else {
        Plan::Skip
    }
}

/// Whether an expression is a given variable.
#[verifier::allow_in_spec]
pub fn is_name(e: &Expr, name: &String) -> bool
    returns
        (match &e.kind {
            ExprKind::Ident(n) => same_name(n, name),
            _ => false,
        }),
{
    match &e.kind {
        ExprKind::Ident(n) => same_name(n, name),
        _ => false,
    }
}

/// A character of a file-scope array, subscripted by a register that forms
/// no address.
pub open spec fn plan_elem_global_register<'a>(
    cx: Cx<'a>,
    array: &'a String,
    gty: &'a Type,
    indices: Seq<&'a Expr>,
    value: &'a Expr,
) -> Plan<'a> {
    if indices.len() == 1 {
        if let Some(t) = gty.array_elem() {
            if t.is_char_like() {
                if let ExprKind::Ident(i) = &indices[0].kind {
                    if let Some(reg) = cx.env.word_reg_of(i) {
                        if is_name(value, i) && reg.low().is_some() {
                            if let Some(low) = reg.low() {
                                Plan::Emit(seq![
                                    mov(bx(), r(reg)),
                                    mov(al(), r(low)),
                                    mov(byte(elem(array, Reg::Bx)), al()),
                                ])
                            } else {
                                Plan::Stuck
                            }
                        } else {
                            match cx.env.const_of(value) {
                                Some(v) => {
                                    Plan::Emit(seq![
                                        mov(bx(), r(reg)),
                                        mov(byte(elem(array, Reg::Bx)), imm(lo8(v))),
                                    ])
                                },
                                None => {
                                    Plan::Emit(seq![
                                        to_ax(cx, value),
                                        mov(bx(), r(reg)),
                                        mov(byte(elem(array, Reg::Bx)), al()),
                                    ])
                                },
                            }
                        }
                    } else {
                        Plan::Skip
                    }
                } else {
                    Plan::Skip
                }
            } else {
                Plan::Skip
            }
        } else {
            Plan::Skip
        }
    } else {
        Plan::Skip
    }
}

/// Whether a value can stand as an operand by itself.
#[verifier::allow_in_spec]
pub fn is_operand(env: &Env, e: &Expr) -> bool
    returns
        (env.const_of(e).is_some() || (match &e.kind {
            ExprKind::Ident(_) => true,
            ExprKind::IntLit(_) => true,
            ExprKind::Deref(_) => true,
            ExprKind::Member { base: _, field: _, kind: _ } => true,
            ExprKind::ArrayIndex { array: _, index: _ } => env.facts(e).chain.is_some(),
            _ => false,
        })),
{
    env.const_of(e).is_some() || (match &e.kind {
        ExprKind::Ident(_) => true,
        ExprKind::IntLit(_) => true,
        ExprKind::Deref(_) => true,
        ExprKind::Member { base: _, field: _, kind: _ } => true,
        ExprKind::ArrayIndex { array: _, index: _ } => env.facts(e).chain.is_some(),
        _ => false,
    })
}

/// Whether an operand is neither an immediate nor a register.
#[verifier::allow_in_spec]
pub fn is_memory_source(src: &Source) -> bool
    returns
        (match src.kind {
            SourceKind::Immediate => false,
            SourceKind::Reg(_) => false,
            _ => true,
        }),
{
    match src.kind {
        SourceKind::Immediate => false,
        SourceKind::Reg(_) => false,
        _ => true,
    }
}

/// `a[i++] = v` with `i` in a register: the update comes last.
pub open spec fn plan_elem_int_post<'a>(
    cx: Cx<'a>,
    array: &'a String,
    index: &'a Expr,
    src: &'a Source,
) -> Plan<'a> {
    if let ExprKind::Update { target, op, position: UpdatePosition::Post } = &index.kind {
        if let Some(reg) = cx.env.word_reg_of(target) {
            Plan::Emit(seq![
                mov(bx(), r(reg)),
                shl1(bx()),
                mov(word(elem(array, Reg::Bx)), given(&src.word)),
                op1(update(*op), r(reg)),
            ])
        } else {
            Plan::Skip
        }
    } else {
        Plan::Skip
    }
}

/// `a[f()] = v` with `v` in memory: the value goes by way of `dx`.
pub open spec fn plan_elem_int_call<'a>(
    cx: Cx<'a>,
    array: &'a String,
    index: &'a Expr,
    src: &'a Source,
) -> Plan<'a> {
    if let ExprKind::Call { name: _, args: _ } = &index.kind {
        if is_memory_source(src) {
            Plan::Emit(seq![
                to_ax(cx, index),
                shl1(ax()),
                mov(dx(), given(&src.word)),
                mov(bx(), ax()),
                mov(word(elem(array, Reg::Bx)), dx()),
            ])
        } else {
            Plan::Skip
        }
    } else {
        Plan::Skip
    }
}

/// Any other subscript of an integer array.
pub open spec fn plan_elem_int_general<'a>(
    cx: Cx<'a>,
    array: &'a String,
    index: &'a Expr,
    src: &'a Source,
) -> Plan<'a> {
    crate::codegen::array_addr::plan_subscript_into_bx(cx, index).followed_by(
        Plan::Emit(seq![
            shl1(bx()),
            mov(word(elem(array, Reg::Bx)), given(&src.word)),
        ]),
    )
}

/// An integer of a file-scope array, from an operand.
pub open spec fn plan_elem_global_int<'a>(
    cx: Cx<'a>,
    array: &'a String,
    gty: &'a Type,
    indices: Seq<&'a Expr>,
    value: &'a Expr,
) -> Plan<'a> {
    if indices.len() == 1 {
        if let Some(t) = gty.array_elem() {
            if is_plain_int(t) {
                if is_operand(cx.env, value) {
                    if let Some(src) = &cx.env.facts(value).source {
                        match plan_elem_int_post(cx, array, indices[0], src) {
                            Plan::Skip => {
                                match plan_elem_int_call(cx, array, indices[0], src) {
                                    Plan::Skip => {
                                        plan_elem_int_general(cx, array, indices[0], src)
                                    },
                                    taken => taken,
                                }
                            },
                            taken => taken,
                        }
                    } else {
                        Plan::Stuck
                    }
                } else {
                    Plan::Skip
                }
            } else {
                Plan::Skip
            }
        } else {
            Plan::Skip
        }
    } else {
        Plan::Skip
    }
}

/// A 32-bit integer of a file-scope array with a variable subscript.
pub open spec fn plan_elem_global_long<'a>(
    cx: Cx<'a>,
    array: &'a String,
    gty: &'a Type,
    indices: Seq<&'a Expr>,
    value: &'a Expr,
) -> Plan<'a> {
    if indices.len() == 1 {
        if let Some(t) = gty.array_elem() {
            if t.is_long_like() {
                match cx.env.const_of(value) {
                    Some(v) => {
                        crate::codegen::array_addr::plan_emit_index_into_bx_long_stride(cx, indices[0]).followed_by(
                            crate::codegen::common::plan_store_long_const(cx, elem2(array, Reg::Bx), elem(array, Reg::Bx), v),
                        )
                    },
                    None => {
                        if let Some((hi, lo)) = &cx.env.facts(value).long_addrs {
                            crate::codegen::array_addr::plan_emit_index_into_bx_long_stride(cx, indices[0]).followed_by(
                                crate::codegen::common::plan_copy_long(cx, elem2(array, Reg::Bx), elem(array, Reg::Bx), named(hi), named(lo)),
                            )
                        } else {
                            Plan::Stuck
                        }
                    },
                }
            } else {
                Plan::Skip
            }
        } else {
            Plan::Skip
        }
    } else {
        Plan::Skip
    }
}

/// The address of a character that a value is read from.
#[verifier::allow_in_spec]
pub fn char_chain<'b>(env: &'b Env, e: &Expr) -> Option<Addr<'b>>
    returns
        (match &env.facts(e).chain {
            Some(chain) => if chain.ty.is_char_like() {
                env.resolve_chain_addr(&chain.name, chain.off)
            } else {
                None
            },
            None => None,
        }),
{
    match &env.facts(e).chain {
        Some(chain) => if chain.ty.is_char_like() {
            env.resolve_chain_addr(&chain.name, chain.off)
        } else {
            None
        },
        None => None,
    }
}

/// Loads a character into `al`, straight from memory if it lies there.
pub open spec fn plan_char_to_al<'a>(cx: Cx<'a>, value: &'a Expr) -> Plan<'a> {
    match char_chain(cx.env, value) {
        Some(addr) => {
            Plan::Emit(seq![mov(al(), byte(addr))])
        },
        None => {
            Plan::Emit(seq![to_ax(cx, value)])
        },
    }
}

/// A byte or a word of a file-scope array with a variable subscript: a
/// constant is stored at once, and any other value is computed before the
/// subscript.
pub open spec fn plan_elem_global_small<'a>(
    cx: Cx<'a>,
    array: &'a String,
    gty: &'a Type,
    indices: Seq<&'a Expr>,
    value: &'a Expr,
) -> Plan<'a> {
    if indices.len() == 1 {
        if let Some(t) = gty.array_elem() {
            if t.is_char_like() || t.is_int_like() {
                match cx.env.const_of(value) {
                    Some(v) => {
                        crate::codegen::array_addr::plan_emit_index_into_bx(cx, indices[0], t).followed_by(
                            Plan::Emit(seq![
                                mov( sized(t.is_char_like(), elem(array, Reg::Bx)), imm(masked(v, t.is_char_like()))),
                            ]),
                        )
                    },
                    None => {
                        if t.is_char_like() {
                            plan_char_to_al(cx, value).followed_by(
                                crate::codegen::array_addr::plan_emit_index_into_bx(cx, indices[0], t),
                            ).followed_by(
                                Plan::Emit(seq![mov(byte(elem(array, Reg::Bx)), al())]),
                            )
                        } else {
                            Plan::Emit(seq![to_ax(cx, value)]).followed_by(
                                crate::codegen::array_addr::plan_emit_index_into_bx(cx, indices[0], t),
                            ).followed_by(
                                Plan::Emit(seq![mov(word(elem(array, Reg::Bx)), ax())]),
                            )
                        }
                    },
                }
            } else {
                Plan::Skip
            }
        } else {
            Plan::Skip
        }
    } else {
        Plan::Skip
    }
}

/// `a[i][j] = v` for a two-dimensional file-scope array of characters, words
/// or 32-bit integers.
pub open spec fn plan_elem_global_2d<'a>(
    cx: Cx<'a>,
    array: &'a String,
    gty: &'a Type,
    indices: Seq<&'a Expr>,
    value: &'a Expr,
) -> Plan<'a> {
    if indices.len() == 2 {
        if let Some(row) = gty.array_elem() {
            if let Some(t) = row.array_elem() {
                if let Some(outer) = &cx.env.facts(indices[0]).int_src {
                    if let Some(inner) = &cx.env.facts(indices[1]).int_src {
                        crate::codegen::array_index::plan_index_2d_into_bx(cx, outer, inner, (row.size() as u16), (t.size() as u16)).followed_by(
                            if t.is_long_like() {
                                crate::codegen::common::plan_store_long(cx, elem2(array, Reg::Bx), elem(array, Reg::Bx), value)
                            } else {
                                if (t.size() as u16) <= 2 {
                                    crate::codegen::common::plan_store_value(cx, t.is_char_like(), elem(array, Reg::Bx), value)
                                } else {
                                    Plan::Stuck
                                }
                            },
                        )
                    } else {
                        Plan::Skip
                    }
                } else {
                    Plan::Skip
                }
            } else {
                Plan::Skip
            }
        } else {
            Plan::Skip
        }
    } else {
        Plan::Skip
    }
}

/// An element of a file-scope variable.
pub open spec fn plan_assign_global_elem<'a>(
    cx: Cx<'a>,
    array: &'a String,
    gty: &'a Type,
    indices: Seq<&'a Expr>,
    value: &'a Expr,
) -> Plan<'a> {
    match plan_elem_global_const(cx, array, gty, indices, value) {
        Plan::Skip => {
            match plan_elem_global_pointer(cx, array, gty, indices, value) {
                Plan::Skip => {
                    match plan_elem_global_pointer_long(cx, array, gty, indices, value) {
                        Plan::Skip => {
                            match plan_elem_global_si(cx, array, gty, indices, value) {
                                Plan::Skip => {
                                    match plan_elem_global_register(cx, array, gty, indices, value) {
                                        Plan::Skip => {
                                            match plan_elem_global_int(cx, array, gty, indices, value) {
                                                Plan::Skip => {
                                                    match plan_elem_global_long(cx, array, gty, indices, value) {
                                                        Plan::Skip => {
                                                            match plan_elem_global_small(cx, array, gty, indices, value) {
                                                                Plan::Skip => {
                                                                    match plan_elem_global_2d(cx, array, gty, indices, value) {
                                                                        Plan::Skip => {
                                                                            Plan::Stuck
                                                                        },
                                                                        taken => taken,
                                                                    }
                                                                },
                                                                taken => taken,
                                                            }
                                                        },
                                                        taken => taken,
                                                    }
                                                },
                                                taken => taken,
                                            }
                                        },
                                        taken => taken,
                                    }
                                },
                                taken => taken,
                            }
                        },
                        taken => taken,
                    }
                },
                taken => taken,
            }
        },
        taken => taken,
    }
}

/// The index register of a local variable.
#[verifier::allow_in_spec]
pub fn index_reg_of(env: &Env, e: &Expr) -> Option<Reg>
    returns
        (match &e.kind {
            ExprKind::Ident(n) => match env.reg_of(n) {
                Some(reg) => if reg.is_index() { Some(reg) } else { None },
                None => None,
            },
            _ => None,
        }),
{
    match &e.kind {
        ExprKind::Ident(n) => match env.reg_of(n) {
            Some(reg) => if reg.is_index() { Some(reg) } else { None },
            None => None,
        },
        _ => None,
    }
}

/// A byte behind a local pointer, subscripted by `si` or `di`.
pub open spec fn plan_elem_pointer_index<'a>(
    cx: Cx<'a>,
    array: &'a String,
    t: &'a Type,
    index: &'a Expr,
    value: &'a Expr,
) -> Plan<'a> {
    if (t.size() as u16) == 1 {
        if let Some(reg) = index_reg_of(cx.env, index) {
            crate::codegen::array_addr::plan_name_into_bx(cx, array).followed_by(
                plan_store_char(cx, Addr::Indexed(Reg::Bx, reg, Disp::Zero), value, false),
            )
        } else {
            Plan::Skip
        }
    } else {
        Plan::Skip
    }
}

/// A byte behind a local pointer, subscripted by an integer in memory.
pub open spec fn plan_elem_pointer_memory<'a>(
    cx: Cx<'a>,
    array: &'a String,
    t: &'a Type,
    index: &'a Expr,
) -> Plan<'a> {
    if (t.size() as u16) == 1 {
        if let Some(addr) = &cx.env.facts(index).int_addr {
            crate::codegen::array_addr::plan_name_into_bx(cx, array).followed_by(
                Plan::Emit(seq![add_to(bx(), word(named(addr)))]),
            )
        } else {
            Plan::Skip
        }
    } else {
        Plan::Skip
    }
}

/// A word behind a pointer on the stack: the subscript is scaled before the
/// pointer is loaded.
pub open spec fn plan_elem_pointer_stack<'a>(
    cx: Cx<'a>,
    array: &'a String,
    t: &'a Type,
    index: &'a Expr,
) -> Plan<'a> {
    if (t.size() as u16) == 2 {
        if let Some(off) = cx.env.stack_of(array) {
            if let Some(src) = &cx.env.facts(index).source {
                Plan::Emit(seq![
                    mov(ax(), given(&src.word)),
                    shl1(ax()),
                    mov(bx(), word(bp(off))),
                    add_to(bx(), ax()),
                ])
            } else {
                Plan::Stuck
            }
        } else {
            Plan::Skip
        }
    } else {
        Plan::Skip
    }
}

/// Any other element behind a local pointer: the subscript is scaled in `ax`
/// and added to the pointer.
pub open spec fn plan_elem_pointer_general<'a>(
    cx: Cx<'a>,
    array: &'a String,
    t: &'a Type,
    index: &'a Expr,
) -> Plan<'a> {
    if let Some(src) = &cx.env.facts(index).source {
        crate::codegen::array_addr::plan_name_into_bx(cx, array).followed_by(
            Plan::Emit(seq![mov(ax(), given(&src.word))]),
        ).followed_by(crate::codegen::array_addr::plan_scale_ax(cx, (t.size() as u16))).followed_by(
            Plan::Emit(seq![add_to(bx(), ax())]),
        )
    } else {
        Plan::Stuck
    }
}

/// The address of an element behind a local pointer, into `bx`.
pub open spec fn plan_pointer_elem_addr<'a>(
    cx: Cx<'a>,
    array: &'a String,
    t: &'a Type,
    index: &'a Expr,
) -> Plan<'a> {
    match plan_elem_pointer_memory(cx, array, t, index) {
        Plan::Skip => {
            match plan_elem_pointer_stack(cx, array, t, index) {
                Plan::Skip => {
                    plan_elem_pointer_general(cx, array, t, index)
                },
                taken => taken,
            }
        },
        taken => taken,
    }
}

/// `p[i] = v` for a local pointer to characters, words or 32-bit integers and
/// a variable subscript.
pub open spec fn plan_elem_pointer_variable<'a>(
    cx: Cx<'a>,
    array: &'a String,
    l: &'a Local,
    indices: Seq<&'a Expr>,
    value: &'a Expr,
) -> Plan<'a> {
    if let Some(t) = l.ty.pointee() {
        if indices.len() == 1 {
            match plan_elem_pointer_index(cx, array, t, indices[0], value) {
                Plan::Skip => {
                    plan_pointer_elem_addr(cx, array, t, indices[0]).followed_by(
                        if t.is_char_like() {
                            plan_store_char(cx, at(Reg::Bx), value, false)
                        } else if t.is_long_like() {
                            crate::codegen::common::plan_store_long(cx, at2(Reg::Bx), at(Reg::Bx), value)
                        } else {
                            if (t.size() as u16) <= 2 {
                                crate::codegen::common::plan_store_value(cx, false, at(Reg::Bx), value)
                            } else {
                                Plan::Stuck
                            }
                        },
                    )
                },
                taken => taken,
            }
        } else {
            Plan::Skip
        }
    } else {
        Plan::Skip
    }
}

/// A floating-point element on the stack.
pub open spec fn plan_elem_frame_float<'a>(
    cx: Cx<'a>,
    slot: Addr<'a>,
    leaf: &'a Type,
    value: &'a Expr,
) -> Plan<'a> {
    if leaf.is_float_like() {
        if cx.env.facts(value).is_float_one {
            Plan::Emit(seq![
                Step::Op0(Mnemonic::Fld1),
                op1(Mnemonic::Fstp, wide(float_width(leaf), slot)),
            ])
        } else {
            Plan::Emit(seq![
                Step::FloatLoad(value),
                op1(Mnemonic::Fstp, wide(float_width(leaf), slot)),
            ])
        }
    } else {
        Plan::Skip
    }
}

/// A 32-bit constant element on the stack.
pub open spec fn plan_elem_frame_long<'a>(
    cx: Cx<'a>,
    slot: Addr<'a>,
    high: Addr<'a>,
    leaf: &'a Type,
    value: &'a Expr,
) -> Plan<'a> {
    if leaf.is_long_like() {
        if let Some(v) = cx.env.const_of(value) {
            crate::codegen::common::plan_store_long_const(cx, high, slot, v)
        } else {
            Plan::Stuck
        }
    } else {
        Plan::Skip
    }
}

/// A constant element on the stack.
pub open spec fn plan_elem_frame_value<'a>(
    cx: Cx<'a>,
    slot: Addr<'a>,
    leaf: &'a Type,
    value: &'a Expr,
) -> Plan<'a> {
    if let Some(v) = cx.env.const_of(value) {
        Plan::Emit(seq![
            mov(sized(leaf.is_char_like(), slot), imm(masked(v, leaf.is_char_like()))),
        ])
    } else {
        Plan::Skip
    }
}

/// A word that is already in a register.
pub open spec fn plan_elem_frame_register<'a>(
    cx: Cx<'a>,
    slot: Addr<'a>,
    value: &'a Expr,
) -> Plan<'a> {
    if let ExprKind::Ident(src) = &value.kind {
        if cx.env.is_int_local(src) {
            if let Some(reg) = cx.env.word_reg_of(src) {
                Plan::Emit(seq![mov(word(slot), r(reg))])
            } else {
                Plan::Skip
            }
        } else {
            Plan::Skip
        }
    } else {
        Plan::Skip
    }
}

/// The address of a string literal.
pub open spec fn plan_elem_frame_string<'a>(
    cx: Cx<'a>,
    slot: Addr<'a>,
    value: &'a Expr,
) -> Plan<'a> {
    if let ExprKind::StringLit(bytes) = &value.kind {
        Plan::Emit(seq![mov(word(slot), Operand::PooledAt(value.span.start, bytes))])
    } else {
        Plan::Skip
    }
}

/// An element at a constant place on the stack.
pub open spec fn plan_elem_frame_const<'a>(
    cx: Cx<'a>,
    base: i16,
    ty: &'a Type,
    indices: Seq<&'a Expr>,
    value: &'a Expr,
) -> Plan<'a> {
    if let Some((off, leaf)) = cx.env.spec_const_array_offset(ty, indices) {
        let slot = bp_plus(base, sat16(off));
        match plan_elem_frame_float(cx, slot, leaf, value) {
            Plan::Skip => {
                match plan_elem_frame_long(cx, slot, bp_plus2(base, sat16(off)), leaf, value) {
                    Plan::Skip => {
                        match plan_elem_frame_value(cx, slot, leaf, value) {
                            Plan::Skip => {
                                if !leaf.is_char_like() {
                                    match plan_elem_frame_register(cx, slot, value) {
                                        Plan::Skip => {
                                            match plan_elem_frame_string(cx, slot, value) {
                                                Plan::Skip => {
                                                    Plan::Emit(seq![
                                                        to_ax(cx, value),
                                                        mov(word(slot), ax()),
                                                    ])
                                                },
                                                taken => taken,
                                            }
                                        },
                                        taken => taken,
                                    }
                                } else {
                                    Plan::Stuck
                                }
                            },
                            taken => taken,
                        }
                    },
                    taken => taken,
                }
            },
            taken => taken,
        }
    } else {
        Plan::Skip
    }
}

/// `a[i][j] = k` for a two-dimensional array on the stack.
pub open spec fn plan_elem_frame_2d<'a>(
    cx: Cx<'a>,
    base: i16,
    ty: &'a Type,
    indices: Seq<&'a Expr>,
    value: &'a Expr,
) -> Plan<'a> {
    if indices.len() == 2 {
        if let Some(row) = ty.array_elem() {
            if let Some(t) = row.array_elem() {
                if let Some(v) = cx.env.const_of(value) {
                    crate::codegen::array_addr::plan_emit_array_addr_2d_to_bx(cx, indices[0], indices[1], (row.size() as u16), (t.size() as u16), base).followed_by(
                        Plan::Emit(seq![
                            mov(sized(t.is_char_like(), at(Reg::Bx)), imm(masked(v, t.is_char_like()))),
                        ]),
                    )
                } else {
                    Plan::Stuck
                }
            } else {
                Plan::Stuck
            }
        } else {
            Plan::Stuck
        }
    } else {
        Plan::Skip
    }
}

/// The low half of the register of a local integer.
#[verifier::allow_in_spec]
pub fn low_reg_of(env: &Env, name: &String) -> Option<Reg>
    returns
        (if env.is_int_local(name) {
            match env.word_reg_of(name) {
                Some(reg) => reg.low(),
                None => None,
            }
        } else {
            None
        }),
{
    if env.is_int_local(name) {
        match env.word_reg_of(name) {
            Some(reg) => reg.low(),
            None => None,
        }
    } else {
        None
    }
}

/// The variable and the constant of a sum, in either order.
#[verifier::allow_in_spec]
pub fn name_plus_const<'b>(env: &Env, e: &'b Expr) -> Option<(&'b String, u32)>
    returns
        (match &e.kind {
            ExprKind::BinOp { op: BinOp::Add, left, right } => match (
                &left.kind,
                env.const_of(&**right),
                &right.kind,
                env.const_of(&**left),
            ) {
                (ExprKind::Ident(n), Some(k), _, _) => Some((n, k)),
                (_, _, ExprKind::Ident(n), Some(k)) => Some((n, k)),
                _ => None,
            },
            _ => None,
        }),
{
    match &e.kind {
        ExprKind::BinOp { op: BinOp::Add, left, right } => match (
            &left.kind,
            env.const_of(&**right),
            &right.kind,
            env.const_of(&**left),
        ) {
            (ExprKind::Ident(n), Some(k), _, _) => Some((n, k)),
            (_, _, ExprKind::Ident(n), Some(k)) => Some((n, k)),
            _ => None,
        },
        _ => None,
    }
}

/// Adds a constant to `al`, or steps it by one.
pub open spec fn plan_add_to_al<'a>(cx: Cx<'a>, k: u32) -> Plan<'a> {
    if lo8(k) == 1 {
        Plan::Emit(seq![op1(Mnemonic::Inc, al())])
    } else if lo8(k) == 255 {
        Plan::Emit(seq![op1(Mnemonic::Dec, al())])
    } else {
        Plan::Emit(seq![add_to(al(), imm(signed8(lo8(k))))])
    }
}

/// Whether a subscript is an integer in the register whose low half is
/// given.
#[verifier::allow_in_spec]
pub fn is_wide_of(env: &Env, e: &Expr, low: Reg) -> bool
    returns
        (match &e.kind {
            ExprKind::Ident(n) => match env.reg_of(n) {
                Some(reg) => match reg.low() {
                    Some(half) => half == low,
                    None => false,
                },
                None => false,
            },
            _ => false,
        }),
{
    match &e.kind {
        ExprKind::Ident(n) => match env.reg_of(n) {
            Some(reg) => match reg.low() {
                Some(half) => half == low,
                None => false,
            },
            None => false,
        },
        _ => false,
    }
}

/// `s[i] = i + k` for characters on the stack: the byte is computed first,
/// and the address by way of `dx`.
pub open spec fn plan_elem_char_sum_first<'a>(
    cx: Cx<'a>,
    base: i16,
    t: &'a Type,
    index: &'a Expr,
    value: &'a Expr,
) -> Plan<'a> {
    if t.is_char_like() && cx.env.const_of(value).is_none() {
        if let Some((n, k)) = name_plus_const(cx.env, value) {
            if let Some(low) = low_reg_of(cx.env, n) {
                if is_wide_of(cx.env, index, low) && !names_char_local(cx.env, index) {
                    if let Some(reg) = cx.env.reg_of(n) {
                        Plan::Emit(seq![mov(al(), r(low))]).followed_by(plan_add_to_al(cx, k)).followed_by(
                            Plan::Emit(seq![
                                lea(dx(), bp(base)),
                                mov(bx(), r(reg)),
                                add_to(bx(), dx()),
                                mov(byte(at(Reg::Bx)), al()),
                            ]),
                        )
                    } else {
                        Plan::Stuck
                    }
                } else {
                    Plan::Skip
                }
            } else {
                Plan::Skip
            }
        } else {
            Plan::Skip
        }
    } else {
        Plan::Skip
    }
}

/// A 32-bit constant, through `bx`.
pub open spec fn plan_elem_through_long<'a>(
    cx: Cx<'a>,
    t: &'a Type,
    value: &'a Expr,
) -> Plan<'a> {
    if t.is_long_like() {
        if let Some(v) = cx.env.const_of(value) {
            crate::codegen::common::plan_store_long_const(cx, at2(Reg::Bx), at(Reg::Bx), v)
        } else {
            Plan::Skip
        }
    } else {
        Plan::Skip
    }
}

/// A 32-bit integer in memory, through `bx`.
pub open spec fn plan_elem_through_pair<'a>(
    cx: Cx<'a>,
    t: &'a Type,
    value: &'a Expr,
) -> Plan<'a> {
    if t.is_long_like() {
        if let Some((hi, lo)) = &cx.env.facts(value).long_addrs {
            crate::codegen::common::plan_copy_long(cx, at2(Reg::Bx), at(Reg::Bx), named(hi), named(lo))
        } else {
            Plan::Skip
        }
    } else {
        Plan::Skip
    }
}

/// A constant, through `bx`.
pub open spec fn plan_elem_through_const<'a>(
    cx: Cx<'a>,
    t: &'a Type,
    value: &'a Expr,
) -> Plan<'a> {
    if let Some(v) = cx.env.const_of(value) {
        Plan::Emit(seq![
            mov(sized(t.is_char_like(), at(Reg::Bx)), imm(masked(v, t.is_char_like()))),
        ])
    } else {
        Plan::Skip
    }
}

/// A word that is already in a register, through `bx`.
pub open spec fn plan_elem_through_register<'a>(
    cx: Cx<'a>,
    t: &'a Type,
    value: &'a Expr,
) -> Plan<'a> {
    if !t.is_char_like() {
        if let ExprKind::Ident(name) = &value.kind {
            if let Some(reg) = cx.env.word_reg_of(name) {
                Plan::Emit(seq![mov(word(at(Reg::Bx)), r(reg))])
            } else {
                Plan::Skip
            }
        } else {
            Plan::Skip
        }
    } else {
        Plan::Skip
    }
}

/// The low byte of an integer in a register, through `bx`.
pub open spec fn plan_elem_through_low<'a>(cx: Cx<'a>, t: &'a Type, value: &'a Expr) -> Plan<'a> {
    if t.is_char_like() {
        if let ExprKind::Ident(name) = &value.kind {
            if let Some(low) = low_reg_of(cx.env, name) {
                Plan::Emit(seq![
                    mov(al(), r(low)),
                    mov(byte(at(Reg::Bx)), al()),
                ])
            } else {
                Plan::Skip
            }
        } else {
            Plan::Skip
        }
    } else {
        Plan::Skip
    }
}

/// The low byte of an integer in a register plus a constant, through `bx`.
pub open spec fn plan_elem_through_sum<'a>(cx: Cx<'a>, t: &'a Type, value: &'a Expr) -> Plan<'a> {
    if t.is_char_like() {
        if let Some((n, k)) = name_plus_const(cx.env, value) {
            if let Some(low) = low_reg_of(cx.env, n) {
                Plan::Emit(seq![mov(al(), r(low))]).followed_by(plan_add_to_al(cx, k)).followed_by(
                    Plan::Emit(seq![mov(byte(at(Reg::Bx)), al())]),
                )
            } else {
                Plan::Skip
            }
        } else {
            Plan::Skip
        }
    } else {
        Plan::Skip
    }
}

/// Any other value is computed in `ax`; a byte is not widened.
pub open spec fn plan_elem_through_general<'a>(
    cx: Cx<'a>,
    t: &'a Type,
    value: &'a Expr,
) -> Plan<'a> {
    Plan::Emit(seq![
        Step::ToAx(value, t.is_char_like() || cx.skip_widen),
        mov(sized(t.is_char_like(), at(Reg::Bx)), acc(t.is_char_like())),
    ])
}

/// Stores a value of type `t` through `bx`.
pub open spec fn plan_store_elem_through_bx<'a>(
    cx: Cx<'a>,
    t: &'a Type,
    value: &'a Expr,
) -> Plan<'a> {
    match plan_elem_through_long(cx, t, value) {
        Plan::Skip => {
            match plan_elem_through_pair(cx, t, value) {
                Plan::Skip => {
                    match plan_elem_through_const(cx, t, value) {
                        Plan::Skip => {
                            match plan_elem_through_register(cx, t, value) {
                                Plan::Skip => {
                                    match plan_elem_through_low(cx, t, value) {
                                        Plan::Skip => {
                                            match plan_elem_through_sum(cx, t, value) {
                                                Plan::Skip => {
                                                    plan_elem_through_general(cx, t, value)
                                                },
                                                taken => taken,
                                            }
                                        },
                                        taken => taken,
                                    }
                                },
                                taken => taken,
                            }
                        },
                        taken => taken,
                    }
                },
                taken => taken,
            }
        },
        taken => taken,
    }
}

/// `a[i] = v` for an array on the stack.
pub open spec fn plan_elem_frame_variable<'a>(
    cx: Cx<'a>,
    base: i16,
    ty: &'a Type,
    indices: Seq<&'a Expr>,
    value: &'a Expr,
) -> Plan<'a> {
    if indices.len() == 1 {
        if let Some(t) = ty.array_elem() {
            match plan_elem_char_sum_first(cx, base, t, indices[0], value) {
                Plan::Skip => {
                    crate::codegen::array_addr::plan_emit_array_addr_to_bx(cx, indices[0], base, (t.size() as u16)).followed_by(
                        plan_store_elem_through_bx(cx, t, value),
                    )
                },
                taken => taken,
            }
        } else {
            Plan::Stuck
        }
    } else {
        Plan::Stuck
    }
}

/// An element of an array on the stack.
pub open spec fn plan_assign_frame_elem<'a>(
    cx: Cx<'a>,
    base: i16,
    ty: &'a Type,
    indices: Seq<&'a Expr>,
    value: &'a Expr,
) -> Plan<'a> {
    match plan_elem_frame_const(cx, base, ty, indices, value) {
        Plan::Skip => {
            match plan_elem_frame_2d(cx, base, ty, indices, value) {
                Plan::Skip => {
                    plan_elem_frame_variable(cx, base, ty, indices, value)
                },
                taken => taken,
            }
        },
        taken => taken,
    }
}

/// An element of a local variable.
pub open spec fn plan_assign_local_elem<'a>(
    cx: Cx<'a>,
    array: &'a String,
    indices: Seq<&'a Expr>,
    value: &'a Expr,
) -> Plan<'a> {
    if let Some(l) = cx.env.local(array) {
        match plan_elem_pointer_variable(cx, array, l, indices, value) {
            Plan::Skip => {
                if let LocalLocation::Stack(base) = l.loc {
                    plan_assign_frame_elem(cx, base, &l.ty, indices, value)
                } else {
                    Plan::Stuck
                }
            },
            taken => taken,
        }
    } else {
        Plan::Stuck
    }
}

/// `array[i]... = value`.
pub open spec fn plan_assign_elem<'a>(
    cx: Cx<'a>,
    array: &'a String,
    indices: Seq<&'a Expr>,
    value: &'a Expr,
) -> Plan<'a> {
    match plan_elem_function_local(cx, array, indices, value) {
        Plan::Skip => {
            match plan_elem_function_global(cx, array, indices, value) {
                Plan::Skip => {
                    match plan_elem_pointer_const(cx, array, indices, value) {
                        Plan::Skip => {
                            match cx.env.global_type(array) {
                                Some(gty) => {
                                    plan_assign_global_elem(cx, array, gty, indices, value)
                                },
                                None => {
                                    plan_assign_local_elem(cx, array, indices, value)
                                },
                            }
                        },
                        taken => taken,
                    }
                },
                taken => taken,
            }
        },
        taken => taken,
    }
}

/// The elements of a list by reference.
pub open spec fn each<'a>(list: &'a Vec<Expr>) -> Seq<&'a Expr> {
    Seq::new(list@.len(), |i: int| &list@[i])
}

/// The elements of a list by reference.
pub fn each_of<'a>(list: &'a Vec<Expr>) -> (r: Vec<&'a Expr>)
    ensures
        r@ == each(list),
{
    let mut out: Vec<&'a Expr> = Vec::new();
    let mut i: usize = 0;
    while i < list.len()
        invariant
            0 <= i <= list.len(),
            out@ =~= each(list).take(i as int),
        decreases list.len() - i,
    {
        out.push(&list[i]);
        i += 1;
    }
    out
}

/// `array[i]... = value`, with the subscripts as they stand in the syntax
/// tree.
pub open spec fn plan_emit_array_assign<'a>(
    cx: Cx<'a>,
    array: &'a String,
    indices: &'a Vec<Expr>,
    value: &'a Expr,
) -> Plan<'a> {
    plan_assign_elem(cx, array, each(indices), value)
}

impl<'a> FunctionEmitter<'a> {
    /// Emits what [`plan_elem_function_local`] says, if it applies.
    pub fn try_elem_function_local(
        &mut self,
        array: &'a String,
        indices: &Vec<&'a Expr>,
        value: &'a Expr,
    ) -> (done: bool)
        requires
            old(self).cx.env.wf(),
            !(plan_elem_function_local(old(self).cx, array, indices@, value) is Stuck),
        ensures
            final(self).ran(
                *old(self),
                plan_elem_function_local(old(self).cx, array, indices@, value),
                done,
            ),
    {
        let cx: Cx<'a> = self.cx;
        if !(indices.len() == 1) {
            return false;
        }
        let Some(k) = cx.env.const_of(indices[0]) else { return false; };
        let Some(f) = function_name(cx.env, value) else { return false; };
        let Some(t) = cx.env.local_elem(array) else { return false; };
        if !t.pointee().is_some() {
            return false;
        }
        let Some(base) = cx.env.stack_of(array) else { return false; };
        self.put(mov(word(bp_plus(base, sat16(scaled(k, t.size_bytes())))), offset_of_code(f)));
        true
    }

    /// Emits what [`plan_elem_function_global`] says, if it applies.
    pub fn try_elem_function_global(
        &mut self,
        array: &'a String,
        indices: &Vec<&'a Expr>,
        value: &'a Expr,
    ) -> (done: bool)
        requires
            old(self).cx.env.wf(),
            !(plan_elem_function_global(old(self).cx, array, indices@, value) is Stuck),
        ensures
            final(self).ran(
                *old(self),
                plan_elem_function_global(old(self).cx, array, indices@, value),
                done,
            ),
    {
        let cx: Cx<'a> = self.cx;
        if !(indices.len() == 1) {
            return false;
        }
        let Some(k) = cx.env.const_of(indices[0]) else { return false; };
        let Some(f) = function_name(cx.env, value) else { return false; };
        let Some(t) = cx.env.global_elem(array) else { return false; };
        if !t.pointee().is_some() {
            return false;
        }
        self.put(mov( word(global_at(array, plus(uscaled(k, t.size_bytes()) as i64))), offset_of_code(f)));
        true
    }

    /// Emits what [`plan_elem_far`] says, if it applies.
    pub fn try_elem_far(
        &mut self,
        l: &'a Local,
        t: &'a Type,
        k: u32,
        value: &'a Expr,
    ) -> (done: bool)
        requires
            old(self).cx.env.wf(),
            t.is_countable(),
            !(plan_elem_far(old(self).cx, l, t, k, value) is Stuck),
        ensures
            final(self).ran(*old(self), plan_elem_far(old(self).cx, l, t, k, value), done),
    {
        let Type::FarPointer { pointee: _, is_huge: _ } = &l.ty else { return false; };
        let LocalLocation::Stack(off) = l.loc else { return false; };
        if !(scales(k, t.size_bytes())) {
            return false;
        }
        let d: i64 = signed_of(uscaled(k, t.size_bytes()));
        self.put(op2(Mnemonic::Les, bx(), word(bp(off))));
        if t.is_long_like() {
            self.store_long(Addr::Seg(Reg::Es, Reg::Bx, Disp::Plus((d + 2) as i64)), Addr::Seg(Reg::Es, Reg::Bx, plus(d)), value);
            return true;
        } else {
            self.store_value(t.is_char_like(), Addr::Seg(Reg::Es, Reg::Bx, plus(d)), value);
            return true;
        }
    }

    /// Emits what [`plan_elem_near`] says, if it applies.
    pub fn try_elem_near(
        &mut self,
        l: &'a Local,
        t: &'a Type,
        k: u32,
        value: &'a Expr,
    ) -> (done: bool)
        requires
            old(self).cx.env.wf(),
            t.is_countable(),
            !(plan_elem_near(old(self).cx, l, t, k, value) is Stuck),
        ensures
            final(self).ran(*old(self), plan_elem_near(old(self).cx, l, t, k, value), done),
    {
        let cx: Cx<'a> = self.cx;
        let LocalLocation::Reg(reg) = l.loc else { return false; };
        if !(scales(k, t.size_bytes())) {
            return false;
        }
        let Some(v) = cx.env.const_of(value) else { return false; };
        let d: i64 = signed_of(uscaled(k, t.size_bytes()));
        if t.is_long_like() {
            self.store_long_const(at_disp(reg, Disp::Plus((d + 2) as i64)), at_disp(reg, plus(d)), v);
            return true;
        } else {
            self.put(mov( sized(t.is_char_like(), at_disp(reg, plus(d))), imm(masked(v, t.is_char_like()))));
            return true;
        }
    }

    /// Emits what [`plan_elem_pointer_const`] says, if it applies.
    pub fn try_elem_pointer_const(
        &mut self,
        array: &'a String,
        indices: &Vec<&'a Expr>,
        value: &'a Expr,
    ) -> (done: bool)
        requires
            old(self).cx.env.wf(),
            !(plan_elem_pointer_const(old(self).cx, array, indices@, value) is Stuck),
        ensures
            final(self).ran(
                *old(self),
                plan_elem_pointer_const(old(self).cx, array, indices@, value),
                done,
            ),
    {
        let cx: Cx<'a> = self.cx;
        let Some(l) = cx.env.local(array) else { return false; };
        let Some(t) = l.ty.pointee() else { return false; };
        if !(indices.len() == 1) {
            return false;
        }
        let Some(k) = cx.env.const_of(indices[0]) else { return false; };
        if self.try_elem_far(l, t, k, value) {
            return true;
        }
        return self.try_elem_near(l, t, k, value);
    }

    /// Emits what [`plan_elem_global_const_long`] says, if it applies.
    pub fn try_elem_global_const_long(
        &mut self,
        array: &'a String,
        off: i32,
        leaf: &'a Type,
        value: &'a Expr,
    ) -> (done: bool)
        requires
            old(self).cx.env.wf(),
            !(plan_elem_global_const_long(old(self).cx, array, off, leaf, value) is Stuck),
        ensures
            final(self).ran(
                *old(self),
                plan_elem_global_const_long(old(self).cx, array, off, leaf, value),
                done,
            ),
    {
        let cx: Cx<'a> = self.cx;
        if !leaf.is_long_like() {
            return false;
        }
        match cx.env.const_of(value) {
            Some(v) => {
                self.store_long_const(global_at(array, disp2(off)), global_at(array, disp(off)), v);
                return true;
            },
            None => {
                if !cx.env.facts(value).long_storable {
                    return false;
                }
                self.put(Step::LongTo(value, global_at(array, disp2(off)), global_at(array, disp(off))));
                return true;
            },
        }
    }

    /// Emits what [`plan_elem_global_const`] says, if it applies.
    pub fn try_elem_global_const(
        &mut self,
        array: &'a String,
        gty: &'a Type,
        indices: &Vec<&'a Expr>,
        value: &'a Expr,
    ) -> (done: bool)
        requires
            old(self).cx.env.wf(),
            gty.fits(),
            !(plan_elem_global_const(old(self).cx, array, gty, indices@, value) is Stuck),
        ensures
            final(self).ran(
                *old(self),
                plan_elem_global_const(old(self).cx, array, gty, indices@, value),
                done,
            ),
    {
        let cx: Cx<'a> = self.cx;
        let Some((off, leaf)) = cx.env.const_array_offset(gty, indices) else { return false; };
        if self.try_elem_global_const_long(array, off, leaf, value) {
            return true;
        }
        self.store_value(leaf.is_char_like(), global_at(array, disp(off)), value);
        true
    }

    /// Emits what [`plan_elem_global_pointer`] says, if it applies.
    pub fn try_elem_global_pointer(
        &mut self,
        array: &'a String,
        gty: &'a Type,
        indices: &Vec<&'a Expr>,
        value: &'a Expr,
    ) -> (done: bool)
        requires
            old(self).cx.env.wf(),
            gty.fits(),
            !(plan_elem_global_pointer(old(self).cx, array, gty, indices@, value) is Stuck),
        ensures
            final(self).ran(
                *old(self),
                plan_elem_global_pointer(old(self).cx, array, gty, indices@, value),
                done,
            ),
    {
        let cx: Cx<'a> = self.cx;
        let Some(t) = gty.pointee() else { return false; };
        if !(indices.len() == 1) {
            return false;
        }
        let Some(k) = cx.env.const_of(indices[0]) else { return false; };
        if !is_plain_int(t) {
            return false;
        }
        self.put(mov(bx(), word(global(array))));
        self.store_value(false, at_disp(Reg::Bx, disp(scaled(k, t.size_bytes()))), value);
        true
    }

    /// Emits what [`plan_elem_global_pointer_long`] says, if it applies.
    pub fn try_elem_global_pointer_long(
        &mut self,
        array: &'a String,
        gty: &'a Type,
        indices: &Vec<&'a Expr>,
        value: &'a Expr,
    ) -> (done: bool)
        requires
            old(self).cx.env.wf(),
            gty.fits(),
            !(plan_elem_global_pointer_long(old(self).cx, array, gty, indices@, value) is Stuck),
        ensures
            final(self).ran(
                *old(self),
                plan_elem_global_pointer_long(old(self).cx, array, gty, indices@, value),
                done,
            ),
    {
        let cx: Cx<'a> = self.cx;
        let Some(t) = gty.pointee() else { return false; };
        if !(indices.len() == 1) {
            return false;
        }
        let Some(k) = cx.env.const_of(indices[0]) else { return false; };
        if !t.is_long_like() {
            return false;
        }
        let Some(v) = cx.env.const_of(value) else { return false; };
        self.put(mov(bx(), word(global(array))));
        self.store_long_const(at_disp(Reg::Bx, disp2(scaled(k, t.size_bytes()))), at_disp(Reg::Bx, disp(scaled(k, t.size_bytes()))), v);
        true
    }

    /// Stores a character; a local character variable is not widened on the
    /// way, and with the flag no other character is.
    pub fn store_char(&mut self, a: Addr<'a>, value: &'a Expr, narrow: bool)
        requires
            old(self).cx.env.wf(),
            plan_store_char(old(self).cx, a, value, narrow) is Emit,
        ensures
            final(self).wrote(*old(self), plan_store_char(old(self).cx, a, value, narrow)),
    {
        let cx: Cx<'a> = self.cx;
        match (cx.env.const_of(value), char_source(cx.env, value)) {
            (Some(v), _) => {
                self.put(mov(byte(a), imm(lo8(v))));
            },
            (None, Some(src)) => {
                self.put(mov(al(), src));
                self.put(mov(byte(a), al()));
            },
            (None, None) => {
                self.put(Step::ToAx(value, narrow || cx.skip_widen));
                self.put(mov(byte(a), al()));
            },
        }
    }

    /// Emits what [`plan_elem_global_si`] says, if it applies.
    pub fn try_elem_global_si(
        &mut self,
        array: &'a String,
        gty: &'a Type,
        indices: &Vec<&'a Expr>,
        value: &'a Expr,
    ) -> (done: bool)
        requires
            old(self).cx.env.wf(),
            !(plan_elem_global_si(old(self).cx, array, gty, indices@, value) is Stuck),
        ensures
            final(self).ran(
                *old(self),
                plan_elem_global_si(old(self).cx, array, gty, indices@, value),
                done,
            ),
    {
        let cx: Cx<'a> = self.cx;
        if !(indices.len() == 1) {
            return false;
        }
        let Some(t) = gty.array_elem() else { return false; };
        if !t.is_char_like() {
            return false;
        }
        if !(is_in_si(cx.env, indices[0])) {
            return false;
        }
        self.store_char(elem(array, Reg::Si), value, true);
        true
    }

    /// Emits what [`plan_elem_global_register`] says, if it applies.
    pub fn try_elem_global_register(
        &mut self,
        array: &'a String,
        gty: &'a Type,
        indices: &Vec<&'a Expr>,
        value: &'a Expr,
    ) -> (done: bool)
        requires
            old(self).cx.env.wf(),
            !(plan_elem_global_register(old(self).cx, array, gty, indices@, value) is Stuck),
        ensures
            final(self).ran(
                *old(self),
                plan_elem_global_register(old(self).cx, array, gty, indices@, value),
                done,
            ),
    {
        let cx: Cx<'a> = self.cx;
        if !(indices.len() == 1) {
            return false;
        }
        let Some(t) = gty.array_elem() else { return false; };
        if !t.is_char_like() {
            return false;
        }
        let ExprKind::Ident(i) = &indices[0].kind else { return false; };
        let Some(reg) = cx.env.word_reg_of(i) else { return false; };
        if is_name(value, i) && reg.low().is_some() {
            let Some(low) = reg.low() else { return false; };
            self.put(mov(bx(), r(reg)));
            self.put(mov(al(), r(low)));
            self.put(mov(byte(elem(array, Reg::Bx)), al()));
            return true;
        } else {
            match cx.env.const_of(value) {
                Some(v) => {
                    self.put(mov(bx(), r(reg)));
                    self.put(mov(byte(elem(array, Reg::Bx)), imm(lo8(v))));
                    return true;
                },
                None => {
                    self.put(to_ax(cx, value));
                    self.put(mov(bx(), r(reg)));
                    self.put(mov(byte(elem(array, Reg::Bx)), al()));
                    return true;
                },
            }
        }
    }

    /// Emits what [`plan_elem_int_post`] says, if it applies.
    pub fn try_elem_int_post(
        &mut self,
        array: &'a String,
        index: &'a Expr,
        src: &'a Source,
    ) -> (done: bool)
        requires
            old(self).cx.env.wf(),
            !(plan_elem_int_post(old(self).cx, array, index, src) is Stuck),
        ensures
            final(self).ran(
                *old(self),
                plan_elem_int_post(old(self).cx, array, index, src),
                done,
            ),
    {
        let cx: Cx<'a> = self.cx;
        let ExprKind::Update { target, op, position: UpdatePosition::Post } = &index.kind else { return false; };
        let Some(reg) = cx.env.word_reg_of(target) else { return false; };
        self.put(mov(bx(), r(reg)));
        self.put(shl1(bx()));
        self.put(mov(word(elem(array, Reg::Bx)), given(&src.word)));
        self.put(op1(update(*op), r(reg)));
        true
    }

    /// Emits what [`plan_elem_int_call`] says, if it applies.
    pub fn try_elem_int_call(
        &mut self,
        array: &'a String,
        index: &'a Expr,
        src: &'a Source,
    ) -> (done: bool)
        requires
            old(self).cx.env.wf(),
            !(plan_elem_int_call(old(self).cx, array, index, src) is Stuck),
        ensures
            final(self).ran(
                *old(self),
                plan_elem_int_call(old(self).cx, array, index, src),
                done,
            ),
    {
        let cx: Cx<'a> = self.cx;
        let ExprKind::Call { name: _, args: _ } = &index.kind else { return false; };
        if !is_memory_source(src) {
            return false;
        }
        self.put(to_ax(cx, index));
        self.put(shl1(ax()));
        self.put(mov(dx(), given(&src.word)));
        self.put(mov(bx(), ax()));
        self.put(mov(word(elem(array, Reg::Bx)), dx()));
        true
    }

    /// Emits what [`plan_elem_int_general`] says, if it applies.
    pub fn try_elem_int_general(
        &mut self,
        array: &'a String,
        index: &'a Expr,
        src: &'a Source,
    ) -> (done: bool)
        requires
            old(self).cx.env.wf(),
            !(plan_elem_int_general(old(self).cx, array, index, src) is Stuck),
        ensures
            final(self).ran(
                *old(self),
                plan_elem_int_general(old(self).cx, array, index, src),
                done,
            ),
    {
        self.subscript_into_bx(index);
        self.put(shl1(bx()));
        self.put(mov(word(elem(array, Reg::Bx)), given(&src.word)));
        true
    }

    /// Emits what [`plan_elem_global_int`] says, if it applies.
    pub fn try_elem_global_int(
        &mut self,
        array: &'a String,
        gty: &'a Type,
        indices: &Vec<&'a Expr>,
        value: &'a Expr,
    ) -> (done: bool)
        requires
            old(self).cx.env.wf(),
            !(plan_elem_global_int(old(self).cx, array, gty, indices@, value) is Stuck),
        ensures
            final(self).ran(
                *old(self),
                plan_elem_global_int(old(self).cx, array, gty, indices@, value),
                done,
            ),
    {
        let cx: Cx<'a> = self.cx;
        if !(indices.len() == 1) {
            return false;
        }
        let Some(t) = gty.array_elem() else { return false; };
        if !is_plain_int(t) {
            return false;
        }
        if !(is_operand(cx.env, value)) {
            return false;
        }
        let Some(src) = &cx.env.facts(value).source else { return false; };
        if self.try_elem_int_post(array, indices[0], src) {
            return true;
        }
        if self.try_elem_int_call(array, indices[0], src) {
            return true;
        }
        return self.try_elem_int_general(array, indices[0], src);
    }

    /// Emits what [`plan_elem_global_long`] says, if it applies.
    pub fn try_elem_global_long(
        &mut self,
        array: &'a String,
        gty: &'a Type,
        indices: &Vec<&'a Expr>,
        value: &'a Expr,
    ) -> (done: bool)
        requires
            old(self).cx.env.wf(),
            !(plan_elem_global_long(old(self).cx, array, gty, indices@, value) is Stuck),
        ensures
            final(self).ran(
                *old(self),
                plan_elem_global_long(old(self).cx, array, gty, indices@, value),
                done,
            ),
    {
        let cx: Cx<'a> = self.cx;
        if !(indices.len() == 1) {
            return false;
        }
        let Some(t) = gty.array_elem() else { return false; };
        if !t.is_long_like() {
            return false;
        }
        match cx.env.const_of(value) {
            Some(v) => {
                self.emit_index_into_bx_long_stride(indices[0]);
                self.store_long_const(elem2(array, Reg::Bx), elem(array, Reg::Bx), v);
                return true;
            },
            None => {
                let Some((hi, lo)) = &cx.env.facts(value).long_addrs else { return false; };
                self.emit_index_into_bx_long_stride(indices[0]);
                self.copy_long(elem2(array, Reg::Bx), elem(array, Reg::Bx), named(hi), named(lo));
                return true;
            },
        }
    }

    /// Loads a character into `al`, straight from memory if it lies there.
    pub fn char_to_al(&mut self, value: &'a Expr)
        requires
            old(self).cx.env.wf(),
            plan_char_to_al(old(self).cx, value) is Emit,
        ensures
            final(self).wrote(*old(self), plan_char_to_al(old(self).cx, value)),
    {
        let cx: Cx<'a> = self.cx;
        match char_chain(cx.env, value) {
            Some(addr) => {
                self.put(mov(al(), byte(addr)));
            },
            None => {
                self.put(to_ax(cx, value));
            },
        }
    }

    /// Emits what [`plan_elem_global_small`] says, if it applies.
    pub fn try_elem_global_small(
        &mut self,
        array: &'a String,
        gty: &'a Type,
        indices: &Vec<&'a Expr>,
        value: &'a Expr,
    ) -> (done: bool)
        requires
            old(self).cx.env.wf(),
            gty.fits(),
            !(plan_elem_global_small(old(self).cx, array, gty, indices@, value) is Stuck),
        ensures
            final(self).ran(
                *old(self),
                plan_elem_global_small(old(self).cx, array, gty, indices@, value),
                done,
            ),
    {
        let cx: Cx<'a> = self.cx;
        if !(indices.len() == 1) {
            return false;
        }
        let Some(t) = gty.array_elem() else { return false; };
        if !(t.is_char_like() || t.is_int_like()) {
            return false;
        }
        match cx.env.const_of(value) {
            Some(v) => {
                self.emit_index_into_bx(indices[0], t);
                self.put(mov( sized(t.is_char_like(), elem(array, Reg::Bx)), imm(masked(v, t.is_char_like()))));
                return true;
            },
            None => {
                if t.is_char_like() {
                    self.char_to_al(value);
                    self.emit_index_into_bx(indices[0], t);
                    self.put(mov(byte(elem(array, Reg::Bx)), al()));
                    return true;
                } else {
                    self.put(to_ax(cx, value));
                    self.emit_index_into_bx(indices[0], t);
                    self.put(mov(word(elem(array, Reg::Bx)), ax()));
                    return true;
                }
            },
        }
    }

    /// Emits what [`plan_elem_global_2d`] says, if it applies.
    pub fn try_elem_global_2d(
        &mut self,
        array: &'a String,
        gty: &'a Type,
        indices: &Vec<&'a Expr>,
        value: &'a Expr,
    ) -> (done: bool)
        requires
            old(self).cx.env.wf(),
            gty.fits(),
            !(plan_elem_global_2d(old(self).cx, array, gty, indices@, value) is Stuck),
        ensures
            final(self).ran(
                *old(self),
                plan_elem_global_2d(old(self).cx, array, gty, indices@, value),
                done,
            ),
    {
        let cx: Cx<'a> = self.cx;
        if !(indices.len() == 2) {
            return false;
        }
        let Some(row) = gty.array_elem() else { return false; };
        let Some(t) = row.array_elem() else { return false; };
        let Some(outer) = &cx.env.facts(indices[0]).int_src else { return false; };
        let Some(inner) = &cx.env.facts(indices[1]).int_src else { return false; };
        self.index_2d_into_bx(outer, inner, row.size_bytes(), t.size_bytes());
        if t.is_long_like() {
            self.store_long(elem2(array, Reg::Bx), elem(array, Reg::Bx), value);
            return true;
        } else {
            if !(t.size_bytes() <= 2) {
                return false;
            }
            self.store_value(t.is_char_like(), elem(array, Reg::Bx), value);
            return true;
        }
    }

    /// An element of a file-scope variable.
    pub fn assign_global_elem(
        &mut self,
        array: &'a String,
        gty: &'a Type,
        indices: &Vec<&'a Expr>,
        value: &'a Expr,
    )
        requires
            old(self).cx.env.wf(),
            gty.fits(),
            plan_assign_global_elem(old(self).cx, array, gty, indices@, value) is Emit,
        ensures
            final(self).wrote(
                *old(self),
                plan_assign_global_elem(old(self).cx, array, gty, indices@, value),
            ),
    {
        if self.try_elem_global_const(array, gty, indices, value) {
            return;
        }
        if self.try_elem_global_pointer(array, gty, indices, value) {
            return;
        }
        if self.try_elem_global_pointer_long(array, gty, indices, value) {
            return;
        }
        if self.try_elem_global_si(array, gty, indices, value) {
            return;
        }
        if self.try_elem_global_register(array, gty, indices, value) {
            return;
        }
        if self.try_elem_global_int(array, gty, indices, value) {
            return;
        }
        if self.try_elem_global_long(array, gty, indices, value) {
            return;
        }
        if self.try_elem_global_small(array, gty, indices, value) {
            return;
        }
        if self.try_elem_global_2d(array, gty, indices, value) {
            return;
        }
        return;
    }

    /// Emits what [`plan_elem_pointer_index`] says, if it applies.
    pub fn try_elem_pointer_index(
        &mut self,
        array: &'a String,
        t: &'a Type,
        index: &'a Expr,
        value: &'a Expr,
    ) -> (done: bool)
        requires
            old(self).cx.env.wf(),
            t.is_countable(),
            !(plan_elem_pointer_index(old(self).cx, array, t, index, value) is Stuck),
        ensures
            final(self).ran(
                *old(self),
                plan_elem_pointer_index(old(self).cx, array, t, index, value),
                done,
            ),
    {
        let cx: Cx<'a> = self.cx;
        if !(t.size_bytes() == 1) {
            return false;
        }
        let Some(reg) = index_reg_of(cx.env, index) else { return false; };
        self.name_into_bx(array);
        self.store_char(Addr::Indexed(Reg::Bx, reg, Disp::Zero), value, false);
        true
    }

    /// Emits what [`plan_elem_pointer_memory`] says, if it applies.
    pub fn try_elem_pointer_memory(
        &mut self,
        array: &'a String,
        t: &'a Type,
        index: &'a Expr,
    ) -> (done: bool)
        requires
            old(self).cx.env.wf(),
            t.is_countable(),
            !(plan_elem_pointer_memory(old(self).cx, array, t, index) is Stuck),
        ensures
            final(self).ran(
                *old(self),
                plan_elem_pointer_memory(old(self).cx, array, t, index),
                done,
            ),
    {
        let cx: Cx<'a> = self.cx;
        if !(t.size_bytes() == 1) {
            return false;
        }
        let Some(addr) = &cx.env.facts(index).int_addr else { return false; };
        self.name_into_bx(array);
        self.put(add_to(bx(), word(named(addr))));
        true
    }

    /// Emits what [`plan_elem_pointer_stack`] says, if it applies.
    pub fn try_elem_pointer_stack(
        &mut self,
        array: &'a String,
        t: &'a Type,
        index: &'a Expr,
    ) -> (done: bool)
        requires
            old(self).cx.env.wf(),
            t.is_countable(),
            !(plan_elem_pointer_stack(old(self).cx, array, t, index) is Stuck),
        ensures
            final(self).ran(
                *old(self),
                plan_elem_pointer_stack(old(self).cx, array, t, index),
                done,
            ),
    {
        let cx: Cx<'a> = self.cx;
        if !(t.size_bytes() == 2) {
            return false;
        }
        let Some(off) = cx.env.stack_of(array) else { return false; };
        let Some(src) = &cx.env.facts(index).source else { return false; };
        self.put(mov(ax(), given(&src.word)));
        self.put(shl1(ax()));
        self.put(mov(bx(), word(bp(off))));
        self.put(add_to(bx(), ax()));
        true
    }

    /// Emits what [`plan_elem_pointer_general`] says, if it applies.
    pub fn try_elem_pointer_general(
        &mut self,
        array: &'a String,
        t: &'a Type,
        index: &'a Expr,
    ) -> (done: bool)
        requires
            old(self).cx.env.wf(),
            t.is_countable(),
            !(plan_elem_pointer_general(old(self).cx, array, t, index) is Stuck),
        ensures
            final(self).ran(
                *old(self),
                plan_elem_pointer_general(old(self).cx, array, t, index),
                done,
            ),
    {
        let cx: Cx<'a> = self.cx;
        let Some(src) = &cx.env.facts(index).source else { return false; };
        self.name_into_bx(array);
        self.put(mov(ax(), given(&src.word)));
        self.scale_ax(t.size_bytes());
        self.put(add_to(bx(), ax()));
        true
    }

    /// The address of an element behind a local pointer, into `bx`.
    pub fn pointer_elem_addr(&mut self, array: &'a String, t: &'a Type, index: &'a Expr)
        requires
            old(self).cx.env.wf(),
            t.is_countable(),
            plan_pointer_elem_addr(old(self).cx, array, t, index) is Emit,
        ensures
            final(self).wrote(*old(self), plan_pointer_elem_addr(old(self).cx, array, t, index)),
    {
        if self.try_elem_pointer_memory(array, t, index) {
            return;
        }
        if self.try_elem_pointer_stack(array, t, index) {
            return;
        }
        self.try_elem_pointer_general(array, t, index);
        return;
    }

    /// Emits what [`plan_elem_pointer_variable`] says, if it applies.
    pub fn try_elem_pointer_variable(
        &mut self,
        array: &'a String,
        l: &'a Local,
        indices: &Vec<&'a Expr>,
        value: &'a Expr,
    ) -> (done: bool)
        requires
            old(self).cx.env.wf(),
            l.ty.fits(),
            !(plan_elem_pointer_variable(old(self).cx, array, l, indices@, value) is Stuck),
        ensures
            final(self).ran(
                *old(self),
                plan_elem_pointer_variable(old(self).cx, array, l, indices@, value),
                done,
            ),
    {
        let Some(t) = l.ty.pointee() else { return false; };
        if !(indices.len() == 1) {
            return false;
        }
        if self.try_elem_pointer_index(array, t, indices[0], value) {
            return true;
        }
        self.pointer_elem_addr(array, t, indices[0]);
        if t.is_char_like() {
            self.store_char(at(Reg::Bx), value, false);
            return true;
        } else if t.is_long_like() {
            self.store_long(at2(Reg::Bx), at(Reg::Bx), value);
            return true;
        } else {
            if !(t.size_bytes() <= 2) {
                return false;
            }
            self.store_value(false, at(Reg::Bx), value);
            return true;
        }
    }

    /// Emits what [`plan_elem_frame_float`] says, if it applies.
    pub fn try_elem_frame_float(
        &mut self,
        slot: Addr<'a>,
        leaf: &'a Type,
        value: &'a Expr,
    ) -> (done: bool)
        requires
            old(self).cx.env.wf(),
            !(plan_elem_frame_float(old(self).cx, slot, leaf, value) is Stuck),
        ensures
            final(self).ran(
                *old(self),
                plan_elem_frame_float(old(self).cx, slot, leaf, value),
                done,
            ),
    {
        let cx: Cx<'a> = self.cx;
        if !leaf.is_float_like() {
            return false;
        }
        if cx.env.facts(value).is_float_one {
            self.put(Step::Op0(Mnemonic::Fld1));
            self.put(op1(Mnemonic::Fstp, wide(float_width(leaf), slot)));
            return true;
        } else {
            self.put(Step::FloatLoad(value));
            self.put(op1(Mnemonic::Fstp, wide(float_width(leaf), slot)));
            return true;
        }
    }

    /// Emits what [`plan_elem_frame_long`] says, if it applies.
    pub fn try_elem_frame_long(
        &mut self,
        slot: Addr<'a>,
        high: Addr<'a>,
        leaf: &'a Type,
        value: &'a Expr,
    ) -> (done: bool)
        requires
            old(self).cx.env.wf(),
            !(plan_elem_frame_long(old(self).cx, slot, high, leaf, value) is Stuck),
        ensures
            final(self).ran(
                *old(self),
                plan_elem_frame_long(old(self).cx, slot, high, leaf, value),
                done,
            ),
    {
        let cx: Cx<'a> = self.cx;
        if !leaf.is_long_like() {
            return false;
        }
        let Some(v) = cx.env.const_of(value) else { return false; };
        self.store_long_const(high, slot, v);
        true
    }

    /// Emits what [`plan_elem_frame_value`] says, if it applies.
    pub fn try_elem_frame_value(
        &mut self,
        slot: Addr<'a>,
        leaf: &'a Type,
        value: &'a Expr,
    ) -> (done: bool)
        requires
            old(self).cx.env.wf(),
            !(plan_elem_frame_value(old(self).cx, slot, leaf, value) is Stuck),
        ensures
            final(self).ran(
                *old(self),
                plan_elem_frame_value(old(self).cx, slot, leaf, value),
                done,
            ),
    {
        let cx: Cx<'a> = self.cx;
        let Some(v) = cx.env.const_of(value) else { return false; };
        self.put(mov(sized(leaf.is_char_like(), slot), imm(masked(v, leaf.is_char_like()))));
        true
    }

    /// Emits what [`plan_elem_frame_register`] says, if it applies.
    pub fn try_elem_frame_register(&mut self, slot: Addr<'a>, value: &'a Expr) -> (done: bool)
        requires
            old(self).cx.env.wf(),
            !(plan_elem_frame_register(old(self).cx, slot, value) is Stuck),
        ensures
            final(self).ran(
                *old(self),
                plan_elem_frame_register(old(self).cx, slot, value),
                done,
            ),
    {
        let cx: Cx<'a> = self.cx;
        let ExprKind::Ident(src) = &value.kind else { return false; };
        if !cx.env.is_int_local(src) {
            return false;
        }
        let Some(reg) = cx.env.word_reg_of(src) else { return false; };
        self.put(mov(word(slot), r(reg)));
        true
    }

    /// Emits what [`plan_elem_frame_string`] says, if it applies.
    pub fn try_elem_frame_string(&mut self, slot: Addr<'a>, value: &'a Expr) -> (done: bool)
        requires
            old(self).cx.env.wf(),
            !(plan_elem_frame_string(old(self).cx, slot, value) is Stuck),
        ensures
            final(self).ran(*old(self), plan_elem_frame_string(old(self).cx, slot, value), done),
    {
        let ExprKind::StringLit(bytes) = &value.kind else { return false; };
        self.put(mov(word(slot), Operand::PooledAt(value.span.start, bytes)));
        true
    }

    /// Emits what [`plan_elem_frame_const`] says, if it applies.
    pub fn try_elem_frame_const(
        &mut self,
        base: i16,
        ty: &'a Type,
        indices: &Vec<&'a Expr>,
        value: &'a Expr,
    ) -> (done: bool)
        requires
            old(self).cx.env.wf(),
            ty.fits(),
            !(plan_elem_frame_const(old(self).cx, base, ty, indices@, value) is Stuck),
        ensures
            final(self).ran(
                *old(self),
                plan_elem_frame_const(old(self).cx, base, ty, indices@, value),
                done,
            ),
    {
        let cx: Cx<'a> = self.cx;
        let Some((off, leaf)) = cx.env.const_array_offset(ty, indices) else { return false; };
        let slot: Addr<'a> = bp_plus(base, sat16(off));
        if self.try_elem_frame_float(slot, leaf, value) {
            return true;
        }
        if self.try_elem_frame_long(slot, bp_plus2(base, sat16(off)), leaf, value) {
            return true;
        }
        if self.try_elem_frame_value(slot, leaf, value) {
            return true;
        }
        if !(!leaf.is_char_like()) {
            return false;
        }
        if self.try_elem_frame_register(slot, value) {
            return true;
        }
        if self.try_elem_frame_string(slot, value) {
            return true;
        }
        self.put(to_ax(cx, value));
        self.put(mov(word(slot), ax()));
        true
    }

    /// Emits what [`plan_elem_frame_2d`] says, if it applies.
    pub fn try_elem_frame_2d(
        &mut self,
        base: i16,
        ty: &'a Type,
        indices: &Vec<&'a Expr>,
        value: &'a Expr,
    ) -> (done: bool)
        requires
            old(self).cx.env.wf(),
            ty.fits(),
            !(plan_elem_frame_2d(old(self).cx, base, ty, indices@, value) is Stuck),
        ensures
            final(self).ran(
                *old(self),
                plan_elem_frame_2d(old(self).cx, base, ty, indices@, value),
                done,
            ),
    {
        let cx: Cx<'a> = self.cx;
        if !(indices.len() == 2) {
            return false;
        }
        let Some(row) = ty.array_elem() else { return false; };
        let Some(t) = row.array_elem() else { return false; };
        let Some(v) = cx.env.const_of(value) else { return false; };
        self.emit_array_addr_2d_to_bx(indices[0], indices[1], row.size_bytes(), t.size_bytes(), base);
        self.put(mov(sized(t.is_char_like(), at(Reg::Bx)), imm(masked(v, t.is_char_like()))));
        true
    }

    /// Adds a constant to `al`, or steps it by one.
    pub fn add_to_al(&mut self, k: u32)
        requires
            old(self).cx.env.wf(),
            plan_add_to_al(old(self).cx, k) is Emit,
        ensures
            final(self).wrote(*old(self), plan_add_to_al(old(self).cx, k)),
    {
        if lo8(k) == 1 {
            self.put(op1(Mnemonic::Inc, al()));
        } else if lo8(k) == 255 {
            self.put(op1(Mnemonic::Dec, al()));
        } else {
            self.put(add_to(al(), imm(signed8(lo8(k)))));
        }
    }

    /// Emits what [`plan_elem_char_sum_first`] says, if it applies.
    pub fn try_elem_char_sum_first(
        &mut self,
        base: i16,
        t: &'a Type,
        index: &'a Expr,
        value: &'a Expr,
    ) -> (done: bool)
        requires
            old(self).cx.env.wf(),
            !(plan_elem_char_sum_first(old(self).cx, base, t, index, value) is Stuck),
        ensures
            final(self).ran(
                *old(self),
                plan_elem_char_sum_first(old(self).cx, base, t, index, value),
                done,
            ),
    {
        let cx: Cx<'a> = self.cx;
        if !(t.is_char_like() && cx.env.const_of(value).is_none()) {
            return false;
        }
        let Some((n, k)) = name_plus_const(cx.env, value) else { return false; };
        let Some(low) = low_reg_of(cx.env, n) else { return false; };
        if !(is_wide_of(cx.env, index, low) && !names_char_local(cx.env, index)) {
            return false;
        }
        let Some(reg) = cx.env.reg_of(n) else { return false; };
        self.put(mov(al(), r(low)));
        self.add_to_al(k);
        self.put(lea(dx(), bp(base)));
        self.put(mov(bx(), r(reg)));
        self.put(add_to(bx(), dx()));
        self.put(mov(byte(at(Reg::Bx)), al()));
        true
    }

    /// Emits what [`plan_elem_through_long`] says, if it applies.
    pub fn try_elem_through_long(&mut self, t: &'a Type, value: &'a Expr) -> (done: bool)
        requires
            old(self).cx.env.wf(),
            !(plan_elem_through_long(old(self).cx, t, value) is Stuck),
        ensures
            final(self).ran(*old(self), plan_elem_through_long(old(self).cx, t, value), done),
    {
        let cx: Cx<'a> = self.cx;
        if !t.is_long_like() {
            return false;
        }
        let Some(v) = cx.env.const_of(value) else { return false; };
        self.store_long_const(at2(Reg::Bx), at(Reg::Bx), v);
        true
    }

    /// Emits what [`plan_elem_through_pair`] says, if it applies.
    pub fn try_elem_through_pair(&mut self, t: &'a Type, value: &'a Expr) -> (done: bool)
        requires
            old(self).cx.env.wf(),
            !(plan_elem_through_pair(old(self).cx, t, value) is Stuck),
        ensures
            final(self).ran(*old(self), plan_elem_through_pair(old(self).cx, t, value), done),
    {
        let cx: Cx<'a> = self.cx;
        if !t.is_long_like() {
            return false;
        }
        let Some((hi, lo)) = &cx.env.facts(value).long_addrs else { return false; };
        self.copy_long(at2(Reg::Bx), at(Reg::Bx), named(hi), named(lo));
        true
    }

    /// Emits what [`plan_elem_through_const`] says, if it applies.
    pub fn try_elem_through_const(&mut self, t: &'a Type, value: &'a Expr) -> (done: bool)
        requires
            old(self).cx.env.wf(),
            !(plan_elem_through_const(old(self).cx, t, value) is Stuck),
        ensures
            final(self).ran(*old(self), plan_elem_through_const(old(self).cx, t, value), done),
    {
        let cx: Cx<'a> = self.cx;
        let Some(v) = cx.env.const_of(value) else { return false; };
        self.put(mov(sized(t.is_char_like(), at(Reg::Bx)), imm(masked(v, t.is_char_like()))));
        true
    }

    /// Emits what [`plan_elem_through_register`] says, if it applies.
    pub fn try_elem_through_register(&mut self, t: &'a Type, value: &'a Expr) -> (done: bool)
        requires
            old(self).cx.env.wf(),
            !(plan_elem_through_register(old(self).cx, t, value) is Stuck),
        ensures
            final(self).ran(*old(self), plan_elem_through_register(old(self).cx, t, value), done),
    {
        let cx: Cx<'a> = self.cx;
        if !(!t.is_char_like()) {
            return false;
        }
        let ExprKind::Ident(name) = &value.kind else { return false; };
        let Some(reg) = cx.env.word_reg_of(name) else { return false; };
        self.put(mov(word(at(Reg::Bx)), r(reg)));
        true
    }

    /// Emits what [`plan_elem_through_low`] says, if it applies.
    pub fn try_elem_through_low(&mut self, t: &'a Type, value: &'a Expr) -> (done: bool)
        requires
            old(self).cx.env.wf(),
            !(plan_elem_through_low(old(self).cx, t, value) is Stuck),
        ensures
            final(self).ran(*old(self), plan_elem_through_low(old(self).cx, t, value), done),
    {
        let cx: Cx<'a> = self.cx;
        if !t.is_char_like() {
            return false;
        }
        let ExprKind::Ident(name) = &value.kind else { return false; };
        let Some(low) = low_reg_of(cx.env, name) else { return false; };
        self.put(mov(al(), r(low)));
        self.put(mov(byte(at(Reg::Bx)), al()));
        true
    }

    /// Emits what [`plan_elem_through_sum`] says, if it applies.
    pub fn try_elem_through_sum(&mut self, t: &'a Type, value: &'a Expr) -> (done: bool)
        requires
            old(self).cx.env.wf(),
            !(plan_elem_through_sum(old(self).cx, t, value) is Stuck),
        ensures
            final(self).ran(*old(self), plan_elem_through_sum(old(self).cx, t, value), done),
    {
        let cx: Cx<'a> = self.cx;
        if !t.is_char_like() {
            return false;
        }
        let Some((n, k)) = name_plus_const(cx.env, value) else { return false; };
        let Some(low) = low_reg_of(cx.env, n) else { return false; };
        self.put(mov(al(), r(low)));
        self.add_to_al(k);
        self.put(mov(byte(at(Reg::Bx)), al()));
        true
    }

    /// Emits what [`plan_elem_through_general`] says, if it applies.
    pub fn try_elem_through_general(&mut self, t: &'a Type, value: &'a Expr) -> (done: bool)
        requires
            old(self).cx.env.wf(),
            !(plan_elem_through_general(old(self).cx, t, value) is Stuck),
        ensures
            final(self).ran(*old(self), plan_elem_through_general(old(self).cx, t, value), done),
    {
        let cx: Cx<'a> = self.cx;
        self.put(Step::ToAx(value, t.is_char_like() || cx.skip_widen));
        self.put(mov(sized(t.is_char_like(), at(Reg::Bx)), acc(t.is_char_like())));
        true
    }

    /// Stores a value of type `t` through `bx`.
    pub fn store_elem_through_bx(&mut self, t: &'a Type, value: &'a Expr)
        requires
            old(self).cx.env.wf(),
            plan_store_elem_through_bx(old(self).cx, t, value) is Emit,
        ensures
            final(self).wrote(*old(self), plan_store_elem_through_bx(old(self).cx, t, value)),
    {
        if self.try_elem_through_long(t, value) {
            return;
        }
        if self.try_elem_through_pair(t, value) {
            return;
        }
        if self.try_elem_through_const(t, value) {
            return;
        }
        if self.try_elem_through_register(t, value) {
            return;
        }
        if self.try_elem_through_low(t, value) {
            return;
        }
        if self.try_elem_through_sum(t, value) {
            return;
        }
        self.try_elem_through_general(t, value);
        return;
    }

    /// Emits what [`plan_elem_frame_variable`] says, if it applies.
    pub fn try_elem_frame_variable(
        &mut self,
        base: i16,
        ty: &'a Type,
        indices: &Vec<&'a Expr>,
        value: &'a Expr,
    ) -> (done: bool)
        requires
            old(self).cx.env.wf(),
            ty.fits(),
            !(plan_elem_frame_variable(old(self).cx, base, ty, indices@, value) is Stuck),
        ensures
            final(self).ran(
                *old(self),
                plan_elem_frame_variable(old(self).cx, base, ty, indices@, value),
                done,
            ),
    {
        if !(indices.len() == 1) {
            return false;
        }
        let Some(t) = ty.array_elem() else { return false; };
        if self.try_elem_char_sum_first(base, t, indices[0], value) {
            return true;
        }
        self.emit_array_addr_to_bx(indices[0], base, t.size_bytes());
        self.store_elem_through_bx(t, value);
        true
    }

    /// An element of an array on the stack.
    pub fn assign_frame_elem(
        &mut self,
        base: i16,
        ty: &'a Type,
        indices: &Vec<&'a Expr>,
        value: &'a Expr,
    )
        requires
            old(self).cx.env.wf(),
            ty.fits(),
            plan_assign_frame_elem(old(self).cx, base, ty, indices@, value) is Emit,
        ensures
            final(self).wrote(
                *old(self),
                plan_assign_frame_elem(old(self).cx, base, ty, indices@, value),
            ),
    {
        if self.try_elem_frame_const(base, ty, indices, value) {
            return;
        }
        if self.try_elem_frame_2d(base, ty, indices, value) {
            return;
        }
        self.try_elem_frame_variable(base, ty, indices, value);
        return;
    }

    /// An element of a local variable.
    pub fn assign_local_elem(
        &mut self,
        array: &'a String,
        indices: &Vec<&'a Expr>,
        value: &'a Expr,
    )
        requires
            old(self).cx.env.wf(),
            plan_assign_local_elem(old(self).cx, array, indices@, value) is Emit,
        ensures
            final(self).wrote(
                *old(self),
                plan_assign_local_elem(old(self).cx, array, indices@, value),
            ),
    {
        let cx: Cx<'a> = self.cx;
        let Some(l) = cx.env.local(array) else { return; };
        if self.try_elem_pointer_variable(array, l, indices, value) {
            return;
        }
        let LocalLocation::Stack(base) = l.loc else { return; };
        self.assign_frame_elem(base, &l.ty, indices, value);
    }

    /// `array[i]... = value`.
    pub fn assign_elem(&mut self, array: &'a String, indices: &Vec<&'a Expr>, value: &'a Expr)
        requires
            old(self).cx.env.wf(),
            plan_assign_elem(old(self).cx, array, indices@, value) is Emit,
        ensures
            final(self).wrote(*old(self), plan_assign_elem(old(self).cx, array, indices@, value)),
    {
        let cx: Cx<'a> = self.cx;
        if self.try_elem_function_local(array, indices, value) {
            return;
        }
        if self.try_elem_function_global(array, indices, value) {
            return;
        }
        if self.try_elem_pointer_const(array, indices, value) {
            return;
        }
        match cx.env.global_type(array) {
            Some(gty) => {
                self.assign_global_elem(array, gty, indices, value);
            },
            None => {
                self.assign_local_elem(array, indices, value);
            },
        }
    }
}

impl<'a> FunctionEmitter<'a> {
    /// Assigns a value to an array element.
    pub fn emit_array_assign(
        &mut self,
        array: &'a String,
        indices: &'a Vec<Expr>,
        value: &'a Expr,
    )
        requires
            old(self).cx.env.wf(),
            plan_emit_array_assign(old(self).cx, array, indices, value) is Emit,
        ensures
            final(self).wrote(
                *old(self),
                plan_emit_array_assign(old(self).cx, array, indices, value),
            ),
    {
        let list: Vec<&'a Expr> = each_of(indices);
        self.assign_elem(array, &list, value);
    }
}

} // verus!
