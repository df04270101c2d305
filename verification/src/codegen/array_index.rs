//! Reading array elements.

use vstd::prelude::*;
use crate::ast::{BinOp, Expr, ExprKind, MemberKind, Type};
use crate::codegen::emitter::{
    add_to, imul, mov, shl1, to_ax, widen, Cx, FunctionEmitter, Plan, Step,
};
use crate::codegen::env::{Env, IndexSource, Local, LocalLocation};
use crate::isa::{
    al, at, at_disp, ax, bp_plus, bp_sat, bx, byte, disp, dx, elem, elem_at, global_at, halvings,
    imm, is_additive, is_pow2, named, plus, r, sat16, scaled, signed, signed_of, usat16, uscaled,
    word, Addr, Operand, Reg,
};

verus! {

/// Whether the elements of a named local array are unsigned.
#[verifier::allow_in_spec]
pub fn elem_is_unsigned(env: &Env, array: &Expr) -> bool
    returns
        (match &array.kind {
            ExprKind::Ident(name) => match env.local_elem(name) {
                Some(t) => t.is_unsigned(),
                None => false,
            },
            _ => false,
        }),
{
    match &array.kind {
        ExprKind::Ident(name) => match env.local_elem(name) {
            Some(t) => t.is_unsigned(),
            None => false,
        },
        _ => false,
    }
}

/// A character of an array on the stack, subscripted by `si`.
pub open spec fn plan_index_frame_char<'a>(
    cx: Cx<'a>,
    array: &'a Expr,
    index: &'a Expr,
) -> Plan<'a> {
    if let Some(d) = cx.env.facts(index).frame_disp {
        Plan::Emit(seq![
            mov(al(), byte(Addr::Indexed(Reg::Bp, Reg::Si, signed(d as i64)))),
            widen(elem_is_unsigned(cx.env, array)),
        ])
    } else {
        Plan::Skip
    }
}

/// A character of a string literal.
pub open spec fn plan_index_string<'a>(cx: Cx<'a>, array: &'a Expr, index: &'a Expr) -> Plan<'a> {
    if let ExprKind::StringLit(bytes) = &array.kind {
        Plan::Emit(seq![Step::IndexString(bytes, index)])
    } else {
        Plan::Skip
    }
}

/// `(c ? a : b)[k]`: the array is chosen first.
pub open spec fn plan_index_choice<'a>(cx: Cx<'a>, array: &'a Expr, index: &'a Expr) -> Plan<'a> {
    if let ExprKind::Ternary { cond: _, then_value, else_value: _ } = &array.kind {
        if let Some(k) = cx.env.const_of(index) {
            if let ExprKind::Ident(name) = &then_value.kind {
                if let Some(t) = cx.env.local_elem(name) {
                    Plan::Emit(seq![
                        to_ax(cx, array),
                        mov(bx(), ax()),
                    ]).followed_by(
                        crate::codegen::common::plan_load_value(cx, t, at_disp(Reg::Bx, plus(scaled(k, (t.size() as u16)) as i64))),
                    )
                } else {
                    Plan::Skip
                }
            } else {
                Plan::Skip
            }
        } else {
            Plan::Skip
        }
    } else {
        Plan::Skip
    }
}

/// The offset of element `k` of an array member, cut to 32 bits before the
/// offset of the member is added; `None` where the sum is out of range.
#[verifier::allow_in_spec]
pub fn member_elem(off: u16, k: u32, size: u16) -> Option<u32>
    returns
        (if uscaled(k, size) <= 0xFFFF_FFFF - off as u32 {
            Some((off as u32 + uscaled(k, size)) as u32)
        } else {
            None
        }),
{
    if uscaled(k, size) <= 0xFFFF_FFFF - off as u32 {
        Some((off as u32 + uscaled(k, size)) as u32)
    } else {
        None
    }
}

/// `s.a[k]` for a named struct.
pub open spec fn plan_index_member<'a>(cx: Cx<'a>, array: &'a Expr, index: &'a Expr) -> Plan<'a> {
    if let ExprKind::Member { base, field, kind: MemberKind::Dot } = &array.kind {
        if let ExprKind::Ident(name) = &base.kind {
            if let Some(k) = cx.env.const_of(index) {
                if let Some(ty) = cx.env.var_type(name) {
                    if let Some(f) = ty.struct_field_info(field) {
                        if let Some(t) = f.ty.array_elem() {
                            if let Some(total) = member_elem(f.offset, k, (t.size() as u16)) {
                                if cx.env.is_global(name) {
                                    crate::codegen::common::plan_load_value(cx, t, global_at(name, plus(total as i64)))
                                } else {
                                    if let Some(off) = cx.env.stack_of(name) {
                                        crate::codegen::common::plan_load_value(cx, t, bp_plus(off, usat16(total)))
                                    } else {
                                        Plan::Stuck
                                    }
                                }
                            } else {
                                Plan::Stuck
                            }
                        } else {
                            Plan::Skip
                        }
                    } else {
                        Plan::Skip
                    }
                } else {
                    Plan::Stuck
                }
            } else {
                Plan::Skip
            }
        } else {
            Plan::Skip
        }
    } else {
        Plan::Skip
    }
}

/// `f()[k]`.
pub open spec fn plan_index_call<'a>(cx: Cx<'a>, array: &'a Expr, index: &'a Expr) -> Plan<'a> {
    if let ExprKind::Call { name, args } = &array.kind {
        if let Some(k) = cx.env.const_of(index) {
            if let Some(ret) = cx.env.ret_ty_of(name) {
                if let Some(t) = ret.pointee() {
                    Plan::Emit(seq![
                        Step::CallFn(name, args),
                        mov(bx(), ax()),
                    ]).followed_by(
                        crate::codegen::common::plan_load_value(cx, t, at_disp(Reg::Bx, disp(scaled(k, (t.size() as u16))))),
                    )
                } else {
                    Plan::Skip
                }
            } else {
                Plan::Skip
            }
        } else {
            Plan::Skip
        }
    } else {
        Plan::Skip
    }
}

/// An element of an array within a file-scope struct, at any depth.
pub open spec fn plan_index_global_member<'a>(
    cx: Cx<'a>,
    array: &'a Expr,
    index: &'a Expr,
) -> Plan<'a> {
    if let ExprKind::Member { base: _, field: _, kind: MemberKind::Dot } = &array.kind {
        if let Some(chain) = &cx.env.facts(array).chain {
            if !cx.env.has(&chain.name) && cx.env.is_global(&chain.name) {
                if let Some(t) = chain.ty.array_elem() {
                    if 0 <= chain.off && chain.off <= 0xFFFF {
                        match cx.env.const_of(index) {
                            Some(k) => {
                                if let Some(total) = member_elem(chain.off as u16, k, (t.size() as u16)) {
                                    crate::codegen::common::plan_load_value(cx, t, global_at(&chain.name, plus(total as i64)))
                                } else {
                                    Plan::Stuck
                                }
                            },
                            None => {
                                crate::codegen::array_addr::plan_emit_index_into_bx(cx, index, t).followed_by(
                                    crate::codegen::common::plan_load_value(cx, t, elem_at(&chain.name, plus(chain.off as i64), Reg::Bx)),
                                )
                            },
                        }
                    } else {
                        Plan::Skip
                    }
                } else {
                    Plan::Skip
                }
            } else {
                Plan::Skip
            }
        } else {
            Plan::Skip
        }
    } else {
        Plan::Skip
    }
}

/// `p->q[k]` for a pointer member behind a register.
pub open spec fn plan_index_arrow_pointer<'a>(
    cx: Cx<'a>,
    array: &'a Expr,
    index: &'a Expr,
) -> Plan<'a> {
    if let ExprKind::Member { base, field, kind: MemberKind::Arrow } = &array.kind {
        if let ExprKind::Ident(name) = &base.kind {
            if let Some(reg) = cx.env.reg_of(name) {
                if let Some(st) = cx.env.local_pointee(name) {
                    if let Some(f) = st.struct_field_info(field) {
                        if let Some(t) = f.ty.pointee() {
                            if let Some(k) = cx.env.const_of(index) {
                                Plan::Emit(seq![mov(bx(), word(at_disp(reg, plus(f.offset as i64))))]).followed_by(
                                    crate::codegen::common::plan_load_value(cx, t, at_disp(Reg::Bx, disp(scaled(k, (t.size() as u16))))),
                                )
                            } else {
                                Plan::Skip
                            }
                        } else {
                            Plan::Skip
                        }
                    } else {
                        Plan::Skip
                    }
                } else {
                    Plan::Skip
                }
            } else {
                Plan::Skip
            }
        } else {
            Plan::Skip
        }
    } else {
        Plan::Skip
    }
}

/// `p->a[k]` for an array member behind a register.
pub open spec fn plan_index_arrow_array<'a>(
    cx: Cx<'a>,
    array: &'a Expr,
    index: &'a Expr,
) -> Plan<'a> {
    if let ExprKind::Member { base, field, kind: MemberKind::Arrow } = &array.kind {
        if let ExprKind::Ident(name) = &base.kind {
            if let Some(reg) = cx.env.reg_of(name) {
                if let Some(st) = cx.env.local_pointee(name) {
                    if let Some(f) = st.struct_field_info(field) {
                        if let Some(t) = f.ty.array_elem() {
                            if let Some(k) = cx.env.const_of(index) {
                                if let Some(total) = member_elem(f.offset, k, (t.size() as u16)) {
                                    crate::codegen::common::plan_load_value(cx, t, at_disp(reg, plus(signed_of(total))))
                                } else {
                                    Plan::Stuck
                                }
                            } else {
                                Plan::Skip
                            }
                        } else {
                            Plan::Skip
                        }
                    } else {
                        Plan::Skip
                    }
                } else {
                    Plan::Skip
                }
            } else {
                Plan::Skip
            }
        } else {
            Plan::Skip
        }
    } else {
        Plan::Skip
    }
}

/// Subscripted expressions that are no variable.
pub open spec fn plan_index_special<'a>(
    cx: Cx<'a>,
    array: &'a Expr,
    index: &'a Expr,
) -> Plan<'a> {
    match plan_index_frame_char(cx, array, index) {
        Plan::Skip => {
            match plan_index_string(cx, array, index) {
                Plan::Skip => {
                    match plan_index_choice(cx, array, index) {
                        Plan::Skip => {
                            match plan_index_member(cx, array, index) {
                                Plan::Skip => {
                                    match plan_index_call(cx, array, index) {
                                        Plan::Skip => {
                                            match plan_index_global_member(cx, array, index) {
                                                Plan::Skip => {
                                                    match plan_index_arrow_pointer(cx, array, index) {
                                                        Plan::Skip => {
                                                            plan_index_arrow_array(cx, array, index)
                                                        },
                                                        taken => taken,
                                                    }
                                                },
                                                taken => taken,
                                            }
                                        },
                                        taken => taken,
                                    }
                                },
                                taken => taken,
                            }
                        },
                        taken => taken,
                    }
                },
                taken => taken,
            }
        },
        taken => taken,
    }
}

/// The variable under a chain of subscripts, and whether it is dereferenced
/// first.
pub open spec fn spec_subscript_base<'a>(e: &'a Expr) -> Option<(&'a String, bool)>
    decreases e,
{
    match &e.kind {
        ExprKind::ArrayIndex { array, index: _ } => spec_subscript_base(&**array),
        ExprKind::Ident(name) => Some((name, false)),
        ExprKind::Deref(inner) => match &inner.kind {
            ExprKind::Ident(name) => Some((name, true)),
            _ => None,
        },
        _ => None,
    }
}

/// The variable under a chain of subscripts, and whether it is dereferenced
/// first.
#[verifier::when_used_as_spec(spec_subscript_base)]
pub fn subscript_base<'a>(e: &'a Expr) -> (r: Option<(&'a String, bool)>)
    ensures
        r == spec_subscript_base(e),
    decreases e,
{
    match &e.kind {
        ExprKind::ArrayIndex { array, index: _ } => subscript_base(&**array),
        ExprKind::Ident(name) => Some((name, false)),
        ExprKind::Deref(inner) => match &inner.kind {
            ExprKind::Ident(name) => Some((name, true)),
            _ => None,
        },
        _ => None,
    }
}

/// The subscripts of a chain in the order they are written.
pub open spec fn subscripts<'a>(e: &'a Expr) -> Seq<&'a Expr>
    decreases e,
{
    match &e.kind {
        ExprKind::ArrayIndex { array, index } => subscripts(&**array).push(&**index),
        _ => seq![],
    }
}

/// The subscripts of a chain in the order they are written.
pub fn collect_subscripts<'a>(e: &'a Expr) -> (r: Vec<&'a Expr>)
    ensures
        r@ == subscripts(e),
    decreases e,
{
    match &e.kind {
        ExprKind::ArrayIndex { array, index } => {
            let mut list: Vec<&'a Expr> = collect_subscripts(&**array);
            list.push(&**index);
            list
        },
        _ => Vec::new(),
    }
}

/// An element through a file-scope pointer.
pub open spec fn plan_index_global_pointer<'a>(
    cx: Cx<'a>,
    name: &'a String,
    gty: &'a Type,
    indices: Seq<&'a Expr>,
) -> Plan<'a> {
    if let Some(t) = gty.pointee() {
        if indices.len() == 1 {
            Plan::Emit(seq![Step::IndexGlobalPointer(name, t, indices[0])])
        } else {
            Plan::Skip
        }
    } else {
        Plan::Skip
    }
}

/// `a[k][m]` for a file-scope array of pointers.
pub open spec fn plan_index_global_pointers<'a>(
    cx: Cx<'a>,
    name: &'a String,
    gty: &'a Type,
    indices: Seq<&'a Expr>,
) -> Plan<'a> {
    if indices.len() == 2 {
        if let Some(outer) = gty.array_elem() {
            if let Some(t) = outer.pointee() {
                if let Some(k) = cx.env.const_of(indices[0]) {
                    if let Some(m) = cx.env.const_of(indices[1]) {
                        Plan::Emit(seq![
                            mov(bx(), word(global_at(name, plus(uscaled(k, (outer.size() as u16)) as i64)))),
                        ]).followed_by(
                            crate::codegen::common::plan_load_value(cx, t, at_disp(Reg::Bx, disp(scaled(m, (t.size() as u16))))),
                        )
                    } else {
                        Plan::Skip
                    }
                } else {
                    Plan::Skip
                }
            } else {
                Plan::Skip
            }
        } else {
            Plan::Skip
        }
    } else {
        Plan::Skip
    }
}

/// Constant subscripts of a file-scope array.
pub open spec fn plan_index_global_const<'a>(
    cx: Cx<'a>,
    name: &'a String,
    gty: &'a Type,
    indices: Seq<&'a Expr>,
) -> Plan<'a> {
    if let Some((off, leaf)) = cx.env.spec_const_array_offset(gty, indices) {
        crate::codegen::common::plan_load_value(cx, leaf, global_at(name, plus(off as i64)))
    } else {
        Plan::Skip
    }
}

/// Whether an expression is a variable part plus or minus a constant.
#[verifier::allow_in_spec]
pub fn is_offset_sum(env: &Env, e: &Expr) -> bool
    returns
        (match &e.kind {
            ExprKind::BinOp { op, left, right } => is_additive(*op) && env.const_of(&**right).is_some()
                && env.const_of(&**left).is_none(),
            _ => false,
        }),
{
    match &e.kind {
        ExprKind::BinOp { op, left, right } => is_additive(*op) && env.const_of(&**right).is_some()
            && env.const_of(&**left).is_none(),
        _ => false,
    }
}

/// The variable part of a subscript.
#[verifier::allow_in_spec]
pub fn variable_part<'b>(env: &Env, e: &'b Expr) -> &'b Expr
    returns
        (if is_offset_sum(env, e) {
            match &e.kind {
                ExprKind::BinOp { op: _, left, right: _ } => &**left,
                _ => e,
            }
        } else {
            e
        }),
{
    if is_offset_sum(env, e) {
        match &e.kind {
            ExprKind::BinOp { op: _, left, right: _ } => &**left,
            _ => e,
        }
    } else {
        e
    }
}

/// The byte offset of the constant part of a subscript.
#[verifier::allow_in_spec]
pub fn constant_part(env: &Env, e: &Expr, size: u16) -> i64
    returns
        (if is_offset_sum(env, e) {
            match &e.kind {
                ExprKind::BinOp { op, left: _, right } => match env.const_of(&**right) {
                    Some(k) => if *op == BinOp::Add {
                        scaled(k, size) as i64
                    } else {
                        (-(scaled(k, size) as i64)) as i64
                    },
                    None => 0i64,
                },
                _ => 0i64,
            }
        } else {
            0i64
        }),
{
    if is_offset_sum(env, e) {
        match &e.kind {
            ExprKind::BinOp { op, left: _, right } => match env.const_of(&**right) {
                Some(k) => if *op == BinOp::Add {
                    scaled(k, size) as i64
                } else {
                    (-(scaled(k, size) as i64)) as i64
                },
                None => 0i64,
            },
            _ => 0i64,
        }
    } else {
        0i64
    }
}

/// Whether an expression names a local variable in `si`.
#[verifier::allow_in_spec]
pub fn is_in_si(env: &Env, e: &Expr) -> bool
    returns
        (match &e.kind {
            ExprKind::Ident(name) => match env.reg_of(name) {
                Some(reg) => reg == Reg::Si,
                None => false,
            },
            _ => false,
        }),
{
    match &e.kind {
        ExprKind::Ident(name) => match env.reg_of(name) {
            Some(reg) => reg == Reg::Si,
            None => false,
        },
        _ => false,
    }
}

/// One variable subscript of a file-scope array: a constant part is folded
/// into the address, and a character is subscripted by `si` directly.
pub open spec fn plan_index_global_variable<'a>(
    cx: Cx<'a>,
    name: &'a String,
    gty: &'a Type,
    indices: Seq<&'a Expr>,
) -> Plan<'a> {
    if indices.len() == 1 {
        if let Some(t) = gty.array_elem() {
            let off = constant_part(cx.env, indices[0], (t.size() as u16));
            if -0x8000_0000 < off && off < 0x8000_0000 {
                if t.is_char_like() && is_in_si(cx.env, variable_part(cx.env, indices[0])) {
                    crate::codegen::common::plan_load_value(cx, t, elem_at(name, signed(off), Reg::Si))
                } else {
                    crate::codegen::array_addr::plan_emit_index_into_bx(cx, variable_part(cx.env, indices[0]), t).followed_by(
                        crate::codegen::common::plan_load_value(cx, t, elem_at(name, signed(off), Reg::Bx)),
                    )
                }
            } else {
                Plan::Stuck
            }
        } else {
            Plan::Skip
        }
    } else {
        Plan::Skip
    }
}

/// Whether a type is a pointer of default distance.
#[verifier::allow_in_spec]
pub fn is_default_pointer(t: &Type) -> bool
    returns
        (match t {
            Type::Pointer(_) => true,
            _ => false,
        }),
{
    match t {
        Type::Pointer(_) => true,
        _ => false,
    }
}

/// `a[i][m]` for a file-scope array of pointers, with a variable first
/// subscript.
pub open spec fn plan_index_global_pointer_at<'a>(
    cx: Cx<'a>,
    name: &'a String,
    gty: &'a Type,
    indices: Seq<&'a Expr>,
) -> Plan<'a> {
    if indices.len() == 2 {
        if let Some(outer) = gty.array_elem() {
            if is_default_pointer(outer) {
                if let Some(t) = outer.pointee() {
                    if let Some(m) = cx.env.const_of(indices[1]) {
                        if cx.env.const_of(indices[0]).is_none() {
                            crate::codegen::array_addr::plan_index_into_bx_by(cx, indices[0], 1).followed_by(
                                Plan::Emit(seq![mov(bx(), word(elem(name, Reg::Bx)))]),
                            ).followed_by(
                                crate::codegen::common::plan_load_value(cx, t, at_disp(Reg::Bx, disp(scaled(m, (t.size() as u16))))),
                            )
                        } else {
                            Plan::Skip
                        }
                    } else {
                        Plan::Skip
                    }
                } else {
                    Plan::Skip
                }
            } else {
                Plan::Skip
            }
        } else {
            Plan::Skip
        }
    } else {
        Plan::Skip
    }
}

/// The operand that an index is read from.
#[verifier::allow_in_spec]
pub fn index_source<'b>(src: &'b IndexSource) -> Operand<'b>
    returns
        (match src {
            IndexSource::Reg(reg) => r(*reg),
            IndexSource::Mem(addr) => word(named(addr)),
        }),
{
    match src {
        IndexSource::Reg(reg) => r(*reg),
        IndexSource::Mem(addr) => word(named(addr)),
    }
}

/// Adds a second subscript, scaled by the size of an element, to the row
/// offset in `ax`, for `bx`. A size that is a power of two is reached by
/// doubling in `dx`, and any other needs a multiplication in `ax`.
pub open spec fn plan_add_inner_to_row<'a>(
    cx: Cx<'a>,
    inner: &'a IndexSource,
    inner_stride: u16,
) -> Plan<'a> {
    if inner_stride == 1 {
        Plan::Emit(seq![
            add_to(ax(), index_source(inner)),
            mov(bx(), ax()),
        ])
    } else if is_pow2(inner_stride as u32) {
        Plan::Emit(seq![mov(dx(), index_source(inner))]).followed_by(
            Plan::Emit(shl1(dx()).times(halvings(inner_stride as u32) as nat)),
        ).followed_by(
            Plan::Emit(seq![
                add_to(ax(), dx()),
                mov(bx(), ax()),
            ]),
        )
    } else {
        Plan::Emit(seq![
            mov(bx(), ax()),
            mov(ax(), index_source(inner)),
            mov(dx(), imm(inner_stride as i64)),
            imul(dx()),
            add_to(bx(), ax()),
        ])
    }
}

/// Computes the offset of `a[i][j]` within a file-scope array into `bx`. A
/// row size that is a power of two is reached by doubling in `bx`; any other
/// needs a multiplication in `ax`.
pub open spec fn plan_index_2d_into_bx<'a>(
    cx: Cx<'a>,
    outer: &'a IndexSource,
    inner: &'a IndexSource,
    outer_stride: u16,
    inner_stride: u16,
) -> Plan<'a> {
    if is_pow2(outer_stride as u32) {
        Plan::Emit(seq![mov(bx(), index_source(outer))]).followed_by(
            Plan::Emit(shl1(bx()).times(halvings(outer_stride as u32) as nat)),
        ).followed_by(Plan::Emit(seq![mov(ax(), index_source(inner))])).followed_by(
            Plan::Emit(shl1(ax()).times(halvings(inner_stride as u32) as nat)),
        ).followed_by(Plan::Emit(seq![add_to(bx(), ax())]))
    } else {
        Plan::Emit(seq![
            mov(ax(), index_source(outer)),
            mov(dx(), imm(outer_stride as i64)),
            imul(dx()),
        ]).followed_by(plan_add_inner_to_row(cx, inner, inner_stride))
    }
}

/// `a[i][j]` for a two-dimensional file-scope array.
pub open spec fn plan_index_global_2d<'a>(
    cx: Cx<'a>,
    name: &'a String,
    gty: &'a Type,
    indices: Seq<&'a Expr>,
) -> Plan<'a> {
    if indices.len() == 2 {
        if let Some(row) = gty.array_elem() {
            if let Some(t) = row.array_elem() {
                if let Some(outer) = &cx.env.facts(indices[0]).int_src {
                    if let Some(inner) = &cx.env.facts(indices[1]).int_src {
                        plan_index_2d_into_bx(cx, outer, inner, (row.size() as u16), (t.size() as u16)).followed_by(
                            crate::codegen::common::plan_load_value(cx, t, elem(name, Reg::Bx)),
                        )
                    } else {
                        Plan::Skip
                    }
                } else {
                    Plan::Skip
                }
            } else {
                Plan::Skip
            }
        } else {
            Plan::Skip
        }
    } else {
        Plan::Skip
    }
}

/// A subscripted file-scope variable.
pub open spec fn plan_index_global<'a>(
    cx: Cx<'a>,
    name: &'a String,
    gty: &'a Type,
    indices: Seq<&'a Expr>,
) -> Plan<'a> {
    match plan_index_global_pointer(cx, name, gty, indices) {
        Plan::Skip => {
            match plan_index_global_pointers(cx, name, gty, indices) {
                Plan::Skip => {
                    match plan_index_global_const(cx, name, gty, indices) {
                        Plan::Skip => {
                            match plan_index_global_variable(cx, name, gty, indices) {
                                Plan::Skip => {
                                    match plan_index_global_pointer_at(cx, name, gty, indices) {
                                        Plan::Skip => {
                                            match plan_index_global_2d(cx, name, gty, indices) {
                                                Plan::Skip => {
                                                    Plan::Stuck
                                                },
                                                taken => taken,
                                            }
                                        },
                                        taken => taken,
                                    }
                                },
                                taken => taken,
                            }
                        },
                        taken => taken,
                    }
                },
                taken => taken,
            }
        },
        taken => taken,
    }
}

/// What a pointer is subscripted as: a dereferenced pointer to an array is a
/// pointer to its elements.
pub open spec fn spec_subscripted<'a>(t: &'a Type, dereffed: bool) -> &'a Type {
    if dereffed {
        match t.array_elem() {
            Some(inner) => inner,
            None => t,
        }
    } else {
        t
    }
}

/// What a pointer is subscripted as.
#[verifier::when_used_as_spec(spec_subscripted)]
pub fn subscripted<'a>(t: &'a Type, dereffed: bool) -> (r: &'a Type)
    ensures
        r == spec_subscripted(t, dereffed),
{
    if dereffed {
        match t.array_elem() {
            Some(inner) => inner,
            None => t,
        }
    } else {
        t
    }
}

/// An element through a local pointer.
pub open spec fn plan_index_local_pointer<'a>(
    cx: Cx<'a>,
    name: &'a String,
    t: &'a Type,
    dereffed: bool,
    indices: Seq<&'a Expr>,
) -> Plan<'a> {
    if indices.len() == 1 {
        Plan::Emit(seq![
            Step::IndexPointer(name, subscripted(t, dereffed), indices[0]),
        ])
    } else {
        Plan::Skip
    }
}

/// `p[k][m]` for a pointer in a register to arrays, which lie in one piece.
pub open spec fn plan_index_local_rows<'a>(
    cx: Cx<'a>,
    l: &'a Local,
    t: &'a Type,
    indices: Seq<&'a Expr>,
) -> Plan<'a> {
    if indices.len() == 2 {
        if let Some(k) = cx.env.const_of(indices[0]) {
            if let Some(m) = cx.env.const_of(indices[1]) {
                if let Some(inner) = t.array_elem() {
                    if let LocalLocation::Reg(reg) = l.loc {
                        let total = (scaled(k, (t.size() as u16)) as i64 + scaled(m, (inner.size() as u16)) as i64) as i64;
                        if -0x8000_0000 < total && total < 0x8000_0000 {
                            crate::codegen::common::plan_load_value(cx, inner, at_disp(reg, signed(total)))
                        } else {
                            Plan::Stuck
                        }
                    } else {
                        Plan::Skip
                    }
                } else {
                    Plan::Skip
                }
            } else {
                Plan::Skip
            }
        } else {
            Plan::Skip
        }
    } else {
        Plan::Skip
    }
}

/// `p[k][m]` for a pointer in a register to pointers.
pub open spec fn plan_index_local_pointers<'a>(
    cx: Cx<'a>,
    l: &'a Local,
    t: &'a Type,
    indices: Seq<&'a Expr>,
) -> Plan<'a> {
    if indices.len() == 2 {
        if let Some(k) = cx.env.const_of(indices[0]) {
            if let Some(m) = cx.env.const_of(indices[1]) {
                if let Some(inner) = t.pointee() {
                    if let LocalLocation::Reg(reg) = l.loc {
                        Plan::Emit(seq![
                            mov(bx(), word(at_disp(reg, plus(scaled(k, (t.size() as u16)) as i64)))),
                        ]).followed_by(
                            crate::codegen::common::plan_load_value(cx, inner, at_disp(Reg::Bx, disp(scaled(m, (inner.size() as u16))))),
                        )
                    } else {
                        Plan::Skip
                    }
                } else {
                    Plan::Skip
                }
            } else {
                Plan::Skip
            }
        } else {
            Plan::Skip
        }
    } else {
        Plan::Skip
    }
}

/// A subscripted local pointer.
pub open spec fn plan_index_pointer<'a>(
    cx: Cx<'a>,
    name: &'a String,
    l: &'a Local,
    t: &'a Type,
    dereffed: bool,
    indices: Seq<&'a Expr>,
) -> Plan<'a> {
    match plan_index_local_pointer(cx, name, t, dereffed, indices) {
        Plan::Skip => {
            match plan_index_local_rows(cx, l, t, indices) {
                Plan::Skip => {
                    match plan_index_local_pointers(cx, l, t, indices) {
                        Plan::Skip => {
                            Plan::Stuck
                        },
                        taken => taken,
                    }
                },
                taken => taken,
            }
        },
        taken => taken,
    }
}

/// Constant subscripts of an array on the stack.
pub open spec fn plan_index_frame_const<'a>(
    cx: Cx<'a>,
    base: i16,
    ty: &'a Type,
    indices: Seq<&'a Expr>,
) -> Plan<'a> {
    if let Some((off, leaf)) = cx.env.spec_const_array_offset(ty, indices) {
        crate::codegen::common::plan_load_value(cx, leaf, bp_plus(base, sat16(off)))
    } else {
        Plan::Skip
    }
}

/// `a[k][m]` for an array of pointers on the stack.
pub open spec fn plan_index_frame_pointers<'a>(
    cx: Cx<'a>,
    base: i16,
    ty: &'a Type,
    indices: Seq<&'a Expr>,
) -> Plan<'a> {
    if indices.len() == 2 {
        if let Some(outer) = ty.array_elem() {
            if let Some(t) = outer.pointee() {
                if let Some(k) = cx.env.const_of(indices[0]) {
                    if let Some(m) = cx.env.const_of(indices[1]) {
                        Plan::Emit(seq![
                            mov(bx(), word(bp_sat(base, scaled(k, (outer.size() as u16))))),
                        ]).followed_by(
                            crate::codegen::common::plan_load_value(cx, t, at_disp(Reg::Bx, disp(scaled(m, (t.size() as u16))))),
                        )
                    } else {
                        Plan::Skip
                    }
                } else {
                    Plan::Skip
                }
            } else {
                Plan::Skip
            }
        } else {
            Plan::Skip
        }
    } else {
        Plan::Skip
    }
}

/// `a[i][j]` for a two-dimensional array on the stack.
pub open spec fn plan_index_frame_2d<'a>(
    cx: Cx<'a>,
    base: i16,
    ty: &'a Type,
    indices: Seq<&'a Expr>,
) -> Plan<'a> {
    if indices.len() == 2 {
        if let Some(row) = ty.array_elem() {
            if let Some(t) = row.array_elem() {
                crate::codegen::array_addr::plan_emit_array_addr_2d_to_bx(cx, indices[0], indices[1], (row.size() as u16), (t.size() as u16), base).followed_by(
                    crate::codegen::deref_read::plan_load_widened(cx, t, at(Reg::Bx)),
                )
            } else {
                Plan::Stuck
            }
        } else {
            Plan::Stuck
        }
    } else {
        Plan::Skip
    }
}

/// One variable subscript of an array on the stack.
pub open spec fn plan_index_frame_variable<'a>(
    cx: Cx<'a>,
    base: i16,
    ty: &'a Type,
    indices: Seq<&'a Expr>,
) -> Plan<'a> {
    if indices.len() == 1 {
        if let Some(t) = ty.array_elem() {
            crate::codegen::array_addr::plan_emit_array_addr_to_bx(cx, indices[0], base, (t.size() as u16)).followed_by(
                crate::codegen::deref_read::plan_load_widened(cx, t, at(Reg::Bx)),
            )
        } else {
            Plan::Stuck
        }
    } else {
        Plan::Stuck
    }
}

/// A subscripted array on the stack.
pub open spec fn plan_index_frame<'a>(
    cx: Cx<'a>,
    base: i16,
    ty: &'a Type,
    indices: Seq<&'a Expr>,
) -> Plan<'a> {
    match plan_index_frame_const(cx, base, ty, indices) {
        Plan::Skip => {
            match plan_index_frame_pointers(cx, base, ty, indices) {
                Plan::Skip => {
                    match plan_index_frame_2d(cx, base, ty, indices) {
                        Plan::Skip => {
                            plan_index_frame_variable(cx, base, ty, indices)
                        },
                        taken => taken,
                    }
                },
                taken => taken,
            }
        },
        taken => taken,
    }
}

/// A subscripted local variable.
pub open spec fn plan_index_local<'a>(
    cx: Cx<'a>,
    name: &'a String,
    dereffed: bool,
    indices: Seq<&'a Expr>,
) -> Plan<'a> {
    if let Some(l) = cx.env.local(name) {
        match l.ty.pointee() {
            Some(t) => {
                plan_index_pointer(cx, name, l, t, dereffed, indices)
            },
            None => {
                if let LocalLocation::Stack(base) = l.loc {
                    plan_index_frame(cx, base, &l.ty, indices)
                } else {
                    Plan::Stuck
                }
            },
        }
    } else {
        Plan::Stuck
    }
}

/// A subscripted variable, file-scope variables first.
pub open spec fn plan_index_variable<'a>(
    cx: Cx<'a>,
    name: &'a String,
    dereffed: bool,
    indices: Seq<&'a Expr>,
) -> Plan<'a> {
    match cx.env.global_type(name) {
        Some(gty) => {
            plan_index_global(cx, name, gty, indices)
        },
        None => {
            plan_index_local(cx, name, dereffed, indices)
        },
    }
}

/// `array[index]`, read into `ax`.
pub open spec fn plan_emit_array_index_to_ax<'a>(
    cx: Cx<'a>,
    array: &'a Expr,
    index: &'a Expr,
) -> Plan<'a> {
    match plan_index_special(cx, array, index) {
        Plan::Skip => match subscript_base(array) {
            Some((name, dereffed)) => plan_index_variable(
                cx,
                name,
                dereffed,
                subscripts(array).push(index),
            ),
            None => Plan::Stuck,
        },
        taken => taken,
    }
}

impl<'a> FunctionEmitter<'a> {
    /// Emits what [`plan_index_frame_char`] says, if it applies.
    pub fn try_index_frame_char(&mut self, array: &'a Expr, index: &'a Expr) -> (done: bool)
        requires
            old(self).cx.env.wf(),
            !(plan_index_frame_char(old(self).cx, array, index) is Stuck),
        ensures
            final(self).ran(*old(self), plan_index_frame_char(old(self).cx, array, index), done),
    {
        let cx: Cx<'a> = self.cx;
        let Some(d) = cx.env.facts(index).frame_disp else { return false; };
        self.put(mov(al(), byte(Addr::Indexed(Reg::Bp, Reg::Si, signed(d as i64)))));
        self.put(widen(elem_is_unsigned(cx.env, array)));
        true
    }

    /// Emits what [`plan_index_string`] says, if it applies.
    pub fn try_index_string(&mut self, array: &'a Expr, index: &'a Expr) -> (done: bool)
        requires
            old(self).cx.env.wf(),
            !(plan_index_string(old(self).cx, array, index) is Stuck),
        ensures
            final(self).ran(*old(self), plan_index_string(old(self).cx, array, index), done),
    {
        let ExprKind::StringLit(bytes) = &array.kind else { return false; };
        self.put(Step::IndexString(bytes, index));
        true
    }

    /// Emits what [`plan_index_choice`] says, if it applies.
    pub fn try_index_choice(&mut self, array: &'a Expr, index: &'a Expr) -> (done: bool)
        requires
            old(self).cx.env.wf(),
            !(plan_index_choice(old(self).cx, array, index) is Stuck),
        ensures
            final(self).ran(*old(self), plan_index_choice(old(self).cx, array, index), done),
    {
        let cx: Cx<'a> = self.cx;
        let ExprKind::Ternary { cond: _, then_value, else_value: _ } = &array.kind else { return false; };
        let Some(k) = cx.env.const_of(index) else { return false; };
        let ExprKind::Ident(name) = &then_value.kind else { return false; };
        let Some(t) = cx.env.local_elem(name) else { return false; };
        self.put(to_ax(cx, array));
        self.put(mov(bx(), ax()));
        self.load_value(t, at_disp(Reg::Bx, plus(scaled(k, t.size_bytes()) as i64)));
        true
    }

    /// Emits what [`plan_index_member`] says, if it applies.
    pub fn try_index_member(&mut self, array: &'a Expr, index: &'a Expr) -> (done: bool)
        requires
            old(self).cx.env.wf(),
            !(plan_index_member(old(self).cx, array, index) is Stuck),
        ensures
            final(self).ran(*old(self), plan_index_member(old(self).cx, array, index), done),
    {
        let cx: Cx<'a> = self.cx;
        let ExprKind::Member { base, field, kind: MemberKind::Dot } = &array.kind else { return false; };
        let ExprKind::Ident(name) = &base.kind else { return false; };
        let Some(k) = cx.env.const_of(index) else { return false; };
        let Some(ty) = cx.env.var_type(name) else { return false; };
        let Some(f) = ty.struct_field_info(field) else { return false; };
        let Some(t) = f.ty.array_elem() else { return false; };
        let Some(total) = member_elem(f.offset, k, t.size_bytes()) else { return false; };
        if cx.env.is_global(name) {
            self.load_value(t, global_at(name, plus(total as i64)));
            return true;
        } else {
            let Some(off) = cx.env.stack_of(name) else { return false; };
            self.load_value(t, bp_plus(off, usat16(total)));
            return true;
        }
    }

    /// Emits what [`plan_index_call`] says, if it applies.
    pub fn try_index_call(&mut self, array: &'a Expr, index: &'a Expr) -> (done: bool)
        requires
            old(self).cx.env.wf(),
            !(plan_index_call(old(self).cx, array, index) is Stuck),
        ensures
            final(self).ran(*old(self), plan_index_call(old(self).cx, array, index), done),
    {
        let cx: Cx<'a> = self.cx;
        let ExprKind::Call { name, args } = &array.kind else { return false; };
        let Some(k) = cx.env.const_of(index) else { return false; };
        let Some(ret) = cx.env.ret_ty_of(name) else { return false; };
        let Some(t) = ret.pointee() else { return false; };
        self.put(Step::CallFn(name, args));
        self.put(mov(bx(), ax()));
        self.load_value(t, at_disp(Reg::Bx, disp(scaled(k, t.size_bytes()))));
        true
    }

    /// Emits what [`plan_index_global_member`] says, if it applies.
    pub fn try_index_global_member(&mut self, array: &'a Expr, index: &'a Expr) -> (done: bool)
        requires
            old(self).cx.env.wf(),
            !(plan_index_global_member(old(self).cx, array, index) is Stuck),
        ensures
            final(self).ran(
                *old(self),
                plan_index_global_member(old(self).cx, array, index),
                done,
            ),
    {
        let cx: Cx<'a> = self.cx;
        let ExprKind::Member { base: _, field: _, kind: MemberKind::Dot } = &array.kind else { return false; };
        let Some(chain) = &cx.env.facts(array).chain else { return false; };
        if !(!cx.env.has(&chain.name) && cx.env.is_global(&chain.name)) {
            return false;
        }
        let Some(t) = chain.ty.array_elem() else { return false; };
        if !(0 <= chain.off && chain.off <= 0xFFFF) {
            return false;
        }
        match cx.env.const_of(index) {
            Some(k) => {
                let Some(total) = member_elem(chain.off as u16, k, t.size_bytes()) else { return false; };
                self.load_value(t, global_at(&chain.name, plus(total as i64)));
                return true;
            },
            None => {
                self.emit_index_into_bx(index, t);
                self.load_value(t, elem_at(&chain.name, plus(chain.off as i64), Reg::Bx));
                return true;
            },
        }
    }

    /// Emits what [`plan_index_arrow_pointer`] says, if it applies.
    pub fn try_index_arrow_pointer(&mut self, array: &'a Expr, index: &'a Expr) -> (done: bool)
        requires
            old(self).cx.env.wf(),
            !(plan_index_arrow_pointer(old(self).cx, array, index) is Stuck),
        ensures
            final(self).ran(
                *old(self),
                plan_index_arrow_pointer(old(self).cx, array, index),
                done,
            ),
    {
        let cx: Cx<'a> = self.cx;
        let ExprKind::Member { base, field, kind: MemberKind::Arrow } = &array.kind else { return false; };
        let ExprKind::Ident(name) = &base.kind else { return false; };
        let Some(reg) = cx.env.reg_of(name) else { return false; };
        let Some(st) = cx.env.local_pointee(name) else { return false; };
        let Some(f) = st.struct_field_info(field) else { return false; };
        let Some(t) = f.ty.pointee() else { return false; };
        let Some(k) = cx.env.const_of(index) else { return false; };
        self.put(mov(bx(), word(at_disp(reg, plus(f.offset as i64)))));
        self.load_value(t, at_disp(Reg::Bx, disp(scaled(k, t.size_bytes()))));
        true
    }

    /// Emits what [`plan_index_arrow_array`] says, if it applies.
    pub fn try_index_arrow_array(&mut self, array: &'a Expr, index: &'a Expr) -> (done: bool)
        requires
            old(self).cx.env.wf(),
            !(plan_index_arrow_array(old(self).cx, array, index) is Stuck),
        ensures
            final(self).ran(*old(self), plan_index_arrow_array(old(self).cx, array, index), done),
    {
        let cx: Cx<'a> = self.cx;
        let ExprKind::Member { base, field, kind: MemberKind::Arrow } = &array.kind else { return false; };
        let ExprKind::Ident(name) = &base.kind else { return false; };
        let Some(reg) = cx.env.reg_of(name) else { return false; };
        let Some(st) = cx.env.local_pointee(name) else { return false; };
        let Some(f) = st.struct_field_info(field) else { return false; };
        let Some(t) = f.ty.array_elem() else { return false; };
        let Some(k) = cx.env.const_of(index) else { return false; };
        let Some(total) = member_elem(f.offset, k, t.size_bytes()) else { return false; };
        self.load_value(t, at_disp(reg, plus(signed_of(total))));
        true
    }

    /// Emits what [`plan_index_special`] says, if it applies.
    pub fn try_index_special(&mut self, array: &'a Expr, index: &'a Expr) -> (done: bool)
        requires
            old(self).cx.env.wf(),
            !(plan_index_special(old(self).cx, array, index) is Stuck),
        ensures
            final(self).ran(*old(self), plan_index_special(old(self).cx, array, index), done),
    {
        if self.try_index_frame_char(array, index) {
            return true;
        }
        if self.try_index_string(array, index) {
            return true;
        }
        if self.try_index_choice(array, index) {
            return true;
        }
        if self.try_index_member(array, index) {
            return true;
        }
        if self.try_index_call(array, index) {
            return true;
        }
        if self.try_index_global_member(array, index) {
            return true;
        }
        if self.try_index_arrow_pointer(array, index) {
            return true;
        }
        if self.try_index_arrow_array(array, index) {
            return true;
        }
        false
    }

    /// Emits what [`plan_index_global_pointer`] says, if it applies.
    pub fn try_index_global_pointer(
        &mut self,
        name: &'a String,
        gty: &'a Type,
        indices: &Vec<&'a Expr>,
    ) -> (done: bool)
        requires
            old(self).cx.env.wf(),
            !(plan_index_global_pointer(old(self).cx, name, gty, indices@) is Stuck),
        ensures
            final(self).ran(
                *old(self),
                plan_index_global_pointer(old(self).cx, name, gty, indices@),
                done,
            ),
    {
        let Some(t) = gty.pointee() else { return false; };
        if !(indices.len() == 1) {
            return false;
        }
        self.put(Step::IndexGlobalPointer(name, t, indices[0]));
        true
    }

    /// Emits what [`plan_index_global_pointers`] says, if it applies.
    pub fn try_index_global_pointers(
        &mut self,
        name: &'a String,
        gty: &'a Type,
        indices: &Vec<&'a Expr>,
    ) -> (done: bool)
        requires
            old(self).cx.env.wf(),
            gty.fits(),
            !(plan_index_global_pointers(old(self).cx, name, gty, indices@) is Stuck),
        ensures
            final(self).ran(
                *old(self),
                plan_index_global_pointers(old(self).cx, name, gty, indices@),
                done,
            ),
    {
        let cx: Cx<'a> = self.cx;
        if !(indices.len() == 2) {
            return false;
        }
        let Some(outer) = gty.array_elem() else { return false; };
        let Some(t) = outer.pointee() else { return false; };
        let Some(k) = cx.env.const_of(indices[0]) else { return false; };
        let Some(m) = cx.env.const_of(indices[1]) else { return false; };
        self.put(mov(bx(), word(global_at(name, plus(uscaled(k, outer.size_bytes()) as i64)))));
        self.load_value(t, at_disp(Reg::Bx, disp(scaled(m, t.size_bytes()))));
        true
    }

    /// Emits what [`plan_index_global_const`] says, if it applies.
    pub fn try_index_global_const(
        &mut self,
        name: &'a String,
        gty: &'a Type,
        indices: &Vec<&'a Expr>,
    ) -> (done: bool)
        requires
            old(self).cx.env.wf(),
            gty.fits(),
            !(plan_index_global_const(old(self).cx, name, gty, indices@) is Stuck),
        ensures
            final(self).ran(
                *old(self),
                plan_index_global_const(old(self).cx, name, gty, indices@),
                done,
            ),
    {
        let cx: Cx<'a> = self.cx;
        let Some((off, leaf)) = cx.env.const_array_offset(gty, indices) else { return false; };
        self.load_value(leaf, global_at(name, plus(off as i64)));
        true
    }

    /// Emits what [`plan_index_global_variable`] says, if it applies.
    pub fn try_index_global_variable(
        &mut self,
        name: &'a String,
        gty: &'a Type,
        indices: &Vec<&'a Expr>,
    ) -> (done: bool)
        requires
            old(self).cx.env.wf(),
            gty.fits(),
            !(plan_index_global_variable(old(self).cx, name, gty, indices@) is Stuck),
        ensures
            final(self).ran(
                *old(self),
                plan_index_global_variable(old(self).cx, name, gty, indices@),
                done,
            ),
    {
        let cx: Cx<'a> = self.cx;
        if !(indices.len() == 1) {
            return false;
        }
        let Some(t) = gty.array_elem() else { return false; };
        let off: i64 = constant_part(cx.env, indices[0], t.size_bytes());
        if !(-0x8000_0000 < off && off < 0x8000_0000) {
            return false;
        }
        if t.is_char_like() && is_in_si(cx.env, variable_part(cx.env, indices[0])) {
            self.load_value(t, elem_at(name, signed(off), Reg::Si));
            return true;
        } else {
            self.emit_index_into_bx(variable_part(cx.env, indices[0]), t);
            self.load_value(t, elem_at(name, signed(off), Reg::Bx));
            return true;
        }
    }

    /// Emits what [`plan_index_global_pointer_at`] says, if it applies.
    pub fn try_index_global_pointer_at(
        &mut self,
        name: &'a String,
        gty: &'a Type,
        indices: &Vec<&'a Expr>,
    ) -> (done: bool)
        requires
            old(self).cx.env.wf(),
            gty.fits(),
            !(plan_index_global_pointer_at(old(self).cx, name, gty, indices@) is Stuck),
        ensures
            final(self).ran(
                *old(self),
                plan_index_global_pointer_at(old(self).cx, name, gty, indices@),
                done,
            ),
    {
        let cx: Cx<'a> = self.cx;
        if !(indices.len() == 2) {
            return false;
        }
        let Some(outer) = gty.array_elem() else { return false; };
        if !is_default_pointer(outer) {
            return false;
        }
        let Some(t) = outer.pointee() else { return false; };
        let Some(m) = cx.env.const_of(indices[1]) else { return false; };
        if !(cx.env.const_of(indices[0]).is_none()) {
            return false;
        }
        self.index_into_bx_by(indices[0], 1);
        self.put(mov(bx(), word(elem(name, Reg::Bx))));
        self.load_value(t, at_disp(Reg::Bx, disp(scaled(m, t.size_bytes()))));
        true
    }

    /// Adds a second subscript, scaled by the size of an element, to the row
    /// offset in `ax`, for `bx`. A size that is a power of two is reached by
    /// doubling in `dx`, and any other needs a multiplication in `ax`.
    pub fn add_inner_to_row(&mut self, inner: &'a IndexSource, inner_stride: u16)
        requires
            old(self).cx.env.wf(),
            plan_add_inner_to_row(old(self).cx, inner, inner_stride) is Emit,
        ensures
            final(self).wrote(
                *old(self),
                plan_add_inner_to_row(old(self).cx, inner, inner_stride),
            ),
    {
        if inner_stride == 1 {
            self.put(add_to(ax(), index_source(inner)));
            self.put(mov(bx(), ax()));
        } else if is_pow2(inner_stride as u32) {
            self.put(mov(dx(), index_source(inner)));
            self.put_times(shl1(dx()), halvings(inner_stride as u32) as u64);
            self.put(add_to(ax(), dx()));
            self.put(mov(bx(), ax()));
        } else {
            self.put(mov(bx(), ax()));
            self.put(mov(ax(), index_source(inner)));
            self.put(mov(dx(), imm(inner_stride as i64)));
            self.put(imul(dx()));
            self.put(add_to(bx(), ax()));
        }
    }

    /// Computes the offset of `a[i][j]` within a file-scope array into `bx`. A
    /// row size that is a power of two is reached by doubling in `bx`; any other
    /// needs a multiplication in `ax`.
    pub fn index_2d_into_bx(
        &mut self,
        outer: &'a IndexSource,
        inner: &'a IndexSource,
        outer_stride: u16,
        inner_stride: u16,
    )
        requires
            old(self).cx.env.wf(),
            plan_index_2d_into_bx(old(self).cx, outer, inner, outer_stride, inner_stride) is Emit,
        ensures
            final(self).wrote(
                *old(self),
                plan_index_2d_into_bx(old(self).cx, outer, inner, outer_stride, inner_stride),
            ),
    {
        if is_pow2(outer_stride as u32) {
            self.put(mov(bx(), index_source(outer)));
            self.put_times(shl1(bx()), halvings(outer_stride as u32) as u64);
            self.put(mov(ax(), index_source(inner)));
            self.put_times(shl1(ax()), halvings(inner_stride as u32) as u64);
            self.put(add_to(bx(), ax()));
        } else {
            self.put(mov(ax(), index_source(outer)));
            self.put(mov(dx(), imm(outer_stride as i64)));
            self.put(imul(dx()));
            self.add_inner_to_row(inner, inner_stride);
        }
    }

    /// Emits what [`plan_index_global_2d`] says, if it applies.
    pub fn try_index_global_2d(
        &mut self,
        name: &'a String,
        gty: &'a Type,
        indices: &Vec<&'a Expr>,
    ) -> (done: bool)
        requires
            old(self).cx.env.wf(),
            gty.fits(),
            !(plan_index_global_2d(old(self).cx, name, gty, indices@) is Stuck),
        ensures
            final(self).ran(
                *old(self),
                plan_index_global_2d(old(self).cx, name, gty, indices@),
                done,
            ),
    {
        let cx: Cx<'a> = self.cx;
        if !(indices.len() == 2) {
            return false;
        }
        let Some(row) = gty.array_elem() else { return false; };
        let Some(t) = row.array_elem() else { return false; };
        let Some(outer) = &cx.env.facts(indices[0]).int_src else { return false; };
        let Some(inner) = &cx.env.facts(indices[1]).int_src else { return false; };
        self.index_2d_into_bx(outer, inner, row.size_bytes(), t.size_bytes());
        self.load_value(t, elem(name, Reg::Bx));
        true
    }

    /// A subscripted file-scope variable.
    pub fn index_global(&mut self, name: &'a String, gty: &'a Type, indices: &Vec<&'a Expr>)
        requires
            old(self).cx.env.wf(),
            gty.fits(),
            plan_index_global(old(self).cx, name, gty, indices@) is Emit,
        ensures
            final(self).wrote(*old(self), plan_index_global(old(self).cx, name, gty, indices@)),
    {
        if self.try_index_global_pointer(name, gty, indices) {
            return;
        }
        if self.try_index_global_pointers(name, gty, indices) {
            return;
        }
        if self.try_index_global_const(name, gty, indices) {
            return;
        }
        if self.try_index_global_variable(name, gty, indices) {
            return;
        }
        if self.try_index_global_pointer_at(name, gty, indices) {
            return;
        }
        if self.try_index_global_2d(name, gty, indices) {
            return;
        }
        return;
    }

    /// Emits what [`plan_index_local_pointer`] says, if it applies.
    pub fn try_index_local_pointer(
        &mut self,
        name: &'a String,
        t: &'a Type,
        dereffed: bool,
        indices: &Vec<&'a Expr>,
    ) -> (done: bool)
        requires
            old(self).cx.env.wf(),
            !(plan_index_local_pointer(old(self).cx, name, t, dereffed, indices@) is Stuck),
        ensures
            final(self).ran(
                *old(self),
                plan_index_local_pointer(old(self).cx, name, t, dereffed, indices@),
                done,
            ),
    {
        if !(indices.len() == 1) {
            return false;
        }
        self.put(Step::IndexPointer(name, subscripted(t, dereffed), indices[0]));
        true
    }

    /// Emits what [`plan_index_local_rows`] says, if it applies.
    pub fn try_index_local_rows(
        &mut self,
        l: &'a Local,
        t: &'a Type,
        indices: &Vec<&'a Expr>,
    ) -> (done: bool)
        requires
            old(self).cx.env.wf(),
            t.fits(),
            !(plan_index_local_rows(old(self).cx, l, t, indices@) is Stuck),
        ensures
            final(self).ran(
                *old(self),
                plan_index_local_rows(old(self).cx, l, t, indices@),
                done,
            ),
    {
        let cx: Cx<'a> = self.cx;
        if !(indices.len() == 2) {
            return false;
        }
        let Some(k) = cx.env.const_of(indices[0]) else { return false; };
        let Some(m) = cx.env.const_of(indices[1]) else { return false; };
        let Some(inner) = t.array_elem() else { return false; };
        let LocalLocation::Reg(reg) = l.loc else { return false; };
        let total: i64 = (scaled(k, t.size_bytes()) as i64 + scaled(m, inner.size_bytes()) as i64) as i64;
        if !(-0x8000_0000 < total && total < 0x8000_0000) {
            return false;
        }
        self.load_value(inner, at_disp(reg, signed(total)));
        true
    }

    /// Emits what [`plan_index_local_pointers`] says, if it applies.
    pub fn try_index_local_pointers(
        &mut self,
        l: &'a Local,
        t: &'a Type,
        indices: &Vec<&'a Expr>,
    ) -> (done: bool)
        requires
            old(self).cx.env.wf(),
            t.fits(),
            !(plan_index_local_pointers(old(self).cx, l, t, indices@) is Stuck),
        ensures
            final(self).ran(
                *old(self),
                plan_index_local_pointers(old(self).cx, l, t, indices@),
                done,
            ),
    {
        let cx: Cx<'a> = self.cx;
        if !(indices.len() == 2) {
            return false;
        }
        let Some(k) = cx.env.const_of(indices[0]) else { return false; };
        let Some(m) = cx.env.const_of(indices[1]) else { return false; };
        let Some(inner) = t.pointee() else { return false; };
        let LocalLocation::Reg(reg) = l.loc else { return false; };
        self.put(mov(bx(), word(at_disp(reg, plus(scaled(k, t.size_bytes()) as i64)))));
        self.load_value(inner, at_disp(Reg::Bx, disp(scaled(m, inner.size_bytes()))));
        true
    }

    /// A subscripted local pointer.
    pub fn index_pointer(
        &mut self,
        name: &'a String,
        l: &'a Local,
        t: &'a Type,
        dereffed: bool,
        indices: &Vec<&'a Expr>,
    )
        requires
            old(self).cx.env.wf(),
            t.fits(),
            plan_index_pointer(old(self).cx, name, l, t, dereffed, indices@) is Emit,
        ensures
            final(self).wrote(
                *old(self),
                plan_index_pointer(old(self).cx, name, l, t, dereffed, indices@),
            ),
    {
        if self.try_index_local_pointer(name, t, dereffed, indices) {
            return;
        }
        if self.try_index_local_rows(l, t, indices) {
            return;
        }
        if self.try_index_local_pointers(l, t, indices) {
            return;
        }
        return;
    }

    /// Emits what [`plan_index_frame_const`] says, if it applies.
    pub fn try_index_frame_const(
        &mut self,
        base: i16,
        ty: &'a Type,
        indices: &Vec<&'a Expr>,
    ) -> (done: bool)
        requires
            old(self).cx.env.wf(),
            ty.fits(),
            !(plan_index_frame_const(old(self).cx, base, ty, indices@) is Stuck),
        ensures
            final(self).ran(
                *old(self),
                plan_index_frame_const(old(self).cx, base, ty, indices@),
                done,
            ),
    {
        let cx: Cx<'a> = self.cx;
        let Some((off, leaf)) = cx.env.const_array_offset(ty, indices) else { return false; };
        self.load_value(leaf, bp_plus(base, sat16(off)));
        true
    }

    /// Emits what [`plan_index_frame_pointers`] says, if it applies.
    pub fn try_index_frame_pointers(
        &mut self,
        base: i16,
        ty: &'a Type,
        indices: &Vec<&'a Expr>,
    ) -> (done: bool)
        requires
            old(self).cx.env.wf(),
            ty.fits(),
            !(plan_index_frame_pointers(old(self).cx, base, ty, indices@) is Stuck),
        ensures
            final(self).ran(
                *old(self),
                plan_index_frame_pointers(old(self).cx, base, ty, indices@),
                done,
            ),
    {
        let cx: Cx<'a> = self.cx;
        if !(indices.len() == 2) {
            return false;
        }
        let Some(outer) = ty.array_elem() else { return false; };
        let Some(t) = outer.pointee() else { return false; };
        let Some(k) = cx.env.const_of(indices[0]) else { return false; };
        let Some(m) = cx.env.const_of(indices[1]) else { return false; };
        self.put(mov(bx(), word(bp_sat(base, scaled(k, outer.size_bytes())))));
        self.load_value(t, at_disp(Reg::Bx, disp(scaled(m, t.size_bytes()))));
        true
    }

    /// Emits what [`plan_index_frame_2d`] says, if it applies.
    pub fn try_index_frame_2d(
        &mut self,
        base: i16,
        ty: &'a Type,
        indices: &Vec<&'a Expr>,
    ) -> (done: bool)
        requires
            old(self).cx.env.wf(),
            ty.fits(),
            !(plan_index_frame_2d(old(self).cx, base, ty, indices@) is Stuck),
        ensures
            final(self).ran(
                *old(self),
                plan_index_frame_2d(old(self).cx, base, ty, indices@),
                done,
            ),
    {
        if !(indices.len() == 2) {
            return false;
        }
        let Some(row) = ty.array_elem() else { return false; };
        let Some(t) = row.array_elem() else { return false; };
        self.emit_array_addr_2d_to_bx(indices[0], indices[1], row.size_bytes(), t.size_bytes(), base);
        self.load_widened(t, at(Reg::Bx));
        true
    }

    /// Emits what [`plan_index_frame_variable`] says, if it applies.
    pub fn try_index_frame_variable(
        &mut self,
        base: i16,
        ty: &'a Type,
        indices: &Vec<&'a Expr>,
    ) -> (done: bool)
        requires
            old(self).cx.env.wf(),
            ty.fits(),
            !(plan_index_frame_variable(old(self).cx, base, ty, indices@) is Stuck),
        ensures
            final(self).ran(
                *old(self),
                plan_index_frame_variable(old(self).cx, base, ty, indices@),
                done,
            ),
    {
        if !(indices.len() == 1) {
            return false;
        }
        let Some(t) = ty.array_elem() else { return false; };
        self.emit_array_addr_to_bx(indices[0], base, t.size_bytes());
        self.load_widened(t, at(Reg::Bx));
        true
    }

    /// A subscripted array on the stack.
    pub fn index_frame(&mut self, base: i16, ty: &'a Type, indices: &Vec<&'a Expr>)
        requires
            old(self).cx.env.wf(),
            ty.fits(),
            plan_index_frame(old(self).cx, base, ty, indices@) is Emit,
        ensures
            final(self).wrote(*old(self), plan_index_frame(old(self).cx, base, ty, indices@)),
    {
        if self.try_index_frame_const(base, ty, indices) {
            return;
        }
        if self.try_index_frame_pointers(base, ty, indices) {
            return;
        }
        if self.try_index_frame_2d(base, ty, indices) {
            return;
        }
        self.try_index_frame_variable(base, ty, indices);
        return;
    }

    /// A subscripted local variable.
    pub fn index_local(&mut self, name: &'a String, dereffed: bool, indices: &Vec<&'a Expr>)
        requires
            old(self).cx.env.wf(),
            plan_index_local(old(self).cx, name, dereffed, indices@) is Emit,
        ensures
            final(self).wrote(
                *old(self),
                plan_index_local(old(self).cx, name, dereffed, indices@),
            ),
    {
        let cx: Cx<'a> = self.cx;
        let Some(l) = cx.env.local(name) else { return; };
        match l.ty.pointee() {
            Some(t) => {
                self.index_pointer(name, l, t, dereffed, indices);
            },
            None => {
                let LocalLocation::Stack(base) = l.loc else { return; };
                self.index_frame(base, &l.ty, indices);
            },
        }
    }

    /// A subscripted variable, file-scope variables first.
    pub fn index_variable(&mut self, name: &'a String, dereffed: bool, indices: &Vec<&'a Expr>)
        requires
            old(self).cx.env.wf(),
            plan_index_variable(old(self).cx, name, dereffed, indices@) is Emit,
        ensures
            final(self).wrote(
                *old(self),
                plan_index_variable(old(self).cx, name, dereffed, indices@),
            ),
    {
        let cx: Cx<'a> = self.cx;
        match cx.env.global_type(name) {
            Some(gty) => {
                self.index_global(name, gty, indices);
            },
            None => {
                self.index_local(name, dereffed, indices);
            },
        }
    }
}

impl<'a> FunctionEmitter<'a> {
    /// Reads `array[index]` into `ax`.
    pub fn emit_array_index_to_ax(&mut self, array: &'a Expr, index: &'a Expr)
        requires
            old(self).cx.env.wf(),
            plan_emit_array_index_to_ax(old(self).cx, array, index) is Emit,
        ensures
            final(self).wrote(
                *old(self),
                plan_emit_array_index_to_ax(old(self).cx, array, index),
            ),
    {
        if self.try_index_special(array, index) {
            return;
        }
        let Some((name, dereffed)) = subscript_base(array) else { return; };
        let mut indices: Vec<&'a Expr> = collect_subscripts(array);
        indices.push(index);
        self.index_variable(name, dereffed, &indices);
    }
}

} // verus!
