//! What holds of types, members and subscripts.

use vstd::prelude::*;
use crate::ast::{BinOp, Expr, StructField, Type};
use crate::codegen::env::Env;

verus! {

/// Every type aligns to one or to two, and to one exactly if its innermost
/// element is a character.
pub proof fn alignment_is_small(t: Type)
    ensures
        t.align() == 1 || t.align() == 2,
        t matches Type::Array { elem, .. } ==> t.align() == elem.align(),
    decreases t,
{
    if let Type::Array { elem, .. } = t {
        alignment_is_small(*elem);
    }
}

/// A member that is found has the name that was looked for, and no member
/// before it has; if none is found, no member has it.
pub proof fn member_is_first(fields: Seq<StructField>, name: Seq<char>, from: int)
    requires
        0 <= from,
    ensures
        crate::ast::find_field(fields, name, from) matches Some(f) ==> exists|i: int|
            from <= i < fields.len() && #[trigger] fields[i] == *f && f.name@ == name && forall|
                j: int,
            |
                from <= j < i ==> (#[trigger] fields[j]).name@ != name,
        crate::ast::find_field(fields, name, from) is None ==> forall|i: int|
            from <= i < fields.len() ==> (#[trigger] fields[i]).name@ != name,
    decreases fields.len() - from,
{
    if from < fields.len() && fields[from].name@ != name {
        member_is_first(fields, name, from + 1);
        if let Some(f) = crate::ast::find_field(fields, name, from + 1) {
            let i = choose|i: int|
                from + 1 <= i < fields.len() && #[trigger] fields[i] == *f && f.name@ == name
                    && forall|j: int| from + 1 <= j < i ==> (#[trigger] fields[j]).name@ != name;
            assert(fields[i] == *f);
        }
    }
}

/// Every type is the same as itself.
pub proof fn same_reflexive(t: Type)
    ensures
        t.same(t),
    decreases t,
{
    match t {
        Type::Array { elem, .. } => {
            same_reflexive(*elem);
        },
        Type::Pointer(p) | Type::NearPointer(p) => {
            same_reflexive(*p);
        },
        Type::FarPointer { pointee, .. } => {
            same_reflexive(*pointee);
        },
        Type::Struct { fields, .. } => {
            assert forall|i: int| 0 <= i < fields@.len() implies (#[trigger] fields@[i]).ty.same(
                fields@[i].ty,
            ) by {
                same_reflexive(fields@[i].ty);
            }
        },
        _ => {},
    }
}

/// If one type is the same as another, the other is the same as it.
pub proof fn same_symmetric(a: Type, b: Type)
    requires
        a.same(b),
    ensures
        b.same(a),
    decreases a,
{
    match (a, b) {
        (Type::Array { elem: x, .. }, Type::Array { elem: y, .. }) => {
            same_symmetric(*x, *y);
        },
        (Type::Pointer(x), Type::Pointer(y)) => {
            same_symmetric(*x, *y);
        },
        (Type::NearPointer(x), Type::NearPointer(y)) => {
            same_symmetric(*x, *y);
        },
        (Type::FarPointer { pointee: x, .. }, Type::FarPointer { pointee: y, .. }) => {
            same_symmetric(*x, *y);
        },
        (Type::Struct { fields: f, .. }, Type::Struct { fields: g, .. }) => {
            assert forall|i: int| 0 <= i < g@.len() implies {
                &&& (#[trigger] g@[i]).name@ == f@[i].name@
                &&& g@[i].bitfield == f@[i].bitfield
                &&& g@[i].offset == f@[i].offset
                &&& g@[i].ty.same(f@[i].ty)
            } by {
                assert(f@[i].name@ == g@[i].name@);
                same_symmetric(f@[i].ty, g@[i].ty);
            }
        },
        _ => {},
    }
}

/// Two types that are the same as a third are the same.
pub proof fn same_transitive(a: Type, b: Type, c: Type)
    requires
        a.same(b),
        b.same(c),
    ensures
        a.same(c),
    decreases a,
{
    match (a, b, c) {
        (Type::Array { elem: x, .. }, Type::Array { elem: y, .. }, Type::Array { elem: z, .. }) => {
            same_transitive(*x, *y, *z);
        },
        (Type::Pointer(x), Type::Pointer(y), Type::Pointer(z)) => {
            same_transitive(*x, *y, *z);
        },
        (Type::NearPointer(x), Type::NearPointer(y), Type::NearPointer(z)) => {
            same_transitive(*x, *y, *z);
        },
        (
            Type::FarPointer { pointee: x, .. },
            Type::FarPointer { pointee: y, .. },
            Type::FarPointer { pointee: z, .. },
        ) => {
            same_transitive(*x, *y, *z);
        },
        (
            Type::Struct { fields: f, .. },
            Type::Struct { fields: g, .. },
            Type::Struct { fields: h, .. },
        ) => {
            assert forall|i: int| 0 <= i < f@.len() implies {
                &&& (#[trigger] f@[i]).name@ == h@[i].name@
                &&& f@[i].bitfield == h@[i].bitfield
                &&& f@[i].offset == h@[i].offset
                &&& f@[i].ty.same(h@[i].ty)
            } by {
                assert(g@[i].name@ == h@[i].name@);
                same_transitive(f@[i].ty, g@[i].ty, h@[i].ty);
            }
        },
        _ => {},
    }
}

/// Two types that are the same have the same size and the same alignment.
pub proof fn same_layout(a: Type, b: Type)
    requires
        a.same(b),
    ensures
        a.size() == b.size(),
        a.align() == b.align(),
    decreases a,
{
    match (a, b) {
        (Type::Array { elem: x, .. }, Type::Array { elem: y, .. }) => {
            same_layout(*x, *y);
        },
        _ => {},
    }
}

/// Whether constant subscripts from position `from` on lie within the bounds
/// of an array type.
pub open spec fn in_bounds<'a>(env: Env, ty: Type, indices: Seq<&'a Expr>, from: int) -> bool
    decreases indices.len() - from,
{
    if from < 0 || from >= indices.len() {
        true
    } else {
        match (env.const_of(indices[from]), ty) {
            (Some(k), Type::Array { elem, len }) => k < len && in_bounds(
                env,
                *elem,
                indices,
                from + 1,
            ),
            _ => false,
        }
    }
}

/// Constant subscripts within bounds select an element that lies altogether
/// within the array, and nothing wraps around.
pub proof fn subscripts_stay_inside<'a>(env: Env, ty: Type, indices: Seq<&'a Expr>, from: int)
    requires
        0 <= from,
        ty.fits(),
        in_bounds(env, ty, indices, from),
    ensures
        crate::codegen::env::const_offset(&env, &ty, indices, from) matches Some((off, leaf)) && 0
            <= off && off + leaf.size() <= ty.size(),
    decreases indices.len() - from,
{
    if from < indices.len() {
        if let Type::Array { elem, len } = ty {
            let k = env.const_of(indices[from])->0;
            subscripts_stay_inside(env, *elem, indices, from + 1);
            let each = elem.size() as int;
            let rest = crate::codegen::env::const_offset(&env, &*elem, indices, from + 1)->0;
            assert(k * each + each <= len * each) by (nonlinear_arith)
                requires
                    k + 1 <= len,
                    0 <= each,
            ;
            assert(0 <= k * each) by (nonlinear_arith)
                requires
                    0 <= k,
                    0 <= each,
            ;
            assert(ty.size() == each * len);
            assert(each * len == len * each) by (nonlinear_arith);
            assert(ty.size() <= 0xFFFF);
            let sum = k * each + rest.0;
            assert(crate::isa::signed32(sum) == sum);
        }
    }
}

/// The six comparisons are told apart from the other operators, and of them
/// exactly `==` and `!=` commute.
pub proof fn comparisons_commute(op: BinOp)
    requires
        op.is_comparison(),
    ensures
        op.is_commutative() <==> crate::isa::flipped(op) == op,
{
}

} // verus!
