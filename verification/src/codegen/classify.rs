//! What kind of value an expression has.

use vstd::prelude::*;
use crate::ast::{BinOp, Expr, ExprKind, Type};
use crate::codegen::env::{Env, LocalLocation};
use crate::isa::{fits_i8, hi16, is_relational, lo16, r};

verus! {

/// How the address of a subscripted variable is formed.
#[derive(Debug, Clone, Copy, PartialEq, Eq, Structural)]
pub enum VarIdxKind {
    /// An array on the stack, with its offset and the size of an element.
    StackArr(i16, u16),
    /// A local pointer.
    PtrInt,
    /// An array at file scope.
    GlobalArr,
}

impl Env {
    /// Whether a variable is a 32-bit integer, file-scope variables first.
    #[verifier::allow_in_spec]
    pub fn ident_is_long_like(&self, name: &String) -> bool
        returns
            (match self.var_type(name) {
                Some(t) => t.is_long_like(),
                None => false,
            }),
    {
        match self.var_type(name) {
            Some(t) => t.is_long_like(),
            None => false,
        }
    }

    /// Whether a variable is an `unsigned char`, file-scope variables first.
    #[verifier::allow_in_spec]
    pub fn ident_is_uchar(&self, name: &String) -> bool
        returns
            (match self.var_type(name) {
                Some(Type::UChar) => true,
                _ => false,
            }),
    {
        match self.var_type(name) {
            Some(Type::UChar) => true,
            _ => false,
        }
    }

    /// Whether a name is a variable.
    #[verifier::allow_in_spec]
    pub fn knows(&self, name: &String) -> bool
        returns
            (self.var_type(name).is_some()),
    {
        self.var_type(name).is_some()
    }

    /// Whether an expression that is a name is a variable.
    #[verifier::allow_in_spec]
    pub fn knows_ident(&self, e: &Expr) -> bool
        returns
            (match &e.kind {
                ExprKind::Ident(name) => self.knows(name),
                _ => true,
            }),
    {
        match &e.kind {
            ExprKind::Ident(name) => self.knows(name),
            _ => true,
        }
    }

    /// Whether a variable is a character, file-scope variables first.
    pub open spec fn spec_ident_is_char(&self, name: &String) -> bool {
        match self.var_type(name) {
            Some(t) => t.is_char_like(),
            None => false,
        }
    }

    /// Whether a variable is a character, file-scope variables first.
    #[verifier::when_used_as_spec(spec_ident_is_char)]
    pub fn ident_is_char(&self, name: &String) -> (r: bool)
        requires
            self.knows(name),
        ensures
            r == self.spec_ident_is_char(name),
    {
        match self.var_type(name) {
            Some(t) => t.is_char_like(),
            None => false,
        }
    }

    /// Whether an expression is a variable that compares without sign: an
    /// unsigned integer or a pointer.
    pub open spec fn spec_expr_is_unsigned(&self, e: &Expr) -> bool {
        match &e.kind {
            ExprKind::Ident(name) => match self.var_type(name) {
                Some(t) => t.is_unsigned() || t.pointee().is_some(),
                None => false,
            },
            _ => false,
        }
    }

    /// Whether an expression is a variable that compares without sign.
    #[verifier::when_used_as_spec(spec_expr_is_unsigned)]
    pub fn expr_is_unsigned(&self, e: &Expr) -> (r: bool)
        requires
            self.knows_ident(e),
        ensures
            r == self.spec_expr_is_unsigned(e),
    {
        match &e.kind {
            ExprKind::Ident(name) => match self.var_type(name) {
                Some(t) => t.is_unsigned() || t.pointee().is_some(),
                None => false,
            },
            _ => false,
        }
    }

    /// The element type of an array, of any variable of that name.
    pub open spec fn spec_elem_anywhere(&self, name: &String) -> Option<&Type> {
        match self.global_elem(name) {
            Some(t) => Some(t),
            None => self.local_elem(name),
        }
    }

    /// The element type of an array, of any variable of that name.
    #[verifier::when_used_as_spec(spec_elem_anywhere)]
    pub fn elem_anywhere(&self, name: &String) -> (r: Option<&Type>)
        ensures
            r == self.spec_elem_anywhere(name),
    {
        match self.global_elem(name) {
            Some(t) => Some(t),
            None => self.local_elem(name),
        }
    }

    /// Whether a subscripted variable has 32-bit elements.
    #[verifier::allow_in_spec]
    pub fn subscript_is_long(&self, array: &Expr) -> bool
        returns
            (match &array.kind {
                ExprKind::Ident(name) => match self.elem_anywhere(name) {
                    Some(t) => t.is_long_like(),
                    None => match self.ident_pointee(name) {
                        Some(t) => t.is_long_like(),
                        None => false,
                    },
                },
                _ => false,
            }),
    {
        match &array.kind {
            ExprKind::Ident(name) => match self.elem_anywhere(name) {
                Some(t) => t.is_long_like(),
                None => match self.ident_pointee(name) {
                    Some(t) => t.is_long_like(),
                    None => false,
                },
            },
            _ => false,
        }
    }

    /// Whether an expression has a 32-bit integer value.
    pub open spec fn spec_expr_is_long_like(&self, e: &Expr) -> bool
        decreases e,
    {
        match &e.kind {
            ExprKind::Ident(name) => self.ident_is_long_like(name),
            ExprKind::Cast { ty, operand: _ } => ty.is_long_like(),
            ExprKind::BinOp { op: _, left, right } => self.spec_expr_is_long_like(&**left)
                || self.spec_expr_is_long_like(&**right),
            ExprKind::Unary { op: _, operand } => self.spec_expr_is_long_like(&**operand),
            ExprKind::Ternary { cond: _, then_value, else_value } => self.spec_expr_is_long_like(
                &**then_value,
            ) || self.spec_expr_is_long_like(&**else_value),
            ExprKind::Member { base: _, field: _, kind: _ } => match &self.facts(e).chain {
                Some(chain) => chain.ty.is_long_like(),
                None => false,
            },
            ExprKind::ArrayIndex { array, index: _ } => match &self.facts(e).chain {
                Some(chain) => chain.ty.is_long_like(),
                None => self.subscript_is_long(&**array),
            },
            ExprKind::Call { name, args: _ } => match self.ret_ty_of(name) {
                Some(t) => t.is_long_like(),
                None => false,
            },
            _ => false,
        }
    }

    /// Whether an expression has a 32-bit integer value: a 32-bit variable,
    /// element, member, cast or call, or an operator on one.
    #[verifier::when_used_as_spec(spec_expr_is_long_like)]
    pub fn expr_is_long_like(&self, e: &Expr) -> (r: bool)
        ensures
            r == self.spec_expr_is_long_like(e),
        decreases e,
    {
        match &e.kind {
            ExprKind::Ident(name) => self.ident_is_long_like(name),
            ExprKind::Cast { ty, operand: _ } => ty.is_long_like(),
            ExprKind::BinOp { op: _, left, right } => self.expr_is_long_like(&**left)
                || self.expr_is_long_like(&**right),
            ExprKind::Unary { op: _, operand } => self.expr_is_long_like(&**operand),
            ExprKind::Ternary { cond: _, then_value, else_value } => self.expr_is_long_like(
                &**then_value,
            ) || self.expr_is_long_like(&**else_value),
            ExprKind::Member { base: _, field: _, kind: _ } => match &self.facts(e).chain {
                Some(chain) => chain.ty.is_long_like(),
                None => false,
            },
            ExprKind::ArrayIndex { array, index: _ } => match &self.facts(e).chain {
                Some(chain) => chain.ty.is_long_like(),
                None => self.subscript_is_long(&**array),
            },
            ExprKind::Call { name, args: _ } => match self.ret_ty_of(name) {
                Some(t) => t.is_long_like(),
                None => false,
            },
            _ => false,
        }
    }

    /// The type of an element of a variable, and how its address is formed.
    pub open spec fn var_idx_array(&self, name: &String) -> Option<(&Type, VarIdxKind)> {
        match self.local(name) {
            Some(l) => match (l.ty.array_elem(), l.loc, l.ty.pointee()) {
                (Some(t), LocalLocation::Stack(base), _) => Some(
                    (t, VarIdxKind::StackArr(base, t.size() as u16)),
                ),
                (_, _, Some(t)) => Some((t, VarIdxKind::PtrInt)),
                _ => self.global_array(name),
            },
            None => self.global_array(name),
        }
    }

    /// The type of an element of a file-scope array.
    pub open spec fn global_array(&self, name: &String) -> Option<(&Type, VarIdxKind)> {
        match self.global_elem(name) {
            Some(t) => Some((t, VarIdxKind::GlobalArr)),
            None => None,
        }
    }

    /// Classifies a subscripted variable: an array on the stack, a local
    /// pointer, or an array at file scope.
    pub fn classify_var_idx_array(&self, name: &String) -> (r: Option<(&Type, VarIdxKind)>)
        requires
            self.wf(),
        ensures
            r == self.var_idx_array(name),
    {
        if let Some(l) = self.local(name) {
            if let Some(t) = l.ty.array_elem() {
                if let LocalLocation::Stack(base) = l.loc {
                    return Some((t, VarIdxKind::StackArr(base, t.size_bytes())));
                }
            }
            if let Some(t) = l.ty.pointee() {
                return Some((t, VarIdxKind::PtrInt));
            }
        }
        if let Some(t) = self.global_elem(name) {
            return Some((t, VarIdxKind::GlobalArr));
        }
        None
    }

    /// Whether a file-scope variable is an `int`.
    #[verifier::allow_in_spec]
    pub fn is_int_global(&self, name: &String) -> bool
        returns
            (match self.global_type(name) {
                Some(Type::Int) => true,
                _ => false,
            }),
    {
        match self.global_type(name) {
            Some(Type::Int) => true,
            _ => false,
        }
    }

    /// Whether a condition is `g != i` for a 32-bit integer and an `int`,
    /// both at file scope.
    #[verifier::allow_in_spec]
    pub fn is_long_vs_int_ne(&self, cond: &Expr) -> bool
        returns
            (match &cond.kind {
                ExprKind::BinOp { op: BinOp::Ne, left, right } => match (&left.kind, &right.kind) {
                    (ExprKind::Ident(a), ExprKind::Ident(b)) => self.is_long_global(a)
                        && self.is_int_global(b),
                    _ => false,
                },
                _ => false,
            }),
    {
        match &cond.kind {
            ExprKind::BinOp { op: BinOp::Ne, left, right } => match (&left.kind, &right.kind) {
                (ExprKind::Ident(a), ExprKind::Ident(b)) => self.is_long_global(a)
                    && self.is_int_global(b),
                _ => false,
            },
            _ => false,
        }
    }

    /// Whether a condition is `g != k` for a 32-bit integer at file scope and
    /// a constant other than zero whose halves both fit a signed byte.
    #[verifier::allow_in_spec]
    pub fn is_long_ne_const(&self, cond: &Expr) -> bool
        returns
            (match &cond.kind {
                ExprKind::BinOp { op: BinOp::Ne, left, right } => match (
                    &left.kind,
                    self.const_of(&**right),
                ) {
                    (ExprKind::Ident(name), Some(k)) => self.is_long_global(name) && k != 0
                        && fits_i8(hi16(k)) && fits_i8(lo16(k)),
                    _ => false,
                },
                _ => false,
            }),
    {
        match &cond.kind {
            ExprKind::BinOp { op: BinOp::Ne, left, right } => match (
                &left.kind,
                self.const_of(&**right),
            ) {
                (ExprKind::Ident(name), Some(k)) => self.is_long_global(name) && k != 0
                    && fits_i8(hi16(k)) && fits_i8(lo16(k)),
                _ => false,
            },
            _ => false,
        }
    }

    /// Whether a condition orders two 32-bit variables.
    #[verifier::allow_in_spec]
    pub fn is_long_signed_globals_cmp(&self, cond: &Expr) -> bool
        returns
            (match &cond.kind {
                ExprKind::BinOp { op, left, right } => is_relational(*op) && (match (
                    &left.kind,
                    &right.kind,
                ) {
                    (ExprKind::Ident(a), ExprKind::Ident(b)) => self.ident_is_long_like(a)
                        && self.ident_is_long_like(b),
                    _ => false,
                }),
                _ => false,
            }),
    {
        match &cond.kind {
            ExprKind::BinOp { op, left, right } => is_relational(*op) && (match (
                &left.kind,
                &right.kind,
            ) {
                (ExprKind::Ident(a), ExprKind::Ident(b)) => self.ident_is_long_like(a)
                    && self.ident_is_long_like(b),
                _ => false,
            }),
            _ => false,
        }
    }

    /// Whether a condition orders a 32-bit variable and a constant.
    #[verifier::allow_in_spec]
    pub fn is_long_signed_const_cmp(&self, cond: &Expr) -> bool
        returns
            (match &cond.kind {
                ExprKind::BinOp { op, left, right } => is_relational(*op) && (match &left.kind {
                    ExprKind::Ident(name) => (self.is_long_global(name) || self.is_long_local(name))
                        && self.const_of(&**right).is_some(),
                    _ => false,
                }),
                _ => false,
            }),
    {
        match &cond.kind {
            ExprKind::BinOp { op, left, right } => is_relational(*op) && (match &left.kind {
                ExprKind::Ident(name) => (self.is_long_global(name) || self.is_long_local(name))
                    && self.const_of(&**right).is_some(),
                _ => false,
            }),
            _ => false,
        }
    }

    /// Whether a condition orders a 32-bit integer and an `int`, both at file
    /// scope.
    #[verifier::allow_in_spec]
    pub fn is_long_vs_int_cmp(&self, cond: &Expr) -> bool
        returns
            (match &cond.kind {
                ExprKind::BinOp { op, left, right } => is_relational(*op) && (match (
                    &left.kind,
                    &right.kind,
                ) {
                    (ExprKind::Ident(a), ExprKind::Ident(b)) => self.is_long_global(a)
                        && self.is_int_global(b),
                    _ => false,
                }),
                _ => false,
            }),
    {
        match &cond.kind {
            ExprKind::BinOp { op, left, right } => is_relational(*op) && (match (
                &left.kind,
                &right.kind,
            ) {
                (ExprKind::Ident(a), ExprKind::Ident(b)) => self.is_long_global(a)
                    && self.is_int_global(b),
                _ => false,
            }),
            _ => false,
        }
    }

    /// Whether a variable points at characters.
    #[verifier::allow_in_spec]
    pub fn points_at_char(&self, name: &String) -> bool
        returns
            (match self.ident_pointee(name) {
                Some(t) => t.is_char_like(),
                None => false,
            }),
    {
        match self.ident_pointee(name) {
            Some(t) => t.is_char_like(),
            None => false,
        }
    }

    /// Whether a variable is an array of characters.
    #[verifier::allow_in_spec]
    pub fn is_char_array(&self, name: &String) -> bool
        returns
            (match self.array_elem_of(name) {
                Some(t) => t.is_char_like(),
                None => false,
            }),
    {
        match self.array_elem_of(name) {
            Some(t) => t.is_char_like(),
            None => false,
        }
    }

    /// Whether subscripting a variable twice reads a character through a
    /// pointer.
    #[verifier::allow_in_spec]
    pub fn holds_char_pointers(&self, name: &String) -> bool
        returns
            (match self.var_type(name) {
                Some(t) => {
                    match (match t.array_elem() {
                        Some(inner) => Some(inner),
                        None => t.pointee(),
                    }) {
                        Some(inner) => match inner.pointee() {
                            Some(c) => c.is_char_like(),
                            None => false,
                        },
                        None => false,
                    }
                },
                None => false,
            }),
    {
        match self.var_type(name) {
            Some(t) => {
                match (match t.array_elem() {
                    Some(inner) => Some(inner),
                    None => t.pointee(),
                }) {
                    Some(inner) => match inner.pointee() {
                        Some(c) => c.is_char_like(),
                        None => false,
                    },
                    None => false,
                }
            },
            None => false,
        }
    }

    /// Whether an expression loads a character from memory.
    pub open spec fn loads_char(&self, e: &Expr) -> bool {
        match (&e.kind, &self.facts(e).chain) {
            (ExprKind::Ident(name), _) => self.ident_is_char(name),
            (_, Some(chain)) => chain.ty.is_char_like(),
            (ExprKind::ArrayIndex { array, index: _ }, None) => match &array.kind {
                ExprKind::Ident(name) => self.points_at_char(name) || self.is_char_array(name),
                ExprKind::ArrayIndex { array: inner, index: _ } => match &inner.kind {
                    ExprKind::Ident(name) => self.holds_char_pointers(name),
                    _ => false,
                },
                _ => false,
            },
            (ExprKind::Deref(inner), None) => match &inner.kind {
                ExprKind::Ident(name) => self.points_at_char(name),
                _ => false,
            },
            _ => false,
        }
    }

    /// Whether an expression loads a character from memory: a character
    /// variable, element or member, or one behind a pointer.
    pub fn expr_is_char_load(&self, e: &Expr) -> (r: bool)
        requires
            self.knows_ident(e),
        ensures
            r == self.loads_char(e),
    {
        if let ExprKind::Ident(name) = &e.kind {
            return self.ident_is_char(name);
        }
        if let Some(chain) = &self.facts(e).chain {
            return chain.ty.is_char_like();
        }
        match &e.kind {
            ExprKind::ArrayIndex { array, index: _ } => match &array.kind {
                ExprKind::Ident(name) => self.points_at_char(name) || self.is_char_array(name),
                ExprKind::ArrayIndex { array: inner, index: _ } => match &inner.kind {
                    ExprKind::Ident(name) => self.holds_char_pointers(name),
                    _ => false,
                },
                _ => false,
            },
            ExprKind::Deref(inner) => match &inner.kind {
                ExprKind::Ident(name) => self.points_at_char(name),
                _ => false,
            },
            _ => false,
        }
    }
}

} // verus!
