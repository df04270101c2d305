//! The syntax tree of one C translation unit.
//!
//! Nodes keep the byte span of the source text they were read from, and
//! declarations keep their source order.

use vstd::prelude::*;

verus! {

/// A half-open byte range of the source text.
#[derive(Debug, Clone, Copy, PartialEq, Eq, Structural)]
pub struct Span {
    pub start: u32,
    pub end: u32,
}

/// One translation unit.
#[derive(Debug)]
pub struct Unit {
    pub functions: Vec<Function>,
    pub globals: Vec<Global>,
    /// The top-level declarations in the order they were written.
    pub decl_order: Vec<TopLevelRef>,
}

/// A file-scope variable. Without an initializer it lives in `_BSS`, with
/// one in `_DATA`; an external one has no storage here at all.
#[derive(Debug)]
pub struct Global {
    pub name: String,
    pub ty: Type,
    pub init: Option<Expr>,
    pub is_static: bool,
    pub is_extern: bool,
    pub span: Span,
}

/// A reference into the functions or the globals of a [`Unit`].
#[derive(Debug, Clone, Copy, PartialEq, Eq, Structural)]
pub enum TopLevelRef {
    Function(usize),
    Global(usize),
}

/// A function declaration; a prototype has no body.
#[derive(Debug)]
pub struct Function {
    pub name: String,
    pub params: Vec<Param>,
    pub ret_ty: Type,
    pub span: Span,
    pub body: Option<Vec<Stmt>>,
    pub is_static: bool,
    pub is_pascal: bool,
    pub is_far: bool,
    pub is_near: bool,
    pub is_interrupt: bool,
}

/// A function parameter.
#[derive(Debug)]
pub struct Param {
    pub name: String,
    pub ty: Type,
}

/// One `case` of a `switch`; `value` is `None` for `default`.
#[derive(Debug)]
pub struct SwitchCase {
    pub value: Option<u32>,
    pub span: Span,
    pub body: Vec<Stmt>,
}

/// A statement.
#[derive(Debug)]
pub struct Stmt {
    pub kind: StmtKind,
    pub span: Span,
}

/// The shapes of a statement.
#[derive(Debug)]
#[allow(inconsistent_fields)]
pub enum StmtKind {
    Return(Option<Expr>),
    Empty,
    Declare {
        ty: Type,
        name: String,
        init: Option<Expr>,
        is_static: bool,
        is_register: bool,
        is_volatile: bool,
    },
    If { cond: Expr, then_branch: Vec<Stmt>, else_branch: Option<Vec<Stmt>> },
    Assign { name: String, value: Expr },
    ArrayAssign { array: String, indices: Vec<Expr>, value: Expr },
    MemberArrayAssign { base: String, field: String, indices: Vec<Expr>, value: Expr },
    DerefAssign { target: Expr, value: Expr },
    MemberAssign { base: Expr, field: String, kind: MemberKind, value: Expr },
    MemberCompoundAssign {
        base: Expr,
        field: String,
        kind: MemberKind,
        op: BinOp,
        value: Expr,
        from_postfix: bool,
    },
    DerefCompoundAssign { target: Expr, op: BinOp, value: Expr, from_postfix: bool },
    ArrayCompoundAssign {
        array: String,
        indices: Vec<Expr>,
        op: BinOp,
        value: Expr,
        from_postfix: bool,
    },
    CompoundAssign { name: String, op: BinOp, value: Expr },
    While { cond: Expr, body: Vec<Stmt> },
    DoWhile { body: Vec<Stmt>, cond: Expr },
    For {
        init: Option<Vec<Expr>>,
        cond: Option<Expr>,
        step: Option<Vec<Expr>>,
        body: Vec<Stmt>,
    },
    Break,
    Continue,
    Goto { label: String },
    Asm { body: String },
    Label { name: String },
    Switch { scrutinee: Expr, cases: Vec<SwitchCase> },
    ExprStmt(Expr),
    Block(Vec<Stmt>),
}

/// The C types the compiler knows. An `int` is two bytes, a near pointer
/// two, a `long` and a far pointer four.
#[derive(Debug, PartialEq, Eq)]
pub enum Type {
    Int,
    UInt,
    Char,
    UChar,
    Long,
    ULong,
    Float,
    Double,
    Array { elem: Box<Type>, len: u32 },
    /// A pointer of the memory model's default distance.
    Pointer(Box<Type>),
    /// A segment and offset pair.
    FarPointer { pointee: Box<Type>, is_huge: bool },
    /// A pointer declared `near`, whatever the memory model.
    NearPointer(Box<Type>),
    /// A pointer to a function; its signature is not tracked.
    FnPointer,
    /// A struct or union; `size` is its byte size with padding.
    Struct { name: Option<String>, fields: Vec<StructField>, size: u16 },
}

/// A member of a struct, with its byte offset.
#[derive(Debug, PartialEq, Eq)]
pub struct StructField {
    pub name: String,
    pub bitfield: Option<BitfieldInfo>,
    pub ty: Type,
    pub offset: u16,
}

/// Where a bitfield lies within the unit its member's offset names.
#[derive(Debug, Clone, Copy, PartialEq, Eq, Structural)]
pub struct BitfieldInfo {
    pub bit_offset: u8,
    pub bit_width: u8,
}

/// The first field from position `from` on that is called `name`.
pub open spec fn find_field<'a>(
    fields: Seq<StructField>,
    name: Seq<char>,
    from: int,
) -> Option<&'a StructField>
    decreases fields.len() - from,
{
    if from < 0 || from >= fields.len() {
        None
    } else if fields[from].name@ == name {
        Some(&fields[from])
    } else {
        find_field(fields, name, from + 1)
    }
}

impl Type {
    /// The byte size of a type as a number without bounds.
    pub open spec fn size(self) -> nat
        decreases self,
    {
        match self {
            Type::Int | Type::UInt => 2,
            Type::Char | Type::UChar => 1,
            Type::Long | Type::ULong | Type::Float => 4,
            Type::Double => 8,
            Type::Array { elem, len } => elem.size() * (len as nat),
            Type::Pointer(_) | Type::NearPointer(_) | Type::FnPointer => 2,
            Type::FarPointer { .. } => 4,
            Type::Struct { size, .. } => size as nat,
        }
    }

    /// Whether the size of this type fits in 16 bits. Only an array can be
    /// too large.
    pub open spec fn spec_is_countable(&self) -> bool
        decreases self,
    {
        match self {
            Type::Array { elem, len } => elem.spec_is_countable() && len <= 0xFFFF && self.size()
                <= 0xFFFF,
            _ => true,
        }
    }

    /// Whether the size of this type fits in 16 bits.
    #[verifier::when_used_as_spec(spec_is_countable)]
    pub fn is_countable(&self) -> (r: bool)
        ensures
            r == self.spec_is_countable(),
        decreases self,
    {
        match self {
            Type::Array { elem, len } => {
                if *len > 0xFFFF || !elem.is_countable() {
                    return false;
                }
                let each: u16 = elem.size_bytes();
                proof {
                    assert(self.size() == each * *len);
                    assert(each * *len <= 0xFFFF * 0xFFFF) by (nonlinear_arith)
                        requires
                            0 <= each <= 0xFFFF,
                            0 <= *len <= 0xFFFF,
                    ;
                }
                each as u64 * *len as u64 <= 0xFFFF
            },
            _ => true,
        }
    }

    /// Whether the size of this type, of every element and member type and
    /// of every type behind a pointer fits in 16 bits.
    pub open spec fn fits(self) -> bool
        decreases self,
    {
        &&& self.is_countable()
        &&& match self {
            Type::Array { elem, .. } => elem.fits(),
            Type::Pointer(t) | Type::NearPointer(t) => t.fits(),
            Type::FarPointer { pointee, .. } => pointee.fits(),
            Type::Struct { fields, .. } => forall|i: int|
                0 <= i < fields@.len() ==> (#[trigger] fields@[i]).ty.fits(),
            _ => true,
        }
    }

    /// The byte size.
    #[must_use]
    pub fn size_bytes(&self) -> (r: u16)
        requires
            self.is_countable(),
        ensures
            r == self.size(),
        decreases self,
    {
        match self {
            Type::Int | Type::UInt => 2,
            Type::Char | Type::UChar => 1,
            Type::Long | Type::ULong => 4,
            Type::Float => 4,
            Type::Double => 8,
            Type::Array { elem, len } => {
                let each: u16 = elem.size_bytes();
                let count: u16 = *len as u16;
                proof {
                    assert(each * count == self.size()) by {
                        assert(self.size() == elem.size() * (*len as nat));
                    }
                }
                each * count
            },
            Type::Pointer(_) => 2,
            Type::NearPointer(_) => 2,
            Type::FarPointer { .. } => 4,
            Type::FnPointer => 2,
            Type::Struct { size, .. } => *size,
        }
    }

    /// The alignment of the innermost element: one for characters, two for
    /// everything else.
    pub open spec fn align(self) -> u16
        decreases self,
    {
        match self {
            Type::Char | Type::UChar => 1,
            Type::Array { elem, .. } => elem.align(),
            _ => 2,
        }
    }

    /// Whether two types are the same: equal in shape, with equal sizes,
    /// member names, bit positions and offsets throughout.
    pub open spec fn same(self, other: Type) -> bool
        decreases self,
    {
        match (self, other) {
            (Type::Int, Type::Int) => true,
            (Type::UInt, Type::UInt) => true,
            (Type::Char, Type::Char) => true,
            (Type::UChar, Type::UChar) => true,
            (Type::Long, Type::Long) => true,
            (Type::ULong, Type::ULong) => true,
            (Type::Float, Type::Float) => true,
            (Type::Double, Type::Double) => true,
            (Type::FnPointer, Type::FnPointer) => true,
            (Type::Array { elem: a, len: m }, Type::Array { elem: b, len: n }) => m == n && a.same(
                *b,
            ),
            (Type::Pointer(a), Type::Pointer(b)) => a.same(*b),
            (Type::NearPointer(a), Type::NearPointer(b)) => a.same(*b),
            (
                Type::FarPointer { pointee: a, is_huge: h },
                Type::FarPointer { pointee: b, is_huge: i },
            ) => h == i && a.same(*b),
            (
                Type::Struct { name: a, fields: f, size: m },
                Type::Struct { name: b, fields: g, size: n },
            ) => {
                &&& m == n
                &&& a is Some == b is Some
                &&& (a is Some ==> a->0@ == b->0@)
                &&& f@.len() == g@.len()
                &&& forall|i: int|
                    0 <= i < f@.len() ==> {
                        &&& (#[trigger] f@[i]).name@ == g@[i].name@
                        &&& f@[i].bitfield == g@[i].bitfield
                        &&& f@[i].offset == g@[i].offset
                        &&& f@[i].ty.same(g@[i].ty)
                    }
            },
            _ => false,
        }
    }

    /// Whether two types are the same, as a method on references.
    pub open spec fn spec_same_as(&self, other: &Type) -> bool {
        self.same(*other)
    }

    /// Whether two types are the same.
    #[verifier::when_used_as_spec(spec_same_as)]
    pub fn same_as(&self, other: &Type) -> (r: bool)
        ensures
            r == self.spec_same_as(other),
        decreases self,
    {
        match (self, other) {
            (Type::Int, Type::Int) => true,
            (Type::UInt, Type::UInt) => true,
            (Type::Char, Type::Char) => true,
            (Type::UChar, Type::UChar) => true,
            (Type::Long, Type::Long) => true,
            (Type::ULong, Type::ULong) => true,
            (Type::Float, Type::Float) => true,
            (Type::Double, Type::Double) => true,
            (Type::FnPointer, Type::FnPointer) => true,
            (Type::Array { elem: a, len: m }, Type::Array { elem: b, len: n }) => *m == *n
                && a.same_as(&**b),
            (Type::Pointer(a), Type::Pointer(b)) => a.same_as(&**b),
            (Type::NearPointer(a), Type::NearPointer(b)) => a.same_as(&**b),
            (
                Type::FarPointer { pointee: a, is_huge: h },
                Type::FarPointer { pointee: b, is_huge: i },
            ) => *h == *i && a.same_as(&**b),
            (
                Type::Struct { name: a, fields: f, size: m },
                Type::Struct { name: b, fields: g, size: n },
            ) => {
                if *m != *n || f.len() != g.len() {
                    return false;
                }
                let named: bool = match (a, b) {
                    (Some(x), Some(y)) => *x == *y,
                    (None, None) => true,
                    _ => false,
                };
                if !named {
                    return false;
                }
                let mut i: usize = 0;
                while i < f.len()
                    invariant
                        0 <= i <= f.len(),
                        f.len() == g.len(),
                        self matches Type::Struct { fields: own, .. } && own == f,
                        other matches Type::Struct { fields: own, .. } && own == g,
                        forall|j: int|
                            0 <= j < i ==> {
                                &&& (#[trigger] f@[j]).name@ == g@[j].name@
                                &&& f@[j].bitfield == g@[j].bitfield
                                &&& f@[j].offset == g@[j].offset
                                &&& f@[j].ty.same(g@[j].ty)
                            },
                    decreases f.len() - i,
                {
                    let alike: bool = f[i].name == g[i].name && f[i].bitfield == g[i].bitfield
                        && f[i].offset == g[i].offset && f[i].ty.same_as(&g[i].ty);
                    if !alike {
                        return false;
                    }
                    i += 1;
                }
                true
            },
            _ => false,
        }
    }

    /// The byte alignment. A `long` aligns to two, not four.
    #[must_use]
    pub fn alignment(&self) -> (r: u16)
        ensures
            r == self.align(),
        decreases self,
    {
        match self {
            Type::Int | Type::UInt => 2,
            Type::Char | Type::UChar => 1,
            Type::Long | Type::ULong => 2,
            Type::Float | Type::Double => 2,
            Type::Array { elem, .. } => elem.alignment(),
            Type::Pointer(_) => 2,
            Type::NearPointer(_) => 2,
            Type::FarPointer { .. } => 2,
            Type::FnPointer => 2,
            Type::Struct { .. } => 2,
        }
    }

    /// Whether this is one of the unsigned integer types.
    #[must_use]
    #[verifier::allow_in_spec]
    pub fn is_unsigned(&self) -> bool
        returns
            (match self {
                Type::UInt | Type::ULong | Type::UChar => true,
                _ => false,
            }),
    {
        match self {
            Type::UInt | Type::ULong | Type::UChar => true,
            _ => false,
        }
    }

    /// Whether this is a one-byte character type.
    #[must_use]
    #[verifier::allow_in_spec]
    pub fn is_char_like(&self) -> bool
        returns
            (match self {
                Type::Char | Type::UChar => true,
                _ => false,
            }),
    {
        match self {
            Type::Char | Type::UChar => true,
            _ => false,
        }
    }

    /// Whether this is a 32-bit integer type.
    #[must_use]
    #[verifier::allow_in_spec]
    pub fn is_long_like(&self) -> bool
        returns
            (match self {
                Type::Long | Type::ULong => true,
                _ => false,
            }),
    {
        match self {
            Type::Long | Type::ULong => true,
            _ => false,
        }
    }

    /// Whether a 32-bit integer lies anywhere in storage of this type, as
    /// the type itself, an array element or a struct member. What a pointer
    /// points at does not count.
    pub open spec fn holds_long(self) -> bool
        decreases self,
    {
        match self {
            Type::Long | Type::ULong => true,
            Type::Array { elem, .. } => elem.holds_long(),
            Type::Struct { fields, .. } => exists|i: int|
                0 <= i < fields@.len() && (#[trigger] fields@[i]).ty.holds_long(),
            _ => false,
        }
    }

    /// Whether storage of this type contains a 32-bit integer.
    #[must_use]
    pub fn contains_long(&self) -> (r: bool)
        ensures
            r == self.holds_long(),
        decreases self,
    {
        match self {
            Type::Long | Type::ULong => true,
            Type::Array { elem, .. } => elem.contains_long(),
            Type::Struct { fields, .. } => {
                let mut i: usize = 0;
                while i < fields.len()
                    invariant
                        0 <= i <= fields.len(),
                        self matches Type::Struct { fields: own, .. } && own == fields,
                        forall|j: int|
                            0 <= j < i ==> !(#[trigger] fields@[j]).ty.holds_long(),
                    decreases fields.len() - i,
                {
                    if fields[i].ty.contains_long() {
                        return true;
                    }
                    i += 1;
                }
                false
            },
            _ => false,
        }
    }

    /// The member called `name`: the first one, if a struct lists the name
    /// twice. `None` for a type that is no struct.
    pub open spec fn member(&self, name: Seq<char>) -> Option<&StructField> {
        match self {
            Type::Struct { fields, .. } => find_field(fields@, name, 0),
            _ => None,
        }
    }

    /// The offset and the type of the first member called `name`.
    #[must_use]
    pub fn field(&self, name: &str) -> (r: Option<(u16, &Type)>)
        ensures
            r == (match self.member(name@) {
                Some(f) => Some((f.offset, &f.ty)),
                None => None,
            }),
            self.fits() ==> (r matches Some((_, t)) ==> t.fits()),
    {
        let wanted: String = name.to_owned();
        match self.struct_field_info(&wanted) {
            Some(f) => Some((f.offset, &f.ty)),
            None => None,
        }
    }

    /// The first member called `name`, as the contracts of the code
    /// generator write it.
    pub open spec fn spec_struct_field_info(&self, name: &String) -> Option<&StructField> {
        self.member(name@)
    }

    /// The first member called `name`.
    #[verifier::when_used_as_spec(spec_struct_field_info)]
    pub fn struct_field_info(&self, name: &String) -> (r: Option<&StructField>)
        ensures
            r == self.spec_struct_field_info(name),
            self.fits() ==> (r matches Some(f) ==> f.ty.fits()),
    {
        match self {
            Type::Struct { fields, .. } => {
                let mut i: usize = 0;
                while i < fields.len()
                    invariant
                        0 <= i <= fields.len(),
                        self matches Type::Struct { fields: own, .. } && own == fields,
                        find_field(fields@, name@, 0) == find_field(fields@, name@, i as int),
                    decreases fields.len() - i,
                {
                    if fields[i].name == *name {
                        return Some(&fields[i]);
                    }
                    i += 1;
                }
                None
            },
            _ => None,
        }
    }

    /// Whether this can live in a word register: a 16-bit integer or any
    /// pointer but a far one. A far pointer is a pair of words, which no
    /// register holds.
    #[must_use]
    #[verifier::allow_in_spec]
    pub fn is_int_like(&self) -> bool
        returns
            (match self {
                Type::Int
                | Type::UInt
                | Type::Pointer(_)
                | Type::NearPointer(_)
                | Type::FnPointer => true,
                _ => false,
            }),
    {
        match self {
            Type::Int
            | Type::UInt
            | Type::Pointer(_)
            | Type::NearPointer(_)
            | Type::FnPointer => true,
            _ => false,
        }
    }

    /// Whether this is a floating-point type.
    #[must_use]
    #[verifier::allow_in_spec]
    pub fn is_float_like(&self) -> bool
        returns
            (match self {
                Type::Float | Type::Double => true,
                _ => false,
            }),
    {
        match self {
            Type::Float | Type::Double => true,
            _ => false,
        }
    }

    /// The element type of an array.
    pub open spec fn spec_array_elem(&self) -> Option<&Type> {
        match self {
            Type::Array { elem, .. } => Some(&**elem),
            _ => None,
        }
    }

    /// The element type, if this is an array.
    #[must_use]
    #[verifier::when_used_as_spec(spec_array_elem)]
    pub fn array_elem(&self) -> (r: Option<&Type>)
        ensures
            r == self.spec_array_elem(),
            self.fits() ==> (r matches Some(t) ==> t.fits()),
    {
        match self {
            Type::Array { elem, .. } => Some(&**elem),
            _ => None,
        }
    }

    /// What a data pointer points at.
    pub open spec fn spec_pointee(&self) -> Option<&Type> {
        match self {
            Type::Pointer(inner) | Type::NearPointer(inner) => Some(&**inner),
            Type::FarPointer { pointee, .. } => Some(&**pointee),
            _ => None,
        }
    }

    /// The type behind a data pointer of any distance; `None` for every
    /// other type, function pointers among them.
    #[must_use]
    #[verifier::when_used_as_spec(spec_pointee)]
    pub fn pointee(&self) -> (r: Option<&Type>)
        ensures
            r == self.spec_pointee(),
            self.fits() ==> (r matches Some(t) ==> t.fits()),
    {
        match self {
            Type::Pointer(inner) => Some(&**inner),
            Type::NearPointer(inner) => Some(&**inner),
            Type::FarPointer { pointee, .. } => Some(&**pointee),
            Type::FnPointer => None,
            _ => None,
        }
    }
}

/// An expression.
#[derive(Debug)]
pub struct Expr {
    pub kind: ExprKind,
    pub span: Span,
}

/// The shapes of an expression. Floating-point literals carry the bits of
/// their value.
#[derive(Debug)]
#[allow(inconsistent_fields)]
pub enum ExprKind {
    IntLit(u32),
    FloatLit(u32),
    DoubleLit(u64),
    Ident(String),
    /// A register named in the source, such as `_AX`.
    PseudoReg(String),
    BinOp { op: BinOp, left: Box<Expr>, right: Box<Expr> },
    Unary { op: UnaryOp, operand: Box<Expr> },
    Logical { op: LogicalOp, left: Box<Expr>, right: Box<Expr> },
    Update { target: String, op: UpdateOp, position: UpdatePosition },
    UpdateLvalue { target: Box<Expr>, op: UpdateOp, position: UpdatePosition },
    AssignExpr { target: String, value: Box<Expr> },
    AssignLvalueExpr { target: Box<Expr>, value: Box<Expr> },
    CompoundAssignExpr { target: String, op: BinOp, value: Box<Expr> },
    Call { name: String, args: Vec<Expr> },
    CallVia { addr: Box<Expr>, args: Vec<Expr> },
    AddressOf(String),
    AddressOfArrayElem { array: String, byte_offset: i32 },
    AddressOfArrayElemVar { array: String, index: Box<Expr>, elem_size: u16 },
    Deref(Box<Expr>),
    ArrayIndex { array: Box<Expr>, index: Box<Expr> },
    StringLit(Vec<u8>),
    Member { base: Box<Expr>, field: String, kind: MemberKind },
    Ternary { cond: Box<Expr>, then_value: Box<Expr>, else_value: Box<Expr> },
    Cast { ty: Type, operand: Box<Expr> },
    InitList { items: Vec<Expr> },
    Comma { left: Box<Expr>, right: Box<Expr> },
}

/// `s.f` or `p->f`.
#[derive(Debug, Clone, Copy, PartialEq, Eq, Structural)]
pub enum MemberKind {
    Dot,
    Arrow,
}

/// `&&` or `||`.
#[derive(Debug, Clone, Copy, PartialEq, Eq, Structural)]
pub enum LogicalOp {
    And,
    Or,
}

/// `++` or `--`.
#[derive(Debug, Clone, Copy, PartialEq, Eq, Structural)]
pub enum UpdateOp {
    Inc,
    Dec,
}

/// Whether the operator stands before or after its operand.
#[derive(Debug, Clone, Copy, PartialEq, Eq, Structural)]
pub enum UpdatePosition {
    Pre,
    Post,
}

/// The unary operators.
#[derive(Debug, Clone, Copy, PartialEq, Eq, Structural)]
pub enum UnaryOp {
    Neg,
    Not,
    BitNot,
}

/// The binary operators that evaluate both operands.
#[derive(Debug, Clone, Copy, PartialEq, Eq, Structural)]
pub enum BinOp {
    Add,
    Sub,
    Mul,
    Div,
    Mod,
    BitAnd,
    BitOr,
    BitXor,
    Shl,
    Shr,
    Eq,
    Ne,
    Lt,
    Le,
    Gt,
    Ge,
}

impl BinOp {
    /// Whether this is one of the six comparisons.
    #[must_use]
    #[verifier::allow_in_spec]
    pub fn is_comparison(self) -> bool
        returns
            (match self {
                BinOp::Eq | BinOp::Ne | BinOp::Lt | BinOp::Le | BinOp::Gt | BinOp::Ge => true,
                _ => false,
            }),
    {
        match self {
            BinOp::Eq | BinOp::Ne | BinOp::Lt | BinOp::Le | BinOp::Gt | BinOp::Ge => true,
            _ => false,
        }
    }

    /// Whether the operands may be exchanged.
    #[must_use]
    #[verifier::allow_in_spec]
    pub fn is_commutative(self) -> bool
        returns
            (match self {
                BinOp::Add | BinOp::Mul | BinOp::BitAnd | BinOp::BitOr | BinOp::BitXor
                | BinOp::Eq | BinOp::Ne => true,
                _ => false,
            }),
    {
        match self {
            BinOp::Add | BinOp::Mul | BinOp::BitAnd | BinOp::BitOr | BinOp::BitXor
            | BinOp::Eq | BinOp::Ne => true,
            _ => false,
        }
    }

    /// The conditional jump that skips ahead when the comparison does not
    /// hold; `None` for an operator that is no comparison.
    #[must_use]
    pub fn jump_if_false(self, unsigned: bool) -> (r: Option<&'static str>)
        ensures
            r == (match crate::isa::jcc_if_false(self, unsigned) {
                Some(j) => Some(j.text()),
                None => None,
            }),
    {
        match crate::isa::jcc_if_false(self, unsigned) {
            Some(j) => Some(j.text()),
            None => None,
        }
    }

    /// The conditional jump that is taken when the comparison holds; `None`
    /// for an operator that is no comparison.
    #[must_use]
    pub fn jump_if_true(self, unsigned: bool) -> (r: Option<&'static str>)
        ensures
            r == (match crate::isa::jcc_if_true(self, unsigned) {
                Some(j) => Some(j.text()),
                None => None,
            }),
    {
        match crate::isa::jcc_if_true(self, unsigned) {
            Some(j) => Some(j.text()),
            None => None,
        }
    }
}

} // verus!
