//! What the code generator knows of the program around the code it emits:
//! the symbol tables, and what earlier passes found out about each
//! expression.

use vstd::prelude::*;
use crate::ast::{Expr, ExprKind, Span, Type};
use crate::isa::{bp, bp2, disp, global, global2, global_at, scaled, Addr, Reg};

verus! {

/// Where a local variable lives.
#[derive(Debug, Clone, Copy, PartialEq, Eq, Structural)]
pub enum LocalLocation {
    /// In the stack frame, at this distance from `bp`.
    Stack(i16),
    /// In a register.
    Reg(Reg),
}

/// A local variable or a parameter.
#[derive(Debug)]
pub struct Local {
    pub name: String,
    pub ty: Type,
    pub loc: LocalLocation,
    /// The segment register of a pointer declared `_cs`, `_ds`, `_es` or
    /// `_ss`.
    pub seg: Option<Reg>,
    /// Whether this is a `_seg` pointer, which holds a segment alone.
    pub is_selector: bool,
}

/// A file-scope variable.
#[derive(Debug)]
pub struct GlobalVar {
    pub name: String,
    pub ty: Type,
}

/// A function with its return type.
#[derive(Debug)]
pub struct Signature {
    pub name: String,
    pub ret_ty: Type,
}

/// A register that the source may name, such as `_AX`.
#[derive(Debug)]
pub struct PseudoRegister {
    pub name: String,
    pub reg: Reg,
}

/// Storage at a constant distance from a named variable.
#[derive(Debug)]
pub struct Chain {
    pub name: String,
    pub off: i32,
    pub ty: Type,
}

/// What kind of operand an expression can be used as.
#[derive(Debug, Clone, Copy, PartialEq, Eq, Structural)]
pub enum SourceKind {
    Immediate,
    Reg(Reg),
    /// A frame slot or a file-scope variable.
    Memory,
    /// Any other operand.
    Other,
}

/// An expression that can stand as an operand, with its text as a word and
/// as a byte.
#[derive(Debug)]
pub struct Source {
    pub kind: SourceKind,
    pub word: String,
    pub byte: String,
}

/// Where an integer index can be read from.
#[derive(Debug)]
pub enum IndexSource {
    Reg(Reg),
    Mem(String),
}

/// The addresses of the two halves of a 32-bit operand.
#[derive(Debug)]
pub struct LongHalves {
    pub lo: String,
    pub hi: String,
    pub ty: Type,
}

/// An address with the type of what lies there.
#[derive(Debug)]
pub struct TypedAddr {
    pub addr: String,
    pub ty: Type,
}

/// What is known of one expression.
#[derive(Debug)]
pub struct Facts {
    /// The value of a constant expression that is no literal.
    pub const_value: Option<u32>,
    /// The address of an integer in memory.
    pub int_addr: Option<String>,
    /// Where an integer index is read from.
    pub int_src: Option<IndexSource>,
    /// The operand of an index into a two-dimensional array.
    pub index_operand: Option<String>,
    /// The addresses of the high and the low half of a 32-bit variable.
    pub long_addrs: Option<(String, String)>,
    /// The frame offset of a far pointer.
    pub far_offset: Option<i16>,
    /// The storage that member accesses and constant subscripts lead to.
    pub chain: Option<Chain>,
    /// The storage that a chain of `.` accesses leads to.
    pub dot_chain: Option<Chain>,
    /// The expression as an operand.
    pub source: Option<Source>,
    /// The low byte of the expression as an operand.
    pub byte_operand: Option<String>,
    /// The integer type that the right side of a compound assignment has.
    pub compound_type: Option<Type>,
    /// The type from which a right side is widened to 32 bits.
    pub widening_type: Option<Type>,
    /// The halves of a 32-bit element or member.
    pub long_halves: Option<LongHalves>,
    /// An integer in file-scope storage.
    pub global_int: Option<TypedAddr>,
    /// The addresses of the two integers that `((long)a << 16) | b` puts
    /// together, the high one first.
    pub combined: Option<(String, String)>,
    /// For a subscript: the frame displacement of a character array that is
    /// indexed by `si`.
    pub frame_disp: Option<i16>,
    /// The first label set aside for the expression.
    pub label_base: Option<u32>,
    /// Whether the value is a floating-point number.
    pub is_float: bool,
    /// Whether the value is the literal one in floating point.
    pub is_float_one: bool,
    /// Whether the value has to be computed in `ax`.
    pub needs_ax: bool,
    /// Whether evaluation calls a function.
    pub has_call: bool,
    /// Whether a comparison is made without sign.
    pub unsigned_compare: bool,
    /// Whether the value is an unsigned integer.
    pub unsigned_int: bool,
    /// Whether a 32-bit value can be computed straight into memory.
    pub long_storable: bool,
}

impl Facts {
    /// Whether the types of the storage have sizes.
    pub open spec fn wf(self) -> bool {
        &&& self.chain matches Some(c) ==> c.ty.fits()
        &&& self.dot_chain matches Some(c) ==> c.ty.fits()
    }

    /// The facts of an expression of which nothing is known.
    pub fn none() -> (r: Self)
        ensures
            r == (Facts {
                const_value: None,
                int_addr: None,
                int_src: None,
                index_operand: None,
                long_addrs: None,
                far_offset: None,
                chain: None,
                dot_chain: None,
                source: None,
                byte_operand: None,
                compound_type: None,
                widening_type: None,
                long_halves: None,
                global_int: None,
                combined: None,
                frame_disp: None,
                label_base: None,
                is_float: false,
                is_float_one: false,
                needs_ax: false,
                has_call: false,
                unsigned_compare: false,
                unsigned_int: false,
                long_storable: false,
            }),
            r.wf(),
    {
        Facts {
            const_value: None,
            int_addr: None,
            int_src: None,
            index_operand: None,
            long_addrs: None,
            far_offset: None,
            chain: None,
            dot_chain: None,
            source: None,
            byte_operand: None,
            compound_type: None,
            widening_type: None,
            long_halves: None,
            global_int: None,
            combined: None,
            frame_disp: None,
            label_base: None,
            is_float: false,
            is_float_one: false,
            needs_ax: false,
            has_call: false,
            unsigned_compare: false,
            unsigned_int: false,
            long_storable: false,
        }
    }
}

/// The facts of the expression at a span.
#[derive(Debug)]
pub struct Note {
    pub span: Span,
    pub facts: Facts,
}

/// The surroundings of a function.
#[derive(Debug)]
pub struct Env {
    pub locals: Vec<Local>,
    pub globals: Vec<GlobalVar>,
    pub signatures: Vec<Signature>,
    pub pseudo_registers: Vec<PseudoRegister>,
    pub notes: Vec<Note>,
    /// The facts of an expression that has no note.
    pub no_facts: Facts,
    /// The frame offset of the slot for structs that functions return.
    pub struct_tmp: i16,
}

/// Whether two names are spelled alike.
pub open spec fn spec_same_name(a: &String, b: &String) -> bool {
    a@ == b@
}

/// Whether two names are spelled alike.
#[verifier::when_used_as_spec(spec_same_name)]
pub fn same_name(a: &String, b: &String) -> (r: bool)
    ensures
        r == spec_same_name(a, b),
{
    *a == *b
}

/// The first local from position `from` on with a given name.
pub open spec fn find_local<'a>(table: Seq<Local>, name: Seq<char>, from: int) -> Option<&'a Local>
    decreases table.len() - from,
{
    if from < 0 || from >= table.len() {
        None
    } else if table[from].name@ == name {
        Some(&table[from])
    } else {
        find_local(table, name, from + 1)
    }
}

/// The type of the first global from position `from` on with a given name.
pub open spec fn find_global<'a>(
    table: Seq<GlobalVar>,
    name: Seq<char>,
    from: int,
) -> Option<&'a Type>
    decreases table.len() - from,
{
    if from < 0 || from >= table.len() {
        None
    } else if table[from].name@ == name {
        Some(&table[from].ty)
    } else {
        find_global(table, name, from + 1)
    }
}

/// The return type of the first function from position `from` on with a
/// given name.
pub open spec fn find_signature<'a>(
    table: Seq<Signature>,
    name: Seq<char>,
    from: int,
) -> Option<&'a Type>
    decreases table.len() - from,
{
    if from < 0 || from >= table.len() {
        None
    } else if table[from].name@ == name {
        Some(&table[from].ret_ty)
    } else {
        find_signature(table, name, from + 1)
    }
}

/// The first pseudo-register from position `from` on with a given name.
pub open spec fn find_pseudo(table: Seq<PseudoRegister>, name: Seq<char>, from: int) -> Option<Reg>
    decreases table.len() - from,
{
    if from < 0 || from >= table.len() {
        None
    } else if table[from].name@ == name {
        Some(table[from].reg)
    } else {
        find_pseudo(table, name, from + 1)
    }
}

/// The first note from position `from` on for a given span.
pub open spec fn find_note<'a>(table: Seq<Note>, span: Span, from: int) -> Option<&'a Facts>
    decreases table.len() - from,
{
    if from < 0 || from >= table.len() {
        None
    } else if table[from].span == span {
        Some(&table[from].facts)
    } else {
        find_note(table, span, from + 1)
    }
}

impl Env {
    /// Whether every type in the tables has a size of at most 16 bits.
    pub open spec fn wf(self) -> bool {
        &&& forall|i: int| 0 <= i < self.locals@.len() ==> (#[trigger] self.locals@[i]).ty.fits()
        &&& forall|i: int| 0 <= i < self.globals@.len() ==> (#[trigger] self.globals@[i]).ty.fits()
        &&& forall|i: int|
            0 <= i < self.signatures@.len() ==> (#[trigger] self.signatures@[i]).ret_ty.fits()
        &&& forall|i: int| 0 <= i < self.notes@.len() ==> (#[trigger] self.notes@[i]).facts.wf()
        &&& self.no_facts.wf()
    }

    /// The local variable called `name`.
    pub open spec fn spec_local(&self, name: &String) -> Option<&Local> {
        find_local(self.locals@, name@, 0)
    }

    /// The local variable called `name`.
    #[verifier::when_used_as_spec(spec_local)]
    pub fn local(&self, name: &String) -> (r: Option<&Local>)
        ensures
            r == self.spec_local(name),
            self.wf() ==> (r matches Some(l) ==> l.ty.fits()),
    {
        let mut i: usize = 0;
        while i < self.locals.len()
            invariant
                0 <= i <= self.locals.len(),
                find_local(self.locals@, name@, 0) == find_local(self.locals@, name@, i as int),
            decreases self.locals.len() - i,
        {
            if self.locals[i].name == *name {
                return Some(&self.locals[i]);
            }
            i += 1;
        }
        None
    }

    /// The type of the file-scope variable called `name`.
    pub open spec fn spec_global_type(&self, name: &String) -> Option<&Type> {
        find_global(self.globals@, name@, 0)
    }

    /// The type of the file-scope variable called `name`.
    #[verifier::when_used_as_spec(spec_global_type)]
    pub fn global_type(&self, name: &String) -> (r: Option<&Type>)
        ensures
            r == self.spec_global_type(name),
            self.wf() ==> (r matches Some(t) ==> t.fits()),
    {
        let mut i: usize = 0;
        while i < self.globals.len()
            invariant
                0 <= i <= self.globals.len(),
                find_global(self.globals@, name@, 0) == find_global(self.globals@, name@, i as int),
            decreases self.globals.len() - i,
        {
            if self.globals[i].name == *name {
                return Some(&self.globals[i].ty);
            }
            i += 1;
        }
        None
    }

    /// The return type of the function called `name`.
    pub open spec fn spec_ret_ty_of(&self, name: &String) -> Option<&Type> {
        find_signature(self.signatures@, name@, 0)
    }

    /// The return type of the function called `name`.
    #[verifier::when_used_as_spec(spec_ret_ty_of)]
    pub fn ret_ty_of(&self, name: &String) -> (r: Option<&Type>)
        ensures
            r == self.spec_ret_ty_of(name),
            self.wf() ==> (r matches Some(t) ==> t.fits()),
    {
        let mut i: usize = 0;
        while i < self.signatures.len()
            invariant
                0 <= i <= self.signatures.len(),
                find_signature(self.signatures@, name@, 0) == find_signature(
                    self.signatures@,
                    name@,
                    i as int,
                ),
            decreases self.signatures.len() - i,
        {
            if self.signatures[i].name == *name {
                return Some(&self.signatures[i].ret_ty);
            }
            i += 1;
        }
        None
    }

    /// The register that `name` stands for in the source.
    pub open spec fn spec_pseudo(&self, name: &String) -> Option<Reg> {
        find_pseudo(self.pseudo_registers@, name@, 0)
    }

    /// The register that `name` stands for in the source.
    #[verifier::when_used_as_spec(spec_pseudo)]
    pub fn pseudo(&self, name: &String) -> (r: Option<Reg>)
        ensures
            r == self.spec_pseudo(name),
    {
        let mut i: usize = 0;
        while i < self.pseudo_registers.len()
            invariant
                0 <= i <= self.pseudo_registers.len(),
                find_pseudo(self.pseudo_registers@, name@, 0) == find_pseudo(
                    self.pseudo_registers@,
                    name@,
                    i as int,
                ),
            decreases self.pseudo_registers.len() - i,
        {
            if self.pseudo_registers[i].name == *name {
                return Some(self.pseudo_registers[i].reg);
            }
            i += 1;
        }
        None
    }

    /// What is known of an expression, looked up by its span.
    pub open spec fn spec_facts(&self, e: &Expr) -> &Facts {
        match find_note(self.notes@, e.span, 0) {
            Some(f) => f,
            None => &self.no_facts,
        }
    }

    /// What is known of an expression, looked up by its span.
    #[verifier::when_used_as_spec(spec_facts)]
    pub fn facts(&self, e: &Expr) -> (r: &Facts)
        ensures
            r == self.spec_facts(e),
            self.wf() ==> r.wf(),
    {
        let mut i: usize = 0;
        while i < self.notes.len()
            invariant
                0 <= i <= self.notes.len(),
                find_note(self.notes@, e.span, 0) == find_note(self.notes@, e.span, i as int),
            decreases self.notes.len() - i,
        {
            if self.notes[i].span == e.span {
                return &self.notes[i].facts;
            }
            i += 1;
        }
        &self.no_facts
    }

    /// The value of a constant expression. A literal is its own value; of
    /// any other expression the facts say whether it is constant.
    #[verifier::allow_in_spec]
    pub fn const_of(&self, e: &Expr) -> Option<u32>
        returns
            (match &e.kind {
                ExprKind::IntLit(v) => Some(*v),
                _ => self.facts(e).const_value,
            }),
    {
        match &e.kind {
            ExprKind::IntLit(v) => Some(*v),
            _ => self.facts(e).const_value,
        }
    }

    /// Whether a name is a local variable.
    #[verifier::allow_in_spec]
    pub fn has(&self, name: &String) -> bool
        returns
            (self.local(name).is_some()),
    {
        self.local(name).is_some()
    }

    /// Whether a name is a file-scope variable.
    #[verifier::allow_in_spec]
    pub fn is_global(&self, name: &String) -> bool
        returns
            (self.global_type(name).is_some()),
    {
        self.global_type(name).is_some()
    }

    /// The frame offset of a local variable on the stack.
    #[verifier::allow_in_spec]
    pub fn stack_of(&self, name: &String) -> Option<i16>
        returns
            (match self.local(name) {
                Some(l) => match l.loc {
                    LocalLocation::Stack(off) => Some(off),
                    LocalLocation::Reg(_) => None,
                },
                None => None,
            }),
    {
        match self.local(name) {
            Some(l) => match l.loc {
                LocalLocation::Stack(off) => Some(off),
                LocalLocation::Reg(_) => None,
            },
            None => None,
        }
    }

    /// The register of a local variable.
    #[verifier::allow_in_spec]
    pub fn reg_of(&self, name: &String) -> Option<Reg>
        returns
            (match self.local(name) {
                Some(l) => match l.loc {
                    LocalLocation::Stack(_) => None,
                    LocalLocation::Reg(r) => Some(r),
                },
                None => None,
            }),
    {
        match self.local(name) {
            Some(l) => match l.loc {
                LocalLocation::Stack(_) => None,
                LocalLocation::Reg(r) => Some(r),
            },
            None => None,
        }
    }

    /// The 16-bit register of a local variable.
    #[verifier::allow_in_spec]
    pub fn word_reg_of(&self, name: &String) -> Option<Reg>
        returns
            (match self.reg_of(name) {
                Some(r) => if r.is_byte() { None } else { Some(r) },
                None => None,
            }),
    {
        match self.reg_of(name) {
            Some(r) => if r.is_byte() { None } else { Some(r) },
            None => None,
        }
    }

    /// The type of a local variable.
    pub open spec fn spec_local_type(&self, name: &String) -> Option<&Type> {
        match self.local(name) {
            Some(l) => Some(&l.ty),
            None => None,
        }
    }

    /// The type of a local variable.
    #[verifier::when_used_as_spec(spec_local_type)]
    pub fn local_type(&self, name: &String) -> (r: Option<&Type>)
        ensures
            r == self.spec_local_type(name),
            self.wf() ==> (r matches Some(t) ==> t.fits()),
    {
        match self.local(name) {
            Some(l) => Some(&l.ty),
            None => None,
        }
    }

    /// The type of a variable, file-scope variables first.
    pub open spec fn spec_var_type(&self, name: &String) -> Option<&Type> {
        match self.global_type(name) {
            Some(t) => Some(t),
            None => self.local_type(name),
        }
    }

    /// The type of a variable, file-scope variables first.
    #[verifier::when_used_as_spec(spec_var_type)]
    pub fn var_type(&self, name: &String) -> (r: Option<&Type>)
        ensures
            r == self.spec_var_type(name),
            self.wf() ==> (r matches Some(t) ==> t.fits()),
    {
        match self.global_type(name) {
            Some(t) => Some(t),
            None => self.local_type(name),
        }
    }

    /// What a pointer variable points at.
    pub open spec fn spec_ident_pointee(&self, name: &String) -> Option<&Type> {
        match self.var_type(name) {
            Some(t) => t.pointee(),
            None => None,
        }
    }

    /// What a pointer variable points at.
    #[verifier::when_used_as_spec(spec_ident_pointee)]
    pub fn ident_pointee(&self, name: &String) -> (r: Option<&Type>)
        ensures
            r == self.spec_ident_pointee(name),
            self.wf() ==> (r matches Some(t) ==> t.fits()),
    {
        match self.var_type(name) {
            Some(t) => t.pointee(),
            None => None,
        }
    }

    /// What a local pointer variable points at.
    pub open spec fn spec_local_pointee(&self, name: &String) -> Option<&Type> {
        match self.local_type(name) {
            Some(t) => t.pointee(),
            None => None,
        }
    }

    /// What a local pointer variable points at.
    #[verifier::when_used_as_spec(spec_local_pointee)]
    pub fn local_pointee(&self, name: &String) -> (r: Option<&Type>)
        ensures
            r == self.spec_local_pointee(name),
            self.wf() ==> (r matches Some(t) ==> t.fits()),
    {
        match self.local_type(name) {
            Some(t) => t.pointee(),
            None => None,
        }
    }

    /// The element type of a local array.
    pub open spec fn spec_local_elem(&self, name: &String) -> Option<&Type> {
        match self.local_type(name) {
            Some(t) => t.array_elem(),
            None => None,
        }
    }

    /// The element type of a local array.
    #[verifier::when_used_as_spec(spec_local_elem)]
    pub fn local_elem(&self, name: &String) -> (r: Option<&Type>)
        ensures
            r == self.spec_local_elem(name),
            self.wf() ==> (r matches Some(t) ==> t.fits()),
    {
        match self.local_type(name) {
            Some(t) => t.array_elem(),
            None => None,
        }
    }

    /// The element type of a file-scope array.
    pub open spec fn spec_global_elem(&self, name: &String) -> Option<&Type> {
        match self.global_type(name) {
            Some(t) => t.array_elem(),
            None => None,
        }
    }

    /// The element type of a file-scope array.
    #[verifier::when_used_as_spec(spec_global_elem)]
    pub fn global_elem(&self, name: &String) -> (r: Option<&Type>)
        ensures
            r == self.spec_global_elem(name),
            self.wf() ==> (r matches Some(t) ==> t.fits()),
    {
        match self.global_type(name) {
            Some(t) => t.array_elem(),
            None => None,
        }
    }

    /// The element type of an array, file-scope arrays first.
    pub open spec fn spec_array_elem_of(&self, name: &String) -> Option<&Type> {
        match self.var_type(name) {
            Some(t) => t.array_elem(),
            None => None,
        }
    }

    /// The element type of an array, file-scope arrays first.
    #[verifier::when_used_as_spec(spec_array_elem_of)]
    pub fn array_elem_of(&self, name: &String) -> (r: Option<&Type>)
        ensures
            r == self.spec_array_elem_of(name),
            self.wf() ==> (r matches Some(t) ==> t.fits()),
    {
        match self.var_type(name) {
            Some(t) => t.array_elem(),
            None => None,
        }
    }

    /// Whether a file-scope variable is a 32-bit integer.
    #[verifier::allow_in_spec]
    pub fn is_long_global(&self, name: &String) -> bool
        returns
            (match self.global_type(name) {
                Some(t) => t.is_long_like(),
                None => false,
            }),
    {
        match self.global_type(name) {
            Some(t) => t.is_long_like(),
            None => false,
        }
    }

    /// Whether a local variable is a 32-bit integer.
    #[verifier::allow_in_spec]
    pub fn is_long_local(&self, name: &String) -> bool
        returns
            (match self.local_type(name) {
                Some(t) => t.is_long_like(),
                None => false,
            }),
    {
        match self.local_type(name) {
            Some(t) => t.is_long_like(),
            None => false,
        }
    }

    /// Whether a file-scope variable is an unsigned integer.
    #[verifier::allow_in_spec]
    pub fn is_unsigned_global(&self, name: &String) -> bool
        returns
            (match self.global_type(name) {
                Some(t) => t.is_unsigned(),
                None => false,
            }),
    {
        match self.global_type(name) {
            Some(t) => t.is_unsigned(),
            None => false,
        }
    }

    /// Whether a local variable is an unsigned integer.
    #[verifier::allow_in_spec]
    pub fn is_unsigned_local(&self, name: &String) -> bool
        returns
            (match self.local_type(name) {
                Some(t) => t.is_unsigned(),
                None => false,
            }),
    {
        match self.local_type(name) {
            Some(t) => t.is_unsigned(),
            None => false,
        }
    }

    /// Whether a local variable is a character.
    #[verifier::allow_in_spec]
    pub fn is_char_local(&self, name: &String) -> bool
        returns
            (match self.local_type(name) {
                Some(t) => t.is_char_like(),
                None => false,
            }),
    {
        match self.local_type(name) {
            Some(t) => t.is_char_like(),
            None => false,
        }
    }

    /// Whether a local variable is a 16-bit integer or pointer.
    #[verifier::allow_in_spec]
    pub fn is_int_local(&self, name: &String) -> bool
        returns
            (match self.local_type(name) {
                Some(t) => t.is_int_like(),
                None => false,
            }),
    {
        match self.local_type(name) {
            Some(t) => t.is_int_like(),
            None => false,
        }
    }

    /// The addresses of the low and the high half of a 32-bit variable;
    /// `None` for a variable in a register.
    #[verifier::allow_in_spec]
    pub fn long_halves_of<'b>(&self, name: &'b String) -> Option<(Addr<'b>, Addr<'b>)>
        returns
            (if self.is_global(name) {
                Some((global(name), global2(name)))
            } else {
                match self.stack_of(name) {
                    Some(off) => Some((bp(off), bp2(off))),
                    None => None,
                }
            }),
    {
        if self.is_global(name) {
            Some((global(name), global2(name)))
        } else {
            match self.stack_of(name) {
                Some(off) => Some((bp(off), bp2(off))),
                None => None,
            }
        }
    }

    /// The address at a distance from a variable in memory.
    #[verifier::allow_in_spec]
    pub fn resolve_chain_addr<'b>(&self, name: &'b String, off: i32) -> Option<Addr<'b>>
        returns
            (if self.is_global(name) {
                Some(global_at(name, disp(off)))
            } else {
                match self.stack_of(name) {
                    Some(base) => Some(Addr::Bp((base as i64 + off as i64) as i64)),
                    None => None,
                }
            }),
    {
        if self.is_global(name) {
            Some(global_at(name, disp(off)))
        } else {
            match self.stack_of(name) {
                Some(base) => Some(Addr::Bp((base as i64 + off as i64) as i64)),
                None => None,
            }
        }
    }

    /// The address of a variable in memory.
    #[verifier::allow_in_spec]
    pub fn memory_of<'b>(&self, name: &'b String) -> Option<Addr<'b>>
        returns
            (if self.is_global(name) {
                Some(global(name))
            } else {
                match self.stack_of(name) {
                    Some(off) => Some(bp(off)),
                    None => None,
                }
            }),
    {
        if self.is_global(name) {
            Some(global(name))
        } else {
            match self.stack_of(name) {
                Some(off) => Some(bp(off)),
                None => None,
            }
        }
    }
}

/// Whether a type is `int` or `unsigned int`.
#[verifier::allow_in_spec]
pub fn is_plain_int(t: &Type) -> bool
    returns
        (match t {
            Type::Int | Type::UInt => true,
            _ => false,
        }),
{
    match t {
        Type::Int | Type::UInt => true,
        _ => false,
    }
}

/// Whether a type is `int` or `char`, which widen with their sign.
#[verifier::allow_in_spec]
pub fn widens_signed(t: &Type) -> bool
    returns
        (match t {
            Type::Int | Type::Char => true,
            _ => false,
        }),
{
    match t {
        Type::Int | Type::Char => true,
        _ => false,
    }
}

/// Whether a type is `unsigned int` or `unsigned char`.
#[verifier::allow_in_spec]
pub fn widens_unsigned(t: &Type) -> bool
    returns
        (match t {
            Type::UInt | Type::UChar => true,
            _ => false,
        }),
{
    match t {
        Type::UInt | Type::UChar => true,
        _ => false,
    }
}

/// Whether a type is a character or a plain integer.
#[verifier::allow_in_spec]
pub fn is_small_int(t: &Type) -> bool
    returns
        (match t {
            Type::Int | Type::UInt | Type::Char | Type::UChar => true,
            _ => false,
        }),
{
    match t {
        Type::Int | Type::UInt | Type::Char | Type::UChar => true,
        _ => false,
    }
}

/// The byte offset and the leaf type that constant subscripts from position
/// `from` on select in an array type; `None` if one of them is not constant
/// or subscripts something that is no array.
pub open spec fn const_offset<'a>(
    env: &'a Env,
    ty: &'a Type,
    indices: Seq<&'a Expr>,
    from: int,
) -> Option<(i32, &'a Type)>
    decreases indices.len() - from,
{
    if from < 0 || from >= indices.len() {
        Some((0i32, ty))
    } else {
        match (env.const_of(indices[from]), ty.array_elem()) {
            (Some(k), Some(elem)) => match const_offset(env, elem, indices, from + 1) {
                Some((rest, leaf)) => Some((crate::isa::signed32(k * elem.size() + rest) as i32, leaf)),
                None => None,
            },
            _ => None,
        }
    }
}

/// The subscripts from position `from` on, with the offset they select.
fn const_array_offset_from<'a>(
    env: &'a Env,
    ty: &'a Type,
    indices: &Vec<&'a Expr>,
    from: usize,
) -> (r: Option<(i32, &'a Type)>)
    requires
        ty.fits(),
        from <= indices.len(),
    ensures
        r == const_offset(env, ty, indices@, from as int),
        r matches Some((_, t)) ==> t.fits(),
    decreases indices.len() - from,
{
    if from >= indices.len() {
        return Some((0, ty));
    }
    let Some(k) = env.const_of(indices[from]) else { return None; };
    let Some(elem) = ty.array_elem() else { return None; };
    let Some((rest, leaf)) = const_array_offset_from(env, elem, indices, from + 1) else {
        return None;
    };
    let size: u16 = elem.size_bytes();
    let here: i32 = scaled(k, size);
    let total: i64 = here as i64 + rest as i64;
    let sum: i32 = if total > 0x7FFF_FFFF {
        (total - 0x1_0000_0000) as i32
    } else if total < -0x8000_0000 {
        (total + 0x1_0000_0000) as i32
    } else {
        total as i32
    };
    proof {
        lemma_signed32(k * size, rest as int);
    }
    Some((sum, leaf))
}

/// Cutting to 32 bits before or after an addition makes no difference.
proof fn lemma_signed32(x: int, y: int)
    requires
        -0x8000_0000 <= y < 0x8000_0000,
    ensures
        crate::isa::signed32(x + y) == crate::isa::signed32(crate::isa::signed32(x) + y),
        -0x8000_0000 <= crate::isa::signed32(x) < 0x8000_0000,
        ({
            let total = crate::isa::signed32(x) + y;
            crate::isa::signed32(total) == (if total > 0x7FFF_FFFF {
                total - 0x1_0000_0000
            } else if total < -0x8000_0000 {
                total + 0x1_0000_0000
            } else {
                total
            })
        }),
{
}

impl Env {
    /// The byte offset and the leaf type that constant subscripts select in
    /// an array type.
    pub open spec fn spec_const_array_offset<'a>(
        &'a self,
        ty: &'a Type,
        indices: Seq<&'a Expr>,
    ) -> Option<(i32, &'a Type)> {
        const_offset(self, ty, indices, 0)
    }

    /// The byte offset and the leaf type that constant subscripts select in
    /// an array type.
    pub fn const_array_offset<'a>(&'a self, ty: &'a Type, indices: &Vec<&'a Expr>) -> (r: Option<
        (i32, &'a Type),
    >)
        requires
            ty.fits(),
        ensures
            r == self.spec_const_array_offset(ty, indices@),
            r matches Some((_, t)) ==> t.fits(),
    {
        const_array_offset_from(self, ty, indices, 0)
    }
}

/// The variable under a chain of dereferences, with their number; `None` for
/// an expression of any other shape.
pub open spec fn spec_deref_chain_root<'a>(e: &'a Expr) -> Option<(&'a String, u32)>
    decreases e,
{
    match &e.kind {
        ExprKind::Ident(name) => Some((name, 0u32)),
        ExprKind::Deref(inner) => match spec_deref_chain_root(&**inner) {
            Some((name, depth)) => if depth < 0xFFFF_FFFF {
                Some((name, (depth + 1) as u32))
            } else {
                None
            },
            None => None,
        },
        _ => None,
    }
}

/// The variable under a chain of dereferences, with their number.
#[verifier::when_used_as_spec(spec_deref_chain_root)]
pub fn deref_chain_root<'a>(e: &'a Expr) -> (r: Option<(&'a String, u32)>)
    ensures
        r == spec_deref_chain_root(e),
    decreases e,
{
    match &e.kind {
        ExprKind::Ident(name) => Some((name, 0u32)),
        ExprKind::Deref(inner) => match deref_chain_root(&**inner) {
            Some((name, depth)) => if depth < 0xFFFF_FFFF {
                Some((name, depth + 1))
            } else {
                None
            },
            None => None,
        },
        _ => None,
    }
}

/// The type behind `n` pointers.
pub open spec fn spec_behind<'a>(ty: &'a Type, n: u32) -> Option<&'a Type>
    decreases n,
{
    if n == 0 {
        Some(ty)
    } else {
        match ty.pointee() {
            Some(t) => spec_behind(t, (n - 1) as u32),
            None => None,
        }
    }
}

/// The type behind `n` pointers.
#[verifier::when_used_as_spec(spec_behind)]
pub fn behind<'a>(ty: &'a Type, n: u32) -> (r: Option<&'a Type>)
    ensures
        r == spec_behind(ty, n),
    decreases n,
{
    if n == 0 {
        Some(ty)
    } else {
        match ty.pointee() {
            Some(t) => behind(t, n - 1),
            None => None,
        }
    }
}

/// What dereferencing a variable `depth + 1` times arrives at.
#[verifier::allow_in_spec]
pub fn chain_type<'a>(env: &'a Env, name: &String, depth: u32) -> Option<&'a Type>
    returns
        (match env.ident_pointee(name) {
            Some(t) => behind(t, depth),
            None => None,
        }),
{
    match env.ident_pointee(name) {
        Some(t) => behind(t, depth),
        None => None,
    }
}

} // verus!
