# bcc

Part of a C compiler for the 8086: the syntax tree, the command line, and the
code generator for assignments, conditions, arrays, pointers and bitfields.

- `src/ast.rs` - the syntax tree, with the sizes and layouts of types.
- `src/cli.rs` - the command line.
- `src/isa.rs` - registers, instructions, addresses and operands.
- `src/render.rs` - the text of instructions.
- `src/codegen/` - the code generator. A `plan_` function says which steps are
  emitted for a piece of syntax, and the methods of `FunctionEmitter` append
  exactly those. What other parts of a compiler find out about an expression
  comes in as `Facts`; what other parts emit stays a step of its own.
- `src/machine.rs` - a model of the 8086 that gives the steps a meaning.
- `src/laws/` - what holds of the library as a whole.
- `tests/` - the same on concrete values, with a small interpreter.
- `app/` - the command line with paths and displayable errors.

## What is proved of the emitted code

Which steps are emitted is proved for every piece of syntax that the generator
takes. That those steps, executed by the model, do what the C source asks for
is proved for the shapes below, and for no others.

- Constants assigned to characters, integers and 32-bit integers; 32-bit
  integers assigned from one another, from one operator on two of them, from
  smaller integers, from elements and through pointers.
- `op=` with `+ - & | ^` and a constant on characters, integers and 32-bit
  integers, and with a variable or a computed value where the law says so;
  products, quotients, remainders and shifts of integers, and of 32-bit
  integers as far as the run-time routines do what their names say.
- Conditions on integers and 32-bit integers, joined, negated or constant, and
  choices between constants.
- The addresses of elements: on the stack for a variable, a sum, a call or any
  other computed subscript and every element size; at file scope for integer
  and character variables and computed subscripts; in two dimensions, on the
  stack and at file scope, for two variables; behind a local near pointer for
  a variable and every element size.
- Elements of characters, words and 32-bit integers with constant subscripts,
  read, written with a constant and combined with a constant by `+ - & | ^`.
- Elements with other subscripts: characters and words on the stack, read and
  written with a constant; 32-bit integers on the stack and, for a local
  subscript, at file scope, written with a constant; at file scope words, read
  and combined with a constant, and characters, read and written with a
  constant for a subscript in memory.
- Elements of two dimensions at file scope with two variables, read, written
  with a constant, a computed value or, for 32-bit integers, a variable.
- Elements behind a local near pointer with a variable subscript, written with
  a constant, a computed value or a variable.
- Local near pointers to integers and characters, read, written with a
  constant and, in a register, combined with a constant.
- Bitfields, blocks of memory that are copied, and pointers that step.

A step that another part of a compiler expands does in the laws what their
hypotheses say of it. Far pointers, floating point and code through another
segment are outside the model.
