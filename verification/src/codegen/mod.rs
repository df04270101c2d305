//! The code generator.
//!
//! Each `plan_` function says what is emitted for a piece of syntax; the
//! methods of the emitter append exactly that.

pub mod array_addr;
pub mod array_assign;
pub mod array_compound;
pub mod array_index;
pub mod assign_global;
pub mod assign_local;
pub mod bitfields;
pub mod classify;
pub mod common;
pub mod compound_global;
pub mod compound_local;
pub mod compound_long;
pub mod conditions;
pub mod deref_read;
pub mod deref_write;
pub mod emitter;
pub mod env;
pub mod store_reg;
