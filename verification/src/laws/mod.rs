//! What holds of the library as a whole.

pub mod address;
pub mod assign;
pub mod bitfield;
pub mod branch;
pub mod byte;
pub mod char_element;
pub mod character;
pub mod choice;
pub mod command;
pub mod compare;
pub mod compound;
pub mod condition;
pub mod copy;
pub mod element;
pub mod flow;
pub mod index;
pub mod integer;
pub mod line;
pub mod local;
pub mod long;
pub mod long_element;
pub mod mixed;
pub mod place;
pub mod pointed;
pub mod pointer_element;
pub mod register;
pub mod routine;
pub mod rows;
pub mod steps;
pub mod store;
pub mod stored;
pub mod subscript;
pub mod syntax;
pub mod target;
pub mod text;
pub mod variable;
pub mod wide;
pub mod word;
