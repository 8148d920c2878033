//! A virtual machine for stack-based bytecode that runs both arms of every
//! conditional and merges their effects by selection, together with the
//! pieces of the language front end that feed it.

pub mod instructions;
pub mod lexical;
pub mod number;
pub mod primitive;
pub mod semantic;
pub mod syntax;
pub mod text;
pub mod vm;
