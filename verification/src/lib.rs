//! Line index over a compiler IR module that is held both as text and as a
//! graph of functions, basic blocks and instructions.
//!
//! [`indexer::build_index`] walks the lines of the text and the structure of
//! the module side by side and records, for every function, block and
//! instruction it meets, the line that shows it. [`resolve::definitions_of`]
//! and [`resolve::uses_of`] then answer operand and use queries in line
//! numbers.
//!
//! The structure is taken as plain data ([`structure`]): whoever holds the
//! module in an IR library copies names, operands and use chains out of it,
//! with the library's handles as identities. What is proved of an index and
//! of the queries stands in [`laws`].

pub mod classify;
pub mod error;
pub mod index;
pub mod indexer;
pub mod laws;
pub mod pattern;
pub mod resolve;
pub mod structure;
pub mod text;

pub use classify::{classify, LineKind};
pub use error::{IndexError, ResolveError};
pub use index::Index;
pub use indexer::build_index;
pub use resolve::{definitions_of, uses_of};
pub use structure::{BasicBlock, BasicValue, Function, Instruction, Module, Value, ValueId};
pub use text::TextData;
