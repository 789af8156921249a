//! The structure of a module as plain data: functions hold blocks, blocks
//! hold instructions, and every node carries the handle under which the
//! IR library knows it.

use vstd::prelude::*;

verus! {

/// Identity of a structural value: its kind and its handle. Two values are
/// the same value exactly when both agree; names play no part, so two
/// blocks of the same name in different functions are different values.
#[derive(Clone, Copy, Debug, PartialEq, Eq, Hash, Structural)]
pub enum ValueId {
    /// A value that is neither an instruction, a block nor a function
    /// (a constant, an argument, a global).
    Basic(u64),
    Instruction(u64),
    BasicBlock(u64),
    Function(u64),
}

/// A value that is neither an instruction, a block nor a function.
#[derive(Clone, Debug, PartialEq, Eq)]
pub struct BasicValue {
    pub handle: u64,
    /// The consumers of this value, in use-chain order.
    pub uses: Vec<ValueId>,
}

/// One instruction of a block.
#[derive(Clone, Debug, PartialEq, Eq)]
pub struct Instruction {
    pub handle: u64,
    /// The display name; empty for an instruction without one.
    pub name: String,
    /// The operands, in operand order.
    pub operands: Vec<ValueId>,
    /// The consumers of the instruction's result, in use-chain order.
    pub uses: Vec<ValueId>,
}

/// One basic block of a function.
#[derive(Clone, Debug, PartialEq, Eq)]
pub struct BasicBlock {
    pub handle: u64,
    pub name: String,
    /// The instructions, in the order in which the text shows them.
    pub instructions: Vec<Instruction>,
    /// The consumers of the block as a branch target, in use-chain order.
    pub uses: Vec<ValueId>,
}

/// One function of a module. A function that is only declared has no
/// blocks.
#[derive(Clone, Debug, PartialEq, Eq)]
pub struct Function {
    pub handle: u64,
    pub name: String,
    /// The blocks, in the order in which the text shows them.
    pub blocks: Vec<BasicBlock>,
}

/// The structure of a whole module.
#[derive(Clone, Debug, PartialEq, Eq)]
pub struct Module {
    pub functions: Vec<Function>,
}

/// Any structural value, as a query names it.
#[derive(Clone, Copy, Debug)]
pub enum Value<'a> {
    Basic(&'a BasicValue),
    Instruction(&'a Instruction),
    BasicBlock(&'a BasicBlock),
    Function(&'a Function),
}

impl<'a> Value<'a> {
    /// The identity of the value: its kind and the handle of what it
    /// refers to.
    pub open spec fn spec_id(self) -> ValueId {
        match self {
            Value::Basic(v) => ValueId::Basic(v.handle),
            Value::Instruction(v) => ValueId::Instruction(v.handle),
            Value::BasicBlock(v) => ValueId::BasicBlock(v.handle),
            Value::Function(v) => ValueId::Function(v.handle),
        }
    }

    /// The use chain of the value; a function has none that can be walked.
    pub open spec fn spec_uses(self) -> Option<Seq<ValueId>> {
        match self {
            Value::Basic(v) => Some(v.uses@),
            Value::Instruction(v) => Some(v.uses@),
            Value::BasicBlock(v) => Some(v.uses@),
            Value::Function(_) => None,
        }
    }

    /// The identity of the value.
    #[verifier::when_used_as_spec(spec_id)]
    pub fn id(self) -> (id: ValueId)
        ensures
            id == self.spec_id(),
    {
        match self {
            Value::Basic(v) => ValueId::Basic(v.handle),
            Value::Instruction(v) => ValueId::Instruction(v.handle),
            Value::BasicBlock(v) => ValueId::BasicBlock(v.handle),
            Value::Function(v) => ValueId::Function(v.handle),
        }
    }

    /// The consumers of the value in use-chain order, or `None` for a
    /// function.
    pub fn uses(self) -> (uses: Option<&'a Vec<ValueId>>)
        ensures
            match uses {
                Some(chain) => self.spec_uses() == Some(chain@),
                None => self.spec_uses() is None,
            },
    {
        match self {
            Value::Basic(v) => Some(&v.uses),
            Value::Instruction(v) => Some(&v.uses),
            Value::BasicBlock(v) => Some(&v.uses),
            Value::Function(_) => None,
        }
    }
}

} // verus!
