//! The walk that builds the index: the lines of the text are taken in order,
//! and a cursor moves through the structure of the module in step with them.
//!
//! Inside a block body a line stands for the next instruction of the block,
//! whatever it says. Outside, a block header is matched by name among the
//! blocks of the function entered last, a function header is matched by name
//! among the functions of the module, and any other line is passed over.

use crate::classify::{classify, classify_spec, name_view, LineKind, LineKindView};
use crate::error::IndexError;
use crate::index::Index;
use crate::laws::{lemma_indexed_values_were_visited, lemma_names_agree};
use crate::structure::{BasicBlock, Function, Module, ValueId};
use crate::text::{TextData, TextRecord};
use vstd::prelude::*;

verus! {

/// Where the walk stands in the structure of the module.
#[derive(Clone, Copy, Debug, PartialEq, Eq)]
pub struct Cursor {
    /// The function entered last, by its position in the module.
    pub function: Option<usize>,
    /// The instruction that the next line shows, by the position of its
    /// block in the function and its own position in the block. `None`
    /// outside a block body.
    pub pending: Option<(usize, usize)>,
}

/// The state of a walk: the cursor and what has been recorded so far.
pub ghost struct WalkState {
    pub cursor: Cursor,
    pub index: Map<ValueId, TextRecord>,
}

/// Whether the cursor points into `module`.
pub open spec fn cursor_fits(cursor: Cursor, module: Module) -> bool {
    &&& cursor.function matches Some(f) ==> f < module.functions.len()
    &&& cursor.pending matches Some((b, i)) ==> {
        &&& cursor.function matches Some(f)
        &&& b < module.functions[f as int].blocks.len()
        &&& i < module.functions[f as int].blocks[b as int].instructions.len()
    }
}

/// The state before the first line.
pub open spec fn initial_state() -> WalkState {
    WalkState {
        cursor: Cursor { function: None, pending: None },
        index: Map::<ValueId, TextRecord>::empty(),
    }
}

/// The position of the first of `names` that equals `name`.
pub open spec fn first_named(names: Seq<Seq<char>>, name: Seq<char>) -> Option<int> {
    names.index_of_first(name)
}

/// The names of the functions of `module`, in order.
pub open spec fn function_names(module: Module) -> Seq<Seq<char>> {
    module.functions@.map_values(|function: Function| function.name@)
}

/// The names of the blocks of `function`, in order.
pub open spec fn block_names(function: Function) -> Seq<Seq<char>> {
    function.blocks@.map_values(|block: BasicBlock| block.name@)
}

/// The blocks among which a block header is looked up: those of the
/// function entered last, none before the first function.
pub open spec fn current_block_names(module: Module, cursor: Cursor) -> Seq<Seq<char>> {
    match cursor.function {
        Some(f) => block_names(module.functions[f as int]),
        None => Seq::empty(),
    }
}

/// The step for a line inside a block body: the pending instruction is
/// recorded under its display name, and the cursor moves to the next
/// instruction of the block, or out of the body after the last.
pub open spec fn record_instruction_spec(
    module: Module,
    state: WalkState,
    line_number: nat,
) -> WalkState {
    let f = state.cursor.function->0;
    let (b, i) = state.cursor.pending->0;
    let block = module.functions[f as int].blocks[b as int];
    let instruction = block.instructions[i as int];
    WalkState {
        cursor: Cursor {
            function: state.cursor.function,
            pending: if i + 1 < block.instructions.len() {
                Some((b, (i + 1) as usize))
            } else {
                None
            },
        },
        index: state.index.insert(
            ValueId::Instruction(instruction.handle),
            TextRecord { line: line_number, name: instruction.name@ },
        ),
    }
}

/// The step for a block header: the first block of the current function
/// with that name is recorded, and its first instruction, if it has one,
/// becomes pending.
pub open spec fn record_block_spec(
    module: Module,
    state: WalkState,
    line_number: nat,
    name: Option<Seq<char>>,
) -> Result<WalkState, IndexError> {
    match name {
        Some(name) => match first_named(current_block_names(module, state.cursor), name) {
            Some(b) => {
                let block = module.functions[state.cursor.function->0 as int].blocks[b];
                Ok(
                    WalkState {
                        cursor: Cursor {
                            function: state.cursor.function,
                            pending: if block.instructions.len() > 0 {
                                Some((b as usize, 0usize))
                            } else {
                                None
                            },
                        },
                        index: state.index.insert(
                            ValueId::BasicBlock(block.handle),
                            TextRecord { line: line_number, name },
                        ),
                    },
                )
            },
            None => Err(IndexError::UnresolvedBlockName),
        },
        None => Err(IndexError::UnresolvedBlockName),
    }
}

/// The step for a function header: the first function of the module with
/// that name is recorded and becomes the current function.
pub open spec fn record_function_spec(
    module: Module,
    state: WalkState,
    line_number: nat,
    name: Option<Seq<char>>,
) -> Result<WalkState, IndexError> {
    match name {
        Some(name) => match first_named(function_names(module), name) {
            Some(f) => Ok(
                WalkState {
                    cursor: Cursor { function: Some(f as usize), pending: None },
                    index: state.index.insert(
                        ValueId::Function(module.functions[f].handle),
                        TextRecord { line: line_number, name },
                    ),
                },
            ),
            None => Err(IndexError::UnresolvedFunctionName),
        },
        None => Err(IndexError::UnresolvedFunctionName),
    }
}

/// The step for one line.
pub open spec fn step_spec(
    module: Module,
    state: WalkState,
    line_number: nat,
    line: Seq<char>,
) -> Result<WalkState, IndexError> {
    if state.cursor.pending is Some {
        Ok(record_instruction_spec(module, state, line_number))
    } else {
        match classify_spec(line) {
            LineKindView::Block(name) => record_block_spec(module, state, line_number, name),
            LineKindView::Function(name) => record_function_spec(
                module,
                state,
                line_number,
                name,
            ),
            LineKindView::Plain => Ok(state),
        }
    }
}

/// The state after the first `count` lines, or the failure of the first
/// line that could not be matched.
pub open spec fn run_spec(module: Module, lines: Seq<Seq<char>>, count: nat) -> Result<
    WalkState,
    IndexError,
>
    decreases count,
{
    if count == 0 {
        Ok(initial_state())
    } else {
        match run_spec(module, lines, (count - 1) as nat) {
            Ok(state) => step_spec(module, state, count, lines[count - 1]),
            Err(error) => Err(error),
        }
    }
}

/// The index of `lines` over `module`: what the walk has recorded after the
/// last line. A failure on any line is the failure of the whole.
pub open spec fn build_spec(module: Module, lines: Seq<Seq<char>>) -> Result<
    Map<ValueId, TextRecord>,
    IndexError,
> {
    match run_spec(module, lines, lines.len()) {
        Ok(state) => Ok(state.index),
        Err(error) => Err(error),
    }
}

/// The texts of the lines handed to [`build_index`].
pub open spec fn line_texts(lines: Seq<String>) -> Seq<Seq<char>> {
    lines.map_values(|line: String| line@)
}

/// A failure is final: once a line has failed, every longer run fails alike.
pub proof fn lemma_failure_is_final(
    module: Module,
    lines: Seq<Seq<char>>,
    failed: nat,
    count: nat,
)
    requires
        run_spec(module, lines, failed) is Err,
        failed <= count,
    ensures
        run_spec(module, lines, count) == run_spec(module, lines, failed),
    decreases count,
{
    if failed < count {
        lemma_failure_is_final(module, lines, failed, (count - 1) as nat);
    }
}

/// The position of the first function of `module` named `name`.
pub fn find_function(module: &Module, name: &String) -> (found: Option<usize>)
    ensures
        match found {
            Some(f) => first_named(function_names(*module), name@) == Some(f as int),
            None => first_named(function_names(*module), name@) is None,
        },
        found matches Some(f) ==> f < module.functions.len(),
{
    let ghost names = function_names(*module);
    let mut i: usize = 0;
    while i < module.functions.len()
        invariant
            names == function_names(*module),
            0 <= i <= module.functions.len(),
            forall|j: int| 0 <= j < i ==> #[trigger] names[j] != name@,
        decreases module.functions.len() - i,
    {
        if module.functions[i].name == *name {
            proof {
                lemma_first_named(names, name@, i as int);
            }
            return Some(i);
        }
        i += 1;
    }
    proof {
        lemma_not_named(names, name@);
    }
    None
}

/// The position of the first block of `function` named `name`.
pub fn find_block(function: &Function, name: &String) -> (found: Option<usize>)
    ensures
        match found {
            Some(b) => first_named(block_names(*function), name@) == Some(b as int),
            None => first_named(block_names(*function), name@) is None,
        },
        found matches Some(b) ==> b < function.blocks.len(),
{
    let ghost names = block_names(*function);
    let mut i: usize = 0;
    while i < function.blocks.len()
        invariant
            names == block_names(*function),
            0 <= i <= function.blocks.len(),
            forall|j: int| 0 <= j < i ==> #[trigger] names[j] != name@,
        decreases function.blocks.len() - i,
    {
        if function.blocks[i].name == *name {
            proof {
                lemma_first_named(names, name@, i as int);
            }
            return Some(i);
        }
        i += 1;
    }
    proof {
        lemma_not_named(names, name@);
    }
    None
}

/// The first position that holds `name` is the one that no equal name
/// comes before.
proof fn lemma_first_named(names: Seq<Seq<char>>, name: Seq<char>, i: int)
    requires
        0 <= i < names.len(),
        names[i] == name,
        forall|j: int| 0 <= j < i ==> #[trigger] names[j] != name,
    ensures
        first_named(names, name) == Some(i),
{
    names.index_of_first_ensures(name);
    assert(names.contains(name));
}

/// No position holds a name that is not among the names.
proof fn lemma_not_named(names: Seq<Seq<char>>, name: Seq<char>)
    requires
        forall|j: int| 0 <= j < names.len() ==> #[trigger] names[j] != name,
    ensures
        first_named(names, name) is None,
{
    names.index_of_first_ensures(name);
}

/// A walk in progress over one module.
pub struct Walk<'m> {
    module: &'m Module,
    cursor: Cursor,
    index: Index,
}

/// The outcome of a step as contracts see it.
pub open spec fn walk_view(outcome: Result<Walk<'_>, IndexError>) -> Result<WalkState, IndexError> {
    match outcome {
        Ok(walk) => Ok(walk.state()),
        Err(error) => Err(error),
    }
}

/// The outcome of [`build_index`] as contracts see it.
pub open spec fn index_view(outcome: Result<Index, IndexError>) -> Result<
    Map<ValueId, TextRecord>,
    IndexError,
> {
    match outcome {
        Ok(index) => Ok(index@),
        Err(error) => Err(error),
    }
}

impl<'m> Walk<'m> {
    #[verifier::type_invariant]
    spec fn fits(self) -> bool {
        cursor_fits(self.cursor, *self.module)
    }

    /// The module that is walked.
    pub closed spec fn module(self) -> Module {
        *self.module
    }

    /// The cursor and the records so far.
    pub closed spec fn state(self) -> WalkState {
        WalkState { cursor: self.cursor, index: self.index@ }
    }

    /// A walk that has seen no line yet.
    pub fn new(module: &'m Module) -> (walk: Walk<'m>)
        ensures
            walk.module() == *module,
            walk.state() == initial_state(),
    {
        Walk { module, cursor: Cursor { function: None, pending: None }, index: Index::new() }
    }

    /// Whether the walk is inside a block body, so that the next line
    /// stands for an instruction.
    pub fn awaiting_instruction(&self) -> (awaiting: bool)
        ensures
            awaiting == self.state().cursor.pending is Some,
    {
        self.cursor.pending.is_some()
    }

    /// Takes the line numbered `line_number` as the pending instruction.
    pub fn record_instruction(self, line_number: usize) -> (next: Walk<'m>)
        requires
            self.state().cursor.pending is Some,
        ensures
            next.module() == self.module(),
            next.state() == record_instruction_spec(
                self.module(),
                self.state(),
                line_number as nat,
            ),
    {
        proof {
            use_type_invariant(&self);
        }
        let Walk { module, cursor, mut index } = self;
        let f = cursor.function.unwrap();
        let (b, i) = cursor.pending.unwrap();
        let block = &module.functions[f].blocks[b];
        let instruction = &block.instructions[i];
        index.insert(
            ValueId::Instruction(instruction.handle),
            TextData { line_number, name: instruction.name.clone() },
        );
        let pending = if i + 1 < block.instructions.len() {
            Some((b, i + 1))
        } else {
            None
        };
        Walk { module, cursor: Cursor { function: cursor.function, pending }, index }
    }

    /// Takes the line numbered `line_number` as the header of the block
    /// named `name`.
    pub fn record_block(self, line_number: usize, name: Option<&str>) -> (next: Result<
        Walk<'m>,
        IndexError,
    >)
        ensures
            next matches Ok(walk) ==> walk.module() == self.module(),
            walk_view(next) == record_block_spec(
                self.module(),
                self.state(),
                line_number as nat,
                name_view(name),
            ),
    {
        proof {
            use_type_invariant(&self);
        }
        let Walk { module, cursor, mut index } = self;
        let name = match name {
            Some(name) => name.to_owned(),
            None => {
                return Err(IndexError::UnresolvedBlockName);
            },
        };
        let f = match cursor.function {
            Some(f) => f,
            None => {
                proof {
                    lemma_not_named(Seq::<Seq<char>>::empty(), name@);
                }
                return Err(IndexError::UnresolvedBlockName);
            },
        };
        let function = &module.functions[f];
        let b = match find_block(function, &name) {
            Some(b) => b,
            None => {
                return Err(IndexError::UnresolvedBlockName);
            },
        };
        let block = &function.blocks[b];
        index.insert(ValueId::BasicBlock(block.handle), TextData { line_number, name });
        let pending = if block.instructions.len() > 0 {
            Some((b, 0))
        } else {
            None
        };
        Ok(Walk { module, cursor: Cursor { function: cursor.function, pending }, index })
    }

    /// Takes the line numbered `line_number` as the header of the function
    /// named `name`.
    pub fn record_function(self, line_number: usize, name: Option<&str>) -> (next: Result<
        Walk<'m>,
        IndexError,
    >)
        ensures
            next matches Ok(walk) ==> walk.module() == self.module(),
            walk_view(next) == record_function_spec(
                self.module(),
                self.state(),
                line_number as nat,
                name_view(name),
            ),
    {
        let Walk { module, cursor, mut index } = self;
        let name = match name {
            Some(name) => name.to_owned(),
            None => {
                return Err(IndexError::UnresolvedFunctionName);
            },
        };
        let f = match find_function(module, &name) {
            Some(f) => f,
            None => {
                return Err(IndexError::UnresolvedFunctionName);
            },
        };
        index.insert(
            ValueId::Function(module.functions[f].handle),
            TextData { line_number, name },
        );
        Ok(Walk { module, cursor: Cursor { function: Some(f), pending: None }, index })
    }

    /// Takes one line of the text.
    pub fn step(self, line_number: usize, line: &str) -> (next: Result<Walk<'m>, IndexError>)
        ensures
            next matches Ok(walk) ==> walk.module() == self.module(),
            walk_view(next) == step_spec(
                self.module(),
                self.state(),
                line_number as nat,
                line@,
            ),
    {
        if self.awaiting_instruction() {
            Ok(self.record_instruction(line_number))
        } else {
            match classify(line) {
                LineKind::Block(name) => self.record_block(line_number, name),
                LineKind::Function(name) => self.record_function(line_number, name),
                LineKind::Plain => Ok(self),
            }
        }
    }

    /// Ends the walk and hands out what it has recorded.
    pub fn finish(self) -> (index: Index)
        ensures
            index@ == self.state().index,
    {
        self.index
    }
}

/// Builds the index of `lines` over `module`. Lines are numbered from 1.
/// The run is all or nothing: the first header that names nothing in the
/// structure ends it with that failure.
///
/// Every record of the index carries the number of one of the lines, and
/// only functions, blocks and instructions are recorded.
pub fn build_index(lines: &Vec<String>, module: &Module) -> (built: Result<Index, IndexError>)
    ensures
        index_view(built) == build_spec(*module, line_texts(lines@)),
        built matches Ok(index) ==> forall|id: ValueId| #[trigger]
            index@.contains_key(id) ==> id !is Basic && 1 <= index@[id].line <= lines.len(),
{
    let ghost texts = line_texts(lines@);
    let mut walk = Walk::new(module);
    let mut i: usize = 0;
    while i < lines.len()
        invariant
            texts == line_texts(lines@),
            0 <= i <= lines.len(),
            walk.module() == *module,
            run_spec(*module, texts, i as nat) == Ok::<WalkState, IndexError>(walk.state()),
        decreases lines.len() - i,
    {
        match walk.step(i + 1, lines[i].as_str()) {
            Ok(next) => {
                walk = next;
            },
            Err(error) => {
                proof {
                    lemma_failure_is_final(*module, texts, (i + 1) as nat, texts.len());
                }
                return Err(error);
            },
        }
        i += 1;
    }
    let index = walk.finish();
    proof {
        assert forall|id: ValueId| #[trigger] index@.contains_key(id) implies id !is Basic && 1
            <= index@[id].line <= lines.len() by {
            lemma_names_agree(*module, texts, id);
            lemma_indexed_values_were_visited(*module, texts, id);
        }
    }
    Ok(index)
}

} // verus!
