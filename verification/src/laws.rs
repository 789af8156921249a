//! What holds of every index that a walk builds, and of the queries
//! answered from it.

use crate::classify::{classify_spec, LineKindView};
use crate::error::IndexError;
use crate::indexer::{
    block_names, build_spec, current_block_names, cursor_fits, first_named, function_names,
    run_spec, step_spec, Cursor, WalkState,
};
use crate::resolve::{
    chain_lines, consumer_line, definitions_spec, is_resolvable, lemma_no_failure, uses_spec,
};
use crate::structure::{Instruction, Module, Value, ValueId};
use crate::text::TextRecord;
use vstd::prelude::*;

verus! {

/// The identity and the name that a line records when the walk meets it in
/// `state`; `None` for a line that records nothing.
pub open spec fn recorded_by(module: Module, state: WalkState, line: Seq<char>) -> Option<
    (ValueId, Seq<char>),
> {
    if state.cursor.pending is Some {
        let f = state.cursor.function->0;
        let (b, i) = state.cursor.pending->0;
        let instruction = module.functions[f as int].blocks[b as int].instructions[i as int];
        Some((ValueId::Instruction(instruction.handle), instruction.name@))
    } else {
        match classify_spec(line) {
            LineKindView::Block(Some(name)) => match first_named(
                current_block_names(module, state.cursor),
                name,
            ) {
                Some(b) => Some(
                    (
                        ValueId::BasicBlock(
                            module.functions[state.cursor.function->0 as int].blocks[b].handle,
                        ),
                        name,
                    ),
                ),
                None => None,
            },
            LineKindView::Function(Some(name)) => match first_named(function_names(module), name) {
                Some(f) => Some((ValueId::Function(module.functions[f].handle), name)),
                None => None,
            },
            _ => None,
        }
    }
}

/// What the line at position `i`, numbered `i + 1`, records in the run over
/// `lines`.
pub open spec fn entry_at(module: Module, lines: Seq<Seq<char>>, i: int) -> Option<
    (ValueId, Seq<char>),
> {
    match run_spec(module, lines, i as nat) {
        Ok(state) => recorded_by(module, state, lines[i]),
        Err(_) => None,
    }
}

/// Whether the line at position `i` records something under `id`.
pub open spec fn records_id(module: Module, lines: Seq<Seq<char>>, i: int, id: ValueId) -> bool {
    entry_at(module, lines, i) matches Some((recorded, _)) && recorded == id
}

/// A step that succeeds adds what the line records, under the number of the
/// line, and nothing else.
proof fn lemma_step_records(
    module: Module,
    state: WalkState,
    line_number: nat,
    line: Seq<char>,
)
    requires
        step_spec(module, state, line_number, line) is Ok,
    ensures
        step_spec(module, state, line_number, line)->Ok_0.index == match recorded_by(
            module,
            state,
            line,
        ) {
            Some((id, name)) => state.index.insert(id, (TextRecord { line: line_number, name })),
            None => state.index,
        },
{
}

/// Where a name is found first, it stands.
proof fn lemma_first_named_holds(names: Seq<Seq<char>>, name: Seq<char>)
    requires
        first_named(names, name) is Some,
    ensures
        0 <= first_named(names, name)->0 < names.len(),
        names[first_named(names, name)->0] == name,
{
    names.index_of_first_ensures(name);
}

/// The cursor of a run always points into the module.
pub proof fn lemma_cursor_fits(module: Module, lines: Seq<Seq<char>>, count: nat)
    requires
        run_spec(module, lines, count) is Ok,
    ensures
        cursor_fits(run_spec(module, lines, count)->Ok_0.cursor, module),
    decreases count,
{
    if count > 0 {
        let before = run_spec(module, lines, (count - 1) as nat);
        lemma_cursor_fits(module, lines, (count - 1) as nat);
        let state = before->Ok_0;
        if state.cursor.pending is None {
            match classify_spec(lines[count - 1]) {
                LineKindView::Block(Some(name)) => {
                    lemma_first_named_holds(current_block_names(module, state.cursor), name);
                },
                LineKindView::Function(Some(name)) => {
                    lemma_first_named_holds(function_names(module), name);
                },
                _ => {},
            }
        }
    }
}

/// Every record of a run stems from a line of the text: it carries the
/// number of a line that recorded its identity under its name, and no later
/// line has recorded that identity again.
proof fn lemma_entries_come_from_lines(
    module: Module,
    lines: Seq<Seq<char>>,
    count: nat,
    id: ValueId,
)
    requires
        run_spec(module, lines, count) is Ok,
        run_spec(module, lines, count)->Ok_0.index.contains_key(id),
    ensures
        ({
            let record = run_spec(module, lines, count)->Ok_0.index[id];
            &&& 1 <= record.line <= count
            &&& entry_at(module, lines, record.line - 1) == Some((id, record.name))
            &&& forall|j: int| record.line <= j < count ==> !records_id(module, lines, j, id)
        }),
    decreases count,
{
    if count > 0 {
        let state = run_spec(module, lines, (count - 1) as nat)->Ok_0;
        lemma_step_records(module, state, count, lines[count - 1]);
        let fresh = recorded_by(module, state, lines[count - 1]);
        if fresh matches Some((recorded, _)) && recorded == id {
        } else {
            lemma_entries_come_from_lines(module, lines, (count - 1) as nat, id);
        }
    }
}

/// What a line has recorded stays in the index, under the number of that
/// line or of a later one.
proof fn lemma_recorded_lines_stay(
    module: Module,
    lines: Seq<Seq<char>>,
    count: nat,
    i: int,
    id: ValueId,
)
    requires
        run_spec(module, lines, count) is Ok,
        0 <= i < count,
        records_id(module, lines, i, id),
    ensures
        run_spec(module, lines, count)->Ok_0.index.contains_key(id),
        run_spec(module, lines, count)->Ok_0.index[id].line >= i + 1,
    decreases count,
{
    let state = run_spec(module, lines, (count - 1) as nat)->Ok_0;
    lemma_step_records(module, state, count, lines[count - 1]);
    if i < count - 1 {
        lemma_recorded_lines_stay(module, lines, (count - 1) as nat, i, id);
    }
}

/// Line coverage: a function, block or instruction for which the text has
/// a line is in the index. Its record carries the number of the last line
/// that stands for it, so the number of that very line where no later line
/// stands for the same value, and the name read there.
pub proof fn lemma_line_coverage(
    module: Module,
    lines: Seq<Seq<char>>,
    i: int,
    id: ValueId,
    name: Seq<char>,
)
    requires
        build_spec(module, lines) is Ok,
        0 <= i < lines.len(),
        entry_at(module, lines, i) == Some((id, name)),
    ensures
        build_spec(module, lines)->Ok_0.contains_key(id),
        build_spec(module, lines)->Ok_0[id].line >= i + 1,
        (forall|j: int| i < j < lines.len() ==> !records_id(module, lines, j, id))
            ==> build_spec(module, lines)->Ok_0[id] == (TextRecord { line: (i + 1) as nat, name }),
{
    lemma_recorded_lines_stay(module, lines, lines.len(), i, id);
    lemma_entries_come_from_lines(module, lines, lines.len(), id);
    let record = build_spec(module, lines)->Ok_0[id];
    if forall|j: int| i < j < lines.len() ==> !records_id(module, lines, j, id) {
        if record.line > i + 1 {
            assert(records_id(module, lines, record.line - 1, id));
        }
    }
}

/// Only what was visited is indexed: every identity in the index was
/// recorded by the line whose number its record carries.
pub proof fn lemma_indexed_values_were_visited(
    module: Module,
    lines: Seq<Seq<char>>,
    id: ValueId,
)
    requires
        build_spec(module, lines) is Ok,
        build_spec(module, lines)->Ok_0.contains_key(id),
    ensures
        ({
            let record = build_spec(module, lines)->Ok_0[id];
            &&& 1 <= record.line <= lines.len()
            &&& entry_at(module, lines, record.line - 1) == Some((id, record.name))
        }),
{
    lemma_entries_come_from_lines(module, lines, lines.len(), id);
}

/// Within one index a line number belongs to one identity only.
pub proof fn lemma_lines_tell_values_apart(
    module: Module,
    lines: Seq<Seq<char>>,
    first: ValueId,
    second: ValueId,
)
    requires
        build_spec(module, lines) is Ok,
        build_spec(module, lines)->Ok_0.contains_key(first),
        build_spec(module, lines)->Ok_0.contains_key(second),
        build_spec(module, lines)->Ok_0[first].line == build_spec(module, lines)->Ok_0[second].line,
    ensures
        first == second,
{
    lemma_indexed_values_were_visited(module, lines, first);
    lemma_indexed_values_were_visited(module, lines, second);
}

/// A run records at most one identity for each line that it takes.
proof fn lemma_run_is_no_larger_than_its_lines(module: Module, lines: Seq<Seq<char>>, count: nat)
    requires
        run_spec(module, lines, count) is Ok,
    ensures
        run_spec(module, lines, count)->Ok_0.index.dom().finite(),
        run_spec(module, lines, count)->Ok_0.index.dom().len() <= count,
    decreases count,
{
    if count > 0 {
        let state = run_spec(module, lines, (count - 1) as nat)->Ok_0;
        lemma_run_is_no_larger_than_its_lines(module, lines, (count - 1) as nat);
        lemma_step_records(module, state, count, lines[count - 1]);
    }
}

/// An index is no larger than its text: it holds at most one record for
/// each line.
pub proof fn lemma_index_is_no_larger_than_the_text(module: Module, lines: Seq<Seq<char>>)
    requires
        build_spec(module, lines) is Ok,
    ensures
        build_spec(module, lines)->Ok_0.dom().finite(),
        build_spec(module, lines)->Ok_0.dom().len() <= lines.len(),
{
    lemma_run_is_no_larger_than_its_lines(module, lines, lines.len());
}

/// The failure that `line` meets when the walk takes it in `state`: outside
/// a block body, a block header whose name is not among the blocks of the
/// current function, or a function header whose name is not among the
/// functions of the module. A header without a readable name names nothing.
pub open spec fn header_failure(module: Module, state: WalkState, line: Seq<char>) -> Option<
    IndexError,
> {
    if state.cursor.pending is Some {
        None
    } else {
        match classify_spec(line) {
            LineKindView::Block(name) => if name is Some && first_named(
                current_block_names(module, state.cursor),
                name->0,
            ) is Some {
                None
            } else {
                Some(IndexError::UnresolvedBlockName)
            },
            LineKindView::Function(name) => if name is Some && first_named(
                function_names(module),
                name->0,
            ) is Some {
                None
            } else {
                Some(IndexError::UnresolvedFunctionName)
            },
            LineKindView::Plain => None,
        }
    }
}

/// Whether the run over `lines` reaches the line at position `i` and fails
/// on it with `error`.
pub open spec fn fails_at(module: Module, lines: Seq<Seq<char>>, i: int, error: IndexError) -> bool {
    &&& 0 <= i < lines.len()
    &&& run_spec(module, lines, i as nat) is Ok
    &&& header_failure(module, run_spec(module, lines, i as nat)->Ok_0, lines[i]) == Some(error)
}

/// A step fails exactly on a header that names nothing, and with the
/// failure of that header.
proof fn lemma_step_fails_on_unmatched_header(
    module: Module,
    state: WalkState,
    line_number: nat,
    line: Seq<char>,
)
    ensures
        match header_failure(module, state, line) {
            Some(error) => step_spec(module, state, line_number, line) == Err::<
                WalkState,
                IndexError,
            >(error),
            None => step_spec(module, state, line_number, line) is Ok,
        },
{
}

/// A run fails exactly when one of its lines fails, and then as that line
/// does.
proof fn lemma_run_fails_on_a_line(module: Module, lines: Seq<Seq<char>>, count: nat)
    requires
        count <= lines.len(),
    ensures
        match run_spec(module, lines, count) {
            Ok(_) => forall|i: int, error: IndexError|
                0 <= i < count ==> !#[trigger] fails_at(module, lines, i, error),
            Err(error) => exists|i: int| 0 <= i < count && #[trigger] fails_at(module, lines, i, error),
        },
    decreases count,
{
    if count > 0 {
        let before = (count - 1) as nat;
        lemma_run_fails_on_a_line(module, lines, before);
        match run_spec(module, lines, before) {
            Ok(state) => {
                lemma_step_fails_on_unmatched_header(module, state, count, lines[count - 1]);
                match run_spec(module, lines, count) {
                    Ok(_) => {
                        assert forall|i: int, error: IndexError| 0 <= i < count implies !#[trigger] fails_at(
                            module,
                            lines,
                            i,
                            error,
                        ) by {
                            if i < count - 1 {
                                assert(!fails_at(module, lines, i, error));
                            }
                        }
                    },
                    Err(error) => {
                        assert(fails_at(module, lines, count - 1, error));
                    },
                }
            },
            Err(error) => {
                let i = choose|i: int| 0 <= i < before && #[trigger] fails_at(module, lines, i, error);
                assert(fails_at(module, lines, i, error));
            },
        }
    }
}

/// Indexing fails exactly when the walk reaches a header that names
/// nothing, and then with the failure of that header: a block header is
/// [`IndexError::UnresolvedBlockName`], a function header
/// [`IndexError::UnresolvedFunctionName`]. No line after it is looked at.
pub proof fn lemma_failure_has_a_line(module: Module, lines: Seq<Seq<char>>)
    ensures
        match build_spec(module, lines) {
            Ok(_) => forall|i: int, error: IndexError| !#[trigger] fails_at(module, lines, i, error),
            Err(error) => exists|i: int| #[trigger] fails_at(module, lines, i, error),
        },
{
    lemma_run_fails_on_a_line(module, lines, lines.len());
}

/// Whether `module` holds a function with this handle and name.
pub open spec fn has_function(module: Module, handle: u64, name: Seq<char>) -> bool {
    exists|f: int|
        0 <= f < module.functions.len() && (#[trigger] module.functions[f]).handle == handle
            && module.functions[f].name@ == name
}

/// Whether a function of `module` holds a block with this handle and name.
pub open spec fn has_block(module: Module, handle: u64, name: Seq<char>) -> bool {
    exists|f: int, b: int|
        0 <= f < module.functions.len() && 0 <= b < module.functions[f].blocks.len() && (
        #[trigger] module.functions[f].blocks[b]).handle == handle
            && module.functions[f].blocks[b].name@ == name
}

/// Whether `instruction` stands in a block of a function of `module`.
pub open spec fn is_instruction_of(module: Module, instruction: Instruction) -> bool {
    exists|f: int, b: int, i: int|
        0 <= f < module.functions.len() && 0 <= b < module.functions[f].blocks.len() && 0 <= i
            < module.functions[f].blocks[b].instructions.len()
            && #[trigger] module.functions[f].blocks[b].instructions[i] == instruction
}

/// Whether a block of `module` holds an instruction with this handle and
/// display name.
pub open spec fn has_instruction(module: Module, handle: u64, name: Seq<char>) -> bool {
    exists|instruction: Instruction| #[trigger]
        is_instruction_of(module, instruction) && instruction.handle == handle
            && instruction.name@ == name
}

/// Names agree: the record of a function or of a block carries the name
/// that its header line declares, and that name is the name of the function
/// or block itself; the record of an instruction carries the display name
/// of the instruction. Nothing else is ever indexed.
pub proof fn lemma_names_agree(module: Module, lines: Seq<Seq<char>>, id: ValueId)
    requires
        build_spec(module, lines) is Ok,
        build_spec(module, lines)->Ok_0.contains_key(id),
    ensures
        ({
            let record = build_spec(module, lines)->Ok_0[id];
            let line = lines[record.line - 1];
            match id {
                ValueId::Function(handle) => {
                    &&& classify_spec(line) == LineKindView::Function(Some(record.name))
                    &&& has_function(module, handle, record.name)
                },
                ValueId::BasicBlock(handle) => {
                    &&& classify_spec(line) == LineKindView::Block(Some(record.name))
                    &&& has_block(module, handle, record.name)
                },
                ValueId::Instruction(handle) => has_instruction(module, handle, record.name),
                ValueId::Basic(_) => false,
            }
        }),
{
    lemma_indexed_values_were_visited(module, lines, id);
    let record = build_spec(module, lines)->Ok_0[id];
    let at = (record.line - 1) as nat;
    let state = run_spec(module, lines, at)->Ok_0;
    lemma_cursor_fits(module, lines, at);
    if state.cursor.pending is Some {
        let f = state.cursor.function->0;
        let (b, i) = state.cursor.pending->0;
        let instruction = module.functions[f as int].blocks[b as int].instructions[i as int];
        assert(is_instruction_of(module, instruction));
    } else {
        match classify_spec(lines[at as int]) {
            LineKindView::Block(Some(name)) => {
                let names = current_block_names(module, state.cursor);
                lemma_first_named_holds(names, name);
                let f = state.cursor.function->0 as int;
                let b = first_named(names, name)->0;
                assert(module.functions[f].blocks[b].name@ == names[b]);
                assert(has_block(module, module.functions[f].blocks[b].handle, name));
            },
            LineKindView::Function(Some(name)) => {
                let names = function_names(module);
                lemma_first_named_holds(names, name);
                let f = first_named(names, name)->0;
                assert(module.functions[f].name@ == names[f]);
                assert(has_function(module, module.functions[f].handle, name));
            },
            _ => {},
        }
    }
}

/// Whether a function of `module` holds a block with this handle.
pub open spec fn is_block_of(module: Module, handle: u64) -> bool {
    exists|f: int, b: int|
        0 <= f < module.functions.len() && 0 <= b < module.functions[f].blocks.len() && (
        #[trigger] module.functions[f].blocks[b]).handle == handle
}

/// Whether `id` names a block or an instruction of `module`.
pub open spec fn is_inside(module: Module, id: ValueId) -> bool {
    match id {
        ValueId::BasicBlock(handle) => is_block_of(module, handle),
        ValueId::Instruction(handle) => exists|instruction: Instruction| #[trigger]
            is_instruction_of(module, instruction) && instruction.handle == handle,
        _ => false,
    }
}

/// Whether the instructions of `module` refer to nothing outside it: the
/// operands that are instructions or blocks are instructions and blocks of
/// `module`, and every consumer of an instruction is an instruction of
/// `module`.
pub open spec fn is_closed(module: Module) -> bool {
    forall|instruction: Instruction| #[trigger]
        is_instruction_of(module, instruction) ==> {
            &&& forall|k: int|
                0 <= k < instruction.operands.len() && is_resolvable(
                    #[trigger] instruction.operands[k],
                ) ==> is_inside(module, instruction.operands[k])
            &&& forall|k: int|
                0 <= k < instruction.uses.len() ==> (#[trigger] instruction.uses[k]) is Instruction
                    && is_inside(module, instruction.uses[k])
        }
}

/// Whether `index` holds every block and every instruction of `module`.
pub open spec fn covers(index: Map<ValueId, TextRecord>, module: Module) -> bool {
    forall|id: ValueId| #[trigger] is_inside(module, id) ==> index.contains_key(id)
}

/// Whether the text shows every block and every instruction of `module`:
/// each of them is recorded by some line.
pub open spec fn shows_all(module: Module, lines: Seq<Seq<char>>) -> bool {
    forall|id: ValueId| #[trigger]
        is_inside(module, id) ==> exists|i: int|
            0 <= i < lines.len() && #[trigger] records_id(module, lines, i, id)
}

/// The index of a text that shows the whole module holds the whole module.
pub proof fn lemma_shown_modules_are_covered(module: Module, lines: Seq<Seq<char>>)
    requires
        build_spec(module, lines) is Ok,
        shows_all(module, lines),
    ensures
        covers(build_spec(module, lines)->Ok_0, module),
{
    assert forall|id: ValueId| #[trigger] is_inside(module, id) implies build_spec(
        module,
        lines,
    )->Ok_0.contains_key(id) by {
        let i = choose|i: int| 0 <= i < lines.len() && #[trigger] records_id(module, lines, i, id);
        lemma_recorded_lines_stay(module, lines, lines.len(), i, id);
    }
}

/// On an index that holds the whole of a closed module no query about an
/// instruction of the module fails: every operand that should resolve does,
/// and every consumer has a line.
pub proof fn lemma_queries_succeed_on_a_covering_index(
    module: Module,
    index: Map<ValueId, TextRecord>,
    instruction: Instruction,
)
    requires
        is_closed(module),
        covers(index, module),
        is_instruction_of(module, instruction),
    ensures
        definitions_spec(instruction.operands@, index) is Ok,
        chain_lines(instruction.uses@, index) is Ok,
{
    let operands = instruction.operands@;
    assert forall|k: int| 0 <= k < operands.len() && is_resolvable(#[trigger] operands[k]) implies index.contains_key(
        operands[k],
    ) by {
        assert(is_inside(module, instruction.operands[k]));
    }
    let chain = instruction.uses@;
    assert forall|k: int| 0 <= k < chain.len() implies consumer_line(#[trigger] chain[k], index) is Ok by {
        assert(is_inside(module, instruction.uses[k]));
    }
    lemma_no_failure(chain, index);
}

/// Whether use chains and operand lists of `module` mirror each other:
/// an instruction that consumes the result of another has it among its
/// operands.
pub open spec fn uses_mirror_operands(module: Module) -> bool {
    forall|user: Instruction, used: Instruction|
        #![trigger is_instruction_of(module, user), is_instruction_of(module, used)]
        is_instruction_of(module, user) && is_instruction_of(module, used) && used.uses@.contains(
            ValueId::Instruction(user.handle),
        ) ==> user.operands@.contains(ValueId::Instruction(used.handle))
}

/// Uses and definitions agree: where the line of the instruction `user` is
/// among the lines of the uses of `used`, the record of `used` is among the
/// definitions of `user`.
pub proof fn lemma_use_has_definition(
    module: Module,
    lines: Seq<Seq<char>>,
    used: Instruction,
    user: Instruction,
)
    requires
        uses_mirror_operands(module),
        is_instruction_of(module, used),
        is_instruction_of(module, user),
        build_spec(module, lines) is Ok,
        build_spec(module, lines)->Ok_0.contains_key(ValueId::Instruction(user.handle)),
        chain_lines(used.uses@, build_spec(module, lines)->Ok_0) is Ok,
        chain_lines(used.uses@, build_spec(module, lines)->Ok_0)->Ok_0.contains(
            build_spec(module, lines)->Ok_0[ValueId::Instruction(user.handle)].line,
        ),
        definitions_spec(user.operands@, build_spec(module, lines)->Ok_0) is Ok,
    ensures
        build_spec(module, lines)->Ok_0.contains_key(ValueId::Instruction(used.handle)),
        definitions_spec(user.operands@, build_spec(module, lines)->Ok_0)->Ok_0.contains(
            build_spec(module, lines)->Ok_0[ValueId::Instruction(used.handle)],
        ),
{
    let index = build_spec(module, lines)->Ok_0;
    let user_id = ValueId::Instruction(user.handle);
    let used_id = ValueId::Instruction(used.handle);
    let chain = used.uses@;
    let found = chain_lines(chain, index)->Ok_0;
    let p = choose|p: int| 0 <= p < found.len() && found[p] == index[user_id].line;
    lemma_no_failure(chain, index);
    assert(consumer_line(chain[p], index) is Ok);
    lemma_lines_tell_values_apart(module, lines, chain[p], user_id);
    assert(chain.contains(user_id));
    assert(user.operands@.contains(used_id));
    lemma_operand_is_defined(user.operands@, index, used_id);
}

/// An operand that is an instruction or a block is among the definitions,
/// where there are definitions at all.
pub proof fn lemma_operand_is_defined(
    operands: Seq<ValueId>,
    index: Map<ValueId, TextRecord>,
    id: ValueId,
)
    requires
        operands.contains(id),
        is_resolvable(id),
        definitions_spec(operands, index) is Ok,
    ensures
        index.contains_key(id),
        definitions_spec(operands, index)->Ok_0.contains(index[id]),
{
    let q = choose|q: int| 0 <= q < operands.len() && operands[q] == id;
    assert(is_resolvable(operands[q]));
    let wanted = |operand: ValueId| is_resolvable(operand);
    let record = |operand: ValueId| index[operand];
    broadcast use vstd::seq_lib::group_filter_ensures;
    let kept = operands.filter(wanted);
    assert(kept.contains(operands[q]));
    let r = choose|r: int| 0 <= r < kept.len() && kept[r] == id;
    assert(kept.map_values(record)[r] == index[id]);
}

/// Whether `user` is the instruction of `module` behind `consumer` and has
/// `id` among its operands.
pub open spec fn takes_as_operand(
    module: Module,
    user: Instruction,
    consumer: ValueId,
    id: ValueId,
) -> bool {
    &&& is_instruction_of(module, user)
    &&& consumer == ValueId::Instruction(user.handle)
    &&& user.operands@.contains(id)
}

/// Whether `consumer` is an instruction of `module` that has `id` among
/// its operands.
pub open spec fn is_user_of(module: Module, consumer: ValueId, id: ValueId) -> bool {
    exists|user: Instruction| #[trigger] takes_as_operand(module, user, consumer, id)
}

/// Whether every consumer on `chain`, the use chain of the value `id`, is
/// an instruction of `module` that has `id` among its operands.
pub open spec fn consumers_take(module: Module, id: ValueId, chain: Seq<ValueId>) -> bool {
    forall|k: int| 0 <= k < chain.len() ==> is_user_of(module, #[trigger] chain[k], id)
}

/// Every line among the uses of an instruction or a block is the line of
/// an instruction that has the value among its operands, and the record of
/// the value is among the definitions of that instruction, where the
/// instruction has definitions at all. This holds of any index, built from
/// the module or not.
pub proof fn lemma_use_lines_have_users(
    module: Module,
    index: Map<ValueId, TextRecord>,
    value: Value,
    p: int,
)
    requires
        value is Instruction || value is BasicBlock,
        consumers_take(module, value.spec_id(), value.spec_uses()->0),
        uses_spec(value, index) is Ok,
        0 <= p < uses_spec(value, index)->Ok_0.len(),
    ensures
        exists|user: Instruction| #[trigger]
            is_instruction_of(module, user) && user.operands@.contains(value.spec_id())
                && index.contains_key(ValueId::Instruction(user.handle))
                && index[ValueId::Instruction(user.handle)].line == uses_spec(
                value,
                index,
            )->Ok_0[p] && (definitions_spec(user.operands@, index) is Ok ==> index.contains_key(
                value.spec_id(),
            ) && definitions_spec(user.operands@, index)->Ok_0.contains(index[value.spec_id()])),
{
    let id = value.spec_id();
    let chain = value.spec_uses()->0;
    lemma_no_failure(chain, index);
    assert(consumer_line(chain[p], index) is Ok);
    assert(is_user_of(module, chain[p], id));
    let user = choose|user: Instruction| #[trigger] takes_as_operand(module, user, chain[p], id);
    assert(takes_as_operand(module, user, chain[p], id));
    if definitions_spec(user.operands@, index) is Ok {
        lemma_operand_is_defined(user.operands@, index, id);
    }
    assert(is_instruction_of(module, user));
}

/// The block that the line at position `i` opens, by the position of its
/// function in the module and its own position in the function; `None`
/// for a line that opens no block.
pub open spec fn opened_block(module: Module, lines: Seq<Seq<char>>, i: int) -> Option<
    (int, int),
> {
    match run_spec(module, lines, i as nat) {
        Ok(state) => if state.cursor.pending is None {
            match classify_spec(lines[i]) {
                LineKindView::Block(Some(name)) => match first_named(
                    current_block_names(module, state.cursor),
                    name,
                ) {
                    Some(b) => Some((state.cursor.function->0 as int, b)),
                    None => None,
                },
                _ => None,
            }
        } else {
            None
        },
        Err(_) => None,
    }
}

/// The lines after a block header stand for the instructions of the block,
/// one for one and in order, whatever they say: `j` lines after the header
/// the walk awaits the instruction at position `j`, and after the last
/// instruction it awaits none, so that the next line is read as a header
/// or passed over.
pub proof fn lemma_body_lines_follow_the_header(
    module: Module,
    lines: Seq<Seq<char>>,
    at: int,
    f: int,
    b: int,
    j: int,
)
    requires
        0 <= at < lines.len(),
        opened_block(module, lines, at) == Some((f, b)),
        0 <= j <= module.functions[f].blocks[b].instructions.len(),
        at + 1 + j <= lines.len(),
    ensures
        0 <= f < module.functions.len(),
        0 <= b < module.functions[f].blocks.len(),
        run_spec(module, lines, (at + 1 + j) as nat) is Ok,
        run_spec(module, lines, (at + 1 + j) as nat)->Ok_0.cursor == (Cursor {
            function: Some(f as usize),
            pending: if j < module.functions[f].blocks[b].instructions.len() {
                Some((b as usize, j as usize))
            } else {
                None
            },
        }),
        j < module.functions[f].blocks[b].instructions.len() && at + 1 + j < lines.len()
            ==> entry_at(module, lines, at + 1 + j) == Some(
            (
                ValueId::Instruction(module.functions[f].blocks[b].instructions[j].handle),
                module.functions[f].blocks[b].instructions[j].name@,
            ),
        ),
    decreases j,
{
    let state = run_spec(module, lines, at as nat)->Ok_0;
    lemma_cursor_fits(module, lines, at as nat);
    let name = classify_spec(lines[at])->Block_0->0;
    lemma_first_named_holds(current_block_names(module, state.cursor), name);
    if j > 0 {
        lemma_body_lines_follow_the_header(module, lines, at, f, b, j - 1);
    }
}

/// The instructions of a block are indexed under the lines that follow its
/// header: the instruction at position `j` under the line `j + 1` lines
/// after the header, with its display name, unless a later line stands for
/// the same instruction.
pub proof fn lemma_body_instructions_are_indexed(
    module: Module,
    lines: Seq<Seq<char>>,
    at: int,
    f: int,
    b: int,
    j: int,
)
    requires
        build_spec(module, lines) is Ok,
        0 <= at < lines.len(),
        opened_block(module, lines, at) == Some((f, b)),
        0 <= j < module.functions[f].blocks[b].instructions.len(),
        at + 1 + j < lines.len(),
    ensures
        ({
            let instruction = module.functions[f].blocks[b].instructions[j];
            let id = ValueId::Instruction(instruction.handle);
            let index = build_spec(module, lines)->Ok_0;
            &&& index.contains_key(id)
            &&& index[id].line >= at + 2 + j
            &&& (forall|k: int| at + 1 + j < k < lines.len() ==> !records_id(module, lines, k, id))
                ==> index[id] == (TextRecord { line: (at + 2 + j) as nat, name: instruction.name@ })
        }),
{
    lemma_body_lines_follow_the_header(module, lines, at, f, b, j);
    let instruction = module.functions[f].blocks[b].instructions[j];
    lemma_line_coverage(
        module,
        lines,
        at + 1 + j,
        ValueId::Instruction(instruction.handle),
        instruction.name@,
    );
}

} // verus!
