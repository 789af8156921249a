//! Operand and use queries, answered in text records and line numbers.

use crate::error::ResolveError;
use crate::index::Index;
use crate::structure::{Instruction, Value, ValueId};
use crate::text::{TextData, TextRecord};
use vstd::prelude::*;

verus! {

/// Whether an operand is something with a line of its own: an instruction
/// or a block. Constants, arguments and the like are passed over.
pub open spec fn is_resolvable(operand: ValueId) -> bool {
    operand is Instruction || operand is BasicBlock
}

/// The records of the resolvable operands, in operand order; an error as
/// soon as one of them is missing from the index.
pub open spec fn definitions_spec(
    operands: Seq<ValueId>,
    index: Map<ValueId, TextRecord>,
) -> Result<Seq<TextRecord>, ResolveError> {
    if forall|i: int|
        0 <= i < operands.len() && is_resolvable(#[trigger] operands[i]) ==> index.contains_key(
            operands[i],
        ) {
        Ok(
            operands.filter(|operand: ValueId| is_resolvable(operand)).map_values(
                |operand: ValueId| index[operand],
            ),
        )
    } else {
        Err(ResolveError::UnindexedOperand)
    }
}

/// The views of the records that a query handed out.
pub open spec fn records(found: Seq<&TextData>) -> Seq<TextRecord> {
    found.map_values(|data: &TextData| data@)
}

/// The answer of [`definitions_of`] as contracts see it.
pub open spec fn definitions_view(found: Result<Vec<&TextData>, ResolveError>) -> Result<
    Seq<TextRecord>,
    ResolveError,
> {
    match found {
        Ok(data) => Ok(records(data@)),
        Err(error) => Err(error),
    }
}

/// The records of the instructions and blocks that `instruction` takes as
/// operands, in operand order. Operands of any other kind are passed over.
pub fn definitions_of<'a>(instruction: &Instruction, index: &'a Index) -> (found: Result<
    Vec<&'a TextData>,
    ResolveError,
>)
    ensures
        definitions_view(found) == definitions_spec(instruction.operands@, index@),
{
    let ghost operands = instruction.operands@;
    let ghost wanted = |operand: ValueId| is_resolvable(operand);
    let ghost record = |operand: ValueId| index@[operand];
    let mut found: Vec<&'a TextData> = Vec::new();
    let mut i: usize = 0;
    proof {
        reveal(Seq::filter);
        assert(operands.take(0).filter(wanted) =~= Seq::<ValueId>::empty());
        assert(records(found@) =~= operands.take(0).filter(wanted).map_values(record));
    }
    while i < instruction.operands.len()
        invariant
            operands == instruction.operands@,
            wanted == |operand: ValueId| is_resolvable(operand),
            record == |operand: ValueId| index@[operand],
            0 <= i <= operands.len(),
            forall|j: int|
                0 <= j < i && is_resolvable(#[trigger] operands[j]) ==> index@.contains_key(
                    operands[j],
                ),
            records(found@) == operands.take(i as int).filter(wanted).map_values(record),
        decreases operands.len() - i,
    {
        let operand = instruction.operands[i];
        let ghost kept = operands.take(i as int).filter(wanted);
        proof {
            lemma_filter_step(operands, wanted, i as int);
        }
        match operand {
            ValueId::Instruction(_) | ValueId::BasicBlock(_) => {
                match index.get(operand) {
                    Some(data) => {
                        let ghost earlier = found@;
                        found.push(data);
                        assert(records(found@) =~= records(earlier).push(data@));
                        assert(kept.push(operand).map_values(record) =~= kept.map_values(
                            record,
                        ).push(index@[operand]));
                    },
                    None => {
                        return Err(ResolveError::UnindexedOperand);
                    },
                }
            },
            _ => {},
        }
        i += 1;
    }
    assert(operands.take(i as int) =~= operands);
    Ok(found)
}

/// Filtering one element more keeps or drops just that element.
proof fn lemma_filter_step(s: Seq<ValueId>, wanted: spec_fn(ValueId) -> bool, i: int)
    requires
        0 <= i < s.len(),
    ensures
        s.take(i + 1).filter(wanted) == if wanted(s[i]) {
            s.take(i).filter(wanted).push(s[i])
        } else {
            s.take(i).filter(wanted)
        },
{
    reveal(Seq::filter);
    assert(s.take(i + 1).drop_last() =~= s.take(i));
}

/// The line of the instruction that consumes one use.
pub open spec fn consumer_line(consumer: ValueId, index: Map<ValueId, TextRecord>) -> Result<
    nat,
    ResolveError,
> {
    if !(consumer is Instruction) {
        Err(ResolveError::UnsupportedUseConsumer)
    } else if !index.contains_key(consumer) {
        Err(ResolveError::UnindexedConsumer)
    } else {
        Ok(index[consumer].line)
    }
}

/// The position of the first use in `chain` whose consumer has no line.
pub open spec fn first_failure(chain: Seq<ValueId>, index: Map<ValueId, TextRecord>) -> Option<
    int,
> {
    chain.map_values(|consumer: ValueId| consumer_line(consumer, index) is Err).index_of_first(
        true,
    )
}

/// The lines of the consumers along a use chain, in chain order; where a
/// consumer has no line, the error of the first such use.
pub open spec fn chain_lines(chain: Seq<ValueId>, index: Map<ValueId, TextRecord>) -> Result<
    Seq<nat>,
    ResolveError,
> {
    match first_failure(chain, index) {
        Some(i) => Err(consumer_line(chain[i], index)->Err_0),
        None => Ok(chain.map_values(|consumer: ValueId| index[consumer].line)),
    }
}

/// What [`uses_of`] answers for `value`.
pub open spec fn uses_spec(value: Value, index: Map<ValueId, TextRecord>) -> Result<
    Seq<nat>,
    ResolveError,
> {
    match value.spec_uses() {
        Some(chain) => chain_lines(chain, index),
        None => Err(ResolveError::UnsupportedUseConsumer),
    }
}

/// The line numbers that a query handed out.
pub open spec fn line_numbers(found: Seq<usize>) -> Seq<nat> {
    found.map_values(|line: usize| line as nat)
}

/// The answer of [`uses_of`] as contracts see it.
pub open spec fn uses_view(found: Result<Vec<usize>, ResolveError>) -> Result<
    Seq<nat>,
    ResolveError,
> {
    match found {
        Ok(lines) => Ok(line_numbers(lines@)),
        Err(error) => Err(error),
    }
}

/// The lines of the instructions that consume `value`, in use-chain order.
/// The order is that of the chain and need not be ascending.
///
/// A use whose consumer is not an instruction is reported as
/// [`ResolveError::UnsupportedUseConsumer`] rather than passed over, and so
/// is any query for the uses of a function.
pub fn uses_of(value: Value, index: &Index) -> (found: Result<Vec<usize>, ResolveError>)
    ensures
        uses_view(found) == uses_spec(value, index@),
{
    let chain = match value.uses() {
        Some(chain) => chain,
        None => {
            return Err(ResolveError::UnsupportedUseConsumer);
        },
    };
    let mut lines: Vec<usize> = Vec::new();
    let mut i: usize = 0;
    while i < chain.len()
        invariant
            value.spec_uses() == Some(chain@),
            0 <= i <= chain.len(),
            lines.len() == i,
            forall|j: int| 0 <= j < i ==> consumer_line(#[trigger] chain@[j], index@) == Ok::<nat, ResolveError>(
                lines@[j] as nat,
            ),
        decreases chain.len() - i,
    {
        let consumer = chain[i];
        let data = match consumer {
            ValueId::Instruction(_) => index.get(consumer),
            _ => {
                proof {
                    lemma_first_failure(chain@, index@, i as int);
                }
                return Err(ResolveError::UnsupportedUseConsumer);
            },
        };
        match data {
            Some(data) => {
                lines.push(data.line_number);
            },
            None => {
                proof {
                    lemma_first_failure(chain@, index@, i as int);
                }
                return Err(ResolveError::UnindexedConsumer);
            },
        }
        i += 1;
    }
    proof {
        lemma_no_failure(chain@, index@);
        assert(line_numbers(lines@) =~= chain@.map_values(
            |consumer: ValueId| index@[consumer].line,
        ));
    }
    Ok(lines)
}

/// The first failing use is the one before which every use has a line.
pub proof fn lemma_first_failure(chain: Seq<ValueId>, index: Map<ValueId, TextRecord>, i: int)
    requires
        0 <= i < chain.len(),
        consumer_line(chain[i], index) is Err,
        forall|j: int| 0 <= j < i ==> consumer_line(#[trigger] chain[j], index) is Ok,
    ensures
        first_failure(chain, index) == Some(i),
        chain_lines(chain, index) == Err::<Seq<nat>, ResolveError>(
            consumer_line(chain[i], index)->Err_0,
        ),
{
    let failed = chain.map_values(|consumer: ValueId| consumer_line(consumer, index) is Err);
    failed.index_of_first_ensures(true);
    assert(failed[i]);
    let k = failed.index_of_first(true)->0;
    if k < i {
        assert(consumer_line(chain[k], index) is Ok);
    }
}

/// A chain answers with lines exactly when every consumer on it has one,
/// and then with one line for each use. Where it fails, some use comes
/// first among those without a line.
pub proof fn lemma_no_failure(chain: Seq<ValueId>, index: Map<ValueId, TextRecord>)
    ensures
        chain_lines(chain, index) is Ok <==> forall|j: int|
            0 <= j < chain.len() ==> consumer_line(#[trigger] chain[j], index) is Ok,
        chain_lines(chain, index) is Ok ==> chain_lines(chain, index)->Ok_0.len() == chain.len(),
        chain_lines(chain, index) is Err ==> {
            &&& first_failure(chain, index) matches Some(i)
            &&& 0 <= i < chain.len()
            &&& consumer_line(chain[i], index) is Err
            &&& forall|j: int| 0 <= j < i ==> consumer_line(#[trigger] chain[j], index) is Ok
        },
{
    let failed = chain.map_values(|consumer: ValueId| consumer_line(consumer, index) is Err);
    failed.index_of_first_ensures(true);
    if chain_lines(chain, index) is Ok {
        assert forall|j: int| 0 <= j < chain.len() implies consumer_line(
            #[trigger] chain[j],
            index,
        ) is Ok by {
            if consumer_line(chain[j], index) is Err {
                assert(failed[j]);
            }
        }
    } else {
        let k = failed.index_of_first(true)->0;
        assert(failed[k]);
        assert forall|j: int| 0 <= j < k implies consumer_line(#[trigger] chain[j], index) is Ok by {
            assert(!failed[j]);
        }
    }
}

} // verus!
