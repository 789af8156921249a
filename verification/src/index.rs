//! The mapping from structural identities to text records.

use crate::structure::ValueId;
use crate::text::{TextData, TextRecord};
use std::collections::HashMap;
use vstd::prelude::*;

verus! {

broadcast use vstd::std_specs::hash::group_hash_axioms;

/// One record per identity. Functions, blocks and instructions are kept
/// apart by kind, so equal handles of different kinds never meet.
#[derive(Debug)]
pub struct Index {
    functions: HashMap<u64, TextData>,
    blocks: HashMap<u64, TextData>,
    instructions: HashMap<u64, TextData>,
}

impl View for Index {
    type V = Map<ValueId, TextRecord>;

    closed spec fn view(&self) -> Map<ValueId, TextRecord> {
        Map::new(
            |id: ValueId|
                match id {
                    ValueId::Basic(_) => false,
                    ValueId::Instruction(h) => self.instructions@.contains_key(h),
                    ValueId::BasicBlock(h) => self.blocks@.contains_key(h),
                    ValueId::Function(h) => self.functions@.contains_key(h),
                },
            |id: ValueId|
                match id {
                    ValueId::Basic(_) => arbitrary(),
                    ValueId::Instruction(h) => self.instructions@[h]@,
                    ValueId::BasicBlock(h) => self.blocks@[h]@,
                    ValueId::Function(h) => self.functions@[h]@,
                },
        )
    }
}

impl Index {
    /// An index without entries.
    pub fn new() -> (index: Index)
        ensures
            index@ == Map::<ValueId, TextRecord>::empty(),
    {
        let index = Index {
            functions: HashMap::new(),
            blocks: HashMap::new(),
            instructions: HashMap::new(),
        };
        assert(index@ =~= Map::<ValueId, TextRecord>::empty());
        index
    }

    /// The record kept for `id`, if there is one.
    pub fn get(&self, id: ValueId) -> (found: Option<&TextData>)
        ensures
            match found {
                Some(data) => self@.contains_key(id) && self@[id] == data@,
                None => !self@.contains_key(id),
            },
    {
        match id {
            ValueId::Basic(_) => None,
            ValueId::Instruction(h) => self.instructions.get(&h),
            ValueId::BasicBlock(h) => self.blocks.get(&h),
            ValueId::Function(h) => self.functions.get(&h),
        }
    }

    /// Whether a record is kept for `id`.
    pub fn contains(&self, id: ValueId) -> (found: bool)
        ensures
            found == self@.contains_key(id),
    {
        self.get(id).is_some()
    }

    /// Records `data` for `id`, in place of what was recorded for `id`
    /// before; every other identity keeps its record.
    pub(crate) fn insert(&mut self, id: ValueId, data: TextData)
        requires
            id !is Basic,
        ensures
            final(self)@ == old(self)@.insert(id, data@),
    {
        match id {
            ValueId::Basic(_) => {},
            ValueId::Instruction(h) => {
                self.instructions.insert(h, data);
            },
            ValueId::BasicBlock(h) => {
                self.blocks.insert(h, data);
            },
            ValueId::Function(h) => {
                self.functions.insert(h, data);
            },
        }
        assert(self@ =~= old(self)@.insert(id, data@));
    }
}

/// Identities that differ in kind or in handle are different keys: each of
/// two such identities keeps the record it was given, whether or not the
/// two records are equal, and no third identity is touched.
pub proof fn lemma_distinct_identities_keep_apart(
    index: Map<ValueId, TextRecord>,
    first: ValueId,
    first_record: TextRecord,
    second: ValueId,
    second_record: TextRecord,
)
    requires
        first != second,
    ensures
        index.insert(first, first_record).insert(second, second_record)[first] == first_record,
        index.insert(first, first_record).insert(second, second_record)[second] == second_record,
        index.insert(first, first_record).insert(second, second_record).dom()
            == index.dom().insert(first).insert(second),
        index.insert(first, first_record).insert(second, second_record) == index.insert(
            second,
            second_record,
        ).insert(first, first_record),
{
    assert(index.insert(first, first_record).insert(second, second_record) =~= index.insert(
        second,
        second_record,
    ).insert(first, first_record));
}

} // verus!
