use inkwell::basic_block::BasicBlock as LlvmBlock;
use inkwell::context::Context;
use inkwell::memory_buffer::MemoryBuffer;
use inkwell::module::Module as LlvmModule;
use inkwell::values::{
    AnyValueEnum, AsValueRef, BasicValue as LlvmBasicValue, BasicValueUse, FunctionValue,
    InstructionValue, Operand,
};
use llook::{
    build_index, definitions_of, uses_of, BasicBlock, BasicValue, Function, IndexError,
    Instruction, Module, TextData, Value, ValueId,
};

const TEXT: &str = "\
; a function with two blocks
define i32 @f(i32 %x) {
entry:
  %sum = add i32 %x, 1
  %0 = mul i32 %sum, %sum
  br label %\"the end\"

\"the end\":                                          ; preds = %entry
  %r = phi i32 [ %0, %entry ]
  %twice = add i32 %r, %sum
  ret i32 %twice
}

declare i32 @g(i32)
";

fn value_handle<V: AsValueRef>(value: &V) -> u64 {
    value.as_value_ref() as usize as u64
}

fn block_handle(block: LlvmBlock<'_>) -> u64 {
    block.as_mut_ptr() as usize as u64
}

fn user_instruction(user: AnyValueEnum<'_>) -> Option<InstructionValue<'_>> {
    match user {
        AnyValueEnum::FloatValue(v) => v.as_instruction(),
        AnyValueEnum::IntValue(v) => v.as_instruction(),
        AnyValueEnum::PointerValue(v) => v.as_instruction(),
        AnyValueEnum::StructValue(v) => v.as_instruction(),
        AnyValueEnum::ArrayValue(v) => v.as_instruction(),
        AnyValueEnum::VectorValue(v) => v.as_instruction(),
        AnyValueEnum::ScalableVectorValue(v) => v.as_instruction(),
        AnyValueEnum::PhiValue(v) => Some(v.as_instruction()),
        AnyValueEnum::InstructionValue(v) => Some(v),
        AnyValueEnum::FunctionValue(_) => None,
        AnyValueEnum::MetadataValue(_) => None,
    }
}

fn use_chain(first: Option<BasicValueUse<'_>>) -> Vec<ValueId> {
    let mut chain = Vec::new();
    let mut current = first;
    while let Some(one) = current {
        let user = one.get_user();
        chain.push(match user_instruction(user) {
            Some(instruction) => ValueId::Instruction(value_handle(&instruction)),
            None => match user {
                AnyValueEnum::FunctionValue(function) => ValueId::Function(value_handle(&function)),
                other => ValueId::Basic(value_handle(&other)),
            },
        });
        current = one.get_next_use();
    }
    chain
}

fn instruction(value: InstructionValue<'_>) -> Instruction {
    Instruction {
        handle: value_handle(&value),
        name: value.get_name().map(|name| name.to_str().unwrap().to_owned()).unwrap_or_default(),
        operands: (0..value.get_num_operands())
            .map(|n| match value.get_operand(n).unwrap() {
                Operand::Value(operand) => match operand.as_instruction_value() {
                    Some(definition) => ValueId::Instruction(value_handle(&definition)),
                    None => ValueId::Basic(value_handle(&operand)),
                },
                Operand::Block(target) => ValueId::BasicBlock(block_handle(target)),
            })
            .collect(),
        uses: use_chain(value.get_first_use()),
    }
}

fn block(value: LlvmBlock<'_>) -> BasicBlock {
    BasicBlock {
        handle: block_handle(value),
        name: value.get_name().to_str().unwrap().to_owned(),
        instructions: value.get_instructions().map(instruction).collect(),
        uses: use_chain(value.get_first_use()),
    }
}

fn function(value: FunctionValue<'_>) -> Function {
    Function {
        handle: value_handle(&value),
        name: value.get_name().to_str().unwrap().to_owned(),
        blocks: value.get_basic_blocks().into_iter().map(block).collect(),
    }
}

fn structure(module: &LlvmModule<'_>) -> Module {
    Module { functions: module.get_functions().map(function).collect() }
}

fn parse<'ctx>(context: &'ctx Context, text: &str) -> LlvmModule<'ctx> {
    let buffer = MemoryBuffer::create_from_memory_range_copy(text.as_bytes(), "text");
    context.create_module_from_ir(buffer).unwrap()
}

fn lines(text: &str) -> Vec<String> {
    text.lines().map(String::from).collect()
}

fn record(line_number: usize, name: &str) -> TextData {
    TextData { line_number, name: String::from(name) }
}

#[test]
fn parsed_module_is_indexed_line_by_line() {
    let context = Context::create();
    let parsed = parse(&context, TEXT);
    let module = structure(&parsed);
    let index = build_index(&lines(TEXT), &module).unwrap();
    let f = &module.functions[0];
    assert_eq!(f.name, "f");
    assert_eq!(index.get(ValueId::Function(f.handle)), Some(&record(2, "f")));
    let entry = &f.blocks[0];
    let end = &f.blocks[1];
    assert_eq!(index.get(ValueId::BasicBlock(entry.handle)), Some(&record(3, "entry")));
    assert_eq!(index.get(ValueId::BasicBlock(end.handle)), Some(&record(8, "the end")));
    let shown: Vec<TextData> = f
        .blocks
        .iter()
        .flat_map(|b| b.instructions.iter())
        .map(|i| index.get(ValueId::Instruction(i.handle)).unwrap().clone())
        .collect();
    assert_eq!(
        shown,
        vec![
            record(4, "sum"),
            record(5, ""),
            record(6, ""),
            record(9, "r"),
            record(10, "twice"),
            record(11, ""),
        ]
    );
    assert_eq!(shown[1].render(), "5, <nameless instruction>");
}

#[test]
fn declared_function_is_in_the_structure_and_not_in_the_index() {
    let context = Context::create();
    let parsed = parse(&context, TEXT);
    let module = structure(&parsed);
    let index = build_index(&lines(TEXT), &module).unwrap();
    let g = &module.functions[1];
    assert_eq!(g.name, "g");
    assert!(g.blocks.is_empty());
    assert_eq!(index.get(ValueId::Function(g.handle)), None);
}

#[test]
fn parsed_operands_resolve_to_their_lines() {
    let context = Context::create();
    let parsed = parse(&context, TEXT);
    let module = structure(&parsed);
    let index = build_index(&lines(TEXT), &module).unwrap();
    let entry = &module.functions[0].blocks[0];
    let end = &module.functions[0].blocks[1];
    let sum = record(4, "sum");
    let product = record(5, "");
    let r = record(9, "r");
    let entry_record = record(3, "entry");
    let end_record = record(8, "the end");
    assert_eq!(definitions_of(&entry.instructions[0], &index), Ok(vec![]));
    assert_eq!(definitions_of(&entry.instructions[1], &index), Ok(vec![&sum, &sum]));
    assert_eq!(definitions_of(&entry.instructions[2], &index), Ok(vec![&end_record]));
    assert_eq!(definitions_of(&end.instructions[0], &index), Ok(vec![&product]));
    assert_eq!(definitions_of(&end.instructions[1], &index), Ok(vec![&r, &sum]));
    assert_eq!(index.get(ValueId::BasicBlock(entry.handle)), Some(&entry_record));
}

#[test]
fn parsed_use_chains_resolve_to_their_lines() {
    let context = Context::create();
    let parsed = parse(&context, TEXT);
    let module = structure(&parsed);
    let index = build_index(&lines(TEXT), &module).unwrap();
    let entry = &module.functions[0].blocks[0];
    let end = &module.functions[0].blocks[1];
    let mut of_sum = uses_of(Value::Instruction(&entry.instructions[0]), &index).unwrap();
    of_sum.sort();
    assert_eq!(of_sum, vec![5, 5, 10]);
    assert_eq!(uses_of(Value::Instruction(&entry.instructions[1]), &index), Ok(vec![9]));
    assert_eq!(uses_of(Value::Instruction(&end.instructions[2]), &index), Ok(vec![]));
    assert_eq!(uses_of(Value::BasicBlock(entry), &index), Ok(vec![]));
    assert_eq!(uses_of(Value::BasicBlock(end), &index), Ok(vec![6]));
    let argument = parsed.get_first_function().unwrap().get_first_param().unwrap();
    let x = BasicValue { handle: value_handle(&argument), uses: use_chain(argument.get_first_use()) };
    assert_eq!(uses_of(Value::Basic(&x), &index), Ok(vec![4]));
}

#[test]
fn parsed_uses_and_definitions_agree() {
    let context = Context::create();
    let parsed = parse(&context, TEXT);
    let module = structure(&parsed);
    let index = build_index(&lines(TEXT), &module).unwrap();
    let all: Vec<&Instruction> =
        module.functions.iter().flat_map(|f| f.blocks.iter()).flat_map(|b| b.instructions.iter()).collect();
    let mut edges = 0;
    for used in &all {
        let used_record = index.get(ValueId::Instruction(used.handle)).unwrap();
        for line in uses_of(Value::Instruction(used), &index).unwrap() {
            for user in &all {
                if index.get(ValueId::Instruction(user.handle)).unwrap().line_number == line {
                    assert!(definitions_of(user, &index).unwrap().contains(&used_record));
                    edges += 1;
                }
            }
        }
    }
    assert_eq!(edges, 6);
}

#[test]
fn text_of_another_module_fails_the_run() {
    let context = Context::create();
    let parsed = parse(&context, TEXT);
    let module = structure(&parsed);
    let other = "define i32 @f(i32 %x) {\nmissing:\n  ret i32 %x\n}\n";
    assert_eq!(build_index(&lines(other), &module).err(), Some(IndexError::UnresolvedBlockName));
    let unknown = "define i32 @h(i32 %x) {\nentry:\n  ret i32 %x\n}\n";
    assert_eq!(
        build_index(&lines(unknown), &module).err(),
        Some(IndexError::UnresolvedFunctionName)
    );
}

#[test]
fn parsed_names_with_dots_dollars_and_dashes_are_indexed() {
    let text = "\
define void @foo.bar() {
if-then:
  br label %$exit

$exit:                                            ; preds = %if-then
  ret void
}

define void @\"with space\"() {
\"the start\":
  ret void
}
";
    let context = Context::create();
    let parsed = parse(&context, text);
    let module = structure(&parsed);
    let index = build_index(&lines(text), &module).unwrap();
    let first = &module.functions[0];
    assert_eq!(first.name, "foo.bar");
    assert_eq!(index.get(ValueId::Function(first.handle)), Some(&record(1, "foo.bar")));
    assert_eq!(index.get(ValueId::BasicBlock(first.blocks[0].handle)), Some(&record(2, "if-then")));
    assert_eq!(index.get(ValueId::BasicBlock(first.blocks[1].handle)), Some(&record(5, "$exit")));
    assert_eq!(
        index.get(ValueId::Instruction(first.blocks[1].instructions[0].handle)),
        Some(&record(6, ""))
    );
    let second = &module.functions[1];
    assert_eq!(index.get(ValueId::Function(second.handle)), Some(&record(9, "with space")));
    assert_eq!(
        index.get(ValueId::BasicBlock(second.blocks[0].handle)),
        Some(&record(10, "the start"))
    );
    assert_eq!(uses_of(Value::BasicBlock(&first.blocks[1]), &index), Ok(vec![3]));
}
