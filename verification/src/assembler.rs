//! The assembler: from a source text to the words of a program.

use crate::assembler_context::{
    AssemblerContext, AssemblerError, AssemblerErrorView, ContextView, Step,
};
use crate::constants::{FIRST_VARIABLE, MEMORY_SIZE, ROM_SIZE};
use crate::hack_int::HACK_INT_MAX;
use crate::instructions::{c_word, law_c_word_layout, AValueView};
use crate::parsing::parser::{
    instructions_view, labels_view, lemma_parsed_has_addresses, lemma_parsed_is_encodable,
    parse_text, ParserOutputView,
};
use crate::symbol_table::law_built_in_names_and_values;
use crate::parsing::{parse_str, ParseErrorView, ParsedInstructionView};
use vstd::prelude::*;

verus! {

/// Registers the labels in their order, up to the first that fails.
pub open spec fn register_labels(context: ContextView, labels: Seq<(Seq<char>, int)>) -> Step<()>
    decreases labels.len(),
{
    if labels.len() == 0 {
        Step { context, result: Ok(()) }
    } else {
        let step = context.register_label(labels[0].0, labels[0].1);
        if step.result is Err {
            step
        } else {
            register_labels(step.context, labels.drop_first())
        }
    }
}

/// Feeds the instructions in their order, up to the first that fails.
pub open spec fn feed_instructions(
    context: ContextView,
    instructions: Seq<ParsedInstructionView>,
) -> Step<()>
    decreases instructions.len(),
{
    if instructions.len() == 0 {
        Step { context, result: Ok(()) }
    } else {
        let step = context.feed_instruction(instructions[0]);
        if step.result is Err {
            step
        } else {
            feed_instructions(step.context, instructions.drop_first())
        }
    }
}

/// The words of the program that `text` writes, or why it writes none.
/// The text is parsed; then every label is registered; then the
/// instructions are encoded in their order. The first error ends the run.
pub open spec fn assemble_spec(text: Seq<char>) -> Result<Seq<u16>, AssemblerErrorView> {
    match parse_text(text) {
        Err(e) => Err(AssemblerErrorView::ParseError(e)),
        Ok(program) => {
            let registered = register_labels(ContextView::initial(), program.labels);
            match registered.result {
                Err(e) => Err(e),
                Ok(()) => {
                    let fed = feed_instructions(registered.context, program.instructions);
                    match fed.result {
                        Err(e) => Err(e),
                        Ok(()) => Ok(fed.context.output),
                    }
                },
            }
        },
    }
}

/// Registering labels allocates no variable and writes no word.
pub proof fn lemma_labels_take_no_address(context: ContextView, labels: Seq<(Seq<char>, int)>)
    ensures
        register_labels(context, labels).context.table.cursor == context.table.cursor,
        register_labels(context, labels).context.output == context.output,
    decreases labels.len(),
{
    if labels.len() > 0 {
        let step = context.register_label(labels[0].0, labels[0].1);
        if step.result is Ok {
            lemma_labels_take_no_address(step.context, labels.drop_first());
        }
    }
}

/// A name that has a value keeps it through every step of a run.
pub proof fn law_symbols_keep_their_values(
    context: ContextView,
    name: Seq<char>,
    label: Seq<char>,
    address: int,
    instruction: ParsedInstructionView,
)
    requires
        context.table.get(name) is Some,
    ensures
        context.register_label(label, address).context.table.get(name) == context.table.get(name),
        context.get_or_create_variable(label).context.table.get(name) == context.table.get(name),
        context.feed_instruction(instruction).context.table.get(name) == context.table.get(name),
        context.get_or_create_variable(name).result == Ok::<int, AssemblerErrorView>(
            context.table.get(name)->0,
        ),
{
}

/// Labels that are registered keep the values that names had before.
pub proof fn lemma_registering_keeps_values(
    context: ContextView,
    labels: Seq<(Seq<char>, int)>,
    name: Seq<char>,
)
    requires
        context.table.get(name) is Some,
    ensures
        register_labels(context, labels).context.table.get(name) == context.table.get(name),
    decreases labels.len(),
{
    if labels.len() > 0 {
        let step = context.register_label(labels[0].0, labels[0].1);
        if step.result is Ok {
            lemma_registering_keeps_values(step.context, labels.drop_first(), name);
        }
    }
}

/// Where all labels are registered, each resolves to the number that
/// stands with it: to the address of the instruction behind its line.
pub proof fn law_registered_labels_resolve(
    context: ContextView,
    labels: Seq<(Seq<char>, int)>,
    i: int,
)
    requires
        register_labels(context, labels).result is Ok,
        0 <= i < labels.len(),
    ensures
        register_labels(context, labels).context.table.get(labels[i].0) == Some(labels[i].1),
    decreases labels.len(),
{
    let step = context.register_label(labels[0].0, labels[0].1);
    if i == 0 {
        lemma_registering_keeps_values(step.context, labels.drop_first(), labels[0].0);
    } else {
        law_registered_labels_resolve(step.context, labels.drop_first(), i - 1);
    }
}

/// Once the labels are registered, whatever they are, variables get their
/// addresses one after the other from 16 on: the first name without a
/// value gets 16, the next one 17, and the first name, met again, still
/// has 16 and takes no new address.
pub proof fn law_variables_are_sequential(
    labels: Seq<(Seq<char>, int)>,
    first: Seq<char>,
    second: Seq<char>,
)
    requires
        register_labels(ContextView::initial(), labels).result is Ok,
        register_labels(ContextView::initial(), labels).context.table.get(first) is None,
        register_labels(ContextView::initial(), labels).context.table.get(second) is None,
        first != second,
    ensures
        ({
            let registered = register_labels(ContextView::initial(), labels).context;
            let one = registered.get_or_create_variable(first);
            let two = one.context.get_or_create_variable(second);
            let three = two.context.get_or_create_variable(first);
            &&& one.result == Ok::<int, AssemblerErrorView>(16)
            &&& two.result == Ok::<int, AssemblerErrorView>(17)
            &&& three.result == Ok::<int, AssemblerErrorView>(16)
            &&& three.context == two.context
        }),
{
    lemma_labels_take_no_address(ContextView::initial(), labels);
}

/// A new variable gets the address that the table holds ready, and the
/// next one the address behind it; a name that has a value keeps it and
/// takes none.
pub proof fn law_variables_follow_the_cursor(context: ContextView, name: Seq<char>)
    ensures
        ({
            let step = context.get_or_create_variable(name);
            &&& step.result is Ok ==> step.context.table.get(name) == Some(step.result->Ok_0)
            &&& step.result is Ok ==> step.context.get_or_create_variable(name) == step
            &&& context.table.get(name) is Some ==> step.context == context
            &&& context.table.get(name) is None && step.result is Ok ==> step.result->Ok_0
                == context.table.cursor && step.context.table.cursor == context.table.cursor + 1
            &&& step.result is Err ==> step.context == context && context.table.cursor
                > MEMORY_SIZE
        }),
{
}

/// The address that the next variable will get never moves down, and moves
/// up by one at most in a step: by one for a new variable, and not at
/// all for a label or for an instruction that needs none.
pub proof fn law_cursor_moves_up_by_one(
    context: ContextView,
    name: Seq<char>,
    address: int,
    instruction: ParsedInstructionView,
)
    ensures
        context.register_label(name, address).context.table.cursor == context.table.cursor,
        ({
            let step = context.get_or_create_variable(name);
            step.context.table.cursor == context.table.cursor + (if context.table.get(name) is None
                && step.result is Ok {
                1int
            } else {
                0int
            })
        }),
        ({
            let cursor = context.feed_instruction(instruction).context.table.cursor;
            context.table.cursor <= cursor <= context.table.cursor + 1
        }),
{
}

/// A full instruction memory takes no further word. The run fails for
/// want of room, unless the instruction needs a new variable and no
/// address is left for one: that failure comes first. No word is written.
pub proof fn law_full_memory_takes_no_word(
    context: ContextView,
    instruction: ParsedInstructionView,
)
    requires
        context.output.len() >= ROM_SIZE,
    ensures
        ({
            let step = context.feed_instruction(instruction);
            let needs_variable = instruction matches ParsedInstructionView::AInstruction(
                AValueView::Symbol(name),
            ) && context.table.get(name) is None;
            &&& step.context.output == context.output
            &&& step.result == Err::<(), AssemblerErrorView>(
                if needs_variable && !context.table.has_room() {
                    AssemblerErrorView::TooManyVariables
                } else {
                    AssemblerErrorView::TooManyInstructions
                },
            )
        }),
{
}

/// Every instruction that is fed writes one word behind those that are
/// there: the words keep the order of their instructions.
pub proof fn law_one_word_per_instruction(
    context: ContextView,
    instructions: Seq<ParsedInstructionView>,
)
    ensures
        ({
            let fed = feed_instructions(context, instructions);
            fed.result is Ok ==> fed.context.output.len() == context.output.len()
                + instructions.len() && fed.context.output.take(context.output.len() as int)
                == context.output
        }),
    decreases instructions.len(),
{
    if instructions.len() > 0 {
        let step = context.feed_instruction(instructions[0]);
        if step.result is Ok {
            law_one_word_per_instruction(step.context, instructions.drop_first());
            let fed = feed_instructions(context, instructions);
            if fed.result is Ok {
                assert(step.context.output.take(context.output.len() as int) =~= context.output);
                assert(fed.context.output.take(context.output.len() as int)
                    =~= fed.context.output.take(step.context.output.len() as int).take(
                    context.output.len() as int,
                ));
            }
        }
    } else {
        assert(context.output.take(context.output.len() as int) =~= context.output);
    }
}

/// More instructions than the instruction memory has room for are never
/// all fed: the run fails, for want of room for a word, unless it has
/// failed before for want of an address for a variable.
pub proof fn law_instruction_memory_is_bounded(
    context: ContextView,
    instructions: Seq<ParsedInstructionView>,
)
    requires
        context.output.len() <= ROM_SIZE,
        context.output.len() + instructions.len() > ROM_SIZE,
    ensures
        ({
            let fed = feed_instructions(context, instructions);
            fed.result == Err::<(), AssemblerErrorView>(AssemblerErrorView::TooManyInstructions)
                || fed.result == Err::<(), AssemblerErrorView>(
                AssemblerErrorView::TooManyVariables,
            )
        }),
    decreases instructions.len(),
{
    let step = context.feed_instruction(instructions[0]);
    if step.result is Ok {
        law_instruction_memory_is_bounded(step.context, instructions.drop_first());
    }
}

/// A text with more instructions than the instruction memory holds has no
/// words: the run ends with an error, and an error carries no output.
pub proof fn law_too_many_instructions_give_no_output(text: Seq<char>)
    requires
        parse_text(text) is Ok,
        parse_text(text)->Ok_0.instructions.len() > ROM_SIZE,
    ensures
        assemble_spec(text) is Err,
        register_labels(ContextView::initial(), parse_text(text)->Ok_0.labels).result is Ok
            ==> assemble_spec(text) == Err::<Seq<u16>, AssemblerErrorView>(
            AssemblerErrorView::TooManyInstructions,
        ) || assemble_spec(text) == Err::<Seq<u16>, AssemblerErrorView>(
            AssemblerErrorView::TooManyVariables,
        ),
{
    let program = parse_text(text)->Ok_0;
    let registered = register_labels(ContextView::initial(), program.labels);
    lemma_labels_take_no_address(ContextView::initial(), program.labels);
    if registered.result is Ok {
        law_instruction_memory_is_bounded(registered.context, program.instructions);
    }
}

/// Whether every value that a run holds is an address: the values of the
/// symbols lie within the bound, and the next variable's address among
/// those a variable can have, or one behind them.
pub open spec fn has_addresses(context: ContextView) -> bool {
    &&& forall|name: Seq<char>| #[trigger]
        context.table.user.contains_key(name) ==> 0 <= context.table.user[name] <= HACK_INT_MAX
    &&& FIRST_VARIABLE <= context.table.cursor <= MEMORY_SIZE + 1
    &&& context.output.len() <= ROM_SIZE
}

/// Whether `word` is the word of `instruction`: the word of its bit
/// fields for a C-instruction, with the three upper bits set; the number
/// itself for a number; an address, with the upper bit clear, for a
/// symbol.
pub open spec fn is_word_of(word: u16, instruction: ParsedInstructionView) -> bool {
    match instruction {
        ParsedInstructionView::CInstruction(c) => word == c_word(c) && word >= 0xE000,
        ParsedInstructionView::AInstruction(AValueView::Literal(number)) => word == number && word
            <= HACK_INT_MAX,
        ParsedInstructionView::AInstruction(AValueView::Symbol(_)) => word <= HACK_INT_MAX,
    }
}

/// Registering labels that hold no less than zero keeps every value an
/// address.
pub proof fn lemma_registering_keeps_addresses(
    context: ContextView,
    labels: Seq<(Seq<char>, int)>,
)
    requires
        has_addresses(context),
        forall|i: int| 0 <= i < labels.len() ==> 0 <= (#[trigger] labels[i]).1,
    ensures
        has_addresses(register_labels(context, labels).context),
    decreases labels.len(),
{
    if labels.len() > 0 {
        let step = context.register_label(labels[0].0, labels[0].1);
        if step.result is Ok {
            let rest = labels.drop_first();
            assert forall|i: int| 0 <= i < rest.len() implies 0 <= (#[trigger] rest[i]).1 by {
                assert(rest[i] == labels[i + 1]);
            }
            lemma_registering_keeps_addresses(step.context, rest);
        }
    }
}

/// One instruction that is fed writes its word, and keeps every value an
/// address.
pub proof fn lemma_fed_word(context: ContextView, instruction: ParsedInstructionView)
    requires
        has_addresses(context),
        instruction.is_encodable(),
        instruction matches ParsedInstructionView::AInstruction(AValueView::Literal(number)) ==> 0
            <= number <= HACK_INT_MAX,
    ensures
        ({
            let step = context.feed_instruction(instruction);
            step.result is Ok ==> {
                &&& has_addresses(step.context)
                &&& step.context.output.len() == context.output.len() + 1
                &&& step.context.output.take(context.output.len() as int) == context.output
                &&& is_word_of(step.context.output[context.output.len() as int], instruction)
            }
        }),
{
    let step = context.feed_instruction(instruction);
    if step.result is Ok {
        assert(step.context.output.take(context.output.len() as int) =~= context.output);
        match instruction {
            ParsedInstructionView::CInstruction(c) => {
                law_c_word_layout(c);
            },
            ParsedInstructionView::AInstruction(AValueView::Symbol(name)) => {
                law_built_in_names_and_values(name);
            },
            _ => {},
        }
    }
}

/// The instructions that are fed write their words behind those that are
/// there, one each and in their order.
pub proof fn lemma_fed_words(context: ContextView, instructions: Seq<ParsedInstructionView>)
    requires
        has_addresses(context),
        forall|i: int|
            0 <= i < instructions.len() ==> (#[trigger] instructions[i]).is_encodable(),
        forall|i: int|
            0 <= i < instructions.len() ==> (#[trigger] instructions[i]
                matches ParsedInstructionView::AInstruction(AValueView::Literal(number)) ==> 0
                <= number <= HACK_INT_MAX),
    ensures
        ({
            let fed = feed_instructions(context, instructions);
            fed.result is Ok ==> {
                &&& has_addresses(fed.context)
                &&& fed.context.output.len() == context.output.len() + instructions.len()
                &&& fed.context.output.take(context.output.len() as int) == context.output
                &&& forall|i: int|
                    0 <= i < instructions.len() ==> is_word_of(
                        fed.context.output[context.output.len() + i],
                        #[trigger] instructions[i],
                    )
            }
        }),
    decreases instructions.len(),
{
    let before = context.output.len() as int;
    if instructions.len() == 0 {
        assert(context.output.take(before) =~= context.output);
    } else {
        let step = context.feed_instruction(instructions[0]);
        lemma_fed_word(context, instructions[0]);
        if step.result is Ok {
            let rest = instructions.drop_first();
            assert forall|i: int| 0 <= i < rest.len() implies (#[trigger] rest[i]).is_encodable()
                && (rest[i] matches ParsedInstructionView::AInstruction(
                AValueView::Literal(number),
            ) ==> 0 <= number <= HACK_INT_MAX) by {
                assert(rest[i] == instructions[i + 1]);
            }
            lemma_fed_words(step.context, rest);
            let fed = feed_instructions(context, instructions);
            if fed.result is Ok {
                let words = fed.context.output;
                assert(words.take(before + 1) == step.context.output);
                assert(words.take(before) =~= words.take(before + 1).take(before));
                assert forall|i: int| 0 <= i < instructions.len() implies is_word_of(
                    words[before + i],
                    #[trigger] instructions[i],
                ) by {
                    if i == 0 {
                        assert(words[before] == words.take(before + 1)[before]);
                    } else {
                        assert(rest[i - 1] == instructions[i]);
                        assert(is_word_of(words[(before + 1) + (i - 1)], rest[i - 1]));
                    }
                }
            }
        }
    }
}

/// The words of a program stand for its instructions, one each and in
/// their order, and are no more than the instruction memory holds. The
/// word of a C-instruction is that of its bit fields and has its three
/// upper bits set; the word of an A-instruction is its number, or the
/// address of its symbol, and has its upper bit clear.
pub proof fn law_words_of_a_program(text: Seq<char>)
    ensures
        assemble_spec(text) matches Ok(words) ==> {
            let program = parse_text(text)->Ok_0;
            &&& parse_text(text) is Ok
            &&& words.len() == program.instructions.len()
            &&& words.len() <= ROM_SIZE
            &&& forall|i: int|
                0 <= i < words.len() ==> is_word_of(words[i], #[trigger] program.instructions[i])
        },
{
    if let Ok(words) = assemble_spec(text) {
        let program = parse_text(text)->Ok_0;
        lemma_parsed_is_encodable(text);
        lemma_parsed_has_addresses(text);
        let registered = register_labels(ContextView::initial(), program.labels);
        lemma_registering_keeps_addresses(ContextView::initial(), program.labels);
        lemma_labels_take_no_address(ContextView::initial(), program.labels);
        lemma_fed_words(registered.context, program.instructions);
    }
}

/// An assembler for one source text.
pub struct Assembler<'a> {
    context: AssemblerContext,
    input: &'a str,
}

impl<'a> Assembler<'a> {
    /// A run begins with no symbol but the built-in ones and with no word.
    #[verifier::type_invariant]
    closed spec fn fresh(self) -> bool {
        self.context@ == ContextView::initial()
    }

    /// The text to assemble.
    pub closed spec fn text(self) -> Seq<char> {
        self.input@
    }

    /// An assembler for the text `input`.
    pub fn new(input: &'a str) -> (result: Self)
        ensures
            result.text() == input@,
    {
        Self { context: AssemblerContext::new(), input }
    }

    /// Assembles the text: all of its words, or the first error.
    pub fn assemble(self) -> (result: Result<Vec<u16>, AssemblerError>)
        ensures
            match result {
                Ok(words) => assemble_spec(self.text()) == Ok::<Seq<u16>, AssemblerErrorView>(
                    words@,
                ),
                Err(e) => assemble_spec(self.text()) == Err::<Seq<u16>, AssemblerErrorView>(e@),
            },
    {
        proof {
            use_type_invariant(&self);
        }
        let ghost text = self.text();
        let Assembler { context, input } = self;
        let mut context = context;
        let parser_output = match parse_str(input) {
            Ok(output) => output,
            Err(e) => {
                return Err(AssemblerError::ParseError(e));
            },
        };
        let ghost program = parser_output@;
        let ghost all_labels = parser_output.labels@;
        let ghost all_instructions = parser_output.instructions@;
        let ghost registered = register_labels(ContextView::initial(), program.labels);
        assert(labels_view(all_labels).skip(0) =~= program.labels);

        for item in it: parser_output.labels
            invariant
                it.seq() == all_labels,
                text == self.text(),
                parse_text(text) == Ok::<ParserOutputView, ParseErrorView>(program),
                registered == register_labels(ContextView::initial(), program.labels),
                registered == register_labels(context@, labels_view(all_labels).skip(it.index())),
        {
            let (label, index) = item;
            proof {
                let left = labels_view(all_labels).skip(it.index());
                assert(left[0] == (label@, index as int));
                assert(left.drop_first() =~= labels_view(all_labels).skip(it.index() + 1));
            }
            match context.register_label(label, index) {
                Ok(()) => {},
                Err(e) => {
                    return Err(e);
                },
            }
        }
        assert(labels_view(all_labels).skip(all_labels.len() as int).len() == 0);
        let ghost fed = feed_instructions(registered.context, program.instructions);
        assert(instructions_view(all_instructions).skip(0) =~= program.instructions);

        for instruction in it: parser_output.instructions
            invariant
                it.seq() == all_instructions,
                text == self.text(),
                parse_text(text) == Ok::<ParserOutputView, ParseErrorView>(program),
                program.is_encodable(),
                program.instructions == instructions_view(all_instructions),
                registered == register_labels(ContextView::initial(), program.labels),
                registered.result is Ok,
                fed == feed_instructions(registered.context, program.instructions),
                fed == feed_instructions(
                    context@,
                    instructions_view(all_instructions).skip(it.index()),
                ),
        {
            proof {
                let left = instructions_view(all_instructions).skip(it.index());
                assert(left[0] == instruction@);
                assert(left.drop_first() =~= instructions_view(all_instructions).skip(
                    it.index() + 1,
                ));
                assert(program.instructions[it.index()].is_encodable());
            }
            match context.feed_instruction(instruction) {
                Ok(()) => {},
                Err(e) => {
                    return Err(e);
                },
            }
        }
        assert(instructions_view(all_instructions).skip(all_instructions.len() as int).len() == 0);

        Ok(context.into_output())
    }
}

} // verus!
