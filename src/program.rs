//! Programs and the loader that turns source text into instructions.

use vstd::prelude::*;
use crate::command::{BFCommand, InputInstruction, command_of, is_command_char};

verus! {

/// The 0-based line of the character at index `i`: the number of line breaks
/// before it.
pub open spec fn line_at(text: Seq<char>, i: int) -> int
    decreases i,
{
    if i <= 0 {
        0
    } else if text[i - 1] == '\n' {
        line_at(text, i - 1) + 1
    } else {
        line_at(text, i - 1)
    }
}

/// The 0-based column of the character at index `i`: the number of characters
/// between the last line break before it and itself.
pub open spec fn column_at(text: Seq<char>, i: int) -> int
    decreases i,
{
    if i <= 0 {
        0
    } else if text[i - 1] == '\n' {
        0
    } else {
        column_at(text, i - 1) + 1
    }
}

/// The instructions that a source text loads to: one for each command
/// character, in source order, tagged with that character's line and column.
pub open spec fn load_text(text: Seq<char>) -> Seq<InputInstruction>
    decreases text.len(),
{
    if text.len() == 0 {
        Seq::empty()
    } else {
        let i = text.len() - 1;
        let before = load_text(text.drop_last());
        match command_of(text[i]) {
            Some(command) => before.push(
                InputInstruction {
                    command,
                    line_number: line_at(text, i) as usize,
                    column_number: column_at(text, i) as usize,
                },
            ),
            None => before,
        }
    }
}

/// The number of command characters in a text.
pub open spec fn command_count(text: Seq<char>) -> nat
    decreases text.len(),
{
    if text.len() == 0 {
        0
    } else if is_command_char(text.last()) {
        command_count(text.drop_last()) + 1
    } else {
        command_count(text.drop_last())
    }
}

proof fn lemma_count_concat(a: Seq<char>, b: Seq<char>)
    ensures
        command_count(a + b) == command_count(a) + command_count(b),
    decreases b.len(),
{
    if b.len() > 0 {
        assert((a + b).drop_last() =~= a + b.drop_last());
        lemma_count_concat(a, b.drop_last());
    } else {
        assert(a + b =~= a);
    }
}

/// A text loads to exactly as many instructions as it has command characters.
pub proof fn lemma_load_length(text: Seq<char>)
    ensures
        load_text(text).len() == command_count(text),
    decreases text.len(),
{
    if text.len() > 0 {
        lemma_load_length(text.drop_last());
    }
}

/// Putting a character that is no command anywhere into a text leaves the
/// number of loaded instructions unchanged.
pub proof fn lemma_load_length_ignores_other_chars(text: Seq<char>, k: int, c: char)
    requires
        0 <= k <= text.len(),
        !is_command_char(c),
    ensures
        load_text(text.insert(k, c)).len() == load_text(text).len(),
{
    let t2 = text.insert(k, c);
    assert(text =~= text.subrange(0, k) + text.subrange(k, text.len() as int));
    assert(t2 =~= text.subrange(0, k) + (seq![c] + text.subrange(k, text.len() as int)));
    lemma_count_concat(text.subrange(0, k), text.subrange(k, text.len() as int));
    lemma_count_concat(seq![c], text.subrange(k, text.len() as int));
    lemma_count_concat(text.subrange(0, k), seq![c] + text.subrange(k, text.len() as int));
    assert(seq![c].drop_last() =~= Seq::<char>::empty());
    assert(command_count(Seq::<char>::empty()) == 0);
    assert(command_count(seq![c]) == 0);
    lemma_load_length(text);
    lemma_load_length(t2);
}

proof fn lemma_positions_bounded(text: Seq<char>, i: int)
    requires
        0 <= i,
    ensures
        0 <= line_at(text, i) <= i,
        0 <= column_at(text, i) <= i,
    decreases i,
{
    if i > 0 {
        lemma_positions_bounded(text, i - 1);
    }
}

/// A loaded program: its instructions and the name of the file they came from.
#[derive(Debug)]
pub struct BFProgram {
    filename: String,
    commands: Vec<InputInstruction>,
}

impl View for BFProgram {
    type V = Seq<InputInstruction>;

    closed spec fn view(&self) -> Seq<InputInstruction> {
        self.commands@
    }
}

impl BFProgram {
    /// The name of the file the program was read from.
    pub closed spec fn spec_filename(&self) -> Seq<char> {
        self.filename@
    }

    /// The program loaded from `content`, the text of the file `filename`.
    pub fn new(filename: String, content: &str) -> (r: BFProgram)
        requires
            content@.len() <= usize::MAX,
        ensures
            r@ == load_text(content@),
            r.spec_filename() == filename@,
    {
        let commands = BFProgram::from_source(content);
        BFProgram { filename, commands }
    }

    /// The name of the file the program was read from.
    pub fn filename(&self) -> (r: &String)
        ensures
            r@ == self.spec_filename(),
    {
        &self.filename
    }

    /// The instruction at `index`.
    pub fn get_command(&self, index: usize) -> (r: &InputInstruction)
        requires
            index < self@.len(),
        ensures
            *r == self@[index as int],
    {
        &self.commands[index]
    }

    /// All instructions, in program order.
    pub fn commands(&self) -> (r: &Vec<InputInstruction>)
        ensures
            r@ == self@,
    {
        &self.commands
    }

    /// Appends an instruction to the program.
    pub fn add_command(&mut self, instruction: InputInstruction)
        ensures
            final(self)@ == old(self)@.push(instruction),
            final(self).spec_filename() == old(self).spec_filename(),
    {
        self.commands.push(instruction);
    }

    /// The instructions of a source text. Every character that is no command
    /// is skipped but still counts towards the line and column of what
    /// follows it.
    pub fn from_source(content: &str) -> (r: Vec<InputInstruction>)
        requires
            content@.len() <= usize::MAX,
        ensures
            r@ == load_text(content@),
    {
        let ghost text = content@;
        let mut commands: Vec<InputInstruction> = Vec::new();
        let mut line: usize = 0;
        let mut column: usize = 0;
        for c in it: content.chars()
            invariant
                it.seq() == text,
                text.len() <= usize::MAX,
                commands@ == load_text(text.take(it.index() as int)),
                line == line_at(text, it.index() as int),
                column == column_at(text, it.index() as int),
        {
            let ghost i = it.index() as int;
            proof {
                lemma_positions_bounded(text, i);
                lemma_positions_bounded(text, i + 1);
                assert(text.take(i + 1).drop_last() =~= text.take(i));
                lemma_prefix_positions(text, i + 1);
            }
            if let Some(command) = BFCommand::from_char(c) {
                commands.push(InputInstruction::new(command, line, column));
            }
            if c == '\n' {
                line = line + 1;
                column = 0;
            } else {
                column = column + 1;
            }
        }
        proof {
            assert(text.take(text.len() as int) =~= text);
        }
        commands
    }
}

proof fn lemma_prefix_positions(text: Seq<char>, n: int)
    requires
        0 <= n <= text.len(),
    ensures
        forall|i: int|
            0 <= i <= n ==> #[trigger] line_at(text.take(n), i) == line_at(text, i)
                && column_at(text.take(n), i) == column_at(text, i),
    decreases n,
{
    assert forall|i: int| 0 <= i <= n implies #[trigger] line_at(text.take(n), i) == line_at(
        text,
        i,
    ) && column_at(text.take(n), i) == column_at(text, i) by {
        lemma_prefix_position(text, n, i);
    }
}

proof fn lemma_prefix_position(text: Seq<char>, n: int, i: int)
    requires
        0 <= i <= n <= text.len(),
    ensures
        line_at(text.take(n), i) == line_at(text, i),
        column_at(text.take(n), i) == column_at(text, i),
    decreases i,
{
    if i > 0 {
        lemma_prefix_position(text, n, i - 1);
    }
}

} // verus!
