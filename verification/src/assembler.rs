//! The text format of stack-machine programs.
//!
//! A program is read line by line. A line without words is skipped. Otherwise
//! its first word, taken in upper case, names the instruction (`ADD`, `PRINT`,
//! `HALT`, `SUB`, `DUP`, `PUSH <value>`, `JNZ <target>`, `STORE <address>`,
//! `LOAD <address>`); the operand is the second word, and further words are
//! ignored. Targets and addresses are unsigned decimal numbers. The value of
//! `PUSH` is kept as its text: it is a float, which the caller converts.
//! Reading stops at the first line that is not an instruction.

use vstd::prelude::*;
use crate::text::{
    chars_eq_str, chars_of, lines, parse_decimal_usize, parse_usize, split_lines,
    split_whitespace, string_of, to_uppercase, tokens, unicode_uppercase,
};

verus! {

/// The instructions that take an operand.
#[derive(Clone, Copy, Debug, PartialEq, Eq, Structural)]
pub enum Opcode {
    Push,
    Jnz,
    Store,
    Load,
}

/// One instruction as written; `Push` keeps the text of its value.
#[derive(Debug)]
pub enum Instruction {
    Push(String),
    Add,
    Print,
    Halt,
    Sub,
    Dup,
    Jnz(usize),
    Store(usize),
    Load(usize),
}

/// The abstract value of an `Instruction`.
pub enum InstructionView {
    Push(Seq<char>),
    Add,
    Print,
    Halt,
    Sub,
    Dup,
    Jnz(usize),
    Store(usize),
    Load(usize),
}

impl View for Instruction {
    type V = InstructionView;

    open spec fn view(&self) -> InstructionView {
        match self {
            Instruction::Push(s) => InstructionView::Push(s@),
            Instruction::Add => InstructionView::Add,
            Instruction::Print => InstructionView::Print,
            Instruction::Halt => InstructionView::Halt,
            Instruction::Sub => InstructionView::Sub,
            Instruction::Dup => InstructionView::Dup,
            Instruction::Jnz(t) => InstructionView::Jnz(*t),
            Instruction::Store(a) => InstructionView::Store(*a),
            Instruction::Load(a) => InstructionView::Load(*a),
        }
    }
}

/// Why a line is not an instruction. Lines are counted from 0.
#[derive(Debug)]
pub enum ParseError {
    /// The instruction needs an operand and the line has none.
    MissingOperand { line: usize, opcode: Opcode },
    /// The operand of `JNZ`, `STORE` or `LOAD` is not an unsigned number.
    BadNumber { line: usize, opcode: Opcode },
    /// The first word, in upper case, names no instruction.
    UnknownCommand { line: usize, word: String },
}

/// The abstract value of a `ParseError`.
pub enum ParseErrorView {
    MissingOperand { line: usize, opcode: Opcode },
    BadNumber { line: usize, opcode: Opcode },
    UnknownCommand { line: usize, word: Seq<char> },
}

impl View for ParseError {
    type V = ParseErrorView;

    open spec fn view(&self) -> ParseErrorView {
        match self {
            ParseError::MissingOperand { line, opcode } => ParseErrorView::MissingOperand {
                line: *line,
                opcode: *opcode,
            },
            ParseError::BadNumber { line, opcode } => ParseErrorView::BadNumber {
                line: *line,
                opcode: *opcode,
            },
            ParseError::UnknownCommand { line, word } => ParseErrorView::UnknownCommand {
                line: *line,
                word: word@,
            },
        }
    }
}

/// The instructions read before the first bad line, and the error of that
/// line if there is one.
pub struct Parsed {
    pub instructions: Vec<Instruction>,
    pub error: Option<ParseError>,
}

pub open spec fn view_result(
    r: Result<Instruction, ParseError>,
) -> Result<InstructionView, ParseErrorView> {
    match r {
        Ok(i) => Ok(i@),
        Err(e) => Err(e@),
    }
}

/// The numeric operand of `opcode`, or the error for it.
pub open spec fn numeric_operand(
    operand: Option<Seq<char>>,
    line: usize,
    opcode: Opcode,
) -> Result<usize, ParseErrorView> {
    match operand {
        None => Err(ParseErrorView::MissingOperand { line, opcode }),
        Some(t) => match parse_usize(t) {
            Some(n) => Ok(n),
            None => Err(ParseErrorView::BadNumber { line, opcode }),
        },
    }
}

/// The instruction named by `keyword` (a first word already in upper case)
/// with the second word `operand`, on line `line`.
pub open spec fn decode_spec(keyword: Seq<char>, operand: Option<Seq<char>>, line: usize) -> Result<
    InstructionView,
    ParseErrorView,
> {
    if keyword == "ADD"@ {
        Ok(InstructionView::Add)
    } else if keyword == "PRINT"@ {
        Ok(InstructionView::Print)
    } else if keyword == "HALT"@ {
        Ok(InstructionView::Halt)
    } else if keyword == "SUB"@ {
        Ok(InstructionView::Sub)
    } else if keyword == "DUP"@ {
        Ok(InstructionView::Dup)
    } else if keyword == "PUSH"@ {
        match operand {
            None => Err(ParseErrorView::MissingOperand { line, opcode: Opcode::Push }),
            Some(t) => Ok(InstructionView::Push(t)),
        }
    } else if keyword == "JNZ"@ {
        match numeric_operand(operand, line, Opcode::Jnz) {
            Ok(n) => Ok(InstructionView::Jnz(n)),
            Err(e) => Err(e),
        }
    } else if keyword == "STORE"@ {
        match numeric_operand(operand, line, Opcode::Store) {
            Ok(n) => Ok(InstructionView::Store(n)),
            Err(e) => Err(e),
        }
    } else if keyword == "LOAD"@ {
        match numeric_operand(operand, line, Opcode::Load) {
            Ok(n) => Ok(InstructionView::Load(n)),
            Err(e) => Err(e),
        }
    } else {
        Err(ParseErrorView::UnknownCommand { line, word: keyword })
    }
}

/// What line `index` with text `line` holds: nothing (no words), an
/// instruction, or an error.
pub open spec fn line_spec(line: Seq<char>, index: usize) -> Result<
    Option<InstructionView>,
    ParseErrorView,
> {
    let words = tokens(line);
    if words.len() == 0 {
        Ok(None)
    } else {
        let operand = if words.len() > 1 {
            Some(words[1])
        } else {
            None
        };
        match decode_spec(unicode_uppercase(words[0]), operand, index) {
            Ok(i) => Ok(Some(i)),
            Err(e) => Err(e),
        }
    }
}

/// Reads the lines `ls` in order: the instructions before the first bad
/// line, and that line's error.
pub open spec fn parse_lines_spec(ls: Seq<Seq<char>>) -> (Seq<InstructionView>, Option<
    ParseErrorView,
>)
    decreases ls.len(),
{
    if ls.len() == 0 {
        (Seq::empty(), None)
    } else {
        let (done, err) = parse_lines_spec(ls.drop_last());
        if err is Some {
            (done, err)
        } else {
            match line_spec(ls.last(), (ls.len() - 1) as usize) {
                Ok(None) => (done, None),
                Ok(Some(i)) => (done.push(i), None),
                Err(e) => (done, Some(e)),
            }
        }
    }
}

/// What reading the program text `text` gives.
pub open spec fn parse_program_spec(text: Seq<char>) -> (Seq<InstructionView>, Option<
    ParseErrorView,
>) {
    parse_lines_spec(lines(text))
}

pub open spec fn view_instructions(v: Seq<Instruction>) -> Seq<InstructionView> {
    v.map_values(|i: Instruction| i@)
}

fn numeric_operand_of(operand: Option<&Vec<char>>, line: usize, opcode: Opcode) -> (r: Result<
    usize,
    ParseError,
>)
    ensures
        match r {
            Ok(n) => numeric_operand(
                match operand {
                    Some(t) => Some(t@),
                    None => None,
                },
                line,
                opcode,
            ) == Ok::<usize, ParseErrorView>(n),
            Err(e) => numeric_operand(
                match operand {
                    Some(t) => Some(t@),
                    None => None,
                },
                line,
                opcode,
            ) == Err::<usize, ParseErrorView>(e@),
        },
{
    match operand {
        None => Err(ParseError::MissingOperand { line, opcode }),
        Some(t) => match parse_decimal_usize(t) {
            Some(n) => Ok(n),
            None => Err(ParseError::BadNumber { line, opcode }),
        },
    }
}

/// Decodes an instruction from its first word, already in upper case
/// (`keyword`), and its second word, if the line has one.
pub fn decode_command(keyword: &str, operand: Option<&Vec<char>>, line: usize) -> (r: Result<
    Instruction,
    ParseError,
>)
    ensures
        view_result(r) == decode_spec(
            keyword@,
            match operand {
                Some(t) => Some(t@),
                None => None,
            },
            line,
        ),
{
    let k = chars_of(keyword);
    if chars_eq_str(&k, "ADD") {
        Ok(Instruction::Add)
    } else if chars_eq_str(&k, "PRINT") {
        Ok(Instruction::Print)
    } else if chars_eq_str(&k, "HALT") {
        Ok(Instruction::Halt)
    } else if chars_eq_str(&k, "SUB") {
        Ok(Instruction::Sub)
    } else if chars_eq_str(&k, "DUP") {
        Ok(Instruction::Dup)
    } else if chars_eq_str(&k, "PUSH") {
        match operand {
            None => Err(ParseError::MissingOperand { line, opcode: Opcode::Push }),
            Some(t) => Ok(Instruction::Push(string_of(t))),
        }
    } else if chars_eq_str(&k, "JNZ") {
        match numeric_operand_of(operand, line, Opcode::Jnz) {
            Ok(n) => Ok(Instruction::Jnz(n)),
            Err(e) => Err(e),
        }
    } else if chars_eq_str(&k, "STORE") {
        match numeric_operand_of(operand, line, Opcode::Store) {
            Ok(n) => Ok(Instruction::Store(n)),
            Err(e) => Err(e),
        }
    } else if chars_eq_str(&k, "LOAD") {
        match numeric_operand_of(operand, line, Opcode::Load) {
            Ok(n) => Ok(Instruction::Load(n)),
            Err(e) => Err(e),
        }
    } else {
        Err(ParseError::UnknownCommand { line, word: string_of(&k) })
    }
}

/// Reads one line: `Ok(None)` when it has no words.
pub fn parse_line(line: &Vec<char>, index: usize) -> (r: Result<Option<Instruction>, ParseError>)
    ensures
        match r {
            Ok(None) => line_spec(line@, index) == Ok::<Option<InstructionView>, ParseErrorView>(
                None,
            ),
            Ok(Some(i)) => line_spec(line@, index) == Ok::<
                Option<InstructionView>,
                ParseErrorView,
            >(Some(i@)),
            Err(e) => line_spec(line@, index) == Err::<Option<InstructionView>, ParseErrorView>(
                e@,
            ),
        },
{
    let words = split_whitespace(line);
    proof {
        assert(words.deep_view() == tokens(line@));
        assert(words@.len() == tokens(line@).len());
    }
    if words.len() == 0 {
        return Ok(None);
    }
    proof {
        assert(words@[0]@ == tokens(line@)[0]);
    }
    let first = string_of(&words[0]);
    let keyword = to_uppercase(first.as_str());
    let decoded = if words.len() > 1 {
        proof {
            assert(words@[1]@ == tokens(line@)[1]);
        }
        decode_command(keyword.as_str(), Some(&words[1]), index)
    } else {
        decode_command(keyword.as_str(), None, index)
    };
    match decoded {
        Ok(i) => Ok(Some(i)),
        Err(e) => Err(e),
    }
}

/// Reads a whole program text, stopping at the first bad line.
pub fn parse_program(text: &str) -> (r: Parsed)
    ensures
        (view_instructions(r.instructions@), match r.error {
            Some(e) => Some(e@),
            None => None,
        }) == parse_program_spec(text@),
{
    let chars = chars_of(text);
    let ls = split_lines(&chars);
    let mut instructions: Vec<Instruction> = Vec::new();
    let n = ls.len();
    let mut i: usize = 0;
    while i < n
        invariant
            n == ls@.len(),
            ls.deep_view() == lines(text@),
            0 <= i <= n,
            parse_lines_spec(lines(text@).take(i as int)) == (
                view_instructions(instructions@),
                None::<ParseErrorView>,
            ),
        decreases n - i,
    {
        proof {
            assert(lines(text@).take(i + 1).drop_last() == lines(text@).take(i as int));
            assert(ls@[i as int]@ == lines(text@)[i as int]);
            assert(lines(text@).take(i + 1).last() == lines(text@)[i as int]);
        }
        match parse_line(&ls[i], i) {
            Ok(None) => {},
            Ok(Some(ins)) => {
                let ghost before = instructions@;
                instructions.push(ins);
                proof {
                    assert(view_instructions(instructions@) =~= view_instructions(before).push(
                        ins@,
                    ));
                }
            },
            Err(e) => {
                proof {
                    law_reading_stops_at_first_error(lines(text@), i as int + 1);
                }
                return Parsed { instructions, error: Some(e) };
            },
        }
        i = i + 1;
    }
    proof {
        assert(lines(text@).take(n as int) == lines(text@));
    }
    Parsed { instructions, error: None }
}

/// The operand of an instruction is the second word of its line, whatever
/// follows it: `PUSH` keeps that word's text, `JNZ`, `STORE` and `LOAD` read
/// it as a number, and words after it change nothing.
pub proof fn law_operand_is_second_word(line: Seq<char>, index: usize)
    requires
        tokens(line).len() >= 2,
    ensures
        ({
            let w = tokens(line);
            let k = unicode_uppercase(w[0]);
            &&& k == "PUSH"@ ==> line_spec(line, index) == Ok::<
                Option<InstructionView>,
                ParseErrorView,
            >(Some(InstructionView::Push(w[1])))
            &&& forall|n: usize|
                parse_usize(w[1]) == Some(n) ==> {
                    &&& k == "JNZ"@ ==> line_spec(line, index) == Ok::<
                        Option<InstructionView>,
                        ParseErrorView,
                    >(Some(InstructionView::Jnz(n)))
                    &&& k == "STORE"@ ==> line_spec(line, index) == Ok::<
                        Option<InstructionView>,
                        ParseErrorView,
                    >(Some(InstructionView::Store(n)))
                    &&& k == "LOAD"@ ==> line_spec(line, index) == Ok::<
                        Option<InstructionView>,
                        ParseErrorView,
                    >(Some(InstructionView::Load(n)))
                }
            &&& (parse_usize(w[1]) is None && k == "JNZ"@) ==> line_spec(line, index) == Err::<
                Option<InstructionView>,
                ParseErrorView,
            >(ParseErrorView::BadNumber { line: index, opcode: Opcode::Jnz })
            &&& (parse_usize(w[1]) is None && k == "STORE"@) ==> line_spec(line, index) == Err::<
                Option<InstructionView>,
                ParseErrorView,
            >(ParseErrorView::BadNumber { line: index, opcode: Opcode::Store })
            &&& (parse_usize(w[1]) is None && k == "LOAD"@) ==> line_spec(line, index) == Err::<
                Option<InstructionView>,
                ParseErrorView,
            >(ParseErrorView::BadNumber { line: index, opcode: Opcode::Load })
        }),
{
    broadcast use vstd::string::group_string_axioms;

    reveal_strlit("ADD");
    reveal_strlit("PRINT");
    reveal_strlit("HALT");
    reveal_strlit("SUB");
    reveal_strlit("DUP");
    reveal_strlit("PUSH");
    reveal_strlit("JNZ");
    reveal_strlit("STORE");
    reveal_strlit("LOAD");
    assert("ADD"@.len() == 3);
    assert("PRINT"@.len() == 5);
    assert("HALT"@.len() == 4);
    assert("SUB"@.len() == 3);
    assert("DUP"@.len() == 3);
    assert("PUSH"@.len() == 4);
    assert("JNZ"@.len() == 3);
    assert("STORE"@.len() == 5);
    assert("LOAD"@.len() == 4);
    assert("PUSH"@[0] == 'P' && "PRINT"@[0] == 'P' && "PUSH"@[1] == 'U' && "PRINT"@[1] == 'R');
    assert("HALT"@[0] == 'H' && "LOAD"@[0] == 'L');
    assert("JNZ"@[0] == 'J' && "ADD"@[0] == 'A' && "SUB"@[0] == 'S' && "DUP"@[0] == 'D');
}

/// A line without words is skipped; otherwise its first word, in upper case,
/// chooses the instruction: `ADD`, `PRINT`, `HALT`, `SUB` and `DUP` need
/// nothing more (further words are ignored), and any other word that names no
/// instruction is refused with that upper-cased word and the line's index.
pub proof fn law_first_word_chooses(line: Seq<char>, index: usize)
    ensures
        tokens(line).len() == 0 ==> line_spec(line, index) == Ok::<
            Option<InstructionView>,
            ParseErrorView,
        >(None),
        tokens(line).len() > 0 ==> ({
            let k = unicode_uppercase(tokens(line)[0]);
            let r = line_spec(line, index);
            &&& k == "ADD"@ ==> r == Ok::<Option<InstructionView>, ParseErrorView>(
                Some(InstructionView::Add),
            )
            &&& k == "PRINT"@ ==> r == Ok::<Option<InstructionView>, ParseErrorView>(
                Some(InstructionView::Print),
            )
            &&& k == "HALT"@ ==> r == Ok::<Option<InstructionView>, ParseErrorView>(
                Some(InstructionView::Halt),
            )
            &&& k == "SUB"@ ==> r == Ok::<Option<InstructionView>, ParseErrorView>(
                Some(InstructionView::Sub),
            )
            &&& k == "DUP"@ ==> r == Ok::<Option<InstructionView>, ParseErrorView>(
                Some(InstructionView::Dup),
            )
            &&& (k != "ADD"@ && k != "PRINT"@ && k != "HALT"@ && k != "SUB"@ && k != "DUP"@ && k
                != "PUSH"@ && k != "JNZ"@ && k != "STORE"@ && k != "LOAD"@) ==> r == Err::<
                Option<InstructionView>,
                ParseErrorView,
            >(ParseErrorView::UnknownCommand { line: index, word: k })
        }),
{
    broadcast use vstd::string::group_string_axioms;

    reveal_strlit("ADD");
    reveal_strlit("PRINT");
    reveal_strlit("HALT");
    reveal_strlit("SUB");
    reveal_strlit("DUP");
    reveal_strlit("PUSH");
    reveal_strlit("JNZ");
    reveal_strlit("STORE");
    reveal_strlit("LOAD");
    assert("ADD"@.len() == 3);
    assert("PRINT"@.len() == 5);
    assert("HALT"@.len() == 4);
    assert("SUB"@.len() == 3);
    assert("DUP"@.len() == 3);
    assert("PUSH"@.len() == 4);
    assert("JNZ"@.len() == 3);
    assert("STORE"@.len() == 5);
    assert("LOAD"@.len() == 4);
    assert("PUSH"@[0] == 'P' && "PRINT"@[0] == 'P' && "PUSH"@[1] == 'U' && "PRINT"@[1] == 'R');
    assert("HALT"@[0] == 'H' && "LOAD"@[0] == 'L');
    assert("JNZ"@[0] == 'J' && "ADD"@[0] == 'A' && "SUB"@[0] == 'S' && "DUP"@[0] == 'D');
}

pub open spec fn error_line(e: ParseErrorView) -> usize {
    match e {
        ParseErrorView::MissingOperand { line, .. } => line,
        ParseErrorView::BadNumber { line, .. } => line,
        ParseErrorView::UnknownCommand { line, .. } => line,
    }
}

/// An error names the line it comes from, counted from 0: that line is not an
/// instruction, for exactly that reason, and every line before it is blank or
/// an instruction; the instructions read are one per instruction line before it.
pub proof fn law_error_names_its_line(ls: Seq<Seq<char>>)
    requires
        ls.len() <= usize::MAX,
    ensures
        parse_lines_spec(ls).1 matches Some(e) ==> {
            &&& error_line(e) < ls.len()
            &&& line_spec(ls[error_line(e) as int], error_line(e)) == Err::<
                Option<InstructionView>,
                ParseErrorView,
            >(e)
            &&& forall|j: int| 0 <= j < error_line(e) ==> #[trigger] line_spec(ls[j], j as usize) is Ok
        },
        parse_lines_spec(ls).1 is None ==> forall|j: int|
            0 <= j < ls.len() ==> #[trigger] line_spec(ls[j], j as usize) is Ok,
    decreases ls.len(),
{
    if ls.len() > 0 {
        let prev = ls.drop_last();
        law_error_names_its_line(prev);
        let (done, err) = parse_lines_spec(prev);
        let last = (ls.len() - 1) as usize;
        assert(ls.last() == ls[last as int]);
        if err is Some {
            let e = err.unwrap();
            assert(ls[error_line(e) as int] == prev[error_line(e) as int]);
            assert forall|j: int| 0 <= j < error_line(e) implies #[trigger] line_spec(
                ls[j],
                j as usize,
            ) is Ok by {
                assert(ls[j] == prev[j]);
            }
        } else {
            lemma_error_carries_index(ls.last(), last);
            assert forall|j: int| 0 <= j < last implies #[trigger] line_spec(
                ls[j],
                j as usize,
            ) is Ok by {
                assert(ls[j] == prev[j]);
            }
        }
    }
}

proof fn lemma_error_carries_index(line: Seq<char>, index: usize)
    ensures
        line_spec(line, index) matches Err(e) ==> error_line(e) == index,
{
}

/// A line whose only word names an instruction that needs an operand is
/// refused for the missing operand.
pub proof fn law_missing_operand_when_one_word(line: Seq<char>, index: usize)
    requires
        tokens(line).len() == 1,
    ensures
        ({
            let k = unicode_uppercase(tokens(line)[0]);
            &&& k == "PUSH"@ ==> line_spec(line, index) == Err::<
                Option<InstructionView>,
                ParseErrorView,
            >(ParseErrorView::MissingOperand { line: index, opcode: Opcode::Push })
            &&& k == "JNZ"@ ==> line_spec(line, index) == Err::<
                Option<InstructionView>,
                ParseErrorView,
            >(ParseErrorView::MissingOperand { line: index, opcode: Opcode::Jnz })
            &&& k == "STORE"@ ==> line_spec(line, index) == Err::<
                Option<InstructionView>,
                ParseErrorView,
            >(ParseErrorView::MissingOperand { line: index, opcode: Opcode::Store })
            &&& k == "LOAD"@ ==> line_spec(line, index) == Err::<
                Option<InstructionView>,
                ParseErrorView,
            >(ParseErrorView::MissingOperand { line: index, opcode: Opcode::Load })
        }),
{
    broadcast use vstd::string::group_string_axioms;

    reveal_strlit("ADD");
    reveal_strlit("PRINT");
    reveal_strlit("HALT");
    reveal_strlit("SUB");
    reveal_strlit("DUP");
    reveal_strlit("PUSH");
    reveal_strlit("JNZ");
    reveal_strlit("STORE");
    reveal_strlit("LOAD");
    assert("ADD"@.len() == 3);
    assert("PRINT"@.len() == 5);
    assert("HALT"@.len() == 4);
    assert("SUB"@.len() == 3);
    assert("DUP"@.len() == 3);
    assert("PUSH"@.len() == 4);
    assert("JNZ"@.len() == 3);
    assert("STORE"@.len() == 5);
    assert("LOAD"@.len() == 4);
    assert("PUSH"@[0] == 'P' && "PRINT"@[0] == 'P' && "PUSH"@[1] == 'U' && "PRINT"@[1] == 'R');
    assert("HALT"@[0] == 'H' && "LOAD"@[0] == 'L');
    assert("JNZ"@[0] == 'J' && "ADD"@[0] == 'A' && "SUB"@[0] == 'S' && "DUP"@[0] == 'D');
}

/// Once a line is not an instruction, the lines after it change nothing:
/// reading stops at the first bad line.
pub proof fn law_reading_stops_at_first_error(ls: Seq<Seq<char>>, k: int)
    requires
        0 <= k <= ls.len(),
        parse_lines_spec(ls.take(k)).1 is Some,
    ensures
        parse_lines_spec(ls) == parse_lines_spec(ls.take(k)),
    decreases ls.len() - k,
{
    if k < ls.len() {
        assert(ls.take(k + 1).drop_last() == ls.take(k));
        law_reading_stops_at_first_error(ls, k + 1);
    } else {
        assert(ls.take(k) == ls);
    }
}

} // verus!
