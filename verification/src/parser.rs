//! From source text to a program.

use vstd::prelude::*;
use crate::error::{Error, ErrorKind};
use crate::instruction::{decode, Instruction};
use crate::machine::TuringMachine;
use crate::search::{first_in, lemma_first_in};

verus! {

/// The characters that Unicode marks as `White_Space`.
pub open spec fn whitespace(c: char) -> bool {
    let code = c as u32;
    ||| 0x09 <= code <= 0x0D
    ||| code == 0x20
    ||| code == 0x85
    ||| code == 0xA0
    ||| code == 0x1680
    ||| 0x2000 <= code <= 0x200A
    ||| code == 0x2028
    ||| code == 0x2029
    ||| code == 0x202F
    ||| code == 0x205F
    ||| code == 0x3000
}

/// `text` without the whitespace it starts with.
pub open spec fn trim_start(text: Seq<char>) -> Seq<char>
    decreases text.len(),
{
    if text.len() > 0 && whitespace(text.first()) {
        trim_start(text.drop_first())
    } else {
        text
    }
}

/// `text` without the whitespace it ends with.
pub open spec fn trim_end(text: Seq<char>) -> Seq<char>
    decreases text.len(),
{
    if text.len() > 0 && whitespace(text.last()) {
        trim_end(text.drop_last())
    } else {
        text
    }
}

/// `text` without the whitespace around it.
pub open spec fn trim(text: Seq<char>) -> Seq<char> {
    trim_end(trim_start(text))
}

/// The positions of `text` that hold no command.
pub open spec fn unrecognized_in(text: Seq<char>) -> spec_fn(int) -> bool {
    |at: int| decode(text[at]) is None
}

/// The program that `text` spells, one instruction for each character.
pub open spec fn program_of(text: Seq<char>) -> Seq<Instruction> {
    Seq::new(text.len(), |at: int| decode(text[at]).unwrap())
}

/// What parsing `source` gives: the program that the trimmed source
/// spells, or the position in the trimmed source of the first character
/// that is no command.
pub open spec fn parsed(source: Seq<char>) -> Result<Seq<Instruction>, Error> {
    let text = trim(source);
    match first_in(0, text.len() as int, unrecognized_in(text)) {
        Some(at) => Err(Error { kind: ErrorKind::InvalidCharacter, position: at as usize }),
        None => Ok(program_of(text)),
    }
}

/// Two sources that parse to the same program are the same but for the
/// whitespace around them.
pub proof fn lemma_parse_injective(first: Seq<char>, second: Seq<char>)
    requires
        parsed(first) is Ok,
        parsed(first) == parsed(second),
    ensures
        trim(first) == trim(second),
{
    let a = trim(first);
    let b = trim(second);
    lemma_first_in(0, a.len() as int, unrecognized_in(a));
    lemma_first_in(0, b.len() as int, unrecognized_in(b));
    assert(program_of(a).len() == program_of(b).len());
    assert forall|at: int| 0 <= at < a.len() implies a[at] == b[at] by {
        assert(!unrecognized_in(a)(at));
        assert(!unrecognized_in(b)(at));
        assert(program_of(a)[at] == program_of(b)[at]);
    }
}

/// Tells whether `c` is whitespace.
pub fn is_whitespace(c: char) -> (b: bool)
    ensures
        b == whitespace(c),
{
    let code: u32 = c as u32;
    (0x09 <= code && code <= 0x0D) || code == 0x20 || code == 0x85 || code == 0xA0 || code
        == 0x1680 || (0x2000 <= code && code <= 0x200A) || code == 0x2028 || code == 0x2029
        || code == 0x202F || code == 0x205F || code == 0x3000
}

/// The characters of `source`, one by one.
fn characters(source: &str) -> (text: Vec<char>)
    ensures
        text@ == source@,
{
    let mut text: Vec<char> = Vec::new();
    for c in it: source.chars()
        invariant
            it.seq() == source@,
            text@ == it.seq().take(it.index() as int),
    {
        text.push(c);
    }
    text
}

/// The range of `text` that is left when the whitespace around it is gone.
fn trim_bounds(text: &Vec<char>) -> (bounds: (usize, usize))
    ensures
        bounds.0 <= bounds.1 <= text@.len(),
        text@.subrange(bounds.0 as int, bounds.1 as int) == trim(text@),
{
    let n = text.len();
    let mut start: usize = 0;
    assert(text@.subrange(0, n as int) == text@);
    while start < n && is_whitespace(text[start])
        invariant
            start <= n == text@.len(),
            trim_start(text@) == trim_start(text@.subrange(start as int, n as int)),
        decreases n - start,
    {
        assert(text@.subrange(start as int, n as int).drop_first() == text@.subrange(
            start as int + 1,
            n as int,
        ));
        start = start + 1;
    }
    let mut end: usize = n;
    while end > start && is_whitespace(text[end - 1])
        invariant
            start <= end <= n == text@.len(),
            trim(text@) == trim_end(text@.subrange(start as int, end as int)),
        decreases end,
    {
        assert(text@.subrange(start as int, end as int).drop_last() == text@.subrange(
            start as int,
            end as int - 1,
        ));
        end = end - 1;
    }
    (start, end)
}

impl TuringMachine {
    /// Turns source text into a program. The whitespace around the source
    /// is dropped; every character that is left has to be one of the eight
    /// commands and gives the instruction at its own position. The first
    /// character that is no command, whitespace between commands included,
    /// is an error.
    pub fn parse(program: &str) -> (r: Result<Vec<Instruction>, Error>)
        ensures
            match parsed(program@) {
                Ok(instructions) => r is Ok && r.unwrap()@ == instructions,
                Err(error) => r == Err::<Vec<Instruction>, Error>(error),
            },
            r matches Ok(instructions) ==> {
                &&& instructions@.len() == trim(program@).len()
                &&& forall|at: int|
                    0 <= at < instructions@.len() ==> decode(#[trigger] trim(program@)[at])
                        == Some(instructions@[at])
            },
    {
        let source = characters(program);
        let (start, end) = trim_bounds(&source);
        let ghost text = trim(program@);
        let mut instructions: Vec<Instruction> = Vec::new();
        let mut at: usize = start;
        while at < end
            invariant
                start <= at <= end <= source@.len(),
                text == trim(program@),
                text == source@.subrange(start as int, end as int),
                instructions@.len() == at - start,
                forall|j: int|
                    0 <= j < at - start ==> decode(#[trigger] text[j]) == Some(instructions@[j]),
                first_in(0, text.len() as int, unrecognized_in(text)) == first_in(
                    at - start,
                    text.len() as int,
                    unrecognized_in(text),
                ),
            decreases end - at,
        {
            match Instruction::from_char(source[at]) {
                Some(instruction) => {
                    instructions.push(instruction);
                },
                None => {
                    return Err(
                        Error { kind: ErrorKind::InvalidCharacter, position: at - start },
                    );
                },
            }
            at = at + 1;
        }
        Ok(instructions)
    }
}

} // verus!
