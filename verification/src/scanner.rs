//! Lexical scanning: from raw source text to an instruction sequence.

use vstd::prelude::*;
use vstd::string::StrSliceExecFns;

verus! {

/// One of the eight atomic operations of the source language, tagged with no
/// payload: an instruction is exactly its variant.
#[derive(Clone, Copy, Debug, PartialEq, Eq, Structural)]
pub enum Instruction {
    /// `+`: increment the byte at the cursor.
    IncrementCell,
    /// `-`: decrement the byte at the cursor.
    DecrementCell,
    /// `>`: advance the cursor one cell.
    MoveCursorForward,
    /// `<`: retreat the cursor one cell.
    MoveCursorBackward,
    /// `,`: read one byte of input into the cell at the cursor.
    ReadInput,
    /// `.`: write the byte at the cursor to output.
    WriteOutput,
    /// `[`: begin a conditional loop keyed on the cell at the cursor.
    LoopStart,
    /// `]`: end the innermost open conditional loop.
    LoopEnd,
}

/// The eight command characters. Every other character is a comment and is
/// discarded by the scanner.
pub open spec fn is_command(c: char) -> bool {
    c == '+' || c == '-' || c == '>' || c == '<' || c == ',' || c == '.' || c == '[' || c == ']'
}

/// The instruction that a command character denotes.
pub open spec fn instruction_of(c: char) -> Instruction
    recommends
        is_command(c),
{
    if c == '+' {
        Instruction::IncrementCell
    } else if c == '-' {
        Instruction::DecrementCell
    } else if c == '>' {
        Instruction::MoveCursorForward
    } else if c == '<' {
        Instruction::MoveCursorBackward
    } else if c == ',' {
        Instruction::ReadInput
    } else if c == '.' {
        Instruction::WriteOutput
    } else if c == '[' {
        Instruction::LoopStart
    } else {
        Instruction::LoopEnd
    }
}

/// The instruction sequence that a source text denotes: the instructions of
/// its command characters, in source order, with every comment character
/// contributing nothing.
pub open spec fn scan_spec(s: Seq<char>) -> Seq<Instruction>
    decreases s.len(),
{
    if s.len() == 0 {
        Seq::empty()
    } else if is_command(s.last()) {
        scan_spec(s.drop_last()).push(instruction_of(s.last()))
    } else {
        scan_spec(s.drop_last())
    }
}

/// Scanning never yields more instructions than the source has characters:
/// each character contributes at most one instruction.
pub proof fn lemma_scan_len(s: Seq<char>)
    ensures
        scan_spec(s).len() <= s.len(),
    decreases s.len(),
{
    if s.len() != 0 {
        lemma_scan_len(s.drop_last());
    }
}

/// A source text with no command character at all scans to the empty
/// instruction sequence: arbitrary prose is one long comment.
pub proof fn lemma_scan_all_comments(s: Seq<char>)
    requires
        forall|i: int| 0 <= i < s.len() ==> !is_command(s[i]),
    ensures
        scan_spec(s) == Seq::<Instruction>::empty(),
    decreases s.len(),
{
    if s.len() != 0 {
        assert(forall|i: int| 0 <= i < s.drop_last().len() ==> !is_command(#[trigger] s.drop_last()[i]));
        lemma_scan_all_comments(s.drop_last());
        assert(!is_command(s.last()));
    }
}

/// Scanning distributes over concatenation of source texts: the instructions
/// of `a + b` are the instructions of `a` followed by those of `b`. Relative
/// order is therefore preserved: a command character left of another in the
/// source yields an instruction left of the other's in the output.
pub proof fn lemma_scan_append(a: Seq<char>, b: Seq<char>)
    ensures
        scan_spec(a + b) == scan_spec(a) + scan_spec(b),
    decreases b.len(),
{
    if b.len() == 0 {
        assert(a + b =~= a);
        assert(scan_spec(a) + scan_spec(b) =~= scan_spec(a));
    } else {
        lemma_scan_append(a, b.drop_last());
        assert((a + b).drop_last() =~= a + b.drop_last());
        assert((a + b).last() == b.last());
        if is_command(b.last()) {
            assert(scan_spec(a) + scan_spec(b) =~= (scan_spec(a) + scan_spec(b.drop_last())).push(
                instruction_of(b.last()),
            ));
        }
    }
}

/// Scanning is exactly order- and multiplicity-preserving: the scanned
/// sequence is the source's command characters, kept in source order, each
/// mapped to its instruction.
pub proof fn lemma_scan_is_filter_map(s: Seq<char>)
    ensures
        scan_spec(s) == s.filter(|c: char| is_command(c)).map_values(
            |c: char| instruction_of(c),
        ),
    decreases s.len(),
{
    reveal_with_fuel(Seq::filter, 2);
    if s.len() != 0 {
        lemma_scan_is_filter_map(s.drop_last());
        let kept = s.drop_last().filter(|c: char| is_command(c));
        if is_command(s.last()) {
            assert(s.filter(|c: char| is_command(c)) == kept.push(s.last()));
            assert(kept.push(s.last()).map_values(|c: char| instruction_of(c)) =~= kept.map_values(
                |c: char| instruction_of(c),
            ).push(instruction_of(s.last())));
        }
    }
}

/// How often a character occurs in a source text.
pub open spec fn count_char(s: Seq<char>, c: char) -> nat {
    s.filter(|x: char| x == c).len()
}

/// How often an instruction occurs in an instruction sequence.
pub open spec fn count_instruction(instructions: Seq<Instruction>, instruction: Instruction) -> nat {
    instructions.filter(|x: Instruction| x == instruction).len()
}

/// Scanning preserves multiplicity: each command character occurs in the
/// source exactly as often as its instruction occurs in the scanned sequence.
pub proof fn lemma_scan_counts(s: Seq<char>, c: char)
    requires
        is_command(c),
    ensures
        count_instruction(scan_spec(s), instruction_of(c)) == count_char(s, c),
    decreases s.len(),
{
    reveal_with_fuel(Seq::filter, 2);
    if s.len() != 0 {
        lemma_scan_counts(s.drop_last(), c);
        if is_command(s.last()) {
            let pushed = scan_spec(s.drop_last()).push(instruction_of(s.last()));
            assert(pushed.drop_last() =~= scan_spec(s.drop_last()));
            assert(pushed.last() == instruction_of(s.last()));
            assert(instruction_of(s.last()) == instruction_of(c) <==> s.last() == c);
        }
    }
}

/// Inserting a non-command character anywhere in a source text never changes
/// the scanned instruction sequence: comments are invisible to the scanner.
pub proof fn lemma_scan_insert_comment(s: Seq<char>, i: int, c: char)
    requires
        0 <= i <= s.len(),
        !is_command(c),
    ensures
        scan_spec(s.insert(i, c)) == scan_spec(s),
{
    assert(s.insert(i, c) =~= s.take(i) + (seq![c] + s.skip(i)));
    assert(s =~= s.take(i) + s.skip(i));
    lemma_scan_append(s.take(i), seq![c] + s.skip(i));
    lemma_scan_append(seq![c], s.skip(i));
    lemma_scan_append(s.take(i), s.skip(i));
    reveal_with_fuel(scan_spec, 2);
    assert(seq![c].drop_last() =~= Seq::<char>::empty());
    assert(seq![c].last() == c);
    assert(scan_spec(seq![c]) =~= Seq::<Instruction>::empty());
    assert(scan_spec(seq![c]) + scan_spec(s.skip(i)) =~= scan_spec(s.skip(i)));
}

/// Reduce a source text to its instruction sequence. Total: every character
/// either maps to one instruction or is silently discarded, so no input is
/// ever rejected.
pub fn scan(source: &str) -> (instructions: Vec<Instruction>)
    ensures
        instructions@ == scan_spec(source@),
{
    let len = source.unicode_len();
    let mut instructions: Vec<Instruction> = Vec::new();
    let mut i: usize = 0;
    while i < len
        invariant
            i <= len,
            len == source@.len(),
            instructions@ == scan_spec(source@.take(i as int)),
        decreases len - i,
    {
        let c = source.get_char(i);
        proof {
            assert(source@.take(i + 1).drop_last() =~= source@.take(i as int));
            assert(source@.take(i + 1).last() == c);
        }
        match c {
            '+' => instructions.push(Instruction::IncrementCell),
            '-' => instructions.push(Instruction::DecrementCell),
            '>' => instructions.push(Instruction::MoveCursorForward),
            '<' => instructions.push(Instruction::MoveCursorBackward),
            ',' => instructions.push(Instruction::ReadInput),
            '.' => instructions.push(Instruction::WriteOutput),
            '[' => instructions.push(Instruction::LoopStart),
            ']' => instructions.push(Instruction::LoopEnd),
            _ => {},
        }
        i = i + 1;
    }
    proof {
        assert(source@.take(len as int) =~= source@);
    }
    instructions
}

} // verus!
