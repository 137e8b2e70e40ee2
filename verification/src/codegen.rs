//! Code generation: from an instruction sequence to a complete C program.

use vstd::prelude::*;
use vstd::string::StringExecFns;
use crate::scanner::{is_command, scan_spec, Instruction};

verus! {

/// The fixed text emitted once before any instruction fragment: a
/// zero-initialized tape of 20000 byte cells and a cursor at its first cell.
pub open spec fn prologue() -> Seq<char> {
    "#include \"stdio.h\"\nint main()\n{\nchar tape[20000] = {0};\nchar *ptr = tape;\n\n"@
}

/// The fixed text emitted once after the last instruction fragment, closing
/// the program body.
pub open spec fn epilogue() -> Seq<char> {
    "}\n"@
}

/// The fixed code fragment emitted for one instruction. Loop instructions map
/// to a bare block open and block close: nothing counts or matches them, so
/// an unbalanced sequence yields unbalanced braces in the output.
pub open spec fn fragment(instruction: Instruction) -> Seq<char> {
    match instruction {
        Instruction::IncrementCell => "++*ptr;\n"@,
        Instruction::DecrementCell => "--*ptr;\n"@,
        Instruction::MoveCursorForward => "++ptr;\n"@,
        Instruction::MoveCursorBackward => "--ptr;\n"@,
        Instruction::ReadInput => "*ptr=getchar();\n"@,
        Instruction::WriteOutput => "putchar(*ptr);\n"@,
        Instruction::LoopStart => "while (*ptr) {\n"@,
        Instruction::LoopEnd => "}\n"@,
    }
}

/// The instruction-fragment region of the generated program: one fragment per
/// instruction, concatenated in sequence order.
pub open spec fn body_text(instructions: Seq<Instruction>) -> Seq<char>
    decreases instructions.len(),
{
    if instructions.len() == 0 {
        Seq::empty()
    } else {
        body_text(instructions.drop_last()) + fragment(instructions.last())
    }
}

/// The complete generated program: prologue, then the fragment of each
/// instruction in order, then epilogue.
pub open spec fn generated_program(instructions: Seq<Instruction>) -> Seq<char> {
    prologue() + body_text(instructions) + epilogue()
}

/// Code generation is structurally compositional: the fragment region of a
/// concatenation of instruction sequences is the concatenation of their
/// fragment regions, so prologue and epilogue appear only once, at the ends
/// of the complete program.
pub proof fn lemma_body_text_append(a: Seq<Instruction>, b: Seq<Instruction>)
    ensures
        body_text(a + b) == body_text(a) + body_text(b),
    decreases b.len(),
{
    if b.len() == 0 {
        assert(a + b =~= a);
        assert(body_text(a) + body_text(b) =~= body_text(a));
    } else {
        lemma_body_text_append(a, b.drop_last());
        assert((a + b).drop_last() =~= a + b.drop_last());
        assert((a + b).last() == b.last());
        assert(body_text(a) + body_text(b) =~= (body_text(a) + body_text(b.drop_last()))
            + fragment(b.last()));
    }
}

/// A source text with no command character generates exactly the fixed
/// prologue concatenated with the fixed epilogue: it scans to the empty
/// instruction sequence, whose fragment region is empty.
pub proof fn lemma_comments_generate_fixed_text(s: Seq<char>)
    requires
        forall|i: int| 0 <= i < s.len() ==> !is_command(s[i]),
    ensures
        scan_spec(s) == Seq::<Instruction>::empty(),
        generated_program(scan_spec(s)) == prologue() + epilogue(),
{
    crate::scanner::lemma_scan_all_comments(s);
    assert(generated_program(Seq::<Instruction>::empty()) =~= prologue() + epilogue());
}

/// Emit a complete C program for an instruction sequence. Total: any
/// sequence is accepted, including an empty or unbalanced one; an unbalanced
/// sequence produces structurally invalid C text, by design, detectable only
/// by the downstream C compiler.
pub fn generate(instructions: &Vec<Instruction>) -> (program: String)
    ensures
        program@ == generated_program(instructions@),
{
    let mut program = String::new();
    program.append("#include \"stdio.h\"\nint main()\n{\nchar tape[20000] = {0};\nchar *ptr = tape;\n\n");
    let mut i: usize = 0;
    while i < instructions.len()
        invariant
            i <= instructions@.len(),
            program@ == prologue() + body_text(instructions@.take(i as int)),
        decreases instructions@.len() - i,
    {
        match instructions[i] {
            Instruction::IncrementCell => program.append("++*ptr;\n"),
            Instruction::DecrementCell => program.append("--*ptr;\n"),
            Instruction::MoveCursorForward => program.append("++ptr;\n"),
            Instruction::MoveCursorBackward => program.append("--ptr;\n"),
            Instruction::ReadInput => program.append("*ptr=getchar();\n"),
            Instruction::WriteOutput => program.append("putchar(*ptr);\n"),
            Instruction::LoopStart => program.append("while (*ptr) {\n"),
            Instruction::LoopEnd => program.append("}\n"),
        }
        proof {
            assert(instructions@.take(i + 1).drop_last() =~= instructions@.take(i as int));
            assert(instructions@.take(i + 1).last() == instructions@[i as int]);
        }
        i = i + 1;
    }
    proof {
        assert(instructions@.take(instructions@.len() as int) =~= instructions@);
    }
    program.append("}\n");
    program
}

} // verus!
