use bf2c::scanner::{scan, Instruction};

#[test]
fn scans_all_eight_commands_in_order() {
    assert_eq!(
        scan("+-><,.[]"),
        vec![
            Instruction::IncrementCell,
            Instruction::DecrementCell,
            Instruction::MoveCursorForward,
            Instruction::MoveCursorBackward,
            Instruction::ReadInput,
            Instruction::WriteOutput,
            Instruction::LoopStart,
            Instruction::LoopEnd,
        ]
    );
}

#[test]
fn round_trip_source_scans_to_nine_instructions() {
    let instructions = scan("++>,.<[-]");
    assert_eq!(
        instructions,
        vec![
            Instruction::IncrementCell,
            Instruction::IncrementCell,
            Instruction::MoveCursorForward,
            Instruction::ReadInput,
            Instruction::WriteOutput,
            Instruction::MoveCursorBackward,
            Instruction::LoopStart,
            Instruction::DecrementCell,
            Instruction::LoopEnd,
        ]
    );
    assert_eq!(instructions.len(), 9);
}

#[test]
fn empty_source_scans_to_empty_sequence() {
    assert_eq!(scan(""), vec![]);
}

#[test]
fn prose_scans_to_empty_sequence() {
    let prose = "this whole text is a comment\nwith a second line of plain words\tand some digits 0123456789";
    assert_eq!(scan(prose), vec![]);
}

#[test]
fn output_is_never_longer_than_input() {
    let sources = ["", "++>,.<[-]", "no commands here", "a+b-c", "[[", "+-><,.[]"];
    for source in sources {
        assert!(scan(source).len() <= source.chars().count());
    }
}

#[test]
fn counts_of_commands_are_preserved() {
    let source = "set x to 3: +a+b+ then loop [ down - ] and read ,";
    let instructions = scan(source);
    let count_of = |instruction: Instruction| {
        instructions.iter().filter(|x| **x == instruction).count()
    };
    assert_eq!(count_of(Instruction::IncrementCell), source.chars().filter(|c| *c == '+').count());
    assert_eq!(count_of(Instruction::DecrementCell), source.chars().filter(|c| *c == '-').count());
    assert_eq!(count_of(Instruction::LoopStart), source.chars().filter(|c| *c == '[').count());
    assert_eq!(count_of(Instruction::LoopEnd), source.chars().filter(|c| *c == ']').count());
    assert_eq!(count_of(Instruction::ReadInput), source.chars().filter(|c| *c == ',').count());
    assert_eq!(count_of(Instruction::WriteOutput), 0);
    assert_eq!(count_of(Instruction::MoveCursorForward), 0);
    assert_eq!(count_of(Instruction::MoveCursorBackward), 0);
}

#[test]
fn inserting_comment_characters_never_changes_the_scan() {
    let base = "++[-]";
    let expected = scan(base);
    for position in 0..=base.len() {
        for noise in ['x', ' ', '\n', '#', '0'] {
            let mut noisy = String::new();
            noisy.push_str(&base[..position]);
            noisy.push(noise);
            noisy.push_str(&base[position..]);
            assert_eq!(scan(&noisy), expected);
        }
    }
}

#[test]
fn heavily_commented_source_scans_like_the_bare_one() {
    let bare = ">+<-.";
    let commented = "move right > then up + and back < down - finally print .";
    assert_eq!(scan(commented), scan(bare));
}

#[test]
fn unbalanced_source_scans_to_loop_starts_only() {
    let instructions = scan("[[");
    assert_eq!(instructions, vec![Instruction::LoopStart, Instruction::LoopStart]);
}
