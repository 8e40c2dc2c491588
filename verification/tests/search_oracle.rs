use bruteforcer::abstract_instructions::four::FourInstruction;
use bruteforcer::abstract_instructions::single::SingleInstruction;
use bruteforcer::abstract_instructions::InstructionBlock;
use bruteforcer::oracle::canonical_input;
use bruteforcer::oracle::is_correct_output;
use bruteforcer::optimize::ShiftMask;
use bruteforcer::search::assemble_program;
use bruteforcer::search::candidate_programs;

#[test]
fn test_canonical_input() {
    assert_eq!(canonical_input(4), vec![1, 2, 3, 4]);
    assert_eq!(canonical_input(0), Vec::<u32>::new());
}

#[test]
fn test_oracle_rejects_untouched_output() {
    // A program that only returns leaves the destination buffer
    // zero-filled, while the swap mask expects the reversed input.
    let mask = ShiftMask::new(vec![1, 0]);
    assert_eq!(is_correct_output(&mask, &vec![0, 0]), false);
}

#[test]
fn test_oracle_accepts_reference_output() {
    let mask = ShiftMask::new(vec![1, 0]);
    assert_eq!(is_correct_output(&mask, &vec![2, 1]), true);
    assert_eq!(is_correct_output(&mask, &vec![2, 1, 0]), false);
}

#[test]
fn test_assemble_program_framing() {
    let blocks = vec![InstructionBlock::Single(SingleInstruction::new(0, 0))];
    // timestamp read, block bytes (none yet), timestamp read, return
    assert_eq!(
        assemble_program(&blocks),
        vec![0x0f, 0x31, 0x0f, 0x31, 0xc3]
    );
}

#[test]
fn test_candidate_programs_cover_all_orderings() {
    let single = InstructionBlock::Single(SingleInstruction::new(4, 4));
    let four = InstructionBlock::Four(FourInstruction::new(
        SingleInstruction::new(0, 1),
        SingleInstruction::new(1, 2),
        SingleInstruction::new(2, 3),
        SingleInstruction::new(3, 0),
    ));
    let blocks = vec![single, four];
    let candidates = candidate_programs(&blocks);
    assert_eq!(candidates.len(), 2);
    assert_eq!(candidates[0].0, vec![single, four]);
    assert_eq!(candidates[1].0, vec![four, single]);
    for (ordering, program) in candidates.iter() {
        // every explored ordering holds exactly the original blocks
        let mut sorted: Vec<u32> = ordering
            .iter()
            .flat_map(|b| b.flatten())
            .map(|e| e.index)
            .collect();
        sorted.sort();
        assert_eq!(sorted, vec![0, 1, 2, 3, 4]);
        assert_eq!(*program, vec![0x0f, 0x31, 0x0f, 0x31, 0xc3]);
    }
}
