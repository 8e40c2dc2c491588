use bruteforcer::abstract_instructions::eight::EightInstruction;
use bruteforcer::abstract_instructions::four::FourInstruction;
use bruteforcer::abstract_instructions::single::SingleInstruction;
use bruteforcer::abstract_instructions::InstructionBlock;
use bruteforcer::optimize::PermutationError;
use bruteforcer::optimize::ShiftMask;

#[test]
fn test_canonical_permute() {
    let mask = ShiftMask::new(vec![3, 2, 1, 0]);
    assert_eq!(
        vec![4, 3, 2, 1],
        mask.permute_array_by_mask(&vec![1, 2, 3, 4])
    )
}

#[test]
fn test_self_permute() {
    let mut tmp_vec: Vec<SingleInstruction> = vec![];

    assert_eq!(
        true,
        ShiftMask::chunk_self_permutes(
            &mut tmp_vec,
            &vec![
                InstructionBlock::Single(SingleInstruction::new(0, 30)),
                InstructionBlock::Single(SingleInstruction::new(1, 29)),
                InstructionBlock::Single(SingleInstruction::new(2, 28)),
                InstructionBlock::Single(SingleInstruction::new(3, 27)),
            ],
            4
        )
    );

    assert_eq!(
        true,
        ShiftMask::chunk_self_permutes(
            &mut tmp_vec,
            &vec![
                InstructionBlock::Single(SingleInstruction::new(4, 1)),
                InstructionBlock::Four(FourInstruction::new(
                    SingleInstruction::new(0, 0),
                    SingleInstruction::new(1, 7),
                    SingleInstruction::new(2, 6),
                    SingleInstruction::new(3, 4),
                )),
                InstructionBlock::Single(SingleInstruction::new(5, 3)),
                InstructionBlock::Single(SingleInstruction::new(6, 2)),
                InstructionBlock::Single(SingleInstruction::new(7, 5)),
            ],
            8
        )
    );
}

#[test]
fn test_dp() {
    let mask = ShiftMask::new(vec![1, 2, 3, 0, 4, 7, 5, 6, 8]);
    assert_eq!(
        mask.optimize_to_blocks(255),
        vec![
            InstructionBlock::Eight(EightInstruction::new(
                FourInstruction::new(
                    SingleInstruction::new(0, 1),
                    SingleInstruction::new(1, 2),
                    SingleInstruction::new(2, 3),
                    SingleInstruction::new(3, 0),
                ),
                FourInstruction::new(
                    SingleInstruction::new(4, 4),
                    SingleInstruction::new(5, 7),
                    SingleInstruction::new(6, 5),
                    SingleInstruction::new(7, 6),
                ),
            )),
            InstructionBlock::Single(SingleInstruction::new(8, 8))
        ]
    );
}

#[test]
fn test_self_permute_rejects_gapped_sources() {
    let mut tmp_vec: Vec<SingleInstruction> = vec![];
    assert_eq!(
        false,
        ShiftMask::chunk_self_permutes(
            &mut tmp_vec,
            &vec![
                InstructionBlock::Single(SingleInstruction::new(0, 3)),
                InstructionBlock::Single(SingleInstruction::new(1, 2)),
                InstructionBlock::Single(SingleInstruction::new(2, 1)),
                InstructionBlock::Single(SingleInstruction::new(4, 0)),
            ],
            4
        )
    );
    assert_eq!(
        false,
        ShiftMask::chunk_self_permutes(
            &mut tmp_vec,
            &vec![
                InstructionBlock::Single(SingleInstruction::new(0, 9)),
                InstructionBlock::Single(SingleInstruction::new(1, 2)),
                InstructionBlock::Single(SingleInstruction::new(2, 1)),
                InstructionBlock::Single(SingleInstruction::new(3, 0)),
            ],
            4
        )
    );
    assert_eq!(tmp_vec.len(), 4);
}

#[test]
fn test_optimize_flattens_back_to_mask() {
    let values = vec![2u32, 0, 1, 5, 3, 4, 7, 6];
    let mask = ShiftMask::new(values.clone());
    let blocks = mask.optimize_to_blocks(255);
    let mut elems: Vec<SingleInstruction> = vec![];
    for block in blocks.iter() {
        elems.append(&mut block.flatten());
    }
    assert_eq!(elems.len(), values.len());
    for (i, elem) in elems.iter().enumerate() {
        assert_eq!(elem.index, i as u32);
        assert_eq!(elem.value, values[i]);
    }
}

#[test]
fn test_optimize_merges_width_four_run() {
    let mask = ShiftMask::new(vec![1, 0, 3, 2, 4]);
    assert_eq!(
        mask.optimize_to_blocks(255),
        vec![
            InstructionBlock::Four(FourInstruction::new(
                SingleInstruction::new(0, 1),
                SingleInstruction::new(1, 0),
                SingleInstruction::new(2, 3),
                SingleInstruction::new(3, 2),
            )),
            InstructionBlock::Single(SingleInstruction::new(4, 4))
        ]
    );
}

#[test]
fn test_optimize_width_limit_keeps_singles() {
    let mask = ShiftMask::new(vec![1, 0, 3, 2]);
    assert_eq!(
        mask.optimize_to_blocks(1),
        vec![
            InstructionBlock::Single(SingleInstruction::new(0, 1)),
            InstructionBlock::Single(SingleInstruction::new(1, 0)),
            InstructionBlock::Single(SingleInstruction::new(2, 3)),
            InstructionBlock::Single(SingleInstruction::new(3, 2)),
        ]
    );
}

#[test]
fn test_validate_accepts_permutation() {
    let mask = ShiftMask::new(vec![1, 0, 2]);
    assert_eq!(mask.validate(), Ok(()));
    let empty = ShiftMask::new(vec![]);
    assert_eq!(empty.validate(), Ok(()));
}

#[test]
fn test_validate_rejects_out_of_range() {
    let mask = ShiftMask::new(vec![5, 1]);
    assert_eq!(mask.validate(), Err(PermutationError::InvalidPermutation));
}

#[test]
fn test_validate_rejects_duplicate() {
    let mask = ShiftMask::new(vec![0, 0]);
    assert_eq!(mask.validate(), Err(PermutationError::InvalidPermutation));
}

#[test]
fn test_new_random_is_permutation() {
    let mask = ShiftMask::new_random(40);
    assert_eq!(mask.len(), 40);
    assert_eq!(mask.validate(), Ok(()));
}

#[test]
fn test_to_text() {
    assert_eq!(ShiftMask::new(vec![1, 22, 3]).to_text(), "1,22,3");
    assert_eq!(ShiftMask::new(vec![10]).to_text(), "10");
    assert_eq!(ShiftMask::new(vec![]).to_text(), "");
}

#[test]
fn test_block_round_trip() {
    let four = FourInstruction::new(
        SingleInstruction::new(4, 4),
        SingleInstruction::new(5, 7),
        SingleInstruction::new(6, 5),
        SingleInstruction::new(7, 6),
    );
    let flattened = InstructionBlock::Four(four).flatten();
    let rebuilt = FourInstruction::new_from_instr(
        flattened
            .iter()
            .map(|s| InstructionBlock::Single(*s))
            .collect(),
    );
    assert_eq!(rebuilt, Some(four));

    let eight = EightInstruction::new(
        FourInstruction::new(
            SingleInstruction::new(0, 1),
            SingleInstruction::new(1, 2),
            SingleInstruction::new(2, 3),
            SingleInstruction::new(3, 0),
        ),
        four,
    );
    let flattened = InstructionBlock::Eight(eight).flatten();
    let rebuilt = EightInstruction::new_from_instr(
        flattened
            .iter()
            .map(|s| InstructionBlock::Single(*s))
            .collect(),
    );
    assert_eq!(rebuilt, Some(eight));
}

#[test]
fn test_new_from_instr_rejects_wrong_shape() {
    let four = FourInstruction::new(
        SingleInstruction::new(0, 0),
        SingleInstruction::new(1, 1),
        SingleInstruction::new(2, 2),
        SingleInstruction::new(3, 3),
    );
    assert_eq!(
        FourInstruction::new_from_instr(vec![InstructionBlock::Four(four)]),
        None
    );
    assert_eq!(
        EightInstruction::new_from_instr(vec![InstructionBlock::Four(four)]),
        None
    );
    assert_eq!(
        EightInstruction::new_from_instr(vec![
            InstructionBlock::Four(four),
            InstructionBlock::Four(four)
        ])
        .is_some(),
        true
    );
}
