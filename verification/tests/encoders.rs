use bruteforcer::abstract_instructions::eight::EightInstruction;
use bruteforcer::abstract_instructions::four::FourInstruction;
use bruteforcer::abstract_instructions::single::SingleInstruction;
use bruteforcer::abstract_instructions::InstructionBlock;
use bruteforcer::encodings::Architecture;
use bruteforcer::encodings::CEncoder;
use bruteforcer::encodings::SerializeAMD64MachineCode;
use bruteforcer::instructions_x86_64::Instruction;
use bruteforcer::instructions_x86_64::Register;

#[test]
fn test_architecture_try_from() {
    assert_eq!(
        Architecture::try_from("amd64".to_string()),
        Ok(Architecture::Amd64)
    );
    assert_eq!(
        Architecture::try_from("arm".to_string()),
        Ok(Architecture::Arm)
    );
    assert_eq!(
        Architecture::try_from("sparc".to_string()),
        Err("please provide a valid architecture".to_string())
    );
}

#[test]
fn test_single_encode_to_c() {
    let single = SingleInstruction::new(0, 5);
    assert_eq!(
        single.encode_to_c(3, Architecture::Amd64),
        "  out[5] = in[0];\n"
    );
    assert_eq!(single.encode_to_c(3, Architecture::Arm), "");
}

#[test]
fn test_four_permute_mask() {
    let four = FourInstruction::new(
        SingleInstruction::new(0, 1),
        SingleInstruction::new(1, 2),
        SingleInstruction::new(2, 3),
        SingleInstruction::new(3, 0),
    );
    assert_eq!(four.get_first_input_index(), 0);
    assert_eq!(four.get_first_output_index(), 0);
    // selectors 1, 2, 3, 0 packed two bits each: 1 + 2*4 + 3*16 + 0*64
    assert_eq!(four.get_permute_mask(), 57);

    let offset = FourInstruction::new(
        SingleInstruction::new(8, 33),
        SingleInstruction::new(9, 32),
        SingleInstruction::new(10, 35),
        SingleInstruction::new(11, 34),
    );
    assert_eq!(offset.get_first_input_index(), 8);
    assert_eq!(offset.get_first_output_index(), 32);
    // selectors 1, 0, 3, 2: 1 + 0*4 + 3*16 + 2*64
    assert_eq!(offset.get_permute_mask(), 177);
}

#[test]
fn test_four_encode_to_c() {
    let four = FourInstruction::new(
        SingleInstruction::new(0, 1),
        SingleInstruction::new(1, 2),
        SingleInstruction::new(2, 3),
        SingleInstruction::new(3, 0),
    );
    let expected = "  __m128 valin2 = _mm_maskload_ps(&in[0], quadmask);\n  \
                    __m128 valout2 = _mm_permute_ps(valin2, 57);\n  \
                    _mm_maskstore_ps(&out[0], quadmask, valout2);\n";
    assert_eq!(four.encode_to_c(2, Architecture::Amd64), expected);
    assert_eq!(four.encode_to_c(2, Architecture::Arm), "");
}

#[test]
fn test_eight_permute_mask() {
    let eight = EightInstruction::new(
        FourInstruction::new(
            SingleInstruction::new(0, 1),
            SingleInstruction::new(1, 2),
            SingleInstruction::new(2, 3),
            SingleInstruction::new(3, 0),
        ),
        FourInstruction::new(
            SingleInstruction::new(4, 4),
            SingleInstruction::new(5, 7),
            SingleInstruction::new(6, 5),
            SingleInstruction::new(7, 6),
        ),
    );
    assert_eq!(eight.get_first_output_index(), 0);
    let mask = eight.get_permute_mask();
    // lane words pack selector pairs low/high: (1, 2), (3, 0), (4, 7), (5, 6)
    assert_eq!(mask.0, 1 + (2i64 << 32));
    assert_eq!(mask.1, 3);
    assert_eq!(mask.2, 4 + (7i64 << 32));
    assert_eq!(mask.3, 5 + (6i64 << 32));
}

#[test]
fn test_eight_encode_to_c() {
    let eight = EightInstruction::new(
        FourInstruction::new(
            SingleInstruction::new(0, 1),
            SingleInstruction::new(1, 2),
            SingleInstruction::new(2, 3),
            SingleInstruction::new(3, 0),
        ),
        FourInstruction::new(
            SingleInstruction::new(4, 4),
            SingleInstruction::new(5, 7),
            SingleInstruction::new(6, 5),
            SingleInstruction::new(7, 6),
        ),
    );
    let expected = format!(
        "  __m256 valin0 = {{in[0], in[1], in[2], in[3], in[4], in[5], in[6], in[7]}};\n  \
         static const __m256i mask0 = {{{}, {}, {}, {}}};\n  \
         __m256 valout0 = _mm256_permutevar8x32_ps(valin0, mask0);\n  \
         _mm256_storeu_ps(&out[0], valout0);\n",
        1 + (2i64 << 32),
        3,
        4 + (7i64 << 32),
        5 + (6i64 << 32)
    );
    assert_eq!(eight.encode_to_c(0, Architecture::Amd64), expected);
    assert_eq!(eight.encode_to_c(0, Architecture::Arm), "");
}

#[test]
fn test_block_dispatch_and_len() {
    let single = InstructionBlock::Single(SingleInstruction::new(2, 9));
    assert_eq!(single.len(), 1);
    assert_eq!(
        single.encode_to_c(0, Architecture::Amd64),
        "  out[9] = in[2];\n"
    );
    let four = InstructionBlock::Four(FourInstruction::new(
        SingleInstruction::new(0, 0),
        SingleInstruction::new(1, 1),
        SingleInstruction::new(2, 2),
        SingleInstruction::new(3, 3),
    ));
    assert_eq!(four.len(), 4);
    let mut bytes: Vec<u8> = vec![0xaa];
    four.write_amd64_bytes(&mut bytes);
    assert_eq!(bytes, vec![0xaa]);
}

#[test]
fn test_instruction_bytes() {
    let mut program: Vec<u8> = vec![];
    Instruction::RDTSC.write_amd64_bytes(&mut program);
    Instruction::VZEROUPPER.write_amd64_bytes(&mut program);
    Instruction::RET.write_amd64_bytes(&mut program);
    assert_eq!(program, vec![0x0f, 0x31, 0xc5, 0xf8, 0x77, 0xc3]);
}

#[test]
fn test_register_bytes() {
    let mut bytes: Vec<u8> = vec![];
    Register::RAX.write_amd64_bytes(&mut bytes);
    Register::RSP.write_amd64_bytes(&mut bytes);
    assert_eq!(bytes, vec![0xc0, 0x24]);
}
