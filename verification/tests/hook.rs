use cheese::mem::hook::{
    determine_hook_length, ensure_no_relative_addr, hook_length_from, jmp_bytes, trampoline_bytes,
    DecodedInsn, HookError, OperandKind, X86Disassembler, JMP_SIZE, X86_MAX_FUNCTION_SIZE,
};

fn insn(len: usize, ops: Vec<OperandKind>) -> DecodedInsn {
    DecodedInsn { len, operands: Ok(ops) }
}

#[test]
fn jmp_bytes_encode_absolute_jump() {
    let b = jmp_bytes(0x1122_3344_5566_7788, 12);
    assert_eq!(
        b,
        vec![0x48, 0xB8, 0x88, 0x77, 0x66, 0x55, 0x44, 0x33, 0x22, 0x11, 0xFF, 0xE0]
    );
}

#[test]
fn jmp_bytes_pad_with_nops_and_never_shorten() {
    let b = jmp_bytes(1, 15);
    assert_eq!(b.len(), 15);
    assert_eq!(&b[12..], &[0x90, 0x90, 0x90]);
    let b = jmp_bytes(1, 5);
    assert_eq!(b.len(), JMP_SIZE);
    assert_eq!(u64::from_le_bytes(b[2..10].try_into().unwrap()), 1);
}

#[test]
fn trampoline_is_stolen_bytes_then_jump_back() {
    let t = trampoline_bytes(&[0x55, 0x48, 0x89, 0xE5], 0x4000);
    assert_eq!(t.len(), 4 + JMP_SIZE);
    assert_eq!(&t[..4], &[0x55, 0x48, 0x89, 0xE5]);
    assert_eq!(&t[4..], jmp_bytes(0x4000, JMP_SIZE).as_slice());
}

#[test]
fn hook_length_takes_whole_instructions() {
    let insns = vec![
        insn(1, vec![OperandKind::Register]),
        insn(3, vec![OperandKind::Register, OperandKind::Register]),
        insn(4, vec![]),
        insn(5, vec![OperandKind::Register]),
        insn(2, vec![]),
    ];
    assert_eq!(hook_length_from(&insns).unwrap(), 13);
    assert_eq!(hook_length_from(&insns[..2]).unwrap(), 4);
    assert_eq!(hook_length_from(&[]).unwrap(), 0);
}

#[test]
fn hook_length_rejects_relative_operands_anywhere() {
    let insns = vec![
        insn(12, vec![OperandKind::Register]),
        insn(3, vec![OperandKind::Register, OperandKind::Immediate]),
    ];
    assert!(matches!(hook_length_from(&insns), Err(HookError::Relative)));
    assert!(matches!(ensure_no_relative_addr(&insns), Err(HookError::Relative)));
    let insns = vec![insn(2, vec![OperandKind::Memory])];
    assert!(matches!(ensure_no_relative_addr(&insns), Err(HookError::Relative)));
}

#[test]
fn hook_length_reports_first_detail_error() {
    let insns = vec![
        insn(2, vec![]),
        DecodedInsn { len: 2, operands: Err(capstone::Error::DetailOff) },
        insn(2, vec![OperandKind::Immediate]),
    ];
    assert!(matches!(hook_length_from(&insns), Err(HookError::Capstone(capstone::Error::DetailOff))));
}

#[test]
fn disassembler_decodes_x86_64() {
    let cs = X86Disassembler::new().unwrap();
    // push rbp; mov rbp, rsp; push rbx
    let v = cs.disassemble(&[0x55, 0x48, 0x89, 0xE5, 0x53], 0x1000).unwrap();
    assert_eq!(v.iter().map(|i| i.len).collect::<Vec<_>>(), vec![1, 3, 1]);
    assert!(v.iter().all(|i| i.operands.as_ref().unwrap().iter().all(|o| matches!(o, OperandKind::Register))));
    // mov eax, 1
    let v = cs.disassemble(&[0xB8, 0x01, 0, 0, 0], 0).unwrap();
    assert!(v[0].operands.as_ref().unwrap().iter().any(|o| matches!(o, OperandKind::Immediate)));
}

#[test]
fn determine_hook_length_on_real_code() {
    let code = [0x90u8; JMP_SIZE + X86_MAX_FUNCTION_SIZE];
    assert_eq!(determine_hook_length(&code, 0x7000).unwrap(), 12);
    let mut code = vec![0x55u8, 0x48, 0x89, 0xE5];
    code.extend(std::iter::repeat(0x53u8).take(23));
    assert_eq!(determine_hook_length(&code, 0x7000).unwrap(), 12);
    let mut code = vec![0x48u8, 0x8B, 0x05, 0x10, 0, 0, 0];
    code.extend(std::iter::repeat(0x90u8).take(20));
    assert!(matches!(determine_hook_length(&code, 0x7000), Err(HookError::Relative)));
}

#[test]
fn disassembler_builds() {
    assert!(X86Disassembler::new().is_ok());
}
