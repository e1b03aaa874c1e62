use evm_core::{evm, run, Block, Failure, Txn};
use primitive_types::U256;
use tiny_keccak::{Hasher, Keccak};

fn exec(code: &[u8]) -> evm_core::EvmResult {
    evm(code, &None, &None)
}

fn words(v: &[u64]) -> Vec<U256> {
    v.iter().map(|x| U256::from(*x)).collect()
}

fn push32(value: U256) -> Vec<u8> {
    let mut buf = [0u8; 32];
    value.to_big_endian(&mut buf);
    let mut code = vec![0x7f];
    code.extend_from_slice(&buf);
    code
}

fn max() -> U256 {
    U256::MAX
}

#[test]
fn scenario_add() {
    let r = exec(&[0x60, 1, 0x60, 2, 0x01]);
    assert!(r.success);
    assert_eq!(r.stack, words(&[3]));
}

#[test]
fn scenario_div_by_zero() {
    let r = exec(&[0x60, 0, 0x60, 1, 0x04]);
    assert!(r.success);
    assert_eq!(r.stack, words(&[0]));
}

#[test]
fn scenario_jump_to_jumpdest() {
    // PUSH1 4, JUMP, STOP, JUMPDEST, PUSH1 7: the JUMPDEST sits at byte 4.
    let r = exec(&[0x60, 4, 0x56, 0x00, 0x5b, 0x60, 7]);
    assert!(r.success);
    assert_eq!(r.stack, words(&[7]));
}

#[test]
fn scenario_jump_to_non_destination() {
    let r = exec(&[0x60, 3, 0x56, 0x00, 0x5b, 0x60, 7]);
    assert!(!r.success);
    assert_eq!(r.failure, Some(Failure::InvalidJumpDestination));
    assert_eq!(r.stack, words(&[]));
}

#[test]
fn scenario_invalid_jump_out_of_range() {
    let r = exec(&[0x60, 5, 0x56]);
    assert!(!r.success);
    assert_eq!(r.failure, Some(Failure::InvalidJumpDestination));
    assert_eq!(r.stack, words(&[]));
}

#[test]
fn scenario_keccak_of_empty_window() {
    let r = exec(&[0x60, 0, 0x60, 0, 0x20]);
    assert!(r.success);
    let expected = U256::from_str_radix(
        "c5d2460186f7233c927e7db2dcc703c0e500b653ca82273b7bfad8045d85a470",
        16,
    )
    .unwrap();
    assert_eq!(r.stack, vec![expected]);
}

#[test]
fn keccak_of_stored_word() {
    // MSTORE 0xff at 0, then KECCAK256 over the 32 bytes.
    let r = exec(&[0x60, 0xff, 0x60, 0, 0x52, 0x60, 32, 0x60, 0, 0x20]);
    assert!(r.success);
    let mut input = [0u8; 32];
    input[31] = 0xff;
    let mut hasher = Keccak::v256();
    let mut out = [0u8; 32];
    hasher.update(&input);
    hasher.finalize(&mut out);
    assert_eq!(r.stack, vec![U256::from_big_endian(&out)]);
}

#[test]
fn add_wraps_at_ceiling() {
    let mut code = vec![0x60, 1];
    code.extend(push32(max()));
    code.push(0x01);
    let r = exec(&code);
    assert!(r.success);
    assert_eq!(r.stack, words(&[0]));
}

#[test]
fn mul_wraps_at_ceiling() {
    let mut code = vec![0x60, 2];
    code.extend(push32(max()));
    code.push(0x02);
    let r = exec(&code);
    assert_eq!(r.stack, vec![max() - U256::from(1)]);
}

#[test]
fn sub_wraps_below_zero() {
    // 0 - 1
    let r = exec(&[0x60, 1, 0x60, 0, 0x03]);
    assert_eq!(r.stack, vec![max()]);
}

#[test]
fn mod_sdiv_smod_by_zero_give_zero() {
    for op in [0x06u8, 0x05, 0x07] {
        let r = exec(&[0x60, 0, 0x60, 9, op]);
        assert!(r.success);
        assert_eq!(r.stack, words(&[0]));
    }
}

#[test]
fn sdiv_truncates_toward_zero() {
    // -8 / 3 = -2
    let mut code = vec![0x60, 3];
    code.extend(push32(max() - U256::from(7)));
    code.push(0x05);
    let r = exec(&code);
    assert_eq!(r.stack, vec![max() - U256::from(1)]);
}

#[test]
fn sdiv_min_by_minus_one_wraps() {
    let min = U256::from(1) << 255;
    let mut code = push32(max());
    code.extend(push32(min));
    code.push(0x05);
    let r = exec(&code);
    assert_eq!(r.stack, vec![min]);
}

#[test]
fn smod_takes_sign_of_dividend() {
    // -8 % 3 = -2
    let mut code = vec![0x60, 3];
    code.extend(push32(max() - U256::from(7)));
    code.push(0x07);
    let r = exec(&code);
    assert_eq!(r.stack, vec![max() - U256::from(1)]);
}

#[test]
fn unsigned_div_and_mod() {
    assert_eq!(exec(&[0x60, 3, 0x60, 10, 0x04]).stack, words(&[3]));
    assert_eq!(exec(&[0x60, 3, 0x60, 10, 0x06]).stack, words(&[1]));
}

#[test]
fn addmod_uses_exact_sum() {
    // (2^256 - 1 + 2) mod 3 = 2, where a wrapped sum would give 1.
    let mut code = vec![0x60, 3, 0x60, 2];
    code.extend(push32(max()));
    code.push(0x08);
    let r = exec(&code);
    assert_eq!(r.stack, words(&[2]));
}

#[test]
fn addmod_max_plus_one_mod_three() {
    let mut code = vec![0x60, 3, 0x60, 1];
    code.extend(push32(max()));
    code.push(0x08);
    let r = exec(&code);
    assert!(r.success);
    assert_eq!(r.stack, words(&[1]));
}

#[test]
fn mulmod_uses_exact_product() {
    let mut code = vec![0x60, 12];
    code.extend(push32(max()));
    code.extend(push32(max()));
    code.push(0x09);
    let r = exec(&code);
    assert_eq!(r.stack, words(&[9]));
}

#[test]
fn addmod_mulmod_by_zero() {
    assert_eq!(exec(&[0x60, 0, 0x60, 2, 0x60, 3, 0x08]).stack, words(&[0]));
    assert_eq!(exec(&[0x60, 0, 0x60, 2, 0x60, 3, 0x09]).stack, words(&[0]));
}

#[test]
fn exp_values() {
    // 2 ^ 10
    assert_eq!(exec(&[0x60, 10, 0x60, 2, 0x0a]).stack, words(&[1024]));
    // 0 ^ 0
    assert_eq!(exec(&[0x60, 0, 0x60, 0, 0x0a]).stack, words(&[1]));
    // 2 ^ 256 wraps to 0
    assert_eq!(exec(&[0x61, 1, 0, 0x60, 2, 0x0a]).stack, words(&[0]));
}

#[test]
fn signextend_from_low_byte() {
    let r = exec(&[0x60, 0xff, 0x60, 0, 0x0b]);
    assert_eq!(r.stack, vec![max()]);
    let r = exec(&[0x60, 0x7f, 0x60, 0, 0x0b]);
    assert_eq!(r.stack, words(&[0x7f]));
}

#[test]
fn signextend_index_31_is_noop() {
    let r = exec(&[0x60, 0xff, 0x60, 31, 0x0b]);
    assert_eq!(r.stack, words(&[0xff]));
    let r = exec(&[0x60, 0xff, 0x60, 200, 0x0b]);
    assert_eq!(r.stack, words(&[0xff]));
}

#[test]
fn comparisons() {
    assert_eq!(exec(&[0x60, 2, 0x60, 1, 0x10]).stack, words(&[1]));
    assert_eq!(exec(&[0x60, 2, 0x60, 1, 0x11]).stack, words(&[0]));
    assert_eq!(exec(&[0x60, 2, 0x60, 2, 0x14]).stack, words(&[1]));
    assert_eq!(exec(&[0x60, 0, 0x15]).stack, words(&[1]));
    assert_eq!(exec(&[0x60, 5, 0x15]).stack, words(&[0]));
    // -1 < 1 signed, but not unsigned
    let mut code = vec![0x60, 1];
    code.extend(push32(max()));
    code.push(0x12);
    assert_eq!(exec(&code).stack, words(&[1]));
    let mut code = vec![0x60, 1];
    code.extend(push32(max()));
    code.push(0x13);
    assert_eq!(exec(&code).stack, words(&[0]));
    let mut code = vec![0x60, 1];
    code.extend(push32(max()));
    code.push(0x10);
    assert_eq!(exec(&code).stack, words(&[0]));
}

#[test]
fn bitwise() {
    assert_eq!(exec(&[0x60, 0x0f, 0x60, 0x3c, 0x16]).stack, words(&[0x0c]));
    assert_eq!(exec(&[0x60, 0x0f, 0x60, 0x30, 0x17]).stack, words(&[0x3f]));
    assert_eq!(exec(&[0x60, 0x0f, 0x60, 0x3c, 0x18]).stack, words(&[0x33]));
    assert_eq!(exec(&[0x60, 0, 0x19]).stack, vec![max()]);
}

#[test]
fn byte_picks_from_most_significant() {
    assert_eq!(exec(&[0x61, 0x12, 0x34, 0x60, 31, 0x1a]).stack, words(&[0x34]));
    assert_eq!(exec(&[0x61, 0x12, 0x34, 0x60, 30, 0x1a]).stack, words(&[0x12]));
    assert_eq!(exec(&[0x61, 0x12, 0x34, 0x60, 32, 0x1a]).stack, words(&[0]));
}

#[test]
fn shifts() {
    assert_eq!(exec(&[0x60, 1, 0x60, 4, 0x1b]).stack, words(&[16]));
    assert_eq!(exec(&[0x60, 0xff, 0x60, 4, 0x1c]).stack, words(&[0x0f]));
    assert_eq!(exec(&[0x60, 1, 0x61, 1, 0, 0x1b]).stack, words(&[0]));
    assert_eq!(exec(&[0x60, 1, 0x61, 1, 0, 0x1c]).stack, words(&[0]));
}

#[test]
fn sar_large_shift() {
    let mut code = push32(U256::from(1) << 255);
    code.extend([0x61, 1, 0]);
    code.push(0x1d);
    assert_eq!(exec(&code).stack, vec![max()]);
    let r = exec(&[0x60, 0x7f, 0x61, 1, 0, 0x1d]);
    assert_eq!(r.stack, words(&[0]));
}

#[test]
fn sar_rounds_down() {
    // -16 >> 4 = -1 ; -17 >> 4 = -2 ; 16 >> 4 = 1
    let mut code = push32(max() - U256::from(15));
    code.extend([0x60, 4, 0x1d]);
    assert_eq!(exec(&code).stack, vec![max()]);
    let mut code = push32(max() - U256::from(16));
    code.extend([0x60, 4, 0x1d]);
    assert_eq!(exec(&code).stack, vec![max() - U256::from(1)]);
    assert_eq!(exec(&[0x60, 16, 0x60, 4, 0x1d]).stack, words(&[1]));
}

#[test]
fn jump_into_push_data_fails() {
    // PUSH1 0x5b holds the JUMPDEST value at byte 1, inside its data.
    let r = exec(&[0x60, 0x5b, 0x60, 1, 0x56]);
    assert!(!r.success);
    assert_eq!(r.failure, Some(Failure::InvalidJumpDestination));
    assert_eq!(r.stack, words(&[0x5b]));
    // byte 4 holds 0x5b as the immediate of the PUSH1 at offset 3
    let r = exec(&[0x60, 0x04, 0x56, 0x60, 0x5b, 0x60, 0xff]);
    assert!(!r.success);
    assert_eq!(r.failure, Some(Failure::InvalidJumpDestination));
    assert_eq!(r.stack, words(&[]));
}

#[test]
fn failed_jumpi_pops_both_operands() {
    let r = exec(&[0x60, 9, 0x60, 1, 0x60, 3, 0x57]);
    assert!(!r.success);
    assert_eq!(r.failure, Some(Failure::InvalidJumpDestination));
    assert_eq!(r.stack, words(&[9]));
}

#[test]
fn jumpi_taken_and_not_taken() {
    // cond 1: jump to 6 (JUMPDEST), push 9
    let r = exec(&[0x60, 1, 0x60, 6, 0x57, 0x00, 0x5b, 0x60, 9]);
    assert_eq!(r.stack, words(&[9]));
    assert!(r.success);
    // cond 0: fall through to STOP
    let r = exec(&[0x60, 0, 0x60, 6, 0x57, 0x00, 0x5b, 0x60, 9]);
    assert!(r.success);
    assert_eq!(r.stack, words(&[]));
}

#[test]
fn memory_grows_to_32_byte_boundary() {
    let r = exec(&[0x60, 0xab, 0x60, 5, 0x53, 0x59]);
    assert_eq!(r.stack, words(&[32]));
    let r = exec(&[0x60, 5, 0x51, 0x50, 0x59]);
    assert_eq!(r.stack, words(&[64]));
}

#[test]
fn mstore_then_mload() {
    let r = exec(&[0x61, 0x12, 0x34, 0x60, 0, 0x52, 0x60, 0, 0x51]);
    assert_eq!(r.stack, words(&[0x1234]));
    // the low byte of the word sits at offset 31
    let r = exec(&[0x61, 0x12, 0x34, 0x60, 0, 0x52, 0x60, 1, 0x51]);
    assert_eq!(r.stack, vec![U256::from(0x1234) << 8]);
}

#[test]
fn mstore8_writes_low_byte() {
    let r = exec(&[0x61, 0x12, 0x34, 0x60, 0, 0x53, 0x60, 0, 0x51]);
    assert_eq!(r.stack, vec![U256::from(0x34) << 248]);
}

#[test]
fn memory_limit() {
    let r = exec(&[0x63, 0xff, 0xff, 0xff, 0xff, 0x51]);
    assert_eq!(r.failure, Some(Failure::MemoryLimitExceeded));
}

#[test]
fn push_pads_missing_bytes() {
    let r = exec(&[0x61, 0x12]);
    assert!(r.success);
    assert_eq!(r.stack, words(&[0x1200]));
}

#[test]
fn stack_ops() {
    // DUP2 of [1, 2] (2 on top) copies 1
    assert_eq!(exec(&[0x60, 1, 0x60, 2, 0x81]).stack, words(&[1, 2, 1]));
    // SWAP1
    assert_eq!(exec(&[0x60, 1, 0x60, 2, 0x90]).stack, words(&[1, 2]));
    // POP
    assert_eq!(exec(&[0x60, 1, 0x60, 2, 0x50]).stack, words(&[1]));
    // PUSH0
    assert_eq!(exec(&[0x5f]).stack, words(&[0]));
}

#[test]
fn pc_and_gas() {
    assert_eq!(exec(&[0x60, 0, 0x58]).stack, words(&[2, 0]));
    assert_eq!(exec(&[0x5a]).stack, vec![max()]);
}

#[test]
fn stack_underflow() {
    let r = exec(&[0x60, 1, 0x01]);
    assert!(!r.success);
    assert_eq!(r.failure, Some(Failure::StackUnderflow));
    assert_eq!(r.stack, words(&[1]));
}

#[test]
fn stack_overflow() {
    let r = exec(&[0x5b, 0x5f, 0x60, 0, 0x56]);
    assert!(!r.success);
    assert_eq!(r.failure, Some(Failure::StackOverflow));
    assert_eq!(r.stack.len(), 1024);
}

#[test]
fn invalid_opcode_fails() {
    let r = exec(&[0x60, 1, 0xfe]);
    assert!(!r.success);
    assert_eq!(r.failure, Some(Failure::ExplicitFault));
    assert_eq!(r.stack, words(&[1]));
}

#[test]
fn unknown_opcode_halts() {
    let r = exec(&[0x60, 1, 0x40, 0x60, 2]);
    assert!(r.success);
    assert_eq!(r.stack, words(&[1]));
}

#[test]
fn step_limit() {
    let r = run(&[0x5b, 0x60, 0, 0x56], &None, &None, 100);
    assert!(!r.success);
    assert_eq!(r.failure, Some(Failure::StepLimitExceeded));
}

#[test]
fn determinism() {
    let code = [0x60, 7, 0x60, 3, 0x05, 0x60, 9, 0x02];
    let a = exec(&code);
    let b = exec(&code);
    assert_eq!(a.stack, b.stack);
    assert_eq!(a.success, b.success);
}

fn txn(to: Option<&str>) -> Txn {
    Txn {
        value: None,
        data: None,
        from: Some("0x1e79b045dc29eae9fdc69673c9dcd7c53e5e159d".to_string()),
        to: to.map(|s| s.to_string()),
        gas: None,
        origin: Some("1337".to_string()),
        gasprice: Some("99".to_string()),
    }
}

#[test]
fn context_from_transaction() {
    let tx = Some(txn(Some("0x1000")));
    assert_eq!(evm(&[0x30], &tx, &None).stack, words(&[0x1000]));
    assert_eq!(evm(&[0x32], &tx, &None).stack, words(&[0x1337]));
    assert_eq!(evm(&[0x3a], &tx, &None).stack, words(&[0x99]));
    let caller = U256::from_str_radix("1e79b045dc29eae9fdc69673c9dcd7c53e5e159d", 16).unwrap();
    assert_eq!(evm(&[0x33], &tx, &None).stack, vec![caller]);
}

#[test]
fn absent_field_pushes_zero() {
    let tx = Some(txn(None));
    let r = evm(&[0x30], &tx, &None);
    assert!(r.success);
    assert_eq!(r.stack, words(&[0]));
}

#[test]
fn missing_context_fails() {
    let r = evm(&[0x60, 1, 0x30], &None, &None);
    assert!(!r.success);
    assert_eq!(r.failure, Some(Failure::MissingExecutionContext));
    assert_eq!(r.stack, words(&[1]));
    let r = evm(&[0x42], &None, &None);
    assert_eq!(r.failure, Some(Failure::MissingExecutionContext));
}

#[test]
fn invalid_context_value_fails() {
    let tx = Some(txn(Some("xyz")));
    let r = evm(&[0x30], &tx, &None);
    assert!(!r.success);
    assert_eq!(r.failure, Some(Failure::InvalidContextValue));
}

#[test]
fn context_from_block() {
    let block = Some(Block {
        basefee: Some("0x1".to_string()),
        coinbase: Some("0x777".to_string()),
        timestamp: Some("0x5".to_string()),
        number: Some("0x1000001".to_string()),
        difficulty: None,
        gaslimit: Some("0xffffffffffff".to_string()),
        chainid: Some("0x1".to_string()),
    });
    let code = [0x48, 0x41, 0x42, 0x43, 0x44, 0x45, 0x46];
    let r = evm(&code, &None, &block);
    assert!(r.success);
    assert_eq!(
        r.stack,
        words(&[1, 0xffffffffffff, 0, 0x1000001, 5, 0x777, 1])
    );
}
