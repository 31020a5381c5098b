use primitive_types::U256;

use revm_core::bytecode::{Bytecode, Contract};
use revm_core::gas::{self, Gas};
use revm_core::host::Host;
use revm_core::interpreter::Interpreter;
use revm_core::ret::Return;
use revm_core::specification::{BerlinSpec, FrontierSpec, LatestSpec, LondonSpec, Spec, SpecId};
use revm_core::types::{Address, BlockEnv, CallInputs, CfgEnv, CreateInputs, Env,
    SelfDestructResult, TxEnv};

// ---- helpers ---------------------------------------------------------

fn hx(s: &str) -> Vec<u8> {
    let bytes: Vec<u8> = s.as_bytes().iter().copied().filter(|c| !c.is_ascii_whitespace()).collect();
    bytes
        .chunks(2)
        .map(|p| {
            let hi = (p[0] as char).to_digit(16).unwrap() as u8;
            let lo = (p[1] as char).to_digit(16).unwrap() as u8;
            hi * 16 + lo
        })
        .collect()
}

fn addr(n: u64) -> Address {
    Address::from_word(U256::from(n))
}

/// Constant gas of one opcode under the latest fork, matching what the
/// handlers leave to the gas blocks.
fn static_gas(op: u8) -> u64 {
    match op {
        0x01 | 0x03 => 3,
        0x02 | 0x04..=0x07 | 0x0b => 5,
        0x08 | 0x09 => 8,
        0x0a => 10,
        0x10..=0x1d => 3,
        0x30 | 0x32..=0x34 | 0x36 | 0x38 | 0x3a | 0x3d | 0x41..=0x48 => 2,
        0x35 | 0x37 | 0x39 | 0x3e => 3,
        0x3b | 0x3c | 0x3f => 100,
        0x40 => 20,
        0x50 | 0x58 | 0x59 | 0x5a => 2,
        0x51..=0x53 => 3,
        0x56 => 8,
        0x57 => 10,
        0x5b => 1,
        0x60..=0x9f => 3,
        0xa0..=0xa4 => 375,
        _ => 0,
    }
}

fn is_block_end(op: u8) -> bool {
    matches!(
        op,
        0x00 | 0x54 | 0x55 | 0x56 | 0x57 | 0x5a | 0xf0 | 0xf1 | 0xf2 | 0xf3 | 0xf4 | 0xf5 | 0xfa
            | 0xfd | 0xfe | 0xff
    )
}

fn block_cost_from(code: &[u8], start: usize) -> u64 {
    let mut total = 0u64;
    let mut i = start;
    while i < code.len() {
        let op = code[i];
        if op == 0x5b && i != start {
            break;
        }
        total += static_gas(op);
        if (0x60..=0x7f).contains(&op) {
            i += (op - 0x5f) as usize;
        }
        if is_block_end(op) {
            break;
        }
        i += 1;
    }
    total
}

fn analyze(code: Vec<u8>) -> Bytecode {
    let n = code.len();
    let mut jumpmap = vec![false; n];
    let mut blocks = vec![0u64; n];
    let mut i = 0;
    while i < n {
        let op = code[i];
        if op == 0x5b {
            jumpmap[i] = true;
            blocks[i] = block_cost_from(&code, i);
        }
        if matches!(op, 0x54 | 0x55 | 0x57 | 0x5a | 0xf0 | 0xf1 | 0xf2 | 0xf4 | 0xf5 | 0xfa) {
            blocks[i] = block_cost_from(&code, i + 1);
        }
        if (0x60..=0x7f).contains(&op) {
            i += (op - 0x5f) as usize;
        }
        i += 1;
    }
    let first = block_cost_from(&code, 0);
    Bytecode::from_analysis(code, jumpmap, blocks, first).unwrap()
}

struct TestHost {
    cold: bool,
    account_exists: bool,
    storage_value: U256,
    fail_sload: bool,
    sstore_calls: usize,
    log_calls: usize,
    selfdestruct_calls: usize,
    create_calls: usize,
    create_fails: bool,
    call_calls: usize,
    seen_call_gas_limit: Option<u64>,
    call_data_out: Vec<u8>,
    call_spend: u64,
    call_reverts: bool,
    previously_destroyed: bool,
}

impl TestHost {
    fn new() -> TestHost {
        TestHost {
            cold: false,
            account_exists: true,
            storage_value: U256::zero(),
            fail_sload: false,
            sstore_calls: 0,
            log_calls: 0,
            selfdestruct_calls: 0,
            create_calls: 0,
            create_fails: false,
            call_calls: 0,
            seen_call_gas_limit: None,
            call_data_out: Vec::new(),
            call_spend: 7,
            call_reverts: false,
            previously_destroyed: false,
        }
    }
}

impl Host for TestHost {
    fn step(&mut self, _interp: &mut Interpreter) -> Return {
        Return::Continue
    }

    fn step_end(&mut self, _interp: &mut Interpreter, ret: Return) -> Return {
        ret
    }

    fn env(&mut self) -> Env {
        Env {
            cfg: CfgEnv { chain_id: U256::from(7u64) },
            block: BlockEnv {
                number: U256::from(1000u64),
                coinbase: addr(0xC0),
                timestamp: U256::from(12345u64),
                difficulty: U256::from(99u64),
                basefee: U256::from(11u64),
                gas_limit: U256::from(30_000_000u64),
            },
            tx: TxEnv { caller: addr(0xAA), gas_price: U256::from(21u64) },
        }
    }

    fn load_account(&mut self, _address: Address) -> Option<(bool, bool)> {
        Some((self.cold, self.account_exists))
    }

    fn balance(&mut self, _address: Address) -> Option<(U256, bool)> {
        Some((U256::from(4242u64), self.cold))
    }

    fn code(&mut self, _address: Address) -> Option<(Vec<u8>, bool)> {
        Some((vec![0x60, 0x01, 0x00], self.cold))
    }

    fn code_hash(&mut self, _address: Address) -> Option<(U256, bool)> {
        Some((U256::from(777u64), self.cold))
    }

    fn block_hash(&mut self, number: U256) -> Option<U256> {
        Some(number + U256::from(1u64))
    }

    fn sload(&mut self, _address: Address, _index: U256) -> Option<(U256, bool)> {
        if self.fail_sload {
            None
        } else {
            Some((self.storage_value, self.cold))
        }
    }

    fn sstore(&mut self, _address: Address, _index: U256, value: U256) -> Option<
        (U256, U256, U256, bool),
    > {
        self.sstore_calls += 1;
        Some((self.storage_value, self.storage_value, value, self.cold))
    }

    fn log(&mut self, _address: Address, _topics: Vec<U256>, _data: Vec<u8>) {
        self.log_calls += 1;
    }

    fn selfdestruct(&mut self, _address: Address, _target: Address) -> Option<SelfDestructResult> {
        self.selfdestruct_calls += 1;
        Some(SelfDestructResult {
            had_value: false,
            target_exists: self.account_exists,
            is_cold: self.cold,
            previously_destroyed: self.previously_destroyed,
        })
    }

    fn create(&mut self, inputs: &mut CreateInputs) -> (Return, Option<Address>, Gas, Vec<u8>) {
        self.create_calls += 1;
        let left = inputs.gas_limit.saturating_sub(self.call_spend);
        if self.create_fails {
            (Return::OutOfGas, None, Gas::new(0), vec![9, 9])
        } else {
            (Return::Stop, Some(addr(0xBEEF)), Gas::new(left), Vec::new())
        }
    }

    fn call(&mut self, inputs: &mut CallInputs) -> (Return, Gas, Vec<u8>) {
        self.call_calls += 1;
        self.seen_call_gas_limit = Some(inputs.gas_limit);
        let left = inputs.gas_limit.saturating_sub(self.call_spend);
        let reason = if self.call_reverts {
            Return::Revert
        } else {
            Return::Stop
        };
        (reason, Gas::new(left), self.call_data_out.clone())
    }
}

fn run_with<S: Spec>(
    code: Vec<u8>,
    input: Vec<u8>,
    gas_limit: u64,
    is_static: bool,
    host: &mut TestHost,
) -> (Return, Interpreter) {
    let bytecode = analyze(code);
    let contract = Contract::new(input, bytecode, addr(0xEE), addr(0xCC), U256::zero());
    let mut interp = Interpreter::new(contract, gas_limit, is_static);
    let ret = interp.run::<TestHost, S>(host, false);
    (ret, interp)
}

fn run_latest(code: &str, gas_limit: u64) -> (Return, Interpreter) {
    let mut host = TestHost::new();
    run_with::<LatestSpec>(hx(code), Vec::new(), gas_limit, false, &mut host)
}

fn top(interp: &Interpreter) -> U256 {
    interp.stack().peek(1)
}

// ---- whole programs --------------------------------------------------

#[test]
fn add_then_stop() {
    let (ret, interp) = run_latest("600560030100", 100_000);
    assert_eq!(ret, Return::Stop);
    assert_eq!(top(&interp), U256::from(8u64));
}

#[test]
fn div_by_zero_is_zero() {
    let (ret, interp) = run_latest("600060000400", 100_000);
    assert_eq!(ret, Return::Stop);
    assert_eq!(top(&interp), U256::zero());
}

#[test]
fn jumpi_to_invalid_target() {
    let (ret, _) = run_latest("6001600057", 100_000);
    assert_eq!(ret, Return::InvalidJump);
}

#[test]
fn backward_loop_runs_out_of_gas() {
    // JUMPDEST at 0, jump back to it forever
    let (ret, _) = run_latest("5b600056", 10_000);
    assert_eq!(ret, Return::OutOfGas);
}

#[test]
fn jump_to_push_data_is_invalid() {
    // the target 0 is a PUSH1 byte, not a JUMPDEST
    let (ret, _) = run_latest("60015b600056", 10_000);
    assert_eq!(ret, Return::InvalidJump);
}

#[test]
fn return_surfaces_stored_word() {
    let word = "0102030405060708090a0b0c0d0e0f101112131415161718191a1b1c1d1e1f20";
    // store the word at 0, then surface memory[0..32]: RETURN pops the
    // offset from the top, so the length 32 is pushed first
    let code = format!("7f{}60005260206000f3", word);
    let (ret, interp) = run_latest(&code, 100_000);
    assert_eq!(ret, Return::Return);
    assert_eq!(interp.return_value(), hx(word));
}

#[test]
fn revert_surfaces_data_and_terminates() {
    // store a byte and revert with memory[0..1]
    let (ret, interp) = run_latest("60aa60005360016000fd", 100_000);
    assert_eq!(ret, Return::Revert);
    assert_eq!(interp.return_value(), vec![0xaa]);
}

#[test]
fn invalid_opcode_terminates() {
    let (ret, _) = run_latest("fe", 100_000);
    assert_eq!(ret, Return::InvalidOpcode);
}

// ---- stack, memory and control behavior ------------------------------

#[test]
fn underflow_leaves_stack_alone() {
    // one word on the stack, ADD needs two
    let (ret, interp) = run_latest("600501", 100_000);
    assert_eq!(ret, Return::StackUnderflow);
    assert_eq!(interp.stack().len(), 1);
    assert_eq!(top(&interp), U256::from(5u64));
}

#[test]
fn overflow_leaves_stack_full() {
    let mut code = Vec::new();
    for _ in 0..1025 {
        code.push(0x60);
        code.push(0x01);
    }
    let mut host = TestHost::new();
    let (ret, interp) = run_with::<LatestSpec>(code, Vec::new(), 1_000_000, false, &mut host);
    assert_eq!(ret, Return::StackOverflow);
    assert_eq!(interp.stack().len(), 1024);
}

#[test]
fn memory_stays_word_aligned() {
    // MSTORE8 at offset 1 touches two bytes' worth but memory grows to 32
    let (ret, interp) = run_latest("60aa6001535900", 100_000);
    assert_eq!(ret, Return::Stop);
    assert_eq!(interp.memory.effective_len(), 32);
    assert_eq!(top(&interp), U256::from(32u64));
    assert_eq!(interp.memory.effective_len() % 32, 0);
}

#[test]
fn jump_to_unmarked_target_keeps_pc() {
    let code = analyze(hx("5b600056"));
    let contract = Contract::new(Vec::new(), code, addr(1), addr(2), U256::zero());
    let mut interp = Interpreter::new(contract, 1000, false);
    interp.pc = 1;
    interp.stack.push(U256::from(3u64));  // points at PUSH data, not a JUMPDEST
    let before = interp.pc;
    let ret = revm_core::instructions::control::jump(&mut interp);
    assert_eq!(ret, Return::InvalidJump);
    assert_eq!(interp.pc, before);
}

#[test]
fn mstore_mload_round_trip() {
    let word = "00112233445566778899aabbccddeeff102132435465768798a9bacbdcedfe0f";
    let code = format!("7f{}60405260405100", word);
    let (ret, interp) = run_latest(&code, 100_000);
    assert_eq!(ret, Return::Stop);
    assert_eq!(top(&interp), U256::from_big_endian(&hx(word)));
}

#[test]
fn sstore_in_static_frame() {
    let mut host = TestHost::new();
    let (ret, _) = run_with::<LatestSpec>(hx("6001600055"), Vec::new(), 100_000, true, &mut host);
    assert_eq!(ret, Return::StateChangeDuringStaticCall);
    assert_eq!(host.sstore_calls, 0);
}

#[test]
fn log_in_static_frame() {
    let mut host = TestHost::new();
    let (ret, _) = run_with::<LatestSpec>(hx("60006000a0"), Vec::new(), 100_000, true, &mut host);
    assert_eq!(ret, Return::StateChangeDuringStaticCall);
    assert_eq!(host.log_calls, 0);
}

#[test]
fn value_call_in_static_frame() {
    // CALL with nonzero value: push out_len,out_off,in_len,in_off,value,to,gas
    let code = "60006000600060006001609960fff1";
    let mut host = TestHost::new();
    let (ret, _) = run_with::<LatestSpec>(hx(code), Vec::new(), 100_000, true, &mut host);
    assert_eq!(ret, Return::CallNotAllowedInsideStatic);
    assert_eq!(host.call_calls, 0);
}

#[test]
fn sha3_of_empty_range() {
    let (ret, interp) = run_latest("6000600020", 100_000);
    assert_eq!(ret, Return::Stop);
    let expected = U256::from_big_endian(&hx(
        "c5d2460186f7233c927e7db2dcc703c0e500b653ca82273b7bfad8045d85a470",
    ));
    assert_eq!(top(&interp), expected);
    assert_eq!(interp.memory.effective_len(), 0);
}

#[test]
fn sha3_hashes_through_the_hasher() {
    // expand memory to 32 zero bytes, then hash them
    let (ret, interp) = run_latest("600060005260206000205900", 100_000);
    assert_eq!(ret, Return::Stop);
    let expected = U256::from_big_endian(&hx(
        "290decd9548b62a8d60345a988386fc84ba6bc95484008f6362f93160ef3e563",
    ));
    assert_eq!(interp.stack().peek(2), expected);
    assert_eq!(interp.stack().peek(1), U256::from(32u64));
}

// ---- arithmetic --------------------------------------------------------

#[test]
fn add_wraps_modulo_word() {
    let code = "7fffffffffffffffffffffffffffffffffffffffffffffffffffffffffffffffff600101";
    let (ret, interp) = run_latest(code, 100_000);
    assert_eq!(ret, Return::Stop);
    assert_eq!(top(&interp), U256::zero());
}

#[test]
fn sub_wraps_below_zero() {
    // SUB computes top - next: 3 - 5
    let (ret, interp) = run_latest("6005600303", 100_000);
    assert_eq!(ret, Return::Stop);
    assert_eq!(top(&interp), U256::MAX - U256::from(1u64));
}

#[test]
fn mul_wraps_modulo_word() {
    // (2^130 + 3) * (2^130 + 5) mod 2^256 == 2^133 + 15
    let a = (U256::from(1u64) << 130) + U256::from(3u64);
    let b = (U256::from(1u64) << 130) + U256::from(5u64);
    let mut code = vec![0x7f];
    code.extend_from_slice(&a.to_big_endian());
    code.push(0x7f);
    code.extend_from_slice(&b.to_big_endian());
    code.push(0x02);
    let mut host = TestHost::new();
    let (ret, interp) = run_with::<LatestSpec>(code, Vec::new(), 100_000, false, &mut host);
    assert_eq!(ret, Return::Stop);
    let expected = (U256::from(1u64) << 133) + U256::from(15u64);
    assert_eq!(top(&interp), expected);
}

#[test]
fn sdiv_min_by_minus_one() {
    let code = "7fffffffffffffffffffffffffffffffffffffffffffffffffffffffffffffffff7f800000000000000000000000000000000000000000000000000000000000000005";
    let (ret, interp) = run_latest(code, 100_000);
    assert_eq!(ret, Return::Stop);
    let min = U256::from(1u64) << 255;
    assert_eq!(top(&interp), min);
}

#[test]
fn mod_by_zero_is_zero() {
    let (ret, interp) = run_latest("6000600906", 100_000);
    assert_eq!(ret, Return::Stop);
    assert_eq!(top(&interp), U256::zero());
}

#[test]
fn addmod_mulmod_at_full_precision() {
    // ADDMOD(9, 5, 0) == 0
    let (ret, interp) = run_latest("60006005600908", 100_000);
    assert_eq!(ret, Return::Stop);
    assert_eq!(top(&interp), U256::zero());
    // MULMOD(MAX, MAX, 7): 2^256-1 is 1 mod 7, so the product is 1 mod 7
    let code = "60077fffffffffffffffffffffffffffffffffffffffffffffffffffffffffffffffff7fffffffffffffffffffffffffffffffffffffffffffffffffffffffffffffffff09";
    let (ret, interp) = run_latest(code, 100_000);
    assert_eq!(ret, Return::Stop);
    assert_eq!(top(&interp), U256::from(1u64));
    // ADDMOD(MAX, MAX, MAX-1) needs the 512-bit sum: 2·MAX = 2·(MAX-1) + 2
    let code = "7ffffffffffffffffffffffffffffffffffffffffffffffffffffffffffffffffe7fffffffffffffffffffffffffffffffffffffffffffffffffffffffffffffffff7fffffffffffffffffffffffffffffffffffffffffffffffffffffffffffffffff08";
    let (ret, interp) = run_latest(code, 100_000);
    assert_eq!(ret, Return::Stop);
    assert_eq!(top(&interp), U256::from(2u64));
}

#[test]
fn signextend_identity_past_width() {
    // SIGNEXTEND(32, 0xff00) == 0xff00
    let (ret, interp) = run_latest("61ff0060200b", 100_000);
    assert_eq!(ret, Return::Stop);
    assert_eq!(top(&interp), U256::from(0xff00u64));
    // SIGNEXTEND(0, 0xff) == -1
    let (ret, interp) = run_latest("60ff60000b", 100_000);
    assert_eq!(ret, Return::Stop);
    assert_eq!(top(&interp), U256::MAX);
}

#[test]
fn sar_by_full_width() {
    // SAR(256, -1) == -1
    let code = "7fffffffffffffffffffffffffffffffffffffffffffffffffffffffffffffffff6101001d";
    let (ret, interp) = run_latest(code, 100_000);
    assert_eq!(ret, Return::Stop);
    assert_eq!(top(&interp), U256::MAX);
    // SAR(256, 1) == 0
    let (ret, interp) = run_latest("60016101001d", 100_000);
    assert_eq!(ret, Return::Stop);
    assert_eq!(top(&interp), U256::zero());
}

#[test]
fn shifts_and_byte() {
    // SHL(4, 1) == 16: BYTE(31, x) is the low byte
    let (ret, interp) = run_latest("600160041b", 100_000);
    assert_eq!(ret, Return::Stop);
    assert_eq!(top(&interp), U256::from(16u64));
    let (ret, interp) = run_latest("61abcd601f1a", 100_000);
    assert_eq!(ret, Return::Stop);
    assert_eq!(top(&interp), U256::from(0xcdu64));
    // SHR(8, 0xabcd) == 0xab
    let (ret, interp) = run_latest("61abcd60081c", 100_000);
    assert_eq!(ret, Return::Stop);
    assert_eq!(top(&interp), U256::from(0xabu64));
}

#[test]
fn shl_drops_high_bits() {
    // SHL(255, 3): 3·2^255 wraps to 2^255
    let (ret, interp) = run_latest("600360ff1b", 100_000);
    assert_eq!(ret, Return::Stop);
    assert_eq!(top(&interp), U256::from(1u64) << 255);
}

#[test]
fn exp_squares_correctly() {
    // EXP(2, 10) == 1024; it charges 10 static plus 50 for one exponent byte
    let (ret, interp) = run_latest("600a60020a", 100_000);
    assert_eq!(ret, Return::Stop);
    assert_eq!(top(&interp), U256::from(1024u64));
    assert_eq!(interp.gas().remaining(), 100_000 - (3 + 3 + 10) - 50);
}

#[test]
fn log_charges_per_topic_and_byte() {
    // LOG1 over memory[0..2]: 375 static, 375 for the topic, 8 per byte,
    // 3 for growing memory to one word
    let mut host = TestHost::new();
    let (ret, interp) = run_with::<LatestSpec>(
        hx("60aa60026000a1"),
        Vec::new(),
        100_000,
        false,
        &mut host,
    );
    assert_eq!(ret, Return::Stop);
    assert_eq!(host.log_calls, 1);
    assert_eq!(interp.gas().remaining(), 100_000 - (9 + 375) - (375 + 16) - 3);
}

#[test]
fn signed_comparisons() {
    // SLT(-1, 0) == 1: push 0 then -1 so -1 is on top
    let code = "60007fffffffffffffffffffffffffffffffffffffffffffffffffffffffffffffffff12";
    let (ret, interp) = run_latest(code, 100_000);
    assert_eq!(ret, Return::Stop);
    assert_eq!(top(&interp), U256::from(1u64));
}

// ---- gas -------------------------------------------------------------

#[test]
fn same_run_same_gas() {
    let code = "6005600301600202600016600014";
    let (r1, i1) = run_latest(code, 100_000);
    let (r2, i2) = run_latest(code, 100_000);
    assert_eq!(r1, r2);
    assert_eq!(i1.gas().remaining(), i2.gas().remaining());
}

#[test]
fn call_forwards_and_returns_gas() {
    // push out_len,out_off,in_len,in_off,value,to,gas then CALL, STOP
    let code = "600060006000600060006099637fffffff f1 00";
    let mut host = TestHost::new();
    let (ret, interp) = run_with::<LatestSpec>(hx(code), Vec::new(), 100_000, false, &mut host);
    assert_eq!(ret, Return::Stop);
    // blocks: 6 one-byte pushes and one 4-byte push cost 21; CALL ends it
    let after_first_block = 100_000 - 21;
    let after_access = after_first_block - 100;
    let forwarded = after_access - after_access / 64;
    assert_eq!(host.seen_call_gas_limit, Some(forwarded));
    // the child spent 7: the parent ends with everything else back
    assert_eq!(interp.gas().remaining(), after_access - 7);
    assert_eq!(top(&interp), U256::from(1u64));
}

#[test]
fn gas_opcode_reports_remaining() {
    // GAS pushes remaining after its own block was charged up front
    let (ret, interp) = run_latest("5a00", 100_000);
    assert_eq!(ret, Return::Stop);
    assert_eq!(top(&interp), U256::from(100_000u64 - 2));
}

#[test]
fn cold_account_costs_more() {
    let mut warm_host = TestHost::new();
    let (_, warm) = run_with::<LatestSpec>(hx("609931"), Vec::new(), 100_000, false, &mut warm_host);
    let mut cold_host = TestHost::new();
    cold_host.cold = true;
    let (_, cold) = run_with::<LatestSpec>(hx("609931"), Vec::new(), 100_000, false, &mut cold_host);
    assert_eq!(
        warm.gas().remaining() - cold.gas().remaining(),
        gas::COLD_ACCOUNT_ACCESS_COST - gas::WARM_STORAGE_READ_COST
    );
}

#[test]
fn sstore_cost_and_refund_schedule() {
    let london = SpecId::LONDON.id();
    let zero = U256::zero();
    let one = U256::from(1u64);
    // fresh write of a zero slot
    assert_eq!(gas::sstore_cost(london, &zero, &zero, &one, 10_000, false), Some(20_000));
    // Istanbul sentry refuses writes with the stipend or less left
    assert_eq!(gas::sstore_cost(london, &zero, &zero, &one, 2_300, false), None);
    // clearing a slot refunds 4800 under London, 15000 before
    assert_eq!(gas::sstore_refund(london, &one, &one, &zero), 4_800);
    assert_eq!(gas::sstore_refund(SpecId::ISTANBUL.id(), &one, &one, &zero), 15_000);
}

#[test]
fn memory_expansion_is_quadratic() {
    assert_eq!(gas::memory_gas(0), 0);
    assert_eq!(gas::memory_gas(1), 3);
    assert_eq!(gas::memory_gas(32), 32 * 3 + (32 * 32) / 512);
    assert_eq!(gas::sha3_cost(0), Some(30));
    assert_eq!(gas::sha3_cost(32), Some(36));
    assert_eq!(gas::sha3_cost(33), Some(42));
}

#[test]
fn forwarding_rule_alone() {
    let latest = SpecId::LATEST.id();
    assert_eq!(gas::forwarded_gas(latest, 6400, 10_000), 6400 - 100);
    assert_eq!(gas::forwarded_gas(latest, 6400, 50), 50);
    let frontier = SpecId::FRONTIER.id();
    assert_eq!(gas::forwarded_gas(frontier, 6400, 10_000), 10_000);
}

#[test]
fn selfdestruct_refund_before_london() {
    let mut host = TestHost::new();
    let (ret, interp) = run_with::<BerlinSpec>(hx("6000ff"), Vec::new(), 100_000, false, &mut host);
    assert_eq!(ret, Return::SelfDestruct);
    assert_eq!(host.selfdestruct_calls, 1);
    assert_eq!(interp.gas().refunded(), 24_000);
    let mut host = TestHost::new();
    let (ret, interp) = run_with::<LondonSpec>(hx("6000ff"), Vec::new(), 100_000, false, &mut host);
    assert_eq!(ret, Return::SelfDestruct);
    assert_eq!(interp.gas().refunded(), 0);
}

// ---- dispatch, availability and errors --------------------------------

#[test]
fn not_activated_before_fork() {
    let mut host = TestHost::new();
    let (ret, _) = run_with::<FrontierSpec>(hx("600160041b"), Vec::new(), 100_000, false, &mut host);
    assert_eq!(ret, Return::NotActivated);
    let mut host = TestHost::new();
    let (ret, _) = run_with::<BerlinSpec>(hx("48"), Vec::new(), 100_000, false, &mut host);
    assert_eq!(ret, Return::NotActivated);
    let mut host = TestHost::new();
    let (ret, _) = run_with::<LondonSpec>(hx("48"), Vec::new(), 100_000, false, &mut host);
    assert_eq!(ret, Return::Stop);
}

#[test]
fn returndatacopy_past_buffer() {
    // pops are mem_off, data_off, len: push len, data_off, mem_off
    let (ret, _) = run_latest("6005600060003e", 100_000);
    assert_eq!(ret, Return::OutOfOffset);
}

#[test]
fn memory_limit_is_enforced() {
    let code = analyze(hx("6001610fff52"));
    let contract = Contract::new(Vec::new(), code, addr(1), addr(2), U256::zero());
    let mut interp = Interpreter::new_with_memory_limit(contract, 1_000_000, 64, false);
    let mut host = TestHost::new();
    let ret = interp.run::<TestHost, LatestSpec>(&mut host, false);
    assert_eq!(ret, Return::InvalidMemoryRange);
}

#[test]
fn fatal_external_error_propagates() {
    let mut host = TestHost::new();
    host.fail_sload = true;
    let (ret, _) = run_with::<LatestSpec>(hx("600054"), Vec::new(), 100_000, false, &mut host);
    assert_eq!(ret, Return::FatalExternalError);
}

#[test]
fn dup_and_swap() {
    // PUSH 1, PUSH 2, DUP2 -> [1, 2, 1]
    let (ret, interp) = run_latest("6001600281", 100_000);
    assert_eq!(ret, Return::Stop);
    assert_eq!(top(&interp), U256::from(1u64));
    assert_eq!(interp.stack().len(), 3);
    // PUSH 1, PUSH 2, SWAP1 -> [2, 1]
    let (ret, interp) = run_latest("6001600290", 100_000);
    assert_eq!(ret, Return::Stop);
    assert_eq!(top(&interp), U256::from(1u64));
    assert_eq!(interp.stack().peek(2), U256::from(2u64));
}

#[test]
fn pc_pushes_own_offset() {
    let (ret, interp) = run_latest("6000505800", 100_000);
    assert_eq!(ret, Return::Stop);
    assert_eq!(top(&interp), U256::from(3u64));
}

#[test]
fn calldata_window_zero_padded() {
    let mut host = TestHost::new();
    let (ret, interp) = run_with::<LatestSpec>(
        hx("60003500"),
        vec![0x11, 0x22, 0x33],
        100_000,
        false,
        &mut host,
    );
    assert_eq!(ret, Return::Stop);
    let mut expected = [0u8; 32];
    expected[0] = 0x11;
    expected[1] = 0x22;
    expected[2] = 0x33;
    assert_eq!(top(&interp), U256::from_big_endian(&expected));
}

#[test]
fn create_pushes_new_address() {
    // CREATE with empty init code: push len 0, offset 0, value 0
    let mut host = TestHost::new();
    let (ret, interp) = run_with::<LatestSpec>(
        hx("600060006000f000"),
        Vec::new(),
        100_000,
        false,
        &mut host,
    );
    assert_eq!(ret, Return::Stop);
    assert_eq!(host.create_calls, 1);
    assert_eq!(top(&interp), addr(0xBEEF).to_word());
}

#[test]
fn failed_create_pushes_zero_and_drops_data() {
    let mut host = TestHost::new();
    host.create_fails = true;
    // CREATE then RETURNDATASIZE
    let code = "600060006000f03d";
    let (ret, interp) = run_with::<LatestSpec>(hx(code), Vec::new(), 100_000, false, &mut host);
    assert_eq!(ret, Return::Stop);
    assert_eq!(top(&interp), U256::zero());
    assert_eq!(interp.stack().peek(2), U256::zero());
}

#[test]
fn call_output_lands_in_memory() {
    let mut host = TestHost::new();
    host.call_data_out = vec![0xde, 0xad];
    // out window of 2 bytes at offset 0: push out_len=2,out_off=0,in_len=0,
    // in_off=0,value=0,to,gas then CALL, then MLOAD(0)
    let code = "6002600060006000600060996099f1600051";
    let (ret, interp) = run_with::<LatestSpec>(hx(code), Vec::new(), 100_000, false, &mut host);
    assert_eq!(ret, Return::Stop);
    let mut expected = [0u8; 32];
    expected[0] = 0xde;
    expected[1] = 0xad;
    assert_eq!(top(&interp), U256::from_big_endian(&expected));
}

#[test]
fn plain_call_is_allowed_in_static_frame() {
    // CALL with value 0 is no state change
    let code = "600060006000600060006099609af1";
    let mut host = TestHost::new();
    let (ret, interp) = run_with::<LatestSpec>(hx(code), Vec::new(), 100_000, true, &mut host);
    assert_eq!(ret, Return::Stop);
    assert_eq!(host.call_calls, 1);
    assert_eq!(top(&interp), U256::from(1u64));
}

#[test]
fn delegatecall_needs_homestead() {
    let code = "60006000600060006099609af4";
    let mut host = TestHost::new();
    let (ret, _) = run_with::<FrontierSpec>(hx(code), Vec::new(), 100_000, false, &mut host);
    assert_eq!(ret, Return::NotActivated);
    assert_eq!(host.call_calls, 0);
}

#[test]
fn reverting_call_pushes_zero_and_keeps_data() {
    let mut host = TestHost::new();
    host.call_reverts = true;
    host.call_data_out = vec![1, 2, 3];
    // CALL then RETURNDATASIZE
    let code = "600060006000600060006099609af13d";
    let (ret, interp) = run_with::<LatestSpec>(hx(code), Vec::new(), 100_000, false, &mut host);
    assert_eq!(ret, Return::Stop);
    assert_eq!(top(&interp), U256::from(3u64));
    assert_eq!(interp.stack().peek(2), U256::zero());
}

#[test]
fn blockhash_window() {
    // number 999 is within 256 of 1000: host answers number + 1
    let (ret, interp) = run_latest("6103e740", 100_000);
    assert_eq!(ret, Return::Stop);
    assert_eq!(top(&interp), U256::from(1000u64));
    // the current block itself hashes to zero
    let (ret, interp) = run_latest("6103e840", 100_000);
    assert_eq!(ret, Return::Stop);
    assert_eq!(top(&interp), U256::zero());
}

#[test]
fn analysis_tables_must_cover_the_code() {
    assert!(Bytecode::from_analysis(vec![0x00], Vec::new(), vec![0], 0).is_none());
    assert!(Bytecode::from_analysis(vec![0x00], vec![false], vec![0], 0).is_some());
}

#[test]
fn inspected_run_behaves_like_plain_run() {
    let mut host = TestHost::new();
    let bytecode = analyze(hx("600560030100"));
    let contract = Contract::new(Vec::new(), bytecode, addr(1), addr(2), U256::zero());
    let mut interp = Interpreter::new(contract, 100_000, false);
    let ret = interp.run::<TestHost, LatestSpec>(&mut host, true);
    assert_eq!(ret, Return::Stop);
    assert_eq!(top(&interp), U256::from(8u64));
}

#[test]
fn env_opcodes_read_the_host() {
    let (ret, interp) = run_latest("4600", 100_000);
    assert_eq!(ret, Return::Stop);
    assert_eq!(top(&interp), U256::from(7u64));
    let (ret, interp) = run_latest("3a00", 100_000);
    assert_eq!(ret, Return::Stop);
    assert_eq!(top(&interp), U256::from(21u64));
}
