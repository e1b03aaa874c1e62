//! The fetch-decode-execute loop and its step semantics.
use vstd::prelude::*;
use primitive_types::U256;
use crate::arith::{
    add_spec, addmod_spec, and_spec, byte_spec, div_spec, eq_spec, exp_spec, gt_spec, iszero_spec,
    lt_spec, mod_spec, mul_spec, mulmod_spec, not_spec, or_spec, sar_spec, sdiv_spec, sgt_spec,
    shl_spec, shr_spec, signextend_spec, slt_spec, smod_spec, sub_spec, xor_spec,
};
use crate::context::{Block, Txn, context_result, is_context_op};
use crate::digest::keccak_of;
use crate::fault::Failure;
use crate::memory::{MEMORY_LIMIT, expanded, spliced};
use crate::program::{JUMPDEST, push_size, valid_destinations};
use crate::stack::STACK_LIMIT;
use crate::word::{be_bytes, be_val, modulus};

verus! {

pub const STOP: u8 = 0x00;
pub const ADD: u8 = 0x01;
pub const MUL: u8 = 0x02;
pub const SUB: u8 = 0x03;
pub const DIV: u8 = 0x04;
pub const SDIV: u8 = 0x05;
pub const MOD: u8 = 0x06;
pub const SMOD: u8 = 0x07;
pub const ADDMOD: u8 = 0x08;
pub const MULMOD: u8 = 0x09;
pub const EXP: u8 = 0x0a;
pub const SIGNEXTEND: u8 = 0x0b;
pub const LT: u8 = 0x10;
pub const GT: u8 = 0x11;
pub const SLT: u8 = 0x12;
pub const SGT: u8 = 0x13;
pub const EQ: u8 = 0x14;
pub const ISZERO: u8 = 0x15;
pub const AND: u8 = 0x16;
pub const OR: u8 = 0x17;
pub const XOR: u8 = 0x18;
pub const NOT: u8 = 0x19;
pub const BYTE: u8 = 0x1a;
pub const SHL: u8 = 0x1b;
pub const SHR: u8 = 0x1c;
pub const SAR: u8 = 0x1d;
pub const KECCAK256: u8 = 0x20;
pub const POP: u8 = 0x50;
pub const MLOAD: u8 = 0x51;
pub const MSTORE: u8 = 0x52;
pub const MSTORE8: u8 = 0x53;
pub const JUMP: u8 = 0x56;
pub const JUMPI: u8 = 0x57;
pub const PC: u8 = 0x58;
pub const MSIZE: u8 = 0x59;
pub const GAS: u8 = 0x5a;
pub const PUSH0: u8 = 0x5f;
pub const PUSH1: u8 = 0x60;
pub const PUSH32: u8 = 0x7f;
pub const DUP1: u8 = 0x80;
pub const DUP16: u8 = 0x8f;
pub const SWAP1: u8 = 0x90;
pub const SWAP16: u8 = 0x9f;
pub const INVALID: u8 = 0xfe;

/// Steps that `evm` allows a run before it stops it.
pub const DEFAULT_STEP_LIMIT: u64 = 10_000_000;

/// The machine state between two instructions.
pub struct Frame {
    pub pc: nat,
    /// Unsigned values, the top last.
    pub stack: Seq<nat>,
    pub memory: Seq<u8>,
}

/// What one step, or a whole run, ends in.
pub enum Outcome {
    Running(Frame),
    Halted(Frame),
    Failed(Frame, Failure),
}

/// The `i`-th element from the top (0 = the top).
pub open spec fn nth(s: Seq<nat>, i: nat) -> nat {
    s[s.len() - 1 - i]
}

/// `f` with `k` elements popped, then `v` pushed, and the pc moved on.
pub open spec fn replaced(f: Frame, k: nat, v: nat, pc: nat) -> Frame {
    Frame { pc, stack: f.stack.take(f.stack.len() - k).push(v), memory: f.memory }
}

/// Pushes `v` unless the stack is full.
pub open spec fn push_step(f: Frame, v: nat, pc: nat) -> Outcome {
    if f.stack.len() >= STACK_LIMIT {
        Outcome::Failed(f, Failure::StackOverflow)
    } else {
        Outcome::Running(replaced(f, 0, v, pc))
    }
}

pub open spec fn is_binary_op(op: u8) -> bool {
    (ADD <= op && op <= SMOD) || op == EXP || op == SIGNEXTEND || (LT <= op && op <= EQ) || (AND
        <= op && op <= XOR) || (BYTE <= op && op <= SAR)
}

pub open spec fn is_arith_op(op: u8) -> bool {
    is_binary_op(op) || op == ADDMOD || op == MULMOD || op == ISZERO || op == NOT
}

/// What binary opcode `op` computes from the top `a` and the next `b`.
pub open spec fn binary_spec(op: u8, a: nat, b: nat) -> nat {
    if op == ADD {
        add_spec(a, b)
    } else if op == MUL {
        mul_spec(a, b)
    } else if op == SUB {
        sub_spec(a, b)
    } else if op == DIV {
        div_spec(a, b)
    } else if op == SDIV {
        sdiv_spec(a, b)
    } else if op == MOD {
        mod_spec(a, b)
    } else if op == SMOD {
        smod_spec(a, b)
    } else if op == EXP {
        exp_spec(a, b)
    } else if op == SIGNEXTEND {
        signextend_spec(a, b)
    } else if op == LT {
        lt_spec(a, b)
    } else if op == GT {
        gt_spec(a, b)
    } else if op == SLT {
        slt_spec(a, b)
    } else if op == SGT {
        sgt_spec(a, b)
    } else if op == EQ {
        eq_spec(a, b)
    } else if op == AND {
        and_spec(a, b)
    } else if op == OR {
        or_spec(a, b)
    } else if op == XOR {
        xor_spec(a, b)
    } else if op == BYTE {
        byte_spec(a, b)
    } else if op == SHL {
        shl_spec(a, b)
    } else if op == SHR {
        shr_spec(a, b)
    } else {
        sar_spec(a, b)
    }
}

pub open spec fn arith_step(op: u8, f: Frame) -> Outcome {
    let s = f.stack;
    let next = f.pc + 1;
    if is_binary_op(op) {
        if s.len() < 2 {
            Outcome::Failed(f, Failure::StackUnderflow)
        } else {
            Outcome::Running(replaced(f, 2, binary_spec(op, nth(s, 0), nth(s, 1)), next))
        }
    } else if op == ADDMOD || op == MULMOD {
        if s.len() < 3 {
            Outcome::Failed(f, Failure::StackUnderflow)
        } else {
            let v = if op == ADDMOD {
                addmod_spec(nth(s, 0), nth(s, 1), nth(s, 2))
            } else {
                mulmod_spec(nth(s, 0), nth(s, 1), nth(s, 2))
            };
            Outcome::Running(replaced(f, 3, v, next))
        }
    } else {
        if s.len() < 1 {
            Outcome::Failed(f, Failure::StackUnderflow)
        } else {
            let v = if op == ISZERO { iszero_spec(nth(s, 0)) } else { not_spec(nth(s, 0)) };
            Outcome::Running(replaced(f, 1, v, next))
        }
    }
}

/// The `k` immediate bytes after offset `pc`, zero past the end of `code`.
pub open spec fn immediate(code: Seq<u8>, pc: nat, k: nat) -> Seq<u8> {
    Seq::new(k, |j: int| if pc + 1 + j < code.len() { code[pc + 1 + j] } else { 0u8 })
}

/// PUSH0..PUSH32. The pc stops at the end of the code, where the run ends.
pub open spec fn push_op_step(code: Seq<u8>, op: u8, f: Frame) -> Outcome {
    let k = push_size(op);
    let after = f.pc + k + 1;
    let next = if after <= code.len() { after } else { code.len() as nat };
    push_step(f, be_val(immediate(code, f.pc, k)), next)
}

/// POP, DUP1..DUP16 and SWAP1..SWAP16.
pub open spec fn stack_op_step(op: u8, f: Frame) -> Outcome {
    let s = f.stack;
    let n = s.len();
    let next = f.pc + 1;
    if op == POP {
        if n < 1 {
            Outcome::Failed(f, Failure::StackUnderflow)
        } else {
            Outcome::Running(Frame { pc: next, stack: s.drop_last(), memory: f.memory })
        }
    } else if op <= DUP16 {
        let k = (op - DUP1 + 1) as nat;
        if n < k {
            Outcome::Failed(f, Failure::StackUnderflow)
        } else {
            push_step(f, s[n - k], next)
        }
    } else {
        let k = (op - SWAP1 + 1) as nat;
        if n <= k {
            Outcome::Failed(f, Failure::StackUnderflow)
        } else {
            Outcome::Running(
                Frame {
                    pc: next,
                    stack: s.update(n - 1, s[n - 1 - k]).update(n - 1 - k, s[n - 1]),
                    memory: f.memory,
                },
            )
        }
    }
}

/// MLOAD, MSTORE, MSTORE8, MSIZE and KECCAK256.
pub open spec fn memory_op_step(op: u8, f: Frame) -> Outcome {
    let s = f.stack;
    let n = s.len();
    let next = f.pc + 1;
    if op == MSIZE {
        push_step(f, f.memory.len(), next)
    } else if op == MLOAD {
        if n < 1 {
            Outcome::Failed(f, Failure::StackUnderflow)
        } else if nth(s, 0) + 32 > MEMORY_LIMIT {
            Outcome::Failed(f, Failure::MemoryLimitExceeded)
        } else {
            let off = nth(s, 0);
            let m = expanded(f.memory, off + 32);
            Outcome::Running(
                Frame {
                    pc: next,
                    stack: s.drop_last().push(be_val(m.subrange(off as int, off + 32int))),
                    memory: m,
                },
            )
        }
    } else if n < 2 {
        Outcome::Failed(f, Failure::StackUnderflow)
    } else {
        let off = nth(s, 0);
        let second = nth(s, 1);
        let rest = s.take(n - 2);
        if op == MSTORE {
            if off + 32 > MEMORY_LIMIT {
                Outcome::Failed(f, Failure::MemoryLimitExceeded)
            } else {
                Outcome::Running(
                    Frame {
                        pc: next,
                        stack: rest,
                        memory: spliced(expanded(f.memory, off + 32), off, be_bytes(second, 32)),
                    },
                )
            }
        } else if op == MSTORE8 {
            if off + 1 > MEMORY_LIMIT {
                Outcome::Failed(f, Failure::MemoryLimitExceeded)
            } else {
                Outcome::Running(
                    Frame {
                        pc: next,
                        stack: rest,
                        memory: expanded(f.memory, off + 1).update(off as int, (second % 256) as u8),
                    },
                )
            }
        } else {
            if off + second > MEMORY_LIMIT {
                Outcome::Failed(f, Failure::MemoryLimitExceeded)
            } else {
                let m = expanded(f.memory, off + second);
                Outcome::Running(
                    Frame {
                        pc: next,
                        stack: rest.push(be_val(keccak_of(m.subrange(off as int, (off + second) as int)))),
                        memory: m,
                    },
                )
            }
        }
    }
}

/// JUMP, JUMPI, PC, GAS and JUMPDEST. JUMP and JUMPI pop their operands
/// before the target is checked, so a failed jump leaves them popped.
pub open spec fn flow_op_step(code: Seq<u8>, op: u8, f: Frame) -> Outcome {
    let s = f.stack;
    let n = s.len();
    let next = f.pc + 1;
    if op == PC {
        push_step(f, f.pc, next)
    } else if op == GAS {
        push_step(f, (modulus() - 1) as nat, next)
    } else if op == JUMPDEST {
        Outcome::Running(Frame { pc: next, ..f })
    } else if op == JUMP {
        if n < 1 {
            Outcome::Failed(f, Failure::StackUnderflow)
        } else if valid_destinations(code).contains(nth(s, 0)) {
            Outcome::Running(Frame { pc: nth(s, 0), stack: s.drop_last(), memory: f.memory })
        } else {
            Outcome::Failed(
                Frame { stack: s.drop_last(), ..f },
                Failure::InvalidJumpDestination,
            )
        }
    } else {
        if n < 2 {
            Outcome::Failed(f, Failure::StackUnderflow)
        } else if nth(s, 1) == 0 {
            Outcome::Running(Frame { pc: next, stack: s.take(n - 2), memory: f.memory })
        } else if valid_destinations(code).contains(nth(s, 0)) {
            Outcome::Running(Frame { pc: nth(s, 0), stack: s.take(n - 2), memory: f.memory })
        } else {
            Outcome::Failed(
                Frame { stack: s.take(n - 2), ..f },
                Failure::InvalidJumpDestination,
            )
        }
    }
}

pub open spec fn is_flow_op(op: u8) -> bool {
    op == JUMP || op == JUMPI || op == PC || op == GAS || op == JUMPDEST
}

pub open spec fn is_memory_op(op: u8) -> bool {
    op == MLOAD || op == MSTORE || op == MSTORE8 || op == MSIZE || op == KECCAK256
}

pub open spec fn is_stack_op(op: u8) -> bool {
    op == POP || (DUP1 <= op && op <= SWAP16)
}

/// One step from frame `f`.
pub open spec fn step_spec(code: Seq<u8>, tx: Option<Txn>, block: Option<Block>, f: Frame) -> Outcome {
    if f.pc >= code.len() {
        Outcome::Halted(f)
    } else {
        let op = code[f.pc as int];
        if op == STOP {
            Outcome::Halted(f)
        } else if is_arith_op(op) {
            arith_step(op, f)
        } else if PUSH0 <= op && op <= PUSH32 {
            push_op_step(code, op, f)
        } else if is_stack_op(op) {
            stack_op_step(op, f)
        } else if is_memory_op(op) {
            memory_op_step(op, f)
        } else if is_flow_op(op) {
            flow_op_step(code, op, f)
        } else if is_context_op(op) {
            match context_result(op, tx, block) {
                Ok(v) => push_step(f, v, f.pc + 1),
                Err(e) => Outcome::Failed(f, e),
            }
        } else if op == INVALID {
            Outcome::Failed(f, Failure::ExplicitFault)
        } else {
            Outcome::Halted(f)
        }
    }
}

/// Runs from `f` for at most `fuel` steps; the end of the code halts.
pub open spec fn run_spec(
    code: Seq<u8>,
    tx: Option<Txn>,
    block: Option<Block>,
    f: Frame,
    fuel: nat,
) -> Outcome
    decreases fuel,
{
    if f.pc >= code.len() {
        Outcome::Halted(f)
    } else if fuel == 0 {
        Outcome::Failed(f, Failure::StepLimitExceeded)
    } else {
        match step_spec(code, tx, block, f) {
            Outcome::Running(g) => run_spec(code, tx, block, g, (fuel - 1) as nat),
            other => other,
        }
    }
}

pub open spec fn initial_frame() -> Frame {
    Frame { pc: 0, stack: Seq::empty(), memory: Seq::empty() }
}

/// The stack, top first, of the frame an outcome ends in.
pub open spec fn final_stack(o: Outcome) -> Seq<nat> {
    match o {
        Outcome::Running(f) => f.stack.reverse(),
        Outcome::Halted(f) => f.stack.reverse(),
        Outcome::Failed(f, _) => f.stack.reverse(),
    }
}

pub open spec fn failure_of(o: Outcome) -> Option<Failure> {
    match o {
        Outcome::Failed(_, e) => Some(e),
        _ => None,
    }
}

/// The result of a run: the final stack, top first, and whether it succeeded.
pub struct EvmResult {
    pub stack: Vec<U256>,
    pub success: bool,
    /// Why the run failed, when it did.
    pub failure: Option<Failure>,
}

/// What a step did, in executable form.
pub enum Status {
    Running,
    Halted,
    Failed(Failure),
}

pub open spec fn status_matches(st: Status, g: Frame, o: Outcome) -> bool {
    match o {
        Outcome::Running(h) => st is Running && g == h,
        Outcome::Halted(h) => st is Halted && g == h,
        Outcome::Failed(h, e) => st == Status::Failed(e) && g == h,
    }
}

} // verus!
