//! The executable machine: one step at a time, and whole runs.
use vstd::prelude::*;
use primitive_types::U256;
use crate::arith::{
    is_zero, op_add, op_addmod, op_and, op_byte, op_div, op_eq, op_exp, op_gt, op_iszero, op_lt,
    op_mod, op_mul, op_mulmod, op_not, op_or, op_sar, op_sdiv, op_sgt, op_shl, op_shr,
    op_signextend, op_slt, op_smod, op_sub, op_xor, small_value,
};
use crate::context::{
    ADDRESS, BASEFEE, Block, CALLER, CHAINID, COINBASE, GASPRICE, ORIGIN, Txn, context_value,
    is_context_op,
};
use crate::digest::keccak256;
use crate::fault::Failure;
use crate::interp::{
    ADD, ADDMOD, AND, BYTE, DEFAULT_STEP_LIMIT, DIV, DUP1, DUP16, EQ, EXP, EvmResult, Frame, GAS,
    GT, INVALID, ISZERO, JUMP, JUMPI, KECCAK256, LT, MLOAD, MOD, MSIZE, MSTORE, MSTORE8, MUL,
    MULMOD, NOT, OR, Outcome, PC, POP, PUSH0, PUSH32, SAR, SDIV, SGT, SHL, SHR, SIGNEXTEND, SLT,
    SMOD, STOP, SUB, SWAP1, SWAP16, Status, XOR, arith_step, binary_spec, failure_of, final_stack,
    flow_op_step, immediate, initial_frame, is_arith_op, is_binary_op, is_flow_op, is_memory_op,
    is_stack_op, memory_op_step, push_op_step, push_step, run_spec, stack_op_step, status_matches,
    step_spec,
};
use crate::memory::{MEMORY_LIMIT, Memory};
use crate::program::{JUMPDEST, Program, lemma_dests_from_above, valid_destinations};
use crate::stack::{Stack, vals};
use crate::word::{from_be_bytes, from_u64, less_than, max_word, remainder, small_value_u32, val};

verus! {

/// Program, stack, memory and program counter of one run.
pub struct Machine {
    program: Program,
    stack: Stack,
    memory: Memory,
    pc: usize,
}

/// What binary opcode `op` computes from the top `a` and the next `b`.
fn binary(op: u8, a: U256, b: U256) -> (r: U256)
    requires
        is_binary_op(op),
    ensures
        val(r) == binary_spec(op, val(a), val(b)),
{
    if op == ADD {
        op_add(a, b)
    } else if op == MUL {
        op_mul(a, b)
    } else if op == SUB {
        op_sub(a, b)
    } else if op == DIV {
        op_div(a, b)
    } else if op == SDIV {
        op_sdiv(a, b)
    } else if op == MOD {
        op_mod(a, b)
    } else if op == SMOD {
        op_smod(a, b)
    } else if op == EXP {
        op_exp(a, b)
    } else if op == SIGNEXTEND {
        op_signextend(a, b)
    } else if op == LT {
        op_lt(a, b)
    } else if op == GT {
        op_gt(a, b)
    } else if op == SLT {
        op_slt(a, b)
    } else if op == SGT {
        op_sgt(a, b)
    } else if op == EQ {
        op_eq(a, b)
    } else if op == AND {
        op_and(a, b)
    } else if op == OR {
        op_or(a, b)
    } else if op == XOR {
        op_xor(a, b)
    } else if op == BYTE {
        op_byte(a, b)
    } else if op == SHL {
        op_shl(a, b)
    } else if op == SHR {
        op_shr(a, b)
    } else {
        op_sar(a, b)
    }
}

fn binary_op(op: u8) -> (r: bool)
    ensures
        r == is_binary_op(op),
{
    (ADD <= op && op <= SMOD) || op == EXP || op == SIGNEXTEND || (LT <= op && op <= EQ) || (AND
        <= op && op <= XOR) || (BYTE <= op && op <= SAR)
}

/// A word below `MEMORY_LIMIT`, as an offset.
fn offset_of(w: U256) -> (r: usize)
    requires
        val(w) <= MEMORY_LIMIT,
    ensures
        r == val(w),
{
    small_value(w) as usize
}

impl Machine {
    pub closed spec fn frame(&self) -> Frame {
        Frame { pc: self.pc as nat, stack: self.stack@, memory: self.memory@ }
    }

    pub closed spec fn code(&self) -> Seq<u8> {
        self.program.code_view()
    }

    pub closed spec fn wf(&self) -> bool {
        &&& self.program.wf()
        &&& self.stack.wf()
        &&& self.memory.wf()
        &&& self.pc <= self.program.code_view().len()
        &&& self.program.code_view().len() <= usize::MAX
    }

    /// A machine at the start of `code`: pc 0, stack and memory empty.
    pub fn new(code: Vec<u8>) -> (r: Machine)
        ensures
            r.wf(),
            r.code() == code@,
            r.frame() == initial_frame(),
    {
        let _ = code.len();
        Machine { program: Program::new(code), stack: Stack::new(), memory: Memory::new(), pc: 0 }
    }

    /// Pushes `w` and moves to `next`, unless the stack is full.
    fn push_then(&mut self, w: U256, next: usize) -> (r: Status)
        requires
            old(self).wf(),
            next <= old(self).code().len(),
        ensures
            final(self).wf(),
            final(self).code() == old(self).code(),
            status_matches(r, final(self).frame(), push_step(old(self).frame(), val(w), next as nat)),
    {
        match self.stack.push(w) {
            Ok(()) => {
                self.pc = next;
                assert(self.stack@ =~= old(self).stack@.take(old(self).stack@.len() - 0).push(
                    val(w),
                ));
                Status::Running
            },
            Err(e) => Status::Failed(e),
        }
    }

    fn exec_arith(&mut self, op: u8) -> (r: Status)
        requires
            old(self).wf(),
            old(self).pc < old(self).code().len(),
            is_arith_op(op),
        ensures
            final(self).wf(),
            final(self).code() == old(self).code(),
            status_matches(r, final(self).frame(), arith_step(op, old(self).frame())),
    {
        let n = self.stack.len();
        let ghost s = self.stack@;
        let v;
        let k: usize;
        if binary_op(op) {
            if n < 2 {
                return Status::Failed(Failure::StackUnderflow);
            }
            v = binary(op, self.stack.get(0), self.stack.get(1));
            k = 2;
        } else if op == ADDMOD || op == MULMOD {
            if n < 3 {
                return Status::Failed(Failure::StackUnderflow);
            }
            let (a, b, m) = (self.stack.get(0), self.stack.get(1), self.stack.get(2));
            v = if op == ADDMOD { op_addmod(a, b, m) } else { op_mulmod(a, b, m) };
            k = 3;
        } else {
            if n < 1 {
                return Status::Failed(Failure::StackUnderflow);
            }
            let a = self.stack.get(0);
            v = if op == ISZERO { op_iszero(a) } else { op_not(a) };
            k = 1;
        }
        self.drop_n(k);
        let _ = self.stack.push(v);
        self.pc = self.pc + 1;
        Status::Running
    }

    /// Removes the top `k` elements.
    fn drop_n(&mut self, k: usize)
        requires
            old(self).wf(),
            k <= old(self).stack@.len(),
        ensures
            final(self).wf(),
            final(self).code() == old(self).code(),
            final(self).pc == old(self).pc,
            final(self).memory@ == old(self).memory@,
            final(self).stack@ == old(self).stack@.take(old(self).stack@.len() - k),
    {
        let ghost s = self.stack@;
        let n = self.stack.len();
        let mut i: usize = 0;
        while i < k
            invariant
                i <= k <= n,
                n == s.len(),
                self.program == old(self).program,
                self.pc == old(self).pc,
                self.memory@ == old(self).memory@,
                self.memory.wf(),
                self.pc <= self.program.code_view().len(),
                self.program.wf(),
                self.stack.wf(),
                self.stack@ == s.take(n - i),
            decreases k - i,
        {
            self.stack.drop_top();
            i = i + 1;
            assert(self.stack@ =~= s.take(n - i));
        }
    }

    fn exec_push(&mut self, op: u8) -> (r: Status)
        requires
            old(self).wf(),
            old(self).pc < old(self).code().len(),
            PUSH0 <= op <= PUSH32,
        ensures
            final(self).wf(),
            final(self).code() == old(self).code(),
            status_matches(r, final(self).frame(), push_op_step(old(self).code(), op, old(self).frame())),
    {
        let k: usize = (op - PUSH0) as usize;
        let len = self.program.len();
        let pc = self.pc;
        let ghost code = self.program.code_view();
        let mut bytes: Vec<u8> = Vec::new();
        let mut j: usize = 0;
        while j < k
            invariant
                j <= k <= 32,
                pc < len,
                len == code.len(),
                code == self.program.code_view(),
                bytes@ == immediate(code, pc as nat, k as nat).take(j as int),
            decreases k - j,
        {
            let b = if j < len - pc - 1 { self.program.byte_at(pc + 1 + j) } else { 0u8 };
            bytes.push(b);
            j = j + 1;
            assert(bytes@ =~= immediate(code, pc as nat, k as nat).take(j as int));
        }
        assert(bytes@ =~= immediate(code, pc as nat, k as nat));
        let v = from_be_bytes(bytes.as_slice());
        let next = if k + 1 <= len - pc { pc + k + 1 } else { len };
        self.push_then(v, next)
    }

    fn exec_stack_op(&mut self, op: u8) -> (r: Status)
        requires
            old(self).wf(),
            old(self).pc < old(self).code().len(),
            is_stack_op(op),
        ensures
            final(self).wf(),
            final(self).code() == old(self).code(),
            status_matches(r, final(self).frame(), stack_op_step(op, old(self).frame())),
    {
        let n = self.stack.len();
        if op == POP {
            if n < 1 {
                return Status::Failed(Failure::StackUnderflow);
            }
            self.stack.drop_top();
            self.pc = self.pc + 1;
            Status::Running
        } else if op <= DUP16 {
            let k = (op - DUP1 + 1) as usize;
            if n < k {
                return Status::Failed(Failure::StackUnderflow);
            }
            let w = self.stack.get(k - 1);
            self.push_then(w, self.pc + 1)
        } else {
            let k = (op - SWAP1 + 1) as usize;
            match self.stack.swap(k) {
                Ok(()) => {
                    self.pc = self.pc + 1;
                    Status::Running
                },
                Err(e) => Status::Failed(e),
            }
        }
    }

    fn exec_memory_op(&mut self, op: u8) -> (r: Status)
        requires
            old(self).wf(),
            old(self).pc < old(self).code().len(),
            is_memory_op(op),
        ensures
            final(self).wf(),
            final(self).code() == old(self).code(),
            status_matches(r, final(self).frame(), memory_op_step(op, old(self).frame())),
    {
        let n = self.stack.len();
        let next = self.pc + 1;
        let limit = from_u64(MEMORY_LIMIT as u64);
        if op == MSIZE {
            return self.push_then(from_u64(self.memory.size() as u64), next);
        }
        if op == MLOAD {
            if n < 1 {
                return Status::Failed(Failure::StackUnderflow);
            }
            let off_w = self.stack.get(0);
            if !less_than(off_w, from_u64((MEMORY_LIMIT - 31) as u64)) {
                return Status::Failed(Failure::MemoryLimitExceeded);
            }
            let off = offset_of(off_w);
            let v = self.memory.read_word(off);
            self.stack.drop_top();
            let _ = self.stack.push(v);
            self.pc = next;
            return Status::Running;
        }
        if n < 2 {
            return Status::Failed(Failure::StackUnderflow);
        }
        let off_w = self.stack.get(0);
        let second = self.stack.get(1);
        if less_than(limit, off_w) {
            return Status::Failed(Failure::MemoryLimitExceeded);
        }
        let off = offset_of(off_w);
        if op == MSTORE {
            if off > MEMORY_LIMIT - 32 {
                return Status::Failed(Failure::MemoryLimitExceeded);
            }
            self.memory.write_word(off, second);
        } else if op == MSTORE8 {
            if off > MEMORY_LIMIT - 1 {
                return Status::Failed(Failure::MemoryLimitExceeded);
            }
            let low = remainder(second, from_u64(256));
            let b = small_value_u32(low) as u8;
            self.memory.write_byte(off, b);
        } else {
            if less_than(limit, second) {
                return Status::Failed(Failure::MemoryLimitExceeded);
            }
            let length = offset_of(second);
            if length > MEMORY_LIMIT - off {
                return Status::Failed(Failure::MemoryLimitExceeded);
            }
            let window = self.memory.window(off, length);
            let digest = keccak256(window.as_slice());
            let v = from_be_bytes(digest.as_slice());
            self.drop_n(2);
            let _ = self.stack.push(v);
            self.pc = next;
            return Status::Running;
        }
        self.drop_n(2);
        self.pc = next;
        Status::Running
    }

    fn exec_flow_op(&mut self, op: u8) -> (r: Status)
        requires
            old(self).wf(),
            old(self).pc < old(self).code().len(),
            is_flow_op(op),
        ensures
            final(self).wf(),
            final(self).code() == old(self).code(),
            status_matches(r, final(self).frame(), flow_op_step(old(self).code(), op, old(self).frame())),
    {
        let n = self.stack.len();
        let next = self.pc + 1;
        if op == PC {
            return self.push_then(from_u64(self.pc as u64), next);
        }
        if op == GAS {
            return self.push_then(max_word(), next);
        }
        if op == JUMPDEST {
            self.pc = next;
            return Status::Running;
        }
        let k: usize = if op == JUMP { 1 } else { 2 };
        if n < k {
            return Status::Failed(Failure::StackUnderflow);
        }
        if op == JUMPI && is_zero(self.stack.get(1)) {
            self.drop_n(2);
            self.pc = next;
            return Status::Running;
        }
        let target = self.stack.get(0);
        let len = self.program.len();
        self.drop_n(k);
        if !less_than(target, from_u64(len as u64)) {
            proof {
                if valid_destinations(self.code()).contains(val(target)) {
                    lemma_dests_from_above(self.code(), 0, val(target));
                }
            }
            return Status::Failed(Failure::InvalidJumpDestination);
        }
        let t = small_value(target) as usize;
        if !self.program.is_valid_destination(t) {
            return Status::Failed(Failure::InvalidJumpDestination);
        }
        self.pc = t;
        Status::Running
    }

    fn exec_context_op(&mut self, op: u8, tx: &Option<Txn>, block: &Option<Block>) -> (r: Status)
        requires
            old(self).wf(),
            old(self).pc < old(self).code().len(),
            is_context_op(op),
        ensures
            final(self).wf(),
            final(self).code() == old(self).code(),
            status_matches(
                r,
                final(self).frame(),
                match crate::context::context_result(op, *tx, *block) {
                    Ok(v) => push_step(old(self).frame(), v, (old(self).pc + 1) as nat),
                    Err(e) => Outcome::Failed(old(self).frame(), e),
                },
            ),
    {
        match context_value(op, tx, block) {
            Ok(w) => self.push_then(w, self.pc + 1),
            Err(e) => Status::Failed(e),
        }
    }

    /// Executes the instruction at the program counter.
    pub fn step(&mut self, tx: &Option<Txn>, block: &Option<Block>) -> (r: Status)
        requires
            old(self).wf(),
            old(self).frame().pc < old(self).code().len(),
        ensures
            final(self).wf(),
            final(self).code() == old(self).code(),
            status_matches(
                r,
                final(self).frame(),
                step_spec(old(self).code(), *tx, *block, old(self).frame()),
            ),
    {
        let op = self.program.byte_at(self.pc);
        if op == STOP {
            Status::Halted
        } else if binary_op(op) || op == ADDMOD || op == MULMOD || op == ISZERO || op == NOT {
            self.exec_arith(op)
        } else if PUSH0 <= op && op <= PUSH32 {
            self.exec_push(op)
        } else if op == POP || (DUP1 <= op && op <= SWAP16) {
            self.exec_stack_op(op)
        } else if op == MLOAD || op == MSTORE || op == MSTORE8 || op == MSIZE || op == KECCAK256 {
            self.exec_memory_op(op)
        } else if op == JUMP || op == JUMPI || op == PC || op == GAS || op == JUMPDEST {
            self.exec_flow_op(op)
        } else if op == ADDRESS || op == ORIGIN || op == CALLER || op == GASPRICE || (COINBASE <= op
            && op <= CHAINID) || op == BASEFEE {
            self.exec_context_op(op, tx, block)
        } else if op == INVALID {
            Status::Failed(Failure::ExplicitFault)
        } else {
            Status::Halted
        }
    }

    /// The result of a run that ended in this machine's state.
    fn finish(&self, success: bool, failure: Option<Failure>) -> (r: EvmResult)
        ensures
            vals(r.stack@) == self.stack@.reverse(),
            r.success == success,
            r.failure == failure,
    {
        EvmResult { stack: self.stack.to_vec_top_first(), success, failure }
    }
}

/// Runs `code` for at most `max_steps` steps. Memory is bounded by
/// `MEMORY_LIMIT` (16 MiB); an access beyond it fails the run with
/// `Failure::MemoryLimitExceeded`.
pub fn run(code: &[u8], tx: &Option<Txn>, block: &Option<Block>, max_steps: u64) -> (r: EvmResult)
    ensures
        vals(r.stack@) == final_stack(run_spec(code@, *tx, *block, initial_frame(), max_steps as nat)),
        r.success == (run_spec(code@, *tx, *block, initial_frame(), max_steps as nat) is Halted),
        r.failure == failure_of(run_spec(code@, *tx, *block, initial_frame(), max_steps as nat)),
{
    let mut owned: Vec<u8> = Vec::new();
    let mut i: usize = 0;
    while i < code.len()
        invariant
            i <= code@.len(),
            owned@ == code@.take(i as int),
        decreases code@.len() - i,
    {
        owned.push(code[i]);
        i = i + 1;
        assert(owned@ =~= code@.take(i as int));
    }
    assert(owned@ =~= code@);
    let mut m = Machine::new(owned);
    let ghost whole = run_spec(code@, *tx, *block, initial_frame(), max_steps as nat);
    let mut fuel = max_steps;
    loop
        invariant
            m.wf(),
            m.code() == code@,
            run_spec(code@, *tx, *block, m.frame(), fuel as nat) == whole,
            whole == run_spec(code@, *tx, *block, initial_frame(), max_steps as nat),
        decreases fuel,
    {
        if m.pc >= m.program.len() {
            assert(run_spec(code@, *tx, *block, m.frame(), fuel as nat) == Outcome::Halted(m.frame()));
            return m.finish(true, None);
        }
        if fuel == 0 {
            assert(run_spec(code@, *tx, *block, m.frame(), fuel as nat) == Outcome::Failed(
                m.frame(),
                Failure::StepLimitExceeded,
            ));
            return m.finish(false, Some(Failure::StepLimitExceeded));
        }
        match m.step(tx, block) {
            Status::Running => {
                fuel = fuel - 1;
            },
            Status::Halted => {
                return m.finish(true, None);
            },
            Status::Failed(e) => {
                return m.finish(false, Some(e));
            },
        }
    }
}

/// Runs `code` against the given transaction and block, stopping a run that
/// takes more than `DEFAULT_STEP_LIMIT` steps. Memory is bounded by
/// `MEMORY_LIMIT` (16 MiB); an access beyond it fails the run with
/// `Failure::MemoryLimitExceeded`.
pub fn evm(code: &[u8], tx: &Option<Txn>, block: &Option<Block>) -> (r: EvmResult)
    ensures
        vals(r.stack@) == final_stack(
            run_spec(code@, *tx, *block, initial_frame(), DEFAULT_STEP_LIMIT as nat),
        ),
        r.success == (run_spec(
            code@,
            *tx,
            *block,
            initial_frame(),
            DEFAULT_STEP_LIMIT as nat,
        ) is Halted),
        r.failure == failure_of(
            run_spec(code@, *tx, *block, initial_frame(), DEFAULT_STEP_LIMIT as nat),
        ),
{
    run(code, tx, block, DEFAULT_STEP_LIMIT)
}

} // verus!
