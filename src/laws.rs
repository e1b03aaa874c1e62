//! Properties of the interpreter, stated over its step semantics.
use vstd::prelude::*;
use vstd::arithmetic::power2::lemma2_to64;
use crate::arith::{addmod_spec, mulmod_spec, sar_spec, signextend_spec};
use crate::context::{Block, Txn};
use crate::fault::Failure;
use crate::interp::{
    ADD, ADDMOD, DIV, JUMP, MOD, MUL, MULMOD, PUSH32, Frame, Outcome, SDIV, SMOD, SUB, arith_step,
    binary_spec, flow_op_step, immediate, initial_frame, is_binary_op, nth, replaced, run_spec,
    step_spec, is_memory_op, MSIZE, MLOAD, MSTORE, MSTORE8,
};
use crate::memory::{MEMORY_LIMIT, ceil32, expanded};
use crate::program::{is_instruction_start, lemma_push_data_not_destination, push_size};
use crate::word::{
    be_bytes, be_val, lemma_be_bytes_len, lemma_be_round_trip, lemma_word_bytes_bound, modulus,
    signed,
};

verus! {

/// A run is a function of the program, the transaction and the block: the
/// same inputs give the same outcome.
pub proof fn lemma_run_deterministic(
    code1: Seq<u8>,
    code2: Seq<u8>,
    tx1: Option<Txn>,
    tx2: Option<Txn>,
    block1: Option<Block>,
    block2: Option<Block>,
    f1: Frame,
    f2: Frame,
    fuel: nat,
)
    requires
        code1 == code2,
        tx1 == tx2,
        block1 == block2,
        f1 == f2,
    ensures
        run_spec(code1, tx1, block1, f1, fuel) == run_spec(code2, tx2, block2, f2, fuel),
{
}

/// ADD, MUL and SUB wrap modulo 2^256; the largest word plus 1 is 0.
pub proof fn lemma_wrapping_arithmetic(a: nat, b: nat)
    requires
        a < modulus(),
        b < modulus(),
    ensures
        binary_spec(ADD, a, b) == (a + b) % modulus(),
        binary_spec(MUL, a, b) == (a * b) % modulus(),
        binary_spec(SUB, a, b) == (a - b) % (modulus() as int),
        binary_spec(ADD, (modulus() - 1) as nat, 1) == 0,
{
}

/// DIV, MOD, SDIV and SMOD by zero push 0 and the run goes on.
pub proof fn lemma_division_by_zero(op: u8, f: Frame)
    requires
        op == DIV || op == MOD || op == SDIV || op == SMOD,
        f.stack.len() >= 2,
        nth(f.stack, 1) == 0,
    ensures
        arith_step(op, f) == Outcome::Running(replaced(f, 2, 0, f.pc + 1)),
{
}

/// ADDMOD and MULMOD by zero give 0; otherwise they reduce the exact sum or
/// product, never a sum or product already taken modulo 2^256.
pub proof fn lemma_modular_arithmetic(a: nat, b: nat, n: nat)
    ensures
        n == 0 ==> addmod_spec(a, b, n) == 0 && mulmod_spec(a, b, n) == 0,
        n != 0 ==> addmod_spec(a, b, n) == (a + b) % n && mulmod_spec(a, b, n) == (a * b) % n,
{
}

/// SIGNEXTEND from byte 31 or beyond changes nothing; from byte 0 with the
/// high bit of the low byte set, every bit above bit 7 becomes 1.
pub proof fn lemma_signextend(b: nat, x: nat)
    ensures
        b >= 31 ==> signextend_spec(b, x) == x,
        b == 0 && x % 256 >= 128 ==> signextend_spec(b, x) == modulus() - 256 + x % 256,
{
    lemma2_to64();
}

/// SAR by 256 or more gives all ones on a negative value and 0 otherwise.
pub proof fn lemma_sar_large_shift(s: nat, x: nat)
    requires
        s >= 256,
    ensures
        signed(x) < 0 ==> sar_spec(s, x) == modulus() - 1,
        signed(x) >= 0 ==> sar_spec(s, x) == 0,
{
}

/// A JUMP to a byte inside the immediate data of a PUSH fails, even when
/// that byte holds the JUMPDEST value; the target is popped.
pub proof fn lemma_jump_into_push_data(code: Seq<u8>, p: nat, f: Frame)
    requires
        is_instruction_start(code, p),
        p < code.len(),
        f.stack.len() >= 1,
        p < nth(f.stack, 0) <= p + push_size(code[p as int]),
    ensures
        flow_op_step(code, JUMP, f) == Outcome::Failed(
            Frame { stack: f.stack.drop_last(), ..f },
            Failure::InvalidJumpDestination,
        ),
{
    lemma_push_data_not_destination(code, p, nth(f.stack, 0));
}

/// Memory only grows, keeps what it held, stays a multiple of 32 long and
/// covers the address touched; touching byte 5 of empty memory gives 32 bytes.
pub proof fn lemma_memory_growth(mem: Seq<u8>, end: nat)
    requires
        mem.len() % 32 == 0,
    ensures
        expanded(mem, end).len() % 32 == 0,
        expanded(mem, end).len() >= mem.len(),
        expanded(mem, end).len() >= end,
        expanded(mem, end).take(mem.len() as int) == mem,
        end > mem.len() ==> expanded(mem, end).len() == ceil32(end),
        mem.len() == 0 && end == 6 ==> expanded(mem, end).len() == 32,
{
    if end > mem.len() {
        assert(expanded(mem, end).take(mem.len() as int) =~= mem);
    } else {
        assert(mem.take(mem.len() as int) =~= mem);
    }
}

/// Every step keeps memory a multiple of 32 bytes long, never shrinks it, and
/// keeps it covering each window a memory opcode touched.
pub proof fn lemma_step_memory(code: Seq<u8>, tx: Option<Txn>, block: Option<Block>, f: Frame)
    requires
        f.memory.len() % 32 == 0,
        f.memory.len() <= MEMORY_LIMIT,
    ensures
        step_spec(code, tx, block, f) is Running ==> {
            let g = step_spec(code, tx, block, f)->Running_0;
            &&& g.memory.len() % 32 == 0
            &&& g.memory.len() >= f.memory.len()
            &&& g.memory.len() <= MEMORY_LIMIT
        },
{
    if f.pc < code.len() && step_spec(code, tx, block, f) is Running {
        let op = code[f.pc as int];
        let s = f.stack;
        if is_memory_op(op) && op != MSIZE && s.len() >= 1 {
            let off = nth(s, 0);
            if op == MLOAD {
                lemma_memory_growth(f.memory, off + 32);
            } else if s.len() >= 2 {
                let second = nth(s, 1);
                if op == MSTORE {
                    lemma_memory_growth(f.memory, off + 32);
                    lemma_be_bytes_len(second, 32);
                } else if op == MSTORE8 {
                    lemma_memory_growth(f.memory, off + 1);
                } else {
                    lemma_memory_growth(f.memory, off + second);
                }
            }
        }
    }
}

/// The bytes of `PUSH32 w`.
pub open spec fn push32_code(w: nat) -> Seq<u8> {
    seq![PUSH32].add(be_bytes(w, 32))
}

/// `PUSH32` at `pc` pushes the word encoded in the 32 bytes after it.
proof fn lemma_push32_reads(code: Seq<u8>, pc: nat, w: nat)
    requires
        w < modulus(),
        pc + 33 <= code.len(),
        code.subrange(pc + 1int, pc + 33int) == be_bytes(w, 32),
    ensures
        be_val(immediate(code, pc, 32)) == w,
{
    lemma_be_bytes_len(w, 32);
    lemma_word_bytes_bound();
    assert(immediate(code, pc, 32) =~= be_bytes(w, 32));
    lemma_be_round_trip(w, 32);
}

/// A run of `PUSH32 b`, `PUSH32 a`, `op` for a binary opcode `op` halts with
/// success and the single value that `op` gives for `a` (top) and `b`, for
/// every pair of words and every transaction and block: ADD, MUL and SUB
/// wrap, division by zero gives 0, SIGNEXTEND extends as its formula says.
pub proof fn lemma_binary_program(
    op: u8,
    a: nat,
    b: nat,
    tx: Option<Txn>,
    block: Option<Block>,
    fuel: nat,
)
    requires
        is_binary_op(op),
        a < modulus(),
        b < modulus(),
        fuel >= 3,
    ensures
        run_spec(push32_code(b) + push32_code(a) + seq![op], tx, block, initial_frame(), fuel)
            == Outcome::Halted(
            Frame { pc: 67, stack: seq![binary_spec(op, a, b)], memory: Seq::empty() },
        ),
{
    let code = push32_code(b) + push32_code(a) + seq![op];
    lemma_be_bytes_len(a, 32);
    lemma_be_bytes_len(b, 32);
    assert(code.len() == 67);
    assert(code.subrange(1, 33) =~= be_bytes(b, 32));
    assert(code.subrange(34, 66) =~= be_bytes(a, 32));
    assert(code[0] == PUSH32 && code[33] == PUSH32 && code[66] == op);
    lemma_push32_reads(code, 0, b);
    lemma_push32_reads(code, 33, a);
    let f0 = initial_frame();
    let f1 = Frame { pc: 33, stack: seq![b], memory: Seq::empty() };
    let f2 = Frame { pc: 66, stack: seq![b, a], memory: Seq::empty() };
    let f3 = Frame { pc: 67, stack: seq![binary_spec(op, a, b)], memory: Seq::empty() };
    assert(f0.stack.take(0).push(b) =~= f1.stack);
    assert(f1.stack.take(1).push(a) =~= f2.stack);
    assert(f2.stack.take(0).push(binary_spec(op, a, b)) =~= f3.stack);
    assert(step_spec(code, tx, block, f0) == Outcome::Running(f1));
    assert(step_spec(code, tx, block, f1) == Outcome::Running(f2));
    assert(step_spec(code, tx, block, f2) == Outcome::Running(f3));
    assert(run_spec(code, tx, block, f3, (fuel - 3) as nat) == Outcome::Halted(f3));
    assert(run_spec(code, tx, block, f2, (fuel - 2) as nat) == Outcome::Halted(f3));
    assert(run_spec(code, tx, block, f1, (fuel - 1) as nat) == Outcome::Halted(f3));
}

/// A run of `PUSH32 n`, `PUSH32 b`, `PUSH32 a`, then ADDMOD or MULMOD halts
/// with success and `(a + b) % n` or `(a * b) % n` over the exact sum or
/// product, 0 when `n` is 0, for every three words.
pub proof fn lemma_modular_program(
    op: u8,
    a: nat,
    b: nat,
    n: nat,
    tx: Option<Txn>,
    block: Option<Block>,
    fuel: nat,
)
    requires
        op == ADDMOD || op == MULMOD,
        a < modulus(),
        b < modulus(),
        n < modulus(),
        fuel >= 4,
    ensures
        run_spec(
            push32_code(n) + push32_code(b) + push32_code(a) + seq![op],
            tx,
            block,
            initial_frame(),
            fuel,
        ) == Outcome::Halted(
            Frame {
                pc: 100,
                stack: seq![
                    if n == 0 {
                        0
                    } else if op == ADDMOD {
                        (a + b) % n
                    } else {
                        (a * b) % n
                    },
                ],
                memory: Seq::empty(),
            },
        ),
{
    let code = push32_code(n) + push32_code(b) + push32_code(a) + seq![op];
    lemma_be_bytes_len(a, 32);
    lemma_be_bytes_len(b, 32);
    lemma_be_bytes_len(n, 32);
    assert(code.len() == 100);
    assert(code.subrange(1, 33) =~= be_bytes(n, 32));
    assert(code.subrange(34, 66) =~= be_bytes(b, 32));
    assert(code.subrange(67, 99) =~= be_bytes(a, 32));
    assert(code[0] == PUSH32 && code[33] == PUSH32 && code[66] == PUSH32 && code[99] == op);
    lemma_push32_reads(code, 0, n);
    lemma_push32_reads(code, 33, b);
    lemma_push32_reads(code, 66, a);
    let v = if op == ADDMOD {
        addmod_spec(a, b, n)
    } else {
        mulmod_spec(a, b, n)
    };
    let f0 = initial_frame();
    let f1 = Frame { pc: 33, stack: seq![n], memory: Seq::empty() };
    let f2 = Frame { pc: 66, stack: seq![n, b], memory: Seq::empty() };
    let f3 = Frame { pc: 99, stack: seq![n, b, a], memory: Seq::empty() };
    let f4 = Frame { pc: 100, stack: seq![v], memory: Seq::empty() };
    assert(f0.stack.take(0).push(n) =~= f1.stack);
    assert(f1.stack.take(1).push(b) =~= f2.stack);
    assert(f2.stack.take(2).push(a) =~= f3.stack);
    assert(f3.stack.take(0).push(v) =~= f4.stack);
    assert(step_spec(code, tx, block, f0) == Outcome::Running(f1));
    assert(step_spec(code, tx, block, f1) == Outcome::Running(f2));
    assert(step_spec(code, tx, block, f2) == Outcome::Running(f3));
    assert(step_spec(code, tx, block, f3) == Outcome::Running(f4));
    assert(run_spec(code, tx, block, f4, (fuel - 4) as nat) == Outcome::Halted(f4));
    assert(run_spec(code, tx, block, f3, (fuel - 3) as nat) == Outcome::Halted(f4));
    assert(run_spec(code, tx, block, f2, (fuel - 2) as nat) == Outcome::Halted(f4));
    assert(run_spec(code, tx, block, f1, (fuel - 1) as nat) == Outcome::Halted(f4));
}

} // verus!
