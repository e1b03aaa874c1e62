//! Transaction and block values that context opcodes read.
use vstd::prelude::*;
use primitive_types::U256;
use crate::fault::Failure;
use crate::word::val;

verus! {

/// Transaction fields, each an optional hexadecimal string.
pub struct Txn {
    pub value: Option<String>,
    pub data: Option<String>,
    pub from: Option<String>,
    pub to: Option<String>,
    pub gas: Option<String>,
    pub origin: Option<String>,
    pub gasprice: Option<String>,
}

/// Block fields, each an optional hexadecimal string.
pub struct Block {
    pub basefee: Option<String>,
    pub coinbase: Option<String>,
    pub timestamp: Option<String>,
    pub number: Option<String>,
    pub difficulty: Option<String>,
    pub gaslimit: Option<String>,
    pub chainid: Option<String>,
}

pub const ADDRESS: u8 = 0x30;
pub const ORIGIN: u8 = 0x32;
pub const CALLER: u8 = 0x33;
pub const GASPRICE: u8 = 0x3a;
pub const COINBASE: u8 = 0x41;
pub const TIMESTAMP: u8 = 0x42;
pub const NUMBER: u8 = 0x43;
pub const DIFFICULTY: u8 = 0x44;
pub const GASLIMIT: u8 = 0x45;
pub const CHAINID: u8 = 0x46;
pub const BASEFEE: u8 = 0x48;

pub open spec fn is_tx_op(op: u8) -> bool {
    op == ADDRESS || op == ORIGIN || op == CALLER || op == GASPRICE
}

pub open spec fn is_block_op(op: u8) -> bool {
    (COINBASE <= op && op <= CHAINID) || op == BASEFEE
}

pub open spec fn is_context_op(op: u8) -> bool {
    is_tx_op(op) || is_block_op(op)
}

pub open spec fn is_hex_digit(c: char) -> bool {
    ('0' <= c && c <= '9') || ('a' <= c && c <= 'f') || ('A' <= c && c <= 'F')
}

pub open spec fn hex_digit_value(c: char) -> nat {
    if '0' <= c && c <= '9' {
        (c as u32 - '0' as u32) as nat
    } else if 'a' <= c && c <= 'f' {
        (c as u32 - 'a' as u32 + 10) as nat
    } else {
        (c as u32 - 'A' as u32 + 10) as nat
    }
}

/// The digits of a hexadecimal string: an optional leading `0x` is dropped.
pub open spec fn hex_digits(s: Seq<char>) -> Seq<char> {
    if s.len() >= 2 && s[0] == '0' && s[1] == 'x' { s.skip(2) } else { s }
}

/// The number that a sequence of hexadecimal digits stands for.
pub open spec fn hex_value(s: Seq<char>) -> nat
    decreases s.len(),
{
    if s.len() == 0 {
        0
    } else {
        (hex_value(s.drop_last()) * 16 + hex_digit_value(s.last())) as nat
    }
}

/// Whether `s` reads as a word: at most 64 hexadecimal digits after an
/// optional `0x` (none at all reads as 0).
pub open spec fn is_word_text(s: Seq<char>) -> bool {
    &&& hex_digits(s).len() <= 64
    &&& forall|i: int| 0 <= i < hex_digits(s).len() ==> is_hex_digit(#[trigger] hex_digits(s)[i])
}

/// Relies on `U256::from_str_radix(_, 16)`: strips one `0x`, takes at most 64
/// digits of either case, and fails on anything else.
#[verifier::external_body]
fn parse_hex_word(s: &str) -> (r: Option<U256>)
    ensures
        r is Some == is_word_text(s@),
        r is Some ==> val(r->Some_0) == hex_value(hex_digits(s@)),
{
    U256::from_str_radix(s, 16).ok()
}

/// What a context field yields: 0 when absent, its value when it reads as
/// a word, else a failure.
pub open spec fn field_result(f: Option<String>) -> Result<nat, Failure> {
    match f {
        None => Ok(0),
        Some(s) => if is_word_text(s@) {
            Ok(hex_value(hex_digits(s@)))
        } else {
            Err(Failure::InvalidContextValue)
        },
    }
}

pub open spec fn tx_field(t: Txn, op: u8) -> Option<String> {
    if op == ADDRESS {
        t.to
    } else if op == ORIGIN {
        t.origin
    } else if op == CALLER {
        t.from
    } else {
        t.gasprice
    }
}

pub open spec fn block_field(b: Block, op: u8) -> Option<String> {
    if op == COINBASE {
        b.coinbase
    } else if op == TIMESTAMP {
        b.timestamp
    } else if op == NUMBER {
        b.number
    } else if op == DIFFICULTY {
        b.difficulty
    } else if op == GASLIMIT {
        b.gaslimit
    } else if op == CHAINID {
        b.chainid
    } else {
        b.basefee
    }
}

/// The value that context opcode `op` pushes, or why it fails.
pub open spec fn context_result(op: u8, tx: Option<Txn>, block: Option<Block>) -> Result<
    nat,
    Failure,
> {
    if is_tx_op(op) {
        match tx {
            None => Err(Failure::MissingExecutionContext),
            Some(t) => field_result(tx_field(t, op)),
        }
    } else {
        match block {
            None => Err(Failure::MissingExecutionContext),
            Some(b) => field_result(block_field(b, op)),
        }
    }
}

fn field_value(f: &Option<String>) -> (r: Result<U256, Failure>)
    ensures
        r is Ok == field_result(*f) is Ok,
        r is Ok ==> val(r->Ok_0) == field_result(*f)->Ok_0,
        r is Err ==> r == Err::<U256, Failure>(field_result(*f)->Err_0),
{
    match f {
        None => Ok(crate::word::zero()),
        Some(s) => match parse_hex_word(s.as_str()) {
            Some(w) => Ok(w),
            None => Err(Failure::InvalidContextValue),
        },
    }
}

/// Reads the value of context opcode `op`.
pub fn context_value(op: u8, tx: &Option<Txn>, block: &Option<Block>) -> (r: Result<
    U256,
    Failure,
>)
    requires
        is_context_op(op),
    ensures
        r is Ok == context_result(op, *tx, *block) is Ok,
        r is Ok ==> val(r->Ok_0) == context_result(op, *tx, *block)->Ok_0,
        r is Err ==> r == Err::<U256, Failure>(context_result(op, *tx, *block)->Err_0),
{
    if op == ADDRESS || op == ORIGIN || op == CALLER || op == GASPRICE {
        match tx {
            None => Err(Failure::MissingExecutionContext),
            Some(t) => {
                let f = if op == ADDRESS {
                    &t.to
                } else if op == ORIGIN {
                    &t.origin
                } else if op == CALLER {
                    &t.from
                } else {
                    &t.gasprice
                };
                field_value(f)
            },
        }
    } else {
        match block {
            None => Err(Failure::MissingExecutionContext),
            Some(b) => {
                let f = if op == COINBASE {
                    &b.coinbase
                } else if op == TIMESTAMP {
                    &b.timestamp
                } else if op == NUMBER {
                    &b.number
                } else if op == DIFFICULTY {
                    &b.difficulty
                } else if op == GASLIMIT {
                    &b.gaslimit
                } else if op == CHAINID {
                    &b.chainid
                } else {
                    &b.basefee
                };
                field_value(f)
            },
        }
    }
}

} // verus!
