//! Bytecode with its precomputed set of valid jump destinations.
use vstd::prelude::*;

verus! {

/// The byte that marks a legal jump target.
pub const JUMPDEST: u8 = 0x5b;

/// How many immediate bytes follow `op` (PUSH1..PUSH32), else 0.
pub open spec fn push_size(op: u8) -> nat {
    if 0x60 <= op && op <= 0x7f { (op - 0x5f) as nat } else { 0 }
}

/// Offset of the instruction that follows the one at `i`.
pub open spec fn next_instruction(code: Seq<u8>, i: nat) -> nat {
    i + push_size(code[i as int]) + 1
}

/// The JUMPDEST offsets met by a scan of `code` that starts at `i` and steps
/// over the immediate data of each PUSH.
pub open spec fn dests_from(code: Seq<u8>, i: nat) -> Set<nat>
    decreases code.len() + 33 - i,
{
    if i >= code.len() {
        Set::empty()
    } else if code[i as int] == JUMPDEST && push_size(code[i as int]) == 0 {
        dests_from(code, next_instruction(code, i)).insert(i)
    } else {
        dests_from(code, next_instruction(code, i))
    }
}

/// The valid jump destinations of a program.
pub open spec fn valid_destinations(code: Seq<u8>) -> Set<nat> {
    dests_from(code, 0)
}

/// Whether the scan that starts at `i` decodes an instruction at `p`.
pub open spec fn decodes_from(code: Seq<u8>, i: nat, p: nat) -> bool
    decreases code.len() + 33 - i,
{
    if i >= code.len() || i > p {
        false
    } else if i == p {
        true
    } else {
        decodes_from(code, next_instruction(code, i), p)
    }
}

/// Whether an instruction of `code` starts at `p`.
pub open spec fn is_instruction_start(code: Seq<u8>, p: nat) -> bool {
    decodes_from(code, 0, p)
}

pub proof fn lemma_dests_from_above(code: Seq<u8>, i: nat, j: nat)
    requires
        dests_from(code, i).contains(j),
    ensures
        i <= j < code.len(),
    decreases code.len() + 33 - i,
{
    if i < code.len() {
        if j != i {
            lemma_dests_from_above(code, next_instruction(code, i), j);
        }
    }
}

/// A byte inside the immediate data of a PUSH is never a jump destination,
/// whatever its value.
pub proof fn lemma_push_data_not_destination(code: Seq<u8>, p: nat, q: nat)
    requires
        is_instruction_start(code, p),
        p < code.len(),
        p < q <= p + push_size(code[p as int]),
    ensures
        !valid_destinations(code).contains(q),
{
    lemma_push_data_not_dest_from(code, 0, p, q);
}

proof fn lemma_push_data_not_dest_from(code: Seq<u8>, i: nat, p: nat, q: nat)
    requires
        decodes_from(code, i, p),
        p < code.len(),
        p < q <= p + push_size(code[p as int]),
    ensures
        !dests_from(code, i).contains(q),
    decreases code.len() + 33 - i,
{
    if i == p {
        if dests_from(code, next_instruction(code, p)).contains(q) {
            lemma_dests_from_above(code, next_instruction(code, p), q);
        }
    } else {
        lemma_push_data_not_dest_from(code, next_instruction(code, i), p, q);
    }
}

/// An immutable program and, for each offset, whether it is a valid jump
/// destination.
pub struct Program {
    code: Vec<u8>,
    dest: Vec<bool>,
}

impl Program {
    pub closed spec fn code_view(&self) -> Seq<u8> {
        self.code@
    }

    pub closed spec fn wf(&self) -> bool {
        &&& self.dest@.len() == self.code@.len()
        &&& forall|j: int|
            0 <= j < self.code@.len() ==> #[trigger] self.dest@[j] == valid_destinations(
                self.code@,
            ).contains(j as nat)
    }

    /// Analyses `code` in one pass.
    pub fn new(code: Vec<u8>) -> (r: Program)
        ensures
            r.wf(),
            r.code_view() == code@,
    {
        let n = code.len();
        let mut dest: Vec<bool> = Vec::new();
        let mut k: usize = 0;
        while k < n
            invariant
                k <= n,
                dest@.len() == k,
                forall|j: int| 0 <= j < k ==> !#[trigger] dest@[j],
            decreases n - k,
        {
            dest.push(false);
            k = k + 1;
        }
        let mut i: usize = 0;
        while i < n
            invariant
                n == code@.len(),
                dest@.len() == n,
                forall|j: int|
                    0 <= j < n ==> #[trigger] dest@[j] == (j < i && valid_destinations(
                        code@,
                    ).contains(j as nat)),
                forall|j: nat|
                    j >= i ==> (#[trigger] valid_destinations(code@).contains(j)
                        == dests_from(code@, i as nat).contains(j)),
            decreases n - i,
        {
            let op = code[i];
            let step: usize = if 0x60 <= op && op <= 0x7f { (op - 0x5f) as usize + 1 } else { 1 };
            let ghost next = next_instruction(code@, i as nat);
            assert(next == i + step);
            let ghost before = dest@;
            if op == JUMPDEST {
                dest.set(i, true);
            }
            assert(dest@ == (if op == JUMPDEST { before.update(i as int, true) } else { before }));
            let new_i = if step <= n - i { i + step } else { n };
            proof {
                assert forall|j: nat|
                    i <= j < next implies !dests_from(code@, next).contains(j) by {
                    if dests_from(code@, next).contains(j) {
                        lemma_dests_from_above(code@, next, j);
                    }
                }
                if new_i != next {
                    assert(dests_from(code@, next) =~= Set::empty());
                    assert(dests_from(code@, new_i as nat) =~= Set::empty());
                }
                assert forall|j: nat| j >= new_i implies (#[trigger] valid_destinations(
                    code@,
                ).contains(j) == dests_from(code@, new_i as nat).contains(j)) by {
                    assert(valid_destinations(code@).contains(j) == dests_from(
                        code@,
                        i as nat,
                    ).contains(j));
                }
                assert forall|j: int| 0 <= j < n implies #[trigger] dest@[j] == (j < new_i
                    && valid_destinations(code@).contains(j as nat)) by {
                    if j < i {
                        assert(dest@[j] == before[j]);
                    } else if i <= j < new_i {
                        assert(!dests_from(code@, next).contains(j as nat));
                        assert(valid_destinations(code@).contains(j as nat) == dests_from(
                            code@,
                            i as nat,
                        ).contains(j as nat));
                    }
                }
            }
            i = new_i;
        }
        Program { code, dest }
    }

    pub fn len(&self) -> (r: usize)
        ensures
            r == self.code_view().len(),
    {
        self.code.len()
    }

    pub fn byte_at(&self, i: usize) -> (r: u8)
        requires
            i < self.code_view().len(),
        ensures
            r == self.code_view()[i as int],
    {
        self.code[i]
    }

    /// Whether `offset` is a valid jump destination.
    pub fn is_valid_destination(&self, offset: usize) -> (r: bool)
        requires
            self.wf(),
        ensures
            r == valid_destinations(self.code_view()).contains(offset as nat),
    {
        if offset < self.dest.len() {
            self.dest[offset]
        } else {
            proof {
                if valid_destinations(self.code@).contains(offset as nat) {
                    lemma_dests_from_above(self.code@, 0, offset as nat);
                }
            }
            false
        }
    }
}

} // verus!
