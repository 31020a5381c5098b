//! Analyzed bytecode and the immutable inputs of one call frame.

use vstd::prelude::*;

use primitive_types::U256;

use crate::types::Address;

verus! {

/// How many zero (`STOP`) bytes analysis appends after the real code, enough
/// to cover the widest `PUSH32` stride.
pub const BYTECODE_PADDING: usize = 33;

/// Code as the analyzer hands it over: the real bytes followed by at least
/// 33 zero (`STOP`) bytes, a jump-validity flag per real byte, and the summed
/// constant gas of the basic block starting at each program counter.
pub struct Bytecode {
    code: Vec<u8>,
    orig_len: usize,
    jumpmap: Vec<bool>,
    gas_blocks: Vec<u64>,
    first_gas_block: u64,
}

impl Bytecode {
    /// The padded code bytes.
    pub closed spec fn code_spec(&self) -> Seq<u8> {
        self.code@
    }

    /// The length of the real (unpadded) code.
    pub closed spec fn orig_len_spec(&self) -> nat {
        self.orig_len as nat
    }

    /// Which real code offsets are valid `JUMPDEST`s.
    pub closed spec fn jumpmap_spec(&self) -> Seq<bool> {
        self.jumpmap@
    }

    /// The gas-block charge due at each offset: for a `JUMPDEST`, the
    /// summed constant cost of the block that starts at it; for an opcode
    /// that ends a block (`JUMPI` falling through, `GAS`, `SLOAD`,
    /// `SSTORE`, the calls and creations), the cost of the block resuming
    /// after it.
    pub closed spec fn gas_blocks_spec(&self) -> Seq<u64> {
        self.gas_blocks@
    }

    pub closed spec fn first_gas_block_spec(&self) -> u64 {
        self.first_gas_block
    }

    pub closed spec fn wf(&self) -> bool {
        &&& self.orig_len + BYTECODE_PADDING <= self.code@.len()
        &&& self.code@.len() <= usize::MAX
        &&& forall|i: int| self.orig_len <= i < self.code@.len() ==> self.code@[i] == 0u8
        &&& self.jumpmap@.len() == self.orig_len
        &&& self.gas_blocks@.len() == self.code@.len()
    }

    /// The facts a well-formed analysis guarantees, for use outside this
    /// module.
    pub proof fn lemma_wf(&self)
        requires
            self.wf(),
        ensures
            self.orig_len_spec() + BYTECODE_PADDING <= self.code_spec().len(),
            self.code_spec().len() <= usize::MAX,
            forall|i: int|
                self.orig_len_spec() <= i < self.code_spec().len() ==> self.code_spec()[i] == 0u8,
            self.jumpmap_spec().len() == self.orig_len_spec(),
            self.gas_blocks_spec().len() == self.code_spec().len(),
    {
    }

    /// Package an analysis: pads the code with 33 `STOP` bytes and takes the
    /// per-offset tables, which must both cover exactly the real code.
    pub fn from_analysis(
        code: Vec<u8>,
        jumpmap: Vec<bool>,
        gas_blocks: Vec<u64>,
        first_gas_block: u64,
    ) -> (r: Option<Bytecode>)
        ensures
            (jumpmap@.len() == code@.len() && gas_blocks@.len() == code@.len() && code@.len()
                + BYTECODE_PADDING <= usize::MAX) <==> r is Some,
            r is Some ==> {
                &&& r->0.wf()
                &&& r->0.orig_len_spec() == code@.len()
                &&& r->0.code_spec().len() == code@.len() + BYTECODE_PADDING
                &&& r->0.code_spec().subrange(0, code@.len() as int) == code@
                &&& r->0.jumpmap_spec() == jumpmap@
                &&& r->0.gas_blocks_spec().subrange(0, code@.len() as int) == gas_blocks@
                &&& r->0.first_gas_block_spec() == first_gas_block
            },
    {
        if jumpmap.len() != code.len() || gas_blocks.len() != code.len() || code.len()
            > usize::MAX - BYTECODE_PADDING {
            return None;
        }
        let orig_len = code.len();
        let mut padded = code;
        let mut blocks = gas_blocks;
        let ghost code0 = padded@;
        let ghost blocks0 = blocks@;
        let mut i: usize = 0;
        while i < BYTECODE_PADDING
            invariant
                i <= BYTECODE_PADDING,
                orig_len + BYTECODE_PADDING <= usize::MAX,
                code0.len() == orig_len,
                blocks0.len() == orig_len,
                padded@.len() == orig_len + i,
                blocks@.len() == orig_len + i,
                padded@.subrange(0, orig_len as int) == code0,
                blocks@.subrange(0, orig_len as int) == blocks0,
                forall|j: int| orig_len <= j < padded@.len() ==> padded@[j] == 0u8,
            decreases BYTECODE_PADDING - i,
        {
            padded.push(0u8);
            blocks.push(0u64);
            i = i + 1;
            proof {
                assert(padded@.subrange(0, orig_len as int) =~= code0);
                assert(blocks@.subrange(0, orig_len as int) =~= blocks0);
            }
        }
        Some(
            Bytecode {
                code: padded,
                orig_len,
                jumpmap,
                gas_blocks: blocks,
                first_gas_block,
            },
        )
    }

    /// Length of the padded code.
    pub fn padded_len(&self) -> (r: usize)
        ensures
            r == self.code_spec().len(),
    {
        self.code.len()
    }

    /// Length of the real code, what `CODESIZE` reports.
    pub fn len(&self) -> (r: usize)
        ensures
            r == self.orig_len_spec(),
    {
        self.orig_len
    }

    /// The byte at `pc`. A nonzero byte is real code, so a full `PUSH32`
    /// stride after it still lands inside the padding.
    pub fn opcode_at(&self, pc: usize) -> (r: u8)
        requires
            self.wf(),
            pc < self.code_spec().len(),
        ensures
            r == self.code_spec()[pc as int],
            r != 0 ==> pc + BYTECODE_PADDING < self.code_spec().len(),
    {
        let b = self.code[pc];
        proof {
            if b != 0 {
                assert(pc < self.orig_len);
            }
        }
        b
    }

    /// The real code as a slice, what `CODECOPY` copies from.
    pub fn original_slice(&self) -> (r: &[u8])
        requires
            self.wf(),
        ensures
            r@ == self.code_spec().subrange(0, self.orig_len_spec() as int),
    {
        vstd::slice::slice_subrange(self.code.as_slice(), 0, self.orig_len)
    }

    /// The padded code bytes in `[pc, pc + n)`, what `PUSH_n` reads.
    pub fn code_slice(&self, pc: usize, n: usize) -> (r: &[u8])
        requires
            self.wf(),
            pc + n <= self.code_spec().len(),
        ensures
            r@ == self.code_spec().subrange(pc as int, pc + n),
    {
        vstd::slice::slice_subrange(self.code.as_slice(), pc, pc + n)
    }

    /// Whether `dest` is a valid jump target.
    pub fn is_valid_jump(&self, dest: usize) -> (r: bool)
        requires
            self.wf(),
        ensures
            r == (dest < self.orig_len_spec() && self.jumpmap_spec()[dest as int]),
    {
        dest < self.orig_len && self.jumpmap[dest]
    }

    /// The gas-block charge at `pc`.
    pub fn gas_block(&self, pc: usize) -> (r: u64)
        requires
            self.wf(),
            pc < self.code_spec().len(),
        ensures
            r == self.gas_blocks_spec()[pc as int],
    {
        self.gas_blocks[pc]
    }

    pub fn first_gas_block(&self) -> (r: u64)
        ensures
            r == self.first_gas_block_spec(),
    {
        self.first_gas_block
    }
}

/// The immutable inputs of one call frame.
pub struct Contract {
    /// Calldata.
    pub input: Vec<u8>,
    /// Analyzed code to execute.
    pub bytecode: Bytecode,
    /// The account the frame runs as.
    pub address: Address,
    /// Who called it.
    pub caller: Address,
    /// The apparent value of the call.
    pub value: U256,
}

impl Contract {
    pub open spec fn wf(&self) -> bool {
        self.bytecode.wf()
    }

    pub fn new(
        input: Vec<u8>,
        bytecode: Bytecode,
        address: Address,
        caller: Address,
        value: U256,
    ) -> (r: Contract)
        requires
            bytecode.wf(),
        ensures
            r.wf(),
            r.input == input,
            r.bytecode == bytecode,
            r.address == address,
            r.caller == caller,
            r.value == value,
    {
        Contract { input, bytecode, address, caller, value }
    }

    pub fn is_valid_jump(&self, dest: usize) -> (r: bool)
        requires
            self.wf(),
        ensures
            r == (dest < self.bytecode.orig_len_spec() && self.bytecode.jumpmap_spec()[dest as int]),
    {
        self.bytecode.is_valid_jump(dest)
    }

    pub fn gas_block(&self, pc: usize) -> (r: u64)
        requires
            self.wf(),
            pc < self.bytecode.code_spec().len(),
        ensures
            r == self.bytecode.gas_blocks_spec()[pc as int],
    {
        self.bytecode.gas_block(pc)
    }

    pub fn first_gas_block(&self) -> (r: u64)
        ensures
            r == self.bytecode.first_gas_block_spec(),
    {
        self.bytecode.first_gas_block()
    }
}

} // verus!
