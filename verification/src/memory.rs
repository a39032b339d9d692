use vstd::prelude::*;

use crate::fault::Fault;

verus! {

/// Size of the flat byte-addressable memory.
pub const TOTAL_MEMORY: usize = 4096;

/// First address of the program region; everything below it is reserved for
/// the glyph table and interpreter data.
pub const PROGRAM_OFFSET: usize = 0x200;

/// Number of general-purpose 8-bit registers.
pub const REGISTER_COUNT: usize = 16;

/// Depth of the call stack.
pub const STACK_SIZE: usize = 16;

/// A vector of `n` copies of `value`.
pub fn filled_vec<T: Copy>(value: T, n: usize) -> (v: Vec<T>)
    ensures
        v@ == Seq::new(n as nat, |i: int| value),
{
    let mut v: Vec<T> = Vec::new();
    while v.len() < n
        invariant
            v@.len() <= n,
            forall|i: int| 0 <= i < v@.len() ==> v@[i] == value,
        decreases n - v@.len(),
    {
        v.push(value);
    }
    proof {
        assert(v@ =~= Seq::new(n as nat, |i: int| value));
    }
    v
}

/// What memory holds after a program image has been copied in: bytes below
/// the program offset are untouched, the image sits at the program offset,
/// and the remainder of the program region is zero-filled.
pub open spec fn spec_loaded(old_mem: Seq<u8>, program: Seq<u8>) -> Seq<u8> {
    Seq::new(
        old_mem.len(),
        |i: int|
            if i < PROGRAM_OFFSET {
                old_mem[i]
            } else if i - PROGRAM_OFFSET < program.len() {
                program[i - PROGRAM_OFFSET]
            } else {
                0u8
            },
    )
}

/// Copy a program image into the program region of `memory`, zero-filling
/// whatever the image leaves uncovered. An image larger than the region is
/// rejected whole.
pub fn load_program_region(memory: &mut Vec<u8>, program: &Vec<u8>) -> (r: Result<(), Fault>)
    requires
        old(memory)@.len() == TOTAL_MEMORY,
    ensures
        final(memory)@.len() == TOTAL_MEMORY,
        program@.len() > TOTAL_MEMORY - PROGRAM_OFFSET ==> r == Err::<(), Fault>(
            Fault::LoadOversized,
        ) && final(memory)@ == old(memory)@,
        program@.len() <= TOTAL_MEMORY - PROGRAM_OFFSET ==> r == Ok::<(), Fault>(())
            && final(memory)@ == spec_loaded(old(memory)@, program@),
{
    if program.len() > TOTAL_MEMORY - PROGRAM_OFFSET {
        return Err(Fault::LoadOversized);
    }
    let mut i: usize = 0;
    while i < TOTAL_MEMORY - PROGRAM_OFFSET
        invariant
            i <= TOTAL_MEMORY - PROGRAM_OFFSET,
            program@.len() <= TOTAL_MEMORY - PROGRAM_OFFSET,
            old(memory)@.len() == TOTAL_MEMORY,
            memory@.len() == TOTAL_MEMORY,
            forall|k: int| 0 <= k < PROGRAM_OFFSET ==> memory@[k] == old(memory)@[k],
            forall|k: int|
                PROGRAM_OFFSET <= k < PROGRAM_OFFSET + i ==> memory@[k] == spec_loaded(
                    old(memory)@,
                    program@,
                )[k],
            forall|k: int|
                PROGRAM_OFFSET + i <= k < TOTAL_MEMORY ==> memory@[k] == old(memory)@[k],
        decreases TOTAL_MEMORY - PROGRAM_OFFSET - i,
    {
        let b: u8 = if i < program.len() {
            program[i]
        } else {
            0
        };
        memory[PROGRAM_OFFSET + i] = b;
        i = i + 1;
    }
    proof {
        assert(memory@ =~= spec_loaded(old(memory)@, program@));
    }
    Ok(())
}

} // verus!
