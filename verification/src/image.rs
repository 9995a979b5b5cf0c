//! Program-image loading: the first two bytes of an image are a big-endian
//! origin address; every following big-endian 16-bit word is placed in
//! memory contiguously from that origin, addresses wrapping.

use crate::operations::wadd;
use crate::operations::wrap_add;
use crate::vm::VmError;
use crate::vm::VM;
use vstd::prelude::*;

verus! {

/// The big-endian 16-bit word starting at byte `i` of `bytes`.
pub open spec fn word_at(bytes: Seq<u8>, i: int) -> u16
    recommends
        0 <= i,
        i + 1 < bytes.len(),
{
    (bytes[i] * 256 + bytes[i + 1]) as u16
}

/// How many whole 16-bit words follow the origin in an image of `len`
/// bytes: a trailing odd byte is ignored.
pub open spec fn image_words(bytes: Seq<u8>) -> int {
    (bytes.len() - 2) / 2
}

/// Memory after the first `n` words of the image have been placed: word `i`
/// lands at the origin plus `i`, wrapping modulo 65,536, later words
/// overwriting earlier ones where they wrap onto the same address.
pub open spec fn load_prefix(m0: Seq<u16>, bytes: Seq<u8>, n: int) -> Seq<u16>
    decreases n,
{
    if n <= 0 {
        m0
    } else {
        load_prefix(m0, bytes, n - 1).update(
            wrap_add(word_at(bytes, 0), (((n - 1) % 0x10000) as u16)) as int,
            word_at(bytes, 2 + 2 * (n - 1)),
        )
    }
}

/// Memory after a whole image has been placed.
pub open spec fn loaded_mem(m0: Seq<u16>, bytes: Seq<u8>) -> Seq<u16> {
    load_prefix(m0, bytes, image_words(bytes))
}

/// The big-endian word held in two bytes.
fn word_from(hi: u8, lo: u8) -> (r: u16)
    ensures
        r == hi * 256 + lo,
{
    proof {
        assert(((hi as u16) << 8) | (lo as u16) == hi * 256 + lo) by (bit_vector);
    }
    ((hi as u16) << 8) | (lo as u16)
}

/// Places a program image in memory: the first two bytes give the origin,
/// and every following whole word is stored from there on, addresses
/// wrapping. An image shorter than two bytes is rejected; a trailing odd
/// byte is ignored. Registers and the run state are untouched.
pub fn load_image(buffer: &Vec<u8>, vm: &mut VM) -> (r: Result<(), VmError>)
    requires
        old(vm).wf(),
    ensures
        final(vm).wf(),
        final(vm).regs() == old(vm).regs(),
        final(vm).running() == old(vm).running(),
        buffer@.len() < 2 ==> r == Result::<(), VmError>::Err(VmError::ImageTooShort)
            && final(vm).mem() == old(vm).mem(),
        buffer@.len() >= 2 ==> r is Ok && final(vm).mem() == loaded_mem(
            old(vm).mem(),
            buffer@,
        ),
{
    if buffer.len() < 2 {
        return Err(VmError::ImageTooShort);
    }
    let base: u16 = word_from(buffer[0], buffer[1]);
    let length: usize = buffer.len();
    let words_available: usize = (length - 2) / 2;
    let mut i: usize = 0;
    while i < words_available
        invariant
            vm.wf(),
            vm.regs() == old(vm).regs(),
            vm.running() == old(vm).running(),
            length == buffer@.len(),
            length >= 2,
            words_available == (length - 2) as int / 2,
            base == word_at(buffer@, 0),
            i <= words_available,
            vm.mem() == load_prefix(old(vm).mem(), buffer@, i as int),
        decreases words_available - i,
    {
        let idx = 2 + i * 2;
        let value = word_from(buffer[idx], buffer[idx + 1]);
        vm.memory_write(wadd(base, (i % 65536) as u16), value);
        i = i + 1;
    }
    Ok(())
}

} // verus!
