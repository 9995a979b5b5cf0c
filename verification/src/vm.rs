//! The machine state: register file, 64K-word memory, and run state, with
//! indexed access. Reading the keyboard-status address re-samples the host
//! keyboard as a side effect of the read itself.

use crate::console::read_byte;
use crate::hardware::flag_for;
use crate::hardware::FL_NEG;
use crate::hardware::FL_POS;
use crate::hardware::FL_ZRO;
use crate::hardware::MEMORY_MAX;
use crate::hardware::MR_KBDR;
use crate::hardware::MR_KBSR;
use crate::hardware::R_COND;
use crate::hardware::R_COUNT;
use crate::input_buffering::check_key;
use vstd::prelude::*;

verus! {

/// A condition that stops the machine: a corrupt program image or a decoder
/// misuse from which execution cannot continue.
#[derive(Clone, Copy, Debug, PartialEq, Eq, Structural)]
pub enum VmError {
    /// The reserved opcode was executed.
    IllegalOpcode,
    /// A trap instruction named an undefined service vector.
    IllegalTrap,
    /// A program image was too short to hold its origin word.
    ImageTooShort,
}

/// How one read at `addr` may change memory `m0` into `m1`: every address
/// other than the keyboard-status one leaves memory as it was; reading the
/// keyboard-status address re-samples the keyboard (see [`kb_read_effect`]).
pub open spec fn read_effect(m0: Seq<u16>, m1: Seq<u16>, addr: u16) -> bool {
    if addr == MR_KBSR {
        kb_read_effect(m0, m1)
    } else {
        m1 == m0
    }
}

/// The keyboard re-sample: the status cell is set to 0x8000 with a fresh
/// byte in the data cell when a key is pending, and cleared to 0 with the
/// data cell untouched when none is. All other cells keep their values.
pub open spec fn kb_read_effect(m0: Seq<u16>, m1: Seq<u16>) -> bool {
    &&& m1.len() == m0.len()
    &&& forall|a: int|
        0 <= a < m0.len() && a != MR_KBSR as int && a != MR_KBDR as int ==> m1[a] == m0[a]
    &&& (m1[MR_KBSR as int] == 0x8000 || m1[MR_KBSR as int] == 0)
    &&& (m1[MR_KBSR as int] == 0x8000 ==> m1[MR_KBDR as int] < 256)
    &&& (m1[MR_KBSR as int] == 0 ==> m1[MR_KBDR as int] == m0[MR_KBDR as int])
}

/// How any number of reads may change memory: only the two keyboard cells
/// can differ, and then only to values a keyboard re-sample can leave.
pub open spec fn reads_effect(m0: Seq<u16>, m1: Seq<u16>) -> bool {
    &&& m1.len() == m0.len()
    &&& forall|a: int|
        0 <= a < m0.len() && a != MR_KBSR as int && a != MR_KBDR as int ==> m1[a] == m0[a]
    &&& (m1[MR_KBSR as int] == m0[MR_KBSR as int] || m1[MR_KBSR as int] == 0x8000
        || m1[MR_KBSR as int] == 0)
    &&& (m1[MR_KBDR as int] == m0[MR_KBDR as int] || m1[MR_KBDR as int] < 256)
}

/// One more read after any number of reads is still within [`reads_effect`].
pub proof fn lemma_reads_effect_step(m0: Seq<u16>, m1: Seq<u16>, m2: Seq<u16>, addr: u16)
    requires
        reads_effect(m0, m1),
        read_effect(m1, m2, addr),
    ensures
        reads_effect(m0, m2),
{
}

/// The machine: 65,536 sixteen-bit memory cells, ten sixteen-bit registers
/// (R0-R7, PC, COND), and the run state.
pub struct VM {
    state: bool,
    memory: Vec<u16>,
    registers: Vec<u16>,
}

impl VM {
    /// The memory contents, as a sequence of 65,536 cells.
    pub closed spec fn mem(self) -> Seq<u16> {
        self.memory@
    }

    /// The register file, as a sequence of ten cells: R0-R7, PC, COND.
    pub closed spec fn regs(self) -> Seq<u16> {
        self.registers@
    }

    /// Whether the machine is still running (true) or halted (false).
    pub closed spec fn running(self) -> bool {
        self.state
    }

    /// Well-formedness: the memory and the register file have their fixed
    /// sizes.
    pub open spec fn wf(self) -> bool {
        &&& self.mem().len() == MEMORY_MAX as int
        &&& self.regs().len() == R_COUNT as int
    }

    /// A fresh machine: running, all memory cells and registers zero.
    pub fn new() -> (vm: VM)
        ensures
            vm.wf(),
            vm.running(),
            forall|i: int| 0 <= i < R_COUNT as int ==> vm.regs()[i] == 0,
            forall|a: int| 0 <= a < MEMORY_MAX as int ==> vm.mem()[a] == 0,
    {
        VM { state: true, memory: zeroed(MEMORY_MAX), registers: zeroed(R_COUNT) }
    }

    /// Reads the cell at `address`. A read of the keyboard-status address
    /// first re-samples the keyboard: when a key is pending, the status cell
    /// gets its high bit set and the data cell the pending byte; otherwise
    /// the status cell is cleared to 0 and the data cell is left as it was.
    /// The value returned is the cell's value after that side effect.
    pub fn memory_read(&mut self, address: u16) -> (r: u16)
        requires
            old(self).wf(),
        ensures
            final(self).wf(),
            final(self).regs() == old(self).regs(),
            final(self).running() == old(self).running(),
            read_effect(old(self).mem(), final(self).mem(), address),
            r == final(self).mem()[address as int],
    {
        if address == MR_KBSR {
            if check_key() {
                self.memory_write(MR_KBSR, 0x8000);
                let key = read_byte();
                self.memory_write(MR_KBDR, key as u16);
            } else {
                self.memory_write(MR_KBSR, 0);
            }
        }
        self.memory[address as usize]
    }

    /// Stores `value` at `address`, unconditionally: every 16-bit address is
    /// ordinary storage for a write.
    pub fn memory_write(&mut self, address: u16, value: u16)
        requires
            old(self).wf(),
        ensures
            final(self).wf(),
            final(self).mem() == old(self).mem().update(address as int, value),
            final(self).regs() == old(self).regs(),
            final(self).running() == old(self).running(),
    {
        self.memory[address as usize] = value;
    }

    /// Reads the register at `register`: R0-R7, PC (8) or COND (9).
    pub fn register_read(&mut self, register: usize) -> (r: u16)
        requires
            old(self).wf(),
            register < R_COUNT,
        ensures
            *final(self) == *old(self),
            r == old(self).regs()[register as int],
    {
        self.registers[register]
    }

    /// Writes `value` to the register at `register`: any 16-bit pattern is a
    /// legal register value.
    pub fn register_write(&mut self, register: usize, value: u16)
        requires
            old(self).wf(),
            register < R_COUNT,
        ensures
            final(self).wf(),
            final(self).mem() == old(self).mem(),
            final(self).running() == old(self).running(),
            final(self).regs() == old(self).regs().update(register as int, value),
    {
        self.registers[register] = value;
    }

    /// Recomputes the condition-code register from the value held in the
    /// register at `register_no`, read as a 16-bit two's-complement number:
    /// zero, negative (bit 15 set), or positive.
    pub fn update_flags(&mut self, register_no: usize)
        requires
            old(self).wf(),
            register_no < R_COUNT,
        ensures
            final(self).wf(),
            final(self).mem() == old(self).mem(),
            final(self).running() == old(self).running(),
            final(self).regs() == old(self).regs().update(
                R_COND as int,
                flag_for(old(self).regs()[register_no as int]),
            ),
    {
        let value = self.registers[register_no];
        let flag: u16 = if value == 0 {
            FL_ZRO
        } else if value >> 15 == 1 {
            FL_NEG
        } else {
            FL_POS
        };
        proof {
            assert(value >> 15 == 1 <==> value >= 0x8000) by (bit_vector);
        }
        self.registers[R_COND] = flag;
    }

    /// Toggles the run state.
    pub fn state_change(&mut self)
        ensures
            final(self).wf() == old(self).wf(),
            final(self).mem() == old(self).mem(),
            final(self).regs() == old(self).regs(),
            final(self).running() == !old(self).running(),
    {
        self.state = !self.state;
    }

    /// Whether the machine is still running.
    pub fn state_read(&self) -> (r: bool)
        ensures
            r == self.running(),
    {
        self.state
    }
}

/// A vector of `n` zeroed 16-bit cells.
fn zeroed(n: usize) -> (v: Vec<u16>)
    ensures
        v@.len() == n,
        forall|i: int| 0 <= i < n ==> v@[i] == 0,
{
    let mut v: Vec<u16> = Vec::new();
    let mut i: usize = 0;
    while i < n
        invariant
            i <= n,
            v@.len() == i,
            forall|j: int| 0 <= j < i ==> v@[j] == 0,
        decreases n - i,
    {
        v.push(0);
        i = i + 1;
    }
    v
}

} // verus!
