//! Instruction semantics: field decoding, sign extension, one handler per
//! opcode, the trap dispatcher, and a single step of the fetch/decode/execute
//! cycle. All arithmetic is 16-bit, wrapping on overflow.

use crate::console::read_byte;
use crate::console::write_byte;
use crate::console::write_line;
use crate::hardware::flag_for;
use crate::hardware::MEMORY_MAX;
use crate::hardware::MR_KBDR;
use crate::hardware::MR_KBSR;
use crate::hardware::R_COND;
use crate::hardware::R_PC;
use crate::hardware::R_R0;
use crate::hardware::R_R7;
use crate::traps::trap_of;
use crate::traps::Traps;
use crate::vm::read_effect;
use crate::vm::reads_effect;
use crate::vm::VmError;
use crate::vm::VM;
use vstd::prelude::*;

verus! {

// ---------------------------------------------------------------------------
// Decoded instruction fields
// ---------------------------------------------------------------------------
/// The opcode: bits [15:12] of the instruction word.
pub open spec fn opcode_of(inst: u16) -> u16 {
    inst >> 12
}

/// The destination (or source, for stores) register field: bits [11:9].
pub open spec fn dr_of(inst: u16) -> int {
    ((inst >> 9) & 7) as int
}

/// The first source (or base) register field: bits [8:6].
pub open spec fn sr1_of(inst: u16) -> int {
    ((inst >> 6) & 7) as int
}

/// The second source register field: bits [2:0].
pub open spec fn sr2_of(inst: u16) -> int {
    (inst & 7) as int
}

/// The immediate-mode bit of ADD and AND: bit [5].
pub open spec fn imm_flag_of(inst: u16) -> bool {
    (inst >> 5) & 1 == 1
}

/// The mode bit of JSR/JSRR: bit [11].
pub open spec fn long_flag_of(inst: u16) -> bool {
    (inst >> 11) & 1 == 1
}

/// The trap vector: the low byte of the instruction word.
pub open spec fn trapvect_of(inst: u16) -> u16 {
    inst & 0xFF
}

/// Ranges of the decoded fields: register selectors fall below 8, flag bits
/// are single bits, the opcode falls below 16, the trap vector below 256.
proof fn lemma_fields(inst: u16)
    by (bit_vector)
    ensures
        (inst >> 9) & 7 < 8,
        (inst >> 6) & 7 < 8,
        inst & 7 < 8,
        (inst >> 5) & 1 == 0 || (inst >> 5) & 1 == 1,
        (inst >> 11) & 1 == 0 || (inst >> 11) & 1 == 1,
        inst >> 12 < 16,
        inst & 0xFF < 256,
{
}

/// The two bytes packed in one memory cell each fall below 256.
proof fn lemma_bytes(cell: u16)
    by (bit_vector)
    ensures
        cell & 0xFF < 256,
        cell >> 8 < 256,
{
}

// ---------------------------------------------------------------------------
// Sign extension and wrapping addition
// ---------------------------------------------------------------------------
/// The low `w` bits of `v`, read as a `w`-bit two's-complement number and
/// widened to 16 bits.
pub open spec fn sign_extend(v: u16, w: u16) -> u16
    recommends
        1 <= w <= 16,
{
    if w >= 16 {
        v
    } else if (v >> ((w - 1) as u16)) & 1 == 1 {
        v | ((0xFFFFu16 << w) as u16)
    } else {
        v & (((1u16 << w) - 1) as u16)
    }
}

/// 16-bit wrapping addition: the sum modulo 65,536.
pub open spec fn wrap_add(a: u16, b: u16) -> u16 {
    ((a + b) % 0x10000) as u16
}

/// Treats the low `bit_count` bits of `val` as a two's-complement signed
/// integer and extends the sign through bit 15.
pub fn sign_extension(val: u16, bit_count: u8) -> (r: u16)
    requires
        1 <= bit_count <= 16,
    ensures
        r == sign_extend(val, bit_count as u16),
{
    if bit_count == 16 {
        val
    } else {
        let w: u16 = bit_count as u16;
        proof {
            assert(w < 16 ==> 1u16 << w >= 1) by (bit_vector);
        }
        if (val >> (w - 1)) & 1 == 1 {
            val | (0xFFFFu16 << w)
        } else {
            val & ((1u16 << w) - 1)
        }
    }
}

/// Adds two 16-bit words, wrapping modulo 65,536.
pub(crate) fn wadd(a: u16, b: u16) -> (r: u16)
    ensures
        r == wrap_add(a, b),
{
    (((a as u32) + (b as u32)) % 0x10000) as u16
}

// ---------------------------------------------------------------------------
// What each opcode does: a relation between the machine before and after
// ---------------------------------------------------------------------------
/// Register file after an instruction defines the register at `dr`: the new
/// value lands there and the condition codes are recomputed from it.
pub open spec fn dest_write(regs: Seq<u16>, dr: int, v: u16) -> Seq<u16> {
    regs.update(dr, v).update(R_COND as int, flag_for(v))
}

/// The PC-relative address of a load or store: PC plus the sign-extended
/// low `width` bits of the instruction, wrapping.
pub open spec fn pc_rel_addr(inst: u16, regs: Seq<u16>, width: u16) -> u16 {
    wrap_add(regs[R_PC as int], sign_extend(inst, width))
}

/// The second operand of ADD and AND: a 5-bit sign-extended immediate when
/// the immediate-mode bit is set, else the second source register.
pub open spec fn alu_operand(inst: u16, regs: Seq<u16>) -> u16 {
    if imm_flag_of(inst) {
        sign_extend(inst, 5)
    } else {
        regs[sr2_of(inst)]
    }
}

/// The value ADD writes: first source plus the second operand, wrapping.
pub open spec fn add_result(inst: u16, regs: Seq<u16>) -> u16 {
    wrap_add(regs[sr1_of(inst)], alu_operand(inst, regs))
}

/// The value AND writes: first source bitwise-and the second operand.
pub open spec fn and_result(inst: u16, regs: Seq<u16>) -> u16 {
    regs[sr1_of(inst)] & alu_operand(inst, regs)
}

/// BR: PC moves by the sign-extended 9-bit offset exactly when the
/// instruction's condition bits meet the condition-code register; nothing
/// else changes.
pub open spec fn br_post(pre: VM, post: VM, inst: u16) -> bool {
    &&& post.mem() == pre.mem()
    &&& post.running() == pre.running()
    &&& post.regs() == if (inst >> 9) & pre.regs()[R_COND as int] != 0 {
        pre.regs().update(
            R_PC as int,
            wrap_add(pre.regs()[R_PC as int], sign_extend(inst, 9)),
        )
    } else {
        pre.regs()
    }
}

/// ADD: the destination gets the wrapping sum and the flags follow it.
pub open spec fn add_post(pre: VM, post: VM, inst: u16) -> bool {
    &&& post.mem() == pre.mem()
    &&& post.running() == pre.running()
    &&& post.regs() == dest_write(pre.regs(), dr_of(inst), add_result(inst, pre.regs()))
}

/// AND: the destination gets the bitwise and and the flags follow it.
pub open spec fn and_post(pre: VM, post: VM, inst: u16) -> bool {
    &&& post.mem() == pre.mem()
    &&& post.running() == pre.running()
    &&& post.regs() == dest_write(pre.regs(), dr_of(inst), and_result(inst, pre.regs()))
}

/// NOT: the destination gets the bitwise complement of the source and the
/// flags follow it.
pub open spec fn not_post(pre: VM, post: VM, inst: u16) -> bool {
    &&& post.mem() == pre.mem()
    &&& post.running() == pre.running()
    &&& post.regs() == dest_write(pre.regs(), dr_of(inst), !pre.regs()[sr1_of(inst)])
}

/// LD: the destination gets the cell at PC plus the 9-bit offset and the
/// flags follow it; memory changes only by that read's own side effect.
pub open spec fn ld_post(pre: VM, post: VM, inst: u16) -> bool {
    let addr = pc_rel_addr(inst, pre.regs(), 9);
    &&& post.running() == pre.running()
    &&& read_effect(pre.mem(), post.mem(), addr)
    &&& post.regs() == dest_write(pre.regs(), dr_of(inst), post.mem()[addr as int])
}

/// LDR: the destination gets the cell at base register plus the 6-bit
/// offset and the flags follow it; memory changes only by that read.
pub open spec fn ldr_post(pre: VM, post: VM, inst: u16) -> bool {
    let addr = wrap_add(pre.regs()[sr1_of(inst)], sign_extend(inst, 6));
    &&& post.running() == pre.running()
    &&& read_effect(pre.mem(), post.mem(), addr)
    &&& post.regs() == dest_write(pre.regs(), dr_of(inst), post.mem()[addr as int])
}

/// LEA: the destination gets the address PC plus the 9-bit offset itself,
/// and the flags follow it; memory is untouched.
pub open spec fn lea_post(pre: VM, post: VM, inst: u16) -> bool {
    &&& post.mem() == pre.mem()
    &&& post.running() == pre.running()
    &&& post.regs() == dest_write(pre.regs(), dr_of(inst), pc_rel_addr(inst, pre.regs(), 9))
}

/// LDI's two chained reads: the first, at PC plus offset, yields a pointer
/// in the (possibly re-sampled) memory `mid`; the second, at that pointer,
/// yields the value the destination gets.
pub open spec fn ldi_chain(pre: VM, mid: Seq<u16>, post: VM, inst: u16) -> bool {
    let a1 = pc_rel_addr(inst, pre.regs(), 9);
    let ptr = mid[a1 as int];
    &&& read_effect(pre.mem(), mid, a1)
    &&& read_effect(mid, post.mem(), ptr)
    &&& post.regs() == dest_write(pre.regs(), dr_of(inst), post.mem()[ptr as int])
}

/// LDI: load through a pointer fetched at PC plus the 9-bit offset, flags
/// following the loaded value; memory changes only by the two reads.
pub open spec fn ldi_post(pre: VM, post: VM, inst: u16) -> bool {
    &&& post.running() == pre.running()
    &&& exists|mid: Seq<u16>| ldi_chain(pre, mid, post, inst)
}

/// ST: the cell at PC plus the 9-bit offset gets the source register;
/// registers, and so the condition flags, are untouched.
pub open spec fn st_post(pre: VM, post: VM, inst: u16) -> bool {
    &&& post.mem() == pre.mem().update(
        pc_rel_addr(inst, pre.regs(), 9) as int,
        pre.regs()[dr_of(inst)],
    )
    &&& post.running() == pre.running()
    &&& post.regs() == pre.regs()
}

/// STR: the cell at base register plus the 6-bit offset gets the source
/// register; registers are untouched.
pub open spec fn str_post(pre: VM, post: VM, inst: u16) -> bool {
    &&& post.mem() == pre.mem().update(
        wrap_add(pre.regs()[sr1_of(inst)], sign_extend(inst, 6)) as int,
        pre.regs()[dr_of(inst)],
    )
    &&& post.running() == pre.running()
    &&& post.regs() == pre.regs()
}

/// STI's read-then-write: the read at PC plus offset yields the target
/// address in the (possibly re-sampled) memory `mid`; the store lands there.
pub open spec fn sti_chain(pre: VM, mid: Seq<u16>, post: VM, inst: u16) -> bool {
    let a1 = pc_rel_addr(inst, pre.regs(), 9);
    &&& read_effect(pre.mem(), mid, a1)
    &&& post.mem() == mid.update(mid[a1 as int] as int, pre.regs()[dr_of(inst)])
}

/// STI: store through a pointer fetched at PC plus the 9-bit offset;
/// registers are untouched.
pub open spec fn sti_post(pre: VM, post: VM, inst: u16) -> bool {
    &&& post.running() == pre.running()
    &&& post.regs() == pre.regs()
    &&& exists|mid: Seq<u16>| sti_chain(pre, mid, post, inst)
}

/// JSR/JSRR: R7 captures the pre-jump PC, then PC becomes PC plus the
/// sign-extended 11-bit offset (bit 11 set) or the base register's value as
/// it stands after the R7 write (bit 11 clear). Flags are untouched.
pub open spec fn jsr_post(pre: VM, post: VM, inst: u16) -> bool {
    let pc = pre.regs()[R_PC as int];
    let linked = pre.regs().update(R_R7 as int, pc);
    &&& post.mem() == pre.mem()
    &&& post.running() == pre.running()
    &&& post.regs() == if long_flag_of(inst) {
        linked.update(R_PC as int, wrap_add(pc, sign_extend(inst, 11)))
    } else {
        linked.update(R_PC as int, linked[sr1_of(inst)])
    }
}

/// JMP: PC becomes the base register's value; R7 and the flags are
/// untouched.
pub open spec fn jmp_post(pre: VM, post: VM, inst: u16) -> bool {
    &&& post.mem() == pre.mem()
    &&& post.running() == pre.running()
    &&& post.regs() == pre.regs().update(R_PC as int, pre.regs()[sr1_of(inst)])
}

// ---------------------------------------------------------------------------
// Opcode handlers
// ---------------------------------------------------------------------------
/// Branch: moves PC by the sign-extended 9-bit offset when the instruction's
/// condition bits meet the condition-code register.
#[allow(non_snake_case)]
pub fn OP_BR(inst: u16, vm: &mut VM)
    requires
        old(vm).wf(),
    ensures
        final(vm).wf(),
        br_post(*old(vm), *final(vm), inst),
{
    let offset = sign_extension(inst, 9);
    let cond = vm.register_read(R_COND);
    if (inst >> 9) & cond != 0 {
        let pc = vm.register_read(R_PC);
        vm.register_write(R_PC, wadd(pc, offset));
    }
}

/// Add: destination gets first source plus a 5-bit sign-extended immediate
/// or the second source, wrapping; flags follow the result.
#[allow(non_snake_case)]
pub fn OP_ADD(inst: u16, vm: &mut VM)
    requires
        old(vm).wf(),
    ensures
        final(vm).wf(),
        add_post(*old(vm), *final(vm), inst),
{
    proof {
        lemma_fields(inst);
    }
    let destination_register = ((inst >> 9) & 7) as usize;
    let immediate_bit = (inst >> 5) & 1;
    let source_register1 = ((inst >> 6) & 7) as usize;
    if immediate_bit > 0 {
        let immediate = sign_extension(inst, 5);
        let a = vm.register_read(source_register1);
        vm.register_write(destination_register, wadd(a, immediate));
    } else {
        let source_register2 = (inst & 7) as usize;
        let a = vm.register_read(source_register1);
        let b = vm.register_read(source_register2);
        vm.register_write(destination_register, wadd(a, b));
    }
    vm.update_flags(destination_register);
}

/// Bitwise and: same operand selection as ADD; flags follow the result.
#[allow(non_snake_case)]
pub fn OP_AND(inst: u16, vm: &mut VM)
    requires
        old(vm).wf(),
    ensures
        final(vm).wf(),
        and_post(*old(vm), *final(vm), inst),
{
    proof {
        lemma_fields(inst);
    }
    let destination_register = ((inst >> 9) & 7) as usize;
    let immediate_bit = (inst >> 5) & 1;
    let source_register1 = ((inst >> 6) & 7) as usize;
    if immediate_bit > 0 {
        let immediate = sign_extension(inst, 5);
        let a = vm.register_read(source_register1);
        vm.register_write(destination_register, a & immediate);
    } else {
        let source_register2 = (inst & 7) as usize;
        let a = vm.register_read(source_register1);
        let b = vm.register_read(source_register2);
        vm.register_write(destination_register, a & b);
    }
    vm.update_flags(destination_register);
}

/// Bitwise complement: destination gets the complement of the source; flags
/// follow the result.
#[allow(non_snake_case)]
pub fn OP_NOT(inst: u16, vm: &mut VM)
    requires
        old(vm).wf(),
    ensures
        final(vm).wf(),
        not_post(*old(vm), *final(vm), inst),
{
    proof {
        lemma_fields(inst);
    }
    let source = vm.register_read(((inst >> 6) & 7) as usize);
    vm.register_write(((inst >> 9) & 7) as usize, !source);
    vm.update_flags(((inst >> 9) & 7) as usize);
}

/// Load: destination gets the cell at PC plus the sign-extended 9-bit
/// offset; flags follow the loaded value.
#[allow(non_snake_case)]
pub fn OP_LD(inst: u16, vm: &mut VM)
    requires
        old(vm).wf(),
    ensures
        final(vm).wf(),
        ld_post(*old(vm), *final(vm), inst),
{
    proof {
        lemma_fields(inst);
    }
    let destination_register = ((inst >> 9) & 7) as usize;
    let offset = sign_extension(inst, 9);
    let pc = vm.register_read(R_PC);
    let value = vm.memory_read(wadd(pc, offset));
    vm.register_write(destination_register, value);
    vm.update_flags(destination_register);
}

/// Load register: destination gets the cell at base register plus the
/// sign-extended 6-bit offset; flags follow the loaded value.
#[allow(non_snake_case)]
pub fn OP_LDR(inst: u16, vm: &mut VM)
    requires
        old(vm).wf(),
    ensures
        final(vm).wf(),
        ldr_post(*old(vm), *final(vm), inst),
{
    proof {
        lemma_fields(inst);
    }
    let destination_register = ((inst >> 9) & 7) as usize;
    let offset = sign_extension(inst, 6);
    let base_register = ((inst >> 6) & 7) as usize;
    let base_address = vm.register_read(base_register);
    let value = vm.memory_read(wadd(base_address, offset));
    vm.register_write(destination_register, value);
    vm.update_flags(destination_register);
}

/// Load indirect: a pointer is fetched at PC plus the sign-extended 9-bit
/// offset, and the destination gets the cell at that pointer; flags follow
/// the loaded value.
#[allow(non_snake_case)]
pub fn OP_LDI(inst: u16, vm: &mut VM)
    requires
        old(vm).wf(),
    ensures
        final(vm).wf(),
        ldi_post(*old(vm), *final(vm), inst),
{
    proof {
        lemma_fields(inst);
    }
    let destination_register = ((inst >> 9) & 7) as usize;
    let offset = sign_extension(inst, 9);
    let pc = vm.register_read(R_PC);
    let pointer = vm.memory_read(wadd(pc, offset));
    let ghost mid = vm.mem();
    let value = vm.memory_read(pointer);
    vm.register_write(destination_register, value);
    vm.update_flags(destination_register);
    proof {
        assert(ldi_chain(*old(vm), mid, *vm, inst));
    }
}

/// Load effective address: destination gets PC plus the sign-extended 9-bit
/// offset itself; flags follow it.
#[allow(non_snake_case)]
pub fn OP_LEA(inst: u16, vm: &mut VM)
    requires
        old(vm).wf(),
    ensures
        final(vm).wf(),
        lea_post(*old(vm), *final(vm), inst),
{
    proof {
        lemma_fields(inst);
    }
    let destination_register = ((inst >> 9) & 7) as usize;
    let offset = sign_extension(inst, 9);
    let pc = vm.register_read(R_PC);
    vm.register_write(destination_register, wadd(pc, offset));
    vm.update_flags(destination_register);
}

/// Store: the cell at PC plus the sign-extended 9-bit offset gets the
/// source register; flags are untouched.
#[allow(non_snake_case)]
pub fn OP_ST(inst: u16, vm: &mut VM)
    requires
        old(vm).wf(),
    ensures
        final(vm).wf(),
        st_post(*old(vm), *final(vm), inst),
{
    proof {
        lemma_fields(inst);
    }
    let source_register = ((inst >> 9) & 7) as usize;
    let offset = sign_extension(inst, 9);
    let pc = vm.register_read(R_PC);
    let value = vm.register_read(source_register);
    vm.memory_write(wadd(pc, offset), value);
}

/// Store register: the cell at base register plus the sign-extended 6-bit
/// offset gets the source register; flags are untouched.
#[allow(non_snake_case)]
pub fn OP_STR(inst: u16, vm: &mut VM)
    requires
        old(vm).wf(),
    ensures
        final(vm).wf(),
        str_post(*old(vm), *final(vm), inst),
{
    proof {
        lemma_fields(inst);
    }
    let source_register = ((inst >> 9) & 7) as usize;
    let offset = sign_extension(inst, 6);
    let base_register = ((inst >> 6) & 7) as usize;
    let base_address = vm.register_read(base_register);
    let value = vm.register_read(source_register);
    vm.memory_write(wadd(base_address, offset), value);
}

/// Store indirect: a pointer is fetched at PC plus the sign-extended 9-bit
/// offset, and the source register is stored at that pointer; flags are
/// untouched.
#[allow(non_snake_case)]
pub fn OP_STI(inst: u16, vm: &mut VM)
    requires
        old(vm).wf(),
    ensures
        final(vm).wf(),
        sti_post(*old(vm), *final(vm), inst),
{
    proof {
        lemma_fields(inst);
    }
    let source_register = ((inst >> 9) & 7) as usize;
    let offset = sign_extension(inst, 9);
    let pc = vm.register_read(R_PC);
    let address = vm.memory_read(wadd(pc, offset));
    let ghost mid = vm.mem();
    let value = vm.register_read(source_register);
    vm.memory_write(address, value);
    proof {
        assert(sti_chain(*old(vm), mid, *vm, inst));
    }
}

/// Jump to subroutine: R7 captures the pre-jump PC, then control moves to
/// PC plus the sign-extended 11-bit offset (JSR) or to the base register
/// (JSRR).
#[allow(non_snake_case)]
pub fn OP_JSR(inst: u16, vm: &mut VM)
    requires
        old(vm).wf(),
    ensures
        final(vm).wf(),
        jsr_post(*old(vm), *final(vm), inst),
{
    proof {
        lemma_fields(inst);
    }
    let program_counter = vm.register_read(R_PC);
    vm.register_write(R_R7, program_counter);
    if (inst >> 11) & 1 == 1 {
        let offset = sign_extension(inst, 11);
        vm.register_write(R_PC, wadd(program_counter, offset));
    } else {
        let base_r = ((inst >> 6) & 7) as usize;
        let target = vm.register_read(base_r);
        vm.register_write(R_PC, target);
    }
}

/// Jump: PC becomes the base register's value. A base of R7 is the
/// conventional RET.
#[allow(non_snake_case)]
pub fn OP_JMP(inst: u16, vm: &mut VM)
    requires
        old(vm).wf(),
    ensures
        final(vm).wf(),
        jmp_post(*old(vm), *final(vm), inst),
{
    proof {
        lemma_fields(inst);
    }
    let register = ((inst >> 6) & 7) as usize;
    let address = vm.register_read(register);
    vm.register_write(R_PC, address);
}

/// Return from interrupt: this machine has no supervisor mode, so the
/// instruction is a no-op.
#[allow(non_snake_case)]
pub fn OP_RTI(inst: u16, vm: &mut VM)
    requires
        old(vm).wf(),
    ensures
        *final(vm) == *old(vm),
{
}

/// Reserved opcode: illegal, execution cannot continue.
#[allow(non_snake_case)]
pub fn OP_RES(inst: u16, vm: &mut VM) -> (r: Result<(), VmError>)
    requires
        old(vm).wf(),
    ensures
        *final(vm) == *old(vm),
        r == Result::<(), VmError>::Err(VmError::IllegalOpcode),
{
    Err(VmError::IllegalOpcode)
}

// ---------------------------------------------------------------------------
// Console output of the string traps
// ---------------------------------------------------------------------------
/// The low byte of a memory cell: the character PUTS prints for it, and the
/// first of the two characters PUTSP prints for it.
pub open spec fn low_byte(w: u16) -> u8 {
    (w & 0xFF) as u8
}

/// The high byte of a memory cell: the second character PUTSP prints for it.
pub open spec fn high_byte(w: u16) -> u8 {
    (w >> 8) as u8
}

/// Whether an address is one of the two keyboard cells — the only cells a
/// scan's own reads may change (see [`crate::vm::kb_read_effect`]).
pub open spec fn is_kb_cell(a: u16) -> bool {
    a == MR_KBSR || a == MR_KBDR
}

/// The address `i` cells past `start`, wrapping.
pub open spec fn scan_addr(start: u16, i: int) -> u16 {
    ((start + i) % 0x10000) as u16
}

/// What the PUTS scan prints for the string at `start`, stated against the
/// memory `m` the scan leaves behind: every printed byte is nonzero; away
/// from the two keyboard cells, the byte printed for position `i` is the
/// low byte of the cell `i` places past `start`; and the scan stopped at a
/// cell whose low byte is zero, or only after one full sweep of memory. At
/// the keyboard cells themselves the printed byte is whatever the
/// re-sampling read returned.
pub open spec fn puts_printed(m: Seq<u16>, start: u16, out: Seq<u8>) -> bool {
    &&& out.len() <= MEMORY_MAX as int
    &&& forall|i: int| 0 <= i < out.len() ==> #[trigger] out[i] != 0
    &&& forall|i: int|
        0 <= i < out.len() && !is_kb_cell(scan_addr(start, i)) ==> #[trigger] out[i] == low_byte(
            m[scan_addr(start, i) as int],
        )
    &&& out.len() < MEMORY_MAX as int && !is_kb_cell(scan_addr(start, out.len() as int))
        ==> low_byte(m[scan_addr(start, out.len() as int) as int]) == 0
}

/// The byte at position `i` of the character stream PUTSP reads out of
/// memory `m` from `start`: each cell gives two bytes, low before high.
pub open spec fn stream_byte(m: Seq<u16>, start: u16, i: int) -> u8 {
    if i % 2 == 0 {
        low_byte(m[scan_addr(start, i / 2) as int])
    } else {
        high_byte(m[scan_addr(start, i / 2) as int])
    }
}

/// What the PUTSP scan prints for the packed string at `start`: a prefix of
/// the two-bytes-per-cell stream, every printed byte nonzero, stated
/// against the memory the scan leaves behind and away from the two
/// keyboard cells; the scan stopped at the first zero byte of the stream,
/// even mid-cell, or only after one full sweep of memory.
pub open spec fn putsp_printed(m: Seq<u16>, start: u16, out: Seq<u8>) -> bool {
    &&& out.len() <= 2 * MEMORY_MAX as int
    &&& forall|i: int| 0 <= i < out.len() ==> #[trigger] out[i] != 0
    &&& forall|i: int|
        0 <= i < out.len() && !is_kb_cell(scan_addr(start, i / 2)) ==> #[trigger] out[i]
            == stream_byte(m, start, i)
    &&& out.len() < 2 * MEMORY_MAX as int && !is_kb_cell(
        scan_addr(start, out.len() as int / 2),
    ) ==> stream_byte(m, start, out.len() as int) == 0
}

/// Stepping one cell forward in a scan wraps like adding one to the
/// address.
proof fn lemma_scan_step(start: u16, i: int)
    requires
        0 <= i,
    ensures
        scan_addr(start, i + 1) == wrap_add(scan_addr(start, i), 1),
{
    vstd::arithmetic::div_mod::lemma_add_mod_noop(start + i, 1, 0x10000);
}

/// Collects the character bytes the PUTS trap owes for the string at
/// `start`: the low byte of each successive cell, up to the first cell
/// whose low byte is zero (the terminator itself is not collected, and the
/// scan gives up after one full sweep of memory). Each cell is read through
/// [`VM::memory_read`], so a scan across the keyboard-status address
/// re-samples the keyboard like any other read.
pub fn puts_bytes(vm: &mut VM, start: u16) -> (out: Vec<u8>)
    requires
        old(vm).wf(),
    ensures
        final(vm).wf(),
        final(vm).regs() == old(vm).regs(),
        final(vm).running() == old(vm).running(),
        reads_effect(old(vm).mem(), final(vm).mem()),
        puts_printed(final(vm).mem(), start, out@),
{
    let mut out: Vec<u8> = Vec::new();
    let mut address = start;
    let mut scanned: usize = 0;
    while scanned < MEMORY_MAX
        invariant_except_break
            out@.len() == scanned as int,
        invariant
            vm.wf(),
            reads_effect(old(vm).mem(), vm.mem()),
            vm.regs() == old(vm).regs(),
            vm.running() == old(vm).running(),
            scanned <= MEMORY_MAX,
            out@.len() <= scanned as int,
            address == scan_addr(start, scanned as int),
            forall|j: int| 0 <= j < out@.len() ==> #[trigger] out@[j] != 0,
            forall|j: int|
                0 <= j < out@.len() && !is_kb_cell(scan_addr(start, j)) ==> #[trigger] out@[j]
                    == low_byte(vm.mem()[scan_addr(start, j) as int]),
        ensures
            vm.wf(),
            reads_effect(old(vm).mem(), vm.mem()),
            vm.regs() == old(vm).regs(),
            vm.running() == old(vm).running(),
            puts_printed(vm.mem(), start, out@),
        decreases MEMORY_MAX - scanned,
    {
        let ghost before = vm.mem();
        let cell = vm.memory_read(address);
        proof {
            crate::vm::lemma_reads_effect_step(old(vm).mem(), before, vm.mem(), address);
            lemma_bytes(cell);
            lemma_scan_step(start, scanned as int);
        }
        let low = cell & 0xFF;
        if low == 0 {
            break;
        }
        out.push(byte_of(low));
        address = wadd(address, 1);
        scanned = scanned + 1;
    }
    out
}

/// Collects the character bytes the PUTSP trap owes for the packed string
/// at `start`: per cell the low byte then the high byte, stopping at the
/// first zero byte even mid-cell (the zero and everything after it are not
/// collected; the scan gives up after one full sweep of memory). Each cell
/// is read through [`VM::memory_read`].
pub fn putsp_bytes(vm: &mut VM, start: u16) -> (out: Vec<u8>)
    requires
        old(vm).wf(),
    ensures
        final(vm).wf(),
        final(vm).regs() == old(vm).regs(),
        final(vm).running() == old(vm).running(),
        reads_effect(old(vm).mem(), final(vm).mem()),
        putsp_printed(final(vm).mem(), start, out@),
{
    let mut out: Vec<u8> = Vec::new();
    let mut address = start;
    let mut scanned: usize = 0;
    while scanned < MEMORY_MAX
        invariant_except_break
            out@.len() == 2 * scanned as int,
        invariant
            vm.wf(),
            reads_effect(old(vm).mem(), vm.mem()),
            vm.regs() == old(vm).regs(),
            vm.running() == old(vm).running(),
            scanned <= MEMORY_MAX,
            out@.len() <= 2 * scanned as int + 1,
            address == scan_addr(start, scanned as int),
            forall|j: int| 0 <= j < out@.len() ==> #[trigger] out@[j] != 0,
            forall|j: int|
                0 <= j < out@.len() && !is_kb_cell(scan_addr(start, j / 2)) ==> #[trigger] out@[j]
                    == stream_byte(vm.mem(), start, j),
        ensures
            vm.wf(),
            reads_effect(old(vm).mem(), vm.mem()),
            vm.regs() == old(vm).regs(),
            vm.running() == old(vm).running(),
            putsp_printed(vm.mem(), start, out@),
        decreases MEMORY_MAX - scanned,
    {
        let ghost before = vm.mem();
        let cell = vm.memory_read(address);
        proof {
            crate::vm::lemma_reads_effect_step(old(vm).mem(), before, vm.mem(), address);
            lemma_bytes(cell);
            lemma_scan_step(start, scanned as int);
        }
        let low = cell & 0xFF;
        if low == 0 {
            break;
        }
        out.push(byte_of(low));
        let high = cell >> 8;
        if high == 0 {
            break;
        }
        out.push(byte_of(high));
        address = wadd(address, 1);
        scanned = scanned + 1;
    }
    out
}

/// Hands a byte sequence to the console writer, in order.
fn write_bytes(bytes: &Vec<u8>) {
    let mut i: usize = 0;
    while i < bytes.len()
        decreases bytes.len() - i,
    {
        write_byte(bytes[i]);
        i = i + 1;
    }
}

// ---------------------------------------------------------------------------
// Trap dispatch
// ---------------------------------------------------------------------------
/// TRAP: R7 captures the PC, then the vector in the low byte selects a
/// console service routine. Input routines put a fresh byte in R0 with the
/// flags following it; output routines touch no register beyond R7; the
/// string routines' reads may re-sample the keyboard cells; HALT stops the
/// machine; an undefined vector is an error. Only HALT changes the run
/// state. The bytes the string routines hand to the console are fixed by
/// the contracts of [`puts_bytes`] and [`putsp_bytes`], which produce
/// exactly what [`OP_TRAP`] writes.
pub open spec fn trap_post(pre: VM, post: VM, inst: u16, r: Result<(), VmError>) -> bool {
    let linked = pre.regs().update(R_R7 as int, pre.regs()[R_PC as int]);
    match trap_of(trapvect_of(inst)) {
        Traps::TRAP_GETC => {
            &&& r is Ok
            &&& post.mem() == pre.mem()
            &&& post.running() == pre.running()
            &&& exists|b: u16| b < 256 && post.regs() == dest_write(linked, R_R0 as int, b)
        },
        Traps::TRAP_OUT => {
            &&& r is Ok
            &&& post.mem() == pre.mem()
            &&& post.running() == pre.running()
            &&& post.regs() == linked
        },
        Traps::TRAP_PUTS => {
            &&& r is Ok
            &&& reads_effect(pre.mem(), post.mem())
            &&& post.running() == pre.running()
            &&& post.regs() == linked
        },
        Traps::TRAP_IN => {
            &&& r is Ok
            &&& post.mem() == pre.mem()
            &&& post.running() == pre.running()
            &&& exists|b: u16| b < 256 && post.regs() == dest_write(linked, R_R0 as int, b)
        },
        Traps::TRAP_PUTSP => {
            &&& r is Ok
            &&& reads_effect(pre.mem(), post.mem())
            &&& post.running() == pre.running()
            &&& post.regs() == linked
        },
        Traps::TRAP_HALT => {
            &&& r is Ok
            &&& post.mem() == pre.mem()
            &&& !post.running()
            &&& post.regs() == linked
        },
        Traps::TRAP_INVALID => {
            &&& r == Result::<(), VmError>::Err(VmError::IllegalTrap)
            &&& post.mem() == pre.mem()
            &&& post.running() == pre.running()
            &&& post.regs() == linked
        },
    }
}

/// Trap: R7 captures the PC, then the low byte of the instruction selects a
/// console service routine (see [`trap_post`]). What reaches the console:
/// OUT writes the one character whose code is the low byte of R0; PUTS
/// writes exactly the bytes of [`puts_bytes`] for the string at R0; PUTSP
/// writes exactly the bytes of [`putsp_bytes`]; IN writes a prompt and then
/// echoes the byte it read; HALT writes a halt notice; GETC writes nothing.
#[allow(non_snake_case)]
pub fn OP_TRAP(inst: u16, vm: &mut VM) -> (r: Result<(), VmError>)
    requires
        old(vm).wf(),
    ensures
        final(vm).wf(),
        trap_post(*old(vm), *final(vm), inst, r),
{
    proof {
        lemma_fields(inst);
    }
    let pc = vm.register_read(R_PC);
    vm.register_write(R_R7, pc);
    match Traps::from(inst & 0xFF) {
        Traps::TRAP_GETC => {
            let b = read_byte();
            vm.register_write(R_R0, b as u16);
            vm.update_flags(R_R0);
            proof {
                assert(vm.regs() == dest_write(
                    old(vm).regs().update(R_R7 as int, pc),
                    R_R0 as int,
                    b as u16,
                ));
            }
            Ok(())
        },
        Traps::TRAP_OUT => {
            let character = vm.register_read(R_R0);
            proof {
                lemma_bytes(character);
            }
            write_byte(byte_of(character & 0xFF));
            Ok(())
        },
        Traps::TRAP_PUTS => {
            let base_address = vm.register_read(R_R0);
            let out = puts_bytes(vm, base_address);
            write_bytes(&out);
            Ok(())
        },
        Traps::TRAP_IN => {
            write_line("Enter a single character: ");
            let b = read_byte();
            vm.register_write(R_R0, b as u16);
            vm.update_flags(R_R0);
            write_byte(b);
            proof {
                assert(vm.regs() == dest_write(
                    old(vm).regs().update(R_R7 as int, pc),
                    R_R0 as int,
                    b as u16,
                ));
            }
            Ok(())
        },
        Traps::TRAP_PUTSP => {
            let base_address = vm.register_read(R_R0);
            let out = putsp_bytes(vm, base_address);
            write_bytes(&out);
            Ok(())
        },
        Traps::TRAP_HALT => {
            write_line("VM halted");
            if vm.state_read() {
                vm.state_change();
            }
            Ok(())
        },
        Traps::TRAP_INVALID => Err(VmError::IllegalTrap),
    }
}

/// A 16-bit value below 256, as the byte it holds.
fn byte_of(v: u16) -> (r: u8)
    requires
        v < 256,
    ensures
        r == v,
{
    v as u8
}

// ---------------------------------------------------------------------------
// Dispatch and the fetch/decode/execute step
// ---------------------------------------------------------------------------
/// What one executed instruction does to the machine, by opcode: the
/// respective handler's relation, an `IllegalOpcode` error for the reserved
/// opcode, and the trap dispatcher's relation for TRAP.
pub open spec fn exec_post(pre: VM, post: VM, inst: u16, r: Result<(), VmError>) -> bool {
    let op = opcode_of(inst);
    if op == 0 {
        br_post(pre, post, inst) && r is Ok
    } else if op == 1 {
        add_post(pre, post, inst) && r is Ok
    } else if op == 2 {
        ld_post(pre, post, inst) && r is Ok
    } else if op == 3 {
        st_post(pre, post, inst) && r is Ok
    } else if op == 4 {
        jsr_post(pre, post, inst) && r is Ok
    } else if op == 5 {
        and_post(pre, post, inst) && r is Ok
    } else if op == 6 {
        ldr_post(pre, post, inst) && r is Ok
    } else if op == 7 {
        str_post(pre, post, inst) && r is Ok
    } else if op == 8 {
        post == pre && r is Ok
    } else if op == 9 {
        not_post(pre, post, inst) && r is Ok
    } else if op == 10 {
        ldi_post(pre, post, inst) && r is Ok
    } else if op == 11 {
        sti_post(pre, post, inst) && r is Ok
    } else if op == 12 {
        jmp_post(pre, post, inst) && r is Ok
    } else if op == 13 {
        post == pre && r == Result::<(), VmError>::Err(VmError::IllegalOpcode)
    } else if op == 14 {
        lea_post(pre, post, inst) && r is Ok
    } else {
        trap_post(pre, post, inst, r)
    }
}

/// Decodes the opcode from bits [15:12] and runs the matching handler on
/// the raw instruction word.
pub fn execute(inst: u16, vm: &mut VM) -> (r: Result<(), VmError>)
    requires
        old(vm).wf(),
    ensures
        final(vm).wf(),
        exec_post(*old(vm), *final(vm), inst, r),
{
    proof {
        lemma_fields(inst);
    }
    let opcode = inst >> 12;
    match opcode {
        0 => {
            OP_BR(inst, vm);
            Ok(())
        },
        1 => {
            OP_ADD(inst, vm);
            Ok(())
        },
        2 => {
            OP_LD(inst, vm);
            Ok(())
        },
        3 => {
            OP_ST(inst, vm);
            Ok(())
        },
        4 => {
            OP_JSR(inst, vm);
            Ok(())
        },
        5 => {
            OP_AND(inst, vm);
            Ok(())
        },
        6 => {
            OP_LDR(inst, vm);
            Ok(())
        },
        7 => {
            OP_STR(inst, vm);
            Ok(())
        },
        8 => {
            OP_RTI(inst, vm);
            Ok(())
        },
        9 => {
            OP_NOT(inst, vm);
            Ok(())
        },
        10 => {
            OP_LDI(inst, vm);
            Ok(())
        },
        11 => {
            OP_STI(inst, vm);
            Ok(())
        },
        12 => {
            OP_JMP(inst, vm);
            Ok(())
        },
        13 => OP_RES(inst, vm),
        14 => {
            OP_LEA(inst, vm);
            Ok(())
        },
        _ => OP_TRAP(inst, vm),
    }
}

/// The fetch that starts a step: PC is bumped by one (wrapping), the word
/// at the old PC is read (with that read's own side effect), and that word
/// is the fetched instruction.
pub open spec fn fetch_rel(pre: VM, fetched: VM, inst: u16) -> bool {
    let pc = pre.regs()[R_PC as int];
    &&& fetched.running() == pre.running()
    &&& fetched.regs() == pre.regs().update(R_PC as int, wrap_add(pc, 1))
    &&& read_effect(pre.mem(), fetched.mem(), pc)
    &&& inst == fetched.mem()[pc as int]
}

/// One iteration of the run loop: on a halted machine nothing happens; on a
/// running one, an instruction is fetched (see [`fetch_rel`]) and executed
/// (see [`exec_post`]).
pub open spec fn step_post(pre: VM, post: VM, r: Result<(), VmError>) -> bool {
    if !pre.running() {
        post == pre && r is Ok
    } else {
        exists|fetched: VM, inst: u16|
            fetch_rel(pre, fetched, inst) && #[trigger] exec_post(fetched, post, inst, r)
    }
}

/// One step of the run loop: when the machine is running, fetch the word at
/// PC, increment PC by one (wrapping), and execute the word; when it is
/// halted, fetch nothing and change nothing.
pub fn step(vm: &mut VM) -> (r: Result<(), VmError>)
    requires
        old(vm).wf(),
    ensures
        final(vm).wf(),
        step_post(*old(vm), *final(vm), r),
{
    if !vm.state_read() {
        return Ok(());
    }
    let pc = vm.register_read(R_PC);
    vm.register_write(R_PC, wadd(pc, 1));
    let inst = vm.memory_read(pc);
    let ghost fetched = *vm;
    let r = execute(inst, vm);
    proof {
        assert(fetch_rel(*old(vm), fetched, inst) && exec_post(fetched, *vm, inst, r));
    }
    r
}

} // verus!
