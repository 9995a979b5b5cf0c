//! Numeric readings of machine words, and the laws that tie the instruction
//! semantics to them: sign extension is exact, the condition flags partition
//! the values, call instructions capture the return address, and only the
//! HALT trap ever stops the machine.

use crate::hardware::flag_for;
use crate::hardware::FL_NEG;
use crate::hardware::FL_POS;
use crate::hardware::FL_ZRO;
use crate::hardware::R_COND;
use crate::hardware::R_PC;
use crate::hardware::R_R7;
use crate::hardware::MEMORY_MAX;
use crate::operations::exec_post;
use crate::operations::is_kb_cell;
use crate::operations::jmp_post;
use crate::operations::jsr_post;
use crate::operations::low_byte;
use crate::operations::opcode_of;
use crate::operations::puts_printed;
use crate::operations::putsp_printed;
use crate::operations::scan_addr;
use crate::operations::sign_extend;
use crate::operations::stream_byte;
use crate::operations::trapvect_of;
use crate::vm::VmError;
use crate::vm::VM;
use vstd::prelude::*;

verus! {

/// The numeric value of a 16-bit word read as two's complement.
pub open spec fn as_signed16(v: u16) -> int {
    if v >= 0x8000 {
        v - 0x10000
    } else {
        v as int
    }
}

/// 2 to the power `w`, for `w` up to 16.
pub open spec fn two_to(w: u16) -> int
    recommends
        w <= 16,
{
    (1u32 << w) as int
}

/// The numeric value of the low `w` bits of `v` read as a `w`-bit
/// two's-complement number.
pub open spec fn as_signed_width(v: u16, w: u16) -> int
    recommends
        1 <= w <= 16,
{
    let lo = (v as int) % two_to(w);
    if lo >= two_to((w - 1) as u16) {
        lo - two_to(w)
    } else {
        lo
    }
}

/// For each offset width the instruction set uses, sign extension is exact:
/// the extended word, read as 16-bit two's complement, has the numeric value
/// of the low `w` bits read as a `w`-bit two's-complement number.
pub proof fn lemma_sign_extend_exact(v: u16, w: u16)
    requires
        w == 1 || w == 5 || w == 6 || w == 9 || w == 11,
    ensures
        as_signed16(sign_extend(v, w)) == as_signed_width(v, w),
{
    if w == 1 {
        assert((1u32 << 1) == 2 && (1u32 << 0) == 1 && (0xFFFFu16 << 1) == 0xFFFE && (1u16 << 1)
            == 2) by (bit_vector);
        assert(((v >> 0) & 1 == 1) ==> (v | 0xFFFEu16) == v % 2 + 0xFFFE && v % 2 >= 1)
            by (bit_vector);
        assert((v >> 0) & 1 == 0 || (v >> 0) & 1 == 1) by (bit_vector);
        assert(((v >> 0) & 1 == 0) ==> (v & 0x1u16) == v % 2 && v % 2 < 1) by (bit_vector);
    } else if w == 5 {
        assert((1u32 << 5) == 32 && (1u32 << 4) == 16 && (0xFFFFu16 << 5) == 0xFFE0 && (1u16 << 5)
            == 32) by (bit_vector);
        assert(((v >> 4) & 1 == 1) ==> (v | 0xFFE0u16) == v % 32 + 0xFFE0 && v % 32 >= 16)
            by (bit_vector);
        assert((v >> 4) & 1 == 0 || (v >> 4) & 1 == 1) by (bit_vector);
        assert(((v >> 4) & 1 == 0) ==> (v & 0x1Fu16) == v % 32 && v % 32 < 16) by (bit_vector);
    } else if w == 6 {
        assert((1u32 << 6) == 64 && (1u32 << 5) == 32 && (0xFFFFu16 << 6) == 0xFFC0 && (1u16 << 6)
            == 64) by (bit_vector);
        assert(((v >> 5) & 1 == 1) ==> (v | 0xFFC0u16) == v % 64 + 0xFFC0 && v % 64 >= 32)
            by (bit_vector);
        assert((v >> 5) & 1 == 0 || (v >> 5) & 1 == 1) by (bit_vector);
        assert(((v >> 5) & 1 == 0) ==> (v & 0x3Fu16) == v % 64 && v % 64 < 32) by (bit_vector);
    } else if w == 9 {
        assert((1u32 << 9) == 512 && (1u32 << 8) == 256 && (0xFFFFu16 << 9) == 0xFE00 && (1u16
            << 9) == 512) by (bit_vector);
        assert(((v >> 8) & 1 == 1) ==> (v | 0xFE00u16) == v % 512 + 0xFE00 && v % 512 >= 256)
            by (bit_vector);
        assert((v >> 8) & 1 == 0 || (v >> 8) & 1 == 1) by (bit_vector);
        assert(((v >> 8) & 1 == 0) ==> (v & 0x1FFu16) == v % 512 && v % 512 < 256)
            by (bit_vector);
    } else {
        assert((1u32 << 11) == 2048 && (1u32 << 10) == 1024 && (0xFFFFu16 << 11) == 0xF800 && (1u16
            << 11) == 2048) by (bit_vector);
        assert(((v >> 10) & 1 == 1) ==> (v | 0xF800u16) == v % 2048 + 0xF800 && v % 2048 >= 1024)
            by (bit_vector);
        assert((v >> 10) & 1 == 0 || (v >> 10) & 1 == 1) by (bit_vector);
        assert(((v >> 10) & 1 == 0) ==> (v & 0x7FFu16) == v % 2048 && v % 2048 < 1024)
            by (bit_vector);
    }
}

/// The condition flags partition the register values: every value earns
/// exactly one of the three flags, and the choice matches the sign test on
/// the value's 16-bit two's-complement reading.
pub proof fn lemma_flag_trichotomy(r: u16)
    ensures
        flag_for(r) == FL_ZRO || flag_for(r) == FL_POS || flag_for(r) == FL_NEG,
        flag_for(r) == FL_ZRO <==> as_signed16(r) == 0,
        flag_for(r) == FL_NEG <==> as_signed16(r) < 0,
        flag_for(r) == FL_POS <==> as_signed16(r) > 0,
{
}

/// JSR and JSRR both capture the pre-jump PC in R7.
pub proof fn lemma_jsr_captures_return(pre: VM, post: VM, inst: u16)
    requires
        pre.wf(),
        jsr_post(pre, post, inst),
    ensures
        post.regs()[R_R7 as int] == pre.regs()[R_PC as int],
{
}

/// JMP touches neither R7 nor the condition flags.
pub proof fn lemma_jmp_preserves_link_and_flags(pre: VM, post: VM, inst: u16)
    requires
        pre.wf(),
        jmp_post(pre, post, inst),
    ensures
        post.regs()[R_R7 as int] == pre.regs()[R_R7 as int],
        post.regs()[R_COND as int] == pre.regs()[R_COND as int],
{
}

/// The character bytes PUTS owes for the string at `start` in memory `m`,
/// from scan position `i` on: the low bytes of successive cells up to the
/// first zero low byte, capped at one full sweep of memory.
pub open spec fn puts_seq_from(m: Seq<u16>, start: u16, i: int) -> Seq<u8>
    decreases MEMORY_MAX as int - i,
{
    if i < 0 || i >= MEMORY_MAX as int {
        Seq::empty()
    } else if low_byte(m[scan_addr(start, i) as int]) == 0 {
        Seq::empty()
    } else {
        seq![low_byte(m[scan_addr(start, i) as int])] + puts_seq_from(m, start, i + 1)
    }
}

/// The whole string PUTS owes: the low bytes of successive cells from
/// `start` up to, and not including, the first zero low byte.
pub open spec fn puts_seq(m: Seq<u16>, start: u16) -> Seq<u8> {
    puts_seq_from(m, start, 0)
}

/// The character bytes PUTSP owes, from stream position `i` on: the
/// two-bytes-per-cell stream up to the first zero byte, capped at one full
/// sweep of memory.
pub open spec fn putsp_seq_from(m: Seq<u16>, start: u16, i: int) -> Seq<u8>
    decreases 2 * MEMORY_MAX as int - i,
{
    if i < 0 || i >= 2 * MEMORY_MAX as int {
        Seq::empty()
    } else if stream_byte(m, start, i) == 0 {
        Seq::empty()
    } else {
        seq![stream_byte(m, start, i)] + putsp_seq_from(m, start, i + 1)
    }
}

/// The whole string PUTSP owes: low byte then high byte of successive
/// cells from `start`, up to and not including the first zero byte.
pub open spec fn putsp_seq(m: Seq<u16>, start: u16) -> Seq<u8> {
    putsp_seq_from(m, start, 0)
}

/// Away from the two keyboard cells, the PUTS contract pins the printed
/// string exactly: it is the low bytes of successive cells from `start` up
/// to, and not including, the first zero low byte.
pub proof fn lemma_puts_printed_exact(m: Seq<u16>, start: u16, out: Seq<u8>)
    requires
        m.len() == MEMORY_MAX as int,
        puts_printed(m, start, out),
        forall|i: int| 0 <= i <= out.len() ==> !is_kb_cell(#[trigger] scan_addr(start, i)),
    ensures
        out == puts_seq(m, start),
{
    lemma_puts_suffix(m, start, out, 0);
    assert(out =~= out.subrange(0, out.len() as int));
}

proof fn lemma_puts_suffix(m: Seq<u16>, start: u16, out: Seq<u8>, i: int)
    requires
        m.len() == MEMORY_MAX as int,
        puts_printed(m, start, out),
        forall|k: int| 0 <= k <= out.len() ==> !is_kb_cell(#[trigger] scan_addr(start, k)),
        0 <= i <= out.len(),
    ensures
        puts_seq_from(m, start, i) == out.subrange(i, out.len() as int),
    decreases out.len() - i,
{
    if i == out.len() {
        // The sweep is complete, or the next cell's low byte is zero:
        // either way the suffix owed is empty.
        assert(out.subrange(i, i) =~= Seq::<u8>::empty());
    } else {
        lemma_puts_suffix(m, start, out, i + 1);
        assert(out.subrange(i, out.len() as int) =~= seq![out[i]] + out.subrange(
            i + 1,
            out.len() as int,
        ));
    }
}

/// Away from the two keyboard cells, the PUTSP contract pins the printed
/// string exactly: it is the two-bytes-per-cell stream from `start` up to,
/// and not including, the first zero byte, even mid-cell.
pub proof fn lemma_putsp_printed_exact(m: Seq<u16>, start: u16, out: Seq<u8>)
    requires
        m.len() == MEMORY_MAX as int,
        putsp_printed(m, start, out),
        forall|i: int| 0 <= i <= out.len() ==> !is_kb_cell(#[trigger] scan_addr(start, i / 2)),
    ensures
        out == putsp_seq(m, start),
{
    lemma_putsp_suffix(m, start, out, 0);
    assert(out =~= out.subrange(0, out.len() as int));
}

proof fn lemma_putsp_suffix(m: Seq<u16>, start: u16, out: Seq<u8>, i: int)
    requires
        m.len() == MEMORY_MAX as int,
        putsp_printed(m, start, out),
        forall|k: int| 0 <= k <= out.len() ==> !is_kb_cell(#[trigger] scan_addr(start, k / 2)),
        0 <= i <= out.len(),
    ensures
        putsp_seq_from(m, start, i) == out.subrange(i, out.len() as int),
    decreases out.len() - i,
{
    if i == out.len() {
        assert(out.subrange(i, i) =~= Seq::<u8>::empty());
    } else {
        lemma_putsp_suffix(m, start, out, i + 1);
        assert(out.subrange(i, out.len() as int) =~= seq![out[i]] + out.subrange(
            i + 1,
            out.len() as int,
        ));
    }
}

/// Only the HALT trap ever changes the run state: executing it leaves the
/// machine halted, and executing anything else leaves the run state as it
/// was. A halted machine never resumes, since no instruction runs on it.
pub proof fn lemma_only_halt_halts(pre: VM, post: VM, inst: u16, r: Result<(), VmError>)
    requires
        exec_post(pre, post, inst, r),
    ensures
        opcode_of(inst) == 15 && trapvect_of(inst) == 0x25 ==> !post.running(),
        !(opcode_of(inst) == 15 && trapvect_of(inst) == 0x25) ==> post.running() == pre.running(),
{
    assert(inst >> 12 < 16) by (bit_vector);
}

} // verus!
