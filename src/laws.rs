use vstd::prelude::*;

use crate::cpu::CPU;
use crate::model::{
    covers, step, word_n, word_nn, word_x, word_y, CpuState, DISPLAY_SIZE, FLAG, MEMORY_SIZE,
};

verus! {

/// Adding register `y` to register `x` (0x8xy4) sets the flag register to 1
/// exactly when the true sum exceeds 255, and to 0 otherwise.
pub proof fn lemma_add_flag(m: CPU, random: u8)
    requires
        m.opcode / 0x1000 == 0x8,
        word_n(m.opcode) == 0x4,
    ensures
        step(m@, random) matches Ok(t) && t.registers[FLAG as int] == (
            if m@.registers[word_x(m.opcode)] + m@.registers[word_y(m.opcode)] > 255 { 1u8 } else { 0u8 }),
{
}

/// Subtracting register `y` from register `x` (0x8xy5) sets the flag
/// register to 1 exactly when `x` holds at least as much as `y`.
pub proof fn lemma_sub_flag(m: CPU, random: u8)
    requires
        m.opcode / 0x1000 == 0x8,
        word_n(m.opcode) == 0x5,
    ensures
        step(m@, random) matches Ok(t) && t.registers[FLAG as int] == (
            if m@.registers[word_x(m.opcode)] >= m@.registers[word_y(m.opcode)] { 1u8 } else { 0u8 }),
{
}

/// Subtracting register `x` from register `y` into `x` (0x8xy7) sets the
/// flag register to 1 exactly when `y` holds at least as much as `x`.
pub proof fn lemma_subn_flag(m: CPU, random: u8)
    requires
        m.opcode / 0x1000 == 0x8,
        word_n(m.opcode) == 0x7,
    ensures
        step(m@, random) matches Ok(t) && t.registers[FLAG as int] == (
            if m@.registers[word_y(m.opcode)] >= m@.registers[word_x(m.opcode)] { 1u8 } else { 0u8 }),
{
}

/// A right shift (0x8xy6) puts the low bit that register `x` held before the
/// shift in the flag register; unless `x` is the flag register itself, `x`
/// then holds its old value shifted right by one.
pub proof fn lemma_shift_right(m: CPU, random: u8)
    requires
        m.opcode / 0x1000 == 0x8,
        word_n(m.opcode) == 0x6,
    ensures
        ({
            let old_x = m@.registers[word_x(m.opcode)];
            step(m@, random) matches Ok(t)
                && t.registers[FLAG as int] == old_x & 1u8
                && (word_x(m.opcode) != FLAG ==> t.registers[word_x(m.opcode)] == old_x >> 1u8)
        }),
{
    let old_x = m@.registers[word_x(m.opcode)];
    assert(old_x & 1u8 == old_x % 2 && old_x >> 1u8 == old_x / 2) by (bit_vector);
}

/// A left shift (0x8xyE) puts the high bit that register `x` held before the
/// shift in the flag register; unless `x` is the flag register itself, `x`
/// then holds its old value shifted left by one, truncated to a byte.
pub proof fn lemma_shift_left(m: CPU, random: u8)
    requires
        m.opcode / 0x1000 == 0x8,
        word_n(m.opcode) == 0xE,
    ensures
        ({
            let old_x = m@.registers[word_x(m.opcode)];
            step(m@, random) matches Ok(t)
                && t.registers[FLAG as int] == old_x >> 7u8
                && (word_x(m.opcode) != FLAG ==> t.registers[word_x(m.opcode)] == old_x << 1u8)
        }),
{
    let old_x = m@.registers[word_x(m.opcode)];
    assert(old_x >> 7u8 == old_x / 0x80 && old_x << 1u8 == ((old_x * 2) % 0x100) as u8) by (bit_vector);
}

/// Drawing the same sprite twice at the same origin leaves the display as
/// it was, and the second draw reports a collision exactly when the first
/// one lit some pixel. The origin stays the same when neither coordinate
/// register is the flag register, which the first draw overwrites.
pub proof fn lemma_draw_twice(m: CPU, random: u8)
    requires
        m.opcode / 0x1000 == 0xD,
        word_x(m.opcode) != FLAG,
        word_y(m.opcode) != FLAG,
        step(m@, random) is Ok,
    ensures
        step(m@, random) matches Ok(t1) && step(t1, random) matches Ok(t2) && t2.gfx == m@.gfx
            && (t2.registers[FLAG as int] == 1u8 <==> exists|k: int|
                0 <= k < DISPLAY_SIZE && m@.gfx[k] == 0u8 && #[trigger] t1.gfx[k] == 1u8),
{
    let s = m@;
    let t1 = step(s, random)->Ok_0;
    let n = word_n(s.opcode);
    let ox = s.registers[word_x(s.opcode)];
    let oy = s.registers[word_y(s.opcode)];
    let sprite = s.memory.subrange(s.i as int, s.i + n);
    assert(t1.registers[word_x(s.opcode)] == ox);
    assert(t1.registers[word_y(s.opcode)] == oy);
    assert(t1.memory.subrange(t1.i as int, t1.i + n) == sprite);
    let t2 = step(t1, random)->Ok_0;
    assert forall|p: u8| #[trigger] (p ^ 1u8) ^ 1u8 == p && ((p ^ 1u8 == 1u8) <==> p == 0u8) by {
        assert((p ^ 1u8) ^ 1u8 == p && ((p ^ 1u8 == 1u8) <==> p == 0u8)) by (bit_vector);
    }
    assert(t2.gfx =~= s.gfx);
    if t2.registers[FLAG as int] == 1u8 {
        let k = choose|k: int| 0 <= k < t1.gfx.len() && #[trigger] covers(sprite, ox, oy, k) && t1.gfx[k] == 1u8;
        assert(s.gfx[k] ^ 1u8 == 1u8);
        assert(0 <= k < DISPLAY_SIZE && s.gfx[k] == 0u8 && t1.gfx[k] == 1u8);
    }
    if exists|k: int| 0 <= k < DISPLAY_SIZE && s.gfx[k] == 0u8 && #[trigger] t1.gfx[k] == 1u8 {
        let k = choose|k: int| 0 <= k < DISPLAY_SIZE && s.gfx[k] == 0u8 && #[trigger] t1.gfx[k] == 1u8;
        assert(covers(sprite, ox, oy, k));
        assert(t2.registers[FLAG as int] == 1u8);
    }
}

/// Storing the decimal digits of register `x` (0xFx33) and then loading
/// registers 0 to 2 from the same address (0xF265) puts the hundreds, tens
/// and units of the stored value in registers 0, 1 and 2.
pub proof fn lemma_bcd_round_trip(m: CPU, random: u8)
    requires
        m.opcode / 0x1000 == 0xF,
        word_nn(m.opcode) == 0x33,
        m.i + 2 < MEMORY_SIZE,
    ensures
        ({
            let v = m@.registers[word_x(m.opcode)];
            step(m@, random) matches Ok(t1)
                && step(CpuState { opcode: 0xF265, ..t1 }, random) matches Ok(t2)
                && t2.registers[0] == v / 100
                && t2.registers[1] == (v / 10) % 10
                && t2.registers[2] == v % 10
        }),
{
}

} // verus!
