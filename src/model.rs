use vstd::prelude::*;

verus! {

/// Bytes of addressable memory.
pub const MEMORY_SIZE: usize = 4096;

/// Address at which programs are loaded and execution starts.
pub const PROGRAM_START: u16 = 0x200;

/// Largest program that fits between `PROGRAM_START` and the end of memory.
pub const MAX_ROM_SIZE: usize = 3584;

/// Width of the display, in pixels; it is 32 pixels high.
pub const DISPLAY_WIDTH: usize = 64;

/// Pixels of the display, row by row.
pub const DISPLAY_SIZE: usize = 2048;

/// Depth of the call stack.
pub const STACK_DEPTH: u16 = 16;

/// Register that carry, borrow, shift-out and collision results are written to.
pub const FLAG: usize = 15;

/// Why an instruction, or a program load, could not be carried out.
#[derive(PartialEq, Eq, Structural, Clone, Copy, Debug)]
pub enum FaultKind {
    /// The instruction word names no operation.
    UnknownInstruction,
    /// A fetch, a sprite read, a memory transfer or a key index falls
    /// outside what the machine has.
    OutOfBounds,
    /// A call with all sixteen return addresses in use, or a return while
    /// the stack pointer lies beyond the stack.
    StackOverflow,
    /// A return with no return address saved.
    StackUnderflow,
    /// A program longer than `MAX_ROM_SIZE` bytes.
    RomTooLarge,
}

/// A reported error: what went wrong, at which program counter, on which
/// instruction word.
#[derive(PartialEq, Eq, Structural, Clone, Copy, Debug)]
pub struct Fault {
    pub kind: FaultKind,
    pub pc: u16,
    pub opcode: u16,
}

/// The machine as a mathematical value.
pub struct CpuState {
    pub opcode: u16,
    pub registers: Seq<u8>,
    pub i: u16,
    pub sound_timer: u8,
    pub delay_timer: u8,
    pub stack: Seq<u16>,
    pub sp: u16,
    pub memory: Seq<u8>,
    pub pc: u16,
    pub gfx: Seq<u8>,
    pub draw_flag: bool,
    pub keyboard: Seq<bool>,
}

/// An address computed modulo 2^16.
pub open spec fn wrap16(v: int) -> u16 {
    (v % 0x10000) as u16
}

/// Second nibble of an instruction word: the first register operand.
pub open spec fn word_x(w: u16) -> int {
    (w / 0x100) as int % 0x10
}

/// Third nibble: the second register operand.
pub open spec fn word_y(w: u16) -> int {
    (w / 0x10) as int % 0x10
}

/// Lowest nibble.
pub open spec fn word_n(w: u16) -> int {
    w as int % 0x10
}

/// Lowest byte.
pub open spec fn word_nn(w: u16) -> u8 {
    (w % 0x100) as u8
}

/// Lowest twelve bits: an address.
pub open spec fn word_nnn(w: u16) -> u16 {
    (w % 0x1000) as u16
}

/// The instruction word stored big-endian at `addr`.
pub open spec fn word_at(memory: Seq<u8>, addr: int) -> u16 {
    (memory[addr] * 0x100 + memory[addr + 1]) as u16
}

/// `s` with the program counter moved past the current instruction.
pub open spec fn advance(s: CpuState) -> CpuState {
    CpuState { pc: wrap16(s.pc + 2), ..s }
}

/// `s` with the next instruction skipped when `cond` holds.
pub open spec fn skip_if(s: CpuState, cond: bool) -> CpuState {
    CpuState { pc: wrap16(s.pc + if cond { 4int } else { 2int }), ..s }
}

/// `s` with register `x` set to `v`.
pub open spec fn set_reg(s: CpuState, x: int, v: u8) -> CpuState {
    CpuState { registers: s.registers.update(x, v), ..s }
}

/// Whether the low nibble `op` selects a register-to-register operation.
pub open spec fn alu_known(op: int) -> bool {
    0 <= op <= 7 || op == 0xE
}

/// Whether operation `op` writes the flag register.
pub open spec fn alu_sets_flag(op: int) -> bool {
    4 <= op <= 7 || op == 0xE
}

/// The value that operation `op` stores in the first register.
pub open spec fn alu_value(op: int, vx: u8, vy: u8) -> u8 {
    if op == 0 {
        vy
    } else if op == 1 {
        vx | vy
    } else if op == 2 {
        vx & vy
    } else if op == 3 {
        vx ^ vy
    } else if op == 4 {
        ((vx + vy) % 0x100) as u8
    } else if op == 5 {
        ((vx - vy + 0x100) % 0x100) as u8
    } else if op == 6 {
        (vx / 2) as u8
    } else if op == 7 {
        ((vy - vx + 0x100) % 0x100) as u8
    } else {
        ((vx * 2) % 0x100) as u8
    }
}

/// The value that operation `op` stores in the flag register: the carry of
/// an addition, 1 when a subtraction does not borrow, or the bit shifted out.
pub open spec fn alu_flag(op: int, vx: u8, vy: u8) -> u8 {
    if op == 4 {
        if vx + vy > 0xFF { 1 } else { 0 }
    } else if op == 5 {
        if vx >= vy { 1 } else { 0 }
    } else if op == 6 {
        (vx % 2) as u8
    } else if op == 7 {
        if vy >= vx { 1 } else { 0 }
    } else {
        (vx / 0x80) as u8
    }
}

/// Whether column `c` (0 at the left) of a sprite row is set.
pub open spec fn sprite_bit(row: u8, c: int) -> bool {
    (row >> ((7 - c) as u8)) & 1u8 == 1u8
}

/// Rows below the sprite's origin at which display cell `k` lies, wrapping
/// at the bottom edge.
pub open spec fn row_offset(k: int, oy: u8) -> int {
    (k / DISPLAY_WIDTH as int - oy as int % 32 + 32) % 32
}

/// Columns right of the sprite's origin at which display cell `k` lies,
/// wrapping at the right edge.
pub open spec fn col_offset(k: int, ox: u8) -> int {
    (k % DISPLAY_WIDTH as int - ox as int % 64 + 64) % 64
}

/// Whether a set bit of `sprite`, drawn with its top left corner at
/// `(ox, oy)`, falls on display cell `k`. Sprites wrap around both edges.
pub open spec fn covers(sprite: Seq<u8>, ox: u8, oy: u8, k: int) -> bool {
    let r = row_offset(k, oy);
    let c = col_offset(k, ox);
    r < sprite.len() && c < 8 && sprite_bit(sprite[r], c)
}

/// The display after `sprite` is XORed onto it at `(ox, oy)`.
pub open spec fn drawn(gfx: Seq<u8>, sprite: Seq<u8>, ox: u8, oy: u8) -> Seq<u8> {
    Seq::new(gfx.len(), |k: int| if covers(sprite, ox, oy, k) { gfx[k] ^ 1u8 } else { gfx[k] })
}

/// Whether drawing `sprite` at `(ox, oy)` turns a lit pixel off.
pub open spec fn collides(gfx: Seq<u8>, sprite: Seq<u8>, ox: u8, oy: u8) -> bool {
    exists|k: int| 0 <= k < gfx.len() && #[trigger] covers(sprite, ox, oy, k) && gfx[k] == 1u8
}

/// Whether `k` is the lowest index of a pressed key.
pub open spec fn is_first_pressed(keys: Seq<bool>, k: int) -> bool {
    0 <= k < keys.len() && keys[k] && forall|j: int| 0 <= j < k ==> !#[trigger] keys[j]
}

/// Whether any key is pressed.
pub open spec fn any_pressed(keys: Seq<bool>) -> bool {
    exists|k: int| 0 <= k < keys.len() && #[trigger] keys[k]
}

/// Lowest index of a pressed key.
pub open spec fn first_pressed(keys: Seq<bool>) -> int {
    choose|k: int| is_first_pressed(keys, k)
}

/// Families 0x0: clear the screen, return from a subroutine.
pub open spec fn step_system(s: CpuState) -> Result<CpuState, FaultKind> {
    if s.opcode == 0x00E0 {
        Ok(advance(CpuState { gfx: Seq::new(s.gfx.len(), |k: int| 0u8), draw_flag: true, ..s }))
    } else if s.opcode == 0x00EE {
        if s.sp == 0 {
            Err(FaultKind::StackUnderflow)
        } else if s.sp > STACK_DEPTH {
            Err(FaultKind::StackOverflow)
        } else {
            Ok(CpuState { sp: (s.sp - 1) as u16, pc: wrap16(s.stack[s.sp - 1] + 2), ..s })
        }
    } else {
        Err(FaultKind::UnknownInstruction)
    }
}

/// Family 0x8: operations between two registers.
pub open spec fn step_alu(s: CpuState) -> Result<CpuState, FaultKind> {
    let x = word_x(s.opcode);
    let op = word_n(s.opcode);
    let vx = s.registers[x];
    let vy = s.registers[word_y(s.opcode)];
    if !alu_known(op) {
        Err(FaultKind::UnknownInstruction)
    } else {
        let regs = s.registers.update(x, alu_value(op, vx, vy));
        let regs = if alu_sets_flag(op) { regs.update(FLAG as int, alu_flag(op, vx, vy)) } else { regs };
        Ok(advance(CpuState { registers: regs, ..s }))
    }
}

/// Family 0xD: draw the `n`-byte sprite at address `i` at the position held
/// in registers `x` and `y`.
pub open spec fn step_draw(s: CpuState) -> Result<CpuState, FaultKind> {
    let n = word_n(s.opcode);
    let ox = s.registers[word_x(s.opcode)];
    let oy = s.registers[word_y(s.opcode)];
    if s.i + n > MEMORY_SIZE {
        Err(FaultKind::OutOfBounds)
    } else {
        let sprite = s.memory.subrange(s.i as int, s.i + n);
        Ok(advance(CpuState {
            gfx: drawn(s.gfx, sprite, ox, oy),
            registers: s.registers.update(FLAG as int, if collides(s.gfx, sprite, ox, oy) { 1u8 } else { 0u8 }),
            draw_flag: true,
            ..s
        }))
    }
}

/// Family 0xE: skip on the state of the key named by register `x`.
pub open spec fn step_keys(s: CpuState) -> Result<CpuState, FaultKind> {
    let nn = word_nn(s.opcode);
    let key = s.registers[word_x(s.opcode)];
    if nn != 0x9E && nn != 0xA1 {
        Err(FaultKind::UnknownInstruction)
    } else if key >= 16 {
        Err(FaultKind::OutOfBounds)
    } else if nn == 0x9E {
        Ok(skip_if(s, s.keyboard[key as int]))
    } else {
        Ok(skip_if(s, !s.keyboard[key as int]))
    }
}

/// Family 0xF: timers, keys, the address register and memory transfers.
pub open spec fn step_misc(s: CpuState) -> Result<CpuState, FaultKind> {
    let x = word_x(s.opcode);
    let vx = s.registers[x];
    let nn = word_nn(s.opcode);
    if nn == 0x07 {
        Ok(advance(set_reg(s, x, s.delay_timer)))
    } else if nn == 0x0A {
        if any_pressed(s.keyboard) {
            Ok(advance(set_reg(s, x, first_pressed(s.keyboard) as u8)))
        } else {
            Ok(s)
        }
    } else if nn == 0x15 {
        Ok(advance(CpuState { delay_timer: vx, ..s }))
    } else if nn == 0x18 {
        Ok(advance(CpuState { sound_timer: vx, ..s }))
    } else if nn == 0x1E {
        Ok(advance(CpuState { i: wrap16(s.i + vx), ..s }))
    } else if nn == 0x29 {
        Ok(advance(CpuState { i: (vx * 5) as u16, ..s }))
    } else if nn == 0x33 {
        if s.i + 2 >= MEMORY_SIZE {
            Err(FaultKind::OutOfBounds)
        } else {
            let mem = s.memory.update(s.i as int, (vx / 100) as u8)
                .update(s.i + 1, ((vx / 10) % 10) as u8)
                .update(s.i + 2, (vx % 10) as u8);
            Ok(advance(CpuState { memory: mem, ..s }))
        }
    } else if nn == 0x55 {
        if s.i + x >= MEMORY_SIZE {
            Err(FaultKind::OutOfBounds)
        } else {
            let mem = Seq::new(s.memory.len(), |k: int|
                if s.i <= k <= s.i + x { s.registers[k - s.i] } else { s.memory[k] });
            Ok(advance(CpuState { memory: mem, i: (s.i + x + 1) as u16, ..s }))
        }
    } else if nn == 0x65 {
        if s.i + x >= MEMORY_SIZE {
            Err(FaultKind::OutOfBounds)
        } else {
            let regs = Seq::new(s.registers.len(), |k: int|
                if k <= x { s.memory[s.i + k] } else { s.registers[k] });
            Ok(advance(CpuState { registers: regs, i: (s.i + x + 1) as u16, ..s }))
        }
    } else {
        Err(FaultKind::UnknownInstruction)
    }
}

/// What executing the instruction word in `s.opcode` does to `s`, given the
/// byte that the random source supplies.
pub open spec fn step(s: CpuState, random: u8) -> Result<CpuState, FaultKind> {
    let w = s.opcode;
    let x = word_x(w);
    let vx = s.registers[x];
    let vy = s.registers[word_y(w)];
    let nn = word_nn(w);
    let nnn = word_nnn(w);
    let family = w / 0x1000;
    if family == 0x0 {
        step_system(s)
    } else if family == 0x1 {
        Ok(CpuState { pc: nnn, ..s })
    } else if family == 0x2 {
        if s.sp >= STACK_DEPTH {
            Err(FaultKind::StackOverflow)
        } else {
            Ok(CpuState { stack: s.stack.update(s.sp as int, s.pc), sp: (s.sp + 1) as u16, pc: nnn, ..s })
        }
    } else if family == 0x3 {
        Ok(skip_if(s, vx == nn))
    } else if family == 0x4 {
        Ok(skip_if(s, vx != nn))
    } else if family == 0x5 {
        if word_n(w) == 0 { Ok(skip_if(s, vx == vy)) } else { Err(FaultKind::UnknownInstruction) }
    } else if family == 0x6 {
        Ok(advance(set_reg(s, x, nn)))
    } else if family == 0x7 {
        Ok(advance(set_reg(s, x, ((vx + nn) % 0x100) as u8)))
    } else if family == 0x8 {
        step_alu(s)
    } else if family == 0x9 {
        if word_n(w) == 0 { Ok(skip_if(s, vx != vy)) } else { Err(FaultKind::UnknownInstruction) }
    } else if family == 0xA {
        Ok(advance(CpuState { i: nnn, ..s }))
    } else if family == 0xB {
        Ok(CpuState { pc: wrap16(s.registers[0] + nnn + 2), ..s })
    } else if family == 0xC {
        Ok(advance(set_reg(s, x, random & nn)))
    } else if family == 0xD {
        step_draw(s)
    } else if family == 0xE {
        step_keys(s)
    } else {
        step_misc(s)
    }
}

/// Whether an execution that began in `before` and ended in `after` with
/// result `r` is the one that `expected` describes: on success the new
/// state, on failure a fault naming the kind, program counter and
/// instruction word, with the machine left as it was.
pub open spec fn outcome(
    before: CpuState,
    after: CpuState,
    r: Result<(), Fault>,
    expected: Result<CpuState, FaultKind>,
) -> bool {
    match expected {
        Ok(t) => r is Ok && after == t,
        Err(kind) => r == Err::<(), Fault>(Fault { kind, pc: before.pc, opcode: before.opcode }) && after
            == before,
    }
}

/// `s` with the instruction word at the program counter loaded.
pub open spec fn fetched(s: CpuState) -> CpuState {
    CpuState { opcode: word_at(s.memory, s.pc as int), ..s }
}

/// `s` after one timer tick: each timer above zero goes down by one.
pub open spec fn ticked(s: CpuState) -> CpuState {
    CpuState {
        delay_timer: if s.delay_timer > 0 { (s.delay_timer - 1) as u8 } else { 0 },
        sound_timer: if s.sound_timer > 0 { (s.sound_timer - 1) as u8 } else { 0 },
        ..s
    }
}

/// Memory with `rom` copied in at `PROGRAM_START`.
pub open spec fn with_rom(memory: Seq<u8>, rom: Seq<u8>) -> Seq<u8> {
    Seq::new(memory.len(), |k: int|
        if PROGRAM_START <= k < PROGRAM_START + rom.len() { rom[k - PROGRAM_START] } else { memory[k] })
}

} // verus!
