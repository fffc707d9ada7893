use vstd::prelude::*;

use crate::font::{FONTSET, GLYPH_SIZE};
use crate::model::{
    alu_flag, alu_value, any_pressed, covers, drawn, fetched, first_pressed, is_first_pressed,
    outcome, step, step_alu, step_draw, step_keys, step_misc, step_system, ticked, with_rom,
    word_x, word_y, col_offset, row_offset, CpuState, Fault, FaultKind, DISPLAY_SIZE,
    DISPLAY_WIDTH, FLAG, MAX_ROM_SIZE, MEMORY_SIZE, PROGRAM_START, STACK_DEPTH,
};

verus! {

/// The whole machine. The driver owns it, sets `keyboard` from its input,
/// shows `gfx` and clears `draw_flag` once it has done so, and calls
/// `tick_timers` at its own pace.
pub struct CPU {
    /// The instruction word being executed.
    pub opcode: u16,
    pub registers: [u8; 16],
    /// The address register.
    pub i: u16,
    pub sound_timer: u8,
    pub delay_timer: u8,
    pub stack: [u16; 16],
    /// Number of return addresses saved on `stack`.
    pub sp: u16,
    pub memory: [u8; 4096],
    pub pc: u16,
    /// The display, row by row, one byte per pixel: 1 lit, 0 dark.
    pub gfx: [u8; 2048],
    /// Set whenever `gfx` may have changed.
    pub draw_flag: bool,
    pub keyboard: [bool; 16],
}

impl View for CPU {
    type V = CpuState;

    open spec fn view(&self) -> CpuState {
        CpuState {
            opcode: self.opcode,
            registers: self.registers@,
            i: self.i,
            sound_timer: self.sound_timer,
            delay_timer: self.delay_timer,
            stack: self.stack@,
            sp: self.sp,
            memory: self.memory@,
            pc: self.pc,
            gfx: self.gfx@,
            draw_flag: self.draw_flag,
            keyboard: self.keyboard@,
        }
    }
}

/// Relies on rand::random::<u8>, which draws a byte from the thread-local
/// generator; nothing is known of its value.
#[verifier::external_body]
fn random_byte() -> (r: u8) {
    rand::random::<u8>()
}

/// The first register operand of `w`.
fn field_x(w: u16) -> (r: usize)
    ensures
        r == word_x(w),
        r < 16,
{
    ((w / 0x100) % 0x10) as usize
}

/// The second register operand of `w`.
fn field_y(w: u16) -> (r: usize)
    ensures
        r == word_y(w),
        r < 16,
{
    ((w / 0x10) % 0x10) as usize
}

impl CPU {
    /// A machine with the font at address 0, the rest of memory zeroed, the
    /// program counter and address register at `PROGRAM_START`, an empty
    /// stack, stopped timers, a dark display and no key pressed.
    pub fn init() -> (r: CPU)
        ensures
            r.memory@.subrange(0, 80) == FONTSET@,
            forall|k: int| 80 <= k < MEMORY_SIZE ==> r.memory@[k] == 0,
            forall|k: int| 0 <= k < 16 ==> r.registers@[k] == 0,
            forall|k: int| 0 <= k < 16 ==> r.stack@[k] == 0,
            forall|k: int| 0 <= k < DISPLAY_SIZE ==> r.gfx@[k] == 0,
            forall|k: int| 0 <= k < 16 ==> !r.keyboard@[k],
            r.pc == PROGRAM_START,
            r.i == PROGRAM_START,
            r.sp == 0,
            r.opcode == 0,
            r.delay_timer == 0,
            r.sound_timer == 0,
            !r.draw_flag,
    {
        let mut memory = [0u8; 4096];
        let mut k: usize = 0;
        while k < 80
            invariant
                k <= 80,
                forall|j: int| 0 <= j < k ==> memory@[j] == FONTSET@[j],
                forall|j: int| k <= j < MEMORY_SIZE ==> memory@[j] == 0,
            decreases 80 - k,
        {
            memory[k] = FONTSET[k];
            k += 1;
        }
        assert(memory@.subrange(0, 80) =~= FONTSET@);
        CPU {
            opcode: 0,
            registers: [0u8; 16],
            i: PROGRAM_START,
            sound_timer: 0,
            delay_timer: 0,
            stack: [0u16; 16],
            sp: 0,
            memory,
            pc: PROGRAM_START,
            gfx: [0u8; 2048],
            draw_flag: false,
            keyboard: [false; 16],
        }
    }

    /// Copies `rom` into memory from `PROGRAM_START` on and returns its
    /// length. A program longer than `MAX_ROM_SIZE` is rejected and the
    /// machine left as it was.
    pub fn load_rom(&mut self, rom: &[u8]) -> (r: Result<usize, Fault>)
        ensures
            rom@.len() <= MAX_ROM_SIZE ==> r == Ok::<usize, Fault>(rom@.len() as usize)
                && final(self)@ == (CpuState { memory: with_rom(old(self)@.memory, rom@), ..old(self)@ }),
            rom@.len() > MAX_ROM_SIZE ==> r == Err::<usize, Fault>(
                Fault { kind: FaultKind::RomTooLarge, pc: old(self).pc, opcode: old(self).opcode },
            ) && final(self)@ == old(self)@,
    {
        if rom.len() > MAX_ROM_SIZE {
            return Err(Fault { kind: FaultKind::RomTooLarge, pc: self.pc, opcode: self.opcode });
        }
        let start = PROGRAM_START as usize;
        let mut k: usize = 0;
        while k < rom.len()
            invariant
                k <= rom@.len() <= MAX_ROM_SIZE,
                start == PROGRAM_START,
                forall|j: int| 0 <= j < MEMORY_SIZE ==> self.memory@[j] == (
                    if start <= j < start + k { rom@[j - start] } else { old(self).memory@[j] }),
                self.opcode == old(self).opcode,
                self.registers == old(self).registers,
                self.i == old(self).i,
                self.sound_timer == old(self).sound_timer,
                self.delay_timer == old(self).delay_timer,
                self.stack == old(self).stack,
                self.sp == old(self).sp,
                self.pc == old(self).pc,
                self.gfx == old(self).gfx,
                self.draw_flag == old(self).draw_flag,
                self.keyboard == old(self).keyboard,
            decreases rom@.len() - k,
        {
            self.memory[start + k] = rom[k];
            k += 1;
        }
        assert(self@.memory =~= with_rom(old(self)@.memory, rom@));
        Ok(rom.len())
    }

    /// One tick of the external 60 Hz clock: each timer above zero goes down
    /// by one.
    pub fn tick_timers(&mut self)
        ensures
            final(self)@ == ticked(old(self)@),
    {
        if self.delay_timer > 0 {
            self.delay_timer -= 1;
        }
        if self.sound_timer > 0 {
            self.sound_timer -= 1;
        }
    }

    /// Families 0x0: clear the screen, return from a subroutine.
    fn exec_system(&mut self) -> (r: Result<(), Fault>)
        ensures
            outcome(old(self)@, final(self)@, r, step_system(old(self)@)),
    {
        if self.opcode == 0x00E0 {
            self.gfx = [0u8; 2048];
            self.draw_flag = true;
            self.pc = self.pc.wrapping_add(2);
            assert(self@.gfx =~= Seq::new(old(self)@.gfx.len(), |k: int| 0u8));
            Ok(())
        } else if self.opcode == 0x00EE {
            if self.sp == 0 {
                Err(Fault { kind: FaultKind::StackUnderflow, pc: self.pc, opcode: self.opcode })
            } else if self.sp > STACK_DEPTH {
                Err(Fault { kind: FaultKind::StackOverflow, pc: self.pc, opcode: self.opcode })
            } else {
                self.sp -= 1;
                self.pc = self.stack[self.sp as usize].wrapping_add(2);
                Ok(())
            }
        } else {
            Err(Fault { kind: FaultKind::UnknownInstruction, pc: self.pc, opcode: self.opcode })
        }
    }

    /// Family 0x8: operations between two registers.
    fn exec_alu(&mut self) -> (r: Result<(), Fault>)
        ensures
            outcome(old(self)@, final(self)@, r, step_alu(old(self)@)),
    {
        let x = field_x(self.opcode);
        let op = self.opcode % 0x10;
        let vx = self.registers[x];
        let vy = self.registers[field_y(self.opcode)];
        let (value, flag): (u8, Option<u8>) = if op == 0x0 {
            (vy, None)
        } else if op == 0x1 {
            (vx | vy, None)
        } else if op == 0x2 {
            (vx & vy, None)
        } else if op == 0x3 {
            (vx ^ vy, None)
        } else if op == 0x4 {
            let sum = vx as u16 + vy as u16;
            ((sum % 0x100) as u8, Some(if sum > 0xFF { 1u8 } else { 0u8 }))
        } else if op == 0x5 {
            (((vx as u16 + 0x100 - vy as u16) % 0x100) as u8, Some(if vx >= vy { 1u8 } else { 0u8 }))
        } else if op == 0x6 {
            assert(vx >> 1u8 == vx / 2 && vx & 1u8 == vx % 2) by (bit_vector);
            (vx >> 1u8, Some(vx & 1u8))
        } else if op == 0x7 {
            (((vy as u16 + 0x100 - vx as u16) % 0x100) as u8, Some(if vy >= vx { 1u8 } else { 0u8 }))
        } else if op == 0xE {
            assert(vx << 1u8 == ((vx * 2) % 0x100) as u8 && vx >> 7u8 == vx / 0x80) by (bit_vector);
            (vx << 1u8, Some(vx >> 7u8))
        } else {
            return Err(Fault { kind: FaultKind::UnknownInstruction, pc: self.pc, opcode: self.opcode });
        };
        assert(value == alu_value(op as int, vx, vy));
        self.registers[x] = value;
        match flag {
            Some(f) => {
                assert(f == alu_flag(op as int, vx, vy));
                self.registers[FLAG] = f;
            },
            None => {},
        }
        self.pc = self.pc.wrapping_add(2);
        Ok(())
    }

    /// Family 0xD: XOR the `n`-byte sprite at address `i` onto the display
    /// at the position held in registers `x` and `y`, wrapping around both
    /// edges, and set the flag register when a lit pixel is turned off.
    fn exec_draw(&mut self) -> (r: Result<(), Fault>)
        ensures
            outcome(old(self)@, final(self)@, r, step_draw(old(self)@)),
    {
        let n = (self.opcode % 0x10) as usize;
        let ox = self.registers[field_x(self.opcode)];
        let oy = self.registers[field_y(self.opcode)];
        let base = self.i as usize;
        if base + n > MEMORY_SIZE {
            return Err(Fault { kind: FaultKind::OutOfBounds, pc: self.pc, opcode: self.opcode });
        }
        let ghost sprite = self@.memory.subrange(base as int, base + n);
        let ghost g0 = self@.gfx;
        let mut collided = false;
        let mut k: usize = 0;
        while k < DISPLAY_SIZE
            invariant
                k <= DISPLAY_SIZE,
                n < 16,
                base + n <= MEMORY_SIZE,
                self.memory == old(self).memory,
                sprite == self@.memory.subrange(base as int, base + n),
                g0 == old(self)@.gfx,
                forall|j: int| 0 <= j < k ==> self.gfx@[j] == (
                    if covers(sprite, ox, oy, j) { g0[j] ^ 1u8 } else { g0[j] }),
                forall|j: int| k <= j < DISPLAY_SIZE ==> self.gfx@[j] == g0[j],
                collided == exists|j: int| 0 <= j < k && #[trigger] covers(sprite, ox, oy, j) && g0[j] == 1u8,
                self.opcode == old(self).opcode,
                self.registers == old(self).registers,
                self.i == old(self).i,
                self.sound_timer == old(self).sound_timer,
                self.delay_timer == old(self).delay_timer,
                self.stack == old(self).stack,
                self.sp == old(self).sp,
                self.pc == old(self).pc,
                self.draw_flag == old(self).draw_flag,
                self.keyboard == old(self).keyboard,
            decreases DISPLAY_SIZE - k,
        {
            let r = (k / DISPLAY_WIDTH + 32 - oy as usize % 32) % 32;
            let c = (k % DISPLAY_WIDTH + 64 - ox as usize % 64) % 64;
            assert(r == row_offset(k as int, oy) && c == col_offset(k as int, ox));
            let mut hit = false;
            if r < n && c < 8 {
                let row = self.memory[base + r];
                assert(row == sprite[r as int]);
                hit = (row >> (7 - c as u8)) & 1u8 == 1u8;
            }
            assert(hit == covers(sprite, ox, oy, k as int));
            let ghost before = collided;
            if hit {
                if self.gfx[k] == 1 {
                    collided = true;
                }
                self.gfx[k] = self.gfx[k] ^ 1u8;
            }
            assert(collided == exists|j: int| 0 <= j < k + 1 && #[trigger] covers(sprite, ox, oy, j) && g0[j] == 1u8) by {
                if hit && g0[k as int] == 1u8 {
                    assert(covers(sprite, ox, oy, k as int));
                } else if before {
                    let j0 = choose|j: int| 0 <= j < k && #[trigger] covers(sprite, ox, oy, j) && g0[j] == 1u8;
                    assert(0 <= j0 < k + 1 && covers(sprite, ox, oy, j0) && g0[j0] == 1u8);
                } else {
                    assert forall|j: int| 0 <= j < k + 1 && #[trigger] covers(sprite, ox, oy, j) implies g0[j] != 1u8 by {}
                }
            }
            k += 1;
        }
        self.registers[FLAG] = if collided { 1u8 } else { 0u8 };
        self.draw_flag = true;
        self.pc = self.pc.wrapping_add(2);
        assert(self@.gfx =~= drawn(g0, sprite, ox, oy));
        Ok(())
    }

    /// Family 0xE: skip the next instruction on the state of the key that
    /// register `x` names.
    fn exec_keys(&mut self) -> (r: Result<(), Fault>)
        ensures
            outcome(old(self)@, final(self)@, r, step_keys(old(self)@)),
    {
        let nn = self.opcode % 0x100;
        let key = self.registers[field_x(self.opcode)];
        if nn != 0x9E && nn != 0xA1 {
            Err(Fault { kind: FaultKind::UnknownInstruction, pc: self.pc, opcode: self.opcode })
        } else if key >= 16 {
            Err(Fault { kind: FaultKind::OutOfBounds, pc: self.pc, opcode: self.opcode })
        } else {
            let pressed = self.keyboard[key as usize];
            let skip = if nn == 0x9E { pressed } else { !pressed };
            self.pc = self.pc.wrapping_add(if skip { 4 } else { 2 });
            Ok(())
        }
    }

    /// Family 0xF: timers, waiting for a key, the address register and
    /// transfers between registers and memory.
    fn exec_misc(&mut self) -> (r: Result<(), Fault>)
        ensures
            outcome(old(self)@, final(self)@, r, step_misc(old(self)@)),
    {
        let x = field_x(self.opcode);
        let vx = self.registers[x];
        let nn = self.opcode % 0x100;
        if nn == 0x07 {
            self.registers[x] = self.delay_timer;
        } else if nn == 0x0A {
            let mut k: usize = 0;
            while k < 16 && !self.keyboard[k]
                invariant
                    k <= 16,
                    forall|j: int| 0 <= j < k ==> !self.keyboard@[j],
                decreases 16 - k,
            {
                k += 1;
            }
            if k == 16 {
                // No key is down: stay on this instruction until one is.
                assert(!any_pressed(self@.keyboard));
                return Ok(());
            }
            proof {
                let kb = self@.keyboard;
                assert(is_first_pressed(kb, k as int));
                assert(any_pressed(kb));
                let f = first_pressed(kb);
                assert(is_first_pressed(kb, f));
                assert(f == k) by {
                    if f < k {
                        assert(!kb[f]);
                    } else if f > k {
                        assert(!kb[k as int]);
                    }
                }
            }
            self.registers[x] = k as u8;
        } else if nn == 0x15 {
            self.delay_timer = vx;
        } else if nn == 0x18 {
            self.sound_timer = vx;
        } else if nn == 0x1E {
            self.i = self.i.wrapping_add(vx as u16);
        } else if nn == 0x29 {
            self.i = vx as u16 * GLYPH_SIZE;
        } else if nn == 0x33 {
            let base = self.i as usize;
            if base + 2 >= MEMORY_SIZE {
                return Err(Fault { kind: FaultKind::OutOfBounds, pc: self.pc, opcode: self.opcode });
            }
            self.memory[base] = vx / 100;
            self.memory[base + 1] = (vx / 10) % 10;
            self.memory[base + 2] = vx % 10;
        } else if nn == 0x55 || nn == 0x65 {
            let base = self.i as usize;
            if base + x >= MEMORY_SIZE {
                return Err(Fault { kind: FaultKind::OutOfBounds, pc: self.pc, opcode: self.opcode });
            }
            let mut k: usize = 0;
            while k <= x
                invariant
                    x < 16,
                    base + x < MEMORY_SIZE,
                    k <= x + 1,
                    base == old(self).i,
                    nn == 0x55 || nn == 0x65,
                    nn == 0x55 ==> self.registers == old(self).registers,
                    nn == 0x55 ==> forall|j: int| 0 <= j < MEMORY_SIZE ==> self.memory@[j] == (
                        if base <= j < base + k { old(self).registers@[j - base] } else { old(self).memory@[j] }),
                    nn == 0x65 ==> self.memory == old(self).memory,
                    nn == 0x65 ==> forall|j: int| 0 <= j < 16 ==> self.registers@[j] == (
                        if j < k { old(self).memory@[base + j] } else { old(self).registers@[j] }),
                    self.opcode == old(self).opcode,
                    self.i == old(self).i,
                    self.sound_timer == old(self).sound_timer,
                    self.delay_timer == old(self).delay_timer,
                    self.stack == old(self).stack,
                    self.sp == old(self).sp,
                    self.pc == old(self).pc,
                    self.gfx == old(self).gfx,
                    self.draw_flag == old(self).draw_flag,
                    self.keyboard == old(self).keyboard,
                decreases x + 1 - k,
            {
                if nn == 0x55 {
                    self.memory[base + k] = self.registers[k];
                } else {
                    self.registers[k] = self.memory[base + k];
                }
                k += 1;
            }
            self.i = (base + x + 1) as u16;
            assert(nn == 0x55 ==> self@.memory =~= Seq::new(old(self)@.memory.len(), |j: int|
                if old(self).i <= j <= old(self).i + x { old(self)@.registers[j - old(self).i] } else { old(self)@.memory[j] }));
            assert(nn == 0x65 ==> self@.registers =~= Seq::new(old(self)@.registers.len(), |j: int|
                if j <= x { old(self)@.memory[old(self).i + j] } else { old(self)@.registers[j] }));
        } else {
            return Err(Fault { kind: FaultKind::UnknownInstruction, pc: self.pc, opcode: self.opcode });
        }
        self.pc = self.pc.wrapping_add(2);
        Ok(())
    }

    /// Executes the instruction word in `opcode`. `random` is the byte that
    /// the random-number instruction masks; no other instruction reads it.
    #[verifier::rlimit(50)]
    #[verifier::spinoff_prover]
    pub fn execute(&mut self, random: u8) -> (r: Result<(), Fault>)
        ensures
            outcome(old(self)@, final(self)@, r, step(old(self)@, random)),
    {
        let w = self.opcode;
        let family = w / 0x1000;
        let x = field_x(w);
        let vx = self.registers[x];
        let vy = self.registers[field_y(w)];
        let nn = (w % 0x100) as u8;
        let nnn = w % 0x1000;
        if family == 0x0 {
            return self.exec_system();
        } else if family == 0x1 {
            self.pc = nnn;
            return Ok(());
        } else if family == 0x2 {
            if self.sp >= STACK_DEPTH {
                return Err(Fault { kind: FaultKind::StackOverflow, pc: self.pc, opcode: w });
            }
            self.stack[self.sp as usize] = self.pc;
            self.sp += 1;
            self.pc = nnn;
            return Ok(());
        } else if family == 0x3 {
            self.pc = self.pc.wrapping_add(if vx == nn { 4 } else { 2 });
            return Ok(());
        } else if family == 0x4 {
            self.pc = self.pc.wrapping_add(if vx != nn { 4 } else { 2 });
            return Ok(());
        } else if family == 0x5 || family == 0x9 {
            if w % 0x10 != 0 {
                return Err(Fault { kind: FaultKind::UnknownInstruction, pc: self.pc, opcode: w });
            }
            let skip = if family == 0x5 { vx == vy } else { vx != vy };
            self.pc = self.pc.wrapping_add(if skip { 4 } else { 2 });
            return Ok(());
        } else if family == 0x6 {
            self.registers[x] = nn;
        } else if family == 0x7 {
            self.registers[x] = ((vx as u16 + nn as u16) % 0x100) as u8;
        } else if family == 0x8 {
            return self.exec_alu();
        } else if family == 0xA {
            self.i = nnn;
        } else if family == 0xB {
            self.pc = (self.registers[0] as u16 + nnn).wrapping_add(2);
            return Ok(());
        } else if family == 0xC {
            self.registers[x] = random & nn;
        } else if family == 0xD {
            return self.exec_draw();
        } else if family == 0xE {
            return self.exec_keys();
        } else {
            return self.exec_misc();
        }
        self.pc = self.pc.wrapping_add(2);
        Ok(())
    }

    /// Executes the instruction word in `opcode`, drawing a random byte for
    /// the random-number instruction.
    pub fn decode(&mut self) -> (r: Result<(), Fault>)
        ensures
            exists|random: u8| #[trigger] outcome(old(self)@, final(self)@, r, step(old(self)@, random)),
    {
        let random = random_byte();
        self.execute(random)
    }

    /// Loads the instruction word at the program counter into `opcode`.
    /// Both of its bytes must lie in memory.
    fn fetch(&mut self) -> (r: Result<(), Fault>)
        ensures
            old(self).pc + 1 >= MEMORY_SIZE ==> r == Err::<(), Fault>(
                Fault { kind: FaultKind::OutOfBounds, pc: old(self).pc, opcode: old(self).opcode },
            ) && final(self)@ == old(self)@,
            old(self).pc + 1 < MEMORY_SIZE ==> r is Ok && final(self)@ == fetched(old(self)@),
    {
        let pc = self.pc as usize;
        if pc + 1 >= MEMORY_SIZE {
            return Err(Fault { kind: FaultKind::OutOfBounds, pc: self.pc, opcode: self.opcode });
        }
        self.opcode = self.memory[pc] as u16 * 0x100 + self.memory[pc + 1] as u16;
        Ok(())
    }

    /// One machine cycle: fetch the instruction word at the program counter,
    /// then execute it. A fetch that would read past the end of memory is
    /// reported and changes nothing.
    pub fn cycle(&mut self) -> (r: Result<(), Fault>)
        ensures
            old(self).pc + 1 >= MEMORY_SIZE ==> r == Err::<(), Fault>(
                Fault { kind: FaultKind::OutOfBounds, pc: old(self).pc, opcode: old(self).opcode },
            ) && final(self)@ == old(self)@,
            old(self).pc + 1 < MEMORY_SIZE ==> exists|random: u8| #[trigger] outcome(
                fetched(old(self)@), final(self)@, r, step(fetched(old(self)@), random)),
    {
        match self.fetch() {
            Err(e) => Err(e),
            Ok(()) => self.decode(),
        }
    }
}

} // verus!
