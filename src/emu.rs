use rand::Rng;
use vstd::prelude::*;

use crate::decode::{decode, operands_in_range, Instr};
use crate::error::EmuError;
use crate::machine::{
    drawn_screen, fetchable, initial_machine, initial_ram, lemma_first_pressed_is,
    lemma_none_pressed, loaded, opcode_at, run,
    sprite_bit, sprite_col, sprite_hits, sprite_in_memory, sprite_row, step, timers_ticked, wf,
    with_pc, Machine, DISPLAY_SIZE, FONTSET, FONTSET_SIZE, NUM_KEYS, NUM_REGS, RAM_SIZE,
    SCREEN_HEIGHT, SCREEN_WIDTH, STACK_SIZE, START_ADDR,
};
use vstd::arithmetic::div_mod::{lemma_fundamental_div_mod, lemma_fundamental_div_mod_converse};

verus! {

/// A CHIP-8 machine: memory, registers, stack, keypad, display and timers.
pub struct Emu {
    pc: u16,
    ram: [u8; RAM_SIZE],
    /// One flag per pixel, row-major, `SCREEN_WIDTH` cells per row.
    screen: [bool; DISPLAY_SIZE],
    v_reg: [u8; NUM_REGS],
    /// Memory pointer used by draws, stores and loads.
    i_reg: u16,
    /// Index of the next free stack slot.
    sp: u16,
    stack: [u16; STACK_SIZE],
    /// Which keys 0 to F are held down.
    keys: [bool; NUM_KEYS],
    dt: u8,
    st: u8,
}

/// The machine state; each field of `Machine` mirrors the field of the same
/// role here, with each array seen as a sequence.
impl View for Emu {
    type V = Machine;

    closed spec fn view(&self) -> Machine {
        Machine {
            pc: self.pc,
            ram: self.ram@,
            screen: self.screen@,
            v: self.v_reg@,
            i: self.i_reg,
            sp: self.sp,
            stack: self.stack@,
            keys: self.keys@,
            dt: self.dt,
            st: self.st,
        }
    }
}

impl Emu {
    /// The machine's state tables have their sizes and the stack pointer
    /// lies within the stack.
    pub open spec fn inv(&self) -> bool {
        wf(self@)
    }

    /// A machine with the font in memory, the program counter at
    /// `START_ADDR` and everything else zero.
    pub fn new() -> (r: Self)
        ensures
            r.inv(),
            r@ == initial_machine(),
    {
        let mut e = Emu {
            pc: START_ADDR,
            ram: [0u8; RAM_SIZE],
            screen: [false; DISPLAY_SIZE],
            v_reg: [0u8; NUM_REGS],
            i_reg: 0,
            sp: 0,
            stack: [0u16; STACK_SIZE],
            keys: [false; NUM_KEYS],
            dt: 0,
            st: 0,
        };
        e.write_font();
        proof {
            assert(e.ram@ =~= initial_ram());
            assert(e@.screen =~= initial_machine().screen);
            assert(e@.v =~= initial_machine().v);
            assert(e@.stack =~= initial_machine().stack);
            assert(e@.keys =~= initial_machine().keys);
        }
        e
    }

    /// Copies the font into memory `[0, FONTSET_SIZE)`.
    fn write_font(&mut self)
        requires
            forall|a: int| 0 <= a < RAM_SIZE ==> old(self).ram@[a] == 0,
        ensures
            final(self).ram@ =~= initial_ram(),
            final(self)@ == (Machine { ram: final(self).ram@, ..old(self)@ }),
    {
        let mut k: usize = 0;
        while k < FONTSET_SIZE
            invariant
                k <= FONTSET_SIZE,
                forall|a: int| 0 <= a < k ==> self.ram@[a] == FONTSET@[a],
                forall|a: int| k <= a < RAM_SIZE ==> self.ram@[a] == 0,
                self@ == (Machine { ram: self.ram@, ..old(self)@ }),
            decreases FONTSET_SIZE - k,
        {
            self.ram[k] = FONTSET[k];
            k = k + 1;
        }
    }

    /// Restores the state that `new` gives, in place.
    pub fn reset(&mut self)
        ensures
            final(self).inv(),
            final(self)@ == initial_machine(),
    {
        self.pc = START_ADDR;
        self.ram = [0u8; RAM_SIZE];
        self.screen = [false; DISPLAY_SIZE];
        self.v_reg = [0u8; NUM_REGS];
        self.i_reg = 0;
        self.sp = 0;
        self.stack = [0u16; STACK_SIZE];
        self.keys = [false; NUM_KEYS];
        self.dt = 0;
        self.st = 0;
        self.write_font();
        proof {
            assert(self@.screen =~= initial_machine().screen);
            assert(self@.v =~= initial_machine().v);
            assert(self@.stack =~= initial_machine().stack);
            assert(self@.keys =~= initial_machine().keys);
        }
    }

    /// The display, row-major, `SCREEN_WIDTH` cells per row: true is a lit
    /// pixel.
    pub fn get_display(&self) -> (r: &[bool])
        ensures
            r@ == self@.screen,
    {
        self.screen.as_slice()
    }

    /// Records whether key `idx` is held down.
    pub fn keypress(&mut self, idx: usize, pressed: bool)
        requires
            old(self).inv(),
            idx < NUM_KEYS,
        ensures
            final(self).inv(),
            final(self)@ == (Machine { keys: old(self)@.keys.update(idx as int, pressed), ..old(self)@ }),
    {
        self.keys[idx] = pressed;
    }

    /// Copies a program into memory from `START_ADDR` on, or refuses one
    /// that would run past the end of memory and changes nothing.
    pub fn load(&mut self, data: &[u8]) -> (r: Result<(), EmuError>)
        requires
            old(self).inv(),
        ensures
            final(self).inv(),
            START_ADDR + data@.len() > RAM_SIZE ==> r == Err::<(), EmuError>(EmuError::CapacityExceeded)
                && final(self)@ == old(self)@,
            START_ADDR + data@.len() <= RAM_SIZE ==> r == Ok::<(), EmuError>(())
                && final(self)@ == loaded(old(self)@, data@),
    {
        let start = START_ADDR as usize;
        if data.len() > RAM_SIZE - start {
            return Err(EmuError::CapacityExceeded);
        }
        let mut k: usize = 0;
        while k < data.len()
            invariant
                k <= data@.len(),
                start == START_ADDR,
                start + data@.len() <= RAM_SIZE,
                forall|a: int|
                    0 <= a < RAM_SIZE ==> self.ram@[a] == (if start <= a < start + k {
                        data@[a - start]
                    } else {
                        old(self).ram@[a]
                    }),
                self@ == (Machine { ram: self.ram@, ..old(self)@ }),
            decreases data@.len() - k,
        {
            self.ram[start + k] = data[k];
            k = k + 1;
        }
        assert(self.ram@ =~= loaded(old(self)@, data@).ram);
        Ok(())
    }

    /// Counts both timers down once, neither below zero. When the sound
    /// timer goes from 1 to 0 here, the host may sound a beep.
    pub fn tick_timers(&mut self)
        requires
            old(self).inv(),
        ensures
            final(self).inv(),
            final(self)@ == timers_ticked(old(self)@),
    {
        if self.dt > 0 {
            self.dt = self.dt - 1;
        }
        if self.st > 0 {
            self.st = self.st - 1;
        }
    }

    /// Reads the big-endian opcode at the program counter and advances the
    /// counter past it; an opcode that runs past memory is a fault.
    fn fetch(&mut self) -> (r: Result<u16, EmuError>)
        requires
            old(self).inv(),
        ensures
            final(self).inv(),
            !fetchable(old(self)@.pc) ==> r == Err::<u16, EmuError>(EmuError::MemoryFault)
                && final(self)@ == old(self)@,
            fetchable(old(self)@.pc) ==> r == Ok::<u16, EmuError>(opcode_at(old(self)@.ram, old(self)@.pc))
                && final(self)@ == with_pc(old(self)@, (old(self)@.pc + 2) as u16),
    {
        if self.pc as usize + 1 >= RAM_SIZE {
            return Err(EmuError::MemoryFault);
        }
        let hi = self.ram[self.pc as usize] as u16;
        let lo = self.ram[self.pc as usize + 1] as u16;
        self.pc = self.pc + 2;
        Ok(hi * 256 + lo)
    }

    /// Pushes a return address, or fails with every stack slot in use.
    fn push(&mut self, val: u16) -> (r: Result<(), EmuError>)
        requires
            old(self).inv(),
        ensures
            final(self).inv(),
            old(self).sp >= STACK_SIZE ==> r == Err::<(), EmuError>(EmuError::StackOverflow)
                && final(self)@ == old(self)@,
            old(self).sp < STACK_SIZE ==> r == Ok::<(), EmuError>(()) && final(self)@ == (Machine {
                stack: old(self)@.stack.update(old(self).sp as int, val),
                sp: (old(self).sp + 1) as u16,
                ..old(self)@
            }),
    {
        if self.sp as usize >= STACK_SIZE {
            return Err(EmuError::StackOverflow);
        }
        self.stack[self.sp as usize] = val;
        self.sp = self.sp + 1;
        Ok(())
    }

    /// Pops the latest return address, or fails on an empty stack.
    fn pop(&mut self) -> (r: Result<u16, EmuError>)
        requires
            old(self).inv(),
        ensures
            final(self).inv(),
            old(self).sp == 0 ==> r == Err::<u16, EmuError>(EmuError::StackUnderflow)
                && final(self)@ == old(self)@,
            old(self).sp > 0 ==> r == Ok::<u16, EmuError>(old(self)@.stack[old(self).sp - 1])
                && final(self)@ == (Machine { sp: (old(self).sp - 1) as u16, ..old(self)@ }),
    {
        if self.sp == 0 {
            return Err(EmuError::StackUnderflow);
        }
        self.sp = self.sp - 1;
        Ok(self.stack[self.sp as usize])
    }

    /// Skips the next instruction when `c` holds.
    fn skip_if(&mut self, c: bool)
        ensures
            final(self)@ == crate::machine::skip_if(old(self)@, c),
    {
        if c {
            self.pc = self.pc.wrapping_add(2);
        }
    }

    /// Puts the lowest pressed key into `VX`, or steps the program counter
    /// back so that the same instruction runs again on the next tick.
    fn wait_key(&mut self, x: u8)
        requires
            old(self).inv(),
            x < NUM_REGS,
        ensures
            final(self).inv(),
            (final(self)@, Ok::<(), EmuError>(())) == run(old(self)@, Instr::WaitKey { x }, 0),
    {
        let mut k: usize = 0;
        while k < NUM_KEYS
            invariant
                k <= NUM_KEYS,
                x < NUM_REGS,
                self.inv(),
                self@ == old(self)@,
                forall|j: int| 0 <= j < k ==> !self.keys@[j],
            decreases NUM_KEYS - k,
        {
            if self.keys[k] {
                proof {
                    lemma_first_pressed_is(self.keys@, 0, k as int);
                }
                self.v_reg[x as usize] = k as u8;
                return;
            }
            k = k + 1;
        }
        proof {
            lemma_none_pressed(self.keys@, 0);
        }
        self.pc = self.pc.wrapping_sub(2);
    }

    /// Writes the decimal digits of `VX` to memory at the index register.
    fn store_bcd(&mut self, x: u8) -> (r: Result<(), EmuError>)
        requires
            old(self).inv(),
            x < NUM_REGS,
        ensures
            final(self).inv(),
            (final(self)@, r) == run(old(self)@, Instr::Bcd { x }, 0),
    {
        let i = self.i_reg as usize;
        if i + 3 > RAM_SIZE {
            return Err(EmuError::MemoryFault);
        }
        let a = self.v_reg[x as usize];
        self.ram[i] = a / 100;
        self.ram[i + 1] = (a / 10) % 10;
        self.ram[i + 2] = a % 10;
        Ok(())
    }

    /// Copies `V0..=VX` to memory at the index register.
    fn store_regs(&mut self, x: u8) -> (r: Result<(), EmuError>)
        requires
            old(self).inv(),
            x < NUM_REGS,
        ensures
            final(self).inv(),
            (final(self)@, r) == run(old(self)@, Instr::Store { x }, 0),
    {
        let i = self.i_reg as usize;
        if i + x as usize >= RAM_SIZE {
            return Err(EmuError::MemoryFault);
        }
        let mut k: usize = 0;
        while k <= x as usize
            invariant
                k <= x + 1,
                i == self.i_reg,
                i + x < RAM_SIZE,
                x < NUM_REGS,
                forall|a: int|
                    0 <= a < RAM_SIZE ==> self.ram@[a] == (if i <= a < i + k {
                        old(self).v_reg@[a - i]
                    } else {
                        old(self).ram@[a]
                    }),
                self@ == (Machine { ram: self.ram@, ..old(self)@ }),
            decreases x + 1 - k,
        {
            self.ram[i + k] = self.v_reg[k];
            k = k + 1;
        }
        assert(self.ram@ =~= run(old(self)@, Instr::Store { x }, 0).0.ram);
        Ok(())
    }

    /// Fills `V0..=VX` from memory at the index register.
    fn load_regs(&mut self, x: u8) -> (r: Result<(), EmuError>)
        requires
            old(self).inv(),
            x < NUM_REGS,
        ensures
            final(self).inv(),
            (final(self)@, r) == run(old(self)@, Instr::Load { x }, 0),
    {
        let i = self.i_reg as usize;
        if i + x as usize >= RAM_SIZE {
            return Err(EmuError::MemoryFault);
        }
        let mut k: usize = 0;
        while k <= x as usize
            invariant
                k <= x + 1,
                i == self.i_reg,
                i + x < RAM_SIZE,
                x < NUM_REGS,
                forall|j: int|
                    0 <= j < NUM_REGS ==> self.v_reg@[j] == (if j < k {
                        old(self).ram@[i + j]
                    } else {
                        old(self).v_reg@[j]
                    }),
                self@ == (Machine { v: self.v_reg@, ..old(self)@ }),
            decreases x + 1 - k,
        {
            self.v_reg[k] = self.ram[i + k];
            k = k + 1;
        }
        assert(self.v_reg@ =~= run(old(self)@, Instr::Load { x }, 0).0.v);
        Ok(())
    }

    /// Draws `n` sprite rows read from memory at the index register at
    /// `(VX, VY)`, toggling each cell under a set bit with wraparound, and
    /// sets `VF` to whether a lit cell was turned off.
    fn draw_sprite(&mut self, x: u8, y: u8, n: u8) -> (r: Result<(), EmuError>)
        requires
            old(self).inv(),
            x < NUM_REGS,
            y < NUM_REGS,
            n < 16,
        ensures
            final(self).inv(),
            (final(self)@, r) == run(old(self)@, Instr::Draw { x, y, n }, 0),
    {
        let vx = self.v_reg[x as usize];
        let vy = self.v_reg[y as usize];
        let i = self.i_reg as usize;
        if n > 0 && i + n as usize > RAM_SIZE {
            return Err(EmuError::MemoryFault);
        }
        let ghost ram = self.ram@;
        let ghost before = self.screen@;
        let ghost at = self.i_reg;
        let mut flipped = false;
        let mut row: u8 = 0;
        while row < n
            invariant
                row <= n < 16,
                x < NUM_REGS,
                y < NUM_REGS,
                i == at,
                at == old(self).i_reg,
                sprite_in_memory(at, n),
                vx == old(self)@.v[x as int],
                vy == old(self)@.v[y as int],
                ram == old(self)@.ram,
                before == old(self)@.screen,
                self.inv(),
                self@ == (Machine { screen: self.screen@, ..old(self)@ }),
                forall|idx: int|
                    #![trigger self.screen@[idx]]
                    0 <= idx < DISPLAY_SIZE ==> self.screen@[idx] == (before[idx] != toggled(
                        ram, at, vx, vy, n, idx, row as int, 0)),
                flipped == exists|idx: int|
                    0 <= idx < DISPLAY_SIZE && #[trigger] toggled(ram, at, vx, vy, n, idx, row as int, 0)
                        && before[idx],
            decreases n - row,
        {
            let pixels = self.ram[i + row as usize];
            let mut col: u8 = 0;
            while col < 8
                invariant
                    row < n < 16,
                    col <= 8,
                    x < NUM_REGS,
                    y < NUM_REGS,
                    i == at,
                    at == old(self).i_reg,
                    i + row < RAM_SIZE,
                    pixels == ram[i + row],
                    vx == old(self)@.v[x as int],
                    vy == old(self)@.v[y as int],
                    ram == old(self)@.ram,
                    before == old(self)@.screen,
                    self.inv(),
                    self@ == (Machine { screen: self.screen@, ..old(self)@ }),
                    forall|idx: int|
                        #![trigger self.screen@[idx]]
                        0 <= idx < DISPLAY_SIZE ==> self.screen@[idx] == (before[idx] != toggled(
                            ram, at, vx, vy, n, idx, row as int, col as int)),
                    flipped == exists|idx: int|
                        0 <= idx < DISPLAY_SIZE && #[trigger] toggled(
                            ram, at, vx, vy, n, idx, row as int, col as int) && before[idx],
                decreases 8 - col,
            {
                let px = (vx as usize + col as usize) % SCREEN_WIDTH;
                let py = (vy as usize + row as usize) % SCREEN_HEIGHT;
                let d = px + SCREEN_WIDTH * py;
                let ghost flipped_before = flipped;
                let ghost scr = self.screen@;
                let set = pixels & (0x80u8 >> col) != 0;
                if set {
                    flipped = flipped || self.screen[d];
                    self.screen[d] = !self.screen[d];
                }
                proof {
                    // Only cell `d` joins the toggled cells, and only when its bit is set.
                    lemma_sprite_cell(vx, vy, col as int, row as int);
                    assert(sprite_hits(ram, at, vx, vy, n, d as int) == set);
                    assert forall|idx: int| 0 <= idx < DISPLAY_SIZE implies #[trigger] toggled(
                        ram, at, vx, vy, n, idx, row as int, col + 1) == (toggled(
                        ram, at, vx, vy, n, idx, row as int, col as int) || (idx == d && set)) by {
                        if sprite_row(idx, vy) == row && sprite_col(idx, vx) == col {
                            assert(idx == d);
                        }
                    }
                    assert(!toggled(ram, at, vx, vy, n, d as int, row as int, col as int));
                    assert forall|idx: int| 0 <= idx < DISPLAY_SIZE implies self.screen@[idx] == (
                    before[idx] != toggled(ram, at, vx, vy, n, idx, row as int, col + 1)) by {
                        if idx != d {
                            assert(self.screen@[idx] == scr[idx]);
                        }
                    }
                    if flipped && flipped_before {
                        let w = choose|idx: int|
                            0 <= idx < DISPLAY_SIZE && #[trigger] toggled(
                                ram, at, vx, vy, n, idx, row as int, col as int) && before[idx];
                        assert(toggled(ram, at, vx, vy, n, w, row as int, col + 1));
                    } else if flipped {
                        assert(toggled(ram, at, vx, vy, n, d as int, row as int, col + 1));
                    }
                }
                col = col + 1;
            }
            proof {
                assert forall|idx: int|
                    #![trigger toggled(ram, at, vx, vy, n, idx, row as int, 8)]
                    #![trigger toggled(ram, at, vx, vy, n, idx, row + 1, 0)]
                    0 <= idx < DISPLAY_SIZE implies toggled(ram, at, vx, vy, n, idx, row as int, 8)
                        == toggled(ram, at, vx, vy, n, idx, row + 1, 0) by {}
            }
            row = row + 1;
        }
        proof {
            assert forall|idx: int|
                #![trigger toggled(ram, at, vx, vy, n, idx, n as int, 0)]
                #![trigger sprite_hits(ram, at, vx, vy, n, idx)]
                0 <= idx < DISPLAY_SIZE implies toggled(ram, at, vx, vy, n, idx, n as int, 0)
                    == sprite_hits(ram, at, vx, vy, n, idx) by {}
            assert(self.screen@ =~= drawn_screen(before, ram, at, vx, vy, n));
        }
        self.v_reg[15] = if flipped {
            1
        } else {
            0
        };
        Ok(())
    }

    /// Runs one decoded instruction; `rnd` is the byte that `Random` masks.
    #[verifier::spinoff_prover]
    #[verifier::rlimit(50)]
    fn execute(&mut self, ins: Instr, rnd: u8) -> (r: Result<(), EmuError>)
        requires
            old(self).inv(),
            operands_in_range(ins),
        ensures
            final(self).inv(),
            (final(self)@, r) == run(old(self)@, ins, rnd),
    {
        match ins {
            Instr::Nop => Ok(()),
            Instr::ClearScreen => {
                self.screen = [false; DISPLAY_SIZE];
                assert(self.screen@ =~= run(old(self)@, ins, rnd).0.screen);
                Ok(())
            },
            Instr::Return => {
                let popped = self.pop();
                match popped {
                    Ok(addr) => {
                        self.pc = addr;
                        Ok(())
                    },
                    Err(e) => Err(e),
                }
            },
            Instr::Jump { addr } => {
                self.pc = addr;
                Ok(())
            },
            Instr::Call { addr } => {
                let ret = self.pc;
                let pushed = self.push(ret);
                match pushed {
                    Ok(()) => {
                        self.pc = addr;
                        Ok(())
                    },
                    Err(e) => Err(e),
                }
            },
            Instr::SkipEqImm { x, nn } => {
                let c = self.v_reg[x as usize] == nn;
                self.skip_if(c);
                Ok(())
            },
            Instr::SkipNeImm { x, nn } => {
                let c = self.v_reg[x as usize] != nn;
                self.skip_if(c);
                Ok(())
            },
            Instr::SkipEqReg { x, y } => {
                let c = self.v_reg[x as usize] == self.v_reg[y as usize];
                self.skip_if(c);
                Ok(())
            },
            Instr::SetImm { x, nn } => {
                self.v_reg[x as usize] = nn;
                Ok(())
            },
            Instr::AddImm { x, nn } => {
                self.v_reg[x as usize] = self.v_reg[x as usize].wrapping_add(nn);
                Ok(())
            },
            Instr::Move { x, y } => {
                self.v_reg[x as usize] = self.v_reg[y as usize];
                Ok(())
            },
            Instr::Or { x, y } => {
                self.v_reg[x as usize] = self.v_reg[x as usize] | self.v_reg[y as usize];
                Ok(())
            },
            Instr::And { x, y } => {
                self.v_reg[x as usize] = self.v_reg[x as usize] & self.v_reg[y as usize];
                Ok(())
            },
            Instr::Xor { x, y } => {
                self.v_reg[x as usize] = self.v_reg[x as usize] ^ self.v_reg[y as usize];
                Ok(())
            },
            Instr::AddReg { x, y } => {
                let a = self.v_reg[x as usize];
                let b = self.v_reg[y as usize];
                self.v_reg[x as usize] = a.wrapping_add(b);
                self.v_reg[15] = if a as u16 + b as u16 > 255 {
                    1
                } else {
                    0
                };
                Ok(())
            },
            Instr::SubReg { x, y } => {
                let a = self.v_reg[x as usize];
                let b = self.v_reg[y as usize];
                self.v_reg[x as usize] = a.wrapping_sub(b);
                self.v_reg[15] = if b > a {
                    0
                } else {
                    1
                };
                Ok(())
            },
            Instr::ShiftRight { x } => {
                let a = self.v_reg[x as usize];
                self.v_reg[15] = a % 2;
                self.v_reg[x as usize] = a / 2;
                Ok(())
            },
            Instr::SubRev { x, y } => {
                let a = self.v_reg[x as usize];
                let b = self.v_reg[y as usize];
                self.v_reg[x as usize] = b.wrapping_sub(a);
                self.v_reg[15] = if a > b {
                    0
                } else {
                    1
                };
                Ok(())
            },
            Instr::ShiftLeft { x } => {
                let a = self.v_reg[x as usize];
                self.v_reg[15] = a / 128;
                self.v_reg[x as usize] = a.wrapping_mul(2);
                Ok(())
            },
            Instr::SkipNeReg { x, y } => {
                let c = self.v_reg[x as usize] != self.v_reg[y as usize];
                self.skip_if(c);
                Ok(())
            },
            Instr::SetIndex { addr } => {
                self.i_reg = addr;
                Ok(())
            },
            Instr::JumpOffset { addr } => {
                self.pc = (self.v_reg[0] as u16).wrapping_add(addr);
                Ok(())
            },
            Instr::Random { x, nn } => {
                self.v_reg[x as usize] = rnd & nn;
                Ok(())
            },
            Instr::Draw { x, y, n } => self.draw_sprite(x, y, n),
            Instr::SkipKey { x } => {
                let k = self.v_reg[x as usize];
                if k as usize >= NUM_KEYS {
                    return Err(EmuError::InvalidKey { key: k });
                }
                let c = self.keys[k as usize];
                self.skip_if(c);
                Ok(())
            },
            Instr::SkipNoKey { x } => {
                let k = self.v_reg[x as usize];
                if k as usize >= NUM_KEYS {
                    return Err(EmuError::InvalidKey { key: k });
                }
                let c = !self.keys[k as usize];
                self.skip_if(c);
                Ok(())
            },
            Instr::GetDelay { x } => {
                self.v_reg[x as usize] = self.dt;
                Ok(())
            },
            Instr::WaitKey { x } => {
                self.wait_key(x);
                Ok(())
            },
            Instr::SetDelay { x } => {
                self.dt = self.v_reg[x as usize];
                Ok(())
            },
            Instr::SetSound { x } => {
                self.st = self.v_reg[x as usize];
                Ok(())
            },
            Instr::AddIndex { x } => {
                self.i_reg = self.i_reg.wrapping_add(self.v_reg[x as usize] as u16);
                Ok(())
            },
            Instr::Font { x } => {
                self.i_reg = self.v_reg[x as usize] as u16 * 5;
                Ok(())
            },
            Instr::Bcd { x } => self.store_bcd(x),
            Instr::Store { x } => self.store_regs(x),
            Instr::Load { x } => self.load_regs(x),
        }
    }

    /// Runs one machine cycle with `rnd` as the random byte: fetches the
    /// opcode at the program counter, advances past it, decodes and runs it.
    pub fn tick_with(&mut self, rnd: u8) -> (r: Result<(), EmuError>)
        requires
            old(self).inv(),
        ensures
            final(self).inv(),
            (final(self)@, r) == step(old(self)@, rnd),
    {
        let fetched = self.fetch();
        let op = match fetched {
            Ok(op) => op,
            Err(e) => return Err(e),
        };
        let decoded = decode(op);
        match decoded {
            Ok(ins) => self.execute(ins, rnd),
            Err(e) => Err(e),
        }
    }

    /// Runs one machine cycle with a fresh random byte for `Random`; the
    /// result is that of `tick_with` for some byte.
    pub fn tick(&mut self) -> (r: Result<(), EmuError>)
        requires
            old(self).inv(),
        ensures
            final(self).inv(),
            exists|rnd: u8| (final(self)@, r) == #[trigger] step(old(self)@, rnd),
    {
        let rnd = random_byte();
        self.tick_with(rnd)
    }

    /// The program counter.
    pub fn pc(&self) -> (r: u16)
        ensures
            r == self@.pc,
    {
        self.pc
    }

    /// The general register `V[idx]`.
    pub fn register(&self, idx: usize) -> (r: u8)
        requires
            idx < NUM_REGS,
        ensures
            r == self@.v[idx as int],
    {
        self.v_reg[idx]
    }

    /// The index register.
    pub fn index_register(&self) -> (r: u16)
        ensures
            r == self@.i,
    {
        self.i_reg
    }

    /// The memory byte at `addr`.
    pub fn memory(&self, addr: usize) -> (r: u8)
        requires
            addr < RAM_SIZE,
        ensures
            r == self@.ram[addr as int],
    {
        self.ram[addr]
    }

    /// The number of return addresses on the stack.
    pub fn stack_depth(&self) -> (r: u16)
        ensures
            r == self@.sp,
    {
        self.sp
    }

    /// The delay timer.
    pub fn delay_timer(&self) -> (r: u8)
        ensures
            r == self@.dt,
    {
        self.dt
    }

    /// The sound timer; the host sounds a tone while it is above zero.
    pub fn sound_timer(&self) -> (r: u8)
        ensures
            r == self@.st,
    {
        self.st
    }
}

/// Relies on rand's `thread_rng().gen::<u8>()` for a byte from the
/// thread-local generator; nothing is promised of its value.
#[verifier::external_body]
fn random_byte() -> u8 {
    rand::thread_rng().gen::<u8>()
}

/// Whether drawing has toggled display cell `idx` once it has reached
/// column `col` of sprite row `row`: the sprite hits the cell and the cell's
/// sprite position comes earlier in drawing order.
spec fn toggled(
    ram: Seq<u8>,
    i: u16,
    vx: u8,
    vy: u8,
    n: u8,
    idx: int,
    row: int,
    col: int,
) -> bool {
    &&& sprite_hits(ram, i, vx, vy, n, idx)
    &&& (sprite_row(idx, vy) < row || (sprite_row(idx, vy) == row && sprite_col(idx, vx) < col))
}

/// Stepping `off` places from `base` around a circle of `m` places and
/// measuring the way back gives `off` again.
proof fn lemma_wrap_back(base: int, off: int, m: int)
    requires
        0 <= off < m,
    ensures
        ((base + off) % m - base) % m == off,
{
    let t = (base + off) / m;
    let p = (base + off) % m;
    lemma_fundamental_div_mod(base + off, m);
    assert((-t) * m == -(m * t)) by (nonlinear_arith);
    lemma_fundamental_div_mod_converse(p - base, m, -t, off);
}

/// The only place on a circle of `m` places that lies `off` places after
/// `base` is `(base + off) % m`.
proof fn lemma_wrap_unique(q: int, base: int, off: int, m: int)
    requires
        0 <= q < m,
        0 <= off < m,
        (q - base) % m == off,
    ensures
        q == (base + off) % m,
{
    let k = (q - base) / m;
    lemma_fundamental_div_mod(q - base, m);
    assert((-k) * m == -(m * k)) by (nonlinear_arith);
    lemma_fundamental_div_mod_converse(base + off, m, -k, q);
}

/// The display cell at sprite column `col` and row `row` of a sprite drawn
/// at `(vx, vy)`, and the only cell that `sprite_col` and `sprite_row` map
/// back to that column and row.
proof fn lemma_sprite_cell(vx: u8, vy: u8, col: int, row: int)
    requires
        0 <= col < 8,
        0 <= row < 16,
    ensures
        ({
            let d = (vx + col) % 64 + 64 * ((vy + row) % 32);
            &&& 0 <= d < DISPLAY_SIZE
            &&& sprite_col(d, vx) == col
            &&& sprite_row(d, vy) == row
            &&& forall|idx: int|
                0 <= idx < DISPLAY_SIZE && #[trigger] sprite_col(idx, vx) == col && sprite_row(
                    idx,
                    vy,
                ) == row ==> idx == d
        }),
{
    let px = (vx + col) % 64;
    let py = (vy + row) % 32;
    let d = px + 64 * py;
    lemma_fundamental_div_mod_converse(d, 64, py, px);
    lemma_wrap_back(vx as int, col, 64);
    lemma_wrap_back(vy as int, row, 32);
    assert forall|idx: int|
        0 <= idx < DISPLAY_SIZE && #[trigger] sprite_col(idx, vx) == col && sprite_row(idx, vy)
            == row implies idx == d by {
        lemma_fundamental_div_mod(idx, 64);
        lemma_wrap_unique(idx % 64, vx as int, col, 64);
        lemma_wrap_unique(idx / 64, vy as int, row, 32);
    }
}

} // verus!
