use vstd::prelude::*;

use crate::decode::{decode_spec, Instr};
use crate::error::EmuError;

verus! {

/// Bytes of addressable memory.
pub const RAM_SIZE: usize = 4096;
/// Display width in pixels.
pub const SCREEN_WIDTH: usize = 64;
/// Display height in pixels.
pub const SCREEN_HEIGHT: usize = 32;
/// Pixels on the display.
pub const DISPLAY_SIZE: usize = 2048;
/// General registers V0 to VF.
pub const NUM_REGS: usize = 16;
/// Return addresses the stack can hold.
pub const STACK_SIZE: usize = 16;
/// Keys on the hexadecimal keypad.
pub const NUM_KEYS: usize = 16;
/// Address at which programs are loaded and execution starts.
pub const START_ADDR: u16 = 0x200;
/// Bytes of the built-in font: sixteen glyphs of five rows each.
pub const FONTSET_SIZE: usize = 80;

/// Glyphs 0 to F, four pixels wide and five tall, one row per byte with
/// the high nibble significant. Glyph `c` sits at memory `[5c, 5c + 5)`.
pub const FONTSET: [u8; 80] = [
    0xF0, 0x90, 0x90, 0x90, 0xF0, // 0
    0x20, 0x60, 0x20, 0x20, 0x70, // 1
    0xF0, 0x10, 0xF0, 0x80, 0xF0, // 2
    0xF0, 0x10, 0xF0, 0x10, 0xF0, // 3
    0x90, 0x90, 0xF0, 0x10, 0x10, // 4
    0xF0, 0x80, 0xF0, 0x10, 0xF0, // 5
    0xF0, 0x80, 0xF0, 0x90, 0xF0, // 6
    0xF0, 0x10, 0x20, 0x40, 0x40, // 7
    0xF0, 0x90, 0xF0, 0x90, 0xF0, // 8
    0xF0, 0x90, 0xF0, 0x10, 0xF0, // 9
    0xF0, 0x90, 0xF0, 0x90, 0x90, // A
    0xE0, 0x90, 0xE0, 0x90, 0xE0, // B
    0xF0, 0x80, 0x80, 0x80, 0xF0, // C
    0xE0, 0x90, 0x90, 0x90, 0xE0, // D
    0xF0, 0x80, 0xF0, 0x80, 0xF0, // E
    0xF0, 0x80, 0xF0, 0x80, 0x80, // F
];

/// The whole state of the machine as mathematical values.
pub struct Machine {
    /// Address of the next instruction.
    pub pc: u16,
    /// The 4096-byte address space.
    pub ram: Seq<u8>,
    /// Pixels, row-major, `SCREEN_WIDTH` per row; true is lit.
    pub screen: Seq<bool>,
    /// Registers V0 to VF; VF doubles as the flag register.
    pub v: Seq<u8>,
    /// The index register, a memory pointer.
    pub i: u16,
    /// Index of the next free stack slot.
    pub sp: u16,
    /// Return addresses; slots below `sp` are in use.
    pub stack: Seq<u16>,
    /// Which keys 0 to F are held down.
    pub keys: Seq<bool>,
    /// Delay timer.
    pub dt: u8,
    /// Sound timer.
    pub st: u8,
}

/// Sizes of the state's tables, and a stack pointer within the stack.
pub open spec fn wf(m: Machine) -> bool {
    &&& m.ram.len() == RAM_SIZE
    &&& m.screen.len() == DISPLAY_SIZE
    &&& m.v.len() == NUM_REGS
    &&& m.stack.len() == STACK_SIZE
    &&& m.keys.len() == NUM_KEYS
    &&& m.sp <= STACK_SIZE
}

/// Memory after construction or reset: the font, then zeros.
pub open spec fn initial_ram() -> Seq<u8> {
    Seq::new(RAM_SIZE as nat, |a: int| if a < FONTSET_SIZE { FONTSET@[a] } else { 0u8 })
}

/// The state after construction or reset.
pub open spec fn initial_machine() -> Machine {
    Machine {
        pc: START_ADDR,
        ram: initial_ram(),
        screen: Seq::new(DISPLAY_SIZE as nat, |k: int| false),
        v: Seq::new(NUM_REGS as nat, |k: int| 0u8),
        i: 0,
        sp: 0,
        stack: Seq::new(STACK_SIZE as nat, |k: int| 0u16),
        keys: Seq::new(NUM_KEYS as nat, |k: int| false),
        dt: 0,
        st: 0,
    }
}

/// `m` with `data` copied into memory from `START_ADDR` on.
pub open spec fn loaded(m: Machine, data: Seq<u8>) -> Machine {
    Machine {
        ram: Seq::new(
            m.ram.len(),
            |a: int|
                if START_ADDR <= a < START_ADDR + data.len() {
                    data[a - START_ADDR]
                } else {
                    m.ram[a]
                },
        ),
        ..m
    }
}

/// Both timers counted down once, neither below zero.
pub open spec fn timers_ticked(m: Machine) -> Machine {
    Machine {
        dt: if m.dt > 0 { (m.dt - 1) as u8 } else { 0 },
        st: if m.st > 0 { (m.st - 1) as u8 } else { 0 },
        ..m
    }
}

/// `v` reduced to 16 bits, as unsigned arithmetic wraps.
pub open spec fn wrap16(v: int) -> u16 {
    (v % 0x10000) as u16
}

/// `v` reduced to 8 bits, as unsigned arithmetic wraps.
pub open spec fn wrap8(v: int) -> u8 {
    (v % 0x100) as u8
}

/// `m` with the program counter at `pc`.
pub open spec fn with_pc(m: Machine, pc: u16) -> Machine {
    Machine { pc, ..m }
}

/// Skips the next instruction when `c` holds.
pub open spec fn skip_if(m: Machine, c: bool) -> Machine {
    if c {
        with_pc(m, wrap16(m.pc + 2))
    } else {
        m
    }
}

/// `m` with register `x` set to `val`.
pub open spec fn set_v(m: Machine, x: u8, val: u8) -> Machine {
    Machine { v: m.v.update(x as int, val), ..m }
}

/// A successful instruction that leaves `m`.
pub open spec fn ok(m: Machine) -> (Machine, Result<(), EmuError>) {
    (m, Ok(()))
}

/// Whether column `col` (0 leftmost) of a sprite row is set.
pub open spec fn sprite_bit(byte: u8, col: u8) -> bool {
    byte & (0x80u8 >> col) != 0
}

/// Column within a sprite drawn at x coordinate `vx` that lands on the
/// display cell `idx`, wrapping around the width.
pub open spec fn sprite_col(idx: int, vx: u8) -> int {
    (idx % 64 - vx) % 64
}

/// Row within a sprite drawn at y coordinate `vy` that lands on the
/// display cell `idx`, wrapping around the height.
pub open spec fn sprite_row(idx: int, vy: u8) -> int {
    (idx / 64 - vy) % 32
}

/// Whether a set sprite bit lands on display cell `idx` when `n` rows
/// read from `ram` at `i` are drawn at `(vx, vy)`.
pub open spec fn sprite_hits(ram: Seq<u8>, i: u16, vx: u8, vy: u8, n: u8, idx: int) -> bool {
    let c = sprite_col(idx, vx);
    let r = sprite_row(idx, vy);
    c < 8 && r < n && sprite_bit(ram[i + r], c as u8)
}

/// The display with every cell that the sprite hits toggled.
pub open spec fn drawn_screen(
    screen: Seq<bool>,
    ram: Seq<u8>,
    i: u16,
    vx: u8,
    vy: u8,
    n: u8,
) -> Seq<bool> {
    Seq::new(screen.len(), |idx: int| screen[idx] != sprite_hits(ram, i, vx, vy, n, idx))
}

/// Whether the sprite hits a cell that is on, so that drawing turns it off.
pub open spec fn draw_collides(
    screen: Seq<bool>,
    ram: Seq<u8>,
    i: u16,
    vx: u8,
    vy: u8,
    n: u8,
) -> bool {
    exists|idx: int|
        0 <= idx < screen.len() && #[trigger] sprite_hits(ram, i, vx, vy, n, idx) && screen[idx]
}

/// Whether the `n` sprite rows at `i` lie inside memory.
pub open spec fn sprite_in_memory(i: u16, n: u8) -> bool {
    n == 0 || i + n <= RAM_SIZE
}

/// Lowest index at or above `from` of a pressed key, or the key count when
/// none is pressed.
pub open spec fn first_pressed(keys: Seq<bool>, from: int) -> int
    decreases keys.len() - from,
{
    if from >= keys.len() || from < 0 {
        keys.len() as int
    } else if keys[from] {
        from
    } else {
        first_pressed(keys, from + 1)
    }
}

/// The lowest pressed key at or above `from` is `k` when `k` is pressed
/// and none between `from` and `k` is.
pub proof fn lemma_first_pressed_is(keys: Seq<bool>, from: int, k: int)
    requires
        0 <= from <= k < keys.len(),
        keys[k],
        forall|j: int| from <= j < k ==> !keys[j],
    ensures
        first_pressed(keys, from) == k,
    decreases k - from,
{
    if from < k {
        lemma_first_pressed_is(keys, from + 1, k);
    }
}

/// With no key pressed at or above `from`, the search finds none.
pub proof fn lemma_none_pressed(keys: Seq<bool>, from: int)
    requires
        0 <= from <= keys.len(),
        forall|j: int| from <= j < keys.len() ==> !keys[j],
    ensures
        first_pressed(keys, from) == keys.len(),
    decreases keys.len() - from,
{
    if from < keys.len() {
        lemma_none_pressed(keys, from + 1);
    }
}

/// Effect of one decoded instruction on a machine whose program counter
/// already points past it. `rnd` is the random byte that `Random` uses.
/// A failing instruction leaves the machine as it found it.
pub open spec fn run(m: Machine, ins: Instr, rnd: u8) -> (Machine, Result<(), EmuError>) {
    match ins {
        Instr::Nop => ok(m),
        Instr::ClearScreen => ok(Machine { screen: Seq::new(DISPLAY_SIZE as nat, |k: int| false), ..m }),
        Instr::Return => if m.sp == 0 {
            (m, Err(EmuError::StackUnderflow))
        } else {
            ok(Machine { sp: (m.sp - 1) as u16, pc: m.stack[m.sp - 1], ..m })
        },
        Instr::Jump { addr } => ok(with_pc(m, addr)),
        Instr::Call { addr } => if m.sp >= STACK_SIZE {
            (m, Err(EmuError::StackOverflow))
        } else {
            ok(Machine { stack: m.stack.update(m.sp as int, m.pc), sp: (m.sp + 1) as u16, pc: addr, ..m })
        },
        Instr::SkipEqImm { x, nn } => ok(skip_if(m, m.v[x as int] == nn)),
        Instr::SkipNeImm { x, nn } => ok(skip_if(m, m.v[x as int] != nn)),
        Instr::SkipEqReg { x, y } => ok(skip_if(m, m.v[x as int] == m.v[y as int])),
        Instr::SetImm { x, nn } => ok(set_v(m, x, nn)),
        Instr::AddImm { x, nn } => ok(set_v(m, x, wrap8(m.v[x as int] + nn))),
        Instr::Move { x, y } => ok(set_v(m, x, m.v[y as int])),
        Instr::Or { x, y } => ok(set_v(m, x, m.v[x as int] | m.v[y as int])),
        Instr::And { x, y } => ok(set_v(m, x, m.v[x as int] & m.v[y as int])),
        Instr::Xor { x, y } => ok(set_v(m, x, m.v[x as int] ^ m.v[y as int])),
        Instr::AddReg { x, y } => {
            let s = m.v[x as int] + m.v[y as int];
            ok(set_v(set_v(m, x, wrap8(s)), 0xF, if s > 255 { 1 } else { 0 }))
        },
        Instr::SubReg { x, y } => {
            let (a, b) = (m.v[x as int], m.v[y as int]);
            ok(set_v(set_v(m, x, wrap8(a - b)), 0xF, if b > a { 0 } else { 1 }))
        },
        Instr::ShiftRight { x } => {
            let a = m.v[x as int];
            ok(set_v(set_v(m, 0xF, a % 2), x, a / 2))
        },
        Instr::SubRev { x, y } => {
            let (a, b) = (m.v[x as int], m.v[y as int]);
            ok(set_v(set_v(m, x, wrap8(b - a)), 0xF, if a > b { 0 } else { 1 }))
        },
        Instr::ShiftLeft { x } => {
            let a = m.v[x as int];
            ok(set_v(set_v(m, 0xF, a / 128), x, wrap8(a * 2)))
        },
        Instr::SkipNeReg { x, y } => ok(skip_if(m, m.v[x as int] != m.v[y as int])),
        Instr::SetIndex { addr } => ok(Machine { i: addr, ..m }),
        Instr::JumpOffset { addr } => ok(with_pc(m, wrap16(m.v[0] + addr))),
        Instr::Random { x, nn } => ok(set_v(m, x, rnd & nn)),
        Instr::Draw { x, y, n } => {
            let (vx, vy) = (m.v[x as int], m.v[y as int]);
            if !sprite_in_memory(m.i, n) {
                (m, Err(EmuError::MemoryFault))
            } else {
                let hit = draw_collides(m.screen, m.ram, m.i, vx, vy, n);
                ok(set_v(
                    Machine { screen: drawn_screen(m.screen, m.ram, m.i, vx, vy, n), ..m },
                    0xF,
                    if hit { 1 } else { 0 },
                ))
            }
        },
        Instr::SkipKey { x } => {
            let k = m.v[x as int];
            if k >= NUM_KEYS {
                (m, Err(EmuError::InvalidKey { key: k }))
            } else {
                ok(skip_if(m, m.keys[k as int]))
            }
        },
        Instr::SkipNoKey { x } => {
            let k = m.v[x as int];
            if k >= NUM_KEYS {
                (m, Err(EmuError::InvalidKey { key: k }))
            } else {
                ok(skip_if(m, !m.keys[k as int]))
            }
        },
        Instr::GetDelay { x } => ok(set_v(m, x, m.dt)),
        Instr::WaitKey { x } => {
            let k = first_pressed(m.keys, 0);
            if k < NUM_KEYS {
                ok(set_v(m, x, k as u8))
            } else {
                ok(with_pc(m, wrap16(m.pc - 2)))
            }
        },
        Instr::SetDelay { x } => ok(Machine { dt: m.v[x as int], ..m }),
        Instr::SetSound { x } => ok(Machine { st: m.v[x as int], ..m }),
        Instr::AddIndex { x } => ok(Machine { i: wrap16(m.i + m.v[x as int]), ..m }),
        Instr::Font { x } => ok(Machine { i: (m.v[x as int] * 5) as u16, ..m }),
        Instr::Bcd { x } => {
            let a = m.v[x as int];
            if m.i + 3 > RAM_SIZE {
                (m, Err(EmuError::MemoryFault))
            } else {
                ok(Machine {
                    ram: m.ram.update(m.i as int, a / 100).update(m.i + 1, (a / 10) % 10).update(
                        m.i + 2,
                        a % 10,
                    ),
                    ..m
                })
            }
        },
        Instr::Store { x } => if m.i + x >= RAM_SIZE {
            (m, Err(EmuError::MemoryFault))
        } else {
            ok(Machine {
                ram: Seq::new(
                    m.ram.len(),
                    |a: int| if m.i <= a <= m.i + x { m.v[a - m.i] } else { m.ram[a] },
                ),
                ..m
            })
        },
        Instr::Load { x } => if m.i + x >= RAM_SIZE {
            (m, Err(EmuError::MemoryFault))
        } else {
            ok(Machine {
                v: Seq::new(m.v.len(), |k: int| if k <= x { m.ram[m.i + k] } else { m.v[k] }),
                ..m
            })
        },
    }
}

/// Whether the two bytes of an instruction at `pc` lie inside memory.
pub open spec fn fetchable(pc: u16) -> bool {
    pc + 1 < RAM_SIZE
}

/// The big-endian opcode at `pc`.
pub open spec fn opcode_at(ram: Seq<u8>, pc: u16) -> u16 {
    (ram[pc as int] * 256 + ram[pc + 1]) as u16
}

/// One machine cycle: fetch the opcode at the program counter, advance the
/// counter past it, decode and run it. A fetch outside memory changes
/// nothing; a failed decode or instruction keeps only the advance.
pub open spec fn step(m: Machine, rnd: u8) -> (Machine, Result<(), EmuError>) {
    if !fetchable(m.pc) {
        (m, Err(EmuError::MemoryFault))
    } else {
        let f = with_pc(m, wrap16(m.pc + 2));
        match decode_spec(opcode_at(m.ram, m.pc)) {
            Ok(ins) => run(f, ins, rnd),
            Err(e) => (f, Err(e)),
        }
    }
}

} // verus!
