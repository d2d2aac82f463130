use vstd::prelude::*;

use crate::decode::{decode_spec, low_addr, low_byte, nib1, nib2, nib3, nib4, Instr};
use crate::error::EmuError;
use crate::machine::{
    draw_collides, drawn_screen, fetchable, lemma_first_pressed_is, lemma_none_pressed, opcode_at,
    run, set_v, sprite_hits, sprite_in_memory, step, wf, with_pc, Machine, DISPLAY_SIZE, NUM_KEYS,
    NUM_REGS, STACK_SIZE,
};
use vstd::arithmetic::div_mod::lemma_fundamental_div_mod_converse;

verus! {

/// Whether memory holds the two opcode bytes `hi`, `lo` at `addr`.
pub open spec fn holds_op(m: Machine, addr: int, hi: int, lo: int) -> bool {
    &&& addr + 1 < m.ram.len()
    &&& m.ram[addr] == hi
    &&& m.ram[addr + 1] == lo
}

/// Setting a register to `nn1` and then adding `nn2` to it leaves
/// `(nn1 + nn2) mod 256` in it, whatever random bytes the cycles draw.
pub proof fn law_set_then_add(m: Machine, x: u8, nn1: u8, nn2: u8, r1: u8, r2: u8)
    requires
        wf(m),
        x < NUM_REGS,
        holds_op(m, m.pc as int, 0x60 + x, nn1 as int),
        holds_op(m, m.pc + 2, 0x70 + x, nn2 as int),
    ensures
        ({
            let (m1, res1) = step(m, r1);
            let (m2, res2) = step(m1, r2);
            &&& res1 == Ok::<(), EmuError>(())
            &&& res2 == Ok::<(), EmuError>(())
            &&& m2.v[x as int] == (nn1 + nn2) % 256
            &&& m2.pc == m.pc + 4
        }),
{
    lemma_op_fields(m, m.pc as int, 6, x as int, nn1 as int);
    lemma_step_runs(m, Instr::SetImm { x, nn: nn1 }, r1);
    let m1 = step(m, r1).0;
    assert(m1 == set_v(with_pc(m, (m.pc + 2) as u16), x, nn1));
    lemma_op_fields(m1, m1.pc as int, 7, x as int, nn2 as int);
    lemma_step_runs(m1, Instr::AddImm { x, nn: nn2 }, r2);
}

/// The fields of the opcode whose bytes stand at `addr`: high nibble `a`,
/// second nibble `b`, low byte `lo`.
proof fn lemma_op_fields(m: Machine, addr: int, a: int, b: int, lo: int)
    requires
        0 <= a < 16,
        0 <= b < 16,
        0 <= lo < 256,
        0 <= addr,
        holds_op(m, addr, 16 * a + b, lo),
    ensures
        addr < 0x10000 ==> ({
            let op = opcode_at(m.ram, addr as u16);
            &&& op == 4096 * a + 256 * b + lo
            &&& nib1(op) == a
            &&& nib2(op) == b
            &&& nib3(op) == lo / 16
            &&& nib4(op) == lo % 16
            &&& low_byte(op) == lo
            &&& low_addr(op) == 256 * b + lo
        }),
{
    if addr < 0x10000 {
        let op = opcode_at(m.ram, addr as u16);
        let o = 4096 * a + 256 * b + lo;
        assert(op == o);
        lemma_fundamental_div_mod_converse(o, 4096, a, 256 * b + lo);
        lemma_fundamental_div_mod_converse(o, 256, 16 * a + b, lo);
        lemma_fundamental_div_mod_converse(16 * a + b, 16, a, b);
        lemma_fundamental_div_mod_converse(lo, 16, lo / 16, lo % 16);
        lemma_fundamental_div_mod_converse(o, 16, 256 * a + 16 * b + lo / 16, lo % 16);
        lemma_fundamental_div_mod_converse(256 * a + 16 * b + lo / 16, 16, 16 * a + b, lo / 16);
    }
}

/// A cycle whose opcode decodes to `ins` runs `ins` past the opcode.
proof fn lemma_step_runs(m: Machine, ins: Instr, rnd: u8)
    requires
        fetchable(m.pc),
        decode_spec(opcode_at(m.ram, m.pc)) == Ok::<Instr, EmuError>(ins),
    ensures
        step(m, rnd) == run(with_pc(m, (m.pc + 2) as u16), ins, rnd),
{
}

/// `8XY4` leaves `VF` at 1 exactly when `VX + VY` exceeds 255, and `8XY5`
/// leaves `VF` at 0 exactly when `VY` exceeds `VX`, both over the values
/// before the instruction.
pub proof fn law_arith_flags(m: Machine, x: u8, y: u8, rnd: u8)
    requires
        wf(m),
        x < NUM_REGS,
        y < NUM_REGS,
        fetchable(m.pc),
    ensures
        holds_op(m, m.pc as int, 0x80 + x, 16 * y + 4) ==> ({
            let (m1, res) = step(m, rnd);
            res == Ok::<(), EmuError>(()) && (m1.v[15] == 1 <==> m.v[x as int] + m.v[y as int] > 255)
        }),
        holds_op(m, m.pc as int, 0x80 + x, 16 * y + 5) ==> ({
            let (m1, res) = step(m, rnd);
            res == Ok::<(), EmuError>(()) && (m1.v[15] == 0 <==> m.v[y as int] > m.v[x as int])
        }),
{
    let op = opcode_at(m.ram, m.pc);
    if holds_op(m, m.pc as int, 0x80 + x, 16 * y + 4) {
        assert(op == 0x8000 + 256 * x + 16 * y + 4);
        assert(decode_spec(op) == Ok::<Instr, EmuError>(Instr::AddReg { x, y }));
    }
    if holds_op(m, m.pc as int, 0x80 + x, 16 * y + 5) {
        assert(op == 0x8000 + 256 * x + 16 * y + 5);
        assert(decode_spec(op) == Ok::<Instr, EmuError>(Instr::SubReg { x, y }));
    }
}

/// `8XY6` puts the low bit of `VX` from before the shift into `VF`, and
/// `8XYE` its high bit; `VX` is shifted. With `X` = F the shifted value
/// overwrites the flag, so `X` is another register here.
pub proof fn law_shift_flags(m: Machine, x: u8, y: u8, rnd: u8)
    requires
        wf(m),
        x < 15,
        y < NUM_REGS,
        fetchable(m.pc),
    ensures
        holds_op(m, m.pc as int, 0x80 + x, 16 * y + 6) ==> ({
            let (m1, res) = step(m, rnd);
            &&& res == Ok::<(), EmuError>(())
            &&& m1.v[15] == m.v[x as int] % 2
            &&& m1.v[x as int] == m.v[x as int] / 2
        }),
        holds_op(m, m.pc as int, 0x80 + x, 16 * y + 0xE) ==> ({
            let (m1, res) = step(m, rnd);
            &&& res == Ok::<(), EmuError>(())
            &&& m1.v[15] == m.v[x as int] / 128
            &&& m1.v[x as int] == (m.v[x as int] * 2) % 256
        }),
{
    let op = opcode_at(m.ram, m.pc);
    if holds_op(m, m.pc as int, 0x80 + x, 16 * y + 6) {
        assert(op == 0x8000 + 256 * x + 16 * y + 6);
        assert(decode_spec(op) == Ok::<Instr, EmuError>(Instr::ShiftRight { x }));
    }
    if holds_op(m, m.pc as int, 0x80 + x, 16 * y + 0xE) {
        assert(op == 0x8000 + 256 * x + 16 * y + 0xE);
        assert(decode_spec(op) == Ok::<Instr, EmuError>(Instr::ShiftLeft { x }));
    }
}

/// Drawing a sprite twice at the same place restores the display; the
/// second draw reports a collision whenever the sprite covers a cell that
/// was dark before the first.
pub proof fn law_draw_twice(
    screen: Seq<bool>,
    ram: Seq<u8>,
    i: u16,
    vx: u8,
    vy: u8,
    n: u8,
)
    requires
        screen.len() == DISPLAY_SIZE,
    ensures
        drawn_screen(drawn_screen(screen, ram, i, vx, vy, n), ram, i, vx, vy, n) == screen,
        draw_collides(drawn_screen(screen, ram, i, vx, vy, n), ram, i, vx, vy, n) <==> exists|
            idx: int,
        |
            0 <= idx < DISPLAY_SIZE && #[trigger] sprite_hits(ram, i, vx, vy, n, idx)
                && !screen[idx],
{
    let once = drawn_screen(screen, ram, i, vx, vy, n);
    assert(drawn_screen(once, ram, i, vx, vy, n) =~= screen);
}

/// Two `DXYN` cycles in a row with the same operands, `X` and `Y` other than
/// F, leave the display as it was and set `VF` to 1 when the sprite covers
/// a cell that was dark.
pub proof fn law_draw_twice_step(m: Machine, x: u8, y: u8, n: u8, r1: u8, r2: u8)
    requires
        wf(m),
        x < 15,
        y < 15,
        n < 16,
        holds_op(m, m.pc as int, 0xD0 + x, 16 * y + n),
        holds_op(m, m.pc + 2, 0xD0 + x, 16 * y + n),
        sprite_in_memory(m.i, n),
        exists|idx: int|
            0 <= idx < DISPLAY_SIZE && #[trigger] sprite_hits(
                m.ram,
                m.i,
                m.v[x as int],
                m.v[y as int],
                n,
                idx,
            ) && !m.screen[idx],
    ensures
        ({
            let (m1, res1) = step(m, r1);
            let (m2, res2) = step(m1, r2);
            &&& res1 == Ok::<(), EmuError>(())
            &&& res2 == Ok::<(), EmuError>(())
            &&& m2.screen == m.screen
            &&& m2.v[15] == 1
        }),
{
    lemma_op_fields(m, m.pc as int, 0xD, x as int, 16 * y + n);
    lemma_step_runs(m, Instr::Draw { x, y, n }, r1);
    let m1 = step(m, r1).0;
    assert(m1.ram == m.ram && m1.pc == m.pc + 2 && m1.i == m.i);
    assert(m1.v[x as int] == m.v[x as int] && m1.v[y as int] == m.v[y as int]);
    lemma_op_fields(m1, m1.pc as int, 0xD, x as int, 16 * y + n);
    lemma_step_runs(m1, Instr::Draw { x, y, n }, r2);
    law_draw_twice(m.screen, m.ram, m.i, m.v[x as int], m.v[y as int], n);
}

/// A call followed by a return at the called address resumes at the
/// instruction after the call, with the stack as deep as before.
pub proof fn law_call_return(m: Machine, addr: u16, r1: u8, r2: u8)
    requires
        wf(m),
        addr < 4096,
        m.sp < STACK_SIZE,
        holds_op(m, m.pc as int, 0x20 + addr as int / 256, addr as int % 256),
        holds_op(m, addr as int, 0x00, 0xEE),
    ensures
        ({
            let (m1, res1) = step(m, r1);
            let (m2, res2) = step(m1, r2);
            &&& res1 == Ok::<(), EmuError>(())
            &&& res2 == Ok::<(), EmuError>(())
            &&& m2.pc == m.pc + 2
            &&& m2.sp == m.sp
        }),
{
    let op = opcode_at(m.ram, m.pc);
    assert(op == 0x2000 + addr);
    assert(decode_spec(op) == Ok::<Instr, EmuError>(Instr::Call { addr }));
    let m1 = step(m, r1).0;
    assert(m1.pc == addr && m1.ram == m.ram);
    assert(opcode_at(m1.ram, m1.pc) == 0x00EE);
}

/// A key wait with no key held steps back onto itself and changes nothing
/// else; with keys held it puts the lowest one in `VX` and moves on.
pub proof fn law_wait_key(m: Machine, x: u8, rnd: u8)
    requires
        wf(m),
        x < NUM_REGS,
        holds_op(m, m.pc as int, 0xF0 + x, 0x0A),
    ensures
        ({
            let (m1, res) = step(m, rnd);
            &&& res == Ok::<(), EmuError>(())
            &&& (forall|k: int| 0 <= k < NUM_KEYS ==> !m.keys[k]) ==> m1 == m
            &&& forall|k: int|
                0 <= k < NUM_KEYS && m.keys[k] && (forall|j: int| 0 <= j < k ==> !m.keys[j])
                    ==> m1.v[x as int] == k && m1.pc == m.pc + 2
        }),
{
    let op = opcode_at(m.ram, m.pc);
    assert(op == 0xF000 + 256 * x + 0x0A);
    assert(decode_spec(op) == Ok::<Instr, EmuError>(Instr::WaitKey { x }));
    if forall|k: int| 0 <= k < NUM_KEYS ==> !m.keys[k] {
        lemma_none_pressed(m.keys, 0);
        assert(step(m, rnd).0 == m);
    }
    assert forall|k: int|
        0 <= k < NUM_KEYS && m.keys[k] && (forall|j: int| 0 <= j < k ==> !m.keys[j]) implies
        #[trigger] step(m, rnd).0.v[x as int] == k && step(m, rnd).0.pc == m.pc + 2 by {
        lemma_first_pressed_is(m.keys, 0, k);
    }
}

} // verus!
