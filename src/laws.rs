use vstd::prelude::*;

use crate::fields::lemma_fields;
use crate::machine::{MachineState, FLAG, MAX_ADDRESS, NMEM, NPIXELS, NSTACK};
use crate::machine::Chip8Error;
use crate::semantics::{
    collides, covers, draw_sprite, execute, fetch, next, op_n, op_nn, op_nnn, op_x, op_y,
};

verus! {

/// A `6XNN` word at the program counter, fetched and executed, puts NN in
/// register X, leaves every other register alone and moves on by two bytes.
pub proof fn lemma_set_register_after_fetch(s: MachineState, x: u8, nn: u8, rnd: u8)
    requires
        s.wf(),
        x < 16,
        s.pc + 2 <= MAX_ADDRESS,
        s.memory[s.pc as int] == 0x60 + x,
        s.memory[s.pc + 1] == nn,
    ensures
        fetch(s) is Ok,
        execute(fetch(s)->Ok_0, rnd) is Ok,
        execute(fetch(s)->Ok_0, rnd)->Ok_0.reg == s.reg.update(x as int, nn),
        execute(fetch(s)->Ok_0, rnd)->Ok_0.pc == s.pc + 2,
{
    let op = fetch(s)->Ok_0.opcode;
    let hi = (0x60 + x) as u16;
    let lo = nn as u16;
    assert(op == hi * 256 + lo);
    assert((op & 0xF000u16) == 0x6000u16 && ((op & 0x0F00u16) >> 8u16) == x as u16 && (op
        & 0x00FFu16) == lo) by (bit_vector)
        requires
            op == hi * 256 + lo,
            hi == 0x60 + x as u16,
            x < 16,
            lo < 256,
    ;
}

/// `3XNN` skips the next instruction exactly when register X holds NN:
/// the program counter moves on by four bytes on a match, by two otherwise,
/// and nothing else changes.
pub proof fn lemma_skip_if_equal(s: MachineState, rnd: u8)
    requires
        s.wf(),
        (s.opcode & 0xF000u16) == 0x3000,
        s.pc + 4 <= MAX_ADDRESS,
    ensures
        execute(s, rnd) == Ok::<MachineState, Chip8Error>(
            MachineState {
                pc: (s.pc + if s.reg[op_x(s.opcode)] == op_nn(s.opcode) {
                    4int
                } else {
                    2int
                }) as u16,
                ..s
            },
        ),
{
}

/// `00E0` turns every pixel off and raises the draw flag, whatever the frame held.
pub proof fn lemma_clear_screen(s: MachineState, rnd: u8)
    requires
        s.wf(),
        s.opcode == 0x00E0,
        s.pc + 2 <= MAX_ADDRESS,
    ensures
        execute(s, rnd) is Ok,
        execute(s, rnd)->Ok_0.draw_flag,
        execute(s, rnd)->Ok_0.graphics.len() == NPIXELS,
        forall|p: int| 0 <= p < NPIXELS ==> #[trigger] execute(s, rnd)->Ok_0.graphics[p] == 0,
{
    assert(0x00E0u16 & 0xF000u16 == 0) by (bit_vector);
}

/// Drawing a sprite twice at the same place: the second draw reports a
/// collision and the frame buffer is back to what it was. This needs a pixel
/// under the sprite that was off before, and a position that the first draw
/// cannot move (neither X nor Y is the flag register).
pub proof fn lemma_sprite_twice(s: MachineState, rnd: u8)
    requires
        s.wf(),
        (s.opcode & 0xF000u16) == 0xD000,
        op_x(s.opcode) != FLAG,
        op_y(s.opcode) != FLAG,
        s.index + op_n(s.opcode) <= NMEM,
        s.pc + 4 <= MAX_ADDRESS,
        exists|p: int|
            #[trigger] covers(
                s,
                s.reg[op_x(s.opcode)] as int,
                s.reg[op_y(s.opcode)] as int,
                op_n(s.opcode) as int,
                p,
            ) && s.graphics[p] == 0,
    ensures
        execute(s, rnd) is Ok,
        execute(execute(s, rnd)->Ok_0, rnd) is Ok,
        execute(execute(s, rnd)->Ok_0, rnd)->Ok_0.reg[FLAG as int] == 1,
        execute(execute(s, rnd)->Ok_0, rnd)->Ok_0.graphics == s.graphics,
{
    lemma_fields(s.opcode);
    let x0 = s.reg[op_x(s.opcode)] as int;
    let y0 = s.reg[op_y(s.opcode)] as int;
    let n = op_n(s.opcode) as int;
    let d = draw_sprite(s);
    let t = MachineState { pc: (s.pc + 2) as u16, ..d };
    assert(execute(s, rnd) == next(d));
    assert(next(d) == Ok::<MachineState, Chip8Error>(t));
    assert(t.reg[op_x(s.opcode)] as int == x0);
    assert(t.reg[op_y(s.opcode)] as int == y0);
    assert(t.opcode == s.opcode && t.memory == s.memory && t.index == s.index);
    let d2 = draw_sprite(t);
    let u = MachineState { pc: (t.pc + 2) as u16, ..d2 };
    assert(execute(t, rnd) == next(d2));
    assert(next(d2) == Ok::<MachineState, Chip8Error>(u));
    assert forall|p: int| #[trigger] covers(t, x0, y0, n, p) == covers(s, x0, y0, n, p) by {}
    let w = choose|p: int| #[trigger] covers(s, x0, y0, n, p) && s.graphics[p] == 0;
    assert((0u8 ^ 1u8) == 1u8) by (bit_vector);
    assert(covers(t, x0, y0, n, w) && t.graphics[w] == 1);
    assert(collides(t, x0, y0, n));
    assert forall|p: int| 0 <= p < NPIXELS implies #[trigger] u.graphics[p] == s.graphics[p] by {
        let g = s.graphics[p];
        assert((g ^ 1u8) ^ 1u8 == g) by (bit_vector);
    }
    assert(u.graphics =~= s.graphics);
}

/// A call followed by a return comes back to the instruction after the call,
/// with the stack pointer as it was.
pub proof fn lemma_call_then_return(s: MachineState, rnd: u8)
    requires
        s.wf(),
        (s.opcode & 0xF000u16) == 0x2000,
        s.sp < NSTACK,
        s.pc + 2 <= MAX_ADDRESS,
    ensures
        execute(s, rnd) is Ok,
        execute(s, rnd)->Ok_0.pc == op_nnn(s.opcode),
        execute(MachineState { opcode: 0x00EE, ..execute(s, rnd)->Ok_0 }, rnd) is Ok,
        execute(MachineState { opcode: 0x00EE, ..execute(s, rnd)->Ok_0 }, rnd)->Ok_0.pc == s.pc
            + 2,
        execute(MachineState { opcode: 0x00EE, ..execute(s, rnd)->Ok_0 }, rnd)->Ok_0.sp == s.sp,
{
    lemma_fields(s.opcode);
    assert(0x00EEu16 & 0xF000u16 == 0) by (bit_vector);
    let t = execute(s, rnd)->Ok_0;
    assert(t.stack[s.sp as int] == s.pc);
    assert(t.sp == s.sp + 1);
}

/// `FX55` then `FX65` with the same index and X gives registers 0 to X back
/// the values they had before the store, so all registers are as they were.
pub proof fn lemma_store_then_load(s: MachineState, rnd: u8)
    requires
        s.wf(),
        (s.opcode & 0xF0FFu16) == 0xF055,
        s.index + op_x(s.opcode) + 1 <= NMEM,
        s.pc + 4 <= MAX_ADDRESS,
    ensures
        execute(s, rnd) is Ok,
        ({
            let load = MachineState {
                opcode: (s.opcode & 0x0F00u16) | 0xF065u16,
                ..execute(s, rnd)->Ok_0
            };
            &&& execute(load, rnd) is Ok
            &&& execute(load, rnd)->Ok_0.reg == s.reg
        }),
{
    let op = s.opcode;
    let op2 = (op & 0x0F00u16) | 0xF065u16;
    lemma_fields(op);
    lemma_fields(op2);
    assert((op & 0xF000u16) == 0xF000u16 && (op & 0x00FFu16) == 0x55u16) by (bit_vector)
        requires
            (op & 0xF0FFu16) == 0xF055u16,
    ;
    assert((op2 & 0xF000u16) == 0xF000u16 && (op2 & 0x00FFu16) == 0x65u16 && ((op2 & 0x0F00u16)
        >> 8u16) == ((op & 0x0F00u16) >> 8u16)) by (bit_vector)
        requires
            op2 == (op & 0x0F00u16) | 0xF065u16,
    ;
    let t = execute(s, rnd)->Ok_0;
    let load = MachineState { opcode: op2, ..t };
    assert(execute(load, rnd)->Ok_0.reg =~= s.reg);
}

} // verus!
