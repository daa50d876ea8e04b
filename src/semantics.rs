use vstd::prelude::*;

use crate::bits::bits_of;
use crate::machine::{
    Chip8Error, MachineState, FLAG, FONT_LEN, MAX_ADDRESS, NMEM, NPIXELS, NREG, NSTACK, NKEYS,
    PROGRAM_START, WIDTH,
};

verus! {

/// The built-in font: the glyphs of the hexadecimal digits 0 to F, five rows each.
pub open spec fn font() -> Seq<u8> {
    seq![
        0xF0u8, 0x90, 0x90, 0x90, 0xF0, 0x20, 0x60, 0x20, 0x20, 0x70,
        0xF0, 0x10, 0xF0, 0x80, 0xF0, 0xF0, 0x10, 0xF0, 0x10, 0xF0,
        0x90, 0x90, 0xF0, 0x10, 0x10, 0xF0, 0x80, 0xF0, 0x10, 0xF0,
        0xF0, 0x80, 0xF0, 0x90, 0xF0, 0xF0, 0x10, 0x20, 0x40, 0x40,
        0xF0, 0x90, 0xF0, 0x90, 0xF0, 0xF0, 0x90, 0xF0, 0x10, 0xF0,
        0xF0, 0x90, 0xF0, 0x90, 0x90, 0xE0, 0x90, 0xE0, 0x90, 0xE0,
        0xF0, 0x80, 0x80, 0x80, 0xF0, 0xE0, 0x90, 0x90, 0x90, 0xE0,
        0xF0, 0x80, 0xF0, 0x80, 0xF0, 0xF0, 0x80, 0xF0, 0x80, 0x80,
    ]
}

/// Memory of a fresh machine: the font at address 0, zero elsewhere.
pub open spec fn initial_memory() -> Seq<u8> {
    Seq::new(NMEM as nat, |a: int| if a < FONT_LEN { font()[a] } else { 0u8 })
}

/// A fresh machine: font installed, everything else zero or false, execution
/// at `PROGRAM_START`.
pub open spec fn initial_state() -> MachineState {
    MachineState {
        draw_flag: false,
        opcode: 0,
        memory: initial_memory(),
        reg: Seq::new(NREG as nat, |i: int| 0u8),
        index: 0,
        pc: PROGRAM_START,
        graphics: Seq::new(NPIXELS as nat, |i: int| 0u8),
        timer_delay: 0,
        timer_sound: 0,
        stack: Seq::new(NSTACK as nat, |i: int| 0u16),
        sp: 0,
        key: Seq::new(NKEYS as nat, |i: int| 0u8),
    }
}

/// `s` with `bytes` copied into memory from `PROGRAM_START` on.
pub open spec fn with_program(s: MachineState, bytes: Seq<u8>) -> MachineState {
    MachineState {
        memory: Seq::new(
            NMEM as nat,
            |a: int|
                if PROGRAM_START <= a < PROGRAM_START + bytes.len() {
                    bytes[a - PROGRAM_START]
                } else {
                    s.memory[a]
                },
        ),
        ..s
    }
}

/// Loading `bytes`: refused when they do not fit, else `with_program`.
pub open spec fn load(s: MachineState, bytes: Seq<u8>) -> Result<MachineState, Chip8Error> {
    if bytes.len() > NMEM - PROGRAM_START {
        Err(Chip8Error::ProgramTooLarge { len: bytes.len() as usize })
    } else {
        Ok(with_program(s, bytes))
    }
}

/// Register selected by the second nibble of an instruction word.
pub open spec fn op_x(op: u16) -> int {
    ((op & 0x0F00u16) >> 8u16) as int
}

/// Register selected by the third nibble of an instruction word.
pub open spec fn op_y(op: u16) -> int {
    ((op & 0x00F0u16) >> 4u16) as int
}

/// The low nibble of an instruction word.
pub open spec fn op_n(op: u16) -> u16 {
    op & 0x000Fu16
}

/// The low byte of an instruction word.
pub open spec fn op_nn(op: u16) -> u8 {
    (op & 0x00FFu16) as u8
}

/// The low twelve bits of an instruction word: an address.
pub open spec fn op_nnn(op: u16) -> u16 {
    op & 0x0FFFu16
}

/// How a call returns: the state it leads to, or the error that stops it
/// (in which case the machine is left as it was).
pub open spec fn outcome(
    before: MachineState,
    after: MachineState,
    r: Result<(), Chip8Error>,
    expected: Result<MachineState, Chip8Error>,
) -> bool {
    match expected {
        Ok(t) => r is Ok && after == t,
        Err(e) => r == Err::<(), Chip8Error>(e) && after == before,
    }
}

/// Fetching: the big-endian word at `pc` becomes the current opcode.
pub open spec fn fetch(s: MachineState) -> Result<MachineState, Chip8Error> {
    if s.pc + 1 > MAX_ADDRESS {
        Err(Chip8Error::PcOutOfRange { pc: s.pc })
    } else {
        Ok(
            MachineState {
                opcode: (s.memory[s.pc as int] * 256 + s.memory[s.pc + 1]) as u16,
                ..s
            },
        )
    }
}

/// Moving the program counter to `target`, which must lie in memory.
pub open spec fn goto(s: MachineState, target: int) -> Result<MachineState, Chip8Error> {
    if 0 <= target <= MAX_ADDRESS {
        Ok(MachineState { pc: target as u16, ..s })
    } else {
        Err(Chip8Error::PcOutOfRange { pc: s.pc })
    }
}

/// Moving on to the next instruction.
pub open spec fn next(s: MachineState) -> Result<MachineState, Chip8Error> {
    goto(s, s.pc + 2)
}

/// Skipping the next instruction when `cond` holds, else moving on to it.
pub open spec fn skip_if(s: MachineState, cond: bool) -> Result<MachineState, Chip8Error> {
    goto(s, s.pc + if cond { 4int } else { 2int })
}

/// `s` with register `r` set to `v`.
pub open spec fn set_reg(s: MachineState, r: int, v: u8) -> MachineState {
    MachineState { reg: s.reg.update(r, v), ..s }
}

/// First pressed key among `k .. 0xF` (key 0xF itself is never scanned).
pub open spec fn first_pressed(keys: Seq<u8>, k: int) -> Option<u8>
    decreases 15 - k,
{
    if k >= 15 || k < 0 {
        None
    } else if keys[k] != 0 {
        Some(k as u8)
    } else {
        first_pressed(keys, k + 1)
    }
}

/// Whether pixel `p` lies under a set bit of the sprite of `n` rows read from
/// `index`, drawn with its top left corner at (`x0`, `y0`).
pub open spec fn covers(s: MachineState, x0: int, y0: int, n: int, p: int) -> bool {
    let px = p % WIDTH as int;
    let py = p / WIDTH as int;
    &&& 0 <= p < NPIXELS
    &&& x0 <= px < x0 + 8
    &&& y0 <= py < y0 + n
    &&& bits_of(s.memory[s.index + (py - y0)])[px - x0] == 1
}

/// Whether drawing that sprite turns off a lit pixel.
pub open spec fn collides(s: MachineState, x0: int, y0: int, n: int) -> bool {
    exists|p: int| #[trigger] covers(s, x0, y0, n, p) && s.graphics[p] == 1
}

/// The frame buffer after drawing that sprite: each covered pixel flipped.
pub open spec fn drawn(s: MachineState, x0: int, y0: int, n: int) -> Seq<u8> {
    Seq::new(
        NPIXELS as nat,
        |p: int|
            if covers(s, x0, y0, n, p) {
                s.graphics[p] ^ 1u8
            } else {
                s.graphics[p]
            },
    )
}

/// The effect of `DXYN` apart from the program counter.
pub open spec fn draw_sprite(s: MachineState) -> MachineState {
    let x0 = s.reg[op_x(s.opcode)] as int;
    let y0 = s.reg[op_y(s.opcode)] as int;
    let n = op_n(s.opcode) as int;
    MachineState {
        graphics: drawn(s, x0, y0, n),
        reg: s.reg.update(FLAG as int, if collides(s, x0, y0, n) { 1u8 } else { 0u8 }),
        draw_flag: true,
        ..s
    }
}

/// Instructions `00E0` (clear the screen) and `00EE` (return).
pub open spec fn execute_system(s: MachineState) -> Result<MachineState, Chip8Error> {
    if s.opcode == 0x00E0 {
        next(
            MachineState {
                graphics: Seq::new(NPIXELS as nat, |i: int| 0u8),
                draw_flag: true,
                ..s
            },
        )
    } else if s.opcode == 0x00EE {
        if s.sp == 0 {
            Err(Chip8Error::StackUnderflow { pc: s.pc })
        } else if s.sp > NSTACK {
            Err(Chip8Error::StackOverflow { pc: s.pc })
        } else {
            goto(MachineState { sp: (s.sp - 1) as u16, ..s }, s.stack[s.sp - 1] + 2)
        }
    } else {
        Err(Chip8Error::UnknownOpcode { opcode: s.opcode, pc: s.pc })
    }
}

/// Instruction `2NNN`: push the program counter and jump to `NNN`.
pub open spec fn execute_call(s: MachineState) -> Result<MachineState, Chip8Error> {
    if s.sp >= NSTACK {
        Err(Chip8Error::StackOverflow { pc: s.pc })
    } else {
        goto(
            MachineState { stack: s.stack.update(s.sp as int, s.pc), sp: (s.sp + 1) as u16, ..s },
            op_nnn(s.opcode) as int,
        )
    }
}

/// `8XY4`: the flag becomes the carry out of X + Y, then X becomes the sum modulo 256.
pub open spec fn add_with_carry(s: MachineState) -> MachineState {
    let x = op_x(s.opcode);
    let y = op_y(s.opcode);
    let t = set_reg(s, FLAG as int, if s.reg[x] + s.reg[y] > 255 { 1u8 } else { 0u8 });
    set_reg(t, x, ((t.reg[x] + t.reg[y]) % 256) as u8)
}

/// `8XY5`: the flag becomes 0 on a borrow (Y > X), else 1; then X becomes X - Y modulo 256.
pub open spec fn sub_with_borrow(s: MachineState) -> MachineState {
    let x = op_x(s.opcode);
    let y = op_y(s.opcode);
    let t = set_reg(s, FLAG as int, if s.reg[y] > s.reg[x] { 0u8 } else { 1u8 });
    set_reg(t, x, ((t.reg[x] - t.reg[y]) % 256) as u8)
}

/// `8XY6`: the flag becomes the low bit of X, then X is halved.
pub open spec fn shift_right(s: MachineState) -> MachineState {
    let x = op_x(s.opcode);
    let t = set_reg(s, FLAG as int, s.reg[x] & 1u8);
    set_reg(t, x, t.reg[x] / 2)
}

/// `8XY7`: the flag becomes 0 on a borrow (X > Y), else 1; then X becomes Y - X modulo 256.
pub open spec fn sub_reversed(s: MachineState) -> MachineState {
    let x = op_x(s.opcode);
    let y = op_y(s.opcode);
    let t = set_reg(s, FLAG as int, if s.reg[x] > s.reg[y] { 0u8 } else { 1u8 });
    set_reg(t, x, ((t.reg[y] - t.reg[x]) % 256) as u8)
}

/// `8XYE`: the flag becomes the high bit of X, then X is doubled modulo 256.
pub open spec fn shift_left(s: MachineState) -> MachineState {
    let x = op_x(s.opcode);
    let t = set_reg(s, FLAG as int, s.reg[x] / 128);
    set_reg(t, x, ((t.reg[x] * 2) % 256) as u8)
}

/// Instructions `8XY0` to `8XYE`: register arithmetic. Where an operation
/// sets the flag register, it does so before writing X, so with X or Y the
/// flag register the operand read afterwards is the new flag.
pub open spec fn execute_alu(s: MachineState) -> Result<MachineState, Chip8Error> {
    let x = op_x(s.opcode);
    let vx = s.reg[x];
    let vy = s.reg[op_y(s.opcode)];
    let sub = op_n(s.opcode);
    if sub == 0x0 {
        next(set_reg(s, x, vy))
    } else if sub == 0x1 {
        next(set_reg(s, x, vx | vy))
    } else if sub == 0x2 {
        next(set_reg(s, x, vx & vy))
    } else if sub == 0x3 {
        next(set_reg(s, x, vx ^ vy))
    } else if sub == 0x4 {
        next(add_with_carry(s))
    } else if sub == 0x5 {
        next(sub_with_borrow(s))
    } else if sub == 0x6 {
        next(shift_right(s))
    } else if sub == 0x7 {
        next(sub_reversed(s))
    } else if sub == 0xE {
        next(shift_left(s))
    } else {
        Err(Chip8Error::UnknownOpcode { opcode: s.opcode, pc: s.pc })
    }
}

/// Instructions `EX9E` and `EXA1`: skip on the state of the key in register X.
pub open spec fn execute_key(s: MachineState) -> Result<MachineState, Chip8Error> {
    let k = s.reg[op_x(s.opcode)];
    let low = op_nn(s.opcode);
    if low != 0x9E && low != 0xA1 {
        Err(Chip8Error::UnknownOpcode { opcode: s.opcode, pc: s.pc })
    } else if k >= NKEYS {
        Err(Chip8Error::KeyOutOfRange { pc: s.pc, key: k })
    } else if low == 0x9E {
        skip_if(s, s.key[k as int] != 0)
    } else {
        skip_if(s, s.key[k as int] == 0)
    }
}

/// Instructions `FX07` to `FX65`: timers, keys, the index register and block moves.
pub open spec fn execute_misc(s: MachineState) -> Result<MachineState, Chip8Error> {
    let x = op_x(s.opcode);
    let vx = s.reg[x];
    let i = s.index as int;
    let low = op_nn(s.opcode);
    let out_of_range = Err(Chip8Error::MemoryOutOfRange { pc: s.pc, index: s.index });
    if low == 0x07 {
        next(set_reg(s, x, s.timer_delay))
    } else if low == 0x0A {
        match first_pressed(s.key, 0) {
            Some(k) => next(set_reg(s, x, k)),
            None => Ok(s),
        }
    } else if low == 0x15 {
        next(MachineState { timer_delay: vx, ..s })
    } else if low == 0x18 {
        next(MachineState { timer_sound: vx, ..s })
    } else if low == 0x1E {
        // the index register may not leave memory
        if i + vx > MAX_ADDRESS {
            out_of_range
        } else {
            next(MachineState { index: (i + vx) as u16, ..s })
        }
    } else if low == 0x29 {
        next(MachineState { index: (5 * vx) as u16, ..s })
    } else if low == 0x33 {
        if i + 3 > NMEM {
            out_of_range
        } else {
            next(
                MachineState {
                    memory: s.memory.update(i, vx / 100).update(i + 1, (vx / 10) % 10).update(
                        i + 2,
                        vx % 10,
                    ),
                    ..s
                },
            )
        }
    } else if low == 0x55 {
        if i + x + 1 > NMEM {
            out_of_range
        } else {
            next(
                MachineState {
                    memory: Seq::new(
                        NMEM as nat,
                        |a: int|
                            if i <= a <= i + x {
                                s.reg[a - i]
                            } else {
                                s.memory[a]
                            },
                    ),
                    ..s
                },
            )
        }
    } else if low == 0x65 {
        if i + x + 1 > NMEM {
            out_of_range
        } else {
            next(
                MachineState {
                    reg: Seq::new(
                        NREG as nat,
                        |r: int|
                            if r <= x {
                                s.memory[i + r]
                            } else {
                                s.reg[r]
                            },
                    ),
                    ..s
                },
            )
        }
    } else {
        Err(Chip8Error::UnknownOpcode { opcode: s.opcode, pc: s.pc })
    }
}

/// Executing the current opcode. `rnd` is the random byte that `CXNN` masks.
pub open spec fn execute(s: MachineState, rnd: u8) -> Result<MachineState, Chip8Error> {
    let op = s.opcode;
    let x = op_x(op);
    let y = op_y(op);
    let nn = op_nn(op);
    let group = op & 0xF000u16;
    if group == 0x0000 {
        execute_system(s)
    } else if group == 0x1000 {
        goto(s, op_nnn(op) as int)
    } else if group == 0x2000 {
        execute_call(s)
    } else if group == 0x3000 {
        skip_if(s, s.reg[x] == nn)
    } else if group == 0x4000 {
        skip_if(s, s.reg[x] != nn)
    } else if group == 0x5000 && op_n(op) == 0 {
        skip_if(s, s.reg[x] == s.reg[y])
    } else if group == 0x6000 {
        next(set_reg(s, x, nn))
    } else if group == 0x7000 {
        next(set_reg(s, x, ((s.reg[x] + nn) % 256) as u8))
    } else if group == 0x8000 {
        execute_alu(s)
    } else if group == 0x9000 && op_n(op) == 0 {
        skip_if(s, s.reg[x] != s.reg[y])
    } else if group == 0xA000 {
        next(MachineState { index: op_nnn(op), ..s })
    } else if group == 0xB000 {
        goto(s, op_nnn(op) + s.reg[0])
    } else if group == 0xC000 {
        next(set_reg(s, x, nn & rnd))
    } else if group == 0xD000 {
        if s.index + op_n(op) > NMEM {
            Err(Chip8Error::MemoryOutOfRange { pc: s.pc, index: s.index })
        } else {
            next(draw_sprite(s))
        }
    } else if group == 0xE000 {
        execute_key(s)
    } else if group == 0xF000 {
        execute_misc(s)
    } else {
        Err(Chip8Error::UnknownOpcode { opcode: op, pc: s.pc })
    }
}

/// The timer tick: each nonzero timer counts down by one.
pub open spec fn tick(s: MachineState) -> MachineState {
    MachineState {
        timer_delay: if s.timer_delay > 0 { (s.timer_delay - 1) as u8 } else { 0 },
        timer_sound: if s.timer_sound > 0 { (s.timer_sound - 1) as u8 } else { 0 },
        ..s
    }
}

/// One cycle: fetch, execute, then tick the timers.
pub open spec fn cycle(s: MachineState, rnd: u8) -> Result<MachineState, Chip8Error> {
    match fetch(s) {
        Err(e) => Err(e),
        Ok(f) => match execute(f, rnd) {
            Err(e) => Err(e),
            Ok(t) => Ok(tick(t)),
        },
    }
}

} // verus!
