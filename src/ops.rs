use vstd::prelude::*;

use crate::fields::lemma_fields;
use crate::machine::{
    Chip8, Chip8Error, MachineState, FLAG, MAX_ADDRESS, NKEYS, NMEM, NPIXELS, NREG, NSTACK,
};
use crate::semantics::{
    add_with_carry, cycle, execute, execute_alu, execute_call, execute_key, execute_misc,
    execute_system, first_pressed, op_nn, op_x, op_y, outcome, shift_left, shift_right,
    sub_reversed, sub_with_borrow,
};

verus! {

#[allow(non_snake_case)]
impl Chip8 {
    /// Whether the instruction after the current one lies in memory.
    fn has_next(&self) -> (r: bool)
        ensures
            r == (self.pc + 2 <= MAX_ADDRESS),
    {
        (self.pc as u32) + 2 <= MAX_ADDRESS as u32
    }

    /// Moves on to the next instruction.
    fn advance(&mut self)
        requires
            old(self).pc + 2 <= MAX_ADDRESS,
        ensures
            final(self)@ == (MachineState { pc: (old(self).pc + 2) as u16, ..old(self)@ }),
    {
        self.pc = self.pc + 2;
    }

    /// `00E0` and `00EE`.
    fn execute_system(&mut self) -> (r: Result<(), Chip8Error>)
        ensures
            outcome(old(self)@, final(self)@, r, execute_system(old(self)@)),
    {
        if self.opcode == 0x00E0 {
            if !self.has_next() {
                return Err(Chip8Error::PcOutOfRange { pc: self.pc });
            }
            let ghost s0 = self@;
            let mut i: usize = 0;
            while i < NPIXELS
                invariant
                    i <= NPIXELS,
                    self@ == (MachineState { graphics: self.graphics@, ..s0 }),
                    forall|a: int| 0 <= a < i ==> #[trigger] self.graphics@[a] == 0u8,
                decreases NPIXELS - i,
            {
                self.graphics[i] = 0;
                i = i + 1;
            }
            assert(self.graphics@ =~= Seq::new(NPIXELS as nat, |i: int| 0u8));
            self.drawFlag = true;
            self.advance();
            Ok(())
        } else if self.opcode == 0x00EE {
            if self.sp == 0 {
                return Err(Chip8Error::StackUnderflow { pc: self.pc });
            }
            if self.sp as usize > NSTACK {
                return Err(Chip8Error::StackOverflow { pc: self.pc });
            }
            let target: u32 = self.stack[(self.sp - 1) as usize] as u32 + 2;
            if target > MAX_ADDRESS as u32 {
                return Err(Chip8Error::PcOutOfRange { pc: self.pc });
            }
            self.sp = self.sp - 1;
            self.pc = target as u16;
            Ok(())
        } else {
            Err(Chip8Error::UnknownOpcode { opcode: self.opcode, pc: self.pc })
        }
    }

    /// `2NNN`.
    fn execute_call(&mut self) -> (r: Result<(), Chip8Error>)
        ensures
            outcome(old(self)@, final(self)@, r, execute_call(old(self)@)),
    {
        proof {
            lemma_fields(self.opcode);
        }
        if self.sp as usize >= NSTACK {
            return Err(Chip8Error::StackOverflow { pc: self.pc });
        }
        self.stack[self.sp as usize] = self.pc;
        self.sp = self.sp + 1;
        self.pc = self.opcode & 0x0FFFu16;
        Ok(())
    }

    /// `8XY0` to `8XYE`.
    fn execute_alu(&mut self) -> (r: Result<(), Chip8Error>)
        ensures
            outcome(old(self)@, final(self)@, r, execute_alu(old(self)@)),
    {
        let op = self.opcode;
        proof {
            lemma_fields(op);
        }
        let x = ((op & 0x0F00u16) >> 8u16) as usize;
        let y = ((op & 0x00F0u16) >> 4u16) as usize;
        let sub = op & 0x000Fu16;
        if sub > 0x7 && sub != 0xE {
            return Err(Chip8Error::UnknownOpcode { opcode: op, pc: self.pc });
        }
        if !self.has_next() {
            return Err(Chip8Error::PcOutOfRange { pc: self.pc });
        }
        let vx = self.reg[x];
        let vy = self.reg[y];
        if sub <= 0x3 {
            self.reg[x] = if sub == 0x0 {
                vy
            } else if sub == 0x1 {
                vx | vy
            } else if sub == 0x2 {
                vx & vy
            } else {
                vx ^ vy
            };
            self.advance();
            return Ok(());
        }
        if sub == 0x4 {
            self.add_with_carry(x, y);
        } else if sub == 0x5 {
            self.sub_with_borrow(x, y);
        } else if sub == 0x6 {
            self.shift_right(x);
        } else if sub == 0x7 {
            self.sub_reversed(x, y);
        } else {
            self.shift_left(x);
        }
        self.advance();
        Ok(())
    }

    /// `8XY4`.
    fn add_with_carry(&mut self, x: usize, y: usize)
        requires
            x == op_x(old(self).opcode),
            y == op_y(old(self).opcode),
        ensures
            final(self)@ == add_with_carry(old(self)@),
    {
        proof {
            lemma_fields(self.opcode);
        }
        let vx = self.reg[x];
        let vy = self.reg[y];
        self.reg[FLAG] = if vy > 0xFF - vx { 1 } else { 0 };
        let a = self.reg[x];
        let b = self.reg[y];
        self.reg[x] = a.wrapping_add(b);
    }

    /// `8XY5`.
    fn sub_with_borrow(&mut self, x: usize, y: usize)
        requires
            x == op_x(old(self).opcode),
            y == op_y(old(self).opcode),
        ensures
            final(self)@ == sub_with_borrow(old(self)@),
    {
        proof {
            lemma_fields(self.opcode);
        }
        let vx = self.reg[x];
        let vy = self.reg[y];
        self.reg[FLAG] = if vy > vx { 0 } else { 1 };
        let a = self.reg[x];
        let b = self.reg[y];
        self.reg[x] = a.wrapping_sub(b);
    }

    /// `8XY6`.
    fn shift_right(&mut self, x: usize)
        requires
            x == op_x(old(self).opcode),
        ensures
            final(self)@ == shift_right(old(self)@),
    {
        proof {
            lemma_fields(self.opcode);
        }
        self.reg[FLAG] = self.reg[x] & 1;
        let a = self.reg[x];
        self.reg[x] = a >> 1u8;
        assert(a >> 1u8 == a / 2) by (bit_vector);
    }

    /// `8XY7`.
    fn sub_reversed(&mut self, x: usize, y: usize)
        requires
            x == op_x(old(self).opcode),
            y == op_y(old(self).opcode),
        ensures
            final(self)@ == sub_reversed(old(self)@),
    {
        proof {
            lemma_fields(self.opcode);
        }
        let vx = self.reg[x];
        let vy = self.reg[y];
        self.reg[FLAG] = if vx > vy { 0 } else { 1 };
        let a = self.reg[x];
        let b = self.reg[y];
        self.reg[x] = b.wrapping_sub(a);
    }

    /// `8XYE`.
    fn shift_left(&mut self, x: usize)
        requires
            x == op_x(old(self).opcode),
        ensures
            final(self)@ == shift_left(old(self)@),
    {
        proof {
            lemma_fields(self.opcode);
        }
        let vx = self.reg[x];
        self.reg[FLAG] = (vx & 0x80u8) >> 7u8;
        assert((vx & 0x80u8) >> 7u8 == vx / 128) by (bit_vector);
        let a = self.reg[x];
        self.reg[x] = a.wrapping_mul(2);
    }

    /// `EX9E` and `EXA1`.
    fn execute_key(&mut self) -> (r: Result<(), Chip8Error>)
        ensures
            outcome(old(self)@, final(self)@, r, execute_key(old(self)@)),
    {
        let op = self.opcode;
        proof {
            lemma_fields(op);
        }
        let low = op & 0x00FFu16;
        if low != 0x9E && low != 0xA1 {
            return Err(Chip8Error::UnknownOpcode { opcode: op, pc: self.pc });
        }
        let k = self.reg[((op & 0x0F00u16) >> 8u16) as usize];
        if k as usize >= NKEYS {
            return Err(Chip8Error::KeyOutOfRange { pc: self.pc, key: k });
        }
        let pressed = self.key[k as usize] != 0;
        if low == 0x9E {
            self.skip(pressed)
        } else {
            self.skip(!pressed)
        }
    }

    /// `FX07` to `FX65`.
    fn execute_misc(&mut self) -> (r: Result<(), Chip8Error>)
        ensures
            outcome(old(self)@, final(self)@, r, execute_misc(old(self)@)),
    {
        let op = self.opcode;
        proof {
            lemma_fields(op);
        }
        let x = ((op & 0x0F00u16) >> 8u16) as usize;
        let low = op & 0x00FFu16;
        let vx = self.reg[x];
        let i = self.index;
        let ghost s0 = self@;
        if low == 0x07 {
            if !self.has_next() {
                return Err(Chip8Error::PcOutOfRange { pc: self.pc });
            }
            self.reg[x] = self.timer_delay;
            self.advance();
            Ok(())
        } else if low == 0x0A {
            let mut k: u8 = 0;
            while k < 15
                invariant
                    k <= 15,
                    self@ == s0,
                    s0 == old(self)@,
                    op_nn(s0.opcode) == 0x0A,
                    s0.wf(),
                    x < NREG,
                    x == op_x(s0.opcode),
                    first_pressed(s0.key, 0) == first_pressed(s0.key, k as int),
                decreases 15 - k,
            {
                if self.key[k as usize] != 0 {
                    assert(first_pressed(s0.key, k as int) == Some(k));
                    if !self.has_next() {
                        return Err(Chip8Error::PcOutOfRange { pc: self.pc });
                    }
                    self.reg[x] = k;
                    self.advance();
                    return Ok(());
                }
                k = k + 1;
            }
            Ok(())
        } else if low == 0x15 {
            if !self.has_next() {
                return Err(Chip8Error::PcOutOfRange { pc: self.pc });
            }
            self.timer_delay = vx;
            self.advance();
            Ok(())
        } else if low == 0x18 {
            if !self.has_next() {
                return Err(Chip8Error::PcOutOfRange { pc: self.pc });
            }
            self.timer_sound = vx;
            self.advance();
            Ok(())
        } else if low == 0x1E {
            if i as u32 + vx as u32 > MAX_ADDRESS as u32 {
                return Err(Chip8Error::MemoryOutOfRange { pc: self.pc, index: i });
            }
            if !self.has_next() {
                return Err(Chip8Error::PcOutOfRange { pc: self.pc });
            }
            self.index = i + vx as u16;
            self.advance();
            Ok(())
        } else if low == 0x29 {
            if !self.has_next() {
                return Err(Chip8Error::PcOutOfRange { pc: self.pc });
            }
            self.index = 5 * vx as u16;
            self.advance();
            Ok(())
        } else if low == 0x33 {
            if i as usize + 3 > NMEM {
                return Err(Chip8Error::MemoryOutOfRange { pc: self.pc, index: i });
            }
            if !self.has_next() {
                return Err(Chip8Error::PcOutOfRange { pc: self.pc });
            }
            self.memory[i as usize] = vx / 100;
            self.memory[i as usize + 1] = (vx / 10) % 10;
            self.memory[i as usize + 2] = vx % 10;
            self.advance();
            Ok(())
        } else if low == 0x55 {
            if i as usize + x + 1 > NMEM {
                return Err(Chip8Error::MemoryOutOfRange { pc: self.pc, index: i });
            }
            if !self.has_next() {
                return Err(Chip8Error::PcOutOfRange { pc: self.pc });
            }
            let mut j: usize = 0;
            while j <= x
                invariant
                    j <= x + 1,
                    x < NREG,
                    i + x + 1 <= NMEM,
                    i == s0.index,
                    s0.wf(),
                    self@ == (MachineState { memory: self.memory@, ..s0 }),
                    forall|a: int|
                        0 <= a < NMEM ==> #[trigger] self.memory@[a] == if i <= a < i + j {
                            s0.reg[a - i]
                        } else {
                            s0.memory[a]
                        },
                decreases x + 1 - j,
            {
                self.memory[i as usize + j] = self.reg[j];
                j = j + 1;
            }
            assert(self.memory@ =~= execute_misc(s0)->Ok_0.memory);
            self.advance();
            Ok(())
        } else if low == 0x65 {
            if i as usize + x + 1 > NMEM {
                return Err(Chip8Error::MemoryOutOfRange { pc: self.pc, index: i });
            }
            if !self.has_next() {
                return Err(Chip8Error::PcOutOfRange { pc: self.pc });
            }
            let mut j: usize = 0;
            while j <= x
                invariant
                    j <= x + 1,
                    x < NREG,
                    i + x + 1 <= NMEM,
                    i == s0.index,
                    s0.wf(),
                    self@ == (MachineState { reg: self.reg@, ..s0 }),
                    forall|r: int|
                        0 <= r < NREG ==> #[trigger] self.reg@[r] == if r < j {
                            s0.memory[i + r]
                        } else {
                            s0.reg[r]
                        },
                decreases x + 1 - j,
            {
                self.reg[j] = self.memory[i as usize + j];
                j = j + 1;
            }
            assert(self.reg@ =~= execute_misc(s0)->Ok_0.reg);
            self.advance();
            Ok(())
        } else {
            Err(Chip8Error::UnknownOpcode { opcode: op, pc: self.pc })
        }
    }

    /// Executes the instruction in `opcode` and moves the program counter on;
    /// `rnd` is the random byte that `CXNN` masks. On an error the machine is
    /// left as it was.
    pub fn executeOpcode(&mut self, rnd: u8) -> (r: Result<(), Chip8Error>)
        ensures
            outcome(old(self)@, final(self)@, r, execute(old(self)@, rnd)),
    {
        let op = self.opcode;
        proof {
            lemma_fields(op);
        }
        let x = ((op & 0x0F00u16) >> 8u16) as usize;
        let y = ((op & 0x00F0u16) >> 4u16) as usize;
        let n = op & 0x000Fu16;
        let nn = (op & 0x00FFu16) as u8;
        let nnn = op & 0x0FFFu16;
        let group = op & 0xF000u16;
        if group == 0x0000 {
            self.execute_system()
        } else if group == 0x1000 {
            self.jump(nnn as u32)
        } else if group == 0x2000 {
            self.execute_call()
        } else if group == 0x3000 {
            let cond = self.reg[x] == nn;
            self.skip(cond)
        } else if group == 0x4000 {
            let cond = self.reg[x] != nn;
            self.skip(cond)
        } else if group == 0x5000 && n == 0 {
            let cond = self.reg[x] == self.reg[y];
            self.skip(cond)
        } else if group == 0x6000 {
            if !self.has_next() {
                return Err(Chip8Error::PcOutOfRange { pc: self.pc });
            }
            self.reg[x] = nn;
            self.advance();
            Ok(())
        } else if group == 0x7000 {
            if !self.has_next() {
                return Err(Chip8Error::PcOutOfRange { pc: self.pc });
            }
            self.reg[x] = self.reg[x].wrapping_add(nn);
            self.advance();
            Ok(())
        } else if group == 0x8000 {
            self.execute_alu()
        } else if group == 0x9000 && n == 0 {
            let cond = self.reg[x] != self.reg[y];
            self.skip(cond)
        } else if group == 0xA000 {
            if !self.has_next() {
                return Err(Chip8Error::PcOutOfRange { pc: self.pc });
            }
            self.index = nnn;
            self.advance();
            Ok(())
        } else if group == 0xB000 {
            let target = nnn as u32 + self.reg[0] as u32;
            self.jump(target)
        } else if group == 0xC000 {
            if !self.has_next() {
                return Err(Chip8Error::PcOutOfRange { pc: self.pc });
            }
            self.reg[x] = nn & rnd;
            self.advance();
            Ok(())
        } else if group == 0xD000 {
            if self.index as usize + n as usize > NMEM {
                return Err(Chip8Error::MemoryOutOfRange { pc: self.pc, index: self.index });
            }
            if !self.has_next() {
                return Err(Chip8Error::PcOutOfRange { pc: self.pc });
            }
            self.draw();
            self.advance();
            Ok(())
        } else if group == 0xE000 {
            self.execute_key()
        } else if group == 0xF000 {
            self.execute_misc()
        } else {
            Err(Chip8Error::UnknownOpcode { opcode: op, pc: self.pc })
        }
    }

    /// One cycle with a given random byte: fetch, execute, tick the timers.
    /// On an error the machine is left as it was.
    pub fn step_cycle(&mut self, rnd: u8) -> (r: Result<(), Chip8Error>)
        ensures
            outcome(old(self)@, final(self)@, r, cycle(old(self)@, rnd)),
    {
        let saved = self.opcode;
        match self.fetchOpcode() {
            Err(e) => {
                return Err(e);
            },
            Ok(()) => {},
        }
        match self.executeOpcode(rnd) {
            Err(e) => {
                self.opcode = saved;
                return Err(e);
            },
            Ok(()) => {},
        }
        self.updateTimers();
        Ok(())
    }

    /// One cycle, with a fresh random byte for `CXNN`. What happens is what
    /// `step_cycle` does with some byte.
    pub fn emulateCycle(&mut self) -> (r: Result<(), Chip8Error>)
        ensures
            exists|rnd: u8| outcome(old(self)@, final(self)@, r, #[trigger] cycle(old(self)@, rnd)),
    {
        let rnd: u8 = rand::random::<u8>();
        self.step_cycle(rnd)
    }
}

} // verus!
