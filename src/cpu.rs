use vstd::prelude::*;

use vstd::utf8::encode_utf8;

use crate::fields::lemma_word;
use crate::machine::{
    Chip8, Chip8Error, MachineState, FONT_LEN, MAX_ADDRESS, MAX_PROGRAM_LEN, NKEYS, NMEM,
    NPIXELS, NREG, NSTACK, PROGRAM_START,
};
use crate::semantics::{
    fetch, font, goto, initial_memory, initial_state, load, outcome, skip_if, tick, with_program,
};

verus! {

/// The built-in font as an array.
fn font_set() -> (f: [u8; FONT_LEN])
    ensures
        f@ == font(),
{
    let f: [u8; FONT_LEN] = [
        0xF0, 0x90, 0x90, 0x90, 0xF0, 0x20, 0x60, 0x20, 0x20, 0x70,
        0xF0, 0x10, 0xF0, 0x80, 0xF0, 0xF0, 0x10, 0xF0, 0x10, 0xF0,
        0x90, 0x90, 0xF0, 0x10, 0x10, 0xF0, 0x80, 0xF0, 0x10, 0xF0,
        0xF0, 0x80, 0xF0, 0x90, 0xF0, 0xF0, 0x10, 0x20, 0x40, 0x40,
        0xF0, 0x90, 0xF0, 0x90, 0xF0, 0xF0, 0x90, 0xF0, 0x10, 0xF0,
        0xF0, 0x90, 0xF0, 0x90, 0x90, 0xE0, 0x90, 0xE0, 0x90, 0xE0,
        0xF0, 0x80, 0x80, 0x80, 0xF0, 0xE0, 0x90, 0x90, 0x90, 0xE0,
        0xF0, 0x80, 0xF0, 0x80, 0xF0, 0xF0, 0x80, 0xF0, 0x80, 0x80,
    ];
    assert(f@ =~= font());
    f
}

#[allow(non_snake_case)]
impl Chip8 {
    /// A fresh machine: font at address 0, all other state zero or false,
    /// execution starting at `PROGRAM_START`.
    pub fn new() -> (chip: Chip8)
        ensures
            chip@ == initial_state(),
    {
        let mut chip = Chip8 {
            drawFlag: false,
            opcode: 0,
            memory: [0u8; NMEM],
            reg: [0u8; NREG],
            index: 0,
            pc: PROGRAM_START,
            graphics: [0u8; NPIXELS],
            timer_delay: 0,
            timer_sound: 0,
            stack: [0u16; NSTACK],
            sp: 0,
            key: [0u8; NKEYS],
        };
        let glyphs = font_set();
        let ghost blank = chip@;
        let mut i: usize = 0;
        while i < FONT_LEN
            invariant
                i <= FONT_LEN,
                glyphs@ == font(),
                chip@ == (MachineState { memory: chip.memory@, ..blank }),
                forall|a: int|
                    0 <= a < NMEM ==> #[trigger] chip.memory@[a] == if a < i {
                        font()[a]
                    } else {
                        0u8
                    },
            decreases FONT_LEN - i,
        {
            chip.memory[i] = glyphs[i];
            i = i + 1;
        }
        assert(chip.memory@ =~= initial_memory());
        assert(chip.reg@ =~= initial_state().reg);
        assert(chip.graphics@ =~= initial_state().graphics);
        assert(chip.stack@ =~= initial_state().stack);
        assert(chip.key@ =~= initial_state().key);
        chip
    }

    /// Puts the machine back in the state that `new` builds.
    pub fn reset(&mut self)
        ensures
            final(self)@ == initial_state(),
    {
        *self = Chip8::new();
    }

    /// Copies `bytes` into memory from `PROGRAM_START` on; refused when they do not fit.
    fn load_bytes(&mut self, bytes: &[u8]) -> (r: Result<(), Chip8Error>)
        ensures
            outcome(old(self)@, final(self)@, r, load(old(self)@, bytes@)),
    {
        if bytes.len() > MAX_PROGRAM_LEN {
            return Err(Chip8Error::ProgramTooLarge { len: bytes.len() });
        }
        let ghost s0 = self@;
        let mut c: usize = 0;
        while c < bytes.len()
            invariant
                c <= bytes@.len() <= MAX_PROGRAM_LEN,
                self@ == (MachineState { memory: self.memory@, ..s0 }),
                forall|a: int|
                    0 <= a < NMEM ==> #[trigger] self.memory@[a] == if PROGRAM_START <= a
                        < PROGRAM_START + c {
                        bytes@[a - PROGRAM_START]
                    } else {
                        s0.memory[a]
                    },
            decreases bytes@.len() - c,
        {
            self.memory[c + 512] = bytes[c];
            c = c + 1;
        }
        assert(self.memory@ =~= with_program(s0, bytes@).memory);
        Ok(())
    }

    /// Loads a program image at `PROGRAM_START`. A program longer than
    /// `MAX_PROGRAM_LEN` is refused and nothing is written.
    pub fn loadHex(&mut self, game: &Vec<u8>) -> (r: Result<(), Chip8Error>)
        ensures
            outcome(old(self)@, final(self)@, r, load(old(self)@, game@)),
    {
        self.load_bytes(game.as_slice())
    }

    /// Loads the bytes of `game`'s text (its UTF-8 encoding) as a program, as `loadHex` does.
    pub fn loadGame(&mut self, game: String) -> (r: Result<(), Chip8Error>)
        ensures
            outcome(old(self)@, final(self)@, r, load(old(self)@, encode_utf8(game@))),
    {
        self.load_bytes(game.as_str().as_bytes())
    }

    /// Reads the big-endian word at `pc` into `opcode`; fails when it does not lie in memory.
    pub fn fetchOpcode(&mut self) -> (r: Result<(), Chip8Error>)
        ensures
            outcome(old(self)@, final(self)@, r, fetch(old(self)@)),
    {
        if self.pc >= MAX_ADDRESS {
            return Err(Chip8Error::PcOutOfRange { pc: self.pc });
        }
        let hi = self.memory[self.pc as usize] as u16;
        let lo = self.memory[(self.pc + 1) as usize] as u16;
        proof {
            lemma_word(hi, lo);
        }
        self.opcode = (hi << 8u16) | lo;
        Ok(())
    }

    /// Counts each nonzero timer down by one.
    pub fn updateTimers(&mut self)
        ensures
            final(self)@ == tick(old(self)@),
    {
        if self.timer_delay > 0 {
            self.timer_delay = self.timer_delay - 1;
        }
        if self.timer_sound > 0 {
            self.timer_sound = self.timer_sound - 1;
        }
    }

    /// Whether the sound timer is running, i.e. whether a tone should sound.
    pub fn sound_active(&self) -> (r: bool)
        ensures
            r == (self.timer_sound != 0),
    {
        self.timer_sound != 0
    }

    /// Replaces the whole key state: key `k` is pressed when `states[k]` holds.
    pub fn set_keys(&mut self, states: [bool; NKEYS])
        ensures
            final(self)@ == (MachineState {
                key: Seq::new(NKEYS as nat, |k: int| if states@[k] { 1u8 } else { 0u8 }),
                ..old(self)@
            }),
    {
        let ghost s0 = self@;
        let mut k: usize = 0;
        while k < NKEYS
            invariant
                k <= NKEYS,
                self@ == (MachineState { key: self.key@, ..s0 }),
                forall|j: int|
                    0 <= j < k ==> #[trigger] self.key@[j] == if states@[j] {
                        1u8
                    } else {
                        0u8
                    },
            decreases NKEYS - k,
        {
            self.key[k] = if states[k] { 1 } else { 0 };
            k = k + 1;
        }
        assert(self.key@ =~= Seq::new(NKEYS as nat, |k: int| if states@[k] { 1u8 } else { 0u8 }));
    }

    /// Moves the program counter to `target`, which must lie in memory.
    pub(crate) fn jump(&mut self, target: u32) -> (r: Result<(), Chip8Error>)
        ensures
            outcome(old(self)@, final(self)@, r, goto(old(self)@, target as int)),
    {
        if target > MAX_ADDRESS as u32 {
            return Err(Chip8Error::PcOutOfRange { pc: self.pc });
        }
        self.pc = target as u16;
        Ok(())
    }

    /// Skips the next instruction when `cond` holds, else moves on to it.
    pub(crate) fn skip(&mut self, cond: bool) -> (r: Result<(), Chip8Error>)
        ensures
            outcome(old(self)@, final(self)@, r, skip_if(old(self)@, cond)),
    {
        let target: u32 = self.pc as u32 + if cond { 4 } else { 2 };
        self.jump(target)
    }
}

} // verus!
