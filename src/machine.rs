use vstd::prelude::*;

verus! {

/// Bytes of addressable memory.
pub const NMEM: usize = 4096;

/// General-purpose registers; the last one doubles as the flag register.
pub const NREG: usize = 16;

/// Width of the frame buffer in pixels.
pub const WIDTH: usize = 64;

/// Height of the frame buffer in pixels.
pub const HEIGHT: usize = 32;

/// Pixels of the frame buffer, one byte each, row-major from the top left.
pub const NPIXELS: usize = 64 * 32;

/// Return-address slots of the call stack.
pub const NSTACK: usize = 16;

/// Logical keys of the hexadecimal keypad.
pub const NKEYS: usize = 16;

/// Highest valid memory address.
pub const MAX_ADDRESS: u16 = 0xFFF;

/// Address at which programs are loaded and execution starts.
pub const PROGRAM_START: u16 = 0x200;

/// Largest program that fits between `PROGRAM_START` and the end of memory.
pub const MAX_PROGRAM_LEN: usize = 4096 - 512;

/// Index of the register that carries carry, borrow and collision flags.
pub const FLAG: usize = 15;

/// Bytes of the built-in font: five rows for each hexadecimal digit.
pub const FONT_LEN: usize = 80;

/// A fatal condition met while loading or running a program.
#[derive(Clone, Copy, Debug, PartialEq, Eq, Structural)]
pub enum Chip8Error {
    /// The instruction word matches no instruction.
    UnknownOpcode { opcode: u16, pc: u16 },
    /// The program counter is, or would move, outside memory.
    PcOutOfRange { pc: u16 },
    /// A call with every stack slot in use, or a stack pointer past the stack.
    StackOverflow { pc: u16 },
    /// A return with an empty stack.
    StackUnderflow { pc: u16 },
    /// An instruction would read or write memory past its end through the index register.
    MemoryOutOfRange { pc: u16, index: u16 },
    /// A key instruction names a key outside the keypad.
    KeyOutOfRange { pc: u16, key: u8 },
    /// A program longer than the space reserved for it.
    ProgramTooLarge { len: usize },
}

/// The whole machine state as mathematical values.
pub struct MachineState {
    pub draw_flag: bool,
    pub opcode: u16,
    pub memory: Seq<u8>,
    pub reg: Seq<u8>,
    pub index: u16,
    pub pc: u16,
    pub graphics: Seq<u8>,
    pub timer_delay: u8,
    pub timer_sound: u8,
    pub stack: Seq<u16>,
    pub sp: u16,
    pub key: Seq<u8>,
}

impl MachineState {
    /// Every sequence has the length of the array it models.
    pub open spec fn wf(self) -> bool {
        &&& self.memory.len() == NMEM
        &&& self.reg.len() == NREG
        &&& self.graphics.len() == NPIXELS
        &&& self.stack.len() == NSTACK
        &&& self.key.len() == NKEYS
    }
}

/// A CHIP-8 interpreter.
///
/// All state is public so that a driver can feed keys, read the frame buffer
/// and clear the draw flag, and so that a test can set up any state.
#[allow(non_snake_case)]
pub struct Chip8 {
    /// Raised when the frame buffer changed; the consumer clears it after rendering.
    pub drawFlag: bool,
    /// The instruction word fetched by the current cycle.
    pub opcode: u16,
    pub memory: [u8; NMEM],
    pub reg: [u8; NREG],
    pub index: u16,
    pub pc: u16,
    /// One byte per pixel, 0 or 1.
    pub graphics: [u8; NPIXELS],
    pub timer_delay: u8,
    pub timer_sound: u8,
    pub stack: [u16; NSTACK],
    pub sp: u16,
    /// One byte per key, nonzero while the key is pressed.
    pub key: [u8; NKEYS],
}

impl View for Chip8 {
    type V = MachineState;

    open spec fn view(&self) -> MachineState {
        MachineState {
            draw_flag: self.drawFlag,
            opcode: self.opcode,
            memory: self.memory@,
            reg: self.reg@,
            index: self.index,
            pc: self.pc,
            graphics: self.graphics@,
            timer_delay: self.timer_delay,
            timer_sound: self.timer_sound,
            stack: self.stack@,
            sp: self.sp,
            key: self.key@,
        }
    }
}

impl Chip8 {
    /// The view of a machine always has the lengths of its arrays.
    pub proof fn lemma_view_wf(&self)
        ensures
            self@.wf(),
    {
    }
}

} // verus!
