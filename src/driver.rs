use vstd::prelude::*;

use crate::machine::{Chip8, Chip8Error, MachineState};
use crate::semantics::cycle;

verus! {

/// What the user asked for since the last turn.
#[derive(Clone, Copy, Debug, PartialEq, Eq, Structural)]
pub enum Command {
    /// Stop running.
    Quit,
    /// Keep running.
    Continue,
}

/// What the driver must do after a turn.
#[derive(Clone, Copy, Debug, PartialEq, Eq, Structural)]
pub struct Turn {
    /// The frame buffer changed: show it.
    pub render: bool,
    /// The sound timer runs: sound the tone.
    pub beep: bool,
}

/// The turn that follows a successful cycle ending in `t`.
pub open spec fn turn_of(t: MachineState) -> Turn {
    Turn { render: t.draw_flag, beep: t.timer_sound != 0 }
}

impl Chip8 {
    /// One turn of a driver loop. On `Quit` nothing runs and `None` comes
    /// back. On `Continue` one cycle runs; then the draw flag is handed to the
    /// caller (and cleared) as `render`, and `beep` tells whether the sound
    /// timer runs. A failed cycle leaves the machine as it was.
    pub fn turn(&mut self, command: Command) -> (r: Result<Option<Turn>, Chip8Error>)
        ensures
            command == Command::Quit ==> r == Ok::<Option<Turn>, Chip8Error>(None) && final(self)@
                == old(self)@,
            command == Command::Continue ==> exists|rnd: u8|
                match #[trigger] cycle(old(self)@, rnd) {
                    Ok(t) => r == Ok::<Option<Turn>, Chip8Error>(Some(turn_of(t))) && final(self)@
                        == (MachineState { draw_flag: false, ..t }),
                    Err(e) => r == Err::<Option<Turn>, Chip8Error>(e) && final(self)@
                        == old(self)@,
                },
    {
        match command {
            Command::Quit => Ok(None),
            Command::Continue => {
                match self.emulateCycle() {
                    Err(e) => Err(e),
                    Ok(()) => {
                        let render = self.drawFlag;
                        self.drawFlag = false;
                        Ok(Some(Turn { render, beep: self.sound_active() }))
                    },
                }
            },
        }
    }
}

} // verus!
