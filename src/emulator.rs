//! The decisions of the emulation thread: how the commands of the user
//! interface, the CPU clock and the timers clock change the machine, and
//! which messages go back to the user interface. The thread itself (its
//! clocks, its channels) runs these steps in a loop.
use vstd::prelude::*;

use crate::display::Display;
use crate::keypad::{Keystate, KEY_COUNT};
use crate::vm::{
    cycle_state, end_wait_state, faults, lemma_runnable_preserved, program_finished, reset_state,
    runnable, Chip8,
    MachineState,
};

verus! {

/// Stands for "no key" where a key index is remembered.
pub const NO_KEY: usize = 0xFF;

/// A command for the virtual machine, sent by the user interface.
#[derive(Clone, Copy, Debug, PartialEq, Eq, Structural)]
pub enum Chip8VMCommand {
    /// Set the emulation state (running for true, paused for false).
    UpdateRunStatus(bool),
    /// The key at the given index changed state.
    UpdateKeyStatus(usize, Keystate),
    /// Reset the virtual machine to its default state.
    Reset,
    /// Shut the virtual machine down.
    Quit,
}

/// A message for the user interface, sent by the virtual machine.
#[derive(Clone, Copy)]
pub enum Chip8UICommand {
    /// Whether a tone should sound (the sound timer is running).
    UpdateBeepingStatus(bool),
    /// A copy of the screen, sent when it changed.
    UpdateDisplay(Display),
    /// The emulation is over: a `Quit` command came, or the program ended.
    Finished,
}

/// Whether `m` is a screen copy whose pixel grid is `g`.
pub open spec fn is_snapshot_of(m: Option<Chip8UICommand>, g: Seq<Seq<u8>>) -> bool {
    match m {
        Some(Chip8UICommand::UpdateDisplay(d)) => d.grid() == g,
        _ => false,
    }
}

/// Whether `m` is the end-of-emulation message.
pub open spec fn is_finished(m: Option<Chip8UICommand>) -> bool {
    match m {
        Some(Chip8UICommand::Finished) => true,
        _ => false,
    }
}

/// Whether `m` is a change of the tone to `on`.
pub open spec fn is_beep(m: Option<Chip8UICommand>, on: bool) -> bool {
    match m {
        Some(Chip8UICommand::UpdateBeepingStatus(b)) => b == on,
        _ => false,
    }
}

/// The machine after its keypad records `state` for key `index`.
pub open spec fn with_key(s: MachineState, index: usize, state: Keystate) -> MachineState {
    MachineState { keys: s.keys.update(index as int, state.is_down()), ..s }
}

/// The timers after one tick of the 60 Hz clock: each counts down to zero.
pub open spec fn tick_timers(s: MachineState) -> MachineState {
    MachineState {
        delay_timer: if s.delay_timer > 0 { (s.delay_timer - 1) as u8 } else { 0 },
        sound_timer: if s.sound_timer > 0 { (s.sound_timer - 1) as u8 } else { 0 },
        ..s
    }
}

/// The state of the emulation thread, besides the machine.
pub struct VmLoopState {
    /// Whether the emulation runs (else it is paused).
    pub running: bool,
    /// Whether a tone sounds, as last told to the user interface.
    pub beeping: bool,
    /// Whether the machine waited for a key after the last CPU step.
    pub waiting_for_key: bool,
    /// The key that ended the last wait for a key, or `NO_KEY` once a key
    /// was released; the same key cannot end two waits in a row while held.
    pub wait_for_key_last_pressed: usize,
}

impl VmLoopState {
    /// A running emulation, silent, not waiting for a key.
    pub fn new() -> (r: VmLoopState)
        ensures
            r.running,
            !r.beeping,
            !r.waiting_for_key,
            r.wait_for_key_last_pressed == NO_KEY,
    {
        VmLoopState { running: true, beeping: false, waiting_for_key: false, wait_for_key_last_pressed: NO_KEY }
    }

    /// Apply a command of the user interface. A key press while the machine
    /// waits for a key ends the wait, unless it is the key that ended the
    /// previous one; otherwise key changes go to the keypad, but for a key
    /// release while waiting, which only forgets the last key. `Quit` stops
    /// the emulation and returns the `Finished` message; no other command
    /// returns a message.
    pub fn handle_command(&mut self, vm: &mut Chip8, cmd: Chip8VMCommand) -> (r: Option<Chip8UICommand>)
        requires
            runnable(old(vm)@),
            cmd matches Chip8VMCommand::UpdateKeyStatus(index, _) ==> index < KEY_COUNT,
        ensures
            runnable(final(vm)@),
            final(self).beeping == old(self).beeping,
            final(self).waiting_for_key == old(self).waiting_for_key,
            match cmd {
                Chip8VMCommand::UpdateRunStatus(run) => {
                    &&& final(self).running == run
                    &&& final(self).wait_for_key_last_pressed == old(self).wait_for_key_last_pressed
                    &&& final(vm)@ == old(vm)@
                    &&& r is None
                },
                Chip8VMCommand::UpdateKeyStatus(index, Keystate::Pressed) => {
                    let ends_wait = old(self).waiting_for_key && index != old(self).wait_for_key_last_pressed;
                    &&& final(self).running == old(self).running
                    &&& ends_wait ==> final(vm)@ == end_wait_state(old(vm)@, index)
                        && final(self).wait_for_key_last_pressed == index
                    &&& !ends_wait ==> final(vm)@ == with_key(old(vm)@, index, Keystate::Pressed)
                        && final(self).wait_for_key_last_pressed == old(self).wait_for_key_last_pressed
                    &&& r is None
                },
                Chip8VMCommand::UpdateKeyStatus(index, Keystate::Released) => {
                    &&& final(self).running == old(self).running
                    &&& final(self).wait_for_key_last_pressed == NO_KEY
                    &&& old(self).waiting_for_key ==> final(vm)@ == old(vm)@
                    &&& !old(self).waiting_for_key ==> final(vm)@ == with_key(old(vm)@, index, Keystate::Released)
                    &&& r is None
                },
                Chip8VMCommand::Reset => {
                    &&& final(self).running == old(self).running
                    &&& final(self).wait_for_key_last_pressed == old(self).wait_for_key_last_pressed
                    &&& final(vm)@ == reset_state(old(vm)@)
                    &&& r is None
                },
                Chip8VMCommand::Quit => {
                    &&& !final(self).running
                    &&& final(self).wait_for_key_last_pressed == old(self).wait_for_key_last_pressed
                    &&& final(vm)@ == old(vm)@
                    &&& is_finished(r)
                },
            },
    {
        proof {
            lemma_runnable_preserved(vm@, 0, 0, 0, false);
            vm.keypad.lemma_view_len();
        }
        match cmd {
            Chip8VMCommand::UpdateRunStatus(run) => {
                self.running = run;
                None
            },
            Chip8VMCommand::UpdateKeyStatus(index, state) => {
                match state {
                    Keystate::Pressed => {
                        if self.waiting_for_key && index != self.wait_for_key_last_pressed {
                            proof {
                                lemma_runnable_preserved(vm@, 0, index, 0, false);
                            }
                            vm.end_wait_for_key(index);
                            self.wait_for_key_last_pressed = index;
                        } else {
                            proof {
                                lemma_runnable_preserved(vm@, 0, 0, index as int, true);
                            }
                            vm.keypad.set_key_state(index, state);
                        }
                    },
                    Keystate::Released => {
                        self.wait_for_key_last_pressed = NO_KEY;
                        if !self.waiting_for_key {
                            proof {
                                lemma_runnable_preserved(vm@, 0, 0, index as int, false);
                            }
                            vm.keypad.set_key_state(index, state);
                        }
                    },
                }
                None
            },
            Chip8VMCommand::Reset => {
                vm.reset();
                None
            },
            Chip8VMCommand::Quit => {
                self.running = false;
                Some(Chip8UICommand::Finished)
            },
        }
    }

    /// One tick of the CPU clock. While the emulation runs and the machine
    /// does not wait for a key, the machine runs one cycle; then `Finished`
    /// is returned if the program is done, else a copy of the screen if it
    /// changed, after which the screen is marked rendered. Last, whether the
    /// machine now waits for a key is remembered.
    pub fn cpu_tick(&mut self, vm: &mut Chip8) -> (r: Option<Chip8UICommand>)
        requires
            runnable(old(vm)@),
        ensures
            runnable(final(vm)@),
            final(self).running == old(self).running,
            final(self).beeping == old(self).beeping,
            final(self).wait_for_key_last_pressed == old(self).wait_for_key_last_pressed,
            final(self).waiting_for_key == final(vm)@.waiting,
            !(old(self).running && !old(self).waiting_for_key) ==> final(vm)@ == old(vm)@ && r is None,
            old(self).running && !old(self).waiting_for_key && (program_finished(old(vm)@) || faults(
                old(vm)@,
            )) ==> final(vm)@ == old(vm)@ && is_finished(r),
            old(self).running && !old(self).waiting_for_key && !program_finished(old(vm)@) && !faults(
                old(vm)@,
            ) ==> exists|rnd: u8|
                {
                    let c = #[trigger] cycle_state(old(vm)@, rnd);
                    &&& c.dirty ==> final(vm)@ == (MachineState { dirty: false, ..c }) && is_snapshot_of(
                        r,
                        c.grid,
                    )
                    &&& !c.dirty ==> final(vm)@ == c && r is None
                },
    {
        let mut r = None;
        if self.running && !self.waiting_for_key {
            let ghost before = vm@;
            let finished = vm.emulate_cycle();
            proof {
                let rnd = choose|rnd: u8| vm@ == cycle_state(before, rnd);
                lemma_runnable_preserved(before, rnd, 0, 0, false);
            }
            if finished {
                r = Some(Chip8UICommand::Finished);
            } else if vm.display.dirty {
                r = Some(Chip8UICommand::UpdateDisplay(vm.display));
                vm.display.dirty = false;
            }
        }
        self.waiting_for_key = vm.is_waiting_for_key();
        r
    }

    /// One tick of the 60 Hz timers clock. While the emulation runs, both
    /// timers count down towards zero; when the sound timer counts down and
    /// whether it is still running differs from whether a tone sounds, the
    /// tone is switched and the change returned.
    pub fn timer_tick(&mut self, vm: &mut Chip8) -> (r: Option<Chip8UICommand>)
        requires
            runnable(old(vm)@),
        ensures
            runnable(final(vm)@),
            final(self).running == old(self).running,
            final(self).waiting_for_key == old(self).waiting_for_key,
            final(self).wait_for_key_last_pressed == old(self).wait_for_key_last_pressed,
            !old(self).running ==> final(vm)@ == old(vm)@ && final(self).beeping == old(self).beeping
                && r is None,
            old(self).running ==> final(vm)@ == tick_timers(old(vm)@),
            ({
                let switch = old(self).running && old(vm)@.sound_timer > 0 && old(self).beeping != (
                old(vm)@.sound_timer > 1);
                &&& switch ==> final(self).beeping == !old(self).beeping && is_beep(r, !old(self).beeping)
                &&& !switch ==> final(self).beeping == old(self).beeping && r is None
            }),
    {
        let mut r = None;
        if self.running {
            if vm.delay_timer > 0 {
                vm.delay_timer = vm.delay_timer - 1;
            }
            if vm.sound_timer > 0 {
                vm.sound_timer = vm.sound_timer - 1;
                if self.beeping != (vm.sound_timer > 0) {
                    self.beeping = !self.beeping;
                    r = Some(Chip8UICommand::UpdateBeepingStatus(self.beeping));
                }
            }
        }
        r
    }
}

} // verus!
