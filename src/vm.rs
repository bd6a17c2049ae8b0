//! The interpreter core: memory, registers, stack, timers, and the
//! instruction set.
use vstd::prelude::*;

use crate::display::{collides_spec, draw_spec, Display, DISPLAY_HEIGHT, DISPLAY_WIDTH};
use crate::keypad::{Keypad, Keystate, KEY_COUNT};
use vstd::slice::slice_subrange;

verus! {

/// The default CPU clock, in Hz.
pub const CPU_CLOCK: u32 = 600;

/// The timers clock, in Hz.
pub const TIMERS_CLOCK: u32 = 60;

/// The index of the register used as carry, borrow and collision flag.
pub const FLAG: usize = 15;

/// The number of levels of the return-address stack.
pub const STACK_SIZE: usize = 16;

/// The size of the memory, in bytes.
pub const MEMORY_SIZE: usize = 4096;

/// The address at which programs are loaded and execution starts.
pub const PROGRAM_START: usize = 0x200;

/// The number of bytes of the built-in font: sixteen glyphs of five bytes.
pub const FONT_SIZE: usize = 80;

/// The built-in font: each hexadecimal digit is a 4x5 sprite of five bytes,
/// of which only the high nibble is used. Digit `d` starts at `d * 5`.
pub const FONT_SET: [u8; FONT_SIZE] = [
    0xF0, 0x90, 0x90, 0x90, 0xF0, // 0
    0x20, 0x60, 0x20, 0x20, 0x70, // 1
    0xF0, 0x10, 0xF0, 0x80, 0xF0, // 2
    0xF0, 0x10, 0xF0, 0x10, 0xF0, // 3
    0x90, 0x90, 0xF0, 0x10, 0x10, // 4
    0xF0, 0x80, 0xF0, 0x10, 0xF0, // 5
    0xF0, 0x80, 0xF0, 0x90, 0xF0, // 6
    0xF0, 0x10, 0x20, 0x40, 0x40, // 7
    0xF0, 0x90, 0xF0, 0x90, 0xF0, // 8
    0xF0, 0x90, 0xF0, 0x10, 0xF0, // 9
    0xF0, 0x90, 0xF0, 0x90, 0x90, // A
    0xE0, 0x90, 0xE0, 0x90, 0xE0, // B
    0xF0, 0x80, 0x80, 0x80, 0xF0, // C
    0xE0, 0x90, 0x90, 0x90, 0xE0, // D
    0xF0, 0x80, 0xF0, 0x80, 0xF0, // E
    0xF0, 0x80, 0xF0, 0x80, 0x80, // F
];

/// The whole state of the machine, as mathematical values.
pub ghost struct MachineState {
    pub opcode: u16,
    pub memory: Seq<u8>,
    pub v: Seq<u8>,
    pub i: int,
    pub pc: int,
    pub stack: Seq<u16>,
    pub sp: int,
    pub delay_timer: u8,
    pub sound_timer: u8,
    pub grid: Seq<Seq<u8>>,
    pub dirty: bool,
    pub keys: Seq<bool>,
    pub waiting: bool,
    pub target: u8,
    pub shift_vy: bool,
}

/// Memory as it is after power-on: the font, then zeros.
pub open spec fn initial_memory() -> Seq<u8> {
    Seq::new(MEMORY_SIZE as nat, |k: int| if k < FONT_SIZE { FONT_SET@[k] } else { 0u8 })
}

/// A black screen.
pub open spec fn blank_grid() -> Seq<Seq<u8>> {
    Seq::new(DISPLAY_HEIGHT as nat, |y: int| Seq::new(DISPLAY_WIDTH as nat, |x: int| 0u8))
}

/// The highest nibble of an opcode.
pub open spec fn op_a(op: u16) -> int {
    op as int / 0x1000
}

/// The second nibble of an opcode: the register X.
pub open spec fn op_x(op: u16) -> int {
    (op as int / 0x100) % 0x10
}

/// The third nibble of an opcode: the register Y.
pub open spec fn op_y(op: u16) -> int {
    (op as int / 0x10) % 0x10
}

/// The lowest nibble of an opcode.
pub open spec fn op_n(op: u16) -> int {
    op as int % 0x10
}

/// The low byte of an opcode.
pub open spec fn op_nn(op: u16) -> u8 {
    (op as int % 0x100) as u8
}

/// The low twelve bits of an opcode: an address.
pub open spec fn op_nnn(op: u16) -> int {
    op as int % 0x1000
}

/// An integer taken modulo 256, as a byte.
pub open spec fn wrap8(n: int) -> u8 {
    (n % 0x100) as u8
}

/// `1` if `b` holds, else `0`.
pub open spec fn flag_of(b: bool) -> u8 {
    if b {
        1u8
    } else {
        0u8
    }
}

/// The state after an instruction that only moves on to the next one.
pub open spec fn advance(s: MachineState) -> MachineState {
    MachineState { pc: s.pc + 2, ..s }
}

/// The state after a skip instruction: the next instruction is skipped
/// when `cond` holds.
pub open spec fn skip_if(s: MachineState, cond: bool) -> MachineState {
    MachineState { pc: s.pc + if cond { 4int } else { 2int }, ..s }
}

/// The state after VX is set to `val`.
pub open spec fn set_reg(s: MachineState, x: int, val: u8) -> MachineState {
    MachineState { v: s.v.update(x, val), pc: s.pc + 2, ..s }
}

/// The state after VX is set to `val` and then VF to `flag`.
pub open spec fn set_reg_then_flag(s: MachineState, x: int, val: u8, flag: u8) -> MachineState {
    MachineState { v: s.v.update(x, val).update(FLAG as int, flag), pc: s.pc + 2, ..s }
}

/// The state after VF is set to `flag` and then VX to `val`.
pub open spec fn set_flag_then_reg(s: MachineState, x: int, flag: u8, val: u8) -> MachineState {
    MachineState { v: s.v.update(FLAG as int, flag).update(x, val), pc: s.pc + 2, ..s }
}

/// The register that the shift instructions read.
pub open spec fn shift_source(s: MachineState, x: int, y: int) -> int {
    if s.shift_vy {
        y
    } else {
        x
    }
}

/// The sprite of `n` rows that DXYN draws: memory from I on.
pub open spec fn sprite_at(s: MachineState, n: int) -> Seq<u8> {
    s.memory.subrange(s.i, s.i + n)
}

/// The state after DXYN: the sprite drawn at (VX, VY), VF the collision.
pub open spec fn draw_state(s: MachineState, x: int, y: int, n: int) -> MachineState {
    let sprite = sprite_at(s, n);
    let (vx, vy) = (s.v[x] as int, s.v[y] as int);
    MachineState {
        grid: draw_spec(s.grid, vx, vy, sprite),
        dirty: true,
        v: s.v.update(FLAG as int, flag_of(collides_spec(s.grid, vx, vy, sprite))),
        pc: s.pc + 2,
        ..s
    }
}

/// The three decimal digits of a byte, hundreds first.
pub open spec fn bcd_digits(b: u8) -> Seq<u8> {
    seq![b / 100, (b / 10) % 10, b % 10]
}

/// The state after FX33: the decimal digits of VX stored from I on.
pub open spec fn bcd_state(s: MachineState, x: int) -> MachineState {
    let d = bcd_digits(s.v[x]);
    MachineState {
        memory: s.memory.update(s.i, d[0]).update(s.i + 1, d[1]).update(s.i + 2, d[2]),
        pc: s.pc + 2,
        ..s
    }
}

/// The state after FX55: V0 to VX stored from I on, I moved past them.
pub open spec fn store_regs_state(s: MachineState, x: int) -> MachineState {
    MachineState {
        memory: Seq::new(
            s.memory.len(),
            |k: int| if s.i <= k <= s.i + x { s.v[k - s.i] } else { s.memory[k] },
        ),
        i: s.i + x + 1,
        pc: s.pc + 2,
        ..s
    }
}

/// The state after FX65: V0 to VX loaded from I on, I moved past them.
pub open spec fn load_regs_state(s: MachineState, x: int) -> MachineState {
    MachineState {
        v: Seq::new(s.v.len(), |k: int| if k <= x { s.memory[s.i + k] } else { s.v[k] }),
        i: s.i + x + 1,
        pc: s.pc + 2,
        ..s
    }
}

/// The effect of the arithmetic and logic instructions 8XYN.
pub open spec fn alu_state(s: MachineState, x: int, y: int, n: int) -> MachineState {
    let (vx, vy) = (s.v[x] as int, s.v[y] as int);
    if n == 0x0 {
        set_reg(s, x, s.v[y])
    } else if n == 0x1 {
        set_reg(s, x, s.v[x] | s.v[y])
    } else if n == 0x2 {
        set_reg(s, x, s.v[x] & s.v[y])
    } else if n == 0x3 {
        set_reg(s, x, s.v[x] ^ s.v[y])
    } else if n == 0x4 {
        set_reg_then_flag(s, x, wrap8(vx + vy), flag_of(vx + vy > 255))
    } else if n == 0x5 {
        set_reg_then_flag(s, x, wrap8(vx - vy), flag_of(vx < vy))
    } else if n == 0x6 {
        let b = s.v[shift_source(s, x, y)];
        set_flag_then_reg(s, x, b & 0x01, b / 2)
    } else if n == 0x7 {
        set_reg_then_flag(s, x, wrap8(vy - vx), flag_of(vy < vx))
    } else if n == 0xE {
        let b = s.v[shift_source(s, x, y)];
        set_flag_then_reg(s, x, b & 0x80, wrap8(b * 2))
    } else {
        advance(s)
    }
}

/// The effect of the instructions FXNN, where `lo` is NN.
pub open spec fn misc_state(s: MachineState, x: int, lo: u8) -> MachineState {
    if lo == 0x07 {
        set_reg(s, x, s.delay_timer)
    } else if lo == 0x0A {
        MachineState { waiting: true, target: x as u8, ..s }
    } else if lo == 0x15 {
        MachineState { delay_timer: s.v[x], pc: s.pc + 2, ..s }
    } else if lo == 0x18 {
        MachineState { sound_timer: s.v[x], pc: s.pc + 2, ..s }
    } else if lo == 0x1E {
        MachineState { i: s.i + s.v[x], pc: s.pc + 2, ..s }
    } else if lo == 0x29 {
        MachineState { i: s.v[x] * 5, pc: s.pc + 2, ..s }
    } else if lo == 0x33 {
        bcd_state(s, x)
    } else if lo == 0x55 {
        store_regs_state(s, x)
    } else if lo == 0x65 {
        load_regs_state(s, x)
    } else {
        advance(s)
    }
}

/// The state after the machine executes `op`; `rnd` is the random byte
/// that CXNN draws.
pub open spec fn next_state(s: MachineState, op: u16, rnd: u8) -> MachineState {
    let (a, x, y, n) = (op_a(op), op_x(op), op_y(op), op_n(op));
    let (nn, nnn) = (op_nn(op), op_nnn(op));
    if op == 0x00E0 {
        MachineState { grid: blank_grid(), dirty: true, pc: s.pc + 2, ..s }
    } else if op == 0x00EE {
        MachineState { sp: s.sp - 1, pc: s.stack[s.sp - 1] + 2, ..s }
    } else if a == 0x1 {
        MachineState { pc: nnn, ..s }
    } else if a == 0x2 {
        MachineState { stack: s.stack.update(s.sp, s.pc as u16), sp: s.sp + 1, pc: nnn, ..s }
    } else if a == 0x3 {
        skip_if(s, s.v[x] == nn)
    } else if a == 0x4 {
        skip_if(s, s.v[x] != nn)
    } else if a == 0x5 && n == 0 {
        skip_if(s, s.v[x] == s.v[y])
    } else if a == 0x6 {
        set_reg(s, x, nn)
    } else if a == 0x7 {
        set_reg(s, x, wrap8(s.v[x] + nn))
    } else if a == 0x8 {
        alu_state(s, x, y, n)
    } else if a == 0x9 && n == 0 {
        skip_if(s, s.v[x] != s.v[y])
    } else if a == 0xA {
        MachineState { i: nnn, pc: s.pc + 2, ..s }
    } else if a == 0xB {
        MachineState { pc: nnn + s.v[0], ..s }
    } else if a == 0xC {
        set_reg(s, x, rnd & nn)
    } else if a == 0xD {
        draw_state(s, x, y, n)
    } else if a == 0xE && nn == 0x9E {
        skip_if(s, s.keys[s.v[x] as int])
    } else if a == 0xE && nn == 0xA1 {
        skip_if(s, !s.keys[s.v[x] as int])
    } else if a == 0xF {
        misc_state(s, x, nn)
    } else {
        advance(s)
    }
}

/// Whether the machine can execute `op` without leaving its memory, its
/// registers, its stack or its keypad, and without overflowing the program
/// counter or the index register.
pub open spec fn can_execute(s: MachineState, op: u16) -> bool {
    let (a, x, n, nn) = (op_a(op), op_x(op), op_n(op), op_nn(op));
    &&& s.pc + 4 <= usize::MAX
    &&& s.i + 0x100 <= usize::MAX
    &&& op == 0x00EE ==> 1 <= s.sp <= STACK_SIZE
    &&& a == 0x2 ==> 0 <= s.sp < STACK_SIZE
    &&& a == 0xD ==> s.i + n <= MEMORY_SIZE
    &&& (a == 0xE && (nn == 0x9E || nn == 0xA1)) ==> s.v[x] < KEY_COUNT
    &&& (a == 0xF && nn == 0x33) ==> s.i + 3 <= MEMORY_SIZE
    &&& (a == 0xF && (nn == 0x55 || nn == 0x65)) ==> s.i + x + 1 <= MEMORY_SIZE
}

/// The opcode stored at the program counter (big-endian).
pub open spec fn fetch(s: MachineState) -> u16 {
    (s.memory[s.pc] as int * 0x100 + s.memory[s.pc + 1] as int) as u16
}

/// Whether the program counter leaves no room for another instruction.
pub open spec fn program_finished(s: MachineState) -> bool {
    s.pc >= MEMORY_SIZE - 2
}

/// Whether the instruction at the program counter would leave the memory,
/// the stack or the keypad, or overflow the program counter or the index
/// register.
pub open spec fn faults(s: MachineState) -> bool {
    !program_finished(s) && !s.waiting && !can_execute(s, fetch(s))
}

/// The state after one CPU cycle: nothing happens once the program is
/// finished, while the machine waits for a key, or on a fault; otherwise
/// the opcode at the program counter is fetched and executed.
pub open spec fn cycle_state(s: MachineState, rnd: u8) -> MachineState {
    if program_finished(s) || s.waiting || faults(s) {
        s
    } else {
        next_state(MachineState { opcode: fetch(s), ..s }, fetch(s), rnd)
    }
}

/// The state after the key `key` ends a wait for a key press; nothing
/// happens when the machine is not waiting.
pub open spec fn end_wait_state(s: MachineState, key: usize) -> MachineState {
    if s.waiting {
        MachineState { v: s.v.update(s.target as int, key as u8), waiting: false, pc: s.pc + 2, ..s }
    } else {
        s
    }
}

/// The state after a reset: all is as after power-on, but for the memory
/// (which keeps the program) and the shift option.
pub open spec fn reset_state(s: MachineState) -> MachineState {
    MachineState {
        opcode: 0,
        v: Seq::new(16, |k: int| 0u8),
        i: 0,
        pc: PROGRAM_START as int,
        stack: Seq::new(STACK_SIZE as nat, |k: int| 0u16),
        sp: 0,
        delay_timer: 0,
        sound_timer: 0,
        grid: blank_grid(),
        dirty: true,
        keys: Seq::new(KEY_COUNT as nat, |k: int| false),
        waiting: false,
        target: 0,
        ..s
    }
}

/// The reason a program cannot be loaded.
#[derive(Clone, Copy, Debug, PartialEq, Eq, Structural)]
pub enum LoadError {
    /// The program does not fit between the program counter and the end of
    /// memory.
    RomTooLarge { size: usize, available: usize },
}

/// Relies on `rand::random::<u8>`: a byte drawn from the thread-local
/// generator. Nothing is promised of its value.
#[verifier::external_body]
fn random_byte() -> (r: u8) {
    rand::random::<u8>()
}

/// The CHIP-8 virtual machine.
pub struct Chip8 {
    /// The opcode fetched last.
    pub opcode: u16,
    /// The 4096 bytes of memory.
    pub memory: [u8; MEMORY_SIZE],
    /// The registers V0 to VF; VF is the flag register.
    pub v: [u8; 16],
    /// The index register.
    pub i: usize,
    /// The program counter.
    pub pc: usize,
    /// The return-address stack.
    pub stack: [u16; STACK_SIZE],
    /// The stack pointer: the next free slot of `stack`.
    pub sp: usize,
    /// The delay timer, counted down at 60 Hz.
    pub delay_timer: u8,
    /// The sound timer, counted down at 60 Hz; a tone sounds while it is
    /// not zero.
    pub sound_timer: u8,
    /// The screen.
    pub display: Display,
    /// The keypad.
    pub keypad: Keypad,
    /// Whether the machine waits for a key press, and the register that
    /// will receive the key.
    pub wait_for_key: (bool, u8),
    /// Whether 8XY6 and 8XYE shift VY into VX (as the first interpreters
    /// did) rather than VX in place.
    pub shift_op_use_vy: bool,
}

impl View for Chip8 {
    type V = MachineState;

    open spec fn view(&self) -> MachineState {
        MachineState {
            opcode: self.opcode,
            memory: self.memory@,
            v: self.v@,
            i: self.i as int,
            pc: self.pc as int,
            stack: self.stack@,
            sp: self.sp as int,
            delay_timer: self.delay_timer,
            sound_timer: self.sound_timer,
            grid: self.display.grid(),
            dirty: self.display.dirty,
            keys: self.keypad@,
            waiting: self.wait_for_key.0,
            target: self.wait_for_key.1,
            shift_vy: self.shift_op_use_vy,
        }
    }
}

impl Chip8 {
    /// A machine with zeroed state, the font loaded, and the program counter
    /// at the start of the program space.
    pub fn new() -> (r: Chip8)
        ensures
            r@ == (MachineState {
                opcode: 0,
                memory: initial_memory(),
                v: Seq::new(16, |k: int| 0u8),
                i: 0,
                pc: PROGRAM_START as int,
                stack: Seq::new(STACK_SIZE as nat, |k: int| 0u16),
                sp: 0,
                delay_timer: 0,
                sound_timer: 0,
                grid: blank_grid(),
                dirty: true,
                keys: Seq::new(KEY_COUNT as nat, |k: int| false),
                waiting: false,
                target: 0,
                shift_vy: false,
            }),
            runnable(r@),
    {
        let mut chip8 = Chip8 {
            opcode: 0u16,
            memory: [0u8; MEMORY_SIZE],
            v: [0u8; 16],
            i: 0usize,
            pc: 0usize,
            stack: [0u16; STACK_SIZE],
            sp: 0usize,
            delay_timer: 0u8,
            sound_timer: 0u8,
            display: Display::new(),
            keypad: Keypad::new(),
            wait_for_key: (false, 0u8),
            shift_op_use_vy: false,
        };
        let mut k: usize = 0;
        while k < FONT_SIZE
            invariant
                k <= FONT_SIZE,
                forall|m: int| 0 <= m < k ==> chip8.memory@[m] == FONT_SET@[m],
                forall|m: int| k <= m < MEMORY_SIZE ==> chip8.memory@[m] == 0u8,
                chip8.v@ == Seq::new(16, |k: int| 0u8),
                chip8.stack@ == Seq::new(STACK_SIZE as nat, |k: int| 0u16),
                chip8.display.grid() == blank_grid(),
                chip8.display.dirty,
                chip8.keypad@ == Seq::new(KEY_COUNT as nat, |k: int| false),
                chip8.opcode == 0 && chip8.i == 0 && chip8.sp == 0 && chip8.delay_timer == 0,
                chip8.sound_timer == 0 && chip8.wait_for_key == (false, 0u8) && !chip8.shift_op_use_vy,
            decreases FONT_SIZE - k,
        {
            chip8.memory[k] = FONT_SET[k];
            k = k + 1;
        }
        chip8.pc = PROGRAM_START;
        assert(chip8.memory@ =~= initial_memory());
        chip8
    }

    /// Reinitialize the machine; the memory, and so the loaded program, is
    /// kept, and so is the shift option.
    pub fn reset(&mut self)
        ensures
            final(self)@ == reset_state(old(self)@),
    {
        self.opcode = 0u16;
        self.v = [0u8; 16];
        self.i = 0usize;
        self.pc = PROGRAM_START;
        self.stack = [0u16; STACK_SIZE];
        self.sp = 0usize;
        self.delay_timer = 0u8;
        self.sound_timer = 0u8;
        self.display = Display::new();
        self.keypad = Keypad::new();
        self.wait_for_key = (false, 0u8);
        assert(self.v@ =~= Seq::new(16, |k: int| 0u8));
        assert(self.stack@ =~= Seq::new(STACK_SIZE as nat, |k: int| 0u16));
    }

    /// Choose whether 8XY6 and 8XYE shift VY into VX (`true`) or VX in place
    /// (`false`).
    pub fn should_shift_op_use_vy(&mut self, b: bool)
        ensures
            final(self)@ == (MachineState { shift_vy: b, ..old(self)@ }),
    {
        self.shift_op_use_vy = b;
    }

    /// Whether the machine waits for a key press.
    pub fn is_waiting_for_key(&self) -> (r: bool)
        ensures
            r == self@.waiting,
    {
        self.wait_for_key.0
    }

    /// Tell the machine waiting for a key press that the key `key_index` was
    /// pressed: it is stored in the target register and execution moves on.
    /// When the machine is not waiting, nothing happens.
    pub fn end_wait_for_key(&mut self, key_index: usize)
        requires
            old(self)@.waiting ==> old(self)@.target < 16 && old(self).pc + 2 <= usize::MAX,
        ensures
            final(self)@ == end_wait_state(old(self)@, key_index),
    {
        if !self.is_waiting_for_key() {
            return;
        }
        self.v[self.wait_for_key.1 as usize] = key_index as u8;
        self.wait_for_key.0 = false;
        self.pc = self.pc + 2;
    }

    /// Write the program `rom` into memory from the program counter on.
    /// A program that does not fit is refused and memory is left as it was.
    pub fn load(&mut self, rom: &[u8]) -> (r: Result<(), LoadError>)
        ensures
            old(self).pc + rom@.len() <= MEMORY_SIZE ==> r is Ok && final(self)@ == (MachineState {
                memory: old(self)@.memory.take(old(self)@.pc) + rom@ + old(self)@.memory.skip(
                    old(self)@.pc + rom@.len(),
                ),
                ..old(self)@
            }),
            old(self).pc + rom@.len() > MEMORY_SIZE ==> r == Err::<(), LoadError>(
                LoadError::RomTooLarge {
                    size: rom@.len() as usize,
                    available: if old(self).pc <= MEMORY_SIZE { (MEMORY_SIZE - old(self).pc) as usize } else { 0 },
                },
            ) && final(self)@ == old(self)@,
    {
        let available = if self.pc <= MEMORY_SIZE {
            MEMORY_SIZE - self.pc
        } else {
            0
        };
        if rom.len() > available || self.pc > MEMORY_SIZE {
            return Err(LoadError::RomTooLarge { size: rom.len(), available });
        }
        let ghost s0 = self@;
        let start = self.pc;
        let mut k: usize = 0;
        assert(s0.memory =~= Seq::new(
            MEMORY_SIZE as nat,
            |m: int| if start <= m < start + k { rom@[m - start] } else { s0.memory[m] },
        ));
        while k < rom.len()
            invariant
                k <= rom@.len(),
                start == s0.pc,
                start + rom@.len() <= MEMORY_SIZE,
                self@ == (MachineState {
                    memory: Seq::new(
                        MEMORY_SIZE as nat,
                        |m: int| if start <= m < start + k { rom@[m - start] } else { s0.memory[m] },
                    ),
                    ..s0
                }),
            decreases rom@.len() - k,
        {
            self.memory[start + k] = rom[k];
            k = k + 1;
            assert(self@.memory =~= Seq::new(
                MEMORY_SIZE as nat,
                |m: int| if start <= m < start + k { rom@[m - start] } else { s0.memory[m] },
            ));
        }
        assert(self@.memory =~= s0.memory.take(start as int) + rom@ + s0.memory.skip(start + rom@.len()));
        Ok(())
    }

    /// Execute `op`; should it be CXNN, a random byte is drawn for it.
    pub fn execute_opcode(&mut self, op: u16)
        requires
            can_execute(old(self)@, op),
        ensures
            exists|rnd: u8| final(self)@ == next_state(old(self)@, op, rnd),
            op_a(op) != 0xC ==> final(self)@ == next_state(old(self)@, op, 0),
    {
        let rnd = if op & 0xF000 == 0xC000 {
            random_byte()
        } else {
            0
        };
        proof {
            lemma_decode(op);
            assert(op & 0xF000 == 0xC000 <==> (op & 0xF000) >> 12 == 0xC) by (bit_vector);
        }
        self.execute_opcode_with(op, rnd);
    }

    /// Whether `op` can be executed from the current state, as
    /// `execute_opcode` requires.
    pub fn is_executable(&self, op: u16) -> (r: bool)
        ensures
            r == can_execute(self@, op),
    {
        let a = (op & 0xF000) >> 12;
        let x = ((op & 0x0F00) >> 8) as usize;
        let n = (op & 0x000F) as usize;
        let nn = op & 0x00FF;
        proof {
            lemma_decode(op);
        }
        if self.pc > usize::MAX - 4 || self.i > usize::MAX - 0x100 {
            return false;
        }
        if op == 0x00EE && !(1 <= self.sp && self.sp <= STACK_SIZE) {
            return false;
        }
        if a == 0x2 && self.sp >= STACK_SIZE {
            return false;
        }
        if a == 0xD && self.i + n > MEMORY_SIZE {
            return false;
        }
        if a == 0xE && (nn == 0x9E || nn == 0xA1) && self.v[x] as usize >= KEY_COUNT {
            return false;
        }
        if a == 0xF && nn == 0x33 && self.i + 3 > MEMORY_SIZE {
            return false;
        }
        if a == 0xF && (nn == 0x55 || nn == 0x65) && self.i + x + 1 > MEMORY_SIZE {
            return false;
        }
        true
    }

    /// Run one CPU cycle: fetch the opcode at the program counter and
    /// execute it. Return whether the program is done, in which case nothing
    /// is done: either no room is left for another instruction, or the
    /// instruction would leave the memory, the stack or the keypad (a fault).
    /// Nothing is done either while the machine waits for a key.
    pub fn emulate_cycle(&mut self) -> (finished: bool)
        ensures
            finished == (program_finished(old(self)@) || faults(old(self)@)),
            finished ==> final(self)@ == old(self)@,
            exists|rnd: u8| final(self)@ == cycle_state(old(self)@, rnd),
            op_a(fetch(old(self)@)) != 0xC ==> final(self)@ == cycle_state(old(self)@, 0),
    {
        if self.pc >= MEMORY_SIZE - 2 {
            assert(self@ == cycle_state(old(self)@, 0));
            return true;
        }
        if self.wait_for_key.0 {
            assert(self@ == cycle_state(old(self)@, 0));
            return false;
        }
        let hi = self.memory[self.pc];
        let lo = self.memory[self.pc + 1];
        let op = (hi as u16) << 8 | (lo as u16);
        proof {
            assert(((hi as u16) << 8 | (lo as u16)) == (hi as int * 0x100 + lo as int) as u16) by (bit_vector);
        }
        if !self.is_executable(op) {
            assert(self@ == cycle_state(old(self)@, 0));
            return true;
        }
        self.opcode = op;
        let ghost mid = self@;
        self.execute_opcode(op);
        proof {
            let rnd = choose|rnd: u8| self@ == next_state(mid, op, rnd);
            assert(self@ == cycle_state(old(self)@, rnd));
        }
        false
    }

    /// Whether the state is one that the emulation loop can run from (see
    /// `runnable`).
    pub fn is_runnable(&self) -> (r: bool)
        ensures
            r == runnable(self@),
    {
        self.wait_for_key.1 < 16 && self.pc <= 0x10001 && (!self.wait_for_key.0 || self.pc < MEMORY_SIZE - 2)
    }

    /// The program counter.
    pub fn pc(&self) -> (r: usize)
        ensures
            r == self.pc,
    {
        self.pc
    }

    /// The register VX.
    pub fn register(&self, x: usize) -> (r: u8)
        requires
            x < 16,
        ensures
            r == self@.v[x as int],
    {
        self.v[x]
    }

    /// The index register.
    pub fn index(&self) -> (r: usize)
        ensures
            r == self.i,
    {
        self.i
    }

    /// Execute `op`, with `rnd` as the random byte should `op` be CXNN.
    pub fn execute_opcode_with(&mut self, op: u16, rnd: u8)
        requires
            can_execute(old(self)@, op),
        ensures
            final(self)@ == next_state(old(self)@, op, rnd),
    {
        let a = ((op & 0xF000) >> 12) as u8;
        let x = ((op & 0x0F00) >> 8) as u8;
        let y = ((op & 0x00F0) >> 4) as u8;
        let n = (op & 0x000F) as u8;
        let nn = (op & 0x00FF) as u8;
        let nnn = op & 0x0FFF;
        proof {
            lemma_decode(op);
        }
        match (a, x, y, n) {
            (0x0, 0x0, 0xE, 0x0) => self.cls(),
            (0x0, 0x0, 0xE, 0xE) => self.ret(),
            (0x1, _, _, _) => self.jump_addr(nnn),
            (0x2, _, _, _) => self.call_addr(nnn),
            (0x3, _, _, _) => self.se_vx_nn(x, nn),
            (0x4, _, _, _) => self.sne_vx_nn(x, nn),
            (0x5, _, _, 0x0) => self.se_vx_vy(x, y),
            (0x6, _, _, _) => self.ld_vx_nn(x, nn),
            (0x7, _, _, _) => self.add_vx_nn(x, nn),
            (0x8, _, _, 0x0) => self.ld_vx_vy(x, y),
            (0x8, _, _, 0x1) => self.or_vx_vy(x, y),
            (0x8, _, _, 0x2) => self.and_vx_vy(x, y),
            (0x8, _, _, 0x3) => self.xor_vx_vy(x, y),
            (0x8, _, _, 0x4) => self.add_vx_vy(x, y),
            (0x8, _, _, 0x5) => self.sub_vx_vy(x, y),
            (0x8, _, _, 0x6) => self.shr_vx_vy(x, y),
            (0x8, _, _, 0x7) => self.subn_vx_vy(x, y),
            (0x8, _, _, 0xE) => self.shl_vx_vy(x, y),
            (0x9, _, _, 0x0) => self.sne_vx_vy(x, y),
            (0xA, _, _, _) => self.ld_i_addr(nnn),
            (0xB, _, _, _) => {
                let v0 = self.v[0] as u16;
                self.jump_addr(nnn + v0);
            },
            (0xC, _, _, _) => self.rnd_vx_nn(x, nn, rnd),
            (0xD, _, _, _) => self.drw_vx_vy_n(x, y, n),
            (0xE, _, 0x9, 0xE) => self.skp_vx(x),
            (0xE, _, 0xA, 0x1) => self.sknp_vx(x),
            (0xF, _, 0x0, 0x7) => self.ld_vx_dt(x),
            (0xF, _, 0x0, 0xA) => self.ld_vx_key(x),
            (0xF, _, 0x1, 0x5) => self.ld_dt_vx(x),
            (0xF, _, 0x1, 0x8) => self.ld_st_vx(x),
            (0xF, _, 0x1, 0xE) => self.add_i_vx(x),
            (0xF, _, 0x2, 0x9) => self.ld_i_font_vx(x),
            (0xF, _, 0x3, 0x3) => self.ld_mem_i_bcd_vx(x),
            (0xF, _, 0x5, 0x5) => self.ld_mem_i_regs(x),
            (0xF, _, 0x6, 0x5) => self.ld_regs_mem_i(x),
            // unknown instruction: skipped
            _ => {
                self.pc = self.pc + 2;
            },
        }
    }

    /// Clear the screen.
    fn cls(&mut self)
        requires
            old(self).pc + 2 <= usize::MAX,
        ensures
            final(self)@ == (MachineState { grid: blank_grid(), dirty: true, pc: old(self)@.pc + 2, ..old(self)@ }),
    {
        self.display.clear();
        self.pc = self.pc + 2;
    }

    /// Return from a subroutine: pop the return address and continue after
    /// the call.
    fn ret(&mut self)
        requires
            1 <= old(self).sp <= STACK_SIZE,
        ensures
            final(self)@ == (MachineState {
                sp: old(self)@.sp - 1,
                pc: old(self)@.stack[old(self)@.sp - 1] + 2,
                ..old(self)@
            }),
    {
        self.sp = self.sp - 1;
        let addr = self.stack[self.sp];
        self.jump_addr(addr);
        self.pc = self.pc + 2;
    }

    /// Jump to `addr`.
    fn jump_addr(&mut self, addr: u16)
        ensures
            final(self)@ == (MachineState { pc: addr as int, ..old(self)@ }),
    {
        self.pc = addr as usize;
    }

    /// Call the subroutine at `addr`: push the program counter and jump.
    fn call_addr(&mut self, addr: u16)
        requires
            old(self).sp < STACK_SIZE,
        ensures
            final(self)@ == (MachineState {
                stack: old(self)@.stack.update(old(self)@.sp, old(self).pc as u16),
                sp: old(self)@.sp + 1,
                pc: addr as int,
                ..old(self)@
            }),
    {
        self.stack[self.sp] = self.pc as u16;
        self.sp = self.sp + 1;
        self.jump_addr(addr);
    }

    /// Skip the next instruction if VX equals NN.
    fn se_vx_nn(&mut self, x: u8, nn: u8)
        requires
            x < 16,
            old(self).pc + 4 <= usize::MAX,
        ensures
            final(self)@ == skip_if(old(self)@, old(self)@.v[x as int] == nn),
    {
        self.pc = self.pc + if self.v[x as usize] == nn { 4 } else { 2 };
    }

    /// Skip the next instruction if VX differs from NN.
    fn sne_vx_nn(&mut self, x: u8, nn: u8)
        requires
            x < 16,
            old(self).pc + 4 <= usize::MAX,
        ensures
            final(self)@ == skip_if(old(self)@, old(self)@.v[x as int] != nn),
    {
        self.pc = self.pc + if self.v[x as usize] != nn { 4 } else { 2 };
    }

    /// Skip the next instruction if VX equals VY.
    fn se_vx_vy(&mut self, x: u8, y: u8)
        requires
            x < 16,
            y < 16,
            old(self).pc + 4 <= usize::MAX,
        ensures
            final(self)@ == skip_if(old(self)@, old(self)@.v[x as int] == old(self)@.v[y as int]),
    {
        self.pc = self.pc + if self.v[x as usize] == self.v[y as usize] { 4 } else { 2 };
    }

    /// Skip the next instruction if VX differs from VY.
    fn sne_vx_vy(&mut self, x: u8, y: u8)
        requires
            x < 16,
            y < 16,
            old(self).pc + 4 <= usize::MAX,
        ensures
            final(self)@ == skip_if(old(self)@, old(self)@.v[x as int] != old(self)@.v[y as int]),
    {
        self.pc = self.pc + if self.v[x as usize] != self.v[y as usize] { 4 } else { 2 };
    }

    /// Skip the next instruction if the key VX is pressed.
    fn skp_vx(&mut self, x: u8)
        requires
            x < 16,
            old(self).v[x as int] < KEY_COUNT,
            old(self).pc + 4 <= usize::MAX,
        ensures
            final(self)@ == skip_if(old(self)@, old(self)@.keys[old(self)@.v[x as int] as int]),
    {
        self.pc = self.pc + match self.keypad.get_key_state(self.v[x as usize] as usize) {
            Keystate::Pressed => 4,
            Keystate::Released => 2,
        };
    }

    /// Skip the next instruction if the key VX is released.
    fn sknp_vx(&mut self, x: u8)
        requires
            x < 16,
            old(self).v[x as int] < KEY_COUNT,
            old(self).pc + 4 <= usize::MAX,
        ensures
            final(self)@ == skip_if(old(self)@, !old(self)@.keys[old(self)@.v[x as int] as int]),
    {
        self.pc = self.pc + match self.keypad.get_key_state(self.v[x as usize] as usize) {
            Keystate::Pressed => 2,
            Keystate::Released => 4,
        };
    }

    /// Set VX to NN.
    fn ld_vx_nn(&mut self, x: u8, nn: u8)
        requires
            x < 16,
            old(self).pc + 2 <= usize::MAX,
        ensures
            final(self)@ == set_reg(old(self)@, x as int, nn),
    {
        self.v[x as usize] = nn;
        self.pc = self.pc + 2;
    }

    /// Set VX to VY.
    fn ld_vx_vy(&mut self, x: u8, y: u8)
        requires
            x < 16,
            y < 16,
            old(self).pc + 2 <= usize::MAX,
        ensures
            final(self)@ == set_reg(old(self)@, x as int, old(self)@.v[y as int]),
    {
        self.v[x as usize] = self.v[y as usize];
        self.pc = self.pc + 2;
    }

    /// Set I to `addr`.
    fn ld_i_addr(&mut self, addr: u16)
        requires
            old(self).pc + 2 <= usize::MAX,
        ensures
            final(self)@ == (MachineState { i: addr as int, pc: old(self)@.pc + 2, ..old(self)@ }),
    {
        self.i = addr as usize;
        self.pc = self.pc + 2;
    }

    /// Add NN to VX, modulo 256; the flag register is left as it is.
    fn add_vx_nn(&mut self, x: u8, nn: u8)
        requires
            x < 16,
            old(self).pc + 2 <= usize::MAX,
        ensures
            final(self)@ == set_reg(old(self)@, x as int, wrap8(old(self)@.v[x as int] + nn)),
    {
        let sum = self.v[x as usize] as u16 + nn as u16;
        self.v[x as usize] = (sum % 256) as u8;
        self.pc = self.pc + 2;
    }

    /// Add VX to I.
    fn add_i_vx(&mut self, x: u8)
        requires
            x < 16,
            old(self).pc + 2 <= usize::MAX,
            old(self).i + 0x100 <= usize::MAX,
        ensures
            final(self)@ == (MachineState {
                i: old(self)@.i + old(self)@.v[x as int],
                pc: old(self)@.pc + 2,
                ..old(self)@
            }),
    {
        self.i = self.i + self.v[x as usize] as usize;
        self.pc = self.pc + 2;
    }

    /// Set VX to VX OR VY.
    fn or_vx_vy(&mut self, x: u8, y: u8)
        requires
            x < 16,
            y < 16,
            old(self).pc + 2 <= usize::MAX,
        ensures
            final(self)@ == set_reg(old(self)@, x as int, old(self)@.v[x as int] | old(self)@.v[y as int]),
    {
        self.v[x as usize] = self.v[x as usize] | self.v[y as usize];
        self.pc = self.pc + 2;
    }

    /// Set VX to VX AND VY.
    fn and_vx_vy(&mut self, x: u8, y: u8)
        requires
            x < 16,
            y < 16,
            old(self).pc + 2 <= usize::MAX,
        ensures
            final(self)@ == set_reg(old(self)@, x as int, old(self)@.v[x as int] & old(self)@.v[y as int]),
    {
        self.v[x as usize] = self.v[x as usize] & self.v[y as usize];
        self.pc = self.pc + 2;
    }

    /// Set VX to VX XOR VY.
    fn xor_vx_vy(&mut self, x: u8, y: u8)
        requires
            x < 16,
            y < 16,
            old(self).pc + 2 <= usize::MAX,
        ensures
            final(self)@ == set_reg(old(self)@, x as int, old(self)@.v[x as int] ^ old(self)@.v[y as int]),
    {
        self.v[x as usize] = self.v[x as usize] ^ self.v[y as usize];
        self.pc = self.pc + 2;
    }

    /// Add VY to VX, modulo 256; VF is set to 1 on a carry, to 0 otherwise.
    fn add_vx_vy(&mut self, x: u8, y: u8)
        requires
            x < 16,
            y < 16,
            old(self).pc + 2 <= usize::MAX,
        ensures
            ({
                let (vx, vy) = (old(self)@.v[x as int] as int, old(self)@.v[y as int] as int);
                final(self)@ == set_reg_then_flag(old(self)@, x as int, wrap8(vx + vy), flag_of(vx + vy > 255))
            }),
    {
        let sum = self.v[x as usize] as u16 + self.v[y as usize] as u16;
        self.v[x as usize] = (sum % 256) as u8;
        self.v[FLAG] = if sum > 255 { 1 } else { 0 };
        self.pc = self.pc + 2;
    }

    /// Subtract VY from VX, modulo 256; VF is set to 1 on a borrow, to 0
    /// otherwise.
    fn sub_vx_vy(&mut self, x: u8, y: u8)
        requires
            x < 16,
            y < 16,
            old(self).pc + 2 <= usize::MAX,
        ensures
            ({
                let (vx, vy) = (old(self)@.v[x as int] as int, old(self)@.v[y as int] as int);
                final(self)@ == set_reg_then_flag(old(self)@, x as int, wrap8(vx - vy), flag_of(vx < vy))
            }),
    {
        let vx = self.v[x as usize];
        let vy = self.v[y as usize];
        self.v[x as usize] = vx.wrapping_sub(vy);
        self.v[FLAG] = if vx < vy { 1 } else { 0 };
        self.pc = self.pc + 2;
    }

    /// Set VX to VY minus VX, modulo 256; VF is set to 1 on a borrow, to 0
    /// otherwise.
    fn subn_vx_vy(&mut self, x: u8, y: u8)
        requires
            x < 16,
            y < 16,
            old(self).pc + 2 <= usize::MAX,
        ensures
            ({
                let (vx, vy) = (old(self)@.v[x as int] as int, old(self)@.v[y as int] as int);
                final(self)@ == set_reg_then_flag(old(self)@, x as int, wrap8(vy - vx), flag_of(vy < vx))
            }),
    {
        let vx = self.v[x as usize];
        let vy = self.v[y as usize];
        self.v[x as usize] = vy.wrapping_sub(vx);
        self.v[FLAG] = if vy < vx { 1 } else { 0 };
        self.pc = self.pc + 2;
    }

    /// Shift right by one bit VY (or VX, as configured) into VX; VF is set to
    /// the bit shifted out.
    fn shr_vx_vy(&mut self, x: u8, y: u8)
        requires
            x < 16,
            y < 16,
            old(self).pc + 2 <= usize::MAX,
        ensures
            ({
                let b = old(self)@.v[shift_source(old(self)@, x as int, y as int)];
                final(self)@ == set_flag_then_reg(old(self)@, x as int, b & 0x01, b / 2)
            }),
    {
        let shift_on = if self.shift_op_use_vy { y } else { x };
        let b = self.v[shift_on as usize];
        self.v[FLAG] = b & 0x01;
        self.v[x as usize] = b >> 1;
        proof {
            assert(b >> 1 == b / 2) by (bit_vector);
        }
        self.pc = self.pc + 2;
    }

    /// Shift left by one bit VY (or VX, as configured) into VX; VF is set to
    /// the bit shifted out, masked in place (0x80) rather than moved to 1.
    fn shl_vx_vy(&mut self, x: u8, y: u8)
        requires
            x < 16,
            y < 16,
            old(self).pc + 2 <= usize::MAX,
        ensures
            ({
                let b = old(self)@.v[shift_source(old(self)@, x as int, y as int)];
                final(self)@ == set_flag_then_reg(old(self)@, x as int, b & 0x80, wrap8(b * 2))
            }),
    {
        let shift_on = if self.shift_op_use_vy { y } else { x };
        let b = self.v[shift_on as usize];
        self.v[FLAG] = b & 0x80;
        self.v[x as usize] = b << 1;
        proof {
            assert(b << 1 == ((b as int * 2) % 0x100) as u8) by (bit_vector);
        }
        self.pc = self.pc + 2;
    }

    /// Set VX to the random byte `rnd` masked with NN.
    fn rnd_vx_nn(&mut self, x: u8, nn: u8, rnd: u8)
        requires
            x < 16,
            old(self).pc + 2 <= usize::MAX,
        ensures
            final(self)@ == set_reg(old(self)@, x as int, rnd & nn),
    {
        self.v[x as usize] = rnd & nn;
        self.pc = self.pc + 2;
    }

    /// Draw the `n`-row sprite stored from I at (VX, VY); VF is set to 1 on a
    /// collision, to 0 otherwise.
    fn drw_vx_vy_n(&mut self, x: u8, y: u8, n: u8)
        requires
            x < 16,
            y < 16,
            old(self).i + n <= MEMORY_SIZE,
            old(self).pc + 2 <= usize::MAX,
        ensures
            final(self)@ == draw_state(old(self)@, x as int, y as int, n as int),
    {
        let pos_x = self.v[x as usize] as usize;
        let pos_y = self.v[y as usize] as usize;
        let sprite = slice_subrange(self.memory.as_slice(), self.i, self.i + n as usize);
        let collision = self.display.draw(pos_x, pos_y, sprite);
        self.v[FLAG] = if collision { 1 } else { 0 };
        self.pc = self.pc + 2;
    }

    /// Set VX to the delay timer.
    fn ld_vx_dt(&mut self, x: u8)
        requires
            x < 16,
            old(self).pc + 2 <= usize::MAX,
        ensures
            final(self)@ == set_reg(old(self)@, x as int, old(self)@.delay_timer),
    {
        self.v[x as usize] = self.delay_timer;
        self.pc = self.pc + 2;
    }

    /// Set the delay timer to VX.
    fn ld_dt_vx(&mut self, x: u8)
        requires
            x < 16,
            old(self).pc + 2 <= usize::MAX,
        ensures
            final(self)@ == (MachineState {
                delay_timer: old(self)@.v[x as int],
                pc: old(self)@.pc + 2,
                ..old(self)@
            }),
    {
        self.delay_timer = self.v[x as usize];
        self.pc = self.pc + 2;
    }

    /// Set the sound timer to VX.
    fn ld_st_vx(&mut self, x: u8)
        requires
            x < 16,
            old(self).pc + 2 <= usize::MAX,
        ensures
            final(self)@ == (MachineState {
                sound_timer: old(self)@.v[x as int],
                pc: old(self)@.pc + 2,
                ..old(self)@
            }),
    {
        self.sound_timer = self.v[x as usize];
        self.pc = self.pc + 2;
    }

    /// Wait for a key press, to be stored in VX. The program counter stays
    /// until `end_wait_for_key` is called.
    fn ld_vx_key(&mut self, x: u8)
        ensures
            final(self)@ == (MachineState { waiting: true, target: x, ..old(self)@ }),
    {
        self.wait_for_key = (true, x);
    }

    /// Set I to the address of the font glyph of the digit VX.
    fn ld_i_font_vx(&mut self, x: u8)
        requires
            x < 16,
            old(self).pc + 2 <= usize::MAX,
        ensures
            final(self)@ == (MachineState {
                i: old(self)@.v[x as int] * 5,
                pc: old(self)@.pc + 2,
                ..old(self)@
            }),
    {
        self.i = self.v[x as usize] as usize * 5;
        self.pc = self.pc + 2;
    }

    /// Store the decimal digits of VX (hundreds, tens, ones) at I, I+1, I+2.
    fn ld_mem_i_bcd_vx(&mut self, x: u8)
        requires
            x < 16,
            old(self).i + 3 <= MEMORY_SIZE,
            old(self).pc + 2 <= usize::MAX,
        ensures
            final(self)@ == bcd_state(old(self)@, x as int),
    {
        let vx = self.v[x as usize];
        let i = self.i;
        self.memory[i] = vx / 100;
        self.memory[i + 1] = (vx / 10) % 10;
        self.memory[i + 2] = vx % 10;
        self.pc = self.pc + 2;
    }

    /// Store V0 to VX inclusive in memory from I on; I moves past them.
    fn ld_mem_i_regs(&mut self, x: u8)
        requires
            x < 16,
            old(self).i + x + 1 <= MEMORY_SIZE,
            old(self).pc + 2 <= usize::MAX,
        ensures
            final(self)@ == store_regs_state(old(self)@, x as int),
    {
        let ghost s0 = self@;
        let last = x as usize;
        let mut j: usize = 0;
        assert(s0.memory =~= Seq::new(
            s0.memory.len(),
            |k: int| if s0.i <= k < s0.i + j { s0.v[k - s0.i] } else { s0.memory[k] },
        ));
        while j <= last
            invariant
                j <= last + 1,
                last == x,
                last < 16,
                s0 == old(self)@,
                self.i + last + 1 <= MEMORY_SIZE,
                self@ == (MachineState {
                    memory: Seq::new(
                        s0.memory.len(),
                        |k: int| if s0.i <= k < s0.i + j { s0.v[k - s0.i] } else { s0.memory[k] },
                    ),
                    ..s0
                }),
            decreases last + 1 - j,
        {
            self.memory[self.i + j] = self.v[j];
            j = j + 1;
            proof {
                assert(self@.memory =~= Seq::new(
                    s0.memory.len(),
                    |k: int| if s0.i <= k < s0.i + j { s0.v[k - s0.i] } else { s0.memory[k] },
                ));
            }
        }
        self.i = self.i + last + 1;
        self.pc = self.pc + 2;
        assert(self@.memory =~= store_regs_state(s0, x as int).memory);
    }

    /// Load V0 to VX inclusive from memory from I on; I moves past them.
    fn ld_regs_mem_i(&mut self, x: u8)
        requires
            x < 16,
            old(self).i + x + 1 <= MEMORY_SIZE,
            old(self).pc + 2 <= usize::MAX,
        ensures
            final(self)@ == load_regs_state(old(self)@, x as int),
    {
        let ghost s0 = self@;
        let last = x as usize;
        let mut j: usize = 0;
        assert(s0.v =~= Seq::new(s0.v.len(), |k: int| if k < j { s0.memory[s0.i + k] } else { s0.v[k] }));
        while j <= last
            invariant
                j <= last + 1,
                last == x,
                last < 16,
                s0 == old(self)@,
                self.i + last + 1 <= MEMORY_SIZE,
                self@ == (MachineState {
                    v: Seq::new(s0.v.len(), |k: int| if k < j { s0.memory[s0.i + k] } else { s0.v[k] }),
                    ..s0
                }),
            decreases last + 1 - j,
        {
            self.v[j] = self.memory[self.i + j];
            j = j + 1;
            proof {
                assert(self@.v =~= Seq::new(
                    s0.v.len(),
                    |k: int| if k < j { s0.memory[s0.i + k] } else { s0.v[k] },
                ));
            }
        }
        self.i = self.i + last + 1;
        self.pc = self.pc + 2;
        assert(self@.v =~= load_regs_state(s0, x as int).v);
    }
}

/// The fields of an opcode, as its bit masks give them.
proof fn lemma_decode(op: u16)
    ensures
        ((op & 0xF000) >> 12) as int == op_a(op),
        ((op & 0x0F00) >> 8) as int == op_x(op),
        ((op & 0x00F0) >> 4) as int == op_y(op),
        (op & 0x000F) as int == op_n(op),
        (op & 0x00FF) as u8 == op_nn(op),
        (op & 0x00FF) as int == op_nn(op) as int,
        (op & 0x0FFF) as int == op_nnn(op),
        op as int == op_a(op) * 0x1000 + op_x(op) * 0x100 + op_y(op) * 0x10 + op_n(op),
        op_nn(op) as int == op_y(op) * 0x10 + op_n(op),
        op_a(op) < 0x10,
{
    assert(((op & 0xF000) >> 12) == op / 0x1000) by (bit_vector);
    assert(((op & 0x0F00) >> 8) == (op / 0x100) % 0x10) by (bit_vector);
    assert(((op & 0x00F0) >> 4) == (op / 0x10) % 0x10) by (bit_vector);
    assert((op & 0x000F) == op % 0x10) by (bit_vector);
    assert((op & 0x00FF) == op % 0x100) by (bit_vector);
    assert((op & 0x0FFF) == op % 0x1000) by (bit_vector);
    assert(op == (op / 0x1000) * 0x1000 + ((op / 0x100) % 0x10) * 0x100 + ((op / 0x10) % 0x10) * 0x10
        + op % 0x10) by (bit_vector);
    assert(op % 0x100 == ((op / 0x10) % 0x10) * 0x10 + op % 0x10) by (bit_vector);
    assert(op / 0x1000 < 0x10) by (bit_vector);
}

/// The opcode with the nibbles `a`, `x`, `y`, `n`, from the highest.
pub open spec fn opcode_of(a: int, x: int, y: int, n: int) -> u16 {
    (a * 0x1000 + x * 0x100 + y * 0x10 + n) as u16
}

/// An opcode built from four nibbles decodes into them.
proof fn lemma_opcode_fields(a: int, x: int, y: int, n: int)
    requires
        0 <= a < 16,
        0 <= x < 16,
        0 <= y < 16,
        0 <= n < 16,
    ensures
        op_a(opcode_of(a, x, y, n)) == a,
        op_x(opcode_of(a, x, y, n)) == x,
        op_y(opcode_of(a, x, y, n)) == y,
        op_n(opcode_of(a, x, y, n)) == n,
        op_nn(opcode_of(a, x, y, n)) as int == y * 0x10 + n,
        op_nnn(opcode_of(a, x, y, n)) == x * 0x100 + y * 0x10 + n,
{
    let op = a * 0x1000 + x * 0x100 + y * 0x10 + n;
    assert(0 <= op < 0x10000);
    assert(op / 0x1000 == a);
    assert(op / 0x100 == a * 0x10 + x);
    assert((a * 0x10 + x) % 0x10 == x);
    assert(op / 0x10 == a * 0x100 + x * 0x10 + y);
    assert((a * 0x100 + x * 0x10 + y) % 0x10 == y);
    assert(op % 0x10 == n);
    assert(op % 0x100 == y * 0x10 + n);
    assert(op % 0x1000 == x * 0x100 + y * 0x10 + n);
}

/// 7XNN adds NN to VX modulo 256 and leaves the flag register alone; 8XY4
/// adds VY to VX modulo 256 and sets the flag register to 1 exactly when the
/// sum exceeds 255.
pub proof fn lemma_add_wraps(s: MachineState, x: int, y: int, nn: u8, rnd: u8)
    requires
        s.v.len() == 16,
        0 <= x < 16,
        0 <= y < 16,
    ensures
        ({
            let t = next_state(s, opcode_of(0x7, x, nn as int / 0x10, nn as int % 0x10), rnd);
            &&& t.v[x] as int == (s.v[x] + nn) % 256
            &&& x != FLAG ==> t.v[FLAG as int] == s.v[FLAG as int]
        }),
        ({
            let t = next_state(s, opcode_of(0x8, x, y, 0x4), rnd);
            let sum = s.v[x] + s.v[y];
            &&& x != FLAG ==> t.v[x] as int == sum % 256
            &&& t.v[FLAG as int] == (if sum > 255 { 1u8 } else { 0u8 })
        }),
{
    lemma_opcode_fields(0x7, x, nn as int / 0x10, nn as int % 0x10);
    lemma_opcode_fields(0x8, x, y, 0x4);
    assert(op_nn(opcode_of(0x7, x, nn as int / 0x10, nn as int % 0x10)) == nn);
}

/// 8XY5 and 8XY7 set the flag register to 1 exactly when the subtraction
/// borrows (its unwrapped result is negative), and to 0 otherwise.
pub proof fn lemma_sub_borrow_flag(s: MachineState, x: int, y: int, rnd: u8)
    requires
        s.v.len() == 16,
        0 <= x < 16,
        0 <= y < 16,
    ensures
        ({
            let t = next_state(s, opcode_of(0x8, x, y, 0x5), rnd);
            &&& t.v[FLAG as int] == (if s.v[x] - s.v[y] < 0 { 1u8 } else { 0u8 })
            &&& x != FLAG ==> t.v[x] as int == (s.v[x] - s.v[y]) % 256
        }),
        ({
            let t = next_state(s, opcode_of(0x8, x, y, 0x7), rnd);
            &&& t.v[FLAG as int] == (if s.v[y] - s.v[x] < 0 { 1u8 } else { 0u8 })
            &&& x != FLAG ==> t.v[x] as int == (s.v[y] - s.v[x]) % 256
        }),
{
    lemma_opcode_fields(0x8, x, y, 0x5);
    lemma_opcode_fields(0x8, x, y, 0x7);
}

/// FX55 and FX65 leave I at its former value plus X + 1.
pub proof fn lemma_block_moves_index(s: MachineState, x: int, rnd: u8)
    requires
        0 <= x < 16,
    ensures
        next_state(s, opcode_of(0xF, x, 0x5, 0x5), rnd).i == s.i + x + 1,
        next_state(s, opcode_of(0xF, x, 0x6, 0x5), rnd).i == s.i + x + 1,
{
    lemma_opcode_fields(0xF, x, 0x5, 0x5);
    lemma_opcode_fields(0xF, x, 0x6, 0x5);
}

/// After FX0A the machine waits: a CPU cycle then changes nothing at all
/// (program counter, registers and timers included), however often it runs;
/// once the key `key` ends the wait, VX holds it and the program counter is
/// two past the FX0A instruction.
pub proof fn lemma_wait_for_key(s: MachineState, x: int, key: usize, rnd: u8, cycle_rnd: u8)
    requires
        s.v.len() == 16,
        0 <= x < 16,
        key < KEY_COUNT,
    ensures
        ({
            let w = next_state(s, opcode_of(0xF, x, 0x0, 0xA), rnd);
            let e = end_wait_state(w, key);
            &&& w.waiting
            &&& w.pc == s.pc && w.v == s.v
            &&& w.delay_timer == s.delay_timer && w.sound_timer == s.sound_timer
            &&& cycle_state(w, cycle_rnd) == w
            &&& !e.waiting
            &&& e.v[x] as int == key as int
            &&& e.pc == s.pc + 2
        }),
{
    lemma_opcode_fields(0xF, x, 0x0, 0xA);
}

/// What holds of every state that the emulation loop can reach from a fresh
/// or reset machine: the key target is a register, the program counter is
/// at most the highest jump target, and a waiting machine has room to move
/// past its FX0A instruction.
pub open spec fn runnable(s: MachineState) -> bool {
    &&& s.stack.len() == STACK_SIZE
    &&& s.target < 16
    &&& s.pc <= 0x10001
    &&& s.waiting ==> s.pc < MEMORY_SIZE - 2
}

/// A fresh or reset machine is runnable, and CPU cycles, the end of a wait
/// for a key, and key changes keep it so.
pub proof fn lemma_runnable_preserved(s: MachineState, rnd: u8, key: usize, index: int, down: bool)
    ensures
        runnable(reset_state(s)),
        runnable(s) ==> runnable(cycle_state(s, rnd)),
        runnable(s) ==> runnable(end_wait_state(s, key)),
        runnable(s) ==> runnable(MachineState { keys: s.keys.update(index, down), ..s }),
{
    if runnable(s) && !program_finished(s) && !s.waiting && !faults(s) {
        let op = fetch(s);
        lemma_decode(op);
    }
}

} // verus!
