//! The configuration of the emulator application: window, keyboard
//! layout, CPU clock, and how physical keys map to the virtual keypad.
use vstd::prelude::*;

use crate::display::{DISPLAY_HEIGHT, DISPLAY_WIDTH};
use crate::vm::CPU_CLOCK;

verus! {

/// The highest CPU clock accepted, in Hz: above it the emulation eats
/// resources without bound.
pub const CPU_CLOCK_MAX: u32 = 3000;

/// The supported keyboard layouts for the virtual keypad.
#[derive(Clone, Copy, Debug, PartialEq, Eq, Structural)]
pub enum KeyboardBinding {
    QWERTY,
    AZERTY,
}

/// The physical keys bound to the virtual keypad, named by their QWERTY
/// labels.
#[derive(Clone, Copy, Debug, PartialEq, Eq, Structural)]
pub enum BoundKey {
    Num1,
    Num2,
    Num3,
    Num4,
    Q,
    W,
    E,
    R,
    A,
    S,
    D,
    F,
    Z,
    X,
    C,
    V,
}

/// The virtual key that a physical key stands for, in a layout.
pub open spec fn key_index_spec(keyboard: KeyboardBinding, key: BoundKey) -> usize {
    match key {
        BoundKey::Num1 => 0x1,
        BoundKey::Num2 => 0x2,
        BoundKey::Num3 => 0x3,
        BoundKey::Num4 => 0xC,
        BoundKey::E => 0x6,
        BoundKey::R => 0xD,
        BoundKey::S => 0x8,
        BoundKey::D => 0x9,
        BoundKey::F => 0xE,
        BoundKey::C => 0xB,
        BoundKey::V => 0xF,
        BoundKey::X => 0x0,
        BoundKey::Q => if keyboard == KeyboardBinding::QWERTY { 0x4 } else { 0x7 },
        BoundKey::W => if keyboard == KeyboardBinding::QWERTY { 0x5 } else { 0xA },
        BoundKey::A => if keyboard == KeyboardBinding::QWERTY { 0x7 } else { 0x4 },
        BoundKey::Z => if keyboard == KeyboardBinding::QWERTY { 0xA } else { 0x5 },
    }
}

/// The virtual key that the physical key `key` stands for in `keyboard`.
pub fn key_index(keyboard: KeyboardBinding, key: BoundKey) -> (r: usize)
    ensures
        r == key_index_spec(keyboard, key),
{
    let qwerty = match keyboard {
        KeyboardBinding::QWERTY => true,
        KeyboardBinding::AZERTY => false,
    };
    match key {
        BoundKey::Num1 => 0x1,
        BoundKey::Num2 => 0x2,
        BoundKey::Num3 => 0x3,
        BoundKey::Num4 => 0xC,
        BoundKey::E => 0x6,
        BoundKey::R => 0xD,
        BoundKey::S => 0x8,
        BoundKey::D => 0x9,
        BoundKey::F => 0xE,
        BoundKey::C => 0xB,
        BoundKey::V => 0xF,
        BoundKey::X => 0x0,
        BoundKey::Q => if qwerty { 0x4 } else { 0x7 },
        BoundKey::W => if qwerty { 0x5 } else { 0xA },
        BoundKey::A => if qwerty { 0x7 } else { 0x4 },
        BoundKey::Z => if qwerty { 0xA } else { 0x5 },
    }
}

/// The sixteen bound physical keys, each once.
pub open spec fn all_keys() -> Seq<BoundKey> {
    seq![
        BoundKey::Num1, BoundKey::Num2, BoundKey::Num3, BoundKey::Num4,
        BoundKey::Q, BoundKey::W, BoundKey::E, BoundKey::R,
        BoundKey::A, BoundKey::S, BoundKey::D, BoundKey::F,
        BoundKey::Z, BoundKey::X, BoundKey::C, BoundKey::V,
    ]
}

/// Every physical key with the virtual key it stands for in `keyboard`.
pub fn get_key_bindings(keyboard: KeyboardBinding) -> (r: Vec<(BoundKey, usize)>)
    ensures
        r@.len() == 16,
        forall|k: int| 0 <= k < 16 ==> (#[trigger] r@[k]).0 == all_keys()[k],
        forall|k: int| 0 <= k < 16 ==> (#[trigger] r@[k]).1 == key_index_spec(keyboard, all_keys()[k]),
{
    let keys = [
        BoundKey::Num1, BoundKey::Num2, BoundKey::Num3, BoundKey::Num4,
        BoundKey::Q, BoundKey::W, BoundKey::E, BoundKey::R,
        BoundKey::A, BoundKey::S, BoundKey::D, BoundKey::F,
        BoundKey::Z, BoundKey::X, BoundKey::C, BoundKey::V,
    ];
    assert(keys@ =~= all_keys());
    let mut r: Vec<(BoundKey, usize)> = Vec::new();
    let mut k: usize = 0;
    while k < 16
        invariant
            k <= 16,
            keys@ == all_keys(),
            r@.len() == k,
            forall|m: int| 0 <= m < k ==> (#[trigger] r@[m]).0 == all_keys()[m],
            forall|m: int| 0 <= m < k ==> (#[trigger] r@[m]).1 == key_index_spec(keyboard, all_keys()[m]),
        decreases 16 - k,
    {
        let key = keys[k];
        r.push((key, key_index(keyboard, key)));
        k = k + 1;
    }
    r
}

/// In either layout, the sixteen physical keys stand for the sixteen
/// virtual keys, each for a different one.
pub proof fn lemma_bindings_cover_keypad(keyboard: KeyboardBinding)
    ensures
        forall|k: int, m: int|
            0 <= k < 16 && 0 <= m < 16 && k != m ==> key_index_spec(keyboard, #[trigger] all_keys()[k])
                != key_index_spec(keyboard, #[trigger] all_keys()[m]),
        forall|k: int| 0 <= k < 16 ==> key_index_spec(keyboard, #[trigger] all_keys()[k]) < 16,
{
}

/// The configuration of the emulator application. The setters take and
/// return the configuration, so that they chain.
#[derive(Clone, Copy)]
pub struct Chip8Config {
    /// The title of the emulator window.
    pub window_title: &'static str,
    /// The desired window width; a hint, the window keeps the aspect ratio
    /// of the screen.
    pub window_width: u16,
    /// The desired window height; a hint, as the width.
    pub window_height: u16,
    /// The keyboard layout.
    pub keypad_binding: KeyboardBinding,
    /// The CPU clock of the virtual machine, in Hz.
    pub vm_cpu_clock: u32,
}

impl Chip8Config {
    /// The default configuration: untitled 64x32 window, QWERTY layout,
    /// default CPU clock.
    pub fn new() -> (r: Chip8Config)
        ensures
            r.window_width == 64,
            r.window_height == 32,
            r.keypad_binding == KeyboardBinding::QWERTY,
            r.vm_cpu_clock == CPU_CLOCK,
    {
        Chip8Config {
            window_title: "",
            window_width: 64,
            window_height: 32,
            keypad_binding: KeyboardBinding::QWERTY,
            vm_cpu_clock: CPU_CLOCK,
        }
    }

    /// Set the window title.
    pub fn w_title(self, window_title: &'static str) -> (r: Chip8Config)
        ensures
            r == (Chip8Config { window_title, ..self }),
    {
        Chip8Config { window_title, ..self }
    }

    /// Set the window width.
    pub fn w_width(self, window_width: u16) -> (r: Chip8Config)
        ensures
            r == (Chip8Config { window_width, ..self }),
    {
        Chip8Config { window_width, ..self }
    }

    /// Set the window height.
    pub fn w_height(self, window_height: u16) -> (r: Chip8Config)
        ensures
            r == (Chip8Config { window_height, ..self }),
    {
        Chip8Config { window_height, ..self }
    }

    /// Set the keyboard layout.
    pub fn key_binds(self, keypad_binding: KeyboardBinding) -> (r: Chip8Config)
        ensures
            r == (Chip8Config { keypad_binding, ..self }),
    {
        Chip8Config { keypad_binding, ..self }
    }

    /// Set the CPU clock.
    pub fn vm_cpu_clock(self, vm_cpu_clock: u32) -> (r: Chip8Config)
        ensures
            r == (Chip8Config { vm_cpu_clock, ..self }),
    {
        Chip8Config { vm_cpu_clock, ..self }
    }
}

/// The largest whole pixel scale at which the screen fits in a window of
/// the given size, with the window size at that scale:
/// `(scale, width, height)`.
pub fn get_display_size(w_width: u16, w_height: u16) -> (r: (u16, u16, u16))
    ensures
        r.0 as int == if w_width / 64 <= w_height / 32 { w_width / 64 } else { w_height / 32 },
        r.1 as int == r.0 * DISPLAY_WIDTH,
        r.2 as int == r.0 * DISPLAY_HEIGHT,
{
    let scale_w = w_width / (DISPLAY_WIDTH as u16);
    let scale_h = w_height / (DISPLAY_HEIGHT as u16);
    let scale = if scale_w <= scale_h { scale_w } else { scale_h };
    (scale, scale * (DISPLAY_WIDTH as u16), scale * (DISPLAY_HEIGHT as u16))
}

/// The bytes of a layout's name.
pub open spec fn layout_name(keyboard: KeyboardBinding) -> Seq<u8> {
    match keyboard {
        KeyboardBinding::QWERTY => seq![0x51u8, 0x57, 0x45, 0x52, 0x54, 0x59],
        KeyboardBinding::AZERTY => seq![0x41u8, 0x5A, 0x45, 0x52, 0x54, 0x59],
    }
}

/// Whether `name` spells `expected`.
fn bytes_equal(name: &[u8], expected: &[u8]) -> (r: bool)
    ensures
        r == (name@ == expected@),
{
    if name.len() != expected.len() {
        return false;
    }
    let mut k: usize = 0;
    while k < name.len()
        invariant
            k <= name@.len(),
            name@.len() == expected@.len(),
            forall|m: int| 0 <= m < k ==> name@[m] == expected@[m],
        decreases name@.len() - k,
    {
        if name[k] != expected[k] {
            return false;
        }
        k = k + 1;
    }
    assert(name@ =~= expected@);
    true
}

/// The layout named `name` ("QWERTY" or "AZERTY"), if any.
pub fn keyboard_binding_from_name(name: &[u8]) -> (r: Option<KeyboardBinding>)
    ensures
        r == Some(KeyboardBinding::QWERTY) <==> name@ == layout_name(KeyboardBinding::QWERTY),
        r == Some(KeyboardBinding::AZERTY) <==> name@ == layout_name(KeyboardBinding::AZERTY),
        r is None <==> (name@ != layout_name(KeyboardBinding::QWERTY) && name@ != layout_name(
            KeyboardBinding::AZERTY,
        )),
{
    let qwerty: [u8; 6] = [0x51, 0x57, 0x45, 0x52, 0x54, 0x59];
    let azerty: [u8; 6] = [0x41, 0x5A, 0x45, 0x52, 0x54, 0x59];
    assert(qwerty@ =~= layout_name(KeyboardBinding::QWERTY));
    assert(azerty@ =~= layout_name(KeyboardBinding::AZERTY));
    assert(layout_name(KeyboardBinding::QWERTY) != layout_name(KeyboardBinding::AZERTY)) by {
        assert(layout_name(KeyboardBinding::QWERTY)[0] != layout_name(KeyboardBinding::AZERTY)[0]);
    }
    if bytes_equal(name, qwerty.as_slice()) {
        Some(KeyboardBinding::QWERTY)
    } else if bytes_equal(name, azerty.as_slice()) {
        Some(KeyboardBinding::AZERTY)
    } else {
        None
    }
}

/// The configuration with the CPU clock `requested`, if it does not exceed
/// `CPU_CLOCK_MAX`; otherwise the configuration is returned unchanged, with
/// `false`.
pub fn with_cpu_clock_within_limit(config: Chip8Config, requested: u32) -> (r: (Chip8Config, bool))
    ensures
        r.1 == (requested <= CPU_CLOCK_MAX),
        r.1 ==> r.0 == (Chip8Config { vm_cpu_clock: requested, ..config }),
        !r.1 ==> r.0 == config,
{
    if requested > CPU_CLOCK_MAX {
        (config, false)
    } else {
        (config.vm_cpu_clock(requested), true)
    }
}

} // verus!
