use vstd::prelude::*;

verus! {

/// The host keys that stand for the keypad: the 4x4 block under the digits
/// 1 to 4 on a QWERTY keyboard.
///
/// ```text
/// host         keypad
/// 1 2 3 4      1 2 3 C
/// Q W E R      4 5 6 D
/// A S D F      7 8 9 E
/// Z X C V      A 0 B F
/// ```
#[derive(Debug, Clone, Copy, PartialEq, Eq, Structural)]
pub enum HostKey {
    Key1,
    Key2,
    Key3,
    Key4,
    Q,
    W,
    E,
    R,
    A,
    S,
    D,
    F,
    Z,
    X,
    C,
    V,
}

/// The keypad key that a host key stands for.
pub open spec fn keypad_key(k: HostKey) -> usize {
    match k {
        HostKey::Key1 => 0x1,
        HostKey::Key2 => 0x2,
        HostKey::Key3 => 0x3,
        HostKey::Key4 => 0xC,
        HostKey::Q => 0x4,
        HostKey::W => 0x5,
        HostKey::E => 0x6,
        HostKey::R => 0xD,
        HostKey::A => 0x7,
        HostKey::S => 0x8,
        HostKey::D => 0x9,
        HostKey::F => 0xE,
        HostKey::Z => 0xA,
        HostKey::X => 0x0,
        HostKey::C => 0xB,
        HostKey::V => 0xF,
    }
}

/// The keypad index of a host key; `None` (a key outside the block) maps to none.
pub fn key_code_to_index(virtual_keycode: Option<HostKey>) -> (r: Option<usize>)
    ensures
        r == match virtual_keycode {
            Some(k) => Some(keypad_key(k)),
            None => None::<usize>,
        },
{
    match virtual_keycode {
        Some(HostKey::Key1) => Some(0x1),
        Some(HostKey::Key2) => Some(0x2),
        Some(HostKey::Key3) => Some(0x3),
        Some(HostKey::Key4) => Some(0xC),
        Some(HostKey::Q) => Some(0x4),
        Some(HostKey::W) => Some(0x5),
        Some(HostKey::E) => Some(0x6),
        Some(HostKey::R) => Some(0xD),
        Some(HostKey::A) => Some(0x7),
        Some(HostKey::S) => Some(0x8),
        Some(HostKey::D) => Some(0x9),
        Some(HostKey::F) => Some(0xE),
        Some(HostKey::Z) => Some(0xA),
        Some(HostKey::X) => Some(0x0),
        Some(HostKey::C) => Some(0xB),
        Some(HostKey::V) => Some(0xF),
        None => None,
    }
}

/// Every host key maps to a keypad key, and no two host keys to the same one.
pub proof fn keypad_mapping_is_one_to_one(a: HostKey, b: HostKey)
    ensures
        keypad_key(a) < 16,
        keypad_key(a) == keypad_key(b) ==> a == b,
{
}

} // verus!
