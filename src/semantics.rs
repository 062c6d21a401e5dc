use crate::cpu::{
    CpuState, ExecutionError, JumpQuirk, ShiftQuirk, DISPLAY_HEIGHT, DISPLAY_SIZE, DISPLAY_WIDTH, FLAG_REGISTER,
    FONTSET_START_ADDRESS, KEY_COUNT, MEMORY_SIZE, REGISTER_COUNT, STACK_SIZE,
};
use crate::instruction::{addr_of, byte_of, family_of, nibble_of, reg_x_of, reg_y_of};
use vstd::prelude::*;

verus! {

/// A timer one tick later: one less, but never below zero.
pub open spec fn ticked(t: u8) -> u8 {
    if t > 0 {
        (t - 1) as u8
    } else {
        0
    }
}

/// A program counter moved by `k` bytes, in 16-bit arithmetic.
pub open spec fn pc_plus(pc: u16, k: int) -> u16 {
    ((pc as int + k) % 0x10000) as u16
}

/// `s` with the next instruction skipped when `cond` holds.
pub open spec fn skip_if(s: CpuState, cond: bool) -> CpuState {
    if cond {
        CpuState { pc: pc_plus(s.pc, 2), ..s }
    } else {
        s
    }
}

/// `s` with register `r` set to `v`.
pub open spec fn set_reg(s: CpuState, r: int, v: int) -> CpuState {
    CpuState { registers: s.registers.update(r, v as u8), ..s }
}

/// `s` with register `r` set to `v`, then the flag register set to `flag`.
pub open spec fn set_reg_flag(s: CpuState, r: int, v: int, flag: bool) -> CpuState {
    set_reg(set_reg(s, r, v), FLAG_REGISTER as int, if flag { 1 } else { 0 })
}

/// Whether key `k` is held down; a number past the keypad names no key that is held.
pub open spec fn key_down(keys: Seq<bool>, k: int) -> bool {
    0 <= k < KEY_COUNT && keys[k]
}

/// Whether `k` is the lowest-numbered key held down.
pub open spec fn is_first_pressed(keys: Seq<bool>, k: int) -> bool {
    &&& key_down(keys, k)
    &&& forall|j: int| 0 <= j < k ==> !keys[j]
}

/// Whether any key is held down.
pub open spec fn any_pressed(keys: Seq<bool>) -> bool {
    exists|k: int| key_down(keys, k)
}

/// The lowest-numbered key held down, where there is one.
pub open spec fn first_pressed(keys: Seq<bool>) -> int {
    choose|k: int| is_first_pressed(keys, k)
}

/// Bit `col` of a sprite row, counted from the most significant bit.
pub open spec fn sprite_bit(b: u8, col: int) -> bool {
    (b >> ((7 - col) as u8)) & 1u8 == 1u8
}

/// Whether the pixel at column `px`, row `py` lies under a sprite of `rows`
/// rows drawn at `(x0, y0)`, which is clipped at the right and bottom edges.
pub open spec fn under_sprite(x0: int, y0: int, rows: int, px: int, py: int) -> bool {
    &&& x0 <= px < x0 + 8
    &&& px < DISPLAY_WIDTH
    &&& y0 <= py < y0 + rows
    &&& py < DISPLAY_HEIGHT
}

/// The sprite's bit for the pixel at `(px, py)`, its rows read from `mem` at `addr`.
pub open spec fn sprite_pixel(mem: Seq<u8>, addr: int, x0: int, y0: int, px: int, py: int) -> bool {
    sprite_bit(mem[addr + (py - y0)], px - x0)
}

/// The display after a sprite is drawn over `d`: each pixel under it flips where
/// the sprite's bit is set.
pub open spec fn drawn_display(
    d: Seq<bool>,
    mem: Seq<u8>,
    addr: int,
    x0: int,
    y0: int,
    rows: int,
) -> Seq<bool> {
    Seq::new(
        DISPLAY_SIZE as nat,
        |k: int|
            if under_sprite(x0, y0, rows, k % 64, k / 64) {
                d[k] != sprite_pixel(mem, addr, x0, y0, k % 64, k / 64)
            } else {
                d[k]
            },
    )
}

/// Whether drawing the sprite turns off a pixel that was on.
pub open spec fn draw_collides(
    d: Seq<bool>,
    mem: Seq<u8>,
    addr: int,
    x0: int,
    y0: int,
    rows: int,
) -> bool {
    exists|k: int|
        0 <= k < DISPLAY_SIZE && under_sprite(x0, y0, rows, k % 64, k / 64) && #[trigger] d[k]
            && sprite_pixel(mem, addr, x0, y0, k % 64, k / 64)
}

/// The draw instruction: `rows` rows from memory at the index register,
/// at the coordinates held in registers `x` and `y`, wrapped onto the display.
pub open spec fn draw_spec(s: CpuState, x: int, y: int, rows: int) -> Result<CpuState, ExecutionError> {
    if rows > 0 && s.index + rows > MEMORY_SIZE {
        Err(ExecutionError::MemoryOutOfBounds { address: (s.index + rows - 1) as usize })
    } else {
        let x0 = s.registers[x] as int % 64;
        let y0 = s.registers[y] as int % 32;
        let hit = draw_collides(s.display, s.memory, s.index as int, x0, y0, rows);
        Ok(
            set_reg(
                CpuState {
                    display: drawn_display(s.display, s.memory, s.index as int, x0, y0, rows),
                    ..s
                },
                FLAG_REGISTER as int,
                if hit { 1 } else { 0 },
            ),
        )
    }
}

/// Families 0x0 (clear, return) and 0x2 (call), and the two jumps: the
/// absolute one and the one with an offset, whose register the quirks pick.
pub open spec fn flow_spec(s: CpuState, w: u16) -> Result<CpuState, ExecutionError> {
    let f = family_of(w);
    let nn = byte_of(w);
    let nnn = addr_of(w);
    if f == 0 {
        if nn == 0xE0 {
            Ok(CpuState { display: Seq::new(DISPLAY_SIZE as nat, |k: int| false), ..s })
        } else if nn == 0xEE {
            if s.sp == 0 {
                Err(ExecutionError::StackUnderflow)
            } else {
                Ok(CpuState { sp: (s.sp - 1) as u8, pc: s.stack[s.sp - 1], ..s })
            }
        } else {
            Err(ExecutionError::UnknownInstruction { word: w })
        }
    } else if f == 1 {
        Ok(CpuState { pc: nnn as u16, ..s })
    } else if f == 2 {
        if s.sp >= STACK_SIZE {
            Err(ExecutionError::StackOverflow)
        } else {
            Ok(
                CpuState {
                    stack: s.stack.update(s.sp as int, s.pc),
                    sp: (s.sp + 1) as u8,
                    pc: nnn as u16,
                    ..s
                },
            )
        }
    } else {
        let offset = match s.quirks.jump {
            JumpQuirk::V0Offset => s.registers[0],
            JumpQuirk::VxOffset => s.registers[reg_x_of(w)],
        };
        Ok(CpuState { pc: (offset + nnn) as u16, ..s })
    }
}

/// Family 0x8: register-to-register arithmetic and logic. The shifts act on
/// Vx or on Vy as the quirks say, and leave the bit shifted out in VF as 0 or 1.
pub open spec fn alu_spec(s: CpuState, w: u16) -> Result<CpuState, ExecutionError> {
    let x = reg_x_of(w);
    let vx = s.registers[x] as int;
    let vy = s.registers[reg_y_of(w)] as int;
    let n = nibble_of(w);
    let shifted = match s.quirks.shift {
        ShiftQuirk::Modern => vx,
        ShiftQuirk::Legacy => vy,
    };
    if n == 0 {
        Ok(set_reg(s, x, vy))
    } else if n == 1 {
        Ok(set_reg(s, x, (s.registers[x] | s.registers[reg_y_of(w)]) as int))
    } else if n == 2 {
        Ok(set_reg(s, x, (s.registers[x] & s.registers[reg_y_of(w)]) as int))
    } else if n == 3 {
        Ok(set_reg(s, x, (s.registers[x] ^ s.registers[reg_y_of(w)]) as int))
    } else if n == 4 {
        Ok(set_reg_flag(s, x, (vx + vy) % 256, vx + vy > 255))
    } else if n == 5 {
        Ok(set_reg_flag(s, x, (vx - vy + 256) % 256, vx >= vy))
    } else if n == 6 {
        Ok(set_reg_flag(s, x, shifted / 2, shifted % 2 == 1))
    } else if n == 7 {
        Ok(set_reg_flag(s, x, (vy - vx + 256) % 256, vy >= vx))
    } else if n == 0xE {
        Ok(set_reg_flag(s, x, (shifted * 2) % 256, shifted >= 128))
    } else {
        Err(ExecutionError::UnknownInstruction { word: w })
    }
}

/// Family 0xF: timers, keypad wait, the index register and memory transfers.
pub open spec fn misc_spec(s: CpuState, w: u16) -> Result<CpuState, ExecutionError> {
    let x = reg_x_of(w);
    let vx = s.registers[x];
    let nn = byte_of(w);
    let i = s.index as int;
    if nn == 0x07 {
        Ok(set_reg(s, x, s.delay_timer as int))
    } else if nn == 0x15 {
        Ok(CpuState { delay_timer: vx, ..s })
    } else if nn == 0x18 {
        Ok(CpuState { sound_timer: vx, ..s })
    } else if nn == 0x1E {
        Ok(CpuState { index: ((i + vx) % 0x10000) as u16, ..s })
    } else if nn == 0x0A {
        if any_pressed(s.keys) {
            Ok(set_reg(s, x, first_pressed(s.keys)))
        } else {
            Ok(CpuState { pc: pc_plus(s.pc, -2), ..s })
        }
    } else if nn == 0x29 {
        Ok(CpuState { index: (FONTSET_START_ADDRESS + 5 * vx) as u16, ..s })
    } else if nn == 0x33 {
        if i + 2 >= MEMORY_SIZE {
            Err(ExecutionError::MemoryOutOfBounds { address: (i + 2) as usize })
        } else {
            Ok(
                CpuState {
                    memory: s.memory.update(i, (vx / 100) as u8).update(
                        i + 1,
                        ((vx % 100) / 10) as u8,
                    ).update(i + 2, (vx % 10) as u8),
                    ..s
                },
            )
        }
    } else if nn == 0x55 {
        if i + x >= MEMORY_SIZE {
            Err(ExecutionError::MemoryOutOfBounds { address: (i + x) as usize })
        } else {
            Ok(
                CpuState {
                    memory: Seq::new(
                        MEMORY_SIZE as nat,
                        |a: int|
                            if i <= a <= i + x {
                                s.registers[a - i]
                            } else {
                                s.memory[a]
                            },
                    ),
                    ..s
                },
            )
        }
    } else if nn == 0x65 {
        if i + x >= MEMORY_SIZE {
            Err(ExecutionError::MemoryOutOfBounds { address: (i + x) as usize })
        } else {
            Ok(
                CpuState {
                    registers: Seq::new(
                        REGISTER_COUNT as nat,
                        |j: int|
                            if j <= x {
                                s.memory[i + j]
                            } else {
                                s.registers[j]
                            },
                    ),
                    ..s
                },
            )
        }
    } else {
        Err(ExecutionError::UnknownInstruction { word: w })
    }
}

/// What executing the word `w` does to `s`, whose program counter has already
/// moved past it. `random` is the byte drawn for the random instruction.
pub open spec fn execute_spec(s: CpuState, w: u16, random: u8) -> Result<CpuState, ExecutionError> {
    let f = family_of(w);
    let x = reg_x_of(w);
    let vx = s.registers[x];
    let vy = s.registers[reg_y_of(w)];
    let nn = byte_of(w);
    if f == 0 || f == 1 || f == 2 || f == 0xB {
        flow_spec(s, w)
    } else if f == 3 {
        Ok(skip_if(s, vx == nn))
    } else if f == 4 {
        Ok(skip_if(s, vx != nn))
    } else if f == 5 {
        Ok(skip_if(s, vx == vy))
    } else if f == 6 {
        Ok(set_reg(s, x, nn))
    } else if f == 7 {
        Ok(set_reg(s, x, (vx + nn) % 256))
    } else if f == 8 {
        alu_spec(s, w)
    } else if f == 9 {
        Ok(skip_if(s, vx != vy))
    } else if f == 0xA {
        Ok(CpuState { index: addr_of(w) as u16, ..s })
    } else if f == 0xC {
        Ok(set_reg(s, x, (random & (nn as u8)) as int))
    } else if f == 0xD {
        draw_spec(s, x, reg_y_of(w), nibble_of(w))
    } else if f == 0xE {
        if nn == 0x9E {
            Ok(skip_if(s, key_down(s.keys, vx as int)))
        } else if nn == 0xA1 {
            Ok(skip_if(s, !key_down(s.keys, vx as int)))
        } else {
            Err(ExecutionError::UnknownInstruction { word: w })
        }
    } else {
        misc_spec(s, w)
    }
}

/// The big-endian word at the program counter.
pub open spec fn fetch_word(s: CpuState) -> u16 {
    (s.memory[s.pc as int] * 256 + s.memory[s.pc + 1]) as u16
}

/// One full cycle: fetch the word at the program counter, move past it, execute it.
pub open spec fn cycle_spec(s: CpuState, random: u8) -> Result<CpuState, ExecutionError> {
    if s.pc + 1 >= MEMORY_SIZE {
        Err(ExecutionError::MemoryOutOfBounds { address: (s.pc + 1) as usize })
    } else {
        execute_spec(CpuState { pc: (s.pc + 2) as u16, ..s }, fetch_word(s), random)
    }
}

/// A call returned `r` and left `post` behind, from `pre`, as `expected` says: on
/// success the state it gives, on failure its error and no change.
pub open spec fn follows(
    pre: CpuState,
    post: CpuState,
    r: Result<(), ExecutionError>,
    expected: Result<CpuState, ExecutionError>,
) -> bool {
    match expected {
        Ok(t) => r is Ok && post == t,
        Err(e) => r == Err::<(), ExecutionError>(e) && post == pre,
    }
}

} // verus!
