use crate::instruction::{family_of, Instruction};
use crate::semantics::{
    alu_spec, any_pressed, cycle_spec, draw_collides, drawn_display, execute_spec, fetch_word,
    first_pressed, flow_spec, follows, is_first_pressed, misc_spec, pc_plus, set_reg,
    skip_if, sprite_pixel, ticked, under_sprite,
};
use vstd::arithmetic::div_mod::lemma_fundamental_div_mod_converse;
use vstd::prelude::*;

verus! {

pub const MEMORY_SIZE: usize = 4096;

pub const REGISTER_COUNT: usize = 16;

pub const STACK_SIZE: usize = 16;

pub const KEY_COUNT: usize = 16;

pub const DISPLAY_WIDTH: usize = 64;

pub const DISPLAY_HEIGHT: usize = 32;

pub const DISPLAY_SIZE: usize = 2048;

pub const FONTSET_START_ADDRESS: usize = 0x50;

pub const PROGRAM_START_ADDRESS: usize = 0x200;

/// The flag register VF.
pub const FLAG_REGISTER: usize = 0xF;

/// What can go wrong while loading or running a program.
#[derive(Debug, Clone, Copy, PartialEq, Eq, Structural)]
pub enum ExecutionError {
    /// The word's family or sub-code names no instruction.
    UnknownInstruction { word: u16 },
    /// An access reached past the end of memory; `address` is the highest one needed.
    MemoryOutOfBounds { address: usize },
    /// A call with all stack slots in use.
    StackOverflow,
    /// A return with an empty stack.
    StackUnderflow,
    /// A program that does not fit between the program start and the end of memory.
    RomTooLarge,
}

/// How the shift instructions pick their operand.
#[derive(Debug, Clone, Copy, PartialEq, Eq, Structural)]
pub enum ShiftQuirk {
    /// Shift Vx in place.
    Modern,
    /// Copy Vy into Vx first, then shift.
    Legacy,
}

/// Which register the jump-with-offset instruction adds to its address.
#[derive(Debug, Clone, Copy, PartialEq, Eq, Structural)]
pub enum JumpQuirk {
    /// Add V0.
    V0Offset,
    /// Add Vx, x being the top nibble of the address.
    VxOffset,
}

/// The behaviours on which CHIP-8 interpreters of different eras disagree.
#[derive(Debug, Clone, Copy, PartialEq, Eq, Structural)]
pub struct Quirks {
    pub shift: ShiftQuirk,
    pub jump: JumpQuirk,
}

/// The machine state as mathematical values.
#[verifier::ext_equal]
pub struct CpuState {
    pub memory: Seq<u8>,
    pub registers: Seq<u8>,
    pub index: u16,
    pub pc: u16,
    pub stack: Seq<u16>,
    pub sp: u8,
    pub delay_timer: u8,
    pub sound_timer: u8,
    pub keys: Seq<bool>,
    pub display: Seq<bool>,
    pub quirks: Quirks,
}

/// The whole state of a CHIP-8 machine.
pub struct CPU {
    pub memory: [u8; 4096],
    pub registers: [u8; 16],
    pub index: u16,
    pub pc: u16,
    pub stack: [u16; 16],
    pub sp: u8,
    pub delay_timer: u8,
    pub sound_timer: u8,
    pub keys: [bool; 16],
    pub display: [bool; 2048],
    pub quirks: Quirks,
}

impl View for CPU {
    type V = CpuState;

    open spec fn view(&self) -> CpuState {
        CpuState {
            memory: self.memory@,
            registers: self.registers@,
            index: self.index,
            pc: self.pc,
            stack: self.stack@,
            sp: self.sp,
            delay_timer: self.delay_timer,
            sound_timer: self.sound_timer,
            keys: self.keys@,
            display: self.display@,
            quirks: self.quirks,
        }
    }
}

/// The glyphs of the hexadecimal digits, five rows of one byte each.
pub open spec fn font_bytes() -> Seq<u8> {
    seq![
        0xF0u8, 0x90, 0x90, 0x90, 0xF0, 0x20, 0x60, 0x20, 0x20, 0x70,
        0xF0, 0x10, 0xF0, 0x80, 0xF0, 0xF0, 0x10, 0xF0, 0x10, 0xF0,
        0x90, 0x90, 0xF0, 0x10, 0x10, 0xF0, 0x80, 0xF0, 0x10, 0xF0,
        0xF0, 0x80, 0xF0, 0x90, 0xF0, 0xF0, 0x10, 0x20, 0x40, 0x40,
        0xF0, 0x90, 0xF0, 0x90, 0xF0, 0xF0, 0x90, 0xF0, 0x10, 0xF0,
        0xF0, 0x90, 0xF0, 0x90, 0x90, 0xE0, 0x90, 0xE0, 0x90, 0xE0,
        0xF0, 0x80, 0x80, 0x80, 0xF0, 0xE0, 0x90, 0x90, 0x90, 0xE0,
        0xF0, 0x80, 0xF0, 0x80, 0xF0, 0xF0, 0x80, 0xF0, 0x80, 0x80,
    ]
}

/// Index of the pixel at column `x` and row `y`.
pub open spec fn pixel_index_of(x: int, y: int) -> int {
    y * DISPLAY_WIDTH + x
}

impl CpuState {
    /// Each part has its machine size, and the stack pointer stays within the stack.
    pub open spec fn wf(&self) -> bool {
        &&& self.memory.len() == MEMORY_SIZE
        &&& self.registers.len() == REGISTER_COUNT
        &&& self.stack.len() == STACK_SIZE
        &&& self.keys.len() == KEY_COUNT
        &&& self.display.len() == DISPLAY_SIZE
        &&& self.sp <= STACK_SIZE
    }
}

impl CPU {
    /// The stack pointer stays within the stack.
    pub open spec fn wf(&self) -> bool {
        self.sp <= STACK_SIZE
    }

    /// A fresh machine with the modern shift and the V0 jump: see `with_quirks`.
    pub fn new() -> (r: CPU)
        ensures
            r.wf(),
            r.quirks == (Quirks { shift: ShiftQuirk::Modern, jump: JumpQuirk::V0Offset }),
            r.pc == PROGRAM_START_ADDRESS,
            r.index == 0,
            r.sp == 0,
            r.delay_timer == 0,
            r.sound_timer == 0,
            forall|i: int| 0 <= i < REGISTER_COUNT ==> r.registers[i] == 0,
            forall|i: int| 0 <= i < STACK_SIZE ==> r.stack[i] == 0,
            forall|i: int| 0 <= i < KEY_COUNT ==> !r.keys[i],
            forall|i: int| 0 <= i < DISPLAY_SIZE ==> !r.display[i],
            forall|i: int|
                0 <= i < MEMORY_SIZE ==> r.memory[i] == if FONTSET_START_ADDRESS <= i
                    < FONTSET_START_ADDRESS + 80 {
                    font_bytes()[i - FONTSET_START_ADDRESS]
                } else {
                    0
                },
    {
        CPU::with_quirks(Quirks { shift: ShiftQuirk::Modern, jump: JumpQuirk::V0Offset })
    }

    /// A fresh machine: zeroed memory and registers, the font loaded at its
    /// address, the program counter at the program start, and `quirks`.
    pub fn with_quirks(quirks: Quirks) -> (r: CPU)
        ensures
            r.wf(),
            r.quirks == quirks,
            r.pc == PROGRAM_START_ADDRESS,
            r.index == 0,
            r.sp == 0,
            r.delay_timer == 0,
            r.sound_timer == 0,
            forall|i: int| 0 <= i < REGISTER_COUNT ==> r.registers[i] == 0,
            forall|i: int| 0 <= i < STACK_SIZE ==> r.stack[i] == 0,
            forall|i: int| 0 <= i < KEY_COUNT ==> !r.keys[i],
            forall|i: int| 0 <= i < DISPLAY_SIZE ==> !r.display[i],
            forall|i: int|
                0 <= i < MEMORY_SIZE ==> r.memory[i] == if FONTSET_START_ADDRESS <= i
                    < FONTSET_START_ADDRESS + 80 {
                    font_bytes()[i - FONTSET_START_ADDRESS]
                } else {
                    0
                },
    {
        let mut cpu = CPU {
            memory: [0u8; 4096],
            registers: [0u8; 16],
            index: 0,
            pc: 0x200,
            stack: [0u16; 16],
            sp: 0,
            delay_timer: 0,
            sound_timer: 0,
            keys: [false; 16],
            display: [false; 2048],
            quirks,
        };
        cpu.load_fonts();
        cpu
    }

    /// Writes the font at its address and leaves the rest unchanged.
    fn load_fonts(&mut self)
        ensures
            final(self).memory@ == old(self).memory@.update_subrange_with(
                FONTSET_START_ADDRESS as int,
                font_bytes(),
            ),
            final(self).registers == old(self).registers,
            final(self).index == old(self).index,
            final(self).pc == old(self).pc,
            final(self).stack == old(self).stack,
            final(self).sp == old(self).sp,
            final(self).delay_timer == old(self).delay_timer,
            final(self).sound_timer == old(self).sound_timer,
            final(self).keys == old(self).keys,
            final(self).display == old(self).display,
            final(self).quirks == old(self).quirks,
    {
        let fonts: [u8; 80] = [
            0xF0, 0x90, 0x90, 0x90, 0xF0, 0x20, 0x60, 0x20, 0x20, 0x70,
            0xF0, 0x10, 0xF0, 0x80, 0xF0, 0xF0, 0x10, 0xF0, 0x10, 0xF0,
            0x90, 0x90, 0xF0, 0x10, 0x10, 0xF0, 0x80, 0xF0, 0x10, 0xF0,
            0xF0, 0x80, 0xF0, 0x90, 0xF0, 0xF0, 0x10, 0x20, 0x40, 0x40,
            0xF0, 0x90, 0xF0, 0x90, 0xF0, 0xF0, 0x90, 0xF0, 0x10, 0xF0,
            0xF0, 0x90, 0xF0, 0x90, 0x90, 0xE0, 0x90, 0xE0, 0x90, 0xE0,
            0xF0, 0x80, 0x80, 0x80, 0xF0, 0xE0, 0x90, 0x90, 0x90, 0xE0,
            0xF0, 0x80, 0xF0, 0x80, 0xF0, 0xF0, 0x80, 0xF0, 0x80, 0x80,
        ];
        assert(fonts@ =~= font_bytes());
        let ghost mem0 = self.memory@;
        assert(mem0.update_subrange_with(FONTSET_START_ADDRESS as int, font_bytes().subrange(0, 0)) =~= mem0);
        let mut i: usize = 0;
        while i < 80
            invariant
                i <= 80,
                fonts@ == font_bytes(),
                self.memory@ == mem0.update_subrange_with(
                    FONTSET_START_ADDRESS as int,
                    font_bytes().subrange(0, i as int),
                ),
                mem0 == old(self).memory@,
                self.registers == old(self).registers,
                self.index == old(self).index,
                self.pc == old(self).pc,
                self.stack == old(self).stack,
                self.sp == old(self).sp,
                self.delay_timer == old(self).delay_timer,
                self.sound_timer == old(self).sound_timer,
                self.keys == old(self).keys,
                self.display == old(self).display,
                self.quirks == old(self).quirks,
            decreases 80 - i,
        {
            self.memory[FONTSET_START_ADDRESS + i] = fonts[i];
            i = i + 1;
            assert(self.memory@ =~= mem0.update_subrange_with(
                FONTSET_START_ADDRESS as int,
                font_bytes().subrange(0, i as int),
            ));
        }
        assert(font_bytes().subrange(0, 80) =~= font_bytes());
    }
}

impl CPU {
    /// Copies a program into memory at the program start. A program longer than
    /// the memory above that address is refused and nothing changes.
    pub fn load_rom(&mut self, rom: Vec<u8>) -> (r: Result<(), ExecutionError>)
        ensures
            rom@.len() > MEMORY_SIZE - PROGRAM_START_ADDRESS ==> r == Err::<(), ExecutionError>(
                ExecutionError::RomTooLarge,
            ) && final(self)@ == old(self)@,
            rom@.len() <= MEMORY_SIZE - PROGRAM_START_ADDRESS ==> r is Ok && final(self)@ == (
            CpuState {
                memory: old(self)@.memory.update_subrange_with(
                    PROGRAM_START_ADDRESS as int,
                    rom@,
                ),
                ..old(self)@
            }),
    {
        if rom.len() > MEMORY_SIZE - PROGRAM_START_ADDRESS {
            return Err(ExecutionError::RomTooLarge);
        }
        let ghost mem0 = self.memory@;
        assert(mem0.update_subrange_with(PROGRAM_START_ADDRESS as int, rom@.subrange(0, 0)) =~= mem0);
        let mut i: usize = 0;
        while i < rom.len()
            invariant
                i <= rom@.len() <= MEMORY_SIZE - PROGRAM_START_ADDRESS,
                mem0 == old(self).memory@,
                self.memory@ == mem0.update_subrange_with(
                    PROGRAM_START_ADDRESS as int,
                    rom@.subrange(0, i as int),
                ),
                self@ == (CpuState { memory: self.memory@, ..old(self)@ }),
            decreases rom@.len() - i,
        {
            self.memory[PROGRAM_START_ADDRESS + i] = rom[i];
            i = i + 1;
            assert(self.memory@ =~= mem0.update_subrange_with(
                PROGRAM_START_ADDRESS as int,
                rom@.subrange(0, i as int),
            ));
        }
        assert(rom@.subrange(0, rom@.len() as int) =~= rom@);
        Ok(())
    }

    /// Marks key `key_index` as held down.
    pub fn key_press(&mut self, key_index: usize)
        requires
            key_index < KEY_COUNT,
        ensures
            final(self)@ == (CpuState { keys: old(self)@.keys.update(key_index as int, true), ..old(self)@ }),
    {
        self.keys[key_index] = true;
    }

    /// Marks key `key_index` as released.
    pub fn key_release(&mut self, key_index: usize)
        requires
            key_index < KEY_COUNT,
        ensures
            final(self)@ == (CpuState { keys: old(self)@.keys.update(key_index as int, false), ..old(self)@ }),
    {
        self.keys[key_index] = false;
    }

    /// The index of the pixel at column `x`, row `y`: `y * 64 + x`.
    pub fn get_display_pixel_index(&self, x: usize, y: usize) -> (r: usize)
        requires
            y * DISPLAY_WIDTH + x <= usize::MAX,
        ensures
            r == pixel_index_of(x as int, y as int),
    {
        y * DISPLAY_WIDTH + x
    }

    /// Whether pixel `index` is on.
    pub fn get_display_pixel(&self, index: usize) -> (r: bool)
        requires
            index < DISPLAY_SIZE,
        ensures
            r == self.display@[index as int],
    {
        self.display[index]
    }

    /// Sets the flag register VF.
    pub fn set_carry_flag(&mut self, value: u8)
        ensures
            final(self)@ == set_reg(old(self)@, FLAG_REGISTER as int, value as int),
    {
        self.registers[FLAG_REGISTER] = value;
    }

    /// Turns pixel `index` on or off.
    pub fn update_display_pixel(&mut self, index: usize, value: bool)
        requires
            index < DISPLAY_SIZE,
        ensures
            final(self)@ == (CpuState { display: old(self)@.display.update(index as int, value), ..old(self)@ }),
    {
        self.display[index] = value;
    }

    /// One tick of the 60 Hz clock: each timer that is above zero drops by one.
    pub fn decrement_timers(&mut self)
        ensures
            final(self)@ == (CpuState {
                delay_timer: ticked(old(self).delay_timer),
                sound_timer: ticked(old(self).sound_timer),
                ..old(self)@
            }),
    {
        if self.delay_timer > 0 {
            self.delay_timer = self.delay_timer - 1;
        }
        if self.sound_timer > 0 {
            self.sound_timer = self.sound_timer - 1;
        }
    }
}

/// The pixel index `y * 64 + x` gives back its column and row.
proof fn lemma_pixel_coords(x: int, y: int)
    requires
        0 <= x < DISPLAY_WIDTH,
        0 <= y,
    ensures
        pixel_index_of(x, y) % 64 == x,
        pixel_index_of(x, y) / 64 == y,
{
    lemma_fundamental_div_mod_converse(pixel_index_of(x, y), 64, y, x);
}

/// The pixels of a draw covered so far: the rows before `row`, and in row `row`
/// the columns before `col`.
spec fn drawn_so_far(x0: int, y0: int, row: int, col: int, k: int) -> bool {
    under_sprite(x0, y0, row, k % 64, k / 64) || (k / 64 == y0 + row && x0 <= k % 64 < x0 + col)
}

impl CPU {
    /// XORs a sprite of `rows` rows, read from memory at the index register,
    /// onto the display at `(x0, y0)`, clipped at the edges. Returns whether a
    /// pixel that was on went off.
    fn draw_sprite(&mut self, x0: u8, y0: u8, rows: u8) -> (hit: bool)
        requires
            x0 < DISPLAY_WIDTH,
            y0 < DISPLAY_HEIGHT,
            rows < 16,
            rows == 0 || old(self).index + rows <= MEMORY_SIZE,
        ensures
            final(self)@ == (CpuState {
                display: drawn_display(
                    old(self)@.display,
                    old(self)@.memory,
                    old(self).index as int,
                    x0 as int,
                    y0 as int,
                    rows as int,
                ),
                ..old(self)@
            }),
            hit == draw_collides(
                old(self)@.display,
                old(self)@.memory,
                old(self).index as int,
                x0 as int,
                y0 as int,
                rows as int,
            ),
    {
        let ghost d0 = self.display@;
        let ghost mem = self.memory@;
        let ghost a = self.index as int;
        let last: u8 = if rows <= 32 - y0 { rows } else { 32 - y0 };
        let cols: u8 = if 64 - x0 >= 8 { 8 } else { 64 - x0 };
        let mut hit = false;
        let mut row: u8 = 0;
        while row < last
            invariant
                row <= last,
                last as int == if rows <= 32 - y0 { rows as int } else { 32 - y0 },
                cols as int == if 64 - x0 >= 8 { 8 } else { 64 - x0 },
                x0 < DISPLAY_WIDTH,
                y0 < DISPLAY_HEIGHT,
                rows < 16,
                rows == 0 || a + rows <= MEMORY_SIZE,
                d0 == old(self)@.display,
                mem == old(self)@.memory,
                a == old(self).index,
                self@ == (CpuState { display: self.display@, ..old(self)@ }),
                forall|k: int|
                    0 <= k < DISPLAY_SIZE ==> #[trigger] self.display@[k] == if under_sprite(
                        x0 as int,
                        y0 as int,
                        row as int,
                        k % 64,
                        k / 64,
                    ) {
                        d0[k] != sprite_pixel(mem, a, x0 as int, y0 as int, k % 64, k / 64)
                    } else {
                        d0[k]
                    },
                hit == exists|k: int|
                    0 <= k < DISPLAY_SIZE && under_sprite(x0 as int, y0 as int, row as int, k % 64, k / 64)
                        && #[trigger] d0[k] && sprite_pixel(mem, a, x0 as int, y0 as int, k % 64, k / 64),
            decreases last - row,
        {
            let sprite_byte = self.memory[self.index as usize + row as usize];
            let y = y0 + row;
            let mut col: u8 = 0;
            while col < cols
                invariant
                    row < last,
                    y == y0 + row,
                    col <= cols,
                    last as int == if rows <= 32 - y0 { rows as int } else { 32 - y0 },
                    cols as int == if 64 - x0 >= 8 { 8 } else { 64 - x0 },
                    x0 < DISPLAY_WIDTH,
                    y0 < DISPLAY_HEIGHT,
                    rows < 16,
                    rows == 0 || a + rows <= MEMORY_SIZE,
                    sprite_byte == mem[a + row],
                    d0 == old(self)@.display,
                    mem == old(self)@.memory,
                    a == old(self).index,
                    self@ == (CpuState { display: self.display@, ..old(self)@ }),
                    forall|k: int|
                        0 <= k < DISPLAY_SIZE ==> #[trigger] self.display@[k] == if drawn_so_far(
                            x0 as int,
                            y0 as int,
                            row as int,
                            col as int,
                            k,
                        ) {
                            d0[k] != sprite_pixel(mem, a, x0 as int, y0 as int, k % 64, k / 64)
                        } else {
                            d0[k]
                        },
                    hit == exists|k: int|
                        0 <= k < DISPLAY_SIZE && drawn_so_far(x0 as int, y0 as int, row as int, col as int, k)
                            && #[trigger] d0[k] && sprite_pixel(mem, a, x0 as int, y0 as int, k % 64, k / 64),
                decreases cols - col,
            {
                let x = x0 + col;
                let idx = y as usize * DISPLAY_WIDTH + x as usize;
                proof {
                    lemma_pixel_coords(x as int, y as int);
                }
                let current = self.display[idx];
                let bit = (sprite_byte >> (7 - col)) & 1u8 == 1u8;
                assert(bit == sprite_pixel(mem, a, x0 as int, y0 as int, idx as int % 64, idx as int / 64));
                self.display[idx] = current != bit;
                let ghost old_hit = hit;
                hit = hit || (current && bit);
                col = col + 1;
                proof {
                    assert forall|k: int| 0 <= k < DISPLAY_SIZE implies drawn_so_far(
                        x0 as int,
                        y0 as int,
                        row as int,
                        col as int,
                        k,
                    ) == (drawn_so_far(x0 as int, y0 as int, row as int, (col - 1) as int, k) || k
                        == idx) by {
                        if k == idx {
                        } else {
                            lemma_fundamental_div_mod_converse(k, 64, k / 64, k % 64);
                        }
                    }
                    if hit && !old_hit {
                        assert(d0[idx as int]);
                    }
                }
            }
            proof {
                assert forall|k: int| 0 <= k < DISPLAY_SIZE implies drawn_so_far(
                    x0 as int,
                    y0 as int,
                    row as int,
                    cols as int,
                    k,
                ) == under_sprite(x0 as int, y0 as int, (row + 1) as int, k % 64, k / 64) by {
                    lemma_fundamental_div_mod_converse(k, 64, k / 64, k % 64);
                }
            }
            row = row + 1;
        }
        proof {
            assert forall|k: int|
                #![trigger self.display@[k]]
                0 <= k < DISPLAY_SIZE implies under_sprite(
                x0 as int,
                y0 as int,
                last as int,
                k % 64,
                k / 64,
            ) == under_sprite(x0 as int, y0 as int, rows as int, k % 64, k / 64) by {
                lemma_fundamental_div_mod_converse(k, 64, k / 64, k % 64);
            }
            assert(self.display@ =~= drawn_display(d0, mem, a, x0 as int, y0 as int, rows as int));
        }
        hit
    }
}

/// The lowest key held down is the one that `first_pressed` picks.
pub proof fn lemma_first_pressed_unique(keys: Seq<bool>, k: int)
    requires
        is_first_pressed(keys, k),
    ensures
        first_pressed(keys) == k,
        any_pressed(keys),
{
    let j = first_pressed(keys);
    assert(is_first_pressed(keys, j));
    if j < k {
        assert(!keys[j]);
    }
    if k < j {
        assert(!keys[k]);
    }
}

/// `pc` moved on by one instruction, in 16-bit arithmetic.
fn pc_forward(pc: u16) -> (r: u16)
    ensures
        r == pc_plus(pc, 2),
{
    if pc < 0xFFFE {
        pc + 2
    } else {
        pc - 0xFFFE
    }
}

/// `pc` moved back by one instruction, in 16-bit arithmetic.
fn pc_back(pc: u16) -> (r: u16)
    ensures
        r == pc_plus(pc, -2),
{
    if pc >= 2 {
        pc - 2
    } else {
        pc + 0xFFFE
    }
}

impl CPU {
    /// Skips the next instruction when `cond` holds.
    fn skip_next_if(&mut self, cond: bool)
        ensures
            final(self)@ == skip_if(old(self)@, cond),
    {
        if cond {
            self.pc = pc_forward(self.pc);
        }
    }

    /// The lowest-numbered key held down, if any.
    fn first_pressed_key(&self) -> (r: Option<u8>)
        ensures
            r matches Some(k) ==> is_first_pressed(self.keys@, k as int),
            r is None ==> !any_pressed(self.keys@),
    {
        let mut i: usize = 0;
        while i < KEY_COUNT
            invariant
                i <= KEY_COUNT,
                forall|j: int| 0 <= j < i ==> !self.keys@[j],
            decreases KEY_COUNT - i,
        {
            if self.keys[i] {
                return Some(i as u8);
            }
            i = i + 1;
        }
        assert(!any_pressed(self.keys@));
        None
    }

    /// Copies registers V0 through Vx into memory from the index register on.
    fn store_registers(&mut self, x: usize)
        requires
            x < REGISTER_COUNT,
            old(self).index + x < MEMORY_SIZE,
        ensures
            final(self)@ == (CpuState {
                memory: Seq::new(
                    MEMORY_SIZE as nat,
                    |a: int|
                        if old(self).index <= a <= old(self).index + x {
                            old(self)@.registers[a - old(self).index]
                        } else {
                            old(self)@.memory[a]
                        },
                ),
                ..old(self)@
            }),
    {
        let base = self.index as usize;
        let mut j: usize = 0;
        while j <= x
            invariant
                j <= x + 1,
                x < REGISTER_COUNT,
                base == old(self).index,
                base + x < MEMORY_SIZE,
                self@ == (CpuState { memory: self.memory@, ..old(self)@ }),
                forall|a: int|
                    0 <= a < MEMORY_SIZE ==> #[trigger] self.memory@[a] == if base <= a < base + j {
                        old(self)@.registers[a - base]
                    } else {
                        old(self)@.memory[a]
                    },
            decreases x + 1 - j,
        {
            self.memory[base + j] = self.registers[j];
            j = j + 1;
        }
        assert(self.memory@ =~= Seq::new(
            MEMORY_SIZE as nat,
            |a: int|
                if base <= a <= base + x {
                    old(self)@.registers[a - base]
                } else {
                    old(self)@.memory[a]
                },
        ));
    }

    /// Fills registers V0 through Vx from memory at the index register on.
    fn load_registers(&mut self, x: usize)
        requires
            x < REGISTER_COUNT,
            old(self).index + x < MEMORY_SIZE,
        ensures
            final(self)@ == (CpuState {
                registers: Seq::new(
                    REGISTER_COUNT as nat,
                    |j: int|
                        if j <= x {
                            old(self)@.memory[old(self).index + j]
                        } else {
                            old(self)@.registers[j]
                        },
                ),
                ..old(self)@
            }),
    {
        let base = self.index as usize;
        let mut j: usize = 0;
        while j <= x
            invariant
                j <= x + 1,
                x < REGISTER_COUNT,
                base == old(self).index,
                base + x < MEMORY_SIZE,
                self@ == (CpuState { registers: self.registers@, ..old(self)@ }),
                forall|r: int|
                    0 <= r < REGISTER_COUNT ==> #[trigger] self.registers@[r] == if r < j {
                        old(self)@.memory[base + r]
                    } else {
                        old(self)@.registers[r]
                    },
            decreases x + 1 - j,
        {
            self.registers[j] = self.memory[base + j];
            j = j + 1;
        }
        assert(self.registers@ =~= Seq::new(
            REGISTER_COUNT as nat,
            |r: int|
                if r <= x {
                    old(self)@.memory[base + r]
                } else {
                    old(self)@.registers[r]
                },
        ));
    }

    /// Clear, return, call and the two jumps.
    fn execute_flow(&mut self, ins: &Instruction, word: u16) -> (r: Result<(), ExecutionError>)
        requires
            old(self).wf(),
            ins.decodes(word),
            ins.op_code == 0 || ins.op_code == 1 || ins.op_code == 2 || ins.op_code == 0xB,
        ensures
            final(self).wf(),
            follows(old(self)@, final(self)@, r, flow_spec(old(self)@, word)),
    {
        if ins.op_code == 0 {
            if ins.nn == 0xE0 {
                self.display = [false; 2048];
                assert(self.display@ =~= Seq::new(DISPLAY_SIZE as nat, |k: int| false));
                Ok(())
            } else if ins.nn == 0xEE {
                if self.sp == 0 {
                    return Err(ExecutionError::StackUnderflow);
                }
                self.sp = self.sp - 1;
                self.pc = self.stack[self.sp as usize];
                Ok(())
            } else {
                Err(ExecutionError::UnknownInstruction { word })
            }
        } else if ins.op_code == 1 {
            self.pc = ins.nnn;
            Ok(())
        } else if ins.op_code == 2 {
            if self.sp as usize >= STACK_SIZE {
                return Err(ExecutionError::StackOverflow);
            }
            self.stack[self.sp as usize] = self.pc;
            self.sp = self.sp + 1;
            self.pc = ins.nnn;
            Ok(())
        } else {
            let offset = match self.quirks.jump {
                JumpQuirk::V0Offset => self.registers[0],
                JumpQuirk::VxOffset => self.registers[ins.x],
            };
            self.pc = offset as u16 + ins.nnn;
            Ok(())
        }
    }

    /// Family 0x8: register-to-register arithmetic and logic.
    fn execute_alu(&mut self, ins: &Instruction, word: u16) -> (r: Result<(), ExecutionError>)
        requires
            old(self).wf(),
            ins.decodes(word),
        ensures
            final(self).wf(),
            follows(old(self)@, final(self)@, r, alu_spec(old(self)@, word)),
    {
        let x = ins.x;
        let vx = self.registers[x];
        let vy = self.registers[ins.y];
        let shifted = match self.quirks.shift {
            ShiftQuirk::Modern => vx,
            ShiftQuirk::Legacy => vy,
        };
        if ins.n == 0 {
            self.registers[x] = vy;
        } else if ins.n == 1 {
            self.registers[x] = vx | vy;
        } else if ins.n == 2 {
            self.registers[x] = vx & vy;
        } else if ins.n == 3 {
            self.registers[x] = vx ^ vy;
        } else if ins.n == 4 {
            let sum = vx as u16 + vy as u16;
            self.registers[x] = (sum % 256) as u8;
            self.set_carry_flag(if sum > 255 { 1 } else { 0 });
        } else if ins.n == 5 {
            self.registers[x] = ((vx as u16 + 256 - vy as u16) % 256) as u8;
            self.set_carry_flag(if vx >= vy { 1 } else { 0 });
        } else if ins.n == 6 {
            self.registers[x] = shifted / 2;
            self.set_carry_flag(shifted % 2);
        } else if ins.n == 7 {
            self.registers[x] = ((vy as u16 + 256 - vx as u16) % 256) as u8;
            self.set_carry_flag(if vy >= vx { 1 } else { 0 });
        } else if ins.n == 0xE {
            self.registers[x] = ((shifted as u16 * 2) % 256) as u8;
            self.set_carry_flag(if shifted >= 128 { 1 } else { 0 });
        } else {
            return Err(ExecutionError::UnknownInstruction { word });
        }
        Ok(())
    }

    /// Family 0xF: timers, keypad wait, the index register and memory transfers.
    fn execute_misc(&mut self, ins: &Instruction, word: u16) -> (r: Result<(), ExecutionError>)
        requires
            old(self).wf(),
            ins.decodes(word),
        ensures
            final(self).wf(),
            follows(old(self)@, final(self)@, r, misc_spec(old(self)@, word)),
    {
        let x = ins.x;
        let vx = self.registers[x];
        if ins.nn == 0x07 {
            self.registers[x] = self.delay_timer;
        } else if ins.nn == 0x15 {
            self.delay_timer = vx;
        } else if ins.nn == 0x18 {
            self.sound_timer = vx;
        } else if ins.nn == 0x1E {
            self.index = ((self.index as u32 + vx as u32) % 0x10000) as u16;
        } else if ins.nn == 0x0A {
            match self.first_pressed_key() {
                Some(k) => {
                    proof {
                        lemma_first_pressed_unique(self.keys@, k as int);
                    }
                    self.registers[x] = k;
                },
                None => {
                    self.pc = pc_back(self.pc);
                },
            }
        } else if ins.nn == 0x29 {
            self.index = FONTSET_START_ADDRESS as u16 + 5 * (vx as u16);
        } else if ins.nn == 0x33 {
            let i = self.index as usize;
            if i + 2 >= MEMORY_SIZE {
                return Err(ExecutionError::MemoryOutOfBounds { address: i + 2 });
            }
            self.memory[i] = vx / 100;
            self.memory[i + 1] = (vx % 100) / 10;
            self.memory[i + 2] = vx % 10;
        } else if ins.nn == 0x55 {
            let i = self.index as usize;
            if i + x >= MEMORY_SIZE {
                return Err(ExecutionError::MemoryOutOfBounds { address: i + x });
            }
            self.store_registers(x);
        } else if ins.nn == 0x65 {
            let i = self.index as usize;
            if i + x >= MEMORY_SIZE {
                return Err(ExecutionError::MemoryOutOfBounds { address: i + x });
            }
            self.load_registers(x);
        } else {
            return Err(ExecutionError::UnknownInstruction { word });
        }
        Ok(())
    }
}

/// Relies on rand::random: a byte drawn from the thread's generator, uniform
/// over all 256 values. Nothing is promised of any one draw.
#[verifier::external_body]
fn random_byte() -> (r: u8) {
    rand::random::<u8>()
}

impl CPU {
    /// Executes the word `word`, with the program counter already past it.
    /// `random` is the byte that the random instruction masks. On an error
    /// nothing changes.
    pub fn execute_word(&mut self, word: u16, random: u8) -> (r: Result<(), ExecutionError>)
        requires
            old(self).wf(),
        ensures
            final(self).wf(),
            follows(old(self)@, final(self)@, r, execute_spec(old(self)@, word, random)),
    {
        let ins = Instruction::from_bytes(word);
        let x = ins.x;
        let y = ins.y;
        let nn = ins.nn;
        let f = ins.op_code;
        if f == 0 || f == 1 || f == 2 || f == 0xB {
            self.execute_flow(&ins, word)
        } else if f == 3 {
            let c = self.registers[x] == nn;
            self.skip_next_if(c);
            Ok(())
        } else if f == 4 {
            let c = self.registers[x] != nn;
            self.skip_next_if(c);
            Ok(())
        } else if f == 5 {
            let c = self.registers[x] == self.registers[y];
            self.skip_next_if(c);
            Ok(())
        } else if f == 6 {
            self.registers[x] = nn;
            Ok(())
        } else if f == 7 {
            self.registers[x] = ((self.registers[x] as u16 + nn as u16) % 256) as u8;
            Ok(())
        } else if f == 8 {
            self.execute_alu(&ins, word)
        } else if f == 9 {
            let c = self.registers[x] != self.registers[y];
            self.skip_next_if(c);
            Ok(())
        } else if f == 0xA {
            self.index = ins.nnn;
            Ok(())
        } else if f == 0xC {
            self.registers[x] = random & nn;
            Ok(())
        } else if f == 0xD {
            let rows = ins.n;
            if rows > 0 && self.index as usize + rows as usize > MEMORY_SIZE {
                return Err(
                    ExecutionError::MemoryOutOfBounds {
                        address: self.index as usize + rows as usize - 1,
                    },
                );
            }
            let x0 = self.registers[x] % 64;
            let y0 = self.registers[y] % 32;
            let hit = self.draw_sprite(x0, y0, rows);
            self.set_carry_flag(if hit { 1 } else { 0 });
            Ok(())
        } else if f == 0xE {
            let k = self.registers[x] as usize;
            let down = k < KEY_COUNT && self.keys[k];
            if nn == 0x9E {
                self.skip_next_if(down);
                Ok(())
            } else if nn == 0xA1 {
                self.skip_next_if(!down);
                Ok(())
            } else {
                Err(ExecutionError::UnknownInstruction { word })
            }
        } else {
            self.execute_misc(&ins, word)
        }
    }

    /// Reads the big-endian word at the program counter and moves past it.
    fn fetch_instruction_bytes(&mut self) -> (r: u16)
        requires
            old(self).pc + 1 < MEMORY_SIZE,
        ensures
            r == fetch_word(old(self)@),
            final(self)@ == (CpuState { pc: (old(self).pc + 2) as u16, ..old(self)@ }),
    {
        let pc = self.pc as usize;
        let word = (self.memory[pc] as u16) * 256 + self.memory[pc + 1] as u16;
        self.pc = self.pc + 2;
        word
    }

    /// Runs one cycle: fetches the word at the program counter, moves past it
    /// and executes it, drawing a random byte for the random instruction. On an
    /// error nothing changes.
    pub fn execute_instruction(&mut self) -> (r: Result<(), ExecutionError>)
        requires
            old(self).wf(),
        ensures
            final(self).wf(),
            exists|random: u8| follows(old(self)@, final(self)@, r, cycle_spec(old(self)@, random)),
            old(self).pc + 1 < MEMORY_SIZE && family_of(fetch_word(old(self)@)) != 0xC
                ==> follows(old(self)@, final(self)@, r, cycle_spec(old(self)@, 0)),
    {
        if self.pc as usize + 1 >= MEMORY_SIZE {
            let r = Err(ExecutionError::MemoryOutOfBounds { address: self.pc as usize + 1 });
            assert(follows(old(self)@, self@, r, cycle_spec(old(self)@, 0)));
            return r;
        }
        let pc = self.pc;
        let word = self.fetch_instruction_bytes();
        let random = if word / 0x1000 == 0xC {
            random_byte()
        } else {
            0
        };
        let r = self.execute_word(word, random);
        if r.is_err() {
            self.pc = pc;
        }
        assert(follows(old(self)@, self@, r, cycle_spec(old(self)@, random)));
        r
    }
}

} // verus!
