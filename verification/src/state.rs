//! The mathematical model of the machine: its state as plain sequences and
//! integers, and the meaning of every instruction as a function on states.

use vstd::prelude::*;
use crate::fault::Fault;
use crate::isa::{Instruction, decode, word_of};

verus! {

/// The number of bytes of memory.
pub const MEMORY_SIZE: usize = 0x1000;

/// The address at which a loaded program starts.
pub const PROG_START: usize = 0x200;

/// The number of pixel columns.
pub const DISPLAY_WIDTH: usize = 64;

/// The number of pixel rows.
pub const DISPLAY_HEIGHT: usize = 32;

/// The number of general-purpose registers.
pub const REGISTER_COUNT: usize = 16;

/// The number of keys on the keypad.
pub const KEY_COUNT: usize = 16;

/// The index of the flag register.
pub const FLAG: usize = 0xF;

/// The number of bytes of one built-in glyph sprite.
pub const GLYPH_SIZE: usize = 5;

/// The built-in glyph sprites for the hexadecimal digits, five bytes each,
/// in order from `0` to `F`.
pub const BUILT_IN_SPRITES: [u8; 80] = [
    0xf0, 0x90, 0x90, 0x90, 0xf0,
    0x20, 0x60, 0x20, 0x20, 0x70,
    0xf0, 0x10, 0xf0, 0x80, 0xf0,
    0xf0, 0x10, 0xf0, 0x10, 0xf0,
    0x90, 0x90, 0xf0, 0x10, 0x10,
    0xf0, 0x80, 0xf0, 0x10, 0xf0,
    0xf0, 0x80, 0xf0, 0x90, 0xf0,
    0xf0, 0x10, 0x20, 0x40, 0x40,
    0xf0, 0x90, 0xf0, 0x90, 0xf0,
    0xf0, 0x90, 0xf0, 0x10, 0xf0,
    0xf0, 0x90, 0xf0, 0x90, 0x90,
    0xe0, 0x90, 0xe0, 0x90, 0xe0,
    0xf0, 0x80, 0x80, 0x80, 0xf0,
    0xe0, 0x90, 0x90, 0x90, 0xe0,
    0xf0, 0x80, 0xf0, 0x80, 0xf0,
    0xf0, 0x80, 0xf0, 0x80, 0x80,
];

/// The whole state of the machine.
#[verifier::ext_equal]
pub struct MachineState {
    /// The display, row by row: `pixels[row][col]` is true where the pixel
    /// is set.
    pub pixels: Seq<Seq<bool>>,
    /// The general-purpose registers `V0..=VF`.
    pub v: Seq<u8>,
    /// The delay timer.
    pub dt: u8,
    /// The sound timer.
    pub st: u8,
    /// The program counter.
    pub pc: usize,
    /// The address register.
    pub i: u16,
    /// The saved program counters, the most recent call last.
    pub stack: Seq<usize>,
    /// The memory.
    pub mem: Seq<u8>,
}

/// The memory of a freshly loaded machine: the glyph sprites at the bottom,
/// the program from `PROG_START`, zero everywhere else.
pub open spec fn initial_memory(program: Seq<u8>) -> Seq<u8> {
    Seq::new(
        MEMORY_SIZE as nat,
        |a: int|
            if a < 80 {
                BUILT_IN_SPRITES[a]
            } else if PROG_START <= a < PROG_START + program.len() {
                program[a - PROG_START]
            } else {
                0u8
            },
    )
}

/// The byte that stands for a flag.
pub open spec fn flag_byte(flag: bool) -> u8 {
    if flag {
        1
    } else {
        0
    }
}

/// The low eight bits of an integer.
pub open spec fn wrap8(n: int) -> u8 {
    (n % 256) as u8
}

/// The low sixteen bits of an integer.
pub open spec fn wrap16(n: int) -> u16 {
    (n % 65536) as u16
}

/// Whether the keypad reports the key named by `key` as held down. A value
/// above fifteen names no key.
pub open spec fn key_down(keys: Seq<bool>, key: u8) -> bool {
    key < KEY_COUNT && keys[key as int]
}

/// The lowest-numbered key at or after `from` that is held down, if any.
pub open spec fn first_key_down_from(keys: Seq<bool>, from: int) -> Option<u8>
    decreases KEY_COUNT - from,
{
    if from < 0 || from >= KEY_COUNT {
        None
    } else if keys[from] {
        Some(from as u8)
    } else {
        first_key_down_from(keys, from + 1)
    }
}

/// The lowest-numbered key that is held down, if any.
pub open spec fn first_key_down(keys: Seq<bool>) -> Option<u8> {
    first_key_down_from(keys, 0)
}

/// Whether bit `k` of a sprite byte is set, counting from the most
/// significant bit, which is the leftmost pixel.
pub open spec fn bit_set(byte: u8, k: u8) -> bool {
    byte & (0x80u8 >> k) != 0
}

/// A sprite placed on the display: its rows, one byte each from the top
/// down, and the column and row of its top left corner.
pub struct Sprite {
    pub rows: Seq<u8>,
    pub x: int,
    pub y: int,
}

impl Sprite {
    /// Whether the sprite has a set bit at `(row, col)` of the display.
    pub open spec fn covers(self, row: int, col: int) -> bool {
        &&& self.y <= row < self.y + self.rows.len()
        &&& self.x <= col < self.x + 8
        &&& bit_set(self.rows[row - self.y], (col - self.x) as u8)
    }

    /// Whether drawing the sprite turns the pixel at `(row, col)` from set
    /// to unset.
    pub open spec fn erases(self, pixels: Seq<Seq<bool>>, row: int, col: int) -> bool {
        &&& 0 <= row < DISPLAY_HEIGHT
        &&& 0 <= col < DISPLAY_WIDTH
        &&& pixels[row][col]
        &&& self.covers(row, col)
    }
}

/// The display after the sprite has been combined with it by exclusive or.
/// Sprite bits that fall outside the display are dropped.
pub open spec fn draw_pixels(pixels: Seq<Seq<bool>>, sprite: Sprite) -> Seq<Seq<bool>> {
    Seq::new(
        DISPLAY_HEIGHT as nat,
        |row: int|
            Seq::new(
                DISPLAY_WIDTH as nat,
                |col: int| pixels[row][col] ^ sprite.covers(row, col),
            ),
    )
}

/// Whether drawing the sprite turns any pixel from set to unset.
pub open spec fn collision(pixels: Seq<Seq<bool>>, sprite: Sprite) -> bool {
    exists|row: int, col: int| #[trigger] sprite.erases(pixels, row, col)
}

/// A display with every pixel unset.
pub open spec fn blank_pixels() -> Seq<Seq<bool>> {
    Seq::new(DISPLAY_HEIGHT as nat, |row: int| Seq::new(DISPLAY_WIDTH as nat, |col: int| false))
}

/// Memory after registers `V0..=Vx` have been written to it from `start` on.
pub open spec fn dump_registers(mem: Seq<u8>, v: Seq<u8>, start: int, x: int) -> Seq<u8> {
    Seq::new(
        mem.len(),
        |a: int|
            if start <= a <= start + x {
                v[a - start]
            } else {
                mem[a]
            },
    )
}

/// The registers after `V0..=Vx` have been read from memory from `start` on.
pub open spec fn load_registers(mem: Seq<u8>, v: Seq<u8>, start: int, x: int) -> Seq<u8> {
    Seq::new(
        v.len(),
        |k: int|
            if k <= x {
                mem[start + k]
            } else {
                v[k]
            },
    )
}

/// Memory after the three decimal digits of `value` have been written to it
/// from `start` on, hundreds first.
pub open spec fn store_decimal(mem: Seq<u8>, start: int, value: u8) -> Seq<u8> {
    mem.update(start, value / 100).update(start + 1, value / 10 % 10).update(
        start + 2,
        value % 10,
    )
}

impl MachineState {
    /// The shape that every reachable state has.
    pub open spec fn well_formed(self) -> bool {
        &&& self.mem.len() == MEMORY_SIZE
        &&& self.v.len() == REGISTER_COUNT
        &&& self.pixels.len() == DISPLAY_HEIGHT
        &&& forall|row: int|
            0 <= row < DISPLAY_HEIGHT ==> (#[trigger] self.pixels[row]).len() == DISPLAY_WIDTH
    }

    /// The state with the program counter moved forward by `n`.
    pub open spec fn advance(self, n: int) -> MachineState {
        MachineState { pc: (self.pc + n) as usize, ..self }
    }

    /// The state with the program counter moved past the next instruction
    /// too where `cond` holds, and to the next instruction where it does not.
    pub open spec fn skip_if(self, cond: bool) -> MachineState {
        self.advance(
            if cond {
                4
            } else {
                2
            },
        )
    }

    /// The state with register `x` set to `value`.
    pub open spec fn with_register(self, x: int, value: u8) -> MachineState {
        MachineState { v: self.v.update(x, value), ..self }
    }

    /// The state after an operation that reports a flag: the flag register
    /// is written first, then register `x` takes `value`, so that of the two
    /// the value stays where `x` names the flag register.
    pub open spec fn with_flagged_result(self, x: int, flag: bool, value: u8) -> MachineState {
        MachineState { v: self.v.update(FLAG as int, flag_byte(flag)).update(x, value), ..self }
    }

    /// The sprite of `size` rows that the address register points at,
    /// placed at the column held in register `x` and the row held in
    /// register `y`.
    pub open spec fn sprite(self, x: int, y: int, size: int) -> Sprite {
        Sprite {
            rows: self.mem.subrange(self.i as int, self.i + size),
            x: self.v[x] as int,
            y: self.v[y] as int,
        }
    }

    /// The state after one tick of the clock: each timer one lower, and
    /// never below zero.
    pub open spec fn tick(self) -> MachineState {
        MachineState {
            dt: if self.dt > 0 {
                (self.dt - 1) as u8
            } else {
                0
            },
            st: if self.st > 0 {
                (self.st - 1) as u8
            } else {
                0
            },
            ..self
        }
    }
}

/// The state of a freshly loaded machine.
pub open spec fn initial_state(program: Seq<u8>) -> MachineState {
    MachineState {
        pixels: blank_pixels(),
        v: Seq::new(REGISTER_COUNT as nat, |k: int| 0u8),
        dt: 0,
        st: 0,
        pc: PROG_START,
        i: 0,
        stack: Seq::empty(),
        mem: initial_memory(program),
    }
}

/// What executing `ins` makes of the state `m`, with the keypad as `keys`
/// reports it and `rnd` as the byte that the random source hands out: the
/// next state, or the fault that halts the machine.
pub open spec fn exec_spec(m: MachineState, ins: Instruction, keys: Seq<bool>, rnd: u8) -> Result<
    MachineState,
    Fault,
> {
    match ins {
        Instruction::SYS { addr } => Ok(MachineState { pc: addr.0, ..m }.advance(2)),
        Instruction::CLS => Ok(MachineState { pixels: blank_pixels(), ..m }.advance(2)),
        Instruction::RET => if m.stack.len() == 0 {
            Err(Fault::StackUnderflow)
        } else {
            Ok(MachineState { pc: m.stack.last(), stack: m.stack.drop_last(), ..m })
        },
        Instruction::JP { addr } => Ok(MachineState { pc: addr.0, ..m }),
        Instruction::CALL { addr } => Ok(
            MachineState { pc: addr.0, stack: m.stack.push(m.pc), ..m },
        ),
        Instruction::SEI { vx, imm } => Ok(m.skip_if(m.v[vx.0 as int] == imm)),
        Instruction::SNEI { vx, imm } => Ok(m.skip_if(m.v[vx.0 as int] != imm)),
        Instruction::SE { vx, vy } => Ok(m.skip_if(m.v[vx.0 as int] == m.v[vy.0 as int])),
        Instruction::LDI { vx, imm } => Ok(m.with_register(vx.0 as int, imm).advance(2)),
        Instruction::ADDI { vx, imm } => Ok(
            m.with_register(vx.0 as int, wrap8(m.v[vx.0 as int] + imm)).advance(2),
        ),
        Instruction::LD { vx, vy } => Ok(m.with_register(vx.0 as int, m.v[vy.0 as int]).advance(2)),
        Instruction::OR { vx, vy } => Ok(
            m.with_register(vx.0 as int, m.v[vx.0 as int] | m.v[vy.0 as int]).advance(2),
        ),
        Instruction::AND { vx, vy } => Ok(
            m.with_register(vx.0 as int, m.v[vx.0 as int] & m.v[vy.0 as int]).advance(2),
        ),
        Instruction::XOR { vx, vy } => Ok(
            m.with_register(vx.0 as int, m.v[vx.0 as int] ^ m.v[vy.0 as int]).advance(2),
        ),
        Instruction::ADD { vx, vy } => Ok(
            m.with_flagged_result(
                vx.0 as int,
                m.v[vx.0 as int] + m.v[vy.0 as int] > 255,
                wrap8(m.v[vx.0 as int] + m.v[vy.0 as int]),
            ).advance(2),
        ),
        Instruction::SUB { vx, vy } => Ok(
            m.with_flagged_result(
                vx.0 as int,
                m.v[vx.0 as int] > m.v[vy.0 as int],
                wrap8(m.v[vx.0 as int] - m.v[vy.0 as int]),
            ).advance(2),
        ),
        Instruction::SHR { vx, vy } => Ok(
            m.with_flagged_result(
                vx.0 as int,
                m.v[vx.0 as int] % 2 == 1,
                m.v[vx.0 as int] / 2,
            ).advance(2),
        ),
        Instruction::SUBN { vx, vy } => Ok(
            m.with_flagged_result(
                vx.0 as int,
                m.v[vy.0 as int] > m.v[vx.0 as int],
                wrap8(m.v[vy.0 as int] - m.v[vx.0 as int]),
            ).advance(2),
        ),
        Instruction::SHL { vx, vy } => Ok(
            m.with_flagged_result(
                vx.0 as int,
                m.v[vx.0 as int] >= 128,
                wrap8(m.v[vx.0 as int] * 2),
            ).advance(2),
        ),
        Instruction::SNE { vx, vy } => Ok(m.skip_if(m.v[vx.0 as int] != m.v[vy.0 as int])),
        Instruction::LDA { addr } => Ok(MachineState { i: addr.0 as u16, ..m }.advance(2)),
        Instruction::JPO { addr } => Ok(MachineState { pc: (addr.0 + m.v[0]) as usize, ..m }),
        Instruction::RND { vx, imm } => Ok(m.with_register(vx.0 as int, rnd & imm).advance(2)),
        Instruction::DRW { vx, vy, size } => if m.i + size > m.mem.len() {
            Err(Fault::OutOfBounds { addr: m.i as usize })
        } else {
            let sprite = m.sprite(vx.0 as int, vy.0 as int, size as int);
            Ok(
                MachineState {
                    pixels: draw_pixels(m.pixels, sprite),
                    v: m.v.update(FLAG as int, flag_byte(collision(m.pixels, sprite))),
                    ..m
                }.advance(2),
            )
        },
        Instruction::SKP { vx } => Ok(m.skip_if(key_down(keys, m.v[vx.0 as int]))),
        Instruction::SKNP { vx } => Ok(m.skip_if(!key_down(keys, m.v[vx.0 as int]))),
        Instruction::LDDT { vx } => Ok(m.with_register(vx.0 as int, m.dt).advance(2)),
        Instruction::LDKEY { vx } => match first_key_down(keys) {
            Some(key) => Ok(m.with_register(vx.0 as int, key).advance(2)),
            None => Ok(m),
        },
        Instruction::SETDT { vx } => Ok(MachineState { dt: m.v[vx.0 as int], ..m }.advance(2)),
        Instruction::LDST { vx } => Ok(MachineState { st: m.v[vx.0 as int], ..m }.advance(2)),
        Instruction::ADDIR { vx } => Ok(
            MachineState { i: wrap16(m.i + m.v[vx.0 as int]), ..m }.advance(2),
        ),
        Instruction::LDSPR { vx } => Ok(
            MachineState { i: (GLYPH_SIZE * m.v[vx.0 as int]) as u16, ..m }.advance(2),
        ),
        Instruction::LDBCD { vx } => if m.i + 2 >= m.mem.len() {
            Err(Fault::OutOfBounds { addr: m.i as usize })
        } else {
            Ok(
                MachineState {
                    mem: store_decimal(m.mem, m.i as int, m.v[vx.0 as int]),
                    ..m
                }.advance(2),
            )
        },
        Instruction::STR { vx } => if m.i + vx.0 >= m.mem.len() {
            Err(Fault::OutOfBounds { addr: m.i as usize })
        } else {
            Ok(
                MachineState {
                    mem: dump_registers(m.mem, m.v, m.i as int, vx.0 as int),
                    ..m
                }.advance(2),
            )
        },
        Instruction::LDR { vx } => if m.i + vx.0 >= m.mem.len() {
            Err(Fault::OutOfBounds { addr: m.i as usize })
        } else {
            Ok(
                MachineState {
                    v: load_registers(m.mem, m.v, m.i as int, vx.0 as int),
                    ..m
                }.advance(2),
            )
        },
    }
}

/// What fetching and decoding at `addr` yields: the instruction that the
/// two bytes there stand for, or a fault where they lie outside memory or
/// match no entry of the decode table.
pub open spec fn fetch_spec(mem: Seq<u8>, addr: usize) -> Result<Instruction, Fault> {
    if addr + 1 >= mem.len() {
        Err(Fault::OutOfBounds { addr })
    } else {
        match decode(mem[addr as int], mem[addr + 1]) {
            Some(ins) => Ok(ins),
            None => Err(
                Fault::DecodeFailure { addr, raw: word_of(mem[addr as int], mem[addr + 1]) },
            ),
        }
    }
}

/// What one fetch-decode-execute cycle makes of the state `m`: the
/// instruction at the program counter is fetched, decoded and executed.
pub open spec fn step_spec(m: MachineState, keys: Seq<bool>, rnd: u8) -> Result<
    MachineState,
    Fault,
> {
    match fetch_spec(m.mem, m.pc) {
        Ok(ins) => exec_spec(m, ins, keys, rnd),
        Err(fault) => Err(fault),
    }
}

/// Whether the instruction at the program counter is the one that draws
/// a random byte.
pub open spec fn uses_random(m: MachineState) -> bool {
    fetch_spec(m.mem, m.pc) matches Ok(Instruction::RND { .. })
}

/// Where `cycles` cycles leave the machine and whether a fault stopped
/// them, with `rnds[k]` as the random byte on hand in cycle `k`. A fault
/// ends the run in the state in which it arose.
pub open spec fn run_spec(m: MachineState, keys: Seq<bool>, rnds: Seq<u8>, cycles: nat) -> (
    MachineState,
    Result<(), Fault>,
)
    decreases cycles,
{
    if cycles == 0 {
        (m, Ok(()))
    } else {
        let (before, earlier) = run_spec(m, keys, rnds, (cycles - 1) as nat);
        if earlier is Err {
            (before, earlier)
        } else {
            match step_spec(before, keys, rnds[cycles - 1]) {
                Ok(after) => (after, Ok(())),
                Err(fault) => (before, Err(fault)),
            }
        }
    }
}

/// Whether an operation that was to produce `expected` did so: on success
/// the machine is in the new state, on a fault it is as it was before and
/// the fault is returned.
pub open spec fn outcome_is(
    before: MachineState,
    after: MachineState,
    res: Result<(), Fault>,
    expected: Result<MachineState, Fault>,
) -> bool {
    match expected {
        Ok(next) => res is Ok && after == next,
        Err(fault) => res == Err::<(), Fault>(fault) && after == before,
    }
}

} // verus!
