//! The execution engine: the machine's memory and state, and the
//! fetch-decode-execute cycle.

use vstd::prelude::*;
use rand::rngs::ThreadRng;
use rand::Rng;
use crate::fault::Fault;
use crate::isa::{Instruction, lemma_decode_well_formed, word};
use crate::state::{
    BUILT_IN_SPRITES, DISPLAY_HEIGHT, DISPLAY_WIDTH, FLAG, GLYPH_SIZE, KEY_COUNT, MEMORY_SIZE,
    MachineState, PROG_START, REGISTER_COUNT, Sprite, blank_pixels, collision, draw_pixels,
    dump_registers, exec_spec, fetch_spec, first_key_down, first_key_down_from, flag_byte,
    initial_memory, initial_state, key_down, load_registers, outcome_is, run_spec, step_spec,
    store_decimal, uses_random, wrap16, wrap8,
};

verus! {

/// The handle to the thread-local random generator of the `rand` crate.
/// Nothing is known of what it holds.
#[verifier::external_type_specification]
#[verifier::external_body]
pub struct ExThreadRng(ThreadRng);

/// Calls `rand::thread_rng`, which hands out a handle to the generator of
/// the current thread. Nothing is claimed of the handle. The generator is
/// seeded from the operating system on its first use in a thread, and
/// `rand` panics if the system cannot supply the seed.
#[verifier::external_body]
fn thread_generator() -> (rng: ThreadRng) {
    rand::thread_rng()
}

/// Calls `rand::Rng::gen::<u8>` on the generator, which samples a byte
/// uniformly. Nothing is claimed of the byte: any value may come back.
#[verifier::external_body]
fn random_byte(rng: &mut ThreadRng) -> (byte: u8) {
    rng.gen::<u8>()
}

/// The machine's memory: `MEMORY_SIZE` bytes in every machine that
/// `Program::from` builds.
#[derive(Debug)]
pub struct Memory(Vec<u8>);

impl View for Memory {
    type V = Seq<u8>;

    closed spec fn view(&self) -> Seq<u8> {
        self.0@
    }
}

impl Memory {
    /// The number of bytes.
    pub fn len(&self) -> (n: usize)
        ensures
            n == self@.len(),
    {
        self.0.len()
    }

    /// The byte at `addr`, or `None` where `addr` lies outside memory.
    pub fn read(&self, addr: usize) -> (byte: Option<u8>)
        ensures
            byte == if addr < self@.len() {
                Some(self@[addr as int])
            } else {
                None
            },
    {
        if addr < self.0.len() {
            Some(self.0[addr])
        } else {
            None
        }
    }

    /// Fetches the two bytes at `addr` and `addr + 1` and decodes them.
    ///
    /// Fails with `OutOfBounds` where either byte lies outside memory, and
    /// with `DecodeFailure`, which carries `addr` and the word, where the
    /// word matches no entry of the decode table.
    pub fn get_instruction(&self, addr: usize) -> (res: Result<Instruction, Fault>)
        ensures
            res == fetch_spec(self@, addr),
            res matches Ok(ins) ==> ins.well_formed(),
    {
        let n: usize = self.0.len();
        if n < 2 || addr >= n - 1 {
            return Err(Fault::OutOfBounds { addr });
        }
        let b1: u8 = self.0[addr];
        let b2: u8 = self.0[addr + 1];
        proof {
            lemma_decode_well_formed(b1, b2);
        }
        match Instruction::try_from([b1, b2]) {
            Ok(ins) => Ok(ins),
            Err(_) => Err(Fault::DecodeFailure { addr, raw: word(b1, b2) }),
        }
    }
}

/// The sum of two bytes: whether it overflows eight bits, and its low eight
/// bits.
pub fn add_carry(a: u8, b: u8) -> (r: (bool, u8))
    ensures
        r.0 == (a + b > 255),
        r.1 == wrap8(a + b),
{
    let sum: u16 = a as u16 + b as u16;
    (sum > 255, (sum % 256) as u8)
}

/// The difference `a - b` of two bytes: whether it needs no borrow, which
/// is where `a > b`, and its low eight bits.
pub fn sub_borrow(a: u8, b: u8) -> (r: (bool, u8))
    ensures
        r.0 == (a > b),
        r.1 == wrap8(a - b),
{
    let difference: u16 = a as u16 + 256 - b as u16;
    (a > b, (difference % 256) as u8)
}

/// A byte shifted right by one: the bit shifted out, and the half.
pub fn shift_right(a: u8) -> (r: (bool, u8))
    ensures
        r.0 == (a % 2 == 1),
        r.1 == a / 2,
{
    (a % 2 == 1, a / 2)
}

/// A byte shifted left by one: the bit shifted out, and the low eight bits
/// of the double.
pub fn shift_left(a: u8) -> (r: (bool, u8))
    ensures
        r.0 == (a >= 128),
        r.1 == wrap8(a * 2),
{
    let double: u16 = a as u16 * 2;
    (a >= 128, (double % 256) as u8)
}

/// The address register moved forward by a byte, in sixteen bits.
pub fn add_to_address(i: u16, a: u8) -> (r: u16)
    ensures
        r == wrap16(i + a),
{
    let sum: u32 = i as u32 + a as u32;
    (sum % 65536) as u16
}

/// Whether the keypad reports the key named by `key` as held down.
pub fn is_key_down(keys: &[bool; 16], key: u8) -> (down: bool)
    ensures
        down == key_down(keys@, key),
{
    (key as usize) < KEY_COUNT && keys[key as usize]
}

/// The lowest-numbered key that is held down, if any.
pub fn pressed_key(keys: &[bool; 16]) -> (key: Option<u8>)
    ensures
        key == first_key_down(keys@),
{
    let mut k: u8 = 0;
    while k < 16
        invariant
            k <= 16,
            first_key_down(keys@) == first_key_down_from(keys@, k as int),
        decreases 16 - k,
    {
        if keys[k as usize] {
            return Some(k);
        }
        k += 1;
    }
    None
}

/// Whether drawing the sprite turns from set to unset a pixel that lies
/// above row `row_limit`, or in that row and left of column `col_limit`.
spec fn collision_before(
    pixels: Seq<Seq<bool>>,
    sprite: Sprite,
    row_limit: int,
    col_limit: int,
) -> bool {
    exists|row: int, col: int|
        #[trigger] sprite.erases(pixels, row, col) && (row < row_limit || (row == row_limit && col
            < col_limit))
}

/// A run of `cycles` cycles reads only the first `cycles` random bytes.
proof fn lemma_run_reads_prefix(
    m: MachineState,
    keys: Seq<bool>,
    rnds1: Seq<u8>,
    rnds2: Seq<u8>,
    cycles: nat,
)
    requires
        forall|k: int| 0 <= k < cycles ==> rnds1[k] == rnds2[k],
    ensures
        run_spec(m, keys, rnds1, cycles) == run_spec(m, keys, rnds2, cycles),
    decreases cycles,
{
    if cycles > 0 {
        lemma_run_reads_prefix(m, keys, rnds1, rnds2, (cycles - 1) as nat);
    }
}

/// A run that a fault has stopped is where it is after any further cycles.
proof fn lemma_run_stays_stopped(
    m: MachineState,
    keys: Seq<bool>,
    rnds: Seq<u8>,
    stopped: nat,
    cycles: nat,
)
    requires
        stopped <= cycles,
        run_spec(m, keys, rnds, stopped).1 is Err,
    ensures
        run_spec(m, keys, rnds, cycles) == run_spec(m, keys, rnds, stopped),
    decreases cycles,
{
    if cycles > stopped {
        lemma_run_stays_stopped(m, keys, rnds, stopped, (cycles - 1) as nat);
    }
}

/// A machine: display, registers, timers, program counter, address
/// register, call stack, memory, and the source of random bytes.
#[derive(Debug)]
pub struct Program {
    framebuffer: [[bool; 64]; 32],
    v: [u8; 16],
    dt: u8,
    st: u8,
    pc: usize,
    i: u16,
    rng: ThreadRng,
    stack: Vec<usize>,
    mem: Memory,
}

impl View for Program {
    type V = MachineState;

    /// The state of the machine. The random source is no part of it.
    closed spec fn view(&self) -> MachineState {
        MachineState {
            pixels: Seq::new(DISPLAY_HEIGHT as nat, |row: int| self.framebuffer@[row]@),
            v: self.v@,
            dt: self.dt,
            st: self.st,
            pc: self.pc,
            i: self.i,
            stack: self.stack@,
            mem: self.mem@,
        }
    }
}

impl Program {
    /// Whether the machine has the shape that every machine built by
    /// `from` has and every operation keeps.
    pub open spec fn wf(&self) -> bool {
        self@.well_formed()
    }

    /// Loads a program: the bytes of `raw` are placed from `PROG_START`
    /// on, the glyph sprites at the bottom of memory, all else is zero, and
    /// the program counter stands at `PROG_START`.
    ///
    /// Fails with `OutOfBounds` exactly where the program does not fit
    /// between `PROG_START` and the end of memory.
    pub fn from(raw: Vec<u8>) -> (res: Result<Program, Fault>)
        ensures
            raw@.len() <= MEMORY_SIZE - PROG_START ==> res is Ok && res->Ok_0@ == initial_state(
                raw@,
            ) && res->Ok_0.wf(),
            raw@.len() > MEMORY_SIZE - PROG_START ==> res is Err && res->Err_0 == (
            Fault::OutOfBounds { addr: PROG_START }),
    {
        if raw.len() > MEMORY_SIZE - PROG_START {
            return Err(Fault::OutOfBounds { addr: PROG_START });
        }
        let mut bytes: Vec<u8> = Vec::with_capacity(MEMORY_SIZE);
        let mut a: usize = 0;
        while a < MEMORY_SIZE
            invariant
                a <= MEMORY_SIZE,
                raw@.len() <= MEMORY_SIZE - PROG_START,
                bytes@.len() == a,
                forall|k: int| 0 <= k < a ==> bytes@[k] == initial_memory(raw@)[k],
            decreases MEMORY_SIZE - a,
        {
            let byte: u8 = if a < BUILT_IN_SPRITES.len() {
                BUILT_IN_SPRITES[a]
            } else if a >= PROG_START && a - PROG_START < raw.len() {
                raw[a - PROG_START]
            } else {
                0
            };
            bytes.push(byte);
            a += 1;
        }
        let program = Program {
            framebuffer: [[false; 64]; 32],
            v: [0u8; 16],
            dt: 0,
            st: 0,
            pc: PROG_START,
            stack: Vec::new(),
            i: 0,
            rng: thread_generator(),
            mem: Memory(bytes),
        };
        assert(program@ =~~= initial_state(raw@));
        Ok(program)
    }

    /// The program counter.
    pub fn pc(&self) -> (pc: usize)
        ensures
            pc == self@.pc,
    {
        self.pc
    }

    /// The address register.
    pub fn address_register(&self) -> (i: u16)
        ensures
            i == self@.i,
    {
        self.i
    }

    /// The general-purpose registers.
    pub fn registers(&self) -> (v: &[u8; 16])
        ensures
            v@ == self@.v,
    {
        &self.v
    }

    /// The delay timer.
    pub fn delay_timer(&self) -> (dt: u8)
        ensures
            dt == self@.dt,
    {
        self.dt
    }

    /// The sound timer.
    pub fn sound_timer(&self) -> (st: u8)
        ensures
            st == self@.st,
    {
        self.st
    }

    /// The call stack, the most recent call last.
    pub fn stack(&self) -> (stack: &Vec<usize>)
        ensures
            stack@ == self@.stack,
    {
        &self.stack
    }

    /// The memory.
    pub fn memory(&self) -> (mem: &Memory)
        ensures
            mem@ == self@.mem,
    {
        &self.mem
    }

    /// The display, row by row.
    pub fn framebuffer(&self) -> (pixels: &[[bool; 64]; 32])
        ensures
            pixels@.len() == DISPLAY_HEIGHT,
            forall|row: int| 0 <= row < DISPLAY_HEIGHT ==> (#[trigger] pixels@[row])@ == self@.pixels[row],
    {
        &self.framebuffer
    }

    /// Moves the program counter to the next instruction.
    fn inc_pc(&mut self)
        requires
            old(self)@.pc + 2 <= usize::MAX,
        ensures
            final(self)@ == old(self)@.advance(2),
    {
        self.pc += 2;
    }

    /// Moves the program counter past the next instruction where `cond`
    /// holds, and to it where not.
    fn skip_if(&mut self, cond: bool)
        requires
            old(self)@.pc + 4 <= usize::MAX,
        ensures
            final(self)@ == old(self)@.skip_if(cond),
    {
        if cond {
            self.pc += 4;
        } else {
            self.pc += 2;
        }
    }

    /// Sets register `x`.
    fn set_register(&mut self, x: usize, value: u8)
        requires
            x < REGISTER_COUNT,
        ensures
            final(self)@ == old(self)@.with_register(x as int, value),
    {
        self.v[x] = value;
    }

    /// Writes the flag register, then register `x`.
    fn set_flagged_result(&mut self, x: usize, flag: bool, value: u8)
        requires
            x < REGISTER_COUNT,
        ensures
            final(self)@ == old(self)@.with_flagged_result(x as int, flag, value),
    {
        self.v[FLAG] = if flag {
            1
        } else {
            0
        };
        self.v[x] = value;
    }

    /// Unsets every pixel.
    fn clear_display(&mut self)
        ensures
            final(self)@ == (MachineState { pixels: blank_pixels(), ..old(self)@ }),
    {
        self.framebuffer = [[false; 64]; 32];
        assert(self@ =~~= (MachineState { pixels: blank_pixels(), ..old(self)@ }));
    }

    /// Writes `V0..=Vx` to memory from the address register on.
    fn store_registers(&mut self, x: usize)
        requires
            old(self).wf(),
            x < REGISTER_COUNT,
            old(self)@.i + x < MEMORY_SIZE,
        ensures
            final(self)@ == (MachineState {
                mem: dump_registers(old(self)@.mem, old(self)@.v, old(self)@.i as int, x as int),
                ..old(self)@
            }),
    {
        let ghost before = self@;
        let start: usize = self.i as usize;
        let mut k: usize = 0;
        while k <= x
            invariant
                k <= x + 1,
                x < REGISTER_COUNT,
                start + x < MEMORY_SIZE,
                self.mem@.len() == MEMORY_SIZE,
                self@ == (MachineState { mem: self.mem@, ..before }),
                forall|a: int|
                    0 <= a < MEMORY_SIZE ==> self.mem@[a] == if start <= a < start + k {
                        before.v[a - start]
                    } else {
                        before.mem[a]
                    },
            decreases x + 1 - k,
        {
            let value: u8 = self.v[k];
            self.mem.0[start + k] = value;
            k += 1;
        }
        assert(self.mem@ =~= dump_registers(before.mem, before.v, start as int, x as int));
    }

    /// Reads `V0..=Vx` from memory from the address register on.
    fn fetch_registers(&mut self, x: usize)
        requires
            old(self).wf(),
            x < REGISTER_COUNT,
            old(self)@.i + x < MEMORY_SIZE,
        ensures
            final(self)@ == (MachineState {
                v: load_registers(old(self)@.mem, old(self)@.v, old(self)@.i as int, x as int),
                ..old(self)@
            }),
    {
        let ghost before = self@;
        let start: usize = self.i as usize;
        let mut k: usize = 0;
        while k <= x
            invariant
                k <= x + 1,
                x < REGISTER_COUNT,
                start + x < MEMORY_SIZE,
                self.mem@.len() == MEMORY_SIZE,
                self@ == (MachineState { v: self.v@, ..before }),
                forall|r: int|
                    0 <= r < REGISTER_COUNT ==> self.v@[r] == if r < k {
                        before.mem[start + r]
                    } else {
                        before.v[r]
                    },
            decreases x + 1 - k,
        {
            let value: u8 = self.mem.0[start + k];
            self.v[k] = value;
            k += 1;
        }
        assert(self.v@ =~= load_registers(before.mem, before.v, start as int, x as int));
    }

    /// Writes the three decimal digits of `value` to memory from the
    /// address register on.
    fn store_digits(&mut self, value: u8)
        requires
            old(self).wf(),
            old(self)@.i + 2 < MEMORY_SIZE,
        ensures
            final(self)@ == (MachineState {
                mem: store_decimal(old(self)@.mem, old(self)@.i as int, value),
                ..old(self)@
            }),
    {
        let start: usize = self.i as usize;
        self.mem.0[start] = value / 100;
        self.mem.0[start + 1] = value / 10 % 10;
        self.mem.0[start + 2] = value % 10;
    }

    /// Combines the sprite of `sprite_size` rows at `sprite_addr` with the
    /// display by exclusive or, its top left corner at column `x` and row
    /// `y`, clipped at the right and bottom edges, and sets the flag
    /// register to whether a pixel went from set to unset.
    fn draw_sprite(&mut self, x: usize, y: usize, sprite_addr: usize, sprite_size: usize)
        requires
            old(self).wf(),
            x <= u8::MAX,
            y <= u8::MAX,
            sprite_addr + sprite_size <= MEMORY_SIZE,
        ensures
            ({
                let sprite = Sprite {
                    rows: old(self)@.mem.subrange(
                        sprite_addr as int,
                        sprite_addr + sprite_size,
                    ),
                    x: x as int,
                    y: y as int,
                };
                final(self)@ == (MachineState {
                    pixels: draw_pixels(old(self)@.pixels, sprite),
                    v: old(self)@.v.update(
                        FLAG as int,
                        flag_byte(collision(old(self)@.pixels, sprite)),
                    ),
                    ..old(self)@
                })
            }),
    {
        let ghost before = self@;
        let ghost sprite = Sprite {
            rows: before.mem.subrange(sprite_addr as int, sprite_addr + sprite_size),
            x: x as int,
            y: y as int,
        };
        let mut collided: bool = false;
        let mut row_offset: usize = 0;
        while row_offset < sprite_size && y + row_offset < DISPLAY_HEIGHT
            invariant
                row_offset <= sprite_size,
                y <= u8::MAX,
                x <= u8::MAX,
                sprite_addr + sprite_size <= MEMORY_SIZE,
                sprite.x == x,
                sprite.y == y,
                sprite.rows == before.mem.subrange(sprite_addr as int, sprite_addr + sprite_size),
                before.well_formed(),
                self@ == (MachineState { pixels: self@.pixels, ..before }),
                forall|r: int, c: int|
                    0 <= r < DISPLAY_HEIGHT && 0 <= c < DISPLAY_WIDTH ==> self.framebuffer@[r]@[c]
                        == (#[trigger] before.pixels[r][c] ^ (r < y + row_offset && sprite.covers(
                        r,
                        c,
                    ))),
                collided == collision_before(before.pixels, sprite, y + row_offset, x as int),
            decreases sprite_size - row_offset,
        {
            let y_cur: usize = y + row_offset;
            let byte: u8 = self.mem.0[sprite_addr + row_offset];
            let mut col_offset: u8 = 0;
            while col_offset < 8 && x + (col_offset as usize) < DISPLAY_WIDTH
                invariant
                    col_offset <= 8,
                    row_offset < sprite_size,
                    y_cur == y + row_offset,
                    y_cur < DISPLAY_HEIGHT,
                    x <= u8::MAX,
                    sprite.x == x,
                    sprite.y == y,
                    sprite.rows.len() == sprite_size,
                    byte == sprite.rows[row_offset as int],
                    before.well_formed(),
                    self@ == (MachineState { pixels: self@.pixels, ..before }),
                    forall|r: int, c: int|
                        0 <= r < DISPLAY_HEIGHT && 0 <= c < DISPLAY_WIDTH
                            ==> self.framebuffer@[r]@[c] == (#[trigger] before.pixels[r][c] ^ ((r
                            < y_cur || (r == y_cur && c < x + col_offset)) && sprite.covers(r, c))),
                    collided == collision_before(
                        before.pixels,
                        sprite,
                        y_cur as int,
                        x + col_offset,
                    ),
                decreases 8 - col_offset,
            {
                let x_cur: usize = x + (col_offset as usize);
                let bit: bool = (byte & (0x80u8 >> col_offset)) != 0;
                let lit: bool = self.framebuffer[y_cur][x_cur];
                let ghost earlier = collided;
                if bit && lit {
                    collided = true;
                }
                self.framebuffer[y_cur][x_cur] = lit ^ bit;
                col_offset += 1;
                proof {
                    assert(bit == sprite.covers(y_cur as int, x_cur as int));
                    assert(lit == before.pixels[y_cur as int][x_cur as int]);
                    let here = sprite.erases(before.pixels, y_cur as int, x_cur as int);
                    assert(collision_before(before.pixels, sprite, y_cur as int, x + col_offset)
                        == (earlier || here));
                }
            }
            row_offset += 1;
            proof {
                assert forall|r: int, c: int| #[trigger]
                    sprite.erases(before.pixels, r, c) && r == y_cur implies c < x
                    + col_offset by {}
            }
        }
        proof {
            assert(collided == collision(before.pixels, sprite));
            assert(self@.pixels =~~= draw_pixels(before.pixels, sprite));
        }
        self.v[FLAG] = if collided {
            1
        } else {
            0
        };
    }

    /// Executes one instruction, with `keys` as the keypad reports it and
    /// `random` as the byte that the random-byte instruction uses.
    ///
    /// The machine ends in the state that `exec_spec` gives. On a fault it
    /// is left as it was and the fault is returned: a return with an empty
    /// call stack, or a memory operand that reaches past the end of memory.
    /// Jumps, calls, returns and skips set the program counter themselves;
    /// every other instruction is followed by the one uniform advance.
    pub fn exec(&mut self, instruction: Instruction, keys: &[bool; 16], random: u8) -> (res: Result<
        (),
        Fault,
    >)
        requires
            old(self).wf(),
            instruction.well_formed(),
            old(self)@.pc + 4 <= usize::MAX,
        ensures
            final(self).wf(),
            outcome_is(
                old(self)@,
                final(self)@,
                res,
                exec_spec(old(self)@, instruction, keys@, random),
            ),
    {
        let advance: bool = match instruction {
            Instruction::SYS { addr } => {
                self.pc = addr.0;
                true
            },
            Instruction::CLS => {
                self.clear_display();
                true
            },
            Instruction::RET => {
                match self.stack.pop() {
                    Some(saved) => {
                        self.pc = saved;
                    },
                    None => {
                        return Err(Fault::StackUnderflow);
                    },
                }
                false
            },
            Instruction::JP { addr } => {
                self.pc = addr.0;
                false
            },
            Instruction::CALL { addr } => {
                self.stack.push(self.pc);
                self.pc = addr.0;
                false
            },
            Instruction::SEI { vx, imm } => {
                self.skip_if(self.v[vx.0] == imm);
                false
            },
            Instruction::SNEI { vx, imm } => {
                self.skip_if(self.v[vx.0] != imm);
                false
            },
            Instruction::SE { vx, vy } => {
                self.skip_if(self.v[vx.0] == self.v[vy.0]);
                false
            },
            Instruction::LDI { vx, imm } => {
                self.set_register(vx.0, imm);
                true
            },
            Instruction::ADDI { vx, imm } => {
                let (_, sum) = add_carry(self.v[vx.0], imm);
                self.set_register(vx.0, sum);
                true
            },
            Instruction::LD { vx, vy } => {
                self.set_register(vx.0, self.v[vy.0]);
                true
            },
            Instruction::OR { vx, vy } => {
                self.set_register(vx.0, self.v[vx.0] | self.v[vy.0]);
                true
            },
            Instruction::AND { vx, vy } => {
                self.set_register(vx.0, self.v[vx.0] & self.v[vy.0]);
                true
            },
            Instruction::XOR { vx, vy } => {
                self.set_register(vx.0, self.v[vx.0] ^ self.v[vy.0]);
                true
            },
            Instruction::ADD { vx, vy } => {
                let (carry, sum) = add_carry(self.v[vx.0], self.v[vy.0]);
                self.set_flagged_result(vx.0, carry, sum);
                true
            },
            Instruction::SUB { vx, vy } => {
                let (no_borrow, difference) = sub_borrow(self.v[vx.0], self.v[vy.0]);
                self.set_flagged_result(vx.0, no_borrow, difference);
                true
            },
            Instruction::SHR { vx, .. } => {
                let (out, half) = shift_right(self.v[vx.0]);
                self.set_flagged_result(vx.0, out, half);
                true
            },
            Instruction::SUBN { vx, vy } => {
                let (no_borrow, difference) = sub_borrow(self.v[vy.0], self.v[vx.0]);
                self.set_flagged_result(vx.0, no_borrow, difference);
                true
            },
            Instruction::SHL { vx, .. } => {
                let (out, double) = shift_left(self.v[vx.0]);
                self.set_flagged_result(vx.0, out, double);
                true
            },
            Instruction::SNE { vx, vy } => {
                self.skip_if(self.v[vx.0] != self.v[vy.0]);
                false
            },
            Instruction::LDA { addr } => {
                self.i = addr.0 as u16;
                true
            },
            Instruction::JPO { addr } => {
                self.pc = addr.0 + self.v[0] as usize;
                false
            },
            Instruction::RND { vx, imm } => {
                self.set_register(vx.0, random & imm);
                true
            },
            Instruction::DRW { vx, vy, size } => {
                if self.i as usize + size > MEMORY_SIZE {
                    return Err(Fault::OutOfBounds { addr: self.i as usize });
                }
                self.draw_sprite(
                    self.v[vx.0] as usize,
                    self.v[vy.0] as usize,
                    self.i as usize,
                    size,
                );
                true
            },
            Instruction::SKP { vx } => {
                self.skip_if(is_key_down(keys, self.v[vx.0]));
                false
            },
            Instruction::SKNP { vx } => {
                self.skip_if(!is_key_down(keys, self.v[vx.0]));
                false
            },
            Instruction::LDDT { vx } => {
                self.set_register(vx.0, self.dt);
                true
            },
            Instruction::LDKEY { vx } => {
                match pressed_key(keys) {
                    Some(key) => {
                        self.set_register(vx.0, key);
                        true
                    },
                    None => false,
                }
            },
            Instruction::SETDT { vx } => {
                self.dt = self.v[vx.0];
                true
            },
            Instruction::LDST { vx } => {
                self.st = self.v[vx.0];
                true
            },
            Instruction::ADDIR { vx } => {
                self.i = add_to_address(self.i, self.v[vx.0]);
                true
            },
            Instruction::LDSPR { vx } => {
                self.i = GLYPH_SIZE as u16 * self.v[vx.0] as u16;
                true
            },
            Instruction::LDBCD { vx } => {
                if self.i as usize + 2 >= MEMORY_SIZE {
                    return Err(Fault::OutOfBounds { addr: self.i as usize });
                }
                self.store_digits(self.v[vx.0]);
                true
            },
            Instruction::STR { vx } => {
                if self.i as usize + vx.0 >= MEMORY_SIZE {
                    return Err(Fault::OutOfBounds { addr: self.i as usize });
                }
                self.store_registers(vx.0);
                true
            },
            Instruction::LDR { vx } => {
                if self.i as usize + vx.0 >= MEMORY_SIZE {
                    return Err(Fault::OutOfBounds { addr: self.i as usize });
                }
                self.fetch_registers(vx.0);
                true
            },
        };
        if advance {
            self.inc_pc();
        }
        Ok(())
    }

    /// Performs one fetch-decode-execute cycle, with `keys` as the keypad
    /// reports it.
    ///
    /// The instruction at the program counter is fetched, decoded and
    /// executed as `step_spec` says, for some byte from the random source;
    /// where the instruction is not the random-byte instruction, the byte
    /// plays no part. On a fault the machine is left as it was and the fault
    /// is returned.
    pub fn step(&mut self, keys: &[bool; 16]) -> (res: Result<(), Fault>)
        requires
            old(self).wf(),
        ensures
            final(self).wf(),
            exists|rnd: u8|
                outcome_is(
                    old(self)@,
                    final(self)@,
                    res,
                    #[trigger] step_spec(old(self)@, keys@, rnd),
                ),
            !uses_random(old(self)@) ==> forall|rnd: u8|
                outcome_is(
                    old(self)@,
                    final(self)@,
                    res,
                    #[trigger] step_spec(old(self)@, keys@, rnd),
                ),
    {
        let instruction: Instruction = match self.mem.get_instruction(self.pc) {
            Ok(instruction) => instruction,
            Err(fault) => {
                assert(step_spec(self@, keys@, 0u8) == Err::<MachineState, Fault>(fault));
                return Err(fault);
            },
        };
        let random: u8 = match instruction {
            Instruction::RND { .. } => random_byte(&mut self.rng),
            _ => 0,
        };
        let res = self.exec(instruction, keys, random);
        assert(step_spec(old(self)@, keys@, random) == exec_spec(
            old(self)@,
            instruction,
            keys@,
            random,
        ));
        res
    }

    /// Performs up to `cycles` cycles, with `keys` as the keypad reports
    /// it, and stops at the first fault.
    ///
    /// The machine ends where `run_spec` says, for some sequence of bytes
    /// from the random source: after `cycles` cycles, or in the state in
    /// which a fault arose, with that fault returned.
    pub fn run(&mut self, keys: &[bool; 16], cycles: usize) -> (res: Result<(), Fault>)
        requires
            old(self).wf(),
        ensures
            final(self).wf(),
            exists|rnds: Seq<u8>|
                rnds.len() == cycles && #[trigger] run_spec(
                    old(self)@,
                    keys@,
                    rnds,
                    cycles as nat,
                ) == (final(self)@, res),
    {
        let ghost start = self@;
        let ghost mut rnds: Seq<u8> = Seq::empty();
        let mut done: usize = 0;
        while done < cycles
            invariant
                done <= cycles,
                self.wf(),
                start == old(self)@,
                rnds.len() == done,
                run_spec(start, keys@, rnds, done as nat) == (self@, Ok::<(), Fault>(())),
            decreases cycles - done,
        {
            let ghost before = self@;
            let ghost earlier = rnds;
            let outcome = self.step(keys);
            proof {
                let rnd = choose|rnd: u8|
                    outcome_is(before, self@, outcome, #[trigger] step_spec(before, keys@, rnd));
                rnds = earlier.push(rnd);
                lemma_run_reads_prefix(start, keys@, earlier, rnds, done as nat);
            }
            if let Err(fault) = outcome {
                proof {
                    let padded = rnds + Seq::new((cycles - done - 1) as nat, |k: int| 0u8);
                    lemma_run_reads_prefix(start, keys@, rnds, padded, (done + 1) as nat);
                    lemma_run_stays_stopped(start, keys@, padded, (done + 1) as nat, cycles as nat);
                    assert(run_spec(start, keys@, padded, cycles as nat) == (self@, outcome));
                }
                return Err(fault);
            }
            done += 1;
        }
        Ok(())
    }

    /// Counts both timers down by one, each stopping at zero.
    pub fn tick_timers(&mut self)
        ensures
            final(self)@ == old(self)@.tick(),
    {
        if self.dt > 0 {
            self.dt -= 1;
        }
        if self.st > 0 {
            self.st -= 1;
        }
    }
}

} // verus!
