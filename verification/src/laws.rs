//! Laws of the instruction semantics, proved over the model of the machine.

use vstd::prelude::*;
use crate::fault::Fault;
use crate::isa::{Address, Instruction, Register};
use crate::state::{
    DISPLAY_HEIGHT, DISPLAY_WIDTH, FLAG, MEMORY_SIZE, MachineState, REGISTER_COUNT, Sprite,
    collision, draw_pixels, exec_spec, fetch_spec, step_spec, uses_random,
};

verus! {

/// Whether a display has the machine's thirty-two rows of sixty-four
/// pixels.
pub open spec fn display_shaped(pixels: Seq<Seq<bool>>) -> bool {
    &&& pixels.len() == DISPLAY_HEIGHT
    &&& forall|row: int| 0 <= row < DISPLAY_HEIGHT ==> (#[trigger] pixels[row]).len() == DISPLAY_WIDTH
}

/// Whether the sprite has a set bit on a pixel of the display that is unset
/// in `pixels`.
pub open spec fn lights(pixels: Seq<Seq<bool>>, sprite: Sprite, row: int, col: int) -> bool {
    &&& 0 <= row < DISPLAY_HEIGHT
    &&& 0 <= col < DISPLAY_WIDTH
    &&& !pixels[row][col]
    &&& sprite.covers(row, col)
}

/// Register dump followed by register load through the same address
/// register and register count restores `V0..=Vx`, whatever the registers
/// held in between, and leaves the registers above `Vx` as they were in
/// between. The dump must fit into memory, or it faults.
pub proof fn lemma_dump_then_load_restores(
    m: MachineState,
    vx: Register,
    between: Seq<u8>,
    keys: Seq<bool>,
    rnd: u8,
)
    requires
        m.well_formed(),
        vx.in_range(),
        between.len() == REGISTER_COUNT,
        m.i + vx.0 < MEMORY_SIZE,
    ensures
        exec_spec(m, Instruction::STR { vx }, keys, rnd) matches Ok(dumped) && exec_spec(
            MachineState { v: between, ..dumped },
            Instruction::LDR { vx },
            keys,
            rnd,
        ) matches Ok(loaded) && loaded.v.len() == REGISTER_COUNT && (forall|k: int|
            0 <= k <= vx.0 ==> loaded.v[k] == m.v[k]) && (forall|k: int|
            vx.0 < k < REGISTER_COUNT ==> loaded.v[k] == between[k]) && loaded.mem == dumped.mem,
{
}

/// Register dump followed at once by register load leaves every register
/// as it was.
pub proof fn lemma_dump_load_round_trip(m: MachineState, vx: Register, keys: Seq<bool>, rnd: u8)
    requires
        m.well_formed(),
        vx.in_range(),
        m.i + vx.0 < MEMORY_SIZE,
    ensures
        exec_spec(m, Instruction::STR { vx }, keys, rnd) matches Ok(dumped) && exec_spec(
            dumped,
            Instruction::LDR { vx },
            keys,
            rnd,
        ) matches Ok(loaded) && loaded.v == m.v,
{
    lemma_dump_then_load_restores(m, vx, m.v, keys, rnd);
    let dumped = exec_spec(m, Instruction::STR { vx }, keys, rnd)->Ok_0;
    assert(dumped =~= MachineState { v: m.v, ..dumped });
    let loaded = exec_spec(dumped, Instruction::LDR { vx }, keys, rnd)->Ok_0;
    assert(loaded.v =~= m.v);
}

/// Drawing the same sprite twice at the same position restores every
/// pixel: exclusive or is its own inverse.
pub proof fn lemma_draw_twice_restores(pixels: Seq<Seq<bool>>, sprite: Sprite)
    requires
        display_shaped(pixels),
    ensures
        draw_pixels(draw_pixels(pixels, sprite), sprite) == pixels,
{
    let once = draw_pixels(pixels, sprite);
    let twice = draw_pixels(once, sprite);
    assert forall|row: int| 0 <= row < DISPLAY_HEIGHT implies twice[row] =~= pixels[row] by {
        assert forall|col: int| 0 <= col < DISPLAY_WIDTH implies twice[row][col]
            == pixels[row][col] by {
            assert(once[row][col] == (pixels[row][col] ^ sprite.covers(row, col)));
        }
    }
    assert(twice =~= pixels);
}

/// The second of two draws of the same sprite at the same position reports
/// a collision exactly where the sprite has a bit on a pixel of the display
/// that was unset before the first draw.
pub proof fn lemma_second_draw_collision(pixels: Seq<Seq<bool>>, sprite: Sprite)
    requires
        display_shaped(pixels),
    ensures
        collision(draw_pixels(pixels, sprite), sprite) <==> exists|row: int, col: int| #[trigger]
            lights(pixels, sprite, row, col),
{
    let once = draw_pixels(pixels, sprite);
    assert forall|row: int, col: int| #[trigger]
        sprite.erases(once, row, col) == lights(pixels, sprite, row, col) by {
        if 0 <= row < DISPLAY_HEIGHT && 0 <= col < DISPLAY_WIDTH {
            assert(once[row][col] == (pixels[row][col] ^ sprite.covers(row, col)));
        }
    }
    if collision(once, sprite) {
        let (row, col) = choose|row: int, col: int| #[trigger] sprite.erases(once, row, col);
        assert(lights(pixels, sprite, row, col));
    }
    if exists|row: int, col: int| #[trigger] lights(pixels, sprite, row, col) {
        let (row, col) = choose|row: int, col: int| #[trigger] lights(pixels, sprite, row, col);
        assert(sprite.erases(once, row, col));
    }
}

/// Two draw instructions in a row with the same operands restore the
/// display, provided that neither coordinate is read from the flag
/// register, which the first draw overwrites. The sprite must lie inside
/// memory, or the draw faults.
pub proof fn lemma_draw_instruction_twice_restores(
    m: MachineState,
    vx: Register,
    vy: Register,
    size: usize,
    keys: Seq<bool>,
    rnd: u8,
)
    requires
        m.well_formed(),
        vx.in_range(),
        vy.in_range(),
        vx.0 != FLAG,
        vy.0 != FLAG,
        m.i + size <= MEMORY_SIZE,
    ensures
        exec_spec(m, Instruction::DRW { vx, vy, size }, keys, rnd) matches Ok(once) && exec_spec(
            once,
            Instruction::DRW { vx, vy, size },
            keys,
            rnd,
        ) matches Ok(twice) && twice.pixels == m.pixels && twice.mem == m.mem,
{
    lemma_draw_twice_restores(m.pixels, m.sprite(vx.0 as int, vy.0 as int, size as int));
}

/// A skip whose condition holds moves the program counter forward by
/// four, one whose condition fails by two, and neither changes anything
/// else. This is stated for skip-if-equal; the other skips differ in the
/// condition alone.
pub proof fn lemma_skip_equal_advance(
    m: MachineState,
    vx: Register,
    vy: Register,
    keys: Seq<bool>,
    rnd: u8,
)
    requires
        vx.in_range(),
        vy.in_range(),
        m.well_formed(),
        m.pc + 4 <= usize::MAX,
    ensures
        exec_spec(m, Instruction::SE { vx, vy }, keys, rnd) matches Ok(next) && next == (
        MachineState { pc: next.pc, ..m }) && (m.v[vx.0 as int] == m.v[vy.0 as int] ==> next.pc
            == m.pc + 4) && (m.v[vx.0 as int] != m.v[vy.0 as int] ==> next.pc == m.pc + 2),
{
}

/// A call followed at once by a return leaves the machine exactly as it
/// was before the call: the program counter that the call saved is the one
/// that the return resumes at, and the call stack is as deep as before.
pub proof fn lemma_call_then_return_resumes(
    m: MachineState,
    addr: Address,
    keys: Seq<bool>,
    rnd: u8,
)
    ensures
        exec_spec(m, Instruction::CALL { addr }, keys, rnd) matches Ok(called) && called.pc
            == addr.0 && called.stack == m.stack.push(m.pc) && exec_spec(
            called,
            Instruction::RET,
            keys,
            rnd,
        ) == Ok::<MachineState, Fault>(m),
{
    let called = exec_spec(m, Instruction::CALL { addr }, keys, rnd)->Ok_0;
    assert(called.stack.drop_last() =~= m.stack);
    assert(exec_spec(called, Instruction::RET, keys, rnd)->Ok_0 =~= m);
}

/// Executing a well-formed instruction on a well-formed state yields a
/// well-formed state: memory keeps its size, the register file its sixteen
/// registers and the display its shape.
pub proof fn lemma_exec_keeps_shape(m: MachineState, ins: Instruction, keys: Seq<bool>, rnd: u8)
    requires
        m.well_formed(),
        ins.well_formed(),
    ensures
        exec_spec(m, ins, keys, rnd) matches Ok(next) ==> next.well_formed(),
{
}

/// Only the random-byte instruction reads the random byte: every other
/// instruction has the same outcome whatever the byte is.
pub proof fn lemma_random_byte_unread(
    m: MachineState,
    ins: Instruction,
    keys: Seq<bool>,
    rnd1: u8,
    rnd2: u8,
)
    requires
        !(ins is RND),
    ensures
        exec_spec(m, ins, keys, rnd1) == exec_spec(m, ins, keys, rnd2),
{
}

/// A cycle whose instruction is not the random-byte instruction has the
/// same outcome whatever the random byte is.
pub proof fn lemma_step_random_byte_unread(m: MachineState, keys: Seq<bool>, rnd1: u8, rnd2: u8)
    requires
        !uses_random(m),
    ensures
        step_spec(m, keys, rnd1) == step_spec(m, keys, rnd2),
{
    if let Ok(ins) = fetch_spec(m.mem, m.pc) {
        lemma_random_byte_unread(m, ins, keys, rnd1, rnd2);
    }
}

} // verus!
