//! Properties of the execution semantics that hold for every state.

use vstd::prelude::*;
use crate::display::{blank_grid, grid_wf, FBHEIGHT, FBWIDTH};
use crate::instruction::{decode_spec, Instruction};
use crate::machine::{
    collides, drawn, execute_spec, fetched, flag, run_spec, sprite_covers, step_spec,
    MachineState, StepError,
};
use crate::memory::MEMORY_SIZE;

verus! {

/// Whether the next instruction of `s` lies within memory and consists of
/// the bytes `b0`, `b1`.
pub open spec fn next_opcode_is(s: MachineState, b0: int, b1: int) -> bool {
    &&& s.wf()
    &&& s.pc + 1 < MEMORY_SIZE
    &&& s.memory[s.pc as int] == b0
    &&& s.memory[s.pc + 1] == b1
}

/// A step on `8xy4` with `x` other than `0xF` leaves the sum of `Vx` and
/// `Vy` modulo 256 in `Vx`, and 1 in `VF` exactly if the sum is above 255.
pub proof fn law_add_sets_carry(s: MachineState, x: u8, y: u8)
    requires
        x < 0xF,
        y <= 0xF,
        next_opcode_is(s, 0x80 + x, 16 * y + 4),
    ensures
        step_spec(s) matches Ok(t) && t.v(x) == (s.v(x) + s.v(y)) % 256 && (t.v(0xF) == 1 <==> s.v(x)
            + s.v(y) > 255) && (t.v(0xF) == 0 || t.v(0xF) == 1),
{
    assert(fetched(s) == Instruction::Add { x, y });
}

/// A step on `8xy5` with `x` other than `0xF` leaves the difference of `Vx`
/// and `Vy` modulo 256 in `Vx`, and 1 in `VF` exactly if `Vx` was above `Vy`.
pub proof fn law_subtract_sets_flag(s: MachineState, x: u8, y: u8)
    requires
        x < 0xF,
        y <= 0xF,
        next_opcode_is(s, 0x80 + x, 16 * y + 5),
    ensures
        step_spec(s) matches Ok(t) && t.v(x) == (s.v(x) - s.v(y)) % 256 && (t.v(0xF) == 1 <==> s.v(x)
            > s.v(y)) && (t.v(0xF) == 0 || t.v(0xF) == 1),
{
    assert(fetched(s) == Instruction::Subtract { x, y });
}

/// Every pixel of a blank grid is off, so after a step on `00E0` every
/// pixel of the display is off.
pub proof fn law_clear_turns_all_off(s: MachineState, x: int, y: int)
    requires
        0 <= x < FBWIDTH,
        0 <= y < FBHEIGHT,
        next_opcode_is(s, 0x00, 0xE0),
    ensures
        !blank_grid()[y][x],
        step_spec(s) matches Ok(t) && !t.display[y][x],
{
    assert(fetched(s) == Instruction::ClearScreen);
}

/// Drawing a sprite twice in the same place gives the grid back as it was.
/// The first draw reports a collision exactly if the sprite covers a pixel
/// that was lit, the second exactly if it covers one that was not.
pub proof fn law_draw_twice_restores(grid: Seq<Seq<bool>>, rows: Seq<u8>, vx: int, vy: int)
    requires
        grid_wf(grid),
    ensures
        drawn(drawn(grid, rows, vx, vy), rows, vx, vy) == grid,
        collides(grid, rows, vx, vy) ==> exists|x: int, y: int|
            0 <= x < FBWIDTH && 0 <= y < FBHEIGHT && #[trigger] grid[y][x],
        collides(drawn(grid, rows, vx, vy), rows, vx, vy) <==> exists|x: int, y: int|
            0 <= x < FBWIDTH && 0 <= y < FBHEIGHT && !grid[y][x] && #[trigger] sprite_covers(
                rows,
                vx,
                vy,
                x,
                y,
            ),
{
    let once = drawn(grid, rows, vx, vy);
    assert(drawn(once, rows, vx, vy) =~~= grid);
    if collides(grid, rows, vx, vy) {
        let (x, y) = choose|x: int, y: int|
            0 <= x < FBWIDTH && 0 <= y < FBHEIGHT && grid[y][x] && #[trigger] sprite_covers(
                rows,
                vx,
                vy,
                x,
                y,
            );
        assert(grid[y][x]);
    }
    if collides(once, rows, vx, vy) {
        let (x, y) = choose|x: int, y: int|
            0 <= x < FBWIDTH && 0 <= y < FBHEIGHT && once[y][x] && #[trigger] sprite_covers(
                rows,
                vx,
                vy,
                x,
                y,
            );
        assert(!grid[y][x] && sprite_covers(rows, vx, vy, x, y));
    }
    if exists|x: int, y: int|
        0 <= x < FBWIDTH && 0 <= y < FBHEIGHT && !grid[y][x] && #[trigger] sprite_covers(
            rows,
            vx,
            vy,
            x,
            y,
        ) {
        let (x, y) = choose|x: int, y: int|
            0 <= x < FBWIDTH && 0 <= y < FBHEIGHT && !grid[y][x] && #[trigger] sprite_covers(
                rows,
                vx,
                vy,
                x,
                y,
            );
        assert(once[y][x] && sprite_covers(rows, vx, vy, x, y));
    }
}

/// On a grid with every pixel off, the first draw of a sprite reports no
/// collision, and the second reports one unless no lit pixel of the sprite
/// is on the display.
pub proof fn law_draw_twice_on_blank(rows: Seq<u8>, vx: int, vy: int)
    ensures
        !collides(blank_grid(), rows, vx, vy),
        collides(drawn(blank_grid(), rows, vx, vy), rows, vx, vy) <==> exists|x: int, y: int|
            0 <= x < FBWIDTH && 0 <= y < FBHEIGHT && #[trigger] sprite_covers(rows, vx, vy, x, y),
{
    law_draw_twice_restores(blank_grid(), rows, vx, vy);
    if exists|x: int, y: int|
        0 <= x < FBWIDTH && 0 <= y < FBHEIGHT && #[trigger] sprite_covers(rows, vx, vy, x, y) {
        let (x, y) = choose|x: int, y: int|
            0 <= x < FBWIDTH && 0 <= y < FBHEIGHT && #[trigger] sprite_covers(rows, vx, vy, x, y);
        assert(!blank_grid()[y][x] && sprite_covers(rows, vx, vy, x, y));
    }
}

/// Two steps on the same `Dxyn`, with `x` and `y` other than `0xF` and
/// the sprite within memory, give the display back as it was.
pub proof fn law_draw_instruction_twice(s: MachineState, t: MachineState, x: u8, y: u8, n: u8)
    requires
        x < 0xF,
        y < 0xF,
        n <= 0xF,
        next_opcode_is(s, 0xD0 + x, 16 * y + n),
        !s.sprite_out_of_bounds(y, n),
        step_spec(s) == Ok::<MachineState, StepError>(t),
    ensures
        step_spec(t.with_pc(s.pc)) matches Ok(u) && u.display == s.display,
{
    assert(fetched(s) == Instruction::Draw { x, y, n });
    let again = t.with_pc(s.pc);
    assert(fetched(again) == Instruction::Draw { x, y, n });
    assert(again.sprite_of(y, n) == s.sprite_of(y, n));
    law_draw_twice_restores(s.display, s.sprite_of(y, n), s.anchor_x(x), s.anchor_y(y));
}

/// A step on `2addr` pushes the address behind the call. A step on `00EE`
/// taken from any state `at_return` whose stack is as the call left it
/// continues at that address, with the stack as it was before the call.
pub proof fn law_call_then_return(s: MachineState, at_return: MachineState, hi: u8, lo: u8)
    requires
        hi <= 0xF,
        next_opcode_is(s, 0x20 + hi, lo as int),
        next_opcode_is(at_return, 0x00, 0xEE),
        step_spec(s) matches Ok(t) && at_return.stack == t.stack,
    ensures
        step_spec(s) matches Ok(t) && t.pc == hi * 256 + lo && t.stack.len() == s.stack.len() + 1,
        step_spec(at_return) matches Ok(u) && u.pc == s.pc + 2 && u.stack == s.stack,
{
    assert(fetched(s) == Instruction::Call { addr: (hi * 256 + lo) as u16 });
    assert(fetched(at_return) == Instruction::Return);
    let t = step_spec(s)->Ok_0;
    assert(t.stack.drop_last() =~= s.stack);
}

/// A step on `00EE` with an empty call stack fails with `StackUnderflow`,
/// and so does every run of at least one step from there, which leaves the
/// state as it was.
pub proof fn law_return_on_empty_stack(s: MachineState, count: nat)
    requires
        next_opcode_is(s, 0x00, 0xEE),
        s.stack.len() == 0,
        count > 0,
    ensures
        step_spec(s) == Err::<MachineState, StepError>(StepError::StackUnderflow),
        run_spec(s, count) == (s, Err::<(), StepError>(StepError::StackUnderflow)),
{
    assert(fetched(s) == Instruction::Return);
}

/// A step on an opcode that is not implemented moves the program counter
/// behind it and changes nothing else.
pub proof fn law_unimplemented_is_no_op(s: MachineState)
    requires
        s.wf(),
        s.pc + 1 < MEMORY_SIZE,
        fetched(s) is Unimplemented,
    ensures
        step_spec(s) == Ok::<MachineState, StepError>(s.with_pc((s.pc + 2) as u16)),
{
}

/// Whether the next instruction of `s` draws a sprite that reaches past the
/// end of memory.
pub open spec fn draws_out_of_bounds(s: MachineState) -> bool {
    match fetched(s) {
        Instruction::Draw { x, y, n } => s.sprite_out_of_bounds(y, n),
        _ => false,
    }
}

/// The only failures of a step are these: the counter at or past the end
/// of memory, the second byte of the instruction or the sprite past the end
/// of memory, and a return on an empty stack.
pub proof fn law_step_failures(s: MachineState)
    requires
        s.wf(),
    ensures
        step_spec(s) == Err::<MachineState, StepError>(StepError::ProgramCounterOverrun) <==> s.pc
            >= MEMORY_SIZE,
        step_spec(s) == Err::<MachineState, StepError>(StepError::StackUnderflow) <==> s.pc + 1
            < MEMORY_SIZE && fetched(s) == Instruction::Return && s.stack.len() == 0,
        step_spec(s) == Err::<MachineState, StepError>(StepError::OutOfBounds) <==> s.pc + 1
            == MEMORY_SIZE || (s.pc + 1 < MEMORY_SIZE && draws_out_of_bounds(s)),
{
}

} // verus!
