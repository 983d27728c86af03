//! The machine as a mathematical value, and what one instruction, one step
//! and a run of steps make of it.

use vstd::prelude::*;
use crate::display::{blank_grid, grid_wf, FBHEIGHT, FBWIDTH};
use crate::instruction::{decode_spec, Instruction};
use crate::memory::MEMORY_SIZE;

verus! {

/// Why a step was not carried out.
#[derive(Clone, Copy, Debug, PartialEq, Eq, Structural)]
pub enum StepError {
    /// The program counter is at or past the end of memory.
    ProgramCounterOverrun,
    /// A return was asked for while the call stack was empty.
    StackUnderflow,
    /// The instruction, or the sprite it draws, reaches past the end of
    /// memory.
    OutOfBounds,
}

/// The whole state of the machine.
pub struct MachineState {
    /// The sixteen general registers `V0` to `VF`.
    pub registers: Seq<u8>,
    /// The index register.
    pub index: u16,
    /// The address of the next instruction.
    pub pc: u16,
    /// The return addresses, the most recent one last.
    pub stack: Seq<u16>,
    /// The delay timer.
    pub delay_timer: u8,
    /// The sound timer.
    pub sound_timer: u8,
    /// The display, as rows of pixels.
    pub display: Seq<Seq<bool>>,
    /// The address space.
    pub memory: Seq<u8>,
}

/// Whether bit `col` of a sprite row is lit, counting from the most
/// significant bit, which is the leftmost pixel.
pub open spec fn sprite_bit(data: u8, col: int) -> bool {
    0 <= col < 8 && (data & (0x80u8 >> (col as u8))) != 0
}

/// Whether a sprite row with bits `data`, whose leftmost pixel is in column
/// `vx`, has a lit pixel in column `px`.
pub open spec fn row_covers(data: u8, vx: int, px: int) -> bool {
    vx <= px < vx + 8 && sprite_bit(data, px - vx)
}

/// Whether the sprite `rows`, anchored with its top left corner at
/// `(vx, vy)`, has a lit pixel at `(px, py)`.
pub open spec fn sprite_covers(rows: Seq<u8>, vx: int, vy: int, px: int, py: int) -> bool {
    vy <= py < vy + rows.len() && row_covers(rows[py - vy], vx, px)
}

/// The grid after the sprite was composited onto it by exclusive-or. Sprite
/// pixels that fall off the right or bottom edge are simply not there.
pub open spec fn drawn(grid: Seq<Seq<bool>>, rows: Seq<u8>, vx: int, vy: int) -> Seq<Seq<bool>> {
    Seq::new(
        FBHEIGHT as nat,
        |y: int|
            Seq::new(FBWIDTH as nat, |x: int| grid[y][x] ^ sprite_covers(rows, vx, vy, x, y)),
    )
}

/// Whether some lit pixel of the sprite lands on a pixel of the grid that is
/// already lit.
pub open spec fn collides(grid: Seq<Seq<bool>>, rows: Seq<u8>, vx: int, vy: int) -> bool {
    exists|x: int, y: int|
        0 <= x < FBWIDTH && 0 <= y < FBHEIGHT && grid[y][x] && #[trigger] sprite_covers(
            rows,
            vx,
            vy,
            x,
            y,
        )
}

/// How many rows of an `n`-row sprite anchored in row `vy` are on the display.
pub open spec fn visible_rows(n: int, vy: int) -> int {
    if n <= FBHEIGHT - vy {
        n
    } else {
        FBHEIGHT - vy
    }
}

/// The `count` bytes of `memory` from `start` on.
pub open spec fn sprite_rows(memory: Seq<u8>, start: int, count: int) -> Seq<u8> {
    Seq::new(count as nat, |r: int| memory[start + r])
}

/// 1 for `true`, 0 for `false`.
pub open spec fn flag(b: bool) -> u8 {
    if b {
        1
    } else {
        0
    }
}

impl MachineState {
    /// The lengths that every machine has: sixteen registers, `MEMORY_SIZE`
    /// bytes and a full grid of pixels.
    pub open spec fn wf(self) -> bool {
        &&& self.registers.len() == 16
        &&& self.memory.len() == MEMORY_SIZE
        &&& grid_wf(self.display)
    }

    /// The machine as it is created: everything zero, the stack empty, the
    /// display blank.
    pub open spec fn initial() -> MachineState {
        MachineState {
            registers: Seq::new(16, |i: int| 0u8),
            index: 0,
            pc: 0,
            stack: Seq::empty(),
            delay_timer: 0,
            sound_timer: 0,
            display: blank_grid(),
            memory: Seq::new(MEMORY_SIZE as nat, |i: int| 0u8),
        }
    }

    /// The value of register `r`.
    pub open spec fn v(self, r: u8) -> u8 {
        self.registers[r as int]
    }

    /// This state with register `r` holding `value`.
    pub open spec fn with_register(self, r: u8, value: u8) -> MachineState {
        MachineState { registers: self.registers.update(r as int, value), ..self }
    }

    /// This state with the program counter at `pc`.
    pub open spec fn with_pc(self, pc: u16) -> MachineState {
        MachineState { pc, ..self }
    }

    /// This state with the program counter moved past one more instruction
    /// if `skip` holds.
    pub open spec fn skipping(self, skip: bool) -> MachineState {
        if skip {
            self.with_pc((self.pc + 2) as u16)
        } else {
            self
        }
    }

    /// The column in which a sprite drawn by `Draw { x, .. }` is anchored.
    pub open spec fn anchor_x(self, x: u8) -> int {
        self.v(x) as int % FBWIDTH as int
    }

    /// The row in which a sprite drawn by `Draw { y, .. }` is anchored.
    pub open spec fn anchor_y(self, y: u8) -> int {
        self.v(y) as int % FBHEIGHT as int
    }

    /// The rows that `Draw { y, n, .. }` reads from memory: those of the
    /// sprite's `n` rows that are on the display.
    pub open spec fn sprite_of(self, y: u8, n: u8) -> Seq<u8> {
        sprite_rows(self.memory, self.index as int, visible_rows(n as int, self.anchor_y(y)))
    }

    /// Whether `Draw { y, n, .. }` would read past the end of memory.
    pub open spec fn sprite_out_of_bounds(self, y: u8, n: u8) -> bool {
        let count = visible_rows(n as int, self.anchor_y(y));
        count > 0 && self.index + count > MEMORY_SIZE
    }
}

/// What `inst` makes of the state `s`, in which the program counter already
/// points behind the instruction. Where an instruction writes both `Vx` and
/// the flag register `VF`, the operands are read first; with `x == 0xF` the
/// later of the two writes is the one that stays.
pub open spec fn execute_spec(s: MachineState, inst: Instruction) -> Result<
    MachineState,
    StepError,
> {
    match inst {
        Instruction::ClearScreen => Ok(MachineState { display: blank_grid(), ..s }),
        Instruction::Return => if s.stack.len() == 0 {
            Err(StepError::StackUnderflow)
        } else {
            Ok(MachineState { pc: s.stack.last(), stack: s.stack.drop_last(), ..s })
        },
        Instruction::Jump { addr } => Ok(s.with_pc(addr)),
        Instruction::Call { addr } => Ok(MachineState { pc: addr, stack: s.stack.push(s.pc), ..s }),
        Instruction::SkipIfEqual { x, kk } => Ok(s.skipping(s.v(x) == kk)),
        Instruction::SkipIfNotEqual { x, kk } => Ok(s.skipping(s.v(x) != kk)),
        Instruction::SkipIfRegistersEqual { x, y } => Ok(s.skipping(s.v(x) == s.v(y))),
        Instruction::Load { x, kk } => Ok(s.with_register(x, kk)),
        Instruction::AddImmediate { x, kk } => Ok(s.with_register(x, ((s.v(x) + kk) % 256) as u8)),
        Instruction::Move { x, y } => Ok(s.with_register(x, s.v(y))),
        Instruction::Or { x, y } => Ok(s.with_register(x, s.v(x) | s.v(y))),
        Instruction::And { x, y } => Ok(s.with_register(x, s.v(x) & s.v(y))),
        Instruction::Xor { x, y } => Ok(s.with_register(x, s.v(x) ^ s.v(y))),
        Instruction::Add { x, y } => {
            let sum = s.v(x) + s.v(y);
            Ok(s.with_register(0xF, flag(sum > 255)).with_register(x, (sum % 256) as u8))
        },
        Instruction::Subtract { x, y } => {
            let a = s.v(x);
            let b = s.v(y);
            Ok(s.with_register(0xF, flag(a > b)).with_register(x, ((a - b) % 256) as u8))
        },
        Instruction::ShiftRight { x } => {
            let a = s.v(x);
            Ok(s.with_register(x, a / 2).with_register(0xF, a % 2))
        },
        Instruction::SubtractFrom { x, y } => {
            let a = s.v(x);
            let b = s.v(y);
            Ok(s.with_register(0xF, flag(b > a)).with_register(x, ((b - a) % 256) as u8))
        },
        Instruction::ShiftLeft { x } => {
            let a = s.v(x);
            Ok(s.with_register(x, ((a * 2) % 256) as u8).with_register(0xF, a / 128))
        },
        Instruction::SkipIfRegistersDiffer { x, y } => Ok(s.skipping(s.v(x) != s.v(y))),
        Instruction::LoadIndex { addr } => Ok(MachineState { index: addr, ..s }),
        Instruction::JumpOffset { addr } => Ok(s.with_pc((addr + s.v(0)) as u16)),
        Instruction::Draw { x, y, n } => if s.sprite_out_of_bounds(y, n) {
            Err(StepError::OutOfBounds)
        } else {
            let vx = s.anchor_x(x);
            let vy = s.anchor_y(y);
            let rows = s.sprite_of(y, n);
            Ok(
                MachineState { display: drawn(s.display, rows, vx, vy), ..s }.with_register(
                    0xF,
                    flag(collides(s.display, rows, vx, vy)),
                ),
            )
        },
        Instruction::Unimplemented { opcode } => Ok(s),
    }
}

/// No instruction writes to memory.
pub proof fn lemma_execute_keeps_memory(s: MachineState, inst: Instruction)
    ensures
        execute_spec(s, inst) matches Ok(t) ==> t.memory == s.memory,
{
}

/// The instruction that the next step of `s` fetches.
pub open spec fn fetched(s: MachineState) -> Instruction {
    decode_spec(s.memory[s.pc as int], s.memory[s.pc + 1])
}

/// One step: fetch the two bytes at the program counter, move the counter
/// behind them, decode and execute. A step that fails changes nothing.
pub open spec fn step_spec(s: MachineState) -> Result<MachineState, StepError> {
    if s.pc >= MEMORY_SIZE {
        Err(StepError::ProgramCounterOverrun)
    } else if s.pc + 1 >= MEMORY_SIZE {
        Err(StepError::OutOfBounds)
    } else {
        execute_spec(s.with_pc((s.pc + 2) as u16), fetched(s))
    }
}

/// Up to `count` steps from `s`, stopping at the first one that fails: the
/// state reached, and the error if there was one.
pub open spec fn run_spec(s: MachineState, count: nat) -> (MachineState, Result<(), StepError>)
    decreases count,
{
    if count == 0 {
        (s, Ok(()))
    } else {
        match step_spec(s) {
            Ok(next) => run_spec(next, (count - 1) as nat),
            Err(e) => (s, Err(e)),
        }
    }
}

} // verus!
