//! The processor: registers, call stack, timers, display and memory, and
//! the fetch-decode-execute cycle over them.

use vstd::prelude::*;
use crate::display::{grid_wf, Framebuffer, FBHEIGHT, FBWIDTH};
use crate::instruction::{decode, Instruction};
use crate::machine::{
    collides, drawn, execute_spec, lemma_execute_keeps_memory, row_covers, run_spec,
    sprite_covers, step_spec, MachineState, StepError,
};
use crate::memory::{overwritten, Memory, OutOfBounds, MEMORY_SIZE};

verus! {

/// The address at which programs are conventionally loaded.
pub const PROGRAM_BASE: u16 = 0x200;

/// Composites one sprite row onto row `py` of the display, its leftmost pixel
/// in column `vx`, and tells whether a lit pixel was turned off. Pixels past
/// the right edge are dropped.
fn draw_row(display: &mut Framebuffer, data: u8, vx: usize, py: usize) -> (hit: bool)
    requires
        vx < FBWIDTH,
        py < FBHEIGHT,
    ensures
        final(display)@ == old(display)@.update(
            py as int,
            Seq::new(
                FBWIDTH as nat,
                |x: int| old(display)@[py as int][x] ^ row_covers(data, vx as int, x),
            ),
        ),
        hit <==> exists|x: int|
            0 <= x < FBWIDTH && old(display)@[py as int][x] && #[trigger] row_covers(
                data,
                vx as int,
                x,
            ),
{
    let mut hit = false;
    let mut col: u8 = 0;
    proof {
        display.lemma_dimensions();
        assert(display@ =~~= old(display)@.update(
            py as int,
            Seq::new(
                FBWIDTH as nat,
                |x: int| old(display)@[py as int][x] ^ (x < vx + col && row_covers(data, vx as int, x)),
            ),
        ));
    }
    while col < 8 && vx + (col as usize) < FBWIDTH
        invariant
            col <= 8,
            vx < FBWIDTH,
            py < FBHEIGHT,
            vx + col <= FBWIDTH,
            grid_wf(old(display)@),
            display@ == old(display)@.update(
                py as int,
                Seq::new(
                    FBWIDTH as nat,
                    |x: int|
                        old(display)@[py as int][x] ^ (x < vx + col && row_covers(
                            data,
                            vx as int,
                            x,
                        )),
                ),
            ),
            hit <==> exists|x: int|
                0 <= x < vx + col && old(display)@[py as int][x] && #[trigger] row_covers(
                    data,
                    vx as int,
                    x,
                ),
        decreases 8 - col,
    {
        let px: usize = vx + (col as usize);
        let ghost hit_before = hit;
        if data & (0x80u8 >> col) != 0 {
            if display.get_xy(px, py) {
                hit = true;
            }
            display.xy(px, py, true);
        }
        col += 1;
        proof {
            assert(row_covers(data, vx as int, px as int) <==> (data & (0x80u8 >> ((col - 1) as u8)))
                != 0);
            assert(display@ =~~= old(display)@.update(
                py as int,
                Seq::new(
                    FBWIDTH as nat,
                    |x: int|
                        old(display)@[py as int][x] ^ (x < vx + col && row_covers(
                            data,
                            vx as int,
                            x,
                        )),
                ),
            ));
            if hit_before {
                let w = choose|x: int|
                    0 <= x < vx + col - 1 && old(display)@[py as int][x] && #[trigger] row_covers(
                        data,
                        vx as int,
                        x,
                    );
                assert(row_covers(data, vx as int, w));
            }
        }
    }
    proof {
        assert(display@ =~~= old(display)@.update(
            py as int,
            Seq::new(
                FBWIDTH as nat,
                |x: int| old(display)@[py as int][x] ^ row_covers(data, vx as int, x),
            ),
        ));
    }
    hit
}

/// Composites the sprite `rows` onto the display by exclusive-or, its top
/// left corner at column `vx` of row `vy`, and tells whether a lit pixel was
/// turned off. Rows past the bottom edge and pixels past the right edge are
/// dropped, not wrapped.
pub fn draw_sprite(display: &mut Framebuffer, rows: &[u8], vx: usize, vy: usize) -> (collision:
    bool)
    requires
        vx < FBWIDTH,
        vy < FBHEIGHT,
    ensures
        final(display)@ == drawn(old(display)@, rows@, vx as int, vy as int),
        collision == collides(old(display)@, rows@, vx as int, vy as int),
{
    let mut collision = false;
    let mut r: usize = 0;
    proof {
        display.lemma_dimensions();
        assert(display@ =~~= drawn(old(display)@, rows@.take(0), vx as int, vy as int));
    }
    while r < rows.len() && vy + r < FBHEIGHT
        invariant
            vx < FBWIDTH,
            vy < FBHEIGHT,
            r <= rows@.len(),
            vy + r <= FBHEIGHT,
            grid_wf(old(display)@),
            display@ == drawn(old(display)@, rows@.take(r as int), vx as int, vy as int),
            collision == collides(old(display)@, rows@.take(r as int), vx as int, vy as int),
        decreases rows@.len() - r,
    {
        let ghost before = display@;
        let ghost shorter = rows@.take(r as int);
        let ghost longer = rows@.take(r + 1);
        let py: usize = vy + r;
        let hit = draw_row(display, rows[r], vx, py);
        proof {
            assert forall|x: int, y: int| #[trigger]
                sprite_covers(longer, vx as int, vy as int, x, y) <==> (sprite_covers(
                    shorter,
                    vx as int,
                    vy as int,
                    x,
                    y,
                ) || (y == py && row_covers(rows@[r as int], vx as int, x))) by {}
            assert(display@ =~~= drawn(old(display)@, longer, vx as int, vy as int));
            if collides(old(display)@, shorter, vx as int, vy as int) {
                let (x, y) = choose|x: int, y: int|
                    0 <= x < FBWIDTH && 0 <= y < FBHEIGHT && old(display)@[y][x]
                        && #[trigger] sprite_covers(shorter, vx as int, vy as int, x, y);
                assert(sprite_covers(longer, vx as int, vy as int, x, y));
            }
            if hit {
                let x = choose|x: int|
                    0 <= x < FBWIDTH && before[py as int][x] && #[trigger] row_covers(
                        rows@[r as int],
                        vx as int,
                        x,
                    );
                assert(sprite_covers(longer, vx as int, vy as int, x, py as int));
            }
            if collides(old(display)@, longer, vx as int, vy as int) {
                let (x, y) = choose|x: int, y: int|
                    0 <= x < FBWIDTH && 0 <= y < FBHEIGHT && old(display)@[y][x]
                        && #[trigger] sprite_covers(longer, vx as int, vy as int, x, y);
                if y == py {
                    assert(row_covers(rows@[r as int], vx as int, x));
                } else {
                    assert(sprite_covers(shorter, vx as int, vy as int, x, y));
                }
            }
        }
        collision = collision || hit;
        r += 1;
    }
    proof {
        assert forall|x: int, y: int| 0 <= x < FBWIDTH && 0 <= y < FBHEIGHT implies (#[trigger]
            sprite_covers(rows@, vx as int, vy as int, x, y) <==> sprite_covers(
                rows@.take(r as int),
                vx as int,
                vy as int,
                x,
                y,
            )) by {}
        assert(display@ =~~= drawn(old(display)@, rows@, vx as int, vy as int));
        if collides(old(display)@, rows@, vx as int, vy as int) {
            let (x, y) = choose|x: int, y: int|
                0 <= x < FBWIDTH && 0 <= y < FBHEIGHT && old(display)@[y][x]
                    && #[trigger] sprite_covers(rows@, vx as int, vy as int, x, y);
            assert(sprite_covers(rows@.take(r as int), vx as int, vy as int, x, y));
        }
        if collides(old(display)@, rows@.take(r as int), vx as int, vy as int) {
            let (x, y) = choose|x: int, y: int|
                0 <= x < FBWIDTH && 0 <= y < FBHEIGHT && old(display)@[y][x]
                    && #[trigger] sprite_covers(rows@.take(r as int), vx as int, vy as int, x, y);
            assert(sprite_covers(rows@, vx as int, vy as int, x, y));
        }
    }
    collision
}

/// The virtual machine. Its view is the `MachineState` that the execution
/// semantics are stated over.
pub struct Chip8Emulator {
    registers: [u8; 16],
    index_register: u16,
    stack: Vec<u16>,
    delay_timer: u8,
    sound_timer: u8,
    framebuffer: Framebuffer,
    program_counter: u16,
    memory: Memory,
}

impl View for Chip8Emulator {
    type V = MachineState;

    closed spec fn view(&self) -> MachineState {
        MachineState {
            registers: self.registers@,
            index: self.index_register,
            pc: self.program_counter,
            stack: self.stack@,
            delay_timer: self.delay_timer,
            sound_timer: self.sound_timer,
            display: self.framebuffer@,
            memory: self.memory@,
        }
    }
}

impl Chip8Emulator {
    /// A machine with every register, timer and memory byte zero, an empty
    /// call stack and a blank display.
    pub fn new() -> (emu: Self)
        ensures
            emu@ == MachineState::initial(),
    {
        let emu = Chip8Emulator {
            registers: [0; 16],
            index_register: 0,
            stack: Vec::new(),
            delay_timer: 0,
            sound_timer: 0,
            framebuffer: Framebuffer::new(),
            program_counter: 0,
            memory: Memory::new(),
        };
        assert(emu.registers@ =~= Seq::new(16, |i: int| 0u8));
        emu
    }

    /// The state of every machine has the lengths that `MachineState::wf`
    /// asks for.
    pub proof fn lemma_wf(&self)
        ensures
            self@.wf(),
    {
        self.memory.lemma_len();
        self.framebuffer.lemma_dimensions();
    }

    /// Copies `program` into memory from `base_address` on and points the
    /// program counter at it. A program that does not fit between
    /// `base_address` and the end of memory is refused, and nothing changes.
    pub fn load_program(&mut self, program: Vec<u8>, base_address: u16) -> (done: Result<
        (),
        OutOfBounds,
    >)
        ensures
            done is Ok <==> base_address + program@.len() <= MEMORY_SIZE,
            done is Ok ==> final(self)@ == (MachineState {
                memory: overwritten(old(self)@.memory, base_address as int, program@),
                pc: base_address,
                ..old(self)@
            }),
            done is Err ==> final(self)@ == old(self)@,
    {
        match self.memory.write(base_address, program.as_slice()) {
            Ok(()) => {
                self.program_counter = base_address;
                Ok(())
            },
            Err(e) => Err(e),
        }
    }
}

impl Chip8Emulator {
    /// Stores `value` in register `r`.
    fn set_register(&mut self, r: u8, value: u8)
        requires
            r < 16,
        ensures
            final(self)@ == old(self)@.with_register(r, value),
    {
        self.registers[r as usize] = value;
        assert(self@.registers =~= old(self)@.registers.update(r as int, value));
    }

    /// Moves the program counter past one more instruction if `skip` holds.
    fn skip_if(&mut self, skip: bool)
        requires
            old(self)@.pc <= 0xFFFD,
        ensures
            final(self)@ == old(self)@.skipping(skip),
    {
        if skip {
            self.program_counter += 2;
        }
    }

    /// Carries out `Dxyn`. The anchor wraps around the display once; from
    /// there the sprite is clipped. Only the rows that are on the display
    /// are read from memory, and if they do not all lie within it, nothing
    /// is drawn.
    fn draw(&mut self, x: u8, y: u8, n: u8) -> (done: Result<(), StepError>)
        requires
            x < 16,
            y < 16,
            n < 16,
        ensures
            match done {
                Ok(()) => execute_spec(old(self)@, Instruction::Draw { x, y, n }) == Ok::<
                    MachineState,
                    StepError,
                >(final(self)@),
                Err(e) => execute_spec(old(self)@, Instruction::Draw { x, y, n }) == Err::<
                    MachineState,
                    StepError,
                >(e) && final(self)@ == old(self)@,
            },
    {
        let vx: usize = (self.registers[x as usize] % 64) as usize;
        let vy: usize = (self.registers[y as usize] % 32) as usize;
        let count: usize = if (n as usize) <= FBHEIGHT - vy {
            n as usize
        } else {
            FBHEIGHT - vy
        };
        proof {
            self.lemma_wf();
        }
        if count > 0 {
            let rows = match self.memory.read_range(self.index_register, count) {
                Ok(rows) => rows,
                Err(_) => {
                    return Err(StepError::OutOfBounds);
                },
            };
            assert(rows@ =~= old(self)@.sprite_of(y, n));
            let collision = draw_sprite(&mut self.framebuffer, rows, vx, vy);
            self.set_register(0xF, if collision {
                1
            } else {
                0
            });
        } else {
            proof {
                let rows = old(self)@.sprite_of(y, n);
                assert(rows.len() == 0);
                assert(self@.display =~~= drawn(self@.display, rows, vx as int, vy as int));
                assert(!collides(self@.display, rows, vx as int, vy as int));
            }
            self.set_register(0xF, 0);
        }
        Ok(())
    }
}

impl Chip8Emulator {
    /// Carries out `inst`, the program counter already pointing behind it.
    /// An instruction that fails changes nothing.
    fn execute(&mut self, inst: Instruction) -> (done: Result<(), StepError>)
        requires
            inst.well_formed(),
            old(self)@.pc <= 0xFFFD,
        ensures
            match done {
                Ok(()) => execute_spec(old(self)@, inst) == Ok::<MachineState, StepError>(
                    final(self)@,
                ),
                Err(e) => execute_spec(old(self)@, inst) == Err::<MachineState, StepError>(e)
                    && final(self)@ == old(self)@,
            },
    {
        match inst {
            Instruction::ClearScreen => {
                self.framebuffer.clear();
            },
            Instruction::Return => {
                match self.stack.pop() {
                    Some(pc) => {
                        self.program_counter = pc;
                    },
                    None => {
                        return Err(StepError::StackUnderflow);
                    },
                }
            },
            Instruction::Jump { addr } => {
                self.program_counter = addr;
            },
            Instruction::Call { addr } => {
                self.stack.push(self.program_counter);
                self.program_counter = addr;
            },
            Instruction::SkipIfEqual { x, kk } => {
                let vx: u8 = self.registers[x as usize];
                self.skip_if(vx == kk);
            },
            Instruction::SkipIfNotEqual { x, kk } => {
                let vx: u8 = self.registers[x as usize];
                self.skip_if(vx != kk);
            },
            Instruction::SkipIfRegistersEqual { x, y } => {
                let vx: u8 = self.registers[x as usize];
                let vy: u8 = self.registers[y as usize];
                self.skip_if(vx == vy);
            },
            Instruction::Load { x, kk } => {
                self.set_register(x, kk);
            },
            Instruction::AddImmediate { x, kk } => {
                let vx: u8 = self.registers[x as usize];
                self.set_register(x, vx.wrapping_add(kk));
            },
            Instruction::Move { x, y } => {
                let vy: u8 = self.registers[y as usize];
                self.set_register(x, vy);
            },
            Instruction::Or { x, y } => {
                let vx: u8 = self.registers[x as usize];
                let vy: u8 = self.registers[y as usize];
                self.set_register(x, vx | vy);
            },
            Instruction::And { x, y } => {
                let vx: u8 = self.registers[x as usize];
                let vy: u8 = self.registers[y as usize];
                self.set_register(x, vx & vy);
            },
            Instruction::Xor { x, y } => {
                let vx: u8 = self.registers[x as usize];
                let vy: u8 = self.registers[y as usize];
                self.set_register(x, vx ^ vy);
            },
            Instruction::Add { x, y } => {
                let vx: u8 = self.registers[x as usize];
                let vy: u8 = self.registers[y as usize];
                let sum: u16 = vx as u16 + vy as u16;
                self.set_register(0xF, if sum > 255 {
                    1
                } else {
                    0
                });
                self.set_register(x, (sum % 256) as u8);
            },
            Instruction::Subtract { x, y } => {
                let vx: u8 = self.registers[x as usize];
                let vy: u8 = self.registers[y as usize];
                self.set_register(0xF, if vx > vy {
                    1
                } else {
                    0
                });
                self.set_register(x, vx.wrapping_sub(vy));
            },
            Instruction::ShiftRight { x } => {
                let vx: u8 = self.registers[x as usize];
                assert(vx >> 1 == vx / 2 && vx & 1 == vx % 2) by (bit_vector);
                self.set_register(x, vx >> 1);
                self.set_register(0xF, vx & 1);
            },
            Instruction::SubtractFrom { x, y } => {
                let vx: u8 = self.registers[x as usize];
                let vy: u8 = self.registers[y as usize];
                self.set_register(0xF, if vy > vx {
                    1
                } else {
                    0
                });
                self.set_register(x, vy.wrapping_sub(vx));
            },
            Instruction::ShiftLeft { x } => {
                let vx: u8 = self.registers[x as usize];
                assert(vx << 1 == (vx * 2) % 256 && vx >> 7 == vx / 128) by (bit_vector);
                self.set_register(x, vx << 1);
                self.set_register(0xF, vx >> 7);
            },
            Instruction::SkipIfRegistersDiffer { x, y } => {
                let vx: u8 = self.registers[x as usize];
                let vy: u8 = self.registers[y as usize];
                self.skip_if(vx != vy);
            },
            Instruction::LoadIndex { addr } => {
                self.index_register = addr;
            },
            Instruction::JumpOffset { addr } => {
                let v0: u8 = self.registers[0];
                self.program_counter = addr + v0 as u16;
            },
            Instruction::Draw { x, y, n } => {
                return self.draw(x, y, n);
            },
            Instruction::Unimplemented { opcode } => {},
        }
        Ok(())
    }
}

impl Chip8Emulator {
    /// Executes exactly one instruction: fetches the two bytes at the
    /// program counter, moves the counter behind them, decodes and executes.
    /// So a jump overwrites the advanced counter, and a skip adds 2 to it.
    ///
    /// Fails with `ProgramCounterOverrun` if the counter is at or past the
    /// end of memory, with `OutOfBounds` if the instruction's second byte or
    /// the sprite it draws lies past the end of memory, and with
    /// `StackUnderflow` on a return with an empty call stack. A step that
    /// fails leaves the machine exactly as it was. Opcodes that are not
    /// implemented only advance the counter.
    pub fn step(&mut self) -> (done: Result<(), StepError>)
        ensures
            match done {
                Ok(()) => step_spec(old(self)@) == Ok::<MachineState, StepError>(final(self)@),
                Err(e) => step_spec(old(self)@) == Err::<MachineState, StepError>(e)
                    && final(self)@ == old(self)@,
            },
            final(self)@.memory == old(self)@.memory,
    {
        let pc: u16 = self.program_counter;
        let b0: u8 = match self.memory.read(pc) {
            Ok(b) => b,
            Err(_) => {
                return Err(StepError::ProgramCounterOverrun);
            },
        };
        let b1: u8 = match self.memory.read(pc + 1) {
            Ok(b) => b,
            Err(_) => {
                return Err(StepError::OutOfBounds);
            },
        };
        let inst: Instruction = decode(b0, b1);
        self.program_counter = pc + 2;
        proof {
            lemma_execute_keeps_memory(self@, inst);
        }
        match self.execute(inst) {
            Ok(()) => Ok(()),
            Err(e) => {
                self.program_counter = pc;
                Err(e)
            },
        }
    }

    /// Steps up to `count` times and stops at the first step that fails,
    /// handing its error back; the machine is then as that step found it.
    pub fn run_for(&mut self, count: usize) -> (done: Result<(), StepError>)
        ensures
            final(self)@ == run_spec(old(self)@, count as nat).0,
            done == run_spec(old(self)@, count as nat).1,
            final(self)@.memory == old(self)@.memory,
    {
        let mut i: usize = 0;
        while i < count
            invariant
                i <= count,
                run_spec(old(self)@, count as nat) == run_spec(self@, (count - i) as nat),
                self@.memory == old(self)@.memory,
            decreases count - i,
        {
            match self.step() {
                Ok(()) => {},
                Err(e) => {
                    return Err(e);
                },
            }
            i += 1;
        }
        Ok(())
    }
}

impl Chip8Emulator {
    /// The sixteen general registers, `V0` first.
    pub fn registers(&self) -> (regs: &[u8; 16])
        ensures
            regs@ == self@.registers,
    {
        &self.registers
    }

    /// The index register.
    pub fn index_register(&self) -> (index: u16)
        ensures
            index == self@.index,
    {
        self.index_register
    }

    /// The address of the next instruction.
    pub fn program_counter(&self) -> (pc: u16)
        ensures
            pc == self@.pc,
    {
        self.program_counter
    }

    /// How many return addresses are on the call stack.
    pub fn stack_depth(&self) -> (depth: usize)
        ensures
            depth == self@.stack.len(),
    {
        self.stack.len()
    }

    /// The delay timer.
    pub fn delay_timer(&self) -> (value: u8)
        ensures
            value == self@.delay_timer,
    {
        self.delay_timer
    }

    /// Sets the delay timer. Nothing counts it down.
    pub fn set_delay_timer(&mut self, value: u8)
        ensures
            final(self)@ == (MachineState { delay_timer: value, ..old(self)@ }),
    {
        self.delay_timer = value;
    }

    /// The sound timer.
    pub fn sound_timer(&self) -> (value: u8)
        ensures
            value == self@.sound_timer,
    {
        self.sound_timer
    }

    /// Sets the sound timer. Nothing counts it down.
    pub fn set_sound_timer(&mut self, value: u8)
        ensures
            final(self)@ == (MachineState { sound_timer: value, ..old(self)@ }),
    {
        self.sound_timer = value;
    }

    /// The display.
    pub fn framebuffer(&self) -> (display: &Framebuffer)
        ensures
            display@ == self@.display,
    {
        &self.framebuffer
    }

    /// The address space.
    pub fn memory(&self) -> (memory: &Memory)
        ensures
            memory@ == self@.memory,
    {
        &self.memory
    }
}

} // verus!
