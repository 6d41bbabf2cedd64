use vstd::prelude::*;

use crate::cpu::Cpu;
use crate::model::{initial_model, op_family, step_of, CpuModel, Step};
use crate::random::random_byte;

verus! {

/// Width of the display in pixels.
pub const COL: usize = 64;

/// Height of the display in pixels.
pub const ROW: usize = 32;

/// Number of pixels of the display (`COL * ROW`).
pub const SCREEN_SIZE: usize = 2048;

/// Size of the addressable memory in bytes.
pub const MEMORY_SIZE: usize = 4096;

/// Address at which programs are loaded and execution starts.
pub const PROGRAM_START: usize = 512;

/// The built-in font: sixteen glyphs of five rows each, most significant bit first.
pub const FONTSET: [u8; 80] = [
    0xF0, 0x90, 0x90, 0x90, 0xF0, // 0
    0x20, 0x60, 0x20, 0x20, 0x70, // 1
    0xF0, 0x10, 0xF0, 0x80, 0xF0, // 2
    0xF0, 0x10, 0xF0, 0x10, 0xF0, // 3
    0x90, 0x90, 0xF0, 0x10, 0x10, // 4
    0xF0, 0x80, 0xF0, 0x10, 0xF0, // 5
    0xF0, 0x80, 0xF0, 0x90, 0xF0, // 6
    0xF0, 0x10, 0x20, 0x40, 0x40, // 7
    0xF0, 0x90, 0xF0, 0x90, 0xF0, // 8
    0xF0, 0x90, 0xF0, 0x10, 0xF0, // 9
    0xF0, 0x90, 0xF0, 0x90, 0x90, // A
    0xE0, 0x90, 0xE0, 0x90, 0xE0, // B
    0xF0, 0x80, 0x80, 0x80, 0xF0, // C
    0xE0, 0x90, 0x90, 0x90, 0xE0, // D
    0xF0, 0x80, 0xF0, 0x80, 0xF0, // E
    0xF0, 0x80, 0xF0, 0x80, 0x80, // F
];

/// Why a program image was not loaded.
#[derive(Clone, Copy, Debug, PartialEq, Eq, Structural)]
pub enum LoadError {
    /// The image is longer than the memory above the program start.
    TooLarge,
}

/// Why the machine cannot go on.
#[derive(Clone, Copy, Debug, PartialEq, Eq, Structural)]
pub enum Fault {
    /// `pc` leaves no room for a whole instruction word in memory.
    PcOutOfRange,
    /// A return (0x00EE) met an empty call stack.
    StackUnderflow,
}

/// What one frame did: the word fetched, its outcome, and whether sound is on.
#[derive(Clone, Copy, Debug, PartialEq, Eq, Structural)]
pub struct Tick {
    pub opcode: u16,
    pub step: Step,
    pub sounding: bool,
}

/// The emulator: the machine plus program loading and the frame step.
pub struct Chip8 {
    pub cpu: Cpu,
}

impl Chip8 {
    /// A fresh machine: zero everywhere, `pc` at the program start, no font yet.
    pub fn new() -> (r: Chip8)
        ensures
            r.cpu.wf(),
            r.cpu@ == initial_model(),
    {
        Chip8 { cpu: Cpu::new() }
    }

    /// Copies the font into memory 0..80.
    pub fn load_font(&mut self)
        ensures
            final(self).cpu@ == old(self).cpu@.with_font(),
    {
        self.cpu.load_font();
    }

    /// Copies a program image to the program start and returns its length. An image
    /// longer than the room above the program start is refused and nothing changes.
    pub fn load_game(&mut self, program: &[u8]) -> (r: Result<usize, LoadError>)
        requires
            old(self).cpu.wf(),
        ensures
            program@.len() <= MEMORY_SIZE - PROGRAM_START ==> r == Ok::<usize, LoadError>(
                program@.len() as usize,
            ) && final(self).cpu@ == old(self).cpu@.with_program(program@),
            program@.len() > MEMORY_SIZE - PROGRAM_START ==> r == Err::<usize, LoadError>(
                LoadError::TooLarge,
            ) && final(self).cpu@ == old(self).cpu@,
    {
        let n = program.len();
        if n > MEMORY_SIZE - PROGRAM_START {
            return Err(LoadError::TooLarge);
        }
        let ghost m = self.cpu@;
        let mut k: usize = 0;
        while k < n
            invariant
                n == program@.len(),
                n <= MEMORY_SIZE - PROGRAM_START,
                k <= n,
                m == old(self).cpu@,
                m.wf(),
                self.cpu@ == (CpuModel { memory: self.cpu.memory@, ..m }),
                forall|j: int| 0 <= j < k ==> self.cpu.memory@[PROGRAM_START + j] == program@[j],
                forall|j: int|
                    0 <= j < MEMORY_SIZE && !(PROGRAM_START <= j < PROGRAM_START + k)
                        ==> self.cpu.memory@[j] == m.memory[j],
            decreases n - k,
        {
            self.cpu.memory[PROGRAM_START + k] = program[k];
            k = k + 1;
        }
        assert(self.cpu.memory@ =~= m.with_program(program@).memory);
        Ok(n)
    }

    /// Loads a program image as `load_game` does, then installs the font.
    pub fn load_program(&mut self, program: &[u8]) -> (r: Result<usize, LoadError>)
        requires
            old(self).cpu.wf(),
        ensures
            program@.len() <= MEMORY_SIZE - PROGRAM_START ==> r == Ok::<usize, LoadError>(
                program@.len() as usize,
            ) && final(self).cpu@ == old(self).cpu@.with_program(program@).with_font(),
            program@.len() > MEMORY_SIZE - PROGRAM_START ==> r == Err::<usize, LoadError>(
                LoadError::TooLarge,
            ) && final(self).cpu@ == old(self).cpu@,
    {
        let r = self.load_game(program);
        if r.is_ok() {
            self.cpu.load_font();
        }
        r
    }

    /// Carries out one instruction word, as `Cpu::decode_and_execute`.
    pub fn handle_opcode(&mut self, opcode: u16) -> (r: Step)
        requires
            old(self).cpu.wf(),
            !old(self).cpu@.underflows(opcode),
        ensures
            r == step_of(opcode),
            final(self).cpu.wf(),
            exists|b: u8| 1 <= b && final(self).cpu@ == #[trigger] old(self).cpu@.execute(opcode, b),
            op_family(opcode) != 0xC000 ==> final(self).cpu@ == old(self).cpu@.execute(opcode, 0),
    {
        self.cpu.decode_and_execute(opcode)
    }

    /// One frame with `random` as the byte that 0xCXNN draws: fetch, execute, and
    /// tick the timers once (not on a key wait). A `pc` without room for a word, or
    /// a return with an empty call stack, stops the machine with a fault.
    pub fn cycle_with(&mut self, random: u8) -> (r: Result<Tick, Fault>)
        requires
            old(self).cpu.wf(),
        ensures
            final(self).cpu.wf(),
            old(self).cpu.pc + 1 >= MEMORY_SIZE ==> r == Err::<Tick, Fault>(Fault::PcOutOfRange)
                && final(self).cpu@ == old(self).cpu@,
            old(self).cpu.pc + 1 < MEMORY_SIZE && old(self).cpu@.fetched().underflows(
                old(self).cpu@.word_at_pc(),
            ) ==> r == Err::<Tick, Fault>(Fault::StackUnderflow) && final(self).cpu@ == old(
                self,
            ).cpu@.fetched(),
            old(self).cpu.pc + 1 < MEMORY_SIZE && !old(self).cpu@.fetched().underflows(
                old(self).cpu@.word_at_pc(),
            ) ==> r == Ok::<Tick, Fault>(
                Tick {
                    opcode: old(self).cpu@.word_at_pc(),
                    step: step_of(old(self).cpu@.word_at_pc()),
                    sounding: final(self).cpu.sound_timer > 0,
                },
            ) && final(self).cpu@ == old(self).cpu@.cycle(random),
    {
        if self.cpu.pc as usize + 1 >= MEMORY_SIZE {
            return Err(Fault::PcOutOfRange);
        }
        let opcode = self.cpu.fetch_opcode();
        if self.cpu.is_stack_underflow(opcode) {
            return Err(Fault::StackUnderflow);
        }
        let step = self.cpu.execute(opcode, random);
        let sounding = if step == Step::AwaitKey {
            self.cpu.sound_timer > 0
        } else {
            self.cpu.update_timers()
        };
        Ok(Tick { opcode, step, sounding })
    }

    /// Ends a frame whose word was the key wait `opcode` (0xFX0A), once the input
    /// source reports logical key `key` down: the key is recorded, then the timers
    /// tick once. Returns whether the sound timer is still running.
    pub fn complete_key_wait(&mut self, opcode: u16, key: u8) -> (sounding: bool)
        requires
            old(self).cpu.wf(),
            key < 16,
        ensures
            final(self).cpu.wf(),
            final(self).cpu@ == old(self).cpu@.key_wait_completed(opcode, key),
            sounding == (final(self).cpu.sound_timer > 0),
    {
        self.cpu.f_0xFX0A(opcode, key);
        self.cpu.update_timers()
    }

    /// One frame of the game loop; a 0xCXNN word draws its byte from the random source.
    pub fn gameloop(&mut self) -> (r: Result<Tick, Fault>)
        requires
            old(self).cpu.wf(),
        ensures
            final(self).cpu.wf(),
            old(self).cpu.pc + 1 >= MEMORY_SIZE ==> r == Err::<Tick, Fault>(Fault::PcOutOfRange)
                && final(self).cpu@ == old(self).cpu@,
            old(self).cpu.pc + 1 < MEMORY_SIZE && old(self).cpu@.fetched().underflows(
                old(self).cpu@.word_at_pc(),
            ) ==> r == Err::<Tick, Fault>(Fault::StackUnderflow) && final(self).cpu@ == old(
                self,
            ).cpu@.fetched(),
            old(self).cpu.pc + 1 < MEMORY_SIZE && !old(self).cpu@.fetched().underflows(
                old(self).cpu@.word_at_pc(),
            ) ==> exists|b: u8|
                1 <= b && r == Ok::<Tick, Fault>(
                    Tick {
                        opcode: old(self).cpu@.word_at_pc(),
                        step: step_of(old(self).cpu@.word_at_pc()),
                        sounding: final(self).cpu.sound_timer > 0,
                    },
                ) && final(self).cpu@ == #[trigger] old(self).cpu@.cycle(b),
    {
        let pc = self.cpu.pc as usize;
        let b: u8 = if pc + 1 < MEMORY_SIZE && self.cpu.memory[pc] >> 4u8 == 0xC {
            random_byte()
        } else {
            1
        };
        self.cycle_with(b)
    }
}

} // verus!
