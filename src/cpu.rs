use vstd::prelude::*;

use vstd::arithmetic::div_mod::{lemma_fundamental_div_mod, lemma_fundamental_div_mod_converse};

use crate::chip8::{COL, FONTSET, MEMORY_SIZE, SCREEN_SIZE};
use crate::random::random_byte;
use crate::model::{initial_model, lemma_op_fields, op_family, op_nn, op_nnn, op_x, op_y, CpuModel, Step};

verus! {

/// The state of the virtual machine: memory, registers, call stack, timers,
/// keypad and framebuffer.
pub struct Cpu {
    pub graphics: [u8; SCREEN_SIZE],
    pub memory: [u8; MEMORY_SIZE],
    pub should_redraw: bool,
    pub stack: [u16; 16],
    pub sp: u16,
    pub v: [u8; 16],
    pub i: u16,
    pub pc: u16,
    pub keypad: [u8; 16],
    pub delay_timer: u8,
    pub sound_timer: u8,
}

impl View for Cpu {
    type V = CpuModel;

    open spec fn view(&self) -> CpuModel {
        CpuModel {
            graphics: self.graphics@,
            memory: self.memory@,
            should_redraw: self.should_redraw,
            stack: self.stack@,
            sp: self.sp,
            v: self.v@,
            i: self.i,
            pc: self.pc,
            keypad: self.keypad@,
            delay_timer: self.delay_timer,
            sound_timer: self.sound_timer,
        }
    }
}

/// The register index X of an instruction word.
fn reg_x(opcode: u16) -> (r: usize)
    ensures
        r == op_x(opcode),
        r < 16,
{
    proof {
        lemma_op_fields(opcode);
    }
    ((opcode & 0x0F00) >> 8) as usize
}

/// The register index Y of an instruction word.
fn reg_y(opcode: u16) -> (r: usize)
    ensures
        r == op_y(opcode),
        r < 16,
{
    proof {
        lemma_op_fields(opcode);
    }
    ((opcode & 0x00F0) >> 4) as usize
}

/// A pixel offset from the sprite origin splits into a row and a column below 64.
proof fn lemma_pixel_offset(d: int, row: int, col: int)
    requires
        0 <= col < 64,
        0 <= row,
    ensures
        (d == row * 64 + col) <==> (0 <= d && d / 64 == row && d % 64 == col),
{
    if d == row * 64 + col {
        lemma_fundamental_div_mod_converse(d, 64, row, col);
    }
    if 0 <= d && d / 64 == row && d % 64 == col {
        lemma_fundamental_div_mod(d, 64);
    }
}

/// Drawing bit `col` of row `row` adds exactly the pixel it lands on.
proof fn lemma_draw_step(m: CpuModel, x: int, y: int, h: int, row: int, col: int)
    requires
        0 <= row < h,
        0 <= col < 8,
    ensures
        forall|p: int|
            m.flips_before(x, y, h, p, row, col + 1) <==> (m.flips_before(x, y, h, p, row, col) || (
            p == x + col + (y + row) * 64 && m.sprite_bit(row, col))),
{
    assert forall|p: int|
        m.flips_before(x, y, h, p, row, col + 1) <==> (m.flips_before(x, y, h, p, row, col) || (p
            == x + col + (y + row) * 64 && m.sprite_bit(row, col))) by {
        lemma_pixel_offset(p - (x + y * 64), row, col);
    }
}

/// Two stages of a draw that flip the same pixels see the same collisions.
proof fn lemma_same_collisions(m: CpuModel, x: int, y: int, h: int, r1: int, c1: int, r2: int, c2: int)
    requires
        forall|p: int| m.flips_before(x, y, h, p, r1, c1) == m.flips_before(x, y, h, p, r2, c2),
    ensures
        m.collides_before(x, y, h, r1, c1) == m.collides_before(x, y, h, r2, c2),
{
    if m.collides_before(x, y, h, r1, c1) {
        let p = choose|p: int|
            0 <= p < SCREEN_SIZE && #[trigger] m.flips_before(x, y, h, p, r1, c1) && m.graphics[p] == 1;
        assert(m.flips_before(x, y, h, p, r2, c2));
    }
    if m.collides_before(x, y, h, r2, c2) {
        let p = choose|p: int|
            0 <= p < SCREEN_SIZE && #[trigger] m.flips_before(x, y, h, p, r2, c2) && m.graphics[p] == 1;
        assert(m.flips_before(x, y, h, p, r1, c1));
    }
}

impl Cpu {
    /// Whether the sizes and the stack pointer are in range.
    pub open spec fn wf(&self) -> bool {
        self@.wf()
    }

    /// A machine with every byte zero and `pc` at the program start.
    pub fn new() -> (r: Cpu)
        ensures
            r.wf(),
            r@ == initial_model(),
    {
        let r = Cpu {
            graphics: [0u8; SCREEN_SIZE],
            memory: [0u8; MEMORY_SIZE],
            should_redraw: false,
            stack: [0u16; 16],
            sp: 0,
            v: [0u8; 16],
            i: 0,
            pc: 0x200,
            keypad: [0u8; 16],
            delay_timer: 0,
            sound_timer: 0,
        };
        assert(r@.graphics =~= initial_model().graphics);
        assert(r@.memory =~= initial_model().memory);
        assert(r@.stack =~= initial_model().stack);
        assert(r@.v =~= initial_model().v);
        assert(r@.keypad =~= initial_model().keypad);
        r
    }

    /// Copies the font into memory 0..80; nothing else changes.
    pub fn load_font(&mut self)
        ensures
            final(self)@ == old(self)@.with_font(),
    {
        let mut k: usize = 0;
        while k < 80
            invariant
                k <= 80,
                self@ == (CpuModel { memory: self.memory@, ..old(self)@ }),
                forall|j: int| 0 <= j < k ==> self.memory@[j] == FONTSET@[j],
                forall|j: int| k <= j < MEMORY_SIZE ==> self.memory@[j] == old(self).memory@[j],
            decreases 80 - k,
        {
            self.memory[k] = FONTSET[k];
            k = k + 1;
        }
        assert(self.memory@ =~= FONTSET@ + old(self)@.memory.subrange(80, MEMORY_SIZE as int));
    }

    /// Reads the big-endian word at `pc` and advances `pc` past it.
    pub fn fetch_opcode(&mut self) -> (r: u16)
        requires
            old(self).pc + 1 < MEMORY_SIZE,
        ensures
            r == old(self)@.word_at_pc(),
            final(self)@ == old(self)@.fetched(),
    {
        let left: u16 = self.memory[self.pc as usize] as u16;
        let right: u16 = self.memory[self.pc as usize + 1] as u16;
        let opcode: u16 = (left << 8) | right;
        self.pc = self.pc + 2;
        opcode
    }

    /// Counts each timer that is not zero down by one. Returns whether the sound
    /// timer is still running afterwards.
    pub fn update_timers(&mut self) -> (sounding: bool)
        ensures
            final(self)@ == old(self)@.tick_timers(),
            sounding == (final(self).sound_timer > 0),
    {
        if self.delay_timer > 0 {
            self.delay_timer = self.delay_timer - 1;
        }
        if self.sound_timer > 0 {
            self.sound_timer = self.sound_timer - 1;
        }
        self.sound_timer > 0
    }

    /// Whether executing `opcode` now would return with an empty call stack.
    pub fn is_stack_underflow(&self, opcode: u16) -> (r: bool)
        ensures
            r == self@.underflows(opcode),
    {
        opcode == 0x00EE && self.sp == 0 && self.stack[0] == 0
    }

    /// 0x00E0: turns every pixel off.
    pub fn clear_screen(&mut self)
        ensures
            final(self)@ == old(self)@.clear_screen(),
    {
        let mut k: usize = 0;
        while k < SCREEN_SIZE
            invariant
                k <= SCREEN_SIZE,
                self@ == (CpuModel { graphics: self.graphics@, ..old(self)@ }),
                forall|j: int| 0 <= j < k ==> self.graphics@[j] == 0,
            decreases SCREEN_SIZE - k,
        {
            self.graphics[k] = 0;
            k = k + 1;
        }
        assert(self.graphics@ =~= old(self)@.clear_screen().graphics);
    }

    /// 0x00EE: pops the return address into `pc` and clears its slot.
    pub fn return_from_subroutine(&mut self)
        requires
            old(self).wf(),
            !old(self)@.stack_empty(),
        ensures
            final(self)@ == old(self)@.return_from_subroutine(),
    {
        if self.sp > 0 {
            self.sp = self.sp - 1;
        }
        self.pc = self.stack[self.sp as usize];
        self.stack[self.sp as usize] = 0;
    }

    /// The 0x0___ family: 0x00E0 clears the screen and 0x00EE returns; any other
    /// word of the family is unsupported.
    pub fn f_0x0000(&mut self, opcode: u16) -> (r: Step)
        requires
            old(self).wf(),
            !old(self)@.underflows(opcode),
            op_family(opcode) == 0,
        ensures
            final(self)@ == old(self)@.execute(opcode, 0),
            r == crate::model::step_of(opcode),
    {
        if opcode == 0x00E0 {
            self.clear_screen();
            Step::Executed
        } else if opcode == 0x00EE {
            self.return_from_subroutine();
            Step::Executed
        } else {
            Step::Unsupported
        }
    }

    /// 0x1NNN: jumps to NNN.
    pub fn f_0x1000(&mut self, opcode: u16)
        ensures
            final(self)@ == old(self)@.jump(opcode),
    {
        self.pc = opcode & 0x0FFF;
    }

    /// 0x2NNN: pushes `pc` and jumps to NNN.
    pub fn f_0x2000(&mut self, opcode: u16)
        requires
            old(self).wf(),
        ensures
            final(self)@ == old(self)@.call(opcode),
    {
        let address: u16 = opcode & 0x0FFF;
        if self.sp < 16 {
            self.stack[self.sp as usize] = self.pc;
            self.sp = self.sp + 1;
        } else {
            self.stack[15] = self.pc;
        }
        self.pc = address;
    }

    /// 0x3XNN: skips the next instruction if V[X] == NN.
    pub fn f_0x3000(&mut self, opcode: u16)
        ensures
            final(self)@ == old(self)@.skip_if(old(self).v@[op_x(opcode)] == op_nn(opcode)),
    {
        let x = reg_x(opcode);
        if self.v[x] == (opcode & 0x00FF) as u8 {
            self.pc = self.pc.wrapping_add(2);
        }
    }

    /// 0x4XNN: skips the next instruction if V[X] != NN.
    pub fn f_0x4000(&mut self, opcode: u16)
        ensures
            final(self)@ == old(self)@.skip_if(old(self).v@[op_x(opcode)] != op_nn(opcode)),
    {
        let x = reg_x(opcode);
        if self.v[x] != (opcode & 0x00FF) as u8 {
            self.pc = self.pc.wrapping_add(2);
        }
    }

    /// 0x5XY0: skips the next instruction if V[X] == V[Y]. A low nibble other than
    /// 0 is unsupported.
    pub fn f_0x5000(&mut self, opcode: u16) -> (r: Step)
        requires
            op_family(opcode) == 0x5000,
        ensures
            final(self)@ == old(self)@.execute(opcode, 0),
            r == crate::model::step_of(opcode),
    {
        if opcode & 0x000F != 0 {
            return Step::Unsupported;
        }
        let x = reg_x(opcode);
        let y = reg_y(opcode);
        if self.v[x] == self.v[y] {
            self.pc = self.pc.wrapping_add(2);
        }
        Step::Executed
    }

    /// 0x6XNN: V[X] = NN.
    pub fn f_0x6000(&mut self, opcode: u16)
        ensures
            final(self)@ == old(self)@.set_v(op_x(opcode), op_nn(opcode)),
    {
        let x = reg_x(opcode);
        self.v[x] = (opcode & 0x00FF) as u8;
    }

    /// 0x7XNN: V[X] = V[X] + NN, wrapping.
    pub fn f_0x7000(&mut self, opcode: u16)
        ensures
            final(self)@ == old(self)@.set_v(
                op_x(opcode),
                old(self).v@[op_x(opcode)].wrapping_add(op_nn(opcode)),
            ),
    {
        let x = reg_x(opcode);
        self.v[x] = self.v[x].wrapping_add((opcode & 0x00FF) as u8);
    }

    /// The register-register family 0x8XY_; the low nibble selects.
    pub fn f_0x8000(&mut self, opcode: u16) -> (r: Step)
        requires
            op_family(opcode) == 0x8000,
        ensures
            final(self)@ == old(self)@.alu(opcode),
            r == crate::model::step_of(opcode),
    {
        match opcode & 0x000F {
            0 => self.f_0x8XY0(opcode),
            1 => self.f_0x8XY1(opcode),
            2 => self.f_0x8XY2(opcode),
            3 => self.f_0x8XY3(opcode),
            4 => self.f_0x8XY4(opcode),
            5 => self.f_0x8XY5(opcode),
            6 => self.f_0x8XY6(opcode),
            7 => self.f_0x8XY7(opcode),
            0xE => self.f_0x8XYE(opcode),
            _ => {
                return Step::Unsupported;
            },
        }
        Step::Executed
    }

    /// 0x8XY0: V[X] = V[Y].
    pub fn f_0x8XY0(&mut self, opcode: u16)
        ensures
            final(self)@ == old(self)@.set_v(op_x(opcode), old(self).v@[op_y(opcode)]),
    {
        let x = reg_x(opcode);
        let y = reg_y(opcode);
        self.v[x] = self.v[y];
    }

    /// 0x8XY1: V[X] = V[X] | V[Y].
    pub fn f_0x8XY1(&mut self, opcode: u16)
        ensures
            final(self)@ == old(self)@.set_v(
                op_x(opcode),
                old(self).v@[op_x(opcode)] | old(self).v@[op_y(opcode)],
            ),
    {
        let x = reg_x(opcode);
        let y = reg_y(opcode);
        self.v[x] = self.v[x] | self.v[y];
    }

    /// 0x8XY2: V[X] = V[X] & V[Y].
    pub fn f_0x8XY2(&mut self, opcode: u16)
        ensures
            final(self)@ == old(self)@.set_v(
                op_x(opcode),
                old(self).v@[op_x(opcode)] & old(self).v@[op_y(opcode)],
            ),
    {
        let x = reg_x(opcode);
        let y = reg_y(opcode);
        self.v[x] = self.v[x] & self.v[y];
    }

    /// 0x8XY3: V[X] = V[X] ^ V[Y].
    pub fn f_0x8XY3(&mut self, opcode: u16)
        ensures
            final(self)@ == old(self)@.set_v(
                op_x(opcode),
                old(self).v@[op_x(opcode)] ^ old(self).v@[op_y(opcode)],
            ),
    {
        let x = reg_x(opcode);
        let y = reg_y(opcode);
        self.v[x] = self.v[x] ^ self.v[y];
    }

    /// 0x8XY4: adds V[Y] to V[X]. On a carry V[X] takes the high byte of the sum
    /// and VF = 1; otherwise VF = 0 and V[X] takes the sum.
    pub fn f_0x8XY4(&mut self, opcode: u16)
        ensures
            final(self)@ == old(self)@.add_registers(opcode),
    {
        let x = reg_x(opcode);
        let y = reg_y(opcode);
        let sum: u16 = self.v[x] as u16 + self.v[y] as u16;
        if sum > 255 {
            assert(sum >> 8 == sum / 256) by (bit_vector);
            self.v[x] = (sum >> 8) as u8;
            self.v[15] = 1;
        } else {
            self.v[15] = 0;
            self.v[x] = sum as u8;
        }
    }

    /// 0x8XY5: VF = 1 unless V[X] < V[Y]; then V[X] = V[X] - V[Y], wrapping.
    pub fn f_0x8XY5(&mut self, opcode: u16)
        ensures
            final(self)@ == old(self)@.sub_registers(opcode),
    {
        let x = reg_x(opcode);
        let y = reg_y(opcode);
        if self.v[x] >= self.v[y] {
            self.v[15] = 1;
        } else {
            self.v[15] = 0;
        }
        self.v[x] = self.v[x].wrapping_sub(self.v[y]);
    }

    /// 0x8XY6: VF = V[X] & 1; then V[X] = V[Y] >> 1 (the operand is Y).
    pub fn f_0x8XY6(&mut self, opcode: u16)
        ensures
            final(self)@ == old(self)@.shift_right(opcode),
    {
        let x = reg_x(opcode);
        let y = reg_y(opcode);
        self.v[15] = self.v[x] & 1;
        self.v[x] = self.v[y] >> 1;
    }

    /// 0x8XY7: VF = 0 if V[X] > V[Y], else 1; then V[X] = V[Y] - V[X], wrapping.
    pub fn f_0x8XY7(&mut self, opcode: u16)
        ensures
            final(self)@ == old(self)@.sub_reversed(opcode),
    {
        let x = reg_x(opcode);
        let y = reg_y(opcode);
        if self.v[x] > self.v[y] {
            self.v[15] = 0;
        } else {
            self.v[15] = 1;
        }
        self.v[x] = self.v[y].wrapping_sub(self.v[x]);
    }

    /// 0x8XYE: VF = high bit of V[Y]; then V[X] = V[Y] << 1, wrapping.
    pub fn f_0x8XYE(&mut self, opcode: u16)
        ensures
            final(self)@ == old(self)@.shift_left(opcode),
    {
        let x = reg_x(opcode);
        let y = reg_y(opcode);
        self.v[15] = (self.v[y] & 0x80) >> 7;
        self.v[x] = self.v[y].wrapping_shl(1);
    }

    /// 0x9XY0: skips the next instruction if V[X] != V[Y]. A low nibble other than
    /// 0 is unsupported.
    pub fn f_0x9000(&mut self, opcode: u16) -> (r: Step)
        requires
            op_family(opcode) == 0x9000,
        ensures
            final(self)@ == old(self)@.execute(opcode, 0),
            r == crate::model::step_of(opcode),
    {
        if opcode & 0x000F != 0 {
            return Step::Unsupported;
        }
        let x = reg_x(opcode);
        let y = reg_y(opcode);
        if self.v[x] != self.v[y] {
            self.pc = self.pc.wrapping_add(2);
        }
        Step::Executed
    }

    /// 0xANNN: I = NNN.
    pub fn f_0xA000(&mut self, opcode: u16)
        ensures
            final(self)@ == (CpuModel { i: op_nnn(opcode), ..old(self)@ }),
    {
        self.i = opcode & 0x0FFF;
    }

    /// 0xBNNN: jumps to NNN + V[0].
    pub fn f_0xB000(&mut self, opcode: u16)
        ensures
            final(self)@ == (CpuModel {
                pc: (op_nnn(opcode) + old(self).v@[0]) as u16,
                ..old(self)@
            }),
    {
        proof {
            lemma_op_fields(opcode);
        }
        self.pc = (opcode & 0x0FFF) + self.v[0] as u16;
    }

    /// 0xCXNN: V[X] = `random` & NN.
    pub fn f_0xC000(&mut self, opcode: u16, random: u8)
        ensures
            final(self)@ == old(self)@.set_v(op_x(opcode), random & op_nn(opcode)),
    {
        let x = reg_x(opcode);
        self.v[x] = random & (opcode & 0x00FF) as u8;
    }

    /// 0xEX9E / 0xEXA1: skips the next instruction if key V[X] is / is not down.
    /// A V[X] of 16 or more names no key: no skip.
    pub fn f_0xE000(&mut self, opcode: u16) -> (r: Step)
        requires
            old(self).wf(),
            op_family(opcode) == 0xE000,
        ensures
            final(self)@ == old(self)@.skip_on_key(opcode),
            r == crate::model::step_of(opcode),
    {
        let k = self.v[reg_x(opcode)] as usize;
        let sub: u8 = (opcode & 0x00FF) as u8;
        if sub == 0x9E {
            if k < 16 && self.keypad[k] != 0 {
                self.pc = self.pc.wrapping_add(2);
            }
            Step::Executed
        } else if sub == 0xA1 {
            if k < 16 && self.keypad[k] == 0 {
                self.pc = self.pc.wrapping_add(2);
            }
            Step::Executed
        } else {
            Step::Unsupported
        }
    }

    /// The 0xF___ family: 0xFX07 reads the delay timer; 0xFX0A asks for a key.
    pub fn f_0xF000(&mut self, opcode: u16) -> (r: Step)
        requires
            op_family(opcode) == 0xF000,
        ensures
            final(self)@ == old(self)@.execute(opcode, 0),
            r == crate::model::step_of(opcode),
    {
        let sub: u8 = (opcode & 0x00FF) as u8;
        if sub == 0x07 {
            self.f_0xFX07(opcode);
            Step::Executed
        } else if sub == 0x0A {
            Step::AwaitKey
        } else {
            Step::Unsupported
        }
    }

    /// 0xFX07: V[X] = delay timer.
    pub fn f_0xFX07(&mut self, opcode: u16)
        ensures
            final(self)@ == old(self)@.set_v(op_x(opcode), old(self).delay_timer),
    {
        let x = reg_x(opcode);
        self.v[x] = self.delay_timer;
    }

    /// Completes 0xFX0A once the input source reports logical key `key` down:
    /// key slot V[X] records the key's index (no slot when V[X] is 16 or more).
    pub fn f_0xFX0A(&mut self, opcode: u16, key: u8)
        requires
            old(self).wf(),
            key < 16,
        ensures
            final(self)@ == old(self)@.key_reported(opcode, key),
    {
        let k = self.v[reg_x(opcode)] as usize;
        if k < 16 {
            self.keypad[k] = key;
        }
    }

    /// Carries out one instruction word, with `random` as the byte that 0xCXNN draws.
    pub fn execute(&mut self, opcode: u16, random: u8) -> (r: Step)
        requires
            old(self).wf(),
            !old(self)@.underflows(opcode),
        ensures
            final(self)@ == old(self)@.execute(opcode, random),
            final(self).wf(),
            r == crate::model::step_of(opcode),
    {
        proof {
            lemma_op_fields(opcode);
        }
        let step = match opcode & 0xF000 {
            0x0000 => self.f_0x0000(opcode),
            0x1000 => {
                self.f_0x1000(opcode);
                Step::Executed
            },
            0x2000 => {
                self.f_0x2000(opcode);
                Step::Executed
            },
            0x3000 => {
                self.f_0x3000(opcode);
                Step::Executed
            },
            0x4000 => {
                self.f_0x4000(opcode);
                Step::Executed
            },
            0x5000 => self.f_0x5000(opcode),
            0x6000 => {
                self.f_0x6000(opcode);
                Step::Executed
            },
            0x7000 => {
                self.f_0x7000(opcode);
                Step::Executed
            },
            0x8000 => self.f_0x8000(opcode),
            0x9000 => self.f_0x9000(opcode),
            0xA000 => {
                self.f_0xA000(opcode);
                Step::Executed
            },
            0xB000 => {
                self.f_0xB000(opcode);
                Step::Executed
            },
            0xC000 => {
                self.f_0xC000(opcode, random);
                Step::Executed
            },
            0xD000 => {
                self.f_0xD000(opcode);
                Step::Executed
            },
            0xE000 => self.f_0xE000(opcode),
            _ => self.f_0xF000(opcode),
        };
        step
    }

    /// Carries out one instruction word; 0xCXNN draws its byte from the random source.
    /// Words that match no documented instruction change nothing.
    pub fn decode_and_execute(&mut self, opcode: u16) -> (r: Step)
        requires
            old(self).wf(),
            !old(self)@.underflows(opcode),
        ensures
            r == crate::model::step_of(opcode),
            final(self).wf(),
            exists|b: u8| 1 <= b && final(self)@ == #[trigger] old(self)@.execute(opcode, b),
            op_family(opcode) != 0xC000 ==> final(self)@ == old(self)@.execute(opcode, 0),
    {
        if opcode & 0xF000 == 0xC000 {
            let b = random_byte();
            self.execute(opcode, b)
        } else {
            let r = self.execute(opcode, 0);
            assert(final(self)@ == old(self)@.execute(opcode, 1));
            r
        }
    }

    /// 0xDXYN: draws an N-row sprite from memory at I at (V[X], V[Y]) by XOR.
    /// Bits that land past the last pixel, and rows past the end of memory, are dropped.
    pub fn f_0xD000(&mut self, opcode: u16)
        requires
            old(self).wf(),
        ensures
            final(self)@ == old(self)@.draw(opcode),
    {
        let ghost m = self@;
        let x: usize = self.v[reg_x(opcode)] as usize;
        let y: usize = self.v[reg_y(opcode)] as usize;
        let height: usize = (opcode & 0x000F) as usize;
        proof {
            lemma_op_fields(opcode);
        }
        let ghost (gx, gy, gh) = (x as int, y as int, height as int);
        self.v[15] = 0;
        let mut row: usize = 0;
        while row < height
            invariant
                m == old(self)@,
                m.wf(),
                gx == x, gy == y, gh == height,
                x < 256,
                y < 256,
                height < 16,
                row <= height,
                self@ == (CpuModel { graphics: self.graphics@, v: self.v@, ..m }),
                self.v@ == m.v.update(15, if m.collides_before(gx, gy, gh, row as int, 0) { 1u8 } else { 0u8 }),
                forall|p: int|
                    0 <= p < SCREEN_SIZE ==> self.graphics@[p] == if m.flips_before(gx, gy, gh, p, row as int, 0) {
                        m.graphics[p] ^ 1
                    } else {
                        m.graphics[p]
                    },
            decreases height - row,
        {
            let addr: usize = self.i as usize + row;
            if addr < MEMORY_SIZE {
                let pixel: u8 = self.memory[addr];
                let mut col: usize = 0;
                while col < 8
                    invariant
                        m == old(self)@,
                        m.wf(),
                        gx == x, gy == y, gh == height,
                        x < 256,
                        y < 256,
                        height < 16,
                        row < height,
                        col <= 8,
                        addr == m.i + row,
                        addr < MEMORY_SIZE,
                        pixel == m.memory[addr as int],
                        self@ == (CpuModel { graphics: self.graphics@, v: self.v@, ..m }),
                        self.v@ == m.v.update(15, if m.collides_before(gx, gy, gh, row as int, col as int) { 1u8 } else { 0u8 }),
                        forall|p: int|
                            0 <= p < SCREEN_SIZE ==> self.graphics@[p] == if m.flips_before(gx, gy, gh, p, row as int, col as int) {
                                m.graphics[p] ^ 1
                            } else {
                                m.graphics[p]
                            },
                    decreases 8 - col,
                {
                    let ghost (r, c) = (row as int, col as int);
                    proof {
                        lemma_draw_step(m, gx, gy, gh, r, c);
                    }
                    if pixel & (0x80u8 >> (col as u8)) != 0 {
                        let index: usize = x + col + (y + row) * COL;
                        if index < SCREEN_SIZE {
                            proof {
                                lemma_pixel_offset(index - (gx + gy * 64), r, c);
                                assert(!m.flips_before(gx, gy, gh, index as int, r, c));
                            }
                            if self.graphics[index] == 1 {
                                self.v[15] = 1;
                                assert(m.flips_before(gx, gy, gh, index as int, r, c + 1));
                            } else {
                                assert forall|p: int|
                                    0 <= p < SCREEN_SIZE && #[trigger] m.flips_before(gx, gy, gh, p, r, c + 1)
                                        && m.graphics[p] == 1 implies m.flips_before(gx, gy, gh, p, r, c) by {}
                            }
                            self.graphics[index] = self.graphics[index] ^ 1;
                        } else {
                            assert forall|p: int|
                                0 <= p < SCREEN_SIZE && #[trigger] m.flips_before(gx, gy, gh, p, r, c + 1)
                                    implies m.flips_before(gx, gy, gh, p, r, c) by {}
                        }
                    } else {
                        assert forall|p: int|
                            #[trigger] m.flips_before(gx, gy, gh, p, r, c + 1)
                                implies m.flips_before(gx, gy, gh, p, r, c) by {}
                    }
                    col = col + 1;
                }
                assert forall|p: int|
                    #[trigger] m.flips_before(gx, gy, gh, p, row as int, 8)
                        == m.flips_before(gx, gy, gh, p, row + 1, 0) by {}
                proof { lemma_same_collisions(m, gx, gy, gh, row as int, 8, row + 1, 0); }
            } else {
                assert forall|p: int|
                    #[trigger] m.flips_before(gx, gy, gh, p, row as int, 0)
                        == m.flips_before(gx, gy, gh, p, row + 1, 0) by {}
                proof { lemma_same_collisions(m, gx, gy, gh, row as int, 0, row + 1, 0); }
            }
            row = row + 1;
        }
        self.should_redraw = true;
        assert(self.graphics@ =~= m.draw(opcode).graphics);
    }
}

} // verus!
