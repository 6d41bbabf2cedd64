use vstd::prelude::*;

use crate::chip8::{FONTSET, MEMORY_SIZE, PROGRAM_START, SCREEN_SIZE};

verus! {

/// The mathematical state of the machine: every array as a sequence.
pub struct CpuModel {
    pub graphics: Seq<u8>,
    pub memory: Seq<u8>,
    pub should_redraw: bool,
    pub stack: Seq<u16>,
    pub sp: u16,
    pub v: Seq<u8>,
    pub i: u16,
    pub pc: u16,
    pub keypad: Seq<u8>,
    pub delay_timer: u8,
    pub sound_timer: u8,
}

/// What the interpreter did with an instruction word.
#[derive(Clone, Copy, Debug, PartialEq, Eq, Structural)]
pub enum Step {
    /// The instruction was carried out.
    Executed,
    /// The word matches no documented instruction; nothing changed.
    Unsupported,
    /// The word is a key wait (0xFX0A); it completes once a key is reported.
    AwaitKey,
}

/// The instruction family: the top four bits of the word.
pub open spec fn op_family(op: u16) -> u16 {
    op & 0xF000
}

/// The register index X.
pub open spec fn op_x(op: u16) -> int {
    ((op & 0x0F00) >> 8) as int
}

/// The register index Y.
pub open spec fn op_y(op: u16) -> int {
    ((op & 0x00F0) >> 4) as int
}

/// The 4-bit immediate N.
pub open spec fn op_n(op: u16) -> u16 {
    op & 0x000F
}

/// The 8-bit immediate NN.
pub open spec fn op_nn(op: u16) -> u8 {
    (op & 0x00FF) as u8
}

/// The 12-bit address NNN.
pub open spec fn op_nnn(op: u16) -> u16 {
    op & 0x0FFF
}

/// The operand fields are in range, and the family is one of the sixteen top nibbles.
pub proof fn lemma_op_fields(op: u16)
    ensures
        0 <= op_x(op) < 16,
        0 <= op_y(op) < 16,
        op_n(op) < 16,
        op_nnn(op) < 4096,
        op & 0x00FF < 256,
        op_family(op) == 0 || op_family(op) == 0x1000 || op_family(op) == 0x2000
            || op_family(op) == 0x3000 || op_family(op) == 0x4000 || op_family(op) == 0x5000
            || op_family(op) == 0x6000 || op_family(op) == 0x7000 || op_family(op) == 0x8000
            || op_family(op) == 0x9000 || op_family(op) == 0xA000 || op_family(op) == 0xB000
            || op_family(op) == 0xC000 || op_family(op) == 0xD000 || op_family(op) == 0xE000
            || op_family(op) == 0xF000,
{
    assert((op & 0x0F00) >> 8 < 16) by (bit_vector);
    assert((op & 0x00F0) >> 4 < 16) by (bit_vector);
    assert(op & 0x000F < 16) by (bit_vector);
    assert(op & 0x0FFF < 4096) by (bit_vector);
    assert(op & 0x00FF < 256) by (bit_vector);
    assert(op & 0xF000 == 0 || op & 0xF000 == 0x1000 || op & 0xF000 == 0x2000 || op & 0xF000
        == 0x3000 || op & 0xF000 == 0x4000 || op & 0xF000 == 0x5000 || op & 0xF000 == 0x6000 || op
        & 0xF000 == 0x7000 || op & 0xF000 == 0x8000 || op & 0xF000 == 0x9000 || op & 0xF000
        == 0xA000 || op & 0xF000 == 0xB000 || op & 0xF000 == 0xC000 || op & 0xF000 == 0xD000 || op
        & 0xF000 == 0xE000 || op & 0xF000 == 0xF000) by (bit_vector);
}

/// Whether bit `col` of `b` is set, counting from the most significant bit (`col` 0).
pub open spec fn bit_at(b: u8, col: int) -> bool {
    b & (0x80u8 >> (col as u8)) != 0
}

/// The outcome that `execute` reports for an instruction word.
pub open spec fn step_of(op: u16) -> Step {
    let f = op_family(op);
    if f == 0x0000 {
        if op == 0x00E0 || op == 0x00EE {
            Step::Executed
        } else {
            Step::Unsupported
        }
    } else if f == 0x5000 || f == 0x9000 {
        if op_n(op) == 0 {
            Step::Executed
        } else {
            Step::Unsupported
        }
    } else if f == 0x8000 {
        if op_n(op) <= 7 || op_n(op) == 0xE {
            Step::Executed
        } else {
            Step::Unsupported
        }
    } else if f == 0xE000 {
        if op_nn(op) == 0x9E || op_nn(op) == 0xA1 {
            Step::Executed
        } else {
            Step::Unsupported
        }
    } else if f == 0xF000 {
        if op_nn(op) == 0x07 {
            Step::Executed
        } else if op_nn(op) == 0x0A {
            Step::AwaitKey
        } else {
            Step::Unsupported
        }
    } else {
        Step::Executed
    }
}

/// The machine as constructed: everything zero but `pc`, which is at the program start.
pub open spec fn initial_model() -> CpuModel {
    CpuModel {
        graphics: Seq::new(SCREEN_SIZE as nat, |p: int| 0u8),
        memory: Seq::new(MEMORY_SIZE as nat, |p: int| 0u8),
        should_redraw: false,
        stack: Seq::new(16, |p: int| 0u16),
        sp: 0,
        v: Seq::new(16, |p: int| 0u8),
        i: 0,
        pc: PROGRAM_START as u16,
        keypad: Seq::new(16, |p: int| 0u8),
        delay_timer: 0,
        sound_timer: 0,
    }
}

impl CpuModel {
    /// Sizes of the fixed arrays and the stack discipline `sp <= 16`.
    pub open spec fn wf(self) -> bool {
        &&& self.graphics.len() == SCREEN_SIZE
        &&& self.memory.len() == MEMORY_SIZE
        &&& self.stack.len() == 16
        &&& self.v.len() == 16
        &&& self.keypad.len() == 16
        &&& self.sp <= 16
    }

    /// Memory with the font copied to 0..80.
    pub open spec fn with_font(self) -> CpuModel {
        CpuModel { memory: FONTSET@ + self.memory.subrange(80, MEMORY_SIZE as int), ..self }
    }

    /// Memory with `program` copied to the program start.
    pub open spec fn with_program(self, program: Seq<u8>) -> CpuModel {
        CpuModel {
            memory: self.memory.subrange(0, PROGRAM_START as int) + program + self.memory.subrange(
                PROGRAM_START + program.len(),
                MEMORY_SIZE as int,
            ),
            ..self
        }
    }

    /// One frame: fetch the word at `pc`, carry it out, then tick the timers,
    /// except on a key wait, which holds the timers until the key comes
    /// (see `key_wait_completed`).
    pub open spec fn cycle(self, random: u8) -> CpuModel {
        let op = self.word_at_pc();
        let m = self.fetched().execute(op, random);
        if step_of(op) == Step::AwaitKey {
            m
        } else {
            m.tick_timers()
        }
    }

    /// The word at `pc`, big-endian.
    pub open spec fn word_at_pc(self) -> u16 {
        ((self.memory[self.pc as int] as u16) << 8u16) | (self.memory[self.pc + 1] as u16)
    }

    /// The state after fetching: `pc` advanced past one word.
    pub open spec fn fetched(self) -> CpuModel {
        CpuModel { pc: (self.pc + 2) as u16, ..self }
    }

    pub open spec fn set_v(self, x: int, b: u8) -> CpuModel {
        CpuModel { v: self.v.update(x, b), ..self }
    }

    /// `pc` advanced past the next instruction when `cond` holds.
    pub open spec fn skip_if(self, cond: bool) -> CpuModel {
        if cond {
            CpuModel { pc: self.pc.wrapping_add(2), ..self }
        } else {
            self
        }
    }

    /// 0x00E0: every pixel off.
    pub open spec fn clear_screen(self) -> CpuModel {
        CpuModel { graphics: Seq::new(self.graphics.len(), |p: int| 0u8), ..self }
    }

    /// A return that would pop from an empty call stack.
    pub open spec fn stack_empty(self) -> bool {
        self.sp == 0 && self.stack[0] == 0
    }

    /// 0x00EE: pop the return address into `pc` and clear its slot.
    pub open spec fn return_from_subroutine(self) -> CpuModel {
        let sp: u16 = if self.sp > 0 {
            (self.sp - 1) as u16
        } else {
            0
        };
        CpuModel { sp: sp, pc: self.stack[sp as int], stack: self.stack.update(sp as int, 0), ..self }
    }

    /// Whether `op` is a return (0x00EE) met with an empty call stack.
    pub open spec fn underflows(self, op: u16) -> bool {
        op == 0x00EE && self.stack_empty()
    }

    /// 0x1NNN.
    pub open spec fn jump(self, op: u16) -> CpuModel {
        CpuModel { pc: op_nnn(op), ..self }
    }

    /// 0x2NNN: push `pc`, then jump. With all sixteen slots taken, the top slot is overwritten.
    pub open spec fn call(self, op: u16) -> CpuModel {
        if self.sp < 16 {
            CpuModel {
                stack: self.stack.update(self.sp as int, self.pc),
                sp: (self.sp + 1) as u16,
                pc: op_nnn(op),
                ..self
            }
        } else {
            CpuModel { stack: self.stack.update(15, self.pc), pc: op_nnn(op), ..self }
        }
    }

    /// 0x8XY4: on a carry, V[X] takes the sum's high byte, then VF = 1;
    /// else VF = 0, then V[X] takes the sum.
    pub open spec fn add_registers(self, op: u16) -> CpuModel {
        let sum = self.v[op_x(op)] as int + self.v[op_y(op)] as int;
        if sum > 255 {
            self.set_v(op_x(op), (sum / 256) as u8).set_v(15, 1)
        } else {
            self.set_v(15, 0).set_v(op_x(op), sum as u8)
        }
    }

    /// 0x8XY5: VF = (V[X] >= V[Y]), then V[X] = V[X] - V[Y], wrapping.
    pub open spec fn sub_registers(self, op: u16) -> CpuModel {
        let flag: u8 = if self.v[op_x(op)] >= self.v[op_y(op)] {
            1
        } else {
            0
        };
        let m = self.set_v(15, flag);
        m.set_v(op_x(op), m.v[op_x(op)].wrapping_sub(m.v[op_y(op)]))
    }

    /// 0x8XY6: VF = V[X] & 1, then V[X] = V[Y] >> 1.
    pub open spec fn shift_right(self, op: u16) -> CpuModel {
        let m = self.set_v(15, self.v[op_x(op)] & 1);
        m.set_v(op_x(op), m.v[op_y(op)] >> 1u8)
    }

    /// 0x8XY7: VF = !(V[X] > V[Y]), then V[X] = V[Y] - V[X], wrapping.
    pub open spec fn sub_reversed(self, op: u16) -> CpuModel {
        let flag: u8 = if self.v[op_x(op)] > self.v[op_y(op)] {
            0
        } else {
            1
        };
        let m = self.set_v(15, flag);
        m.set_v(op_x(op), m.v[op_y(op)].wrapping_sub(m.v[op_x(op)]))
    }

    /// 0x8XYE: VF = high bit of V[Y], then V[X] = V[Y] << 1, wrapping.
    pub open spec fn shift_left(self, op: u16) -> CpuModel {
        let m = self.set_v(15, (self.v[op_y(op)] & 0x80) >> 7u8);
        m.set_v(op_x(op), m.v[op_y(op)].wrapping_shl(1))
    }

    /// The register-register family 0x8XY_.
    pub open spec fn alu(self, op: u16) -> CpuModel {
        let x = op_x(op);
        let vy = self.v[op_y(op)];
        let s = op_n(op);
        if s == 0 {
            self.set_v(x, vy)
        } else if s == 1 {
            self.set_v(x, self.v[x] | vy)
        } else if s == 2 {
            self.set_v(x, self.v[x] & vy)
        } else if s == 3 {
            self.set_v(x, self.v[x] ^ vy)
        } else if s == 4 {
            self.add_registers(op)
        } else if s == 5 {
            self.sub_registers(op)
        } else if s == 6 {
            self.shift_right(op)
        } else if s == 7 {
            self.sub_reversed(op)
        } else if s == 0xE {
            self.shift_left(op)
        } else {
            self
        }
    }

    /// Whether sprite row `row` read from `I + row` has bit `col` set.
    /// A row past the end of memory has no bit set.
    pub open spec fn sprite_bit(self, row: int, col: int) -> bool {
        self.i + row < MEMORY_SIZE && bit_at(self.memory[self.i + row], col)
    }

    /// Whether a draw at (x, y) of `h` rows flips pixel `p`, among the first `r` rows and,
    /// of row `r`, the first `c` bits. Bit `col` of row `row` lands on
    /// `x + col + (y + row) * 64`; no two bits of one draw land on the same pixel.
    pub open spec fn flips_before(self, x: int, y: int, h: int, p: int, r: int, c: int) -> bool {
        let d = p - (x + y * 64);
        &&& 0 <= d
        &&& d / 64 < h
        &&& d % 64 < 8
        &&& (d / 64 < r || (d / 64 == r && d % 64 < c))
        &&& self.sprite_bit(d / 64, d % 64)
    }

    /// Whether a draw at (x, y) of `h` rows flips pixel `p`.
    pub open spec fn flips(self, x: int, y: int, h: int, p: int) -> bool {
        self.flips_before(x, y, h, p, h, 0)
    }

    /// Whether, among the bits drawn so far, one lands on a pixel that was on.
    pub open spec fn collides_before(self, x: int, y: int, h: int, r: int, c: int) -> bool {
        exists|p: int|
            0 <= p < SCREEN_SIZE && #[trigger] self.flips_before(x, y, h, p, r, c)
                && self.graphics[p] == 1
    }

    /// 0xDXYN: XOR an N-row sprite from memory at I onto the screen at (V[X], V[Y]).
    /// Bits that land past the last pixel are dropped. VF tells whether a pixel that
    /// was on got flipped.
    pub open spec fn draw(self, op: u16) -> CpuModel {
        let x = self.v[op_x(op)] as int;
        let y = self.v[op_y(op)] as int;
        let h = op_n(op) as int;
        let flag: u8 = if self.collides_before(x, y, h, h, 0) {
            1
        } else {
            0
        };
        CpuModel {
            graphics: Seq::new(
                self.graphics.len(),
                |p: int|
                    if self.flips(x, y, h, p) {
                        self.graphics[p] ^ 1
                    } else {
                        self.graphics[p]
                    },
            ),
            v: self.v.update(15, flag),
            should_redraw: true,
            ..self
        }
    }

    /// 0xEX9E / 0xEXA1: skip on the state of key V[X]. A V[X] of 16 or more names
    /// no key, and neither instruction skips on it.
    pub open spec fn skip_on_key(self, op: u16) -> CpuModel {
        let k = self.v[op_x(op)] as int;
        let pressed = self.keypad[k] != 0;
        if k >= 16 {
            self
        } else if op_nn(op) == 0x9E {
            self.skip_if(pressed)
        } else if op_nn(op) == 0xA1 {
            self.skip_if(!pressed)
        } else {
            self
        }
    }

    /// 0xFX0A, once key `key` has been reported: key slot V[X] records it.
    /// A V[X] of 16 or more names no slot, and nothing is written.
    pub open spec fn key_reported(self, op: u16, key: u8) -> CpuModel {
        let k = self.v[op_x(op)] as int;
        if k < 16 {
            CpuModel { keypad: self.keypad.update(k, key), ..self }
        } else {
            self
        }
    }

    /// The end of a frame whose word was a key wait: the key is recorded, then the
    /// timers tick, once, as in every frame.
    pub open spec fn key_wait_completed(self, op: u16, key: u8) -> CpuModel {
        self.key_reported(op, key).tick_timers()
    }

    /// The effect of one instruction word; `random` is the byte that 0xCXNN draws.
    pub open spec fn execute(self, op: u16, random: u8) -> CpuModel {
        let f = op_family(op);
        let x = op_x(op);
        let y = op_y(op);
        if f == 0x0000 {
            if op == 0x00E0 {
                self.clear_screen()
            } else if op == 0x00EE {
                self.return_from_subroutine()
            } else {
                self
            }
        } else if f == 0x1000 {
            self.jump(op)
        } else if f == 0x2000 {
            self.call(op)
        } else if f == 0x3000 {
            self.skip_if(self.v[x] == op_nn(op))
        } else if f == 0x4000 {
            self.skip_if(self.v[x] != op_nn(op))
        } else if f == 0x5000 {
            self.skip_if(op_n(op) == 0 && self.v[x] == self.v[y])
        } else if f == 0x6000 {
            self.set_v(x, op_nn(op))
        } else if f == 0x7000 {
            self.set_v(x, self.v[x].wrapping_add(op_nn(op)))
        } else if f == 0x8000 {
            self.alu(op)
        } else if f == 0x9000 {
            self.skip_if(op_n(op) == 0 && self.v[x] != self.v[y])
        } else if f == 0xA000 {
            CpuModel { i: op_nnn(op), ..self }
        } else if f == 0xB000 {
            CpuModel { pc: (op_nnn(op) + self.v[0]) as u16, ..self }
        } else if f == 0xC000 {
            self.set_v(x, random & op_nn(op))
        } else if f == 0xD000 {
            self.draw(op)
        } else if f == 0xE000 {
            self.skip_on_key(op)
        } else if op_nn(op) == 0x07 {
            self.set_v(x, self.delay_timer)
        } else {
            self
        }
    }

    /// Once per frame: each timer that is not zero counts down by one.
    pub open spec fn tick_timers(self) -> CpuModel {
        CpuModel {
            delay_timer: if self.delay_timer > 0 {
                (self.delay_timer - 1) as u8
            } else {
                0
            },
            sound_timer: if self.sound_timer > 0 {
                (self.sound_timer - 1) as u8
            } else {
                0
            },
            ..self
        }
    }
}

} // verus!
