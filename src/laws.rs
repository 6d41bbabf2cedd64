use vstd::prelude::*;

use crate::chip8::{MEMORY_SIZE, PROGRAM_START, SCREEN_SIZE};
use crate::model::{
    initial_model, lemma_op_fields, op_family, op_n, op_nn, op_nnn, op_x, op_y, step_of, CpuModel,
    Step,
};

verus! {

/// The state after carrying out `ops` in order, without fetching.
pub open spec fn run(m: CpuModel, ops: Seq<u16>) -> CpuModel
    decreases ops.len(),
{
    if ops.len() == 0 {
        m
    } else {
        run(m.execute(ops[0], 0), ops.drop_first())
    }
}

/// `calls` followed by as many returns (0x00EE).
pub open spec fn calls_then_returns(calls: Seq<u16>) -> Seq<u16> {
    calls + Seq::new(calls.len(), |k: int| 0x00EEu16)
}

/// The slots at and above `sp` are empty: `sp` counts the calls in progress.
pub open spec fn stack_clear_above(m: CpuModel) -> bool {
    forall|j: int| m.sp <= j < 16 ==> #[trigger] m.stack[j] == 0
}

/// Whether a skip instruction (0x3XNN, 0x4XNN, 0x5XY0, 0x9XY0) skips on state `m`.
pub open spec fn skip_condition(m: CpuModel, op: u16) -> bool {
    let f = op_family(op);
    if f == 0x3000 {
        m.v[op_x(op)] == op_nn(op)
    } else if f == 0x4000 {
        m.v[op_x(op)] != op_nn(op)
    } else if f == 0x5000 {
        m.v[op_x(op)] == m.v[op_y(op)]
    } else {
        m.v[op_x(op)] != m.v[op_y(op)]
    }
}

/// A word that matches no documented instruction only has `pc` advanced past it
/// by the fetch: nothing else changes.
pub proof fn law_unsupported_only_advances(m: CpuModel, op: u16, random: u8)
    requires
        m.wf(),
        m.pc + 1 < MEMORY_SIZE,
        step_of(op) == Step::Unsupported,
    ensures
        m.fetched().execute(op, random) == (CpuModel { pc: (m.pc + 2) as u16, ..m }),
{
    lemma_op_fields(op);
}

/// A jump (0x1NNN) sets `pc` to NNN and leaves the call stack and `sp` alone.
pub proof fn law_jump_keeps_stack(m: CpuModel, op: u16, random: u8)
    requires
        m.wf(),
        op_family(op) == 0x1000,
    ensures
        m.execute(op, random).stack == m.stack,
        m.execute(op, random).sp == m.sp,
        m.execute(op, random).pc == op_nnn(op),
{
}

/// A call (0x2NNN) below sixteen nested calls pushes the `pc` it was met with,
/// raises `sp` by one and jumps to NNN.
pub proof fn law_call_pushes(m: CpuModel, op: u16, random: u8)
    requires
        m.wf(),
        m.sp < 16,
        op_family(op) == 0x2000,
    ensures
        m.execute(op, random).stack == m.stack.update(m.sp as int, m.pc),
        m.execute(op, random).sp == m.sp + 1,
        m.execute(op, random).pc == op_nnn(op),
{
}

proof fn lemma_run_push(m: CpuModel, ops: Seq<u16>, op: u16)
    ensures
        run(m, ops.push(op)) == run(m, ops).execute(op, 0),
    decreases ops.len(),
{
    if ops.len() == 0 {
        assert(ops.push(op)[0] == op);
        assert(ops.push(op).drop_first() =~= Seq::<u16>::empty());
        assert(run(m.execute(op, 0), Seq::<u16>::empty()) == m.execute(op, 0));
    } else {
        assert(ops.push(op)[0] == ops[0]);
        assert(ops.push(op).drop_first() =~= ops.drop_first().push(op));
        lemma_run_push(m.execute(ops[0], 0), ops.drop_first(), op);
    }
}

/// What nested calls and their returns leave: `pc`, `sp` and the stack as before.
proof fn lemma_nested_calls(m: CpuModel, calls: Seq<u16>)
    requires
        m.wf(),
        stack_clear_above(m),
        m.sp + calls.len() <= 16,
        forall|k: int| 0 <= k < calls.len() ==> op_family(#[trigger] calls[k]) == 0x2000,
    ensures
        run(m, calls_then_returns(calls)).wf(),
        run(m, calls_then_returns(calls)).pc == m.pc,
        run(m, calls_then_returns(calls)).sp == m.sp,
        run(m, calls_then_returns(calls)).stack == m.stack,
    decreases calls.len(),
{
    let n = calls.len();
    if n == 0 {
        assert(calls_then_returns(calls) =~= Seq::<u16>::empty());
    } else {
        let c = calls[0];
        let rest = calls.drop_first();
        let m1 = m.execute(c, 0);
        assert forall|k: int| 0 <= k < rest.len() implies op_family(#[trigger] rest[k]) == 0x2000 by {
            assert(rest[k] == calls[k + 1]);
        }
        lemma_op_fields(c);
        assert(m1 == m.call(c));
        assert(stack_clear_above(m1));
        lemma_nested_calls(m1, rest);
        let inner = calls_then_returns(rest);
        let all = calls_then_returns(calls);
        assert(all =~= seq![c] + inner.push(0x00EEu16));
        assert(all[0] == c);
        assert(all.drop_first() =~= inner.push(0x00EEu16));
        lemma_run_push(m1, inner, 0x00EEu16);
        let mi = run(m1, inner);
        assert(op_family(0x00EEu16) == 0) by (bit_vector);
        assert(mi.execute(0x00EEu16, 0) == mi.return_from_subroutine());
        assert(mi.execute(0x00EEu16, 0).stack =~= m.stack);
    }
}

/// Calls then as many returns bring `pc` back to its value before the first call,
/// and `sp` and the call stack too, when the calls nest no deeper than sixteen and
/// the slots above `sp` start empty.
pub proof fn law_calls_then_returns(m: CpuModel, calls: Seq<u16>)
    requires
        m.wf(),
        stack_clear_above(m),
        m.sp + calls.len() <= 16,
        forall|k: int| 0 <= k < calls.len() ==> op_family(#[trigger] calls[k]) == 0x2000,
    ensures
        run(m, calls_then_returns(calls)).pc == m.pc,
        run(m, calls_then_returns(calls)).sp == m.sp,
        run(m, calls_then_returns(calls)).stack == m.stack,
{
    lemma_nested_calls(m, calls);
}

/// Every word keeps the call stack discipline: `sp` stays within 0..=16 and the
/// slots at and above it stay empty, as long as no call meets a full stack and no
/// return meets an empty one.
pub proof fn law_stack_discipline(m: CpuModel, op: u16, random: u8)
    requires
        m.wf(),
        stack_clear_above(m),
        op_family(op) == 0x2000 ==> m.sp < 16,
        op == 0x00EE ==> m.sp > 0,
    ensures
        m.execute(op, random).wf(),
        stack_clear_above(m.execute(op, random)),
{
    lemma_op_fields(op);
}

/// A skip instruction moves `pc` four bytes past the word fetched when its condition
/// holds, and two otherwise.
pub proof fn law_skip(m: CpuModel, op: u16, random: u8)
    requires
        m.wf(),
        m.pc + 1 < MEMORY_SIZE,
        op_family(op) == 0x3000 || op_family(op) == 0x4000 || (op_family(op) == 0x5000 && op_n(op)
            == 0) || (op_family(op) == 0x9000 && op_n(op) == 0),
    ensures
        m.fetched().execute(op, random).pc == if skip_condition(m, op) {
            m.pc + 4
        } else {
            m.pc + 2
        },
{
    lemma_op_fields(op);
}

/// Installing the font twice leaves the same state as installing it once.
pub proof fn law_font_idempotent(m: CpuModel)
    requires
        m.wf(),
    ensures
        m.with_font().with_font() == m.with_font(),
{
    assert(m.with_font().with_font().memory =~= m.with_font().memory);
}

/// Loading a program into a fresh machine puts it at the program start and leaves
/// the memory after it zero.
pub proof fn law_load_into_fresh(program: Seq<u8>)
    requires
        program.len() <= MEMORY_SIZE - PROGRAM_START,
    ensures
        initial_model().with_program(program).memory.subrange(
            PROGRAM_START as int,
            PROGRAM_START + program.len(),
        ) == program,
        forall|k: int|
            PROGRAM_START + program.len() <= k < MEMORY_SIZE ==> #[trigger] initial_model().with_program(
                program,
            ).memory[k] == 0,
{
    let mem = initial_model().with_program(program).memory;
    assert(mem.subrange(PROGRAM_START as int, PROGRAM_START + program.len()) =~= program);
}

/// Drawing the same sprite twice at the same place leaves the framebuffer as it was,
/// and the second draw reports a collision when the first turned a pixel on.
/// Neither coordinate register may be VF, which the first draw overwrites.
pub proof fn law_draw_twice_restores(m: CpuModel, op: u16, p: int)
    requires
        m.wf(),
        op_family(op) == 0xD000,
        op_x(op) != 15,
        op_y(op) != 15,
    ensures
        m.draw(op).draw(op).graphics == m.graphics,
        0 <= p < SCREEN_SIZE && m.flips(m.v[op_x(op)] as int, m.v[op_y(op)] as int, op_n(op) as int, p)
            && m.graphics[p] == 0 ==> m.draw(op).draw(op).v[15] == 1,
{
    lemma_op_fields(op);
    let m1 = m.draw(op);
    let (x, y, h) = (m.v[op_x(op)] as int, m.v[op_y(op)] as int, op_n(op) as int);
    assert(m1.v[op_x(op)] == m.v[op_x(op)]);
    assert(m1.v[op_y(op)] == m.v[op_y(op)]);
    assert forall|q: int| 0 <= q < SCREEN_SIZE implies m1.draw(op).graphics[q] == m.graphics[q] by {
        let b = m.graphics[q];
        assert(b ^ 1 ^ 1 == b) by (bit_vector);
        assert(m1.flips(x, y, h, q) == m.flips(x, y, h, q));
    }
    assert(m1.draw(op).graphics =~= m.graphics);
    if 0 <= p < SCREEN_SIZE && m.flips(x, y, h, p) && m.graphics[p] == 0 {
        assert(0u8 ^ 1 == 1) by (bit_vector);
        assert(m1.flips_before(x, y, h, p, h, 0) && m1.graphics[p] == 1);
    }
}

} // verus!
