//! What holds of the machine across instructions.
use crate::ast::decoder::{ControlInstruction, Instruction};
use crate::common::Register;
use crate::framebuffer::{cell, PIXELS};
use crate::memory::in_range;
use crate::model::{
    advance, covered, erases, exec_control, exec_draw, exec_instruction, painted, Machine,
};
use crate::stack::STACK_CAPACITY;
use vstd::prelude::*;

verus! {

/// Whether an instruction sets the program counter to an address of its own
/// choosing: a jump, a call or a return.
pub open spec fn redirects(instruction: Instruction) -> bool {
    match instruction {
        Instruction::Control(ControlInstruction::JP(_)) => true,
        Instruction::Control(ControlInstruction::CALL(_)) => true,
        Instruction::Control(ControlInstruction::RET()) => true,
        _ => false,
    }
}

/// No instruction changes the sizes of the machine's parts or its policy,
/// and the call stack never grows beyond its capacity.
pub proof fn lemma_valid_is_kept(instruction: Instruction, m: Machine, keys: Seq<bool>, random: u8)
    requires
        instruction.well_formed(),
        m.valid(),
    ensures
        exec_instruction(instruction, m, keys, random) matches Ok(after) ==> after.valid()
            && after.policy == m.policy,
{
}

/// The program counter stays on instruction boundaries: from an even
/// address, every instruction but a jump, a call or a return leads to an
/// even address.
pub proof fn lemma_alignment_is_kept(
    instruction: Instruction,
    m: Machine,
    keys: Seq<bool>,
    random: u8,
)
    requires
        instruction.well_formed(),
        !redirects(instruction),
        m.pc % 2 == 0,
    ensures
        exec_instruction(instruction, m, keys, random) matches Ok(after) ==> after.pc % 2 == 0,
{
    lemma_advance_keeps_parity(m.pc, 2);
    lemma_advance_keeps_parity(m.pc, 4);
    if let Ok(after) = exec_instruction(instruction, m, keys, random) {
        assert(after.pc == m.pc || after.pc == advance(m.pc, 2) || after.pc == advance(m.pc, 4));
    }
}

/// Moving on by a whole number of instructions keeps an address even or
/// odd, also where it wraps.
proof fn lemma_advance_keeps_parity(from: u16, by: int)
    requires
        0 <= by < 0x1_0000,
        by % 2 == 0,
    ensures
        advance(from, by) % 2 == from % 2,
{
}

/// A call succeeds exactly while fewer than sixteen returns are outstanding,
/// and a return exactly while one is. A return after a call goes on behind
/// the call, with everything else as it was before the call.
pub proof fn lemma_call_then_return(m: Machine, address: u16, keys: Seq<bool>)
    requires
        m.valid(),
    ensures
        exec_control(ControlInstruction::CALL(address), m, keys) is Ok <==> m.stack.len()
            < STACK_CAPACITY,
        exec_control(ControlInstruction::RET(), m, keys) is Ok <==> m.stack.len() > 0,
        exec_control(ControlInstruction::CALL(address), m, keys) matches Ok(called) ==> called.pc
            == address && exec_control(ControlInstruction::RET(), called, keys) == Ok::<
            Machine,
            crate::fault::Fault,
        >(m.next()),
{
    if m.stack.len() < STACK_CAPACITY {
        let called = exec_control(ControlInstruction::CALL(address), m, keys)->Ok_0;
        assert(called.stack.drop_last() =~= m.stack);
    }
}

/// After a clear-screen every pixel is off, whatever the display held.
pub proof fn lemma_clear_screen(m: Machine, keys: Seq<bool>)
    ensures
        exec_control(ControlInstruction::CLS(), m, keys) matches Ok(after) && forall|
            x: int,
            y: int,
        | !after.pixels[#[trigger] cell(x, y)],
{
    let after = exec_control(ControlInstruction::CLS(), m, keys)->Ok_0;
    assert forall|x: int, y: int| !after.pixels[#[trigger] cell(x, y)] by {
        assert(0 <= cell(x, y) < PIXELS);
    }
}

/// Drawing a sprite a second time at the same place undoes the first
/// drawing: the display is what it was, and the second drawing sets the flag
/// register to 1 exactly if the first one lit a pixel. On a blank display
/// that is exactly if the sprite has a set bit. The coordinates must not
/// come from the flag register, which the first drawing overwrites.
pub proof fn lemma_draw_twice(m: Machine, x: Register, y: Register, n: u8)
    requires
        m.valid(),
        x < 15,
        y < 15,
        n < 16,
        in_range(m.i as int, n as int),
    ensures
        ({
            let ox = (m.reg(x) % 64) as int;
            let oy = (m.reg(y) % 32) as int;
            let lights = exists|k: int|
                0 <= k < PIXELS && !m.pixels[k] && #[trigger] covered(m, ox, oy, n as int, 0, k);
            &&& exec_draw(m, x, y, n) matches Ok(once)
            &&& exec_draw(once, x, y, n) matches Ok(twice)
            &&& once.reg(15) == (if erases(m, ox, oy, n as int, 0) {
                1u8
            } else {
                0u8
            })
            &&& twice.pixels == m.pixels
            &&& twice.reg(15) == (if lights {
                1u8
            } else {
                0u8
            })
        }),
{
    let ox = (m.reg(x) % 64) as int;
    let oy = (m.reg(y) % 32) as int;
    let rows = n as int;
    let once = exec_draw(m, x, y, n)->Ok_0;
    let twice = exec_draw(once, x, y, n)->Ok_0;
    assert(once.reg(x) == m.reg(x) && once.reg(y) == m.reg(y));
    assert forall|k: int| 0 <= k < PIXELS implies #[trigger] covered(once, ox, oy, rows, 0, k)
        == covered(m, ox, oy, rows, 0, k) by {}
    assert(painted(once, ox, oy, rows, 0) =~= m.pixels);
    let lights = exists|k: int|
        0 <= k < PIXELS && !m.pixels[k] && #[trigger] covered(m, ox, oy, rows, 0, k);
    if lights {
        let k = choose|k: int|
            0 <= k < PIXELS && !m.pixels[k] && #[trigger] covered(m, ox, oy, rows, 0, k);
        assert(once.pixels[k] && covered(once, ox, oy, rows, 0, k));
    }
    if erases(once, ox, oy, rows, 0) {
        let k = choose|k: int|
            0 <= k < PIXELS && once.pixels[k] && #[trigger] covered(once, ox, oy, rows, 0, k);
        assert(!m.pixels[k] && covered(m, ox, oy, rows, 0, k));
    }
}

} // verus!
