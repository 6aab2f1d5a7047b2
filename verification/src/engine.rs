use crate::ast::decoder::{
    AddInstruction, ControlInstruction, Instruction, JPInstruction, LDInstruction,
    MathInstruction, SEInstruction, SKPInstruction,
};
use crate::common::{Address, BinOps, Nibble, Register};
use crate::fault::Fault;
use crate::framebuffer::{cell, HEIGHT, PIXELS, WIDTH};
use crate::memory::{in_range, MEMORY_SIZE};
use crate::model::{
    covered, erases, exec_add, exec_control, exec_draw, exec_instruction, exec_jump,
    exec_key_skip, exec_load, exec_math, exec_skip, flow_of, key_down, painted, sprite_bit,
    sprite_col, sprite_row, Machine, FONT_BASE, GLYPH_BYTES, KEYS,
};
use crate::state::State;
use vstd::prelude::*;
use vstd::slice::slice_subrange;

verus! {

/// How execution goes on after an instruction.
#[derive(Debug, Clone, Copy, PartialEq, Eq, Structural)]
pub enum Flow {
    /// At this program counter, which the state already holds.
    Continue(Address),
    /// Not before a key event has arrived: its key goes into this register.
    /// The state is as it was before the instruction.
    AwaitKey(Register),
}

/// Whether the key numbered `key` is held down.
pub fn is_key_down(keys: &[bool; 16], key: u8) -> (r: bool)
    ensures
        r == key_down(keys@, key),
{
    (key as usize) < KEYS && keys[key as usize]
}

impl JPInstruction {
    /// Sets the program counter to the target.
    pub fn execute(&self, cpu: &mut State)
        requires
            self.well_formed(),
            old(cpu).wf(),
        ensures
            final(cpu).wf(),
            final(cpu)@ == exec_jump(*self, old(cpu)@),
    {
        match *self {
            JPInstruction::JPPlain(address) => {
                cpu.pc = address;
            },
            JPInstruction::JPOffset(address) => {
                cpu.pc = address.wrapping_add(cpu.reg(0) as u16);
            },
        }
    }
}

impl SEInstruction {
    /// Skips the next instruction if the condition holds.
    pub fn execute(&self, cpu: &mut State)
        requires
            self.well_formed(),
            old(cpu).wf(),
        ensures
            final(cpu).wf(),
            final(cpu)@ == exec_skip(*self, old(cpu)@),
    {
        let skip = match *self {
            SEInstruction::SEPlain(x, kk) => cpu.reg(x) == kk,
            SEInstruction::SNEPlain(x, kk) => cpu.reg(x) != kk,
            SEInstruction::SERegister(x, y) => cpu.reg(x) == cpu.reg(y),
            SEInstruction::SNERegister(x, y) => cpu.reg(x) != cpu.reg(y),
        };
        cpu.advance(skip);
    }
}

impl SKPInstruction {
    /// Skips the next instruction according to the key that the register
    /// names.
    pub fn execute(&self, cpu: &mut State, keys: &[bool; 16])
        requires
            self.well_formed(),
            old(cpu).wf(),
        ensures
            final(cpu).wf(),
            final(cpu)@ == exec_key_skip(*self, old(cpu)@, keys@),
    {
        let skip = match *self {
            SKPInstruction::SKPPlain(x) => is_key_down(keys, cpu.reg(x)),
            SKPInstruction::SKNP(x) => !is_key_down(keys, cpu.reg(x)),
        };
        cpu.advance(skip);
    }
}

impl AddInstruction {
    /// Adds, within eight bits for a register and sixteen for the index
    /// register.
    pub fn execute(&self, cpu: &mut State)
        requires
            self.well_formed(),
            old(cpu).wf(),
        ensures
            final(cpu).wf(),
            final(cpu)@ == exec_add(*self, old(cpu)@),
    {
        match *self {
            AddInstruction::ADDRegister(x, y) => {
                let a = cpu.reg(x);
                let b = cpu.reg(y);
                cpu.set_reg(x, a.wrapping_add(b));
                cpu.set_flag(a as u16 + b as u16 > 0xFF);
            },
            AddInstruction::ADDPlain(x, kk) => {
                let a = cpu.reg(x);
                cpu.set_reg(x, a.wrapping_add(kk));
            },
            AddInstruction::ADDI(x) => {
                cpu.i = cpu.i.wrapping_add(cpu.reg(x) as u16);
            },
        }
        cpu.advance(false);
    }
}

impl LDInstruction {
    /// Loads. A fault leaves the state as it was.
    pub fn execute(&self, cpu: &mut State) -> (r: Result<(), Fault>)
        requires
            self.well_formed(),
            old(cpu).wf(),
        ensures
            final(cpu).wf(),
            match exec_load(*self, old(cpu)@) {
                Ok(after) => r == Ok::<(), Fault>(()) && final(cpu)@ == after,
                Err(fault) => r == Err::<(), Fault>(fault) && final(cpu)@ == old(cpu)@,
            },
    {
        match *self {
            LDInstruction::LDPlain(x, kk) => {
                cpu.set_reg(x, kk);
            },
            LDInstruction::LDRegister(x, y) => {
                let value = cpu.reg(y);
                cpu.set_reg(x, value);
            },
            LDInstruction::LDI(address) => {
                cpu.i = address;
            },
            LDInstruction::LDRDelay(x) => {
                let value = cpu.delay_timer;
                cpu.set_reg(x, value);
            },
            LDInstruction::LDKey(_) => {
                return Ok(());
            },
            LDInstruction::LDDelay(x) => {
                cpu.delay_timer = cpu.reg(x);
            },
            LDInstruction::LDSound(x) => {
                cpu.sound_timer = cpu.reg(x);
            },
            LDInstruction::LDSpritePos(x) => {
                cpu.i = FONT_BASE + GLYPH_BYTES * (cpu.reg(x) % 16) as u16;
            },
            LDInstruction::LDBCD(x) => {
                let value = cpu.reg(x);
                let digits = [value / 100, value / 10 % 10, value % 10];
                cpu.memory.write_data(cpu.i, digits.as_slice())?;
            },
            LDInstruction::LDRegDump(x) => {
                let block = slice_subrange(cpu.registers.as_slice(), 0, x as usize + 1);
                cpu.memory.write_data(cpu.i, block)?;
            },
            LDInstruction::LDRegLoad(x) => {
                if cpu.i as usize + x as usize >= MEMORY_SIZE {
                    return Err(Fault::MemoryOutOfRange);
                }
                let ghost before = cpu@;
                let mut k: u8 = 0;
                while k <= x
                    invariant
                        k <= x + 1,
                        x < 16,
                        cpu.wf(),
                        before.i + x < MEMORY_SIZE,
                        before.registers.len() == 16,
                        cpu@ == (Machine {
                            registers: Seq::new(
                                16,
                                |j: int|
                                    if j < k {
                                        before.memory[before.i + j]
                                    } else {
                                        before.registers[j]
                                    },
                            ),
                            ..before
                        }),
                    decreases x + 1 - k,
                {
                    let value = cpu.memory.read(cpu.i + k as u16)?;
                    cpu.set_reg(k, value);
                    k += 1;
                }
            },
        }
        cpu.advance(false);
        Ok(())
    }
}

impl MathInstruction {
    /// Moves or computes data. A fault leaves the state as it was.
    pub fn execute(&self, cpu: &mut State, random: u8) -> (r: Result<(), Fault>)
        requires
            self.well_formed(),
            old(cpu).wf(),
        ensures
            final(cpu).wf(),
            match exec_math(*self, old(cpu)@, random) {
                Ok(after) => r == Ok::<(), Fault>(()) && final(cpu)@ == after,
                Err(fault) => r == Err::<(), Fault>(fault) && final(cpu)@ == old(cpu)@,
            },
    {
        match *self {
            MathInstruction::LD(load) => {
                return load.execute(cpu);
            },
            MathInstruction::OR(x, y) => {
                let value = cpu.reg(x) | cpu.reg(y);
                cpu.set_reg(x, value);
            },
            MathInstruction::AND(x, y) => {
                let value = cpu.reg(x) & cpu.reg(y);
                cpu.set_reg(x, value);
            },
            MathInstruction::XOR(x, y) => {
                let value = cpu.reg(x) ^ cpu.reg(y);
                cpu.set_reg(x, value);
            },
            MathInstruction::ADD(add) => {
                add.execute(cpu);
                return Ok(());
            },
            MathInstruction::SUB(x, y) => {
                let a = cpu.reg(x);
                let b = cpu.reg(y);
                cpu.set_reg(x, a.wrapping_sub(b));
                cpu.set_flag(a >= b);
            },
            MathInstruction::SHR(x, _) => {
                let a = cpu.reg(x);
                assert(a >> 1 == a / 2 && (a & 1 == 1) == (a % 2 == 1)) by (bit_vector);
                cpu.set_reg(x, a >> 1);
                cpu.set_flag(a & 1 == 1);
            },
            MathInstruction::SUBN(x, y) => {
                let a = cpu.reg(x);
                let b = cpu.reg(y);
                cpu.set_reg(x, b.wrapping_sub(a));
                cpu.set_flag(b >= a);
            },
            MathInstruction::SHL(x, _) => {
                let a = cpu.reg(x);
                assert(a << 1 == a * 2 % 0x100 && (a >> 7 == 1) == (a >= 0x80)) by (bit_vector);
                cpu.set_reg(x, a << 1);
                cpu.set_flag(a >> 7 == 1);
            },
            MathInstruction::RND(x, kk) => {
                cpu.set_reg(x, random & kk);
            },
        }
        cpu.advance(false);
        Ok(())
    }
}

/// Pixel `k` is where bit `col` of sprite row `row` falls, and nowhere else
/// does that bit fall.
proof fn lemma_sprite_place(ox: int, oy: int, row: int, col: int, k: int)
    requires
        0 <= ox < 64,
        0 <= oy < 32,
        0 <= row < 32,
        0 <= col < 64,
        0 <= k < PIXELS,
    ensures
        0 <= cell(ox + col, oy + row) < PIXELS,
        (sprite_row(oy, k) == row && sprite_col(ox, k) == col) <==> k == cell(ox + col, oy + row),
{
}

/// Combining one more bit of the sprite into the pixels changes the one
/// pixel on which the bit falls, which no earlier bit has touched.
proof fn lemma_paint_bit(m: Machine, ox: int, oy: int, row: int, col: int)
    requires
        m.pixels.len() == PIXELS,
        0 <= ox < 64,
        0 <= oy < 32,
        0 <= row < 16,
        0 <= col < 8,
    ensures
        ({
            let k = cell(ox + col, oy + row);
            let bit = sprite_bit(m, row, col);
            &&& 0 <= k < PIXELS
            &&& painted(m, ox, oy, row, col)[k] == m.pixels[k]
            &&& painted(m, ox, oy, row, col + 1) == painted(m, ox, oy, row, col).update(
                k,
                m.pixels[k] != bit,
            )
            &&& erases(m, ox, oy, row, col + 1) == (erases(m, ox, oy, row, col) || (m.pixels[k]
                && bit))
        }),
{
    let target = cell(ox + col, oy + row);
    let bit = sprite_bit(m, row, col);
    lemma_sprite_place(ox, oy, row, col, target);
    assert forall|k: int| 0 <= k < PIXELS implies #[trigger] covered(m, ox, oy, row, col + 1, k)
        == (covered(m, ox, oy, row, col, k) || (k == target && bit)) by {
        lemma_sprite_place(ox, oy, row, col, k);
    }
    assert(painted(m, ox, oy, row, col + 1) =~= painted(m, ox, oy, row, col).update(
        target,
        m.pixels[target] != bit,
    ));
    if erases(m, ox, oy, row, col + 1) {
        let k = choose|k: int|
            0 <= k < PIXELS && m.pixels[k] && #[trigger] covered(m, ox, oy, row, col + 1, k);
        assert(covered(m, ox, oy, row, col, k) || (k == target && bit));
    }
    if erases(m, ox, oy, row, col) {
        let k = choose|k: int|
            0 <= k < PIXELS && m.pixels[k] && #[trigger] covered(m, ox, oy, row, col, k);
        assert(covered(m, ox, oy, row, col + 1, k));
    }
    if m.pixels[target] && bit {
        assert(covered(m, ox, oy, row, col + 1, target));
    }
}

/// A row that is done counts as eight bits of it done, and as none of the
/// next; before the first bit nothing is covered.
proof fn lemma_paint_row(m: Machine, ox: int, oy: int, row: int)
    requires
        m.pixels.len() == PIXELS,
        0 <= ox < 64,
        0 <= oy < 32,
        0 <= row < 16,
    ensures
        painted(m, ox, oy, row, 8) == painted(m, ox, oy, row + 1, 0),
        erases(m, ox, oy, row, 8) == erases(m, ox, oy, row + 1, 0),
        painted(m, ox, oy, 0, 0) == m.pixels,
        !erases(m, ox, oy, 0, 0),
{
    assert forall|k: int| 0 <= k < PIXELS implies #[trigger] covered(m, ox, oy, row, 8, k)
        == covered(m, ox, oy, row + 1, 0, k) by {}
    assert(painted(m, ox, oy, row, 8) =~= painted(m, ox, oy, row + 1, 0));
    if erases(m, ox, oy, row, 8) {
        let k = choose|k: int|
            0 <= k < PIXELS && m.pixels[k] && #[trigger] covered(m, ox, oy, row, 8, k);
        assert(covered(m, ox, oy, row + 1, 0, k));
    }
    if erases(m, ox, oy, row + 1, 0) {
        let k = choose|k: int|
            0 <= k < PIXELS && m.pixels[k] && #[trigger] covered(m, ox, oy, row + 1, 0, k);
        assert(covered(m, ox, oy, row, 8, k));
    }
    assert forall|k: int| 0 <= k < PIXELS implies !#[trigger] covered(m, ox, oy, 0, 0, k) by {}
    assert(painted(m, ox, oy, 0, 0) =~= m.pixels);
}

/// Draws the sprite of `n` rows that lies at the index register, with its
/// upper left corner at the pixel that the registers `x` and `y` name, and
/// sets the flag register to 1 if that turned a lit pixel off, else to 0.
/// The sprite wraps round at the edges. Does not move the program counter.
fn draw(cpu: &mut State, x: Register, y: Register, n: Nibble) -> (r: Result<(), Fault>)
    requires
        x < 16,
        y < 16,
        n < 16,
        old(cpu).wf(),
    ensures
        final(cpu).wf(),
        match exec_draw(old(cpu)@, x, y, n) {
            Ok(after) => r == Ok::<(), Fault>(()) && final(cpu)@.next() == after,
            Err(fault) => r == Err::<(), Fault>(fault) && final(cpu)@ == old(cpu)@,
        },
{
    let ox = cpu.reg(x) % WIDTH;
    let oy = cpu.reg(y) % HEIGHT;
    let start = cpu.i;
    if n > 0 && start as usize + n as usize > MEMORY_SIZE {
        return Err(Fault::MemoryOutOfRange);
    }
    let ghost before = cpu@;
    proof {
        cpu.lemma_valid();
        lemma_paint_row(before, ox as int, oy as int, 0);
    }
    let mut erased = false;
    let mut row: u8 = 0;
    while row < n
        invariant
            row <= n < 16,
            ox < 64,
            oy < 32,
            cpu.wf(),
            before.valid(),
            start == before.i,
            in_range(start as int, n as int),
            cpu@ == (Machine { pixels: painted(before, ox as int, oy as int, row as int, 0), ..before }),
            erased == erases(before, ox as int, oy as int, row as int, 0),
        decreases n - row,
    {
        let line = cpu.memory.read(start + row as u16)?;
        let mut col: u8 = 0;
        while col < 8
            invariant
                row < n < 16,
                col <= 8,
                ox < 64,
                oy < 32,
                cpu.wf(),
                before.valid(),
                line == before.memory[before.i + row],
                cpu@ == (Machine {
                    pixels: painted(before, ox as int, oy as int, row as int, col as int),
                    ..before
                }),
                erased == erases(before, ox as int, oy as int, row as int, col as int),
            decreases 8 - col,
        {
            let bit = line.get_bit(7 - col as u32) == 1;
            proof {
                lemma_paint_bit(before, ox as int, oy as int, row as int, col as int);
            }
            let hit = cpu.framebuffer.write(ox + col, oy + row, bit);
            erased = erased || hit;
            col += 1;
        }
        proof {
            lemma_paint_row(before, ox as int, oy as int, row as int);
        }
        row += 1;
    }
    cpu.set_flag(erased);
    Ok(())
}

impl ControlInstruction {
    /// Steers control flow, clears the display or draws. A fault leaves the
    /// state as it was.
    pub fn execute(&self, cpu: &mut State, keys: &[bool; 16]) -> (r: Result<(), Fault>)
        requires
            self.well_formed(),
            old(cpu).wf(),
        ensures
            final(cpu).wf(),
            match exec_control(*self, old(cpu)@, keys@) {
                Ok(after) => r == Ok::<(), Fault>(()) && final(cpu)@ == after,
                Err(fault) => r == Err::<(), Fault>(fault) && final(cpu)@ == old(cpu)@,
            },
    {
        match *self {
            ControlInstruction::CLS() => {
                cpu.framebuffer.clear();
                cpu.advance(false);
            },
            ControlInstruction::RET() => {
                cpu.pc = cpu.stack.pop()?;
            },
            ControlInstruction::JP(jump) => {
                jump.execute(cpu);
            },
            ControlInstruction::CALL(address) => {
                cpu.stack.push(cpu.pc.wrapping_add(2))?;
                cpu.pc = address;
            },
            ControlInstruction::SE(skip) => {
                skip.execute(cpu);
            },
            ControlInstruction::SKP(skip) => {
                skip.execute(cpu, keys);
            },
            ControlInstruction::DRW(x, y, n) => {
                draw(cpu, x, y, n)?;
                cpu.advance(false);
            },
            ControlInstruction::NOP() => {
                cpu.advance(false);
            },
        }
        Ok(())
    }
}

impl Instruction {
    /// Executes the instruction on the machine. `keys` holds for each key of
    /// the pad whether it is held down; `random` is the byte that a random
    /// instruction draws.
    ///
    /// On success the state holds the effects of the instruction, the new
    /// program counter among them. The blocking key read has no effect: it
    /// reports that execution waits for a key. A fault leaves the state as
    /// it was.
    pub fn execute(&self, cpu: &mut State, keys: &[bool; 16], random: u8) -> (r: Result<
        Flow,
        Fault,
    >)
        requires
            self.well_formed(),
            old(cpu).wf(),
        ensures
            final(cpu).wf(),
            match exec_instruction(*self, old(cpu)@, keys@, random) {
                Ok(after) => r == Ok::<Flow, Fault>(flow_of(*self, after)) && final(cpu)@
                    == after,
                Err(fault) => r == Err::<Flow, Fault>(fault) && final(cpu)@ == old(cpu)@,
            },
    {
        match *self {
            Instruction::Control(control) => control.execute(cpu, keys)?,
            Instruction::Math(math) => math.execute(cpu, random)?,
        }
        match *self {
            Instruction::Math(MathInstruction::LD(LDInstruction::LDKey(x))) => Ok(
                Flow::AwaitKey(x),
            ),
            _ => Ok(Flow::Continue(cpu.pc)),
        }
    }
}

} // verus!
