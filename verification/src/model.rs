use crate::ast::decoder::{
    resolve, AddInstruction, ControlInstruction, DecodePolicy, Instruction, JPInstruction,
    LDInstruction, MathInstruction, SEInstruction, SKPInstruction,
};
use crate::common::{bit_of, Register};
use crate::engine::Flow;
use crate::fault::Fault;
use crate::framebuffer::{blank, PIXELS};
use crate::memory::{in_range, splice, word_at, MEMORY_SIZE};
use crate::stack::STACK_CAPACITY;
use vstd::prelude::*;

verus! {

/// The register that receives carry, borrow and collision results.
pub const FLAG: Register = 15;

/// Address of the glyph of the hexadecimal digit 0. The sixteen glyphs lie
/// one behind the other from there.
pub const FONT_BASE: u16 = 0x000;

/// Number of bytes, one per pixel row, in the glyph of a digit.
pub const GLYPH_BYTES: u16 = 5;

/// Number of keys on the pad.
pub const KEYS: usize = 16;

/// The machine as contracts see it: every part of the state as a plain
/// mathematical value.
#[verifier::ext_equal]
pub struct Machine {
    /// The 4096 bytes of memory.
    pub memory: Seq<u8>,
    /// The 2048 pixels, row by row.
    pub pixels: Seq<bool>,
    /// The sixteen general-purpose registers.
    pub registers: Seq<u8>,
    /// The index register.
    pub i: u16,
    /// The program counter.
    pub pc: u16,
    pub delay_timer: u8,
    pub sound_timer: u8,
    /// The return addresses, the oldest first.
    pub stack: Seq<u16>,
    pub policy: DecodePolicy,
}

/// `from` moved on by `by`, within sixteen bits.
pub open spec fn advance(from: u16, by: int) -> u16 {
    ((from + by) % 0x1_0000) as u16
}

/// `value` reduced to eight bits.
pub open spec fn low_byte(value: int) -> u8 {
    (value % 0x100) as u8
}

/// Whether the key numbered `key` is held down. A number above 15 names no
/// key, and no key is not held down.
pub open spec fn key_down(keys: Seq<bool>, key: u8) -> bool {
    key < KEYS && keys[key as int]
}

/// The hundreds, tens and ones of a byte.
pub open spec fn decimal_digits(value: u8) -> Seq<u8> {
    seq![value / 100, value / 10 % 10, value % 10]
}

/// Where the glyph for the low hexadecimal digit of `value` lies.
pub open spec fn glyph_address(value: u8) -> u16 {
    (FONT_BASE + GLYPH_BYTES * (value % 16)) as u16
}

impl Machine {
    /// The sizes of the parts are those of the machine.
    pub open spec fn valid(self) -> bool {
        &&& self.memory.len() == MEMORY_SIZE
        &&& self.pixels.len() == PIXELS
        &&& self.registers.len() == 16
        &&& self.stack.len() <= STACK_CAPACITY
    }

    /// The value of register `x`.
    pub open spec fn reg(self, x: Register) -> u8 {
        self.registers[x as int]
    }

    /// This machine with `value` in register `x`.
    pub open spec fn with_reg(self, x: Register, value: u8) -> Machine {
        Machine { registers: self.registers.update(x as int, value), ..self }
    }

    /// This machine with the flag register at 1 if `set`, else at 0.
    pub open spec fn with_flag(self, set: bool) -> Machine {
        self.with_reg(FLAG, if set { 1u8 } else { 0u8 })
    }

    /// This machine with the program counter at `pc`.
    pub open spec fn at(self, pc: u16) -> Machine {
        Machine { pc, ..self }
    }

    /// This machine with the program counter behind the current instruction.
    pub open spec fn next(self) -> Machine {
        self.at(advance(self.pc, 2))
    }

    /// This machine with the program counter behind the current instruction,
    /// or behind the one after it if `skip`.
    pub open spec fn skip_if(self, skip: bool) -> Machine {
        self.at(advance(self.pc, if skip { 4 } else { 2 }))
    }
}

/// Bit `col` from the left of sprite row `row`, where the sprite starts at
/// the index register.
pub open spec fn sprite_bit(m: Machine, row: int, col: int) -> bool {
    bit_of(m.memory[m.i + row] as nat, (7 - col) as nat) == 1
}

/// The sprite row that falls on pixel `k` when the sprite's upper edge is in
/// pixel row `oy`. The sprite wraps round at the lower edge of the display.
pub open spec fn sprite_row(oy: int, k: int) -> int {
    (k / 64 - oy) % 32
}

/// The sprite column that falls on pixel `k` when the sprite's left edge is
/// in pixel column `ox`. The sprite wraps round at the right edge of the
/// display.
pub open spec fn sprite_col(ox: int, k: int) -> int {
    (k % 64 - ox) % 64
}

/// Whether one of the first `rows` rows of the sprite, or one of the first
/// `cols` bits of the row after them, is set and falls on pixel `k`.
pub open spec fn covered(m: Machine, ox: int, oy: int, rows: int, cols: int, k: int) -> bool {
    let row = sprite_row(oy, k);
    let col = sprite_col(ox, k);
    &&& col < 8
    &&& row < rows || (row == rows && col < cols)
    &&& sprite_bit(m, row, col)
}

/// The pixels after that much of the sprite has been combined into them by
/// exclusive or.
pub open spec fn painted(m: Machine, ox: int, oy: int, rows: int, cols: int) -> Seq<bool> {
    Seq::new(PIXELS as nat, |k: int| m.pixels[k] != covered(m, ox, oy, rows, cols, k))
}

/// Whether that much of the sprite turns a lit pixel off.
pub open spec fn erases(m: Machine, ox: int, oy: int, rows: int, cols: int) -> bool {
    exists|k: int| 0 <= k < PIXELS && m.pixels[k] && #[trigger] covered(m, ox, oy, rows, cols, k)
}

/// Drawing the sprite of `n` rows at the index register, with its upper left
/// corner at the pixel that registers `x` and `y` name.
pub open spec fn exec_draw(m: Machine, x: Register, y: Register, n: u8) -> Result<Machine, Fault> {
    let ox = m.reg(x) % 64;
    let oy = m.reg(y) % 32;
    if !in_range(m.i as int, n as int) {
        Err(Fault::MemoryOutOfRange)
    } else {
        Ok(
            Machine { pixels: painted(m, ox as int, oy as int, n as int, 0), ..m }.with_flag(
                erases(m, ox as int, oy as int, n as int, 0),
            ).next(),
        )
    }
}

/// Jumps: to the address, or to the address plus register 0.
pub open spec fn exec_jump(jump: JPInstruction, m: Machine) -> Machine {
    match jump {
        JPInstruction::JPPlain(address) => m.at(address),
        JPInstruction::JPOffset(address) => m.at(advance(address, m.reg(0) as int)),
    }
}

/// Skips on registers: the program counter moves on by two instructions if
/// the condition holds, else by one.
pub open spec fn exec_skip(skip: SEInstruction, m: Machine) -> Machine {
    match skip {
        SEInstruction::SEPlain(x, kk) => m.skip_if(m.reg(x) == kk),
        SEInstruction::SNEPlain(x, kk) => m.skip_if(m.reg(x) != kk),
        SEInstruction::SERegister(x, y) => m.skip_if(m.reg(x) == m.reg(y)),
        SEInstruction::SNERegister(x, y) => m.skip_if(m.reg(x) != m.reg(y)),
    }
}

/// Skips on the key that a register names.
pub open spec fn exec_key_skip(skip: SKPInstruction, m: Machine, keys: Seq<bool>) -> Machine {
    match skip {
        SKPInstruction::SKPPlain(x) => m.skip_if(key_down(keys, m.reg(x))),
        SKPInstruction::SKNP(x) => m.skip_if(!key_down(keys, m.reg(x))),
    }
}

/// The registers after the registers 0 to `x` were loaded from memory at the
/// index register.
pub open spec fn reloaded(m: Machine, x: Register) -> Seq<u8> {
    Seq::new(
        16,
        |k: int|
            if k <= x {
                m.memory[m.i + k]
            } else {
                m.registers[k]
            },
    )
}

/// Loads. The blocking key read changes nothing: the key arrives later.
/// Register dump and load leave the index register as it is.
pub open spec fn exec_load(load: LDInstruction, m: Machine) -> Result<Machine, Fault> {
    match load {
        LDInstruction::LDPlain(x, kk) => Ok(m.with_reg(x, kk).next()),
        LDInstruction::LDRegister(x, y) => Ok(m.with_reg(x, m.reg(y)).next()),
        LDInstruction::LDI(address) => Ok(Machine { i: address, ..m }.next()),
        LDInstruction::LDRDelay(x) => Ok(m.with_reg(x, m.delay_timer).next()),
        LDInstruction::LDKey(_) => Ok(m),
        LDInstruction::LDDelay(x) => Ok(Machine { delay_timer: m.reg(x), ..m }.next()),
        LDInstruction::LDSound(x) => Ok(Machine { sound_timer: m.reg(x), ..m }.next()),
        LDInstruction::LDSpritePos(x) => Ok(Machine { i: glyph_address(m.reg(x)), ..m }.next()),
        LDInstruction::LDBCD(x) => if in_range(m.i as int, 3) {
            Ok(
                Machine {
                    memory: splice(m.memory, m.i as int, decimal_digits(m.reg(x))),
                    ..m
                }.next(),
            )
        } else {
            Err(Fault::MemoryOutOfRange)
        },
        LDInstruction::LDRegDump(x) => if in_range(m.i as int, x + 1) {
            Ok(
                Machine {
                    memory: splice(m.memory, m.i as int, m.registers.take(x + 1)),
                    ..m
                }.next(),
            )
        } else {
            Err(Fault::MemoryOutOfRange)
        },
        LDInstruction::LDRegLoad(x) => if in_range(m.i as int, x + 1) {
            Ok(Machine { registers: reloaded(m, x), ..m }.next())
        } else {
            Err(Fault::MemoryOutOfRange)
        },
    }
}

/// Additions. Only the sum of two registers sets the flag, to 1 if the sum
/// does not fit in eight bits.
pub open spec fn exec_add(add: AddInstruction, m: Machine) -> Machine {
    match add {
        AddInstruction::ADDRegister(x, y) => m.with_reg(x, low_byte(m.reg(x) + m.reg(y))).with_flag(
            m.reg(x) + m.reg(y) > 0xFF,
        ).next(),
        AddInstruction::ADDPlain(x, kk) => m.with_reg(x, low_byte(m.reg(x) + kk)).next(),
        AddInstruction::ADDI(x) => Machine { i: advance(m.i, m.reg(x) as int), ..m }.next(),
    }
}

/// Data instructions. Where an instruction sets the flag register, the flag
/// is written after the result, so that the flag stands if both go to
/// register 15. The bitwise operations leave the flag as it is. The shifts
/// shift the first register in place and do not read the second.
pub open spec fn exec_math(math: MathInstruction, m: Machine, random: u8) -> Result<
    Machine,
    Fault,
> {
    match math {
        MathInstruction::LD(load) => exec_load(load, m),
        MathInstruction::OR(x, y) => Ok(m.with_reg(x, m.reg(x) | m.reg(y)).next()),
        MathInstruction::AND(x, y) => Ok(m.with_reg(x, m.reg(x) & m.reg(y)).next()),
        MathInstruction::XOR(x, y) => Ok(m.with_reg(x, m.reg(x) ^ m.reg(y)).next()),
        MathInstruction::ADD(add) => Ok(exec_add(add, m)),
        MathInstruction::SUB(x, y) => Ok(
            m.with_reg(x, low_byte(m.reg(x) - m.reg(y))).with_flag(m.reg(x) >= m.reg(y)).next(),
        ),
        MathInstruction::SHR(x, _) => Ok(
            m.with_reg(x, m.reg(x) / 2).with_flag(m.reg(x) % 2 == 1).next(),
        ),
        MathInstruction::SUBN(x, y) => Ok(
            m.with_reg(x, low_byte(m.reg(y) - m.reg(x))).with_flag(m.reg(y) >= m.reg(x)).next(),
        ),
        MathInstruction::SHL(x, _) => Ok(
            m.with_reg(x, low_byte(m.reg(x) * 2)).with_flag(m.reg(x) >= 0x80).next(),
        ),
        MathInstruction::RND(x, kk) => Ok(m.with_reg(x, random & kk).next()),
    }
}

/// Control instructions. A call stores the address behind itself; a return
/// goes on there.
pub open spec fn exec_control(control: ControlInstruction, m: Machine, keys: Seq<bool>) -> Result<
    Machine,
    Fault,
> {
    match control {
        ControlInstruction::CLS() => Ok(Machine { pixels: blank(), ..m }.next()),
        ControlInstruction::RET() => if m.stack.len() == 0 {
            Err(Fault::StackUnderflow)
        } else {
            Ok(Machine { stack: m.stack.drop_last(), ..m }.at(m.stack.last()))
        },
        ControlInstruction::JP(jump) => Ok(exec_jump(jump, m)),
        ControlInstruction::CALL(address) => if m.stack.len() >= STACK_CAPACITY {
            Err(Fault::StackOverflow)
        } else {
            Ok(Machine { stack: m.stack.push(advance(m.pc, 2)), ..m }.at(address))
        },
        ControlInstruction::SE(skip) => Ok(exec_skip(skip, m)),
        ControlInstruction::SKP(skip) => Ok(exec_key_skip(skip, m, keys)),
        ControlInstruction::DRW(x, y, n) => exec_draw(m, x, y, n),
        ControlInstruction::NOP() => Ok(m.next()),
    }
}

/// The machine after an instruction, or the fault that the instruction
/// raises.
pub open spec fn exec_instruction(
    instruction: Instruction,
    m: Machine,
    keys: Seq<bool>,
    random: u8,
) -> Result<Machine, Fault> {
    match instruction {
        Instruction::Control(control) => exec_control(control, m, keys),
        Instruction::Math(math) => exec_math(math, m, random),
    }
}

/// How execution goes on after an instruction that left the machine as
/// `after`.
pub open spec fn flow_of(instruction: Instruction, after: Machine) -> Flow {
    match instruction {
        Instruction::Math(MathInstruction::LD(LDInstruction::LDKey(x))) => Flow::AwaitKey(x),
        _ => Flow::Continue(after.pc),
    }
}

/// The opcode at the program counter.
pub open spec fn fetched(m: Machine) -> Result<u16, Fault> {
    if in_range(m.pc as int, 2) {
        Ok(word_at(m.memory, m.pc as int) as u16)
    } else {
        Err(Fault::MemoryOutOfRange)
    }
}

/// The instruction at the program counter, decoded under the machine's
/// policy.
pub open spec fn current_instruction(m: Machine) -> Result<Instruction, Fault> {
    match fetched(m) {
        Ok(opcode) => resolve(m.policy, opcode),
        Err(fault) => Err(fault),
    }
}

/// One whole step: fetch, decode, execute.
pub open spec fn exec_step(m: Machine, keys: Seq<bool>, random: u8) -> Result<Machine, Fault> {
    match current_instruction(m) {
        Ok(instruction) => exec_instruction(instruction, m, keys, random),
        Err(fault) => Err(fault),
    }
}

/// How execution goes on after a step that left the machine as `after`.
pub open spec fn step_flow(m: Machine, after: Machine) -> Flow {
    match current_instruction(m) {
        Ok(instruction) => flow_of(instruction, after),
        Err(_) => Flow::Continue(after.pc),
    }
}

} // verus!
