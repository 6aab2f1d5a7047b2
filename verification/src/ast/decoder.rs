use crate::common::{Address, BinOps, Byte, DualWord, Nibble, Register};
use crate::fault::Fault;
use vstd::arithmetic::div_mod::{
    lemma_div_denominator, lemma_fundamental_div_mod, lemma_fundamental_div_mod_converse,
};
use vstd::arithmetic::power2::lemma2_to64;
use vstd::prelude::*;

verus! {

/// Jumps. The target of `JPOffset` is its address plus register 0.
#[derive(Debug, Clone, Copy, PartialEq, Eq, Structural)]
pub enum JPInstruction {
    JPPlain(Address),
    JPOffset(Address),
}

/// Conditional skips on a register, against an immediate or another
/// register.
#[derive(Debug, Clone, Copy, PartialEq, Eq, Structural)]
pub enum SEInstruction {
    SEPlain(Register, Byte),
    SNEPlain(Register, Byte),
    SERegister(Register, Register),
    SNERegister(Register, Register),
}

/// Conditional skips on the key that a register names: `SKPPlain` skips if
/// it is pressed, `SKNP` if it is not.
#[derive(Debug, Clone, Copy, PartialEq, Eq, Structural)]
pub enum SKPInstruction {
    SKPPlain(Register),
    SKNP(Register),
}

/// Loads. `LDRDelay` reads the delay timer into a register; `LDDelay` and
/// `LDSound` set a timer from a register.
#[derive(Debug, Clone, Copy, PartialEq, Eq, Structural)]
pub enum LDInstruction {
    LDPlain(Register, Byte),
    LDRegister(Register, Register),
    LDI(DualWord),
    LDRDelay(Register),
    LDKey(Register),
    LDDelay(Register),
    LDSound(Register),
    LDSpritePos(Register),
    LDBCD(Register),
    LDRegDump(Register),
    LDRegLoad(Register),
}

/// Instructions that steer control flow or draw.
#[derive(Debug, Clone, Copy, PartialEq, Eq, Structural)]
pub enum ControlInstruction {
    CLS(),
    RET(),
    JP(JPInstruction),
    CALL(Address),
    SE(SEInstruction),
    SKP(SKPInstruction),
    DRW(Register, Register, Nibble),
    NOP(),
}

/// Additions: register to register (with carry flag), immediate to
/// register, register to the index register.
#[derive(Debug, Clone, Copy, PartialEq, Eq, Structural)]
pub enum AddInstruction {
    ADDRegister(Register, Register),
    ADDPlain(Register, Byte),
    ADDI(Register),
}

/// Instructions that move or compute data.
#[derive(Debug, Clone, Copy, PartialEq, Eq, Structural)]
pub enum MathInstruction {
    LD(LDInstruction),
    OR(Register, Register),
    AND(Register, Register),
    XOR(Register, Register),
    ADD(AddInstruction),
    SUB(Register, Register),
    SHR(Register, Register),
    SUBN(Register, Register),
    SHL(Register, Register),
    RND(Register, Byte),
}

/// A decoded instruction.
#[derive(Debug, Clone, Copy, PartialEq, Eq, Structural)]
pub enum Instruction {
    Control(ControlInstruction),
    Math(MathInstruction),
}

/// What to do with an opcode outside the instruction set. A machine is given
/// its policy when it is built and keeps it.
#[derive(Debug, Clone, Copy, PartialEq, Eq, Structural)]
pub enum DecodePolicy {
    /// The opcode is a fault.
    Strict,
    /// The opcode stands for a no-op.
    Lenient,
}

/// The `x` of an opcode `_x__`.
pub open spec fn op_x(opcode: u16) -> u8 {
    (opcode / 0x100 % 0x10) as u8
}

/// The `y` of an opcode `__y_`.
pub open spec fn op_y(opcode: u16) -> u8 {
    (opcode / 0x10 % 0x10) as u8
}

/// The `n` of an opcode `___n`.
pub open spec fn op_n(opcode: u16) -> u8 {
    (opcode % 0x10) as u8
}

/// The `kk` of an opcode `__kk`.
pub open spec fn op_kk(opcode: u16) -> u8 {
    (opcode % 0x100) as u8
}

/// The `nnn` of an opcode `_nnn`.
pub open spec fn op_nnn(opcode: u16) -> u16 {
    (opcode % 0x1000) as u16
}

/// The register-to-register family `8xy_`, keyed by the low nibble.
pub open spec fn recognize_alu(opcode: u16) -> Option<MathInstruction> {
    let x = op_x(opcode);
    let y = op_y(opcode);
    let n = op_n(opcode);
    if n == 0x0 {
        Some(MathInstruction::LD(LDInstruction::LDRegister(x, y)))
    } else if n == 0x1 {
        Some(MathInstruction::OR(x, y))
    } else if n == 0x2 {
        Some(MathInstruction::AND(x, y))
    } else if n == 0x3 {
        Some(MathInstruction::XOR(x, y))
    } else if n == 0x4 {
        Some(MathInstruction::ADD(AddInstruction::ADDRegister(x, y)))
    } else if n == 0x5 {
        Some(MathInstruction::SUB(x, y))
    } else if n == 0x6 {
        Some(MathInstruction::SHR(x, y))
    } else if n == 0x7 {
        Some(MathInstruction::SUBN(x, y))
    } else if n == 0xE {
        Some(MathInstruction::SHL(x, y))
    } else {
        None
    }
}

/// The family `Fx__`, keyed by the low byte. `Fx07` reads the delay timer,
/// `Fx15` sets it and `Fx18` sets the sound timer, so that no two of the
/// three share a decoded form.
pub open spec fn recognize_misc(opcode: u16) -> Option<MathInstruction> {
    let x = op_x(opcode);
    let kk = op_kk(opcode);
    if kk == 0x07 {
        Some(MathInstruction::LD(LDInstruction::LDRDelay(x)))
    } else if kk == 0x0A {
        Some(MathInstruction::LD(LDInstruction::LDKey(x)))
    } else if kk == 0x15 {
        Some(MathInstruction::LD(LDInstruction::LDDelay(x)))
    } else if kk == 0x18 {
        Some(MathInstruction::LD(LDInstruction::LDSound(x)))
    } else if kk == 0x1E {
        Some(MathInstruction::ADD(AddInstruction::ADDI(x)))
    } else if kk == 0x29 {
        Some(MathInstruction::LD(LDInstruction::LDSpritePos(x)))
    } else if kk == 0x33 {
        Some(MathInstruction::LD(LDInstruction::LDBCD(x)))
    } else if kk == 0x55 {
        Some(MathInstruction::LD(LDInstruction::LDRegDump(x)))
    } else if kk == 0x65 {
        Some(MathInstruction::LD(LDInstruction::LDRegLoad(x)))
    } else {
        None
    }
}

/// The instruction that an opcode encodes, if it encodes one. The high
/// nibble selects the family; the families `0`, `8`, `E` and `F` are keyed
/// further by the low nibble or byte. The low nibble of the families `5`
/// and `9` is not examined.
pub open spec fn recognize(opcode: u16) -> Option<Instruction> {
    let family = opcode / 0x1000;
    let x = op_x(opcode);
    let y = op_y(opcode);
    let kk = op_kk(opcode);
    let nnn = op_nnn(opcode);
    if family == 0x0 {
        if opcode == 0x00E0 {
            Some(Instruction::Control(ControlInstruction::CLS()))
        } else if opcode == 0x00EE {
            Some(Instruction::Control(ControlInstruction::RET()))
        } else {
            None
        }
    } else if family == 0x1 {
        Some(Instruction::Control(ControlInstruction::JP(JPInstruction::JPPlain(nnn))))
    } else if family == 0x2 {
        Some(Instruction::Control(ControlInstruction::CALL(nnn)))
    } else if family == 0x3 {
        Some(Instruction::Control(ControlInstruction::SE(SEInstruction::SEPlain(x, kk))))
    } else if family == 0x4 {
        Some(Instruction::Control(ControlInstruction::SE(SEInstruction::SNEPlain(x, kk))))
    } else if family == 0x5 {
        Some(Instruction::Control(ControlInstruction::SE(SEInstruction::SERegister(x, y))))
    } else if family == 0x6 {
        Some(Instruction::Math(MathInstruction::LD(LDInstruction::LDPlain(x, kk))))
    } else if family == 0x7 {
        Some(Instruction::Math(MathInstruction::ADD(AddInstruction::ADDPlain(x, kk))))
    } else if family == 0x8 {
        match recognize_alu(opcode) {
            Some(math) => Some(Instruction::Math(math)),
            None => None,
        }
    } else if family == 0x9 {
        Some(Instruction::Control(ControlInstruction::SE(SEInstruction::SNERegister(x, y))))
    } else if family == 0xA {
        Some(Instruction::Math(MathInstruction::LD(LDInstruction::LDI(nnn))))
    } else if family == 0xB {
        Some(Instruction::Control(ControlInstruction::JP(JPInstruction::JPOffset(nnn))))
    } else if family == 0xC {
        Some(Instruction::Math(MathInstruction::RND(x, kk)))
    } else if family == 0xD {
        Some(Instruction::Control(ControlInstruction::DRW(x, y, op_n(opcode))))
    } else if family == 0xE {
        if kk == 0x9E {
            Some(Instruction::Control(ControlInstruction::SKP(SKPInstruction::SKPPlain(x))))
        } else if kk == 0xA1 {
            Some(Instruction::Control(ControlInstruction::SKP(SKPInstruction::SKNP(x))))
        } else {
            None
        }
    } else {
        match recognize_misc(opcode) {
            Some(math) => Some(Instruction::Math(math)),
            None => None,
        }
    }
}

/// The instruction that an opcode stands for when opcodes outside the
/// instruction set stand for a no-op.
pub open spec fn decoded(opcode: u16) -> Instruction {
    match recognize(opcode) {
        Some(instruction) => instruction,
        None => Instruction::Control(ControlInstruction::NOP()),
    }
}

/// What decoding an opcode gives under a policy.
pub open spec fn resolve(policy: DecodePolicy, opcode: u16) -> Result<Instruction, Fault> {
    match recognize(opcode) {
        Some(instruction) => Ok(instruction),
        None => match policy {
            DecodePolicy::Strict => Err(Fault::UnknownOpcode(opcode)),
            DecodePolicy::Lenient => Ok(Instruction::Control(ControlInstruction::NOP())),
        },
    }
}

/// The opcode of the form `f x y n`, each a nibble.
pub open spec fn opcode_xyn(family: int, x: u8, y: u8, n: int) -> u16 {
    (family * 0x1000 + x * 0x100 + y * 0x10 + n) as u16
}

/// The opcode of the form `f x kk`.
pub open spec fn opcode_xkk(family: int, x: u8, kk: u8) -> u16 {
    (family * 0x1000 + x * 0x100 + kk) as u16
}

/// The opcode of the form `f nnn`.
pub open spec fn opcode_nnn(family: int, nnn: u16) -> u16 {
    (family * 0x1000 + nnn) as u16
}

/// The opcode that encodes an instruction. The no-op has no opcode of its
/// own: it stands for every opcode outside the instruction set, and is
/// given the first of them.
pub open spec fn encoding(instruction: Instruction) -> u16 {
    match instruction {
        Instruction::Control(control) => match control {
            ControlInstruction::CLS() => 0x00E0,
            ControlInstruction::RET() => 0x00EE,
            ControlInstruction::JP(JPInstruction::JPPlain(nnn)) => opcode_nnn(0x1, nnn),
            ControlInstruction::JP(JPInstruction::JPOffset(nnn)) => opcode_nnn(0xB, nnn),
            ControlInstruction::CALL(nnn) => opcode_nnn(0x2, nnn),
            ControlInstruction::SE(SEInstruction::SEPlain(x, kk)) => opcode_xkk(0x3, x, kk),
            ControlInstruction::SE(SEInstruction::SNEPlain(x, kk)) => opcode_xkk(0x4, x, kk),
            ControlInstruction::SE(SEInstruction::SERegister(x, y)) => opcode_xyn(0x5, x, y, 0),
            ControlInstruction::SE(SEInstruction::SNERegister(x, y)) => opcode_xyn(0x9, x, y, 0),
            ControlInstruction::SKP(SKPInstruction::SKPPlain(x)) => opcode_xkk(0xE, x, 0x9E),
            ControlInstruction::SKP(SKPInstruction::SKNP(x)) => opcode_xkk(0xE, x, 0xA1),
            ControlInstruction::DRW(x, y, n) => opcode_xyn(0xD, x, y, n as int),
            ControlInstruction::NOP() => 0x0000,
        },
        Instruction::Math(math) => match math {
            MathInstruction::LD(load) => match load {
                LDInstruction::LDPlain(x, kk) => opcode_xkk(0x6, x, kk),
                LDInstruction::LDRegister(x, y) => opcode_xyn(0x8, x, y, 0x0),
                LDInstruction::LDI(nnn) => opcode_nnn(0xA, nnn),
                LDInstruction::LDRDelay(x) => opcode_xkk(0xF, x, 0x07),
                LDInstruction::LDKey(x) => opcode_xkk(0xF, x, 0x0A),
                LDInstruction::LDDelay(x) => opcode_xkk(0xF, x, 0x15),
                LDInstruction::LDSound(x) => opcode_xkk(0xF, x, 0x18),
                LDInstruction::LDSpritePos(x) => opcode_xkk(0xF, x, 0x29),
                LDInstruction::LDBCD(x) => opcode_xkk(0xF, x, 0x33),
                LDInstruction::LDRegDump(x) => opcode_xkk(0xF, x, 0x55),
                LDInstruction::LDRegLoad(x) => opcode_xkk(0xF, x, 0x65),
            },
            MathInstruction::OR(x, y) => opcode_xyn(0x8, x, y, 0x1),
            MathInstruction::AND(x, y) => opcode_xyn(0x8, x, y, 0x2),
            MathInstruction::XOR(x, y) => opcode_xyn(0x8, x, y, 0x3),
            MathInstruction::ADD(AddInstruction::ADDRegister(x, y)) => opcode_xyn(0x8, x, y, 0x4),
            MathInstruction::ADD(AddInstruction::ADDPlain(x, kk)) => opcode_xkk(0x7, x, kk),
            MathInstruction::ADD(AddInstruction::ADDI(x)) => opcode_xkk(0xF, x, 0x1E),
            MathInstruction::SUB(x, y) => opcode_xyn(0x8, x, y, 0x5),
            MathInstruction::SHR(x, y) => opcode_xyn(0x8, x, y, 0x6),
            MathInstruction::SUBN(x, y) => opcode_xyn(0x8, x, y, 0x7),
            MathInstruction::SHL(x, y) => opcode_xyn(0x8, x, y, 0xE),
            MathInstruction::RND(x, kk) => opcode_xkk(0xC, x, kk),
        },
    }
}

/// An opcode without what decoding does not examine: the low nibble of the
/// register comparisons `5xy_` and `9xy_`.
pub open spec fn examined(opcode: u16) -> u16 {
    if opcode / 0x1000 == 0x5 || opcode / 0x1000 == 0x9 {
        (opcode - opcode % 0x10) as u16
    } else {
        opcode
    }
}

/// The fields of an opcode put together from nibbles are those nibbles.
proof fn lemma_fields_xyn(family: int, x: u8, y: u8, n: int)
    requires
        0 <= family < 16,
        x < 16,
        y < 16,
        0 <= n < 16,
    ensures
        ({
            let opcode = opcode_xyn(family, x, y, n);
            &&& opcode / 0x1000 == family
            &&& op_x(opcode) == x
            &&& op_y(opcode) == y
            &&& op_n(opcode) == n
            &&& examined(opcode) == opcode_xyn(family, x, y, if family == 5 || family == 9 {
                0
            } else {
                n
            })
        }),
{
    let opcode = family * 0x1000 + x * 0x100 + y * 0x10 + n;
    lemma_fundamental_div_mod_converse(opcode, 0x1000, family, x * 0x100 + y * 0x10 + n);
    lemma_fundamental_div_mod_converse(opcode, 0x100, family * 0x10 + x, y * 0x10 + n);
    lemma_fundamental_div_mod_converse(family * 0x10 + x, 0x10, family, x as int);
    lemma_fundamental_div_mod_converse(opcode, 0x10, family * 0x100 + x * 0x10 + y, n);
    lemma_fundamental_div_mod_converse(
        family * 0x100 + x * 0x10 + y,
        0x10,
        family * 0x10 + x,
        y as int,
    );
}

/// The fields of an opcode put together from a nibble and a byte are those.
proof fn lemma_fields_xkk(family: int, x: u8, kk: u8)
    requires
        0 <= family < 16,
        x < 16,
    ensures
        ({
            let opcode = opcode_xkk(family, x, kk);
            &&& opcode / 0x1000 == family
            &&& op_x(opcode) == x
            &&& op_kk(opcode) == kk
        }),
{
    let opcode = family * 0x1000 + x * 0x100 + kk;
    lemma_fundamental_div_mod_converse(opcode, 0x1000, family, x * 0x100 + kk);
    lemma_fundamental_div_mod_converse(opcode, 0x100, family * 0x10 + x, kk as int);
    lemma_fundamental_div_mod_converse(family * 0x10 + x, 0x10, family, x as int);
}

/// The fields of an opcode put together from a family and an address are
/// those.
proof fn lemma_fields_nnn(family: int, nnn: u16)
    requires
        0 <= family < 16,
        nnn < 0x1000,
    ensures
        ({
            let opcode = opcode_nnn(family, nnn);
            &&& opcode / 0x1000 == family
            &&& op_nnn(opcode) == nnn
        }),
{
    lemma_fundamental_div_mod_converse(family * 0x1000 + nnn, 0x1000, family, nnn as int);
}

/// An opcode is its fields put together, in each of the three forms.
proof fn lemma_opcode_parts(opcode: u16)
    ensures
        0 <= opcode / 0x1000 < 16,
        op_x(opcode) < 16,
        op_y(opcode) < 16,
        op_n(opcode) < 16,
        op_nnn(opcode) < 0x1000,
        opcode == opcode_xyn(
            opcode as int / 0x1000,
            op_x(opcode),
            op_y(opcode),
            op_n(opcode) as int,
        ),
        opcode == opcode_xkk(opcode as int / 0x1000, op_x(opcode), op_kk(opcode)),
        opcode == opcode_nnn(opcode as int / 0x1000, op_nnn(opcode)),
        op_kk(opcode) == op_y(opcode) * 0x10 + op_n(opcode),
{
    let whole = opcode as int;
    lemma_fundamental_div_mod(whole, 0x1000);
    lemma_fundamental_div_mod(whole, 0x100);
    lemma_fundamental_div_mod(whole, 0x10);
    lemma_fundamental_div_mod(whole / 0x100, 0x10);
    lemma_fundamental_div_mod(whole / 0x10, 0x10);
    lemma_div_denominator(whole, 0x100, 0x10);
    lemma_div_denominator(whole, 0x10, 0x10);
    lemma_fundamental_div_mod_converse(
        whole % 0x100,
        0x10,
        whole / 0x10 % 0x10,
        whole % 0x10,
    );
}

impl JPInstruction {
    pub open spec fn well_formed(&self) -> bool {
        match *self {
            JPInstruction::JPPlain(address) => address < 0x1000,
            JPInstruction::JPOffset(address) => address < 0x1000,
        }
    }
}

impl SEInstruction {
    pub open spec fn well_formed(&self) -> bool {
        match *self {
            SEInstruction::SEPlain(x, _) => x < 16,
            SEInstruction::SNEPlain(x, _) => x < 16,
            SEInstruction::SERegister(x, y) => x < 16 && y < 16,
            SEInstruction::SNERegister(x, y) => x < 16 && y < 16,
        }
    }
}

impl SKPInstruction {
    pub open spec fn well_formed(&self) -> bool {
        match *self {
            SKPInstruction::SKPPlain(x) => x < 16,
            SKPInstruction::SKNP(x) => x < 16,
        }
    }
}

impl LDInstruction {
    pub open spec fn well_formed(&self) -> bool {
        match *self {
            LDInstruction::LDPlain(x, _) => x < 16,
            LDInstruction::LDRegister(x, y) => x < 16 && y < 16,
            LDInstruction::LDI(address) => address < 0x1000,
            LDInstruction::LDRDelay(x) => x < 16,
            LDInstruction::LDKey(x) => x < 16,
            LDInstruction::LDDelay(x) => x < 16,
            LDInstruction::LDSound(x) => x < 16,
            LDInstruction::LDSpritePos(x) => x < 16,
            LDInstruction::LDBCD(x) => x < 16,
            LDInstruction::LDRegDump(x) => x < 16,
            LDInstruction::LDRegLoad(x) => x < 16,
        }
    }
}

impl ControlInstruction {
    pub open spec fn well_formed(&self) -> bool {
        match *self {
            ControlInstruction::CLS() => true,
            ControlInstruction::RET() => true,
            ControlInstruction::JP(jump) => jump.well_formed(),
            ControlInstruction::CALL(address) => address < 0x1000,
            ControlInstruction::SE(skip) => skip.well_formed(),
            ControlInstruction::SKP(skip) => skip.well_formed(),
            ControlInstruction::DRW(x, y, n) => x < 16 && y < 16 && n < 16,
            ControlInstruction::NOP() => true,
        }
    }
}

impl AddInstruction {
    pub open spec fn well_formed(&self) -> bool {
        match *self {
            AddInstruction::ADDRegister(x, y) => x < 16 && y < 16,
            AddInstruction::ADDPlain(x, _) => x < 16,
            AddInstruction::ADDI(x) => x < 16,
        }
    }
}

impl MathInstruction {
    pub open spec fn well_formed(&self) -> bool {
        match *self {
            MathInstruction::LD(load) => load.well_formed(),
            MathInstruction::OR(x, y) => x < 16 && y < 16,
            MathInstruction::AND(x, y) => x < 16 && y < 16,
            MathInstruction::XOR(x, y) => x < 16 && y < 16,
            MathInstruction::ADD(add) => add.well_formed(),
            MathInstruction::SUB(x, y) => x < 16 && y < 16,
            MathInstruction::SHR(x, y) => x < 16 && y < 16,
            MathInstruction::SUBN(x, y) => x < 16 && y < 16,
            MathInstruction::SHL(x, y) => x < 16 && y < 16,
            MathInstruction::RND(x, _) => x < 16,
        }
    }
}

impl Instruction {
    /// Whether every register operand names one of the sixteen registers,
    /// every address has twelve bits and every size four.
    pub open spec fn well_formed(&self) -> bool {
        match *self {
            Instruction::Control(control) => control.well_formed(),
            Instruction::Math(math) => math.well_formed(),
        }
    }

    /// Every instruction that an opcode encodes is well formed.
    pub proof fn lemma_recognized_well_formed(opcode: u16)
        ensures
            recognize(opcode) matches Some(instruction) ==> instruction.well_formed(),
            decoded(opcode).well_formed(),
    {
    }

    /// Decoding undoes encoding: every well-formed instruction is what its
    /// opcode decodes to, so that no instruction lacks an opcode.
    pub proof fn lemma_decode_encoding(instruction: Instruction)
        requires
            instruction.well_formed(),
        ensures
            decoded(encoding(instruction)) == instruction,
            instruction != Instruction::Control(ControlInstruction::NOP()) ==> recognize(
                encoding(instruction),
            ) == Some(instruction),
    {
        match instruction {
            Instruction::Control(control) => match control {
                ControlInstruction::CLS() => {},
                ControlInstruction::RET() => {},
                ControlInstruction::NOP() => {},
                ControlInstruction::JP(JPInstruction::JPPlain(nnn)) => lemma_fields_nnn(0x1, nnn),
                ControlInstruction::JP(JPInstruction::JPOffset(nnn)) => lemma_fields_nnn(0xB, nnn),
                ControlInstruction::CALL(nnn) => lemma_fields_nnn(0x2, nnn),
                ControlInstruction::SE(SEInstruction::SEPlain(x, kk)) => lemma_fields_xkk(
                    0x3,
                    x,
                    kk,
                ),
                ControlInstruction::SE(SEInstruction::SNEPlain(x, kk)) => lemma_fields_xkk(
                    0x4,
                    x,
                    kk,
                ),
                ControlInstruction::SE(SEInstruction::SERegister(x, y)) => lemma_fields_xyn(
                    0x5,
                    x,
                    y,
                    0,
                ),
                ControlInstruction::SE(SEInstruction::SNERegister(x, y)) => lemma_fields_xyn(
                    0x9,
                    x,
                    y,
                    0,
                ),
                ControlInstruction::SKP(SKPInstruction::SKPPlain(x)) => lemma_fields_xkk(
                    0xE,
                    x,
                    0x9E,
                ),
                ControlInstruction::SKP(SKPInstruction::SKNP(x)) => lemma_fields_xkk(0xE, x, 0xA1),
                ControlInstruction::DRW(x, y, n) => lemma_fields_xyn(0xD, x, y, n as int),
            },
            Instruction::Math(math) => Self::lemma_decode_encoding_math(math),
        }
    }

    /// The data instructions' share of `lemma_decode_encoding`.
    proof fn lemma_decode_encoding_math(math: MathInstruction)
        requires
            math.well_formed(),
        ensures
            recognize(encoding(Instruction::Math(math))) == Some(Instruction::Math(math)),
    {
        match math {
            MathInstruction::LD(load) => match load {
                LDInstruction::LDPlain(x, kk) => lemma_fields_xkk(0x6, x, kk),
                LDInstruction::LDRegister(x, y) => lemma_fields_xyn(0x8, x, y, 0x0),
                LDInstruction::LDI(nnn) => lemma_fields_nnn(0xA, nnn),
                LDInstruction::LDRDelay(x) => lemma_fields_xkk(0xF, x, 0x07),
                LDInstruction::LDKey(x) => lemma_fields_xkk(0xF, x, 0x0A),
                LDInstruction::LDDelay(x) => lemma_fields_xkk(0xF, x, 0x15),
                LDInstruction::LDSound(x) => lemma_fields_xkk(0xF, x, 0x18),
                LDInstruction::LDSpritePos(x) => lemma_fields_xkk(0xF, x, 0x29),
                LDInstruction::LDBCD(x) => lemma_fields_xkk(0xF, x, 0x33),
                LDInstruction::LDRegDump(x) => lemma_fields_xkk(0xF, x, 0x55),
                LDInstruction::LDRegLoad(x) => lemma_fields_xkk(0xF, x, 0x65),
            },
            MathInstruction::OR(x, y) => lemma_fields_xyn(0x8, x, y, 0x1),
            MathInstruction::AND(x, y) => lemma_fields_xyn(0x8, x, y, 0x2),
            MathInstruction::XOR(x, y) => lemma_fields_xyn(0x8, x, y, 0x3),
            MathInstruction::ADD(AddInstruction::ADDRegister(x, y)) => lemma_fields_xyn(
                0x8,
                x,
                y,
                0x4,
            ),
            MathInstruction::ADD(AddInstruction::ADDPlain(x, kk)) => lemma_fields_xkk(0x7, x, kk),
            MathInstruction::ADD(AddInstruction::ADDI(x)) => lemma_fields_xkk(0xF, x, 0x1E),
            MathInstruction::SUB(x, y) => lemma_fields_xyn(0x8, x, y, 0x5),
            MathInstruction::SHR(x, y) => lemma_fields_xyn(0x8, x, y, 0x6),
            MathInstruction::SUBN(x, y) => lemma_fields_xyn(0x8, x, y, 0x7),
            MathInstruction::SHL(x, y) => lemma_fields_xyn(0x8, x, y, 0xE),
            MathInstruction::RND(x, kk) => lemma_fields_xkk(0xC, x, kk),
        }
    }

    /// Encoding undoes decoding: an opcode of the instruction set is the
    /// opcode of its instruction, but for the nibble that decoding does not
    /// examine. So two opcodes share a decoded form only if they differ in
    /// nothing else.
    pub proof fn lemma_encode_decoding(opcode: u16)
        ensures
            recognize(opcode) matches Some(instruction) ==> encoding(instruction) == examined(
                opcode,
            ),
    {
        lemma_opcode_parts(opcode);
        let family = opcode as int / 0x1000;
        if family == 0x5 || family == 0x9 {
            lemma_fields_xyn(family, op_x(opcode), op_y(opcode), op_n(opcode) as int);
        }
    }

    /// Under the lenient policy decoding never fails; under the strict one
    /// it fails on exactly the opcodes outside the instruction set. Either
    /// way an opcode of the instruction set gives its one instruction.
    pub proof fn lemma_decoding_is_total(opcode: u16)
        ensures
            resolve(DecodePolicy::Lenient, opcode) == Ok::<Instruction, Fault>(decoded(opcode)),
            resolve(DecodePolicy::Strict, opcode) is Err <==> recognize(opcode) is None,
            recognize(opcode) matches Some(instruction) ==> resolve(DecodePolicy::Strict, opcode)
                == Ok::<Instruction, Fault>(instruction) && decoded(opcode) == instruction,
    {
    }

    /// Decodes an opcode, or says that it encodes no instruction.
    pub fn try_decode(opcode: u16) -> (r: Option<Instruction>)
        ensures
            r == recognize(opcode),
            r matches Some(instruction) ==> instruction.well_formed(),
    {
        let family = opcode.get_nibble(0);
        let x = opcode.get_nibble(1);
        let y = opcode.get_nibble(2);
        let n = opcode.get_nibble(3);
        let kk = opcode.get_byte(0);
        let nnn = opcode & 0x0FFF;
        proof {
            lemma2_to64();
            assert(opcode & 0x0FFF == opcode % 0x1000) by (bit_vector);
        }
        match family {
            0x0 => match opcode {
                0x00E0 => Some(Instruction::Control(ControlInstruction::CLS())),
                0x00EE => Some(Instruction::Control(ControlInstruction::RET())),
                _ => None,
            },
            0x1 => Some(Instruction::Control(ControlInstruction::JP(JPInstruction::JPPlain(nnn)))),
            0x2 => Some(Instruction::Control(ControlInstruction::CALL(nnn))),
            0x3 => Some(
                Instruction::Control(ControlInstruction::SE(SEInstruction::SEPlain(x, kk))),
            ),
            0x4 => Some(
                Instruction::Control(ControlInstruction::SE(SEInstruction::SNEPlain(x, kk))),
            ),
            0x5 => Some(
                Instruction::Control(ControlInstruction::SE(SEInstruction::SERegister(x, y))),
            ),
            0x6 => Some(Instruction::Math(MathInstruction::LD(LDInstruction::LDPlain(x, kk)))),
            0x7 => Some(Instruction::Math(MathInstruction::ADD(AddInstruction::ADDPlain(x, kk)))),
            0x8 => match n {
                0x0 => Some(
                    Instruction::Math(MathInstruction::LD(LDInstruction::LDRegister(x, y))),
                ),
                0x1 => Some(Instruction::Math(MathInstruction::OR(x, y))),
                0x2 => Some(Instruction::Math(MathInstruction::AND(x, y))),
                0x3 => Some(Instruction::Math(MathInstruction::XOR(x, y))),
                0x4 => Some(
                    Instruction::Math(MathInstruction::ADD(AddInstruction::ADDRegister(x, y))),
                ),
                0x5 => Some(Instruction::Math(MathInstruction::SUB(x, y))),
                0x6 => Some(Instruction::Math(MathInstruction::SHR(x, y))),
                0x7 => Some(Instruction::Math(MathInstruction::SUBN(x, y))),
                0xE => Some(Instruction::Math(MathInstruction::SHL(x, y))),
                _ => None,
            },
            0x9 => Some(
                Instruction::Control(ControlInstruction::SE(SEInstruction::SNERegister(x, y))),
            ),
            0xA => Some(Instruction::Math(MathInstruction::LD(LDInstruction::LDI(nnn)))),
            0xB => Some(
                Instruction::Control(ControlInstruction::JP(JPInstruction::JPOffset(nnn))),
            ),
            0xC => Some(Instruction::Math(MathInstruction::RND(x, kk))),
            0xD => Some(Instruction::Control(ControlInstruction::DRW(x, y, n))),
            0xE => match kk {
                0x9E => Some(
                    Instruction::Control(ControlInstruction::SKP(SKPInstruction::SKPPlain(x))),
                ),
                0xA1 => Some(
                    Instruction::Control(ControlInstruction::SKP(SKPInstruction::SKNP(x))),
                ),
                _ => None,
            },
            0xF => match kk {
                0x07 => Some(Instruction::Math(MathInstruction::LD(LDInstruction::LDRDelay(x)))),
                0x0A => Some(Instruction::Math(MathInstruction::LD(LDInstruction::LDKey(x)))),
                0x15 => Some(Instruction::Math(MathInstruction::LD(LDInstruction::LDDelay(x)))),
                0x18 => Some(Instruction::Math(MathInstruction::LD(LDInstruction::LDSound(x)))),
                0x1E => Some(Instruction::Math(MathInstruction::ADD(AddInstruction::ADDI(x)))),
                0x29 => Some(
                    Instruction::Math(MathInstruction::LD(LDInstruction::LDSpritePos(x))),
                ),
                0x33 => Some(Instruction::Math(MathInstruction::LD(LDInstruction::LDBCD(x)))),
                0x55 => Some(Instruction::Math(MathInstruction::LD(LDInstruction::LDRegDump(x)))),
                0x65 => Some(Instruction::Math(MathInstruction::LD(LDInstruction::LDRegLoad(x)))),
                _ => None,
            },
            _ => None,
        }
    }

    /// Decodes an opcode; one that encodes no instruction gives a no-op.
    /// Every opcode has exactly one decoded form.
    pub fn decode(opcode: u16) -> (r: Instruction)
        ensures
            r == decoded(opcode),
            r.well_formed(),
    {
        match Instruction::try_decode(opcode) {
            Some(instruction) => instruction,
            None => Instruction::Control(ControlInstruction::NOP()),
        }
    }
}

impl DecodePolicy {
    /// Decodes an opcode under this policy. The strict policy fails on
    /// exactly the opcodes that encode no instruction; the lenient one never
    /// fails.
    pub fn decode(&self, opcode: u16) -> (r: Result<Instruction, Fault>)
        ensures
            r == resolve(*self, opcode),
            r matches Ok(instruction) ==> instruction.well_formed(),
            *self == DecodePolicy::Lenient ==> r == Ok::<Instruction, Fault>(decoded(opcode)),
    {
        match Instruction::try_decode(opcode) {
            Some(instruction) => Ok(instruction),
            None => match self {
                DecodePolicy::Strict => Err(Fault::UnknownOpcode(opcode)),
                DecodePolicy::Lenient => Ok(Instruction::Control(ControlInstruction::NOP())),
            },
        }
    }
}

} // verus!
