use chip8::ast::decoder::{
    AddInstruction, ControlInstruction, Instruction, JPInstruction, LDInstruction,
    MathInstruction, SEInstruction, SKPInstruction,
};
use chip8::engine::{is_key_down, Flow};
use chip8::fault::Fault;
use chip8::state::State;

const NO_KEYS: [bool; 16] = [false; 16];

fn control(c: ControlInstruction) -> Instruction {
    Instruction::Control(c)
}

fn math(m: MathInstruction) -> Instruction {
    Instruction::Math(m)
}

fn load(l: LDInstruction) -> Instruction {
    math(MathInstruction::LD(l))
}

fn run(state: &mut State, instruction: Instruction) -> Result<Flow, Fault> {
    instruction.execute(state, &NO_KEYS, 0)
}

fn lit_pixels(state: &State) -> u32 {
    let mut count = 0;
    let mut y = 0;
    while y < 32 {
        let mut x = 0;
        while x < 64 {
            if state.framebuffer.read(x, y) {
                count += 1;
            }
            x += 1;
        }
        y += 1;
    }
    count
}

#[test]
fn add_registers_with_carry() {
    let mut state = State::new();
    state.registers[0] = 0xFF;
    state.registers[1] = 0x01;
    let add = math(MathInstruction::ADD(AddInstruction::ADDRegister(0, 1)));
    assert_eq!(run(&mut state, add), Ok(Flow::Continue(0x202)));
    assert_eq!(state.registers[0], 0x00);
    assert_eq!(state.registers[1], 0x01);
    assert_eq!(state.registers[15], 1);
    assert_eq!(state.pc, 0x202);
}

#[test]
fn add_registers_without_carry() {
    let mut state = State::new();
    state.registers[2] = 0x10;
    state.registers[3] = 0x22;
    state.registers[15] = 1;
    run(&mut state, math(MathInstruction::ADD(AddInstruction::ADDRegister(2, 3)))).unwrap();
    assert_eq!(state.registers[2], 0x32);
    assert_eq!(state.registers[15], 0);
    state.registers[2] = 0xFF;
    state.registers[3] = 0x00;
    run(&mut state, math(MathInstruction::ADD(AddInstruction::ADDRegister(2, 3)))).unwrap();
    assert_eq!(state.registers[2], 0xFF);
    assert_eq!(state.registers[15], 0);
}

#[test]
fn subtract_registers_with_borrow() {
    let mut state = State::new();
    state.registers[0] = 0x01;
    state.registers[1] = 0x02;
    assert_eq!(run(&mut state, math(MathInstruction::SUB(0, 1))), Ok(Flow::Continue(0x202)));
    assert_eq!(state.registers[0], 0xFF);
    assert_eq!(state.registers[15], 0);
}

#[test]
fn subtract_registers_without_borrow() {
    let mut state = State::new();
    state.registers[0] = 0x09;
    state.registers[1] = 0x02;
    run(&mut state, math(MathInstruction::SUB(0, 1))).unwrap();
    assert_eq!(state.registers[0], 0x07);
    assert_eq!(state.registers[15], 1);
    state.registers[0] = 0x05;
    state.registers[1] = 0x05;
    run(&mut state, math(MathInstruction::SUB(0, 1))).unwrap();
    assert_eq!(state.registers[0], 0x00);
    assert_eq!(state.registers[15], 1);
}

#[test]
fn subtract_reversed() {
    let mut state = State::new();
    state.registers[4] = 0x02;
    state.registers[5] = 0x0A;
    run(&mut state, math(MathInstruction::SUBN(4, 5))).unwrap();
    assert_eq!(state.registers[4], 0x08);
    assert_eq!(state.registers[5], 0x0A);
    assert_eq!(state.registers[15], 1);
    state.registers[4] = 0x0B;
    run(&mut state, math(MathInstruction::SUBN(4, 5))).unwrap();
    assert_eq!(state.registers[4], 0xFF);
    assert_eq!(state.registers[15], 0);
}

#[test]
fn flag_is_written_after_the_result() {
    let mut state = State::new();
    state.registers[15] = 0xF0;
    state.registers[1] = 0x20;
    run(&mut state, math(MathInstruction::ADD(AddInstruction::ADDRegister(15, 1)))).unwrap();
    assert_eq!(state.registers[15], 1);
    state.registers[15] = 0x03;
    state.registers[1] = 0x01;
    run(&mut state, math(MathInstruction::SUB(15, 1))).unwrap();
    assert_eq!(state.registers[15], 1);
    state.registers[15] = 0x02;
    run(&mut state, math(MathInstruction::SHR(15, 0))).unwrap();
    assert_eq!(state.registers[15], 0);
}

#[test]
fn add_immediate_leaves_the_flag() {
    let mut state = State::new();
    state.registers[7] = 0xFE;
    state.registers[15] = 0x55;
    run(&mut state, math(MathInstruction::ADD(AddInstruction::ADDPlain(7, 0x05)))).unwrap();
    assert_eq!(state.registers[7], 0x03);
    assert_eq!(state.registers[15], 0x55);
}

#[test]
fn add_to_index_wraps_at_sixteen_bits() {
    let mut state = State::new();
    state.i = 0x0FF0;
    state.registers[2] = 0x20;
    state.registers[15] = 0x55;
    run(&mut state, math(MathInstruction::ADD(AddInstruction::ADDI(2)))).unwrap();
    assert_eq!(state.i, 0x1010);
    assert_eq!(state.registers[15], 0x55);
    state.i = 0xFFFF;
    state.registers[2] = 0x02;
    run(&mut state, math(MathInstruction::ADD(AddInstruction::ADDI(2)))).unwrap();
    assert_eq!(state.i, 0x0001);
}

#[test]
fn bitwise_operations_leave_the_flag() {
    let mut state = State::new();
    state.registers[1] = 0b1100;
    state.registers[2] = 0b1010;
    state.registers[15] = 0x77;
    run(&mut state, math(MathInstruction::OR(1, 2))).unwrap();
    assert_eq!(state.registers[1], 0b1110);
    assert_eq!(state.registers[15], 0x77);
    state.registers[1] = 0b1100;
    run(&mut state, math(MathInstruction::AND(1, 2))).unwrap();
    assert_eq!(state.registers[1], 0b1000);
    assert_eq!(state.registers[15], 0x77);
    state.registers[1] = 0b1100;
    run(&mut state, math(MathInstruction::XOR(1, 2))).unwrap();
    assert_eq!(state.registers[1], 0b0110);
    assert_eq!(state.registers[15], 0x77);
    assert_eq!(state.registers[2], 0b1010);
    assert_eq!(state.pc, 0x206);
}

#[test]
fn shifts_work_on_the_first_register_in_place() {
    let mut state = State::new();
    state.registers[1] = 0b0000_0101;
    state.registers[2] = 0b1111_0000;
    run(&mut state, math(MathInstruction::SHR(1, 2))).unwrap();
    assert_eq!(state.registers[1], 0b0000_0010);
    assert_eq!(state.registers[2], 0b1111_0000);
    assert_eq!(state.registers[15], 1);
    run(&mut state, math(MathInstruction::SHR(1, 2))).unwrap();
    assert_eq!(state.registers[1], 0b0000_0001);
    assert_eq!(state.registers[15], 0);
    state.registers[1] = 0b1000_0001;
    state.registers[2] = 0b0000_1111;
    run(&mut state, math(MathInstruction::SHL(1, 2))).unwrap();
    assert_eq!(state.registers[1], 0b0000_0010);
    assert_eq!(state.registers[2], 0b0000_1111);
    assert_eq!(state.registers[15], 1);
    run(&mut state, math(MathInstruction::SHL(1, 2))).unwrap();
    assert_eq!(state.registers[1], 0b0000_0100);
    assert_eq!(state.registers[15], 0);
}

#[test]
fn random_byte_is_masked() {
    let mut state = State::new();
    let rnd = math(MathInstruction::RND(3, 0x0F));
    assert_eq!(rnd.execute(&mut state, &NO_KEYS, 0xA7), Ok(Flow::Continue(0x202)));
    assert_eq!(state.registers[3], 0x07);
    math(MathInstruction::RND(3, 0xFF)).execute(&mut state, &NO_KEYS, 0xA7).unwrap();
    assert_eq!(state.registers[3], 0xA7);
    math(MathInstruction::RND(3, 0x00)).execute(&mut state, &NO_KEYS, 0xA7).unwrap();
    assert_eq!(state.registers[3], 0x00);
}

#[test]
fn loads_between_registers_and_timers() {
    let mut state = State::new();
    run(&mut state, load(LDInstruction::LDPlain(1, 5))).unwrap();
    assert_eq!(state.registers[1], 5);
    run(&mut state, load(LDInstruction::LDRegister(2, 1))).unwrap();
    assert_eq!(state.registers[2], 5);
    run(&mut state, load(LDInstruction::LDI(0xABC))).unwrap();
    assert_eq!(state.i, 0xABC);
    run(&mut state, load(LDInstruction::LDDelay(1))).unwrap();
    assert_eq!(state.delay_timer, 5);
    assert_eq!(state.sound_timer, 0);
    state.registers[1] = 9;
    run(&mut state, load(LDInstruction::LDSound(1))).unwrap();
    assert_eq!(state.sound_timer, 9);
    assert_eq!(state.delay_timer, 5);
    run(&mut state, load(LDInstruction::LDRDelay(6))).unwrap();
    assert_eq!(state.registers[6], 5);
    assert_eq!(state.pc, 0x200 + 2 * 6);
}

#[test]
fn sprite_address_of_a_digit() {
    let mut state = State::new();
    state.registers[4] = 0x0;
    run(&mut state, load(LDInstruction::LDSpritePos(4))).unwrap();
    assert_eq!(state.i, 0);
    state.registers[4] = 0xA;
    run(&mut state, load(LDInstruction::LDSpritePos(4))).unwrap();
    assert_eq!(state.i, 50);
    state.registers[4] = 0xF;
    run(&mut state, load(LDInstruction::LDSpritePos(4))).unwrap();
    assert_eq!(state.i, 75);
    state.registers[4] = 0x1F;
    run(&mut state, load(LDInstruction::LDSpritePos(4))).unwrap();
    assert_eq!(state.i, 75);
}

#[test]
fn decimal_digits_go_to_memory() {
    let mut state = State::new();
    state.registers[3] = 254;
    state.i = 0x300;
    assert_eq!(run(&mut state, load(LDInstruction::LDBCD(3))), Ok(Flow::Continue(0x202)));
    assert_eq!(state.memory.read(0x300), Ok(2));
    assert_eq!(state.memory.read(0x301), Ok(5));
    assert_eq!(state.memory.read(0x302), Ok(4));
    assert_eq!(state.memory.read(0x303), Ok(0));
    assert_eq!(state.i, 0x300);
    state.registers[3] = 7;
    run(&mut state, load(LDInstruction::LDBCD(3))).unwrap();
    assert_eq!(state.memory.read(0x300), Ok(0));
    assert_eq!(state.memory.read(0x301), Ok(0));
    assert_eq!(state.memory.read(0x302), Ok(7));
}

#[test]
fn decimal_digits_out_of_range() {
    let mut state = State::new();
    state.registers[3] = 123;
    state.i = 0xFFD;
    assert_eq!(run(&mut state, load(LDInstruction::LDBCD(3))), Ok(Flow::Continue(0x202)));
    assert_eq!(state.memory.read(0xFFF), Ok(3));
    state.i = 0xFFE;
    state.registers[3] = 99;
    assert_eq!(run(&mut state, load(LDInstruction::LDBCD(3))), Err(Fault::MemoryOutOfRange));
    assert_eq!(state.memory.read(0xFFE), Ok(2));
    assert_eq!(state.memory.read(0xFFF), Ok(3));
    assert_eq!(state.pc, 0x202);
}

#[test]
fn register_dump_and_load() {
    let mut state = State::new();
    let mut k = 0;
    while k < 16 {
        state.registers[k] = 0x10 + k as u8;
        k += 1;
    }
    state.i = 0x400;
    run(&mut state, load(LDInstruction::LDRegDump(3))).unwrap();
    assert_eq!(state.memory.read(0x400), Ok(0x10));
    assert_eq!(state.memory.read(0x403), Ok(0x13));
    assert_eq!(state.memory.read(0x404), Ok(0x00));
    assert_eq!(state.i, 0x400);
    run(&mut state, load(LDInstruction::LDRegDump(15))).unwrap();
    assert_eq!(state.memory.read(0x40F), Ok(0x1F));

    let mut other = State::new();
    other.memory.write_data(0x500, &[9, 8, 7, 6]).unwrap();
    other.registers[3] = 0xEE;
    other.i = 0x500;
    assert_eq!(run(&mut other, load(LDInstruction::LDRegLoad(2))), Ok(Flow::Continue(0x202)));
    assert_eq!(other.registers[0], 9);
    assert_eq!(other.registers[1], 8);
    assert_eq!(other.registers[2], 7);
    assert_eq!(other.registers[3], 0xEE);
    assert_eq!(other.i, 0x500);
    run(&mut other, load(LDInstruction::LDRegLoad(0))).unwrap();
    assert_eq!(other.registers[0], 9);
}

#[test]
fn register_dump_and_load_out_of_range() {
    let mut state = State::new();
    state.registers[0] = 1;
    state.registers[1] = 2;
    state.i = 0xFFF;
    assert_eq!(run(&mut state, load(LDInstruction::LDRegDump(0))), Ok(Flow::Continue(0x202)));
    assert_eq!(state.memory.read(0xFFF), Ok(1));
    state.registers[0] = 5;
    assert_eq!(run(&mut state, load(LDInstruction::LDRegDump(1))), Err(Fault::MemoryOutOfRange));
    assert_eq!(state.memory.read(0xFFF), Ok(1));
    assert_eq!(run(&mut state, load(LDInstruction::LDRegLoad(1))), Err(Fault::MemoryOutOfRange));
    assert_eq!(state.registers[0], 5);
    assert_eq!(state.registers[1], 2);
    assert_eq!(run(&mut state, load(LDInstruction::LDRegLoad(0))), Ok(Flow::Continue(0x204)));
    assert_eq!(state.registers[0], 1);
    state.i = 0x1000;
    assert_eq!(run(&mut state, load(LDInstruction::LDRegLoad(0))), Err(Fault::MemoryOutOfRange));
    assert_eq!(state.pc, 0x204);
}

#[test]
fn jumps() {
    let mut state = State::new();
    let jump = control(ControlInstruction::JP(JPInstruction::JPPlain(0x345)));
    assert_eq!(run(&mut state, jump), Ok(Flow::Continue(0x345)));
    assert_eq!(state.pc, 0x345);
    state.registers[0] = 0x12;
    let offset = control(ControlInstruction::JP(JPInstruction::JPOffset(0x300)));
    assert_eq!(run(&mut state, offset), Ok(Flow::Continue(0x312)));
    assert_eq!(state.pc, 0x312);
    state.registers[0] = 0xFF;
    let far = control(ControlInstruction::JP(JPInstruction::JPOffset(0xFFF)));
    assert_eq!(run(&mut state, far), Ok(Flow::Continue(0x10FE)));
}

#[test]
fn call_and_return() {
    let mut state = State::new();
    state.pc = 0x234;
    assert_eq!(run(&mut state, control(ControlInstruction::CALL(0x400))), Ok(Flow::Continue(0x400)));
    assert_eq!(state.pc, 0x400);
    assert_eq!(state.stack.depth(), 1);
    assert_eq!(run(&mut state, control(ControlInstruction::RET())), Ok(Flow::Continue(0x236)));
    assert_eq!(state.pc, 0x236);
    assert_eq!(state.stack.depth(), 0);
}

#[test]
fn sixteen_calls_succeed_and_the_next_fails() {
    let mut state = State::new();
    let mut k: u16 = 0;
    while k < 16 {
        let call = control(ControlInstruction::CALL(0x300 + 2 * k));
        assert_eq!(run(&mut state, call), Ok(Flow::Continue(0x300 + 2 * k)));
        k += 1;
    }
    assert_eq!(state.stack.depth(), 16);
    let pc = state.pc;
    assert_eq!(run(&mut state, control(ControlInstruction::CALL(0x500))), Err(Fault::StackOverflow));
    assert_eq!(state.pc, pc);
    assert_eq!(state.stack.depth(), 16);
    assert_eq!(run(&mut state, control(ControlInstruction::RET())), Ok(Flow::Continue(0x300 + 2 * 14 + 2)));
}

#[test]
fn return_on_empty_stack_fails() {
    let mut state = State::new();
    assert_eq!(run(&mut state, control(ControlInstruction::RET())), Err(Fault::StackUnderflow));
    assert_eq!(state.pc, 0x200);
    assert_eq!(state.stack.depth(), 0);
}

#[test]
fn skips_on_registers() {
    let mut state = State::new();
    state.registers[1] = 0x42;
    state.registers[2] = 0x42;
    state.registers[3] = 0x43;
    let skip = |s: SEInstruction| control(ControlInstruction::SE(s));
    assert_eq!(run(&mut state, skip(SEInstruction::SEPlain(1, 0x42))), Ok(Flow::Continue(0x204)));
    assert_eq!(run(&mut state, skip(SEInstruction::SEPlain(1, 0x41))), Ok(Flow::Continue(0x206)));
    assert_eq!(run(&mut state, skip(SEInstruction::SNEPlain(1, 0x42))), Ok(Flow::Continue(0x208)));
    assert_eq!(run(&mut state, skip(SEInstruction::SNEPlain(1, 0x41))), Ok(Flow::Continue(0x20C)));
    assert_eq!(run(&mut state, skip(SEInstruction::SERegister(1, 2))), Ok(Flow::Continue(0x210)));
    assert_eq!(run(&mut state, skip(SEInstruction::SERegister(1, 3))), Ok(Flow::Continue(0x212)));
    assert_eq!(run(&mut state, skip(SEInstruction::SNERegister(1, 2))), Ok(Flow::Continue(0x214)));
    assert_eq!(run(&mut state, skip(SEInstruction::SNERegister(1, 3))), Ok(Flow::Continue(0x218)));
    assert_eq!(state.pc, 0x218);
}

#[test]
fn skips_on_keys() {
    let mut state = State::new();
    let mut keys = [false; 16];
    keys[0xA] = true;
    state.registers[1] = 0xA;
    state.registers[2] = 0xB;
    state.registers[3] = 0x1A;
    let pressed = |x: u8| control(ControlInstruction::SKP(SKPInstruction::SKPPlain(x)));
    let released = |x: u8| control(ControlInstruction::SKP(SKPInstruction::SKNP(x)));
    assert_eq!(pressed(1).execute(&mut state, &keys, 0), Ok(Flow::Continue(0x204)));
    assert_eq!(pressed(2).execute(&mut state, &keys, 0), Ok(Flow::Continue(0x206)));
    assert_eq!(released(1).execute(&mut state, &keys, 0), Ok(Flow::Continue(0x208)));
    assert_eq!(released(2).execute(&mut state, &keys, 0), Ok(Flow::Continue(0x20C)));
    assert_eq!(pressed(3).execute(&mut state, &keys, 0), Ok(Flow::Continue(0x20E)));
    assert_eq!(released(3).execute(&mut state, &keys, 0), Ok(Flow::Continue(0x212)));
}

#[test]
fn key_numbers_above_fifteen_name_no_key() {
    let keys = [true; 16];
    assert!(is_key_down(&keys, 0));
    assert!(is_key_down(&keys, 15));
    assert!(!is_key_down(&keys, 16));
    assert!(!is_key_down(&keys, 255));
    assert!(!is_key_down(&NO_KEYS, 3));
}

#[test]
fn blocking_key_read_changes_nothing() {
    let mut state = State::new();
    state.registers[5] = 0x33;
    let keys = [true; 16];
    let wait = load(LDInstruction::LDKey(5));
    assert_eq!(wait.execute(&mut state, &keys, 0), Ok(Flow::AwaitKey(5)));
    assert_eq!(state.pc, 0x200);
    assert_eq!(state.registers[5], 0x33);
    assert_eq!(wait.execute(&mut state, &keys, 0), Ok(Flow::AwaitKey(5)));
    assert_eq!(state.pc, 0x200);
}

#[test]
fn no_op_only_advances() {
    let mut state = State::new();
    state.registers[1] = 7;
    assert_eq!(run(&mut state, control(ControlInstruction::NOP())), Ok(Flow::Continue(0x202)));
    assert_eq!(state.registers[1], 7);
    assert_eq!(state.pc, 0x202);
}

#[test]
fn program_counter_wraps_at_sixteen_bits() {
    let mut state = State::new();
    state.pc = 0xFFFE;
    assert_eq!(run(&mut state, control(ControlInstruction::NOP())), Ok(Flow::Continue(0x0000)));
    state.pc = 0xFFFE;
    state.registers[0] = 1;
    let skip = control(ControlInstruction::SE(SEInstruction::SEPlain(0, 1)));
    assert_eq!(run(&mut state, skip), Ok(Flow::Continue(0x0002)));
}

#[test]
fn clear_screen_turns_every_pixel_off() {
    let mut state = State::new();
    let mut y = 0;
    while y < 32 {
        let mut x = 0;
        while x < 64 {
            state.framebuffer.write(x, y, x % 2 == 0 || y % 5 == 0);
            x += 1;
        }
        y += 1;
    }
    assert!(lit_pixels(&state) > 0);
    assert_eq!(run(&mut state, control(ControlInstruction::CLS())), Ok(Flow::Continue(0x202)));
    assert_eq!(lit_pixels(&state), 0);
}

#[test]
fn draw_collision() {
    let mut state = State::new();
    state.memory.write(0x300, 0xFF).unwrap();
    state.i = 0x300;
    state.registers[0] = 0;
    state.registers[1] = 0;
    let draw = control(ControlInstruction::DRW(0, 1, 1));
    assert_eq!(run(&mut state, draw), Ok(Flow::Continue(0x202)));
    assert_eq!(lit_pixels(&state), 8);
    let mut x = 0;
    while x < 8 {
        assert!(state.framebuffer.read(x, 0));
        x += 1;
    }
    assert!(!state.framebuffer.read(8, 0));
    assert!(!state.framebuffer.read(0, 1));
    assert_eq!(state.registers[15], 0);
    assert_eq!(run(&mut state, draw), Ok(Flow::Continue(0x204)));
    assert_eq!(lit_pixels(&state), 0);
    assert_eq!(state.registers[15], 1);
}

#[test]
fn draw_takes_bits_from_the_left() {
    let mut state = State::new();
    state.memory.write_data(0x300, &[0b1000_0001, 0b0100_0000]).unwrap();
    state.i = 0x300;
    state.registers[2] = 10;
    state.registers[3] = 20;
    run(&mut state, control(ControlInstruction::DRW(2, 3, 2))).unwrap();
    assert_eq!(lit_pixels(&state), 3);
    assert!(state.framebuffer.read(10, 20));
    assert!(state.framebuffer.read(17, 20));
    assert!(state.framebuffer.read(11, 21));
    assert_eq!(state.registers[15], 0);
}

#[test]
fn draw_partial_overlap_sets_the_flag() {
    let mut state = State::new();
    state.memory.write_data(0x300, &[0b1100_0000, 0b0110_0000]).unwrap();
    state.i = 0x300;
    run(&mut state, control(ControlInstruction::DRW(0, 0, 1))).unwrap();
    assert_eq!(state.registers[15], 0);
    state.i = 0x301;
    run(&mut state, control(ControlInstruction::DRW(0, 0, 1))).unwrap();
    assert_eq!(state.registers[15], 1);
    assert!(state.framebuffer.read(0, 0));
    assert!(!state.framebuffer.read(1, 0));
    assert!(state.framebuffer.read(2, 0));
    assert_eq!(lit_pixels(&state), 2);
    state.i = 0x302;
    run(&mut state, control(ControlInstruction::DRW(0, 0, 1))).unwrap();
    assert_eq!(state.registers[15], 0);
    assert_eq!(lit_pixels(&state), 2);
}

#[test]
fn draw_wraps_round_the_edges() {
    let mut state = State::new();
    state.memory.write_data(0x300, &[0xFF, 0xFF]).unwrap();
    state.i = 0x300;
    state.registers[0] = 60;
    state.registers[1] = 31;
    run(&mut state, control(ControlInstruction::DRW(0, 1, 2))).unwrap();
    assert_eq!(lit_pixels(&state), 16);
    assert!(state.framebuffer.read(60, 31));
    assert!(state.framebuffer.read(63, 31));
    assert!(state.framebuffer.read(0, 31));
    assert!(state.framebuffer.read(3, 31));
    assert!(!state.framebuffer.read(4, 31));
    assert!(state.framebuffer.read(60, 0));
    assert!(state.framebuffer.read(3, 0));
    assert!(!state.framebuffer.read(59, 0));
}

#[test]
fn draw_start_wraps_too() {
    let mut state = State::new();
    state.memory.write(0x300, 0x80).unwrap();
    state.i = 0x300;
    state.registers[0] = 64 + 5;
    state.registers[1] = 32 * 3 + 7;
    run(&mut state, control(ControlInstruction::DRW(0, 1, 1))).unwrap();
    assert_eq!(lit_pixels(&state), 1);
    assert!(state.framebuffer.read(5, 7));
}

#[test]
fn draw_into_the_flag_register_coordinates() {
    let mut state = State::new();
    state.memory.write(0x300, 0x80).unwrap();
    state.i = 0x300;
    state.registers[15] = 9;
    state.registers[1] = 2;
    run(&mut state, control(ControlInstruction::DRW(15, 1, 1))).unwrap();
    assert!(state.framebuffer.read(9, 2));
    assert_eq!(state.registers[15], 0);
}

#[test]
fn draw_of_no_rows() {
    let mut state = State::new();
    state.framebuffer.write(0, 0, true);
    state.registers[15] = 1;
    state.i = 0xFFFF;
    assert_eq!(run(&mut state, control(ControlInstruction::DRW(0, 0, 0))), Ok(Flow::Continue(0x202)));
    assert_eq!(lit_pixels(&state), 1);
    assert_eq!(state.registers[15], 0);
}

#[test]
fn draw_out_of_range() {
    let mut state = State::new();
    state.framebuffer.write(0, 0, true);
    state.registers[15] = 7;
    state.memory.write(0xFFF, 0xFF).unwrap();
    state.i = 0xFFF;
    assert_eq!(run(&mut state, control(ControlInstruction::DRW(0, 0, 2))), Err(Fault::MemoryOutOfRange));
    assert_eq!(lit_pixels(&state), 1);
    assert_eq!(state.registers[15], 7);
    assert_eq!(state.pc, 0x200);
    assert_eq!(run(&mut state, control(ControlInstruction::DRW(0, 0, 1))), Ok(Flow::Continue(0x202)));
    assert_eq!(lit_pixels(&state), 7);
    assert_eq!(state.registers[15], 1);
}
