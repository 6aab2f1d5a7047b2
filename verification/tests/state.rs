use chip8::ast::decoder::DecodePolicy;
use chip8::engine::Flow;
use chip8::fault::Fault;
use chip8::state::State;
use chip8::task::TaskState;

const NO_KEYS: [bool; 16] = [false; 16];

fn with_program(policy: DecodePolicy, program: &[u8]) -> State {
    let mut state = State::with_policy(policy);
    state.memory.write_data(0x200, program).unwrap();
    state
}

#[test]
fn new_state_is_zeroed() {
    let state = State::new();
    assert_eq!(state.pc, 0x200);
    assert_eq!(state.i, 0);
    assert_eq!(state.registers, [0u8; 16]);
    assert_eq!(state.delay_timer, 0);
    assert_eq!(state.sound_timer, 0);
    assert_eq!(state.stack.depth(), 0);
    assert_eq!(state.policy, DecodePolicy::Lenient);
    assert_eq!(state.memory.read(0), Ok(0));
    assert_eq!(state.memory.read(0x200), Ok(0));
    assert_eq!(state.memory.read(0xFFF), Ok(0));
    assert!(!state.framebuffer.read(0, 0));
    assert!(!state.framebuffer.read(63, 31));
}

#[test]
fn state_keeps_its_policy() {
    assert_eq!(State::with_policy(DecodePolicy::Strict).policy, DecodePolicy::Strict);
    assert_eq!(State::with_policy(DecodePolicy::Lenient).policy, DecodePolicy::Lenient);
}

#[test]
fn step_fetches_big_endian_and_advances() {
    let mut state = with_program(DecodePolicy::Strict, &[0x61, 0x05, 0x71, 0x03]);
    assert_eq!(state.step(&NO_KEYS, 0), Ok(Flow::Continue(0x202)));
    assert_eq!(state.registers[1], 5);
    assert_eq!(state.pc, 0x202);
    assert_eq!(state.step(&NO_KEYS, 0), Ok(Flow::Continue(0x204)));
    assert_eq!(state.registers[1], 8);
    assert_eq!(state.pc, 0x204);
}

#[test]
fn step_follows_redirected_control_flow() {
    // 0x200: call 0x206; 0x202: jump 0x202; 0x206: return
    let mut state = with_program(DecodePolicy::Strict, &[0x22, 0x06, 0x12, 0x02, 0x00, 0x00, 0x00, 0xEE]);
    assert_eq!(state.step(&NO_KEYS, 0), Ok(Flow::Continue(0x206)));
    assert_eq!(state.step(&NO_KEYS, 0), Ok(Flow::Continue(0x202)));
    assert_eq!(state.step(&NO_KEYS, 0), Ok(Flow::Continue(0x202)));
    assert_eq!(state.pc, 0x202);
}

#[test]
fn step_passes_the_random_byte() {
    let mut state = with_program(DecodePolicy::Strict, &[0xC2, 0x3C]);
    assert_eq!(state.step(&NO_KEYS, 0xFF), Ok(Flow::Continue(0x202)));
    assert_eq!(state.registers[2], 0x3C);
}

#[test]
fn step_under_the_lenient_policy_skips_unknown_opcodes() {
    let mut state = with_program(DecodePolicy::Lenient, &[0x01, 0x23, 0x63, 0x09]);
    assert_eq!(state.step(&NO_KEYS, 0), Ok(Flow::Continue(0x202)));
    assert_eq!(state.registers, [0u8; 16]);
    assert_eq!(state.step(&NO_KEYS, 0), Ok(Flow::Continue(0x204)));
    assert_eq!(state.registers[3], 9);
}

#[test]
fn step_under_the_strict_policy_stops_at_unknown_opcodes() {
    let mut state = with_program(DecodePolicy::Strict, &[0x01, 0x23, 0x63, 0x09]);
    assert_eq!(state.step(&NO_KEYS, 0), Err(Fault::UnknownOpcode(0x0123)));
    assert_eq!(state.pc, 0x200);
    assert_eq!(state.step(&NO_KEYS, 0), Err(Fault::UnknownOpcode(0x0123)));
}

#[test]
fn step_faults_when_the_opcode_leaves_memory() {
    let mut state = State::new();
    state.pc = 0xFFE;
    assert_eq!(state.step(&NO_KEYS, 0), Ok(Flow::Continue(0x1000)));
    assert_eq!(state.step(&NO_KEYS, 0), Err(Fault::MemoryOutOfRange));
    assert_eq!(state.pc, 0x1000);
    state.pc = 0xFFF;
    assert_eq!(state.step(&NO_KEYS, 0), Err(Fault::MemoryOutOfRange));
    assert_eq!(state.pc, 0xFFF);
}

#[test]
fn step_reports_stack_faults() {
    let mut state = with_program(DecodePolicy::Strict, &[0x00, 0xEE]);
    assert_eq!(state.step(&NO_KEYS, 0), Err(Fault::StackUnderflow));
    // 0x200: call 0x200, for ever
    let mut deep = with_program(DecodePolicy::Strict, &[0x22, 0x00]);
    let mut calls = 0;
    while calls < 16 {
        assert_eq!(deep.step(&NO_KEYS, 0), Ok(Flow::Continue(0x200)));
        calls += 1;
    }
    assert_eq!(deep.step(&NO_KEYS, 0), Err(Fault::StackOverflow));
    assert_eq!(deep.stack.depth(), 16);
}

#[test]
fn step_waits_at_a_blocking_key_read() {
    let mut state = with_program(DecodePolicy::Strict, &[0xF4, 0x0A]);
    assert_eq!(state.step(&NO_KEYS, 0), Ok(Flow::AwaitKey(4)));
    assert_eq!(state.pc, 0x200);
    assert_eq!(state.step(&[true; 16], 0), Ok(Flow::AwaitKey(4)));
    assert_eq!(state.pc, 0x200);
}

#[test]
fn task_runs_suspends_and_resumes() {
    // 0x200: V1 = 7; 0x202: wait for a key into V4; 0x204: V4 += 1; 0x206: return
    let mut state =
        with_program(DecodePolicy::Strict, &[0x61, 0x07, 0xF4, 0x0A, 0x74, 0x01, 0x00, 0xEE]);
    let mut task = TaskState::Fetching;
    task = task.cycle(&mut state, &NO_KEYS, 0);
    assert_eq!(task, TaskState::Fetching);
    assert_eq!(state.registers[1], 7);
    task = task.cycle(&mut state, &NO_KEYS, 0);
    assert_eq!(task, TaskState::AwaitingKey(4));
    assert_eq!(state.pc, 0x202);
    task = task.cycle(&mut state, &NO_KEYS, 0);
    assert_eq!(task, TaskState::AwaitingKey(4));
    assert_eq!(state.pc, 0x202);
    task = task.key_event(&mut state, 16);
    assert_eq!(task, TaskState::AwaitingKey(4));
    assert_eq!(state.pc, 0x202);
    task = task.key_event(&mut state, 0xB);
    assert_eq!(task, TaskState::Fetching);
    assert_eq!(state.registers[4], 0xB);
    assert_eq!(state.pc, 0x204);
    task = task.cycle(&mut state, &NO_KEYS, 0);
    assert_eq!(task, TaskState::Fetching);
    assert_eq!(state.registers[4], 0xC);
    task = task.cycle(&mut state, &NO_KEYS, 0);
    assert_eq!(task, TaskState::Halted(Fault::StackUnderflow));
    assert_eq!(state.pc, 0x206);
    task = task.cycle(&mut state, &NO_KEYS, 0);
    assert_eq!(task, TaskState::Halted(Fault::StackUnderflow));
    task = task.key_event(&mut state, 1);
    assert_eq!(task, TaskState::Halted(Fault::StackUnderflow));
    assert_eq!(state.pc, 0x206);
}

#[test]
fn key_events_are_dropped_while_fetching() {
    let mut state = with_program(DecodePolicy::Strict, &[0x61, 0x07]);
    let task = TaskState::Fetching.key_event(&mut state, 3);
    assert_eq!(task, TaskState::Fetching);
    assert_eq!(state.pc, 0x200);
    assert_eq!(state.registers, [0u8; 16]);
}

#[test]
fn task_halts_on_unknown_opcode_only_when_strict() {
    let mut strict = with_program(DecodePolicy::Strict, &[0xFF, 0xFF]);
    assert_eq!(
        TaskState::Fetching.cycle(&mut strict, &NO_KEYS, 0),
        TaskState::Halted(Fault::UnknownOpcode(0xFFFF))
    );
    let mut lenient = with_program(DecodePolicy::Lenient, &[0xFF, 0xFF]);
    assert_eq!(TaskState::Fetching.cycle(&mut lenient, &NO_KEYS, 0), TaskState::Fetching);
    assert_eq!(lenient.pc, 0x202);
}
