use crate::ast::decoder::DecodePolicy;
use crate::common::Register;
use crate::engine::Flow;
use crate::fault::Fault;
use crate::framebuffer::{blank, Framebuffer};
use crate::memory::{Memory, MEMORY_SIZE, PROGRAM_START};
use crate::model::{exec_step, step_flow, Machine, FLAG};
use crate::stack::Stack;
use crate::timer::{countdown, ticked};
use vstd::prelude::*;

verus! {

/// The state of the machine: memory, display, registers, timers and call
/// stack, and the policy for opcodes outside the instruction set.
#[derive(Debug, Clone)]
pub struct State {
    pub memory: Memory,
    pub framebuffer: Framebuffer,
    pub registers: [u8; 16],
    pub i: u16,
    pub pc: u16,
    pub delay_timer: u8,
    pub sound_timer: u8,
    pub stack: Stack<u16>,
    pub policy: DecodePolicy,
}

/// The machine at the start of a session: everything zero, the display
/// blank, the stack empty, and the program counter at the load address.
pub open spec fn initial(policy: DecodePolicy) -> Machine {
    Machine {
        memory: Seq::new(MEMORY_SIZE as nat, |k: int| 0u8),
        pixels: blank(),
        registers: Seq::new(16, |k: int| 0u8),
        i: 0,
        pc: PROGRAM_START,
        delay_timer: 0,
        sound_timer: 0,
        stack: Seq::empty(),
        policy,
    }
}

/// The machine after one tick of the timer clock.
pub open spec fn tick_effect(m: Machine) -> Machine {
    Machine { delay_timer: ticked(m.delay_timer), sound_timer: ticked(m.sound_timer), ..m }
}

impl View for State {
    type V = Machine;

    open spec fn view(&self) -> Machine {
        Machine {
            memory: self.memory@,
            pixels: self.framebuffer@,
            registers: self.registers@,
            i: self.i,
            pc: self.pc,
            delay_timer: self.delay_timer,
            sound_timer: self.sound_timer,
            stack: self.stack@,
            policy: self.policy,
        }
    }
}

impl State {
    /// The call stack is well formed. The other parts have no invariant of
    /// their own.
    pub open spec fn wf(&self) -> bool {
        self.stack.wf()
    }

    /// The model of a well-formed state has the sizes of the machine.
    pub proof fn lemma_valid(&self)
        requires
            self.wf(),
        ensures
            self@.valid(),
    {
        self.memory.lemma_len();
        self.framebuffer.lemma_len();
        self.stack.lemma_bounded();
    }

    /// A fresh machine under the lenient policy.
    pub fn new() -> (r: State)
        ensures
            r.wf(),
            r@ == initial(DecodePolicy::Lenient),
    {
        State::with_policy(DecodePolicy::Lenient)
    }

    /// A fresh machine under the given policy.
    pub fn with_policy(policy: DecodePolicy) -> (r: State)
        ensures
            r.wf(),
            r@ == initial(policy),
    {
        State {
            memory: Memory::new(),
            framebuffer: Framebuffer::new(),
            registers: [0u8; 16],
            i: 0,
            pc: PROGRAM_START,
            delay_timer: 0,
            sound_timer: 0,
            stack: Stack::new(),
            policy,
        }
    }

    /// One step: reads the opcode at the program counter, decodes it under
    /// the machine's policy and executes the instruction. `keys` holds for
    /// each key of the pad whether it is held down; `random` is the byte
    /// that a random instruction draws.
    ///
    /// The step is a fault if the opcode does not lie inside memory, if the
    /// policy is strict and the opcode encodes no instruction, or if the
    /// instruction raises one. A fault leaves the state as it was.
    pub fn step(&mut self, keys: &[bool; 16], random: u8) -> (r: Result<Flow, Fault>)
        requires
            old(self).wf(),
        ensures
            final(self).wf(),
            match exec_step(old(self)@, keys@, random) {
                Ok(after) => r == Ok::<Flow, Fault>(step_flow(old(self)@, after)) && final(self)@
                    == after,
                Err(fault) => r == Err::<Flow, Fault>(fault) && final(self)@ == old(self)@,
            },
            r matches Ok(Flow::AwaitKey(x)) ==> x < 16,
    {
        let opcode = self.memory.read_word(self.pc)?;
        let instruction = self.policy.decode(opcode)?;
        instruction.execute(self, keys, random)
    }

    /// One tick of the 60 Hz timer clock: both timers count down by one,
    /// and stay at zero once they are there. Says whether the tone is to
    /// sound, which it is while the sound timer is not zero.
    pub fn tick(&mut self) -> (tone: bool)
        requires
            old(self).wf(),
        ensures
            final(self).wf(),
            final(self)@ == tick_effect(old(self)@),
            tone == (final(self)@.sound_timer > 0),
    {
        self.delay_timer = countdown(self.delay_timer);
        self.sound_timer = countdown(self.sound_timer);
        self.sound_timer > 0
    }

    /// The value of register `x`.
    pub(crate) fn reg(&self, x: Register) -> (r: u8)
        requires
            x < 16,
        ensures
            r == self@.reg(x),
    {
        self.registers[x as usize]
    }

    /// Puts `value` into register `x`.
    pub(crate) fn set_reg(&mut self, x: Register, value: u8)
        requires
            x < 16,
        ensures
            final(self).stack == old(self).stack,
            final(self)@ == old(self)@.with_reg(x, value),
    {
        self.registers[x as usize] = value;
    }

    /// Puts 1 into the flag register if `set`, else 0.
    pub(crate) fn set_flag(&mut self, set: bool)
        ensures
            final(self).stack == old(self).stack,
            final(self)@ == old(self)@.with_flag(set),
    {
        self.registers[FLAG as usize] = if set {
            1
        } else {
            0
        };
    }

    /// Moves the program counter behind the current instruction, and behind
    /// the one after it if `skip`.
    pub(crate) fn advance(&mut self, skip: bool)
        ensures
            final(self).stack == old(self).stack,
            final(self)@ == old(self)@.skip_if(skip),
            !skip ==> final(self)@ == old(self)@.next(),
    {
        self.pc = self.pc.wrapping_add(
            if skip {
                4
            } else {
                2
            },
        );
    }
}

} // verus!
