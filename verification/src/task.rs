use crate::common::Register;
use crate::engine::Flow;
use crate::fault::Fault;
use crate::model::{exec_step, step_flow, Machine, KEYS};
use crate::state::State;
use vstd::prelude::*;

verus! {

/// Where the execution task stands between two of its turns.
#[derive(Debug, Clone, Copy, PartialEq, Eq, Structural)]
pub enum TaskState {
    /// Ready to run the next step.
    Fetching,
    /// Suspended in a blocking key read, until a key event arrives; the key
    /// goes into this register.
    AwaitingKey(Register),
    /// Ended by this fault. Only a new session leaves this state.
    Halted(Fault),
}

/// The machine and the task after one turn of the task.
pub open spec fn cycle_effect(task: TaskState, m: Machine, keys: Seq<bool>, random: u8) -> (
    Machine,
    TaskState,
) {
    match task {
        TaskState::Fetching => match exec_step(m, keys, random) {
            Ok(after) => match step_flow(m, after) {
                Flow::Continue(_) => (after, TaskState::Fetching),
                Flow::AwaitKey(x) => (after, TaskState::AwaitingKey(x)),
            },
            Err(fault) => (m, TaskState::Halted(fault)),
        },
        _ => (m, task),
    }
}

/// The machine and the task after the event that key `key` went down.
pub open spec fn key_effect(task: TaskState, m: Machine, key: u8) -> (Machine, TaskState) {
    match task {
        TaskState::AwaitingKey(x) if key < KEYS => (m.with_reg(x, key).next(), TaskState::Fetching),
        _ => (m, task),
    }
}

impl TaskState {
    /// A register that waits for a key is one of the sixteen.
    pub open spec fn wf(&self) -> bool {
        *self matches TaskState::AwaitingKey(x) ==> x < 16
    }

    /// One turn of the execution task. A task that is fetching runs one
    /// step: it goes on fetching, suspends if the instruction is a blocking
    /// key read, or halts with the fault of the step. A suspended or halted
    /// task does nothing.
    pub fn cycle(self, cpu: &mut State, keys: &[bool; 16], random: u8) -> (next: TaskState)
        requires
            self.wf(),
            old(cpu).wf(),
        ensures
            next.wf(),
            final(cpu).wf(),
            (final(cpu)@, next) == cycle_effect(self, old(cpu)@, keys@, random),
    {
        match self {
            TaskState::Fetching => match cpu.step(keys, random) {
                Ok(Flow::Continue(_)) => TaskState::Fetching,
                Ok(Flow::AwaitKey(x)) => TaskState::AwaitingKey(x),
                Err(fault) => TaskState::Halted(fault),
            },
            _ => self,
        }
    }

    /// Delivers the event that key `key` went down. A task suspended in a
    /// blocking key read stores the key in the waiting register, moves
    /// behind the instruction and resumes fetching. In any other state, and
    /// for a number that names no key, nothing happens.
    pub fn key_event(self, cpu: &mut State, key: u8) -> (next: TaskState)
        requires
            self.wf(),
            old(cpu).wf(),
        ensures
            next.wf(),
            final(cpu).wf(),
            (final(cpu)@, next) == key_effect(self, old(cpu)@, key),
    {
        match self {
            TaskState::AwaitingKey(x) => {
                if (key as usize) < KEYS {
                    cpu.set_reg(x, key);
                    cpu.advance(false);
                    TaskState::Fetching
                } else {
                    self
                }
            },
            _ => self,
        }
    }
}

} // verus!
