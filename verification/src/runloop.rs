//! The run loop's decisions: when the machine keeps executing and when
//! it stops.
//!
//! The loop alternates CPU execution bursts with device servicing.  A
//! burst ends at a trap or at a fault; a fault stops the machine, and
//! so does the GPU surface reporting itself closed.  With no GPU
//! device present the loop never stops on its own: the machine runs a
//! long-lived console program.

use vstd::prelude::*;

verus! {

/// The stack pointer every guest starts with.
pub const INITIAL_STACK_POINTER: u64 = 0x10000;

/// Where the run loop stands.
#[derive(Clone, Copy, PartialEq, Eq, Structural, Debug)]
pub enum RunState {
    /// The image is mapped and the entry registers are set; nothing
    /// has run yet.
    Loaded,
    /// A CPU burst is executing.
    Running,
    /// The burst ended at a guest trap.
    Trapped,
    /// The burst ended in an execution fault.
    Faulted,
    /// The loop is over.
    Stopped,
}

/// How a CPU execution burst ended.
#[derive(Clone, Copy, PartialEq, Eq, Structural, Debug)]
pub enum BurstOutcome {
    Trapped,
    Faulted,
}

/// What the loop does after servicing devices.
#[derive(Clone, Copy, PartialEq, Eq, Structural, Debug)]
pub enum LoopAction {
    /// Issue another CPU execution burst.
    RunCpu,
    /// Terminate.
    Stop,
}

/// The register values a fresh guest starts from: the fixed stack
/// pointer and the resolved entry address as program counter.
pub fn initial_registers(entry: u64) -> (r: (u64, u64))
    ensures
        r.0 == INITIAL_STACK_POINTER,
        r.1 == entry,
{
    (INITIAL_STACK_POINTER, entry)
}

/// The loop's whole termination rule: it stops exactly on a fault or
/// on a closed GPU surface (`gpu_open` is `None` when no GPU device is
/// present, and the loop then runs forever).
pub open spec fn spec_next_action(outcome: BurstOutcome, gpu_open: Option<bool>) -> LoopAction {
    if outcome is Faulted {
        LoopAction::Stop
    } else if gpu_open == Some(false) {
        LoopAction::Stop
    } else {
        LoopAction::RunCpu
    }
}

/// Once the GPU backend reports its surface closed, no further CPU
/// burst is ever issued; and the only other way the loop ends is a
/// fault.
pub proof fn lemma_closed_surface_stops(outcome: BurstOutcome, gpu_open: Option<bool>)
    ensures
        spec_next_action(outcome, gpu_open) is Stop <==> (outcome is Faulted || gpu_open == Some(
            false,
        )),
        gpu_open == Some(false) ==> spec_next_action(outcome, gpu_open) is Stop,
{
}

/// The run loop's state, advanced by the harness as the engine runs.
pub struct RunLoop {
    pub state: RunState,
}

impl RunLoop {
    /// A machine whose image is mapped and whose registers are set.
    pub fn new() -> (r: RunLoop)
        ensures
            r.state is Loaded,
    {
        RunLoop { state: RunState::Loaded }
    }

    /// A CPU burst begins: from the fresh machine, or again after a
    /// trap was serviced and the loop chose to continue.
    pub fn begin_burst(&mut self)
        requires
            old(self).state is Loaded || old(self).state is Trapped,
        ensures
            final(self).state is Running,
    {
        self.state = RunState::Running;
    }

    /// The burst ended: at a trap, or in a fault.
    pub fn burst_ended(&mut self, outcome: BurstOutcome)
        requires
            old(self).state is Running,
        ensures
            outcome is Trapped ==> final(self).state is Trapped,
            outcome is Faulted ==> final(self).state is Faulted,
    {
        match outcome {
            BurstOutcome::Trapped => {
                self.state = RunState::Trapped;
            },
            BurstOutcome::Faulted => {
                self.state = RunState::Faulted;
            },
        }
    }

    /// Devices are serviced; the loop decides.  A fault stops the
    /// machine; so does a GPU surface reporting closed — then no
    /// further burst is issued.  Otherwise the loop continues.
    pub fn service_and_decide(&mut self, gpu_open: Option<bool>) -> (r: LoopAction)
        requires
            old(self).state is Trapped || old(self).state is Faulted,
        ensures
            r == spec_next_action(
                if old(self).state is Faulted {
                    BurstOutcome::Faulted
                } else {
                    BurstOutcome::Trapped
                },
                gpu_open,
            ),
            r is Stop <==> final(self).state is Stopped,
            r is RunCpu <==> final(self).state is Trapped,
            gpu_open == Some(false) ==> r is Stop,
            old(self).state is Faulted ==> r is Stop,
    {
        let stop = match self.state {
            RunState::Faulted => true,
            _ => {
                match gpu_open {
                    Some(open_now) => !open_now,
                    None => false,
                }
            },
        };
        if stop {
            self.state = RunState::Stopped;
            LoopAction::Stop
        } else {
            self.state = RunState::Trapped;
            LoopAction::RunCpu
        }
    }
}

} // verus!
