use vstd::prelude::*;

use crate::interrupts::InterruptType;
use crate::ExecutionState;

verus! {

/// One interaction of the CPU with the rest of the system, as the system
/// saw it.
#[derive(Debug, Copy, Clone, PartialEq, Eq, Structural)]
pub enum BusEvent {
    /// A read that takes one m-cycle, and the byte it returned.
    Read { address: u16, data: u8 },
    /// A write that takes one m-cycle.
    Write { address: u16, data: u8 },
    /// An m-cycle without a memory access.
    Tick,
    /// A read that takes no time, and the byte it returned.
    Peek { address: u16, data: u8 },
    /// The CPU looked at the execution state and saw this one.
    ExecutionState(ExecutionState),
    /// The CPU changed the execution state.
    SetExecutionState(ExecutionState),
    /// The CPU looked at KEY1 and saw this value.
    Key1(u8),
    /// The CPU cleared the request of an interrupt it is servicing.
    Acknowledge(InterruptType),
}

/// The byte a read, a peek or a KEY1 look returned.
pub open spec fn event_data(e: BusEvent) -> u8 {
    match e {
        BusEvent::Read { data, .. } => data,
        BusEvent::Peek { data, .. } => data,
        BusEvent::Key1(v) => v,
        _ => 0,
    }
}

/// The execution state an `ExecutionState` event saw.
pub open spec fn event_state(e: BusEvent) -> ExecutionState {
    match e {
        BusEvent::ExecutionState(s) => s,
        _ => ExecutionState::ExecutingProgram,
    }
}

/// Whether an event takes an m-cycle.
pub open spec fn takes_cycle(e: BusEvent) -> bool {
    e is Read || e is Write || e is Tick
}

/// The m-cycles that a run of events takes.
pub open spec fn mcycles(events: Seq<BusEvent>) -> nat
    decreases events.len(),
{
    if events.len() == 0 {
        0
    } else {
        mcycles(events.drop_last()) + if takes_cycle(events.last()) { 1nat } else { 0nat }
    }
}

/// One more event adds its own m-cycle, if it takes one.
pub proof fn lemma_mcycles_push(events: Seq<BusEvent>, e: BusEvent)
    ensures
        mcycles(events.push(e)) == mcycles(events) + if takes_cycle(e) { 1nat } else { 0nat },
{
    assert(events.push(e).drop_last() =~= events);
}

/// The m-cycles of two runs of events, one after the other, add up.
pub proof fn lemma_mcycles_concat(a: Seq<BusEvent>, b: Seq<BusEvent>)
    ensures
        mcycles(a + b) == mcycles(a) + mcycles(b),
    decreases b.len(),
{
    if b.len() == 0 {
        assert(a + b =~= a);
    } else {
        lemma_mcycles_concat(a, b.drop_last());
        assert((a + b).drop_last() =~= a + b.drop_last());
        assert((a + b).last() == b.last());
    }
}

/// What the CPU needs of the system it runs on. Every method records what
/// it did in `bus_events`; operations that take an m-cycle use up one cycle
/// of the budget.
pub trait SystemBus {
    /// Everything the CPU has done with the system so far.
    spec fn bus_events(&self) -> Seq<BusEvent>;

    /// How many more m-cycles the system can count.
    spec fn cycle_budget(&self) -> nat;

    /// The system is in a state in which it can serve the CPU.
    spec fn bus_wf(&self) -> bool;

    /// Read the data (`Byte`) at `address` and return it. `address` can be
    /// mapped to something else. This function should take exactly
    /// `1` m-cycle or `4` t-cycles in the Game Boy clock timings
    fn read(&mut self, address: u16) -> (data: u8)
        requires
            old(self).bus_wf(),
            old(self).cycle_budget() > 0,
        ensures
            final(self).bus_wf(),
            final(self).bus_events() == old(self).bus_events().push(BusEvent::Read { address, data }),
            final(self).cycle_budget() + 1 == old(self).cycle_budget(),
    ;

    /// Write the `data` (`Byte`) to `address`. This method should take
    /// exactly `1` m-cycle or `4` t-cycles in the Game Boy clock timings.
    fn write(&mut self, address: u16, data: u8)
        requires
            old(self).bus_wf(),
            old(self).cycle_budget() > 0,
        ensures
            final(self).bus_wf(),
            final(self).bus_events() == old(self).bus_events().push(BusEvent::Write { address, data }),
            final(self).cycle_budget() + 1 == old(self).cycle_budget(),
    ;

    /// Let one m-cycle pass.
    fn tick(&mut self)
        requires
            old(self).bus_wf(),
            old(self).cycle_budget() > 0,
        ensures
            final(self).bus_wf(),
            final(self).bus_events() == old(self).bus_events().push(BusEvent::Tick),
            final(self).cycle_budget() + 1 == old(self).cycle_budget(),
    ;

    /// Read a memory location without letting time pass.
    fn unticked_read(&mut self, address: u16) -> (data: u8)
        requires
            old(self).bus_wf(),
        ensures
            final(self).bus_wf(),
            final(self).bus_events() == old(self).bus_events().push(BusEvent::Peek { address, data }),
            final(self).cycle_budget() == old(self).cycle_budget(),
    ;

    fn execution_state(&mut self) -> (state: ExecutionState)
        requires
            old(self).bus_wf(),
        ensures
            final(self).bus_wf(),
            final(self).bus_events() == old(self).bus_events().push(
                BusEvent::ExecutionState(state),
            ),
            final(self).cycle_budget() == old(self).cycle_budget(),
    ;

    fn set_execution_state(&mut self, state: ExecutionState)
        requires
            old(self).bus_wf(),
        ensures
            final(self).bus_wf(),
            final(self).bus_events() == old(self).bus_events().push(
                BusEvent::SetExecutionState(state),
            ),
            final(self).cycle_budget() == old(self).cycle_budget(),
    ;

    fn key1(&mut self) -> (value: u8)
        requires
            old(self).bus_wf(),
        ensures
            final(self).bus_wf(),
            final(self).bus_events() == old(self).bus_events().push(BusEvent::Key1(value)),
            final(self).cycle_budget() == old(self).cycle_budget(),
    ;

    /// Clear the request of an interrupt that is being serviced.
    fn reset_interrupt_request(&mut self, interrupt: InterruptType)
        requires
            old(self).bus_wf(),
        ensures
            final(self).bus_wf(),
            final(self).bus_events() == old(self).bus_events().push(
                BusEvent::Acknowledge(interrupt),
            ),
            final(self).cycle_budget() == old(self).cycle_budget(),
    ;

    /// Whether at least `cycles` more m-cycles can be counted.
    fn has_cycle_budget(&self, cycles: u64) -> (enough: bool)
        requires
            self.bus_wf(),
        ensures
            enough == (self.cycle_budget() >= cycles),
    ;
}

} // verus!
