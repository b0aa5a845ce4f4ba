use vstd::prelude::*;

use crate::cartridge::{
    cartridge_refusal,
    header_reaches_sizes, mbc_supported, parsed_header_matches, rom_accepted, Cartridge,
    CartridgeHeader, BOOT_ROM_SIZE,
};
use crate::cpu::{new_events, Cpu, CpuState, Registers, flags_of};
use crate::instructions::execute_spec;
use crate::memory::{lemma_mcycles_concat, mcycles, BusEvent};
use crate::debug::CpuDebug;
use crate::joypad::{key_code, JoypadKeys};
use crate::memory::SystemBus;
use crate::mmu::{mmu_wf, power_on, Mmu};
use crate::ppu::FRAMEBUFFER_SIZE;
use crate::EmulationFault;

verus! {

/// Machine cycles in one frame at single speed.
pub const CYCLES_PER_FRAME: u64 = 17556;

/// A Game Boy Color: the CPU and everything on its bus.
pub struct Gameboy {
    pub mmu: Mmu,
    pub cpu: Cpu,
}

/// The first cycle count a frame runs up to: one frame on from `total`,
/// less what the previous frame overran.
pub open spec fn frame_target(total: u64, carry_over: u64, speed: int) -> int {
    total + CYCLES_PER_FRAME * speed - carry_over
}

/// Where the frame that starts in `gb` ends on the cycle counter.
pub open spec fn frame_end(gb: &Gameboy) -> int {
    frame_target(
        gb.mmu@.system_state.total_cycles,
        gb.mmu@.system_state.carry_over_cycles,
        if gb.mmu@.system_state.key1 >= 0x80 { 2 } else { 1 },
    )
}

/// What a frame that ran to its end left: the cycle counter at or past the
/// frame's target, and the overrun kept for the next frame.
pub open spec fn frame_ran(old: &Gameboy, new: &Gameboy) -> bool {
    let target = frame_end(old);
    &&& new.mmu@.system_state.total_cycles >= target
    &&& new.mmu@.system_state.carry_over_cycles == new.mmu@.system_state.total_cycles - target
}

/// Successive CPU steps: step `k` starts in `states[k]`, records the events
/// from `cuts[k]` to `cuts[k + 1]` and ends in `states[k + 1]`, as `execute`
/// does it, without a fault, with the bus's cycle budget `budgets[k]`.
pub open spec fn cpu_steps(states: Seq<CpuState>, events: Seq<BusEvent>, cuts: Seq<int>, budgets: Seq<nat>) -> bool {
    &&& states.len() == cuts.len()
    &&& cuts.len() == budgets.len() + 1
    &&& cuts[0] == 0
    &&& cuts.last() == events.len()
    &&& forall|k: int| 0 <= k < cuts.len() ==> 0 <= #[trigger] cuts[k] <= events.len()
    &&& forall|k: int|
        0 <= k < budgets.len() ==> {
            &&& cuts[k] <= cuts[k + 1]
            &&& #[trigger] cpu_step(states[k], events.subrange(cuts[k], cuts[k + 1]), budgets[k], states[k + 1])
        }
}

/// One step of `execute` from `s` that records exactly `events`, ends in
/// `s2` and does not fault.
pub open spec fn cpu_step(s: CpuState, events: Seq<BusEvent>, budget: nat, s2: CpuState) -> bool {
    let (s3, recorded, result) = execute_spec(s, events, budget);
    &&& s3 == s2
    &&& recorded == events
    &&& result is Ok
}

/// One more CPU step on top of earlier ones.
#[verifier::spinoff_prover]
pub proof fn lemma_cpu_steps_push(
    states: Seq<CpuState>,
    events: Seq<BusEvent>,
    cuts: Seq<int>,
    budgets: Seq<nat>,
    s2: CpuState,
    e2: Seq<BusEvent>,
    budget: nat,
)
    requires
        cpu_steps(states, events, cuts, budgets),
        cpu_step(states.last(), e2, budget, s2),
    ensures
        cpu_steps(states.push(s2), events + e2, cuts.push((events + e2).len() as int), budgets.push(budget)),
{
    let all = events + e2;
    let cuts2 = cuts.push(all.len() as int);
    assert(all.subrange(events.len() as int, all.len() as int) =~= e2);
    let states2 = states.push(s2);
    let budgets2 = budgets.push(budget);
    assert forall|k: int| #![trigger cuts[k]] 0 <= k < budgets.len() implies all.subrange(cuts2[k], cuts2[k + 1])
        == events.subrange(cuts[k], cuts[k + 1]) && states2[k] == states[k] && states2[k + 1] == states[k + 1]
        && budgets2[k] == budgets[k] by {
        let next = k + 1;
        assert(0 <= cuts[k] <= events.len());
        assert(0 <= cuts[next] <= events.len());
        assert(cpu_step(states[k], events.subrange(cuts[k], cuts[k + 1]), budgets[k], states[k + 1]));
        assert(cuts2[k] == cuts[k] && cuts2[k + 1] == cuts[k + 1]);
        assert(all.subrange(cuts2[k], cuts2[k + 1]) =~= events.subrange(cuts[k], cuts[k + 1]));
    }
    assert forall|k: int|
        #![trigger cpu_step(states2[k], all.subrange(cuts2[k], cuts2[k + 1]), budgets2[k], states2[k + 1])]
        #![trigger cuts2[k]]
        0 <= k < budgets2.len() implies {
        &&& cuts2[k] <= cuts2[k + 1]
        &&& cpu_step(states2[k], all.subrange(cuts2[k], cuts2[k + 1]), budgets2[k], states2[k + 1])
    } by {
        if k < budgets.len() {
            assert(cuts[k] == cuts2[k]);
            assert(cpu_step(states[k], events.subrange(cuts[k], cuts[k + 1]), budgets[k], states[k + 1]));
        } else {
            assert(k == budgets.len());
            assert(cuts2[k] == events.len());
            assert(states2[k] == states.last());
        }
    }
    assert forall|k: int| 0 <= k < cuts2.len() implies 0 <= #[trigger] cuts2[k] <= all.len() by {
        if k < cuts.len() {
            assert(cuts[k] == cuts2[k]);
        }
    }
    assert(states2.len() == cuts2.len());
    assert(cuts2.len() == budgets2.len() + 1);
    assert(cuts2[0] == 0);
    assert(cuts2.last() == all.len());
}

/// One step of `execute` from `s` that records exactly `events`, ends in
/// `s2` and faults with `fault`.
pub open spec fn cpu_fault_step(s: CpuState, events: Seq<BusEvent>, budget: nat, s2: CpuState, fault: EmulationFault) -> bool {
    let (s3, recorded, result) = execute_spec(s, events, budget);
    &&& s3 == s2
    &&& recorded == events
    &&& result == Err::<(), EmulationFault>(fault)
}

/// The end of the frame that starts in `gb` does not fit the cycle counter.
pub open spec fn frame_end_overflows(gb: &Gameboy) -> bool {
    gb.mmu@.system_state.total_cycles + CYCLES_PER_FRAME * (if gb.mmu@.system_state.key1 >= 0x80 {
        2int
    } else {
        1int
    }) > u64::MAX
}

/// Step `k` began with the cycle counter at `start` plus the m-cycles of the
/// events before `cuts[k]`, below `target`, and with the rest of the counter's
/// range as its budget.
pub open spec fn steps_timed(events: Seq<BusEvent>, cuts: Seq<int>, budgets: Seq<nat>, start: int, target: int) -> bool {
    forall|k: int|
        #![trigger budgets[k]]
        0 <= k < budgets.len() ==> {
            &&& start + mcycles(events.take(cuts[k])) < target
            &&& budgets[k] == u64::MAX - (start + mcycles(events.take(cuts[k])))
        }
}

/// One more step, begun below `target`, on top of earlier timed steps.
pub proof fn lemma_steps_timed_push(
    events: Seq<BusEvent>,
    e2: Seq<BusEvent>,
    cuts: Seq<int>,
    budgets: Seq<nat>,
    start: int,
    target: int,
)
    requires
        steps_timed(events, cuts, budgets, start, target),
        cuts.len() == budgets.len() + 1,
        cuts.last() == events.len(),
        forall|k: int| 0 <= k < cuts.len() ==> 0 <= #[trigger] cuts[k] <= events.len(),
        start + mcycles(events) < target,
        u64::MAX - (start + mcycles(events)) >= 0,
    ensures
        steps_timed(
            events + e2,
            cuts.push((events + e2).len() as int),
            budgets.push((u64::MAX - (start + mcycles(events))) as nat),
            start,
            target,
        ),
{
    let all = events + e2;
    let cuts2 = cuts.push(all.len() as int);
    let budgets2 = budgets.push((u64::MAX - (start + mcycles(events))) as nat);
    assert forall|k: int| #![trigger budgets2[k]] #![trigger cuts2[k]] 0 <= k < budgets2.len() implies {
        &&& start + mcycles(all.take(cuts2[k])) < target
        &&& budgets2[k] == u64::MAX - (start + mcycles(all.take(cuts2[k])))
    } by {
        if k < budgets.len() {
            assert(cuts2[k] == cuts[k]);
            assert(0 <= cuts[k] <= events.len());
            assert(all.take(cuts[k]) =~= events.take(cuts[k]));
            assert(budgets2[k] == budgets[k]);
        } else {
            assert(cuts2[k] == cuts.last());
            assert(all.take(cuts2[k]) =~= events);
        }
    }
}

/// From `old` to `new` the CPU took more than `at_least` faultless steps
/// (counting the start as one state), each begun before the end of the frame
/// that starts in `old`; those steps made every bus access from one to the
/// other.
pub open spec fn ran_steps(old: &Gameboy, new: &Gameboy, at_least: nat) -> bool {
    exists|states: Seq<CpuState>, cuts: Seq<int>, budgets: Seq<nat>|
        #[trigger] cpu_steps(states, new_events(old.mmu, new.mmu), cuts, budgets)
            && steps_timed(new_events(old.mmu, new.mmu), cuts, budgets, old.mmu@.system_state.total_cycles as int, frame_end(old))
            && states.len() > at_least && states[0] == old.cpu.state() && states.last() == new.cpu.state()
}

/// From `old` to `new` the CPU took faultless steps and then one step that
/// faulted with `fault`, each begun before the end of the frame that starts
/// in `old`; together they made every bus access from one to the other.
pub open spec fn ran_steps_then_fault(old: &Gameboy, new: &Gameboy, fault: EmulationFault) -> bool {
    let all = new_events(old.mmu, new.mmu);
    let start = old.mmu@.system_state.total_cycles as int;
    exists|states: Seq<CpuState>, cuts: Seq<int>, budgets: Seq<nat>, cut: int|
        #[trigger] cpu_steps(states, all.take(cut), cuts, budgets)
        && 0 <= cut <= all.len() && states[0] == old.cpu.state()
            && steps_timed(all.take(cut), cuts, budgets, start, frame_end(old))
            && start + mcycles(all.take(cut)) < frame_end(old)
            && cpu_fault_step(
                states.last(),
                all.skip(cut),
                (u64::MAX - (start + mcycles(all.take(cut)))) as nat,
                new.cpu.state(),
                fault,
            )
}

/// A memory map that counts its cycles has counted, since an earlier state
/// of itself, the m-cycles of the events recorded in between.
proof fn lemma_cycles_since(m0: Mmu, m: Mmu)
    requires
        m0.cycles_counted(),
        m.cycles_counted(),
        m.bus_events().len() >= m0.bus_events().len(),
        m.bus_events().subrange(0, m0.bus_events().len() as int) == m0.bus_events(),
    ensures
        m@.system_state.total_cycles == m0@.system_state.total_cycles + mcycles(new_events(m0, m)),
{
    assert(m.bus_events() =~= m0.bus_events() + new_events(m0, m));
    lemma_mcycles_concat(m0.bus_events(), new_events(m0, m));
}

/// What a frame run from `old` to `new` that came back with `result` did.
/// A frame that ran to its end stepped the CPU, without a fault, from the
/// frame's start until the first step that reached the frame's end. A frame
/// that stopped did so because the frame's end does not fit the cycle
/// counter (and nothing ran), because a CPU step faulted, or because the
/// memory map latched a fault during the last step.
pub open spec fn frame_outcome(old: &Gameboy, new: &Gameboy, result: Result<(), EmulationFault>) -> bool {
    match result {
        Ok(_) => {
            &&& new.wf()
            &&& !frame_end_overflows(old)
            &&& frame_ran(old, new)
            &&& ran_steps(old, new, 0)
        },
        Err(fault) => {
            ||| frame_end_overflows(old) && fault == EmulationFault::CycleBudgetExhausted && *new == *old
            ||| !frame_end_overflows(old) && ran_steps_then_fault(old, new, fault)
            ||| !frame_end_overflows(old) && ran_steps(old, new, 1) && new.mmu@.fault == Some(fault)
        },
    }
}

impl Gameboy {
    /// The memory map is well formed and the cycle counters fit a frame.
    pub open spec fn wf(&self) -> bool {
        &&& mmu_wf(self.mmu@)
        &&& self.mmu.cycles_counted()
        &&& self.mmu@.system_state.carry_over_cycles <= self.mmu@.system_state.total_cycles
    }

    /// Insert a cartridge and power on; the cartridge's header comes back
    /// too. A ROM that `Cartridge::new` refuses is the error.
    pub fn new(rom: Vec<u8>, ram: Option<Vec<u8>>, boot_rom: Vec<u8>) -> (result: Result<
        (Self, CartridgeHeader),
        String,
    >)
        requires
            rom_accepted(rom@),
            boot_rom@.len() == BOOT_ROM_SIZE,
        ensures
            result is Ok <==> header_reaches_sizes(rom@.subrange(0x100, 0x150)) && mbc_supported(
                rom@[0x147],
            ),
            result matches Err(message) ==> message@ == cartridge_refusal(rom@),
            result matches Ok((gb, header)) ==> {
                &&& gb.wf()
                &&& power_on(gb.mmu@, gb.mmu@.cart, boot_rom@)
                &&& header == gb.mmu@.cart.header
                &&& parsed_header_matches(rom@.subrange(0x100, 0x150), header)
                &&& gb.cpu.state() == (CpuState {
                    regs: Registers {
                        a: 0,
                        f: flags_of(0),
                        b: 0,
                        c: 0,
                        d: 0,
                        e: 0,
                        h: 0,
                        l: 0,
                        sp: 0,
                        pc: 0,
                    },
                    ime: true,
                    previous_execution_state: None,
                    history: Seq::empty(),
                })
            },
    {
        let cart = match Cartridge::new(rom, ram) {
            Ok(cart) => cart,
            Err(message) => return Err(message),
        };
        let header = cart.header.clone();
        let mmu = Mmu::new(cart, boot_rom);
        let cpu = Cpu::new();
        Ok((Gameboy { mmu, cpu }, header))
    }

    pub fn load_cpu_debug(&self) -> (snapshot: CpuDebug)
        ensures
            snapshot.registers == self.cpu.regs,
            snapshot.opcodes@.len() == self.cpu.state().history.len(),
            forall|i: int|
                0 <= i < snapshot.opcodes@.len() ==> crate::cpu::history_entry(
                    #[trigger] snapshot.opcodes@[i],
                ) == self.cpu.state().history[i],
    {
        self.cpu.debug()
    }

    /// Run the CPU until the machine-cycle counter reaches the end of the
    /// frame; the cycles it overruns are kept and taken off the next frame.
    /// A fault of the CPU or of the memory map stops the frame.
    pub fn run_one_frame(&mut self) -> (result: Result<(), EmulationFault>)
        requires
            old(self).wf(),
        ensures
            mmu_wf(final(self).mmu@),
            frame_outcome(old(self), final(self), result),
    {
        let ghost m0 = self.mmu;
        let ghost m0_cpu = self.cpu.state();
        let ghost mut states = seq![self.cpu.state()];
        let ghost mut cuts = seq![0int];
        let ghost mut budgets = Seq::<nat>::empty();
        proof {
            crate::cpu::lemma_recorded_nothing(m0);
        }
        let machine_cycles = self.mmu.total_cycles();
        let carry_over_cycles = self.mmu.carry_over_cycles();
        let speed_multiplier = self.mmu.speed_multiplier();
        let frame = CYCLES_PER_FRAME * speed_multiplier;
        let end = match machine_cycles.checked_add(frame) {
            Some(end) => end,
            None => return Err(EmulationFault::CycleBudgetExhausted),
        };
        let target_machine_cycles = end - carry_over_cycles;
        while self.mmu.total_cycles() < target_machine_cycles
            invariant
                mmu_wf(self.mmu@),
                target_machine_cycles <= u64::MAX,
                m0 == old(self).mmu,
                target_machine_cycles == frame_end(old(self)),
                m0_cpu == old(self).cpu.state(),
                !frame_end_overflows(old(self)),
                cpu_steps(states, new_events(m0, self.mmu), cuts, budgets),
                steps_timed(
                    new_events(m0, self.mmu),
                    cuts,
                    budgets,
                    m0@.system_state.total_cycles as int,
                    target_machine_cycles as int,
                ),
                m0.cycles_counted(),
                self.mmu.cycles_counted(),
                states[0] == m0_cpu,
                states.last() == self.cpu.state(),
                self.mmu.bus_events().len() >= m0.bus_events().len(),
                self.mmu.bus_events().subrange(0, m0.bus_events().len() as int) == m0.bus_events(),
            decreases self.mmu.cycle_budget(),
        {
            let ghost before = self.mmu;
            let ghost s_before = self.cpu.state();
            proof {
                lemma_cycles_since(m0, before);
            }
            let step = self.cpu.execute(&mut self.mmu);
            if let Err(fault) = step {
                proof {
                    let prefix = new_events(m0, before);
                    let rest = new_events(before, self.mmu);
                    let all = new_events(m0, self.mmu);
                    let (s2x, e2x, rx) = execute_spec(s_before, rest, before.cycle_budget());
                    assert(self.mmu.bus_events() == before.bus_events() + e2x);
                    crate::cpu::lemma_new_events(before, self.mmu);
                    assert(rest == e2x);
                    assert(prefix + rest =~= all);
                    assert(all.take(prefix.len() as int) =~= prefix);
                    assert(all.skip(prefix.len() as int) =~= rest);
                    assert(cpu_steps(states, all.take(prefix.len() as int), cuts, budgets));
                    assert(cpu_fault_step(states.last(), all.skip(prefix.len() as int), before.cycle_budget(), self.cpu.state(), fault));
                    assert(steps_timed(all.take(prefix.len() as int), cuts, budgets, m0@.system_state.total_cycles as int, frame_end(old(self))));
                    assert(ran_steps_then_fault(old(self), self, fault));
                }
                return Err(fault);
            }
            proof {
                let e2 = new_events(before, self.mmu);
                let (s2x, e2x, rx) = execute_spec(s_before, e2, before.cycle_budget());
                assert(self.mmu.bus_events() == before.bus_events() + e2x);
                crate::cpu::lemma_new_events(before, self.mmu);
                assert(e2 == e2x);
                lemma_cpu_steps_push(states, new_events(m0, before), cuts, budgets, self.cpu.state(), e2, before.cycle_budget());
                lemma_steps_timed_push(
                    new_events(m0, before),
                    e2,
                    cuts,
                    budgets,
                    m0@.system_state.total_cycles as int,
                    target_machine_cycles as int,
                );
                assert(new_events(m0, before) + e2 =~= new_events(m0, self.mmu));
                states = states.push(self.cpu.state());
                cuts = cuts.push(new_events(m0, self.mmu).len() as int);
                budgets = budgets.push(before.cycle_budget());
                assert(self.mmu.bus_events().subrange(0, m0.bus_events().len() as int) =~= m0.bus_events());
            }
            if let Some(fault) = self.mmu.fault() {
                proof {
                    assert(cpu_steps(states, new_events(m0, self.mmu), cuts, budgets));
                    assert(ran_steps(old(self), self, 1));
                }
                return Err(fault);
            }
        }
        let carry_over_cycles = self.mmu.total_cycles() - target_machine_cycles;
        let ghost m1 = self.mmu;
        self.mmu.set_carry_over_cycles(carry_over_cycles);
        assert(new_events(m0, self.mmu) == new_events(m0, m1));
        assert(cpu_steps(states, new_events(m0, self.mmu), cuts, budgets));
        Ok(())
    }

    /// Copy the last frame the PPU rendered (RGBA, 160x144) into `buffer`.
    pub fn write_frame(&self, buffer: &mut [u8])
        requires
            self.wf(),
            old(buffer)@.len() == FRAMEBUFFER_SIZE,
        ensures
            final(buffer)@ == self.mmu@.ppu.framebuffer,
    {
        self.mmu.copy_frame(buffer);
    }

    pub fn keydown(&mut self, key: JoypadKeys)
        requires
            old(self).wf(),
        ensures
            final(self).wf(),
            final(self).mmu@.joypad.keys == old(self).mmu@.joypad.keys & !key_code(key),
    {
        self.mmu.keydown(key);
    }

    pub fn keyup(&mut self, key: JoypadKeys)
        requires
            old(self).wf(),
        ensures
            final(self).wf(),
            final(self).mmu@.joypad.keys == old(self).mmu@.joypad.keys | key_code(key),
    {
        self.mmu.keyup(key);
    }

    /// The cartridge RAM to save, if the cartridge has any.
    pub fn save_ram(&self) -> (ram: Option<&Vec<u8>>)
        ensures
            crate::cartridge::ref_ram_view(ram) == match self.mmu@.cart.mbc {
                crate::cartridge::MbcKind::NoMbc(_) => None,
                crate::cartridge::MbcKind::Mbc1(m) => crate::cartridge::ram_view(m.ram),
                crate::cartridge::MbcKind::Mbc5(m) => crate::cartridge::ram_view(m.ram),
            },
    {
        self.mmu.save_ram()
    }
}

} // verus!
