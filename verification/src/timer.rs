use vstd::prelude::*;

use crate::interrupts::{interrupt_mask, InterruptHandler, InterruptType};
use crate::{ExecutionState, SystemState};

verus! {

pub const TIMER_START: u16 = 0xFF04;

pub const TIMER_END: u16 = 0xFF07;

pub const DIV_ADDRESS: u16 = 0xFF04;

pub const TIMA_ADDRESS: u16 = 0xFF05;

pub const TMA_ADDRESS: u16 = 0xFF06;

pub const TIMER_CONTROL: u16 = 0xFF07;

/// DIV, TIMA, TMA and TAC, with the edge detector that drives TIMA.
pub struct Timer {
    pub div: u16,
    pub tima: u8,
    pub tma: u8,
    pub tac: u8,
    pub previous_tima_inc_result: bool,
    /// The TIMA overflow reset with TMA is delayed by one m-cycle or 4 t-cycles.
    /// Since we tick the timer one m-cycle at a time we keep track of which
    /// t-cycle within that m-cycle TIMA overflowed and exactly 4 t-cycles later
    /// reset it with TMA
    pub tima_overflowed_last_cycle: Option<i32>,
}

/// The DIV bit whose falling edge increments TIMA, selected by TAC bits 1-0.
pub open spec fn tima_bit(tac: u8) -> u16 {
    if tac % 4 == 0 {
        512
    } else if tac % 4 == 1 {
        8
    } else if tac % 4 == 2 {
        32
    } else {
        128
    }
}

/// What a timer t-cycle can change outside the timer: KEY1, the execution
/// state and the interrupt flags.
pub struct TimerSurroundings {
    pub key1: u8,
    pub execution_state: ExecutionState,
    pub interrupt_flag: u8,
}

/// One t-cycle of the timer, the `i`-th of an m-cycle; `prev_i` is the t-cycle
/// at which TIMA overflowed in the previous m-cycle (or -1).
pub open spec fn timer_t_cycle(t: Timer, env: TimerSurroundings, i: int, prev_i: int) -> (
    Timer,
    TimerSurroundings,
) {
    let div = ((t.div as int + 1) % 65536) as u16;
    let switch = div == 0 && env.execution_state == ExecutionState::PreparingSpeedSwitch;
    let key1 = if switch { env.key1 ^ 0x81u8 } else { env.key1 };
    let execution_state = if switch { ExecutionState::ExecutingProgram } else { env.execution_state };
    let reload = prev_i == i;
    let tima = if reload { t.tma } else { t.tima };
    let interrupt_flag = if reload {
        env.interrupt_flag | interrupt_mask(InterruptType::Timer)
    } else {
        env.interrupt_flag
    };
    let overflowed = if reload { None } else { t.tima_overflowed_last_cycle };
    let inc = (div & tima_bit(t.tac)) != 0 && (t.tac & 0b100) != 0;
    let falling = t.previous_tima_inc_result && !inc;
    let tima2 = if falling { ((tima as int + 1) % 256) as u8 } else { tima };
    let overflowed2 = if falling && tima == 255 { Some(i as i32) } else { overflowed };
    (
        Timer {
            div,
            tima: tima2,
            tma: t.tma,
            tac: t.tac,
            previous_tima_inc_result: inc,
            tima_overflowed_last_cycle: overflowed2,
        },
        TimerSurroundings { key1, execution_state, interrupt_flag },
    )
}

/// The first `n` t-cycles of an m-cycle.
pub open spec fn timer_t_cycles(t: Timer, env: TimerSurroundings, n: nat, prev_i: int) -> (
    Timer,
    TimerSurroundings,
)
    decreases n,
{
    if n == 0 {
        (t, env)
    } else {
        let (t1, env1) = timer_t_cycles(t, env, (n - 1) as nat, prev_i);
        timer_t_cycle(t1, env1, n - 1, prev_i)
    }
}

/// The t-cycle of the previous m-cycle at which TIMA overflowed, or -1.
pub open spec fn overflow_index(t: Timer) -> int {
    match t.tima_overflowed_last_cycle {
        Some(i) => i as int,
        None => -1,
    }
}

/// One m-cycle (four t-cycles) of the timer.
pub open spec fn timer_m_cycle(t: Timer, env: TimerSurroundings) -> (Timer, TimerSurroundings) {
    timer_t_cycles(t, env, 4, overflow_index(t))
}

pub open spec fn surroundings(system_state: SystemState, interrupts: InterruptHandler) -> TimerSurroundings {
    TimerSurroundings {
        key1: system_state.key1,
        execution_state: system_state.execution_state,
        interrupt_flag: interrupts.interrupt_flag,
    }
}

pub open spec fn timer_same(a: Timer, b: Timer) -> bool {
    &&& a.div == b.div
    &&& a.tima == b.tima
    &&& a.tma == b.tma
    &&& a.tac == b.tac
    &&& a.previous_tima_inc_result == b.previous_tima_inc_result
    &&& a.tima_overflowed_last_cycle == b.tima_overflowed_last_cycle
}

impl Timer {
    pub fn new() -> (timer: Self)
        ensures
            timer.div == 0,
            timer.tima == 0,
            timer.tma == 0,
            timer.tac == 0,
            !timer.previous_tima_inc_result,
            timer.tima_overflowed_last_cycle is None,
    {
        Timer {
            div: 0x0000,
            tima: 0x00,
            tma: 0x00,
            tac: 0x00,
            previous_tima_inc_result: false,
            tima_overflowed_last_cycle: None,
        }
    }

    /// Advance the timer by one m-cycle.
    pub fn tick(&mut self, system_state: &mut SystemState, interrupts: &mut InterruptHandler)
        ensures
            ({
                let (t, env) = timer_m_cycle(*old(self), surroundings(*old(system_state), *old(interrupts)));
                &&& timer_same(*final(self), t)
                &&& final(system_state).key1 == env.key1
                &&& final(system_state).execution_state == env.execution_state
                &&& final(interrupts).interrupt_flag == env.interrupt_flag
            }),
            final(interrupts).interrupt_enable == old(interrupts).interrupt_enable,
            final(system_state).hardware_support == old(system_state).hardware_support,
            final(system_state).bootrom_mapped == old(system_state).bootrom_mapped,
            final(system_state).hdma_state == old(system_state).hdma_state,
            final(system_state).carry_over_cycles == old(system_state).carry_over_cycles,
            final(system_state).total_cycles == old(system_state).total_cycles,
    {
        let prev_i: i32 = match self.tima_overflowed_last_cycle {
            Some(i) => i,
            None => -1,
        };
        let ghost start = *self;
        let ghost env0 = surroundings(*system_state, *interrupts);
        let mut i: i32 = 0;
        while i < 4
            invariant
                0 <= i <= 4,
                prev_i == overflow_index(start),
                ({
                    let (t, env) = timer_t_cycles(start, env0, i as nat, prev_i as int);
                    &&& timer_same(*self, t)
                    &&& system_state.key1 == env.key1
                    &&& system_state.execution_state == env.execution_state
                    &&& interrupts.interrupt_flag == env.interrupt_flag
                }),
                interrupts.interrupt_enable == old(interrupts).interrupt_enable,
                system_state.hardware_support == old(system_state).hardware_support,
                system_state.bootrom_mapped == old(system_state).bootrom_mapped,
                system_state.hdma_state == old(system_state).hdma_state,
                system_state.carry_over_cycles == old(system_state).carry_over_cycles,
                system_state.total_cycles == old(system_state).total_cycles,
            decreases 4 - i,
        {
            self.t_cycle(i, prev_i, system_state, interrupts);
            i = i + 1;
        }
    }

    /// One t-cycle of the timer.
    fn t_cycle(
        &mut self,
        i: i32,
        prev_i: i32,
        system_state: &mut SystemState,
        interrupts: &mut InterruptHandler,
    )
        ensures
            ({
                let (t, env) = timer_t_cycle(
                    *old(self),
                    surroundings(*old(system_state), *old(interrupts)),
                    i as int,
                    prev_i as int,
                );
                &&& timer_same(*final(self), t)
                &&& final(system_state).key1 == env.key1
                &&& final(system_state).execution_state == env.execution_state
                &&& final(interrupts).interrupt_flag == env.interrupt_flag
            }),
            final(interrupts).interrupt_enable == old(interrupts).interrupt_enable,
            final(system_state).hardware_support == old(system_state).hardware_support,
            final(system_state).bootrom_mapped == old(system_state).bootrom_mapped,
            final(system_state).hdma_state == old(system_state).hdma_state,
            final(system_state).carry_over_cycles == old(system_state).carry_over_cycles,
            final(system_state).total_cycles == old(system_state).total_cycles,
    {
        self.div = self.div.wrapping_add(1);
        if self.div == 0x0000 && system_state.execution_state == ExecutionState::PreparingSpeedSwitch {
            // DIV overflowed. Complete speed switch
            system_state.key1 = system_state.key1 ^ 0x81;  // Toggle speed and reset switch request
            system_state.execution_state = ExecutionState::ExecutingProgram;
        }
        // Reset TIMA if it overflowed exactly 4 t-cycles ago

        if prev_i == i {
            self.tima = self.tma;
            interrupts.request_interrupt(InterruptType::Timer);
            self.tima_overflowed_last_cycle = None;
        }
        let tima_increment_bit = self.div & tima_bit_position(self.tac) != 0;
        let timer_enabled_bit = self.tac & 0b100 != 0;

        let tima_inc_result = tima_increment_bit && timer_enabled_bit;
        // Check for falling edge
        if self.previous_tima_inc_result && !tima_inc_result {
            if self.tima == 0xFF {
                self.tima_overflowed_last_cycle = Some(i);
                // TIMA reads 0x00 for the 4 t-cycles before it is reset
                self.tima = 0x00;
            } else {
                self.tima = self.tima + 1;
            }
        }
        self.previous_tima_inc_result = tima_inc_result;
    }

    pub fn read(&self, address: u16) -> (data: u8)
        requires
            TIMER_START <= address <= TIMER_END,
        ensures
            address == DIV_ADDRESS ==> data == self.div / 256,
            address == TIMA_ADDRESS ==> data == self.tima,
            address == TMA_ADDRESS ==> data == self.tma,
            address == TIMER_CONTROL ==> data == self.tac,
    {
        if address == DIV_ADDRESS {
            let d = self.div;
            assert(d >> 8u16 == d / 256) by {
                crate::bits::lemma_u16_bits(d);
            }
            (d >> 8u16) as u8
        } else if address == TIMA_ADDRESS {
            self.tima
        } else if address == TMA_ADDRESS {
            self.tma
        } else {
            self.tac
        }
    }

    pub fn write(&mut self, address: u16, data: u8)
        requires
            TIMER_START <= address <= TIMER_END,
        ensures
            final(self).div == (if address == DIV_ADDRESS { 0 } else { old(self).div }),
            final(self).tima == (if address == TIMA_ADDRESS { data } else { old(self).tima }),
            final(self).tma == (if address == TMA_ADDRESS { data } else { old(self).tma }),
            final(self).tac == (if address == TIMER_CONTROL { data % 8 } else { old(self).tac }),
            final(self).previous_tima_inc_result == old(self).previous_tima_inc_result,
            final(self).tima_overflowed_last_cycle == old(self).tima_overflowed_last_cycle,
    {
        if address == DIV_ADDRESS {
            self.div = 0x0000;
        } else if address == TIMA_ADDRESS {
            self.tima = data;
        } else if address == TMA_ADDRESS {
            self.tma = data;
        } else {
            assert(data & 0b111 == data % 8) by {
                crate::bits::lemma_u8_bits(data);
            }
            self.tac = data & 0b111;
        }
    }
}

/// The DIV bit watched for TIMA increments, selected by the TAC clock bits.
pub fn tima_bit_position(tac: u8) -> (bit: u16)
    ensures
        bit == tima_bit(tac),
{
    assert(tac & 0b11 == tac % 4) by {
        crate::bits::lemma_u8_bits(tac);
    }
    let clock = tac & 0b11;
    if clock == 0 {
        0x200
    } else if clock == 1 {
        0x08
    } else if clock == 2 {
        0x20
    } else {
        0x80
    }
}

/// The t-cycle four t-cycles after TIMA overflowed reloads TIMA with TMA,
/// whatever TIMA held, and requests the timer interrupt; TIMA may still
/// count once more in that same t-cycle. Any other t-cycle leaves TIMA as it
/// was or counts it up by one, and requests no interrupt.
pub proof fn lemma_timer_reload(t: Timer, env: TimerSurroundings, i: int, prev_i: int)
    ensures
        prev_i == i ==> timer_t_cycle(t, env, i, prev_i).0.tima == t.tma
            || timer_t_cycle(t, env, i, prev_i).0.tima as int == (t.tma as int + 1) % 256,
        prev_i == i ==> timer_t_cycle(t, env, i, prev_i).1.interrupt_flag == env.interrupt_flag | 0x04,
        prev_i != i ==> timer_t_cycle(t, env, i, prev_i).0.tima == t.tima
            || timer_t_cycle(t, env, i, prev_i).0.tima as int == (t.tima as int + 1) % 256,
        prev_i != i ==> timer_t_cycle(t, env, i, prev_i).1.interrupt_flag == env.interrupt_flag,
        timer_t_cycle(t, env, i, prev_i).0.tma == t.tma,
{
}

/// An overflow of TIMA in one m-cycle requests the timer interrupt during
/// the next.
pub proof fn lemma_overflow_requests_timer_interrupt(t: Timer, env: TimerSurroundings)
    requires
        t.tima_overflowed_last_cycle matches Some(k) && 0 <= k < 4,
    ensures
        timer_m_cycle(t, env).1.interrupt_flag & 0x04 == 0x04,
{
    reveal_with_fuel(timer_t_cycles, 5);
    let k = overflow_index(t);
    let s0 = (t, env);
    let s1 = timer_t_cycle(s0.0, s0.1, 0, k);
    let s2 = timer_t_cycle(s1.0, s1.1, 1, k);
    let s3 = timer_t_cycle(s2.0, s2.1, 2, k);
    let s4 = timer_t_cycle(s3.0, s3.1, 3, k);
    assert(timer_m_cycle(t, env) == s4);
    let f1 = s1.1.interrupt_flag;
    let f2 = s2.1.interrupt_flag;
    let f3 = s3.1.interrupt_flag;
    let f4 = s4.1.interrupt_flag;
    assert(f2 == f1 || f2 == f1 | 0x04);
    assert(f3 == f2 || f3 == f2 | 0x04);
    assert(f4 == f3 || f4 == f3 | 0x04);
    assert(forall|x: u8| #[trigger] (x | 0x04) & 0x04 == 0x04) by (bit_vector);
}

/// Over one m-cycle DIV advances by four (modulo 2^16).
pub proof fn lemma_div_advances_by_four(t: Timer, env: TimerSurroundings)
    ensures
        timer_m_cycle(t, env).0.div == (t.div as int + 4) % 65536,
{
    reveal_with_fuel(timer_t_cycles, 5);
}

} // verus!
