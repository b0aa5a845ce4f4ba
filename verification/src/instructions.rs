//! The instructions of the SM83 that talk to the bus, each proved against
//! its semantics in `cpu`.
use vstd::prelude::*;

use crate::cpu::{
    alu_a_u8_spec, condition, hl, jr_spec, ld_a_r16_spec, ld_r16_a_spec, ld_r16_u16_spec,
    ld_r8_u8_spec, lemma_new_events, inc_r8_spec, dec_r8_spec, halt_spec, ld_r8_r8_spec,
    ld_ff00_u8_a_spec, rd, read_at, history_pushed, history_push, alu_a_r8_spec, CpuState, lemma_recorded_nothing, set_group1, group1, opcode_b54, opcode_b543, flag_op, cb_spec, cb_body_spec, with_regs, call_spec, call_cc_spec, skip16_spec, push_events, push_r16_spec, pop_r16_spec,
    add_hl_r16_spec, ret_spec, reti_spec, ret_cc_spec, lemma_chain, ld_u16_a_spec, ld_a_u16_spec, jp_spec,
    jp_cc_spec, add_sp_i8_spec, ld_hl_sp_i8_spec, sp_offset, FlagRegister, ld_sp_hl_spec, ld_u16_sp_spec, rst_spec, ld_ff00_c_a_spec, ld_a_ff00_u8_spec, ld_a_ff00_c_spec, new_events, opcode_b43, pc_plus, performs, recorded,
    sign_extend, stop_spec, wrap16, ByteRegister, Cpu, Registers, WordRegister,
};
use crate::memory::{lemma_mcycles_push, mcycles, BusEvent, SystemBus};
use crate::utils::{compose_word, decompose_word, lemma_bit_test};
use crate::debug::ExecutedOpcode;
use crate::interrupts::{
    interrupt_vector, InterruptType, INTERRUPT_ENABLE_ADDRESS, INTERRUPT_FLAG_ADDRESS,
};
use crate::memory::event_state;
use vstd::std_specs::bits::u8_trailing_zeros;
use crate::{EmulationFault, ExecutionState};

verus! {

/// The bus recorded exactly `x` on top of what `before` had.
pub proof fn lemma_events<M: SystemBus>(before: M, after: M, x: Seq<BusEvent>)
    requires
        after.bus_events() =~= before.bus_events() + x,
    ensures
        new_events(before, after) == x,
        recorded(before, after, x),
{
    lemma_new_events(before, after);
}

/// Two increments of PC are one increment by two.
pub proof fn lemma_pc_plus2(r: Registers)
    ensures
        pc_plus(pc_plus(r, 1), 1) == pc_plus(r, 2),
{
}

impl Cpu {
    #[verifier::spinoff_prover]
    pub(crate) fn stop<M: SystemBus>(&mut self, mmu: &mut M)
        requires
            old(mmu).bus_wf(),
            old(mmu).cycle_budget() >= 1,
        ensures
            final(mmu).bus_wf(),
            performs(*old(mmu), *final(mmu), old(self).state(), final(self).state(), stop_spec(old(self).state(), new_events(*old(mmu), *final(mmu)))),
            final(mmu).cycle_budget() + 1 >= old(mmu).cycle_budget(),
            final(mmu).cycle_budget() <= old(mmu).cycle_budget(),
    {
        let ghost m0 = *mmu;
        let ghost s0 = self.state();
        let key1 = mmu.key1();
        assert((key1 & 0b1 == 0b1) == (key1 % 2 == 1)) by {
            crate::bits::lemma_u8_bits(key1);
        }
        if key1 & 0b1 == 0b1 {
            // A speed switch has been requested
            mmu.set_execution_state(ExecutionState::PreparingSpeedSwitch);
            let byte = self.fetch(mmu);
            proof {
                lemma_events(
                    m0,
                    *mmu,
                    seq![
                        BusEvent::Key1(key1),
                        BusEvent::SetExecutionState(ExecutionState::PreparingSpeedSwitch),
                        BusEvent::Read { address: s0.regs.pc, data: byte },
                    ],
                );
            }
        } else {
            let byte = self.fetch(mmu);
            proof {
                lemma_events(
                    m0,
                    *mmu,
                    seq![BusEvent::Key1(key1), BusEvent::Read { address: s0.regs.pc, data: byte }],
                );
            }
        }
        assert(self.state() =~= stop_spec(s0, new_events(m0, *mmu)).0);
    }

    #[verifier::spinoff_prover]
    pub(crate) fn ld_r16_u16<M: SystemBus>(&mut self, opcode: u8, mmu: &mut M)
        requires
            old(mmu).bus_wf(),
            old(mmu).cycle_budget() >= 2,
        ensures
            final(mmu).bus_wf(),
            performs(*old(mmu), *final(mmu), old(self).state(), final(self).state(), ld_r16_u16_spec(opcode, old(self).state(), new_events(*old(mmu), *final(mmu)))),
            final(mmu).cycle_budget() + 2 >= old(mmu).cycle_budget(),
            final(mmu).cycle_budget() <= old(mmu).cycle_budget(),
    {
        let ghost m0 = *mmu;
        let ghost s0 = self.state();
        let lower = self.fetch(mmu);
        let upper = self.fetch(mmu);
        let b54 = (opcode & 0x30) >> 4u8;
        assert((opcode & 0x30) >> 4u8 == (opcode / 16) % 4) by {
            crate::bits::lemma_u8_bits(opcode);
        }
        let value = compose_word(upper, lower);
        WordRegister::for_group1(b54).set(&mut self.regs, value);
        proof {
            lemma_pc_plus2(s0.regs);
            lemma_events(
                m0,
                *mmu,
                seq![
                    BusEvent::Read { address: s0.regs.pc, data: lower },
                    BusEvent::Read { address: wrap16(s0.regs.pc + 1), data: upper },
                ],
            );
        }
        assert(self.state() =~= ld_r16_u16_spec(opcode, s0, new_events(m0, *mmu)).0);
    }

    #[verifier::spinoff_prover]
    pub(crate) fn alu_a_u8<M: SystemBus>(&mut self, opcode: u8, mmu: &mut M)
        requires
            old(mmu).bus_wf(),
            old(mmu).cycle_budget() >= 1,
        ensures
            final(mmu).bus_wf(),
            performs(*old(mmu), *final(mmu), old(self).state(), final(self).state(), alu_a_u8_spec(opcode, old(self).state(), new_events(*old(mmu), *final(mmu)))),
            final(mmu).cycle_budget() + 1 >= old(mmu).cycle_budget(),
            final(mmu).cycle_budget() <= old(mmu).cycle_budget(),
    {
        let ghost m0 = *mmu;
        let ghost s0 = self.state();
        let b543 = (opcode & 0x38) >> 3u8;
        assert((opcode & 0x38) >> 3u8 == (opcode / 8) % 8) by {
            crate::bits::lemma_u8_bits(opcode);
        }
        let operand = self.fetch(mmu);
        self.alu_op(b543, operand);
        proof {
            lemma_events(m0, *mmu, seq![BusEvent::Read { address: s0.regs.pc, data: operand }]);
        }
        assert(self.state() =~= alu_a_u8_spec(opcode, s0, new_events(m0, *mmu)).0);
    }

    #[verifier::spinoff_prover]
    #[verifier::rlimit(40)]
    pub(crate) fn ld_r16_a<M: SystemBus>(&mut self, opcode: u8, mmu: &mut M)
        requires
            old(mmu).bus_wf(),
            old(mmu).cycle_budget() >= 1,
        ensures
            final(mmu).bus_wf(),
            performs(*old(mmu), *final(mmu), old(self).state(), final(self).state(), ld_r16_a_spec(opcode, old(self).state(), new_events(*old(mmu), *final(mmu)))),
            final(mmu).cycle_budget() + 1 >= old(mmu).cycle_budget(),
            final(mmu).cycle_budget() <= old(mmu).cycle_budget(),
    {
        let ghost m0 = *mmu;
        let ghost s0 = self.state();
        let b54 = (opcode & 0x30) >> 4u8;
        assert((opcode & 0x30) >> 4u8 == (opcode / 16) % 4) by {
            crate::bits::lemma_u8_bits(opcode);
        }
        let address = WordRegister::for_group2(b54).get(&self.regs);
        mmu.write(address, self.regs.a);
        // Increment or decrement HL if the opcode requires it
        if b54 == 2 {
            let v = self.regs.get_hl().wrapping_add(1);
            self.regs.set_hl(v);
        } else if b54 == 3 {
            let v = self.regs.get_hl().wrapping_sub(1);
            self.regs.set_hl(v);
        }
        proof {
            lemma_events(m0, *mmu, seq![BusEvent::Write { address, data: s0.regs.a }]);
        }
        assert(self.state() =~= ld_r16_a_spec(opcode, s0, new_events(m0, *mmu)).0);
    }

    #[verifier::spinoff_prover]
    #[verifier::rlimit(40)]
    pub(crate) fn ld_a_r16<M: SystemBus>(&mut self, opcode: u8, mmu: &mut M)
        requires
            old(mmu).bus_wf(),
            old(mmu).cycle_budget() >= 1,
        ensures
            final(mmu).bus_wf(),
            performs(*old(mmu), *final(mmu), old(self).state(), final(self).state(), ld_a_r16_spec(opcode, old(self).state(), new_events(*old(mmu), *final(mmu)))),
            final(mmu).cycle_budget() + 1 >= old(mmu).cycle_budget(),
            final(mmu).cycle_budget() <= old(mmu).cycle_budget(),
    {
        let ghost m0 = *mmu;
        let ghost s0 = self.state();
        let b54 = (opcode & 0x30) >> 4u8;
        assert((opcode & 0x30) >> 4u8 == (opcode / 16) % 4) by {
            crate::bits::lemma_u8_bits(opcode);
        }
        let address = WordRegister::for_group2(b54).get(&self.regs);
        self.regs.a = mmu.read(address);
        // Increment or decrement HL if the opcode requires it
        if b54 == 2 {
            let v = self.regs.get_hl().wrapping_add(1);
            self.regs.set_hl(v);
        } else if b54 == 3 {
            let v = self.regs.get_hl().wrapping_sub(1);
            self.regs.set_hl(v);
        }
        proof {
            lemma_events(m0, *mmu, seq![BusEvent::Read { address, data: self.regs.a }]);
        }
        assert(self.state() =~= ld_a_r16_spec(opcode, s0, new_events(m0, *mmu)).0);
    }

    #[verifier::spinoff_prover]
    pub(crate) fn jr_cc_i8<M: SystemBus>(&mut self, opcode: u8, mmu: &mut M)
        requires
            old(mmu).bus_wf(),
            old(mmu).cycle_budget() >= 2,
        ensures
            final(mmu).bus_wf(),
            performs(*old(mmu), *final(mmu), old(self).state(), final(self).state(), jr_spec(condition(old(self).regs, opcode_b43(opcode)), old(self).state(), new_events(*old(mmu), *final(mmu)))),
            final(mmu).cycle_budget() + 2 >= old(mmu).cycle_budget(),
            final(mmu).cycle_budget() <= old(mmu).cycle_budget(),
    {
        let ghost m0 = *mmu;
        let ghost s0 = self.state();
        let b43 = (opcode & 0x18) >> 3u8;
        assert((opcode & 0x18) >> 3u8 == (opcode / 8) % 4) by {
            crate::bits::lemma_u8_bits(opcode);
        }
        let offset = self.fetch(mmu);
        if self.check_condition(b43) {
            let extended = sign_extend_exec(offset);
            self.regs.pc = self.regs.pc.wrapping_add(extended);
            mmu.tick();
            proof {
                lemma_events(
                    m0,
                    *mmu,
                    seq![BusEvent::Read { address: s0.regs.pc, data: offset }, BusEvent::Tick],
                );
            }
        } else {
            proof {
                lemma_events(m0, *mmu, seq![BusEvent::Read { address: s0.regs.pc, data: offset }]);
            }
        }
        assert(self.state() =~= jr_spec(condition(s0.regs, opcode_b43(opcode)), s0, new_events(m0, *mmu)).0);
    }

    #[verifier::spinoff_prover]
    pub(crate) fn jr_i8<M: SystemBus>(&mut self, _opcode: u8, mmu: &mut M)
        requires
            old(mmu).bus_wf(),
            old(mmu).cycle_budget() >= 2,
        ensures
            final(mmu).bus_wf(),
            performs(*old(mmu), *final(mmu), old(self).state(), final(self).state(), jr_spec(true, old(self).state(), new_events(*old(mmu), *final(mmu)))),
            final(mmu).cycle_budget() + 2 >= old(mmu).cycle_budget(),
            final(mmu).cycle_budget() <= old(mmu).cycle_budget(),
    {
        let ghost m0 = *mmu;
        let ghost s0 = self.state();
        let offset = self.fetch(mmu);
        let extended = sign_extend_exec(offset);
        self.regs.pc = self.regs.pc.wrapping_add(extended);
        mmu.tick();
        proof {
            lemma_events(
                m0,
                *mmu,
                seq![BusEvent::Read { address: s0.regs.pc, data: offset }, BusEvent::Tick],
            );
        }
        assert(self.state() =~= jr_spec(true, s0, new_events(m0, *mmu)).0);
    }

    #[verifier::spinoff_prover]
    pub(crate) fn ld_r8_u8<M: SystemBus>(&mut self, opcode: u8, mmu: &mut M)
        requires
            old(mmu).bus_wf(),
            old(mmu).cycle_budget() >= 2,
        ensures
            final(mmu).bus_wf(),
            performs(*old(mmu), *final(mmu), old(self).state(), final(self).state(), ld_r8_u8_spec(opcode, old(self).state(), new_events(*old(mmu), *final(mmu)))),
            final(mmu).cycle_budget() + 2 >= old(mmu).cycle_budget(),
            final(mmu).cycle_budget() <= old(mmu).cycle_budget(),
    {
        let ghost m0 = *mmu;
        let ghost s0 = self.state();
        let b543 = (opcode & 0x38) >> 3u8;
        assert((opcode & 0x38) >> 3u8 == (opcode / 8) % 8) by {
            crate::bits::lemma_u8_bits(opcode);
        }
        let operand = self.fetch(mmu);
        let ghost m1 = *mmu;
        let ghost r1 = self.regs;
        ByteRegister::for_r8(b543, &self.regs).set(operand, &mut self.regs, mmu);
        proof {
            let e0 = seq![BusEvent::Read { address: s0.regs.pc, data: operand }];
            if b543 == 6 {
                lemma_events(
                    m0,
                    *mmu,
                    e0 + seq![BusEvent::Write { address: hl(r1), data: operand }],
                );
            } else {
                lemma_events(m0, *mmu, e0 + Seq::<BusEvent>::empty());
            }
        }
        assert(self.state() =~= ld_r8_u8_spec(opcode, s0, new_events(m0, *mmu)).0);
    }
}

impl Cpu {
    #[verifier::spinoff_prover]
    pub(crate) fn inc_r8<M: SystemBus>(&mut self, opcode: u8, mmu: &mut M)
        requires
            old(mmu).bus_wf(),
            old(mmu).cycle_budget() >= 2,
        ensures
            final(mmu).bus_wf(),
            performs(*old(mmu), *final(mmu), old(self).state(), final(self).state(), inc_r8_spec(opcode, old(self).state(), new_events(*old(mmu), *final(mmu)))),
            final(mmu).cycle_budget() + 2 >= old(mmu).cycle_budget(),
            final(mmu).cycle_budget() <= old(mmu).cycle_budget(),
    {
        let ghost m0 = *mmu;
        let ghost s0 = self.state();
        let b543 = (opcode & 0x38) >> 3u8;
        assert((opcode & 0x38) >> 3u8 == (opcode / 8) % 8) by {
            crate::bits::lemma_u8_bits(opcode);
        }
        let operand = ByteRegister::for_r8(b543, &self.regs).get(&self.regs, mmu);
        let result = self.inc_value(operand);
        ByteRegister::for_r8(b543, &self.regs).set(result, &mut self.regs, mmu);
        proof {
            let a = hl(s0.regs);
            if b543 == 6 {
                lemma_events(
                    m0,
                    *mmu,
                    seq![BusEvent::Read { address: a, data: operand }] + seq![
                        BusEvent::Write { address: a, data: result },
                    ],
                );
            } else {
                lemma_events(m0, *mmu, Seq::<BusEvent>::empty() + Seq::<BusEvent>::empty());
            }
        }
        assert(self.state() =~= inc_r8_spec(opcode, s0, new_events(m0, *mmu)).0);
    }

    #[verifier::spinoff_prover]
    pub(crate) fn dec_r8<M: SystemBus>(&mut self, opcode: u8, mmu: &mut M)
        requires
            old(mmu).bus_wf(),
            old(mmu).cycle_budget() >= 2,
        ensures
            final(mmu).bus_wf(),
            performs(*old(mmu), *final(mmu), old(self).state(), final(self).state(), dec_r8_spec(opcode, old(self).state(), new_events(*old(mmu), *final(mmu)))),
            final(mmu).cycle_budget() + 2 >= old(mmu).cycle_budget(),
            final(mmu).cycle_budget() <= old(mmu).cycle_budget(),
    {
        let ghost m0 = *mmu;
        let ghost s0 = self.state();
        let b543 = (opcode & 0x38) >> 3u8;
        assert((opcode & 0x38) >> 3u8 == (opcode / 8) % 8) by {
            crate::bits::lemma_u8_bits(opcode);
        }
        let operand = ByteRegister::for_r8(b543, &self.regs).get(&self.regs, mmu);
        let result = self.dec_value(operand);
        ByteRegister::for_r8(b543, &self.regs).set(result, &mut self.regs, mmu);
        proof {
            let a = hl(s0.regs);
            if b543 == 6 {
                lemma_events(
                    m0,
                    *mmu,
                    seq![BusEvent::Read { address: a, data: operand }] + seq![
                        BusEvent::Write { address: a, data: result },
                    ],
                );
            } else {
                lemma_events(m0, *mmu, Seq::<BusEvent>::empty() + Seq::<BusEvent>::empty());
            }
        }
        assert(self.state() =~= dec_r8_spec(opcode, s0, new_events(m0, *mmu)).0);
    }

    #[verifier::spinoff_prover]
    pub(crate) fn halt<M: SystemBus>(&mut self, _opcode: u8, mmu: &mut M)
        requires
            old(mmu).bus_wf(),
        ensures
            final(mmu).bus_wf(),
            performs(*old(mmu), *final(mmu), old(self).state(), final(self).state(), halt_spec(old(self).state(), new_events(*old(mmu), *final(mmu)))),
            final(mmu).cycle_budget() == old(mmu).cycle_budget(),
    {
        let ghost m0 = *mmu;
        let ghost s0 = self.state();
        let state = mmu.execution_state();
        self.previous_execution_state = Some(state);
        mmu.set_execution_state(ExecutionState::Halted);
        proof {
            lemma_events(
                m0,
                *mmu,
                seq![
                    BusEvent::ExecutionState(state),
                    BusEvent::SetExecutionState(ExecutionState::Halted),
                ],
            );
        }
        assert(self.state() =~= halt_spec(s0, new_events(m0, *mmu)).0);
    }

    #[verifier::spinoff_prover]
    pub(crate) fn ld_r8_r8<M: SystemBus>(&mut self, opcode: u8, mmu: &mut M)
        requires
            old(mmu).bus_wf(),
            old(mmu).cycle_budget() >= 2,
        ensures
            final(mmu).bus_wf(),
            performs(*old(mmu), *final(mmu), old(self).state(), final(self).state(), ld_r8_r8_spec(opcode, old(self).state(), new_events(*old(mmu), *final(mmu)))),
            final(mmu).cycle_budget() + 2 >= old(mmu).cycle_budget(),
            final(mmu).cycle_budget() <= old(mmu).cycle_budget(),
    {
        let ghost m0 = *mmu;
        let ghost s0 = self.state();
        // Destination
        let b543 = (opcode & 0x38) >> 3u8;
        // Source
        let b210 = opcode & 0x07;
        assert((opcode & 0x38) >> 3u8 == (opcode / 8) % 8) by {
            crate::bits::lemma_u8_bits(opcode);
        }
        assert(opcode & 0x07 == opcode % 8) by {
            crate::bits::lemma_u8_bits(opcode);
        }
        let source = ByteRegister::for_r8(b210, &self.regs).get(&self.regs, mmu);
        ByteRegister::for_r8(b543, &self.regs).set(source, &mut self.regs, mmu);
        proof {
            let a = hl(s0.regs);
            let e_src = if b210 == 6 {
                seq![BusEvent::Read { address: a, data: source }]
            } else {
                Seq::<BusEvent>::empty()
            };
            let e_dst = if b543 == 6 {
                seq![BusEvent::Write { address: a, data: source }]
            } else {
                Seq::<BusEvent>::empty()
            };
            lemma_events(m0, *mmu, e_src + e_dst);
        }
        assert(self.state() =~= ld_r8_r8_spec(opcode, s0, new_events(m0, *mmu)).0);
    }

    #[verifier::spinoff_prover]
    pub(crate) fn ld_ff00_u8_a<M: SystemBus>(&mut self, _opcode: u8, mmu: &mut M)
        requires
            old(mmu).bus_wf(),
            old(mmu).cycle_budget() >= 2,
        ensures
            final(mmu).bus_wf(),
            performs(*old(mmu), *final(mmu), old(self).state(), final(self).state(), ld_ff00_u8_a_spec(old(self).state(), new_events(*old(mmu), *final(mmu)))),
            final(mmu).cycle_budget() + 2 >= old(mmu).cycle_budget(),
            final(mmu).cycle_budget() <= old(mmu).cycle_budget(),
    {
        let ghost m0 = *mmu;
        let ghost s0 = self.state();
        let offset = self.fetch(mmu);
        let address = 0xFF00 + offset as u16;
        mmu.write(address, self.regs.a);
        proof {
            lemma_events(
                m0,
                *mmu,
                seq![
                    BusEvent::Read { address: s0.regs.pc, data: offset },
                    BusEvent::Write { address, data: s0.regs.a },
                ],
            );
        }
        assert(self.state() =~= ld_ff00_u8_a_spec(s0, new_events(m0, *mmu)).0);
    }

    #[verifier::spinoff_prover]
    pub(crate) fn ld_ff00_c_a<M: SystemBus>(&mut self, _opcode: u8, mmu: &mut M)
        requires
            old(mmu).bus_wf(),
            old(mmu).cycle_budget() >= 1,
        ensures
            final(mmu).bus_wf(),
            performs(*old(mmu), *final(mmu), old(self).state(), final(self).state(), ld_ff00_c_a_spec(old(self).state(), new_events(*old(mmu), *final(mmu)))),
            final(mmu).cycle_budget() + 1 >= old(mmu).cycle_budget(),
            final(mmu).cycle_budget() <= old(mmu).cycle_budget(),
    {
        let ghost m0 = *mmu;
        let ghost s0 = self.state();
        let address = 0xFF00 + self.regs.c as u16;
        mmu.write(address, self.regs.a);
        proof {
            lemma_events(m0, *mmu, seq![BusEvent::Write { address, data: s0.regs.a }]);
        }
    }

    #[verifier::spinoff_prover]
    pub(crate) fn ld_a_ff00_u8<M: SystemBus>(&mut self, _opcode: u8, mmu: &mut M)
        requires
            old(mmu).bus_wf(),
            old(mmu).cycle_budget() >= 2,
        ensures
            final(mmu).bus_wf(),
            performs(*old(mmu), *final(mmu), old(self).state(), final(self).state(), ld_a_ff00_u8_spec(old(self).state(), new_events(*old(mmu), *final(mmu)))),
            final(mmu).cycle_budget() + 2 >= old(mmu).cycle_budget(),
            final(mmu).cycle_budget() <= old(mmu).cycle_budget(),
    {
        let ghost m0 = *mmu;
        let ghost s0 = self.state();
        let offset = self.fetch(mmu);
        let address = 0xFF00 + offset as u16;
        let value = mmu.read(address);
        self.regs.a = value;
        proof {
            lemma_events(
                m0,
                *mmu,
                seq![
                    BusEvent::Read { address: s0.regs.pc, data: offset },
                    BusEvent::Read { address, data: value },
                ],
            );
        }
        assert(self.state() =~= ld_a_ff00_u8_spec(s0, new_events(m0, *mmu)).0);
    }

    #[verifier::spinoff_prover]
    pub(crate) fn ld_a_ff00_c<M: SystemBus>(&mut self, _opcode: u8, mmu: &mut M)
        requires
            old(mmu).bus_wf(),
            old(mmu).cycle_budget() >= 1,
        ensures
            final(mmu).bus_wf(),
            performs(*old(mmu), *final(mmu), old(self).state(), final(self).state(), ld_a_ff00_c_spec(old(self).state(), new_events(*old(mmu), *final(mmu)))),
            final(mmu).cycle_budget() + 1 >= old(mmu).cycle_budget(),
            final(mmu).cycle_budget() <= old(mmu).cycle_budget(),
    {
        let ghost m0 = *mmu;
        let ghost s0 = self.state();
        let address = 0xFF00 + self.regs.c as u16;
        let value = mmu.read(address);
        self.regs.a = value;
        proof {
            lemma_events(m0, *mmu, seq![BusEvent::Read { address, data: value }]);
        }
        assert(self.state() =~= ld_a_ff00_c_spec(s0, new_events(m0, *mmu)).0);
    }
}

/// SP moved down by one twice is SP moved down by two; likewise up.
pub proof fn lemma_wrap16_steps(x: u16)
    ensures
        wrap16(wrap16(x - 1) - 1) == wrap16(x - 2),
        wrap16(wrap16(x + 1) + 1) == wrap16(x + 2),
{
}

impl Cpu {
    #[verifier::spinoff_prover]
    #[verifier::rlimit(40)]
    pub(crate) fn call_u16<M: SystemBus>(&mut self, _opcode: u8, mmu: &mut M)
        requires
            old(mmu).bus_wf(),
            old(mmu).cycle_budget() >= 5,
        ensures
            final(mmu).bus_wf(),
            performs(*old(mmu), *final(mmu), old(self).state(), final(self).state(), call_spec(old(self).state(), new_events(*old(mmu), *final(mmu)))),
            final(mmu).cycle_budget() + 5 >= old(mmu).cycle_budget(),
            final(mmu).cycle_budget() <= old(mmu).cycle_budget(),
    {
        let ghost m0 = *mmu;
        let ghost s0 = self.state();
        let lsb = self.fetch(mmu);
        let msb = self.fetch(mmu);
        let jump_address = compose_word(msb, lsb);
        let ghost r1 = self.regs;
        // Pre-decrement SP
        self.regs.sp = self.regs.sp.wrapping_sub(1);
        mmu.tick();
        // Write return location to stack
        let (pc_upper, pc_lower) = decompose_word(self.regs.pc);
        mmu.write(self.regs.sp, pc_upper);
        self.regs.sp = self.regs.sp.wrapping_sub(1);
        mmu.write(self.regs.sp, pc_lower);
        self.regs.pc = jump_address;
        proof {
            lemma_pc_plus2(s0.regs);
            lemma_wrap16_steps(r1.sp);
            lemma_events(
                m0,
                *mmu,
                seq![
                    BusEvent::Read { address: s0.regs.pc, data: lsb },
                    BusEvent::Read { address: wrap16(s0.regs.pc + 1), data: msb },
                ] + seq![BusEvent::Tick] + push_events(r1.sp, r1.pc),
            );
        }
        assert(self.state() =~= call_spec(s0, new_events(m0, *mmu)).0);
    }

    #[verifier::spinoff_prover]
    pub(crate) fn call_cc_u16<M: SystemBus>(&mut self, opcode: u8, mmu: &mut M)
        requires
            old(mmu).bus_wf(),
            old(mmu).cycle_budget() >= 5,
        ensures
            final(mmu).bus_wf(),
            performs(*old(mmu), *final(mmu), old(self).state(), final(self).state(), call_cc_spec(opcode, old(self).state(), new_events(*old(mmu), *final(mmu)))),
            final(mmu).cycle_budget() + 5 >= old(mmu).cycle_budget(),
            final(mmu).cycle_budget() <= old(mmu).cycle_budget(),
    {
        let ghost m0 = *mmu;
        let ghost s0 = self.state();
        let b43 = (opcode & 0x18) >> 3u8;
        assert((opcode & 0x18) >> 3u8 == (opcode / 8) % 4) by {
            crate::bits::lemma_u8_bits(opcode);
        }
        if self.check_condition(b43) {
            self.call_u16(opcode, mmu);
        } else {
            // Fetch and discard the subroutine address
            self.skip_u16(mmu);
        }
    }

    /// Read and discard the two address bytes of a jump or call not taken.
    #[verifier::spinoff_prover]
    pub(crate) fn skip_u16<M: SystemBus>(&mut self, mmu: &mut M)
        requires
            old(mmu).bus_wf(),
            old(mmu).cycle_budget() >= 2,
        ensures
            final(mmu).bus_wf(),
            performs(*old(mmu), *final(mmu), old(self).state(), final(self).state(), skip16_spec(old(self).state(), new_events(*old(mmu), *final(mmu)))),
            final(mmu).cycle_budget() + 2 >= old(mmu).cycle_budget(),
            final(mmu).cycle_budget() <= old(mmu).cycle_budget(),
    {
        let ghost m0 = *mmu;
        let ghost s0 = self.state();
        let lower = self.fetch(mmu);
        let upper = self.fetch(mmu);
        proof {
            lemma_pc_plus2(s0.regs);
            lemma_events(
                m0,
                *mmu,
                seq![
                    BusEvent::Read { address: s0.regs.pc, data: lower },
                    BusEvent::Read { address: wrap16(s0.regs.pc + 1), data: upper },
                ],
            );
        }
        assert(self.state() =~= skip16_spec(s0, new_events(m0, *mmu)).0);
    }

    #[verifier::spinoff_prover]
    #[verifier::rlimit(40)]
    pub(crate) fn push_r16<M: SystemBus>(&mut self, opcode: u8, mmu: &mut M)
        requires
            old(mmu).bus_wf(),
            old(mmu).cycle_budget() >= 3,
        ensures
            final(mmu).bus_wf(),
            performs(*old(mmu), *final(mmu), old(self).state(), final(self).state(), push_r16_spec(opcode, old(self).state(), new_events(*old(mmu), *final(mmu)))),
            final(mmu).cycle_budget() + 3 >= old(mmu).cycle_budget(),
            final(mmu).cycle_budget() <= old(mmu).cycle_budget(),
    {
        let ghost m0 = *mmu;
        let ghost s0 = self.state();
        let b54 = (opcode & 0x30) >> 4u8;
        assert((opcode & 0x30) >> 4u8 == (opcode / 16) % 4) by {
            crate::bits::lemma_u8_bits(opcode);
        }
        let register_value = WordRegister::for_group3(b54).get(&self.regs);
        let (upper, lower) = decompose_word(register_value);
        // Pre-decrement of SP takes a cycle
        self.regs.sp = self.regs.sp.wrapping_sub(1);
        mmu.tick();
        mmu.write(self.regs.sp, upper);
        self.regs.sp = self.regs.sp.wrapping_sub(1);
        mmu.write(self.regs.sp, lower);
        proof {
            lemma_wrap16_steps(s0.regs.sp);
            lemma_events(
                m0,
                *mmu,
                seq![BusEvent::Tick] + push_events(s0.regs.sp, register_value),
            );
        }
        assert(self.state() =~= push_r16_spec(opcode, s0, new_events(m0, *mmu)).0);
    }

    #[verifier::spinoff_prover]
    pub(crate) fn pop_r16<M: SystemBus>(&mut self, opcode: u8, mmu: &mut M)
        requires
            old(mmu).bus_wf(),
            old(mmu).cycle_budget() >= 2,
        ensures
            final(mmu).bus_wf(),
            performs(*old(mmu), *final(mmu), old(self).state(), final(self).state(), pop_r16_spec(opcode, old(self).state(), new_events(*old(mmu), *final(mmu)))),
            final(mmu).cycle_budget() + 2 >= old(mmu).cycle_budget(),
            final(mmu).cycle_budget() <= old(mmu).cycle_budget(),
    {
        let ghost m0 = *mmu;
        let ghost s0 = self.state();
        let b54 = (opcode & 0x30) >> 4u8;
        assert((opcode & 0x30) >> 4u8 == (opcode / 16) % 4) by {
            crate::bits::lemma_u8_bits(opcode);
        }
        let lower = mmu.read(self.regs.sp);
        self.regs.sp = self.regs.sp.wrapping_add(1);
        let upper = mmu.read(self.regs.sp);
        self.regs.sp = self.regs.sp.wrapping_add(1);
        WordRegister::for_group3(b54).set(&mut self.regs, compose_word(upper, lower));
        proof {
            lemma_wrap16_steps(s0.regs.sp);
            lemma_events(
                m0,
                *mmu,
                seq![
                    BusEvent::Read { address: s0.regs.sp, data: lower },
                    BusEvent::Read { address: wrap16(s0.regs.sp + 1), data: upper },
                ],
            );
        }
        assert(self.state() =~= pop_r16_spec(opcode, s0, new_events(m0, *mmu)).0);
    }

    #[verifier::spinoff_prover]
    pub(crate) fn add_hl_r16<M: SystemBus>(&mut self, opcode: u8, mmu: &mut M)
        requires
            old(mmu).bus_wf(),
            old(mmu).cycle_budget() >= 1,
        ensures
            final(mmu).bus_wf(),
            performs(*old(mmu), *final(mmu), old(self).state(), final(self).state(), add_hl_r16_spec(opcode, old(self).state(), new_events(*old(mmu), *final(mmu)))),
            final(mmu).cycle_budget() + 1 >= old(mmu).cycle_budget(),
            final(mmu).cycle_budget() <= old(mmu).cycle_budget(),
    {
        let ghost m0 = *mmu;
        let ghost s0 = self.state();
        let b54 = (opcode & 0x30) >> 4u8;
        assert((opcode & 0x30) >> 4u8 == (opcode / 16) % 4) by {
            crate::bits::lemma_u8_bits(opcode);
        }
        let operand = WordRegister::for_group1(b54).get(&self.regs);
        let hl_value = self.regs.get_hl();
        let result = hl_value.wrapping_add(operand);
        let carry = hl_value as u32 + operand as u32 > 0xFFFF;
        assert((hl_value & 0xFFF) == hl_value % 0x1000 && (operand & 0xFFF) == operand % 0x1000) by {
            crate::bits::lemma_u16_bits(hl_value);
            crate::bits::lemma_u16_bits(operand);
        }
        self.regs.f.negative = false;
        self.regs.f.carry = carry;
        self.regs.f.half_carry = (hl_value & 0xFFF) + (operand & 0xFFF) > 0xFFF;
        self.regs.set_hl(result);
        // Second cycle
        mmu.tick();
        proof {
            lemma_events(m0, *mmu, seq![BusEvent::Tick]);
        }
        assert(self.state() =~= add_hl_r16_spec(opcode, s0, new_events(m0, *mmu)).0);
    }

    #[verifier::spinoff_prover]
    pub(crate) fn ret<M: SystemBus>(&mut self, _opcode: u8, mmu: &mut M)
        requires
            old(mmu).bus_wf(),
            old(mmu).cycle_budget() >= 3,
        ensures
            final(mmu).bus_wf(),
            performs(*old(mmu), *final(mmu), old(self).state(), final(self).state(), ret_spec(old(self).state(), new_events(*old(mmu), *final(mmu)))),
            final(mmu).cycle_budget() + 3 >= old(mmu).cycle_budget(),
            final(mmu).cycle_budget() <= old(mmu).cycle_budget(),
    {
        let ghost m0 = *mmu;
        let ghost s0 = self.state();
        let lower = mmu.read(self.regs.sp);
        self.regs.sp = self.regs.sp.wrapping_add(1);
        let upper = mmu.read(self.regs.sp);
        self.regs.sp = self.regs.sp.wrapping_add(1);
        self.regs.pc = compose_word(upper, lower);
        // Final m-cycle
        mmu.tick();
        proof {
            lemma_wrap16_steps(s0.regs.sp);
            lemma_events(
                m0,
                *mmu,
                seq![
                    BusEvent::Read { address: s0.regs.sp, data: lower },
                    BusEvent::Read { address: wrap16(s0.regs.sp + 1), data: upper },
                ] + seq![BusEvent::Tick],
            );
        }
        assert(self.state() =~= ret_spec(s0, new_events(m0, *mmu)).0);
    }

    #[verifier::spinoff_prover]
    pub(crate) fn reti<M: SystemBus>(&mut self, opcode: u8, mmu: &mut M)
        requires
            old(mmu).bus_wf(),
            old(mmu).cycle_budget() >= 3,
        ensures
            final(mmu).bus_wf(),
            performs(*old(mmu), *final(mmu), old(self).state(), final(self).state(), reti_spec(old(self).state(), new_events(*old(mmu), *final(mmu)))),
            final(mmu).cycle_budget() + 3 >= old(mmu).cycle_budget(),
            final(mmu).cycle_budget() <= old(mmu).cycle_budget(),
    {
        self.ret(opcode, mmu);
        self.ime = true;
        assert(self.state() =~= reti_spec(old(self).state(), new_events(*old(mmu), *mmu)).0);
    }

    #[verifier::spinoff_prover]
    pub(crate) fn ret_cc<M: SystemBus>(&mut self, opcode: u8, mmu: &mut M)
        requires
            old(mmu).bus_wf(),
            old(mmu).cycle_budget() >= 4,
        ensures
            final(mmu).bus_wf(),
            performs(*old(mmu), *final(mmu), old(self).state(), final(self).state(), ret_cc_spec(opcode, old(self).state(), new_events(*old(mmu), *final(mmu)))),
            final(mmu).cycle_budget() + 4 >= old(mmu).cycle_budget(),
            final(mmu).cycle_budget() <= old(mmu).cycle_budget(),
    {
        let ghost m0 = *mmu;
        let ghost s0 = self.state();
        let b43 = (opcode & 0x18) >> 3u8;
        assert((opcode & 0x18) >> 3u8 == (opcode / 8) % 4) by {
            crate::bits::lemma_u8_bits(opcode);
        }
        // Internal branch decision
        mmu.tick();
        proof {
            lemma_events(m0, *mmu, seq![BusEvent::Tick]);
        }
        let ghost m1 = *mmu;
        if self.check_condition(b43) {
            self.ret(opcode, mmu);
            proof {
                let x = ret_spec(s0, new_events(m1, *mmu)).1;
                lemma_new_events(m1, *mmu);
                lemma_chain(m0, m1, *mmu, seq![BusEvent::Tick], x);
            }
        }
    }

    #[verifier::spinoff_prover]
    pub(crate) fn ld_u16_a<M: SystemBus>(&mut self, _opcode: u8, mmu: &mut M)
        requires
            old(mmu).bus_wf(),
            old(mmu).cycle_budget() >= 3,
        ensures
            final(mmu).bus_wf(),
            performs(*old(mmu), *final(mmu), old(self).state(), final(self).state(), ld_u16_a_spec(old(self).state(), new_events(*old(mmu), *final(mmu)))),
            final(mmu).cycle_budget() + 3 >= old(mmu).cycle_budget(),
            final(mmu).cycle_budget() <= old(mmu).cycle_budget(),
    {
        let ghost m0 = *mmu;
        let ghost s0 = self.state();
        let lower = self.fetch(mmu);
        let upper = self.fetch(mmu);
        let address = compose_word(upper, lower);
        mmu.write(address, self.regs.a);
        proof {
            lemma_pc_plus2(s0.regs);
            lemma_events(
                m0,
                *mmu,
                seq![
                    BusEvent::Read { address: s0.regs.pc, data: lower },
                    BusEvent::Read { address: wrap16(s0.regs.pc + 1), data: upper },
                ] + seq![BusEvent::Write { address, data: s0.regs.a }],
            );
        }
        assert(self.state() =~= ld_u16_a_spec(s0, new_events(m0, *mmu)).0);
    }

    #[verifier::spinoff_prover]
    pub(crate) fn ld_a_u16<M: SystemBus>(&mut self, _opcode: u8, mmu: &mut M)
        requires
            old(mmu).bus_wf(),
            old(mmu).cycle_budget() >= 3,
        ensures
            final(mmu).bus_wf(),
            performs(*old(mmu), *final(mmu), old(self).state(), final(self).state(), ld_a_u16_spec(old(self).state(), new_events(*old(mmu), *final(mmu)))),
            final(mmu).cycle_budget() + 3 >= old(mmu).cycle_budget(),
            final(mmu).cycle_budget() <= old(mmu).cycle_budget(),
    {
        let ghost m0 = *mmu;
        let ghost s0 = self.state();
        let lower = self.fetch(mmu);
        let upper = self.fetch(mmu);
        let address = compose_word(upper, lower);
        let value = mmu.read(address);
        self.regs.a = value;
        proof {
            lemma_pc_plus2(s0.regs);
            lemma_events(
                m0,
                *mmu,
                seq![
                    BusEvent::Read { address: s0.regs.pc, data: lower },
                    BusEvent::Read { address: wrap16(s0.regs.pc + 1), data: upper },
                ] + seq![BusEvent::Read { address, data: value }],
            );
        }
        assert(self.state() =~= ld_a_u16_spec(s0, new_events(m0, *mmu)).0);
    }

    #[verifier::spinoff_prover]
    pub(crate) fn jp_u16<M: SystemBus>(&mut self, _opcode: u8, mmu: &mut M)
        requires
            old(mmu).bus_wf(),
            old(mmu).cycle_budget() >= 3,
        ensures
            final(mmu).bus_wf(),
            performs(*old(mmu), *final(mmu), old(self).state(), final(self).state(), jp_spec(old(self).state(), new_events(*old(mmu), *final(mmu)))),
            final(mmu).cycle_budget() + 3 >= old(mmu).cycle_budget(),
            final(mmu).cycle_budget() <= old(mmu).cycle_budget(),
    {
        let ghost m0 = *mmu;
        let ghost s0 = self.state();
        let lower = self.fetch(mmu);
        let upper = self.fetch(mmu);
        self.regs.pc = compose_word(upper, lower);
        mmu.tick();
        proof {
            lemma_events(
                m0,
                *mmu,
                seq![
                    BusEvent::Read { address: s0.regs.pc, data: lower },
                    BusEvent::Read { address: wrap16(s0.regs.pc + 1), data: upper },
                ] + seq![BusEvent::Tick],
            );
        }
        assert(self.state() =~= jp_spec(s0, new_events(m0, *mmu)).0);
    }

    #[verifier::spinoff_prover]
    pub(crate) fn jp_cc_u16<M: SystemBus>(&mut self, opcode: u8, mmu: &mut M)
        requires
            old(mmu).bus_wf(),
            old(mmu).cycle_budget() >= 3,
        ensures
            final(mmu).bus_wf(),
            performs(*old(mmu), *final(mmu), old(self).state(), final(self).state(), jp_cc_spec(opcode, old(self).state(), new_events(*old(mmu), *final(mmu)))),
            final(mmu).cycle_budget() + 3 >= old(mmu).cycle_budget(),
            final(mmu).cycle_budget() <= old(mmu).cycle_budget(),
    {
        let b43 = (opcode & 0x18) >> 3u8;
        assert((opcode & 0x18) >> 3u8 == (opcode / 8) % 4) by {
            crate::bits::lemma_u8_bits(opcode);
        }
        if self.check_condition(b43) {
            self.jp_u16(opcode, mmu);
        } else {
            // Fetch and discard the jump address
            self.skip_u16(mmu);
        }
    }

    #[verifier::spinoff_prover]
    pub(crate) fn add_sp_i8<M: SystemBus>(&mut self, _opcode: u8, mmu: &mut M)
        requires
            old(mmu).bus_wf(),
            old(mmu).cycle_budget() >= 1,
        ensures
            final(mmu).bus_wf(),
            performs(*old(mmu), *final(mmu), old(self).state(), final(self).state(), add_sp_i8_spec(old(self).state(), new_events(*old(mmu), *final(mmu)))),
            final(mmu).cycle_budget() + 1 >= old(mmu).cycle_budget(),
            final(mmu).cycle_budget() <= old(mmu).cycle_budget(),
    {
        let ghost m0 = *mmu;
        let ghost s0 = self.state();
        let offset = self.fetch(mmu);
        let (result, flags) = Cpu::offset_sp(&self.regs, offset);
        self.regs.f = flags;
        self.regs.sp = result;
        proof {
            lemma_events(m0, *mmu, seq![BusEvent::Read { address: s0.regs.pc, data: offset }]);
        }
        assert(self.state() =~= add_sp_i8_spec(s0, new_events(m0, *mmu)).0);
    }

    #[verifier::spinoff_prover]
    pub(crate) fn ld_hl_sp_i8<M: SystemBus>(&mut self, _opcode: u8, mmu: &mut M)
        requires
            old(mmu).bus_wf(),
            old(mmu).cycle_budget() >= 1,
        ensures
            final(mmu).bus_wf(),
            performs(*old(mmu), *final(mmu), old(self).state(), final(self).state(), ld_hl_sp_i8_spec(old(self).state(), new_events(*old(mmu), *final(mmu)))),
            final(mmu).cycle_budget() + 1 >= old(mmu).cycle_budget(),
            final(mmu).cycle_budget() <= old(mmu).cycle_budget(),
    {
        let ghost m0 = *mmu;
        let ghost s0 = self.state();
        let offset = self.fetch(mmu);
        let (result, flags) = Cpu::offset_sp(&self.regs, offset);
        self.regs.f = flags;
        self.regs.set_hl(result);
        proof {
            lemma_events(m0, *mmu, seq![BusEvent::Read { address: s0.regs.pc, data: offset }]);
        }
        assert(self.state() =~= ld_hl_sp_i8_spec(s0, new_events(m0, *mmu)).0);
    }

    /// SP plus a signed offset, and the flags: Z and N clear, H and C the
    /// carries out of bits 3 and 7.
    pub(crate) fn offset_sp(regs: &Registers, offset: u8) -> (out: (u16, FlagRegister))
        ensures
            out == sp_offset(*regs, offset),
    {
        let sp = regs.sp;
        let operand = sign_extend_exec(offset);
        let result = sp.wrapping_add(operand);
        assert((sp & 0xF) == sp % 16 && (operand & 0xF) == operand % 16) by {
            crate::bits::lemma_u16_bits(sp);
            crate::bits::lemma_u16_bits(operand);
        }
        assert((sp & 0xFF) == sp % 256 && (operand & 0xFF) == operand % 256) by {
            crate::bits::lemma_u16_bits(sp);
            crate::bits::lemma_u16_bits(operand);
        }
        let flags = FlagRegister {
            zero: false,
            negative: false,
            half_carry: (sp & 0xF) + (operand & 0xF) > 0xF,
            carry: (sp & 0xFF) + (operand & 0xFF) > 0xFF,
        };
        (result, flags)
    }

    #[verifier::spinoff_prover]
    pub(crate) fn ld_sp_hl<M: SystemBus>(&mut self, _opcode: u8, mmu: &mut M)
        requires
            old(mmu).bus_wf(),
            old(mmu).cycle_budget() >= 1,
        ensures
            final(mmu).bus_wf(),
            performs(*old(mmu), *final(mmu), old(self).state(), final(self).state(), ld_sp_hl_spec(old(self).state(), new_events(*old(mmu), *final(mmu)))),
            final(mmu).cycle_budget() + 1 >= old(mmu).cycle_budget(),
            final(mmu).cycle_budget() <= old(mmu).cycle_budget(),
    {
        let ghost m0 = *mmu;
        let ghost s0 = self.state();
        self.regs.sp = self.regs.get_hl();
        mmu.tick();
        proof {
            lemma_events(m0, *mmu, seq![BusEvent::Tick]);
        }
        assert(self.state() =~= ld_sp_hl_spec(s0, new_events(m0, *mmu)).0);
    }

    #[verifier::spinoff_prover]
    #[verifier::rlimit(40)]
    pub(crate) fn ld_u16_sp<M: SystemBus>(&mut self, _opcode: u8, mmu: &mut M)
        requires
            old(mmu).bus_wf(),
            old(mmu).cycle_budget() >= 4,
        ensures
            final(mmu).bus_wf(),
            performs(*old(mmu), *final(mmu), old(self).state(), final(self).state(), ld_u16_sp_spec(old(self).state(), new_events(*old(mmu), *final(mmu)))),
            final(mmu).cycle_budget() + 4 >= old(mmu).cycle_budget(),
            final(mmu).cycle_budget() <= old(mmu).cycle_budget(),
    {
        let ghost m0 = *mmu;
        let ghost s0 = self.state();
        let lower = self.fetch(mmu);
        let upper = self.fetch(mmu);
        let address = compose_word(upper, lower);
        let (sp_upper, sp_lower) = decompose_word(self.regs.sp);
        mmu.write(address, sp_lower);
        mmu.write(address.wrapping_add(1), sp_upper);
        proof {
            lemma_pc_plus2(s0.regs);
            lemma_events(
                m0,
                *mmu,
                seq![
                    BusEvent::Read { address: s0.regs.pc, data: lower },
                    BusEvent::Read { address: wrap16(s0.regs.pc + 1), data: upper },
                ] + seq![
                    BusEvent::Write { address, data: sp_lower },
                    BusEvent::Write { address: wrap16(address + 1), data: sp_upper },
                ],
            );
        }
        assert(self.state() =~= ld_u16_sp_spec(s0, new_events(m0, *mmu)).0);
    }

    #[verifier::spinoff_prover]
    #[verifier::rlimit(40)]
    pub(crate) fn rst<M: SystemBus>(&mut self, opcode: u8, mmu: &mut M)
        requires
            old(mmu).bus_wf(),
            old(mmu).cycle_budget() >= 3,
        ensures
            final(mmu).bus_wf(),
            performs(*old(mmu), *final(mmu), old(self).state(), final(self).state(), rst_spec(opcode, old(self).state(), new_events(*old(mmu), *final(mmu)))),
            final(mmu).cycle_budget() + 3 >= old(mmu).cycle_budget(),
            final(mmu).cycle_budget() <= old(mmu).cycle_budget(),
    {
        let ghost m0 = *mmu;
        let ghost s0 = self.state();
        let target = (opcode & 0x38) as u16;
        assert((opcode & 0x38) as int == ((opcode / 8) % 8) * 8) by {
            crate::bits::lemma_u8_bits(opcode);
        }
        // Pre-decrement SP
        self.regs.sp = self.regs.sp.wrapping_sub(1);
        mmu.tick();
        // Write return location to stack
        let (pc_upper, pc_lower) = decompose_word(self.regs.pc);
        mmu.write(self.regs.sp, pc_upper);
        self.regs.sp = self.regs.sp.wrapping_sub(1);
        mmu.write(self.regs.sp, pc_lower);
        self.regs.pc = target;
        proof {
            lemma_wrap16_steps(s0.regs.sp);
            lemma_events(m0, *mmu, seq![BusEvent::Tick] + push_events(s0.regs.sp, s0.regs.pc));
        }
        assert(self.state() =~= rst_spec(opcode, s0, new_events(m0, *mmu)).0);
    }
}

impl Cpu {
    #[verifier::spinoff_prover]
    pub(crate) fn cb_prefixed_opcodes<M: SystemBus>(&mut self, _opcode: u8, mmu: &mut M)
        requires
            old(mmu).bus_wf(),
            old(mmu).cycle_budget() >= 3,
        ensures
            final(mmu).bus_wf(),
            performs(*old(mmu), *final(mmu), old(self).state(), final(self).state(), cb_spec(old(self).state(), new_events(*old(mmu), *final(mmu)))),
            final(mmu).cycle_budget() + 3 >= old(mmu).cycle_budget(),
            final(mmu).cycle_budget() <= old(mmu).cycle_budget(),
    {
        let ghost m0 = *mmu;
        let ghost s0 = self.state();
        let prefixed_opcode = self.fetch(mmu);
        let ghost m1 = *mmu;
        let ghost s1 = self.state();
        proof {
            lemma_events(m0, m1, seq![BusEvent::Read { address: s0.regs.pc, data: prefixed_opcode }]);
        }
        if prefixed_opcode < 0x40 {
            self.rotate_and_swap_r8(prefixed_opcode, mmu);
        } else if prefixed_opcode < 0x80 {
            self.bit_n_r8(prefixed_opcode, mmu);
        } else if prefixed_opcode < 0xC0 {
            self.res_n_r8(prefixed_opcode, mmu);
        } else {
            self.set_n_r8(prefixed_opcode, mmu);
        }
        proof {
            let x = cb_body_spec(prefixed_opcode, s1, new_events(m1, *mmu)).1;
            lemma_new_events(m1, *mmu);
            lemma_chain(
                m0,
                m1,
                *mmu,
                seq![BusEvent::Read { address: s0.regs.pc, data: prefixed_opcode }],
                x,
            );
            assert(s1 == with_regs(s0, pc_plus(s0.regs, 1)));
        }
    }

    #[verifier::spinoff_prover]
    pub(crate) fn rotate_and_swap_r8<M: SystemBus>(&mut self, opcode: u8, mmu: &mut M)
        requires
            old(mmu).bus_wf(),
            opcode < 0x40,
            old(mmu).cycle_budget() >= 2,
        ensures
            final(mmu).bus_wf(),
            performs(*old(mmu), *final(mmu), old(self).state(), final(self).state(), cb_body_spec(opcode, old(self).state(), new_events(*old(mmu), *final(mmu)))),
            final(mmu).cycle_budget() + 2 >= old(mmu).cycle_budget(),
            final(mmu).cycle_budget() <= old(mmu).cycle_budget(),
    {
        let ghost m0 = *mmu;
        let ghost s0 = self.state();
        let b543 = (opcode & 0x38) >> 3u8;
        let b321 = opcode & 0x07;
        assert((opcode & 0x38) >> 3u8 == (opcode / 8) % 8) by {
            crate::bits::lemma_u8_bits(opcode);
        }
        assert(opcode & 0x07 == opcode % 8) by {
            crate::bits::lemma_u8_bits(opcode);
        }
        let operand = ByteRegister::for_r8(b321, &self.regs).get(&self.regs, mmu);
        let result = self.rotate_op(b543, operand);
        ByteRegister::for_r8(b321, &self.regs).set(result, &mut self.regs, mmu);
        proof {
            let a = hl(s0.regs);
            if b321 == 6 {
                lemma_events(
                    m0,
                    *mmu,
                    seq![BusEvent::Read { address: a, data: operand }] + seq![
                        BusEvent::Write { address: a, data: result },
                    ],
                );
            } else {
                lemma_events(m0, *mmu, Seq::<BusEvent>::empty() + Seq::<BusEvent>::empty());
            }
        }
        assert(self.state() =~= cb_body_spec(opcode, s0, new_events(m0, *mmu)).0);
    }

    #[verifier::spinoff_prover]
    pub(crate) fn bit_n_r8<M: SystemBus>(&mut self, opcode: u8, mmu: &mut M)
        requires
            old(mmu).bus_wf(),
            0x40 <= opcode < 0x80,
            old(mmu).cycle_budget() >= 1,
        ensures
            final(mmu).bus_wf(),
            performs(*old(mmu), *final(mmu), old(self).state(), final(self).state(), cb_body_spec(opcode, old(self).state(), new_events(*old(mmu), *final(mmu)))),
            final(mmu).cycle_budget() + 1 >= old(mmu).cycle_budget(),
            final(mmu).cycle_budget() <= old(mmu).cycle_budget(),
    {
        let ghost m0 = *mmu;
        let ghost s0 = self.state();
        let b543 = (opcode & 0x38) >> 3u8;
        let b321 = opcode & 0x07;
        assert((opcode & 0x38) >> 3u8 == (opcode / 8) % 8) by {
            crate::bits::lemma_u8_bits(opcode);
        }
        assert(opcode & 0x07 == opcode % 8) by {
            crate::bits::lemma_u8_bits(opcode);
        }
        let operand = ByteRegister::for_r8(b321, &self.regs).get(&self.regs, mmu);
        proof {
            lemma_bit_test(operand, b543);
        }
        self.regs.f.zero = operand & (1u8 << b543) == 0;
        self.regs.f.negative = false;
        self.regs.f.half_carry = true;
        proof {
            if b321 == 6 {
                lemma_events(m0, *mmu, seq![BusEvent::Read { address: hl(s0.regs), data: operand }]);
            } else {
                lemma_events(m0, *mmu, Seq::<BusEvent>::empty());
            }
        }
        assert(self.state() =~= cb_body_spec(opcode, s0, new_events(m0, *mmu)).0);
    }

    #[verifier::spinoff_prover]
    pub(crate) fn res_n_r8<M: SystemBus>(&mut self, opcode: u8, mmu: &mut M)
        requires
            old(mmu).bus_wf(),
            0x80 <= opcode < 0xC0,
            old(mmu).cycle_budget() >= 2,
        ensures
            final(mmu).bus_wf(),
            performs(*old(mmu), *final(mmu), old(self).state(), final(self).state(), cb_body_spec(opcode, old(self).state(), new_events(*old(mmu), *final(mmu)))),
            final(mmu).cycle_budget() + 2 >= old(mmu).cycle_budget(),
            final(mmu).cycle_budget() <= old(mmu).cycle_budget(),
    {
        let ghost m0 = *mmu;
        let ghost s0 = self.state();
        let b543 = (opcode & 0x38) >> 3u8;
        let b321 = opcode & 0x07;
        assert((opcode & 0x38) >> 3u8 == (opcode / 8) % 8) by {
            crate::bits::lemma_u8_bits(opcode);
        }
        assert(opcode & 0x07 == opcode % 8) by {
            crate::bits::lemma_u8_bits(opcode);
        }
        let operand = ByteRegister::for_r8(b321, &self.regs).get(&self.regs, mmu);
        let register = operand & !(1u8 << b543);
        ByteRegister::for_r8(b321, &self.regs).set(register, &mut self.regs, mmu);
        proof {
            let a = hl(s0.regs);
            if b321 == 6 {
                lemma_events(
                    m0,
                    *mmu,
                    seq![BusEvent::Read { address: a, data: operand }] + seq![
                        BusEvent::Write { address: a, data: register },
                    ],
                );
            } else {
                lemma_events(m0, *mmu, Seq::<BusEvent>::empty() + Seq::<BusEvent>::empty());
            }
        }
        assert(self.state() =~= cb_body_spec(opcode, s0, new_events(m0, *mmu)).0);
    }

    #[verifier::spinoff_prover]
    pub(crate) fn set_n_r8<M: SystemBus>(&mut self, opcode: u8, mmu: &mut M)
        requires
            old(mmu).bus_wf(),
            0xC0 <= opcode,
            old(mmu).cycle_budget() >= 2,
        ensures
            final(mmu).bus_wf(),
            performs(*old(mmu), *final(mmu), old(self).state(), final(self).state(), cb_body_spec(opcode, old(self).state(), new_events(*old(mmu), *final(mmu)))),
            final(mmu).cycle_budget() + 2 >= old(mmu).cycle_budget(),
            final(mmu).cycle_budget() <= old(mmu).cycle_budget(),
    {
        let ghost m0 = *mmu;
        let ghost s0 = self.state();
        let b543 = (opcode & 0x38) >> 3u8;
        let b321 = opcode & 0x07;
        assert((opcode & 0x38) >> 3u8 == (opcode / 8) % 8) by {
            crate::bits::lemma_u8_bits(opcode);
        }
        assert(opcode & 0x07 == opcode % 8) by {
            crate::bits::lemma_u8_bits(opcode);
        }
        let operand = ByteRegister::for_r8(b321, &self.regs).get(&self.regs, mmu);
        let register = operand | (1u8 << b543);
        ByteRegister::for_r8(b321, &self.regs).set(register, &mut self.regs, mmu);
        proof {
            let a = hl(s0.regs);
            if b321 == 6 {
                lemma_events(
                    m0,
                    *mmu,
                    seq![BusEvent::Read { address: a, data: operand }] + seq![
                        BusEvent::Write { address: a, data: register },
                    ],
                );
            } else {
                lemma_events(m0, *mmu, Seq::<BusEvent>::empty() + Seq::<BusEvent>::empty());
            }
        }
        assert(self.state() =~= cb_body_spec(opcode, s0, new_events(m0, *mmu)).0);
    }
}

// Decoding ------------------------------------------------------------------------------------

/// Opcodes that are not implemented or not legal on the SM83.
pub open spec fn is_illegal(op: u8) -> bool {
    op == 0xD3 || op == 0xDB || op == 0xDD || op == 0xE3 || op == 0xE4 || op == 0xEB || op == 0xEC
        || op == 0xED || op == 0xF4 || op == 0xFC || op == 0xFD
}

/// What an opcode below 0x80 does once it has been fetched.
#[verifier::opaque]
pub open spec fn low_instruction_spec(op: u8, s: CpuState, ev: Seq<BusEvent>) -> (CpuState, Seq<BusEvent>) {
    if op == 0x00 {
        (s, Seq::empty())
    } else if op == 0x10 {
        stop_spec(s, ev)
    } else if op == 0x08 {
        ld_u16_sp_spec(s, ev)
    } else if op == 0x18 {
        jr_spec(true, s, ev)
    } else if op == 0x20 || op == 0x28 || op == 0x30 || op == 0x38 {
        jr_spec(condition(s.regs, opcode_b43(op)), s, ev)
    } else if op == 0x76 {
        halt_spec(s, ev)
    } else if op >= 0x40 {
        ld_r8_r8_spec(op, s, ev)
    } else if op % 16 == 1 {
        ld_r16_u16_spec(op, s, ev)
    } else if op % 16 == 2 {
        ld_r16_a_spec(op, s, ev)
    } else if op % 16 == 3 {
        (
            with_regs(s, set_group1(s.regs, opcode_b54(op), wrap16(group1(s.regs, opcode_b54(op)) + 1))),
            Seq::empty(),
        )
    } else if op % 16 == 9 {
        add_hl_r16_spec(op, s, ev)
    } else if op % 16 == 10 {
        ld_a_r16_spec(op, s, ev)
    } else if op % 16 == 11 {
        (
            with_regs(s, set_group1(s.regs, opcode_b54(op), wrap16(group1(s.regs, opcode_b54(op)) - 1))),
            Seq::empty(),
        )
    } else if op % 8 == 4 {
        inc_r8_spec(op, s, ev)
    } else if op % 8 == 5 {
        dec_r8_spec(op, s, ev)
    } else if op % 8 == 6 {
        ld_r8_u8_spec(op, s, ev)
    } else {
        (with_regs(s, flag_op(opcode_b543(op), s.regs)), Seq::empty())
    }
}

/// What an opcode from 0x80 up does once it has been fetched (EI and the
/// illegal opcodes are decided before).
#[verifier::opaque]
pub open spec fn high_instruction_spec(op: u8, s: CpuState, ev: Seq<BusEvent>) -> (CpuState, Seq<BusEvent>) {
    if op < 0xC0 {
        alu_a_r8_spec(op, s, ev)
    } else if op == 0xCB {
        cb_spec(s, ev)
    } else if op == 0xE0 {
        ld_ff00_u8_a_spec(s, ev)
    } else if op == 0xE2 {
        ld_ff00_c_a_spec(s, ev)
    } else if op == 0xF0 {
        ld_a_ff00_u8_spec(s, ev)
    } else if op == 0xF2 {
        ld_a_ff00_c_spec(s, ev)
    } else if op == 0xCD {
        call_spec(s, ev)
    } else if op == 0xC4 || op == 0xD4 || op == 0xCC || op == 0xDC {
        call_cc_spec(op, s, ev)
    } else if op == 0xC9 {
        ret_spec(s, ev)
    } else if op == 0xD9 {
        reti_spec(s, ev)
    } else if op == 0xC0 || op == 0xD0 || op == 0xC8 || op == 0xD8 {
        ret_cc_spec(op, s, ev)
    } else if op == 0xEA {
        ld_u16_a_spec(s, ev)
    } else if op == 0xFA {
        ld_a_u16_spec(s, ev)
    } else if op == 0xC3 {
        jp_spec(s, ev)
    } else if op == 0xC2 || op == 0xD2 || op == 0xCA || op == 0xDA {
        jp_cc_spec(op, s, ev)
    } else if op == 0xF3 {
        (CpuState { ime: false, ..s }, Seq::empty())
    } else if op == 0xE9 {
        (with_regs(s, Registers { pc: hl(s.regs), ..s.regs }), Seq::empty())
    } else if op == 0xE8 {
        add_sp_i8_spec(s, ev)
    } else if op == 0xF8 {
        ld_hl_sp_i8_spec(s, ev)
    } else if op == 0xF9 {
        ld_sp_hl_spec(s, ev)
    } else if op % 16 == 1 {
        pop_r16_spec(op, s, ev)
    } else if op % 16 == 5 {
        push_r16_spec(op, s, ev)
    } else if op % 8 == 6 {
        alu_a_u8_spec(op, s, ev)
    } else if op % 8 == 7 {
        rst_spec(op, s, ev)
    } else {
        (s, Seq::empty())
    }
}

/// What an opcode does once it has been fetched.
pub open spec fn instruction_spec(op: u8, s: CpuState, ev: Seq<BusEvent>) -> (CpuState, Seq<BusEvent>) {
    if op < 0x80 {
        low_instruction_spec(op, s, ev)
    } else {
        high_instruction_spec(op, s, ev)
    }
}

impl Cpu {
    #[verifier::rlimit(60)]
    #[verifier::spinoff_prover]
    pub(crate) fn execute_low_opcode<M: SystemBus>(&mut self, opcode: u8, mmu: &mut M)
        requires
            old(mmu).bus_wf(),
            opcode < 0x80,
            old(mmu).cycle_budget() >= 5,
        ensures
            final(mmu).bus_wf(),
            performs(*old(mmu), *final(mmu), old(self).state(), final(self).state(), low_instruction_spec(opcode, old(self).state(), new_events(*old(mmu), *final(mmu)))),
            final(mmu).cycle_budget() + 5 >= old(mmu).cycle_budget(),
            final(mmu).cycle_budget() <= old(mmu).cycle_budget(),
    {
        reveal(low_instruction_spec);
        let ghost m0 = *mmu;
        let b3210 = opcode & 0x0F;
        let b210 = opcode & 0x07;
        assert(opcode & 0x0F == opcode % 16) by {
            crate::bits::lemma_u8_bits(opcode);
        }
        assert(opcode & 0x07 == opcode % 8) by {
            crate::bits::lemma_u8_bits(opcode);
        }
        if opcode == 0x00 {
            // NOP
            proof {
                lemma_recorded_nothing(m0);
            }
        } else if opcode == 0x10 {
            self.stop(mmu);
        } else if opcode == 0x08 {
            self.ld_u16_sp(opcode, mmu);
        } else if opcode == 0x18 {
            self.jr_i8(opcode, mmu);
        } else if opcode == 0x20 || opcode == 0x28 || opcode == 0x30 || opcode == 0x38 {
            self.jr_cc_i8(opcode, mmu);
        } else if opcode == 0x76 {
            self.halt(opcode, mmu);
        } else if opcode >= 0x40 {
            self.ld_r8_r8(opcode, mmu);
        } else if b3210 == 1 {
            self.ld_r16_u16(opcode, mmu);
        } else if b3210 == 2 {
            self.ld_r16_a(opcode, mmu);
        } else if b3210 == 3 {
            self.inc_r16(opcode);
            proof {
                lemma_recorded_nothing(m0);
            }
        } else if b3210 == 9 {
            self.add_hl_r16(opcode, mmu);
        } else if b3210 == 10 {
            self.ld_a_r16(opcode, mmu);
        } else if b3210 == 11 {
            self.dec_r16(opcode);
            proof {
                lemma_recorded_nothing(m0);
            }
        } else if b210 == 4 {
            self.inc_r8(opcode, mmu);
        } else if b210 == 5 {
            self.dec_r8(opcode, mmu);
        } else if b210 == 6 {
            self.ld_r8_u8(opcode, mmu);
        } else {
            self.flag_ops(opcode);
            proof {
                lemma_recorded_nothing(m0);
            }
        }
    }

    #[verifier::rlimit(60)]
    #[verifier::spinoff_prover]
    pub(crate) fn execute_high_opcode<M: SystemBus>(&mut self, opcode: u8, mmu: &mut M)
        requires
            old(mmu).bus_wf(),
            opcode >= 0x80,
            opcode != 0xFB,
            !is_illegal(opcode),
            old(mmu).cycle_budget() >= 5,
        ensures
            final(mmu).bus_wf(),
            performs(*old(mmu), *final(mmu), old(self).state(), final(self).state(), high_instruction_spec(opcode, old(self).state(), new_events(*old(mmu), *final(mmu)))),
            final(mmu).cycle_budget() + 5 >= old(mmu).cycle_budget(),
            final(mmu).cycle_budget() <= old(mmu).cycle_budget(),
    {
        reveal(high_instruction_spec);
        let ghost m0 = *mmu;
        let b3210 = opcode & 0x0F;
        let b210 = opcode & 0x07;
        assert(opcode & 0x0F == opcode % 16) by {
            crate::bits::lemma_u8_bits(opcode);
        }
        assert(opcode & 0x07 == opcode % 8) by {
            crate::bits::lemma_u8_bits(opcode);
        }
        if opcode < 0xC0 {
            self.alu_a_r8(opcode, mmu);
        } else if opcode == 0xCB {
            self.cb_prefixed_opcodes(opcode, mmu);
        } else if opcode == 0xE0 {
            self.ld_ff00_u8_a(opcode, mmu);
        } else if opcode == 0xE2 {
            self.ld_ff00_c_a(opcode, mmu);
        } else if opcode == 0xF0 {
            self.ld_a_ff00_u8(opcode, mmu);
        } else if opcode == 0xF2 {
            self.ld_a_ff00_c(opcode, mmu);
        } else if opcode == 0xCD {
            self.call_u16(opcode, mmu);
        } else if opcode == 0xC4 || opcode == 0xD4 || opcode == 0xCC || opcode == 0xDC {
            self.call_cc_u16(opcode, mmu);
        } else if opcode == 0xC9 {
            self.ret(opcode, mmu);
        } else if opcode == 0xD9 {
            self.reti(opcode, mmu);
        } else if opcode == 0xC0 || opcode == 0xD0 || opcode == 0xC8 || opcode == 0xD8 {
            self.ret_cc(opcode, mmu);
        } else if opcode == 0xEA {
            self.ld_u16_a(opcode, mmu);
        } else if opcode == 0xFA {
            self.ld_a_u16(opcode, mmu);
        } else if opcode == 0xC3 {
            self.jp_u16(opcode, mmu);
        } else if opcode == 0xC2 || opcode == 0xD2 || opcode == 0xCA || opcode == 0xDA {
            self.jp_cc_u16(opcode, mmu);
        } else if opcode == 0xF3 {
            self.di(opcode);
            proof {
                lemma_recorded_nothing(m0);
            }
            assert(self.state() =~= high_instruction_spec(opcode, old(self).state(), new_events(m0, *mmu)).0);
        } else if opcode == 0xE9 {
            self.jp_hl(opcode);
            proof {
                lemma_recorded_nothing(m0);
            }
        } else if opcode == 0xE8 {
            self.add_sp_i8(opcode, mmu);
        } else if opcode == 0xF8 {
            self.ld_hl_sp_i8(opcode, mmu);
        } else if opcode == 0xF9 {
            self.ld_sp_hl(opcode, mmu);
        } else if b3210 == 1 {
            self.pop_r16(opcode, mmu);
        } else if b3210 == 5 {
            self.push_r16(opcode, mmu);
        } else if b210 == 6 {
            self.alu_a_u8(opcode, mmu);
        } else {
            assert(b210 == 7) by {
                assert(opcode % 16 == 0 || opcode % 16 == 8 ==> opcode == 0xC0 || opcode == 0xD0 || opcode == 0xE0 || opcode == 0xF0 || opcode == 0xC8 || opcode == 0xD8 || opcode == 0xE8 || opcode == 0xF8);
            }
            self.rst(opcode, mmu);
        }
    }
}

// Fetching and executing ----------------------------------------------------------------------

/// The m-cycles `execute_opcode` wants to have in hand before it starts.
pub open spec fn opcode_cycles() -> nat {
    6
}

/// What `execute_opcode` does with a cycle budget of `budget`: the CPU state
/// it ends in, the events it records and its result. The events start with
/// the fetch of the opcode and the two looks at the bytes after it; EI runs
/// the next opcode before it enables interrupts.
#[verifier::opaque]
pub open spec fn execute_opcode_spec(s: CpuState, ev: Seq<BusEvent>, budget: nat) -> (CpuState, Seq<BusEvent>, Result<(), EmulationFault>)
    decreases budget,
{
    if budget < opcode_cycles() {
        (s, Seq::empty(), Err(EmulationFault::CycleBudgetExhausted))
    } else {
        let pc = s.regs.pc;
        let op = rd(ev, 0);
        let arg1 = rd(ev, 1);
        let arg2 = rd(ev, 2);
        let head = seq![
            read_at(pc, ev, 0),
            BusEvent::Peek { address: wrap16(pc + 1), data: arg1 },
            BusEvent::Peek { address: wrap16(pc + 2), data: arg2 },
        ];
        let s1 = CpuState {
            regs: pc_plus(s.regs, 1),
            history: history_pushed(s.history, (pc, op, arg1, arg2)),
            ..s
        };
        let rest = ev.skip(3);
        if is_illegal(op) {
            (s1, head, Err(EmulationFault::IllegalOpcode { opcode: op, pc }))
        } else if op == 0xFB {
            let (s2, e2, r) = execute_opcode_spec(s1, rest, (budget - 1) as nat);
            (CpuState { ime: true, ..s2 }, head + e2, r)
        } else {
            let (s2, e2) = instruction_spec(op, s1, rest);
            (s2, head + e2, Ok(()))
        }
    }
}

impl Cpu {
    /// Fetch, record and execute one opcode.
    #[verifier::spinoff_prover]
    #[verifier::rlimit(60)]
    pub fn execute_opcode<M: SystemBus>(&mut self, mmu: &mut M) -> (result: Result<(), EmulationFault>)
        requires
            old(mmu).bus_wf(),
        ensures
            final(mmu).bus_wf(),
            ({
                let (s2, e2, r) = execute_opcode_spec(
                    old(self).state(),
                    new_events(*old(mmu), *final(mmu)),
                    old(mmu).cycle_budget(),
                );
                recorded(*old(mmu), *final(mmu), e2) && final(self).state() == s2 && result == r
            }),
            final(mmu).cycle_budget() <= old(mmu).cycle_budget(),
            result is Ok ==> final(mmu).cycle_budget() < old(mmu).cycle_budget(),
        decreases old(mmu).cycle_budget(), 0nat,
    {
        reveal(execute_opcode_spec);
        let ghost m0 = *mmu;
        let ghost s0 = self.state();
        if !mmu.has_cycle_budget(6) {
            proof {
                lemma_recorded_nothing(m0);
            }
            return Err(EmulationFault::CycleBudgetExhausted);
        }
        let pc = self.regs.pc;
        let opcode_byte = self.fetch(mmu);
        let arg1 = mmu.unticked_read(self.regs.pc);
        let arg2 = mmu.unticked_read(self.regs.pc.wrapping_add(1));
        let opcode = ExecutedOpcode { pc, opcode: opcode_byte, arg1, arg2 };
        history_push(&mut self.opcodes, opcode);
        let ghost m1 = *mmu;
        let ghost s1 = self.state();
        let ghost head = seq![
            BusEvent::Read { address: pc, data: opcode_byte },
            BusEvent::Peek { address: wrap16(pc + 1), data: arg1 },
            BusEvent::Peek { address: wrap16(pc + 2), data: arg2 },
        ];
        proof {
            lemma_wrap16_steps(pc);
            lemma_events(m0, m1, head);
        }
        if opcode_byte == 0xD3 || opcode_byte == 0xDB || opcode_byte == 0xDD || opcode_byte == 0xE3
            || opcode_byte == 0xE4 || opcode_byte == 0xEB || opcode_byte == 0xEC || opcode_byte
            == 0xED || opcode_byte == 0xF4 || opcode_byte == 0xFC || opcode_byte == 0xFD {
            assert(self.state() =~= execute_opcode_spec(s0, new_events(m0, *mmu), m0.cycle_budget()).0);
            return Err(EmulationFault::IllegalOpcode { opcode: opcode_byte, pc });
        }
        if opcode_byte == 0xFB {
            let result = self.ei(opcode_byte, mmu);
            proof {
                let (s2, e2, r) = execute_opcode_spec(s1, new_events(m1, *mmu), m1.cycle_budget());
                lemma_new_events(m1, *mmu);
                lemma_chain(m0, m1, *mmu, head, e2);
            }
            return result;
        }
        if opcode_byte < 0x80 {
            self.execute_low_opcode(opcode_byte, mmu);
        } else {
            self.execute_high_opcode(opcode_byte, mmu);
        }
        proof {
            let (s2, e2) = instruction_spec(opcode_byte, s1, new_events(m1, *mmu));
            lemma_new_events(m1, *mmu);
            lemma_chain(m0, m1, *mmu, head, e2);
        }
        Ok(())
    }

    /// EI: interrupts are enabled only after the next opcode has run.
    #[verifier::spinoff_prover]
    pub(crate) fn ei<M: SystemBus>(&mut self, _opcode: u8, mmu: &mut M) -> (result: Result<(), EmulationFault>)
        requires
            old(mmu).bus_wf(),
        ensures
            final(mmu).bus_wf(),
            ({
                let (s2, e2, r) = execute_opcode_spec(
                    old(self).state(),
                    new_events(*old(mmu), *final(mmu)),
                    old(mmu).cycle_budget(),
                );
                recorded(*old(mmu), *final(mmu), e2) && final(self).state() == (CpuState {
                    ime: true,
                    ..s2
                }) && result == r
            }),
            final(mmu).cycle_budget() <= old(mmu).cycle_budget(),
            result is Ok ==> final(mmu).cycle_budget() < old(mmu).cycle_budget(),
        decreases old(mmu).cycle_budget(), 1nat,
    {
        let result = self.execute_opcode(mmu);
        self.ime = true;
        result
    }
}

// Interrupts ------------------------------------------------------------------------------------

/// The interrupt with priority index `index` (0 to 4).
pub open spec fn interrupt_at(index: int) -> InterruptType {
    if index == 0 {
        InterruptType::Vblank
    } else if index == 1 {
        InterruptType::LcdStat
    } else if index == 2 {
        InterruptType::Timer
    } else if index == 3 {
        InterruptType::Serial
    } else {
        InterruptType::Joypad
    }
}

/// The two looks at IF and IE that tell whether an interrupt is pending.
pub open spec fn pending_check_events(ev: Seq<BusEvent>) -> Seq<BusEvent> {
    seq![
        BusEvent::Peek { address: INTERRUPT_FLAG_ADDRESS, data: rd(ev, 0) },
        BusEvent::Peek { address: INTERRUPT_ENABLE_ADDRESS, data: rd(ev, 1) },
    ]
}

/// What `handle_interrupts` does, and the m-cycles it takes: read IF and
/// IE; with a request that is also enabled, leave HALT (back to the state
/// before it); with IME set, clear IME and the request of the interrupt with
/// the lowest bit, push PC and jump to the interrupt's vector.
#[verifier::opaque]
pub open spec fn interrupt_spec(s: CpuState, intf: u8, inte: u8) -> (CpuState, Seq<BusEvent>, Result<(), EmulationFault>, nat) {
    let ii = intf & inte;
    let reads = seq![
        BusEvent::Read { address: INTERRUPT_FLAG_ADDRESS, data: intf },
        BusEvent::Read { address: INTERRUPT_ENABLE_ADDRESS, data: inte },
    ];
    if ii == 0 {
        (s, reads, Ok(()), 2)
    } else {
        let woken = match s.previous_execution_state {
            Some(previous) => reads.push(BusEvent::SetExecutionState(previous)),
            None => reads,
        };
        if !s.ime {
            (s, woken, Ok(()), 2)
        } else {
            let index = u8_trailing_zeros(ii);
            let s1 = CpuState { ime: false, ..s };
            if index >= 5 {
                (s1, woken, Err(EmulationFault::ImpossibleInterrupt { index }), 2)
            } else {
                let interrupt = interrupt_at(index as int);
                (
                    with_regs(
                        s1,
                        Registers {
                            sp: wrap16(s.regs.sp - 2),
                            pc: interrupt_vector(interrupt),
                            ..s.regs
                        },
                    ),
                    woken + seq![BusEvent::Acknowledge(interrupt)] + push_events(s.regs.sp, s.regs.pc)
                        + seq![BusEvent::Tick],
                    Ok(()),
                    5,
                )
            }
        }
    }
}

/// The interrupt handler starts with its reads of IF and IE.
pub proof fn lemma_interrupt_reads(s: CpuState, intf: u8, inte: u8)
    ensures
        interrupt_spec(s, intf, inte).1.len() >= 2,
        interrupt_spec(s, intf, inte).1[0] == (BusEvent::Read { address: INTERRUPT_FLAG_ADDRESS, data: intf }),
        interrupt_spec(s, intf, inte).1[1] == (BusEvent::Read { address: INTERRUPT_ENABLE_ADDRESS, data: inte }),
{
    reveal(interrupt_spec);
}

/// Servicing an interrupt takes 5 m-cycles: the reads of IF and IE, the two
/// writes of the pushed PC and one more cycle.
pub proof fn lemma_interrupt_service_cycles(s: CpuState, intf: u8, inte: u8)
    requires
        intf & inte != 0,
        s.ime,
        u8_trailing_zeros(intf & inte) < 5,
    ensures
        interrupt_spec(s, intf, inte).2 is Ok,
        interrupt_spec(s, intf, inte).3 == 5,
        mcycles(interrupt_spec(s, intf, inte).1) == 5,
{
    reveal(interrupt_spec);
    let r0 = BusEvent::Read { address: INTERRUPT_FLAG_ADDRESS, data: intf };
    let r1 = BusEvent::Read { address: INTERRUPT_ENABLE_ADDRESS, data: inte };
    let reads = seq![r0, r1];
    lemma_mcycles_push(Seq::empty(), r0);
    assert(seq![r0] =~= Seq::<BusEvent>::empty().push(r0));
    lemma_mcycles_push(seq![r0], r1);
    assert(reads =~= seq![r0].push(r1));
    let woken = match s.previous_execution_state {
        Some(previous) => reads.push(BusEvent::SetExecutionState(previous)),
        None => reads,
    };
    if let Some(previous) = s.previous_execution_state {
        lemma_mcycles_push(reads, BusEvent::SetExecutionState(previous));
    }
    assert(mcycles(woken) == 2);
    let interrupt = interrupt_at(u8_trailing_zeros(intf & inte) as int);
    let pushes = push_events(s.regs.sp, s.regs.pc);
    let w0 = pushes[0];
    let w1 = pushes[1];
    let ack = woken + seq![BusEvent::Acknowledge(interrupt)];
    assert(ack =~= woken.push(BusEvent::Acknowledge(interrupt)));
    lemma_mcycles_push(woken, BusEvent::Acknowledge(interrupt));
    assert(ack + pushes =~= ack.push(w0).push(w1));
    lemma_mcycles_push(ack, w0);
    lemma_mcycles_push(ack.push(w0), w1);
    let all = ack + pushes + seq![BusEvent::Tick];
    assert(all =~= (ack + pushes).push(BusEvent::Tick));
    lemma_mcycles_push(ack + pushes, BusEvent::Tick);
}

/// What `execute` does with a cycle budget of `budget`: service a pending
/// interrupt, then either execute an opcode or, halted or switching speed,
/// let one m-cycle pass.
pub open spec fn execute_spec(s: CpuState, ev: Seq<BusEvent>, budget: nat) -> (CpuState, Seq<BusEvent>, Result<(), EmulationFault>) {
    if budget < opcode_cycles() {
        (s, Seq::empty(), Err(EmulationFault::CycleBudgetExhausted))
    } else {
        let check = pending_check_events(ev);
        let pending = rd(ev, 0) & rd(ev, 1) != 0;
        let ev1 = ev.skip(2);
        let (s1, e1, r1, used) = if pending {
            interrupt_spec(s, rd(ev1, 0), rd(ev1, 1))
        } else {
            (s, Seq::<BusEvent>::empty(), Ok(()), 0)
        };
        if r1 is Err {
            (s1, check + e1, r1)
        } else {
            let ev2 = ev1.skip(e1.len() as int);
            let state = event_state(ev2[0]);
            let look = seq![BusEvent::ExecutionState(state)];
            if state == ExecutionState::ExecutingProgram {
                let (s2, e2, r2) = execute_opcode_spec(s1, ev2.skip(1), (budget - used) as nat);
                (s2, check + e1 + look + e2, r2)
            } else {
                (s1, check + e1 + look + seq![BusEvent::Tick], Ok(()))
            }
        }
    }
}

impl Cpu {
    /// Whether an interrupt is both requested and enabled; takes no time.
    #[verifier::spinoff_prover]
    pub(crate) fn check_for_pending_interrupts<M: SystemBus>(&self, mmu: &mut M) -> (pending: bool)
        requires
            old(mmu).bus_wf(),
        ensures
            final(mmu).bus_wf(),
            recorded(*old(mmu), *final(mmu), pending_check_events(new_events(*old(mmu), *final(mmu)))),
            pending == (rd(new_events(*old(mmu), *final(mmu)), 0) & rd(new_events(*old(mmu), *final(mmu)), 1) != 0),
            final(mmu).cycle_budget() == old(mmu).cycle_budget(),
    {
        let ghost m0 = *mmu;
        let intf = mmu.unticked_read(INTERRUPT_FLAG_ADDRESS);
        let inte = mmu.unticked_read(INTERRUPT_ENABLE_ADDRESS);
        proof {
            lemma_events(
                m0,
                *mmu,
                seq![
                    BusEvent::Peek { address: INTERRUPT_FLAG_ADDRESS, data: intf },
                    BusEvent::Peek { address: INTERRUPT_ENABLE_ADDRESS, data: inte },
                ],
            );
        }
        let ii = intf & inte;
        ii != 0x00
    }

    /// The CPU's interrupt handler; servicing an interrupt takes 5 m-cycles.
    #[verifier::spinoff_prover]
    #[verifier::rlimit(40)]
    pub(crate) fn handle_interrupts<M: SystemBus>(&mut self, mmu: &mut M) -> (result: Result<(), EmulationFault>)
        requires
            old(mmu).bus_wf(),
            old(mmu).cycle_budget() >= 5,
        ensures
            final(mmu).bus_wf(),
            ({
                let ev = new_events(*old(mmu), *final(mmu));
                let (s2, e2, r, used) = interrupt_spec(old(self).state(), rd(ev, 0), rd(ev, 1));
                recorded(*old(mmu), *final(mmu), e2) && final(self).state() == s2 && result == r
                    && final(mmu).cycle_budget() + used == old(mmu).cycle_budget()
            }),
            final(mmu).cycle_budget() + 5 >= old(mmu).cycle_budget(),
    {
        reveal(interrupt_spec);
        let ghost m0 = *mmu;
        let ghost s0 = self.state();
        // Cycle 1
        let intf = mmu.read(INTERRUPT_FLAG_ADDRESS);
        // Cycle 2
        let inte = mmu.read(INTERRUPT_ENABLE_ADDRESS);
        let ghost reads = seq![
            BusEvent::Read { address: INTERRUPT_FLAG_ADDRESS, data: intf },
            BusEvent::Read { address: INTERRUPT_ENABLE_ADDRESS, data: inte },
        ];
        proof {
            lemma_events(m0, *mmu, reads);
        }
        let ii = intf & inte;
        if ii == 0x00 {
            return Ok(());
        }
        // When there are pending interrupts, the CPU starts executing again and jumps to the
        // interrupt with the highest priority
        let ghost woken = reads;
        if let Some(previous_execution_state) = self.previous_execution_state {
            mmu.set_execution_state(previous_execution_state);
            proof {
                woken = reads.push(BusEvent::SetExecutionState(previous_execution_state));
            }
        }
        proof {
            lemma_events(m0, *mmu, woken);
        }
        // However, if there are pending interrupts, but *all* interrupts are disabled, the CPU
        // still needs to be executing, however we don't service any interrupt.
        if !self.ime {
            return Ok(());
        }
        self.ime = false;
        let highest_priority_interrupt = ii.trailing_zeros();
        if highest_priority_interrupt >= 5 {
            return Err(EmulationFault::ImpossibleInterrupt { index: highest_priority_interrupt });
        }
        let interrupt = InterruptType::from_index(highest_priority_interrupt);
        assert(interrupt == interrupt_at(highest_priority_interrupt as int));
        mmu.reset_interrupt_request(interrupt);
        // Push PC to stack
        let (upper, lower) = decompose_word(self.regs.pc);
        self.regs.sp = self.regs.sp.wrapping_sub(1);
        // Cycle 3
        mmu.write(self.regs.sp, upper);
        self.regs.sp = self.regs.sp.wrapping_sub(1);
        // Cycle 4
        mmu.write(self.regs.sp, lower);
        // Jump to interrupt handler
        self.regs.pc = interrupt.vector();
        // The PC set takes another m-cycle - Cycle 5
        mmu.tick();
        proof {
            lemma_wrap16_steps(s0.regs.sp);
            lemma_events(
                m0,
                *mmu,
                woken + seq![BusEvent::Acknowledge(interrupt)] + push_events(s0.regs.sp, s0.regs.pc)
                    + seq![BusEvent::Tick],
            );
        }
        assert(self.state() =~= interrupt_spec(s0, intf, inte).0);
        Ok(())
    }

    /// Run the CPU for one step: service a pending interrupt, then execute an
    /// opcode, or let one m-cycle pass while halted or switching speed.
    #[verifier::spinoff_prover]
    #[verifier::rlimit(100)]
    pub fn execute<M: SystemBus>(&mut self, mmu: &mut M) -> (result: Result<(), EmulationFault>)
        requires
            old(mmu).bus_wf(),
        ensures
            final(mmu).bus_wf(),
            ({
                let (s2, e2, r) = execute_spec(
                    old(self).state(),
                    new_events(*old(mmu), *final(mmu)),
                    old(mmu).cycle_budget(),
                );
                recorded(*old(mmu), *final(mmu), e2) && final(self).state() == s2 && result == r
            }),
            final(mmu).cycle_budget() <= old(mmu).cycle_budget(),
            result is Ok ==> final(mmu).cycle_budget() < old(mmu).cycle_budget(),
    {
        let ghost m0 = *mmu;
        let ghost s0 = self.state();
        if !mmu.has_cycle_budget(6) {
            proof {
                lemma_recorded_nothing(m0);
            }
            return Err(EmulationFault::CycleBudgetExhausted);
        }
        let pending = self.check_for_pending_interrupts(mmu);
        let ghost m1 = *mmu;
        let ghost check = pending_check_events(new_events(m0, m1));
        let ghost mut e1 = Seq::<BusEvent>::empty();
        let ghost mut used: nat = 0;
        let ghost mut intf: u8 = 0;
        let ghost mut inte: u8 = 0;
        if pending {
            let handled = self.handle_interrupts(mmu);
            let ghost m2 = *mmu;
            proof {
                let ev = new_events(m1, m2);
                let (s2, e2, r, u) = interrupt_spec(s0, rd(ev, 0), rd(ev, 1));
                lemma_interrupt_reads(s0, rd(ev, 0), rd(ev, 1));
                intf = rd(ev, 0);
                inte = rd(ev, 1);
                e1 = e2;
                used = u;
                lemma_new_events(m1, m2);
                lemma_chain(m0, m1, m2, check, e2);
                assert((check + e2).skip(2) =~= e2);
            }
            if let Err(fault) = handled {
                return Err(fault);
            }
        } else {
            proof {
                lemma_recorded_nothing(m1);
                lemma_chain(m0, m1, m1, check, Seq::empty());
            }
        }
        let ghost m2 = *mmu;
        let ghost s2 = self.state();
        let execution_state = mmu.execution_state();
        let ghost m3 = *mmu;
        let ghost look = seq![BusEvent::ExecutionState(execution_state)];
        proof {
            lemma_events(m2, m3, look);
            lemma_chain(m0, m2, m3, check + e1, look);
        }
        match execution_state {
            ExecutionState::ExecutingProgram => {
                let result = self.execute_opcode(mmu);
                proof {
                    let (s4, e4, r4) = execute_opcode_spec(s2, new_events(m3, *mmu), m3.cycle_budget());
                    lemma_new_events(m3, *mmu);
                    lemma_chain(m0, m3, *mmu, check + e1 + look, e4);
                    let ev = new_events(m0, *mmu);
                    assert(ev =~= check + e1 + look + e4);
                    assert(ev.skip(2) =~= e1 + look + e4);
                    assert(ev.skip(2).skip(e1.len() as int) =~= look + e4);
                    assert(ev.skip(2).skip(e1.len() as int).skip(1) =~= e4);
                    assert(pending_check_events(ev) =~= check);
                    assert(pending ==> rd(ev.skip(2), 0) == intf && rd(ev.skip(2), 1) == inte);
                }
                result
            },
            // The CPU does not execute when halted, nor while switching speed
            _ => {
                mmu.tick();
                proof {
                    lemma_events(m3, *mmu, seq![BusEvent::Tick]);
                    lemma_chain(m0, m3, *mmu, check + e1 + look, seq![BusEvent::Tick]);
                    let ev = new_events(m0, *mmu);
                    assert(ev.skip(2) =~= e1 + look + seq![BusEvent::Tick]);
                    assert(ev.skip(2).skip(e1.len() as int) =~= look + seq![BusEvent::Tick]);
                    assert(pending_check_events(ev) =~= check);
                    assert(pending ==> rd(ev.skip(2), 0) == intf && rd(ev.skip(2), 1) == inte);
                }
                Ok(())
            },
        }
    }
}

/// The signed offset of a relative jump, as a 16-bit two's complement value.
pub fn sign_extend_exec(offset: u8) -> (extended: u16)
    ensures
        extended == sign_extend(offset),
{
    if offset < 128 {
        offset as u16
    } else {
        offset as u16 + 0xFF00
    }
}

} // verus!
