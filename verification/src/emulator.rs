use vstd::prelude::*;

use crate::fault::Fault;
use crate::memory;

verus! {

/// The observable state of the reduced machine: it has no screen, timers or
/// random source, so every step is a function of this state alone.
#[verifier::ext_equal]
pub ghost struct EmuMachine {
    pub ip: u16,
    pub sp: u8,
    pub stack: Seq<u16>,
    pub regs: Seq<u8>,
    pub mem: Seq<u8>,
    pub addr_reg: u16,
}

impl EmuMachine {
    /// Fixed capacities of the containers, and the stack pointer inside its
    /// range: here it indexes the next free slot, so it may equal the depth.
    pub open spec fn wf(self) -> bool {
        &&& self.stack.len() == memory::STACK_SIZE
        &&& self.regs.len() == memory::REGISTER_COUNT
        &&& self.mem.len() == memory::TOTAL_MEMORY
        &&& self.sp <= memory::STACK_SIZE
    }
}

/// The reduced machine at power-on.
pub open spec fn spec_emu_initial() -> EmuMachine {
    EmuMachine {
        ip: memory::PROGRAM_OFFSET as u16,
        sp: 0,
        stack: Seq::new(memory::STACK_SIZE as nat, |i: int| 0u16),
        regs: Seq::new(memory::REGISTER_COUNT as nat, |i: int| 0u8),
        mem: Seq::new(memory::TOTAL_MEMORY as nat, |i: int| 0u8),
        addr_reg: 0,
    }
}

/// The machine with its instruction pointer advanced past the word just
/// fetched.
pub open spec fn spec_emu_advanced(m: EmuMachine) -> EmuMachine {
    EmuMachine { ip: m.ip.wrapping_add(2), ..m }
}

/// The instruction word at the instruction pointer, big-endian.
pub open spec fn spec_emu_fetch(m: EmuMachine) -> u16 {
    ((m.mem[m.ip as int] as int) * 256 + (m.mem[m.ip as int + 1] as int)) as u16
}

/// The reduced machine one instruction word takes `m` to, or the fault it
/// surfaces. Only call and load-address are implemented; the call pushes the
/// return address at the next free slot, so this stack fills all the way to
/// the depth.
pub open spec fn spec_emu_step(pre: EmuMachine, word: u16) -> Result<EmuMachine, Fault> {
    let m = spec_emu_advanced(pre);
    let class = word >> 12;
    let nnn = word & 0x0FFF;
    if class == 0x2 {
        if m.sp >= memory::STACK_SIZE {
            Err(Fault::StackOverflow)
        } else {
            Ok(
                EmuMachine {
                    stack: m.stack.update(m.sp as int, m.ip),
                    sp: (m.sp + 1) as u8,
                    ip: nnn,
                    ..m
                },
            )
        }
    } else if class == 0xA {
        Ok(EmuMachine { addr_reg: nnn, ..m })
    } else {
        Err(Fault::UnimplementedOpcode)
    }
}

/// The state and outcome after up to `fuel` fetch-and-execute steps: the
/// machine runs until the fuel is spent or the first fault, whichever comes
/// first.
pub open spec fn spec_emu_run(m: EmuMachine, fuel: nat) -> (EmuMachine, Option<Fault>)
    decreases fuel,
{
    if fuel == 0 {
        (m, None)
    } else if m.ip as int + 1 >= memory::TOTAL_MEMORY {
        (m, Some(Fault::MemoryOutOfBounds))
    } else {
        match spec_emu_step(m, spec_emu_fetch(m)) {
            Ok(m2) => spec_emu_run(m2, (fuel - 1) as nat),
            Err(f) => (spec_emu_advanced(m), Some(f)),
        }
    }
}

/// The reduced interpreter: a call-and-load-address subset of the machine,
/// fully deterministic.
#[derive(Debug)]
pub struct Emulator {
    ip: u16,
    sp: u8,
    stack: Vec<u16>,
    memory: Vec<u8>,
    registers: Vec<u8>,
    addr_reg: u16,
}

impl View for Emulator {
    type V = EmuMachine;

    closed spec fn view(&self) -> EmuMachine {
        EmuMachine {
            ip: self.ip,
            sp: self.sp,
            stack: self.stack@,
            regs: self.registers@,
            mem: self.memory@,
            addr_reg: self.addr_reg,
        }
    }
}

impl Emulator {
    /// The machine state is well formed.
    pub open spec fn wf(&self) -> bool {
        self@.wf()
    }

    /// A reduced machine at power-on.
    pub fn init() -> (e: Emulator)
        ensures
            e.wf(),
            e@ == spec_emu_initial(),
    {
        let e = Emulator {
            ip: memory::PROGRAM_OFFSET as u16,
            sp: 0,
            stack: memory::filled_vec(0u16, memory::STACK_SIZE),
            memory: memory::filled_vec(0u8, memory::TOTAL_MEMORY),
            registers: memory::filled_vec(0u8, memory::REGISTER_COUNT),
            addr_reg: 0,
        };
        proof {
            assert(e@ =~= spec_emu_initial());
        }
        e
    }

    /// Copy a program image into the program region, zero-filling the rest of
    /// the region; an image larger than the region is rejected whole and
    /// leaves the machine untouched.
    pub fn load_program(&mut self, program: &Vec<u8>) -> (r: Result<(), Fault>)
        requires
            old(self).wf(),
        ensures
            final(self).wf(),
            program@.len() > memory::TOTAL_MEMORY - memory::PROGRAM_OFFSET ==> r == Err::<
                (),
                Fault,
            >(Fault::LoadOversized) && final(self)@ == old(self)@,
            program@.len() <= memory::TOTAL_MEMORY - memory::PROGRAM_OFFSET ==> r == Ok::<
                (),
                Fault,
            >(()) && final(self)@ == (EmuMachine {
                mem: memory::spec_loaded(old(self)@.mem, program@),
                ..old(self)@
            }),
    {
        memory::load_program_region(&mut self.memory, program)
    }

    /// Fetch the instruction word at the instruction pointer, advance the
    /// pointer past it, and execute it. A fetch that would read outside
    /// memory faults and leaves the machine untouched.
    pub fn iterate(&mut self) -> (r: Result<(), Fault>)
        requires
            old(self).wf(),
        ensures
            final(self).wf(),
            (old(self)@.ip as int + 1) >= memory::TOTAL_MEMORY ==> r == Err::<(), Fault>(
                Fault::MemoryOutOfBounds,
            ) && final(self)@ == old(self)@,
            (old(self)@.ip as int + 1) < memory::TOTAL_MEMORY ==> match spec_emu_step(
                old(self)@,
                spec_emu_fetch(old(self)@),
            ) {
                Ok(m2) => r == Ok::<(), Fault>(()) && final(self)@ == m2,
                Err(f) => r == Err::<(), Fault>(f) && final(self)@ == spec_emu_advanced(
                    old(self)@,
                ),
            },
    {
        if self.ip as usize >= memory::TOTAL_MEMORY - 1 {
            return Err(Fault::MemoryOutOfBounds);
        }
        let hi = self.memory[self.ip as usize];
        let lo = self.memory[self.ip as usize + 1];
        let word: u16 = (hi as u16) * 256 + (lo as u16);
        self.ip = self.ip.wrapping_add(2);
        let class = word >> 12;
        let nnn = word & 0x0FFF;
        if class == 0x2 {
            if self.sp as usize >= memory::STACK_SIZE {
                return Err(Fault::StackOverflow);
            }
            let ret = self.ip;
            self.stack[self.sp as usize] = ret;
            self.sp = self.sp + 1;
            self.ip = nnn;
            Ok(())
        } else if class == 0xA {
            self.addr_reg = nnn;
            Ok(())
        } else {
            Err(Fault::UnimplementedOpcode)
        }
    }

    /// Run fetch-and-execute steps until the first fault or until `max_steps`
    /// steps have completed, whichever comes first.
    pub fn run(&mut self, max_steps: u64) -> (r: Result<(), Fault>)
        requires
            old(self).wf(),
        ensures
            final(self).wf(),
            final(self)@ == spec_emu_run(old(self)@, max_steps as nat).0,
            r == match spec_emu_run(old(self)@, max_steps as nat).1 {
                Option::None => Ok::<(), Fault>(()),
                Option::Some(f) => Err::<(), Fault>(f),
            },
    {
        let mut steps: u64 = 0;
        while steps < max_steps
            invariant
                self.wf(),
                steps <= max_steps,
                spec_emu_run(old(self)@, max_steps as nat) == spec_emu_run(
                    self@,
                    (max_steps - steps) as nat,
                ),
            decreases max_steps - steps,
        {
            let ghost pre = self@;
            match self.iterate() {
                Ok(()) => {
                    steps = steps + 1;
                },
                Err(f) => {
                    proof {
                        assert(spec_emu_run(pre, (max_steps - steps) as nat) == (
                            self@,
                            Some(f),
                        ));
                    }
                    return Err(f);
                },
            }
        }
        Ok(())
    }

    /// The instruction pointer.
    pub fn ip(&self) -> (v: u16)
        ensures
            v == self@.ip,
    {
        self.ip
    }

    /// The stack pointer.
    pub fn sp(&self) -> (v: u8)
        ensures
            v == self@.sp,
    {
        self.sp
    }

    /// The address register.
    pub fn addr_reg(&self) -> (v: u16)
        ensures
            v == self@.addr_reg,
    {
        self.addr_reg
    }

    /// One call stack slot.
    pub fn stack_at(&self, i: usize) -> (v: u16)
        requires
            self.wf(),
            i < memory::STACK_SIZE,
        ensures
            v == self@.stack[i as int],
    {
        self.stack[i]
    }

    /// Overwrite the instruction pointer.
    pub fn set_ip(&mut self, v: u16)
        requires
            old(self).wf(),
        ensures
            final(self).wf(),
            final(self)@ == (EmuMachine { ip: v, ..old(self)@ }),
    {
        self.ip = v;
    }
}

} // verus!
