use vstd::prelude::*;

use crate::fault::Fault;
use crate::font;
use crate::instr;
use crate::instr::Instr;
use crate::memory;
use crate::rng::RandomSource;
use crate::screen;
use crate::screen::Screen;
use crate::timer;
use crate::timer::Timer;

verus! {

/// The observable state of the machine: the instruction pointer, the stack
/// pointer and call stack, the sixteen general registers, the flat memory,
/// the address register, the pixel grid, and the two timers' expiry instants.
#[verifier::ext_equal]
pub ghost struct Machine {
    pub ip: u16,
    pub sp: u8,
    pub stack: Seq<u16>,
    pub regs: Seq<u8>,
    pub mem: Seq<u8>,
    pub addr_reg: u16,
    pub screen: Seq<bool>,
    pub delay_end: u128,
    pub sound_end: u128,
}

impl Machine {
    /// Fixed capacities of the containers, and the stack pointer inside its
    /// range: it indexes the last used slot, so it tops out one below the
    /// stack depth.
    pub open spec fn wf(self) -> bool {
        &&& self.stack.len() == memory::STACK_SIZE
        &&& self.regs.len() == memory::REGISTER_COUNT
        &&& self.mem.len() == memory::TOTAL_MEMORY
        &&& self.screen.len() == screen::SCREEN_PIXELS
        &&& self.sp < memory::STACK_SIZE
    }
}

/// The machine state at power-on: the instruction pointer at the program
/// offset and everything else zeroed.
pub open spec fn spec_initial_machine() -> Machine {
    Machine {
        ip: memory::PROGRAM_OFFSET as u16,
        sp: 0,
        stack: Seq::new(memory::STACK_SIZE as nat, |i: int| 0u16),
        regs: Seq::new(memory::REGISTER_COUNT as nat, |i: int| 0u8),
        mem: Seq::new(memory::TOTAL_MEMORY as nat, |i: int| 0u8),
        addr_reg: 0,
        screen: Seq::new(screen::SCREEN_PIXELS as nat, |i: int| false),
        delay_end: 0,
        sound_end: 0,
    }
}

/// The machine with its instruction pointer advanced past the instruction
/// word just fetched. The advance is unconditional and happens before
/// dispatch, so jump and call targets are absolute.
pub open spec fn spec_advanced(m: Machine) -> Machine {
    Machine { ip: m.ip.wrapping_add(2), ..m }
}

/// The instruction word at the instruction pointer, big-endian.
pub open spec fn spec_fetch(m: Machine) -> u16 {
    ((m.mem[m.ip as int] as int) * 256 + (m.mem[m.ip as int + 1] as int)) as u16
}

/// The machine with the next instruction word skipped when `cond` holds.
pub open spec fn spec_skip_if(m: Machine, cond: bool) -> Machine {
    if cond {
        Machine { ip: m.ip.wrapping_add(2), ..m }
    } else {
        m
    }
}

/// The machine with register `x` overwritten.
pub open spec fn spec_set_reg(m: Machine, x: u8, v: u8) -> Machine {
    Machine { regs: m.regs.update(x as int, v), ..m }
}

/// The machine after an arithmetic or shift operation: the flag register is
/// written first, then the result lands in register `x`, so when `x` is the
/// flag register itself the result wins.
pub open spec fn spec_alu_write(m: Machine, x: u8, flag: u8, value: u8) -> Machine {
    Machine { regs: m.regs.update(15, flag).update(x as int, value), ..m }
}

/// The pixel grid after the first `rows` sprite rows read at `addr` have been
/// written at column `x`, rows `y` onward.
pub open spec fn spec_sprite_grid(
    grid: Seq<bool>,
    mem: Seq<u8>,
    addr: int,
    x: u8,
    y: u8,
    rows: int,
) -> Seq<bool>
    decreases rows,
{
    if rows <= 0 {
        grid
    } else {
        screen::spec_row_write(
            spec_sprite_grid(grid, mem, addr, x, y, rows - 1),
            x as int,
            y as int + rows - 1,
            mem[addr + rows - 1],
        )
    }
}

/// Whether writing the first `rows` sprite rows changes the value of any
/// pixel they touch.
pub open spec fn spec_sprite_changed(
    grid: Seq<bool>,
    mem: Seq<u8>,
    addr: int,
    x: u8,
    y: u8,
    rows: int,
) -> bool
    decreases rows,
{
    if rows <= 0 {
        false
    } else {
        spec_sprite_changed(grid, mem, addr, x, y, rows - 1) || screen::spec_row_changed(
            spec_sprite_grid(grid, mem, addr, x, y, rows - 1),
            x as int,
            y as int + rows - 1,
            mem[addr + rows - 1],
        )
    }
}

/// The machine one decoded instruction takes `m` to, or the fault it
/// surfaces. `m` already has its instruction pointer advanced past the word.
/// `rnd` stands for the byte the random source yields and `now` for the
/// instant the wall clock reads, should the instruction consult either.
pub open spec fn spec_step_decoded(m: Machine, ins: Instr, rnd: u8, now: u128) -> Result<
    Machine,
    Fault,
> {
    match ins {
        Instr::Cls => Ok(
            Machine { screen: Seq::new(screen::SCREEN_PIXELS as nat, |i: int| false), ..m },
        ),
        Instr::Ret => if m.sp == 0 {
            Err(Fault::StackUnderflow)
        } else {
            Ok(Machine { ip: m.stack[m.sp as int], sp: (m.sp - 1) as u8, ..m })
        },
        Instr::Jp(nnn) => Ok(Machine { ip: nnn, ..m }),
        Instr::Call(nnn) => if m.sp >= memory::STACK_SIZE - 1 {
            Err(Fault::StackOverflow)
        } else {
            Ok(
                Machine {
                    sp: (m.sp + 1) as u8,
                    stack: m.stack.update(m.sp as int + 1, m.ip),
                    ip: nnn,
                    ..m
                },
            )
        },
        Instr::SeImm(x, kk) => Ok(spec_skip_if(m, m.regs[x as int] == kk)),
        Instr::SneImm(x, kk) => Ok(spec_skip_if(m, m.regs[x as int] != kk)),
        Instr::SeReg(x, y) => Ok(spec_skip_if(m, m.regs[x as int] == m.regs[y as int])),
        Instr::LdImm(x, kk) => Ok(spec_set_reg(m, x, kk)),
        Instr::AddImm(x, kk) => Ok(spec_set_reg(m, x, m.regs[x as int].wrapping_add(kk))),
        Instr::LdReg(x, y) => Ok(spec_set_reg(m, x, m.regs[y as int])),
        Instr::Or(x, y) => Ok(spec_set_reg(m, x, m.regs[x as int] | m.regs[y as int])),
        Instr::And(x, y) => Ok(spec_set_reg(m, x, m.regs[x as int] & m.regs[y as int])),
        Instr::Xor(x, y) => Ok(spec_set_reg(m, x, m.regs[x as int] ^ m.regs[y as int])),
        Instr::AddReg(x, y) => {
            let vx = m.regs[x as int];
            let vy = m.regs[y as int];
            Ok(
                spec_alu_write(
                    m,
                    x,
                    if vx + vy > 255 {
                        1u8
                    } else {
                        0u8
                    },
                    vx.wrapping_add(vy),
                ),
            )
        },
        Instr::SubReg(x, y) => {
            let vx = m.regs[x as int];
            let vy = m.regs[y as int];
            Ok(
                spec_alu_write(
                    m,
                    x,
                    if vx >= vy {
                        1u8
                    } else {
                        0u8
                    },
                    vx.wrapping_sub(vy),
                ),
            )
        },
        Instr::Shr(x, y) => {
            let vx = m.regs[x as int];
            Ok(spec_alu_write(m, x, vx & 1, vx >> 1))
        },
        Instr::SubN(x, y) => {
            let vx = m.regs[x as int];
            let vy = m.regs[y as int];
            Ok(
                spec_alu_write(
                    m,
                    x,
                    if vy >= vx {
                        1u8
                    } else {
                        0u8
                    },
                    vy.wrapping_sub(vx),
                ),
            )
        },
        Instr::Shl(x, y) => {
            let vx = m.regs[x as int];
            Ok(spec_alu_write(m, x, vx >> 7, vx << 1))
        },
        Instr::SneReg(x, y) => Ok(spec_skip_if(m, m.regs[x as int] != m.regs[y as int])),
        Instr::LdI(nnn) => Ok(Machine { addr_reg: nnn, ..m }),
        Instr::JpV0(nnn) => Ok(
            Machine { ip: ((nnn as int) + (m.regs[0] as int)) as u16, ..m },
        ),
        Instr::Rnd(x, kk) => Ok(spec_set_reg(m, x, rnd & kk)),
        Instr::Drw(x, y, n) => {
            let vx = m.regs[x as int];
            let vy = m.regs[y as int];
            if m.addr_reg as int + n as int >= memory::TOTAL_MEMORY {
                Err(Fault::MemoryOutOfBounds)
            } else if vy as int + n as int >= screen::SCREEN_HEIGHT {
                Err(Fault::MemoryOutOfBounds)
            } else {
                let grid = spec_sprite_grid(
                    m.screen,
                    m.mem,
                    m.addr_reg as int,
                    vx,
                    vy,
                    n as int + 1,
                );
                let changed = spec_sprite_changed(
                    m.screen,
                    m.mem,
                    m.addr_reg as int,
                    vx,
                    vy,
                    n as int + 1,
                );
                Ok(
                    Machine {
                        screen: grid,
                        regs: m.regs.update(
                            15,
                            if changed {
                                1u8
                            } else {
                                0u8
                            },
                        ),
                        ..m
                    },
                )
            }
        },
        Instr::LdVxDt(x) => Ok(spec_set_reg(m, x, timer::spec_remaining(m.delay_end, now))),
        Instr::LdDtVx(x) => Ok(
            Machine { delay_end: timer::spec_expiry(now, m.regs[x as int]), ..m },
        ),
        Instr::LdStVx(x) => Ok(
            Machine { sound_end: timer::spec_expiry(now, m.regs[x as int]), ..m },
        ),
        Instr::AddI(x) => Ok(
            Machine { addr_reg: m.addr_reg.wrapping_add(m.regs[x as int] as u16), ..m },
        ),
    }
}

/// The machine one instruction word takes `pre` to, or the fault it surfaces.
/// The instruction pointer is advanced unconditionally before dispatch, also
/// when decoding fails.
pub open spec fn spec_step(pre: Machine, word: u16, rnd: u8, now: u128) -> Result<Machine, Fault> {
    match instr::spec_decode(word) {
        Ok(ins) => spec_step_decoded(spec_advanced(pre), ins, rnd, now),
        Err(f) => Err(f),
    }
}

/// Whether the instruction consults the random source or the wall clock.
pub open spec fn spec_uses_oracle(ins: Instr) -> bool {
    ||| ins is Rnd
    ||| ins is LdVxDt
    ||| ins is LdDtVx
    ||| ins is LdStVx
}

/// Whether the outcome of the word is a function of the machine state alone.
pub open spec fn spec_deterministic(word: u16) -> bool {
    match instr::spec_decode(word) {
        Ok(ins) => !spec_uses_oracle(ins),
        Err(_) => true,
    }
}

/// How executing one instruction word relates the machine state before the
/// step, the state after it, and the returned outcome: a successful step
/// lands exactly on the state the step relation gives, and a fault leaves
/// everything but the advanced instruction pointer untouched.
pub open spec fn spec_step_post(
    pre: Machine,
    word: u16,
    rnd: u8,
    now: u128,
    post: Machine,
    r: Result<(), Fault>,
) -> bool {
    match spec_step(pre, word, rnd, now) {
        Ok(m2) => r == Ok::<(), Fault>(()) && post == m2,
        Err(f) => r == Err::<(), Fault>(f) && post == spec_advanced(pre),
    }
}

/// Loading an immediate into a register then reading that register yields the
/// immediate, for every machine state, register index and byte.
pub proof fn lemma_ld_imm_round_trip(m: Machine, x: u8, kk: u8, rnd: u8, now: u128)
    requires
        m.wf(),
        x < 16,
    ensures
        ({
            let word = (0x6000u16 | ((x as u16) << 8)) | (kk as u16);
            &&& spec_step(m, word, rnd, now) is Ok
            &&& spec_step(m, word, rnd, now)->Ok_0.regs[x as int] == kk
        }),
{
    let word = (0x6000u16 | ((x as u16) << 8)) | (kk as u16);
    assert(word >> 12 == 6 && ((word >> 8) & 0xF) as u8 == x && (word & 0xFF) as u8 == kk)
        by (bit_vector)
        requires
            word == (0x6000u16 | ((x as u16) << 8)) | (kk as u16),
            x < 16,
    ;
}

/// Add-immediate wraps modulo 256 and has no flag side effect: every register
/// other than the target, the flag register included, keeps its value.
pub proof fn lemma_add_imm_wraps(m: Machine, x: u8, kk: u8, rnd: u8, now: u128)
    requires
        m.wf(),
        x < 16,
    ensures
        ({
            let word = (0x7000u16 | ((x as u16) << 8)) | (kk as u16);
            &&& spec_step(m, word, rnd, now) is Ok
            &&& spec_step(m, word, rnd, now)->Ok_0.regs[x as int] == ((m.regs[x as int] + kk)
                % 256) as u8
            &&& forall|j: int|
                0 <= j < 16 && j != x ==> spec_step(m, word, rnd, now)->Ok_0.regs[j] == m.regs[j]
        }),
{
    let word = (0x7000u16 | ((x as u16) << 8)) | (kk as u16);
    assert(word >> 12 == 7 && ((word >> 8) & 0xF) as u8 == x && (word & 0xFF) as u8 == kk)
        by (bit_vector)
        requires
            word == (0x7000u16 | ((x as u16) << 8)) | (kk as u16),
            x < 16,
    ;
}

/// A call followed by a return is a round trip: the call stores the address
/// just past the call instruction, and the return restores it together with
/// the stack pointer; registers, memory, the address register and the screen
/// keep their values, and only the stack slot above the restored pointer now
/// holds the return address.
pub proof fn lemma_call_ret_round_trip(
    m: Machine,
    nnn: u16,
    rnd1: u8,
    now1: u128,
    rnd2: u8,
    now2: u128,
)
    requires
        m.wf(),
        m.sp < 15,
        nnn < 4096,
        m.ip as int + 2 <= u16::MAX,
    ensures
        ({
            let call_word = 0x2000u16 | nnn;
            &&& spec_step(m, call_word, rnd1, now1) is Ok
            &&& ({
                let m1 = spec_step(m, call_word, rnd1, now1)->Ok_0;
                &&& m1.ip == nnn
                &&& m1.sp == m.sp + 1
                &&& m1.stack[m1.sp as int] == m.ip + 2
                &&& spec_step(m1, 0x00EE, rnd2, now2) is Ok
                &&& ({
                    let m2 = spec_step(m1, 0x00EE, rnd2, now2)->Ok_0;
                    &&& m2.ip == m.ip + 2
                    &&& m2.sp == m.sp
                    &&& m2.regs == m.regs
                    &&& m2.mem == m.mem
                    &&& m2.screen == m.screen
                    &&& m2.addr_reg == m.addr_reg
                    &&& m2.stack == m.stack.update(m.sp as int + 1, (m.ip + 2) as u16)
                })
            })
        }),
{
    let call_word = 0x2000u16 | nnn;
    assert(call_word >> 12 == 2 && (call_word & 0x0FFF) == nnn)
        by (bit_vector)
        requires
            call_word == 0x2000u16 | nnn,
            nnn < 4096,
    ;
    assert(0x00EEu16 >> 12 == 0) by (bit_vector);
}

/// A return on an empty stack and a call on a full stack surface the stack
/// faults rather than wrapping or writing outside the stack.
pub proof fn lemma_stack_faults(m: Machine, nnn: u16, rnd: u8, now: u128)
    requires
        m.wf(),
        nnn < 4096,
    ensures
        m.sp == 0 ==> spec_step(m, 0x00EE, rnd, now) == Err::<Machine, Fault>(
            Fault::StackUnderflow,
        ),
        m.sp >= 15 ==> spec_step(m, 0x2000u16 | nnn, rnd, now) == Err::<Machine, Fault>(
            Fault::StackOverflow,
        ),
{
    let call_word = 0x2000u16 | nnn;
    assert(call_word >> 12 == 2)
        by (bit_vector)
        requires
            call_word == 0x2000u16 | nnn,
            nnn < 4096,
    ;
    assert(0x00EEu16 >> 12 == 0) by (bit_vector);
}

/// The interpreter: it owns the machine state, the screen, both timers, and
/// a pluggable random source, and exposes a single-step execution operation
/// driven by an external cadence loop.
pub struct CPU<R: RandomSource> {
    ip: u16,
    sp: u8,
    stack: Vec<u16>,
    memory: Vec<u8>,
    registers: Vec<u8>,
    addr_reg: u16,
    rng: R,
    screen: Screen,
    delay_timer: Timer,
    sound_timer: Timer,
}

impl<R: RandomSource> View for CPU<R> {
    type V = Machine;

    closed spec fn view(&self) -> Machine {
        Machine {
            ip: self.ip,
            sp: self.sp,
            stack: self.stack@,
            regs: self.registers@,
            mem: self.memory@,
            addr_reg: self.addr_reg,
            screen: self.screen@,
            delay_end: self.delay_timer@,
            sound_end: self.sound_timer@,
        }
    }
}

impl<R: RandomSource> CPU<R> {
    /// The machine state is well formed.
    pub open spec fn wf(&self) -> bool {
        self@.wf()
    }

    /// A machine at power-on, drawing random bytes from the given source.
    pub fn new(rng: R) -> (c: CPU<R>)
        ensures
            c.wf(),
            c@ == spec_initial_machine(),
    {
        let c = CPU {
            ip: memory::PROGRAM_OFFSET as u16,
            sp: 0,
            stack: memory::filled_vec(0u16, memory::STACK_SIZE),
            memory: memory::filled_vec(0u8, memory::TOTAL_MEMORY),
            registers: memory::filled_vec(0u8, memory::REGISTER_COUNT),
            addr_reg: 0,
            rng,
            screen: Screen::new(),
            delay_timer: Timer::new(),
            sound_timer: Timer::new(),
        };
        proof {
            assert(c@.screen =~= Seq::new(screen::SCREEN_PIXELS as nat, |i: int| false));
            assert(c@ =~= spec_initial_machine());
        }
        c
    }

    /// Seed the glyph table into the front of memory, leaving everything
    /// else untouched.
    pub fn load_glyphs(&mut self)
        requires
            old(self).wf(),
        ensures
            final(self).wf(),
            final(self)@ == (Machine { mem: final(self)@.mem, ..old(self)@ }),
            forall|i: int|
                0 <= i < font::FONT_SIZE ==> final(self)@.mem[i] == font::spec_font_byte(i),
            forall|i: int|
                font::FONT_SIZE <= i < memory::TOTAL_MEMORY ==> final(self)@.mem[i] == old(
                    self,
                )@.mem[i],
            final(self)@.mem.len() == memory::TOTAL_MEMORY,
    {
        font::load_fonts(&mut self.memory);
    }

    /// Copy a program image into the program region, zero-filling the rest of
    /// the region; an image larger than the region is rejected whole and
    /// leaves the machine untouched.
    pub fn load_program(&mut self, program: &Vec<u8>) -> (r: Result<(), Fault>)
        requires
            old(self).wf(),
        ensures
            final(self).wf(),
            program@.len() > memory::TOTAL_MEMORY - memory::PROGRAM_OFFSET ==> r == Err::<
                (),
                Fault,
            >(Fault::LoadOversized) && final(self)@ == old(self)@,
            program@.len() <= memory::TOTAL_MEMORY - memory::PROGRAM_OFFSET ==> r == Ok::<
                (),
                Fault,
            >(()) && final(self)@ == (Machine {
                mem: memory::spec_loaded(old(self)@.mem, program@),
                ..old(self)@
            }),
    {
        memory::load_program_region(&mut self.memory, program)
    }

    /// Fetch the instruction word at the instruction pointer, advance the
    /// pointer past it, and execute it. A fetch that would read outside
    /// memory faults and leaves the machine untouched.
    pub fn tick(&mut self) -> (r: Result<(), Fault>)
        requires
            old(self).wf(),
        ensures
            final(self).wf(),
            old(self)@.ip as int + 1 >= memory::TOTAL_MEMORY ==> r == Err::<(), Fault>(
                Fault::MemoryOutOfBounds,
            ) && final(self)@ == old(self)@,
            (old(self)@.ip as int + 1) < memory::TOTAL_MEMORY ==> exists|rnd: u8, now: u128|
                spec_step_post(old(self)@, spec_fetch(old(self)@), rnd, now, final(self)@, r),
            (old(self)@.ip as int + 1) < memory::TOTAL_MEMORY && spec_deterministic(
                spec_fetch(old(self)@),
            ) ==> spec_step_post(old(self)@, spec_fetch(old(self)@), 0, 0, final(self)@, r),
    {
        if self.ip as usize >= memory::TOTAL_MEMORY - 1 {
            return Err(Fault::MemoryOutOfBounds);
        }
        let hi = self.memory[self.ip as usize];
        let lo = self.memory[self.ip as usize + 1];
        let word: u16 = (hi as u16) * 256 + (lo as u16);
        let r = self.run_instr(word);
        proof {
            assert(word == spec_fetch(old(self)@));
            let (rw, nw) = choose|rnd: u8, now: u128|
                spec_step_post(old(self)@, word, rnd, now, self@, r);
            assert(spec_step_post(old(self)@, spec_fetch(old(self)@), rw, nw, self@, r));
        }
        r
    }

    /// Execute one instruction word against the current state: advance the
    /// instruction pointer past it, decode it, and dispatch. The outcome is
    /// pinned by the step relation; for the instructions that consult the
    /// random source or the wall clock it is pinned relative to the byte and
    /// the instant they yielded.
    pub fn run_instr(&mut self, word: u16) -> (r: Result<(), Fault>)
        requires
            old(self).wf(),
        ensures
            final(self).wf(),
            exists|rnd: u8, now: u128|
                spec_step_post(old(self)@, word, rnd, now, final(self)@, r),
            spec_deterministic(word) ==> spec_step_post(
                old(self)@,
                word,
                0,
                0,
                final(self)@,
                r,
            ),
    {
        self.ip = self.ip.wrapping_add(2);
        let ghost m = self@;
        let ins = match instr::decode(word) {
            Ok(i) => i,
            Err(f) => {
                proof {
                    assert(spec_step_post(old(self)@, word, 0, 0, self@, Err::<(), Fault>(f)));
                }
                return Err(f);
            },
        };
        proof {
            instr::lemma_decode_fields_bounded(word);
        }
        match ins {
            Instr::Cls => {
                self.screen.clear();
                proof {
                    assert(self@.screen =~= Seq::new(
                        screen::SCREEN_PIXELS as nat,
                        |i: int| false,
                    ));
                    assert(self@ =~= spec_step_decoded(m, ins, 0, 0)->Ok_0);
                    assert(spec_step_post(old(self)@, word, 0, 0, self@, Ok::<(), Fault>(())));
                }
            },
            Instr::Ret => {
                if self.sp == 0 {
                    proof {
                        assert(spec_step_post(
                            old(self)@,
                            word,
                            0,
                            0,
                            self@,
                            Err::<(), Fault>(Fault::StackUnderflow),
                        ));
                    }
                    return Err(Fault::StackUnderflow);
                }
                self.ip = self.stack[self.sp as usize];
                self.sp = self.sp - 1;
                proof {
                    assert(spec_step_post(old(self)@, word, 0, 0, self@, Ok::<(), Fault>(())));
                }
            },
            Instr::Jp(nnn) => {
                self.ip = nnn;
                proof {
                    assert(spec_step_post(old(self)@, word, 0, 0, self@, Ok::<(), Fault>(())));
                }
            },
            Instr::Call(nnn) => {
                if self.sp >= (memory::STACK_SIZE - 1) as u8 {
                    proof {
                        assert(spec_step_post(
                            old(self)@,
                            word,
                            0,
                            0,
                            self@,
                            Err::<(), Fault>(Fault::StackOverflow),
                        ));
                    }
                    return Err(Fault::StackOverflow);
                }
                self.sp = self.sp + 1;
                let ret = self.ip;
                self.stack[self.sp as usize] = ret;
                self.ip = nnn;
                proof {
                    assert(spec_step_post(old(self)@, word, 0, 0, self@, Ok::<(), Fault>(())));
                }
            },
            Instr::SeImm(x, kk) => {
                if self.registers[x as usize] == kk {
                    self.ip = self.ip.wrapping_add(2);
                }
                proof {
                    assert(spec_step_post(old(self)@, word, 0, 0, self@, Ok::<(), Fault>(())));
                }
            },
            Instr::SneImm(x, kk) => {
                if self.registers[x as usize] != kk {
                    self.ip = self.ip.wrapping_add(2);
                }
                proof {
                    assert(spec_step_post(old(self)@, word, 0, 0, self@, Ok::<(), Fault>(())));
                }
            },
            Instr::SeReg(x, y) => {
                if self.registers[x as usize] == self.registers[y as usize] {
                    self.ip = self.ip.wrapping_add(2);
                }
                proof {
                    assert(spec_step_post(old(self)@, word, 0, 0, self@, Ok::<(), Fault>(())));
                }
            },
            Instr::LdImm(x, kk) => {
                self.registers[x as usize] = kk;
                proof {
                    assert(spec_step_post(old(self)@, word, 0, 0, self@, Ok::<(), Fault>(())));
                }
            },
            Instr::AddImm(x, kk) => {
                let vx = self.registers[x as usize];
                self.registers[x as usize] = vx.wrapping_add(kk);
                proof {
                    assert(spec_step_post(old(self)@, word, 0, 0, self@, Ok::<(), Fault>(())));
                }
            },
            Instr::LdReg(x, y) => {
                let vy = self.registers[y as usize];
                self.registers[x as usize] = vy;
                proof {
                    assert(spec_step_post(old(self)@, word, 0, 0, self@, Ok::<(), Fault>(())));
                }
            },
            Instr::Or(x, y) => {
                let vx = self.registers[x as usize];
                let vy = self.registers[y as usize];
                self.registers[x as usize] = vx | vy;
                proof {
                    assert(spec_step_post(old(self)@, word, 0, 0, self@, Ok::<(), Fault>(())));
                }
            },
            Instr::And(x, y) => {
                let vx = self.registers[x as usize];
                let vy = self.registers[y as usize];
                self.registers[x as usize] = vx & vy;
                proof {
                    assert(spec_step_post(old(self)@, word, 0, 0, self@, Ok::<(), Fault>(())));
                }
            },
            Instr::Xor(x, y) => {
                let vx = self.registers[x as usize];
                let vy = self.registers[y as usize];
                self.registers[x as usize] = vx ^ vy;
                proof {
                    assert(spec_step_post(old(self)@, word, 0, 0, self@, Ok::<(), Fault>(())));
                }
            },
            Instr::AddReg(x, y) => {
                let vx = self.registers[x as usize];
                let vy = self.registers[y as usize];
                let carry: u8 = if vx as u16 + vy as u16 > 255 {
                    1
                } else {
                    0
                };
                self.registers[15] = carry;
                self.registers[x as usize] = vx.wrapping_add(vy);
                proof {
                    assert(spec_step_post(old(self)@, word, 0, 0, self@, Ok::<(), Fault>(())));
                }
            },
            Instr::SubReg(x, y) => {
                let vx = self.registers[x as usize];
                let vy = self.registers[y as usize];
                let no_borrow: u8 = if vx >= vy {
                    1
                } else {
                    0
                };
                self.registers[15] = no_borrow;
                self.registers[x as usize] = vx.wrapping_sub(vy);
                proof {
                    assert(spec_step_post(old(self)@, word, 0, 0, self@, Ok::<(), Fault>(())));
                }
            },
            Instr::Shr(x, _y) => {
                let vx = self.registers[x as usize];
                self.registers[15] = vx & 1;
                self.registers[x as usize] = vx >> 1;
                proof {
                    assert(spec_step_post(old(self)@, word, 0, 0, self@, Ok::<(), Fault>(())));
                }
            },
            Instr::SubN(x, y) => {
                let vx = self.registers[x as usize];
                let vy = self.registers[y as usize];
                let no_borrow: u8 = if vy >= vx {
                    1
                } else {
                    0
                };
                self.registers[15] = no_borrow;
                self.registers[x as usize] = vy.wrapping_sub(vx);
                proof {
                    assert(spec_step_post(old(self)@, word, 0, 0, self@, Ok::<(), Fault>(())));
                }
            },
            Instr::Shl(x, _y) => {
                let vx = self.registers[x as usize];
                self.registers[15] = vx >> 7;
                self.registers[x as usize] = vx << 1;
                proof {
                    assert(spec_step_post(old(self)@, word, 0, 0, self@, Ok::<(), Fault>(())));
                }
            },
            Instr::SneReg(x, y) => {
                if self.registers[x as usize] != self.registers[y as usize] {
                    self.ip = self.ip.wrapping_add(2);
                }
                proof {
                    assert(spec_step_post(old(self)@, word, 0, 0, self@, Ok::<(), Fault>(())));
                }
            },
            Instr::LdI(nnn) => {
                self.addr_reg = nnn;
                proof {
                    assert(spec_step_post(old(self)@, word, 0, 0, self@, Ok::<(), Fault>(())));
                }
            },
            Instr::JpV0(nnn) => {
                let v0 = self.registers[0];
                self.ip = nnn + v0 as u16;
                proof {
                    assert(spec_step_post(old(self)@, word, 0, 0, self@, Ok::<(), Fault>(())));
                }
            },
            Instr::Rnd(x, kk) => {
                let b = self.rng.next_byte();
                self.registers[x as usize] = b & kk;
                proof {
                    assert(spec_step_post(old(self)@, word, b, 0, self@, Ok::<(), Fault>(())));
                }
            },
            Instr::Drw(x, y, n) => {
                match self.draw_sprite(x, y, n) {
                    Ok(changed) => {
                        self.registers[15] = if changed {
                            1
                        } else {
                            0
                        };
                        proof {
                            assert(spec_step_post(
                                old(self)@,
                                word,
                                0,
                                0,
                                self@,
                                Ok::<(), Fault>(()),
                            ));
                        }
                    },
                    Err(f) => {
                        proof {
                            assert(spec_step_post(old(self)@, word, 0, 0, self@, Err::<
                                (),
                                Fault,
                            >(f)));
                        }
                        return Err(f);
                    },
                }
            },
            Instr::LdVxDt(x) => {
                let t = self.delay_timer.get_timeout();
                self.registers[x as usize] = t;
                proof {
                    let now_w = choose|now: u128|
                        t == timer::spec_remaining(old(self)@.delay_end, now);
                    assert(spec_step_post(
                        old(self)@,
                        word,
                        0,
                        now_w,
                        self@,
                        Ok::<(), Fault>(()),
                    ));
                }
            },
            Instr::LdDtVx(x) => {
                let v = self.registers[x as usize];
                self.delay_timer.set_timeout(v);
                proof {
                    let now_w = choose|now: u128| self.delay_timer@ == timer::spec_expiry(now, v);
                    assert(spec_step_post(
                        old(self)@,
                        word,
                        0,
                        now_w,
                        self@,
                        Ok::<(), Fault>(()),
                    ));
                }
            },
            Instr::LdStVx(x) => {
                let v = self.registers[x as usize];
                self.sound_timer.set_timeout(v);
                proof {
                    let now_w = choose|now: u128| self.sound_timer@ == timer::spec_expiry(now, v);
                    assert(spec_step_post(
                        old(self)@,
                        word,
                        0,
                        now_w,
                        self@,
                        Ok::<(), Fault>(()),
                    ));
                }
            },
            Instr::AddI(x) => {
                let v = self.registers[x as usize];
                self.addr_reg = self.addr_reg.wrapping_add(v as u16);
                proof {
                    assert(spec_step_post(old(self)@, word, 0, 0, self@, Ok::<(), Fault>(())));
                }
            },
        }
        Ok(())
    }

    /// Draw `n + 1` sprite rows read at the address register, at column `Vx`,
    /// rows `Vy` onward, reporting whether any touched pixel changed value. A
    /// sprite row read outside memory, or a screen row at or past the bottom
    /// edge, faults before anything is drawn.
    fn draw_sprite(&mut self, x: u8, y: u8, n: u8) -> (r: Result<bool, Fault>)
        requires
            old(self).wf(),
            x < 16,
            y < 16,
            n < 16,
        ensures
            final(self).wf(),
            ({
                let m = old(self)@;
                let vx = m.regs[x as int];
                let vy = m.regs[y as int];
                match r {
                    Err(f) => {
                        &&& f == Fault::MemoryOutOfBounds
                        &&& final(self)@ == m
                        &&& (m.addr_reg as int + n as int >= memory::TOTAL_MEMORY || vy as int
                            + n as int >= screen::SCREEN_HEIGHT)
                    },
                    Ok(changed) => {
                        &&& (m.addr_reg as int + n as int) < memory::TOTAL_MEMORY
                        &&& (vy as int + n as int) < screen::SCREEN_HEIGHT
                        &&& final(self)@ == (Machine {
                            screen: spec_sprite_grid(
                                m.screen,
                                m.mem,
                                m.addr_reg as int,
                                vx,
                                vy,
                                n as int + 1,
                            ),
                            ..m
                        })
                        &&& changed == spec_sprite_changed(
                            m.screen,
                            m.mem,
                            m.addr_reg as int,
                            vx,
                            vy,
                            n as int + 1,
                        )
                    },
                }
            }),
    {
        let vx = self.registers[x as usize];
        let vy = self.registers[y as usize];
        let addr = self.addr_reg;
        if addr as usize + n as usize >= memory::TOTAL_MEMORY {
            return Err(Fault::MemoryOutOfBounds);
        }
        if vy as usize + n as usize >= screen::SCREEN_HEIGHT {
            return Err(Fault::MemoryOutOfBounds);
        }
        let rows: u8 = n + 1;
        let mut changed = false;
        let mut i: u8 = 0;
        while i < rows
            invariant
                old(self).wf(),
                self@.screen.len() == screen::SCREEN_PIXELS,
                x < 16,
                y < 16,
                n < 16,
                rows == n + 1,
                i <= rows,
                vx == old(self)@.regs[x as int],
                vy == old(self)@.regs[y as int],
                addr == old(self)@.addr_reg,
                (addr as int + n as int) < memory::TOTAL_MEMORY,
                (vy as int + n as int) < screen::SCREEN_HEIGHT,
                self@ == (Machine { screen: self@.screen, ..old(self)@ }),
                self@.screen == spec_sprite_grid(
                    old(self)@.screen,
                    old(self)@.mem,
                    addr as int,
                    vx,
                    vy,
                    i as int,
                ),
                changed == spec_sprite_changed(
                    old(self)@.screen,
                    old(self)@.mem,
                    addr as int,
                    vx,
                    vy,
                    i as int,
                ),
            decreases rows - i,
        {
            let line = self.memory[addr as usize + i as usize];
            let row_changed = self.screen.draw_sprite_line(vx, vy + i, line);
            changed = changed || row_changed;
            i = i + 1;
        }
        Ok(changed)
    }

    /// The instruction pointer.
    pub fn ip(&self) -> (v: u16)
        ensures
            v == self@.ip,
    {
        self.ip
    }

    /// The stack pointer.
    pub fn sp(&self) -> (v: u8)
        ensures
            v == self@.sp,
    {
        self.sp
    }

    /// The address register.
    pub fn addr_reg(&self) -> (v: u16)
        ensures
            v == self@.addr_reg,
    {
        self.addr_reg
    }

    /// One call stack slot.
    pub fn stack_at(&self, i: usize) -> (v: u16)
        requires
            self.wf(),
            i < memory::STACK_SIZE,
        ensures
            v == self@.stack[i as int],
    {
        self.stack[i]
    }

    /// One general register.
    pub fn get_register(&self, i: usize) -> (v: u8)
        requires
            self.wf(),
            i < memory::REGISTER_COUNT,
        ensures
            v == self@.regs[i as int],
    {
        self.registers[i]
    }

    /// One byte of memory.
    pub fn get_memory(&self, addr: usize) -> (v: u8)
        requires
            self.wf(),
            addr < memory::TOTAL_MEMORY,
        ensures
            v == self@.mem[addr as int],
    {
        self.memory[addr]
    }

    /// One pixel of the grid.
    pub fn get_pixel(&self, x: usize, y: usize) -> (b: bool)
        requires
            self.wf(),
            x < screen::SCREEN_WIDTH,
            y < screen::SCREEN_HEIGHT,
        ensures
            b == self@.screen[screen::pixel_index(x as int, y as int)],
    {
        self.screen.get_pixel(x, y)
    }

    /// Overwrite the instruction pointer.
    pub fn set_ip(&mut self, v: u16)
        requires
            old(self).wf(),
        ensures
            final(self).wf(),
            final(self)@ == (Machine { ip: v, ..old(self)@ }),
    {
        self.ip = v;
    }

    /// Overwrite the stack pointer.
    pub fn set_sp(&mut self, v: u8)
        requires
            old(self).wf(),
            v < memory::STACK_SIZE,
        ensures
            final(self).wf(),
            final(self)@ == (Machine { sp: v, ..old(self)@ }),
    {
        self.sp = v;
    }

    /// Overwrite the address register.
    pub fn set_addr_reg(&mut self, v: u16)
        requires
            old(self).wf(),
        ensures
            final(self).wf(),
            final(self)@ == (Machine { addr_reg: v, ..old(self)@ }),
    {
        self.addr_reg = v;
    }

    /// Overwrite one call stack slot.
    pub fn set_stack(&mut self, i: usize, v: u16)
        requires
            old(self).wf(),
            i < memory::STACK_SIZE,
        ensures
            final(self).wf(),
            final(self)@ == (Machine { stack: old(self)@.stack.update(i as int, v), ..old(self)@ }),
    {
        self.stack[i] = v;
    }

    /// Overwrite one general register.
    pub fn set_register(&mut self, i: usize, v: u8)
        requires
            old(self).wf(),
            i < memory::REGISTER_COUNT,
        ensures
            final(self).wf(),
            final(self)@ == (Machine { regs: old(self)@.regs.update(i as int, v), ..old(self)@ }),
    {
        self.registers[i] = v;
    }

    /// Ticks remaining on the delay timer, relative to some instant read
    /// inside the call.
    pub fn get_delay(&self) -> (t: u8)
        ensures
            exists|now: u128| t == timer::spec_remaining(self@.delay_end, now),
    {
        let t = self.delay_timer.get_timeout();
        proof {
            let w = choose|now: u128| t == timer::spec_remaining(self.delay_timer@, now);
            assert(t == timer::spec_remaining(self@.delay_end, w));
        }
        t
    }

    /// Ticks remaining on the sound timer, relative to some instant read
    /// inside the call.
    pub fn get_sound(&self) -> (t: u8)
        ensures
            exists|now: u128| t == timer::spec_remaining(self@.sound_end, now),
    {
        let t = self.sound_timer.get_timeout();
        proof {
            let w = choose|now: u128| t == timer::spec_remaining(self.sound_timer@, now);
            assert(t == timer::spec_remaining(self@.sound_end, w));
        }
        t
    }

    /// Start the delay timer counting down from `ticks`.
    pub fn set_delay(&mut self, ticks: u8)
        requires
            old(self).wf(),
        ensures
            final(self).wf(),
            exists|now: u128| final(self)@.delay_end == timer::spec_expiry(now, ticks),
            final(self)@ == (Machine { delay_end: final(self)@.delay_end, ..old(self)@ }),
    {
        self.delay_timer.set_timeout(ticks);
        proof {
            let now_w = choose|now: u128| self.delay_timer@ == timer::spec_expiry(now, ticks);
            assert(self@ == (Machine {
                delay_end: timer::spec_expiry(now_w, ticks),
                ..old(self)@
            }));
        }
    }

    /// Start the sound timer counting down from `ticks`.
    pub fn set_sound(&mut self, ticks: u8)
        requires
            old(self).wf(),
        ensures
            final(self).wf(),
            exists|now: u128| final(self)@.sound_end == timer::spec_expiry(now, ticks),
            final(self)@ == (Machine { sound_end: final(self)@.sound_end, ..old(self)@ }),
    {
        self.sound_timer.set_timeout(ticks);
        proof {
            let now_w = choose|now: u128| self.sound_timer@ == timer::spec_expiry(now, ticks);
            assert(self@ == (Machine {
                sound_end: timer::spec_expiry(now_w, ticks),
                ..old(self)@
            }));
        }
    }
}

} // verus!
