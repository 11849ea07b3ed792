//! The register file, call stack, timers, and the instruction executor.

use vstd::prelude::*;

use crate::display::draw_collision;
use crate::display::draw_grid;
use crate::display::some_pixel_on;
use crate::display::sprite_has_set_bit;
use crate::display::Display;
use crate::exceptions::Exception;
use crate::exceptions::ExceptionType;
use crate::instruction::decode;
use crate::instruction::lemma_decode_operands_in_range;
use crate::instruction::spec_decode;
use crate::instruction::Instruction;
use crate::keyboard::first_pressed_key;
use crate::keyboard::Keyboard;
use crate::memory::RandomAccessMemory;
use crate::sprite::Sprite;

verus! {

/// The lowest address a program may occupy; everything below is reserved
/// for the interpreter and its font.
pub const PROGRAM_START: u16 = 512;

/// The address where the built-in font glyphs sit: 16 glyphs of 5 bytes
/// each, filling addresses 431 through 510.
pub const FONT_START: u16 = 431;

/// The mathematical state of the whole machine: registers, control state,
/// memory, framebuffer and keypad, as one value that the instruction
/// semantics are stated over.
#[verifier::ext_equal]
pub struct State {
    pub regs: Seq<u8>,
    pub index: u16,
    pub dt: u8,
    pub st: u8,
    pub pc: u16,
    pub stack: Seq<u16>,
    pub sp: u16,
    pub mem: Seq<u8>,
    pub grid: Seq<bool>,
    pub dirty: bool,
    pub keys: Seq<u8>,
}

/// The dimensions every reachable machine state keeps.
pub open spec fn state_wf(s: State) -> bool {
    &&& s.regs.len() == 16
    &&& s.stack.len() == 16
    &&& s.sp <= 16
    &&& s.mem.len() == 4096
    &&& s.grid.len() == 2048
    &&& s.keys.len() == 16
}

/// Whether `r` reports the fault `k`.
pub open spec fn is_fault(r: Result<(), Exception>, k: ExceptionType) -> bool {
    &&& r matches Err(e)
    &&& e.exception_type == k
}

/// The program counter after a conditional skip.
pub open spec fn skip_pc(pc: u16, cond: bool) -> u16 {
    if cond {
        (pc + 2) as u16
    } else {
        pc
    }
}

/// The semantics of one instruction: how the machine moves from `pre` to
/// `post`, given the random byte `rnd` drawn for the random-AND
/// instruction, and which result the executor reports. The program counter
/// of `pre` has already been advanced past the instruction word, so a
/// relative skip adds 2 and a suspended key wait subtracts 2.
pub open spec fn spec_execute(
    pre: State,
    instr: Instruction,
    rnd: u8,
    post: State,
    r: Result<(), Exception>,
) -> bool {
    match instr {
        Instruction::Sys(nnn) => if 512 <= nnn <= 4095 {
            r is Ok && post == State { pc: nnn, ..pre }
        } else {
            is_fault(r, ExceptionType::AddressOutOfRange) && post == pre
        },
        Instruction::Cls => r is Ok && post == State {
            grid: Seq::new(2048, |i: int| false),
            dirty: pre.dirty || some_pixel_on(pre.grid),
            ..pre
        },
        Instruction::Ret => if pre.sp == 0 {
            is_fault(r, ExceptionType::StackPointerOutOfRange) && post == pre
        } else {
            r is Ok && post == State {
                pc: pre.stack[pre.sp - 1],
                sp: (pre.sp - 1) as u16,
                ..pre
            }
        },
        Instruction::Jump(nnn) => if nnn <= 4095 {
            r is Ok && post == State { pc: nnn, ..pre }
        } else {
            is_fault(r, ExceptionType::AddressOutOfRange) && post == pre
        },
        Instruction::Call(nnn) => if nnn > 4095 {
            is_fault(r, ExceptionType::AddressOutOfRange) && post == pre
        } else if pre.sp >= 16 {
            is_fault(r, ExceptionType::StackPointerOutOfRange) && post == pre
        } else {
            r is Ok && post == State {
                stack: pre.stack.update(pre.sp as int, pre.pc),
                sp: (pre.sp + 1) as u16,
                pc: nnn,
                ..pre
            }
        },
        Instruction::SkipEqImm(x, kk) => if x > 15 {
            is_fault(r, ExceptionType::BadArgument) && post == pre
        } else {
            r is Ok && post == State { pc: skip_pc(pre.pc, pre.regs[x as int] == kk), ..pre }
        },
        Instruction::SkipNeImm(x, kk) => if x > 15 {
            is_fault(r, ExceptionType::BadArgument) && post == pre
        } else {
            r is Ok && post == State { pc: skip_pc(pre.pc, pre.regs[x as int] != kk), ..pre }
        },
        Instruction::SkipEqReg(x, y) => if x > 15 || y > 15 {
            is_fault(r, ExceptionType::BadArgument) && post == pre
        } else {
            r is Ok && post == State {
                pc: skip_pc(pre.pc, pre.regs[x as int] == pre.regs[y as int]),
                ..pre
            }
        },
        Instruction::LoadImm(x, kk) => if x > 15 {
            is_fault(r, ExceptionType::BadArgument) && post == pre
        } else {
            r is Ok && post == State { regs: pre.regs.update(x as int, kk), ..pre }
        },
        Instruction::AddImm(x, kk) => if x > 15 {
            is_fault(r, ExceptionType::BadArgument) && post == pre
        } else {
            r is Ok && post == State {
                regs: pre.regs.update(x as int, ((pre.regs[x as int] + kk) % 256) as u8),
                ..pre
            }
        },
        Instruction::Copy(x, y) => if x > 15 || y > 15 {
            is_fault(r, ExceptionType::BadArgument) && post == pre
        } else {
            r is Ok && post == State { regs: pre.regs.update(x as int, pre.regs[y as int]), ..pre }
        },
        Instruction::Or(x, y) => if x > 15 || y > 15 {
            is_fault(r, ExceptionType::BadArgument) && post == pre
        } else {
            r is Ok && post == State {
                regs: pre.regs.update(x as int, pre.regs[x as int] | pre.regs[y as int]).update(
                    15,
                    0u8,
                ),
                ..pre
            }
        },
        Instruction::And(x, y) => if x > 15 || y > 15 {
            is_fault(r, ExceptionType::BadArgument) && post == pre
        } else {
            r is Ok && post == State {
                regs: pre.regs.update(x as int, pre.regs[x as int] & pre.regs[y as int]).update(
                    15,
                    0u8,
                ),
                ..pre
            }
        },
        Instruction::Xor(x, y) => if x > 15 || y > 15 {
            is_fault(r, ExceptionType::BadArgument) && post == pre
        } else {
            r is Ok && post == State {
                regs: pre.regs.update(x as int, pre.regs[x as int] ^ pre.regs[y as int]).update(
                    15,
                    0u8,
                ),
                ..pre
            }
        },
        Instruction::AddCarry(x, y) => if x > 15 || y > 15 {
            is_fault(r, ExceptionType::BadArgument) && post == pre
        } else {
            let sum = pre.regs[x as int] + pre.regs[y as int];
            r is Ok && post == State {
                regs: pre.regs.update(x as int, (sum % 256) as u8).update(
                    15,
                    if sum > 255 {
                        1u8
                    } else {
                        0u8
                    },
                ),
                ..pre
            }
        },
        Instruction::Sub(x, y) => if x > 15 || y > 15 {
            is_fault(r, ExceptionType::BadArgument) && post == pre
        } else {
            let a = pre.regs[x as int];
            let b = pre.regs[y as int];
            let diff = if a >= b {
                (a - b) as u8
            } else {
                (a - b + 256) as u8
            };
            r is Ok && post == State {
                regs: pre.regs.update(x as int, diff).update(
                    15,
                    if a >= b {
                        1u8
                    } else {
                        0u8
                    },
                ),
                ..pre
            }
        },
        Instruction::ShiftRight(x, _y) => if x > 15 {
            is_fault(r, ExceptionType::BadArgument) && post == pre
        } else {
            let flagged = pre.regs.update(15, (pre.regs[x as int] % 2) as u8);
            r is Ok && post == State {
                regs: flagged.update(x as int, (flagged[x as int] / 2) as u8),
                ..pre
            }
        },
        Instruction::SubNeg(x, y) => if x > 15 || y > 15 {
            is_fault(r, ExceptionType::BadArgument) && post == pre
        } else {
            let a = pre.regs[x as int];
            let b = pre.regs[y as int];
            let diff = if b >= a {
                (b - a) as u8
            } else {
                (b - a + 256) as u8
            };
            r is Ok && post == State {
                regs: pre.regs.update(x as int, diff).update(
                    15,
                    if b >= a {
                        1u8
                    } else {
                        0u8
                    },
                ),
                ..pre
            }
        },
        Instruction::ShiftLeft(x, _y) => if x > 15 {
            is_fault(r, ExceptionType::BadArgument) && post == pre
        } else {
            let flagged = pre.regs.update(
                15,
                if pre.regs[x as int] >= 128 {
                    1u8
                } else {
                    0u8
                },
            );
            r is Ok && post == State {
                regs: flagged.update(x as int, ((flagged[x as int] * 2) % 256) as u8),
                ..pre
            }
        },
        Instruction::SkipNeReg(x, y) => if x > 15 || y > 15 {
            is_fault(r, ExceptionType::BadArgument) && post == pre
        } else {
            r is Ok && post == State {
                pc: skip_pc(pre.pc, pre.regs[x as int] != pre.regs[y as int]),
                ..pre
            }
        },
        Instruction::LoadIndex(nnn) => if nnn <= 4095 {
            r is Ok && post == State { index: nnn, ..pre }
        } else {
            is_fault(r, ExceptionType::AddressOutOfRange) && post == pre
        },
        Instruction::JumpOffset(nnn) => if nnn <= 4095 {
            r is Ok && post == State { pc: (nnn + pre.regs[0]) as u16, ..pre }
        } else {
            is_fault(r, ExceptionType::AddressOutOfRange) && post == pre
        },
        Instruction::Random(x, kk) => if x > 15 {
            is_fault(r, ExceptionType::BadArgument) && post == pre
        } else {
            r is Ok && post == State { regs: pre.regs.update(x as int, rnd & kk), ..pre }
        },
        Instruction::Draw(x, y, n) => if x > 15 || y > 15 {
            is_fault(r, ExceptionType::BadArgument) && post == pre
        } else if pre.index + n > 4096 {
            is_fault(r, ExceptionType::AddressOutOfRange) && post == pre
        } else {
            let sprite = pre.mem.subrange(pre.index as int, pre.index + n);
            let vx = pre.regs[x as int];
            let vy = pre.regs[y as int];
            r is Ok && post == State {
                grid: draw_grid(pre.grid, sprite, vx, vy),
                dirty: pre.dirty || sprite_has_set_bit(sprite),
                regs: pre.regs.update(
                    15,
                    if draw_collision(pre.grid, sprite, vx, vy) {
                        1u8
                    } else {
                        0u8
                    },
                ),
                ..pre
            }
        },
        Instruction::SkipKeyDown(x) => if x > 15 {
            is_fault(r, ExceptionType::BadArgument) && post == pre
        } else {
            let vx = pre.regs[x as int];
            r is Ok && post == State {
                pc: skip_pc(pre.pc, vx < 16 && pre.keys[vx as int] == 1),
                ..pre
            }
        },
        Instruction::SkipKeyUp(x) => if x > 15 {
            is_fault(r, ExceptionType::BadArgument) && post == pre
        } else {
            let vx = pre.regs[x as int];
            r is Ok && post == State {
                pc: skip_pc(pre.pc, vx < 16 && pre.keys[vx as int] == 0),
                ..pre
            }
        },
        Instruction::LoadDelay(x) => if x > 15 {
            is_fault(r, ExceptionType::BadArgument) && post == pre
        } else {
            r is Ok && post == State { regs: pre.regs.update(x as int, pre.dt), ..pre }
        },
        Instruction::WaitKey(x) => if x > 15 {
            is_fault(r, ExceptionType::BadArgument) && post == pre
        } else {
            match first_pressed_key(pre.keys) {
                Some(k) => r is Ok && post == State { regs: pre.regs.update(x as int, k), ..pre },
                None => r is Ok && post == State { pc: (pre.pc - 2) as u16, ..pre },
            }
        },
        Instruction::SetDelay(x) => if x > 15 {
            is_fault(r, ExceptionType::BadArgument) && post == pre
        } else {
            r is Ok && post == State { dt: pre.regs[x as int], ..pre }
        },
        Instruction::SetSound(x) => if x > 15 {
            is_fault(r, ExceptionType::BadArgument) && post == pre
        } else {
            r is Ok && post == State { st: pre.regs[x as int], ..pre }
        },
        Instruction::AddIndex(x) => if x > 15 {
            is_fault(r, ExceptionType::BadArgument) && post == pre
        } else {
            r is Ok && post == State {
                index: ((pre.index + pre.regs[x as int]) % 0x10000) as u16,
                ..pre
            }
        },
        Instruction::LoadFont(x) => if x > 15 {
            is_fault(r, ExceptionType::BadArgument) && post == pre
        } else {
            r is Ok && post == State { index: (431 + x * 5) as u16, ..pre }
        },
        Instruction::StoreBcd(x) => if x > 15 {
            is_fault(r, ExceptionType::BadArgument) && post == pre
        } else if pre.index > 4093 {
            is_fault(r, ExceptionType::AddressOutOfRange) && post == pre
        } else {
            let v = pre.regs[x as int];
            r is Ok && post == State {
                mem: pre.mem.update(pre.index as int, (v / 100) as u8).update(
                    pre.index + 1,
                    ((v / 10) % 10) as u8,
                ).update(pre.index + 2, (v % 10) as u8),
                ..pre
            }
        },
        Instruction::StoreRegs(x) => if x > 15 {
            is_fault(r, ExceptionType::BadArgument) && post == pre
        } else if pre.index + x > 4095 {
            is_fault(r, ExceptionType::AddressOutOfRange) && post == pre
        } else {
            &&& r is Ok
            &&& post.mem.len() == 4096
            &&& (forall|a: int|
                0 <= a < 4096 ==> post.mem[a] == (if pre.index <= a <= pre.index + x {
                    pre.regs[a - pre.index]
                } else {
                    pre.mem[a]
                }))
            &&& post == State { mem: post.mem, ..pre }
        },
        Instruction::LoadRegs(x) => if x > 15 {
            is_fault(r, ExceptionType::BadArgument) && post == pre
        } else if pre.index + x > 4095 {
            is_fault(r, ExceptionType::AddressOutOfRange) && post == pre
        } else {
            &&& r is Ok
            &&& post.regs.len() == 16
            &&& (forall|j: int|
                0 <= j < 16 ==> post.regs[j] == (if j <= x {
                    pre.mem[pre.index + j]
                } else {
                    pre.regs[j]
                }))
            &&& post == State { regs: post.regs, ..pre }
        },
    }
}

/// The big-endian instruction word at `pc`.
pub open spec fn word_at(mem: Seq<u8>, pc: u16) -> u16 {
    (mem[pc as int] * 256 + mem[pc as int + 1]) as u16
}

/// The semantics of one whole cycle: fetch the word at the program counter
/// (a counter past 4094 cannot fetch two bytes and faults), advance the
/// counter by two, decode, and execute. The random byte of the random-AND
/// instruction is existentially quantified: nothing is promised of it.
pub open spec fn spec_step(pre: State, post: State, r: Result<(), Exception>) -> bool {
    if pre.pc > 4094 {
        is_fault(r, ExceptionType::AddressOutOfRange) && post == pre
    } else {
        let advanced = State { pc: (pre.pc + 2) as u16, ..pre };
        match spec_decode(word_at(pre.mem, pre.pc)) {
            None => is_fault(r, ExceptionType::BadInstruction) && post == advanced,
            Some(instr) => exists|rnd: u8| spec_execute(advanced, instr, rnd, post, r),
        }
    }
}

/// The ghost image of the register file and control state.
#[verifier::ext_equal]
pub struct ProcView {
    pub regs: Seq<u8>,
    pub index: u16,
    pub dt: u8,
    pub st: u8,
    pub pc: u16,
    pub stack: Seq<u16>,
    pub sp: u16,
}

/// The 16 general registers, the index register, the two timers, the
/// program counter and the 16-deep call stack.
pub struct Processor {
    reg_v: Vec<u8>,
    i: u16,
    dt: u8,
    st: u8,
    program_counter: u16,
    stack: Vec<u16>,
    stack_ptr: u16,
}

impl View for Processor {
    type V = ProcView;

    closed spec fn view(&self) -> ProcView {
        ProcView {
            regs: self.reg_v@,
            index: self.i,
            dt: self.dt,
            st: self.st,
            pc: self.program_counter,
            stack: self.stack@,
            sp: self.stack_ptr,
        }
    }
}

/// The machine state assembled from the four components the executor works
/// on.
pub open spec fn machine_state(
    p: Processor,
    m: RandomAccessMemory,
    d: Display,
    k: Keyboard,
) -> State {
    State {
        regs: p@.regs,
        index: p@.index,
        dt: p@.dt,
        st: p@.st,
        pc: p@.pc,
        stack: p@.stack,
        sp: p@.sp,
        mem: m@,
        grid: d.grid(),
        dirty: d.dirty(),
        keys: k@,
    }
}

impl Processor {
    /// Register file and stack have their fixed sizes and the stack pointer
    /// stays within the stack.
    pub open spec fn wf(&self) -> bool {
        &&& self@.regs.len() == 16
        &&& self@.stack.len() == 16
        &&& self@.sp <= 16
    }

    /// A fresh processor: registers, timers and stack zeroed, the program
    /// counter at the program start address.
    pub fn new() -> (p: Processor)
        ensures
            p.wf(),
            p@.regs == Seq::new(16, |j: int| 0u8),
            p@.index == 0,
            p@.dt == 0,
            p@.st == 0,
            p@.pc == PROGRAM_START,
            p@.stack == Seq::new(16, |j: int| 0u16),
            p@.sp == 0,
    {
        let p = Processor {
            reg_v: vec![0u8; 16],
            i: 0,
            dt: 0,
            st: 0,
            program_counter: PROGRAM_START,
            stack: vec![0u16; 16],
            stack_ptr: 0,
        };
        proof {
            assert(p@.regs =~= Seq::new(16, |j: int| 0u8));
            assert(p@.stack =~= Seq::new(16, |j: int| 0u16));
        }
        p
    }

    /// One 1/60-second tick: each timer decrements toward zero, and the
    /// audio collaborator is told to emit tone exactly while the sound
    /// timer was still nonzero.
    pub fn tick_timers(&mut self) -> (tone: bool)
        requires
            old(self).wf(),
        ensures
            final(self).wf(),
            final(self)@ == (ProcView {
                dt: if old(self)@.dt > 0 {
                    (old(self)@.dt - 1) as u8
                } else {
                    0u8
                },
                st: if old(self)@.st > 0 {
                    (old(self)@.st - 1) as u8
                } else {
                    0u8
                },
                ..old(self)@
            }),
            tone == (old(self)@.st > 0),
    {
        if self.dt > 0 {
            self.dt = self.dt - 1;
        }
        let tone = self.st > 0;
        if self.st > 0 {
            self.st = self.st - 1;
        }
        tone
    }

    /// The value of general register `r`, or `None` outside the file.
    pub fn register(&self, r: u8) -> (v: Option<u8>)
        requires
            self.wf(),
        ensures
            r < 16 ==> v == Some(self@.regs[r as int]),
            r >= 16 ==> v is None,
    {
        if r < 16 {
            Some(self.reg_v[r as usize])
        } else {
            None
        }
    }

    /// The program counter.
    pub fn program_counter(&self) -> (pc: u16)
        ensures
            pc == self@.pc,
    {
        self.program_counter
    }

    /// The index register.
    pub fn index(&self) -> (i: u16)
        ensures
            i == self@.index,
    {
        self.i
    }

    /// The delay timer.
    pub fn delay_timer(&self) -> (t: u8)
        ensures
            t == self@.dt,
    {
        self.dt
    }

    /// The sound timer.
    pub fn sound_timer(&self) -> (t: u8)
        ensures
            t == self@.st,
    {
        self.st
    }

    /// The stack pointer: how many calls are outstanding.
    pub fn stack_pointer(&self) -> (sp: u16)
        ensures
            sp == self@.sp,
    {
        self.stack_ptr
    }

    /// Executes one decoded instruction against the machine's collaborators.
    /// The program counter has already been advanced past the fetched word,
    /// so it lies between 2 and 4096. Every register operand is
    /// range-checked; the exact effect of every variant is `spec_execute`.
    pub fn execute(
        &mut self,
        instr: Instruction,
        mem: &mut RandomAccessMemory,
        display: &mut Display,
        keyboard: &Keyboard,
        random: u8,
    ) -> (r: Result<(), Exception>)
        requires
            old(self).wf(),
            old(mem).wf(),
            old(display).wf(),
            keyboard.wf(),
            2 <= old(self)@.pc <= 4096,
            instr matches Instruction::Draw(_, _, n) ==> n <= 15,
        ensures
            final(self).wf(),
            final(mem).wf(),
            final(display).wf(),
            spec_execute(
                machine_state(*old(self), *old(mem), *old(display), *keyboard),
                instr,
                random,
                machine_state(*final(self), *final(mem), *final(display), *keyboard),
                r,
            ),
    {
        match instr {
            Instruction::Sys(_) | Instruction::Cls | Instruction::Ret | Instruction::Jump(_)
            | Instruction::Call(_) | Instruction::SkipEqImm(_, _) | Instruction::SkipNeImm(_, _)
            | Instruction::SkipEqReg(_, _) | Instruction::SkipNeReg(_, _)
                => self.exec_control(instr, mem, display, keyboard, random),
            Instruction::LoadImm(_, _) | Instruction::AddImm(_, _) | Instruction::Copy(_, _)
            | Instruction::Or(_, _) | Instruction::And(_, _) | Instruction::Xor(_, _)
            | Instruction::AddCarry(_, _) | Instruction::Sub(_, _)
            | Instruction::ShiftRight(_, _) | Instruction::SubNeg(_, _)
            | Instruction::ShiftLeft(_, _)
                => self.exec_alu(instr, mem, display, keyboard, random),
            Instruction::LoadIndex(_) | Instruction::JumpOffset(_) | Instruction::AddIndex(_)
            | Instruction::LoadFont(_) | Instruction::StoreBcd(_) | Instruction::StoreRegs(_)
            | Instruction::LoadRegs(_)
                => self.exec_index_mem(instr, mem, display, keyboard, random),
            Instruction::Random(_, _) | Instruction::Draw(..) | Instruction::SkipKeyDown(_)
            | Instruction::SkipKeyUp(_) | Instruction::LoadDelay(_) | Instruction::WaitKey(_)
            | Instruction::SetDelay(_) | Instruction::SetSound(_)
                => self.exec_device(instr, mem, display, keyboard, random),
        }
    }

    /// The jump, call, return, clear and skip instructions.
    #[verifier::rlimit(60)]
    fn exec_control(
        &mut self,
        instr: Instruction,
        mem: &mut RandomAccessMemory,
        display: &mut Display,
        keyboard: &Keyboard,
        random: u8,
    ) -> (r: Result<(), Exception>)
        requires
            old(self).wf(),
            old(mem).wf(),
            old(display).wf(),
            keyboard.wf(),
            2 <= old(self)@.pc <= 4096,
            instr matches Instruction::Draw(_, _, n) ==> n <= 15,
            ((instr matches Instruction::Sys(_))
                || (instr matches Instruction::Cls)
                || (instr matches Instruction::Ret)
                || (instr matches Instruction::Jump(_))
                || (instr matches Instruction::Call(_))
                || (instr matches Instruction::SkipEqImm(_, _))
                || (instr matches Instruction::SkipNeImm(_, _))
                || (instr matches Instruction::SkipEqReg(_, _))
                || (instr matches Instruction::SkipNeReg(_, _))),
        ensures
            final(self).wf(),
            final(mem).wf(),
            final(display).wf(),
            spec_execute(
                machine_state(*old(self), *old(mem), *old(display), *keyboard),
                instr,
                random,
                machine_state(*final(self), *final(mem), *final(display), *keyboard),
                r,
            ),
    {
        match instr {
            Instruction::Sys(nnn) => {
                if 512 <= nnn && nnn <= 4095 {
                    self.program_counter = nnn;
                    Ok(())
                } else {
                    Err(Exception::new(ExceptionType::AddressOutOfRange))
                }
            },
            Instruction::Cls => {
                display.clear();
                Ok(())
            },
            Instruction::Ret => {
                if self.stack_ptr == 0 {
                    Err(Exception::new(ExceptionType::StackPointerOutOfRange))
                } else {
                    self.program_counter = self.stack[(self.stack_ptr - 1) as usize];
                    self.stack_ptr = self.stack_ptr - 1;
                    Ok(())
                }
            },
            Instruction::Jump(nnn) => {
                if nnn <= 4095 {
                    self.program_counter = nnn;
                    Ok(())
                } else {
                    Err(Exception::new(ExceptionType::AddressOutOfRange))
                }
            },
            Instruction::Call(nnn) => {
                if nnn > 4095 {
                    Err(Exception::new(ExceptionType::AddressOutOfRange))
                } else if self.stack_ptr >= 16 {
                    Err(Exception::new(ExceptionType::StackPointerOutOfRange))
                } else {
                    self.stack[self.stack_ptr as usize] = self.program_counter;
                    self.stack_ptr = self.stack_ptr + 1;
                    self.program_counter = nnn;
                    Ok(())
                }
            },
            Instruction::SkipEqImm(x, kk) => {
                if x > 15 {
                    Err(Exception::new(ExceptionType::BadArgument))
                } else {
                    if self.reg_v[x as usize] == kk {
                        self.program_counter = self.program_counter + 2;
                    }
                    Ok(())
                }
            },
            Instruction::SkipNeImm(x, kk) => {
                if x > 15 {
                    Err(Exception::new(ExceptionType::BadArgument))
                } else {
                    if self.reg_v[x as usize] != kk {
                        self.program_counter = self.program_counter + 2;
                    }
                    Ok(())
                }
            },
            Instruction::SkipEqReg(x, y) => {
                if x > 15 || y > 15 {
                    Err(Exception::new(ExceptionType::BadArgument))
                } else {
                    if self.reg_v[x as usize] == self.reg_v[y as usize] {
                        self.program_counter = self.program_counter + 2;
                    }
                    Ok(())
                }
            },
            Instruction::SkipNeReg(x, y) => {
                if x > 15 || y > 15 {
                    Err(Exception::new(ExceptionType::BadArgument))
                } else {
                    if self.reg_v[x as usize] != self.reg_v[y as usize] {
                        self.program_counter = self.program_counter + 2;
                    }
                    Ok(())
                }
            },
            _ => {
                proof {
                    assert(false);
                }
                Err(Exception::new(ExceptionType::BadInstruction))
            },
        }
    }

    /// The register-to-register and immediate arithmetic and logic instructions.
    #[verifier::rlimit(60)]
    fn exec_alu(
        &mut self,
        instr: Instruction,
        mem: &mut RandomAccessMemory,
        display: &mut Display,
        keyboard: &Keyboard,
        random: u8,
    ) -> (r: Result<(), Exception>)
        requires
            old(self).wf(),
            old(mem).wf(),
            old(display).wf(),
            keyboard.wf(),
            2 <= old(self)@.pc <= 4096,
            instr matches Instruction::Draw(_, _, n) ==> n <= 15,
            ((instr matches Instruction::LoadImm(_, _))
                || (instr matches Instruction::AddImm(_, _))
                || (instr matches Instruction::Copy(_, _))
                || (instr matches Instruction::Or(_, _))
                || (instr matches Instruction::And(_, _))
                || (instr matches Instruction::Xor(_, _))
                || (instr matches Instruction::AddCarry(_, _))
                || (instr matches Instruction::Sub(_, _))
                || (instr matches Instruction::ShiftRight(_, _))
                || (instr matches Instruction::SubNeg(_, _))
                || (instr matches Instruction::ShiftLeft(_, _))),
        ensures
            final(self).wf(),
            final(mem).wf(),
            final(display).wf(),
            spec_execute(
                machine_state(*old(self), *old(mem), *old(display), *keyboard),
                instr,
                random,
                machine_state(*final(self), *final(mem), *final(display), *keyboard),
                r,
            ),
    {
        match instr {
            Instruction::LoadImm(x, kk) => {
                if x > 15 {
                    Err(Exception::new(ExceptionType::BadArgument))
                } else {
                    self.reg_v[x as usize] = kk;
                    Ok(())
                }
            },
            Instruction::AddImm(x, kk) => {
                if x > 15 {
                    Err(Exception::new(ExceptionType::BadArgument))
                } else {
                    let sum: u16 = self.reg_v[x as usize] as u16 + kk as u16;
                    self.reg_v[x as usize] = (sum % 256) as u8;
                    Ok(())
                }
            },
            Instruction::Copy(x, y) => {
                if x > 15 || y > 15 {
                    Err(Exception::new(ExceptionType::BadArgument))
                } else {
                    self.reg_v[x as usize] = self.reg_v[y as usize];
                    Ok(())
                }
            },
            Instruction::Or(x, y) => {
                if x > 15 || y > 15 {
                    Err(Exception::new(ExceptionType::BadArgument))
                } else {
                    self.reg_v[x as usize] = self.reg_v[x as usize] | self.reg_v[y as usize];
                    self.reg_v[15] = 0;
                    Ok(())
                }
            },
            Instruction::And(x, y) => {
                if x > 15 || y > 15 {
                    Err(Exception::new(ExceptionType::BadArgument))
                } else {
                    self.reg_v[x as usize] = self.reg_v[x as usize] & self.reg_v[y as usize];
                    self.reg_v[15] = 0;
                    Ok(())
                }
            },
            Instruction::Xor(x, y) => {
                if x > 15 || y > 15 {
                    Err(Exception::new(ExceptionType::BadArgument))
                } else {
                    self.reg_v[x as usize] = self.reg_v[x as usize] ^ self.reg_v[y as usize];
                    self.reg_v[15] = 0;
                    Ok(())
                }
            },
            Instruction::AddCarry(x, y) => {
                if x > 15 || y > 15 {
                    Err(Exception::new(ExceptionType::BadArgument))
                } else {
                    let sum: u16 = self.reg_v[x as usize] as u16 + self.reg_v[y as usize] as u16;
                    self.reg_v[x as usize] = (sum % 256) as u8;
                    self.reg_v[15] = if sum > 255 {
                        1
                    } else {
                        0
                    };
                    Ok(())
                }
            },
            Instruction::Sub(x, y) => {
                if x > 15 || y > 15 {
                    Err(Exception::new(ExceptionType::BadArgument))
                } else {
                    let a = self.reg_v[x as usize];
                    let b = self.reg_v[y as usize];
                    if a >= b {
                        self.reg_v[x as usize] = a - b;
                        self.reg_v[15] = 1;
                    } else {
                        self.reg_v[x as usize] = (a as u16 + 256 - b as u16) as u8;
                        self.reg_v[15] = 0;
                    }
                    Ok(())
                }
            },
            Instruction::ShiftRight(x, _y) => {
                if x > 15 {
                    Err(Exception::new(ExceptionType::BadArgument))
                } else {
                    self.reg_v[15] = self.reg_v[x as usize] % 2;
                    let cur = self.reg_v[x as usize];
                    self.reg_v[x as usize] = cur / 2;
                    Ok(())
                }
            },
            Instruction::SubNeg(x, y) => {
                if x > 15 || y > 15 {
                    Err(Exception::new(ExceptionType::BadArgument))
                } else {
                    let a = self.reg_v[x as usize];
                    let b = self.reg_v[y as usize];
                    if b >= a {
                        self.reg_v[x as usize] = b - a;
                        self.reg_v[15] = 1;
                    } else {
                        self.reg_v[x as usize] = (b as u16 + 256 - a as u16) as u8;
                        self.reg_v[15] = 0;
                    }
                    Ok(())
                }
            },
            Instruction::ShiftLeft(x, _y) => {
                if x > 15 {
                    Err(Exception::new(ExceptionType::BadArgument))
                } else {
                    self.reg_v[15] = if self.reg_v[x as usize] >= 128 {
                        1
                    } else {
                        0
                    };
                    let cur = self.reg_v[x as usize];
                    self.reg_v[x as usize] = ((cur as u16 * 2) % 256) as u8;
                    Ok(())
                }
            },
            _ => {
                proof {
                    assert(false);
                }
                Err(Exception::new(ExceptionType::BadInstruction))
            },
        }
    }

    /// The index-register and memory-block instructions.
    #[verifier::rlimit(60)]
    fn exec_index_mem(
        &mut self,
        instr: Instruction,
        mem: &mut RandomAccessMemory,
        display: &mut Display,
        keyboard: &Keyboard,
        random: u8,
    ) -> (r: Result<(), Exception>)
        requires
            old(self).wf(),
            old(mem).wf(),
            old(display).wf(),
            keyboard.wf(),
            2 <= old(self)@.pc <= 4096,
            instr matches Instruction::Draw(_, _, n) ==> n <= 15,
            ((instr matches Instruction::LoadIndex(_))
                || (instr matches Instruction::JumpOffset(_))
                || (instr matches Instruction::AddIndex(_))
                || (instr matches Instruction::LoadFont(_))
                || (instr matches Instruction::StoreBcd(_))
                || (instr matches Instruction::StoreRegs(_))
                || (instr matches Instruction::LoadRegs(_))),
        ensures
            final(self).wf(),
            final(mem).wf(),
            final(display).wf(),
            spec_execute(
                machine_state(*old(self), *old(mem), *old(display), *keyboard),
                instr,
                random,
                machine_state(*final(self), *final(mem), *final(display), *keyboard),
                r,
            ),
    {
        match instr {
            Instruction::LoadIndex(nnn) => {
                if nnn <= 4095 {
                    self.i = nnn;
                    Ok(())
                } else {
                    Err(Exception::new(ExceptionType::AddressOutOfRange))
                }
            },
            Instruction::JumpOffset(nnn) => {
                if nnn <= 4095 {
                    self.program_counter = nnn + self.reg_v[0] as u16;
                    Ok(())
                } else {
                    Err(Exception::new(ExceptionType::AddressOutOfRange))
                }
            },
            Instruction::AddIndex(x) => {
                if x > 15 {
                    Err(Exception::new(ExceptionType::BadArgument))
                } else {
                    let sum: u32 = self.i as u32 + self.reg_v[x as usize] as u32;
                    self.i = (sum % 0x10000) as u16;
                    Ok(())
                }
            },
            Instruction::LoadFont(x) => {
                if x > 15 {
                    Err(Exception::new(ExceptionType::BadArgument))
                } else {
                    self.i = FONT_START + (x as u16) * 5;
                    Ok(())
                }
            },
            Instruction::StoreBcd(x) => {
                if x > 15 {
                    Err(Exception::new(ExceptionType::BadArgument))
                } else if self.i > 4093 {
                    Err(Exception::new(ExceptionType::AddressOutOfRange))
                } else {
                    let v = self.reg_v[x as usize];
                    let _ = mem.write(self.i, v / 100);
                    let _ = mem.write(self.i + 1, (v / 10) % 10);
                    let _ = mem.write(self.i + 2, v % 10);
                    Ok(())
                }
            },
            Instruction::StoreRegs(x) => {
                if x > 15 {
                    Err(Exception::new(ExceptionType::BadArgument))
                } else {
                    write_block(mem, &self.reg_v, self.i, x)
                }
            },
            Instruction::LoadRegs(x) => {
                if x > 15 {
                    Err(Exception::new(ExceptionType::BadArgument))
                } else {
                    read_block(mem, &mut self.reg_v, self.i, x)
                }
            },
            _ => {
                proof {
                    assert(false);
                }
                Err(Exception::new(ExceptionType::BadInstruction))
            },
        }
    }

    /// The instructions that read the keypad, the timers, the random source, or draw.
    #[verifier::rlimit(60)]
    fn exec_device(
        &mut self,
        instr: Instruction,
        mem: &mut RandomAccessMemory,
        display: &mut Display,
        keyboard: &Keyboard,
        random: u8,
    ) -> (r: Result<(), Exception>)
        requires
            old(self).wf(),
            old(mem).wf(),
            old(display).wf(),
            keyboard.wf(),
            2 <= old(self)@.pc <= 4096,
            instr matches Instruction::Draw(_, _, n) ==> n <= 15,
            ((instr matches Instruction::Random(_, _))
                || (instr matches Instruction::Draw(_, _, _))
                || (instr matches Instruction::SkipKeyDown(_))
                || (instr matches Instruction::SkipKeyUp(_))
                || (instr matches Instruction::LoadDelay(_))
                || (instr matches Instruction::WaitKey(_))
                || (instr matches Instruction::SetDelay(_))
                || (instr matches Instruction::SetSound(_))),
        ensures
            final(self).wf(),
            final(mem).wf(),
            final(display).wf(),
            spec_execute(
                machine_state(*old(self), *old(mem), *old(display), *keyboard),
                instr,
                random,
                machine_state(*final(self), *final(mem), *final(display), *keyboard),
                r,
            ),
    {
        match instr {
            Instruction::Random(x, kk) => {
                if x > 15 {
                    Err(Exception::new(ExceptionType::BadArgument))
                } else {
                    self.reg_v[x as usize] = random & kk;
                    Ok(())
                }
            },
            Instruction::Draw(x, y, n) => {
                if x > 15 || y > 15 {
                    Err(Exception::new(ExceptionType::BadArgument))
                } else {
                    match fetch_sprite(mem, self.i, n) {
                        Err(e) => Err(e),
                        Ok(sprite) => {
                            let vx = self.reg_v[x as usize];
                            let vy = self.reg_v[y as usize];
                            let flag = display.draw(&sprite, vx, vy);
                            self.reg_v[15] = flag;
                            Ok(())
                        },
                    }
                }
            },
            Instruction::SkipKeyDown(x) => {
                if x > 15 {
                    Err(Exception::new(ExceptionType::BadArgument))
                } else {
                    let vx = self.reg_v[x as usize];
                    let down = match keyboard.get(vx) {
                        Some(v) => v == 1,
                        None => false,
                    };
                    if down {
                        self.program_counter = self.program_counter + 2;
                    }
                    Ok(())
                }
            },
            Instruction::SkipKeyUp(x) => {
                if x > 15 {
                    Err(Exception::new(ExceptionType::BadArgument))
                } else {
                    let vx = self.reg_v[x as usize];
                    let up = match keyboard.get(vx) {
                        Some(v) => v == 0,
                        None => false,
                    };
                    if up {
                        self.program_counter = self.program_counter + 2;
                    }
                    Ok(())
                }
            },
            Instruction::LoadDelay(x) => {
                if x > 15 {
                    Err(Exception::new(ExceptionType::BadArgument))
                } else {
                    self.reg_v[x as usize] = self.dt;
                    Ok(())
                }
            },
            Instruction::WaitKey(x) => {
                if x > 15 {
                    Err(Exception::new(ExceptionType::BadArgument))
                } else {
                    match keyboard.first_pressed() {
                        Some(k) => {
                            self.reg_v[x as usize] = k;
                            Ok(())
                        },
                        None => {
                            self.program_counter = self.program_counter - 2;
                            Ok(())
                        },
                    }
                }
            },
            Instruction::SetDelay(x) => {
                if x > 15 {
                    Err(Exception::new(ExceptionType::BadArgument))
                } else {
                    self.dt = self.reg_v[x as usize];
                    Ok(())
                }
            },
            Instruction::SetSound(x) => {
                if x > 15 {
                    Err(Exception::new(ExceptionType::BadArgument))
                } else {
                    self.st = self.reg_v[x as usize];
                    Ok(())
                }
            },
            _ => {
                proof {
                    assert(false);
                }
                Err(Exception::new(ExceptionType::BadInstruction))
            },
        }
    }

    /// One machine cycle: fetch the big-endian word at the program counter,
    /// advance the counter by two before executing (a jump or call target
    /// then overwrites the advance), decode, and execute. A counter from
    /// which two bytes cannot be read, or a word outside the instruction
    /// table, aborts the cycle with a fault.
    pub fn fetch_decode_execute(
        &mut self,
        mem: &mut RandomAccessMemory,
        display: &mut Display,
        keyboard: &Keyboard,
    ) -> (r: Result<(), Exception>)
        requires
            old(self).wf(),
            old(mem).wf(),
            old(display).wf(),
            keyboard.wf(),
        ensures
            final(self).wf(),
            final(mem).wf(),
            final(display).wf(),
            spec_step(
                machine_state(*old(self), *old(mem), *old(display), *keyboard),
                machine_state(*final(self), *final(mem), *final(display), *keyboard),
                r,
            ),
    {
        let ghost pre = machine_state(*old(self), *old(mem), *old(display), *keyboard);
        if self.program_counter > 4094 {
            return Err(Exception::new(ExceptionType::AddressOutOfRange));
        }
        let part1 = match mem.read(self.program_counter) {
            Ok(b) => b,
            Err(_) => 0,
        };
        let part2 = match mem.read(self.program_counter + 1) {
            Ok(b) => b,
            Err(_) => 0,
        };
        let word: u16 = (part1 as u16) * 256 + (part2 as u16);
        self.program_counter = self.program_counter + 2;
        proof {
            assert(word == word_at(pre.mem, pre.pc));
            assert(machine_state(*self, *mem, *display, *keyboard) =~= (State {
                pc: (pre.pc + 2) as u16,
                ..pre
            }));
        }
        match decode(word) {
            None => Err(Exception::new(ExceptionType::BadInstruction)),
            Some(instr) => {
                proof {
                    lemma_decode_operands_in_range(word);
                }
                let rnd = if let Instruction::Random(_, _) = instr {
                    random_byte()
                } else {
                    0
                };
                let r = self.execute(instr, mem, display, keyboard, rnd);
                proof {
                    let post = machine_state(*self, *mem, *display, *keyboard);
                    assert(spec_execute(
                        State { pc: (pre.pc + 2) as u16, ..pre },
                        instr,
                        rnd,
                        post,
                        r,
                    ));
                }
                r
            },
        }
    }
}

/// Relies on rand::random: one byte drawn uniformly from the thread-local
/// generator. Nothing is promised of the value; every caller states what
/// holds of its result whatever byte came back.
#[verifier::external_body]
fn random_byte() -> u8 {
    rand::random::<u8>()
}

/// Reads the `n`-row sprite at `index` out of memory; a sprite that would
/// reach past the address space is a fault.
fn fetch_sprite(mem: &RandomAccessMemory, index: u16, n: u8) -> (r: Result<Sprite, Exception>)
    requires
        mem.wf(),
        n <= 15,
    ensures
        index + n <= 4096 ==> (r matches Ok(s) && s.wf() && s@ == mem@.subrange(
            index as int,
            index + n,
        )),
        index + n > 4096 ==> (r matches Err(e)
            && e.exception_type == ExceptionType::AddressOutOfRange),
{
    if index as usize + n as usize > 4096 {
        return Err(Exception::new(ExceptionType::AddressOutOfRange));
    }
    let mut content: Vec<u8> = Vec::new();
    proof {
        assert(content@ =~= mem@.subrange(index as int, index as int));
    }
    let mut j: usize = 0;
    while j < n as usize
        invariant
            mem.wf(),
            n <= 15,
            index + n <= 4096,
            j <= n,
            content@ == mem@.subrange(index as int, index + j),
        decreases n - j,
    {
        let b = match mem.read(index + j as u16) {
            Ok(b) => b,
            Err(_) => 0,
        };
        content.push(b);
        j = j + 1;
        proof {
            assert(content@ =~= mem@.subrange(index as int, index + j));
        }
    }
    Ok(Sprite::new_with_content(content))
}

/// Writes registers `V0..=Vx` to memory at `index`; a block that would
/// reach past the address space is a fault and writes nothing.
fn write_block(mem: &mut RandomAccessMemory, regs: &Vec<u8>, index: u16, x: u8) -> (r: Result<
    (),
    Exception,
>)
    requires
        old(mem).wf(),
        regs@.len() == 16,
        x < 16,
    ensures
        final(mem).wf(),
        index + x <= 4095 ==> r == Ok::<(), Exception>(()) && (forall|a: int|
            0 <= a < 4096 ==> final(mem)@[a] == (if index <= a <= index + x {
                regs@[a - index]
            } else {
                old(mem)@[a]
            })),
        index + x > 4095 ==> (r matches Err(e)
            && e.exception_type == ExceptionType::AddressOutOfRange) && final(mem)@ == old(mem)@,
{
    if index as usize + x as usize > 4095 {
        return Err(Exception::new(ExceptionType::AddressOutOfRange));
    }
    let mut j: usize = 0;
    while j <= x as usize
        invariant
            mem.wf(),
            regs@.len() == 16,
            x < 16,
            index + x <= 4095,
            j <= x + 1,
            forall|a: int|
                0 <= a < 4096 ==> mem@[a] == (if index <= a < index + j {
                    regs@[a - index]
                } else {
                    old(mem)@[a]
                }),
        decreases x + 1 - j,
    {
        let _ = mem.write(index + j as u16, regs[j]);
        j = j + 1;
    }
    Ok(())
}

/// Loads registers `V0..=Vx` from memory at `index`; a block that would
/// reach past the address space is a fault and loads nothing.
fn read_block(mem: &RandomAccessMemory, regs: &mut Vec<u8>, index: u16, x: u8) -> (r: Result<
    (),
    Exception,
>)
    requires
        mem.wf(),
        old(regs)@.len() == 16,
        x < 16,
    ensures
        final(regs)@.len() == 16,
        index + x <= 4095 ==> r == Ok::<(), Exception>(()) && (forall|j: int|
            0 <= j < 16 ==> final(regs)@[j] == (if j <= x {
                mem@[index + j]
            } else {
                old(regs)@[j]
            })),
        index + x > 4095 ==> (r matches Err(e)
            && e.exception_type == ExceptionType::AddressOutOfRange) && final(regs)@ == old(
            regs,
        )@,
{
    if index as usize + x as usize > 4095 {
        return Err(Exception::new(ExceptionType::AddressOutOfRange));
    }
    let mut j: usize = 0;
    while j <= x as usize
        invariant
            mem.wf(),
            regs@.len() == 16,
            x < 16,
            index + x <= 4095,
            j <= x + 1,
            forall|k: int|
                0 <= k < 16 ==> regs@[k] == (if k < j {
                    mem@[index + k]
                } else {
                    old(regs)@[k]
                }),
        decreases x + 1 - j,
    {
        let b = match mem.read(index + j as u16) {
            Ok(b) => b,
            Err(_) => 0,
        };
        regs[j] = b;
        j = j + 1;
    }
    Ok(())
}

/// The interpreter's built-in font: 16 hexadecimal digit glyphs of 5 rows
/// each, in digit order.
pub open spec fn font_data() -> Seq<u8> {
    seq![
        0xF0u8, 0x90u8, 0x90u8, 0x90u8, 0xF0u8,  // 0
        0x20u8, 0x60u8, 0x20u8, 0x20u8, 0x70u8,  // 1
        0xF0u8, 0x10u8, 0xF0u8, 0x80u8, 0xF0u8,  // 2
        0xF0u8, 0x10u8, 0xF0u8, 0x10u8, 0xF0u8,  // 3
        0x90u8, 0x90u8, 0xF0u8, 0x10u8, 0x10u8,  // 4
        0xF0u8, 0x80u8, 0xF0u8, 0x10u8, 0xF0u8,  // 5
        0xF0u8, 0x80u8, 0xF0u8, 0x90u8, 0xF0u8,  // 6
        0xF0u8, 0x10u8, 0x20u8, 0x40u8, 0x40u8,  // 7
        0xF0u8, 0x90u8, 0xF0u8, 0x90u8, 0xF0u8,  // 8
        0xF0u8, 0x90u8, 0xF0u8, 0x10u8, 0xF0u8,  // 9
        0xF0u8, 0x90u8, 0xF0u8, 0x90u8, 0x90u8,  // A
        0xE0u8, 0x90u8, 0xE0u8, 0x90u8, 0xE0u8,  // B
        0xF0u8, 0x80u8, 0x80u8, 0x80u8, 0xF0u8,  // C
        0xE0u8, 0x90u8, 0x90u8, 0x90u8, 0xE0u8,  // D
        0xF0u8, 0x80u8, 0xF0u8, 0x80u8, 0xF0u8,  // E
        0xF0u8, 0x80u8, 0xF0u8, 0x80u8, 0x80u8,  // F
    ]
}

/// The memory contents right after construction: the font at its fixed low
/// address block, zero everywhere else.
pub open spec fn initial_memory() -> Seq<u8> {
    Seq::new(4096, |a: int| if FONT_START <= a < FONT_START + 80 { font_data()[a - FONT_START] } else { 0u8 })
}

/// The font rows as an executable table.
fn font_table() -> (t: Vec<u8>)
    ensures
        t@ == font_data(),
{
    let t: Vec<u8> = vec![
        0xF0u8, 0x90u8, 0x90u8, 0x90u8, 0xF0u8,  // 0
        0x20u8, 0x60u8, 0x20u8, 0x20u8, 0x70u8,  // 1
        0xF0u8, 0x10u8, 0xF0u8, 0x80u8, 0xF0u8,  // 2
        0xF0u8, 0x10u8, 0xF0u8, 0x10u8, 0xF0u8,  // 3
        0x90u8, 0x90u8, 0xF0u8, 0x10u8, 0x10u8,  // 4
        0xF0u8, 0x80u8, 0xF0u8, 0x10u8, 0xF0u8,  // 5
        0xF0u8, 0x80u8, 0xF0u8, 0x90u8, 0xF0u8,  // 6
        0xF0u8, 0x10u8, 0x20u8, 0x40u8, 0x40u8,  // 7
        0xF0u8, 0x90u8, 0xF0u8, 0x90u8, 0xF0u8,  // 8
        0xF0u8, 0x90u8, 0xF0u8, 0x10u8, 0xF0u8,  // 9
        0xF0u8, 0x90u8, 0xF0u8, 0x90u8, 0x90u8,  // A
        0xE0u8, 0x90u8, 0xE0u8, 0x90u8, 0xE0u8,  // B
        0xF0u8, 0x80u8, 0x80u8, 0x80u8, 0xF0u8,  // C
        0xE0u8, 0x90u8, 0x90u8, 0x90u8, 0xE0u8,  // D
        0xF0u8, 0x80u8, 0xF0u8, 0x80u8, 0xF0u8,  // E
        0xF0u8, 0x80u8, 0xF0u8, 0x80u8, 0x80u8,  // F
    ];
    proof {
        assert(t@ =~= font_data());
    }
    t
}

/// Writes the 16 built-in digit glyphs into their fixed address block,
/// leaving the rest of memory unchanged.
pub fn load_sprites(mem: &mut RandomAccessMemory) -> (r: Result<(), Exception>)
    requires
        old(mem).wf(),
    ensures
        final(mem).wf(),
        r is Ok,
        forall|a: int|
            0 <= a < 4096 ==> final(mem)@[a] == (if FONT_START <= a < FONT_START + 80 {
                font_data()[a - FONT_START]
            } else {
                old(mem)@[a]
            }),
{
    let table = font_table();
    let mut k: usize = 0;
    while k < 80
        invariant
            mem.wf(),
            k <= 80,
            table@ == font_data(),
            forall|a: int|
                0 <= a < 4096 ==> mem@[a] == (if FONT_START <= a < FONT_START + k {
                    font_data()[a - FONT_START]
                } else {
                    old(mem)@[a]
                }),
        decreases 80 - k,
    {
        let _ = mem.write(FONT_START + k as u16, table[k]);
        k = k + 1;
    }
    Ok(())
}

/// A call pushes the already-advanced program counter (the address of the
/// instruction after the call) and jumps; the matching return pops it, so
/// execution resumes right after the call site with the stack as it was.
/// This holds at every stack depth below the 16-slot capacity.
pub proof fn lemma_call_then_ret(
    p: u16,
    pre: State,
    a: u16,
    mid: State,
    post: State,
    rnd1: u8,
    rnd2: u8,
    r1: Result<(), Exception>,
    r2: Result<(), Exception>,
)
    requires
        state_wf(pre),
        pre.pc == p + 2,  // the call instruction was fetched at p
        pre.sp < 16,
        a <= 4095,
        spec_execute(pre, Instruction::Call(a), rnd1, mid, r1),
        spec_execute(mid, Instruction::Ret, rnd2, post, r2),
    ensures
        r1 is Ok,
        r2 is Ok,
        mid.pc == a,
        post.pc == p + 2,
        post.sp == pre.sp,
        post.regs == pre.regs,
        post.mem == pre.mem,
        post.grid == pre.grid,
{
}

/// A call with all 16 stack slots in use is refused: the seventeenth
/// nested call reports a stack fault and changes nothing.
pub proof fn lemma_call_on_full_stack(
    pre: State,
    a: u16,
    post: State,
    rnd: u8,
    r: Result<(), Exception>,
)
    requires
        state_wf(pre),
        pre.sp == 16,
        a <= 4095,
        spec_execute(pre, Instruction::Call(a), rnd, post, r),
    ensures
        is_fault(r, ExceptionType::StackPointerOutOfRange),
        post == pre,
{
}

} // verus!
