//! The execution engine: memory, registers, program counter, index register
//! and call stack, advanced one instruction per `tick`.
//!
//! The machine's abstract state is a [`MachineView`]; what one instruction
//! does to it is the spec function [`spec_execute`], and a whole
//! fetch-decode-execute cycle is [`spec_tick`]. The executable methods are
//! proved to follow those functions exactly, up to the one random byte that
//! the `Rand` instruction draws.

use vstd::prelude::*;
use vstd::pervasive::VecAdditionalExecFns;

use crate::ops::Op;
use crate::ops::op_wf;
use crate::ops::spec_decode;
use crate::ops::decode;
use crate::screen::Screen;
use crate::screen::blank_screen;
use crate::screen::screen_after_draw;
use crate::screen::draw_collides;

verus! {

/// A condition that stops the run. No fault is recoverable: the machine is
/// left in a defined state, but the caller must not tick on.
#[derive(Clone, Copy, Debug, PartialEq, Eq, Structural)]
pub enum Fault {
    /// `Return` was executed with an empty call stack.
    StackUnderflow,
    /// The program counter or a sprite read reached past the 4096 bytes.
    OutOfBounds,
    /// The instruction decoded to a form with no execution semantics here:
    /// the key, timer, BCD and register-block families, and unknown words.
    Unimplemented(Op),
}

/// The abstract state of the machine: every register and every byte, as
/// mathematical sequences.
#[verifier::ext_equal]
pub struct MachineView {
    /// Program counter.
    pub pc: u16,
    /// Index register.
    pub ireg: u16,
    /// Delay timer: carried in the state, decremented by nothing here.
    pub dt: u8,
    /// Sound timer: carried in the state, decremented by nothing here.
    pub st: u8,
    /// The 4096 bytes of memory.
    pub mem: Seq<u8>,
    /// The sixteen general-purpose registers; index 15 is the flag.
    pub regs: Seq<u8>,
    /// Return addresses, most recent last.
    pub stack: Seq<u16>,
    /// The framebuffer, row-major.
    pub screen: Seq<bool>,
}

/// An 8-bit addition, wrapping around at 256.
pub open spec fn wrap_add(a: u8, b: u8) -> u8 {
    ((a + b) % 256) as u8
}

/// An 8-bit subtraction, wrapping around at 256.
pub open spec fn wrap_sub(a: u8, b: u8) -> u8 {
    ((a - b) % 256) as u8
}

/// The program counter after a conditional skip: two further than the next
/// instruction when the condition held.
pub open spec fn skip_pc(pc: u16, cond: bool) -> u16 {
    if cond {
        (pc + 2) as u16
    } else {
        pc
    }
}

/// The 16-bit big-endian instruction word at `pc`.
pub open spec fn spec_fetch_word(mem: Seq<u8>, pc: int) -> u16 {
    (mem[pc] * 256 + mem[pc + 1]) as u16
}

/// What one instruction does to the machine, given the random byte `rnd`
/// that a `Rand` instruction would consume; every other instruction ignores
/// it. `Ok` carries the next state and whether the framebuffer changed;
/// `Err` is a fault that stops the run, leaving the state as it was.
pub open spec fn spec_execute(pre: MachineView, op: Op, rnd: u8) -> Result<
    (MachineView, bool),
    Fault,
> {
    match op {
        Op::Clear => Ok((MachineView { screen: blank_screen(), ..pre }, true)),
        Op::Return => if pre.stack.len() == 0 {
            Err(Fault::StackUnderflow)
        } else {
            Ok(
                (
                    MachineView { pc: pre.stack.last(), stack: pre.stack.drop_last(), ..pre },
                    false,
                ),
            )
        },
        Op::AbsJump(addr) => Ok((MachineView { pc: addr, ..pre }, false)),
        Op::Call(addr) => Ok(
            (MachineView { pc: addr, stack: pre.stack.push(pre.pc), ..pre }, false),
        ),
        Op::OffsetJump(addr) => Ok(
            (MachineView { pc: (addr + pre.regs[0]) as u16, ..pre }, false),
        ),
        Op::SkipEqVal(x, val) => Ok(
            (MachineView { pc: skip_pc(pre.pc, pre.regs[x as int] == val), ..pre }, false),
        ),
        Op::SkipNeqVal(x, val) => Ok(
            (MachineView { pc: skip_pc(pre.pc, pre.regs[x as int] != val), ..pre }, false),
        ),
        Op::SkipEqReg(x, y) => Ok(
            (
                MachineView {
                    pc: skip_pc(pre.pc, pre.regs[x as int] == pre.regs[y as int]),
                    ..pre
                },
                false,
            ),
        ),
        Op::SkipNeqReg(x, y) => Ok(
            (
                MachineView {
                    pc: skip_pc(pre.pc, pre.regs[x as int] != pre.regs[y as int]),
                    ..pre
                },
                false,
            ),
        ),
        Op::SetVal(x, val) => Ok(
            (MachineView { regs: pre.regs.update(x as int, val), ..pre }, false),
        ),
        Op::AddVal(x, val) => Ok(
            (
                MachineView {
                    regs: pre.regs.update(x as int, wrap_add(pre.regs[x as int], val)),
                    ..pre
                },
                false,
            ),
        ),
        Op::Mov(x, y) => Ok(
            (MachineView { regs: pre.regs.update(x as int, pre.regs[y as int]), ..pre }, false),
        ),
        Op::Or(x, y) => Ok(
            (
                MachineView {
                    regs: pre.regs.update(x as int, pre.regs[x as int] | pre.regs[y as int]),
                    ..pre
                },
                false,
            ),
        ),
        Op::And(x, y) => Ok(
            (
                MachineView {
                    regs: pre.regs.update(x as int, pre.regs[x as int] & pre.regs[y as int]),
                    ..pre
                },
                false,
            ),
        ),
        Op::Xor(x, y) => Ok(
            (
                MachineView {
                    regs: pre.regs.update(x as int, pre.regs[x as int] ^ pre.regs[y as int]),
                    ..pre
                },
                false,
            ),
        ),
        Op::Add(x, y) => {
            let sum = pre.regs[x as int] + pre.regs[y as int];
            let flag: u8 = if sum > 255 {
                1
            } else {
                0
            };
            Ok(
                (
                    MachineView {
                        regs: pre.regs.update(15, flag).update(x as int, (sum % 256) as u8),
                        ..pre
                    },
                    false,
                ),
            )
        },
        Op::Sub(x, y) => {
            let flag: u8 = if pre.regs[x as int] < pre.regs[y as int] {
                1
            } else {
                0
            };
            let result = wrap_sub(pre.regs[x as int], pre.regs[y as int]);
            Ok(
                (
                    MachineView {
                        regs: pre.regs.update(15, flag).update(x as int, result),
                        ..pre
                    },
                    false,
                ),
            )
        },
        Op::SubN(x, y) => {
            let flag: u8 = if pre.regs[y as int] < pre.regs[x as int] {
                1
            } else {
                0
            };
            let result = wrap_sub(pre.regs[y as int], pre.regs[x as int]);
            Ok(
                (
                    MachineView {
                        regs: pre.regs.update(15, flag).update(x as int, result),
                        ..pre
                    },
                    false,
                ),
            )
        },
        Op::Shr(x, y) => {
            // The "copy-then-shift" variant: x takes y's value, the flag
            // takes its lowest bit, then x shifts; kept exactly, even for
            // x == 15, where the shifted value wins over the flag.
            let r1 = pre.regs.update(x as int, pre.regs[y as int]);
            let r2 = r1.update(15, r1[x as int] & 1);
            let r3 = r2.update(x as int, r2[x as int] >> 1u8);
            Ok((MachineView { regs: r3, ..pre }, false))
        },
        Op::Shl(x, y) => {
            // As `Shr`, but the flag keeps the raw high bit (0 or 0x80),
            // not a normalized 0/1.
            let r1 = pre.regs.update(x as int, pre.regs[y as int]);
            let r2 = r1.update(15, r1[x as int] & 0x80);
            let r3 = r2.update(x as int, r2[x as int] << 1u8);
            Ok((MachineView { regs: r3, ..pre }, false))
        },
        Op::SetIndex(addr) => Ok((MachineView { ireg: addr, ..pre }, false)),
        Op::Rand(x, val) => Ok(
            (MachineView { regs: pre.regs.update(x as int, rnd & val), ..pre }, false),
        ),
        Op::Draw(x, y, n) => {
            if pre.ireg as int + n as int > 4096 {
                Err(Fault::OutOfBounds)
            } else {
                let sprite = pre.mem.subrange(pre.ireg as int, pre.ireg as int + n as int);
                let sx = pre.regs[x as int] as int % 64;
                let sy = pre.regs[y as int] as int % 32;
                let flag: u8 = if draw_collides(pre.screen, sprite, sx, sy) {
                    1
                } else {
                    0
                };
                Ok(
                    (
                        MachineView {
                            screen: screen_after_draw(pre.screen, sprite, sx, sy),
                            regs: pre.regs.update(15, flag),
                            ..pre
                        },
                        true,
                    ),
                )
            }
        },
        _ => Err(Fault::Unimplemented(op)),
    }
}

/// A full cycle: fetch the word at the program counter, step the counter
/// past it, decode, execute.
pub open spec fn spec_tick(pre: MachineView, rnd: u8) -> Result<(MachineView, bool), Fault> {
    if pre.pc as int + 1 >= 4096 {
        Err(Fault::OutOfBounds)
    } else {
        let w = spec_fetch_word(pre.mem, pre.pc as int);
        spec_execute(
            MachineView { pc: (pre.pc + 2) as u16, ..pre },
            spec_decode(w),
            rnd,
        )
    }
}

/// A call/return round trip: `Call` pushes the program counter — which the
/// fetch already moved past the call instruction — and jumps; a later
/// `Return`, reached with that stack untouched, pops exactly that address
/// back into the program counter. `mid` is any state whose stack is the
/// caller's stack with the return address on top.
pub proof fn lemma_call_return_round_trip(
    pre: MachineView,
    addr: u16,
    mid: MachineView,
    rc: u8,
    rr: u8,
)
    requires
        mid.stack == pre.stack.push(pre.pc),
    ensures
        spec_execute(pre, Op::Call(addr), rc) == Ok::<(MachineView, bool), Fault>(
            (MachineView { pc: addr, stack: pre.stack.push(pre.pc), ..pre }, false),
        ),
        spec_execute(mid, Op::Return, rr) == Ok::<(MachineView, bool), Fault>(
            (MachineView { pc: pre.pc, stack: pre.stack, ..mid }, false),
        ),
{
    assert(mid.stack.last() == pre.pc);
    assert(mid.stack.drop_last() =~= pre.stack);
}

/// Relies on fastrand::u8 over the full byte range: one value from the
/// thread-local generator; nothing is promised of it.
#[verifier::external_body]
fn random_byte() -> u8 {
    fastrand::u8(..)
}

/// The 80-byte font table: sixteen glyphs for the hexadecimal digits,
/// five bytes each, every byte one 8-pixel row.
pub open spec fn font_seq() -> Seq<u8> {
    seq![
        0xF0u8, 0x90, 0x90, 0x90, 0xF0, // 0
        0x20, 0x60, 0x20, 0x20, 0x70, // 1
        0xF0, 0x10, 0xF0, 0x80, 0xF0, // 2
        0xF0, 0x10, 0xF0, 0x10, 0xF0, // 3
        0x90, 0x90, 0xF0, 0x10, 0x10, // 4
        0xF0, 0x80, 0xF0, 0x10, 0xF0, // 5
        0xF0, 0x80, 0xF0, 0x90, 0xF0, // 6
        0xF0, 0x10, 0x20, 0x40, 0x40, // 7
        0xF0, 0x90, 0xF0, 0x90, 0xF0, // 8
        0xF0, 0x90, 0xF0, 0x10, 0xF0, // 9
        0xF0, 0x90, 0xF0, 0x90, 0x90, // A
        0xE0, 0x90, 0xE0, 0x90, 0xE0, // B
        0xF0, 0x80, 0x80, 0x80, 0xF0, // C
        0xE0, 0x90, 0x90, 0x90, 0xE0, // D
        0xF0, 0x80, 0xF0, 0x80, 0xF0, // E
        0xF0, 0x80, 0xF0, 0x80, 0x80, // F
    ]
}

/// Memory at power-on: all zero but for the font table at `0x50..0xA0`.
pub open spec fn initial_memory() -> Seq<u8> {
    Seq::new(4096, |i: int| if 0x50 <= i < 0xA0 { font_seq()[i - 0x50] } else { 0u8 })
}

/// The font table as bytes.
fn font_bytes() -> (f: Vec<u8>)
    ensures
        f@ == font_seq(),
{
    let mut f: Vec<u8> = Vec::new();
    f.push(0xF0); f.push(0x90); f.push(0x90); f.push(0x90); f.push(0xF0);
    f.push(0x20); f.push(0x60); f.push(0x20); f.push(0x20); f.push(0x70);
    f.push(0xF0); f.push(0x10); f.push(0xF0); f.push(0x80); f.push(0xF0);
    f.push(0xF0); f.push(0x10); f.push(0xF0); f.push(0x10); f.push(0xF0);
    f.push(0x90); f.push(0x90); f.push(0xF0); f.push(0x10); f.push(0x10);
    f.push(0xF0); f.push(0x80); f.push(0xF0); f.push(0x10); f.push(0xF0);
    f.push(0xF0); f.push(0x80); f.push(0xF0); f.push(0x90); f.push(0xF0);
    f.push(0xF0); f.push(0x10); f.push(0x20); f.push(0x40); f.push(0x40);
    f.push(0xF0); f.push(0x90); f.push(0xF0); f.push(0x90); f.push(0xF0);
    f.push(0xF0); f.push(0x90); f.push(0xF0); f.push(0x10); f.push(0xF0);
    f.push(0xF0); f.push(0x90); f.push(0xF0); f.push(0x90); f.push(0x90);
    f.push(0xE0); f.push(0x90); f.push(0xE0); f.push(0x90); f.push(0xE0);
    f.push(0xF0); f.push(0x80); f.push(0x80); f.push(0x80); f.push(0xF0);
    f.push(0xE0); f.push(0x90); f.push(0x90); f.push(0x90); f.push(0xE0);
    f.push(0xF0); f.push(0x80); f.push(0xF0); f.push(0x80); f.push(0xF0);
    f.push(0xF0); f.push(0x80); f.push(0xF0); f.push(0x80); f.push(0x80);
    proof {
        assert(f@ =~= font_seq());
    }
    f
}

/// The execution engine: one machine, owned by one driver.
pub struct Chip8 {
    /// Program counter.
    pub pc: u16,
    /// The 4096 bytes of memory.
    pub mem: Vec<u8>,
    /// Index register.
    pub ireg: u16,
    /// Call stack of return addresses.
    pub stack: Vec<u16>,
    /// Delay timer; see [`MachineView::dt`].
    pub dt: u8,
    /// Sound timer; see [`MachineView::st`].
    pub st: u8,
    /// The sixteen general-purpose registers.
    pub v: Vec<u8>,
    /// The framebuffer.
    pub screen: Screen,
}

impl View for Chip8 {
    type V = MachineView;

    open spec fn view(&self) -> MachineView {
        MachineView {
            pc: self.pc,
            ireg: self.ireg,
            dt: self.dt,
            st: self.st,
            mem: self.mem@,
            regs: self.v@,
            stack: self.stack@,
            screen: self.screen@,
        }
    }
}

impl Chip8 {
    /// The machine holds its full memory, all sixteen registers and the
    /// whole pixel grid.
    pub open spec fn wf(&self) -> bool {
        &&& self.mem@.len() == 4096
        &&& self.v@.len() == 16
        &&& self.screen.wf()
    }

    /// A machine at power-on: the font table in memory, everything else
    /// zeroed, the program counter at the load address, and the given
    /// framebuffer adopted as it is.
    pub fn new(screen: Screen) -> (c: Chip8)
        requires
            screen.wf(),
        ensures
            c.wf(),
            c@.pc == 512,
            c@.ireg == 0,
            c@.dt == 0,
            c@.st == 0,
            c@.stack == Seq::<u16>::empty(),
            c@.regs == Seq::new(16, |i: int| 0u8),
            c@.mem == initial_memory(),
            c@.screen == screen@,
    {
        let mut mem: Vec<u8> = Vec::new();
        while mem.len() < 4096
            invariant
                mem@.len() <= 4096,
                forall|k: int| 0 <= k < mem@.len() ==> mem@[k] == 0u8,
            decreases 4096 - mem@.len(),
        {
            mem.push(0);
        }
        let f = font_bytes();
        let mut i: usize = 0;
        while i < 80
            invariant
                i <= 80,
                mem@.len() == 4096,
                f@ == font_seq(),
                forall|k: int| 0 <= k < 0x50 ==> mem@[k] == 0u8,
                forall|k: int| 0x50 <= k < 0x50 + i ==> mem@[k] == font_seq()[k - 0x50],
                forall|k: int| 0x50 + i <= k < 4096 ==> mem@[k] == 0u8,
            decreases 80 - i,
        {
            mem.set(0x50 + i, f[i]);
            i = i + 1;
        }
        proof {
            assert(mem@ =~= initial_memory());
        }
        let mut v: Vec<u8> = Vec::new();
        while v.len() < 16
            invariant
                v@.len() <= 16,
                forall|k: int| 0 <= k < v@.len() ==> v@[k] == 0u8,
            decreases 16 - v@.len(),
        {
            v.push(0);
        }
        proof {
            assert(v@ =~= Seq::new(16, |i: int| 0u8));
        }
        Chip8 { pc: 512, mem, ireg: 0, stack: Vec::new(), dt: 0, st: 0, v, screen }
    }

    /// Copy a program verbatim into memory at the load address. The caller
    /// owes `program.len() + 512 <= 4096`; nothing else changes.
    pub fn load_program(&mut self, program: &Vec<u8>)
        requires
            old(self).wf(),
            program@.len() + 512 <= 4096,
        ensures
            final(self).wf(),
            final(self)@ == (MachineView { mem: final(self)@.mem, ..old(self)@ }),
            forall|k: int|
                512 <= k < 512 + program@.len() ==> final(self)@.mem[k] == program@[k - 512],
            forall|k: int|
                (0 <= k < 512 || 512 + program@.len() <= k < 4096) ==> final(self)@.mem[k]
                    == old(self)@.mem[k],
    {
        let ghost m0 = self.mem@;
        let mut i: usize = 0;
        while i < program.len()
            invariant
                i <= program@.len(),
                program@.len() + 512 <= 4096,
                self.mem@.len() == 4096,
                m0.len() == 4096,
                self.v@.len() == old(self).v@.len(),
                self.v@ == old(self).v@,
                self.pc == old(self).pc,
                self.ireg == old(self).ireg,
                self.dt == old(self).dt,
                self.st == old(self).st,
                self.stack@ == old(self).stack@,
                self.screen == old(self).screen,
                forall|k: int| 512 <= k < 512 + i ==> self.mem@[k] == program@[k - 512],
                forall|k: int| (0 <= k < 512 || 512 + i <= k < 4096) ==> self.mem@[k] == m0[k],
            decreases program@.len() - i,
        {
            self.mem.set(512 + i, program[i]);
            i = i + 1;
        }
    }

    /// Apply one decoded instruction: exactly [`spec_execute`], with the
    /// `Rand` instruction consuming one byte from the host's generator.
    /// `Ok(true)` says the framebuffer changed and wants repainting; a fault
    /// leaves the machine as it was. The program counter must have room for
    /// a skip's further step of 2 in its 16 bits; [`Self::tick`] hands over
    /// a counter no larger than 4096.
    pub fn execute(&mut self, op: Op) -> (r: Result<bool, Fault>)
        requires
            old(self).wf(),
            op_wf(op),
            old(self).pc + 2 < 0x10000,
        ensures
            final(self).wf(),
            (match r {
                Ok(flush) => exists|b: u8|
                    spec_execute(old(self)@, op, b) == Ok::<(MachineView, bool), Fault>(
                        (final(self)@, flush),
                    ),
                Err(e) => final(self)@ == old(self)@ && spec_execute(old(self)@, op, 0u8)
                    == Err::<(MachineView, bool), Fault>(e) && forall|b: u8|
                    spec_execute(old(self)@, op, b) == Err::<(MachineView, bool), Fault>(e),
            }),
    {
        match op {
            Op::Clear => {
                self.screen.clear();
                proof {
                    assert(spec_execute(old(self)@, op, 0u8) == Ok::<(MachineView, bool), Fault>(
                        (self@, true),
                    ));
                }
                Ok(true)
            },
            Op::Return => {
                if self.stack.len() == 0 {
                    Err(Fault::StackUnderflow)
                } else {
                    let a = self.stack.pop().unwrap();
                    self.pc = a;
                    proof {
                        assert(spec_execute(old(self)@, op, 0u8)
                            == Ok::<(MachineView, bool), Fault>((self@, false)));
                    }
                    Ok(false)
                }
            },
            Op::AbsJump(addr) => {
                self.pc = addr;
                proof {
                    assert(spec_execute(old(self)@, op, 0u8) == Ok::<(MachineView, bool), Fault>(
                        (self@, false),
                    ));
                }
                Ok(false)
            },
            Op::Call(addr) => {
                self.stack.push(self.pc);
                self.pc = addr;
                proof {
                    assert(spec_execute(old(self)@, op, 0u8) == Ok::<(MachineView, bool), Fault>(
                        (self@, false),
                    ));
                }
                Ok(false)
            },
            Op::OffsetJump(addr) => {
                self.pc = addr + (self.v[0] as u16);
                proof {
                    assert(spec_execute(old(self)@, op, 0u8) == Ok::<(MachineView, bool), Fault>(
                        (self@, false),
                    ));
                }
                Ok(false)
            },
            Op::SkipEqVal(x, val) => {
                if self.v[x as usize] == val {
                    self.pc = self.pc + 2;
                }
                proof {
                    assert(spec_execute(old(self)@, op, 0u8) == Ok::<(MachineView, bool), Fault>(
                        (self@, false),
                    ));
                }
                Ok(false)
            },
            Op::SkipNeqVal(x, val) => {
                if self.v[x as usize] != val {
                    self.pc = self.pc + 2;
                }
                proof {
                    assert(spec_execute(old(self)@, op, 0u8) == Ok::<(MachineView, bool), Fault>(
                        (self@, false),
                    ));
                }
                Ok(false)
            },
            Op::SkipEqReg(x, y) => {
                if self.v[x as usize] == self.v[y as usize] {
                    self.pc = self.pc + 2;
                }
                proof {
                    assert(spec_execute(old(self)@, op, 0u8) == Ok::<(MachineView, bool), Fault>(
                        (self@, false),
                    ));
                }
                Ok(false)
            },
            Op::SkipNeqReg(x, y) => {
                if self.v[x as usize] != self.v[y as usize] {
                    self.pc = self.pc + 2;
                }
                proof {
                    assert(spec_execute(old(self)@, op, 0u8) == Ok::<(MachineView, bool), Fault>(
                        (self@, false),
                    ));
                }
                Ok(false)
            },
            Op::SetVal(x, val) => {
                self.v.set(x as usize, val);
                proof {
                    assert(spec_execute(old(self)@, op, 0u8) == Ok::<(MachineView, bool), Fault>(
                        (self@, false),
                    ));
                }
                Ok(false)
            },
            Op::AddVal(x, val) => {
                let vx = self.v[x as usize];
                let sum = vx as u16 + val as u16;
                self.v.set(x as usize, (sum % 256) as u8);
                proof {
                    assert(spec_execute(old(self)@, op, 0u8) == Ok::<(MachineView, bool), Fault>(
                        (self@, false),
                    ));
                }
                Ok(false)
            },
            Op::Mov(x, y) => {
                let vy = self.v[y as usize];
                self.v.set(x as usize, vy);
                proof {
                    assert(spec_execute(old(self)@, op, 0u8) == Ok::<(MachineView, bool), Fault>(
                        (self@, false),
                    ));
                }
                Ok(false)
            },
            Op::Or(x, y) => {
                let vx = self.v[x as usize];
                let vy = self.v[y as usize];
                self.v.set(x as usize, vx | vy);
                proof {
                    assert(spec_execute(old(self)@, op, 0u8) == Ok::<(MachineView, bool), Fault>(
                        (self@, false),
                    ));
                }
                Ok(false)
            },
            Op::And(x, y) => {
                let vx = self.v[x as usize];
                let vy = self.v[y as usize];
                self.v.set(x as usize, vx & vy);
                proof {
                    assert(spec_execute(old(self)@, op, 0u8) == Ok::<(MachineView, bool), Fault>(
                        (self@, false),
                    ));
                }
                Ok(false)
            },
            Op::Xor(x, y) => {
                let vx = self.v[x as usize];
                let vy = self.v[y as usize];
                self.v.set(x as usize, vx ^ vy);
                proof {
                    assert(spec_execute(old(self)@, op, 0u8) == Ok::<(MachineView, bool), Fault>(
                        (self@, false),
                    ));
                }
                Ok(false)
            },
            Op::Add(x, y) => {
                let vx = self.v[x as usize];
                let vy = self.v[y as usize];
                let sum = vx as u16 + vy as u16;
                let flag: u8 = if sum > 255 {
                    1
                } else {
                    0
                };
                self.v.set(15, flag);
                self.v.set(x as usize, (sum % 256) as u8);
                proof {
                    assert(spec_execute(old(self)@, op, 0u8) == Ok::<(MachineView, bool), Fault>(
                        (self@, false),
                    ));
                }
                Ok(false)
            },
            Op::Sub(x, y) => {
                let vx = self.v[x as usize];
                let vy = self.v[y as usize];
                let flag: u8 = if vx < vy {
                    1
                } else {
                    0
                };
                let result: u8 = if vx >= vy {
                    vx - vy
                } else {
                    ((vx as u16 + 256) - vy as u16) as u8
                };
                self.v.set(15, flag);
                self.v.set(x as usize, result);
                proof {
                    assert(result == wrap_sub(vx, vy));
                    assert(spec_execute(old(self)@, op, 0u8) == Ok::<(MachineView, bool), Fault>(
                        (self@, false),
                    ));
                }
                Ok(false)
            },
            Op::SubN(x, y) => {
                let vx = self.v[x as usize];
                let vy = self.v[y as usize];
                let flag: u8 = if vy < vx {
                    1
                } else {
                    0
                };
                let result: u8 = if vy >= vx {
                    vy - vx
                } else {
                    ((vy as u16 + 256) - vx as u16) as u8
                };
                self.v.set(15, flag);
                self.v.set(x as usize, result);
                proof {
                    assert(result == wrap_sub(vy, vx));
                    assert(spec_execute(old(self)@, op, 0u8) == Ok::<(MachineView, bool), Fault>(
                        (self@, false),
                    ));
                }
                Ok(false)
            },
            Op::Shr(x, y) => {
                let vy = self.v[y as usize];
                self.v.set(x as usize, vy);
                let flag = self.v[x as usize] & 1;
                self.v.set(15, flag);
                let cur = self.v[x as usize];
                self.v.set(x as usize, cur >> 1u8);
                proof {
                    assert(spec_execute(old(self)@, op, 0u8) == Ok::<(MachineView, bool), Fault>(
                        (self@, false),
                    ));
                }
                Ok(false)
            },
            Op::Shl(x, y) => {
                let vy = self.v[y as usize];
                self.v.set(x as usize, vy);
                let flag = self.v[x as usize] & 0x80;
                self.v.set(15, flag);
                let cur = self.v[x as usize];
                self.v.set(x as usize, cur << 1u8);
                proof {
                    assert(spec_execute(old(self)@, op, 0u8) == Ok::<(MachineView, bool), Fault>(
                        (self@, false),
                    ));
                }
                Ok(false)
            },
            Op::SetIndex(addr) => {
                self.ireg = addr;
                proof {
                    assert(spec_execute(old(self)@, op, 0u8) == Ok::<(MachineView, bool), Fault>(
                        (self@, false),
                    ));
                }
                Ok(false)
            },
            Op::Rand(x, val) => {
                let b = random_byte();
                self.v.set(x as usize, b & val);
                proof {
                    assert(spec_execute(old(self)@, op, b) == Ok::<(MachineView, bool), Fault>(
                        (self@, false),
                    ));
                }
                Ok(false)
            },
            Op::Draw(x, y, n) => {
                let h = n as usize;
                let base = self.ireg as usize;
                if base + h > 4096 {
                    Err(Fault::OutOfBounds)
                } else {
                    let mut sprite: Vec<u8> = Vec::new();
                    let mut k: usize = 0;
                    while k < h
                        invariant
                            k <= h,
                            base + h <= 4096,
                            base == old(self).ireg as usize,
                            h == n as usize,
                            *self == *old(self),
                            old(self).wf(),
                            sprite@.len() == k,
                            forall|j: int| 0 <= j < k ==> sprite@[j] == self.mem@[base + j],
                        decreases h - k,
                    {
                        let byte = self.mem[base + k];
                        sprite.push(byte);
                        k = k + 1;
                    }
                    let vx = self.v[x as usize];
                    let vy = self.v[y as usize];
                    let sx = (vx & 63) as usize;
                    let sy = (vy & 31) as usize;
                    proof {
                        assert((vx & 63) < 64 && (vx & 63) == vx % 64) by (bit_vector);
                        assert((vy & 31) < 32 && (vy & 31) == vy % 32) by (bit_vector);
                        assert(sprite@ =~= old(self)@.mem.subrange(
                            base as int,
                            base as int + h as int,
                        ));
                    }
                    let collision = self.screen.blit(&sprite, sx, sy);
                    let flag: u8 = if collision {
                        1
                    } else {
                        0
                    };
                    self.v.set(15, flag);
                    proof {
                        assert(spec_execute(old(self)@, op, 0u8)
                            == Ok::<(MachineView, bool), Fault>((self@, true)));
                    }
                    Ok(true)
                }
            },
            Op::SkipKey(_) | Op::SkipNoKey(_) | Op::GetKey(_) | Op::GetDelay(_) | Op::SetDelay(_)
                | Op::SetSoundTimer(_) | Op::IncrIndex(_) | Op::SetSpriteI(_)
                | Op::DecimalRepr(_) | Op::DumpRegisters(_) | Op::LoadRegisters(_)
                | Op::Unknown(_) => Err(Fault::Unimplemented(op)),
        }
    }

    /// One full cycle: fetch the word at the program counter, advance the
    /// counter past it, decode, execute. Exactly [`spec_tick`], up to the
    /// byte a `Rand` instruction draws.
    pub fn tick(&mut self) -> (r: Result<bool, Fault>)
        requires
            old(self).wf(),
        ensures
            final(self).wf(),
            (match r {
                Ok(flush) => exists|b: u8|
                    spec_tick(old(self)@, b) == Ok::<(MachineView, bool), Fault>(
                        (final(self)@, flush),
                    ),
                Err(e) => spec_tick(old(self)@, 0u8) == Err::<(MachineView, bool), Fault>(e) && (
                forall|b: u8|
                    spec_tick(old(self)@, b) == Err::<(MachineView, bool), Fault>(e)) && (
                if old(self)@.pc + 1 < 4096 {
                    final(self)@ == (MachineView { pc: (old(self)@.pc + 2) as u16, ..old(self)@ })
                } else {
                    final(self)@ == old(self)@
                }),
            }),
    {
        if self.pc >= 4095 {
            return Err(Fault::OutOfBounds);
        }
        let pc = self.pc as usize;
        let hi = self.mem[pc];
        let lo = self.mem[pc + 1];
        let w = (hi as u16) * 256 + (lo as u16);
        self.pc = self.pc + 2;
        let ghost mid = self@;
        let op = decode(w);
        let r = self.execute(op);
        proof {
            let pre = old(self)@;
            assert(mid == (MachineView { pc: (pre.pc + 2) as u16, ..pre }));
            assert(w == spec_fetch_word(pre.mem, pre.pc as int));
            match r {
                Ok(flush) => {
                    let b = choose|b: u8|
                        spec_execute(mid, op, b) == Ok::<(MachineView, bool), Fault>((self@, flush));
                    assert(spec_tick(pre, b) == Ok::<(MachineView, bool), Fault>((self@, flush)));
                },
                Err(e) => {
                    assert forall|b: u8|
                        spec_tick(pre, b) == Err::<(MachineView, bool), Fault>(e) by {
                        assert(spec_execute(mid, op, b) == Err::<(MachineView, bool), Fault>(e));
                    }
                },
            }
        }
        r
    }
}

} // verus!
