//! The execution engine: all machine state, and the per-cycle
//! fetch-decode-execute transition over it.

pub mod instruction;
pub mod laws;

use vstd::prelude::*;

verus! {

/// One fault per unrecoverable condition the engine can meet: an
/// unrecognized opcode word (carried for diagnostics), a call on a full
/// stack, a return on an empty stack, and a memory access outside the
/// 4096-byte address space through the program counter or index register.
#[derive(Clone, Copy, Debug, PartialEq, Eq, Structural)]
pub enum Fault {
    DecodeError(u16),
    StackOverflow,
    StackUnderflow,
    MemoryBounds,
}

impl Fault {
    /// A descriptive cause for the host's diagnostics.
    pub fn describe(&self) -> (r: &'static str)
        ensures
            r@ == match *self {
                Fault::DecodeError(_) => "opcode not found"@,
                Fault::StackOverflow => "stack overflow"@,
                Fault::StackUnderflow => "stack underflow"@,
                Fault::MemoryBounds => "memory access out of bounds"@,
            },
    {
        match *self {
            Fault::DecodeError(_) => "opcode not found",
            Fault::StackOverflow => "stack overflow",
            Fault::StackUnderflow => "stack underflow",
            Fault::MemoryBounds => "memory access out of bounds",
        }
    }
}

/// The machine state as mathematics: every CPU field as a sequence or a
/// plain value. Contracts and proofs speak of this view.
#[verifier::ext_equal]
pub struct State {
    pub v: Seq<u8>,
    pub i: u16,
    pub pc: u16,
    pub opcode: u16,
    pub memory: Seq<u8>,
    pub gfx: Seq<u8>,
    pub delay_timer: u16,
    pub sound_timer: u16,
    pub stack: Seq<u16>,
    pub sp: u16,
    pub key: Seq<u16>,
    pub waiting_key: Option<u8>,
    pub rng_state: u16,
}

impl State {
    /// The machine invariant: fixed component sizes, a stack pointer within
    /// the 16-entry stack, timers in 8-bit range, framebuffer cells 0 or 1,
    /// and a valid register index while blocked on a key.
    pub open spec fn wf(self) -> bool {
        &&& self.v.len() == 16
        &&& self.memory.len() == 4096
        &&& self.gfx.len() == 2048
        &&& self.stack.len() == 16
        &&& self.key.len() == 16
        &&& self.sp <= 16
        &&& self.delay_timer <= 255
        &&& self.sound_timer <= 255
        &&& (forall|p: int| 0 <= p < 2048 ==> self.gfx[p] <= 1)
        &&& (self.waiting_key matches Some(x) ==> x < 16)
    }
}

/// The CHIP-8 machine: 16 8-bit registers (V15 doubles as the flag
/// register), a 16-bit index register and program counter, the last fetched
/// opcode word, 4096 bytes of memory, a 64x32 one-byte-per-pixel
/// framebuffer, two countdown timers, a 16-entry call stack, the key-state
/// vector the input collaborator fills in, the register index of a pending
/// block-on-key, and the state of the pseudo-random byte generator.
pub struct CPU {
    pub v: [u8; 16],
    pub i: u16,
    pub pc: u16,
    pub opcode: u16,
    pub memory: [u8; 4096],
    pub gfx: [u8; 2048],
    pub delay_timer: u16,
    pub sound_timer: u16,
    pub stack: [u16; 16],
    pub sp: u16,
    pub key: [u16; 16],
    pub waiting_key: Option<u8>,
    pub rng_state: u16,
}

impl View for CPU {
    type V = State;

    open spec fn view(&self) -> State {
        State {
            v: self.v@,
            i: self.i,
            pc: self.pc,
            opcode: self.opcode,
            memory: self.memory@,
            gfx: self.gfx@,
            delay_timer: self.delay_timer,
            sound_timer: self.sound_timer,
            stack: self.stack@,
            sp: self.sp,
            key: self.key@,
            waiting_key: self.waiting_key,
            rng_state: self.rng_state,
        }
    }
}

/// The state a machine starts from: everything zero but the program
/// counter, which points at the start of the program area.
pub open spec fn init_state() -> State {
    State {
        v: Seq::new(16, |j: int| 0u8),
        i: 0,
        pc: 0x200,
        opcode: 0,
        memory: Seq::new(4096, |j: int| 0u8),
        gfx: Seq::new(2048, |j: int| 0u8),
        delay_timer: 0,
        sound_timer: 0,
        stack: Seq::new(16, |j: int| 0u16),
        sp: 0,
        key: Seq::new(16, |j: int| 0u16),
        waiting_key: None,
        rng_state: 0,
    }
}

impl Default for CPU {
    /// A machine at power-on, with the program counter at 0x200.
    fn default() -> (c: CPU)
        ensures
            c@ == init_state(),
            c@.wf(),
    {
        let c = CPU {
            v: [0; 16],
            i: 0,
            pc: 0x200,
            opcode: 0,
            memory: [0; 4096],
            gfx: [0; 2048],
            delay_timer: 0,
            sound_timer: 0,
            stack: [0; 16],
            sp: 0,
            key: [0; 16],
            waiting_key: None,
            rng_state: 0,
        };
        proof {
            assert(c@.v =~= init_state().v);
            assert(c@.memory =~= init_state().memory);
            assert(c@.gfx =~= init_state().gfx);
            assert(c@.stack =~= init_state().stack);
            assert(c@.key =~= init_state().key);
            assert(c@ =~= init_state());
        }
        c
    }
}

/// The big-endian 16-bit word at two consecutive memory bytes.
pub open spec fn word_at(memory: Seq<u8>, index: int) -> u16 {
    (memory[index] as u16) << 8 | (memory[index + 1] as u16)
}

/// Fetch a single word from memory by fetching a byte at an index, fetching
/// the next byte, and ORing the results after a bit shift.
pub fn read_word(memory: [u8; 4096], index: u16) -> (r: u16)
    requires
        index < 4095,
    ensures
        r == word_at(memory@, index as int),
{
    (memory[index as usize] as u16) << 8 | (memory[index as usize + 1] as u16)
}

/// Flip a framebuffer cell: the effect of XORing a set sprite bit onto it.
pub open spec fn toggle(b: u8) -> u8 {
    if b == 1 {
        0
    } else {
        1
    }
}

/// Bit `c` of a sprite row, counted from the left: bit 0 is the most
/// significant, landing on the leftmost of the row's 8 pixels.
pub open spec fn sprite_bit(row: u8, c: int) -> u8 {
    (row >> ((7 - c) as u8)) & 1
}

/// Where bit `c` of a sprite row starting at column `x0` lands: columns wrap
/// around the 64-pixel row.
pub open spec fn wrap_x(x0: int, c: int) -> int {
    if x0 + c < 64 {
        x0 + c
    } else {
        x0 + c - 64
    }
}

/// Does the draw toggle pixel `p`, counting only sprite rows before `rl`,
/// plus row `rl`'s bits before `cl`? A pixel is toggled when the one sprite
/// bit that can land on it — row `py - y0`, column `px - x0` modulo 64 — is
/// inside the sprite and set. Rows that would leave the bottom of the screen
/// land on no pixel at all: vertical clipping.
pub open spec fn hit_upto(mem: Seq<u8>, i: int, x0: int, y0: int, p: int, rl: int, cl: int) -> bool {
    let py = p / 64;
    let px = p % 64;
    let r = py - y0;
    let c = if px >= x0 {
        px - x0
    } else {
        px + 64 - x0
    };
    &&& 0 <= r
    &&& (r < rl || (r == rl && c < cl))
    &&& py < 32
    &&& 0 <= c < 8
    &&& sprite_bit(mem[i + r], c) == 1
}

/// Does drawing the whole `n`-row sprite toggle pixel `p`?
pub open spec fn draw_hit(mem: Seq<u8>, i: int, x0: int, y0: int, n: int, p: int) -> bool {
    hit_upto(mem, i, x0, y0, p, n, 0)
}

/// The framebuffer after a draw: every hit pixel toggled, every other pixel
/// untouched.
pub open spec fn draw_gfx(gfx: Seq<u8>, mem: Seq<u8>, i: int, x0: int, y0: int, n: int) -> Seq<
    u8,
> {
    Seq::new(2048, |p: int|
        if draw_hit(mem, i, x0, y0, n, p) {
            toggle(gfx[p])
        } else {
            gfx[p]
        })
}

/// Did a set sprite bit land on an already-on pixel, counting the same
/// partial range as `hit_upto`? Such a pixel transitions on to off.
pub open spec fn coll_upto(gfx: Seq<u8>, mem: Seq<u8>, i: int, x0: int, y0: int, rl: int, cl: int) -> bool {
    exists|p: int| 0 <= p < 2048 && #[trigger] hit_upto(mem, i, x0, y0, p, rl, cl) && gfx[p] == 1
}

/// The draw instruction's collision flag: 1 exactly when some pixel
/// transitioned from on to off.
pub open spec fn draw_collision(gfx: Seq<u8>, mem: Seq<u8>, i: int, x0: int, y0: int, n: int) -> bool {
    coll_upto(gfx, mem, i, x0, y0, n, 0)
}

/// One step of the pseudo-random byte generator: a linear congruential
/// generator over 16 bits.
pub open spec fn rng_next(s: u16) -> u16 {
    (((s as int) * 25173 + 13849) % 65536) as u16
}

/// The lowest pressed key in the key vector, or 16 when none is pressed,
/// scanning from index `k`.
pub open spec fn first_key_from(key: Seq<u16>, k: int) -> int
    decreases 16 - k,
{
    if k < 0 || k >= 16 {
        16
    } else if key[k] != 0 {
        k
    } else {
        first_key_from(key, k + 1)
    }
}

/// The fault an operation meets in a given state, if any: a return on an
/// empty stack, a call on a full one, or a memory access through the index
/// register that would run past the 4096-byte address space.
pub open spec fn op_fault(pre: State, op: instruction::Op) -> Option<Fault> {
    match op {
        instruction::Op::Return => if pre.sp == 0 {
            Some(Fault::StackUnderflow)
        } else {
            None
        },
        instruction::Op::Call { nnn } => if pre.sp >= 16 {
            Some(Fault::StackOverflow)
        } else {
            None
        },
        instruction::Op::Draw { x, y, n } => if pre.i as int + n as int > 4096 {
            Some(Fault::MemoryBounds)
        } else {
            None
        },
        instruction::Op::StoreDigits { x } => if pre.i as int + 3 > 4096 {
            Some(Fault::MemoryBounds)
        } else {
            None
        },
        instruction::Op::StoreRegs { x } => if pre.i as int + x as int + 1 > 4096 {
            Some(Fault::MemoryBounds)
        } else {
            None
        },
        instruction::Op::LoadRegs { x } => if pre.i as int + x as int + 1 > 4096 {
            Some(Fault::MemoryBounds)
        } else {
            None
        },
        _ => None,
    }
}

/// The effect of one fault-free operation on the machine state. The program
/// counter the operation sees has already been advanced past it by the
/// fetch, so a skip adds a further 2 and a call pushes the address of the
/// next instruction.
pub open spec fn apply_op(pre: State, op: instruction::Op) -> State {
    match op {
        instruction::Op::Nop => pre,
        instruction::Op::ClearScreen => State { gfx: Seq::new(2048, |j: int| 0u8), ..pre },
        instruction::Op::Return => State {
            sp: (pre.sp - 1) as u16,
            pc: pre.stack[pre.sp - 1],
            ..pre
        },
        instruction::Op::Jump { nnn } => State { pc: nnn, ..pre },
        instruction::Op::Call { nnn } => State {
            stack: pre.stack.update(pre.sp as int, pre.pc),
            sp: (pre.sp + 1) as u16,
            pc: nnn,
            ..pre
        },
        instruction::Op::SkipEqImm { x, nn } => State {
            pc: if pre.v[x as int] == nn {
                (pre.pc + 2) as u16
            } else {
                pre.pc
            },
            ..pre
        },
        instruction::Op::SkipNeImm { x, nn } => State {
            pc: if pre.v[x as int] != nn {
                (pre.pc + 2) as u16
            } else {
                pre.pc
            },
            ..pre
        },
        instruction::Op::SkipEqReg { x, y } => State {
            pc: if pre.v[x as int] == pre.v[y as int] {
                (pre.pc + 2) as u16
            } else {
                pre.pc
            },
            ..pre
        },
        instruction::Op::SetImm { x, nn } => State { v: pre.v.update(x as int, nn), ..pre },
        instruction::Op::AddImm { x, nn } => State {
            v: pre.v.update(x as int, ((pre.v[x as int] as int + nn as int) % 256) as u8),
            ..pre
        },
        instruction::Op::CopyReg { x, y } => State {
            v: pre.v.update(x as int, pre.v[y as int]),
            ..pre
        },
        instruction::Op::OrReg { x, y } => State {
            v: pre.v.update(x as int, pre.v[x as int] | pre.v[y as int]),
            ..pre
        },
        instruction::Op::AndReg { x, y } => State {
            v: pre.v.update(x as int, pre.v[x as int] & pre.v[y as int]),
            ..pre
        },
        instruction::Op::XorReg { x, y } => State {
            v: pre.v.update(x as int, pre.v[x as int] ^ pre.v[y as int]),
            ..pre
        },
        instruction::Op::AddReg { x, y } => {
            let sum = pre.v[x as int] as int + pre.v[y as int] as int;
            State {
                v: pre.v.update(x as int, (sum % 256) as u8).update(15, if sum > 255 {
                    1u8
                } else {
                    0u8
                }),
                ..pre
            }
        },
        instruction::Op::SubReg { x, y } => State {
            v: pre.v.update(
                x as int,
                ((pre.v[x as int] as int + 256 - pre.v[y as int] as int) % 256) as u8,
            ).update(15, if pre.v[x as int] >= pre.v[y as int] {
                1u8
            } else {
                0u8
            }),
            ..pre
        },
        instruction::Op::ShrReg { x } => State {
            v: pre.v.update(x as int, pre.v[x as int] >> 1u8).update(15, pre.v[x as int] & 1),
            ..pre
        },
        instruction::Op::SubFrom { x, y } => State {
            v: pre.v.update(
                x as int,
                ((pre.v[y as int] as int + 256 - pre.v[x as int] as int) % 256) as u8,
            ).update(15, if pre.v[y as int] >= pre.v[x as int] {
                1u8
            } else {
                0u8
            }),
            ..pre
        },
        instruction::Op::ShlReg { x } => State {
            v: pre.v.update(x as int, pre.v[x as int] << 1u8).update(15, pre.v[x as int] >> 7u8),
            ..pre
        },
        instruction::Op::SkipNeReg { x, y } => State {
            pc: if pre.v[x as int] != pre.v[y as int] {
                (pre.pc + 2) as u16
            } else {
                pre.pc
            },
            ..pre
        },
        instruction::Op::SetIndex { nnn } => State { i: nnn, ..pre },
        instruction::Op::JumpPlusV0 { nnn } => State {
            pc: (nnn + pre.v[0] as u16) as u16,
            ..pre
        },
        instruction::Op::RandMask { x, nn } => {
            let next = rng_next(pre.rng_state);
            State {
                rng_state: next,
                v: pre.v.update(x as int, ((next >> 8u16) as u8) & nn),
                ..pre
            }
        },
        instruction::Op::Draw { x, y, n } => {
            let x0 = (pre.v[x as int] % 64) as int;
            let y0 = (pre.v[y as int] % 32) as int;
            State {
                gfx: draw_gfx(pre.gfx, pre.memory, pre.i as int, x0, y0, n as int),
                v: pre.v.update(15, if draw_collision(
                    pre.gfx,
                    pre.memory,
                    pre.i as int,
                    x0,
                    y0,
                    n as int,
                ) {
                    1u8
                } else {
                    0u8
                }),
                ..pre
            }
        },
        instruction::Op::SkipIfKey { x } => State {
            pc: if pre.key[(pre.v[x as int] & 0xF) as int] != 0 {
                (pre.pc + 2) as u16
            } else {
                pre.pc
            },
            ..pre
        },
        instruction::Op::SkipIfNoKey { x } => State {
            pc: if pre.key[(pre.v[x as int] & 0xF) as int] == 0 {
                (pre.pc + 2) as u16
            } else {
                pre.pc
            },
            ..pre
        },
        instruction::Op::ReadDelay { x } => State {
            v: pre.v.update(x as int, pre.delay_timer as u8),
            ..pre
        },
        instruction::Op::WaitKey { x } => State { waiting_key: Some(x), ..pre },
        instruction::Op::SetDelay { x } => State { delay_timer: pre.v[x as int] as u16, ..pre },
        instruction::Op::SetSound { x } => State { sound_timer: pre.v[x as int] as u16, ..pre },
        instruction::Op::AddIndex { x } => {
            let sum = pre.i as int + pre.v[x as int] as int;
            State {
                i: (sum % 65536) as u16,
                v: pre.v.update(15, if sum > 0xFFF {
                    1u8
                } else {
                    0u8
                }),
                ..pre
            }
        },
        instruction::Op::FontIndex { x } => State {
            i: (0x50 + 5 * ((pre.v[x as int] & 0xF) as int)) as u16,
            ..pre
        },
        instruction::Op::StoreDigits { x } => {
            let val = pre.v[x as int];
            State {
                memory: pre.memory.update(pre.i as int, val / 100).update(
                    pre.i as int + 1,
                    (val / 10) % 10,
                ).update(pre.i as int + 2, val % 10),
                ..pre
            }
        },
        instruction::Op::StoreRegs { x } => State {
            memory: Seq::new(4096, |j: int|
                if pre.i as int <= j < pre.i as int + x as int + 1 {
                    pre.v[j - pre.i as int]
                } else {
                    pre.memory[j]
                }),
            ..pre
        },
        instruction::Op::LoadRegs { x } => State {
            v: Seq::new(16, |j: int|
                if 0 <= j < x as int + 1 {
                    pre.memory[pre.i as int + j]
                } else {
                    pre.v[j]
                }),
            ..pre
        },
    }
}

/// One whole cycle as a mathematical function of the pre-state: the new
/// state and what the cycle reports. While blocked on a key the cycle only
/// watches the key vector; otherwise a program counter at or past 4096
/// halts, an odd counter at 4095 cannot fetch a whole word, and any other
/// counter fetches, decodes and executes one instruction, advancing the
/// counter by 2 before the effect is applied.
pub open spec fn cycle_spec(pre: State) -> (State, Result<bool, Fault>) {
    match pre.waiting_key {
        Some(x) => {
            let k = first_key_from(pre.key, 0);
            if k < 16 {
                (State { v: pre.v.update(x as int, k as u8), waiting_key: None, ..pre }, Ok(false))
            } else {
                (pre, Ok(false))
            }
        },
        None => {
            if pre.pc >= 4096 {
                (pre, Ok(true))
            } else if pre.pc == 4095 {
                (pre, Err(Fault::MemoryBounds))
            } else {
                let w = word_at(pre.memory, pre.pc as int);
                let fetched = State { opcode: w, pc: (pre.pc + 2) as u16, ..pre };
                match instruction::spec_decode(w) {
                    None => (fetched, Err(Fault::DecodeError(w))),
                    Some(op) => match op_fault(fetched, op) {
                        Some(f) => (fetched, Err(f)),
                        None => (apply_op(fetched, op), Ok(false)),
                    },
                }
            }
        },
    }
}

/// The two states agree on everything but the framebuffer.
pub open spec fn same_but_gfx(a: State, b: State) -> bool {
    &&& b.v == a.v
    &&& b.i == a.i
    &&& b.pc == a.pc
    &&& b.opcode == a.opcode
    &&& b.memory == a.memory
    &&& b.delay_timer == a.delay_timer
    &&& b.sound_timer == a.sound_timer
    &&& b.stack == a.stack
    &&& b.sp == a.sp
    &&& b.key == a.key
    &&& b.waiting_key == a.waiting_key
    &&& b.rng_state == a.rng_state
}

/// The two states agree on everything but memory.
pub open spec fn same_but_memory(a: State, b: State) -> bool {
    &&& b.v == a.v
    &&& b.i == a.i
    &&& b.pc == a.pc
    &&& b.opcode == a.opcode
    &&& b.gfx == a.gfx
    &&& b.delay_timer == a.delay_timer
    &&& b.sound_timer == a.sound_timer
    &&& b.stack == a.stack
    &&& b.sp == a.sp
    &&& b.key == a.key
    &&& b.waiting_key == a.waiting_key
    &&& b.rng_state == a.rng_state
}

/// The two states agree on everything but the general-purpose registers.
pub open spec fn same_but_v(a: State, b: State) -> bool {
    &&& b.i == a.i
    &&& b.pc == a.pc
    &&& b.opcode == a.opcode
    &&& b.memory == a.memory
    &&& b.gfx == a.gfx
    &&& b.delay_timer == a.delay_timer
    &&& b.sound_timer == a.sound_timer
    &&& b.stack == a.stack
    &&& b.sp == a.sp
    &&& b.key == a.key
    &&& b.waiting_key == a.waiting_key
    &&& b.rng_state == a.rng_state
}

/// The low nibble of a byte selects one of 16 values.
proof fn lemma_low_nibble(b: u8)
    ensures
        (b & 0xF) < 16,
{
    assert((b & 0xF) < 16) by (bit_vector);
}

/// A key scan that saw only released keys up to `b` finds its first pressed
/// key at or past `b`.
proof fn lemma_first_key_skip(key: Seq<u16>, a: int, b: int)
    requires
        0 <= a <= b <= 16,
        forall|j: int| a <= j < b ==> key[j] == 0,
    ensures
        first_key_from(key, a) == first_key_from(key, b),
    decreases b - a,
{
    if a < b {
        lemma_first_key_skip(key, a + 1, b);
    }
}

/// Row and column of a pixel index are recovered by division: the draw
/// specification reads them back out of `py * 64 + px`.
proof fn lemma_pixel_recover(py: int, px: int)
    requires
        0 <= py < 32,
        0 <= px < 64,
    ensures
        (py * 64 + px) / 64 == py,
        (py * 64 + px) % 64 == px,
{
    vstd::arithmetic::div_mod::lemma_fundamental_div_mod_converse(py * 64 + px, 64, py, px);
}

impl CPU {
    /// Apply one decoded, fault-free operation to the machine state exactly
    /// as `apply_op` says; on a fault, report it and touch nothing.
    /// The program counter must already have been advanced past the
    /// instruction, as the per-cycle protocol does before executing.
    #[verifier::rlimit(60)]
    pub fn execute(&mut self, op: instruction::Op) -> (r: Result<(), Fault>)
        requires
            old(self)@.wf(),
            instruction::op_wf(op),
            old(self).pc <= 0xFFFD,
        ensures
            op_fault(old(self)@, op) matches Some(f) ==> r == Err::<(), Fault>(f) && *final(self)
                == *old(self),
            op_fault(old(self)@, op) is None ==> r == Ok::<(), Fault>(()) && final(self)@
                == apply_op(old(self)@, op),
            final(self)@.wf(),
    {
        match op {
            instruction::Op::Nop => Ok(()),
            instruction::Op::ClearScreen => {
                self.clear_gfx();
                Ok(())
            },
            instruction::Op::Return => {
                if self.sp == 0 {
                    return Err(Fault::StackUnderflow);
                }
                self.sp = self.sp - 1;
                self.pc = self.stack[self.sp as usize];
                Ok(())
            },
            instruction::Op::Jump { nnn } => {
                self.pc = nnn;
                Ok(())
            },
            instruction::Op::Call { nnn } => {
                if self.sp >= 16 {
                    return Err(Fault::StackOverflow);
                }
                self.stack[self.sp as usize] = self.pc;
                self.sp = self.sp + 1;
                self.pc = nnn;
                Ok(())
            },
            instruction::Op::SkipEqImm { x, nn } => {
                if self.v[x as usize] == nn {
                    self.pc = self.pc + 2;
                }
                Ok(())
            },
            instruction::Op::SkipNeImm { x, nn } => {
                if self.v[x as usize] != nn {
                    self.pc = self.pc + 2;
                }
                Ok(())
            },
            instruction::Op::SkipEqReg { x, y } => {
                if self.v[x as usize] == self.v[y as usize] {
                    self.pc = self.pc + 2;
                }
                Ok(())
            },
            instruction::Op::SetImm { x, nn } => {
                self.v[x as usize] = nn;
                Ok(())
            },
            instruction::Op::AddImm { x, nn } => {
                let sum: u16 = self.v[x as usize] as u16 + nn as u16;
                self.v[x as usize] = (sum % 256) as u8;
                Ok(())
            },
            instruction::Op::CopyReg { x, y } => {
                self.v[x as usize] = self.v[y as usize];
                Ok(())
            },
            instruction::Op::OrReg { x, y } => {
                self.v[x as usize] = self.v[x as usize] | self.v[y as usize];
                Ok(())
            },
            instruction::Op::AndReg { x, y } => {
                self.v[x as usize] = self.v[x as usize] & self.v[y as usize];
                Ok(())
            },
            instruction::Op::XorReg { x, y } => {
                self.v[x as usize] = self.v[x as usize] ^ self.v[y as usize];
                Ok(())
            },
            instruction::Op::AddReg { x, y } => {
                let sum: u16 = self.v[x as usize] as u16 + self.v[y as usize] as u16;
                self.v[x as usize] = (sum % 256) as u8;
                self.v[15] = if sum > 255 {
                    1
                } else {
                    0
                };
                Ok(())
            },
            instruction::Op::SubReg { x, y } => {
                let vx = self.v[x as usize];
                let vy = self.v[y as usize];
                self.v[x as usize] = ((vx as u16 + 256 - vy as u16) % 256) as u8;
                self.v[15] = if vx >= vy {
                    1
                } else {
                    0
                };
                Ok(())
            },
            instruction::Op::ShrReg { x } => {
                let vx = self.v[x as usize];
                self.v[x as usize] = vx >> 1u8;
                self.v[15] = vx & 1;
                Ok(())
            },
            instruction::Op::SubFrom { x, y } => {
                let vx = self.v[x as usize];
                let vy = self.v[y as usize];
                self.v[x as usize] = ((vy as u16 + 256 - vx as u16) % 256) as u8;
                self.v[15] = if vy >= vx {
                    1
                } else {
                    0
                };
                Ok(())
            },
            instruction::Op::ShlReg { x } => {
                let vx = self.v[x as usize];
                self.v[x as usize] = vx << 1u8;
                self.v[15] = vx >> 7u8;
                Ok(())
            },
            instruction::Op::SkipNeReg { x, y } => {
                if self.v[x as usize] != self.v[y as usize] {
                    self.pc = self.pc + 2;
                }
                Ok(())
            },
            instruction::Op::SetIndex { nnn } => {
                self.i = nnn;
                Ok(())
            },
            instruction::Op::JumpPlusV0 { nnn } => {
                self.pc = nnn + self.v[0] as u16;
                Ok(())
            },
            instruction::Op::RandMask { x, nn } => {
                let next: u16 = (((self.rng_state as u32) * 25173 + 13849) % 65536) as u16;
                self.rng_state = next;
                self.v[x as usize] = ((next >> 8u16) as u8) & nn;
                Ok(())
            },
            instruction::Op::Draw { x, y, n } => self.op_draw(x, y, n),
            instruction::Op::SkipIfKey { x } => {
                proof {
                    lemma_low_nibble(old(self)@.v[x as int]);
                }
                let kk = (self.v[x as usize] & 0xF) as usize;
                if self.key[kk] != 0 {
                    self.pc = self.pc + 2;
                }
                Ok(())
            },
            instruction::Op::SkipIfNoKey { x } => {
                proof {
                    lemma_low_nibble(old(self)@.v[x as int]);
                }
                let kk = (self.v[x as usize] & 0xF) as usize;
                if self.key[kk] == 0 {
                    self.pc = self.pc + 2;
                }
                Ok(())
            },
            instruction::Op::ReadDelay { x } => {
                self.v[x as usize] = self.delay_timer as u8;
                Ok(())
            },
            instruction::Op::WaitKey { x } => {
                self.waiting_key = Some(x);
                Ok(())
            },
            instruction::Op::SetDelay { x } => {
                self.delay_timer = self.v[x as usize] as u16;
                Ok(())
            },
            instruction::Op::SetSound { x } => {
                self.sound_timer = self.v[x as usize] as u16;
                Ok(())
            },
            instruction::Op::AddIndex { x } => {
                let sum: u32 = self.i as u32 + self.v[x as usize] as u32;
                self.i = (sum % 65536) as u16;
                self.v[15] = if sum > 0xFFF {
                    1
                } else {
                    0
                };
                Ok(())
            },
            instruction::Op::FontIndex { x } => {
                self.i = 0x50u16 + 5u16 * ((self.v[x as usize] & 0xF) as u16);
                Ok(())
            },
            instruction::Op::StoreDigits { x } => {
                if self.i as usize + 3 > 4096 {
                    return Err(Fault::MemoryBounds);
                }
                let base = self.i as usize;
                let val = self.v[x as usize];
                self.memory[base] = val / 100;
                self.memory[base + 1] = (val / 10) % 10;
                self.memory[base + 2] = val % 10;
                Ok(())
            },
            instruction::Op::StoreRegs { x } => self.op_store_regs(x),
            instruction::Op::LoadRegs { x } => self.op_load_regs(x),
        }
    }

    /// Set every framebuffer cell to off.
    fn clear_gfx(&mut self)
        ensures
            final(self)@ == (State { gfx: Seq::new(2048, |j: int| 0u8), ..old(self)@ }),
    {
        let mut p: usize = 0;
        while p < 2048
            invariant
                p <= 2048,
                same_but_gfx(old(self)@, self@),
                forall|j: int| 0 <= j < p ==> self.gfx@[j] == 0,
            decreases 2048 - p,
        {
            self.gfx[p] = 0;
            p = p + 1;
        }
        proof {
            assert(self@.gfx =~= Seq::new(2048, |j: int| 0u8));
            assert(self@ =~= (State { gfx: Seq::new(2048, |j: int| 0u8), ..old(self)@ }));
        }
    }

    /// Write V[0..=X] to memory starting at the index register, which is
    /// left unmodified; fault when that would run past the address space.
    fn op_store_regs(&mut self, x: u8) -> (r: Result<(), Fault>)
        requires
            old(self)@.wf(),
            x < 16,
        ensures
            op_fault(old(self)@, instruction::Op::StoreRegs { x }) matches Some(f) ==> r
                == Err::<(), Fault>(f) && *final(self) == *old(self),
            op_fault(old(self)@, instruction::Op::StoreRegs { x }) is None ==> r
                == Ok::<(), Fault>(()) && final(self)@ == apply_op(
                old(self)@,
                instruction::Op::StoreRegs { x },
            ),
            final(self)@.wf(),
    {
        let base = self.i as usize;
        if base + (x as usize) + 1 > 4096 {
            return Err(Fault::MemoryBounds);
        }
        let mut t: usize = 0;
        while t < x as usize + 1
            invariant
                t <= x as usize + 1,
                x < 16,
                base == old(self).i as int,
                base + x as int + 1 <= 4096,
                same_but_memory(old(self)@, self@),
                forall|j: int| base <= j < base + t ==> self.memory@[j] == old(self)@.v[j - base],
                forall|j: int|
                    0 <= j < 4096 && !(base <= j < base + t) ==> self.memory@[j] == old(
                        self,
                    )@.memory[j],
            decreases x as usize + 1 - t,
        {
            self.memory[base + t] = self.v[t];
            t = t + 1;
        }
        proof {
            assert(self@.memory =~= Seq::new(4096, |j: int|
                if old(self)@.i as int <= j < old(self)@.i as int + x as int + 1 {
                    old(self)@.v[j - old(self)@.i as int]
                } else {
                    old(self)@.memory[j]
                }));
            assert(self@ =~= apply_op(old(self)@, instruction::Op::StoreRegs { x }));
        }
        Ok(())
    }

    /// Read memory starting at the index register into V[0..=X]; the index
    /// register is left unmodified; fault when the block runs past memory.
    fn op_load_regs(&mut self, x: u8) -> (r: Result<(), Fault>)
        requires
            old(self)@.wf(),
            x < 16,
        ensures
            op_fault(old(self)@, instruction::Op::LoadRegs { x }) matches Some(f) ==> r
                == Err::<(), Fault>(f) && *final(self) == *old(self),
            op_fault(old(self)@, instruction::Op::LoadRegs { x }) is None ==> r
                == Ok::<(), Fault>(()) && final(self)@ == apply_op(
                old(self)@,
                instruction::Op::LoadRegs { x },
            ),
            final(self)@.wf(),
    {
        let base = self.i as usize;
        if base + (x as usize) + 1 > 4096 {
            return Err(Fault::MemoryBounds);
        }
        let mut t: usize = 0;
        while t < x as usize + 1
            invariant
                t <= x as usize + 1,
                x < 16,
                base == old(self).i as int,
                base + x as int + 1 <= 4096,
                same_but_v(old(self)@, self@),
                forall|j: int| 0 <= j < t ==> self.v@[j] == old(self)@.memory[base + j],
                forall|j: int| t <= j < 16 ==> self.v@[j] == old(self)@.v[j],
            decreases x as usize + 1 - t,
        {
            self.v[t] = self.memory[base + t];
            t = t + 1;
        }
        proof {
            assert(self@.v =~= Seq::new(16, |j: int|
                if 0 <= j < x as int + 1 {
                    old(self)@.memory[old(self)@.i as int + j]
                } else {
                    old(self)@.v[j]
                }));
            assert(self@ =~= apply_op(old(self)@, instruction::Op::LoadRegs { x }));
        }
        Ok(())
    }

    /// Draw an N-row, 8-column sprite read from memory at the index register
    /// onto the framebuffer at (V[X] mod 64, V[Y] mod 32): every set sprite
    /// bit toggles its pixel, rows wrap horizontally and clip at the bottom,
    /// and VF reports whether any pixel went from on to off.
    fn op_draw(&mut self, x: u8, y: u8, n: u8) -> (res: Result<(), Fault>)
        requires
            old(self)@.wf(),
            x < 16,
            y < 16,
            n < 16,
        ensures
            op_fault(old(self)@, instruction::Op::Draw { x, y, n }) matches Some(f) ==> res
                == Err::<(), Fault>(f) && *final(self) == *old(self),
            op_fault(old(self)@, instruction::Op::Draw { x, y, n }) is None ==> res
                == Ok::<(), Fault>(()) && final(self)@ == apply_op(
                old(self)@,
                instruction::Op::Draw { x, y, n },
            ),
            final(self)@.wf(),
    {
        let i = self.i as usize;
        let nr = n as usize;
        if i + nr > 4096 {
            return Err(Fault::MemoryBounds);
        }
        let x0 = (self.v[x as usize] % 64) as usize;
        let y0 = (self.v[y as usize] % 32) as usize;
        let ghost gi = i as int;
        let ghost gx = x0 as int;
        let ghost gy = y0 as int;
        let ghost mem0 = self.memory@;
        let ghost gfx0 = self.gfx@;
        let mut collided = false;
        let mut r: usize = 0;
        while r < nr
            invariant
                r <= nr,
                nr == n as int,
                n < 16,
                x0 < 64,
                y0 < 32,
                gi == old(self).i as int,
                i as int == gi,
                gx == x0 as int,
                gy == y0 as int,
                gi + nr <= 4096,
                mem0 == old(self)@.memory,
                gfx0 == old(self)@.gfx,
                old(self)@.wf(),
                same_but_gfx(old(self)@, self@),
                forall|p: int|
                    0 <= p < 2048 ==> self.gfx@[p] == (if hit_upto(mem0, gi, gx, gy, p, r as int, 0) {
                        toggle(gfx0[p])
                    } else {
                        gfx0[p]
                    }),
                collided == coll_upto(gfx0, mem0, gi, gx, gy, r as int, 0),
            decreases nr - r,
        {
            let py = y0 + r;
            if py < 32 {
                let row = self.memory[i + r];
                let mut c: usize = 0;
                while c < 8
                    invariant
                        c <= 8,
                        r < nr,
                        nr == n as int,
                        n < 16,
                        x0 < 64,
                        y0 < 32,
                        py == y0 + r,
                        py < 32,
                        gi == old(self).i as int,
                        i as int == gi,
                        gx == x0 as int,
                        gy == y0 as int,
                        gi + nr <= 4096,
                        mem0 == old(self)@.memory,
                        gfx0 == old(self)@.gfx,
                        old(self)@.wf(),
                        row == mem0[gi + r],
                        same_but_gfx(old(self)@, self@),
                        forall|p: int|
                            0 <= p < 2048 ==> self.gfx@[p] == (if hit_upto(
                                mem0,
                                gi,
                                gx,
                                gy,
                                p,
                                r as int,
                                c as int,
                            ) {
                                toggle(gfx0[p])
                            } else {
                                gfx0[p]
                            }),
                        collided == coll_upto(gfx0, mem0, gi, gx, gy, r as int, c as int),
                    decreases 8 - c,
                {
                    let sh: u8 = (7 - c) as u8;
                    let bit = (row >> sh) & 1;
                    proof {
                        assert(bit == sprite_bit(mem0[gi + r], c as int));
                    }
                    if bit == 1 {
                        let px = if x0 + c < 64 {
                            x0 + c
                        } else {
                            x0 + c - 64
                        };
                        let idx = py * 64 + px;
                        proof {
                            lemma_pixel_recover(py as int, px as int);
                            assert(px as int == wrap_x(gx, c as int));
                            // The pixel at (py, px) is exactly the target of
                            // row r, bit c, and of no other row or bit.
                            assert(!hit_upto(mem0, gi, gx, gy, idx as int, r as int, c as int));
                            assert(hit_upto(mem0, gi, gx, gy, idx as int, r as int, c as int + 1));
                        }
                        let prev = self.gfx[idx];
                        proof {
                            assert(prev == gfx0[idx as int]);
                        }
                        if prev == 1 {
                            collided = true;
                        }
                        self.gfx[idx] = if prev == 1 {
                            0
                        } else {
                            1
                        };
                        proof {
                            let gidx = idx as int;
                            assert forall|p: int| 0 <= p < 2048 implies self.gfx@[p] == (
                            if hit_upto(mem0, gi, gx, gy, p, r as int, c as int + 1) {
                                toggle(gfx0[p])
                            } else {
                                gfx0[p]
                            }) by {
                                vstd::arithmetic::div_mod::lemma_fundamental_div_mod(p, 64);
                                vstd::arithmetic::div_mod::lemma_mod_pos_bound(p, 64);
                                if p != gidx {
                                    // Any other pixel is the target of a
                                    // different (row, bit) pair, so this step
                                    // did not change its hit status.
                                    assert(hit_upto(mem0, gi, gx, gy, p, r as int, c as int + 1)
                                        == hit_upto(mem0, gi, gx, gy, p, r as int, c as int));
                                }
                            }
                            // The collision flag accounts for this bit.
                            assert(coll_upto(gfx0, mem0, gi, gx, gy, r as int, c as int + 1) == (
                            coll_upto(gfx0, mem0, gi, gx, gy, r as int, c as int) || gfx0[gidx]
                                == 1)) by {
                                if coll_upto(gfx0, mem0, gi, gx, gy, r as int, c as int + 1) {
                                    let p = choose|p: int|
                                        0 <= p < 2048 && #[trigger] hit_upto(
                                            mem0,
                                            gi,
                                            gx,
                                            gy,
                                            p,
                                            r as int,
                                            c as int + 1,
                                        ) && gfx0[p] == 1;
                                    vstd::arithmetic::div_mod::lemma_fundamental_div_mod(p, 64);
                                    vstd::arithmetic::div_mod::lemma_mod_pos_bound(p, 64);
                                    if !hit_upto(mem0, gi, gx, gy, p, r as int, c as int) {
                                        assert(p == gidx);
                                    }
                                }
                                if coll_upto(gfx0, mem0, gi, gx, gy, r as int, c as int) {
                                    let p = choose|p: int|
                                        0 <= p < 2048 && #[trigger] hit_upto(
                                            mem0,
                                            gi,
                                            gx,
                                            gy,
                                            p,
                                            r as int,
                                            c as int,
                                        ) && gfx0[p] == 1;
                                    assert(hit_upto(mem0, gi, gx, gy, p, r as int, c as int + 1));
                                }
                                if gfx0[gidx] == 1 {
                                    assert(0 <= gidx < 2048 && hit_upto(
                                        mem0,
                                        gi,
                                        gx,
                                        gy,
                                        gidx,
                                        r as int,
                                        c as int + 1,
                                    ) && gfx0[gidx] == 1);
                                }
                            }
                        }
                    } else {
                        proof {
                            // An unset bit toggles nothing: hit status is
                            // unchanged for every pixel.
                            assert forall|p: int| 0 <= p < 2048 implies hit_upto(
                                mem0,
                                gi,
                                gx,
                                gy,
                                p,
                                r as int,
                                c as int + 1,
                            ) == hit_upto(mem0, gi, gx, gy, p, r as int, c as int) by {
                                vstd::arithmetic::div_mod::lemma_fundamental_div_mod(p, 64);
                                vstd::arithmetic::div_mod::lemma_mod_pos_bound(p, 64);
                            }
                            assert(coll_upto(gfx0, mem0, gi, gx, gy, r as int, c as int + 1)
                                == coll_upto(gfx0, mem0, gi, gx, gy, r as int, c as int)) by {
                                if coll_upto(gfx0, mem0, gi, gx, gy, r as int, c as int + 1) {
                                    let p = choose|p: int|
                                        0 <= p < 2048 && #[trigger] hit_upto(
                                            mem0,
                                            gi,
                                            gx,
                                            gy,
                                            p,
                                            r as int,
                                            c as int + 1,
                                        ) && gfx0[p] == 1;
                                    assert(hit_upto(mem0, gi, gx, gy, p, r as int, c as int));
                                }
                                if coll_upto(gfx0, mem0, gi, gx, gy, r as int, c as int) {
                                    let p = choose|p: int|
                                        0 <= p < 2048 && #[trigger] hit_upto(
                                            mem0,
                                            gi,
                                            gx,
                                            gy,
                                            p,
                                            r as int,
                                            c as int,
                                        ) && gfx0[p] == 1;
                                    assert(hit_upto(mem0, gi, gx, gy, p, r as int, c as int + 1));
                                }
                            }
                        }
                    }
                    c = c + 1;
                }
                proof {
                    // All 8 bits of row r done: same hits as all rows below
                    // r + 1.
                    assert forall|p: int| 0 <= p < 2048 implies hit_upto(
                        mem0,
                        gi,
                        gx,
                        gy,
                        p,
                        r as int + 1,
                        0,
                    ) == hit_upto(mem0, gi, gx, gy, p, r as int, 8) by {}
                    assert(coll_upto(gfx0, mem0, gi, gx, gy, r as int + 1, 0) == coll_upto(
                        gfx0,
                        mem0,
                        gi,
                        gx,
                        gy,
                        r as int,
                        8,
                    )) by {
                        if coll_upto(gfx0, mem0, gi, gx, gy, r as int + 1, 0) {
                            let p = choose|p: int|
                                0 <= p < 2048 && #[trigger] hit_upto(
                                    mem0,
                                    gi,
                                    gx,
                                    gy,
                                    p,
                                    r as int + 1,
                                    0,
                                ) && gfx0[p] == 1;
                            assert(hit_upto(mem0, gi, gx, gy, p, r as int, 8));
                        }
                        if coll_upto(gfx0, mem0, gi, gx, gy, r as int, 8) {
                            let p = choose|p: int|
                                0 <= p < 2048 && #[trigger] hit_upto(
                                    mem0,
                                    gi,
                                    gx,
                                    gy,
                                    p,
                                    r as int,
                                    8,
                                ) && gfx0[p] == 1;
                            assert(hit_upto(mem0, gi, gx, gy, p, r as int + 1, 0));
                        }
                    }
                }
            } else {
                proof {
                    // A row clipped at the bottom lands on no pixel: every
                    // pixel's row index stays below 32 - y0.
                    assert forall|p: int| 0 <= p < 2048 implies hit_upto(
                        mem0,
                        gi,
                        gx,
                        gy,
                        p,
                        r as int + 1,
                        0,
                    ) == hit_upto(mem0, gi, gx, gy, p, r as int, 0) by {
                        vstd::arithmetic::div_mod::lemma_fundamental_div_mod(p, 64);
                        vstd::arithmetic::div_mod::lemma_mod_pos_bound(p, 64);
                    }
                    assert(coll_upto(gfx0, mem0, gi, gx, gy, r as int + 1, 0) == coll_upto(
                        gfx0,
                        mem0,
                        gi,
                        gx,
                        gy,
                        r as int,
                        0,
                    )) by {
                        if coll_upto(gfx0, mem0, gi, gx, gy, r as int + 1, 0) {
                            let p = choose|p: int|
                                0 <= p < 2048 && #[trigger] hit_upto(
                                    mem0,
                                    gi,
                                    gx,
                                    gy,
                                    p,
                                    r as int + 1,
                                    0,
                                ) && gfx0[p] == 1;
                            vstd::arithmetic::div_mod::lemma_fundamental_div_mod(p, 64);
                            vstd::arithmetic::div_mod::lemma_mod_pos_bound(p, 64);
                            assert(hit_upto(mem0, gi, gx, gy, p, r as int, 0));
                        }
                        if coll_upto(gfx0, mem0, gi, gx, gy, r as int, 0) {
                            let p = choose|p: int|
                                0 <= p < 2048 && #[trigger] hit_upto(
                                    mem0,
                                    gi,
                                    gx,
                                    gy,
                                    p,
                                    r as int,
                                    0,
                                ) && gfx0[p] == 1;
                            assert(hit_upto(mem0, gi, gx, gy, p, r as int + 1, 0));
                        }
                    }
                }
            }
            r = r + 1;
        }
        let vf: u8 = if collided {
            1
        } else {
            0
        };
        self.v[15] = vf;
        proof {
            assert(self@.gfx =~= draw_gfx(gfx0, mem0, gi, gx, gy, n as int));
            assert(self@ =~= apply_op(old(self)@, instruction::Op::Draw { x, y, n }));
        }
        Ok(())
    }
}

/// Memory after the built-in hexadecimal font set is loaded: 16 glyphs of
/// 5 bytes each, starting at the conventional base address 0x50. Each byte
/// is one glyph row, drawn from its high nibble.
pub open spec fn load_font(mem: Seq<u8>) -> Seq<u8> {
    // glyph 0
    mem.update(0x50, 0xF0u8).update(0x51, 0x90u8).update(0x52, 0x90u8).update(0x53, 0x90u8).update(
        0x54,
        0xF0u8,
    )
        // glyph 1
        .update(0x55, 0x20u8).update(0x56, 0x60u8).update(0x57, 0x20u8).update(0x58, 0x20u8).update(
        0x59,
        0x70u8,
    )
        // glyph 2
        .update(0x5A, 0xF0u8).update(0x5B, 0x10u8).update(0x5C, 0xF0u8).update(0x5D, 0x80u8).update(
        0x5E,
        0xF0u8,
    )
        // glyph 3
        .update(0x5F, 0xF0u8).update(0x60, 0x10u8).update(0x61, 0xF0u8).update(0x62, 0x10u8).update(
        0x63,
        0xF0u8,
    )
        // glyph 4
        .update(0x64, 0x90u8).update(0x65, 0x90u8).update(0x66, 0xF0u8).update(0x67, 0x10u8).update(
        0x68,
        0x10u8,
    )
        // glyph 5
        .update(0x69, 0xF0u8).update(0x6A, 0x80u8).update(0x6B, 0xF0u8).update(0x6C, 0x10u8).update(
        0x6D,
        0xF0u8,
    )
        // glyph 6
        .update(0x6E, 0xF0u8).update(0x6F, 0x80u8).update(0x70, 0xF0u8).update(0x71, 0x90u8).update(
        0x72,
        0xF0u8,
    )
        // glyph 7
        .update(0x73, 0xF0u8).update(0x74, 0x10u8).update(0x75, 0x20u8).update(0x76, 0x40u8).update(
        0x77,
        0x40u8,
    )
        // glyph 8
        .update(0x78, 0xF0u8).update(0x79, 0x90u8).update(0x7A, 0xF0u8).update(0x7B, 0x90u8).update(
        0x7C,
        0xF0u8,
    )
        // glyph 9
        .update(0x7D, 0xF0u8).update(0x7E, 0x90u8).update(0x7F, 0xF0u8).update(0x80, 0x10u8).update(
        0x81,
        0xF0u8,
    )
        // glyph A
        .update(0x82, 0xF0u8).update(0x83, 0x90u8).update(0x84, 0xF0u8).update(0x85, 0x90u8).update(
        0x86,
        0x90u8,
    )
        // glyph B
        .update(0x87, 0xE0u8).update(0x88, 0x90u8).update(0x89, 0xE0u8).update(0x8A, 0x90u8).update(
        0x8B,
        0xE0u8,
    )
        // glyph C
        .update(0x8C, 0xF0u8).update(0x8D, 0x80u8).update(0x8E, 0x80u8).update(0x8F, 0x80u8).update(
        0x90,
        0xF0u8,
    )
        // glyph D
        .update(0x91, 0xE0u8).update(0x92, 0x90u8).update(0x93, 0x90u8).update(0x94, 0x90u8).update(
        0x95,
        0xE0u8,
    )
        // glyph E
        .update(0x96, 0xF0u8).update(0x97, 0x80u8).update(0x98, 0xF0u8).update(0x99, 0x80u8).update(
        0x9A,
        0xF0u8,
    )
        // glyph F
        .update(0x9B, 0xF0u8).update(0x9C, 0x80u8).update(0x9D, 0xF0u8).update(0x9E, 0x80u8).update(
        0x9F,
        0x80u8,
    )
}

impl CPU {
    /// Clear the display and load the built-in font set at 0x50. Every
    /// other part of the machine is left as it is.
    pub fn initialize(&mut self)
        ensures
            final(self)@ == (State {
                gfx: Seq::new(2048, |j: int| 0u8),
                memory: load_font(old(self)@.memory),
                ..old(self)@
            }),
            old(self)@.wf() ==> final(self)@.wf(),
    {
        self.clear_gfx();
        self.memory[0x50] = 0xF0;
        self.memory[0x51] = 0x90;
        self.memory[0x52] = 0x90;
        self.memory[0x53] = 0x90;
        self.memory[0x54] = 0xF0;
        self.memory[0x55] = 0x20;
        self.memory[0x56] = 0x60;
        self.memory[0x57] = 0x20;
        self.memory[0x58] = 0x20;
        self.memory[0x59] = 0x70;
        self.memory[0x5A] = 0xF0;
        self.memory[0x5B] = 0x10;
        self.memory[0x5C] = 0xF0;
        self.memory[0x5D] = 0x80;
        self.memory[0x5E] = 0xF0;
        self.memory[0x5F] = 0xF0;
        self.memory[0x60] = 0x10;
        self.memory[0x61] = 0xF0;
        self.memory[0x62] = 0x10;
        self.memory[0x63] = 0xF0;
        self.memory[0x64] = 0x90;
        self.memory[0x65] = 0x90;
        self.memory[0x66] = 0xF0;
        self.memory[0x67] = 0x10;
        self.memory[0x68] = 0x10;
        self.memory[0x69] = 0xF0;
        self.memory[0x6A] = 0x80;
        self.memory[0x6B] = 0xF0;
        self.memory[0x6C] = 0x10;
        self.memory[0x6D] = 0xF0;
        self.memory[0x6E] = 0xF0;
        self.memory[0x6F] = 0x80;
        self.memory[0x70] = 0xF0;
        self.memory[0x71] = 0x90;
        self.memory[0x72] = 0xF0;
        self.memory[0x73] = 0xF0;
        self.memory[0x74] = 0x10;
        self.memory[0x75] = 0x20;
        self.memory[0x76] = 0x40;
        self.memory[0x77] = 0x40;
        self.memory[0x78] = 0xF0;
        self.memory[0x79] = 0x90;
        self.memory[0x7A] = 0xF0;
        self.memory[0x7B] = 0x90;
        self.memory[0x7C] = 0xF0;
        self.memory[0x7D] = 0xF0;
        self.memory[0x7E] = 0x90;
        self.memory[0x7F] = 0xF0;
        self.memory[0x80] = 0x10;
        self.memory[0x81] = 0xF0;
        self.memory[0x82] = 0xF0;
        self.memory[0x83] = 0x90;
        self.memory[0x84] = 0xF0;
        self.memory[0x85] = 0x90;
        self.memory[0x86] = 0x90;
        self.memory[0x87] = 0xE0;
        self.memory[0x88] = 0x90;
        self.memory[0x89] = 0xE0;
        self.memory[0x8A] = 0x90;
        self.memory[0x8B] = 0xE0;
        self.memory[0x8C] = 0xF0;
        self.memory[0x8D] = 0x80;
        self.memory[0x8E] = 0x80;
        self.memory[0x8F] = 0x80;
        self.memory[0x90] = 0xF0;
        self.memory[0x91] = 0xE0;
        self.memory[0x92] = 0x90;
        self.memory[0x93] = 0x90;
        self.memory[0x94] = 0x90;
        self.memory[0x95] = 0xE0;
        self.memory[0x96] = 0xF0;
        self.memory[0x97] = 0x80;
        self.memory[0x98] = 0xF0;
        self.memory[0x99] = 0x80;
        self.memory[0x9A] = 0xF0;
        self.memory[0x9B] = 0xF0;
        self.memory[0x9C] = 0x80;
        self.memory[0x9D] = 0xF0;
        self.memory[0x9E] = 0x80;
        self.memory[0x9F] = 0x80;
        proof {
            assert(self@ =~= (State {
                gfx: Seq::new(2048, |j: int| 0u8),
                memory: load_font(old(self)@.memory),
                ..old(self)@
            }));
        }
    }

    /// One cycle of the machine, exactly as `cycle_spec` says of the prior
    /// state: watch the key vector while blocked on a key; otherwise halt
    /// with `Ok(true)` at or past the end of memory, fault when a whole word
    /// cannot be fetched, and else fetch the word at the program counter,
    /// advance the counter by 2, decode, and apply the instruction. A fault
    /// — an unrecognized word, stack overflow or underflow, or a memory
    /// access out of bounds — is reported with the machine otherwise
    /// untouched beyond the fetch itself.
    pub fn fetch_decode_execute(&mut self) -> (r: Result<bool, Fault>)
        requires
            old(self)@.wf(),
        ensures
            final(self)@ == cycle_spec(old(self)@).0,
            r == cycle_spec(old(self)@).1,
            final(self)@.wf(),
    {
        match self.waiting_key {
            Some(x) => {
                let mut k: usize = 0;
                while k < 16
                    invariant
                        k <= 16,
                        old(self)@.wf(),
                        old(self).waiting_key == Some(x),
                        x < 16,
                        *self == *old(self),
                        forall|j: int| 0 <= j < k ==> self.key@[j] == 0,
                    decreases 16 - k,
                {
                    if self.key[k] != 0 {
                        proof {
                            lemma_first_key_skip(old(self)@.key, 0, k as int);
                        }
                        self.v[x as usize] = k as u8;
                        self.waiting_key = None;
                        return Ok(false);
                    }
                    k = k + 1;
                }
                proof {
                    lemma_first_key_skip(old(self)@.key, 0, 16);
                }
                Ok(false)
            },
            None => {
                if self.pc >= 4096 {
                    return Ok(true);
                }
                if self.pc == 4095 {
                    return Err(Fault::MemoryBounds);
                }
                let w = read_word(self.memory, self.pc);
                self.opcode = w;
                self.pc = self.pc + 2;
                match instruction::lookup(w) {
                    Err(_) => Err(Fault::DecodeError(w)),
                    Ok(ins) => match self.execute(ins.op) {
                        Ok(()) => Ok(false),
                        Err(f) => Err(f),
                    },
                }
            },
        }
    }
}

impl CPU {
    /// The indexed accessor over the register file: V[idx].
    pub fn reg(&self, idx: u8) -> (r: u8)
        requires
            idx < 16,
        ensures
            r == self@.v[idx as int],
    {
        self.v[idx as usize]
    }

    pub fn v0(&mut self) -> (r: u8)
        ensures
            r == old(self)@.v[0],
            *final(self) == *old(self),
    {
        return self.v[0];
    }

    pub fn v1(&mut self) -> (r: u8)
        ensures
            r == old(self)@.v[1],
            *final(self) == *old(self),
    {
        return self.v[1];
    }

    pub fn v2(&mut self) -> (r: u8)
        ensures
            r == old(self)@.v[2],
            *final(self) == *old(self),
    {
        return self.v[2];
    }

    pub fn v3(&mut self) -> (r: u8)
        ensures
            r == old(self)@.v[3],
            *final(self) == *old(self),
    {
        return self.v[3];
    }

    pub fn v4(&mut self) -> (r: u8)
        ensures
            r == old(self)@.v[4],
            *final(self) == *old(self),
    {
        return self.v[4];
    }

    pub fn v5(&mut self) -> (r: u8)
        ensures
            r == old(self)@.v[5],
            *final(self) == *old(self),
    {
        return self.v[5];
    }

    pub fn v6(&mut self) -> (r: u8)
        ensures
            r == old(self)@.v[6],
            *final(self) == *old(self),
    {
        return self.v[6];
    }

    pub fn v7(&mut self) -> (r: u8)
        ensures
            r == old(self)@.v[7],
            *final(self) == *old(self),
    {
        return self.v[7];
    }

    pub fn v8(&mut self) -> (r: u8)
        ensures
            r == old(self)@.v[8],
            *final(self) == *old(self),
    {
        return self.v[8];
    }

    pub fn v9(&mut self) -> (r: u8)
        ensures
            r == old(self)@.v[9],
            *final(self) == *old(self),
    {
        return self.v[9];
    }

    pub fn va(&mut self) -> (r: u8)
        ensures
            r == old(self)@.v[10],
            *final(self) == *old(self),
    {
        return self.v[10];
    }

    pub fn vb(&mut self) -> (r: u8)
        ensures
            r == old(self)@.v[11],
            *final(self) == *old(self),
    {
        return self.v[11];
    }

    pub fn vc(&mut self) -> (r: u8)
        ensures
            r == old(self)@.v[12],
            *final(self) == *old(self),
    {
        return self.v[12];
    }

    pub fn vd(&mut self) -> (r: u8)
        ensures
            r == old(self)@.v[13],
            *final(self) == *old(self),
    {
        return self.v[13];
    }

    pub fn ve(&mut self) -> (r: u8)
        ensures
            r == old(self)@.v[14],
            *final(self) == *old(self),
    {
        return self.v[14];
    }

    pub fn vf(&mut self) -> (r: u8)
        ensures
            r == old(self)@.v[15],
            *final(self) == *old(self),
    {
        return self.v[15];
    }

    /// One tick of the external 60 Hz clock: each nonzero timer counts
    /// down by one; everything else is untouched.
    pub fn tick_timers(&mut self)
        ensures
            final(self)@ == (State {
                delay_timer: if old(self).delay_timer > 0 {
                    (old(self).delay_timer - 1) as u16
                } else {
                    0u16
                },
                sound_timer: if old(self).sound_timer > 0 {
                    (old(self).sound_timer - 1) as u16
                } else {
                    0u16
                },
                ..old(self)@
            }),
            old(self)@.wf() ==> final(self)@.wf(),
    {
        if self.delay_timer > 0 {
            self.delay_timer = self.delay_timer - 1;
        }
        if self.sound_timer > 0 {
            self.sound_timer = self.sound_timer - 1;
        }
        proof {
            assert(final(self)@ =~= (State {
                delay_timer: if old(self).delay_timer > 0 {
                    (old(self).delay_timer - 1) as u16
                } else {
                    0u16
                },
                sound_timer: if old(self).sound_timer > 0 {
                    (old(self).sound_timer - 1) as u16
                } else {
                    0u16
                },
                ..old(self)@
            }));
        }
    }

    /// The audio collaborator's view: a tone plays while the sound timer
    /// is nonzero.
    pub fn sound_active(&self) -> (r: bool)
        ensures
            r == (self@.sound_timer > 0),
    {
        self.sound_timer > 0
    }

    /// Copy a program image verbatim into memory starting at 0x200.
    /// An image larger than the 3584 bytes of program space is rejected
    /// whole: the machine is left untouched and `false` comes back.
    pub fn load_program(&mut self, image: &Vec<u8>) -> (r: bool)
        ensures
            image@.len() > 3584 ==> r == false && final(self)@ == old(self)@,
            image@.len() <= 3584 ==> r == true && final(self)@ == (State {
                memory: Seq::new(4096, |j: int|
                    if 0x200 <= j < 0x200 + image@.len() {
                        image@[j - 0x200]
                    } else {
                        old(self)@.memory[j]
                    }),
                ..old(self)@
            }),
            old(self)@.wf() ==> final(self)@.wf(),
    {
        if image.len() > 3584 {
            return false;
        }
        let mut k: usize = 0;
        while k < image.len()
            invariant
                k <= image@.len() <= 3584,
                self.i == old(self).i,
                self.pc == old(self).pc,
                self.opcode == old(self).opcode,
                self.v == old(self).v,
                self.gfx == old(self).gfx,
                self.delay_timer == old(self).delay_timer,
                self.sound_timer == old(self).sound_timer,
                self.stack == old(self).stack,
                self.sp == old(self).sp,
                self.key == old(self).key,
                self.waiting_key == old(self).waiting_key,
                self.rng_state == old(self).rng_state,
                forall|j: int| 0x200 <= j < 0x200 + k ==> self.memory@[j] == image@[j - 0x200],
                forall|j: int|
                    0 <= j < 4096 && !(0x200 <= j < 0x200 + k) ==> self.memory@[j] == old(
                        self,
                    ).memory@[j],
            decreases image@.len() - k,
        {
            self.memory[0x200 + k] = image[k];
            k = k + 1;
        }
        proof {
            assert(final(self)@.memory =~= Seq::new(4096, |j: int|
                if 0x200 <= j < 0x200 + image@.len() {
                    image@[j - 0x200]
                } else {
                    old(self)@.memory[j]
                }));
            assert(final(self)@ =~= (State {
                memory: Seq::new(4096, |j: int|
                    if 0x200 <= j < 0x200 + image@.len() {
                        image@[j - 0x200]
                    } else {
                        old(self)@.memory[j]
                    }),
                ..old(self)@
            }));
        }
        true
    }
}

} // verus!
