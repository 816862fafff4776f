//! Machine-wide laws of the execution engine, each proved once and for all
//! over the cycle and instruction semantics that `CPU`'s contracts promise.

use vstd::prelude::*;

use crate::cpu::instruction;
use crate::cpu::{
    apply_op, coll_upto, cycle_spec, first_key_from, hit_upto, sprite_bit, toggle, word_at,
    wrap_x, Fault, State,
};

verus! {

/// Does a skip instruction's condition hold in a state? False on anything
/// but the four skip operations.
pub open spec fn skip_condition(s: State, op: instruction::Op) -> bool {
    match op {
        instruction::Op::SkipEqImm { x, nn } => s.v[x as int] == nn,
        instruction::Op::SkipNeImm { x, nn } => s.v[x as int] != nn,
        instruction::Op::SkipEqReg { x, y } => s.v[x as int] == s.v[y as int],
        instruction::Op::SkipNeReg { x, y } => s.v[x as int] != s.v[y as int],
        _ => false,
    }
}

/// A conditional-skip cycle advances the program counter by 4 in total when
/// its condition holds and by 2 when it does not: the fetch advances by 2,
/// and the skip itself by a further 2 or 0.
pub proof fn lemma_skip_advances_pc(s: State, op: instruction::Op)
    requires
        s.wf(),
        s.waiting_key is None,
        s.pc < 4095,
        instruction::spec_decode(word_at(s.memory, s.pc as int)) == Some(op),
        op is SkipEqImm || op is SkipNeImm || op is SkipEqReg || op is SkipNeReg,
    ensures
        cycle_spec(s).1 == Ok::<bool, Fault>(false),
        cycle_spec(s).0.pc == s.pc + (if skip_condition(s, op) {
            4int
        } else {
            2int
        }),
{
}

/// A call followed by a return is a round trip: the call's cycle lands the
/// program counter on the subroutine and deepens the stack by one entry
/// holding the instruction after the call; the return's cycle restores the
/// program counter to that instruction and the stack pointer to its
/// pre-call value.
pub proof fn lemma_call_return_round_trip(s: State, nnn: u16)
    requires
        s.wf(),
        s.waiting_key is None,
        s.pc < 4095,
        s.sp < 16,
        instruction::spec_decode(word_at(s.memory, s.pc as int)) == Some(
            instruction::Op::Call { nnn },
        ),
        nnn < 4095,
        instruction::spec_decode(word_at(s.memory, nnn as int)) == Some(instruction::Op::Return),
    ensures
        cycle_spec(s).1 == Ok::<bool, Fault>(false),
        cycle_spec(s).0.pc == nnn,
        cycle_spec(s).0.sp == s.sp + 1,
        cycle_spec(cycle_spec(s).0).1 == Ok::<bool, Fault>(false),
        cycle_spec(cycle_spec(s).0).0.pc == s.pc + 2,
        cycle_spec(cycle_spec(s).0).0.sp == s.sp,
{
}

/// While the machine is blocked on a key and no key is pressed, a cycle
/// changes nothing at all: in particular the program counter stays put.
pub proof fn lemma_blocked_cycle_no_key(s: State)
    requires
        s.wf(),
        s.waiting_key is Some,
        forall|k: int| 0 <= k < 16 ==> s.key[k] == 0,
    ensures
        cycle_spec(s).0 == s,
        cycle_spec(s).1 == Ok::<bool, Fault>(false),
{
    crate::cpu::lemma_first_key_skip(s.key, 0, 16);
}

/// The first pressed key, scanning up from `a`, is found at or before any
/// pressed key.
proof fn lemma_first_key_le(key: Seq<u16>, a: int, k: int)
    requires
        0 <= a <= k < 16,
        key[k] != 0,
    ensures
        a <= first_key_from(key, a) <= k,
        key[first_key_from(key, a)] != 0,
    decreases k - a,
{
    if key[a] == 0 {
        lemma_first_key_le(key, a + 1, k);
    }
}

/// Once a key press is observed while blocked, that cycle writes the lowest
/// pressed key's code into the awaited register, lifts the block, and still
/// does not move the program counter: the counter advances normally on the
/// following cycle.
pub proof fn lemma_blocked_cycle_key_pressed(s: State, x: u8, k: int)
    requires
        s.wf(),
        s.waiting_key == Some(x),
        0 <= k < 16,
        s.key[k] != 0,
    ensures
        0 <= first_key_from(s.key, 0) < 16,
        s.key[first_key_from(s.key, 0)] != 0,
        cycle_spec(s).0 == (State {
            v: s.v.update(x as int, first_key_from(s.key, 0) as u8),
            waiting_key: None,
            ..s
        }),
        cycle_spec(s).1 == Ok::<bool, Fault>(false),
{
    lemma_first_key_le(s.key, 0, k);
}

/// At or past the end of memory a cycle reports the halt and mutates
/// nothing.
pub proof fn lemma_halted_cycle_no_mutation(s: State)
    requires
        s.waiting_key is None,
        s.pc >= 4096,
    ensures
        cycle_spec(s).0 == s,
        cycle_spec(s).1 == Ok::<bool, Fault>(true),
{
}

/// An unrecognized opcode word faults the cycle and leaves every register,
/// all of memory, the framebuffer, the stack, the timers and the index
/// register exactly as they were; only the program counter has moved past
/// the offending word, which is recorded and reported.
pub proof fn lemma_decode_fault_isolation(s: State)
    requires
        s.wf(),
        s.waiting_key is None,
        s.pc < 4095,
        instruction::spec_decode(word_at(s.memory, s.pc as int)) is None,
    ensures
        cycle_spec(s).1 == Err::<bool, Fault>(Fault::DecodeError(word_at(s.memory, s.pc as int))),
        cycle_spec(s).0.v == s.v,
        cycle_spec(s).0.memory == s.memory,
        cycle_spec(s).0.gfx == s.gfx,
        cycle_spec(s).0.stack == s.stack,
        cycle_spec(s).0.sp == s.sp,
        cycle_spec(s).0.i == s.i,
        cycle_spec(s).0.delay_timer == s.delay_timer,
        cycle_spec(s).0.sound_timer == s.sound_timer,
        cycle_spec(s).0.pc == s.pc + 2,
        cycle_spec(s).0.opcode == word_at(s.memory, s.pc as int),
{
}

/// Drawing a one-row sprite with a single set bit onto an off pixel turns
/// it on with no collision; drawing the same sprite again at the same
/// coordinates turns the pixel back off and reports the collision — XOR
/// semantics. The flag register itself must not name the coordinates, since
/// the draw overwrites it.
pub proof fn lemma_draw_twice_toggles(s: State, x: u8, y: u8, c0: int)
    requires
        s.wf(),
        x < 15,
        y < 15,
        s.i < 4096,
        0 <= c0 < 8,
        sprite_bit(s.memory[s.i as int], c0) == 1,
        forall|c: int| 0 <= c < 8 && c != c0 ==> sprite_bit(s.memory[s.i as int], c) != 1,
        s.gfx[(s.v[y as int] % 32) * 64 + wrap_x((s.v[x as int] % 64) as int, c0)] == 0,
    ensures
        ({
            let p = (s.v[y as int] % 32) * 64 + wrap_x((s.v[x as int] % 64) as int, c0);
            let s1 = apply_op(s, instruction::Op::Draw { x, y, n: 1 });
            let s2 = apply_op(s1, instruction::Op::Draw { x, y, n: 1 });
            &&& s1.gfx[p] == 1
            &&& s1.v[15] == 0
            &&& s2.gfx[p] == 0
            &&& s2.v[15] == 1
            &&& s2.gfx == s.gfx
        }),
{
    let x0 = (s.v[x as int] % 64) as int;
    let y0 = (s.v[y as int] % 32) as int;
    let p = y0 * 64 + wrap_x(x0, c0);
    let gi = s.i as int;
    crate::cpu::lemma_pixel_recover(y0, wrap_x(x0, c0));
    // The one set bit lands on pixel p and on no other pixel.
    assert forall|q: int| 0 <= q < 2048 implies crate::cpu::draw_hit(
        s.memory,
        gi,
        x0,
        y0,
        1,
        q,
    ) == (q == p) by {
        vstd::arithmetic::div_mod::lemma_fundamental_div_mod(q, 64);
        vstd::arithmetic::div_mod::lemma_mod_pos_bound(q, 64);
    }
    let s1 = apply_op(s, instruction::Op::Draw { x, y, n: 1 });
    assert(s1.gfx[p] == toggle(s.gfx[p]));
    // First draw: nothing was on where the bit lands, so no collision.
    assert(!coll_upto(s.gfx, s.memory, gi, x0, y0, 1, 0)) by {
        if coll_upto(s.gfx, s.memory, gi, x0, y0, 1, 0) {
            let q = choose|q: int|
                0 <= q < 2048 && #[trigger] hit_upto(s.memory, gi, x0, y0, q, 1, 0) && s.gfx[q]
                    == 1;
            assert(q == p);
        }
    }
    // The first draw leaves registers x and y, memory and the index
    // register alone, so the second draw covers the same pixel.
    assert(s1.v[x as int] == s.v[x as int]);
    assert(s1.v[y as int] == s.v[y as int]);
    let s2 = apply_op(s1, instruction::Op::Draw { x, y, n: 1 });
    assert(s2.gfx[p] == toggle(s1.gfx[p]));
    // Second draw: the bit lands on the pixel it just turned on.
    assert(hit_upto(s.memory, gi, x0, y0, p, 1, 0) && s1.gfx[p] == 1);
    assert(coll_upto(s1.gfx, s.memory, gi, x0, y0, 1, 0));
    assert(s2.v[15] == 1);
    // Toggling every hit pixel twice restores the framebuffer.
    assert(s2.gfx =~= s.gfx);
}

} // verus!
