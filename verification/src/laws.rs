//! Laws of the instruction set: properties that relate several operations or
//! quantify over all states, proved once and for all against the model.
use vstd::prelude::*;

use crate::model::{CpuView, wf, wadd16, addr, key_pressed, first_key_from, lemma_lowest_key,
    add8_spec, sub85_spec, display_spec, draw_hit, draw_xs, draw_ys, step_spec, opcode_at};

verus! {

/// Addition with carry: whenever two distinct source registers, neither the
/// flag register, hold 250 and 10, the sum wraps to 4 and the carry flag is
/// set. (With `x` or `y` equal to 15 the flag write lands in an operand, so
/// the law holds of the other registers.)
pub proof fn lemma_add_carry_wraps(s: CpuView)
    requires
        wf(s),
        s.x != 15,
        s.y != 15,
        s.v[s.x as int] == 250,
        s.v[s.y as int] == 10,
    ensures
        add8_spec(s).v[15] == 1,
        add8_spec(s).v[s.x as int] == 4,
{
}

/// Subtraction with borrow: whenever two distinct source registers, neither
/// the flag register, hold 5 and 10, the difference wraps to 251 and the
/// borrow flag is cleared.
pub proof fn lemma_sub_borrow_wraps(s: CpuView)
    requires
        wf(s),
        s.x != 15,
        s.y != 15,
        s.v[s.x as int] == 5,
        s.v[s.y as int] == 10,
    ensures
        sub85_spec(s).v[15] == 0,
        sub85_spec(s).v[s.x as int] == 251,
{
}

/// Draw idempotence: drawing the same sprite twice at the same location
/// restores every affected pixel, and the second draw reports a collision
/// whenever the first draw turned some pixel on. (With `x` or `y` equal to 15
/// the first draw's flag write moves the second draw's coordinates, so the
/// law holds of the other registers.)
pub proof fn lemma_draw_idempotent(s: CpuView)
    requires
        wf(s),
        s.x != 15,
        s.y != 15,
    ensures
        display_spec(display_spec(s)).disp =~= s.disp,
        (exists|j: int| 0 <= j < 2048 && s.disp[j] == 0 && display_spec(s).disp[j] == 1)
            ==> display_spec(display_spec(s)).v[15] == 1,
{
    let s1 = display_spec(s);
    assert(draw_xs(s1) == draw_xs(s));
    assert(draw_ys(s1) == draw_ys(s));
    assert forall|j: int| 0 <= j < 2048 implies display_spec(s1).disp[j] == s.disp[j] by {
        assert(s.disp[j] == 0 || s.disp[j] == 1);
    }
    if exists|j: int| 0 <= j < 2048 && s.disp[j] == 0 && s1.disp[j] == 1 {
        let j = choose|j: int| 0 <= j < 2048 && s.disp[j] == 0 && s1.disp[j] == 1;
        assert(draw_hit(s1.mem, s1.index, draw_xs(s1), draw_ys(s1), s1.n as int, j));
        assert(s1.disp[j] == 1);
    }
}

/// Call/return round-trip: a call at `pc`, followed immediately by a return,
/// restores `pc` to the instruction after the call and the stack to its prior
/// state. The call here targets 0x300, where the return instruction sits.
pub proof fn lemma_call_return_round_trip(s: CpuView, r1: u8, r2: u8)
    requires
        wf(s),
        s.mem[addr(s.pc as int)] == 0x23,
        s.mem[addr(wadd16(s.pc, 1) as int)] == 0x00,
        s.mem[0x300] == 0x00,
        s.mem[0x301] == 0xEE,
    ensures
        step_spec(step_spec(s, r1), r2).pc == wadd16(s.pc, 2),
        step_spec(step_spec(s, r1), r2).stack == s.stack,
{
    let s1 = step_spec(s, r1);
    assert(opcode_at(s) == 0x2300);
    assert(s1.pc == 0x300);
    assert(s1.stack == s.stack.push(wadd16(s.pc, 2)));
    assert(opcode_at(s1) == 0x00EE);
    let s2 = step_spec(s1, r2);
    assert(s2.pc == wadd16(s.pc, 2));
    assert(s2.stack =~= s.stack);
}

/// Blocking key-wait, no key held: with the keypad mask zero, a cycle on the
/// wait-for-key instruction rewinds `pc` to the same instruction, so repeated
/// cycles leave the machine spinning in place with registers, memory, screen
/// and stack untouched.
pub proof fn lemma_key_wait_blocks(s: CpuView, r: u8)
    requires
        wf(s),
        s.keys == 0,
        opcode_at(s) / 4096 == 0xF,
        opcode_at(s) % 256 == 0x0A,
    ensures
        step_spec(s, r).pc == s.pc,
        step_spec(s, r).v == s.v,
        step_spec(s, r).stack == s.stack,
        step_spec(s, r).disp == s.disp,
        step_spec(s, r).mem == s.mem,
        step_spec(s, r).delay == s.delay,
        step_spec(s, r).sound == s.sound,
{
}

/// Blocking key-wait, key held: once the keypad mask is non-zero, a cycle on
/// the wait-for-key instruction writes the lowest held key index into `v[x]`
/// and advances `pc` past the instruction.
pub proof fn lemma_key_wait_releases(s: CpuView, r: u8)
    requires
        wf(s),
        s.keys != 0,
        opcode_at(s) / 4096 == 0xF,
        opcode_at(s) % 256 == 0x0A,
    ensures
        step_spec(s, r).pc == wadd16(s.pc, 2),
        step_spec(s, r).v == s.v.update(
            (s.mem[addr(s.pc as int)] % 16) as int,
            first_key_from(s.keys, 0) as u8,
        ),
        0 <= first_key_from(s.keys, 0) < 16,
        key_pressed(s.keys, first_key_from(s.keys, 0) as u8),
        forall|k: u8| k < first_key_from(s.keys, 0) ==> !key_pressed(s.keys, k),
{
    lemma_lowest_key(s.keys);
}

} // verus!
