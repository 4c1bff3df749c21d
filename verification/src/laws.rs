//! Machine-checked laws of the instruction semantics: facts that relate
//! several steps or several opcodes, proved once and for all over the same
//! spec functions that the executable core is verified against.
use vstd::prelude::*;

use crate::cpu::CpuState;
use crate::cpu::cycle_spec;
use crate::cpu::draw_pos;
use crate::cpu::draw_vf;
use crate::cpu::draw_video;
use crate::cpu::draw_hit;
use crate::cpu::execute_spec;
use crate::cpu::first_key;
use crate::cpu::first_key_from;
use crate::cpu::lemma_first_key_from;
use crate::cpu::lemma_pos_decompose;
use crate::cpu::lemma_wrap_inverse;
use crate::cpu::nib1;
use crate::cpu::nib2;
use crate::cpu::nib3;
use crate::cpu::nib4;
use crate::cpu::op_at;
use crate::cpu::op_kk;
use crate::cpu::op_nnn;
use crate::cpu::pixel_index;
use crate::cpu::sprite_bit;
use crate::cpu::state_wf;
use crate::cpu::wrap_add;

verus! {

/// Wrapping in 128 twice returns any byte to itself.
proof fn lemma_wrap_add_128(v: u8)
    ensures
        wrap_add(wrap_add(v, 0x80), 0x80) == v,
{
    if v < 128 {
        vstd::arithmetic::div_mod::lemma_small_mod((v + 128) as nat, 256);
        vstd::arithmetic::div_mod::lemma_mod_multiples_vanish(1, v as int, 256);
        vstd::arithmetic::div_mod::lemma_small_mod(v as nat, 256);
    } else {
        vstd::arithmetic::div_mod::lemma_mod_multiples_vanish(1, v as int - 128, 256);
        vstd::arithmetic::div_mod::lemma_small_mod((v - 128) as nat, 256);
        vstd::arithmetic::div_mod::lemma_small_mod(v as nat, 256);
    }
}

/// Two consecutive `7x80` instructions (adding 256 in all, as two wrapping
/// additions of 128 each) leave the whole register file -- the carry flag
/// included, which 7xkk never writes -- exactly as it was, and advance the
/// program counter past both instructions.
pub proof fn lemma_add_256_roundtrip(s: CpuState, b1: u8, b2: u8)
    requires
        state_wf(s),
        nib1(op_at(s.memory, s.program_counter)) == 0x7,
        op_kk(op_at(s.memory, s.program_counter)) == 0x80,
        nib1(op_at(s.memory, s.program_counter + 2)) == 0x7,
        nib2(op_at(s.memory, s.program_counter + 2)) == nib2(op_at(s.memory, s.program_counter)),
        op_kk(op_at(s.memory, s.program_counter + 2)) == 0x80,
    ensures
        execute_spec(execute_spec(s, b1), b2).registers == s.registers,
        execute_spec(execute_spec(s, b1), b2).program_counter == s.program_counter + 4,
{
    let op = op_at(s.memory, s.program_counter);
    let x = nib2(op) as int;
    assert(nib2(op) < 16) by (bit_vector);
    let s1 = execute_spec(s, b1);
    let s2 = execute_spec(s1, b2);
    lemma_wrap_add_128(s.registers[x]);
    assert(s2.registers =~= s.registers);
}

/// Drawing any sprite twice at the same anchor is the identity on the
/// framebuffer: the XOR of the second pass clears exactly what the first set
/// and restores every pixel it cleared.
pub proof fn lemma_draw_involution(video: Seq<u8>, mem: Seq<u8>, i: int, vx: u8, vy: u8, n: int)
    requires
        video.len() == 2048,
    ensures
        draw_video(draw_video(video, mem, i, vx, vy, n), mem, i, vx, vy, n) == video,
{
    let once = draw_video(video, mem, i, vx, vy, n);
    let twice = draw_video(once, mem, i, vx, vy, n);
    assert forall|p: int| 0 <= p < 2048 implies twice[p] == video[p] by {
        vstd::arithmetic::div_mod::lemma_fundamental_div_mod(p, 64);
        vstd::arithmetic::div_mod::lemma_mod_bound(p, 64);
        let yy = p / 64;
        let xx = p % 64;
        assert(p == pixel_index(yy, xx));
        let r = (yy - vy as int) % 32;
        let b = (xx - vx as int) % 64;
        if b < 8 && r < n {
            let s = sprite_bit(mem, i, r, b);
            let v = video[p];
            assert((v ^ s) ^ s == v) by (bit_vector);
        }
    }
    assert(twice =~= video);
}

/// On an all-clear framebuffer a sprite with at least one set bit -- the
/// witness bit is `(r, b)` -- collides with itself on the second draw: VF is
/// 1 after drawing it again over its own first pass.
pub proof fn lemma_draw_second_collides(
    video: Seq<u8>,
    mem: Seq<u8>,
    i: int,
    vx: u8,
    vy: u8,
    n: int,
    r: int,
    b: int,
)
    requires
        video.len() == 2048,
        forall|p: int| 0 <= p < 2048 ==> video[p] == 0,
        0 <= n <= 15,
        0 <= r < n,
        0 <= b < 8,
        sprite_bit(mem, i, r, b) == 1,
    ensures
        draw_vf(draw_video(video, mem, i, vx, vy, n), mem, i, vx, vy, n) == 1,
{
    let once = draw_video(video, mem, i, vx, vy, n);
    let q = draw_pos(vx, vy, r, b);
    vstd::arithmetic::div_mod::lemma_mod_bound(vy as int + r, 32);
    vstd::arithmetic::div_mod::lemma_mod_bound(vx as int + b, 64);
    let yy = (vy as int + r) % 32;
    let xx = (vx as int + b) % 64;
    lemma_pos_decompose(yy, xx);
    assert(q == pixel_index(yy, xx));
    lemma_wrap_inverse(vy as int, r, 32);
    lemma_wrap_inverse(vx as int, b, 64);
    assert(once[q] == video[q] ^ sprite_bit(mem, i, r, b));
    assert(0u8 ^ 1u8 == 1u8) by (bit_vector);
    assert(1u8 & 1u8 == 1u8) by (bit_vector);
    assert(once[draw_pos(vx, vy, r, b)] & 1 == 1);
    assert(draw_hit(once, mem, i, vx, vy, n));
}

/// A draw right after a clear yields the sprite alone: every targeted pixel
/// holds exactly its sprite bit, every other pixel stays clear, and VF
/// reports no collision.
pub proof fn lemma_draw_on_clear(video: Seq<u8>, mem: Seq<u8>, i: int, vx: u8, vy: u8, n: int)
    requires
        video.len() == 2048,
        forall|p: int| 0 <= p < 2048 ==> video[p] == 0,
        0 <= n <= 15,
    ensures
        draw_vf(video, mem, i, vx, vy, n) == 0,
        forall|r: int, b: int|
            0 <= r < n && 0 <= b < 8 ==> draw_video(video, mem, i, vx, vy, n)[#[trigger] draw_pos(
                vx,
                vy,
                r,
                b,
            )] == sprite_bit(mem, i, r, b),
        forall|p: int|
            0 <= p < 2048 && (forall|r: int, b: int|
                0 <= r < n && 0 <= b < 8 ==> #[trigger] draw_pos(vx, vy, r, b) != p) ==> #[trigger] draw_video(
                video,
                mem,
                i,
                vx,
                vy,
                n,
            )[p] == 0,
{
    let once = draw_video(video, mem, i, vx, vy, n);
    if draw_hit(video, mem, i, vx, vy, n) {
        let (r, b): (int, int) = choose|r: int, b: int|
            0 <= r && 0 <= b < 8 && (r < n || (r == n && b < 0)) && sprite_bit(mem, i, r, b) == 1
                && video[draw_pos(vx, vy, r, b)] & 1 == 1;
        vstd::arithmetic::div_mod::lemma_mod_bound(vy as int + r, 32);
        vstd::arithmetic::div_mod::lemma_mod_bound(vx as int + b, 64);
        lemma_pos_decompose((vy as int + r) % 32, (vx as int + b) % 64);
        assert(0u8 & 1u8 == 0u8) by (bit_vector);
        assert(false);
    }
    assert forall|r: int, b: int| 0 <= r < n && 0 <= b < 8 implies once[#[trigger] draw_pos(
        vx,
        vy,
        r,
        b,
    )] == sprite_bit(mem, i, r, b) by {
        let q = draw_pos(vx, vy, r, b);
        vstd::arithmetic::div_mod::lemma_mod_bound(vy as int + r, 32);
        vstd::arithmetic::div_mod::lemma_mod_bound(vx as int + b, 64);
        let yy = (vy as int + r) % 32;
        let xx = (vx as int + b) % 64;
        lemma_pos_decompose(yy, xx);
        assert(q == pixel_index(yy, xx));
        lemma_wrap_inverse(vy as int, r, 32);
        lemma_wrap_inverse(vx as int, b, 64);
        let s = sprite_bit(mem, i, r, b);
        assert(0u8 ^ s == s) by (bit_vector);
    }
    assert forall|p: int|
        0 <= p < 2048 && (forall|r: int, b: int|
            0 <= r < n && 0 <= b < 8 ==> #[trigger] draw_pos(vx, vy, r, b) != p) implies #[trigger] once[p]
        == 0 by {
        vstd::arithmetic::div_mod::lemma_fundamental_div_mod(p, 64);
        vstd::arithmetic::div_mod::lemma_mod_bound(p, 64);
        let yy = p / 64;
        let xx = p % 64;
        assert(p == pixel_index(yy, xx));
        let r = (yy - vy as int) % 32;
        let b = (xx - vx as int) % 64;
        vstd::arithmetic::div_mod::lemma_mod_bound(yy - vy as int, 32);
        vstd::arithmetic::div_mod::lemma_mod_bound(xx - vx as int, 64);
        if b < 8 && r < n {
            crate::cpu::lemma_wrap_forward(vy as int, yy, 32);
            crate::cpu::lemma_wrap_forward(vx as int, xx, 64);
            assert(draw_pos(vx, vy, r, b) == p);
            assert(false);
        }
    }
}

/// Calling a subroutine and returning from it resumes at the instruction
/// right after the call, with the stack depth exactly restored.
pub proof fn lemma_call_return_roundtrip(s: CpuState, b1: u8, b2: u8)
    requires
        state_wf(s),
        0 <= s.stack_pointer < 16,
        nib1(op_at(s.memory, s.program_counter)) == 0x2,
        nib1(op_at(s.memory, op_nnn(op_at(s.memory, s.program_counter)))) == 0x0,
        nib2(op_at(s.memory, op_nnn(op_at(s.memory, s.program_counter)))) == 0x0,
        nib3(op_at(s.memory, op_nnn(op_at(s.memory, s.program_counter)))) == 0xE,
        nib4(op_at(s.memory, op_nnn(op_at(s.memory, s.program_counter)))) == 0xE,
    ensures
        execute_spec(execute_spec(s, b1), b2).program_counter == s.program_counter + 2,
        execute_spec(execute_spec(s, b1), b2).stack_pointer == s.stack_pointer,
{
}

/// While the keypad-wait latch is armed: a cycle with no key pressed leaves
/// the registers, the program counter and the latch untouched; the first
/// cycle with a key pressed writes the lowest pressed index into the latched
/// register, releases the latch, and leaves the program counter where it
/// was, so execution resumes there on the next cycle.
pub proof fn lemma_keypad_wait(s: CpuState, keypad: Seq<bool>, rnd: u8)
    requires
        state_wf(s),
        keypad.len() == 16,
        s.keypad_waiting,
    ensures
        (forall|i: int| 0 <= i < 16 ==> !keypad[i]) ==> (cycle_spec(s, keypad, rnd).registers
            == s.registers && cycle_spec(s, keypad, rnd).program_counter == s.program_counter
            && cycle_spec(s, keypad, rnd).keypad_waiting),
        (exists|i: int| 0 <= i < 16 && keypad[i]) ==> (0 <= first_key(keypad) < 16 && keypad[first_key(
            keypad,
        )] && (forall|j: int| 0 <= j < first_key(keypad) ==> !keypad[j]) && cycle_spec(
            s,
            keypad,
            rnd,
        ).registers == s.registers.update(s.keypad_register, first_key(keypad) as u8) && cycle_spec(
            s,
            keypad,
            rnd,
        ).program_counter == s.program_counter && !cycle_spec(s, keypad, rnd).keypad_waiting),
{
    if forall|i: int| 0 <= i < 16 ==> !keypad[i] {
        lemma_first_key_from(keypad, 0, 16);
    } else {
        let w = choose|i: int| 0 <= i < 16 && keypad[i];
        lemma_first_key_exists(keypad, 0, w);
    }
}

/// Below the lowest pressed key at or after `k` every key is up, and the
/// scan finds a pressed key when one exists.
proof fn lemma_first_key_exists(kp: Seq<bool>, k: int, w: int)
    requires
        kp.len() == 16,
        0 <= k <= w < 16,
        kp[w],
    ensures
        k <= first_key_from(kp, k) <= w,
        kp[first_key_from(kp, k)],
        forall|j: int| k <= j < first_key_from(kp, k) ==> !kp[j],
    decreases w - k,
{
    if !kp[k] && k < w {
        lemma_first_key_exists(kp, k + 1, w);
    }
}

/// A timer that reads zero stays zero across any running (non-waiting)
/// cycle whose instruction does not load that timer: only Fx15 writes the
/// delay timer and only Fx18 the sound timer, and the per-cycle decrement
/// never wraps below zero.
pub proof fn lemma_timer_floor(s: CpuState, keypad: Seq<bool>, rnd: u8)
    requires
        state_wf(s),
        keypad.len() == 16,
        !s.keypad_waiting,
    ensures
        ({
            let op = op_at(s.memory, s.program_counter);
            (s.delay_timer == 0 && !(nib1(op) == 0xF && nib3(op) == 0x1 && nib4(op) == 0x5))
                ==> cycle_spec(s, keypad, rnd).delay_timer == 0
        }),
        ({
            let op = op_at(s.memory, s.program_counter);
            (s.sound_timer == 0 && !(nib1(op) == 0xF && nib3(op) == 0x1 && nib4(op) == 0x8))
                ==> cycle_spec(s, keypad, rnd).sound_timer == 0
        }),
{
}

} // verus!
