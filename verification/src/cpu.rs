//! The interpreter core: state, opcode semantics, and the per-cycle step.
use vstd::prelude::*;

use crate::memory::zero_bytes;
use rand::Rng;

verus! {

/// Mathematical model of the interpreter state. `CPU` views to this.
#[verifier::ext_equal]
pub ghost struct CpuState {
    pub registers: Seq<u8>,
    pub register_i: int,
    pub program_counter: int,
    pub stack: Seq<int>,
    pub stack_pointer: int,
    pub delay_timer: u8,
    pub sound_timer: u8,
    pub memory: Seq<u8>,
    pub video_memory_changed: bool,
    pub video_memory: Seq<u8>,
    pub keypad: Seq<bool>,
    pub keypad_register: int,
    pub keypad_waiting: bool,
}

/// Structural invariant of the model: every fixed-capacity component has its
/// hardware size and the two bounded indices stay in range.
pub open spec fn state_wf(s: CpuState) -> bool {
    &&& s.registers.len() == 16
    &&& s.stack.len() == 16
    &&& s.memory.len() == 4096
    &&& s.video_memory.len() == 2048
    &&& s.keypad.len() == 16
    &&& 0 <= s.stack_pointer <= 16
    &&& 0 <= s.keypad_register < 16
    &&& 0 <= s.register_i
    &&& 0 <= s.program_counter
    &&& forall|i: int| 0 <= i < 16 ==> 0 <= #[trigger] s.stack[i]
}

// ---------------------------------------------------------------------------
// Instruction decoding
// ---------------------------------------------------------------------------

/// The 16-bit big-endian instruction word stored at address `pc`.
pub open spec fn op_at(mem: Seq<u8>, pc: int) -> u16 {
    ((mem[pc] as u16) << 8) | (mem[pc + 1] as u16)
}

/// Highest nibble of an instruction word: the dispatch family.
pub open spec fn nib1(op: u16) -> u16 {
    (op & 0xF000) >> 12
}

/// Second nibble: the register index `x`.
pub open spec fn nib2(op: u16) -> u16 {
    (op & 0x0F00) >> 8
}

/// Third nibble: the register index `y`.
pub open spec fn nib3(op: u16) -> u16 {
    (op & 0x00F0) >> 4
}

/// Lowest nibble: the small count `n`.
pub open spec fn nib4(op: u16) -> u16 {
    op & 0x000F
}

/// Low 12 bits: the absolute address operand `nnn`.
pub open spec fn op_nnn(op: u16) -> int {
    (op & 0x0FFF) as int
}

/// Low 8 bits: the immediate operand `kk`.
pub open spec fn op_kk(op: u16) -> u8 {
    (op & 0x00FF) as u8
}

// ---------------------------------------------------------------------------
// 8-bit wrapping arithmetic
// ---------------------------------------------------------------------------

/// Sum of two registers, wrapped to 8 bits.
pub open spec fn wrap_add(a: u8, b: u8) -> u8 {
    (((a as int) + (b as int)) % 256) as u8
}

/// Difference of two registers, wrapped to 8 bits.
pub open spec fn wrap_sub(a: u8, b: u8) -> u8 {
    (((a as int) - (b as int)) % 256) as u8
}

/// A register doubled, wrapped to 8 bits.
pub open spec fn wrap_double(a: u8) -> u8 {
    ((2 * (a as int)) % 256) as u8
}

/// A timer one tick later: decremented while positive, parked at zero.
pub open spec fn timer_dec(t: u8) -> u8 {
    if t > 0 {
        (t - 1) as u8
    } else {
        0
    }
}

// ---------------------------------------------------------------------------
// The framebuffer and the sprite-draw semantics
// ---------------------------------------------------------------------------

/// An all-black 64x32 framebuffer, stored row-major.
pub open spec fn zero_video() -> Seq<u8> {
    Seq::new(2048, |p: int| 0u8)
}

/// Bit `b` (0 = leftmost) of sprite row `r`, read from memory at `i + r`.
pub open spec fn sprite_bit(mem: Seq<u8>, i: int, r: int, b: int) -> u8 {
    (mem[i + r] >> ((7 - b) as u8)) & 1
}

/// Row-major position of pixel `(yy, xx)` in the flat framebuffer.
pub open spec fn pixel_index(yy: int, xx: int) -> int {
    yy * 64 + xx
}

/// Flat framebuffer position hit by sprite row `r`, bit `b`, when the sprite
/// is anchored at `(vx, vy)`; coordinates wrap on the 64x32 torus.
pub open spec fn draw_pos(vx: u8, vy: u8, r: int, b: int) -> int {
    ((vy as int + r) % 32) * 64 + ((vx as int + b) % 64)
}

/// Pixel `(yy, xx)` after the first `rows` full sprite rows and the first
/// `bits` bits of row `rows` have been blitted: XOR-ed with its sprite bit
/// when some blitted (row, bit) lands on it, untouched otherwise.
pub open spec fn draw_pixel_upto(
    video: Seq<u8>,
    mem: Seq<u8>,
    i: int,
    vx: u8,
    vy: u8,
    rows: int,
    bits: int,
    yy: int,
    xx: int,
) -> u8 {
    let r = (yy - vy as int) % 32;
    let b = (xx - vx as int) % 64;
    if b < 8 && (r < rows || (r == rows && b < bits)) {
        video[yy * 64 + xx] ^ sprite_bit(mem, i, r, b)
    } else {
        video[yy * 64 + xx]
    }
}

/// Pixel `(yy, xx)` after a full `n`-row sprite draw.
pub open spec fn draw_pixel(
    video: Seq<u8>,
    mem: Seq<u8>,
    i: int,
    vx: u8,
    vy: u8,
    n: int,
    yy: int,
    xx: int,
) -> u8 {
    draw_pixel_upto(video, mem, i, vx, vy, n, 0, yy, xx)
}

/// The whole framebuffer after an `n`-row sprite draw.
pub open spec fn draw_video(
    video: Seq<u8>,
    mem: Seq<u8>,
    i: int,
    vx: u8,
    vy: u8,
    n: int,
) -> Seq<u8> {
    Seq::new(2048, |p: int| draw_pixel(video, mem, i, vx, vy, n, p / 64, p % 64))
}

/// Whether some sprite bit among the first `rows` full rows and the first
/// `bits` bits of row `rows` lands on a pixel whose low bit is already set.
pub open spec fn draw_hit_upto(
    video: Seq<u8>,
    mem: Seq<u8>,
    i: int,
    vx: u8,
    vy: u8,
    rows: int,
    bits: int,
) -> bool {
    exists|r: int, b: int|
        0 <= r && 0 <= b < 8 && (r < rows || (r == rows && b < bits))
            && sprite_bit(mem, i, r, b) == 1 && video[draw_pos(vx, vy, r, b)] & 1 == 1
}

/// Collision: some sprite bit of the full `n`-row draw lands on a set pixel.
pub open spec fn draw_hit(video: Seq<u8>, mem: Seq<u8>, i: int, vx: u8, vy: u8, n: int) -> bool {
    draw_hit_upto(video, mem, i, vx, vy, n, 0)
}

/// The carry register after a draw: 1 on collision, 0 otherwise.
pub open spec fn draw_vf(video: Seq<u8>, mem: Seq<u8>, i: int, vx: u8, vy: u8, n: int) -> u8 {
    if draw_hit(video, mem, i, vx, vy, n) {
        1u8
    } else {
        0u8
    }
}

// ---------------------------------------------------------------------------
// Lemmas about the torus coordinates of a draw
// ---------------------------------------------------------------------------

/// A row-major position splits back into its row and column.
pub proof fn lemma_pos_decompose(yy: int, xx: int)
    requires
        0 <= yy < 32,
        0 <= xx < 64,
    ensures
        (yy * 64 + xx) / 64 == yy,
        (yy * 64 + xx) % 64 == xx,
        0 <= yy * 64 + xx < 2048,
{
    vstd::arithmetic::div_mod::lemma_fundamental_div_mod_converse(yy * 64 + xx, 64, yy, xx);
}

/// Wrapping `r` steps forward from `base` and asking how far the result is
/// from `base` (mod `m`) gives `r` back.
pub proof fn lemma_wrap_inverse(base: int, r: int, m: int)
    requires
        0 < m,
        0 <= r < m,
        0 <= base,
    ensures
        ((base + r) % m - base) % m == r,
{
    let q = (base + r) / m;
    vstd::arithmetic::div_mod::lemma_fundamental_div_mod(base + r, m);
    let t = (base + r) % m - base;
    assert(t == (-q) * m + r) by (nonlinear_arith)
        requires
            base + r == m * q + (base + r) % m,
            t == (base + r) % m - base,
    ;
    vstd::arithmetic::div_mod::lemma_fundamental_div_mod_converse_mod(t, m, -q, r);
}

/// Wrapping forward by the distance from `base` to `yy` (mod `m`) lands on
/// `yy` itself.
pub proof fn lemma_wrap_forward(base: int, yy: int, m: int)
    requires
        0 < m,
        0 <= yy < m,
        0 <= base,
    ensures
        (base + (yy - base) % m) % m == yy,
{
    vstd::arithmetic::div_mod::lemma_add_mod_noop_right(base, yy - base, m);
    vstd::arithmetic::div_mod::lemma_small_mod(yy as nat, m as nat);
}

/// Extending a partial draw by one sprite bit extends the collision account
/// by exactly that bit's contribution.
proof fn lemma_hit_step(
    video: Seq<u8>,
    mem: Seq<u8>,
    i: int,
    vx: u8,
    vy: u8,
    rows: int,
    bits: int,
)
    requires
        0 <= bits < 8,
        0 <= rows,
    ensures
        draw_hit_upto(video, mem, i, vx, vy, rows, bits + 1) <==> (draw_hit_upto(
            video,
            mem,
            i,
            vx,
            vy,
            rows,
            bits,
        ) || (sprite_bit(mem, i, rows, bits) == 1 && video[draw_pos(vx, vy, rows, bits)] & 1
            == 1)),
{
    if draw_hit_upto(video, mem, i, vx, vy, rows, bits + 1) {
        let (r, b): (int, int) = choose|r: int, b: int|
            0 <= r && 0 <= b < 8 && (r < rows || (r == rows && b < bits + 1)) && sprite_bit(
                mem,
                i,
                r,
                b,
            ) == 1 && video[draw_pos(vx, vy, r, b)] & 1 == 1;
        if r < rows || (r == rows && b < bits) {
            assert(draw_hit_upto(video, mem, i, vx, vy, rows, bits));
        } else {
            assert(r == rows && b == bits);
        }
    }
    if draw_hit_upto(video, mem, i, vx, vy, rows, bits) {
        let (r, b): (int, int) = choose|r: int, b: int|
            0 <= r && 0 <= b < 8 && (r < rows || (r == rows && b < bits)) && sprite_bit(
                mem,
                i,
                r,
                b,
            ) == 1 && video[draw_pos(vx, vy, r, b)] & 1 == 1;
        assert(0 <= r && 0 <= b < 8 && (r < rows || (r == rows && b < bits + 1)) && sprite_bit(
            mem,
            i,
            r,
            b,
        ) == 1 && video[draw_pos(vx, vy, r, b)] & 1 == 1);
    }
    if sprite_bit(mem, i, rows, bits) == 1 && video[draw_pos(vx, vy, rows, bits)] & 1 == 1 {
        assert(0 <= rows && 0 <= bits < 8 && (rows < rows || (rows == rows && bits < bits + 1))
            && sprite_bit(mem, i, rows, bits) == 1 && video[draw_pos(vx, vy, rows, bits)] & 1
            == 1);
    }
}

/// A partial draw that has finished all 8 bits of a row accounts for the same
/// collisions as one about to start the next row.
proof fn lemma_hit_row(video: Seq<u8>, mem: Seq<u8>, i: int, vx: u8, vy: u8, rows: int)
    ensures
        draw_hit_upto(video, mem, i, vx, vy, rows, 8) <==> draw_hit_upto(
            video,
            mem,
            i,
            vx,
            vy,
            rows + 1,
            0,
        ),
{
    if draw_hit_upto(video, mem, i, vx, vy, rows, 8) {
        let (r, b): (int, int) = choose|r: int, b: int|
            0 <= r && 0 <= b < 8 && (r < rows || (r == rows && b < 8)) && sprite_bit(mem, i, r, b)
                == 1 && video[draw_pos(vx, vy, r, b)] & 1 == 1;
        assert(0 <= r && 0 <= b < 8 && (r < rows + 1 || (r == rows + 1 && b < 0)) && sprite_bit(
            mem,
            i,
            r,
            b,
        ) == 1 && video[draw_pos(vx, vy, r, b)] & 1 == 1);
    }
    if draw_hit_upto(video, mem, i, vx, vy, rows + 1, 0) {
        let (r, b): (int, int) = choose|r: int, b: int|
            0 <= r && 0 <= b < 8 && (r < rows + 1 || (r == rows + 1 && b < 0)) && sprite_bit(
                mem,
                i,
                r,
                b,
            ) == 1 && video[draw_pos(vx, vy, r, b)] & 1 == 1;
        assert(0 <= r && 0 <= b < 8 && (r < rows || (r == rows && b < 8)) && sprite_bit(
            mem,
            i,
            r,
            b,
        ) == 1 && video[draw_pos(vx, vy, r, b)] & 1 == 1);
    }
}

// ---------------------------------------------------------------------------
// The keypad-wait scan
// ---------------------------------------------------------------------------

/// Index of the first pressed key at or after `i`, or 16 when none is.
pub open spec fn first_key_from(keypad: Seq<bool>, i: int) -> int
    decreases 16 - i,
{
    if i < 0 || i >= 16 {
        16
    } else if keypad[i] {
        i
    } else {
        first_key_from(keypad, i + 1)
    }
}

/// Index of the lowest pressed key, or 16 when none is pressed.
pub open spec fn first_key(keypad: Seq<bool>) -> int {
    first_key_from(keypad, 0)
}

// ---------------------------------------------------------------------------
// Per-opcode state transforms (program counter handled by the dispatcher)
// ---------------------------------------------------------------------------

/// Register `x` replaced by `v`.
pub open spec fn set_reg(s: CpuState, x: int, v: u8) -> CpuState {
    CpuState { registers: s.registers.update(x, v), ..s }
}

/// 00E0: framebuffer cleared and marked dirty.
pub open spec fn step_00e0(s: CpuState) -> CpuState {
    CpuState { video_memory: zero_video(), video_memory_changed: true, ..s }
}

/// 00EE: one return address popped (the slot itself is left in place).
pub open spec fn step_00ee(s: CpuState) -> CpuState {
    CpuState { stack_pointer: s.stack_pointer - 1, ..s }
}

/// 2nnn: the address of the following instruction pushed.
pub open spec fn step_2nnn(s: CpuState) -> CpuState {
    CpuState {
        stack: s.stack.update(s.stack_pointer, s.program_counter + 2),
        stack_pointer: s.stack_pointer + 1,
        ..s
    }
}

/// 8xy4: add with carry; the sum is written before the flag.
pub open spec fn step_8xy4(s: CpuState, x: int, y: int) -> CpuState {
    let sum = (s.registers[x] as int) + (s.registers[y] as int);
    let carry: u8 = if sum > 0xFF {
        1
    } else {
        0
    };
    CpuState {
        registers: s.registers.update(x, wrap_add(s.registers[x], s.registers[y])).update(
            15,
            carry,
        ),
        ..s
    }
}

/// 8xy5: subtract with not-borrow; the flag is written before the difference,
/// so with `x` or `y` equal to 0xF the difference reads the fresh flag.
pub open spec fn step_8xy5(s: CpuState, x: int, y: int) -> CpuState {
    let flag: u8 = if s.registers[x] > s.registers[y] {
        1
    } else {
        0
    };
    let r1 = s.registers.update(15, flag);
    CpuState { registers: r1.update(x, wrap_sub(r1[x], r1[y])), ..s }
}

/// 8xy6: shift right; the dropped bit is written to the flag first.
pub open spec fn step_8xy6(s: CpuState, x: int) -> CpuState {
    let r1 = s.registers.update(15, s.registers[x] & 1);
    CpuState { registers: r1.update(x, r1[x] / 2), ..s }
}

/// 8xy7: reverse subtract; the flag is written before the difference.
pub open spec fn step_8xy7(s: CpuState, x: int, y: int) -> CpuState {
    let flag: u8 = if s.registers[y] > s.registers[x] {
        1
    } else {
        0
    };
    let r1 = s.registers.update(15, flag);
    CpuState { registers: r1.update(x, wrap_sub(r1[y], r1[x])), ..s }
}

/// 8xyE: shift left; the dropped bit is written to the flag first.
pub open spec fn step_8xye(s: CpuState, x: int) -> CpuState {
    let r1 = s.registers.update(15, (s.registers[x] & 0x80) >> 7);
    CpuState { registers: r1.update(x, wrap_double(r1[x])), ..s }
}

/// Dxyn: the sprite blitted onto the framebuffer, collision in the flag.
pub open spec fn step_dxyn(s: CpuState, x: int, y: int, n: int) -> CpuState {
    let vx = s.registers[x];
    let vy = s.registers[y];
    CpuState {
        registers: s.registers.update(15, draw_vf(s.video_memory, s.memory, s.register_i, vx, vy, n)),
        video_memory: draw_video(s.video_memory, s.memory, s.register_i, vx, vy, n),
        video_memory_changed: true,
        ..s
    }
}

/// Fx0A: the keypad-wait latch armed for register `x`.
pub open spec fn step_fx0a(s: CpuState, x: int) -> CpuState {
    CpuState { keypad_waiting: true, keypad_register: x, ..s }
}

/// Fx1E: the address register advanced by `Vx`, overflow flag against the
/// 0xF00 boundary.
pub open spec fn step_fx1e(s: CpuState, x: int) -> CpuState {
    let i2 = s.register_i + s.registers[x] as int;
    let flag: u8 = if i2 > 0xF00 {
        1
    } else {
        0
    };
    CpuState { register_i: i2, registers: s.registers.update(15, flag), ..s }
}

/// Fx33: the three decimal digits of `Vx` written at `I`, `I+1`, `I+2`.
pub open spec fn step_fx33(s: CpuState, x: int) -> CpuState {
    let vx = s.registers[x];
    CpuState {
        memory: s.memory.update(s.register_i, vx / 100).update(
            s.register_i + 1,
            (vx % 100) / 10,
        ).update(s.register_i + 2, vx % 10),
        ..s
    }
}

/// Fx55: registers `V0..=Vx` dumped into memory from `I` on.
pub open spec fn step_fx55(s: CpuState, x: int) -> CpuState {
    CpuState {
        memory: Seq::new(
            4096,
            |j: int|
                if s.register_i <= j <= s.register_i + x {
                    s.registers[j - s.register_i]
                } else {
                    s.memory[j]
                },
        ),
        ..s
    }
}

/// Fx65: registers `V0..=Vx` loaded from memory from `I` on.
pub open spec fn step_fx65(s: CpuState, x: int) -> CpuState {
    CpuState {
        registers: Seq::new(
            16,
            |j: int|
                if 0 <= j <= x {
                    s.memory[s.register_i + j]
                } else {
                    s.registers[j]
                },
        ),
        ..s
    }
}

// ---------------------------------------------------------------------------
// The fetch-decode-execute step
// ---------------------------------------------------------------------------

/// `t` with the program counter advanced past the current instruction.
pub open spec fn at_next(t: CpuState) -> CpuState {
    CpuState { program_counter: t.program_counter + 2, ..t }
}

/// `t` with the program counter advanced past the next instruction too.
pub open spec fn at_skip(t: CpuState) -> CpuState {
    CpuState { program_counter: t.program_counter + 4, ..t }
}

/// `t` with the program counter set to an absolute address.
pub open spec fn at_jump(t: CpuState, a: int) -> CpuState {
    CpuState { program_counter: a, ..t }
}

/// `at_skip` when the condition holds, `at_next` otherwise.
pub open spec fn at_skip_if(t: CpuState, c: bool) -> CpuState {
    if c {
        at_skip(t)
    } else {
        at_next(t)
    }
}

/// The bounds that the instruction at the program counter needs so that its
/// execution stays inside the fixed-capacity state: the fetch itself, the
/// call stack on call and return, and every memory- or keypad-indexed access.
/// Beyond these a step is total; an unrecognized instruction is a no-op.
pub open spec fn exec_ok(s: CpuState) -> bool {
    &&& s.program_counter + 2 <= 4096
    &&& {
        let op = op_at(s.memory, s.program_counter);
        let x = nib2(op) as int;
        if nib1(op) == 0x0 && nib2(op) == 0x0 && nib3(op) == 0xE && nib4(op) == 0xE {
            s.stack_pointer >= 1
        } else if nib1(op) == 0x2 {
            s.stack_pointer < 16
        } else if nib1(op) == 0xD {
            s.register_i + nib4(op) <= 4096
        } else if nib1(op) == 0xE && ((nib3(op) == 0x9 && nib4(op) == 0xE) || (nib3(op) == 0xA
            && nib4(op) == 0x1)) {
            s.registers[x] < 16
        } else if nib1(op) == 0xF && nib3(op) == 0x1 && nib4(op) == 0xE {
            s.register_i + s.registers[x] <= usize::MAX
        } else if nib1(op) == 0xF && nib3(op) == 0x3 && nib4(op) == 0x3 {
            s.register_i + 2 < 4096
        } else if nib1(op) == 0xF && (nib3(op) == 0x5 || nib3(op) == 0x6) && nib4(op) == 0x5 {
            s.register_i + x < 4096
        } else {
            true
        }
    }
}

/// The state after fetching, decoding and executing one instruction.
/// `rnd` is the byte the random-number source hands Cxkk; every other
/// instruction ignores it.
pub open spec fn execute_spec(s: CpuState, rnd: u8) -> CpuState {
    let op = op_at(s.memory, s.program_counter);
    let x = nib2(op) as int;
    let y = nib3(op) as int;
    let n = nib4(op) as int;
    let nnn = op_nnn(op);
    let kk = op_kk(op);
    if nib1(op) == 0x0 && nib2(op) == 0x0 && nib3(op) == 0xE && nib4(op) == 0x0 {
        at_next(step_00e0(s))
    } else if nib1(op) == 0x0 && nib2(op) == 0x0 && nib3(op) == 0xE && nib4(op) == 0xE {
        at_jump(step_00ee(s), s.stack[s.stack_pointer - 1])
    } else if nib1(op) == 0x1 {
        at_jump(s, nnn)
    } else if nib1(op) == 0x2 {
        at_jump(step_2nnn(s), nnn)
    } else if nib1(op) == 0x3 {
        at_skip_if(s, s.registers[x] == kk)
    } else if nib1(op) == 0x4 {
        at_skip_if(s, s.registers[x] != kk)
    } else if nib1(op) == 0x5 && nib4(op) == 0x0 {
        at_skip_if(s, s.registers[x] == s.registers[y])
    } else if nib1(op) == 0x6 {
        at_next(set_reg(s, x, kk))
    } else if nib1(op) == 0x7 {
        at_next(set_reg(s, x, wrap_add(s.registers[x], kk)))
    } else if nib1(op) == 0x8 && nib4(op) == 0x0 {
        at_next(set_reg(s, x, s.registers[y]))
    } else if nib1(op) == 0x8 && nib4(op) == 0x1 {
        at_next(set_reg(s, x, s.registers[x] | s.registers[y]))
    } else if nib1(op) == 0x8 && nib4(op) == 0x2 {
        at_next(set_reg(s, x, s.registers[x] & s.registers[y]))
    } else if nib1(op) == 0x8 && nib4(op) == 0x3 {
        at_next(set_reg(s, x, s.registers[x] ^ s.registers[y]))
    } else if nib1(op) == 0x8 && nib4(op) == 0x4 {
        at_next(step_8xy4(s, x, y))
    } else if nib1(op) == 0x8 && nib4(op) == 0x5 {
        at_next(step_8xy5(s, x, y))
    } else if nib1(op) == 0x8 && nib4(op) == 0x6 {
        at_next(step_8xy6(s, x))
    } else if nib1(op) == 0x8 && nib4(op) == 0x7 {
        at_next(step_8xy7(s, x, y))
    } else if nib1(op) == 0x8 && nib4(op) == 0xE {
        at_next(step_8xye(s, x))
    } else if nib1(op) == 0x9 && nib4(op) == 0x0 {
        at_skip_if(s, s.registers[x] != s.registers[y])
    } else if nib1(op) == 0xA {
        at_next(CpuState { register_i: nnn, ..s })
    } else if nib1(op) == 0xB {
        at_jump(s, s.registers[0] as int + nnn)
    } else if nib1(op) == 0xC {
        at_next(set_reg(s, x, rnd & kk))
    } else if nib1(op) == 0xD {
        at_next(step_dxyn(s, x, y, n))
    } else if nib1(op) == 0xE && nib3(op) == 0x9 && nib4(op) == 0xE {
        at_skip_if(s, s.keypad[s.registers[x] as int])
    } else if nib1(op) == 0xE && nib3(op) == 0xA && nib4(op) == 0x1 {
        at_skip_if(s, !s.keypad[s.registers[x] as int])
    } else if nib1(op) == 0xF && nib3(op) == 0x0 && nib4(op) == 0x7 {
        at_next(set_reg(s, x, s.delay_timer))
    } else if nib1(op) == 0xF && nib3(op) == 0x0 && nib4(op) == 0xA {
        at_next(step_fx0a(s, x))
    } else if nib1(op) == 0xF && nib3(op) == 0x1 && nib4(op) == 0x5 {
        at_next(CpuState { delay_timer: s.registers[x], ..s })
    } else if nib1(op) == 0xF && nib3(op) == 0x1 && nib4(op) == 0x8 {
        at_next(CpuState { sound_timer: s.registers[x], ..s })
    } else if nib1(op) == 0xF && nib3(op) == 0x1 && nib4(op) == 0xE {
        at_next(step_fx1e(s, x))
    } else if nib1(op) == 0xF && nib3(op) == 0x2 && nib4(op) == 0x9 {
        at_next(CpuState { register_i: 5 * s.registers[x] as int, ..s })
    } else if nib1(op) == 0xF && nib3(op) == 0x3 && nib4(op) == 0x3 {
        at_next(step_fx33(s, x))
    } else if nib1(op) == 0xF && nib3(op) == 0x5 && nib4(op) == 0x5 {
        at_next(step_fx55(s, x))
    } else if nib1(op) == 0xF && nib3(op) == 0x6 && nib4(op) == 0x5 {
        at_next(step_fx65(s, x))
    } else {
        at_next(s)
    }
}

/// One full cycle: the keypad snapshot is taken and the dirty flag cleared;
/// a waiting machine only polls the keypad; a running machine ticks both
/// timers down and executes one instruction.
pub open spec fn cycle_spec(s: CpuState, keypad: Seq<bool>, rnd: u8) -> CpuState {
    let s1 = CpuState { keypad: keypad, video_memory_changed: false, ..s };
    if s.keypad_waiting {
        if first_key(keypad) < 16 {
            CpuState {
                keypad_waiting: false,
                registers: s1.registers.update(s1.keypad_register, first_key(keypad) as u8),
                ..s1
            }
        } else {
            s1
        }
    } else {
        let s2 = CpuState {
            delay_timer: timer_dec(s1.delay_timer),
            sound_timer: timer_dec(s1.sound_timer),
            ..s1
        };
        execute_spec(s2, rnd)
    }
}

// ---------------------------------------------------------------------------
// Frame conditions shared by the loop invariants
// ---------------------------------------------------------------------------

/// `t` agrees with `s` on everything but the framebuffer and its dirty flag.
pub open spec fn frame_video(s: CpuState, t: CpuState) -> bool {
    &&& t.registers == s.registers
    &&& t.register_i == s.register_i
    &&& t.program_counter == s.program_counter
    &&& t.stack == s.stack
    &&& t.stack_pointer == s.stack_pointer
    &&& t.delay_timer == s.delay_timer
    &&& t.sound_timer == s.sound_timer
    &&& t.memory == s.memory
    &&& t.keypad == s.keypad
    &&& t.keypad_register == s.keypad_register
    &&& t.keypad_waiting == s.keypad_waiting
}

/// `t` agrees with `s` on everything but memory.
pub open spec fn frame_memory(s: CpuState, t: CpuState) -> bool {
    &&& t.registers == s.registers
    &&& t.register_i == s.register_i
    &&& t.program_counter == s.program_counter
    &&& t.stack == s.stack
    &&& t.stack_pointer == s.stack_pointer
    &&& t.delay_timer == s.delay_timer
    &&& t.sound_timer == s.sound_timer
    &&& t.video_memory == s.video_memory
    &&& t.video_memory_changed == s.video_memory_changed
    &&& t.keypad == s.keypad
    &&& t.keypad_register == s.keypad_register
    &&& t.keypad_waiting == s.keypad_waiting
}

/// `t` agrees with `s` on everything but the register file.
pub open spec fn frame_registers(s: CpuState, t: CpuState) -> bool {
    &&& t.register_i == s.register_i
    &&& t.program_counter == s.program_counter
    &&& t.stack == s.stack
    &&& t.stack_pointer == s.stack_pointer
    &&& t.delay_timer == s.delay_timer
    &&& t.sound_timer == s.sound_timer
    &&& t.memory == s.memory
    &&& t.video_memory == s.video_memory
    &&& t.video_memory_changed == s.video_memory_changed
    &&& t.keypad == s.keypad
    &&& t.keypad_register == s.keypad_register
    &&& t.keypad_waiting == s.keypad_waiting
}

/// What an opcode handler asks the dispatcher to do with the program counter.
#[derive(Debug, PartialEq, Eq, Structural)]
pub enum ProgramCounter {
    Next,
    Skip,
    Jump(usize),
}

impl ProgramCounter {
    /// `Skip` when the condition holds, `Next` otherwise; the shared helper
    /// of all conditional-skip opcodes.
    pub fn skip_if(condition: bool) -> (r: ProgramCounter)
        ensures
            r == (if condition {
                ProgramCounter::Skip
            } else {
                ProgramCounter::Next
            }),
    {
        match condition {
            true => ProgramCounter::Skip,
            _ => ProgramCounter::Next,
        }
    }
}

/// Relies on `rand::thread_rng` and `rand::Rng::gen`: one byte drawn from the
/// thread-local random-number generator. Nothing is assumed of its value.
#[verifier::external_body]
fn random_byte() -> u8 {
    rand::thread_rng().gen()
}

/// First pressed key: scanning stops at the lowest pressed index.
pub proof fn lemma_first_key_from(kp: Seq<bool>, k: int, i: int)
    requires
        kp.len() == 16,
        0 <= k <= i <= 16,
        forall|j: int| k <= j < i ==> !kp[j],
        i < 16 ==> kp[i],
    ensures
        first_key_from(kp, k) == i,
    decreases i - k,
{
    if k < i {
        lemma_first_key_from(kp, k + 1, i);
    }
}

/// A copy of a byte vector.
fn copy_bytes(v: &Vec<u8>) -> (r: Vec<u8>)
    ensures
        r@ == v@,
{
    let mut r: Vec<u8> = Vec::new();
    let mut i: usize = 0;
    while i < v.len()
        invariant
            i <= v@.len(),
            r@.len() == i,
            forall|j: int| 0 <= j < i ==> r@[j] == v@[j],
        decreases v@.len() - i,
    {
        r.push(v[i]);
        i = i + 1;
    }
    proof {
        assert(r@ =~= v@);
    }
    r
}

/// What one cycle hands back to the driver.
pub struct Output {
    pub video_memory: Vec<u8>,
    pub video_memory_changed: bool,
    pub beep: bool,
}

/// The central processing unit of the virtual machine.
pub struct CPU {
    pub registers: Vec<u8>,
    pub register_i: usize,
    pub program_counter: usize,
    pub stack: Vec<usize>,
    pub stack_pointer: usize,
    pub delay_timer: u8,
    pub sound_timer: u8,
    pub memory: Vec<u8>,
    pub video_memory_changed: bool,
    pub video_memory: Vec<u8>,
    pub keypad: Vec<bool>,
    pub keypad_register: usize,
    pub keypad_waiting: bool,
}

impl View for CPU {
    type V = CpuState;

    open spec fn view(&self) -> CpuState {
        CpuState {
            registers: self.registers@,
            register_i: self.register_i as int,
            program_counter: self.program_counter as int,
            stack: self.stack@.map_values(|v: usize| v as int),
            stack_pointer: self.stack_pointer as int,
            delay_timer: self.delay_timer,
            sound_timer: self.sound_timer,
            memory: self.memory@,
            video_memory_changed: self.video_memory_changed,
            video_memory: self.video_memory@,
            keypad: self.keypad@,
            keypad_register: self.keypad_register as int,
            keypad_waiting: self.keypad_waiting,
        }
    }
}

impl CPU {
    /// Structural invariant, carried through every operation.
    pub open spec fn wf(&self) -> bool {
        state_wf(self@)
    }

    /// A vector of `n` `false` entries.
    fn falses(n: usize) -> (r: Vec<bool>)
        ensures
            r@.len() == n,
            forall|i: int| 0 <= i < n ==> !r@[i],
    {
        let mut r: Vec<bool> = Vec::new();
        while r.len() < n
            invariant
                r@.len() <= n,
                forall|i: int| 0 <= i < r@.len() ==> !r@[i],
            decreases n - r@.len(),
        {
            r.push(false);
        }
        r
    }

    /// A vector of `n` zero addresses.
    fn zero_addresses(n: usize) -> (r: Vec<usize>)
        ensures
            r@.len() == n,
            forall|i: int| 0 <= i < n ==> r@[i] == 0,
    {
        let mut r: Vec<usize> = Vec::new();
        while r.len() < n
            invariant
                r@.len() <= n,
                forall|i: int| 0 <= i < r@.len() ==> r@[i] == 0,
            decreases n - r@.len(),
        {
            r.push(0);
        }
        r
    }

    /// A fresh machine over the given 4096-byte memory image: registers,
    /// stack, timers and framebuffer cleared, both address registers at the
    /// conventional program start 0x200.
    pub fn new(memory: Vec<u8>) -> (r: CPU)
        requires
            memory@.len() == 4096,
        ensures
            r.wf(),
            r@.memory == memory@,
            r@.register_i == 0x200,
            r@.program_counter == 0x200,
            r@.stack_pointer == 0,
            r@.delay_timer == 0,
            r@.sound_timer == 0,
            !r@.video_memory_changed,
            !r@.keypad_waiting,
            r@.keypad_register == 0,
            forall|i: int| 0 <= i < 16 ==> r@.registers[i] == 0,
            forall|i: int| 0 <= i < 2048 ==> r@.video_memory[i] == 0,
            forall|i: int| 0 <= i < 16 ==> r@.stack[i] == 0,
            forall|i: int| 0 <= i < 16 ==> !r@.keypad[i],
    {
        let cpu = CPU {
            registers: zero_bytes(16),
            register_i: 0x200,
            program_counter: 0x200,
            stack: Self::zero_addresses(16),
            stack_pointer: 0,
            delay_timer: 0,
            sound_timer: 0,
            memory,
            video_memory_changed: false,
            video_memory: zero_bytes(2048),
            keypad: Self::falses(16),
            keypad_register: 0,
            keypad_waiting: false,
        };
        cpu
    }

    /// Whether one cycle can run from the current state without hitting a
    /// fatal fault: a waiting machine always can; a running one needs the
    /// bounds of `exec_ok` (stack room on call, a return address on return,
    /// in-range memory and keypad accesses). Hosts check this before
    /// `cpu_cycle`.
    pub fn can_step(&self) -> (r: bool)
        requires
            self.wf(),
        ensures
            r == (self@.keypad_waiting || exec_ok(self@)),
    {
        if self.keypad_waiting {
            return true;
        }
        if self.program_counter > 4094 {
            return false;
        }
        let opcode = self.opcode_fetch();
        let n1 = (opcode & 0xF000) >> 12;
        let n2 = (opcode & 0x0F00) >> 8;
        let n3 = (opcode & 0x00F0) >> 4;
        let n4 = opcode & 0x000F;
        proof {
            assert((opcode & 0x0F00) >> 8 < 16 && (opcode & 0x000F) < 16) by (bit_vector);
        }
        let x = n2 as usize;
        if n1 == 0x0 && n2 == 0x0 && n3 == 0xE && n4 == 0xE {
            self.stack_pointer >= 1
        } else if n1 == 0x2 {
            self.stack_pointer < 16
        } else if n1 == 0xD {
            self.register_i <= 4096 - (n4 as usize)
        } else if n1 == 0xE && ((n3 == 0x9 && n4 == 0xE) || (n3 == 0xA && n4 == 0x1)) {
            self.registers[x] < 16
        } else if n1 == 0xF && n3 == 0x1 && n4 == 0xE {
            self.register_i <= usize::MAX - (self.registers[x] as usize)
        } else if n1 == 0xF && n3 == 0x3 && n4 == 0x3 {
            self.register_i < 4094
        } else if n1 == 0xF && (n3 == 0x5 || n3 == 0x6) && n4 == 0x5 {
            self.register_i < 4096 - x
        } else {
            true
        }
    }

    /// Run one cycle: take the keypad snapshot and reset the dirty flag;
    /// while the keypad-wait latch is armed only poll the keys (the lowest
    /// pressed index releases the latch into the latched register); otherwise
    /// tick both timers down and execute one instruction. Returns the
    /// framebuffer, its dirty flag, and the beep level.
    pub fn cpu_cycle(&mut self, keypad: Vec<bool>) -> (out: Output)
        requires
            old(self).wf(),
            keypad@.len() == 16,
            old(self)@.keypad_waiting || exec_ok(old(self)@),
        ensures
            final(self).wf(),
            exists|b: u8| final(self)@ == cycle_spec(old(self)@, keypad@, b),
            out.video_memory@ == final(self)@.video_memory,
            out.video_memory_changed == final(self)@.video_memory_changed,
            out.beep == (final(self)@.sound_timer > 0),
    {
        let ghost s0 = old(self)@;
        let ghost kp = keypad@;
        self.keypad = keypad;
        self.video_memory_changed = false;
        let ghost mut bw: u8 = 0;

        if self.keypad_waiting {
            let mut i: usize = 0;
            while i < 16 && !self.keypad[i]
                invariant
                    self@.keypad.len() == 16,
                    self@.keypad == kp,
                    i <= 16,
                    forall|j: int| 0 <= j < i ==> !kp[j],
                decreases 16 - i,
            {
                i = i + 1;
            }
            proof {
                lemma_first_key_from(kp, 0, i as int);
            }
            if i < 16 {
                self.keypad_waiting = false;
                let idx = self.keypad_register;
                self.registers.set(idx, i as u8);
            }
        } else {
            if self.delay_timer > 0 {
                self.delay_timer -= 1;
            }
            if self.sound_timer > 0 {
                self.sound_timer -= 1;
            }
            proof {
                assert(exec_ok(self@));
            }
            let rnd = self.opcode_execute();
            proof {
                bw = rnd@;
            }
        }

        let video = copy_bytes(&self.video_memory);
        let out = Output {
            video_memory: video,
            video_memory_changed: self.video_memory_changed,
            beep: self.sound_timer > 0,
        };
        proof {
            assert(self@ =~= cycle_spec(s0, kp, bw));
            assert(exists|b: u8| self@ == cycle_spec(s0, kp, b));
        }
        out
    }

    /// Fetch, decode and execute the instruction at the program counter,
    /// then apply the transition it asks of the program counter. The returned
    /// ghost byte is what the random source produced this step; together with
    /// the pre-state it pins the post-state exactly.
    pub fn opcode_execute(&mut self) -> (rnd: Ghost<u8>)
        requires
            old(self).wf(),
            exec_ok(old(self)@),
        ensures
            final(self).wf(),
            final(self)@ == execute_spec(old(self)@, rnd@),
    {
        let ghost s0 = old(self)@;
        let opcode = self.opcode_fetch();

        let nibbles = (
            (opcode & 0xF000) >> 12,
            (opcode & 0x0F00) >> 8,
            (opcode & 0x00F0) >> 4,
            (opcode & 0x000F),
        );
        proof {
            assert((opcode & 0xF000) >> 12 < 16 && (opcode & 0x0F00) >> 8 < 16 && (opcode
                & 0x00F0) >> 4 < 16 && (opcode & 0x000F) < 16 && (opcode & 0x0FFF) < 4096 && (
            opcode & 0x00FF) < 256) by (bit_vector);
        }

        let nnn = (opcode & 0x0FFF) as usize;
        let kk = (opcode & 0x00FF) as u8;
        let x = nibbles.1 as usize;
        let y = nibbles.2 as usize;
        let n = nibbles.3 as usize;
        let ghost mut bw: u8 = 0;

        let pc_change = match nibbles {
            (0x00, 0x00, 0x0e, 0x00) => self.opcode_00e0(),
            (0x00, 0x00, 0x0e, 0x0e) => self.opcode_00ee(),
            (0x01, _, _, _) => self.opcode_1nnn(nnn),
            (0x02, _, _, _) => self.opcode_2nnn(nnn),
            (0x03, _, _, _) => self.opcode_3xkk(x, kk),
            (0x04, _, _, _) => self.opcode_4xkk(x, kk),
            (0x05, _, _, 0x00) => self.opcode_5xy0(x, y),
            (0x06, _, _, _) => self.opcode_6xkk(x, kk),
            (0x07, _, _, _) => self.opcode_7xkk(x, kk),
            (0x08, _, _, 0x00) => self.opcode_8xy0(x, y),
            (0x08, _, _, 0x01) => self.opcode_8xy1(x, y),
            (0x08, _, _, 0x02) => self.opcode_8xy2(x, y),
            (0x08, _, _, 0x03) => self.opcode_8xy3(x, y),
            (0x08, _, _, 0x04) => self.opcode_8xy4(x, y),
            (0x08, _, _, 0x05) => self.opcode_8xy5(x, y),
            (0x08, _, _, 0x06) => self.opcode_8xy6(x, y),
            (0x08, _, _, 0x07) => self.opcode_8xy7(x, y),
            (0x08, _, _, 0x0e) => self.opcode_8xye(x, y),
            (0x09, _, _, 0x00) => self.opcode_9xy0(x, y),
            (0x0a, _, _, _) => self.opcode_annn(nnn),
            (0x0b, _, _, _) => self.opcode_bnn(nnn),
            (0x0c, _, _, _) => {
                let b = random_byte();
                proof {
                    bw = b;
                }
                self.opcode_cxkk(x, kk, b)
            },
            (0x0d, _, _, _) => self.opcode_dxyn(x, y, n),
            (0x0e, _, 0x09, 0x0e) => self.opcode_ex9e(x),
            (0x0e, _, 0x0a, 0x01) => self.opcode_exa1(x),
            (0x0f, _, 0x00, 0x07) => self.opcode_fx07(x),
            (0x0f, _, 0x00, 0x0a) => self.opcode_fx0a(x),
            (0x0f, _, 0x01, 0x05) => self.opcode_fx15(x),
            (0x0f, _, 0x01, 0x08) => self.opcode_fx18(x),
            (0x0f, _, 0x01, 0x0e) => self.opcode_fx1e(x),
            (0x0f, _, 0x02, 0x09) => self.opcode_fx29(x),
            (0x0f, _, 0x03, 0x03) => self.opcode_fx33(x),
            (0x0f, _, 0x05, 0x05) => self.opcode_fx55(x),
            (0x0f, _, 0x06, 0x05) => self.opcode_fx65(x),
            _ => ProgramCounter::Next,
        };

        match pc_change {
            ProgramCounter::Next => self.program_counter += 2,
            ProgramCounter::Skip => self.program_counter += 2 * 2,
            ProgramCounter::Jump(address) => self.program_counter = address,
        }

        proof {
            assert(self@ =~= execute_spec(s0, bw));
        }
        Ghost(bw)
    }

    /// Fetch the 16-bit big-endian instruction at the program counter.
    pub fn opcode_fetch(&self) -> (r: u16)
        requires
            self.wf(),
            self@.program_counter + 2 <= 4096,
        ensures
            r == op_at(self@.memory, self@.program_counter),
    {
        ((self.memory[self.program_counter] as u16) << 8) | (self.memory[self.program_counter
            + 1] as u16)
    }

    /// 00E0: clear the framebuffer and mark it dirty.
    pub fn opcode_00e0(&mut self) -> (r: ProgramCounter)
        requires
            old(self).wf(),
        ensures
            final(self).wf(),
            final(self)@ == step_00e0(old(self)@),
            r == ProgramCounter::Next,
    {
        let mut p: usize = 0;
        while p < 2048
            invariant
                self@.video_memory.len() == 2048,
                frame_video(old(self)@, self@),
                self@.video_memory_changed == old(self)@.video_memory_changed,
                p <= 2048,
                forall|j: int| 0 <= j < p ==> self@.video_memory[j] == 0,
            decreases 2048 - p,
        {
            self.video_memory.set(p, 0);
            p = p + 1;
        }
        self.video_memory_changed = true;
        proof {
            assert(self@.video_memory =~= zero_video());
            assert(self@ =~= step_00e0(old(self)@));
        }
        ProgramCounter::Next
    }

    /// 00EE: pop one return address and jump to it.
    pub fn opcode_00ee(&mut self) -> (r: ProgramCounter)
        requires
            old(self).wf(),
            old(self)@.stack_pointer >= 1,
        ensures
            final(self).wf(),
            final(self)@ == step_00ee(old(self)@),
            r == ProgramCounter::Jump(old(self).stack@[old(self)@.stack_pointer - 1]),
    {
        self.stack_pointer -= 1;
        proof {
            assert(self@ =~= step_00ee(old(self)@));
        }
        ProgramCounter::Jump(self.stack[self.stack_pointer])
    }

    /// 1nnn: unconditional jump.
    pub fn opcode_1nnn(&self, nnn: usize) -> (r: ProgramCounter)
        ensures
            r == ProgramCounter::Jump(nnn),
    {
        ProgramCounter::Jump(nnn)
    }

    /// 2nnn: push the address of the following instruction, jump to `nnn`.
    pub fn opcode_2nnn(&mut self, nnn: usize) -> (r: ProgramCounter)
        requires
            old(self).wf(),
            old(self)@.stack_pointer < 16,
            old(self)@.program_counter + 2 <= usize::MAX,
        ensures
            final(self).wf(),
            final(self)@ == step_2nnn(old(self)@),
            r == ProgramCounter::Jump(nnn),
    {
        self.stack.set(self.stack_pointer, self.program_counter + 2);
        self.stack_pointer += 1;
        proof {
            assert(self@.stack =~= step_2nnn(old(self)@).stack);
            assert(self@ =~= step_2nnn(old(self)@));
        }
        ProgramCounter::Jump(nnn)
    }

    /// 3xkk: skip the next instruction when `Vx == kk`.
    pub fn opcode_3xkk(&self, x: usize, kk: u8) -> (r: ProgramCounter)
        requires
            self.wf(),
            x < 16,
        ensures
            r == (if self@.registers[x as int] == kk {
                ProgramCounter::Skip
            } else {
                ProgramCounter::Next
            }),
    {
        ProgramCounter::skip_if(self.registers[x] == kk)
    }

    /// 4xkk: skip the next instruction when `Vx != kk`.
    pub fn opcode_4xkk(&self, x: usize, kk: u8) -> (r: ProgramCounter)
        requires
            self.wf(),
            x < 16,
        ensures
            r == (if self@.registers[x as int] != kk {
                ProgramCounter::Skip
            } else {
                ProgramCounter::Next
            }),
    {
        ProgramCounter::skip_if(self.registers[x] != kk)
    }

    /// 5xy0: skip the next instruction when `Vx == Vy`.
    pub fn opcode_5xy0(&self, x: usize, y: usize) -> (r: ProgramCounter)
        requires
            self.wf(),
            x < 16,
            y < 16,
        ensures
            r == (if self@.registers[x as int] == self@.registers[y as int] {
                ProgramCounter::Skip
            } else {
                ProgramCounter::Next
            }),
    {
        ProgramCounter::skip_if(self.registers[x] == self.registers[y])
    }

    /// 6xkk: load the immediate `kk` into `Vx`.
    pub fn opcode_6xkk(&mut self, x: usize, kk: u8) -> (r: ProgramCounter)
        requires
            old(self).wf(),
            x < 16,
        ensures
            final(self).wf(),
            final(self)@ == set_reg(old(self)@, x as int, kk),
            r == ProgramCounter::Next,
    {
        self.registers.set(x, kk);
        ProgramCounter::Next
    }

    /// 7xkk: add the immediate `kk` into `Vx` with 8-bit wraparound, no flag.
    pub fn opcode_7xkk(&mut self, x: usize, kk: u8) -> (r: ProgramCounter)
        requires
            old(self).wf(),
            x < 16,
        ensures
            final(self).wf(),
            final(self)@ == set_reg(old(self)@, x as int, wrap_add(old(self)@.registers[x as int], kk)),
            r == ProgramCounter::Next,
    {
        let vx = self.registers[x] as u16;
        let val = kk as u16;
        let result = vx + val;
        self.registers.set(x, (result % 256) as u8);
        ProgramCounter::Next
    }

    /// 8xy0: copy `Vy` into `Vx`.
    pub fn opcode_8xy0(&mut self, x: usize, y: usize) -> (r: ProgramCounter)
        requires
            old(self).wf(),
            x < 16,
            y < 16,
        ensures
            final(self).wf(),
            final(self)@ == set_reg(old(self)@, x as int, old(self)@.registers[y as int]),
            r == ProgramCounter::Next,
    {
        let vy = self.registers[y];
        self.registers.set(x, vy);
        ProgramCounter::Next
    }

    /// 8xy1: bitwise OR `Vy` into `Vx`.
    pub fn opcode_8xy1(&mut self, x: usize, y: usize) -> (r: ProgramCounter)
        requires
            old(self).wf(),
            x < 16,
            y < 16,
        ensures
            final(self).wf(),
            final(self)@ == set_reg(
                old(self)@,
                x as int,
                old(self)@.registers[x as int] | old(self)@.registers[y as int],
            ),
            r == ProgramCounter::Next,
    {
        let v = self.registers[x] | self.registers[y];
        self.registers.set(x, v);
        ProgramCounter::Next
    }

    /// 8xy2: bitwise AND `Vy` into `Vx`.
    pub fn opcode_8xy2(&mut self, x: usize, y: usize) -> (r: ProgramCounter)
        requires
            old(self).wf(),
            x < 16,
            y < 16,
        ensures
            final(self).wf(),
            final(self)@ == set_reg(
                old(self)@,
                x as int,
                old(self)@.registers[x as int] & old(self)@.registers[y as int],
            ),
            r == ProgramCounter::Next,
    {
        let v = self.registers[x] & self.registers[y];
        self.registers.set(x, v);
        ProgramCounter::Next
    }

    /// 8xy3: bitwise XOR `Vy` into `Vx`.
    pub fn opcode_8xy3(&mut self, x: usize, y: usize) -> (r: ProgramCounter)
        requires
            old(self).wf(),
            x < 16,
            y < 16,
        ensures
            final(self).wf(),
            final(self)@ == set_reg(
                old(self)@,
                x as int,
                old(self)@.registers[x as int] ^ old(self)@.registers[y as int],
            ),
            r == ProgramCounter::Next,
    {
        let v = self.registers[x] ^ self.registers[y];
        self.registers.set(x, v);
        ProgramCounter::Next
    }

    /// 8xy4: add `Vy` into `Vx`; VF reports the carry out of 8 bits.
    pub fn opcode_8xy4(&mut self, x: usize, y: usize) -> (r: ProgramCounter)
        requires
            old(self).wf(),
            x < 16,
            y < 16,
        ensures
            final(self).wf(),
            final(self)@ == step_8xy4(old(self)@, x as int, y as int),
            r == ProgramCounter::Next,
    {
        let result = (self.registers[x] as u16) + (self.registers[y] as u16);
        self.registers.set(x, (result % 256) as u8);
        let carry: u8 = if result > 0xFF {
            1
        } else {
            0
        };
        self.registers.set(0x0f, carry);
        ProgramCounter::Next
    }

    /// 8xy5: subtract `Vy` from `Vx`; VF is written first and reports
    /// not-borrow, the difference wraps.
    pub fn opcode_8xy5(&mut self, x: usize, y: usize) -> (r: ProgramCounter)
        requires
            old(self).wf(),
            x < 16,
            y < 16,
        ensures
            final(self).wf(),
            final(self)@ == step_8xy5(old(self)@, x as int, y as int),
            r == ProgramCounter::Next,
    {
        let flag: u8 = if self.registers[x] > self.registers[y] {
            1
        } else {
            0
        };
        self.registers.set(0x0f, flag);
        let a = self.registers[x];
        let b = self.registers[y];
        let result = ((a as u16) + 256 - (b as u16)) % 256;
        proof {
            vstd::arithmetic::div_mod::lemma_mod_multiples_vanish(1, a as int - b as int, 256);
        }
        self.registers.set(x, result as u8);
        ProgramCounter::Next
    }

    /// 8xy6: shift `Vx` right by one; VF takes the dropped low bit first.
    pub fn opcode_8xy6(&mut self, x: usize, y: usize) -> (r: ProgramCounter)
        requires
            old(self).wf(),
            x < 16,
            y < 16,
        ensures
            final(self).wf(),
            final(self)@ == step_8xy6(old(self)@, x as int),
            r == ProgramCounter::Next,
    {
        let flag = self.registers[x] & 1;
        self.registers.set(0x0f, flag);
        let a = self.registers[x];
        self.registers.set(x, a / 2);
        ProgramCounter::Next
    }

    /// 8xy7: set `Vx` to `Vy - Vx`; VF is written first and reports
    /// not-borrow, the difference wraps.
    pub fn opcode_8xy7(&mut self, x: usize, y: usize) -> (r: ProgramCounter)
        requires
            old(self).wf(),
            x < 16,
            y < 16,
        ensures
            final(self).wf(),
            final(self)@ == step_8xy7(old(self)@, x as int, y as int),
            r == ProgramCounter::Next,
    {
        let flag: u8 = if self.registers[y] > self.registers[x] {
            1
        } else {
            0
        };
        self.registers.set(0x0f, flag);
        let a = self.registers[y];
        let b = self.registers[x];
        let result = ((a as u16) + 256 - (b as u16)) % 256;
        proof {
            vstd::arithmetic::div_mod::lemma_mod_multiples_vanish(1, a as int - b as int, 256);
        }
        self.registers.set(x, result as u8);
        ProgramCounter::Next
    }

    /// 8xyE: shift `Vx` left by one with wraparound; VF takes the dropped
    /// high bit first.
    pub fn opcode_8xye(&mut self, x: usize, y: usize) -> (r: ProgramCounter)
        requires
            old(self).wf(),
            x < 16,
            y < 16,
        ensures
            final(self).wf(),
            final(self)@ == step_8xye(old(self)@, x as int),
            r == ProgramCounter::Next,
    {
        let flag = (self.registers[x] & 0b10000000) >> 7;
        self.registers.set(0x0f, flag);
        let a = self.registers[x];
        let result = ((a as u16) * 2) % 256;
        self.registers.set(x, result as u8);
        ProgramCounter::Next
    }

    /// 9xy0: skip the next instruction when `Vx != Vy`.
    pub fn opcode_9xy0(&self, x: usize, y: usize) -> (r: ProgramCounter)
        requires
            self.wf(),
            x < 16,
            y < 16,
        ensures
            r == (if self@.registers[x as int] != self@.registers[y as int] {
                ProgramCounter::Skip
            } else {
                ProgramCounter::Next
            }),
    {
        ProgramCounter::skip_if(self.registers[x] != self.registers[y])
    }

    /// Annn: load the address register.
    pub fn opcode_annn(&mut self, nnn: usize) -> (r: ProgramCounter)
        requires
            old(self).wf(),
        ensures
            final(self).wf(),
            final(self)@ == (CpuState { register_i: nnn as int, ..old(self)@ }),
            r == ProgramCounter::Next,
    {
        self.register_i = nnn;
        ProgramCounter::Next
    }

    /// Bnnn: jump to `V0 + nnn`.
    pub fn opcode_bnn(&self, nnn: usize) -> (r: ProgramCounter)
        requires
            self.wf(),
            nnn <= 0xFFF,
        ensures
            r == ProgramCounter::Jump(((self.registers@[0] as int) + nnn) as usize),
    {
        ProgramCounter::Jump((self.registers[0] as usize) + nnn)
    }

    /// Cxkk: load `byte AND kk` into `Vx`; `byte` is whatever the random
    /// source produced this cycle.
    pub fn opcode_cxkk(&mut self, x: usize, kk: u8, byte: u8) -> (r: ProgramCounter)
        requires
            old(self).wf(),
            x < 16,
        ensures
            final(self).wf(),
            final(self)@ == set_reg(old(self)@, x as int, byte & kk),
            r == ProgramCounter::Next,
    {
        self.registers.set(x, byte & kk);
        ProgramCounter::Next
    }

    /// Dxyn: blit the `n`-byte sprite at memory address `I` to the block
    /// anchored at `(Vx, Vy)`. Each sprite bit is XOR-ed into its pixel,
    /// coordinates wrap on the 64x32 torus, VF reports whether any set pixel
    /// was cleared (collision), and the framebuffer is marked dirty.
    pub fn opcode_dxyn(&mut self, x: usize, y: usize, n: usize) -> (r: ProgramCounter)
        requires
            old(self).wf(),
            x < 16,
            y < 16,
            n <= 15,
            old(self)@.register_i + n <= 4096,
        ensures
            final(self).wf(),
            final(self)@ == step_dxyn(old(self)@, x as int, y as int, n as int),
            r == ProgramCounter::Next,
    {
        let ghost s0 = old(self)@;
        let vx = self.registers[x];
        let vy = self.registers[y];
        let mut vf: u8 = 0;
        let mut byte: usize = 0;
        while byte < n
            invariant
                state_wf(s0),
                x < 16,
                y < 16,
                n <= 15,
                s0.register_i + n <= 4096,
                vx == s0.registers[x as int],
                vy == s0.registers[y as int],
                byte <= n,
                self@.video_memory.len() == 2048,
                frame_video(s0, self@),
                self@.video_memory_changed == s0.video_memory_changed,
                forall|yy2: int, xx2: int|
                    #![trigger pixel_index(yy2, xx2)]
                    0 <= yy2 < 32 && 0 <= xx2 < 64 ==> self@.video_memory[pixel_index(yy2, xx2)]
                        == draw_pixel_upto(
                        s0.video_memory,
                        s0.memory,
                        s0.register_i,
                        vx,
                        vy,
                        byte as int,
                        0,
                        yy2,
                        xx2,
                    ),
                vf == (if draw_hit_upto(
                    s0.video_memory,
                    s0.memory,
                    s0.register_i,
                    vx,
                    vy,
                    byte as int,
                    0,
                ) {
                    1u8
                } else {
                    0u8
                }),
            decreases n - byte,
        {
            let yy = ((vy as usize) + byte) % 32;
            let sprite = self.memory[self.register_i + byte];
            let mut bit: usize = 0;
            while bit < 8
                invariant
                    state_wf(s0),
                    x < 16,
                    y < 16,
                    n <= 15,
                    byte < n,
                    s0.register_i + n <= 4096,
                    vx == s0.registers[x as int],
                    vy == s0.registers[y as int],
                    yy as int == ((vy as int) + byte) % 32,
                    sprite == s0.memory[s0.register_i + byte],
                    bit <= 8,
                    self@.video_memory.len() == 2048,
                    frame_video(s0, self@),
                    self@.video_memory_changed == s0.video_memory_changed,
                    forall|yy2: int, xx2: int|
                        #![trigger pixel_index(yy2, xx2)]
                        0 <= yy2 < 32 && 0 <= xx2 < 64 ==> self@.video_memory[pixel_index(yy2, xx2)]
                            == draw_pixel_upto(
                            s0.video_memory,
                            s0.memory,
                            s0.register_i,
                            vx,
                            vy,
                            byte as int,
                            bit as int,
                            yy2,
                            xx2,
                        ),
                    vf == (if draw_hit_upto(
                        s0.video_memory,
                        s0.memory,
                        s0.register_i,
                        vx,
                        vy,
                        byte as int,
                        bit as int,
                    ) {
                        1u8
                    } else {
                        0u8
                    }),
                decreases 8 - bit,
            {
                let xx = ((vx as usize) + bit) % 64;
                let sh = (7 - bit) as u8;
                let color = (sprite >> sh) & 1;
                let p = yy * 64 + xx;
                proof {
                    lemma_pos_decompose(yy as int, xx as int);
                    lemma_wrap_inverse(vy as int, byte as int, 32);
                    lemma_wrap_inverse(vx as int, bit as int, 64);
                }
                let pixel = self.video_memory[p];
                let c = color & pixel;
                proof {
                    assert(p as int == pixel_index(yy as int, xx as int));
                    assert(p as int == draw_pos(vx, vy, byte as int, bit as int));
                    assert(pixel == s0.video_memory[p as int]);
                    assert(color == sprite_bit(s0.memory, s0.register_i, byte as int, bit as int));
                    assert((sprite >> sh) & 1 == 0 || (sprite >> sh) & 1 == 1) by (bit_vector);
                    assert(pixel & 1 == 0 || pixel & 1 == 1) by (bit_vector);
                    if color == 0 {
                        assert(color & pixel == 0) by (bit_vector)
                            requires
                                color == 0,
                        ;
                    } else {
                        assert(color & pixel == pixel & 1) by (bit_vector)
                            requires
                                color == 1,
                        ;
                    }
                    lemma_hit_step(
                        s0.video_memory,
                        s0.memory,
                        s0.register_i,
                        vx,
                        vy,
                        byte as int,
                        bit as int,
                    );
                }
                let newvf = vf | c;
                proof {
                    assert((vf == 0 || vf == 1) && (c == 0 || c == 1) ==> ((vf | c == 1) <==> (vf
                        == 1 || c == 1)) && (vf | c == 0 || vf | c == 1)) by (bit_vector);
                }
                self.video_memory.set(p, pixel ^ color);
                proof {
                    let rows = byte as int;
                    let bits = bit as int;
                    assert forall|yy2: int, xx2: int|
                        #![trigger pixel_index(yy2, xx2)]
                        0 <= yy2 < 32 && 0 <= xx2 < 64 implies
                        self@.video_memory[pixel_index(yy2, xx2)] == draw_pixel_upto(
                        s0.video_memory,
                        s0.memory,
                        s0.register_i,
                        vx,
                        vy,
                        rows,
                        bits + 1,
                        yy2,
                        xx2,
                    ) by {
                        lemma_pos_decompose(yy2, xx2);
                        lemma_wrap_forward(vy as int, yy2, 32);
                        lemma_wrap_forward(vx as int, xx2, 64);
                        if yy2 * 64 + xx2 == p as int {
                            assert(yy2 == yy as int && xx2 == xx as int);
                        }
                    }
                }
                vf = newvf;
                bit = bit + 1;
            }
            proof {
                lemma_hit_row(s0.video_memory, s0.memory, s0.register_i, vx, vy, byte as int);
                let rows = byte as int;
                assert(vf == (if draw_hit_upto(
                    s0.video_memory,
                    s0.memory,
                    s0.register_i,
                    vx,
                    vy,
                    rows,
                    8,
                ) {
                    1u8
                } else {
                    0u8
                }));
                assert(draw_hit_upto(s0.video_memory, s0.memory, s0.register_i, vx, vy, rows, 8)
                    == draw_hit_upto(s0.video_memory, s0.memory, s0.register_i, vx, vy, rows + 1, 0));
                assert forall|yy2: int, xx2: int|
                    #![trigger pixel_index(yy2, xx2)]
                    0 <= yy2 < 32 && 0 <= xx2 < 64 implies draw_pixel_upto(
                    s0.video_memory,
                    s0.memory,
                    s0.register_i,
                    vx,
                    vy,
                    rows,
                    8,
                    yy2,
                    xx2,
                ) == draw_pixel_upto(
                    s0.video_memory,
                    s0.memory,
                    s0.register_i,
                    vx,
                    vy,
                    rows + 1,
                    0,
                    yy2,
                    xx2,
                ) by {}
            }
            byte = byte + 1;
        }
        self.registers.set(0x0f, vf);
        self.video_memory_changed = true;
        proof {
            let iv = s0.register_i;
            assert forall|p: int| 0 <= p < 2048 implies self@.video_memory[p] == draw_video(
                s0.video_memory,
                s0.memory,
                iv,
                vx,
                vy,
                n as int,
            )[p] by {
                vstd::arithmetic::div_mod::lemma_fundamental_div_mod(p, 64);
                vstd::arithmetic::div_mod::lemma_mod_bound(p, 64);
                let yy2 = p / 64;
                let xx2 = p % 64;
                assert(0 <= yy2 < 32 && 0 <= xx2 < 64);
                assert(p == pixel_index(yy2, xx2));
            }
            assert(self@.video_memory =~= draw_video(s0.video_memory, s0.memory, iv, vx, vy, n as int));
            assert(self@ =~= step_dxyn(s0, x as int, y as int, n as int));
        }
        ProgramCounter::Next
    }

    /// Ex9E: skip the next instruction when key `Vx` is pressed.
    pub fn opcode_ex9e(&self, x: usize) -> (r: ProgramCounter)
        requires
            self.wf(),
            x < 16,
            self@.registers[x as int] < 16,
        ensures
            r == (if self@.keypad[self@.registers[x as int] as int] {
                ProgramCounter::Skip
            } else {
                ProgramCounter::Next
            }),
    {
        ProgramCounter::skip_if(self.keypad[self.registers[x] as usize])
    }

    /// ExA1: skip the next instruction when key `Vx` is not pressed.
    pub fn opcode_exa1(&self, x: usize) -> (r: ProgramCounter)
        requires
            self.wf(),
            x < 16,
            self@.registers[x as int] < 16,
        ensures
            r == (if !self@.keypad[self@.registers[x as int] as int] {
                ProgramCounter::Skip
            } else {
                ProgramCounter::Next
            }),
    {
        ProgramCounter::skip_if(!self.keypad[self.registers[x] as usize])
    }

    /// Fx07: read the delay timer into `Vx`.
    pub fn opcode_fx07(&mut self, x: usize) -> (r: ProgramCounter)
        requires
            old(self).wf(),
            x < 16,
        ensures
            final(self).wf(),
            final(self)@ == set_reg(old(self)@, x as int, old(self)@.delay_timer),
            r == ProgramCounter::Next,
    {
        let t = self.delay_timer;
        self.registers.set(x, t);
        ProgramCounter::Next
    }

    /// Fx0A: arm the keypad-wait latch for register `x`.
    pub fn opcode_fx0a(&mut self, x: usize) -> (r: ProgramCounter)
        requires
            old(self).wf(),
            x < 16,
        ensures
            final(self).wf(),
            final(self)@ == step_fx0a(old(self)@, x as int),
            r == ProgramCounter::Next,
    {
        self.keypad_waiting = true;
        self.keypad_register = x;
        ProgramCounter::Next
    }

    /// Fx15: load the delay timer from `Vx`.
    pub fn opcode_fx15(&mut self, x: usize) -> (r: ProgramCounter)
        requires
            old(self).wf(),
            x < 16,
        ensures
            final(self).wf(),
            final(self)@ == (CpuState { delay_timer: old(self)@.registers[x as int], ..old(self)@ }),
            r == ProgramCounter::Next,
    {
        self.delay_timer = self.registers[x];
        ProgramCounter::Next
    }

    /// Fx18: load the sound timer from `Vx`.
    pub fn opcode_fx18(&mut self, x: usize) -> (r: ProgramCounter)
        requires
            old(self).wf(),
            x < 16,
        ensures
            final(self).wf(),
            final(self)@ == (CpuState { sound_timer: old(self)@.registers[x as int], ..old(self)@ }),
            r == ProgramCounter::Next,
    {
        self.sound_timer = self.registers[x];
        ProgramCounter::Next
    }

    /// Fx1E: advance the address register by `Vx`; VF reports whether the
    /// new address lies beyond the 0xF00 boundary.
    pub fn opcode_fx1e(&mut self, x: usize) -> (r: ProgramCounter)
        requires
            old(self).wf(),
            x < 16,
            old(self)@.register_i + old(self)@.registers[x as int] <= usize::MAX,
        ensures
            final(self).wf(),
            final(self)@ == step_fx1e(old(self)@, x as int),
            r == ProgramCounter::Next,
    {
        self.register_i += self.registers[x] as usize;
        let flag: u8 = if self.register_i > 0xF00 {
            1
        } else {
            0
        };
        self.registers.set(0x0f, flag);
        ProgramCounter::Next
    }

    /// Fx29: point the address register at the built-in glyph for digit `Vx`
    /// (glyph `d` lives at offset `5 * d`).
    pub fn opcode_fx29(&mut self, x: usize) -> (r: ProgramCounter)
        requires
            old(self).wf(),
            x < 16,
        ensures
            final(self).wf(),
            final(self)@ == (CpuState {
                register_i: 5 * old(self)@.registers[x as int] as int,
                ..old(self)@
            }),
            r == ProgramCounter::Next,
    {
        self.register_i = (self.registers[x] as usize) * 5;
        ProgramCounter::Next
    }

    /// Fx33: write the three decimal digits of `Vx` at `I`, `I+1`, `I+2`.
    pub fn opcode_fx33(&mut self, x: usize) -> (r: ProgramCounter)
        requires
            old(self).wf(),
            x < 16,
            old(self)@.register_i + 2 < 4096,
        ensures
            final(self).wf(),
            final(self)@ == step_fx33(old(self)@, x as int),
            r == ProgramCounter::Next,
    {
        let vx = self.registers[x];
        self.memory.set(self.register_i, vx / 100);
        self.memory.set(self.register_i + 1, (vx % 100) / 10);
        self.memory.set(self.register_i + 2, vx % 10);
        ProgramCounter::Next
    }

    /// Fx55: dump registers `V0..=Vx` into memory starting at `I`.
    pub fn opcode_fx55(&mut self, x: usize) -> (r: ProgramCounter)
        requires
            old(self).wf(),
            x < 16,
            old(self)@.register_i + x < 4096,
        ensures
            final(self).wf(),
            final(self)@ == step_fx55(old(self)@, x as int),
            r == ProgramCounter::Next,
    {
        let mut i: usize = 0;
        while i < x + 1
            invariant
                old(self).wf(),
                x < 16,
                old(self)@.register_i + x < 4096,
                self@.memory.len() == 4096,
                frame_memory(old(self)@, self@),
                i <= x + 1,
                forall|j: int|
                    0 <= j < 4096 ==> self@.memory[j] == (if old(self)@.register_i <= j
                        < old(self)@.register_i + i {
                        old(self)@.registers[j - old(self)@.register_i]
                    } else {
                        old(self)@.memory[j]
                    }),
            decreases x + 1 - i,
        {
            self.memory.set(self.register_i + i, self.registers[i]);
            i = i + 1;
        }
        proof {
            assert(self@.memory =~= step_fx55(old(self)@, x as int).memory);
            assert(self@ =~= step_fx55(old(self)@, x as int));
        }
        ProgramCounter::Next
    }

    /// Fx65: load registers `V0..=Vx` from memory starting at `I`.
    pub fn opcode_fx65(&mut self, x: usize) -> (r: ProgramCounter)
        requires
            old(self).wf(),
            x < 16,
            old(self)@.register_i + x < 4096,
        ensures
            final(self).wf(),
            final(self)@ == step_fx65(old(self)@, x as int),
            r == ProgramCounter::Next,
    {
        let mut i: usize = 0;
        while i < x + 1
            invariant
                old(self).wf(),
                x < 16,
                old(self)@.register_i + x < 4096,
                self@.registers.len() == 16,
                frame_registers(old(self)@, self@),
                i <= x + 1,
                forall|j: int|
                    0 <= j < 16 ==> self@.registers[j] == (if 0 <= j < i {
                        old(self)@.memory[old(self)@.register_i + j]
                    } else {
                        old(self)@.registers[j]
                    }),
            decreases x + 1 - i,
        {
            let v = self.memory[self.register_i + i];
            self.registers.set(i, v);
            i = i + 1;
        }
        proof {
            assert(self@.registers =~= step_fx65(old(self)@, x as int).registers);
            assert(self@ =~= step_fx65(old(self)@, x as int));
        }
        ProgramCounter::Next
    }
}

} // verus!
