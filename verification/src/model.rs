//! Mathematical model of the interpreter: a ghost view of the machine state
//! and one specification function per operation of the instruction set.
//!
//! The executable engine in `cpu` promises, instruction by instruction, that
//! its effect on the state equals the function written here.
use vstd::prelude::*;

verus! {

/// Ghost view of the whole machine state.
///
/// `x`, `y`, `n`, `nn` and `nnn` are the fields decoded from the most recently
/// fetched opcode; the fetch step writes them before the operation runs.
#[verifier::ext_equal]
pub ghost struct CpuView {
    /// Program counter.
    pub pc: u16,
    /// Index register, a memory pointer.
    pub index: u16,
    /// Call stack of return addresses.
    pub stack: Seq<u16>,
    /// 4096-byte memory image.
    pub mem: Seq<u8>,
    /// 64x32 framebuffer, one byte per pixel, row-major.
    pub disp: Seq<u8>,
    /// Sixteen general-purpose registers; `v[15]` is the flag register.
    pub v: Seq<u8>,
    /// Decoded second nibble of the opcode (register selector).
    pub x: u16,
    /// Decoded third nibble of the opcode (register selector).
    pub y: u16,
    /// Decoded fourth nibble of the opcode.
    pub n: u16,
    /// Decoded low byte of the opcode.
    pub nn: u16,
    /// Decoded low 12 bits of the opcode.
    pub nnn: u16,
    /// Keypad bitmask: bit `k` set means key `k` is held.
    pub keys: u16,
    /// Delay timer.
    pub delay: u8,
    /// Sound timer.
    pub sound: u8,
    /// Whether the most recent instruction wrote to the framebuffer.
    pub drew: bool,
}

/// Well-formedness of a machine state: the fixed sizes of the register file,
/// memory and framebuffer, the nibble ranges of the decoded fields, and the
/// framebuffer holding only 0/1 pixels.
pub open spec fn wf(s: CpuView) -> bool {
    &&& s.mem.len() == 4096
    &&& s.disp.len() == 2048
    &&& s.v.len() == 16
    &&& s.x < 16
    &&& s.y < 16
    &&& s.n < 16
    &&& s.nn < 256
    &&& s.nnn < 4096
    &&& forall|j: int| 0 <= j < 2048 ==> s.disp[j] == 0 || s.disp[j] == 1
}

/// 16-bit wrapping addition.
pub open spec fn wadd16(a: u16, b: u16) -> u16 {
    if a + b > 0xFFFF {
        (a + b - 0x10000) as u16
    } else {
        (a + b) as u16
    }
}

/// 16-bit wrapping subtraction.
pub open spec fn wsub16(a: u16, b: u16) -> u16 {
    if a - b < 0 {
        (a - b + 0x10000) as u16
    } else {
        (a - b) as u16
    }
}

/// 8-bit wrapping addition.
pub open spec fn wadd8(a: u8, b: u8) -> u8 {
    if a + b > 0xFF {
        (a + b - 0x100) as u8
    } else {
        (a + b) as u8
    }
}

/// 8-bit wrapping subtraction.
pub open spec fn wsub8(a: u8, b: u8) -> u8 {
    if a - b < 0 {
        (a - b + 0x100) as u8
    } else {
        (a - b) as u8
    }
}

/// A memory address masked to the 12-bit address space.
pub open spec fn addr(a: int) -> int {
    a % 4096
}

/// Whether key `k` is held in the keypad bitmask `keys`.
pub open spec fn key_pressed(keys: u16, k: u8) -> bool {
    k < 16 && (keys >> (k as u16)) & 1 == 1
}

/// The lowest held key index at or above `k`, or 16 if none is held there.
pub open spec fn first_key_from(keys: u16, k: int) -> int
    decreases 16 - k,
{
    if k >= 16 {
        16
    } else if (keys >> (k as u16)) & 1 == 1 {
        k
    } else {
        first_key_from(keys, k + 1)
    }
}

/// Testing a key bit by shift-and-mask agrees with masking against a one-hot
/// mask, the form the debugger surface exposes.
pub proof fn lemma_bit_test(m: u16, k: u16)
    by (bit_vector)
    requires
        k < 16,
    ensures
        ((m >> k) & 1 == 1) <==> (m & (1u16 << k) != 0),
{
}

/// Setting bit `i` of a mask changes that bit alone.
pub proof fn lemma_set_bit(m: u16, i: u16, j: u16)
    by (bit_vector)
    requires
        i < 16,
        j < 16,
    ensures
        ((m | (1u16 << i)) >> j) & 1 == (if j == i {
            1u16
        } else {
            (m >> j) & 1
        }),
{
}

/// The zero mask has no bit set.
pub proof fn lemma_zero_bit(j: u16)
    by (bit_vector)
    requires
        j < 16,
    ensures
        (0u16 >> j) & 1 == 0,
{
}

/// `first_key_from` finds a held key: its result sits at or above `k`, is a
/// held key when below 16, and no key between `k` and it is held.
pub proof fn lemma_first_key_bounds(keys: u16, k: int)
    requires
        0 <= k <= 16,
    ensures
        k <= first_key_from(keys, k) <= 16,
        first_key_from(keys, k) < 16 ==> (keys >> (first_key_from(keys, k) as u16)) & 1 == 1,
        forall|j: u16| k <= j < first_key_from(keys, k) ==> #[trigger] ((keys >> j) & 1) != 1,
    decreases 16 - k,
{
    if k < 16 {
        if (keys >> (k as u16)) & 1 == 1 {
        } else {
            lemma_first_key_bounds(keys, k + 1);
        }
    }
}

/// A non-zero keypad mask holds some key below 16, so the lowest held key
/// exists, is held, and no lower key is held.
pub proof fn lemma_lowest_key(keys: u16)
    requires
        keys != 0,
    ensures
        0 <= first_key_from(keys, 0) < 16,
        key_pressed(keys, first_key_from(keys, 0) as u8),
        forall|k: u8| k < first_key_from(keys, 0) ==> !key_pressed(keys, k),
{
    lemma_first_key_bounds(keys, 0);
    if first_key_from(keys, 0) == 16 {
        assert((keys >> 0u16) & 1 != 1);
        assert((keys >> 1u16) & 1 != 1);
        assert((keys >> 2u16) & 1 != 1);
        assert((keys >> 3u16) & 1 != 1);
        assert((keys >> 4u16) & 1 != 1);
        assert((keys >> 5u16) & 1 != 1);
        assert((keys >> 6u16) & 1 != 1);
        assert((keys >> 7u16) & 1 != 1);
        assert((keys >> 8u16) & 1 != 1);
        assert((keys >> 9u16) & 1 != 1);
        assert((keys >> 10u16) & 1 != 1);
        assert((keys >> 11u16) & 1 != 1);
        assert((keys >> 12u16) & 1 != 1);
        assert((keys >> 13u16) & 1 != 1);
        assert((keys >> 14u16) & 1 != 1);
        assert((keys >> 15u16) & 1 != 1);
        assert(keys == 0) by (bit_vector)
            requires
                (keys >> 0u16) & 1 != 1,
                (keys >> 1u16) & 1 != 1,
                (keys >> 2u16) & 1 != 1,
                (keys >> 3u16) & 1 != 1,
                (keys >> 4u16) & 1 != 1,
                (keys >> 5u16) & 1 != 1,
                (keys >> 6u16) & 1 != 1,
                (keys >> 7u16) & 1 != 1,
                (keys >> 8u16) & 1 != 1,
                (keys >> 9u16) & 1 != 1,
                (keys >> 10u16) & 1 != 1,
                (keys >> 11u16) & 1 != 1,
                (keys >> 12u16) & 1 != 1,
                (keys >> 13u16) & 1 != 1,
                (keys >> 14u16) & 1 != 1,
                (keys >> 15u16) & 1 != 1,
        ;
        assert(false);
    }
    assert forall|k: u8| k < first_key_from(keys, 0) implies !key_pressed(keys, k) by {
        assert((keys >> (k as u16)) & 1 != 1);
    }
}

/// Clear the screen: every pixel off.
pub open spec fn clear_spec(s: CpuView) -> CpuView {
    CpuView { disp: Seq::new(2048, |j: int| 0u8), ..s }
}

/// Unconditional jump to `nnn`.
pub open spec fn jump_spec(s: CpuView) -> CpuView {
    CpuView { pc: s.nnn, ..s }
}

/// Call: push the address of the next instruction, jump to `nnn`.
pub open spec fn call_spec(s: CpuView) -> CpuView {
    CpuView { stack: s.stack.push(s.pc), pc: s.nnn, ..s }
}

/// Return: pop the stack into `pc`; a no-op on an empty stack.
pub open spec fn ret_spec(s: CpuView) -> CpuView {
    if s.stack.len() == 0 {
        s
    } else {
        CpuView { pc: s.stack.last(), stack: s.stack.drop_last(), ..s }
    }
}

/// Skip the next instruction if `v[x] == nn`.
pub open spec fn skip3_spec(s: CpuView) -> CpuView {
    if s.v[s.x as int] == s.nn {
        CpuView { pc: wadd16(s.pc, 2), ..s }
    } else {
        s
    }
}

/// Skip the next instruction if `v[x] != nn`.
pub open spec fn skip4_spec(s: CpuView) -> CpuView {
    if s.v[s.x as int] != s.nn {
        CpuView { pc: wadd16(s.pc, 2), ..s }
    } else {
        s
    }
}

/// Skip the next instruction if `v[x] == v[y]`.
pub open spec fn skip5_spec(s: CpuView) -> CpuView {
    if s.v[s.x as int] == s.v[s.y as int] {
        CpuView { pc: wadd16(s.pc, 2), ..s }
    } else {
        s
    }
}

/// Skip the next instruction if `v[x] != v[y]`.
pub open spec fn skip9_spec(s: CpuView) -> CpuView {
    if s.v[s.x as int] != s.v[s.y as int] {
        CpuView { pc: wadd16(s.pc, 2), ..s }
    } else {
        s
    }
}

/// `v[x] = nn`.
pub open spec fn set6_spec(s: CpuView) -> CpuView {
    CpuView { v: s.v.update(s.x as int, s.nn as u8), ..s }
}

/// `v[x] += nn`, wrapping, no flag effect.
pub open spec fn add7_spec(s: CpuView) -> CpuView {
    CpuView { v: s.v.update(s.x as int, wadd8(s.v[s.x as int], s.nn as u8)), ..s }
}

/// `v[x] = v[y]`.
pub open spec fn set8_spec(s: CpuView) -> CpuView {
    CpuView { v: s.v.update(s.x as int, s.v[s.y as int]), ..s }
}

/// `v[x] |= v[y]`.
pub open spec fn or_spec(s: CpuView) -> CpuView {
    CpuView { v: s.v.update(s.x as int, s.v[s.x as int] | s.v[s.y as int]), ..s }
}

/// `v[x] &= v[y]`.
pub open spec fn and_spec(s: CpuView) -> CpuView {
    CpuView { v: s.v.update(s.x as int, s.v[s.x as int] & s.v[s.y as int]), ..s }
}

/// `v[x] ^= v[y]`.
pub open spec fn xor_spec(s: CpuView) -> CpuView {
    CpuView { v: s.v.update(s.x as int, s.v[s.x as int] ^ s.v[s.y as int]), ..s }
}

/// `v[x] += v[y]` with carry: `v[15]` becomes 1 iff the unsigned sum exceeds
/// 255, and is written before the sum, so `x == 15` or `y == 15` sees the flag.
pub open spec fn add8_spec(s: CpuView) -> CpuView {
    let carry: u8 = if s.v[s.x as int] + s.v[s.y as int] > 255 {
        1u8
    } else {
        0u8
    };
    let v1 = s.v.update(15, carry);
    CpuView { v: v1.update(s.x as int, wadd8(v1[s.x as int], v1[s.y as int])), ..s }
}

/// `v[x] -= v[y]` with borrow: `v[15]` becomes 0 iff `v[x] < v[y]` before the
/// subtraction, and is written before the difference.
pub open spec fn sub85_spec(s: CpuView) -> CpuView {
    let borrow: u8 = if s.v[s.x as int] < s.v[s.y as int] {
        0u8
    } else {
        1u8
    };
    let v1 = s.v.update(15, borrow);
    CpuView { v: v1.update(s.x as int, wsub8(v1[s.x as int], v1[s.y as int])), ..s }
}

/// `v[x] = v[y] - v[x]` with borrow: `v[15]` becomes 0 iff `v[y] < v[x]`
/// before the subtraction, and is written before the difference.
pub open spec fn sub87_spec(s: CpuView) -> CpuView {
    let borrow: u8 = if s.v[s.y as int] < s.v[s.x as int] {
        0u8
    } else {
        1u8
    };
    let v1 = s.v.update(15, borrow);
    CpuView { v: v1.update(s.x as int, wsub8(v1[s.y as int], v1[s.x as int])), ..s }
}

/// `v[x] = v[y]`, then shift right by 1 with `v[15]` taking the shifted-out
/// bit; the flag write lands between the copy and the shift.
pub open spec fn shift86_spec(s: CpuView) -> CpuView {
    let v1 = s.v.update(s.x as int, s.v[s.y as int]);
    let flag: u8 = if v1[s.x as int] & 1 > 0 {
        1u8
    } else {
        0u8
    };
    let v2 = v1.update(15, flag);
    CpuView { v: v2.update(s.x as int, v2[s.x as int] >> 1), ..s }
}

/// `v[x] = v[y]`, then shift left by 1 with `v[15]` taking the shifted-out
/// bit; the flag write lands between the copy and the shift.
pub open spec fn shift8e_spec(s: CpuView) -> CpuView {
    let v1 = s.v.update(s.x as int, s.v[s.y as int]);
    let flag: u8 = if v1[s.x as int] & 0x80 > 0 {
        1u8
    } else {
        0u8
    };
    let v2 = v1.update(15, flag);
    CpuView { v: v2.update(s.x as int, v2[s.x as int] << 1), ..s }
}

/// `i = nnn`.
pub open spec fn seti_spec(s: CpuView) -> CpuView {
    CpuView { index: s.nnn, ..s }
}

/// Offset jump: `pc = nnn + v[0]`.
pub open spec fn jumpoff_spec(s: CpuView) -> CpuView {
    CpuView { pc: (s.nnn + s.v[0]) as u16, ..s }
}

/// `v[x] = r & nn` for a host-supplied random byte `r`.
pub open spec fn rand_spec(s: CpuView, r: u8) -> CpuView {
    CpuView { v: s.v.update(s.x as int, r & (s.nn as u8)), ..s }
}

/// The sprite bit of row `r`, column `c`: bit `7 - c` of the byte at
/// `i + r`, the address masked to the 12-bit space.
pub open spec fn sprite_bit(mem: Seq<u8>, index: u16, r: int, c: int) -> bool {
    (mem[addr(index + r)] >> ((7 - c) as u8)) & 1 == 1
}

/// Whether the draw of `n` sprite rows at `(xs, ys)` toggles framebuffer cell
/// `j`, counting only the sprite positions before row `rl`, column `cl` in
/// row-major order. Each cell is toggled by at most one sprite position.
pub open spec fn hit_before(
    mem: Seq<u8>,
    index: u16,
    xs: int,
    ys: int,
    j: int,
    rl: int,
    cl: int,
) -> bool {
    let r = j / 64 - ys;
    let c = j % 64 - xs;
    &&& 0 <= r
    &&& 0 <= c < 8
    &&& r < rl || (r == rl && c < cl)
    &&& sprite_bit(mem, index, r, c)
}

/// Whether the full draw of `n` rows toggles framebuffer cell `j`.
pub open spec fn draw_hit(mem: Seq<u8>, index: u16, xs: int, ys: int, n: int, j: int) -> bool {
    hit_before(mem, index, xs, ys, j, n, 0)
}

/// A toggled pixel: an on pixel turns off, anything else turns on.
pub open spec fn flip(b: u8) -> u8 {
    if b == 1 {
        0u8
    } else {
        1u8
    }
}

/// The screen x coordinate of a draw: `v[x] % 64`.
pub open spec fn draw_xs(s: CpuView) -> int {
    (s.v[s.x as int] % 64) as int
}

/// The screen y coordinate of a draw: `v[y] % 32`.
pub open spec fn draw_ys(s: CpuView) -> int {
    (s.v[s.y as int] % 32) as int
}

/// The framebuffer after a draw: every toggled cell flips, all others keep
/// their value.
pub open spec fn draw_disp(s: CpuView) -> Seq<u8> {
    Seq::new(
        2048,
        |j: int|
            if draw_hit(s.mem, s.index, draw_xs(s), draw_ys(s), s.n as int, j) {
                flip(s.disp[j])
            } else {
                s.disp[j]
            },
    )
}

/// Whether a draw collides: some toggled cell was already on.
pub open spec fn draw_collision(s: CpuView) -> bool {
    exists|j: int|
        0 <= j < 2048 && draw_hit(s.mem, s.index, draw_xs(s), draw_ys(s), s.n as int, j)
            && s.disp[j] == 1
}

/// Draw `n` sprite rows from `mem[i..]` at `(v[x] % 64, v[y] % 32)` with
/// XOR-with-collision semantics; `v[15]` reports the collision.
pub open spec fn display_spec(s: CpuView) -> CpuView {
    CpuView {
        disp: draw_disp(s),
        v: s.v.update(15, if draw_collision(s) { 1u8 } else { 0u8 }),
        ..s
    }
}

/// Skip the next instruction according to whether key `v[x]` is held;
/// `want` tells which polarity skips.
pub open spec fn skipkey_spec(s: CpuView, want: bool) -> CpuView {
    if key_pressed(s.keys, s.v[s.x as int]) == want {
        CpuView { pc: wadd16(s.pc, 2), ..s }
    } else {
        s
    }
}

/// `v[x] = delay`.
pub open spec fn getdelay_spec(s: CpuView) -> CpuView {
    CpuView { v: s.v.update(s.x as int, s.delay), ..s }
}

/// `delay = v[x]`.
pub open spec fn setdelay_spec(s: CpuView) -> CpuView {
    CpuView { delay: s.v[s.x as int], ..s }
}

/// `sound = v[x]`.
pub open spec fn setsound_spec(s: CpuView) -> CpuView {
    CpuView { sound: s.v[s.x as int], ..s }
}

/// `i += v[x]` with `v[15]` set to 1 iff the sum exceeds 0xFFF; the flag is
/// written before `v[x]` is read for the addition, so `x == 15` adds the flag.
pub open spec fn addi_spec(s: CpuView) -> CpuView {
    let flag: u8 = if s.index + s.v[s.x as int] > 0xFFF {
        1u8
    } else {
        0u8
    };
    let v1 = s.v.update(15, flag);
    CpuView { v: v1, index: wadd16(s.index, v1[s.x as int] as u16), ..s }
}

/// Block until a key is held: with no key held, rewind `pc` by 2 so the same
/// instruction re-executes; otherwise write the lowest held key into `v[x]`.
pub open spec fn getkey_spec(s: CpuView) -> CpuView {
    if s.keys == 0 {
        CpuView { pc: wsub16(s.pc, 2), ..s }
    } else {
        CpuView { v: s.v.update(s.x as int, first_key_from(s.keys, 0) as u8), ..s }
    }
}

/// Font lookup: digits 0-15 map to `0x050 + 5 * digit`; larger values leave
/// the index register unchanged.
pub open spec fn font_spec(s: CpuView) -> CpuView {
    if s.v[s.x as int] < 16 {
        CpuView { index: (0x50 + 5 * s.v[s.x as int]) as u16, ..s }
    } else {
        s
    }
}

/// Binary-coded decimal: the hundreds, tens and units digits of `v[x]` go to
/// `mem[i]`, `mem[i+1]`, `mem[i+2]`, the addresses masked to the 12-bit space.
pub open spec fn bcd_spec(s: CpuView) -> CpuView {
    let d = s.v[s.x as int];
    let m1 = s.mem.update(addr(s.index as int), ((d / 100) % 10) as u8);
    let m2 = m1.update(addr(s.index + 1), ((d / 10) % 10) as u8);
    let m3 = m2.update(addr(s.index + 2), (d % 10) as u8);
    CpuView { mem: m3, ..s }
}

/// Memory after storing registers `v[0..=k]` at `i..`, one iterated update
/// per register, each address masked to the 12-bit space.
pub open spec fn store_mem(mem: Seq<u8>, index: u16, v: Seq<u8>, k: int) -> Seq<u8>
    decreases k + 1,
{
    if k < 0 {
        mem
    } else {
        store_mem(mem, index, v, k - 1).update(addr(index + k), v[k])
    }
}

/// Register store: write `v[0..=v[x]]`, capped at register 15, to memory at
/// `i..`.
pub open spec fn store_spec(s: CpuView) -> CpuView {
    let k: int = if s.v[s.x as int] < 15 {
        s.v[s.x as int] as int
    } else {
        15
    };
    CpuView { mem: store_mem(s.mem, s.index, s.v, k), ..s }
}

/// Register load: read `v[0..=v[x]]`, capped at register 15, from memory at
/// `i..`; registers above the cap keep their values.
pub open spec fn load_spec(s: CpuView) -> CpuView {
    let k: int = if s.v[s.x as int] < 15 {
        s.v[s.x as int] as int
    } else {
        15
    };
    CpuView {
        v: Seq::new(
            16,
            |j: int|
                if j <= k {
                    s.mem[addr(s.index + j)]
                } else {
                    s.v[j]
                },
        ),
        ..s
    }
}

/// The arithmetic/logic family `0x8xy?`, selected by the low nibble;
/// unassigned nibbles are no-ops.
pub open spec fn alu_spec(s: CpuView, sub: u16) -> CpuView {
    if sub == 0x0 {
        set8_spec(s)
    } else if sub == 0x1 {
        or_spec(s)
    } else if sub == 0x2 {
        and_spec(s)
    } else if sub == 0x3 {
        xor_spec(s)
    } else if sub == 0x4 {
        add8_spec(s)
    } else if sub == 0x5 {
        sub85_spec(s)
    } else if sub == 0x6 {
        shift86_spec(s)
    } else if sub == 0x7 {
        sub87_spec(s)
    } else if sub == 0xE {
        shift8e_spec(s)
    } else {
        s
    }
}

/// The `0xFx??` family, selected by the low byte; unassigned low bytes are
/// no-ops.
pub open spec fn fgroup_spec(s: CpuView, low: u16) -> CpuView {
    if low == 0x07 {
        getdelay_spec(s)
    } else if low == 0x15 {
        setdelay_spec(s)
    } else if low == 0x18 {
        setsound_spec(s)
    } else if low == 0x1E {
        addi_spec(s)
    } else if low == 0x0A {
        getkey_spec(s)
    } else if low == 0x29 {
        font_spec(s)
    } else if low == 0x33 {
        bcd_spec(s)
    } else if low == 0x55 {
        store_spec(s)
    } else if low == 0x65 {
        load_spec(s)
    } else {
        s
    }
}

/// Execute one decoded opcode on a state whose decoded fields already match
/// `op`. An opcode matching no table entry is a no-op. `r` is the byte the
/// random-number operation consumes; every other operation ignores it.
pub open spec fn exec_spec(s: CpuView, op: u16, r: u8) -> CpuView {
    let g = op / 4096;
    let t = if op == 0x00E0 {
        clear_spec(s)
    } else if op == 0x00EE {
        ret_spec(s)
    } else if g == 0x1 {
        jump_spec(s)
    } else if g == 0x2 {
        call_spec(s)
    } else if g == 0x3 {
        skip3_spec(s)
    } else if g == 0x4 {
        skip4_spec(s)
    } else if g == 0x5 {
        if op % 16 == 0 {
            skip5_spec(s)
        } else {
            s
        }
    } else if g == 0x6 {
        set6_spec(s)
    } else if g == 0x7 {
        add7_spec(s)
    } else if g == 0x8 {
        alu_spec(s, op % 16)
    } else if g == 0x9 {
        if op % 16 == 0 {
            skip9_spec(s)
        } else {
            s
        }
    } else if g == 0xA {
        seti_spec(s)
    } else if g == 0xB {
        jumpoff_spec(s)
    } else if g == 0xC {
        rand_spec(s, r)
    } else if g == 0xD {
        display_spec(s)
    } else if g == 0xE {
        if op % 256 == 0x9E {
            skipkey_spec(s, true)
        } else if op % 256 == 0xA1 {
            skipkey_spec(s, false)
        } else {
            s
        }
    } else if g == 0xF {
        fgroup_spec(s, op % 256)
    } else {
        s
    };
    CpuView { drew: op == 0x00E0 || g == 0xD, ..t }
}

/// The opcode two fetched bytes form: high byte first, the fetch addresses
/// masked to the 12-bit space.
pub open spec fn opcode_at(s: CpuView) -> u16 {
    let hb = s.mem[addr(s.pc as int)];
    let lb = s.mem[addr(wadd16(s.pc, 1) as int)];
    (hb * 256 + lb) as u16
}

/// Fetch and decode: read the opcode fields out of the two bytes at `pc` and
/// advance `pc` by 2.
pub open spec fn decode_spec(s: CpuView) -> CpuView {
    let hb = s.mem[addr(s.pc as int)];
    let lb = s.mem[addr(wadd16(s.pc, 1) as int)];
    CpuView {
        pc: wadd16(s.pc, 2),
        x: (hb % 16) as u16,
        y: (lb / 16) as u16,
        n: (lb % 16) as u16,
        nn: lb as u16,
        nnn: ((hb % 16) * 256 + lb) as u16,
        ..s
    }
}

/// One full instruction cycle: fetch, decode, execute.
pub open spec fn step_spec(s: CpuView, r: u8) -> CpuView {
    exec_spec(decode_spec(s), opcode_at(s), r)
}

/// Timer decrement: both timers lose `delta`, saturating at 0.
pub open spec fn tick_timers_spec(s: CpuView, delta: u8) -> CpuView {
    CpuView {
        delay: if s.delay < delta {
            0u8
        } else {
            (s.delay - delta) as u8
        },
        sound: if s.sound < delta {
            0u8
        } else {
            (s.sound - delta) as u8
        },
        ..s
    }
}

} // verus!
