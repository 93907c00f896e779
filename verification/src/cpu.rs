//! The executable interpreter core: machine state, the fetch-decode-execute
//! cycle, and one handler per operation, each proved equal to its model in
//! `model`.
use vstd::prelude::*;

use crate::Chip8Error;
use crate::model::{
    CpuView, wf, wadd8, wsub8, addr, key_pressed, first_key_from, clear_spec, jump_spec, call_spec,
    ret_spec, skip3_spec, skip4_spec, skip5_spec, skip9_spec, set6_spec, add7_spec, set8_spec,
    or_spec, and_spec, xor_spec, add8_spec, sub85_spec, sub87_spec, shift86_spec, shift8e_spec,
    seti_spec, jumpoff_spec, rand_spec, display_spec, skipkey_spec, getdelay_spec, setdelay_spec,
    setsound_spec, addi_spec, getkey_spec, font_spec, bcd_spec, store_mem, store_spec, load_spec,
    exec_spec, decode_spec, opcode_at, step_spec, tick_timers_spec, hit_before, flip, draw_xs,
    draw_ys, draw_disp, sprite_bit,
};

verus! {

/// The standard font: sixteen glyphs of five bytes each, digits 0 through F,
/// four pixels wide in the high nibble of each byte.
pub open spec fn font_seq() -> Seq<u8> {
    seq![
        0xF0u8, 0x90, 0x90, 0x90, 0xF0, // 0
        0x20, 0x60, 0x20, 0x20, 0x70, // 1
        0xF0, 0x10, 0xF0, 0x80, 0xF0, // 2
        0xF0, 0x10, 0xF0, 0x10, 0xF0, // 3
        0x90, 0x90, 0xF0, 0x10, 0x10, // 4
        0xF0, 0x80, 0xF0, 0x10, 0xF0, // 5
        0xF0, 0x80, 0xF0, 0x90, 0xF0, // 6
        0xF0, 0x10, 0x20, 0x40, 0x40, // 7
        0xF0, 0x90, 0xF0, 0x90, 0xF0, // 8
        0xF0, 0x90, 0xF0, 0x10, 0xF0, // 9
        0xF0, 0x90, 0xF0, 0x90, 0x90, // A
        0xE0, 0x90, 0xE0, 0x90, 0xE0, // B
        0xF0, 0x80, 0x80, 0x80, 0xF0, // C
        0xE0, 0x90, 0x90, 0x90, 0xE0, // D
        0xF0, 0x80, 0xF0, 0x80, 0xF0, // E
        0xF0, 0x80, 0xF0, 0x80, 0x80, // F
    ]
}

/// Memory at power-on: all zero but for the font at 0x050.
pub open spec fn init_mem() -> Seq<u8> {
    Seq::new(
        4096,
        |a: int|
            if 0x50 <= a < 0xA0 {
                font_seq()[a - 0x50]
            } else {
                0u8
            },
    )
}

/// The whole machine at power-on.
pub open spec fn init_view() -> CpuView {
    CpuView {
        pc: 512,
        index: 0,
        stack: Seq::empty(),
        mem: init_mem(),
        disp: Seq::new(2048, |j: int| 0u8),
        v: Seq::new(16, |j: int| 0u8),
        x: 0,
        y: 0,
        n: 0,
        nn: 0,
        nnn: 0,
        keys: 0,
        delay: 0,
        sound: 0,
        drew: false,
    }
}

/// Memory after a program image lands at `start`: the image's bytes over that
/// range, the old contents elsewhere.
pub open spec fn loaded_mem(mem: Seq<u8>, start: int, prog: Seq<u8>) -> Seq<u8> {
    Seq::new(
        4096,
        |a: int|
            if start <= a < start + prog.len() {
                prog[a - start]
            } else {
                mem[a]
            },
    )
}

/// Relies on getrandom::getrandom for a uniformly distributed random byte.
/// Should the entropy source fail, the buffer's contents are unspecified but
/// still a byte, which is handed back. Nothing is promised of the value.
#[verifier::external_body]
fn random_byte() -> u8 {
    let mut buf = [0u8; 1];
    let _ = getrandom::getrandom(&mut buf);
    buf[0]
}

/// The interpreter core: memory, registers, framebuffer, call stack, timers,
/// and the field registers the fetch step decodes into.
pub struct Cpu {
    pc: u16,
    index: u16,
    stack: Vec<u16>,
    memory: Vec<u8>,
    display: Vec<u8>,
    v: Vec<u8>,
    a_x: u16,
    a_y: u16,
    a_n: u16,
    a_nn: u16,
    a_nnn: u16,
    key_map: u16,
    delay: u8,
    sound: u8,
    drew: bool,
}

impl View for Cpu {
    type V = CpuView;

    closed spec fn view(&self) -> CpuView {
        CpuView {
            pc: self.pc,
            index: self.index,
            stack: self.stack@,
            mem: self.memory@,
            disp: self.display@,
            v: self.v@,
            x: self.a_x,
            y: self.a_y,
            n: self.a_n,
            nn: self.a_nn,
            nnn: self.a_nnn,
            keys: self.key_map,
            delay: self.delay,
            sound: self.sound,
            drew: self.drew,
        }
    }
}

/// The standard font as bytes, for the constructor to copy into memory.
#[verifier::rlimit(100)]
fn font_bytes() -> (f: Vec<u8>)
    ensures
        f@ == font_seq(),
{
    let mut f: Vec<u8> = Vec::new();
    f.push(0xF0);
    f.push(0x90);
    f.push(0x90);
    f.push(0x90);
    f.push(0xF0);
    f.push(0x20);
    f.push(0x60);
    f.push(0x20);
    f.push(0x20);
    f.push(0x70);
    f.push(0xF0);
    f.push(0x10);
    f.push(0xF0);
    f.push(0x80);
    f.push(0xF0);
    f.push(0xF0);
    f.push(0x10);
    f.push(0xF0);
    f.push(0x10);
    f.push(0xF0);
    f.push(0x90);
    f.push(0x90);
    f.push(0xF0);
    f.push(0x10);
    f.push(0x10);
    f.push(0xF0);
    f.push(0x80);
    f.push(0xF0);
    f.push(0x10);
    f.push(0xF0);
    f.push(0xF0);
    f.push(0x80);
    f.push(0xF0);
    f.push(0x90);
    f.push(0xF0);
    f.push(0xF0);
    f.push(0x10);
    f.push(0x20);
    f.push(0x40);
    f.push(0x40);
    f.push(0xF0);
    f.push(0x90);
    f.push(0xF0);
    f.push(0x90);
    f.push(0xF0);
    f.push(0xF0);
    f.push(0x90);
    f.push(0xF0);
    f.push(0x10);
    f.push(0xF0);
    f.push(0xF0);
    f.push(0x90);
    f.push(0xF0);
    f.push(0x90);
    f.push(0x90);
    f.push(0xE0);
    f.push(0x90);
    f.push(0xE0);
    f.push(0x90);
    f.push(0xE0);
    f.push(0xF0);
    f.push(0x80);
    f.push(0x80);
    f.push(0x80);
    f.push(0xF0);
    f.push(0xE0);
    f.push(0x90);
    f.push(0x90);
    f.push(0x90);
    f.push(0xE0);
    f.push(0xF0);
    f.push(0x80);
    f.push(0xF0);
    f.push(0x80);
    f.push(0xF0);
    f.push(0xF0);
    f.push(0x80);
    f.push(0xF0);
    f.push(0x80);
    f.push(0x80);
    proof {
        assert(f@ =~= font_seq());
    }
    f
}

impl Cpu {
    /// A machine at power-on: `pc` at 0x200, the font preloaded at 0x050,
    /// everything else zero.
    pub fn new() -> (c: Cpu)
        ensures
            c@ == init_view(),
            wf(c@),
    {
        let mut memory: Vec<u8> = Vec::new();
        let mut j: usize = 0;
        while j < 4096
            invariant
                memory@.len() == j,
                j <= 4096,
                forall|a: int| 0 <= a < j ==> memory@[a] == 0,
            decreases 4096 - j,
        {
            memory.push(0);
            j += 1;
        }
        let font = font_bytes();
        let mut k: usize = 0;
        while k < 80
            invariant
                memory@.len() == 4096,
                k <= 80,
                font@ == font_seq(),
                forall|a: int|
                    0 <= a < 4096 ==> memory@[a] == (if 0x50 <= a < 0x50 + k {
                        font_seq()[a - 0x50]
                    } else {
                        0u8
                    }),
            decreases 80 - k,
        {
            memory.set(0x50 + k, font[k]);
            k += 1;
        }
        let mut display: Vec<u8> = Vec::new();
        let mut j: usize = 0;
        while j < 2048
            invariant
                display@.len() == j,
                j <= 2048,
                forall|a: int| 0 <= a < j ==> display@[a] == 0,
            decreases 2048 - j,
        {
            display.push(0);
            j += 1;
        }
        let mut v: Vec<u8> = Vec::new();
        let mut j: usize = 0;
        while j < 16
            invariant
                v@.len() == j,
                j <= 16,
                forall|a: int| 0 <= a < j ==> v@[a] == 0,
            decreases 16 - j,
        {
            v.push(0);
            j += 1;
        }
        let c = Cpu {
            pc: 512,
            index: 0,
            stack: Vec::new(),
            memory,
            display,
            v,
            a_x: 0,
            a_y: 0,
            a_n: 0,
            a_nn: 0,
            a_nnn: 0,
            key_map: 0,
            delay: 0,
            sound: 0,
            drew: false,
        };
        proof {
            assert(c@.mem =~= init_mem());
            assert(c@.disp =~= init_view().disp);
            assert(c@.v =~= init_view().v);
            assert(c@.stack =~= init_view().stack);
            assert(c@ =~= init_view());
        }
        c
    }

    /// Reset to power-on state, keeping the memory image (and whatever
    /// program it holds) in place.
    pub fn reset(&mut self)
        requires
            wf(old(self)@),
        ensures
            wf(final(self)@),
            final(self)@ == (CpuView { mem: old(self)@.mem, ..init_view() }),
    {
        self.pc = 512;
        self.index = 0;
        self.stack = Vec::new();
        let mut d: Vec<u8> = Vec::new();
        let mut j: usize = 0;
        while j < 2048
            invariant
                d@.len() == j,
                j <= 2048,
                forall|a: int| 0 <= a < j ==> d@[a] == 0,
            decreases 2048 - j,
        {
            d.push(0);
            j += 1;
        }
        self.display = d;
        let mut regs: Vec<u8> = Vec::new();
        let mut j: usize = 0;
        while j < 16
            invariant
                regs@.len() == j,
                j <= 16,
                forall|a: int| 0 <= a < j ==> regs@[a] == 0,
            decreases 16 - j,
        {
            regs.push(0);
            j += 1;
        }
        self.v = regs;
        self.a_x = 0;
        self.a_y = 0;
        self.a_n = 0;
        self.a_nn = 0;
        self.a_nnn = 0;
        self.key_map = 0;
        self.delay = 0;
        self.sound = 0;
        self.drew = false;
        proof {
            assert(self@.disp =~= init_view().disp);
            assert(self@.v =~= init_view().v);
            assert(self@.stack =~= init_view().stack);
            assert(self@ =~= (CpuView { mem: old(self)@.mem, ..init_view() }));
        }
    }

    /// The framebuffer, a read-only view for a host renderer.
    pub fn display_matrix(&self) -> (r: &Vec<u8>)
        ensures
            r@ == self@.disp,
    {
        &self.display
    }

    /// The memory image, a read-only view for a debugger.
    pub fn memory_image(&self) -> (r: &Vec<u8>)
        ensures
            r@ == self@.mem,
    {
        &self.memory
    }

    /// The register file, a read-only view for a debugger.
    pub fn registers(&self) -> (r: &Vec<u8>)
        ensures
            r@ == self@.v,
    {
        &self.v
    }

    /// The program counter.
    pub fn get_pc(&self) -> (r: u16)
        ensures
            r == self@.pc,
    {
        self.pc
    }

    /// The index register.
    pub fn get_index(&self) -> (r: u16)
        ensures
            r == self@.index,
    {
        self.index
    }

    /// The call stack depth, truncated to a byte.
    pub fn stack_depth(&self) -> (r: u8)
        ensures
            r == (self@.stack.len() % 256) as u8,
    {
        (self.stack.len() % 256) as u8
    }

    /// The delay timer.
    pub fn get_delay(&self) -> (r: u8)
        ensures
            r == self@.delay,
    {
        self.delay
    }

    /// The sound timer.
    pub fn get_sound(&self) -> (r: u8)
        ensures
            r == self@.sound,
    {
        self.sound
    }

    /// Whether the most recent instruction wrote to the framebuffer.
    pub fn drew_last(&self) -> (r: bool)
        ensures
            r == self@.drew,
    {
        self.drew
    }

    /// Overwrite the keypad bitmask with the host's snapshot.
    pub fn set_key_map(&mut self, map: u16)
        ensures
            final(self)@ == (CpuView { keys: map, ..old(self)@ }),
    {
        self.key_map = map;
    }

    /// The keypad bit of key `mask`, for a debugger: non-zero exactly when
    /// the key is held.
    pub fn is_pressed(&self, mask: u8) -> (r: u16)
        requires
            mask < 16,
        ensures
            r == self@.keys & (1u16 << (mask as u16)),
            (r != 0) <==> key_pressed(self@.keys, mask),
    {
        proof {
            crate::model::lemma_bit_test(self.key_map, mask as u16);
        }
        self.key_map & (1u16 << (mask as u16))
    }

    /// Copy a program image into memory at `start`; an image that would run
    /// past the 4096-byte ceiling is rejected whole.
    pub fn load_program_at(&mut self, start: usize, program: &Vec<u8>) -> (r: Result<
        (),
        Chip8Error,
    >)
        requires
            wf(old(self)@),
        ensures
            wf(final(self)@),
            r is Ok <==> start + program@.len() <= 4096,
            r is Ok ==> final(self)@ == (CpuView {
                mem: loaded_mem(old(self)@.mem, start as int, program@),
                ..old(self)@
            }),
            r is Err ==> final(self)@ == old(self)@ && r == Err::<(), Chip8Error>(
                Chip8Error::RomTooLarge,
            ),
    {
        if start > 4096 || program.len() > 4096 - start {
            return Err(Chip8Error::RomTooLarge);
        }
        let mut i: usize = 0;
        while i < program.len()
            invariant
                wf(old(self)@),
                start + program@.len() <= 4096,
                i <= program@.len(),
                self@ == (CpuView { mem: self@.mem, ..old(self)@ }),
                self@.mem.len() == 4096,
                forall|a: int|
                    0 <= a < 4096 ==> self@.mem[a] == (if start <= a < start + i {
                        program@[a - start]
                    } else {
                        old(self)@.mem[a]
                    }),
            decreases program@.len() - i,
        {
            let b = program[i];
            self.memory.set(start + i, b);
            i += 1;
        }
        proof {
            assert(self@.mem =~= loaded_mem(old(self)@.mem, start as int, program@));
            assert(self@ =~= (CpuView {
                mem: loaded_mem(old(self)@.mem, start as int, program@),
                ..old(self)@
            }));
        }
        Ok(())
    }

    /// Decrement both timers by `delta`, saturating at zero.
    pub fn tick_timers(&mut self, delta: u8)
        ensures
            final(self)@ == tick_timers_spec(old(self)@, delta),
    {
        if self.delay < delta {
            self.delay = 0
        } else {
            self.delay = self.delay - delta
        }
        if self.sound < delta {
            self.sound = 0
        } else {
            self.sound = self.sound - delta
        }
    }

    /// Clear the screen.
    pub fn clear_screen(&mut self)
        requires
            wf(old(self)@),
        ensures
            wf(final(self)@),
            final(self)@ == clear_spec(old(self)@),
    {
        let mut d: Vec<u8> = Vec::new();
        let mut j: usize = 0;
        while j < 2048
            invariant
                d@.len() == j,
                j <= 2048,
                forall|a: int| 0 <= a < j ==> d@[a] == 0,
            decreases 2048 - j,
        {
            d.push(0);
            j += 1;
        }
        self.display = d;
        proof {
            assert(self@.disp =~= clear_spec(old(self)@).disp);
            assert(self@ =~= clear_spec(old(self)@));
        }
    }

    /// Unconditional jump to `nnn`.
    pub fn jump(&mut self)
        requires
            wf(old(self)@),
        ensures
            wf(final(self)@),
            final(self)@ == jump_spec(old(self)@),
    {
        self.pc = self.a_nnn;
    }

    /// Call: push the address of the next instruction, jump to `nnn`.
    pub fn start_subroutine(&mut self)
        requires
            wf(old(self)@),
        ensures
            wf(final(self)@),
            final(self)@ == call_spec(old(self)@),
    {
        self.stack.push(self.pc);
        self.pc = self.a_nnn;
    }

    /// Return: pop the stack into `pc`; a no-op on an empty stack.
    pub fn end_subroutine(&mut self)
        requires
            wf(old(self)@),
        ensures
            wf(final(self)@),
            final(self)@ == ret_spec(old(self)@),
    {
        match self.stack.pop() {
            Some(x) => self.pc = x,
            None => {},
        }
    }

    /// Skip the next instruction if `v[x] == nn`.
    pub fn skip_3(&mut self)
        requires
            wf(old(self)@),
        ensures
            wf(final(self)@),
            final(self)@ == skip3_spec(old(self)@),
    {
        if (self.v[self.a_x as usize] as u16) != self.a_nn {
            return ;
        }
        self.pc = self.pc.wrapping_add(2)
    }

    /// Skip the next instruction if `v[x] != nn`.
    pub fn skip_4(&mut self)
        requires
            wf(old(self)@),
        ensures
            wf(final(self)@),
            final(self)@ == skip4_spec(old(self)@),
    {
        if (self.v[self.a_x as usize] as u16) == self.a_nn {
            return ;
        }
        self.pc = self.pc.wrapping_add(2)
    }

    /// Skip the next instruction if `v[x] == v[y]`.
    pub fn skip_5(&mut self)
        requires
            wf(old(self)@),
        ensures
            wf(final(self)@),
            final(self)@ == skip5_spec(old(self)@),
    {
        if self.v[self.a_x as usize] != self.v[self.a_y as usize] {
            return ;
        }
        self.pc = self.pc.wrapping_add(2)
    }

    /// Skip the next instruction if `v[x] != v[y]`.
    pub fn skip_9(&mut self)
        requires
            wf(old(self)@),
        ensures
            wf(final(self)@),
            final(self)@ == skip9_spec(old(self)@),
    {
        if self.v[self.a_x as usize] == self.v[self.a_y as usize] {
            return ;
        }
        self.pc = self.pc.wrapping_add(2)
    }

    /// `v[x] = nn`.
    pub fn set_6(&mut self)
        requires
            wf(old(self)@),
        ensures
            wf(final(self)@),
            final(self)@ == set6_spec(old(self)@),
    {
        self.v.set(self.a_x as usize, self.a_nn as u8);
    }

    /// `v[x] += nn`, wrapping, no flag effect.
    pub fn add_7(&mut self)
        requires
            wf(old(self)@),
        ensures
            wf(final(self)@),
            final(self)@ == add7_spec(old(self)@),
    {
        let a = self.v[self.a_x as usize];
        self.v.set(self.a_x as usize, a.wrapping_add(self.a_nn as u8));
    }

    /// `v[x] = v[y]`.
    pub fn set_8(&mut self)
        requires
            wf(old(self)@),
        ensures
            wf(final(self)@),
            final(self)@ == set8_spec(old(self)@),
    {
        let b = self.v[self.a_y as usize];
        self.v.set(self.a_x as usize, b);
    }

    /// `v[x] |= v[y]`.
    pub fn binary_or(&mut self)
        requires
            wf(old(self)@),
        ensures
            wf(final(self)@),
            final(self)@ == or_spec(old(self)@),
    {
        let a = self.v[self.a_x as usize];
        let b = self.v[self.a_y as usize];
        self.v.set(self.a_x as usize, a | b);
    }

    /// `v[x] &= v[y]`.
    pub fn binary_and(&mut self)
        requires
            wf(old(self)@),
        ensures
            wf(final(self)@),
            final(self)@ == and_spec(old(self)@),
    {
        let a = self.v[self.a_x as usize];
        let b = self.v[self.a_y as usize];
        self.v.set(self.a_x as usize, a & b);
    }

    /// `v[x] ^= v[y]`.
    pub fn logical_xor(&mut self)
        requires
            wf(old(self)@),
        ensures
            wf(final(self)@),
            final(self)@ == xor_spec(old(self)@),
    {
        let a = self.v[self.a_x as usize];
        let b = self.v[self.a_y as usize];
        self.v.set(self.a_x as usize, a ^ b);
    }

    /// `v[x] += v[y]` with the carry flag written first.
    pub fn add_8(&mut self)
        requires
            wf(old(self)@),
        ensures
            wf(final(self)@),
            final(self)@ == add8_spec(old(self)@),
    {
        let a = self.v[self.a_x as usize];
        let b = self.v[self.a_y as usize];
        let carry: u8 = if (a as u16) + (b as u16) > 255 {
            1
        } else {
            0
        };
        self.v.set(15, carry);
        let a2 = self.v[self.a_x as usize];
        let b2 = self.v[self.a_y as usize];
        self.v.set(self.a_x as usize, a2.wrapping_add(b2));
    }

    /// `v[x] -= v[y]` with the borrow flag written first.
    pub fn subtract_85(&mut self)
        requires
            wf(old(self)@),
        ensures
            wf(final(self)@),
            final(self)@ == sub85_spec(old(self)@),
    {
        let a = self.v[self.a_x as usize];
        let b = self.v[self.a_y as usize];
        let borrow: u8 = if a < b {
            0
        } else {
            1
        };
        self.v.set(15, borrow);
        let a2 = self.v[self.a_x as usize];
        let b2 = self.v[self.a_y as usize];
        self.v.set(self.a_x as usize, a2.wrapping_sub(b2));
    }

    /// `v[x] = v[y] - v[x]` with the borrow flag written first.
    pub fn subtract_87(&mut self)
        requires
            wf(old(self)@),
        ensures
            wf(final(self)@),
            final(self)@ == sub87_spec(old(self)@),
    {
        let a = self.v[self.a_x as usize];
        let b = self.v[self.a_y as usize];
        let borrow: u8 = if b < a {
            0
        } else {
            1
        };
        self.v.set(15, borrow);
        let a2 = self.v[self.a_x as usize];
        let b2 = self.v[self.a_y as usize];
        self.v.set(self.a_x as usize, b2.wrapping_sub(a2));
    }

    /// `v[x] = v[y]` then shift right, the shifted-out bit into `v[15]`.
    pub fn shift_86(&mut self)
        requires
            wf(old(self)@),
        ensures
            wf(final(self)@),
            final(self)@ == shift86_spec(old(self)@),
    {
        let b = self.v[self.a_y as usize];
        self.v.set(self.a_x as usize, b);
        let a = self.v[self.a_x as usize];
        let flag: u8 = if a & 1 > 0 {
            1
        } else {
            0
        };
        self.v.set(15, flag);
        let a2 = self.v[self.a_x as usize];
        self.v.set(self.a_x as usize, a2 >> 1u8);
    }

    /// `v[x] = v[y]` then shift left, the shifted-out bit into `v[15]`.
    pub fn shift_8e(&mut self)
        requires
            wf(old(self)@),
        ensures
            wf(final(self)@),
            final(self)@ == shift8e_spec(old(self)@),
    {
        let b = self.v[self.a_y as usize];
        self.v.set(self.a_x as usize, b);
        let a = self.v[self.a_x as usize];
        let flag: u8 = if a & 0x80 > 0 {
            1
        } else {
            0
        };
        self.v.set(15, flag);
        let a2 = self.v[self.a_x as usize];
        self.v.set(self.a_x as usize, a2 << 1u8);
    }

    /// `i = nnn`.
    pub fn set_index(&mut self)
        requires
            wf(old(self)@),
        ensures
            wf(final(self)@),
            final(self)@ == seti_spec(old(self)@),
    {
        self.index = self.a_nnn;
    }

    /// Offset jump: `pc = nnn + v[0]`.
    pub fn jump_with_offset(&mut self)
        requires
            wf(old(self)@),
        ensures
            wf(final(self)@),
            final(self)@ == jumpoff_spec(old(self)@),
    {
        self.pc = self.a_nnn + (self.v[0] as u16);
    }

    /// `v[x] = random byte & nn`.
    pub fn random(&mut self)
        requires
            wf(old(self)@),
        ensures
            wf(final(self)@),
            exists|r: u8| final(self)@ == rand_spec(old(self)@, r),
    {
        let r = random_byte();
        self.v.set(self.a_x as usize, r & (self.a_nn as u8));
        proof {
            assert(self@ == rand_spec(old(self)@, r));
        }
    }

    /// Skip the next instruction if key `v[x]` is held.
    pub fn skip_key_9e(&mut self)
        requires
            wf(old(self)@),
        ensures
            wf(final(self)@),
            final(self)@ == skipkey_spec(old(self)@, true),
    {
        let k = self.v[self.a_x as usize];
        if k < 16 && (self.key_map >> (k as u16)) & 1 == 1 {
            self.pc = self.pc.wrapping_add(2)
        }
    }

    /// Skip the next instruction if key `v[x]` is not held.
    pub fn skip_key_a1(&mut self)
        requires
            wf(old(self)@),
        ensures
            wf(final(self)@),
            final(self)@ == skipkey_spec(old(self)@, false),
    {
        let k = self.v[self.a_x as usize];
        if !(k < 16 && (self.key_map >> (k as u16)) & 1 == 1) {
            self.pc = self.pc.wrapping_add(2)
        }
    }

    /// `v[x] = delay`.
    pub fn set_vx_from_timer(&mut self)
        requires
            wf(old(self)@),
        ensures
            wf(final(self)@),
            final(self)@ == getdelay_spec(old(self)@),
    {
        let d = self.delay;
        self.v.set(self.a_x as usize, d);
    }

    /// `delay = v[x]`.
    pub fn set_timer_from_vx(&mut self)
        requires
            wf(old(self)@),
        ensures
            wf(final(self)@),
            final(self)@ == setdelay_spec(old(self)@),
    {
        self.delay = self.v[self.a_x as usize];
    }

    /// `sound = v[x]`.
    pub fn set_sound_timer_from_vx(&mut self)
        requires
            wf(old(self)@),
        ensures
            wf(final(self)@),
            final(self)@ == setsound_spec(old(self)@),
    {
        self.sound = self.v[self.a_x as usize];
    }

    /// `i += v[x]`, wrapping, with `v[15]` flagging a sum past 0xFFF.
    pub fn add_to_index(&mut self)
        requires
            wf(old(self)@),
        ensures
            wf(final(self)@),
            final(self)@ == addi_spec(old(self)@),
    {
        let a = self.v[self.a_x as usize];
        let flag: u8 = if (self.index as u32) + (a as u32) > 0xFFF {
            1
        } else {
            0
        };
        self.v.set(15, flag);
        let a2 = self.v[self.a_x as usize];
        self.index = self.index.wrapping_add(a2 as u16);
    }

    /// Block until a key is held: rewind `pc` while none is, else write the
    /// lowest held key index into `v[x]`.
    pub fn get_key(&mut self)
        requires
            wf(old(self)@),
        ensures
            wf(final(self)@),
            final(self)@ == getkey_spec(old(self)@),
    {
        if self.key_map == 0 {
            self.pc = self.pc.wrapping_sub(2);
        } else {
            let keys = self.key_map;
            let mut i: u16 = 0;
            while i < 16 && (keys >> i) & 1 != 1
                invariant
                    i <= 16,
                    keys == self@.keys,
                    first_key_from(keys, 0) == first_key_from(keys, i as int),
                    forall|j: u16| j < i ==> (keys >> j) & 1 != 1,
                decreases 16 - i,
            {
                i += 1;
            }
            if i < 16 {
                self.v.set(self.a_x as usize, i as u8);
            } else {
                proof {
                    crate::model::lemma_lowest_key(keys);
                    assert(false);
                }
            }
        }
    }

    /// Font lookup: `i = 0x050 + 5 * v[x]` for digits below 0x10; larger
    /// values leave the index register unchanged.
    pub fn font_character(&mut self)
        requires
            wf(old(self)@),
        ensures
            wf(final(self)@),
            final(self)@ == font_spec(old(self)@),
    {
        let d = self.v[self.a_x as usize];
        if d < 0x10 {
            self.index = 0x50 + (d as u16) * 5;
        }
    }

    /// Binary-coded decimal: the digits of `v[x]` to `mem[i..i+3]`, the
    /// addresses masked to the 12-bit space.
    pub fn binary_coded_decimal_conversion(&mut self)
        requires
            wf(old(self)@),
        ensures
            wf(final(self)@),
            final(self)@ == bcd_spec(old(self)@),
    {
        let d = self.v[self.a_x as usize];
        let i0 = (self.index as usize) % 4096;
        let i1 = ((self.index as usize) + 1) % 4096;
        let i2 = ((self.index as usize) + 2) % 4096;
        self.memory.set(i0, (d / 100) % 10);
        self.memory.set(i1, (d / 10) % 10);
        self.memory.set(i2, d % 10);
    }

    /// Register store: write `v[0..=v[x]]`, capped at register 15, to memory
    /// at `i..`, each address masked to the 12-bit space.
    pub fn store_memory(&mut self)
        requires
            wf(old(self)@),
        ensures
            wf(final(self)@),
            final(self)@ == store_spec(old(self)@),
    {
        let vx = self.v[self.a_x as usize];
        let cap: usize = if vx < 15 {
            vx as usize
        } else {
            15
        };
        let mut i: usize = 0;
        while i <= cap
            invariant
                wf(old(self)@),
                cap < 16,
                i <= cap + 1,
                self@ == (CpuView { mem: self@.mem, ..old(self)@ }),
                self@.mem.len() == 4096,
                self@.mem == store_mem(old(self)@.mem, old(self)@.index, old(self)@.v, i - 1),
            decreases cap + 1 - i,
        {
            let a = ((self.index as usize) + i) % 4096;
            let b = self.v[i];
            self.memory.set(a, b);
            i += 1;
        }
        proof {
            assert(self@ =~= store_spec(old(self)@));
        }
    }

    /// Draw a sprite of `n` rows from `mem[i..]` at `(v[x] % 64, v[y] % 32)`
    /// with XOR semantics: each set sprite bit whose cell is on-screen toggles
    /// that pixel, and `v[15]` reports whether any toggled pixel was on.
    /// Off-screen columns and rows are skipped, not wrapped.
    pub fn display(&mut self)
        requires
            wf(old(self)@),
        ensures
            wf(final(self)@),
            final(self)@ == display_spec(old(self)@),
    {
        let ghost s = old(self)@;
        let xs: u8 = self.v[self.a_x as usize] % 64;
        let ys: u8 = self.v[self.a_y as usize] % 32;
        let n: u16 = self.a_n;
        let mut coll = false;
        let mut row: u16 = 0;
        while row < n
            invariant
                wf(s),
                n == s.n,
                xs == draw_xs(s),
                ys == draw_ys(s),
                row <= n,
                self@ == (CpuView { disp: self@.disp, ..s }),
                self@.disp.len() == 2048,
                forall|j: int|
                    0 <= j < 2048 ==> self@.disp[j] == (if hit_before(
                        s.mem,
                        s.index,
                        xs as int,
                        ys as int,
                        j,
                        row as int,
                        0,
                    ) {
                        flip(s.disp[j])
                    } else {
                        s.disp[j]
                    }),
                coll <==> exists|j: int|
                    0 <= j < 2048 && hit_before(
                        s.mem,
                        s.index,
                        xs as int,
                        ys as int,
                        j,
                        row as int,
                        0,
                    ) && s.disp[j] == 1,
            decreases n - row,
        {
            let mut col: u8 = 0;
            while col < 8
                invariant
                    wf(s),
                    n == s.n,
                    xs == draw_xs(s),
                    ys == draw_ys(s),
                    row < n,
                    col <= 8,
                    self@ == (CpuView { disp: self@.disp, ..s }),
                    self@.disp.len() == 2048,
                    forall|j: int|
                        0 <= j < 2048 ==> self@.disp[j] == (if hit_before(
                            s.mem,
                            s.index,
                            xs as int,
                            ys as int,
                            j,
                            row as int,
                            col as int,
                        ) {
                            flip(s.disp[j])
                        } else {
                            s.disp[j]
                        }),
                    coll <==> exists|j: int|
                        0 <= j < 2048 && hit_before(
                            s.mem,
                            s.index,
                            xs as int,
                            ys as int,
                            j,
                            row as int,
                            col as int,
                        ) && s.disp[j] == 1,
                decreases 8 - col,
            {
                let a = ((self.index as usize) + (row as usize)) % 4096;
                let data = self.memory[a];
                let bit = (data >> (7 - col)) & 1;
                proof {
                    assert(bit == 1 <==> sprite_bit(s.mem, s.index, row as int, col as int));
                }
                if (xs as u16) + (col as u16) < 64 && (ys as u16) + row < 32 && bit == 1 {
                    let idx = 64 * ((ys as usize) + (row as usize)) + ((xs as usize) + (col
                        as usize));
                    proof {
                        assert(idx / 64 == ys + row && idx % 64 == xs + col);
                        assert(hit_before(
                            s.mem,
                            s.index,
                            xs as int,
                            ys as int,
                            idx as int,
                            row as int,
                            col as int + 1,
                        ));
                        assert(!hit_before(
                            s.mem,
                            s.index,
                            xs as int,
                            ys as int,
                            idx as int,
                            row as int,
                            col as int,
                        ));
                        assert forall|j: int| 0 <= j < 2048 && j != idx implies hit_before(
                            s.mem,
                            s.index,
                            xs as int,
                            ys as int,
                            j,
                            row as int,
                            col as int + 1,
                        ) == hit_before(
                            s.mem,
                            s.index,
                            xs as int,
                            ys as int,
                            j,
                            row as int,
                            col as int,
                        ) by {
                            assert(j == 64 * (j / 64) + j % 64);
                        }
                    }
                    if self.display[idx] == 1 {
                        coll = true;
                        self.display.set(idx, 0);
                    } else {
                        self.display.set(idx, 1);
                    }
                } else {
                    proof {
                        assert forall|j: int| 0 <= j < 2048 implies hit_before(
                            s.mem,
                            s.index,
                            xs as int,
                            ys as int,
                            j,
                            row as int,
                            col as int + 1,
                        ) == hit_before(
                            s.mem,
                            s.index,
                            xs as int,
                            ys as int,
                            j,
                            row as int,
                            col as int,
                        ) by {
                            assert(j == 64 * (j / 64) + j % 64);
                        }
                    }
                }
                col += 1;
            }
            proof {
                assert forall|j: int| 0 <= j < 2048 implies hit_before(
                    s.mem,
                    s.index,
                    xs as int,
                    ys as int,
                    j,
                    row as int + 1,
                    0,
                ) == hit_before(s.mem, s.index, xs as int, ys as int, j, row as int, 8) by {}
            }
            row += 1;
        }
        let f: u8 = if coll {
            1
        } else {
            0
        };
        self.v.set(15, f);
        proof {
            assert(self@.disp =~= draw_disp(s));
            assert(self@ =~= display_spec(s));
        }
    }

    /// Register load: read `v[0..=v[x]]`, capped at register 15, from memory
    /// at `i..`, each address masked to the 12-bit space.
    pub fn load_memory(&mut self)
        requires
            wf(old(self)@),
        ensures
            wf(final(self)@),
            final(self)@ == load_spec(old(self)@),
    {
        let vx = self.v[self.a_x as usize];
        let cap: usize = if vx < 15 {
            vx as usize
        } else {
            15
        };
        let mut i: usize = 0;
        while i <= cap
            invariant
                wf(old(self)@),
                cap < 16,
                i <= cap + 1,
                self@ == (CpuView { v: self@.v, ..old(self)@ }),
                self@.v.len() == 16,
                forall|j: int|
                    0 <= j < 16 ==> self@.v[j] == (if j < i {
                        old(self)@.mem[addr(old(self)@.index + j)]
                    } else {
                        old(self)@.v[j]
                    }),
            decreases cap + 1 - i,
        {
            let a = ((self.index as usize) + i) % 4096;
            let b = self.memory[a];
            self.v.set(i, b);
            i += 1;
        }
        proof {
            assert(self@.v =~= load_spec(old(self)@).v);
            assert(self@ =~= load_spec(old(self)@));
        }
    }

    /// Dispatch one opcode to its handler, keyed on the instruction group
    /// nibble and the sub-discriminant, so that overlapping opcode families
    /// cannot shadow one another. An opcode matching no entry is a no-op:
    /// no opcode halts the machine.
    fn process(&mut self, opcode: u16)
        requires
            wf(old(self)@),
        ensures
            wf(final(self)@),
            exists|r: u8| final(self)@ == exec_spec(old(self)@, opcode, r),
    {
        let g = opcode / 4096;
        if opcode == 0x00E0 {
            self.clear_screen();
        } else if opcode == 0x00EE {
            self.end_subroutine();
        } else if g == 0x1 {
            self.jump();
        } else if g == 0x2 {
            self.start_subroutine();
        } else if g == 0x3 {
            self.skip_3();
        } else if g == 0x4 {
            self.skip_4();
        } else if g == 0x5 {
            if opcode % 16 == 0 {
                self.skip_5();
            }
        } else if g == 0x6 {
            self.set_6();
        } else if g == 0x7 {
            self.add_7();
        } else if g == 0x8 {
            let sub = opcode % 16;
            if sub == 0x0 {
                self.set_8();
            } else if sub == 0x1 {
                self.binary_or();
            } else if sub == 0x2 {
                self.binary_and();
            } else if sub == 0x3 {
                self.logical_xor();
            } else if sub == 0x4 {
                self.add_8();
            } else if sub == 0x5 {
                self.subtract_85();
            } else if sub == 0x6 {
                self.shift_86();
            } else if sub == 0x7 {
                self.subtract_87();
            } else if sub == 0xE {
                self.shift_8e();
            }
        } else if g == 0x9 {
            if opcode % 16 == 0 {
                self.skip_9();
            }
        } else if g == 0xA {
            self.set_index();
        } else if g == 0xB {
            self.jump_with_offset();
        } else if g == 0xC {
            self.random();
        } else if g == 0xD {
            self.display();
        } else if g == 0xE {
            let low = opcode % 256;
            if low == 0x9E {
                self.skip_key_9e();
            } else if low == 0xA1 {
                self.skip_key_a1();
            }
        } else if g == 0xF {
            let low = opcode % 256;
            if low == 0x07 {
                self.set_vx_from_timer();
            } else if low == 0x15 {
                self.set_timer_from_vx();
            } else if low == 0x18 {
                self.set_sound_timer_from_vx();
            } else if low == 0x1E {
                self.add_to_index();
            } else if low == 0x0A {
                self.get_key();
            } else if low == 0x29 {
                self.font_character();
            } else if low == 0x33 {
                self.binary_coded_decimal_conversion();
            } else if low == 0x55 {
                self.store_memory();
            } else if low == 0x65 {
                self.load_memory();
            }
        }
        let ghost mid = self@;
        self.drew = opcode == 0x00E0 || g == 13;
        proof {
            if g == 0xC {
                let r = choose|r: u8| mid == rand_spec(old(self)@, r);
                assert(self@ =~= exec_spec(old(self)@, opcode, r));
            } else {
                assert(self@ =~= exec_spec(old(self)@, opcode, 0));
            }
        }
    }

    /// One fetch-decode-execute cycle: read the two bytes at `pc`, decode the
    /// opcode fields, advance `pc` by 2, and execute.
    pub fn step(&mut self)
        requires
            wf(old(self)@),
        ensures
            wf(final(self)@),
            exists|r: u8| final(self)@ == step_spec(old(self)@, r),
    {
        let hb = self.memory[(self.pc as usize) % 4096];
        let lb = self.memory[(self.pc.wrapping_add(1) as usize) % 4096];
        let opcode: u16 = (hb as u16) * 256 + (lb as u16);
        self.a_x = (hb as u16) % 16;
        self.a_n = (lb as u16) % 16;
        self.a_y = (lb as u16) / 16;
        self.a_nn = lb as u16;
        self.a_nnn = self.a_x * 256 + self.a_nn;
        self.pc = self.pc.wrapping_add(2);
        proof {
            assert(self@ =~= decode_spec(old(self)@));
            assert(opcode == opcode_at(old(self)@));
        }
        self.process(opcode);
        proof {
            let r = choose|r: u8|
                self@ == exec_spec(decode_spec(old(self)@), opcode_at(old(self)@), r);
            assert(self@ == step_spec(old(self)@, r));
        }
    }

    /// A combined host entry: decrement both timers by `delta`, then run one
    /// instruction cycle.
    pub fn tick(&mut self, delta: u8)
        requires
            wf(old(self)@),
        ensures
            wf(final(self)@),
            exists|r: u8|
                final(self)@ == step_spec(tick_timers_spec(old(self)@, delta), r),
    {
        self.tick_timers(delta);
        self.step();
    }
}

} // verus!
