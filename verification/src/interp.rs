//! The host-facing interpreter: construction from a program image, keypad
//! translation, the two entry points of the run-loop (`step` and
//! `update_timers`), and read-only introspection for a renderer or debugger.
use vstd::prelude::*;

use crate::Chip8Error;
use crate::cpu::{Cpu, init_view, init_mem, loaded_mem};
use crate::model::{CpuView, wf, step_spec, tick_timers_spec, key_pressed, lemma_set_bit,
    lemma_zero_bit};

verus! {

/// A CHIP-8 machine, as the host drives it.
pub struct Interpreter {
    cpu: Cpu,
}

impl View for Interpreter {
    type V = CpuView;

    closed spec fn view(&self) -> CpuView {
        self.cpu@
    }
}

impl Interpreter {
    /// A machine with `rom` loaded at 0x200 and the font at 0x050. A program
    /// image longer than the 3584 bytes of program space is rejected.
    pub fn new(rom: Vec<u8>) -> (r: Result<Interpreter, Chip8Error>)
        ensures
            r is Ok <==> rom@.len() <= 3584,
            r is Ok ==> wf(r->Ok_0@) && r->Ok_0@ == (CpuView {
                mem: loaded_mem(init_mem(), 512, rom@),
                ..init_view()
            }),
            r is Err ==> r == Err::<Interpreter, Chip8Error>(Chip8Error::RomTooLarge),
    {
        let mut cpu = Cpu::new();
        match cpu.load_program_at(512, &rom) {
            Ok(_) => Ok(Interpreter { cpu }),
            Err(e) => Err(e),
        }
    }

    /// Overwrite the keypad snapshot: bit `k` of the machine's mask becomes
    /// `keypad[k]`.
    pub fn update_keypad(&mut self, keypad: [bool; 16])
        requires
            wf(old(self)@),
        ensures
            wf(final(self)@),
            final(self)@ == (CpuView { keys: final(self)@.keys, ..old(self)@ }),
            forall|k: int| 0 <= k < 16 ==> (key_pressed(final(self)@.keys, k as u8) <==> keypad@[
                k]),
    {
        let mut mask: u16 = 0;
        proof {
            assert forall|k: u16| k < 16 implies #[trigger] ((mask >> k) & 1) != 1 by {
                lemma_zero_bit(k);
            }
        }
        let mut i: usize = 0;
        while i < 16
            invariant
                i <= 16,
                forall|k: u16|
                    k < 16 ==> ((#[trigger] ((mask >> k) & 1) == 1) <==> (k < i && keypad@[
                        k as int])),
            decreases 16 - i,
        {
            let ghost m0 = mask;
            if keypad[i] {
                mask = mask | (1u16 << (i as u16));
                proof {
                    assert forall|k: u16| k < 16 implies ((#[trigger] ((mask >> k) & 1) == 1) <==> (
                    k < i + 1 && keypad@[k as int])) by {
                        lemma_set_bit(m0, i as u16, k);
                    }
                }
            } else {
                proof {
                    assert forall|k: u16| k < 16 implies ((#[trigger] ((mask >> k) & 1) == 1) <==> (
                    k < i + 1 && keypad@[k as int])) by {
                        assert(((m0 >> k) & 1 == 1) <==> (k < i && keypad@[k as int]));
                    }
                }
            }
            i += 1;
        }
        self.cpu.set_key_map(mask);
        proof {
            assert forall|k: int| 0 <= k < 16 implies (key_pressed(self@.keys, k as u8) <==> keypad@[
                k]) by {
                assert((k as u8) as u16 == k as u16);
            }
        }
    }

    /// Run one fetch-decode-execute cycle against the current keypad snapshot.
    pub fn step(&mut self)
        requires
            wf(old(self)@),
        ensures
            wf(final(self)@),
            exists|r: u8| final(self)@ == step_spec(old(self)@, r),
    {
        self.cpu.step();
    }

    /// Whether the most recent instruction wrote to the framebuffer, so the
    /// host knows to redraw.
    pub fn should_redraw(&self) -> (r: bool)
        ensures
            r == self@.drew,
    {
        self.cpu.drew_last()
    }

    /// Whether the sound timer is running, so the host knows to beep.
    pub fn should_beep(&self) -> (r: bool)
        ensures
            r == (self@.sound > 0),
    {
        self.cpu.get_sound() > 0
    }

    /// Decrement both timers by the host's elapsed-tick delta, saturating at
    /// zero.
    pub fn update_timers(&mut self, delta: u8)
        requires
            wf(old(self)@),
        ensures
            wf(final(self)@),
            final(self)@ == tick_timers_spec(old(self)@, delta),
    {
        self.cpu.tick_timers(delta);
    }

    /// A snapshot of the 64x32 framebuffer, row-major, one 0/1 byte per
    /// pixel.
    pub fn get_vram(&self) -> (r: Vec<u8>)
        ensures
            r@ == self@.disp,
    {
        let src = self.cpu.display_matrix();
        let mut out: Vec<u8> = Vec::new();
        let mut i: usize = 0;
        while i < src.len()
            invariant
                out@.len() == i,
                i <= src@.len(),
                src@ == self@.disp,
                forall|a: int| 0 <= a < i ==> out@[a] == src@[a],
            decreases src@.len() - i,
        {
            let b = src[i];
            out.push(b);
            i += 1;
        }
        proof {
            assert(out@ =~= self@.disp);
        }
        out
    }

    /// The framebuffer, a read-only borrow for zero-copy rendering.
    pub fn get_vram_ptr(&self) -> (r: &Vec<u8>)
        ensures
            r@ == self@.disp,
    {
        self.cpu.display_matrix()
    }

    /// The memory image, a read-only borrow for a debugger.
    pub fn get_ram_ptr(&self) -> (r: &Vec<u8>)
        ensures
            r@ == self@.mem,
    {
        self.cpu.memory_image()
    }

    /// The register file, a read-only borrow for a debugger.
    pub fn get_v_ptr(&self) -> (r: &Vec<u8>)
        ensures
            r@ == self@.v,
    {
        self.cpu.registers()
    }

    /// Reset to power-on state, keeping the memory image in place.
    pub fn reset(&mut self)
        requires
            wf(old(self)@),
        ensures
            wf(final(self)@),
            final(self)@ == (CpuView { mem: old(self)@.mem, ..init_view() }),
    {
        self.cpu.reset()
    }

    /// Load a program image at 0x200 without touching the rest of the
    /// machine; an image longer than the program space is rejected whole.
    pub fn load_rom(&mut self, rom: Vec<u8>) -> (r: Result<(), Chip8Error>)
        requires
            wf(old(self)@),
        ensures
            wf(final(self)@),
            r is Ok <==> rom@.len() <= 3584,
            r is Ok ==> final(self)@ == (CpuView {
                mem: loaded_mem(old(self)@.mem, 512, rom@),
                ..old(self)@
            }),
            r is Err ==> final(self)@ == old(self)@ && r == Err::<(), Chip8Error>(
                Chip8Error::RomTooLarge,
            ),
    {
        self.cpu.load_program_at(512, &rom)
    }

    /// The program counter.
    pub fn get_pc(&self) -> (r: u16)
        ensures
            r == self@.pc,
    {
        self.cpu.get_pc()
    }

    /// The index register.
    pub fn get_i(&self) -> (r: u16)
        ensures
            r == self@.index,
    {
        self.cpu.get_index()
    }

    /// The call stack depth, truncated to a byte.
    pub fn get_sp(&self) -> (r: u8)
        ensures
            r == (self@.stack.len() % 256) as u8,
    {
        self.cpu.stack_depth()
    }

    /// The delay timer.
    pub fn get_delay(&self) -> (r: u8)
        ensures
            r == self@.delay,
    {
        self.cpu.get_delay()
    }

    /// The sound timer.
    pub fn get_sound(&self) -> (r: u8)
        ensures
            r == self@.sound,
    {
        self.cpu.get_sound()
    }
}

} // verus!
