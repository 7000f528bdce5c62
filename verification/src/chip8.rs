use vstd::prelude::*;

use crate::error::Chip8Error;
use crate::machine::{dump_mem, execute_spec, fetch_spec, font_glyph, fonted_mem, initial_machine, lemma_mod256, load_regs, loaded_mem, Machine};
use crate::opcode::{decode, decode_spec, Opcode};
use crate::sprite::{draw_collision, draw_collision_prefix, draw_gfx, drawn_pixel_prefix, in_sprite, in_sprite_prefix, lemma_collision_prefix_add_pixel, lemma_collision_prefix_full, lemma_collision_prefix_same_region, sprite_bit};

verus! {

/// Width of the monochrome display in pixels.
pub const DISPLAY_WIDTH: usize = 64;

/// Height of the monochrome display in pixels.
pub const DISPLAY_HEIGHT: usize = 32;

/// Size of the addressable memory in bytes.
pub const MEM_SIZE: usize = 4096;

/// Address at which a loaded program begins.
pub const PROGRAM_START_ADDRESS: usize = 0x200;

/// Relies on rand::random, used by the random-number instruction to
/// draw a byte from the thread-local generator.  Nothing is promised
/// of the value drawn: the caller's contract holds for every outcome.
pub assume_specification<T>[ rand::random::<T> ]() -> (r: T)
    where
        rand::distributions::Standard: rand::distributions::Distribution<T>,
;

/// The interpreter: all machine state, stepped one instruction at a
/// time by `emulate_cycle`.
///
/// Its mathematical value is the `Machine` it views to; every method
/// states its effect on that model.  The `opcode` field holds the most
/// recently decoded instruction, consumed by `execute`.
pub struct Chip8 {
    /// 4096 bytes of memory: font at 0x000, program from 0x200.
    pub memory: Vec<u8>,
    /// The 16 general-purpose registers V0..VF.
    pub v: Vec<u8>,
    /// The 16-bit index register I.
    pub i: u16,
    /// Address of the next instruction to fetch.
    pub pc: usize,
    /// 64x32 monochrome framebuffer, row-major, index = y * 64 + x.
    pub gfx: Vec<bool>,
    /// The delay timer, decremented at 60 Hz while nonzero.
    pub delay_timer: u8,
    /// The sound timer, decremented at 60 Hz while nonzero.
    pub sound_timer: u8,
    /// The 16 return-address slots of the call stack.
    pub stack: Vec<usize>,
    /// Number of call-stack slots in use.
    pub sp: usize,
    /// The 16 key-down flags, indexed by logical key code.
    pub keys: Vec<bool>,
    /// The most recently decoded instruction.
    pub opcode: Opcode,
    /// Whether the framebuffer changed since the host last redrew it.
    pub draw: bool,
    /// The register awaiting the next key press, if a block-on-keypress
    /// instruction is pending.
    pub wait_for_input: Option<usize>,
}

impl View for Chip8 {
    type V = Machine;

    open spec fn view(&self) -> Machine {
        Machine {
            mem: self.memory@,
            regs: self.v@,
            index: self.i,
            pc: self.pc,
            gfx: self.gfx@,
            delay: self.delay_timer,
            sound: self.sound_timer,
            stack: self.stack@,
            sp: self.sp,
            keys: self.keys@,
            waiting: self.wait_for_input,
            draw: self.draw,
        }
    }
}

impl Chip8 {
    /// The state is structurally well-formed; established by
    /// `create_chip8` and preserved by every method.
    pub open spec fn wf(self) -> bool {
        self@.wf()
    }

    /// Write the five rows of one font glyph into memory.
    fn set_glyph(&mut self, d: usize, b0: u8, b1: u8, b2: u8, b3: u8, b4: u8)
        requires
            old(self).wf(),
            d < 16,
        ensures
            final(self).wf(),
            final(self).opcode == old(self).opcode,
            final(self)@ == (Machine { mem: final(self).memory@, ..old(self)@ }),
            final(self).memory@.len() == 4096,
            forall|j: int|
                0 <= j < 4096 && !(5 * d <= j < 5 * d + 5)
                    ==> final(self).memory@[j] == old(self).memory@[j],
            final(self).memory@[5 * d as int] == b0,
            final(self).memory@[5 * d as int + 1] == b1,
            final(self).memory@[5 * d as int + 2] == b2,
            final(self).memory@[5 * d as int + 3] == b3,
            final(self).memory@[5 * d as int + 4] == b4,
    {
        let base = 5 * d;
        self.memory[base] = b0;
        self.memory[base + 1] = b1;
        self.memory[base + 2] = b2;
        self.memory[base + 3] = b3;
        self.memory[base + 4] = b4;
    }

    /// Write the built-in 16-glyph hexadecimal font into the first 80
    /// bytes of memory, five bytes per glyph, leaving the rest of the
    /// state untouched.
    pub fn init_font(&mut self)
        requires
            old(self).wf(),
        ensures
            final(self).wf(),
            final(self).opcode == old(self).opcode,
            final(self)@ == (Machine { mem: fonted_mem(old(self)@.mem), ..old(self)@ }),
    {
        self.set_glyph(0x0, 0xF0, 0x90, 0x90, 0x90, 0xF0);
        proof {
            crate::machine::lemma_glyph_range(self.memory@, 0x0);
            assert(forall|j: int| 0 <= j < 5 ==> self.memory@[j] == crate::machine::font_byte(j));
            assert(forall|j: int| 80 <= j < 4096 ==> self.memory@[j] == old(self)@.mem[j]);
        }
        self.set_glyph(0x1, 0x20, 0x60, 0x20, 0x20, 0x70);
        proof {
            crate::machine::lemma_glyph_range(self.memory@, 0x1);
            assert(forall|j: int| 0 <= j < 10 ==> self.memory@[j] == crate::machine::font_byte(j));
            assert(forall|j: int| 80 <= j < 4096 ==> self.memory@[j] == old(self)@.mem[j]);
        }
        self.set_glyph(0x2, 0xF0, 0x10, 0xF0, 0x80, 0xF0);
        proof {
            crate::machine::lemma_glyph_range(self.memory@, 0x2);
            assert(forall|j: int| 0 <= j < 15 ==> self.memory@[j] == crate::machine::font_byte(j));
            assert(forall|j: int| 80 <= j < 4096 ==> self.memory@[j] == old(self)@.mem[j]);
        }
        self.set_glyph(0x3, 0xF0, 0x10, 0xF0, 0x10, 0xF0);
        proof {
            crate::machine::lemma_glyph_range(self.memory@, 0x3);
            assert(forall|j: int| 0 <= j < 20 ==> self.memory@[j] == crate::machine::font_byte(j));
            assert(forall|j: int| 80 <= j < 4096 ==> self.memory@[j] == old(self)@.mem[j]);
        }
        self.set_glyph(0x4, 0x90, 0x90, 0xF0, 0x10, 0x10);
        proof {
            crate::machine::lemma_glyph_range(self.memory@, 0x4);
            assert(forall|j: int| 0 <= j < 25 ==> self.memory@[j] == crate::machine::font_byte(j));
            assert(forall|j: int| 80 <= j < 4096 ==> self.memory@[j] == old(self)@.mem[j]);
        }
        self.set_glyph(0x5, 0xF0, 0x80, 0xF0, 0x10, 0xF0);
        proof {
            crate::machine::lemma_glyph_range(self.memory@, 0x5);
            assert(forall|j: int| 0 <= j < 30 ==> self.memory@[j] == crate::machine::font_byte(j));
            assert(forall|j: int| 80 <= j < 4096 ==> self.memory@[j] == old(self)@.mem[j]);
        }
        self.set_glyph(0x6, 0xF0, 0x80, 0xF0, 0x90, 0xF0);
        proof {
            crate::machine::lemma_glyph_range(self.memory@, 0x6);
            assert(forall|j: int| 0 <= j < 35 ==> self.memory@[j] == crate::machine::font_byte(j));
            assert(forall|j: int| 80 <= j < 4096 ==> self.memory@[j] == old(self)@.mem[j]);
        }
        self.set_glyph(0x7, 0xF0, 0x10, 0x20, 0x40, 0x40);
        proof {
            crate::machine::lemma_glyph_range(self.memory@, 0x7);
            assert(forall|j: int| 0 <= j < 40 ==> self.memory@[j] == crate::machine::font_byte(j));
            assert(forall|j: int| 80 <= j < 4096 ==> self.memory@[j] == old(self)@.mem[j]);
        }
        self.set_glyph(0x8, 0xF0, 0x90, 0xF0, 0x90, 0xF0);
        proof {
            crate::machine::lemma_glyph_range(self.memory@, 0x8);
            assert(forall|j: int| 0 <= j < 45 ==> self.memory@[j] == crate::machine::font_byte(j));
            assert(forall|j: int| 80 <= j < 4096 ==> self.memory@[j] == old(self)@.mem[j]);
        }
        self.set_glyph(0x9, 0xF0, 0x90, 0xF0, 0x10, 0xF0);
        proof {
            crate::machine::lemma_glyph_range(self.memory@, 0x9);
            assert(forall|j: int| 0 <= j < 50 ==> self.memory@[j] == crate::machine::font_byte(j));
            assert(forall|j: int| 80 <= j < 4096 ==> self.memory@[j] == old(self)@.mem[j]);
        }
        self.set_glyph(0xA, 0xF0, 0x90, 0xF0, 0x90, 0x90);
        proof {
            crate::machine::lemma_glyph_range(self.memory@, 0xA);
            assert(forall|j: int| 0 <= j < 55 ==> self.memory@[j] == crate::machine::font_byte(j));
            assert(forall|j: int| 80 <= j < 4096 ==> self.memory@[j] == old(self)@.mem[j]);
        }
        self.set_glyph(0xB, 0xE0, 0x90, 0xE0, 0x90, 0xE0);
        proof {
            crate::machine::lemma_glyph_range(self.memory@, 0xB);
            assert(forall|j: int| 0 <= j < 60 ==> self.memory@[j] == crate::machine::font_byte(j));
            assert(forall|j: int| 80 <= j < 4096 ==> self.memory@[j] == old(self)@.mem[j]);
        }
        self.set_glyph(0xC, 0xF0, 0x80, 0x80, 0x80, 0xF0);
        proof {
            crate::machine::lemma_glyph_range(self.memory@, 0xC);
            assert(forall|j: int| 0 <= j < 65 ==> self.memory@[j] == crate::machine::font_byte(j));
            assert(forall|j: int| 80 <= j < 4096 ==> self.memory@[j] == old(self)@.mem[j]);
        }
        self.set_glyph(0xD, 0xE0, 0x90, 0x90, 0x90, 0xE0);
        proof {
            crate::machine::lemma_glyph_range(self.memory@, 0xD);
            assert(forall|j: int| 0 <= j < 70 ==> self.memory@[j] == crate::machine::font_byte(j));
            assert(forall|j: int| 80 <= j < 4096 ==> self.memory@[j] == old(self)@.mem[j]);
        }
        self.set_glyph(0xE, 0xF0, 0x80, 0xF0, 0x80, 0xF0);
        proof {
            crate::machine::lemma_glyph_range(self.memory@, 0xE);
            assert(forall|j: int| 0 <= j < 75 ==> self.memory@[j] == crate::machine::font_byte(j));
            assert(forall|j: int| 80 <= j < 4096 ==> self.memory@[j] == old(self)@.mem[j]);
        }
        self.set_glyph(0xF, 0xF0, 0x80, 0xF0, 0x80, 0x80);
        proof {
            crate::machine::lemma_glyph_range(self.memory@, 0xF);
            assert(forall|j: int| 0 <= j < 80 ==> self.memory@[j] == crate::machine::font_byte(j));
            assert(forall|j: int| 80 <= j < 4096 ==> self.memory@[j] == old(self)@.mem[j]);
        }
        proof {
            assert(self.memory@ =~= fonted_mem(old(self)@.mem));
        }
    }

    /// Copy a ROM's raw bytes into memory starting at 0x200, or report
    /// `RomTooLarge`, changing nothing, when it exceeds the 3584 bytes
    /// of program space.
    pub fn load_rom(&mut self, rom: &Vec<u8>) -> (r: Result<(), Chip8Error>)
        requires
            old(self).wf(),
        ensures
            final(self).wf(),
            final(self).opcode == old(self).opcode,
            rom@.len() <= 3584 ==> r == Ok::<(), Chip8Error>(()) && final(self)@ == (Machine {
                mem: loaded_mem(old(self)@.mem, rom@),
                ..old(self)@
            }),
            rom@.len() > 3584 ==> r == Err::<(), Chip8Error>(Chip8Error::RomTooLarge)
                && final(self)@ == old(self)@,
    {
        if rom.len() > 3584 {
            return Err(Chip8Error::RomTooLarge);
        }
        let mut k: usize = 0;
        while k < rom.len()
            invariant
                old(self).wf(),
                rom@.len() <= 3584,
                k <= rom@.len(),
                self@ == (Machine { mem: self.memory@, ..old(self)@ }),
                self.opcode == old(self).opcode,
                self.memory.len() == 4096,
                forall|a: int|
                    0x200 <= a < 0x200 + k ==> self.memory@[a] == rom@[a - 0x200],
                forall|a: int|
                    0 <= a < 4096 && !(0x200 <= a < 0x200 + k) ==> self.memory@[a] == old(
                        self,
                    )@.mem[a],
            decreases rom@.len() - k,
        {
            self.memory[0x200 + k] = rom[k];
            k = k + 1;
        }
        proof {
            assert(self.memory@ =~= loaded_mem(old(self)@.mem, rom@));
        }
        Ok(())
    }

    /// Record that logical key `code` is no longer held down.
    pub fn key_up(&mut self, code: u8)
        requires
            old(self).wf(),
            code < 16,
        ensures
            final(self).wf(),
            final(self).opcode == old(self).opcode,
            final(self)@ == (Machine {
                keys: old(self)@.keys.update(code as int, false),
                ..old(self)@
            }),
    {
        self.keys[code as usize] = false;
    }

    /// Record that logical key `code` was pressed.  If a block-on-
    /// keypress instruction is pending, the key code resolves it: it is
    /// written to the awaiting register and the wait marker is cleared,
    /// without marking the key held.  Otherwise the key is marked held.
    pub fn key_down(&mut self, code: u8)
        requires
            old(self).wf(),
            code < 16,
        ensures
            final(self).wf(),
            final(self).opcode == old(self).opcode,
            match old(self).wait_for_input {
                Some(x) => final(self)@ == (Machine {
                    regs: old(self)@.regs.update(x as int, code),
                    waiting: None,
                    ..old(self)@
                }),
                None => final(self)@ == (Machine {
                    keys: old(self)@.keys.update(code as int, true),
                    ..old(self)@
                }),
            },
    {
        match self.wait_for_input {
            Some(x) => {
                self.v[x] = code;
                self.wait_for_input = None;
            },
            None => {
                self.keys[code as usize] = true;
            },
        }
    }

    /// Decrement each timer that is nonzero; a timer at zero stays at
    /// zero, never wrapping below it.  Invoked by the host at a fixed
    /// 60 Hz cadence, independent of the instruction rate.
    pub fn tick_timers(&mut self)
        requires
            old(self).wf(),
        ensures
            final(self).wf(),
            final(self).opcode == old(self).opcode,
            final(self)@ == (Machine {
                delay: if old(self)@.delay > 0 {
                    (old(self)@.delay - 1) as u8
                } else {
                    0u8
                },
                sound: if old(self)@.sound > 0 {
                    (old(self)@.sound - 1) as u8
                } else {
                    0u8
                },
                ..old(self)@
            }),
    {
        if self.delay_timer > 0 {
            self.delay_timer = self.delay_timer - 1;
        }
        if self.sound_timer > 0 {
            self.sound_timer = self.sound_timer - 1;
        }
    }

    /// Read the 16-bit instruction word at the program counter, high
    /// byte first.
    pub fn fetch(&self) -> (w: u16)
        requires
            self.wf(),
            self.pc + 1 < 4096,
        ensures
            w == crate::machine::fetch_spec(self@),
    {
        ((self.memory[self.pc] as u16) << 8u16) | (self.memory[self.pc + 1] as u16)
    }

    /// Unset every framebuffer cell and raise the redraw flag.
    pub fn clear_screen(&mut self)
        requires
            old(self).wf(),
        ensures
            final(self).wf(),
            final(self).opcode == old(self).opcode,
            final(self)@ == (Machine {
                gfx: Seq::new(old(self)@.gfx.len(), |k: int| false),
                draw: true,
                ..old(self)@
            }),
    {
        let mut k: usize = 0;
        while k < DISPLAY_WIDTH * DISPLAY_HEIGHT
            invariant
                k <= 2048,
                self@ == (Machine { gfx: self.gfx@, ..old(self)@ }),
                self.opcode == old(self).opcode,
                self.gfx.len() == 2048,
                forall|j: int| 0 <= j < k ==> !self.gfx@[j],
                forall|j: int| k <= j < 2048 ==> self.gfx@[j] == old(self)@.gfx[j],
            decreases 2048 - k,
        {
            self.gfx[k] = false;
            k = k + 1;
        }
        self.draw = true;
        proof {
            assert(self.gfx@ =~= Seq::new(old(self)@.gfx.len(), |j: int| false));
        }
    }

    /// XOR-draw the `n`-row sprite at memory\[I\] at coordinates
    /// (Vx, Vy), clipping at the screen edges, setting VF to 1 exactly
    /// when a set sprite bit lands on an already-set cell, and raising
    /// the redraw flag.
    pub fn draw_sprite(&mut self, x: usize, y: usize, n: u8)
        requires
            old(self).wf(),
            x < 16,
            y < 16,
            n < 16,
            old(self).i as int + n as int <= 4096,
        ensures
            final(self).wf(),
            final(self).opcode == old(self).opcode,
            final(self)@ == (Machine {
                gfx: draw_gfx(
                    old(self)@.gfx,
                    old(self)@.mem,
                    old(self).i as int,
                    old(self)@.regs[x as int] as int,
                    old(self)@.regs[y as int] as int,
                    n as int,
                ),
                regs: old(self)@.regs.update(
                    15,
                    if draw_collision(
                        old(self)@.gfx,
                        old(self)@.mem,
                        old(self).i as int,
                        old(self)@.regs[x as int] as int,
                        old(self)@.regs[y as int] as int,
                        n as int,
                    ) {
                        1u8
                    } else {
                        0u8
                    },
                ),
                draw: true,
                ..old(self)@
            }),
    {
        let vx = self.v[x] as usize;
        let vy = self.v[y] as usize;
        let base = self.i as usize;
        let ghost g0 = self.gfx@;
        let ghost mem0 = self.memory@;
        let ghost vxi = vx as int;
        let ghost vyi = vy as int;
        let ghost basei = base as int;
        let mut collision = false;
        let mut row: usize = 0;
        while row < n as usize
            invariant
                old(self).wf(),
                x < 16,
                y < 16,
                n < 16,
                row <= n,
                vx == old(self)@.regs[x as int],
                vy == old(self)@.regs[y as int],
                base == old(self).i,
                base + n <= 4096,
                g0 == old(self)@.gfx,
                mem0 == old(self)@.mem,
                vxi == vx as int,
                vyi == vy as int,
                basei == base as int,
                self@ == (Machine { gfx: self.gfx@, ..old(self)@ }),
                self.opcode == old(self).opcode,
                self.gfx.len() == 2048,
                forall|a: int, b: int|
                    #![trigger drawn_pixel_prefix(g0, mem0, basei, vxi, vyi, row as int, 0, a, b)]
                    0 <= a < 64 && 0 <= b < 32 ==> self.gfx@[b * 64 + a] == drawn_pixel_prefix(
                        g0,
                        mem0,
                        basei,
                        vxi,
                        vyi,
                        row as int,
                        0,
                        a,
                        b,
                    ),
                collision == draw_collision_prefix(g0, mem0, basei, vxi, vyi, row as int, 0),
            decreases n - row,
        {
            let ghost ri = row as int;
            let py = vy + row;
            if py >= DISPLAY_HEIGHT {
                proof {
                    assert forall|a: int, b: int|
                        #![trigger in_sprite_prefix(vxi, vyi, ri + 1, 0, a, b)]
                        in_sprite_prefix(vxi, vyi, ri + 1, 0, a, b) == in_sprite_prefix(
                        vxi,
                        vyi,
                        ri,
                        0,
                        a,
                        b,
                    ) by {}
                    assert forall|a: int, b: int|
                        #![trigger drawn_pixel_prefix(g0, mem0, basei, vxi, vyi, ri + 1, 0, a, b)]
                        0 <= a < 64 && 0 <= b < 32 implies self.gfx@[b * 64 + a]
                        == drawn_pixel_prefix(g0, mem0, basei, vxi, vyi, ri + 1, 0, a, b) by {
                        assert(self.gfx@[b * 64 + a] == drawn_pixel_prefix(
                            g0,
                            mem0,
                            basei,
                            vxi,
                            vyi,
                            ri,
                            0,
                            a,
                            b,
                        ));
                    }
                    lemma_collision_prefix_same_region(g0, mem0, basei, vxi, vyi, ri + 1, 0, ri, 0);
                }
            } else {
                let byte = self.memory[base + row];
                let mut bit: usize = 0;
                while bit < 8
                    invariant
                        old(self).wf(),
                        x < 16,
                        y < 16,
                        n < 16,
                        row < n,
                        bit <= 8,
                        py == vy + row,
                        py < 32,
                        vx == old(self)@.regs[x as int],
                        vy == old(self)@.regs[y as int],
                        base == old(self).i,
                        base + n <= 4096,
                        g0 == old(self)@.gfx,
                        mem0 == old(self)@.mem,
                        vxi == vx as int,
                        vyi == vy as int,
                        basei == base as int,
                        ri == row as int,
                        byte == mem0[basei + ri],
                        self@ == (Machine { gfx: self.gfx@, ..old(self)@ }),
                        self.opcode == old(self).opcode,
                        self.gfx.len() == 2048,
                        forall|a: int, b: int|
                            #![trigger drawn_pixel_prefix(g0, mem0, basei, vxi, vyi, ri, bit as int, a, b)]
                            0 <= a < 64 && 0 <= b < 32 ==> self.gfx@[b * 64 + a]
                                == drawn_pixel_prefix(
                                g0,
                                mem0,
                                basei,
                                vxi,
                                vyi,
                                ri,
                                bit as int,
                                a,
                                b,
                            ),
                        collision == draw_collision_prefix(
                            g0,
                            mem0,
                            basei,
                            vxi,
                            vyi,
                            ri,
                            bit as int,
                        ),
                    decreases 8 - bit,
                {
                    let ghost bi = bit as int;
                    let ghost px0 = vxi + bi;
                    let ghost py0 = vyi + ri;
                    let ghost idx0 = py0 * 64 + px0;
                    let px = vx + bit;
                    if px < DISPLAY_WIDTH {
                        let idx = py * DISPLAY_WIDTH + px;
                        let bit_value = (byte >> ((7 - bit) as u8)) & 1 == 1;
                        let cur = self.gfx[idx];
                        proof {
                            assert(idx == idx0);
                            assert(self.gfx@[py0 * 64 + px0] == drawn_pixel_prefix(
                                g0,
                                mem0,
                                basei,
                                vxi,
                                vyi,
                                ri,
                                bi,
                                px0,
                                py0,
                            ));
                            assert(!in_sprite_prefix(vxi, vyi, ri, bi, px0, py0));
                            assert(cur == g0[idx0]);
                            assert(bit_value == sprite_bit(mem0[basei + ri], bi));
                        }
                        let ghost prev = self.gfx@;
                        if bit_value && cur {
                            collision = true;
                        }
                        self.gfx[idx] = cur ^ bit_value;
                        proof {
                            assert(self.gfx@ == prev.update(idx0, cur ^ bit_value));
                            assert forall|a: int, b: int|
                                #![trigger drawn_pixel_prefix(g0, mem0, basei, vxi, vyi, ri, bi + 1, a, b)]
                                0 <= a < 64 && 0 <= b < 32 implies self.gfx@[b * 64 + a]
                                == drawn_pixel_prefix(g0, mem0, basei, vxi, vyi, ri, bi + 1, a, b) by {
                                if a == px0 && b == py0 {
                                    assert(in_sprite_prefix(vxi, vyi, ri, bi + 1, px0, py0));
                                    assert(self.gfx@[idx0] == cur ^ bit_value);
                                } else {
                                    assert(b * 64 + a != idx0);
                                    assert(self.gfx@[b * 64 + a] == prev[b * 64 + a]);
                                    assert(prev[b * 64 + a] == drawn_pixel_prefix(
                                        g0,
                                        mem0,
                                        basei,
                                        vxi,
                                        vyi,
                                        ri,
                                        bi,
                                        a,
                                        b,
                                    ));
                                    assert(in_sprite_prefix(vxi, vyi, ri, bi + 1, a, b)
                                        == in_sprite_prefix(vxi, vyi, ri, bi, a, b));
                                }
                            }
                            lemma_collision_prefix_add_pixel(g0, mem0, basei, vxi, vyi, ri, bi);
                        }
                    } else {
                        proof {
                            assert forall|a: int, b: int|
                                #![trigger in_sprite_prefix(vxi, vyi, ri, bi + 1, a, b)]
                                in_sprite_prefix(vxi, vyi, ri, bi + 1, a, b) == in_sprite_prefix(
                                vxi,
                                vyi,
                                ri,
                                bi,
                                a,
                                b,
                            ) by {}
                            assert forall|a: int, b: int|
                                #![trigger drawn_pixel_prefix(g0, mem0, basei, vxi, vyi, ri, bi + 1, a, b)]
                                0 <= a < 64 && 0 <= b < 32 implies self.gfx@[b * 64 + a]
                                == drawn_pixel_prefix(g0, mem0, basei, vxi, vyi, ri, bi + 1, a, b) by {
                                assert(self.gfx@[b * 64 + a] == drawn_pixel_prefix(
                                    g0,
                                    mem0,
                                    basei,
                                    vxi,
                                    vyi,
                                    ri,
                                    bi,
                                    a,
                                    b,
                                ));
                            }
                            lemma_collision_prefix_same_region(
                                g0,
                                mem0,
                                basei,
                                vxi,
                                vyi,
                                ri,
                                bi + 1,
                                ri,
                                bi,
                            );
                        }
                    }
                    bit = bit + 1;
                }
                proof {
                    assert forall|a: int, b: int|
                        #![trigger in_sprite_prefix(vxi, vyi, ri + 1, 0, a, b)]
                        in_sprite_prefix(vxi, vyi, ri + 1, 0, a, b) == in_sprite_prefix(
                        vxi,
                        vyi,
                        ri,
                        8,
                        a,
                        b,
                    ) by {}
                    assert forall|a: int, b: int|
                        #![trigger drawn_pixel_prefix(g0, mem0, basei, vxi, vyi, ri + 1, 0, a, b)]
                        0 <= a < 64 && 0 <= b < 32 implies self.gfx@[b * 64 + a]
                        == drawn_pixel_prefix(g0, mem0, basei, vxi, vyi, ri + 1, 0, a, b) by {
                        assert(self.gfx@[b * 64 + a] == drawn_pixel_prefix(
                            g0,
                            mem0,
                            basei,
                            vxi,
                            vyi,
                            ri,
                            8,
                            a,
                            b,
                        ));
                    }
                    lemma_collision_prefix_same_region(g0, mem0, basei, vxi, vyi, ri + 1, 0, ri, 8);
                }
            }
            row = row + 1;
        }
        self.v[0xF] = if collision {
            1
        } else {
            0
        };
        self.draw = true;
        proof {
            assert forall|j: int|
                0 <= j < 2048 implies self.gfx@[j] == draw_gfx(
                g0,
                mem0,
                basei,
                vxi,
                vyi,
                n as int,
            )[j] by {
                vstd::arithmetic::div_mod::lemma_fundamental_div_mod(j, 64);
                let a = j % 64;
                let b = j / 64;
                assert(j == 64 * b + a);
                assert(0 <= a < 64);
                assert(0 <= b < 32);
                assert(self.gfx@[b * 64 + a] == drawn_pixel_prefix(
                    g0,
                    mem0,
                    basei,
                    vxi,
                    vyi,
                    n as int,
                    0,
                    a,
                    b,
                ));
                assert(in_sprite_prefix(vxi, vyi, n as int, 0, a, b) == in_sprite(
                    vxi,
                    vyi,
                    n as int,
                    a,
                    b,
                ));
            }
            assert(self.gfx@ =~= draw_gfx(g0, mem0, basei, vxi, vyi, n as int));
            lemma_collision_prefix_full(g0, mem0, basei, vxi, vyi, n as int);
        }
    }
    /// Perform one fetch-decode-execute cycle: read the two bytes at
    /// the program counter, decode them, and execute the instruction.
    /// While a block-on-keypress wait is pending the cycle is a no-op;
    /// a fetch outside memory, an unknown opcode or a fatal execution
    /// condition is reported and leaves the state unchanged.
    pub fn emulate_cycle(&mut self) -> (r: Result<(), Chip8Error>)
        requires
            old(self).wf(),
        ensures
            final(self).wf(),
            old(self).wait_for_input is Some ==> r == Ok::<(), Chip8Error>(()) && final(self)@
                == old(self)@ && final(self).opcode == old(self).opcode,
            old(self).wait_for_input is None && old(self).pc > 4094 ==> r == Err::<
                (),
                Chip8Error,
            >(Chip8Error::AddressOutOfRange) && final(self)@ == old(self)@ && final(self).opcode
                == old(self).opcode,
            old(self).wait_for_input is None && old(self).pc <= 4094 ==> ({
                let w = fetch_spec(old(self)@);
                match decode_spec(w) {
                    Err(e) => r == Err::<(), Chip8Error>(e) && final(self)@ == old(self)@
                        && final(self).opcode == old(self).opcode,
                    Ok(op) => final(self).opcode == op && (match r {
                        Ok(()) => exists|b: u8|
                            execute_spec(old(self)@, op, b) == Ok::<Machine, Chip8Error>(
                                final(self)@,
                            ),
                        Err(e) => final(self)@ == old(self)@ && (forall|b: u8|
                            execute_spec(old(self)@, op, b) == Err::<Machine, Chip8Error>(e)),
                    }),
                }
            }),
    {
        if self.wait_for_input.is_some() {
            return Ok(());
        }
        if self.pc > 4094 {
            return Err(Chip8Error::AddressOutOfRange);
        }
        let raw = self.fetch();
        self.opcode = match decode(raw) {
            Ok(op) => op,
            Err(e) => {
                return Err(e);
            },
        };
        self.execute()
    }

    /// Execute the decoded instruction held in `opcode`: one
    /// fetch-decode-execute cycle's execute stage, mutating the state
    /// exactly as `execute_spec` describes and reporting the fatal
    /// conditions instead of performing them.
    pub fn execute(&mut self) -> (r: Result<(), Chip8Error>)
        requires
            old(self).wf(),
            old(self).opcode.valid(),
            old(self).pc <= 4094,
        ensures
            final(self).wf(),
            final(self).opcode == old(self).opcode,
            match r {
                Ok(()) => exists|b: u8|
                    execute_spec(old(self)@, old(self).opcode, b) == Ok::<
                        Machine,
                        Chip8Error,
                    >(final(self)@),
                Err(e) => final(self)@ == old(self)@ && (forall|b: u8|
                    execute_spec(old(self)@, old(self).opcode, b) == Err::<
                        Machine,
                        Chip8Error,
                    >(e)),
            },
    {
        let op = self.opcode;
        match op {
            Opcode::OP_0000 => {
                self.pc = self.pc + 2;
                proof {
                    assert(execute_spec(old(self)@, op, 0u8) == Ok::<Machine, Chip8Error>(self@));
                }
                Ok(())
            },
            Opcode::OP_00E0 => {
                self.clear_screen();
                self.pc = self.pc + 2;
                proof {
                    assert(execute_spec(old(self)@, op, 0u8) == Ok::<Machine, Chip8Error>(self@));
                }
                Ok(())
            },
            Opcode::OP_00EE => {
                if self.sp == 0 {
                    proof {
                        assert forall|b: u8|
                            execute_spec(old(self)@, op, b) == Err::<Machine, Chip8Error>(
                                Chip8Error::StackUnderflow,
                            ) by {}
                    }
                    return Err(Chip8Error::StackUnderflow);
                }
                self.sp = self.sp - 1;
                self.pc = self.stack[self.sp] + 2;
                proof {
                    assert(execute_spec(old(self)@, op, 0u8) == Ok::<Machine, Chip8Error>(self@));
                }
                Ok(())
            },
            Opcode::OP_1MMM(m) => {
                self.pc = m;
                proof {
                    assert(execute_spec(old(self)@, op, 0u8) == Ok::<Machine, Chip8Error>(self@));
                }
                Ok(())
            },
            Opcode::OP_2MMM(m) => {
                if self.sp >= 16 {
                    proof {
                        assert forall|b: u8|
                            execute_spec(old(self)@, op, b) == Err::<Machine, Chip8Error>(
                                Chip8Error::StackOverflow,
                            ) by {}
                    }
                    return Err(Chip8Error::StackOverflow);
                }
                self.stack[self.sp] = self.pc;
                self.sp = self.sp + 1;
                self.pc = m;
                proof {
                    assert(execute_spec(old(self)@, op, 0u8) == Ok::<Machine, Chip8Error>(self@));
                }
                Ok(())
            },
            Opcode::OP_3XKK(x, kk) => {
                if self.v[x] == kk {
                    self.pc = self.pc + 4;
                } else {
                    self.pc = self.pc + 2;
                }
                proof {
                    assert(execute_spec(old(self)@, op, 0u8) == Ok::<Machine, Chip8Error>(self@));
                }
                Ok(())
            },
            Opcode::OP_4XKK(x, kk) => {
                if self.v[x] != kk {
                    self.pc = self.pc + 4;
                } else {
                    self.pc = self.pc + 2;
                }
                proof {
                    assert(execute_spec(old(self)@, op, 0u8) == Ok::<Machine, Chip8Error>(self@));
                }
                Ok(())
            },
            Opcode::OP_5XY0(x, y) => {
                if self.v[x] == self.v[y] {
                    self.pc = self.pc + 4;
                } else {
                    self.pc = self.pc + 2;
                }
                proof {
                    assert(execute_spec(old(self)@, op, 0u8) == Ok::<Machine, Chip8Error>(self@));
                }
                Ok(())
            },
            Opcode::OP_6XKK(x, kk) => {
                self.v[x] = kk;
                self.pc = self.pc + 2;
                proof {
                    assert(execute_spec(old(self)@, op, 0u8) == Ok::<Machine, Chip8Error>(self@));
                }
                Ok(())
            },
            Opcode::OP_7XKK(x, kk) => {
                let a = self.v[x];
                self.v[x] = a.wrapping_add(kk);
                self.pc = self.pc + 2;
                proof {
                    lemma_mod256(a + kk);
                    assert(execute_spec(old(self)@, op, 0u8) == Ok::<Machine, Chip8Error>(self@));
                }
                Ok(())
            },
            Opcode::OP_8XY0(x, y) => {
                self.v[x] = self.v[y];
                self.pc = self.pc + 2;
                proof {
                    assert(execute_spec(old(self)@, op, 0u8) == Ok::<Machine, Chip8Error>(self@));
                }
                Ok(())
            },
            Opcode::OP_8XY1(x, y) => {
                self.v[x] = self.v[x] | self.v[y];
                self.pc = self.pc + 2;
                proof {
                    assert(execute_spec(old(self)@, op, 0u8) == Ok::<Machine, Chip8Error>(self@));
                }
                Ok(())
            },
            Opcode::OP_8XY2(x, y) => {
                self.v[x] = self.v[x] & self.v[y];
                self.pc = self.pc + 2;
                proof {
                    assert(execute_spec(old(self)@, op, 0u8) == Ok::<Machine, Chip8Error>(self@));
                }
                Ok(())
            },
            Opcode::OP_8XY3(x, y) => {
                self.v[x] = self.v[x] ^ self.v[y];
                self.pc = self.pc + 2;
                proof {
                    assert(execute_spec(old(self)@, op, 0u8) == Ok::<Machine, Chip8Error>(self@));
                }
                Ok(())
            },
            Opcode::OP_8XY4(x, y) => {
                let a = self.v[x];
                let b = self.v[y];
                let sum: u16 = a as u16 + b as u16;
                self.v[0xF] = if sum > 255 {
                    1
                } else {
                    0
                };
                self.v[x] = (sum % 256) as u8;
                self.pc = self.pc + 2;
                proof {
                    lemma_mod256(a + b);
                    assert(execute_spec(old(self)@, op, 0u8) == Ok::<Machine, Chip8Error>(self@));
                }
                Ok(())
            },
            Opcode::OP_8XY5(x, y) => {
                let a = self.v[x];
                let b = self.v[y];
                self.v[0xF] = if a >= b {
                    1
                } else {
                    0
                };
                self.v[x] = a.wrapping_sub(b);
                self.pc = self.pc + 2;
                proof {
                    lemma_mod256(a - b);
                    assert(execute_spec(old(self)@, op, 0u8) == Ok::<Machine, Chip8Error>(self@));
                }
                Ok(())
            },
            Opcode::OP_8X16(x) => {
                let a = self.v[x];
                self.v[0xF] = a & 1;
                let cur = self.v[x];
                self.v[x] = cur >> 1u8;
                self.pc = self.pc + 2;
                proof {
                    assert(cur >> 1u8 == cur / 2) by (bit_vector);
                    assert(execute_spec(old(self)@, op, 0u8) == Ok::<Machine, Chip8Error>(self@));
                }
                Ok(())
            },
            Opcode::OP_8XY7(x, y) => {
                let a = self.v[x];
                let b = self.v[y];
                self.v[0xF] = if b >= a {
                    1
                } else {
                    0
                };
                self.v[x] = b.wrapping_sub(a);
                self.pc = self.pc + 2;
                proof {
                    lemma_mod256(b - a);
                    assert(execute_spec(old(self)@, op, 0u8) == Ok::<Machine, Chip8Error>(self@));
                }
                Ok(())
            },
            Opcode::OP_8X1E(x) => {
                let a = self.v[x];
                self.v[0xF] = if a & 0x80 == 0x80 {
                    1
                } else {
                    0
                };
                let cur = self.v[x];
                self.v[x] = cur << 1u8;
                self.pc = self.pc + 2;
                proof {
                    assert(cur << 1u8 == (cur * 2) % 256) by (bit_vector);
                    assert(execute_spec(old(self)@, op, 0u8) == Ok::<Machine, Chip8Error>(self@));
                }
                Ok(())
            },
            Opcode::OP_9XY0(x, y) => {
                if self.v[x] != self.v[y] {
                    self.pc = self.pc + 4;
                } else {
                    self.pc = self.pc + 2;
                }
                proof {
                    assert(execute_spec(old(self)@, op, 0u8) == Ok::<Machine, Chip8Error>(self@));
                }
                Ok(())
            },
            Opcode::OP_AMMM(m) => {
                self.i = m as u16;
                self.pc = self.pc + 2;
                proof {
                    assert(execute_spec(old(self)@, op, 0u8) == Ok::<Machine, Chip8Error>(self@));
                }
                Ok(())
            },
            Opcode::OP_BMMM(m) => {
                self.pc = m + self.v[0] as usize;
                proof {
                    assert(execute_spec(old(self)@, op, 0u8) == Ok::<Machine, Chip8Error>(self@));
                }
                Ok(())
            },
            Opcode::OP_CXKK(x, kk) => {
                let rnd: u8 = rand::random();
                self.v[x] = rnd & kk;
                self.pc = self.pc + 2;
                proof {
                    assert(execute_spec(old(self)@, op, rnd) == Ok::<Machine, Chip8Error>(self@));
                }
                Ok(())
            },
            Opcode::OP_DXYN(x, y, n) => {
                if self.i as usize + n as usize > 4096 {
                    proof {
                        assert forall|b: u8|
                            execute_spec(old(self)@, op, b) == Err::<Machine, Chip8Error>(
                                Chip8Error::AddressOutOfRange,
                            ) by {}
                    }
                    return Err(Chip8Error::AddressOutOfRange);
                }
                self.draw_sprite(x, y, n);
                self.pc = self.pc + 2;
                proof {
                    assert(execute_spec(old(self)@, op, 0u8) == Ok::<Machine, Chip8Error>(self@));
                }
                Ok(())
            },
            Opcode::OP_EX9E(x) => {
                let key = self.v[x];
                if key >= 16 {
                    proof {
                        assert forall|b: u8|
                            execute_spec(old(self)@, op, b) == Err::<Machine, Chip8Error>(
                                Chip8Error::AddressOutOfRange,
                            ) by {}
                    }
                    return Err(Chip8Error::AddressOutOfRange);
                }
                if self.keys[key as usize] {
                    self.pc = self.pc + 4;
                } else {
                    self.pc = self.pc + 2;
                }
                proof {
                    assert(execute_spec(old(self)@, op, 0u8) == Ok::<Machine, Chip8Error>(self@));
                }
                Ok(())
            },
            Opcode::OP_EXA1(x) => {
                let key = self.v[x];
                if key >= 16 {
                    proof {
                        assert forall|b: u8|
                            execute_spec(old(self)@, op, b) == Err::<Machine, Chip8Error>(
                                Chip8Error::AddressOutOfRange,
                            ) by {}
                    }
                    return Err(Chip8Error::AddressOutOfRange);
                }
                if !self.keys[key as usize] {
                    self.pc = self.pc + 4;
                } else {
                    self.pc = self.pc + 2;
                }
                proof {
                    assert(execute_spec(old(self)@, op, 0u8) == Ok::<Machine, Chip8Error>(self@));
                }
                Ok(())
            },
            Opcode::OP_FX07(x) => {
                self.v[x] = self.delay_timer;
                self.pc = self.pc + 2;
                proof {
                    assert(execute_spec(old(self)@, op, 0u8) == Ok::<Machine, Chip8Error>(self@));
                }
                Ok(())
            },
            Opcode::OP_FX0A(x) => {
                self.wait_for_input = Some(x);
                self.pc = self.pc + 2;
                proof {
                    assert(execute_spec(old(self)@, op, 0u8) == Ok::<Machine, Chip8Error>(self@));
                }
                Ok(())
            },
            Opcode::OP_FX15(x) => {
                self.delay_timer = self.v[x];
                self.pc = self.pc + 2;
                proof {
                    assert(execute_spec(old(self)@, op, 0u8) == Ok::<Machine, Chip8Error>(self@));
                }
                Ok(())
            },
            Opcode::OP_FX18(x) => {
                self.sound_timer = self.v[x];
                self.pc = self.pc + 2;
                proof {
                    assert(execute_spec(old(self)@, op, 0u8) == Ok::<Machine, Chip8Error>(self@));
                }
                Ok(())
            },
            Opcode::OP_FX1E(x) => {
                let moved: u32 = self.i as u32 + self.v[x] as u32;
                if moved > 0xFFFF {
                    proof {
                        assert forall|b: u8|
                            execute_spec(old(self)@, op, b) == Err::<Machine, Chip8Error>(
                                Chip8Error::AddressOutOfRange,
                            ) by {}
                    }
                    return Err(Chip8Error::AddressOutOfRange);
                }
                self.i = moved as u16;
                self.pc = self.pc + 2;
                proof {
                    assert(execute_spec(old(self)@, op, 0u8) == Ok::<Machine, Chip8Error>(self@));
                }
                Ok(())
            },
            Opcode::OP_FX29(x) => {
                let a = self.v[x];
                proof {
                    assert(a & 0xF < 16) by (bit_vector);
                }
                let glyph = (a & 0xF) as u16;
                self.i = 5 * glyph;
                self.pc = self.pc + 2;
                proof {
                    assert(execute_spec(old(self)@, op, 0u8) == Ok::<Machine, Chip8Error>(self@));
                }
                Ok(())
            },
            Opcode::OP_FX33(x) => {
                if self.i as usize + 2 >= 4096 {
                    proof {
                        assert forall|b: u8|
                            execute_spec(old(self)@, op, b) == Err::<Machine, Chip8Error>(
                                Chip8Error::AddressOutOfRange,
                            ) by {}
                    }
                    return Err(Chip8Error::AddressOutOfRange);
                }
                let a = self.v[x];
                let base = self.i as usize;
                self.memory[base] = a / 100;
                self.memory[base + 1] = (a / 10) % 10;
                self.memory[base + 2] = a % 10;
                self.pc = self.pc + 2;
                proof {
                    assert(execute_spec(old(self)@, op, 0u8) == Ok::<Machine, Chip8Error>(self@));
                }
                Ok(())
            },
            Opcode::OP_FX55(x) => {
                if self.i as usize + x >= 4096 {
                    proof {
                        assert forall|b: u8|
                            execute_spec(old(self)@, op, b) == Err::<Machine, Chip8Error>(
                                Chip8Error::AddressOutOfRange,
                            ) by {}
                    }
                    return Err(Chip8Error::AddressOutOfRange);
                }
                let base = self.i as usize;
                let mut k: usize = 0;
                while k < x + 1
                    invariant
                        old(self).wf(),
                        x < 16,
                        base == old(self).i,
                        base + x < 4096,
                        k <= x + 1,
                        self@ == (Machine { mem: self.memory@, ..old(self)@ }),
                        self.opcode == old(self).opcode,
                        self.memory.len() == 4096,
                        forall|a: int|
                            base <= a < base + k ==> self.memory@[a] == old(self)@.regs[a - base],
                        forall|a: int|
                            0 <= a < 4096 && !(base <= a < base + k) ==> self.memory@[a] == old(
                                self,
                            )@.mem[a],
                    decreases x + 1 - k,
                {
                    self.memory[base + k] = self.v[k];
                    k = k + 1;
                }
                self.pc = self.pc + 2;
                proof {
                    assert(self.memory@ =~= dump_mem(
                        old(self)@.mem,
                        old(self)@.regs,
                        old(self).i as int,
                        x as int + 1,
                    ));
                    assert(execute_spec(old(self)@, op, 0u8) == Ok::<Machine, Chip8Error>(self@));
                }
                Ok(())
            },
            Opcode::OP_FX65(x) => {
                if self.i as usize + x >= 4096 {
                    proof {
                        assert forall|b: u8|
                            execute_spec(old(self)@, op, b) == Err::<Machine, Chip8Error>(
                                Chip8Error::AddressOutOfRange,
                            ) by {}
                    }
                    return Err(Chip8Error::AddressOutOfRange);
                }
                let base = self.i as usize;
                let mut k: usize = 0;
                while k < x + 1
                    invariant
                        old(self).wf(),
                        x < 16,
                        base == old(self).i,
                        base + x < 4096,
                        k <= x + 1,
                        self@ == (Machine { regs: self.v@, ..old(self)@ }),
                        self.opcode == old(self).opcode,
                        self.v.len() == 16,
                        forall|q: int| 0 <= q < k ==> self.v@[q] == old(self)@.mem[base + q],
                        forall|q: int| k <= q < 16 ==> self.v@[q] == old(self)@.regs[q],
                    decreases x + 1 - k,
                {
                    self.v[k] = self.memory[base + k];
                    k = k + 1;
                }
                self.pc = self.pc + 2;
                proof {
                    assert(self.v@ =~= load_regs(
                        old(self)@.regs,
                        old(self)@.mem,
                        old(self).i as int,
                        x as int + 1,
                    ));
                    assert(execute_spec(old(self)@, op, 0u8) == Ok::<Machine, Chip8Error>(self@));
                }
                Ok(())
            },
        }
    }
}

/// Build a fresh interpreter: memory zeroed but for the font, all
/// registers and timers zero, the program counter at 0x200, the
/// screen clear, no key held and no wait pending.
pub fn create_chip8() -> (c: Chip8)
    ensures
        c.wf(),
        c@ == initial_machine(),
        c.opcode == Opcode::OP_0000,
{
    let mut instance = Chip8 {
        memory: vec![0u8; 4096],
        v: vec![0u8; 16],
        i: 0,
        pc: PROGRAM_START_ADDRESS,
        gfx: vec![false; 2048],
        delay_timer: 0,
        sound_timer: 0,
        stack: vec![0usize; 16],
        sp: 0,
        keys: vec![false; 16],
        opcode: Opcode::OP_0000,
        draw: false,
        wait_for_input: None,
    };
    instance.init_font();
    proof {
        assert(instance@ =~= initial_machine());
    }
    instance
}

} // verus!
