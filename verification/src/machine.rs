use vstd::prelude::*;

use crate::error::Chip8Error;
use crate::opcode::Opcode;
use crate::sprite::{draw_collision, draw_gfx, lemma_draw_clear_no_collision, lemma_draw_twice};

verus! {

/// The mathematical model of the whole machine state: memory,
/// register file, index register, program counter, framebuffer,
/// timers, call stack, key state, the pending key-wait marker and the
/// redraw flag.
#[verifier::ext_equal]
pub struct Machine {
    /// 4096 bytes of addressable memory.
    pub mem: Seq<u8>,
    /// The 16 general-purpose registers V0..VF.
    pub regs: Seq<u8>,
    /// The 16-bit index register I.
    pub index: u16,
    /// Address of the next instruction to fetch.
    pub pc: usize,
    /// 64x32 monochrome framebuffer, row-major, index = y * 64 + x.
    pub gfx: Seq<bool>,
    /// The delay timer.
    pub delay: u8,
    /// The sound timer.
    pub sound: u8,
    /// The 16 return-address slots of the call stack.
    pub stack: Seq<usize>,
    /// Number of call-stack slots in use.
    pub sp: usize,
    /// The 16 key-down flags.
    pub keys: Seq<bool>,
    /// The register awaiting the next key press, if a block-on-keypress
    /// instruction is pending.
    pub waiting: Option<usize>,
    /// Whether the framebuffer changed since the host last redrew it.
    pub draw: bool,
}

impl Machine {
    /// Structural well-formedness: every array has its architectural
    /// length, the stack never exceeds its capacity and holds only
    /// resumable return addresses, and a pending key-wait names a real
    /// register.
    pub open spec fn wf(self) -> bool {
        &&& self.mem.len() == 4096
        &&& self.regs.len() == 16
        &&& self.gfx.len() == 2048
        &&& self.stack.len() == 16
        &&& self.keys.len() == 16
        &&& self.sp <= 16
        &&& (forall|k: int| 0 <= k < 16 ==> self.stack[k] <= 4094)
        &&& (self.waiting matches Some(x) ==> x < 16)
    }
}

/// The 16-bit instruction word at the program counter, high byte
/// first.
pub open spec fn fetch_spec(m: Machine) -> u16 {
    ((m.mem[m.pc as int] as u16) << 8u16) | (m.mem[m.pc as int + 1] as u16)
}

/// Memory after registers V0..=V(cnt-1) are dumped to addresses
/// i..i+cnt.
pub open spec fn dump_mem(mem: Seq<u8>, regs: Seq<u8>, i: int, cnt: int) -> Seq<u8> {
    Seq::new(
        mem.len(),
        |a: int| if i <= a < i + cnt { regs[a - i] } else { mem[a] },
    )
}

/// Registers after V0..=V(cnt-1) are loaded from addresses i..i+cnt.
pub open spec fn load_regs(regs: Seq<u8>, mem: Seq<u8>, i: int, cnt: int) -> Seq<u8> {
    Seq::new(
        regs.len(),
        |k: int| if 0 <= k < cnt { mem[i + k] } else { regs[k] },
    )
}

/// Memory after the ROM's bytes are copied in at address 0x200.
pub open spec fn loaded_mem(mem: Seq<u8>, rom: Seq<u8>) -> Seq<u8> {
    Seq::new(
        mem.len(),
        |a: int| if 0x200 <= a < 0x200 + rom.len() { rom[a - 0x200] } else { mem[a] },
    )
}

/// Memory after the built-in font is written to its first 80 bytes.
pub open spec fn fonted_mem(mem: Seq<u8>) -> Seq<u8> {
    Seq::new(mem.len(), |a: int| if 0 <= a < 80 { font_byte(a) } else { mem[a] })
}

/// The five-byte row bitmap of the built-in glyph for hex digit `d`.
pub open spec fn font_glyph(d: int) -> Seq<u8> {
    if d == 0x0 {
        seq![0xF0u8, 0x90, 0x90, 0x90, 0xF0]
    } else if d == 0x1 {
        seq![0x20u8, 0x60, 0x20, 0x20, 0x70]
    } else if d == 0x2 {
        seq![0xF0u8, 0x10, 0xF0, 0x80, 0xF0]
    } else if d == 0x3 {
        seq![0xF0u8, 0x10, 0xF0, 0x10, 0xF0]
    } else if d == 0x4 {
        seq![0x90u8, 0x90, 0xF0, 0x10, 0x10]
    } else if d == 0x5 {
        seq![0xF0u8, 0x80, 0xF0, 0x10, 0xF0]
    } else if d == 0x6 {
        seq![0xF0u8, 0x80, 0xF0, 0x90, 0xF0]
    } else if d == 0x7 {
        seq![0xF0u8, 0x10, 0x20, 0x40, 0x40]
    } else if d == 0x8 {
        seq![0xF0u8, 0x90, 0xF0, 0x90, 0xF0]
    } else if d == 0x9 {
        seq![0xF0u8, 0x90, 0xF0, 0x10, 0xF0]
    } else if d == 0xA {
        seq![0xF0u8, 0x90, 0xF0, 0x90, 0x90]
    } else if d == 0xB {
        seq![0xE0u8, 0x90, 0xE0, 0x90, 0xE0]
    } else if d == 0xC {
        seq![0xF0u8, 0x80, 0x80, 0x80, 0xF0]
    } else if d == 0xD {
        seq![0xE0u8, 0x90, 0x90, 0x90, 0xE0]
    } else if d == 0xE {
        seq![0xF0u8, 0x80, 0xF0, 0x80, 0xF0]
    } else {
        seq![0xF0u8, 0x80, 0xF0, 0x80, 0x80]
    }
}

/// The byte at offset `a` of the 80-byte font region: glyph `a / 5`,
/// row `a % 5`.
pub open spec fn font_byte(a: int) -> u8 {
    font_glyph(a / 5)[a % 5]
}

/// Reduction modulo 256 of any value one wraparound away from the
/// byte range, as produced by 8-bit adds, subtracts and doubles.
pub proof fn lemma_mod256(a: int)
    requires
        -256 < a < 512,
    ensures
        a % 256 == if a < 0 {
            a + 256
        } else if a < 256 {
            a
        } else {
            a - 256
        },
{
    if a < 0 {
        vstd::arithmetic::div_mod::lemma_fundamental_div_mod_converse_mod(a, 256, -1, a + 256);
    } else if a < 256 {
        vstd::arithmetic::div_mod::lemma_fundamental_div_mod_converse_mod(a, 256, 0, a);
    } else {
        vstd::arithmetic::div_mod::lemma_fundamental_div_mod_converse_mod(a, 256, 1, a - 256);
    }
}

/// A glyph's five bytes, written at its base address `5 * d`, give
/// `font_byte` over its whole address range.
pub proof fn lemma_glyph_range(mem: Seq<u8>, d: int)
    requires
        0 <= d < 16,
        mem.len() == 4096,
        mem[5 * d] == font_glyph(d)[0],
        mem[5 * d + 1] == font_glyph(d)[1],
        mem[5 * d + 2] == font_glyph(d)[2],
        mem[5 * d + 3] == font_glyph(d)[3],
        mem[5 * d + 4] == font_glyph(d)[4],
    ensures
        forall|j: int| 5 * d <= j < 5 * d + 5 ==> mem[j] == font_byte(j),
{
    assert forall|j: int| 5 * d <= j < 5 * d + 5 implies mem[j] == font_byte(j) by {
        vstd::arithmetic::div_mod::lemma_fundamental_div_mod_converse(j, 5, d, j - 5 * d);
        assert(j / 5 == d && j % 5 == j - 5 * d);
    }
}

/// The machine as `create_chip8` builds it: the font in the first 80
/// bytes, everything else zeroed, the program counter at 0x200.
pub open spec fn initial_machine() -> Machine {
    Machine {
        mem: Seq::new(4096, |a: int| if a < 80 { font_byte(a) } else { 0u8 }),
        regs: Seq::new(16, |k: int| 0u8),
        index: 0u16,
        pc: 0x200usize,
        gfx: Seq::new(2048, |k: int| false),
        delay: 0u8,
        sound: 0u8,
        stack: Seq::new(16, |k: int| 0usize),
        sp: 0usize,
        keys: Seq::new(16, |k: int| false),
        waiting: None,
        draw: false,
    }
}

/// The effect of executing one decoded instruction on the machine
/// state.  `rnd` is the byte drawn by the random-number instruction;
/// every other instruction ignores it.  An `Err` models the fatal
/// conditions: stack overflow and underflow, and memory or index
/// accesses outside the addressable range.
pub open spec fn execute_spec(pre: Machine, op: Opcode, rnd: u8) -> Result<Machine, Chip8Error> {
    match op {
        Opcode::OP_0000 => Ok(Machine { pc: (pre.pc + 2) as usize, ..pre }),
        Opcode::OP_00E0 => Ok(
            Machine {
                gfx: Seq::new(pre.gfx.len(), |k: int| false),
                draw: true,
                pc: (pre.pc + 2) as usize,
                ..pre
            },
        ),
        Opcode::OP_00EE => {
            if pre.sp == 0 {
                Err(Chip8Error::StackUnderflow)
            } else {
                Ok(
                    Machine {
                        sp: (pre.sp - 1) as usize,
                        pc: (pre.stack[pre.sp - 1] + 2) as usize,
                        ..pre
                    },
                )
            }
        },
        Opcode::OP_1MMM(m) => Ok(Machine { pc: m, ..pre }),
        Opcode::OP_2MMM(m) => {
            if pre.sp >= 16 {
                Err(Chip8Error::StackOverflow)
            } else {
                Ok(
                    Machine {
                        stack: pre.stack.update(pre.sp as int, pre.pc),
                        sp: (pre.sp + 1) as usize,
                        pc: m,
                        ..pre
                    },
                )
            }
        },
        Opcode::OP_3XKK(x, kk) => Ok(skip_if(pre, pre.regs[x as int] == kk)),
        Opcode::OP_4XKK(x, kk) => Ok(skip_if(pre, pre.regs[x as int] != kk)),
        Opcode::OP_5XY0(x, y) => Ok(skip_if(pre, pre.regs[x as int] == pre.regs[y as int])),
        Opcode::OP_6XKK(x, kk) => Ok(
            Machine { regs: pre.regs.update(x as int, kk), pc: (pre.pc + 2) as usize, ..pre },
        ),
        Opcode::OP_7XKK(x, kk) => Ok(
            Machine {
                regs: pre.regs.update(x as int, ((pre.regs[x as int] + kk) % 256) as u8),
                pc: (pre.pc + 2) as usize,
                ..pre
            },
        ),
        Opcode::OP_8XY0(x, y) => Ok(
            Machine {
                regs: pre.regs.update(x as int, pre.regs[y as int]),
                pc: (pre.pc + 2) as usize,
                ..pre
            },
        ),
        Opcode::OP_8XY1(x, y) => Ok(
            Machine {
                regs: pre.regs.update(x as int, pre.regs[x as int] | pre.regs[y as int]),
                pc: (pre.pc + 2) as usize,
                ..pre
            },
        ),
        Opcode::OP_8XY2(x, y) => Ok(
            Machine {
                regs: pre.regs.update(x as int, pre.regs[x as int] & pre.regs[y as int]),
                pc: (pre.pc + 2) as usize,
                ..pre
            },
        ),
        Opcode::OP_8XY3(x, y) => Ok(
            Machine {
                regs: pre.regs.update(x as int, pre.regs[x as int] ^ pre.regs[y as int]),
                pc: (pre.pc + 2) as usize,
                ..pre
            },
        ),
        Opcode::OP_8XY4(x, y) => {
            let sum = pre.regs[x as int] + pre.regs[y as int];
            let flagged = pre.regs.update(15, if sum > 255 { 1u8 } else { 0u8 });
            Ok(
                Machine {
                    regs: flagged.update(x as int, (sum % 256) as u8),
                    pc: (pre.pc + 2) as usize,
                    ..pre
                },
            )
        },
        Opcode::OP_8XY5(x, y) => {
            let diff = pre.regs[x as int] - pre.regs[y as int];
            let no_borrow = pre.regs[x as int] >= pre.regs[y as int];
            let flagged = pre.regs.update(15, if no_borrow { 1u8 } else { 0u8 });
            Ok(
                Machine {
                    regs: flagged.update(x as int, (diff % 256) as u8),
                    pc: (pre.pc + 2) as usize,
                    ..pre
                },
            )
        },
        Opcode::OP_8X16(x) => {
            let flagged = pre.regs.update(15, pre.regs[x as int] & 1);
            Ok(
                Machine {
                    regs: flagged.update(x as int, (flagged[x as int] / 2) as u8),
                    pc: (pre.pc + 2) as usize,
                    ..pre
                },
            )
        },
        Opcode::OP_8XY7(x, y) => {
            let diff = pre.regs[y as int] - pre.regs[x as int];
            let no_borrow = pre.regs[y as int] >= pre.regs[x as int];
            let flagged = pre.regs.update(15, if no_borrow { 1u8 } else { 0u8 });
            Ok(
                Machine {
                    regs: flagged.update(x as int, (diff % 256) as u8),
                    pc: (pre.pc + 2) as usize,
                    ..pre
                },
            )
        },
        Opcode::OP_8X1E(x) => {
            let high = pre.regs[x as int] & 0x80 == 0x80;
            let flagged = pre.regs.update(15, if high { 1u8 } else { 0u8 });
            Ok(
                Machine {
                    regs: flagged.update(x as int, ((flagged[x as int] * 2) % 256) as u8),
                    pc: (pre.pc + 2) as usize,
                    ..pre
                },
            )
        },
        Opcode::OP_9XY0(x, y) => Ok(skip_if(pre, pre.regs[x as int] != pre.regs[y as int])),
        Opcode::OP_AMMM(m) => Ok(
            Machine { index: m as u16, pc: (pre.pc + 2) as usize, ..pre },
        ),
        Opcode::OP_BMMM(m) => Ok(Machine { pc: (m + pre.regs[0]) as usize, ..pre }),
        Opcode::OP_CXKK(x, kk) => Ok(
            Machine { regs: pre.regs.update(x as int, rnd & kk), pc: (pre.pc + 2) as usize, ..pre },
        ),
        Opcode::OP_DXYN(x, y, n) => {
            if pre.index + n > 4096 {
                Err(Chip8Error::AddressOutOfRange)
            } else {
                let vx = pre.regs[x as int] as int;
                let vy = pre.regs[y as int] as int;
                let coll = draw_collision(pre.gfx, pre.mem, pre.index as int, vx, vy, n as int);
                Ok(
                    Machine {
                        gfx: draw_gfx(pre.gfx, pre.mem, pre.index as int, vx, vy, n as int),
                        regs: pre.regs.update(15, if coll { 1u8 } else { 0u8 }),
                        draw: true,
                        pc: (pre.pc + 2) as usize,
                        ..pre
                    },
                )
            }
        },
        Opcode::OP_EX9E(x) => {
            if pre.regs[x as int] >= 16 {
                Err(Chip8Error::AddressOutOfRange)
            } else {
                Ok(skip_if(pre, pre.keys[pre.regs[x as int] as int]))
            }
        },
        Opcode::OP_EXA1(x) => {
            if pre.regs[x as int] >= 16 {
                Err(Chip8Error::AddressOutOfRange)
            } else {
                Ok(skip_if(pre, !pre.keys[pre.regs[x as int] as int]))
            }
        },
        Opcode::OP_FX07(x) => Ok(
            Machine { regs: pre.regs.update(x as int, pre.delay), pc: (pre.pc + 2) as usize, ..pre },
        ),
        Opcode::OP_FX0A(x) => Ok(
            Machine { waiting: Some(x), pc: (pre.pc + 2) as usize, ..pre },
        ),
        Opcode::OP_FX15(x) => Ok(
            Machine { delay: pre.regs[x as int], pc: (pre.pc + 2) as usize, ..pre },
        ),
        Opcode::OP_FX18(x) => Ok(
            Machine { sound: pre.regs[x as int], pc: (pre.pc + 2) as usize, ..pre },
        ),
        Opcode::OP_FX1E(x) => {
            let moved = pre.index + pre.regs[x as int];
            if moved > 0xFFFF {
                Err(Chip8Error::AddressOutOfRange)
            } else {
                Ok(Machine { index: moved as u16, pc: (pre.pc + 2) as usize, ..pre })
            }
        },
        Opcode::OP_FX29(x) => Ok(
            Machine {
                index: (5 * (pre.regs[x as int] & 0xF)) as u16,
                pc: (pre.pc + 2) as usize,
                ..pre
            },
        ),
        Opcode::OP_FX33(x) => {
            if pre.index + 2 >= 4096 {
                Err(Chip8Error::AddressOutOfRange)
            } else {
                let v = pre.regs[x as int];
                Ok(
                    Machine {
                        mem: pre.mem.update(pre.index as int, (v / 100) as u8).update(
                            pre.index as int + 1,
                            ((v / 10) % 10) as u8,
                        ).update(pre.index as int + 2, (v % 10) as u8),
                        pc: (pre.pc + 2) as usize,
                        ..pre
                    },
                )
            }
        },
        Opcode::OP_FX55(x) => {
            if pre.index + x >= 4096 {
                Err(Chip8Error::AddressOutOfRange)
            } else {
                Ok(
                    Machine {
                        mem: dump_mem(pre.mem, pre.regs, pre.index as int, x + 1),
                        pc: (pre.pc + 2) as usize,
                        ..pre
                    },
                )
            }
        },
        Opcode::OP_FX65(x) => {
            if pre.index + x >= 4096 {
                Err(Chip8Error::AddressOutOfRange)
            } else {
                Ok(
                    Machine {
                        regs: load_regs(pre.regs, pre.mem, pre.index as int, x + 1),
                        pc: (pre.pc + 2) as usize,
                        ..pre
                    },
                )
            }
        },
    }
}

/// The machine with the program counter advanced by 4 when the skip
/// is taken, by 2 otherwise.
pub open spec fn skip_if(pre: Machine, cond: bool) -> Machine {
    Machine { pc: if cond { (pre.pc + 4) as usize } else { (pre.pc + 2) as usize }, ..pre }
}

/// Executing the same draw-sprite instruction twice in succession
/// restores the framebuffer to its pre-draw contents, and raises the
/// redraw flag both times.  (With VF itself as a coordinate register
/// the second draw may land elsewhere, so the flag register is left
/// out.)
pub proof fn lemma_execute_draw_twice(m: Machine, x: usize, y: usize, n: u8, rnd: u8)
    requires
        m.wf(),
        x < 15,
        y < 15,
        n < 16,
        m.index + n <= 4096,
    ensures
        ({
            let first = execute_spec(m, Opcode::OP_DXYN(x, y, n), rnd);
            &&& first matches Ok(m1)
            &&& execute_spec(m1, Opcode::OP_DXYN(x, y, n), rnd) matches Ok(m2) && m2.gfx == m.gfx
                && m1.draw && m2.draw
        }),
{
    lemma_draw_twice(m.gfx, m.mem, m.index as int, m.regs[x as int] as int, m.regs[y as int] as int, n as int);
}

/// Executing a draw-sprite instruction over an all-unset framebuffer
/// clears VF: no collision can be reported.
pub proof fn lemma_execute_draw_clear(m: Machine, x: usize, y: usize, n: u8, rnd: u8)
    requires
        m.wf(),
        x < 16,
        y < 16,
        n < 16,
        m.index + n <= 4096,
        forall|k: int| 0 <= k < 2048 ==> !m.gfx[k],
    ensures
        execute_spec(m, Opcode::OP_DXYN(x, y, n), rnd) matches Ok(m1) && m1.regs[15] == 0,
{
    lemma_draw_clear_no_collision(
        m.gfx,
        m.mem,
        m.index as int,
        m.regs[x as int] as int,
        m.regs[y as int] as int,
        n as int,
    );
}

/// A register dump to memory at I followed by a register load from
/// the same I restores the original values of V0..=Vx.
pub proof fn lemma_dump_load_round_trip(m: Machine, x: usize, rnd: u8)
    requires
        m.wf(),
        x < 16,
        m.index + x < 4096,
    ensures
        ({
            let dumped = execute_spec(m, Opcode::OP_FX55(x), rnd);
            &&& dumped matches Ok(m1)
            &&& execute_spec(m1, Opcode::OP_FX65(x), rnd) matches Ok(m2) && m2.regs == m.regs
        }),
{
    let m1 = match execute_spec(m, Opcode::OP_FX55(x), rnd) {
        Ok(m1) => m1,
        Err(_) => m,
    };
    let m2 = match execute_spec(m1, Opcode::OP_FX65(x), rnd) {
        Ok(m2) => m2,
        Err(_) => m,
    };
    assert(m2.regs =~= m.regs);
}

} // verus!
