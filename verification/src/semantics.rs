//! What one interpreter step does, as functions on the ghost state: fetch,
//! decode, and the effect of every instruction, including sprite compositing
//! with collision detection and the stack and bounds error conditions.

use vstd::prelude::*;

use crate::decode::{spec_decode, Instr};
use crate::state::{
    all_false, Chip8Error, MachineView, NUM_KEYS, RAM_SIZE, SCREEN_HEIGHT, SCREEN_WIDTH,
    STACK_SIZE,
};

verus! {

/// Push a return address: write at the stack pointer, then increment it.
/// With the stack full, the push fails and changes nothing.
pub open spec fn spec_push(s: MachineView, val: u16) -> Result<MachineView, Chip8Error> {
    if s.sp >= STACK_SIZE {
        Err(Chip8Error::StackOverflow)
    } else {
        Ok(MachineView { stack: s.stack.update(s.sp, val), sp: s.sp + 1, ..s })
    }
}

/// Pop a return address: decrement the stack pointer, then read there.
/// With the stack empty, the pop fails and changes nothing.
pub open spec fn spec_pop(s: MachineView) -> Result<(MachineView, u16), Chip8Error> {
    if s.sp <= 0 {
        Err(Chip8Error::StackUnderflow)
    } else {
        Ok((MachineView { sp: s.sp - 1, ..s }, s.stack[s.sp - 1]))
    }
}

/// The weight of sprite column `col` within a row byte: column 0 is the
/// most-significant bit, column 7 the least.
pub open spec fn col_weight(col: int) -> int {
    if col == 0 {
        128
    } else if col == 1 {
        64
    } else if col == 2 {
        32
    } else if col == 3 {
        16
    } else if col == 4 {
        8
    } else if col == 5 {
        4
    } else if col == 6 {
        2
    } else {
        1
    }
}

/// Whether sprite column `col` of a row byte is set.
pub open spec fn sprite_bit(byte: u8, col: int) -> bool {
    (byte as int) / col_weight(col) % 2 == 1
}

/// The display index of sprite column `col` drawn at origin column `x0` in
/// display row `y`: each axis wraps independently.
pub open spec fn pixel_index(x0: int, col: int, y: int) -> int {
    (x0 + col) % (SCREEN_WIDTH as int) + (SCREEN_WIDTH as int) * y
}

/// Draw the first `ncols` columns of one sprite row byte onto the display,
/// in column order: each set sprite bit XORs its pixel. The second component
/// reports whether any pixel was turned off.
pub open spec fn draw_row(disp: Seq<bool>, byte: u8, x0: int, y: int, ncols: int) -> (Seq<
    bool,
>, bool)
    decreases ncols,
{
    if ncols <= 0 {
        (disp, false)
    } else {
        let prev = draw_row(disp, byte, x0, y, ncols - 1);
        let col = ncols - 1;
        if sprite_bit(byte, col) {
            let idx = pixel_index(x0, col, y);
            (prev.0.update(idx, !prev.0[idx]), prev.1 || prev.0[idx])
        } else {
            prev
        }
    }
}

/// Draw the first `nrows` rows of a sprite whose row bytes sit in memory at
/// `i`, onto the display at origin (`x0`, `y0`), in row order. The second
/// component reports whether any pixel was turned off by any row.
pub open spec fn draw_sprite(
    disp: Seq<bool>,
    ram: Seq<u8>,
    i: int,
    x0: int,
    y0: int,
    nrows: int,
) -> (Seq<bool>, bool)
    decreases nrows,
{
    if nrows <= 0 {
        (disp, false)
    } else {
        let prev = draw_sprite(disp, ram, i, x0, y0, nrows - 1);
        let row = nrows - 1;
        let drawn = draw_row(prev.0, ram[i + row], x0, (y0 + row) % (SCREEN_HEIGHT as int), 8);
        (drawn.0, prev.1 || drawn.1)
    }
}

/// The lowest pressed key index at or above `k`, if any.
pub open spec fn first_pressed_from(keys: Seq<bool>, k: int) -> Option<int>
    decreases NUM_KEYS - k,
{
    if k < 0 || k >= NUM_KEYS {
        None
    } else if keys[k] {
        Some(k)
    } else {
        first_pressed_from(keys, k + 1)
    }
}

/// The lowest pressed key index, if any key is pressed.
pub open spec fn first_pressed(keys: Seq<bool>) -> Option<int> {
    first_pressed_from(keys, 0)
}

/// The decimal digits of a byte: hundreds, tens, ones, by integer division
/// and remainder.
pub open spec fn bcd_hundreds(v: u8) -> u8 {
    ((v as int) / 100) as u8
}

/// See `bcd_hundreds`.
pub open spec fn bcd_tens(v: u8) -> u8 {
    ((v as int) / 10 % 10) as u8
}

/// See `bcd_hundreds`.
pub open spec fn bcd_ones(v: u8) -> u8 {
    ((v as int) % 10) as u8
}

/// The effect of one decoded instruction on a machine whose program counter
/// has already advanced past it. `rnd` is the byte the random source handed
/// the step; only `Instr::Random` reads it. An error leaves the state to the
/// caller (the step keeps the post-fetch state).
pub open spec fn spec_execute(s: MachineView, instr: Instr, rnd: u8) -> Result<
    MachineView,
    Chip8Error,
> {
    match instr {
        Instr::Nop => Ok(s),
        Instr::ClearScreen => Ok(
            MachineView { display: all_false((SCREEN_WIDTH * SCREEN_HEIGHT) as int), ..s },
        ),
        Instr::Return => match spec_pop(s) {
            Ok((popped, addr)) => Ok(MachineView { pc: addr, ..popped }),
            Err(e) => Err(e),
        },
        Instr::Jump(nnn) => Ok(MachineView { pc: nnn, ..s }),
        Instr::Call(nnn) => match spec_push(s, s.pc) {
            Ok(pushed) => Ok(MachineView { pc: nnn, ..pushed }),
            Err(e) => Err(e),
        },
        Instr::SkipEqImm(x, nn) => Ok(
            if s.regs[x as int] == nn {
                MachineView { pc: (s.pc + 2) as u16, ..s }
            } else {
                s
            },
        ),
        Instr::SkipNeImm(x, nn) => Ok(
            if s.regs[x as int] != nn {
                MachineView { pc: (s.pc + 2) as u16, ..s }
            } else {
                s
            },
        ),
        Instr::SkipNeReg(x, y) => Ok(
            if s.regs[x as int] != s.regs[y as int] {
                MachineView { pc: (s.pc + 2) as u16, ..s }
            } else {
                s
            },
        ),
        Instr::LoadImm(x, nn) => Ok(MachineView { regs: s.regs.update(x as int, nn), ..s }),
        Instr::AddImm(x, nn) => Ok(
            MachineView {
                regs: s.regs.update(x as int, ((s.regs[x as int] + nn) % 256) as u8),
                ..s
            },
        ),
        Instr::Copy(x, y) => Ok(
            MachineView { regs: s.regs.update(x as int, s.regs[y as int]), ..s },
        ),
        Instr::Or(x, y) => Ok(
            MachineView { regs: s.regs.update(x as int, s.regs[x as int] | s.regs[y as int]), ..s },
        ),
        Instr::And(x, y) => Ok(
            MachineView { regs: s.regs.update(x as int, s.regs[x as int] & s.regs[y as int]), ..s },
        ),
        Instr::Xor(x, y) => Ok(
            MachineView { regs: s.regs.update(x as int, s.regs[x as int] ^ s.regs[y as int]), ..s },
        ),
        Instr::AddCarry(x, y) => {
            let sum = s.regs[x as int] + s.regs[y as int];
            let flag: u8 = if sum >= 256 {
                1
            } else {
                0
            };
            Ok(
                MachineView {
                    regs: s.regs.update(x as int, (sum % 256) as u8).update(15, flag),
                    ..s
                },
            )
        },
        Instr::SubBorrow(x, y) => {
            let diff = s.regs[x as int] - s.regs[y as int];
            let flag: u8 = if diff < 0 {
                0
            } else {
                1
            };
            Ok(
                MachineView {
                    regs: s.regs.update(x as int, ((diff + 256) % 256) as u8).update(15, flag),
                    ..s
                },
            )
        },
        Instr::ShiftRight(x) => {
            let vx = s.regs[x as int];
            Ok(
                MachineView {
                    regs: s.regs.update(x as int, ((vx as int) / 2) as u8).update(
                        15,
                        ((vx as int) % 2) as u8,
                    ),
                    ..s
                },
            )
        },
        Instr::SubReverse(x, y) => {
            let diff = s.regs[y as int] - s.regs[x as int];
            let flag: u8 = if diff < 0 {
                0
            } else {
                1
            };
            Ok(
                MachineView {
                    regs: s.regs.update(x as int, ((diff + 256) % 256) as u8).update(15, flag),
                    ..s
                },
            )
        },
        Instr::ShiftLeft(x) => {
            let vx = s.regs[x as int];
            Ok(
                MachineView {
                    regs: s.regs.update(x as int, ((vx as int) * 2 % 256) as u8).update(
                        15,
                        ((vx as int) / 128) as u8,
                    ),
                    ..s
                },
            )
        },
        Instr::LoadIndex(nnn) => Ok(MachineView { index: nnn, ..s }),
        Instr::OffsetJump(nnn) => Ok(MachineView { pc: (s.regs[0] + nnn) as u16, ..s }),
        Instr::Random(x, nn) => Ok(MachineView { regs: s.regs.update(x as int, rnd & nn), ..s }),
        Instr::Draw(x, y, n) => {
            if s.index + n > RAM_SIZE {
                Err(Chip8Error::OutOfBoundsAccess)
            } else {
                let drawn = draw_sprite(
                    s.display,
                    s.ram,
                    s.index as int,
                    s.regs[x as int] as int,
                    s.regs[y as int] as int,
                    n as int,
                );
                let flag: u8 = if drawn.1 {
                    1
                } else {
                    0
                };
                Ok(MachineView { display: drawn.0, regs: s.regs.update(15, flag), ..s })
            }
        },
        Instr::SkipKeyDown(x) => {
            if s.regs[x as int] >= NUM_KEYS {
                Err(Chip8Error::OutOfBoundsAccess)
            } else {
                Ok(
                    if s.keys[s.regs[x as int] as int] {
                        MachineView { pc: (s.pc + 2) as u16, ..s }
                    } else {
                        s
                    },
                )
            }
        },
        Instr::SkipKeyUp(x) => {
            if s.regs[x as int] >= NUM_KEYS {
                Err(Chip8Error::OutOfBoundsAccess)
            } else {
                Ok(
                    if !s.keys[s.regs[x as int] as int] {
                        MachineView { pc: (s.pc + 2) as u16, ..s }
                    } else {
                        s
                    },
                )
            }
        },
        Instr::ReadDelay(x) => Ok(MachineView { regs: s.regs.update(x as int, s.delay), ..s }),
        Instr::WaitKey(x) => match first_pressed(s.keys) {
            Some(k) => Ok(MachineView { regs: s.regs.update(x as int, k as u8), ..s }),
            None => Ok(MachineView { pc: (s.pc - 2) as u16, ..s }),
        },
        Instr::WriteDelay(x) => Ok(MachineView { delay: s.regs[x as int], ..s }),
        Instr::WriteSound(x) => Ok(MachineView { sound: s.regs[x as int], ..s }),
        Instr::AddIndex(x) => Ok(
            MachineView { index: ((s.index + s.regs[x as int]) % 0x10000) as u16, ..s },
        ),
        Instr::GlyphIndex(x) => Ok(MachineView { index: (s.regs[x as int] * 5) as u16, ..s }),
        Instr::Bcd(x) => {
            if s.index + 2 >= RAM_SIZE {
                Err(Chip8Error::OutOfBoundsAccess)
            } else {
                let v = s.regs[x as int];
                Ok(
                    MachineView {
                        ram: s.ram.update(s.index as int, bcd_hundreds(v)).update(
                            s.index + 1,
                            bcd_tens(v),
                        ).update(s.index + 2, bcd_ones(v)),
                        ..s
                    },
                )
            }
        },
        Instr::StoreRegs(x) => {
            if s.index + x >= RAM_SIZE {
                Err(Chip8Error::OutOfBoundsAccess)
            } else {
                Ok(
                    MachineView {
                        ram: Seq::new(
                            RAM_SIZE as nat,
                            |j: int|
                                if s.index <= j <= s.index + x {
                                    s.regs[j - s.index]
                                } else {
                                    s.ram[j]
                                },
                        ),
                        ..s
                    },
                )
            }
        },
        Instr::LoadRegs(x) => {
            if s.index + x >= RAM_SIZE {
                Err(Chip8Error::OutOfBoundsAccess)
            } else {
                Ok(
                    MachineView {
                        regs: Seq::new(
                            16,
                            |j: int|
                                if j <= x {
                                    s.ram[s.index + j]
                                } else {
                                    s.regs[j]
                                },
                        ),
                        ..s
                    },
                )
            }
        },
    }
}

/// The big-endian word at the program counter: the byte there gives the high
/// 8 bits, the byte after it the low 8.
pub open spec fn fetched_word(s: MachineView) -> u16 {
    (s.ram[s.pc as int] * 256 + s.ram[s.pc as int + 1]) as u16
}

/// One whole interpreter step on the ghost state: bounds-checked fetch of
/// the word at the program counter (advancing it by exactly 2), decode, and
/// the instruction's effect. The result pairs the state after the step with
/// the error the step reports, if any:
/// - a fetch that would leave memory reports `OutOfBoundsAccess` and changes
///   nothing;
/// - an unrecognized pattern or a failing instruction reports its error and
///   keeps the post-fetch state, so nothing is partially applied.
pub open spec fn spec_tick(s: MachineView, rnd: u8) -> (MachineView, Option<Chip8Error>) {
    if s.pc + 1 >= RAM_SIZE {
        (s, Some(Chip8Error::OutOfBoundsAccess))
    } else {
        let fetched = MachineView { pc: (s.pc + 2) as u16, ..s };
        match spec_decode(fetched_word(s)) {
            None => (fetched, Some(Chip8Error::UnimplementedInstruction)),
            Some(instr) => match spec_execute(fetched, instr, rnd) {
                Ok(stepped) => (stepped, None),
                Err(e) => (fetched, Some(e)),
            },
        }
    }
}

/// The error component of a step's result.
pub open spec fn err_of(r: Result<(), Chip8Error>) -> Option<Chip8Error> {
    match r {
        Ok(_) => None,
        Err(e) => Some(e),
    }
}

/// Installing an `img`-byte program: memory from `START_ADDR` takes the
/// image, all other state is untouched.
pub open spec fn spec_load(s: MachineView, img: Seq<u8>) -> MachineView {
    MachineView {
        ram: Seq::new(
            RAM_SIZE as nat,
            |j: int|
                if 512 <= j < 512 + img.len() {
                    img[j - 512]
                } else {
                    s.ram[j]
                },
        ),
        ..s
    }
}

} // verus!
