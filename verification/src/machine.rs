//! The executable machine: one owned aggregate holding memory, registers,
//! stack, display, key latch and timers, with one stepping operation for
//! instructions and one for timers. Every operation's effect is stated
//! against the ghost model in `state` and `semantics`.

use vstd::prelude::*;

use crate::decode::{decode, Instr};
use crate::semantics::{
    col_weight, draw_row, draw_sprite, err_of, fetched_word, first_pressed, first_pressed_from,
    spec_execute, spec_load, spec_pop, spec_push, spec_tick,
};
use crate::state::{
    all_false, dec_timer, fontset_byte, glyph_row, initial_view, Chip8Error, MachineView, FONTSET_SIZE,
    MAX_PROGRAM_SIZE, NUM_KEYS, NUM_REGISTERS, RAM_SIZE, SCREEN_HEIGHT, SCREEN_WIDTH, STACK_SIZE,
    START_ADDR,
};

verus! {

/// Relies on rand::random: one byte from the thread-local generator.
/// Nothing is assumed of its value.
#[verifier::external_body]
fn random_byte() -> u8 {
    rand::random()
}

/// A vector of `n` copies of `val`.
fn filled<T: Copy>(n: usize, val: T) -> (r: Vec<T>)
    ensures
        r@ == Seq::new(n as nat, |i: int| val),
{
    let mut r: Vec<T> = Vec::new();
    while r.len() < n
        invariant
            r@.len() <= n,
            forall|k: int| 0 <= k < r@.len() ==> r@[k] == val,
        decreases n - r@.len(),
    {
        r.push(val);
    }
    proof {
        assert(r@ =~= Seq::new(n as nat, |i: int| val));
    }
    r
}

/// Byte `j` of the glyph table.
fn fontset_byte_at(j: usize) -> (b: u8)
    requires
        j < FONTSET_SIZE,
    ensures
        b == fontset_byte(j as int),
{
    let d = j / 5;
    let r = j % 5;
    let b = match (d, r) {
        (0, 0) => 0xF0u8, (0, 1) => 0x90, (0, 2) => 0x90, (0, 3) => 0x90, (0, _) => 0xF0,
        (1, 0) => 0x20, (1, 1) => 0x60, (1, 2) => 0x20, (1, 3) => 0x20, (1, _) => 0x70,
        (2, 0) => 0xF0, (2, 1) => 0x10, (2, 2) => 0xF0, (2, 3) => 0x80, (2, _) => 0xF0,
        (3, 0) => 0xF0, (3, 1) => 0x10, (3, 2) => 0xF0, (3, 3) => 0x10, (3, _) => 0xF0,
        (4, 0) => 0x90, (4, 1) => 0x90, (4, 2) => 0xF0, (4, 3) => 0x10, (4, _) => 0x10,
        (5, 0) => 0xF0, (5, 1) => 0x80, (5, 2) => 0xF0, (5, 3) => 0x10, (5, _) => 0xF0,
        (6, 0) => 0xF0, (6, 1) => 0x80, (6, 2) => 0xF0, (6, 3) => 0x90, (6, _) => 0xF0,
        (7, 0) => 0xF0, (7, 1) => 0x10, (7, 2) => 0x20, (7, 3) => 0x40, (7, _) => 0x40,
        (8, 0) => 0xF0, (8, 1) => 0x90, (8, 2) => 0xF0, (8, 3) => 0x90, (8, _) => 0xF0,
        (9, 0) => 0xF0, (9, 1) => 0x90, (9, 2) => 0xF0, (9, 3) => 0x10, (9, _) => 0xF0,
        (10, 0) => 0xF0, (10, 1) => 0x90, (10, 2) => 0xF0, (10, 3) => 0x90, (10, _) => 0x90,
        (11, 0) => 0xE0, (11, 1) => 0x90, (11, 2) => 0xE0, (11, 3) => 0x90, (11, _) => 0xE0,
        (12, 0) => 0xF0, (12, 1) => 0x80, (12, 2) => 0x80, (12, 3) => 0x80, (12, _) => 0xF0,
        (13, 0) => 0xE0, (13, 1) => 0x90, (13, 2) => 0x90, (13, 3) => 0x90, (13, _) => 0xE0,
        (14, 0) => 0xF0, (14, 1) => 0x80, (14, 2) => 0xF0, (14, 3) => 0x80, (14, _) => 0xF0,
        (_, 0) => 0xF0, (_, 1) => 0x80, (_, 2) => 0xF0, (_, 3) => 0x80, (_, _) => 0x80,
    };
    proof {
        assert(b == glyph_row(j as int / 5, j as int % 5));
    }
    b
}

/// The weight of sprite column `col`, as a byte.
fn col_weight_at(col: usize) -> (w: u8)
    requires
        col < 8,
    ensures
        w as int == col_weight(col as int),
        w >= 1,
{
    match col {
        0 => 128,
        1 => 64,
        2 => 32,
        3 => 16,
        4 => 8,
        5 => 4,
        6 => 2,
        _ => 1,
    }
}

/// The machine. Its abstract value is a `MachineView`; construction and
/// reset give `initial_view()`.
pub struct Emulator {
    pc: u16,
    ram: Vec<u8>,
    display: Vec<bool>,
    v_registers: Vec<u8>,
    i_register: u16,
    stack_ptr: usize,
    stack: Vec<u16>,
    keys: Vec<bool>,
    delay_t: u8,
    sound_t: u8,
}

impl View for Emulator {
    type V = MachineView;

    closed spec fn view(&self) -> MachineView {
        MachineView {
            pc: self.pc,
            ram: self.ram@,
            display: self.display@,
            regs: self.v_registers@,
            index: self.i_register,
            stack: self.stack@,
            sp: self.stack_ptr as int,
            keys: self.keys@,
            delay: self.delay_t,
            sound: self.sound_t,
        }
    }
}

impl Emulator {
    /// A fresh machine: zero state except the glyph table, program counter
    /// at `START_ADDR`.
    pub fn new() -> (r: Self)
        ensures
            r@ == initial_view(),
            r@.wf(),
    {
        let mut ram = filled(RAM_SIZE, 0u8);
        let mut j: usize = 0;
        while j < FONTSET_SIZE
            invariant
                j <= FONTSET_SIZE,
                ram@.len() == RAM_SIZE,
                forall|k: int| 0 <= k < j ==> ram@[k] == fontset_byte(k),
                forall|k: int| j <= k < RAM_SIZE ==> ram@[k] == 0u8,
            decreases FONTSET_SIZE - j,
        {
            ram[j] = fontset_byte_at(j);
            j += 1;
        }
        let r = Emulator {
            pc: START_ADDR,
            ram,
            display: filled(SCREEN_WIDTH * SCREEN_HEIGHT, false),
            v_registers: filled(NUM_REGISTERS, 0u8),
            i_register: 0,
            stack_ptr: 0,
            stack: filled(STACK_SIZE, 0u16),
            keys: filled(NUM_KEYS, false),
            delay_t: 0,
            sound_t: 0,
        };
        proof {
            assert(r@.ram =~= initial_view().ram);
            assert(r@.display =~= initial_view().display);
            assert(r@.regs =~= initial_view().regs);
            assert(r@.stack =~= initial_view().stack);
            assert(r@.keys =~= initial_view().keys);
            assert(r@ =~= initial_view());
        }
        r
    }

    /// Return every component to its construction-time value, the glyph
    /// table included, whatever the machine held before.
    pub fn reset(&mut self)
        ensures
            final(self)@ == initial_view(),
            final(self)@.wf(),
    {
        *self = Emulator::new();
    }

    /// The program counter.
    pub fn program_counter(&self) -> (r: u16)
        ensures
            r == self@.pc,
    {
        self.pc
    }

    /// The index register.
    pub fn index_register(&self) -> (r: u16)
        ensures
            r == self@.index,
    {
        self.i_register
    }

    /// General register `x`.
    pub fn register(&self, x: usize) -> (r: u8)
        requires
            self@.wf(),
            x < NUM_REGISTERS,
        ensures
            r == self@.regs[x as int],
    {
        self.v_registers[x]
    }

    /// The memory byte at `addr`.
    pub fn memory_byte(&self, addr: usize) -> (r: u8)
        requires
            self@.wf(),
            addr < RAM_SIZE,
        ensures
            r == self@.ram[addr as int],
    {
        self.ram[addr]
    }

    /// The delay timer.
    pub fn delay_timer(&self) -> (r: u8)
        ensures
            r == self@.delay,
    {
        self.delay_t
    }

    /// The sound timer. The host signals sound while this is non-zero; the
    /// machine itself emits nothing.
    pub fn sound_timer(&self) -> (r: u8)
        ensures
            r == self@.sound,
    {
        self.sound_t
    }

    /// How many return addresses the stack holds.
    pub fn stack_depth(&self) -> (r: usize)
        ensures
            r == self@.sp,
    {
        self.stack_ptr
    }

    /// The latched state of key `idx`.
    pub fn key(&self, idx: usize) -> (r: bool)
        requires
            self@.wf(),
            idx < NUM_KEYS,
        ensures
            r == self@.keys[idx as int],
    {
        self.keys[idx]
    }

    /// The 64x32 display bits, row-major, for the host to render.
    pub fn get_display(&self) -> (r: &[bool])
        ensures
            r@ == self@.display,
    {
        self.display.as_slice()
    }

    /// Latch key `idx` as pressed or released.
    pub fn keypress(&mut self, idx: usize, pressed: bool)
        requires
            old(self)@.wf(),
            idx < NUM_KEYS,
        ensures
            final(self)@ == (MachineView { keys: old(self)@.keys.update(idx as int, pressed), ..old(self)@ }),
            final(self)@.wf(),
    {
        self.keys[idx] = pressed;
    }

    /// Decrement each timer by 1, floored at 0.
    pub fn tick_timers(&mut self)
        requires
            old(self)@.wf(),
        ensures
            final(self)@ == (MachineView {
                delay: dec_timer(old(self)@.delay),
                sound: dec_timer(old(self)@.sound),
                ..old(self)@
            }),
            final(self)@.wf(),
    {
        if self.delay_t > 0 {
            self.delay_t = self.delay_t - 1;
        }
        if self.sound_t > 0 {
            self.sound_t = self.sound_t - 1;
        }
    }

    /// Push a return address. With the stack full, reports `StackOverflow`
    /// and changes nothing.
    pub fn push(&mut self, val: u16) -> (r: Result<(), Chip8Error>)
        requires
            old(self)@.wf(),
        ensures
            final(self)@.wf(),
            match spec_push(old(self)@, val) {
                Ok(v) => r == Ok::<(), Chip8Error>(()) && final(self)@ == v,
                Err(e) => r == Err::<(), Chip8Error>(e) && final(self)@ == old(self)@,
            },
    {
        if self.stack_ptr >= STACK_SIZE {
            return Err(Chip8Error::StackOverflow);
        }
        self.stack[self.stack_ptr] = val;
        self.stack_ptr += 1;
        Ok(())
    }

    /// Pop the most recent return address. With the stack empty, reports
    /// `StackUnderflow` and changes nothing.
    pub fn pop(&mut self) -> (r: Result<u16, Chip8Error>)
        requires
            old(self)@.wf(),
        ensures
            final(self)@.wf(),
            match spec_pop(old(self)@) {
                Ok(v) => r == Ok::<u16, Chip8Error>(v.1) && final(self)@ == v.0,
                Err(e) => r == Err::<u16, Chip8Error>(e) && final(self)@ == old(self)@,
            },
    {
        if self.stack_ptr == 0 {
            return Err(Chip8Error::StackUnderflow);
        }
        self.stack_ptr -= 1;
        Ok(self.stack[self.stack_ptr])
    }

    /// Install a program image at `START_ADDR`. An image over
    /// `MAX_PROGRAM_SIZE` bytes reports `CapacityExceeded` and leaves memory
    /// untouched; nothing is partially written.
    pub fn load(&mut self, data: &[u8]) -> (r: Result<(), Chip8Error>)
        requires
            old(self)@.wf(),
        ensures
            final(self)@.wf(),
            data@.len() <= MAX_PROGRAM_SIZE ==> r == Ok::<(), Chip8Error>(()) && final(self)@
                == spec_load(old(self)@, data@),
            data@.len() > MAX_PROGRAM_SIZE ==> r == Err::<(), Chip8Error>(
                Chip8Error::CapacityExceeded,
            ) && final(self)@ == old(self)@,
    {
        if data.len() > MAX_PROGRAM_SIZE {
            return Err(Chip8Error::CapacityExceeded);
        }
        let start = START_ADDR as usize;
        let mut k: usize = 0;
        while k < data.len()
            invariant
                old(self)@.wf(),
                k <= data@.len(),
                data@.len() <= MAX_PROGRAM_SIZE,
                start == 512,
                self@.ram.len() == RAM_SIZE,
                self@ == (MachineView { ram: self@.ram, ..old(self)@ }),
                forall|j: int| 512 <= j < 512 + k ==> self@.ram[j] == data@[j - 512],
                forall|j: int|
                    0 <= j < RAM_SIZE && !(512 <= j < 512 + k) ==> self@.ram[j] == old(self)@.ram[j],
            decreases data@.len() - k,
        {
            self.ram[start + k] = data[k];
            k += 1;
        }
        proof {
            assert(self@.ram =~= spec_load(old(self)@, data@).ram);
            assert(self@ =~= spec_load(old(self)@, data@));
        }
        Ok(())
    }

    /// Read the big-endian word at the program counter (high byte first) and
    /// advance the program counter by exactly 2.
    fn fetch(&mut self) -> (op: u16)
        requires
            old(self)@.wf(),
            old(self)@.pc + 1 < RAM_SIZE,
        ensures
            final(self)@.wf(),
            op == fetched_word(old(self)@),
            final(self)@ == (MachineView { pc: (old(self)@.pc + 2) as u16, ..old(self)@ }),
    {
        let hi = self.ram[self.pc as usize] as u16;
        let lo = self.ram[self.pc as usize + 1] as u16;
        self.pc = self.pc + 2;
        hi * 256 + lo
    }

    /// Execute one fetch-decode-execute cycle: `spec_tick` of the prior
    /// state, for some byte of the random source.
    pub fn tick(&mut self) -> (r: Result<(), Chip8Error>)
        requires
            old(self)@.wf(),
        ensures
            final(self)@.wf(),
            exists|rnd: u8| #[trigger] spec_tick(old(self)@, rnd) == (final(self)@, err_of(r)),
    {
        if self.pc as usize + 1 >= RAM_SIZE {
            proof {
                assert(spec_tick(self@, 0u8) == (self@, err_of(
                    Err::<(), Chip8Error>(Chip8Error::OutOfBoundsAccess),
                )));
            }
            return Err(Chip8Error::OutOfBoundsAccess);
        }
        let op = self.fetch();
        match decode(op) {
            None => {
                proof {
                    assert(spec_tick(old(self)@, 0u8) == (self@, err_of(
                        Err::<(), Chip8Error>(Chip8Error::UnimplementedInstruction),
                    )));
                }
                Err(Chip8Error::UnimplementedInstruction)
            },
            Some(instr) => {
                let rnd: u8 = match instr {
                    Instr::Random(_, _) => random_byte(),
                    _ => 0,
                };
                let r = self.execute(instr, rnd);
                proof {
                    assert(spec_tick(old(self)@, rnd) == (self@, err_of(r)));
                }
                r
            },
        }
    }

    /// Apply one decoded instruction; the program counter has already
    /// advanced past it. `rnd` is the byte the random source supplied for
    /// this step. An error leaves the state exactly as it was.
    fn execute(&mut self, instr: Instr, rnd: u8) -> (r: Result<(), Chip8Error>)
        requires
            old(self)@.wf(),
            instr.wf(),
            2 <= old(self)@.pc <= RAM_SIZE,
        ensures
            final(self)@.wf(),
            match spec_execute(old(self)@, instr, rnd) {
                Ok(v) => r == Ok::<(), Chip8Error>(()) && final(self)@ == v,
                Err(e) => r == Err::<(), Chip8Error>(e) && final(self)@ == old(self)@,
            },
    {
        match instr {
            Instr::Nop => Ok(()),
            Instr::ClearScreen => {
                self.display = filled(SCREEN_WIDTH * SCREEN_HEIGHT, false);
                proof {
                    assert(self@.display =~= all_false((SCREEN_WIDTH * SCREEN_HEIGHT) as int));
                }
                Ok(())
            },
            Instr::Return => match self.pop() {
                Ok(addr) => {
                    self.pc = addr;
                    Ok(())
                },
                Err(e) => Err(e),
            },
            Instr::Jump(nnn) => {
                self.pc = nnn;
                Ok(())
            },
            Instr::Call(nnn) => {
                let here = self.pc;
                match self.push(here) {
                    Ok(()) => {
                        self.pc = nnn;
                        Ok(())
                    },
                    Err(e) => Err(e),
                }
            },
            Instr::SkipEqImm(x, nn) => {
                if self.v_registers[x as usize] == nn {
                    self.pc = self.pc + 2;
                }
                Ok(())
            },
            Instr::SkipNeImm(x, nn) => {
                if self.v_registers[x as usize] != nn {
                    self.pc = self.pc + 2;
                }
                Ok(())
            },
            Instr::SkipNeReg(x, y) => {
                if self.v_registers[x as usize] != self.v_registers[y as usize] {
                    self.pc = self.pc + 2;
                }
                Ok(())
            },
            Instr::LoadImm(x, nn) => {
                self.v_registers[x as usize] = nn;
                Ok(())
            },
            Instr::AddImm(x, nn) => {
                let sum = self.v_registers[x as usize] as u16 + nn as u16;
                self.v_registers[x as usize] = (sum % 256) as u8;
                Ok(())
            },
            Instr::Copy(x, y) => {
                self.v_registers[x as usize] = self.v_registers[y as usize];
                Ok(())
            },
            Instr::Or(x, y) => {
                self.v_registers[x as usize] = self.v_registers[x as usize] | self.v_registers[y
                    as usize];
                Ok(())
            },
            Instr::And(x, y) => {
                self.v_registers[x as usize] = self.v_registers[x as usize] & self.v_registers[y
                    as usize];
                Ok(())
            },
            Instr::Xor(x, y) => {
                self.v_registers[x as usize] = self.v_registers[x as usize] ^ self.v_registers[y
                    as usize];
                Ok(())
            },
            Instr::AddCarry(x, y) => {
                let sum = self.v_registers[x as usize] as u16 + self.v_registers[y as usize] as u16;
                let flag: u8 = if sum >= 256 {
                    1
                } else {
                    0
                };
                self.v_registers[x as usize] = (sum % 256) as u8;
                self.v_registers[15] = flag;
                Ok(())
            },
            Instr::SubBorrow(x, y) => {
                let vx = self.v_registers[x as usize];
                let vy = self.v_registers[y as usize];
                let flag: u8 = if vx >= vy {
                    1
                } else {
                    0
                };
                let diff = ((vx as u16 + 256) - vy as u16) % 256;
                self.v_registers[x as usize] = diff as u8;
                self.v_registers[15] = flag;
                Ok(())
            },
            Instr::ShiftRight(x) => {
                let vx = self.v_registers[x as usize];
                self.v_registers[x as usize] = vx / 2;
                self.v_registers[15] = vx % 2;
                Ok(())
            },
            Instr::SubReverse(x, y) => {
                let vx = self.v_registers[x as usize];
                let vy = self.v_registers[y as usize];
                let flag: u8 = if vy >= vx {
                    1
                } else {
                    0
                };
                let diff = ((vy as u16 + 256) - vx as u16) % 256;
                self.v_registers[x as usize] = diff as u8;
                self.v_registers[15] = flag;
                Ok(())
            },
            Instr::ShiftLeft(x) => {
                let vx = self.v_registers[x as usize];
                self.v_registers[x as usize] = ((vx as u16 * 2) % 256) as u8;
                self.v_registers[15] = vx / 128;
                Ok(())
            },
            Instr::LoadIndex(nnn) => {
                self.i_register = nnn;
                Ok(())
            },
            Instr::OffsetJump(nnn) => {
                self.pc = self.v_registers[0] as u16 + nnn;
                Ok(())
            },
            Instr::Random(x, nn) => {
                self.v_registers[x as usize] = rnd & nn;
                Ok(())
            },
            Instr::Draw(x, y, n) => self.draw(x, y, n),
            Instr::SkipKeyDown(x) => {
                let vx = self.v_registers[x as usize];
                if vx as usize >= NUM_KEYS {
                    return Err(Chip8Error::OutOfBoundsAccess);
                }
                if self.keys[vx as usize] {
                    self.pc = self.pc + 2;
                }
                Ok(())
            },
            Instr::SkipKeyUp(x) => {
                let vx = self.v_registers[x as usize];
                if vx as usize >= NUM_KEYS {
                    return Err(Chip8Error::OutOfBoundsAccess);
                }
                if !self.keys[vx as usize] {
                    self.pc = self.pc + 2;
                }
                Ok(())
            },
            Instr::ReadDelay(x) => {
                self.v_registers[x as usize] = self.delay_t;
                Ok(())
            },
            Instr::WaitKey(x) => {
                let mut k: usize = 0;
                while k < NUM_KEYS
                    invariant
                        old(self)@.wf(),
                        instr == Instr::WaitKey(x),
                        x < 16,
                        k <= NUM_KEYS,
                        self@ == old(self)@,
                        first_pressed(self@.keys) == first_pressed_from(self@.keys, k as int),
                    decreases NUM_KEYS - k,
                {
                    if self.keys[k] {
                        proof {
                            assert(first_pressed_from(self@.keys, k as int) == Some(k as int));
                        }
                        self.v_registers[x as usize] = k as u8;
                        return Ok(());
                    }
                    k += 1;
                }
                self.pc = self.pc - 2;
                Ok(())
            },
            Instr::WriteDelay(x) => {
                self.delay_t = self.v_registers[x as usize];
                Ok(())
            },
            Instr::WriteSound(x) => {
                self.sound_t = self.v_registers[x as usize];
                Ok(())
            },
            Instr::AddIndex(x) => {
                let sum = self.i_register as u32 + self.v_registers[x as usize] as u32;
                self.i_register = (sum % 0x10000) as u16;
                Ok(())
            },
            Instr::GlyphIndex(x) => {
                self.i_register = self.v_registers[x as usize] as u16 * 5;
                Ok(())
            },
            Instr::Bcd(x) => {
                let i = self.i_register as usize;
                if i + 2 >= RAM_SIZE {
                    return Err(Chip8Error::OutOfBoundsAccess);
                }
                let v = self.v_registers[x as usize];
                self.ram[i] = v / 100;
                self.ram[i + 1] = v / 10 % 10;
                self.ram[i + 2] = v % 10;
                Ok(())
            },
            Instr::StoreRegs(x) => {
                let i = self.i_register as usize;
                let x = x as usize;
                if i + x >= RAM_SIZE {
                    return Err(Chip8Error::OutOfBoundsAccess);
                }
                let mut k: usize = 0;
                while k <= x
                    invariant
                        old(self)@.wf(),
                        x < 16,
                        i + x < RAM_SIZE,
                        i == old(self)@.index,
                        k <= x + 1,
                        self@.ram.len() == RAM_SIZE,
                        self@ == (MachineView { ram: self@.ram, ..old(self)@ }),
                        forall|j: int| i <= j < i + k ==> self@.ram[j] == old(self)@.regs[j - i],
                        forall|j: int|
                            0 <= j < RAM_SIZE && !(i <= j < i + k) ==> self@.ram[j] == old(
                                self,
                            )@.ram[j],
                    decreases x + 1 - k,
                {
                    self.ram[i + k] = self.v_registers[k];
                    k += 1;
                }
                proof {
                    let v = spec_execute(old(self)@, instr, rnd)->Ok_0;
                    assert(self@.ram =~= v.ram);
                    assert(self@ =~= v);
                }
                Ok(())
            },
            Instr::LoadRegs(x) => {
                let i = self.i_register as usize;
                let x = x as usize;
                if i + x >= RAM_SIZE {
                    return Err(Chip8Error::OutOfBoundsAccess);
                }
                let mut k: usize = 0;
                while k <= x
                    invariant
                        old(self)@.wf(),
                        x < 16,
                        i + x < RAM_SIZE,
                        i == old(self)@.index,
                        k <= x + 1,
                        self@.regs.len() == NUM_REGISTERS,
                        self@ == (MachineView { regs: self@.regs, ..old(self)@ }),
                        forall|j: int| 0 <= j < k ==> self@.regs[j] == old(self)@.ram[i + j],
                        forall|j: int|
                            0 <= j < NUM_REGISTERS && !(0 <= j < k) ==> self@.regs[j] == old(
                                self,
                            )@.regs[j],
                    decreases x + 1 - k,
                {
                    self.v_registers[k] = self.ram[i + k];
                    k += 1;
                }
                proof {
                    let v = spec_execute(old(self)@, instr, rnd)->Ok_0;
                    assert(self@.regs =~= v.regs);
                    assert(self@ =~= v);
                }
                Ok(())
            },
        }
    }

    /// Draw an `n`-row sprite from memory at the index register to origin
    /// (V[x], V[y]), XORing pixels and wrapping each axis; V[15] reports
    /// whether any pixel went off.
    fn draw(&mut self, x: u8, y: u8, n: u8) -> (r: Result<(), Chip8Error>)
        requires
            old(self)@.wf(),
            x < 16,
            y < 16,
            n < 16,
        ensures
            final(self)@.wf(),
            match spec_execute(old(self)@, Instr::Draw(x, y, n), 0) {
                Ok(v) => r == Ok::<(), Chip8Error>(()) && final(self)@ == v,
                Err(e) => r == Err::<(), Chip8Error>(e) && final(self)@ == old(self)@,
            },
    {
        let i = self.i_register as usize;
        let n = n as usize;
        if i + n > RAM_SIZE {
            return Err(Chip8Error::OutOfBoundsAccess);
        }
        let x0 = self.v_registers[x as usize] as usize;
        let y0 = self.v_registers[y as usize] as usize;
        let ghost pre = self@;
        let mut flipped = false;
        let mut row: usize = 0;
        while row < n
            invariant
                pre.wf(),
                row <= n,
                n < 16,
                i == pre.index,
                i + n <= RAM_SIZE,
                x0 == pre.regs[x as int],
                y0 == pre.regs[y as int],
                self@ == (MachineView { display: self@.display, ..pre }),
                self@.display.len() == SCREEN_WIDTH * SCREEN_HEIGHT,
                self@.display == draw_sprite(
                    pre.display,
                    pre.ram,
                    i as int,
                    x0 as int,
                    y0 as int,
                    row as int,
                ).0,
                flipped == draw_sprite(
                    pre.display,
                    pre.ram,
                    i as int,
                    x0 as int,
                    y0 as int,
                    row as int,
                ).1,
            decreases n - row,
        {
            let byte = self.ram[i + row];
            let yy = (y0 + row) % SCREEN_HEIGHT;
            let ghost row_start = self@.display;
            let ghost base_flipped = flipped;
            let mut col: usize = 0;
            while col < 8
                invariant
                    pre.wf(),
                    col <= 8,
                    row < n,
                    n < 16,
                    i == pre.index,
                    i + n <= RAM_SIZE,
                    x0 == pre.regs[x as int],
                    y0 == pre.regs[y as int],
                    x0 < 256,
                    byte == pre.ram[i + row],
                    yy == (y0 + row) % (SCREEN_HEIGHT as int),
                    yy < SCREEN_HEIGHT,
                    self@ == (MachineView { display: self@.display, ..pre }),
                    self@.display.len() == SCREEN_WIDTH * SCREEN_HEIGHT,
                    row_start == draw_sprite(
                        pre.display,
                        pre.ram,
                        i as int,
                        x0 as int,
                        y0 as int,
                        row as int,
                    ).0,
                    base_flipped == draw_sprite(
                        pre.display,
                        pre.ram,
                        i as int,
                        x0 as int,
                        y0 as int,
                        row as int,
                    ).1,
                    self@.display == draw_row(row_start, byte, x0 as int, yy as int, col as int).0,
                    flipped == (base_flipped || draw_row(
                        row_start,
                        byte,
                        x0 as int,
                        yy as int,
                        col as int,
                    ).1),
                decreases 8 - col,
            {
                let weight = col_weight_at(col);
                if (byte / weight) % 2 == 1 {
                    let idx = (x0 + col) % SCREEN_WIDTH + SCREEN_WIDTH * yy;
                    let cur = self.display[idx];
                    flipped = flipped || cur;
                    self.display[idx] = !cur;
                }
                col += 1;
            }
            row += 1;
        }
        let flag: u8 = if flipped {
            1
        } else {
            0
        };
        self.v_registers[15] = flag;
        Ok(())
    }
}

} // verus!
