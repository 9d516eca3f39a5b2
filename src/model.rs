use vstd::prelude::*;
use crate::error::Chip8Error;
use crate::instruction::{Instruction, decode_word};

verus! {

/// Display width in pixels.
pub const SCREEN_WIDTH: usize = 64;
/// Display height in pixels.
pub const SCREEN_HEIGHT: usize = 32;
/// Number of display pixels, row-major.
pub const SCREEN_SIZE: usize = 2048;
/// Bytes of memory.
pub const MEMORY_SIZE: usize = 4096;
/// Address at which programs are loaded and execution starts.
pub const START_ADDRESS: u16 = 0x200;
/// General registers; the last one doubles as the flag register.
pub const NUM_REGISTERS: usize = 16;
/// Entries of the call stack.
pub const STACK_SIZE: usize = 16;
/// Keys of the keypad.
pub const NUM_KEYS: usize = 16;
/// Bytes of the glyph table at the start of memory.
pub const FONT_SIZE: usize = 80;
/// Index of the flag register.
pub const FLAG: usize = 15;

/// The whole state of the machine, as mathematical values.
pub ghost struct MachineView {
    pub memory: Seq<u8>,
    pub regs: Seq<u8>,
    pub index: u16,
    pub pc: u16,
    pub stack: Seq<u16>,
    pub sp: nat,
    pub delay: u8,
    pub sound: u8,
    pub keys: Seq<bool>,
    pub screen: Seq<bool>,
}

/// The sixteen 5-byte glyphs of the hexadecimal digits.
pub open spec fn font() -> Seq<u8> {
    seq![
        0xF0u8, 0x90, 0x90, 0x90, 0xF0, 0x20, 0x60, 0x20, 0x20, 0x70,
        0xF0, 0x10, 0xF0, 0x80, 0xF0, 0xF0, 0x10, 0xF0, 0x10, 0xF0,
        0x90, 0x90, 0xF0, 0x10, 0x10, 0xF0, 0x80, 0xF0, 0x10, 0xF0,
        0xF0, 0x80, 0xF0, 0x90, 0xF0, 0xF0, 0x10, 0x20, 0x40, 0x40,
        0xF0, 0x90, 0xF0, 0x90, 0xF0, 0xF0, 0x90, 0xF0, 0x10, 0xF0,
        0xF0, 0x90, 0xF0, 0x90, 0x90, 0xE0, 0x90, 0xE0, 0x90, 0xE0,
        0xF0, 0x80, 0x80, 0x80, 0xF0, 0xE0, 0x90, 0x90, 0x90, 0xE0,
        0xF0, 0x80, 0xF0, 0x80, 0xF0, 0xF0, 0x80, 0xF0, 0x80, 0x80,
    ]
}

/// A display with every pixel off.
pub open spec fn blank_screen() -> Seq<bool> {
    Seq::new(SCREEN_SIZE as nat, |p: int| false)
}

/// The state right after construction: glyphs at the bottom of memory, the
/// rest zero, execution at the program start, every key released.
pub open spec fn initial_view() -> MachineView {
    MachineView {
        memory: Seq::new(MEMORY_SIZE as nat, |a: int| if a < FONT_SIZE { font()[a] } else { 0u8 }),
        regs: Seq::new(NUM_REGISTERS as nat, |r: int| 0u8),
        index: 0,
        pc: START_ADDRESS,
        stack: Seq::new(STACK_SIZE as nat, |k: int| 0u16),
        sp: 0,
        delay: 0,
        sound: 0,
        keys: Seq::new(NUM_KEYS as nat, |k: int| false),
        screen: blank_screen(),
    }
}

impl MachineView {
    /// Every component has its fixed size and the stack pointer is within capacity.
    pub open spec fn wf(self) -> bool {
        &&& self.memory.len() == MEMORY_SIZE
        &&& self.regs.len() == NUM_REGISTERS
        &&& self.stack.len() == STACK_SIZE
        &&& self.sp <= STACK_SIZE
        &&& self.keys.len() == NUM_KEYS
        &&& self.screen.len() == SCREEN_SIZE
    }

    /// Whether a program of `len` bytes fits from the program start to the end of memory.
    pub open spec fn fits(len: nat) -> bool {
        START_ADDRESS + len <= MEMORY_SIZE
    }

    /// The program bytes copied into memory from the program start on.
    pub open spec fn load(self, data: Seq<u8>) -> MachineView {
        MachineView {
            memory: Seq::new(
                MEMORY_SIZE as nat,
                |a: int|
                    if START_ADDRESS <= a < START_ADDRESS + data.len() {
                        data[a - START_ADDRESS]
                    } else {
                        self.memory[a]
                    },
            ),
            ..self
        }
    }

    /// One timer tick: each timer moves one step toward zero and stays there.
    pub open spec fn tick_timers(self) -> MachineView {
        MachineView {
            delay: if self.delay > 0 { (self.delay - 1) as u8 } else { 0 },
            sound: if self.sound > 0 { (self.sound - 1) as u8 } else { 0 },
            ..self
        }
    }

    /// Register `x` set to `value`.
    pub open spec fn set_reg(self, x: int, value: u8) -> MachineView {
        MachineView { regs: self.regs.update(x, value), ..self }
    }

    /// Register `x` set to `value`, then the flag register set to `flag`.
    pub open spec fn set_reg_flag(self, x: int, value: u8, flag: bool) -> MachineView {
        MachineView {
            regs: self.regs.update(x, value).update(FLAG as int, if flag { 1u8 } else { 0u8 }),
            ..self
        }
    }

    /// The next instruction skipped when `cond` holds.
    pub open spec fn skip_if(self, cond: bool) -> MachineView {
        if cond {
            MachineView { pc: (self.pc + 2) as u16, ..self }
        } else {
            self
        }
    }

    /// Whether the fetch at the program counter stays inside memory.
    pub open spec fn can_fetch(self) -> bool {
        self.pc + 1 < MEMORY_SIZE
    }

    /// The big-endian instruction word at the program counter.
    pub open spec fn word_at_pc(self) -> u16 {
        (self.memory[self.pc as int] as u16 * 256 + self.memory[self.pc + 1] as u16) as u16
    }

    /// Index of the first pressed key at or after `from`, or 16 when there is none.
    pub open spec fn first_pressed(self, from: int) -> int
        decreases NUM_KEYS - from,
    {
        if from >= NUM_KEYS || from < 0 {
            NUM_KEYS as int
        } else if self.keys[from] {
            from
        } else {
            self.first_pressed(from + 1)
        }
    }
}

/// Whether bit `col` of a sprite row, counting from the most significant, is set.
pub open spec fn sprite_bit(row: u8, col: int) -> bool {
    row & (0x80u8 >> (col as u8)) != 0
}

/// Column of pixel `p` within a sprite whose left edge is at `vx`, with wrap-around.
pub open spec fn sprite_col(vx: int, p: int) -> int {
    (p % (SCREEN_WIDTH as int) - vx) % (SCREEN_WIDTH as int)
}

/// Row of pixel `p` within a sprite whose top edge is at `vy`, with wrap-around.
pub open spec fn sprite_row(vy: int, p: int) -> int {
    (p / (SCREEN_WIDTH as int) - vy) % (SCREEN_HEIGHT as int)
}

impl MachineView {
    /// Whether the sprite of `rows` rows read from the index register and placed
    /// at `(vx, vy)` has a set bit on pixel `p`.
    pub open spec fn covers(self, vx: int, vy: int, rows: int, p: int) -> bool {
        let col = sprite_col(vx, p);
        let row = sprite_row(vy, p);
        col < 8 && row < rows && sprite_bit(self.memory[self.index + row], col)
    }

    /// The display after the sprite toggles every pixel it covers.
    pub open spec fn drawn(self, vx: int, vy: int, rows: int) -> Seq<bool> {
        Seq::new(SCREEN_SIZE as nat, |p: int| self.screen[p] != self.covers(vx, vy, rows, p))
    }

    /// Whether the sprite covers a pixel that is on.
    pub open spec fn collides(self, vx: int, vy: int, rows: int) -> bool {
        exists|p: int| 0 <= p < SCREEN_SIZE && #[trigger] self.covers(vx, vy, rows, p) && self.screen[p]
    }

    /// The effect of `ins` on a state whose program counter is already past it;
    /// `rnd` is the random byte that the random instruction masks.
    pub open spec fn execute(self, ins: Instruction, rnd: u8) -> Result<MachineView, Chip8Error> {
        let s = self;
        match ins {
            Instruction::Nop => Ok(s),
            Instruction::ClearScreen => Ok(MachineView { screen: blank_screen(), ..s }),
            Instruction::Return => if s.sp == 0 {
                Err(Chip8Error::StackUnderflow)
            } else {
                Ok(MachineView { sp: (s.sp - 1) as nat, pc: s.stack[s.sp - 1], ..s })
            },
            Instruction::Jump { addr } => Ok(MachineView { pc: addr, ..s }),
            Instruction::Call { addr } => if s.sp == STACK_SIZE {
                Err(Chip8Error::StackOverflow)
            } else {
                Ok(MachineView { stack: s.stack.update(s.sp as int, s.pc), sp: s.sp + 1, pc: addr, ..s })
            },
            Instruction::SkipEqImm { x, imm } => Ok(s.skip_if(s.regs[x as int] == imm)),
            Instruction::SkipNeImm { x, imm } => Ok(s.skip_if(s.regs[x as int] != imm)),
            Instruction::SkipEqReg { x, y } => Ok(s.skip_if(s.regs[x as int] == s.regs[y as int])),
            Instruction::SetImm { x, imm } => Ok(s.set_reg(x as int, imm)),
            Instruction::AddImm { x, imm } =>
                Ok(s.set_reg(x as int, ((s.regs[x as int] + imm) % 256) as u8)),
            Instruction::Copy { x, y } => Ok(s.set_reg(x as int, s.regs[y as int])),
            Instruction::Or { x, y } => Ok(s.set_reg(x as int, s.regs[x as int] | s.regs[y as int])),
            Instruction::And { x, y } => Ok(s.set_reg(x as int, s.regs[x as int] & s.regs[y as int])),
            Instruction::Xor { x, y } => Ok(s.set_reg(x as int, s.regs[x as int] ^ s.regs[y as int])),
            Instruction::AddReg { x, y } => {
                let sum = s.regs[x as int] + s.regs[y as int];
                Ok(s.set_reg_flag(x as int, (sum % 256) as u8, sum > 255))
            },
            Instruction::Sub { x, y } => {
                let (a, b) = (s.regs[x as int], s.regs[y as int]);
                Ok(s.set_reg_flag(x as int, ((a - b) % 256) as u8, a >= b))
            },
            Instruction::SubRev { x, y } => {
                let (a, b) = (s.regs[x as int], s.regs[y as int]);
                Ok(s.set_reg_flag(x as int, ((b - a) % 256) as u8, b >= a))
            },
            // The flag is written first; the shift then reads register x again.
            Instruction::ShiftRight { x } => {
                let t = s.set_reg(FLAG as int, s.regs[x as int] & 1);
                Ok(t.set_reg(x as int, t.regs[x as int] >> 1u8))
            },
            Instruction::ShiftLeft { x } => {
                let t = s.set_reg(FLAG as int, (s.regs[x as int] >> 7u8) & 1);
                Ok(t.set_reg(x as int, ((t.regs[x as int] * 2) % 256) as u8))
            },
            Instruction::SkipNeReg { x, y } => Ok(s.skip_if(s.regs[x as int] != s.regs[y as int])),
            Instruction::SetIndex { addr } => Ok(MachineView { index: addr, ..s }),
            Instruction::JumpOffset { addr } => Ok(MachineView { pc: (s.regs[0] + addr) as u16, ..s }),
            Instruction::Random { x, imm } => Ok(s.set_reg(x as int, rnd & imm)),
            Instruction::Draw { x, y, rows } => if s.index + rows > MEMORY_SIZE {
                Err(Chip8Error::AddressOutOfRange)
            } else {
                let (vx, vy) = (s.regs[x as int] as int, s.regs[y as int] as int);
                let t = MachineView { screen: s.drawn(vx, vy, rows as int), ..s };
                Ok(t.set_reg(FLAG as int, if s.collides(vx, vy, rows as int) { 1u8 } else { 0u8 }))
            },
            Instruction::SkipKeyPressed { x } => if s.regs[x as int] >= NUM_KEYS {
                Err(Chip8Error::IndexOutOfRange)
            } else {
                Ok(s.skip_if(s.keys[s.regs[x as int] as int]))
            },
            Instruction::SkipKeyReleased { x } => if s.regs[x as int] >= NUM_KEYS {
                Err(Chip8Error::IndexOutOfRange)
            } else {
                Ok(s.skip_if(!s.keys[s.regs[x as int] as int]))
            },
            Instruction::GetDelay { x } => Ok(s.set_reg(x as int, s.delay)),
            // With no key pressed the register keeps the delay timer's value and
            // the program counter goes back to this instruction.
            Instruction::WaitKey { x } => {
                let k = s.first_pressed(0);
                if k < NUM_KEYS {
                    Ok(s.set_reg(x as int, k as u8))
                } else {
                    Ok(MachineView { pc: (s.pc - 2) as u16, ..s.set_reg(x as int, s.delay) })
                }
            },
            Instruction::SetDelay { x } => Ok(MachineView { delay: s.regs[x as int], ..s }),
            Instruction::SetSound { x } => Ok(MachineView { sound: s.regs[x as int], ..s }),
            Instruction::AddIndex { x } =>
                Ok(MachineView { index: ((s.index + s.regs[x as int]) % 65536) as u16, ..s }),
            Instruction::FontGlyph { x } => Ok(MachineView { index: (s.regs[x as int] * 5) as u16, ..s }),
            Instruction::StoreBcd { x } => if s.index + 3 > MEMORY_SIZE {
                Err(Chip8Error::AddressOutOfRange)
            } else {
                let v = s.regs[x as int];
                let i = s.index as int;
                Ok(MachineView {
                    memory: s.memory.update(i, v / 100).update(i + 1, (v / 10) % 10).update(i + 2, v % 10),
                    ..s
                })
            },
            Instruction::StoreRegs { x } => if s.index + x >= MEMORY_SIZE {
                Err(Chip8Error::AddressOutOfRange)
            } else {
                Ok(MachineView {
                    memory: Seq::new(
                        MEMORY_SIZE as nat,
                        |a: int| if s.index <= a <= s.index + x { s.regs[a - s.index] } else { s.memory[a] },
                    ),
                    ..s
                })
            },
            Instruction::LoadRegs { x } => if s.index + x >= MEMORY_SIZE {
                Err(Chip8Error::AddressOutOfRange)
            } else {
                Ok(MachineView {
                    regs: Seq::new(
                        NUM_REGISTERS as nat,
                        |r: int| if r <= x { s.memory[s.index + r] } else { s.regs[r] },
                    ),
                    ..s
                })
            },
        }
    }

    /// One fetch-decode-execute cycle. The state after it, and the instruction
    /// executed or the error met. A fetch past the end of memory changes nothing;
    /// an instruction that fails leaves the program counter past it and
    /// nothing else changed.
    pub open spec fn step(self, rnd: u8) -> (MachineView, Result<Instruction, Chip8Error>) {
        if !self.can_fetch() {
            (self, Err(Chip8Error::AddressOutOfRange))
        } else {
            let op = self.word_at_pc();
            let t = MachineView { pc: (self.pc + 2) as u16, ..self };
            match decode_word(op) {
                None => (t, Err(Chip8Error::UnsupportedInstruction(op))),
                Some(ins) => match t.execute(ins, rnd) {
                    Ok(u) => (u, Ok(ins)),
                    Err(e) => (t, Err(e)),
                },
            }
        }
    }
}

} // verus!
