use vstd::prelude::*;
use rand::Rng;
use crate::error::Chip8Error;
use crate::instruction::{Instruction, decode};
use crate::pixels::{lemma_pixel_position, lemma_pixel_unique};
use crate::model::{
    MachineView, initial_view, blank_screen, font, sprite_col, sprite_row, FLAG, FONT_SIZE, MEMORY_SIZE, NUM_KEYS, NUM_REGISTERS, SCREEN_SIZE,
    STACK_SIZE, START_ADDRESS,
};

verus! {

/// The machine: memory, registers, call stack, timers, keypad and display.
pub struct Chip8 {
    screen: Vec<bool>,
    ram: Vec<u8>,
    program_counter: u16,
    register_v: Vec<u8>,
    register_i: u16,
    delay_timer: u8,
    sound_timer: u8,
    stack_pointer: u16,
    stack: Vec<u16>,
    keys: Vec<bool>,
}

impl View for Chip8 {
    type V = MachineView;

    closed spec fn view(&self) -> MachineView {
        MachineView {
            memory: self.ram@,
            regs: self.register_v@,
            index: self.register_i,
            pc: self.program_counter,
            stack: self.stack@,
            sp: self.stack_pointer as nat,
            delay: self.delay_timer,
            sound: self.sound_timer,
            keys: self.keys@,
            screen: self.screen@,
        }
    }
}

/// The state after `res`, and what a step reports: a failed instruction leaves
/// the state `s` it started from.
pub open spec fn outcome(s: MachineView, res: Result<MachineView, Chip8Error>) -> (MachineView, Result<(), Chip8Error>) {
    match res {
        Ok(t) => (t, Ok(())),
        Err(e) => (s, Err(e)),
    }
}

/// Whether the sprite covers pixel `p` at a place drawn before row `row`,
/// column `col`.
pub open spec fn drawn_before(s: MachineView, vx: int, vy: int, rows: int, row: int, col: int, p: int) -> bool {
    s.covers(vx, vy, rows, p) && (sprite_row(vy, p) < row || (sprite_row(vy, p) == row && sprite_col(vx, p) < col))
}

/// The glyph table, as bytes.
fn font_table() -> (r: Vec<u8>)
    ensures
        r@ == font(),
{
    vec![
        0xF0u8, 0x90, 0x90, 0x90, 0xF0, 0x20, 0x60, 0x20, 0x20, 0x70,
        0xF0, 0x10, 0xF0, 0x80, 0xF0, 0xF0, 0x10, 0xF0, 0x10, 0xF0,
        0x90, 0x90, 0xF0, 0x10, 0x10, 0xF0, 0x80, 0xF0, 0x10, 0xF0,
        0xF0, 0x80, 0xF0, 0x90, 0xF0, 0xF0, 0x10, 0x20, 0x40, 0x40,
        0xF0, 0x90, 0xF0, 0x90, 0xF0, 0xF0, 0x90, 0xF0, 0x10, 0xF0,
        0xF0, 0x90, 0xF0, 0x90, 0x90, 0xE0, 0x90, 0xE0, 0x90, 0xE0,
        0xF0, 0x80, 0x80, 0x80, 0xF0, 0xE0, 0x90, 0x90, 0x90, 0xE0,
        0xF0, 0x80, 0xF0, 0x80, 0xF0, 0xF0, 0x80, 0xF0, 0x80, 0x80,
    ]
}

/// Relies on rand::thread_rng and rand::Rng::gen::<u8>: one byte from the
/// thread's generator. Nothing is promised of its value.
#[verifier::external_body]
fn random_byte() -> u8 {
    rand::thread_rng().gen::<u8>()
}

impl Chip8 {
    /// Sizes of all components are fixed and the stack pointer is within capacity.
    pub open spec fn wf(&self) -> bool {
        self@.wf()
    }

    /// A machine with the glyph table at the start of memory, everything else
    /// zero or off, and the program counter at the program start.
    pub fn new() -> (r: Chip8)
        ensures
            r.wf(),
            r@ == initial_view(),
    {
        let mut ram: Vec<u8> = vec![0u8; MEMORY_SIZE];
        let glyphs = font_table();
        let mut a: usize = 0;
        while a < FONT_SIZE
            invariant
                a <= FONT_SIZE,
                glyphs@ == font(),
                ram@.len() == MEMORY_SIZE,
                forall|b: int| 0 <= b < MEMORY_SIZE ==> #[trigger] ram@[b] == if b < a { font()[b] } else { 0u8 },
            decreases FONT_SIZE - a,
        {
            ram.set(a, glyphs[a]);
            a += 1;
        }
        let r = Chip8 {
            screen: vec![false; SCREEN_SIZE],
            ram,
            program_counter: START_ADDRESS,
            register_v: vec![0u8; NUM_REGISTERS],
            register_i: 0,
            delay_timer: 0,
            sound_timer: 0,
            stack_pointer: 0,
            stack: vec![0u16; STACK_SIZE],
            keys: vec![false; NUM_KEYS],
        };
        assert(r@.memory =~= initial_view().memory);
        assert(r@.regs =~= initial_view().regs);
        assert(r@.stack =~= initial_view().stack);
        assert(r@.keys =~= initial_view().keys);
        assert(r@.screen =~= initial_view().screen);
        r
    }

    /// Returns the machine to the state right after construction; the loaded
    /// program is discarded.
    pub fn reset(&mut self)
        ensures
            final(self).wf(),
            final(self)@ == initial_view(),
    {
        *self = Chip8::new();
    }

    /// Copies `data` into memory from the program start on. A program that
    /// does not fit is refused before anything is copied.
    pub fn load(&mut self, data: &[u8]) -> (r: Result<(), Chip8Error>)
        requires
            old(self).wf(),
        ensures
            final(self).wf(),
            MachineView::fits(data@.len()) ==> r is Ok && final(self)@ == old(self)@.load(data@),
            !MachineView::fits(data@.len()) ==> r == Err::<(), Chip8Error>(Chip8Error::MemoryOverflow)
                && final(self)@ == old(self)@,
    {
        let start = START_ADDRESS as usize;
        if data.len() > MEMORY_SIZE - start {
            return Err(Chip8Error::MemoryOverflow);
        }
        let ghost s0 = self@;
        let mut k: usize = 0;
        while k < data.len()
            invariant
                self.wf(),
                k <= data@.len(),
                start + data@.len() <= MEMORY_SIZE,
                start == START_ADDRESS,
                self@ == (MachineView { memory: self@.memory, ..s0 }),
                forall|a: int| 0 <= a < MEMORY_SIZE ==> #[trigger] self@.memory[a]
                    == if start <= a < start + k { data@[a - start] } else { s0.memory[a] },
            decreases data@.len() - k,
        {
            self.ram.set(start + k, data[k]);
            k += 1;
        }
        assert(self@.memory =~= s0.load(data@).memory);
        Ok(())
    }

    /// The display, row by row, `SCREEN_WIDTH` pixels to a row.
    pub fn get_display(&self) -> (r: &[bool])
        ensures
            r@ == self@.screen,
    {
        self.screen.as_slice()
    }

    /// Sets key `key_index` pressed or released.
    pub fn keypress(&mut self, key_index: usize, is_pressed: bool) -> (r: Result<(), Chip8Error>)
        requires
            old(self).wf(),
        ensures
            final(self).wf(),
            key_index < NUM_KEYS ==> r is Ok && final(self)@ == (MachineView {
                keys: old(self)@.keys.update(key_index as int, is_pressed),
                ..old(self)@
            }),
            key_index >= NUM_KEYS ==> r == Err::<(), Chip8Error>(Chip8Error::IndexOutOfRange)
                && final(self)@ == old(self)@,
    {
        if key_index >= NUM_KEYS {
            return Err(Chip8Error::IndexOutOfRange);
        }
        self.keys.set(key_index, is_pressed);
        Ok(())
    }

    /// Moves the delay and sound timers one step toward zero.
    pub fn tick_timers(&mut self)
        requires
            old(self).wf(),
        ensures
            final(self).wf(),
            final(self)@ == old(self)@.tick_timers(),
    {
        if self.delay_timer > 0 {
            self.delay_timer -= 1;
        }
        if self.sound_timer > 0 {
            self.sound_timer -= 1;
        }
    }

    /// Reads the instruction word at the program counter and moves the program
    /// counter past it.
    fn fetch(&mut self) -> (r: Result<u16, Chip8Error>)
        requires
            old(self).wf(),
        ensures
            final(self).wf(),
            old(self)@.can_fetch() ==> r == Ok::<u16, Chip8Error>(old(self)@.word_at_pc())
                && final(self)@ == (MachineView { pc: (old(self)@.pc + 2) as u16, ..old(self)@ }),
            !old(self)@.can_fetch() ==> r == Err::<u16, Chip8Error>(Chip8Error::AddressOutOfRange)
                && final(self)@ == old(self)@,
    {
        let pc = self.program_counter as usize;
        if pc + 1 >= MEMORY_SIZE {
            return Err(Chip8Error::AddressOutOfRange);
        }
        let higher_byte = self.ram[pc] as u16;
        let lower_byte = self.ram[pc + 1] as u16;
        self.program_counter = self.program_counter + 2;
        Ok(higher_byte * 256 + lower_byte)
    }

    /// Pushes a return address.
    fn stack_push(&mut self, data: u16) -> (r: Result<(), Chip8Error>)
        requires
            old(self).wf(),
        ensures
            final(self).wf(),
            old(self)@.sp < STACK_SIZE ==> r is Ok && final(self)@ == (MachineView {
                stack: old(self)@.stack.update(old(self)@.sp as int, data),
                sp: old(self)@.sp + 1,
                ..old(self)@
            }),
            old(self)@.sp == STACK_SIZE ==> r == Err::<(), Chip8Error>(Chip8Error::StackOverflow)
                && final(self)@ == old(self)@,
    {
        if self.stack_pointer as usize >= STACK_SIZE {
            return Err(Chip8Error::StackOverflow);
        }
        self.stack.set(self.stack_pointer as usize, data);
        self.stack_pointer = self.stack_pointer + 1;
        Ok(())
    }

    /// Pops the most recent return address.
    fn stack_pop(&mut self) -> (r: Result<u16, Chip8Error>)
        requires
            old(self).wf(),
        ensures
            final(self).wf(),
            old(self)@.sp > 0 ==> r == Ok::<u16, Chip8Error>(old(self)@.stack[old(self)@.sp - 1])
                && final(self)@ == (MachineView { sp: (old(self)@.sp - 1) as nat, ..old(self)@ }),
            old(self)@.sp == 0 ==> r == Err::<u16, Chip8Error>(Chip8Error::StackUnderflow)
                && final(self)@ == old(self)@,
    {
        if self.stack_pointer == 0 {
            return Err(Chip8Error::StackUnderflow);
        }
        self.stack_pointer = self.stack_pointer - 1;
        Ok(self.stack[self.stack_pointer as usize])
    }

    fn set_register(&mut self, x: u8, value: u8)
        requires
            old(self).wf(),
            x < NUM_REGISTERS,
        ensures
            final(self).wf(),
            final(self)@ == old(self)@.set_reg(x as int, value),
    {
        self.register_v.set(x as usize, value);
    }

    fn set_register_flag(&mut self, x: u8, value: u8, flag: bool)
        requires
            old(self).wf(),
            x < NUM_REGISTERS,
        ensures
            final(self).wf(),
            final(self)@ == old(self)@.set_reg_flag(x as int, value, flag),
    {
        self.register_v.set(x as usize, value);
        self.register_v.set(FLAG, if flag { 1u8 } else { 0u8 });
    }

    fn skip_if(&mut self, cond: bool)
        requires
            old(self).wf(),
            old(self)@.pc <= MEMORY_SIZE,
        ensures
            final(self).wf(),
            final(self)@ == old(self)@.skip_if(cond),
    {
        if cond {
            self.program_counter = self.program_counter + 2;
        }
    }

    /// Draws the sprite of `rows` rows at the index register at the position
    /// held in registers `x` and `y`, and sets the flag register on collision.
    fn draw(&mut self, x: u8, y: u8, rows: u8) -> (r: Result<(), Chip8Error>)
        requires
            old(self).wf(),
            x < NUM_REGISTERS,
            y < NUM_REGISTERS,
            rows < 16,
        ensures
            final(self).wf(),
            (final(self)@, r) == outcome(old(self)@, old(self)@.execute(Instruction::Draw { x, y, rows }, 0)),
    {
        let i = self.register_i as usize;
        if i + rows as usize > MEMORY_SIZE {
            return Err(Chip8Error::AddressOutOfRange);
        }
        let vx = self.register_v[x as usize] as usize;
        let vy = self.register_v[y as usize] as usize;
        let ghost s0 = self@;
        let ghost n = rows as int;
        let mut flipped = false;
        let mut row: usize = 0;
        while row < rows as usize
            invariant
                self.wf(),
                s0.wf(),
                row <= rows,
                rows < 16,
                n == rows,
                i == s0.index,
                i + rows <= MEMORY_SIZE,
                vx < 256,
                vy < 256,
                self@ == (MachineView { screen: self@.screen, ..s0 }),
                forall|p: int| 0 <= p < SCREEN_SIZE ==> #[trigger] self@.screen[p]
                    == (s0.screen[p] != drawn_before(s0, vx as int, vy as int, n, row as int, 0, p)),
                flipped == exists|p: int| 0 <= p < SCREEN_SIZE
                    && #[trigger] drawn_before(s0, vx as int, vy as int, n, row as int, 0, p) && s0.screen[p],
            decreases rows - row,
        {
            let byte = self.ram[i + row];
            let mut col: usize = 0;
            while col < 8
                invariant
                    self.wf(),
                    s0.wf(),
                    row < rows,
                    rows < 16,
                    col <= 8,
                    n == rows,
                    i == s0.index,
                    i + rows <= MEMORY_SIZE,
                    vx < 256,
                    vy < 256,
                    byte == s0.memory[i + row],
                    self@ == (MachineView { screen: self@.screen, ..s0 }),
                    forall|p: int| 0 <= p < SCREEN_SIZE ==> #[trigger] self@.screen[p]
                        == (s0.screen[p] != drawn_before(s0, vx as int, vy as int, n, row as int, col as int, p)),
                    flipped == exists|p: int| 0 <= p < SCREEN_SIZE
                        && #[trigger] drawn_before(s0, vx as int, vy as int, n, row as int, col as int, p) && s0.screen[p],
                decreases 8 - col,
            {
                let q = (vx + col) % 64 + 64 * ((vy + row) % 32);
                proof {
                    lemma_pixel_position(vx as int, vy as int, col as int, row as int);
                }
                let ghost f0 = flipped;
                let ghost screen0 = self@.screen;
                let set = byte & (0x80u8 >> col as u8) != 0;
                assert(s0.covers(vx as int, vy as int, n, q as int) == set);
                if set {
                    let old_pixel = self.screen[q];
                    flipped = flipped || old_pixel;
                    self.screen.set(q, !old_pixel);
                }
                col += 1;
                proof {
                    let c = col as int;
                    assert forall|p: int| 0 <= p < SCREEN_SIZE implies #[trigger] self@.screen[p]
                        == (s0.screen[p] != drawn_before(s0, vx as int, vy as int, n, row as int, c, p)) by {
                        if p != q {
                            lemma_pixel_unique(vx as int, vy as int, c - 1, row as int, p);
                        }
                    }
                    if f0 {
                        let p0 = choose|p: int| 0 <= p < SCREEN_SIZE
                            && #[trigger] drawn_before(s0, vx as int, vy as int, n, row as int, c - 1, p) && s0.screen[p];
                        assert(drawn_before(s0, vx as int, vy as int, n, row as int, c, p0));
                    } else if set && s0.screen[q as int] {
                        assert(drawn_before(s0, vx as int, vy as int, n, row as int, c, q as int));
                    } else {
                        assert forall|p: int| 0 <= p < SCREEN_SIZE
                            && #[trigger] drawn_before(s0, vx as int, vy as int, n, row as int, c, p)
                            implies !s0.screen[p] by {
                            lemma_pixel_unique(vx as int, vy as int, c - 1, row as int, p);
                            if p != q {
                                assert(drawn_before(s0, vx as int, vy as int, n, row as int, c - 1, p));
                            }
                        }
                    }
                }
            }
            row += 1;
            proof {
                let r = row as int;
                assert forall|p: int| 0 <= p < SCREEN_SIZE implies
                    #[trigger] drawn_before(s0, vx as int, vy as int, n, r, 0, p)
                        == drawn_before(s0, vx as int, vy as int, n, r - 1, 8, p) by {}
                if flipped {
                    let p0 = choose|p: int| 0 <= p < SCREEN_SIZE
                        && #[trigger] drawn_before(s0, vx as int, vy as int, n, r - 1, 8, p) && s0.screen[p];
                    assert(drawn_before(s0, vx as int, vy as int, n, r, 0, p0));
                }
            }
        }
        self.register_v.set(FLAG, if flipped { 1u8 } else { 0u8 });
        proof {
            assert forall|p: int| 0 <= p < SCREEN_SIZE implies
                #[trigger] drawn_before(s0, vx as int, vy as int, n, n, 0, p)
                    == s0.covers(vx as int, vy as int, n, p) by {}
            assert(self@.screen =~= s0.drawn(vx as int, vy as int, n));
            if flipped {
                let p0 = choose|p: int| 0 <= p < SCREEN_SIZE
                    && #[trigger] drawn_before(s0, vx as int, vy as int, n, n, 0, p) && s0.screen[p];
                assert(s0.covers(vx as int, vy as int, n, p0));
            }
            if s0.collides(vx as int, vy as int, n) {
                let p0 = choose|p: int| 0 <= p < SCREEN_SIZE
                    && #[trigger] s0.covers(vx as int, vy as int, n, p) && s0.screen[p];
                assert(drawn_before(s0, vx as int, vy as int, n, n, 0, p0));
            }
        }
        Ok(())
    }

    /// Waits for a key: the first pressed key's index goes to register `x`;
    /// with none pressed, register `x` gets the delay timer and the program
    /// counter goes back to this instruction.
    fn wait_key(&mut self, x: u8)
        requires
            old(self).wf(),
            x < NUM_REGISTERS,
            old(self)@.pc >= 2,
        ensures
            final(self).wf(),
            Ok::<MachineView, Chip8Error>(final(self)@) == old(self)@.execute(Instruction::WaitKey { x }, 0),
    {
        let mut k: usize = 0;
        while k < NUM_KEYS && !self.keys[k]
            invariant
                self.wf(),
                k <= NUM_KEYS,
                self@.first_pressed(k as int) == self@.first_pressed(0),
            decreases NUM_KEYS - k,
        {
            k += 1;
        }
        if k < NUM_KEYS {
            self.register_v.set(x as usize, k as u8);
        } else {
            self.register_v.set(x as usize, self.delay_timer);
            self.program_counter = self.program_counter - 2;
        }
    }

    /// Writes the hundreds, tens and ones digits of register `x` at the index
    /// register and the two bytes after it.
    fn store_bcd(&mut self, x: u8) -> (r: Result<(), Chip8Error>)
        requires
            old(self).wf(),
            x < NUM_REGISTERS,
        ensures
            final(self).wf(),
            (final(self)@, r) == outcome(old(self)@, old(self)@.execute(Instruction::StoreBcd { x }, 0)),
    {
        let i = self.register_i as usize;
        if i + 3 > MEMORY_SIZE {
            return Err(Chip8Error::AddressOutOfRange);
        }
        let v = self.register_v[x as usize];
        self.ram.set(i, v / 100);
        self.ram.set(i + 1, (v / 10) % 10);
        self.ram.set(i + 2, v % 10);
        Ok(())
    }

    /// Copies registers 0 through `x` into memory from the index register on.
    fn store_registers(&mut self, x: u8) -> (r: Result<(), Chip8Error>)
        requires
            old(self).wf(),
            x < NUM_REGISTERS,
        ensures
            final(self).wf(),
            (final(self)@, r) == outcome(old(self)@, old(self)@.execute(Instruction::StoreRegs { x }, 0)),
    {
        let i = self.register_i as usize;
        if i + x as usize >= MEMORY_SIZE {
            return Err(Chip8Error::AddressOutOfRange);
        }
        let ghost s0 = self@;
        let mut k: usize = 0;
        while k <= x as usize
            invariant
                self.wf(),
                k <= x + 1,
                x < NUM_REGISTERS,
                i == s0.index,
                i + x < MEMORY_SIZE,
                self@ == (MachineView { memory: self@.memory, ..s0 }),
                forall|a: int| 0 <= a < MEMORY_SIZE ==> #[trigger] self@.memory[a]
                    == if i <= a < i + k { s0.regs[a - i] } else { s0.memory[a] },
            decreases x + 1 - k,
        {
            self.ram.set(i + k, self.register_v[k]);
            k += 1;
        }
        proof {
            let expected = s0.execute(Instruction::StoreRegs { x }, 0).unwrap();
            assert(self@.memory =~= expected.memory);
        }
        Ok(())
    }

    /// Copies memory from the index register on into registers 0 through `x`.
    fn load_registers(&mut self, x: u8) -> (r: Result<(), Chip8Error>)
        requires
            old(self).wf(),
            x < NUM_REGISTERS,
        ensures
            final(self).wf(),
            (final(self)@, r) == outcome(old(self)@, old(self)@.execute(Instruction::LoadRegs { x }, 0)),
    {
        let i = self.register_i as usize;
        if i + x as usize >= MEMORY_SIZE {
            return Err(Chip8Error::AddressOutOfRange);
        }
        let ghost s0 = self@;
        let mut k: usize = 0;
        while k <= x as usize
            invariant
                self.wf(),
                k <= x + 1,
                x < NUM_REGISTERS,
                i == s0.index,
                i + x < MEMORY_SIZE,
                self@ == (MachineView { regs: self@.regs, ..s0 }),
                forall|r: int| 0 <= r < NUM_REGISTERS ==> #[trigger] self@.regs[r]
                    == if r < k { s0.memory[i + r] } else { s0.regs[r] },
            decreases x + 1 - k,
        {
            self.register_v.set(k, self.ram[i + k]);
            k += 1;
        }
        proof {
            let expected = s0.execute(Instruction::LoadRegs { x }, 0).unwrap();
            assert(self@.regs =~= expected.regs);
        }
        Ok(())
    }

    /// Whether `ins` belongs to the group of instructions that `execute_control` handles.
    spec fn is_control(ins: Instruction) -> bool {
        ins is Nop
            || ins is ClearScreen
            || ins is Return
            || ins is Jump
            || ins is Call
            || ins is SkipEqImm
            || ins is SkipNeImm
            || ins is SkipEqReg
            || ins is SkipNeReg
            || ins is JumpOffset
            || ins is SkipKeyPressed
            || ins is SkipKeyReleased
    }

    /// Whether `ins` belongs to the group of instructions that `execute_alu` handles.
    spec fn is_alu(ins: Instruction) -> bool {
        ins is SetImm
            || ins is AddImm
            || ins is Copy
            || ins is Or
            || ins is And
            || ins is Xor
            || ins is AddReg
            || ins is Sub
            || ins is SubRev
            || ins is ShiftRight
            || ins is ShiftLeft
    }

    /// Whether `ins` belongs to the group of instructions that `execute_other` handles.
    spec fn is_other(ins: Instruction) -> bool {
        ins is SetIndex
            || ins is Random
            || ins is Draw
            || ins is GetDelay
            || ins is WaitKey
            || ins is SetDelay
            || ins is SetSound
            || ins is AddIndex
            || ins is FontGlyph
            || ins is StoreBcd
            || ins is StoreRegs
            || ins is LoadRegs
    }

    /// Control flow: clearing the display, jumps, calls, returns and skips.
    fn execute_control(&mut self, ins: Instruction, rnd: u8) -> (r: Result<(), Chip8Error>)
        requires
            old(self).wf(),
            ins.wf(),
            Self::is_control(ins),
            2 <= old(self)@.pc <= MEMORY_SIZE,
        ensures
            final(self).wf(),
            (final(self)@, r) == outcome(old(self)@, old(self)@.execute(ins, rnd)),
    {
        match ins {
            Instruction::Nop => {},
            Instruction::ClearScreen => {
                self.screen = vec![false; SCREEN_SIZE];
                assert(self@.screen =~= blank_screen());
            },
            Instruction::Return => {
                match self.stack_pop() {
                    Ok(addr) => self.program_counter = addr,
                    Err(e) => return Err(e),
                }
            },
            Instruction::Jump { addr } => self.program_counter = addr,
            Instruction::Call { addr } => {
                let pc = self.program_counter;
                match self.stack_push(pc) {
                    Ok(()) => self.program_counter = addr,
                    Err(e) => return Err(e),
                }
            },
            Instruction::SkipEqImm { x, imm } => {
                let cond = self.register_v[x as usize] == imm;
                self.skip_if(cond);
            },
            Instruction::SkipNeImm { x, imm } => {
                let cond = self.register_v[x as usize] != imm;
                self.skip_if(cond);
            },
            Instruction::SkipEqReg { x, y } => {
                let cond = self.register_v[x as usize] == self.register_v[y as usize];
                self.skip_if(cond);
            },
            Instruction::SkipNeReg { x, y } => {
                let cond = self.register_v[x as usize] != self.register_v[y as usize];
                self.skip_if(cond);
            },
            Instruction::JumpOffset { addr } => {
                self.program_counter = self.register_v[0] as u16 + addr;
            },
            Instruction::SkipKeyPressed { x } => {
                let key = self.register_v[x as usize] as usize;
                if key >= NUM_KEYS {
                    return Err(Chip8Error::IndexOutOfRange);
                }
                let cond = self.keys[key];
                self.skip_if(cond);
            },
            Instruction::SkipKeyReleased { x } => {
                let key = self.register_v[x as usize] as usize;
                if key >= NUM_KEYS {
                    return Err(Chip8Error::IndexOutOfRange);
                }
                let cond = !self.keys[key];
                self.skip_if(cond);
            },
            _ => {},
        }
        Ok(())
    }

    /// Register arithmetic and logic.
    fn execute_alu(&mut self, ins: Instruction, rnd: u8) -> (r: Result<(), Chip8Error>)
        requires
            old(self).wf(),
            ins.wf(),
            Self::is_alu(ins),
            2 <= old(self)@.pc <= MEMORY_SIZE,
        ensures
            final(self).wf(),
            (final(self)@, r) == outcome(old(self)@, old(self)@.execute(ins, rnd)),
    {
        match ins {
            Instruction::SetImm { x, imm } => self.set_register(x, imm),
            Instruction::AddImm { x, imm } => {
                let sum = self.register_v[x as usize] as u16 + imm as u16;
                self.set_register(x, (sum % 256) as u8);
            },
            Instruction::Copy { x, y } => {
                let v = self.register_v[y as usize];
                self.set_register(x, v);
            },
            Instruction::Or { x, y } => {
                let v = self.register_v[x as usize] | self.register_v[y as usize];
                self.set_register(x, v);
            },
            Instruction::And { x, y } => {
                let v = self.register_v[x as usize] & self.register_v[y as usize];
                self.set_register(x, v);
            },
            Instruction::Xor { x, y } => {
                let v = self.register_v[x as usize] ^ self.register_v[y as usize];
                self.set_register(x, v);
            },
            Instruction::AddReg { x, y } => {
                let sum = self.register_v[x as usize] as u16 + self.register_v[y as usize] as u16;
                self.set_register_flag(x, (sum % 256) as u8, sum > 255);
            },
            Instruction::Sub { x, y } => {
                let a = self.register_v[x as usize];
                let b = self.register_v[y as usize];
                let diff = (a as u16 + 256 - b as u16) % 256;
                self.set_register_flag(x, diff as u8, a >= b);
            },
            Instruction::SubRev { x, y } => {
                let a = self.register_v[x as usize];
                let b = self.register_v[y as usize];
                let diff = (b as u16 + 256 - a as u16) % 256;
                self.set_register_flag(x, diff as u8, b >= a);
            },
            Instruction::ShiftRight { x } => {
                let low = self.register_v[x as usize] & 1;
                self.set_register(FLAG as u8, low);
                let v = self.register_v[x as usize] >> 1u8;
                self.set_register(x, v);
            },
            Instruction::ShiftLeft { x } => {
                let high = (self.register_v[x as usize] >> 7u8) & 1;
                self.set_register(FLAG as u8, high);
                let v = (self.register_v[x as usize] as u16 * 2) % 256;
                self.set_register(x, v as u8);
            },
            _ => {},
        }
        Ok(())
    }

    /// Index register, timers, random bytes, drawing, keys and memory transfers.
    fn execute_other(&mut self, ins: Instruction, rnd: u8) -> (r: Result<(), Chip8Error>)
        requires
            old(self).wf(),
            ins.wf(),
            Self::is_other(ins),
            2 <= old(self)@.pc <= MEMORY_SIZE,
        ensures
            final(self).wf(),
            (final(self)@, r) == outcome(old(self)@, old(self)@.execute(ins, rnd)),
    {
        match ins {
            Instruction::SetIndex { addr } => self.register_i = addr,
            Instruction::Random { x, imm } => self.set_register(x, rnd & imm),
            Instruction::Draw { x, y, rows } => return self.draw(x, y, rows),
            Instruction::GetDelay { x } => {
                let v = self.delay_timer;
                self.set_register(x, v);
            },
            Instruction::WaitKey { x } => self.wait_key(x),
            Instruction::SetDelay { x } => self.delay_timer = self.register_v[x as usize],
            Instruction::SetSound { x } => self.sound_timer = self.register_v[x as usize],
            Instruction::AddIndex { x } => {
                let sum = self.register_i as u32 + self.register_v[x as usize] as u32;
                self.register_i = (sum % 65536) as u16;
            },
            Instruction::FontGlyph { x } => {
                self.register_i = self.register_v[x as usize] as u16 * 5;
            },
            Instruction::StoreBcd { x } => return self.store_bcd(x),
            Instruction::StoreRegs { x } => return self.store_registers(x),
            Instruction::LoadRegs { x } => return self.load_registers(x),
            _ => {},
        }
        Ok(())
    }

    /// Applies `ins` to a machine whose program counter is already past it;
    /// `rnd` is the byte that the random instruction masks. A failing
    /// instruction changes nothing.
    fn execute(&mut self, ins: Instruction, rnd: u8) -> (r: Result<(), Chip8Error>)
        requires
            old(self).wf(),
            ins.wf(),
            2 <= old(self)@.pc <= MEMORY_SIZE,
        ensures
            final(self).wf(),
            (final(self)@, r) == outcome(old(self)@, old(self)@.execute(ins, rnd)),
    {
        match ins {
            Instruction::Nop
            | Instruction::ClearScreen
            | Instruction::Return
            | Instruction::Jump { .. }
            | Instruction::Call { .. }
            | Instruction::SkipEqImm { .. }
            | Instruction::SkipNeImm { .. }
            | Instruction::SkipEqReg { .. }
            | Instruction::SkipNeReg { .. }
            | Instruction::JumpOffset { .. }
            | Instruction::SkipKeyPressed { .. }
            | Instruction::SkipKeyReleased { .. }
                => self.execute_control(ins, rnd),
            Instruction::SetImm { .. }
            | Instruction::AddImm { .. }
            | Instruction::Copy { .. }
            | Instruction::Or { .. }
            | Instruction::And { .. }
            | Instruction::Xor { .. }
            | Instruction::AddReg { .. }
            | Instruction::Sub { .. }
            | Instruction::SubRev { .. }
            | Instruction::ShiftRight { .. }
            | Instruction::ShiftLeft { .. }
                => self.execute_alu(ins, rnd),
            _ => self.execute_other(ins, rnd),
        }
    }

    /// One fetch-decode-execute cycle, with `random` as the byte that the
    /// random instruction masks. Returns the instruction executed, for a
    /// host that traces execution, or the error met.
    pub fn tick_with_random(&mut self, random: u8) -> (r: Result<Instruction, Chip8Error>)
        requires
            old(self).wf(),
        ensures
            final(self).wf(),
            (final(self)@, r) == old(self)@.step(random),
    {
        let op = match self.fetch() {
            Ok(op) => op,
            Err(e) => return Err(e),
        };
        match decode(op) {
            None => Err(Chip8Error::UnsupportedInstruction(op)),
            Some(ins) => match self.execute(ins, random) {
                Ok(()) => Ok(ins),
                Err(e) => Err(e),
            },
        }
    }

    /// One fetch-decode-execute cycle, with a fresh random byte for the random
    /// instruction. Returns the instruction executed or the error met.
    pub fn tick(&mut self) -> (r: Result<Instruction, Chip8Error>)
        requires
            old(self).wf(),
        ensures
            final(self).wf(),
            exists|random: u8| (final(self)@, r) == #[trigger] old(self)@.step(random),
    {
        let random = random_byte();
        self.tick_with_random(random)
    }

    /// Whether the sound timer is running.
    pub fn is_beeping(&self) -> (r: bool)
        ensures
            r == (self@.sound > 0),
    {
        self.sound_timer > 0
    }
    /// General register `x`; register 15 is the flag register.
    pub fn register(&self, x: usize) -> (r: u8)
        requires
            self.wf(),
            x < NUM_REGISTERS,
        ensures
            r == self@.regs[x as int],
    {
        self.register_v[x]
    }

    /// The program counter.
    pub fn program_counter(&self) -> (r: u16)
        ensures
            r == self@.pc,
    {
        self.program_counter
    }

    /// The address register.
    pub fn index_register(&self) -> (r: u16)
        ensures
            r == self@.index,
    {
        self.register_i
    }

    /// The delay timer.
    pub fn delay_timer(&self) -> (r: u8)
        ensures
            r == self@.delay,
    {
        self.delay_timer
    }

    /// The sound timer.
    pub fn sound_timer(&self) -> (r: u8)
        ensures
            r == self@.sound,
    {
        self.sound_timer
    }

    /// Number of return addresses on the call stack.
    pub fn stack_depth(&self) -> (r: u16)
        ensures
            r == self@.sp,
    {
        self.stack_pointer
    }

    /// The byte at memory address `addr`.
    pub fn memory_at(&self, addr: usize) -> (r: u8)
        requires
            self.wf(),
            addr < MEMORY_SIZE,
        ensures
            r == self@.memory[addr as int],
    {
        self.ram[addr]
    }
}

} // verus!
