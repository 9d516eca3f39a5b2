use vstd::prelude::*;
use crate::error::Chip8Error;
use crate::instruction::{Instruction, decode_word, lemma_fields_in_range};
use crate::model::{
    MachineView, initial_view, font, FONT_SIZE, MEMORY_SIZE, NUM_KEYS, NUM_REGISTERS, SCREEN_SIZE,
    STACK_SIZE, START_ADDRESS,
};

verus! {

/// A fresh machine holds the glyph table in its first 80 bytes and zeros
/// after it, starts at the program start with every register, timer and the
/// stack pointer at zero, and shows a blank display.
pub proof fn lemma_initial_state()
    ensures
        initial_view().wf(),
        initial_view().memory.subrange(0, FONT_SIZE as int) == font(),
        forall|a: int| FONT_SIZE <= a < MEMORY_SIZE ==> initial_view().memory[a] == 0,
        initial_view().pc == START_ADDRESS,
        initial_view().index == 0,
        forall|r: int| 0 <= r < NUM_REGISTERS ==> initial_view().regs[r] == 0,
        initial_view().delay == 0,
        initial_view().sound == 0,
        initial_view().sp == 0,
        forall|k: int| 0 <= k < NUM_KEYS ==> !initial_view().keys[k],
        forall|p: int| 0 <= p < SCREEN_SIZE ==> !initial_view().screen[p],
{
    assert(initial_view().memory.subrange(0, FONT_SIZE as int) =~= font());
}

/// Whether `ins` is one of the conditional skips.
pub open spec fn is_skip(ins: Instruction) -> bool {
    ins is SkipEqImm || ins is SkipNeImm || ins is SkipEqReg || ins is SkipNeReg
        || ins is SkipKeyPressed || ins is SkipKeyReleased
}

/// Whether the condition of the skip `ins` holds in `s`.
pub open spec fn skip_holds(s: MachineView, ins: Instruction) -> bool {
    match ins {
        Instruction::SkipEqImm { x, imm } => s.regs[x as int] == imm,
        Instruction::SkipNeImm { x, imm } => s.regs[x as int] != imm,
        Instruction::SkipEqReg { x, y } => s.regs[x as int] == s.regs[y as int],
        Instruction::SkipNeReg { x, y } => s.regs[x as int] != s.regs[y as int],
        Instruction::SkipKeyPressed { x } => s.keys[s.regs[x as int] as int],
        Instruction::SkipKeyReleased { x } => !s.keys[s.regs[x as int] as int],
        _ => false,
    }
}

/// Whether the key that a key skip reads is one of the keypad's.
pub open spec fn key_in_range(s: MachineView, ins: Instruction) -> bool {
    match ins {
        Instruction::SkipKeyPressed { x } | Instruction::SkipKeyReleased { x } => s.regs[x as int] < NUM_KEYS,
        _ => true,
    }
}

/// A skip moves the program counter 4 past the skip when its condition holds
/// and 2 past it when not, and changes nothing else.
pub proof fn lemma_skip_advance(s: MachineView, ins: Instruction, rnd: u8)
    requires
        s.wf(),
        s.can_fetch(),
        decode_word(s.word_at_pc()) == Some(ins),
        is_skip(ins),
        key_in_range(s, ins),
    ensures
        s.step(rnd).1 == Ok::<Instruction, Chip8Error>(ins),
        s.step(rnd).0 == (MachineView {
            pc: (s.pc + if skip_holds(s, ins) { 4int } else { 2int }) as u16,
            ..s
        }),
{
}

/// A call followed, at the called address, by a return brings execution back
/// to the instruction right after the call, with the stack as it was.
pub proof fn lemma_call_return(s: MachineView, r1: u8, r2: u8)
    requires
        s.wf(),
        s.can_fetch(),
        s.sp < STACK_SIZE,
        decode_word(s.word_at_pc()) matches Some(ins) && ins is Call,
        s.step(r1).0.can_fetch(),
        decode_word(s.step(r1).0.word_at_pc()) == Some(Instruction::Return),
    ensures
        s.step(r1).0.step(r2).1 == Ok::<Instruction, Chip8Error>(Instruction::Return),
        s.step(r1).0.step(r2).0.pc == s.pc + 2,
        s.step(r1).0.step(r2).0.sp == s.sp,
{
}

/// Waiting for a key with no key pressed leaves the program counter where it
/// was, on this step and on the next; with a key pressed, execution moves on
/// and the register holds the index of the first pressed key.
pub proof fn lemma_wait_key(s: MachineView, r1: u8, r2: u8, x: u8)
    requires
        s.wf(),
        s.can_fetch(),
        decode_word(s.word_at_pc()) == Some(Instruction::WaitKey { x }),
        s.pc >= 2,
    ensures
        (forall|k: int| 0 <= k < NUM_KEYS ==> !s.keys[k]) ==> s.step(r1).0.pc == s.pc
            && s.step(r1).0.step(r2).0.pc == s.pc,
        forall|k: int|
            0 <= k < NUM_KEYS && s.keys[k] && (forall|j: int| 0 <= j < k ==> !s.keys[j])
                ==> s.step(r1).0.pc == s.pc + 2 && s.step(r1).0.regs[x as int] == k,
{
    lemma_fields_in_range(s.word_at_pc());
    assert(x < NUM_REGISTERS);
    let fetched = MachineView { pc: (s.pc + 2) as u16, ..s };
    assert forall|k: int|
        0 <= k < NUM_KEYS && s.keys[k] && (forall|j: int| 0 <= j < k ==> !s.keys[j]) implies
        s.step(r1).0.pc == s.pc + 2 && s.step(r1).0.regs[x as int] == k by {
        lemma_first_pressed(fetched, 0, k);
    }
    if forall|k: int| 0 <= k < NUM_KEYS ==> !s.keys[k] {
        lemma_none_pressed(fetched, 0);
        let t = s.step(r1).0;
        assert(t.pc == s.pc);
        assert(t.keys == s.keys);
        assert(t.memory == s.memory);
        assert(t.word_at_pc() == s.word_at_pc());
        lemma_none_pressed(MachineView { pc: (t.pc + 2) as u16, ..t }, 0);
    }
}

/// With no key pressed from `from` on, the search finds none.
pub proof fn lemma_none_pressed(s: MachineView, from: int)
    requires
        0 <= from <= NUM_KEYS,
        forall|k: int| from <= k < NUM_KEYS ==> !s.keys[k],
    ensures
        s.first_pressed(from) == NUM_KEYS,
    decreases NUM_KEYS - from,
{
    if from < NUM_KEYS {
        lemma_none_pressed(s, from + 1);
    }
}

/// The search from `from` finds the first pressed key `k` at or after `from`.
pub proof fn lemma_first_pressed(s: MachineView, from: int, k: int)
    requires
        0 <= from <= k < NUM_KEYS,
        s.keys[k],
        forall|j: int| from <= j < k ==> !s.keys[j],
    ensures
        s.first_pressed(from) == k,
    decreases k - from,
{
    if from < k {
        lemma_first_pressed(s, from + 1, k);
    }
}

/// The state after `n` timer ticks.
pub open spec fn ticks(s: MachineView, n: nat) -> MachineView
    decreases n,
{
    if n == 0 {
        s
    } else {
        ticks(s, (n - 1) as nat).tick_timers()
    }
}

/// After any number of timer ticks each timer stands at its start value less
/// the number of ticks, or at zero once that would go below zero; nothing else
/// changes.
pub proof fn lemma_timers_saturate(s: MachineView, n: nat)
    ensures
        ticks(s, n).delay == if s.delay >= n { s.delay - n } else { 0 },
        ticks(s, n).sound == if s.sound >= n { s.sound - n } else { 0 },
        ticks(s, n) == (MachineView { delay: ticks(s, n).delay, sound: ticks(s, n).sound, ..s }),
    decreases n,
{
    if n > 0 {
        lemma_timers_saturate(s, (n - 1) as nat);
    }
}

} // verus!
