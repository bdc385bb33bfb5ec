//! The machine itself and the operations that drive it from outside.

use vstd::prelude::*;

use crate::error::{EmuError, EmuResult};
use crate::model::{self, EmuState};
use crate::{FONTSET, FONTSET_SIZE, NUM_KEYS, NUM_REGS, RAM_SIZE, SCREEN_SIZE, STACK_SIZE, START_ADDR};

verus! {

/// A CHIP-8 machine.
pub struct Emu {
    /// Address of the next instruction.
    pub pc: u16,
    /// Main memory; the font sits at the bottom, programs from `START_ADDR`.
    pub ram: [u8; RAM_SIZE],
    /// The frame buffer, row by row, `true` for a lit pixel.
    pub screen: [bool; SCREEN_SIZE],
    /// Registers `V0` to `VF`; `VF` doubles as the flag register.
    pub v_reg: [u8; NUM_REGS],
    /// The index register `I`.
    pub i_reg: u16,
    /// Number of return addresses on the stack.
    pub sp: u16,
    /// Return addresses of the calls in progress.
    pub stack: [u16; STACK_SIZE],
    /// Which keys of the keypad are down.
    pub keys: [bool; NUM_KEYS],
    /// The delay timer.
    pub dt: u8,
    /// The sound timer.
    pub st: u8,
}

impl View for Emu {
    type V = EmuState;

    open spec fn view(&self) -> EmuState {
        EmuState {
            pc: self.pc,
            ram: self.ram@,
            screen: self.screen@,
            v: self.v_reg@,
            i: self.i_reg,
            sp: self.sp,
            stack: self.stack@,
            keys: self.keys@,
            dt: self.dt,
            st: self.st,
        }
    }
}

impl Emu {
    /// The stack pointer stays within the stack (the other fields are
    /// arrays of fixed length).
    pub open spec fn wf(&self) -> bool {
        self.sp <= STACK_SIZE
    }

    /// Copies the font to the bottom of memory.
    fn load_font(&mut self)
        ensures
            final(self)@ == (EmuState {
                ram: Seq::new(
                    RAM_SIZE as nat,
                    |a: int| if a < FONTSET_SIZE { FONTSET@[a] } else { old(self).ram@[a] },
                ),
                ..old(self)@
            }),
    {
        let mut k: usize = 0;
        while k < FONTSET_SIZE
            invariant
                k <= FONTSET_SIZE,
                self@ == (EmuState { ram: self.ram@, ..old(self)@ }),
                forall|a: int| 0 <= a < k ==> self.ram@[a] == FONTSET@[a],
                forall|a: int| k <= a < RAM_SIZE ==> self.ram@[a] == old(self).ram@[a],
            decreases FONTSET_SIZE - k,
        {
            self.ram[k] = FONTSET[k];
            k = k + 1;
        }
        assert(self.ram@ =~= Seq::new(
            RAM_SIZE as nat,
            |a: int| if a < FONTSET_SIZE { FONTSET@[a] } else { old(self).ram@[a] },
        ));
    }

    /// A machine in its power-on state.
    pub fn new() -> (e: Self)
        ensures
            e@ == model::initial_state(),
            e.wf(),
    {
        let mut new_emu = Emu {
            pc: START_ADDR,
            ram: [0u8; RAM_SIZE],
            screen: [false; SCREEN_SIZE],
            v_reg: [0u8; NUM_REGS],
            i_reg: 0,
            sp: 0,
            stack: [0u16; STACK_SIZE],
            keys: [false; NUM_KEYS],
            dt: 0,
            st: 0,
        };
        new_emu.load_font();
        assert(new_emu.screen@ =~= model::blank_screen());
        assert(new_emu.v_reg@ =~= model::initial_state().v);
        assert(new_emu.stack@ =~= model::initial_state().stack);
        assert(new_emu.keys@ =~= model::initial_state().keys);
        assert(new_emu.ram@ =~= model::initial_state().ram);
        new_emu
    }

    /// Puts the machine back in its power-on state, whatever it held.
    pub fn reset(&mut self)
        ensures
            final(self)@ == model::initial_state(),
            final(self).wf(),
    {
        self.pc = START_ADDR;
        self.ram = [0u8; RAM_SIZE];
        self.screen = [false; SCREEN_SIZE];
        self.v_reg = [0u8; NUM_REGS];
        self.i_reg = 0;
        self.sp = 0;
        self.stack = [0u16; STACK_SIZE];
        self.keys = [false; NUM_KEYS];
        self.dt = 0;
        self.st = 0;
        self.load_font();
        assert(self.screen@ =~= model::blank_screen());
        assert(self.v_reg@ =~= model::initial_state().v);
        assert(self.stack@ =~= model::initial_state().stack);
        assert(self.keys@ =~= model::initial_state().keys);
        assert(self.ram@ =~= model::initial_state().ram);
    }
    /// Counts both timers down by one, stopping at zero.
    pub fn tick_timers(&mut self)
        ensures
            final(self)@ == model::tick_timers(old(self)@),
    {
        if self.dt > 0 {
            self.dt -= 1;
        }
        if self.st > 0 {
            if self.st == 1 {
                // The sound timer runs out here: this is where a beep ends.
            }
            self.st -= 1;
        }
    }

    /// The frame buffer, row by row.
    pub fn get_display(&self) -> (d: &[bool])
        ensures
            d@ == self.screen@,
    {
        &self.screen
    }

    /// Records that key `idx` went down (`pressed`) or up.
    pub fn keypress(&mut self, idx: usize, pressed: bool)
        requires
            idx < NUM_KEYS,
        ensures
            final(self)@ == (EmuState { keys: old(self)@.keys.update(idx as int, pressed), ..old(self)@ }),
    {
        self.keys[idx] = pressed;
    }

    /// Copies a program into memory at the start address.
    pub fn load(&mut self, data: &[u8])
        requires
            START_ADDR + data@.len() <= RAM_SIZE,
        ensures
            final(self)@ == (EmuState {
                ram: model::ram_after_load(old(self)@.ram, data@),
                ..old(self)@
            }),
    {
        let start = START_ADDR as usize;
        let end = (START_ADDR as usize) + data.len();
        let mut k: usize = 0;
        while k < data.len()
            invariant
                start == START_ADDR,
                end == start + data@.len(),
                end <= RAM_SIZE,
                k <= data@.len(),
                self@ == (EmuState { ram: self.ram@, ..old(self)@ }),
                forall|a: int|
                    0 <= a < RAM_SIZE ==> #[trigger] self.ram@[a] == (if start <= a < start + k {
                        data@[a - start]
                    } else {
                        old(self).ram@[a]
                    }),
            decreases data@.len() - k,
        {
            self.ram[start + k] = data[k];
            k = k + 1;
        }
        assert(self.ram@ =~= model::ram_after_load(old(self)@.ram, data@));
    }

    /// Reads the instruction word at the program counter and moves the
    /// program counter past it.
    pub(crate) fn fetch(&mut self) -> (r: EmuResult<u16>)
        ensures
            model::can_fetch(old(self)@) ==> r == Ok::<u16, EmuError>(model::fetched_op(old(self)@))
                && final(self)@ == (EmuState { pc: (old(self).pc + 2) as u16, ..old(self)@ }),
            !model::can_fetch(old(self)@) ==> r == Err::<u16, EmuError>(EmuError::PcOutOfBounds { pc: old(self).pc })
                && final(self)@ == old(self)@,
    {
        let pc = self.pc as usize;
        let out_of_bounds = match pc.checked_add(1) {
            None => true,
            Some(last) => last >= RAM_SIZE,
        };
        if out_of_bounds {
            return Err(EmuError::PcOutOfBounds { pc: self.pc });
        }
        let higher_byte = self.ram[pc] as u16;
        let lower_byte = self.ram[pc + 1] as u16;
        let op = (higher_byte << 8) | lower_byte;
        proof {
            crate::ops::lemma_join_bytes(higher_byte, lower_byte);
        }
        self.pc += 2;
        Ok(op)
    }

    /// The memory range `addr..addr + len`, when it lies inside memory.
    pub(crate) fn checked_ram_range(&self, addr: usize, len: usize) -> (r: EmuResult<core::ops::Range<usize>>)
        ensures
            addr + len <= RAM_SIZE ==> (r matches Ok(range) && range.start == addr && range.end == addr + len),
            addr + len > RAM_SIZE ==> r == Err::<core::ops::Range<usize>, EmuError>(EmuError::MemoryOutOfBounds { addr, len }),
    {
        let end = match addr.checked_add(len) {
            Some(end) => end,
            None => {
                return Err(EmuError::MemoryOutOfBounds { addr, len });
            },
        };
        if end > RAM_SIZE {
            return Err(EmuError::MemoryOutOfBounds { addr, len });
        }
        Ok(addr..end)
    }

    /// Pushes a return address.
    pub(crate) fn push(&mut self, val: u16) -> (r: EmuResult)
        requires
            old(self).wf(),
        ensures
            final(self).wf(),
            old(self).sp >= STACK_SIZE ==> r == Err::<(), EmuError>(EmuError::StackOverflow) && final(self)@ == old(self)@,
            old(self).sp < STACK_SIZE ==> r == Ok::<(), EmuError>(()) && final(self)@ == (EmuState {
                stack: old(self)@.stack.update(old(self).sp as int, val),
                sp: (old(self).sp + 1) as u16,
                ..old(self)@
            }),
    {
        if self.sp as usize >= STACK_SIZE {
            return Err(EmuError::StackOverflow);
        }
        self.stack[self.sp as usize] = val;
        self.sp += 1;
        Ok(())
    }

    /// Pops the most recent return address.
    pub(crate) fn pop(&mut self) -> (r: EmuResult<u16>)
        requires
            old(self).wf(),
        ensures
            final(self).wf(),
            old(self).sp == 0 ==> r == Err::<u16, EmuError>(EmuError::StackUnderflow) && final(self)@ == old(self)@,
            old(self).sp > 0 ==> r == Ok::<u16, EmuError>(old(self).stack@[old(self).sp - 1])
                && final(self)@ == (EmuState { sp: (old(self).sp - 1) as u16, ..old(self)@ }),
    {
        if self.sp == 0 {
            return Err(EmuError::StackUnderflow);
        }
        self.sp -= 1;
        Ok(self.stack[self.sp as usize])
    }
}


impl Default for Emu {
    /// The power-on state, as [`Emu::new`] makes it.
    fn default() -> (e: Self)
        ensures
            e@ == model::initial_state(),
            e.wf(),
    {
        Self::new()
    }
}

} // verus!
