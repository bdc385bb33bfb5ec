//! The abstract machine: the state of the interpreter as mathematical
//! sequences, and what each instruction does to it.

use vstd::prelude::*;

use crate::error::{EmuError, EmuResult};
use crate::{FONTSET, FONTSET_SIZE, NUM_KEYS, NUM_REGS, RAM_SIZE, SCREEN_HEIGHT, SCREEN_SIZE, SCREEN_WIDTH, STACK_SIZE, START_ADDR};

verus! {

/// The state of the machine, each array seen as a sequence.
#[verifier::ext_equal]
pub struct EmuState {
    pub pc: u16,
    pub ram: Seq<u8>,
    pub screen: Seq<bool>,
    pub v: Seq<u8>,
    pub i: u16,
    pub sp: u16,
    pub stack: Seq<u16>,
    pub keys: Seq<bool>,
    pub dt: u8,
    pub st: u8,
}

/// A state after an operation, with what the operation reported.
pub type Outcome = (EmuState, EmuResult);

impl EmuState {
    /// The sequences have the lengths of the machine's arrays, and the stack
    /// pointer stays within the stack.
    pub open spec fn wf(self) -> bool {
        &&& self.ram.len() == RAM_SIZE
        &&& self.screen.len() == SCREEN_SIZE
        &&& self.v.len() == NUM_REGS
        &&& self.stack.len() == STACK_SIZE
        &&& self.keys.len() == NUM_KEYS
        &&& self.sp <= STACK_SIZE
    }
}

/// The state right after power-on: the font at the bottom of memory, all
/// other memory, registers, stack, keys and timers zero, the screen dark, and
/// the program counter at the start address.
pub open spec fn initial_state() -> EmuState {
    EmuState {
        pc: START_ADDR,
        ram: Seq::new(RAM_SIZE as nat, |a: int| if a < FONTSET_SIZE { FONTSET@[a] } else { 0u8 }),
        screen: blank_screen(),
        v: Seq::new(NUM_REGS as nat, |k: int| 0u8),
        i: 0,
        sp: 0,
        stack: Seq::new(STACK_SIZE as nat, |k: int| 0u16),
        keys: Seq::new(NUM_KEYS as nat, |k: int| false),
        dt: 0,
        st: 0,
    }
}

/// A screen with every pixel off.
pub open spec fn blank_screen() -> Seq<bool> {
    Seq::new(SCREEN_SIZE as nat, |p: int| false)
}

/// The operation succeeded and left the machine in `s`.
pub open spec fn ok(s: EmuState) -> Outcome {
    (s, Ok(()))
}

/// The operation failed with `e`, the machine being in `s`.
pub open spec fn fail(s: EmuState, e: EmuError) -> Outcome {
    (s, Err(e))
}

// ---------------------------------------------------------------------------
// Fields of an instruction word `CXYN`, `CXNN`, `CNNN`.
// ---------------------------------------------------------------------------

/// The first hexadecimal digit: the instruction class.
pub open spec fn op_class(op: u16) -> int {
    op as int / 0x1000
}

/// The second digit: register `X`.
pub open spec fn op_x(op: u16) -> int {
    (op as int / 0x100) % 16
}

/// The third digit: register `Y`.
pub open spec fn op_y(op: u16) -> int {
    (op as int / 0x10) % 16
}

/// The last digit: `N`.
pub open spec fn op_n(op: u16) -> int {
    op as int % 16
}

/// The low byte: `NN`.
pub open spec fn op_nn(op: u16) -> u8 {
    (op as int % 0x100) as u8
}

/// The low twelve bits: address `NNN`.
pub open spec fn op_nnn(op: u16) -> u16 {
    (op as int % 0x1000) as u16
}

// ---------------------------------------------------------------------------
// Small state updates.
// ---------------------------------------------------------------------------

/// Skip the next instruction when `cond` holds.
pub open spec fn skip_if(s: EmuState, cond: bool) -> EmuState {
    if cond {
        EmuState { pc: (s.pc + 2) as u16, ..s }
    } else {
        s
    }
}

/// Write `VX`.
pub open spec fn set_v(s: EmuState, x: int, val: u8) -> EmuState {
    EmuState { v: s.v.update(x, val), ..s }
}

/// Write `VX`, then the flag register `VF` (so the flag wins when `x` is 0xF).
pub open spec fn set_v_flag(s: EmuState, x: int, val: u8, flag: u8) -> EmuState {
    EmuState { v: s.v.update(x, val).update(0xF, flag), ..s }
}

// ---------------------------------------------------------------------------
// The instructions.
// ---------------------------------------------------------------------------

/// `00EE`: return to the address on top of the stack.
pub open spec fn ret(s: EmuState) -> Outcome {
    if s.sp == 0 {
        fail(s, EmuError::StackUnderflow)
    } else {
        ok(EmuState { sp: (s.sp - 1) as u16, pc: s.stack[s.sp - 1], ..s })
    }
}

/// `2NNN`: push the program counter and jump to `NNN`.
pub open spec fn call(s: EmuState, nnn: u16) -> Outcome {
    if s.sp >= STACK_SIZE {
        fail(s, EmuError::StackOverflow)
    } else {
        ok(EmuState { stack: s.stack.update(s.sp as int, s.pc), sp: (s.sp + 1) as u16, pc: nnn, ..s })
    }
}

/// Wrapping sum of two bytes.
pub open spec fn add_u8(a: u8, b: u8) -> u8 {
    ((a + b) % 256) as u8
}

/// Wrapping difference of two bytes.
pub open spec fn sub_u8(a: u8, b: u8) -> u8 {
    ((a - b) % 256) as u8
}

/// `8XY4`: `VX += VY`, `VF` = carry.
pub open spec fn add_vx_vy(s: EmuState, x: int, y: int) -> EmuState {
    let vx = s.v[x];
    let vy = s.v[y];
    set_v_flag(s, x, add_u8(vx, vy), if vx + vy > 255 { 1 } else { 0 })
}

/// `8XY5`: `VX -= VY`, `VF` = 1 when no borrow.
pub open spec fn sub_vx_vy(s: EmuState, x: int, y: int) -> EmuState {
    let vx = s.v[x];
    let vy = s.v[y];
    set_v_flag(s, x, sub_u8(vx, vy), if vx >= vy { 1 } else { 0 })
}

/// `8XY7`: `VX = VY - VX`, `VF` = 1 when no borrow.
pub open spec fn subn_vx_vy(s: EmuState, x: int, y: int) -> EmuState {
    let vx = s.v[x];
    let vy = s.v[y];
    set_v_flag(s, x, sub_u8(vy, vx), if vy >= vx { 1 } else { 0 })
}

/// `8XY6`: `VX >>= 1`, `VF` = the bit shifted out.
pub open spec fn shr_vx(s: EmuState, x: int) -> EmuState {
    let vx = s.v[x];
    set_v_flag(s, x, vx / 2, vx % 2)
}

/// `8XYE`: `VX <<= 1`, `VF` = the bit shifted out.
pub open spec fn shl_vx(s: EmuState, x: int) -> EmuState {
    let vx = s.v[x];
    set_v_flag(s, x, ((vx * 2) % 256) as u8, vx / 128)
}

/// `EX9E` (`pressed`) and `EXA1` (`!pressed`): skip when key `VX` is in the
/// given state; `VX` must name a key.
pub open spec fn skip_key(s: EmuState, x: int, pressed: bool) -> Outcome {
    let vx = s.v[x];
    if vx >= NUM_KEYS {
        fail(s, EmuError::InvalidKey { key: vx })
    } else {
        ok(skip_if(s, s.keys[vx as int] == pressed))
    }
}

/// Some key is down.
pub open spec fn any_key_pressed(keys: Seq<bool>) -> bool {
    exists|k: int| 0 <= k < NUM_KEYS && keys[k]
}

/// `k` is the lowest key that is down.
pub open spec fn is_first_pressed(keys: Seq<bool>, k: int) -> bool {
    &&& 0 <= k < NUM_KEYS
    &&& keys[k]
    &&& forall|j: int| 0 <= j < k ==> !keys[j]
}

/// The lowest key that is down (meaningful when one is).
pub open spec fn first_pressed(keys: Seq<bool>) -> int {
    choose|k: int| is_first_pressed(keys, k)
}

/// `FX0A`: put the lowest pressed key in `VX`; with no key down, step back so
/// that the instruction runs again.
pub open spec fn wait_key(s: EmuState, x: int) -> EmuState {
    if any_key_pressed(s.keys) {
        set_v(s, x, first_pressed(s.keys) as u8)
    } else {
        EmuState { pc: (s.pc - 2) as u16, ..s }
    }
}

/// `FX33`: the decimal digits of `VX` at `I`, `I + 1`, `I + 2`.
pub open spec fn bcd(s: EmuState, x: int) -> Outcome {
    let vx = s.v[x];
    if s.i + 3 > RAM_SIZE {
        fail(s, EmuError::MemoryOutOfBounds { addr: s.i as usize, len: 3 })
    } else {
        ok(
            EmuState {
                ram: s.ram.update(s.i as int, vx / 100).update(s.i + 1, (vx % 100) / 10).update(
                    s.i + 2,
                    vx % 10,
                ),
                ..s
            },
        )
    }
}

/// `FX55`: store `V0..=VX` at `I..=I+X`.
pub open spec fn store_regs(s: EmuState, x: int) -> Outcome {
    if s.i + x + 1 > RAM_SIZE {
        fail(s, EmuError::MemoryOutOfBounds { addr: s.i as usize, len: (x + 1) as usize })
    } else {
        ok(
            EmuState {
                ram: Seq::new(
                    s.ram.len(),
                    |a: int| if s.i <= a <= s.i + x { s.v[a - s.i] } else { s.ram[a] },
                ),
                ..s
            },
        )
    }
}

/// `FX65`: load `V0..=VX` from `I..=I+X`.
pub open spec fn load_regs(s: EmuState, x: int) -> Outcome {
    if s.i + x + 1 > RAM_SIZE {
        fail(s, EmuError::MemoryOutOfBounds { addr: s.i as usize, len: (x + 1) as usize })
    } else {
        ok(
            EmuState {
                v: Seq::new(s.v.len(), |k: int| if k <= x { s.ram[s.i + k] } else { s.v[k] }),
                ..s
            },
        )
    }
}

// ---------------------------------------------------------------------------
// Sprites.
// ---------------------------------------------------------------------------

/// Bit `col` of a sprite row, counting from the most significant bit.
pub open spec fn sprite_bit(byte: u8, col: int) -> bool {
    byte & (0x80u8 >> (col as u8)) != 0
}

/// Sprite column that lands on pixel `p` when the sprite starts at column `vx`
/// (columns wrap around the screen).
pub open spec fn sprite_col(vx: u8, p: int) -> int {
    (p % (SCREEN_WIDTH as int) - vx) % (SCREEN_WIDTH as int)
}

/// Sprite row that lands on pixel `p` when the sprite starts at row `vy`
/// (rows wrap around the screen).
pub open spec fn sprite_row(vy: u8, p: int) -> int {
    (p / (SCREEN_WIDTH as int) - vy) % (SCREEN_HEIGHT as int)
}

/// Pixel `p` is covered by a set bit of the `n`-row sprite at `I` drawn at
/// `(vx, vy)`.
pub open spec fn sprite_hits(s: EmuState, vx: u8, vy: u8, n: int, p: int) -> bool {
    let c = sprite_col(vx, p);
    let r = sprite_row(vy, p);
    c < 8 && r < n && sprite_bit(s.ram[s.i + r], c)
}

/// Some pixel that was on is covered by the sprite.
pub open spec fn sprite_collides(s: EmuState, vx: u8, vy: u8, n: int) -> bool {
    exists|p: int| 0 <= p < SCREEN_SIZE && #[trigger] sprite_hits(s, vx, vy, n, p) && s.screen[p]
}

/// The screen after XOR-ing the sprite onto it.
pub open spec fn screen_after_draw(s: EmuState, vx: u8, vy: u8, n: int) -> Seq<bool> {
    Seq::new(SCREEN_SIZE as nat, |p: int| s.screen[p] != sprite_hits(s, vx, vy, n, p))
}

/// `DXYN`: XOR the `N`-row sprite at `I` onto the screen at `(VX, VY)`;
/// `VF` = 1 when a lit pixel was turned off.
pub open spec fn draw(s: EmuState, x: int, y: int, n: int) -> Outcome {
    if s.i + n > RAM_SIZE {
        fail(s, EmuError::MemoryOutOfBounds { addr: s.i as usize, len: n as usize })
    } else {
        let vx = s.v[x];
        let vy = s.v[y];
        ok(
            EmuState {
                screen: screen_after_draw(s, vx, vy, n),
                v: s.v.update(0xF, if sprite_collides(s, vx, vy, n) { 1u8 } else { 0u8 }),
                ..s
            },
        )
    }
}

// ---------------------------------------------------------------------------
// Decoding and executing one instruction word.
// ---------------------------------------------------------------------------

/// The skip instructions `3XNN`, `4XNN`, `5XY0`, `9XY0`, `EX9E`, `EXA1` whose
/// condition holds in `s` (the key forms only with a valid key number).
pub open spec fn skip_taken(s: EmuState, op: u16) -> bool {
    let c = op_class(op);
    let x = op_x(op);
    let y = op_y(op);
    let n = op_n(op);
    let vx = s.v[x];
    let vy = s.v[y];
    ||| c == 3 && vx == op_nn(op)
    ||| c == 4 && vx != op_nn(op)
    ||| c == 5 && n == 0 && vx == vy
    ||| c == 9 && n == 0 && vx != vy
    ||| c == 0xE && y == 9 && n == 0xE && vx < NUM_KEYS && s.keys[vx as int]
    ||| c == 0xE && y == 0xA && n == 1 && vx < NUM_KEYS && !s.keys[vx as int]
}

/// `FX0A` with no key down.
pub open spec fn waits_for_key(s: EmuState, op: u16) -> bool {
    op_class(op) == 0xF && op_y(op) == 0 && op_n(op) == 0xA && !any_key_pressed(s.keys)
}

/// The instruction can run without its program-counter arithmetic leaving
/// the range of `u16`.
pub open spec fn pc_arith_fits(s: EmuState, op: u16) -> bool {
    &&& skip_taken(s, op) ==> s.pc + 2 <= u16::MAX
    &&& waits_for_key(s, op) ==> s.pc >= 2
}

/// `op` is one of the instruction words the machine knows.
pub open spec fn is_instruction(op: u16) -> bool {
    let c = op_class(op);
    let y = op_y(op);
    let n = op_n(op);
    ||| op == 0x0000 || op == 0x00E0 || op == 0x00EE
    ||| c == 1 || c == 2 || c == 3 || c == 4 || c == 6 || c == 7
    ||| c == 5 && n == 0
    ||| c == 8 && (n <= 7 || n == 0xE)
    ||| c == 9 && n == 0
    ||| c == 0xA || c == 0xB || c == 0xC || c == 0xD
    ||| c == 0xE && ((y == 9 && n == 0xE) || (y == 0xA && n == 1))
    ||| c == 0xF && ((y == 0 && (n == 7 || n == 0xA)) || (y == 1 && (n == 5 || n == 8 || n == 0xE)) || (y
        == 2 && n == 9) || (y == 3 && n == 3) || ((y == 5 || y == 6) && n == 5))
}

/// What executing instruction word `op` does to `s`; `rnd` is the random byte
/// that `CXNN` uses (no other instruction reads it).
pub open spec fn execute(s: EmuState, op: u16, rnd: u8) -> Outcome {
    let c = op_class(op);
    let x = op_x(op);
    let y = op_y(op);
    let n = op_n(op);
    let nn = op_nn(op);
    let nnn = op_nnn(op);
    let vx = s.v[x];
    let vy = s.v[y];
    if op == 0x0000 {
        ok(s)
    } else if op == 0x00E0 {
        ok(EmuState { screen: blank_screen(), ..s })
    } else if op == 0x00EE {
        ret(s)
    } else if c == 1 {
        ok(EmuState { pc: nnn, ..s })
    } else if c == 2 {
        call(s, nnn)
    } else if c == 3 {
        ok(skip_if(s, vx == nn))
    } else if c == 4 {
        ok(skip_if(s, vx != nn))
    } else if c == 5 && n == 0 {
        ok(skip_if(s, vx == vy))
    } else if c == 6 {
        ok(set_v(s, x, nn))
    } else if c == 7 {
        ok(set_v(s, x, add_u8(vx, nn)))
    } else if c == 8 && n == 0 {
        ok(set_v(s, x, vy))
    } else if c == 8 && n == 1 {
        ok(set_v(s, x, vx | vy))
    } else if c == 8 && n == 2 {
        ok(set_v(s, x, vx & vy))
    } else if c == 8 && n == 3 {
        ok(set_v(s, x, vx ^ vy))
    } else if c == 8 && n == 4 {
        ok(add_vx_vy(s, x, y))
    } else if c == 8 && n == 5 {
        ok(sub_vx_vy(s, x, y))
    } else if c == 8 && n == 6 {
        ok(shr_vx(s, x))
    } else if c == 8 && n == 7 {
        ok(subn_vx_vy(s, x, y))
    } else if c == 8 && n == 0xE {
        ok(shl_vx(s, x))
    } else if c == 9 && n == 0 {
        ok(skip_if(s, vx != vy))
    } else if c == 0xA {
        ok(EmuState { i: nnn, ..s })
    } else if c == 0xB {
        ok(EmuState { pc: (s.v[0] + nnn) as u16, ..s })
    } else if c == 0xC {
        ok(set_v(s, x, rnd & nn))
    } else if c == 0xD {
        draw(s, x, y, n)
    } else if c == 0xE && y == 9 && n == 0xE {
        skip_key(s, x, true)
    } else if c == 0xE && y == 0xA && n == 1 {
        skip_key(s, x, false)
    } else if c == 0xF && y == 0 && n == 7 {
        ok(set_v(s, x, s.dt))
    } else if c == 0xF && y == 0 && n == 0xA {
        ok(wait_key(s, x))
    } else if c == 0xF && y == 1 && n == 5 {
        ok(EmuState { dt: vx, ..s })
    } else if c == 0xF && y == 1 && n == 8 {
        ok(EmuState { st: vx, ..s })
    } else if c == 0xF && y == 1 && n == 0xE {
        ok(EmuState { i: ((s.i + vx) % 0x10000) as u16, ..s })
    } else if c == 0xF && y == 2 && n == 9 {
        ok(EmuState { i: (vx * 5) as u16, ..s })
    } else if c == 0xF && y == 3 && n == 3 {
        bcd(s, x)
    } else if c == 0xF && y == 5 && n == 5 {
        store_regs(s, x)
    } else if c == 0xF && y == 6 && n == 5 {
        load_regs(s, x)
    } else {
        fail(s, EmuError::UnknownOpcode { opcode: op })
    }
}

// ---------------------------------------------------------------------------
// Fetching and one cycle.
// ---------------------------------------------------------------------------

/// Both bytes of the instruction at the program counter lie in memory.
pub open spec fn can_fetch(s: EmuState) -> bool {
    s.pc + 1 < RAM_SIZE
}

/// The big-endian instruction word at the program counter.
pub open spec fn fetched_op(s: EmuState) -> u16 {
    (s.ram[s.pc as int] * 256 + s.ram[s.pc + 1]) as u16
}

/// One cycle: fetch the instruction word, advance the program counter past
/// it, execute it.
pub open spec fn tick(s: EmuState, rnd: u8) -> Outcome {
    if !can_fetch(s) {
        fail(s, EmuError::PcOutOfBounds { pc: s.pc })
    } else {
        execute(EmuState { pc: (s.pc + 2) as u16, ..s }, fetched_op(s), rnd)
    }
}

/// The delay and sound timers after one timer tick: each counts down by one
/// and stops at zero.
pub open spec fn tick_timers(s: EmuState) -> EmuState {
    EmuState {
        dt: if s.dt > 0 { (s.dt - 1) as u8 } else { 0 },
        st: if s.st > 0 { (s.st - 1) as u8 } else { 0 },
        ..s
    }
}

/// Memory after copying `data` to the start address.
pub open spec fn ram_after_load(ram: Seq<u8>, data: Seq<u8>) -> Seq<u8> {
    Seq::new(
        ram.len(),
        |a: int|
            if START_ADDR <= a < START_ADDR + data.len() {
                data[a - START_ADDR]
            } else {
                ram[a]
            },
    )
}

} // verus!
