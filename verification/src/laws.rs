//! Properties of the machine that span instructions or hold of every state.

use vstd::prelude::*;

use crate::error::EmuError;
use crate::model::{self, EmuState};
use crate::{FONTSET_SIZE, NUM_KEYS, RAM_SIZE, SCREEN_SIZE, STACK_SIZE};

verus! {

/// An instruction that fails leaves the machine exactly as it was, and the
/// error names the one check that failed: an empty stack for `00EE`, a full
/// one for `2NNN`, a register that names no key for `EX9E`/`EXA1`, memory
/// past its end from `I` for `DXYN`, `FX33`, `FX55`, `FX65`, and otherwise an
/// unknown instruction word.
pub proof fn lemma_failed_execute_changes_nothing(s: EmuState, op: u16, rnd: u8)
    requires
        s.wf(),
    ensures
        ({
            let (s2, r) = model::execute(s, op, rnd);
            let c = model::op_class(op);
            let x = model::op_x(op);
            let y = model::op_y(op);
            let n = model::op_n(op);
            &&& r is Err ==> s2 == s
            &&& r == Err::<(), EmuError>(EmuError::StackUnderflow) ==> op == 0x00EE && s.sp == 0
            &&& r == Err::<(), EmuError>(EmuError::StackOverflow) ==> c == 2 && s.sp >= STACK_SIZE
            &&& r matches Err(EmuError::InvalidKey { key }) ==> {
                &&& c == 0xE
                &&& (y == 9 && n == 0xE) || (y == 0xA && n == 1)
                &&& key == s.v[x]
                &&& key >= NUM_KEYS
            }
            &&& r matches Err(EmuError::MemoryOutOfBounds { addr, len }) ==> {
                &&& addr == s.i
                &&& s.i + len > RAM_SIZE
                &&& {
                    ||| c == 0xD && len == n
                    ||| c == 0xF && y == 3 && n == 3 && len == 3
                    ||| c == 0xF && (y == 5 || y == 6) && n == 5 && len == x + 1
                }
            }
            &&& (r matches Err(EmuError::UnknownOpcode { .. })) <==> !model::is_instruction(op)
            &&& r matches Err(EmuError::UnknownOpcode { opcode }) ==> opcode == op
            &&& !(r matches Err(EmuError::PcOutOfBounds { .. }))
        }),
{
}

/// What each instruction may touch: the keys never change; the program
/// counter only for returns, jumps, calls, skips and key waits; the stack
/// only for calls and returns; memory only for `FX33` and `FX55`; the screen
/// only for `00E0` and `DXYN`; `I` only for `ANNN`, `FX1E`, `FX29`; the timers
/// only for `FX15` and `FX18`.
pub proof fn lemma_execute_frame(s: EmuState, op: u16, rnd: u8)
    requires
        s.wf(),
    ensures
        ({
            let s2 = model::execute(s, op, rnd).0;
            let c = model::op_class(op);
            let y = model::op_y(op);
            let n = model::op_n(op);
            &&& s2.keys == s.keys
            &&& s2.pc != s.pc ==> {
                ||| op == 0x00EE
                ||| c == 1 || c == 2 || c == 3 || c == 4 || c == 0xB
                ||| (c == 5 || c == 9) && n == 0
                ||| c == 0xE && ((y == 9 && n == 0xE) || (y == 0xA && n == 1))
                ||| c == 0xF && y == 0 && n == 0xA
            }
            &&& (s2.sp != s.sp || s2.stack != s.stack) ==> op == 0x00EE || c == 2
            &&& s2.ram != s.ram ==> c == 0xF && ((y == 3 && n == 3) || (y == 5 && n == 5))
            &&& s2.screen != s.screen ==> op == 0x00E0 || c == 0xD
            &&& s2.i != s.i ==> c == 0xA || (c == 0xF && ((y == 1 && n == 0xE) || (y == 2 && n == 9)))
            &&& s2.dt != s.dt ==> c == 0xF && y == 1 && n == 5
            &&& s2.st != s.st ==> c == 0xF && y == 1 && n == 8
        }),
{
}

/// A cycle that fails either could not fetch, and then changed nothing, or
/// fetched an instruction that failed, and then only moved the program
/// counter past it.
pub proof fn lemma_failed_tick_changes_only_pc(s: EmuState, rnd: u8)
    requires
        s.wf(),
    ensures
        model::tick(s, rnd).1 is Err ==> model::tick(s, rnd).0 == s || model::tick(s, rnd).0 == (
        EmuState { pc: (s.pc + 2) as u16, ..s }),
        !model::can_fetch(s) ==> model::tick(s, rnd) == model::fail(
            s,
            EmuError::PcOutOfBounds { pc: s.pc },
        ),
{
    if model::can_fetch(s) {
        lemma_failed_execute_changes_nothing(
            EmuState { pc: (s.pc + 2) as u16, ..s },
            model::fetched_op(s),
            rnd,
        );
    }
}

/// Every instruction keeps the machine well formed: the arrays keep their
/// lengths and the stack pointer stays within the stack.
pub proof fn lemma_execute_keeps_wf(s: EmuState, op: u16, rnd: u8)
    requires
        s.wf(),
    ensures
        model::execute(s, op, rnd).0.wf(),
{
}

/// Only `CXNN` depends on the random byte: every other instruction does the
/// same whatever byte is supplied.
pub proof fn lemma_only_rnd_reads_random(s: EmuState, op: u16, rnd1: u8, rnd2: u8)
    requires
        model::op_class(op) != 0xC,
    ensures
        model::execute(s, op, rnd1) == model::execute(s, op, rnd2),
{
}

/// `CXNN` leaves in `VX` only bits that are set in `NN`.
pub proof fn lemma_rnd_is_masked(s: EmuState, op: u16, rnd: u8)
    requires
        s.wf(),
        model::op_class(op) == 0xC,
    ensures
        model::execute(s, op, rnd).0.v[model::op_x(op)] & !model::op_nn(op) == 0,
{
    let nn = model::op_nn(op);
    assert((rnd & nn) & !nn == 0) by (bit_vector);
}

/// A call followed by a return comes back to the instruction after the call,
/// with the stack as it was.
pub proof fn lemma_call_then_ret(s: EmuState, nnn: u16, rnd1: u8, rnd2: u8)
    requires
        s.wf(),
        s.sp < STACK_SIZE,
        nnn < 0x1000,
    ensures
        ({
            let (s1, r1) = model::execute(s, (0x2000 + nnn) as u16, rnd1);
            let (s2, r2) = model::execute(s1, 0x00EE, rnd2);
            &&& r1 is Ok
            &&& s1.pc == nnn
            &&& r2 is Ok
            &&& s2.pc == s.pc
            &&& s2.sp == s.sp
            &&& forall|k: int| 0 <= k < s.sp ==> s2.stack[k] == s.stack[k]
        }),
{
    let op = (0x2000 + nnn) as u16;
    assert(model::op_class(op) == 2);
    assert(model::op_nnn(op) == nnn);
}

/// Returning with an empty stack and calling with a full one are refused,
/// and change nothing.
pub proof fn lemma_stack_limits(s: EmuState, nnn: u16, rnd: u8)
    requires
        s.wf(),
        nnn < 0x1000,
    ensures
        s.sp == 0 ==> model::execute(s, 0x00EE, rnd) == model::fail(s, EmuError::StackUnderflow),
        s.sp == STACK_SIZE ==> model::execute(s, (0x2000 + nnn) as u16, rnd) == model::fail(
            s,
            EmuError::StackOverflow,
        ),
{
    let op = (0x2000 + nnn) as u16;
    assert(model::op_class(op) == 2);
    assert(model::op_nnn(op) == nnn);
}

/// `FX55` followed by `FX65` with the same `X` and `I` gives every register
/// its old value back.
pub proof fn lemma_store_then_load_regs(s: EmuState, x: u16, rnd1: u8, rnd2: u8)
    requires
        s.wf(),
        x < 16,
        s.i + x + 1 <= RAM_SIZE,
    ensures
        ({
            let (s1, r1) = model::execute(s, (0xF055 + x * 0x100) as u16, rnd1);
            let (s2, r2) = model::execute(s1, (0xF065 + x * 0x100) as u16, rnd2);
            &&& r1 is Ok
            &&& r2 is Ok
            &&& s2.v == s.v
            &&& forall|k: int| 0 <= k <= x ==> s1.ram[s.i + k] == s.v[k]
        }),
{
    let st = (0xF055 + x * 0x100) as u16;
    let ld = (0xF065 + x * 0x100) as u16;
    assert(model::op_class(st) == 0xF && model::op_x(st) == x && model::op_y(st) == 5 && model::op_n(st) == 5);
    assert(model::op_class(ld) == 0xF && model::op_x(ld) == x && model::op_y(ld) == 6 && model::op_n(ld) == 5);
    let s1 = model::execute(s, st, rnd1).0;
    let s2 = model::execute(s1, ld, rnd2).0;
    assert(s2.v =~= s.v);
}

/// `FX33` writes three decimal digits that spell `VX` at `I`, `I + 1`,
/// `I + 2` and changes nothing else; when they do not fit in memory it is
/// refused and changes nothing.
pub proof fn lemma_bcd_digits(s: EmuState, x: int, rnd: u8)
    requires
        s.wf(),
        0 <= x < 16,
    ensures
        ({
            let (s2, r) = model::execute(s, (0xF033 + x * 0x100) as u16, rnd);
            let i = s.i as int;
            let vx = s.v[x];
            &&& i + 3 <= RAM_SIZE ==> {
                &&& r is Ok
                &&& s2.ram[i] == vx / 100
                &&& s2.ram[i + 1] == (vx / 10) % 10
                &&& s2.ram[i + 2] == vx % 10
                &&& s2.ram[i] < 10 && s2.ram[i + 1] < 10 && s2.ram[i + 2] < 10
                &&& 100 * s2.ram[i] + 10 * s2.ram[i + 1] + s2.ram[i + 2] == vx
                &&& forall|a: int| 0 <= a < RAM_SIZE && !(i <= a < i + 3) ==> s2.ram[a] == s.ram[a]
                &&& s2 == (EmuState { ram: s2.ram, ..s })
            }
            &&& i + 3 > RAM_SIZE ==> r == Err::<(), EmuError>(EmuError::MemoryOutOfBounds { addr: s.i as usize, len: 3 })
                && s2 == s
        }),
{
    let op = (0xF033 + x * 0x100) as u16;
    assert(model::op_class(op) == 0xF && model::op_x(op) == x && model::op_y(op) == 3 && model::op_n(op) == 3);
}

/// `FX55` copies `V0..=VX` to `I..=I+X` and changes nothing else (`I` keeps
/// its value); when that range leaves memory it is refused and changes
/// nothing.
pub proof fn lemma_store_regs(s: EmuState, x: int, rnd: u8)
    requires
        s.wf(),
        0 <= x < 16,
    ensures
        ({
            let (s2, r) = model::execute(s, (0xF055 + x * 0x100) as u16, rnd);
            let i = s.i as int;
            &&& i + x + 1 <= RAM_SIZE ==> {
                &&& r is Ok
                &&& forall|k: int| 0 <= k <= x ==> s2.ram[i + k] == s.v[k]
                &&& forall|a: int| 0 <= a < RAM_SIZE && !(i <= a <= i + x) ==> s2.ram[a] == s.ram[a]
                &&& s2 == (EmuState { ram: s2.ram, ..s })
            }
            &&& i + x + 1 > RAM_SIZE ==> r == Err::<(), EmuError>(
                EmuError::MemoryOutOfBounds { addr: s.i as usize, len: (x + 1) as usize },
            ) && s2 == s
        }),
{
    let op = (0xF055 + x * 0x100) as u16;
    assert(model::op_class(op) == 0xF && model::op_x(op) == x && model::op_y(op) == 5 && model::op_n(op) == 5);
}

/// When some key is down, there is a lowest one.
pub proof fn lemma_first_pressed_exists(keys: Seq<bool>, k: int)
    requires
        0 <= k < NUM_KEYS,
        keys[k],
    ensures
        model::is_first_pressed(keys, model::first_pressed(keys)),
    decreases k,
{
    if exists|j: int| 0 <= j < k && keys[j] {
        let j = choose|j: int| 0 <= j < k && keys[j];
        lemma_first_pressed_exists(keys, j);
    } else {
        assert(model::is_first_pressed(keys, k));
    }
}

/// `FX0A` puts the lowest key that is down into `VX` and moves on; with no
/// key down it steps the program counter back so as to run again. Nothing
/// else changes.
pub proof fn lemma_wait_key(s: EmuState, x: int, rnd: u8)
    requires
        s.wf(),
        0 <= x < 16,
    ensures
        ({
            let (s2, r) = model::execute(s, (0xF00A + x * 0x100) as u16, rnd);
            &&& r is Ok
            &&& (exists|k: int| 0 <= k < NUM_KEYS && s.keys[k]) ==> {
                &&& s2.v[x] < NUM_KEYS
                &&& s.keys[s2.v[x] as int]
                &&& forall|j: int| 0 <= j < s2.v[x] ==> !s.keys[j]
                &&& s2 == (EmuState { v: s.v.update(x, s2.v[x]), ..s })
            }
            &&& (forall|k: int| 0 <= k < NUM_KEYS ==> !s.keys[k]) ==> s2 == (EmuState { pc: (s.pc - 2) as u16, ..s })
        }),
{
    let op = (0xF00A + x * 0x100) as u16;
    assert(model::op_class(op) == 0xF && model::op_x(op) == x && model::op_y(op) == 0 && model::op_n(op) == 0xA);
    if model::any_key_pressed(s.keys) {
        let k = choose|k: int| 0 <= k < NUM_KEYS && s.keys[k];
        lemma_first_pressed_exists(s.keys, k);
        let f = model::first_pressed(s.keys);
        assert(model::execute(s, op, rnd).0.v[x] == f as u8);
    }
}

/// With no key down, `FX0A` runs again on the next cycle: the cycle leaves
/// the whole machine unchanged.
pub proof fn lemma_wait_key_repeats(s: EmuState, rnd: u8)
    requires
        s.wf(),
        model::can_fetch(s),
        model::op_class(model::fetched_op(s)) == 0xF,
        model::op_y(model::fetched_op(s)) == 0,
        model::op_n(model::fetched_op(s)) == 0xA,
        !model::any_key_pressed(s.keys),
    ensures
        model::tick(s, rnd) == model::ok(s),
{
    let s1 = EmuState { pc: (s.pc + 2) as u16, ..s };
    assert(model::tick(s, rnd).0 =~= s);
}

/// Drawing the same sprite twice at the same place (with neither coordinate
/// in `VF`) restores the screen; and when the first drawing turned no pixel
/// off, the second reports a collision exactly when the sprite covers some
/// pixel.
pub proof fn lemma_draw_twice_restores_screen(s: EmuState, x: int, y: int, n: int)
    requires
        s.wf(),
        0 <= x < 15,
        0 <= y < 15,
        0 <= n < 16,
        s.i + n <= RAM_SIZE,
    ensures
        model::draw(model::draw(s, x, y, n).0, x, y, n).0.screen == s.screen,
        model::draw(model::draw(s, x, y, n).0, x, y, n).1 is Ok,
        model::draw(s, x, y, n).0.v[0xF] == 0 ==> (model::draw(model::draw(s, x, y, n).0, x, y, n).0.v[0xF]
            == 1 <==> exists|p: int| 0 <= p < SCREEN_SIZE && #[trigger] model::sprite_hits(s, s.v[x], s.v[y], n, p)),
{
    let s1 = model::draw(s, x, y, n).0;
    let s2 = model::draw(s1, x, y, n).0;
    let vx = s.v[x];
    let vy = s.v[y];
    assert(s1.v[x] == vx);
    assert(s1.v[y] == vy);
    assert forall|p: int| 0 <= p < SCREEN_SIZE implies model::sprite_hits(s1, vx, vy, n, p)
        == model::sprite_hits(s, vx, vy, n, p) by {}
    assert(s2.screen =~= s.screen);
    if s1.v[0xF] == 0 {
        assert(!model::sprite_collides(s, vx, vy, n));
        if exists|p: int| 0 <= p < SCREEN_SIZE && #[trigger] model::sprite_hits(s, vx, vy, n, p) {
            let w = choose|p: int| 0 <= p < SCREEN_SIZE && #[trigger] model::sprite_hits(s, vx, vy, n, p);
            assert(!s.screen[w]);
            assert(s1.screen[w]);
            assert(model::sprite_hits(s1, vx, vy, n, w));
            assert(model::sprite_collides(s1, vx, vy, n));
        }
        if model::sprite_collides(s1, vx, vy, n) {
            let w = choose|p: int| 0 <= p < SCREEN_SIZE && #[trigger] model::sprite_hits(s1, vx, vy, n, p) && s1.screen[p];
            assert(model::sprite_hits(s, vx, vy, n, w));
        }
    }
}

/// The font sprite for digit `VX` (when `VX` is a digit) lies inside the
/// font: `FX29` points `I` at its five bytes.
pub proof fn lemma_font_sprite_in_font(s: EmuState, x: int)
    requires
        s.wf(),
        0 <= x < 16,
        s.v[x] < 16,
    ensures
        ({
            let op = (0xF029 + x * 0x100) as u16;
            let s1 = model::execute(s, op, 0).0;
            &&& s1.i == s.v[x] * 5
            &&& s1.i + 5 <= FONTSET_SIZE
        }),
{
    let op = (0xF029 + x * 0x100) as u16;
    assert(model::op_class(op) == 0xF && model::op_x(op) == x && model::op_y(op) == 2 && model::op_n(op) == 9);
}

/// A timer tick never raises a timer, and lowers each running timer by one.
pub proof fn lemma_timers_count_down(s: EmuState)
    ensures
        model::tick_timers(s).dt <= s.dt,
        model::tick_timers(s).st <= s.st,
        s.dt > 0 ==> model::tick_timers(s).dt == s.dt - 1,
        s.st > 0 ==> model::tick_timers(s).st == s.st - 1,
        s.dt == 0 ==> model::tick_timers(s).dt == 0,
        s.st == 0 ==> model::tick_timers(s).st == 0,
        model::tick_timers(s) == (EmuState { dt: model::tick_timers(s).dt, st: model::tick_timers(s).st, ..s }),
{
}

/// A key instruction whose register names no key is refused.
pub proof fn lemma_invalid_key_refused(s: EmuState, x: int, rnd: u8)
    requires
        s.wf(),
        0 <= x < 16,
        s.v[x] >= NUM_KEYS,
    ensures
        model::execute(s, (0xE09E + x * 0x100) as u16, rnd) == model::fail(s, EmuError::InvalidKey { key: s.v[x] }),
        model::execute(s, (0xE0A1 + x * 0x100) as u16, rnd) == model::fail(s, EmuError::InvalidKey { key: s.v[x] }),
{
    let a = (0xE09E + x * 0x100) as u16;
    let b = (0xE0A1 + x * 0x100) as u16;
    assert(model::op_class(a) == 0xE && model::op_x(a) == x && model::op_y(a) == 9 && model::op_n(a) == 0xE);
    assert(model::op_class(b) == 0xE && model::op_x(b) == x && model::op_y(b) == 0xA && model::op_n(b) == 1);
}

/// The power-on state: the font at the bottom of memory and zeros above it,
/// a dark screen, all registers, stack entries, keys and timers zero, the
/// stack empty, and the program counter at the start address.
pub proof fn lemma_power_on_state()
    ensures
        ({
            let s = model::initial_state();
            &&& s.wf()
            &&& s.pc == 0x200
            &&& s.i == 0 && s.sp == 0 && s.dt == 0 && s.st == 0
            &&& forall|a: int| 0 <= a < FONTSET_SIZE ==> #[trigger] s.ram[a] == crate::FONTSET@[a]
            &&& forall|a: int| FONTSET_SIZE <= a < RAM_SIZE ==> #[trigger] s.ram[a] == 0
            &&& forall|p: int| 0 <= p < SCREEN_SIZE ==> !#[trigger] s.screen[p]
            &&& forall|k: int| 0 <= k < 16 ==> #[trigger] s.v[k] == 0 && s.stack[k] == 0 && !s.keys[k]
        }),
{
}

/// Loading a program puts its bytes at the start address onwards, in order,
/// and leaves every other byte of memory as it was.
pub proof fn lemma_load_places_program(ram: Seq<u8>, data: Seq<u8>)
    requires
        ram.len() == RAM_SIZE,
        0x200 + data.len() <= RAM_SIZE,
    ensures
        ({
            let r = model::ram_after_load(ram, data);
            &&& r.len() == RAM_SIZE
            &&& forall|k: int| 0 <= k < data.len() ==> #[trigger] r[0x200 + k] == data[k]
            &&& forall|a: int| 0 <= a < RAM_SIZE && (a < 0x200 || a >= 0x200 + data.len()) ==> #[trigger] r[a] == ram[a]
        }),
{
    let r = model::ram_after_load(ram, data);
    assert forall|k: int| 0 <= k < data.len() implies #[trigger] r[0x200 + k] == data[k] by {
        assert(r[0x200 + k] == data[0x200 + k - 0x200]);
    }
}

} // verus!
