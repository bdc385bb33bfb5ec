//! What each instruction does, stated directly in terms of the registers,
//! memory and screen before and after, for every machine state and every
//! instruction word of its form.

use vstd::prelude::*;

use crate::error::EmuError;
use crate::draw::{cell_pixel, lemma_cell_pixel};
use crate::model::{self, EmuState};
use crate::{NUM_KEYS, RAM_SIZE, SCREEN_SIZE, STACK_SIZE};

verus! {

/// The instruction word with hexadecimal digits `c x y n`.
pub open spec fn word(c: int, x: int, y: int, n: int) -> u16 {
    (c * 0x1000 + x * 0x100 + y * 0x10 + n) as u16
}

/// The instruction word `c x NN`.
pub open spec fn word_nn(c: int, x: int, nn: int) -> u16 {
    (c * 0x1000 + x * 0x100 + nn) as u16
}

/// The instruction word `c NNN`.
pub open spec fn word_nnn(c: int, nnn: int) -> u16 {
    (c * 0x1000 + nnn) as u16
}

/// The decoder reads back the digits a word was made of.
pub proof fn lemma_word_fields(c: int, x: int, y: int, n: int)
    requires
        0 <= c < 16,
        0 <= x < 16,
        0 <= y < 16,
        0 <= n < 16,
    ensures
        model::op_class(word(c, x, y, n)) == c,
        model::op_x(word(c, x, y, n)) == x,
        model::op_y(word(c, x, y, n)) == y,
        model::op_n(word(c, x, y, n)) == n,
        model::op_nn(word(c, x, y, n)) == y * 16 + n,
        model::op_nnn(word(c, x, y, n)) == x * 256 + y * 16 + n,
        word(c, x, y, n) == word_nn(c, x, y * 16 + n),
        word(c, x, y, n) == word_nnn(c, x * 256 + y * 16 + n),
{
    let w = c * 0x1000 + x * 0x100 + y * 0x10 + n;
    assert(0 <= w < 0x10000);
    assert(word(c, x, y, n) as int == w);
    vstd::arithmetic::div_mod::lemma_fundamental_div_mod_converse(w, 0x1000, c, x * 0x100 + y * 0x10 + n);
    vstd::arithmetic::div_mod::lemma_fundamental_div_mod_converse(w, 0x100, c * 16 + x, y * 0x10 + n);
    vstd::arithmetic::div_mod::lemma_fundamental_div_mod_converse(c * 16 + x, 16, c, x);
    vstd::arithmetic::div_mod::lemma_fundamental_div_mod_converse(w, 0x10, c * 256 + x * 16 + y, n);
    vstd::arithmetic::div_mod::lemma_fundamental_div_mod_converse(c * 256 + x * 16 + y, 16, c * 16 + x, y);
}

/// The same, for a word given by its class, `X` and low byte.
pub proof fn lemma_word_nn_fields(c: int, x: int, nn: int)
    requires
        0 <= c < 16,
        0 <= x < 16,
        0 <= nn < 256,
    ensures
        model::op_class(word_nn(c, x, nn)) == c,
        model::op_x(word_nn(c, x, nn)) == x,
        model::op_y(word_nn(c, x, nn)) == nn / 16,
        model::op_n(word_nn(c, x, nn)) == nn % 16,
        model::op_nn(word_nn(c, x, nn)) == nn,
{
    lemma_word_fields(c, x, nn / 16, nn % 16);
}

/// The same, for a word given by its class and address.
pub proof fn lemma_word_nnn_fields(c: int, nnn: int)
    requires
        0 <= c < 16,
        0 <= nnn < 0x1000,
    ensures
        model::op_class(word_nnn(c, nnn)) == c,
        model::op_nnn(word_nnn(c, nnn)) == nnn,
        model::op_x(word_nnn(c, nnn)) == nnn / 256,
        model::op_y(word_nnn(c, nnn)) == (nnn / 16) % 16,
        model::op_n(word_nnn(c, nnn)) == nnn % 16,
{
    lemma_word_fields(c, nnn / 256, (nnn / 16) % 16, nnn % 16);
}

/// `6XNN` sets `VX` to `NN` and changes nothing else.
pub proof fn lemma_ld_vx_nn(s: EmuState, x: int, y: int, nn: int, rnd: u8)
    requires
        s.wf(),
        0 <= x < 16,
        0 <= y < 16,
        0 <= nn < 256,
    ensures
        model::execute(s, word_nn(6, x, nn), rnd) == (EmuState { v: s.v.update(x, nn as u8), ..s }, Ok::<(), EmuError>(())),
{
    lemma_word_nn_fields(6, x, nn);
}

/// `7XNN` adds `NN` to `VX` modulo 256, leaving `VF` alone, and changes nothing else.
pub proof fn lemma_add_vx_nn(s: EmuState, x: int, y: int, nn: int, rnd: u8)
    requires
        s.wf(),
        0 <= x < 16,
        0 <= y < 16,
        0 <= nn < 256,
    ensures
        model::execute(s, word_nn(7, x, nn), rnd) == (EmuState { v: s.v.update(x, ((s.v[x] + nn) % 256) as u8), ..s }, Ok::<(), EmuError>(())),
{
    lemma_word_nn_fields(7, x, nn);
}

/// `8XY0` copies `VY` into `VX` and changes nothing else.
pub proof fn lemma_ld_vx_vy(s: EmuState, x: int, y: int, nn: int, rnd: u8)
    requires
        s.wf(),
        0 <= x < 16,
        0 <= y < 16,
        0 <= nn < 256,
    ensures
        model::execute(s, word(8, x, y, 0), rnd) == (EmuState { v: s.v.update(x, s.v[y]), ..s }, Ok::<(), EmuError>(())),
{
    lemma_word_fields(8, x, y, 0);
}

/// `8XY1` sets `VX` to the bitwise OR of `VX` and `VY` and changes nothing else.
pub proof fn lemma_or_vx_vy(s: EmuState, x: int, y: int, nn: int, rnd: u8)
    requires
        s.wf(),
        0 <= x < 16,
        0 <= y < 16,
        0 <= nn < 256,
    ensures
        model::execute(s, word(8, x, y, 1), rnd) == (EmuState { v: s.v.update(x, s.v[x] | s.v[y]), ..s }, Ok::<(), EmuError>(())),
{
    lemma_word_fields(8, x, y, 1);
}

/// `8XY2` sets `VX` to the bitwise AND of `VX` and `VY` and changes nothing else.
pub proof fn lemma_and_vx_vy(s: EmuState, x: int, y: int, nn: int, rnd: u8)
    requires
        s.wf(),
        0 <= x < 16,
        0 <= y < 16,
        0 <= nn < 256,
    ensures
        model::execute(s, word(8, x, y, 2), rnd) == (EmuState { v: s.v.update(x, s.v[x] & s.v[y]), ..s }, Ok::<(), EmuError>(())),
{
    lemma_word_fields(8, x, y, 2);
}

/// `8XY3` sets `VX` to the bitwise XOR of `VX` and `VY` and changes nothing else.
pub proof fn lemma_xor_vx_vy(s: EmuState, x: int, y: int, nn: int, rnd: u8)
    requires
        s.wf(),
        0 <= x < 16,
        0 <= y < 16,
        0 <= nn < 256,
    ensures
        model::execute(s, word(8, x, y, 3), rnd) == (EmuState { v: s.v.update(x, s.v[x] ^ s.v[y]), ..s }, Ok::<(), EmuError>(())),
{
    lemma_word_fields(8, x, y, 3);
}

/// `8XY4` sets `VX` to `VX + VY` modulo 256, then `VF` to 1 when the sum reached 256 and 0 otherwise.
pub proof fn lemma_add_vx_vy(s: EmuState, x: int, y: int, nn: int, rnd: u8)
    requires
        s.wf(),
        0 <= x < 16,
        0 <= y < 16,
        0 <= nn < 256,
    ensures
        model::execute(s, word(8, x, y, 4), rnd) == (EmuState { v: s.v.update(x, ((s.v[x] + s.v[y]) % 256) as u8).update(15, if s.v[x] + s.v[y] >= 256 { 1u8 } else { 0u8 }), ..s }, Ok::<(), EmuError>(())),
{
    lemma_word_fields(8, x, y, 4);
}

/// `8XY5` sets `VX` to `VX - VY` modulo 256, then `VF` to 1 when `VX >= VY` (no borrow) and 0 otherwise.
pub proof fn lemma_sub_vx_vy(s: EmuState, x: int, y: int, nn: int, rnd: u8)
    requires
        s.wf(),
        0 <= x < 16,
        0 <= y < 16,
        0 <= nn < 256,
    ensures
        model::execute(s, word(8, x, y, 5), rnd) == (EmuState { v: s.v.update(x, ((s.v[x] - s.v[y] + 256) % 256) as u8).update(15, if s.v[x] >= s.v[y] { 1u8 } else { 0u8 }), ..s }, Ok::<(), EmuError>(())),
{
    lemma_word_fields(8, x, y, 5);
}

/// `8XY6` halves `VX` (rounding down), then sets `VF` to the bit shifted out.
pub proof fn lemma_shr_vx(s: EmuState, x: int, y: int, nn: int, rnd: u8)
    requires
        s.wf(),
        0 <= x < 16,
        0 <= y < 16,
        0 <= nn < 256,
    ensures
        model::execute(s, word(8, x, y, 6), rnd) == (EmuState { v: s.v.update(x, (s.v[x] / 2) as u8).update(15, (s.v[x] % 2) as u8), ..s }, Ok::<(), EmuError>(())),
{
    lemma_word_fields(8, x, y, 6);
}

/// `8XY7` sets `VX` to `VY - VX` modulo 256, then `VF` to 1 when `VY >= VX` (no borrow) and 0 otherwise.
pub proof fn lemma_subn_vx_vy(s: EmuState, x: int, y: int, nn: int, rnd: u8)
    requires
        s.wf(),
        0 <= x < 16,
        0 <= y < 16,
        0 <= nn < 256,
    ensures
        model::execute(s, word(8, x, y, 7), rnd) == (EmuState { v: s.v.update(x, ((s.v[y] - s.v[x] + 256) % 256) as u8).update(15, if s.v[y] >= s.v[x] { 1u8 } else { 0u8 }), ..s }, Ok::<(), EmuError>(())),
{
    lemma_word_fields(8, x, y, 7);
}

/// `8XYE` doubles `VX` modulo 256, then sets `VF` to the bit shifted out.
pub proof fn lemma_shl_vx(s: EmuState, x: int, y: int, nn: int, rnd: u8)
    requires
        s.wf(),
        0 <= x < 16,
        0 <= y < 16,
        0 <= nn < 256,
    ensures
        model::execute(s, word(8, x, y, 0xE), rnd) == (EmuState { v: s.v.update(x, ((2 * s.v[x]) % 256) as u8).update(15, (s.v[x] / 128) as u8), ..s }, Ok::<(), EmuError>(())),
{
    lemma_word_fields(8, x, y, 0xE);
}

/// After `8XY4` with `X` other than `F`, `VX + 256 * VF` is the true sum of the old `VX` and `VY`. The flag is 0 or 1.
pub proof fn lemma_add_carry_accounts(s: EmuState, x: int, y: int, rnd: u8)
    requires
        s.wf(),
        0 <= x < 15,
        0 <= y < 16,
    ensures
        ({
            let r = model::execute(s, word(8, x, y, 4), rnd).0.v;
            &&& r[x] + 256 * r[15] == s.v[x] + s.v[y]
            &&& r[15] <= 1
        }),
{
    lemma_add_vx_vy(s, x, y, 0, rnd);
}

/// After `8XY5` with `X` other than `F`, `VX - 256 * (1 - VF)` is the true difference of the old `VX` and `VY`. The flag is 0 or 1.
pub proof fn lemma_sub_borrow_accounts(s: EmuState, x: int, y: int, rnd: u8)
    requires
        s.wf(),
        0 <= x < 15,
        0 <= y < 16,
    ensures
        ({
            let r = model::execute(s, word(8, x, y, 5), rnd).0.v;
            &&& r[x] - 256 * (1 - r[15]) == s.v[x] - s.v[y]
            &&& r[15] <= 1
        }),
{
    lemma_sub_vx_vy(s, x, y, 0, rnd);
}

/// After `8XY7` with `X` other than `F`, `VX - 256 * (1 - VF)` is the true difference of the old `VY` and `VX`. The flag is 0 or 1.
pub proof fn lemma_subn_borrow_accounts(s: EmuState, x: int, y: int, rnd: u8)
    requires
        s.wf(),
        0 <= x < 15,
        0 <= y < 16,
    ensures
        ({
            let r = model::execute(s, word(8, x, y, 7), rnd).0.v;
            &&& r[x] - 256 * (1 - r[15]) == s.v[y] - s.v[x]
            &&& r[15] <= 1
        }),
{
    lemma_subn_vx_vy(s, x, y, 0, rnd);
}

/// After `8XY6` with `X` other than `F`, `2 * VX + VF` is the old `VX`. The flag is 0 or 1.
pub proof fn lemma_shr_bit_accounts(s: EmuState, x: int, y: int, rnd: u8)
    requires
        s.wf(),
        0 <= x < 15,
        0 <= y < 16,
    ensures
        ({
            let r = model::execute(s, word(8, x, y, 6), rnd).0.v;
            &&& 2 * r[x] + r[15] == s.v[x]
            &&& r[15] <= 1
        }),
{
    lemma_shr_vx(s, x, y, 0, rnd);
}

/// After `8XYE` with `X` other than `F`, `VX + 256 * VF` is twice the old `VX`. The flag is 0 or 1.
pub proof fn lemma_shl_bit_accounts(s: EmuState, x: int, y: int, rnd: u8)
    requires
        s.wf(),
        0 <= x < 15,
        0 <= y < 16,
    ensures
        ({
            let r = model::execute(s, word(8, x, y, 0xE), rnd).0.v;
            &&& r[x] + 256 * r[15] == 2 * s.v[x]
            &&& r[15] <= 1
        }),
{
    lemma_shl_vx(s, x, y, 0, rnd);
}

/// The skips: `3XNN`, `4XNN`, `5XY0`, `9XY0`, `EX9E`, `EXA1` move the program
/// counter on by 2 exactly when their condition holds, and change nothing
/// else.
pub proof fn lemma_skip_instructions(s: EmuState, x: int, y: int, nn: int, rnd: u8)
    requires
        s.wf(),
        0 <= x < 16,
        0 <= y < 16,
        0 <= nn < 256,
        s.pc + 2 <= u16::MAX,
    ensures
        ({
            let vx = s.v[x];
            let vy = s.v[y];
            let skipped = EmuState { pc: (s.pc + 2) as u16, ..s };
            &&& model::execute(s, word_nn(3, x, nn), rnd) == (if vx == nn { skipped } else { s }, Ok::<(), EmuError>(()))
            &&& model::execute(s, word_nn(4, x, nn), rnd) == (if vx != nn { skipped } else { s }, Ok::<(), EmuError>(()))
            &&& model::execute(s, word(5, x, y, 0), rnd) == (if vx == vy { skipped } else { s }, Ok::<(), EmuError>(()))
            &&& model::execute(s, word(9, x, y, 0), rnd) == (if vx != vy { skipped } else { s }, Ok::<(), EmuError>(()))
            &&& vx < NUM_KEYS ==> model::execute(s, word(0xE, x, 9, 0xE), rnd) == (
                if s.keys[vx as int] { skipped } else { s },
                Ok::<(), EmuError>(()),
            )
            &&& vx < NUM_KEYS ==> model::execute(s, word(0xE, x, 0xA, 1), rnd) == (
                if !s.keys[vx as int] { skipped } else { s },
                Ok::<(), EmuError>(()),
            )
        }),
{
    lemma_word_nn_fields(3, x, nn);
    lemma_word_nn_fields(4, x, nn);
    lemma_word_fields(5, x, y, 0);
    lemma_word_fields(9, x, y, 0);
    lemma_word_fields(0xE, x, 9, 0xE);
    lemma_word_fields(0xE, x, 0xA, 1);
}

/// `0000` does nothing; `00E0` turns every pixel off and changes nothing
/// else.
pub proof fn lemma_nop_and_clear(s: EmuState, rnd: u8)
    requires
        s.wf(),
    ensures
        model::execute(s, 0x0000, rnd) == (s, Ok::<(), EmuError>(())),
        model::execute(s, 0x00E0, rnd).1 is Ok,
        model::execute(s, 0x00E0, rnd).0 == (EmuState { screen: model::execute(s, 0x00E0, rnd).0.screen, ..s }),
        model::execute(s, 0x00E0, rnd).0.screen.len() == SCREEN_SIZE,
        forall|p: int| 0 <= p < SCREEN_SIZE ==> !#[trigger] model::execute(s, 0x00E0, rnd).0.screen[p],
{
}

/// `1NNN` jumps to `NNN`; `BNNN` jumps to `V0 + NNN`; `ANNN` sets `I` to
/// `NNN`. Nothing else changes.
pub proof fn lemma_jumps_and_index(s: EmuState, nnn: int, rnd: u8)
    requires
        s.wf(),
        0 <= nnn < 0x1000,
    ensures
        model::execute(s, word_nnn(1, nnn), rnd) == (EmuState { pc: nnn as u16, ..s }, Ok::<(), EmuError>(())),
        model::execute(s, word_nnn(0xB, nnn), rnd) == (EmuState { pc: (s.v[0] + nnn) as u16, ..s }, Ok::<(), EmuError>(())),
        s.v[0] + nnn <= 0xFFFF,
        model::execute(s, word_nnn(0xA, nnn), rnd) == (EmuState { i: nnn as u16, ..s }, Ok::<(), EmuError>(())),
{
    lemma_word_nnn_fields(1, nnn);
    lemma_word_nnn_fields(0xA, nnn);
    lemma_word_nnn_fields(0xB, nnn);
}

/// `2NNN` pushes the address of the next instruction and jumps to `NNN`;
/// `00EE` pops that address back into the program counter. Each is refused
/// when the stack is full, respectively empty.
pub proof fn lemma_call_and_return(s: EmuState, nnn: int, rnd: u8)
    requires
        s.wf(),
        0 <= nnn < 0x1000,
    ensures
        s.sp < STACK_SIZE ==> model::execute(s, word_nnn(2, nnn), rnd) == (
            EmuState { pc: nnn as u16, sp: (s.sp + 1) as u16, stack: s.stack.update(s.sp as int, s.pc), ..s },
            Ok::<(), EmuError>(()),
        ),
        s.sp >= STACK_SIZE ==> model::execute(s, word_nnn(2, nnn), rnd) == (s, Err::<(), EmuError>(EmuError::StackOverflow)),
        s.sp > 0 ==> model::execute(s, 0x00EE, rnd) == (
            EmuState { pc: s.stack[s.sp - 1], sp: (s.sp - 1) as u16, ..s },
            Ok::<(), EmuError>(()),
        ),
        s.sp == 0 ==> model::execute(s, 0x00EE, rnd) == (s, Err::<(), EmuError>(EmuError::StackUnderflow)),
{
    lemma_word_nnn_fields(2, nnn);
}

/// `CXNN` sets `VX` to the random byte masked with `NN` and changes nothing
/// else.
pub proof fn lemma_random_instruction(s: EmuState, x: int, nn: int, rnd: u8)
    requires
        s.wf(),
        0 <= x < 16,
        0 <= nn < 256,
    ensures
        model::execute(s, word_nn(0xC, x, nn), rnd) == (EmuState { v: s.v.update(x, rnd & (nn as u8)), ..s }, Ok::<(), EmuError>(())),
{
    lemma_word_nn_fields(0xC, x, nn);
}

/// The timer and index instructions: `FX07` reads the delay timer into
/// `VX`, `FX15` and `FX18` set the delay and sound timers from `VX`, `FX1E`
/// adds `VX` to `I` modulo 65536, `FX29` sets `I` to `5 * VX`. Nothing else
/// changes.
pub proof fn lemma_timer_and_index_instructions(s: EmuState, x: int, rnd: u8)
    requires
        s.wf(),
        0 <= x < 16,
    ensures
        model::execute(s, word(0xF, x, 0, 7), rnd) == (EmuState { v: s.v.update(x, s.dt), ..s }, Ok::<(), EmuError>(())),
        model::execute(s, word(0xF, x, 1, 5), rnd) == (EmuState { dt: s.v[x], ..s }, Ok::<(), EmuError>(())),
        model::execute(s, word(0xF, x, 1, 8), rnd) == (EmuState { st: s.v[x], ..s }, Ok::<(), EmuError>(())),
        model::execute(s, word(0xF, x, 1, 0xE), rnd) == (EmuState { i: ((s.i + s.v[x]) % 65536) as u16, ..s }, Ok::<(), EmuError>(())),
        model::execute(s, word(0xF, x, 2, 9), rnd) == (EmuState { i: (5 * s.v[x]) as u16, ..s }, Ok::<(), EmuError>(())),
{
    lemma_word_fields(0xF, x, 0, 7);
    lemma_word_fields(0xF, x, 1, 5);
    lemma_word_fields(0xF, x, 1, 8);
    lemma_word_fields(0xF, x, 1, 0xE);
    lemma_word_fields(0xF, x, 2, 9);
}

/// `FX65` loads `V0..=VX` from `I..=I+X`, leaves the registers above `X`
/// and everything else alone; when that range leaves memory it is refused
/// and changes nothing.
pub proof fn lemma_load_regs(s: EmuState, x: int, rnd: u8)
    requires
        s.wf(),
        0 <= x < 16,
    ensures
        ({
            let (s2, r) = model::execute(s, word(0xF, x, 6, 5), rnd);
            &&& s.i + x + 1 <= RAM_SIZE ==> {
                &&& r is Ok
                &&& s2.v.len() == 16
                &&& forall|k: int| 0 <= k <= x ==> s2.v[k] == s.ram[s.i + k]
                &&& forall|k: int| x < k < 16 ==> s2.v[k] == s.v[k]
                &&& s2 == (EmuState { v: s2.v, ..s })
            }
            &&& s.i + x + 1 > RAM_SIZE ==> r == Err::<(), EmuError>(
                EmuError::MemoryOutOfBounds { addr: s.i as usize, len: (x + 1) as usize },
            ) && s2 == s
        }),
{
    lemma_word_fields(0xF, x, 6, 5);
}

/// A cycle reads the big-endian word at the program counter, moves the
/// program counter past it and executes it; a program counter at or past
/// the last byte of memory is refused and changes nothing.
pub proof fn lemma_cycle(s: EmuState, rnd: u8)
    requires
        s.wf(),
    ensures
        s.pc + 1 < RAM_SIZE ==> model::tick(s, rnd) == model::execute(
            EmuState { pc: (s.pc + 2) as u16, ..s },
            (256 * s.ram[s.pc as int] + s.ram[s.pc + 1]) as u16,
            rnd,
        ),
        s.pc + 1 >= RAM_SIZE ==> model::tick(s, rnd) == (s, Err::<(), EmuError>(EmuError::PcOutOfBounds { pc: s.pc })),
{
}

/// Screen index of the pixel at column `col`, row `row`, both taken modulo
/// the screen's size (the screen wraps around at its edges).
pub open spec fn pixel_at(col: int, row: int) -> int {
    col % 64 + 64 * (row % 32)
}

/// Some set bit of the sprite covers pixel `p`: the sprite is `n` rows of
/// 8 pixels, row `r` being the byte `ram[i + r]` with its most significant
/// bit leftmost, drawn with its top-left corner at `(vx, vy)`.
pub open spec fn sprite_covers(ram: Seq<u8>, i: int, vx: u8, vy: u8, n: int, p: int) -> bool {
    exists|r: int, c: int|
        0 <= r < n && 0 <= c < 8 && #[trigger] pixel_at(vx + c, vy + r) == p && (ram[i + r] >> ((7 - c) as u8))
            & 1 == 1
}

proof fn lemma_bit_of_row(b: u8, c: u8, d: u8)
    requires
        c < 8,
        d == 7 - c,
    ensures
        (b & (0x80u8 >> c) != 0) == ((b >> d) & 1 == 1),
{
    assert((b & (0x80u8 >> c) != 0) == ((b >> d) & 1 == 1)) by (bit_vector)
        requires
            c < 8,
            d == 7 - c,
    ;
}

proof fn lemma_covers_is_hit(s: EmuState, vx: u8, vy: u8, n: int, p: int)
    requires
        s.wf(),
        0 <= n < 16,
        s.i + n <= RAM_SIZE,
        0 <= p < SCREEN_SIZE,
    ensures
        model::sprite_hits(s, vx, vy, n, p) == sprite_covers(s.ram, s.i as int, vx, vy, n, p),
{
    if model::sprite_hits(s, vx, vy, n, p) {
        let r = model::sprite_row(vy, p);
        let c = model::sprite_col(vx, p);
        lemma_cell_pixel(vx, vy, r, c);
        assert(pixel_at(vx + c, vy + r) == cell_pixel(vx, vy, r, c));
        lemma_bit_of_row(s.ram[s.i + r], c as u8, (7 - c) as u8);
        assert(pixel_at(vx + c, vy + r) == p);
    }
    if sprite_covers(s.ram, s.i as int, vx, vy, n, p) {
        let (r, c) = choose|r: int, c: int|
            0 <= r < n && 0 <= c < 8 && #[trigger] pixel_at(vx + c, vy + r) == p && (s.ram[s.i + r] >> ((7
                - c) as u8)) & 1 == 1;
        lemma_cell_pixel(vx, vy, r, c);
        assert(pixel_at(vx + c, vy + r) == cell_pixel(vx, vy, r, c));
        lemma_bit_of_row(s.ram[s.i + r], c as u8, (7 - c) as u8);
    }
}

/// `DXYN` XORs the sprite onto the screen: a pixel changes exactly when a
/// set bit of the sprite covers it. `VF` becomes 1 when some lit pixel was
/// covered (and so went dark) and 0 otherwise; nothing else changes. When
/// the sprite's rows run past the end of memory it is refused and changes
/// nothing.
pub proof fn lemma_draw_instruction(s: EmuState, x: int, y: int, n: int, rnd: u8)
    requires
        s.wf(),
        0 <= x < 16,
        0 <= y < 16,
        0 <= n < 16,
    ensures
        ({
            let (s2, r) = model::execute(s, word(0xD, x, y, n), rnd);
            let vx = s.v[x];
            let vy = s.v[y];
            &&& s.i + n > RAM_SIZE ==> r == Err::<(), EmuError>(
                EmuError::MemoryOutOfBounds { addr: s.i as usize, len: n as usize },
            ) && s2 == s
            &&& s.i + n <= RAM_SIZE ==> {
                &&& r is Ok
                &&& s2 == (EmuState { screen: s2.screen, v: s.v.update(15, s2.v[15]), ..s })
                &&& s2.screen.len() == SCREEN_SIZE
                &&& forall|p: int|
                    0 <= p < SCREEN_SIZE ==> #[trigger] s2.screen[p] == (s.screen[p] != sprite_covers(
                        s.ram,
                        s.i as int,
                        vx,
                        vy,
                        n,
                        p,
                    ))
                &&& s2.v[15] == (if exists|p: int|
                    0 <= p < SCREEN_SIZE && #[trigger] sprite_covers(s.ram, s.i as int, vx, vy, n, p)
                        && s.screen[p] {
                    1u8
                } else {
                    0u8
                })
            }
        }),
{
    lemma_word_fields(0xD, x, y, n);
    let op = word(0xD, x, y, n);
    if s.i + n <= RAM_SIZE {
        let vx = s.v[x];
        let vy = s.v[y];
        let s2 = model::execute(s, op, rnd).0;
        assert forall|p: int| 0 <= p < SCREEN_SIZE implies #[trigger] s2.screen[p] == (s.screen[p]
            != sprite_covers(s.ram, s.i as int, vx, vy, n, p)) by {
            lemma_covers_is_hit(s, vx, vy, n, p);
        }
        let lit = exists|p: int|
            0 <= p < SCREEN_SIZE && #[trigger] sprite_covers(s.ram, s.i as int, vx, vy, n, p) && s.screen[p];
        if lit {
            let w = choose|p: int|
                0 <= p < SCREEN_SIZE && #[trigger] sprite_covers(s.ram, s.i as int, vx, vy, n, p) && s.screen[p];
            lemma_covers_is_hit(s, vx, vy, n, w);
            assert(model::sprite_hits(s, vx, vy, n, w));
        }
        if model::sprite_collides(s, vx, vy, n) {
            let w = choose|p: int| 0 <= p < SCREEN_SIZE && #[trigger] model::sprite_hits(s, vx, vy, n, p) && s.screen[p];
            lemma_covers_is_hit(s, vx, vy, n, w);
            assert(sprite_covers(s.ram, s.i as int, vx, vy, n, w));
        }
        assert(s2 =~= (EmuState { screen: s2.screen, v: s.v.update(15, s2.v[15]), ..s }));
    }
}

} // verus!
