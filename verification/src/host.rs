//! What a front end decides around the machine: which host key is which
//! keypad button, what an input event does, how many cycles and timer ticks
//! elapsed time is worth, and which screen rectangles to fill.

use vstd::prelude::*;

use crate::emu::Emu;
use crate::error::EmuResult;
use crate::model::{self, EmuState};
use crate::{NUM_KEYS, SCREEN_SIZE, SCREEN_WIDTH};

verus! {

/// Nanoseconds in a second.
pub const NANOS_PER_SEC: u64 = 1_000_000_000;

/// Instruction cycles per second.
pub const CPU_HZ: u64 = 700;

/// Timer ticks per second.
pub const TIMER_HZ: u64 = 60;

/// Side, in window pixels, of one machine pixel.
pub const SCALE: u32 = 30;

/// Width of the window in window pixels (`SCREEN_WIDTH * SCALE`).
pub const WINDOW_WIDTH: u32 = 64 * SCALE;

/// Height of the window in window pixels (`SCREEN_HEIGHT * SCALE`).
pub const WINDOW_HEIGHT: u32 = 32 * SCALE;

/// Nanoseconds per instruction cycle.
pub fn cpu_step() -> (d: u64)
    ensures
        d == NANOS_PER_SEC / CPU_HZ,
{
    NANOS_PER_SEC / CPU_HZ
}

/// Nanoseconds per timer tick.
pub fn timer_step() -> (d: u64)
    ensures
        d == NANOS_PER_SEC / TIMER_HZ,
{
    NANOS_PER_SEC / TIMER_HZ
}

// ---------------------------------------------------------------------------
// Keyboard.
// ---------------------------------------------------------------------------

/// The host keys that stand for the keypad (the left block of a QWERTY
/// keyboard), and every other key.
#[derive(Debug, Clone, Copy, PartialEq, Eq, Structural)]
pub enum HostKey {
    Num1,
    Num2,
    Num3,
    Num4,
    Q,
    W,
    E,
    R,
    A,
    S,
    D,
    F,
    Z,
    X,
    C,
    V,
    Unmapped,
}

/// The keypad button that a host key stands for.
///
/// ```text
///   1 2 3 4        1 2 3 C
///   Q W E R   ->   4 5 6 D
///   A S D F        7 8 9 E
///   Z X C V        A 0 B F
/// ```
pub open spec fn keypad_button(key: HostKey) -> Option<usize> {
    match key {
        HostKey::Num1 => Some(0x1),
        HostKey::Num2 => Some(0x2),
        HostKey::Num3 => Some(0x3),
        HostKey::Num4 => Some(0xC),
        HostKey::Q => Some(0x4),
        HostKey::W => Some(0x5),
        HostKey::E => Some(0x6),
        HostKey::R => Some(0xD),
        HostKey::A => Some(0x7),
        HostKey::S => Some(0x8),
        HostKey::D => Some(0x9),
        HostKey::F => Some(0xE),
        HostKey::Z => Some(0xA),
        HostKey::X => Some(0x0),
        HostKey::C => Some(0xB),
        HostKey::V => Some(0xF),
        HostKey::Unmapped => None,
    }
}

/// The keypad button for a host key, if it stands for one.
pub fn key2btn(key: HostKey) -> (b: Option<usize>)
    ensures
        b == keypad_button(key),
        b matches Some(k) ==> k < NUM_KEYS,
{
    match key {
        HostKey::Num1 => Some(0x1),
        HostKey::Num2 => Some(0x2),
        HostKey::Num3 => Some(0x3),
        HostKey::Num4 => Some(0xC),
        HostKey::Q => Some(0x4),
        HostKey::W => Some(0x5),
        HostKey::E => Some(0x6),
        HostKey::R => Some(0xD),
        HostKey::A => Some(0x7),
        HostKey::S => Some(0x8),
        HostKey::D => Some(0x9),
        HostKey::F => Some(0xE),
        HostKey::Z => Some(0xA),
        HostKey::X => Some(0x0),
        HostKey::C => Some(0xB),
        HostKey::V => Some(0xF),
        HostKey::Unmapped => None,
    }
}

/// The sixteen mapped host keys and the sixteen keypad buttons correspond
/// one to one.
pub proof fn lemma_keypad_is_a_bijection(k1: HostKey, k2: HostKey, b: usize)
    ensures
        keypad_button(k1) is Some && keypad_button(k1) == keypad_button(k2) ==> k1 == k2,
        b < NUM_KEYS ==> exists|k: HostKey| keypad_button(k) == Some(b),
{
    if b < NUM_KEYS {
        let k = if b == 0x1 {
            HostKey::Num1
        } else if b == 0x2 {
            HostKey::Num2
        } else if b == 0x3 {
            HostKey::Num3
        } else if b == 0xC {
            HostKey::Num4
        } else if b == 0x4 {
            HostKey::Q
        } else if b == 0x5 {
            HostKey::W
        } else if b == 0x6 {
            HostKey::E
        } else if b == 0xD {
            HostKey::R
        } else if b == 0x7 {
            HostKey::A
        } else if b == 0x8 {
            HostKey::S
        } else if b == 0x9 {
            HostKey::D
        } else if b == 0xE {
            HostKey::F
        } else if b == 0xA {
            HostKey::Z
        } else if b == 0x0 {
            HostKey::X
        } else if b == 0xB {
            HostKey::C
        } else {
            HostKey::V
        };
        assert(keypad_button(k) == Some(b));
    }
}

// ---------------------------------------------------------------------------
// Input events.
// ---------------------------------------------------------------------------

/// The input events a front end passes on.
#[derive(Debug, Clone, Copy, PartialEq, Eq, Structural)]
pub enum HostEvent {
    /// The window was closed.
    Quit,
    /// A key went down; `repeat` marks the auto-repeat of a held key.
    KeyDown { key: HostKey, repeat: bool },
    /// A key went up.
    KeyUp { key: HostKey },
    /// Anything else.
    Other,
}

/// Whether the front end should keep running.
#[derive(Debug, Clone, Copy, PartialEq, Eq, Structural)]
pub enum LoopControl {
    Continue,
    Quit,
}

/// The machine after an input event: a fresh press or a release of a mapped
/// key sets that keypad button; nothing else changes it.
pub open spec fn state_after_event(s: EmuState, event: HostEvent) -> EmuState {
    match event {
        HostEvent::KeyDown { key, repeat } => match keypad_button(key) {
            Some(b) if !repeat => EmuState { keys: s.keys.update(b as int, true), ..s },
            _ => s,
        },
        HostEvent::KeyUp { key } => match keypad_button(key) {
            Some(b) => EmuState { keys: s.keys.update(b as int, false), ..s },
            None => s,
        },
        _ => s,
    }
}

/// Applies an input event to the machine and says whether to go on.
pub fn handle_event(event: HostEvent, chip8: &mut Emu) -> (c: LoopControl)
    ensures
        c == (if event is Quit { LoopControl::Quit } else { LoopControl::Continue }),
        final(chip8)@ == state_after_event(old(chip8)@, event),
        final(chip8).sp == old(chip8).sp,
{
    match event {
        HostEvent::Quit => LoopControl::Quit,
        HostEvent::KeyDown { key, repeat } => {
            if !repeat {
                if let Some(k) = key2btn(key) {
                    chip8.keypress(k, true);
                }
            }
            LoopControl::Continue
        },
        HostEvent::KeyUp { key } => {
            if let Some(k) = key2btn(key) {
                chip8.keypress(k, false);
            }
            LoopControl::Continue
        },
        HostEvent::Other => LoopControl::Continue,
    }
}

// ---------------------------------------------------------------------------
// Pacing.
// ---------------------------------------------------------------------------

/// Runs one cycle per random byte, stopping at the first cycle that fails.
pub open spec fn run_ticks(s: EmuState, rnds: Seq<u8>) -> model::Outcome
    decreases rnds.len(),
{
    if rnds.len() == 0 {
        model::ok(s)
    } else {
        let prev = run_ticks(s, rnds.drop_last());
        if prev.1 is Err {
            prev
        } else {
            model::tick(prev.0, rnds.last())
        }
    }
}

/// Once a cycle fails no further cycle runs: bytes meant for later cycles
/// change nothing.
pub proof fn lemma_ticks_stop_at_failure(s: EmuState, rnds: Seq<u8>, more: Seq<u8>)
    requires
        run_ticks(s, rnds).1 is Err,
    ensures
        run_ticks(s, rnds + more) == run_ticks(s, rnds),
    decreases more.len(),
{
    if more.len() > 0 {
        lemma_ticks_stop_at_failure(s, rnds, more.drop_last());
        assert((rnds + more).drop_last() =~= rnds + more.drop_last());
    } else {
        assert(rnds + more =~= rnds);
    }
}

/// `a - b`, or zero when `b` exceeds `a`.
pub open spec fn sat_sub(a: u8, b: nat) -> u8 {
    if a >= b { (a - b) as u8 } else { 0 }
}

/// The machine after `k` timer ticks.
pub open spec fn timers_after(s: EmuState, k: nat) -> EmuState {
    EmuState { dt: sat_sub(s.dt, k), st: sat_sub(s.st, k), ..s }
}

/// The machine after `k` calls of the timer tick.
pub open spec fn repeated_timer_ticks(s: EmuState, k: nat) -> EmuState
    decreases k,
{
    if k == 0 {
        s
    } else {
        model::tick_timers(repeated_timer_ticks(s, (k - 1) as nat))
    }
}

/// The timer ticks owed by [`Clock::advance`] are whole timer ticks: `k` of
/// them are `k` calls of the timer tick, which lower both the delay and the
/// sound timer by `k`, stopping at zero, and change nothing else.
pub proof fn lemma_owed_timer_ticks(s: EmuState, k: nat)
    ensures
        timers_after(s, k) == repeated_timer_ticks(s, k),
        timers_after(s, k).dt == (if s.dt >= k { s.dt - k } else { 0 }),
        timers_after(s, k).st == (if s.st >= k { s.st - k } else { 0 }),
        timers_after(s, k) == (EmuState { dt: timers_after(s, k).dt, st: timers_after(s, k).st, ..s }),
    decreases k,
{
    if k > 0 {
        lemma_owed_timer_ticks(s, (k - 1) as nat);
    }
}

/// An input event touches only the keypad: a fresh press of a mapped key
/// sets its button, a release clears it, every other button keeps its state,
/// and auto-repeats, unmapped keys and other events change nothing.
pub proof fn lemma_event_effects(s: EmuState, key: HostKey, repeat: bool)
    requires
        s.wf(),
    ensures
        ({
            let down = state_after_event(s, HostEvent::KeyDown { key, repeat });
            let up = state_after_event(s, HostEvent::KeyUp { key });
            &&& down == (EmuState { keys: down.keys, ..s })
            &&& up == (EmuState { keys: up.keys, ..s })
            &&& down.keys.len() == NUM_KEYS && up.keys.len() == NUM_KEYS
            &&& forall|j: int|
                0 <= j < NUM_KEYS ==> #[trigger] up.keys[j] == (if keypad_button(key) == Some(j as usize) {
                    false
                } else {
                    s.keys[j]
                })
            &&& forall|j: int|
                0 <= j < NUM_KEYS ==> #[trigger] down.keys[j] == (if !repeat && keypad_button(key) == Some(
                    j as usize,
                ) {
                    true
                } else {
                    s.keys[j]
                })
            &&& state_after_event(s, HostEvent::Quit) == s
            &&& state_after_event(s, HostEvent::Other) == s
        }),
{
}

/// Whole steps of `step` nanoseconds now owed, and the nanoseconds carried
/// over, when `elapsed` nanoseconds are added to `carried` ones.
pub open spec fn owed(carried: nat, elapsed: nat, step: nat) -> (nat, nat) {
    ((carried + elapsed) / step, (carried + elapsed) % step)
}

/// Total whole steps owed over a series of elapsed times, and what is
/// carried after the last, starting with nothing carried.
pub open spec fn paced(elapsed: Seq<nat>, step: nat) -> (nat, nat)
    decreases elapsed.len(),
{
    if elapsed.len() == 0 {
        (0, 0)
    } else {
        let (steps, carried) = paced(elapsed.drop_last(), step);
        let (more, rest) = owed(carried, elapsed.last(), step);
        (steps + more, rest)
    }
}

/// Sum of a series of times.
pub open spec fn total_time(elapsed: Seq<nat>) -> nat
    decreases elapsed.len(),
{
    if elapsed.len() == 0 {
        0
    } else {
        total_time(elapsed.drop_last()) + elapsed.last()
    }
}

/// Carrying remainders loses and adds nothing: over any series of elapsed
/// times from a fresh clock, the whole steps run add up to the total time
/// divided by the step, and what is carried is the remainder. (With the
/// steps of [`cpu_step`] and [`timer_step`] these are the cycles and timer
/// ticks that successive calls of [`Clock::advance`] run.)
pub proof fn lemma_pacing_totals(elapsed: Seq<nat>, step: nat)
    requires
        step > 0,
    ensures
        paced(elapsed, step) == (total_time(elapsed) / step, total_time(elapsed) % step),
    decreases elapsed.len(),
{
    if elapsed.len() > 0 {
        let prev = elapsed.drop_last();
        lemma_pacing_totals(prev, step);
        let t = total_time(prev) as int;
        let q = t / step as int;
        let c = t % step as int;
        let e = elapsed.last() as int;
        let d = (c + e) / step as int;
        let m = (c + e) % step as int;
        vstd::arithmetic::div_mod::lemma_fundamental_div_mod(t, step as int);
        vstd::arithmetic::div_mod::lemma_fundamental_div_mod(c + e, step as int);
        assert(t + e == (q + d) * step + m) by (nonlinear_arith)
            requires
                t == step * q + c,
                c + e == step * d + m,
        ;
        vstd::arithmetic::div_mod::lemma_fundamental_div_mod_converse(t + e, step as int, q + d, m);
        assert(total_time(elapsed) == t + e);
        assert(paced(prev, step) == (q as nat, c as nat));
        assert(owed(c as nat, elapsed.last(), step) == (d as nat, m as nat));
        assert(paced(elapsed, step) == ((q + d) as nat, m as nat));
    } else {
        vstd::arithmetic::div_mod::lemma_fundamental_div_mod_converse(0, step as int, 0, 0);
    }
}

/// Time owed to the processor and to the timers, in nanoseconds: what has
/// elapsed and not yet been spent on whole cycles or ticks.
pub struct Clock {
    pub cpu_acc: u64,
    pub timer_acc: u64,
}

proof fn lemma_ticks_extend(s: EmuState, rnds: Seq<u8>, rnd: u8)
    ensures
        run_ticks(s, rnds.push(rnd)) == (if run_ticks(s, rnds).1 is Err {
            run_ticks(s, rnds)
        } else {
            model::tick(run_ticks(s, rnds).0, rnd)
        }),
{
    assert(rnds.push(rnd).drop_last() =~= rnds);
}

proof fn lemma_quotient(total: int, k: int, step: int, rem: int)
    requires
        step > 0,
        0 <= rem < step,
        total == k * step + rem,
    ensures
        k == total / step,
        rem == total % step,
{
    vstd::arithmetic::div_mod::lemma_fundamental_div_mod_converse(total, step, k, rem);
}

proof fn lemma_quotient_bound(total: int, k: int, step: int, rem: int)
    requires
        step > 0,
        rem >= step,
        total == k * step + rem,
        k >= 0,
    ensures
        k + 1 <= total / step,
{
    let q = total / step;
    let m = total % step;
    vstd::arithmetic::div_mod::lemma_fundamental_div_mod(total, step);
    assert(k + 1 <= q) by (nonlinear_arith)
        requires
            total == k * step + rem,
            rem >= step,
            total == step * q + m,
            0 <= m < step,
            step > 0,
    ;
}

impl Clock {
    /// Nothing owed yet.
    pub fn new() -> (c: Self)
        ensures
            c.cpu_acc == 0,
            c.timer_acc == 0,
    {
        Clock { cpu_acc: 0, timer_acc: 0 }
    }

    /// Adds `elapsed` nanoseconds, runs every whole cycle now owed, then
    /// every whole timer tick now owed; stops at the first failing cycle.
    pub fn advance(&mut self, chip8: &mut Emu, elapsed: u64) -> (r: EmuResult)
        requires
            old(chip8).wf(),
            old(self).cpu_acc + elapsed <= u64::MAX,
            old(self).timer_acc + elapsed <= u64::MAX,
        ensures
            final(chip8).wf(),
            ({
                let (cycles, cpu_rem) = owed(
                    old(self).cpu_acc as nat,
                    elapsed as nat,
                    (NANOS_PER_SEC / CPU_HZ) as nat,
                );
                let (ticks, timer_rem) = owed(
                    old(self).timer_acc as nat,
                    elapsed as nat,
                    (NANOS_PER_SEC / TIMER_HZ) as nat,
                );
                &&& r is Ok ==> {
                    &&& final(self).cpu_acc == cpu_rem
                    &&& final(self).timer_acc == timer_rem
                    &&& exists|rnds: Seq<u8>|
                        rnds.len() == cycles && #[trigger] run_ticks(old(chip8)@, rnds).1 is Ok
                            && final(chip8)@ == timers_after(run_ticks(old(chip8)@, rnds).0, ticks)
                }
                &&& r is Err ==> exists|rnds: Seq<u8>|
                    rnds.len() <= cycles && (final(chip8)@, r) == #[trigger] run_ticks(old(chip8)@, rnds)
            }),
    {
        let cpu_step = cpu_step();
        let timer_step = timer_step();
        self.cpu_acc = self.cpu_acc + elapsed;
        self.timer_acc = self.timer_acc + elapsed;
        let ghost s0 = chip8@;
        let ghost cpu_total: int = self.cpu_acc as int;
        let ghost timer_total: int = self.timer_acc as int;
        let ghost mut rnds: Seq<u8> = Seq::empty();
        while self.cpu_acc >= cpu_step
            invariant
                cpu_step == NANOS_PER_SEC / CPU_HZ,
                timer_step == NANOS_PER_SEC / TIMER_HZ,
                chip8.wf(),
                self.timer_acc == timer_total,
                cpu_total == old(self).cpu_acc + elapsed,
                timer_total == old(self).timer_acc + elapsed,
                s0 == old(chip8)@,
                cpu_total == rnds.len() * cpu_step + self.cpu_acc,
                run_ticks(s0, rnds) == model::ok(chip8@),
            decreases self.cpu_acc,
        {
            let ghost before = chip8@;
            let r = chip8.tick();
            let ghost rnd = choose|rnd: u8| (chip8@, r) == #[trigger] model::tick(before, rnd);
            proof {
                lemma_ticks_extend(s0, rnds, rnd);
                lemma_quotient_bound(cpu_total, rnds.len() as int, cpu_step as int, self.cpu_acc as int);
                rnds = rnds.push(rnd);
            }
            if r.is_err() {
                return r;
            }
            self.cpu_acc -= cpu_step;
            proof {
                assert(cpu_total == rnds.len() * cpu_step + self.cpu_acc) by (nonlinear_arith)
                    requires
                        cpu_total == (rnds.len() - 1) * cpu_step + self.cpu_acc + cpu_step,
                ;
            }
        }
        proof {
            lemma_quotient(cpu_total, rnds.len() as int, cpu_step as int, self.cpu_acc as int);
        }
        let ghost s1 = chip8@;
        let ghost mut k: nat = 0;
        while self.timer_acc >= timer_step
            invariant
                timer_step == NANOS_PER_SEC / TIMER_HZ,
                self.cpu_acc == cpu_total % (NANOS_PER_SEC / CPU_HZ) as int,
                chip8.wf(),
                timer_total == k * timer_step + self.timer_acc,
                chip8@ == timers_after(s1, k),
            decreases self.timer_acc,
        {
            chip8.tick_timers();
            self.timer_acc -= timer_step;
            proof {
                k = k + 1;
                assert(timer_total == k * timer_step + self.timer_acc) by (nonlinear_arith)
                    requires
                        timer_total == (k - 1) * timer_step + self.timer_acc + timer_step,
                ;
            }
        }
        proof {
            lemma_quotient(timer_total, k as int, timer_step as int, self.timer_acc as int);
            assert(run_ticks(s0, rnds).1 is Ok);
            assert(chip8@ == timers_after(run_ticks(s0, rnds).0, k));
        }
        Ok(())
    }
}

// ---------------------------------------------------------------------------
// Rendering.
// ---------------------------------------------------------------------------

/// Window coordinates of the top-left corner of machine pixel `p`.
pub open spec fn pixel_origin(p: int) -> (i32, i32) {
    (((p % (SCREEN_WIDTH as int)) * SCALE) as i32, ((p / (SCREEN_WIDTH as int)) * SCALE) as i32)
}

/// The corners of the lit pixels among the first `n`, in order.
pub open spec fn lit_origins(display: Seq<bool>, n: int) -> Seq<(i32, i32)>
    decreases n,
{
    if n <= 0 {
        Seq::empty()
    } else if display[n - 1] {
        lit_origins(display, n - 1).push(pixel_origin(n - 1))
    } else {
        lit_origins(display, n - 1)
    }
}

/// The top-left corners, in window pixels, of the `SCALE`-sided squares to
/// fill for the lit pixels of a frame buffer, row by row.
pub fn lit_pixel_origins(display: &[bool]) -> (v: Vec<(i32, i32)>)
    requires
        display@.len() <= SCREEN_SIZE,
    ensures
        v@ == lit_origins(display@, display@.len() as int),
{
    let mut v: Vec<(i32, i32)> = Vec::new();
    let mut i: usize = 0;
    while i < display.len()
        invariant
            i <= display@.len(),
            display@.len() <= SCREEN_SIZE,
            v@ == lit_origins(display@, i as int),
        decreases display@.len() - i,
    {
        if display[i] {
            let x = (i % SCREEN_WIDTH) as u32;
            let y = (i / SCREEN_WIDTH) as u32;
            proof {
                assert(y < 32);
            }
            v.push(((x * SCALE) as i32, (y * SCALE) as i32));
        }
        i += 1;
    }
    v
}

/// Window corner of the `SCALE`-sided square of machine pixel `p`: column
/// `p % 64` and row `p / 64`, each times 30.
pub open spec fn square_corner(p: int) -> (i32, i32) {
    ((30 * (p % 64)) as i32, (30 * (p / 64)) as i32)
}

/// Corners come row by row, left to right.
pub open spec fn corner_before(a: (i32, i32), b: (i32, i32)) -> bool {
    a.1 < b.1 || (a.1 == b.1 && a.0 < b.0)
}

proof fn lemma_corner_order(p: int, q: int)
    requires
        0 <= p < q < SCREEN_SIZE,
    ensures
        corner_before(square_corner(p), square_corner(q)),
{
    assert(p / 64 <= q / 64);
    if p / 64 == q / 64 {
        assert(p % 64 < q % 64);
    }
}

/// `corner` is the corner of a lit pixel among the first `n`.
pub open spec fn is_lit_corner(display: Seq<bool>, n: int, corner: (i32, i32)) -> bool {
    exists|p: int| 0 <= p < n && display[p] && corner == #[trigger] square_corner(p)
}

/// The squares to fill are exactly those of the lit pixels, row by row and
/// left to right: every corner listed is that of a lit pixel, every lit
/// pixel's corner is listed, and the corners strictly increase.
pub proof fn lemma_lit_origins(display: Seq<bool>, n: int)
    requires
        0 <= n <= display.len(),
        display.len() <= SCREEN_SIZE,
    ensures
        forall|k: int|
            0 <= k < lit_origins(display, n).len() ==> is_lit_corner(display, n, #[trigger] lit_origins(display, n)[k]),
        forall|p: int| 0 <= p < n && display[p] ==> lit_origins(display, n).contains(#[trigger] square_corner(p)),
        forall|k1: int, k2: int|
            0 <= k1 < k2 < lit_origins(display, n).len() ==> corner_before(
                #[trigger] lit_origins(display, n)[k1],
                #[trigger] lit_origins(display, n)[k2],
            ),
    decreases n,
{
    if n > 0 {
        lemma_lit_origins(display, n - 1);
        let prev = lit_origins(display, n - 1);
        let cur = lit_origins(display, n);
        assert(pixel_origin(n - 1) == square_corner(n - 1));
        assert forall|k: int| 0 <= k < prev.len() implies is_lit_corner(display, n, #[trigger] prev[k]) by {
            assert(is_lit_corner(display, n - 1, prev[k]));
            let p = choose|p: int| 0 <= p < n - 1 && display[p] && prev[k] == #[trigger] square_corner(p);
            assert(0 <= p < n && display[p] && prev[k] == square_corner(p));
        }
        if display[n - 1] {
            assert(cur == prev.push(square_corner(n - 1)));
            assert forall|k: int| 0 <= k < cur.len() implies is_lit_corner(display, n, #[trigger] cur[k]) by {
                if k < prev.len() {
                    assert(cur[k] == prev[k]);
                } else {
                    assert(cur[k] == square_corner(n - 1));
                }
            }
            assert forall|p: int| 0 <= p < n && display[p] implies cur.contains(#[trigger] square_corner(p)) by {
                if p < n - 1 {
                    let k = choose|k: int| 0 <= k < prev.len() && prev[k] == square_corner(p);
                    assert(cur[k] == prev[k]);
                } else {
                    assert(cur[prev.len() as int] == square_corner(p));
                }
            }
            assert forall|k1: int, k2: int| 0 <= k1 < k2 < cur.len() implies corner_before(
                #[trigger] cur[k1],
                #[trigger] cur[k2],
            ) by {
                if k2 == prev.len() {
                    assert(cur[k1] == prev[k1]);
                    assert(is_lit_corner(display, n - 1, prev[k1]));
                    let p = choose|p: int| 0 <= p < n - 1 && display[p] && prev[k1] == #[trigger] square_corner(p);
                    lemma_corner_order(p, n - 1);
                } else {
                    assert(cur[k1] == prev[k1] && cur[k2] == prev[k2]);
                }
            }
        } else {
            assert(cur == prev);
        }
    }
}

/// Cycles run one after another: running one more cycle after a series
/// that succeeded runs it from where the series left off.
pub proof fn lemma_ticks_extend_series(s: EmuState, rnds: Seq<u8>, rnd: u8)
    ensures
        run_ticks(s, Seq::empty()) == model::ok(s),
        run_ticks(s, rnds.push(rnd)) == (if run_ticks(s, rnds).1 is Err {
            run_ticks(s, rnds)
        } else {
            model::tick(run_ticks(s, rnds).0, rnd)
        }),
{
    lemma_ticks_extend(s, rnds, rnd);
}

} // verus!
