//! Decoding and executing instructions.

use vstd::prelude::*;

use crate::emu::Emu;
use crate::error::{EmuError, EmuResult};
use crate::model::{self, EmuState};
use crate::{NUM_KEYS, SCREEN_SIZE};

verus! {

/// Two bytes joined big-endian.
pub proof fn lemma_join_bytes(hi: u16, lo: u16)
    requires
        hi < 256,
        lo < 256,
    ensures
        (hi << 8) | lo == hi * 256 + lo,
{
    assert((hi << 8) | lo == hi * 256 + lo) by (bit_vector)
        requires
            hi < 256,
            lo < 256,
    ;
}

/// The masks and shifts of the decoder pick out the hexadecimal digits of the
/// instruction word.
pub proof fn lemma_decode(op: u16)
    ensures
        (op & 0xF000) >> 12 == op / 0x1000,
        (op & 0x0F00) >> 8 == (op / 0x100) % 16,
        (op & 0x00F0) >> 4 == (op / 0x10) % 16,
        op & 0x000F == op % 16,
        op & 0xFF == op % 0x100,
        op & 0xFFF == op % 0x1000,
        op == (op / 0x1000) * 0x1000 + ((op / 0x100) % 16) * 0x100 + ((op / 0x10) % 16) * 0x10 + op % 16,
{
    assert((op & 0xF000) >> 12 == op / 0x1000) by (bit_vector);
    assert((op & 0x0F00) >> 8 == (op / 0x100) % 16) by (bit_vector);
    assert((op & 0x00F0) >> 4 == (op / 0x10) % 16) by (bit_vector);
    assert(op & 0x000F == op % 16) by (bit_vector);
    assert(op & 0xFF == op % 0x100) by (bit_vector);
    assert(op & 0xFFF == op % 0x1000) by (bit_vector);
    assert(op == (op / 0x1000) * 0x1000 + ((op / 0x100) % 16) * 0x100 + ((op / 0x10) % 16) * 0x10
        + op % 16) by (bit_vector);
}

/// Single-bit shifts of a byte in arithmetic terms.
pub proof fn lemma_byte_shifts(b: u8)
    ensures
        b & 1 == b % 2,
        b >> 1u8 == b / 2,
        (b >> 7u8) & 1 == b / 128,
        b << 1u8 == (b * 2) % 256,
{
    assert(b & 1 == b % 2) by (bit_vector);
    assert(b >> 1u8 == b / 2) by (bit_vector);
    assert((b >> 7u8) & 1 == b / 128) by (bit_vector);
    assert(b << 1u8 == (b * 2) % 256) by (bit_vector);
}

impl Emu {
    /// Executes one instruction word, drawing a random byte from the `rand`
    /// crate when the instruction is `CXNN`.
    pub fn execute(&mut self, op: u16) -> (r: EmuResult)
        requires
            old(self).wf(),
            model::pc_arith_fits(old(self)@, op),
        ensures
            final(self).wf(),
            exists|rnd: u8| (final(self)@, r) == #[trigger] model::execute(old(self)@, op, rnd),
            r is Err ==> final(self)@ == old(self)@,
            final(self).keys@ == old(self).keys@,
    {
        let rnd = if (op & 0xF000) == 0xC000 {
            crate::rng::random_byte()
        } else {
            0
        };
        self.execute_with_random(op, rnd)
    }

    /// Executes one instruction word, with `rnd` as the random byte that
    /// `CXNN` masks.
    pub fn execute_with_random(&mut self, op: u16, rnd: u8) -> (r: EmuResult)
        requires
            old(self).wf(),
            model::pc_arith_fits(old(self)@, op),
        ensures
            final(self).wf(),
            (final(self)@, r) == model::execute(old(self)@, op, rnd),
            r is Err ==> final(self)@ == old(self)@,
            final(self).keys@ == old(self).keys@,
    {
        proof {
            crate::laws::lemma_failed_execute_changes_nothing(self@, op, rnd);
            crate::laws::lemma_execute_frame(self@, op, rnd);
        }
        let opcode_class = (op & 0xF000) >> 12;
        let x = ((op & 0x0F00) >> 8) as usize;
        let y = ((op & 0x00F0) >> 4) as usize;
        let n = op & 0x000F;
        let nn = (op & 0xFF) as u8;
        let nnn = op & 0xFFF;
        proof {
            lemma_decode(op);
        }
        match (opcode_class, x, y, n) {
            (0, 0, 0, 0) => self.op_nop()?,
            (0, 0, 0xE, 0) => self.op_cls()?,
            (0, 0, 0xE, 0xE) => self.op_ret()?,
            (1, _, _, _) => self.op_jmp(nnn)?,
            (2, _, _, _) => self.op_call(nnn)?,
            (3, _, _, _) => self.op_se_vx_nn(x, nn)?,
            (4, _, _, _) => self.op_sne_vx_nn(x, nn)?,
            (5, _, _, 0) => self.op_se_vx_vy(x, y)?,
            (6, _, _, _) => self.op_ld_vx_nn(x, nn)?,
            (7, _, _, _) => self.op_add_vx_nn(x, nn)?,
            (8, _, _, 0) => self.op_ld_vx_vy(x, y)?,
            (8, _, _, 1) => self.op_or_vx_vy(x, y)?,
            (8, _, _, 2) => self.op_and_vx_vy(x, y)?,
            (8, _, _, 3) => self.op_xor_vx_vy(x, y)?,
            (8, _, _, 4) => self.op_add_vx_vy(x, y)?,
            (8, _, _, 5) => self.op_sub_vx_vy(x, y)?,
            (8, _, _, 6) => self.op_shr_vx(x)?,
            (8, _, _, 7) => self.op_subn_vx_vy(x, y)?,
            (8, _, _, 0xE) => self.op_shl_vx(x)?,
            (9, _, _, 0) => self.op_sne_vx_vy(x, y)?,
            (0xA, _, _, _) => self.op_ld_i_nnn(nnn)?,
            (0xB, _, _, _) => self.op_jmp_v0_nnn(nnn)?,
            (0xC, _, _, _) => self.op_rnd_vx_nn(x, nn, rnd)?,
            (0xD, _, _, _) => self.op_draw(x, y, n)?,
            (0xE, _, 9, 0xE) => self.op_skp_vx(x)?,
            (0xE, _, 0xA, 1) => self.op_sknp_vx(x)?,
            (0xF, _, 0, 7) => self.op_ld_vx_dt(x)?,
            (0xF, _, 0, 0xA) => self.op_wait_key(x)?,
            (0xF, _, 1, 5) => self.op_ld_dt_vx(x)?,
            (0xF, _, 1, 8) => self.op_ld_st_vx(x)?,
            (0xF, _, 1, 0xE) => self.op_add_i_vx(x)?,
            (0xF, _, 2, 9) => self.op_ld_font_vx(x)?,
            (0xF, _, 3, 3) => self.op_ld_bcd_vx(x)?,
            (0xF, _, 5, 5) => self.op_ld_i_vx(x)?,
            (0xF, _, 6, 5) => self.op_ld_vx_i(x)?,
            _ => return Err(EmuError::UnknownOpcode { opcode: op }),
        }
        Ok(())
    }

    /// Fetches the instruction at the program counter and executes it.
    pub fn tick(&mut self) -> (r: EmuResult)
        requires
            old(self).wf(),
        ensures
            final(self).wf(),
            exists|rnd: u8| (final(self)@, r) == #[trigger] model::tick(old(self)@, rnd),
    {
        let ghost s0 = self@;
        let op = match self.fetch() {
            Ok(op) => op,
            Err(e) => {
                assert(model::tick(s0, 0).1 == Err::<(), EmuError>(e));
                return Err(e);
            },
        };
        let ghost s1 = self@;
        let r = self.execute(op);
        proof {
            let rnd = choose|rnd: u8| (self@, r) == #[trigger] model::execute(s1, op, rnd);
            assert(model::tick(s0, rnd) == model::execute(s1, op, rnd));
        }
        r
    }

    /// `0000`: do nothing.
    fn op_nop(&mut self) -> (r: EmuResult)
        ensures
            (final(self)@, r) == model::ok(old(self)@),
    {
        Ok(())
    }

    /// `00E0`: clear the screen.
    fn op_cls(&mut self) -> (r: EmuResult)
        ensures
            (final(self)@, r) == model::ok(EmuState { screen: model::blank_screen(), ..old(self)@ }),
    {
        self.screen = [false; SCREEN_SIZE];
        assert(self.screen@ =~= model::blank_screen());
        Ok(())
    }

    /// `00EE`: return from a call.
    fn op_ret(&mut self) -> (r: EmuResult)
        requires
            old(self).wf(),
        ensures
            final(self).wf(),
            (final(self)@, r) == model::ret(old(self)@),
    {
        let ret_addr = self.pop()?;
        self.pc = ret_addr;
        Ok(())
    }

    /// `1NNN`: jump.
    fn op_jmp(&mut self, nnn: u16) -> (r: EmuResult)
        ensures
            (final(self)@, r) == model::ok(EmuState { pc: nnn, ..old(self)@ }),
    {
        self.pc = nnn;
        Ok(())
    }

    /// `2NNN`: call.
    fn op_call(&mut self, nnn: u16) -> (r: EmuResult)
        requires
            old(self).wf(),
        ensures
            final(self).wf(),
            (final(self)@, r) == model::call(old(self)@, nnn),
    {
        self.push(self.pc)?;
        self.pc = nnn;
        Ok(())
    }

    /// `3XNN`: skip when `VX == NN`.
    fn op_se_vx_nn(&mut self, x: usize, nn: u8) -> (r: EmuResult)
        requires
            x < 16,
            old(self).v_reg@[x as int] == nn ==> old(self).pc + 2 <= u16::MAX,
        ensures
            (final(self)@, r) == model::ok(model::skip_if(old(self)@, old(self).v_reg@[x as int] == nn)),
    {
        if self.v_reg[x] == nn {
            self.pc += 2;
        }
        Ok(())
    }

    /// `4XNN`: skip when `VX != NN`.
    fn op_sne_vx_nn(&mut self, x: usize, nn: u8) -> (r: EmuResult)
        requires
            x < 16,
            old(self).v_reg@[x as int] != nn ==> old(self).pc + 2 <= u16::MAX,
        ensures
            (final(self)@, r) == model::ok(model::skip_if(old(self)@, old(self).v_reg@[x as int] != nn)),
    {
        if self.v_reg[x] != nn {
            self.pc += 2;
        }
        Ok(())
    }

    /// `5XY0`: skip when `VX == VY`.
    fn op_se_vx_vy(&mut self, x: usize, y: usize) -> (r: EmuResult)
        requires
            x < 16,
            y < 16,
            old(self).v_reg@[x as int] == old(self).v_reg@[y as int] ==> old(self).pc + 2 <= u16::MAX,
        ensures
            (final(self)@, r) == model::ok(
                model::skip_if(old(self)@, old(self).v_reg@[x as int] == old(self).v_reg@[y as int]),
            ),
    {
        if self.v_reg[x] == self.v_reg[y] {
            self.pc += 2;
        }
        Ok(())
    }

    /// `6XNN`: `VX = NN`.
    fn op_ld_vx_nn(&mut self, x: usize, nn: u8) -> (r: EmuResult)
        requires
            x < 16,
        ensures
            (final(self)@, r) == model::ok(model::set_v(old(self)@, x as int, nn)),
    {
        self.v_reg[x] = nn;
        Ok(())
    }

    /// `7XNN`: `VX += NN`, wrapping, flags untouched.
    fn op_add_vx_nn(&mut self, x: usize, nn: u8) -> (r: EmuResult)
        requires
            x < 16,
        ensures
            (final(self)@, r) == model::ok(
                model::set_v(old(self)@, x as int, model::add_u8(old(self).v_reg@[x as int], nn)),
            ),
    {
        self.v_reg[x] = self.v_reg[x].wrapping_add(nn);
        Ok(())
    }

    /// `8XY0`: `VX = VY`.
    fn op_ld_vx_vy(&mut self, x: usize, y: usize) -> (r: EmuResult)
        requires
            x < 16,
            y < 16,
        ensures
            (final(self)@, r) == model::ok(model::set_v(old(self)@, x as int, old(self).v_reg@[y as int])),
    {
        self.v_reg[x] = self.v_reg[y];
        Ok(())
    }

    /// `8XY1`: `VX |= VY`.
    fn op_or_vx_vy(&mut self, x: usize, y: usize) -> (r: EmuResult)
        requires
            x < 16,
            y < 16,
        ensures
            (final(self)@, r) == model::ok(
                model::set_v(old(self)@, x as int, old(self).v_reg@[x as int] | old(self).v_reg@[y as int]),
            ),
    {
        self.v_reg[x] = self.v_reg[x] | self.v_reg[y];
        Ok(())
    }

    /// `8XY2`: `VX &= VY`.
    fn op_and_vx_vy(&mut self, x: usize, y: usize) -> (r: EmuResult)
        requires
            x < 16,
            y < 16,
        ensures
            (final(self)@, r) == model::ok(
                model::set_v(old(self)@, x as int, old(self).v_reg@[x as int] & old(self).v_reg@[y as int]),
            ),
    {
        self.v_reg[x] = self.v_reg[x] & self.v_reg[y];
        Ok(())
    }

    /// `8XY3`: `VX ^= VY`.
    fn op_xor_vx_vy(&mut self, x: usize, y: usize) -> (r: EmuResult)
        requires
            x < 16,
            y < 16,
        ensures
            (final(self)@, r) == model::ok(
                model::set_v(old(self)@, x as int, old(self).v_reg@[x as int] ^ old(self).v_reg@[y as int]),
            ),
    {
        self.v_reg[x] = self.v_reg[x] ^ self.v_reg[y];
        Ok(())
    }

    /// `8XY4`: `VX += VY`, `VF` = carry.
    fn op_add_vx_vy(&mut self, x: usize, y: usize) -> (r: EmuResult)
        requires
            x < 16,
            y < 16,
        ensures
            (final(self)@, r) == model::ok(model::add_vx_vy(old(self)@, x as int, y as int)),
    {
        let vx = self.v_reg[x];
        let vy = self.v_reg[y];
        let new_vx = vx.wrapping_add(vy);
        let carry = (vx as u16) + (vy as u16) > 255;
        let new_vf = if carry { 1 } else { 0 };
        self.v_reg[x] = new_vx;
        self.v_reg[0xF] = new_vf;
        Ok(())
    }

    /// `8XY5`: `VX -= VY`, `VF` = 1 when no borrow.
    fn op_sub_vx_vy(&mut self, x: usize, y: usize) -> (r: EmuResult)
        requires
            x < 16,
            y < 16,
        ensures
            (final(self)@, r) == model::ok(model::sub_vx_vy(old(self)@, x as int, y as int)),
    {
        let vx = self.v_reg[x];
        let vy = self.v_reg[y];
        let new_vx = vx.wrapping_sub(vy);
        let borrow = vx < vy;
        let new_vf = if borrow { 0 } else { 1 };
        self.v_reg[x] = new_vx;
        self.v_reg[0xF] = new_vf;
        Ok(())
    }

    /// `8XY6`: `VX >>= 1`, `VF` = the bit shifted out.
    fn op_shr_vx(&mut self, x: usize) -> (r: EmuResult)
        requires
            x < 16,
        ensures
            (final(self)@, r) == model::ok(model::shr_vx(old(self)@, x as int)),
    {
        let vx = self.v_reg[x];
        proof {
            lemma_byte_shifts(vx);
        }
        let lsb = vx & 1;
        self.v_reg[x] = vx >> 1u8;
        self.v_reg[0xF] = lsb;
        Ok(())
    }

    /// `8XY7`: `VX = VY - VX`, `VF` = 1 when no borrow.
    fn op_subn_vx_vy(&mut self, x: usize, y: usize) -> (r: EmuResult)
        requires
            x < 16,
            y < 16,
        ensures
            (final(self)@, r) == model::ok(model::subn_vx_vy(old(self)@, x as int, y as int)),
    {
        let vx = self.v_reg[x];
        let vy = self.v_reg[y];
        let new_vx = vy.wrapping_sub(vx);
        let borrow = vy < vx;
        let new_vf = if borrow { 0 } else { 1 };
        self.v_reg[x] = new_vx;
        self.v_reg[0xF] = new_vf;
        Ok(())
    }

    /// `8XYE`: `VX <<= 1`, `VF` = the bit shifted out.
    fn op_shl_vx(&mut self, x: usize) -> (r: EmuResult)
        requires
            x < 16,
        ensures
            (final(self)@, r) == model::ok(model::shl_vx(old(self)@, x as int)),
    {
        let vx = self.v_reg[x];
        proof {
            lemma_byte_shifts(vx);
        }
        let msb = (vx >> 7u8) & 1;
        self.v_reg[x] = vx << 1u8;
        self.v_reg[0xF] = msb;
        Ok(())
    }

    /// `9XY0`: skip when `VX != VY`.
    fn op_sne_vx_vy(&mut self, x: usize, y: usize) -> (r: EmuResult)
        requires
            x < 16,
            y < 16,
            old(self).v_reg@[x as int] != old(self).v_reg@[y as int] ==> old(self).pc + 2 <= u16::MAX,
        ensures
            (final(self)@, r) == model::ok(
                model::skip_if(old(self)@, old(self).v_reg@[x as int] != old(self).v_reg@[y as int]),
            ),
    {
        if self.v_reg[x] != self.v_reg[y] {
            self.pc += 2;
        }
        Ok(())
    }

    /// `ANNN`: `I = NNN`.
    fn op_ld_i_nnn(&mut self, nnn: u16) -> (r: EmuResult)
        ensures
            (final(self)@, r) == model::ok(EmuState { i: nnn, ..old(self)@ }),
    {
        self.i_reg = nnn;
        Ok(())
    }

    /// `BNNN`: jump to `V0 + NNN`.
    fn op_jmp_v0_nnn(&mut self, nnn: u16) -> (r: EmuResult)
        requires
            nnn < 0x1000,
        ensures
            (final(self)@, r) == model::ok(EmuState { pc: (old(self).v_reg@[0] + nnn) as u16, ..old(self)@ }),
    {
        self.pc = (self.v_reg[0] as u16) + nnn;
        Ok(())
    }

    /// `CXNN`: `VX = rnd & NN`.
    fn op_rnd_vx_nn(&mut self, x: usize, nn: u8, rnd: u8) -> (r: EmuResult)
        requires
            x < 16,
        ensures
            (final(self)@, r) == model::ok(model::set_v(old(self)@, x as int, rnd & nn)),
    {
        self.v_reg[x] = rnd & nn;
        Ok(())
    }

    /// `EX9E`: skip when key `VX` is down.
    fn op_skp_vx(&mut self, x: usize) -> (r: EmuResult)
        requires
            x < 16,
            old(self).v_reg@[x as int] < NUM_KEYS && old(self).keys@[old(self).v_reg@[x as int] as int]
                ==> old(self).pc + 2 <= u16::MAX,
        ensures
            (final(self)@, r) == model::skip_key(old(self)@, x as int, true),
    {
        let vx = self.v_reg[x];
        if vx as usize >= NUM_KEYS {
            return Err(EmuError::InvalidKey { key: vx });
        }
        let key = self.keys[vx as usize];
        if key {
            self.pc += 2;
        }
        Ok(())
    }

    /// `EXA1`: skip when key `VX` is up.
    fn op_sknp_vx(&mut self, x: usize) -> (r: EmuResult)
        requires
            x < 16,
            old(self).v_reg@[x as int] < NUM_KEYS && !old(self).keys@[old(self).v_reg@[x as int] as int]
                ==> old(self).pc + 2 <= u16::MAX,
        ensures
            (final(self)@, r) == model::skip_key(old(self)@, x as int, false),
    {
        let vx = self.v_reg[x];
        if vx as usize >= NUM_KEYS {
            return Err(EmuError::InvalidKey { key: vx });
        }
        let key = self.keys[vx as usize];
        if !key {
            self.pc += 2;
        }
        Ok(())
    }

    /// `FX07`: `VX = DT`.
    fn op_ld_vx_dt(&mut self, x: usize) -> (r: EmuResult)
        requires
            x < 16,
        ensures
            (final(self)@, r) == model::ok(model::set_v(old(self)@, x as int, old(self).dt)),
    {
        self.v_reg[x] = self.dt;
        Ok(())
    }

    /// `FX0A`: wait for a key and put it in `VX`.
    fn op_wait_key(&mut self, x: usize) -> (r: EmuResult)
        requires
            x < 16,
            !model::any_key_pressed(old(self)@.keys) ==> old(self).pc >= 2,
        ensures
            (final(self)@, r) == model::ok(model::wait_key(old(self)@, x as int)),
    {
        let mut pressed = false;
        let mut i: usize = 0;
        while i < NUM_KEYS
            invariant_except_break
                i <= NUM_KEYS,
                !pressed,
                x < 16,
                self@ == old(self)@,
                forall|j: int| 0 <= j < i ==> !self.keys@[j],
            ensures
                pressed ==> model::is_first_pressed(old(self)@.keys, i as int) && self@ == model::set_v(
                    old(self)@,
                    x as int,
                    i as u8,
                ),
                !pressed ==> self@ == old(self)@ && forall|j: int| 0 <= j < NUM_KEYS ==> !self.keys@[j],
            decreases NUM_KEYS - i,
        {
            if self.keys[i] {
                self.v_reg[x] = i as u8;
                pressed = true;
                break;
            }
            i += 1;
        }
        if !pressed {
            self.pc -= 2;
        } else {
            proof {
                let k = model::first_pressed(old(self)@.keys);
                assert(model::is_first_pressed(old(self)@.keys, i as int));
                assert(k == i) by {
                    assert(model::is_first_pressed(old(self)@.keys, k));
                    if k < i {
                        assert(!old(self)@.keys[k]);
                    }
                    if k > i {
                        assert(!old(self)@.keys[i as int]);
                    }
                }
            }
        }
        Ok(())
    }

    /// `FX15`: `DT = VX`.
    fn op_ld_dt_vx(&mut self, x: usize) -> (r: EmuResult)
        requires
            x < 16,
        ensures
            (final(self)@, r) == model::ok(EmuState { dt: old(self).v_reg@[x as int], ..old(self)@ }),
    {
        self.dt = self.v_reg[x];
        Ok(())
    }

    /// `FX18`: `ST = VX`.
    fn op_ld_st_vx(&mut self, x: usize) -> (r: EmuResult)
        requires
            x < 16,
        ensures
            (final(self)@, r) == model::ok(EmuState { st: old(self).v_reg@[x as int], ..old(self)@ }),
    {
        self.st = self.v_reg[x];
        Ok(())
    }

    /// `FX1E`: `I += VX`, wrapping.
    fn op_add_i_vx(&mut self, x: usize) -> (r: EmuResult)
        requires
            x < 16,
        ensures
            (final(self)@, r) == model::ok(
                EmuState { i: ((old(self).i_reg + old(self).v_reg@[x as int]) % 0x10000) as u16, ..old(self)@ },
            ),
    {
        let vx = self.v_reg[x] as u16;
        self.i_reg = self.i_reg.wrapping_add(vx);
        Ok(())
    }

    /// `FX29`: `I` = address of the font sprite for digit `VX`.
    fn op_ld_font_vx(&mut self, x: usize) -> (r: EmuResult)
        requires
            x < 16,
        ensures
            (final(self)@, r) == model::ok(EmuState { i: (old(self).v_reg@[x as int] * 5) as u16, ..old(self)@ }),
    {
        let c = self.v_reg[x] as u16;
        self.i_reg = c * 5;
        Ok(())
    }

    /// `FX33`: store the decimal digits of `VX` at `I`.
    fn op_ld_bcd_vx(&mut self, x: usize) -> (r: EmuResult)
        requires
            x < 16,
        ensures
            (final(self)@, r) == model::bcd(old(self)@, x as int),
    {
        let vx = self.v_reg[x];
        let range = self.checked_ram_range(self.i_reg as usize, 3)?;
        let i = range.start;
        self.ram[i] = vx / 100;
        self.ram[i + 1] = (vx % 100) / 10;
        self.ram[i + 2] = vx % 10;
        Ok(())
    }

    /// `FX55`: store `V0..=VX` at `I`.
    fn op_ld_i_vx(&mut self, x: usize) -> (r: EmuResult)
        requires
            x < 16,
        ensures
            (final(self)@, r) == model::store_regs(old(self)@, x as int),
    {
        let i = self.i_reg as usize;
        self.checked_ram_range(i, x + 1)?;
        let mut idx: usize = 0;
        while idx <= x
            invariant
                x < 16,
                i == old(self).i_reg,
                i + x + 1 <= crate::RAM_SIZE,
                idx <= x + 1,
                self@ == (EmuState { ram: self.ram@, ..old(self)@ }),
                forall|a: int|
                    0 <= a < crate::RAM_SIZE ==> #[trigger] self.ram@[a] == (if i <= a < i + idx {
                        old(self).v_reg@[a - i]
                    } else {
                        old(self).ram@[a]
                    }),
            decreases x + 1 - idx,
        {
            self.ram[i + idx] = self.v_reg[idx];
            idx += 1;
        }
        assert(self.ram@ =~= model::store_regs(old(self)@, x as int).0.ram);
        Ok(())
    }

    /// `FX65`: load `V0..=VX` from `I`.
    fn op_ld_vx_i(&mut self, x: usize) -> (r: EmuResult)
        requires
            x < 16,
        ensures
            (final(self)@, r) == model::load_regs(old(self)@, x as int),
    {
        let i = self.i_reg as usize;
        self.checked_ram_range(i, x + 1)?;
        let mut idx: usize = 0;
        while idx <= x
            invariant
                x < 16,
                i == old(self).i_reg,
                i + x + 1 <= crate::RAM_SIZE,
                idx <= x + 1,
                self@ == (EmuState { v: self.v_reg@, ..old(self)@ }),
                forall|k: int|
                    0 <= k < 16 ==> #[trigger] self.v_reg@[k] == (if k < idx {
                        old(self).ram@[i + k]
                    } else {
                        old(self).v_reg@[k]
                    }),
            decreases x + 1 - idx,
        {
            self.v_reg[idx] = self.ram[i + idx];
            idx += 1;
        }
        assert(self.v_reg@ =~= model::load_regs(old(self)@, x as int).0.v);
        Ok(())
    }
}

} // verus!
