//! Errors, and their descriptions as text.

use vstd::prelude::*;

verus! {

/// What can go wrong while the machine executes or is driven.
#[derive(Debug, Clone, Copy, PartialEq, Eq, Structural)]
pub enum EmuError {
    /// The program counter points at or past the last byte of memory, so no
    /// two-byte instruction can be fetched there.
    PcOutOfBounds { pc: u16 },
    /// An instruction would read or write memory past its end.
    MemoryOutOfBounds { addr: usize, len: usize },
    /// A call was made with all stack slots in use.
    StackOverflow,
    /// A return was made with an empty stack.
    StackUnderflow,
    /// A key instruction named a register whose value is not a key number.
    InvalidKey { key: u8 },
    /// The instruction word decodes to no instruction.
    UnknownOpcode { opcode: u16 },
}

/// Result of a machine operation.
pub type EmuResult<T = ()> = Result<T, EmuError>;

/// Lower-case hexadecimal digit for `d < 16`.
pub open spec fn hex_char(d: nat) -> char {
    if d < 10 {
        (48 + d) as char
    } else {
        (87 + d) as char
    }
}

/// Decimal digit for `d < 10`.
pub open spec fn dec_char(d: nat) -> char {
    (48 + d) as char
}

/// `n` in lower-case hexadecimal, without leading zeros (`0` for zero).
pub open spec fn hex_digits(n: nat) -> Seq<char>
    decreases n,
{
    if n < 16 {
        seq![hex_char(n)]
    } else {
        hex_digits(n / 16).push(hex_char(n % 16))
    }
}

/// `n` in decimal, without leading zeros (`0` for zero).
pub open spec fn dec_digits(n: nat) -> Seq<char>
    decreases n,
{
    if n < 10 {
        seq![dec_char(n)]
    } else {
        dec_digits(n / 10).push(dec_char(n % 10))
    }
}

/// `s` with zeros in front up to `width` characters.
pub open spec fn zero_pad(s: Seq<char>, width: nat) -> Seq<char> {
    if s.len() >= width {
        s
    } else {
        Seq::new((width - s.len()) as nat, |i: int| '0') + s
    }
}

/// The description of an error, with numbers the way Rust's `{:#05x}`,
/// `{:#04x}`, `{:04x}` and `{}` format them.
pub open spec fn message_text(e: EmuError) -> Seq<char> {
    match e {
        EmuError::PcOutOfBounds { pc } => "program counter out of bounds: 0x"@ + zero_pad(hex_digits(pc as nat), 3),
        EmuError::MemoryOutOfBounds { addr, len } => "memory access out of bounds: addr=0x"@ + zero_pad(
            hex_digits(addr as nat),
            3,
        ) + ", len="@ + dec_digits(len as nat),
        EmuError::StackOverflow => "stack overflow"@,
        EmuError::StackUnderflow => "stack underflow"@,
        EmuError::InvalidKey { key } => "invalid key register value: 0x"@ + zero_pad(hex_digits(key as nat), 2),
        EmuError::UnknownOpcode { opcode } => "unknown opcode: "@ + zero_pad(hex_digits(opcode as nat), 4),
    }
}

/// The value of a digit character in base 16 (lower case), or 16 for a
/// character that is no such digit.
pub open spec fn digit_value(ch: char) -> int {
    if '0' <= ch && ch <= '9' {
        ch as int - '0' as int
    } else if 'a' <= ch && ch <= 'f' {
        ch as int - 'a' as int + 10
    } else {
        16
    }
}

/// The number a sequence of digits spells in base `b`.
pub open spec fn digits_value(ds: Seq<char>, b: int) -> int
    decreases ds.len(),
{
    if ds.len() == 0 {
        0
    } else {
        digits_value(ds.drop_last(), b) * b + digit_value(ds.last())
    }
}

proof fn lemma_digit_char_value(d: nat)
    requires
        d < 16,
    ensures
        digit_value(hex_char(d)) == d,
        d < 10 ==> digit_value(dec_char(d)) == d,
        hex_char(d) != '0' || d == 0,
{
    let c = hex_char(d);
    if d < 10 {
        assert((48 + d) as char as int == 48 + d);
    } else {
        assert((87 + d) as char as int == 87 + d);
    }
}

/// The hexadecimal text of a number spells that number in lower-case
/// hexadecimal digits with no leading zero.
pub proof fn lemma_hex_digits_spell(n: nat)
    ensures
        digits_value(hex_digits(n), 16) == n,
        hex_digits(n).len() >= 1,
        forall|k: int| 0 <= k < hex_digits(n).len() ==> #[trigger] digit_value(hex_digits(n)[k]) < 16,
        n > 0 ==> hex_digits(n)[0] != '0',
    decreases n,
{
    lemma_digit_char_value(n % 16);
    if n < 16 {
        assert(seq![hex_char(n)].drop_last() =~= Seq::<char>::empty());
        assert(digits_value(Seq::<char>::empty(), 16) == 0);
        assert(digits_value(hex_digits(n), 16) == digits_value(Seq::<char>::empty(), 16) * 16 + digit_value(hex_char(n)));
    }
    if n >= 16 {
        lemma_hex_digits_spell(n / 16);
        let ds = hex_digits(n);
        assert(ds.drop_last() =~= hex_digits(n / 16));
        assert(ds.last() == hex_char(n % 16));
        assert(digits_value(ds, 16) == digits_value(hex_digits(n / 16), 16) * 16 + digit_value(hex_char(n % 16)));
        assert forall|k: int| 0 <= k < ds.len() implies #[trigger] digit_value(ds[k]) < 16 by {
            if k < ds.len() - 1 {
                assert(ds[k] == hex_digits(n / 16)[k]);
            }
        }
    }
}

/// The decimal text of a number spells that number in decimal digits with
/// no leading zero.
pub proof fn lemma_dec_digits_spell(n: nat)
    ensures
        digits_value(dec_digits(n), 10) == n,
        dec_digits(n).len() >= 1,
        forall|k: int| 0 <= k < dec_digits(n).len() ==> #[trigger] digit_value(dec_digits(n)[k]) < 10,
        n > 0 ==> dec_digits(n)[0] != '0',
    decreases n,
{
    lemma_digit_char_value(n % 10);
    if n < 10 {
        assert(seq![dec_char(n)].drop_last() =~= Seq::<char>::empty());
        assert(digits_value(Seq::<char>::empty(), 10) == 0);
        assert(digits_value(dec_digits(n), 10) == digits_value(Seq::<char>::empty(), 10) * 10 + digit_value(dec_char(n)));
    }
    if n >= 10 {
        lemma_dec_digits_spell(n / 10);
        let ds = dec_digits(n);
        assert(ds.drop_last() =~= dec_digits(n / 10));
        assert(ds.last() == dec_char(n % 10));
        assert(digits_value(ds, 10) == digits_value(dec_digits(n / 10), 10) * 10 + digit_value(dec_char(n % 10)));
        assert forall|k: int| 0 <= k < ds.len() implies #[trigger] digit_value(ds[k]) < 10 by {
            if k < ds.len() - 1 {
                assert(ds[k] == dec_digits(n / 10)[k]);
            }
        }
    }
}

/// Padding puts only zeros in front, up to the width, and keeps the digits.
pub proof fn lemma_zero_pad(s: Seq<char>, width: nat)
    ensures
        zero_pad(s, width).len() == if s.len() >= width { s.len() } else { width },
        zero_pad(s, width).subrange(zero_pad(s, width).len() - s.len(), zero_pad(s, width).len() as int) == s,
        forall|k: int| 0 <= k < zero_pad(s, width).len() - s.len() ==> #[trigger] zero_pad(s, width)[k] == '0',
{
    let z = zero_pad(s, width);
    assert(z.subrange(z.len() - s.len(), z.len() as int) =~= s);
}

/// The one-character text of hexadecimal digit `d`.
fn hex_digit_str(d: usize) -> (s: &'static str)
    requires
        d < 16,
    ensures
        s@ == seq![hex_char(d as nat)],
{
    if d == 0 {
        proof { reveal_strlit("0"); }
        "0"
    } else if d == 1 {
        proof { reveal_strlit("1"); }
        "1"
    } else if d == 2 {
        proof { reveal_strlit("2"); }
        "2"
    } else if d == 3 {
        proof { reveal_strlit("3"); }
        "3"
    } else if d == 4 {
        proof { reveal_strlit("4"); }
        "4"
    } else if d == 5 {
        proof { reveal_strlit("5"); }
        "5"
    } else if d == 6 {
        proof { reveal_strlit("6"); }
        "6"
    } else if d == 7 {
        proof { reveal_strlit("7"); }
        "7"
    } else if d == 8 {
        proof { reveal_strlit("8"); }
        "8"
    } else if d == 9 {
        proof { reveal_strlit("9"); }
        "9"
    } else if d == 10 {
        proof { reveal_strlit("a"); }
        "a"
    } else if d == 11 {
        proof { reveal_strlit("b"); }
        "b"
    } else if d == 12 {
        proof { reveal_strlit("c"); }
        "c"
    } else if d == 13 {
        proof { reveal_strlit("d"); }
        "d"
    } else if d == 14 {
        proof { reveal_strlit("e"); }
        "e"
    } else {
        proof { reveal_strlit("f"); }
        "f"
    }
}

/// Appends `n` in hexadecimal.
fn append_hex(out: &mut String, n: usize)
    ensures
        final(out)@ == old(out)@ + hex_digits(n as nat),
    decreases n,
{
    if n >= 16 {
        append_hex(out, n / 16);
    }
    out.append(hex_digit_str(n % 16));
    proof {
        if n >= 16 {
            assert(hex_digits(n as nat) == hex_digits((n / 16) as nat).push(hex_char((n % 16) as nat)));
        }
    }
}

/// Appends `n` in decimal.
fn append_dec(out: &mut String, n: usize)
    ensures
        final(out)@ == old(out)@ + dec_digits(n as nat),
    decreases n,
{
    if n >= 10 {
        append_dec(out, n / 10);
    }
    out.append(hex_digit_str(n % 10));
    proof {
        if n >= 10 {
            assert(dec_digits(n as nat) == dec_digits((n / 10) as nat).push(dec_char((n % 10) as nat)));
        }
    }
}

/// Number of hexadecimal digits of `n`.
fn hex_len(n: usize) -> (k: usize)
    ensures
        k == hex_digits(n as nat).len(),
        1 <= k <= n + 1,
    decreases n,
{
    if n >= 16 {
        hex_len(n / 16) + 1
    } else {
        1
    }
}

/// Appends `n` in hexadecimal, with zeros in front up to `width` digits.
fn append_hex_padded(out: &mut String, n: usize, width: usize)
    ensures
        final(out)@ == old(out)@ + zero_pad(hex_digits(n as nat), width as nat),
{
    let len = hex_len(n);
    let mut k = len;
    let ghost start = out@;
    while k < width
        invariant
            len == hex_digits(n as nat).len(),
            len <= k,
            k <= width || k == len,
            out@ == start + Seq::new((k - len) as nat, |i: int| '0'),
        decreases width - k,
    {
        proof { reveal_strlit("0"); }
        out.append("0");
        k = k + 1;
        assert(out@ =~= start + Seq::new((k - len) as nat, |i: int| '0'));
    }
    append_hex(out, n);
    let ghost zeros = Seq::new((k - len) as nat, |i: int| '0');
    assert(out@ == start + zeros + hex_digits(n as nat));
    if len < width {
        assert(zero_pad(hex_digits(n as nat), width as nat) == zeros + hex_digits(n as nat));
    } else {
        assert(zeros =~= Seq::<char>::empty());
    }
    assert(out@ =~= start + zero_pad(hex_digits(n as nat), width as nat));
}

impl EmuError {
    /// A description of the error for people.
    pub fn message(&self) -> (s: String)
        ensures
            s@ == message_text(*self),
    {
        let mut s = String::new();
        match *self {
            EmuError::PcOutOfBounds { pc } => {
                s.append("program counter out of bounds: 0x");
                append_hex_padded(&mut s, pc as usize, 3);
            },
            EmuError::MemoryOutOfBounds { addr, len } => {
                s.append("memory access out of bounds: addr=0x");
                append_hex_padded(&mut s, addr, 3);
                s.append(", len=");
                append_dec(&mut s, len);
            },
            EmuError::StackOverflow => {
                s.append("stack overflow");
            },
            EmuError::StackUnderflow => {
                s.append("stack underflow");
            },
            EmuError::InvalidKey { key } => {
                s.append("invalid key register value: 0x");
                append_hex_padded(&mut s, key as usize, 2);
            },
            EmuError::UnknownOpcode { opcode } => {
                s.append("unknown opcode: ");
                append_hex_padded(&mut s, opcode as usize, 4);
            },
        }
        s
    }
}

} // verus!
