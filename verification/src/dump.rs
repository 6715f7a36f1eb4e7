//! Memory dumps as text, for a host to print while debugging.
//!
//! A dump shows thirty-two bytes to a line. Each line starts with the
//! address of its first byte in hexadecimal, and a space sets off every
//! group of eight bytes. The text is ASCII, returned as bytes.

use vstd::prelude::*;

verus! {

/// ASCII `0`.
pub const DIGIT_ZERO: u8 = 0x30;

/// ASCII `a`.
pub const LETTER_A: u8 = 0x61;

/// ASCII space.
pub const SPACE: u8 = 0x20;

/// ASCII line feed.
pub const LINE_BREAK: u8 = 0x0A;

/// ASCII `:`.
pub const COLON: u8 = 0x3A;

/// The ASCII digit for `digit`, lower case from ten on.
pub open spec fn hex_digit(digit: u8) -> u8 {
    if digit < 10 {
        (DIGIT_ZERO + digit) as u8
    } else {
        (LETTER_A + (digit - 10)) as u8
    }
}

/// The hexadecimal digits of `value`, most significant first, without
/// leading zeros; zero is the one digit `0`.
pub open spec fn hex_digits(value: nat) -> Seq<u8>
    decreases value,
{
    if value < 16 {
        seq![hex_digit(value as u8)]
    } else {
        hex_digits(value / 16).push(hex_digit((value % 16) as u8))
    }
}

/// An address as a dump shows it: in hexadecimal, filled up with zeros to
/// four digits, and longer where four do not hold it.
pub open spec fn address_text(address: nat) -> Seq<u8> {
    let digits = hex_digits(address);
    if digits.len() >= 4 {
        digits
    } else {
        Seq::new((4 - digits.len()) as nat, |i: int| DIGIT_ZERO) + digits
    }
}

/// A byte as two hexadecimal digits.
pub open spec fn hex_byte_text(byte: u8) -> Seq<u8> {
    seq![hex_digit(byte / 16), hex_digit(byte % 16)]
}

/// A byte as three decimal digits.
pub open spec fn dec_byte_text(byte: u8) -> Seq<u8> {
    seq![(DIGIT_ZERO + byte / 100) as u8, (DIGIT_ZERO + (byte / 10) % 10) as u8, (DIGIT_ZERO + byte % 10) as u8]
}

/// Whether every address that a dump of `length` bytes shows is a `usize`,
/// when the first byte has the address `start`: the address of the last
/// line's first byte is the largest one shown.
pub open spec fn addresses_fit(length: nat, start: nat) -> bool {
    length == 0 || start + ((length - 1) / 32) * 32 <= usize::MAX
}

/// What a dump shows for the byte at position `i`: a space before every
/// eighth byte, a line break and the address before every thirty-second, the
/// byte itself, hexadecimal or decimal, and a space behind it.
pub open spec fn entry_text(memory: Seq<u8>, start: nat, hex: bool, i: int) -> Seq<u8> {
    let group = if i % 8 == 0 {
        seq![SPACE]
    } else {
        Seq::<u8>::empty()
    };
    let line = if i % 32 == 0 {
        seq![LINE_BREAK] + address_text((i + start) as nat) + seq![COLON, SPACE]
    } else {
        Seq::<u8>::empty()
    };
    let byte = if hex {
        hex_byte_text(memory[i])
    } else {
        dec_byte_text(memory[i])
    };
    group + line + byte + seq![SPACE]
}

/// What a dump shows for the first `count` bytes.
pub open spec fn entries_text(memory: Seq<u8>, start: nat, hex: bool, count: nat) -> Seq<u8>
    decreases count,
{
    if count == 0 {
        Seq::<u8>::empty()
    } else {
        entries_text(memory, start, hex, (count - 1) as nat) + entry_text(
            memory,
            start,
            hex,
            count - 1,
        )
    }
}

/// The whole dump of `memory`, whose first byte has the address `start`: the
/// text for every byte, and a line break at the end.
pub open spec fn dump_text(memory: Seq<u8>, start: nat, hex: bool) -> Seq<u8> {
    entries_text(memory, start, hex, memory.len()) + seq![LINE_BREAK]
}

fn hex_digit_of(digit: u8) -> (text: u8)
    requires
        digit < 16,
    ensures
        text == hex_digit(digit),
{
    if digit < 10 {
        DIGIT_ZERO + digit
    } else {
        LETTER_A + (digit - 10)
    }
}

fn push_hex_digits(out: &mut Vec<u8>, value: usize)
    ensures
        final(out)@ == old(out)@ + hex_digits(value as nat),
    decreases value,
{
    if value >= 16 {
        push_hex_digits(out, value / 16);
    }
    out.push(hex_digit_of((value % 16) as u8));
    assert(out@ =~= old(out)@ + hex_digits(value as nat));
}

fn count_hex_digits(value: usize) -> (count: usize)
    ensures
        count == hex_digits(value as nat).len(),
    decreases value,
{
    if value >= 16 {
        let higher: usize = count_hex_digits(value / 16);
        assert(higher <= value / 16 + 1) by {
            lemma_hex_digits_len(value as nat / 16);
        }
        higher + 1
    } else {
        1
    }
}

/// A number has no more digits than its value plus one.
proof fn lemma_hex_digits_len(value: nat)
    ensures
        hex_digits(value).len() <= value + 1,
    decreases value,
{
    if value >= 16 {
        lemma_hex_digits_len(value / 16);
    }
}

fn push_address(out: &mut Vec<u8>, address: usize)
    ensures
        final(out)@ == old(out)@ + address_text(address as nat),
{
    let digits: usize = count_hex_digits(address);
    let mut width: usize = digits;
    while width < 4
        invariant
            digits <= width,
            digits < 4 ==> width <= 4,
            digits >= 4 ==> width == digits,
            out@ == old(out)@ + Seq::new((width - digits) as nat, |i: int| DIGIT_ZERO),
        decreases 4 - width,
    {
        out.push(DIGIT_ZERO);
        width += 1;
        assert(out@ =~= old(out)@ + Seq::new((width - digits) as nat, |i: int| DIGIT_ZERO));
    }
    let ghost zeros = Seq::new((width - digits) as nat, |i: int| DIGIT_ZERO);
    push_hex_digits(out, address);
    proof {
        let number = hex_digits(address as nat);
        assert(address_text(address as nat) =~= zeros + number);
        assert(out@ =~= old(out)@ + (zeros + number));
    }
}

fn push_byte(out: &mut Vec<u8>, byte: u8, hex: bool)
    ensures
        final(out)@ == old(out)@ + (if hex {
            hex_byte_text(byte)
        } else {
            dec_byte_text(byte)
        }),
{
    if hex {
        out.push(hex_digit_of(byte / 16));
        out.push(hex_digit_of(byte % 16));
        assert(out@ =~= old(out)@ + hex_byte_text(byte));
    } else {
        out.push(DIGIT_ZERO + byte / 100);
        out.push(DIGIT_ZERO + (byte / 10) % 10);
        out.push(DIGIT_ZERO + byte % 10);
        assert(out@ =~= old(out)@ + dec_byte_text(byte));
    }
}

fn push_group_space(out: &mut Vec<u8>, i: usize)
    ensures
        final(out)@ == old(out)@ + (if i % 8 == 0 {
            seq![SPACE]
        } else {
            Seq::<u8>::empty()
        }),
{
    if i % 8 == 0 {
        out.push(SPACE);
    }
    assert(out@ =~= old(out)@ + (if i % 8 == 0 {
        seq![SPACE]
    } else {
        Seq::<u8>::empty()
    }));
}

fn push_line_start(out: &mut Vec<u8>, start: usize, i: usize)
    requires
        i % 32 == 0 ==> i + start <= usize::MAX,
    ensures
        final(out)@ == old(out)@ + (if i % 32 == 0 {
            seq![LINE_BREAK] + address_text((i + start) as nat) + seq![COLON, SPACE]
        } else {
            Seq::<u8>::empty()
        }),
{
    if i % 32 == 0 {
        out.push(LINE_BREAK);
        let ghost broken = out@;
        push_address(out, i + start);
        let ghost addressed = out@;
        out.push(COLON);
        out.push(SPACE);
        assert(out@ =~= old(out)@ + (seq![LINE_BREAK] + address_text((i + start) as nat)
            + seq![COLON, SPACE])) by {
            assert(broken =~= old(out)@ + seq![LINE_BREAK]);
            assert(addressed =~= broken + address_text((i + start) as nat));
            assert(out@ =~= addressed + seq![COLON, SPACE]);
        }
    } else {
        assert(out@ =~= old(out)@ + Seq::<u8>::empty());
    }
}

fn push_entry(out: &mut Vec<u8>, memory: &[u8], start: usize, hex: bool, i: usize)
    requires
        i < memory@.len(),
        addresses_fit(memory@.len(), start as nat),
    ensures
        final(out)@ == old(out)@ + entry_text(memory@, start as nat, hex, i as int),
{
    push_group_space(out, i);
    let ghost grouped = out@;
    push_line_start(out, start, i);
    let ghost lined = out@;
    push_byte(out, memory[i], hex);
    let ghost valued = out@;
    out.push(SPACE);
    proof {
        let group = if i % 8 == 0 {
            seq![SPACE]
        } else {
            Seq::<u8>::empty()
        };
        let line = if i % 32 == 0 {
            seq![LINE_BREAK] + address_text((i + start) as nat) + seq![COLON, SPACE]
        } else {
            Seq::<u8>::empty()
        };
        let byte = if hex {
            hex_byte_text(memory@[i as int])
        } else {
            dec_byte_text(memory@[i as int])
        };
        assert(grouped == old(out)@ + group);
        assert(lined == grouped + line);
        assert(valued == lined + byte);
        assert(out@ =~= valued + seq![SPACE]);
        assert(out@ =~= old(out)@ + (group + line + byte + seq![SPACE]));
    }
}

fn dump_memory(memory: &[u8], start: usize, hex: bool) -> (text: Vec<u8>)
    requires
        addresses_fit(memory@.len(), start as nat),
    ensures
        text@ == dump_text(memory@, start as nat, hex),
{
    let mut text: Vec<u8> = Vec::new();
    let length: usize = memory.len();
    let mut i: usize = 0;
    while i < length
        invariant
            i <= length,
            length == memory@.len(),
            addresses_fit(memory@.len(), start as nat),
            text@ == entries_text(memory@, start as nat, hex, i as nat),
        decreases length - i,
    {
        push_entry(&mut text, memory, start, hex, i);
        i += 1;
    }
    text.push(LINE_BREAK);
    text
}

/// The dump of `memory` with the bytes as two hexadecimal digits each.
/// `start` is the address of the first byte; every address shown must be a
/// `usize`.
pub fn dump_memory_hex(memory: &[u8], start: usize) -> (text: Vec<u8>)
    requires
        addresses_fit(memory@.len(), start as nat),
    ensures
        text@ == dump_text(memory@, start as nat, true),
{
    dump_memory(memory, start, true)
}

/// The dump of `memory` with the bytes as three decimal digits each.
/// `start` is the address of the first byte; every address shown must be a
/// `usize`.
pub fn dump_memory_dec(memory: &[u8], start: usize) -> (text: Vec<u8>)
    requires
        addresses_fit(memory@.len(), start as nat),
    ensures
        text@ == dump_text(memory@, start as nat, false),
{
    dump_memory(memory, start, false)
}

} // verus!
