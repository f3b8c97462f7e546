//! Rendering of the JSON envelopes the metadata operations answer with:
//! string escaping, decimal and fixed-width hexadecimal numbers.
//!
//! The envelope format is part of this server's interface, so it is rendered
//! here, against an exact specification, rather than delegated.

use crate::text::str_chars;
use vstd::prelude::*;

verus! {

/// The lowercase hexadecimal digit for a value below 16.
pub open spec fn hex_digit(d: int) -> char {
    if d == 0 {
        '0'
    } else if d == 1 {
        '1'
    } else if d == 2 {
        '2'
    } else if d == 3 {
        '3'
    } else if d == 4 {
        '4'
    } else if d == 5 {
        '5'
    } else if d == 6 {
        '6'
    } else if d == 7 {
        '7'
    } else if d == 8 {
        '8'
    } else if d == 9 {
        '9'
    } else if d == 10 {
        'a'
    } else if d == 11 {
        'b'
    } else if d == 12 {
        'c'
    } else if d == 13 {
        'd'
    } else if d == 14 {
        'e'
    } else {
        'f'
    }
}

fn hex_digit_exec(d: u64) -> (r: char)
    requires
        d < 16,
    ensures
        r == hex_digit(d as int),
{
    match d {
        0 => '0',
        1 => '1',
        2 => '2',
        3 => '3',
        4 => '4',
        5 => '5',
        6 => '6',
        7 => '7',
        8 => '8',
        9 => '9',
        10 => 'a',
        11 => 'b',
        12 => 'c',
        13 => 'd',
        14 => 'e',
        _ => 'f',
    }
}

/// The decimal digits of a non-negative number, most significant first.
pub open spec fn dec_digits(n: int) -> Seq<char>
    decreases n,
{
    if n < 10 {
        seq![hex_digit(n)]
    } else {
        dec_digits(n / 10).push(hex_digit(n % 10))
    }
}

/// Appends the decimal rendering of `n`.
pub fn push_dec_u64(out: &mut Vec<char>, n: u64)
    ensures
        final(out)@ == old(out)@ + dec_digits(n as int),
    decreases n,
{
    if n < 10 {
        out.push(hex_digit_exec(n));
        proof {
            assert(final(out)@ =~= old(out)@ + dec_digits(n as int));
        }
    } else {
        push_dec_u64(out, n / 10);
        out.push(hex_digit_exec(n % 10));
        proof {
            assert(final(out)@ =~= old(out)@ + dec_digits(n as int));
        }
    }
}

/// The last `width` hexadecimal digits of `n`, zero-padded, lowercase.
pub open spec fn hex_pad(n: int, width: int) -> Seq<char>
    decreases width,
{
    if width <= 0 {
        Seq::<char>::empty()
    } else {
        hex_pad(n / 16, width - 1).push(hex_digit(n % 16))
    }
}

/// All sixteen hexadecimal digits of a 64-bit value, zero-padded.
pub open spec fn hex16_of(n: u64) -> Seq<char> {
    hex_pad(n as int, 16)
}

fn push_hex_pad(out: &mut Vec<char>, n: u64, width: u64)
    ensures
        final(out)@ == old(out)@ + hex_pad(n as int, width as int),
    decreases width,
{
    if width > 0 {
        push_hex_pad(out, n / 16, width - 1);
        out.push(hex_digit_exec(n % 16));
        proof {
            assert(final(out)@ =~= old(out)@ + hex_pad(n as int, width as int));
        }
    } else {
        proof {
            assert(final(out)@ =~= old(out)@ + hex_pad(n as int, width as int));
        }
    }
}

/// Appends the sixteen-digit hexadecimal rendering of `n`.
pub fn push_hex16_u64(out: &mut Vec<char>, n: u64)
    ensures
        final(out)@ == old(out)@ + hex16_of(n),
{
    push_hex_pad(out, n, 16);
}

/// How one character is written inside a JSON string: quote and backslash
/// get a backslash, control characters become a `\u00..` escape, everything
/// else stands as it is.
pub open spec fn esc_char(c: char) -> Seq<char> {
    if c == '"' {
        seq!['\\', '"']
    } else if c == '\\' {
        seq!['\\', '\\']
    } else if (c as u32) < 0x20 {
        seq![
            '\\',
            'u',
            '0',
            '0',
            hex_digit((c as u32) as int / 16),
            hex_digit((c as u32) as int % 16),
        ]
    } else {
        seq![c]
    }
}

/// The body of a JSON string holding the text `s`.
pub open spec fn json_escaped(s: Seq<char>) -> Seq<char>
    decreases s.len(),
{
    if s.len() == 0 {
        Seq::<char>::empty()
    } else {
        json_escaped(s.drop_last()) + esc_char(s.last())
    }
}

/// Appends the text of `s`, escaped for the inside of a JSON string.
pub fn push_json_escaped(out: &mut Vec<char>, s: &str)
    ensures
        final(out)@ == old(out)@ + json_escaped(s@),
{
    let chars = str_chars(s);
    let mut i: usize = 0;
    while i < chars.len()
        invariant
            i <= chars.len(),
            out@ == old(out)@ + json_escaped(chars@.take(i as int)),
        decreases chars.len() - i,
    {
        proof {
            assert(chars@.take((i + 1) as int).drop_last() =~= chars@.take(i as int));
            assert(chars@.take((i + 1) as int).last() == chars@[i as int]);
        }
        let c = chars[i];
        if c == '"' {
            out.push('\\');
            out.push('"');
        } else if c == '\\' {
            out.push('\\');
            out.push('\\');
        } else {
            let v = c as u32;
            if v < 0x20 {
                out.push('\\');
                out.push('u');
                out.push('0');
                out.push('0');
                out.push(hex_digit_exec((v / 16) as u64));
                out.push(hex_digit_exec((v % 16) as u64));
            } else {
                out.push(c);
            }
        }
        proof {
            assert(out@ =~= old(out)@ + json_escaped(chars@.take((i + 1) as int)));
        }
        i += 1;
    }
    proof {
        assert(chars@.take(chars@.len() as int) =~= chars@);
    }
}

} // verus!
