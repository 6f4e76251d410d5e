//! Breakpoint specification parsing.
//!
//! A breakpoint request string takes one of three forms, told apart by
//! shape alone: a leading `*` marks a raw address in hexadecimal (with or
//! without a `0x` prefix after the star), a bare decimal integer is a
//! source line number, and anything else is a function name.  Resolution of
//! line numbers and function names to addresses is the symbol resolver's
//! business, not this module's.

use vstd::prelude::*;

verus! {

/// Whether `c` is a digit of base-`radix` notation (digits `0`-`9` and, for
/// bases past ten, letters of either case).
pub open spec fn is_digit_in(c: char, radix: nat) -> bool {
    spec_digit_value(c) is Some && spec_digit_value(c).unwrap() < radix
}

/// The numeric value of `c` as a digit, for digits `0`-`9`, `a`-`f` and
/// `A`-`F`; `None` for every other character.
pub open spec fn spec_digit_value(c: char) -> Option<nat> {
    if '0' as u32 <= c as u32 && c as u32 <= '9' as u32 {
        Some((c as u32 - '0' as u32) as nat)
    } else if 'a' as u32 <= c as u32 && c as u32 <= 'f' as u32 {
        Some((c as u32 - 'a' as u32 + 10) as nat)
    } else if 'A' as u32 <= c as u32 && c as u32 <= 'F' as u32 {
        Some((c as u32 - 'A' as u32 + 10) as nat)
    } else {
        None
    }
}

/// Every character of `s` is a digit of base-`radix` notation.
pub open spec fn all_digits_in(s: Seq<char>, radix: nat) -> bool {
    forall|i: int| 0 <= i < s.len() ==> is_digit_in(#[trigger] s[i], radix)
}

/// The number that `s` denotes in base `radix`, most significant digit
/// first (meaningful when every character is such a digit).
pub open spec fn string_value(s: Seq<char>, radix: nat) -> nat
    decreases s.len(),
{
    if s.len() == 0 {
        0
    } else {
        radix * string_value(s.drop_last(), radix) + spec_digit_value(s.last()).unwrap()
    }
}

/// What a breakpoint request string denotes.
#[derive(Debug)]
pub enum ParseAddressRes<'a> {
    /// A raw instruction address.
    Addr(usize),
    /// A source line number.
    LineNumber(usize),
    /// A function name, to be looked up in the symbol data.
    FunctionName(&'a str),
    /// A starred request whose digits do not form a hexadecimal number.
    FalseAddr,
}

/// The meaning of a breakpoint request string.  A leading `*` demands a
/// hexadecimal address, with an optional `0x` or `0X` between the star and
/// the digits; a star not followed by pure hex digits (or whose number
/// overflows the address width) is a bad request.  Without a star, a
/// nonempty string of decimal digits (fitting the address width) is a line
/// number and everything else names a function.
pub open spec fn spec_parse_address<'a>(addr: &'a str) -> ParseAddressRes<'a> {
    let cs = addr@;
    if cs.len() > 0 && cs[0] == '*' {
        let body = if cs.len() >= 3 && cs[1] == '0' && (cs[2] == 'x' || cs[2] == 'X') {
            cs.skip(3)
        } else {
            cs.skip(1)
        };
        if body.len() > 0 && all_digits_in(body, 16) && string_value(body, 16) <= usize::MAX {
            ParseAddressRes::Addr(string_value(body, 16) as usize)
        } else {
            ParseAddressRes::FalseAddr
        }
    } else if cs.len() > 0 && all_digits_in(cs, 10) && string_value(cs, 10) <= usize::MAX {
        ParseAddressRes::LineNumber(string_value(cs, 10) as usize)
    } else {
        ParseAddressRes::FunctionName(addr)
    }
}

/// The value of `c` as a digit when it is one admitted by `radix`.
fn digit_in_radix(c: char, radix: usize) -> (r: Option<usize>)
    requires
        radix <= 16,
    ensures
        r == if is_digit_in(c, radix as nat) {
            Some(spec_digit_value(c).unwrap() as usize)
        } else {
            None::<usize>
        },
{
    let code = c as u32;
    let value: u32 = if '0' as u32 <= code && code <= '9' as u32 {
        code - '0' as u32
    } else if 'a' as u32 <= code && code <= 'f' as u32 {
        code - 'a' as u32 + 10
    } else if 'A' as u32 <= code && code <= 'F' as u32 {
        code - 'A' as u32 + 10
    } else {
        return None;
    };
    if (value as usize) < radix {
        Some(value as usize)
    } else {
        None
    }
}

/// Reads the suffix of `s` from character position `start` on as an
/// unsigned number in base `radix`: `Some` exactly when that suffix is
/// nonempty, all digits, and its value fits in an address word.
fn parse_uint_from(s: &str, start: usize, radix: usize) -> (r: Option<usize>)
    requires
        start <= s@.len(),
        2 <= radix <= 16,
    ensures
        ({
            let body = s@.skip(start as int);
            r == if body.len() > 0 && all_digits_in(body, radix as nat) && string_value(
                body,
                radix as nat,
            ) <= usize::MAX {
                Some(string_value(body, radix as nat) as usize)
            } else {
                None::<usize>
            }
        }),
{
    let len = s.unicode_len();
    if start == len {
        return None;
    }
    let mut i: usize = start;
    let mut value: usize = 0;
    let mut overflowed: bool = false;
    while i < len
        invariant
            start <= i <= len,
            len == s@.len(),
            2 <= radix <= 16,
            all_digits_in(s@.subrange(start as int, i as int), radix as nat),
            !overflowed ==> value == string_value(s@.subrange(start as int, i as int), radix as nat),
            overflowed ==> string_value(s@.subrange(start as int, i as int), radix as nat)
                > usize::MAX,
        decreases len - i,
    {
        let c = s.get_char(i);
        let d = match digit_in_radix(c, radix) {
            Some(d) => d,
            None => {
                proof {
                    let body = s@.skip(start as int);
                    assert(body[i - start] == s@[i as int]);
                }
                return None;
            },
        };
        proof {
            let pre = s@.subrange(start as int, i as int);
            let ext = s@.subrange(start as int, i + 1 as int);
            assert(ext.drop_last() =~= pre);
            assert(ext.last() == s@[i as int]);
        }
        if !overflowed {
            if value > (usize::MAX - d) / radix {
                proof {
                    assert(radix * value + d > usize::MAX) by (nonlinear_arith)
                        requires
                            value > (usize::MAX - d) / (radix as int),
                            2 <= radix <= 16,
                            d < radix,
                    ;
                }
                overflowed = true;
            } else {
                proof {
                    assert(radix * value + d <= usize::MAX) by (nonlinear_arith)
                        requires
                            value <= (usize::MAX - d) / (radix as int),
                            2 <= radix <= 16,
                            d < radix,
                    ;
                }
                value = radix * value + d;
            }
        } else {
            proof {
                let pre = s@.subrange(start as int, i as int);
                let ext = s@.subrange(start as int, i + 1 as int);
                assert(string_value(ext, radix as nat) == radix * string_value(pre, radix as nat)
                    + spec_digit_value(s@[i as int]).unwrap());
                assert(radix * string_value(pre, radix as nat) >= string_value(pre, radix as nat))
                    by (nonlinear_arith)
                    requires
                        radix >= 2,
                ;
            }
        }
        i += 1;
    }
    proof {
        assert(s@.subrange(start as int, len as int) =~= s@.skip(start as int));
    }
    if overflowed {
        None
    } else {
        Some(value)
    }
}

/// Parses a breakpoint request string into the form it denotes, per
/// `spec_parse_address`: `*` plus hex digits (optionally `0x`/`0X`
/// prefixed) is a raw address, a bare decimal integer is a line number,
/// anything else names a function; a starred request without a valid hex
/// number is reported bad rather than guessed at.
pub fn parse_address<'a>(addr: &'a str) -> (r: ParseAddressRes<'a>)
    ensures
        r == spec_parse_address(addr),
{
    let len = addr.unicode_len();
    if len > 0 && addr.get_char(0) == '*' {
        let start: usize = if len >= 3 && addr.get_char(1) == '0' && (addr.get_char(2) == 'x'
            || addr.get_char(2) == 'X') {
            3
        } else {
            1
        };
        match parse_uint_from(addr, start, 16) {
            Some(v) => ParseAddressRes::Addr(v),
            None => ParseAddressRes::FalseAddr,
        }
    } else {
        proof {
            assert(addr@.skip(0) =~= addr@);
        }
        match parse_uint_from(addr, 0, 10) {
            Some(v) => ParseAddressRes::LineNumber(v),
            None => ParseAddressRes::FunctionName(addr),
        }
    }
}

} // verus!
