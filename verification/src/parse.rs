//! The target grammar: one textual token denotes one [`Target`].
//!
//! A token is either a type tag (`t`/`T` for TCP, `u`/`U` for UDP,
//! `s`/`S` for sleep) followed by a decimal number, or a bare decimal
//! number, which defaults to a TCP port. Ports range over 1..=65535 and
//! sleep durations over 1..=255; zero is rejected for both.

use vstd::prelude::*;
use vstd::string::StrSliceExecFns;
use vstd::string::StringExecFns;
use crate::opts::Target;

verus! {

/// Why the numeric part of a token failed to convert.
#[derive(Copy, Clone, Debug, PartialEq, Eq, Structural)]
pub enum NumError {
    /// There were no digits at all.
    Empty,
    /// A character that is not a decimal digit appeared.
    NonDigit,
    /// The digits encode a value above the field's maximum.
    TooLarge,
    /// The digits encode zero, which no field accepts.
    Zero,
}

/// A malformed target token. Every failure carries enough to name the
/// offending input.
#[derive(Clone, Debug, PartialEq, Eq)]
pub enum ParseError {
    /// The token was empty.
    EmptyTarget,
    /// The leading character is neither a recognized type tag nor a digit;
    /// carries that character and the whole offending token.
    UnknownIdent { ch: char, token: String },
    /// The numeric part failed to convert; carries the whole offending
    /// token and the reason.
    BadNumber { token: String, err: NumError },
}

/// `c` is a decimal digit.
pub open spec fn is_digit(c: char) -> bool {
    '0' <= c && c <= '9'
}

/// The numeric value of the digit `c`.
pub open spec fn digit_val(c: char) -> nat {
    (c as int - '0' as int) as nat
}

/// Every character of `s` is a decimal digit.
pub open spec fn all_digits(s: Seq<char>) -> bool {
    forall|i: int| 0 <= i < s.len() ==> is_digit(#[trigger] s[i])
}

/// The value of the digit string `s`, most significant digit first.
/// The empty string has value zero.
pub open spec fn dec_val(s: Seq<char>) -> nat
    decreases s.len(),
{
    if s.len() == 0 {
        0
    } else {
        dec_val(s.drop_last()) * 10 + digit_val(s.last())
    }
}

/// `s` is a valid numeric field with inclusive maximum `max`: non-empty,
/// all digits, and its value lies in 1..=max.
pub open spec fn num_ok(s: Seq<char>, max: nat) -> bool {
    s.len() > 0 && all_digits(s) && 1 <= dec_val(s) && dec_val(s) <= max
}

/// Which conversion failure an invalid numeric field exhibits. Only
/// meaningful when `num_ok` does not hold of `s` for the field's maximum.
pub open spec fn spec_num_err(s: Seq<char>) -> NumError {
    if s.len() == 0 {
        NumError::Empty
    } else if !all_digits(s) {
        NumError::NonDigit
    } else if dec_val(s) == 0 {
        NumError::Zero
    } else {
        NumError::TooLarge
    }
}

/// Extending a digit string by one digit multiplies its value by ten and
/// adds the new digit.
proof fn lemma_dec_val_step(s: Seq<char>, i: int)
    requires
        0 <= i < s.len(),
    ensures
        dec_val(s.take(i + 1)) == dec_val(s.take(i)) * 10 + digit_val(s[i]),
{
    assert(s.take(i + 1).drop_last() =~= s.take(i));
    assert(s.take(i + 1).last() == s[i]);
}

/// A digit string's value never drops when more digits follow: every
/// prefix has a value no greater than the whole string's.
proof fn lemma_dec_val_prefix_le(s: Seq<char>, i: int)
    requires
        0 <= i <= s.len(),
    ensures
        dec_val(s.take(i)) <= dec_val(s),
    decreases s.len() - i,
{
    if i == s.len() {
        assert(s.take(i) =~= s);
    } else {
        lemma_dec_val_step(s, i);
        lemma_dec_val_prefix_le(s, i + 1);
    }
}

/// Converts the whole of `s` as a decimal number in 1..=max.
fn parse_decimal(s: &str, max: u16) -> (r: Result<u16, NumError>)
    ensures
        match r {
            Ok(v) => num_ok(s@, max as nat) && v == dec_val(s@),
            Err(e) => !num_ok(s@, max as nat) && e == spec_num_err(s@),
        },
{
    let n = s.unicode_len();
    if n == 0 {
        return Err(NumError::Empty);
    }

    let mut i: usize = 0;
    while i < n
        invariant
            0 <= i <= n,
            n == s@.len(),
            forall|j: int| 0 <= j < i ==> is_digit(#[trigger] s@[j]),
        decreases n - i,
    {
        let c = s.get_char(i);
        if c < '0' || c > '9' {
            return Err(NumError::NonDigit);
        }
        i += 1;
    }
    assert(all_digits(s@));

    let mut acc: u32 = 0;
    let mut i: usize = 0;
    while i < n
        invariant
            0 <= i <= n,
            n == s@.len(),
            all_digits(s@),
            max <= 65535,
            acc == dec_val(s@.take(i as int)),
            acc <= max as u32,
        decreases n - i,
    {
        let c = s.get_char(i);
        let d: u32 = (c as u32) - 48;
        proof {
            lemma_dec_val_step(s@, i as int);
        }
        acc = acc * 10 + d;
        if acc > max as u32 {
            proof {
                lemma_dec_val_prefix_le(s@, i as int + 1);
            }
            return Err(NumError::TooLarge);
        }
        i += 1;
    }
    assert(s@.take(n as int) =~= s@);

    if acc == 0 {
        return Err(NumError::Zero);
    }
    Ok(acc as u16)
}

/// `c` is the type tag of a TCP probe.
pub open spec fn tag_tcp(c: char) -> bool {
    c == 't' || c == 'T'
}

/// `c` is the type tag of a UDP probe.
pub open spec fn tag_udp(c: char) -> bool {
    c == 'u' || c == 'U'
}

/// `c` is the type tag of an explicit sleep.
pub open spec fn tag_sleep(c: char) -> bool {
    c == 's' || c == 'S'
}

/// The grammar: the target a token denotes, or `None` when the token is
/// malformed. A letter tag consumes one character and the remainder is the
/// number; a token that begins with a digit is read whole as a TCP port.
pub open spec fn spec_target(s: Seq<char>) -> Option<Target> {
    if s.len() == 0 {
        None
    } else if tag_tcp(s[0]) {
        if num_ok(s.skip(1), 65535) {
            Some(Target::Tcp { port: dec_val(s.skip(1)) as u16 })
        } else {
            None
        }
    } else if tag_udp(s[0]) {
        if num_ok(s.skip(1), 65535) {
            Some(Target::Udp { port: dec_val(s.skip(1)) as u16 })
        } else {
            None
        }
    } else if tag_sleep(s[0]) {
        if num_ok(s.skip(1), 255) {
            Some(Target::Sleep { secs: dec_val(s.skip(1)) as u8 })
        } else {
            None
        }
    } else if is_digit(s[0]) {
        if num_ok(s, 65535) {
            Some(Target::Tcp { port: dec_val(s) as u16 })
        } else {
            None
        }
    } else {
        None
    }
}

/// Parses one token into a target. Succeeds exactly when the grammar
/// accepts the token, and then returns the denoted, well-formed target;
/// each failure names the precise reason and carries the offending token.
pub fn parse_target(value: &str) -> (r: Result<Target, ParseError>)
    ensures
        match r {
            Ok(t) => spec_target(value@) == Some(t) && t.wf(),
            Err(e) => spec_target(value@) is None && match e {
                ParseError::EmptyTarget => value@.len() == 0,
                ParseError::UnknownIdent { ch, token } => {
                    &&& value@.len() > 0
                    &&& !tag_tcp(value@[0])
                    &&& !tag_udp(value@[0])
                    &&& !tag_sleep(value@[0])
                    &&& !is_digit(value@[0])
                    &&& ch == value@[0]
                    &&& token@ == value@
                },
                ParseError::BadNumber { token, err } => {
                    &&& value@.len() > 0
                    &&& token@ == value@
                    &&& if tag_tcp(value@[0]) || tag_udp(value@[0]) || tag_sleep(value@[0]) {
                        err == spec_num_err(value@.skip(1))
                    } else {
                        is_digit(value@[0]) && err == spec_num_err(value@)
                    }
                },
            },
        },
{
    let n = value.unicode_len();
    if n == 0 {
        return Err(ParseError::EmptyTarget);
    }

    let first = value.get_char(0);
    let rest = value.substring_char(1, n);
    assert(rest@ =~= value@.skip(1));

    if first == 't' || first == 'T' {
        match parse_decimal(rest, 65535) {
            Ok(port) => Ok(Target::Tcp { port }),
            Err(err) => Err(ParseError::BadNumber { token: String::from_str(value), err }),
        }
    } else if first == 'u' || first == 'U' {
        match parse_decimal(rest, 65535) {
            Ok(port) => Ok(Target::Udp { port }),
            Err(err) => Err(ParseError::BadNumber { token: String::from_str(value), err }),
        }
    } else if first == 's' || first == 'S' {
        match parse_decimal(rest, 255) {
            Ok(secs) => Ok(Target::Sleep { secs: secs as u8 }),
            Err(err) => Err(ParseError::BadNumber { token: String::from_str(value), err }),
        }
    } else if first >= '0' && first <= '9' {
        match parse_decimal(value, 65535) {
            Ok(port) => Ok(Target::Tcp { port }),
            Err(err) => Err(ParseError::BadNumber { token: String::from_str(value), err }),
        }
    } else {
        Err(ParseError::UnknownIdent { ch: first, token: String::from_str(value) })
    }
}

/// Law: a token made of a TCP or UDP tag followed by digits denotes the
/// matching probe exactly when the digits encode a port in 1..=65535; a
/// zero or out-of-range port never parses.
pub proof fn lemma_probe_token_grammar(s: Seq<char>)
    requires
        s.len() > 1,
        tag_tcp(s[0]) || tag_udp(s[0]),
        all_digits(s.skip(1)),
    ensures
        tag_tcp(s[0]) && 1 <= dec_val(s.skip(1)) <= 65535 ==> spec_target(s) == Some(
            Target::Tcp { port: dec_val(s.skip(1)) as u16 },
        ),
        tag_udp(s[0]) && 1 <= dec_val(s.skip(1)) <= 65535 ==> spec_target(s) == Some(
            Target::Udp { port: dec_val(s.skip(1)) as u16 },
        ),
        dec_val(s.skip(1)) == 0 ==> spec_target(s) is None,
        dec_val(s.skip(1)) > 65535 ==> spec_target(s) is None,
{
}

/// Law: a token consisting solely of digits denotes a TCP probe exactly
/// when its value is in 1..=65535; zero and out-of-range values never
/// parse.
pub proof fn lemma_bare_numeric_token(s: Seq<char>)
    requires
        s.len() > 0,
        all_digits(s),
    ensures
        1 <= dec_val(s) <= 65535 ==> spec_target(s) == Some(
            Target::Tcp { port: dec_val(s) as u16 },
        ),
        dec_val(s) == 0 ==> spec_target(s) is None,
        dec_val(s) > 65535 ==> spec_target(s) is None,
{
    assert(is_digit(s[0]));
}

} // verus!
