//! Small text utilities shared by the descriptor checks, the registration
//! engine and the expression evaluator: ASCII classification, upper-casing,
//! and decimal rendering of integers.

use vstd::prelude::*;
use vstd::string::StrSliceExecFns;
use vstd::string::StringExecFns;

verus! {

/// True for the characters an identifier may contain after its first one.
pub open spec fn is_ident_char(c: char) -> bool {
    ('a' <= c && c <= 'z') || ('A' <= c && c <= 'Z') || ('0' <= c && c <= '9') || c == '_'
}

/// True for the characters an identifier may start with.
pub open spec fn is_ident_start(c: char) -> bool {
    ('a' <= c && c <= 'z') || ('A' <= c && c <= 'Z') || c == '_'
}

/// A simple identifier: a letter or underscore, then letters, digits and
/// underscores.
pub open spec fn is_identifier(s: Seq<char>) -> bool {
    &&& s.len() > 0
    &&& is_ident_start(s[0])
    &&& forall|i: int| 0 < i < s.len() ==> is_ident_char(#[trigger] s[i])
}

/// The upper-case image of one character: ASCII letters are folded, everything
/// else is left alone.
pub open spec fn spec_upper_char(c: char) -> char {
    if 'a' <= c && c <= 'z' {
        ((c as u8) - 0x20) as char
    } else {
        c
    }
}

/// The upper-case image of a character sequence.
pub open spec fn spec_upper(s: Seq<char>) -> Seq<char> {
    s.map_values(|c: char| spec_upper_char(c))
}

/// Exec counterpart of [`spec_upper_char`].
pub fn upper_char(c: char) -> (r: char)
    ensures
        r == spec_upper_char(c),
{
    if 'a' <= c && c <= 'z' {
        ((c as u8) - 0x20) as char
    } else {
        c
    }
}

/// Exec counterpart of [`is_ident_char`].
pub fn ident_char(c: char) -> (r: bool)
    ensures
        r == is_ident_char(c),
{
    ('a' <= c && c <= 'z') || ('A' <= c && c <= 'Z') || ('0' <= c && c <= '9') || c == '_'
}

/// Exec counterpart of [`is_ident_start`].
pub fn ident_start(c: char) -> (r: bool)
    ensures
        r == is_ident_start(c),
{
    ('a' <= c && c <= 'z') || ('A' <= c && c <= 'Z') || c == '_'
}

/// Relies on String::push: appends exactly the one character to the string.
#[verifier::external_body]
pub fn push_char(s: &mut String, c: char)
    ensures
        final(s)@ == old(s)@.push(c),
{
    s.push(c);
}

/// Whether `s` is a simple identifier.
pub fn check_identifier(s: &str) -> (r: bool)
    ensures
        r == is_identifier(s@),
{
    let n = s.unicode_len();
    if n == 0 {
        return false;
    }
    if !ident_start(s.get_char(0)) {
        return false;
    }
    let mut i: usize = 1;
    while i < n
        invariant
            1 <= i <= n,
            n == s@.len(),
            is_ident_start(s@[0]),
            forall|j: int| 0 < j < i ==> is_ident_char(#[trigger] s@[j]),
        decreases n - i,
    {
        if !ident_char(s.get_char(i)) {
            return false;
        }
        i += 1;
    }
    true
}

/// The character for one decimal digit.
pub open spec fn digit_char(d: int) -> char {
    ((0x30 + d) as u8) as char
}

/// The decimal digits of a non-negative number, most significant first.
pub open spec fn spec_udecimal(n: nat) -> Seq<char>
    decreases n,
{
    if n < 10 {
        seq![digit_char(n as int)]
    } else {
        spec_udecimal(n / 10).push(digit_char((n % 10) as int))
    }
}

/// The decimal rendering of an integer, with a leading minus sign when
/// negative.
pub open spec fn spec_decimal(n: int) -> Seq<char> {
    if n >= 0 {
        spec_udecimal(n as nat)
    } else {
        seq!['-'] + spec_udecimal((-n) as nat)
    }
}

/// Appends the decimal digits of `n` to `out`.
fn push_udecimal(out: &mut String, n: u128)
    ensures
        final(out)@ == old(out)@ + spec_udecimal(n as nat),
    decreases n,
{
    if n >= 10 {
        push_udecimal(out, n / 10);
    }
    let d = n % 10;
    push_char(out, (0x30 + (d as u8)) as char);
    proof {
        assert(final(out)@ =~= old(out)@ + spec_udecimal(n as nat));
    }
}

/// Renders an integer in decimal.
pub fn decimal(n: i128) -> (r: String)
    ensures
        r@ == spec_decimal(n as int),
{
    let mut out = String::new();
    if n >= 0 {
        push_udecimal(&mut out, n as u128);
        proof {
            assert(out@ =~= spec_decimal(n as int));
        }
    } else {
        push_char(&mut out, '-');
        let magnitude: u128 = ((-(n + 1)) as u128) + 1;
        assert(magnitude == -(n as int));
        push_udecimal(&mut out, magnitude);
        proof {
            assert(out@ =~= spec_decimal(n as int));
        }
    }
    out
}

/// Upper-cases a string, character by character.
pub fn to_upper(s: &str) -> (r: String)
    ensures
        r@ == spec_upper(s@),
{
    let n = s.unicode_len();
    let mut out = String::new();
    let mut i: usize = 0;
    while i < n
        invariant
            0 <= i <= n,
            n == s@.len(),
            out@ == spec_upper(s@.take(i as int)),
        decreases n - i,
    {
        let c = s.get_char(i);
        push_char(&mut out, upper_char(c));
        proof {
            assert(s@.take(i as int + 1) =~= s@.take(i as int).push(s@[i as int]));
            assert(spec_upper(s@.take(i as int + 1)) =~= spec_upper(s@.take(i as int)).push(
                spec_upper_char(s@[i as int]),
            ));
        }
        i += 1;
    }
    proof {
        assert(s@.take(n as int) =~= s@);
    }
    out
}

} // verus!
