use vstd::prelude::*;
use vstd::utf8::{decode_utf8, valid_utf8};

verus! {

/// The character of the octal digit `d` (`d < 8`).
pub open spec fn octal_digit(d: nat) -> char {
    (48 + d) as char
}

/// The octal numeral of `n`, without leading zeros (`0` for zero).
pub open spec fn octal(n: nat) -> Seq<char>
    decreases n,
{
    if n < 8 {
        seq![octal_digit(n)]
    } else {
        octal(n / 8).push(octal_digit(n % 8))
    }
}

/// Two bytes written in octal, separated by a dot: the form in which version
/// numbers are kept.
pub open spec fn octal_pair(major: u8, minor: u8) -> Seq<char> {
    octal(major as nat) + seq!['.'] + octal(minor as nat)
}

/// Appends `c` to `s`.
///
/// Calls `String::push`, which appends the character to the end of the string.
#[verifier::external_body]
fn push_char(s: &mut String, c: char)
    ensures
        final(s)@ == old(s)@.push(c),
{
    s.push(c);
}

/// The text that `bytes` encode in UTF-8, or `None` where they are not valid
/// UTF-8.
///
/// Calls `String::from_utf8`, which succeeds exactly on valid UTF-8 and then
/// holds the decoded characters; vstd's `valid_utf8` and `decode_utf8` state
/// the encoding.
#[verifier::external_body]
pub(crate) fn string_from_utf8(bytes: Vec<u8>) -> (r: Option<String>)
    ensures
        r is Some <==> valid_utf8(bytes@),
        r matches Some(s) ==> s@ == decode_utf8(bytes@),
{
    String::from_utf8(bytes).ok()
}

/// Appends the octal numeral of `n` to `s`.
fn push_octal(s: &mut String, n: u8)
    ensures
        final(s)@ == old(s)@ + octal(n as nat),
    decreases n,
{
    if n >= 8 {
        push_octal(s, n / 8);
    }
    let d: u8 = 48u8 + n % 8;
    push_char(s, d as char);
    assert(s@ =~= old(s)@ + octal(n as nat)) by {
        if n >= 8 {
            assert(octal(n as nat) == octal((n / 8) as nat).push(octal_digit((n % 8) as nat)));
        }
    }
}

/// `major` and `minor` in octal, separated by a dot.
pub fn format_octal_pair(major: u8, minor: u8) -> (s: String)
    ensures
        s@ == octal_pair(major, minor),
{
    let mut s = String::new();
    push_octal(&mut s, major);
    push_char(&mut s, '.');
    push_octal(&mut s, minor);
    assert(s@ =~= octal_pair(major, minor));
    s
}

} // verus!
