//! Classification of command-line tokens: option-like tokens against operands.

use vstd::prelude::*;

verus! {

/// A token is option-like when it is longer than one character and starts
/// with a dash. A lone `-` is an operand.
pub open spec fn option_like(token: Seq<char>) -> bool {
    token.len() > 1 && token[0] == '-'
}

/// An option-like token whose second character is not a dash, as in `-x`.
pub open spec fn singlechar_like(token: Seq<char>) -> bool {
    option_like(token) && token[1] != '-'
}

/// A token that starts with two dashes, as in `--long`.
pub open spec fn multichar_like(token: Seq<char>) -> bool {
    token.len() >= 2 && token[0] == '-' && token[1] == '-'
}

pub fn is_option(arg: &str) -> (b: bool)
    ensures
        b == option_like(arg@),
{
    broadcast use vstd::string::group_string_axioms;

    let mut rest = arg.chars();
    match rest.next() {
        Some(first) => {
            if first == '-' {
                rest.next().is_some()
            } else {
                false
            }
        },
        None => false,
    }
}

pub fn is_singlechar_option(arg: &str) -> (b: bool)
    ensures
        b == singlechar_like(arg@),
{
    broadcast use vstd::string::group_string_axioms;

    let mut rest = arg.chars();
    match rest.next() {
        Some(first) => {
            if first == '-' {
                match rest.next() {
                    Some(second) => second != '-',
                    None => false,
                }
            } else {
                false
            }
        },
        None => false,
    }
}

pub fn is_multichar_option(arg: &str) -> (b: bool)
    ensures
        b == multichar_like(arg@),
{
    broadcast use vstd::string::group_string_axioms;

    let mut rest = arg.chars();
    match rest.next() {
        Some(first) => {
            if first == '-' {
                match rest.next() {
                    Some(second) => second == '-',
                    None => false,
                }
            } else {
                false
            }
        },
        None => false,
    }
}

/// Whether two texts are the same, character by character.
pub fn same_text(a: &str, b: &str) -> (same: bool)
    ensures
        same == (a@ == b@),
{
    let x = a.as_bytes();
    let y = b.as_bytes();
    proof {
        // A text is what its encoding decodes to, so equal encodings are equal texts.
        vstd::utf8::encode_utf8_decode_utf8(a@);
        vstd::utf8::encode_utf8_decode_utf8(b@);
    }
    if x.len() != y.len() {
        return false;
    }
    let mut i: usize = 0;
    while i < x.len()
        invariant
            x.len() == y.len(),
            i <= x.len(),
            (a@ == b@) == (x@ == y@),
            x@.take(i as int) == y@.take(i as int),
        decreases x.len() - i,
    {
        if x[i] != y[i] {
            return false;
        }
        proof {
            assert(x@.take(i + 1) == x@.take(i as int).push(x@[i as int]));
            assert(y@.take(i + 1) == y@.take(i as int).push(y@[i as int]));
        }
        i += 1;
    }
    proof {
        assert(x@.take(i as int) == x@);
        assert(y@.take(i as int) == y@);
    }
    true
}

/// An option-like token has one of the two forms, never both.
pub proof fn option_forms(token: Seq<char>)
    ensures
        option_like(token) <==> singlechar_like(token) || multichar_like(token),
        !(singlechar_like(token) && multichar_like(token)),
{
}

} // verus!
