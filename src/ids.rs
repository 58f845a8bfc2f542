//! Identifiers are 128-bit values; their textual forms come from the `uuid` crate.

use vstd::prelude::*;
use vstd::string::*;

verus! {

/// The lowercase hexadecimal digit for `n` (`0 <= n < 16`).
pub open spec fn hex_char(n: int) -> char {
    seq!['0', '1', '2', '3', '4', '5', '6', '7', '8', '9', 'a', 'b', 'c', 'd', 'e', 'f'][n]
}

/// The `n` lowest hexadecimal digits of `v`, most significant first.
pub open spec fn hex_digits(v: nat, n: nat) -> Seq<char>
    decreases n,
{
    if n == 0 {
        Seq::empty()
    } else {
        hex_digits(v / 16, (n - 1) as nat).push(hex_char((v % 16) as int))
    }
}

/// The simple form of an identifier: 32 lowercase hex digits.
pub open spec fn simple_form(id: u128) -> Seq<char> {
    hex_digits(id as nat, 32)
}

/// The hyphenated form of an identifier: groups of 8, 4, 4, 4 and 12 digits.
pub open spec fn hyphenated_form(id: u128) -> Seq<char> {
    let s = simple_form(id);
    s.subrange(0, 8) + seq!['-'] + s.subrange(8, 12) + seq!['-'] + s.subrange(12, 16) + seq!['-']
        + s.subrange(16, 20) + seq!['-'] + s.subrange(20, 32)
}

/// The first four digits of the simple form.
pub open spec fn short_form(id: u128) -> Seq<char> {
    simple_form(id).subrange(0, 4)
}

pub proof fn lemma_hex_digits_len(v: nat, n: nat)
    ensures
        hex_digits(v, n).len() == n,
    decreases n,
{
    if n > 0 {
        lemma_hex_digits_len(v / 16, (n - 1) as nat);
    }
}

/// Relies on uuid's `Uuid::simple` formatter (through `to_string`): the 16 big-endian
/// bytes of the value, each as two lowercase hex digits.
#[verifier::external_body]
fn uuid_simple(id: u128) -> (r: String)
    ensures
        r@ == simple_form(id),
{
    uuid::Uuid::from_u128(id).simple().to_string()
}

/// Relies on uuid's `Display` for `Uuid`: the hyphenated lowercase form.
#[verifier::external_body]
pub(crate) fn uuid_hyphenated(id: u128) -> (r: String)
    ensures
        r@ == hyphenated_form(id),
{
    uuid::Uuid::from_u128(id).to_string()
}

/// The textual form of an identifier, as stored and as handed to child processes.
pub fn id_string(id: u128) -> (r: String)
    ensures
        r@ == hyphenated_form(id),
{
    uuid_hyphenated(id)
}

/// The first four hex digits of the identifier's simple form.
pub fn short_uuid(id: u128) -> (r: String)
    ensures
        r@ == short_form(id),
        r@.len() == 4,
{
    let full = uuid_simple(id);
    proof {
        lemma_hex_digits_len(id as nat, 32);
    }
    let part = full.as_str().substring_char(0, 4);
    String::from_str(part)
}

} // verus!
