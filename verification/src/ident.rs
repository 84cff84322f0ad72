//! Identifiers: the 128-bit values behind sessions, collectives and
//! experiences, and their text form.

use vstd::prelude::*;
use vstd::arithmetic::power2::pow2;

verus! {

/// The lower-case hexadecimal digit for `n` (`0 <= n < 16`).
pub open spec fn hex_digit(n: int) -> char {
    if n < 10 {
        (n + 48) as char
    } else {
        (n + 87) as char
    }
}

/// The `i`-th hexadecimal digit of `v`, counting from the most significant.
pub open spec fn nibble(v: u128, i: int) -> int {
    (v as int / pow2((4 * (31 - i)) as nat) as int) % 16
}

/// The 32 hexadecimal digits of `v`, most significant first.
pub open spec fn hex_digits(v: u128) -> Seq<char> {
    Seq::new(32, |i: int| hex_digit(nibble(v, i)))
}

/// The hyphenated text form of an identifier: its 32 lower-case hex digits
/// in groups of 8, 4, 4, 4 and 12, joined by `-`.
pub open spec fn id_text(v: u128) -> Seq<char> {
    let h = hex_digits(v);
    h.subrange(0, 8) + seq!['-'] + h.subrange(8, 12) + seq!['-'] + h.subrange(12, 16) + seq!['-']
        + h.subrange(16, 20) + seq!['-'] + h.subrange(20, 32)
}

/// A version-7 identifier (RFC 9562): version nibble 7, variant bits `10`.
pub open spec fn is_version7(v: u128) -> bool {
    &&& (v >> 76u128) & 0xfu128 == 7u128
    &&& (v >> 62u128) & 0x3u128 == 2u128
}

/// The value that `uuid::Uuid::parse_str` gives back for a text, as a
/// 128-bit number, or `None` where it refuses the text.
pub uninterp spec fn parsed_id(text: Seq<char>) -> Option<u128>;

/// Calls `uuid::Uuid::from_u128(v).to_string()`. uuid's `Display` writes the
/// hyphenated lower-case form (`format_hyphenated` in uuid's `fmt.rs`): the
/// contract claims the text is exactly `id_text(v)`.
#[verifier::external_body]
pub(crate) fn id_to_text(v: u128) -> (text: String)
    ensures
        text@ == id_text(v),
{
    uuid::Uuid::from_u128(v).to_string()
}

/// Calls `uuid::Uuid::parse_str(text)` and takes the parsed value with
/// `as_u128`. The contract names the outcome `parsed_id(text@)` and claims
/// one fact from uuid's `parser.rs`: a 36-character hyphenated text of
/// lower-case hex digits parses to the value it spells. What else the
/// parser accepts (simple, braced and URN forms, upper case) is left unsaid.
#[verifier::external_body]
pub(crate) fn id_from_text(text: &str) -> (parsed: Option<u128>)
    ensures
        parsed == parsed_id(text@),
        forall|v: u128| #![trigger id_text(v)] text@ == id_text(v) ==> parsed == Some(v),
{
    match uuid::Uuid::parse_str(text) {
        Ok(id) => Some(id.as_u128()),
        Err(_) => None,
    }
}

/// Calls `uuid::Uuid::now_v7()` and takes its value with `as_u128`. The
/// value rests on the clock and on random bits; the contract claims only
/// what uuid's `encode_unix_timestamp_millis` sets in every outcome: the
/// version nibble 7 and the variant bits `10`. uuid panics where the
/// system clock reads before 1970 or the operating system's random source
/// fails; these are failures of the machine, not inputs, and are left
/// unsaid.
#[verifier::external_body]
pub(crate) fn fresh_version7_id() -> (v: u128)
    ensures
        is_version7(v),
{
    uuid::Uuid::now_v7().as_u128()
}

/// A version-7 identifier is never the nil identifier.
pub proof fn lemma_version7_not_nil(v: u128)
    requires
        is_version7(v),
    ensures
        v != 0,
{
    assert(((v >> 76u128) & 0xfu128 == 7u128) ==> v != 0) by (bit_vector);
}

} // verus!
