//! Text forms of chain values, as the `tendermint` crate prints them.
//!
//! The functions of this module call into `tendermint`; Verus takes their
//! contracts on trust. Each takes and returns plain values.

use vstd::prelude::*;

verus! {

/// The upper-case hexadecimal digit of a value below 16.
pub open spec fn hex_digit_upper(nibble: int) -> char {
    seq!['0', '1', '2', '3', '4', '5', '6', '7', '8', '9', 'A', 'B', 'C', 'D', 'E', 'F'][nibble]
}

/// Upper-case hexadecimal text of a byte string: two digits per byte, the
/// high half of each byte first.
pub open spec fn hex_upper(bytes: Seq<u8>) -> Seq<char> {
    Seq::new(
        2 * bytes.len(),
        |i: int|
            if i % 2 == 0 {
                hex_digit_upper(bytes[i / 2] as int / 16)
            } else {
                hex_digit_upper(bytes[i / 2] as int % 16)
            },
    )
}

/// The RFC 3339 text that `tendermint::Time` prints for the instant
/// `seconds` and `nanos` after the Unix epoch, or `None` where no `Time`
/// holds that instant.
pub uninterp spec fn rfc3339_text(seconds: int, nanos: int) -> Option<Seq<char>>;

/// Whether `tendermint::block::Height` holds `value`: heights are the
/// integers from 0 to `i64::MAX`.
pub open spec fn is_chain_height(value: int) -> bool {
    0 <= value <= i64::MAX
}

/// `tendermint::block::Height::try_from` on an `i64`, and the value of the
/// height it gives. The conversion fails on negative numbers only; the
/// height keeps the number.
#[verifier::external_body]
pub(crate) fn height_from_i64(value: i64) -> (res: Option<u64>)
    ensures
        res is Some <==> is_chain_height(value as int),
        res matches Some(height) ==> height == value,
{
    match tendermint::block::Height::try_from(value) {
        Ok(height) => Some(height.value()),
        Err(_) => None,
    }
}

/// `i64::from` on the `tendermint::block::Height` made of `value`.
/// A height is made of every `u64` that fits an `i64`, and converts to the
/// same number.
#[verifier::external_body]
pub(crate) fn height_to_i64(value: u64) -> (res: Option<i64>)
    ensures
        res is Some <==> is_chain_height(value as int),
        res matches Some(height) ==> height == value,
{
    match tendermint::block::Height::try_from(value) {
        Ok(height) => Some(i64::from(height)),
        Err(_) => None,
    }
}

/// What `tendermint::block::Id` prints for a block whose hash has the bytes
/// `hash`: the hash in upper-case hexadecimal. A hash is either empty or a
/// SHA-256 digest of 32 bytes; other lengths are refused.
#[verifier::external_body]
pub(crate) fn block_id_text(hash: &Vec<u8>) -> (res: Option<String>)
    ensures
        res is Some <==> (hash@.len() == 0 || hash@.len() == 32),
        res matches Some(text) ==> text@ == hex_upper(hash@),
{
    match tendermint::Hash::from_bytes(tendermint::hash::Algorithm::Sha256, hash) {
        Ok(hash) => {
            Some(tendermint::block::Id { hash, part_set_header: Default::default() }.to_string())
        },
        Err(_) => None,
    }
}

/// What `tendermint::account::Id` prints for the address `bytes`: its 20
/// bytes in upper-case hexadecimal. Other lengths are refused.
#[verifier::external_body]
pub(crate) fn account_id_text(bytes: &Vec<u8>) -> (res: Option<String>)
    ensures
        res is Some <==> bytes@.len() == 20,
        res matches Some(text) ==> text@ == hex_upper(bytes@),
{
    match tendermint::account::Id::try_from(bytes.clone()) {
        Ok(id) => Some(id.to_string()),
        Err(_) => None,
    }
}

/// `tendermint::PublicKey::to_hex` on the Ed25519 key with the bytes
/// `bytes`: the 32 bytes in upper-case hexadecimal. Other lengths are
/// refused.
#[verifier::external_body]
pub(crate) fn public_key_hex(bytes: &Vec<u8>) -> (res: Option<String>)
    ensures
        res is Some <==> bytes@.len() == 32,
        res matches Some(text) ==> text@ == hex_upper(bytes@),
{
    match tendermint::PublicKey::from_raw_ed25519(bytes) {
        Some(key) => Some(key.to_hex()),
        None => None,
    }
}

/// What `tendermint::Time` prints for the instant `seconds` and `nanos`
/// after the Unix epoch, `None` where `Time::from_unix_timestamp` refuses
/// the instant.
#[verifier::external_body]
pub(crate) fn time_text(seconds: i64, nanos: u32) -> (res: Option<String>)
    ensures
        res is Some <==> rfc3339_text(seconds as int, nanos as int) is Some,
        res matches Some(text) ==> rfc3339_text(seconds as int, nanos as int) == Some(text@),
{
    match tendermint::Time::from_unix_timestamp(seconds, nanos) {
        Ok(time) => Some(time.to_string()),
        Err(_) => None,
    }
}

} // verus!
