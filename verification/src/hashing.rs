//! Handle generation: a content-addressed handle is minted from the upload
//! timestamp by hashing its decimal digits and prefixing the hex digest
//! with `0x`.

use vstd::prelude::*;

use sha3::Digest;

verus! {

use crate::text::{dec_of, decimal_bytes};
use vstd::string::StringExecFns;

/// The Keccak-256 digest of `data`: a function of the input bytes alone.
pub uninterp spec fn keccak256_of(data: Seq<u8>) -> Seq<u8>;

/// Relies on `sha3::Keccak256` through `Digest::digest`: the digest is a
/// pure function of the input bytes and is 32 bytes long.
#[verifier::external_body]
fn keccak256(data: &[u8]) -> (r: Vec<u8>)
    ensures
        r@ == keccak256_of(data@),
        r@.len() == 32,
{
    sha3::Keccak256::digest(data).to_vec()
}

/// One lowercase hexadecimal digit.
pub open spec fn hex_char(n: int) -> char {
    if n == 0 {
        '0'
    } else if n == 1 {
        '1'
    } else if n == 2 {
        '2'
    } else if n == 3 {
        '3'
    } else if n == 4 {
        '4'
    } else if n == 5 {
        '5'
    } else if n == 6 {
        '6'
    } else if n == 7 {
        '7'
    } else if n == 8 {
        '8'
    } else if n == 9 {
        '9'
    } else if n == 10 {
        'a'
    } else if n == 11 {
        'b'
    } else if n == 12 {
        'c'
    } else if n == 13 {
        'd'
    } else if n == 14 {
        'e'
    } else {
        'f'
    }
}

/// The lowercase hex encoding of `data`: two digits per byte, most
/// significant nibble first.
pub open spec fn hex_of(data: Seq<u8>) -> Seq<char>
    decreases data.len(),
{
    if data.len() == 0 {
        Seq::<char>::empty()
    } else {
        seq![hex_char(data.first() as int / 16), hex_char(data.first() as int % 16)] + hex_of(
            data.drop_first(),
        )
    }
}

/// Hex encoding writes two characters per byte.
pub proof fn lemma_hex_of_len(data: Seq<u8>)
    ensures
        hex_of(data).len() == 2 * data.len(),
    decreases data.len(),
{
    if data.len() > 0 {
        lemma_hex_of_len(data.drop_first());
    }
}

/// Relies on `hex::encode`: two lowercase hex digits per byte, most
/// significant nibble first.
#[verifier::external_body]
fn hex_encode(data: &[u8]) -> (r: String)
    ensures
        r@ == hex_of(data@),
{
    hex::encode(data)
}

/// The handle minted for an upload observed at `nanos` nanoseconds: `0x`
/// followed by the hex digest of the timestamp's decimal digits.
pub open spec fn spec_handle_of(nanos: nat) -> Seq<char> {
    "0x"@ + hex_of(keccak256_of(dec_of(nanos)))
}

/// Mints the content-addressed handle for an upload observed at
/// `timestamp_nanos`. The caller supplies the clock reading; the handle is
/// a function of it alone.
pub fn generate_pseudorandom_keccak_hash(timestamp_nanos: u128) -> (handle: String)
    ensures
        handle@ == spec_handle_of(timestamp_nanos as nat),
        handle@.len() == 66,
{
    let digits = decimal_bytes(timestamp_nanos);
    let digest = keccak256(digits.as_slice());
    let hex_str = hex_encode(digest.as_slice());
    let handle = String::from_str("0x").concat(hex_str.as_str());
    proof {
        reveal_strlit("0x");
        lemma_hex_of_len(keccak256_of(dec_of(timestamp_nanos as nat)));
    }
    handle
}

} // verus!
