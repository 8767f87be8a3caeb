//! Trusted boundary to the destination chain's byte-level encoder.
//!
//! The crate's destination values (`EthTokenValue`) are converted one-to-one
//! into `ethabi`'s token type and handed to `ethabi::encode`. Nothing about
//! the resulting byte layout is restated here: the encoding is a pure
//! function of the tokens, so it is given a name, `eth_abi_encoded`, and
//! every caller's contract speaks of that name.

use vstd::prelude::*;

use ethabi::Token as AbiToken;

use crate::tokens::{eth_view, eth_view_seq, eth_wf, eth_wf_seq, EthTok, EthTokenValue};

verus! {

#[verifier::external_type_specification]
#[verifier::external_body]
pub struct ExEthabiToken(ethabi::Token);

/// The destination chain's standard ABI encoding of a value sequence.
/// `ethabi::encode` computes it from its arguments alone.
pub uninterp spec fn eth_abi_encoded(tokens: Seq<EthTok>) -> Seq<u8>;

/// Relies on `ethabi::Token`'s constructors and the `ethereum_types` byte
/// readers: rebuilds a well-formed destination value as an `ethabi` token,
/// one arm per variant, moving fields only. `from_slice` and
/// `from_big_endian` accept the well-formedness lengths (20 and 32 bytes).
#[verifier::external_body]
fn to_abi_token(t: &EthTokenValue) -> AbiToken
    requires
        eth_wf(eth_view(*t)),
{
    match t {
        EthTokenValue::Address(b) => AbiToken::Address(ethabi::Address::from_slice(b)),
        EthTokenValue::FixedBytes(b) => AbiToken::FixedBytes(b.clone()),
        EthTokenValue::Bytes(b) => AbiToken::Bytes(b.clone()),
        EthTokenValue::Int(b) => AbiToken::Int(ethabi::Int::from_big_endian(b)),
        EthTokenValue::Uint(b) => AbiToken::Uint(ethabi::Uint::from_big_endian(b)),
        EthTokenValue::Bool(b) => AbiToken::Bool(*b),
        EthTokenValue::FixedArray(ts) => AbiToken::FixedArray(ts.iter().map(to_abi_token).collect()),
        EthTokenValue::Array(ts) => AbiToken::Array(ts.iter().map(to_abi_token).collect()),
        EthTokenValue::Tuple(ts) => AbiToken::Tuple(ts.iter().map(to_abi_token).collect()),
    }
}

/// Relies on `ethabi::encode`: the destination chain's standard encoding of
/// the given tokens. The encoder is deterministic, so the result is exactly
/// `eth_abi_encoded` of the tokens' model.
#[verifier::external_body]
pub(crate) fn eth_abi_encode(tokens: &Vec<EthTokenValue>) -> (r: Vec<u8>)
    requires
        eth_wf_seq(eth_view_seq(tokens@)),
    ensures
        r@ == eth_abi_encoded(eth_view_seq(tokens@)),
{
    let converted: Vec<AbiToken> = tokens.iter().map(to_abi_token).collect();
    ethabi::encode(&converted)
}

} // verus!
