//! Token trees for the two chains' ABI value models.
//!
//! Both ABIs exchange the same shapes — integers, booleans, byte strings,
//! arrays, tuples — but differ in their numeric representations and in which
//! shapes are first class. The source chain's values carry arbitrary-width
//! integers as big-endian byte strings and may embed opaque serialized cell
//! subtrees and chain addresses; the destination chain's values carry fixed
//! 32-byte words and flat 20-byte addresses.
//!
//! Each executable tree has a ghost mirror (`TonTok`, `EthTok`) over `Seq`
//! and unbounded integers, reached by the `ton_view` / `eth_view` functions;
//! every contract in the crate speaks about those mirrors.

use vstd::prelude::*;

verus! {

broadcast use vstd::std_specs::vec::group_vec_axioms, vstd::seq::group_seq_axioms;

/// A decoded source-chain ABI value.
///
/// `Uint` holds an unsigned big-endian magnitude; `Int` holds a big-endian
/// two's-complement byte string. `Cell` holds an opaque serialized subtree.
/// Source shapes that the bridge does not handle (maps, header values,
/// public keys, …) are represented by `Unsupported`: every function that
/// meets one fails, as nothing can be done with such a shape here.
#[derive(Debug, PartialEq, Eq)]
pub enum TonTokenValue {
    Uint { size: usize, bytes: Vec<u8> },
    Int { size: usize, bytes: Vec<u8> },
    Bool(bool),
    Bytes(Vec<u8>),
    FixedBytes(Vec<u8>),
    Cell(Vec<u8>),
    Address { workchain: i8, account: Vec<u8> },
    FixedArray(Vec<TonTokenValue>),
    Array(Vec<TonTokenValue>),
    Tuple(Vec<TonTokenValue>),
    Unsupported,
}

/// An encoded destination-chain ABI value.
///
/// `Uint` and `Int` hold exactly 32 big-endian bytes and `Address` exactly
/// 20 (see `eth_wf`); `Int` is two's complement.
#[derive(Debug, PartialEq, Eq)]
pub enum EthTokenValue {
    Address(Vec<u8>),
    FixedBytes(Vec<u8>),
    Bytes(Vec<u8>),
    Int(Vec<u8>),
    Uint(Vec<u8>),
    Bool(bool),
    FixedArray(Vec<EthTokenValue>),
    Array(Vec<EthTokenValue>),
    Tuple(Vec<EthTokenValue>),
}

/// Ghost mirror of `TonTokenValue`.
pub enum TonTok {
    Uint { size: nat, bytes: Seq<u8> },
    Int { size: nat, bytes: Seq<u8> },
    Bool(bool),
    Bytes(Seq<u8>),
    FixedBytes(Seq<u8>),
    Cell(Seq<u8>),
    Address { workchain: int, account: Seq<u8> },
    FixedArray(Seq<TonTok>),
    Array(Seq<TonTok>),
    Tuple(Seq<TonTok>),
    Unsupported,
}

/// Ghost mirror of `EthTokenValue`.
pub enum EthTok {
    Address(Seq<u8>),
    FixedBytes(Seq<u8>),
    Bytes(Seq<u8>),
    Int(Seq<u8>),
    Uint(Seq<u8>),
    Bool(bool),
    FixedArray(Seq<EthTok>),
    Array(Seq<EthTok>),
    Tuple(Seq<EthTok>),
}

pub open spec fn ton_view(t: TonTokenValue) -> TonTok
    decreases t,
{
    match t {
        TonTokenValue::Uint { size, bytes } => TonTok::Uint { size: size as nat, bytes: bytes@ },
        TonTokenValue::Int { size, bytes } => TonTok::Int { size: size as nat, bytes: bytes@ },
        TonTokenValue::Bool(b) => TonTok::Bool(b),
        TonTokenValue::Bytes(b) => TonTok::Bytes(b@),
        TonTokenValue::FixedBytes(b) => TonTok::FixedBytes(b@),
        TonTokenValue::Cell(b) => TonTok::Cell(b@),
        TonTokenValue::Address { workchain, account } => TonTok::Address {
            workchain: workchain as int,
            account: account@,
        },
        TonTokenValue::FixedArray(ts) => TonTok::FixedArray(ton_view_seq(ts@)),
        TonTokenValue::Array(ts) => TonTok::Array(ton_view_seq(ts@)),
        TonTokenValue::Tuple(ts) => TonTok::Tuple(ton_view_seq(ts@)),
        TonTokenValue::Unsupported => TonTok::Unsupported,
    }
}

pub open spec fn ton_view_seq(s: Seq<TonTokenValue>) -> Seq<TonTok>
    decreases s,
{
    if s.len() == 0 {
        Seq::empty()
    } else {
        ton_view_seq(s.drop_last()).push(ton_view(s.last()))
    }
}

/// `ton_view_seq` maps `ton_view` over the sequence, index by index.
pub proof fn lemma_ton_view_seq(s: Seq<TonTokenValue>)
    ensures
        ton_view_seq(s).len() == s.len(),
        forall|i: int| 0 <= i < s.len() ==> ton_view_seq(s)[i] == ton_view(#[trigger] s[i]),
    decreases s.len(),
{
    if s.len() > 0 {
        lemma_ton_view_seq(s.drop_last());
        assert forall|i: int| 0 <= i < s.len() implies ton_view_seq(s)[i] == ton_view(
            #[trigger] s[i],
        ) by {
            if i < s.len() - 1 {
                assert(s.drop_last()[i] == s[i]);
            } else {
                assert(s[i] == s.last());
            }
        }
    }
}

pub open spec fn eth_view(t: EthTokenValue) -> EthTok
    decreases t,
{
    match t {
        EthTokenValue::Address(b) => EthTok::Address(b@),
        EthTokenValue::FixedBytes(b) => EthTok::FixedBytes(b@),
        EthTokenValue::Bytes(b) => EthTok::Bytes(b@),
        EthTokenValue::Int(b) => EthTok::Int(b@),
        EthTokenValue::Uint(b) => EthTok::Uint(b@),
        EthTokenValue::Bool(b) => EthTok::Bool(b),
        EthTokenValue::FixedArray(ts) => EthTok::FixedArray(eth_view_seq(ts@)),
        EthTokenValue::Array(ts) => EthTok::Array(eth_view_seq(ts@)),
        EthTokenValue::Tuple(ts) => EthTok::Tuple(eth_view_seq(ts@)),
    }
}

pub open spec fn eth_view_seq(s: Seq<EthTokenValue>) -> Seq<EthTok>
    decreases s,
{
    if s.len() == 0 {
        Seq::empty()
    } else {
        eth_view_seq(s.drop_last()).push(eth_view(s.last()))
    }
}

/// `eth_view_seq` maps `eth_view` over the sequence, index by index.
pub proof fn lemma_eth_view_seq(s: Seq<EthTokenValue>)
    ensures
        eth_view_seq(s).len() == s.len(),
        forall|i: int| 0 <= i < s.len() ==> eth_view_seq(s)[i] == eth_view(#[trigger] s[i]),
    decreases s.len(),
{
    if s.len() > 0 {
        lemma_eth_view_seq(s.drop_last());
        assert forall|i: int| 0 <= i < s.len() implies eth_view_seq(s)[i] == eth_view(
            #[trigger] s[i],
        ) by {
            if i < s.len() - 1 {
                assert(s.drop_last()[i] == s[i]);
            } else {
                assert(s[i] == s.last());
            }
        }
    }
}

/// Well-formedness of a destination value: numeric words hold exactly 32
/// bytes, addresses exactly 20, recursively. The destination chain's
/// byte-level encoder is only ever handed well-formed values.
pub open spec fn eth_wf(t: EthTok) -> bool
    decreases t,
{
    match t {
        EthTok::Address(b) => b.len() == 20,
        EthTok::FixedBytes(_) => true,
        EthTok::Bytes(_) => true,
        EthTok::Int(b) => b.len() == 32,
        EthTok::Uint(b) => b.len() == 32,
        EthTok::Bool(_) => true,
        EthTok::FixedArray(ts) => eth_wf_seq(ts),
        EthTok::Array(ts) => eth_wf_seq(ts),
        EthTok::Tuple(ts) => eth_wf_seq(ts),
    }
}

pub open spec fn eth_wf_seq(s: Seq<EthTok>) -> bool
    decreases s,
{
    if s.len() == 0 {
        true
    } else {
        eth_wf_seq(s.drop_last()) && eth_wf(s.last())
    }
}

/// A sequence of destination values is well formed exactly when each of its
/// elements is.
pub proof fn lemma_eth_wf_seq(s: Seq<EthTok>)
    ensures
        eth_wf_seq(s) <==> (forall|i: int| 0 <= i < s.len() ==> eth_wf(#[trigger] s[i])),
    decreases s.len(),
{
    if s.len() > 0 {
        lemma_eth_wf_seq(s.drop_last());
        assert forall|i: int| 0 <= i < s.len() - 1 implies (eth_wf(#[trigger] s[i]) == eth_wf(
            s.drop_last()[i],
        )) by {
            assert(s.drop_last()[i] == s[i]);
        }
        if eth_wf_seq(s) {
            assert forall|i: int| 0 <= i < s.len() implies eth_wf(#[trigger] s[i]) by {
                if i == s.len() - 1 {
                    assert(s[i] == s.last());
                } else {
                    assert(s.drop_last()[i] == s[i]);
                }
            }
        }
    }
}

} // verus!
