//! Cross-chain token mapping: source ABI values to destination ABI values.
//!
//! Integers are reinterpreted value-exactly in the destination's fixed
//! 256-bit width (negative values sign-extended); booleans and byte strings
//! are copied verbatim; arrays and tuples are mapped element-wise, preserving
//! order and nesting. Any other source shape fails with an explicit
//! unsupported-shape error, and an integer that cannot be carried exactly
//! fails with an overflow error. The spec function `map_tok` is the single
//! definition of this conversion; the executable mapper is proved to return
//! exactly its result.

use vstd::prelude::*;

use crate::errors::MapError;
use crate::numeric::{be_value, clone_bytes, int_word, pow256, strip_signed, uint_word};
use crate::numeric::{int_word_from_sbe_bytes, lemma_strip_zeros_fits, uint_word_from_be_bytes};
use crate::tokens::{eth_view, eth_view_seq, lemma_ton_view_seq};
use crate::tokens::{ton_view, ton_view_seq, EthTok, EthTokenValue, TonTok, TonTokenValue};
use crate::tokens::{eth_wf, eth_wf_seq};

verus! {

broadcast use vstd::std_specs::vec::group_vec_axioms, vstd::seq::group_seq_axioms;

/// What a source value maps to on the destination chain, or why it cannot.
pub open spec fn map_tok(t: TonTok) -> Result<EthTok, MapError>
    decreases t,
{
    match t {
        TonTok::FixedBytes(b) => Ok(EthTok::FixedBytes(b)),
        TonTok::Bytes(b) => Ok(EthTok::Bytes(b)),
        TonTok::Uint { size, bytes } => if be_value(bytes) < pow256(32) {
            Ok(EthTok::Uint(uint_word(bytes)))
        } else {
            Err(MapError::IntegerOverflow)
        },
        TonTok::Int { size, bytes } => if strip_signed(bytes).len() <= 32 {
            Ok(EthTok::Int(int_word(bytes)))
        } else {
            Err(MapError::IntegerOverflow)
        },
        TonTok::Bool(b) => Ok(EthTok::Bool(b)),
        TonTok::FixedArray(ts) => match map_seq(ts) {
            Ok(es) => Ok(EthTok::FixedArray(es)),
            Err(e) => Err(e),
        },
        TonTok::Array(ts) => match map_seq(ts) {
            Ok(es) => Ok(EthTok::Array(es)),
            Err(e) => Err(e),
        },
        TonTok::Tuple(ts) => match map_seq(ts) {
            Ok(es) => Ok(EthTok::Tuple(es)),
            Err(e) => Err(e),
        },
        _ => Err(MapError::UnsupportedType),
    }
}

/// Element-wise mapping of a sequence; the error of the leftmost failing
/// element wins.
pub open spec fn map_seq(s: Seq<TonTok>) -> Result<Seq<EthTok>, MapError>
    decreases s,
{
    if s.len() == 0 {
        Ok(Seq::empty())
    } else {
        match map_seq(s.drop_last()) {
            Err(e) => Err(e),
            Ok(es) => match map_tok(s.last()) {
                Err(e) => Err(e),
                Ok(e) => Ok(es.push(e)),
            },
        }
    }
}

/// Once a prefix fails to map, the whole sequence fails with that error.
pub proof fn lemma_map_seq_prefix_err(s: Seq<TonTok>, k: int)
    requires
        0 <= k <= s.len(),
        map_seq(s.take(k)) is Err,
    ensures
        map_seq(s) == map_seq(s.take(k)),
    decreases s.len(),
{
    if s.len() == k {
        assert(s.take(k) =~= s);
    } else {
        assert(s.drop_last().take(k) =~= s.take(k));
        lemma_map_seq_prefix_err(s.drop_last(), k);
    }
}

/// Everything the mapper produces is well formed: numeric words hold exactly
/// 32 bytes, addresses exactly 20, recursively.
pub proof fn lemma_map_tok_wf(t: TonTok)
    ensures
        map_tok(t) matches Ok(e) ==> eth_wf(e),
    decreases t,
{
    match t {
        TonTok::Uint { size, bytes } => {
            if be_value(bytes) < pow256(32) {
                lemma_strip_zeros_fits(bytes);
            }
        },
        TonTok::FixedArray(ts) => lemma_map_seq_wf(ts),
        TonTok::Array(ts) => lemma_map_seq_wf(ts),
        TonTok::Tuple(ts) => lemma_map_seq_wf(ts),
        _ => {},
    }
}

pub proof fn lemma_map_seq_wf(s: Seq<TonTok>)
    ensures
        map_seq(s) matches Ok(es) ==> eth_wf_seq(es),
    decreases s,
{
    if s.len() > 0 {
        lemma_map_seq_wf(s.drop_last());
        lemma_map_tok_wf(s.last());
        if map_seq(s) is Ok {
            let es = map_seq(s)->Ok_0;
            assert(es.drop_last() =~= map_seq(s.drop_last())->Ok_0);
            assert(es.last() == map_tok(s.last())->Ok_0);
        }
    }
}

/// Maps one source value to its destination counterpart, exactly as
/// `map_tok` describes, reporting `map_tok`'s error otherwise.
#[verifier::loop_isolation(false)]
pub fn map_ton_to_eth(t: &TonTokenValue) -> (r: Result<EthTokenValue, MapError>)
    ensures
        r matches Ok(e) ==> map_tok(ton_view(*t)) == Ok::<EthTok, MapError>(eth_view(e)),
        r matches Err(e) ==> map_tok(ton_view(*t)) == Err::<EthTok, MapError>(e),
    decreases *t,
{
    match t {
        TonTokenValue::FixedBytes(b) => Ok(EthTokenValue::FixedBytes(clone_bytes(b))),
        TonTokenValue::Bytes(b) => Ok(EthTokenValue::Bytes(clone_bytes(b))),
        TonTokenValue::Uint { size: _, bytes } => match uint_word_from_be_bytes(bytes) {
            Some(w) => Ok(EthTokenValue::Uint(w)),
            None => Err(MapError::IntegerOverflow),
        },
        TonTokenValue::Int { size: _, bytes } => match int_word_from_sbe_bytes(bytes) {
            Some(w) => Ok(EthTokenValue::Int(w)),
            None => Err(MapError::IntegerOverflow),
        },
        TonTokenValue::Bool(b) => Ok(EthTokenValue::Bool(*b)),
        TonTokenValue::FixedArray(ts) => match map_children(ts) {
            Ok(es) => Ok(EthTokenValue::FixedArray(es)),
            Err(e) => Err(e),
        },
        TonTokenValue::Array(ts) => match map_children(ts) {
            Ok(es) => Ok(EthTokenValue::Array(es)),
            Err(e) => Err(e),
        },
        TonTokenValue::Tuple(ts) => match map_children(ts) {
            Ok(es) => Ok(EthTokenValue::Tuple(es)),
            Err(e) => Err(e),
        },
        TonTokenValue::Cell(_) => Err(MapError::UnsupportedType),
        TonTokenValue::Address { workchain: _, account: _ } => Err(MapError::UnsupportedType),
        TonTokenValue::Unsupported => Err(MapError::UnsupportedType),
    }
}

/// Maps every element of a sequence of source values, left to right,
/// stopping at the first failure, exactly as `map_seq` describes.
#[verifier::loop_isolation(false)]
pub fn map_children(ts: &Vec<TonTokenValue>) -> (r: Result<Vec<EthTokenValue>, MapError>)
    ensures
        r matches Ok(es) ==> map_seq(ton_view_seq(ts@)) == Ok::<Seq<EthTok>, MapError>(
            eth_view_seq(es@),
        ),
        r matches Err(e) ==> map_seq(ton_view_seq(ts@)) == Err::<Seq<EthTok>, MapError>(e),
    decreases *ts,
{
    proof {
        lemma_ton_view_seq(ts@);
    }
    let ghost vs = ton_view_seq(ts@);
    let mut out: Vec<EthTokenValue> = Vec::new();
    let mut i: usize = 0;
    while i < ts.len()
        invariant
            i <= ts@.len(),
            map_seq(vs.take(i as int)) == Ok::<Seq<EthTok>, MapError>(eth_view_seq(out@)),
        decreases ts@.len() - i,
    {
        proof {
            assert(decreases_to!(*ts => ts@[i as int]));
        }
        match map_ton_to_eth(&ts[i]) {
            Ok(e) => {
                proof {
                    assert(vs.take(i as int + 1).drop_last() =~= vs.take(i as int));
                    assert(vs.take(i as int + 1).last() == vs[i as int]);
                }
                let ghost prev = out@;
                let ghost ev = eth_view(e);
                out.push(e);
                proof {
                    assert(out@.drop_last() =~= prev);
                    assert(out@.last() == e);
                    assert(eth_view_seq(out@) == eth_view_seq(prev).push(ev));
                }
            },
            Err(e) => {
                proof {
                    assert(vs.take(i as int + 1).drop_last() =~= vs.take(i as int));
                    assert(vs.take(i as int + 1).last() == vs[i as int]);
                    assert(map_seq(vs.take(i as int + 1)) == Err::<Seq<EthTok>, MapError>(e));
                    lemma_map_seq_prefix_err(vs, i as int + 1);
                }
                return Err(e);
            },
        }
        i = i + 1;
    }
    proof {
        assert(vs.take(ts@.len() as int) =~= vs);
    }
    Ok(out)
}

} // verus!
