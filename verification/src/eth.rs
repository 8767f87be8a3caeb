//! Destination-chain payload construction.
//!
//! `map_event_data` re-encodes a decoded event payload as a destination ABI
//! blob. `encode_eth_payload` packs the fixed relay envelope — transaction
//! id, logical time, timestamp, event index, the mapped payload as an inner
//! blob, the configuration contract's chain id and account id, both
//! thresholds, and the destination proxy address — into the destination
//! chain's standard tuple encoding.

use vstd::prelude::*;

use crate::errors::MapError;
use crate::eth_abi::{eth_abi_encode, eth_abi_encoded};
use crate::map::{lemma_map_seq_wf, map_children, map_seq};
use crate::numeric::{i8_word, u64_word, uint_word, word_from_i8, word_from_u64};
use crate::numeric::{lemma_strip_zeros_fits, uint_word_from_be_bytes};
use crate::tokens::{eth_view, eth_view_seq, eth_wf, eth_wf_seq, lemma_eth_wf_seq};
use crate::tokens::{ton_view_seq, EthTok, EthTokenValue, TonTok, TonTokenValue};

verus! {

broadcast use vstd::std_specs::vec::group_vec_axioms, vstd::seq::group_seq_axioms;

/// A value that has a canonical destination-chain token form.
pub trait Pack: Sized {
    /// The destination token this value packs to.
    spec fn packed(&self) -> EthTok;

    /// Packs the value; the result is exactly `packed`, and well formed.
    fn pack(self) -> (r: EthTokenValue)
        ensures
            eth_view(r) == self.packed(),
            eth_wf(self.packed()),
    ;
}

impl Pack for u64 {
    open spec fn packed(&self) -> EthTok {
        EthTok::Uint(u64_word(*self))
    }

    fn pack(self) -> (r: EthTokenValue) {
        EthTokenValue::Uint(word_from_u64(self))
    }
}

impl Pack for u32 {
    open spec fn packed(&self) -> EthTok {
        EthTok::Uint(u64_word(*self as u64))
    }

    fn pack(self) -> (r: EthTokenValue) {
        EthTokenValue::Uint(word_from_u64(self as u64))
    }
}

impl Pack for u16 {
    open spec fn packed(&self) -> EthTok {
        EthTok::Uint(u64_word(*self as u64))
    }

    fn pack(self) -> (r: EthTokenValue) {
        EthTokenValue::Uint(word_from_u64(self as u64))
    }
}

impl Pack for i8 {
    open spec fn packed(&self) -> EthTok {
        EthTok::Int(i8_word(*self))
    }

    fn pack(self) -> (r: EthTokenValue) {
        EthTokenValue::Int(word_from_i8(self))
    }
}

impl Pack for Vec<u8> {
    open spec fn packed(&self) -> EthTok {
        EthTok::Bytes(self@)
    }

    fn pack(self) -> (r: EthTokenValue) {
        EthTokenValue::Bytes(self)
    }
}

/// Maps every decoded source token to its destination counterpart and
/// encodes the results as one destination ABI byte string — the event
/// payload re-expressed as an inner blob.
pub fn map_event_data(tokens: &Vec<TonTokenValue>) -> (r: Result<Vec<u8>, MapError>)
    ensures
        r matches Ok(b) ==> map_seq(ton_view_seq(tokens@)) is Ok && b@ == eth_abi_encoded(
            map_seq(ton_view_seq(tokens@))->Ok_0,
        ),
        r matches Err(e) ==> map_seq(ton_view_seq(tokens@)) == Err::<Seq<EthTok>, MapError>(e),
{
    match map_children(tokens) {
        Ok(es) => {
            proof {
                lemma_map_seq_wf(ton_view_seq(tokens@));
            }
            Ok(eth_abi_encode(&es))
        },
        Err(e) => Err(e),
    }
}

/// The fields of the relay envelope, as plain values: the parsed record's
/// identifiers and thresholds, the governing configuration contract's
/// address, and the destination proxy contract's flat address.
pub struct EthPayload {
    /// Transaction identifier: exactly 32 big-endian bytes.
    pub event_transaction: Vec<u8>,
    pub event_transaction_lt: u64,
    pub event_timestamp: u32,
    pub event_index: u32,
    /// Chain id of the configuration contract's address.
    pub configuration_workchain: i8,
    /// Account id of the configuration contract's address: at most 32 bytes,
    /// big-endian.
    pub configuration_account: Vec<u8>,
    pub required_confirmations: u16,
    pub required_rejections: u16,
    /// Destination proxy contract: exactly 20 bytes.
    pub proxy: Vec<u8>,
}

impl EthPayload {
    /// The fixed-width fields hold exactly their declared widths.
    pub open spec fn wf(&self) -> bool {
        &&& self.event_transaction@.len() == 32
        &&& self.configuration_account@.len() <= 32
        &&& self.proxy@.len() == 20
    }
}

/// What the whole payload encodes to: the mapped event data re-encoded as
/// an inner blob, wrapped with the envelope fields into one tuple, encoded
/// in the destination chain's standard form. A function of the payload
/// fields and the decoded event tokens alone.
pub open spec fn payload_encoding(event: EthPayload, toks: Seq<TonTok>) -> Result<
    Seq<u8>,
    MapError,
> {
    match map_seq(toks) {
        Ok(es) => Ok(
            eth_abi_encoded(seq![EthTok::Tuple(envelope_toks(event, eth_abi_encoded(es)))]),
        ),
        Err(e) => Err(e),
    }
}

/// Determinism (law): for fixed payload fields and fixed decoded event
/// tokens, any two encodings the crate admits are byte-identical.
pub proof fn lemma_encode_deterministic(
    event: EthPayload,
    toks: Seq<TonTok>,
    b1: Seq<u8>,
    b2: Seq<u8>,
)
    requires
        payload_encoding(event, toks) == Ok::<Seq<u8>, MapError>(b1),
        payload_encoding(event, toks) == Ok::<Seq<u8>, MapError>(b2),
    ensures
        b1 == b2,
{
}

/// The envelope tuple's token sequence, in packing order.
pub open spec fn envelope_toks(p: EthPayload, mapped_payload: Seq<u8>) -> Seq<EthTok> {
    seq![
        EthTok::Uint(p.event_transaction@),
        EthTok::Uint(u64_word(p.event_transaction_lt)),
        EthTok::Uint(u64_word(p.event_timestamp as u64)),
        EthTok::Uint(u64_word(p.event_index as u64)),
        EthTok::Bytes(mapped_payload),
        EthTok::Int(i8_word(p.configuration_workchain)),
        EthTok::Uint(uint_word(p.configuration_account@)),
        EthTok::Uint(u64_word(p.required_confirmations as u64)),
        EthTok::Uint(u64_word(p.required_rejections as u64)),
        EthTok::Address(p.proxy@),
    ]
}

/// Packs the relay envelope: the payload's fields and the mapped event data
/// as one destination-chain tuple, encoded as `eth_abi_encoded` of a single
/// tuple token holding `envelope_toks`. Fails exactly when mapping the event
/// data fails, with the mapper's error.
pub fn encode_eth_payload(event: EthPayload, event_data_tokens: &Vec<TonTokenValue>) -> (r:
    Result<Vec<u8>, MapError>)
    requires
        event.wf(),
    ensures
        r matches Ok(b) ==> payload_encoding(event, ton_view_seq(event_data_tokens@)) == Ok::<
            Seq<u8>,
            MapError,
        >(b@),
        r matches Err(e) ==> payload_encoding(event, ton_view_seq(event_data_tokens@)) == Err::<
            Seq<u8>,
            MapError,
        >(e),
{
    let mapped = match map_event_data(event_data_tokens) {
        Ok(b) => b,
        Err(e) => {
            return Err(e);
        },
    };
    let ghost mp = mapped@;
    let ghost p = event;
    let account_word = match uint_word_from_be_bytes(&event.configuration_account) {
        Some(w) => w,
        None => {
            proof {
                lemma_strip_zeros_fits(event.configuration_account@);
                crate::numeric::lemma_be_value_bound(event.configuration_account@);
                crate::numeric::lemma_pow256_mono(event.configuration_account@.len(), 32);
                assert(false);
            }
            return Err(MapError::IntegerOverflow);
        },
    };
    let f0 = EthTokenValue::Uint(event.event_transaction);
    let f1 = event.event_transaction_lt.pack();
    let f2 = event.event_timestamp.pack();
    let f3 = event.event_index.pack();
    let f4 = mapped.pack();
    let f5 = event.configuration_workchain.pack();
    let f6 = EthTokenValue::Uint(account_word);
    let f7 = event.required_confirmations.pack();
    let f8 = event.required_rejections.pack();
    let f9 = EthTokenValue::Address(event.proxy);
    let mut fields: Vec<EthTokenValue> = Vec::new();
    fields.push(f0);
    fields.push(f1);
    fields.push(f2);
    fields.push(f3);
    fields.push(f4);
    fields.push(f5);
    fields.push(f6);
    fields.push(f7);
    fields.push(f8);
    fields.push(f9);
    proof {
        crate::tokens::lemma_eth_view_seq(fields@);
        assert(fields@.len() == 10);
        assert(fields@[0] == f0 && fields@[1] == f1 && fields@[2] == f2 && fields@[3] == f3
            && fields@[4] == f4 && fields@[5] == f5 && fields@[6] == f6 && fields@[7] == f7
            && fields@[8] == f8 && fields@[9] == f9);
        assert(eth_view_seq(fields@) =~= envelope_toks(p, mp));
        lemma_eth_wf_seq(envelope_toks(p, mp));
    }
    let tuple = EthTokenValue::Tuple(fields);
    let mut top: Vec<EthTokenValue> = Vec::new();
    top.push(tuple);
    proof {
        crate::tokens::lemma_eth_view_seq(top@);
        assert(eth_view_seq(top@) =~= seq![EthTok::Tuple(envelope_toks(p, mp))]);
        lemma_eth_wf_seq(eth_view_seq(top@));
    }
    Ok(eth_abi_encode(&top))
}


/// Builds the relay envelope's fields from a parsed event record and the
/// destination proxy address. Fails — as re-expressing the account id as a
/// 256-bit integer must — when the configuration account id is wider than
/// 32 bytes, and when the transaction id or proxy is not its exact width.
pub fn eth_payload_from_details(
    d: &crate::record::TonEventDetails,
    proxy: Vec<u8>,
) -> (r: Result<EthPayload, crate::errors::AbiError>)
    ensures
        r is Ok <==> d.init_data.event_transaction@.len() == 32
            && d.init_data.ton_event_configuration.account@.len() <= 32 && proxy@.len() == 20,
        r matches Ok(p) ==> {
            &&& p.wf()
            &&& p.event_transaction@ == d.init_data.event_transaction@
            &&& p.event_transaction_lt == d.init_data.event_transaction_lt
            &&& p.event_timestamp == d.init_data.event_timestamp
            &&& p.event_index == d.init_data.event_index
            &&& p.configuration_workchain == d.init_data.ton_event_configuration.workchain
            &&& p.configuration_account@ == d.init_data.ton_event_configuration.account@
            &&& p.required_confirmations == d.init_data.required_confirmations
            &&& p.required_rejections == d.init_data.required_rejections
            &&& p.proxy@ == proxy@
        },
{
    if d.init_data.event_transaction.len() != 32 {
        return Err(crate::errors::AbiError::InvalidAbi);
    }
    if d.init_data.ton_event_configuration.account.len() > 32 {
        return Err(crate::errors::AbiError::InvalidAbi);
    }
    if proxy.len() != 20 {
        return Err(crate::errors::AbiError::InvalidAbi);
    }
    Ok(
        EthPayload {
            event_transaction: crate::numeric::clone_bytes(&d.init_data.event_transaction),
            event_transaction_lt: d.init_data.event_transaction_lt,
            event_timestamp: d.init_data.event_timestamp,
            event_index: d.init_data.event_index,
            configuration_workchain: d.init_data.ton_event_configuration.workchain,
            configuration_account: crate::numeric::clone_bytes(
                &d.init_data.ton_event_configuration.account,
            ),
            required_confirmations: d.init_data.required_confirmations,
            required_rejections: d.init_data.required_rejections,
            proxy,
        },
    )
}

} // verus!
