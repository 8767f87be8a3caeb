//! The `getDetails` accessor: its selector pair and its reply parser.
//!
//! The accessor's 32-bit selector is derived from a hash of its normalized
//! signature, computed by the source chain's ABI library; what the crate
//! owns is the bit discipline on top of it: the call selector is the hash
//! with its top bit forced clear, the reply selector is the same value with
//! the top bit forced set.
//!
//! The reply parser turns the decoded reply tokens into the typed event
//! record. Parsing is strict and all-or-nothing: the reply must be exactly
//! the declared five-element output tuple, the init data exactly its
//! nine-element tuple, and every integer must fit its declared width; any
//! mismatch is the one uniform "invalid ABI" error.

use vstd::prelude::*;

use crate::errors::AbiError;
use crate::numeric::{addr20, be_value, clone_bytes, eth_address_from_be_bytes, pow256, uint_word};
use crate::numeric::{u16_from_be_bytes, u32_from_be_bytes, u64_from_be_bytes, u8_from_be_bytes};
use crate::numeric::uint_word_from_be_bytes;
use crate::record::{AddressModel, DetailsModel, EventStatus, InitDataModel};
use crate::record::{TonAddress, TonEventDetails, TonEventInitData};
use crate::tokens::{lemma_ton_view_seq, ton_view, ton_view_seq, TonTok, TonTokenValue};

verus! {

broadcast use vstd::std_specs::vec::group_vec_axioms, vstd::seq::group_seq_axioms;

/// The accessor's identity: its literal name and its two selectors.
pub struct GetDetailsAbi {
    pub name: &'static str,
    /// The call selector: the signature hash with the top bit forced clear.
    pub input_id: u32,
    /// The reply selector: the signature hash with the top bit forced set.
    pub output_id: u32,
}

/// Builds the accessor's identity from the hash of its normalized
/// signature. The hash itself comes from the source chain's ABI library;
/// the selector discipline — top bit cleared for the call, set for the
/// reply — is fixed here.
pub fn abi_get_details(function_hash: u32) -> (r: GetDetailsAbi)
    ensures
        r.input_id == function_hash & 0x7FFF_FFFF,
        r.output_id == function_hash | 0x8000_0000,
        r.name@ == "getDetails"@,
{
    GetDetailsAbi {
        name: "getDetails",
        input_id: function_hash & 0x7FFF_FFFF,
        output_id: function_hash | 0x8000_0000,
    }
}

/// Selector correctness: whatever the signature hash, the call selector has
/// its high bit clear, the reply selector is the call selector with the
/// high bit set, and the two differ in that bit alone.
pub proof fn lemma_selector_pair(function_hash: u32)
    ensures
        (function_hash & 0x7FFF_FFFF) >> 31 == 0,
        function_hash | 0x8000_0000 == (function_hash & 0x7FFF_FFFF) | 0x8000_0000,
        ((function_hash & 0x7FFF_FFFF) ^ (function_hash | 0x8000_0000)) == 0x8000_0000,
{
    assert((function_hash & 0x7FFF_FFFF) >> 31 == 0) by (bit_vector);
    assert(function_hash | 0x8000_0000 == (function_hash & 0x7FFF_FFFF) | 0x8000_0000)
        by (bit_vector);
    assert(((function_hash & 0x7FFF_FFFF) ^ (function_hash | 0x8000_0000)) == 0x8000_0000)
        by (bit_vector);
}

/// The status a reply token decodes to: 0, 1 and 2 mean in-process,
/// confirmed and rejected; any other value, and any other shape, is an
/// invalid-ABI error.
pub open spec fn status_of(t: TonTok) -> Result<EventStatus, AbiError> {
    match t {
        TonTok::Uint { size, bytes } => if be_value(bytes) == 0 {
            Ok(EventStatus::InProcess)
        } else if be_value(bytes) == 1 {
            Ok(EventStatus::Confirmed)
        } else if be_value(bytes) == 2 {
            Ok(EventStatus::Rejected)
        } else {
            Err(AbiError::InvalidAbi)
        },
        _ => Err(AbiError::InvalidAbi),
    }
}

/// A 64-bit field: an unsigned token whose value fits.
pub open spec fn u64_of(t: TonTok) -> Result<u64, AbiError> {
    match t {
        TonTok::Uint { size, bytes } => if be_value(bytes) <= u64::MAX {
            Ok(be_value(bytes) as u64)
        } else {
            Err(AbiError::InvalidAbi)
        },
        _ => Err(AbiError::InvalidAbi),
    }
}

/// A 32-bit field: an unsigned token whose value fits.
pub open spec fn u32_of(t: TonTok) -> Result<u32, AbiError> {
    match t {
        TonTok::Uint { size, bytes } => if be_value(bytes) <= u32::MAX {
            Ok(be_value(bytes) as u32)
        } else {
            Err(AbiError::InvalidAbi)
        },
        _ => Err(AbiError::InvalidAbi),
    }
}

/// A 16-bit field: an unsigned token whose value fits. This is the
/// threshold narrowing: a wider value is an invalid-ABI error, never a
/// silent truncation.
pub open spec fn u16_of(t: TonTok) -> Result<u16, AbiError> {
    match t {
        TonTok::Uint { size, bytes } => if be_value(bytes) <= u16::MAX {
            Ok(be_value(bytes) as u16)
        } else {
            Err(AbiError::InvalidAbi)
        },
        _ => Err(AbiError::InvalidAbi),
    }
}

/// A 256-bit field: an unsigned token, widened to its canonical 32-byte
/// big-endian form.
pub open spec fn uint256_of(t: TonTok) -> Result<Seq<u8>, AbiError> {
    match t {
        TonTok::Uint { size, bytes } => if be_value(bytes) < pow256(32) {
            Ok(uint_word(bytes))
        } else {
            Err(AbiError::InvalidAbi)
        },
        _ => Err(AbiError::InvalidAbi),
    }
}

/// An opaque cell field: the serialized subtree's bytes.
pub open spec fn cell_of(t: TonTok) -> Result<Seq<u8>, AbiError> {
    match t {
        TonTok::Cell(b) => Ok(b),
        _ => Err(AbiError::InvalidAbi),
    }
}

/// An address field.
pub open spec fn address_of(t: TonTok) -> Result<AddressModel, AbiError> {
    match t {
        TonTok::Address { workchain, account } => Ok(AddressModel { workchain, account }),
        _ => Err(AbiError::InvalidAbi),
    }
}

/// A byte-string field.
pub open spec fn bytes_of(t: TonTok) -> Result<Seq<u8>, AbiError> {
    match t {
        TonTok::Bytes(b) => Ok(b),
        _ => Err(AbiError::InvalidAbi),
    }
}

/// Every element of the sequence as an address, in order.
pub open spec fn addr_list_of(s: Seq<TonTok>) -> Result<Seq<AddressModel>, AbiError>
    decreases s,
{
    if s.len() == 0 {
        Ok(Seq::empty())
    } else {
        match addr_list_of(s.drop_last()) {
            Err(e) => Err(e),
            Ok(l) => match address_of(s.last()) {
                Err(e) => Err(e),
                Ok(a) => Ok(l.push(a)),
            },
        }
    }
}

/// An ordered list of addresses: a variable array whose elements are all
/// addresses.
pub open spec fn addr_array_of(t: TonTok) -> Result<Seq<AddressModel>, AbiError> {
    match t {
        TonTok::Array(ts) => addr_list_of(ts),
        _ => Err(AbiError::InvalidAbi),
    }
}

/// Every element of the sequence as a byte string, in order.
pub open spec fn bytes_list_of(s: Seq<TonTok>) -> Result<Seq<Seq<u8>>, AbiError>
    decreases s,
{
    if s.len() == 0 {
        Ok(Seq::empty())
    } else {
        match bytes_list_of(s.drop_last()) {
            Err(e) => Err(e),
            Ok(l) => match bytes_of(s.last()) {
                Err(e) => Err(e),
                Ok(b) => Ok(l.push(b)),
            },
        }
    }
}

/// An ordered list of byte strings: a variable array whose elements are all
/// byte strings.
pub open spec fn bytes_array_of(t: TonTok) -> Result<Seq<Seq<u8>>, AbiError> {
    match t {
        TonTok::Array(ts) => bytes_list_of(ts),
        _ => Err(AbiError::InvalidAbi),
    }
}

/// The init-data tuple: exactly nine fields of the declared types, in the
/// declared order. All-or-nothing.
pub open spec fn init_data_of(t: TonTok) -> Result<InitDataModel, AbiError> {
    match t {
        TonTok::Tuple(fs) => if fs.len() != 9 {
            Err(AbiError::InvalidAbi)
        } else {
            match (uint256_of(fs[0]), u64_of(fs[1]), u32_of(fs[2]), u32_of(fs[3]), cell_of(fs[4]),
            address_of(fs[5]), u16_of(fs[6]), u16_of(fs[7]), cell_of(fs[8])) {
                (
                    Ok(tx),
                    Ok(lt),
                    Ok(ts),
                    Ok(ix),
                    Ok(ed),
                    Ok(cfg),
                    Ok(rc),
                    Ok(rr),
                    Ok(cm),
                ) => Ok(
                    InitDataModel {
                        event_transaction: tx,
                        event_transaction_lt: lt,
                        event_timestamp: ts,
                        event_index: ix,
                        event_data: ed,
                        ton_event_configuration: cfg,
                        required_confirmations: rc,
                        required_rejections: rr,
                        configuration_meta: cm,
                    },
                ),
                _ => Err(AbiError::InvalidAbi),
            }
        },
        _ => Err(AbiError::InvalidAbi),
    }
}

/// The whole reply: exactly five tokens — init data, status, confirming
/// addresses, rejecting addresses, signatures. All-or-nothing.
pub open spec fn details_of(s: Seq<TonTok>) -> Result<DetailsModel, AbiError> {
    if s.len() != 5 {
        Err(AbiError::InvalidAbi)
    } else {
        match (init_data_of(s[0]), status_of(s[1]), addr_array_of(s[2]), addr_array_of(s[3]),
        bytes_array_of(s[4])) {
            (Ok(init), Ok(st), Ok(c), Ok(rj), Ok(sg)) => Ok(
                DetailsModel {
                    init_data: init,
                    status: st,
                    confirms: c,
                    rejections: rj,
                    signatures: sg,
                },
            ),
            _ => Err(AbiError::InvalidAbi),
        }
    }
}

/// Decodes the status token: 0, 1 and 2 are the three states, in order;
/// anything else is invalid.
pub fn decode_status(t: &TonTokenValue) -> (r: Result<EventStatus, AbiError>)
    ensures
        r == status_of(ton_view(*t)),
{
    match t {
        TonTokenValue::Uint { size: _, bytes } => match u8_from_be_bytes(bytes) {
            Some(0) => Ok(EventStatus::InProcess),
            Some(1) => Ok(EventStatus::Confirmed),
            Some(2) => Ok(EventStatus::Rejected),
            _ => Err(AbiError::InvalidAbi),
        },
        _ => Err(AbiError::InvalidAbi),
    }
}

/// Parses an address token.
pub fn parse_address(t: &TonTokenValue) -> (r: Result<TonAddress, AbiError>)
    ensures
        r matches Ok(a) ==> address_of(ton_view(*t)) == Ok::<AddressModel, AbiError>(
            a.deep_view(),
        ),
        r is Err <==> address_of(ton_view(*t)) is Err,
{
    match t {
        TonTokenValue::Address { workchain, account } => Ok(
            TonAddress { workchain: *workchain, account: clone_bytes(account) },
        ),
        _ => Err(AbiError::InvalidAbi),
    }
}

/// Parses an ordered list of addresses.
#[verifier::loop_isolation(false)]
pub fn parse_address_array(t: &TonTokenValue) -> (r: Result<Vec<TonAddress>, AbiError>)
    ensures
        r matches Ok(v) ==> addr_array_of(ton_view(*t)) == Ok::<Seq<AddressModel>, AbiError>(
            v.deep_view(),
        ),
        r is Err <==> addr_array_of(ton_view(*t)) is Err,
{
    let ts = match t {
        TonTokenValue::Array(ts) => ts,
        _ => {
            return Err(AbiError::InvalidAbi);
        },
    };
    proof {
        lemma_ton_view_seq(ts@);
    }
    let ghost vs = ton_view_seq(ts@);
    let mut out: Vec<TonAddress> = Vec::new();
    proof {
        assert(vs.take(0) =~= Seq::<TonTok>::empty());
        assert(out.deep_view() =~= Seq::<AddressModel>::empty());
    }
    let mut i: usize = 0;
    while i < ts.len()
        invariant
            i <= ts@.len(),
            addr_list_of(vs.take(i as int)) == Ok::<Seq<AddressModel>, AbiError>(
                out.deep_view(),
            ),
        decreases ts@.len() - i,
    {
        proof {
            assert(vs.take(i as int + 1).drop_last() =~= vs.take(i as int));
            assert(vs.take(i as int + 1).last() == vs[i as int]);
        }
        match parse_address(&ts[i]) {
            Ok(a) => {
                let ghost prev = out.deep_view();
                out.push(a);
                proof {
                    assert(out.deep_view() =~= prev.push(a.deep_view()));
                }
            },
            Err(e) => {
                proof {
                    lemma_addr_list_prefix_err(vs, i as int + 1);
                }
                return Err(AbiError::InvalidAbi);
            },
        }
        i = i + 1;
    }
    proof {
        assert(vs.take(ts@.len() as int) =~= vs);
    }
    Ok(out)
}

proof fn lemma_addr_list_prefix_err(s: Seq<TonTok>, k: int)
    requires
        0 <= k <= s.len(),
        addr_list_of(s.take(k)) is Err,
    ensures
        addr_list_of(s) is Err,
    decreases s.len(),
{
    if s.len() == k {
        assert(s.take(k) =~= s);
    } else {
        assert(s.drop_last().take(k) =~= s.take(k));
        lemma_addr_list_prefix_err(s.drop_last(), k);
    }
}

/// Parses an ordered list of byte strings.
#[verifier::loop_isolation(false)]
pub fn parse_bytes_array(t: &TonTokenValue) -> (r: Result<Vec<Vec<u8>>, AbiError>)
    ensures
        r matches Ok(v) ==> bytes_array_of(ton_view(*t)) == Ok::<Seq<Seq<u8>>, AbiError>(
            v.deep_view(),
        ),
        r is Err <==> bytes_array_of(ton_view(*t)) is Err,
{
    let ts = match t {
        TonTokenValue::Array(ts) => ts,
        _ => {
            return Err(AbiError::InvalidAbi);
        },
    };
    proof {
        lemma_ton_view_seq(ts@);
    }
    let ghost vs = ton_view_seq(ts@);
    let mut out: Vec<Vec<u8>> = Vec::new();
    proof {
        assert(vs.take(0) =~= Seq::<TonTok>::empty());
        assert(out.deep_view() =~~= Seq::<Seq<u8>>::empty());
    }
    let mut i: usize = 0;
    while i < ts.len()
        invariant
            i <= ts@.len(),
            bytes_list_of(vs.take(i as int)) == Ok::<Seq<Seq<u8>>, AbiError>(out.deep_view()),
        decreases ts@.len() - i,
    {
        proof {
            assert(vs.take(i as int + 1).drop_last() =~= vs.take(i as int));
            assert(vs.take(i as int + 1).last() == vs[i as int]);
        }
        match &ts[i] {
            TonTokenValue::Bytes(b) => {
                let ghost prev = out.deep_view();
                let c = clone_bytes(b);
                out.push(c);
                proof {
                    assert(out.deep_view() =~~= prev.push(b@));
                }
            },
            _ => {
                proof {
                    lemma_bytes_list_prefix_err(vs, i as int + 1);
                }
                return Err(AbiError::InvalidAbi);
            },
        }
        i = i + 1;
    }
    proof {
        assert(vs.take(ts@.len() as int) =~= vs);
    }
    Ok(out)
}

proof fn lemma_bytes_list_prefix_err(s: Seq<TonTok>, k: int)
    requires
        0 <= k <= s.len(),
        bytes_list_of(s.take(k)) is Err,
    ensures
        bytes_list_of(s) is Err,
    decreases s.len(),
{
    if s.len() == k {
        assert(s.take(k) =~= s);
    } else {
        assert(s.drop_last().take(k) =~= s.take(k));
        lemma_bytes_list_prefix_err(s.drop_last(), k);
    }
}

/// Parses the nine-field init-data tuple.
pub fn parse_init_data(t: &TonTokenValue) -> (r: Result<TonEventInitData, AbiError>)
    ensures
        r matches Ok(d) ==> init_data_of(ton_view(*t)) == Ok::<InitDataModel, AbiError>(
            d.deep_view(),
        ),
        r is Err <==> init_data_of(ton_view(*t)) is Err,
{
    let fs = match t {
        TonTokenValue::Tuple(fs) => fs,
        _ => {
            return Err(AbiError::InvalidAbi);
        },
    };
    proof {
        lemma_ton_view_seq(fs@);
    }
    if fs.len() != 9 {
        return Err(AbiError::InvalidAbi);
    }
    let event_transaction = match fs[0] {
        TonTokenValue::Uint { size: _, ref bytes } => match uint_word_from_be_bytes(bytes) {
            Some(w) => w,
            None => {
                return Err(AbiError::InvalidAbi);
            },
        },
        _ => {
            return Err(AbiError::InvalidAbi);
        },
    };
    let event_transaction_lt = match fs[1] {
        TonTokenValue::Uint { size: _, ref bytes } => match u64_from_be_bytes(bytes) {
            Some(v) => v,
            None => {
                return Err(AbiError::InvalidAbi);
            },
        },
        _ => {
            return Err(AbiError::InvalidAbi);
        },
    };
    let event_timestamp = match fs[2] {
        TonTokenValue::Uint { size: _, ref bytes } => match u32_from_be_bytes(bytes) {
            Some(v) => v,
            None => {
                return Err(AbiError::InvalidAbi);
            },
        },
        _ => {
            return Err(AbiError::InvalidAbi);
        },
    };
    let event_index = match fs[3] {
        TonTokenValue::Uint { size: _, ref bytes } => match u32_from_be_bytes(bytes) {
            Some(v) => v,
            None => {
                return Err(AbiError::InvalidAbi);
            },
        },
        _ => {
            return Err(AbiError::InvalidAbi);
        },
    };
    let event_data = match fs[4] {
        TonTokenValue::Cell(ref b) => clone_bytes(b),
        _ => {
            return Err(AbiError::InvalidAbi);
        },
    };
    let ton_event_configuration = match parse_address(&fs[5]) {
        Ok(a) => a,
        Err(_) => {
            return Err(AbiError::InvalidAbi);
        },
    };
    let required_confirmations = match fs[6] {
        TonTokenValue::Uint { size: _, ref bytes } => match u16_from_be_bytes(bytes) {
            Some(v) => v,
            None => {
                return Err(AbiError::InvalidAbi);
            },
        },
        _ => {
            return Err(AbiError::InvalidAbi);
        },
    };
    let required_rejections = match fs[7] {
        TonTokenValue::Uint { size: _, ref bytes } => match u16_from_be_bytes(bytes) {
            Some(v) => v,
            None => {
                return Err(AbiError::InvalidAbi);
            },
        },
        _ => {
            return Err(AbiError::InvalidAbi);
        },
    };
    let configuration_meta = match fs[8] {
        TonTokenValue::Cell(ref b) => clone_bytes(b),
        _ => {
            return Err(AbiError::InvalidAbi);
        },
    };
    Ok(
        TonEventInitData {
            event_transaction,
            event_transaction_lt,
            event_timestamp,
            event_index,
            event_data,
            ton_event_configuration,
            required_confirmations,
            required_rejections,
            configuration_meta,
        },
    )
}

/// Parses the accessor's reply tokens into the typed event record, exactly
/// as `details_of` describes: strict five-field shape, strict field types,
/// one uniform error.
pub fn get_details(tokens: Vec<TonTokenValue>) -> (r: Result<TonEventDetails, AbiError>)
    ensures
        r matches Ok(d) ==> details_of(ton_view_seq(tokens@)) == Ok::<DetailsModel, AbiError>(
            d.deep_view(),
        ),
        r is Err <==> details_of(ton_view_seq(tokens@)) is Err,
{
    proof {
        lemma_ton_view_seq(tokens@);
    }
    if tokens.len() != 5 {
        return Err(AbiError::InvalidAbi);
    }
    let init_data = match parse_init_data(&tokens[0]) {
        Ok(d) => d,
        Err(_) => {
            return Err(AbiError::InvalidAbi);
        },
    };
    let status = match decode_status(&tokens[1]) {
        Ok(s) => s,
        Err(_) => {
            return Err(AbiError::InvalidAbi);
        },
    };
    let confirms = match parse_address_array(&tokens[2]) {
        Ok(v) => v,
        Err(_) => {
            return Err(AbiError::InvalidAbi);
        },
    };
    let rejections = match parse_address_array(&tokens[3]) {
        Ok(v) => v,
        Err(_) => {
            return Err(AbiError::InvalidAbi);
        },
    };
    let signatures = match parse_bytes_array(&tokens[4]) {
        Ok(v) => v,
        Err(_) => {
            return Err(AbiError::InvalidAbi);
        },
    };
    Ok(TonEventDetails { init_data, status, confirms, rejections, signatures })
}


/// The destination-chain address a source integer token maps to: its
/// magnitude truncated (or left-padded) to the low-order 20 bytes.
pub open spec fn eth_address_of(t: TonTok) -> Result<Seq<u8>, AbiError> {
    match t {
        TonTok::Uint { size, bytes } => Ok(addr20(bytes)),
        _ => Err(AbiError::InvalidAbi),
    }
}

/// Maps a source integer token to a flat 20-byte destination address,
/// keeping the low-order bytes and left-padding shorter values with zeros.
pub fn parse_eth_address(t: &TonTokenValue) -> (r: Result<Vec<u8>, AbiError>)
    ensures
        r matches Ok(a) ==> eth_address_of(ton_view(*t)) == Ok::<Seq<u8>, AbiError>(a@)
            && a@.len() == 20,
        r is Err <==> eth_address_of(ton_view(*t)) is Err,
{
    match t {
        TonTokenValue::Uint { size: _, bytes } => Ok(eth_address_from_be_bytes(bytes)),
        _ => Err(AbiError::InvalidAbi),
    }
}

/// Status round trip (law): the small integers 0, 1 and 2 decode to the
/// three states in order, any other value is the uniform invalid-ABI error,
/// and so is any non-integer shape.
pub proof fn lemma_status_round_trip(t: TonTok)
    ensures
        (t matches TonTok::Uint { bytes, .. } && be_value(bytes) == 0) ==> status_of(t) == Ok::<
            EventStatus,
            AbiError,
        >(EventStatus::InProcess),
        (t matches TonTok::Uint { bytes, .. } && be_value(bytes) == 1) ==> status_of(t) == Ok::<
            EventStatus,
            AbiError,
        >(EventStatus::Confirmed),
        (t matches TonTok::Uint { bytes, .. } && be_value(bytes) == 2) ==> status_of(t) == Ok::<
            EventStatus,
            AbiError,
        >(EventStatus::Rejected),
        (t matches TonTok::Uint { bytes, .. } && be_value(bytes) > 2) ==> status_of(t) == Err::<
            EventStatus,
            AbiError,
        >(AbiError::InvalidAbi),
        (t !is Uint) ==> status_of(t) == Err::<EventStatus, AbiError>(AbiError::InvalidAbi),
{
}

/// Threshold narrowing (law): a threshold token narrows to its 16-bit
/// destination field exactly when its value fits; a wider value is an
/// error, never a silent truncation.
pub proof fn lemma_threshold_narrowing(t: TonTok)
    ensures
        (t matches TonTok::Uint { bytes, .. } && be_value(bytes) <= u16::MAX) ==> (t matches
        TonTok::Uint { bytes, .. } && u16_of(t) == Ok::<u16, AbiError>(be_value(bytes) as u16)),
        (t matches TonTok::Uint { bytes, .. } && be_value(bytes) > u16::MAX) ==> u16_of(t)
            == Err::<u16, AbiError>(AbiError::InvalidAbi),
{
}

/// Determinism (law): the reply tokens pin the record; any two records the
/// parser admits for the same tokens are identical.
pub proof fn lemma_parse_deterministic(tokens: Seq<TonTok>, d1: DetailsModel, d2: DetailsModel)
    requires
        details_of(tokens) == Ok::<DetailsModel, AbiError>(d1),
        details_of(tokens) == Ok::<DetailsModel, AbiError>(d2),
    ensures
        d1 == d2,
{
}

} // verus!
