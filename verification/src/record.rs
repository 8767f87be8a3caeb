//! The typed event record reconstructed from the accessor's reply.
//!
//! All fields are plain values: identifiers as fixed-width integers or
//! byte strings, addresses as a chain-id/account-id pair, the embedded event
//! payload and configuration metadata as opaque serialized cell subtrees.
//! Each record type has a ghost mirror reached through `DeepView`, which the
//! parser's contract speaks of.

use vstd::prelude::*;

verus! {

/// The tri-state progress of a bridge event. Decoded from a single small
/// unsigned integer; any other value is a decode error — there is no
/// default.
#[derive(Debug, Clone, Copy, PartialEq, Eq, Structural)]
pub enum EventStatus {
    InProcess,
    Confirmed,
    Rejected,
}

impl DeepView for EventStatus {
    type V = EventStatus;

    open spec fn deep_view(&self) -> EventStatus {
        *self
    }
}

/// A source-chain address: a signed 8-bit chain id and a fixed-width
/// big-endian account id.
#[derive(Debug, Clone, PartialEq, Eq)]
pub struct TonAddress {
    pub workchain: i8,
    pub account: Vec<u8>,
}

/// Ghost mirror of `TonAddress`.
pub struct AddressModel {
    pub workchain: int,
    pub account: Seq<u8>,
}

impl DeepView for TonAddress {
    type V = AddressModel;

    open spec fn deep_view(&self) -> AddressModel {
        AddressModel { workchain: self.workchain as int, account: self.account@ }
    }
}

/// The accessor reply's init-data tuple: identifiers, the opaque event
/// payload, the governing configuration contract's address, and the two
/// decision thresholds.
#[derive(Debug, Clone, PartialEq, Eq)]
pub struct TonEventInitData {
    /// Transaction identifier: exactly 32 big-endian bytes.
    pub event_transaction: Vec<u8>,
    pub event_transaction_lt: u64,
    pub event_timestamp: u32,
    pub event_index: u32,
    /// Opaque serialized event payload subtree, decoded lazily against a
    /// caller-supplied schema.
    pub event_data: Vec<u8>,
    pub ton_event_configuration: TonAddress,
    pub required_confirmations: u16,
    pub required_rejections: u16,
    /// Opaque serialized configuration-metadata subtree.
    pub configuration_meta: Vec<u8>,
}

/// Ghost mirror of `TonEventInitData`.
pub struct InitDataModel {
    pub event_transaction: Seq<u8>,
    pub event_transaction_lt: u64,
    pub event_timestamp: u32,
    pub event_index: u32,
    pub event_data: Seq<u8>,
    pub ton_event_configuration: AddressModel,
    pub required_confirmations: u16,
    pub required_rejections: u16,
    pub configuration_meta: Seq<u8>,
}

impl DeepView for TonEventInitData {
    type V = InitDataModel;

    open spec fn deep_view(&self) -> InitDataModel {
        InitDataModel {
            event_transaction: self.event_transaction@,
            event_transaction_lt: self.event_transaction_lt,
            event_timestamp: self.event_timestamp,
            event_index: self.event_index,
            event_data: self.event_data@,
            ton_event_configuration: self.ton_event_configuration.deep_view(),
            required_confirmations: self.required_confirmations,
            required_rejections: self.required_rejections,
            configuration_meta: self.configuration_meta@,
        }
    }
}

/// The parsed accessor reply: init data, status, the ordered confirming and
/// rejecting relay addresses, and the ordered signature byte strings.
#[derive(Debug, Clone, PartialEq, Eq)]
pub struct TonEventDetails {
    pub init_data: TonEventInitData,
    pub status: EventStatus,
    pub confirms: Vec<TonAddress>,
    pub rejections: Vec<TonAddress>,
    pub signatures: Vec<Vec<u8>>,
}

/// Ghost mirror of `TonEventDetails`.
pub struct DetailsModel {
    pub init_data: InitDataModel,
    pub status: EventStatus,
    pub confirms: Seq<AddressModel>,
    pub rejections: Seq<AddressModel>,
    pub signatures: Seq<Seq<u8>>,
}

impl DeepView for TonEventDetails {
    type V = DetailsModel;

    open spec fn deep_view(&self) -> DetailsModel {
        DetailsModel {
            init_data: self.init_data.deep_view(),
            status: self.status,
            confirms: self.confirms.deep_view(),
            rejections: self.rejections.deep_view(),
            signatures: self.signatures.deep_view(),
        }
    }
}

} // verus!
