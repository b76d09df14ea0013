//! Decoding of the messages that an appchain sends to the relay.
//!
//! The messages come SCALE-encoded, as a vector of raw messages; the payload of each raw
//! message is Borsh-encoded, in the form its payload type says.
use crate::error::RelayError;
use crate::types::{BurnAssetPayload, LockPayload, Message, MessagePayload, PayloadType};
use crate::OctopusRelay;
use near_sdk::borsh::BorshDeserialize;
use parity_scale_codec::Decode;
use vstd::prelude::*;

verus! {

/// What SCALE decoding (`parity_scale_codec::Decode`) reads from the start of `encoded` as a
/// vector of records (nonce, payload type index, payload); nothing when it fails.
pub uninterp spec fn scale_raw_records(encoded: Seq<u8>) -> Option<Seq<(u64, u8, Seq<u8>)>>;

/// What Borsh decoding reads from the start of `payload` as (token id, sender, receiver id,
/// amount); nothing when it fails.
pub uninterp spec fn borsh_burn_asset_fields(payload: Seq<u8>) -> Option<(Seq<char>, Seq<char>, Seq<char>, u128)>;

/// What Borsh decoding reads from the start of `payload` as (sender, receiver id, amount);
/// nothing when it fails.
pub uninterp spec fn borsh_lock_fields(payload: Seq<u8>) -> Option<(Seq<char>, Seq<char>, u128)>;

/// The records of a decoded vector, each payload by its bytes.
pub open spec fn records_view(v: Seq<(u64, u8, Vec<u8>)>) -> Seq<(u64, u8, Seq<u8>)> {
    v.map_values(|e: (u64, u8, Vec<u8>)| (e.0, e.1, e.2@))
}

/// Decodes a SCALE-encoded vector of records (nonce, payload type index, payload) from the
/// start of `encoded`.
///
/// Calls `Decode::decode` of `parity_scale_codec` for `Vec<(u64, u8, Vec<u8>)>`, whose bytes
/// are those of a vector of raw messages; the contract claims only that the result is
/// `scale_raw_records` of the bytes, which depends on them alone.
#[verifier::external_body]
fn decode_raw_records(encoded: &Vec<u8>) -> (r: Option<Vec<(u64, u8, Vec<u8>)>>)
    ensures
        r matches Some(v) ==> scale_raw_records(encoded@) == Some(records_view(v@)),
        r is None ==> scale_raw_records(encoded@) is None,
{
    let mut input: &[u8] = encoded.as_slice();
    <Vec<(u64, u8, Vec<u8>)>>::decode(&mut input).ok()
}

/// Decodes the Borsh fields of a burn-asset payload from the start of `payload`.
///
/// Calls `BorshDeserialize::deserialize` of Borsh for `(String, String, String, u128)`, whose
/// bytes are those of the payload; the contract claims only that the result is
/// `borsh_burn_asset_fields` of the bytes.
#[verifier::external_body]
fn decode_burn_asset_fields(payload: &Vec<u8>) -> (r: Option<(String, String, String, u128)>)
    ensures
        r matches Some(f) ==> borsh_burn_asset_fields(payload@) == Some((f.0@, f.1@, f.2@, f.3)),
        r is None ==> borsh_burn_asset_fields(payload@) is None,
{
    let mut input: &[u8] = payload.as_slice();
    <(String, String, String, u128)>::deserialize(&mut input).ok()
}

/// Decodes the Borsh fields of a lock payload from the start of `payload`.
///
/// Calls `BorshDeserialize::deserialize` of Borsh for `(String, String, u128)`, whose bytes
/// are those of the payload; the contract claims only that the result is `borsh_lock_fields`
/// of the bytes.
#[verifier::external_body]
fn decode_lock_fields(payload: &Vec<u8>) -> (r: Option<(String, String, u128)>)
    ensures
        r matches Some(f) ==> borsh_lock_fields(payload@) == Some((f.0@, f.1@, f.2)),
        r is None ==> borsh_lock_fields(payload@) is None,
{
    let mut input: &[u8] = payload.as_slice();
    <(String, String, u128)>::deserialize(&mut input).ok()
}

/// A message as the appchain encodes it, its payload still in bytes.
pub struct RawMessage {
    pub nonce: u64,
    pub payload_type: PayloadType,
    pub payload: Vec<u8>,
}

/// The payload type with the given index in its encoding, if any.
pub open spec fn payload_type_of(index: u8) -> Option<PayloadType> {
    if index == 0 {
        Some(PayloadType::Lock)
    } else if index == 1 {
        Some(PayloadType::BurnAsset)
    } else {
        None
    }
}

/// `raw` is the record `rec`.
pub open spec fn is_raw_message_of(raw: RawMessage, rec: (u64, u8, Seq<u8>)) -> bool {
    &&& raw.nonce == rec.0
    &&& payload_type_of(rec.1) == Some(raw.payload_type)
    &&& raw.payload@ == rec.2
}

/// `m` is the message whose payload, of the given type, is read from the bytes `payload`.
pub open spec fn is_message_of(m: Message, nonce: u64, payload_type: PayloadType, payload: Seq<u8>) -> bool {
    &&& m.nonce == nonce
    &&& match payload_type {
        PayloadType::BurnAsset => borsh_burn_asset_fields(payload) matches Some(f) && m.payload matches MessagePayload::BurnAsset(p)
            && p.token_id@ == f.0 && p.sender@ == f.1 && p.receiver_id@ == f.2 && p.amount == f.3,
        PayloadType::Lock => borsh_lock_fields(payload) matches Some(f) && m.payload matches MessagePayload::Lock(p)
            && p.sender@ == f.0 && p.receiver_id@ == f.1 && p.amount == f.2,
    }
}

/// The payload of the given type can be read from the bytes `payload`.
pub open spec fn payload_decodes(payload_type: PayloadType, payload: Seq<u8>) -> bool {
    match payload_type {
        PayloadType::BurnAsset => borsh_burn_asset_fields(payload) is Some,
        PayloadType::Lock => borsh_lock_fields(payload) is Some,
    }
}

/// The record has a known payload type whose payload can be read.
pub open spec fn record_decodes(rec: (u64, u8, Seq<u8>)) -> bool {
    match payload_type_of(rec.1) {
        Some(t) => payload_decodes(t, rec.2),
        None => false,
    }
}

/// `m` is the message of the record `rec`.
pub open spec fn is_decoded_message(m: Message, rec: (u64, u8, Seq<u8>)) -> bool {
    match payload_type_of(rec.1) {
        Some(t) => is_message_of(m, rec.0, t, rec.2),
        None => false,
    }
}

/// Every record has a known payload type whose payload can be read.
pub open spec fn records_decode(recs: Seq<(u64, u8, Seq<u8>)>) -> bool {
    forall|i: int| 0 <= i < recs.len() ==> #[trigger] record_decodes(recs[i])
}

/// `v` are the messages of the records `recs`.
pub open spec fn are_decoded_messages(v: Seq<Message>, recs: Seq<(u64, u8, Seq<u8>)>) -> bool {
    &&& v.len() == recs.len()
    &&& forall|i: int| 0 <= i < v.len() ==> #[trigger] is_decoded_message(v[i], recs[i])
}

/// The raw messages of decoded records: refused when a record has an unknown payload type.
pub fn raw_messages_from_records(records: Vec<(u64, u8, Vec<u8>)>) -> (r: Result<Vec<RawMessage>, RelayError>)
    ensures
        r is Ok <==> forall|i: int| 0 <= i < records@.len() ==> #[trigger] payload_type_of(records@[i].1) is Some,
        r is Err ==> r == Err::<Vec<RawMessage>, RelayError>(RelayError::DecodeFailed),
        r matches Ok(v) ==> v@.len() == records@.len() && forall|i: int| 0 <= i < v@.len()
            ==> is_raw_message_of(#[trigger] v@[i], records_view(records@)[i]),
{
    let mut out: Vec<RawMessage> = Vec::new();
    let mut i: usize = 0;
    let n = records.len();
    while i < n
        invariant
            n == records@.len(),
            i <= n,
            forall|j: int| 0 <= j < i ==> #[trigger] payload_type_of(records@[j].1) is Some,
            out@.len() == i,
            forall|j: int| 0 <= j < i ==> is_raw_message_of(#[trigger] out@[j], records_view(records@)[j]),
        decreases n - i,
    {
        let rec = &records[i];
        let payload_type = if rec.1 == 0 {
            PayloadType::Lock
        } else if rec.1 == 1 {
            PayloadType::BurnAsset
        } else {
            assert(!(payload_type_of(records@[i as int].1) is Some));
            return Err(RelayError::DecodeFailed);
        };
        let payload = rec.2.clone();
        assert(payload@ =~= rec.2@);
        out.push(RawMessage { nonce: rec.0, payload_type, payload });
        i = i + 1;
    }
    Ok(out)
}

impl RawMessage {
    /// The message whose payload is read, in the form of its payload type, from its bytes;
    /// refused when they cannot be read.
    pub fn to_message(&self) -> (r: Result<Message, RelayError>)
        ensures
            r is Ok <==> payload_decodes(self.payload_type, self.payload@),
            r is Err ==> r == Err::<Message, RelayError>(RelayError::DecodeFailed),
            r matches Ok(m) ==> is_message_of(m, self.nonce, self.payload_type, self.payload@),
    {
        match self.payload_type {
            PayloadType::BurnAsset => match decode_burn_asset_fields(&self.payload) {
                Some(f) => Ok(
                    Message {
                        nonce: self.nonce,
                        payload: MessagePayload::BurnAsset(
                            BurnAssetPayload { token_id: f.0, sender: f.1, receiver_id: f.2, amount: f.3 },
                        ),
                    },
                ),
                None => Err(RelayError::DecodeFailed),
            },
            PayloadType::Lock => match decode_lock_fields(&self.payload) {
                Some(f) => Ok(
                    Message {
                        nonce: self.nonce,
                        payload: MessagePayload::Lock(LockPayload { sender: f.0, receiver_id: f.1, amount: f.2 }),
                    },
                ),
                None => Err(RelayError::DecodeFailed),
            },
        }
    }
}

/// Decoding of the messages that come with a proof from an appchain.
pub trait ProofDecoder {
    /// The messages encoded in `encoded_messages`; refused when they cannot be decoded.
    fn decode(
        &self,
        encoded_messages: Vec<u8>,
        header_partial: Vec<u8>,
        leaf_proof: Vec<u8>,
        mmr_root: Vec<u8>,
    ) -> (r: Result<Vec<Message>, RelayError>);
}

impl ProofDecoder for OctopusRelay {
    fn decode(
        &self,
        encoded_messages: Vec<u8>,
        header_partial: Vec<u8>,
        leaf_proof: Vec<u8>,
        mmr_root: Vec<u8>,
    ) -> (r: Result<Vec<Message>, RelayError>)
        ensures
            r is Ok <==> (match scale_raw_records(encoded_messages@) {
                Some(recs) => records_decode(recs),
                None => false,
            }),
            r is Err ==> r == Err::<Vec<Message>, RelayError>(RelayError::DecodeFailed),
            r matches Ok(v) ==> (match scale_raw_records(encoded_messages@) {
                Some(recs) => are_decoded_messages(v@, recs),
                None => false,
            }),
    {
        let records = match decode_raw_records(&encoded_messages) {
            Some(v) => v,
            None => return Err(RelayError::DecodeFailed),
        };
        let ghost rv = records@;
        let ghost recs = records_view(records@);
        let raws = match raw_messages_from_records(records) {
            Ok(v) => v,
            Err(e) => {
                proof {
                    let i = choose|i: int| 0 <= i < rv.len() && !(#[trigger] payload_type_of(rv[i].1) is Some);
                    assert(recs[i].1 == rv[i].1);
                    assert(!record_decodes(recs[i]));
                }
                return Err(e);
            },
        };
        let mut out: Vec<Message> = Vec::new();
        let mut i: usize = 0;
        while i < raws.len()
            invariant
                raws@.len() == recs.len(),
                forall|j: int| 0 <= j < raws@.len() ==> is_raw_message_of(#[trigger] raws@[j], recs[j]),
                scale_raw_records(encoded_messages@) == Some(recs),
                i <= raws@.len(),
                out@.len() == i,
                forall|j: int| 0 <= j < i ==> #[trigger] record_decodes(recs[j]),
                forall|j: int| 0 <= j < i ==> #[trigger] is_decoded_message(out@[j], recs[j]),
            decreases raws@.len() - i,
        {
            assert(is_raw_message_of(raws@[i as int], recs[i as int]));
            let m = match raws[i].to_message() {
                Ok(m) => m,
                Err(e) => {
                    proof {
                        assert(!record_decodes(recs[i as int]));
                    }
                    return Err(e);
                },
            };
            out.push(m);
            i = i + 1;
        }
        Ok(out)
    }
}

} // verus!
