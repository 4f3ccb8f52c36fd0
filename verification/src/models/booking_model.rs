use crate::errors::BookingError;
use crate::instant::{parse_rfc3339_utc, rfc3339_utc_millis, UtcInstant};
use crate::models::dog_model::Dog;
use crate::models::owner_model::Owner;
use crate::oid::{fresh_object_id_hex, hex_value, is_object_id_hex, RecordId};
use vstd::pervasive::unreached;
use vstd::prelude::*;

verus! {

/// A stored booking record: one time-boxed walking appointment for one owner.
/// `cancelled` starts out false and, once set, never reverts.
#[derive(Clone, Copy, PartialEq, Eq, Structural, Debug)]
pub struct Booking {
    pub _id: RecordId,
    pub owner: RecordId,
    pub start_time: UtcInstant,
    pub duration_in_minutes: u8,
    pub cancelled: bool,
}

/// An untrusted booking creation request, exactly as a client hands it in.
#[derive(Clone, Debug)]
pub struct BooKingRequest {
    pub owner: String,
    pub start_time: String,
    pub duration_in_minutes: u8,
}

/// A query-time projection: a booking composed with its resolved owner and
/// the set of that owner's dogs. Never persisted.
#[derive(Debug)]
pub struct FullBooking {
    pub _id: RecordId,
    pub owner: Owner,
    pub start_time: UtcInstant,
    pub duration_in_minutes: u8,
    pub cancelled: bool,
    pub dogs: Vec<Dog>,
}

/// The mathematical shape of a `FullBooking`: the dogs as a sequence.
pub struct FullBookingView {
    pub _id: RecordId,
    pub owner: Owner,
    pub start_time: UtcInstant,
    pub duration_in_minutes: u8,
    pub cancelled: bool,
    pub dogs: Seq<Dog>,
}

impl View for FullBooking {
    type V = FullBookingView;

    open spec fn view(&self) -> FullBookingView {
        FullBookingView {
            _id: self._id,
            owner: self.owner,
            start_time: self.start_time,
            duration_in_minutes: self.duration_in_minutes,
            cancelled: self.cancelled,
            dogs: self.dogs@,
        }
    }
}

/// The Time & Reference Normalizer: turns an untrusted creation request and a
/// fresh identifier into a canonical `Active` booking record, or says exactly
/// why the input is rejected. The owner reference is checked first; the
/// duration passes through unchanged, with no upper-bound validation.
pub fn normalize_booking_request(item: &BooKingRequest, id: RecordId) -> (r: Result<
    Booking,
    BookingError,
>)
    ensures
        r is Ok <==> is_object_id_hex(item.owner@) && rfc3339_utc_millis(item.start_time@) is Some,
        match r {
            Ok(b) => {
                &&& b._id == id
                &&& b.owner.value == hex_value(item.owner@)
                &&& rfc3339_utc_millis(item.start_time@) == Some(b.start_time.millis)
                &&& b.duration_in_minutes == item.duration_in_minutes
                &&& b.cancelled == false
            },
            Err(BookingError::InvalidReference) => !is_object_id_hex(item.owner@),
            Err(BookingError::InvalidTimestamp(_)) => is_object_id_hex(item.owner@)
                && rfc3339_utc_millis(item.start_time@) is None,
            Err(_) => false,
        },
{
    let owner = match RecordId::parse_str(item.owner.as_str()) {
        Some(owner) => owner,
        None => {
            return Err(BookingError::InvalidReference);
        },
    };
    let start_time = match parse_rfc3339_utc(item.start_time.as_str()) {
        Ok(m) => UtcInstant { millis: m },
        Err(msg) => {
            return Err(BookingError::InvalidTimestamp(msg));
        },
    };
    Ok(
        Booking {
            _id: id,
            owner,
            start_time,
            duration_in_minutes: item.duration_in_minutes,
            cancelled: false,
        },
    )
}

impl Booking {
    /// Normalizes a creation request into a new `Active` booking under a
    /// freshly generated identifier. Everything but the fresh `_id` is pinned
    /// down by the request.
    pub fn try_from(item: BooKingRequest) -> (r: Result<Booking, BookingError>)
        ensures
            r is Ok <==> is_object_id_hex(item.owner@) && rfc3339_utc_millis(
                item.start_time@,
            ) is Some,
            match r {
                Ok(b) => {
                    &&& b.owner.value == hex_value(item.owner@)
                    &&& rfc3339_utc_millis(item.start_time@) == Some(b.start_time.millis)
                    &&& b.duration_in_minutes == item.duration_in_minutes
                    &&& b.cancelled == false
                },
                Err(BookingError::InvalidReference) => !is_object_id_hex(item.owner@),
                Err(BookingError::InvalidTimestamp(_)) => is_object_id_hex(item.owner@)
                    && rfc3339_utc_millis(item.start_time@) is None,
                Err(_) => false,
            },
    {
        let hex = fresh_object_id_hex();
        let id = match RecordId::parse_str(hex.as_str()) {
            Some(id) => id,
            None => unreached(),
        };
        normalize_booking_request(&item, id)
    }
}

} // verus!
