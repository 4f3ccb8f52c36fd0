use dog_walking::errors::BookingError;
use dog_walking::models::booking_model::{BooKingRequest, Booking};

const OWNER_HEX: &str = "aaaaaaaaaaaaaaaaaaaaaaaa";

fn request(start_time: &str) -> BooKingRequest {
    BooKingRequest {
        owner: OWNER_HEX.to_string(),
        start_time: start_time.to_string(),
        duration_in_minutes: 45,
    }
}

#[test]
fn parse_offset_timestamp_converts_to_utc() {
    // 2025-09-06T18:30:00+02:00 is the instant 2025-09-06T16:30:00Z.
    let b = Booking::try_from(request("2025-09-06T18:30:00+02:00")).unwrap();
    assert_eq!(b.start_time.millis, 1_757_176_200_000);
}

#[test]
fn parse_matches_direct_utc_conversion() {
    let offset = Booking::try_from(request("2025-09-06T18:30:00+02:00")).unwrap();
    let direct = Booking::try_from(request("2025-09-06T16:30:00Z")).unwrap();
    assert_eq!(offset.start_time, direct.start_time);
}

#[test]
fn parse_is_deterministic() {
    let once = Booking::try_from(request("2025-09-06T18:30:00+02:00")).unwrap();
    let again = Booking::try_from(request("2025-09-06T18:30:00+02:00")).unwrap();
    assert_eq!(once.start_time, again.start_time);
}

#[test]
fn timestamp_without_offset_is_rejected() {
    let r = Booking::try_from(request("2025-09-06T18:30:00"));
    assert!(matches!(r, Err(BookingError::InvalidTimestamp(_))));
}

#[test]
fn malformed_timestamp_is_rejected() {
    let r = Booking::try_from(request("not a timestamp"));
    assert!(matches!(r, Err(BookingError::InvalidTimestamp(_))));
}

#[test]
fn invalid_owner_reference_is_rejected() {
    let r = Booking::try_from(BooKingRequest {
        owner: "not-an-identifier".to_string(),
        start_time: "2025-09-06T18:30:00+02:00".to_string(),
        duration_in_minutes: 45,
    });
    assert!(matches!(r, Err(BookingError::InvalidReference)));
}

#[test]
fn normalized_booking_starts_active() {
    let b = Booking::try_from(request("2025-09-06T18:30:00+02:00")).unwrap();
    assert!(!b.cancelled);
    assert_eq!(b.duration_in_minutes, 45);
    assert_eq!(b.owner.value, 0xaaaaaaaaaaaaaaaaaaaaaaaau128);
}
