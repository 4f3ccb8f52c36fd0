use dog_walking::instant::UtcInstant;
use dog_walking::models::booking_model::Booking;
use dog_walking::models::dog_model::Dog;
use dog_walking::models::owner_model::Owner;
use dog_walking::oid::RecordId;
use dog_walking::services::db::Database;

const NOW: i64 = 1_757_176_200_000;
const HOUR: i64 = 3_600_000;
const O1: u128 = 0x101;
const O2: u128 = 0x102;

fn owner(value: u128, name: &str) -> Owner {
    Owner {
        _id: RecordId { value },
        name: name.to_string(),
        email: format!("{}@example.com", name),
        phone: "555-0100".to_string(),
        address: "1 Main St".to_string(),
    }
}

fn dog(value: u128, owner_value: u128, name: &str) -> Dog {
    Dog {
        _id: RecordId { value },
        owner: RecordId { value: owner_value },
        name: name.to_string(),
        age: 4,
        breed: "Collie".to_string(),
    }
}

fn booking(value: u128, owner_value: u128, millis: i64, cancelled: bool) -> Booking {
    Booking {
        _id: RecordId { value },
        owner: RecordId { value: owner_value },
        start_time: UtcInstant { millis },
        duration_in_minutes: 30,
        cancelled,
    }
}

#[test]
fn booking_starting_exactly_at_as_of_is_included() {
    let mut db = Database::init();
    db.create_owner(owner(O1, "alice")).unwrap();
    db.create_booking(booking(0x01, O1, NOW, false)).unwrap();
    let rows = db.get_bookings(UtcInstant { millis: NOW }).unwrap();
    assert_eq!(rows.len(), 1);
    assert_eq!(rows[0]._id, RecordId { value: 0x01 });
}

#[test]
fn booking_one_instant_before_as_of_is_excluded() {
    let mut db = Database::init();
    db.create_owner(owner(O1, "alice")).unwrap();
    db.create_booking(booking(0x01, O1, NOW - 1, false)).unwrap();
    let rows = db.get_bookings(UtcInstant { millis: NOW }).unwrap();
    assert!(rows.is_empty());
}

#[test]
fn cancelled_booking_is_never_included() {
    let mut db = Database::init();
    db.create_owner(owner(O1, "alice")).unwrap();
    db.create_booking(booking(0x01, O1, NOW + HOUR, true)).unwrap();
    db.create_booking(booking(0x02, O1, NOW - HOUR, true)).unwrap();
    let rows = db.get_bookings(UtcInstant { millis: NOW }).unwrap();
    assert!(rows.is_empty());
}

#[test]
fn booking_with_unresolved_owner_is_silently_absent() {
    let mut db = Database::init();
    db.create_owner(owner(O1, "alice")).unwrap();
    db.create_booking(booking(0x01, 0xdead, NOW + HOUR, false)).unwrap();
    let r = db.get_bookings(UtcInstant { millis: NOW });
    assert!(r.is_ok());
    assert!(r.unwrap().is_empty());
}

#[test]
fn owner_with_zero_dogs_yields_row_with_empty_dog_set() {
    let mut db = Database::init();
    db.create_owner(owner(O1, "alice")).unwrap();
    db.create_booking(booking(0x01, O1, NOW + HOUR, false)).unwrap();
    let rows = db.get_bookings(UtcInstant { millis: NOW }).unwrap();
    assert_eq!(rows.len(), 1);
    assert!(rows[0].dogs.is_empty());
}

#[test]
fn composed_rows_join_owner_and_dogs() {
    let mut db = Database::init();
    db.create_owner(owner(O1, "alice")).unwrap();
    db.create_owner(owner(O2, "bob")).unwrap();
    db.create_dog(dog(0x201, O1, "Rex")).unwrap();
    db.create_dog(dog(0x202, O1, "Bella")).unwrap();
    db.create_dog(dog(0x203, O2, "Max")).unwrap();
    db.create_booking(booking(0x01, O1, NOW + HOUR, false)).unwrap();
    db.create_booking(booking(0x02, O2, NOW - HOUR, false)).unwrap();
    db.create_booking(booking(0x03, O1, NOW + 2 * HOUR, true)).unwrap();

    let rows = db.get_bookings(UtcInstant { millis: NOW }).unwrap();
    assert_eq!(rows.len(), 1);
    let row = &rows[0];
    assert_eq!(row._id, RecordId { value: 0x01 });
    assert_eq!(row.owner._id, RecordId { value: O1 });
    assert_eq!(row.owner.name, "alice");
    assert!(!row.cancelled);
    assert_eq!(row.duration_in_minutes, 30);
    let mut dog_ids: Vec<u128> = row.dogs.iter().map(|d| d._id.value).collect();
    dog_ids.sort();
    assert_eq!(dog_ids, vec![0x201, 0x202]);
    assert!(row.dogs.iter().all(|d| d.owner == RecordId { value: O1 }));
}

#[test]
fn two_active_bookings_compose_in_store_order() {
    let mut db = Database::init();
    db.create_owner(owner(O1, "alice")).unwrap();
    db.create_owner(owner(O2, "bob")).unwrap();
    db.create_dog(dog(0x201, O1, "Rex")).unwrap();
    db.create_dog(dog(0x203, O2, "Max")).unwrap();
    db.create_booking(booking(0x01, O2, NOW + HOUR, false)).unwrap();
    db.create_booking(booking(0x02, O1, NOW + 2 * HOUR, false)).unwrap();

    let rows = db.get_bookings(UtcInstant { millis: NOW }).unwrap();
    assert_eq!(rows.len(), 2);
    assert_eq!(rows[0]._id, RecordId { value: 0x01 });
    assert_eq!(rows[0].owner.name, "bob");
    assert_eq!(rows[0].dogs.len(), 1);
    assert_eq!(rows[0].dogs[0].name, "Max");
    assert_eq!(rows[1]._id, RecordId { value: 0x02 });
    assert_eq!(rows[1].owner.name, "alice");
    assert_eq!(rows[1].dogs.len(), 1);
    assert_eq!(rows[1].dogs[0].name, "Rex");
}

#[test]
fn empty_store_yields_no_rows() {
    let db = Database::init();
    assert!(db.get_bookings(UtcInstant { millis: NOW }).unwrap().is_empty());
}
