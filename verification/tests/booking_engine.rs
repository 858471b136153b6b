use booking_project::db::{MongoDB, ReleaseOutcome, ReserveOutcome};
use booking_project::error::BookingError;
use booking_project::models::{
    Booking, BookingStatus, Bus, BusResponse, CreateBookingRequest, PassengerDetails, Route,
};
use booking_project::oid::{hex_digit, parse_object_id, ObjectId};
use booking_project::seats::{derive_default_seats, seat_label, Seat};

const B1: &str = "000000000000000000000000";
const B2: &str = "000000000000000000000001";
const U1: &str = "65f0a1b2c3d4e5f601234567";
const U2: &str = "65f0a1b2c3d4e5f601234568";
const DAY: &str = "2024-05-01";

fn seeded(max_bookings: usize) -> MongoDB {
    let mut db = MongoDB::new("bookings", max_bookings);
    db.seed_data(false);
    db
}

fn request(bus: &str, date: &str, seat: &str) -> CreateBookingRequest {
    CreateBookingRequest {
        bus_id: bus.to_string(),
        seat_number: seat.to_string(),
        travel_date: date.to_string(),
        passenger: None,
    }
}

fn flags(seats: &[Seat]) -> Vec<(String, bool)> {
    seats.iter().map(|s| (s.seat_number.clone(), s.is_available)).collect()
}

fn confirmed_for(db: &MongoDB, bus: ObjectId, date: &str, seat: &str) -> usize {
    db.bookings
        .iter()
        .filter(|b| {
            b.status == BookingStatus::Confirmed
                && b.bus_id == bus
                && b.travel_date == date
                && b.seat_number == seat
        })
        .count()
}

#[test]
fn lazy_materialization_gives_all_seats_available() {
    let db = seeded(100);
    let seats = db.get_bus_seats(B1, DAY).unwrap();
    assert_eq!(seats.len(), 44);
    for (i, seat) in seats.iter().enumerate() {
        assert_eq!(seat.seat_number, (i + 1).to_string());
        assert!(seat.is_available);
    }
    assert!(db.seat_availability.is_empty());
}

#[test]
fn book_conflict_cancel_and_seat_is_free_again() {
    let mut db = seeded(100);
    let made = db.create_booking(U1, &request(B1, DAY, "12"), 1_714_521_600_000).unwrap();
    assert_eq!(made.status, BookingStatus::Confirmed);
    assert_eq!(made.seat_number, "12");
    assert_eq!(made.travel_date, DAY);
    assert_eq!(made.booking_date, 1_714_521_600_000);
    assert_eq!(made.bus_id, ObjectId { value: 0 });
    assert_eq!(made.user_id, parse_object_id(U1).unwrap());
    assert_eq!(made.id, Some(ObjectId { value: 0 }));

    let seats = db.get_bus_seats(B1, DAY).unwrap();
    assert_eq!(seats.len(), 44);
    for seat in &seats {
        assert_eq!(seat.is_available, seat.seat_number != "12");
    }

    let second = db.create_booking(U2, &request(B1, DAY, "12"), 1_714_521_600_001);
    assert_eq!(second.err(), Some(BookingError::SeatAlreadyBooked));

    let id = made.id.unwrap().to_hex();
    assert_eq!(db.cancel_booking(&id, U1), Ok(()));
    assert_eq!(db.bookings[0].status, BookingStatus::Cancelled);

    let seats = db.get_bus_seats(B1, DAY).unwrap();
    assert_eq!(seats.len(), 44);
    assert!(seats.iter().all(|s| s.is_available));
}

#[test]
fn repeated_requests_for_one_seat_give_one_success() {
    let mut db = seeded(100);
    let mut successes = 0;
    let mut conflicts = 0;
    for k in 0..8 {
        match db.create_booking(U1, &request(B1, DAY, "7"), k) {
            Ok(_) => successes += 1,
            Err(BookingError::SeatAlreadyBooked) => conflicts += 1,
            Err(other) => panic!("unexpected error {:?}", other),
        }
    }
    assert_eq!(successes, 1);
    assert_eq!(conflicts, 7);
    assert_eq!(db.bookings.len(), 1);
    assert_eq!(confirmed_for(&db, ObjectId { value: 0 }, DAY, "7"), 1);
}

#[test]
fn of_many_users_asking_for_one_seat_the_first_wins() {
    let mut db = seeded(100);
    let users = [U2, U1, "65f0a1b2c3d4e5f601234569", U1, U2];
    let mut outcomes = Vec::new();
    for (k, user) in users.iter().enumerate() {
        outcomes.push(db.create_booking(user, &request(B2, DAY, "36"), k as i64));
    }
    let won = outcomes[0].as_ref().unwrap();
    assert_eq!(won.user_id, parse_object_id(U2).unwrap());
    assert_eq!(won.id, Some(ObjectId { value: 0 }));
    for lost in &outcomes[1..] {
        assert_eq!(lost.as_ref().err(), Some(&BookingError::SeatAlreadyBooked));
    }
    assert_eq!(outcomes.iter().filter(|o| o.is_ok()).count(), 1);
    assert_eq!(db.bookings.len(), 1);
    assert_eq!(db.bookings[0].booking_date, 0);
    assert_eq!(confirmed_for(&db, ObjectId { value: 1 }, DAY, "36"), 1);
    let seats = db.get_bus_seats(B2, DAY).unwrap();
    assert!(!seats[35].is_available);
    assert_eq!(seats.iter().filter(|s| !s.is_available).count(), 1);
}

#[test]
fn cancelled_seat_can_be_booked_again() {
    let mut db = seeded(100);
    let first = db.create_booking(U1, &request(B1, DAY, "3"), 10).unwrap();
    assert_eq!(db.cancel_booking(&first.id.unwrap().to_hex(), U1), Ok(()));
    let again = db.create_booking(U2, &request(B1, DAY, "3"), 20).unwrap();
    assert_eq!(again.id, Some(ObjectId { value: 1 }));
    assert_eq!(again.status, BookingStatus::Confirmed);
    assert_eq!(confirmed_for(&db, ObjectId { value: 0 }, DAY, "3"), 1);
    let seats = db.get_bus_seats(B1, DAY).unwrap();
    assert!(!seats[2].is_available);
}

#[test]
fn double_cancel_is_refused_and_changes_nothing() {
    let mut db = seeded(100);
    let first = db.create_booking(U1, &request(B1, DAY, "5"), 10).unwrap();
    let id = first.id.unwrap().to_hex();
    assert_eq!(db.cancel_booking(&id, U1), Ok(()));
    // the seat is taken by somebody else in between
    db.create_booking(U2, &request(B1, DAY, "5"), 20).unwrap();
    let seats_before = flags(&db.get_bus_seats(B1, DAY).unwrap());
    assert_eq!(db.cancel_booking(&id, U1), Err(BookingError::AlreadyCancelled));
    assert_eq!(flags(&db.get_bus_seats(B1, DAY).unwrap()), seats_before);
    assert_eq!(db.bookings[0].status, BookingStatus::Cancelled);
    assert_eq!(db.bookings[1].status, BookingStatus::Confirmed);
    assert!(!db.get_bus_seats(B1, DAY).unwrap()[4].is_available);
}

#[test]
fn failed_insert_releases_the_seat() {
    let mut db = seeded(1);
    db.create_booking(U1, &request(B1, DAY, "1"), 10).unwrap();
    let before = flags(&db.get_bus_seats(B1, DAY).unwrap());
    let refused = db.create_booking(U2, &request(B1, DAY, "2"), 20);
    assert_eq!(refused.err(), Some(BookingError::StorageFailure));
    assert_eq!(flags(&db.get_bus_seats(B1, DAY).unwrap()), before);
    assert_eq!(db.bookings.len(), 1);
    // on a date for which nothing was stored before
    let refused = db.create_booking(U2, &request(B2, "2024-06-01", "2"), 30);
    assert_eq!(refused.err(), Some(BookingError::StorageFailure));
    let seats = db.get_bus_seats(B2, "2024-06-01").unwrap();
    assert_eq!(seats.len(), 36);
    assert!(seats.iter().all(|s| s.is_available));
}

#[test]
fn at_most_one_confirmed_booking_per_seat() {
    let mut db = seeded(100);
    let seats = ["1", "2", "1", "3", "2", "44", "44", "1"];
    let mut made: Vec<Booking> = Vec::new();
    for (k, seat) in seats.iter().enumerate() {
        if let Ok(b) = db.create_booking(U1, &request(B1, DAY, seat), k as i64) {
            made.push(b);
        }
    }
    assert_eq!(made.len(), 4);
    db.cancel_booking(&made[0].id.unwrap().to_hex(), U1).unwrap();
    db.create_booking(U2, &request(B1, DAY, "1"), 99).unwrap();
    for seat in ["1", "2", "3", "44"] {
        assert_eq!(confirmed_for(&db, ObjectId { value: 0 }, DAY, seat), 1);
    }
    let taken: Vec<String> = db
        .get_bus_seats(B1, DAY)
        .unwrap()
        .into_iter()
        .filter(|s| !s.is_available)
        .map(|s| s.seat_number)
        .collect();
    assert_eq!(taken, vec!["1", "2", "3", "44"]);
}

#[test]
fn create_booking_errors() {
    let mut db = seeded(100);
    assert_eq!(
        db.create_booking(U1, &request("nonsense", DAY, "1"), 0).err(),
        Some(BookingError::BusNotFound)
    );
    assert_eq!(
        db.create_booking(U1, &request("00000000000000000000000a", DAY, "1"), 0).err(),
        Some(BookingError::BusNotFound)
    );
    assert_eq!(
        db.create_booking("me", &request(B1, DAY, "1"), 0).err(),
        Some(BookingError::InvalidId)
    );
    for seat in ["0", "45", "01", "", "x"] {
        assert_eq!(
            db.create_booking(U1, &request(B1, DAY, seat), 0).err(),
            Some(BookingError::InvalidSeat)
        );
    }
    assert!(db.bookings.is_empty());
    assert!(db.seat_availability.is_empty());
}

#[test]
fn cancel_booking_errors() {
    let mut db = seeded(100);
    let made = db.create_booking(U1, &request(B1, DAY, "9"), 0).unwrap();
    let id = made.id.unwrap().to_hex();
    assert_eq!(db.cancel_booking("zz", U1), Err(BookingError::BookingNotFound));
    assert_eq!(db.cancel_booking(B2, U1), Err(BookingError::BookingNotFound));
    assert_eq!(db.cancel_booking(&id, "me"), Err(BookingError::InvalidId));
    assert_eq!(db.cancel_booking(&id, U2), Err(BookingError::Unauthorized));
    assert_eq!(db.bookings[0].status, BookingStatus::Confirmed);
    assert!(!db.get_bus_seats(B1, DAY).unwrap()[8].is_available);
    assert_eq!(db.cancel_booking(&id, U1), Ok(()));
    assert_eq!(db.cancel_booking(&id, U1), Err(BookingError::AlreadyCancelled));
}

#[test]
fn cancel_surfaces_a_seat_that_cannot_be_released() {
    let mut db = seeded(100);
    let made = db.create_booking(U1, &request(B1, DAY, "9"), 0).unwrap();
    db.seat_availability.clear();
    db.buses.clear();
    assert_eq!(
        db.cancel_booking(&made.id.unwrap().to_hex(), U1),
        Err(BookingError::StorageFailure)
    );
    assert_eq!(db.bookings[0].status, BookingStatus::Cancelled);
}

#[test]
fn reserve_and_release_are_conditional() {
    let mut db = seeded(100);
    let bus = ObjectId { value: 7 };
    assert_eq!(db.try_reserve(bus, DAY, "14"), Ok(ReserveOutcome::Reserved));
    assert_eq!(db.try_reserve(bus, DAY, "14"), Ok(ReserveOutcome::SeatTaken));
    assert_eq!(db.try_reserve(bus, DAY, "15"), Ok(ReserveOutcome::SeatNotFound));
    assert_eq!(db.try_reserve(ObjectId { value: 10 }, DAY, "1"), Err(BookingError::BusNotFound));
    assert_eq!(db.seat_availability.len(), 1);
    assert_eq!(db.seat_availability[0].seats.len(), 14);
    assert_eq!(db.release(bus, DAY, "14"), ReleaseOutcome::Released);
    assert_eq!(db.release(bus, DAY, "14"), ReleaseOutcome::Released);
    assert_eq!(db.release(bus, DAY, "15"), ReleaseOutcome::SeatNotFound);
    assert_eq!(db.release(ObjectId { value: 10 }, DAY, "1"), ReleaseOutcome::SeatNotFound);
    assert_eq!(db.release(bus, "2024-05-02", "3"), ReleaseOutcome::Released);
    assert_eq!(db.seat_availability.len(), 1);
    assert!(db.get_seats(bus, DAY).unwrap().iter().all(|s| s.is_available));
    assert_eq!(db.get_seats(ObjectId { value: 10 }, DAY).err(), Some(BookingError::BusNotFound));
}

#[test]
fn reservations_on_other_dates_and_buses_do_not_interfere() {
    let mut db = seeded(100);
    db.create_booking(U1, &request(B1, DAY, "4"), 0).unwrap();
    db.create_booking(U1, &request(B1, "2024-05-02", "4"), 1).unwrap();
    db.create_booking(U2, &request(B2, DAY, "4"), 2).unwrap();
    assert_eq!(db.bookings.len(), 3);
    assert_eq!(db.seat_availability.len(), 3);
    let seats = db.get_bus_seats(B1, "2024-05-03").unwrap();
    assert!(seats.iter().all(|s| s.is_available));
}

#[test]
fn ledger_insert_find_and_set_status() {
    let mut db = MongoDB::new("ledger", 2);
    let user = parse_object_id(U1).unwrap();
    let booking = |seat: &str| Booking {
        id: None,
        user_id: user,
        bus_id: ObjectId { value: 3 },
        seat_number: seat.to_string(),
        travel_date: DAY.to_string(),
        booking_date: 5,
        status: BookingStatus::Confirmed,
        passenger: Some(PassengerDetails {
            name: "Wanjiru".to_string(),
            age: 31,
            gender: "F".to_string(),
        }),
    };
    assert_eq!(db.insert_booking(booking("1")), Ok(ObjectId { value: 0 }));
    assert_eq!(db.insert_booking(booking("1")), Ok(ObjectId { value: 1 }));
    assert_eq!(db.insert_booking(booking("2")), Err(BookingError::StorageFailure));
    let found = db.find_booking(ObjectId { value: 1 }).unwrap();
    assert_eq!(found.id, Some(ObjectId { value: 1 }));
    assert_eq!(found.passenger.as_ref().unwrap().age, 31);
    assert!(db.find_booking(ObjectId { value: 2 }).is_none());
    assert_eq!(db.set_status(ObjectId { value: 1 }, BookingStatus::Cancelled), Ok(()));
    assert_eq!(db.bookings[1].status, BookingStatus::Cancelled);
    assert_eq!(db.bookings[1].seat_number, "1");
    assert_eq!(db.bookings[0].status, BookingStatus::Confirmed);
    assert_eq!(
        db.set_status(ObjectId { value: 2 }, BookingStatus::Cancelled),
        Err(BookingError::BookingNotFound)
    );
}

#[test]
fn user_bookings_are_those_of_the_user_in_order() {
    let mut db = seeded(100);
    db.create_booking(U1, &request(B1, DAY, "1"), 0).unwrap();
    db.create_booking(U2, &request(B1, DAY, "2"), 1).unwrap();
    db.create_booking(U1, &request(B2, DAY, "3"), 2).unwrap();
    let mine = db.get_user_bookings(U1).unwrap();
    let seats: Vec<&str> = mine.iter().map(|b| b.seat_number.as_str()).collect();
    assert_eq!(seats, vec!["1", "3"]);
    assert_eq!(db.get_user_bookings(U2).unwrap().len(), 1);
    assert!(db.get_user_bookings("65f0a1b2c3d4e5f601234569").unwrap().is_empty());
    assert_eq!(db.get_user_bookings("u1").err(), Some(BookingError::InvalidId));
}

#[test]
fn object_id_text_is_24_hex_digits() {
    let db = MongoDB::new("ids", 0);
    assert_eq!(db.string_to_id(B2), Ok(ObjectId { value: 1 }));
    assert_eq!(
        db.string_to_id("0000000000000000000000fF"),
        Ok(ObjectId { value: 255 })
    );
    assert_eq!(
        db.string_to_id("ffffffffffffffffffffffff"),
        Ok(ObjectId { value: (1u128 << 96) - 1 })
    );
    assert_eq!(
        db.string_to_id(U1),
        Ok(ObjectId { value: 0x65f0a1b2c3d4e5f601234567 })
    );
    assert_eq!(db.string_to_id(""), Err(BookingError::InvalidId));
    assert_eq!(db.string_to_id("00000000000000000000001"), Err(BookingError::InvalidId));
    assert_eq!(db.string_to_id("0000000000000000000000011"), Err(BookingError::InvalidId));
    assert_eq!(db.string_to_id("00000000000000000000000g"), Err(BookingError::InvalidId));
    assert_eq!(db.string_to_id("00000000000000000000000é"), Err(BookingError::InvalidId));
    assert_eq!(hex_digit('a'), Some(10));
    assert_eq!(hex_digit('F'), Some(15));
    assert_eq!(hex_digit('9'), Some(9));
    assert_eq!(hex_digit('/'), None);
    assert_eq!(hex_digit(':'), None);
    assert_eq!(hex_digit('G'), None);
    assert_eq!(hex_digit('`'), None);
}

#[test]
fn object_id_hex_round_trip() {
    let id = parse_object_id("65F0A1B2C3D4E5F601234567").unwrap();
    assert_eq!(id.to_hex(), U1);
    assert_eq!(ObjectId { value: 0 }.to_hex(), B1);
    assert_eq!(ObjectId { value: 0xabc }.to_hex(), "000000000000000000000abc");
    assert_eq!(parse_object_id(&id.to_hex()), Ok(id));
    let text = "507f1f77bcf86cd799439011";
    assert_eq!(parse_object_id(text).unwrap().to_hex(), text);
    assert_eq!(
        parse_object_id("507F1F77BCF86CD799439011").unwrap().to_hex_upper(),
        "507F1F77BCF86CD799439011"
    );
}

#[test]
fn seat_labels_are_decimal() {
    assert_eq!(seat_label(0), "0");
    assert_eq!(seat_label(1), "1");
    assert_eq!(seat_label(10), "10");
    assert_eq!(seat_label(44), "44");
    assert_eq!(seat_label(105), "105");
    assert_eq!(seat_label(u32::MAX), "4294967295");
}

#[test]
fn default_seats_for_edge_counts() {
    assert!(derive_default_seats(0).is_empty());
    assert!(derive_default_seats(-3).is_empty());
    let one = derive_default_seats(1);
    assert_eq!(flags(&one), vec![("1".to_string(), true)]);
    let twelve = derive_default_seats(12);
    assert_eq!(twelve.len(), 12);
    assert_eq!(twelve[9].seat_number, "10");
    assert_eq!(twelve[11].seat_number, "12");
}

#[test]
fn seeding_fills_an_empty_catalog_only() {
    let mut db = MongoDB::new("buses", 10);
    db.seed_data(false);
    assert_eq!(db.buses.len(), 10);
    let counts: Vec<i32> = db.buses.iter().map(|b| b.total_seats).collect();
    assert_eq!(counts, vec![44, 36, 32, 40, 52, 28, 48, 14, 52, 52]);
    assert_eq!(db.buses[0].bus_number, "Easy Coach - KCH 123A");
    assert_eq!(db.buses[6].route.price, 800);
    assert_eq!(db.buses[9].route.to, "Malindi");
    assert_eq!(db.buses[3].id, Some(ObjectId { value: 3 }));
    db.buses.truncate(2);
    db.seed_data(false);
    assert_eq!(db.buses.len(), 2);
    db.seed_data(true);
    assert_eq!(db.buses.len(), 10);
    assert_eq!(db.get_buses().len(), 10);
}

#[test]
fn bus_lookup_by_text() {
    let db = seeded(0);
    let bus = db.get_bus("000000000000000000000007").unwrap();
    assert_eq!(bus.total_seats, 14);
    assert_eq!(bus.route.to, "Kisii");
    assert_eq!(db.get_bus("00000000000000000000000a").err(), Some(BookingError::BusNotFound));
    assert_eq!(db.get_bus("7").err(), Some(BookingError::BusNotFound));
    assert_eq!(db.get_bus_seats("7", DAY).err(), Some(BookingError::BusNotFound));
    assert_eq!(
        db.get_bus_seats("00000000000000000000000a", DAY).err(),
        Some(BookingError::BusNotFound)
    );
}

#[test]
fn bus_response_shows_the_identifier_as_text() {
    let bus = Bus {
        id: Some(ObjectId { value: 0x1f }),
        bus_number: "KAA 001A".to_string(),
        bus_type: "VIP".to_string(),
        total_seats: 9,
        route: Route {
            from: "Nairobi".to_string(),
            to: "Thika".to_string(),
            departure_time: "07:00 AM".to_string(),
            arrival_time: "08:00 AM".to_string(),
            price: 300,
        },
    };
    let shown = BusResponse::from(bus.duplicate());
    assert_eq!(shown.id, "00000000000000000000001f");
    assert_eq!(shown.bus_number, "KAA 001A");
    assert_eq!(shown.total_seats, 9);
    assert_eq!(shown.route.price, 300);
    let bare = BusResponse::from(Bus { id: None, ..bus });
    assert_eq!(bare.id, "");
}

#[test]
fn error_messages_are_stable() {
    assert_eq!(BookingError::BusNotFound.message(), "Bus not found");
    assert_eq!(BookingError::InvalidSeat.message(), "Seat not found");
    assert_eq!(BookingError::SeatAlreadyBooked.message(), "Seat is already booked");
    assert_eq!(BookingError::BookingNotFound.message(), "Booking not found");
    assert_eq!(BookingError::Unauthorized.message(), "Unauthorized");
    assert_eq!(BookingError::AlreadyCancelled.message(), "Booking is already cancelled");
    assert_eq!(BookingError::StorageFailure.message(), "Storage failure");
    assert_eq!(BookingError::InvalidId.message(), "Invalid identifier");
}
