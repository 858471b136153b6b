use booking_project::auth::{bearer_token, google_profile, AuthError, finish_login};
use booking_project::db::MongoDB;
use booking_project::details::booking_details;
use booking_project::error::BookingError;
use booking_project::models::{
    Booking, BookingStatus, CreateBookingRequest, LoginRequest, PassengerDetails, RegisterRequest,
    User,
};
use booking_project::oid::ObjectId;

const KNOWN_HASH: &str = "$2b$04$EGdrhbKUv8Oc9vGiXX0HQOxSg445d458Muh7DAHskb6QbtCvdxcie";
const KNOWN_PASSWORD: &str = "correctbatteryhorsestapler";

fn user(id: Option<u128>, email: &str, password: &str) -> User {
    User {
        id: id.map(|value| ObjectId { value }),
        username: "akinyi".to_string(),
        email: email.to_string(),
        password: password.to_string(),
        role: "admin".to_string(),
    }
}

fn login(email: &str, password: &str) -> LoginRequest {
    LoginRequest { email: email.to_string(), password: password.to_string() }
}

#[test]
fn login_checks_the_password_against_the_stored_hash() {
    let mut db = MongoDB::new("users", 0);
    db.users.push(user(Some(0x2a), "a@example.com", KNOWN_HASH));
    let session = db.authenticate_user(&login("a@example.com", KNOWN_PASSWORD), 1_000).unwrap();
    assert_eq!(session.claims.sub, "00000000000000000000002a");
    assert_eq!(session.claims.role, "admin");
    assert_eq!(session.claims.exp, 1_000 + 168 * 3600);
    assert_eq!(session.user.id, "00000000000000000000002a");
    assert_eq!(session.user.username, "akinyi");
    assert_eq!(session.user.email, "a@example.com");
    assert_eq!(
        db.authenticate_user(&login("a@example.com", "wrong"), 1_000).err(),
        Some(AuthError::InvalidCredentials)
    );
    assert_eq!(
        db.authenticate_user(&login("a@example.com", KNOWN_HASH), 1_000).err(),
        Some(AuthError::InvalidCredentials)
    );
    assert_eq!(
        db.authenticate_user(&login("b@example.com", KNOWN_PASSWORD), 1_000).err(),
        Some(AuthError::InvalidCredentials)
    );
}

#[test]
fn login_failures_of_the_record() {
    let mut db = MongoDB::new("users", 0);
    db.users.push(user(None, "a@example.com", KNOWN_HASH));
    db.users.push(user(Some(1), "b@example.com", "not a hash"));
    assert_eq!(
        db.authenticate_user(&login("a@example.com", KNOWN_PASSWORD), 0).err(),
        Some(AuthError::MissingUserId)
    );
    assert_eq!(
        db.authenticate_user(&login("b@example.com", "not a hash"), 0).err(),
        Some(AuthError::HashFailure)
    );
}

#[test]
fn finish_login_for_each_verdict() {
    let u = user(Some(7), "a@example.com", "");
    assert_eq!(finish_login(None, Some(true), 0).err(), Some(AuthError::InvalidCredentials));
    assert_eq!(finish_login(Some(&u), None, 0).err(), Some(AuthError::HashFailure));
    assert_eq!(finish_login(Some(&u), Some(false), 0).err(), Some(AuthError::InvalidCredentials));
    let session = finish_login(Some(&u), Some(true), usize::MAX - 5).unwrap();
    assert_eq!(session.claims.exp, usize::MAX);
    assert_eq!(session.claims.sub, "000000000000000000000007");
}

#[test]
fn registration_hashes_the_password_and_refuses_a_taken_address() {
    let mut db = MongoDB::new("users", 0);
    let request = RegisterRequest {
        username: "otieno".to_string(),
        email: "o@example.com".to_string(),
        password: "hunter2".to_string(),
    };
    let session = db.create_user(&request, 50).unwrap();
    assert_eq!(session.claims.sub, "000000000000000000000000");
    assert_eq!(session.claims.role, "user");
    assert_eq!(session.claims.exp, 50 + 24 * 3600);
    assert_eq!(session.user.username, "otieno");
    assert_eq!(db.users.len(), 1);
    assert_eq!(db.users[0].id, Some(ObjectId { value: 0 }));
    assert_eq!(db.users[0].role, "user");
    assert_ne!(db.users[0].password, "hunter2");
    assert!(db.users[0].password.starts_with("$2b$12$"));
    assert_eq!(db.create_user(&request, 60).err(), Some(AuthError::UserExists));
    assert_eq!(db.users.len(), 1);
    assert!(db.authenticate_user(&login("o@example.com", "hunter2"), 70).is_ok());
}

#[test]
fn a_registered_user_logs_in_with_their_password_only() {
    let mut db = MongoDB::new("users", 0);
    let request = RegisterRequest {
        username: "chebet".to_string(),
        email: "c@example.com".to_string(),
        password: "s3cret!".to_string(),
    };
    db.create_user(&request, 0).unwrap();
    assert_ne!(db.users[0].password, "");
    let session = db.authenticate_user(&login("c@example.com", "s3cret!"), 100).unwrap();
    assert_eq!(session.user.username, "chebet");
    assert_eq!(session.claims.sub, "000000000000000000000000");
    assert_eq!(
        db.authenticate_user(&login("c@example.com", "s3cret"), 100).err(),
        Some(AuthError::InvalidCredentials)
    );
}

#[test]
fn register_user_stores_the_given_hash() {
    let mut db = MongoDB::new("users", 0);
    let request = RegisterRequest {
        username: "n".to_string(),
        email: "n@example.com".to_string(),
        password: KNOWN_PASSWORD.to_string(),
    };
    let session = db.register_user(&request, KNOWN_HASH.to_string(), 0).unwrap();
    assert_eq!(session.user.email, "n@example.com");
    assert_eq!(db.users[0].password, KNOWN_HASH);
    assert_eq!(
        db.register_user(&request, KNOWN_HASH.to_string(), 0).err(),
        Some(AuthError::UserExists)
    );
}

#[test]
fn google_login_finds_or_adds_the_user() {
    let mut db = MongoDB::new("users", 0);
    let first = db.google_login("g@example.com", "Grace", 10).unwrap();
    assert_eq!(first.user.username, "Grace");
    assert_eq!(first.user.role, "user");
    assert_eq!(first.claims.exp, 10 + 24 * 3600);
    assert_eq!(db.users.len(), 1);
    assert_eq!(db.users[0].password, "");
    let again = db.google_login("g@example.com", "Somebody Else", 20).unwrap();
    assert_eq!(again.user.username, "Grace");
    assert_eq!(again.claims.sub, first.claims.sub);
    assert_eq!(db.users.len(), 1);
    db.users.push(user(None, "x@example.com", ""));
    assert_eq!(db.google_login("x@example.com", "X", 0).err(), Some(AuthError::MissingUserId));
}

#[test]
fn google_profile_defaults() {
    assert_eq!(
        google_profile(Some("a@example.com"), Some("Ann")),
        Ok(("a@example.com".to_string(), "Ann".to_string()))
    );
    assert_eq!(
        google_profile(Some("a@example.com"), None),
        Ok(("a@example.com".to_string(), "Google User".to_string()))
    );
    assert_eq!(google_profile(Some(""), Some("Ann")), Err(AuthError::EmailMissing));
    assert_eq!(google_profile(None, Some("Ann")), Err(AuthError::EmailMissing));
}

#[test]
fn bearer_token_is_what_follows_the_prefix() {
    assert_eq!(bearer_token("Bearer abc.def"), Some("abc.def"));
    assert_eq!(bearer_token("Bearer "), Some(""));
    assert_eq!(bearer_token("Bearer é"), Some("é"));
    assert_eq!(bearer_token("bearer abc"), None);
    assert_eq!(bearer_token("Bearer"), None);
    assert_eq!(bearer_token("Bearerx abc"), None);
    assert_eq!(bearer_token(""), None);
}

#[test]
fn auth_error_messages() {
    assert_eq!(AuthError::UserExists.message(), "User already exists");
    assert_eq!(AuthError::InvalidCredentials.message(), "Invalid credentials");
    assert_eq!(AuthError::MissingUserId.message(), "User ID not found");
    assert_eq!(AuthError::EmailMissing.message(), "Email not found in Google token");
}

#[test]
fn details_join_the_bus_or_show_placeholders() {
    let mut db = MongoDB::new("bookings", 10);
    db.seed_data(false);
    let user = "65f0a1b2c3d4e5f6012345ab";
    let request = CreateBookingRequest {
        bus_id: "000000000000000000000002".to_string(),
        seat_number: "8".to_string(),
        travel_date: "2024-05-01".to_string(),
        passenger: Some(PassengerDetails {
            name: "Mwangi".to_string(),
            age: 40,
            gender: "M".to_string(),
        }),
    };
    db.create_booking(user, &request, 77).unwrap();
    let plain = CreateBookingRequest { seat_number: "9".to_string(), passenger: None, ..request };
    db.create_booking(user, &plain, 78).unwrap();
    db.cancel_booking("000000000000000000000001", user).unwrap();

    let listing = db.get_user_booking_details(user).unwrap();
    assert_eq!(listing.len(), 2);
    let first = &listing[0];
    assert_eq!(first.id.as_deref(), Some("000000000000000000000000"));
    assert_eq!(first.bus_id, "000000000000000000000002");
    assert_eq!(first.bus_name, "Tahmeed - KDB 789C");
    assert_eq!(first.bus_type, "Luxury Coach");
    assert_eq!(first.from, "Mombasa");
    assert_eq!(first.to, "Nairobi");
    assert_eq!(first.departure, "09:00 AM");
    assert_eq!(first.arrival, "05:00 PM");
    assert_eq!(first.total_price, 1600);
    assert_eq!(first.seats, vec!["8"]);
    assert_eq!(first.status, "confirmed");
    assert_eq!(first.date, "2024-05-01");
    assert_eq!(first.booking_date, 77);
    assert_eq!(first.passengers.len(), 1);
    assert_eq!(first.passengers[0].name, "Mwangi");
    assert_eq!(first.passengers[0].age, Some(40));
    assert_eq!(first.passengers[0].seat_number, "8");
    let second = &listing[1];
    assert_eq!(second.status, "cancelled");
    assert_eq!(second.passengers[0].name, "User");
    assert_eq!(second.passengers[0].age, None);
    assert_eq!(second.passengers[0].gender, "N/A");

    db.buses.clear();
    let listing = db.get_user_booking_details(user).unwrap();
    assert_eq!(listing.len(), 2);
    assert_eq!(listing[0].bus_name, "Unknown Bus");
    assert_eq!(listing[0].bus_type, "Unknown");
    assert_eq!(listing[0].from, "Unknown");
    assert_eq!(listing[0].total_price, 0);
    assert_eq!(listing[0].seats, vec!["8"]);
    assert_eq!(db.get_user_booking_details("x").err(), Some(BookingError::InvalidId));
}

#[test]
fn details_of_a_booking_without_identifier() {
    let booking = Booking {
        id: None,
        user_id: ObjectId { value: 1 },
        bus_id: ObjectId { value: 0xbeef },
        seat_number: "2".to_string(),
        travel_date: "2024-01-01".to_string(),
        booking_date: 0,
        status: BookingStatus::Confirmed,
        passenger: None,
    };
    let details = booking_details(&booking, None);
    assert_eq!(details.id, None);
    assert_eq!(details.booking_id, "N/A");
    assert_eq!(details.bus_id, "00000000000000000000beef");
    let stored = Booking { id: Some(ObjectId { value: 0xabcdef }), ..booking };
    let details = booking_details(&stored, None);
    assert_eq!(details.booking_id, "000000000000000000ABCDEF");
    assert_eq!(details.id.as_deref(), Some("000000000000000000abcdef"));
    assert_eq!(BookingStatus::Cancelled.name(), "Cancelled");
    assert_eq!(BookingStatus::Confirmed.label(), "confirmed");
}
