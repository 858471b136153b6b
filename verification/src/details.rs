use vstd::prelude::*;
use crate::db::MongoDB;
use crate::error::BookingError;
use crate::ledger::bookings_of_user;
use crate::models::{status_label, Booking, Bus};
use crate::oid::{hex_text, hex_text_in, is_object_id_text, OBJECT_ID_DIGITS};
use crate::service::object_id_of;
use crate::store::find_bus;

verus! {

/// The passenger of a booking as shown in a listing.
pub struct PassengerEntry {
    pub name: String,
    pub seat_number: String,
    pub age: Option<u32>,
    pub gender: String,
}

/// A booking joined with what the catalog says of its bus.
pub struct BookingDetails {
    pub id: Option<String>,
    pub bus_id: String,
    pub bus_name: String,
    pub bus_type: String,
    pub from: String,
    pub to: String,
    pub departure: String,
    pub arrival: String,
    pub total_price: u64,
    pub seats: Vec<String>,
    pub status: String,
    pub date: String,
    pub booking_date: i64,
    pub booking_id: String,
    pub passengers: Vec<PassengerEntry>,
}

/// Whether the part of the details that comes from the catalog is that
/// of the given bus, or the placeholders where there is none: the name
/// "Unknown Bus", the price 0 and "Unknown" for the rest.
pub open spec fn has_bus_part(d: BookingDetails, bus: Option<Bus>) -> bool {
    match bus {
        Some(b) => {
            &&& d.bus_name@ == b.bus_number@
            &&& d.bus_type@ == b.bus_type@
            &&& d.from@ == b.route.from@
            &&& d.to@ == b.route.to@
            &&& d.departure@ == b.route.departure_time@
            &&& d.arrival@ == b.route.arrival_time@
            &&& d.total_price == b.route.price
        },
        None => {
            &&& d.bus_name@ == "Unknown Bus"@
            &&& d.bus_type@ == "Unknown"@
            &&& d.from@ == "Unknown"@
            &&& d.to@ == "Unknown"@
            &&& d.departure@ == "Unknown"@
            &&& d.arrival@ == "Unknown"@
            &&& d.total_price == 0
        },
    }
}

/// Whether the part of the details that comes from the ledger is that of
/// the given booking: identifiers as text (the booking's own also in
/// upper case, "N/A" where it has none), the one seat, the status in
/// lower case, and one passenger, who is "User" of unknown age and gender
/// "N/A" where the booking names none.
pub open spec fn has_booking_part(d: BookingDetails, b: Booking) -> bool {
    &&& match b.id {
        Some(id) => d.id is Some && d.id->Some_0@ == hex_text(id.value as nat, OBJECT_ID_DIGITS as nat)
            && d.booking_id@ == hex_text_in(id.value as nat, OBJECT_ID_DIGITS as nat, true),
        None => d.id is None && d.booking_id@ == "N/A"@,
    }
    &&& d.bus_id@ == hex_text(b.bus_id.value as nat, OBJECT_ID_DIGITS as nat)
    &&& d.seats@.len() == 1
    &&& d.seats@[0]@ == b.seat_number@
    &&& d.status@ == status_label(b.status)
    &&& d.date@ == b.travel_date@
    &&& d.booking_date == b.booking_date
    &&& d.passengers@.len() == 1
    &&& d.passengers@[0].seat_number@ == b.seat_number@
    &&& match b.passenger {
        Some(p) => {
            &&& d.passengers@[0].name@ == p.name@
            &&& d.passengers@[0].age == Some(p.age)
            &&& d.passengers@[0].gender@ == p.gender@
        },
        None => {
            &&& d.passengers@[0].name@ == "User"@
            &&& d.passengers@[0].age is None
            &&& d.passengers@[0].gender@ == "N/A"@
        },
    }
}

/// Joins a booking with its bus. Where the bus is not known, the
/// listing shows placeholders in its place.
pub fn booking_details(booking: &Booking, bus: Option<&Bus>) -> (details: BookingDetails)
    ensures
        has_booking_part(details, *booking),
        has_bus_part(
            details,
            match bus {
                Some(b) => Some(*b),
                None => None,
            },
        ),
{
    let (id, booking_id) = match booking.id {
        Some(id) => (Some(id.to_hex()), id.to_hex_upper()),
        None => (None, "N/A".to_owned()),
    };
    let passenger = match &booking.passenger {
        Some(p) => PassengerEntry {
            name: p.name.clone(),
            seat_number: booking.seat_number.clone(),
            age: Some(p.age),
            gender: p.gender.clone(),
        },
        None => PassengerEntry {
            name: "User".to_owned(),
            seat_number: booking.seat_number.clone(),
            age: None,
            gender: "N/A".to_owned(),
        },
    };
    let mut seats: Vec<String> = Vec::new();
    seats.push(booking.seat_number.clone());
    let mut passengers: Vec<PassengerEntry> = Vec::new();
    passengers.push(passenger);
    let bus_id = booking.bus_id.to_hex();
    let status = booking.status.label().to_owned();
    let date = booking.travel_date.clone();
    match bus {
        Some(b) => BookingDetails {
            id,
            bus_id,
            bus_name: b.bus_number.clone(),
            bus_type: b.bus_type.clone(),
            from: b.route.from.clone(),
            to: b.route.to.clone(),
            departure: b.route.departure_time.clone(),
            arrival: b.route.arrival_time.clone(),
            total_price: b.route.price,
            seats,
            status,
            date,
            booking_date: booking.booking_date,
            booking_id,
            passengers,
        },
        None => BookingDetails {
            id,
            bus_id,
            bus_name: "Unknown Bus".to_owned(),
            bus_type: "Unknown".to_owned(),
            from: "Unknown".to_owned(),
            to: "Unknown".to_owned(),
            departure: "Unknown".to_owned(),
            arrival: "Unknown".to_owned(),
            total_price: 0,
            seats,
            status,
            date,
            booking_date: booking.booking_date,
            booking_id,
            passengers,
        },
    }
}

impl MongoDB {
    /// The bookings of the user, each joined with its bus, in the order
    /// in which they were made. A booking whose bus the catalog does not
    /// have is listed with placeholders. `InvalidId` where the text is no
    /// identifier.
    pub fn get_user_booking_details(&self, user_id: &str) -> (listing: Result<
        Vec<BookingDetails>,
        BookingError,
    >)
        ensures
            listing is Ok <==> is_object_id_text(user_id@),
            listing is Err ==> listing == Err::<Vec<BookingDetails>, BookingError>(BookingError::InvalidId),
            listing is Ok ==> {
                let mine = bookings_of_user(self.bookings@, object_id_of(user_id@));
                &&& listing->Ok_0@.len() == mine.len()
                &&& forall|i: int|
                    0 <= i < mine.len() ==> has_booking_part(#[trigger] listing->Ok_0@[i], mine[i])
                        && has_bus_part(listing->Ok_0@[i], self.bus_of(mine[i].bus_id))
            },
    {
        let mine = match self.get_user_bookings(user_id) {
            Err(e) => {
                return Err(e);
            },
            Ok(mine) => mine,
        };
        let mut listing: Vec<BookingDetails> = Vec::new();
        let mut i: usize = 0;
        while i < mine.len()
            invariant
                i <= mine@.len(),
                listing@.len() == i,
                forall|k: int|
                    0 <= k < i ==> has_booking_part(#[trigger] listing@[k], mine@[k]) && has_bus_part(
                        listing@[k],
                        self.bus_of(mine@[k].bus_id),
                    ),
            decreases mine@.len() - i,
        {
            let details = match find_bus(&self.buses, mine[i].bus_id) {
                Some(b) => booking_details(&mine[i], Some(&self.buses[b])),
                None => booking_details(&mine[i], None),
            };
            listing.push(details);
            i = i + 1;
        }
        Ok(listing)
    }
}

} // verus!
