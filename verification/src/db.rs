use vstd::prelude::*;
use crate::error::BookingError;
use crate::models::{Booking, Bus, SeatAvailability, User};
use crate::oid::ObjectId;
use crate::search::first_hit;
use crate::seats::{default_seats, seat_views, SeatView};

verus! {

/// The database of the booking engine: the catalog of buses, the stored
/// seat availability, the ledger of bookings and the users, held in
/// memory. The ledger takes at most `max_bookings` records.
pub struct MongoDB {
    pub db_name: String,
    pub users: Vec<User>,
    pub buses: Vec<Bus>,
    pub seat_availability: Vec<SeatAvailability>,
    pub bookings: Vec<Booking>,
    pub max_bookings: usize,
}

/// How an attempt to reserve a seat ended.
#[derive(Clone, Copy, Debug, PartialEq, Eq, Structural)]
pub enum ReserveOutcome {
    Reserved,
    SeatTaken,
    SeatNotFound,
}

/// How an attempt to release a seat ended.
#[derive(Clone, Copy, Debug, PartialEq, Eq, Structural)]
pub enum ReleaseOutcome {
    Released,
    SeatNotFound,
}

/// For each bus of the catalog, whether it has the given identifier.
pub open spec fn bus_hits(buses: Seq<Bus>, id: ObjectId) -> Seq<bool> {
    Seq::new(buses.len(), |i: int| buses[i].id == Some(id))
}

/// For each stored record, whether it is that of the given bus and date.
pub open spec fn doc_hits(docs: Seq<SeatAvailability>, bus: ObjectId, date: Seq<char>) -> Seq<bool> {
    Seq::new(docs.len(), |i: int| docs[i].bus_id == bus && docs[i].travel_date@ == date)
}

/// For each seat, whether it has the given number.
pub open spec fn seat_hits(seats: Seq<SeatView>, number: Seq<char>) -> Seq<bool> {
    Seq::new(seats.len(), |i: int| seats[i].seat_number == number)
}

/// The position of the seat with the given number, if there is one.
pub open spec fn seat_index(seats: Seq<SeatView>, number: Seq<char>) -> Option<int> {
    first_hit(seat_hits(seats, number))
}

/// The seats with the flag of seat `i` set as given.
pub open spec fn with_seat_flag(seats: Seq<SeatView>, i: int, available: bool) -> Seq<SeatView> {
    seats.update(i, SeatView { seat_number: seats[i].seat_number, is_available: available })
}

/// Whether the seat with the given number is available: `None` where the
/// bus is unknown or has no such seat.
pub open spec fn seat_flag(seats: Option<Seq<SeatView>>, number: Seq<char>) -> Option<bool> {
    match seats {
        None => None,
        Some(s) => match seat_index(s, number) {
            None => None,
            Some(i) => Some(s[i].is_available),
        },
    }
}

/// How reserving the seat with the given number ends, given the seats of
/// the bus on the date.
pub open spec fn reserve_outcome(seats: Option<Seq<SeatView>>, number: Seq<char>) -> Result<
    ReserveOutcome,
    BookingError,
> {
    match seats {
        None => Err(BookingError::BusNotFound),
        Some(s) => match seat_flag(seats, number) {
            None => Ok(ReserveOutcome::SeatNotFound),
            Some(true) => Ok(ReserveOutcome::Reserved),
            Some(false) => Ok(ReserveOutcome::SeatTaken),
        },
    }
}

/// How releasing the seat with the given number ends.
pub open spec fn release_outcome(seats: Option<Seq<SeatView>>, number: Seq<char>) -> ReleaseOutcome {
    match seat_flag(seats, number) {
        None => ReleaseOutcome::SeatNotFound,
        Some(_) => ReleaseOutcome::Released,
    }
}

/// The seats after the seat with the given number got the given flag;
/// unchanged where there is no such seat.
pub open spec fn seats_with(seats: Option<Seq<SeatView>>, number: Seq<char>, available: bool) -> Option<
    Seq<SeatView>,
> {
    match seats {
        None => None,
        Some(s) => match seat_index(s, number) {
            None => Some(s),
            Some(i) => Some(with_seat_flag(s, i, available)),
        },
    }
}

impl MongoDB {
    /// The bus with the given identifier, if the catalog has one.
    pub open spec fn bus_of(self, id: ObjectId) -> Option<Bus> {
        match first_hit(bus_hits(self.buses@, id)) {
            Some(i) => Some(self.buses@[i]),
            None => None,
        }
    }

    /// The seats stored for the bus and date, if any are.
    pub open spec fn stored_seats(self, bus: ObjectId, date: Seq<char>) -> Option<Seq<SeatView>> {
        match first_hit(doc_hits(self.seat_availability@, bus, date)) {
            Some(i) => Some(seat_views(self.seat_availability@[i].seats@)),
            None => None,
        }
    }

    /// The seats of the bus on the date: those stored, else the seats
    /// that follow from the bus's seat count, all available; `None` where
    /// nothing is stored and the catalog does not have the bus.
    pub open spec fn seats_of(self, bus: ObjectId, date: Seq<char>) -> Option<Seq<SeatView>> {
        match self.stored_seats(bus, date) {
            Some(s) => Some(s),
            None => match self.bus_of(bus) {
                Some(b) => Some(default_seats(b.total_seats as int)),
                None => None,
            },
        }
    }

    /// Whether the two databases differ at most in their stored seats.
    pub open spec fn same_records(self, other: MongoDB) -> bool {
        &&& self.db_name == other.db_name
        &&& self.users == other.users
        &&& self.buses == other.buses
        &&& self.bookings == other.bookings
        &&& self.max_bookings == other.max_bookings
    }

    /// Whether the two databases show the same seats for every bus and
    /// date but the given one.
    pub open spec fn same_seats_elsewhere(self, other: MongoDB, bus: ObjectId, date: Seq<char>) -> bool {
        forall|b: ObjectId, d: Seq<char>|
            !(b == bus && d == date) ==> #[trigger] self.seats_of(b, d) == other.seats_of(b, d)
    }

    /// Whether the two databases show the same seats for every bus and
    /// date.
    pub open spec fn same_seats(self, other: MongoDB) -> bool {
        forall|b: ObjectId, d: Seq<char>| #[trigger] self.seats_of(b, d) == other.seats_of(b, d)
    }

    /// An empty database whose ledger takes `max_bookings` records.
    pub fn new(db_name: &str, max_bookings: usize) -> (db: MongoDB)
        ensures
            db.db_name@ == db_name@,
            db.users@.len() == 0,
            db.buses@.len() == 0,
            db.seat_availability@.len() == 0,
            db.bookings@.len() == 0,
            db.max_bookings == max_bookings,
            db.consistent(),
    {
        let db = 
        MongoDB {
            db_name: db_name.to_owned(),
            users: Vec::new(),
            buses: Vec::new(),
            seat_availability: Vec::new(),
            bookings: Vec::new(),
            max_bookings,
        };
        proof {
            assert forall|bus: ObjectId, date: Seq<char>| db.seats_of(bus, date) is None by {
                crate::search::lemma_first_hit_absent(doc_hits(db.seat_availability@, bus, date));
                crate::search::lemma_first_hit_absent(bus_hits(db.buses@, bus));
            }
        }
        db
    }

    /// The users.
    pub fn get_users_collection(&self) -> (users: &Vec<User>)
        ensures
            *users == self.users,
    {
        &self.users
    }

    /// The catalog of buses.
    pub fn get_buses_collection(&self) -> (buses: &Vec<Bus>)
        ensures
            *buses == self.buses,
    {
        &self.buses
    }

    /// The stored seat availability.
    pub fn get_seat_availability_collection(&self) -> (docs: &Vec<SeatAvailability>)
        ensures
            *docs == self.seat_availability,
    {
        &self.seat_availability
    }

    /// The ledger of bookings.
    pub fn get_bookings_collection(&self) -> (bookings: &Vec<Booking>)
        ensures
            *bookings == self.bookings,
    {
        &self.bookings
    }

    /// Reads an identifier from its text: `InvalidId` unless the text is
    /// exactly 24 hexadecimal digits, else the number they denote.
    pub fn string_to_id(&self, id: &str) -> (parsed: Result<ObjectId, BookingError>)
        ensures
            parsed is Ok <==> crate::oid::is_object_id_text(id@),
            parsed is Err ==> parsed == Err::<ObjectId, BookingError>(BookingError::InvalidId),
            parsed is Ok ==> parsed->Ok_0.value == crate::oid::hex_value(id@) && parsed->Ok_0.wf(),
    {
        crate::oid::parse_object_id(id)
    }
}

} // verus!
